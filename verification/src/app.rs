//! The view-state machine: the enumerated modes, the per-mode active
//! cursor, and the transition taken for each key. Every mutating
//! transition runs the same pipeline: copy the collection, change one
//! element, write the whole file, reload from it, and reapply the
//! ordering policy.
use vstd::prelude::*;

use crate::codec::{enc_collection, lemma_parse_enc_collection, parse_collection};
use crate::config::ConfigToml;
use crate::json::Json;
use crate::order::{position_of_title, reselect, sorted_tasks, stable_sort_tasks};
use crate::project::{collection_wf, Project, ProjectView};
use crate::selection::{next_spec, prev_spec, Cursor};
use crate::task::{
    priority_cycle, priority_cycle_pos, status_cycle, status_cycle_pos, Status, Task, TaskView,
};

verus! {

/// The modes the interface can be in.
#[derive(Clone, Copy, PartialEq, Eq, Structural, Debug)]
pub enum ViewMode {
    ViewProjects,
    RenameProject,
    AddProject,
    DeleteProject,
    ViewTasks,
    RenameTask,
    ChangeStatusTask,
    ChangePriorityTask,
    AddTask,
    DeleteTask,
    InfoMigration,
}

/// One key event, as the state machine sees it. The terminal shell
/// maps raw key codes onto this.
#[derive(Clone, Copy, PartialEq, Eq, Structural, Debug)]
pub enum Key {
    Enter,
    Esc,
    Up,
    Down,
    Left,
    Right,
    Backspace,
    Char(char),
}

/// What the caller should do after an event.
#[derive(Clone, Copy, PartialEq, Eq, Structural, Debug)]
pub enum Flow {
    Continue,
    Quit,
}

/// Which selection cursor a mode routes up/down movement to.
#[derive(Clone, Copy, PartialEq, Eq, Structural, Debug)]
pub enum CursorRole {
    Projects,
    Tasks,
    Statuses,
    Priorities,
}

/// The cursor that is active in a mode: the project cursor in every
/// project-level mode (and the migration notice), the task cursor in
/// the task-level modes, and the picker cursors in the two pickers.
pub open spec fn active_role(m: ViewMode) -> CursorRole {
    match m {
        ViewMode::ViewProjects => CursorRole::Projects,
        ViewMode::RenameProject => CursorRole::Projects,
        ViewMode::AddProject => CursorRole::Projects,
        ViewMode::DeleteProject => CursorRole::Projects,
        ViewMode::ViewTasks => CursorRole::Tasks,
        ViewMode::RenameTask => CursorRole::Tasks,
        ViewMode::ChangeStatusTask => CursorRole::Statuses,
        ViewMode::ChangePriorityTask => CursorRole::Priorities,
        ViewMode::AddTask => CursorRole::Tasks,
        ViewMode::DeleteTask => CursorRole::Tasks,
        ViewMode::InfoMigration => CursorRole::Projects,
    }
}

/// Modes that work inside the selected project's task list.
pub open spec fn task_mode(m: ViewMode) -> bool {
    m is ViewTasks || m is RenameTask || m is ChangeStatusTask || m is ChangePriorityTask
        || m is AddTask || m is DeleteTask
}

/// Task-level modes that were entered through a guard and so rely on a
/// current task.
pub open spec fn current_task_mode(m: ViewMode) -> bool {
    m is RenameTask || m is ChangeStatusTask || m is ChangePriorityTask || m is DeleteTask
}

/// Project-level modes entered through a guard, relying on a current
/// project.
pub open spec fn current_project_mode(m: ViewMode) -> bool {
    m is RenameProject || m is DeleteProject
}

/// A cursor value fit for a list of this length: set, in range when
/// the list has items, and parked at 0 when it has none.
pub open spec fn cursor_in(c: Option<usize>, len: nat) -> bool {
    match c {
        Some(i) => if len == 0 {
            i == 0
        } else {
            (i as nat) < len
        },
        None => false,
    }
}

/// Everything the state machine's transitions speak about, as one
/// mathematical value.
pub struct AppState {
    pub mode: ViewMode,
    pub pcur: Option<usize>,
    pub tcur: Option<usize>,
    pub scur: Option<usize>,
    pub rcur: Option<usize>,
    pub collection: Seq<ProjectView>,
    pub buffer: Seq<char>,
    pub files: Seq<Option<Seq<char>>>,
    pub active: int,
    pub versions: Seq<Seq<char>>,
}

/// The running application: the four cursors, the mode, the loaded
/// collection, the pending edit-buffer text, the resolved store and
/// the configuration.
pub struct App {
    selected_project_index: Cursor,
    selected_task_index: Cursor,
    selected_status_task_index: Cursor,
    selected_priority_task_index: Cursor,
    view_mode: ViewMode,
    projects: Vec<Project>,
    input: String,
    json: Json,
    config: ConfigToml,
}

impl App {
    /// The whole machine state, abstractly.
    pub closed spec fn st(self) -> AppState {
        AppState {
            mode: self.view_mode,
            pcur: self.selected_project_index.selected,
            tcur: self.selected_task_index.selected,
            scur: self.selected_status_task_index.selected,
            rcur: self.selected_priority_task_index.selected,
            collection: self.projects.deep_view(),
            buffer: self.input@,
            files: self.json.files_view(),
            active: self.json.active_index(),
            versions: self.json.versions_view(),
        }
    }

    pub closed spec fn store_wf(self) -> bool {
        self.json.wf()
    }

    /// The machine's invariant: the collection and store are well
    /// formed, every cursor is set and within its list, and any mode
    /// that relies on a current element has one.
    pub open spec fn wf(self) -> bool {
        let s = self.st();
        &&& collection_wf(s.collection)
        &&& self.store_wf()
        &&& cursor_in(s.pcur, s.collection.len())
        &&& s.tcur is Some
        &&& (s.scur matches Some(k) && k < 3)
        &&& (s.rcur matches Some(k) && k < 4)
        &&& (task_mode(s.mode) ==> s.collection.len() > 0 && (s.pcur->0 as int)
            < s.collection.len() && cursor_in(
            s.tcur,
            s.collection[s.pcur->0 as int].tasks.len(),
        ))
        &&& (current_task_mode(s.mode) ==> s.collection[s.pcur->0 as int].tasks.len() > 0)
        &&& (current_project_mode(s.mode) ==> s.collection.len() > 0)
    }

    /// Build the application state from the resolved store and the
    /// configuration; the migration notice is shown first when the
    /// store applied migrations. None when the persisted file does not
    /// parse (corrupt state, fatal).
    pub fn setup(json: Json, config: ConfigToml, were_applied_migrations: bool) -> (r: Option<
        App,
    >)
        requires
            json.wf(),
        ensures
            match r {
                Some(app) => {
                    &&& app.wf()
                    &&& parse_collection(json.active_content()) == Some(app.st().collection)
                    &&& app.st().mode == (if were_applied_migrations {
                        ViewMode::InfoMigration
                    } else {
                        ViewMode::ViewProjects
                    })
                    &&& app.st().pcur == Some(0usize)
                    &&& app.st().tcur == Some(0usize)
                    &&& app.st().scur == Some(0usize)
                    &&& app.st().rcur == Some(0usize)
                    &&& app.st().buffer == Seq::<char>::empty()
                    &&& app.st().files == json.files_view()
                    &&& app.st().active == json.active_index()
                    &&& app.st().versions == json.versions_view()
                },
                None => parse_collection(json.active_content()) is None,
            },
    {
        let projects = match json.read() {
            Some(ps) => ps,
            None => {
                return None;
            },
        };
        Some(
            App {
                selected_project_index: Cursor::new(),
                selected_task_index: Cursor::new(),
                selected_status_task_index: Cursor::new(),
                selected_priority_task_index: Cursor::new(),
                view_mode: if were_applied_migrations {
                    ViewMode::InfoMigration
                } else {
                    ViewMode::ViewProjects
                },
                projects,
                input: String::new(),
                json,
                config,
            },
        )
    }

    /// The current mode.
    pub fn view_mode(&self) -> (r: ViewMode)
        ensures
            r == self.st().mode,
    {
        self.view_mode
    }

    /// Whether the help footer is shown.
    pub fn show_help(&self) -> (r: bool)
        ensures
            r == self.config_show_help(),
    {
        self.config.ui.show_help
    }

    pub closed spec fn config_show_help(self) -> bool {
        self.config.ui.show_help
    }

    /// The pending edit-buffer text.
    pub fn input_value(&self) -> (r: &str)
        ensures
            r@ == self.st().buffer,
    {
        self.input.as_str()
    }

    /// The cursor that up/down movement drives in the current mode.
    pub fn use_state(&self) -> (r: CursorRole)
        ensures
            r == active_role(self.st().mode),
    {
        match self.view_mode {
            ViewMode::ViewProjects => CursorRole::Projects,
            ViewMode::RenameProject => CursorRole::Projects,
            ViewMode::AddProject => CursorRole::Projects,
            ViewMode::DeleteProject => CursorRole::Projects,
            ViewMode::ViewTasks => CursorRole::Tasks,
            ViewMode::RenameTask => CursorRole::Tasks,
            ViewMode::ChangeStatusTask => CursorRole::Statuses,
            ViewMode::ChangePriorityTask => CursorRole::Priorities,
            ViewMode::AddTask => CursorRole::Tasks,
            ViewMode::DeleteTask => CursorRole::Tasks,
            ViewMode::InfoMigration => CursorRole::Projects,
        }
    }

    /// The selected index of each cursor, for the renderer.
    pub fn selected_project(&self) -> (r: Option<usize>)
        ensures
            r == self.st().pcur,
    {
        self.selected_project_index.selected()
    }

    pub fn selected_task(&self) -> (r: Option<usize>)
        ensures
            r == self.st().tcur,
    {
        self.selected_task_index.selected()
    }

    pub fn selected_status(&self) -> (r: Option<usize>)
        ensures
            r == self.st().scur,
    {
        self.selected_status_task_index.selected()
    }

    pub fn selected_priority(&self) -> (r: Option<usize>)
        ensures
            r == self.st().rcur,
    {
        self.selected_priority_task_index.selected()
    }

    /// How many projects are loaded.
    pub fn project_count(&self) -> (r: usize)
        ensures
            r == self.st().collection.len(),
    {
        self.projects.len()
    }

    /// Move the active cursor to the next item of a list of `len`
    /// items (the list the current mode displays).
    pub fn next(&mut self, len: usize)
        ensures
            final(self).st() == (match active_role(old(self).st().mode) {
                CursorRole::Projects => AppState {
                    pcur: next_spec(old(self).st().pcur, len),
                    ..old(self).st()
                },
                CursorRole::Tasks => AppState {
                    tcur: next_spec(old(self).st().tcur, len),
                    ..old(self).st()
                },
                CursorRole::Statuses => AppState {
                    scur: next_spec(old(self).st().scur, len),
                    ..old(self).st()
                },
                CursorRole::Priorities => AppState {
                    rcur: next_spec(old(self).st().rcur, len),
                    ..old(self).st()
                },
            }),
            final(self).store_wf() == old(self).store_wf(),
            final(self).config_show_help() == old(self).config_show_help(),
    {
        match self.use_state() {
            CursorRole::Projects => self.selected_project_index.next(len),
            CursorRole::Tasks => self.selected_task_index.next(len),
            CursorRole::Statuses => self.selected_status_task_index.next(len),
            CursorRole::Priorities => self.selected_priority_task_index.next(len),
        }
    }

    /// Move the active cursor to the previous item.
    pub fn previous(&mut self, len: usize)
        ensures
            final(self).st() == (match active_role(old(self).st().mode) {
                CursorRole::Projects => AppState {
                    pcur: prev_spec(old(self).st().pcur, len),
                    ..old(self).st()
                },
                CursorRole::Tasks => AppState {
                    tcur: prev_spec(old(self).st().tcur, len),
                    ..old(self).st()
                },
                CursorRole::Statuses => AppState {
                    scur: prev_spec(old(self).st().scur, len),
                    ..old(self).st()
                },
                CursorRole::Priorities => AppState {
                    rcur: prev_spec(old(self).st().rcur, len),
                    ..old(self).st()
                },
            }),
            final(self).store_wf() == old(self).store_wf(),
            final(self).config_show_help() == old(self).config_show_help(),
    {
        match self.use_state() {
            CursorRole::Projects => self.selected_project_index.previous(len),
            CursorRole::Tasks => self.selected_task_index.previous(len),
            CursorRole::Statuses => self.selected_status_task_index.previous(len),
            CursorRole::Priorities => self.selected_priority_task_index.previous(len),
        }
    }

    /// Switch mode.
    fn change_view(&mut self, mode: ViewMode)
        ensures
            final(self).st() == (AppState { mode, ..old(self).st() }),
            final(self).store_wf() == old(self).store_wf(),
            final(self).config_show_help() == old(self).config_show_help(),
    {
        self.view_mode = mode;
    }
}

/// A collection with project `i`'s task list replaced.
pub open spec fn with_tasks(c: Seq<ProjectView>, i: int, ts: Seq<TaskView>) -> Seq<ProjectView> {
    c.update(i, ProjectView { title: c[i].title, tasks: ts })
}

/// The re-selection key the ordering policy captures: the title under
/// the task cursor, or the empty string when the cursor is past the
/// end.
pub open spec fn reselect_key(c: Seq<ProjectView>, i: int, j: int) -> Seq<char> {
    if 0 <= j < c[i].tasks.len() {
        c[i].tasks[j].title
    } else {
        Seq::<char>::empty()
    }
}

impl App {
    /// Write the mutated copy to the store and reload from it; the
    /// collection picked back up is exactly the one written.
    fn persist_and_reload(&mut self, internal: Vec<Project>)
        requires
            old(self).store_wf(),
            collection_wf(internal.deep_view()),
        ensures
            final(self).store_wf(),
            final(self).st() == (AppState {
                collection: internal.deep_view(),
                files: old(self).st().files.update(
                    old(self).st().active,
                    Some(enc_collection(internal.deep_view())),
                ),
                ..old(self).st()
            }),
            final(self).config_show_help() == old(self).config_show_help(),
    {
        self.json.write(&internal);
        proof {
            lemma_parse_enc_collection(internal.deep_view());
        }
        match self.json.read() {
            Some(ps) => {
                self.projects = ps;
            },
            None => {
                proof {
                    assert(false);
                }
            },
        }
    }

    /// Clear the edit buffer.
    fn clear_input(&mut self)
        ensures
            final(self).st() == (AppState { buffer: Seq::<char>::empty(), ..old(self).st() }),
            final(self).store_wf() == old(self).store_wf(),
            final(self).config_show_help() == old(self).config_show_help(),
    {
        self.input = String::new();
    }

    /// Append one typed character to the edit buffer.
    fn input_push(&mut self, c: char)
        ensures
            final(self).st() == (AppState { buffer: old(self).st().buffer.push(c), ..old(
                self,
            ).st() }),
            final(self).store_wf() == old(self).store_wf(),
            final(self).config_show_help() == old(self).config_show_help(),
    {
        crate::chars::push_char(&mut self.input, c);
    }

    /// Remove the last character of the edit buffer, if any.
    fn input_backspace(&mut self)
        ensures
            final(self).st() == (AppState {
                buffer: if old(self).st().buffer.len() > 0 {
                    old(self).st().buffer.drop_last()
                } else {
                    old(self).st().buffer
                },
                ..old(self).st()
            }),
            final(self).store_wf() == old(self).store_wf(),
            final(self).config_show_help() == old(self).config_show_help(),
    {
        let mut cs = crate::chars::to_chars(self.input.as_str());
        if cs.len() > 0 {
            cs.pop();
            proof {
                assert(cs@ =~= old(self).st().buffer.drop_last());
            }
        }
        self.input = crate::chars::from_chars(&cs);
    }

    /// Re-sort the selected project's tasks and point the task cursor
    /// at the first task carrying `key` (or 0 when none does).
    fn apply_order(&mut self, key: &String)
        requires
            collection_wf(old(self).st().collection),
            old(self).st().pcur matches Some(i) && (i as int) < old(self).st().collection.len(),
        ensures
            ({
                let c = old(self).st().collection;
                let i = old(self).st().pcur->0 as int;
                let sorted = sorted_tasks(c[i].tasks);
                &&& final(self).st() == (AppState {
                    collection: with_tasks(c, i, sorted),
                    tcur: Some(reselect(sorted, key@) as usize),
                    ..old(self).st()
                })
                &&& cursor_in(final(self).st().tcur, sorted.len())
                &&& collection_wf(final(self).st().collection)
                &&& sorted.len() == c[i].tasks.len()
            }),
            final(self).store_wf() == old(self).store_wf(),
            final(self).config_show_help() == old(self).config_show_help(),
    {
        let i = match self.selected_project_index.selected() {
            Some(i) => i,
            None => {
                proof {
                    assert(false);
                }
                return ;
            },
        };
        let sorted = stable_sort_tasks(&self.projects[i].tasks);
        let new_index = position_of_title(&sorted, key);
        proof {
            let c = old(self).st().collection;
            crate::order::lemma_sorted_tasks_len(c[i as int].tasks);
            assert(c[i as int].wf());
            crate::order::lemma_sorted_tasks_wf(c[i as int].tasks);
        }
        let title = self.projects[i].title.clone();
        self.projects[i] = Project { title, tasks: sorted };
        self.selected_task_index.select(new_index);
        proof {
            let c = old(self).st().collection;
            let ii = i as int;
            assert(self.projects.deep_view() =~= with_tasks(c, ii, sorted_tasks(c[ii].tasks)));
            assert forall|k: int|
                0 <= k < self.projects.deep_view().len() implies (#[trigger] self.projects.deep_view()[k]).wf() by {
                if k != ii {
                    assert(self.projects.deep_view()[k] == c[k]);
                }
            }
        }
    }
}

impl Project {
    /// The selected project.
    pub fn get_current_project(app: &App) -> (r: &Project)
        requires
            app.st().pcur matches Some(i) && (i as int) < app.st().collection.len(),
        ensures
            r@ == app.st().collection[app.st().pcur->0 as int],
    {
        let i = match app.selected_project_index.selected() {
            Some(i) => i,
            None => {
                proof {
                    assert(false);
                }
                0
            },
        };
        &app.projects[i]
    }

    /// Add a project with this title to the end of the collection and
    /// persist; an empty title makes the whole operation a no-op.
    pub fn create(app: &mut App, value: &str)
        requires
            old(app).wf(),
        ensures
            value@.len() == 0 ==> *final(app) == *old(app),
            value@.len() > 0 ==> final(app).st() == (AppState {
                collection: old(app).st().collection.push(
                    ProjectView { title: value@, tasks: Seq::<TaskView>::empty() },
                ),
                files: old(app).st().files.update(
                    old(app).st().active,
                    Some(
                        enc_collection(
                            old(app).st().collection.push(
                                ProjectView { title: value@, tasks: Seq::<TaskView>::empty() },
                            ),
                        ),
                    ),
                ),
                ..old(app).st()
            }),
            final(app).wf(),
            final(app).config_show_help() == old(app).config_show_help(),
    {
        if value.is_empty() {
            return ;
        }
        let mut internal = crate::project::clone_projects(&app.projects);
        let tasks: Vec<Task> = Vec::new();
        proof {
            assert(tasks.deep_view() =~= Seq::<TaskView>::empty());
        }
        internal.push(Project { title: String::from_str(value), tasks });
        proof {
            let c = old(app).st().collection;
            let pv = ProjectView { title: value@, tasks: Seq::<TaskView>::empty() };
            assert(internal.deep_view() =~= c.push(pv));
            assert forall|k: int|
                0 <= k < internal.deep_view().len() implies (#[trigger] internal.deep_view()[k]).wf() by {
                if k < c.len() {
                    assert(internal.deep_view()[k] == c[k]);
                }
            }
        }
        app.persist_and_reload(internal);
    }

    /// Rename the selected project and persist; an empty title makes
    /// the whole operation a no-op.
    pub fn rename(app: &mut App, value: &str)
        requires
            old(app).wf(),
            old(app).st().pcur matches Some(i) && (i as int) < old(app).st().collection.len(),
        ensures
            value@.len() == 0 ==> *final(app) == *old(app),
            value@.len() > 0 ==> ({
                let c = old(app).st().collection;
                let i = old(app).st().pcur->0 as int;
                let c1 = c.update(i, ProjectView { title: value@, tasks: c[i].tasks });
                final(app).st() == (AppState {
                    collection: c1,
                    files: old(app).st().files.update(
                        old(app).st().active,
                        Some(enc_collection(c1)),
                    ),
                    ..old(app).st()
                })
            }),
            final(app).wf(),
            final(app).config_show_help() == old(app).config_show_help(),
    {
        if value.is_empty() {
            return ;
        }
        let i = match app.selected_project_index.selected() {
            Some(i) => i,
            None => {
                proof {
                    assert(false);
                }
                return ;
            },
        };
        let mut internal = crate::project::clone_projects(&app.projects);
        let mut np = app.projects[i].clone();
        np.title = String::from_str(value);
        internal[i] = np;
        proof {
            let c = old(app).st().collection;
            let ii = i as int;
            let c1 = c.update(ii, ProjectView { title: value@, tasks: c[ii].tasks });
            assert(internal.deep_view() =~= c1);
            assert forall|k: int|
                0 <= k < c1.len() implies (#[trigger] c1[k]).wf() by {
                if k != ii {
                    assert(c1[k] == c[k]);
                }
            }
        }
        app.persist_and_reload(internal);
    }

    /// Remove the selected project and persist. The project cursor is
    /// moved afterwards by the state machine.
    pub fn delete(app: &mut App)
        requires
            old(app).wf(),
            old(app).st().collection.len() > 0,
            old(app).st().pcur matches Some(i) && (i as int) < old(app).st().collection.len(),
        ensures
            ({
                let c = old(app).st().collection;
                let i = old(app).st().pcur->0 as int;
                let c1 = c.remove(i);
                &&& final(app).st() == (AppState {
                    collection: c1,
                    files: old(app).st().files.update(
                        old(app).st().active,
                        Some(enc_collection(c1)),
                    ),
                    ..old(app).st()
                })
                &&& collection_wf(c1)
            }),
            final(app).store_wf(),
            final(app).config_show_help() == old(app).config_show_help(),
    {
        let i = match app.selected_project_index.selected() {
            Some(i) => i,
            None => {
                proof {
                    assert(false);
                }
                return ;
            },
        };
        let mut internal = crate::project::clone_projects(&app.projects);
        internal.remove(i);
        proof {
            let c = old(app).st().collection;
            let ii = i as int;
            assert(internal.deep_view() =~= c.remove(ii));
            assert forall|k: int|
                0 <= k < c.remove(ii).len() implies (#[trigger] c.remove(ii)[k]).wf() by {
                if k < ii {
                    assert(c.remove(ii)[k] == c[k]);
                } else {
                    assert(c.remove(ii)[k] == c[k + 1]);
                }
            }
        }
        app.persist_and_reload(internal);
    }
}

impl Task {
    /// The selected task.
    pub fn get_current(app: &App) -> (r: &Task)
        requires
            app.st().pcur matches Some(i) && (i as int) < app.st().collection.len(),
            app.st().tcur matches Some(j) && (j as int) < app.st().collection[app.st().pcur->0
                as int].tasks.len(),
        ensures
            r@ == app.st().collection[app.st().pcur->0 as int].tasks[app.st().tcur->0 as int],
    {
        let i = match app.selected_project_index.selected() {
            Some(i) => i,
            None => {
                proof {
                    assert(false);
                }
                0
            },
        };
        let j = match app.selected_task_index.selected() {
            Some(j) => j,
            None => {
                proof {
                    assert(false);
                }
                0
            },
        };
        proof {
            assert(app.projects.deep_view()[i as int].tasks[j as int] == app.projects@[
                i as int].tasks.deep_view()[j as int]);
        }
        &app.projects[i].tasks[j]
    }

    /// Reapply the ordering policy to the selected project's task
    /// list: capture the selected title, sort, re-select it.
    pub fn load_items(app: &mut App)
        requires
            collection_wf(old(app).st().collection),
            old(app).st().pcur matches Some(i) && (i as int) < old(app).st().collection.len(),
            old(app).st().tcur is Some,
        ensures
            ({
                let c = old(app).st().collection;
                let i = old(app).st().pcur->0 as int;
                let j = old(app).st().tcur->0 as int;
                let sorted = sorted_tasks(c[i].tasks);
                let key = reselect_key(c, i, j);
                &&& final(app).st() == (AppState {
                    collection: with_tasks(c, i, sorted),
                    tcur: Some(reselect(sorted, key) as usize),
                    ..old(app).st()
                })
                &&& cursor_in(final(app).st().tcur, sorted.len())
                &&& collection_wf(final(app).st().collection)
                &&& sorted.len() == c[i].tasks.len()
            }),
            final(app).store_wf() == old(app).store_wf(),
            final(app).config_show_help() == old(app).config_show_help(),
    {
        let i = match app.selected_project_index.selected() {
            Some(i) => i,
            None => {
                proof {
                    assert(false);
                }
                return ;
            },
        };
        let j = match app.selected_task_index.selected() {
            Some(j) => j,
            None => {
                proof {
                    assert(false);
                }
                return ;
            },
        };
        let key: String = if j < app.projects[i].tasks.len() {
            proof {
                assert(old(app).st().collection[i as int].tasks[j as int] == app.projects@[
                    i as int].tasks.deep_view()[j as int]);
            }
            app.projects[i].tasks[j].title.clone()
        } else {
            String::new()
        };
        app.apply_order(&key);
    }

    /// Replace the collection with what the store holds and reapply
    /// the ordering policy, as every mutation does after its write.
    pub fn reload(app: &mut App)
        requires
            old(app).store_wf(),
            old(app).st().files[old(app).st().active] matches Some(text) && (
            parse_collection(text) matches Some(c) && {
                &&& old(app).st().pcur matches Some(i) && (i as int) < c.len()
                &&& old(app).st().tcur is Some
            }),
        ensures
            ({
                let c = parse_collection(old(app).st().files[old(app).st().active]->0)->0;
                let i = old(app).st().pcur->0 as int;
                let j = old(app).st().tcur->0 as int;
                let sorted = sorted_tasks(c[i].tasks);
                let key = reselect_key(c, i, j);
                &&& final(app).st() == (AppState {
                    collection: with_tasks(c, i, sorted),
                    tcur: Some(reselect(sorted, key) as usize),
                    ..old(app).st()
                })
                &&& cursor_in(final(app).st().tcur, sorted.len())
                &&& collection_wf(final(app).st().collection)
            }),
            final(app).store_wf(),
            final(app).config_show_help() == old(app).config_show_help(),
    {
        proof {
            crate::json::lemma_active_content(app.json);
        }
        match app.json.read() {
            Some(ps) => {
                app.projects = ps;
            },
            None => {
                proof {
                    assert(false);
                }
            },
        }
        Task::load_items(app);
    }

    /// Append a task (up next, no priority) with this title to the
    /// selected project and persist; an empty title makes the whole
    /// operation a no-op. The cursor then points at the new task.
    pub fn create(app: &mut App, value: &str)
        requires
            old(app).wf(),
            old(app).st().collection.len() > 0,
            old(app).st().pcur matches Some(i) && (i as int) < old(app).st().collection.len(),
        ensures
            value@.len() == 0 ==> *final(app) == *old(app),
            value@.len() > 0 ==> ({
                let c = old(app).st().collection;
                let i = old(app).st().pcur->0 as int;
                let nt = TaskView { title: value@, status: Status::UpNext, priority: 0u8 };
                let c1 = with_tasks(c, i, c[i].tasks.push(nt));
                let sorted = sorted_tasks(c1[i].tasks);
                &&& final(app).st() == (AppState {
                    collection: with_tasks(c1, i, sorted),
                    files: old(app).st().files.update(
                        old(app).st().active,
                        Some(enc_collection(c1)),
                    ),
                    tcur: Some(reselect(sorted, value@) as usize),
                    ..old(app).st()
                })
                &&& cursor_in(final(app).st().tcur, sorted.len())
                &&& collection_wf(final(app).st().collection)
                &&& sorted.len() == c[i].tasks.len() + 1
            }),
            final(app).store_wf(),
            final(app).config_show_help() == old(app).config_show_help(),
    {
        if value.is_empty() {
            return ;
        }
        let i = match app.selected_project_index.selected() {
            Some(i) => i,
            None => {
                proof {
                    assert(false);
                }
                return ;
            },
        };
        let mut internal = crate::project::clone_projects(&app.projects);
        let new_task = Task {
            title: String::from_str(value),
            status: Status::UpNext,
            priority: 0,
        };
        let mut np = app.projects[i].clone();
        np.tasks.push(new_task);
        internal[i] = np;
        proof {
            let c = old(app).st().collection;
            let ii = i as int;
            let nt = TaskView { title: value@, status: Status::UpNext, priority: 0u8 };
            assert(internal.deep_view()[ii].tasks =~= c[ii].tasks.push(nt));
            assert(internal.deep_view() =~= with_tasks(c, ii, c[ii].tasks.push(nt)));
            let c1 = with_tasks(c, ii, c[ii].tasks.push(nt));
            assert forall|k: int| 0 <= k < c1.len() implies (#[trigger] c1[k]).wf() by {
                if k != ii {
                    assert(c1[k] == c[k]);
                } else {
                    assert(c[ii].wf());
                    assert forall|m: int|
                        0 <= m < c1[ii].tasks.len() implies (#[trigger] c1[ii].tasks[m]).wf() by {
                        if m < c[ii].tasks.len() {
                            assert(c1[ii].tasks[m] == c[ii].tasks[m]);
                        }
                    }
                }
            }
        }
        app.persist_and_reload(internal);
        let key = String::from_str(value);
        app.apply_order(&key);
    }

    /// Rename the selected task and persist; an empty title makes the
    /// whole operation a no-op.
    pub fn rename(app: &mut App, value: &str)
        requires
            old(app).wf(),
            old(app).st().pcur matches Some(i) && (i as int) < old(app).st().collection.len(),
            old(app).st().tcur matches Some(j) && (j as int) < old(app).st().collection[old(
                app,
            ).st().pcur->0 as int].tasks.len(),
        ensures
            value@.len() == 0 ==> *final(app) == *old(app),
            value@.len() > 0 ==> ({
                let c = old(app).st().collection;
                let i = old(app).st().pcur->0 as int;
                let j = old(app).st().tcur->0 as int;
                let t0 = c[i].tasks[j];
                let c1 = with_tasks(
                    c,
                    i,
                    c[i].tasks.update(
                        j,
                        TaskView { title: value@, status: t0.status, priority: t0.priority },
                    ),
                );
                let sorted = sorted_tasks(c1[i].tasks);
                &&& final(app).st() == (AppState {
                    collection: with_tasks(c1, i, sorted),
                    files: old(app).st().files.update(
                        old(app).st().active,
                        Some(enc_collection(c1)),
                    ),
                    tcur: Some(reselect(sorted, value@) as usize),
                    ..old(app).st()
                })
                &&& cursor_in(final(app).st().tcur, sorted.len())
                &&& collection_wf(final(app).st().collection)
                &&& sorted.len() == c[i].tasks.len()
            }),
            final(app).store_wf(),
            final(app).config_show_help() == old(app).config_show_help(),
    {
        if value.is_empty() {
            return ;
        }
        let i = match app.selected_project_index.selected() {
            Some(i) => i,
            None => {
                proof {
                    assert(false);
                }
                return ;
            },
        };
        let j = match app.selected_task_index.selected() {
            Some(j) => j,
            None => {
                proof {
                    assert(false);
                }
                return ;
            },
        };
        let mut internal = crate::project::clone_projects(&app.projects);
        let mut np = app.projects[i].clone();
        let mut nt = app.projects[i].tasks[j].clone();
        nt.title = String::from_str(value);
        np.tasks[j] = nt;
        internal[i] = np;
        proof {
            let c = old(app).st().collection;
            let ii = i as int;
            let jj = j as int;
            let t0 = c[ii].tasks[jj];
            assert(c[ii].tasks[jj] == old(app).projects@[ii].tasks.deep_view()[jj]);
            let tv = TaskView { title: value@, status: t0.status, priority: t0.priority };
            assert(internal.deep_view()[ii].tasks =~= c[ii].tasks.update(jj, tv));
            assert(internal.deep_view() =~= with_tasks(c, ii, c[ii].tasks.update(jj, tv)));
            let c1 = with_tasks(c, ii, c[ii].tasks.update(jj, tv));
            assert forall|k: int| 0 <= k < c1.len() implies (#[trigger] c1[k]).wf() by {
                if k != ii {
                    assert(c1[k] == c[k]);
                } else {
                    assert(c[ii].wf());
                    assert forall|m: int|
                        0 <= m < c1[ii].tasks.len() implies (#[trigger] c1[ii].tasks[m]).wf() by {
                        if m != jj {
                            assert(c1[ii].tasks[m] == c[ii].tasks[m]);
                        } else {
                            assert(c[ii].tasks[jj].wf());
                        }
                    }
                }
            }
        }
        app.persist_and_reload(internal);
        let key = String::from_str(value);
        app.apply_order(&key);
    }
}

impl Task {
    /// Set the selected task's status and persist.
    pub fn change_status(app: &mut App, value: Status)
        requires
            old(app).wf(),
            old(app).st().pcur matches Some(i) && (i as int) < old(app).st().collection.len(),
            old(app).st().tcur matches Some(j) && (j as int) < old(app).st().collection[old(
                app,
            ).st().pcur->0 as int].tasks.len(),
        ensures
            ({
                let c = old(app).st().collection;
                let i = old(app).st().pcur->0 as int;
                let j = old(app).st().tcur->0 as int;
                let t0 = c[i].tasks[j];
                let c1 = with_tasks(
                    c,
                    i,
                    c[i].tasks.update(
                        j,
                        TaskView { title: t0.title, status: value, priority: t0.priority },
                    ),
                );
                let sorted = sorted_tasks(c1[i].tasks);
                &&& final(app).st() == (AppState {
                    collection: with_tasks(c1, i, sorted),
                    files: old(app).st().files.update(
                        old(app).st().active,
                        Some(enc_collection(c1)),
                    ),
                    tcur: Some(reselect(sorted, t0.title) as usize),
                    ..old(app).st()
                })
                &&& cursor_in(final(app).st().tcur, sorted.len())
                &&& collection_wf(final(app).st().collection)
                &&& sorted.len() == c[i].tasks.len()
            }),
            final(app).store_wf(),
            final(app).config_show_help() == old(app).config_show_help(),
    {
        let i = match app.selected_project_index.selected() {
            Some(i) => i,
            None => {
                proof {
                    assert(false);
                }
                return ;
            },
        };
        let j = match app.selected_task_index.selected() {
            Some(j) => j,
            None => {
                proof {
                    assert(false);
                }
                return ;
            },
        };
        let mut internal = crate::project::clone_projects(&app.projects);
        let mut np = app.projects[i].clone();
        let mut nt = app.projects[i].tasks[j].clone();
        let key = nt.title.clone();
        nt.status = value;
        np.tasks[j] = nt;
        internal[i] = np;
        proof {
            let c = old(app).st().collection;
            let ii = i as int;
            let jj = j as int;
            let t0 = c[ii].tasks[jj];
            assert(c[ii].tasks[jj] == old(app).projects@[ii].tasks.deep_view()[jj]);
            let tv = TaskView { title: t0.title, status: value, priority: t0.priority };
            assert(internal.deep_view()[ii].tasks =~= c[ii].tasks.update(jj, tv));
            assert(internal.deep_view() =~= with_tasks(c, ii, c[ii].tasks.update(jj, tv)));
            let c1 = with_tasks(c, ii, c[ii].tasks.update(jj, tv));
            assert forall|k: int| 0 <= k < c1.len() implies (#[trigger] c1[k]).wf() by {
                if k != ii {
                    assert(c1[k] == c[k]);
                } else {
                    assert(c[ii].wf());
                    assert forall|m: int|
                        0 <= m < c1[ii].tasks.len() implies (#[trigger] c1[ii].tasks[m]).wf() by {
                        if m != jj {
                            assert(c1[ii].tasks[m] == c[ii].tasks[m]);
                        } else {
                            assert(c[ii].tasks[jj].wf());
                        }
                    }
                }
            }
        }
        app.persist_and_reload(internal);
        app.apply_order(&key);
    }

    /// Set the selected task's priority (0 unset, 1 high, 2 medium, 3
    /// low) and persist.
    pub fn change_priority(app: &mut App, value: u8)
        requires
            old(app).wf(),
            value <= crate::task::PRIORITY_MAX,
            old(app).st().pcur matches Some(i) && (i as int) < old(app).st().collection.len(),
            old(app).st().tcur matches Some(j) && (j as int) < old(app).st().collection[old(
                app,
            ).st().pcur->0 as int].tasks.len(),
        ensures
            ({
                let c = old(app).st().collection;
                let i = old(app).st().pcur->0 as int;
                let j = old(app).st().tcur->0 as int;
                let t0 = c[i].tasks[j];
                let c1 = with_tasks(
                    c,
                    i,
                    c[i].tasks.update(
                        j,
                        TaskView { title: t0.title, status: t0.status, priority: value },
                    ),
                );
                let sorted = sorted_tasks(c1[i].tasks);
                &&& final(app).st() == (AppState {
                    collection: with_tasks(c1, i, sorted),
                    files: old(app).st().files.update(
                        old(app).st().active,
                        Some(enc_collection(c1)),
                    ),
                    tcur: Some(reselect(sorted, t0.title) as usize),
                    ..old(app).st()
                })
                &&& cursor_in(final(app).st().tcur, sorted.len())
                &&& collection_wf(final(app).st().collection)
                &&& sorted.len() == c[i].tasks.len()
            }),
            final(app).store_wf(),
            final(app).config_show_help() == old(app).config_show_help(),
    {
        let i = match app.selected_project_index.selected() {
            Some(i) => i,
            None => {
                proof {
                    assert(false);
                }
                return ;
            },
        };
        let j = match app.selected_task_index.selected() {
            Some(j) => j,
            None => {
                proof {
                    assert(false);
                }
                return ;
            },
        };
        let mut internal = crate::project::clone_projects(&app.projects);
        let mut np = app.projects[i].clone();
        let mut nt = app.projects[i].tasks[j].clone();
        let key = nt.title.clone();
        nt.priority = value;
        np.tasks[j] = nt;
        internal[i] = np;
        proof {
            let c = old(app).st().collection;
            let ii = i as int;
            let jj = j as int;
            let t0 = c[ii].tasks[jj];
            assert(c[ii].tasks[jj] == old(app).projects@[ii].tasks.deep_view()[jj]);
            let tv = TaskView { title: t0.title, status: t0.status, priority: value };
            assert(internal.deep_view()[ii].tasks =~= c[ii].tasks.update(jj, tv));
            assert(internal.deep_view() =~= with_tasks(c, ii, c[ii].tasks.update(jj, tv)));
            let c1 = with_tasks(c, ii, c[ii].tasks.update(jj, tv));
            assert forall|k: int| 0 <= k < c1.len() implies (#[trigger] c1[k]).wf() by {
                if k != ii {
                    assert(c1[k] == c[k]);
                } else {
                    assert(c[ii].wf());
                    assert forall|m: int|
                        0 <= m < c1[ii].tasks.len() implies (#[trigger] c1[ii].tasks[m]).wf() by {
                        if m != jj {
                            assert(c1[ii].tasks[m] == c[ii].tasks[m]);
                        } else {
                            assert(c[ii].tasks[jj].wf());
                        }
                    }
                }
            }
        }
        app.persist_and_reload(internal);
        app.apply_order(&key);
    }

    /// Remove the selected task and persist. The task cursor then
    /// follows the re-selection policy; the state machine steps it
    /// back one place afterwards.
    pub fn delete(app: &mut App)
        requires
            old(app).wf(),
            old(app).st().pcur matches Some(i) && (i as int) < old(app).st().collection.len(),
            old(app).st().tcur matches Some(j) && (j as int) < old(app).st().collection[old(
                app,
            ).st().pcur->0 as int].tasks.len(),
        ensures
            ({
                let c = old(app).st().collection;
                let i = old(app).st().pcur->0 as int;
                let j = old(app).st().tcur->0 as int;
                let c1 = with_tasks(c, i, c[i].tasks.remove(j));
                let sorted = sorted_tasks(c1[i].tasks);
                &&& final(app).st() == (AppState {
                    collection: with_tasks(c1, i, sorted),
                    files: old(app).st().files.update(
                        old(app).st().active,
                        Some(enc_collection(c1)),
                    ),
                    tcur: Some(reselect(sorted, reselect_key(c1, i, j)) as usize),
                    ..old(app).st()
                })
                &&& cursor_in(final(app).st().tcur, sorted.len())
                &&& collection_wf(final(app).st().collection)
                &&& sorted.len() == c[i].tasks.len() - 1
            }),
            final(app).store_wf(),
            final(app).config_show_help() == old(app).config_show_help(),
    {
        let i = match app.selected_project_index.selected() {
            Some(i) => i,
            None => {
                proof {
                    assert(false);
                }
                return ;
            },
        };
        let j = match app.selected_task_index.selected() {
            Some(j) => j,
            None => {
                proof {
                    assert(false);
                }
                return ;
            },
        };
        let mut internal = crate::project::clone_projects(&app.projects);
        let mut np = app.projects[i].clone();
        np.tasks.remove(j);
        internal[i] = np;
        proof {
            let c = old(app).st().collection;
            let ii = i as int;
            let jj = j as int;
            assert(internal.deep_view()[ii].tasks =~= c[ii].tasks.remove(jj));
            assert(internal.deep_view() =~= with_tasks(c, ii, c[ii].tasks.remove(jj)));
            let c1 = with_tasks(c, ii, c[ii].tasks.remove(jj));
            assert forall|k: int| 0 <= k < c1.len() implies (#[trigger] c1[k]).wf() by {
                if k != ii {
                    assert(c1[k] == c[k]);
                } else {
                    assert(c[ii].wf());
                    assert forall|m: int|
                        0 <= m < c1[ii].tasks.len() implies (#[trigger] c1[ii].tasks[m]).wf() by {
                        if m < jj {
                            assert(c1[ii].tasks[m] == c[ii].tasks[m]);
                        } else {
                            assert(c1[ii].tasks[m] == c[ii].tasks[m + 1]);
                        }
                    }
                }
            }
        }
        app.persist_and_reload(internal);
        // Capture the title now under the cursor (or nothing at the end
        // of the list), as the policy does on every load.
        let key: String = if j < app.projects[i].tasks.len() {
            proof {
                let c1 = with_tasks(
                    old(app).st().collection,
                    i as int,
                    old(app).st().collection[i as int].tasks.remove(j as int),
                );
                assert(c1[i as int].tasks[j as int] == app.projects@[i as int].tasks.deep_view()[
                    j as int]);
            }
            app.projects[i].tasks[j].title.clone()
        } else {
            String::new()
        };
        app.apply_order(&key);
    }
}

/// No state change, no quit.
pub open spec fn no_change(pre: AppState, post: AppState, flow: Flow) -> bool {
    post == pre && flow is Continue
}

/// The index of the selected project.
pub open spec fn proj_of(s: AppState) -> int {
    s.pcur->0 as int
}

/// The selected project's task list.
pub open spec fn tasks_of(s: AppState) -> Seq<TaskView> {
    s.collection[proj_of(s)].tasks
}

/// The index of the selected task.
pub open spec fn task_of(s: AppState) -> int {
    s.tcur->0 as int
}

/// State after a task-level mutation pipeline: the mutated collection
/// is persisted, reloaded, re-sorted, and the cursor re-selected by
/// `key`.
pub open spec fn task_pipeline(pre: AppState, c1: Seq<ProjectView>, key: Seq<char>, mode: ViewMode, post_buffer: Seq<char>, post: AppState) -> bool {
    let i = proj_of(pre);
    let sorted = sorted_tasks(c1[i].tasks);
    post == (AppState {
        mode,
        collection: with_tasks(c1, i, sorted),
        files: pre.files.update(pre.active, Some(enc_collection(c1))),
        tcur: Some(reselect(sorted, key) as usize),
        buffer: post_buffer,
        ..pre
    })
}

/// The legal transitions of the view-state machine, one case per mode
/// and key. Keys not named in a mode leave the state unchanged; in the
/// text-entry modes they edit the buffer instead.
pub open spec fn transition(pre: AppState, key: Key, post: AppState, flow: Flow) -> bool {
    match pre.mode {
        ViewMode::ViewProjects => match key {
            Key::Enter | Key::Right | Key::Char('l') => if pre.collection.len() == 0 {
                no_change(pre, post, flow)
            } else {
                let i = proj_of(pre);
                post == (AppState {
                    mode: ViewMode::ViewTasks,
                    collection: with_tasks(pre.collection, i, sorted_tasks(pre.collection[i].tasks)),
                    tcur: Some(0usize),
                    ..pre
                }) && flow is Continue
            },
            Key::Char('r') => if pre.collection.len() == 0 {
                no_change(pre, post, flow)
            } else {
                post == (AppState {
                    mode: ViewMode::RenameProject,
                    buffer: pre.collection[proj_of(pre)].title,
                    ..pre
                }) && flow is Continue
            },
            Key::Char('n') => post == (AppState {
                mode: ViewMode::AddProject,
                buffer: Seq::<char>::empty(),
                ..pre
            }) && flow is Continue,
            Key::Char('d') => if pre.collection.len() == 0 {
                no_change(pre, post, flow)
            } else {
                post == (AppState { mode: ViewMode::DeleteProject, ..pre }) && flow is Continue
            },
            Key::Down | Key::Char('j') => post == (AppState {
                pcur: next_spec(pre.pcur, pre.collection.len() as usize),
                ..pre
            }) && flow is Continue,
            Key::Up | Key::Char('k') => post == (AppState {
                pcur: prev_spec(pre.pcur, pre.collection.len() as usize),
                ..pre
            }) && flow is Continue,
            Key::Char('q') => post == pre && flow is Quit,
            _ => no_change(pre, post, flow),
        },
        ViewMode::RenameProject => match key {
            Key::Enter => flow is Continue && (if pre.buffer.len() == 0 {
                post == (AppState {
                    mode: ViewMode::ViewProjects,
                    buffer: Seq::<char>::empty(),
                    ..pre
                })
            } else {
                let i = proj_of(pre);
                let c1 = pre.collection.update(
                    i,
                    ProjectView { title: pre.buffer, tasks: pre.collection[i].tasks },
                );
                post == (AppState {
                    mode: ViewMode::ViewProjects,
                    buffer: Seq::<char>::empty(),
                    collection: c1,
                    files: pre.files.update(pre.active, Some(enc_collection(c1))),
                    ..pre
                })
            }),
            Key::Esc => post == (AppState {
                mode: ViewMode::ViewProjects,
                buffer: Seq::<char>::empty(),
                ..pre
            }) && flow is Continue,
            Key::Backspace => post == (AppState {
                buffer: if pre.buffer.len() > 0 {
                    pre.buffer.drop_last()
                } else {
                    pre.buffer
                },
                ..pre
            }) && flow is Continue,
            Key::Char(c) => post == (AppState { buffer: pre.buffer.push(c), ..pre })
                && flow is Continue,
            _ => no_change(pre, post, flow),
        },
        ViewMode::AddProject => match key {
            Key::Enter => flow is Continue && (if pre.buffer.len() == 0 {
                post == (AppState {
                    mode: ViewMode::ViewProjects,
                    buffer: Seq::<char>::empty(),
                    ..pre
                })
            } else {
                let c1 = pre.collection.push(
                    ProjectView { title: pre.buffer, tasks: Seq::<TaskView>::empty() },
                );
                post == (AppState {
                    mode: ViewMode::ViewProjects,
                    buffer: Seq::<char>::empty(),
                    collection: c1,
                    files: pre.files.update(pre.active, Some(enc_collection(c1))),
                    ..pre
                })
            }),
            Key::Esc => post == (AppState {
                mode: ViewMode::ViewProjects,
                buffer: Seq::<char>::empty(),
                ..pre
            }) && flow is Continue,
            Key::Backspace => post == (AppState {
                buffer: if pre.buffer.len() > 0 {
                    pre.buffer.drop_last()
                } else {
                    pre.buffer
                },
                ..pre
            }) && flow is Continue,
            Key::Char(c) => post == (AppState { buffer: pre.buffer.push(c), ..pre })
                && flow is Continue,
            _ => no_change(pre, post, flow),
        },
        ViewMode::DeleteProject => match key {
            Key::Char('y') => {
                let i = proj_of(pre);
                let c1 = pre.collection.remove(i);
                post == (AppState {
                    mode: ViewMode::ViewProjects,
                    collection: c1,
                    files: pre.files.update(pre.active, Some(enc_collection(c1))),
                    pcur: Some((if i > 0 {
                        i - 1
                    } else {
                        0int
                    }) as usize),
                    ..pre
                }) && flow is Continue
            },
            Key::Char('n') => post == (AppState { mode: ViewMode::ViewProjects, ..pre })
                && flow is Continue,
            _ => no_change(pre, post, flow),
        },
        ViewMode::ViewTasks => match key {
            Key::Esc | Key::Left | Key::Char('h') => post == (AppState {
                mode: ViewMode::ViewProjects,
                ..pre
            }) && flow is Continue,
            Key::Enter => if tasks_of(pre).len() == 0 {
                no_change(pre, post, flow)
            } else {
                post == (AppState {
                    mode: ViewMode::ChangeStatusTask,
                    scur: Some(
                        crate::task::status_cycle_pos(tasks_of(pre)[task_of(pre)].status) as usize,
                    ),
                    ..pre
                }) && flow is Continue
            },
            Key::Char('p') => if tasks_of(pre).len() == 0 {
                no_change(pre, post, flow)
            } else {
                post == (AppState {
                    mode: ViewMode::ChangePriorityTask,
                    rcur: Some(
                        crate::task::priority_cycle_pos(
                            tasks_of(pre)[task_of(pre)].priority,
                        ) as usize,
                    ),
                    ..pre
                }) && flow is Continue
            },
            Key::Char('r') => if tasks_of(pre).len() == 0 {
                no_change(pre, post, flow)
            } else {
                post == (AppState {
                    mode: ViewMode::RenameTask,
                    buffer: tasks_of(pre)[task_of(pre)].title,
                    ..pre
                }) && flow is Continue
            },
            Key::Char('n') => post == (AppState {
                mode: ViewMode::AddTask,
                buffer: Seq::<char>::empty(),
                ..pre
            }) && flow is Continue,
            Key::Char('d') => if tasks_of(pre).len() == 0 {
                no_change(pre, post, flow)
            } else {
                post == (AppState { mode: ViewMode::DeleteTask, ..pre }) && flow is Continue
            },
            Key::Down | Key::Char('j') => post == (AppState {
                tcur: next_spec(pre.tcur, tasks_of(pre).len() as usize),
                ..pre
            }) && flow is Continue,
            Key::Up | Key::Char('k') => post == (AppState {
                tcur: prev_spec(pre.tcur, tasks_of(pre).len() as usize),
                ..pre
            }) && flow is Continue,
            Key::Char('q') => post == pre && flow is Quit,
            _ => no_change(pre, post, flow),
        },
        ViewMode::RenameTask => match key {
            Key::Enter => flow is Continue && (if pre.buffer.len() == 0 {
                post == (AppState {
                    mode: ViewMode::ViewTasks,
                    buffer: Seq::<char>::empty(),
                    ..pre
                })
            } else {
                let i = proj_of(pre);
                let j = task_of(pre);
                let t0 = tasks_of(pre)[j];
                let c1 = with_tasks(
                    pre.collection,
                    i,
                    tasks_of(pre).update(
                        j,
                        TaskView { title: pre.buffer, status: t0.status, priority: t0.priority },
                    ),
                );
                task_pipeline(pre, c1, pre.buffer, ViewMode::ViewTasks, Seq::<char>::empty(), post)
            }),
            Key::Esc => post == (AppState {
                mode: ViewMode::ViewTasks,
                buffer: Seq::<char>::empty(),
                ..pre
            }) && flow is Continue,
            Key::Backspace => post == (AppState {
                buffer: if pre.buffer.len() > 0 {
                    pre.buffer.drop_last()
                } else {
                    pre.buffer
                },
                ..pre
            }) && flow is Continue,
            Key::Char(c) => post == (AppState { buffer: pre.buffer.push(c), ..pre })
                && flow is Continue,
            _ => no_change(pre, post, flow),
        },
        ViewMode::AddTask => match key {
            Key::Enter => flow is Continue && (if pre.buffer.len() == 0 {
                post == (AppState {
                    mode: ViewMode::ViewTasks,
                    buffer: Seq::<char>::empty(),
                    ..pre
                })
            } else {
                let i = proj_of(pre);
                let c1 = with_tasks(
                    pre.collection,
                    i,
                    tasks_of(pre).push(
                        TaskView { title: pre.buffer, status: Status::UpNext, priority: 0u8 },
                    ),
                );
                task_pipeline(pre, c1, pre.buffer, ViewMode::ViewTasks, Seq::<char>::empty(), post)
            }),
            Key::Esc => post == (AppState {
                mode: ViewMode::ViewTasks,
                buffer: Seq::<char>::empty(),
                ..pre
            }) && flow is Continue,
            Key::Backspace => post == (AppState {
                buffer: if pre.buffer.len() > 0 {
                    pre.buffer.drop_last()
                } else {
                    pre.buffer
                },
                ..pre
            }) && flow is Continue,
            Key::Char(c) => post == (AppState { buffer: pre.buffer.push(c), ..pre })
                && flow is Continue,
            _ => no_change(pre, post, flow),
        },
        ViewMode::DeleteTask => match key {
            Key::Char('y') => {
                let i = proj_of(pre);
                let j = task_of(pre);
                let c1 = with_tasks(pre.collection, i, tasks_of(pre).remove(j));
                let sorted = sorted_tasks(c1[i].tasks);
                let r = reselect(sorted, reselect_key(c1, i, j)) as usize;
                post == (AppState {
                    mode: ViewMode::ViewTasks,
                    collection: with_tasks(c1, i, sorted),
                    files: pre.files.update(pre.active, Some(enc_collection(c1))),
                    tcur: Some(if r == 0 {
                        0usize
                    } else {
                        (r - 1) as usize
                    }),
                    ..pre
                }) && flow is Continue
            },
            Key::Char('n') => post == (AppState { mode: ViewMode::ViewTasks, ..pre })
                && flow is Continue,
            _ => no_change(pre, post, flow),
        },
        ViewMode::ChangeStatusTask => match key {
            Key::Enter => {
                let i = proj_of(pre);
                let j = task_of(pre);
                let t0 = tasks_of(pre)[j];
                let value = crate::task::status_cycle()[pre.scur->0 as int];
                let c1 = with_tasks(
                    pre.collection,
                    i,
                    tasks_of(pre).update(
                        j,
                        TaskView { title: t0.title, status: value, priority: t0.priority },
                    ),
                );
                let sorted = sorted_tasks(c1[i].tasks);
                post == (AppState {
                    mode: ViewMode::ViewTasks,
                    collection: with_tasks(c1, i, sorted),
                    files: pre.files.update(pre.active, Some(enc_collection(c1))),
                    tcur: Some(reselect(sorted, t0.title) as usize),
                    scur: Some(0usize),
                    ..pre
                }) && flow is Continue
            },
            Key::Down | Key::Char('j') => post == (AppState {
                scur: next_spec(pre.scur, 3),
                ..pre
            }) && flow is Continue,
            Key::Up | Key::Char('k') => post == (AppState {
                scur: prev_spec(pre.scur, 3),
                ..pre
            }) && flow is Continue,
            Key::Esc => post == (AppState { mode: ViewMode::ViewTasks, ..pre })
                && flow is Continue,
            _ => no_change(pre, post, flow),
        },
        ViewMode::ChangePriorityTask => match key {
            Key::Enter => {
                let i = proj_of(pre);
                let j = task_of(pre);
                let t0 = tasks_of(pre)[j];
                let value = crate::task::priority_cycle()[pre.rcur->0 as int];
                let c1 = with_tasks(
                    pre.collection,
                    i,
                    tasks_of(pre).update(
                        j,
                        TaskView { title: t0.title, status: t0.status, priority: value },
                    ),
                );
                let sorted = sorted_tasks(c1[i].tasks);
                post == (AppState {
                    mode: ViewMode::ViewTasks,
                    collection: with_tasks(c1, i, sorted),
                    files: pre.files.update(pre.active, Some(enc_collection(c1))),
                    tcur: Some(reselect(sorted, t0.title) as usize),
                    rcur: Some(0usize),
                    ..pre
                }) && flow is Continue
            },
            Key::Down | Key::Char('j') => post == (AppState {
                rcur: next_spec(pre.rcur, 4),
                ..pre
            }) && flow is Continue,
            Key::Up | Key::Char('k') => post == (AppState {
                rcur: prev_spec(pre.rcur, 4),
                ..pre
            }) && flow is Continue,
            Key::Esc => post == (AppState { mode: ViewMode::ViewTasks, ..pre })
                && flow is Continue,
            _ => no_change(pre, post, flow),
        },
        ViewMode::InfoMigration => post == (AppState { mode: ViewMode::ViewProjects, ..pre })
            && flow is Continue,
    }
}

impl App {
    /// Feed one key event into the state machine: per-mode dispatch,
    /// the guard rule for commands that need a current element, and
    /// the mutation pipeline behind every confirmed change.
    pub fn handle_key(&mut self, key: Key) -> (r: Flow)
        requires
            old(self).wf(),
        ensures
            final(self).wf(),
            transition(old(self).st(), key, final(self).st(), r),
            final(self).config_show_help() == old(self).config_show_help(),
    {
        match self.view_mode {
            ViewMode::ViewProjects => self.on_view_projects(key),
            ViewMode::RenameProject => self.on_rename_project(key),
            ViewMode::AddProject => self.on_add_project(key),
            ViewMode::DeleteProject => self.on_delete_project(key),
            ViewMode::ViewTasks => self.on_view_tasks(key),
            ViewMode::RenameTask => self.on_rename_task(key),
            ViewMode::AddTask => self.on_add_task(key),
            ViewMode::DeleteTask => self.on_delete_task(key),
            ViewMode::ChangeStatusTask => self.on_change_status(key),
            ViewMode::ChangePriorityTask => self.on_change_priority(key),
            ViewMode::InfoMigration => self.on_info_migration(key),
        }
    }

    fn on_view_projects(&mut self, key: Key) -> (r: Flow)
        requires
            old(self).wf(),
            old(self).st().mode is ViewProjects,
        ensures
            final(self).wf(),
            transition(old(self).st(), key, final(self).st(), r),
            final(self).config_show_help() == old(self).config_show_help(),
    {
        match key {
            Key::Enter | Key::Right | Key::Char('l') => {
                if self.projects.len() == 0 {
                    return Flow::Continue;
                }
                Task::load_items(self);
                self.selected_task_index.select(0);
                self.change_view(ViewMode::ViewTasks);
                Flow::Continue
            },
            Key::Char('r') => {
                if self.projects.len() == 0 {
                    return Flow::Continue;
                }
                let title = Project::get_current_project(self).title.clone();
                self.input = title;
                self.change_view(ViewMode::RenameProject);
                Flow::Continue
            },
            Key::Char('n') => {
                self.clear_input();
                self.change_view(ViewMode::AddProject);
                Flow::Continue
            },
            Key::Char('d') => {
                if self.projects.len() == 0 {
                    return Flow::Continue;
                }
                self.change_view(ViewMode::DeleteProject);
                Flow::Continue
            },
            Key::Down | Key::Char('j') => {
                let len = self.projects.len();
                self.next(len);
                Flow::Continue
            },
            Key::Up | Key::Char('k') => {
                let len = self.projects.len();
                self.previous(len);
                Flow::Continue
            },
            Key::Char('q') => Flow::Quit,
            _ => Flow::Continue,
        }
    }

    fn on_rename_project(&mut self, key: Key) -> (r: Flow)
        requires
            old(self).wf(),
            old(self).st().mode is RenameProject,
        ensures
            final(self).wf(),
            transition(old(self).st(), key, final(self).st(), r),
            final(self).config_show_help() == old(self).config_show_help(),
    {
        match key {
            Key::Enter => {
                let value = self.input.clone();
                Project::rename(self, value.as_str());
                self.clear_input();
                self.change_view(ViewMode::ViewProjects);
                Flow::Continue
            },
            Key::Esc => {
                self.clear_input();
                self.change_view(ViewMode::ViewProjects);
                Flow::Continue
            },
            Key::Backspace => {
                self.input_backspace();
                Flow::Continue
            },
            Key::Char(c) => {
                self.input_push(c);
                Flow::Continue
            },
            _ => Flow::Continue,
        }
    }

    fn on_add_project(&mut self, key: Key) -> (r: Flow)
        requires
            old(self).wf(),
            old(self).st().mode is AddProject,
        ensures
            final(self).wf(),
            transition(old(self).st(), key, final(self).st(), r),
            final(self).config_show_help() == old(self).config_show_help(),
    {
        match key {
            Key::Enter => {
                let value = self.input.clone();
                Project::create(self, value.as_str());
                self.clear_input();
                self.change_view(ViewMode::ViewProjects);
                Flow::Continue
            },
            Key::Esc => {
                self.clear_input();
                self.change_view(ViewMode::ViewProjects);
                Flow::Continue
            },
            Key::Backspace => {
                self.input_backspace();
                Flow::Continue
            },
            Key::Char(c) => {
                self.input_push(c);
                Flow::Continue
            },
            _ => Flow::Continue,
        }
    }

    fn on_delete_project(&mut self, key: Key) -> (r: Flow)
        requires
            old(self).wf(),
            old(self).st().mode is DeleteProject,
        ensures
            final(self).wf(),
            transition(old(self).st(), key, final(self).st(), r),
            final(self).config_show_help() == old(self).config_show_help(),
    {
        match key {
            Key::Char('y') => {
                Project::delete(self);
                self.selected_project_index.select_previous();
                self.change_view(ViewMode::ViewProjects);
                Flow::Continue
            },
            Key::Char('n') => {
                self.change_view(ViewMode::ViewProjects);
                Flow::Continue
            },
            _ => Flow::Continue,
        }
    }

    fn on_view_tasks(&mut self, key: Key) -> (r: Flow)
        requires
            old(self).wf(),
            old(self).st().mode is ViewTasks,
        ensures
            final(self).wf(),
            transition(old(self).st(), key, final(self).st(), r),
            final(self).config_show_help() == old(self).config_show_help(),
    {
        match key {
            Key::Esc | Key::Left | Key::Char('h') => {
                self.change_view(ViewMode::ViewProjects);
                Flow::Continue
            },
            Key::Enter => {
                let i = match self.selected_project_index.selected() {
                    Some(i) => i,
                    None => {
                        proof {
                            assert(false);
                        }
                        return Flow::Continue;
                    },
                };
                if self.projects[i].tasks.len() == 0 {
                    return Flow::Continue;
                }
                let pos: usize = match Task::get_current(self).status {
                    Status::UpNext => 0,
                    Status::OnGoing => 1,
                    Status::Done => 2,
                };
                self.selected_status_task_index.select(pos);
                self.change_view(ViewMode::ChangeStatusTask);
                Flow::Continue
            },
            Key::Char('p') => {
                let i = match self.selected_project_index.selected() {
                    Some(i) => i,
                    None => {
                        proof {
                            assert(false);
                        }
                        return Flow::Continue;
                    },
                };
                if self.projects[i].tasks.len() == 0 {
                    return Flow::Continue;
                }
                let p = Task::get_current(self).priority;
                proof {
                    let st = old(self).st();
                    assert(st.collection[proj_of(st)].wf());
                    assert(tasks_of(st)[task_of(st)].wf());
                }
                let pos: usize = if p == 0 {
                    3
                } else {
                    (p - 1) as usize
                };
                self.selected_priority_task_index.select(pos);
                self.change_view(ViewMode::ChangePriorityTask);
                Flow::Continue
            },
            Key::Char('r') => {
                let i = match self.selected_project_index.selected() {
                    Some(i) => i,
                    None => {
                        proof {
                            assert(false);
                        }
                        return Flow::Continue;
                    },
                };
                if self.projects[i].tasks.len() == 0 {
                    return Flow::Continue;
                }
                let title = Task::get_current(self).title.clone();
                self.input = title;
                self.change_view(ViewMode::RenameTask);
                Flow::Continue
            },
            Key::Char('n') => {
                self.clear_input();
                self.change_view(ViewMode::AddTask);
                Flow::Continue
            },
            Key::Char('d') => {
                let i = match self.selected_project_index.selected() {
                    Some(i) => i,
                    None => {
                        proof {
                            assert(false);
                        }
                        return Flow::Continue;
                    },
                };
                if self.projects[i].tasks.len() == 0 {
                    return Flow::Continue;
                }
                self.change_view(ViewMode::DeleteTask);
                Flow::Continue
            },
            Key::Down | Key::Char('j') => {
                let i = match self.selected_project_index.selected() {
                    Some(i) => i,
                    None => {
                        proof {
                            assert(false);
                        }
                        return Flow::Continue;
                    },
                };
                let len = self.projects[i].tasks.len();
                self.next(len);
                Flow::Continue
            },
            Key::Up | Key::Char('k') => {
                let i = match self.selected_project_index.selected() {
                    Some(i) => i,
                    None => {
                        proof {
                            assert(false);
                        }
                        return Flow::Continue;
                    },
                };
                let len = self.projects[i].tasks.len();
                self.previous(len);
                Flow::Continue
            },
            Key::Char('q') => Flow::Quit,
            _ => Flow::Continue,
        }
    }

    fn on_rename_task(&mut self, key: Key) -> (r: Flow)
        requires
            old(self).wf(),
            old(self).st().mode is RenameTask,
        ensures
            final(self).wf(),
            transition(old(self).st(), key, final(self).st(), r),
            final(self).config_show_help() == old(self).config_show_help(),
    {
        match key {
            Key::Enter => {
                let value = self.input.clone();
                Task::rename(self, value.as_str());
                self.clear_input();
                self.change_view(ViewMode::ViewTasks);
                Flow::Continue
            },
            Key::Esc => {
                self.clear_input();
                self.change_view(ViewMode::ViewTasks);
                Flow::Continue
            },
            Key::Backspace => {
                self.input_backspace();
                Flow::Continue
            },
            Key::Char(c) => {
                self.input_push(c);
                Flow::Continue
            },
            _ => Flow::Continue,
        }
    }

    fn on_add_task(&mut self, key: Key) -> (r: Flow)
        requires
            old(self).wf(),
            old(self).st().mode is AddTask,
        ensures
            final(self).wf(),
            transition(old(self).st(), key, final(self).st(), r),
            final(self).config_show_help() == old(self).config_show_help(),
    {
        match key {
            Key::Enter => {
                let value = self.input.clone();
                Task::create(self, value.as_str());
                self.clear_input();
                self.change_view(ViewMode::ViewTasks);
                Flow::Continue
            },
            Key::Esc => {
                self.clear_input();
                self.change_view(ViewMode::ViewTasks);
                Flow::Continue
            },
            Key::Backspace => {
                self.input_backspace();
                Flow::Continue
            },
            Key::Char(c) => {
                self.input_push(c);
                Flow::Continue
            },
            _ => Flow::Continue,
        }
    }

    fn on_delete_task(&mut self, key: Key) -> (r: Flow)
        requires
            old(self).wf(),
            old(self).st().mode is DeleteTask,
        ensures
            final(self).wf(),
            transition(old(self).st(), key, final(self).st(), r),
            final(self).config_show_help() == old(self).config_show_help(),
    {
        match key {
            Key::Char('y') => {
                Task::delete(self);
                proof {
                    let pre = old(self).st();
                    let c1 = with_tasks(
                        pre.collection,
                        proj_of(pre),
                        tasks_of(pre).remove(task_of(pre)),
                    );
                    crate::order::lemma_reselect_bounds(
                        sorted_tasks(c1[proj_of(pre)].tasks),
                        reselect_key(c1, proj_of(pre), task_of(pre)),
                    );
                }
                self.selected_task_index.select_previous();
                self.change_view(ViewMode::ViewTasks);
                Flow::Continue
            },
            Key::Char('n') => {
                self.change_view(ViewMode::ViewTasks);
                Flow::Continue
            },
            _ => Flow::Continue,
        }
    }

    fn on_change_status(&mut self, key: Key) -> (r: Flow)
        requires
            old(self).wf(),
            old(self).st().mode is ChangeStatusTask,
        ensures
            final(self).wf(),
            transition(old(self).st(), key, final(self).st(), r),
            final(self).config_show_help() == old(self).config_show_help(),
    {
        match key {
            Key::Enter => {
                let k = match self.selected_status_task_index.selected() {
                    Some(k) => k,
                    None => {
                        proof {
                            assert(false);
                        }
                        return Flow::Continue;
                    },
                };
                let value = if k == 0 {
                    Status::UpNext
                } else if k == 1 {
                    Status::OnGoing
                } else {
                    Status::Done
                };
                proof {
                    assert(value == crate::task::status_cycle()[old(self).st().scur->0
                        as int]);
                }
                Task::change_status(self, value);
                self.selected_status_task_index.select(0);
                self.change_view(ViewMode::ViewTasks);
                Flow::Continue
            },
            Key::Down | Key::Char('j') => {
                self.next(3);
                Flow::Continue
            },
            Key::Up | Key::Char('k') => {
                self.previous(3);
                Flow::Continue
            },
            Key::Esc => {
                self.change_view(ViewMode::ViewTasks);
                Flow::Continue
            },
            _ => Flow::Continue,
        }
    }

    fn on_change_priority(&mut self, key: Key) -> (r: Flow)
        requires
            old(self).wf(),
            old(self).st().mode is ChangePriorityTask,
        ensures
            final(self).wf(),
            transition(old(self).st(), key, final(self).st(), r),
            final(self).config_show_help() == old(self).config_show_help(),
    {
        match key {
            Key::Enter => {
                let k = match self.selected_priority_task_index.selected() {
                    Some(k) => k,
                    None => {
                        proof {
                            assert(false);
                        }
                        return Flow::Continue;
                    },
                };
                let value: u8 = if k == 0 {
                    1
                } else if k == 1 {
                    2
                } else if k == 2 {
                    3
                } else {
                    0
                };
                proof {
                    assert(value == crate::task::priority_cycle()[old(self).st().rcur->0
                        as int]);
                }
                Task::change_priority(self, value);
                self.selected_priority_task_index.select(0);
                self.change_view(ViewMode::ViewTasks);
                Flow::Continue
            },
            Key::Down | Key::Char('j') => {
                self.next(4);
                Flow::Continue
            },
            Key::Up | Key::Char('k') => {
                self.previous(4);
                Flow::Continue
            },
            Key::Esc => {
                self.change_view(ViewMode::ViewTasks);
                Flow::Continue
            },
            _ => Flow::Continue,
        }
    }

    fn on_info_migration(&mut self, key: Key) -> (r: Flow)
        requires
            old(self).wf(),
            old(self).st().mode is InfoMigration,
        ensures
            final(self).wf(),
            transition(old(self).st(), key, final(self).st(), r),
            final(self).config_show_help() == old(self).config_show_help(),
    {
        self.change_view(ViewMode::ViewProjects);
        Flow::Continue
    }
}
impl Project {
    /// The rows of the project list: each project's title with its
    /// done-task tally and percentage.
    pub fn load(app: &App) -> (r: Vec<crate::project::ProjectRow>)
        ensures
            r@.len() == app.st().collection.len(),
            forall|k: int|
                0 <= k < r@.len() ==> {
                    let c = app.st().collection;
                    &&& (#[trigger] r@[k]).title@ == c[k].title
                    &&& r@[k].total == c[k].tasks.len()
                    &&& r@[k].done == crate::project::done_count(c[k].tasks)
                    &&& r@[k].percent <= 100
                    &&& (c[k].tasks.len() == 0 ==> r@[k].percent == 0)
                    &&& (c[k].tasks.len() > 0 ==> r@[k].percent == crate::project::done_count(
                        c[k].tasks,
                    ) * 100 / c[k].tasks.len())
                },
    {
        let mut r: Vec<crate::project::ProjectRow> = Vec::new();
        let mut i: usize = 0;
        while i < app.projects.len()
            invariant
                i <= app.projects@.len(),
                r@.len() == i,
                forall|k: int|
                    0 <= k < i ==> {
                        let c = app.st().collection;
                        &&& (#[trigger] r@[k]).title@ == c[k].title
                        &&& r@[k].total == c[k].tasks.len()
                        &&& r@[k].done == crate::project::done_count(c[k].tasks)
                        &&& r@[k].percent <= 100
                        &&& (c[k].tasks.len() == 0 ==> r@[k].percent == 0)
                        &&& (c[k].tasks.len() > 0 ==> r@[k].percent == crate::project::done_count(
                            c[k].tasks,
                        ) * 100 / c[k].tasks.len())
                    },
            decreases app.projects@.len() - i,
        {
            let done = crate::project::count_done(&app.projects[i].tasks);
            let total = app.projects[i].tasks.len();
            let percent: u8 = if total == 0 {
                0
            } else {
                (((done as u128) * 100) / (total as u128)) as u8
            };
            proof {
                assert(app.st().collection[i as int] == app.projects@[i as int]@);
                if total > 0 {
                    assert((done as int) * 100 / (total as int) <= 100) by (nonlinear_arith)
                        requires
                            0 <= done <= total,
                            0 < total,
                    ;
                }
            }
            r.push(
                crate::project::ProjectRow {
                    title: app.projects[i].title.clone(),
                    done,
                    total,
                    percent,
                },
            );
            i = i + 1;
        }
        r
    }
}

impl App {
    /// The selected project's task list, as the renderer shows it
    /// (already in display order). Empty when no project is selected.
    pub fn current_tasks(&self) -> (r: Vec<Task>)
        ensures
            ({
                let s = self.st();
                match s.pcur {
                    Some(i) => if (i as int) < s.collection.len() {
                        r.deep_view() == s.collection[i as int].tasks
                    } else {
                        r.deep_view().len() == 0
                    },
                    None => r.deep_view().len() == 0,
                }
            }),
    {
        match self.selected_project_index.selected() {
            Some(i) if i < self.projects.len() => {
                let ts = crate::project::clone_projects(&self.projects);
                proof {
                    assert(self.projects.deep_view()[i as int].tasks == self.projects@[
                        i as int]@.tasks);
                }
                let mut v = ts;
                proof {
                    assert(v@.len() == v.deep_view().len());
                    assert(self.projects.deep_view().len() == self.projects@.len());
                }
                let ghost vd = v.deep_view();
                let ghost vv = v@;
                let p = v.remove(i);
                proof {
                    assert(vd[i as int] == vv[i as int]@);
                    assert(p@ == self.projects.deep_view()[i as int]);
                }
                p.tasks
            },
            _ => {
                let r: Vec<Task> = Vec::new();
                proof {
                    assert(r.deep_view() =~= Seq::<TaskView>::empty());
                }
                r
            },
        }
    }

    /// The title named in the pending delete confirmation: the
    /// selected task's in task deletion, the selected project's in
    /// project deletion, nothing otherwise.
    pub fn delete_target_title(&self) -> (r: String)
        requires
            self.wf(),
        ensures
            r@ == (match self.st().mode {
                ViewMode::DeleteTask => tasks_of(self.st())[task_of(self.st())].title,
                ViewMode::DeleteProject => self.st().collection[proj_of(self.st())].title,
                _ => Seq::<char>::empty(),
            }),
    {
        match self.view_mode {
            ViewMode::DeleteTask => Task::get_current(self).title.clone(),
            ViewMode::DeleteProject => Project::get_current_project(self).title.clone(),
            _ => String::new(),
        }
    }

    /// The selected project's title, shown over the task list.
    pub fn current_project_title(&self) -> (r: String)
        requires
            self.st().pcur matches Some(i) && (i as int) < self.st().collection.len(),
        ensures
            r@ == self.st().collection[proj_of(self.st())].title,
    {
        Project::get_current_project(self).title.clone()
    }
}

impl App {
    /// The store, for the shell that mirrors its files to disk.
    pub fn store(&self) -> (r: &Json)
        ensures
            r.files_view() == self.st().files,
            r.versions_view() == self.st().versions,
            r.active_index() == self.st().active,
    {
        &self.json
    }

    /// Hand the store a snapshot freshly read from disk (see
    /// `Json::refresh_files`).
    pub fn refresh_files(&mut self, files: Vec<Option<String>>) -> (r: bool)
        requires
            old(self).wf(),
        ensures
            final(self).wf(),
            r ==> final(self).st() == (AppState { files: files.deep_view(), ..old(self).st() }),
            !r ==> final(self).st() == old(self).st(),
            final(self).config_show_help() == old(self).config_show_help(),
    {
        self.json.refresh_files(files)
    }
}

} // verus!
