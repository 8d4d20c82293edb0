use taskdeck::app::{App, Flow, Key, ViewMode};
use taskdeck::config::Config;
use taskdeck::json::Json;
use taskdeck::project::Project;
use taskdeck::task::Status;

fn fresh_app() -> App {
    let (store, applied) =
        Json::check(vec!["v1".to_string()], vec![None]).unwrap();
    App::setup(store, Config::get_default(), applied).unwrap()
}

fn app_with_content(content: &str) -> App {
    let (store, applied) =
        Json::check(vec!["v1".to_string()], vec![Some(content.to_string())]).unwrap();
    App::setup(store, Config::get_default(), applied).unwrap()
}

fn type_text(app: &mut App, text: &str) {
    for c in text.chars() {
        app.handle_key(Key::Char(c));
    }
}

fn add_project(app: &mut App, title: &str) {
    app.handle_key(Key::Char('n'));
    type_text(app, title);
    app.handle_key(Key::Enter);
}

#[test]
fn guarded_commands_ignore_empty_project_list() {
    // Drill-in, rename and delete need a current project: on an empty
    // list they leave everything as it was.
    let mut app = fresh_app();
    assert_eq!(app.project_count(), 0);
    for key in [Key::Enter, Key::Right, Key::Char('l'), Key::Char('r'), Key::Char('d')] {
        let flow = app.handle_key(key);
        assert_eq!(flow, Flow::Continue);
        assert_eq!(app.view_mode(), ViewMode::ViewProjects);
        assert_eq!(app.project_count(), 0);
    }
}

#[test]
fn guarded_commands_ignore_empty_task_list() {
    let mut app = fresh_app();
    add_project(&mut app, "P");
    app.handle_key(Key::Enter);
    assert_eq!(app.view_mode(), ViewMode::ViewTasks);
    for key in [Key::Enter, Key::Char('p'), Key::Char('r'), Key::Char('d')] {
        app.handle_key(key);
        assert_eq!(app.view_mode(), ViewMode::ViewTasks);
    }
}

#[test]
fn create_with_empty_title_changes_nothing() {
    let mut app = fresh_app();
    app.handle_key(Key::Char('n'));
    assert_eq!(app.view_mode(), ViewMode::AddProject);
    app.handle_key(Key::Enter);
    assert_eq!(app.view_mode(), ViewMode::ViewProjects);
    assert_eq!(app.project_count(), 0);
}

#[test]
fn create_and_rename_project() {
    let mut app = fresh_app();
    add_project(&mut app, "First");
    assert_eq!(app.project_count(), 1);
    let rows = Project::load(&app);
    assert_eq!(rows[0].title, "First");
    // Rename it; the edit buffer starts from the current title.
    app.handle_key(Key::Char('r'));
    assert_eq!(app.view_mode(), ViewMode::RenameProject);
    assert_eq!(app.input_value(), "First");
    app.handle_key(Key::Backspace);
    type_text(&mut app, "st!");
    app.handle_key(Key::Enter);
    let rows = Project::load(&app);
    assert_eq!(rows[0].title, "Firsst!");
    // Renaming to nothing is ignored.
    app.handle_key(Key::Char('r'));
    for _ in 0.."Firsst!".len() {
        app.handle_key(Key::Backspace);
    }
    app.handle_key(Key::Enter);
    let rows = Project::load(&app);
    assert_eq!(rows[0].title, "Firsst!");
}

#[test]
fn delete_moves_cursor_to_previous_index() {
    let mut app = fresh_app();
    add_project(&mut app, "A");
    add_project(&mut app, "B");
    add_project(&mut app, "C");
    // Move to the last project and delete it.
    app.handle_key(Key::Down);
    app.handle_key(Key::Down);
    assert_eq!(app.selected_project(), Some(2));
    app.handle_key(Key::Char('d'));
    assert_eq!(app.view_mode(), ViewMode::DeleteProject);
    app.handle_key(Key::Char('y'));
    assert_eq!(app.project_count(), 2);
    assert_eq!(app.selected_project(), Some(1));
    // Delete the first project: the cursor stays at 0.
    app.handle_key(Key::Up);
    assert_eq!(app.selected_project(), Some(0));
    app.handle_key(Key::Char('d'));
    app.handle_key(Key::Char('y'));
    assert_eq!(app.project_count(), 1);
    assert_eq!(app.selected_project(), Some(0));
}

#[test]
fn delete_answer_no_keeps_project() {
    let mut app = fresh_app();
    add_project(&mut app, "Keep");
    app.handle_key(Key::Char('d'));
    app.handle_key(Key::Char('n'));
    assert_eq!(app.view_mode(), ViewMode::ViewProjects);
    assert_eq!(app.project_count(), 1);
}

#[test]
fn ordering_policy_groups_and_reselects() {
    // Tasks stored as [Done p0, UpNext p1, OnGoing p0]: the display
    // order puts the prioritized task first, then the two unset ones
    // grouped ongoing before done.
    let content = "[{\"title\":\"P\",\"tasks\":[\
        {\"title\":\"A\",\"status\":\"Done\",\"priority\":0},\
        {\"title\":\"B\",\"status\":\"UpNext\",\"priority\":1},\
        {\"title\":\"C\",\"status\":\"OnGoing\",\"priority\":0}]}]";
    let mut app = app_with_content(content);
    app.handle_key(Key::Enter);
    assert_eq!(app.view_mode(), ViewMode::ViewTasks);
    let tasks = app.current_tasks();
    let titles: Vec<&str> = tasks.iter().map(|t| t.title.as_str()).collect();
    assert_eq!(titles, vec!["B", "C", "A"]);
    assert_eq!(tasks[0].priority, 1);
    assert_eq!(tasks[1].status, Status::OnGoing);
    assert_eq!(tasks[2].status, Status::Done);
    // Move onto C and raise its priority: the list reorders, and the
    // cursor follows the same task to its new place.
    app.handle_key(Key::Down);
    app.handle_key(Key::Char('p'));
    assert_eq!(app.view_mode(), ViewMode::ChangePriorityTask);
    assert_eq!(app.selected_priority(), Some(3));
    app.handle_key(Key::Up);
    app.handle_key(Key::Up);
    app.handle_key(Key::Up);
    assert_eq!(app.selected_priority(), Some(0));
    app.handle_key(Key::Enter);
    assert_eq!(app.view_mode(), ViewMode::ViewTasks);
    let tasks = app.current_tasks();
    let titles: Vec<&str> = tasks.iter().map(|t| t.title.as_str()).collect();
    assert_eq!(titles, vec!["C", "B", "A"]);
    assert_eq!(app.selected_task(), Some(0));
}

#[test]
fn add_task_selects_the_new_task() {
    let content = "[{\"title\":\"P\",\"tasks\":[\
        {\"title\":\"Old\",\"status\":\"OnGoing\",\"priority\":1}]}]";
    let mut app = app_with_content(content);
    app.handle_key(Key::Enter);
    app.handle_key(Key::Char('n'));
    assert_eq!(app.view_mode(), ViewMode::AddTask);
    type_text(&mut app, "New");
    app.handle_key(Key::Enter);
    assert_eq!(app.view_mode(), ViewMode::ViewTasks);
    let tasks = app.current_tasks();
    assert_eq!(tasks.len(), 2);
    // The new task is up next without priority, so it sorts last.
    assert_eq!(tasks[1].title, "New");
    assert_eq!(tasks[1].status, Status::UpNext);
    assert_eq!(tasks[1].priority, 0);
    assert_eq!(app.selected_task(), Some(1));
}

#[test]
fn status_picker_seeds_from_current_task() {
    let content = "[{\"title\":\"P\",\"tasks\":[\
        {\"title\":\"T\",\"status\":\"Done\",\"priority\":0}]}]";
    let mut app = app_with_content(content);
    app.handle_key(Key::Enter);
    app.handle_key(Key::Enter);
    assert_eq!(app.view_mode(), ViewMode::ChangeStatusTask);
    assert_eq!(app.selected_status(), Some(2));
    // Pick "UpNext" (wrap forward to position 0).
    app.handle_key(Key::Down);
    assert_eq!(app.selected_status(), Some(0));
    app.handle_key(Key::Enter);
    assert_eq!(app.view_mode(), ViewMode::ViewTasks);
    let tasks = app.current_tasks();
    assert_eq!(tasks[0].status, Status::UpNext);
    // The picker cursor is reset for the next use.
    assert_eq!(app.selected_status(), Some(0));
}

#[test]
fn delete_task_steps_cursor_back() {
    let content = "[{\"title\":\"P\",\"tasks\":[\
        {\"title\":\"T1\",\"status\":\"UpNext\",\"priority\":1},\
        {\"title\":\"T2\",\"status\":\"UpNext\",\"priority\":2}]}]";
    let mut app = app_with_content(content);
    app.handle_key(Key::Enter);
    app.handle_key(Key::Down);
    assert_eq!(app.selected_task(), Some(1));
    app.handle_key(Key::Char('d'));
    assert_eq!(app.delete_target_title(), "T2");
    app.handle_key(Key::Char('y'));
    assert_eq!(app.view_mode(), ViewMode::ViewTasks);
    let tasks = app.current_tasks();
    assert_eq!(tasks.len(), 1);
    assert_eq!(tasks[0].title, "T1");
    assert_eq!(app.selected_task(), Some(0));
}

#[test]
fn migration_notice_dismisses_to_projects() {
    let content = "[{\"title\":\"A\",\"tasks\":[]}]".to_string();
    let (store, applied) =
        Json::check(vec!["v1".to_string(), "v2".to_string()], vec![Some(content), None]).unwrap();
    assert!(applied);
    let mut app = App::setup(store, Config::get_default(), applied).unwrap();
    assert_eq!(app.view_mode(), ViewMode::InfoMigration);
    app.handle_key(Key::Char('x'));
    assert_eq!(app.view_mode(), ViewMode::ViewProjects);
    assert_eq!(app.project_count(), 1);
}

#[test]
fn quit_only_from_list_views() {
    let mut app = fresh_app();
    assert_eq!(app.handle_key(Key::Char('q')), Flow::Quit);
    app.handle_key(Key::Char('n'));
    // In text entry, q is a letter.
    assert_eq!(app.handle_key(Key::Char('q')), Flow::Continue);
    assert_eq!(app.input_value(), "q");
}

#[test]
fn leaving_tasks_returns_to_projects() {
    let mut app = fresh_app();
    add_project(&mut app, "P");
    app.handle_key(Key::Enter);
    assert_eq!(app.view_mode(), ViewMode::ViewTasks);
    app.handle_key(Key::Esc);
    assert_eq!(app.view_mode(), ViewMode::ViewProjects);
}

#[test]
fn project_rows_count_done_tasks() {
    let content = "[{\"title\":\"P\",\"tasks\":[\
        {\"title\":\"T1\",\"status\":\"Done\",\"priority\":0},\
        {\"title\":\"T2\",\"status\":\"UpNext\",\"priority\":0},\
        {\"title\":\"T3\",\"status\":\"Done\",\"priority\":0},\
        {\"title\":\"T4\",\"status\":\"OnGoing\",\"priority\":0}]}]";
    let app = app_with_content(content);
    let rows = Project::load(&app);
    assert_eq!(rows.len(), 1);
    assert_eq!(rows[0].done, 2);
    assert_eq!(rows[0].total, 4);
    assert_eq!(rows[0].percent, 50);
}
