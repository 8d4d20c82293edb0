//! The project entity: a named container of tasks. Identity is
//! positional; there is no stable id.
use vstd::prelude::*;

use crate::task::{Status, Task, TaskView};

verus! {

/// A named container of tasks.
pub struct Project {
    pub title: String,
    pub tasks: Vec<Task>,
}

/// Mathematical image of a project.
pub struct ProjectView {
    pub title: Seq<char>,
    pub tasks: Seq<TaskView>,
}

impl ProjectView {
    pub open spec fn wf(self) -> bool {
        forall|i: int| 0 <= i < self.tasks.len() ==> (#[trigger] self.tasks[i]).wf()
    }
}

impl View for Project {
    type V = ProjectView;

    open spec fn view(&self) -> ProjectView {
        ProjectView { title: self.title@, tasks: self.tasks.deep_view() }
    }
}

impl DeepView for Project {
    type V = ProjectView;

    open spec fn deep_view(&self) -> ProjectView {
        self@
    }
}

impl Clone for Project {
    fn clone(&self) -> (r: Self)
        ensures
            r@ == self@,
    {
        let mut tasks: Vec<Task> = Vec::new();
        let mut i: usize = 0;
        while i < self.tasks.len()
            invariant
                i <= self.tasks@.len(),
                tasks@.len() == i,
                forall|j: int| 0 <= j < i ==> (#[trigger] tasks@[j])@ == self.tasks@[j]@,
            decreases self.tasks@.len() - i,
        {
            tasks.push(self.tasks[i].clone());
            i = i + 1;
        }
        proof {
            assert forall|j: int| 0 <= j < tasks@.len() implies #[trigger] tasks.deep_view()[j]
                == self.tasks.deep_view()[j] by {
                assert(tasks@[j]@ == self.tasks@[j]@);
            }
            assert(tasks.deep_view() =~= self.tasks.deep_view());
        }
        Project { title: self.title.clone(), tasks }
    }
}

/// Every task of every project is well formed.
pub open spec fn collection_wf(ps: Seq<ProjectView>) -> bool {
    forall|i: int| 0 <= i < ps.len() ==> (#[trigger] ps[i]).wf()
}

/// A full copy of the collection, the first step of every mutation.
pub fn clone_projects(v: &Vec<Project>) -> (r: Vec<Project>)
    ensures
        r.deep_view() == v.deep_view(),
{
    let mut r: Vec<Project> = Vec::new();
    let mut i: usize = 0;
    while i < v.len()
        invariant
            i <= v@.len(),
            r@.len() == i,
            forall|j: int| 0 <= j < i ==> (#[trigger] r@[j])@ == v@[j]@,
        decreases v@.len() - i,
    {
        r.push(v[i].clone());
        i = i + 1;
    }
    proof {
        assert forall|j: int| 0 <= j < r@.len() implies #[trigger] r.deep_view()[j]
            == v.deep_view()[j] by {
            assert(r@[j]@ == v@[j]@);
        }
        assert(r.deep_view() =~= v.deep_view());
    }
    r
}

/// What the project list shows for one project: the title and how
/// many of its tasks are done.
pub struct ProjectRow {
    pub title: String,
    pub done: usize,
    pub total: usize,
    pub percent: u8,
}

/// How many tasks of a list are done.
pub open spec fn done_count(ts: Seq<TaskView>) -> nat {
    ts.filter(|t: TaskView| t.status is Done).len()
}

/// Count the done tasks of a list.
pub fn count_done(ts: &Vec<Task>) -> (r: usize)
    ensures
        r == done_count(ts.deep_view()),
        r <= ts@.len(),
{
    let mut r: usize = 0;
    let mut i: usize = 0;
    while i < ts.len()
        invariant
            i <= ts@.len(),
            r == done_count(ts.deep_view().subrange(0, i as int)),
            r <= i,
        decreases ts@.len() - i,
    {
        let ghost pre = ts.deep_view().subrange(0, i as int);
        let ghost x = ts.deep_view()[i as int];
        proof {
            reveal(Seq::filter);
            assert(pre.push(x).drop_last() =~= pre);
            assert(pre.push(x).last() == x);
            assert(ts.deep_view().subrange(0, i + 1 as int) =~= pre.push(x));
            assert(ts.deep_view()[i as int] == ts@[i as int]@);
        }
        if ts[i].status == Status::Done {
            r = r + 1;
        }
        i = i + 1;
    }
    proof {
        assert(ts.deep_view().subrange(0, ts.deep_view().len() as int) =~= ts.deep_view());
    }
    r
}

} // verus!
