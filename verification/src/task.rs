//! The task entity: a titled unit of work with a status and an
//! optional priority (0 means "unset", 1/2/3 mean high/medium/low).
use vstd::prelude::*;

verus! {

/// The three states a task can be in.
#[derive(Clone, Copy, PartialEq, Eq, Structural, Debug)]
pub enum Status {
    UpNext,
    OnGoing,
    Done,
}

/// Largest legal priority value; 0 means "no priority set".
pub const PRIORITY_MAX: u8 = 3;

/// A unit of work inside a project.
pub struct Task {
    pub title: String,
    pub status: Status,
    pub priority: u8,
}

/// Mathematical image of a task: the title as a character sequence.
pub struct TaskView {
    pub title: Seq<char>,
    pub status: Status,
    pub priority: u8,
}

impl TaskView {
    /// A task is well formed when its priority is 0 (unset) or one of
    /// the three levels.
    pub open spec fn wf(self) -> bool {
        self.priority <= PRIORITY_MAX
    }
}

impl View for Task {
    type V = TaskView;

    open spec fn view(&self) -> TaskView {
        TaskView { title: self.title@, status: self.status, priority: self.priority }
    }
}

impl DeepView for Task {
    type V = TaskView;

    open spec fn deep_view(&self) -> TaskView {
        self@
    }
}

impl Clone for Task {
    fn clone(&self) -> (r: Self)
        ensures
            r == *self,
    {
        Task { title: self.title.clone(), status: self.status, priority: self.priority }
    }
}

impl Task {
    pub open spec fn wf(self) -> bool {
        self@.wf()
    }
}

/// The order in which the status picker offers statuses, and the order
/// used when cycling a task's status.
pub open spec fn status_cycle() -> Seq<Status> {
    seq![Status::UpNext, Status::OnGoing, Status::Done]
}

/// The order statuses are grouped in for display: ongoing work first,
/// queued work next, finished work last.
pub open spec fn status_display_order() -> Seq<Status> {
    seq![Status::OnGoing, Status::UpNext, Status::Done]
}

/// The order the priority picker offers priorities: high to low, with
/// "unset" offered last.
pub open spec fn priority_cycle() -> Seq<u8> {
    seq![1u8, 2u8, 3u8, 0u8]
}

/// Rank of a status in the display order: ongoing 0, up next 1, done 2.
pub open spec fn status_rank(s: Status) -> u8 {
    match s {
        Status::OnGoing => 0u8,
        Status::UpNext => 1u8,
        Status::Done => 2u8,
    }
}

/// Rank of a priority in the display order: 1, 2, 3, then 0 (unset) last.
pub open spec fn priority_rank(p: u8) -> u8 {
    if p == 1 {
        0u8
    } else if p == 2 {
        1u8
    } else if p == 3 {
        2u8
    } else {
        3u8
    }
}

/// Position of a status in the cycle order, used to seed the status picker.
pub open spec fn status_cycle_pos(s: Status) -> u8 {
    match s {
        Status::UpNext => 0u8,
        Status::OnGoing => 1u8,
        Status::Done => 2u8,
    }
}

/// Position of a priority in the picker order, used to seed the priority picker.
pub open spec fn priority_cycle_pos(p: u8) -> u8
    recommends
        p <= PRIORITY_MAX,
{
    if p == 0 {
        3u8
    } else {
        (p - 1) as u8
    }
}

impl Task {
    /// Executable mirrors of the rank functions.
    pub fn rank_of_status(s: Status) -> (r: u8)
        ensures
            r == status_rank(s),
    {
        match s {
            Status::OnGoing => 0,
            Status::UpNext => 1,
            Status::Done => 2,
        }
    }

    pub fn rank_of_priority(p: u8) -> (r: u8)
        ensures
            r == priority_rank(p),
    {
        if p == 1 {
            0
        } else if p == 2 {
            1
        } else if p == 3 {
            2
        } else {
            3
        }
    }
}

impl Task {
    /// The tag a status is displayed and stored under.
    pub fn status_label(s: Status) -> (r: String)
        ensures
            r@ == crate::codec::status_tag(s),
    {
        proof {
            reveal_strlit("UpNext");
            reveal_strlit("OnGoing");
            reveal_strlit("Done");
            assert("UpNext"@ =~= crate::codec::status_tag(Status::UpNext));
            assert("OnGoing"@ =~= crate::codec::status_tag(Status::OnGoing));
            assert("Done"@ =~= crate::codec::status_tag(Status::Done));
        }
        match s {
            Status::UpNext => String::from_str("UpNext"),
            Status::OnGoing => String::from_str("OnGoing"),
            Status::Done => String::from_str("Done"),
        }
    }

    /// The status picker's entries, in cycle order.
    pub fn load_statues_items() -> (r: Vec<String>)
        ensures
            r@.len() == status_cycle().len(),
            forall|k: int|
                0 <= k < r@.len() ==> (#[trigger] r@[k])@ == crate::codec::status_tag(
                    status_cycle()[k],
                ),
    {
        let mut r: Vec<String> = Vec::new();
        r.push(Task::status_label(Status::UpNext));
        r.push(Task::status_label(Status::OnGoing));
        r.push(Task::status_label(Status::Done));
        r
    }

    /// The priority picker's entries, in cycle order: the indicator
    /// marks for 1, 2, 3 and the empty entry for "unset".
    pub fn load_priority_items() -> (r: Vec<String>)
        ensures
            r@.len() == priority_cycle().len(),
            forall|k: int|
                0 <= k < r@.len() ==> (#[trigger] r@[k])@ == crate::util::indicator_spec(
                    priority_cycle()[k],
                ),
    {
        let mut r: Vec<String> = Vec::new();
        r.push(crate::util::Util::get_priority_indicator(1));
        r.push(crate::util::Util::get_priority_indicator(2));
        r.push(crate::util::Util::get_priority_indicator(3));
        r.push(crate::util::Util::get_priority_indicator(0));
        r
    }
}

} // verus!
