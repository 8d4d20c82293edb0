//! The task ordering policy: on every load of a project's task list,
//! stable-sort by status (ongoing, up next, done), then stable-sort
//! again by priority (1, 2, 3, then unset), and re-select by title the
//! task that was selected before, so the highlight follows the same
//! task even though sorting moved it.
use vstd::prelude::*;

use crate::migration::{
    lemma_version_index_found, lemma_version_index_none, lemma_version_index_some, version_index,
};
use crate::task::{priority_rank, status_rank, Task, TaskView};

verus! {

/// The tasks of one status rank, in their current order.
pub open spec fn status_bucket(ts: Seq<TaskView>, r: u8) -> Seq<TaskView> {
    ts.filter(|t: TaskView| status_rank(t.status) == r)
}

/// One stable pass: group by status rank, keeping order inside a group.
pub open spec fn sort_by_status(ts: Seq<TaskView>) -> Seq<TaskView> {
    status_bucket(ts, 0) + status_bucket(ts, 1) + status_bucket(ts, 2)
}

/// The tasks of one priority rank, in their current order.
pub open spec fn priority_bucket(ts: Seq<TaskView>, r: u8) -> Seq<TaskView> {
    ts.filter(|t: TaskView| priority_rank(t.priority) == r)
}

/// One stable pass: group by priority rank, keeping order inside a group.
pub open spec fn sort_by_priority(ts: Seq<TaskView>) -> Seq<TaskView> {
    priority_bucket(ts, 0) + priority_bucket(ts, 1) + priority_bucket(ts, 2) + priority_bucket(
        ts,
        3,
    )
}

/// The display order of a task list: the status pass, then the
/// priority pass on its result (so priority groups come first, ordered
/// by status within each group, original order within ties).
pub open spec fn sorted_tasks(ts: Seq<TaskView>) -> Seq<TaskView> {
    sort_by_priority(sort_by_status(ts))
}

/// The titles of a task list.
pub open spec fn titles(ts: Seq<TaskView>) -> Seq<Seq<char>> {
    ts.map_values(|t: TaskView| t.title)
}

/// Where the cursor lands after a load: the first task carrying the
/// re-selection key, or 0 when no title matches.
pub open spec fn reselect(ts: Seq<TaskView>, key: Seq<char>) -> int {
    match version_index(titles(ts), key) {
        Some(i) => i,
        None => 0,
    }
}

/// Append every task of one status rank.
fn push_status_bucket(out: &mut Vec<Task>, ts: &Vec<Task>, rank: u8)
    ensures
        final(out).deep_view() == old(out).deep_view() + status_bucket(ts.deep_view(), rank),
{
    let mut i: usize = 0;
    while i < ts.len()
        invariant
            i <= ts@.len(),
            out.deep_view() == old(out).deep_view() + status_bucket(
                ts.deep_view().subrange(0, i as int),
                rank,
            ),
        decreases ts@.len() - i,
    {
        let ghost pre = ts.deep_view().subrange(0, i as int);
        let ghost x = ts.deep_view()[i as int];
        let ghost acc0 = out.deep_view();
        if Task::rank_of_status(ts[i].status) == rank {
            out.push(ts[i].clone());
            proof {
                assert(out.deep_view() =~= acc0.push(x));
            }
        }
        proof {
            reveal(Seq::filter);
            assert(pre.push(x).drop_last() =~= pre);
            assert(pre.push(x).last() == x);
            assert(status_bucket(pre.push(x), rank) == if status_rank(x.status) == rank {
                status_bucket(pre, rank).push(x)
            } else {
                status_bucket(pre, rank)
            });
            assert(ts.deep_view().subrange(0, i + 1 as int) =~= pre.push(x));
            if status_rank(x.status) == rank {
                assert(old(out).deep_view() + status_bucket(pre.push(x), rank) =~= acc0.push(x));
            }
        }
        i = i + 1;
    }
    proof {
        assert(ts.deep_view().subrange(0, ts.deep_view().len() as int) =~= ts.deep_view());
    }
}

/// Append every task of one priority rank.
fn push_priority_bucket(out: &mut Vec<Task>, ts: &Vec<Task>, rank: u8)
    ensures
        final(out).deep_view() == old(out).deep_view() + priority_bucket(ts.deep_view(), rank),
{
    let mut i: usize = 0;
    while i < ts.len()
        invariant
            i <= ts@.len(),
            out.deep_view() == old(out).deep_view() + priority_bucket(
                ts.deep_view().subrange(0, i as int),
                rank,
            ),
        decreases ts@.len() - i,
    {
        let ghost pre = ts.deep_view().subrange(0, i as int);
        let ghost x = ts.deep_view()[i as int];
        let ghost acc0 = out.deep_view();
        if Task::rank_of_priority(ts[i].priority) == rank {
            out.push(ts[i].clone());
            proof {
                assert(out.deep_view() =~= acc0.push(x));
            }
        }
        proof {
            reveal(Seq::filter);
            assert(pre.push(x).drop_last() =~= pre);
            assert(pre.push(x).last() == x);
            assert(priority_bucket(pre.push(x), rank) == if priority_rank(x.priority) == rank {
                priority_bucket(pre, rank).push(x)
            } else {
                priority_bucket(pre, rank)
            });
            assert(ts.deep_view().subrange(0, i + 1 as int) =~= pre.push(x));
            if priority_rank(x.priority) == rank {
                assert(old(out).deep_view() + priority_bucket(pre.push(x), rank) =~= acc0.push(
                    x,
                ));
            }
        }
        i = i + 1;
    }
    proof {
        assert(ts.deep_view().subrange(0, ts.deep_view().len() as int) =~= ts.deep_view());
    }
}

/// The two stable passes of the ordering policy.
pub fn stable_sort_tasks(ts: &Vec<Task>) -> (r: Vec<Task>)
    ensures
        r.deep_view() == sorted_tasks(ts.deep_view()),
{
    let mut pass1: Vec<Task> = Vec::new();
    push_status_bucket(&mut pass1, ts, 0);
    push_status_bucket(&mut pass1, ts, 1);
    push_status_bucket(&mut pass1, ts, 2);
    proof {
        assert(pass1.deep_view() =~= sort_by_status(ts.deep_view()));
    }
    let mut out: Vec<Task> = Vec::new();
    push_priority_bucket(&mut out, &pass1, 0);
    push_priority_bucket(&mut out, &pass1, 1);
    push_priority_bucket(&mut out, &pass1, 2);
    push_priority_bucket(&mut out, &pass1, 3);
    proof {
        assert(out.deep_view() =~= sorted_tasks(ts.deep_view()));
    }
    out
}

/// The index the cursor should take to keep highlighting the task with
/// this title: the first match, or 0 when the title is gone.
pub fn position_of_title(ts: &Vec<Task>, key: &String) -> (r: usize)
    ensures
        r == reselect(ts.deep_view(), key@),
        ts.deep_view().len() > 0 ==> r < ts.deep_view().len(),
        ts.deep_view().len() == 0 ==> r == 0,
{
    let ghost tl = titles(ts.deep_view());
    let mut i: usize = 0;
    while i < ts.len() && !(ts[i].title == *key)
        invariant
            i <= ts@.len(),
            tl == titles(ts.deep_view()),
            tl.len() == ts@.len(),
            forall|j: int| 0 <= j < i ==> tl[j] != key@,
        decreases ts@.len() - i,
    {
        proof {
            assert(tl[i as int] == ts.deep_view()[i as int].title);
            assert(ts.deep_view()[i as int] == ts@[i as int]@);
        }
        i = i + 1;
    }
    if i < ts.len() {
        proof {
            assert(tl[i as int] == ts.deep_view()[i as int].title);
            assert(ts.deep_view()[i as int] == ts@[i as int]@);
            lemma_version_index_found(tl, key@, i as int);
            lemma_version_index_some(tl, key@);
        }
        i
    } else {
        proof {
            lemma_version_index_none(tl, key@);
        }
        0
    }
}

/// The policy keeps every task: the sorted list is the same multiset,
/// here stated as equal lengths together with each task finding a
/// place (the buckets partition the list).
pub proof fn lemma_sorted_tasks_len(ts: Seq<TaskView>)
    ensures
        sorted_tasks(ts).len() == ts.len(),
{
    lemma_status_buckets_partition(ts);
    lemma_priority_buckets_partition(sort_by_status(ts));
}

/// The three status buckets together hold exactly the list's tasks.
proof fn lemma_status_buckets_partition(ts: Seq<TaskView>)
    ensures
        sort_by_status(ts).len() == ts.len(),
    decreases ts.len(),
{
    reveal(Seq::filter);
    if ts.len() == 0 {
    } else {
        let pre = ts.drop_last();
        let x = ts.last();
        lemma_status_buckets_partition(pre);
        assert(status_rank(x.status) == 0 || status_rank(x.status) == 1 || status_rank(x.status)
            == 2);
    }
}

/// The four priority buckets together hold exactly the list's tasks.
proof fn lemma_priority_buckets_partition(ts: Seq<TaskView>)
    ensures
        sort_by_priority(ts).len() == ts.len(),
    decreases ts.len(),
{
    reveal(Seq::filter);
    if ts.len() == 0 {
    } else {
        let pre = ts.drop_last();
        let x = ts.last();
        lemma_priority_buckets_partition(pre);
        assert(priority_rank(x.priority) == 0 || priority_rank(x.priority) == 1 || priority_rank(
            x.priority,
        ) == 2 || priority_rank(x.priority) == 3);
    }
}

/// Filtering keeps only tasks of the list: whatever holds of every
/// task of the list holds of every task of the filtered list.
proof fn lemma_filter_inherits(
    ts: Seq<TaskView>,
    pred: spec_fn(TaskView) -> bool,
    prop: spec_fn(TaskView) -> bool,
)
    requires
        forall|i: int| 0 <= i < ts.len() ==> prop(#[trigger] ts[i]),
    ensures
        forall|i: int| 0 <= i < ts.filter(pred).len() ==> prop(#[trigger] ts.filter(pred)[i]),
    decreases ts.len(),
{
    reveal(Seq::filter);
    if ts.len() > 0 {
        let pre = ts.drop_last();
        assert(forall|i: int| 0 <= i < pre.len() ==> pre[i] == ts[i]);
        lemma_filter_inherits(pre, pred, prop);
        assert forall|i: int|
            0 <= i < ts.filter(pred).len() implies prop(#[trigger] ts.filter(pred)[i]) by {
            if pred(ts.last()) {
                if i < ts.filter(pred).len() - 1 {
                    assert(ts.filter(pred)[i] == pre.filter(pred)[i]);
                } else {
                    assert(ts.filter(pred)[i] == ts.last());
                }
            } else {
                assert(ts.filter(pred)[i] == pre.filter(pred)[i]);
            }
        }
    }
}

/// Well-formedness carries through each bucket.
proof fn lemma_filter_keeps_wf(ts: Seq<TaskView>, pred: spec_fn(TaskView) -> bool)
    requires
        forall|i: int| 0 <= i < ts.len() ==> (#[trigger] ts[i]).wf(),
    ensures
        forall|i: int|
            0 <= i < ts.filter(pred).len() ==> (#[trigger] ts.filter(pred)[i]).wf(),
{
    lemma_filter_inherits(ts, pred, |t: TaskView| t.wf());
}

/// The ordering policy keeps every task well formed.
pub proof fn lemma_sorted_tasks_wf(ts: Seq<TaskView>)
    requires
        forall|i: int| 0 <= i < ts.len() ==> (#[trigger] ts[i]).wf(),
    ensures
        forall|i: int|
            0 <= i < sorted_tasks(ts).len() ==> (#[trigger] sorted_tasks(ts)[i]).wf(),
{
    lemma_filter_keeps_wf(ts, |t: TaskView| status_rank(t.status) == 0u8);
    lemma_filter_keeps_wf(ts, |t: TaskView| status_rank(t.status) == 1u8);
    lemma_filter_keeps_wf(ts, |t: TaskView| status_rank(t.status) == 2u8);
    let p1 = sort_by_status(ts);
    assert(forall|i: int| 0 <= i < p1.len() ==> (#[trigger] p1[i]).wf());
    lemma_filter_keeps_wf(p1, |t: TaskView| priority_rank(t.priority) == 0u8);
    lemma_filter_keeps_wf(p1, |t: TaskView| priority_rank(t.priority) == 1u8);
    lemma_filter_keeps_wf(p1, |t: TaskView| priority_rank(t.priority) == 2u8);
    lemma_filter_keeps_wf(p1, |t: TaskView| priority_rank(t.priority) == 3u8);
}

/// Re-selection by title finds the task again: when some task carries
/// the captured title, the policy's cursor lands on the first task
/// carrying it, wherever sorting moved it.
pub proof fn lemma_reselect_finds(ts: Seq<TaskView>, key: Seq<char>)
    requires
        exists|k: int| 0 <= k < ts.len() && (#[trigger] ts[k]).title == key,
    ensures
        0 <= reselect(ts, key) < ts.len(),
        ts[reselect(ts, key)].title == key,
        forall|j: int| 0 <= j < reselect(ts, key) ==> (#[trigger] ts[j]).title != key,
{
    let tl = titles(ts);
    let k = choose|k: int| 0 <= k < ts.len() && (#[trigger] ts[k]).title == key;
    assert(tl[k] == ts[k].title);
    crate::migration::lemma_version_index_exists(tl, key);
    lemma_version_index_some(tl, key);
    let r = reselect(ts, key);
    assert(tl[r] == ts[r].title);
    assert forall|j: int| 0 <= j < r implies (#[trigger] ts[j]).title != key by {
        assert(tl[j] == ts[j].title);
    }
}

/// The re-selection index is never negative and stays in range.
pub proof fn lemma_reselect_bounds(ts: Seq<TaskView>, key: Seq<char>)
    ensures
        0 <= reselect(ts, key),
        ts.len() > 0 ==> reselect(ts, key) < ts.len(),
        ts.len() == 0 ==> reselect(ts, key) == 0,
{
    if version_index(titles(ts), key) is Some {
        lemma_version_index_some(titles(ts), key);
    }
}

/// Every task in a priority bucket carries that bucket's rank.
proof fn lemma_priority_bucket_rank(ts: Seq<TaskView>, r: u8, i: int)
    requires
        0 <= i < priority_bucket(ts, r).len(),
    ensures
        priority_rank(priority_bucket(ts, r)[i].priority) == r,
{
    ts.lemma_filter_pred(|t: TaskView| priority_rank(t.priority) == r, i);
}

/// Every task in a status bucket carries that bucket's rank.
proof fn lemma_status_bucket_rank(ts: Seq<TaskView>, r: u8, i: int)
    requires
        0 <= i < status_bucket(ts, r).len(),
    ensures
        status_rank(status_bucket(ts, r)[i].status) == r,
{
    ts.lemma_filter_pred(|t: TaskView| status_rank(t.status) == r, i);
}

/// Inside one priority bucket of the status-sorted list, status ranks
/// never decrease.
proof fn lemma_priority_bucket_status_sorted(ts: Seq<TaskView>, r: u8, a: int, b: int)
    requires
        0 <= a < b < priority_bucket(sort_by_status(ts), r).len(),
    ensures
        status_rank(priority_bucket(sort_by_status(ts), r)[a].status) <= status_rank(
            priority_bucket(sort_by_status(ts), r)[b].status,
        ),
{
    let pred = |t: TaskView| priority_rank(t.priority) == r;
    let p1 = sort_by_status(ts);
    Seq::filter_distributes_over_add(status_bucket(ts, 0) + status_bucket(ts, 1), status_bucket(
        ts,
        2,
    ), pred);
    Seq::filter_distributes_over_add(status_bucket(ts, 0), status_bucket(ts, 1), pred);
    let f0 = status_bucket(ts, 0).filter(pred);
    let f1 = status_bucket(ts, 1).filter(pred);
    let f2 = status_bucket(ts, 2).filter(pred);
    assert(p1.filter(pred) == (f0 + f1) + f2);
    assert forall|m: int|
        0 <= m < p1.filter(pred).len() implies status_rank(#[trigger] p1.filter(pred)[m].status)
        == (if m < f0.len() {
        0u8
    } else if m < f0.len() + f1.len() {
        1u8
    } else {
        2u8
    }) by {
        if m < f0.len() {
            assert(p1.filter(pred)[m] == f0[m]);
            lemma_status_bucket_rank_of_filter(ts, 0, pred, m);
        } else if m < f0.len() + f1.len() {
            assert(p1.filter(pred)[m] == f1[m - f0.len()]);
            lemma_status_bucket_rank_of_filter(ts, 1, pred, m - f0.len());
        } else {
            assert(p1.filter(pred)[m] == f2[m - f0.len() - f1.len()]);
            lemma_status_bucket_rank_of_filter(ts, 2, pred, m - f0.len() - f1.len());
        }
    }
}

/// Filtering a status bucket keeps its rank on every task.
proof fn lemma_status_bucket_rank_of_filter(
    ts: Seq<TaskView>,
    r: u8,
    pred: spec_fn(TaskView) -> bool,
    i: int,
)
    requires
        0 <= i < status_bucket(ts, r).filter(pred).len(),
    ensures
        status_rank(status_bucket(ts, r).filter(pred)[i].status) == r,
{
    assert forall|m: int|
        0 <= m < status_bucket(ts, r).len() implies status_rank(
        (#[trigger] status_bucket(ts, r)[m]).status,
    ) == r by {
        lemma_status_bucket_rank(ts, r, m);
    }
    lemma_filter_inherits(status_bucket(ts, r), pred, |t: TaskView| status_rank(t.status) == r);
}

/// The display order groups tasks by priority (high first, unset
/// last), and by status within one priority group (ongoing, up next,
/// done); ties keep their previous order by construction of the
/// stable passes.
pub proof fn lemma_sorted_tasks_grouped(ts: Seq<TaskView>, a: int, b: int)
    requires
        0 <= a < b < sorted_tasks(ts).len(),
    ensures
        priority_rank(sorted_tasks(ts)[a].priority) <= priority_rank(
            sorted_tasks(ts)[b].priority,
        ),
        priority_rank(sorted_tasks(ts)[a].priority) == priority_rank(sorted_tasks(ts)[b].priority)
            ==> status_rank(sorted_tasks(ts)[a].status) <= status_rank(
            sorted_tasks(ts)[b].status,
        ),
{
    let p1 = sort_by_status(ts);
    let s = sorted_tasks(ts);
    let n0 = priority_bucket(p1, 0).len() as int;
    let n1 = n0 + priority_bucket(p1, 1).len();
    let n2 = n1 + priority_bucket(p1, 2).len();
    assert forall|m: int| 0 <= m < s.len() implies {
        &&& (m < n0 ==> #[trigger] s[m] == priority_bucket(p1, 0)[m] && priority_rank(
            s[m].priority,
        ) == 0)
        &&& (n0 <= m < n1 ==> s[m] == priority_bucket(p1, 1)[m - n0] && priority_rank(
            s[m].priority,
        ) == 1)
        &&& (n1 <= m < n2 ==> s[m] == priority_bucket(p1, 2)[m - n1] && priority_rank(
            s[m].priority,
        ) == 2)
        &&& (n2 <= m ==> s[m] == priority_bucket(p1, 3)[m - n2] && priority_rank(s[m].priority)
            == 3)
    } by {
        if m < n0 {
            lemma_priority_bucket_rank(p1, 0, m);
        } else if m < n1 {
            lemma_priority_bucket_rank(p1, 1, m - n0);
        } else if m < n2 {
            lemma_priority_bucket_rank(p1, 2, m - n1);
        } else {
            lemma_priority_bucket_rank(p1, 3, m - n2);
        }
    }
    if priority_rank(s[a].priority) == priority_rank(s[b].priority) {
        if b < n0 {
            lemma_priority_bucket_status_sorted(ts, 0, a, b);
        } else if n0 <= a && b < n1 {
            lemma_priority_bucket_status_sorted(ts, 1, a - n0, b - n0);
        } else if n1 <= a && b < n2 {
            lemma_priority_bucket_status_sorted(ts, 2, a - n1, b - n1);
        } else if n2 <= a {
            lemma_priority_bucket_status_sorted(ts, 3, a - n2, b - n2);
        }
    }
}

} // verus!
