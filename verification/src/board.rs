//! The board projection: a pure regrouping of the task list into the four
//! fixed status columns, preserving the insertion order inside each
//! column, with the proofs that the columns partition the list.

use vstd::prelude::*;
use crate::model::Status;
use crate::model::Task;
use crate::model::TaskView;

verus! {

/// The tasks of one status, kept in their original relative order: each
/// task of the list is appended to its column as the list is walked from
/// the front.
pub open spec fn column_spec(ts: Seq<TaskView>, st: Status) -> Seq<TaskView>
    decreases ts.len(),
{
    if ts.len() == 0 {
        Seq::empty()
    } else if ts.last().status == st {
        column_spec(ts.drop_last(), st).push(ts.last())
    } else {
        column_spec(ts.drop_last(), st)
    }
}

/// The four fixed board columns, in display order.
pub struct BoardColumns {
    pub todo: Vec<Task>,
    pub in_progress: Vec<Task>,
    pub needs_help: Vec<Task>,
    pub done: Vec<Task>,
}

/// A column is exactly the source list filtered to its status, so the
/// source's relative order is preserved inside each column.
pub proof fn lemma_column_is_filter(ts: Seq<TaskView>, st: Status)
    ensures
        column_spec(ts, st) == ts.filter(|t: TaskView| t.status == st),
    decreases ts.len(),
{
    reveal(Seq::filter);
    if ts.len() == 0 {
        assert(column_spec(ts, st) =~= ts.filter(|t: TaskView| t.status == st));
    } else {
        lemma_column_is_filter(ts.drop_last(), st);
    }
}

/// Columns distribute over concatenation: the column of a combined list
/// is the column of the front followed by the column of the back, so
/// tasks can never overtake each other inside a column.
pub proof fn lemma_column_distributes(a: Seq<TaskView>, b: Seq<TaskView>, st: Status)
    ensures
        column_spec(a + b, st) == column_spec(a, st) + column_spec(b, st),
{
    lemma_column_is_filter(a + b, st);
    lemma_column_is_filter(a, st);
    lemma_column_is_filter(b, st);
    Seq::filter_distributes_over_add(a, b, |t: TaskView| t.status == st);
}

/// Every task in a column bears the column's status.
pub proof fn lemma_column_status(ts: Seq<TaskView>, st: Status)
    ensures
        forall|k: int|
            0 <= k < column_spec(ts, st).len() ==> (#[trigger] column_spec(ts, st)[k]).status
                == st,
    decreases ts.len(),
{
    if ts.len() == 0 {
    } else {
        lemma_column_status(ts.drop_last(), st);
    }
}

/// Columns of different statuses share no task.
pub proof fn lemma_columns_disjoint(ts: Seq<TaskView>, st1: Status, st2: Status)
    requires
        st1 != st2,
    ensures
        forall|t: TaskView|
            #[trigger] column_spec(ts, st1).contains(t) ==> !column_spec(ts, st2).contains(t),
{
    lemma_column_status(ts, st1);
    lemma_column_status(ts, st2);
}

/// The four columns together hold exactly the tasks of the list: their
/// concatenation, in the fixed column order, carries the same multiset of
/// tasks as the source.
pub proof fn lemma_board_partition(ts: Seq<TaskView>)
    ensures
        (column_spec(ts, Status::Todo) + column_spec(ts, Status::InProgress) + column_spec(
            ts,
            Status::NeedsHelp,
        ) + column_spec(ts, Status::Done)).to_multiset() == ts.to_multiset(),
    decreases ts.len(),
{
    broadcast use vstd::seq_lib::group_to_multiset_ensures;
    broadcast use vstd::multiset::group_multiset_axioms;

    let c1 = column_spec(ts, Status::Todo);
    let c2 = column_spec(ts, Status::InProgress);
    let c3 = column_spec(ts, Status::NeedsHelp);
    let c4 = column_spec(ts, Status::Done);
    vstd::seq_lib::lemma_multiset_commutative(c1, c2);
    vstd::seq_lib::lemma_multiset_commutative(c1 + c2, c3);
    vstd::seq_lib::lemma_multiset_commutative(c1 + c2 + c3, c4);
    if ts.len() == 0 {
        assert(c1 + c2 + c3 + c4 =~= Seq::<TaskView>::empty());
        assert((c1 + c2 + c3 + c4).to_multiset() =~= ts.to_multiset());
    } else {
        let dl = ts.drop_last();
        let l = ts.last();
        lemma_board_partition(dl);
        let d1 = column_spec(dl, Status::Todo);
        let d2 = column_spec(dl, Status::InProgress);
        let d3 = column_spec(dl, Status::NeedsHelp);
        let d4 = column_spec(dl, Status::Done);
        vstd::seq_lib::lemma_multiset_commutative(d1, d2);
        vstd::seq_lib::lemma_multiset_commutative(d1 + d2, d3);
        vstd::seq_lib::lemma_multiset_commutative(d1 + d2 + d3, d4);
        assert(dl.push(l) =~= ts);
        assert(ts.to_multiset() == dl.to_multiset().insert(l));
        match l.status {
            Status::Todo => {
                assert(c1 == d1.push(l) && c2 == d2 && c3 == d3 && c4 == d4);
                assert(c1.to_multiset() == d1.to_multiset().insert(l));
            },
            Status::InProgress => {
                assert(c2 == d2.push(l) && c1 == d1 && c3 == d3 && c4 == d4);
                assert(c2.to_multiset() == d2.to_multiset().insert(l));
            },
            Status::NeedsHelp => {
                assert(c3 == d3.push(l) && c1 == d1 && c2 == d2 && c4 == d4);
                assert(c3.to_multiset() == d3.to_multiset().insert(l));
            },
            Status::Done => {
                assert(c4 == d4.push(l) && c1 == d1 && c2 == d2 && c3 == d3);
                assert(c4.to_multiset() == d4.to_multiset().insert(l));
            },
        }
        assert((c1 + c2 + c3 + c4).to_multiset() =~= ts.to_multiset());
    }
}

/// The four column sizes add up to the size of the source list: no task
/// is lost and none is shown twice.
pub proof fn lemma_board_sizes(ts: Seq<TaskView>)
    ensures
        column_spec(ts, Status::Todo).len() + column_spec(ts, Status::InProgress).len()
            + column_spec(ts, Status::NeedsHelp).len() + column_spec(ts, Status::Done).len()
            == ts.len(),
{
    broadcast use vstd::seq_lib::group_to_multiset_ensures;

    let all = column_spec(ts, Status::Todo) + column_spec(ts, Status::InProgress) + column_spec(
        ts,
        Status::NeedsHelp,
    ) + column_spec(ts, Status::Done);
    lemma_board_partition(ts);
    assert(all.to_multiset().len() == ts.to_multiset().len());
}

/// Builds the board: for each of the four statuses, in the fixed order
/// Todo, InProgress, NeedsHelp, Done, the subsequence of tasks with that
/// status. The task list itself is untouched.
pub fn board_columns(tasks: &Vec<Task>) -> (r: BoardColumns)
    ensures
        r.todo.deep_view() == column_spec(tasks.deep_view(), Status::Todo),
        r.in_progress.deep_view() == column_spec(tasks.deep_view(), Status::InProgress),
        r.needs_help.deep_view() == column_spec(tasks.deep_view(), Status::NeedsHelp),
        r.done.deep_view() == column_spec(tasks.deep_view(), Status::Done),
{
    let ghost tsv = tasks.deep_view();
    let mut todo: Vec<Task> = Vec::new();
    let mut in_progress: Vec<Task> = Vec::new();
    let mut needs_help: Vec<Task> = Vec::new();
    let mut done: Vec<Task> = Vec::new();
    proof {
        assert(todo.deep_view() =~= column_spec(tsv.take(0), Status::Todo));
        assert(in_progress.deep_view() =~= column_spec(tsv.take(0), Status::InProgress));
        assert(needs_help.deep_view() =~= column_spec(tsv.take(0), Status::NeedsHelp));
        assert(done.deep_view() =~= column_spec(tsv.take(0), Status::Done));
    }
    let mut i: usize = 0;
    while i < tasks.len()
        invariant
            i <= tasks@.len(),
            tsv == tasks.deep_view(),
            tsv.len() == tasks@.len(),
            todo.deep_view() == column_spec(tsv.take(i as int), Status::Todo),
            in_progress.deep_view() == column_spec(tsv.take(i as int), Status::InProgress),
            needs_help.deep_view() == column_spec(tsv.take(i as int), Status::NeedsHelp),
            done.deep_view() == column_spec(tsv.take(i as int), Status::Done),
        decreases tasks@.len() - i,
    {
        let t = tasks[i].duplicate();
        proof {
            assert(t.deep_view() == tsv[i as int]);
            assert(tsv.take(i + 1).drop_last() =~= tsv.take(i as int));
            assert(tsv.take(i + 1).last() == tsv[i as int]);
        }
        match t.status {
            Status::Todo => {
                todo.push(t);
                proof {
                    assert(todo.deep_view() =~= column_spec(tsv.take(i + 1), Status::Todo));
                }
            },
            Status::InProgress => {
                in_progress.push(t);
                proof {
                    assert(in_progress.deep_view() =~= column_spec(
                        tsv.take(i + 1),
                        Status::InProgress,
                    ));
                }
            },
            Status::NeedsHelp => {
                needs_help.push(t);
                proof {
                    assert(needs_help.deep_view() =~= column_spec(
                        tsv.take(i + 1),
                        Status::NeedsHelp,
                    ));
                }
            },
            Status::Done => {
                done.push(t);
                proof {
                    assert(done.deep_view() =~= column_spec(tsv.take(i + 1), Status::Done));
                }
            },
        }
        i = i + 1;
    }
    proof {
        assert(tsv.take(tsv.len() as int) =~= tsv);
    }
    BoardColumns { todo, in_progress, needs_help, done }
}

} // verus!
