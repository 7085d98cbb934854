//! What a listing of the collection shows.

use vstd::prelude::*;
use crate::models::{views_of, Task, TaskView};

verus! {

/// What there is to show of a collection.
#[derive(Debug, PartialEq, Eq)]
pub enum Listing<'a> {
    /// The collection is empty.
    NoTasks,
    /// The collection has tasks, and every one of them is completed and
    /// hidden.
    AllCompleted,
    /// The tasks to show, in the order of the collection.
    Rows(Vec<&'a Task>),
}

/// The tasks that a listing shows: all of them, or the pending ones only.
pub open spec fn shown(tasks: Seq<TaskView>, show_all: bool) -> Seq<TaskView> {
    tasks.filter(|task: TaskView| show_all || !task.completed)
}

/// The views of the tasks that a listing refers to, in order.
pub open spec fn views_of_rows(rows: Seq<&Task>) -> Seq<TaskView> {
    rows.map_values(|task: &Task| task@)
}

/// Chooses what a listing shows: every task where `show_all` is set, the
/// pending ones otherwise, in the order of the collection. An empty
/// collection and one whose tasks are all hidden are told apart.
pub fn list_tasks<'a>(tasks: &'a [Task], show_all: bool) -> (listing: Listing<'a>)
    ensures
        listing is NoTasks <==> tasks@.len() == 0,
        match listing {
            Listing::NoTasks => tasks@.len() == 0,
            Listing::AllCompleted => tasks@.len() > 0 && shown(views_of(tasks@), show_all).len()
                == 0,
            Listing::Rows(rows) => rows@.len() > 0 && views_of_rows(rows@) == shown(
                views_of(tasks@),
                show_all,
            ),
        },
{
    if tasks.len() == 0 {
        return Listing::NoTasks;
    }
    let ghost views = views_of(tasks@);
    let mut rows: Vec<&'a Task> = Vec::new();
    let mut i: usize = 0;
    assert(views.take(0) =~= Seq::<TaskView>::empty());
    assert(views_of_rows(rows@) =~= shown(views.take(0), show_all)) by {
        reveal(Seq::filter);
    }
    while i < tasks.len()
        invariant
            0 <= i <= tasks.len(),
            views == views_of(tasks@),
            views_of_rows(rows@) == shown(views.take(i as int), show_all),
        decreases tasks.len() - i,
    {
        proof {
            reveal(Seq::filter);
            assert(views.take(i + 1).drop_last() =~= views.take(i as int));
            assert(views.take(i + 1).last() == tasks@[i as int]@);
        }
        if show_all || !tasks[i].completed {
            assert(views_of_rows(rows@.push(&tasks@[i as int])) =~= views_of_rows(rows@).push(
                tasks@[i as int]@,
            ));
            rows.push(&tasks[i]);
        }
        i += 1;
    }
    assert(views.take(i as int) =~= views);
    if rows.len() == 0 {
        Listing::AllCompleted
    } else {
        Listing::Rows(rows)
    }
}

} // verus!
