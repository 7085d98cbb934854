//! The operations on a task collection, and the rules of task identity.

use vstd::prelude::*;
use chrono::NaiveDate;
use crate::error::AppError;
use crate::models::{Task, TaskList, TaskView};

verus! {

/// The largest id in a collection, and 0 for the empty collection.
pub open spec fn max_id(tasks: Seq<TaskView>) -> int
    decreases tasks.len(),
{
    if tasks.len() == 0 {
        0
    } else {
        let rest = max_id(tasks.drop_last());
        if tasks.last().id > rest {
            tasks.last().id
        } else {
            rest
        }
    }
}

/// The id that the next created task gets: one more than the largest.
pub open spec fn next_id(tasks: Seq<TaskView>) -> int {
    max_id(tasks) + 1
}

/// Whether no two tasks of a collection share an id.
pub open spec fn ids_distinct(tasks: Seq<TaskView>) -> bool {
    forall|i: int, j: int|
        0 <= i < tasks.len() && 0 <= j < tasks.len() && i != j ==> tasks[i].id != tasks[j].id
}

/// The invariant of a collection: ids are positive and distinct.
pub open spec fn well_formed(tasks: Seq<TaskView>) -> bool {
    &&& ids_distinct(tasks)
    &&& forall|i: int| 0 <= i < tasks.len() ==> #[trigger] tasks[i].id >= 1
}

/// Whether some task of the collection has the id.
pub open spec fn contains_id(tasks: Seq<TaskView>, id: int) -> bool {
    exists|i: int| 0 <= i < tasks.len() && #[trigger] tasks[i].id == id
}

/// Whether `index` is the place of the first task with the id.
pub open spec fn is_first_with_id(tasks: Seq<TaskView>, id: int, index: int) -> bool {
    &&& 0 <= index < tasks.len()
    &&& tasks[index].id == id
    &&& forall|j: int| 0 <= j < index ==> #[trigger] tasks[j].id != id
}

/// The place of the first task with the id. Meaningful where there is one.
pub open spec fn first_with_id(tasks: Seq<TaskView>, id: int) -> int {
    choose|index: int| is_first_with_id(tasks, id, index)
}

/// The task that `create` makes in a collection.
pub open spec fn created(tasks: Seq<TaskView>, description: Seq<char>, due_date: Option<NaiveDate>) -> TaskView {
    TaskView { id: next_id(tasks), description, due_date, completed: false }
}

/// The collection after `set_completion`: the first task with the id has
/// the flag, and nothing else has changed. Without such a task the
/// collection is as it was.
pub open spec fn with_completion(tasks: Seq<TaskView>, id: int, completed: bool) -> Seq<TaskView> {
    if contains_id(tasks, id) {
        let index = first_with_id(tasks, id);
        tasks.update(index, TaskView { completed, ..tasks[index] })
    } else {
        tasks
    }
}

/// The collection after `remove`: the first task with the id is gone, and
/// the others keep their order. Without such a task the collection is as it
/// was.
pub open spec fn without(tasks: Seq<TaskView>, id: int) -> Seq<TaskView> {
    if contains_id(tasks, id) {
        tasks.remove(first_with_id(tasks, id))
    } else {
        tasks
    }
}

/// Every id of a collection is at most its largest id.
pub proof fn lemma_max_id_bounds(tasks: Seq<TaskView>)
    ensures
        forall|i: int| 0 <= i < tasks.len() ==> #[trigger] tasks[i].id <= max_id(tasks),
        tasks.len() == 0 ==> max_id(tasks) == 0,
        max_id(tasks) >= 0,
        max_id(tasks) == 0 || contains_id(tasks, max_id(tasks)),
    decreases tasks.len(),
{
    if tasks.len() > 0 {
        let rest = tasks.drop_last();
        lemma_max_id_bounds(rest);
        assert forall|i: int| 0 <= i < tasks.len() implies #[trigger] tasks[i].id <= max_id(
            tasks,
        ) by {
            if i < rest.len() {
                assert(rest[i] == tasks[i]);
            }
        }
        if max_id(tasks) != 0 {
            if tasks.last().id > max_id(rest) {
                assert(tasks[tasks.len() - 1].id == max_id(tasks));
            } else {
                let k = choose|k: int| 0 <= k < rest.len() && #[trigger] rest[k].id == max_id(rest);
                assert(tasks[k].id == max_id(tasks));
            }
        }
    }
}

/// The largest id of a collection with one more task at its end.
pub proof fn lemma_max_id_push(tasks: Seq<TaskView>, task: TaskView)
    ensures
        max_id(tasks.push(task)) == if task.id > max_id(tasks) {
            task.id
        } else {
            max_id(tasks)
        },
{
    assert(tasks.push(task).drop_last() =~= tasks);
}

/// Where a collection holds the id, the first task with it is well defined.
pub proof fn lemma_first_with_id(tasks: Seq<TaskView>, id: int)
    requires
        contains_id(tasks, id),
    ensures
        is_first_with_id(tasks, id, first_with_id(tasks, id)),
{
    let k = choose|k: int| 0 <= k < tasks.len() && #[trigger] tasks[k].id == id;
    lemma_first_exists(tasks, id, k);
}

/// Below any task with the id there is a first one.
proof fn lemma_first_exists(tasks: Seq<TaskView>, id: int, k: int)
    requires
        0 <= k < tasks.len(),
        tasks[k].id == id,
    ensures
        exists|index: int| is_first_with_id(tasks, id, index),
    decreases k,
{
    if forall|j: int| 0 <= j < k ==> #[trigger] tasks[j].id != id {
        assert(is_first_with_id(tasks, id, k));
    } else {
        let j = choose|j: int| 0 <= j < k && #[trigger] tasks[j].id == id;
        lemma_first_exists(tasks, id, j);
    }
}

/// The place of the first task with an id is unique.
pub proof fn lemma_first_unique(tasks: Seq<TaskView>, id: int, index: int)
    requires
        is_first_with_id(tasks, id, index),
    ensures
        contains_id(tasks, id),
        first_with_id(tasks, id) == index,
{
    let other = first_with_id(tasks, id);
    assert(is_first_with_id(tasks, id, other));
    if other < index {
        assert(tasks[other].id != id);
    }
    if index < other {
        assert(tasks[index].id != id);
    }
}

/// The largest id is the one number that is at least 0 and at least every
/// id, and that is 0 or the id of some task.
pub proof fn lemma_max_id_is(tasks: Seq<TaskView>, largest: int)
    requires
        largest >= 0,
        forall|i: int| 0 <= i < tasks.len() ==> #[trigger] tasks[i].id <= largest,
        largest == 0 || contains_id(tasks, largest),
    ensures
        max_id(tasks) == largest,
{
    lemma_max_id_bounds(tasks);
    if max_id(tasks) != 0 {
        let k = choose|k: int| 0 <= k < tasks.len() && #[trigger] tasks[k].id == max_id(tasks);
        assert(tasks[k].id <= largest);
    }
    if largest != 0 {
        let k = choose|k: int| 0 <= k < tasks.len() && #[trigger] tasks[k].id == largest;
        assert(tasks[k].id <= max_id(tasks));
    }
}

/// Setting a completion flag and removing a task keep a well-formed
/// collection well-formed.
pub proof fn lemma_well_formed_kept(tasks: Seq<TaskView>, id: int, completed: bool)
    requires
        well_formed(tasks),
    ensures
        well_formed(with_completion(tasks, id, completed)),
        well_formed(without(tasks, id)),
{
    if contains_id(tasks, id) {
        lemma_first_with_id(tasks, id);
        let index = first_with_id(tasks, id);
        let rest = tasks.remove(index);
        assert forall|i: int, j: int|
            0 <= i < rest.len() && 0 <= j < rest.len() && i != j implies rest[i].id
            != rest[j].id by {
            let from_i = if i < index { i } else { i + 1 };
            let from_j = if j < index { j } else { j + 1 };
            assert(rest[i] == tasks[from_i] && rest[j] == tasks[from_j]);
        }
        assert forall|i: int| 0 <= i < rest.len() implies #[trigger] rest[i].id >= 1 by {
            let from_i = if i < index { i } else { i + 1 };
            assert(rest[i] == tasks[from_i]);
        }
    }
}

/// What to create, one entry for each call: a description and a due date.
pub type Request = (Seq<char>, Option<NaiveDate>);

/// The collection after one `create` for each request, in order.
pub open spec fn created_all(tasks: Seq<TaskView>, requests: Seq<Request>) -> Seq<TaskView>
    decreases requests.len(),
{
    if requests.len() == 0 {
        tasks
    } else {
        let before = created_all(tasks, requests.drop_last());
        before.push(created(before, requests.last().0, requests.last().1))
    }
}

/// Ids of created tasks: whatever the descriptions and due dates, a run of
/// `create` calls keeps the tasks that were there, and gives the new tasks
/// the ids that follow the largest id there was, counting up by one. So each
/// new id is larger than every id before it, and a well-formed collection
/// stays well-formed.
pub proof fn lemma_created_ids_increase(tasks: Seq<TaskView>, requests: Seq<Request>)
    ensures
        created_all(tasks, requests).len() == tasks.len() + requests.len(),
        created_all(tasks, requests).take(tasks.len() as int) == tasks,
        max_id(created_all(tasks, requests)) == max_id(tasks) + requests.len(),
        forall|k: int|
            0 <= k < requests.len() ==> (#[trigger] created_all(tasks, requests)[tasks.len() + k]).id
                == max_id(tasks) + 1 + k,
        forall|i: int, j: int|
            0 <= i < j < created_all(tasks, requests).len() && tasks.len() <= j ==> created_all(
                tasks,
                requests,
            )[i].id < created_all(tasks, requests)[j].id,
        well_formed(tasks) ==> well_formed(created_all(tasks, requests)),
    decreases requests.len(),
{
    let after = created_all(tasks, requests);
    lemma_max_id_bounds(tasks);
    if requests.len() == 0 {
        assert(after.take(tasks.len() as int) =~= tasks);
    } else {
        let before = created_all(tasks, requests.drop_last());
        lemma_created_ids_increase(tasks, requests.drop_last());
        let task = created(before, requests.last().0, requests.last().1);
        lemma_max_id_push(before, task);
        assert(after.take(tasks.len() as int) =~= before.take(tasks.len() as int));
        assert forall|k: int| 0 <= k < requests.len() implies (#[trigger] after[tasks.len() + k]).id
            == max_id(tasks) + 1 + k by {
            if k < requests.len() - 1 {
                assert(after[tasks.len() + k] == before[tasks.len() + k]);
            }
        }
        assert forall|i: int, j: int| 0 <= i < j < after.len() && tasks.len() <= j implies after[i].id
            < after[j].id by {
            assert(after[j] == after[tasks.len() + (j - tasks.len())]);
            if i < tasks.len() {
                assert(after[i] == after.take(tasks.len() as int)[i]);
            } else {
                assert(after[i] == after[tasks.len() + (i - tasks.len())]);
            }
        }
        if well_formed(tasks) {
            assert forall|i: int, j: int|
                0 <= i < after.len() && 0 <= j < after.len() && i != j implies after[i].id
                != after[j].id by {
                if i < before.len() && j < before.len() {
                    assert(after[i] == before[i] && after[j] == before[j]);
                }
            }
            assert forall|i: int| 0 <= i < after.len() implies #[trigger] after[i].id >= 1 by {
                if i < before.len() {
                    assert(after[i] == before[i]);
                }
            }
        }
    }
}

/// Ids after a removal. Let a task with the id be removed and a task be
/// created then. The new id is larger than every id that is left, and it is
/// 1 where nothing is left. Where the removed id was not the largest, the
/// new id is the one that would have come without the removal, so no id
/// that the collection ever held comes back. The removed id itself comes
/// back in one case only: it was the largest, and it follows the largest
/// that is left.
pub proof fn lemma_remove_then_create(tasks: Seq<TaskView>, id: int)
    requires
        ids_distinct(tasks),
        contains_id(tasks, id),
    ensures
        without(tasks, id).len() == tasks.len() - 1,
        !contains_id(without(tasks, id), id),
        without(tasks, id).len() == 0 ==> next_id(without(tasks, id)) == 1,
        forall|j: int|
            0 <= j < without(tasks, id).len() ==> (#[trigger] without(tasks, id)[j]).id < next_id(
                without(tasks, id),
            ),
        next_id(without(tasks, id)) <= next_id(tasks),
        id != max_id(tasks) ==> next_id(without(tasks, id)) == next_id(tasks),
        id != max_id(tasks) ==> next_id(without(tasks, id)) != id,
        next_id(without(tasks, id)) == id <==> id == max_id(tasks) && id == max_id(
            without(tasks, id),
        ) + 1,
{
    lemma_first_with_id(tasks, id);
    let index = first_with_id(tasks, id);
    let rest = tasks.remove(index);
    assert(rest == without(tasks, id));
    lemma_max_id_bounds(tasks);
    lemma_max_id_bounds(rest);
    assert forall|j: int| 0 <= j < rest.len() implies #[trigger] rest[j].id != id && rest[j].id
        <= max_id(tasks) by {
        if j < index {
            assert(rest[j] == tasks[j]);
        } else {
            assert(rest[j] == tasks[j + 1]);
        }
    }
    if max_id(rest) != 0 {
        let k = choose|k: int| 0 <= k < rest.len() && #[trigger] rest[k].id == max_id(rest);
        assert(rest[k].id <= max_id(tasks));
    }
    assert(tasks[index].id <= max_id(tasks));
    if id != max_id(tasks) {
        assert(max_id(tasks) != 0 ==> contains_id(rest, max_id(tasks))) by {
            if max_id(tasks) != 0 {
                let k = choose|k: int| 0 <= k < tasks.len() && #[trigger] tasks[k].id == max_id(tasks);
                if k < index {
                    assert(rest[k] == tasks[k]);
                } else {
                    assert(rest[k - 1] == tasks[k]);
                }
            }
        }
        lemma_max_id_is(rest, max_id(tasks));
    }
}

/// Completing and reopening. After `set_completion` with `true` and then
/// with `false` for one id, the collection is what a single call with
/// `false` gives: every task has the id, description and due date that it
/// had, every task but the first with the id is as it was, and where that
/// task was pending the whole collection is as it was.
pub proof fn lemma_complete_then_reopen(tasks: Seq<TaskView>, id: int)
    ensures
        with_completion(with_completion(tasks, id, true), id, false) == with_completion(
            tasks,
            id,
            false,
        ),
        with_completion(tasks, id, false).len() == tasks.len(),
        forall|j: int|
            0 <= j < tasks.len() ==> {
                let after = #[trigger] with_completion(tasks, id, false)[j];
                &&& after.id == tasks[j].id
                &&& after.description == tasks[j].description
                &&& after.due_date == tasks[j].due_date
                &&& (tasks[j].id != id || tasks[j].completed == false ==> after == tasks[j])
            },
        contains_id(tasks, id) && !tasks[first_with_id(tasks, id)].completed ==> with_completion(
            tasks,
            id,
            false,
        ) == tasks,
        !contains_id(tasks, id) ==> with_completion(tasks, id, false) == tasks,
{
    if contains_id(tasks, id) {
        lemma_first_with_id(tasks, id);
        let index = first_with_id(tasks, id);
        let done = with_completion(tasks, id, true);
        assert(done == tasks.update(index, TaskView { completed: true, ..tasks[index] }));
        assert(is_first_with_id(done, id, index));
        lemma_first_unique(done, id, index);
        assert(with_completion(done, id, false) =~= with_completion(tasks, id, false));
        if !tasks[index].completed {
            assert(with_completion(tasks, id, false) =~= tasks);
        }
    }
}

impl TaskList {
    /// The collection without tasks.
    pub fn new() -> (list: TaskList)
        ensures
            list@ == Seq::<TaskView>::empty(),
            well_formed(list@),
    {
        let list = TaskList { tasks: Vec::new() };
        assert(list@ =~= Seq::<TaskView>::empty());
        list
    }

    /// The number of tasks.
    pub fn len(&self) -> (n: usize)
        ensures
            n == self@.len(),
    {
        self.tasks.len()
    }

    /// The largest id in the collection, and 0 where it is empty.
    pub fn max_id(&self) -> (id: u32)
        ensures
            id == max_id(self@),
    {
        let mut largest: u32 = 0;
        let mut i: usize = 0;
        while i < self.tasks.len()
            invariant
                0 <= i <= self.tasks.len(),
                largest == max_id(self@.take(i as int)),
            decreases self.tasks.len() - i,
        {
            proof {
                assert(self@.take(i + 1).drop_last() =~= self@.take(i as int));
            }
            if self.tasks[i].id > largest {
                largest = self.tasks[i].id;
            }
            i += 1;
        }
        assert(self@.take(i as int) =~= self@);
        largest
    }

    /// The place of the first task with the id, if there is one.
    pub fn position(&self, id: u32) -> (r: Option<usize>)
        ensures
            match r {
                Some(index) => is_first_with_id(self@, id as int, index as int),
                None => !contains_id(self@, id as int),
            },
    {
        let mut i: usize = 0;
        while i < self.tasks.len()
            invariant
                0 <= i <= self.tasks.len(),
                forall|j: int| 0 <= j < i ==> #[trigger] self@[j].id != id,
            decreases self.tasks.len() - i,
        {
            if self.tasks[i].id == id {
                return Some(i);
            }
            i += 1;
        }
        None
    }

    /// Adds a pending task at the end of the collection and returns it. Its
    /// id is one more than the largest id in the collection, so 1 in an
    /// empty one.
    pub fn create(&mut self, description: String, due_date: Option<NaiveDate>) -> (task: Task)
        requires
            next_id(old(self)@) <= u32::MAX,
        ensures
            task@ == created(old(self)@, description@, due_date),
            final(self)@ == old(self)@.push(task@),
            max_id(final(self)@) == task.id,
            well_formed(old(self)@) ==> well_formed(final(self)@),
    {
        let id: u32 = self.max_id() + 1;
        let task = Task::new(id, description, due_date);
        let copy = task.clone();
        self.tasks.push(task);
        proof {
            assert(final(self)@ =~= old(self)@.push(copy@));
            lemma_max_id_bounds(old(self)@);
            lemma_max_id_push(old(self)@, copy@);
        }
        copy
    }

    /// The first task with the id. Fails with `TaskNotFound` exactly where
    /// no task has the id.
    pub fn find_by_id(&self, id: u32) -> (r: Result<&Task, AppError>)
        ensures
            r is Ok <==> contains_id(self@, id as int),
            r matches Ok(task) ==> is_first_with_id(self@, id as int, first_with_id(self@, id as int))
                && task@ == self@[first_with_id(self@, id as int)],
            r matches Err(e) ==> e == AppError::TaskNotFound(id),
    {
        match self.position(id) {
            Some(index) => {
                proof {
                    lemma_first_unique(self@, id as int, index as int);
                }
                Ok(&self.tasks[index])
            },
            None => Err(AppError::TaskNotFound(id)),
        }
    }

    /// Sets the completion flag of the first task with the id. Fails with
    /// `TaskNotFound`, and changes nothing, exactly where no task has the id.
    pub fn set_completion(&mut self, id: u32, completed: bool) -> (r: Result<(), AppError>)
        ensures
            r is Ok <==> contains_id(old(self)@, id as int),
            r is Ok ==> is_first_with_id(old(self)@, id as int, first_with_id(old(self)@, id as int)),
            r matches Err(e) ==> e == AppError::TaskNotFound(id),
            final(self)@ == with_completion(old(self)@, id as int, completed),
            well_formed(old(self)@) ==> well_formed(final(self)@),
    {
        proof {
            if well_formed(self@) {
                lemma_well_formed_kept(self@, id as int, completed);
            }
        }
        match self.position(id) {
            Some(index) => {
                proof {
                    lemma_first_unique(self@, id as int, index as int);
                }
                self.tasks[index].completed = completed;
                proof {
                    assert(final(self)@ =~= with_completion(old(self)@, id as int, completed));
                }
                Ok(())
            },
            None => Err(AppError::TaskNotFound(id)),
        }
    }

    /// Removes the first task with the id; the others keep their order.
    /// Fails with `TaskNotFound`, and changes nothing, exactly where no task
    /// has the id.
    pub fn remove(&mut self, id: u32) -> (r: Result<(), AppError>)
        ensures
            r is Ok <==> contains_id(old(self)@, id as int),
            r is Ok ==> is_first_with_id(old(self)@, id as int, first_with_id(old(self)@, id as int)),
            r matches Err(e) ==> e == AppError::TaskNotFound(id),
            final(self)@ == without(old(self)@, id as int),
            well_formed(old(self)@) ==> well_formed(final(self)@),
    {
        proof {
            if well_formed(self@) {
                lemma_well_formed_kept(self@, id as int, true);
            }
        }
        match self.position(id) {
            Some(index) => {
                proof {
                    lemma_first_unique(self@, id as int, index as int);
                }
                self.tasks.remove(index);
                proof {
                    assert(final(self)@ =~= without(old(self)@, id as int));
                }
                Ok(())
            },
            None => Err(AppError::TaskNotFound(id)),
        }
    }

    /// Empties the collection and returns how many tasks it held.
    pub fn clear(&mut self) -> (count: usize)
        ensures
            count == old(self)@.len(),
            final(self)@ == Seq::<TaskView>::empty(),
    {
        let count = self.tasks.len();
        self.tasks.clear();
        proof {
            assert(final(self)@ =~= Seq::<TaskView>::empty());
        }
        count
    }
}

} // verus!
