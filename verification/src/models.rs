//! The task and the ordered collection of tasks.

use vstd::prelude::*;
use chrono::NaiveDate;

verus! {

/// One unit of work.
#[derive(Debug, PartialEq, Eq)]
pub struct Task {
    pub id: u32,
    pub description: String,
    pub due_date: Option<NaiveDate>,
    pub completed: bool,
}

/// What a task is, mathematically.
pub struct TaskView {
    pub id: int,
    pub description: Seq<char>,
    pub due_date: Option<NaiveDate>,
    pub completed: bool,
}

impl View for Task {
    type V = TaskView;

    open spec fn view(&self) -> TaskView {
        TaskView {
            id: self.id as int,
            description: self.description@,
            due_date: self.due_date,
            completed: self.completed,
        }
    }
}

impl Clone for Task {
    fn clone(&self) -> (copy: Task)
        ensures
            copy@ == self@,
    {
        Task {
            id: self.id,
            description: self.description.clone(),
            due_date: self.due_date,
            completed: self.completed,
        }
    }
}

impl Task {
    /// A pending task with the given id, description and due date.
    pub fn new(id: u32, description: String, due_date: Option<NaiveDate>) -> (task: Task)
        ensures
            task@ == (TaskView {
                id: id as int,
                description: description@,
                due_date: due_date,
                completed: false,
            }),
    {
        Task { id, description, due_date, completed: false }
    }

    /// Sets the completion flag and leaves everything else as it was.
    pub fn mark_completion(&mut self, status: bool)
        ensures
            final(self)@ == (TaskView { completed: status, ..old(self)@ }),
    {
        self.completed = status;
    }
}

/// The ordered collection of tasks: the unit that is loaded and saved.
/// Tasks stay in the order in which they were added.
#[derive(Debug, PartialEq, Eq)]
pub struct TaskList {
    pub tasks: Vec<Task>,
}

/// The views of a sequence of tasks, in order.
pub open spec fn views_of(tasks: Seq<Task>) -> Seq<TaskView> {
    tasks.map_values(|t: Task| t@)
}

impl View for TaskList {
    type V = Seq<TaskView>;

    open spec fn view(&self) -> Seq<TaskView> {
        views_of(self.tasks@)
    }
}

} // verus!
