use task_manager_command_line::{list_tasks, Listing, Task};

fn task(id: u32, completed: bool) -> Task {
    Task { id, description: format!("task {}", id), due_date: None, completed }
}

#[test]
fn empty_collection_lists_no_tasks() {
    assert_eq!(list_tasks(&[], false), Listing::NoTasks);
    assert_eq!(list_tasks(&[], true), Listing::NoTasks);
}

#[test]
fn pending_tasks_are_listed_in_order() {
    let tasks = vec![task(1, false), task(2, true), task(3, false)];
    assert_eq!(list_tasks(&tasks, false), Listing::Rows(vec![&tasks[0], &tasks[2]]));
}

#[test]
fn show_all_lists_completed_tasks_too() {
    let tasks = vec![task(1, false), task(2, true), task(3, false)];
    assert_eq!(list_tasks(&tasks, true), Listing::Rows(vec![&tasks[0], &tasks[1], &tasks[2]]));
}

#[test]
fn all_completed_is_told_apart_from_empty() {
    let tasks = vec![task(1, true), task(2, true)];
    assert_eq!(list_tasks(&tasks, false), Listing::AllCompleted);
    assert_eq!(list_tasks(&tasks, true), Listing::Rows(vec![&tasks[0], &tasks[1]]));
}
