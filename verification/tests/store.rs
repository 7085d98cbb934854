use chrono::NaiveDate;
use task_manager_command_line::{AppError, Task, TaskList};

fn task(id: u32, description: &str, completed: bool) -> Task {
    let mut t = Task::new(id, description.to_string(), None);
    t.mark_completion(completed);
    t
}

fn list_of(ids: &[u32]) -> TaskList {
    TaskList { tasks: ids.iter().map(|&id| task(id, "t", false)).collect() }
}

fn ids(list: &TaskList) -> Vec<u32> {
    list.tasks.iter().map(|t| t.id).collect()
}

#[test]
fn new_task_is_pending() {
    let due = NaiveDate::from_ymd_opt(2024, 2, 29);
    let t = Task::new(7, "Write report".to_string(), due);
    assert_eq!(t.id, 7);
    assert_eq!(t.description, "Write report");
    assert_eq!(t.due_date, due);
    assert!(!t.completed);
}

#[test]
fn mark_completion_changes_only_the_flag() {
    let due = NaiveDate::from_ymd_opt(2024, 2, 29);
    let mut t = Task::new(7, "Write report".to_string(), due);
    t.mark_completion(true);
    assert_eq!(t, Task { id: 7, description: "Write report".to_string(), due_date: due, completed: true });
    t.mark_completion(true);
    assert!(t.completed);
    t.mark_completion(false);
    assert_eq!(t, Task::new(7, "Write report".to_string(), due));
}

#[test]
fn clone_keeps_every_field() {
    let t = task(3, "copy me", true);
    assert_eq!(t.clone(), t);
}

#[test]
fn create_in_empty_store_gives_id_one() {
    let mut list = TaskList::new();
    let created = list.create("Buy milk".to_string(), None);
    assert_eq!(
        created,
        Task { id: 1, description: "Buy milk".to_string(), due_date: None, completed: false }
    );
    assert_eq!(list.tasks, vec![created]);
}

#[test]
fn create_after_gap_follows_largest_id() {
    let mut list = list_of(&[1, 3]);
    let created = list.create("X".to_string(), None);
    assert_eq!(created.id, 4);
    assert_eq!(ids(&list), vec![1, 3, 4]);
    assert_eq!(list.tasks[2], created);
}

#[test]
fn create_follows_largest_id_wherever_it_stands() {
    let mut list = list_of(&[9, 2, 5]);
    assert_eq!(list.max_id(), 9);
    assert_eq!(list.create("next".to_string(), None).id, 10);
}

#[test]
fn created_ids_increase_whatever_the_content() {
    let mut list = list_of(&[4]);
    let due = NaiveDate::from_ymd_opt(2030, 1, 1);
    let a = list.create("same".to_string(), None).id;
    let b = list.create("same".to_string(), due).id;
    let c = list.create(String::new(), None).id;
    assert_eq!((a, b, c), (5, 6, 7));
    assert_eq!(ids(&list), vec![4, 5, 6, 7]);
}

#[test]
fn create_keeps_due_date() {
    let mut list = TaskList::new();
    let due = NaiveDate::from_ymd_opt(2025, 12, 31);
    let created = list.create("Taxes".to_string(), due);
    assert_eq!(created.due_date, due);
    assert_eq!(list.tasks[0].due_date, due);
}

#[test]
fn removed_id_is_not_reused_below_the_largest() {
    let mut list = list_of(&[1, 2, 3]);
    assert_eq!(list.remove(2), Ok(()));
    assert_eq!(ids(&list), vec![1, 3]);
    assert_eq!(list.create("X".to_string(), None).id, 4);
}

#[test]
fn removing_the_largest_id_frees_it() {
    let mut list = list_of(&[1, 2, 3]);
    assert_eq!(list.remove(3), Ok(()));
    assert_eq!(list.create("X".to_string(), None).id, 3);
}

#[test]
fn ids_restart_at_one_once_empty() {
    let mut list = list_of(&[5]);
    assert_eq!(list.remove(5), Ok(()));
    assert_eq!(list.len(), 0);
    assert_eq!(list.create("again".to_string(), None).id, 1);
}

#[test]
fn remove_keeps_the_order_of_the_rest() {
    let mut list = list_of(&[4, 1, 7, 2]);
    assert_eq!(list.remove(1), Ok(()));
    assert_eq!(ids(&list), vec![4, 7, 2]);
}

#[test]
fn remove_takes_the_first_of_equal_ids() {
    let mut list = TaskList { tasks: vec![task(1, "a", false), task(2, "b", false), task(1, "c", false)] };
    assert_eq!(list.remove(1), Ok(()));
    assert_eq!(list.tasks, vec![task(2, "b", false), task(1, "c", false)]);
}

#[test]
fn complete_then_reopen_restores_the_task() {
    let due = NaiveDate::from_ymd_opt(2024, 5, 17);
    let mut list = list_of(&[1, 2]);
    list.tasks[1] = Task::new(2, "Call Anna".to_string(), due);
    assert_eq!(list.set_completion(2, true), Ok(()));
    assert_eq!(
        list.tasks[1],
        Task { id: 2, description: "Call Anna".to_string(), due_date: due, completed: true }
    );
    assert_eq!(list.tasks[0], task(1, "t", false));
    assert_eq!(list.set_completion(2, false), Ok(()));
    assert_eq!(list.tasks[1], Task::new(2, "Call Anna".to_string(), due));
    assert_eq!(list.tasks[0], task(1, "t", false));
}

#[test]
fn set_completion_to_the_same_value_succeeds() {
    let mut list = list_of(&[1]);
    assert_eq!(list.set_completion(1, false), Ok(()));
    assert_eq!(list.tasks, vec![task(1, "t", false)]);
    assert_eq!(list.set_completion(1, true), Ok(()));
    assert_eq!(list.set_completion(1, true), Ok(()));
    assert_eq!(list.tasks, vec![task(1, "t", true)]);
}

#[test]
fn clear_returns_the_count_and_empties() {
    let mut list = list_of(&[1, 2, 3]);
    assert_eq!(list.clear(), 3);
    assert!(list.tasks.is_empty());
    assert_eq!(list.clear(), 0);
    assert!(list.tasks.is_empty());
}

#[test]
fn absent_id_is_task_not_found() {
    let mut list = list_of(&[1, 3]);
    assert_eq!(list.find_by_id(2), Err(AppError::TaskNotFound(2)));
    assert_eq!(list.set_completion(2, true), Err(AppError::TaskNotFound(2)));
    assert_eq!(list.remove(2), Err(AppError::TaskNotFound(2)));
    assert_eq!(list, list_of(&[1, 3]));
    let mut empty = TaskList::new();
    assert_eq!(empty.find_by_id(1), Err(AppError::TaskNotFound(1)));
    assert_eq!(empty.remove(1), Err(AppError::TaskNotFound(1)));
    assert_eq!(empty.set_completion(1, false), Err(AppError::TaskNotFound(1)));
}

#[test]
fn find_by_id_gives_the_first_match() {
    let list = TaskList { tasks: vec![task(2, "a", false), task(5, "b", true), task(5, "c", false)] };
    assert_eq!(list.find_by_id(5), Ok(&task(5, "b", true)));
    assert_eq!(list.position(5), Some(1));
    assert_eq!(list.position(2), Some(0));
    assert_eq!(list.position(9), None);
}

#[test]
fn max_id_of_empty_collection_is_zero() {
    assert_eq!(TaskList::new().max_id(), 0);
    assert_eq!(TaskList::new().len(), 0);
}
