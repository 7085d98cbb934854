//! Core of a local task tracker: the task data model, the operations on a
//! task collection, and the encoding of a collection as a TOML document.

pub mod codec;
pub mod date;
pub mod document;
pub mod error;
pub mod listing;
pub mod models;
pub mod storage;
pub mod store;

pub use error::{AppError, FieldName, ParseFailure};
pub use date::parse_due_date;
pub use listing::{list_tasks, Listing};
pub use models::{Task, TaskList, TaskView};
pub use storage::{get_tasks_file_path, load_tasks, save_tasks};
