//! The kinds of failure that the library reports.

use vstd::prelude::*;

verus! {

/// The four fields of a task record.
#[derive(Debug, Clone, Copy, PartialEq, Eq, Structural)]
pub enum FieldName {
    Id,
    Description,
    DueDate,
    Completed,
}

/// Why a stored text is not a task collection.
#[derive(Debug, PartialEq, Eq)]
pub enum ParseFailure {
    /// The text is not a TOML document.
    Syntax(toml::de::Error),
    /// The document has no key `tasks`.
    MissingTasks,
    /// What stands under `tasks` is not an array.
    TasksNotArray,
    /// The element at this place of the array is not a table.
    NotARecord(usize),
    /// The record at this place lacks a field that every task has.
    MissingField(usize, FieldName),
    /// A field of the record at this place holds a value of the wrong kind,
    /// an id that is no unsigned 32-bit number, or a text that is no date.
    InvalidField(usize, FieldName),
}

/// Every failure of the task tracker, by kind.
#[derive(Debug, PartialEq, Eq)]
pub enum AppError {
    /// A file system operation failed; the cause as text.
    Io(String),
    /// The stored text could not be read as a task collection.
    TomlDeserialize(ParseFailure),
    /// The collection could not be printed as TOML.
    TomlSerialize(toml::ser::Error),
    /// No task with this id is in the collection.
    TaskNotFound(u32),
    /// Input from the user was malformed.
    InvalidArgument(String),
    /// Anything else.
    Unexpected(String),
}

} // verus!
