//! Loading and saving: between the text of the tasks file and the
//! collection. Reading and writing the file itself is left to the caller.

use vstd::prelude::*;
use crate::codec::{
    dates_read_back, decode_tasks, document_of, encode_tasks, ids_in_range,
    lemma_document_reads_back, tasks_of_document,
};
use crate::document::{
    parse_document, parsed_document, print_document, printed_document, Node,
};
use crate::error::{AppError, ParseFailure};
use crate::models::{views_of, Task, TaskView};

verus! {

/// The name of the tasks file.
pub const TASKS_FILE_NAME: &'static str = "tasks.toml";

/// Where the tasks file stands: under its name, in the working directory.
pub fn get_tasks_file_path() -> (path: &'static str)
    ensures
        path@ == TASKS_FILE_NAME@,
{
    TASKS_FILE_NAME
}

/// The characters of a text that may be missing.
pub open spec fn chars_of(contents: Option<&str>) -> Option<Seq<char>> {
    match contents {
        Some(text) => Some(text@),
        None => None,
    }
}

/// What loading gives for the contents of the tasks file, `None` standing
/// for a file that does not exist: then the empty collection; else the
/// collection that the text stands for as a TOML document, or the reason
/// why it stands for none.
pub open spec fn loaded(contents: Option<Seq<char>>) -> Result<Seq<TaskView>, AppError> {
    match contents {
        None => Ok(Seq::empty()),
        Some(text) => match parsed_document(text) {
            Err(cause) => Err(AppError::TomlDeserialize(ParseFailure::Syntax(cause))),
            Ok(entries) => match tasks_of_document(entries) {
                Err(failure) => Err(AppError::TomlDeserialize(failure)),
                Ok(tasks) => Ok(tasks),
            },
        },
    }
}

/// What saving gives for a collection: the text that `toml` prints for its
/// document, or the reason why it prints none.
pub open spec fn saved(tasks: Seq<TaskView>) -> Result<Seq<char>, AppError> {
    match printed_document(document_of(tasks)) {
        Ok(text) => Ok(text),
        Err(cause) => Err(AppError::TomlSerialize(cause)),
    }
}

/// Loads the collection from the contents of the tasks file: see
/// [`loaded`]. A file that does not exist is the empty collection, and no
/// failure; a text that stands for no collection is a failure, and nothing
/// of it is loaded.
pub fn load_tasks(contents: Option<&str>) -> (r: Result<Vec<Task>, AppError>)
    ensures
        match r {
            Ok(tasks) => loaded(chars_of(contents)) == Ok::<Seq<TaskView>, AppError>(
                views_of(tasks@),
            ),
            Err(error) => loaded(chars_of(contents)) == Err::<Seq<TaskView>, AppError>(error),
        },
        contents is None ==> r is Ok && r->Ok_0@.len() == 0,
{
    let text = match contents {
        Some(text) => text,
        None => {
            let tasks: Vec<Task> = Vec::new();
            assert(views_of(tasks@) =~= Seq::<TaskView>::empty());
            return Ok(tasks);
        },
    };
    let document = match parse_document(text) {
        Ok(document) => document,
        Err(cause) => {
            return Err(AppError::TomlDeserialize(ParseFailure::Syntax(cause)));
        },
    };
    match decode_tasks(&document) {
        Ok(tasks) => Ok(tasks),
        Err(failure) => Err(AppError::TomlDeserialize(failure)),
    }
}

/// Saves the collection as the text to write to the tasks file: see
/// [`saved`]. The document that is printed stands for the same collection.
pub fn save_tasks(tasks: &[Task]) -> (r: Result<String, AppError>)
    ensures
        match r {
            Ok(text) => saved(views_of(tasks@)) == Ok::<Seq<char>, AppError>(text@),
            Err(error) => saved(views_of(tasks@)) == Err::<Seq<char>, AppError>(error),
        },
        tasks_of_document(document_of(views_of(tasks@))) == Ok::<Seq<TaskView>, ParseFailure>(
            views_of(tasks@),
        ),
{
    let document = encode_tasks(tasks);
    match print_document(&document) {
        Ok(text) => Ok(text),
        Err(cause) => Err(AppError::TomlSerialize(cause)),
    }
}

/// Round trip of the tasks file, as far as it is this library's. Saving
/// prints the document of the collection. From whatever text `toml` reads
/// that document, loading gives the collection back, in order and with every
/// id, description, due date and completion flag. That `toml` reads from the
/// text it printed the document it printed is its own business, and is not
/// claimed here.
pub proof fn lemma_load_reads_document(tasks: Seq<TaskView>, text: Seq<char>)
    requires
        ids_in_range(tasks),
        dates_read_back(tasks),
        tasks.len() <= usize::MAX,
    ensures
        parsed_document(text) == Ok::<Map<Seq<char>, Node>, toml::de::Error>(document_of(tasks))
            ==> loaded(Some(text)) == Ok::<Seq<TaskView>, AppError>(tasks),
{
    lemma_document_reads_back(tasks);
}

} // verus!
