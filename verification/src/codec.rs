//! Task collections as TOML documents: one top-level key, `tasks`, whose
//! value is the array of task records, each a table of the task's fields.

use vstd::prelude::*;
use vstd::string::StringExecFns;
use chrono::NaiveDate;
use crate::date::{parsed_date, printed_date, print_date, read_date};
use crate::document::{
    array_value, boolean_value, empty_entries, empty_table, integer_value, nodes_of, plain,
    plain_entries, table_entries, table_get, table_value, text_value, value_node, Node,
};
use crate::error::{FieldName, ParseFailure};
use crate::models::{views_of, Task, TaskView};

verus! {

/// The key of the array of task records.
pub const KEY_TASKS: &'static str = "tasks";

/// The key of a task's id.
pub const KEY_ID: &'static str = "id";

/// The key of a task's description.
pub const KEY_DESCRIPTION: &'static str = "description";

/// The key of a task's due date. A task without one has no such key.
pub const KEY_DUE_DATE: &'static str = "due_date";

/// The key of a task's completion flag.
pub const KEY_COMPLETED: &'static str = "completed";

/// What a record holds under one key, read as a value of one kind.
#[derive(Debug, PartialEq, Eq)]
pub enum Field<T> {
    /// The record has no such key.
    Absent,
    /// The value under the key is of another kind.
    Mistyped,
    /// The value under the key.
    Present(T),
}

/// A text field by its characters.
pub open spec fn text_of(field: Field<&str>) -> Field<Seq<char>> {
    match field {
        Field::Absent => Field::Absent,
        Field::Mistyped => Field::Mistyped,
        Field::Present(text) => Field::Present(text@),
    }
}

/// What a table holds under a key, read as an integer.
pub open spec fn integer_field(entries: Map<Seq<char>, Node>, key: Seq<char>) -> Field<i64> {
    if !entries.contains_key(key) {
        Field::Absent
    } else {
        match entries[key] {
            Node::Integer(number) => Field::Present(number),
            _ => Field::Mistyped,
        }
    }
}

/// What a table holds under a key, read as a text.
pub open spec fn text_field(entries: Map<Seq<char>, Node>, key: Seq<char>) -> Field<Seq<char>> {
    if !entries.contains_key(key) {
        Field::Absent
    } else {
        match entries[key] {
            Node::Text(text) => Field::Present(text),
            _ => Field::Mistyped,
        }
    }
}

/// What a table holds under a key, read as a flag.
pub open spec fn flag_field(entries: Map<Seq<char>, Node>, key: Seq<char>) -> Field<bool> {
    if !entries.contains_key(key) {
        Field::Absent
    } else {
        match entries[key] {
            Node::Boolean(flag) => Field::Present(flag),
            _ => Field::Mistyped,
        }
    }
}

/// The failure of a field that must be there and is not as it must be.
pub open spec fn field_failure<T>(index: usize, name: FieldName, field: Field<T>) -> ParseFailure {
    match field {
        Field::Absent => ParseFailure::MissingField(index, name),
        _ => ParseFailure::InvalidField(index, name),
    }
}

/// The due date that a record's field stands for: none where the key is
/// absent, and the date that the text reads as where there is a text.
pub open spec fn due_date_of_field(index: usize, field: Field<Seq<char>>) -> Result<
    Option<NaiveDate>,
    ParseFailure,
> {
    match field {
        Field::Absent => Ok(None),
        Field::Mistyped => Err(ParseFailure::InvalidField(index, FieldName::DueDate)),
        Field::Present(text) => match parsed_date(text) {
            Some(date) => Ok(Some(date)),
            None => Err(ParseFailure::InvalidField(index, FieldName::DueDate)),
        },
    }
}

/// The task that the fields of the record at `index` stand for. The fields
/// are judged in the order id, description, due date, completion flag, and
/// the first that is not as it must be gives the failure.
pub open spec fn task_of_fields(
    index: usize,
    id: Field<i64>,
    description: Field<Seq<char>>,
    due_date: Field<Seq<char>>,
    completed: Field<bool>,
) -> Result<TaskView, ParseFailure> {
    if !(id matches Field::Present(number) && 0 <= number <= u32::MAX) {
        Err(field_failure(index, FieldName::Id, id))
    } else if !(description is Present) {
        Err(field_failure(index, FieldName::Description, description))
    } else if due_date_of_field(index, due_date) is Err {
        Err(due_date_of_field(index, due_date)->Err_0)
    } else if !(completed is Present) {
        Err(field_failure(index, FieldName::Completed, completed))
    } else {
        Ok(
            TaskView {
                id: id->Present_0 as int,
                description: description->Present_0,
                due_date: due_date_of_field(index, due_date)->Ok_0,
                completed: completed->Present_0,
            },
        )
    }
}

/// The task that the array element at `index` stands for.
pub open spec fn task_of_node(index: usize, node: Node) -> Result<TaskView, ParseFailure> {
    match node {
        Node::Table(entries) => task_of_fields(
            index,
            integer_field(entries, KEY_ID@),
            text_field(entries, KEY_DESCRIPTION@),
            text_field(entries, KEY_DUE_DATE@),
            flag_field(entries, KEY_COMPLETED@),
        ),
        _ => Err(ParseFailure::NotARecord(index)),
    }
}

/// The tasks that the first `count` elements stand for, in order, or the
/// failure of the first element that stands for none.
pub open spec fn tasks_of_nodes(nodes: Seq<Node>, count: nat) -> Result<Seq<TaskView>, ParseFailure>
    decreases count,
{
    if count == 0 {
        Ok(Seq::empty())
    } else {
        match tasks_of_nodes(nodes, (count - 1) as nat) {
            Err(failure) => Err(failure),
            Ok(tasks) => match task_of_node((count - 1) as usize, nodes[count - 1]) {
                Err(failure) => Err(failure),
                Ok(task) => Ok(tasks.push(task)),
            },
        }
    }
}

/// The collection that a document stands for.
pub open spec fn tasks_of_document(entries: Map<Seq<char>, Node>) -> Result<
    Seq<TaskView>,
    ParseFailure,
> {
    if !entries.contains_key(KEY_TASKS@) {
        Err(ParseFailure::MissingTasks)
    } else {
        match entries[KEY_TASKS@] {
            Node::Array(nodes) => tasks_of_nodes(nodes, nodes.len()),
            _ => Err(ParseFailure::TasksNotArray),
        }
    }
}

/// The record of a task: its id, description and completion flag, and its
/// due date, as `chrono` prints it, where it has one.
pub open spec fn record_of_task(task: TaskView) -> Map<Seq<char>, Node> {
    let record = empty_entries().insert(KEY_ID@, Node::Integer(task.id as i64)).insert(
        KEY_DESCRIPTION@,
        Node::Text(task.description),
    ).insert(KEY_COMPLETED@, Node::Boolean(task.completed));
    match task.due_date {
        Some(date) => record.insert(KEY_DUE_DATE@, Node::Text(printed_date(date))),
        None => record,
    }
}

/// The records of a collection, in order.
pub open spec fn records_of(tasks: Seq<TaskView>) -> Seq<Node> {
    tasks.map_values(|task: TaskView| Node::Table(record_of_task(task)))
}

/// The document of a collection.
pub open spec fn document_of(tasks: Seq<TaskView>) -> Map<Seq<char>, Node> {
    empty_entries().insert(KEY_TASKS@, Node::Array(records_of(tasks)))
}

/// The task that the fields of one record stand for: see
/// [`task_of_fields`]. The due date is read by `chrono`.
pub fn task_from_fields(
    index: usize,
    id: Field<i64>,
    description: Field<&str>,
    due_date: Field<&str>,
    completed: Field<bool>,
) -> (r: Result<Task, ParseFailure>)
    ensures
        match r {
            Ok(task) => task_of_fields(index, id, text_of(description), text_of(due_date), completed)
                == Ok::<TaskView, ParseFailure>(task@),
            Err(failure) => task_of_fields(
                index,
                id,
                text_of(description),
                text_of(due_date),
                completed,
            ) == Err::<TaskView, ParseFailure>(failure),
        },
{
    let number: u32 = match id {
        Field::Present(n) => {
            if n < 0 || n > 0xffff_ffff {
                return Err(ParseFailure::InvalidField(index, FieldName::Id));
            }
            n as u32
        },
        Field::Absent => {
            return Err(ParseFailure::MissingField(index, FieldName::Id));
        },
        Field::Mistyped => {
            return Err(ParseFailure::InvalidField(index, FieldName::Id));
        },
    };
    let text: &str = match description {
        Field::Present(s) => s,
        Field::Absent => {
            return Err(ParseFailure::MissingField(index, FieldName::Description));
        },
        Field::Mistyped => {
            return Err(ParseFailure::InvalidField(index, FieldName::Description));
        },
    };
    let due: Option<NaiveDate> = match due_date {
        Field::Absent => None,
        Field::Mistyped => {
            return Err(ParseFailure::InvalidField(index, FieldName::DueDate));
        },
        Field::Present(s) => match read_date(s) {
            Some(date) => Some(date),
            None => {
                return Err(ParseFailure::InvalidField(index, FieldName::DueDate));
            },
        },
    };
    let done: bool = match completed {
        Field::Present(flag) => flag,
        Field::Absent => {
            return Err(ParseFailure::MissingField(index, FieldName::Completed));
        },
        Field::Mistyped => {
            return Err(ParseFailure::InvalidField(index, FieldName::Completed));
        },
    };
    Ok(Task { id: number, description: String::from_str(text), due_date: due, completed: done })
}

/// Reads what a record holds under a key as an integer.
pub fn read_integer(record: &toml::Table, key: &str) -> (field: Field<i64>)
    ensures
        field == integer_field(table_entries(*record), key@),
{
    match table_get(record, key) {
        None => Field::Absent,
        Some(value) => match value.as_integer() {
            Some(number) => Field::Present(number),
            None => Field::Mistyped,
        },
    }
}

/// Reads what a record holds under a key as a text.
pub fn read_text<'a>(record: &'a toml::Table, key: &str) -> (field: Field<&'a str>)
    ensures
        text_of(field) == text_field(table_entries(*record), key@),
{
    match table_get(record, key) {
        None => Field::Absent,
        Some(value) => match value.as_str() {
            Some(text) => Field::Present(text),
            None => Field::Mistyped,
        },
    }
}

/// Reads what a record holds under a key as a flag.
pub fn read_flag(record: &toml::Table, key: &str) -> (field: Field<bool>)
    ensures
        field == flag_field(table_entries(*record), key@),
{
    match table_get(record, key) {
        None => Field::Absent,
        Some(value) => match value.as_bool() {
            Some(flag) => Field::Present(flag),
            None => Field::Mistyped,
        },
    }
}

/// A failure among the first elements is the failure of every longer run.
pub proof fn lemma_failure_persists(nodes: Seq<Node>, count: nat, longer: nat)
    requires
        count <= longer,
        tasks_of_nodes(nodes, count) is Err,
    ensures
        tasks_of_nodes(nodes, longer) == tasks_of_nodes(nodes, count),
    decreases longer,
{
    if count < longer {
        lemma_failure_persists(nodes, count, (longer - 1) as nat);
    }
}

/// Reads the collection that a document stands for: see
/// [`tasks_of_document`]. Keys that no task has are passed over.
pub fn decode_tasks(document: &toml::Table) -> (r: Result<Vec<Task>, ParseFailure>)
    ensures
        match r {
            Ok(tasks) => tasks_of_document(table_entries(*document)) == Ok::<
                Seq<TaskView>,
                ParseFailure,
            >(views_of(tasks@)),
            Err(failure) => tasks_of_document(table_entries(*document)) == Err::<
                Seq<TaskView>,
                ParseFailure,
            >(failure),
        },
{
    let value = match table_get(document, KEY_TASKS) {
        Some(value) => value,
        None => {
            return Err(ParseFailure::MissingTasks);
        },
    };
    let items = match value.as_array() {
        Some(items) => items,
        None => {
            return Err(ParseFailure::TasksNotArray);
        },
    };
    let ghost nodes = nodes_of(items@);
    let mut tasks: Vec<Task> = Vec::new();
    let mut i: usize = 0;
    assert(views_of(tasks@) =~= Seq::<TaskView>::empty());
    while i < items.len()
        invariant
            0 <= i <= items.len(),
            nodes == nodes_of(items@),
            tasks_of_document(table_entries(*document)) == tasks_of_nodes(nodes, nodes.len()),
            tasks_of_nodes(nodes, i as nat) == Ok::<Seq<TaskView>, ParseFailure>(views_of(tasks@)),
        decreases items.len() - i,
    {
        assert(nodes[i as int] == value_node(items@[i as int]));
        let decoded = match items[i].as_table() {
            Some(record) => task_from_fields(
                i,
                read_integer(record, KEY_ID),
                read_text(record, KEY_DESCRIPTION),
                read_text(record, KEY_DUE_DATE),
                read_flag(record, KEY_COMPLETED),
            ),
            None => Err(ParseFailure::NotARecord(i)),
        };
        match decoded {
            Ok(task) => {
                assert(views_of(tasks@.push(task)) =~= views_of(tasks@).push(task@));
                tasks.push(task);
            },
            Err(failure) => {
                proof {
                    assert(tasks_of_nodes(nodes, (i + 1) as nat) == Err::<Seq<TaskView>, ParseFailure>(
                        failure,
                    ));
                    lemma_failure_persists(nodes, (i + 1) as nat, nodes.len());
                }
                return Err(failure);
            },
        }
        i += 1;
    }
    Ok(tasks)
}

/// Whether `chrono` reads every due date of the collection back from the
/// text that it prints for it.
pub open spec fn dates_read_back(tasks: Seq<TaskView>) -> bool {
    forall|i: int|
        0 <= i < tasks.len() ==> ((#[trigger] tasks[i]).due_date matches Some(date) ==> parsed_date(
            printed_date(date),
        ) == Some(date))
}

/// Whether every id of the collection is an unsigned 32-bit number, as the
/// id of every task is.
pub open spec fn ids_in_range(tasks: Seq<TaskView>) -> bool {
    forall|i: int| 0 <= i < tasks.len() ==> 0 <= (#[trigger] tasks[i]).id <= u32::MAX
}

/// The record of a task stands for that task.
pub proof fn lemma_record_reads_back(index: usize, task: TaskView)
    requires
        0 <= task.id <= u32::MAX,
        task.due_date matches Some(date) ==> parsed_date(printed_date(date)) == Some(date),
    ensures
        task_of_node(index, Node::Table(record_of_task(task))) == Ok::<TaskView, ParseFailure>(task),
        plain(Node::Table(record_of_task(task))),
{
    reveal_strlit("id");
    reveal_strlit("description");
    reveal_strlit("due_date");
    reveal_strlit("completed");
    let record = record_of_task(task);
    assert(KEY_ID@ != KEY_DESCRIPTION@) by {
        assert(KEY_ID@.len() != KEY_DESCRIPTION@.len());
    }
    assert(KEY_ID@ != KEY_DUE_DATE@) by {
        assert(KEY_ID@.len() != KEY_DUE_DATE@.len());
    }
    assert(KEY_ID@ != KEY_COMPLETED@) by {
        assert(KEY_ID@.len() != KEY_COMPLETED@.len());
    }
    assert(KEY_DESCRIPTION@ != KEY_DUE_DATE@) by {
        assert(KEY_DESCRIPTION@.len() != KEY_DUE_DATE@.len());
    }
    assert(KEY_DESCRIPTION@ != KEY_COMPLETED@) by {
        assert(KEY_DESCRIPTION@.len() != KEY_COMPLETED@.len());
    }
    assert(KEY_DUE_DATE@ != KEY_COMPLETED@) by {
        assert(KEY_DUE_DATE@.len() != KEY_COMPLETED@.len());
    }
    assert(integer_field(record, KEY_ID@) == Field::Present(task.id as i64));
    assert(text_field(record, KEY_DESCRIPTION@) == Field::Present(task.description));
    assert(flag_field(record, KEY_COMPLETED@) == Field::Present(task.completed));
    assert(plain(Node::Table(record))) by {
        reveal_with_fuel(plain, 2);
    }
}

/// Round trip of documents: the document of a collection stands for that
/// collection, in order and with every id, description, due date and
/// completion flag, provided that `chrono` reads each due date back from
/// what it prints. The document holds no float and no date-time.
pub proof fn lemma_document_reads_back(tasks: Seq<TaskView>)
    requires
        ids_in_range(tasks),
        dates_read_back(tasks),
        tasks.len() <= usize::MAX,
    ensures
        tasks_of_document(document_of(tasks)) == Ok::<Seq<TaskView>, ParseFailure>(tasks),
        plain_entries(document_of(tasks)),
{
    let nodes = records_of(tasks);
    lemma_records_read_back(tasks, tasks.len());
    assert(tasks.take(tasks.len() as int) =~= tasks);
    assert(plain_entries(document_of(tasks))) by {
        assert forall|i: int| 0 <= i < nodes.len() implies plain(#[trigger] nodes[i]) by {
            lemma_record_reads_back(i as usize, tasks[i]);
        }
        reveal_with_fuel(plain, 3);
    }
}

/// The first `count` records of a collection stand for its first `count`
/// tasks.
proof fn lemma_records_read_back(tasks: Seq<TaskView>, count: nat)
    requires
        ids_in_range(tasks),
        dates_read_back(tasks),
        count <= tasks.len() <= usize::MAX,
    ensures
        tasks_of_nodes(records_of(tasks), count) == Ok::<Seq<TaskView>, ParseFailure>(
            tasks.take(count as int),
        ),
    decreases count,
{
    if count == 0 {
        assert(tasks.take(0) =~= Seq::<TaskView>::empty());
    } else {
        lemma_records_read_back(tasks, (count - 1) as nat);
        lemma_record_reads_back((count - 1) as usize, tasks[count - 1]);
        assert(tasks.take(count as int) =~= tasks.take(count - 1).push(tasks[count - 1]));
    }
}

/// The record of a task, as a table: see [`record_of_task`]. The due date
/// is printed by `chrono`, which reads it back from what it prints.
pub fn encode_task(task: &Task) -> (record: toml::Table)
    ensures
        table_entries(record) == record_of_task(task@),
        task@.due_date matches Some(date) ==> parsed_date(printed_date(date)) == Some(date),
{
    let mut record = empty_table();
    let id: i64 = task.id as i64;
    record.insert(String::from_str(KEY_ID), integer_value(id));
    record.insert(String::from_str(KEY_DESCRIPTION), text_value(task.description.clone()));
    record.insert(String::from_str(KEY_COMPLETED), boolean_value(task.completed));
    match &task.due_date {
        Some(date) => {
            record.insert(String::from_str(KEY_DUE_DATE), text_value(print_date(date)));
        },
        None => {},
    }
    record
}

/// The document of a collection, as a table: see [`document_of`]. What it
/// holds stands for the same collection again.
pub fn encode_tasks(tasks: &[Task]) -> (document: toml::Table)
    ensures
        table_entries(document) == document_of(views_of(tasks@)),
        plain_entries(table_entries(document)),
        tasks_of_document(table_entries(document)) == Ok::<Seq<TaskView>, ParseFailure>(
            views_of(tasks@),
        ),
{
    let mut records: Vec<toml::Value> = Vec::new();
    let mut i: usize = 0;
    while i < tasks.len()
        invariant
            0 <= i <= tasks.len(),
            nodes_of(records@) == records_of(views_of(tasks@).take(i as int)),
            dates_read_back(views_of(tasks@).take(i as int)),
        decreases tasks.len() - i,
    {
        let record = table_value(encode_task(&tasks[i]));
        proof {
            let before = views_of(tasks@).take(i as int);
            let after = views_of(tasks@).take(i + 1);
            assert(after =~= before.push(tasks@[i as int]@));
            assert(nodes_of(records@.push(record)) =~= nodes_of(records@).push(value_node(record)));
            assert(records_of(after) =~= records_of(before).push(
                Node::Table(record_of_task(tasks@[i as int]@)),
            ));
            assert forall|j: int| 0 <= j < after.len() implies ((#[trigger] after[j]).due_date matches Some(
                date,
            ) ==> parsed_date(printed_date(date)) == Some(date)) by {
                if j < i {
                    assert(after[j] == before[j]);
                }
            }
        }
        records.push(record);
        i += 1;
    }
    let mut document = empty_table();
    document.insert(String::from_str(KEY_TASKS), array_value(records));
    proof {
        let views = views_of(tasks@);
        assert(views.take(i as int) =~= views);
        assert forall|j: int| 0 <= j < views.len() implies 0 <= (#[trigger] views[j]).id
            <= u32::MAX by {
            assert(views[j] == tasks@[j]@);
        }
        lemma_document_reads_back(views);
    }
    document
}

} // verus!
