use chrono::NaiveDate;
use task_manager_command_line::codec::{
    decode_tasks, encode_task, encode_tasks, read_flag, read_integer, read_text, task_from_fields,
    Field,
};
use task_manager_command_line::{
    get_tasks_file_path, load_tasks, save_tasks, AppError, FieldName, ParseFailure, Task,
};

fn sample() -> Vec<Task> {
    vec![
        Task { id: 1, description: "Buy milk".to_string(), due_date: None, completed: false },
        Task {
            id: 3,
            description: "File \"taxes\"".to_string(),
            due_date: NaiveDate::from_ymd_opt(2025, 4, 15),
            completed: true,
        },
    ]
}

fn parse_failure(text: &str) -> ParseFailure {
    match load_tasks(Some(text)) {
        Err(AppError::TomlDeserialize(failure)) => failure,
        other => panic!("expected a parse failure, got {:?}", other),
    }
}

#[test]
fn tasks_file_is_in_the_working_directory() {
    assert_eq!(get_tasks_file_path(), "tasks.toml");
}

#[test]
fn missing_file_loads_as_empty_collection() {
    assert_eq!(load_tasks(None), Ok(vec![]));
}

#[test]
fn malformed_date_is_a_parse_error() {
    let text = "[[tasks]]\nid = 1\ndescription = \"Buy milk\"\ndue_date = \"2024-13-45\"\ncompleted = false\n";
    assert_eq!(
        load_tasks(Some(text)),
        Err(AppError::TomlDeserialize(ParseFailure::InvalidField(0, FieldName::DueDate)))
    );
    let text = "[[tasks]]\nid = 1\ndescription = \"Buy milk\"\ndue_date = \"tomorrow\"\ncompleted = false\n";
    assert_eq!(parse_failure(text), ParseFailure::InvalidField(0, FieldName::DueDate));
}

#[test]
fn load_reads_records_in_order() {
    let text = "[[tasks]]\nid = 1\ndescription = \"Buy milk\"\ncompleted = false\n\n\
                [[tasks]]\nid = 3\ndescription = \"File \\\"taxes\\\"\"\ndue_date = \"2025-04-15\"\ncompleted = true\n";
    assert_eq!(load_tasks(Some(text)), Ok(sample()));
}

#[test]
fn load_takes_fields_in_any_order_and_passes_over_others() {
    let text = "title = \"mine\"\n[[tasks]]\ncompleted = true\nnote = 5\ndescription = \"x\"\nid = 2\n";
    assert_eq!(
        load_tasks(Some(text)),
        Ok(vec![Task { id: 2, description: "x".to_string(), due_date: None, completed: true }])
    );
}

#[test]
fn load_of_empty_array_is_empty_collection() {
    assert_eq!(load_tasks(Some("tasks = []\n")), Ok(vec![]));
}

#[test]
fn text_that_is_not_toml_is_a_syntax_failure() {
    assert!(matches!(parse_failure("tasks = [\n"), ParseFailure::Syntax(_)));
    assert!(matches!(parse_failure("not toml at all"), ParseFailure::Syntax(_)));
}

#[test]
fn document_without_tasks_is_refused() {
    assert_eq!(parse_failure(""), ParseFailure::MissingTasks);
    assert_eq!(parse_failure("other = 1\n"), ParseFailure::MissingTasks);
}

#[test]
fn tasks_that_is_no_array_is_refused() {
    assert_eq!(parse_failure("tasks = 3\n"), ParseFailure::TasksNotArray);
    assert_eq!(parse_failure("[tasks]\nid = 1\n"), ParseFailure::TasksNotArray);
}

#[test]
fn element_that_is_no_table_is_refused() {
    assert_eq!(parse_failure("tasks = [1, 2]\n"), ParseFailure::NotARecord(0));
    let text = "tasks = [{ id = 1, description = \"a\", completed = false }, \"b\"]\n";
    assert_eq!(parse_failure(text), ParseFailure::NotARecord(1));
}

#[test]
fn missing_fields_are_refused_by_name() {
    assert_eq!(
        parse_failure("[[tasks]]\ndescription = \"a\"\ncompleted = false\n"),
        ParseFailure::MissingField(0, FieldName::Id)
    );
    assert_eq!(
        parse_failure("[[tasks]]\nid = 1\ncompleted = false\n"),
        ParseFailure::MissingField(0, FieldName::Description)
    );
    assert_eq!(
        parse_failure("[[tasks]]\nid = 1\ndescription = \"a\"\n"),
        ParseFailure::MissingField(0, FieldName::Completed)
    );
}

#[test]
fn fields_of_the_wrong_kind_are_refused_by_name() {
    assert_eq!(
        parse_failure("[[tasks]]\nid = \"1\"\ndescription = \"a\"\ncompleted = false\n"),
        ParseFailure::InvalidField(0, FieldName::Id)
    );
    assert_eq!(
        parse_failure("[[tasks]]\nid = 1\ndescription = 7\ncompleted = false\n"),
        ParseFailure::InvalidField(0, FieldName::Description)
    );
    assert_eq!(
        parse_failure("[[tasks]]\nid = 1\ndescription = \"a\"\ndue_date = 2024-01-01\ncompleted = false\n"),
        ParseFailure::InvalidField(0, FieldName::DueDate)
    );
    assert_eq!(
        parse_failure("[[tasks]]\nid = 1\ndescription = \"a\"\ncompleted = \"no\"\n"),
        ParseFailure::InvalidField(0, FieldName::Completed)
    );
    assert_eq!(
        parse_failure("[[tasks]]\nid = 1.5\ndescription = \"a\"\ncompleted = false\n"),
        ParseFailure::InvalidField(0, FieldName::Id)
    );
}

#[test]
fn id_out_of_range_is_refused() {
    assert_eq!(
        parse_failure("[[tasks]]\nid = -1\ndescription = \"a\"\ncompleted = false\n"),
        ParseFailure::InvalidField(0, FieldName::Id)
    );
    assert_eq!(
        parse_failure("[[tasks]]\nid = 4294967296\ndescription = \"a\"\ncompleted = false\n"),
        ParseFailure::InvalidField(0, FieldName::Id)
    );
    assert_eq!(
        load_tasks(Some("[[tasks]]\nid = 4294967295\ndescription = \"a\"\ncompleted = false\n")),
        Ok(vec![Task { id: 4294967295, description: "a".to_string(), due_date: None, completed: false }])
    );
}

#[test]
fn first_failing_record_and_field_are_reported() {
    let text = "[[tasks]]\nid = 1\ndescription = \"a\"\ncompleted = false\n\n\
                [[tasks]]\ndescription = 4\n\n\
                [[tasks]]\nid = \"x\"\n";
    assert_eq!(parse_failure(text), ParseFailure::MissingField(1, FieldName::Id));
}

#[test]
fn save_prints_one_table_for_each_task() {
    let text = save_tasks(&sample()).unwrap();
    assert_eq!(
        text,
        "[[tasks]]\ncompleted = false\ndescription = \"Buy milk\"\nid = 1\n\n\
         [[tasks]]\ncompleted = true\ndescription = 'File \"taxes\"'\ndue_date = \"2025-04-15\"\nid = 3\n"
    );
}

#[test]
fn save_omits_absent_due_date() {
    let text = save_tasks(&sample()[..1]).unwrap();
    assert!(!text.contains("due_date"));
    assert!(text.contains("id = 1"));
}

#[test]
fn save_of_empty_collection_loads_as_empty() {
    let text = save_tasks(&[]).unwrap();
    assert_eq!(text, "tasks = []\n");
    assert_eq!(load_tasks(Some(&text)), Ok(vec![]));
}

#[test]
fn save_then_load_gives_the_collection_back() {
    let mut tasks = sample();
    tasks.push(Task {
        id: 2,
        description: "line one\nline two \u{e9} = [x]".to_string(),
        due_date: NaiveDate::from_ymd_opt(1999, 12, 31),
        completed: false,
    });
    tasks.push(Task { id: 4294967295, description: String::new(), due_date: None, completed: true });
    let text = save_tasks(&tasks).unwrap();
    assert_eq!(load_tasks(Some(&text)), Ok(tasks));
}

#[test]
fn dates_outside_four_digit_years_are_read_back() {
    let tasks = vec![
        Task { id: 1, description: "far".to_string(), due_date: NaiveDate::from_ymd_opt(12345, 6, 7), completed: false },
        Task { id: 2, description: "past".to_string(), due_date: NaiveDate::from_ymd_opt(-44, 3, 15), completed: false },
    ];
    let text = save_tasks(&tasks).unwrap();
    assert_eq!(load_tasks(Some(&text)), Ok(tasks));
}

#[test]
fn encoded_document_decodes_to_the_same_tasks() {
    let tasks = sample();
    let document = encode_tasks(&tasks);
    assert_eq!(document.len(), 1);
    assert_eq!(document["tasks"].as_array().unwrap().len(), 2);
    assert_eq!(decode_tasks(&document), Ok(tasks));
}

#[test]
fn encoded_record_holds_the_fields_of_the_task() {
    let tasks = sample();
    let record = encode_task(&tasks[1]);
    assert_eq!(record.len(), 4);
    assert_eq!(record["id"], toml::Value::Integer(3));
    assert_eq!(record["description"], toml::Value::String("File \"taxes\"".to_string()));
    assert_eq!(record["due_date"], toml::Value::String("2025-04-15".to_string()));
    assert_eq!(record["completed"], toml::Value::Boolean(true));
    let record = encode_task(&tasks[0]);
    assert_eq!(record.len(), 3);
    assert!(!record.contains_key("due_date"));
}

#[test]
fn fields_are_read_by_kind() {
    let record: toml::Table = "n = 5\ns = \"five\"\nb = true\n".parse().unwrap();
    assert_eq!(read_integer(&record, "n"), Field::Present(5));
    assert_eq!(read_integer(&record, "s"), Field::Mistyped);
    assert_eq!(read_integer(&record, "x"), Field::Absent);
    assert_eq!(read_text(&record, "s"), Field::Present("five"));
    assert_eq!(read_text(&record, "b"), Field::Mistyped);
    assert_eq!(read_text(&record, "x"), Field::Absent);
    assert_eq!(read_flag(&record, "b"), Field::Present(true));
    assert_eq!(read_flag(&record, "n"), Field::Mistyped);
    assert_eq!(read_flag(&record, "x"), Field::Absent);
}

#[test]
fn task_is_built_from_fields() {
    assert_eq!(
        task_from_fields(
            0,
            Field::Present(12),
            Field::Present("Pay rent"),
            Field::Present("2024-07-01"),
            Field::Present(false)
        ),
        Ok(Task {
            id: 12,
            description: "Pay rent".to_string(),
            due_date: NaiveDate::from_ymd_opt(2024, 7, 1),
            completed: false
        })
    );
    assert_eq!(
        task_from_fields(4, Field::Present(12), Field::Present("a"), Field::Absent, Field::Absent),
        Err(ParseFailure::MissingField(4, FieldName::Completed))
    );
    assert_eq!(
        task_from_fields(4, Field::Mistyped, Field::Absent, Field::Mistyped, Field::Absent),
        Err(ParseFailure::InvalidField(4, FieldName::Id))
    );
    assert_eq!(
        task_from_fields(2, Field::Present(1), Field::Present("a"), Field::Present("soon"), Field::Present(true)),
        Err(ParseFailure::InvalidField(2, FieldName::DueDate))
    );
}
