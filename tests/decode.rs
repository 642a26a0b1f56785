use cc_todos::todo::{
    count_status, file_name_of, indices_with_status, load_todos, status_from_token, todos_from_raw, DecodeError,
    RawField, RawTodo, Todo, TodoStatus,
};

fn todo(content: &str, status: TodoStatus, active_form: &str) -> Todo {
    Todo { content: content.to_string(), status, active_form: active_form.to_string() }
}

#[test]
fn decodes_tasks_in_file_order() {
    let bytes = br#"[
        {"content": "Write parser", "status": "completed", "activeForm": "Writing parser"},
        {"content": "Add tests", "status": "in_progress", "activeForm": "Adding tests"},
        {"content": "Ship", "status": "pending", "activeForm": "Shipping"}
    ]"#;
    let ts = load_todos(bytes).unwrap();
    assert_eq!(ts.len(), 3);
    assert_eq!(ts[0].content, "Write parser");
    assert_eq!(ts[0].status, TodoStatus::Completed);
    assert_eq!(ts[0].active_form, "Writing parser");
    assert_eq!(ts[1].content, "Add tests");
    assert_eq!(ts[1].status, TodoStatus::InProgress);
    assert_eq!(ts[1].active_form, "Adding tests");
    assert_eq!(ts[2].content, "Ship");
    assert_eq!(ts[2].status, TodoStatus::Pending);
}

#[test]
fn decodes_empty_list() {
    assert_eq!(load_todos(b"[]").unwrap().len(), 0);
}

#[test]
fn ignores_extra_fields() {
    let bytes = br#"[{"content": "a", "status": "pending", "activeForm": "b", "id": 7}]"#;
    let ts = load_todos(bytes).unwrap();
    assert_eq!(ts.len(), 1);
    assert_eq!(ts[0].content, "a");
}

#[test]
fn missing_field_fails_whole_list() {
    let bytes = br#"[
        {"content": "a", "status": "pending", "activeForm": "b"},
        {"content": "c", "status": "pending"}
    ]"#;
    assert_eq!(load_todos(bytes).unwrap_err(), DecodeError::MissingField);
}

#[test]
fn unknown_status_fails_whole_list() {
    let bytes = br#"[
        {"content": "a", "status": "pending", "activeForm": "b"},
        {"content": "c", "status": "done", "activeForm": "d"}
    ]"#;
    assert_eq!(load_todos(bytes).unwrap_err(), DecodeError::UnknownStatus);
}

#[test]
fn status_tokens_are_snake_case() {
    let bytes = br#"[{"content": "a", "status": "InProgress", "activeForm": "b"}]"#;
    assert_eq!(load_todos(bytes).unwrap_err(), DecodeError::UnknownStatus);
}

#[test]
fn malformed_documents_fail() {
    assert_eq!(load_todos(b"not json").unwrap_err(), DecodeError::Malformed);
    assert_eq!(load_todos(br#"{"content": "a"}"#).unwrap_err(), DecodeError::Malformed);
    assert_eq!(load_todos(b"[1, 2]").unwrap_err(), DecodeError::Malformed);
    let bytes = br#"[{"content": 5, "status": "pending", "activeForm": "b"}]"#;
    assert_eq!(load_todos(bytes).unwrap_err(), DecodeError::Malformed);
}

#[test]
fn status_tokens() {
    assert_eq!(status_from_token("pending"), Some(TodoStatus::Pending));
    assert_eq!(status_from_token("in_progress"), Some(TodoStatus::InProgress));
    assert_eq!(status_from_token("completed"), Some(TodoStatus::Completed));
    assert_eq!(status_from_token("Completed"), None);
    assert_eq!(status_from_token(""), None);
}

#[test]
fn raw_records_first_error_wins() {
    let rs = vec![
        RawTodo {
            content: RawField::Text("a".to_string()),
            status: RawField::Text("pending".to_string()),
            active_form: RawField::Text("b".to_string()),
        },
        RawTodo {
            content: RawField::Text("c".to_string()),
            status: RawField::Text("nope".to_string()),
            active_form: RawField::Absent,
        },
        RawTodo { content: RawField::Absent, status: RawField::NotText, active_form: RawField::Absent },
    ];
    assert_eq!(todos_from_raw(&rs).unwrap_err(), DecodeError::UnknownStatus);
    let ok = todos_from_raw(&rs[0..1].to_vec()).unwrap();
    assert_eq!(ok.len(), 1);
    assert_eq!(ok[0].active_form, "b");
}

#[test]
fn counts_and_groups_by_status() {
    let ts = vec![
        todo("a", TodoStatus::Completed, "A"),
        todo("b", TodoStatus::InProgress, "B"),
        todo("c", TodoStatus::Pending, "C"),
        todo("d", TodoStatus::Completed, "D"),
    ];
    assert_eq!(count_status(&ts, TodoStatus::Completed), 2);
    assert_eq!(count_status(&ts, TodoStatus::Pending), 1);
    assert_eq!(count_status(&Vec::new(), TodoStatus::Pending), 0);
    assert_eq!(indices_with_status(&ts, TodoStatus::Completed), vec![0, 3]);
    assert_eq!(indices_with_status(&ts, TodoStatus::InProgress), vec![1]);
}

#[test]
fn file_name_is_last_segment() {
    assert_eq!(file_name_of("/home/u/.agent/todos/s1.json"), "s1.json");
    assert_eq!(file_name_of("plain.json"), "plain.json");
    assert_eq!(file_name_of("/dir/"), "");
    assert_eq!(file_name_of(""), "");
}
