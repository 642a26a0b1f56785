use cc_todos::refresh::{App, KeyInput, TickAction};
use cc_todos::resolve::{ResolveError, ResolvedSession};
use cc_todos::todo::{DecodeError, Todo, TodoStatus};
use cc_todos::watcher::{signals_change, ChangeKind, ChangeSlot, WatchEvent};

fn resolved(path: &str) -> Result<ResolvedSession, ResolveError> {
    Ok(ResolvedSession { session_id: Some("s".to_string()), path: path.to_string() })
}

fn one_task() -> Vec<u8> {
    br#"[{"content": "a", "status": "pending", "activeForm": "b"}]"#.to_vec()
}

#[test]
fn initial_state_tolerates_failures() {
    let app = App::new(Some("/w".to_string()), Err(ResolveError::NoDataFile), None);
    assert_eq!(app.todos.len(), 0);
    assert_eq!(app.file_path, "");
    assert_eq!(app.session_id, None);
    assert!(!app.should_quit);
    let app = App::new(None, resolved("/d/x.json"), Some(b"garbage".to_vec()));
    assert_eq!(app.todos.len(), 0);
    assert_eq!(app.file_path, "/d/x.json");
    let app = App::new(None, resolved("/d/x.json"), Some(one_task()));
    assert_eq!(app.todos.len(), 1);
}

#[test]
fn failed_reload_keeps_state() {
    let mut app = App::new(None, resolved("/d/x.json"), Some(one_task()));
    app.reload_todos(resolved("/d/y.json"), Some(b"[{\"content\": 1}]".to_vec()));
    assert_eq!(app.file_path, "/d/x.json");
    assert_eq!(app.todos.len(), 1);
    app.reload_todos(Err(ResolveError::NoDataFile), Some(b"[]".to_vec()));
    assert_eq!(app.todos.len(), 1);
    app.reload_todos(resolved("/d/y.json"), None);
    assert_eq!(app.file_path, "/d/x.json");
    app.apply_reload(resolved("/d/z.json"), Err(DecodeError::MissingField));
    assert_eq!(app.file_path, "/d/x.json");
    let t = Todo { content: "c".to_string(), status: TodoStatus::Completed, active_form: "C".to_string() };
    app.apply_reload(resolved("/d/z.json"), Ok(vec![t.clone(), t]));
    assert_eq!(app.file_path, "/d/z.json");
    assert_eq!(app.todos.len(), 2);
}

#[test]
fn tick_decisions() {
    let mut app = App::new(None, Err(ResolveError::NoDataFile), None);
    assert_eq!(app.begin_tick(false), TickAction::Render);
    assert_eq!(app.begin_tick(true), TickAction::Reload);
    assert!(app.handle_input(Some(KeyInput::Reload)));
    assert!(!app.handle_input(Some(KeyInput::Other)));
    assert!(!app.handle_input(None));
    assert!(!app.should_quit);
}

#[test]
fn quit_key_ends_loop_in_same_tick() {
    let mut app = App::new(None, resolved("/d/x.json"), Some(one_task()));
    assert!(!app.handle_input(Some(KeyInput::Quit)));
    assert!(app.should_quit);
    assert_eq!(app.begin_tick(true), TickAction::Exit);
    assert_eq!(app.begin_tick(false), TickAction::Exit);
    assert!(app.handle_input(Some(KeyInput::Reload)));
    assert!(app.should_quit);
}

#[test]
fn rapid_changes_coalesce() {
    let mut slot = ChangeSlot::new();
    assert_eq!(slot.take(), None);
    for _ in 0..5 {
        slot.post();
    }
    assert_eq!(slot.take(), Some(WatchEvent::Changed));
    assert_eq!(slot.take(), None);
}

#[test]
fn only_creations_and_modifications_signal() {
    assert!(signals_change(ChangeKind::Create));
    assert!(signals_change(ChangeKind::Modify));
    assert!(!signals_change(ChangeKind::Remove));
    assert!(!signals_change(ChangeKind::Attribute));
    assert!(!signals_change(ChangeKind::Access));
    assert!(!signals_change(ChangeKind::Other));
    let mut slot = ChangeSlot::new();
    slot.notice(ChangeKind::Remove);
    assert_eq!(slot.take(), None);
    slot.notice(ChangeKind::Modify);
    slot.notice(ChangeKind::Create);
    assert_eq!(slot.take(), Some(WatchEvent::Changed));
}
