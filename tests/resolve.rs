use cc_todos::refresh::App;
use cc_todos::resolve::{
    find_latest_todo_file, find_session_for_cwd, find_todo_file_for_session, get_projects_dir, get_todos_dir,
    is_json_file, join_path, name_less, path_to_project_name, resolve, EntryInfo, FsSnapshot, ResolveError,
};
use cc_todos::todo::TodoStatus;

fn dir(name: &str, modified: u64) -> EntryInfo {
    EntryInfo { name: name.to_string(), is_dir: true, modified }
}

fn file(name: &str, modified: u64) -> EntryInfo {
    EntryInfo { name: name.to_string(), is_dir: false, modified }
}

#[test]
fn project_name_replaces_separators() {
    assert_eq!(path_to_project_name("/Users/towada/projects/cc-todos"), "-Users-towada-projects-cc-todos");
    assert_eq!(path_to_project_name("rel"), "rel");
}

#[test]
fn directories_below_home() {
    assert_eq!(get_todos_dir("/home/u/.agent"), "/home/u/.agent/todos");
    assert_eq!(get_projects_dir("/home/u/.agent/"), "/home/u/.agent/projects");
    assert_eq!(join_path("/a/", "b"), "/a/b");
    assert_eq!(join_path("/a", "b"), "/a/b");
}

#[test]
fn json_extension() {
    assert!(is_json_file("s.json"));
    assert!(is_json_file("a.b.json"));
    assert!(!is_json_file(".json"));
    assert!(!is_json_file("s.jsonl"));
    assert!(!is_json_file("s.txt"));
}

#[test]
fn newer_session_wins() {
    let sessions = Some(vec![dir("s-new", 200), dir("s-old", 100)]);
    assert_eq!(find_session_for_cwd(&sessions).unwrap(), "s-new");
    let sessions = Some(vec![dir("s-old", 100), dir("s-new", 200)]);
    assert_eq!(find_session_for_cwd(&sessions).unwrap(), "s-new");
}

#[test]
fn session_ignores_plain_files_and_breaks_ties_by_name() {
    let sessions = Some(vec![dir("a", 5), file("log.jsonl", 99), dir("b", 5)]);
    assert_eq!(find_session_for_cwd(&sessions).unwrap(), "b");
    let sessions = Some(vec![dir("b", 5), dir("a", 5), file("log.jsonl", 99)]);
    assert_eq!(find_session_for_cwd(&sessions).unwrap(), "b");
    let sessions = Some(vec![dir("ab", 5), dir("a", 5), dir("B", 5)]);
    assert_eq!(find_session_for_cwd(&sessions).unwrap(), "ab");
}

#[test]
fn latest_file_tie_goes_to_greatest_name() {
    let files = vec![file("y.json", 7), file("z.json", 7), file("x.json", 7)];
    assert_eq!(find_latest_todo_file(&files).unwrap(), "z.json");
}

#[test]
fn session_errors() {
    assert_eq!(find_session_for_cwd(&None).unwrap_err(), ResolveError::NoProject);
    assert_eq!(find_session_for_cwd(&Some(vec![file("x.jsonl", 1)])).unwrap_err(), ResolveError::NoSession);
}

#[test]
fn canonical_file_preferred_over_prefix() {
    let files = vec![file("abc-other.json", 9), file("abc-agent-abc.json", 1), file("zzz.json", 5)];
    assert_eq!(find_todo_file_for_session("abc", &files).unwrap(), "abc-agent-abc.json");
}

#[test]
fn prefix_match_in_listing_order() {
    let files = vec![file("zzz.json", 5), file("abc-one.json", 1), file("abc-two.json", 9)];
    assert_eq!(find_todo_file_for_session("abc", &files).unwrap(), "abc-one.json");
    assert_eq!(find_todo_file_for_session("qqq", &files).unwrap_err(), ResolveError::NoDataFile);
}

#[test]
fn latest_file_skips_other_extensions() {
    let files = vec![file("a.json", 1), file("b.txt", 50), file("c.json", 7)];
    assert_eq!(find_latest_todo_file(&files).unwrap(), "c.json");
    assert_eq!(find_latest_todo_file(&vec![file("b.txt", 1)]).unwrap_err(), ResolveError::NoDataFile);
}

#[test]
fn context_bound_resolution() {
    let snap = FsSnapshot {
        project_sessions: Some(vec![dir("s1", 10), dir("s2", 20)]),
        data_files: vec![file("s2-agent-s2.json", 1), file("other.json", 30)],
    };
    let r = resolve(&snap, "/d").unwrap();
    assert_eq!(r.session_id, Some("s2".to_string()));
    assert_eq!(r.path, "/d/s2-agent-s2.json");
}

#[test]
fn falls_back_to_latest_file() {
    let snap = FsSnapshot {
        project_sessions: None,
        data_files: vec![file("old.json", 10), file("new.json", 30), file("mid.json", 20)],
    };
    let r = resolve(&snap, "/d").unwrap();
    assert_eq!(r.session_id, None);
    assert_eq!(r.path, "/d/new.json");
    let snap = FsSnapshot {
        project_sessions: Some(vec![dir("s9", 1)]),
        data_files: vec![file("old.json", 10), file("new.json", 30)],
    };
    let r = resolve(&snap, "/d").unwrap();
    assert_eq!(r.session_id, None);
    assert_eq!(r.path, "/d/new.json");
}

#[test]
fn empty_pool_is_no_data_file() {
    let snap = FsSnapshot { project_sessions: None, data_files: vec![] };
    assert_eq!(resolve(&snap, "/d").unwrap_err(), ResolveError::NoDataFile);
}

#[test]
fn resolving_twice_gives_same_result() {
    let snap = FsSnapshot {
        project_sessions: Some(vec![dir("s1", 10)]),
        data_files: vec![file("s1-x.json", 3), file("t.json", 4)],
    };
    let a = resolve(&snap, "/d").unwrap();
    let b = resolve(&snap, "/d").unwrap();
    assert_eq!(a.session_id, b.session_id);
    assert_eq!(a.path, b.path);
}

#[test]
fn touched_file_is_shown_after_reload() {
    let session1 = br#"[
        {"content": "done", "status": "completed", "activeForm": "Doing"},
        {"content": "now", "status": "in_progress", "activeForm": "Working now"},
        {"content": "later", "status": "pending", "activeForm": "Waiting"}
    ]"#
    .to_vec();
    let session2 = b"[]".to_vec();
    let mut snap =
        FsSnapshot { project_sessions: None, data_files: vec![file("session1.json", 100), file("session2.json", 200)] };
    let first = resolve(&snap, "/data");
    assert_eq!(first.as_ref().unwrap().path, "/data/session2.json");
    let mut app = App::new(None, first, Some(session2));
    assert_eq!(app.todos.len(), 0);
    assert_eq!(app.file_path, "/data/session2.json");

    snap.data_files[0].modified = 300;
    let second = resolve(&snap, "/data");
    assert_eq!(second.as_ref().unwrap().path, "/data/session1.json");
    app.reload_todos(second, Some(session1));
    assert_eq!(app.file_path, "/data/session1.json");
    assert_eq!(app.todos.len(), 3);
    assert_eq!(app.todos[0].status, TodoStatus::Completed);
    assert_eq!(app.todos[1].status, TodoStatus::InProgress);
    assert_eq!(app.todos[2].status, TodoStatus::Pending);
}

#[test]
fn names_order_by_character() {
    assert!(name_less("a", "b"));
    assert!(name_less("a", "ab"));
    assert!(!name_less("ab", "a"));
    assert!(!name_less("a", "a"));
    assert!(name_less("B", "a"));
    assert!(name_less("", "a"));
}
