use task_tracker::StoreError;
use task_tracker::coordinator::Coordinator;
use task_tracker::db::TaskRow;
use task_tracker::order::OrderMode;
use task_tracker::order::parse_sort_code;
use task_tracker::store::TaskStore;
use task_tracker::text::trim;

fn fresh() -> Coordinator {
    let store = TaskStore::initialize(":memory:").unwrap();
    Coordinator::new(store)
}

#[test]
fn empty_store_is_seeded() {
    let c = fresh();
    assert_eq!(c.list.rows.len(), 1);
    assert_eq!(c.list.rows[0].title, "Sample Task");
    assert!(!c.list.rows[0].current);
    let t = c.store.get_task_detail(c.list.rows[0].id).unwrap();
    assert_eq!(t.title, "Sample Task");
    assert_eq!(t.tracker, "");
    assert_eq!(t.branch, "");
    assert_eq!(t.review, "");
    assert_eq!(t.commit_template, "");
    assert_eq!(t.notes, "");
    assert!(!t.current);
}

#[test]
fn initialize_is_idempotent_on_memory_stores() {
    let s1 = TaskStore::initialize(":memory:").unwrap();
    assert_eq!(s1.tasks.len(), 1);
    let s2 = TaskStore::initialize(":memory:").unwrap();
    assert_eq!(s2.tasks.len(), 1);
}

#[test]
fn add_blank_titles_change_nothing() {
    let mut c = fresh();
    let before: Vec<i64> = c.list.rows.iter().map(|r| r.id).collect();
    c.add_task("").unwrap();
    c.add_task("   ").unwrap();
    c.add_task(" \t \n ").unwrap();
    let after: Vec<i64> = c.list.rows.iter().map(|r| r.id).collect();
    assert_eq!(before, after);
    assert_eq!(c.store.tasks.len(), 1);
}

#[test]
fn add_task_trims_title() {
    let mut c = fresh();
    c.add_task("  Fix bug  ").unwrap();
    let i = c.selected.unwrap();
    assert_eq!(c.list.rows[i].title, "Fix bug");
}

#[test]
fn trim_handles_edges() {
    assert_eq!(trim(""), "");
    assert_eq!(trim("   "), "");
    assert_eq!(trim("a"), "a");
    assert_eq!(trim("  a"), "a");
    assert_eq!(trim("a  "), "a");
    assert_eq!(trim("\t a b \n"), "a b");
}

#[test]
fn title_sort_is_case_insensitive() {
    let mut c = fresh();
    c.add_task("banana").unwrap();
    c.add_task("Apple").unwrap();
    c.add_task("BANANA").unwrap();
    c.add_task("apple").unwrap();
    let ts = c.store.list_tasks(OrderMode::ByTitle);
    let titles: Vec<&str> = ts.iter().map(|t| t.title.as_str()).collect();
    assert_eq!(titles, vec!["Apple", "apple", "banana", "BANANA", "Sample Task"]);
}

#[test]
fn created_sort_is_non_increasing() {
    let mut c = fresh();
    c.add_task("one").unwrap();
    c.add_task("two").unwrap();
    c.add_task("three").unwrap();
    let ts = c.store.list_tasks(OrderMode::ByCreatedDesc);
    assert_eq!(ts.len(), 4);
    for w in ts.windows(2) {
        assert!(w[0].created >= w[1].created);
    }
}

#[test]
fn sort_setting_parsing() {
    assert_eq!(parse_sort_code(&None), OrderMode::ByTitle);
    assert_eq!(parse_sort_code(&Some("0".to_string())), OrderMode::ByTitle);
    assert_eq!(parse_sort_code(&Some("1".to_string())), OrderMode::ByCreatedDesc);
    assert_eq!(parse_sort_code(&Some("7".to_string())), OrderMode::ByTitle);
    assert_eq!(parse_sort_code(&Some("".to_string())), OrderMode::ByTitle);
}

#[test]
fn save_sort_order_is_adopted() {
    let mut store = TaskStore::initialize(":memory:").unwrap();
    assert_eq!(store.get_sort_order(), OrderMode::ByTitle);
    store.save_sort_order(OrderMode::ByCreatedDesc).unwrap();
    assert_eq!(store.get_sort_order(), OrderMode::ByCreatedDesc);
}

#[test]
fn get_task_detail_not_found() {
    let store = TaskStore::initialize(":memory:").unwrap();
    match store.get_task_detail(9999) {
        Err(StoreError::NotFound) => {},
        other => panic!("expected NotFound, got {:?}", other.map(|t| t.title)),
    }
}

#[test]
fn initialize_io_error_on_bad_path() {
    match TaskStore::initialize("/no_such_directory_here/tasks.db") {
        Err(StoreError::Io) => {},
        Err(e) => panic!("expected Io, got {:?}", e),
        Ok(_) => panic!("expected an error"),
    }
}

fn raw_row(id: i64, title: &str, current: i64) -> TaskRow {
    TaskRow {
        id,
        title: title.to_string(),
        created: 0,
        tracker: String::new(),
        branch: String::new(),
        review: String::new(),
        commit_template: String::new(),
        notes: String::new(),
        current,
    }
}

#[test]
fn duplicate_ids_on_disk_are_a_constraint_error() {
    let conn = rusqlite::Connection::open_in_memory().unwrap();
    let rows = vec![raw_row(1, "a", 0), raw_row(1, "b", 0)];
    match TaskStore::from_parts(conn, rows, OrderMode::ByTitle, 0) {
        Err(StoreError::Constraint) => {},
        _ => panic!("expected Constraint"),
    }
}

#[test]
fn two_current_flags_on_disk_are_a_constraint_error() {
    let conn = rusqlite::Connection::open_in_memory().unwrap();
    let rows = vec![raw_row(1, "a", 1), raw_row(2, "b", 1)];
    match TaskStore::from_parts(conn, rows, OrderMode::ByTitle, 0) {
        Err(StoreError::Constraint) => {},
        _ => panic!("expected Constraint"),
    }
}

#[test]
fn loaded_rows_are_kept_as_they_are() {
    let conn = rusqlite::Connection::open_in_memory().unwrap();
    let rows = vec![raw_row(3, "a", 0), raw_row(7, "b", 1)];
    let store = TaskStore::from_parts(conn, rows, OrderMode::ByTitle, 0).unwrap();
    assert_eq!(store.tasks.len(), 2);
    assert!(!store.tasks[0].current);
    assert!(store.tasks[1].current);
    assert_eq!(store.tasks[1].id, 7);
}
