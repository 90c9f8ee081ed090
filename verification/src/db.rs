//! The persistence boundary: trusted wrappers around the embedded SQLite
//! store. The in-memory task set owned by [`crate::store::TaskStore`] is the
//! authoritative interactive state; these wrappers only write it through to
//! disk and read it back at startup, so none of them promises anything about
//! what the disk holds.

use vstd::prelude::*;

use crate::StoreError;
use crate::task::DetailFields;

verus! {

/// rusqlite's connection type, declared opaquely so the store can hold its
/// write-through handle.
#[verifier::external_type_specification]
#[verifier::external_body]
pub struct ExConnection(rusqlite::Connection);

/// A row of the task relation exactly as the store returned it, before any
/// validation; `current` is the raw stored integer flag.
pub struct TaskRow {
    pub id: i64,
    pub title: String,
    pub created: i64,
    pub tracker: String,
    pub branch: String,
    pub review: String,
    pub commit_template: String,
    pub notes: String,
    pub current: i64,
}

/// Relies on rusqlite's `Connection::open` and `Connection::execute_batch`:
/// opens (or creates) the database at `path` and creates the task, settings
/// and work-log relations if they are absent.
#[verifier::external_body]
pub(crate) fn open_connection(path: &str) -> Result<rusqlite::Connection, StoreError> {
    let conn = rusqlite::Connection::open(path).map_err(|_| StoreError::Io)?;
    conn.execute_batch(
        "CREATE TABLE IF NOT EXISTS tasks (id INTEGER PRIMARY KEY, title TEXT, created INTEGER, tracker_url TEXT, branch TEXT, review_url TEXT, commit_template TEXT, notes TEXT, current INTEGER); CREATE TABLE IF NOT EXISTS settings (key TEXT PRIMARY KEY, value TEXT NOT NULL); CREATE TABLE IF NOT EXISTS work_log (id INTEGER PRIMARY KEY AUTOINCREMENT, task_id INTEGER, start_time INTEGER)",
    ).map_err(|_| StoreError::Io)?;
    Ok(conn)
}

/// Relies on rusqlite's `Statement::query_map`: every row of the task
/// relation, in whatever order the store walks them.
#[verifier::external_body]
pub(crate) fn fetch_task_rows(conn: &rusqlite::Connection) -> Result<Vec<TaskRow>, StoreError> {
    let mut stmt = conn.prepare(
        "SELECT id,title,created,tracker_url,branch,review_url,commit_template,notes,current FROM tasks",
    ).map_err(|_| StoreError::Io)?;
    let rows = stmt.query_map([], |w| {
        Ok(TaskRow {
            id: w.get(0)?, title: w.get(1)?, created: w.get(2)?, tracker: w.get(3)?,
            branch: w.get(4)?, review: w.get(5)?, commit_template: w.get(6)?,
            notes: w.get(7)?, current: w.get(8)?,
        })
    }).map_err(|_| StoreError::Io)?;
    let mut out = Vec::new();
    for w in rows {
        out.push(w.map_err(|_| StoreError::Io)?);
    }
    Ok(out)
}

/// Relies on rusqlite's `Connection::query_row`: the stored sort-order
/// setting, or `None` when it is absent or unreadable.
#[verifier::external_body]
pub(crate) fn read_sort_setting(conn: &rusqlite::Connection) -> Option<String> {
    conn.query_row("SELECT value FROM settings WHERE key='sort_order'", [], |w| {
        w.get::<_, String>(0)
    }).ok()
}

/// Relies on rusqlite's `Connection::execute`: upserts the sort-order
/// setting.
#[verifier::external_body]
pub(crate) fn write_sort_setting(conn: &rusqlite::Connection, code: &str) -> Result<
    (),
    StoreError,
> {
    conn.execute(
        "INSERT INTO settings(key,value) VALUES('sort_order', ?1) ON CONFLICT(key) DO UPDATE SET value=excluded.value",
        (code,),
    ).map(|_| ()).map_err(|_| StoreError::Io)
}

/// Relies on rusqlite's `Connection::execute`: inserts one task row with the
/// given id, title and creation instant, blank optional fields, and the
/// current flag clear.
#[verifier::external_body]
pub(crate) fn insert_task_row(
    conn: &rusqlite::Connection,
    id: i64,
    title: &str,
    created: i64,
) -> Result<(), StoreError> {
    conn.execute(
        "INSERT INTO tasks (id,title,created,tracker_url,branch,review_url,commit_template,notes,current) VALUES (?1,?2,?3,'','','','','',0)",
        (id, title, created),
    ).map(|_| ()).map_err(|_| StoreError::Io)
}

/// Relies on rusqlite's `Connection::execute`: overwrites exactly the six
/// editable fields of the row with the given id.
#[verifier::external_body]
pub(crate) fn update_task_row(
    conn: &rusqlite::Connection,
    id: i64,
    f: &DetailFields,
) -> Result<(), StoreError> {
    conn.execute(
        "UPDATE tasks SET title=?1, tracker_url=?2, branch=?3, review_url=?4, commit_template=?5, notes=?6 WHERE id=?7",
        (&f.title, &f.tracker, &f.branch, &f.review, &f.commit_template, &f.notes, id),
    ).map(|_| ()).map_err(|_| StoreError::Io)
}

/// Relies on rusqlite's `Connection::transaction`: in one transaction,
/// clears the current flag everywhere, sets it on the given id, and appends
/// one work-log row with the given instant.
#[verifier::external_body]
pub(crate) fn set_current_row(
    conn: &mut rusqlite::Connection,
    id: i64,
    now: i64,
) -> Result<(), StoreError> {
    let tx = conn.transaction().map_err(|_| StoreError::Io)?;
    tx.execute("UPDATE tasks SET current=0", []).map_err(|_| StoreError::Io)?;
    tx.execute("UPDATE tasks SET current=1 WHERE id=?1", (id,)).map_err(|_| StoreError::Io)?;
    tx.execute("INSERT INTO work_log(task_id,start_time) VALUES(?1,?2)", (id, now)).map_err(
        |_| StoreError::Io,
    )?;
    tx.commit().map_err(|_| StoreError::Io)
}

} // verus!
