//! A small task-tracker core: an in-memory task set mirrored to an embedded
//! SQLite store, a sortable list projection for a UI, and the selection /
//! detail-loading state machine (debounced indicator, token-based discard of
//! stale fetch results).

pub mod coordinator;
pub mod db;
pub mod model;
pub mod order;
pub mod pane;
pub mod selection;
pub mod store;
pub mod task;
pub mod text;
pub mod time;

use vstd::prelude::*;

verus! {

/// Errors signalled by store-backed operations.
#[derive(Clone, Copy, Debug, PartialEq, Eq, Structural)]
pub enum StoreError {
    /// No task with the requested id exists.
    NotFound,
    /// The store holds or would hold data that breaks the library's
    /// invariants (duplicate ids, an exhausted id range).
    Constraint,
    /// The underlying store rejected an operation (I/O failure).
    Io,
}

} // verus!
