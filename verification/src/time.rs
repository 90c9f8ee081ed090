//! Trusted clock and timestamp rendering, through chrono.

use vstd::prelude::*;

verus! {

/// Relies on chrono's `Local::now`: the current instant as milliseconds
/// since the Unix epoch. The value depends on the clock, so nothing is
/// promised of it.
#[verifier::external_body]
pub(crate) fn now_millis() -> i64 {
    chrono::Local::now().timestamp_millis()
}

/// Relies on chrono's `DateTime` formatting: renders an epoch-milliseconds
/// instant as `YYYY-MM-DD HH:MM` in the machine's local time zone (or empty
/// when the instant is out of chrono's range). The result depends on that
/// zone, so nothing is promised of it.
#[verifier::external_body]
pub(crate) fn format_timestamp(millis: i64) -> String {
    match chrono::DateTime::from_timestamp_millis(millis) {
        Some(dt) => dt.with_timezone(&chrono::Local).format("%Y-%m-%d %H:%M").to_string(),
        None => String::new(),
    }
}

} // verus!
