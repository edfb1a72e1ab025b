//! The wall clock and time-pattern formatting, through chrono.

use vstd::prelude::*;

verus! {

/// Whether chrono accepts a string as a strftime pattern.  This depends
/// on the pattern's characters alone.
pub uninterp spec fn strftime_ok(pattern: Seq<char>) -> bool;

/// Relies on chrono's `Utc::now` and `timestamp_millis`: the wall clock,
/// as milliseconds since the epoch.  Nothing is promised of the value.
#[verifier::external_body]
pub(crate) fn now_millis() -> i64 {
    chrono::Utc::now().timestamp_millis()
}

/// Relies on chrono's `StrftimeItems` and `format_with_items`: renders the
/// current time against a strftime pattern.  `None` exactly when chrono
/// rejects the pattern; the rendered text itself depends on the clock.
#[verifier::external_body]
pub(crate) fn format_now(pattern: &str) -> (r: Option<String>)
    ensures
        r is Some == strftime_ok(pattern@),
{
    let items: Vec<chrono::format::Item> = chrono::format::StrftimeItems::new(pattern).collect();
    if items.contains(&chrono::format::Item::Error) {
        return None;
    }
    Some(chrono::Utc::now().format_with_items(items.into_iter()).to_string())
}

} // verus!
