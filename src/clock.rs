//! Wall-clock time, from the `chrono` crate.
use vstd::prelude::*;

verus! {

/// The text of the UTC instant `ms` milliseconds after the epoch, as
/// `YYYY-MM-DD HH:MM:SS.mmm`.
pub uninterp spec fn utc_stamp(ms: int) -> Seq<char>;

/// Relies on chrono::Utc::now and DateTime::timestamp_millis: the current
/// time, in milliseconds since the epoch.
#[verifier::external_body]
pub(crate) fn now_millis() -> (r: i64) {
    chrono::Utc::now().timestamp_millis()
}

/// Relies on chrono::DateTime::from_timestamp_millis and DateTime::format:
/// `None` where the instant is out of chrono's range, else its text.
#[verifier::external_body]
pub(crate) fn format_stamp(ms: i64) -> (r: Option<String>)
    ensures
        r matches Some(s) ==> s@ == utc_stamp(ms as int),
{
    match chrono::DateTime::from_timestamp_millis(ms) {
        Some(d) => Some(d.format("%Y-%m-%d %H:%M:%S%.3f").to_string()),
        None => None,
    }
}

} // verus!
