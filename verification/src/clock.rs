//! Points in time as the library sees them, and the reading of the wall clock.

use vstd::prelude::*;

verus! {

/// A point in time, in milliseconds since the Unix epoch (UTC).
#[derive(Debug, Clone, Copy, PartialEq, Eq, Structural)]
pub struct Timestamp {
    pub millis: i64,
}

impl Timestamp {
    /// The point in time `millis` milliseconds after the Unix epoch.
    pub fn from_millis(millis: i64) -> (t: Timestamp)
        ensures
            t.millis == millis,
    {
        Timestamp { millis }
    }
}

/// Reads the wall clock through `chrono::Utc::now` and keeps the whole
/// milliseconds since the Unix epoch, as `DateTime::timestamp_millis` gives
/// them. `Utc::now` fails on a clock set before the epoch, so what it returns
/// is never negative; nothing else is claimed of the value.
#[verifier::external_body]
pub(crate) fn wall_clock_now() -> (t: Timestamp)
    ensures
        t.millis >= 0,
{
    Timestamp { millis: chrono::Utc::now().timestamp_millis() }
}

/// Reads the wall clock in the machine's time zone through
/// `chrono::Local::now` and writes it with `DateTime::to_rfc3339`. The text
/// depends on the clock and on the time zone; nothing is claimed of it.
#[verifier::external_body]
pub(crate) fn local_time_text() -> (text: String) {
    chrono::Local::now().to_rfc3339()
}

/// The format of a compact time stamp: year, month, day, an underscore,
/// hour, minute, second, all digits.
pub open spec fn compact_format() -> Seq<char> {
    "%Y%m%d_%H%M%S"@
}

/// Reads the wall clock through `chrono::Utc::now` and writes it in `format`
/// with `DateTime::format`. Writing fails on a format that chrono does not
/// know, so only the compact format is let in. The text depends on the clock;
/// nothing is claimed of it.
#[verifier::external_body]
pub(crate) fn utc_now_formatted(format: &str) -> (text: String)
    requires
        format@ == compact_format(),
{
    chrono::Utc::now().format(format).to_string()
}

} // verus!
