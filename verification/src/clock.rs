//! Instants, and the text that the store keeps for one.
use vstd::prelude::*;
use crate::rows::opt_text;

verus! {

/// An instant: seconds since the start of 1970, UTC, and the nanoseconds
/// into that second.
#[derive(Debug, Clone, Copy, PartialEq, Eq, Structural)]
pub struct Timestamp {
    pub seconds: i64,
    pub nanos: u32,
}

/// The text of an instant as a date, a time of day and the zone, as `chrono`
/// writes a `DateTime<Utc>`; nothing where the calendar does not reach
/// the instant.
pub uninterp spec fn utc_text(seconds: i64, nanos: u32) -> Option<Seq<char>>;

/// Calls `chrono::DateTime::from_timestamp` and, where that gives a date,
/// writes it with `to_string`, as `chrono` displays a `DateTime<Utc>`. The
/// result depends on the two numbers alone; the contract gives it its name
/// and claims nothing else of it.
#[verifier::external_body]
fn render_utc(seconds: i64, nanos: u32) -> (out: Option<String>)
    ensures
        opt_text(out) == utc_text(seconds, nanos),
{
    match chrono::DateTime::from_timestamp(seconds, nanos) {
        Some(instant) => Some(instant.to_string()),
        None => None,
    }
}

impl Timestamp {
    /// The instant at this second and nanosecond.
    pub fn new(seconds: i64, nanos: u32) -> (out: Timestamp)
        ensures
            out == (Timestamp { seconds, nanos }),
    {
        Timestamp { seconds, nanos }
    }

    /// The text that the store keeps for this instant.
    pub fn to_text(&self) -> (out: Option<String>)
        ensures
            opt_text(out) == utc_text(self.seconds, self.nanos),
    {
        render_utc(self.seconds, self.nanos)
    }
}

} // verus!
