//! Points in time.
use vstd::prelude::*;

use crate::text;

verus! {

/// A point in time: whole seconds since the Unix epoch, and the nanoseconds past them.
#[derive(Clone, Copy, Debug, PartialEq, Eq, Structural)]
pub struct Timestamp {
    pub seconds: i64,
    pub nanos: u32,
}

impl Timestamp {
    /// Less than a second past the whole seconds.
    pub open spec fn well_formed(self) -> bool {
        self.nanos < 1_000_000_000
    }
}

/// `chrono::DateTime::<Utc>::from` of `std::time::SystemTime::now`: the time now, taken apart by
/// `timestamp` and `timestamp_subsec_nanos`. The nanoseconds are those that the system clock shows
/// past a whole second, so they are less than a second.
#[verifier::external_body]
pub fn utc_now() -> (now: Timestamp)
    ensures
        now.well_formed(),
{
    let now = chrono::DateTime::<chrono::Utc>::from(std::time::SystemTime::now());
    Timestamp { seconds: now.timestamp(), nanos: now.timestamp_subsec_nanos() }
}

/// A point in time as it is written; nothing where it is too far off to be written.
pub uninterp spec fn utc_text_of(seconds: i64, nanos: u32) -> Option<Seq<char>>;

/// `chrono::DateTime::from_timestamp` and the `Display` of the `DateTime<Utc>` that it gives, in
/// that order. What the two return together depends on the two numbers alone.
#[verifier::external_body]
pub(crate) fn utc_text(seconds: i64, nanos: u32) -> (out: Option<String>)
    ensures
        text::opt_view(out) == utc_text_of(seconds, nanos),
{
    chrono::DateTime::from_timestamp(seconds, nanos).map(|time| time.to_string())
}

} // verus!
