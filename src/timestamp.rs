use vstd::prelude::*;

verus! {

/// A UTC instant: whole seconds since the Unix epoch and a nanosecond part.
#[derive(Clone, Copy, Debug, PartialEq, Eq, Structural)]
pub struct Timestamp {
    pub seconds: i64,
    pub nanos: i32,
}

impl Timestamp {
    /// `self` comes strictly before `other` (seconds first, then nanoseconds).
    pub open spec fn precedes(self, other: Timestamp) -> bool {
        self.seconds < other.seconds || (self.seconds == other.seconds && self.nanos
            < other.nanos)
    }

    /// `self` comes before `other` or is the same instant.
    pub open spec fn no_later_than(self, other: Timestamp) -> bool {
        self.precedes(other) || self == other
    }

    pub fn new(seconds: i64, nanos: i32) -> (r: Timestamp)
        ensures
            r.seconds == seconds,
            r.nanos == nanos,
    {
        Timestamp { seconds, nanos }
    }

    pub fn is_before(&self, other: &Timestamp) -> (r: bool)
        ensures
            r == self.precedes(*other),
    {
        self.seconds < other.seconds || (self.seconds == other.seconds && self.nanos
            < other.nanos)
    }

}

/// What chrono's `DateTime::parse_from_str` makes of `text` under `format`, as a UTC
/// instant, or `None` where it rejects the text.
pub uninterp spec fn parsed_instant(text: Seq<char>, format: Seq<char>) -> Option<Timestamp>;

/// Relies on chrono's `DateTime::parse_from_str` (offset mandatory in the text), with
/// `timestamp` and `timestamp_subsec_nanos` reading the result as a UTC instant. The
/// result depends on the two strings alone: no local time zone is consulted.
#[verifier::external_body]
pub(crate) fn parse_instant(text: &str, format: &str) -> (r: Option<Timestamp>)
    ensures
        r == parsed_instant(text@, format@),
{
    match chrono::DateTime::parse_from_str(text, format) {
        Ok(dt) => Some(Timestamp { seconds: dt.timestamp(), nanos: dt.timestamp_subsec_nanos() as i32 }),
        Err(_) => None,
    }
}

} // verus!
