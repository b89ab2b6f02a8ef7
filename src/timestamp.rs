//! Points in time as plain values, read from RFC 3339 text.
use vstd::prelude::*;

verus! {

/// An instant: whole seconds since the Unix epoch, the nanoseconds past that
/// second (above a billion only inside a leap second), and the UTC offset in
/// seconds that the source text was written in.
#[derive(Clone, Copy, Debug, PartialEq, Eq)]
pub struct Timestamp {
    pub secs: i64,
    pub nanos: u32,
    pub offset_secs: i32,
}

/// The instant `a` is strictly later than `b`; the offsets play no part.
pub open spec fn later(a: (int, int, int), b: (int, int, int)) -> bool {
    a.0 > b.0 || (a.0 == b.0 && a.1 > b.1)
}

impl View for Timestamp {
    type V = (int, int, int);

    open spec fn view(&self) -> (int, int, int) {
        (self.secs as int, self.nanos as int, self.offset_secs as int)
    }
}

impl Timestamp {
    /// Whether `self` is strictly later than `other`.
    pub fn is_after(&self, other: &Timestamp) -> (r: bool)
        ensures
            r == later(self@, other@),
    {
        self.secs > other.secs || (self.secs == other.secs && self.nanos > other.nanos)
    }
}

/// The instant that a date-and-time text denotes, as (seconds since the
/// epoch, nanoseconds, offset in seconds), or `None` where chrono's RFC 3339
/// reader refuses the text (it also takes a space or a lower-case `t`
/// between date and time).
pub uninterp spec fn rfc3339_instant(s: Seq<char>) -> Option<(int, int, int)>;

/// Relies on chrono's `DateTime::parse_from_rfc3339`, read through `timestamp`,
/// `timestamp_subsec_nanos` and `offset().local_minus_utc()`: the result depends
/// on the text alone.
#[verifier::external_body]
pub(crate) fn parse_rfc3339(s: &str) -> (r: Option<Timestamp>)
    ensures
        r matches Some(t) ==> rfc3339_instant(s@) == Some(t@),
        r is None ==> rfc3339_instant(s@) is None,
{
    chrono::DateTime::parse_from_rfc3339(s).ok().map(
        |d|
            Timestamp {
                secs: d.timestamp(),
                nanos: d.timestamp_subsec_nanos(),
                offset_secs: d.offset().local_minus_utc(),
            },
    )
}

} // verus!
