//! Points in time and spans between them, in nanoseconds.
use vstd::prelude::*;

verus! {

/// The longest span, in nanoseconds: the seconds of 64 bits and a second less one nanosecond.
pub const MAX_SPAN: u128 = 18_446_744_073_709_551_615_999_999_999;

/// No point in time lies further from the start of 1970 than this many nanoseconds.
pub const MAX_INSTANT: i128 = 10_000_000_000_000_000_000_000;

/// A point in time: the nanoseconds since the start of 1970 in UTC.
#[derive(Debug, Clone, Copy, PartialEq, Eq, Structural)]
pub struct Timestamp {
    /// The nanoseconds.
    pub nanos: i128,
}

/// A length of time.
#[derive(Debug, Clone, Copy, PartialEq, Eq, Structural)]
pub struct Span {
    /// The nanoseconds.
    pub nanos: u128,
}

impl Timestamp {
    /// The point in time lies in the range of dates.
    pub open spec fn in_range(self) -> bool {
        -MAX_INSTANT <= self.nanos <= MAX_INSTANT
    }
}

impl Span {
    /// A span of whole seconds.
    pub fn from_secs(secs: u64) -> (r: Span)
        ensures
            r.nanos == secs * 1_000_000_000,
    {
        Span { nanos: secs as u128 * 1_000_000_000 }
    }
}

/// `chrono::Utc::now`: the seconds since the start of 1970, and the nanoseconds of the current second.
/// Both come from the clock of the machine, so only their ranges are known: the last date has the
/// year 262142. A clock that stands before 1970 or after that date makes the call panic.
#[verifier::external_body]
fn utc_now() -> (r: (i64, u32))
    ensures
        0 <= r.0 <= 8_210_266_876_799,
        r.1 < 1_000_000_000,
{
    let now = chrono::Utc::now();
    (now.timestamp(), now.timestamp_subsec_nanos())
}

/// The point in time with `secs` seconds and `nanos` nanoseconds since the start of 1970.
pub fn timestamp(secs: i64, nanos: u32) -> (r: Timestamp)
    ensures
        r.nanos == secs * 1_000_000_000 + nanos,
{
    Timestamp { nanos: secs as i128 * 1_000_000_000 + nanos as i128 }
}

/// The current time.
pub fn now() -> (r: Timestamp)
    ensures
        r.in_range(),
        r.nanos >= 0,
{
    let (secs, nanos) = utc_now();
    timestamp(secs, nanos)
}

/// The span from `start` to `end`, nothing where `end` comes first.
pub open spec fn span_between(start: Timestamp, end: Timestamp) -> Option<Span> {
    if start.nanos <= end.nanos {
        Some(Span { nanos: (end.nanos - start.nanos) as u128 })
    } else {
        None
    }
}

/// A span leads from its start to its end, and there is one exactly where the end does not come first.
pub proof fn law_span_leads_to_end(start: Timestamp, end: Timestamp)
    requires
        start.in_range(),
        end.in_range(),
    ensures
        span_between(start, end) is Some <==> start.nanos <= end.nanos,
        span_between(start, end) matches Some(span) ==> start.nanos + span.nanos == end.nanos,
{
}

/// The span from `start` to `end`, nothing where `end` comes first.
pub fn elapsed_between(start: Timestamp, end: Timestamp) -> (r: Option<Span>)
    requires
        start.in_range(),
        end.in_range(),
    ensures
        r == span_between(start, end),
        r is Some <==> start.nanos <= end.nanos,
        r matches Some(span) ==> start.nanos + span.nanos == end.nanos,
{
    if start.nanos <= end.nanos {
        Some(Span { nanos: (end.nanos - start.nanos) as u128 })
    } else {
        None
    }
}

} // verus!
