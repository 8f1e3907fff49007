//! Points in time and spans of time, as plain numbers.

use vstd::prelude::*;

verus! {

/// A point in time: so many seconds and nanoseconds after the Unix epoch, or before it.
#[derive(Debug, Clone, Copy, PartialEq, Eq, Structural)]
pub struct Timestamp {
    pub before_epoch: bool,
    pub secs: u64,
    pub nanos: u32,
}

/// A span of time.
#[derive(Debug, Clone, Copy, PartialEq, Eq, Structural)]
pub struct Span {
    pub secs: u64,
    pub nanos: u32,
}

/// The nanoseconds in so many seconds and nanoseconds.
pub open spec fn nanoseconds(secs: u64, nanos: u32) -> int {
    secs * 1_000_000_000 + nanos
}

impl Timestamp {
    /// The nanoseconds from the epoch to this time, below zero before it.
    pub open spec fn since_epoch(self) -> int {
        if self.before_epoch {
            -nanoseconds(self.secs, self.nanos)
        } else {
            nanoseconds(self.secs, self.nanos)
        }
    }
}

impl Span {
    /// The length of the span in nanoseconds.
    pub open spec fn length(self) -> int {
        nanoseconds(self.secs, self.nanos)
    }

    /// Whether the nanoseconds make less than a second.
    pub open spec fn wf(self) -> bool {
        self.nanos < 1_000_000_000
    }
}

/// The largest number of nanoseconds in a span.
pub open spec fn longest_span() -> int {
    nanoseconds(u64::MAX, 999_999_999)
}

/// The nanoseconds from the epoch to a time.
fn offset(t: Timestamp) -> (r: i128)
    ensures
        r == t.since_epoch(),
{
    let n: i128 = t.secs as i128 * 1_000_000_000 + t.nanos as i128;
    if t.before_epoch {
        -n
    } else {
        n
    }
}

/// The span from one time to another, where the second is not before the first and a span can hold
/// it.
pub fn span_between(from: Timestamp, to: Timestamp) -> (r: Option<Span>)
    ensures
        match r {
            Some(span) => span.wf() && span.length() == to.since_epoch() - from.since_epoch(),
            None => to.since_epoch() < from.since_epoch() || to.since_epoch() - from.since_epoch()
                > longest_span(),
        },
{
    let start: i128 = offset(from);
    let end: i128 = offset(to);
    if end < start {
        return None;
    }
    let nanos: i128 = end - start;
    let secs: i128 = nanos / 1_000_000_000;
    let rest: i128 = nanos % 1_000_000_000;
    if secs > u64::MAX as i128 {
        return None;
    }
    Some(Span { secs: secs as u64, nanos: rest as u32 })
}

/// Reads the clock, through `std::time::SystemTime::now`. Nothing is known of what it says but
/// that the nanoseconds make less than a second.
#[verifier::external_body]
pub(crate) fn read_clock() -> (r: Timestamp)
    ensures
        r.nanos < 1_000_000_000,
{
    match std::time::SystemTime::now().duration_since(std::time::UNIX_EPOCH) {
        Ok(d) => Timestamp { before_epoch: false, secs: d.as_secs(), nanos: d.subsec_nanos() },
        Err(e) => Timestamp {
            before_epoch: true,
            secs: e.duration().as_secs(),
            nanos: e.duration().subsec_nanos(),
        },
    }
}

} // verus!
