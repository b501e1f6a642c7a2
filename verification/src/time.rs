//! Points in time, held as plain integers.

use vstd::prelude::*;

verus! {

/// A point in time on the UTC scale: whole seconds since 1970-01-01 00:00:00,
/// and the nanoseconds since the last whole second.
#[derive(Clone, Copy, Debug, PartialEq, Eq, Structural)]
pub struct Timestamp {
    pub secs: i64,
    pub nanos: u32,
}

impl Timestamp {
    /// `self` is not later than `other`: seconds decide, nanoseconds break ties.
    pub open spec fn le(self, other: Timestamp) -> bool {
        self.secs < other.secs || (self.secs == other.secs && self.nanos <= other.nanos)
    }

    /// Whether `self` is not later than `other`.
    pub fn not_after(&self, other: &Timestamp) -> (r: bool)
        ensures
            r == self.le(*other),
    {
        self.secs < other.secs || (self.secs == other.secs && self.nanos <= other.nanos)
    }
}

/// The order of timestamps is reflexive.
pub proof fn lemma_le_reflexive(a: Timestamp)
    ensures
        a.le(a),
{
}

/// The order of timestamps is transitive.
pub proof fn lemma_le_transitive(a: Timestamp, b: Timestamp, c: Timestamp)
    requires
        a.le(b),
        b.le(c),
    ensures
        a.le(c),
{
}

/// The order of timestamps is total and antisymmetric.
pub proof fn lemma_le_total(a: Timestamp, b: Timestamp)
    ensures
        a.le(b) || b.le(a),
        a.le(b) && b.le(a) ==> a == b,
{
}

/// Reads the system clock: `chrono::Local::now()`, turned to UTC with
/// `DateTime::to_utc`, and taken apart with `DateTime::timestamp` and
/// `DateTime::timestamp_subsec_nanos`. Nothing is claimed of the value: two
/// readings may differ in either direction.
#[verifier::external_body]
pub(crate) fn clock_now() -> (t: Timestamp) {
    let now = chrono::Local::now().to_utc();
    Timestamp { secs: now.timestamp(), nanos: now.timestamp_subsec_nanos() }
}

} // verus!
