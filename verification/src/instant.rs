//! The in-memory instant that the timestamp codecs encode and decode.

use vstd::prelude::*;

verus! {

/// An absolute point in time: a count of nanoseconds since the Unix epoch,
/// offset-free. The representable domain is the full range of a signed
/// 64-bit nanosecond count (roughly the years 1677 through 2262); a decode
/// that lands outside it is reported as out of range, never wrapped or
/// clamped.
#[derive(Clone, Copy, Debug, PartialEq, Eq, Structural)]
pub struct Instant {
    nanos: i64,
}

/// Whether the mathematical nanosecond count `n` lies in the representable
/// instant domain.
pub open spec fn instant_in_range(n: int) -> bool {
    i64::MIN <= n <= i64::MAX
}

impl Instant {
    /// The nanosecond count of this instant, as a mathematical integer.
    pub closed spec fn spec_nanos(self) -> int {
        self.nanos as int
    }

    /// Every instant's nanosecond count lies in the representable domain.
    pub proof fn lemma_in_range(self)
        ensures
            instant_in_range(self.spec_nanos()),
    {
    }

    /// Builds the instant `n` nanoseconds after the epoch (before it when
    /// `n` is negative).
    pub fn from_nanos(n: i64) -> (r: Instant)
        ensures
            r.spec_nanos() == n,
    {
        Instant { nanos: n }
    }

    /// The nanosecond count of this instant.
    pub fn nanos(&self) -> (n: i64)
        ensures
            n == self.spec_nanos(),
    {
        self.nanos
    }
}

} // verus!
