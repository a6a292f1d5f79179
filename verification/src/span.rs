//! Lengths of time.
use vstd::prelude::*;

verus! {

/// A length of time in seconds and nanoseconds.
#[derive(Clone, Copy, Debug, PartialEq, Eq, Structural)]
pub struct Span {
    pub seconds: u64,
    pub nanos: u32,
}

impl Span {
    /// The nanoseconds are less than a second.
    pub open spec fn valid(self) -> bool {
        self.nanos < 1_000_000_000
    }

    pub open spec fn spec_micros(self) -> int {
        self.seconds * 1_000_000 + self.nanos / 1000
    }

    pub open spec fn spec_millis(self) -> int {
        self.seconds * 1000 + self.nanos / 1_000_000
    }

    /// The whole span in nanoseconds.
    pub open spec fn spec_nanos(self) -> int {
        self.seconds * 1_000_000_000 + self.nanos
    }

    pub fn from_secs(seconds: u64) -> (r: Self)
        ensures
            r == (Span { seconds, nanos: 0 }),
            r.valid(),
    {
        Span { seconds, nanos: 0 }
    }

    pub fn from_millis(millis: u64) -> (r: Self)
        ensures
            r.valid(),
            r.spec_nanos() == millis * 1_000_000,
    {
        Span { seconds: millis / 1000, nanos: ((millis % 1000) as u32) * 1_000_000 }
    }

    /// The whole microseconds of the span.
    pub fn as_micros(self) -> (r: u128)
        ensures
            r == self.spec_micros(),
    {
        (self.seconds as u128) * 1_000_000 + (self.nanos / 1000) as u128
    }

    /// The whole milliseconds of the span, as far as 64 bits go.
    pub fn millis_u64(self) -> (r: u64)
        ensures
            r == (if self.spec_millis() > u64::MAX {
                u64::MAX as int
            } else {
                self.spec_millis()
            }),
    {
        let millis: u128 = (self.seconds as u128) * 1000 + (self.nanos / 1_000_000) as u128;
        if millis > u64::MAX as u128 {
            u64::MAX
        } else {
            millis as u64
        }
    }

    /// Whether this span is longer than another, both of them valid.
    pub fn longer_than(self, other: Span) -> (r: bool)
        requires
            self.valid(),
            other.valid(),
        ensures
            r == (self.spec_nanos() > other.spec_nanos()),
    {
        self.seconds > other.seconds || (self.seconds == other.seconds && self.nanos > other.nanos)
    }
}

} // verus!
