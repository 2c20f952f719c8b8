//! Spans of time.

use vstd::prelude::*;

verus! {

/// The longest span, in nanoseconds: just under 2^64 seconds.
pub const MAX_NANOS: u128 = 18_446_744_073_709_551_615_999_999_999;

/// A span of time, to the nanosecond.
#[derive(Debug, Clone, Copy, PartialEq, Eq, PartialOrd, Ord, Structural)]
pub struct Duration {
    nanos: u128,
}

impl Duration {
    /// The length in nanoseconds.
    pub closed spec fn view(self) -> nat {
        self.nanos as nat
    }

    #[verifier::type_invariant]
    closed spec fn in_range(self) -> bool {
        self.nanos <= MAX_NANOS
    }

    /// No time at all.
    pub fn zero() -> (r: Self)
        ensures
            r@ == 0,
    {
        Self { nanos: 0 }
    }

    /// A number of seconds.
    pub fn from_secs(secs: u64) -> (r: Self)
        ensures
            r@ == secs * 1_000_000_000,
    {
        Self { nanos: secs as u128 * 1_000_000_000 }
    }

    /// A number of milliseconds.
    pub fn from_millis(millis: u64) -> (r: Self)
        ensures
            r@ == millis * 1_000_000,
    {
        Self { nanos: millis as u128 * 1_000_000 }
    }

    /// A number of nanoseconds.
    pub fn from_nanos(nanos: u64) -> (r: Self)
        ensures
            r@ == nanos,
    {
        Self { nanos: nanos as u128 }
    }

    /// A number of seconds and a number of nanoseconds, under one second.
    pub fn from_parts(secs: u64, nanos: u32) -> (r: Self)
        requires
            nanos < 1_000_000_000,
        ensures
            r@ == secs * 1_000_000_000 + nanos,
    {
        Self { nanos: secs as u128 * 1_000_000_000 + nanos as u128 }
    }

    /// The length in nanoseconds.
    pub fn as_nanos(self) -> (r: u128)
        ensures
            r == self@,
            r <= MAX_NANOS,
    {
        proof {
            use_type_invariant(&self);
        }
        self.nanos
    }

    /// The length in whole milliseconds.
    pub fn as_millis(self) -> (r: u128)
        ensures
            r == self@ / 1_000_000,
    {
        self.nanos / 1_000_000
    }
}

} // verus!
