//! Points in time and spans between them, counted in nanoseconds.

use vstd::prelude::*;

verus! {

/// Nanoseconds in one second.
pub const NANOS_PER_SEC: u128 = 1_000_000_000;

/// A point in time: nanoseconds since the Unix epoch.
#[derive(Debug, Clone, Copy, PartialEq, Eq, Structural)]
pub struct Timestamp {
    pub nanos: u128,
}

/// A span of time in nanoseconds.
#[derive(Debug, Clone, Copy, PartialEq, Eq, Structural)]
pub struct Elapsed {
    pub nanos: u128,
}

impl Timestamp {
    /// The time elapsed from `earlier` to `self`; zero where `earlier` is not
    /// in the past.
    pub open spec fn spec_since(self, earlier: Timestamp) -> Elapsed {
        if self.nanos >= earlier.nanos {
            Elapsed { nanos: (self.nanos - earlier.nanos) as u128 }
        } else {
            Elapsed { nanos: 0 }
        }
    }

    /// The point `secs` whole seconds after the epoch.
    pub fn from_secs(secs: u64) -> (t: Timestamp)
        ensures
            t.nanos == secs * NANOS_PER_SEC,
    {
        let wide: u128 = secs as u128;
        assert(wide * NANOS_PER_SEC <= u128::MAX) by (nonlinear_arith)
            requires
                wide <= u64::MAX,
                NANOS_PER_SEC == 1_000_000_000,
        ;
        Timestamp { nanos: wide * NANOS_PER_SEC }
    }

    #[verifier::when_used_as_spec(spec_since)]
    pub fn since(self, earlier: Timestamp) -> (e: Elapsed)
        ensures
            e == self.spec_since(earlier),
    {
        if self.nanos >= earlier.nanos {
            Elapsed { nanos: self.nanos - earlier.nanos }
        } else {
            Elapsed { nanos: 0 }
        }
    }
}

impl Elapsed {
    pub open spec fn spec_zero() -> Elapsed {
        Elapsed { nanos: 0 }
    }

    pub open spec fn spec_as_secs(self) -> u128 {
        self.nanos / NANOS_PER_SEC
    }

    /// The empty span.
    #[verifier::when_used_as_spec(spec_zero)]
    pub fn zero() -> (e: Elapsed)
        ensures
            e == Elapsed::spec_zero(),
    {
        Elapsed { nanos: 0 }
    }

    /// The span of `secs` whole seconds.
    pub fn from_secs(secs: u64) -> (e: Elapsed)
        ensures
            e.nanos == secs * NANOS_PER_SEC,
    {
        Elapsed { nanos: Timestamp::from_secs(secs).nanos }
    }

    /// The whole seconds in this span, rounded down.
    #[verifier::when_used_as_spec(spec_as_secs)]
    pub fn as_secs(self) -> (secs: u128)
        ensures
            secs == self.spec_as_secs(),
    {
        self.nanos / NANOS_PER_SEC
    }
}

} // verus!
