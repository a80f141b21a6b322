//! Readings of the host's monotonic clock.

use vstd::prelude::*;

verus! {

/// Nanoseconds in one millisecond.
pub const NANOS_PER_MILLI: u128 = 1_000_000;

/// One reading of a monotonic clock, in nanoseconds since an origin that the
/// host picks once and keeps for the life of the process.
#[derive(Clone, Copy, Debug, PartialEq, Eq, Structural)]
pub struct Moment {
    nanos: u128,
}

/// Whole milliseconds that lie between `earlier` and `later`, both in
/// nanoseconds; zero when `later` is not after `earlier`.
pub open spec fn millis_between(earlier: nat, later: nat) -> nat {
    if later >= earlier {
        (later - earlier) as nat / (NANOS_PER_MILLI as nat)
    } else {
        0
    }
}

impl View for Moment {
    type V = nat;

    /// The reading as nanoseconds since the origin.
    closed spec fn view(&self) -> nat {
        self.nanos as nat
    }
}

impl Moment {
    /// The reading that lies `nanos` nanoseconds after the origin.
    pub fn from_nanos(nanos: u128) -> (m: Moment)
        ensures
            m@ == nanos,
    {
        Moment { nanos }
    }

    /// The reading that lies `millis` milliseconds after the origin.
    pub fn from_millis(millis: u64) -> (m: Moment)
        ensures
            m@ == millis * NANOS_PER_MILLI,
    {
        let wide: u128 = millis as u128;
        assert(wide * NANOS_PER_MILLI <= u128::MAX) by (nonlinear_arith)
            requires
                wide <= u64::MAX,
                NANOS_PER_MILLI == 1_000_000,
        ;
        Moment { nanos: wide * NANOS_PER_MILLI }
    }

    /// Nanoseconds since the origin.
    pub fn nanos(self) -> (n: u128)
        ensures
            n == self@,
    {
        self.nanos
    }

    /// Whole milliseconds elapsed from `earlier` to `self`. A clock that ran
    /// backwards counts as no time elapsed.
    pub fn millis_since(self, earlier: Moment) -> (ms: u128)
        ensures
            ms == millis_between(earlier@, self@),
    {
        if self.nanos >= earlier.nanos {
            (self.nanos - earlier.nanos) / NANOS_PER_MILLI
        } else {
            0
        }
    }
}

} // verus!
