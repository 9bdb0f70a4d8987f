//! The fixed timestep: frames of any length come in, whole ticks come out.

use vstd::prelude::*;

verus! {

/// Nanoseconds per second.
pub const NANOS_PER_SECOND: u64 = 1_000_000_000;

/// The highest tick rate: one tick per nanosecond.
pub const MAX_TICKS_PER_SECOND: u32 = 1_000_000_000;

/// Turns the time that passes between frames into whole ticks of fixed
/// length. Time that does not fill a tick is carried over to the next
/// frame, so no time is ever lost or counted twice.
#[derive(Clone, Copy, Debug, PartialEq, Eq, Structural)]
pub struct Timestep {
    ticks_per_second: u32,
    /// Time not yet turned into a tick, in parts of a tick: a tick has
    /// `NANOS_PER_SECOND` of them.
    carried: u64,
}

/// The number of ticks that are due after `elapsed_nanos` more nanoseconds.
pub open spec fn ticks_due(carried: int, elapsed_nanos: int, ticks_per_second: int) -> int {
    (carried + elapsed_nanos * ticks_per_second) / (NANOS_PER_SECOND as int)
}

/// What is left over after the due ticks have been taken.
pub open spec fn carried_over(carried: int, elapsed_nanos: int, ticks_per_second: int) -> int {
    (carried + elapsed_nanos * ticks_per_second) % (NANOS_PER_SECOND as int)
}

impl Timestep {
    pub closed spec fn rate(self) -> u32 {
        self.ticks_per_second
    }

    pub closed spec fn carried(self) -> u64 {
        self.carried
    }

    /// The rate is positive and within range, and less than a tick is
    /// carried.
    pub open spec fn wf(self) -> bool {
        1 <= self.rate() <= MAX_TICKS_PER_SECOND && self.carried() < NANOS_PER_SECOND
    }

    /// A timestep of the given rate with nothing carried; none for a rate
    /// of zero or above `MAX_TICKS_PER_SECOND`.
    pub fn new(ticks_per_second: u32) -> (made: Option<Timestep>)
        ensures
            made is Some <==> 1 <= ticks_per_second <= MAX_TICKS_PER_SECOND,
            made matches Some(step) ==> step.wf() && step.rate() == ticks_per_second
                && step.carried() == 0,
    {
        if ticks_per_second >= 1 && ticks_per_second <= MAX_TICKS_PER_SECOND {
            Some(Timestep { ticks_per_second, carried: 0 })
        } else {
            None
        }
    }

    pub fn ticks_per_second(&self) -> (rate: u32)
        ensures
            rate == self.rate(),
    {
        self.ticks_per_second
    }

    /// Drops the time that is carried.
    pub fn restart(&mut self)
        ensures
            final(self).rate() == old(self).rate(),
            final(self).carried() == 0,
            old(self).wf() ==> final(self).wf(),
    {
        self.carried = 0;
    }

    /// Takes in the time since the last frame and gives out the number of
    /// ticks that are now due; the rest of the time is carried over.
    pub fn advance(&mut self, elapsed_nanos: u64) -> (due: u64)
        requires
            old(self).wf(),
        ensures
            final(self).wf(),
            final(self).rate() == old(self).rate(),
            due == ticks_due(
                old(self).carried() as int,
                elapsed_nanos as int,
                old(self).rate() as int,
            ),
            final(self).carried() == carried_over(
                old(self).carried() as int,
                elapsed_nanos as int,
                old(self).rate() as int,
            ),
            due * NANOS_PER_SECOND + final(self).carried() == old(self).carried() + elapsed_nanos
                * old(self).rate(),
    {
        proof {
            assert(0 <= elapsed_nanos * self.ticks_per_second <= 0xffff_ffff_ffff_ffff
                * 1_000_000_000) by (nonlinear_arith)
                requires
                    0 <= elapsed_nanos <= 0xffff_ffff_ffff_ffff,
                    0 <= self.ticks_per_second <= 1_000_000_000,
            ;
        }
        let total: u128 = self.carried as u128 + (elapsed_nanos as u128) * (
        self.ticks_per_second as u128);
        let due: u128 = total / (NANOS_PER_SECOND as u128);
        let rest: u128 = total % (NANOS_PER_SECOND as u128);
        proof {
            vstd::arithmetic::div_mod::lemma_fundamental_div_mod(
                total as int,
                NANOS_PER_SECOND as int,
            );
        }
        self.carried = rest as u64;
        due as u64
    }
}

} // verus!
