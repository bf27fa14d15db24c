//! The delay and sound timers, and the clock that paces them.

use vstd::prelude::*;

verus! {

/// Rate at which the timers count down, in ticks per second.
pub const TIMER_HZ: u64 = 60;

/// Nanoseconds in one second.
pub const NANOS_PER_SECOND: u64 = 1_000_000_000;

/// `value` after `ticks` ticks: one less per tick, never below zero.
pub open spec fn counted_down(value: u8, ticks: int) -> u8 {
    if ticks <= 0 {
        value
    } else if value >= ticks {
        (value - ticks) as u8
    } else {
        0
    }
}

/// The two countdown registers.
#[derive(Clone, Copy, Debug, PartialEq, Eq, Structural)]
pub struct Timers {
    /// The delay timer.
    pub delay: u8,
    /// The sound timer.
    pub sound: u8,
}

impl Timers {
    /// Both timers at zero.
    pub fn new() -> (t: Timers)
        ensures
            t == (Timers { delay: 0, sound: 0 }),
    {
        Timers { delay: 0, sound: 0 }
    }

    /// One tick: each timer that is above zero loses one.
    pub fn tick(&mut self)
        ensures
            final(self).delay == counted_down(old(self).delay, 1),
            final(self).sound == counted_down(old(self).sound, 1),
    {
        if self.delay > 0 {
            self.delay -= 1;
        }
        if self.sound > 0 {
            self.sound -= 1;
        }
    }

    /// `ticks` ticks at once.
    pub fn tick_by(&mut self, ticks: u64)
        ensures
            final(self).delay == counted_down(old(self).delay, ticks as int),
            final(self).sound == counted_down(old(self).sound, ticks as int),
    {
        if ticks >= 255 {
            self.delay = 0;
            self.sound = 0;
        } else {
            let t: u8 = ticks as u8;
            self.delay = self.delay.saturating_sub(t);
            self.sound = self.sound.saturating_sub(t);
        }
    }
}

/// The time that a clock holds after `elapsed_nanos` nanoseconds are added
/// to its `residue`, in sixtieths of a nanosecond.
pub open spec fn accumulated(residue: nat, elapsed_nanos: nat) -> nat {
    residue + elapsed_nanos * TIMER_HZ as nat
}

/// The ticks that come due when `elapsed_nanos` nanoseconds are added to a
/// clock that holds `residue`.
pub open spec fn ticks_due(residue: nat, elapsed_nanos: nat) -> nat {
    accumulated(residue, elapsed_nanos) / NANOS_PER_SECOND as nat
}

/// What the clock carries over after those ticks.
pub open spec fn residue_after(residue: nat, elapsed_nanos: nat) -> nat {
    accumulated(residue, elapsed_nanos) % NANOS_PER_SECOND as nat
}

/// Counting down in two goes is counting down by the sum.
pub proof fn lemma_count_down_adds(value: u8, a: int, b: int)
    requires
        0 <= a,
        0 <= b,
    ensures
        counted_down(counted_down(value, a), b) == counted_down(value, a + b),
{
}

/// A timer never rises, and it loses exactly `ticks` while it has them.
pub proof fn lemma_count_down_bounds(value: u8, ticks: int)
    requires
        0 <= ticks,
    ensures
        counted_down(value, ticks) <= value,
        ticks <= value ==> counted_down(value, ticks) == value - ticks,
        ticks >= value ==> counted_down(value, ticks) == 0,
{
}

/// The clock loses no time: what was held and what was added is what was
/// paid out in ticks and what is carried over.
pub proof fn lemma_clock_conserves(residue: nat, elapsed_nanos: nat)
    ensures
        ticks_due(residue, elapsed_nanos) * NANOS_PER_SECOND + residue_after(residue, elapsed_nanos)
            == residue + elapsed_nanos * TIMER_HZ,
        residue_after(residue, elapsed_nanos) < NANOS_PER_SECOND,
{
}

/// Adding time in two parts gives as many ticks in all, and carries over
/// as much, as adding it at once: the ticks do not depend on how often the
/// clock is asked.
pub proof fn lemma_clock_splits(residue: nat, first: nat, second: nat)
    ensures
        ticks_due(residue, first) + ticks_due(residue_after(residue, first), second) == ticks_due(
            residue,
            first + second,
        ),
        residue_after(residue_after(residue, first), second) == residue_after(
            residue,
            first + second,
        ),
{
    let p = NANOS_PER_SECOND as int;
    let t = accumulated(residue, first) as int;
    let u = second * TIMER_HZ as int;
    assert(accumulated(residue, first + second) == t + u) by (nonlinear_arith)
        requires
            t == residue + first * 60,
            u == second * 60,
            accumulated(residue, first + second) == residue + (first + second) * 60,
    ;
    assert(t == p * (t / p) + t % p);
    assert((p * (t / p) + (t % p + u)) / p == t / p + (t % p + u) / p && (p * (t / p) + (t % p
        + u)) % p == (t % p + u) % p) by (nonlinear_arith)
        requires
            p > 0,
    ;
}

/// Turns elapsed time into timer ticks at `TIMER_HZ`, however many
/// instruction cycles ran meanwhile. The time not yet paid out as a tick is
/// carried over, so no time is lost between calls.
#[derive(Clone, Copy, Debug)]
pub struct TimerClock {
    residue: u64,
}

impl TimerClock {
    /// Less than one tick is carried over.
    #[verifier::type_invariant]
    spec fn inv(self) -> bool {
        self.residue < NANOS_PER_SECOND
    }

    /// The time carried over, in sixtieths of a nanosecond. One tick is
    /// `NANOS_PER_SECOND` of them.
    pub closed spec fn residue(&self) -> nat {
        self.residue as nat
    }

    /// A clock with nothing carried over.
    pub fn new() -> (c: TimerClock)
        ensures
            c.residue() == 0,
    {
        TimerClock { residue: 0 }
    }

    /// Adds `elapsed_nanos` nanoseconds and returns the number of ticks that
    /// have come due.
    pub fn advance(&mut self, elapsed_nanos: u64) -> (ticks: u64)
        ensures
            ticks == ticks_due(old(self).residue(), elapsed_nanos as nat),
            final(self).residue() == residue_after(old(self).residue(), elapsed_nanos as nat),
    {
        proof {
            use_type_invariant(&*self);
        }
        assert(elapsed_nanos as u128 * TIMER_HZ as u128 <= 0xFFFF_FFFF_FFFF_FFFF * 60)
            by (nonlinear_arith)
            requires
                TIMER_HZ == 60,
        ;
        let total: u128 = self.residue as u128 + elapsed_nanos as u128 * TIMER_HZ as u128;
        let ticks: u128 = total / NANOS_PER_SECOND as u128;
        let rest: u128 = total % NANOS_PER_SECOND as u128;
        self.residue = rest as u64;
        ticks as u64
    }
}

} // verus!
