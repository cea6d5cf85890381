//! Countdowns: how much of a duration is left.

use vstd::prelude::*;

verus! {

/// A duration that runs out: the milliseconds that are left of it.
///
/// A countdown only ever moves towards zero by itself. One that repeats is
/// one that its owner sets again when it has run out.
#[derive(Clone, Copy, Debug, PartialEq, Eq, Structural)]
pub struct Countdown {
    pub remaining: u16,
}

impl Countdown {
    /// The countdown as it stands once `elapsed` more milliseconds have
    /// passed.
    pub open spec fn after(self, elapsed: nat) -> Countdown {
        if elapsed >= self.remaining {
            Countdown { remaining: 0 }
        } else {
            Countdown { remaining: (self.remaining - elapsed) as u16 }
        }
    }

    /// Nothing is left.
    pub open spec fn is_finished(self) -> bool {
        self.remaining == 0
    }

    /// A countdown with `duration` milliseconds to go.
    pub fn from_millis(duration: u16) -> (c: Countdown)
        ensures
            c.remaining == duration,
    {
        Countdown { remaining: duration }
    }

    /// Lets `dt` milliseconds pass. Returns whether the countdown ran out
    /// during them: one that had run out before does not run out again.
    pub fn tick(&mut self, dt: u16) -> (just_finished: bool)
        ensures
            *final(self) == old(self).after(dt as nat),
            just_finished == (!old(self).is_finished() && final(self).is_finished()),
            just_finished == (0 < old(self).remaining <= dt),
    {
        if self.remaining == 0 {
            false
        } else if dt >= self.remaining {
            self.remaining = 0;
            true
        } else {
            self.remaining = self.remaining - dt;
            false
        }
    }

    /// Whether nothing is left.
    pub fn finished(&self) -> (done: bool)
        ensures
            done == self.is_finished(),
    {
        self.remaining == 0
    }

    /// Starts over with `duration` milliseconds to go.
    pub fn reset(&mut self, duration: u16)
        ensures
            final(self).remaining == duration,
    {
        self.remaining = duration;
    }
}

/// Two ticks in a row leave what one tick of their sum leaves: a countdown
/// keeps no account of how the time was cut up.
pub proof fn lemma_ticks_add_up(c: Countdown, first: nat, second: nat)
    ensures
        c.after(first).after(second) == c.after(first + second),
{
}

/// A countdown has run out after `elapsed` milliseconds exactly when
/// `elapsed` is at least what was left.
pub proof fn lemma_finished_when_due(c: Countdown, elapsed: nat)
    ensures
        c.after(elapsed).is_finished() <==> elapsed >= c.remaining,
{
}

} // verus!
