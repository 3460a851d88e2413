//! A looping construct with a constant period.

use vstd::prelude::*;
use crate::instant::Instant;
use crate::select::Selectable;
use crate::sleep::GenericSleep;

verus! {

/// A loop that comes round once every `delta` milliseconds, counted from the
/// time of its last round and not from the time at which that round was
/// noticed.
#[derive(Clone, Copy, Debug)]
pub struct Loop {
    /// The time of the last round, in milliseconds since program start.
    pub last_time: u32,
    /// The period, in milliseconds.
    pub delta: u32,
}

/// The event that the next round of a loop is due. It is polled against a
/// reading of the clock.
#[derive(Clone, Copy, Debug)]
pub struct LoopSelect {
    /// The loop that is waited for.
    pub cycle: Loop,
}

impl Loop {
    /// The time at which the next round is due.
    pub open spec fn due(self) -> int {
        self.last_time + self.delta
    }

    /// Whether the next round still lies within the clock's range.
    pub open spec fn in_range(self) -> bool {
        self.due() <= u32::MAX
    }

    /// The loop after its next round.
    pub open spec fn advanced(self) -> Loop {
        Loop { last_time: self.due() as u32, delta: self.delta }
    }

    /// A loop with a period of `delta_millis` milliseconds, of which only the
    /// low 32 bits count, whose last round was at `now`.
    pub fn new(delta_millis: u128, now: Instant) -> (r: Loop)
        ensures
            r.last_time == now@,
            r.delta == delta_millis % 0x1_0000_0000,
    {
        let delta: u32 = (delta_millis % 0x1_0000_0000u128) as u32;
        Loop { last_time: now.as_millis(), delta }
    }

    /// Moves the loop to its next round and returns the time until which the
    /// task is to be delayed: the time at which that round is due.
    pub fn delay(&mut self) -> (r: Instant)
        requires
            old(self).in_range(),
        ensures
            *final(self) == old(self).advanced(),
            r@ == old(self).due(),
    {
        let due: u32 = self.last_time + self.delta;
        self.last_time = due;
        Instant::from_millis(due)
    }

    /// The event that the next round is due.
    pub fn next(self) -> (r: LoopSelect)
        ensures
            r.cycle == self,
    {
        LoopSelect { cycle: self }
    }
}

impl Selectable for LoopSelect {
    /// The loop, moved on by one round.
    type Output = Loop;

    /// The reading of the clock at the time of the poll.
    type World = Instant;

    open spec fn valid(&self) -> bool {
        self.cycle.in_range()
    }

    /// The round is taken exactly when the clock has reached the time at which
    /// it is due. The loop then moves on by one period, however late the
    /// clock is.
    open spec fn resolves(self, before: Instant, after: Instant, r: Result<Loop, Self>) -> bool {
        &&& after == before
        &&& if before@ >= self.cycle.due() {
            r == Ok::<Loop, Self>(self.cycle.advanced())
        } else {
            r == Err::<Loop, Self>(self)
        }
    }

    open spec fn deadline(&self, world: &Instant) -> GenericSleep {
        GenericSleep::Timestamp(Instant(self.cycle.due() as u32))
    }

    fn poll(self, world: &mut Instant) -> (r: Result<Loop, Self>) {
        let due: u32 = self.cycle.last_time + self.cycle.delta;
        if world.as_millis() >= due {
            Ok(Loop { last_time: due, delta: self.cycle.delta })
        } else {
            Err(self)
        }
    }

    /// A loop puts nothing into the clock, so giving it up changes nothing.
    open spec fn abandons(self, before: Instant, after: Instant) -> bool {
        after == before
    }

    fn abandon(self, world: &mut Instant) {
    }

    fn sleep(&self, world: &Instant) -> (r: GenericSleep) {
        GenericSleep::Timestamp(Instant::from_millis(self.cycle.last_time + self.cycle.delta))
    }
}

} // verus!
