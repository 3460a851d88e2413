//! A signal without payload that every waiter sees, however many times it
//! was given in the meantime.

use vstd::prelude::*;
use crate::event::{with, without, Event};
use crate::select::{Selectable, World};
use crate::sleep::GenericSleep;
use crate::task::Task;

verus! {

/// The generation that follows `generation`. The count starts over after its
/// largest value.
pub open spec fn next_generation(generation: u32) -> u32 {
    if generation == u32::MAX {
        0
    } else {
        (generation + 1) as u32
    }
}

/// The generation reached from `generation` by `signals` signals.
pub open spec fn generation_after(generation: u32, signals: nat) -> u32
    decreases signals,
{
    if signals == 0 {
        generation
    } else {
        next_generation(generation_after(generation, (signals - 1) as nat))
    }
}

/// The generation reached by `signals` signals, as a number.
pub proof fn lemma_generation_after(generation: u32, signals: nat)
    ensures
        generation_after(generation, signals) == (generation + signals) % 0x1_0000_0000,
    decreases signals,
{
    if signals > 0 {
        lemma_generation_after(generation, (signals - 1) as nat);
    }
}

/// A waiter that slept through any number of signals, up to the range of the
/// generation count, finds on its next poll that the generation has moved,
/// wakes once and is level with the source again: a further poll finds
/// nothing new.
pub proof fn lemma_catches_up_once(seen: u32, signals: nat)
    requires
        0 < signals < 0x1_0000_0000,
    ensures
        generation_after(seen, signals) != seen,
        caught_up(generation_after(seen, signals), seen) == Some(
            generation_after(seen, signals),
        ),
        caught_up(generation_after(seen, signals), generation_after(seen, signals)) is None,
{
    lemma_generation_after(seen, signals);
}

/// What a waiter that last saw generation `seen` learns from a source at
/// `generation`: the new generation if there was a signal since, and nothing
/// otherwise.
pub open spec fn caught_up(generation: u32, seen: u32) -> Option<u32> {
    if generation != seen {
        Some(generation)
    } else {
        None
    }
}

/// A signal that reaches every waiter.
pub struct Broadcast {
    generation: u32,
    waiters: Event,
}

/// One waiter's knowledge of a broadcast: the generation it last saw.
#[derive(Clone, Copy, Debug)]
pub struct BroadcastListener {
    /// The generation that the waiter last saw.
    pub seen: u32,
}

/// The event that a broadcast has been signaled since a waiter last looked.
/// It produces the waiter, level with the source.
#[derive(Debug)]
pub struct BroadcastSelect {
    /// The waiter.
    pub listener: BroadcastListener,
    /// The task that waits.
    pub task: Task,
}

impl Broadcast {
    /// The number of the last signal.
    pub closed spec fn spec_generation(&self) -> u32 {
        self.generation
    }

    /// The tasks that wait for a signal.
    pub closed spec fn spec_waiters(&self) -> Seq<Task> {
        self.waiters@
    }

    /// A broadcast that has not been signaled and has no waiters.
    pub fn new() -> (r: Broadcast)
        ensures
            r.wf(),
            r.spec_generation() == 0,
            r.spec_waiters() == Seq::<Task>::empty(),
    {
        Broadcast { generation: 0, waiters: Event::new() }
    }

    /// The number of the last signal.
    pub fn generation(&self) -> (r: u32)
        ensures
            r == self.spec_generation(),
    {
        self.generation
    }

    /// Signals: moves on to the next generation and returns the waiting
    /// tasks, which are to be woken.
    pub fn signal(&mut self) -> (r: Vec<Task>)
        requires
            old(self).wf(),
        ensures
            final(self).wf(),
            final(self).spec_generation() == next_generation(old(self).spec_generation()),
            final(self).spec_waiters() == old(self).spec_waiters(),
            r@ == old(self).spec_waiters(),
    {
        self.generation = if self.generation == u32::MAX {
            0
        } else {
            self.generation + 1
        };
        self.waiters.notify()
    }

    /// A waiter that has seen every signal so far.
    pub fn listen(&self) -> (r: BroadcastListener)
        ensures
            r.seen == self.spec_generation(),
    {
        BroadcastListener { seen: self.generation }
    }

}

impl BroadcastListener {
    /// The event that `source` has been signaled since this waiter last
    /// looked, for `task` to wait on. The task joins the source's waiters,
    /// once however often it asks.
    pub fn select(self, source: &mut Broadcast, task: Task) -> (r: BroadcastSelect)
        requires
            old(source).wf(),
        ensures
            final(source).wf(),
            final(source).spec_generation() == old(source).spec_generation(),
            final(source).spec_waiters() == with(old(source).spec_waiters(), task),
            r.listener == self,
            r.task == task,
    {
        source.waiters.register(task);
        BroadcastSelect { listener: self, task }
    }
}

impl World for Broadcast {
    /// No task waits twice.
    open spec fn wf(&self) -> bool {
        self.spec_waiters().no_duplicates()
    }
}

impl Selectable for BroadcastSelect {
    type Output = BroadcastListener;

    type World = Broadcast;

    open spec fn valid(&self) -> bool {
        true
    }

    /// The event completes exactly when the source's generation differs from
    /// the one that the waiter last saw. It then produces the waiter with
    /// the source's generation, one wake for all the signals it missed, and
    /// the task leaves the waiters. The signal itself stays for every other
    /// waiter to see.
    open spec fn resolves(
        self,
        before: Broadcast,
        after: Broadcast,
        r: Result<BroadcastListener, Self>,
    ) -> bool {
        &&& after.spec_generation() == before.spec_generation()
        &&& match caught_up(before.spec_generation(), self.listener.seen) {
            Some(generation) => r == Ok::<BroadcastListener, Self>(
                BroadcastListener { seen: generation },
            ) && after.spec_waiters() == without(before.spec_waiters(), self.task),
            None => r == Err::<BroadcastListener, Self>(self) && after.spec_waiters()
                == before.spec_waiters(),
        }
    }

    /// A source that has been signaled since the waiter last looked is ready
    /// now; any other is waited for until a signal gives notice.
    open spec fn deadline(&self, world: &Broadcast) -> GenericSleep {
        if world.spec_generation() != self.listener.seen {
            GenericSleep::spec_ready()
        } else {
            GenericSleep::NotifyTake(None)
        }
    }

    fn poll(self, world: &mut Broadcast) -> (r: Result<BroadcastListener, Self>) {
        let generation = world.generation();
        if generation != self.listener.seen {
            world.waiters.unregister(self.task);
            Ok(BroadcastListener { seen: generation })
        } else {
            Err(self)
        }
    }

    /// Giving the wait up takes the task out of the source's waiters.
    open spec fn abandons(self, before: Broadcast, after: Broadcast) -> bool {
        &&& after.spec_generation() == before.spec_generation()
        &&& after.spec_waiters() == without(before.spec_waiters(), self.task)
    }

    fn abandon(self, world: &mut Broadcast) {
        world.waiters.unregister(self.task);
    }

    fn sleep(&self, world: &Broadcast) -> (r: GenericSleep) {
        if world.generation != self.listener.seen {
            GenericSleep::ready()
        } else {
            GenericSleep::NotifyTake(None)
        }
    }
}

} // verus!
