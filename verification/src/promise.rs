//! A write-once cell that many tasks can wait on.

use vstd::prelude::*;
use core::marker::PhantomData;
use crate::event::{with, without, Event};
use crate::select::{Selectable, World};
use crate::sleep::GenericSleep;
use crate::task::Task;

verus! {

/// A cell that is written at most once. Before that, tasks can wait for its
/// value; after that, the value is there to be read as often as wished.
pub struct Promise<T> {
    value: Option<T>,
    waiters: Event,
}

/// The event that a promise has been fulfilled, waited for by one task.
pub struct PromiseSelect<T> {
    /// The task that waits.
    pub task: Task,
    /// Stands for the type of the promised value.
    pub marker: PhantomData<T>,
}

/// The value of a promise after an attempt to fulfill it with `value`: the
/// first value stays, whatever is offered later.
pub open spec fn fulfilled_with<T>(before: Option<T>, value: T) -> Option<T> {
    match before {
        Some(first) => Some(first),
        None => Some(value),
    }
}

/// Of two attempts to fulfill a promise that was empty, the first decides:
/// its value is the promise's value after both, and so after any number of
/// further attempts.
pub proof fn lemma_first_fulfillment_stands<T>(first: T, second: T)
    ensures
        fulfilled_with(None, first) == Some(first),
        fulfilled_with(fulfilled_with(None, first), second) == Some(first),
{
}

impl<T> Promise<T> {
    /// The promised value, once it is there.
    pub closed spec fn spec_value(&self) -> Option<T> {
        self.value
    }

    /// The tasks that wait for the value.
    pub closed spec fn spec_waiters(&self) -> Seq<Task> {
        self.waiters@
    }

    /// A promise without a value and without waiters.
    pub fn new() -> (r: Promise<T>)
        ensures
            r.wf(),
            r.spec_value() is None,
            r.spec_waiters() == Seq::<Task>::empty(),
    {
        Promise { value: None, waiters: Event::new() }
    }

    /// Fulfills the promise with `value` and returns the tasks that wait for
    /// it, which are to be woken. A promise is fulfilled once: a second
    /// attempt is refused, the promise keeps its first value, and the value
    /// that was offered comes back as the error.
    pub fn fulfill(&mut self, value: T) -> (r: Result<Vec<Task>, T>)
        requires
            old(self).wf(),
        ensures
            final(self).wf(),
            final(self).spec_waiters() == old(self).spec_waiters(),
            final(self).spec_value() == fulfilled_with(old(self).spec_value(), value),
            match old(self).spec_value() {
                None => r matches Ok(wake) && wake@ == old(self).spec_waiters(),
                Some(_) => r == Err::<Vec<Task>, T>(value),
            },
    {
        if self.value.is_some() {
            Err(value)
        } else {
            self.value = Some(value);
            Ok(self.waiters.notify())
        }
    }

    /// Whether the promise has been fulfilled.
    pub fn is_fulfilled(&self) -> (r: bool)
        ensures
            r == self.spec_value().is_some(),
    {
        self.value.is_some()
    }

    /// The promised value, if it is there. Reading it changes nothing.
    pub fn get(&self) -> (r: Option<&T>)
        ensures
            match self.spec_value() {
                Some(v) => r matches Some(x) && *x == v,
                None => r is None,
            },
    {
        self.value.as_ref()
    }

    /// The event that the promise has been fulfilled, for `task` to wait on.
    /// The task joins the promise's waiters, once however often it asks.
    pub fn wait(&mut self, task: Task) -> (r: PromiseSelect<T>)
        requires
            old(self).wf(),
        ensures
            final(self).wf(),
            final(self).spec_value() == old(self).spec_value(),
            final(self).spec_waiters() == with(old(self).spec_waiters(), task),
            r.task == task,
    {
        self.waiters.register(task);
        PromiseSelect { task, marker: PhantomData }
    }
}

impl<T> World for Promise<T> {
    /// No task waits twice.
    open spec fn wf(&self) -> bool {
        self.spec_waiters().no_duplicates()
    }
}

impl<T> Selectable for PromiseSelect<T> {
    type Output = ();

    type World = Promise<T>;

    open spec fn valid(&self) -> bool {
        true
    }

    /// The event completes exactly when the promise holds a value. The value
    /// stays in the promise for everyone to read; the task leaves the
    /// waiters. While the promise is empty nothing changes.
    open spec fn resolves(self, before: Promise<T>, after: Promise<T>, r: Result<(), Self>) -> bool {
        &&& after.spec_value() == before.spec_value()
        &&& if before.spec_value() is Some {
            r == Ok::<(), Self>(()) && after.spec_waiters() == without(
                before.spec_waiters(),
                self.task,
            )
        } else {
            r == Err::<(), Self>(self) && after.spec_waiters() == before.spec_waiters()
        }
    }

    /// A fulfilled promise is ready now; an empty one is waited for until
    /// its fulfillment gives notice.
    open spec fn deadline(&self, world: &Promise<T>) -> GenericSleep {
        if world.spec_value() is Some {
            GenericSleep::spec_ready()
        } else {
            GenericSleep::NotifyTake(None)
        }
    }

    fn poll(self, world: &mut Promise<T>) -> (r: Result<(), Self>) {
        if world.value.is_some() {
            world.waiters.unregister(self.task);
            Ok(())
        } else {
            Err(self)
        }
    }

    /// Giving the wait up takes the task out of the promise's waiters.
    open spec fn abandons(self, before: Promise<T>, after: Promise<T>) -> bool {
        &&& after.spec_value() == before.spec_value()
        &&& after.spec_waiters() == without(before.spec_waiters(), self.task)
    }

    fn abandon(self, world: &mut Promise<T>) {
        world.waiters.unregister(self.task);
    }

    fn sleep(&self, world: &Promise<T>) -> (r: GenericSleep) {
        if world.value.is_some() {
            GenericSleep::ready()
        } else {
            GenericSleep::NotifyTake(None)
        }
    }
}

} // verus!
