//! A counting semaphore: a bounded counter that tasks decrement to pass and
//! increment to let others pass.

use vstd::prelude::*;
use crate::error::Error;

verus! {

/// Why an operation on a semaphore did not go through.
#[derive(Clone, Copy, Debug, PartialEq, Eq, Structural)]
pub enum SemaphoreError {
    /// The counter stayed at zero for the whole of the wait.
    TimedOut,
    /// The counter is at its bound and cannot be raised.
    Full,
}

/// A counting semaphore.
#[derive(Debug)]
pub struct Semaphore {
    max_count: u32,
    count: u32,
}

impl Semaphore {
    /// The bound of the counter.
    pub closed spec fn spec_max(&self) -> nat {
        self.max_count as nat
    }

    /// The counter.
    pub closed spec fn spec_count(&self) -> nat {
        self.count as nat
    }

    /// The counter is within its bound.
    pub open spec fn wf(&self) -> bool {
        self.spec_count() <= self.spec_max()
    }

    /// A semaphore bounded by `max_count` that starts at `init_count`.
    pub fn new(max_count: u32, init_count: u32) -> (r: Semaphore)
        requires
            init_count <= max_count,
        ensures
            r.wf(),
            r.spec_max() == max_count,
            r.spec_count() == init_count,
    {
        Semaphore { max_count, count: init_count }
    }

    /// A semaphore bounded by `max_count` that starts at `init_count`, if the
    /// kernel could create the object behind it: `created` is the kernel's
    /// answer, and its failure is the constructor's. A start above the bound
    /// is lowered to the bound.
    pub fn try_new(max_count: u32, init_count: u32, created: Result<(), Error>) -> (r: Result<
        Semaphore,
        Error,
    >)
        ensures
            match created {
                Err(e) => r matches Err(x) && x == e,
                Ok(_) => r matches Ok(s) && s.wf() && s.spec_max() == max_count && s.spec_count()
                    == if init_count <= max_count {
                    init_count
                } else {
                    max_count
                },
            },
    {
        match created {
            Err(e) => Err(e),
            Ok(_) => Ok(
                Semaphore {
                    max_count,
                    count: if init_count <= max_count {
                        init_count
                    } else {
                        max_count
                    },
                },
            ),
        }
    }

    /// The counter's value.
    pub fn count(&self) -> (r: u32)
        ensures
            r == self.spec_count(),
    {
        self.count
    }

    /// Takes one unit if there is one, without waiting. Says whether it did.
    pub fn poll(&mut self) -> (r: bool)
        requires
            old(self).wf(),
        ensures
            final(self).wf(),
            final(self).spec_max() == old(self).spec_max(),
            r == (old(self).spec_count() > 0),
            r ==> final(self).spec_count() == old(self).spec_count() - 1,
            !r ==> final(self).spec_count() == old(self).spec_count(),
    {
        if self.count > 0 {
            self.count = self.count - 1;
            true
        } else {
            false
        }
    }

    /// The outcome of a wait during which no other task posts: one unit is
    /// taken if there is one, and the wait times out if there is none. A
    /// timeout is an ordinary result, for the caller to handle.
    pub fn wait(&mut self) -> (r: Result<(), SemaphoreError>)
        requires
            old(self).wf(),
        ensures
            final(self).wf(),
            final(self).spec_max() == old(self).spec_max(),
            old(self).spec_count() > 0 ==> r == Ok::<(), SemaphoreError>(()) && final(self).spec_count() == old(self).spec_count() - 1,
            old(self).spec_count() == 0 ==> r == Err::<(), SemaphoreError>(
                SemaphoreError::TimedOut,
            ) && final(self).spec_count() == 0,
    {
        if self.poll() {
            Ok(())
        } else {
            Err(SemaphoreError::TimedOut)
        }
    }

    /// Adds one unit, without waiting. A counter at its bound stays there and
    /// the post is refused.
    pub fn post(&mut self) -> (r: Result<(), SemaphoreError>)
        requires
            old(self).wf(),
        ensures
            final(self).wf(),
            final(self).spec_max() == old(self).spec_max(),
            old(self).spec_count() < old(self).spec_max() ==> r == Ok::<(), SemaphoreError>(())
                && final(self).spec_count() == old(self).spec_count() + 1,
            old(self).spec_count() == old(self).spec_max() ==> r == Err::<(), SemaphoreError>(
                SemaphoreError::Full,
            ) && final(self).spec_count() == old(self).spec_count(),
    {
        if self.count < self.max_count {
            self.count = self.count + 1;
            Ok(())
        } else {
            Err(SemaphoreError::Full)
        }
    }
}

} // verus!
