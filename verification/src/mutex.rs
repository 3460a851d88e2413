//! A recursive mutex around a value: at most one task holds it at a time, and
//! the task that holds it may take it again.

use vstd::prelude::*;
use crate::error::Error;
use crate::task::Task;

verus! {

/// What a mutex holds: the protected value, and who has locked it how often.
pub struct MutexState<T> {
    /// The protected value.
    pub data: T,
    /// The task that holds the mutex, if it is held.
    pub holder: Option<Task>,
    /// How many times the holder has taken the mutex and not yet given it
    /// back.
    pub depth: nat,
}

impl<T> MutexState<T> {
    /// A mutex is held exactly while its holder has unreturned acquisitions.
    pub open spec fn wf(self) -> bool {
        (self.holder is None) == (self.depth == 0)
    }

    /// Whether `task` can take the mutex now: it is free, or `task` itself
    /// holds it.
    pub open spec fn available_to(self, task: Task) -> bool {
        self.holder is None || self.holder == Some(task)
    }

    /// The mutex after `task` has taken it once more.
    pub open spec fn acquire(self, task: Task) -> Self {
        MutexState { data: self.data, holder: Some(task), depth: self.depth + 1 }
    }

    /// The mutex after its holder has given it back once.
    pub open spec fn release(self) -> Self {
        MutexState {
            data: self.data,
            holder: if self.depth <= 1 {
                None
            } else {
                self.holder
            },
            depth: (self.depth - 1) as nat,
        }
    }
}

/// While one task holds a mutex no other task can take it, however often the
/// holder takes it again; and once the holder has given back every
/// acquisition, the mutex is as it was before.
pub proof fn lemma_mutual_exclusion<T>(s: MutexState<T>, holder: Task, other: Task)
    requires
        s.wf(),
        s.available_to(holder),
        holder != other,
    ensures
        s.acquire(holder).wf(),
        !s.acquire(holder).available_to(other),
        s.acquire(holder).available_to(holder),
        !s.acquire(holder).acquire(holder).available_to(other),
        s.acquire(holder).acquire(holder).release().release().depth == s.depth,
        s.holder is None ==> s.acquire(holder).release() == s,
{
}

/// A value protected by a recursive mutex.
pub struct Mutex<T> {
    data: T,
    holder: Option<Task>,
    depth: u32,
}

/// One acquisition of a mutex by one task. Handing it back to the mutex
/// releases that acquisition.
#[derive(Debug)]
pub struct MutexGuard {
    task: Task,
}

impl MutexGuard {
    /// The task that holds the acquisition.
    pub closed spec fn spec_task(&self) -> Task {
        self.task
    }

    /// The task that holds the acquisition.
    pub fn task(&self) -> (r: Task)
        ensures
            r == self.spec_task(),
    {
        self.task
    }
}

impl<T> View for Mutex<T> {
    type V = MutexState<T>;

    closed spec fn view(&self) -> MutexState<T> {
        MutexState { data: self.data, holder: self.holder, depth: self.depth as nat }
    }
}

impl<T> Mutex<T> {
    /// The mutex's invariant: that of its state.
    pub open spec fn wf(&self) -> bool {
        self@.wf()
    }

    /// Whether `task` can take the mutex now and the count of its
    /// acquisitions has room for one more.
    pub open spec fn can_lock(&self, task: Task) -> bool {
        self@.available_to(task) && self@.depth < u32::MAX
    }

    /// A free mutex around `data`.
    #[inline]
    pub fn new(data: T) -> (r: Mutex<T>)
        ensures
            r.wf(),
            r@ == (MutexState { data, holder: None, depth: 0 }),
    {
        Mutex { data, holder: None, depth: 0 }
    }

    /// A free mutex around `data`, if the kernel could create the object
    /// behind it: `created` is the kernel's answer, and its failure is the
    /// constructor's.
    pub fn try_new(data: T, created: Result<(), Error>) -> (r: Result<Mutex<T>, Error>)
        ensures
            match created {
                Err(e) => r matches Err(x) && x == e,
                Ok(_) => r matches Ok(m) && m.wf() && m@ == (MutexState {
                    data,
                    holder: None,
                    depth: 0,
                }),
            },
    {
        match created {
            Err(e) => Err(e),
            Ok(_) => Ok(Mutex::new(data)),
        }
    }

    /// The task that holds the mutex, if it is held.
    pub fn holder(&self) -> (r: Option<Task>)
        ensures
            r == self@.holder,
    {
        self.holder
    }

    /// Whether `task` can take the mutex now.
    pub fn is_available_to(&self, task: Task) -> (r: bool)
        ensures
            r == self.can_lock(task),
    {
        let free = match self.holder {
            None => true,
            Some(t) => t == task,
        };
        free && self.depth < u32::MAX
    }

    /// Takes the mutex for `task`, which must be able to take it: a task
    /// that asks for a mutex held by another is suspended by the kernel until
    /// the mutex is free, and gets here only then.
    #[inline]
    pub fn lock(&mut self, task: Task) -> (r: MutexGuard)
        requires
            old(self).wf(),
            old(self).can_lock(task),
        ensures
            final(self).wf(),
            final(self)@ == old(self)@.acquire(task),
            r.spec_task() == task,
    {
        self.holder = Some(task);
        self.depth = self.depth + 1;
        MutexGuard { task }
    }

    /// Takes the mutex for `task` if that is possible at once, and returns
    /// `None` without any change if another task holds it.
    #[inline]
    pub fn poll(&mut self, task: Task) -> (r: Option<MutexGuard>)
        requires
            old(self).wf(),
        ensures
            final(self).wf(),
            old(self).can_lock(task) ==> (r matches Some(g) && g.spec_task() == task && final(self)@
                == old(self)@.acquire(task)),
            !old(self).can_lock(task) ==> r is None && final(self)@ == old(self)@,
    {
        if self.is_available_to(task) {
            Some(self.lock(task))
        } else {
            None
        }
    }

    /// Gives back the acquisition that `guard` stands for. The guard's task
    /// must hold the mutex. After the last acquisition is given back the
    /// mutex is free.
    pub fn unlock(&mut self, guard: MutexGuard)
        requires
            old(self).wf(),
            old(self)@.holder == Some(guard.spec_task()),
        ensures
            final(self).wf(),
            final(self)@ == old(self)@.release(),
    {
        self.depth = self.depth - 1;
        if self.depth == 0 {
            self.holder = None;
        }
    }

    /// Whether `guard` stands for an acquisition of this mutex that has not
    /// been given back.
    pub fn admits(&self, guard: &MutexGuard) -> (r: bool)
        ensures
            r == (self@.holder == Some(guard.spec_task())),
    {
        match self.holder {
            None => false,
            Some(t) => t == guard.task,
        }
    }

    /// The protected value, for the task that holds the mutex.
    pub fn get(&self, guard: &MutexGuard) -> (r: &T)
        requires
            self@.holder == Some(guard.spec_task()),
        ensures
            *r == self@.data,
    {
        &self.data
    }

    /// Replaces the protected value, for the task that holds the mutex, and
    /// returns the value that was there.
    pub fn replace(&mut self, guard: &MutexGuard, data: T) -> (r: T)
        requires
            old(self)@.holder == Some(guard.spec_task()),
        ensures
            r == old(self)@.data,
            final(self)@ == (MutexState { data, ..old(self)@ }),
    {
        let mut incoming = data;
        core::mem::swap(&mut self.data, &mut incoming);
        incoming
    }
}

} // verus!
