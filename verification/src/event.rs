//! The notification registry: the tasks that wait for something to happen,
//! and the handle by which one of them takes part in a single wait.

use vstd::prelude::*;
use crate::task::Task;

verus! {

/// The waiters `s` without `task`: unchanged if `task` is not among them.
pub open spec fn without(s: Seq<Task>, task: Task) -> Seq<Task> {
    if s.contains(task) {
        s.remove(s.index_of(task))
    } else {
        s
    }
}

/// The waiters `s` with `task`: unchanged if `task` is among them already.
pub open spec fn with(s: Seq<Task>, task: Task) -> Seq<Task> {
    if s.contains(task) {
        s
    } else {
        s.push(task)
    }
}

/// An unordered registry of waiting tasks. Each task is in it at most once.
pub struct Event {
    waiters: Vec<Task>,
}

impl View for Event {
    type V = Seq<Task>;

    /// The registered tasks, in the order in which they came.
    closed spec fn view(&self) -> Seq<Task> {
        self.waiters@
    }
}

impl Event {
    /// No task is registered twice.
    pub open spec fn wf(&self) -> bool {
        self@.no_duplicates()
    }

    /// Whether `task` is registered.
    pub open spec fn has(&self, task: Task) -> bool {
        self@.contains(task)
    }

    /// A registry without waiters.
    pub fn new() -> (r: Event)
        ensures
            r@ == Seq::<Task>::empty(),
            r.wf(),
    {
        Event { waiters: Vec::new() }
    }

    /// The place of `task` in the registry, if it is registered.
    fn position(&self, task: Task) -> (r: Option<usize>)
        ensures
            match r {
                Some(i) => i < self@.len() && self@[i as int] == task,
                None => !self.has(task),
            },
    {
        let mut i: usize = 0;
        while i < self.waiters.len()
            invariant
                i <= self.waiters@.len(),
                forall|j: int| 0 <= j < i ==> self.waiters@[j] != task,
            decreases self.waiters@.len() - i,
        {
            if self.waiters[i] == task {
                return Some(i);
            }
            i += 1;
        }
        None
    }

    /// Whether `task` is registered.
    pub fn is_registered(&self, task: Task) -> (r: bool)
        ensures
            r == self.has(task),
    {
        self.position(task).is_some()
    }

    /// Adds `task` to the waiters. Registering a task that is registered
    /// already changes nothing.
    pub fn register(&mut self, task: Task)
        requires
            old(self).wf(),
        ensures
            final(self).wf(),
            final(self).has(task),
            final(self)@ == with(old(self)@, task),
    {
        if self.position(task).is_none() {
            self.waiters.push(task);
            proof {
                assert(self@.last() == task);
                assert(self@[self@.len() - 1] == task);
            }
        }
    }

    /// Takes `task` out of the waiters. Removing a task that is not registered
    /// changes nothing.
    pub fn unregister(&mut self, task: Task)
        requires
            old(self).wf(),
        ensures
            final(self).wf(),
            !final(self).has(task),
            final(self)@ == without(old(self)@, task),
            forall|t: Task| t != task ==> final(self).has(t) == old(self).has(t),
    {
        match self.position(task) {
            None => {},
            Some(i) => {
                let ghost before = self@;
                self.waiters.remove(i);
                proof {
                    let after = self@;
                    assert(before.index_of(task) == i as int);
                    assert forall|a: int, b: int|
                        0 <= a < after.len() && 0 <= b < after.len() && a != b implies after[a]
                        != after[b] by {
                        let a0 = if a < i { a } else { a + 1 };
                        let b0 = if b < i { b } else { b + 1 };
                        assert(after[a] == before[a0]);
                        assert(after[b] == before[b0]);
                    }
                    assert forall|j: int| 0 <= j < after.len() implies after[j] != task by {
                        let j0 = if j < i { j } else { j + 1 };
                        assert(after[j] == before[j0]);
                    }
                    assert forall|t: Task| t != task implies after.contains(t) == before.contains(
                        t,
                    ) by {
                        if before.contains(t) {
                            let k = choose|k: int| 0 <= k < before.len() && before[k] == t;
                            let k1 = if k < i { k } else { k - 1 };
                            assert(after[k1] == t);
                        }
                        if after.contains(t) {
                            let k = choose|k: int| 0 <= k < after.len() && after[k] == t;
                            let k0 = if k < i { k } else { k + 1 };
                            assert(before[k0] == t);
                        }
                    }
                }
            },
        }
    }

    /// The tasks to wake: every registered waiter, each of whose notification
    /// counters the kernel is to increment once. The registry itself is left
    /// as it is; a waiter leaves when its wait ends.
    pub fn notify(&self) -> (r: Vec<Task>)
        ensures
            r@ == self@,
    {
        self.waiters.clone()
    }

    /// The number of registered waiters.
    pub fn task_count(&self) -> (r: usize)
        ensures
            r == self@.len(),
    {
        self.waiters.len()
    }
}

/// Ties one task to one registry for the length of a single wait.
#[derive(Debug)]
pub struct EventHandle {
    task: Task,
    done: bool,
}

impl EventHandle {
    /// The task that waits.
    pub closed spec fn spec_task(&self) -> Task {
        self.task
    }

    /// Whether the wait is over and the task has left the registry.
    pub closed spec fn spec_done(&self) -> bool {
        self.done
    }

    /// The task that waits.
    pub fn task(&self) -> (r: Task)
        ensures
            r == self.spec_task(),
    {
        self.task
    }

    /// Whether the wait is over and the task has left the registry.
    pub fn is_done(&self) -> (r: bool)
        ensures
            r == self.spec_done(),
    {
        self.done
    }

    /// Ends the wait: the task leaves `event`. Clearing a handle a second time
    /// changes nothing.
    pub fn clear(&mut self, event: &mut Event)
        requires
            old(event).wf(),
        ensures
            final(event).wf(),
            final(self).spec_done(),
            final(self).spec_task() == old(self).spec_task(),
            old(self).spec_done() ==> final(event)@ == old(event)@,
            !old(self).spec_done() ==> final(event)@ == without(
                old(event)@,
                old(self).spec_task(),
            ),
    {
        if !self.done {
            event.unregister(self.task);
            self.done = true;
        }
    }
}

/// Registers `task` on `event` for one wait and returns the handle that ends
/// it.
pub fn handle_event(event: &mut Event, task: Task) -> (r: EventHandle)
    requires
        old(event).wf(),
    ensures
        final(event).wf(),
        final(event).has(task),
        final(event)@ == with(old(event)@, task),
        r.spec_task() == task,
        !r.spec_done(),
{
    event.register(task);
    EventHandle { task, done: false }
}

} // verus!
