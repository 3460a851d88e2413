//! A bounded first-in, first-out queue of plain values.

use vstd::prelude::*;
use crate::error::Error;

verus! {

/// A queue with room for a fixed number of items. Items leave at the front;
/// they enter at the back or, out of turn, at the front.
pub struct Queue<T: Copy> {
    items: Vec<T>,
    length: u32,
}

impl<T: Copy> View for Queue<T> {
    type V = Seq<T>;

    /// The items in the queue, the front first.
    closed spec fn view(&self) -> Seq<T> {
        self.items@
    }
}

impl<T: Copy> Queue<T> {
    /// The number of items that the queue has room for.
    pub closed spec fn capacity(&self) -> nat {
        self.length as nat
    }

    /// The queue holds no more than it has room for.
    pub open spec fn wf(&self) -> bool {
        self@.len() <= self.capacity()
    }

    /// An empty queue with room for `length` items.
    #[inline]
    pub fn new(length: u32) -> (r: Queue<T>)
        ensures
            r.wf(),
            r@ == Seq::<T>::empty(),
            r.capacity() == length,
    {
        Queue { items: Vec::new(), length }
    }

    /// An empty queue with room for `length` items, if the kernel could
    /// create the object behind it: `created` is the kernel's answer, and its
    /// failure is the constructor's.
    pub fn try_new(length: u32, created: Result<(), Error>) -> (r: Result<Queue<T>, Error>)
        ensures
            match created {
                Err(e) => r matches Err(x) && x == e,
                Ok(_) => r matches Ok(q) && q.wf() && q@ == Seq::<T>::empty() && q.capacity()
                    == length,
            },
    {
        match created {
            Err(e) => Err(e),
            Ok(_) => Ok(Queue::new(length)),
        }
    }

    /// Posts `item` to the front of the queue. A full queue stays as it is
    /// and the item comes back.
    pub fn prepend(&mut self, item: T) -> (r: Result<(), T>)
        requires
            old(self).wf(),
        ensures
            final(self).wf(),
            final(self).capacity() == old(self).capacity(),
            old(self)@.len() < old(self).capacity() ==> r == Ok::<(), T>(()) && final(self)@
                == seq![item] + old(self)@,
            old(self)@.len() == old(self).capacity() ==> r == Err::<(), T>(item) && final(self)@
                == old(self)@,
    {
        if self.items.len() < self.length as usize {
            self.items.insert(0, item);
            proof {
                assert(self@ =~= seq![item] + old(self)@);
            }
            Ok(())
        } else {
            Err(item)
        }
    }

    /// Posts `item` to the back of the queue. A full queue stays as it is and
    /// the item comes back.
    pub fn append(&mut self, item: T) -> (r: Result<(), T>)
        requires
            old(self).wf(),
        ensures
            final(self).wf(),
            final(self).capacity() == old(self).capacity(),
            old(self)@.len() < old(self).capacity() ==> r == Ok::<(), T>(()) && final(self)@
                == old(self)@.push(item),
            old(self)@.len() == old(self).capacity() ==> r == Err::<(), T>(item) && final(self)@
                == old(self)@,
    {
        if self.items.len() < self.length as usize {
            self.items.push(item);
            Ok(())
        } else {
            Err(item)
        }
    }

    /// A copy of the item at the front, which stays in the queue; `None` if
    /// the queue is empty.
    pub fn peek(&self) -> (r: Option<T>)
        ensures
            self@.len() > 0 ==> r == Some(self@[0]),
            self@.len() == 0 ==> r is None,
    {
        if self.items.len() > 0 {
            Some(self.items[0])
        } else {
            None
        }
    }

    /// Takes the item at the front out of the queue; `None` if the queue is
    /// empty.
    pub fn recv(&mut self) -> (r: Option<T>)
        requires
            old(self).wf(),
        ensures
            final(self).wf(),
            final(self).capacity() == old(self).capacity(),
            old(self)@.len() > 0 ==> r == Some(old(self)@[0]) && final(self)@ == old(self)@.subrange(1, old(self)@.len() as int),
            old(self)@.len() == 0 ==> r is None && final(self)@ == old(self)@,
    {
        if self.items.len() > 0 {
            let item = self.items.remove(0);
            proof {
                assert(self@ =~= old(self)@.subrange(1, old(self)@.len() as int));
            }
            Some(item)
        } else {
            None
        }
    }

    /// The number of items in the queue.
    #[inline]
    pub fn waiting(&self) -> (r: u32)
        requires
            self.wf(),
        ensures
            r == self@.len(),
    {
        self.items.len() as u32
    }

    /// The number of items that can still be added.
    #[inline]
    pub fn available(&self) -> (r: u32)
        requires
            self.wf(),
        ensures
            r == self.capacity() - self@.len(),
    {
        self.length - (self.items.len() as u32)
    }

    /// Deletes every item.
    #[inline]
    pub fn clear(&mut self)
        ensures
            final(self).wf(),
            final(self)@ == Seq::<T>::empty(),
            final(self).capacity() == old(self).capacity(),
    {
        self.items.clear();
    }
}

} // verus!
