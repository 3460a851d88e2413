//! The rendezvous channel: an unbuffered handoff in which a send completes
//! only once a receive has taken the value.
//!
//! The channel's shared cell is a [`Channel`]. Pending receives live in an
//! arena inside the cell and are known outside it by their slot. A send
//! publishes a value, waits until every receive that was pending at that
//! moment has acknowledged, and then collects: either the value is gone, or it
//! comes back to the sender for another try.

use vstd::prelude::*;
use core::marker::PhantomData;
use crate::error::Error;
use crate::event::{with, without, Event};
use crate::select::{Selectable, World};
use crate::sleep::GenericSleep;
use crate::task::Task;

verus! {

/// One pending receive, as the shared cell records it.
#[derive(Clone, Copy, Debug, PartialEq, Eq, Structural)]
pub struct Slot {
    /// The task that receives.
    pub task: Task,
    /// The channel's parity when this receive last looked at the cell.
    pub seq: bool,
    /// Whether the receive still waits for a value.
    pub registered: bool,
}

/// The number of pending receives in `slots` that have not looked at the cell
/// since its parity became `seq`: each of them owes one acknowledgment.
pub open spec fn stale_count(slots: Seq<Slot>, seq: bool) -> nat
    decreases slots.len(),
{
    if slots.len() == 0 {
        0
    } else {
        stale_count(slots.drop_last(), seq) + if slots.last().registered && slots.last().seq
            != seq {
            1nat
        } else {
            0nat
        }
    }
}

/// The tasks of the pending receives in `slots`, in slot order.
pub open spec fn waiting_tasks(slots: Seq<Slot>) -> Seq<Task>
    decreases slots.len(),
{
    if slots.len() == 0 {
        Seq::empty()
    } else if slots.last().registered {
        waiting_tasks(slots.drop_last()).push(slots.last().task)
    } else {
        waiting_tasks(slots.drop_last())
    }
}

/// The first slot of `slots` from `from` on that holds no pending receive, or
/// the number of slots if there is none.
pub open spec fn free_slot_from(slots: Seq<Slot>, from: int) -> int
    decreases slots.len() - from,
{
    if from < 0 || from >= slots.len() {
        slots.len() as int
    } else if !slots[from].registered {
        from
    } else {
        free_slot_from(slots, from + 1)
    }
}

/// The slot that the next receive to join is given: the first one that holds
/// no pending receive, or a new one at the end of the arena.
pub open spec fn free_slot(slots: Seq<Slot>) -> int {
    free_slot_from(slots, 0)
}

/// The arena after a receive described by `entry` has joined it.
pub open spec fn joined(slots: Seq<Slot>, entry: Slot) -> Seq<Slot> {
    if free_slot(slots) < slots.len() {
        slots.update(free_slot(slots), entry)
    } else {
        slots.push(entry)
    }
}

/// What the shared cell of a channel holds.
pub struct ChannelState<T> {
    /// The value on offer, between its publication and its receipt.
    pub value: Option<T>,
    /// The parity bit, flipped by every publication.
    pub seq: bool,
    /// The arena of receives.
    pub slots: Seq<Slot>,
    /// The tasks with a send that waits for a receiver to appear.
    pub senders: Seq<Task>,
    /// The acknowledgments posted since the last publication.
    pub acks: nat,
    /// The acknowledgments that the sender in flight waits for.
    pub awaited: nat,
    /// Whether a send is in flight, which keeps every other send out.
    pub sending: bool,
}

impl<T> ChannelState<T> {
    /// The cell's invariant. Every acknowledgment that the sender waits for
    /// is either posted already or owed by a receive that is still pending;
    /// outside a send there is no value on offer and nothing is awaited.
    pub open spec fn wf(self) -> bool {
        &&& self.acks + stale_count(self.slots, self.seq) == self.awaited
        &&& self.senders.no_duplicates()
        &&& !self.sending ==> self.value is None && self.awaited == 0
    }

    /// Whether `slot` names a receive that is still pending.
    pub open spec fn holds(self, slot: int) -> bool {
        0 <= slot < self.slots.len() && self.slots[slot].registered
    }

    /// Whether the pending receive at `slot` owes an acknowledgment.
    pub open spec fn owes(self, slot: int) -> bool {
        self.holds(slot) && self.slots[slot].seq != self.seq
    }

    /// Whether the sender in flight has all the acknowledgments it waits for.
    pub open spec fn acknowledged(self) -> bool {
        self.acks == self.awaited
    }

    /// The cell after a new receive by `task` has joined the arena.
    pub open spec fn enroll(self, task: Task) -> Self {
        ChannelState {
            slots: joined(self.slots, Slot { task, seq: self.seq, registered: true }),
            ..self
        }
    }

    /// The cell after `value` has been published.
    pub open spec fn publish(self, value: T) -> Self {
        ChannelState {
            value: Some(value),
            seq: !self.seq,
            acks: 0,
            awaited: waiting_tasks(self.slots).len(),
            sending: true,
            ..self
        }
    }

    /// The cell after the sender in flight has collected.
    pub open spec fn collect(self) -> Self {
        ChannelState { value: None, acks: 0, awaited: 0, sending: false, ..self }
    }

    /// The cell after the receive at `slot` has polled it.
    pub open spec fn receive(self, slot: int) -> Self {
        ChannelState {
            value: None,
            slots: self.slots.update(
                slot,
                Slot { task: self.slots[slot].task, seq: self.seq, registered: self.value is None },
            ),
            acks: if self.owes(slot) {
                self.acks + 1
            } else {
                self.acks
            },
            ..self
        }
    }

    /// The cell after the receive at `slot` has been given up.
    pub open spec fn abandon(self, slot: int) -> Self {
        ChannelState {
            slots: self.slots.update(
                slot,
                Slot {
                    task: self.slots[slot].task,
                    seq: self.slots[slot].seq,
                    registered: false,
                },
            ),
            acks: if self.owes(slot) {
                self.acks + 1
            } else {
                self.acks
            },
            ..self
        }
    }
}

/// Replacing one slot changes the number of owed acknowledgments by what the
/// old and the new slot owe.
pub proof fn lemma_stale_update(slots: Seq<Slot>, seq: bool, i: int, s: Slot)
    requires
        0 <= i < slots.len(),
    ensures
        stale_count(slots.update(i, s), seq) + (if slots[i].registered && slots[i].seq != seq {
            1nat
        } else {
            0nat
        }) == stale_count(slots, seq) + (if s.registered && s.seq != seq {
            1nat
        } else {
            0nat
        }),
    decreases slots.len(),
{
    let after = slots.update(i, s);
    if i == slots.len() - 1 {
        assert(after.drop_last() =~= slots.drop_last());
    } else {
        assert(after.drop_last() =~= slots.drop_last().update(i, s));
        lemma_stale_update(slots.drop_last(), seq, i, s);
    }
}

/// The slot given to the next receive is either a slot of the arena that
/// holds no pending receive, or the place just after the arena's end.
pub proof fn lemma_free_slot(slots: Seq<Slot>, from: int)
    requires
        0 <= from <= slots.len(),
    ensures
        from <= free_slot_from(slots, from) <= slots.len(),
        free_slot_from(slots, from) < slots.len() ==> !slots[free_slot_from(
            slots,
            from,
        )].registered,
        forall|i: int| from <= i < free_slot_from(slots, from) ==> (#[trigger] slots[i]).registered,
    decreases slots.len() - from,
{
    if from < slots.len() && slots[from].registered {
        lemma_free_slot(slots, from + 1);
    }
}

/// Replacing one slot changes the number of pending receives by whether the
/// old and the new slot are pending.
pub proof fn lemma_waiting_update(slots: Seq<Slot>, i: int, s: Slot)
    requires
        0 <= i < slots.len(),
    ensures
        waiting_tasks(slots.update(i, s)).len() + (if slots[i].registered {
            1nat
        } else {
            0nat
        }) == waiting_tasks(slots).len() + (if s.registered {
            1nat
        } else {
            0nat
        }),
    decreases slots.len(),
{
    let after = slots.update(i, s);
    if i == slots.len() - 1 {
        assert(after.drop_last() =~= slots.drop_last());
    } else {
        assert(after.drop_last() =~= slots.drop_last().update(i, s));
        lemma_waiting_update(slots.drop_last(), i, s);
    }
}

/// A receive that joins the arena is pending in the slot it is given, and
/// every other slot stays as it was. A receive that is level with the parity
/// adds nothing to what is owed, and one more receive is pending.
pub proof fn lemma_joined(slots: Seq<Slot>, entry: Slot, seq: bool)
    requires
        entry.registered,
    ensures
        0 <= free_slot(slots) < joined(slots, entry).len(),
        joined(slots, entry)[free_slot(slots)] == entry,
        forall|i: int|
            0 <= i < slots.len() && i != free_slot(slots) ==> i < joined(slots, entry).len()
                && #[trigger] joined(slots, entry)[i] == slots[i],
        entry.seq == seq ==> stale_count(joined(slots, entry), seq) == stale_count(slots, seq),
        waiting_tasks(joined(slots, entry)).len() == waiting_tasks(slots).len() + 1,
{
    lemma_free_slot(slots, 0);
    let slot = free_slot(slots);
    if slot < slots.len() {
        lemma_stale_update(slots, seq, slot, entry);
        lemma_waiting_update(slots, slot, entry);
    } else {
        assert(slots.push(entry).drop_last() =~= slots);
    }
}

/// Nothing is owed exactly when no pending receive is behind the parity.
pub proof fn lemma_stale_none(slots: Seq<Slot>, seq: bool)
    ensures
        stale_count(slots, seq) == 0 <==> forall|i: int|
            0 <= i < slots.len() ==> !(#[trigger] slots[i].registered && slots[i].seq != seq),
    decreases slots.len(),
{
    if slots.len() > 0 {
        let rest = slots.drop_last();
        lemma_stale_none(rest, seq);
        assert(forall|i: int| 0 <= i < rest.len() ==> rest[i] == slots[i]);
        if stale_count(slots, seq) == 0 {
            assert forall|i: int| 0 <= i < slots.len() implies !(#[trigger] slots[i].registered
                && slots[i].seq != seq) by {
                if i < rest.len() {
                    assert(rest[i] == slots[i]);
                }
            }
        }
    }
}

/// Once every pending receive has caught up, a flip of the parity makes each
/// of them owe one acknowledgment.
pub proof fn lemma_stale_after_flip(slots: Seq<Slot>, seq: bool)
    requires
        stale_count(slots, seq) == 0,
    ensures
        stale_count(slots, !seq) == waiting_tasks(slots).len(),
    decreases slots.len(),
{
    if slots.len() > 0 {
        lemma_stale_after_flip(slots.drop_last(), seq);
    }
}

/// Polling a pending receive keeps the cell's invariant, settles what that
/// receive owed and leaves every other receive as it was.
pub proof fn lemma_receive_keeps_invariant<T>(s: ChannelState<T>, slot: int)
    requires
        s.wf(),
        s.holds(slot),
    ensures
        s.receive(slot).wf(),
        !s.receive(slot).owes(slot),
        s.receive(slot).awaited == s.awaited,
        forall|other: int|
            other != slot ==> s.receive(slot).owes(other) == s.owes(other) && s.receive(
                slot,
            ).holds(other) == s.holds(other),
{
    let synced = Slot { task: s.slots[slot].task, seq: s.seq, registered: s.value is None };
    lemma_stale_update(s.slots, s.seq, slot, synced);
}

/// Giving up a receive keeps the cell's invariant, settles what that receive
/// owed, takes it out of the pending receives and leaves every other receive
/// as it was. If no other receive owes anything, the sender in flight has all
/// its acknowledgments afterwards.
pub proof fn lemma_abandon_settles<T>(s: ChannelState<T>, slot: int)
    requires
        s.wf(),
        0 <= slot < s.slots.len(),
    ensures
        s.abandon(slot).wf(),
        !s.abandon(slot).holds(slot),
        s.abandon(slot).awaited == s.awaited,
        s.abandon(slot).value == s.value,
        forall|other: int|
            other != slot ==> s.abandon(slot).owes(other) == s.owes(other) && s.abandon(
                slot,
            ).holds(other) == s.holds(other),
        (forall|other: int| other != slot ==> !s.owes(other)) ==> s.abandon(slot).acknowledged(),
{
    let gone = Slot { task: s.slots[slot].task, seq: s.slots[slot].seq, registered: false };
    lemma_stale_update(s.slots, s.seq, slot, gone);
    let after = s.abandon(slot);
    if forall|other: int| other != slot ==> !s.owes(other) {
        assert forall|i: int| 0 <= i < after.slots.len() implies !(
        #[trigger] after.slots[i].registered && after.slots[i].seq != after.seq) by {
            if i != slot {
                assert(!s.owes(i));
            }
        }
        lemma_stale_none(after.slots, after.seq);
    }
}

/// A receive that has been given up is not waited for by any later send: it
/// is not among the receives that the next publication notifies and counts,
/// and it owes that publication nothing.
pub proof fn lemma_abandoned_never_awaited<T>(s: ChannelState<T>, slot: int, value: T)
    requires
        s.wf(),
        0 <= slot < s.slots.len(),
        !s.sending,
    ensures
        s.abandon(slot).wf(),
        s.abandon(slot).publish(value).wf(),
        !s.abandon(slot).publish(value).owes(slot),
        s.holds(slot) ==> s.abandon(slot).publish(value).awaited + 1 == s.publish(value).awaited,
{
    lemma_abandon_settles(s, slot);
    lemma_publish_keeps_invariant(s.abandon(slot), value);
    let gone = Slot { task: s.slots[slot].task, seq: s.slots[slot].seq, registered: false };
    lemma_waiting_update(s.slots, slot, gone);
}

/// The sender in flight has all its acknowledgments exactly when no pending
/// receive owes one. A receive that has been given up is not pending, so it
/// can never hold the sender back.
pub proof fn lemma_acknowledged_iff_settled<T>(s: ChannelState<T>)
    requires
        s.wf(),
    ensures
        s.acknowledged() <==> forall|slot: int| !s.owes(slot),
{
    lemma_stale_none(s.slots, s.seq);
    if s.acknowledged() {
        assert forall|slot: int| !s.owes(slot) by {
            if s.holds(slot) {
                assert(!(s.slots[slot].registered && s.slots[slot].seq != s.seq));
            }
        }
    }
    if forall|slot: int| !s.owes(slot) {
        assert forall|i: int| 0 <= i < s.slots.len() implies !(#[trigger] s.slots[i].registered
            && s.slots[i].seq != s.seq) by {
            assert(!s.owes(i));
        }
    }
}

/// Publishing on an idle cell keeps the invariant, puts the value on offer and
/// makes every pending receive owe exactly one acknowledgment, which is what
/// the sender then waits for.
pub proof fn lemma_publish_keeps_invariant<T>(s: ChannelState<T>, value: T)
    requires
        s.wf(),
        !s.sending,
    ensures
        s.publish(value).wf(),
        s.publish(value).value == Some(value),
        s.publish(value).awaited == waiting_tasks(s.slots).len(),
        forall|slot: int| s.publish(value).holds(slot) == s.holds(slot),
        forall|slot: int| s.holds(slot) ==> s.publish(value).owes(slot),
{
    lemma_stale_after_flip(s.slots, s.seq);
    lemma_stale_none(s.slots, s.seq);
    assert forall|slot: int| s.holds(slot) implies s.publish(value).owes(slot) by {
        assert(!(s.slots[slot].registered && s.slots[slot].seq != s.seq));
    }
}

/// A published value is handed over exactly once. Of two receives that were
/// pending when `value` was published, the one that polls first finds it on
/// offer and ends; the one that polls next finds nothing and stays pending.
/// Both have acknowledged by then.
pub proof fn lemma_handoff_exactly_once<T>(s: ChannelState<T>, value: T, first: int, second: int)
    requires
        s.wf(),
        !s.sending,
        s.holds(first),
        s.holds(second),
        first != second,
    ensures
        s.publish(value).value == Some(value),
        s.publish(value).receive(first).value is None,
        !s.publish(value).receive(first).holds(first),
        s.publish(value).receive(first).receive(second).value is None,
        s.publish(value).receive(first).receive(second).holds(second),
        s.publish(value).receive(first).receive(second).acks == 2,
        s.publish(value).receive(first).receive(second).wf(),
{
    let s1 = s.publish(value);
    lemma_publish_keeps_invariant(s, value);
    assert(s1.owes(first) && s1.owes(second));
    lemma_receive_keeps_invariant(s1, first);
    let s2 = s1.receive(first);
    assert(s2.owes(second));
    lemma_receive_keeps_invariant(s2, second);
}

/// One whole handoff on a cell without other receives: a receive joins, the
/// value is published, the receive polls and finds exactly that value, and
/// the sender has all its acknowledgments and collects with nothing left. The
/// cell is then idle and without pending receives again, so the next value
/// can go the same way: values arrive one by one, in the order of the sends.
pub proof fn lemma_round_delivers<T>(s: ChannelState<T>, task: Task, value: T)
    requires
        s.wf(),
        !s.sending,
        waiting_tasks(s.slots).len() == 0,
    ensures
        s.enroll(task).publish(value).value == Some(value),
        s.enroll(task).publish(value).awaited == 1,
        s.enroll(task).publish(value).receive(free_slot(s.slots)).acknowledged(),
        s.enroll(task).publish(value).receive(free_slot(s.slots)).value is None,
        handoff(s, task, value).wf(),
        !handoff(s, task, value).sending,
        waiting_tasks(handoff(s, task, value).slots).len() == 0,
{
    let slot = free_slot(s.slots);
    let entry = Slot { task, seq: s.seq, registered: true };
    lemma_joined(s.slots, entry, s.seq);
    let s1 = s.enroll(task);
    assert(s1.wf());
    lemma_publish_keeps_invariant(s1, value);
    let s2 = s1.publish(value);
    assert(s2.holds(slot));
    assert(s2.owes(slot));
    lemma_receive_keeps_invariant(s2, slot);
    let s3 = s2.receive(slot);
    assert(s3.awaited == 1);
    assert(s3.acks == 1);
    let ended = Slot { task, seq: s2.seq, registered: false };
    assert(s3.slots == s1.slots.update(slot, ended));
    lemma_waiting_update(s1.slots, slot, ended);
}

/// The cell after one whole handoff: a receive by `task` joins, `value` is
/// published, the receive polls, and the sender collects.
pub open spec fn handoff<T>(s: ChannelState<T>, task: Task, value: T) -> ChannelState<T> {
    s.enroll(task).publish(value).receive(free_slot(s.slots)).collect()
}

/// What the receive of such a handoff finds on offer when it polls.
pub open spec fn handed<T>(s: ChannelState<T>, task: Task, value: T) -> Option<T> {
    s.enroll(task).publish(value).value
}

/// The cell after `values` have been handed over one after another.
pub open spec fn handoffs<T>(s: ChannelState<T>, task: Task, values: Seq<T>) -> ChannelState<T>
    decreases values.len(),
{
    if values.len() == 0 {
        s
    } else {
        handoff(handoffs(s, task, values.drop_last()), task, values.last())
    }
}

/// What the receives of those handoffs found on offer, in the order of the
/// sends.
pub open spec fn handed_all<T>(s: ChannelState<T>, task: Task, values: Seq<T>) -> Seq<Option<T>>
    decreases values.len(),
{
    if values.len() == 0 {
        Seq::empty()
    } else {
        handed_all(s, task, values.drop_last()).push(
            handed(handoffs(s, task, values.drop_last()), task, values.last()),
        )
    }
}

/// Any number of values, sent one after another over a cell without other
/// receives, arrive each exactly once and in the order in which they were
/// sent; and the cell is idle and without pending receives afterwards.
pub proof fn lemma_values_arrive_in_send_order<T>(s: ChannelState<T>, task: Task, values: Seq<T>)
    requires
        s.wf(),
        !s.sending,
        waiting_tasks(s.slots).len() == 0,
    ensures
        handoffs(s, task, values).wf(),
        !handoffs(s, task, values).sending,
        waiting_tasks(handoffs(s, task, values).slots).len() == 0,
        handed_all(s, task, values).len() == values.len(),
        forall|i: int|
            0 <= i < values.len() ==> #[trigger] handed_all(s, task, values)[i] == Some(values[i]),
    decreases values.len(),
{
    if values.len() > 0 {
        let front = values.drop_last();
        lemma_values_arrive_in_send_order(s, task, front);
        lemma_round_delivers(handoffs(s, task, front), task, values.last());
        assert forall|i: int| 0 <= i < values.len() implies #[trigger] handed_all(
            s,
            task,
            values,
        )[i] == Some(values[i]) by {
            if i < front.len() {
                assert(handed_all(s, task, front)[i] == Some(front[i]));
            }
        }
    }
}

/// The shared cell of a rendezvous channel.
pub struct Channel<T> {
    value: Option<T>,
    seq: bool,
    slots: Vec<Slot>,
    senders: Event,
    acks: usize,
    awaited: usize,
    sending: bool,
}

impl<T> View for Channel<T> {
    type V = ChannelState<T>;

    closed spec fn view(&self) -> ChannelState<T> {
        ChannelState {
            value: self.value,
            seq: self.seq,
            slots: self.slots@,
            senders: self.senders@,
            acks: self.acks as nat,
            awaited: self.awaited as nat,
            sending: self.sending,
        }
    }
}

/// What a poll of a pending receive found.
pub enum Received<T> {
    /// The value on offer, now taken: no other receive will see it.
    Value(T),
    /// Nothing was on offer. The receive stays pending, and the listed tasks,
    /// whose sends wait for a receiver, are to be woken.
    Pending(Vec<Task>),
}

impl<T> Channel<T> {
    /// An idle cell: no value, no receives, no sends.
    pub fn new() -> (r: Channel<T>)
        ensures
            r.wf(),
            r@ == (ChannelState::<T> {
                value: None,
                seq: false,
                slots: Seq::empty(),
                senders: Seq::empty(),
                acks: 0,
                awaited: 0,
                sending: false,
            }),
    {
        Channel {
            value: None,
            seq: false,
            slots: Vec::new(),
            senders: Event::new(),
            acks: 0,
            awaited: 0,
            sending: false,
        }
    }

    /// Whether `slot` names a receive that is still pending.
    pub fn holds(&self, slot: usize) -> (r: bool)
        ensures
            r == self@.holds(slot as int),
    {
        slot < self.slots.len() && self.slots[slot].registered
    }

    /// The number of slots in the arena of receives, pending or ended.
    pub fn slot_count(&self) -> (r: usize)
        ensures
            r == self@.slots.len(),
    {
        self.slots.len()
    }

    /// The number of acknowledgments posted since the last publication.
    pub fn acks(&self) -> (r: usize)
        ensures
            r == self@.acks,
    {
        self.acks
    }

    /// The number of acknowledgments that the sender in flight waits for.
    pub fn awaited(&self) -> (r: usize)
        ensures
            r == self@.awaited,
    {
        self.awaited
    }

    /// Whether a send is in flight.
    pub fn is_sending(&self) -> (r: bool)
        ensures
            r == self@.sending,
    {
        self.sending
    }

    /// Whether the sender in flight has all the acknowledgments it waits for,
    /// so that it may collect.
    pub fn acknowledged(&self) -> (r: bool)
        ensures
            r == self@.acknowledged(),
    {
        self.acks == self.awaited
    }

    /// The tasks with a send on this cell that has not completed. They are
    /// the ones to wake when an acknowledgment is posted or a receiver
    /// appears.
    pub fn senders(&self) -> (r: Vec<Task>)
        ensures
            r@ == self@.senders,
    {
        self.senders.notify()
    }

    /// The number of receives that are pending.
    pub fn receiver_count(&self) -> (r: usize)
        ensures
            r == waiting_tasks(self@.slots).len(),
    {
        let tasks = self.receivers();
        tasks.len()
    }

    /// The tasks of the pending receives, in slot order.
    pub fn receivers(&self) -> (r: Vec<Task>)
        ensures
            r@ == waiting_tasks(self@.slots),
    {
        let mut out: Vec<Task> = Vec::new();
        let mut i: usize = 0;
        while i < self.slots.len()
            invariant
                i <= self.slots@.len(),
                out@ == waiting_tasks(self.slots@.subrange(0, i as int)),
            decreases self.slots@.len() - i,
        {
            proof {
                assert(self.slots@.subrange(0, i + 1).drop_last() =~= self.slots@.subrange(
                    0,
                    i as int,
                ));
            }
            let s = self.slots[i];
            if s.registered {
                out.push(s.task);
            }
            i += 1;
        }
        proof {
            assert(self.slots@.subrange(0, i as int) =~= self.slots@);
        }
        out
    }

    /// Adds a pending receive by `task`, which has seen the cell as it is now
    /// and so owes nothing. Returns its slot: the first one that holds no
    /// pending receive, or a new one if all do.
    pub fn enroll(&mut self, task: Task) -> (slot: usize)
        requires
            old(self).wf(),
        ensures
            final(self).wf(),
            final(self)@ == old(self)@.enroll(task),
            slot == free_slot(old(self)@.slots),
            final(self)@.holds(slot as int),
            !final(self)@.owes(slot as int),
    {
        let entry = Slot { task, seq: self.seq, registered: true };
        proof {
            lemma_joined(self.slots@, entry, self.seq);
            lemma_free_slot(self.slots@, 0);
        }
        let mut slot: usize = 0;
        while slot < self.slots.len() && self.slots[slot].registered
            invariant
                slot <= self.slots@.len(),
                free_slot_from(self.slots@, slot as int) == free_slot(self.slots@),
            decreases self.slots@.len() - slot,
        {
            slot += 1;
        }
        if slot < self.slots.len() {
            self.slots.set(slot, entry);
        } else {
            self.slots.push(entry);
        }
        slot
    }

    /// Registers `task` as one whose send waits for a receiver to appear.
    /// A task that is registered already stays registered once.
    pub fn offer(&mut self, task: Task)
        requires
            old(self).wf(),
        ensures
            final(self).wf(),
            final(self)@ == (ChannelState {
                senders: with(old(self)@.senders, task),
                ..old(self)@
            }),
            final(self)@.senders.contains(task),
    {
        self.senders.register(task);
    }

    /// Takes `task` out of the senders that wait for a receiver. A task that is
    /// not among them changes nothing.
    pub fn withdraw(&mut self, task: Task)
        requires
            old(self).wf(),
        ensures
            final(self).wf(),
            final(self)@ == (ChannelState {
                senders: without(old(self)@.senders, task),
                ..old(self)@
            }),
            !final(self)@.senders.contains(task),
    {
        self.senders.unregister(task);
    }

    /// Publishes `value`: stores it, flips the parity, and returns the tasks of
    /// the receives that are pending, each of which is to be notified. The
    /// sender then waits for as many acknowledgments as tasks were returned.
    /// No other send may be in flight.
    pub fn publish(&mut self, value: T) -> (notified: Vec<Task>)
        requires
            old(self).wf(),
            !old(self)@.sending,
        ensures
            final(self).wf(),
            final(self)@ == old(self)@.publish(value),
            notified@ == waiting_tasks(old(self)@.slots),
            final(self)@.awaited == notified@.len(),
            forall|slot: int| final(self)@.holds(slot) ==> final(self)@.owes(slot),
    {
        let notified = self.receivers();
        proof {
            lemma_stale_after_flip(self.slots@, self.seq);
            lemma_stale_none(self.slots@, self.seq);
        }
        self.value = Some(value);
        self.seq = !self.seq;
        self.acks = 0;
        self.awaited = notified.len();
        self.sending = true;
        notified
    }

    /// Ends the send in flight, once it has all its acknowledgments. If no
    /// receive took the value it comes back as `Err`, for the sender to try
    /// again; otherwise the send has succeeded. Either way the cell is idle
    /// again, with no value on offer.
    pub fn collect(&mut self) -> (r: Result<(), T>)
        requires
            old(self).wf(),
            old(self)@.sending,
            old(self)@.acknowledged(),
        ensures
            final(self).wf(),
            final(self)@ == old(self)@.collect(),
            match old(self)@.value {
                Some(v) => r == Err::<(), T>(v),
                None => r == Ok::<(), T>(()),
            },
    {
        self.acks = 0;
        self.awaited = 0;
        self.sending = false;
        match self.value.take() {
            Some(v) => Err(v),
            None => Ok(()),
        }
    }

    /// Polls the pending receive at `slot`. A receive that has not looked at
    /// the cell since the last publication posts the acknowledgment it owes.
    /// Then it takes the value if one is on offer, which ends the receive;
    /// otherwise it stays pending and the senders that wait for a receiver
    /// are to be woken.
    pub fn receive(&mut self, slot: usize) -> (r: Received<T>)
        requires
            old(self).wf(),
            old(self)@.holds(slot as int),
        ensures
            final(self).wf(),
            final(self)@ == old(self)@.receive(slot as int),
            match old(self)@.value {
                Some(v) => r == Received::Value(v) && !final(self)@.holds(slot as int),
                None => r matches Received::Pending(wake) && wake@ == old(self)@.senders
                    && final(self)@.holds(slot as int),
            },
            !final(self)@.owes(slot as int),
            final(self)@.value is None,
    {
        let entry = self.slots[slot];
        let taken = self.value.take();
        let stays = taken.is_none();
        let synced = Slot { task: entry.task, seq: self.seq, registered: stays };
        proof {
            lemma_stale_update(self.slots@, self.seq, slot as int, synced);
        }
        if entry.seq != self.seq {
            self.acks = self.acks + 1;
        }
        self.slots.set(slot, synced);
        match taken {
            Some(v) => Received::Value(v),
            None => Received::Pending(self.senders.notify()),
        }
    }

    /// Gives up the receive at `slot`. If it is still pending and owes an
    /// acknowledgment, that acknowledgment is posted before the receive
    /// leaves, so that the sender in flight does not wait for it in vain.
    /// Giving up a receive that has ended changes nothing.
    pub fn abandon(&mut self, slot: usize)
        requires
            old(self).wf(),
            (slot as int) < old(self)@.slots.len(),
        ensures
            final(self).wf(),
            final(self)@ == old(self)@.abandon(slot as int),
            !final(self)@.holds(slot as int),
            !old(self)@.holds(slot as int) ==> final(self)@ == old(self)@,
            old(self)@.owes(slot as int) ==> final(self)@.acks == old(self)@.acks + 1,
            final(self)@.awaited - final(self)@.acks == stale_count(
                final(self)@.slots,
                final(self)@.seq,
            ),
    {
        let entry = self.slots[slot];
        let gone = Slot { task: entry.task, seq: entry.seq, registered: false };
        proof {
            lemma_stale_update(self.slots@, self.seq, slot as int, gone);
            if !entry.registered {
                assert(self.slots@.update(slot as int, gone) =~= self.slots@);
            }
        }
        if entry.registered && entry.seq != self.seq {
            self.acks = self.acks + 1;
        }
        self.slots.set(slot, gone);
    }

    /// The earliest time at which a send could go through: at once if a
    /// receive is pending, and else when a receiver gives notice.
    pub fn send_sleep(&self) -> (r: GenericSleep)
        ensures
            r == if waiting_tasks(self@.slots).len() == 0 {
                GenericSleep::NotifyTake(None)
            } else {
                GenericSleep::spec_ready()
            },
    {
        if self.receiver_count() == 0 {
            GenericSleep::NotifyTake(None)
        } else {
            GenericSleep::ready()
        }
    }

    /// The earliest time at which a receive could go through: when a sender
    /// gives notice.
    pub fn receive_sleep(&self) -> (r: GenericSleep)
        ensures
            r == GenericSleep::NotifyTake(None),
    {
        GenericSleep::NotifyTake(None)
    }
}

/// The sending end of a rendezvous channel: the right to offer values on the
/// cell it was made with.
pub struct SendChannel<T> {
    marker: PhantomData<T>,
}

/// The receiving end of a rendezvous channel: the right to take values from
/// the cell it was made with.
pub struct ReceiveChannel<T> {
    marker: PhantomData<T>,
}

/// A send that has not gone through yet.
pub struct SendSelect<T> {
    /// The value to hand over.
    pub value: T,
    /// The task that sends.
    pub task: Task,
}

/// A send whose value is published and which waits for its acknowledgments.
pub struct SendFlight {
    /// The task that sends.
    pub task: Task,
    /// The number of acknowledgments to wait for.
    pub awaited: usize,
}

/// A receive that has not gone through yet.
pub struct ReceiveSelect<T> {
    /// The place of the receive in the cell's arena.
    pub slot: usize,
    /// The tasks to wake after the last poll: the senders that waited for a
    /// receiver when that poll found nothing on offer.
    pub wake: Vec<Task>,
    /// Stands for the type of the values received.
    pub marker: PhantomData<T>,
}

impl<T> Clone for SendChannel<T> {
    fn clone(&self) -> (r: Self) {
        SendChannel { marker: PhantomData }
    }
}

impl<T> Clone for ReceiveChannel<T> {
    fn clone(&self) -> (r: Self) {
        ReceiveChannel { marker: PhantomData }
    }
}

impl<T> SendChannel<T> {
    /// Starts a send of `value` by `task`: the task joins the senders that
    /// wait for a receiver, and nothing is published yet.
    pub fn select(&self, shared: &mut Channel<T>, task: Task, value: T) -> (r: SendSelect<T>)
        requires
            old(shared).wf(),
        ensures
            final(shared).wf(),
            r.value == value,
            r.task == task,
            final(shared)@ == (ChannelState {
                senders: with(old(shared)@.senders, task),
                ..old(shared)@
            }),
    {
        shared.offer(task);
        SendSelect { value, task }
    }
}

impl<T> SendSelect<T> {
    /// The first half of a poll: publishes the value on a cell on which no
    /// other send is in flight. Returns the send in flight and the tasks to
    /// notify, one for each receive that was pending.
    pub fn publish(self, shared: &mut Channel<T>) -> (r: (SendFlight, Vec<Task>))
        requires
            old(shared).wf(),
            !old(shared)@.sending,
        ensures
            final(shared).wf(),
            final(shared)@ == old(shared)@.publish(self.value),
            r.0.task == self.task,
            r.0.awaited == r.1@.len(),
            r.1@ == waiting_tasks(old(shared)@.slots),
    {
        let task = self.task;
        let notified = shared.publish(self.value);
        (SendFlight { task, awaited: notified.len() }, notified)
    }

    /// The earliest time at which a poll could succeed: at once if a receive
    /// is pending, and else when a receiver gives notice.
    pub fn sleep(&self, shared: &Channel<T>) -> (r: GenericSleep)
        ensures
            r == if waiting_tasks(shared@.slots).len() == 0 {
                GenericSleep::NotifyTake(None)
            } else {
                GenericSleep::spec_ready()
            },
    {
        shared.send_sleep()
    }

    /// Gives the send up before it went through: the task leaves the senders
    /// that wait for a receiver, and the value comes back.
    pub fn abandon(self, shared: &mut Channel<T>) -> (r: T)
        requires
            old(shared).wf(),
        ensures
            final(shared).wf(),
            r == self.value,
            final(shared)@ == (ChannelState {
                senders: without(old(shared)@.senders, self.task),
                ..old(shared)@
            }),
    {
        shared.withdraw(self.task);
        self.value
    }
}

impl SendFlight {
    /// The second half of a poll, once every awaited acknowledgment is in.
    /// Where a receive took the value the send has gone through and the task
    /// leaves the waiting senders. Where none did, the value comes back in a
    /// send that is pending as before.
    pub fn complete<T>(self, shared: &mut Channel<T>) -> (r: Result<(), SendSelect<T>>)
        requires
            old(shared).wf(),
            old(shared)@.sending,
            old(shared)@.acknowledged(),
        ensures
            final(shared).wf(),
            !final(shared)@.sending,
            final(shared)@.value is None,
            match old(shared)@.value {
                Some(v) => r == Err::<(), SendSelect<T>>(SendSelect { value: v, task: self.task })
                    && final(shared)@ == old(shared)@.collect(),
                None => r == Ok::<(), SendSelect<T>>(()) && final(shared)@ == (ChannelState {
                    senders: without(old(shared)@.senders, self.task),
                    ..old(shared)@.collect()
                }),
            },
    {
        match shared.collect() {
            Err(value) => Err(SendSelect { value, task: self.task }),
            Ok(()) => {
                shared.withdraw(self.task);
                Ok(())
            },
        }
    }
}

impl<T> ReceiveChannel<T> {
    /// Starts a receive by `task`: it joins the cell's pending receives,
    /// having seen the cell as it is now.
    pub fn select(&self, shared: &mut Channel<T>, task: Task) -> (r: ReceiveSelect<T>)
        requires
            old(shared).wf(),
        ensures
            final(shared).wf(),
            final(shared)@ == old(shared)@.enroll(task),
            r.slot == free_slot(old(shared)@.slots),
            r.wake@ == Seq::<Task>::empty(),
            final(shared)@.holds(r.slot as int),
            !final(shared)@.owes(r.slot as int),
    {
        ReceiveSelect { slot: shared.enroll(task), wake: Vec::new(), marker: PhantomData }
    }
}

impl<T> World for Channel<T> {
    open spec fn wf(&self) -> bool {
        self@.wf()
    }
}

impl<T> Selectable for ReceiveSelect<T> {
    type Output = T;

    type World = Channel<T>;

    open spec fn valid(&self) -> bool {
        true
    }

    /// A pending receive first posts the acknowledgment it owes, if any. If a
    /// value is on offer it takes it, and the receive has ended. If not, the
    /// receive stays pending and carries the tasks of the senders that wait
    /// for a receiver, which are to be woken. A receive that is not pending
    /// in this cell is never ready and changes nothing.
    open spec fn resolves(self, before: Channel<T>, after: Channel<T>, r: Result<T, Self>) -> bool {
        if before@.holds(self.slot as int) {
            &&& after@ == before@.receive(self.slot as int)
            &&& match before@.value {
                Some(v) => r == Ok::<T, Self>(v),
                None => r matches Err(back) && back.slot == self.slot && back.wake@
                    == before@.senders,
            }
        } else {
            after@ == before@ && r == Err::<T, Self>(self)
        }
    }

    open spec fn deadline(&self, world: &Channel<T>) -> GenericSleep {
        GenericSleep::NotifyTake(None)
    }

    fn poll(self, world: &mut Channel<T>) -> (r: Result<T, Self>) {
        if world.holds(self.slot) {
            match world.receive(self.slot) {
                Received::Value(v) => Ok(v),
                Received::Pending(wake) => Err(
                    ReceiveSelect { slot: self.slot, wake, marker: PhantomData },
                ),
            }
        } else {
            Err(self)
        }
    }

    /// Giving a pending receive up posts what it owes the sender in flight
    /// and only then takes it out of the pending receives. A receive that
    /// the cell does not hold changes nothing.
    open spec fn abandons(self, before: Channel<T>, after: Channel<T>) -> bool {
        if (self.slot as int) < before@.slots.len() {
            after@ == before@.abandon(self.slot as int)
        } else {
            after@ == before@
        }
    }

    fn sleep(&self, world: &Channel<T>) -> (r: GenericSleep) {
        GenericSleep::NotifyTake(None)
    }

    fn abandon(self, world: &mut Channel<T>) {
        if self.slot < world.slot_count() {
            world.abandon(self.slot);
        }
    }
}

/// Which of the kernel objects that a channel needs could be created: the
/// lock on the shared cell, the lock that lets one sender in at a time, and
/// the counter of acknowledgments.
pub struct ChannelParts {
    /// The outcome of creating the lock on the shared cell.
    pub data_lock: Result<(), Error>,
    /// The outcome of creating the lock that serializes senders.
    pub send_lock: Result<(), Error>,
    /// The outcome of creating the counter of acknowledgments.
    pub ack_counter: Result<(), Error>,
}

/// A new channel: its idle shared cell and its two ends.
pub fn channel<T>() -> (r: (Channel<T>, SendChannel<T>, ReceiveChannel<T>))
    ensures
        r.0.wf(),
        r.0@ == (ChannelState::<T> {
            value: None,
            seq: false,
            slots: Seq::empty(),
            senders: Seq::empty(),
            acks: 0,
            awaited: 0,
            sending: false,
        }),
{
    (Channel::new(), SendChannel { marker: PhantomData }, ReceiveChannel { marker: PhantomData })
}

/// A new channel, if the kernel could create what it stands on. The first
/// failure among the cell's lock, the senders' lock and the acknowledgment
/// counter, in this order, is the failure of the whole.
pub fn try_channel<T>(parts: ChannelParts) -> (r: Result<
    (Channel<T>, SendChannel<T>, ReceiveChannel<T>),
    Error,
>)
    ensures
        match (parts.data_lock, parts.send_lock, parts.ack_counter) {
            (Err(e), _, _) => r matches Err(x) && x == e,
            (Ok(_), Err(e), _) => r matches Err(x) && x == e,
            (Ok(_), Ok(_), Err(e)) => r matches Err(x) && x == e,
            (Ok(_), Ok(_), Ok(_)) => r matches Ok(c) && c.0.wf() && c.0@ == (ChannelState::<T> {
                value: None,
                seq: false,
                slots: Seq::empty(),
                senders: Seq::empty(),
                acks: 0,
                awaited: 0,
                sending: false,
            }),
        },
{
    match parts.data_lock {
        Err(e) => Err(e),
        Ok(_) => match parts.send_lock {
            Err(e) => Err(e),
            Ok(_) => match parts.ack_counter {
                Err(e) => Err(e),
                Ok(_) => Ok(channel()),
            },
        },
    }
}

} // verus!
