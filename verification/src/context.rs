//! Hierarchical cancellation: a tree of contexts in which cancelling a node
//! cancels everything below it.
//!
//! The tree is an arena. A context is known by its place in the arena, and a
//! child always comes after its parent.

use vstd::prelude::*;
use crate::event::{with, without, Event};
use crate::instant::Instant;
use crate::select::{Selectable, World};
use crate::sleep::GenericSleep;
use crate::task::Task;

verus! {

/// One context, as the tree records it.
#[derive(Clone, Copy, Debug, PartialEq, Eq, Structural)]
pub struct Node {
    /// The place of the parent, if the context has one.
    pub parent: Option<usize>,
    /// Whether the context has been cancelled.
    pub cancelled: bool,
}

/// A context: a handle on one node of a tree.
#[derive(Clone, Copy, Debug, PartialEq, Eq, Structural)]
pub struct Context {
    /// The place of the node in its tree.
    pub id: usize,
}

/// Whether the node at `i` is the node at `a` or lies below it.
pub open spec fn descends(nodes: Seq<Node>, i: int, a: int) -> bool
    decreases i,
{
    if i < 0 || i >= nodes.len() {
        false
    } else if i == a {
        true
    } else {
        match nodes[i].parent {
            Some(p) => p < i && descends(nodes, p as int, a),
            None => false,
        }
    }
}

/// The invariant of a tree: every parent comes before its children, and
/// whatever is below a cancelled node is cancelled.
pub open spec fn tree_wf(nodes: Seq<Node>) -> bool {
    forall|i: int|
        0 <= i < nodes.len() ==> match (#[trigger] nodes[i]).parent {
            Some(p) => p < i && (nodes[p as int].cancelled ==> nodes[i].cancelled),
            None => true,
        }
}

/// The nodes after the context at `a` has been cancelled: that node and
/// everything below it is cancelled, and nothing else changes.
pub open spec fn cancelled_from(nodes: Seq<Node>, a: int) -> Seq<Node> {
    Seq::new(
        nodes.len(),
        |i: int|
            Node {
                parent: nodes[i].parent,
                cancelled: nodes[i].cancelled || descends(nodes, i, a),
            },
    )
}

/// A node lies below another only if it comes after it.
pub proof fn lemma_descends_later(nodes: Seq<Node>, i: int, a: int)
    requires
        descends(nodes, i, a),
    ensures
        a <= i < nodes.len(),
    decreases i,
{
    if i != a {
        lemma_descends_later(nodes, nodes[i].parent->Some_0 as int, a);
    }
}

/// In a tree that keeps its invariant, everything below a cancelled node is
/// cancelled.
pub proof fn lemma_cancelled_covers_descendants(nodes: Seq<Node>, i: int, a: int)
    requires
        tree_wf(nodes),
        0 <= a < nodes.len(),
        nodes[a].cancelled,
        descends(nodes, i, a),
    ensures
        nodes[i].cancelled,
    decreases i,
{
    if i != a {
        lemma_cancelled_covers_descendants(nodes, nodes[i].parent->Some_0 as int, a);
    }
}

/// Cancelling keeps the tree's invariant, and cancelling a context that is
/// cancelled already changes nothing.
pub proof fn lemma_cancel_idempotent(nodes: Seq<Node>, a: int)
    requires
        tree_wf(nodes),
        0 <= a < nodes.len(),
    ensures
        tree_wf(cancelled_from(nodes, a)),
        cancelled_from(nodes, a)[a].cancelled,
        nodes[a].cancelled ==> cancelled_from(nodes, a) == nodes,
        cancelled_from(cancelled_from(nodes, a), a) == cancelled_from(nodes, a),
{
    let after = cancelled_from(nodes, a);
    assert forall|i: int| 0 <= i < after.len() implies match (#[trigger] after[i]).parent {
        Some(p) => p < i && (after[p as int].cancelled ==> after[i].cancelled),
        None => true,
    } by {
        let _ = nodes[i];
    }
    if nodes[a].cancelled {
        assert forall|i: int| 0 <= i < nodes.len() implies after[i] == nodes[i] by {
            if descends(nodes, i, a) {
                lemma_cancelled_covers_descendants(nodes, i, a);
            }
        }
        assert(after =~= nodes);
    }
    let twice = cancelled_from(after, a);
    assert forall|i: int| 0 <= i < after.len() implies twice[i] == after[i] by {
        if descends(after, i, a) {
            lemma_cancelled_covers_descendants(after, i, a);
        }
    }
    assert(twice =~= after);
}

/// A tree of contexts.
pub struct ContextTree {
    nodes: Vec<Node>,
    waiters: Event,
}

/// The event that a context has been cancelled, waited for by one task.
#[derive(Debug)]
pub struct DoneSelect {
    /// The context that is waited for.
    pub context: Context,
    /// The task that waits.
    pub task: Task,
}

impl View for ContextTree {
    type V = Seq<Node>;

    closed spec fn view(&self) -> Seq<Node> {
        self.nodes@
    }
}

impl ContextTree {
    /// The tasks that wait for a cancellation.
    pub closed spec fn spec_waiters(&self) -> Seq<Task> {
        self.waiters@
    }

    /// Whether `context` names a node of this tree.
    pub open spec fn has(&self, context: Context) -> bool {
        context.id < self@.len()
    }

    /// Whether `context` has been cancelled.
    pub open spec fn cancelled(&self, context: Context) -> bool {
        self@[context.id as int].cancelled
    }

    /// A tree without contexts and without waiters.
    pub fn new() -> (r: ContextTree)
        ensures
            r.wf(),
            r@ == Seq::<Node>::empty(),
            r.spec_waiters() == Seq::<Task>::empty(),
    {
        ContextTree { nodes: Vec::new(), waiters: Event::new() }
    }

    /// Whether `context` names a node of this tree.
    pub fn contains(&self, context: Context) -> (r: bool)
        ensures
            r == self.has(context),
    {
        context.id < self.nodes.len()
    }

    /// A new context at the top of the tree: nothing above it can cancel it.
    pub fn new_global(&mut self) -> (r: Context)
        requires
            old(self).wf(),
        ensures
            final(self).wf(),
            final(self)@ == old(self)@.push(Node { parent: None, cancelled: false }),
            final(self).spec_waiters() == old(self).spec_waiters(),
            r.id == old(self)@.len(),
            final(self).has(r),
            !final(self).cancelled(r),
    {
        let id = self.nodes.len();
        self.nodes.push(Node { parent: None, cancelled: false });
        Context { id }
    }

    /// A new context below `parent`. It is cancelled whenever its parent is,
    /// so under a parent that is cancelled already it starts out cancelled.
    pub fn new_child(&mut self, parent: Context) -> (r: Context)
        requires
            old(self).wf(),
            old(self).has(parent),
        ensures
            final(self).wf(),
            final(self)@ == old(self)@.push(
                Node { parent: Some(parent.id), cancelled: old(self).cancelled(parent) },
            ),
            final(self).spec_waiters() == old(self).spec_waiters(),
            r.id == old(self)@.len(),
            final(self).has(r),
            descends(final(self)@, r.id as int, parent.id as int),
    {
        let id = self.nodes.len();
        let cancelled = self.nodes[parent.id].cancelled;
        self.nodes.push(Node { parent: Some(parent.id), cancelled });
        proof {
            assert(descends(self.nodes@, parent.id as int, parent.id as int));
        }
        Context { id }
    }

    /// Whether `context` has been cancelled, by itself or from above.
    pub fn is_cancelled(&self, context: Context) -> (r: bool)
        requires
            self.has(context),
        ensures
            r == self.cancelled(context),
    {
        self.nodes[context.id].cancelled
    }

    /// Cancels `context` and everything below it, and returns the tasks that
    /// wait for a cancellation, which are to be woken. Cancelling a context
    /// that is cancelled already changes nothing and wakes nobody.
    pub fn cancel(&mut self, context: Context) -> (r: Vec<Task>)
        requires
            old(self).wf(),
            old(self).has(context),
        ensures
            final(self).wf(),
            final(self)@ == cancelled_from(old(self)@, context.id as int),
            final(self).spec_waiters() == old(self).spec_waiters(),
            final(self).cancelled(context),
            forall|i: int|
                0 <= i < old(self)@.len() && old(self)@[i].cancelled ==> (#[trigger] final(self)@[i]).cancelled,
            old(self).cancelled(context) ==> final(self)@ == old(self)@ && r@ == Seq::<
                Task,
            >::empty(),
            !old(self).cancelled(context) ==> r@ == old(self).spec_waiters(),
    {
        let ghost before = self.nodes@;
        let id = context.id;
        let fresh = !self.nodes[id].cancelled;
        let top = self.nodes[id];
        self.nodes.set(id, Node { parent: top.parent, cancelled: true });
        proof {
            assert forall|k: int| 0 <= k < id implies !descends(before, k, id as int) by {
                if descends(before, k, id as int) {
                    lemma_descends_later(before, k, id as int);
                }
            }
        }
        let ghost waiting = self.waiters;
        let count = self.nodes.len();
        assert(id < count);
        let mut j: usize = id + 1;
        while j < self.nodes.len()
            invariant
                id < j <= self.nodes@.len(),
                self.waiters == waiting,
                self.nodes@.len() == before.len(),
                tree_wf(before),
                forall|k: int|
                    0 <= k < before.len() ==> (#[trigger] self.nodes@[k]).parent
                        == before[k].parent,
                forall|k: int|
                    0 <= k < j ==> (#[trigger] self.nodes@[k]).cancelled == (before[k].cancelled
                        || descends(before, k, id as int)),
                forall|k: int|
                    j <= k < before.len() ==> (#[trigger] self.nodes@[k]).cancelled
                        == before[k].cancelled,
            decreases self.nodes@.len() - j,
        {
            let node = self.nodes[j];
            proof {
                let _ = before[j as int];
            }
            match node.parent {
                Some(p) => {
                    if self.nodes[p].cancelled {
                        self.nodes.set(j, Node { parent: node.parent, cancelled: true });
                    }
                },
                None => {},
            }
            j += 1;
        }
        proof {
            assert(self.nodes@ =~= cancelled_from(before, id as int));
            lemma_cancel_idempotent(before, id as int);
        }
        if fresh {
            self.waiters.notify()
        } else {
            Vec::new()
        }
    }

    /// The event that `context` has been cancelled, for `task` to wait on.
    /// The task joins the tree's waiters, once however often it asks.
    pub fn done(&mut self, context: Context, task: Task) -> (r: DoneSelect)
        requires
            old(self).wf(),
        ensures
            final(self).wf(),
            final(self)@ == old(self)@,
            final(self).spec_waiters() == with(old(self).spec_waiters(), task),
            r.context == context,
            r.task == task,
    {
        self.waiters.register(task);
        DoneSelect { context, task }
    }
}

impl World for ContextTree {
    /// The tree's invariant, and no task waits twice.
    open spec fn wf(&self) -> bool {
        tree_wf(self@) && self.spec_waiters().no_duplicates()
    }
}

impl Selectable for DoneSelect {
    type Output = ();

    type World = ContextTree;

    open spec fn valid(&self) -> bool {
        true
    }

    /// The event completes exactly when the context is cancelled, by itself
    /// or from above; the task then leaves the waiters. Until then, and for
    /// a context that the tree does not hold, nothing changes.
    open spec fn resolves(self, before: ContextTree, after: ContextTree, r: Result<(), Self>) -> bool {
        &&& after@ == before@
        &&& if before.has(self.context) && before.cancelled(self.context) {
            r == Ok::<(), Self>(()) && after.spec_waiters() == without(
                before.spec_waiters(),
                self.task,
            )
        } else {
            r == Err::<(), Self>(self) && after.spec_waiters() == before.spec_waiters()
        }
    }

    /// A cancelled context is ready now; any other is waited for until a
    /// cancellation gives notice.
    open spec fn deadline(&self, world: &ContextTree) -> GenericSleep {
        if world.has(self.context) && world.cancelled(self.context) {
            GenericSleep::spec_ready()
        } else {
            GenericSleep::NotifyTake(None)
        }
    }

    fn poll(self, world: &mut ContextTree) -> (r: Result<(), Self>) {
        if world.contains(self.context) && world.is_cancelled(self.context) {
            world.waiters.unregister(self.task);
            Ok(())
        } else {
            Err(self)
        }
    }

    /// Giving the wait up takes the task out of the tree's waiters.
    open spec fn abandons(self, before: ContextTree, after: ContextTree) -> bool {
        &&& after@ == before@
        &&& after.spec_waiters() == without(before.spec_waiters(), self.task)
    }

    fn abandon(self, world: &mut ContextTree) {
        world.waiters.unregister(self.task);
    }

    fn sleep(&self, world: &ContextTree) -> (r: GenericSleep) {
        if world.contains(self.context) && world.is_cancelled(self.context) {
            GenericSleep::ready()
        } else {
            GenericSleep::NotifyTake(None)
        }
    }
}

/// The event that a context is done, taken from a context that is cancelled
/// already, completes at the first poll, and the sleep before that poll ends
/// at once.
pub proof fn lemma_cancelled_done_fires_at_once(
    event: DoneSelect,
    tree: ContextTree,
    after: ContextTree,
    r: Result<(), DoneSelect>,
    now: Instant,
)
    requires
        tree.has(event.context),
        tree.cancelled(event.context),
        event.resolves(tree, after, r),
    ensures
        r == Ok::<(), DoneSelect>(()),
        event.deadline(&tree).due(now),
        !event.deadline(&tree).spec_request(now).may_block(),
{
}

/// The slot that holds the context of the phase that is under way.
#[derive(Debug)]
pub struct ContextWrapper {
    active: Option<Context>,
}

impl ContextWrapper {
    /// The context of the phase that is under way, if one has begun.
    pub closed spec fn spec_active(&self) -> Option<Context> {
        self.active
    }

    /// Whether the slot's context, if there is one, names a node of `tree`.
    pub open spec fn fits(&self, tree: &ContextTree) -> bool {
        self.spec_active() matches Some(c) ==> tree.has(c)
    }

    /// An empty slot: no phase has begun.
    #[inline]
    pub fn new() -> (r: ContextWrapper)
        ensures
            r.spec_active() is None,
    {
        ContextWrapper { active: None }
    }

    /// The context of the phase that is under way, if one has begun.
    pub fn active(&self) -> (r: Option<Context>)
        ensures
            r == self.spec_active(),
    {
        self.active
    }

    /// Begins a new phase. The context of the phase before, if there was
    /// one, is cancelled with everything below it; only then is a fresh
    /// context made at the top of the tree, put into the slot and returned.
    /// At no time are the contexts of two phases both uncancelled. The tasks
    /// to wake for the cancellation come back with the new context.
    pub fn replace(&mut self, tree: &mut ContextTree) -> (r: (Context, Vec<Task>))
        requires
            old(tree).wf(),
            old(self).fits(old(tree)),
        ensures
            final(tree).wf(),
            final(self).spec_active() == Some(r.0),
            final(self).fits(final(tree)),
            r.0.id == old(tree)@.len(),
            !final(tree).cancelled(r.0),
            forall|i: int|
                0 <= i < old(tree)@.len() && old(tree)@[i].cancelled ==> (#[trigger] final(tree)@[i]).cancelled,
            final(tree).spec_waiters() == old(tree).spec_waiters(),
            match old(self).spec_active() {
                Some(prior) => final(tree)@ == cancelled_from(old(tree)@, prior.id as int).push(
                    Node { parent: None, cancelled: false },
                ) && final(tree).cancelled(prior) && (if old(tree).cancelled(prior) {
                    r.1@ == Seq::<Task>::empty()
                } else {
                    r.1@ == old(tree).spec_waiters()
                }),
                None => final(tree)@ == old(tree)@.push(Node { parent: None, cancelled: false })
                    && r.1@ == Seq::<Task>::empty(),
            },
    {
        let wake = match self.active.take() {
            Some(prior) => tree.cancel(prior),
            None => Vec::new(),
        };
        let fresh = tree.new_global();
        self.active = Some(fresh);
        (fresh, wake)
    }
}

} // verus!
