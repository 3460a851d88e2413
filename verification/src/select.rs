//! Selectable events and the combinators that race them.
//!
//! A selectable event is one pending attempt at producing a value. It can be
//! polled, which either completes it or hands back the event to poll again
//! later, and it can say when polling again could first succeed. An event is
//! polled against the shared state that it waits on, its world: the cell of a
//! channel, a tree of contexts, a reading of the clock. An event that loses a
//! race is given up, which takes back whatever it had put into its world.

use vstd::prelude::*;
use core::marker::PhantomData;
use crate::instant::Instant;
use crate::sleep::GenericSleep;

verus! {

/// Shared state that events are polled against.
pub trait World {
    /// The invariant of the state, which every poll finds and leaves true.
    /// Unless a world says otherwise, it has none.
    open spec fn wf(&self) -> bool {
        true
    }
}

impl World for () {
    open spec fn wf(&self) -> bool {
        true
    }
}

/// A reading of the clock is a world that events can only look at.
impl World for Instant {
    open spec fn wf(&self) -> bool {
        true
    }
}

impl<A: World, B: World> World for (A, B) {
    open spec fn wf(&self) -> bool {
        self.0.wf() && self.1.wf()
    }
}

/// A future event that can be raced against others.
pub trait Selectable: Sized {
    /// What the event produces when it completes.
    type Output;

    /// The shared state that the event waits on.
    type World: World;

    /// Whether the event is one that may be polled. Unless an event says
    /// otherwise, it is.
    open spec fn valid(&self) -> bool {
        true
    }

    /// Whether a poll of the event that finds the world as `before` may leave
    /// it as `after` and end in `r`. Unless an event says otherwise, nothing
    /// is known of what its poll does.
    open spec fn resolves(
        self,
        before: Self::World,
        after: Self::World,
        r: Result<Self::Output, Self>,
    ) -> bool {
        true
    }

    /// The earliest time at which the event could be ready. Unless an event
    /// says otherwise, it waits for a notification without limit.
    open spec fn deadline(&self, world: &Self::World) -> GenericSleep {
        GenericSleep::NotifyTake(None)
    }

    /// Whether giving the event up in the world `before` may leave the world
    /// as `after`. Unless an event says otherwise, nothing is known of it.
    open spec fn abandons(self, before: Self::World, after: Self::World) -> bool {
        true
    }

    /// Completes the event if it is ready, which consumes it; otherwise hands
    /// back the event that stands in its place. Never blocks.
    fn poll(self, world: &mut Self::World) -> (r: Result<Self::Output, Self>)
        requires
            self.valid(),
            old(world).wf(),
        ensures
            final(world).wf(),
            self.resolves(*old(world), *final(world), r),
            r matches Err(e) ==> e.valid(),
    ;

    /// The earliest time at which the event could be ready.
    fn sleep(&self, world: &Self::World) -> (r: GenericSleep)
        requires
            self.valid(),
            world.wf(),
        ensures
            r == self.deadline(world),
    ;

    /// Gives the event up before it has completed: whatever it had put into
    /// its world is taken back, and what it owes there is settled. This is
    /// what becomes of the events that lose a race.
    fn abandon(self, world: &mut Self::World)
        requires
            self.valid(),
            old(world).wf(),
        ensures
            final(world).wf(),
            self.abandons(*old(world), *final(world)),
    ;
}

/// An event that completes when the event inside it does, with the result
/// passed through a function.
pub struct MapSelect<E, F> {
    /// The event whose result is transformed.
    pub event: E,
    /// The transformation.
    pub f: F,
}

impl<U, E: Selectable, F: FnOnce(E::Output) -> U> Selectable for MapSelect<E, F> {
    type Output = U;

    type World = E::World;

    open spec fn valid(&self) -> bool {
        &&& self.event.valid()
        &&& forall|t: E::Output| call_requires(self.f, (t,))
    }

    /// A success of the inner event is passed through the function. A
    /// failure hands back the inner event's continuation with the same
    /// function.
    open spec fn resolves(self, before: E::World, after: E::World, r: Result<U, Self>) -> bool {
        match r {
            Ok(u) => exists|t: E::Output| #[trigger]
                self.event.resolves(before, after, Ok(t)) && call_ensures(self.f, (t,), u),
            Err(e) => self.event.resolves(before, after, Err(e.event)) && e.f == self.f,
        }
    }

    open spec fn deadline(&self, world: &E::World) -> GenericSleep {
        self.event.deadline(world)
    }

    fn poll(self, world: &mut E::World) -> (r: Result<U, Self>) {
        match self.event.poll(world) {
            Ok(t) => {
                let u = (self.f)(t);
                Ok(u)
            },
            Err(event) => Err(MapSelect { event, f: self.f }),
        }
    }

    open spec fn abandons(self, before: E::World, after: E::World) -> bool {
        self.event.abandons(before, after)
    }

    fn sleep(&self, world: &E::World) -> (r: GenericSleep) {
        self.event.sleep(world)
    }

    fn abandon(self, world: &mut E::World) {
        self.event.abandon(world)
    }
}

/// An event that completes when `event` does, with `f` applied to what it
/// produced. While `event` is pending the new event is pending too, with the
/// same function and the same deadline.
#[inline]
pub fn select_map<U, E: Selectable, F: FnOnce(E::Output) -> U>(event: E, f: F) -> (r: MapSelect<
    E,
    F,
>)
    ensures
        r.event == event,
        r.f == f,
{
    MapSelect { event, f }
}

/// An event that completes as soon as one of two events does.
pub struct EitherSelect<A, B> {
    /// The event that is polled first.
    pub fst: A,
    /// The event that is polled only if the first is not ready.
    pub snd: B,
}

impl<A: Selectable, B: Selectable<Output = A::Output, World = A::World>> Selectable for EitherSelect<
    A,
    B,
> {
    type Output = A::Output;

    type World = A::World;

    open spec fn valid(&self) -> bool {
        self.fst.valid() && self.snd.valid()
    }

    /// The first event wins whenever it is ready, and the second is then
    /// given up. The second is asked only after the first has declined, on
    /// the world as the first left it; if it is ready, what the first handed
    /// back is given up. The pair stays pending only if both have declined.
    open spec fn resolves(
        self,
        before: A::World,
        after: A::World,
        r: Result<A::Output, Self>,
    ) -> bool {
        match r {
            Ok(v) => (exists|mid: A::World| #[trigger]
                self.fst.resolves(before, mid, Ok(v)) && self.snd.abandons(mid, after)) || (
            exists|mid: A::World, fst: A, late: A::World|
                #![trigger self.fst.resolves(before, mid, Err(fst)), fst.abandons(late, after)]
                self.fst.resolves(before, mid, Err(fst)) && self.snd.resolves(mid, late, Ok(v))
                    && fst.abandons(late, after)),
            Err(e) => exists|mid: A::World| #[trigger]
                self.fst.resolves(before, mid, Err(e.fst)) && self.snd.resolves(
                    mid,
                    after,
                    Err(e.snd),
                ),
        }
    }

    open spec fn deadline(&self, world: &A::World) -> GenericSleep {
        self.fst.deadline(world).spec_combine(self.snd.deadline(world))
    }

    open spec fn abandons(self, before: A::World, after: A::World) -> bool {
        exists|mid: A::World| #[trigger]
            self.fst.abandons(before, mid) && self.snd.abandons(mid, after)
    }

    fn poll(self, world: &mut A::World) -> (r: Result<A::Output, Self>) {
        let ghost before = *world;
        match self.fst.poll(world) {
            Ok(v) => {
                let ghost mid = *world;
                self.snd.abandon(world);
                proof {
                    let after = *world;
                    assert(exists|m: A::World| #[trigger]
                        self.fst.resolves(before, m, Ok(v)) && self.snd.abandons(m, after)) by {
                        assert(self.fst.resolves(before, mid, Ok(v)) && self.snd.abandons(
                            mid,
                            after,
                        ));
                    }
                    let r: Result<A::Output, Self> = Ok(v);
                    assert(r->Ok_0 == v);
                    assert(self.resolves(before, after, r));
                }
                Ok(v)
            },
            Err(fst) => {
                let ghost mid = *world;
                match self.snd.poll(world) {
                    Ok(v) => {
                        let ghost late = *world;
                        fst.abandon(world);
                        proof {
                            let after = *world;
                            assert(exists|m: A::World, f: A, l: A::World|
                                #![trigger self.fst.resolves(before, m, Err(f)), f.abandons(l, after)]
                                self.fst.resolves(before, m, Err(f)) && self.snd.resolves(
                                    m,
                                    l,
                                    Ok(v),
                                ) && f.abandons(l, after)) by {
                                assert(self.fst.resolves(before, mid, Err(fst))
                                    && self.snd.resolves(mid, late, Ok(v)) && fst.abandons(
                                    late,
                                    after,
                                ));
                            }
                            let r: Result<A::Output, Self> = Ok(v);
                            assert(r->Ok_0 == v);
                            assert(self.resolves(before, after, r));
                        }
                        Ok(v)
                    },
                    Err(snd) => {
                        let back = EitherSelect { fst, snd };
                        proof {
                            let after = *world;
                            assert(exists|m: A::World| #[trigger]
                                self.fst.resolves(before, m, Err(back.fst)) && self.snd.resolves(
                                    m,
                                    after,
                                    Err(back.snd),
                                )) by {
                                assert(self.fst.resolves(before, mid, Err(back.fst))
                                    && self.snd.resolves(mid, after, Err(back.snd)));
                            }
                            let r: Result<A::Output, Self> = Err(back);
                            assert(r->Err_0 == back);
                        }
                        Err(back)
                    },
                }
            },
        }
    }

    fn sleep(&self, world: &A::World) -> (r: GenericSleep) {
        self.fst.sleep(world).combine(self.snd.sleep(world))
    }

    fn abandon(self, world: &mut A::World) {
        let ghost before = *world;
        self.fst.abandon(world);
        let ghost mid = *world;
        self.snd.abandon(world);
        proof {
            assert(self.fst.abandons(before, mid) && self.snd.abandons(mid, *world));
        }
    }
}

/// An event that completes with the result of whichever of `fst` and `snd`
/// is ready first. When both are ready in the same poll, `fst` wins.
#[inline]
pub fn select_either<A: Selectable, B: Selectable<Output = A::Output, World = A::World>>(
    fst: A,
    snd: B,
) -> (r: EitherSelect<A, B>)
    ensures
        r.fst == fst,
        r.snd == snd,
{
    EitherSelect { fst, snd }
}

/// An event that races `fst` against `snd`, each with a transformation of
/// its own that brings its result to the common type `U`. The function of
/// the branch that fires is applied inside the event, when it is polled.
/// When both are ready in the same poll, `fst` wins.
#[inline]
pub fn select_merge<
    U,
    A: Selectable,
    B: Selectable<World = A::World>,
    F: FnOnce(A::Output) -> U,
    G: FnOnce(B::Output) -> U,
>(fst: A, f: F, snd: B, g: G) -> (r: EitherSelect<MapSelect<A, F>, MapSelect<B, G>>)
    ensures
        r.fst.event == fst,
        r.fst.f == f,
        r.snd.event == snd,
        r.snd.f == g,
{
    select_either(select_map(fst, f), select_map(snd, g))
}

/// An event that may be absent. An absent event is never ready.
pub struct OptionSelect<E> {
    /// The event, if there is one.
    pub event: Option<E>,
}

impl<E: Selectable> Selectable for OptionSelect<E> {
    type Output = E::Output;

    type World = E::World;

    open spec fn valid(&self) -> bool {
        self.event matches Some(e) ==> e.valid()
    }

    open spec fn resolves(
        self,
        before: E::World,
        after: E::World,
        r: Result<E::Output, Self>,
    ) -> bool {
        match self.event {
            None => r matches Err(back) && back.event is None && after == before,
            Some(e) => match r {
                Ok(v) => e.resolves(before, after, Ok(v)),
                Err(back) => back.event matches Some(next) && e.resolves(before, after, Err(next)),
            },
        }
    }

    open spec fn deadline(&self, world: &E::World) -> GenericSleep {
        match self.event {
            None => GenericSleep::NotifyTake(None),
            Some(e) => e.deadline(world),
        }
    }

    open spec fn abandons(self, before: E::World, after: E::World) -> bool {
        match self.event {
            None => after == before,
            Some(e) => e.abandons(before, after),
        }
    }

    fn poll(self, world: &mut E::World) -> (r: Result<E::Output, Self>) {
        match self.event {
            None => Err(OptionSelect { event: None }),
            Some(e) => match e.poll(world) {
                Ok(v) => Ok(v),
                Err(next) => Err(OptionSelect { event: Some(next) }),
            },
        }
    }

    fn sleep(&self, world: &E::World) -> (r: GenericSleep) {
        match &self.event {
            None => GenericSleep::NotifyTake(None),
            Some(e) => e.sleep(world),
        }
    }

    fn abandon(self, world: &mut E::World) {
        match self.event {
            None => {},
            Some(e) => e.abandon(world),
        }
    }
}

/// The event that stands for `event` if it is there, and that is never ready
/// if it is not.
#[inline]
pub fn select_option<E: Selectable>(event: Option<E>) -> (r: OptionSelect<E>)
    ensures
        r.event == event,
{
    OptionSelect { event }
}

/// An event on the first part of a world of two parts. The second part is
/// left alone.
pub struct OnFirst<E, W> {
    /// The event on the first part.
    pub event: E,
    /// Stands for the second part's type.
    pub other: PhantomData<W>,
}

/// An event on the second part of a world of two parts. The first part is
/// left alone.
pub struct OnSecond<W, E> {
    /// Stands for the first part's type.
    pub other: PhantomData<W>,
    /// The event on the second part.
    pub event: E,
}

impl<E: Selectable, W: World> Selectable for OnFirst<E, W> {
    type Output = E::Output;

    type World = (E::World, W);

    open spec fn valid(&self) -> bool {
        self.event.valid()
    }

    open spec fn resolves(
        self,
        before: (E::World, W),
        after: (E::World, W),
        r: Result<E::Output, Self>,
    ) -> bool {
        &&& after.1 == before.1
        &&& match r {
            Ok(v) => self.event.resolves(before.0, after.0, Ok(v)),
            Err(back) => self.event.resolves(before.0, after.0, Err(back.event)),
        }
    }

    open spec fn deadline(&self, world: &(E::World, W)) -> GenericSleep {
        self.event.deadline(&world.0)
    }

    open spec fn abandons(self, before: (E::World, W), after: (E::World, W)) -> bool {
        after.1 == before.1 && self.event.abandons(before.0, after.0)
    }

    fn poll(self, world: &mut (E::World, W)) -> (r: Result<E::Output, Self>) {
        match self.event.poll(&mut world.0) {
            Ok(v) => Ok(v),
            Err(event) => Err(OnFirst { event, other: PhantomData }),
        }
    }

    fn sleep(&self, world: &(E::World, W)) -> (r: GenericSleep) {
        self.event.sleep(&world.0)
    }

    fn abandon(self, world: &mut (E::World, W)) {
        self.event.abandon(&mut world.0)
    }
}

impl<W: World, E: Selectable> Selectable for OnSecond<W, E> {
    type Output = E::Output;

    type World = (W, E::World);

    open spec fn valid(&self) -> bool {
        self.event.valid()
    }

    open spec fn resolves(
        self,
        before: (W, E::World),
        after: (W, E::World),
        r: Result<E::Output, Self>,
    ) -> bool {
        &&& after.0 == before.0
        &&& match r {
            Ok(v) => self.event.resolves(before.1, after.1, Ok(v)),
            Err(back) => self.event.resolves(before.1, after.1, Err(back.event)),
        }
    }

    open spec fn deadline(&self, world: &(W, E::World)) -> GenericSleep {
        self.event.deadline(&world.1)
    }

    open spec fn abandons(self, before: (W, E::World), after: (W, E::World)) -> bool {
        after.0 == before.0 && self.event.abandons(before.1, after.1)
    }

    fn poll(self, world: &mut (W, E::World)) -> (r: Result<E::Output, Self>) {
        match self.event.poll(&mut world.1) {
            Ok(v) => Ok(v),
            Err(event) => Err(OnSecond { other: PhantomData, event }),
        }
    }

    fn sleep(&self, world: &(W, E::World)) -> (r: GenericSleep) {
        self.event.sleep(&world.1)
    }

    fn abandon(self, world: &mut (W, E::World)) {
        self.event.abandon(&mut world.1)
    }
}

/// Places `event` on the first part of a world of two parts.
pub fn on_first<E: Selectable, W: World>(event: E) -> (r: OnFirst<E, W>)
    ensures
        r.event == event,
{
    OnFirst { event, other: PhantomData }
}

/// Places `event` on the second part of a world of two parts.
pub fn on_second<W: World, E: Selectable>(event: E) -> (r: OnSecond<W, E>)
    ensures
        r.event == event,
{
    OnSecond { other: PhantomData, event }
}

/// The branches of a selection: a first event and the events after it, each
/// with a result type of its own. The result says which branch fired: `Ok`
/// for the first event, `Err` for what the rest produced.
pub struct Branches<A, B> {
    /// The leftmost branch.
    pub head: A,
    /// The branches to its right.
    pub rest: B,
}

impl<A: Selectable, B: Selectable<World = A::World>> Selectable for Branches<A, B> {
    type Output = Result<A::Output, B::Output>;

    type World = A::World;

    open spec fn valid(&self) -> bool {
        self.head.valid() && self.rest.valid()
    }

    /// Branches are polled from the left, and the first one that is ready
    /// fires. A branch to the right is polled only after the head has
    /// declined, on the world as the head left it. The branches that did not
    /// fire are given up.
    open spec fn resolves(
        self,
        before: A::World,
        after: A::World,
        r: Result<Result<A::Output, B::Output>, Self>,
    ) -> bool {
        match r {
            Ok(Ok(a)) => exists|mid: A::World| #[trigger]
                self.head.resolves(before, mid, Ok(a)) && self.rest.abandons(mid, after),
            Ok(Err(b)) => exists|mid: A::World, head: A, late: A::World|
                #![trigger self.head.resolves(before, mid, Err(head)), head.abandons(late, after)]
                self.head.resolves(before, mid, Err(head)) && self.rest.resolves(mid, late, Ok(b))
                    && head.abandons(late, after),
            Err(e) => exists|mid: A::World| #[trigger]
                self.head.resolves(before, mid, Err(e.head)) && self.rest.resolves(
                    mid,
                    after,
                    Err(e.rest),
                ),
        }
    }

    open spec fn deadline(&self, world: &A::World) -> GenericSleep {
        self.head.deadline(world).spec_combine(self.rest.deadline(world))
    }

    open spec fn abandons(self, before: A::World, after: A::World) -> bool {
        exists|mid: A::World| #[trigger]
            self.head.abandons(before, mid) && self.rest.abandons(mid, after)
    }

    fn poll(self, world: &mut A::World) -> (r: Result<Result<A::Output, B::Output>, Self>) {
        let ghost before = *world;
        match self.head.poll(world) {
            Ok(a) => {
                let ghost mid = *world;
                self.rest.abandon(world);
                proof {
                    let after = *world;
                    assert(exists|m: A::World| #[trigger]
                        self.head.resolves(before, m, Ok(a)) && self.rest.abandons(m, after)) by {
                        assert(self.head.resolves(before, mid, Ok(a)) && self.rest.abandons(
                            mid,
                            after,
                        ));
                    }
                    let r: Result<Result<A::Output, B::Output>, Self> = Ok(Ok(a));
                    assert(r->Ok_0 == Ok::<A::Output, B::Output>(a));
                    assert(r->Ok_0->Ok_0 == a);
                    assert(self.resolves(before, after, r));
                }
                Ok(Ok(a))
            },
            Err(head) => {
                let ghost mid = *world;
                match self.rest.poll(world) {
                    Ok(b) => {
                        let ghost late = *world;
                        head.abandon(world);
                        proof {
                            let after = *world;
                            assert(exists|m: A::World, h: A, l: A::World|
                                #![trigger self.head.resolves(before, m, Err(h)), h.abandons(l, after)]
                                self.head.resolves(before, m, Err(h)) && self.rest.resolves(
                                    m,
                                    l,
                                    Ok(b),
                                ) && h.abandons(l, after)) by {
                                assert(self.head.resolves(before, mid, Err(head))
                                    && self.rest.resolves(mid, late, Ok(b)) && head.abandons(
                                    late,
                                    after,
                                ));
                            }
                            let r: Result<Result<A::Output, B::Output>, Self> = Ok(Err(b));
                            assert(r->Ok_0 == Err::<A::Output, B::Output>(b));
                            assert(r->Ok_0->Err_0 == b);
                            assert(self.resolves(before, after, r));
                        }
                        Ok(Err(b))
                    },
                    Err(rest) => {
                        let back = Branches { head, rest };
                        proof {
                            let after = *world;
                            assert(exists|m: A::World| #[trigger]
                                self.head.resolves(before, m, Err(back.head))
                                    && self.rest.resolves(m, after, Err(back.rest))) by {
                                assert(self.head.resolves(before, mid, Err(back.head))
                                    && self.rest.resolves(mid, after, Err(back.rest)));
                            }
                            let r: Result<Result<A::Output, B::Output>, Self> = Err(back);
                            assert(r->Err_0 == back);
                        }
                        Err(back)
                    },
                }
            },
        }
    }

    fn sleep(&self, world: &A::World) -> (r: GenericSleep) {
        self.head.sleep(world).combine(self.rest.sleep(world))
    }

    fn abandon(self, world: &mut A::World) {
        let ghost before = *world;
        self.head.abandon(world);
        let ghost mid = *world;
        self.rest.abandon(world);
        proof {
            assert(self.head.abandons(before, mid) && self.rest.abandons(mid, *world));
        }
    }
}

/// Where the leftmost branch is ready, it is the branch that fires, whatever
/// the branches to its right are: a head that cannot decline leaves a poll of
/// the branches no other outcome than its own success.
pub proof fn lemma_ready_head_fires<A: Selectable, B: Selectable<World = A::World>>(
    branches: Branches<A, B>,
    before: A::World,
    after: A::World,
    r: Result<Result<A::Output, B::Output>, Branches<A, B>>,
)
    requires
        branches.resolves(before, after, r),
        forall|mid: A::World, head: A| !#[trigger] branches.head.resolves(before, mid, Err(head)),
    ensures
        r matches Ok(Ok(a)) && exists|mid: A::World| #[trigger]
            branches.head.resolves(before, mid, Ok(a)) && branches.rest.abandons(mid, after),
{
}

/// The progress of one selection over a set of branches.
pub enum Selection<E: Selectable> {
    /// No branch has fired yet. The task sleeps until the branches' combined
    /// deadline and then polls them again.
    Waiting(E),
    /// A branch has fired with this result, and its body is yet to run.
    Matched(E::Output),
    /// The body of the branch that fired has been given its result.
    Done,
}

impl<E: Selectable> Selection<E> {
    /// Whether the selection is in a state in which it can go on.
    pub open spec fn valid(self) -> bool {
        self matches Selection::Waiting(e) ==> e.valid()
    }

    /// Whether one pass over the branches that finds the world as `before`
    /// may leave it as `after` and lead from `self` to `next`.
    pub open spec fn steps_to(self, before: E::World, after: E::World, next: Selection<E>) -> bool {
        match self {
            Selection::Waiting(e) => match next {
                Selection::Waiting(back) => e.resolves(before, after, Err(back)),
                Selection::Matched(v) => e.resolves(before, after, Ok(v)),
                Selection::Done => false,
            },
            _ => next == self && after == before,
        }
    }

    /// Starts a selection over `events`, none of which has been polled.
    pub fn begin(events: E) -> (r: Selection<E>)
        ensures
            r == Selection::Waiting(events),
    {
        Selection::Waiting(events)
    }

    /// The time to sleep until before the next pass: the combined deadline of
    /// the branches while the selection waits, and nothing once a branch has
    /// fired.
    pub fn sleep(&self, world: &E::World) -> (r: Option<GenericSleep>)
        requires
            self.valid(),
            world.wf(),
        ensures
            match *self {
                Selection::Waiting(e) => r == Some(e.deadline(world)),
                _ => r is None,
            },
    {
        match self {
            Selection::Waiting(e) => Some(e.sleep(world)),
            _ => None,
        }
    }

    /// One pass over the branches, from the left. The first branch that is
    /// ready fires and the selection is matched; if none is, it goes on
    /// waiting with the events that the branches handed back. A selection
    /// that is matched or done does not poll anything and stays as it is.
    pub fn pass(self, world: &mut E::World) -> (r: Selection<E>)
        requires
            self.valid(),
            old(world).wf(),
        ensures
            final(world).wf(),
            self.steps_to(*old(world), *final(world), r),
            r.valid(),
            r is Done ==> self is Done,
    {
        match self {
            Selection::Waiting(e) => match e.poll(world) {
                Ok(v) => Selection::Matched(v),
                Err(back) => Selection::Waiting(back),
            },
            Selection::Matched(v) => Selection::Matched(v),
            Selection::Done => Selection::Done,
        }
    }

    /// Gives the selection up. Branches that still wait are given up;
    /// a selection in which a branch has fired has none left.
    pub fn abandon(self, world: &mut E::World)
        requires
            self.valid(),
            old(world).wf(),
        ensures
            final(world).wf(),
            match self {
                Selection::Waiting(e) => e.abandons(*old(world), *final(world)),
                _ => *final(world) == *old(world),
            },
    {
        match self {
            Selection::Waiting(e) => e.abandon(world),
            _ => {},
        }
    }

    /// Hands out the result of the branch that fired, for its body to run.
    /// This happens once: the selection is done afterwards. A selection that
    /// still waits gives nothing and goes on waiting.
    pub fn take(self) -> (r: (Option<E::Output>, Selection<E>))
        ensures
            match self {
                Selection::Matched(v) => r.0 == Some(v) && r.1 == Selection::<E>::Done,
                _ => r.0 is None && r.1 == self,
            },
    {
        match self {
            Selection::Matched(v) => (Some(v), Selection::Done),
            Selection::Waiting(e) => (None, Selection::Waiting(e)),
            Selection::Done => (None, Selection::Done),
        }
    }
}

} // verus!
