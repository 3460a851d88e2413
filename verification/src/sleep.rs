//! Deadlines: when a waiting task should next be woken, and how two such
//! deadlines merge into one.

use vstd::prelude::*;
use crate::instant::Instant;

verus! {

/// The wait that tells the kernel to wait without limit.
pub const TIMEOUT_MAX: u32 = 0xffff_ffff;

/// The earlier of two optional instants, where an absent one lies infinitely
/// far in the future.
pub open spec fn earliest(a: Option<Instant>, b: Option<Instant>) -> Option<Instant> {
    match (a, b) {
        (Some(x), Some(y)) => Some(x.spec_earlier(y)),
        (Some(x), None) => Some(x),
        (None, y) => y,
    }
}

/// Whether an optional instant is no later than another, where an absent one
/// lies infinitely far in the future.
pub open spec fn no_later(a: Option<Instant>, b: Option<Instant>) -> bool {
    match (a, b) {
        (_, None) => true,
        (None, Some(_)) => false,
        (Some(x), Some(y)) => x@ <= y@,
    }
}

/// A future time to sleep until.
#[derive(Clone, Copy, Debug)]
pub enum GenericSleep {
    /// Wake on an incoming notification, or at the instant if one is given,
    /// whichever comes first.
    NotifyTake(Option<Instant>),
    /// Wake exactly at the instant; notifications are of no interest.
    Timestamp(Instant),
}

/// What a sleeping task asks of the kernel.
#[derive(Clone, Copy, Debug)]
pub enum SleepRequest {
    /// Take the task's pending notifications, waiting at most `timeout`
    /// milliseconds for the first; `TIMEOUT_MAX` waits without limit.
    NotifyTake { timeout: u32 },
    /// Delay the task for `millis` milliseconds.
    Delay { millis: u32 },
    /// The time has passed: nothing is asked and the task goes on at once.
    Nothing,
}

impl SleepRequest {
    /// Whether the request can suspend the task at all.
    pub open spec fn may_block(self) -> bool {
        match self {
            SleepRequest::NotifyTake { timeout } => timeout > 0,
            SleepRequest::Delay { millis } => millis > 0,
            SleepRequest::Nothing => false,
        }
    }
}

impl GenericSleep {
    /// Whether an incoming notification ends the sleep.
    pub open spec fn wakes_on_notify(self) -> bool {
        self is NotifyTake
    }

    /// The sleep of an event that is ready now: its time has passed
    /// whatever the clock reads, so that it ends at once.
    pub open spec fn spec_ready() -> GenericSleep {
        GenericSleep::Timestamp(Instant(0))
    }

    /// Whether the sleep's time has come when the clock reads `now`.
    pub open spec fn due(self, now: Instant) -> bool {
        self.spec_timeout() matches Some(v) && v@ <= now@
    }

    /// The instant at which the sleep ends by itself, if there is one.
    pub open spec fn spec_timeout(self) -> Option<Instant> {
        match self {
            GenericSleep::NotifyTake(v) => v,
            GenericSleep::Timestamp(v) => Some(v),
        }
    }

    /// The sleep that ends as soon as either of the two would.
    pub open spec fn spec_combine(self, other: GenericSleep) -> GenericSleep {
        if self.wakes_on_notify() || other.wakes_on_notify() {
            GenericSleep::NotifyTake(earliest(self.spec_timeout(), other.spec_timeout()))
        } else {
            GenericSleep::Timestamp(self->Timestamp_0.spec_earlier(other->Timestamp_0))
        }
    }

    /// What the sleep asks of the kernel when the clock reads `now`.
    pub open spec fn spec_request(self, now: Instant) -> SleepRequest {
        match self {
            GenericSleep::NotifyTake(None) => SleepRequest::NotifyTake { timeout: TIMEOUT_MAX },
            GenericSleep::NotifyTake(Some(v)) => SleepRequest::NotifyTake {
                timeout: if v@ >= now@ { (v@ - now@) as u32 } else { 0 },
            },
            GenericSleep::Timestamp(v) => if v@ >= now@ {
                SleepRequest::Delay { millis: (v@ - now@) as u32 }
            } else {
                SleepRequest::Nothing
            },
        }
    }

    /// The number of notifications that the sleep reports once the kernel has
    /// answered `taken` to a notification wait.
    pub open spec fn spec_woken(self, taken: u32) -> u32 {
        match self {
            GenericSleep::NotifyTake(_) => taken,
            GenericSleep::Timestamp(_) => 0,
        }
    }

    /// The sleep of an event that is ready now: its time has passed
    /// whatever the clock reads, so that it ends at once.
    pub fn ready() -> (r: GenericSleep)
        ensures
            r == Self::spec_ready(),
            forall|now: Instant| r.due(now),
    {
        GenericSleep::Timestamp(Instant::from_millis(0))
    }

    /// The instant at which the sleep ends by itself, if there is one.
    #[inline]
    pub fn timeout(self) -> (r: Option<Instant>)
        ensures
            r == self.spec_timeout(),
    {
        match self {
            GenericSleep::NotifyTake(v) => v,
            GenericSleep::Timestamp(v) => Some(v),
        }
    }

    /// Merges two sleeps into the one that ends at the earliest time at which
    /// either would. Two timestamps give the earlier timestamp. As soon as one
    /// side waits for a notification the result does too, up to the earlier of
    /// the two instants, an absent instant counting as never.
    pub fn combine(self, other: GenericSleep) -> (r: GenericSleep)
        ensures
            r == self.spec_combine(other),
            r.wakes_on_notify() == (self.wakes_on_notify() || other.wakes_on_notify()),
            r.spec_timeout() == earliest(self.spec_timeout(), other.spec_timeout()),
    {
        match (self, other) {
            (GenericSleep::Timestamp(a), GenericSleep::Timestamp(b)) => GenericSleep::Timestamp(
                a.earlier(b),
            ),
            (a, b) => {
                let merged = match a.timeout() {
                    None => b.timeout(),
                    Some(x) => match b.timeout() {
                        None => Some(x),
                        Some(y) => Some(x.earlier(y)),
                    },
                };
                GenericSleep::NotifyTake(merged)
            },
        }
    }

    /// Decides what to ask of the kernel in order to sleep until the time that
    /// `self` stands for, given the clock's reading `now`. A notification wait
    /// lasts until the instant, not at all if the instant has passed, and
    /// without limit if there is none. A timestamp delays the task for what is
    /// left until the instant and asks nothing once it has passed.
    pub fn sleep(self, now: Instant) -> (r: SleepRequest)
        ensures
            r == self.spec_request(now),
            self.due(now) ==> !r.may_block(),
    {
        match self {
            GenericSleep::NotifyTake(None) => SleepRequest::NotifyTake { timeout: TIMEOUT_MAX },
            GenericSleep::NotifyTake(Some(v)) => match v.checked_sub_instant(now) {
                Some(d) => SleepRequest::NotifyTake { timeout: d },
                None => SleepRequest::NotifyTake { timeout: 0 },
            },
            GenericSleep::Timestamp(v) => match v.checked_sub_instant(now) {
                Some(d) => SleepRequest::Delay { millis: d },
                None => SleepRequest::Nothing,
            },
        }
    }

    /// The number of notifications that were present when the sleep ended:
    /// what the kernel answered to a notification wait (`taken`, which is 0
    /// after a plain timeout), and always 0 for a timestamp.
    pub fn woken(self, taken: u32) -> (r: u32)
        ensures
            r == self.spec_woken(taken),
    {
        match self {
            GenericSleep::NotifyTake(_) => taken,
            GenericSleep::Timestamp(_) => 0,
        }
    }
}

/// Merging two sleeps does not depend on their order.
pub proof fn lemma_combine_commutative(a: GenericSleep, b: GenericSleep)
    ensures
        a.spec_combine(b) == b.spec_combine(a),
{
}

/// Merging three sleeps does not depend on how they are grouped.
pub proof fn lemma_combine_associative(a: GenericSleep, b: GenericSleep, c: GenericSleep)
    ensures
        a.spec_combine(b).spec_combine(c) == a.spec_combine(b.spec_combine(c)),
{
}

/// A merged sleep ends no later than either of its parts: where both parts
/// name an instant, the result names one that is at most each of them, and it
/// is one of the two.
pub proof fn lemma_combine_earliest(a: GenericSleep, b: GenericSleep)
    ensures
        no_later(a.spec_combine(b).spec_timeout(), a.spec_timeout()),
        no_later(a.spec_combine(b).spec_timeout(), b.spec_timeout()),
        forall|x: Instant, y: Instant|
            a.spec_timeout() == Some(x) && b.spec_timeout() == Some(y) ==> a.spec_combine(
                b,
            ).spec_timeout() == Some(x.spec_earlier(y)) && x.spec_earlier(y)@ <= x@
                && x.spec_earlier(y)@ <= y@,
{
}

/// A merged sleep whose time has come for one of its parts does not suspend
/// the task: where one event is ready, the sleep before the next poll ends
/// at once, whatever the other events wait for.
pub proof fn lemma_combine_due(a: GenericSleep, b: GenericSleep, now: Instant)
    requires
        a.due(now) || b.due(now),
    ensures
        a.spec_combine(b).due(now),
        !a.spec_combine(b).spec_request(now).may_block(),
{
}

} // verus!
