//! Points in time on the kernel's millisecond clock.

use vstd::prelude::*;

verus! {

/// The number of milliseconds in one second.
pub const MILLIS_PER_SEC: u32 = 1000;

/// A time on a monotonically increasing clock: the whole milliseconds that
/// have passed since the program started.
#[derive(Clone, Copy, Debug, PartialEq, Eq, Structural, PartialOrd, Ord, Hash)]
pub struct Instant(pub u32);

impl View for Instant {
    type V = nat;

    /// The instant as a count of milliseconds.
    open spec fn view(&self) -> nat {
        self.0 as nat
    }
}

impl Instant {
    /// The instant `millis` milliseconds after program start.
    #[inline]
    pub fn from_millis(millis: u32) -> (r: Instant)
        ensures
            r@ == millis,
    {
        Instant(millis)
    }

    /// The instant `secs` whole seconds after program start. The clock has
    /// 32 bits of milliseconds, so `secs` must fit into them.
    pub fn from_secs(secs: u32) -> (r: Instant)
        requires
            secs * 1000 <= u32::MAX,
        ensures
            r@ == secs * 1000,
    {
        Instant(secs * MILLIS_PER_SEC)
    }

    /// The whole milliseconds since program start.
    #[inline]
    pub fn as_millis(&self) -> (r: u32)
        ensures
            r == self@,
    {
        self.0
    }

    /// The whole seconds since program start, rounded down.
    #[inline]
    pub fn as_secs(&self) -> (r: u32)
        ensures
            r == self@ / 1000,
    {
        self.0 / MILLIS_PER_SEC
    }

    /// The milliseconds past the last whole second: always below one thousand.
    #[inline]
    pub fn subsec_millis(&self) -> (r: u32)
        ensures
            r == self@ % 1000,
            r < 1000,
    {
        self.0 % MILLIS_PER_SEC
    }

    /// `self` moved `rhs_millis` milliseconds into the future, or `None` where
    /// that time no longer fits the clock.
    pub fn checked_add(self, rhs_millis: u128) -> (r: Option<Instant>)
        ensures
            self@ + rhs_millis <= u32::MAX ==> r == Some(Instant((self@ + rhs_millis) as u32)),
            self@ + rhs_millis > u32::MAX ==> r is None,
    {
        if rhs_millis > 0xffff_ffffu128 {
            return None;
        }
        let rhs: u32 = rhs_millis as u32;
        if rhs > u32::MAX - self.0 {
            None
        } else {
            Some(Instant(self.0 + rhs))
        }
    }

    /// `self` moved `rhs_millis` milliseconds into the past, or `None` where
    /// that would lie before program start.
    pub fn checked_sub(self, rhs_millis: u128) -> (r: Option<Instant>)
        ensures
            rhs_millis <= self@ ==> r == Some(Instant((self@ - rhs_millis) as u32)),
            rhs_millis > self@ ==> r is None,
    {
        if rhs_millis > 0xffff_ffffu128 {
            return None;
        }
        let rhs: u32 = rhs_millis as u32;
        if rhs > self.0 {
            None
        } else {
            Some(Instant(self.0 - rhs))
        }
    }

    /// The milliseconds from `rhs` to `self`, or `None` where `rhs` is the
    /// later of the two.
    pub fn checked_sub_instant(self, rhs: Instant) -> (r: Option<u32>)
        ensures
            rhs@ <= self@ ==> r == Some((self@ - rhs@) as u32),
            rhs@ > self@ ==> r is None,
    {
        if rhs.0 > self.0 {
            None
        } else {
            Some(self.0 - rhs.0)
        }
    }

    /// The instant `rhs` times as far from program start, or `None` where that
    /// time no longer fits the clock.
    pub fn checked_mul(self, rhs: u32) -> (r: Option<Instant>)
        ensures
            self@ * rhs <= u32::MAX ==> r == Some(Instant((self@ * rhs) as u32)),
            self@ * rhs > u32::MAX ==> r is None,
    {
        let a: u64 = self.0 as u64;
        let b: u64 = rhs as u64;
        assert(a * b <= 0xffff_ffff * 0xffff_ffff) by (nonlinear_arith)
            requires
                a <= 0xffff_ffff,
                b <= 0xffff_ffff,
        ;
        let wide: u64 = a * b;
        if wide > 0xffff_ffffu64 {
            None
        } else {
            Some(Instant(wide as u32))
        }
    }

    /// The earlier of two instants.
    pub fn earlier(self, other: Instant) -> (r: Instant)
        ensures
            r == self.spec_earlier(other),
    {
        if self.0 <= other.0 {
            self
        } else {
            other
        }
    }

    /// The earlier of two instants.
    pub open spec fn spec_earlier(self, other: Instant) -> Instant {
        if self.0 <= other.0 {
            self
        } else {
            other
        }
    }
}

impl core::ops::Add<u128> for Instant {
    type Output = Instant;

    /// `self` moved `rhs` milliseconds into the future, which must still fit
    /// the clock.
    fn add(self, rhs: u128) -> (r: Instant) {
        Instant(self.0 + (rhs as u32))
    }
}

impl vstd::std_specs::ops::AddSpecImpl<u128> for Instant {
    open spec fn obeys_add_spec() -> bool {
        true
    }

    open spec fn add_req(self, rhs: u128) -> bool {
        self@ + rhs <= u32::MAX
    }

    open spec fn add_spec(self, rhs: u128) -> Instant {
        Instant((self@ + rhs) as u32)
    }
}

impl core::ops::Sub<u128> for Instant {
    type Output = Instant;

    /// `self` moved `rhs` milliseconds into the past, which must not lie
    /// before program start.
    fn sub(self, rhs: u128) -> (r: Instant) {
        Instant(self.0 - (rhs as u32))
    }
}

impl vstd::std_specs::ops::SubSpecImpl<u128> for Instant {
    open spec fn obeys_sub_spec() -> bool {
        true
    }

    open spec fn sub_req(self, rhs: u128) -> bool {
        rhs <= self@
    }

    open spec fn sub_spec(self, rhs: u128) -> Instant {
        Instant((self@ - rhs) as u32)
    }
}

impl core::ops::Sub<Instant> for Instant {
    type Output = u32;

    /// The milliseconds from `rhs` to `self`, where `rhs` must not be the
    /// later of the two.
    fn sub(self, rhs: Instant) -> (r: u32) {
        self.0 - rhs.0
    }
}

impl vstd::std_specs::ops::SubSpecImpl<Instant> for Instant {
    open spec fn obeys_sub_spec() -> bool {
        true
    }

    open spec fn sub_req(self, rhs: Instant) -> bool {
        rhs@ <= self@
    }

    open spec fn sub_spec(self, rhs: Instant) -> u32 {
        (self@ - rhs@) as u32
    }
}

impl core::ops::Mul<u32> for Instant {
    type Output = Instant;

    /// The instant `rhs` times as far from program start, which must still
    /// fit the clock.
    fn mul(self, rhs: u32) -> (r: Instant) {
        Instant(self.0 * rhs)
    }
}

impl vstd::std_specs::ops::MulSpecImpl<u32> for Instant {
    open spec fn obeys_mul_spec() -> bool {
        true
    }

    open spec fn mul_req(self, rhs: u32) -> bool {
        self@ * rhs <= u32::MAX
    }

    open spec fn mul_spec(self, rhs: u32) -> Instant {
        Instant((self@ * rhs) as u32)
    }
}

impl core::ops::Div<u32> for Instant {
    type Output = Instant;

    /// The instant at the `rhs`-th part of the way from program start,
    /// rounded down. The divisor must not be zero.
    #[inline]
    fn div(self, rhs: u32) -> (r: Instant) {
        Instant(self.0 / rhs)
    }
}

impl vstd::std_specs::ops::DivSpecImpl<u32> for Instant {
    open spec fn obeys_div_spec() -> bool {
        true
    }

    open spec fn div_req(self, rhs: u32) -> bool {
        rhs != 0
    }

    open spec fn div_spec(self, rhs: u32) -> Instant {
        Instant((self@ / rhs as nat) as u32)
    }
}

} // verus!
