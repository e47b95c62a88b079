//! The value types of a workout definition: durations, start times and
//! repeat counts, with the arithmetic that relates them.

use vstd::prelude::*;
use vstd::std_specs::ops::AddSpec;
use vstd::std_specs::ops::MulSpec;

verus! {

/// A length of time in whole seconds.
#[derive(Copy, Clone, Debug, PartialEq, Eq, Structural)]
pub struct Duration(pub u32);

/// An offset in whole seconds from the start of the owning interval.
#[derive(Copy, Clone, Debug, PartialEq, Eq, Structural)]
pub struct StartTime(pub u32);

/// How many times an interval is performed.
#[derive(Copy, Clone, Debug, PartialEq, Eq, Structural)]
pub struct Quantity(pub u32);

/// The factor that an optional repeat count stands for: once where absent.
pub open spec fn repeat_factor(repeat: Option<Quantity>) -> nat {
    match repeat {
        Some(q) => q.0 as nat,
        None => 1,
    }
}

impl From<u32> for Duration {
    fn from(value: u32) -> (d: Duration) {
        Duration(value)
    }
}

impl vstd::std_specs::convert::FromSpecImpl<u32> for Duration {
    open spec fn obeys_from_spec() -> bool {
        true
    }

    open spec fn from_spec(value: u32) -> Duration {
        Duration(value)
    }
}

impl std::ops::Add<u32> for Duration {
    type Output = Duration;

    fn add(self, rhs: u32) -> (sum: Duration) {
        Duration(self.0 + rhs)
    }
}

impl vstd::std_specs::ops::AddSpecImpl<u32> for Duration {
    open spec fn obeys_add_spec() -> bool {
        true
    }

    open spec fn add_req(self, rhs: u32) -> bool {
        self.0 + rhs <= u32::MAX
    }

    open spec fn add_spec(self, rhs: u32) -> Duration {
        Duration((self.0 + rhs) as u32)
    }
}

impl std::ops::Add<Duration> for Duration {
    type Output = Duration;

    fn add(self, rhs: Duration) -> (sum: Duration) {
        Duration(self.0 + rhs.0)
    }
}

impl vstd::std_specs::ops::AddSpecImpl<Duration> for Duration {
    open spec fn obeys_add_spec() -> bool {
        true
    }

    open spec fn add_req(self, rhs: Duration) -> bool {
        self.0 + rhs.0 <= u32::MAX
    }

    open spec fn add_spec(self, rhs: Duration) -> Duration {
        Duration((self.0 + rhs.0) as u32)
    }
}

impl std::ops::Mul<Quantity> for Duration {
    type Output = Duration;

    fn mul(self, rhs: Quantity) -> (product: Duration) {
        Duration(self.0 * rhs.0)
    }
}

impl vstd::std_specs::ops::MulSpecImpl<Quantity> for Duration {
    open spec fn obeys_mul_spec() -> bool {
        true
    }

    open spec fn mul_req(self, rhs: Quantity) -> bool {
        self.0 * rhs.0 <= u32::MAX
    }

    open spec fn mul_spec(self, rhs: Quantity) -> Duration {
        Duration((self.0 * rhs.0) as u32)
    }
}

impl std::ops::AddAssign<u32> for Duration {
    fn add_assign(&mut self, rhs: u32)
        requires
            old(self).0 + rhs <= u32::MAX,
        ensures
            final(self).0 == old(self).0 + rhs,
    {
        self.0 = self.0 + rhs;
    }
}

impl std::ops::AddAssign<Duration> for Duration {
    fn add_assign(&mut self, rhs: Duration)
        requires
            old(self).0 + rhs.0 <= u32::MAX,
        ensures
            final(self).0 == old(self).0 + rhs.0,
    {
        self.0 = self.0 + rhs.0;
    }
}

impl From<u32> for StartTime {
    fn from(value: u32) -> (t: StartTime) {
        StartTime(value)
    }
}

impl vstd::std_specs::convert::FromSpecImpl<u32> for StartTime {
    open spec fn obeys_from_spec() -> bool {
        true
    }

    open spec fn from_spec(value: u32) -> StartTime {
        StartTime(value)
    }
}

impl std::ops::Add<StartTime> for StartTime {
    type Output = StartTime;

    fn add(self, rhs: StartTime) -> (sum: StartTime) {
        StartTime(self.0 + rhs.0)
    }
}

impl vstd::std_specs::ops::AddSpecImpl<StartTime> for StartTime {
    open spec fn obeys_add_spec() -> bool {
        true
    }

    open spec fn add_req(self, rhs: StartTime) -> bool {
        self.0 + rhs.0 <= u32::MAX
    }

    open spec fn add_spec(self, rhs: StartTime) -> StartTime {
        StartTime((self.0 + rhs.0) as u32)
    }
}

impl std::ops::Add<Duration> for StartTime {
    type Output = StartTime;

    fn add(self, rhs: Duration) -> (sum: StartTime) {
        StartTime(self.0 + rhs.0)
    }
}

impl vstd::std_specs::ops::AddSpecImpl<Duration> for StartTime {
    open spec fn obeys_add_spec() -> bool {
        true
    }

    open spec fn add_req(self, rhs: Duration) -> bool {
        self.0 + rhs.0 <= u32::MAX
    }

    open spec fn add_spec(self, rhs: Duration) -> StartTime {
        StartTime((self.0 + rhs.0) as u32)
    }
}

impl std::ops::AddAssign<Duration> for StartTime {
    fn add_assign(&mut self, rhs: Duration)
        requires
            old(self).0 + rhs.0 <= u32::MAX,
        ensures
            final(self).0 == old(self).0 + rhs.0,
    {
        self.0 = self.0 + rhs.0;
    }
}

impl std::ops::AddAssign<StartTime> for StartTime {
    fn add_assign(&mut self, rhs: StartTime)
        requires
            old(self).0 + rhs.0 <= u32::MAX,
        ensures
            final(self).0 == old(self).0 + rhs.0,
    {
        self.0 = self.0 + rhs.0;
    }
}

/// Multiplying by a repeat count distributes over the sum of two durations.
pub proof fn lemma_repeat_distributes(a: Duration, b: Duration, q: Quantity)
    requires
        a.add_req(b),
        a.add_spec(b).mul_req(q),
    ensures
        a.mul_req(q),
        b.mul_req(q),
        a.mul_spec(q).add_req(b.mul_spec(q)),
        a.add_spec(b).mul_spec(q) == a.mul_spec(q).add_spec(b.mul_spec(q)),
{
    assert((a.0 + b.0) * q.0 == a.0 * q.0 + b.0 * q.0) by (nonlinear_arith);
    assert(a.0 * q.0 >= 0 && b.0 * q.0 >= 0) by (nonlinear_arith);
}

} // verus!
