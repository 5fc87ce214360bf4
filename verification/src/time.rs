//! Monotonic instants and durations, counted in nanoseconds.

use vstd::prelude::*;

verus! {

/// Nanoseconds in a second.
pub const NANOS_PER_SEC: u128 = 1_000_000_000;

/// The longest duration and the latest instant that can be represented:
/// `u64::MAX` seconds and 999,999,999 nanoseconds.
pub const MAX_NANOS: u128 = 18_446_744_073_709_551_615_999_999_999;

/// A span of time. Its view is its length in nanoseconds.
#[derive(Clone, Copy, Debug)]
pub struct Duration {
    nanos: u128,
}

/// A point of a monotonic clock. Its view is the number of nanoseconds since
/// the clock's origin.
#[derive(Clone, Copy, Debug)]
pub struct Instant {
    nanos: u128,
}

impl View for Duration {
    type V = nat;

    closed spec fn view(&self) -> nat {
        self.nanos as nat
    }
}

impl View for Instant {
    type V = nat;

    closed spec fn view(&self) -> nat {
        self.nanos as nat
    }
}

/// Nanoseconds from `earlier` to `later`, zero where `earlier` is not earlier.
pub open spec fn elapsed(later: nat, earlier: nat) -> nat {
    if later >= earlier {
        (later - earlier) as nat
    } else {
        0
    }
}

impl Duration {
    #[verifier::type_invariant]
    spec fn in_range(self) -> bool {
        self.nanos <= MAX_NANOS
    }

    /// A duration of whole seconds.
    pub fn from_secs(secs: u64) -> (d: Duration)
        ensures
            d@ == secs * NANOS_PER_SEC,
    {
        Duration { nanos: secs as u128 * NANOS_PER_SEC }
    }

    /// A duration of whole milliseconds.
    pub fn from_millis(millis: u64) -> (d: Duration)
        ensures
            d@ == millis * 1_000_000,
    {
        Duration { nanos: millis as u128 * 1_000_000 }
    }

    /// A duration of whole nanoseconds.
    pub fn from_nanos(nanos: u64) -> (d: Duration)
        ensures
            d@ == nanos,
    {
        Duration { nanos: nanos as u128 }
    }

    /// The whole seconds in this duration.
    pub fn as_secs(&self) -> (secs: u64)
        ensures
            secs == self@ / NANOS_PER_SEC as nat,
    {
        proof {
            use_type_invariant(self);
        }
        (self.nanos / NANOS_PER_SEC) as u64
    }

    /// What is left of this duration after `other` of it has passed.
    pub fn minus(&self, other: Duration) -> (d: Duration)
        requires
            other@ <= self@,
        ensures
            d@ == self@ - other@,
    {
        proof {
            use_type_invariant(self);
        }
        Duration { nanos: self.nanos - other.nanos }
    }

    /// Whether this duration is shorter than `other`.
    pub fn shorter_than(&self, other: Duration) -> (r: bool)
        ensures
            r == (self@ < other@),
    {
        self.nanos < other.nanos
    }
}

impl Instant {
    #[verifier::type_invariant]
    spec fn in_range(self) -> bool {
        self.nanos <= MAX_NANOS
    }

    /// The instant that lies `since_origin` after the clock's origin.
    pub fn from_origin(since_origin: Duration) -> (t: Instant)
        ensures
            t@ == since_origin@,
    {
        proof {
            use_type_invariant(&since_origin);
        }
        Instant { nanos: since_origin.nanos }
    }

    /// The time from `earlier` to this instant; zero where `earlier` is later.
    pub fn duration_since(&self, earlier: Instant) -> (d: Duration)
        ensures
            d@ == elapsed(self@, earlier@),
    {
        proof {
            use_type_invariant(self);
        }
        if self.nanos >= earlier.nanos {
            Duration { nanos: self.nanos - earlier.nanos }
        } else {
            Duration { nanos: 0 }
        }
    }

    /// Whether this instant comes before `other`.
    pub fn before(&self, other: Instant) -> (r: bool)
        ensures
            r == (self@ < other@),
    {
        self.nanos < other.nanos
    }

    /// The instant `d` later, or `None` where it cannot be represented.
    pub fn checked_add(&self, d: Duration) -> (r: Option<Instant>)
        ensures
            r matches Some(t) ==> t@ == self@ + d@,
            r is None <==> self@ + d@ > MAX_NANOS,
    {
        proof {
            use_type_invariant(self);
            use_type_invariant(&d);
        }
        let sum: u128 = self.nanos + d.nanos;
        if sum <= MAX_NANOS {
            Some(Instant { nanos: sum })
        } else {
            None
        }
    }

    /// The instant `d` earlier, or `None` where it lies before the origin.
    pub fn checked_sub(&self, d: Duration) -> (r: Option<Instant>)
        ensures
            r matches Some(t) ==> t@ == self@ - d@,
            r is None <==> self@ < d@,
    {
        proof {
            use_type_invariant(self);
        }
        if self.nanos >= d.nanos {
            Some(Instant { nanos: self.nanos - d.nanos })
        } else {
            None
        }
    }

    /// The instant `d` later.
    pub fn plus(&self, d: Duration) -> (t: Instant)
        requires
            self@ + d@ <= MAX_NANOS,
        ensures
            t@ == self@ + d@,
    {
        Instant { nanos: self.nanos + d.nanos }
    }
}

/// What is added to an instant is the time from it to the later one; the other way
/// round no time has passed. A second has a thousand million nanoseconds.
pub proof fn law_time_adds_up(
    t: &Instant,
    d: Duration,
    later: Option<Instant>,
    after: &Instant,
    passed: Duration,
    back: Duration,
    secs: u64,
    of_secs: Duration,
    measured: &Duration,
    whole: u64,
)
    requires
        call_ensures(Instant::checked_add, (t, d), later),
        later is Some,
        *after == later->0,
        call_ensures(Instant::duration_since, (after, *t), passed),
        call_ensures(Instant::duration_since, (t, *after), back),
        call_ensures(Duration::from_secs, (secs,), of_secs),
        *measured == of_secs,
        call_ensures(Duration::as_secs, (measured,), whole),
    ensures
        passed@ == d@,
        back@ == 0,
        of_secs@ == secs * 1_000_000_000,
        whole == secs,
{
    assert((secs * 1_000_000_000) / 1_000_000_000 == secs);
}

/// An instant comes before another exactly where some time passes between them, and
/// can be taken back as far as the origin of the clock.
pub proof fn law_instants_are_ordered(
    a: &Instant,
    b: &Instant,
    before: bool,
    passed: Duration,
    d: Duration,
    earlier: Option<Instant>,
)
    requires
        call_ensures(Instant::before, (a, *b), before),
        call_ensures(Instant::duration_since, (b, *a), passed),
        call_ensures(Instant::checked_sub, (a, d), earlier),
    ensures
        before <==> passed@ > 0,
        earlier is Some <==> d@ <= a@,
        earlier is Some ==> earlier->0@ + d@ == a@,
{
}

} // verus!
