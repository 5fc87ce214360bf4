//! Points of civil time, in UTC.

use vstd::prelude::*;

verus! {

/// Nanoseconds in a second.
pub const NANOS: i128 = 1_000_000_000;

/// Seconds in a day.
pub const SECS_PER_DAY: i64 = 86_400;

/// The first second that can be represented, in the year -262143.
pub const MIN_SECS: i64 = -8_334_601_228_800;

/// The last second that can be represented, in the year 262142.
pub const MAX_SECS: i64 = 8_210_266_876_799;

/// A point of time. Its view is the number of nanoseconds since the Unix epoch.
#[derive(Clone, Copy, Debug)]
pub struct UtcTime {
    secs: i64,
    nanos: u32,
}

impl View for UtcTime {
    type V = int;

    closed spec fn view(&self) -> int {
        self.secs * NANOS + self.nanos
    }
}

/// Whether a number of nanoseconds since the Unix epoch can be represented.
pub open spec fn representable(nanos: int) -> bool {
    MIN_SECS * NANOS <= nanos < (MAX_SECS + 1) * NANOS
}

/// The RFC 3339 notation of a point of time.
pub uninterp spec fn rfc3339_text(nanos: int) -> Seq<char>;

/// The point that a text gives in RFC 3339 notation, if it is in that notation:
/// a second since the Unix epoch, and the nanoseconds since that second. Within
/// a leap second these are a thousand million or more.
pub uninterp spec fn rfc3339_parsed(text: Seq<char>) -> Option<(i64, u32)>;

/// `DateTime::parse_from_rfc3339` of the `chrono` crate, with the `timestamp`
/// and the `timestamp_subsec_nanos` of the point that it reads. The pair is
/// named; nothing is said of why a text is not read.
#[verifier::external_body]
pub(crate) fn parse_from_rfc3339(text: &str) -> (r: Option<(i64, u32)>)
    ensures
        r == rfc3339_parsed(text@),
{
    match chrono::DateTime::parse_from_rfc3339(text) {
        Ok(t) => Some((t.timestamp(), t.timestamp_subsec_nanos())),
        Err(_) => None,
    }
}

/// The point that lies some nanoseconds after a second since the Unix epoch, if
/// it can be represented.
pub open spec fn point_after(parts: (i64, u32)) -> Option<int> {
    let nanos = parts.0 * NANOS + parts.1;
    if representable(nanos) {
        Some(nanos)
    } else {
        None
    }
}

impl UtcTime {
    #[verifier::type_invariant]
    spec fn in_range(self) -> bool {
        MIN_SECS <= self.secs <= MAX_SECS && self.nanos < NANOS
    }

    /// The point `nanos` nanoseconds after the second `secs` since the Unix
    /// epoch, or `None` where it cannot be represented.
    pub fn new(secs: i64, nanos: u32) -> (r: Option<UtcTime>)
        ensures
            r is Some <==> MIN_SECS <= secs <= MAX_SECS && nanos < NANOS,
            r matches Some(t) ==> t@ == secs * NANOS + nanos,
    {
        if MIN_SECS <= secs && secs <= MAX_SECS && nanos < 1_000_000_000 {
            Some(UtcTime { secs, nanos })
        } else {
            None
        }
    }

    /// The point `nanos` nanoseconds after the second `secs` since the Unix
    /// epoch, however many these are, or `None` where it cannot be represented.
    pub fn after(secs: i64, nanos: u32) -> (r: Option<UtcTime>)
        ensures
            match r {
                Some(t) => point_after((secs, nanos)) == Some(t@),
                None => point_after((secs, nanos)) is None,
            },
    {
        match secs.checked_add((nanos / 1_000_000_000) as i64) {
            Some(s) => UtcTime::new(s, nanos % 1_000_000_000),
            None => None,
        }
    }

    /// The whole seconds since the Unix epoch, and the nanoseconds since that
    /// second.
    pub fn parts(&self) -> (r: (i64, u32))
        ensures
            self@ == r.0 * NANOS + r.1,
            r.1 < NANOS,
            MIN_SECS <= r.0 <= MAX_SECS,
    {
        proof {
            use_type_invariant(self);
        }
        (self.secs, self.nanos)
    }

    /// Whether this point lies before the other.
    pub fn before(&self, other: UtcTime) -> (r: bool)
        ensures
            r == (self@ < other@),
    {
        proof {
            use_type_invariant(self);
            use_type_invariant(&other);
        }
        self.secs < other.secs || (self.secs == other.secs && self.nanos < other.nanos)
    }

    /// The point `secs` seconds later, or `None` where it cannot be represented.
    pub fn checked_add_secs(&self, secs: i64) -> (r: Option<UtcTime>)
        ensures
            r is Some <==> representable(self@ + secs * NANOS),
            r matches Some(t) ==> t@ == self@ + secs * NANOS,
    {
        proof {
            use_type_invariant(self);
        }
        let sum: i128 = self.secs as i128 + secs as i128;
        if MIN_SECS as i128 <= sum && sum <= MAX_SECS as i128 {
            Some(UtcTime { secs: sum as i64, nanos: self.nanos })
        } else {
            None
        }
    }

    /// Whether the point `days` days later can be represented.
    pub open spec fn can_add_days(&self, days: u32) -> bool {
        representable(self@ + days * SECS_PER_DAY * NANOS)
    }

    /// The point `days` days later.
    pub fn plus_days(&self, days: u32) -> (t: UtcTime)
        requires
            self.can_add_days(days),
        ensures
            t@ == self@ + days * SECS_PER_DAY * NANOS,
    {
        let r = self.checked_add_secs(days as i64 * SECS_PER_DAY);
        r.unwrap()
    }

    /// `DateTime::<Utc>::to_rfc3339` of the `chrono` crate, on the point that
    /// `DateTime::from_timestamp` makes of the seconds and nanoseconds. The
    /// text is named.
    #[verifier::external_body]
    pub(crate) fn rfc3339(&self) -> (s: String)
        ensures
            s@ == rfc3339_text(self@),
    {
        let t = chrono::DateTime::from_timestamp(self.secs, self.nanos).expect("in range");
        t.to_rfc3339()
    }
}

/// A point of time is what its seconds and nanoseconds say, later ones lie later,
/// and a day has 86,400 seconds of a thousand million nanoseconds.
pub proof fn law_points_of_time(
    secs: i64,
    nanos: u32,
    r: Option<UtcTime>,
    t: &UtcTime,
    shift: i64,
    moved: Option<UtcTime>,
    days: u32,
    day: UtcTime,
    other: UtcTime,
    before: bool,
)
    requires
        call_ensures(UtcTime::new, (secs, nanos), r),
        r is Some,
        *t == r->0,
        call_ensures(UtcTime::checked_add_secs, (t, shift), moved),
        call_ensures(UtcTime::plus_days, (t, days), day),
        call_ensures(UtcTime::before, (t, other), before),
    ensures
        t@ == secs * 1_000_000_000 + nanos,
        nanos < 1_000_000_000,
        moved is Some ==> moved->0@ == t@ + shift * 1_000_000_000,
        moved is Some <==> -8_334_601_228_800 <= secs + shift <= 8_210_266_876_799,
        day@ == t@ + days * 86_400 * 1_000_000_000,
        before <==> t@ < other@,
{
    assert(day@ == t@ + days * SECS_PER_DAY * NANOS);
    assert(days * SECS_PER_DAY * NANOS == days * 86_400 * 1_000_000_000);
}

/// The parts of a point make the point again, and nanoseconds beyond a second carry
/// over into the next ones.
pub proof fn law_parts_make_the_point(
    t: &UtcTime,
    parts: (i64, u32),
    again: Option<UtcTime>,
    secs: i64,
    nanos: u32,
    after: Option<UtcTime>,
)
    requires
        call_ensures(UtcTime::parts, (t,), parts),
        call_ensures(UtcTime::new, (parts.0, parts.1), again),
        call_ensures(UtcTime::after, (secs, nanos), after),
    ensures
        again is Some && again->0@ == t@,
        after is Some ==> after->0@ == secs * 1_000_000_000 + nanos,
        after is Some <==> -8_334_601_228_800 * 1_000_000_000 <= secs * 1_000_000_000 + nanos
            < 8_210_266_876_800 * 1_000_000_000,
{
}

} // verus!
