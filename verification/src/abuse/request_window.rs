//! Requests of the recent past, counted by key.

use crate::abuse::queue;
use crate::table;
use crate::table::Table;
use crate::table::TableKey;
use crate::time;
use crate::time::Duration;
use crate::time::Instant;
use vstd::prelude::*;

verus! {

/// The instants of the requests with one key.
pub struct RequestWindow {
    timestamps: Vec<Instant>,
}

/// The requests that are younger than the window.
pub open spec fn current(log: Seq<nat>, window: nat, now: nat) -> Seq<nat> {
    log.filter(|t: nat| time::elapsed(now, t) < window)
}

/// Whether fewer than `max` requests (their number cut to 32 bits) are younger
/// than the window.
pub open spec fn admits(log: Seq<nat>, window: nat, max: u32, now: nat) -> bool {
    (current(log, window, now).len() as u32) < max
}

/// The earliest of at least one instant.
pub open spec fn earliest(s: Seq<nat>) -> nat
    decreases s.len(),
{
    if s.len() <= 1 {
        s[0]
    } else {
        let before = earliest(s.drop_last());
        if s.last() < before {
            s.last()
        } else {
            before
        }
    }
}

/// The seconds until the oldest of the requests leaves the window, at least
/// one, where there are `max` or more.
pub open spec fn retry_after(log: Seq<nat>, window: nat, max: u32, now: nat) -> Option<u64> {
    let young = current(log, window, now);
    if admits(log, window, max, now) || young.len() == 0 {
        None
    } else {
        let secs = (window - time::elapsed(now, earliest(young))) as nat
            / time::NANOS_PER_SEC as nat;
        Some(if secs < 1 {
            1
        } else {
            secs as u64
        })
    }
}

impl RequestWindow {
    /// The instants of the requests.
    pub closed spec fn log(&self) -> Seq<nat> {
        self.timestamps@.map_values(|t: Instant| t@)
    }

    /// A window without requests.
    pub fn new() -> (w: RequestWindow)
        ensures
            w.log() == Seq::<nat>::empty(),
    {
        let w = RequestWindow { timestamps: Vec::new() };
        assert(w.log() =~= Seq::<nat>::empty());
        w
    }

    /// Drops the requests that are not younger than the window.
    pub fn evict_old(&mut self, window: Duration, now: Instant)
        ensures
            final(self).log() == current(old(self).log(), window@, now@),
    {
        let mut young: Vec<Instant> = Vec::new();
        let mut i: usize = 0;
        let ghost p = |t: nat| time::elapsed(now@, t) < window@;
        proof {
            reveal(Seq::filter);
            assert(young@.map_values(|t: Instant| t@) =~= self.log().take(0).filter(p));
        }
        while i < self.timestamps.len()
            invariant
                i <= self.timestamps@.len(),
                p == (|t: nat| time::elapsed(now@, t) < window@),
                *self == *old(self),
                young@.map_values(|t: Instant| t@) == self.log().take(i as int).filter(p),
            decreases self.timestamps@.len() - i,
        {
            let t = self.timestamps[i];
            let ghost before = young@.map_values(|t: Instant| t@);
            proof {
                reveal(Seq::filter);
                assert(self.log().take(i as int + 1).drop_last() =~= self.log().take(i as int));
                assert(self.log().take(i as int + 1).last() == t@);
            }
            if now.duration_since(t).shorter_than(window) {
                young.push(t);
                assert(young@.map_values(|t: Instant| t@) =~= before.push(t@));
            }
            i = i + 1;
        }
        assert(self.log().take(i as int) =~= self.log());
        self.timestamps = young;
    }

    /// Drops the requests that are not younger than the window, and counts the
    /// others.
    pub fn count(&mut self, window: Duration, now: Instant) -> (n: u32)
        ensures
            final(self).log() == current(old(self).log(), window@, now@),
            n == final(self).log().len() as u32,
    {
        self.evict_old(window, now);
        self.timestamps.len() as u32
    }

    /// Records a request.
    pub fn record(&mut self, now: Instant)
        ensures
            final(self).log() == old(self).log().push(now@),
    {
        self.timestamps.push(now);
        assert(self.log() =~= old(self).log().push(now@));
    }

    /// Whether no request is younger than the window.
    pub fn is_stale(&self, window: Duration, now: Instant) -> (r: bool)
        ensures
            r == (current(self.log(), window@, now@).len() == 0),
    {
        let ghost p = |t: nat| time::elapsed(now@, t) < window@;
        let mut i: usize = 0;
        while i < self.timestamps.len()
            invariant
                i <= self.timestamps@.len(),
                p == (|t: nat| time::elapsed(now@, t) < window@),
                forall|j: int| 0 <= j < i ==> !p(#[trigger] self.log()[j]),
            decreases self.timestamps@.len() - i,
        {
            assert(self.log()[i as int] == self.timestamps@[i as int]@);
            if now.duration_since(self.timestamps[i]).shorter_than(window) {
                proof {
                    let x = self.log()[i as int];
                    assert(self.log().contains(x));
                    self.log().lemma_filter_contains(p, i as int);
                }
                return false;
            }
            i = i + 1;
        }
        proof {
            lemma_none_current(self.log(), p);
        }
        true
    }

    /// The seconds until the oldest request leaves the window, at least one,
    /// where there are `max` or more requests in it.
    pub fn seconds_until_retry(&mut self, window: Duration, now: Instant, max: u32) -> (r: Option<
        u64,
    >)
        ensures
            final(self).log() == current(old(self).log(), window@, now@),
            r == retry_after(old(self).log(), window@, max, now@),
    {
        self.evict_old(window, now);
        if (self.timestamps.len() as u32) < max || self.timestamps.len() == 0 {
            return None;
        }
        let mut oldest = self.timestamps[0];
        let mut i: usize = 1;
        proof {
            assert(self.log().take(1) =~= seq![oldest@]);
        }
        while i < self.timestamps.len()
            invariant
                1 <= i <= self.timestamps@.len(),
                oldest@ == earliest(self.log().take(i as int)),
                exists|j: int| 0 <= j < i && #[trigger] self.log()[j] == oldest@,
            decreases self.timestamps@.len() - i,
        {
            proof {
                assert(self.log().take(i as int + 1).drop_last() =~= self.log().take(i as int));
                assert(self.log().take(i as int + 1).last() == self.timestamps@[i as int]@);
                assert(self.log()[i as int] == self.timestamps@[i as int]@);
            }
            if self.timestamps[i].before(oldest) {
                oldest = self.timestamps[i];
            }
            i = i + 1;
        }
        proof {
            assert(self.log().take(i as int) =~= self.log());
            let j = choose|j: int| 0 <= j < i && #[trigger] self.log()[j] == oldest@;
            old(self).log().lemma_filter_pred(
                |t: nat| time::elapsed(now@, t) < window@,
                j,
            );
        }
        let secs: u64 = window.minus(now.duration_since(oldest)).as_secs();
        Some(if secs < 1 {
            1
        } else {
            secs
        })
    }
}

proof fn lemma_none_current(log: Seq<nat>, p: spec_fn(nat) -> bool)
    requires
        forall|j: int| 0 <= j < log.len() ==> !p(#[trigger] log[j]),
    ensures
        log.filter(p).len() == 0,
    decreases log.len(),
{
    reveal(Seq::filter);
    if log.len() > 0 {
        assert(!p(log[log.len() - 1]));
        assert forall|j: int| 0 <= j < log.drop_last().len() implies !p(
            #[trigger] log.drop_last()[j],
        ) by {
            assert(log.drop_last()[j] == log[j]);
        }
        lemma_none_current(log.drop_last(), p);
    }
}

proof fn lemma_current_twice(log: Seq<nat>, window: nat, now: nat, later: nat)
    requires
        now <= later,
    ensures
        current(current(log, window, now), window, later) == current(log, window, later),
    decreases log.len(),
{
    reveal(Seq::filter);
    if log.len() > 0 {
        lemma_current_twice(log.drop_last(), window, now, later);
        let before = current(log.drop_last(), window, now);
        assert(before.push(log.last()).drop_last() =~= before);
    }
}

proof fn lemma_earliest_is_in(s: Seq<nat>)
    requires
        s.len() > 0,
    ensures
        exists|j: int| 0 <= j < s.len() && #[trigger] s[j] == earliest(s),
    decreases s.len(),
{
    if s.len() > 1 {
        lemma_earliest_is_in(s.drop_last());
        let j = choose|j: int|
            0 <= j < s.drop_last().len() && #[trigger] s.drop_last()[j] == earliest(s.drop_last());
        assert(s[j] == s.drop_last()[j]);
        assert(s[s.len() - 1] == s.last());
    } else {
        assert(s[0] == earliest(s));
    }
}

/// The requests of each key.
pub struct KeyedWindows<K: TableKey> {
    windows: Table<K, RequestWindow>,
}

/// The requests with a key; one without a window has none.
pub open spec fn log_of<I>(m: Map<I, Seq<nat>>, key: I) -> Seq<nat> {
    if m.contains_key(key) {
        m[key]
    } else {
        Seq::empty()
    }
}

/// The windows after that of `key` was asked.
pub open spec fn asked_at<I>(m: Map<I, Seq<nat>>, key: I, window: nat, now: nat) -> Map<
    I,
    Seq<nat>,
> {
    m.insert(key, current(log_of(m, key), window, now))
}

/// The windows after a request with `key` was recorded.
pub open spec fn recorded_at<I>(m: Map<I, Seq<nat>>, key: I, now: nat) -> Map<I, Seq<nat>> {
    m.insert(key, log_of(m, key).push(now))
}

/// The windows that hold a request younger than the window.
pub open spec fn pruned<I>(m: Map<I, Seq<nat>>, window: nat, now: nat) -> Map<I, Seq<nat>> {
    table::kept(m, |log: Seq<nat>| current(log, window, now).len() > 0)
}

impl<K: TableKey> KeyedWindows<K> {
    /// What holds of every value.
    pub closed spec fn wf(&self) -> bool {
        self.windows.wf()
    }

    /// The requests of each key.
    pub closed spec fn logs(&self) -> Map<K::Id, Seq<nat>> {
        self.windows@.map_values(|w: RequestWindow| w.log())
    }

    /// No requests.
    pub fn new() -> (w: Self)
        ensures
            w.wf(),
            w.logs() == Map::<K::Id, Seq<nat>>::empty(),
    {
        let w = KeyedWindows { windows: Table::new() };
        assert(w.logs() =~= Map::<K::Id, Seq<nat>>::empty());
        w
    }

    /// Whether fewer than `max` requests with the key are in the window.
    pub fn check(&mut self, key: K, window: Duration, max: u32, now: Instant) -> (ok: bool)
        requires
            old(self).wf(),
        ensures
            final(self).wf(),
            final(self).logs() == asked_at(old(self).logs(), key.id(), window@, now@),
            ok == admits(log_of(old(self).logs(), key.id()), window@, max, now@),
    {
        let ghost id = key.id();
        let w = self.windows.entry_mut(key, RequestWindow::new());
        let n: u32 = w.count(window, now);
        assert(self.logs() =~= asked_at(old(self).logs(), id, window@, now@));
        n < max
    }

    /// Records a request with the key.
    pub fn record(&mut self, key: K, now: Instant)
        requires
            old(self).wf(),
        ensures
            final(self).wf(),
            final(self).logs() == recorded_at(old(self).logs(), key.id(), now@),
    {
        let ghost id = key.id();
        let w = self.windows.entry_mut(key, RequestWindow::new());
        w.record(now);
        assert(self.logs() =~= recorded_at(old(self).logs(), id, now@));
    }

    /// The seconds until a request with the key is admitted, if it is not now.
    pub fn seconds_until_retry(&mut self, key: K, window: Duration, max: u32, now: Instant) -> (r:
        Option<u64>)
        requires
            old(self).wf(),
        ensures
            final(self).wf(),
            final(self).logs() == asked_at(old(self).logs(), key.id(), window@, now@),
            r == retry_after(log_of(old(self).logs(), key.id()), window@, max, now@),
    {
        let ghost id = key.id();
        let w = self.windows.entry_mut(key, RequestWindow::new());
        let r = w.seconds_until_retry(window, now, max);
        assert(self.logs() =~= asked_at(old(self).logs(), id, window@, now@));
        r
    }

    /// Forgets every request.
    pub fn clear(&mut self)
        ensures
            final(self).wf(),
            final(self).logs() == Map::<K::Id, Seq<nat>>::empty(),
    {
        self.windows.clear();
        assert(self.logs() =~= Map::<K::Id, Seq<nat>>::empty());
    }

    /// Drops the keys without a request in the window, and says how many.
    pub fn prune_stale(&mut self, window: Duration, now: Instant) -> (n: usize)
        requires
            old(self).wf(),
        ensures
            final(self).wf(),
            final(self).logs() == pruned(old(self).logs(), window@, now@),
            n == old(self).logs().len() - final(self).logs().len(),
    {
        let keep = |w: &RequestWindow| -> (b: bool)
            ensures
                b == (current(w.log(), window@, now@).len() > 0),
            { !w.is_stale(window, now) };
        let n: usize = self.windows.retain(
            keep,
            Ghost(|w: RequestWindow| current(w.log(), window@, now@).len() > 0),
        );
        proof {
            assert(self.logs() =~= pruned(old(self).logs(), window@, now@));
            assert(self.logs().dom() =~= self.windows@.dom());
            assert(old(self).logs().dom() =~= old(self).windows@.dom());
        }
        n
    }
}

/// As long as every recorded request is younger than the window, one more is
/// admitted exactly if there are fewer than `max`.
pub proof fn law_ceiling(log: Seq<nat>, window: nat, max: u32, now: nat)
    requires
        log.len() <= u32::MAX,
        forall|i: int| 0 <= i < log.len() ==> time::elapsed(now, #[trigger] log[i]) < window,
    ensures
        admits(log, window, max, now) <==> log.len() < max,
{
    queue::lemma_filter_all(log, |t: nat| time::elapsed(now, t) < window);
    assert(log.len() as u32 == log.len());
}

/// Once no recorded request is younger than the window, one more is admitted.
pub proof fn law_admitted_after_the_window(log: Seq<nat>, window: nat, max: u32, now: nat)
    requires
        max > 0,
        forall|i: int| 0 <= i < log.len() ==> time::elapsed(now, #[trigger] log[i]) >= window,
    ensures
        admits(log, window, max, now),
{
    lemma_none_current(log, |t: nat| time::elapsed(now, t) < window);
}

/// A time to wait is given exactly if a request would not be admitted, and it
/// is at least a second.
pub proof fn law_wait_iff_refused(log: Seq<nat>, window: nat, max: u32, now: nat)
    requires
        max > 0,
        window <= time::MAX_NANOS,
    ensures
        retry_after(log, window, max, now) is None <==> admits(log, window, max, now),
        retry_after(log, window, max, now) matches Some(secs) ==> secs >= 1,
{
    let young = current(log, window, now);
    if young.len() == 0 {
        assert(young.len() as u32 == 0);
    } else {
        let secs = (window - time::elapsed(now, earliest(young))) as nat
            / time::NANOS_PER_SEC as nat;
        assert(window - time::elapsed(now, earliest(young)) > 0) by {
            lemma_earliest_is_in(young);
            let j = choose|j: int| 0 <= j < young.len() && #[trigger] young[j] == earliest(young);
            log.lemma_filter_pred(|t: nat| time::elapsed(now, t) < window, j);
        }
        assert(secs <= u64::MAX);
    }
}

/// To ask changes no later answer.
pub proof fn law_asking_records_nothing(
    log: Seq<nat>,
    window: nat,
    max: u32,
    now: nat,
    later: nat,
)
    requires
        now <= later,
    ensures
        admits(current(log, window, now), window, max, later) == admits(log, window, max, later),
{
    lemma_current_twice(log, window, now, later);
}

/// To drop keys without a request in the window changes no answer, now or
/// later.
pub proof fn law_pruning_changes_no_answer<I>(
    m: Map<I, Seq<nat>>,
    key: I,
    window: nat,
    max: u32,
    now: nat,
    later: nat,
)
    requires
        now <= later,
    ensures
        admits(log_of(pruned(m, window, now), key), window, max, later) == admits(
            log_of(m, key),
            window,
            max,
            later,
        ),
{
    if m.contains_key(key) && current(m[key], window, now).len() == 0 {
        lemma_current_twice(m[key], window, now, later);
        assert(current(m[key], window, now) =~= Seq::<nat>::empty());
        assert(!pruned(m, window, now).contains_key(key));
    }
}

/// The requests with one key count for no other.
pub proof fn law_keys_are_independent<I>(
    m: Map<I, Seq<nat>>,
    key: I,
    other: I,
    window: nat,
    now: nat,
)
    requires
        key != other,
    ensures
        log_of(asked_at(m, key, window, now), other) == log_of(m, other),
        log_of(recorded_at(m, key, now), other) == log_of(m, other),
{
}

/// How many of the instants lie less than the window before `now`.
pub open spec fn young(log: Seq<nat>, window: nat, now: nat) -> nat {
    log.filter(|t: nat| time::elapsed(now, t) < window).len()
}

/// The windows after the requests given, each a key and an instant.
pub open spec fn after_requests<I>(requests: Seq<(I, nat)>) -> Map<I, Seq<nat>>
    decreases requests.len(),
{
    if requests.len() == 0 {
        Map::empty()
    } else {
        recorded_at(
            after_requests(requests.drop_last()),
            requests.last().0,
            requests.last().1,
        )
    }
}

/// After any requests by anyone, one more with a key is admitted exactly where
/// fewer than `max` of the requests with this key are younger than the window;
/// those with other keys do not count.
pub proof fn law_requests_count_toward_their_key<I>(
    requests: Seq<(I, nat)>,
    key: I,
    window: nat,
    max: u32,
    now: nat,
)
    requires
        requests.len() <= u32::MAX,
    ensures
        admits(log_of(after_requests(requests), key), window, max, now) <==> requests.filter(
            |r: (I, nat)| r.0 == key && time::elapsed(now, r.1) < window,
        ).len() < max,
{
    lemma_requests_with_key(requests, key, window, now);
    let n = current(log_of(after_requests(requests), key), window, now).len();
    assert(n as u32 == n);
}

proof fn lemma_requests_with_key<I>(requests: Seq<(I, nat)>, key: I, window: nat, now: nat)
    ensures
        current(log_of(after_requests(requests), key), window, now).len() == requests.filter(
            |r: (I, nat)| r.0 == key && time::elapsed(now, r.1) < window,
        ).len(),
        current(log_of(after_requests(requests), key), window, now).len() <= requests.len(),
    decreases requests.len(),
{
    reveal(Seq::filter);
    if requests.len() > 0 {
        let before = requests.drop_last();
        let (k, t) = requests.last();
        lemma_requests_with_key(before, key, window, now);
        if k == key {
            let log = log_of(after_requests(before), key);
            assert(log_of(after_requests(requests), key) == log.push(t));
            assert(log.push(t).drop_last() =~= log);
        } else {
            assert(log_of(after_requests(requests), key) == log_of(after_requests(before), key));
        }
    }
}

/// The wait that is given is the whole number of seconds, at least one, until the
/// oldest of the requests in the window leaves it.
pub proof fn law_wait_until_the_oldest_leaves(log: Seq<nat>, window: nat, max: u32, now: nat)
    requires
        window <= time::MAX_NANOS,
    ensures
        retry_after(log, window, max, now) matches Some(secs) ==> exists|j: int|
            {
                &&& 0 <= j < log.len()
                &&& time::elapsed(now, #[trigger] log[j]) < window
                &&& forall|k: int|
                    0 <= k < log.len() && time::elapsed(now, #[trigger] log[k]) < window
                        ==> log[j] <= log[k]
                &&& ({
                    let left = window - time::elapsed(now, log[j]);
                    ||| secs * 1_000_000_000 <= left < (secs + 1) * 1_000_000_000
                    ||| secs == 1 && left < 1_000_000_000
                })
            },
{
    let p = |t: nat| time::elapsed(now, t) < window;
    let kept = current(log, window, now);
    if retry_after(log, window, max, now) is Some {
        let secs = retry_after(log, window, max, now)->0;
        lemma_earliest_is_in(kept);
        lemma_earliest_is_least(kept);
        let i = choose|i: int| 0 <= i < kept.len() && #[trigger] kept[i] == earliest(kept);
        log.lemma_filter_pred(p, i);
        lemma_filter_is_part(log, p, i);
        let j = choose|j: int| 0 <= j < log.len() && #[trigger] log[j] == kept[i];
        assert forall|k: int| 0 <= k < log.len() && time::elapsed(now, #[trigger] log[k])
            < window implies log[j] <= log[k] by {
            log.lemma_filter_contains(p, k);
            let m = choose|m: int| 0 <= m < kept.len() && kept[m] == log[k];
            assert(kept[m] >= earliest(kept));
        }
        let left = (window - time::elapsed(now, log[j])) as nat;
        assert(left / 1_000_000_000 <= u64::MAX);
        assert(secs * 1_000_000_000 <= left < (secs + 1) * 1_000_000_000 || (secs == 1 && left
            < 1_000_000_000));
    }
}

proof fn lemma_filter_is_part(log: Seq<nat>, p: spec_fn(nat) -> bool, i: int)
    requires
        0 <= i < log.filter(p).len(),
    ensures
        exists|j: int| 0 <= j < log.len() && #[trigger] log[j] == log.filter(p)[i],
    decreases log.len(),
{
    reveal(Seq::filter);
    if log.len() > 0 {
        let rest = log.drop_last();
        if i < rest.filter(p).len() {
            lemma_filter_is_part(rest, p, i);
            let j = choose|j: int| 0 <= j < rest.len() && #[trigger] rest[j] == rest.filter(p)[i];
            assert(log[j] == rest[j]);
        } else {
            assert(log[log.len() - 1] == log.filter(p)[i]);
        }
    }
}

proof fn lemma_earliest_is_least(s: Seq<nat>)
    requires
        s.len() > 0,
    ensures
        forall|j: int| 0 <= j < s.len() ==> earliest(s) <= #[trigger] s[j],
    decreases s.len(),
{
    if s.len() > 1 {
        lemma_earliest_is_least(s.drop_last());
        assert forall|j: int| 0 <= j < s.len() implies earliest(s) <= #[trigger] s[j] by {
            if j < s.len() - 1 {
                assert(s[j] == s.drop_last()[j]);
            }
        }
    }
}

} // verus!
