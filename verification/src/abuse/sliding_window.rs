//! A window that slides over a log of instants.

use crate::abuse::queue;
use crate::time;
use crate::time::Duration;
use crate::time::Instant;
use std::collections::VecDeque;
use vstd::prelude::*;

verus! {

/// The instants of the recent past, oldest first.
pub struct SlidingWindow {
    timestamps: VecDeque<Instant>,
    window: Duration,
}

/// The instants that are no older than the window.
pub open spec fn live(log: Seq<nat>, window: nat, now: nat) -> Seq<nat> {
    log.filter(|t: nat| time::elapsed(now, t) <= window)
}

/// What is left of a log when the front is dropped as long as it is too old.
pub open spec fn pruned(log: Seq<nat>, window: nat, now: nat) -> Seq<nat> {
    queue::drop_while(log, |t: nat| time::elapsed(now, t) > window)
}

/// The seconds until the first of the live instants gets too old, at least
/// one, where `max` or more are live.
pub open spec fn retry_after(log: Seq<nat>, window: nat, max: nat, now: nat) -> Option<u64> {
    let l = live(log, window, now);
    if l.len() < max || l.len() == 0 {
        None
    } else {
        let secs = (window - time::elapsed(now, l[0])) as nat / time::NANOS_PER_SEC as nat;
        Some(if secs < 1 {
            1
        } else {
            secs as u64
        })
    }
}

impl SlidingWindow {
    /// The instants on record.
    pub closed spec fn log(&self) -> Seq<nat> {
        queue::times(self.timestamps@)
    }

    /// The length of the window.
    pub closed spec fn length(&self) -> nat {
        self.window@
    }

    /// An empty window.
    pub fn new(window: Duration) -> (w: SlidingWindow)
        ensures
            w.log() == Seq::<nat>::empty(),
            w.length() == window@,
    {
        let w = SlidingWindow { timestamps: VecDeque::new(), window };
        assert(w.log() =~= Seq::<nat>::empty());
        w
    }

    /// Records an instant.
    pub fn add(&mut self, now: Instant)
        ensures
            final(self).log() == old(self).log().push(now@),
            final(self).length() == old(self).length(),
    {
        self.timestamps.push_back(now);
        assert(self.log() =~= old(self).log().push(now@));
    }

    /// Drops the front as long as it is too old.
    pub fn prune(&mut self, now: Instant)
        ensures
            final(self).log() == pruned(old(self).log(), old(self).length(), now@),
            final(self).length() == old(self).length(),
    {
        let ghost p = |t: nat| time::elapsed(now@, t) > self.window@;
        while self.timestamps.len() > 0 && self.window.shorter_than(
            now.duration_since(self.timestamps[0]),
        )
            invariant
                p == (|t: nat| time::elapsed(now@, t) > self.window@),
                self.window == old(self).window,
                queue::drop_while(old(self).log(), p) == queue::drop_while(self.log(), p),
            decreases self.timestamps@.len(),
        {
            let ghost before = self.timestamps@;
            let _ = self.timestamps.pop_front();
            proof {
                assert(queue::times(before)[0] == before[0]@);
                assert(self.log() =~= queue::times(before).drop_first());
            }
        }
        proof {
            if self.timestamps@.len() > 0 {
                assert(self.log()[0] == self.timestamps@[0]@);
            }
        }
    }

    /// Drops what is too old from the front, and counts what is left.
    pub fn count(&mut self, now: Instant) -> (n: usize)
        ensures
            final(self).log() == pruned(old(self).log(), old(self).length(), now@),
            final(self).length() == old(self).length(),
            n == final(self).log().len(),
    {
        self.prune(now);
        self.timestamps.len()
    }

    /// Whether any instant is on record.
    pub fn has_any(&self) -> (r: bool)
        ensures
            r == (self.log().len() > 0),
    {
        self.timestamps.len() > 0
    }

    /// The seconds until the oldest live instant gets too old, at least one,
    /// where `max` or more instants are live.
    pub fn seconds_until_retry(&self, max: usize, now: Instant) -> (r: Option<u64>)
        ensures
            r == retry_after(self.log(), self.length(), max as nat, now@),
    {
        let mut count: usize = 0;
        let mut oldest: Option<Instant> = None;
        let mut i: usize = 0;
        let n: usize = self.timestamps.len();
        let ghost p = |t: nat| time::elapsed(now@, t) <= self.window@;
        proof {
            reveal(Seq::filter);
            assert(self.log().take(0).filter(p) =~= Seq::<nat>::empty());
        }
        while i < n
            invariant
                n == self.timestamps@.len(),
                i <= n,
                count <= i,
                p == (|t: nat| time::elapsed(now@, t) <= self.window@),
                count == self.log().take(i as int).filter(p).len(),
                oldest is Some <==> count > 0,
                oldest matches Some(t) ==> t@ == self.log().take(i as int).filter(p)[0],
            decreases n - i,
        {
            let t = self.timestamps[i];
            let ghost s = self.log().take(i as int);
            let ghost s2 = self.log().take(i as int + 1);
            proof {
                reveal(Seq::filter);
                assert(s2.drop_last() =~= s);
                assert(s2.last() == t@);
            }
            if !self.window.shorter_than(now.duration_since(t)) {
                proof {
                    assert(s2.filter(p) =~= s.filter(p).push(t@));
                }
                count = count + 1;
                if oldest.is_none() {
                    oldest = Some(t);
                }
            } else {
                assert(s2.filter(p) =~= s.filter(p));
            }
            i = i + 1;
        }
        assert(self.log().take(n as int) =~= self.log());
        let ghost l = live(self.log(), self.length(), now@);
        assert(l == self.log().filter(p));
        if count < max {
            return None;
        }
        match oldest {
            None => None,
            Some(t) => {
                proof {
                    self.log().lemma_filter_pred(p, 0);
                }
                let left = self.window.minus(now.duration_since(t));
                let secs: u64 = left.as_secs();
                Some(if secs < 1 {
                    1
                } else {
                    secs
                })
            },
        }
    }
}

/// Where the clock never went back, dropping the old front leaves exactly the
/// live instants, and changes no answer on when to try again.
pub proof fn law_pruning_keeps_what_is_live(log: Seq<nat>, window: nat, max: nat, now: nat)
    requires
        queue::in_order(log),
    ensures
        pruned(log, window, now) == live(log, window, now),
        retry_after(pruned(log, window, now), window, max, now) == retry_after(
            log,
            window,
            max,
            now,
        ),
{
    let kept = |t: nat| time::elapsed(now, t) <= window;
    queue::lemma_drop_is_filter(log, |t: nat| time::elapsed(now, t) > window, kept);
    let l = live(log, window, now);
    assert forall|i: int| 0 <= i < l.len() implies kept(#[trigger] l[i]) by {
        log.lemma_filter_pred(kept, i);
    }
    queue::lemma_filter_all(l, kept);
}

/// What the answers show of a log whose clock never went back: the count is that
/// of the instants no older than the window, and a wait is told exactly where
/// there are `max` of them or more; it is the whole number of seconds, at least
/// one, until the oldest of them gets too old.
pub proof fn law_counts_and_waits(
    adding: &mut SlidingWindow,
    counting: &mut SlidingWindow,
    asked: &SlidingWindow,
    at: Instant,
    now: Instant,
    max: usize,
    n: usize,
    wait: Option<u64>,
)
    requires
        call_ensures(SlidingWindow::add, (adding, at), ()),
        *old(counting) == *final(adding),
        *asked == *final(adding),
        queue::in_order(final(adding).log()),
        final(adding).length() <= time::MAX_NANOS,
        call_ensures(SlidingWindow::count, (counting, now), n),
        call_ensures(SlidingWindow::seconds_until_retry, (asked, max, now), wait),
    ensures
        ({
            let log = final(adding).log();
            let window = final(adding).length();
            let counted = log.filter(|t: nat| time::elapsed(now@, t) <= window);
            &&& log == old(adding).log().push(at@)
            &&& window == old(adding).length()
            &&& n == counted.len()
            &&& wait is Some <==> n >= max && n > 0
            &&& wait is Some ==> ({
                let left = window - time::elapsed(now@, counted[0]);
                ||| wait->0 * 1_000_000_000 <= left < (wait->0 + 1) * 1_000_000_000
                ||| wait->0 == 1 && left < 1_000_000_000
            })
        }),
{
    let log = final(adding).log();
    let window = final(adding).length();
    let kept = |t: nat| time::elapsed(now@, t) <= window;
    law_pruning_keeps_what_is_live(log, window, max as nat, now@);
    let counted = log.filter(kept);
    if wait is Some {
        log.lemma_filter_pred(kept, 0);
        let left = (window - time::elapsed(now@, counted[0])) as nat;
        assert(left / 1_000_000_000 <= u64::MAX);
    }
}

} // verus!
