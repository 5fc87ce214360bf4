//! Queues of instants, oldest first, from whose front old ones are dropped.

use crate::time::Instant;
use std::collections::VecDeque;
use vstd::prelude::*;

verus! {

/// The instants as numbers.
pub open spec fn times(q: Seq<Instant>) -> Seq<nat> {
    q.map_values(|t: Instant| t@)
}

/// What is left of `s` when the front is dropped as long as it satisfies `p`.
pub open spec fn drop_while(s: Seq<nat>, p: spec_fn(nat) -> bool) -> Seq<nat>
    decreases s.len(),
{
    if s.len() > 0 && p(s[0]) {
        drop_while(s.drop_first(), p)
    } else {
        s
    }
}

/// That the clock did not go back from one time to the next.
pub open spec fn in_order(times: Seq<nat>) -> bool {
    forall|i: int, j: int| 0 <= i <= j < times.len() ==> times[i] <= times[j]
}

/// Drops the front as long as it lies before `cutoff`.
pub fn drop_before(q: &mut VecDeque<Instant>, cutoff: Instant)
    ensures
        times(final(q)@) == drop_while(times(old(q)@), |t: nat| t < cutoff@),
        final(q)@.len() <= old(q)@.len(),
{
    let ghost p = |t: nat| t < cutoff@;
    while q.len() > 0 && q[0].before(cutoff)
        invariant
            p == (|t: nat| t < cutoff@),
            q@.len() <= old(q)@.len(),
            drop_while(times(old(q)@), p) == drop_while(times(q@), p),
        decreases q@.len(),
    {
        let ghost before = q@;
        let _ = q.pop_front();
        proof {
            assert(times(before)[0] == before[0]@);
            assert(times(q@) =~= times(before).drop_first());
        }
    }
    proof {
        if q@.len() > 0 {
            assert(times(q@)[0] == q@[0]@);
        }
    }
}

/// Drops the front as long as it does not lie after `cutoff`.
pub fn drop_up_to(q: &mut VecDeque<Instant>, cutoff: Instant)
    ensures
        times(final(q)@) == drop_while(times(old(q)@), |t: nat| t <= cutoff@),
{
    let ghost p = |t: nat| t <= cutoff@;
    while q.len() > 0 && !cutoff.before(q[0])
        invariant
            p == (|t: nat| t <= cutoff@),
            drop_while(times(old(q)@), p) == drop_while(times(q@), p),
        decreases q@.len(),
    {
        let ghost before = q@;
        let _ = q.pop_front();
        proof {
            assert(times(before)[0] == before[0]@);
            assert(times(q@) =~= times(before).drop_first());
        }
    }
    proof {
        if q@.len() > 0 {
            assert(times(q@)[0] == q@[0]@);
        }
    }
}

/// Where nothing satisfies `p` all is kept.
pub proof fn lemma_drop_nothing(s: Seq<nat>, p: spec_fn(nat) -> bool)
    requires
        s.len() > 0 ==> !p(s[0]),
    ensures
        drop_while(s, p) == s,
{
}

/// Where everything satisfies `p` nothing is kept.
pub proof fn lemma_drop_all(s: Seq<nat>, p: spec_fn(nat) -> bool)
    requires
        forall|i: int| 0 <= i < s.len() ==> p(#[trigger] s[i]),
    ensures
        drop_while(s, p).len() == 0,
    decreases s.len(),
{
    if s.len() > 0 {
        assert(p(s[0]));
        let rest = s.drop_first();
        assert forall|i: int| 0 <= i < rest.len() implies p(#[trigger] rest[i]) by {
            assert(rest[i] == s[i + 1]);
        }
        lemma_drop_all(rest, p);
    }
}

/// Dropping up to an earlier cutoff first changes nothing.
pub proof fn lemma_drop_twice(s: Seq<nat>, first: nat, second: nat)
    requires
        first <= second,
    ensures
        drop_while(drop_while(s, |t: nat| t < first), |t: nat| t < second) == drop_while(
            s,
            |t: nat| t < second,
        ),
    decreases s.len(),
{
    if s.len() > 0 && s[0] < first {
        lemma_drop_twice(s.drop_first(), first, second);
    }
}

/// Where everything satisfies `p` the filter keeps all.
pub proof fn lemma_filter_all(s: Seq<nat>, p: spec_fn(nat) -> bool)
    requires
        forall|i: int| 0 <= i < s.len() ==> p(#[trigger] s[i]),
    ensures
        s.filter(p) == s,
    decreases s.len(),
{
    reveal(Seq::filter);
    if s.len() > 0 {
        assert(p(s[s.len() - 1]));
        assert forall|i: int| 0 <= i < s.drop_last().len() implies p(
            #[trigger] s.drop_last()[i],
        ) by {
            assert(s.drop_last()[i] == s[i]);
        }
        lemma_filter_all(s.drop_last(), p);
        assert(s.drop_last().push(s.last()) =~= s);
    }
}

/// Where the times are in order and every one after a kept one is kept too,
/// dropping from the front leaves all that is kept, and only that.
pub proof fn lemma_drop_is_filter(
    s: Seq<nat>,
    dropped: spec_fn(nat) -> bool,
    kept: spec_fn(nat) -> bool,
)
    requires
        in_order(s),
        forall|t: nat| #[trigger] dropped(t) <==> !kept(t),
        forall|t: nat, u: nat| t <= u && #[trigger] kept(t) ==> #[trigger] kept(u),
    ensures
        drop_while(s, dropped) == s.filter(kept),
    decreases s.len(),
{
    if s.len() > 0 && dropped(s[0]) {
        let rest = s.drop_first();
        assert(in_order(rest)) by {
            assert forall|i: int, j: int| 0 <= i <= j < rest.len() implies rest[i] <= rest[j] by {
                assert(rest[i] == s[i + 1] && rest[j] == s[j + 1]);
            }
        }
        lemma_drop_is_filter(rest, dropped, kept);
        assert(s =~= seq![s[0]] + rest);
        assert(seq![s[0]].filter(kept) =~= Seq::<nat>::empty()) by {
            reveal_with_fuel(Seq::filter, 2);
            assert(seq![s[0]].drop_last() =~= Seq::<nat>::empty());
            assert(seq![s[0]].last() == s[0]);
        }
        Seq::filter_distributes_over_add(seq![s[0]], rest, kept);
        assert(Seq::<nat>::empty() + rest.filter(kept) =~= rest.filter(kept));
    } else if s.len() > 0 {
        assert(!dropped(s[0]));
        assert(kept(s[0]));
        lemma_filter_all(s, kept);
    } else {
        lemma_filter_all(s, kept);
    }
}

} // verus!
