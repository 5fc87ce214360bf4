//! A ceiling on admissions per second, for the whole service.

use vstd::prelude::*;

verus! {

/// Admits at most `max_per_sec` requests in each second; with a ceiling of zero
/// the request that opens a second is still admitted.
///
/// The state is one word: the upper half is the current second (cut to 32
/// bits), the lower half the admissions that are left in it.
pub struct GlobalRateLimiter {
    state: u64,
    max_per_sec: u32,
}

/// The word that holds a second and the admissions left in it.
pub open spec fn packed(epoch: u32, tokens: u32) -> u64 {
    (epoch * 0x1_0000_0000 + tokens) as u64
}

/// Packs a second and the admissions left in it into one word.
pub fn pack(epoch: u32, tokens: u32) -> (state: u64)
    ensures
        state == packed(epoch, tokens),
{
    let state: u64 = ((epoch as u64) << 32) | (tokens as u64);
    assert(((epoch as u64) << 32u64) | (tokens as u64) == (epoch as u64) * 0x1_0000_0000u64 + (
    tokens as u64)) by (bit_vector);
    state
}

/// Unpacks what `pack` has packed.
pub fn unpack(state: u64) -> (r: (u32, u32))
    ensures
        state == packed(r.0, r.1),
        forall|epoch: u32, tokens: u32|
            state == #[trigger] packed(epoch, tokens) ==> r == (epoch, tokens),
{
    let epoch: u32 = (state >> 32) as u32;
    let tokens: u32 = state as u32;
    assert(state == ((state >> 32u64) as u32) * 0x1_0000_0000u64 + (state as u32)) by (bit_vector);
    (epoch, tokens)
}

/// What one request does: whether it is admitted, and the second and the
/// admissions left after it.
pub open spec fn admission(epoch: u32, tokens: u32, max_per_sec: u32, now: u32) -> (
    bool,
    (u32, u32),
) {
    if epoch != now {
        (true, (now, if max_per_sec == 0 {
            0u32
        } else {
            (max_per_sec - 1) as u32
        }))
    } else if tokens == 0 {
        (false, (epoch, tokens))
    } else {
        (true, (epoch, (tokens - 1) as u32))
    }
}

/// What one request does to a packed state: whether it is admitted, and the
/// state after it. A shared state is updated by exchanging the one for the
/// other, and trying again where it has changed meanwhile.
pub fn take_token(state: u64, max_per_sec: u32, now_unix: u64) -> (r: (bool, u64))
    ensures
        forall|epoch: u32, tokens: u32|
            state == #[trigger] packed(epoch, tokens) ==> {
                let (ok, (e, t)) = admission(epoch, tokens, max_per_sec, now_unix as u32);
                r == (ok, packed(e, t))
            },
{
    let now_epoch: u32 = now_unix as u32;
    let (epoch, tokens) = unpack(state);
    if epoch != now_epoch {
        (true, pack(now_epoch, max_per_sec.saturating_sub(1)))
    } else if tokens == 0 {
        (false, state)
    } else {
        (true, pack(epoch, tokens - 1))
    }
}

impl GlobalRateLimiter {
    /// The second and the admissions left in it.
    pub closed spec fn epoch_and_tokens(&self) -> (u32, u32) {
        choose|et: (u32, u32)| self.state == #[trigger] packed(et.0, et.1)
    }

    /// The admissions per second.
    pub closed spec fn ceiling(&self) -> u32 {
        self.max_per_sec
    }

    /// A fresh limiter.
    pub fn new(max_per_sec: u32) -> (l: GlobalRateLimiter)
        ensures
            l.ceiling() == max_per_sec,
            l.epoch_and_tokens() == (0u32, max_per_sec),
    {
        let l = GlobalRateLimiter { state: pack(0, max_per_sec), max_per_sec };
        proof {
            l.lemma_packed((0u32, max_per_sec));
        }
        l
    }

    proof fn lemma_packed(&self, et: (u32, u32))
        requires
            self.state == packed(et.0, et.1),
        ensures
            self.epoch_and_tokens() == et,
    {
        let found = choose|x: (u32, u32)| self.state == #[trigger] packed(x.0, x.1);
        assert(self.state == packed(found.0, found.1));
        assert(found.0 * 0x1_0000_0000 + found.1 == et.0 * 0x1_0000_0000 + et.1);
    }

    /// Makes the limiter as if it were fresh.
    pub fn reconfigure(&mut self)
        ensures
            final(self).ceiling() == old(self).ceiling(),
            final(self).epoch_and_tokens() == (0u32, old(self).ceiling()),
    {
        self.state = pack(0, self.max_per_sec);
        proof {
            self.lemma_packed((0u32, self.max_per_sec));
        }
    }

    /// Asks for one admission in the second `now_unix`.
    pub fn allow(&mut self, now_unix: u64) -> (ok: bool)
        ensures
            final(self).ceiling() == old(self).ceiling(),
            (ok, final(self).epoch_and_tokens()) == admission(
                old(self).epoch_and_tokens().0,
                old(self).epoch_and_tokens().1,
                old(self).ceiling(),
                now_unix as u32,
            ),
    {
        let ghost before = *self;
        let parts = unpack(self.state);
        let (ok, state) = take_token(self.state, self.max_per_sec, now_unix);
        self.state = state;
        proof {
            before.lemma_packed(parts);
            assert(before.state == packed(parts.0, parts.1));
            let next = admission(parts.0, parts.1, self.max_per_sec, now_unix as u32).1;
            self.lemma_packed(next);
        }
        ok
    }
}

/// How many of the requests at the instants `at`, given in whole seconds cut to
/// 32 bits, are admitted in the second `second`, from a state on.
pub open spec fn admitted_in(
    epoch: u32,
    tokens: u32,
    max_per_sec: u32,
    at: Seq<u32>,
    second: u32,
) -> nat
    decreases at.len(),
{
    if at.len() == 0 {
        0
    } else {
        let (ok, (e, t)) = admission(epoch, tokens, max_per_sec, at[0]);
        admitted_in(e, t, max_per_sec, at.drop_first(), second) + if ok && at[0] == second {
            1nat
        } else {
            0nat
        }
    }
}

/// Of any number of requests within one second, exactly as many are admitted as
/// there are, up to the ceiling, if it is at least one: whatever other second
/// was current before, and from a fresh limiter.
pub proof fn law_admits_up_to_the_ceiling(
    epoch: u32,
    tokens: u32,
    max_per_sec: u32,
    second: u32,
    n: nat,
)
    requires
        max_per_sec >= 1,
        epoch != second || tokens == max_per_sec,
    ensures
        admitted_in(epoch, tokens, max_per_sec, Seq::new(n, |i: int| second), second) == if n
            <= max_per_sec {
            n
        } else {
            max_per_sec as nat
        },
{
    let at = Seq::new(n, |i: int| second);
    if n > 0 {
        if second == epoch {
            lemma_same_second(epoch, tokens, max_per_sec, at, second);
        } else {
            lemma_same_second(
                second,
                (max_per_sec - 1) as u32,
                max_per_sec,
                at.drop_first(),
                second,
            );
        }
    }
}

proof fn lemma_same_second(epoch: u32, tokens: u32, max_per_sec: u32, at: Seq<u32>, second: u32)
    requires
        epoch == second,
        forall|i: int| 0 <= i < at.len() ==> #[trigger] at[i] == second,
    ensures
        admitted_in(epoch, tokens, max_per_sec, at, second) == if at.len() <= tokens {
            at.len()
        } else {
            tokens as nat
        },
    decreases at.len(),
{
    if at.len() > 0 {
        assert(at[0] == second);
        let rest = at.drop_first();
        assert forall|i: int| 0 <= i < rest.len() implies #[trigger] rest[i] == second by {
            assert(rest[i] == at[i + 1]);
        }
        let t = admission(epoch, tokens, max_per_sec, at[0]).1.1;
        lemma_same_second(epoch, t, max_per_sec, rest, second);
    }
}

/// As long as time does not go back, no second sees more admissions than the
/// ceiling, which is at least one, whatever came before and however the
/// requests are spread.
pub proof fn law_no_second_exceeds_the_ceiling(max_per_sec: u32, at: Seq<u32>, second: u32)
    requires
        max_per_sec >= 1,
        forall|i: int, j: int| 0 <= i <= j < at.len() ==> #[trigger] at[i] <= #[trigger] at[j],
    ensures
        admitted_in(0, max_per_sec, max_per_sec, at, second) <= max_per_sec,
{
    lemma_ceiling(0, max_per_sec, max_per_sec, at, second);
}

proof fn lemma_ceiling(epoch: u32, tokens: u32, max_per_sec: u32, at: Seq<u32>, second: u32)
    requires
        max_per_sec >= 1,
        tokens <= max_per_sec,
        forall|i: int, j: int| 0 <= i <= j < at.len() ==> #[trigger] at[i] <= #[trigger] at[j],
        at.len() > 0 ==> epoch <= at[0],
    ensures
        epoch > second ==> admitted_in(epoch, tokens, max_per_sec, at, second) == 0,
        epoch == second ==> admitted_in(epoch, tokens, max_per_sec, at, second) <= tokens,
        epoch < second ==> admitted_in(epoch, tokens, max_per_sec, at, second) <= max_per_sec,
    decreases at.len(),
{
    if at.len() > 0 {
        let (e, t) = admission(epoch, tokens, max_per_sec, at[0]).1;
        let rest = at.drop_first();
        assert forall|i: int, j: int| 0 <= i <= j < rest.len() implies #[trigger] rest[i]
            <= #[trigger] rest[j] by {
            assert(rest[i] == at[i + 1]);
            assert(rest[j] == at[j + 1]);
        }
        if rest.len() > 0 {
            assert(rest[0] == at[1]);
            assert(at[0] <= at[1]);
        }
        lemma_ceiling(e, t, max_per_sec, rest, second);
    }
}

/// What the answers show within one second: the request that opens a second is
/// always admitted; after it one less than the ceiling are, and then none until
/// the second is over. A limiter that is made or reset has the whole ceiling.
pub proof fn law_admissions_run_out(
    asking: &mut GlobalRateLimiter,
    again: &mut GlobalRateLimiter,
    resetting: &mut GlobalRateLimiter,
    made: GlobalRateLimiter,
    max: u32,
    now: u64,
    first: bool,
    second: bool,
)
    requires
        call_ensures(GlobalRateLimiter::new, (max,), made),
        call_ensures(GlobalRateLimiter::allow, (asking, now), first),
        *old(again) == *final(asking),
        call_ensures(GlobalRateLimiter::allow, (again, now), second),
        call_ensures(GlobalRateLimiter::reconfigure, (resetting,), ()),
    ensures
        made.ceiling() == max,
        made.epoch_and_tokens() == (0u32, max),
        final(resetting).epoch_and_tokens() == (0u32, old(resetting).ceiling()),
        final(resetting).ceiling() == old(resetting).ceiling(),
        final(asking).ceiling() == old(asking).ceiling(),
        old(asking).epoch_and_tokens().0 != now as u32 ==> {
            &&& first
            &&& second <==> old(asking).ceiling() >= 2
        },
        old(asking).epoch_and_tokens().0 == now as u32 ==> {
            &&& first <==> old(asking).epoch_and_tokens().1 >= 1
            &&& second <==> old(asking).epoch_and_tokens().1 >= 2
        },
{
}

/// What was packed is unpacked as it was.
pub proof fn law_packing_loses_nothing(epoch: u32, tokens: u32, state: u64, r: (u32, u32))
    requires
        call_ensures(pack, (epoch, tokens), state),
        call_ensures(unpack, (state,), r),
    ensures
        r.0 == epoch,
        r.1 == tokens,
{
    assert(state == packed(epoch, tokens));
    assert(state == packed(r.0, r.1));
    assert(epoch * 0x1_0000_0000 + tokens == r.0 * 0x1_0000_0000 + r.1);
}

} // verus!
