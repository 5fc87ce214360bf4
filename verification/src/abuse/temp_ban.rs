//! Temporary bans of addresses that break the limits again and again.

use crate::abuse::queue;
use crate::net::IpAddr;
use crate::table;
use crate::table::Table;
use crate::table::TableKey;
use crate::text;
use crate::time;
use crate::time::Duration;
use crate::time::Instant;
use std::collections::VecDeque;
use vstd::prelude::*;

verus! {

/// When an address is banned, and for how long.
#[derive(Clone, Copy)]
pub struct TempBanConfig {
    pub threshold: u32,
    pub window: Duration,
    pub ban_duration: Duration,
    pub max_entries: usize,
}

impl TempBanConfig {
    /// The configuration from settings. One that is absent or no number counts
    /// as three violations, within 300 seconds, banned for 600 seconds, and a
    /// thousand bans.
    pub fn from_env(
        threshold: Option<&str>,
        window_secs: Option<&str>,
        ban_duration_secs: Option<&str>,
        max_entries: Option<&str>,
    ) -> (c: TempBanConfig)
        ensures
            c.threshold == text::setting(threshold, u32::MAX as nat, 3),
            c.window@ == text::setting(window_secs, u64::MAX as nat, 300) * time::NANOS_PER_SEC,
            c.ban_duration@ == text::setting(ban_duration_secs, u64::MAX as nat, 600)
                * time::NANOS_PER_SEC,
            c.max_entries == text::setting(max_entries, usize::MAX as nat, 1000),
    {
        TempBanConfig {
            threshold: text::u32_setting(threshold, 3),
            window: Duration::from_secs(text::u64_setting(window_secs, 300)),
            ban_duration: Duration::from_secs(text::u64_setting(ban_duration_secs, 600)),
            max_entries: text::usize_setting(max_entries, 1000),
        }
    }
}

struct BanEntry {
    banned_at: Instant,
    expires_at: Instant,
}

struct ViolationWindow {
    timestamps: VecDeque<Instant>,
}

/// The bans, and the violations of the recent past.
pub struct TempBanList {
    bans: Table<IpAddr, BanEntry>,
    violations: Table<IpAddr, ViolationWindow>,
    config: TempBanConfig,
}

/// The violations of an address; one that has none on record has none.
pub open spec fn violations_of(m: Map<IpAddr, Seq<nat>>, ip: IpAddr) -> Seq<nat> {
    if m.contains_key(ip) {
        m[ip]
    } else {
        Seq::empty()
    }
}

/// Whether an address is banned, where `bans` says when each ban ends.
pub open spec fn banned(bans: Map<IpAddr, nat>, ip: IpAddr, now: nat) -> bool {
    bans.contains_key(ip) && bans[ip] > now
}

/// The bans that have not ended.
pub open spec fn unexpired(bans: Map<IpAddr, nat>, now: nat) -> Map<IpAddr, nat> {
    table::kept(bans, |until: nat| until > now)
}

/// The bans after `ip` was to be banned: one that is banned stays so, and
/// where the list is full, even without the bans that have ended, nothing is
/// added.
pub open spec fn bans_after(
    bans: Map<IpAddr, nat>,
    c: TempBanConfig,
    ip: IpAddr,
    now: nat,
) -> Map<IpAddr, nat> {
    if banned(bans, ip, now) {
        bans
    } else {
        let room = if bans.len() >= c.max_entries {
            unexpired(bans, now)
        } else {
            bans
        };
        if room.len() >= c.max_entries {
            room
        } else {
            room.insert(ip, now + c.ban_duration@)
        }
    }
}

/// The bans after a violation of `ip`, where `times` are the violations that
/// count.
pub open spec fn bans_after_violation(
    bans: Map<IpAddr, nat>,
    c: TempBanConfig,
    ip: IpAddr,
    times: Seq<nat>,
    now: nat,
) -> Map<IpAddr, nat> {
    if times.len() >= c.threshold {
        bans_after(bans, c, ip, now)
    } else {
        bans
    }
}

/// The violations that count after one more.
pub open spec fn violations_after(times: Seq<nat>, window: nat, now: nat) -> Seq<nat> {
    queue::drop_while(times.push(now), |t: nat| t <= now - window)
}

impl TempBanList {
    /// What holds of every list: it is no longer than its configuration says.
    pub closed spec fn wf(&self) -> bool {
        &&& self.bans.wf()
        &&& self.violations.wf()
        &&& self.bans().len() <= self.config.max_entries
    }

    /// When each ban ends.
    pub closed spec fn bans(&self) -> Map<IpAddr, nat> {
        self.bans@.map_values(|e: BanEntry| e.expires_at@)
    }

    /// The violations on record.
    pub closed spec fn violations(&self) -> Map<IpAddr, Seq<nat>> {
        self.violations@.map_values(|w: ViolationWindow| queue::times(w.timestamps@))
    }

    /// The configuration.
    pub closed spec fn settings(&self) -> TempBanConfig {
        self.config
    }

    /// An empty list.
    pub fn new(config: TempBanConfig) -> (l: TempBanList)
        ensures
            l.wf(),
            l.settings() == config,
            l.bans() == Map::<IpAddr, nat>::empty(),
            l.violations() == Map::<IpAddr, Seq<nat>>::empty(),
    {
        let l = TempBanList { bans: Table::new(), violations: Table::new(), config };
        proof {
            assert(l.bans() =~= Map::<IpAddr, nat>::empty());
            assert(l.violations() =~= Map::<IpAddr, Seq<nat>>::empty());
        }
        l
    }

    /// Whether an address is banned.
    pub fn is_banned(&self, ip: IpAddr, now: Instant) -> (r: bool)
        requires
            self.wf(),
        ensures
            r == banned(self.bans(), ip, now@),
    {
        match self.bans.get(&ip) {
            Some(entry) => now.before(entry.expires_at),
            None => false,
        }
    }

    /// The number of bans on the list, those that have ended among them.
    pub fn ban_count(&self) -> (n: usize)
        requires
            self.wf(),
        ensures
            n == self.bans().len(),
    {
        proof {
            self.lemma_ban_count();
        }
        self.bans.len()
    }

    /// Records a violation, and bans the address if enough of them fall into
    /// the window.
    pub fn record_violation(&mut self, ip: IpAddr, now: Instant)
        requires
            old(self).wf(),
            old(self).settings().window@ <= now@,
            now@ + old(self).settings().ban_duration@ <= time::MAX_NANOS,
        ensures
            final(self).wf(),
            final(self).settings() == old(self).settings(),
            ({
                let times = violations_after(
                    violations_of(old(self).violations(), ip),
                    old(self).settings().window@,
                    now@,
                );
                &&& final(self).violations() == old(self).violations().insert(ip, times)
                &&& final(self).bans() == bans_after_violation(
                    old(self).bans(),
                    old(self).settings(),
                    ip,
                    times,
                    now@,
                )
            }),
    {
        let c = self.config;
        let cutoff = now.checked_sub(c.window).unwrap();
        let fresh = ViolationWindow { timestamps: VecDeque::new() };
        assert(queue::times(fresh.timestamps@) =~= Seq::<nat>::empty());
        let w = self.violations.entry_mut(ip, fresh);
        let ghost times = queue::times(w.timestamps@);
        w.timestamps.push_back(now);
        assert(queue::times(w.timestamps@) =~= times.push(now@));
        queue::drop_up_to(&mut w.timestamps, cutoff);
        let should_ban = w.timestamps.len() >= c.threshold as usize;
        let ghost kept = queue::times(w.timestamps@);
        proof {
            assert((|t: nat| t <= cutoff@) =~= (|t: nat| t <= now@ - c.window@));
            assert(self.violations() =~= old(self).violations().insert(ip, kept));
            assert(times == violations_of(old(self).violations(), ip));
        }
        if !should_ban {
            return ;
        }
        if let Some(entry) = self.bans.get(&ip) {
            if now.before(entry.expires_at) {
                return ;
            }
        }
        proof {
            self.lemma_ban_count();
        }
        if self.bans.len() >= c.max_entries {
            let _ = self.drop_expired(now);
        }
        let ghost room = self.bans();
        proof {
            self.lemma_ban_count();
        }
        if self.bans.len() >= c.max_entries {
            return ;
        }
        let entry = BanEntry { banned_at: now, expires_at: now.plus(c.ban_duration) };
        self.bans.insert(ip, entry);
        proof {
            assert(self.bans() =~= room.insert(ip, entry.expires_at@));
            self.lemma_ban_count();
        }
    }

    /// The list never grows beyond the configured number of bans.
    pub proof fn law_list_stays_bounded(&self)
        requires
            self.wf(),
        ensures
            self.bans().dom().finite(),
            self.bans().len() <= self.settings().max_entries,
    {
        self.bans.lemma_len();
        self.lemma_ban_count();
    }

    proof fn lemma_ban_count(&self)
        ensures
            self.bans().len() == self.bans@.len(),
            self.bans().dom() == self.bans@.dom(),
    {
        assert(self.bans().dom() =~= self.bans@.dom());
    }

    /// Drops the bans that have ended, and says how many.
    fn drop_expired(&mut self, now: Instant) -> (n: usize)
        requires
            old(self).wf(),
        ensures
            final(self).wf(),
            final(self).settings() == old(self).settings(),
            final(self).violations() == old(self).violations(),
            final(self).bans() == unexpired(old(self).bans(), now@),
            n == old(self).bans().len() - final(self).bans().len(),
            final(self).bans().len() <= old(self).bans().len(),
    {
        let keep = |e: &BanEntry| -> (b: bool)
            ensures
                b == (e.expires_at@ > now@),
            { now.before(e.expires_at) };
        proof {
            self.lemma_ban_count();
        }
        let n: usize = self.bans.retain(keep, Ghost(|e: BanEntry| e.expires_at@ > now@));
        proof {
            self.lemma_ban_count();
            assert(self.bans() =~= unexpired(old(self).bans(), now@));
        }
        n
    }

    /// Drops the bans that have ended and the windows without violations, and
    /// says how many bans went.
    pub fn prune_expired(&mut self, now: Instant) -> (n: usize)
        requires
            old(self).wf(),
        ensures
            final(self).wf(),
            final(self).settings() == old(self).settings(),
            final(self).bans() == unexpired(old(self).bans(), now@),
            final(self).violations() == table::kept(
                old(self).violations(),
                |times: Seq<nat>| times.len() > 0,
            ),
            n == old(self).bans().len() - final(self).bans().len(),
    {
        let n: usize = self.drop_expired(now);
        let keep = |w: &ViolationWindow| -> (b: bool)
            ensures
                b == (w.timestamps@.len() > 0),
            { w.timestamps.len() > 0 };
        let _ = self.violations.retain(keep, Ghost(|w: ViolationWindow| w.timestamps@.len() > 0));
        proof {
            assert(self.violations() =~= table::kept(
                old(self).violations(),
                |times: Seq<nat>| times.len() > 0,
            ));
        }
        n
    }
}

/// The violations on record after those at the times given.
pub open spec fn recorded(history: Seq<nat>, window: nat) -> Seq<nat>
    decreases history.len(),
{
    if history.len() == 0 {
        Seq::empty()
    } else {
        violations_after(recorded(history.drop_last(), window), window, history.last())
    }
}

/// The violations of a history that count at `now`.
pub open spec fn counted(history: Seq<nat>, window: nat, now: nat) -> Seq<nat> {
    history.filter(|t: nat| now - t < window)
}

proof fn lemma_filter_in_order(s: Seq<nat>, p: spec_fn(nat) -> bool)
    requires
        queue::in_order(s),
    ensures
        queue::in_order(s.filter(p)),
        forall|i: int| 0 <= i < s.filter(p).len() ==> s.contains(#[trigger] s.filter(p)[i]),
    decreases s.len(),
{
    reveal(Seq::filter);
    if s.len() > 0 {
        let rest = s.drop_last();
        lemma_filter_in_order(rest, p);
        assert forall|i: int| 0 <= i < s.filter(p).len() implies s.contains(
            #[trigger] s.filter(p)[i],
        ) && s.filter(p)[i] <= s.last() by {
            if i < rest.filter(p).len() {
                assert(s.filter(p)[i] == rest.filter(p)[i]);
                let j = choose|j: int| 0 <= j < rest.len() && rest[j] == rest.filter(p)[i];
                assert(s[j] == rest.filter(p)[i]);
            } else {
                assert(s[s.len() - 1] == s.filter(p)[i]);
            }
        }
        assert forall|i: int, j: int| 0 <= i <= j < s.filter(p).len() implies s.filter(p)[i]
            <= s.filter(p)[j] by {
            if j < rest.filter(p).len() {
                assert(s.filter(p)[i] == rest.filter(p)[i]);
                assert(s.filter(p)[j] == rest.filter(p)[j]);
            } else {
                assert(s.filter(p)[j] == s.last());
            }
        }
    }
}

proof fn lemma_counted_twice(s: Seq<nat>, window: nat, now: nat, later: nat)
    requires
        now <= later,
    ensures
        counted(counted(s, window, now), window, later) == counted(s, window, later),
    decreases s.len(),
{
    reveal(Seq::filter);
    if s.len() > 0 {
        lemma_counted_twice(s.drop_last(), window, now, later);
        let before = counted(s.drop_last(), window, now);
        assert(before.push(s.last()).drop_last() =~= before);
    }
}

proof fn lemma_recorded_is_counted(history: Seq<nat>, window: nat, now: nat)
    requires
        queue::in_order(history.push(now)),
    ensures
        recorded(history.push(now), window) == counted(history.push(now), window, now),
    decreases history.len(),
{
    let all = history.push(now);
    assert(all.drop_last() =~= history);
    let before = recorded(history, window);
    assert(recorded(all, window) == violations_after(before, window, now));
    let p = |t: nat| now - t < window;
    assert(queue::in_order(history)) by {
        assert forall|i: int, j: int| 0 <= i <= j < history.len() implies history[i]
            <= history[j] by {
            assert(history[i] == all[i] && history[j] == all[j]);
        }
    }
    if history.len() > 0 {
        let earlier = history.last();
        assert(history.drop_last().push(earlier) =~= history);
        assert(all[history.len() - 1] <= all[history.len() as int]);
        lemma_recorded_is_counted(history.drop_last(), window, earlier);
        lemma_counted_twice(history, window, earlier, now);
        lemma_filter_in_order(history, |t: nat| earlier - t < window);
    }
    let joined = before.push(now);
    assert(queue::in_order(joined)) by {
        assert forall|i: int, j: int| 0 <= i <= j < joined.len() implies joined[i]
            <= joined[j] by {
            if j == before.len() && i < j {
                assert(history.contains(before[i]));
                let k = choose|k: int| 0 <= k < history.len() && history[k] == before[i];
                assert(all[k] <= all[history.len() as int]);
            }
        }
    }
    queue::lemma_drop_is_filter(joined, |t: nat| t <= now - window, p);
    reveal(Seq::filter);
    assert(joined.drop_last() =~= before);
    if history.len() == 0 {
        assert(before =~= Seq::<nat>::empty());
        assert(before.filter(p) =~= history.filter(p));
    }
    assert(before.filter(p) == history.filter(p));
}

/// Who is banned after a violation of `ip` at `now`, where the violations before
/// it were at the times of the history and the clock never went back. If the
/// address is not banned, at least the threshold of its violations fall into the
/// window, this one among them, and fewer other addresses than the list may hold
/// are banned, then it is banned at exactly the times before the ban's end; in
/// every other case it is banned when it was before, and a ban that runs is not
/// extended. Nothing changes for any other address, and never are more addresses
/// banned at once than the list may hold.
pub proof fn law_who_is_banned_after_a_violation(
    bans: Map<IpAddr, nat>,
    c: TempBanConfig,
    ip: IpAddr,
    other: IpAddr,
    history: Seq<nat>,
    now: nat,
    later: nat,
)
    requires
        bans.dom().finite(),
        bans.len() <= c.max_entries,
        queue::in_order(history.push(now)),
        now <= later,
    ensures
        ({
            let times = violations_after(recorded(history, c.window@), c.window@, now);
            let k = counted(history.push(now), c.window@, now).len();
            let others = unexpired(bans, now).remove(ip).len();
            let after = bans_after_violation(bans, c, ip, times, now);
            let bans_it = !banned(bans, ip, now) && k >= c.threshold && others < c.max_entries;
            &&& times == recorded(history.push(now), c.window@)
            &&& times.len() == k
            &&& banned(after, ip, later) <==> if bans_it {
                later < now + c.ban_duration@
            } else {
                banned(bans, ip, later)
            }
            &&& other != ip ==> banned(after, other, later) == banned(bans, other, later)
            &&& after.dom().finite()
            &&& after.len() <= c.max_entries
            &&& unexpired(after, later).len() <= c.max_entries
        }),
{
    let all = history.push(now);
    assert(all.drop_last() =~= history);
    lemma_recorded_is_counted(history, c.window@, now);
    let times = violations_after(recorded(history, c.window@), c.window@, now);
    let running = unexpired(bans, now);
    let after = bans_after_violation(bans, c, ip, times, now);
    assert(running.dom().subset_of(bans.dom()));
    vstd::set_lib::lemma_len_subset(running.dom(), bans.dom());
    assert(running.remove(ip).dom() =~= running.dom().remove(ip));
    assert(bans.insert(ip, now + c.ban_duration@).dom() =~= bans.dom().insert(ip));
    assert(running.insert(ip, now + c.ban_duration@).dom() =~= running.dom().insert(ip));
    if !banned(bans, ip, now) {
        assert(running.remove(ip).dom() =~= running.dom());
    }
    assert(after.dom().finite() && after.len() <= c.max_entries);
    assert(unexpired(after, later).dom().subset_of(after.dom()));
    vstd::set_lib::lemma_len_subset(unexpired(after, later).dom(), after.dom());
}

/// Where there is room on the list, an address is banned by the violation that
/// makes up the threshold within the window, and by none before it.
pub proof fn law_banned_at_the_threshold(
    bans: Map<IpAddr, nat>,
    c: TempBanConfig,
    ip: IpAddr,
    past: Seq<nat>,
    now: nat,
)
    requires
        !banned(bans, ip, now),
        bans.len() < c.max_entries,
        c.window@ > 0,
        c.ban_duration@ > 0,
        forall|i: int| 0 <= i < past.len() ==> #[trigger] past[i] > now - c.window@,
    ensures
        ({
            let times = violations_after(past, c.window@, now);
            &&& times == past.push(now)
            &&& banned(bans_after_violation(bans, c, ip, times, now), ip, now) <==> past.len() + 1
                >= c.threshold
        }),
{
    assert(past.push(now)[0] > now - c.window@);
    queue::lemma_drop_nothing(past.push(now), |t: nat| t <= now - c.window@);
}

/// A ban that is set lasts exactly for the configured time.
pub proof fn law_ban_lasts_for_its_time(
    bans: Map<IpAddr, nat>,
    c: TempBanConfig,
    ip: IpAddr,
    now: nat,
    later: nat,
)
    requires
        !banned(bans, ip, now),
        bans.len() < c.max_entries,
    ensures
        banned(bans_after(bans, c, ip, now), ip, later) <==> later < now + c.ban_duration@,
{
}

/// To ban one address bans and frees no other.
pub proof fn law_bans_are_independent(
    bans: Map<IpAddr, nat>,
    c: TempBanConfig,
    ip: IpAddr,
    other: IpAddr,
    now: nat,
    later: nat,
)
    requires
        ip != other,
        now <= later,
    ensures
        banned(bans_after(bans, c, ip, now), other, later) == banned(bans, other, later),
{
}

/// A list that is full of bans that still run takes no other.
pub proof fn law_full_list_fails_open(
    bans: Map<IpAddr, nat>,
    c: TempBanConfig,
    ip: IpAddr,
    now: nat,
)
    requires
        !banned(bans, ip, now),
        unexpired(bans, now).len() >= c.max_entries,
        bans.len() >= c.max_entries,
    ensures
        !banned(bans_after(bans, c, ip, now), ip, now),
        bans_after(bans, c, ip, now) == unexpired(bans, now),
{
}

/// What a violation does, as the answers show it. Where the address is not banned
/// and its violations on record all fall into the window, it is banned exactly if
/// these and the new one make up the threshold and there is room on the list, and
/// then until the ban's time is over. Nothing changes for another address, and
/// dropping what has ended changes no answer.
pub proof fn law_violations_lead_to_bans(
    list: &mut TempBanList,
    asked: &TempBanList,
    pruning: &mut TempBanList,
    pruned: &TempBanList,
    ip: IpAddr,
    other: IpAddr,
    now: Instant,
    later: Instant,
    n: usize,
    answer: bool,
    about_other: bool,
    after_pruning: bool,
)
    requires
        call_ensures(TempBanList::record_violation, (list, ip, now), ()),
        *asked == *final(list),
        now@ <= later@,
        call_ensures(TempBanList::is_banned, (asked, ip, later), answer),
        call_ensures(TempBanList::is_banned, (asked, other, later), about_other),
        *old(pruning) == *final(list),
        call_ensures(TempBanList::prune_expired, (pruning, now), n),
        *pruned == *final(pruning),
        call_ensures(TempBanList::is_banned, (pruned, ip, later), after_pruning),
        old(list).settings().window@ > 0,
        forall|i: int|
            0 <= i < violations_of(old(list).violations(), ip).len() ==> now@ - old(
                list,
            ).settings().window@ < #[trigger] violations_of(old(list).violations(), ip)[i],
    ensures
        ({
            let c = old(list).settings();
            let past = violations_of(old(list).violations(), ip);
            let was_banned = old(list).bans().contains_key(ip) && old(list).bans()[ip] > now@;
            &&& !was_banned && old(list).bans().len() < c.max_entries && past.len() + 1
                >= c.threshold ==> (answer <==> later@ < now@ + c.ban_duration@)
            &&& !was_banned && past.len() + 1 < c.threshold ==> !answer
            &&& was_banned ==> (answer <==> later@ < old(list).bans()[ip])
            &&& violations_of(final(list).violations(), ip) == past.push(now@)
            &&& other != ip ==> violations_of(final(list).violations(), other) == violations_of(
                old(list).violations(),
                other,
            )
        }),
        other != ip ==> (about_other <==> old(list).bans().contains_key(other) && old(
            list,
        ).bans()[other] > later@),
        after_pruning == answer,
{
    let c = old(list).settings();
    let past = violations_of(old(list).violations(), ip);
    assert(past.push(now@)[0] > now@ - c.window@);
    queue::lemma_drop_nothing(past.push(now@), |t: nat| t <= now@ - c.window@);
}

} // verus!
