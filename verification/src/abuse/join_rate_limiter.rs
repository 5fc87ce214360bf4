//! Limits on attempts to join a room, by address, invite code, room and
//! connection.

use crate::abuse::queue;
use crate::net::IpAddr;
use crate::signaling::JoinRejectionReason;
use crate::table;
use crate::table::Table;
use crate::table::TableKey;
use crate::time;
use crate::time::Duration;
use crate::time::Instant;
use std::collections::VecDeque;
use vstd::prelude::*;

verus! {

/// The attempts of the recent past, oldest first, and the end of the cooldown
/// that too many of them have set.
pub struct SlidingWindow {
    timestamps: VecDeque<Instant>,
    cooldown_until: Option<Instant>,
}

/// A window as numbers.
#[verifier::ext_equal]
pub struct WindowView {
    pub times: Seq<nat>,
    pub until: Option<nat>,
}

impl View for SlidingWindow {
    type V = WindowView;

    closed spec fn view(&self) -> WindowView {
        WindowView {
            times: queue::times(self.timestamps@),
            until: match self.cooldown_until {
                Some(t) => Some(t@),
                None => None,
            },
        }
    }
}

/// The instant before which attempts no longer count. Where the clock has not
/// run for the length of the window, only the current instant counts.
pub open spec fn cutoff(window: nat, now: nat) -> nat {
    if now >= window {
        (now - window) as nat
    } else {
        now
    }
}

/// The attempts that still count.
pub open spec fn recent(times: Seq<nat>, window: nat, now: nat) -> Seq<nat> {
    queue::drop_while(times, |t: nat| t < cutoff(window, now))
}

impl WindowView {
    /// A window without attempts.
    pub open spec fn fresh() -> WindowView {
        WindowView { times: Seq::empty(), until: None }
    }

    /// Whether a cooldown runs.
    pub open spec fn cooling(self, now: nat) -> bool {
        self.until matches Some(until) && now < until
    }

    /// Whether one more attempt is allowed: no cooldown runs, and fewer than
    /// `threshold` attempts count (their number cut to 32 bits).
    pub open spec fn allows(self, threshold: u32, window: nat, now: nat) -> bool {
        !self.cooling(now) && (recent(self.times, window, now).len() as u32) < threshold
    }

    /// The window after it was asked.
    pub open spec fn asked(self, window: nat, now: nat) -> WindowView {
        if self.cooling(now) {
            self
        } else {
            WindowView { times: recent(self.times, window, now), until: self.until }
        }
    }

    /// The window after an attempt was recorded. The attempt that takes the
    /// number over `threshold` sets the cooldown.
    pub open spec fn recorded(
        self,
        threshold: u32,
        window: nat,
        cooldown: nat,
        now: nat,
    ) -> WindowView {
        let times = recent(self.times, window, now).push(now);
        WindowView {
            times,
            until: if (times.len() as u32) > threshold {
                Some(now + cooldown)
            } else {
                self.until
            },
        }
    }

    /// Whether the window holds nothing that matters any more.
    pub open spec fn stale(self, now: nat) -> bool {
        self.times.len() == 0 && !self.cooling(now)
    }
}

impl SlidingWindow {
    /// A window without attempts.
    pub fn new() -> (w: SlidingWindow)
        ensures
            w@ == WindowView::fresh(),
    {
        let w = SlidingWindow { timestamps: VecDeque::new(), cooldown_until: None };
        assert(w@.times =~= Seq::<nat>::empty());
        w
    }

    /// Drops the attempts that no longer count.
    fn evict_old(&mut self, window: Duration, now: Instant)
        ensures
            final(self)@ == (WindowView { times: recent(old(self)@.times, window@, now@), ..old(
                self,
            )@ }),
            final(self).timestamps@.len() <= old(self).timestamps@.len(),
    {
        let cutoff = match now.checked_sub(window) {
            Some(t) => t,
            None => now,
        };
        queue::drop_before(&mut self.timestamps, cutoff);
    }

    /// Whether a cooldown runs.
    fn in_cooldown(&self, now: Instant) -> (r: bool)
        ensures
            r == self@.cooling(now@),
    {
        match self.cooldown_until {
            Some(until) => now.before(until),
            None => false,
        }
    }

    /// Whether one more attempt is allowed.
    pub fn check(&mut self, threshold: u32, window: Duration, now: Instant) -> (ok: bool)
        ensures
            ok == old(self)@.allows(threshold, window@, now@),
            final(self)@ == old(self)@.asked(window@, now@),
    {
        if self.in_cooldown(now) {
            return false;
        }
        self.evict_old(window, now);
        (self.timestamps.len() as u32) < threshold
    }

    /// Records an attempt.
    pub fn record(&mut self, threshold: u32, window: Duration, cooldown: Duration, now: Instant)
        requires
            now@ + cooldown@ <= time::MAX_NANOS,
        ensures
            final(self)@ == old(self)@.recorded(threshold, window@, cooldown@, now@),
    {
        self.evict_old(window, now);
        let ghost before = self.timestamps@;
        self.timestamps.push_back(now);
        assert(queue::times(self.timestamps@) =~= queue::times(before).push(now@));
        if self.timestamps.len() as u32 > threshold {
            self.cooldown_until = Some(now.plus(cooldown));
        }
    }

    /// Whether the window holds nothing that matters any more.
    pub fn is_stale(&self, now: Instant) -> (r: bool)
        ensures
            r == self@.stale(now@),
    {
        self.timestamps.len() == 0 && !self.in_cooldown(now)
    }
}

/// The limits.
#[derive(Clone, Copy)]
pub struct JoinRateLimiterConfig {
    pub ip_total_threshold: u32,
    pub ip_total_window: Duration,
    pub ip_failed_threshold: u32,
    pub ip_failed_window: Duration,
    pub code_threshold: u32,
    pub code_window: Duration,
    pub room_threshold: u32,
    pub room_window: Duration,
    pub connection_threshold: u32,
    pub connection_window: Duration,
    pub cooldown: Duration,
}

impl Default for JoinRateLimiterConfig {
    fn default() -> (c: JoinRateLimiterConfig)
        ensures
            c.ip_total_threshold == 30,
            c.ip_failed_threshold == 10,
            c.code_threshold == 10,
            c.room_threshold == 12,
            c.connection_threshold == 5,
            c.ip_total_window@ == 60 * time::NANOS_PER_SEC,
            c.ip_failed_window@ == 60 * time::NANOS_PER_SEC,
            c.code_window@ == 60 * time::NANOS_PER_SEC,
            c.room_window@ == 60 * time::NANOS_PER_SEC,
            c.connection_window@ == 60 * time::NANOS_PER_SEC,
            c.cooldown@ == 60 * time::NANOS_PER_SEC,
    {
        JoinRateLimiterConfig {
            ip_total_threshold: 30,
            ip_total_window: Duration::from_secs(60),
            ip_failed_threshold: 10,
            ip_failed_window: Duration::from_secs(60),
            code_threshold: 10,
            code_window: Duration::from_secs(60),
            room_threshold: 12,
            room_window: Duration::from_secs(60),
            connection_threshold: 5,
            connection_window: Duration::from_secs(60),
            cooldown: Duration::from_secs(60),
        }
    }
}

/// The windows of a table as numbers.
pub open spec fn windows<I>(m: Map<I, SlidingWindow>) -> Map<I, WindowView> {
    m.map_values(|w: SlidingWindow| w@)
}

/// The window of a key; one that has none yet has an empty one.
pub open spec fn window_of<I>(m: Map<I, WindowView>, key: I) -> WindowView {
    if m.contains_key(key) {
        m[key]
    } else {
        WindowView::fresh()
    }
}

/// A table after the window of `key` was asked.
pub open spec fn asked_at<I>(m: Map<I, WindowView>, key: I, window: nat, now: nat) -> Map<
    I,
    WindowView,
> {
    m.insert(key, window_of(m, key).asked(window, now))
}

/// A table after an attempt was recorded in the window of `key`.
pub open spec fn recorded_at<I>(
    m: Map<I, WindowView>,
    key: I,
    threshold: u32,
    window: nat,
    cooldown: nat,
    now: nat,
) -> Map<I, WindowView> {
    m.insert(key, window_of(m, key).recorded(threshold, window, cooldown, now))
}

/// A table without its stale windows.
pub open spec fn pruned<I>(m: Map<I, WindowView>, now: nat) -> Map<I, WindowView> {
    table::kept(m, |w: WindowView| !w.stale(now))
}

fn check_window<K: TableKey>(
    t: &mut Table<K, SlidingWindow>,
    key: K,
    threshold: u32,
    window: Duration,
    now: Instant,
) -> (ok: bool)
    requires
        old(t).wf(),
    ensures
        final(t).wf(),
        ok == window_of(windows(old(t)@), key.id()).allows(threshold, window@, now@),
        windows(final(t)@) == asked_at(windows(old(t)@), key.id(), window@, now@),
{
    let ghost before = t@;
    let ghost id = key.id();
    let w = t.entry_mut(key, SlidingWindow::new());
    let ok = w.check(threshold, window, now);
    proof {
        assert(windows(t@) =~= asked_at(windows(before), id, window@, now@));
    }
    ok
}

fn record_in_window<K: TableKey>(
    t: &mut Table<K, SlidingWindow>,
    key: K,
    threshold: u32,
    window: Duration,
    cooldown: Duration,
    now: Instant,
)
    requires
        old(t).wf(),
        now@ + cooldown@ <= time::MAX_NANOS,
    ensures
        final(t).wf(),
        windows(final(t)@) == recorded_at(
            windows(old(t)@),
            key.id(),
            threshold,
            window@,
            cooldown@,
            now@,
        ),
{
    let ghost before = t@;
    let ghost id = key.id();
    let w = t.entry_mut(key, SlidingWindow::new());
    w.record(threshold, window, cooldown, now);
    proof {
        assert(windows(t@) =~= recorded_at(
            windows(before),
            id,
            threshold,
            window@,
            cooldown@,
            now@,
        ));
    }
}

fn prune_windows<K: TableKey>(t: &mut Table<K, SlidingWindow>, now: Instant) -> (n: usize)
    requires
        old(t).wf(),
    ensures
        final(t).wf(),
        windows(final(t)@) == pruned(windows(old(t)@), now@),
        n == windows(old(t)@).len() - windows(final(t)@).len(),
        windows(old(t)@).len() <= usize::MAX,
{
    let ghost before = t@;
    let _ = t.len();
    let keep = |w: &SlidingWindow| -> (b: bool)
        ensures
            b == (!w@.stale(now@)),
        { !w.is_stale(now) };
    let n: usize = t.retain(keep, Ghost(|w: SlidingWindow| !w@.stale(now@)));
    proof {
        assert(windows(t@) =~= pruned(windows(before), now@));
        assert(windows(before).dom() =~= before.dom());
        assert(windows(t@).dom() =~= t@.dom());
    }
    n
}

/// Limits attempts to join a room.
pub struct JoinRateLimiter {
    ip_total: Table<IpAddr, SlidingWindow>,
    ip_failed: Table<IpAddr, SlidingWindow>,
    code_attempts: Table<String, SlidingWindow>,
    room_attempts: Table<String, SlidingWindow>,
    connection_attempts: Table<String, SlidingWindow>,
    config: JoinRateLimiterConfig,
}

/// The windows of a limiter.
#[verifier::ext_equal]
pub struct JoinWindows {
    pub ip_total: Map<IpAddr, WindowView>,
    pub ip_failed: Map<IpAddr, WindowView>,
    pub code: Map<Seq<char>, WindowView>,
    pub room: Map<Seq<char>, WindowView>,
    pub connection: Map<Seq<char>, WindowView>,
}

impl JoinWindows {
    /// No windows.
    pub open spec fn empty() -> JoinWindows {
        JoinWindows {
            ip_total: Map::empty(),
            ip_failed: Map::empty(),
            code: Map::empty(),
            room: Map::empty(),
            connection: Map::empty(),
        }
    }

    /// The number of windows.
    pub open spec fn size(self) -> nat {
        self.ip_total.len() + self.ip_failed.len() + self.code.len() + self.room.len()
            + self.connection.len()
    }
}

/// Who attempts to join what.
#[verifier::ext_equal]
pub struct AttemptView {
    pub ip: IpAddr,
    pub code: Option<Seq<char>>,
    pub room: Seq<char>,
    pub connection: Seq<char>,
}

/// The attempt that the arguments describe.
pub open spec fn attempt(
    ip: IpAddr,
    code: Option<&str>,
    room_id: &str,
    connection_id: &str,
) -> AttemptView {
    AttemptView {
        ip,
        code: match code {
            Some(c) => Some(c@),
            None => None,
        },
        room: room_id@,
        connection: connection_id@,
    }
}

impl JoinWindows {
    /// Whether the address may make one more attempt.
    pub open spec fn ip_total_allows(self, c: JoinRateLimiterConfig, a: AttemptView, now: nat) -> bool {
        window_of(self.ip_total, a.ip).allows(c.ip_total_threshold, c.ip_total_window@, now)
    }

    /// Whether the address may make one more attempt after those that failed.
    pub open spec fn ip_failed_allows(self, c: JoinRateLimiterConfig, a: AttemptView, now: nat) -> bool {
        window_of(self.ip_failed, a.ip).allows(c.ip_failed_threshold, c.ip_failed_window@, now)
    }

    /// Whether one more attempt may be made with the code, if there is one.
    pub open spec fn code_allows(self, c: JoinRateLimiterConfig, a: AttemptView, now: nat) -> bool {
        a.code matches Some(code) ==> window_of(self.code, code).allows(
            c.code_threshold,
            c.code_window@,
            now,
        )
    }

    /// Whether one more attempt may be made on the room.
    pub open spec fn room_allows(self, c: JoinRateLimiterConfig, a: AttemptView, now: nat) -> bool {
        window_of(self.room, a.room).allows(c.room_threshold, c.room_window@, now)
    }

    /// Whether the connection may make one more attempt.
    pub open spec fn connection_allows(
        self,
        c: JoinRateLimiterConfig,
        a: AttemptView,
        now: nat,
    ) -> bool {
        window_of(self.connection, a.connection).allows(
            c.connection_threshold,
            c.connection_window@,
            now,
        )
    }

    /// Whether every limit allows the attempt.
    pub open spec fn allows(self, c: JoinRateLimiterConfig, a: AttemptView, now: nat) -> bool {
        &&& self.ip_total_allows(c, a, now)
        &&& self.ip_failed_allows(c, a, now)
        &&& self.code_allows(c, a, now)
        &&& self.room_allows(c, a, now)
        &&& self.connection_allows(c, a, now)
    }

    /// The windows after they were asked, in their order and up to the first
    /// that refuses.
    pub open spec fn asked(self, c: JoinRateLimiterConfig, a: AttemptView, now: nat) -> JoinWindows {
        let to_failed = self.ip_total_allows(c, a, now);
        let to_code = to_failed && self.ip_failed_allows(c, a, now);
        let to_room = to_code && self.code_allows(c, a, now);
        let to_connection = to_room && self.room_allows(c, a, now);
        JoinWindows {
            ip_total: asked_at(self.ip_total, a.ip, c.ip_total_window@, now),
            ip_failed: if to_failed {
                asked_at(self.ip_failed, a.ip, c.ip_failed_window@, now)
            } else {
                self.ip_failed
            },
            code: if to_code && a.code is Some {
                asked_at(self.code, a.code->0, c.code_window@, now)
            } else {
                self.code
            },
            room: if to_room {
                asked_at(self.room, a.room, c.room_window@, now)
            } else {
                self.room
            },
            connection: if to_connection {
                asked_at(self.connection, a.connection, c.connection_window@, now)
            } else {
                self.connection
            },
        }
    }

    /// The windows after the attempt was recorded, before stale ones go.
    pub open spec fn recorded(
        self,
        c: JoinRateLimiterConfig,
        a: AttemptView,
        failed: bool,
        now: nat,
    ) -> JoinWindows {
        JoinWindows {
            ip_total: recorded_at(
                self.ip_total,
                a.ip,
                c.ip_total_threshold,
                c.ip_total_window@,
                c.cooldown@,
                now,
            ),
            ip_failed: if failed {
                recorded_at(
                    self.ip_failed,
                    a.ip,
                    c.ip_failed_threshold,
                    c.ip_failed_window@,
                    c.cooldown@,
                    now,
                )
            } else {
                self.ip_failed
            },
            code: if a.code is Some {
                recorded_at(
                    self.code,
                    a.code->0,
                    c.code_threshold,
                    c.code_window@,
                    c.cooldown@,
                    now,
                )
            } else {
                self.code
            },
            room: recorded_at(
                self.room,
                a.room,
                c.room_threshold,
                c.room_window@,
                c.cooldown@,
                now,
            ),
            connection: recorded_at(
                self.connection,
                a.connection,
                c.connection_threshold,
                c.connection_window@,
                c.cooldown@,
                now,
            ),
        }
    }

    /// The windows without the stale ones.
    pub open spec fn pruned(self, now: nat) -> JoinWindows {
        JoinWindows {
            ip_total: pruned(self.ip_total, now),
            ip_failed: pruned(self.ip_failed, now),
            code: pruned(self.code, now),
            room: pruned(self.room, now),
            connection: pruned(self.connection, now),
        }
    }
}

impl JoinRateLimiter {
    /// What holds of every limiter.
    pub closed spec fn wf(&self) -> bool {
        &&& self.ip_total.wf()
        &&& self.ip_failed.wf()
        &&& self.code_attempts.wf()
        &&& self.room_attempts.wf()
        &&& self.connection_attempts.wf()
    }

    /// The windows.
    pub closed spec fn windows(&self) -> JoinWindows {
        JoinWindows {
            ip_total: windows(self.ip_total@),
            ip_failed: windows(self.ip_failed@),
            code: windows(self.code_attempts@),
            room: windows(self.room_attempts@),
            connection: windows(self.connection_attempts@),
        }
    }

    /// The limits.
    pub closed spec fn limits(&self) -> JoinRateLimiterConfig {
        self.config
    }

    /// A limiter that has seen no attempt.
    pub fn new(config: JoinRateLimiterConfig) -> (l: JoinRateLimiter)
        ensures
            l.wf(),
            l.limits() == config,
            l.windows() == JoinWindows::empty(),
    {
        let l = JoinRateLimiter {
            ip_total: Table::new(),
            ip_failed: Table::new(),
            code_attempts: Table::new(),
            room_attempts: Table::new(),
            connection_attempts: Table::new(),
            config,
        };
        assert(l.windows() =~= JoinWindows::empty());
        l
    }

    /// Takes other limits, and forgets every attempt.
    pub fn reconfigure(&mut self, new_config: JoinRateLimiterConfig)
        requires
            old(self).wf(),
        ensures
            final(self).wf(),
            final(self).limits() == new_config,
            final(self).windows() == JoinWindows::empty(),
    {
        self.ip_total.clear();
        self.ip_failed.clear();
        self.code_attempts.clear();
        self.room_attempts.clear();
        self.connection_attempts.clear();
        self.config = new_config;
        assert(self.windows() =~= JoinWindows::empty());
    }

    /// Whether every limit allows one more attempt. Nothing is recorded.
    pub fn check_join(
        &mut self,
        ip: IpAddr,
        code: Option<&str>,
        room_id: &str,
        connection_id: &str,
        now: Instant,
    ) -> (r: Result<(), JoinRejectionReason>)
        requires
            old(self).wf(),
        ensures
            final(self).wf(),
            final(self).limits() == old(self).limits(),
            final(self).windows() == old(self).windows().asked(
                old(self).limits(),
                attempt(ip, code, room_id, connection_id),
                now@,
            ),
            r == (if old(self).windows().allows(
                old(self).limits(),
                attempt(ip, code, room_id, connection_id),
                now@,
            ) {
                Ok::<(), JoinRejectionReason>(())
            } else {
                Err(JoinRejectionReason::RateLimited)
            }),
    {
        let c = self.config;
        if !check_window(&mut self.ip_total, ip, c.ip_total_threshold, c.ip_total_window, now) {
            return Err(JoinRejectionReason::RateLimited);
        }
        if !check_window(&mut self.ip_failed, ip, c.ip_failed_threshold, c.ip_failed_window, now) {
            return Err(JoinRejectionReason::RateLimited);
        }
        if let Some(code) = code {
            if !check_window(
                &mut self.code_attempts,
                code.to_owned(),
                c.code_threshold,
                c.code_window,
                now,
            ) {
                return Err(JoinRejectionReason::RateLimited);
            }
        }
        if !check_window(
            &mut self.room_attempts,
            room_id.to_owned(),
            c.room_threshold,
            c.room_window,
            now,
        ) {
            return Err(JoinRejectionReason::RateLimited);
        }
        if !check_window(
            &mut self.connection_attempts,
            connection_id.to_owned(),
            c.connection_threshold,
            c.connection_window,
            now,
        ) {
            return Err(JoinRejectionReason::RateLimited);
        }
        Ok(())
    }

    /// Records an attempt under every limit that applies; under that on failed
    /// attempts only if it `failed`. Then the stale windows go.
    pub fn record_attempt(
        &mut self,
        ip: IpAddr,
        code: Option<&str>,
        room_id: &str,
        connection_id: &str,
        failed: bool,
        now: Instant,
    )
        requires
            old(self).wf(),
            now@ + old(self).limits().cooldown@ <= time::MAX_NANOS,
        ensures
            final(self).wf(),
            final(self).limits() == old(self).limits(),
            final(self).windows() == old(self).windows().recorded(
                old(self).limits(),
                attempt(ip, code, room_id, connection_id),
                failed,
                now@,
            ).pruned(now@),
    {
        let c = self.config;
        record_in_window(
            &mut self.ip_total,
            ip,
            c.ip_total_threshold,
            c.ip_total_window,
            c.cooldown,
            now,
        );
        if failed {
            record_in_window(
                &mut self.ip_failed,
                ip,
                c.ip_failed_threshold,
                c.ip_failed_window,
                c.cooldown,
                now,
            );
        }
        if let Some(code) = code {
            record_in_window(
                &mut self.code_attempts,
                code.to_owned(),
                c.code_threshold,
                c.code_window,
                c.cooldown,
                now,
            );
        }
        record_in_window(
            &mut self.room_attempts,
            room_id.to_owned(),
            c.room_threshold,
            c.room_window,
            c.cooldown,
            now,
        );
        record_in_window(
            &mut self.connection_attempts,
            connection_id.to_owned(),
            c.connection_threshold,
            c.connection_window,
            c.cooldown,
            now,
        );
        let _ = self.prune_stale_entries(now);
    }

    /// Drops the stale windows, and says how many under each limit.
    fn prune_stale_entries(&mut self, now: Instant) -> (n: (usize, usize, usize, usize, usize))
        requires
            old(self).wf(),
        ensures
            final(self).wf(),
            final(self).limits() == old(self).limits(),
            final(self).windows() == old(self).windows().pruned(now@),
            n.0 + n.1 + n.2 + n.3 + n.4 == old(self).windows().size()
                - final(self).windows().size(),
    {
        let n0: usize = prune_windows(&mut self.ip_total, now);
        let n1: usize = prune_windows(&mut self.ip_failed, now);
        let n2: usize = prune_windows(&mut self.code_attempts, now);
        let n3: usize = prune_windows(&mut self.room_attempts, now);
        let n4: usize = prune_windows(&mut self.connection_attempts, now);
        (n0, n1, n2, n3, n4)
    }

    /// Drops the stale windows, and says how many they were.
    pub fn prune_all(&mut self, now: Instant) -> (n: usize)
        requires
            old(self).wf(),
            old(self).windows().size() <= usize::MAX,
        ensures
            final(self).wf(),
            final(self).limits() == old(self).limits(),
            final(self).windows() == old(self).windows().pruned(now@),
            n == old(self).windows().size() - final(self).windows().size(),
    {
        let (n0, n1, n2, n3, n4) = self.prune_stale_entries(now);
        n0 + n1 + n2 + n3 + n4
    }
}

/// A window after attempts at the given instants.
pub open spec fn after_attempts(
    threshold: u32,
    window: nat,
    cooldown: nat,
    at: Seq<nat>,
) -> WindowView
    decreases at.len(),
{
    if at.len() == 0 {
        WindowView::fresh()
    } else {
        after_attempts(threshold, window, cooldown, at.drop_last()).recorded(
            threshold,
            window,
            cooldown,
            at.last(),
        )
    }
}

/// Of attempts of which each lies within the window of every later one, exactly
/// `threshold` are allowed; the one after them is refused.
pub proof fn law_refused_at_the_threshold(
    threshold: u32,
    window: nat,
    cooldown: nat,
    at: Seq<nat>,
    now: nat,
)
    requires
        at.len() <= threshold,
        forall|i: int, j: int|
            0 <= i <= j < at.len() ==> cutoff(window, #[trigger] at[j]) <= #[trigger] at[i],
        forall|i: int| 0 <= i < at.len() ==> cutoff(window, now) <= #[trigger] at[i],
    ensures
        after_attempts(threshold, window, cooldown, at).allows(threshold, window, now) <==> at.len()
            < threshold,
{
    lemma_attempts_count(threshold, window, cooldown, at);
    queue::lemma_drop_nothing(at, |t: nat| t < cutoff(window, now));
    assert(at.len() as u32 == at.len());
}

proof fn lemma_attempts_count(
    threshold: u32,
    window: nat,
    cooldown: nat,
    at: Seq<nat>,
)
    requires
        at.len() <= threshold,
        forall|i: int, j: int|
            0 <= i <= j < at.len() ==> cutoff(window, #[trigger] at[j]) <= #[trigger] at[i],
    ensures
        after_attempts(threshold, window, cooldown, at) == (WindowView { times: at, until: None }),
    decreases at.len(),
{
    if at.len() > 0 {
        let before = at.drop_last();
        assert forall|i: int, j: int| 0 <= i <= j < before.len() implies cutoff(
            window,
            #[trigger] before[j],
        ) <= #[trigger] before[i] by {
            assert(before[i] == at[i]);
            assert(before[j] == at[j]);
        }
        lemma_attempts_count(threshold, window, cooldown, before);
        if before.len() > 0 {
            assert(before[0] == at[0]);
            assert(cutoff(window, at[at.len() - 1]) <= at[0]);
        }
        queue::lemma_drop_nothing(before, |t: nat| t < cutoff(window, at.last()));
        assert(before.push(at.last()) =~= at);
        assert(at.len() as u32 == at.len());
    } else {
        assert(at =~= Seq::<nat>::empty());
    }
}

/// An attempt that takes the number over `threshold` bars every further one
/// until the cooldown is over.
pub proof fn law_cooldown_bars(
    w: WindowView,
    threshold: u32,
    window: nat,
    cooldown: nat,
    now: nat,
    later: nat,
)
    requires
        threshold <= (recent(w.times, window, now).len()) < u32::MAX,
        now <= later < now + cooldown,
    ensures
        !w.recorded(threshold, window, cooldown, now).allows(threshold, window, later),
{
    let times = recent(w.times, window, now).push(now);
    assert(times.len() as u32 == times.len());
}

/// Once the window has passed since the last attempt, and the cooldown is over,
/// attempts are allowed again.
pub proof fn law_allowed_again(w: WindowView, threshold: u32, window: nat, now: nat)
    requires
        threshold > 0,
        !w.cooling(now),
        forall|i: int| 0 <= i < w.times.len() ==> #[trigger] w.times[i] < cutoff(window, now),
    ensures
        w.allows(threshold, window, now),
{
    queue::lemma_drop_all(w.times, |t: nat| t < cutoff(window, now));
}

/// What is asked or recorded of one key is not seen by another.
pub proof fn law_keys_are_independent<I>(
    m: Map<I, WindowView>,
    key: I,
    other: I,
    threshold: u32,
    window: nat,
    cooldown: nat,
    now: nat,
)
    requires
        key != other,
    ensures
        window_of(asked_at(m, key, window, now), other) == window_of(m, other),
        window_of(recorded_at(m, key, threshold, window, cooldown, now), other) == window_of(
            m,
            other,
        ),
{
}

/// To ask changes no later answer, once the clock has run for the length of
/// the window.
pub proof fn law_asking_records_nothing(
    w: WindowView,
    threshold: u32,
    window: nat,
    now: nat,
    later: nat,
)
    requires
        window <= now <= later,
    ensures
        w.asked(window, now).allows(threshold, window, later) == w.allows(threshold, window, later),
{
    queue::lemma_drop_twice(w.times, cutoff(window, now), cutoff(window, later));
}

/// To drop the stale windows changes no answer, now or later.
pub proof fn law_pruning_changes_no_answer<I>(
    m: Map<I, WindowView>,
    key: I,
    threshold: u32,
    window: nat,
    now: nat,
    later: nat,
)
    requires
        now <= later,
    ensures
        window_of(pruned(m, now), key).allows(threshold, window, later) == window_of(m, key).allows(
            threshold,
            window,
            later,
        ),
{
    if m.contains_key(key) && m[key].stale(now) {
        assert(!pruned(m, now).contains_key(key));
        assert(m[key].times =~= Seq::<nat>::empty());
        queue::lemma_drop_nothing(m[key].times, |t: nat| t < cutoff(window, later));
    }
}

/// An attempt that was recorded.
#[verifier::ext_equal]
pub struct PastAttempt {
    pub attempt: AttemptView,
    pub failed: bool,
    pub at: nat,
}

/// The windows of a limiter that has seen the attempts given, and no others.
pub open spec fn after_history(c: JoinRateLimiterConfig, history: Seq<PastAttempt>) -> JoinWindows
    decreases history.len(),
{
    if history.len() == 0 {
        JoinWindows::empty()
    } else {
        let e = history.last();
        after_history(c, history.drop_last()).recorded(c, e.attempt, e.failed, e.at).pruned(e.at)
    }
}

/// The times of the attempts of a history that `p` selects.
pub open spec fn times_of(history: Seq<PastAttempt>, p: spec_fn(PastAttempt) -> bool) -> Seq<nat> {
    history.filter(p).map_values(|e: PastAttempt| e.at)
}

/// The number of times that lie no longer than the window before `now`.
pub open spec fn within(at: Seq<nat>, window: nat, now: nat) -> nat {
    at.filter(|t: nat| now - window <= t).len()
}

/// Whether attempts at these times bar one at `now`: `threshold` of them lie
/// within the window, or one of them was over the threshold when it was made and
/// the cooldown since then is not over.
pub open spec fn barred(
    at: Seq<nat>,
    threshold: u32,
    window: nat,
    cooldown: nat,
    now: nat,
) -> bool {
    ||| within(at, window, now) >= threshold
    ||| exists|j: int|
        0 <= j < at.len() && now < (#[trigger] at[j]) + cooldown && within(
            at.take(j + 1),
            window,
            at[j],
        ) > threshold
}

/// That the clock did not go back, and had run for every window when it started.
pub open spec fn orderly(c: JoinRateLimiterConfig, history: Seq<PastAttempt>, now: nat) -> bool {
    &&& history.len() <= u32::MAX
    &&& forall|i: int, j: int|
        0 <= i <= j < history.len() ==> (#[trigger] history[i]).at <= (#[trigger] history[j]).at
    &&& forall|i: int| 0 <= i < history.len() ==> (#[trigger] history[i]).at <= now
    &&& forall|i: int|
        0 <= i < history.len() ==> {
            &&& c.ip_total_window@ <= (#[trigger] history[i]).at
            &&& c.ip_failed_window@ <= history[i].at
            &&& c.code_window@ <= history[i].at
            &&& c.room_window@ <= history[i].at
            &&& c.connection_window@ <= history[i].at
        }
    &&& c.ip_total_window@ <= now && c.ip_failed_window@ <= now && c.code_window@ <= now
        && c.room_window@ <= now && c.connection_window@ <= now
}

/// Who may attempt to join, after any attempts by anyone. All attempts from the
/// address count toward the limit of the address, those that failed toward that
/// on failures, all with the code toward that of the code, all on the room toward
/// that of the room and all of the connection toward that of the connection,
/// whatever else they were and whether or not they failed. One more attempt is
/// allowed exactly where none of these limits bars it.
pub proof fn law_attempts_count_toward_their_limits(
    c: JoinRateLimiterConfig,
    history: Seq<PastAttempt>,
    a: AttemptView,
    now: nat,
)
    requires
        orderly(c, history, now),
    ensures
        after_history(c, history).allows(c, a, now) <==> {
            &&& !barred(
                times_of(history, |e: PastAttempt| e.attempt.ip == a.ip),
                c.ip_total_threshold,
                c.ip_total_window@,
                c.cooldown@,
                now,
            )
            &&& !barred(
                times_of(history, |e: PastAttempt| e.attempt.ip == a.ip && e.failed),
                c.ip_failed_threshold,
                c.ip_failed_window@,
                c.cooldown@,
                now,
            )
            &&& a.code is None || !barred(
                times_of(history, |e: PastAttempt| e.attempt.code == a.code),
                c.code_threshold,
                c.code_window@,
                c.cooldown@,
                now,
            )
            &&& !barred(
                times_of(history, |e: PastAttempt| e.attempt.room == a.room),
                c.room_threshold,
                c.room_window@,
                c.cooldown@,
                now,
            )
            &&& !barred(
                times_of(history, |e: PastAttempt| e.attempt.connection == a.connection),
                c.connection_threshold,
                c.connection_window@,
                c.cooldown@,
                now,
            )
        },
{
    let by_ip = |e: PastAttempt| e.attempt.ip == a.ip;
    let by_failure = |e: PastAttempt| e.attempt.ip == a.ip && e.failed;
    let by_code = |e: PastAttempt| e.attempt.code == a.code;
    let by_room = |e: PastAttempt| e.attempt.room == a.room;
    let by_connection = |e: PastAttempt| e.attempt.connection == a.connection;
    lemma_windows_of_history(c, history, a);
    lemma_times_in_order(history, by_ip, c.ip_total_window@, now);
    lemma_times_in_order(history, by_failure, c.ip_failed_window@, now);
    lemma_times_in_order(history, by_code, c.code_window@, now);
    lemma_times_in_order(history, by_room, c.room_window@, now);
    lemma_times_in_order(history, by_connection, c.connection_window@, now);
    lemma_allowed_unless_barred(
        times_of(history, by_ip),
        c.ip_total_threshold,
        c.ip_total_window@,
        c.cooldown@,
        now,
    );
    lemma_allowed_unless_barred(
        times_of(history, by_failure),
        c.ip_failed_threshold,
        c.ip_failed_window@,
        c.cooldown@,
        now,
    );
    lemma_allowed_unless_barred(
        times_of(history, by_code),
        c.code_threshold,
        c.code_window@,
        c.cooldown@,
        now,
    );
    lemma_allowed_unless_barred(
        times_of(history, by_room),
        c.room_threshold,
        c.room_window@,
        c.cooldown@,
        now,
    );
    lemma_allowed_unless_barred(
        times_of(history, by_connection),
        c.connection_threshold,
        c.connection_window@,
        c.cooldown@,
        now,
    );
}

proof fn lemma_times_step(history: Seq<PastAttempt>, p: spec_fn(PastAttempt) -> bool)
    requires
        history.len() > 0,
    ensures
        times_of(history, p) == if p(history.last()) {
            times_of(history.drop_last(), p).push(history.last().at)
        } else {
            times_of(history.drop_last(), p)
        },
{
    reveal(Seq::filter);
    if p(history.last()) {
        assert(times_of(history, p) =~= times_of(history.drop_last(), p).push(history.last().at));
    }
}

proof fn lemma_attempts_step(
    threshold: u32,
    window: nat,
    cooldown: nat,
    at: Seq<nat>,
    t: nat,
)
    ensures
        after_attempts(threshold, window, cooldown, at.push(t)) == after_attempts(
            threshold,
            window,
            cooldown,
            at,
        ).recorded(threshold, window, cooldown, t),
        after_attempts(threshold, window, cooldown, at.push(t)).times.len() > 0,
{
    assert(at.push(t).drop_last() =~= at);
}

/// The window of a key after one more attempt was recorded, or not, under it, and
/// the stale windows went.
proof fn lemma_window_step<I>(
    m: Map<I, WindowView>,
    key: I,
    touched: I,
    touches: bool,
    threshold: u32,
    window: nat,
    cooldown: nat,
    now: nat,
    at: Seq<nat>,
)
    requires
        window_of(m, key) == after_attempts(threshold, window, cooldown, at),
        m.contains_key(key) ==> at.len() > 0,
    ensures
        ({
            let m2 = pruned(
                if touches {
                    recorded_at(m, touched, threshold, window, cooldown, now)
                } else {
                    m
                },
                now,
            );
            let at2 = if touches && touched == key {
                at.push(now)
            } else {
                at
            };
            &&& window_of(m2, key) == after_attempts(threshold, window, cooldown, at2)
            &&& m2.contains_key(key) ==> at2.len() > 0
        }),
{
    let m1 = if touches {
        recorded_at(m, touched, threshold, window, cooldown, now)
    } else {
        m
    };
    let m2 = pruned(m1, now);
    lemma_attempts_step(threshold, window, cooldown, at, now);
    if at.len() > 0 {
        lemma_attempts_step(threshold, window, cooldown, at.drop_last(), at.last());
        assert(at.drop_last().push(at.last()) =~= at);
    }
    if touches && touched == key {
        assert(m1.contains_key(key));
        assert(!m1[key].stale(now));
        assert(m2.contains_key(key));
        assert(m2[key] == m1[key]);
    } else if m.contains_key(key) {
        assert(m1.contains_key(key) && m1[key] == m[key]);
        assert(!m1[key].stale(now));
        assert(m2.contains_key(key));
        assert(m2[key] == m1[key]);
    } else {
        assert(!m1.contains_key(key));
        assert(!m2.contains_key(key));
    }
}

proof fn lemma_windows_of_history(
    c: JoinRateLimiterConfig,
    history: Seq<PastAttempt>,
    a: AttemptView,
)
    ensures
        ({
            let w = after_history(c, history);
            let by_ip = times_of(history, |e: PastAttempt| e.attempt.ip == a.ip);
            let by_failure = times_of(
                history,
                |e: PastAttempt| e.attempt.ip == a.ip && e.failed,
            );
            let by_code = times_of(history, |e: PastAttempt| e.attempt.code == a.code);
            let by_room = times_of(history, |e: PastAttempt| e.attempt.room == a.room);
            let by_connection = times_of(
                history,
                |e: PastAttempt| e.attempt.connection == a.connection,
            );
            &&& window_of(w.ip_total, a.ip) == after_attempts(
                c.ip_total_threshold,
                c.ip_total_window@,
                c.cooldown@,
                by_ip,
            )
            &&& window_of(w.ip_failed, a.ip) == after_attempts(
                c.ip_failed_threshold,
                c.ip_failed_window@,
                c.cooldown@,
                by_failure,
            )
            &&& a.code is Some ==> window_of(w.code, a.code->0) == after_attempts(
                c.code_threshold,
                c.code_window@,
                c.cooldown@,
                by_code,
            )
            &&& window_of(w.room, a.room) == after_attempts(
                c.room_threshold,
                c.room_window@,
                c.cooldown@,
                by_room,
            )
            &&& window_of(w.connection, a.connection) == after_attempts(
                c.connection_threshold,
                c.connection_window@,
                c.cooldown@,
                by_connection,
            )
            &&& w.ip_total.contains_key(a.ip) ==> by_ip.len() > 0
            &&& w.ip_failed.contains_key(a.ip) ==> by_failure.len() > 0
            &&& a.code is Some && w.code.contains_key(a.code->0) ==> by_code.len() > 0
            &&& w.room.contains_key(a.room) ==> by_room.len() > 0
            &&& w.connection.contains_key(a.connection) ==> by_connection.len() > 0
        }),
    decreases history.len(),
{
    let by_ip = |e: PastAttempt| e.attempt.ip == a.ip;
    let by_failure = |e: PastAttempt| e.attempt.ip == a.ip && e.failed;
    let by_code = |e: PastAttempt| e.attempt.code == a.code;
    let by_room = |e: PastAttempt| e.attempt.room == a.room;
    let by_connection = |e: PastAttempt| e.attempt.connection == a.connection;
    if history.len() == 0 {
        reveal(Seq::filter);
        assert(times_of(history, by_ip) =~= Seq::<nat>::empty());
        assert(times_of(history, by_failure) =~= Seq::<nat>::empty());
        assert(times_of(history, by_code) =~= Seq::<nat>::empty());
        assert(times_of(history, by_room) =~= Seq::<nat>::empty());
        assert(times_of(history, by_connection) =~= Seq::<nat>::empty());
    } else {
        let before = history.drop_last();
        let e = history.last();
        let b = e.attempt;
        let w = after_history(c, before);
        lemma_windows_of_history(c, before, a);
        lemma_times_step(history, by_ip);
        lemma_times_step(history, by_failure);
        lemma_times_step(history, by_code);
        lemma_times_step(history, by_room);
        lemma_times_step(history, by_connection);
        lemma_window_step(
            w.ip_total,
            a.ip,
            b.ip,
            true,
            c.ip_total_threshold,
            c.ip_total_window@,
            c.cooldown@,
            e.at,
            times_of(before, by_ip),
        );
        lemma_window_step(
            w.ip_failed,
            a.ip,
            b.ip,
            e.failed,
            c.ip_failed_threshold,
            c.ip_failed_window@,
            c.cooldown@,
            e.at,
            times_of(before, by_failure),
        );
        if a.code is Some {
            lemma_window_step(
                w.code,
                a.code->0,
                b.code->0,
                b.code is Some,
                c.code_threshold,
                c.code_window@,
                c.cooldown@,
                e.at,
                times_of(before, by_code),
            );
        }
        lemma_window_step(
            w.room,
            a.room,
            b.room,
            true,
            c.room_threshold,
            c.room_window@,
            c.cooldown@,
            e.at,
            times_of(before, by_room),
        );
        lemma_window_step(
            w.connection,
            a.connection,
            b.connection,
            true,
            c.connection_threshold,
            c.connection_window@,
            c.cooldown@,
            e.at,
            times_of(before, by_connection),
        );
    }
}

/// That the times are in order, none before the end of the first window and none
/// after `now`.
spec fn times_orderly(at: Seq<nat>, window: nat, now: nat) -> bool {
    &&& queue::in_order(at)
    &&& at.len() <= u32::MAX
    &&& window <= now
    &&& forall|i: int| 0 <= i < at.len() ==> window <= #[trigger] at[i] <= now
}

proof fn lemma_times_in_order(
    history: Seq<PastAttempt>,
    p: spec_fn(PastAttempt) -> bool,
    window: nat,
    now: nat,
)
    requires
        history.len() <= u32::MAX,
        window <= now,
        forall|i: int, j: int|
            0 <= i <= j < history.len() ==> (#[trigger] history[i]).at <= (#[trigger] history[j]).at,
        forall|i: int| 0 <= i < history.len() ==> window <= (#[trigger] history[i]).at <= now,
    ensures
        times_orderly(times_of(history, p), window, now),
        times_of(history, p).len() <= history.len(),
        forall|i: int|
            0 <= i < times_of(history, p).len() ==> history.len() > 0 && #[trigger] times_of(
                history,
                p,
            )[i] <= history.last().at,
    decreases history.len(),
{
    if history.len() == 0 {
        reveal(Seq::filter);
        assert(times_of(history, p) =~= Seq::<nat>::empty());
    } else {
        let before = history.drop_last();
        assert forall|i: int, j: int| 0 <= i <= j < before.len() implies (#[trigger] before[i]).at
            <= (#[trigger] before[j]).at by {
            assert(history[i].at <= history[j].at);
        }
        assert forall|i: int| 0 <= i < before.len() implies window <= (#[trigger] before[i]).at
            <= now by {
            assert(window <= history[i].at <= now);
        }
        lemma_times_in_order(before, p, window, now);
        lemma_times_step(history, p);
        let last = history[history.len() - 1];
        if before.len() > 0 {
            assert(history[before.len() - 1].at <= last.at);
        }
    }
}

proof fn lemma_within_is_recent(at: Seq<nat>, window: nat, now: nat)
    requires
        queue::in_order(at),
        window <= now,
    ensures
        recent(at, window, now) == at.filter(|t: nat| now - window <= t),
        recent(at, window, now).len() == within(at, window, now),
        recent(at, window, now).len() <= at.len(),
{
    let kept = |t: nat| now - window <= t;
    queue::lemma_drop_is_filter(at, |t: nat| t < cutoff(window, now), kept);
    at.lemma_filter_len(kept);
}

proof fn lemma_allowed_unless_barred(
    at: Seq<nat>,
    threshold: u32,
    window: nat,
    cooldown: nat,
    now: nat,
)
    requires
        times_orderly(at, window, now),
    ensures
        after_attempts(threshold, window, cooldown, at).allows(threshold, window, now) <==> !barred(
            at,
            threshold,
            window,
            cooldown,
            now,
        ),
{
    let w = after_attempts(threshold, window, cooldown, at);
    lemma_attempts_kept(at, threshold, window, cooldown, now);
    lemma_within_is_recent(at, window, now);
    let n = recent(at, window, now).len();
    assert(n as u32 == n);
}

/// What a window keeps of the times: those that counted at the last of them, and
/// the cooldown since the last that was over the threshold.
proof fn lemma_attempts_kept(
    at: Seq<nat>,
    threshold: u32,
    window: nat,
    cooldown: nat,
    now: nat,
)
    requires
        times_orderly(at, window, now),
    ensures
        recent(after_attempts(threshold, window, cooldown, at).times, window, now) == recent(
            at,
            window,
            now,
        ),
        after_attempts(threshold, window, cooldown, at).cooling(now) <==> exists|j: int|
            0 <= j < at.len() && now < (#[trigger] at[j]) + cooldown && within(
                at.take(j + 1),
                window,
                at[j],
            ) > threshold,
    decreases at.len(),
{
    let w = after_attempts(threshold, window, cooldown, at);
    if at.len() == 0 {
        assert(at =~= Seq::<nat>::empty());
    } else {
        let before = at.drop_last();
        let t = at[at.len() - 1];
        assert(at.last() == t);
        assert(before.push(t) =~= at);
        assert(queue::in_order(before)) by {
            assert forall|i: int, j: int| 0 <= i <= j < before.len() implies before[i]
                <= before[j] by {
                assert(at[i] <= at[j]);
            }
        }
        assert(times_orderly(before, window, t)) by {
            assert forall|i: int| 0 <= i < before.len() implies window <= #[trigger] before[i]
                <= t by {
                assert(at[i] <= at[at.len() - 1]);
            }
        }
        assert(times_orderly(before, window, now)) by {
            assert forall|i: int| 0 <= i < before.len() implies window <= #[trigger] before[i]
                <= now by {
                assert(at[i] <= at[at.len() - 1]);
            }
        }
        lemma_attempts_kept(before, threshold, window, cooldown, t);
        lemma_attempts_kept(before, threshold, window, cooldown, now);
        let earlier = after_attempts(threshold, window, cooldown, before);
        let kept = recent(before, window, t);
        assert(recent(earlier.times, window, t) == kept);
        assert(w.times == kept.push(t));
        // What is kept of the times is what counts at the last one.
        lemma_within_is_recent(before, window, t);
        lemma_within_is_recent(at, window, t);
        lemma_within_is_recent(at, window, now);
        let counts = |x: nat| t - window <= x;
        assert(at.filter(counts) == before.filter(counts).push(t)) by {
            reveal(Seq::filter);
        }
        assert(w.times == at.filter(counts));
        assert(w.times == recent(at, window, t));
        queue::lemma_drop_twice(at, cutoff(window, t), cutoff(window, now));
        assert(recent(w.times, window, now) == recent(at, window, now));
        let n = w.times.len();
        assert(n == within(at, window, t));
        assert(n as u32 == n);
        assert(at.take(at.len() as int) =~= at);
        // The cooldown.
        assert forall|j: int| 0 <= j < before.len() implies before[j] == at[j] && before.take(j + 1)
            == at.take(j + 1) by {
            assert(before.take(j + 1) =~= at.take(j + 1));
        }
        if n > threshold {
            assert(w.until == Some(t + cooldown));
            if w.cooling(now) {
                assert(now < at[at.len() - 1] + cooldown);
                assert(within(at.take((at.len() - 1) + 1), window, at[at.len() - 1]) > threshold);
            } else {
                assert forall|j: int| 0 <= j < at.len() implies !(now < #[trigger] at[j]
                    + cooldown) by {
                    assert(at[j] <= at[at.len() - 1]);
                }
            }
        } else {
            assert(w.until == earlier.until);
            if w.cooling(now) {
                let j = choose|j: int|
                    0 <= j < before.len() && now < (#[trigger] before[j]) + cooldown && within(
                        before.take(j + 1),
                        window,
                        before[j],
                    ) > threshold;
                assert(now < at[j] + cooldown);
                assert(within(at.take(j + 1), window, at[j]) > threshold);
            } else {
                assert forall|j: int| 0 <= j < at.len() implies !(now < #[trigger] at[j] + cooldown
                    && within(at.take(j + 1), window, at[j]) > threshold) by {
                    if j < before.len() {
                        assert(before[j] == at[j]);
                    } else {
                        assert(at.take(j + 1) =~= at);
                    }
                }
            }
        }
    }
}

/// After `n` attempts on one room within its window, of whatever addresses, codes
/// and connections and whether or not they failed, an attempt on this room is
/// refused if `n` reaches the limit of the room. So it is with attempts from one
/// address, with one code, and of one connection.
pub proof fn law_full_limits_refuse(
    c: JoinRateLimiterConfig,
    history: Seq<PastAttempt>,
    a: AttemptView,
    now: nat,
)
    requires
        orderly(c, history, now),
    ensures
        (forall|i: int|
            0 <= i < history.len() ==> (#[trigger] history[i]).attempt.room == a.room && now
                - c.room_window@ <= history[i].at) && history.len() >= c.room_threshold
            ==> !after_history(c, history).allows(c, a, now),
        (forall|i: int|
            0 <= i < history.len() ==> (#[trigger] history[i]).attempt.ip == a.ip && now
                - c.ip_total_window@ <= history[i].at) && history.len() >= c.ip_total_threshold
            ==> !after_history(c, history).allows(c, a, now),
        (forall|i: int|
            0 <= i < history.len() ==> (#[trigger] history[i]).attempt.ip == a.ip
                && history[i].failed && now - c.ip_failed_window@ <= history[i].at)
            && history.len() >= c.ip_failed_threshold ==> !after_history(c, history).allows(
            c,
            a,
            now,
        ),
        a.code is Some && (forall|i: int|
            0 <= i < history.len() ==> (#[trigger] history[i]).attempt.code == a.code && now
                - c.code_window@ <= history[i].at) && history.len() >= c.code_threshold
            ==> !after_history(c, history).allows(c, a, now),
        (forall|i: int|
            0 <= i < history.len() ==> (#[trigger] history[i]).attempt.connection == a.connection
                && now - c.connection_window@ <= history[i].at) && history.len()
            >= c.connection_threshold ==> !after_history(c, history).allows(c, a, now),
{
    law_attempts_count_toward_their_limits(c, history, a, now);
    lemma_all_within(
        history,
        |e: PastAttempt| e.attempt.room == a.room,
        c.room_window@,
        now,
    );
    lemma_all_within(
        history,
        |e: PastAttempt| e.attempt.ip == a.ip,
        c.ip_total_window@,
        now,
    );
    lemma_all_within(
        history,
        |e: PastAttempt| e.attempt.ip == a.ip && e.failed,
        c.ip_failed_window@,
        now,
    );
    lemma_all_within(
        history,
        |e: PastAttempt| e.attempt.code == a.code,
        c.code_window@,
        now,
    );
    lemma_all_within(
        history,
        |e: PastAttempt| e.attempt.connection == a.connection,
        c.connection_window@,
        now,
    );
}

proof fn lemma_all_within(
    history: Seq<PastAttempt>,
    p: spec_fn(PastAttempt) -> bool,
    window: nat,
    now: nat,
)
    ensures
        (forall|i: int|
            0 <= i < history.len() ==> p(#[trigger] history[i]) && now - window <= history[i].at)
            ==> within(times_of(history, p), window, now) == history.len(),
    decreases history.len(),
{
    reveal(Seq::filter);
    if history.len() == 0 {
        assert(times_of(history, p) =~= Seq::<nat>::empty());
    } else if forall|i: int|
        0 <= i < history.len() ==> p(#[trigger] history[i]) && now - window <= history[i].at {
        let before = history.drop_last();
        assert forall|i: int| 0 <= i < before.len() implies p(#[trigger] before[i]) && now - window
            <= before[i].at by {
            assert(p(history[i]));
        }
        lemma_all_within(before, p, window, now);
        lemma_times_step(history, p);
        assert(p(history[history.len() - 1]));
        let at = times_of(before, p);
        assert(at.push(history.last().at).drop_last() =~= at);
    }
}

/// To ask, of whatever attempt, changes no later answer to any attempt, and nor
/// does it to drop the stale windows, once the clock has run for every window.
pub proof fn law_asking_and_pruning_change_no_answer(
    w: JoinWindows,
    c: JoinRateLimiterConfig,
    a: AttemptView,
    b: AttemptView,
    now: nat,
    later: nat,
)
    requires
        c.ip_total_window@ <= now,
        c.ip_failed_window@ <= now,
        c.code_window@ <= now,
        c.room_window@ <= now,
        c.connection_window@ <= now,
        now <= later,
    ensures
        w.asked(c, a, now).allows(c, b, later) == w.allows(c, b, later),
        w.pruned(now).allows(c, b, later) == w.allows(c, b, later),
{
    law_asking_records_nothing(
        window_of(w.ip_total, b.ip),
        c.ip_total_threshold,
        c.ip_total_window@,
        now,
        later,
    );
    law_asking_records_nothing(
        window_of(w.ip_failed, b.ip),
        c.ip_failed_threshold,
        c.ip_failed_window@,
        now,
        later,
    );
    law_asking_records_nothing(
        window_of(w.room, b.room),
        c.room_threshold,
        c.room_window@,
        now,
        later,
    );
    law_asking_records_nothing(
        window_of(w.connection, b.connection),
        c.connection_threshold,
        c.connection_window@,
        now,
        later,
    );
    law_pruning_changes_no_answer(
        w.ip_total,
        b.ip,
        c.ip_total_threshold,
        c.ip_total_window@,
        now,
        later,
    );
    law_pruning_changes_no_answer(
        w.ip_failed,
        b.ip,
        c.ip_failed_threshold,
        c.ip_failed_window@,
        now,
        later,
    );
    law_pruning_changes_no_answer(
        w.room,
        b.room,
        c.room_threshold,
        c.room_window@,
        now,
        later,
    );
    law_pruning_changes_no_answer(
        w.connection,
        b.connection,
        c.connection_threshold,
        c.connection_window@,
        now,
        later,
    );
    if b.code is Some {
        law_asking_records_nothing(
            window_of(w.code, b.code->0),
            c.code_threshold,
            c.code_window@,
            now,
            later,
        );
        law_pruning_changes_no_answer(
            w.code,
            b.code->0,
            c.code_threshold,
            c.code_window@,
            now,
            later,
        );
    }
}

/// What was recorded counts from then on: a limiter that has seen some attempts has,
/// after one more is recorded, seen that one too, of that address, code, room and
/// connection and failed or not; a new limiter has seen none.
pub proof fn law_recorded_attempts_are_seen(
    fresh: JoinRateLimiter,
    limiter: &mut JoinRateLimiter,
    ip: IpAddr,
    code: Option<&str>,
    room_id: &str,
    connection_id: &str,
    failed: bool,
    now: Instant,
    history: Seq<PastAttempt>,
    e: PastAttempt,
    config: JoinRateLimiterConfig,
)
    requires
        call_ensures(JoinRateLimiter::new, (config,), fresh),
        call_ensures(
            JoinRateLimiter::record_attempt,
            (limiter, ip, code, room_id, connection_id, failed, now),
            (),
        ),
        old(limiter).windows() == after_history(old(limiter).limits(), history),
        e.attempt.ip == ip,
        e.attempt.code is Some <==> code is Some,
        code is Some ==> e.attempt.code->0 == code->0@,
        e.attempt.room == room_id@,
        e.attempt.connection == connection_id@,
        e.failed == failed,
        e.at == now@,
    ensures
        fresh.windows() == after_history(fresh.limits(), Seq::empty()),
        fresh.limits() == config,
        final(limiter).limits() == old(limiter).limits(),
        final(limiter).windows() == after_history(final(limiter).limits(), history.push(e)),
{
    assert(history.push(e).drop_last() =~= history);
    assert(e.attempt =~= attempt(ip, code, room_id, connection_id));
}

/// One more attempt is allowed exactly where neither the attempts of the address, nor
/// its failed ones, nor those with the code, on the room or of the connection bar it.
pub proof fn law_limits_decide_who_joins(
    limiter: &mut JoinRateLimiter,
    ip: IpAddr,
    code: Option<&str>,
    room_id: &str,
    connection_id: &str,
    now: Instant,
    r: Result<(), JoinRejectionReason>,
    history: Seq<PastAttempt>,
)
    requires
        call_ensures(
            JoinRateLimiter::check_join,
            (limiter, ip, code, room_id, connection_id, now),
            r,
        ),
        old(limiter).windows() == after_history(old(limiter).limits(), history),
        orderly(old(limiter).limits(), history, now@),
    ensures
        r is Err ==> r->Err_0 is RateLimited,
        ({
            let c = old(limiter).limits();
            r is Ok <==> {
                &&& !barred(
                    times_of(history, |e: PastAttempt| e.attempt.ip == ip),
                    c.ip_total_threshold,
                    c.ip_total_window@,
                    c.cooldown@,
                    now@,
                )
                &&& !barred(
                    times_of(history, |e: PastAttempt| e.attempt.ip == ip && e.failed),
                    c.ip_failed_threshold,
                    c.ip_failed_window@,
                    c.cooldown@,
                    now@,
                )
                &&& code is None || !barred(
                    times_of(history, |e: PastAttempt| e.attempt.code == Some(code->0@)),
                    c.code_threshold,
                    c.code_window@,
                    c.cooldown@,
                    now@,
                )
                &&& !barred(
                    times_of(history, |e: PastAttempt| e.attempt.room == room_id@),
                    c.room_threshold,
                    c.room_window@,
                    c.cooldown@,
                    now@,
                )
                &&& !barred(
                    times_of(history, |e: PastAttempt| e.attempt.connection == connection_id@),
                    c.connection_threshold,
                    c.connection_window@,
                    c.cooldown@,
                    now@,
                )
            }
        }),
{
    let a = attempt(ip, code, room_id, connection_id);
    law_attempts_count_toward_their_limits(old(limiter).limits(), history, a, now@);
    let by_ip = |e: PastAttempt| e.attempt.ip == a.ip;
    let by_failure = |e: PastAttempt| e.attempt.ip == a.ip && e.failed;
    let by_code = |e: PastAttempt| e.attempt.code == a.code;
    let by_room = |e: PastAttempt| e.attempt.room == a.room;
    let by_connection = |e: PastAttempt| e.attempt.connection == a.connection;
    assert(by_ip =~= |e: PastAttempt| e.attempt.ip == ip);
    assert(by_failure =~= |e: PastAttempt| e.attempt.ip == ip && e.failed);
    if code is Some {
        assert(by_code =~= |e: PastAttempt| e.attempt.code == Some(code->0@));
    }
    assert(by_room =~= |e: PastAttempt| e.attempt.room == room_id@);
    assert(by_connection =~= |e: PastAttempt| e.attempt.connection == connection_id@);
}

/// The limits by default: thirty attempts of an address in a minute, ten failed ones,
/// ten with a code, twelve on a room and five of a connection, and a minute of
/// cooldown. New limits start with nothing on record.
pub proof fn law_limits_by_default(c: JoinRateLimiterConfig, limiter: &mut JoinRateLimiter)
    requires
        call_ensures(JoinRateLimiterConfig::default, (), c),
        call_ensures(JoinRateLimiter::reconfigure, (limiter, c), ()),
    ensures
        c.ip_total_threshold == 30,
        c.ip_failed_threshold == 10,
        c.code_threshold == 10,
        c.room_threshold == 12,
        c.connection_threshold == 5,
        c.ip_total_window@ == 60 * 1_000_000_000,
        c.ip_failed_window@ == 60 * 1_000_000_000,
        c.code_window@ == 60 * 1_000_000_000,
        c.room_window@ == 60 * 1_000_000_000,
        c.connection_window@ == 60 * 1_000_000_000,
        c.cooldown@ == 60 * 1_000_000_000,
        final(limiter).limits() == c,
        final(limiter).windows() == after_history(c, Seq::empty()),
{
}

} // verus!
