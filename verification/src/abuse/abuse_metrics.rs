//! Counters of what the limits have refused.

use crate::abuse::join_rate_limiter as join_rate;
use crate::abuse::queue;
use crate::net::IpAddr;
use crate::table::Table;
use crate::table::TableKey;
use crate::time;
use crate::time::Duration;
use crate::time::Instant;
use std::collections::VecDeque;
use vstd::prelude::*;

verus! {

/// The counters by name.
#[derive(Clone, Copy, PartialEq, Eq, Structural, Debug)]
pub enum AbuseCounter {
    WsRateLimitRejections,
    WsBurstRejections,
    ActionRateLimitRejections,
    JoinRateLimitRejections,
    JoinInviteRejections,
    ConnectionsClosedRateLimit,
    PayloadSizeViolations,
    ConnectionsRejectedIpCap,
    ConnectionsRejectedTempBan,
    GlobalWsCeilingRejections,
    GlobalJoinCeilingRejections,
    SchemaValidationRejections,
    StateMachineRejections,
    ScreenShareRejections,
    RevokeAuthorizationRejections,
    TlsProtoRejections,
    InviteUsageAnomalies,
}

/// The counters.
#[derive(Clone, Copy)]
pub struct AbuseMetrics {
    pub ws_rate_limit_rejections: u64,
    pub ws_burst_rejections: u64,
    pub action_rate_limit_rejections: u64,
    pub join_rate_limit_rejections: u64,
    pub join_invite_rejections: u64,
    pub connections_closed_rate_limit: u64,
    pub payload_size_violations: u64,
    pub connections_rejected_ip_cap: u64,
    pub connections_rejected_temp_ban: u64,
    pub global_ws_ceiling_rejections: u64,
    pub global_join_ceiling_rejections: u64,
    pub schema_validation_rejections: u64,
    pub state_machine_rejections: u64,
    pub screen_share_rejections: u64,
    pub revoke_authorization_rejections: u64,
    pub tls_proto_rejections: u64,
    pub invite_usage_anomalies: u64,
}

/// The counters at one moment, for a report.
#[derive(Clone, Copy, PartialEq, Eq, Structural, Debug)]
pub struct AbuseMetricsSnapshot {
    pub ws_rate_limit_rejections: u64,
    pub ws_burst_rejections: u64,
    pub action_rate_limit_rejections: u64,
    pub join_rate_limit_rejections: u64,
    pub join_invite_rejections: u64,
    pub connections_closed_rate_limit: u64,
    pub payload_size_violations: u64,
    pub connections_rejected_ip_cap: u64,
    pub connections_rejected_temp_ban: u64,
    pub global_ws_ceiling_rejections: u64,
    pub global_join_ceiling_rejections: u64,
    pub schema_validation_rejections: u64,
    pub state_machine_rejections: u64,
    pub screen_share_rejections: u64,
    pub revoke_authorization_rejections: u64,
    pub tls_proto_rejections: u64,
    pub invite_usage_anomalies: u64,
}

impl AbuseMetricsSnapshot {
    /// The value of a counter.
    pub open spec fn value(self, counter: AbuseCounter) -> u64 {
        match counter {
            AbuseCounter::WsRateLimitRejections => self.ws_rate_limit_rejections,
            AbuseCounter::WsBurstRejections => self.ws_burst_rejections,
            AbuseCounter::ActionRateLimitRejections => self.action_rate_limit_rejections,
            AbuseCounter::JoinRateLimitRejections => self.join_rate_limit_rejections,
            AbuseCounter::JoinInviteRejections => self.join_invite_rejections,
            AbuseCounter::ConnectionsClosedRateLimit => self.connections_closed_rate_limit,
            AbuseCounter::PayloadSizeViolations => self.payload_size_violations,
            AbuseCounter::ConnectionsRejectedIpCap => self.connections_rejected_ip_cap,
            AbuseCounter::ConnectionsRejectedTempBan => self.connections_rejected_temp_ban,
            AbuseCounter::GlobalWsCeilingRejections => self.global_ws_ceiling_rejections,
            AbuseCounter::GlobalJoinCeilingRejections => self.global_join_ceiling_rejections,
            AbuseCounter::SchemaValidationRejections => self.schema_validation_rejections,
            AbuseCounter::StateMachineRejections => self.state_machine_rejections,
            AbuseCounter::ScreenShareRejections => self.screen_share_rejections,
            AbuseCounter::RevokeAuthorizationRejections => self.revoke_authorization_rejections,
            AbuseCounter::TlsProtoRejections => self.tls_proto_rejections,
            AbuseCounter::InviteUsageAnomalies => self.invite_usage_anomalies,
        }
    }
}

impl View for AbuseMetrics {
    type V = AbuseMetricsSnapshot;

    open spec fn view(&self) -> AbuseMetricsSnapshot {
        AbuseMetricsSnapshot {
            ws_rate_limit_rejections: self.ws_rate_limit_rejections,
            ws_burst_rejections: self.ws_burst_rejections,
            action_rate_limit_rejections: self.action_rate_limit_rejections,
            join_rate_limit_rejections: self.join_rate_limit_rejections,
            join_invite_rejections: self.join_invite_rejections,
            connections_closed_rate_limit: self.connections_closed_rate_limit,
            payload_size_violations: self.payload_size_violations,
            connections_rejected_ip_cap: self.connections_rejected_ip_cap,
            connections_rejected_temp_ban: self.connections_rejected_temp_ban,
            global_ws_ceiling_rejections: self.global_ws_ceiling_rejections,
            global_join_ceiling_rejections: self.global_join_ceiling_rejections,
            schema_validation_rejections: self.schema_validation_rejections,
            state_machine_rejections: self.state_machine_rejections,
            screen_share_rejections: self.screen_share_rejections,
            revoke_authorization_rejections: self.revoke_authorization_rejections,
            tls_proto_rejections: self.tls_proto_rejections,
            invite_usage_anomalies: self.invite_usage_anomalies,
        }
    }
}

impl AbuseMetrics {
    /// All counters at zero.
    pub fn new() -> (m: AbuseMetrics)
        ensures
            forall|c: AbuseCounter| #[trigger] m@.value(c) == 0,
    {
        AbuseMetrics {
            ws_rate_limit_rejections: 0,
            ws_burst_rejections: 0,
            action_rate_limit_rejections: 0,
            join_rate_limit_rejections: 0,
            join_invite_rejections: 0,
            connections_closed_rate_limit: 0,
            payload_size_violations: 0,
            connections_rejected_ip_cap: 0,
            connections_rejected_temp_ban: 0,
            global_ws_ceiling_rejections: 0,
            global_join_ceiling_rejections: 0,
            schema_validation_rejections: 0,
            state_machine_rejections: 0,
            screen_share_rejections: 0,
            revoke_authorization_rejections: 0,
            tls_proto_rejections: 0,
            invite_usage_anomalies: 0,
        }
    }

    /// Adds one to a counter and leaves the others; after the largest number
    /// comes zero.
    pub fn increment(&mut self, counter: AbuseCounter)
        ensures
            final(self)@.value(counter) == old(self)@.value(counter).wrapping_add(1),
            forall|c: AbuseCounter| #[trigger]
                final(self)@.value(c) == (if c == counter {
                    old(self)@.value(c).wrapping_add(1)
                } else {
                    old(self)@.value(c)
                }),
    {
        match counter {
            AbuseCounter::WsRateLimitRejections => {
                self.ws_rate_limit_rejections = self.ws_rate_limit_rejections.wrapping_add(1);
            },
            AbuseCounter::WsBurstRejections => {
                self.ws_burst_rejections = self.ws_burst_rejections.wrapping_add(1);
            },
            AbuseCounter::ActionRateLimitRejections => {
                self.action_rate_limit_rejections = self.action_rate_limit_rejections.wrapping_add(1);
            },
            AbuseCounter::JoinRateLimitRejections => {
                self.join_rate_limit_rejections = self.join_rate_limit_rejections.wrapping_add(1);
            },
            AbuseCounter::JoinInviteRejections => {
                self.join_invite_rejections = self.join_invite_rejections.wrapping_add(1);
            },
            AbuseCounter::ConnectionsClosedRateLimit => {
                self.connections_closed_rate_limit = self.connections_closed_rate_limit.wrapping_add(1);
            },
            AbuseCounter::PayloadSizeViolations => {
                self.payload_size_violations = self.payload_size_violations.wrapping_add(1);
            },
            AbuseCounter::ConnectionsRejectedIpCap => {
                self.connections_rejected_ip_cap = self.connections_rejected_ip_cap.wrapping_add(1);
            },
            AbuseCounter::ConnectionsRejectedTempBan => {
                self.connections_rejected_temp_ban = self.connections_rejected_temp_ban.wrapping_add(1);
            },
            AbuseCounter::GlobalWsCeilingRejections => {
                self.global_ws_ceiling_rejections = self.global_ws_ceiling_rejections.wrapping_add(1);
            },
            AbuseCounter::GlobalJoinCeilingRejections => {
                self.global_join_ceiling_rejections = self.global_join_ceiling_rejections.wrapping_add(1);
            },
            AbuseCounter::SchemaValidationRejections => {
                self.schema_validation_rejections = self.schema_validation_rejections.wrapping_add(1);
            },
            AbuseCounter::StateMachineRejections => {
                self.state_machine_rejections = self.state_machine_rejections.wrapping_add(1);
            },
            AbuseCounter::ScreenShareRejections => {
                self.screen_share_rejections = self.screen_share_rejections.wrapping_add(1);
            },
            AbuseCounter::RevokeAuthorizationRejections => {
                self.revoke_authorization_rejections = self.revoke_authorization_rejections.wrapping_add(1);
            },
            AbuseCounter::TlsProtoRejections => {
                self.tls_proto_rejections = self.tls_proto_rejections.wrapping_add(1);
            },
            AbuseCounter::InviteUsageAnomalies => {
                self.invite_usage_anomalies = self.invite_usage_anomalies.wrapping_add(1);
            },
        }
    }

    /// The counters as they stand.
    pub fn snapshot(&self) -> (s: AbuseMetricsSnapshot)
        ensures
            s == self@,
    {
        AbuseMetricsSnapshot {
            ws_rate_limit_rejections: self.ws_rate_limit_rejections,
            ws_burst_rejections: self.ws_burst_rejections,
            action_rate_limit_rejections: self.action_rate_limit_rejections,
            join_rate_limit_rejections: self.join_rate_limit_rejections,
            join_invite_rejections: self.join_invite_rejections,
            connections_closed_rate_limit: self.connections_closed_rate_limit,
            payload_size_violations: self.payload_size_violations,
            connections_rejected_ip_cap: self.connections_rejected_ip_cap,
            connections_rejected_temp_ban: self.connections_rejected_temp_ban,
            global_ws_ceiling_rejections: self.global_ws_ceiling_rejections,
            global_join_ceiling_rejections: self.global_join_ceiling_rejections,
            schema_validation_rejections: self.schema_validation_rejections,
            state_machine_rejections: self.state_machine_rejections,
            screen_share_rejections: self.screen_share_rejections,
            revoke_authorization_rejections: self.revoke_authorization_rejections,
            tls_proto_rejections: self.tls_proto_rejections,
            invite_usage_anomalies: self.invite_usage_anomalies,
        }
    }
}

impl Default for AbuseMetrics {
    fn default() -> (m: AbuseMetrics)
        ensures
            forall|c: AbuseCounter| #[trigger] m@.value(c) == 0,
    {
        AbuseMetrics::new()
    }
}

/// The failed attempts of each address, in a sliding window.
pub struct IpFailedJoinTracker {
    entries: Table<IpAddr, VecDeque<Instant>>,
    threshold: u32,
    window: Duration,
}

/// The failures of an address; one that has none on record has none.
pub open spec fn failures_of(m: Map<IpAddr, Seq<nat>>, ip: IpAddr) -> Seq<nat> {
    if m.contains_key(ip) {
        m[ip]
    } else {
        Seq::empty()
    }
}

impl IpFailedJoinTracker {
    /// What holds of every tracker.
    pub closed spec fn wf(&self) -> bool {
        self.entries.wf()
    }

    /// The failures on record.
    pub closed spec fn failures(&self) -> Map<IpAddr, Seq<nat>> {
        self.entries@.map_values(|q: VecDeque<Instant>| queue::times(q@))
    }

    /// The number of failures that is still in order.
    pub closed spec fn limit(&self) -> u32 {
        self.threshold
    }

    /// The length of the window.
    pub closed spec fn length(&self) -> nat {
        self.window@
    }

    /// A tracker without failures.
    pub fn new(threshold: u32, window: Duration) -> (t: IpFailedJoinTracker)
        ensures
            t.wf(),
            t.failures() == Map::<IpAddr, Seq<nat>>::empty(),
            t.limit() == threshold,
            t.length() == window@,
    {
        let t = IpFailedJoinTracker { entries: Table::new(), threshold, window };
        assert(t.failures() =~= Map::<IpAddr, Seq<nat>>::empty());
        t
    }

    /// Records a failure. The number of failures in the window (cut to 32 bits)
    /// comes back where it is over the threshold.
    pub fn record_failure(&mut self, ip: IpAddr, now: Instant) -> (r: Option<u32>)
        requires
            old(self).wf(),
        ensures
            final(self).wf(),
            final(self).limit() == old(self).limit(),
            final(self).length() == old(self).length(),
            ({
                let counted = join_rate::recent(
                    failures_of(old(self).failures(), ip),
                    old(self).length(),
                    now@,
                ).push(now@);
                &&& final(self).failures() == old(self).failures().insert(ip, counted)
                &&& r == (if (counted.len() as u32) > old(self).limit() {
                    Some(counted.len() as u32)
                } else {
                    None::<u32>
                })
            }),
    {
        let ghost before = self.entries@;
        let cutoff = match now.checked_sub(self.window) {
            Some(t) => t,
            None => now,
        };
        let fresh: VecDeque<Instant> = VecDeque::new();
        assert(queue::times(fresh@) =~= Seq::<nat>::empty());
        let q = self.entries.entry_mut(ip, fresh);
        queue::drop_before(q, cutoff);
        let ghost kept = q@;
        q.push_back(now);
        assert(queue::times(q@) =~= queue::times(kept).push(now@));
        let count: u32 = q.len() as u32;
        let ghost times = queue::times(q@);
        proof {
            assert(self.failures() =~= old(self).failures().insert(ip, times));
        }
        if count > self.threshold {
            Some(count)
        } else {
            None
        }
    }

    /// The length of the window in seconds.
    pub fn window_secs(&self) -> (secs: u64)
        ensures
            secs == self.length() / time::NANOS_PER_SEC as nat,
    {
        self.window.as_secs()
    }
}

impl Default for IpFailedJoinTracker {
    fn default() -> (t: IpFailedJoinTracker)
        ensures
            t.wf(),
            t.failures() == Map::<IpAddr, Seq<nat>>::empty(),
            t.limit() == 10,
            t.length() == 60 * time::NANOS_PER_SEC,
    {
        IpFailedJoinTracker::new(10, Duration::from_secs(60))
    }
}

/// While all its failures fall into the window, an address is reported from the
/// failure on that goes over the threshold, with the number of its failures.
pub proof fn law_reported_over_the_threshold(
    past: Seq<nat>,
    window: nat,
    threshold: u32,
    now: nat,
)
    requires
        forall|i: int| 0 <= i < past.len() ==> #[trigger] past[i] >= join_rate::cutoff(window, now),
        past.len() < u32::MAX,
    ensures
        ({
            let counted = join_rate::recent(past, window, now).push(now);
            &&& counted == past.push(now)
            &&& (counted.len() as u32) > threshold <==> past.len() + 1 > threshold
            &&& counted.len() as u32 == past.len() + 1
        }),
{
    queue::lemma_drop_nothing(past, |t: nat| t < join_rate::cutoff(window, now));
}

/// The failures of one address leave those of any other alone.
pub proof fn law_failures_are_independent(
    failures: Map<IpAddr, Seq<nat>>,
    ip: IpAddr,
    times: Seq<nat>,
    other: IpAddr,
)
    requires
        other != ip,
    ensures
        failures_of(failures.insert(ip, times), other) == failures_of(failures, other),
{
}

/// A counter after `n` increments.
pub open spec fn counted(start: u64, n: nat) -> u64
    decreases n,
{
    if n == 0 {
        start
    } else {
        counted(start, (n - 1) as nat).wrapping_add(1)
    }
}

/// Until it reaches the largest number a counter holds exactly the number of
/// its increments, so it never goes down.
pub proof fn law_counters_count(start: u64, n: nat)
    requires
        start + n <= u64::MAX,
    ensures
        counted(start, n) == start + n,
    decreases n,
{
    if n > 0 {
        law_counters_count(start, (n - 1) as nat);
    }
}

/// That a count went up by one, starting over after the largest number, or stayed
/// as it was.
pub open spec fn one_more(before: u64, after: u64, counts: bool) -> bool {
    if !counts {
        after == before
    } else if before < u64::MAX {
        after == before + 1
    } else {
        after == 0
    }
}

/// What is counted shows in the report under its own name, and nowhere else.
pub proof fn law_counts_show_under_their_names(
    metrics: &mut AbuseMetrics,
    after: &AbuseMetrics,
    counter: AbuseCounter,
    s: AbuseMetricsSnapshot,
)
    requires
        call_ensures(AbuseMetrics::increment, (metrics, counter), ()),
        *after == *final(metrics),
        call_ensures(AbuseMetrics::snapshot, (after,), s),
    ensures
        one_more(
            old(metrics).ws_rate_limit_rejections,
            s.ws_rate_limit_rejections,
            counter == AbuseCounter::WsRateLimitRejections,
        ),
        one_more(
            old(metrics).ws_burst_rejections,
            s.ws_burst_rejections,
            counter == AbuseCounter::WsBurstRejections,
        ),
        one_more(
            old(metrics).action_rate_limit_rejections,
            s.action_rate_limit_rejections,
            counter == AbuseCounter::ActionRateLimitRejections,
        ),
        one_more(
            old(metrics).join_rate_limit_rejections,
            s.join_rate_limit_rejections,
            counter == AbuseCounter::JoinRateLimitRejections,
        ),
        one_more(
            old(metrics).join_invite_rejections,
            s.join_invite_rejections,
            counter == AbuseCounter::JoinInviteRejections,
        ),
        one_more(
            old(metrics).connections_closed_rate_limit,
            s.connections_closed_rate_limit,
            counter == AbuseCounter::ConnectionsClosedRateLimit,
        ),
        one_more(
            old(metrics).payload_size_violations,
            s.payload_size_violations,
            counter == AbuseCounter::PayloadSizeViolations,
        ),
        one_more(
            old(metrics).connections_rejected_ip_cap,
            s.connections_rejected_ip_cap,
            counter == AbuseCounter::ConnectionsRejectedIpCap,
        ),
        one_more(
            old(metrics).connections_rejected_temp_ban,
            s.connections_rejected_temp_ban,
            counter == AbuseCounter::ConnectionsRejectedTempBan,
        ),
        one_more(
            old(metrics).global_ws_ceiling_rejections,
            s.global_ws_ceiling_rejections,
            counter == AbuseCounter::GlobalWsCeilingRejections,
        ),
        one_more(
            old(metrics).global_join_ceiling_rejections,
            s.global_join_ceiling_rejections,
            counter == AbuseCounter::GlobalJoinCeilingRejections,
        ),
        one_more(
            old(metrics).schema_validation_rejections,
            s.schema_validation_rejections,
            counter == AbuseCounter::SchemaValidationRejections,
        ),
        one_more(
            old(metrics).state_machine_rejections,
            s.state_machine_rejections,
            counter == AbuseCounter::StateMachineRejections,
        ),
        one_more(
            old(metrics).screen_share_rejections,
            s.screen_share_rejections,
            counter == AbuseCounter::ScreenShareRejections,
        ),
        one_more(
            old(metrics).revoke_authorization_rejections,
            s.revoke_authorization_rejections,
            counter == AbuseCounter::RevokeAuthorizationRejections,
        ),
        one_more(
            old(metrics).tls_proto_rejections,
            s.tls_proto_rejections,
            counter == AbuseCounter::TlsProtoRejections,
        ),
        one_more(
            old(metrics).invite_usage_anomalies,
            s.invite_usage_anomalies,
            counter == AbuseCounter::InviteUsageAnomalies,
        ),
{
    assert forall|c: AbuseCounter| one_more(
        #[trigger] old(metrics)@.value(c),
        s.value(c),
        counter == c,
    ) by {
        assert(s.value(c) == final(metrics)@.value(c));
        assert(final(metrics)@.value(c) == (if c == counter {
            old(metrics)@.value(c).wrapping_add(1)
        } else {
            old(metrics)@.value(c)
        }));
    }
    assert(one_more(
        old(metrics)@.value(AbuseCounter::WsRateLimitRejections),
        s.value(AbuseCounter::WsRateLimitRejections),
        counter == AbuseCounter::WsRateLimitRejections,
    ));
    assert(one_more(
        old(metrics)@.value(AbuseCounter::WsBurstRejections),
        s.value(AbuseCounter::WsBurstRejections),
        counter == AbuseCounter::WsBurstRejections,
    ));
    assert(one_more(
        old(metrics)@.value(AbuseCounter::ActionRateLimitRejections),
        s.value(AbuseCounter::ActionRateLimitRejections),
        counter == AbuseCounter::ActionRateLimitRejections,
    ));
    assert(one_more(
        old(metrics)@.value(AbuseCounter::JoinRateLimitRejections),
        s.value(AbuseCounter::JoinRateLimitRejections),
        counter == AbuseCounter::JoinRateLimitRejections,
    ));
    assert(one_more(
        old(metrics)@.value(AbuseCounter::JoinInviteRejections),
        s.value(AbuseCounter::JoinInviteRejections),
        counter == AbuseCounter::JoinInviteRejections,
    ));
    assert(one_more(
        old(metrics)@.value(AbuseCounter::ConnectionsClosedRateLimit),
        s.value(AbuseCounter::ConnectionsClosedRateLimit),
        counter == AbuseCounter::ConnectionsClosedRateLimit,
    ));
    assert(one_more(
        old(metrics)@.value(AbuseCounter::PayloadSizeViolations),
        s.value(AbuseCounter::PayloadSizeViolations),
        counter == AbuseCounter::PayloadSizeViolations,
    ));
    assert(one_more(
        old(metrics)@.value(AbuseCounter::ConnectionsRejectedIpCap),
        s.value(AbuseCounter::ConnectionsRejectedIpCap),
        counter == AbuseCounter::ConnectionsRejectedIpCap,
    ));
    assert(one_more(
        old(metrics)@.value(AbuseCounter::ConnectionsRejectedTempBan),
        s.value(AbuseCounter::ConnectionsRejectedTempBan),
        counter == AbuseCounter::ConnectionsRejectedTempBan,
    ));
    assert(one_more(
        old(metrics)@.value(AbuseCounter::GlobalWsCeilingRejections),
        s.value(AbuseCounter::GlobalWsCeilingRejections),
        counter == AbuseCounter::GlobalWsCeilingRejections,
    ));
    assert(one_more(
        old(metrics)@.value(AbuseCounter::GlobalJoinCeilingRejections),
        s.value(AbuseCounter::GlobalJoinCeilingRejections),
        counter == AbuseCounter::GlobalJoinCeilingRejections,
    ));
    assert(one_more(
        old(metrics)@.value(AbuseCounter::SchemaValidationRejections),
        s.value(AbuseCounter::SchemaValidationRejections),
        counter == AbuseCounter::SchemaValidationRejections,
    ));
    assert(one_more(
        old(metrics)@.value(AbuseCounter::StateMachineRejections),
        s.value(AbuseCounter::StateMachineRejections),
        counter == AbuseCounter::StateMachineRejections,
    ));
    assert(one_more(
        old(metrics)@.value(AbuseCounter::ScreenShareRejections),
        s.value(AbuseCounter::ScreenShareRejections),
        counter == AbuseCounter::ScreenShareRejections,
    ));
    assert(one_more(
        old(metrics)@.value(AbuseCounter::RevokeAuthorizationRejections),
        s.value(AbuseCounter::RevokeAuthorizationRejections),
        counter == AbuseCounter::RevokeAuthorizationRejections,
    ));
    assert(one_more(
        old(metrics)@.value(AbuseCounter::TlsProtoRejections),
        s.value(AbuseCounter::TlsProtoRejections),
        counter == AbuseCounter::TlsProtoRejections,
    ));
    assert(one_more(
        old(metrics)@.value(AbuseCounter::InviteUsageAnomalies),
        s.value(AbuseCounter::InviteUsageAnomalies),
        counter == AbuseCounter::InviteUsageAnomalies,
    ));
}

/// While all its failures fall into the window, an address is reported exactly
/// from the failure on that goes over the threshold, with their number; the
/// failures of the others do not count.
pub proof fn law_failed_joins_are_reported(
    tracker: &mut IpFailedJoinTracker,
    ip: IpAddr,
    other: IpAddr,
    now: Instant,
    r: Option<u32>,
)
    requires
        call_ensures(IpFailedJoinTracker::record_failure, (tracker, ip, now), r),
        old(tracker).length() <= now@,
        forall|i: int|
            0 <= i < failures_of(old(tracker).failures(), ip).len() ==> now@ - old(tracker).length()
                <= #[trigger] failures_of(old(tracker).failures(), ip)[i],
        failures_of(old(tracker).failures(), ip).len() < u32::MAX,
    ensures
        ({
            let n = failures_of(old(tracker).failures(), ip).len() + 1;
            &&& r is Some <==> n > old(tracker).limit()
            &&& r is Some ==> r->0 == n
            &&& failures_of(final(tracker).failures(), ip).len() == n
        }),
        other != ip ==> failures_of(final(tracker).failures(), other) == failures_of(
            old(tracker).failures(),
            other,
        ),
{
    let past = failures_of(old(tracker).failures(), ip);
    law_reported_over_the_threshold(past, old(tracker).length(), old(tracker).limit(), now@);
}

} // verus!
