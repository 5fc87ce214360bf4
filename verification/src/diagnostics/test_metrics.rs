//! What test harnesses see of the service.

use crate::abuse::abuse_metrics::AbuseMetricsSnapshot;
use crate::auth::auth_rate_limiter::AuthRateLimiter;
use crate::auth::recovery_rate_limiter::RecoveryRateLimiter;
use crate::channel::channel_rate_limiter::ChannelRateLimiter;
use crate::http;
use crate::ids::Uuid;
use crate::net::IpAddr;
use vstd::prelude::*;

verus! {

/// A room as it stands.
#[derive(Debug)]
pub struct RoomSnapshot {
    pub peer_ids: Vec<String>,
    pub participant_count: usize,
    pub room_type: String,
    pub active_shares: Vec<String>,
}

/// The rooms, the counters, and the totals.
#[derive(Debug)]
pub struct TestMetricsResponse {
    pub rooms: Vec<(String, RoomSnapshot)>,
    pub abuse_metrics: AbuseMetricsSnapshot,
    pub total_rooms: usize,
    pub total_participants: usize,
    pub sfu_available: bool,
}

/// What is known of a room: its peers, and its type and the streams shared in
/// it where it is still there.
#[derive(Debug)]
pub struct RoomReport {
    pub room_id: String,
    pub peers: Vec<String>,
    pub info: Option<(String, Vec<String>)>,
}

/// Whether the request bears the token.
pub open spec fn authorized(header: Option<&str>, token: Seq<char>) -> bool {
    header is Some && http::bearer(header->0@) == Some(token)
}

/// That `shown` is how a room is shown.
pub open spec fn shows(report: RoomReport, shown: (String, RoomSnapshot)) -> bool {
    &&& shown.0 == report.room_id
    &&& shown.1.peer_ids == report.peers
    &&& shown.1.participant_count == report.peers@.len()
    &&& shown.1.room_type@ == (match report.info {
        Some((room_type, _)) => room_type@,
        None => Seq::<char>::empty(),
    })
    &&& match report.info {
        Some((_, shares)) => shown.1.active_shares == shares,
        None => shown.1.active_shares@.len() == 0,
    }
}

/// The number of peers in all rooms.
pub open spec fn participants(reports: Seq<RoomReport>) -> nat
    decreases reports.len(),
{
    if reports.len() == 0 {
        0
    } else {
        participants(reports.drop_last()) + reports.last().peers@.len()
    }
}

proof fn lemma_participants_grow(reports: Seq<RoomReport>, n: int)
    requires
        0 <= n <= reports.len(),
    ensures
        participants(reports.take(n)) <= participants(reports),
    decreases reports.len(),
{
    if n == reports.len() {
        assert(reports.take(n) =~= reports);
    } else {
        assert(reports.drop_last().take(n) =~= reports.take(n));
        lemma_participants_grow(reports.drop_last(), n);
    }
}

/// The rooms, the counters and the totals, for a request that bears the token;
/// status 401 for any other.
pub fn test_metrics_handler(
    header: Option<&str>,
    token: &str,
    reports: Vec<RoomReport>,
    abuse_metrics: AbuseMetricsSnapshot,
    sfu_available: bool,
) -> (r: Result<TestMetricsResponse, u16>)
    requires
        participants(reports@) <= usize::MAX,
    ensures
        match r {
            Err(status) => !authorized(header, token@) && status == 401,
            Ok(m) => {
                &&& authorized(header, token@)
                &&& m.rooms@.len() == reports@.len()
                &&& forall|i: int|
                    0 <= i < reports@.len() ==> shows(reports@[i], #[trigger] m.rooms@[i])
                &&& m.abuse_metrics == abuse_metrics
                &&& m.total_rooms == reports@.len()
                &&& m.total_participants == participants(reports@)
                &&& m.sfu_available == sfu_available
            },
        },
{
    if !http::bears(header, token) {
        return Err(401);
    }
    let ghost all = reports@;
    let mut rest = reports;
    let mut shown: Vec<(String, RoomSnapshot)> = Vec::new();
    let mut total: usize = 0;
    let n: usize = rest.len();
    let mut i: usize = 0;
    while i < n
        invariant
            i <= n,
            n == all.len(),
            rest@ == all.skip(i as int),
            shown@.len() == i,
            participants(all) <= usize::MAX,
            total == participants(all.take(i as int)),
            forall|j: int| 0 <= j < i ==> shows(all[j], #[trigger] shown@[j]),
        decreases n - i,
    {
        let report = rest.remove(0);
        proof {
            assert(report == all[i as int]);
            assert(rest@ =~= all.skip(i as int + 1));
            assert(all.take(i as int + 1).drop_last() =~= all.take(i as int));
            lemma_participants_grow(all, i as int + 1);
        }
        total = total + report.peers.len();
        let (room_type, active_shares) = match report.info {
            Some((room_type, shares)) => (room_type, shares),
            None => (String::new(), Vec::new()),
        };
        assert(report.info is None ==> room_type@ =~= Seq::<char>::empty());
        let participant_count: usize = report.peers.len();
        shown.push(
            (
                report.room_id,
                RoomSnapshot {
                    peer_ids: report.peers,
                    participant_count,
                    room_type,
                    active_shares,
                },
            ),
        );
        i = i + 1;
    }
    assert(all.take(n as int) =~= all);
    Ok(
        TestMetricsResponse {
            rooms: shown,
            abuse_metrics,
            total_rooms: n,
            total_participants: total,
            sfu_available,
        },
    )
}

/// Forgets what the limiters of accounts, channels and recoveries have seen,
/// for a request that bears the token; status 401 for any other.
pub fn reset_rate_limits_handler(
    header: Option<&str>,
    token: &str,
    auth_rate_limiter: &mut AuthRateLimiter,
    channel_rate_limiter: &mut ChannelRateLimiter,
    recovery_rate_limiter: &mut RecoveryRateLimiter,
) -> (r: Result<u16, u16>)
    requires
        old(auth_rate_limiter).wf(),
        old(channel_rate_limiter).wf(),
        old(recovery_rate_limiter).wf(),
    ensures
        final(auth_rate_limiter).wf(),
        final(channel_rate_limiter).wf(),
        final(recovery_rate_limiter).wf(),
        r == (if authorized(header, token@) {
            Ok::<u16, u16>(204)
        } else {
            Err(401)
        }),
        authorized(header, token@) ==> {
            &&& final(auth_rate_limiter).registers() == Map::<IpAddr, Seq<nat>>::empty()
            &&& final(auth_rate_limiter).refreshes() == Map::<IpAddr, Seq<nat>>::empty()
            &&& final(channel_rate_limiter).logs() == Map::<Uuid, Seq<nat>>::empty()
            &&& final(recovery_rate_limiter).by_ip() == Map::<IpAddr, Seq<nat>>::empty()
            &&& final(recovery_rate_limiter).by_recovery_id() == Map::<
                Seq<char>,
                Seq<nat>,
            >::empty()
        },
        !authorized(header, token@) ==> {
            &&& *final(auth_rate_limiter) == *old(auth_rate_limiter)
            &&& *final(channel_rate_limiter) == *old(channel_rate_limiter)
            &&& *final(recovery_rate_limiter) == *old(recovery_rate_limiter)
        },
        final(auth_rate_limiter).limits() == old(auth_rate_limiter).limits(),
        final(channel_rate_limiter).limits() == old(channel_rate_limiter).limits(),
        final(recovery_rate_limiter).limits() == old(recovery_rate_limiter).limits(),
{
    if !http::bears(header, token) {
        return Err(401);
    }
    auth_rate_limiter.clear();
    channel_rate_limiter.clear();
    recovery_rate_limiter.clear();
    Ok(204)
}

/// The metrics are shown to whoever bears the token, and to nobody else. Every room
/// shows once, under its own id and with its own peers; the totals are theirs.
pub proof fn law_metrics_show_every_room(
    header: Option<&str>,
    token: &str,
    bears: bool,
    reports: Vec<RoomReport>,
    abuse_metrics: AbuseMetricsSnapshot,
    sfu_available: bool,
    r: Result<TestMetricsResponse, u16>,
    i: int,
)
    requires
        call_ensures(http::bears, (header, token), bears),
        call_ensures(
            test_metrics_handler,
            (header, token, reports, abuse_metrics, sfu_available),
            r,
        ),
        0 <= i < reports@.len(),
    ensures
        r is Ok <==> bears,
        r is Err ==> r->Err_0 == 401,
        r is Ok ==> {
            let m = r->Ok_0;
            &&& m.total_rooms == reports@.len()
            &&& m.rooms@.len() == reports@.len()
            &&& m.sfu_available == sfu_available
            &&& m.abuse_metrics == abuse_metrics
            &&& m.rooms@[i].0@ == reports@[i].room_id@
            &&& m.rooms@[i].1.peer_ids@ == reports@[i].peers@
            &&& m.rooms@[i].1.participant_count == reports@[i].peers@.len()
            &&& reports@[i].info is Some ==> m.rooms@[i].1.room_type@ == (reports@[i].info->0).0@
                && m.rooms@[i].1.active_shares@ == (reports@[i].info->0).1@
            &&& reports@[i].info is None ==> m.rooms@[i].1.room_type@.len() == 0
                && m.rooms@[i].1.active_shares@.len() == 0
        },
{
    if r is Ok {
        assert(shows(reports@[i], r->Ok_0.rooms@[i]));
    }
}

/// One more room adds one to the rooms and its peers to the participants.
pub proof fn law_totals_add_up(
    header: Option<&str>,
    token: &str,
    before: Vec<RoomReport>,
    after: Vec<RoomReport>,
    report: RoomReport,
    abuse_metrics: AbuseMetricsSnapshot,
    sfu_available: bool,
    r: Result<TestMetricsResponse, u16>,
    s: Result<TestMetricsResponse, u16>,
)
    requires
        call_ensures(test_metrics_handler, (header, token, before, abuse_metrics, sfu_available), r),
        call_ensures(test_metrics_handler, (header, token, after, abuse_metrics, sfu_available), s),
        after@ == before@.push(report),
        r is Ok,
    ensures
        s is Ok,
        s->Ok_0.total_rooms == r->Ok_0.total_rooms + 1,
        s->Ok_0.total_participants == r->Ok_0.total_participants + report.peers@.len(),
        before@.len() == 0 ==> r->Ok_0.total_participants == 0,
{
    assert(after@.drop_last() =~= before@);
}

/// Whoever bears the token resets the limiters, so that no request is on record;
/// for anybody else nothing changes.
pub proof fn law_resets_forget_everything(
    header: Option<&str>,
    token: &str,
    bears: bool,
    auth: &mut AuthRateLimiter,
    channel: &mut ChannelRateLimiter,
    recovery: &mut RecoveryRateLimiter,
    r: Result<u16, u16>,
    ip: IpAddr,
    user: Uuid,
    recovery_id: Seq<char>,
)
    requires
        call_ensures(http::bears, (header, token), bears),
        call_ensures(reset_rate_limits_handler, (header, token, auth, channel, recovery), r),
    ensures
        r is Ok <==> bears,
        r is Ok ==> r->Ok_0 == 204,
        r is Err ==> r->Err_0 == 401,
        r is Ok ==> {
            &&& !final(auth).registers().contains_key(ip)
            &&& !final(auth).refreshes().contains_key(ip)
            &&& !final(channel).logs().contains_key(user)
            &&& !final(recovery).by_ip().contains_key(ip)
            &&& !final(recovery).by_recovery_id().contains_key(recovery_id)
        },
        r is Err ==> *final(auth) == *old(auth) && *final(channel) == *old(channel)
            && *final(recovery) == *old(recovery),
{
}

} // verus!
