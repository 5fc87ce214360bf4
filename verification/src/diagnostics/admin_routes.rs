//! What operators can ask for and do about bug reports.

use crate::calendar::UtcTime;
use crate::http;
use crate::http::Rejection;
use crate::ids::Uuid;
use vstd::prelude::*;

verus! {

/// Whether the request bears the operators' token, where there is one.
pub fn require_admin(header: Option<&str>, admin_token: Option<&str>) -> (r: Result<(), Rejection>)
    ensures
        match admin_token {
            None => r is Err && r->Err_0.says(503, "admin endpoints not configured"@),
            Some(expected) => if header is Some && http::bearer(header->0@) == Some(expected@) {
                r is Ok
            } else {
                r is Err && r->Err_0.says(401, "unauthorized"@)
            },
        },
{
    match admin_token {
        None => Err(Rejection::new(503, "admin endpoints not configured")),
        Some(expected) => if http::bears(header, expected) {
            Ok(())
        } else {
            Err(Rejection::new(401, "unauthorized"))
        },
    }
}

/// The state of the limits on bug reports.
#[derive(Debug)]
pub struct BugReportStats {
    pub banned_users: Vec<BannedUserEntry>,
    pub active_ip_counts: Vec<IpCount>,
    pub active_user_counts: Vec<UserCount>,
}

/// A user who may not report bugs.
#[derive(Debug)]
pub struct BannedUserEntry {
    pub user_id: Uuid,
    pub banned_at: UtcTime,
    pub reason: String,
}

/// The reports of an address.
#[derive(Debug)]
pub struct IpCount {
    pub ip: String,
    pub count: usize,
    pub at_limit: bool,
}

/// The reports of a user.
#[derive(Debug, Clone, Copy)]
pub struct UserCount {
    pub user_id: Uuid,
    pub count: usize,
    pub at_limit: bool,
}

/// That `order` lists the positions by falling count, equal counts in the order
/// in which they stand.
pub open spec fn ranks(counts: Seq<usize>, order: Seq<usize>) -> bool {
    &&& order.len() == counts.len()
    &&& order.no_duplicates()
    &&& forall|i: int| 0 <= i < order.len() ==> (#[trigger] order[i]) < counts.len()
    &&& forall|i: int, j: int|
        0 <= i < j < order.len() ==> counts[#[trigger] order[i] as int] > counts[#[trigger] order[j] as int]
            || (counts[order[i] as int] == counts[order[j] as int] && order[i] < order[j])
}

/// The positions by falling count; equal counts stay in their order.
pub fn rank(counts: &Vec<usize>) -> (order: Vec<usize>)
    ensures
        ranks(counts@, order@),
{
    let mut order: Vec<usize> = Vec::new();
    let mut k: usize = 0;
    while k < counts.len()
        invariant
            k <= counts@.len(),
            order@.len() == k,
            order@.no_duplicates(),
            forall|i: int| 0 <= i < k ==> (#[trigger] order@[i]) < k,
            forall|i: int, j: int|
                0 <= i < j < k ==> counts@[#[trigger] order@[i] as int] > counts@[#[trigger] order@[j] as int]
                    || (counts@[order@[i] as int] == counts@[order@[j] as int] && order@[i]
                    < order@[j]),
        decreases counts@.len() - k,
    {
        let mut pos: usize = k;
        while pos > 0 && counts[order[pos - 1]] < counts[k]
            invariant
                pos <= k,
                k < counts@.len(),
                order@.len() == k,
                forall|i: int| 0 <= i < k ==> (#[trigger] order@[i]) < k,
                forall|i: int| pos <= i < k ==> counts@[#[trigger] order@[i] as int] < counts@[k as int],
            decreases pos,
        {
            pos = pos - 1;
        }
        let ghost before = order@;
        order.insert(pos, k);
        proof {
            assert(order@ == before.insert(pos as int, k));
            assert forall|i: int, j: int| 0 <= i < j < k + 1 implies counts@[#[trigger] order@[i] as int]
                > counts@[#[trigger] order@[j] as int] || (counts@[order@[i] as int]
                == counts@[order@[j] as int] && order@[i] < order@[j]) by {
                if i < pos && pos > 0 {
                    assert(counts@[before[pos - 1] as int] >= counts@[k as int]);
                    assert(i < pos - 1 ==> counts@[before[i] as int] >= counts@[before[pos - 1] as int]);
                }
            }
            assert(order@.no_duplicates()) by {
                assert forall|i: int, j: int|
                    0 <= i < order@.len() && 0 <= j < order@.len() && i != j implies order@[i]
                    != order@[j] by {
                    let a = if i < j {
                        i
                    } else {
                        j
                    };
                    let b = if i < j {
                        j
                    } else {
                        i
                    };
                    if a < pos && b < pos {
                        assert(before[a] != before[b]);
                    } else if a < pos && b > pos {
                        assert(before[a] != before[b - 1]);
                    } else if a > pos {
                        assert(before[a - 1] != before[b - 1]);
                    }
                }
            }
        }
        k = k + 1;
    }
    order
}

/// The counts of a list of keys and counts.
pub open spec fn counts_of<K>(list: Seq<(K, usize)>) -> Seq<usize> {
    list.map_values(|e: (K, usize)| e.1)
}

/// That `shown` lists the addresses by falling count, and marks those at the
/// limit.
pub open spec fn shows_ips(
    list: Seq<(String, usize)>,
    limit: usize,
    order: Seq<usize>,
    shown: Seq<IpCount>,
) -> bool {
    &&& ranks(counts_of(list), order)
    &&& shown.len() == list.len()
    &&& forall|i: int|
        0 <= i < shown.len() ==> (#[trigger] shown[i]).ip@ == list[order[i] as int].0@
            && shown[i].count == list[order[i] as int].1 && shown[i].at_limit == (shown[i].count
            >= limit)
}

/// That `shown` lists the users by falling count, and marks those at the limit.
pub open spec fn shows_users(
    list: Seq<(Uuid, usize)>,
    limit: usize,
    order: Seq<usize>,
    shown: Seq<UserCount>,
) -> bool {
    &&& ranks(counts_of(list), order)
    &&& shown.len() == list.len()
    &&& forall|i: int|
        0 <= i < shown.len() ==> (#[trigger] shown[i]).user_id == list[order[i] as int].0
            && shown[i].count == list[order[i] as int].1 && shown[i].at_limit == (shown[i].count
            >= limit)
}

/// That `shown` lists the addresses as it should.
pub open spec fn ips_listed(list: Seq<(String, usize)>, limit: usize, shown: Seq<IpCount>) -> bool {
    exists|order: Seq<usize>| #[trigger] shows_ips(list, limit, order, shown)
}

/// That `shown` lists the users as it should.
pub open spec fn users_listed(
    list: Seq<(Uuid, usize)>,
    limit: usize,
    shown: Seq<UserCount>,
) -> bool {
    exists|order: Seq<usize>| #[trigger] shows_users(list, limit, order, shown)
}

fn list_counts<K>(list: &Vec<(K, usize)>) -> (counts: Vec<usize>)
    ensures
        counts@ == counts_of(list@),
{
    let mut counts: Vec<usize> = Vec::new();
    let mut i: usize = 0;
    while i < list.len()
        invariant
            i <= list@.len(),
            counts@ == counts_of(list@).take(i as int),
        decreases list@.len() - i,
    {
        counts.push(list[i].1);
        i = i + 1;
        assert(counts@ =~= counts_of(list@).take(i as int));
    }
    assert(counts@ =~= counts_of(list@));
    counts
}

/// The state of the limits on bug reports, from the counts of each address and
/// user, the limit, and the banned users as the database gives them.
pub fn get_bug_report_stats(
    ip_counts: &Vec<(String, usize)>,
    user_counts: &Vec<(Uuid, usize)>,
    limit: usize,
    banned_users: Option<Vec<BannedUserEntry>>,
) -> (r: Result<BugReportStats, Rejection>)
    ensures
        match banned_users {
            None => r is Err && r->Err_0.says(500, "database error"@),
            Some(banned) => {
                &&& r matches Ok(stats)
                &&& stats.banned_users == banned
                &&& ips_listed(ip_counts@, limit, stats.active_ip_counts@)
                &&& users_listed(user_counts@, limit, stats.active_user_counts@)
            },
        },
{
    let ip_order = rank(&list_counts(ip_counts));
    let mut ips: Vec<IpCount> = Vec::new();
    let mut i: usize = 0;
    while i < ip_order.len()
        invariant
            i <= ip_order@.len(),
            ips@.len() == i,
            ranks(counts_of(ip_counts@), ip_order@),
            forall|j: int|
                0 <= j < i ==> (#[trigger] ips@[j]).ip@ == ip_counts@[ip_order@[j] as int].0@
                    && ips@[j].count == ip_counts@[ip_order@[j] as int].1 && ips@[j].at_limit == (
                ips@[j].count >= limit),
        decreases ip_order@.len() - i,
    {
        assert(ip_order@[i as int] < counts_of(ip_counts@).len());
        let k: usize = ip_order[i];
        ips.push(
            IpCount {
                ip: ip_counts[k].0.clone(),
                count: ip_counts[k].1,
                at_limit: ip_counts[k].1 >= limit,
            },
        );
        i = i + 1;
    }
    assert(shows_ips(ip_counts@, limit, ip_order@, ips@));
    let user_order = rank(&list_counts(user_counts));
    let mut users: Vec<UserCount> = Vec::new();
    let mut i: usize = 0;
    while i < user_order.len()
        invariant
            i <= user_order@.len(),
            users@.len() == i,
            ranks(counts_of(user_counts@), user_order@),
            forall|j: int|
                0 <= j < i ==> (#[trigger] users@[j]).user_id == user_counts@[user_order@[j] as int].0
                    && users@[j].count == user_counts@[user_order@[j] as int].1
                    && users@[j].at_limit == (users@[j].count >= limit),
        decreases user_order@.len() - i,
    {
        assert(user_order@[i as int] < counts_of(user_counts@).len());
        let k: usize = user_order[i];
        users.push(
            UserCount {
                user_id: user_counts[k].0,
                count: user_counts[k].1,
                at_limit: user_counts[k].1 >= limit,
            },
        );
        i = i + 1;
    }
    assert(shows_users(user_counts@, limit, user_order@, users@));
    match banned_users {
        None => Err(Rejection::new(500, "database error")),
        Some(banned) => Ok(
            BugReportStats {
                banned_users: banned,
                active_ip_counts: ips,
                active_user_counts: users,
            },
        ),
    }
}

/// There is only one ranking, so the lists are determined by the counts.
pub proof fn law_ranking_is_unique(counts: Seq<usize>, a: Seq<usize>, b: Seq<usize>)
    requires
        ranks(counts, a),
        ranks(counts, b),
    ensures
        a == b,
{
    lemma_rank_covers(counts, a);
    lemma_rank_covers(counts, b);
    assert forall|i: int| 0 <= i < a.len() implies a[i] == b[i] by {
        lemma_rank_agrees(counts, a, b, i);
    }
    assert(a =~= b);
}

/// Whether position `x` comes before position `y`.
pub open spec fn outranks(counts: Seq<usize>, x: usize, y: usize) -> bool {
    counts[x as int] > counts[y as int] || (counts[x as int] == counts[y as int] && x < y)
}

proof fn lemma_rank_covers(counts: Seq<usize>, a: Seq<usize>)
    requires
        ranks(counts, a),
    ensures
        forall|x: usize| x < counts.len() ==> #[trigger] a.contains(x),
{
    let all = Seq::new(counts.len(), |i: int| i);
    let mine = a.map_values(|x: usize| x as int);
    assert(mine.no_duplicates()) by {
        assert forall|i: int, j: int|
            0 <= i < mine.len() && 0 <= j < mine.len() && i != j implies mine[i] != mine[j] by {
            assert(a[i] != a[j]);
        }
    }
    assert(all.no_duplicates());
    mine.unique_seq_to_set();
    all.unique_seq_to_set();
    assert(mine.to_set().subset_of(all.to_set())) by {
        assert forall|x: int| mine.to_set().contains(x) implies all.to_set().contains(x) by {
            let i = choose|i: int| 0 <= i < mine.len() && mine[i] == x;
            assert(a[i] < counts.len());
            assert(all[x] == x);
        }
    }
    vstd::set_lib::lemma_subset_equality(mine.to_set(), all.to_set());
    assert forall|x: usize| x < counts.len() implies #[trigger] a.contains(x) by {
        assert(all[x as int] == x as int);
        assert(mine.to_set().contains(x as int));
        let i = choose|i: int| 0 <= i < mine.len() && mine[i] == x as int;
        assert(a[i] == x);
    }
}

proof fn lemma_rank_agrees(counts: Seq<usize>, a: Seq<usize>, b: Seq<usize>, i: int)
    requires
        ranks(counts, a),
        ranks(counts, b),
        forall|x: usize| x < counts.len() ==> #[trigger] a.contains(x),
        forall|x: usize| x < counts.len() ==> #[trigger] b.contains(x),
        0 <= i < a.len(),
    ensures
        a[i] == b[i],
    decreases i,
{
    assert forall|j: int| 0 <= j < i implies a[j] == b[j] by {
        lemma_rank_agrees(counts, a, b, j);
    }
    assert(b.contains(a[i]));
    assert(a.contains(b[i]));
    let p = choose|p: int| 0 <= p < b.len() && b[p] == a[i];
    let q = choose|q: int| 0 <= q < a.len() && a[q] == b[i];
    if p < i {
        assert(a[p] == a[i]);
        assert(false);
    }
    if q < i {
        assert(b[q] == b[i]);
        assert(false);
    }
    if p > i && q > i {
        assert(outranks(counts, b[i], b[p]));
        assert(outranks(counts, a[i], a[q]));
        assert(false);
    }
}

/// A request to ban a user.
#[derive(Debug)]
pub struct BanRequest {
    pub reason: Option<String>,
}

/// The answer to a ban.
#[derive(Debug, Clone, Copy)]
pub struct BanResponse {
    pub user_id: Uuid,
    pub banned: bool,
}

/// The answer to the end of a ban.
#[derive(Debug, Clone, Copy)]
pub struct UnbanResponse {
    pub user_id: Uuid,
    pub banned: bool,
}

/// The reason to store with a ban; empty where none is given.
pub fn ban_reason(request: BanRequest) -> (reason: String)
    ensures
        reason@ == (match request.reason {
            Some(r) => r@,
            None => Seq::<char>::empty(),
        }),
{
    match request.reason {
        Some(r) => r,
        None => {
            let s = String::new();
            assert(s@ =~= Seq::<char>::empty());
            s
        },
    }
}

/// The answer to a ban, by whether it was stored.
pub fn ban_user(user_id: Uuid, stored: bool) -> (r: Result<BanResponse, Rejection>)
    ensures
        stored ==> r == Ok::<BanResponse, Rejection>((BanResponse { user_id, banned: true })),
        !stored ==> r is Err && r->Err_0.says(500, "database error"@),
{
    if stored {
        Ok(BanResponse { user_id, banned: true })
    } else {
        Err(Rejection::new(500, "database error"))
    }
}

/// The answer to the end of a ban, by whether it was stored.
pub fn unban_user(user_id: Uuid, stored: bool) -> (r: Result<UnbanResponse, Rejection>)
    ensures
        stored ==> r == Ok::<UnbanResponse, Rejection>((UnbanResponse { user_id, banned: false })),
        !stored ==> r is Err && r->Err_0.says(500, "database error"@),
{
    if stored {
        Ok(UnbanResponse { user_id, banned: false })
    } else {
        Err(Rejection::new(500, "database error"))
    }
}

/// An address that reported more comes before one that reported less, every
/// address shows once, and exactly those at the limit are marked.
pub proof fn law_the_most_active_come_first(
    ip_counts: &Vec<(String, usize)>,
    user_counts: &Vec<(Uuid, usize)>,
    limit: usize,
    banned: Vec<BannedUserEntry>,
    r: Result<BugReportStats, Rejection>,
    i: int,
    j: int,
    k: int,
)
    requires
        call_ensures(get_bug_report_stats, (ip_counts, user_counts, limit, Some(banned)), r),
        0 <= i < j < ip_counts@.len(),
        0 <= k < ip_counts@.len(),
    ensures
        r is Ok,
        r->Ok_0.banned_users@ == banned@,
        ({
            let shown = r->Ok_0.active_ip_counts@;
            &&& shown.len() == ip_counts@.len()
            &&& shown[i].count >= shown[j].count
            &&& shown[i].at_limit <==> shown[i].count >= limit
            &&& exists|p: int|
                0 <= p < shown.len() && (#[trigger] shown[p]).ip@ == ip_counts@[k].0@
                    && shown[p].count == ip_counts@[k].1
        }),
{
    let shown = r->Ok_0.active_ip_counts@;
    let order = choose|order: Seq<usize>| #[trigger] shows_ips(ip_counts@, limit, order, shown);
    let counts = counts_of(ip_counts@);
    assert(ip_counts@.len() == ip_counts.len());
    assert(counts[order[i] as int] >= counts[order[j] as int]);
    assert(order[i] < counts.len() && order[j] < counts.len());
    lemma_rank_covers(counts, order);
    assert(order.contains(k as usize));
    let p = choose|p: int| 0 <= p < order.len() && order[p] == k as usize;
    assert(shown[p].ip@ == ip_counts@[k].0@);
}

/// The same of the users.
pub proof fn law_the_most_active_users_come_first(
    ip_counts: &Vec<(String, usize)>,
    user_counts: &Vec<(Uuid, usize)>,
    limit: usize,
    banned: Vec<BannedUserEntry>,
    r: Result<BugReportStats, Rejection>,
    i: int,
    j: int,
    k: int,
)
    requires
        call_ensures(get_bug_report_stats, (ip_counts, user_counts, limit, Some(banned)), r),
        0 <= i < j < user_counts@.len(),
        0 <= k < user_counts@.len(),
    ensures
        r is Ok,
        ({
            let shown = r->Ok_0.active_user_counts@;
            &&& shown.len() == user_counts@.len()
            &&& shown[i].count >= shown[j].count
            &&& shown[i].at_limit <==> shown[i].count >= limit
            &&& exists|p: int|
                0 <= p < shown.len() && (#[trigger] shown[p]).user_id == user_counts@[k].0
                    && shown[p].count == user_counts@[k].1
        }),
{
    let shown = r->Ok_0.active_user_counts@;
    let order = choose|order: Seq<usize>| #[trigger]
        shows_users(user_counts@, limit, order, shown);
    let counts = counts_of(user_counts@);
    assert(user_counts@.len() == user_counts.len());
    assert(counts[order[i] as int] >= counts[order[j] as int]);
    assert(order[i] < counts.len() && order[j] < counts.len());
    lemma_rank_covers(counts, order);
    assert(order.contains(k as usize));
    let p = choose|p: int| 0 <= p < order.len() && order[p] == k as usize;
    assert(shown[p].user_id == user_counts@[k].0);
}

/// Bans are told as they were stored, under the user they are of; the reason is the
/// one that was given.
pub proof fn law_bans_are_told_as_stored(
    user_id: Uuid,
    stored: bool,
    banned: Result<BanResponse, Rejection>,
    unbanned: Result<UnbanResponse, Rejection>,
    request: BanRequest,
    reason: String,
)
    requires
        call_ensures(ban_user, (user_id, stored), banned),
        call_ensures(unban_user, (user_id, stored), unbanned),
        call_ensures(ban_reason, (request,), reason),
    ensures
        banned is Ok <==> stored,
        banned is Ok ==> banned->Ok_0.user_id == user_id && banned->Ok_0.banned,
        unbanned is Ok <==> stored,
        unbanned is Ok ==> unbanned->Ok_0.user_id == user_id && !unbanned->Ok_0.banned,
        request.reason is Some ==> reason@ == request.reason->0@,
        request.reason is None ==> reason@.len() == 0,
{
}

/// Operators are let in exactly where a token is configured and the request bears
/// it.
pub proof fn law_only_operators_are_let_in(
    header: Option<&str>,
    admin_token: Option<&str>,
    r: Result<(), Rejection>,
    bears: bool,
)
    requires
        call_ensures(require_admin, (header, admin_token), r),
        admin_token is Some ==> call_ensures(http::bears, (header, admin_token->0), bears),
    ensures
        r is Ok <==> admin_token is Some && bears,
        admin_token is None ==> r->Err_0.status == 503,
        admin_token is Some && !bears ==> r->Err_0.status == 401,
{
}

} // verus!
