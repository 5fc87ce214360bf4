//! Tickets that open one socket each.

use crate::crypto;
use crate::ids::Uuid;
use crate::table;
use crate::table::Table;
use crate::table::TableKey;
use crate::text;
use crate::time;
use crate::time::Duration;
use crate::time::Instant;
use vstd::prelude::*;

verus! {

/// How long a ticket is good.
pub const TICKET_TTL_SECS: u64 = 60;

/// Why a ticket was not accepted.
#[derive(Debug, Clone, Copy, PartialEq, Eq, Structural)]
pub enum WsTicketError {
    NotFound,
    Expired,
    AlreadyConsumed,
}

impl WsTicketError {
    /// The error in words.
    pub fn message(&self) -> (s: &'static str)
        ensures
            s@ == (match *self {
                WsTicketError::NotFound => "ticket not found"@,
                WsTicketError::Expired => "ticket expired"@,
                WsTicketError::AlreadyConsumed => "ticket already consumed"@,
            }),
    {
        match self {
            WsTicketError::NotFound => "ticket not found",
            WsTicketError::Expired => "ticket expired",
            WsTicketError::AlreadyConsumed => "ticket already consumed",
        }
    }
}

struct TicketRecord {
    user_id: Uuid,
    device_id: Uuid,
    expires_at: Instant,
    consumed: bool,
}

/// What is known of a ticket.
pub struct TicketView {
    pub user_id: Uuid,
    pub device_id: Uuid,
    pub expires_at: nat,
    pub consumed: bool,
}

impl View for TicketRecord {
    type V = TicketView;

    closed spec fn view(&self) -> TicketView {
        TicketView {
            user_id: self.user_id,
            device_id: self.device_id,
            expires_at: self.expires_at@,
            consumed: self.consumed,
        }
    }
}

/// The hash under which a ticket is kept.
pub open spec fn ticket_hash(raw_ticket: Seq<char>, pepper: Seq<u8>) -> Seq<u8> {
    crypto::hmac_sha256(pepper, text::utf8(raw_ticket))
}

/// The hash under which a ticket is kept.
pub fn hash_ticket(raw_ticket: &str, pepper: &[u8]) -> (hash: Vec<u8>)
    ensures
        hash@ == ticket_hash(raw_ticket@, pepper@),
{
    crypto::hmac_tag(pepper, raw_ticket.as_bytes())
}

/// A fresh ticket: 32 random bytes in URL-safe base64.
pub fn generate_ticket() -> (ticket: String)
    ensures
        exists|bytes: Seq<u8>| bytes.len() == 32 && ticket@ == #[trigger] crypto::base64_url(bytes),
        ticket@.len() == 43,
{
    let bytes = crypto::random_bytes(32);
    proof {
        crypto::lemma_base64_url(bytes@);
    }
    crypto::base64_url_encode(bytes.as_slice())
}

/// The tickets that were issued.
pub struct WsTicketStore {
    tickets: Table<Vec<u8>, TicketRecord>,
    pepper: Vec<u8>,
    ttl: Duration,
}

/// What a ticket gives, where its hash is known.
pub open spec fn redemption(tickets: Map<Seq<u8>, TicketView>, hash: Seq<u8>, now: nat) -> Result<
    (Uuid, Uuid),
    WsTicketError,
> {
    if !tickets.contains_key(hash) {
        Err(WsTicketError::NotFound)
    } else if tickets[hash].consumed {
        Err(WsTicketError::AlreadyConsumed)
    } else if tickets[hash].expires_at <= now {
        Err(WsTicketError::Expired)
    } else {
        Ok((tickets[hash].user_id, tickets[hash].device_id))
    }
}

/// The tickets after one was presented.
pub open spec fn redeemed(tickets: Map<Seq<u8>, TicketView>, hash: Seq<u8>, now: nat) -> Map<
    Seq<u8>,
    TicketView,
> {
    if redemption(tickets, hash, now) is Ok {
        tickets.insert(hash, TicketView { consumed: true, ..tickets[hash] })
    } else {
        tickets
    }
}

/// The tickets after one was issued.
pub open spec fn with_ticket(
    tickets: Map<Seq<u8>, TicketView>,
    hash: Seq<u8>,
    user_id: Uuid,
    device_id: Uuid,
    expires_at: nat,
) -> Map<Seq<u8>, TicketView> {
    tickets.insert(hash, TicketView { user_id, device_id, expires_at, consumed: false })
}

/// The tickets that can still be used.
pub open spec fn usable(tickets: Map<Seq<u8>, TicketView>, now: nat) -> Map<Seq<u8>, TicketView> {
    table::kept(tickets, |t: TicketView| !t.consumed && t.expires_at > now)
}

impl WsTicketStore {
    /// What holds of every store.
    pub closed spec fn wf(&self) -> bool {
        self.tickets.wf()
    }

    /// The tickets, by their hash.
    pub closed spec fn tickets(&self) -> Map<Seq<u8>, TicketView> {
        self.tickets@.map_values(|r: TicketRecord| r@)
    }

    /// The secret that goes into the hashes.
    pub closed spec fn secret(&self) -> Seq<u8> {
        self.pepper@
    }

    /// How long a ticket is good.
    pub closed spec fn lifetime(&self) -> nat {
        self.ttl@
    }

    /// An empty store.
    pub fn new(pepper: Vec<u8>) -> (s: WsTicketStore)
        ensures
            s.wf(),
            s.tickets() == Map::<Seq<u8>, TicketView>::empty(),
            s.secret() == pepper@,
            s.lifetime() == TICKET_TTL_SECS * time::NANOS_PER_SEC,
    {
        let s = WsTicketStore {
            tickets: Table::new(),
            pepper,
            ttl: Duration::from_secs(TICKET_TTL_SECS),
        };
        assert(s.tickets() =~= Map::<Seq<u8>, TicketView>::empty());
        s
    }

    /// Issues a ticket for a device of a user.
    pub fn issue(&mut self, user_id: Uuid, device_id: Uuid, now: Instant) -> (raw: String)
        requires
            old(self).wf(),
            now@ + old(self).lifetime() <= time::MAX_NANOS,
        ensures
            final(self).wf(),
            final(self).secret() == old(self).secret(),
            final(self).lifetime() == old(self).lifetime(),
            final(self).tickets() == with_ticket(
                old(self).tickets(),
                ticket_hash(raw@, old(self).secret()),
                user_id,
                device_id,
                now@ + old(self).lifetime(),
            ),
            raw@.len() == 43,
    {
        let raw = generate_ticket();
        let hash = hash_ticket(raw.as_str(), self.pepper.as_slice());
        let ghost id = hash@;
        let record = TicketRecord {
            user_id,
            device_id,
            expires_at: now.plus(self.ttl),
            consumed: false,
        };
        self.tickets.insert(hash, record);
        assert(self.tickets() =~= with_ticket(
            old(self).tickets(),
            id,
            user_id,
            device_id,
            now@ + old(self).lifetime(),
        ));
        raw
    }

    /// Accepts a ticket that is known, unused and unexpired, and marks it used.
    pub fn validate_and_consume(&mut self, raw_ticket: &str, now: Instant) -> (r: Result<
        (Uuid, Uuid),
        WsTicketError,
    >)
        requires
            old(self).wf(),
        ensures
            final(self).wf(),
            final(self).secret() == old(self).secret(),
            final(self).lifetime() == old(self).lifetime(),
            r == redemption(
                old(self).tickets(),
                ticket_hash(raw_ticket@, old(self).secret()),
                now@,
            ),
            final(self).tickets() == redeemed(
                old(self).tickets(),
                ticket_hash(raw_ticket@, old(self).secret()),
                now@,
            ),
    {
        let hash = hash_ticket(raw_ticket, self.pepper.as_slice());
        match self.tickets.get(&hash) {
            None => {
                return Err(WsTicketError::NotFound);
            },
            Some(record) => {
                if record.consumed {
                    return Err(WsTicketError::AlreadyConsumed);
                }
                if !now.before(record.expires_at) {
                    return Err(WsTicketError::Expired);
                }
            },
        }
        let record = self.tickets.at_mut(&hash);
        record.consumed = true;
        let found = (record.user_id, record.device_id);
        assert(self.tickets() =~= redeemed(old(self).tickets(), hash@, now@));
        Ok(found)
    }

    /// Drops the tickets that can no longer be used, and says how many.
    pub fn prune_expired(&mut self, now: Instant) -> (n: usize)
        requires
            old(self).wf(),
        ensures
            final(self).wf(),
            final(self).secret() == old(self).secret(),
            final(self).lifetime() == old(self).lifetime(),
            final(self).tickets() == usable(old(self).tickets(), now@),
            n == old(self).tickets().len() - final(self).tickets().len(),
    {
        let keep = |r: &TicketRecord| -> (b: bool)
            ensures
                b == (!r@.consumed && r@.expires_at > now@),
            { !r.consumed && now.before(r.expires_at) };
        let n: usize = self.tickets.retain(
            keep,
            Ghost(|r: TicketRecord| !r@.consumed && r@.expires_at > now@),
        );
        proof {
            assert(self.tickets() =~= usable(old(self).tickets(), now@));
            assert(old(self).tickets().dom() =~= old(self).tickets@.dom());
            assert(self.tickets().dom() =~= self.tickets@.dom());
        }
        n
    }
}

/// A ticket that was issued is good until it expires, for the user and the
/// device that it was issued for.
pub proof fn law_issued_ticket_is_good_until_it_expires(
    tickets: Map<Seq<u8>, TicketView>,
    hash: Seq<u8>,
    user_id: Uuid,
    device_id: Uuid,
    expires_at: nat,
    now: nat,
)
    ensures
        redemption(with_ticket(tickets, hash, user_id, device_id, expires_at), hash, now) == (if now
            < expires_at {
            Ok::<(Uuid, Uuid), WsTicketError>((user_id, device_id))
        } else {
            Err(WsTicketError::Expired)
        }),
{
}

/// No ticket is accepted twice, however often others are presented and unusable
/// ones dropped in between.
pub proof fn law_ticket_is_used_once(
    tickets: Map<Seq<u8>, TicketView>,
    hash: Seq<u8>,
    now: nat,
    other: Seq<u8>,
    between: nat,
    later: nat,
)
    requires
        redemption(tickets, hash, now) is Ok,
    ensures
        redemption(redeemed(tickets, hash, now), hash, later) == Err::<(Uuid, Uuid), WsTicketError>(
            WsTicketError::AlreadyConsumed,
        ),
        redemption(redeemed(redeemed(tickets, hash, now), other, between), hash, later) == Err::<
            (Uuid, Uuid),
            WsTicketError,
        >(WsTicketError::AlreadyConsumed),
        redemption(usable(redeemed(tickets, hash, now), between), hash, later) == Err::<
            (Uuid, Uuid),
            WsTicketError,
        >(WsTicketError::NotFound),
{
}

/// What happens to one ticket is not seen by another.
pub proof fn law_tickets_are_independent(
    tickets: Map<Seq<u8>, TicketView>,
    hash: Seq<u8>,
    other: Seq<u8>,
    now: nat,
    later: nat,
)
    requires
        hash != other,
    ensures
        redemption(redeemed(tickets, hash, now), other, later) == redemption(
            tickets,
            other,
            later,
        ),
{
}

/// Dropping unusable tickets turns no refusal into an acceptance, nor the other
/// way round.
pub proof fn law_pruning_changes_no_acceptance(
    tickets: Map<Seq<u8>, TicketView>,
    hash: Seq<u8>,
    now: nat,
    later: nat,
)
    requires
        now <= later,
    ensures
        redemption(usable(tickets, now), hash, later) is Ok <==> redemption(tickets, hash, later)
            is Ok,
{
}

/// A ticket from its issue to its use. In a new store it is good for sixty
/// seconds, for the user and the device that it was issued for; it is accepted
/// once, and told apart from one that expired or was never issued.
pub proof fn law_ticket_from_issue_to_use(
    made: WsTicketStore,
    pepper: Vec<u8>,
    issuing: &mut WsTicketStore,
    using: &mut WsTicketStore,
    reusing: &mut WsTicketStore,
    user_id: Uuid,
    device_id: Uuid,
    now: Instant,
    raw: String,
    shown: &str,
    at: Instant,
    first: Result<(Uuid, Uuid), WsTicketError>,
    later: Instant,
    second: Result<(Uuid, Uuid), WsTicketError>,
)
    requires
        call_ensures(WsTicketStore::new, (pepper,), made),
        old(issuing).secret() == made.secret(),
        old(issuing).lifetime() == made.lifetime(),
        call_ensures(WsTicketStore::issue, (issuing, user_id, device_id, now), raw),
        *old(using) == *final(issuing),
        shown@ == raw@,
        call_ensures(WsTicketStore::validate_and_consume, (using, shown, at), first),
        *old(reusing) == *final(using),
        call_ensures(WsTicketStore::validate_and_consume, (reusing, shown, later), second),
    ensures
        made.lifetime() == 60 * 1_000_000_000,
        made.tickets().dom().is_empty(),
        made.secret() == pepper@,
        first == if at@ < now@ + 60 * 1_000_000_000 {
            Ok::<(Uuid, Uuid), WsTicketError>((user_id, device_id))
        } else {
            Err(WsTicketError::Expired)
        },
        first is Ok ==> second == Err::<(Uuid, Uuid), WsTicketError>(
            WsTicketError::AlreadyConsumed,
        ),
        first is Err && at@ <= later@ ==> second == Err::<(Uuid, Uuid), WsTicketError>(
            WsTicketError::Expired,
        ),
        !old(issuing).tickets().contains_key(
            crypto::hmac_sha256(old(issuing).secret(), text::utf8(raw@)),
        ) ==> final(issuing).tickets().dom() == old(issuing).tickets().dom().insert(
            crypto::hmac_sha256(pepper@, text::utf8(raw@)),
        ),
{
}

/// A text under whose hash nothing is stored is not found, and a refused ticket
/// changes nothing. Dropping what cannot be used leaves every usable ticket as it
/// was, and none that is used or expired.
pub proof fn law_unknown_tickets_and_pruning(
    store: &mut WsTicketStore,
    pruning: &mut WsTicketStore,
    shown: &str,
    now: Instant,
    r: Result<(Uuid, Uuid), WsTicketError>,
    n: usize,
    hash: Seq<u8>,
)
    requires
        call_ensures(WsTicketStore::validate_and_consume, (store, shown, now), r),
        call_ensures(WsTicketStore::prune_expired, (pruning, now), n),
    ensures
        r == Err::<(Uuid, Uuid), WsTicketError>(WsTicketError::NotFound) <==> !old(
            store,
        ).tickets().contains_key(crypto::hmac_sha256(old(store).secret(), text::utf8(shown@))),
        r is Err ==> final(store).tickets() == old(store).tickets(),
        final(pruning).tickets().contains_key(hash) <==> old(pruning).tickets().contains_key(hash)
            && !old(pruning).tickets()[hash].consumed && old(pruning).tickets()[hash].expires_at
            > now@,
        final(pruning).tickets().contains_key(hash) ==> final(pruning).tickets()[hash] == old(
            pruning,
        ).tickets()[hash],
        n + final(pruning).tickets().len() == old(pruning).tickets().len(),
{
}

/// Each error is told in its own words.
pub proof fn law_messages_say_what_is_wrong(e: &WsTicketError, s: &'static str)
    requires
        call_ensures(WsTicketError::message, (e,), s),
    ensures
        *e is NotFound ==> s@ == "ticket not found"@,
        *e is Expired ==> s@ == "ticket expired"@,
        *e is AlreadyConsumed ==> s@ == "ticket already consumed"@,
{
}

/// A ticket is kept as its HMAC under the pepper.
pub proof fn law_tickets_are_kept_hashed(raw: &str, pepper: &[u8], hash: Vec<u8>)
    requires
        call_ensures(hash_ticket, (raw, pepper), hash),
    ensures
        hash@ == crypto::hmac_sha256(pepper@, text::utf8(raw@)),
{
}

} // verus!
