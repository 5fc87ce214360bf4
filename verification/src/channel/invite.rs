//! The invite codes that let participants into rooms.

use crate::channel::channel;
use crate::crypto;
use crate::signaling::JoinRejectionReason;
use crate::signaling::ParticipantRole;
use crate::table;
use crate::table::Table;
use crate::text;
use crate::time;
use crate::time::Duration;
use crate::time::Instant;
use vstd::prelude::*;

verus! {

/// An invite code and what it is good for.
#[derive(Debug)]
pub struct InviteRecord {
    /// The code: 128 random bits as URL-safe base64.
    pub code: String,
    /// Room that the code lets into.
    pub room_id: String,
    /// Peer that issued the code.
    pub issuer_id: String,
    pub issued_at: Instant,
    /// From this instant on the code is expired.
    pub expires_at: Instant,
    /// Joins that the code is still good for.
    pub remaining_uses: u32,
    /// A revoked code is good for nothing, for ever.
    pub revoked: bool,
}

/// Configuration of the invite store.
#[derive(Debug, Clone, Copy)]
pub struct InviteStoreConfig {
    /// How long a code is good.
    pub default_ttl: Duration,
    /// Uses of a code, where the issuer does not say.
    pub default_max_uses: u32,
    /// Most active invites of a room.
    pub max_invites_per_room: usize,
    /// Most invites in all.
    pub max_invites_global: usize,
    /// How often expired invites are swept out.
    pub sweep_interval: Duration,
}

impl Default for InviteStoreConfig {
    fn default() -> (c: InviteStoreConfig)
        ensures
            c.default_ttl@ == 86_400 * time::NANOS_PER_SEC,
            c.default_max_uses == 6,
            c.max_invites_per_room == 20,
            c.max_invites_global == 1000,
            c.sweep_interval@ == 60 * time::NANOS_PER_SEC,
    {
        InviteStoreConfig {
            default_ttl: Duration::from_secs(86_400),
            default_max_uses: 6,
            max_invites_per_room: 20,
            max_invites_global: 1000,
            sweep_interval: Duration::from_secs(60),
        }
    }
}

/// Errors of the invite store.
#[derive(Debug)]
pub enum InviteError {
    /// The room has as many invites as it may have.
    RoomLimitReached { room_id: String, limit: usize },
    /// The store holds as many invites as it may hold.
    GlobalLimitReached { limit: usize },
    /// There is no such code.
    NotFound,
}

impl InviteError {
    /// The message of this error.
    pub open spec fn message_spec(&self) -> Seq<char> {
        match self {
            InviteError::RoomLimitReached { room_id, limit } => "per-room invite limit ("@
                + text::decimal(*limit as nat) + ") reached for room "@ + room_id@,
            InviteError::GlobalLimitReached { limit } => "global invite limit ("@ + text::decimal(
                *limit as nat,
            ) + ") reached"@,
            InviteError::NotFound => "invite code not found"@,
        }
    }

    /// The message of this error.
    pub fn message(&self) -> (s: String)
        ensures
            s@ == self.message_spec(),
    {
        match self {
            InviteError::RoomLimitReached { room_id, limit } => {
                let mut s = "per-room invite limit (".to_owned();
                text::push_decimal(&mut s, *limit as u64);
                s.append(") reached for room ");
                s.append(room_id.as_str());
                s
            },
            InviteError::GlobalLimitReached { limit } => {
                let mut s = "global invite limit (".to_owned();
                text::push_decimal(&mut s, *limit as u64);
                s.append(") reached");
                s
            },
            InviteError::NotFound => "invite code not found".to_owned(),
        }
    }
}

/// Errors of revoking an invite on someone's behalf.
#[derive(Debug, Clone, Copy, PartialEq, Eq, Structural)]
pub enum InviteRevokeError {
    /// There is no such code.
    NotFound,
    /// The code is for another room, or who asks is not the host.
    Unauthorized,
}

/// The invites by code, and the number of active invites of each room: those
/// that are not revoked and not swept out.
pub struct InviteStore {
    invites: Table<String, InviteRecord>,
    room_invite_counts: Table<String, usize>,
    config: InviteStoreConfig,
}

/// What a join with an invite, or with none, is answered.
pub open spec fn verdict(
    record: Option<InviteRecord>,
    room_id: Seq<char>,
    now: Instant,
) -> Result<(), JoinRejectionReason> {
    match record {
        None => Err(JoinRejectionReason::InviteInvalid),
        Some(r) => if r.revoked {
            Err(JoinRejectionReason::InviteRevoked)
        } else if now@ >= r.expires_at@ {
            Err(JoinRejectionReason::InviteExpired)
        } else if r.room_id@ != room_id {
            Err(JoinRejectionReason::InviteInvalid)
        } else if r.remaining_uses == 0 {
            Err(JoinRejectionReason::InviteExhausted)
        } else {
            Ok(())
        },
    }
}

/// The record of a code.
pub open spec fn lookup(
    records: Map<Seq<char>, InviteRecord>,
    code: Seq<char>,
) -> Option<InviteRecord> {
    if records.contains_key(code) {
        Some(records[code])
    } else {
        None
    }
}

/// The record with one use fewer; one that has none left stays.
pub open spec fn used_once(r: InviteRecord) -> InviteRecord {
    if r.remaining_uses > 0 {
        InviteRecord { remaining_uses: (r.remaining_uses - 1) as u32, ..r }
    } else {
        r
    }
}

/// The records after a join was tried with a code.
pub open spec fn after_join(
    records: Map<Seq<char>, InviteRecord>,
    code: Seq<char>,
    room_id: Seq<char>,
    now: Instant,
) -> Map<Seq<char>, InviteRecord> {
    if verdict(lookup(records, code), room_id, now) is Ok {
        records.insert(code, used_once(records[code]))
    } else {
        records
    }
}

/// The record, revoked.
pub open spec fn revoked(r: InviteRecord) -> InviteRecord {
    InviteRecord { revoked: true, ..r }
}

/// How many active invites a room loses when a record is revoked: one, if the
/// record is the room's and was not revoked before.
pub open spec fn freed(r: InviteRecord, room_id: Seq<char>) -> nat {
    if r.room_id@ == room_id && !r.revoked {
        1
    } else {
        0
    }
}

/// That a record is for the room and not revoked.
pub open spec fn active_in_room(room_id: Seq<char>) -> spec_fn(InviteRecord) -> bool {
    |r: InviteRecord| r.room_id@ == room_id && !r.revoked
}

/// That a record is for the room, not revoked, and expired.
pub open spec fn active_expired_in_room(room_id: Seq<char>, now: Instant) -> spec_fn(
    InviteRecord,
) -> bool {
    |r: InviteRecord| r.room_id@ == room_id && !r.revoked && now@ >= r.expires_at@
}

/// That a record is not expired.
pub open spec fn unexpired(now: Instant) -> spec_fn(InviteRecord) -> bool {
    |r: InviteRecord| now@ < r.expires_at@
}

/// That a record is for another room.
pub open spec fn not_in_room(room_id: Seq<char>) -> spec_fn(InviteRecord) -> bool {
    |r: InviteRecord| r.room_id@ != room_id
}

/// The count of a room, zero where it has none.
pub open spec fn count_of(counts: Map<Seq<char>, usize>, room_id: Seq<char>) -> nat {
    if counts.contains_key(room_id) {
        counts[room_id] as nat
    } else {
        0
    }
}

/// That no record is revoked.
pub open spec fn none_revoked(records: Map<Seq<char>, InviteRecord>) -> bool {
    forall|code: Seq<char>| #[trigger] records.contains_key(code) ==> !records[code].revoked
}

/// The sum of a number of each room, over finitely many rooms.
pub open spec fn sum_over(rooms: Set<Seq<char>>, n: spec_fn(Seq<char>) -> nat) -> nat
    decreases rooms.len(),
    when rooms.finite()
{
    if rooms.len() == 0 {
        0
    } else {
        let room = rooms.choose();
        n(room) + sum_over(rooms.remove(room), n)
    }
}

proof fn lemma_rooms_add_up(
    records: Map<Seq<char>, InviteRecord>,
    rooms: Set<Seq<char>>,
    n: spec_fn(Seq<char>) -> nat,
    store: InviteStore,
)
    requires
        records.dom().finite(),
        rooms.finite(),
        records == store.records(),
        store.counts_exact(),
        n == (|room: Seq<char>| store.room_count(room)),
    ensures
        sum_over(rooms, n) == table::count_where(
            records,
            |r: InviteRecord| rooms.contains(r.room_id@) && !r.revoked,
        ),
    decreases rooms.len(),
{
    let here = |r: InviteRecord| rooms.contains(r.room_id@) && !r.revoked;
    if rooms.len() == 0 {
        assert(records.dom().filter(|k: Seq<char>| here(records[k])) =~= Set::empty());
    } else {
        let room = rooms.choose();
        let rest = rooms.remove(room);
        let there = |r: InviteRecord| rest.contains(r.room_id@) && !r.revoked;
        lemma_rooms_add_up(records, rest, n, store);
        let elsewhere = |r: InviteRecord| r.room_id@ != room;
        table::lemma_count_kept(records, elsewhere, here);
        table::lemma_count_kept(records, elsewhere, there);
        table::lemma_count_same(
            records,
            |r: InviteRecord| here(r) && !elsewhere(r),
            active_in_room(room),
        );
        table::lemma_count_same(table::kept(records, elsewhere), here, there);
        table::lemma_count_same(
            records,
            |r: InviteRecord| there(r) && !elsewhere(r),
            |r: InviteRecord| false,
        );
        assert(records.dom().filter(|k: Seq<char>| (|r: InviteRecord| false)(records[k]))
            =~= Set::empty());
        assert(store.active_in(room) == store.room_count(room));
    }
}

impl InviteStore {
    /// The records by code.
    pub closed spec fn records(&self) -> Map<Seq<char>, InviteRecord> {
        self.invites@
    }

    /// The number of active invites that is on record for a room.
    pub closed spec fn room_count(&self, room_id: Seq<char>) -> nat {
        count_of(self.room_invite_counts@, room_id)
    }

    /// The configuration.
    pub closed spec fn settings(&self) -> InviteStoreConfig {
        self.config
    }

    /// How many records of a room are not revoked. An expired one counts until
    /// it is swept out.
    pub open spec fn active_in(&self, room_id: Seq<char>) -> nat {
        table::count_where(self.records(), active_in_room(room_id))
    }

    /// No room has more active records than are counted for it, and neither the
    /// rooms nor the store go beyond their limits.
    pub closed spec fn wf(&self) -> bool {
        &&& self.invites.wf()
        &&& self.room_invite_counts.wf()
        &&& self.records().dom().finite()
        &&& self.records().len() <= self.config.max_invites_global
        &&& forall|room: Seq<char>|
            #![trigger self.room_count(room)]
            #![trigger self.active_in(room)]
            self.active_in(room) <= self.room_count(room) <= self.config.max_invites_per_room
    }

    /// Each room has exactly as many active records as are counted for it.
    pub open spec fn counts_exact(&self) -> bool {
        forall|room: Seq<char>|
            #![trigger self.room_count(room)]
            #![trigger self.active_in(room)]
            self.active_in(room) == self.room_count(room)
    }

    /// The limits that hold of a store at all times.
    pub proof fn law_limits_hold(&self, room_id: Seq<char>)
        requires
            self.wf(),
        ensures
            self.records().dom().finite(),
            self.records().len() <= self.settings().max_invites_global,
            self.room_count(room_id) <= self.settings().max_invites_per_room,
            self.active_in(room_id) <= self.room_count(room_id),
    {
    }

    /// Where the counts are exact, they add up to the invites that are not
    /// revoked, over any rooms that leave out none with an active invite; there
    /// are only finitely many of those. Where nothing is revoked, that is the
    /// number of invites in the store.
    pub proof fn law_rooms_add_up(&self, rooms: Set<Seq<char>>)
        requires
            self.wf(),
            self.counts_exact(),
            rooms.finite(),
            forall|room: Seq<char>| #[trigger] self.room_count(room) > 0 ==> rooms.contains(room),
        ensures
            sum_over(rooms, |room: Seq<char>| self.room_count(room)) == table::count_where(
                self.records(),
                |r: InviteRecord| !r.revoked,
            ),
            none_revoked(self.records()) ==> sum_over(
                rooms,
                |room: Seq<char>| self.room_count(room),
            ) == self.records().len(),
            Set::new(|room: Seq<char>| self.room_count(room) > 0).finite(),
    {
        let active = |r: InviteRecord| !r.revoked;
        lemma_rooms_add_up(self.records(), rooms, |room: Seq<char>| self.room_count(room), *self);
        assert forall|code: Seq<char>| #[trigger] self.records().contains_key(code) implies (
        |r: InviteRecord| rooms.contains(r.room_id@) && !r.revoked)(self.records()[code])
            == active(self.records()[code]) by {
            let r = self.records()[code];
            if !r.revoked {
                let p = active_in_room(r.room_id@);
                let found = self.records().dom().filter(|k: Seq<char>| p(self.records()[k]));
                self.records().dom().lemma_len_filter(|k: Seq<char>| p(self.records()[k]));
                assert(found.contains(code));
                assert(found.len() > 0) by {
                    if found.len() == 0 {
                        assert(found =~= Set::empty());
                    }
                }
                assert(self.active_in(r.room_id@) == self.room_count(r.room_id@));
            }
        }
        table::lemma_count_same(
            self.records(),
            |r: InviteRecord| rooms.contains(r.room_id@) && !r.revoked,
            active,
        );
        if none_revoked(self.records()) {
            assert(self.records().dom().filter(|k: Seq<char>| active(self.records()[k]))
                =~= self.records().dom());
        }
        vstd::set_lib::lemma_set_subset_finite(
            rooms,
            Set::new(|room: Seq<char>| self.room_count(room) > 0),
        );
    }

    /// An empty store.
    pub fn new(config: InviteStoreConfig) -> (s: InviteStore)
        ensures
            s.wf(),
            s.counts_exact(),
            s.settings() == config,
            s.records() == Map::<Seq<char>, InviteRecord>::empty(),
            forall|room: Seq<char>| #[trigger] s.room_count(room) == 0,
    {
        let s = InviteStore { invites: Table::new(), room_invite_counts: Table::new(), config };
        proof {
            s.invites.lemma_len();
            assert forall|room: Seq<char>| s.active_in(room) == 0 by {
                assert(s.records().dom().filter(|k: Seq<char>| active_in_room(room)(s.records()[k]))
                    =~= Set::empty());
            }
        }
        s
    }

    /// Whether the store has room for one more invite.
    pub open spec fn has_capacity(&self, room_id: Seq<char>) -> bool {
        self.records().len() < self.settings().max_invites_global && self.room_count(room_id)
            < self.settings().max_invites_per_room
    }

    /// Issues an invite for a room under a fresh random code. The store's limit
    /// is looked at first, then the room's.
    pub fn generate(
        &mut self,
        room_id: &str,
        issuer_id: &str,
        max_uses: Option<u32>,
        now: Instant,
    ) -> (r: Result<InviteRecord, InviteError>)
        requires
            old(self).wf(),
            old(self).has_capacity(room_id@) ==> now@ + old(self).settings().default_ttl@
                <= time::MAX_NANOS,
        ensures
            final(self).wf(),
            final(self).settings() == old(self).settings(),
            match r {
                Ok(rec) => {
                    &&& old(self).has_capacity(room_id@)
                    &&& channel::is_invite_code(rec.code@)
                    &&& rec.room_id@ == room_id@
                    &&& rec.issuer_id@ == issuer_id@
                    &&& rec.issued_at == now
                    &&& rec.expires_at@ == now@ + old(self).settings().default_ttl@
                    &&& rec.remaining_uses == (match max_uses {
                        Some(n) => n,
                        None => old(self).settings().default_max_uses,
                    })
                    &&& !rec.revoked
                    &&& final(self).records() == old(self).records().insert(rec.code@, rec)
                    &&& forall|room: Seq<char>|
                        #[trigger] final(self).room_count(room) == old(self).room_count(room) + (
                        if room == room_id@ {
                            1nat
                        } else {
                            0nat
                        })
                    &&& old(self).counts_exact() && !old(self).records().contains_key(rec.code@)
                        ==> final(self).counts_exact()
                },
                Err(InviteError::GlobalLimitReached { limit }) => {
                    &&& old(self).records().len() >= old(self).settings().max_invites_global
                    &&& limit == old(self).settings().max_invites_global
                    &&& *final(self) == *old(self)
                },
                Err(InviteError::RoomLimitReached { room_id: room, limit }) => {
                    &&& old(self).records().len() < old(self).settings().max_invites_global
                    &&& old(self).room_count(room_id@) >= old(self).settings().max_invites_per_room
                    &&& room@ == room_id@
                    &&& limit == old(self).settings().max_invites_per_room
                    &&& *final(self) == *old(self)
                },
                Err(InviteError::NotFound) => false,
            },
    {
        if self.invites.len() >= self.config.max_invites_global {
            return Err(
                InviteError::GlobalLimitReached { limit: self.config.max_invites_global },
            );
        }
        let room = room_id.to_owned();
        let room_count: usize = match self.room_invite_counts.get(&room) {
            Some(n) => *n,
            None => 0,
        };
        if room_count >= self.config.max_invites_per_room {
            return Err(
                InviteError::RoomLimitReached {
                    room_id: room,
                    limit: self.config.max_invites_per_room,
                },
            );
        }
        let code = channel::generate_invite_code();
        let remaining_uses: u32 = match max_uses {
            Some(n) => n,
            None => self.config.default_max_uses,
        };
        let expires_at = now.plus(self.config.default_ttl);
        let stored = InviteRecord {
            code: code.clone(),
            room_id: room.clone(),
            issuer_id: issuer_id.to_owned(),
            issued_at: now,
            expires_at,
            remaining_uses,
            revoked: false,
        };
        let record = InviteRecord {
            code: stored.code.clone(),
            room_id: stored.room_id.clone(),
            issuer_id: stored.issuer_id.clone(),
            issued_at: now,
            expires_at,
            remaining_uses,
            revoked: false,
        };
        let ghost before = *self;
        self.invites.insert(code, stored);
        self.room_invite_counts.insert(room, room_count + 1);
        proof {
            self.invites.lemma_len();
            assert forall|other: Seq<char>|
                #![trigger self.room_count(other)]
                #![trigger self.active_in(other)]
                self.active_in(other) <= self.room_count(other)
                    <= self.config.max_invites_per_room && self.room_count(other)
                    == before.room_count(other) + (if other == room_id@ {
                    1nat
                } else {
                    0nat
                }) && (before.counts_exact() && !before.records().contains_key(record.code@)
                    ==> self.active_in(other) == self.room_count(other)) by {
                assert(before.active_in(other) <= before.room_count(other));
                table::lemma_count_insert(
                    before.records(),
                    record.code@,
                    record,
                    active_in_room(other),
                );
                if before.counts_exact() {
                    assert(before.active_in(other) == before.room_count(other));
                }
            }
        }
        Ok(record)
    }

    /// Whether a join with the code would be let in. Nothing is used up.
    pub fn validate(&self, code: &str, room_id: &str, now: Instant) -> (r: Result<
        (),
        JoinRejectionReason,
    >)
        requires
            self.wf(),
        ensures
            r == verdict(lookup(self.records(), code@), room_id@, now),
    {
        let record = match self.invites.get(&code.to_owned()) {
            Some(record) => record,
            None => {
                return Err(JoinRejectionReason::InviteInvalid);
            },
        };
        if record.revoked {
            return Err(JoinRejectionReason::InviteRevoked);
        }
        if !now.before(record.expires_at) {
            return Err(JoinRejectionReason::InviteExpired);
        }
        if !text::str_eq(record.room_id.as_str(), room_id) {
            return Err(JoinRejectionReason::InviteInvalid);
        }
        if record.remaining_uses == 0 {
            return Err(JoinRejectionReason::InviteExhausted);
        }
        Ok(())
    }

    proof fn lemma_record_replaced(before: Self, after: Self, code: Seq<char>, record: InviteRecord)
        requires
            before.wf(),
            before.records().contains_key(code),
            record.room_id@ == before.records()[code].room_id@,
            record.revoked == before.records()[code].revoked,
            after.invites.wf(),
            after.records() == before.records().insert(code, record),
            after.room_invite_counts == before.room_invite_counts,
            after.config == before.config,
        ensures
            after.wf(),
            before.counts_exact() ==> after.counts_exact(),
            forall|room: Seq<char>| #[trigger] after.room_count(room) == before.room_count(room),
    {
        after.invites.lemma_len();
        assert forall|room: Seq<char>|
            #![trigger after.room_count(room)]
            #![trigger after.active_in(room)]
            after.active_in(room) == before.active_in(room) by {
            table::lemma_count_insert(before.records(), code, record, active_in_room(room));
        }
        assert forall|room: Seq<char>|
            #![trigger after.room_count(room)]
            #![trigger after.active_in(room)]
            after.active_in(room) <= after.room_count(room) <= after.config.max_invites_per_room
                && (before.counts_exact() ==> after.active_in(room) == after.room_count(room)) by {
            assert(before.active_in(room) <= before.room_count(room));
        }
    }

    /// Takes one use from a code, without a look at whether it is good. An
    /// unknown code, and one that is used up, are left as they are.
    pub fn consume_use(&mut self, code: &str)
        requires
            old(self).wf(),
        ensures
            final(self).wf(),
            final(self).settings() == old(self).settings(),
            old(self).counts_exact() ==> final(self).counts_exact(),
            forall|room: Seq<char>|
                #[trigger] final(self).room_count(room) == old(self).room_count(room),
            final(self).records() == if old(self).records().contains_key(code@) {
                old(self).records().insert(code@, used_once(old(self).records()[code@]))
            } else {
                old(self).records()
            },
    {
        let key = code.to_owned();
        let ghost before = *self;
        if self.invites.get(&key).is_some() {
            let record = self.invites.at_mut(&key);
            if record.remaining_uses > 0 {
                record.remaining_uses = record.remaining_uses - 1;
            }
            proof {
                assert(self.records()[code@] == used_once(before.records()[code@]));
                assert(self.records() =~= before.records().insert(
                    code@,
                    used_once(before.records()[code@]),
                ));
                Self::lemma_record_replaced(
                    before,
                    *self,
                    code@,
                    used_once(before.records()[code@]),
                );
            }
        }
    }

    /// Lets a join in with the code and takes one use from it, or turns it
    /// down and leaves the code as it is.
    pub fn validate_and_consume(&mut self, code: &str, room_id: &str, now: Instant) -> (r: Result<
        (),
        JoinRejectionReason,
    >)
        requires
            old(self).wf(),
        ensures
            final(self).wf(),
            final(self).settings() == old(self).settings(),
            old(self).counts_exact() ==> final(self).counts_exact(),
            forall|room: Seq<char>|
                #[trigger] final(self).room_count(room) == old(self).room_count(room),
            r == verdict(lookup(old(self).records(), code@), room_id@, now),
            final(self).records() == after_join(old(self).records(), code@, room_id@, now),
    {
        match self.validate(code, room_id, now) {
            Ok(()) => {
                self.consume_use(code);
                Ok(())
            },
            Err(reason) => Err(reason),
        }
    }

    fn mark_revoked(&mut self, key: &String)
        requires
            old(self).wf(),
            old(self).records().contains_key(key@),
        ensures
            final(self).wf(),
            final(self).settings() == old(self).settings(),
            old(self).counts_exact() ==> final(self).counts_exact(),
            forall|room: Seq<char>|
                #[trigger] final(self).room_count(room) == old(self).room_count(room) - freed(
                    old(self).records()[key@],
                    room,
                ),
            final(self).records() == old(self).records().insert(
                key@,
                revoked(old(self).records()[key@]),
            ),
    {
        let ghost before = *self;
        let ghost rec = self.records()[key@];
        let record = self.invites.at_mut(key);
        let room = record.room_id.clone();
        let active = !record.revoked;
        record.revoked = true;
        proof {
            assert(before.active_in(rec.room_id@) <= before.room_count(rec.room_id@));
            if active {
                table::lemma_count_insert(
                    before.records(),
                    key@,
                    revoked(rec),
                    active_in_room(rec.room_id@),
                );
            }
        }
        if active {
            let count = self.room_invite_counts.entry_mut(room, 0);
            *count = *count - 1;
        }
        proof {
            self.invites.lemma_len();
            assert forall|other: Seq<char>|
                #![trigger self.room_count(other)]
                #![trigger self.active_in(other)]
                self.active_in(other) <= self.room_count(other)
                    <= self.config.max_invites_per_room && self.room_count(other)
                    == before.room_count(other) - freed(rec, other) && (before.counts_exact()
                    ==> self.active_in(other) == self.room_count(other)) by {
                assert(before.active_in(other) <= before.room_count(other));
                table::lemma_count_insert(
                    before.records(),
                    key@,
                    revoked(rec),
                    active_in_room(other),
                );
                if before.counts_exact() {
                    assert(before.active_in(other) == before.room_count(other));
                }
            }
        }
    }

    /// Revokes a code, whoever asks. The first time this is done the room has
    /// one active invite fewer.
    pub fn revoke(&mut self, code: &str) -> (r: Result<(), InviteError>)
        requires
            old(self).wf(),
        ensures
            final(self).wf(),
            final(self).settings() == old(self).settings(),
            old(self).counts_exact() ==> final(self).counts_exact(),
            match r {
                Ok(()) => {
                    &&& old(self).records().contains_key(code@)
                    &&& final(self).records() == old(self).records().insert(
                        code@,
                        revoked(old(self).records()[code@]),
                    )
                    &&& forall|room: Seq<char>|
                        #[trigger] final(self).room_count(room) == old(self).room_count(room)
                            - freed(old(self).records()[code@], room)
                },
                Err(e) => !old(self).records().contains_key(code@) && e == InviteError::NotFound
                    && *final(self) == *old(self),
            },
    {
        let key = code.to_owned();
        if self.invites.get(&key).is_none() {
            return Err(InviteError::NotFound);
        }
        self.mark_revoked(&key);
        Ok(())
    }

    /// Revokes a code of the room on behalf of its host. Nobody else revokes.
    pub fn revoke_authorized(
        &mut self,
        code: &str,
        room_id: &str,
        _requestor_id: &str,
        requestor_role: ParticipantRole,
    ) -> (r: Result<(), InviteRevokeError>)
        requires
            old(self).wf(),
        ensures
            final(self).wf(),
            final(self).settings() == old(self).settings(),
            old(self).counts_exact() ==> final(self).counts_exact(),
            r == (match lookup(old(self).records(), code@) {
                None => Err(InviteRevokeError::NotFound),
                Some(rec) => if rec.room_id@ == room_id@ && requestor_role
                    == ParticipantRole::Host {
                    Ok(())
                } else {
                    Err(InviteRevokeError::Unauthorized)
                },
            }),
            r is Ok ==> final(self).records() == old(self).records().insert(
                code@,
                revoked(old(self).records()[code@]),
            ) && forall|room: Seq<char>|
                #[trigger] final(self).room_count(room) == old(self).room_count(room) - freed(
                    old(self).records()[code@],
                    room,
                ),
            r is Err ==> *final(self) == *old(self),
    {
        let key = code.to_owned();
        match self.invites.get(&key) {
            None => {
                return Err(InviteRevokeError::NotFound);
            },
            Some(record) => {
                if !text::str_eq(record.room_id.as_str(), room_id) {
                    return Err(InviteRevokeError::Unauthorized);
                }
                if requestor_role != ParticipantRole::Host {
                    return Err(InviteRevokeError::Unauthorized);
                }
            },
        }
        self.mark_revoked(&key);
        Ok(())
    }

    /// Removes the invites of a room, and its count.
    pub fn remove_room_invites(&mut self, room_id: &str)
        requires
            old(self).wf(),
        ensures
            final(self).wf(),
            final(self).settings() == old(self).settings(),
            old(self).counts_exact() ==> final(self).counts_exact(),
            final(self).records() == table::kept(old(self).records(), not_in_room(room_id@)),
            forall|room: Seq<char>|
                #[trigger] final(self).room_count(room) == if room == room_id@ {
                    0nat
                } else {
                    old(self).room_count(room)
                },
    {
        let key = room_id.to_owned();
        let ghost before = *self;
        let keep = |r: &InviteRecord| -> (b: bool)
            ensures
                b == (r.room_id@ != room_id@),
            { !text::str_eq(r.room_id.as_str(), room_id) };
        self.invites.retain(keep, Ghost(not_in_room(room_id@)));
        self.room_invite_counts.remove(&key);
        proof {
            assert forall|room: Seq<char>|
                #![trigger self.room_count(room)]
                #![trigger self.active_in(room)]
                self.active_in(room) <= self.room_count(room) <= self.config.max_invites_per_room
                    && (before.counts_exact() ==> self.active_in(room) == self.room_count(room))
                    && self.room_count(room) == (if room == room_id@ {
                    0nat
                } else {
                    before.room_count(room)
                }) by {
                assert(before.active_in(room) <= before.room_count(room));
                table::lemma_count_kept(before.records(), not_in_room(room_id@), active_in_room(room));
                let gone = |r: InviteRecord| active_in_room(room)(r) && !not_in_room(room_id@)(r);
                if room == room_id@ {
                    table::lemma_count_same(before.records(), gone, active_in_room(room));
                } else {
                    table::lemma_count_same(before.records(), gone, |r: InviteRecord| false);
                    assert(before.records().dom().filter(
                        |k: Seq<char>| (|r: InviteRecord| false)(before.records()[k]),
                    ) =~= Set::empty());
                }
                if before.counts_exact() {
                    assert(before.active_in(room) == before.room_count(room));
                }
            }
        }
    }

    /// Removes the invites that are expired and returns how many there were.
    /// The counts of their rooms go down with those that were not revoked.
    pub fn sweep_expired(&mut self, now: Instant) -> (n: usize)
        requires
            old(self).wf(),
        ensures
            final(self).wf(),
            final(self).settings() == old(self).settings(),
            old(self).counts_exact() ==> final(self).counts_exact(),
            final(self).records() == table::kept(old(self).records(), unexpired(now)),
            n == old(self).records().len() - final(self).records().len(),
            forall|room: Seq<char>|
                #[trigger] final(self).room_count(room) == old(self).room_count(room)
                    - table::count_where(old(self).records(), active_expired_in_room(room, now)),
    {
        let ghost before = *self;
        let total: usize = self.invites.len();
        let mut i: usize = 0;
        proof {
            self.invites.lemma_len();
            assert forall|room: Seq<char>|
                #[trigger] count_of(self.room_invite_counts@, room) == before.room_count(room)
                    - self.invites.tally(active_expired_in_room(room, now), 0) by {}
        }
        while i < total
            invariant
                i <= total,
                before.wf(),
                total == self.invites.spec_len(),
                self.invites == before.invites,
                self.config == before.config,
                self.room_invite_counts.wf(),
                forall|room: Seq<char>|
                    #[trigger] count_of(self.room_invite_counts@, room) == before.room_count(room)
                        - self.invites.tally(active_expired_in_room(room, now), i as nat),
            decreases total - i,
        {
            let record = self.invites.value_at(i);
            let ghost mid = self.room_invite_counts@;
            if !now.before(record.expires_at) && !record.revoked {
                let room = record.room_id.clone();
                let ghost name = room@;
                let count = self.room_invite_counts.entry_mut(room, 0);
                if *count > 0 {
                    *count = *count - 1;
                }
                proof {
                    let p = active_expired_in_room(name, now);
                    before.invites.lemma_tally_monotone(p, (i + 1) as nat, total as nat);
                    before.invites.lemma_tally(p);
                    assert(before.active_in(name) <= before.room_count(name));
                    Self::lemma_expired_at_most(before, name, now);
                    assert(before.invites.tally(p, (i + 1) as nat) == before.invites.tally(
                        p,
                        i as nat,
                    ) + 1);
                    assert(count_of(mid, name) >= 1);
                }
            }
            proof {
                assert forall|room: Seq<char>|
                    #[trigger] count_of(self.room_invite_counts@, room) == before.room_count(room)
                        - self.invites.tally(active_expired_in_room(room, now), (i + 1) as nat) by {
                    assert(count_of(mid, room) == before.room_count(room) - self.invites.tally(
                        active_expired_in_room(room, now),
                        i as nat,
                    ));
                }
            }
            i = i + 1;
        }
        let keep = |r: &InviteRecord| -> (b: bool)
            ensures
                b == (now@ < r.expires_at@),
            { now.before(r.expires_at) };
        let removed: usize = self.invites.retain(keep, Ghost(unexpired(now)));
        let ghost counts = self.room_invite_counts@;
        let positive = |c: &usize| -> (b: bool)
            ensures
                b == (*c > 0),
            { *c > 0 };
        self.room_invite_counts.retain(positive, Ghost(|c: usize| c > 0));
        proof {
            assert forall|room: Seq<char>|
                #![trigger self.room_count(room)]
                #![trigger self.active_in(room)]
                self.active_in(room) <= self.room_count(room) <= self.config.max_invites_per_room
                    && (before.counts_exact() ==> self.active_in(room) == self.room_count(room))
                    && self.room_count(room) == before.room_count(room) - table::count_where(
                    before.records(),
                    active_expired_in_room(room, now),
                ) by {
                assert(before.active_in(room) <= before.room_count(room));
                assert(count_of(counts, room) == count_of(self.room_invite_counts@, room));
                before.invites.lemma_tally(active_expired_in_room(room, now));
                assert(count_of(counts, room) == before.room_count(room) - before.invites.tally(
                    active_expired_in_room(room, now),
                    total as nat,
                ));
                table::lemma_count_kept(before.records(), unexpired(now), active_in_room(room));
                table::lemma_count_same(
                    before.records(),
                    |r: InviteRecord| active_in_room(room)(r) && !unexpired(now)(r),
                    active_expired_in_room(room, now),
                );
                if before.counts_exact() {
                    assert(before.active_in(room) == before.room_count(room));
                }
            }
        }
        removed
    }

    proof fn lemma_expired_at_most(s: Self, room: Seq<char>, now: Instant)
        requires
            s.wf(),
        ensures
            table::count_where(s.records(), active_expired_in_room(room, now)) <= s.active_in(room),
    {
        table::lemma_count_kept(s.records(), unexpired(now), active_in_room(room));
        table::lemma_count_same(
            s.records(),
            |r: InviteRecord| active_in_room(room)(r) && !unexpired(now)(r),
            active_expired_in_room(room, now),
        );
    }

    /// The whole seconds that a code is good for.
    pub fn default_ttl_secs(&self) -> (secs: u64)
        ensures
            secs == self.settings().default_ttl@ / time::NANOS_PER_SEC as nat,
    {
        self.config.default_ttl.as_secs()
    }

    /// The number of active invites of a room.
    pub fn room_invite_count(&self, room_id: &str) -> (n: usize)
        requires
            self.wf(),
        ensures
            n == self.room_count(room_id@),
    {
        match self.room_invite_counts.get(&room_id.to_owned()) {
            Some(n) => *n,
            None => 0,
        }
    }

    /// The number of invites in the store.
    pub fn total_invite_count(&self) -> (n: usize)
        requires
            self.wf(),
        ensures
            n == self.records().len(),
    {
        self.invites.len()
    }
}

impl Default for InviteStore {
    fn default() -> (s: InviteStore)
        ensures
            s.wf(),
            s.counts_exact(),
            s.records() == Map::<Seq<char>, InviteRecord>::empty(),
            s.settings().default_ttl@ == 86_400 * time::NANOS_PER_SEC,
            s.settings().default_max_uses == 6,
            s.settings().max_invites_per_room == 20,
            s.settings().max_invites_global == 1000,
            s.settings().sweep_interval@ == 60 * time::NANOS_PER_SEC,
    {
        InviteStore::new(InviteStoreConfig::default())
    }
}

/// The records after `n` joins were tried with a code, one after the other.
pub open spec fn after_joins(
    records: Map<Seq<char>, InviteRecord>,
    code: Seq<char>,
    room_id: Seq<char>,
    now: Instant,
    n: nat,
) -> Map<Seq<char>, InviteRecord>
    decreases n,
{
    if n == 0 {
        records
    } else {
        after_join(
            after_joins(records, code, room_id, now, (n - 1) as nat),
            code,
            room_id,
            now,
        )
    }
}

/// A code that is good lets in exactly as many joins as it has uses; every
/// join after that is answered that the code is used up. The other codes are
/// left as they are.
pub proof fn law_uses_run_out(
    records: Map<Seq<char>, InviteRecord>,
    code: Seq<char>,
    room_id: Seq<char>,
    now: Instant,
    n: nat,
)
    requires
        records.contains_key(code),
        !records[code].revoked,
        now@ < records[code].expires_at@,
        records[code].room_id@ == room_id,
    ensures
        verdict(lookup(after_joins(records, code, room_id, now, n), code), room_id, now) == (if n
            < records[code].remaining_uses {
            Ok::<(), JoinRejectionReason>(())
        } else {
            Err(JoinRejectionReason::InviteExhausted)
        }),
        forall|other: Seq<char>|
            other != code ==> #[trigger] lookup(
                after_joins(records, code, room_id, now, n),
                other,
            ) == lookup(records, other),
    decreases n,
{
    lemma_after_joins(records, code, room_id, now, n);
}

proof fn lemma_after_joins(
    records: Map<Seq<char>, InviteRecord>,
    code: Seq<char>,
    room_id: Seq<char>,
    now: Instant,
    n: nat,
)
    requires
        records.contains_key(code),
        !records[code].revoked,
        now@ < records[code].expires_at@,
        records[code].room_id@ == room_id,
    ensures
        ({
            let after = after_joins(records, code, room_id, now, n);
            &&& after.contains_key(code)
            &&& !after[code].revoked
            &&& now@ < after[code].expires_at@
            &&& after[code].room_id@ == room_id
            &&& after[code].remaining_uses == (if n < records[code].remaining_uses {
                records[code].remaining_uses - n
            } else {
                0
            })
            &&& forall|other: Seq<char>|
                other != code ==> #[trigger] lookup(after, other) == lookup(records, other)
        }),
    decreases n,
{
    if n > 0 {
        lemma_after_joins(records, code, room_id, now, (n - 1) as nat);
        let prev = after_joins(records, code, room_id, now, (n - 1) as nat);
        let after = after_joins(records, code, room_id, now, n);
        assert(after == after_join(prev, code, room_id, now));
        if prev[code].remaining_uses > 0 {
            assert(after == prev.insert(code, used_once(prev[code])));
        } else {
            assert(after == prev);
        }
        assert forall|other: Seq<char>| other != code implies #[trigger] lookup(after, other)
            == lookup(records, other) by {
            assert(lookup(prev, other) == lookup(records, other));
        }
    }
}

/// A code that was revoked is answered as revoked at any time, in any room, and
/// however often it is tried. Revoking it again takes no invite from any room.
pub proof fn law_revoked_for_good(
    records: Map<Seq<char>, InviteRecord>,
    code: Seq<char>,
    room_id: Seq<char>,
    now: Instant,
    n: nat,
)
    requires
        records.contains_key(code),
        records[code].revoked,
    ensures
        verdict(lookup(after_joins(records, code, room_id, now, n), code), room_id, now) == Err::<
            (),
            JoinRejectionReason,
        >(JoinRejectionReason::InviteRevoked),
        after_joins(records, code, room_id, now, n) == records,
        freed(records[code], room_id) == 0,
    decreases n,
{
    if n > 0 {
        law_revoked_for_good(records, code, room_id, now, (n - 1) as nat);
    }
}

/// A code that was issued is good at once in its room, where it has a use and
/// a lifetime; from its expiry on it is expired, and it is never good for
/// another room.
pub proof fn law_issued_code_is_good_until_it_expires(
    records: Map<Seq<char>, InviteRecord>,
    issued: InviteRecord,
    ttl: Duration,
    room_id: Seq<char>,
    now: Instant,
)
    requires
        !issued.revoked,
        issued.expires_at@ == issued.issued_at@ + ttl@,
    ensures
        ({
            let answer = verdict(
                lookup(records.insert(issued.code@, issued), issued.code@),
                room_id,
                now,
            );
            &&& answer is Ok <==> now@ < issued.issued_at@ + ttl@ && room_id == issued.room_id@
                && issued.remaining_uses > 0
            &&& now@ >= issued.issued_at@ + ttl@ ==> answer == Err::<(), JoinRejectionReason>(
                JoinRejectionReason::InviteExpired,
            )
            &&& now@ < issued.issued_at@ + ttl@ && room_id != issued.room_id@ ==> answer == Err::<
                (),
                JoinRejectionReason,
            >(JoinRejectionReason::InviteInvalid)
        }),
{
}

/// Issuing, joining, taking a use, sweeping and removing a room's invites revoke
/// nothing.
pub proof fn law_only_revoking_revokes(
    records: Map<Seq<char>, InviteRecord>,
    issued: InviteRecord,
    code: Seq<char>,
    room_id: Seq<char>,
    now: Instant,
)
    requires
        none_revoked(records),
        !issued.revoked,
    ensures
        none_revoked(Map::<Seq<char>, InviteRecord>::empty()),
        none_revoked(records.insert(issued.code@, issued)),
        none_revoked(after_join(records, code, room_id, now)),
        records.contains_key(code) ==> none_revoked(
            records.insert(code, used_once(records[code])),
        ),
        none_revoked(table::kept(records, unexpired(now))),
        none_revoked(table::kept(records, not_in_room(room_id))),
{
}

/// After a sweep no code that is expired is left and every other is as it was;
/// after a room's invites were removed none of its codes is left and those of
/// the other rooms are as they were.
pub proof fn law_removals_are_exact(
    records: Map<Seq<char>, InviteRecord>,
    code: Seq<char>,
    room_id: Seq<char>,
    now: Instant,
)
    ensures
        lookup(table::kept(records, unexpired(now)), code) == (match lookup(records, code) {
            Some(r) => if now@ < r.expires_at@ {
                Some(r)
            } else {
                None
            },
            None => None,
        }),
        lookup(table::kept(records, not_in_room(room_id)), code) == (match lookup(records, code) {
            Some(r) => if r.room_id@ != room_id {
                Some(r)
            } else {
                None
            },
            None => None,
        }),
{
}

/// An invite from its issue to a join. It is issued exactly where neither the
/// store nor the room is full. With it a join is let in exactly into its room,
/// before its lifetime is over, and where it has a use; that takes one use, and a
/// join that is refused takes none.
pub proof fn law_invite_from_issue_to_join(
    issuing: &mut InviteStore,
    joining: &mut InviteStore,
    asked: &InviteStore,
    room: &str,
    issuer: &str,
    max_uses: Option<u32>,
    now: Instant,
    issued: Result<InviteRecord, InviteError>,
    code: &str,
    other_room: &str,
    later: Instant,
    answer: Result<(), JoinRejectionReason>,
    looked: Result<(), JoinRejectionReason>,
)
    requires
        call_ensures(InviteStore::generate, (issuing, room, issuer, max_uses, now), issued),
        *old(joining) == *final(issuing),
        *asked == *final(issuing),
        issued is Ok ==> code@ == issued->Ok_0.code@,
        call_ensures(
            InviteStore::validate_and_consume,
            (joining, code, other_room, later),
            answer,
        ),
        call_ensures(InviteStore::validate, (asked, code, other_room, later), looked),
    ensures
        issued is Ok <==> old(issuing).records().len() < old(issuing).settings().max_invites_global
            && old(issuing).room_count(room@) < old(issuing).settings().max_invites_per_room,
        issued is Err && issued->Err_0 is GlobalLimitReached <==> old(issuing).records().len()
            >= old(issuing).settings().max_invites_global,
        issued is Err ==> final(issuing).records() == old(issuing).records(),
        looked == answer,
        issued is Ok ==> ({
            let uses = if max_uses is Some {
                max_uses->0
            } else {
                old(issuing).settings().default_max_uses
            };
            let end = now@ + old(issuing).settings().default_ttl@;
            &&& issued->Ok_0.issuer_id@ == issuer@
            &&& final(issuing).room_count(room@) == old(issuing).room_count(room@) + 1
            &&& answer is Ok <==> other_room@ == room@ && later@ < end && uses > 0
            &&& later@ >= end ==> answer == Err::<(), JoinRejectionReason>(
                JoinRejectionReason::InviteExpired,
            )
            &&& later@ < end && other_room@ != room@ ==> answer == Err::<(), JoinRejectionReason>(
                JoinRejectionReason::InviteInvalid,
            )
            &&& later@ < end && other_room@ == room@ && uses == 0 ==> answer == Err::<
                (),
                JoinRejectionReason,
            >(JoinRejectionReason::InviteExhausted)
            &&& final(joining).records().contains_key(code@)
            &&& final(joining).records()[code@].remaining_uses == if answer is Ok {
                uses - 1
            } else {
                uses as int
            }
            &&& final(joining).room_count(room@) == final(issuing).room_count(room@)
        }),
{
}

/// A revoked invite lets nobody in any more, in any room and at any time. It is
/// revoked, on someone's behalf, exactly by the host of its room; who may not
/// revoke it changes nothing. An active one counts no longer for its room, and the
/// other invites are as they were.
pub proof fn law_revoked_invites_let_nobody_in(
    revoking: &mut InviteStore,
    asking: &mut InviteStore,
    joining: &mut InviteStore,
    code: &str,
    other: Seq<char>,
    room: &str,
    requestor: &str,
    role: ParticipantRole,
    now: Instant,
    r: Result<(), InviteError>,
    asked: Result<(), InviteRevokeError>,
    answer: Result<(), JoinRejectionReason>,
)
    requires
        call_ensures(InviteStore::revoke, (revoking, code), r),
        call_ensures(InviteStore::revoke_authorized, (asking, code, room, requestor, role), asked),
        *old(asking) == *old(revoking),
        *old(joining) == *final(revoking) || (asked is Ok && *old(joining) == *final(asking)),
        call_ensures(InviteStore::validate_and_consume, (joining, code, room, now), answer),
    ensures
        r is Ok <==> old(revoking).records().contains_key(code@),
        r is Ok ==> answer == Err::<(), JoinRejectionReason>(JoinRejectionReason::InviteRevoked),
        r is Err ==> answer == Err::<(), JoinRejectionReason>(JoinRejectionReason::InviteInvalid),
        asked is Ok <==> old(asking).records().contains_key(code@) && old(
            asking,
        ).records()[code@].room_id@ == room@ && role == ParticipantRole::Host,
        asked == Err::<(), InviteRevokeError>(InviteRevokeError::NotFound) <==> !old(
            asking,
        ).records().contains_key(code@),
        asked is Err ==> final(asking).records() == old(asking).records(),
        r is Ok && !old(revoking).records()[code@].revoked ==> final(revoking).room_count(
            old(revoking).records()[code@].room_id@,
        ) == old(revoking).room_count(old(revoking).records()[code@].room_id@) - 1,
        other != code@ ==> lookup(final(revoking).records(), other) == lookup(
            old(revoking).records(),
            other,
        ) && lookup(final(asking).records(), other) == lookup(old(asking).records(), other),
{
}

/// Once a room's invites are removed none of them lets anyone in, and those of
/// other rooms are as they were. A sweep removes exactly what has expired and says
/// how many that were; afterwards these codes are unknown.
pub proof fn law_removed_invites_let_nobody_in(
    removing: &mut InviteStore,
    sweeping: &mut InviteStore,
    after_removal: &InviteStore,
    after_sweep: &InviteStore,
    room: &str,
    now: Instant,
    swept: usize,
    code: &str,
    where_to: &str,
    later: Instant,
    removed_answer: Result<(), JoinRejectionReason>,
    swept_answer: Result<(), JoinRejectionReason>,
)
    requires
        call_ensures(InviteStore::remove_room_invites, (removing, room), ()),
        call_ensures(InviteStore::sweep_expired, (sweeping, now), swept),
        *after_removal == *final(removing),
        *after_sweep == *final(sweeping),
        call_ensures(
            InviteStore::validate,
            (after_removal, code, where_to, later),
            removed_answer,
        ),
        call_ensures(InviteStore::validate, (after_sweep, code, where_to, later), swept_answer),
    ensures
        final(removing).room_count(room@) == 0,
        old(removing).records().contains_key(code@) && old(removing).records()[code@].room_id@
            == room@ ==> removed_answer == Err::<(), JoinRejectionReason>(
            JoinRejectionReason::InviteInvalid,
        ),
        old(removing).records().contains_key(code@) && old(removing).records()[code@].room_id@
            != room@ ==> lookup(final(removing).records(), code@) == Some(
            old(removing).records()[code@],
        ),
        old(sweeping).records().contains_key(code@) && now@ >= old(
            sweeping,
        ).records()[code@].expires_at@ ==> swept_answer == Err::<(), JoinRejectionReason>(
            JoinRejectionReason::InviteInvalid,
        ),
        old(sweeping).records().contains_key(code@) && now@ < old(
            sweeping,
        ).records()[code@].expires_at@ ==> lookup(final(sweeping).records(), code@) == Some(
            old(sweeping).records()[code@],
        ),
        swept + final(sweeping).records().len() == old(sweeping).records().len(),
{
}

/// Why a join is refused, in this order: the code is unknown, it was revoked, it
/// has expired, it is for another room, it is used up.
pub proof fn law_why_a_join_is_refused(
    store: &InviteStore,
    code: &str,
    room: &str,
    now: Instant,
    r: Result<(), JoinRejectionReason>,
)
    requires
        call_ensures(InviteStore::validate, (store, code, room, now), r),
    ensures
        ({
            let known = store.records().contains_key(code@);
            let record = store.records()[code@];
            &&& r is Ok <==> known && !record.revoked && now@ < record.expires_at@
                && record.room_id@ == room@ && record.remaining_uses > 0
            &&& r == Err::<(), JoinRejectionReason>(JoinRejectionReason::InviteRevoked) <==> known
                && record.revoked
            &&& r == Err::<(), JoinRejectionReason>(JoinRejectionReason::InviteExpired) <==> known
                && !record.revoked && now@ >= record.expires_at@
            &&& r == Err::<(), JoinRejectionReason>(JoinRejectionReason::InviteInvalid) <==> !known
                || (!record.revoked && now@ < record.expires_at@ && record.room_id@ != room@)
            &&& r == Err::<(), JoinRejectionReason>(JoinRejectionReason::InviteExhausted) <==> known
                && !record.revoked && now@ < record.expires_at@ && record.room_id@ == room@
                && record.remaining_uses == 0
        }),
{
}

/// Each error is told in its own words, with the limit and the room.
pub proof fn law_messages_say_what_is_wrong(e: &InviteError, s: String)
    requires
        call_ensures(InviteError::message, (e,), s),
    ensures
        *e is RoomLimitReached ==> s@ == "per-room invite limit ("@ + text::decimal(
            e->RoomLimitReached_limit as nat,
        ) + ") reached for room "@ + e->room_id@,
        *e is GlobalLimitReached ==> s@ == "global invite limit ("@ + text::decimal(
            e->GlobalLimitReached_limit as nat,
        ) + ") reached"@,
        *e is NotFound ==> s@ == "invite code not found"@,
{
}

/// A new store is empty; by default an invite is good for a day and for six uses, a
/// room has at most twenty of them and the store a thousand.
pub proof fn law_stores_start_empty(
    c: InviteStoreConfig,
    s: InviteStore,
    store: &InviteStore,
    secs: u64,
    n: usize,
    room: &str,
    in_room: usize,
)
    requires
        call_ensures(InviteStoreConfig::default, (), c),
        call_ensures(InviteStore::new, (c,), s),
        *store == s,
        call_ensures(InviteStore::default_ttl_secs, (store,), secs),
        call_ensures(InviteStore::total_invite_count, (store,), n),
        call_ensures(InviteStore::room_invite_count, (store, room), in_room),
    ensures
        secs == 86_400,
        n == 0,
        in_room == 0,
        c.default_max_uses == 6,
        c.max_invites_per_room == 20,
        c.max_invites_global == 1000,
        c.sweep_interval@ == 60 * 1_000_000_000,
{
    assert((86_400nat * 1_000_000_000) / 1_000_000_000 == 86_400);
}

/// A use that is taken is one of its code: it is one less, or none if there was none
/// left, and every other code stays as it is.
pub proof fn law_uses_are_taken_one_by_one(
    store: &mut InviteStore,
    code: &str,
    other: Seq<char>,
)
    requires
        call_ensures(InviteStore::consume_use, (store, code), ()),
    ensures
        final(store).records().dom() == old(store).records().dom(),
        old(store).records().contains_key(code@) ==> {
            let before = old(store).records()[code@];
            let after = final(store).records()[code@];
            &&& before.remaining_uses > 0 ==> after.remaining_uses == before.remaining_uses - 1
            &&& before.remaining_uses == 0 ==> after.remaining_uses == 0
            &&& after.revoked == before.revoked
            &&& after.expires_at == before.expires_at
            &&& after.room_id == before.room_id
        },
        other != code@ && old(store).records().contains_key(other) ==> final(store).records()[other]
            == old(store).records()[other],
{
    assert(final(store).records().dom() =~= old(store).records().dom());
}

} // verus!
