//! The rules of channels.
//!
//! Most operations alternate with the database. Each is a value that says what
//! to do next, and a function that takes it, with what came of doing that, to
//! the next one.

use crate::calendar;
use crate::calendar::UtcTime;
use crate::channel::channel_models::BanResult;
use crate::channel::channel_models::BannedMemberInfo;
use crate::channel::channel_models::Channel;
use crate::channel::channel_models::ChannelDetail;
use crate::channel::channel_models::ChannelError;
use crate::channel::channel_models::ChannelInvite;
use crate::channel::channel_models::ChannelListItem;
use crate::channel::channel_models::ChannelMemberInfo;
use crate::channel::channel_models::ChannelRole;
use crate::channel::channel_models::JoinResult;
use crate::channel::channel_models::RoleChangeResult;
use crate::channel::channel_models::StoredListing;
use crate::channel::channel_models::StoredMember;
use crate::channel::channel_models::StoredMembership;
use crate::crypto;
use crate::ids::Uuid;
use crate::text;
use vstd::prelude::*;

verus! {

/// The most characters that a channel name may have.
pub const MAX_NAME_CHARS: usize = 100;

/// Validates a channel name: 1 to 100 characters.
pub fn validate_channel_name(name: &str) -> (r: Result<(), ChannelError>)
    ensures
        r == if 1 <= name@.len() <= MAX_NAME_CHARS {
            Ok(())
        } else {
            Err(ChannelError::InvalidName)
        },
{
    if name.is_empty() || name.unicode_len() > MAX_NAME_CHARS {
        return Err(ChannelError::InvalidName);
    }
    Ok(())
}

/// The form of a channel invite code: the URL-safe base64 text of 16 bytes,
/// which has 22 characters.
pub open spec fn is_invite_code(code: Seq<char>) -> bool {
    &&& code.len() == 22
    &&& forall|i: int| 0 <= i < code.len() ==> crypto::base64_url_char(#[trigger] code[i])
    &&& exists|bytes: Seq<u8>| bytes.len() == 16 && code == #[trigger] crypto::base64_url(bytes)
}

/// A random invite code of 128 bits.
pub fn generate_invite_code() -> (code: String)
    ensures
        is_invite_code(code@),
{
    let bytes = crypto::random_bytes(16);
    proof {
        crypto::lemma_base64_url(bytes@);
    }
    crypto::base64_url_encode(bytes.as_slice())
}

/// The role that a stored text stands for.
pub open spec fn role_of(role: Seq<char>) -> ChannelRole {
    if role == "owner"@ {
        ChannelRole::Owner
    } else if role == "admin"@ {
        ChannelRole::Admin
    } else {
        ChannelRole::Member
    }
}

/// The role that a stored text stands for.
pub fn parse_role(role: &str) -> (r: ChannelRole)
    ensures
        r == role_of(role@),
{
    if text::str_eq(role, "owner") {
        ChannelRole::Owner
    } else if text::str_eq(role, "admin") {
        ChannelRole::Admin
    } else {
        ChannelRole::Member
    }
}

/// The role that a text assigns: "admin" or "member".
pub open spec fn assigned_role(role: Seq<char>) -> Option<ChannelRole> {
    if role == "admin"@ {
        Some(ChannelRole::Admin)
    } else if role == "member"@ {
        Some(ChannelRole::Member)
    } else {
        None
    }
}

/// The role that a text assigns. Ownership cannot be assigned.
pub fn parse_assignable_role(role: &str) -> (r: Result<ChannelRole, ChannelError>)
    ensures
        r == match assigned_role(role@) {
            Some(a) => Ok(a),
            None => Err(ChannelError::InvalidRole),
        },
{
    if text::str_eq(role, "admin") {
        Ok(ChannelRole::Admin)
    } else if text::str_eq(role, "member") {
        Ok(ChannelRole::Member)
    } else {
        Err(ChannelError::InvalidRole)
    }
}

/// The text under which a role is stored.
pub open spec fn role_name(role: ChannelRole) -> Seq<char> {
    match role {
        ChannelRole::Owner => "owner"@,
        ChannelRole::Admin => "admin"@,
        ChannelRole::Member => "member"@,
    }
}

/// What is stored for a role is read back as that role.
pub proof fn law_role_names_read_back(role: ChannelRole)
    ensures
        role_of(role_name(role)) == role,
        assigned_role(role_name(role)) == if role == ChannelRole::Owner {
            None
        } else {
            Some(role)
        },
{
    reveal_strlit("owner");
    reveal_strlit("admin");
    reveal_strlit("member");
    assert("owner"@[0] == 'o');
    assert("admin"@[0] == 'a');
    assert("member"@.len() == 6);
}

/// The role of someone who may manage a channel: an owner or admin who is not
/// banned.
pub open spec fn manager_role(membership: Option<StoredMembership>) -> Option<ChannelRole> {
    match membership {
        Some(m) => if m.banned_at is None && role_of(m.role@) != ChannelRole::Member {
            Some(role_of(m.role@))
        } else {
            None
        },
        None => None,
    }
}

/// The role of someone who may manage a channel. Everyone else is forbidden to.
pub fn require_manager(membership: &Option<StoredMembership>) -> (r: Result<
    ChannelRole,
    ChannelError,
>)
    ensures
        r == match manager_role(*membership) {
            Some(role) => Ok(role),
            None => Err(ChannelError::Forbidden),
        },
{
    match membership {
        None => Err(ChannelError::Forbidden),
        Some(m) => {
            if m.banned_at.is_some() {
                return Err(ChannelError::Forbidden);
            }
            let role = parse_role(m.role.as_str());
            if role == ChannelRole::Member {
                return Err(ChannelError::Forbidden);
            }
            Ok(role)
        },
    }
}

/// That a channel of a user is listed as it is stored.
pub open spec fn lists(row: StoredListing, item: ChannelListItem) -> bool {
    &&& item.channel_id == row.channel.channel_id
    &&& item.name == row.channel.name
    &&& item.owner_user_id == row.channel.owner_user_id
    &&& item.created_at == row.channel.created_at
    &&& item.role == role_of(row.role@)
}

/// The channels of a user as they are stored, in their order, with the roles
/// read from their texts.
pub fn list_channels(stored: Result<Vec<StoredListing>, String>) -> (r: Result<
    Vec<ChannelListItem>,
    ChannelError,
>)
    ensures
        match stored {
            Ok(rows) => {
                &&& r matches Ok(items)
                &&& items@.len() == rows@.len()
                &&& forall|i: int| 0 <= i < rows@.len() ==> lists(rows@[i], #[trigger] items@[i])
            },
            Err(e) => r == Err::<Vec<ChannelListItem>, ChannelError>(
                ChannelError::DatabaseError(e),
            ),
        },
{
    match stored {
        Err(e) => Err(ChannelError::DatabaseError(e)),
        Ok(rows) => {
            let mut items: Vec<ChannelListItem> = Vec::new();
            let mut i: usize = 0;
            while i < rows.len()
                invariant
                    i <= rows@.len(),
                    items@.len() == i,
                    forall|k: int| 0 <= k < i ==> lists(rows@[k], #[trigger] items@[k]),
                decreases rows@.len() - i,
            {
                let row = &rows[i];
                items.push(
                    ChannelListItem {
                        channel_id: row.channel.channel_id,
                        name: row.channel.name.clone(),
                        owner_user_id: row.channel.owner_user_id,
                        created_at: row.channel.created_at,
                        role: parse_role(row.role.as_str()),
                    },
                );
                i = i + 1;
            }
            Ok(items)
        },
    }
}

/// What the database answered.
#[derive(Debug)]
pub enum ChannelEvent {
    /// The membership of the user that was looked up.
    Membership(Option<StoredMembership>),
    Channel(Option<Channel>),
    /// The owner, by the channel or by the membership that says so.
    Owner(Option<Uuid>),
    Members(Vec<StoredMember>),
    /// Those who are banned, the last first.
    Bans(Vec<BannedMemberInfo>),
    /// The invites that can still be used, the newest first.
    Invites(Vec<ChannelInvite>),
    /// The channel of the invite that was used, where it was still good.
    InviteTaken(Option<Uuid>),
    InviteStored(ChannelInvite),
    /// Whether the membership was new.
    Joined(bool),
    Named(String),
    /// When the member was banned.
    BannedAt(UtcTime),
    /// How many rows were removed.
    Removed(u64),
    Updated,
    Failed(String),
}

/// What to do next, in one transaction, to create a channel.
#[derive(Debug)]
pub enum Creation {
    /// Store the channel, with the user as its owner.
    Store,
    /// Add the user to the channel in this role and commit.
    AddMember { channel: Channel, role: ChannelRole },
    Done(Result<Channel, ChannelError>),
}

/// That the event answers what was to be done.
pub open spec fn creation_fits(doing: Creation, event: ChannelEvent) -> bool {
    match doing {
        Creation::Store => (event is Channel && event->Channel_0 is Some) || event is Failed,
        Creation::AddMember { .. } => event is Updated || event is Failed,
        Creation::Done(_) => false,
    }
}

/// What to do first: a channel needs a valid name.
pub fn start_creation(name: &str) -> (first: Creation)
    ensures
        first == if 1 <= name@.len() <= MAX_NAME_CHARS {
            Creation::Store
        } else {
            Creation::Done(Err(ChannelError::InvalidName))
        },
{
    match validate_channel_name(name) {
        Ok(()) => Creation::Store,
        Err(e) => Creation::Done(Err(e)),
    }
}

/// What follows `doing` upon the event.
pub open spec fn creation_next(doing: Creation, event: ChannelEvent) -> Creation {
    match (doing, event) {
        (_, ChannelEvent::Failed(e)) => Creation::Done(Err(ChannelError::DatabaseError(e))),
        (Creation::Store, ChannelEvent::Channel(Some(channel))) => Creation::AddMember {
            channel,
            role: ChannelRole::Owner,
        },
        (Creation::AddMember { channel, .. }, _) => Creation::Done(Ok(channel)),
        (doing, _) => doing,
    }
}

/// Takes the creation of a channel one step further. Who creates it becomes its
/// owner.
pub fn create_channel(doing: Creation, event: ChannelEvent) -> (next: Creation)
    requires
        creation_fits(doing, event),
    ensures
        next == creation_next(doing, event),
{
    match (doing, event) {
        (_, ChannelEvent::Failed(e)) => Creation::Done(Err(ChannelError::DatabaseError(e))),
        (Creation::Store, ChannelEvent::Channel(Some(channel))) => Creation::AddMember {
            channel,
            role: ChannelRole::Owner,
        },
        (Creation::AddMember { channel, .. }, _) => Creation::Done(Ok(channel)),
        (doing, _) => doing,
    }
}

/// What to do next to show a channel.
#[derive(Debug)]
pub enum Detail {
    LoadMembership,
    LoadChannel { role: ChannelRole },
    /// Read who the membership says is the owner.
    LoadOwner { role: ChannelRole, channel: Channel },
    /// Read the members that are not banned.
    LoadMembers { role: ChannelRole, channel: Channel },
    Done(Result<ChannelDetail, ChannelError>),
}

/// That the event answers what was to be done.
pub open spec fn detail_fits(doing: Detail, event: ChannelEvent) -> bool {
    match doing {
        Detail::LoadMembership => event is Membership || event is Failed,
        Detail::LoadChannel { .. } => event is Channel || event is Failed,
        Detail::LoadOwner { .. } => event is Owner || event is Failed,
        Detail::LoadMembers { .. } => event is Members || event is Failed,
        Detail::Done(_) => false,
    }
}

/// That a member is shown as it is stored.
pub open spec fn shows_member(row: StoredMember, info: ChannelMemberInfo) -> bool {
    &&& info.user_id == row.user_id
    &&& info.role == role_of(row.role@)
    &&& info.joined_at == row.joined_at
    &&& info.display_name == row.display_name
}

/// That the members are shown as they are stored, in their order.
pub open spec fn shows_members(rows: Seq<StoredMember>, infos: Seq<ChannelMemberInfo>) -> bool {
    &&& infos.len() == rows.len()
    &&& forall|i: int| 0 <= i < rows.len() ==> shows_member(#[trigger] rows[i], infos[i])
}

/// That `next` follows `doing` upon the event.
pub open spec fn detail_follows(doing: Detail, event: ChannelEvent, next: Detail) -> bool {
    match (doing, event) {
        (_, ChannelEvent::Failed(e)) => next == Detail::Done(Err(ChannelError::DatabaseError(e))),
        (Detail::LoadMembership, ChannelEvent::Membership(membership)) => next
            == match membership {
            None => Detail::Done(Err(ChannelError::NotMember)),
            Some(m) => if m.banned_at is Some {
                Detail::Done(Err(ChannelError::Banned))
            } else {
                Detail::LoadChannel { role: role_of(m.role@) }
            },
        },
        (Detail::LoadChannel { role }, ChannelEvent::Channel(channel)) => next == match channel {
            None => Detail::Done(Err(ChannelError::ChannelNotFound)),
            Some(channel) => Detail::LoadOwner { role, channel },
        },
        (Detail::LoadOwner { role, channel }, ChannelEvent::Owner(owner)) => next == if owner
            == Some(channel.owner_user_id) {
            Detail::LoadMembers { role, channel }
        } else {
            Detail::Done(Err(ChannelError::OwnerConsistencyViolation))
        },
        (Detail::LoadMembers { role, channel }, ChannelEvent::Members(rows)) => match next {
            Detail::Done(Ok(d)) => d.channel_id == channel.channel_id && d.name == channel.name
                && d.owner_user_id == channel.owner_user_id && d.created_at == channel.created_at
                && d.role == role && shows_members(rows@, d.members@),
            _ => false,
        },
        _ => false,
    }
}

fn member_infos(rows: &Vec<StoredMember>) -> (infos: Vec<ChannelMemberInfo>)
    ensures
        shows_members(rows@, infos@),
{
    let mut infos: Vec<ChannelMemberInfo> = Vec::new();
    let mut i: usize = 0;
    while i < rows.len()
        invariant
            i <= rows@.len(),
            infos@.len() == i,
            forall|k: int| 0 <= k < i ==> shows_member(#[trigger] rows@[k], infos@[k]),
        decreases rows@.len() - i,
    {
        let row = &rows[i];
        infos.push(
            ChannelMemberInfo {
                user_id: row.user_id,
                role: parse_role(row.role.as_str()),
                joined_at: row.joined_at,
                display_name: row.display_name.clone(),
            },
        );
        i = i + 1;
    }
    infos
}

/// Takes the showing of a channel one step further. Only a member who is not
/// banned sees it, and only where channel and memberships agree on the owner.
pub fn get_channel_detail(doing: Detail, event: ChannelEvent) -> (next: Detail)
    requires
        detail_fits(doing, event),
    ensures
        detail_follows(doing, event, next),
{
    match (doing, event) {
        (_, ChannelEvent::Failed(e)) => Detail::Done(Err(ChannelError::DatabaseError(e))),
        (Detail::LoadMembership, ChannelEvent::Membership(membership)) => match membership {
            None => Detail::Done(Err(ChannelError::NotMember)),
            Some(m) => if m.banned_at.is_some() {
                Detail::Done(Err(ChannelError::Banned))
            } else {
                Detail::LoadChannel { role: parse_role(m.role.as_str()) }
            },
        },
        (Detail::LoadChannel { role }, ChannelEvent::Channel(channel)) => match channel {
            None => Detail::Done(Err(ChannelError::ChannelNotFound)),
            Some(channel) => Detail::LoadOwner { role, channel },
        },
        (Detail::LoadOwner { role, channel }, ChannelEvent::Owner(owner)) => match owner {
            None => Detail::Done(Err(ChannelError::OwnerConsistencyViolation)),
            Some(owner) => if owner != channel.owner_user_id {
                Detail::Done(Err(ChannelError::OwnerConsistencyViolation))
            } else {
                Detail::LoadMembers { role, channel }
            },
        },
        (Detail::LoadMembers { role, channel }, ChannelEvent::Members(rows)) => Detail::Done(
            Ok(
                ChannelDetail {
                    channel_id: channel.channel_id,
                    name: channel.name,
                    owner_user_id: channel.owner_user_id,
                    created_at: channel.created_at,
                    role,
                    members: member_infos(&rows),
                },
            ),
        ),
        (doing, _) => doing,
    }
}

/// A channel is shown only to a member who is not banned, in the role stored,
/// and only where its owner is the one that the memberships name.
pub proof fn law_detail_needs_membership_and_one_owner(
    membership: ChannelEvent,
    channel: ChannelEvent,
    owner: ChannelEvent,
    members: ChannelEvent,
    second: Detail,
    third: Detail,
    fourth: Detail,
    last: Detail,
)
    requires
        detail_fits(Detail::LoadMembership, membership),
        detail_follows(Detail::LoadMembership, membership, second),
        detail_fits(second, channel),
        detail_follows(second, channel, third),
        detail_fits(third, owner),
        detail_follows(third, owner, fourth),
        detail_fits(fourth, members),
        detail_follows(fourth, members, last),
    ensures
        last is Done,
        last->Done_0 is Ok ==> ({
            let d = last->Done_0->Ok_0;
            &&& membership->Membership_0 is Some
            &&& membership->Membership_0->0.banned_at is None
            &&& d.role == role_of(membership->Membership_0->0.role@)
            &&& channel->Channel_0 is Some
            &&& d.channel_id == channel->Channel_0->0.channel_id
            &&& d.owner_user_id == channel->Channel_0->0.owner_user_id
            &&& owner->Owner_0 == Some(d.owner_user_id)
            &&& shows_members(members->Members_0@, d.members@)
        }),
{
}

/// What to do next to delete a channel.
#[derive(Debug)]
pub enum Deletion {
    /// Read the channel's owner.
    LoadOwner,
    Delete,
    Done(Result<(), ChannelError>),
}

/// That the event answers what was to be done.
pub open spec fn deletion_fits(doing: Deletion, event: ChannelEvent) -> bool {
    match doing {
        Deletion::LoadOwner => event is Owner || event is Failed,
        Deletion::Delete => event is Updated || event is Failed,
        Deletion::Done(_) => false,
    }
}

/// What follows `doing` upon the event.
pub open spec fn deletion_next(doing: Deletion, event: ChannelEvent, user_id: Uuid) -> Deletion {
    match (doing, event) {
        (_, ChannelEvent::Failed(e)) => Deletion::Done(Err(ChannelError::DatabaseError(e))),
        (Deletion::LoadOwner, ChannelEvent::Owner(owner)) => match owner {
            None => Deletion::Done(Err(ChannelError::ChannelNotFound)),
            Some(owner) => if owner == user_id {
                Deletion::Delete
            } else {
                Deletion::Done(Err(ChannelError::Forbidden))
            },
        },
        (Deletion::Delete, _) => Deletion::Done(Ok(())),
        (doing, _) => doing,
    }
}

/// Takes the deletion of a channel one step further. Only the owner deletes it.
pub fn delete_channel(doing: Deletion, event: ChannelEvent, user_id: Uuid) -> (next: Deletion)
    requires
        deletion_fits(doing, event),
    ensures
        next == deletion_next(doing, event, user_id),
{
    match (doing, event) {
        (_, ChannelEvent::Failed(e)) => Deletion::Done(Err(ChannelError::DatabaseError(e))),
        (Deletion::LoadOwner, ChannelEvent::Owner(owner)) => match owner {
            None => Deletion::Done(Err(ChannelError::ChannelNotFound)),
            Some(owner) => if owner != user_id {
                Deletion::Done(Err(ChannelError::Forbidden))
            } else {
                Deletion::Delete
            },
        },
        (Deletion::Delete, _) => Deletion::Done(Ok(())),
        (doing, _) => doing,
    }
}

/// What to do next to make an invite.
#[derive(Debug)]
pub enum InviteCreation {
    LoadMembership,
    /// Store the invite.
    Store { code: String, expires_at: Option<UtcTime>, max_uses: Option<i32> },
    Done(Result<ChannelInvite, ChannelError>),
}

/// That the event answers what was to be done.
pub open spec fn invite_creation_fits(doing: InviteCreation, event: ChannelEvent) -> bool {
    match doing {
        InviteCreation::LoadMembership => event is Membership || event is Failed,
        InviteCreation::Store { .. } => event is InviteStored || event is Failed,
        InviteCreation::Done(_) => false,
    }
}

/// That `next` follows `doing` upon the event.
pub open spec fn invite_creation_follows(
    doing: InviteCreation,
    event: ChannelEvent,
    now: UtcTime,
    expires_in_secs: Option<i64>,
    max_uses: Option<i32>,
    next: InviteCreation,
) -> bool {
    match (doing, event) {
        (_, ChannelEvent::Failed(e)) => next == InviteCreation::Done(
            Err(ChannelError::DatabaseError(e)),
        ),
        (InviteCreation::LoadMembership, ChannelEvent::Membership(membership)) => if manager_role(
            membership,
        ) is None {
            next == InviteCreation::Done(Err(ChannelError::Forbidden))
        } else {
            match next {
                InviteCreation::Store { code, expires_at, max_uses: m } => is_invite_code(code@) && m
                    == max_uses && match expires_in_secs {
                    Some(secs) => expires_at matches Some(t) && t@ == now@ + secs * calendar::NANOS,
                    None => expires_at is None,
                },
                _ => false,
            }
        },
        (InviteCreation::Store { .. }, ChannelEvent::InviteStored(invite)) => next
            == InviteCreation::Done(Ok(invite)),
        _ => false,
    }
}

/// Takes the making of an invite one step further. Owners and admins make them.
pub fn create_invite(
    doing: InviteCreation,
    event: ChannelEvent,
    now: UtcTime,
    expires_in_secs: Option<i64>,
    max_uses: Option<i32>,
) -> (next: InviteCreation)
    requires
        invite_creation_fits(doing, event),
        event is Membership && manager_role(event->Membership_0) is Some && expires_in_secs is Some
            ==> calendar::representable(now@ + expires_in_secs->0 * calendar::NANOS),
    ensures
        invite_creation_follows(doing, event, now, expires_in_secs, max_uses, next),
{
    match (doing, event) {
        (_, ChannelEvent::Failed(e)) => InviteCreation::Done(Err(ChannelError::DatabaseError(e))),
        (InviteCreation::LoadMembership, ChannelEvent::Membership(membership)) => {
            match require_manager(&membership) {
                Err(e) => InviteCreation::Done(Err(e)),
                Ok(_) => {
                    let expires_at = match expires_in_secs {
                        Some(secs) => now.checked_add_secs(secs),
                        None => None,
                    };
                    InviteCreation::Store { code: generate_invite_code(), expires_at, max_uses }
                },
            }
        },
        (InviteCreation::Store { .. }, ChannelEvent::InviteStored(invite)) => InviteCreation::Done(
            Ok(invite),
        ),
        (doing, _) => doing,
    }
}

/// What to do next, in one transaction, to join a channel. A transaction that
/// does not come to its end is rolled back, the use of the invite with it.
#[derive(Debug)]
pub enum Joining {
    /// Count one more use of the invite, where it is neither expired nor used up.
    TakeInvite,
    LoadMembership { channel_id: Uuid },
    /// Add the membership, where there is none.
    Join { channel_id: Uuid },
    /// Read the channel's name and commit.
    LoadName { channel_id: Uuid },
    Done(Result<JoinResult, ChannelError>),
}

/// That the event answers what was to be done.
pub open spec fn joining_fits(doing: Joining, event: ChannelEvent) -> bool {
    match doing {
        Joining::TakeInvite => event is InviteTaken || event is Failed,
        Joining::LoadMembership { .. } => event is Membership || event is Failed,
        Joining::Join { .. } => event is Joined || event is Failed,
        Joining::LoadName { .. } => event is Named || event is Failed,
        Joining::Done(_) => false,
    }
}

/// What follows `doing` upon the event.
pub open spec fn joining_next(doing: Joining, event: ChannelEvent) -> Joining {
    match (doing, event) {
        (_, ChannelEvent::Failed(e)) => Joining::Done(Err(ChannelError::DatabaseError(e))),
        (Joining::TakeInvite, ChannelEvent::InviteTaken(taken)) => match taken {
            None => Joining::Done(Err(ChannelError::InvalidInvite)),
            Some(channel_id) => Joining::LoadMembership { channel_id },
        },
        (Joining::LoadMembership { channel_id }, ChannelEvent::Membership(membership)) => {
            match membership {
                Some(m) => if m.banned_at is Some {
                    Joining::Done(Err(ChannelError::Banned))
                } else {
                    Joining::Done(Err(ChannelError::AlreadyMember))
                },
                None => Joining::Join { channel_id },
            }
        },
        (Joining::Join { channel_id }, ChannelEvent::Joined(new)) => if new {
            Joining::LoadName { channel_id }
        } else {
            Joining::Done(Err(ChannelError::AlreadyMember))
        },
        (Joining::LoadName { channel_id }, ChannelEvent::Named(name)) => Joining::Done(
            Ok(JoinResult { channel_id, name, role: ChannelRole::Member }),
        ),
        (doing, _) => doing,
    }
}

/// Takes the joining of a channel one step further.
pub fn join_channel_by_invite(doing: Joining, event: ChannelEvent) -> (next: Joining)
    requires
        joining_fits(doing, event),
    ensures
        next == joining_next(doing, event),
{
    match (doing, event) {
        (_, ChannelEvent::Failed(e)) => Joining::Done(Err(ChannelError::DatabaseError(e))),
        (Joining::TakeInvite, ChannelEvent::InviteTaken(taken)) => match taken {
            None => Joining::Done(Err(ChannelError::InvalidInvite)),
            Some(channel_id) => Joining::LoadMembership { channel_id },
        },
        (Joining::LoadMembership { channel_id }, ChannelEvent::Membership(membership)) => {
            match membership {
                Some(m) => if m.banned_at.is_some() {
                    Joining::Done(Err(ChannelError::Banned))
                } else {
                    Joining::Done(Err(ChannelError::AlreadyMember))
                },
                None => Joining::Join { channel_id },
            }
        },
        (Joining::Join { channel_id }, ChannelEvent::Joined(new)) => if new {
            Joining::LoadName { channel_id }
        } else {
            Joining::Done(Err(ChannelError::AlreadyMember))
        },
        (Joining::LoadName { channel_id }, ChannelEvent::Named(name)) => Joining::Done(
            Ok(JoinResult { channel_id, name, role: ChannelRole::Member }),
        ),
        (doing, _) => doing,
    }
}

/// Someone joins exactly where the invite could be used, there was no membership
/// before, banned or not, and none came in between; and becomes a plain member
/// of the invite's channel.
pub proof fn law_joining_makes_plain_members(
    taken: ChannelEvent,
    membership: ChannelEvent,
    joined: ChannelEvent,
    named: ChannelEvent,
)
    ensures
        ({
            let second = joining_next(Joining::TakeInvite, taken);
            let third = joining_next(second, membership);
            let fourth = joining_next(third, joined);
            let last = joining_next(fourth, named);
            joining_fits(Joining::TakeInvite, taken) && joining_fits(second, membership)
                && joining_fits(third, joined) && joining_fits(fourth, named) ==> {
                &&& taken->InviteTaken_0 is Some
                &&& membership->Membership_0 is None
                &&& joined->Joined_0
                &&& last is Done
                &&& last->Done_0 is Ok <==> named is Named
                &&& named is Named ==> last->Done_0->Ok_0 == JoinResult {
                    channel_id: taken->InviteTaken_0->0,
                    name: named->Named_0,
                    role: ChannelRole::Member,
                }
            }
        }),
        forall|doing: Joining, event: ChannelEvent|
            #![trigger joining_next(doing, event)]
            joining_fits(doing, event) && joining_next(doing, event) is Done
                && joining_next(doing, event)->Done_0 is Ok ==> doing is LoadName,
{
}

/// What to do next to leave a channel.
#[derive(Debug)]
pub enum Leaving {
    LoadMembership,
    Remove,
    Done(Result<(), ChannelError>),
}

/// That the event answers what was to be done.
pub open spec fn leaving_fits(doing: Leaving, event: ChannelEvent) -> bool {
    match doing {
        Leaving::LoadMembership => event is Membership || event is Failed,
        Leaving::Remove => event is Removed || event is Failed,
        Leaving::Done(_) => false,
    }
}

/// What follows `doing` upon the event.
pub open spec fn leaving_next(doing: Leaving, event: ChannelEvent) -> Leaving {
    match (doing, event) {
        (_, ChannelEvent::Failed(e)) => Leaving::Done(Err(ChannelError::DatabaseError(e))),
        (Leaving::LoadMembership, ChannelEvent::Membership(membership)) => match membership {
            None => Leaving::Done(Err(ChannelError::NotMember)),
            Some(m) => if m.banned_at is Some {
                Leaving::Done(Err(ChannelError::Banned))
            } else if role_of(m.role@) == ChannelRole::Owner {
                Leaving::Done(Err(ChannelError::OwnerCannotLeave))
            } else {
                Leaving::Remove
            },
        },
        (Leaving::Remove, _) => Leaving::Done(Ok(())),
        (doing, _) => doing,
    }
}

/// Takes the leaving of a channel one step further. The owner cannot leave, nor
/// can someone who is banned.
pub fn leave_channel(doing: Leaving, event: ChannelEvent) -> (next: Leaving)
    requires
        leaving_fits(doing, event),
    ensures
        next == leaving_next(doing, event),
{
    match (doing, event) {
        (_, ChannelEvent::Failed(e)) => Leaving::Done(Err(ChannelError::DatabaseError(e))),
        (Leaving::LoadMembership, ChannelEvent::Membership(membership)) => match membership {
            None => Leaving::Done(Err(ChannelError::NotMember)),
            Some(m) => if m.banned_at.is_some() {
                Leaving::Done(Err(ChannelError::Banned))
            } else if parse_role(m.role.as_str()) == ChannelRole::Owner {
                Leaving::Done(Err(ChannelError::OwnerCannotLeave))
            } else {
                Leaving::Remove
            },
        },
        (Leaving::Remove, _) => Leaving::Done(Ok(())),
        (doing, _) => doing,
    }
}

/// What to do next to revoke an invite.
#[derive(Debug)]
pub enum Revocation {
    LoadMembership,
    /// Remove the invite from the channel.
    Remove,
    Done(Result<(), ChannelError>),
}

/// That the event answers what was to be done.
pub open spec fn revocation_fits(doing: Revocation, event: ChannelEvent) -> bool {
    match doing {
        Revocation::LoadMembership => event is Membership || event is Failed,
        Revocation::Remove => event is Removed || event is Failed,
        Revocation::Done(_) => false,
    }
}

/// What follows `doing` upon the event.
pub open spec fn revocation_next(doing: Revocation, event: ChannelEvent) -> Revocation {
    match (doing, event) {
        (_, ChannelEvent::Failed(e)) => Revocation::Done(Err(ChannelError::DatabaseError(e))),
        (Revocation::LoadMembership, ChannelEvent::Membership(membership)) => if manager_role(
            membership,
        ) is Some {
            Revocation::Remove
        } else {
            Revocation::Done(Err(ChannelError::Forbidden))
        },
        (Revocation::Remove, ChannelEvent::Removed(n)) => if n == 0 {
            Revocation::Done(Err(ChannelError::InviteNotFound))
        } else {
            Revocation::Done(Ok(()))
        },
        (doing, _) => doing,
    }
}

/// Takes the revoking of an invite one step further. Owners and admins revoke.
pub fn revoke_invite(doing: Revocation, event: ChannelEvent) -> (next: Revocation)
    requires
        revocation_fits(doing, event),
    ensures
        next == revocation_next(doing, event),
{
    match (doing, event) {
        (_, ChannelEvent::Failed(e)) => Revocation::Done(Err(ChannelError::DatabaseError(e))),
        (Revocation::LoadMembership, ChannelEvent::Membership(membership)) => {
            match require_manager(&membership) {
                Ok(_) => Revocation::Remove,
                Err(e) => Revocation::Done(Err(e)),
            }
        },
        (Revocation::Remove, ChannelEvent::Removed(n)) => if n == 0 {
            Revocation::Done(Err(ChannelError::InviteNotFound))
        } else {
            Revocation::Done(Ok(()))
        },
        (doing, _) => doing,
    }
}

/// What to do next to list those who are banned.
#[derive(Debug)]
pub enum BanListing {
    LoadMembership,
    LoadBans,
    Done(Result<Vec<BannedMemberInfo>, ChannelError>),
}

/// That the event answers what was to be done.
pub open spec fn ban_listing_fits(doing: BanListing, event: ChannelEvent) -> bool {
    match doing {
        BanListing::LoadMembership => event is Membership || event is Failed,
        BanListing::LoadBans => event is Bans || event is Failed,
        BanListing::Done(_) => false,
    }
}

/// What follows `doing` upon the event.
pub open spec fn ban_listing_next(doing: BanListing, event: ChannelEvent) -> BanListing {
    match (doing, event) {
        (_, ChannelEvent::Failed(e)) => BanListing::Done(Err(ChannelError::DatabaseError(e))),
        (BanListing::LoadMembership, ChannelEvent::Membership(membership)) => if manager_role(
            membership,
        ) is Some {
            BanListing::LoadBans
        } else {
            BanListing::Done(Err(ChannelError::Forbidden))
        },
        (BanListing::LoadBans, ChannelEvent::Bans(bans)) => BanListing::Done(Ok(bans)),
        (doing, _) => doing,
    }
}

/// Takes the listing of bans one step further. Owners and admins see them.
pub fn list_bans(doing: BanListing, event: ChannelEvent) -> (next: BanListing)
    requires
        ban_listing_fits(doing, event),
    ensures
        next == ban_listing_next(doing, event),
{
    match (doing, event) {
        (_, ChannelEvent::Failed(e)) => BanListing::Done(Err(ChannelError::DatabaseError(e))),
        (BanListing::LoadMembership, ChannelEvent::Membership(membership)) => {
            match require_manager(&membership) {
                Ok(_) => BanListing::LoadBans,
                Err(e) => BanListing::Done(Err(e)),
            }
        },
        (BanListing::LoadBans, ChannelEvent::Bans(bans)) => BanListing::Done(Ok(bans)),
        (doing, _) => doing,
    }
}

/// What to do next to list the invites that can still be used.
#[derive(Debug)]
pub enum InviteListing {
    LoadMembership,
    LoadInvites,
    Done(Result<Vec<ChannelInvite>, ChannelError>),
}

/// That the event answers what was to be done.
pub open spec fn invite_listing_fits(doing: InviteListing, event: ChannelEvent) -> bool {
    match doing {
        InviteListing::LoadMembership => event is Membership || event is Failed,
        InviteListing::LoadInvites => event is Invites || event is Failed,
        InviteListing::Done(_) => false,
    }
}

/// What follows `doing` upon the event.
pub open spec fn invite_listing_next(doing: InviteListing, event: ChannelEvent) -> InviteListing {
    match (doing, event) {
        (_, ChannelEvent::Failed(e)) => InviteListing::Done(Err(ChannelError::DatabaseError(e))),
        (InviteListing::LoadMembership, ChannelEvent::Membership(membership)) => if manager_role(
            membership,
        ) is Some {
            InviteListing::LoadInvites
        } else {
            InviteListing::Done(Err(ChannelError::Forbidden))
        },
        (InviteListing::LoadInvites, ChannelEvent::Invites(invites)) => InviteListing::Done(
            Ok(invites),
        ),
        (doing, _) => doing,
    }
}

/// Takes the listing of invites one step further. Owners and admins see them.
pub fn list_invites(doing: InviteListing, event: ChannelEvent) -> (next: InviteListing)
    requires
        invite_listing_fits(doing, event),
    ensures
        next == invite_listing_next(doing, event),
{
    match (doing, event) {
        (_, ChannelEvent::Failed(e)) => InviteListing::Done(Err(ChannelError::DatabaseError(e))),
        (InviteListing::LoadMembership, ChannelEvent::Membership(membership)) => {
            match require_manager(&membership) {
                Ok(_) => InviteListing::LoadInvites,
                Err(e) => InviteListing::Done(Err(e)),
            }
        },
        (InviteListing::LoadInvites, ChannelEvent::Invites(invites)) => InviteListing::Done(
            Ok(invites),
        ),
        (doing, _) => doing,
    }
}

/// What to do next, in one transaction, to ban a member.
#[derive(Debug)]
pub enum Banning {
    LoadRequester,
    LoadTarget { requester: ChannelRole },
    Ban,
    Done(Result<BanResult, ChannelError>),
}

/// That the event answers what was to be done.
pub open spec fn banning_fits(doing: Banning, event: ChannelEvent) -> bool {
    match doing {
        Banning::LoadRequester => event is Membership || event is Failed,
        Banning::LoadTarget { .. } => event is Membership || event is Failed,
        Banning::Ban => event is BannedAt || event is Failed,
        Banning::Done(_) => false,
    }
}

/// What to do first: nobody bans themselves.
pub fn start_ban(requester_user_id: Uuid, target_user_id: Uuid) -> (first: Banning)
    ensures
        first == if requester_user_id == target_user_id {
            Banning::Done(Err(ChannelError::SelfBan))
        } else {
            Banning::LoadRequester
        },
{
    if requester_user_id == target_user_id {
        Banning::Done(Err(ChannelError::SelfBan))
    } else {
        Banning::LoadRequester
    }
}

/// Why a manager of that role cannot ban the member.
pub open spec fn ban_refusal(
    requester: ChannelRole,
    target: Option<StoredMembership>,
) -> Option<ChannelError> {
    match target {
        None => Some(ChannelError::TargetNotMember),
        Some(m) => if role_of(m.role@) == ChannelRole::Owner {
            Some(ChannelError::CannotBanOwner)
        } else if requester == ChannelRole::Admin && role_of(m.role@) == ChannelRole::Admin {
            Some(ChannelError::InsufficientPrivileges)
        } else if m.banned_at is Some {
            Some(ChannelError::AlreadyBanned)
        } else {
            None
        },
    }
}

/// What follows `doing` upon the event.
pub open spec fn banning_next(
    doing: Banning,
    event: ChannelEvent,
    channel_id: Uuid,
    target_user_id: Uuid,
) -> Banning {
    match (doing, event) {
        (_, ChannelEvent::Failed(e)) => Banning::Done(Err(ChannelError::DatabaseError(e))),
        (Banning::LoadRequester, ChannelEvent::Membership(membership)) => match manager_role(
            membership,
        ) {
            Some(requester) => Banning::LoadTarget { requester },
            None => Banning::Done(Err(ChannelError::Forbidden)),
        },
        (Banning::LoadTarget { requester }, ChannelEvent::Membership(target)) => {
            match ban_refusal(requester, target) {
                Some(e) => Banning::Done(Err(e)),
                None => Banning::Ban,
            }
        },
        (Banning::Ban, ChannelEvent::BannedAt(banned_at)) => Banning::Done(
            Ok(BanResult { channel_id, user_id: target_user_id, banned_at }),
        ),
        (doing, _) => doing,
    }
}

/// Takes the banning of a member one step further. Owners and admins ban; the
/// owner is never banned, and an admin only by the owner.
pub fn ban_member(
    doing: Banning,
    event: ChannelEvent,
    channel_id: Uuid,
    target_user_id: Uuid,
) -> (next: Banning)
    requires
        banning_fits(doing, event),
    ensures
        next == banning_next(doing, event, channel_id, target_user_id),
{
    match (doing, event) {
        (_, ChannelEvent::Failed(e)) => Banning::Done(Err(ChannelError::DatabaseError(e))),
        (Banning::LoadRequester, ChannelEvent::Membership(membership)) => {
            match require_manager(&membership) {
                Ok(requester) => Banning::LoadTarget { requester },
                Err(e) => Banning::Done(Err(e)),
            }
        },
        (Banning::LoadTarget { requester }, ChannelEvent::Membership(target)) => match target {
            None => Banning::Done(Err(ChannelError::TargetNotMember)),
            Some(m) => {
                let role = parse_role(m.role.as_str());
                if role == ChannelRole::Owner {
                    Banning::Done(Err(ChannelError::CannotBanOwner))
                } else if requester == ChannelRole::Admin && role == ChannelRole::Admin {
                    Banning::Done(Err(ChannelError::InsufficientPrivileges))
                } else if m.banned_at.is_some() {
                    Banning::Done(Err(ChannelError::AlreadyBanned))
                } else {
                    Banning::Ban
                }
            },
        },
        (Banning::Ban, ChannelEvent::BannedAt(banned_at)) => Banning::Done(
            Ok(BanResult { channel_id, user_id: target_user_id, banned_at }),
        ),
        (doing, _) => doing,
    }
}

/// A ban is carried out exactly where an owner or admin who is not banned bans
/// a member who is neither the owner nor banned yet, and an admin no admin.
pub proof fn law_bans_respect_rank(
    requester: ChannelEvent,
    target: ChannelEvent,
    channel_id: Uuid,
    target_user_id: Uuid,
)
    ensures
        ({
            let second = banning_next(
                Banning::LoadRequester,
                requester,
                channel_id,
                target_user_id,
            );
            let third = banning_next(second, target, channel_id, target_user_id);
            let manager = manager_role(requester->Membership_0);
            let member = target->Membership_0;
            banning_fits(Banning::LoadRequester, requester) && banning_fits(second, target) ==> {
                &&& manager is Some
                &&& third is Ban <==> {
                    &&& target is Membership
                    &&& member is Some
                    &&& role_of(member->0.role@) != ChannelRole::Owner
                    &&& member->0.banned_at is None
                    &&& manager == Some(ChannelRole::Owner) || role_of(member->0.role@)
                        == ChannelRole::Member
                }
            }
        }),
        forall|doing: Banning, event: ChannelEvent|
            #![trigger banning_next(doing, event, channel_id, target_user_id)]
            banning_fits(doing, event) && banning_next(
                doing,
                event,
                channel_id,
                target_user_id,
            ) is Done && banning_next(doing, event, channel_id, target_user_id)->Done_0 is Ok
                ==> doing is Ban,
{
}

/// What to do next, in one transaction, to unban a member.
#[derive(Debug)]
pub enum Unbanning {
    LoadRequester,
    LoadTarget,
    Unban,
    Done(Result<(), ChannelError>),
}

/// That the event answers what was to be done.
pub open spec fn unbanning_fits(doing: Unbanning, event: ChannelEvent) -> bool {
    match doing {
        Unbanning::LoadRequester | Unbanning::LoadTarget => event is Membership || event is Failed,
        Unbanning::Unban => event is Updated || event is Failed,
        Unbanning::Done(_) => false,
    }
}

/// What follows `doing` upon the event.
pub open spec fn unbanning_next(doing: Unbanning, event: ChannelEvent) -> Unbanning {
    match (doing, event) {
        (_, ChannelEvent::Failed(e)) => Unbanning::Done(Err(ChannelError::DatabaseError(e))),
        (Unbanning::LoadRequester, ChannelEvent::Membership(membership)) => if manager_role(
            membership,
        ) is Some {
            Unbanning::LoadTarget
        } else {
            Unbanning::Done(Err(ChannelError::Forbidden))
        },
        (Unbanning::LoadTarget, ChannelEvent::Membership(target)) => match target {
            None => Unbanning::Done(Err(ChannelError::TargetNotMember)),
            Some(m) => if m.banned_at is None {
                Unbanning::Done(Err(ChannelError::TargetNotBanned))
            } else {
                Unbanning::Unban
            },
        },
        (Unbanning::Unban, _) => Unbanning::Done(Ok(())),
        (doing, _) => doing,
    }
}

/// Takes the unbanning of a member one step further. Owners and admins unban.
pub fn unban_member(doing: Unbanning, event: ChannelEvent) -> (next: Unbanning)
    requires
        unbanning_fits(doing, event),
    ensures
        next == unbanning_next(doing, event),
{
    match (doing, event) {
        (_, ChannelEvent::Failed(e)) => Unbanning::Done(Err(ChannelError::DatabaseError(e))),
        (Unbanning::LoadRequester, ChannelEvent::Membership(membership)) => {
            match require_manager(&membership) {
                Ok(_) => Unbanning::LoadTarget,
                Err(e) => Unbanning::Done(Err(e)),
            }
        },
        (Unbanning::LoadTarget, ChannelEvent::Membership(target)) => match target {
            None => Unbanning::Done(Err(ChannelError::TargetNotMember)),
            Some(m) => if m.banned_at.is_none() {
                Unbanning::Done(Err(ChannelError::TargetNotBanned))
            } else {
                Unbanning::Unban
            },
        },
        (Unbanning::Unban, _) => Unbanning::Done(Ok(())),
        (doing, _) => doing,
    }
}

/// What to do next, in one transaction, to change a member's role.
#[derive(Debug)]
pub enum RoleChange {
    LoadRequester { role: ChannelRole },
    LoadTarget { role: ChannelRole },
    /// Give the target this role.
    Update { role: ChannelRole },
    Done(Result<RoleChangeResult, ChannelError>),
}

/// That the event answers what was to be done.
pub open spec fn role_change_fits(doing: RoleChange, event: ChannelEvent) -> bool {
    match doing {
        RoleChange::LoadRequester { .. } | RoleChange::LoadTarget { .. } => event is Membership
            || event is Failed,
        RoleChange::Update { .. } => event is Updated || event is Failed,
        RoleChange::Done(_) => false,
    }
}

/// What to do first: only the roles of admin and member can be assigned.
pub fn start_role_change(new_role: &str) -> (first: RoleChange)
    ensures
        first == match assigned_role(new_role@) {
            Some(role) => RoleChange::LoadRequester { role },
            None => RoleChange::Done(Err(ChannelError::InvalidRole)),
        },
{
    match parse_assignable_role(new_role) {
        Ok(role) => RoleChange::LoadRequester { role },
        Err(e) => RoleChange::Done(Err(e)),
    }
}

/// What follows `doing` upon the event.
pub open spec fn role_change_next(
    doing: RoleChange,
    event: ChannelEvent,
    channel_id: Uuid,
    requester_user_id: Uuid,
    target_user_id: Uuid,
) -> RoleChange {
    match (doing, event) {
        (_, ChannelEvent::Failed(e)) => RoleChange::Done(Err(ChannelError::DatabaseError(e))),
        (RoleChange::LoadRequester { role }, ChannelEvent::Membership(requester)) => {
            if manager_role(requester) != Some(ChannelRole::Owner) {
                RoleChange::Done(Err(ChannelError::Forbidden))
            } else if requester_user_id == target_user_id {
                RoleChange::Done(Err(ChannelError::CannotChangeOwnerRole))
            } else {
                RoleChange::LoadTarget { role }
            }
        },
        (RoleChange::LoadTarget { role }, ChannelEvent::Membership(target)) => match target {
            None => RoleChange::Done(Err(ChannelError::TargetNotMember)),
            Some(m) => if role_of(m.role@) == ChannelRole::Owner {
                RoleChange::Done(Err(ChannelError::CannotChangeOwnerRole))
            } else if m.banned_at is Some {
                RoleChange::Done(Err(ChannelError::CannotChangeBannedRole))
            } else {
                RoleChange::Update { role }
            },
        },
        (RoleChange::Update { role }, _) => RoleChange::Done(
            Ok(RoleChangeResult { channel_id, user_id: target_user_id, role }),
        ),
        (doing, _) => doing,
    }
}

/// Takes the change of a role one step further. Only the owner changes roles,
/// never the owner's own and never that of someone who is banned.
pub fn change_role(
    doing: RoleChange,
    event: ChannelEvent,
    channel_id: Uuid,
    requester_user_id: Uuid,
    target_user_id: Uuid,
) -> (next: RoleChange)
    requires
        role_change_fits(doing, event),
    ensures
        next == role_change_next(doing, event, channel_id, requester_user_id, target_user_id),
{
    match (doing, event) {
        (_, ChannelEvent::Failed(e)) => RoleChange::Done(Err(ChannelError::DatabaseError(e))),
        (RoleChange::LoadRequester { role }, ChannelEvent::Membership(requester)) => {
            let is_owner = match require_manager(&requester) {
                Ok(found) => found == ChannelRole::Owner,
                Err(_) => false,
            };
            if !is_owner {
                RoleChange::Done(Err(ChannelError::Forbidden))
            } else if requester_user_id == target_user_id {
                RoleChange::Done(Err(ChannelError::CannotChangeOwnerRole))
            } else {
                RoleChange::LoadTarget { role }
            }
        },
        (RoleChange::LoadTarget { role }, ChannelEvent::Membership(target)) => match target {
            None => RoleChange::Done(Err(ChannelError::TargetNotMember)),
            Some(m) => if parse_role(m.role.as_str()) == ChannelRole::Owner {
                RoleChange::Done(Err(ChannelError::CannotChangeOwnerRole))
            } else if m.banned_at.is_some() {
                RoleChange::Done(Err(ChannelError::CannotChangeBannedRole))
            } else {
                RoleChange::Update { role }
            },
        },
        (RoleChange::Update { role }, _) => RoleChange::Done(
            Ok(RoleChangeResult { channel_id, user_id: target_user_id, role }),
        ),
        (doing, _) => doing,
    }
}

/// A role is changed exactly where an owner who is not banned changes that of
/// another member who is neither an owner nor banned; and the role given is the
/// one asked for, which is never that of owner.
pub proof fn law_role_changes_keep_one_owner(
    role: ChannelRole,
    requester: ChannelEvent,
    target: ChannelEvent,
    channel_id: Uuid,
    requester_user_id: Uuid,
    target_user_id: Uuid,
)
    ensures
        forall|text: Seq<char>| #[trigger] assigned_role(text) != Some(ChannelRole::Owner),
        ({
            let first = RoleChange::LoadRequester { role };
            let second = role_change_next(
                first,
                requester,
                channel_id,
                requester_user_id,
                target_user_id,
            );
            let third = role_change_next(
                second,
                target,
                channel_id,
                requester_user_id,
                target_user_id,
            );
            let member = target->Membership_0;
            role_change_fits(first, requester) && role_change_fits(second, target) ==> {
                &&& manager_role(requester->Membership_0) == Some(ChannelRole::Owner)
                &&& requester_user_id != target_user_id
                &&& third is Update <==> {
                    &&& target is Membership
                    &&& member is Some
                    &&& role_of(member->0.role@) != ChannelRole::Owner
                    &&& member->0.banned_at is None
                }
                &&& third is Update ==> third->Update_role == role
            }
        }),
        forall|doing: RoleChange, event: ChannelEvent|
            #![trigger role_change_next(
                doing,
                event,
                channel_id,
                requester_user_id,
                target_user_id,
            )]
            role_change_fits(doing, event) ==> ({
                let next = role_change_next(
                    doing,
                    event,
                    channel_id,
                    requester_user_id,
                    target_user_id,
                );
                next is Done && next->Done_0 is Ok ==> doing is Update && next->Done_0->Ok_0.role
                    == doing->Update_role
            }),
{
}

/// Whether the membership is that of an owner or admin who is not banned.
pub open spec fn manages(membership: Option<StoredMembership>) -> bool {
    &&& membership is Some
    &&& membership->0.banned_at is None
    &&& membership->0.role@ == "owner"@ || membership->0.role@ == "admin"@
}

/// A stored role is that of an owner or admin exactly where its text says so, and
/// a manager is an owner or admin who is not banned.
pub proof fn law_managers_are_owners_and_admins(membership: Option<StoredMembership>)
    ensures
        manager_role(membership) is Some <==> manages(membership),
        manages(membership) ==> manager_role(membership) == Some(role_of(membership->0.role@)),
        membership is Some ==> {
            &&& role_of(membership->0.role@) == ChannelRole::Owner <==> membership->0.role@
                == "owner"@
            &&& role_of(membership->0.role@) == ChannelRole::Admin <==> membership->0.role@
                == "admin"@
        },
{
    law_role_names_read_back(ChannelRole::Owner);
    law_role_names_read_back(ChannelRole::Admin);
}

/// A member is unbanned exactly where an owner or admin who is not banned asks and
/// the member is banned; the answer is success only once the ban was lifted.
pub proof fn law_unbans_lift_bans(
    requester: Option<StoredMembership>,
    target: Option<StoredMembership>,
    second: Unbanning,
    third: Unbanning,
    doing: Unbanning,
    event: ChannelEvent,
    next: Unbanning,
)
    requires
        call_ensures(
            unban_member,
            (Unbanning::LoadRequester, ChannelEvent::Membership(requester)),
            second,
        ),
        call_ensures(
            unban_member,
            (Unbanning::LoadTarget, ChannelEvent::Membership(target)),
            third,
        ),
        unbanning_fits(doing, event),
        call_ensures(unban_member, (doing, event), next),
    ensures
        second == if manages(requester) {
            Unbanning::LoadTarget
        } else {
            Unbanning::Done(Err(ChannelError::Forbidden))
        },
        third == Unbanning::Unban <==> target is Some && target->0.banned_at is Some,
        target is None ==> third == Unbanning::Done(Err(ChannelError::TargetNotMember)),
        target is Some && target->0.banned_at is None ==> third == Unbanning::Done(
            Err(ChannelError::TargetNotBanned),
        ),
        next == Unbanning::Done(Ok(())) <==> doing == Unbanning::Unban && event
            == ChannelEvent::Updated,
        next == Unbanning::LoadTarget ==> doing == Unbanning::LoadRequester,
        next == Unbanning::Unban ==> doing == Unbanning::LoadTarget,
        event is Failed ==> next == Unbanning::Done(
            Err(ChannelError::DatabaseError(event->Failed_0)),
        ),
{
    law_managers_are_owners_and_admins(requester);
}

/// Why a ban is refused: someone who does not manage the channel is forbidden to,
/// nobody bans themselves, an owner is never banned, an admin only by an owner,
/// and nobody twice. What is answered names the member and the time of the ban.
pub proof fn law_bans_are_refused_for_a_reason(
    channel_id: Uuid,
    requester_user_id: Uuid,
    target_user_id: Uuid,
    requester: Option<StoredMembership>,
    target: Option<StoredMembership>,
    first: Banning,
    second: Banning,
    third: Banning,
    doing: Banning,
    event: ChannelEvent,
    next: Banning,
)
    requires
        call_ensures(start_ban, (requester_user_id, target_user_id), first),
        call_ensures(
            ban_member,
            (
                Banning::LoadRequester,
                ChannelEvent::Membership(requester),
                channel_id,
                target_user_id,
            ),
            second,
        ),
        second is LoadTarget ==> call_ensures(
            ban_member,
            (second, ChannelEvent::Membership(target), channel_id, target_user_id),
            third,
        ),
        banning_fits(doing, event),
        call_ensures(ban_member, (doing, event, channel_id, target_user_id), next),
    ensures
        first == if requester_user_id == target_user_id {
            Banning::Done(Err(ChannelError::SelfBan))
        } else {
            Banning::LoadRequester
        },
        second is LoadTarget <==> manages(requester),
        !manages(requester) ==> second == Banning::Done(Err(ChannelError::Forbidden)),
        manages(requester) ==> third == if target is None {
            Banning::Done(Err(ChannelError::TargetNotMember))
        } else if target->0.role@ == "owner"@ {
            Banning::Done(Err(ChannelError::CannotBanOwner))
        } else if target->0.role@ == "admin"@ && requester->0.role@ != "owner"@ {
            Banning::Done(Err(ChannelError::InsufficientPrivileges))
        } else if target->0.banned_at is Some {
            Banning::Done(Err(ChannelError::AlreadyBanned))
        } else {
            Banning::Ban
        },
        next is Done && next->Done_0 is Ok <==> doing == Banning::Ban && event is BannedAt,
        doing == Banning::Ban && event is BannedAt ==> next->Done_0->Ok_0 == (BanResult {
            channel_id,
            user_id: target_user_id,
            banned_at: event->BannedAt_0,
        }),
        next == Banning::Ban ==> doing is LoadTarget,
        next is LoadTarget ==> doing == Banning::LoadRequester,
        event is Failed ==> next == Banning::Done(
            Err(ChannelError::DatabaseError(event->Failed_0)),
        ),
{
    law_managers_are_owners_and_admins(requester);
    law_managers_are_owners_and_admins(target);
    law_role_names_read_back(ChannelRole::Owner);
    law_role_names_read_back(ChannelRole::Admin);
}

/// A ban and its lifting undo each other: who was just banned can be unbanned by
/// whoever manages the channel, and who was just unbanned cannot be unbanned again.
pub proof fn law_bans_can_be_lifted(
    channel_id: Uuid,
    target_user_id: Uuid,
    requester: ChannelRole,
    before: StoredMembership,
    at: UtcTime,
    banning: Banning,
    banned: StoredMembership,
    unbanned: StoredMembership,
    lifting: Unbanning,
    again: Banning,
    twice: Unbanning,
)
    requires
        call_ensures(
            ban_member,
            (
                Banning::LoadTarget { requester },
                ChannelEvent::Membership(Some(before)),
                channel_id,
                target_user_id,
            ),
            banning,
        ),
        banning == Banning::Ban,
        banned.role == before.role && banned.banned_at == Some(at),
        unbanned.role == before.role && unbanned.banned_at is None,
        call_ensures(
            unban_member,
            (Unbanning::LoadTarget, ChannelEvent::Membership(Some(banned))),
            lifting,
        ),
        call_ensures(
            ban_member,
            (
                Banning::LoadTarget { requester },
                ChannelEvent::Membership(Some(banned)),
                channel_id,
                target_user_id,
            ),
            again,
        ),
        call_ensures(
            unban_member,
            (Unbanning::LoadTarget, ChannelEvent::Membership(Some(unbanned))),
            twice,
        ),
    ensures
        lifting == Unbanning::Unban,
        again == Banning::Done(Err(ChannelError::AlreadyBanned)),
        twice == Unbanning::Done(Err(ChannelError::TargetNotBanned)),
{
}

/// A role is changed only by an owner who is not banned, of someone else who is
/// neither an owner nor banned, to that of admin or member, as was asked.
pub proof fn law_role_changes_are_refused_for_a_reason(
    new_role: &str,
    channel_id: Uuid,
    requester_user_id: Uuid,
    target_user_id: Uuid,
    requester: Option<StoredMembership>,
    target: Option<StoredMembership>,
    role: ChannelRole,
    first: RoleChange,
    second: RoleChange,
    third: RoleChange,
    doing: RoleChange,
    event: ChannelEvent,
    next: RoleChange,
)
    requires
        call_ensures(start_role_change, (new_role,), first),
        call_ensures(
            change_role,
            (
                RoleChange::LoadRequester { role },
                ChannelEvent::Membership(requester),
                channel_id,
                requester_user_id,
                target_user_id,
            ),
            second,
        ),
        call_ensures(
            change_role,
            (
                RoleChange::LoadTarget { role },
                ChannelEvent::Membership(target),
                channel_id,
                requester_user_id,
                target_user_id,
            ),
            third,
        ),
        role_change_fits(doing, event),
        call_ensures(
            change_role,
            (doing, event, channel_id, requester_user_id, target_user_id),
            next,
        ),
    ensures
        first == if new_role@ == "admin"@ {
            RoleChange::LoadRequester { role: ChannelRole::Admin }
        } else if new_role@ == "member"@ {
            RoleChange::LoadRequester { role: ChannelRole::Member }
        } else {
            RoleChange::Done(Err(ChannelError::InvalidRole))
        },
        second == if !manages(requester) || requester->0.role@ != "owner"@ {
            RoleChange::Done(Err(ChannelError::Forbidden))
        } else if requester_user_id == target_user_id {
            RoleChange::Done(Err(ChannelError::CannotChangeOwnerRole))
        } else {
            RoleChange::LoadTarget { role }
        },
        third == if target is None {
            RoleChange::Done(Err(ChannelError::TargetNotMember))
        } else if target->0.role@ == "owner"@ {
            RoleChange::Done(Err(ChannelError::CannotChangeOwnerRole))
        } else if target->0.banned_at is Some {
            RoleChange::Done(Err(ChannelError::CannotChangeBannedRole))
        } else {
            RoleChange::Update { role }
        },
        next is Done && next->Done_0 is Ok <==> doing is Update && event == ChannelEvent::Updated,
        doing is Update && event == ChannelEvent::Updated ==> next->Done_0->Ok_0 == (
        RoleChangeResult { channel_id, user_id: target_user_id, role: doing->Update_role }),
        next is Update ==> doing is LoadTarget,
        event is Failed ==> next == RoleChange::Done(
            Err(ChannelError::DatabaseError(event->Failed_0)),
        ),
{
    law_managers_are_owners_and_admins(requester);
    law_managers_are_owners_and_admins(target);
    reveal_strlit("admin");
    reveal_strlit("member");
    assert("admin"@.len() == 5);
    assert("member"@.len() == 6);
}

/// A channel is created for a name of 1 to 100 characters; who creates it is
/// added as its owner, and only then is the channel that was stored the answer.
pub proof fn law_creators_own_their_channels(
    name: &str,
    channel: Channel,
    first: Creation,
    second: Creation,
    last: Creation,
    doing: Creation,
    event: ChannelEvent,
    next: Creation,
)
    requires
        call_ensures(start_creation, (name,), first),
        call_ensures(
            create_channel,
            (Creation::Store, ChannelEvent::Channel(Some(channel))),
            second,
        ),
        call_ensures(create_channel, (second, ChannelEvent::Updated), last),
        creation_fits(doing, event),
        call_ensures(create_channel, (doing, event), next),
    ensures
        first == if 1 <= name@.len() <= 100 {
            Creation::Store
        } else {
            Creation::Done(Err(ChannelError::InvalidName))
        },
        second == (Creation::AddMember { channel, role: ChannelRole::Owner }),
        last == Creation::Done(Ok(channel)),
        next is Done && next->Done_0 is Ok ==> doing is AddMember && event
            == ChannelEvent::Updated,
        event is Failed ==> next == Creation::Done(
            Err(ChannelError::DatabaseError(event->Failed_0)),
        ),
{
}

/// What a channel shows: to a member who is not banned, the channel as it is
/// stored, the role of the member, and each member as stored, in their order. The
/// others are told why not.
pub proof fn law_what_a_channel_shows(
    membership: Option<StoredMembership>,
    channel: Option<Channel>,
    owner: Option<Uuid>,
    members: Vec<StoredMember>,
    role: ChannelRole,
    stored: Channel,
    second: Detail,
    third: Detail,
    fourth: Detail,
    last: Detail,
    doing: Detail,
    event: ChannelEvent,
    next: Detail,
)
    requires
        call_ensures(
            get_channel_detail,
            (Detail::LoadMembership, ChannelEvent::Membership(membership)),
            second,
        ),
        call_ensures(
            get_channel_detail,
            (Detail::LoadChannel { role }, ChannelEvent::Channel(channel)),
            third,
        ),
        call_ensures(
            get_channel_detail,
            (Detail::LoadOwner { role, channel: stored }, ChannelEvent::Owner(owner)),
            fourth,
        ),
        call_ensures(
            get_channel_detail,
            (Detail::LoadMembers { role, channel: stored }, ChannelEvent::Members(members)),
            last,
        ),
        call_ensures(get_channel_detail, (doing, event), next),
    ensures
        membership is None ==> second == Detail::Done(Err(ChannelError::NotMember)),
        membership is Some && membership->0.banned_at is Some ==> second == Detail::Done(
            Err(ChannelError::Banned),
        ),
        membership is Some && membership->0.banned_at is None ==> second is LoadChannel && (
        second->LoadChannel_role == ChannelRole::Owner <==> membership->0.role@ == "owner"@) && (
        second->LoadChannel_role == ChannelRole::Admin <==> membership->0.role@ == "admin"@),
        channel is None ==> third == Detail::Done(Err(ChannelError::ChannelNotFound)),
        channel is Some ==> third == (Detail::LoadOwner { role, channel: channel->0 }),
        fourth == if owner == Some(stored.owner_user_id) {
            Detail::LoadMembers { role, channel: stored }
        } else {
            Detail::Done(Err(ChannelError::OwnerConsistencyViolation))
        },
        last is Done && last->Done_0 is Ok,
        ({
            let d = last->Done_0->Ok_0;
            &&& d.channel_id == stored.channel_id
            &&& d.name == stored.name
            &&& d.owner_user_id == stored.owner_user_id
            &&& d.created_at == stored.created_at
            &&& d.role == role
            &&& d.members@.len() == members@.len()
            &&& forall|i: int|
                0 <= i < members@.len() ==> {
                    &&& (#[trigger] d.members@[i]).user_id == members@[i].user_id
                    &&& d.members@[i].joined_at == members@[i].joined_at
                    &&& d.members@[i].display_name == members@[i].display_name
                    &&& d.members@[i].role == ChannelRole::Owner <==> members@[i].role@ == "owner"@
                    &&& d.members@[i].role == ChannelRole::Admin <==> members@[i].role@ == "admin"@
                }
        }),
        next is Done && next->Done_0 is Ok ==> doing is LoadMembers && event is Members,
        event is Failed ==> next == Detail::Done(
            Err(ChannelError::DatabaseError(event->Failed_0)),
        ),
{
    law_managers_are_owners_and_admins(membership);
    let d = last->Done_0->Ok_0;
    law_role_names_read_back(ChannelRole::Owner);
    law_role_names_read_back(ChannelRole::Admin);
    assert forall|i: int| 0 <= i < members@.len() implies {
        &&& (#[trigger] d.members@[i]).user_id == members@[i].user_id
        &&& d.members@[i].joined_at == members@[i].joined_at
        &&& d.members@[i].display_name == members@[i].display_name
        &&& d.members@[i].role == ChannelRole::Owner <==> members@[i].role@ == "owner"@
        &&& d.members@[i].role == ChannelRole::Admin <==> members@[i].role@ == "admin"@
    } by {
        assert(shows_member(members@[i], d.members@[i]));
    }
}

/// The channels of a user are listed as they are stored, none left out and in
/// their order, each with the role that its text says.
pub proof fn law_every_channel_is_listed(
    rows: Vec<StoredListing>,
    why: String,
    listed: Result<Vec<ChannelListItem>, ChannelError>,
    failed: Result<Vec<ChannelListItem>, ChannelError>,
)
    requires
        call_ensures(list_channels, (Ok(rows),), listed),
        call_ensures(list_channels, (Err(why),), failed),
    ensures
        failed == Err::<Vec<ChannelListItem>, ChannelError>(ChannelError::DatabaseError(why)),
        listed is Ok,
        ({
            let items = listed->Ok_0@;
            &&& items.len() == rows@.len()
            &&& forall|i: int|
                0 <= i < rows@.len() ==> {
                    &&& (#[trigger] items[i]).channel_id == rows@[i].channel.channel_id
                    &&& items[i].name == rows@[i].channel.name
                    &&& items[i].owner_user_id == rows@[i].channel.owner_user_id
                    &&& items[i].created_at == rows@[i].channel.created_at
                    &&& items[i].role == ChannelRole::Owner <==> rows@[i].role@ == "owner"@
                    &&& items[i].role == ChannelRole::Admin <==> rows@[i].role@ == "admin"@
                }
        }),
{
    let items = listed->Ok_0@;
    law_role_names_read_back(ChannelRole::Owner);
    law_role_names_read_back(ChannelRole::Admin);
    assert forall|i: int| 0 <= i < rows@.len() implies {
        &&& (#[trigger] items[i]).channel_id == rows@[i].channel.channel_id
        &&& items[i].name == rows@[i].channel.name
        &&& items[i].owner_user_id == rows@[i].channel.owner_user_id
        &&& items[i].created_at == rows@[i].channel.created_at
        &&& items[i].role == ChannelRole::Owner <==> rows@[i].role@ == "owner"@
        &&& items[i].role == ChannelRole::Admin <==> rows@[i].role@ == "admin"@
    } by {
        assert(lists(rows@[i], items[i]));
    }
}

/// A channel is deleted exactly by its owner, and success is the answer only once
/// it was.
pub proof fn law_only_the_owner_deletes(
    user_id: Uuid,
    owner: Option<Uuid>,
    second: Deletion,
    doing: Deletion,
    event: ChannelEvent,
    next: Deletion,
)
    requires
        call_ensures(
            delete_channel,
            (Deletion::LoadOwner, ChannelEvent::Owner(owner), user_id),
            second,
        ),
        deletion_fits(doing, event),
        call_ensures(delete_channel, (doing, event, user_id), next),
    ensures
        second == Deletion::Delete <==> owner == Some(user_id),
        owner is None ==> second == Deletion::Done(Err(ChannelError::ChannelNotFound)),
        owner is Some && owner->0 != user_id ==> second == Deletion::Done(
            Err(ChannelError::Forbidden),
        ),
        next == Deletion::Done(Ok(())) <==> doing == Deletion::Delete && event
            == ChannelEvent::Updated,
        event is Failed ==> next == Deletion::Done(
            Err(ChannelError::DatabaseError(event->Failed_0)),
        ),
{
}

/// An invite is made exactly by an owner or admin who is not banned: a fresh code,
/// with the uses asked for, that expires as many seconds from now as asked for, or
/// never. The answer is the invite that was stored.
pub proof fn law_managers_make_invites(
    membership: Option<StoredMembership>,
    now: UtcTime,
    expires_in_secs: Option<i64>,
    max_uses: Option<i32>,
    second: InviteCreation,
    doing: InviteCreation,
    event: ChannelEvent,
    next: InviteCreation,
)
    requires
        call_ensures(
            create_invite,
            (
                InviteCreation::LoadMembership,
                ChannelEvent::Membership(membership),
                now,
                expires_in_secs,
                max_uses,
            ),
            second,
        ),
        invite_creation_fits(doing, event),
        call_ensures(create_invite, (doing, event, now, expires_in_secs, max_uses), next),
    ensures
        second is Store <==> manages(membership),
        !manages(membership) ==> second == InviteCreation::Done(Err(ChannelError::Forbidden)),
        second is Store ==> {
            &&& second->Store_code@.len() == 22
            &&& second->Store_max_uses == max_uses
            &&& expires_in_secs is None <==> second->Store_expires_at is None
            &&& expires_in_secs is Some ==> second->Store_expires_at->0@ == now@
                + expires_in_secs->0 * 1_000_000_000
        },
        next is Done && next->Done_0 is Ok <==> doing is Store && event is InviteStored,
        doing is Store && event is InviteStored ==> next->Done_0->Ok_0 == event->InviteStored_0,
        event is Failed ==> next == InviteCreation::Done(
            Err(ChannelError::DatabaseError(event->Failed_0)),
        ),
{
    law_managers_are_owners_and_admins(membership);
}

/// Why joining is refused: an invite that could not be used is invalid, who is
/// banned stays out, and who is a member already is told so, also where that
/// came about in between. Nobody joins another channel than that of the invite.
pub proof fn law_joining_is_refused_for_a_reason(
    taken: Option<Uuid>,
    membership: Option<StoredMembership>,
    channel_id: Uuid,
    new: bool,
    name: String,
    second: Joining,
    third: Joining,
    fourth: Joining,
    last: Joining,
    doing: Joining,
    event: ChannelEvent,
    next: Joining,
)
    requires
        call_ensures(
            join_channel_by_invite,
            (Joining::TakeInvite, ChannelEvent::InviteTaken(taken)),
            second,
        ),
        call_ensures(
            join_channel_by_invite,
            (Joining::LoadMembership { channel_id }, ChannelEvent::Membership(membership)),
            third,
        ),
        call_ensures(
            join_channel_by_invite,
            (Joining::Join { channel_id }, ChannelEvent::Joined(new)),
            fourth,
        ),
        call_ensures(
            join_channel_by_invite,
            (Joining::LoadName { channel_id }, ChannelEvent::Named(name)),
            last,
        ),
        joining_fits(doing, event),
        call_ensures(join_channel_by_invite, (doing, event), next),
    ensures
        taken is None ==> second == Joining::Done(Err(ChannelError::InvalidInvite)),
        taken is Some ==> second == (Joining::LoadMembership { channel_id: taken->0 }),
        third == if membership is None {
            Joining::Join { channel_id }
        } else if membership->0.banned_at is Some {
            Joining::Done(Err(ChannelError::Banned))
        } else {
            Joining::Done(Err(ChannelError::AlreadyMember))
        },
        fourth == if new {
            Joining::LoadName { channel_id }
        } else {
            Joining::Done(Err(ChannelError::AlreadyMember))
        },
        last == Joining::Done(Ok(JoinResult { channel_id, name, role: ChannelRole::Member })),
        next is Done && next->Done_0 is Ok ==> doing is LoadName && event is Named,
        next is LoadName ==> doing is Join && event == ChannelEvent::Joined(true),
        next is Join ==> doing is LoadMembership,
        event is Failed ==> next == Joining::Done(
            Err(ChannelError::DatabaseError(event->Failed_0)),
        ),
{
}

/// Someone leaves exactly who is a member, not banned and not the owner; and
/// success is the answer only once the membership was removed.
pub proof fn law_who_may_leave(
    membership: Option<StoredMembership>,
    second: Leaving,
    doing: Leaving,
    event: ChannelEvent,
    next: Leaving,
)
    requires
        call_ensures(
            leave_channel,
            (Leaving::LoadMembership, ChannelEvent::Membership(membership)),
            second,
        ),
        leaving_fits(doing, event),
        call_ensures(leave_channel, (doing, event), next),
    ensures
        second == if membership is None {
            Leaving::Done(Err(ChannelError::NotMember))
        } else if membership->0.banned_at is Some {
            Leaving::Done(Err(ChannelError::Banned))
        } else if membership->0.role@ == "owner"@ {
            Leaving::Done(Err(ChannelError::OwnerCannotLeave))
        } else {
            Leaving::Remove
        },
        next == Leaving::Done(Ok(())) <==> doing == Leaving::Remove && event is Removed,
        event is Failed ==> next == Leaving::Done(
            Err(ChannelError::DatabaseError(event->Failed_0)),
        ),
{
    law_managers_are_owners_and_admins(membership);
}

/// Invites are revoked and listed, and bans listed, exactly for owners and admins
/// who are not banned. An invite is revoked where one was removed, and what is
/// listed is all that was read.
pub proof fn law_managers_see_and_revoke(
    membership: Option<StoredMembership>,
    removed: u64,
    bans: Vec<BannedMemberInfo>,
    invites: Vec<ChannelInvite>,
    revoking: Revocation,
    revoked: Revocation,
    listing_bans: BanListing,
    listed_bans: BanListing,
    listing_invites: InviteListing,
    listed_invites: InviteListing,
)
    requires
        call_ensures(
            revoke_invite,
            (Revocation::LoadMembership, ChannelEvent::Membership(membership)),
            revoking,
        ),
        call_ensures(
            revoke_invite,
            (Revocation::Remove, ChannelEvent::Removed(removed)),
            revoked,
        ),
        call_ensures(
            list_bans,
            (BanListing::LoadMembership, ChannelEvent::Membership(membership)),
            listing_bans,
        ),
        call_ensures(list_bans, (BanListing::LoadBans, ChannelEvent::Bans(bans)), listed_bans),
        call_ensures(
            list_invites,
            (InviteListing::LoadMembership, ChannelEvent::Membership(membership)),
            listing_invites,
        ),
        call_ensures(
            list_invites,
            (InviteListing::LoadInvites, ChannelEvent::Invites(invites)),
            listed_invites,
        ),
    ensures
        revoking == if manages(membership) {
            Revocation::Remove
        } else {
            Revocation::Done(Err(ChannelError::Forbidden))
        },
        revoked == if removed == 0 {
            Revocation::Done(Err(ChannelError::InviteNotFound))
        } else {
            Revocation::Done(Ok(()))
        },
        listing_bans == if manages(membership) {
            BanListing::LoadBans
        } else {
            BanListing::Done(Err(ChannelError::Forbidden))
        },
        listed_bans == BanListing::Done(Ok(bans)),
        listing_invites == if manages(membership) {
            InviteListing::LoadInvites
        } else {
            InviteListing::Done(Err(ChannelError::Forbidden))
        },
        listed_invites == InviteListing::Done(Ok(invites)),
{
    law_managers_are_owners_and_admins(membership);
}

/// Channels have names of one to a hundred characters. Stored roles are read by their
/// names, and only those of admins and members can be assigned.
pub proof fn law_names_and_roles_are_read(
    name: &str,
    valid: Result<(), ChannelError>,
    role: &str,
    stored: ChannelRole,
    assigned: Result<ChannelRole, ChannelError>,
)
    requires
        call_ensures(validate_channel_name, (name,), valid),
        call_ensures(parse_role, (role,), stored),
        call_ensures(parse_assignable_role, (role,), assigned),
    ensures
        valid is Ok <==> 1 <= name@.len() && name@.len() <= 100,
        valid is Err ==> valid->Err_0 is InvalidName,
        stored is Owner <==> role@ == "owner"@,
        stored is Admin <==> role@ == "admin"@,
        assigned is Ok <==> role@ == "admin"@ || role@ == "member"@,
        assigned is Ok ==> assigned->Ok_0 == stored,
        assigned is Err ==> assigned->Err_0 is InvalidRole,
{
    reveal_strlit("owner");
    reveal_strlit("admin");
    reveal_strlit("member");
    assert("owner"@[0] != "admin"@[0]);
    assert("member"@.len() != "admin"@.len() && "member"@.len() != "owner"@.len());
}

} // verus!
