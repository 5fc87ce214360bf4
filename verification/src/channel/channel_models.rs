//! Channels, memberships and invites as values, and the errors about them.

use crate::calendar::UtcTime;
use crate::ids::Uuid;
use vstd::prelude::*;

verus! {

/// The role of a member in a channel.
#[derive(Debug, Clone, Copy, PartialEq, Eq, Structural)]
pub enum ChannelRole {
    Owner,
    Admin,
    Member,
}

/// A channel.
#[derive(Debug)]
pub struct Channel {
    pub channel_id: Uuid,
    pub name: String,
    pub owner_user_id: Uuid,
    pub created_at: UtcTime,
}

/// A membership in a channel.
#[derive(Debug)]
pub struct ChannelMembership {
    pub channel_id: Uuid,
    pub user_id: Uuid,
    pub role: ChannelRole,
    pub banned_at: Option<UtcTime>,
    pub joined_at: UtcTime,
}

/// An invite to a channel.
#[derive(Debug)]
pub struct ChannelInvite {
    pub code: String,
    pub channel_id: Uuid,
    pub expires_at: Option<UtcTime>,
    pub max_uses: Option<i32>,
    pub uses: i32,
    pub created_at: UtcTime,
}

/// A channel in a user's list, with the user's role.
#[derive(Debug)]
pub struct ChannelListItem {
    pub channel_id: Uuid,
    pub name: String,
    pub owner_user_id: Uuid,
    pub created_at: UtcTime,
    pub role: ChannelRole,
}

/// A channel with its members.
#[derive(Debug)]
pub struct ChannelDetail {
    pub channel_id: Uuid,
    pub name: String,
    pub owner_user_id: Uuid,
    pub created_at: UtcTime,
    pub role: ChannelRole,
    pub members: Vec<ChannelMemberInfo>,
}

/// A member of a channel.
#[derive(Debug)]
pub struct ChannelMemberInfo {
    pub user_id: Uuid,
    pub role: ChannelRole,
    pub joined_at: UtcTime,
    pub display_name: String,
}

/// Result of joining a channel by invite.
#[derive(Debug)]
pub struct JoinResult {
    pub channel_id: Uuid,
    pub name: String,
    pub role: ChannelRole,
}

/// Result of banning a member.
#[derive(Debug)]
pub struct BanResult {
    pub channel_id: Uuid,
    pub user_id: Uuid,
    pub banned_at: UtcTime,
}

/// Result of changing a member's role.
#[derive(Debug)]
pub struct RoleChangeResult {
    pub channel_id: Uuid,
    pub user_id: Uuid,
    pub role: ChannelRole,
}

/// A banned member.
#[derive(Debug)]
pub struct BannedMemberInfo {
    pub user_id: Uuid,
    pub banned_at: UtcTime,
}

/// A membership as it is stored, the role being text.
#[derive(Debug)]
pub struct StoredMembership {
    pub role: String,
    pub banned_at: Option<UtcTime>,
}

/// A member as it is stored, the role being text.
#[derive(Debug)]
pub struct StoredMember {
    pub user_id: Uuid,
    pub role: String,
    pub joined_at: UtcTime,
    pub display_name: String,
}

/// A channel of a user as it is stored, the role being text.
#[derive(Debug)]
pub struct StoredListing {
    pub channel: Channel,
    pub role: String,
}

/// Errors of channel operations.
#[derive(Debug)]
pub enum ChannelError {
    InvalidName,
    ChannelNotFound,
    NotMember,
    Banned,
    Forbidden,
    AlreadyMember,
    InvalidInvite,
    AlreadyBanned,
    CannotBanOwner,
    InsufficientPrivileges,
    SelfBan,
    OwnerCannotLeave,
    TargetNotMember,
    TargetNotBanned,
    InvalidRole,
    CannotChangeOwnerRole,
    CannotChangeBannedRole,
    InviteNotFound,
    OwnerConsistencyViolation,
    DatabaseError(String),
}

impl ChannelError {
    /// The message of this error.
    pub open spec fn message_spec(&self) -> Seq<char> {
        match self {
            ChannelError::InvalidName => "invalid channel name"@,
            ChannelError::ChannelNotFound => "channel not found"@,
            ChannelError::NotMember => "not a member"@,
            ChannelError::Banned => "banned"@,
            ChannelError::Forbidden => "forbidden"@,
            ChannelError::AlreadyMember => "already a member"@,
            ChannelError::InvalidInvite => "invalid invite"@,
            ChannelError::AlreadyBanned => "already banned"@,
            ChannelError::CannotBanOwner => "cannot ban owner"@,
            ChannelError::InsufficientPrivileges => "insufficient privileges"@,
            ChannelError::SelfBan => "cannot ban yourself"@,
            ChannelError::OwnerCannotLeave => "owner cannot leave"@,
            ChannelError::TargetNotMember => "target not member"@,
            ChannelError::TargetNotBanned => "target not banned"@,
            ChannelError::InvalidRole => "invalid role"@,
            ChannelError::CannotChangeOwnerRole => "cannot change owner role"@,
            ChannelError::CannotChangeBannedRole => "cannot change banned member role"@,
            ChannelError::InviteNotFound => "invite not found"@,
            ChannelError::OwnerConsistencyViolation => "owner consistency violation"@,
            ChannelError::DatabaseError(e) => "database error: "@ + e@,
        }
    }

    /// The message of this error.
    pub fn message(&self) -> (s: String)
        ensures
            s@ == self.message_spec(),
    {
        match self {
            ChannelError::InvalidName => "invalid channel name".to_owned(),
            ChannelError::ChannelNotFound => "channel not found".to_owned(),
            ChannelError::NotMember => "not a member".to_owned(),
            ChannelError::Banned => "banned".to_owned(),
            ChannelError::Forbidden => "forbidden".to_owned(),
            ChannelError::AlreadyMember => "already a member".to_owned(),
            ChannelError::InvalidInvite => "invalid invite".to_owned(),
            ChannelError::AlreadyBanned => "already banned".to_owned(),
            ChannelError::CannotBanOwner => "cannot ban owner".to_owned(),
            ChannelError::InsufficientPrivileges => "insufficient privileges".to_owned(),
            ChannelError::SelfBan => "cannot ban yourself".to_owned(),
            ChannelError::OwnerCannotLeave => "owner cannot leave".to_owned(),
            ChannelError::TargetNotMember => "target not member".to_owned(),
            ChannelError::TargetNotBanned => "target not banned".to_owned(),
            ChannelError::InvalidRole => "invalid role".to_owned(),
            ChannelError::CannotChangeOwnerRole => "cannot change owner role".to_owned(),
            ChannelError::CannotChangeBannedRole => "cannot change banned member role".to_owned(),
            ChannelError::InviteNotFound => "invite not found".to_owned(),
            ChannelError::OwnerConsistencyViolation => "owner consistency violation".to_owned(),
            ChannelError::DatabaseError(e) => "database error: ".to_owned().concat(e.as_str()),
        }
    }
}

/// Each error is told in its own words.
pub proof fn law_messages_say_what_is_wrong(e: &ChannelError, s: String)
    requires
        call_ensures(ChannelError::message, (e,), s),
    ensures
        *e is InvalidName ==> s@ == "invalid channel name"@,
        *e is ChannelNotFound ==> s@ == "channel not found"@,
        *e is NotMember ==> s@ == "not a member"@,
        *e is Banned ==> s@ == "banned"@,
        *e is Forbidden ==> s@ == "forbidden"@,
        *e is AlreadyMember ==> s@ == "already a member"@,
        *e is InvalidInvite ==> s@ == "invalid invite"@,
        *e is AlreadyBanned ==> s@ == "already banned"@,
        *e is CannotBanOwner ==> s@ == "cannot ban owner"@,
        *e is InsufficientPrivileges ==> s@ == "insufficient privileges"@,
        *e is SelfBan ==> s@ == "cannot ban yourself"@,
        *e is OwnerCannotLeave ==> s@ == "owner cannot leave"@,
        *e is TargetNotMember ==> s@ == "target not member"@,
        *e is TargetNotBanned ==> s@ == "target not banned"@,
        *e is InvalidRole ==> s@ == "invalid role"@,
        *e is CannotChangeOwnerRole ==> s@ == "cannot change owner role"@,
        *e is CannotChangeBannedRole ==> s@ == "cannot change banned member role"@,
        *e is InviteNotFound ==> s@ == "invite not found"@,
        *e is OwnerConsistencyViolation ==> s@ == "owner consistency violation"@,
        *e is DatabaseError ==> s@ == "database error: "@ + e->DatabaseError_0@,
{
}

} // verus!
