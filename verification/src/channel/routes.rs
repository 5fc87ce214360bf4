//! Requests about channels and the answers to them.

use crate::abuse::sliding_window;
use crate::calendar;
use crate::channel::channel;
use crate::channel::channel_models::BanResult;
use crate::channel::channel_models::BannedMemberInfo;
use crate::channel::channel_models::Channel;
use crate::channel::channel_models::ChannelDetail;
use crate::channel::channel_models::ChannelError;
use crate::channel::channel_models::ChannelInvite;
use crate::channel::channel_models::ChannelListItem;
use crate::channel::channel_models::ChannelMemberInfo;
use crate::channel::channel_models::ChannelRole;
use crate::channel::channel_models::JoinResult;
use crate::channel::channel_models::RoleChangeResult;
use crate::channel::channel_models::StoredMembership;
use crate::channel::channel_rate_limiter;
use crate::channel::channel_rate_limiter::ChannelRateLimiter;
use crate::http::Rejection;
use crate::ids;
use crate::ids::Uuid;
use crate::table::Table;
use crate::time::Instant;
use vstd::prelude::*;

verus! {

#[derive(Debug)]
pub struct CreateChannelRequest {
    pub name: String,
}

#[derive(Debug)]
pub struct CreateChannelResponse {
    pub channel_id: String,
    pub name: String,
    pub owner_user_id: String,
    pub created_at: String,
}

#[derive(Debug)]
pub struct ChannelListItemResponse {
    pub channel_id: String,
    pub name: String,
    pub owner_user_id: String,
    pub created_at: String,
    pub role: String,
}

#[derive(Debug)]
pub struct ChannelDetailResponse {
    pub channel_id: String,
    pub name: String,
    pub owner_user_id: String,
    pub created_at: String,
    pub role: String,
    pub members: Vec<MemberResponse>,
}

#[derive(Debug)]
pub struct MemberResponse {
    pub user_id: String,
    pub role: String,
    pub joined_at: String,
    pub display_name: String,
}

#[derive(Debug)]
pub struct CreateInviteRequest {
    pub expires_in_secs: Option<i64>,
    pub max_uses: Option<i32>,
}

#[derive(Debug)]
pub struct InviteResponse {
    pub code: String,
    pub channel_id: String,
    pub expires_at: Option<String>,
    pub max_uses: Option<i32>,
    pub uses: i32,
}

#[derive(Debug)]
pub struct JoinChannelRequest {
    pub code: String,
}

#[derive(Debug)]
pub struct JoinChannelResponse {
    pub channel_id: String,
    pub name: String,
    pub role: String,
}

#[derive(Debug)]
pub struct BanResponse {
    pub channel_id: String,
    pub user_id: String,
    pub banned_at: String,
}

#[derive(Debug)]
pub struct ChangeRoleRequest {
    pub role: String,
}

#[derive(Debug)]
pub struct ChangeRoleResponse {
    pub channel_id: String,
    pub user_id: String,
    pub role: String,
}

#[derive(Debug)]
pub struct VoiceStatusResponse {
    pub active: bool,
    pub participant_count: Option<u32>,
    pub participants: Option<Vec<VoiceParticipantInfo>>,
}

#[derive(Debug)]
pub struct VoiceParticipantInfo {
    pub display_name: String,
}

#[derive(Debug)]
pub struct BanListResponse {
    pub banned: Vec<BanListItem>,
}

#[derive(Debug)]
pub struct BanListItem {
    pub user_id: String,
    pub banned_at: String,
}

/// The name of a role.
pub fn role_to_string(role: ChannelRole) -> (s: String)
    ensures
        s@ == channel::role_name(role),
{
    match role {
        ChannelRole::Owner => "owner".to_owned(),
        ChannelRole::Admin => "admin".to_owned(),
        ChannelRole::Member => "member".to_owned(),
    }
}

/// The status and text that an error is answered with.
pub open spec fn error_answer(err: ChannelError) -> (u16, Seq<char>) {
    match err {
        ChannelError::ChannelNotFound => (404, "not found"@),
        ChannelError::NotMember => (403, "forbidden"@),
        ChannelError::Banned => (403, "forbidden"@),
        ChannelError::Forbidden => (403, "forbidden"@),
        ChannelError::TargetNotMember => (404, "not found"@),
        ChannelError::TargetNotBanned => (404, "not found"@),
        ChannelError::InviteNotFound => (404, "not found"@),
        ChannelError::InvalidInvite => (400, "invalid invite"@),
        ChannelError::InvalidName => (400, "invalid channel name: must be 1-100 characters"@),
        ChannelError::AlreadyMember => (409, "already a member"@),
        ChannelError::AlreadyBanned => (409, "user is already banned"@),
        ChannelError::CannotBanOwner => (403, "cannot ban the channel owner"@),
        ChannelError::InsufficientPrivileges => (403, "insufficient privileges"@),
        ChannelError::SelfBan => (400, "cannot ban yourself"@),
        ChannelError::OwnerCannotLeave => (400, "owner cannot leave; delete the channel instead"@),
        ChannelError::InvalidRole => (400, "invalid role: must be 'admin' or 'member'"@),
        ChannelError::CannotChangeOwnerRole => (400, "cannot change the owner's role"@),
        ChannelError::CannotChangeBannedRole => (400, "cannot change a banned member's role"@),
        ChannelError::OwnerConsistencyViolation => (500, "internal error"@),
        ChannelError::DatabaseError(_) => (500, "internal error"@),
    }
}

/// The answer to an error.
pub fn map_channel_error(err: &ChannelError) -> (r: Rejection)
    ensures
        r.says(error_answer(*err).0, error_answer(*err).1),
{
    match err {
        ChannelError::ChannelNotFound => Rejection::new(404, "not found"),
        ChannelError::NotMember => Rejection::new(403, "forbidden"),
        ChannelError::Banned => Rejection::new(403, "forbidden"),
        ChannelError::Forbidden => Rejection::new(403, "forbidden"),
        ChannelError::TargetNotMember => Rejection::new(404, "not found"),
        ChannelError::TargetNotBanned => Rejection::new(404, "not found"),
        ChannelError::InviteNotFound => Rejection::new(404, "not found"),
        ChannelError::InvalidInvite => Rejection::new(400, "invalid invite"),
        ChannelError::InvalidName => Rejection::new(
            400,
            "invalid channel name: must be 1-100 characters",
        ),
        ChannelError::AlreadyMember => Rejection::new(409, "already a member"),
        ChannelError::AlreadyBanned => Rejection::new(409, "user is already banned"),
        ChannelError::CannotBanOwner => Rejection::new(403, "cannot ban the channel owner"),
        ChannelError::InsufficientPrivileges => Rejection::new(403, "insufficient privileges"),
        ChannelError::SelfBan => Rejection::new(400, "cannot ban yourself"),
        ChannelError::OwnerCannotLeave => Rejection::new(
            400,
            "owner cannot leave; delete the channel instead",
        ),
        ChannelError::InvalidRole => Rejection::new(
            400,
            "invalid role: must be 'admin' or 'member'",
        ),
        ChannelError::CannotChangeOwnerRole => Rejection::new(
            400,
            "cannot change the owner's role",
        ),
        ChannelError::CannotChangeBannedRole => Rejection::new(
            400,
            "cannot change a banned member's role",
        ),
        ChannelError::OwnerConsistencyViolation => Rejection::new(500, "internal error"),
        ChannelError::DatabaseError(_) => Rejection::new(500, "internal error"),
    }
}

/// The answers do not tell someone who was banned from someone who never was a
/// member or may not do what was asked, nor what failed inside.
pub proof fn law_answers_are_opaque(reason: String)
    ensures
        error_answer(ChannelError::NotMember) == error_answer(ChannelError::Banned),
        error_answer(ChannelError::NotMember) == error_answer(ChannelError::Forbidden),
        error_answer(ChannelError::ChannelNotFound) == error_answer(ChannelError::TargetNotMember),
        error_answer(ChannelError::DatabaseError(reason)) == error_answer(
            ChannelError::OwnerConsistencyViolation,
        ),
{
}

/// That a result which failed is turned down as its error says.
pub open spec fn turned_down<T>(err: ChannelError, r: Result<T, Rejection>) -> bool {
    r is Err && r->Err_0.says(error_answer(err).0, error_answer(err).1)
}

/// Counts a request of a user, where the user may make one more.
pub fn check_rate_limit(limiter: &mut ChannelRateLimiter, user_id: Uuid, now: Instant) -> (r: Result<
    (),
    Rejection,
>)
    requires
        old(limiter).wf(),
    ensures
        final(limiter).wf(),
        final(limiter).limits() == old(limiter).limits(),
        final(limiter).window() == old(limiter).window(),
        ({
            let left = sliding_window::pruned(
                channel_rate_limiter::log_of(old(limiter).logs(), user_id),
                old(limiter).window(),
                now@,
            );
            if left.len() < old(limiter).limits().max_per_user {
                r is Ok && final(limiter).logs() == old(limiter).logs().insert(
                    user_id,
                    left.push(now@),
                )
            } else {
                r is Err && r->Err_0.says(429, "too many requests"@) && final(limiter).logs()
                    == old(limiter).logs().insert(user_id, left)
            }
        }),
{
    if !limiter.check(user_id, now) {
        return Err(Rejection::new(429, "too many requests"));
    }
    limiter.record(user_id, now);
    proof {
        let left = sliding_window::pruned(
            channel_rate_limiter::log_of(old(limiter).logs(), user_id),
            old(limiter).window(),
            now@,
        );
        assert(limiter.logs() =~= old(limiter).logs().insert(user_id, left.push(now@)));
    }
    Ok(())
}

/// The answer that shows a new channel.
pub fn create_channel(result: Result<Channel, ChannelError>) -> (r: Result<
    (u16, CreateChannelResponse),
    Rejection,
>)
    ensures
        match result {
            Ok(channel) => {
                &&& r matches Ok((status, body))
                &&& status == 201
                &&& body.channel_id@ == ids::uuid_text(channel.channel_id.value)
                &&& body.name == channel.name
                &&& body.owner_user_id@ == ids::uuid_text(channel.owner_user_id.value)
                &&& body.created_at@ == calendar::rfc3339_text(channel.created_at@)
            },
            Err(e) => turned_down(e, r),
        },
{
    match result {
        Ok(channel) => Ok(
            (
                201,
                CreateChannelResponse {
                    channel_id: channel.channel_id.text(),
                    name: channel.name,
                    owner_user_id: channel.owner_user_id.text(),
                    created_at: channel.created_at.rfc3339(),
                },
            ),
        ),
        Err(e) => Err(map_channel_error(&e)),
    }
}

/// That a channel of a list is shown in an answer.
pub open spec fn answers_item(item: ChannelListItem, r: ChannelListItemResponse) -> bool {
    &&& r.channel_id@ == ids::uuid_text(item.channel_id.value)
    &&& r.name == item.name
    &&& r.owner_user_id@ == ids::uuid_text(item.owner_user_id.value)
    &&& r.created_at@ == calendar::rfc3339_text(item.created_at@)
    &&& r.role@ == channel::role_name(item.role)
}

/// The answer that lists the channels of a user, in their order.
pub fn list_channels(result: Result<Vec<ChannelListItem>, ChannelError>) -> (r: Result<
    Vec<ChannelListItemResponse>,
    Rejection,
>)
    ensures
        match result {
            Ok(items) => {
                &&& r matches Ok(list)
                &&& list@.len() == items@.len()
                &&& forall|i: int|
                    0 <= i < items@.len() ==> answers_item(items@[i], #[trigger] list@[i])
            },
            Err(e) => turned_down(e, r),
        },
{
    match result {
        Err(e) => Err(map_channel_error(&e)),
        Ok(items) => {
            let mut list: Vec<ChannelListItemResponse> = Vec::new();
            let mut i: usize = 0;
            while i < items.len()
                invariant
                    i <= items@.len(),
                    list@.len() == i,
                    forall|k: int| 0 <= k < i ==> answers_item(items@[k], #[trigger] list@[k]),
                decreases items@.len() - i,
            {
                let item = &items[i];
                list.push(
                    ChannelListItemResponse {
                        channel_id: item.channel_id.text(),
                        name: item.name.clone(),
                        owner_user_id: item.owner_user_id.text(),
                        created_at: item.created_at.rfc3339(),
                        role: role_to_string(item.role),
                    },
                );
                i = i + 1;
            }
            Ok(list)
        },
    }
}

/// That a member is shown in an answer.
pub open spec fn answers_member(info: ChannelMemberInfo, r: MemberResponse) -> bool {
    &&& r.user_id@ == ids::uuid_text(info.user_id.value)
    &&& r.role@ == channel::role_name(info.role)
    &&& r.joined_at@ == calendar::rfc3339_text(info.joined_at@)
    &&& r.display_name == info.display_name
}

/// That a channel is shown in an answer, with its members in their order.
pub open spec fn answers_detail(detail: ChannelDetail, r: ChannelDetailResponse) -> bool {
    &&& r.channel_id@ == ids::uuid_text(detail.channel_id.value)
    &&& r.name == detail.name
    &&& r.owner_user_id@ == ids::uuid_text(detail.owner_user_id.value)
    &&& r.created_at@ == calendar::rfc3339_text(detail.created_at@)
    &&& r.role@ == channel::role_name(detail.role)
    &&& r.members@.len() == detail.members@.len()
    &&& forall|i: int|
        0 <= i < detail.members@.len() ==> answers_member(
            #[trigger] detail.members@[i],
            r.members@[i],
        )
}

/// The answer that shows a channel with its members.
pub fn get_channel(result: Result<ChannelDetail, ChannelError>) -> (r: Result<
    ChannelDetailResponse,
    Rejection,
>)
    ensures
        match result {
            Ok(detail) => r is Ok && answers_detail(detail, r->Ok_0),
            Err(e) => turned_down(e, r),
        },
{
    match result {
        Err(e) => Err(map_channel_error(&e)),
        Ok(detail) => {
            let mut members: Vec<MemberResponse> = Vec::new();
            let mut i: usize = 0;
            while i < detail.members.len()
                invariant
                    i <= detail.members@.len(),
                    members@.len() == i,
                    forall|k: int|
                        0 <= k < i ==> answers_member(#[trigger] detail.members@[k], members@[k]),
                decreases detail.members@.len() - i,
            {
                let info = &detail.members[i];
                members.push(
                    MemberResponse {
                        user_id: info.user_id.text(),
                        role: role_to_string(info.role),
                        joined_at: info.joined_at.rfc3339(),
                        display_name: info.display_name.clone(),
                    },
                );
                i = i + 1;
            }
            Ok(
                ChannelDetailResponse {
                    channel_id: detail.channel_id.text(),
                    name: detail.name,
                    owner_user_id: detail.owner_user_id.text(),
                    created_at: detail.created_at.rfc3339(),
                    role: role_to_string(detail.role),
                    members,
                },
            )
        },
    }
}

/// The answer where there is nothing to show.
fn no_content(result: Result<(), ChannelError>) -> (r: Result<u16, Rejection>)
    ensures
        match result {
            Ok(()) => r == Ok::<u16, Rejection>(204),
            Err(e) => turned_down(e, r),
        },
{
    match result {
        Ok(()) => Ok(204),
        Err(e) => Err(map_channel_error(&e)),
    }
}

/// The answer to the deletion of a channel.
pub fn delete_channel(result: Result<(), ChannelError>) -> (r: Result<u16, Rejection>)
    ensures
        match result {
            Ok(()) => r == Ok::<u16, Rejection>(204),
            Err(e) => turned_down(e, r),
        },
{
    no_content(result)
}

/// That an invite is shown in an answer.
pub open spec fn answers_invite(invite: ChannelInvite, r: InviteResponse) -> bool {
    &&& r.code == invite.code
    &&& r.channel_id@ == ids::uuid_text(invite.channel_id.value)
    &&& match invite.expires_at {
        Some(t) => r.expires_at is Some && r.expires_at->0@ == calendar::rfc3339_text(t@),
        None => r.expires_at is None,
    }
    &&& r.max_uses == invite.max_uses
    &&& r.uses == invite.uses
}

fn invite_response(invite: &ChannelInvite) -> (r: InviteResponse)
    ensures
        answers_invite(*invite, r),
{
    let expires_at = match &invite.expires_at {
        Some(t) => Some(t.rfc3339()),
        None => None,
    };
    InviteResponse {
        code: invite.code.clone(),
        channel_id: invite.channel_id.text(),
        expires_at,
        max_uses: invite.max_uses,
        uses: invite.uses,
    }
}

/// The answer that shows a new invite.
pub fn create_invite(result: Result<ChannelInvite, ChannelError>) -> (r: Result<
    (u16, InviteResponse),
    Rejection,
>)
    ensures
        match result {
            Ok(invite) => r is Ok && r->Ok_0.0 == 201 && answers_invite(invite, r->Ok_0.1),
            Err(e) => turned_down(e, r),
        },
{
    match result {
        Ok(invite) => Ok((201, invite_response(&invite))),
        Err(e) => Err(map_channel_error(&e)),
    }
}

/// The answer to someone who joined.
pub fn join_channel(result: Result<JoinResult, ChannelError>) -> (r: Result<
    JoinChannelResponse,
    Rejection,
>)
    ensures
        match result {
            Ok(joined) => {
                &&& r matches Ok(body)
                &&& body.channel_id@ == ids::uuid_text(joined.channel_id.value)
                &&& body.name == joined.name
                &&& body.role@ == channel::role_name(joined.role)
            },
            Err(e) => turned_down(e, r),
        },
{
    match result {
        Ok(joined) => Ok(
            JoinChannelResponse {
                channel_id: joined.channel_id.text(),
                name: joined.name,
                role: role_to_string(joined.role),
            },
        ),
        Err(e) => Err(map_channel_error(&e)),
    }
}

/// The answer to someone who left.
pub fn leave_channel(result: Result<(), ChannelError>) -> (r: Result<u16, Rejection>)
    ensures
        match result {
            Ok(()) => r == Ok::<u16, Rejection>(204),
            Err(e) => turned_down(e, r),
        },
{
    no_content(result)
}

/// The answer to the revocation of an invite.
pub fn revoke_invite(result: Result<(), ChannelError>) -> (r: Result<u16, Rejection>)
    ensures
        match result {
            Ok(()) => r == Ok::<u16, Rejection>(204),
            Err(e) => turned_down(e, r),
        },
{
    no_content(result)
}

/// The answer to a ban.
pub fn ban_member(result: Result<BanResult, ChannelError>) -> (r: Result<BanResponse, Rejection>)
    ensures
        match result {
            Ok(ban) => {
                &&& r matches Ok(body)
                &&& body.channel_id@ == ids::uuid_text(ban.channel_id.value)
                &&& body.user_id@ == ids::uuid_text(ban.user_id.value)
                &&& body.banned_at@ == calendar::rfc3339_text(ban.banned_at@)
            },
            Err(e) => turned_down(e, r),
        },
{
    match result {
        Ok(ban) => Ok(
            BanResponse {
                channel_id: ban.channel_id.text(),
                user_id: ban.user_id.text(),
                banned_at: ban.banned_at.rfc3339(),
            },
        ),
        Err(e) => Err(map_channel_error(&e)),
    }
}

/// The answer to the lifting of a ban.
pub fn unban_member(result: Result<(), ChannelError>) -> (r: Result<u16, Rejection>)
    ensures
        match result {
            Ok(()) => r == Ok::<u16, Rejection>(204),
            Err(e) => turned_down(e, r),
        },
{
    no_content(result)
}

/// The answer to a change of role.
pub fn change_role(result: Result<RoleChangeResult, ChannelError>) -> (r: Result<
    ChangeRoleResponse,
    Rejection,
>)
    ensures
        match result {
            Ok(change) => {
                &&& r matches Ok(body)
                &&& body.channel_id@ == ids::uuid_text(change.channel_id.value)
                &&& body.user_id@ == ids::uuid_text(change.user_id.value)
                &&& body.role@ == channel::role_name(change.role)
            },
            Err(e) => turned_down(e, r),
        },
{
    match result {
        Ok(change) => Ok(
            ChangeRoleResponse {
                channel_id: change.channel_id.text(),
                user_id: change.user_id.text(),
                role: role_to_string(change.role),
            },
        ),
        Err(e) => Err(map_channel_error(&e)),
    }
}

/// That those in a room are shown by their names, in their order; and that
/// without a room there is nothing to show.
pub open spec fn answers_voice(room: Option<Vec<String>>, r: VoiceStatusResponse) -> bool {
    match room {
        None => !r.active && r.participant_count is None && r.participants is None,
        Some(names) => {
            &&& r.active
            &&& r.participant_count == Some(names@.len() as u32)
            &&& r.participants is Some
            &&& r.participants->0@.len() == names@.len()
            &&& forall|i: int|
                0 <= i < names@.len() ==> (#[trigger] r.participants->0@[i]).display_name
                    == names@[i]
        },
    }
}

/// The active room of a channel, if it has one.
pub fn active_room(rooms: &Table<Uuid, String>, channel_id: Uuid) -> (r: Option<&String>)
    requires
        rooms.wf(),
    ensures
        match r {
            Some(room_id) => rooms@.contains_key(channel_id) && rooms@[channel_id] == *room_id,
            None => !rooms@.contains_key(channel_id),
        },
{
    rooms.get(&channel_id)
}

/// The voice status of a channel: the names of those in its active room, where
/// it has one and that room still exists. `info` is what is known of the active
/// room. Only a member who is not banned sees it; everyone else gets the same
/// answer.
pub fn get_voice_status(
    membership: Result<Option<StoredMembership>, String>,
    channel_id: Uuid,
    rooms: &Table<Uuid, String>,
    info: Option<Vec<String>>,
) -> (r: Result<VoiceStatusResponse, Rejection>)
    requires
        rooms.wf(),
    ensures
        match membership {
            Err(_) => r is Err && r->Err_0.says(500, "internal error"@),
            Ok(m) => if m is Some && m->0.banned_at is None {
                r is Ok && answers_voice(
                    if rooms@.contains_key(channel_id) {
                        info
                    } else {
                        None
                    },
                    r->Ok_0,
                )
            } else {
                r is Err && r->Err_0.says(403, "forbidden"@)
            },
        },
{
    match membership {
        Err(_) => { return Err(Rejection::new(500, "internal error")); },
        Ok(None) => { return Err(Rejection::new(403, "forbidden")); },
        Ok(Some(m)) => {
            if m.banned_at.is_some() {
                return Err(Rejection::new(403, "forbidden"));
            }
        },
    }
    let room = match active_room(rooms, channel_id) {
        Some(_) => info,
        None => None,
    };
    match room {
        None => Ok(
            VoiceStatusResponse { active: false, participant_count: None, participants: None },
        ),
        Some(names) => {
            let mut list: Vec<VoiceParticipantInfo> = Vec::new();
            let mut i: usize = 0;
            while i < names.len()
                invariant
                    i <= names@.len(),
                    list@.len() == i,
                    forall|k: int| 0 <= k < i ==> (#[trigger] list@[k]).display_name == names@[k],
                decreases names@.len() - i,
            {
                list.push(VoiceParticipantInfo { display_name: names[i].clone() });
                i = i + 1;
            }
            let count: u32 = list.len() as u32;
            Ok(
                VoiceStatusResponse {
                    active: true,
                    participant_count: Some(count),
                    participants: Some(list),
                },
            )
        },
    }
}

/// That someone who is banned is shown in an answer.
pub open spec fn answers_ban(ban: BannedMemberInfo, r: BanListItem) -> bool {
    &&& r.user_id@ == ids::uuid_text(ban.user_id.value)
    &&& r.banned_at@ == calendar::rfc3339_text(ban.banned_at@)
}

/// The answer that lists those who are banned, in their order.
pub fn list_bans(result: Result<Vec<BannedMemberInfo>, ChannelError>) -> (r: Result<
    BanListResponse,
    Rejection,
>)
    ensures
        match result {
            Ok(bans) => {
                &&& r matches Ok(body)
                &&& body.banned@.len() == bans@.len()
                &&& forall|i: int|
                    0 <= i < bans@.len() ==> answers_ban(bans@[i], #[trigger] body.banned@[i])
            },
            Err(e) => turned_down(e, r),
        },
{
    match result {
        Err(e) => Err(map_channel_error(&e)),
        Ok(bans) => {
            let mut banned: Vec<BanListItem> = Vec::new();
            let mut i: usize = 0;
            while i < bans.len()
                invariant
                    i <= bans@.len(),
                    banned@.len() == i,
                    forall|k: int| 0 <= k < i ==> answers_ban(bans@[k], #[trigger] banned@[k]),
                decreases bans@.len() - i,
            {
                banned.push(
                    BanListItem {
                        user_id: bans[i].user_id.text(),
                        banned_at: bans[i].banned_at.rfc3339(),
                    },
                );
                i = i + 1;
            }
            Ok(BanListResponse { banned })
        },
    }
}

/// The answer that lists the invites of a channel, in their order.
pub fn list_invites(result: Result<Vec<ChannelInvite>, ChannelError>) -> (r: Result<
    Vec<InviteResponse>,
    Rejection,
>)
    ensures
        match result {
            Ok(invites) => {
                &&& r matches Ok(list)
                &&& list@.len() == invites@.len()
                &&& forall|i: int|
                    0 <= i < invites@.len() ==> answers_invite(invites@[i], #[trigger] list@[i])
            },
            Err(e) => turned_down(e, r),
        },
{
    match result {
        Err(e) => Err(map_channel_error(&e)),
        Ok(invites) => {
            let mut list: Vec<InviteResponse> = Vec::new();
            let mut i: usize = 0;
            while i < invites.len()
                invariant
                    i <= invites@.len(),
                    list@.len() == i,
                    forall|k: int| 0 <= k < i ==> answers_invite(invites@[k], #[trigger] list@[k]),
                decreases invites@.len() - i,
            {
                list.push(invite_response(&invites[i]));
                i = i + 1;
            }
            Ok(list)
        },
    }
}

/// The text for a role is its own.
pub open spec fn shows_role(role: ChannelRole, s: Seq<char>) -> bool {
    &&& role is Owner ==> s == "owner"@
    &&& role is Admin ==> s == "admin"@
    &&& role is Member ==> s == "member"@
}

/// Each error has the status that HTTP has for it, and its text tells no more of
/// the inside of the service than that.
pub proof fn law_why_channel_requests_are_refused(err: &ChannelError, r: Rejection)
    requires
        call_ensures(map_channel_error, (err,), r),
    ensures
        r.status == 404 <==> *err is ChannelNotFound || *err is TargetNotMember
            || *err is TargetNotBanned || *err is InviteNotFound,
        r.status == 403 <==> *err is NotMember || *err is Banned || *err is Forbidden
            || *err is CannotBanOwner || *err is InsufficientPrivileges,
        r.status == 409 <==> *err is AlreadyMember || *err is AlreadyBanned,
        r.status == 500 <==> *err is OwnerConsistencyViolation || *err is DatabaseError,
        r.status == 400 <==> *err is InvalidInvite || *err is InvalidName || *err is SelfBan
            || *err is OwnerCannotLeave || *err is InvalidRole || *err is CannotChangeOwnerRole
            || *err is CannotChangeBannedRole,
        r.status == 404 ==> r.error@ == "not found"@,
        r.status == 500 ==> r.error@ == "internal error"@,
        *err is NotMember || *err is Banned || *err is Forbidden ==> r.error@ == "forbidden"@,
        *err is AlreadyMember ==> r.error@ == "already a member"@,
        *err is AlreadyBanned ==> r.error@ == "user is already banned"@,
        *err is CannotBanOwner ==> r.error@ == "cannot ban the channel owner"@,
        *err is InsufficientPrivileges ==> r.error@ == "insufficient privileges"@,
        *err is InvalidInvite ==> r.error@ == "invalid invite"@,
        *err is SelfBan ==> r.error@ == "cannot ban yourself"@,
{
}

/// What succeeded is answered with success and nothing to show, and what failed is
/// not.
pub proof fn law_success_is_told_as_success(
    deletion: Result<(), ChannelError>,
    deleted: Result<u16, Rejection>,
    leaving: Result<(), ChannelError>,
    left: Result<u16, Rejection>,
    revocation: Result<(), ChannelError>,
    revoked: Result<u16, Rejection>,
    unbanning: Result<(), ChannelError>,
    unbanned: Result<u16, Rejection>,
)
    requires
        call_ensures(delete_channel, (deletion,), deleted),
        call_ensures(leave_channel, (leaving,), left),
        call_ensures(revoke_invite, (revocation,), revoked),
        call_ensures(unban_member, (unbanning,), unbanned),
    ensures
        deleted is Ok <==> deletion is Ok,
        deleted is Ok ==> deleted->Ok_0 == 204,
        left is Ok <==> leaving is Ok,
        left is Ok ==> left->Ok_0 == 204,
        revoked is Ok <==> revocation is Ok,
        revoked is Ok ==> revoked->Ok_0 == 204,
        unbanned is Ok <==> unbanning is Ok,
        unbanned is Ok ==> unbanned->Ok_0 == 204,
{
}

/// A new channel, and one that was joined, is shown as it is.
pub proof fn law_channels_are_shown_as_they_are(
    made: Channel,
    created: Result<(u16, CreateChannelResponse), Rejection>,
    join: JoinResult,
    joined: Result<JoinChannelResponse, Rejection>,
    items: Vec<ChannelListItem>,
    listed: Result<Vec<ChannelListItemResponse>, Rejection>,
    i: int,
)
    requires
        call_ensures(create_channel, (Ok(made),), created),
        call_ensures(join_channel, (Ok(join),), joined),
        call_ensures(list_channels, (Ok(items),), listed),
        0 <= i < items@.len(),
    ensures
        created is Ok && joined is Ok && listed is Ok,
        (created->Ok_0).0 == 201,
        ({
            let c = (created->Ok_0).1;
            &&& c.channel_id@ == ids::uuid_text(made.channel_id.value)
            &&& c.name@ == made.name@
            &&& c.owner_user_id@ == ids::uuid_text(made.owner_user_id.value)
            &&& c.created_at@ == calendar::rfc3339_text(made.created_at@)
        }),
        joined->Ok_0.channel_id@ == ids::uuid_text(join.channel_id.value),
        joined->Ok_0.name@ == join.name@,
        shows_role(join.role, joined->Ok_0.role@),
        listed->Ok_0@.len() == items@.len(),
        ({
            let shown = listed->Ok_0@[i];
            &&& shown.channel_id@ == ids::uuid_text(items@[i].channel_id.value)
            &&& shown.name@ == items@[i].name@
            &&& shown.owner_user_id@ == ids::uuid_text(items@[i].owner_user_id.value)
            &&& shown.created_at@ == calendar::rfc3339_text(items@[i].created_at@)
            &&& shows_role(items@[i].role, shown.role@)
        }),
{
    assert(answers_item(items@[i], listed->Ok_0@[i]));
}

/// A channel is shown with every member once, each under their own id, name and
/// role.
pub proof fn law_members_are_shown_as_they_are(
    detail: ChannelDetail,
    r: Result<ChannelDetailResponse, Rejection>,
    i: int,
)
    requires
        call_ensures(get_channel, (Ok(detail),), r),
        0 <= i < detail.members@.len(),
    ensures
        r is Ok,
        r->Ok_0.channel_id@ == ids::uuid_text(detail.channel_id.value),
        r->Ok_0.name@ == detail.name@,
        r->Ok_0.owner_user_id@ == ids::uuid_text(detail.owner_user_id.value),
        r->Ok_0.created_at@ == calendar::rfc3339_text(detail.created_at@),
        shows_role(detail.role, r->Ok_0.role@),
        r->Ok_0.members@.len() == detail.members@.len(),
        ({
            let shown = r->Ok_0.members@[i];
            &&& shown.user_id@ == ids::uuid_text(detail.members@[i].user_id.value)
            &&& shown.display_name@ == detail.members@[i].display_name@
            &&& shown.joined_at@ == calendar::rfc3339_text(detail.members@[i].joined_at@)
            &&& shows_role(detail.members@[i].role, shown.role@)
        }),
{
    assert(answers_member(detail.members@[i], r->Ok_0.members@[i]));
}

/// That an invite is shown under its code, with its limits and its uses.
pub open spec fn shows_invite(invite: ChannelInvite, r: InviteResponse) -> bool {
    &&& r.code@ == invite.code@
    &&& r.channel_id@ == ids::uuid_text(invite.channel_id.value)
    &&& r.expires_at is Some <==> invite.expires_at is Some
    &&& r.expires_at is Some ==> r.expires_at->0@ == calendar::rfc3339_text(invite.expires_at->0@)
    &&& r.max_uses == invite.max_uses
    &&& r.uses == invite.uses
}

/// Invites, bans and changed roles are shown as they are, each once and in order.
pub proof fn law_invites_and_bans_are_shown_as_they_are(
    invite: ChannelInvite,
    created: Result<(u16, InviteResponse), Rejection>,
    invites: Vec<ChannelInvite>,
    invites_listed: Result<Vec<InviteResponse>, Rejection>,
    ban: BanResult,
    banned: Result<BanResponse, Rejection>,
    bans: Vec<BannedMemberInfo>,
    bans_listed: Result<BanListResponse, Rejection>,
    change: RoleChangeResult,
    changed: Result<ChangeRoleResponse, Rejection>,
    i: int,
    j: int,
)
    requires
        call_ensures(create_invite, (Ok(invite),), created),
        call_ensures(list_invites, (Ok(invites),), invites_listed),
        call_ensures(ban_member, (Ok(ban),), banned),
        call_ensures(list_bans, (Ok(bans),), bans_listed),
        call_ensures(change_role, (Ok(change),), changed),
        0 <= i < invites@.len(),
        0 <= j < bans@.len(),
    ensures
        created is Ok && invites_listed is Ok && banned is Ok && bans_listed is Ok && changed is Ok,
        (created->Ok_0).0 == 201,
        shows_invite(invite, (created->Ok_0).1),
        invites_listed->Ok_0@.len() == invites@.len(),
        shows_invite(invites@[i], invites_listed->Ok_0@[i]),
        banned->Ok_0.channel_id@ == ids::uuid_text(ban.channel_id.value),
        banned->Ok_0.user_id@ == ids::uuid_text(ban.user_id.value),
        banned->Ok_0.banned_at@ == calendar::rfc3339_text(ban.banned_at@),
        bans_listed->Ok_0.banned@.len() == bans@.len(),
        bans_listed->Ok_0.banned@[j].user_id@ == ids::uuid_text(bans@[j].user_id.value),
        bans_listed->Ok_0.banned@[j].banned_at@ == calendar::rfc3339_text(bans@[j].banned_at@),
        changed->Ok_0.channel_id@ == ids::uuid_text(change.channel_id.value),
        changed->Ok_0.user_id@ == ids::uuid_text(change.user_id.value),
        shows_role(change.role, changed->Ok_0.role@),
{
    assert(answers_invite(invites@[i], invites_listed->Ok_0@[i]));
    assert(answers_ban(bans@[j], bans_listed->Ok_0.banned@[j]));
}

/// Who is in the voice room of a channel is shown to its members who are not
/// banned, by name, and to nobody else. A channel without a room shows nobody.
pub proof fn law_members_see_the_voice_room(
    membership: Result<Option<StoredMembership>, String>,
    channel_id: Uuid,
    rooms: &Table<Uuid, String>,
    info: Option<Vec<String>>,
    r: Result<VoiceStatusResponse, Rejection>,
    i: int,
)
    requires
        call_ensures(get_voice_status, (membership, channel_id, rooms, info), r),
    ensures
        r is Ok <==> membership is Ok && membership->Ok_0 is Some && membership->Ok_0->0.banned_at
            is None,
        membership is Ok && r is Err ==> r->Err_0.status == 403 && r->Err_0.error@ == "forbidden"@,
        membership is Err ==> r->Err_0.status == 500,
        r is Ok ==> (r->Ok_0.active <==> rooms@.contains_key(channel_id) && info is Some),
        r is Ok ==> (r->Ok_0.participants is Some <==> r->Ok_0.active),
        r is Ok ==> (r->Ok_0.participant_count is Some <==> r->Ok_0.active),
        r is Ok && r->Ok_0.active ==> r->Ok_0.participants->0@.len() == info->0@.len(),
        r is Ok && r->Ok_0.active && info->0@.len() <= u32::MAX ==> r->Ok_0.participant_count->0
            == info->0@.len(),
        r is Ok && r->Ok_0.active && 0 <= i < info->0@.len() ==> r->Ok_0.participants->0@[i].display_name@
            == info->0@[i]@,
{
}

/// A request is let through exactly where the limiter of channels allows one more,
/// and is counted then.
pub proof fn law_requests_are_counted(
    asking: &mut ChannelRateLimiter,
    admitting: &mut ChannelRateLimiter,
    user_id: Uuid,
    now: Instant,
    ok: bool,
    r: Result<(), Rejection>,
)
    requires
        call_ensures(ChannelRateLimiter::check, (asking, user_id, now), ok),
        *old(admitting) == *old(asking),
        call_ensures(check_rate_limit, (admitting, user_id, now), r),
    ensures
        r is Ok <==> ok,
        r is Err ==> r->Err_0.status == 429 && r->Err_0.error@ == "too many requests"@,
        channel_rate_limiter::log_of(final(admitting).logs(), user_id) == if ok {
            channel_rate_limiter::log_of(final(asking).logs(), user_id).push(now@)
        } else {
            channel_rate_limiter::log_of(final(asking).logs(), user_id)
        },
{
}

} // verus!
