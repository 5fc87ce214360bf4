use base64::engine::general_purpose::URL_SAFE_NO_PAD;
use base64::Engine;
use std::collections::HashSet;
use wavis_backend::calendar::UtcTime;
use wavis_backend::channel::channel::{
    ban_member, change_role, create_channel, create_invite, delete_channel, generate_invite_code,
    get_channel_detail, join_channel_by_invite, leave_channel, list_bans, list_channels,
    list_invites, parse_assignable_role, parse_role, revoke_invite, start_ban, start_creation,
    start_role_change, unban_member, validate_channel_name, BanListing, Banning, ChannelEvent,
    Creation, Deletion, Detail, InviteCreation, InviteListing, Joining, Leaving, Revocation,
    RoleChange, Unbanning,
};
use wavis_backend::channel::channel_models::{
    BanResult, BannedMemberInfo, Channel, ChannelError, ChannelInvite, ChannelRole, JoinResult,
    RoleChangeResult, StoredListing, StoredMember, StoredMembership,
};
use wavis_backend::channel::invite::{
    InviteError, InviteRevokeError, InviteStore, InviteStoreConfig,
};
use wavis_backend::channel::channel_rate_limiter::{ChannelRateLimiter, ChannelRateLimiterConfig};
use wavis_backend::channel::routes;
use wavis_backend::channel::routes::{
    active_room, check_rate_limit, get_voice_status, map_channel_error, role_to_string,
};
use wavis_backend::ids::Uuid;
use wavis_backend::signaling::{JoinRejectionReason, ParticipantRole};
use wavis_backend::table::Table;
use wavis_backend::time::{Duration, Instant};

fn now() -> Instant {
    Instant::from_origin(Duration::from_secs(1_000_000))
}

fn time(secs: i64) -> UtcTime {
    UtcTime::new(secs, 0).unwrap()
}

fn id(n: u128) -> Uuid {
    Uuid::from_u128(n)
}

fn member(role: &str) -> ChannelEvent {
    ChannelEvent::Membership(Some(StoredMembership { role: role.to_string(), banned_at: None }))
}

fn banned(role: &str) -> ChannelEvent {
    ChannelEvent::Membership(Some(StoredMembership {
        role: role.to_string(),
        banned_at: Some(time(5)),
    }))
}

// Invites to a room.

fn make_store() -> InviteStore {
    InviteStore::new(InviteStoreConfig {
        default_ttl: Duration::from_secs(3600),
        default_max_uses: 6,
        max_invites_per_room: 20,
        max_invites_global: 1000,
        sweep_interval: Duration::from_secs(60),
    })
}

#[test]
fn test_missing_invite_code_returns_invite_invalid() {
    let store = make_store();
    let result = store.validate("nonexistent-code", "room-1", now());
    assert_eq!(result, Err(JoinRejectionReason::InviteInvalid));
}

#[test]
fn test_single_use_invite() {
    let mut store = make_store();
    let t = now();
    let record = store.generate("room-1", "issuer-1", Some(1), t).unwrap();
    assert!(store.validate_and_consume(&record.code, "room-1", t).is_ok());
    assert_eq!(
        store.validate_and_consume(&record.code, "room-1", t),
        Err(JoinRejectionReason::InviteExhausted)
    );
}

#[test]
fn test_double_consume_rejected() {
    let mut store = make_store();
    let t = now();
    let record = store.generate("room-1", "issuer-1", Some(1), t).unwrap();
    assert!(store.validate_and_consume(&record.code, "room-1", t).is_ok());
    assert_eq!(
        store.validate_and_consume(&record.code, "room-1", t),
        Err(JoinRejectionReason::InviteExhausted),
    );
    assert_eq!(
        store.validate_and_consume(&record.code, "room-1", t),
        Err(JoinRejectionReason::InviteExhausted),
    );
}

#[test]
fn test_sweep_with_zero_expired_invites() {
    let mut store = make_store();
    let t = now();
    store.generate("room-1", "issuer-1", None, t).unwrap();
    let removed = store.sweep_expired(t);
    assert_eq!(removed, 0);
    assert_eq!(store.total_invite_count(), 1);
}

#[test]
fn test_valid_invite_accepted() {
    let mut store = make_store();
    let t = now();
    let record = store.generate("room-1", "issuer-1", None, t).unwrap();
    assert_eq!(store.validate_and_consume(&record.code, "room-1", t), Ok(()));
}

#[test]
fn test_expired_invite_rejected() {
    let mut store = InviteStore::new(InviteStoreConfig {
        default_ttl: Duration::from_secs(1),
        ..InviteStoreConfig::default()
    });
    let t = now();
    let record = store.generate("room-1", "issuer-1", None, t).unwrap();
    assert_eq!(
        store.validate(&record.code, "room-1", t.plus(Duration::from_secs(2))),
        Err(JoinRejectionReason::InviteExpired)
    );
}

#[test]
fn test_invalid_invite_code_format_rejected() {
    let store = make_store();
    let t = now();
    for code in ["", "!@#$%", "abc"] {
        assert_eq!(
            store.validate(code, "room-1", t),
            Err(JoinRejectionReason::InviteInvalid),
            "code {code:?} should be rejected as invalid"
        );
    }
}

#[test]
fn test_room_invite_limit_at_limit_rejected() {
    let mut store = InviteStore::new(InviteStoreConfig {
        max_invites_per_room: 3,
        max_invites_global: 1000,
        ..InviteStoreConfig::default()
    });
    let t = now();
    for _ in 0..3 {
        store.generate("room-1", "issuer-1", None, t).unwrap();
    }
    let result = store.generate("room-1", "issuer-1", None, t);
    assert!(matches!(
        result,
        Err(InviteError::RoomLimitReached { ref room_id, limit })
            if room_id == "room-1" && limit == 3
    ));
}

#[test]
fn test_room_invite_limit_over_limit_rejected() {
    let mut store = InviteStore::new(InviteStoreConfig {
        max_invites_per_room: 3,
        max_invites_global: 1000,
        ..InviteStoreConfig::default()
    });
    let t = now();
    for attempt in 0..5 {
        let result = store.generate("room-1", "issuer-1", None, t);
        if attempt < 3 {
            assert!(result.is_ok(), "attempt {} should succeed", attempt + 1);
        } else {
            assert!(
                matches!(
                    result,
                    Err(InviteError::RoomLimitReached { ref room_id, limit })
                        if room_id == "room-1" && limit == 3
                ),
                "attempt {} should be rejected at the room cap",
                attempt + 1
            );
        }
    }
    assert_eq!(store.room_invite_count("room-1"), 3);
}

#[test]
fn invites_are_for_one_room_and_can_be_revoked_by_its_host() {
    let mut store = make_store();
    let t = now();
    let record = store.generate("room-1", "issuer-1", None, t).unwrap();
    assert_eq!(record.remaining_uses, 6);
    assert_eq!(URL_SAFE_NO_PAD.decode(&record.code).unwrap().len(), 16);
    assert_eq!(
        store.validate(&record.code, "room-2", t),
        Err(JoinRejectionReason::InviteInvalid)
    );
    assert_eq!(
        store.revoke_authorized(&record.code, "room-1", "x", ParticipantRole::Guest),
        Err(InviteRevokeError::Unauthorized)
    );
    assert_eq!(
        store.revoke_authorized("other", "room-1", "x", ParticipantRole::Host),
        Err(InviteRevokeError::NotFound)
    );
    assert_eq!(
        store.revoke_authorized(&record.code, "room-1", "x", ParticipantRole::Host),
        Ok(())
    );
    assert_eq!(
        store.validate(&record.code, "room-1", t),
        Err(JoinRejectionReason::InviteRevoked)
    );
    assert!(matches!(store.revoke("other"), Err(InviteError::NotFound)));
    store.remove_room_invites("room-1");
    assert_eq!(store.total_invite_count(), 0);
    assert_eq!(store.default_ttl_secs(), 3600);
}

#[test]
fn revoked_invites_do_not_count() {
    let mut store = InviteStore::new(InviteStoreConfig {
        default_ttl: Duration::from_secs(10),
        max_invites_per_room: 2,
        ..InviteStoreConfig::default()
    });
    let t = now();
    let first = store.generate("room-1", "issuer-1", None, t).unwrap();
    assert_eq!(store.room_invite_count("room-1"), 1);
    store.revoke(&first.code).unwrap();
    assert_eq!(store.room_invite_count("room-1"), 0);
    store.revoke(&first.code).unwrap();
    assert_eq!(store.room_invite_count("room-1"), 0);
    assert_eq!(store.total_invite_count(), 1);

    let second = store.generate("room-1", "issuer-1", None, t).unwrap();
    store.generate("room-1", "issuer-1", None, t).unwrap();
    assert!(matches!(
        store.generate("room-1", "issuer-1", None, t),
        Err(InviteError::RoomLimitReached { limit: 2, .. })
    ));
    assert_eq!(
        store.revoke_authorized(&second.code, "room-1", "x", ParticipantRole::Host),
        Ok(())
    );
    assert_eq!(store.room_invite_count("room-1"), 1);
    store.generate("room-1", "issuer-1", None, t.plus(Duration::from_secs(5))).unwrap();
    assert_eq!(store.room_invite_count("room-1"), 2);

    assert_eq!(store.sweep_expired(t.plus(Duration::from_secs(10))), 3);
    assert_eq!(store.room_invite_count("room-1"), 1);
    assert_eq!(store.total_invite_count(), 1);
}

#[test]
fn the_counts_of_the_rooms_add_up() {
    let mut store = make_store();
    let t = now();
    for (room, n) in [("a", 3usize), ("b", 1), ("c", 2)] {
        for _ in 0..n {
            store.generate(room, "i", None, t).unwrap();
        }
    }
    let sum = |s: &InviteStore| -> usize {
        ["a", "b", "c", "d"].iter().map(|room| s.room_invite_count(room)).sum()
    };
    assert_eq!(store.total_invite_count(), 6);
    assert_eq!(sum(&store), 6);
    store.remove_room_invites("a");
    assert_eq!(store.total_invite_count(), 3);
    assert_eq!(sum(&store), 3);
}

#[test]
fn the_global_limit_holds_and_sweeping_makes_room() {
    let mut store = InviteStore::new(InviteStoreConfig {
        default_ttl: Duration::from_secs(10),
        max_invites_global: 2,
        ..InviteStoreConfig::default()
    });
    let t = now();
    store.generate("a", "i", None, t).unwrap();
    store.generate("b", "i", None, t).unwrap();
    let full = store.generate("c", "i", None, t).unwrap_err();
    assert!(matches!(full, InviteError::GlobalLimitReached { limit: 2 }));
    assert_eq!(store.sweep_expired(t.plus(Duration::from_secs(11))), 2);
    assert_eq!(store.room_invite_count("a"), 0);
    let record = store.generate("c", "i", Some(2), t).unwrap();
    store.consume_use(&record.code);
    assert!(store.validate_and_consume(&record.code, "c", t).is_ok());
    assert_eq!(
        store.validate(&record.code, "c", t),
        Err(JoinRejectionReason::InviteExhausted)
    );
}

// Invites to a channel.

#[test]
fn prop_invite_code_entropy_and_format() {
    let mut codes = HashSet::new();
    for _ in 0..1000 {
        let code = generate_invite_code();
        assert_eq!(code.len(), 22, "invite code must be 22 chars");
        let decoded = URL_SAFE_NO_PAD.decode(&code).expect("must be valid base64url");
        assert_eq!(decoded.len(), 16, "decoded invite code must be 16 bytes");
        assert!(codes.insert(code), "duplicate invite code detected");
    }
}

#[test]
fn channel_names_are_bounded() {
    assert!(validate_channel_name("General").is_ok());
    assert!(validate_channel_name(&"x".repeat(100)).is_ok());
    assert!(validate_channel_name("").is_err());
    assert!(validate_channel_name(&"x".repeat(101)).is_err());
}

#[test]
fn roles_are_read() {
    assert_eq!(parse_role("owner"), ChannelRole::Owner);
    assert_eq!(parse_role("admin"), ChannelRole::Admin);
    assert_eq!(parse_role("member"), ChannelRole::Member);
    assert!(matches!(parse_assignable_role("owner"), Err(ChannelError::InvalidRole)));
    assert_eq!(parse_assignable_role("admin").unwrap(), ChannelRole::Admin);
    assert_eq!(role_to_string(ChannelRole::Member), "member");
}

fn channel() -> Channel {
    Channel {
        channel_id: id(1),
        name: "General".to_string(),
        owner_user_id: id(2),
        created_at: time(0),
    }
}

fn stored_member(n: u128, role: &str) -> StoredMember {
    StoredMember {
        user_id: id(n),
        role: role.to_string(),
        joined_at: time(1),
        display_name: format!("user {n}"),
    }
}

#[test]
fn detail_needs_membership_and_the_owner() {
    let step = get_channel_detail(Detail::LoadMembership, member("admin"));
    let step = get_channel_detail(step, ChannelEvent::Channel(Some(channel())));
    let step = get_channel_detail(step, ChannelEvent::Owner(Some(id(2))));
    let members = vec![stored_member(2, "owner"), stored_member(3, "admin")];
    match get_channel_detail(step, ChannelEvent::Members(members)) {
        Detail::Done(Ok(d)) => {
            assert_eq!(d.role, ChannelRole::Admin);
            assert_eq!(d.members.len(), 2);
            let shown = routes::get_channel(Ok(d)).unwrap();
            assert_eq!(shown.members[0].display_name, "user 2");
        }
        other => panic!("expected the detail, got {:?}", other),
    }
    assert!(matches!(
        get_channel_detail(Detail::LoadMembership, ChannelEvent::Membership(None)),
        Detail::Done(Err(ChannelError::NotMember))
    ));
    assert!(matches!(
        get_channel_detail(Detail::LoadMembership, banned("member")),
        Detail::Done(Err(ChannelError::Banned))
    ));
}

#[test]
fn only_the_owner_deletes() {
    let step = delete_channel(Deletion::LoadOwner, ChannelEvent::Owner(Some(id(2))), id(2));
    assert!(matches!(step, Deletion::Delete));
    assert!(matches!(
        delete_channel(step, ChannelEvent::Updated, id(2)),
        Deletion::Done(Ok(()))
    ));
    assert!(matches!(
        delete_channel(Deletion::LoadOwner, ChannelEvent::Owner(Some(id(2))), id(3)),
        Deletion::Done(Err(_))
    ));
}

#[test]
fn managers_create_invites() {
    let step = create_invite(
        InviteCreation::LoadMembership,
        member("admin"),
        time(100),
        Some(60),
        Some(3),
    );
    match step {
        InviteCreation::Store { code, expires_at, max_uses } => {
            assert_eq!(code.len(), 22);
            assert_eq!(expires_at.unwrap().parts(), (160, 0));
            assert_eq!(max_uses, Some(3));
        }
        other => panic!("expected an invite, got {:?}", other),
    }
    assert!(matches!(
        create_invite(InviteCreation::LoadMembership, member("member"), time(0), None, None),
        InviteCreation::Done(Err(_))
    ));
    let stored = ChannelInvite {
        code: "c".to_string(),
        channel_id: id(1),
        expires_at: None,
        max_uses: None,
        uses: 0,
        created_at: time(0),
    };
    let store = InviteCreation::Store { code: "c".to_string(), expires_at: None, max_uses: None };
    assert!(matches!(
        create_invite(store, ChannelEvent::InviteStored(stored), time(0), None, None),
        InviteCreation::Done(Ok(_))
    ));
    let step = revoke_invite(Revocation::LoadMembership, member("owner"));
    assert!(matches!(step, Revocation::Remove));
    assert!(matches!(
        revoke_invite(step, ChannelEvent::Removed(0)),
        Revocation::Done(Err(ChannelError::InviteNotFound))
    ));
}

#[test]
fn joining_makes_a_member() {
    let step = join_channel_by_invite(Joining::TakeInvite, ChannelEvent::InviteTaken(Some(id(1))));
    let step = join_channel_by_invite(step, ChannelEvent::Membership(None));
    let step = join_channel_by_invite(step, ChannelEvent::Joined(true));
    match join_channel_by_invite(step, ChannelEvent::Named("General".to_string())) {
        Joining::Done(Ok(j)) => {
            assert_eq!((j.role, j.name.as_str()), (ChannelRole::Member, "General"))
        }
        other => panic!("expected to join, got {:?}", other),
    }
    assert!(matches!(
        join_channel_by_invite(Joining::TakeInvite, ChannelEvent::InviteTaken(None)),
        Joining::Done(Err(ChannelError::InvalidInvite))
    ));
    let step = join_channel_by_invite(Joining::TakeInvite, ChannelEvent::InviteTaken(Some(id(1))));
    assert!(matches!(
        join_channel_by_invite(step, banned("member")),
        Joining::Done(Err(ChannelError::Banned))
    ));
    assert!(matches!(
        leave_channel(Leaving::LoadMembership, member("owner")),
        Leaving::Done(Err(ChannelError::OwnerCannotLeave))
    ));
    let step = leave_channel(Leaving::LoadMembership, member("member"));
    assert!(matches!(step, Leaving::Remove));
}

#[test]
fn bans_respect_rank() {
    assert!(matches!(start_ban(id(1), id(1)), Banning::Done(Err(ChannelError::SelfBan))));
    let ban = |requester: &str, target: &str| {
        let step = ban_member(start_ban(id(1), id(2)), member(requester), id(9), id(2));
        ban_member(step, member(target), id(9), id(2))
    };
    assert!(matches!(ban("owner", "admin"), Banning::Ban));
    assert!(matches!(ban("admin", "member"), Banning::Ban));
    assert!(matches!(ban("admin", "owner"), Banning::Done(Err(ChannelError::CannotBanOwner))));
    assert!(matches!(
        ban("admin", "admin"),
        Banning::Done(Err(ChannelError::InsufficientPrivileges))
    ));
    match ban_member(ban("owner", "member"), ChannelEvent::BannedAt(time(7)), id(9), id(2)) {
        Banning::Done(Ok(b)) => assert_eq!((b.channel_id, b.user_id), (id(9), id(2))),
        other => panic!("expected a ban, got {:?}", other),
    }
    let step = unban_member(Unbanning::LoadRequester, member("admin"));
    assert!(matches!(
        unban_member(step, member("member")),
        Unbanning::Done(Err(ChannelError::TargetNotBanned))
    ));
}

#[test]
fn roles_change_by_the_owner_only() {
    assert!(matches!(
        start_role_change("owner"),
        RoleChange::Done(Err(ChannelError::InvalidRole))
    ));
    let change = |requester: &str, target: ChannelEvent| {
        let step = change_role(start_role_change("admin"), member(requester), id(9), id(1), id(2));
        match step {
            RoleChange::Done(_) => step,
            step => change_role(step, target, id(9), id(1), id(2)),
        }
    };
    assert!(matches!(change("owner", member("member")), RoleChange::Update { .. }));
    assert!(matches!(change("admin", member("member")), RoleChange::Done(Err(_))));
    assert!(matches!(
        change("owner", member("owner")),
        RoleChange::Done(Err(ChannelError::CannotChangeOwnerRole))
    ));
    assert!(matches!(
        change("owner", banned("member")),
        RoleChange::Done(Err(ChannelError::CannotChangeBannedRole))
    ));
    match change_role(
        change("owner", member("member")),
        ChannelEvent::Updated,
        id(9),
        id(1),
        id(2),
    ) {
        RoleChange::Done(Ok(r)) => assert_eq!(r.role, ChannelRole::Admin),
        other => panic!("expected a change, got {:?}", other),
    }
}

#[test]
fn channels_are_listed_with_their_roles() {
    let rows = vec![
        StoredListing { channel: channel(), role: "owner".to_string() },
        StoredListing { channel: channel(), role: "guest".to_string() },
    ];
    let items = list_channels(Ok(rows)).unwrap();
    assert_eq!(items.len(), 2);
    assert_eq!(items[0].role, ChannelRole::Owner);
    assert_eq!(items[0].name, "General");
    let shown = routes::list_channels(Ok(items)).unwrap();
    assert_eq!(shown[0].channel_id, "00000000-0000-0000-0000-000000000001");
    assert_eq!(shown[0].owner_user_id, "00000000-0000-0000-0000-000000000002");
    assert_eq!(shown[0].role, "owner");
    assert_eq!(shown[1].role, "member");
    assert_eq!(shown[0].created_at, "1970-01-01T00:00:00+00:00");
    assert!(matches!(
        list_channels(Err("down".to_string())),
        Err(ChannelError::DatabaseError(_))
    ));
}

#[test]
fn creators_become_owners() {
    assert!(matches!(start_creation(""), Creation::Done(Err(ChannelError::InvalidName))));
    let step = start_creation("General");
    let step = create_channel(step, ChannelEvent::Channel(Some(channel())));
    assert!(matches!(step, Creation::AddMember { role: ChannelRole::Owner, .. }));
    match create_channel(step, ChannelEvent::Updated) {
        Creation::Done(Ok(c)) => {
            let (status, shown) = routes::create_channel(Ok(c)).unwrap();
            assert_eq!((status, shown.name.as_str()), (201, "General"));
        }
        other => panic!("expected a channel, got {:?}", other),
    }
    let failed = create_channel(Creation::Store, ChannelEvent::Failed("down".to_string()));
    assert!(matches!(failed, Creation::Done(Err(ChannelError::DatabaseError(_)))));
}

fn invite() -> ChannelInvite {
    ChannelInvite {
        code: "c".to_string(),
        channel_id: id(1),
        expires_at: Some(time(60)),
        max_uses: Some(2),
        uses: 1,
        created_at: time(0),
    }
}

#[test]
fn managers_list_bans_and_invites() {
    let step = list_bans(BanListing::LoadMembership, member("admin"));
    let bans = vec![BannedMemberInfo { user_id: id(3), banned_at: time(5) }];
    match list_bans(step, ChannelEvent::Bans(bans)) {
        BanListing::Done(Ok(bans)) => {
            let shown = routes::list_bans(Ok(bans)).unwrap();
            assert_eq!(shown.banned[0].user_id, "00000000-0000-0000-0000-000000000003");
            assert_eq!(shown.banned[0].banned_at, "1970-01-01T00:00:05+00:00");
        }
        other => panic!("expected the bans, got {:?}", other),
    }
    assert!(matches!(
        list_bans(BanListing::LoadMembership, member("member")),
        BanListing::Done(Err(ChannelError::Forbidden))
    ));
    let step = list_invites(InviteListing::LoadMembership, member("owner"));
    match list_invites(step, ChannelEvent::Invites(vec![invite()])) {
        InviteListing::Done(Ok(invites)) => {
            let shown = routes::list_invites(Ok(invites)).unwrap();
            assert_eq!(shown[0].expires_at.as_deref(), Some("1970-01-01T00:01:00+00:00"));
            assert_eq!((shown[0].max_uses, shown[0].uses), (Some(2), 1));
        }
        other => panic!("expected the invites, got {:?}", other),
    }
    assert!(matches!(
        list_invites(InviteListing::LoadMembership, banned("owner")),
        InviteListing::Done(Err(ChannelError::Forbidden))
    ));
}

#[test]
fn channel_requests_are_counted() {
    let config = ChannelRateLimiterConfig { max_per_user: 2, window_secs: 60 };
    let mut limiter = ChannelRateLimiter::new(config);
    assert!(check_rate_limit(&mut limiter, id(1), now()).is_ok());
    assert!(check_rate_limit(&mut limiter, id(1), now()).is_ok());
    let e = check_rate_limit(&mut limiter, id(1), now()).unwrap_err();
    assert_eq!((e.status, e.error.as_str()), (429, "too many requests"));
    assert!(check_rate_limit(&mut limiter, id(2), now()).is_ok());
}

#[test]
fn channel_answers_show_what_was_done() {
    assert_eq!(routes::delete_channel(Ok(())).unwrap(), 204);
    assert_eq!(routes::leave_channel(Ok(())).unwrap(), 204);
    assert_eq!(routes::revoke_invite(Ok(())).unwrap(), 204);
    assert_eq!(routes::unban_member(Ok(())).unwrap(), 204);
    assert_eq!(routes::delete_channel(Err(ChannelError::Forbidden)).unwrap_err().status, 403);
    assert_eq!(routes::create_invite(Ok(invite())).unwrap().0, 201);
    let joined = JoinResult {
        channel_id: id(1),
        name: "General".to_string(),
        role: ChannelRole::Member,
    };
    let body = routes::join_channel(Ok(joined)).unwrap();
    assert_eq!((body.name.as_str(), body.role.as_str()), ("General", "member"));
    let ban = BanResult { channel_id: id(1), user_id: id(3), banned_at: time(5) };
    let body = routes::ban_member(Ok(ban)).unwrap();
    assert_eq!(body.user_id, "00000000-0000-0000-0000-000000000003");
    assert_eq!(body.banned_at, "1970-01-01T00:00:05+00:00");
    let change = RoleChangeResult { channel_id: id(1), user_id: id(3), role: ChannelRole::Admin };
    assert_eq!(routes::change_role(Ok(change)).unwrap().role, "admin");
}

#[test]
fn channel_answers_are_opaque() {
    let r = map_channel_error(&ChannelError::DatabaseError("secret".to_string()));
    assert_eq!(r.status, 500);
    assert!(!r.error.contains("secret"));
    let plain = || StoredMembership { role: "member".to_string(), banned_at: None };
    let barred = StoredMembership { role: "owner".to_string(), banned_at: Some(time(5)) };
    let mut rooms: Table<Uuid, String> = Table::new();
    let ann = || Some(vec!["Ann".to_string()]);
    let e = get_voice_status(Ok(None), id(1), &rooms, None).unwrap_err();
    assert_eq!((e.status, e.error.as_str()), (403, "forbidden"));
    let e = get_voice_status(Ok(Some(barred)), id(1), &rooms, None).unwrap_err();
    assert_eq!((e.status, e.error.as_str()), (403, "forbidden"));
    let e = get_voice_status(Err("down".to_string()), id(1), &rooms, None).unwrap_err();
    assert_eq!(e.status, 500);
    assert!(!get_voice_status(Ok(Some(plain())), id(1), &rooms, ann()).unwrap().active);
    rooms.insert(id(1), "room-1".to_string());
    assert_eq!(active_room(&rooms, id(1)), Some(&"room-1".to_string()));
    assert_eq!(active_room(&rooms, id(2)), None);
    let in_room = get_voice_status(Ok(Some(plain())), id(1), &rooms, ann()).unwrap();
    assert!(in_room.active);
    assert_eq!(in_room.participant_count, Some(1));
    assert_eq!(in_room.participants.unwrap()[0].display_name, "Ann");
    assert!(!get_voice_status(Ok(Some(plain())), id(2), &rooms, ann()).unwrap().active);
    assert!(!get_voice_status(Ok(Some(plain())), id(1), &rooms, None).unwrap().active);
}
