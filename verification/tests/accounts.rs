use wavis_backend::auth::auth::{
    generate_recovery_id, hash_refresh_token, pair_from, recover_account, recovery_id_from, register_device,
    register_user, registration_from, rotate_phrase,
    rotate_refresh_token, start_rotation, try_rotate, AccountEvent, AfterTry, AuthError, DeviceRegistration,
    DeviceSetup, PhraseChange, PhraseEvent, PhraseKeys, Recovery, Registration, Rotation,
    RotationEvent, TokenKeys, TokenPair,
};
use wavis_backend::auth::auth_rate_limiter::{AuthRateLimiter, AuthRateLimiterConfig};
use wavis_backend::auth::device;
use wavis_backend::auth::device::{
    DeviceError, DeviceInfo, LogoutAll, LogoutEvent, Revocation, RevocationEvent,
};
use wavis_backend::auth::jwt::validate_access_token;
use wavis_backend::auth::pairing::{
    approve_pairing, finish_pairing, finish_with_tokens, generate_pairing_code, hmac_code,
    pairing_code_from, start_pairing, Approval, Finish, PairingError, PairingEvent, PairingKeys,
    PairingSession,
};
use wavis_backend::auth::phrase::{
    constant_time_eq, decrypt_blob, dummy_verifier_from, encrypt_blob, encrypt_blob_with,
    generate_dummy_verifier, hash_phrase, verify_dummy, verify_phrase, PhraseConfig, PhraseError,
};
use wavis_backend::auth::recovery_rate_limiter::{RecoveryRateLimiter, RecoveryRateLimiterConfig};
use wavis_backend::auth::routes;
use wavis_backend::auth::routes::{
    admit_recovery, admit_refresh, admit_registration, map_device_error, map_pairing_error,
    map_recover_error, map_refresh_error, recover, validate_username,
};
use wavis_backend::calendar::UtcTime;
use wavis_backend::ids::Uuid;
use wavis_backend::net::IpAddr;
use wavis_backend::time::{Duration, Instant};

const SECRET: &[u8] = b"test-auth-secret-at-least-32-bytes!!";
const PEPPER: &[u8] = b"test-pepper-at-least-32-bytes!!!!!!";
const KEY: [u8; 32] = [7; 32];
const MAX_NAME: usize = 32;

fn small() -> PhraseConfig {
    PhraseConfig { memory_cost_kib: 64, iterations: 1, parallelism: 1 }
}

fn keys() -> TokenKeys<'static> {
    TokenKeys { auth_secret: SECRET, access_ttl_secs: 900, refresh_ttl_days: 30, pepper: PEPPER }
}

fn time(secs: i64) -> UtcTime {
    UtcTime::new(secs, 0).unwrap()
}

fn id(n: u128) -> Uuid {
    Uuid::from_u128(n)
}

fn ip(n: u8) -> IpAddr {
    IpAddr::v4(10, 0, 0, n)
}

fn start() -> Instant {
    Instant::from_origin(Duration::from_secs(1_000_000))
}

// Phrases.

#[test]
fn phrases_verify_for_their_user_only() {
    let config = small();
    let hash = hash_phrase("correct horse", &id(1), &config).unwrap();
    assert!(verify_phrase("correct horse", &id(1), &hash.salt, &hash.verifier, &config).unwrap());
    assert!(!verify_phrase("wrong horse", &id(1), &hash.salt, &hash.verifier, &config).unwrap());
    assert!(!verify_phrase("correct horse", &id(2), &hash.salt, &hash.verifier, &config).unwrap());
    let again = hash_phrase("correct horse", &id(1), &config).unwrap();
    assert_ne!(hash.salt, again.salt);
    let weak = PhraseConfig { memory_cost_kib: 1, iterations: 1, parallelism: 1 };
    assert!(matches!(hash_phrase("x", &id(1), &weak), Err(PhraseError::InvalidConfig(_))));
    let dummy = generate_dummy_verifier(&config);
    assert!(!verify_dummy("anything", &dummy, &config).unwrap());
}

#[test]
fn blobs_open_with_their_key_only() {
    let sealed = encrypt_blob(b"secret", &KEY).unwrap();
    assert_ne!(&sealed[..], b"secret");
    assert_eq!(sealed.len(), 12 + 6 + 16);
    assert_eq!(decrypt_blob(&sealed, &KEY).unwrap(), b"secret");
    assert!(matches!(decrypt_blob(&sealed, &[8; 32]), Err(PhraseError::DecryptionFailed(_))));
    assert!(matches!(decrypt_blob(&sealed[..10], &KEY), Err(PhraseError::DecryptionFailed(_))));
    assert!(matches!(encrypt_blob(b"x", &[0; 5]), Err(PhraseError::EncryptionFailed(_))));
    let mut torn = sealed.clone();
    torn[20] ^= 1;
    assert!(decrypt_blob(&torn, &KEY).is_err());
    assert!(constant_time_eq(b"abc", b"abc"));
    assert!(!constant_time_eq(b"abc", b"abd"));
    assert!(!constant_time_eq(b"abc", b"ab"));
}

// Registration and recovery.

fn registered(phrase: &str) -> (DeviceRegistration, Vec<u8>, Vec<u8>) {
    let config = small();
    let phrase_keys = PhraseKeys { config: &config, encryption_key: &KEY };
    let step = register_user(
        Registration::CreateUser,
        AccountEvent::UserCreated(id(1)),
        phrase,
        &phrase_keys,
        &keys(),
    );
    let (salt, verifier) = match &step {
        Registration::SetPhrase { salt, verifier, .. } => (salt.clone(), verifier.clone()),
        other => panic!("expected to set the phrase, got {:?}", other),
    };
    let step = register_user(step, AccountEvent::PhraseSet, phrase, &phrase_keys, &keys());
    let step = register_user(
        step,
        AccountEvent::DeviceAdded(id(2), time(1_000)),
        phrase,
        &phrase_keys,
        &keys(),
    );
    match &step {
        Registration::StoreToken { token, .. } => {
            assert_eq!(token.expires_at.parts().0, 1_000 + 30 * 86_400)
        }
        other => panic!("expected to store the token, got {:?}", other),
    }
    match register_user(step, AccountEvent::TokenStored, phrase, &phrase_keys, &keys()) {
        Registration::Done(Ok(r)) => (r, salt, verifier),
        other => panic!("expected a registration, got {:?}", other),
    }
}

#[test]
fn a_registered_phrase_recovers_the_account() {
    let (r, salt, verifier) = registered("my phrase");
    assert_eq!((r.user_id, r.device_id), (id(1), id(2)));
    assert!(r.recovery_id.starts_with("wvs-"));
    assert_eq!(validate_access_token(&r.access_token, SECRET).unwrap(), (id(1), id(2), 0));
    let config = small();
    let phrase_keys = PhraseKeys { config: &config, encryption_key: &KEY };
    let dummy = generate_dummy_verifier(&config);
    let found = || {
        AccountEvent::UserFound(Some((id(1), Some(salt.clone()), Some(verifier.clone()))))
    };
    let go = |doing, event, phrase: &str| {
        recover_account(doing, event, &r.recovery_id, phrase, &phrase_keys, &keys(), &dummy)
    };
    let step = go(Recovery::FindUser, found(), "my phrase");
    let step = go(step, AccountEvent::DeviceAdded(id(3), time(0)), "my phrase");
    let step = go(step, AccountEvent::TokenStored, "my phrase");
    match go(step, AccountEvent::Epoch(4), "my phrase") {
        Recovery::Done(Ok(found)) => {
            assert_eq!(
                validate_access_token(&found.access_token, SECRET).unwrap(),
                (id(1), id(3), 4)
            );
            assert_eq!(found.recovery_id, r.recovery_id);
        }
        other => panic!("expected a recovery, got {:?}", other),
    }
    assert!(matches!(
        go(Recovery::FindUser, found(), "other phrase"),
        Recovery::Done(Err(AuthError::PhraseVerificationFailed))
    ));
    assert!(matches!(
        go(Recovery::FindUser, AccountEvent::UserFound(None), "my phrase"),
        Recovery::Done(Err(AuthError::RecoveryIdNotFound))
    ));
}

#[test]
fn phrases_change_after_the_current_one_is_checked() {
    let (_, salt, verifier) = registered("old");
    let config = small();
    let phrase_keys = PhraseKeys { config: &config, encryption_key: &KEY };
    let loaded = PhraseEvent::Loaded(Some((Some(salt.clone()), Some(verifier.clone()))));
    let step = rotate_phrase(PhraseChange::Load, loaded, id(1), "old", "new", &phrase_keys);
    assert!(matches!(step, PhraseChange::Store { .. }));
    assert!(matches!(
        rotate_phrase(step, PhraseEvent::Stored, id(1), "old", "new", &phrase_keys),
        PhraseChange::Done(Ok(()))
    ));
    let loaded = PhraseEvent::Loaded(Some((Some(salt), Some(verifier))));
    assert!(matches!(
        rotate_phrase(PhraseChange::Load, loaded, id(1), "wrong", "new", &phrase_keys),
        PhraseChange::Done(Err(AuthError::PhraseVerificationFailed))
    ));
}

#[test]
fn devices_register_without_a_phrase() {
    let step = register_device(DeviceSetup::CreateUser, AccountEvent::UserCreated(id(1)), &keys());
    let step = register_device(step, AccountEvent::DeviceAdded(id(2), time(0)), &keys());
    match register_device(step, AccountEvent::TokenStored, &keys()) {
        DeviceSetup::Done(Ok(r)) => assert_eq!((r.user_id, r.recovery_id.as_str()), (id(1), "")),
        other => panic!("expected a registration, got {:?}", other),
    }
    assert!(matches!(
        register_device(
            DeviceSetup::CreateUser,
            AccountEvent::Failed("down".to_string()),
            &keys()
        ),
        DeviceSetup::Done(Err(AuthError::DatabaseError(_)))
    ));
}

#[test]
fn a_blob_is_its_nonce_and_what_is_sealed_under_it() {
    let blob = encrypt_blob_with(vec![0; 12], &[0; 16], &[0; 32]).unwrap();
    assert_eq!(blob[..12], [0; 12]);
    assert_eq!(
        hex::encode(&blob[12..]),
        "cea7403d4d606b6e074ec5d3baf39d18d0d1c8a799996bf0265b98b5d48ab919"
    );
    assert!(matches!(
        encrypt_blob_with(vec![0; 12], &[0; 16], &[0; 31]),
        Err(PhraseError::EncryptionFailed(_))
    ));
}

#[test]
fn the_dummy_verifies_only_its_secret() {
    let config = small();
    let dummy = dummy_verifier_from(&[0xab; 32], vec![1; 16], &config);
    assert!(verify_dummy(&"ab".repeat(32), &dummy, &config).unwrap());
    assert!(!verify_dummy(&"AB".repeat(32), &dummy, &config).unwrap());
}

#[test]
fn recovery_ids_have_their_format() {
    for _ in 0..50 {
        let rid = generate_recovery_id();
        assert_eq!(rid.len(), 13);
        assert!(rid.starts_with("wvs-"));
        assert_eq!(rid.as_bytes()[8], b'-');
        assert!(rid[4..8].chars().chain(rid[9..].chars()).all(|c| c.is_ascii_uppercase() || c.is_ascii_digit()));
    }
}

#[test]
fn recovery_ids_spell_the_numbers_drawn() {
    assert_eq!(recovery_id_from(&vec![0, 25, 26, 35, 1, 2, 27, 34]), "wvs-AZ09-BC18");
    assert_eq!(recovery_id_from(&vec![0; 8]), "wvs-AAAA-AAAA");
}

// Rotation of refresh tokens.

#[test]
fn a_token_is_exchanged_once() {
    let step = try_rotate(
        start_rotation("raw", PEPPER),
        RotationEvent::Consumed(Some((id(2), id(9)))),
        &keys(),
    );
    let step = try_rotate(step, RotationEvent::UserLoaded(Some((id(1), 3)), time(0)), &keys());
    let step = try_rotate(step, RotationEvent::TokenStored, &keys());
    match try_rotate(step, RotationEvent::Committed, &keys()) {
        Rotation::Done(Ok(pair)) => {
            assert_eq!(validate_access_token(&pair.access_token, SECRET).unwrap(), (id(1), id(2), 3))
        }
        other => panic!("expected a pair, got {:?}", other),
    }
}

#[test]
fn a_token_used_again_ends_all_sessions() {
    let step = try_rotate(start_rotation("raw", PEPPER), RotationEvent::Consumed(None), &keys());
    assert!(matches!(&step, Rotation::FindReuse { token_hash } if *token_hash == hash_refresh_token("raw", PEPPER)));
    let step = try_rotate(step, RotationEvent::ReuseFound(Some(id(2))), &keys());
    let step = try_rotate(step, RotationEvent::ReuserFound(Some(id(1))), &keys());
    assert!(matches!(step, Rotation::RevokeTokens { .. }));
    let step = try_rotate(step, RotationEvent::TokensRevoked, &keys());
    assert!(matches!(step, Rotation::BumpEpoch { .. }));
    let step = try_rotate(step, RotationEvent::EpochBumped, &keys());
    assert!(matches!(
        try_rotate(step, RotationEvent::Committed, &keys()),
        Rotation::Done(Err(AuthError::TokenReuseDetected))
    ));
}

#[test]
fn rotation_is_tried_again_on_conflicts() {
    let conflict = || Err(AuthError::DatabaseError("could not serialize access: 40001".to_string()));
    match rotate_refresh_token(0, conflict()) {
        AfterTry::Again { sleep_millis } => assert!(sleep_millis > 0),
        AfterTry::Done(_) => panic!("a conflict should be tried again"),
    }
    assert!(matches!(
        rotate_refresh_token(0, Err(AuthError::RefreshTokenInvalid)),
        AfterTry::Done(Err(AuthError::RefreshTokenInvalid))
    ));
}

// Pairing.

fn pairing_keys() -> PairingKeys<'static> {
    PairingKeys {
        pepper: PEPPER,
        auth_secret: SECRET,
        access_ttl_secs: 900,
        refresh_ttl_days: 30,
        refresh_pepper: PEPPER,
    }
}

fn session(hash: &[u8]) -> PairingSession {
    PairingSession {
        pairing_id: id(5),
        code_hash: hash.to_vec(),
        request_device_name: "Laptop".to_string(),
        approved_user_id: None,
        approved_by_device_id: None,
        approved_at: None,
        expires_at: time(100),
        used_at: None,
        attempt_count: 0,
    }
}

#[test]
fn pairings_are_approved_with_the_code() {
    let (code, hash) = start_pairing(PEPPER);
    assert_eq!(hash, hmac_code(&code, PEPPER));
    assert_eq!(generate_pairing_code().len(), 8);
    let step = |doing: Approval, event: PairingEvent, code: &str| {
        approve_pairing(doing, event, code, id(1), id(2), PEPPER)
    };
    let load = |s: PairingSession, now: i64, code: &str| {
        step(Approval::Load, PairingEvent::Session(Some(s), time(now)), code)
    };
    let next = load(session(&hash), 0, &code);
    match &next {
        Approval::Approve { user_id, device_id } => {
            assert_eq!((*user_id, *device_id), (id(1), id(2)))
        }
        other => panic!("expected Approve, got {:?}", other),
    }
    assert!(matches!(
        step(next, PairingEvent::Approved(true), &code),
        Approval::Done(Ok(()))
    ));
    assert!(matches!(load(session(&hash), 100, &code), Approval::Approve { .. }));
    assert!(matches!(
        load(session(&hash), 101, &code),
        Approval::Done(Err(PairingError::Expired))
    ));
    let next = load(session(&hash), 0, "WRONGCOD");
    assert!(matches!(next, Approval::CountFailure));
    assert!(matches!(
        step(next, PairingEvent::Counted(Some(1)), "WRONGCOD"),
        Approval::Done(Err(PairingError::CodeMismatch))
    ));
    let mut once_more = session(&hash);
    once_more.attempt_count = 4;
    let next = load(once_more, 0, "WRONGCOD");
    assert!(matches!(
        step(next, PairingEvent::Counted(Some(5)), "WRONGCOD"),
        Approval::Done(Err(PairingError::LockedOut))
    ));
    let mut locked = session(&hash);
    locked.attempt_count = 5;
    assert!(matches!(load(locked, 0, &code), Approval::Done(Err(PairingError::LockedOut))));
    assert!(matches!(
        step(Approval::Load, PairingEvent::Session(None, time(0)), &code),
        Approval::Done(Err(PairingError::NotFound))
    ));
}

#[test]
fn pairings_finish_once_approved() {
    let (code, hash) = start_pairing(PEPPER);
    let keys = pairing_keys();
    assert!(matches!(
        finish_pairing(Finish::Load, PairingEvent::Session(Some(session(&hash)), time(0)), &code, &keys),
        Finish::Done(Err(PairingError::NotApproved))
    ));
    let mut approved = session(&hash);
    approved.approved_user_id = Some(id(1));
    approved.approved_by_device_id = Some(id(2));
    approved.approved_at = Some(time(1));
    let step = finish_pairing(
        Finish::Load,
        PairingEvent::Session(Some(approved), time(2)),
        &code,
        &keys,
    );
    assert!(matches!(step, Finish::MarkUsed));
    let step = finish_pairing(
        step,
        PairingEvent::Used(Some((id(1), "Laptop".to_string()))),
        &code,
        &keys,
    );
    let step = finish_pairing(step, PairingEvent::DeviceAdded(id(3), time(2)), &code, &keys);
    let step = finish_pairing(step, PairingEvent::TokenStored, &code, &keys);
    let step = finish_pairing(step, PairingEvent::Epoch(6), &code, &keys);
    match finish_pairing(step, PairingEvent::Committed, &code, &keys) {
        Finish::Done(Ok(r)) => {
            assert_eq!(validate_access_token(&r.access_token, SECRET).unwrap(), (id(1), id(3), 6))
        }
        other => panic!("expected tokens, got {:?}", other),
    }
}

#[test]
fn drawn_numbers_spell_the_code() {
    assert_eq!(pairing_code_from(&vec![0, 1, 24, 25, 26, 27, 30, 31]), "ABYZ2367");
    assert_eq!(pairing_code_from(&Vec::new()), "");
}

#[test]
fn tokens_follow_from_the_answer_of_the_clock() {
    let keys = pairing_keys();
    let finish = |reading: Result<u64, String>, keys: &PairingKeys| {
        finish_with_tokens(reading, id(1), id(3), "refresh".to_string(), 6, keys)
    };
    match finish(Ok(1_000), &keys) {
        Finish::Commit { result } => {
            assert_eq!((result.user_id, result.device_id), (id(1), id(3)));
            assert_eq!(result.refresh_token, "refresh");
        }
        other => panic!("expected a commit, got {:?}", other),
    }
    let failed = |step: Finish| match step {
        Finish::Done(Err(PairingError::DatabaseError(e))) => e,
        other => panic!("expected a failure, got {:?}", other),
    };
    assert_eq!(
        failed(finish(Err("no clock".to_string()), &keys)),
        "token signing failed: no clock"
    );
    assert_eq!(
        failed(finish(Ok(u64::MAX), &keys)),
        "token signing failed: token lifetime out of range"
    );
    let short = PairingKeys { auth_secret: b"short", ..pairing_keys() };
    assert_eq!(failed(finish(Ok(1_000), &short)), "secret must be at least 32 bytes");

    let keys = self::keys();
    let rid = || "wvs-AAAA-BBBB".to_string();
    let reg = registration_from(Ok(5), id(1), id(2), rid(), "r".to_string(), 0, &keys).unwrap();
    assert_eq!((reg.user_id, reg.device_id, reg.recovery_id), (id(1), id(2), rid()));
    assert!(matches!(
        registration_from(Err("x".to_string()), id(1), id(2), rid(), "r".to_string(), 0, &keys),
        Err(AuthError::SigningFailed(e)) if e == "x"
    ));
    let pair = pair_from(Ok(5), id(1), id(2), 3, "r".to_string(), &keys).unwrap();
    assert_eq!((pair.user_id, pair.device_id, pair.refresh_token), (id(1), id(2), "r".to_string()));
    assert_eq!(pair.access_token, {
        let again = pair_from(Ok(5), id(1), id(2), 3, "s".to_string(), &keys).unwrap();
        again.access_token
    });
    assert!(matches!(
        pair_from(Ok(u64::MAX), id(1), id(2), 3, "r".to_string(), &keys),
        Err(AuthError::SigningFailed(e)) if e == "token lifetime out of range"
    ));
}

// Devices.

#[test]
fn devices_are_revoked_by_their_owner() {
    let step = device::revoke_device(
        Revocation::ReadOwner,
        RevocationEvent::Owner(Some(id(1))),
        id(1),
    );
    assert!(matches!(step, Revocation::RevokeDevice));
    let step = device::revoke_device(step, RevocationEvent::Updated, id(1));
    assert!(matches!(step, Revocation::RevokeTokens));
    assert!(matches!(
        device::revoke_device(step, RevocationEvent::Updated, id(1)),
        Revocation::Done(Ok(()))
    ));
    assert!(matches!(
        device::revoke_device(Revocation::ReadOwner, RevocationEvent::Owner(Some(id(2))), id(1)),
        Revocation::Done(Err(DeviceError::NotOwned))
    ));
    assert!(matches!(
        device::revoke_device(Revocation::ReadOwner, RevocationEvent::Owner(None), id(1)),
        Revocation::Done(Err(DeviceError::NotFound))
    ));
    let step = device::logout_all(LogoutAll::RaiseEpoch, LogoutEvent::Epoch(8));
    let step = device::logout_all(step, LogoutEvent::Updated);
    assert!(matches!(
        device::logout_all(step, LogoutEvent::Committed),
        LogoutAll::Done(Ok(8))
    ));
    let failed = device::logout_all(LogoutAll::RaiseEpoch, LogoutEvent::Failed("x".to_string()));
    match failed {
        LogoutAll::Done(Err(e)) => assert_eq!(e.message(), "database error: x"),
        other => panic!("expected an error, got {:?}", other),
    }
}

// Answers.

#[test]
fn validate_username_trims_valid_names() {
    match validate_username("  Alice  ", MAX_NAME) {
        Ok(username) => assert_eq!(username, "Alice"),
        Err(_) => panic!("valid username should be accepted"),
    }
}

#[test]
fn validate_username_rejects_empty_and_long_names() {
    assert_eq!(validate_username("   ", MAX_NAME).unwrap_err().status, 400);
    let too_long = "a".repeat(MAX_NAME + 1);
    assert_eq!(validate_username(&too_long, MAX_NAME).unwrap_err().status, 400);
    assert!(validate_username(&"é".repeat(MAX_NAME), MAX_NAME).is_ok());
}

#[test]
fn registrations_count_even_with_a_bad_name() {
    let mut limiter = AuthRateLimiter::new(AuthRateLimiterConfig::default());
    for _ in 0..5 {
        let e = admit_registration(&mut limiter, ip(1), " ", MAX_NAME, start()).unwrap_err();
        assert_eq!((e.status, e.error.as_str()), (400, "invalid username"));
    }
    let e = admit_registration(&mut limiter, ip(1), "Alice", MAX_NAME, start()).unwrap_err();
    assert_eq!((e.status, e.retry_after), (429, Some(3600)));
    assert_eq!(
        admit_registration(&mut limiter, ip(2), " Alice ", MAX_NAME, start()).unwrap(),
        "Alice"
    );
    for _ in 0..30 {
        assert!(admit_refresh(&mut limiter, ip(1), start()).is_ok());
    }
    assert_eq!(admit_refresh(&mut limiter, ip(1), start()).unwrap_err().retry_after, Some(60));
}

#[test]
fn only_attempts_on_accounts_count_toward_the_recovery_id() {
    let mut limiter = RecoveryRateLimiter::new(RecoveryRateLimiterConfig::default());
    for _ in 0..10 {
        let e = recover(&mut limiter, "wvs-AAAA-BBBB", Err(AuthError::RecoveryIdNotFound), start());
        let e = e.unwrap_err();
        assert_eq!((e.status, e.error.as_str()), (401, "authentication failed"));
    }
    assert!(limiter.check_recovery_id("wvs-AAAA-BBBB", start()));
    for _ in 0..3 {
        let r = recover(
            &mut limiter,
            "wvs-AAAA-BBBB",
            Err(AuthError::PhraseVerificationFailed),
            start(),
        );
        let e = r.unwrap_err();
        assert_eq!((e.status, e.error.as_str()), (401, "authentication failed"));
    }
    let e = admit_recovery(&mut limiter, ip(1), "wvs-AAAA-BBBB", "Alice", MAX_NAME, start())
        .unwrap_err();
    assert_eq!((e.status, e.retry_after), (429, Some(3600)));
    assert!(admit_recovery(&mut limiter, ip(1), "wvs-CCCC-DDDD", "Alice", MAX_NAME, start()).is_ok());
    for _ in 0..3 {
        let _ = admit_recovery(&mut limiter, ip(1), "wvs-CCCC-DDDD", "Alice", MAX_NAME, start());
    }
    let e = admit_recovery(&mut limiter, ip(1), "wvs-CCCC-DDDD", "Alice", MAX_NAME, start())
        .unwrap_err();
    assert_eq!(e.status, 429);
    let (reg, _, _) = registered("p");
    let r = recover(&mut limiter, "wvs-EEEE-FFFF", Ok(reg), start()).unwrap();
    assert_eq!(r.user_id, "00000000-0000-0000-0000-000000000001");
}

#[test]
fn errors_have_their_status() {
    assert_eq!(map_recover_error(&AuthError::DeviceRevoked).status, 401);
    assert_eq!(map_recover_error(&AuthError::TokenExpired).status, 500);
    assert_eq!(map_refresh_error(&AuthError::TokenReuseDetected).status, 401);
    assert_eq!(map_refresh_error(&AuthError::DatabaseError("x".to_string())).error, "internal error");
    let cases = [
        (PairingError::NotFound, 404),
        (PairingError::Expired, 401),
        (PairingError::CodeMismatch, 401),
        (PairingError::AlreadyUsed, 409),
        (PairingError::AlreadyApproved, 409),
        (PairingError::NotApproved, 403),
        (PairingError::LockedOut, 429),
        (PairingError::DatabaseError("x".to_string()), 500),
    ];
    for (e, status) in cases {
        assert_eq!(map_pairing_error(&e).status, status);
    }
    assert_eq!(map_device_error(&DeviceError::NotFound).status, 404);
    assert_eq!(map_device_error(&DeviceError::NotOwned).status, 403);
    assert_eq!(map_device_error(&DeviceError::DatabaseError("x".to_string())).status, 500);
}

#[test]
fn answers_carry_what_was_found() {
    let (reg, _, _) = registered("p");
    let refresh = reg.refresh_token.clone();
    let (status, body) = routes::register(Ok(reg)).unwrap();
    assert_eq!((status, body.refresh_token), (201, refresh));
    assert_eq!(body.device_id, "00000000-0000-0000-0000-000000000002");
    assert_eq!(routes::register(Err(AuthError::InvalidToken)).unwrap_err().status, 500);
    let pair = TokenPair {
        access_token: "a".to_string(),
        refresh_token: "r".to_string(),
        user_id: id(1),
        device_id: id(2),
    };
    assert_eq!(routes::refresh_token(Ok(pair)).unwrap().access_token, "a");
    let (status, started) = routes::pair_start(Ok((id(5), "CODE".to_string()))).unwrap();
    assert_eq!((status, started.code.as_str()), (201, "CODE"));
    assert_eq!(routes::pair_approve(Ok(())).unwrap(), 200);
    assert_eq!(routes::pair_finish(Err(PairingError::NotApproved)).unwrap_err().status, 403);
    assert_eq!(routes::logout_all(Ok(1)).unwrap(), 200);
    assert_eq!(routes::revoke_device(Err(DeviceError::NotFound)).unwrap_err().status, 404);
    assert_eq!(
        routes::rotate_phrase(Err(AuthError::PhraseVerificationFailed)).unwrap_err().status,
        401
    );
    assert_eq!(routes::rotate_phrase(Err(AuthError::DeviceRevoked)).unwrap_err().status, 500);
    assert_eq!(routes::get_me(Ok("Alice".to_string())).unwrap().username, "Alice");
    assert_eq!(routes::update_username(Ok(())).unwrap(), 200);
    let device = DeviceInfo {
        device_id: id(2),
        device_name: "Laptop".to_string(),
        created_at: time(0),
        revoked_at: Some(time(60)),
    };
    let list = routes::list_devices(Ok(vec![device]), id(2)).unwrap();
    assert_eq!(list.current_device_id, list.devices[0].device_id);
    assert_eq!(list.devices[0].created_at, "1970-01-01T00:00:00+00:00");
    assert_eq!(list.devices[0].revoked_at.as_deref(), Some("1970-01-01T00:01:00+00:00"));
}
