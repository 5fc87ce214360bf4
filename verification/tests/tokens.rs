use base64::engine::general_purpose::URL_SAFE_NO_PAD;
use base64::Engine;
use std::collections::HashSet;
use wavis_backend::auth::auth::{
    check_session_epoch, generate_refresh_token, hash_refresh_token, validate_refresh_ttl,
    AuthError,
};
use wavis_backend::auth::extractor::{
    authenticate, start_authentication, AuthenticatedUser, Authentication, AuthenticationEvent,
};
use wavis_backend::auth::jwt::{
    sign_access_token, sign_access_token_at, sign_access_token_from, sign_livekit_token,
    sign_media_token, sign_media_token_at, sign_media_token_from, validate_access_token, validate_access_token_with_rotation,
    validate_media_token, validate_media_token_with_rotation, SfuError, ACCESS_TOKEN_TTL_SECS,
    AUTH_AUDIENCE, AUTH_ISSUER, DEFAULT_JWT_ISSUER, SFU_AUDIENCE, TOKEN_TTL_SECS,
};
use wavis_backend::auth::ws_ticket::{
    generate_ticket, hash_ticket, WsTicketError, WsTicketStore, TICKET_TTL_SECS,
};
use wavis_backend::calendar::UtcTime;
use wavis_backend::ids::Uuid;
use wavis_backend::time::{Duration, Instant};

fn valid_secret() -> Vec<u8> {
    b"test-secret-that-is-at-least-32-bytes!!".to_vec()
}

fn test_auth_secret() -> Vec<u8> {
    b"test-auth-secret-at-least-32-bytes!!".to_vec()
}

fn uuid_of(text: &str) -> Uuid {
    Uuid::from_u128(uuid::Uuid::parse_str(text).unwrap().as_u128())
}

fn random_uuid() -> Uuid {
    Uuid::from_u128(uuid::Uuid::new_v4().as_u128())
}

fn unix_now() -> u64 {
    std::time::SystemTime::now().duration_since(std::time::UNIX_EPOCH).unwrap().as_secs()
}

fn encoded(claims: &serde_json::Map<String, serde_json::Value>, secret: &[u8]) -> String {
    jsonwebtoken::encode(
        &jsonwebtoken::Header::new(jsonwebtoken::Algorithm::HS256),
        claims,
        &jsonwebtoken::EncodingKey::from_secret(secret),
    )
    .unwrap()
}

fn put(
    claims: &mut serde_json::Map<String, serde_json::Value>,
    name: &str,
    value: impl Into<serde_json::Value>,
) {
    claims.insert(name.to_string(), value.into());
}

// Media tokens.

#[test]
fn livekit_token_builder_inputs_correctness() {
    let room_id = "test-room-123";
    let participant_id = "peer-42";
    let ttl_secs = 600;
    let token = sign_livekit_token(
        room_id,
        participant_id,
        participant_id,
        "test-api-key",
        "test-api-secret-long-enough",
        ttl_secs,
    )
    .expect("sign_livekit_token should succeed");
    assert!(!token.is_empty(), "token must be non-empty");
    let claims = livekit_api::access_token::Claims::from_unverified(&token)
        .expect("token must be a valid JWT");
    assert_eq!(&claims.sub, participant_id, "sub (identity) must equal participant_id");
    assert_eq!(&claims.video.room, room_id, "video.room must equal room_id");
    assert!(claims.video.room_join, "video.room_join must be true");
    assert!(claims.video.can_publish, "video.can_publish must be true");
    assert!(claims.video.can_subscribe, "video.can_subscribe must be true");
    let now = unix_now() as usize;
    assert!(claims.exp > now, "exp must be in the future");
    assert!(claims.exp <= now + ttl_secs as usize + 2, "exp must be within ttl_secs of now");
}

#[test]
fn sign_and_verify_round_trip() {
    let secret = valid_secret();
    let token =
        sign_media_token("room-1", "peer-1", &secret, DEFAULT_JWT_ISSUER, TOKEN_TTL_SECS).unwrap();
    let claims = validate_media_token(&token, &secret, SFU_AUDIENCE, DEFAULT_JWT_ISSUER).unwrap();
    assert_eq!(claims.room_id, "room-1");
    assert_eq!(claims.participant_id, "peer-1");
    assert_eq!(claims.permissions, vec!["publish", "subscribe"]);
    assert_eq!(claims.aud, SFU_AUDIENCE);
    assert_eq!(claims.iss, DEFAULT_JWT_ISSUER);
}

#[test]
fn short_secret_is_rejected_on_sign() {
    let short_secret = b"too-short";
    let result =
        sign_media_token("room-1", "peer-1", short_secret, DEFAULT_JWT_ISSUER, TOKEN_TTL_SECS);
    assert!(result.is_err());
}

#[test]
fn short_secret_is_rejected_on_verify() {
    let secret = valid_secret();
    let token =
        sign_media_token("room-1", "peer-1", &secret, DEFAULT_JWT_ISSUER, TOKEN_TTL_SECS).unwrap();
    let short_secret = b"too-short";
    let result = validate_media_token(&token, short_secret, SFU_AUDIENCE, DEFAULT_JWT_ISSUER);
    assert!(result.is_err());
}

fn media_claims(exp: u64, nbf: u64, iat: u64) -> serde_json::Map<String, serde_json::Value> {
    let mut claims = serde_json::Map::new();
    put(&mut claims, "room_id", "room-1");
    put(&mut claims, "participant_id", "peer-1");
    put(&mut claims, "permissions", vec!["publish", "subscribe"]);
    put(&mut claims, "exp", exp);
    put(&mut claims, "nbf", nbf);
    put(&mut claims, "iat", iat);
    put(&mut claims, "jti", uuid::Uuid::new_v4().to_string());
    put(&mut claims, "aud", SFU_AUDIENCE);
    put(&mut claims, "iss", DEFAULT_JWT_ISSUER);
    claims
}

#[test]
fn expired_token_is_rejected() {
    let secret = valid_secret();
    let now = unix_now();
    let token = encoded(&media_claims(now - 3600, now - 7200, now - 7200), &secret);
    let result = validate_media_token(&token, &secret, SFU_AUDIENCE, DEFAULT_JWT_ISSUER);
    assert!(result.is_err(), "expired token should be rejected");
}

#[test]
fn foreign_tokens_are_read_claim_by_claim() {
    let secret = valid_secret();
    let now = unix_now();
    let good = media_claims(now + 100, now, now);
    assert!(validate_media_token(&encoded(&good, &secret), &secret, SFU_AUDIENCE, DEFAULT_JWT_ISSUER).is_ok());
    for missing in ["room_id", "participant_id", "permissions", "exp", "nbf", "iat", "jti", "aud", "iss"] {
        let mut claims = good.clone();
        claims.remove(missing);
        let token = encoded(&claims, &secret);
        assert!(
            validate_media_token(&token, &secret, SFU_AUDIENCE, DEFAULT_JWT_ISSUER).is_err(),
            "a token without {missing} should be rejected"
        );
    }
    let mut early = good.clone();
    put(&mut early, "nbf", now + 3600);
    assert!(validate_media_token(&encoded(&early, &secret), &secret, SFU_AUDIENCE, DEFAULT_JWT_ISSUER).is_err());
}

#[test]
fn wrong_audience_is_rejected() {
    let secret = valid_secret();
    let token =
        sign_media_token("room-1", "peer-1", &secret, DEFAULT_JWT_ISSUER, TOKEN_TTL_SECS).unwrap();
    let result = validate_media_token(&token, &secret, "wrong-audience", DEFAULT_JWT_ISSUER);
    assert!(result.is_err(), "wrong audience should be rejected");
    let result = validate_media_token(&token, &secret, SFU_AUDIENCE, "someone-else");
    assert!(result.is_err(), "wrong issuer should be rejected");
}

#[test]
fn corrupted_signature_is_rejected() {
    let secret = valid_secret();
    let token =
        sign_media_token("room-1", "peer-1", &secret, DEFAULT_JWT_ISSUER, TOKEN_TTL_SECS).unwrap();
    let corrupted = format!("{token}CORRUPTED");
    let result = validate_media_token(&corrupted, &secret, SFU_AUDIENCE, DEFAULT_JWT_ISSUER);
    assert!(result.is_err(), "corrupted token should be rejected");
}

#[test]
fn rotation_current_secret_succeeds() {
    let secret = valid_secret();
    let token =
        sign_media_token("room-1", "peer-1", &secret, DEFAULT_JWT_ISSUER, TOKEN_TTL_SECS).unwrap();
    let claims =
        validate_media_token_with_rotation(&token, &secret, None, SFU_AUDIENCE, DEFAULT_JWT_ISSUER)
            .unwrap();
    assert_eq!(claims.room_id, "room-1");
    assert_eq!(claims.participant_id, "peer-1");
}

#[test]
fn rotation_falls_back_to_previous_secret() {
    let old_secret = valid_secret();
    let new_secret = b"different-secret-at-least-32-bytes-long!!".to_vec();
    let token =
        sign_media_token("room-1", "peer-1", &old_secret, DEFAULT_JWT_ISSUER, TOKEN_TTL_SECS)
            .unwrap();
    let claims = validate_media_token_with_rotation(
        &token,
        &new_secret,
        Some(&old_secret),
        SFU_AUDIENCE,
        DEFAULT_JWT_ISSUER,
    )
    .unwrap();
    assert_eq!(claims.room_id, "room-1");
}

#[test]
fn rotation_no_previous_secret_fails_on_wrong_current() {
    let signing_secret = valid_secret();
    let wrong_secret = b"wrong-secret-at-least-32-bytes-long!!!".to_vec();
    let token =
        sign_media_token("room-1", "peer-1", &signing_secret, DEFAULT_JWT_ISSUER, TOKEN_TTL_SECS)
            .unwrap();
    let result = validate_media_token_with_rotation(
        &token,
        &wrong_secret,
        None,
        SFU_AUDIENCE,
        DEFAULT_JWT_ISSUER,
    );
    assert!(result.is_err(), "should fail when current secret is wrong and no previous is set");
}

#[test]
fn rotation_both_secrets_wrong_fails() {
    let signing_secret = valid_secret();
    let wrong_current = b"wrong-current-at-least-32-bytes-long!!".to_vec();
    let wrong_previous = b"wrong-previous-at-least-32-bytes-long!".to_vec();
    let token =
        sign_media_token("room-1", "peer-1", &signing_secret, DEFAULT_JWT_ISSUER, TOKEN_TTL_SECS)
            .unwrap();
    let result = validate_media_token_with_rotation(
        &token,
        &wrong_current,
        Some(&wrong_previous),
        SFU_AUDIENCE,
        DEFAULT_JWT_ISSUER,
    );
    assert!(result.is_err(), "should fail when both secrets are wrong");
}

#[test]
fn a_token_signed_at_a_given_time_says_so() {
    let secret = valid_secret();
    let now = unix_now();
    let token =
        sign_media_token_at("r", "p", &secret, DEFAULT_JWT_ISSUER, 100, now, "the-id").unwrap();
    let claims = validate_media_token(&token, &secret, SFU_AUDIENCE, DEFAULT_JWT_ISSUER).unwrap();
    assert_eq!((claims.exp, claims.nbf, claims.iat), (now + 100, now, now));
    assert_eq!(claims.jti, "the-id");
    // A minute of leeway.
    let token = sign_media_token_at("r", "p", &secret, DEFAULT_JWT_ISSUER, 0, now - 30, "x").unwrap();
    assert!(validate_media_token(&token, &secret, SFU_AUDIENCE, DEFAULT_JWT_ISSUER).is_ok());
    match sign_media_token("r", "p", &secret, DEFAULT_JWT_ISSUER, u64::MAX) {
        Err(SfuError::TokenError(_)) => {}
        Ok(_) => panic!("a lifetime out of range should be refused"),
    }
}

// Access tokens.

#[test]
fn access_token_round_trip() {
    let secret = test_auth_secret();
    let user_id = uuid_of("aaaaaaaa-aaaa-4aaa-8aaa-aaaaaaaaaaaa");
    let device_id = uuid_of("bbbbbbbb-bbbb-4bbb-8bbb-bbbbbbbbbbbb");
    let epoch = 7;
    let token = sign_access_token(&user_id, &device_id, &secret, ACCESS_TOKEN_TTL_SECS, epoch)
        .expect("signing should succeed");
    let result = validate_access_token(&token, &secret).expect("validation should succeed");
    assert_eq!(result, (user_id, device_id, epoch));
}

#[test]
fn access_token_expired_is_rejected() {
    let secret = test_auth_secret();
    let now = unix_now();
    let mut claims = serde_json::Map::new();
    put(&mut claims, "sub", "aaaaaaaa-aaaa-4aaa-8aaa-aaaaaaaaaaaa");
    put(&mut claims, "did", "bbbbbbbb-bbbb-4bbb-8bbb-bbbbbbbbbbbb");
    put(&mut claims, "exp", now.saturating_sub(3600));
    put(&mut claims, "aud", AUTH_AUDIENCE);
    put(&mut claims, "iss", AUTH_ISSUER);
    put(&mut claims, "iat", now.saturating_sub(7200));
    put(&mut claims, "epoch", 7);
    let token = encoded(&claims, &secret);
    assert!(validate_access_token(&token, &secret).is_err());
    assert!(matches!(validate_access_token(&token, &secret), Err(AuthError::TokenExpired)));
    put(&mut claims, "exp", now + 100);
    assert!(validate_access_token(&encoded(&claims, &secret), &secret).is_ok());
    put(&mut claims, "sub", "not-a-uuid");
    assert!(validate_access_token(&encoded(&claims, &secret), &secret).is_err());
}

#[test]
fn access_token_tampered_token_is_rejected() {
    let secret = test_auth_secret();
    let user_id = uuid_of("aaaaaaaa-aaaa-4aaa-8aaa-aaaaaaaaaaaa");
    let device_id = uuid_of("bbbbbbbb-bbbb-4bbb-8bbb-bbbbbbbbbbbb");
    let token = sign_access_token(&user_id, &device_id, &secret, ACCESS_TOKEN_TTL_SECS, 7)
        .expect("signing should succeed");
    let parts: Vec<&str> = token.split('.').collect();
    assert_eq!(parts.len(), 3, "JWT must contain header, payload, signature");
    let mut signature_bytes = parts[2].as_bytes().to_vec();
    let last_idx =
        signature_bytes.len().checked_sub(1).expect("JWT signature segment must be non-empty");
    signature_bytes[last_idx] ^= 0x01;
    let tampered =
        format!("{}.{}.{}", parts[0], parts[1], String::from_utf8_lossy(&signature_bytes));
    assert!(validate_access_token(&tampered, &secret).is_err());
}

#[test]
fn access_token_wrong_key_is_rejected() {
    let secret = test_auth_secret();
    let wrong_secret = b"different-auth-secret-32-bytes-long".to_vec();
    let user_id = uuid_of("aaaaaaaa-aaaa-4aaa-8aaa-aaaaaaaaaaaa");
    let device_id = uuid_of("bbbbbbbb-bbbb-4bbb-8bbb-bbbbbbbbbbbb");
    let token = sign_access_token(&user_id, &device_id, &secret, ACCESS_TOKEN_TTL_SECS, 7)
        .expect("signing should succeed");
    assert!(validate_access_token(&token, &wrong_secret).is_err());
}

#[test]
fn access_token_malformed_input_is_rejected() {
    let secret = test_auth_secret();
    for malformed in ["", "not-a-jwt", "a.b", "a.b.c.d.e"] {
        assert!(
            validate_access_token(malformed, &secret).is_err(),
            "malformed token {malformed:?} should be rejected"
        );
    }
}

#[test]
fn access_token_revoked_by_key_rotation_is_rejected() {
    let previous_secret = test_auth_secret();
    let current_secret = b"rotated-auth-secret-32-bytes-long!!".to_vec();
    let user_id = uuid_of("aaaaaaaa-aaaa-4aaa-8aaa-aaaaaaaaaaaa");
    let device_id = uuid_of("bbbbbbbb-bbbb-4bbb-8bbb-bbbbbbbbbbbb");
    let token =
        sign_access_token(&user_id, &device_id, &previous_secret, ACCESS_TOKEN_TTL_SECS, 7)
            .expect("signing should succeed");
    assert!(validate_access_token_with_rotation(&token, &current_secret, None).is_err());
    assert!(
        validate_access_token_with_rotation(&token, &current_secret, Some(&previous_secret))
            .is_ok()
    );
}

#[test]
fn access_tokens_need_a_long_secret_and_a_lifetime_in_range() {
    let (u, d) = (random_uuid(), random_uuid());
    assert!(matches!(
        sign_access_token(&u, &d, b"short", 900, 0),
        Err(AuthError::SecretTooShort)
    ));
    assert!(matches!(
        sign_access_token(&u, &d, &test_auth_secret(), u64::MAX, 0),
        Err(AuthError::SigningFailed(_))
    ));
    let token = sign_access_token_at(&u, &d, &test_auth_secret(), 900, -3, unix_now()).unwrap();
    assert_eq!(validate_access_token(&token, &test_auth_secret()).unwrap(), (u, d, -3));
}

#[test]
fn signing_says_what_the_clock_answered() {
    let secret = valid_secret();
    let sign = |reading: Result<u64, String>, secret: &[u8], ttl: u64| {
        sign_media_token_from(reading, "r", "p", secret, "iss", ttl, "jti")
    };
    assert_eq!(
        sign(Ok(1_000), &secret, 60).unwrap(),
        sign_media_token_at("r", "p", &secret, "iss", 60, 1_000, "jti").unwrap()
    );
    let text = |r: Result<String, SfuError>| match r {
        Err(SfuError::TokenError(e)) => e,
        Ok(token) => panic!("signed: {token}"),
    };
    assert_eq!(
        text(sign(Err("early".to_string()), b"short", u64::MAX)),
        "SFU_JWT_SECRET must be at least 32 bytes"
    );
    assert_eq!(text(sign(Err("early".to_string()), &secret, 60)), "system time error: early");
    assert_eq!(text(sign(Ok(1), &secret, u64::MAX)), "token lifetime out of range");

    let (u, d) = (random_uuid(), random_uuid());
    let secret = test_auth_secret();
    assert_eq!(
        sign_access_token_from(Ok(1_000), &u, &d, &secret, 60, 1).unwrap(),
        sign_access_token_at(&u, &d, &secret, 60, 1, 1_000).unwrap()
    );
    assert!(matches!(
        sign_access_token_from(Err("early".to_string()), &u, &d, &secret, 60, 1),
        Err(AuthError::SigningFailed(e)) if e == "early"
    ));
    assert!(matches!(
        sign_access_token_from(Ok(1), &u, &d, &secret, u64::MAX, 1),
        Err(AuthError::SigningFailed(e)) if e == "token lifetime out of range"
    ));
    assert!(matches!(
        sign_access_token_from(Err("early".to_string()), &u, &d, b"short", 60, 1),
        Err(AuthError::SecretTooShort)
    ));
}

#[test]
fn claims_are_written_in_their_order() {
    let payload = |token: &str| {
        let part = token.split('.').nth(1).unwrap().to_string();
        String::from_utf8(URL_SAFE_NO_PAD.decode(part).unwrap()).unwrap()
    };
    let token =
        sign_media_token_at("r", "p", &valid_secret(), "wavis", 60, 1_000, "some-id").unwrap();
    assert_eq!(
        payload(&token),
        "{\"room_id\":\"r\",\"participant_id\":\"p\",\"permissions\":[\"publish\",\"subscribe\"],\
         \"exp\":1060,\"nbf\":1000,\"iat\":1000,\"jti\":\"some-id\",\"aud\":\"wavis-sfu\",\
         \"iss\":\"wavis\"}"
    );
    let (u, d) = (Uuid::from_u128(1), Uuid::from_u128(2));
    let token = sign_access_token_at(&u, &d, &test_auth_secret(), 60, -1, 1_000).unwrap();
    assert_eq!(
        payload(&token),
        "{\"sub\":\"00000000-0000-0000-0000-000000000001\",\
         \"did\":\"00000000-0000-0000-0000-000000000002\",\"exp\":1060,\"aud\":\"wavis\",\
         \"iss\":\"wavis-backend\",\"iat\":1000,\"epoch\":-1}"
    );
}

#[test]
fn an_expired_token_without_a_claim_is_invalid_not_expired() {
    let secret = test_auth_secret();
    let mut claims = serde_json::Map::new();
    put(&mut claims, "sub", "00000000-0000-0000-0000-000000000001");
    put(&mut claims, "exp", unix_now() - 1_000);
    put(&mut claims, "aud", AUTH_AUDIENCE);
    put(&mut claims, "iss", AUTH_ISSUER);
    let token = encoded(&claims, &secret);
    assert!(matches!(
        validate_access_token(&token, &secret),
        Err(AuthError::ValidationFailed)
    ));
    put(&mut claims, "iat", unix_now() - 2_000);
    let token = encoded(&claims, &secret);
    assert!(matches!(validate_access_token(&token, &secret), Err(AuthError::TokenExpired)));
    let other = b"another-secret-of-at-least-32-bytes!!".to_vec();
    assert!(matches!(
        validate_access_token(&token, &other),
        Err(AuthError::ValidationFailed)
    ));
    put(&mut claims, "epoch", "seven");
    let token = encoded(&claims, &secret);
    assert!(matches!(
        validate_access_token(&token, &secret),
        Err(AuthError::ValidationFailed)
    ));
}

fn signed_text(payload: &str, secret: &[u8]) -> String {
    let head = URL_SAFE_NO_PAD.encode("{\"alg\":\"HS256\",\"typ\":\"JWT\"}");
    let message = format!("{}.{}", head, URL_SAFE_NO_PAD.encode(payload));
    let key = jsonwebtoken::EncodingKey::from_secret(secret);
    let tag =
        jsonwebtoken::crypto::sign(message.as_bytes(), &key, jsonwebtoken::Algorithm::HS256)
            .unwrap();
    format!("{message}.{tag}")
}

#[test]
fn a_token_that_repeats_a_claim_is_refused() {
    let secret = test_auth_secret();
    let (u, d) = (Uuid::from_u128(1), Uuid::from_u128(2));
    let body = |exp: u64, more: &str| {
        format!(
            "{{ \"sub\": \"00000000-0000-0000-0000-000000000001\", \
             \"did\": \"00000000-0000-0000-0000-000000000002\", \"exp\": {exp}, \
             \"aud\": \"wavis\", \"iss\": \"wavis-backend\", \"iat\": 1{more} }}"
        )
    };
    let check = |more: &str| {
        validate_access_token(&signed_text(&body(unix_now() + 60, more), &secret), &secret)
    };
    assert_eq!(check("").unwrap(), (u, d, 0));
    assert_eq!(check(", \"epoch\": 4").unwrap(), (u, d, 4));
    for repeated in [
        ", \"iat\": 2",
        ", \"epoch\": 4, \"epoch\": 4",
        ", \"did\": \"00000000-0000-0000-0000-000000000002\"",
        ", \"\\u0064id\": \"\"",
        ", \"sub\": \"00000000-0000-0000-0000-000000000001\"",
        ", \"exp\": 5",
    ] {
        assert!(
            matches!(check(repeated), Err(AuthError::ValidationFailed)),
            "accepted {repeated}"
        );
    }
    for other in [
        ", \"x\": 1, \"x\": 2",
        ", \"x\": 1e999",
        ", \"x\": {\"did\": [1, {\"did\": \"}\"}], \"did\": \"a\\\"{,:\"}",
        ", \"a:b,{\": [], \"\": {}",
    ] {
        assert_eq!(check(other).unwrap(), (u, d, 0), "refused {other}");
    }
    let late = |more: &str| {
        validate_access_token(&signed_text(&body(unix_now() - 1_000, more), &secret), &secret)
    };
    assert!(matches!(late(""), Err(AuthError::TokenExpired)));
    assert!(matches!(late(", \"iat\": 2"), Err(AuthError::ValidationFailed)));

    let secret = valid_secret();
    let media = |more: &str| {
        let now = unix_now();
        let text = format!(
            "{{\"room_id\":\"r\",\"participant_id\":\"p\",\"permissions\":[\"publish\"],\
             \"exp\":{},\"nbf\":{now},\"iat\":{now},\"jti\":\"j\",\
             \"aud\":\"wavis-sfu\",\"iss\":\"i\"{more}}}",
            now + 60
        );
        validate_media_token(&signed_text(&text, &secret), &secret, SFU_AUDIENCE, "i")
    };
    assert_eq!(media("").unwrap().room_id, "r");
    assert_eq!(media(",\"x\":1,\"x\":1").unwrap().permissions, vec!["publish".to_string()]);
    for repeated in [",\"room_id\":\"s\"", ",\"jti\":\"j\"", ",\"permissions\":[]"] {
        match media(repeated) {
            Err(SfuError::TokenError(e)) => assert!(e.starts_with("JWT validation failed: ")),
            Ok(claims) => panic!("accepted {repeated}: {claims:?}"),
        }
    }
}

#[test]
fn epochs_must_agree() {
    assert!(check_session_epoch(Some(3), 3).is_ok());
    assert!(matches!(check_session_epoch(Some(4), 3), Err(AuthError::EpochMismatch)));
    assert!(matches!(check_session_epoch(None, 3), Err(AuthError::InvalidToken)));
}

// Refresh tokens.

#[test]
fn prop_refresh_token_entropy() {
    let mut tokens = HashSet::new();
    for _ in 0..1000 {
        let token = generate_refresh_token();
        let decoded = URL_SAFE_NO_PAD.decode(&token).expect("valid base64url");
        assert!(decoded.len() >= 32, "decoded token must be at least 32 bytes");
        assert!(tokens.insert(token), "duplicate token generated in batch of 1000");
    }
}

#[test]
fn refresh_tokens_are_stored_as_hashes() {
    let a = hash_refresh_token("token", b"pepper");
    assert_eq!(a.len(), 32);
    assert_eq!(a, hash_refresh_token("token", b"pepper"));
    assert_ne!(a, hash_refresh_token("token", b"Pepper"));
    assert_ne!(a, hash_refresh_token("tokem", b"pepper"));
    // HMAC-SHA256 of the empty message under the empty key.
    let empty = hash_refresh_token("", b"");
    assert_eq!(&empty[..4], &[0xb6, 0x13, 0x67, 0x9a]);
}

#[test]
fn refresh_lifetimes_are_a_day_to_a_year() {
    for days in [1u32, 30, 365] {
        assert!(validate_refresh_ttl(days).is_ok());
    }
    for days in [0u32, 366, u32::MAX] {
        assert!(validate_refresh_ttl(days).is_err());
    }
}

// Who makes a request.

#[test]
fn only_live_devices_and_sessions_get_through() {
    let secret = test_auth_secret();
    let user = AuthenticatedUser { user_id: random_uuid(), device_id: random_uuid() };
    let token = sign_access_token(&user.user_id, &user.device_id, &secret, 900, 2).unwrap();
    let header = format!("Bearer {token}");
    let begin = || start_authentication(Some(&header), &secret, None);
    let known = authenticate(begin(), AuthenticationEvent::Device(Some(None)));
    match authenticate(known, AuthenticationEvent::Epoch(Some(2))) {
        Authentication::Done(Ok(found)) => assert_eq!(found, user),
        other => panic!("expected to get through, got {:?}", other),
    }
    let revoked = Some(Some(UtcTime::new(0, 0).unwrap()));
    for event in [
        AuthenticationEvent::Device(None),
        AuthenticationEvent::Device(revoked),
        AuthenticationEvent::Failed,
    ] {
        match authenticate(begin(), event) {
            Authentication::Done(Err(e)) => {
                assert_eq!((e.status, e.error.as_str()), (401, "authentication failed"))
            }
            other => panic!("expected a refusal, got {:?}", other),
        }
    }
    for event in [
        AuthenticationEvent::Epoch(Some(3)),
        AuthenticationEvent::Epoch(None),
        AuthenticationEvent::Failed,
    ] {
        let known = authenticate(begin(), AuthenticationEvent::Device(Some(None)));
        assert!(matches!(authenticate(known, event), Authentication::Done(Err(_))));
    }
    assert!(matches!(
        start_authentication(None, &secret, None),
        Authentication::Done(Err(_))
    ));
}

// Tickets.

fn test_store() -> WsTicketStore {
    WsTicketStore::new(b"test-ws-ticket-pepper-32-bytes!!".to_vec())
}

fn at(secs: u64) -> Instant {
    Instant::from_origin(Duration::from_secs(1_000 + secs))
}

#[test]
fn issue_then_consume_succeeds_once() {
    let mut store = test_store();
    let user_id = random_uuid();
    let device_id = random_uuid();
    let ticket = store.issue(user_id, device_id, at(0));
    let result = store.validate_and_consume(&ticket, at(0));
    assert_eq!(result, Ok((user_id, device_id)));
}

#[test]
fn replayed_ticket_fails() {
    let mut store = test_store();
    let ticket = store.issue(random_uuid(), random_uuid(), at(0));
    assert!(store.validate_and_consume(&ticket, at(0)).is_ok());
    assert_eq!(
        store.validate_and_consume(&ticket, at(0)),
        Err(WsTicketError::AlreadyConsumed)
    );
}

#[test]
fn unknown_ticket_fails() {
    let mut store = test_store();
    assert_eq!(
        store.validate_and_consume("not-a-real-ticket", at(0)),
        Err(WsTicketError::NotFound)
    );
}

#[test]
fn expired_ticket_fails_via_clock_injection() {
    let mut store = test_store();
    let ticket = store.issue(random_uuid(), random_uuid(), at(0));
    assert_eq!(
        store.validate_and_consume(&ticket, at(TICKET_TTL_SECS + 1)),
        Err(WsTicketError::Expired)
    );
}

#[test]
fn prune_expired_removes_stale_and_consumed_entries() {
    let mut store = test_store();
    let consumed_ticket = store.issue(random_uuid(), random_uuid(), at(0));
    let _unconsumed_ticket = store.issue(random_uuid(), random_uuid(), at(0));
    store.validate_and_consume(&consumed_ticket, at(0)).unwrap();
    let pruned = store.prune_expired(at(TICKET_TTL_SECS + 1));
    assert_eq!(pruned, 2, "both consumed and expired-unconsumed tickets are pruned");
}

#[test]
fn tickets_last_to_the_minute_and_are_random() {
    let mut store = test_store();
    let a = store.issue(random_uuid(), random_uuid(), at(0));
    let b = store.issue(random_uuid(), random_uuid(), at(0));
    assert_ne!(a, b);
    assert_eq!(URL_SAFE_NO_PAD.decode(&a).unwrap().len(), 32);
    assert!(store.validate_and_consume(&a, at(59)).is_ok());
    assert_eq!(store.validate_and_consume(&b, at(60)), Err(WsTicketError::Expired));
    assert_eq!(WsTicketError::Expired.message(), "ticket expired");
    assert_eq!(WsTicketError::NotFound.message(), "ticket not found");
    assert_eq!(WsTicketError::AlreadyConsumed.message(), "ticket already consumed");
    assert_eq!(generate_ticket().len(), 43);
    assert_eq!(hash_ticket("t", b"p"), hash_ticket("t", b"p"));
    assert_ne!(hash_ticket("t", b"p"), hash_ticket("u", b"p"));
}
