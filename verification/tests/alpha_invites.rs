use hmac::Mac;
use wavis_backend::auth::alpha_invite::{
    AlphaInviteAdminError, AlphaInviteAdminRecord, AlphaInviteError, AlphaInviteStatus,
    AlphaRedemption, AlphaRedemptionEvent, CreatedAlphaInvite, GENERATED_CODE_BYTES,
    MAX_LABEL_CHARS, StoredAlphaInvite, alpha_code_from, create_alpha_invite, disable_alpha_invite,
    generate_raw_alpha_invite_code, hash_invite_code, list_alpha_invites, normalize_invite_code,
    redeem_alpha_invite, start_redemption, validate_alpha_invite_label, validate_create_options,
};
use wavis_backend::auth::alpha_invite_admin::{
    display_label, display_timestamp, parse_rfc3339, timestamp_from, write_created_invite,
    write_disabled_invite, write_invite_list,
};
use wavis_backend::calendar::UtcTime;
use wavis_backend::ids::Uuid;
use wavis_backend::redaction::Sensitive;

const PEPPER: &[u8] = b"test-alpha-invite-pepper-32b!!!!";

fn time(secs: i64) -> UtcTime {
    UtcTime::new(secs, 0).unwrap()
}

#[test]
fn normalize_invite_code_removes_spacing_hyphens_and_uppercases() {
    assert_eq!(normalize_invite_code(" abcd-1234 ef ").unwrap(), "ABCD1234EF");
}

#[test]
fn normalize_invite_code_rejects_empty_values() {
    assert_eq!(normalize_invite_code(" - \t\n ").unwrap_err(), AlphaInviteError::Invalid);
}

#[test]
fn normalize_keeps_what_is_not_ascii_white_space() {
    assert_eq!(normalize_invite_code("a\u{b}b").unwrap(), "A\u{b}B");
    assert_eq!(normalize_invite_code("\u{a0}é-ß\u{2003}").unwrap(), "éß");
    assert_eq!(normalize_invite_code("x\u{c}y\rz").unwrap(), "XYZ");
}

#[test]
fn hash_invite_code_is_stable_for_equivalent_codes() {
    let a = hash_invite_code("alpha-code-1", PEPPER).unwrap();
    let b = hash_invite_code(" ALPHA CODE 1 ", PEPPER).unwrap();
    assert_eq!(a, b);
}

#[test]
fn hash_invite_code_differs_for_different_codes() {
    let a = hash_invite_code("alpha-code-1", PEPPER).unwrap();
    let b = hash_invite_code("alpha-code-2", PEPPER).unwrap();
    assert_ne!(a, b);
}

#[test]
fn hash_is_that_of_the_domain_and_the_normal_form() {
    let mut mac = hmac::Hmac::<sha2::Sha256>::new_from_slice(PEPPER).unwrap();
    mac.update(b"alpha-invite:v1:ABC");
    let expected = mac.finalize().into_bytes().to_vec();
    assert_eq!(hash_invite_code("a-b c", PEPPER).unwrap(), expected);
    assert_eq!(hash_invite_code("", PEPPER).unwrap_err(), AlphaInviteError::Invalid);
}

#[test]
fn generated_codes_preserve_128_bits_through_normalization() {
    let code = Sensitive(generate_raw_alpha_invite_code());
    let normalized = normalize_invite_code(code.inner()).unwrap();
    assert_eq!(normalized.len(), GENERATED_CODE_BYTES * 2);
    assert!(normalized.chars().all(|character| character.is_ascii_hexdigit()));
    assert!(normalized.chars().all(|character| !character.is_ascii_lowercase()));
    assert_eq!(code.inner().matches('-').count(), 7);
    assert_eq!(code.inner().find('-'), Some(4));
    assert_ne!(*code.inner(), generate_raw_alpha_invite_code());
}

#[test]
fn codes_are_the_digits_of_their_bytes_in_groups() {
    let bytes: Vec<u8> = (0..16).map(|n| n * 17).collect();
    assert_eq!(alpha_code_from(&bytes), "0011-2233-4455-6677-8899-AABB-CCDD-EEFF");
    assert_eq!(alpha_code_from(&[0xab, 0xcd, 0xe0]), "ABCD-E0");
    assert_eq!(alpha_code_from(&[]), "");
}

#[test]
fn invite_labels_are_trimmed_and_bounded() {
    assert_eq!(
        validate_alpha_invite_label("  person@example.com  ").unwrap(),
        "person@example.com"
    );
    assert_eq!(
        validate_alpha_invite_label(" \t\n ").unwrap_err(),
        AlphaInviteAdminError::InvalidLabel
    );
    assert_eq!(
        validate_alpha_invite_label(&"a".repeat(MAX_LABEL_CHARS + 1)).unwrap_err(),
        AlphaInviteAdminError::InvalidLabel
    );
    assert_eq!(
        validate_alpha_invite_label("line\nbreak").unwrap_err(),
        AlphaInviteAdminError::InvalidLabel
    );
    assert!(validate_alpha_invite_label(&"é".repeat(MAX_LABEL_CHARS)).is_ok());
    assert!(validate_alpha_invite_label("a\u{85}b").is_err());
}

#[test]
fn creation_options_reject_unsafe_values() {
    let now = time(1_700_000_000);
    assert_eq!(
        validate_create_options("person", None, 0, 32, now).unwrap_err(),
        AlphaInviteAdminError::InvalidMaxRedemptions
    );
    assert_eq!(
        validate_create_options("person", Some(now), 1, 32, now).unwrap_err(),
        AlphaInviteAdminError::InvalidExpiry
    );
    assert_eq!(
        validate_create_options("person", None, 1, 31, now).unwrap_err(),
        AlphaInviteAdminError::PepperTooShort
    );
    assert_eq!(
        validate_create_options("", Some(now), 0, 0, now).unwrap_err(),
        AlphaInviteAdminError::InvalidLabel
    );
    assert_eq!(
        validate_create_options(" person ", Some(time(1_700_000_001)), 1, 32, now).unwrap(),
        "person"
    );
}

#[test]
fn a_new_invite_is_kept_by_its_hash() {
    let now = time(1_700_000_000);
    let pepper = Sensitive(PEPPER.to_vec());
    let p = create_alpha_invite(" friend ", None, 3, &pepper, now).unwrap();
    assert_eq!(p.label, "friend");
    assert_eq!(p.code_hash, hash_invite_code(p.raw_code.inner(), PEPPER).unwrap());
    let short = Sensitive(vec![0u8; 31]);
    assert_eq!(
        create_alpha_invite("friend", None, 3, &short, now).err(),
        Some(AlphaInviteAdminError::PepperTooShort)
    );
}

#[test]
fn invite_status_has_safe_precedence_and_remaining_count() {
    let now = time(1_700_000_000);
    let mut invite = AlphaInviteAdminRecord {
        invite_id: Uuid::nil(),
        label: Some("person".to_string()),
        created_at: now,
        expires_at: None,
        disabled_at: None,
        max_redemptions: 2,
        redemption_count: 1,
    };
    assert_eq!(invite.status_at(now), AlphaInviteStatus::Active);
    assert_eq!(invite.remaining_redemptions(), 1);
    invite.redemption_count = 2;
    assert_eq!(invite.status_at(now), AlphaInviteStatus::Exhausted);
    invite.expires_at = Some(now);
    assert_eq!(invite.status_at(now), AlphaInviteStatus::Expired);
    invite.disabled_at = Some(now);
    assert_eq!(invite.status_at(now), AlphaInviteStatus::Disabled);
    invite.max_redemptions = i32::MIN;
    invite.redemption_count = 1;
    assert_eq!(invite.remaining_redemptions(), i32::MIN);
}

#[test]
fn errors_in_words() {
    assert_eq!(AlphaInviteError::Invalid.message(), "invite code invalid");
    assert_eq!(AlphaInviteError::DatabaseError("x".to_string()).message(), "database error: x");
    assert_eq!(AlphaInviteAdminError::NotFound.message(), "invite not found");
    assert_eq!(
        AlphaInviteAdminError::InvalidLabel.message(),
        "invite label must contain 1 to 100 characters and no control characters"
    );
    assert_eq!(
        AlphaInviteAdminError::DatabaseError("x".to_string()).message(),
        "database operation failed: x"
    );
    assert_eq!(disable_alpha_invite(None).unwrap_err(), AlphaInviteAdminError::NotFound);
    assert_eq!(disable_alpha_invite(Some(record())).unwrap().max_redemptions, 1);
}

fn stored(max: i32, count: i32) -> StoredAlphaInvite {
    StoredAlphaInvite {
        invite_id: Uuid::from_u128(5),
        expires_at: Some(time(200)),
        disabled_at: None,
        max_redemptions: max,
        redemption_count: count,
    }
}

fn redeem(found: Option<StoredAlphaInvite>, now: i64) -> AlphaRedemption {
    let first = start_redemption("alpha-code-1", PEPPER);
    assert!(matches!(first, AlphaRedemption::Find { .. }));
    redeem_alpha_invite(first, AlphaRedemptionEvent::Found(found, time(now)))
}

#[test]
fn only_active_invites_are_redeemed() {
    let next = redeem(Some(stored(2, 1)), 199);
    assert!(matches!(next, AlphaRedemption::Count { .. }));
    match redeem_alpha_invite(next, AlphaRedemptionEvent::Counted) {
        AlphaRedemption::Done(Ok(id)) => assert_eq!(id, Uuid::from_u128(5)),
        other => panic!("expected success, got {:?}", other),
    }
    let mut disabled = stored(2, 1);
    disabled.disabled_at = Some(time(1));
    for (found, now) in
        [(None, 0), (Some(stored(2, 1)), 200), (Some(stored(2, 2)), 0), (Some(disabled), 0)]
    {
        assert!(matches!(
            redeem(found, now),
            AlphaRedemption::Done(Err(AlphaInviteError::Invalid))
        ));
    }
    assert!(matches!(
        start_redemption(" - ", PEPPER),
        AlphaRedemption::Done(Err(AlphaInviteError::Invalid))
    ));
    let first = start_redemption("x", PEPPER);
    assert!(matches!(
        redeem_alpha_invite(first, AlphaRedemptionEvent::Failed("down".to_string())),
        AlphaRedemption::Done(Err(AlphaInviteError::DatabaseError(_)))
    ));
}

fn record() -> AlphaInviteAdminRecord {
    AlphaInviteAdminRecord {
        invite_id: Uuid::nil(),
        label: Some("person@example.com".to_string()),
        created_at: time(1_784_203_200),
        expires_at: None,
        disabled_at: None,
        max_redemptions: 1,
        redemption_count: 0,
    }
}

#[test]
fn create_output_reveals_raw_code_exactly_once() {
    let raw_code = "ABCD-EF01-2345-6789-ABCD-EF01-2345-6789";
    let created =
        CreatedAlphaInvite { invite: record(), raw_code: Sensitive(raw_code.to_string()) };
    let output = write_created_invite(&created);
    assert_eq!(output.matches(raw_code).count(), 1);
    assert_eq!(created.raw_code.shown(), "[REDACTED]");
    assert_eq!(
        output,
        "invite_id\t00000000-0000-0000-0000-000000000000\nlabel\tperson@example.com\n\
         invite_code\tABCD-EF01-2345-6789-ABCD-EF01-2345-6789\nexpires_at\t-\nmax_redemptions\t1\n"
    );
}

#[test]
fn list_and_disable_output_never_contain_secret_material() {
    let invite = record();
    let now = invite.created_at;
    let list_output = write_invite_list(std::slice::from_ref(&invite), now);
    let disable_output = write_disabled_invite(&invite, now);
    let combined = format!("{list_output}{disable_output}");
    assert!(!combined.contains("invite_code"));
    assert!(!combined.contains("code_hash"));
    assert!(!combined.contains("ABCD-EF01-2345-6789"));
    assert_eq!(invite.status_at(now), AlphaInviteStatus::Active);
    assert_eq!(
        list_output,
        "invite_id\tlabel\tstatus\tcreated_at\texpires_at\tdisabled_at\tredemptions\tmax_redemptions\tremaining\n\
         00000000-0000-0000-0000-000000000000\tperson@example.com\tactive\t2026-07-16T12:00:00+00:00\t-\t-\t0\t1\t1\n"
    );
    assert_eq!(
        disable_output,
        "invite_id\t00000000-0000-0000-0000-000000000000\nstatus\tactive\ndisabled_at\t-\n"
    );
}

#[test]
fn legacy_control_characters_cannot_inject_output_rows() {
    assert_eq!(display_label(Some("legacy\tlabel\nvalue")), "legacy label value");
    assert_eq!(display_label(None), "(unlabeled)");
    assert_eq!(display_timestamp(None), "-");
    assert_eq!(display_timestamp(Some(time(0))), "1970-01-01T00:00:00+00:00");
}

#[test]
fn invites_are_listed_by_the_trimmed_label() {
    assert!(matches!(list_alpha_invites(None), Ok(None)));
    match list_alpha_invites(Some("  team one  ")) {
        Ok(Some(label)) => assert_eq!(label, "team one"),
        other => panic!("{other:?}"),
    }
    assert!(matches!(
        list_alpha_invites(Some("   ")),
        Err(AlphaInviteAdminError::InvalidLabel)
    ));
    assert!(matches!(
        list_alpha_invites(Some("two\nlines")),
        Err(AlphaInviteAdminError::InvalidLabel)
    ));
}

#[test]
fn expiry_arguments_are_read_as_rfc3339() {
    let parsed = parse_rfc3339("2026-07-16T14:00:00.5+02:00").unwrap();
    assert_eq!(display_timestamp(Some(parsed)), "2026-07-16T12:00:00.500+00:00");
    assert_eq!(parse_rfc3339("1970-01-01T00:00:01Z").unwrap().parts(), (1, 0));
    assert_eq!(parse_rfc3339("1972-06-30T23:59:60Z").unwrap().parts(), (78_796_800, 0));
    let complaint = "expected an RFC 3339 timestamp such as 2026-12-31T23:59:59Z";
    assert_eq!(parse_rfc3339("2026-12-31").unwrap_err(), complaint);
    assert_eq!(parse_rfc3339("").unwrap_err(), complaint);
    assert_eq!(timestamp_from(Some((5, 1_500_000_000))).unwrap().parts(), (6, 500_000_000));
    assert_eq!(timestamp_from(Some((i64::MAX, 0))).unwrap_err(), complaint);
    assert_eq!(timestamp_from(None).unwrap_err(), complaint);
}
