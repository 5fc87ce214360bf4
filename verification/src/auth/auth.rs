//! Accounts and sessions.

use crate::auth::jwt;
use crate::auth::phrase;
use crate::auth::phrase::DummyVerifier;
use crate::auth::phrase::PhraseConfig;
use crate::calendar;
use crate::calendar::UtcTime;
use crate::crypto;
use crate::ids::Uuid;
use crate::text;
use vstd::prelude::*;

verus! {

/// Errors of account and session operations.
#[derive(Debug)]
pub enum AuthError {
    SecretTooShort,
    SigningFailed(String),
    ValidationFailed,
    TokenExpired,
    InvalidToken,
    RefreshTokenInvalid,
    TokenReuseDetected,
    EpochMismatch,
    DatabaseError(String),
    PhraseVerificationFailed,
    RecoveryIdNotFound,
    DeviceRevoked,
}

impl AuthError {
    /// The message of this error.
    pub open spec fn message_spec(&self) -> Seq<char> {
        match self {
            AuthError::SecretTooShort => "secret must be at least 32 bytes"@,
            AuthError::SigningFailed(e) => "token signing failed: "@ + e@,
            AuthError::ValidationFailed => "token validation failed"@,
            AuthError::TokenExpired => "token expired"@,
            AuthError::InvalidToken => "invalid token"@,
            AuthError::RefreshTokenInvalid => "refresh token invalid or expired"@,
            AuthError::TokenReuseDetected =>
                "token reuse detected \u{2014} all tokens revoked for user"@,
            AuthError::EpochMismatch =>
                "session epoch mismatch \u{2014} token invalidated by security event"@,
            AuthError::DatabaseError(e) => "database error: "@ + e@,
            AuthError::PhraseVerificationFailed => "phrase verification failed"@,
            AuthError::RecoveryIdNotFound => "recovery ID not found"@,
            AuthError::DeviceRevoked => "device revoked"@,
        }
    }

    /// The message of this error.
    pub fn message(&self) -> (s: String)
        ensures
            s@ == self.message_spec(),
    {
        match self {
            AuthError::SecretTooShort => "secret must be at least 32 bytes".to_owned(),
            AuthError::SigningFailed(e) => "token signing failed: ".to_owned().concat(e.as_str()),
            AuthError::ValidationFailed => "token validation failed".to_owned(),
            AuthError::TokenExpired => "token expired".to_owned(),
            AuthError::InvalidToken => "invalid token".to_owned(),
            AuthError::RefreshTokenInvalid => "refresh token invalid or expired".to_owned(),
            AuthError::TokenReuseDetected =>
                "token reuse detected \u{2014} all tokens revoked for user".to_owned(),
            AuthError::EpochMismatch =>
                "session epoch mismatch \u{2014} token invalidated by security event".to_owned(),
            AuthError::DatabaseError(e) => "database error: ".to_owned().concat(e.as_str()),
            AuthError::PhraseVerificationFailed => "phrase verification failed".to_owned(),
            AuthError::RecoveryIdNotFound => "recovery ID not found".to_owned(),
            AuthError::DeviceRevoked => "device revoked".to_owned(),
        }
    }
}

/// Bytes of chance in a refresh token.
pub const REFRESH_TOKEN_BYTES: usize = 32;

/// The form of a refresh token: the URL-safe base64 text of 32 bytes, which has
/// 43 characters.
pub open spec fn is_fresh_refresh_token(token: Seq<char>) -> bool {
    &&& token.len() == 43
    &&& forall|i: int| 0 <= i < token.len() ==> crypto::base64_url_char(#[trigger] token[i])
    &&& exists|bytes: Seq<u8>|
        bytes.len() == REFRESH_TOKEN_BYTES && token == #[trigger] crypto::base64_url(bytes)
}

/// A random refresh token of 256 bits.
pub fn generate_refresh_token() -> (token: String)
    ensures
        is_fresh_refresh_token(token@),
{
    let bytes = crypto::random_bytes(REFRESH_TOKEN_BYTES);
    proof {
        crypto::lemma_base64_url(bytes@);
    }
    crypto::base64_url_encode(bytes.as_slice())
}

/// The hash under which a refresh token is stored.
pub open spec fn refresh_hash(token: Seq<char>, pepper: Seq<u8>) -> Seq<u8> {
    crypto::hmac_sha256(pepper, text::utf8(token))
}

/// HMAC-SHA256 of a refresh token under the server's pepper.
pub fn hash_refresh_token(raw_token: &str, pepper: &[u8]) -> (hash: Vec<u8>)
    ensures
        hash@ == refresh_hash(raw_token@, pepper@),
        hash@.len() == 32,
{
    crypto::hmac_tag(pepper, raw_token.as_bytes())
}

/// That `token` was signed for the identity, at some time, with that lifetime.
pub open spec fn is_signed_access_token(
    token: Seq<char>,
    user_id: Uuid,
    device_id: Uuid,
    secret: Seq<u8>,
    ttl_secs: u64,
    epoch: i32,
) -> bool {
    secret.len() >= 32 && exists|now: u64|
        now + ttl_secs <= u64::MAX && #[trigger] jwt::access_token_for(
            token,
            secret,
            user_id,
            device_id,
            (now + ttl_secs) as u64,
            now,
            epoch,
        )
}

/// Result of registering a device.
#[derive(Debug)]
pub struct DeviceRegistration {
    pub user_id: Uuid,
    pub device_id: Uuid,
    pub recovery_id: String,
    pub access_token: String,
    pub refresh_token: String,
}

/// Result of rotating a refresh token.
#[derive(Debug)]
pub struct TokenPair {
    pub access_token: String,
    pub refresh_token: String,
    pub user_id: Uuid,
    pub device_id: Uuid,
}

/// Whether a token's epoch is the user's current one; there is none where the
/// user does not exist.
pub fn check_session_epoch(current_epoch: Option<i32>, token_epoch: i32) -> (r: Result<
    (),
    AuthError,
>)
    ensures
        r == match current_epoch {
            Some(e) => if e == token_epoch {
                Ok(())
            } else {
                Err(AuthError::EpochMismatch)
            },
            None => Err(AuthError::InvalidToken),
        },
{
    match current_epoch {
        Some(e) => if e == token_epoch {
            Ok(())
        } else {
            Err(AuthError::EpochMismatch)
        },
        None => Err(AuthError::InvalidToken),
    }
}

/// Whether `c` can occur in the random part of a recovery ID.
pub open spec fn in_recovery_charset(c: char) -> bool {
    'A' <= c <= 'Z' || '0' <= c <= '9'
}

/// The form of a recovery ID: `wvs-XXXX-XXXX`.
pub open spec fn is_recovery_id(id: Seq<char>) -> bool {
    &&& id.len() == 13
    &&& id.take(4) == "wvs-"@
    &&& id[8] == '-'
    &&& forall|i: int| 4 <= i < 13 && i != 8 ==> in_recovery_charset(#[trigger] id[i])
}

/// The character at a place in the charset of recovery IDs, letters first.
pub open spec fn recovery_char(n: usize) -> char {
    if n < 26 {
        (65 + n) as char
    } else {
        (22 + n) as char
    }
}

/// The numbers as characters of recovery IDs.
pub open spec fn spelled(numbers: Seq<usize>) -> Seq<char> {
    numbers.map_values(|n: usize| recovery_char(n))
}

fn push_recovery_char(id: &mut String, n: usize)
    requires
        n < 36,
    ensures
        final(id)@ == old(id)@.push(recovery_char(n)),
        in_recovery_charset(recovery_char(n)),
{
    let c: char = if n < 26 {
        (65 + n as u8) as char
    } else {
        (22 + n as u8) as char
    };
    id.push(c);
}

/// The recovery ID that eight numbers spell.
pub fn recovery_id_from(drawn: &Vec<usize>) -> (id: String)
    requires
        drawn@.len() == 8,
        forall|i: int| 0 <= i < 8 ==> #[trigger] drawn@[i] < 36,
    ensures
        id@ == "wvs-"@ + spelled(drawn@.take(4)) + "-"@ + spelled(drawn@.skip(4)),
        is_recovery_id(id@),
{
    let mut id = "wvs-".to_owned();
    let ghost all = spelled(drawn@);
    let mut i: usize = 0;
    while i < 4
        invariant
            i <= 4,
            drawn@.len() == 8,
            all == spelled(drawn@),
            forall|k: int| 0 <= k < 8 ==> #[trigger] drawn@[k] < 36,
            id@ == "wvs-"@ + all.take(i as int),
            forall|k: int| 0 <= k < i ==> in_recovery_charset(#[trigger] all[k]),
        decreases 4 - i,
    {
        push_recovery_char(&mut id, drawn[i]);
        assert(id@ =~= "wvs-"@ + all.take(i as int + 1));
        i = i + 1;
    }
    id.push('-');
    let ghost front = id@;
    while i < 8
        invariant
            4 <= i <= 8,
            drawn@.len() == 8,
            all == spelled(drawn@),
            forall|k: int| 0 <= k < 8 ==> #[trigger] drawn@[k] < 36,
            id@ == front + all.subrange(4, i as int),
            forall|k: int| 0 <= k < i ==> in_recovery_charset(#[trigger] all[k]),
        decreases 8 - i,
    {
        push_recovery_char(&mut id, drawn[i]);
        assert(id@ =~= front + all.subrange(4, i as int + 1));
        i = i + 1;
    }
    proof {
        reveal_strlit("wvs-");
        reveal_strlit("-");
        assert(all.take(4) =~= spelled(drawn@.take(4)));
        assert(all.subrange(4, 8) =~= spelled(drawn@.skip(4)));
        assert(front =~= "wvs-"@ + spelled(drawn@.take(4)) + "-"@);
        assert(id@.take(4) =~= "wvs-"@);
        assert forall|k: int| 4 <= k < 13 && k != 8 implies in_recovery_charset(
            #[trigger] id@[k],
        ) by {
            if k < 8 {
                assert(id@[k] == all[k - 4]);
            } else {
                assert(id@[k] == all[k - 5]);
            }
        }
    }
    id
}

/// A random recovery ID.
pub fn generate_recovery_id() -> (id: String)
    ensures
        is_recovery_id(id@),
{
    let mut drawn: Vec<usize> = Vec::new();
    while drawn.len() < 8
        invariant
            drawn@.len() <= 8,
            forall|i: int| 0 <= i < drawn@.len() ==> #[trigger] drawn@[i] < 36,
        decreases 8 - drawn@.len(),
    {
        drawn.push(crypto::random_below(36));
    }
    recovery_id_from(&drawn)
}

/// Validates a refresh token's lifetime: 1 to 365 days.
pub fn validate_refresh_ttl(days: u32) -> (r: Result<(), String>)
    ensures
        r is Ok <==> 1 <= days <= 365,
        r matches Err(e) ==> e@ == if days == 0 {
            "REFRESH_TOKEN_TTL_DAYS must be at least 1"@
        } else {
            "REFRESH_TOKEN_TTL_DAYS must not exceed 365"@
        },
{
    if days == 0 {
        return Err("REFRESH_TOKEN_TTL_DAYS must be at least 1".to_owned());
    }
    if days > 365 {
        return Err("REFRESH_TOKEN_TTL_DAYS must not exceed 365".to_owned());
    }
    Ok(())
}

/// What tokens are made with.
pub struct TokenKeys<'a> {
    /// The secret that access tokens are signed with.
    pub auth_secret: &'a [u8],
    pub access_ttl_secs: u64,
    pub refresh_ttl_days: u32,
    /// The pepper of refresh tokens.
    pub pepper: &'a [u8],
}

/// What phrases are protected with.
pub struct PhraseKeys<'a> {
    pub config: &'a PhraseConfig,
    /// The key that salts and verifiers are encrypted with.
    pub encryption_key: &'a [u8],
}

/// What the database answered.
#[derive(Debug)]
pub enum AccountEvent {
    UserCreated(Uuid),
    PhraseSet,
    /// The phrase data and recovery ID were not stored, for this reason.
    PhraseRefused(String),
    /// The new device, and the time.
    DeviceAdded(Uuid, UtcTime),
    TokenStored,
    /// The user that has the recovery ID, with the encrypted salt and verifier.
    UserFound(Option<(Uuid, Option<Vec<u8>>, Option<Vec<u8>>)>),
    /// The user's session epoch.
    Epoch(i32),
    Failed(String),
}

/// A refresh token that was issued, as it is handed out and as it is stored.
#[derive(Debug)]
pub struct IssuedToken {
    pub refresh_token: String,
    pub token_hash: Vec<u8>,
    pub expires_at: UtcTime,
}

impl IssuedToken {
    /// That this is a token issued at `now`.
    pub open spec fn issued_at(&self, now: UtcTime, keys: TokenKeys) -> bool {
        &&& is_fresh_refresh_token(self.refresh_token@)
        &&& self.token_hash@ == refresh_hash(self.refresh_token@, keys.pepper@)
        &&& self.expires_at@ == now@ + keys.refresh_ttl_days * calendar::SECS_PER_DAY * calendar::NANOS
    }
}

fn issue_token(now: UtcTime, keys: &TokenKeys) -> (t: IssuedToken)
    requires
        now.can_add_days(keys.refresh_ttl_days),
    ensures
        t.issued_at(now, *keys),
{
    let refresh_token = generate_refresh_token();
    let token_hash = hash_refresh_token(refresh_token.as_str(), keys.pepper);
    let expires_at = now.plus_days(keys.refresh_ttl_days);
    IssuedToken { refresh_token, token_hash, expires_at }
}

/// That `r` is the registration of the device, with a token signed for it at the
/// reading of the clock, or the error of the signing.
pub open spec fn is_registration_from(
    reading: Result<u64, String>,
    user_id: Uuid,
    device_id: Uuid,
    recovery_id: Seq<char>,
    refresh_token: Seq<char>,
    epoch: i32,
    keys: TokenKeys,
    r: Result<DeviceRegistration, AuthError>,
) -> bool {
    let signed = match r {
        Ok(d) => Ok::<String, AuthError>(d.access_token),
        Err(e) => Err(e),
    };
    &&& jwt::signs_access_token(
        reading,
        user_id,
        device_id,
        keys.auth_secret@,
        keys.access_ttl_secs,
        epoch,
        signed,
    )
    &&& r matches Ok(d) ==> d.user_id == user_id && d.device_id == device_id && d.recovery_id@
        == recovery_id && d.refresh_token@ == refresh_token
}

/// That `r` is the registration of the device, for some answer of the clock.
pub open spec fn is_registration(
    user_id: Uuid,
    device_id: Uuid,
    recovery_id: Seq<char>,
    refresh_token: Seq<char>,
    epoch: i32,
    keys: TokenKeys,
    r: Result<DeviceRegistration, AuthError>,
) -> bool {
    exists|reading: Result<u64, String>|
        #[trigger] is_registration_from(
            reading,
            user_id,
            device_id,
            recovery_id,
            refresh_token,
            epoch,
            keys,
            r,
        )
}

/// The registration of a device, with a token signed for it at the reading of
/// the clock.
pub fn registration_from(
    reading: Result<u64, String>,
    user_id: Uuid,
    device_id: Uuid,
    recovery_id: String,
    refresh_token: String,
    epoch: i32,
    keys: &TokenKeys,
) -> (r: Result<DeviceRegistration, AuthError>)
    ensures
        is_registration_from(
            reading,
            user_id,
            device_id,
            recovery_id@,
            refresh_token@,
            epoch,
            *keys,
            r,
        ),
{
    match jwt::sign_access_token_from(
        reading,
        &user_id,
        &device_id,
        keys.auth_secret,
        keys.access_ttl_secs,
        epoch,
    ) {
        Ok(access_token) => Ok(
            DeviceRegistration { user_id, device_id, recovery_id, access_token, refresh_token },
        ),
        Err(e) => Err(e),
    }
}

fn registration(
    user_id: Uuid,
    device_id: Uuid,
    recovery_id: String,
    refresh_token: String,
    epoch: i32,
    keys: &TokenKeys,
) -> (r: Result<DeviceRegistration, AuthError>)
    ensures
        is_registration(user_id, device_id, recovery_id@, refresh_token@, epoch, *keys, r),
{
    let reading = jwt::unix_now();
    registration_from(reading, user_id, device_id, recovery_id, refresh_token, epoch, keys)
}

/// Retries, after the first try, of storing a recovery ID that is taken.
pub const MAX_RECOVERY_RETRIES: u32 = 5;

/// What to do next to register a user.
#[derive(Debug)]
pub enum Registration {
    CreateUser,
    /// Store the encrypted phrase data under the recovery ID.
    SetPhrase {
        user_id: Uuid,
        salt: Vec<u8>,
        verifier: Vec<u8>,
        recovery_id: String,
        attempt: u32,
    },
    AddDevice { user_id: Uuid, recovery_id: String },
    StoreToken { user_id: Uuid, device_id: Uuid, recovery_id: String, token: IssuedToken },
    Done(Result<DeviceRegistration, AuthError>),
}

/// That the event answers what was to be done; a refresh token that is issued
/// now expires at a time that can be represented.
pub open spec fn registration_fits(
    doing: Registration,
    event: AccountEvent,
    refresh_ttl_days: u32,
) -> bool {
    match doing {
        Registration::CreateUser => event is UserCreated || event is Failed,
        Registration::SetPhrase { attempt, .. } => attempt <= MAX_RECOVERY_RETRIES && (
        event is PhraseSet || event is PhraseRefused),
        Registration::AddDevice { .. } => event is Failed || (event is DeviceAdded
            && event->DeviceAdded_1.can_add_days(refresh_ttl_days)),
        Registration::StoreToken { .. } => event is TokenStored || event is Failed,
        Registration::Done(_) => false,
    }
}

/// Whether the database refused a recovery ID because it is taken.
pub open spec fn recovery_id_taken(reason: Seq<char>) -> bool {
    text::occurs(reason, "idx_users_recovery_id"@) || text::occurs(reason, "23505"@)
}

/// That salt and verifier are stored for the phrase: what they decrypt to
/// verifies it.
pub open spec fn protects(
    salt: Seq<u8>,
    verifier: Seq<u8>,
    phrase: Seq<char>,
    user_id: Uuid,
    keys: PhraseKeys,
) -> bool {
    let s = phrase::blob_plaintext(salt, keys.encryption_key@);
    &&& s is Some && s->0.len() == 16
    &&& phrase::blob_plaintext(verifier, keys.encryption_key@) == Some(
        keys.config.hash(text::utf8(phrase), user_id, s->0),
    )
}

/// Why a phrase cannot be hashed and stored, if it cannot.
pub open spec fn protect_refusal(phrase: Seq<char>, keys: PhraseKeys) -> Option<Seq<char>> {
    match keys.config.objection() {
        Some(e) => Some("invalid phrase config: "@ + e),
        None => if text::utf8(phrase).len() > 0xffff_ffff {
            Some("phrase hashing failed: "@ + "password is too long"@)
        } else if keys.encryption_key@.len() != 32 {
            Some("encryption failed: "@ + phrase::key_length_text(keys.encryption_key@.len()))
        } else {
            None
        },
    }
}

/// That `r` is the database error with that text.
pub open spec fn failed_for<T>(r: Result<T, AuthError>, reason: Seq<char>) -> bool {
    r is Err && r->Err_0 is DatabaseError && r->Err_0->DatabaseError_0@ == reason
}

fn protect_phrase(phrase_text: &str, user_id: &Uuid, keys: &PhraseKeys) -> (r: Result<
    (Vec<u8>, Vec<u8>),
    AuthError,
>)
    requires
        keys.config.lanes_in_range(),
    ensures
        match protect_refusal(phrase_text@, *keys) {
            None => r matches Ok((salt, verifier)) && protects(
                salt@,
                verifier@,
                phrase_text@,
                *user_id,
                *keys,
            ),
            Some(reason) => failed_for(r, reason),
        },
{
    let hash = match phrase::hash_phrase(phrase_text, user_id, keys.config) {
        Ok(hash) => hash,
        Err(e) => {
            return Err(AuthError::DatabaseError(e.message()));
        },
    };
    match phrase::encrypt_phrase_data(
        hash.salt.as_slice(),
        hash.verifier.as_slice(),
        keys.encryption_key,
    ) {
        Ok((salt, verifier)) => Ok((salt, verifier)),
        Err(e) => Err(AuthError::DatabaseError(e.message())),
    }
}

/// That `next` follows `doing` upon the event.
pub open spec fn registration_follows(
    doing: Registration,
    event: AccountEvent,
    phrase: Seq<char>,
    phrase_keys: PhraseKeys,
    keys: TokenKeys,
    next: Registration,
) -> bool {
    match (doing, event) {
        (_, AccountEvent::Failed(e)) => next == Registration::Done(Err(AuthError::DatabaseError(e))),
        (Registration::CreateUser, AccountEvent::UserCreated(user_id)) => match protect_refusal(
            phrase,
            phrase_keys,
        ) {
            None => match next {
                Registration::SetPhrase {
                    user_id: u,
                    salt,
                    verifier,
                    recovery_id,
                    attempt,
                } => u == user_id && protects(salt@, verifier@, phrase, user_id, phrase_keys)
                    && is_recovery_id(recovery_id@) && attempt == 0,
                _ => false,
            },
            Some(reason) => next is Done && failed_for(next->Done_0, reason),
        },
        (
            Registration::SetPhrase { user_id, recovery_id, .. },
            AccountEvent::PhraseSet,
        ) => next == (Registration::AddDevice { user_id, recovery_id }),
        (
            Registration::SetPhrase { user_id, salt, verifier, attempt, .. },
            AccountEvent::PhraseRefused(reason),
        ) => if recovery_id_taken(reason@) && attempt < MAX_RECOVERY_RETRIES {
            match next {
                Registration::SetPhrase {
                    user_id: u,
                    salt: s,
                    verifier: v,
                    recovery_id: id,
                    attempt: a,
                } => u == user_id && s == salt && v == verifier && is_recovery_id(id@) && a
                    == attempt + 1,
                _ => false,
            }
        } else {
            next == Registration::Done(Err(AuthError::DatabaseError(reason)))
        },
        (
            Registration::AddDevice { user_id, recovery_id },
            AccountEvent::DeviceAdded(device_id, now),
        ) => match next {
            Registration::StoreToken {
                user_id: u,
                device_id: d,
                recovery_id: id,
                token,
            } => u == user_id && d == device_id && id == recovery_id && token.issued_at(now, keys),
            _ => false,
        },
        (
            Registration::StoreToken { user_id, device_id, recovery_id, token },
            AccountEvent::TokenStored,
        ) => next is Done && is_registration(
            user_id,
            device_id,
            recovery_id@,
            token.refresh_token@,
            0,
            keys,
            next->Done_0,
        ),
        _ => false,
    }
}

/// Takes the registration of a user one step further. A recovery ID that is
/// taken is replaced up to five times.
pub fn register_user(
    doing: Registration,
    event: AccountEvent,
    phrase_text: &str,
    phrase_keys: &PhraseKeys,
    keys: &TokenKeys,
) -> (next: Registration)
    requires
        registration_fits(doing, event, keys.refresh_ttl_days),
        phrase_keys.config.lanes_in_range(),
    ensures
        registration_follows(doing, event, phrase_text@, *phrase_keys, *keys, next),
{
    match (doing, event) {
        (_, AccountEvent::Failed(e)) => Registration::Done(Err(AuthError::DatabaseError(e))),
        (Registration::CreateUser, AccountEvent::UserCreated(user_id)) => match protect_phrase(
            phrase_text,
            &user_id,
            phrase_keys,
        ) {
            Ok((salt, verifier)) => Registration::SetPhrase {
                user_id,
                salt,
                verifier,
                recovery_id: generate_recovery_id(),
                attempt: 0,
            },
            Err(e) => Registration::Done(Err(e)),
        },
        (
            Registration::SetPhrase { user_id, recovery_id, .. },
            AccountEvent::PhraseSet,
        ) => Registration::AddDevice { user_id, recovery_id },
        (
            Registration::SetPhrase { user_id, salt, verifier, attempt, .. },
            AccountEvent::PhraseRefused(reason),
        ) => if (text::contains(reason.as_str(), "idx_users_recovery_id") || text::contains(
            reason.as_str(),
            "23505",
        )) && attempt < MAX_RECOVERY_RETRIES {
            Registration::SetPhrase {
                user_id,
                salt,
                verifier,
                recovery_id: generate_recovery_id(),
                attempt: attempt + 1,
            }
        } else {
            Registration::Done(Err(AuthError::DatabaseError(reason)))
        },
        (
            Registration::AddDevice { user_id, recovery_id },
            AccountEvent::DeviceAdded(device_id, now),
        ) => Registration::StoreToken {
            user_id,
            device_id,
            recovery_id,
            token: issue_token(now, keys),
        },
        (
            Registration::StoreToken { user_id, device_id, recovery_id, token },
            AccountEvent::TokenStored,
        ) => Registration::Done(
            registration(user_id, device_id, recovery_id, token.refresh_token, 0, keys),
        ),
        (doing, _) => doing,
    }
}

/// A recovery ID is tried at most six times: the count of retries never passes
/// five, and it goes up with each.
pub proof fn law_recovery_id_retries_are_bounded(
    doing: Registration,
    event: AccountEvent,
    phrase: Seq<char>,
    phrase_keys: PhraseKeys,
    keys: TokenKeys,
    next: Registration,
)
    requires
        registration_fits(doing, event, keys.refresh_ttl_days),
        registration_follows(doing, event, phrase, phrase_keys, keys, next),
    ensures
        next is SetPhrase ==> next->SetPhrase_attempt <= MAX_RECOVERY_RETRIES,
        next is SetPhrase && doing is SetPhrase ==> next->SetPhrase_attempt
            == doing->SetPhrase_attempt + 1,
        doing is SetPhrase && doing->SetPhrase_attempt == MAX_RECOVERY_RETRIES ==> !(
        next is SetPhrase),
{
}

/// What to do next to register a device without a phrase.
#[derive(Debug)]
pub enum DeviceSetup {
    CreateUser,
    AddDevice { user_id: Uuid },
    StoreToken { user_id: Uuid, device_id: Uuid, token: IssuedToken },
    Done(Result<DeviceRegistration, AuthError>),
}

/// That the event answers what was to be done; a refresh token that is issued
/// now expires at a time that can be represented.
pub open spec fn device_setup_fits(
    doing: DeviceSetup,
    event: AccountEvent,
    refresh_ttl_days: u32,
) -> bool {
    match doing {
        DeviceSetup::CreateUser => event is UserCreated || event is Failed,
        DeviceSetup::AddDevice { .. } => event is Failed || (event is DeviceAdded
            && event->DeviceAdded_1.can_add_days(refresh_ttl_days)),
        DeviceSetup::StoreToken { .. } => event is TokenStored || event is Failed,
        DeviceSetup::Done(_) => false,
    }
}

/// That `next` follows `doing` upon the event.
pub open spec fn device_setup_follows(
    doing: DeviceSetup,
    event: AccountEvent,
    keys: TokenKeys,
    next: DeviceSetup,
) -> bool {
    match (doing, event) {
        (_, AccountEvent::Failed(e)) => next == DeviceSetup::Done(Err(AuthError::DatabaseError(e))),
        (DeviceSetup::CreateUser, AccountEvent::UserCreated(user_id)) => next == (
        DeviceSetup::AddDevice { user_id }),
        (
            DeviceSetup::AddDevice { user_id },
            AccountEvent::DeviceAdded(device_id, now),
        ) => match next {
            DeviceSetup::StoreToken { user_id: u, device_id: d, token } => u == user_id && d
                == device_id && token.issued_at(now, keys),
            _ => false,
        },
        (
            DeviceSetup::StoreToken { user_id, device_id, token },
            AccountEvent::TokenStored,
        ) => next is Done && is_registration(
            user_id,
            device_id,
            Seq::empty(),
            token.refresh_token@,
            0,
            keys,
            next->Done_0,
        ),
        _ => false,
    }
}

/// Takes the registration of a device without a phrase one step further; the
/// device has no recovery ID.
pub fn register_device(doing: DeviceSetup, event: AccountEvent, keys: &TokenKeys) -> (next:
    DeviceSetup)
    requires
        device_setup_fits(doing, event, keys.refresh_ttl_days),
    ensures
        device_setup_follows(doing, event, *keys, next),
{
    match (doing, event) {
        (_, AccountEvent::Failed(e)) => DeviceSetup::Done(Err(AuthError::DatabaseError(e))),
        (DeviceSetup::CreateUser, AccountEvent::UserCreated(user_id)) => DeviceSetup::AddDevice {
            user_id,
        },
        (
            DeviceSetup::AddDevice { user_id },
            AccountEvent::DeviceAdded(device_id, now),
        ) => DeviceSetup::StoreToken { user_id, device_id, token: issue_token(now, keys) },
        (
            DeviceSetup::StoreToken { user_id, device_id, token },
            AccountEvent::TokenStored,
        ) => DeviceSetup::Done(
            registration(user_id, device_id, String::new(), token.refresh_token, 0, keys),
        ),
        (doing, _) => doing,
    }
}

/// What to do next to recover an account.
#[derive(Debug)]
pub enum Recovery {
    /// Look up the user that has the recovery ID.
    FindUser,
    AddDevice { user_id: Uuid },
    StoreToken { user_id: Uuid, device_id: Uuid, token: IssuedToken },
    ReadEpoch { user_id: Uuid, device_id: Uuid, refresh_token: String },
    Done(Result<DeviceRegistration, AuthError>),
}

/// That the event answers what was to be done; a refresh token that is issued
/// now expires at a time that can be represented.
pub open spec fn recovery_fits(
    doing: Recovery,
    event: AccountEvent,
    refresh_ttl_days: u32,
) -> bool {
    match doing {
        Recovery::FindUser => event is UserFound || event is Failed,
        Recovery::AddDevice { .. } => event is Failed || (event is DeviceAdded
            && event->DeviceAdded_1.can_add_days(refresh_ttl_days)),
        Recovery::StoreToken { .. } => event is TokenStored || event is Failed,
        Recovery::ReadEpoch { .. } => event is Epoch || event is Failed,
        Recovery::Done(_) => false,
    }
}

/// What checking a phrase against stored data leads to: whether it is the
/// phrase, or why the data or the configuration do not allow a check.
pub open spec fn phrase_verdict(
    phrase: Seq<char>,
    user_id: Uuid,
    salt: Seq<u8>,
    verifier: Seq<u8>,
    keys: PhraseKeys,
) -> Result<bool, Seq<char>> {
    let key = keys.encryption_key@;
    match (phrase::blob_plaintext(salt, key), phrase::blob_plaintext(verifier, key)) {
        (None, _) => Err("decryption failed: "@ + phrase::decrypt_complaint(salt, key)),
        (_, None) => Err("decryption failed: "@ + phrase::decrypt_complaint(verifier, key)),
        (Some(s), Some(v)) => match keys.config.objection() {
            Some(e) => Err("invalid phrase config: "@ + e),
            None => match crypto::argon2_input_objection(
                text::utf8(phrase),
                phrase::bound_salt(s, user_id),
            ) {
                Some(e) => Err("phrase hashing failed: "@ + e),
                None => Ok(v == keys.config.hash(text::utf8(phrase), user_id, s)),
            },
        },
    }
}

fn check_phrase(
    phrase_text: &str,
    user_id: &Uuid,
    salt: &[u8],
    verifier: &[u8],
    keys: &PhraseKeys,
) -> (r: Result<bool, AuthError>)
    requires
        keys.config.lanes_in_range(),
    ensures
        match phrase_verdict(phrase_text@, *user_id, salt@, verifier@, *keys) {
            Ok(same) => r == Ok::<bool, AuthError>(same),
            Err(reason) => failed_for(r, reason),
        },
{
    let (salt, verifier) = match phrase::decrypt_phrase_data(salt, verifier, keys.encryption_key) {
        Ok((s, v)) => (s, v),
        Err(e) => {
            return Err(AuthError::DatabaseError(e.message()));
        },
    };
    match phrase::verify_phrase(
        phrase_text,
        user_id,
        salt.as_slice(),
        verifier.as_slice(),
        keys.config,
    ) {
        Ok(same) => Ok(same),
        Err(e) => Err(AuthError::DatabaseError(e.message())),
    }
}

/// That `next` follows `doing` upon the event.
pub open spec fn recovery_follows(
    doing: Recovery,
    event: AccountEvent,
    recovery_id: Seq<char>,
    phrase: Seq<char>,
    phrase_keys: PhraseKeys,
    keys: TokenKeys,
    next: Recovery,
) -> bool {
    match (doing, event) {
        (_, AccountEvent::Failed(e)) => next == Recovery::Done(Err(AuthError::DatabaseError(e))),
        (Recovery::FindUser, AccountEvent::UserFound(found)) => match found {
            Some((user_id, Some(salt), Some(verifier))) => match phrase_verdict(
                phrase,
                user_id,
                salt@,
                verifier@,
                phrase_keys,
            ) {
                Ok(true) => next == (Recovery::AddDevice { user_id }),
                Ok(false) => next == Recovery::Done(Err(AuthError::PhraseVerificationFailed)),
                Err(reason) => next is Done && failed_for(next->Done_0, reason),
            },
            _ => next == Recovery::Done(Err(AuthError::RecoveryIdNotFound)),
        },
        (
            Recovery::AddDevice { user_id },
            AccountEvent::DeviceAdded(device_id, now),
        ) => match next {
            Recovery::StoreToken { user_id: u, device_id: d, token } => u == user_id && d
                == device_id && token.issued_at(now, keys),
            _ => false,
        },
        (
            Recovery::StoreToken { user_id, device_id, token },
            AccountEvent::TokenStored,
        ) => next == (Recovery::ReadEpoch {
            user_id,
            device_id,
            refresh_token: token.refresh_token,
        }),
        (
            Recovery::ReadEpoch { user_id, device_id, refresh_token },
            AccountEvent::Epoch(epoch),
        ) => next is Done && is_registration(
            user_id,
            device_id,
            recovery_id,
            refresh_token@,
            epoch,
            keys,
            next->Done_0,
        ),
        _ => false,
    }
}

/// Takes the recovery of an account one step further. Where no user has the
/// recovery ID, or the user has no phrase, the phrase is checked against the
/// dummy verifier all the same, so that the answer takes as long.
pub fn recover_account(
    doing: Recovery,
    event: AccountEvent,
    recovery_id: &str,
    phrase_text: &str,
    phrase_keys: &PhraseKeys,
    keys: &TokenKeys,
    dummy_verifier: &DummyVerifier,
) -> (next: Recovery)
    requires
        recovery_fits(doing, event, keys.refresh_ttl_days),
        phrase_keys.config.lanes_in_range(),
    ensures
        recovery_follows(doing, event, recovery_id@, phrase_text@, *phrase_keys, *keys, next),
{
    match (doing, event) {
        (_, AccountEvent::Failed(e)) => Recovery::Done(Err(AuthError::DatabaseError(e))),
        (Recovery::FindUser, AccountEvent::UserFound(found)) => match found {
            Some((user_id, Some(salt), Some(verifier))) => match check_phrase(
                phrase_text,
                &user_id,
                salt.as_slice(),
                verifier.as_slice(),
                phrase_keys,
            ) {
                Ok(true) => Recovery::AddDevice { user_id },
                Ok(false) => Recovery::Done(Err(AuthError::PhraseVerificationFailed)),
                Err(e) => Recovery::Done(Err(e)),
            },
            _ => {
                let _ = phrase::verify_dummy(phrase_text, dummy_verifier, phrase_keys.config);
                Recovery::Done(Err(AuthError::RecoveryIdNotFound))
            },
        },
        (
            Recovery::AddDevice { user_id },
            AccountEvent::DeviceAdded(device_id, now),
        ) => Recovery::StoreToken { user_id, device_id, token: issue_token(now, keys) },
        (
            Recovery::StoreToken { user_id, device_id, token },
            AccountEvent::TokenStored,
        ) => Recovery::ReadEpoch { user_id, device_id, refresh_token: token.refresh_token },
        (
            Recovery::ReadEpoch { user_id, device_id, refresh_token },
            AccountEvent::Epoch(epoch),
        ) => Recovery::Done(
            registration(user_id, device_id, recovery_id.to_owned(), refresh_token, epoch, keys),
        ),
        (doing, _) => doing,
    }
}

/// What registration stored for a phrase, recovery accepts for that phrase, and
/// for another exactly where it has the same hash.
pub proof fn law_registered_phrase_recovers(
    registered: Seq<char>,
    offered: Seq<char>,
    user_id: Uuid,
    salt: Seq<u8>,
    verifier: Seq<u8>,
    keys: PhraseKeys,
)
    requires
        protect_refusal(registered, keys) is None,
        protects(salt, verifier, registered, user_id, keys),
        text::utf8(offered).len() <= 0xffff_ffff,
    ensures
        offered == registered ==> phrase_verdict(offered, user_id, salt, verifier, keys) == Ok::<
            bool,
            Seq<char>,
        >(true),
        ({
            let s = phrase::blob_plaintext(salt, keys.encryption_key@)->0;
            phrase_verdict(offered, user_id, salt, verifier, keys) == Ok::<bool, Seq<char>>(
                keys.config.hash(text::utf8(offered), user_id, s) == keys.config.hash(
                    text::utf8(registered),
                    user_id,
                    s,
                ),
            )
        }),
{
}

/// What to do next to change a phrase.
#[derive(Debug)]
pub enum PhraseChange {
    /// Read the user's encrypted salt and verifier.
    Load,
    /// Store the new salt and verifier and raise the phrase's version.
    Store { salt: Vec<u8>, verifier: Vec<u8> },
    Done(Result<(), AuthError>),
}

/// What the database answered.
#[derive(Debug)]
pub enum PhraseEvent {
    Loaded(Option<(Option<Vec<u8>>, Option<Vec<u8>>)>),
    Stored,
    Failed(String),
}

/// That the event answers what was to be done.
pub open spec fn phrase_change_fits(doing: PhraseChange, event: PhraseEvent) -> bool {
    match doing {
        PhraseChange::Load => event is Loaded || event is Failed,
        PhraseChange::Store { .. } => event is Stored || event is Failed,
        PhraseChange::Done(_) => false,
    }
}

/// That `next` follows `doing` upon the event.
pub open spec fn phrase_change_follows(
    doing: PhraseChange,
    event: PhraseEvent,
    user_id: Uuid,
    current: Seq<char>,
    new: Seq<char>,
    keys: PhraseKeys,
    next: PhraseChange,
) -> bool {
    match (doing, event) {
        (_, PhraseEvent::Failed(e)) => next == PhraseChange::Done(Err(AuthError::DatabaseError(e))),
        (PhraseChange::Load, PhraseEvent::Loaded(found)) => match found {
            Some((Some(salt), Some(verifier))) => match phrase_verdict(
                current,
                user_id,
                salt@,
                verifier@,
                keys,
            ) {
                Ok(true) => match protect_refusal(new, keys) {
                    None => next is Store && protects(
                        next->Store_salt@,
                        next->Store_verifier@,
                        new,
                        user_id,
                        keys,
                    ),
                    Some(reason) => next is Done && failed_for(next->Done_0, reason),
                },
                Ok(false) => next == PhraseChange::Done(Err(AuthError::PhraseVerificationFailed)),
                Err(reason) => next is Done && failed_for(next->Done_0, reason),
            },
            _ => next == PhraseChange::Done(Err(AuthError::PhraseVerificationFailed)),
        },
        (PhraseChange::Store { .. }, PhraseEvent::Stored) => next == PhraseChange::Done(Ok(())),
        _ => false,
    }
}

/// Takes the change of a phrase one step further: the current phrase is
/// checked before anything of the new one is stored.
pub fn rotate_phrase(
    doing: PhraseChange,
    event: PhraseEvent,
    user_id: Uuid,
    current_phrase: &str,
    new_phrase: &str,
    keys: &PhraseKeys,
) -> (next: PhraseChange)
    requires
        phrase_change_fits(doing, event),
        keys.config.lanes_in_range(),
    ensures
        phrase_change_follows(
            doing,
            event,
            user_id,
            current_phrase@,
            new_phrase@,
            *keys,
            next,
        ),
{
    match (doing, event) {
        (_, PhraseEvent::Failed(e)) => PhraseChange::Done(Err(AuthError::DatabaseError(e))),
        (PhraseChange::Load, PhraseEvent::Loaded(found)) => match found {
            Some((Some(salt), Some(verifier))) => match check_phrase(
                current_phrase,
                &user_id,
                salt.as_slice(),
                verifier.as_slice(),
                keys,
            ) {
                Ok(true) => match protect_phrase(new_phrase, &user_id, keys) {
                    Ok((salt, verifier)) => PhraseChange::Store { salt, verifier },
                    Err(e) => PhraseChange::Done(Err(e)),
                },
                Ok(false) => PhraseChange::Done(Err(AuthError::PhraseVerificationFailed)),
                Err(e) => PhraseChange::Done(Err(e)),
            },
            _ => PhraseChange::Done(Err(AuthError::PhraseVerificationFailed)),
        },
        (PhraseChange::Store { .. }, PhraseEvent::Stored) => PhraseChange::Done(Ok(())),
        (doing, _) => doing,
    }
}

/// What to do next, in one transaction, to rotate a refresh token.
#[derive(Debug)]
pub enum Rotation {
    /// Mark the token with that hash consumed, where it is unexpired, unconsumed
    /// and unrevoked.
    Consume { token_hash: Vec<u8> },
    /// Read the user and the epoch of the device.
    LoadUser { device_id: Uuid, family_id: Uuid },
    /// Store the new token in the old one's family.
    StoreToken {
        user_id: Uuid,
        device_id: Uuid,
        family_id: Uuid,
        epoch: i32,
        token: IssuedToken,
    },
    Commit { user_id: Uuid, device_id: Uuid, epoch: i32, refresh_token: String },
    /// Look whether the token with that hash had been consumed before.
    FindReuse { token_hash: Vec<u8> },
    /// Read the user of the device whose token was used again.
    FindReuser { device_id: Uuid },
    /// Revoke every refresh token of the user.
    RevokeTokens { user_id: Uuid },
    /// Raise the user's session epoch.
    BumpEpoch { user_id: Uuid },
    CommitReuse,
    CommitInvalid,
    Done(Result<TokenPair, AuthError>),
}

/// What the database answered.
#[derive(Debug)]
pub enum RotationEvent {
    /// The device and the family of the token that is now consumed.
    Consumed(Option<(Uuid, Uuid)>),
    /// The user and the epoch, and the time.
    UserLoaded(Option<(Uuid, i32)>, UtcTime),
    TokenStored,
    Committed,
    /// The device of the token that had been consumed before.
    ReuseFound(Option<Uuid>),
    ReuserFound(Option<Uuid>),
    TokensRevoked,
    EpochBumped,
    Failed(String),
}

/// What to do first: a refresh token is looked up by its hash.
pub fn start_rotation(raw_refresh_token: &str, pepper: &[u8]) -> (first: Rotation)
    ensures
        first is Consume,
        first->Consume_token_hash@ == crypto::hmac_sha256(pepper@, text::utf8(raw_refresh_token@)),
{
    Rotation::Consume { token_hash: hash_refresh_token(raw_refresh_token, pepper) }
}

/// That the event answers what was to be done; a refresh token that is issued
/// now expires at a time that can be represented.
pub open spec fn rotation_fits(
    doing: Rotation,
    event: RotationEvent,
    refresh_ttl_days: u32,
) -> bool {
    match doing {
        Rotation::Consume { .. } => event is Consumed || event is Failed,
        Rotation::LoadUser { .. } => event is Failed || (event is UserLoaded
            && event->UserLoaded_1.can_add_days(refresh_ttl_days)),
        Rotation::StoreToken { .. } => event is TokenStored || event is Failed,
        Rotation::Commit { .. } => event is Committed || event is Failed,
        Rotation::FindReuse { .. } => event is ReuseFound || event is Failed,
        Rotation::FindReuser { .. } => event is ReuserFound || event is Failed,
        Rotation::RevokeTokens { .. } => event is TokensRevoked || event is Failed,
        Rotation::BumpEpoch { .. } => event is EpochBumped || event is Failed,
        Rotation::CommitReuse => event is Committed || event is Failed,
        Rotation::CommitInvalid => event is Committed || event is Failed,
        Rotation::Done(_) => false,
    }
}

/// That `r` is the pair of tokens for the device, with an access token signed at
/// the reading of the clock, or the error of the signing.
pub open spec fn is_pair_from(
    reading: Result<u64, String>,
    user_id: Uuid,
    device_id: Uuid,
    epoch: i32,
    refresh_token: String,
    keys: TokenKeys,
    r: Result<TokenPair, AuthError>,
) -> bool {
    let signed = match r {
        Ok(pair) => Ok::<String, AuthError>(pair.access_token),
        Err(e) => Err(e),
    };
    &&& jwt::signs_access_token(
        reading,
        user_id,
        device_id,
        keys.auth_secret@,
        keys.access_ttl_secs,
        epoch,
        signed,
    )
    &&& r matches Ok(pair) ==> pair.user_id == user_id && pair.device_id == device_id
        && pair.refresh_token == refresh_token
}

/// That `r` is the pair of tokens for the device, for some answer of the clock.
pub open spec fn is_pair(
    user_id: Uuid,
    device_id: Uuid,
    epoch: i32,
    refresh_token: String,
    keys: TokenKeys,
    r: Result<TokenPair, AuthError>,
) -> bool {
    exists|reading: Result<u64, String>|
        #[trigger] is_pair_from(reading, user_id, device_id, epoch, refresh_token, keys, r)
}

/// The pair of tokens for a device, with an access token signed at the reading
/// of the clock.
pub fn pair_from(
    reading: Result<u64, String>,
    user_id: Uuid,
    device_id: Uuid,
    epoch: i32,
    refresh_token: String,
    keys: &TokenKeys,
) -> (r: Result<TokenPair, AuthError>)
    ensures
        is_pair_from(reading, user_id, device_id, epoch, refresh_token, *keys, r),
{
    match jwt::sign_access_token_from(
        reading,
        &user_id,
        &device_id,
        keys.auth_secret,
        keys.access_ttl_secs,
        epoch,
    ) {
        Ok(access_token) => Ok(TokenPair { access_token, refresh_token, user_id, device_id }),
        Err(e) => Err(e),
    }
}

/// That `next` follows `doing` upon the event.
pub open spec fn rotation_follows(
    doing: Rotation,
    event: RotationEvent,
    keys: TokenKeys,
    next: Rotation,
) -> bool {
    match (doing, event) {
        (_, RotationEvent::Failed(e)) => next == Rotation::Done(Err(AuthError::DatabaseError(e))),
        (Rotation::Consume { token_hash }, RotationEvent::Consumed(consumed)) => next
            == match consumed {
            Some((device_id, family_id)) => Rotation::LoadUser { device_id, family_id },
            None => Rotation::FindReuse { token_hash },
        },
        (
            Rotation::LoadUser { device_id, family_id },
            RotationEvent::UserLoaded(row, now),
        ) => match row {
            None => next == Rotation::Done(Err(AuthError::InvalidToken)),
            Some((user_id, epoch)) => match next {
                Rotation::StoreToken {
                    user_id: u,
                    device_id: d,
                    family_id: f,
                    epoch: e,
                    token,
                } => u == user_id && d == device_id && f == family_id && e == epoch
                    && token.issued_at(now, keys),
                _ => false,
            },
        },
        (
            Rotation::StoreToken { user_id, device_id, epoch, token, .. },
            RotationEvent::TokenStored,
        ) => next == (Rotation::Commit {
            user_id,
            device_id,
            epoch,
            refresh_token: token.refresh_token,
        }),
        (
            Rotation::Commit { user_id, device_id, epoch, refresh_token },
            RotationEvent::Committed,
        ) => next is Done && is_pair(user_id, device_id, epoch, refresh_token, keys, next->Done_0),
        (Rotation::FindReuse { .. }, RotationEvent::ReuseFound(found)) => next == match found {
            Some(device_id) => Rotation::FindReuser { device_id },
            None => Rotation::CommitInvalid,
        },
        (Rotation::FindReuser { .. }, RotationEvent::ReuserFound(found)) => next == match found {
            Some(user_id) => Rotation::RevokeTokens { user_id },
            None => Rotation::CommitReuse,
        },
        (Rotation::RevokeTokens { user_id }, RotationEvent::TokensRevoked) => next == (
        Rotation::BumpEpoch { user_id }),
        (Rotation::BumpEpoch { .. }, RotationEvent::EpochBumped) => next == Rotation::CommitReuse,
        (Rotation::CommitReuse, RotationEvent::Committed) => next == Rotation::Done(
            Err(AuthError::TokenReuseDetected),
        ),
        (Rotation::CommitInvalid, RotationEvent::Committed) => next == Rotation::Done(
            Err(AuthError::RefreshTokenInvalid),
        ),
        _ => false,
    }
}

/// Takes the rotation of a refresh token one step further: a token that can be
/// consumed is replaced; one that was consumed before revokes all that the user
/// has.
pub fn try_rotate(doing: Rotation, event: RotationEvent, keys: &TokenKeys) -> (next: Rotation)
    requires
        rotation_fits(doing, event, keys.refresh_ttl_days),
    ensures
        rotation_follows(doing, event, *keys, next),
{
    match (doing, event) {
        (_, RotationEvent::Failed(e)) => Rotation::Done(Err(AuthError::DatabaseError(e))),
        (Rotation::Consume { token_hash }, RotationEvent::Consumed(consumed)) => match consumed {
            Some((device_id, family_id)) => Rotation::LoadUser { device_id, family_id },
            None => Rotation::FindReuse { token_hash },
        },
        (
            Rotation::LoadUser { device_id, family_id },
            RotationEvent::UserLoaded(row, now),
        ) => match row {
            None => Rotation::Done(Err(AuthError::InvalidToken)),
            Some((user_id, epoch)) => Rotation::StoreToken {
                user_id,
                device_id,
                family_id,
                epoch,
                token: issue_token(now, keys),
            },
        },
        (
            Rotation::StoreToken { user_id, device_id, epoch, token, .. },
            RotationEvent::TokenStored,
        ) => Rotation::Commit { user_id, device_id, epoch, refresh_token: token.refresh_token },
        (
            Rotation::Commit { user_id, device_id, epoch, refresh_token },
            RotationEvent::Committed,
        ) => Rotation::Done(
            pair_from(jwt::unix_now(), user_id, device_id, epoch, refresh_token, keys),
        ),
        (Rotation::FindReuse { .. }, RotationEvent::ReuseFound(found)) => match found {
            Some(device_id) => Rotation::FindReuser { device_id },
            None => Rotation::CommitInvalid,
        },
        (Rotation::FindReuser { .. }, RotationEvent::ReuserFound(found)) => match found {
            Some(user_id) => Rotation::RevokeTokens { user_id },
            None => Rotation::CommitReuse,
        },
        (Rotation::RevokeTokens { user_id }, RotationEvent::TokensRevoked) => Rotation::BumpEpoch {
            user_id,
        },
        (Rotation::BumpEpoch { .. }, RotationEvent::EpochBumped) => Rotation::CommitReuse,
        (Rotation::CommitReuse, RotationEvent::Committed) => Rotation::Done(
            Err(AuthError::TokenReuseDetected),
        ),
        (Rotation::CommitInvalid, RotationEvent::Committed) => Rotation::Done(
            Err(AuthError::RefreshTokenInvalid),
        ),
        (doing, _) => doing,
    }
}

/// The pair of tokens that a rotation hands out is for the device of the token
/// that was consumed and for its user, at the user's epoch, and the new refresh
/// token was stored in the family of the old one; without a commit there is none.
pub proof fn law_pair_only_for_a_consumed_token(
    token_hash: Vec<u8>,
    consumed: RotationEvent,
    user: RotationEvent,
    stored: RotationEvent,
    committed: RotationEvent,
    keys: TokenKeys,
    second: Rotation,
    third: Rotation,
    fourth: Rotation,
    last: Rotation,
)
    requires
        rotation_fits(Rotation::Consume { token_hash }, consumed, keys.refresh_ttl_days),
        rotation_follows(Rotation::Consume { token_hash }, consumed, keys, second),
        second is LoadUser,
        rotation_fits(second, user, keys.refresh_ttl_days),
        rotation_follows(second, user, keys, third),
        rotation_fits(third, stored, keys.refresh_ttl_days),
        rotation_follows(third, stored, keys, fourth),
        rotation_fits(fourth, committed, keys.refresh_ttl_days),
        rotation_follows(fourth, committed, keys, last),
    ensures
        consumed->Consumed_0 is Some,
        user->UserLoaded_0 is Some,
        last is Done,
        committed is Failed ==> last->Done_0 is Err,
        last->Done_0 is Ok ==> ({
            let pair = last->Done_0->Ok_0;
            &&& pair.device_id == (consumed->Consumed_0->0).0
            &&& pair.user_id == (user->UserLoaded_0->0).0
            &&& is_signed_access_token(
                pair.access_token@,
                pair.user_id,
                pair.device_id,
                keys.auth_secret@,
                keys.access_ttl_secs,
                (user->UserLoaded_0->0).1,
            )
            &&& third->StoreToken_token.issued_at(user->UserLoaded_1, keys)
            &&& third->StoreToken_family_id == (consumed->Consumed_0->0).1
            &&& pair.refresh_token == third->StoreToken_token.refresh_token
        }),
{
}

/// A device is registered, and a pair of tokens handed out, exactly where the
/// secret has 32 bytes and the clock a reading at which the lifetime can be
/// represented.
pub proof fn law_long_secret_and_clock_give_tokens(
    reading: Result<u64, String>,
    user_id: Uuid,
    device_id: Uuid,
    recovery_id: Seq<char>,
    refresh_token: String,
    epoch: i32,
    keys: TokenKeys,
    registered: Result<DeviceRegistration, AuthError>,
    pair: Result<TokenPair, AuthError>,
)
    requires
        is_registration_from(
            reading,
            user_id,
            device_id,
            recovery_id,
            refresh_token@,
            epoch,
            keys,
            registered,
        ),
        is_pair_from(reading, user_id, device_id, epoch, refresh_token, keys, pair),
    ensures
        ({
            let signs = keys.auth_secret@.len() >= 32 && reading is Ok && reading->Ok_0
                + keys.access_ttl_secs <= u64::MAX;
            &&& registered is Ok <==> signs
            &&& pair is Ok <==> signs
        }),
        keys.auth_secret@.len() < 32 ==> registered == Err::<DeviceRegistration, AuthError>(
            AuthError::SecretTooShort,
        ) && pair == Err::<TokenPair, AuthError>(AuthError::SecretTooShort),
{
}

/// A pair of tokens comes only of a commit, a commit only of a token stored, a
/// token stored only of a user loaded, and a user is loaded only for a token that
/// was consumed.
pub proof fn law_steps_to_a_pair(
    doing: Rotation,
    event: RotationEvent,
    keys: TokenKeys,
    next: Rotation,
)
    requires
        rotation_fits(doing, event, keys.refresh_ttl_days),
        rotation_follows(doing, event, keys, next),
    ensures
        next is Done && next->Done_0 is Ok ==> doing is Commit && event is Committed,
        next is Commit ==> doing is StoreToken,
        next is StoreToken ==> doing is LoadUser,
        next is LoadUser ==> doing is Consume && event is Consumed && event->Consumed_0 is Some,
{
}

/// When a token is used again whose user is known, every step that succeeds
/// leads on, through the revocation of all the user's tokens and the raising
/// of the epoch, to the report of the reuse.
pub proof fn law_reuse_revokes_and_raises_the_epoch(
    token_hash: Vec<u8>,
    device_id: Uuid,
    user_id: Uuid,
    keys: TokenKeys,
    s1: Rotation,
    s2: Rotation,
    s3: Rotation,
    s4: Rotation,
    s5: Rotation,
    s6: Rotation,
)
    requires
        rotation_follows(
            Rotation::Consume { token_hash },
            RotationEvent::Consumed(None),
            keys,
            s1,
        ),
        rotation_follows(s1, RotationEvent::ReuseFound(Some(device_id)), keys, s2),
        rotation_follows(s2, RotationEvent::ReuserFound(Some(user_id)), keys, s3),
        rotation_follows(s3, RotationEvent::TokensRevoked, keys, s4),
        rotation_follows(s4, RotationEvent::EpochBumped, keys, s5),
        rotation_follows(s5, RotationEvent::Committed, keys, s6),
    ensures
        s1 == (Rotation::FindReuse { token_hash }),
        s3 == (Rotation::RevokeTokens { user_id }),
        s4 == (Rotation::BumpEpoch { user_id }),
        s6 == Rotation::Done(Err(AuthError::TokenReuseDetected)),
{
}

/// Tries that a rotation gets.
pub const MAX_ROTATION_TRIES: u32 = 3;

/// What to do after a try of a rotation.
#[derive(Debug)]
pub enum AfterTry {
    /// Try again after that many milliseconds.
    Again { sleep_millis: u64 },
    Done(Result<TokenPair, AuthError>),
}

/// What to do after try number `attempt`, counted from zero: a serialization
/// failure is tried again, after a pause that grows, as long as tries are left.
pub fn rotate_refresh_token(attempt: u32, result: Result<TokenPair, AuthError>) -> (r: AfterTry)
    requires
        attempt < MAX_ROTATION_TRIES,
    ensures
        r == if result is Err && result->Err_0 is DatabaseError && text::occurs(
            result->Err_0->DatabaseError_0@,
            "40001"@,
        ) && attempt < MAX_ROTATION_TRIES - 1 {
            AfterTry::Again { sleep_millis: (10 * (attempt + 1)) as u64 }
        } else {
            AfterTry::Done(result)
        },
{
    let again = match &result {
        Err(AuthError::DatabaseError(reason)) => text::contains(reason.as_str(), "40001") && attempt
            < MAX_ROTATION_TRIES - 1,
        _ => false,
    };
    if again {
        AfterTry::Again { sleep_millis: 10 * (attempt as u64 + 1) }
    } else {
        AfterTry::Done(result)
    }
}

/// That the stored token is the one that is handed out as `raw`: it is found
/// under the HMAC-SHA256 of this text, keyed with the pepper, until that many days
/// after `now`.
pub open spec fn stored_for(
    token: IssuedToken,
    raw: Seq<char>,
    pepper: Seq<u8>,
    now: int,
    days: int,
) -> bool {
    &&& token.refresh_token@ == raw
    &&& token.token_hash@ == crypto::hmac_sha256(pepper, text::utf8(raw))
    &&& token.expires_at@ == now + days * 86_400 * 1_000_000_000
}

/// A registration from first to last. The phrase data is stored for the new user,
/// and recovery accepts the phrase on it. The refresh token that is handed out is
/// stored so that a rotation of it looks up exactly what was stored, and expires
/// after its days. The access token is good for its lifetime, for the new user and
/// device at epoch zero, and the recovery ID is the one that was stored.
pub proof fn law_registration_from_first_to_last(
    phrase: Seq<char>,
    phrase_keys: PhraseKeys,
    keys: TokenKeys,
    user_id: Uuid,
    device_id: Uuid,
    now: UtcTime,
    recovery_id: Seq<char>,
    raw: &str,
    s1: Registration,
    s2: Registration,
    s3: Registration,
    last: Registration,
    recovering: Recovery,
    lookup: Rotation,
)
    requires
        registration_follows(
            Registration::CreateUser,
            AccountEvent::UserCreated(user_id),
            phrase,
            phrase_keys,
            keys,
            s1,
        ),
        s1 is SetPhrase,
        registration_follows(s1, AccountEvent::PhraseSet, phrase, phrase_keys, keys, s2),
        registration_follows(
            s2,
            AccountEvent::DeviceAdded(device_id, now),
            phrase,
            phrase_keys,
            keys,
            s3,
        ),
        registration_follows(s3, AccountEvent::TokenStored, phrase, phrase_keys, keys, last),
        recovery_follows(
            Recovery::FindUser,
            AccountEvent::UserFound(
                Some((user_id, Some(s1->SetPhrase_salt), Some(s1->SetPhrase_verifier))),
            ),
            recovery_id,
            phrase,
            phrase_keys,
            keys,
            recovering,
        ),
        s3 is StoreToken ==> raw@ == s3->StoreToken_token.refresh_token@,
        call_ensures(start_rotation, (raw, keys.pepper), lookup),
    ensures
        s1->SetPhrase_user_id == user_id,
        s1->SetPhrase_attempt == 0,
        recovering == (Recovery::AddDevice { user_id }),
        s2 == (Registration::AddDevice { user_id, recovery_id: s1->SetPhrase_recovery_id }),
        s3 is StoreToken,
        s3->StoreToken_user_id == user_id,
        s3->StoreToken_device_id == device_id,
        stored_for(
            s3->StoreToken_token,
            raw@,
            keys.pepper@,
            now@,
            keys.refresh_ttl_days as int,
        ),
        lookup is Consume,
        lookup->Consume_token_hash@ == s3->StoreToken_token.token_hash@,
        last is Done,
        last->Done_0 matches Ok(d) ==> {
            &&& d.user_id == user_id
            &&& d.device_id == device_id
            &&& d.recovery_id@ == s1->SetPhrase_recovery_id@
            &&& d.refresh_token@ == raw@
            &&& exists|at: u64| #[trigger]
                good_for_lifetime(d.access_token@, user_id, device_id, 0, keys, at)
        },
{
    lemma_registered_is_good(
        user_id,
        device_id,
        s3->StoreToken_recovery_id@,
        raw@,
        0,
        keys,
        last->Done_0,
    );
}

/// That the access token is good for its lifetime from the time given on.
pub open spec fn good_for_lifetime(
    token: Seq<char>,
    user_id: Uuid,
    device_id: Uuid,
    epoch: i32,
    keys: TokenKeys,
    at: u64,
) -> bool {
    jwt::good_until(
        token,
        keys.auth_secret@,
        user_id,
        device_id,
        epoch,
        at + keys.access_ttl_secs,
    )
}

proof fn lemma_registered_is_good(
    user_id: Uuid,
    device_id: Uuid,
    recovery_id: Seq<char>,
    refresh_token: Seq<char>,
    epoch: i32,
    keys: TokenKeys,
    r: Result<DeviceRegistration, AuthError>,
)
    requires
        is_registration(user_id, device_id, recovery_id, refresh_token, epoch, keys, r),
    ensures
        r matches Ok(d) ==> exists|at: u64| #[trigger]
            good_for_lifetime(d.access_token@, user_id, device_id, epoch, keys, at),
{
    let reading = choose|reading: Result<u64, String>|
        #[trigger] is_registration_from(
            reading,
            user_id,
            device_id,
            recovery_id,
            refresh_token,
            epoch,
            keys,
            r,
        );
    if r is Ok {
        jwt::law_access_token_lives_for_its_lifetime(
            reading->Ok_0,
            user_id,
            device_id,
            keys.auth_secret@,
            keys.access_ttl_secs,
            epoch,
            Ok(r->Ok_0.access_token),
        );
        assert(good_for_lifetime(
            r->Ok_0.access_token@,
            user_id,
            device_id,
            epoch,
            keys,
            reading->Ok_0,
        ));
    }
}

proof fn lemma_pair_is_good(
    user_id: Uuid,
    device_id: Uuid,
    epoch: i32,
    refresh_token: String,
    keys: TokenKeys,
    r: Result<TokenPair, AuthError>,
)
    requires
        is_pair(user_id, device_id, epoch, refresh_token, keys, r),
    ensures
        r matches Ok(pair) ==> exists|at: u64| #[trigger]
            good_for_lifetime(pair.access_token@, user_id, device_id, epoch, keys, at),
{
    let reading = choose|reading: Result<u64, String>|
        #[trigger] is_pair_from(reading, user_id, device_id, epoch, refresh_token, keys, r);
    if r is Ok {
        jwt::law_access_token_lives_for_its_lifetime(
            reading->Ok_0,
            user_id,
            device_id,
            keys.auth_secret@,
            keys.access_ttl_secs,
            epoch,
            Ok(r->Ok_0.access_token),
        );
        assert(good_for_lifetime(
            r->Ok_0.access_token@,
            user_id,
            device_id,
            epoch,
            keys,
            reading->Ok_0,
        ));
    }
}

/// A registration gets as far as storing a phrase exactly where the phrase can be
/// hashed and encrypted. A recovery ID that is taken is replaced, and nothing
/// else is; any other refusal, and the sixth, ends it with the reason.
pub proof fn law_registration_keeps_the_phrase_data(
    user_id: Uuid,
    phrase: Seq<char>,
    phrase_keys: PhraseKeys,
    keys: TokenKeys,
    reason: String,
    first: Registration,
    doing: Registration,
    next: Registration,
)
    requires
        registration_follows(
            Registration::CreateUser,
            AccountEvent::UserCreated(user_id),
            phrase,
            phrase_keys,
            keys,
            first,
        ),
        doing is SetPhrase,
        registration_follows(
            doing,
            AccountEvent::PhraseRefused(reason),
            phrase,
            phrase_keys,
            keys,
            next,
        ),
    ensures
        first is SetPhrase <==> phrase_keys.config.objection() is None && text::utf8(phrase).len()
            <= 0xffff_ffff && phrase_keys.encryption_key@.len() == 32,
        !(first is SetPhrase) ==> first is Done && first->Done_0 is Err,
        next is SetPhrase <==> doing->SetPhrase_attempt < 5 && (text::occurs(
            reason@,
            "idx_users_recovery_id"@,
        ) || text::occurs(reason@, "23505"@)),
        next is SetPhrase ==> {
            &&& next->SetPhrase_user_id == doing->SetPhrase_user_id
            &&& next->SetPhrase_salt == doing->SetPhrase_salt
            &&& next->SetPhrase_verifier == doing->SetPhrase_verifier
        },
        !(next is SetPhrase) ==> next == Registration::Done(Err(AuthError::DatabaseError(reason))),
{
}

/// A device without a phrase, from first to last: it has no recovery ID, and its
/// tokens are as good as those of a registration.
pub proof fn law_device_setup_from_first_to_last(
    keys: TokenKeys,
    user_id: Uuid,
    device_id: Uuid,
    now: UtcTime,
    raw: &str,
    s1: DeviceSetup,
    s2: DeviceSetup,
    last: DeviceSetup,
    lookup: Rotation,
)
    requires
        device_setup_follows(
            DeviceSetup::CreateUser,
            AccountEvent::UserCreated(user_id),
            keys,
            s1,
        ),
        device_setup_follows(s1, AccountEvent::DeviceAdded(device_id, now), keys, s2),
        device_setup_follows(s2, AccountEvent::TokenStored, keys, last),
        s2 is StoreToken ==> raw@ == s2->StoreToken_token.refresh_token@,
        call_ensures(start_rotation, (raw, keys.pepper), lookup),
    ensures
        s1 == (DeviceSetup::AddDevice { user_id }),
        s2 is StoreToken,
        s2->StoreToken_user_id == user_id,
        s2->StoreToken_device_id == device_id,
        stored_for(
            s2->StoreToken_token,
            raw@,
            keys.pepper@,
            now@,
            keys.refresh_ttl_days as int,
        ),
        lookup is Consume,
        lookup->Consume_token_hash@ == s2->StoreToken_token.token_hash@,
        last is Done,
        last->Done_0 matches Ok(d) ==> {
            &&& d.user_id == user_id
            &&& d.device_id == device_id
            &&& d.recovery_id@.len() == 0
            &&& d.refresh_token@ == raw@
            &&& exists|at: u64| #[trigger]
                good_for_lifetime(d.access_token@, user_id, device_id, 0, keys, at)
        },
{
    lemma_registered_is_good(
        user_id,
        device_id,
        Seq::empty(),
        raw@,
        0,
        keys,
        last->Done_0,
    );
}

/// A recovery from first to last. It leads to a device for the user that was
/// found only where the hash of the phrase, with the salt that was stored, is the
/// verifier that was stored. The tokens are for that user and the new device at
/// the user's epoch, and the refresh token that is handed out is the one that is
/// found again.
pub proof fn law_recovery_from_first_to_last(
    recovery_id: Seq<char>,
    phrase: Seq<char>,
    phrase_keys: PhraseKeys,
    keys: TokenKeys,
    found: Option<(Uuid, Option<Vec<u8>>, Option<Vec<u8>>)>,
    device_id: Uuid,
    now: UtcTime,
    epoch: i32,
    raw: &str,
    s1: Recovery,
    s2: Recovery,
    s3: Recovery,
    last: Recovery,
    lookup: Rotation,
)
    requires
        recovery_follows(
            Recovery::FindUser,
            AccountEvent::UserFound(found),
            recovery_id,
            phrase,
            phrase_keys,
            keys,
            s1,
        ),
        s1 is AddDevice,
        recovery_follows(
            s1,
            AccountEvent::DeviceAdded(device_id, now),
            recovery_id,
            phrase,
            phrase_keys,
            keys,
            s2,
        ),
        recovery_follows(
            s2,
            AccountEvent::TokenStored,
            recovery_id,
            phrase,
            phrase_keys,
            keys,
            s3,
        ),
        recovery_follows(
            s3,
            AccountEvent::Epoch(epoch),
            recovery_id,
            phrase,
            phrase_keys,
            keys,
            last,
        ),
        s2 is StoreToken ==> raw@ == s2->StoreToken_token.refresh_token@,
        call_ensures(start_rotation, (raw, keys.pepper), lookup),
    ensures
        ({
            let user_id = s1->AddDevice_user_id;
            &&& found is Some && (found->0).0 == user_id
            &&& (found->0).1 is Some && (found->0).2 is Some
            &&& ({
                let salt = phrase::blob_plaintext((found->0).1->0@, phrase_keys.encryption_key@);
                &&& salt is Some
                &&& phrase::blob_plaintext((found->0).2->0@, phrase_keys.encryption_key@) == Some(
                    phrase_keys.config.hash(text::utf8(phrase), user_id, salt->0),
                )
            })
            &&& s2 is StoreToken
            &&& s2->StoreToken_user_id == user_id
            &&& s2->StoreToken_device_id == device_id
            &&& stored_for(
                s2->StoreToken_token,
                raw@,
                keys.pepper@,
                now@,
                keys.refresh_ttl_days as int,
            )
            &&& lookup is Consume
            &&& lookup->Consume_token_hash@ == s2->StoreToken_token.token_hash@
            &&& last is Done
            &&& last->Done_0 matches Ok(d) ==> {
                &&& d.user_id == user_id
                &&& d.device_id == device_id
                &&& d.recovery_id@ == recovery_id
                &&& d.refresh_token@ == raw@
                &&& exists|at: u64| #[trigger]
                    good_for_lifetime(d.access_token@, user_id, device_id, epoch, keys, at)
            }
        }),
{
    lemma_registered_is_good(
        s1->AddDevice_user_id,
        device_id,
        recovery_id,
        raw@,
        epoch,
        keys,
        last->Done_0,
    );
}

/// A recovery that finds nobody, or somebody without phrase data, ends as one with
/// an unknown recovery ID; one with a phrase of another hash ends as one with a
/// wrong phrase. Neither adds a device.
pub proof fn law_recovery_refuses_strangers(
    recovery_id: Seq<char>,
    phrase: Seq<char>,
    phrase_keys: PhraseKeys,
    keys: TokenKeys,
    found: Option<(Uuid, Option<Vec<u8>>, Option<Vec<u8>>)>,
    salt: Seq<u8>,
    verifier: Seq<u8>,
    next: Recovery,
)
    requires
        recovery_follows(
            Recovery::FindUser,
            AccountEvent::UserFound(found),
            recovery_id,
            phrase,
            phrase_keys,
            keys,
            next,
        ),
        phrase_keys.config.objection() is None,
    ensures
        found is None || (found->0).1 is None || (found->0).2 is None ==> next == Recovery::Done(
            Err(AuthError::RecoveryIdNotFound),
        ),
        found is Some && (found->0).1 is Some && (found->0).2 is Some && phrase::blob_plaintext(
            (found->0).1->0@,
            phrase_keys.encryption_key@,
        ) == Some(salt) && phrase::blob_plaintext(
            (found->0).2->0@,
            phrase_keys.encryption_key@,
        ) == Some(verifier) && crypto::argon2_input_objection(
            text::utf8(phrase),
            phrase::bound_salt(salt, (found->0).0),
        ) is None ==> next == if phrase_keys.config.hash(text::utf8(phrase), (found->0).0, salt)
            == verifier {
            Recovery::AddDevice { user_id: (found->0).0 }
        } else {
            Recovery::Done(Err(AuthError::PhraseVerificationFailed))
        },
{
}

/// Accounts and devices come only of the last step: a registration or recovery
/// succeeds only once the token was stored, and a failure of the database ends it
/// with the words of the database.
pub proof fn law_accounts_succeed_at_the_last_step(
    registering: Registration,
    setting_up: DeviceSetup,
    recovering: Recovery,
    event: AccountEvent,
    recovery_id: Seq<char>,
    phrase: Seq<char>,
    phrase_keys: PhraseKeys,
    keys: TokenKeys,
    registered: Registration,
    set_up: DeviceSetup,
    recovered: Recovery,
)
    ensures
        registration_follows(registering, event, phrase, phrase_keys, keys, registered) ==> {
            &&& registered is Done && registered->Done_0 is Ok ==> registering is StoreToken && event
                == AccountEvent::TokenStored
            &&& registered is StoreToken ==> registering is AddDevice && event is DeviceAdded
            &&& registered is AddDevice ==> registering is SetPhrase && event
                == AccountEvent::PhraseSet
            &&& event is Failed ==> registered == Registration::Done(
                Err(AuthError::DatabaseError(event->Failed_0)),
            )
        },
        device_setup_follows(setting_up, event, keys, set_up) ==> {
            &&& set_up is Done && set_up->Done_0 is Ok ==> setting_up is StoreToken && event
                == AccountEvent::TokenStored
            &&& set_up is StoreToken ==> setting_up is AddDevice && event is DeviceAdded
            &&& event is Failed ==> set_up == DeviceSetup::Done(
                Err(AuthError::DatabaseError(event->Failed_0)),
            )
        },
        recovery_follows(recovering, event, recovery_id, phrase, phrase_keys, keys, recovered) ==> {
            &&& recovered is Done && recovered->Done_0 is Ok ==> recovering is ReadEpoch
                && event is Epoch
            &&& recovered is ReadEpoch ==> recovering is StoreToken && event
                == AccountEvent::TokenStored
            &&& recovered is StoreToken ==> recovering is AddDevice && event is DeviceAdded
            &&& event is Failed ==> recovered == Recovery::Done(
                Err(AuthError::DatabaseError(event->Failed_0)),
            )
        },
{
}

/// A rotation from first to last. A refresh token is looked up by the HMAC-SHA256
/// of its text. Where it could be consumed, its user, device and family get the
/// next pair: the new refresh token is stored in the family so that it is found
/// again, and the access token is good for its lifetime at the user's epoch.
pub proof fn law_rotation_from_first_to_last(
    raw: &str,
    keys: TokenKeys,
    device_id: Uuid,
    family_id: Uuid,
    user_id: Uuid,
    epoch: i32,
    now: UtcTime,
    new_raw: &str,
    s0: Rotation,
    s1: Rotation,
    s2: Rotation,
    s3: Rotation,
    last: Rotation,
    lookup: Rotation,
)
    requires
        call_ensures(start_rotation, (raw, keys.pepper), s0),
        rotation_follows(s0, RotationEvent::Consumed(Some((device_id, family_id))), keys, s1),
        rotation_follows(s1, RotationEvent::UserLoaded(Some((user_id, epoch)), now), keys, s2),
        rotation_follows(s2, RotationEvent::TokenStored, keys, s3),
        rotation_follows(s3, RotationEvent::Committed, keys, last),
        s2 is StoreToken ==> new_raw@ == s2->StoreToken_token.refresh_token@,
        call_ensures(start_rotation, (new_raw, keys.pepper), lookup),
    ensures
        s0 is Consume,
        s0->Consume_token_hash@ == crypto::hmac_sha256(keys.pepper@, text::utf8(raw@)),
        s1 == (Rotation::LoadUser { device_id, family_id }),
        s2 is StoreToken,
        s2->StoreToken_user_id == user_id,
        s2->StoreToken_device_id == device_id,
        s2->StoreToken_family_id == family_id,
        stored_for(
            s2->StoreToken_token,
            new_raw@,
            keys.pepper@,
            now@,
            keys.refresh_ttl_days as int,
        ),
        lookup is Consume,
        lookup->Consume_token_hash@ == s2->StoreToken_token.token_hash@,
        last is Done,
        last->Done_0 matches Ok(pair) ==> {
            &&& pair.user_id == user_id
            &&& pair.device_id == device_id
            &&& pair.refresh_token@ == new_raw@
            &&& exists|at: u64| #[trigger]
                good_for_lifetime(pair.access_token@, user_id, device_id, epoch, keys, at)
        },
{
    lemma_pair_is_good(
        user_id,
        device_id,
        epoch,
        s2->StoreToken_token.refresh_token,
        keys,
        last->Done_0,
    );
}

/// A refresh token that could not be consumed gives no tokens. One that was never
/// known is invalid, and nothing is revoked. One that was consumed before is a
/// reuse; where its user is known, all that the user has is revoked and the epoch
/// raised before that is reported. A device without a user gives none either.
pub proof fn law_unconsumed_tokens_give_nothing(
    raw: &str,
    keys: TokenKeys,
    device_id: Uuid,
    now: UtcTime,
    loading: Rotation,
    s0: Rotation,
    s1: Rotation,
    unknown: Rotation,
    refused: Rotation,
    reused: Rotation,
    orphan: Rotation,
    reported: Rotation,
    gone: Rotation,
)
    requires
        call_ensures(start_rotation, (raw, keys.pepper), s0),
        rotation_follows(s0, RotationEvent::Consumed(None), keys, s1),
        rotation_follows(s1, RotationEvent::ReuseFound(None), keys, unknown),
        rotation_follows(unknown, RotationEvent::Committed, keys, refused),
        rotation_follows(s1, RotationEvent::ReuseFound(Some(device_id)), keys, reused),
        rotation_follows(reused, RotationEvent::ReuserFound(None), keys, orphan),
        rotation_follows(orphan, RotationEvent::Committed, keys, reported),
        loading is LoadUser,
        rotation_follows(loading, RotationEvent::UserLoaded(None, now), keys, gone),
    ensures
        s1 is FindReuse,
        s1->FindReuse_token_hash@ == crypto::hmac_sha256(keys.pepper@, text::utf8(raw@)),
        unknown == Rotation::CommitInvalid,
        refused == Rotation::Done(Err(AuthError::RefreshTokenInvalid)),
        reused == (Rotation::FindReuser { device_id }),
        orphan == Rotation::CommitReuse,
        reported == Rotation::Done(Err(AuthError::TokenReuseDetected)),
        gone == Rotation::Done(Err(AuthError::InvalidToken)),
{
}

/// A failure of the database ends a rotation with the words of the database, and
/// what a reuse leads to is never reached otherwise.
pub proof fn law_rotation_revokes_only_for_a_reuse(
    doing: Rotation,
    event: RotationEvent,
    keys: TokenKeys,
    next: Rotation,
)
    requires
        rotation_follows(doing, event, keys, next),
    ensures
        event is Failed ==> next == Rotation::Done(
            Err(AuthError::DatabaseError(event->Failed_0)),
        ),
        next is FindReuse ==> doing is Consume && event == RotationEvent::Consumed(None),
        next is FindReuser ==> doing is FindReuse && event is ReuseFound,
        next is RevokeTokens ==> doing is FindReuser && event == RotationEvent::ReuserFound(
            Some(next->RevokeTokens_user_id),
        ),
        next is BumpEpoch ==> doing is RevokeTokens && event == RotationEvent::TokensRevoked
            && doing->RevokeTokens_user_id == next->BumpEpoch_user_id,
        next is CommitInvalid ==> doing is FindReuse && event == RotationEvent::ReuseFound(None),
        next == Rotation::Done(Err(AuthError::RefreshTokenInvalid)) && !(doing is Commit)
            ==> doing is CommitInvalid,
        next == Rotation::Done(Err(AuthError::TokenReuseDetected)) && !(doing is Commit)
            ==> doing is CommitReuse,
{
}

/// A rotation that failed because the database could not serialize it is tried
/// again after ten milliseconds and after twenty; the third result, and every
/// other one, is final.
pub proof fn law_rotation_is_tried_three_times(
    attempt: u32,
    result: Result<TokenPair, AuthError>,
    r: AfterTry,
)
    requires
        attempt < 3,
        call_ensures(rotate_refresh_token, (attempt, result), r),
    ensures
        r is Again <==> attempt < 2 && result is Err && result->Err_0 is DatabaseError
            && text::occurs(result->Err_0->DatabaseError_0@, "40001"@),
        r is Again ==> r->sleep_millis == if attempt == 0 {
            10
        } else {
            20int
        },
        !(r is Again) ==> r == AfterTry::Done(result),
{
}

/// A change of phrase from first to last. Whoever does not know the current
/// phrase changes nothing. Otherwise what is stored accepts the new phrase in a
/// recovery, and another one only where it has the same hash; and only once it is
/// stored has the change succeeded.
pub proof fn law_changed_phrase_takes_over(
    user_id: Uuid,
    current: Seq<char>,
    new: Seq<char>,
    keys: PhraseKeys,
    token_keys: TokenKeys,
    salt: Vec<u8>,
    verifier: Vec<u8>,
    old_salt: Seq<u8>,
    old_verifier: Seq<u8>,
    recovery_id: Seq<char>,
    offered: Seq<char>,
    next: PhraseChange,
    last: PhraseChange,
    recovering: Recovery,
)
    requires
        phrase::blob_plaintext(salt@, keys.encryption_key@) == Some(old_salt),
        phrase::blob_plaintext(verifier@, keys.encryption_key@) == Some(old_verifier),
        keys.config.objection() is None,
        crypto::argon2_input_objection(
            text::utf8(current),
            phrase::bound_salt(old_salt, user_id),
        ) is None,
        keys.encryption_key@.len() == 32,
        text::utf8(new).len() <= 0xffff_ffff,
        text::utf8(offered).len() <= 0xffff_ffff,
        phrase_change_follows(
            PhraseChange::Load,
            PhraseEvent::Loaded(Some((Some(salt), Some(verifier)))),
            user_id,
            current,
            new,
            keys,
            next,
        ),
        next is Store ==> phrase_change_follows(
            next,
            PhraseEvent::Stored,
            user_id,
            current,
            new,
            keys,
            last,
        ),
        next is Store ==> recovery_follows(
            Recovery::FindUser,
            AccountEvent::UserFound(
                Some((user_id, Some(next->Store_salt), Some(next->Store_verifier))),
            ),
            recovery_id,
            offered,
            keys,
            token_keys,
            recovering,
        ),
    ensures
        next is Store <==> keys.config.hash(text::utf8(current), user_id, old_salt)
            == old_verifier,
        !(next is Store) ==> next == PhraseChange::Done(Err(AuthError::PhraseVerificationFailed)),
        next is Store ==> last == PhraseChange::Done(Ok(())),
        next is Store && offered == new ==> recovering == (Recovery::AddDevice { user_id }),
        next is Store && recovering is AddDevice ==> ({
            let s = phrase::blob_plaintext(next->Store_salt@, keys.encryption_key@)->0;
            keys.config.hash(text::utf8(offered), user_id, s) == keys.config.hash(
                text::utf8(new),
                user_id,
                s,
            )
        }),
{
}

/// A phrase is changed only by the step that stores it, and only where there is
/// phrase data to check the current one against.
pub proof fn law_phrase_changes_at_the_last_step(
    doing: PhraseChange,
    event: PhraseEvent,
    user_id: Uuid,
    current: Seq<char>,
    new: Seq<char>,
    keys: PhraseKeys,
    next: PhraseChange,
)
    requires
        phrase_change_follows(doing, event, user_id, current, new, keys, next),
    ensures
        next == PhraseChange::Done(Ok(())) ==> doing is Store && event == PhraseEvent::Stored,
        next is Store ==> doing == PhraseChange::Load && event is Loaded && event->Loaded_0 is Some
            && (event->Loaded_0->0).0 is Some && (event->Loaded_0->0).1 is Some,
        event is Loaded && (event->Loaded_0 is None || (event->Loaded_0->0).0 is None || (
        event->Loaded_0->0).1 is None) ==> next == PhraseChange::Done(
            Err(AuthError::PhraseVerificationFailed),
        ),
        event is Failed ==> next == PhraseChange::Done(
            Err(AuthError::DatabaseError(event->Failed_0)),
        ),
{
}

/// A token's epoch is accepted exactly where the user exists and has this epoch.
pub proof fn law_only_the_current_epoch(
    current: Option<i32>,
    epoch: i32,
    r: Result<(), AuthError>,
)
    requires
        call_ensures(check_session_epoch, (current, epoch), r),
    ensures
        r is Ok <==> current == Some(epoch),
        current is None ==> r == Err::<(), AuthError>(AuthError::InvalidToken),
        current is Some && current->0 != epoch ==> r == Err::<(), AuthError>(
            AuthError::EpochMismatch,
        ),
{
}

/// Each error is told in its own words.
pub proof fn law_messages_say_what_is_wrong(e: &AuthError, s: String)
    requires
        call_ensures(AuthError::message, (e,), s),
    ensures
        *e is SecretTooShort ==> s@ == "secret must be at least 32 bytes"@,
        *e is SigningFailed ==> s@ == "token signing failed: "@ + e->SigningFailed_0@,
        *e is ValidationFailed ==> s@ == "token validation failed"@,
        *e is TokenExpired ==> s@ == "token expired"@,
        *e is InvalidToken ==> s@ == "invalid token"@,
        *e is RefreshTokenInvalid ==> s@ == "refresh token invalid or expired"@,
        *e is TokenReuseDetected ==> s@ == "token reuse detected \u{2014} all tokens revoked for user"@,
        *e is EpochMismatch ==> s@ == "session epoch mismatch \u{2014} token invalidated by security event"@,
        *e is DatabaseError ==> s@ == "database error: "@ + e->DatabaseError_0@,
        *e is PhraseVerificationFailed ==> s@ == "phrase verification failed"@,
        *e is RecoveryIdNotFound ==> s@ == "recovery ID not found"@,
        *e is DeviceRevoked ==> s@ == "device revoked"@,
{
}

/// A refresh token is stored as its HMAC under the pepper, and lives for one to 365
/// days.
pub proof fn law_refresh_tokens_are_stored_hashed(
    raw: &str,
    pepper: &[u8],
    hash: Vec<u8>,
    days: u32,
    r: Result<(), String>,
)
    requires
        call_ensures(hash_refresh_token, (raw, pepper), hash),
        call_ensures(validate_refresh_ttl, (days,), r),
    ensures
        hash@ == crypto::hmac_sha256(pepper@, text::utf8(raw@)),
        r is Ok <==> days >= 1 && days <= 365,
        days == 0 ==> r->Err_0@ == "REFRESH_TOKEN_TTL_DAYS must be at least 1"@,
        days > 365 ==> r->Err_0@ == "REFRESH_TOKEN_TTL_DAYS must not exceed 365"@,
{
}

/// A recovery ID is `wvs-`, four characters, a hyphen and four characters more. Each
/// of the eight is drawn for itself: a letter for a number below 26, a digit for one
/// of the ten above, so different draws give different IDs.
pub proof fn law_recovery_ids_are_drawn(drawn: &Vec<usize>, id: String, i: int)
    requires
        drawn@.len() == 8,
        forall|k: int| 0 <= k < 8 ==> #[trigger] drawn@[k] < 36,
        call_ensures(recovery_id_from, (drawn,), id),
        0 <= i < 8,
    ensures
        id@.len() == 13,
        id@.take(4) == "wvs-"@,
        id@[8] == '-',
        ({
            let c = id@[if i < 4 {
                4 + i
            } else {
                5 + i
            }];
            if drawn@[i] < 26 {
                c as u32 == 65 + drawn@[i]
            } else {
                c as u32 == 48 + (drawn@[i] - 26)
            }
        }),
{
    reveal_strlit("wvs-");
    reveal_strlit("-");
    let front = drawn@.take(4);
    let back = drawn@.skip(4);
    assert(id@.take(4) =~= "wvs-"@);
    assert(drawn@[i] < 36);
    if i < 4 {
        assert(front[i] == drawn@[i]);
        assert(id@[4 + i] == spelled(front)[i]);
    } else {
        assert(back[i - 4] == drawn@[i]);
        assert(id@[5 + i] == spelled(back)[i - 4]);
    }
}

} // verus!
