//! Device pairing by a short-lived code that a trusted device approves.
//!
//! Approving and finishing a pairing alternate with the database. Each is a
//! value that says what to do next; `approve_pairing` and `finish_pairing` take
//! it, with what came of doing that, to the next one.

use crate::auth::auth;
use crate::auth::jwt;
use crate::calendar;
use crate::calendar::UtcTime;
use crate::crypto;
use crate::ids::Uuid;
use crate::text;
use vstd::prelude::*;

verus! {

/// Length of pairing codes.
pub const CODE_LENGTH: usize = 8;

/// Number of characters that a code is made of: A to Z and 2 to 7.
pub const CODE_CHARSET_LEN: usize = 32;

/// Failed attempts after which a pairing is locked.
pub const MAX_ATTEMPTS: i32 = 5;

/// Result of a finished pairing.
#[derive(Debug)]
pub struct PairingResult {
    pub user_id: Uuid,
    pub device_id: Uuid,
    pub access_token: String,
    pub refresh_token: String,
}

/// A pairing session as it is stored.
#[derive(Debug)]
pub struct PairingSession {
    pub pairing_id: Uuid,
    /// HMAC-SHA256 of the pairing code, keyed with the server's pepper.
    pub code_hash: Vec<u8>,
    /// Name of the device that asks to be paired.
    pub request_device_name: String,
    /// User that approved the pairing.
    pub approved_user_id: Option<Uuid>,
    /// Trusted device that approved the pairing.
    pub approved_by_device_id: Option<Uuid>,
    pub approved_at: Option<UtcTime>,
    pub expires_at: UtcTime,
    /// When the pairing was consumed.
    pub used_at: Option<UtcTime>,
    /// Failed attempts in all; success does not reset them.
    pub attempt_count: i32,
}

/// Errors from pairing operations.
#[derive(Debug)]
pub enum PairingError {
    NotFound,
    Expired,
    AlreadyUsed,
    AlreadyApproved,
    NotApproved,
    CodeMismatch,
    LockedOut,
    DatabaseError(String),
}

impl PairingError {
    /// The message of this error.
    pub open spec fn message_spec(&self) -> Seq<char> {
        match self {
            PairingError::NotFound => "pairing session not found"@,
            PairingError::Expired => "pairing session expired"@,
            PairingError::AlreadyUsed => "pairing session already used"@,
            PairingError::AlreadyApproved => "pairing session already approved"@,
            PairingError::NotApproved => "pairing session not yet approved"@,
            PairingError::CodeMismatch => "pairing code mismatch"@,
            PairingError::LockedOut => "pairing locked out after too many failed attempts"@,
            PairingError::DatabaseError(e) => "database error: "@ + e@,
        }
    }

    /// The message of this error.
    pub fn message(&self) -> (s: String)
        ensures
            s@ == self.message_spec(),
    {
        match self {
            PairingError::NotFound => "pairing session not found".to_owned(),
            PairingError::Expired => "pairing session expired".to_owned(),
            PairingError::AlreadyUsed => "pairing session already used".to_owned(),
            PairingError::AlreadyApproved => "pairing session already approved".to_owned(),
            PairingError::NotApproved => "pairing session not yet approved".to_owned(),
            PairingError::CodeMismatch => "pairing code mismatch".to_owned(),
            PairingError::LockedOut =>
                "pairing locked out after too many failed attempts".to_owned(),
            PairingError::DatabaseError(e) => "database error: ".to_owned().concat(e.as_str()),
        }
    }
}

/// The hash under which a code is stored.
pub open spec fn code_hash(code: Seq<char>, pepper: Seq<u8>) -> Seq<u8> {
    crypto::hmac_sha256(pepper, text::utf8(code))
}

/// HMAC-SHA256 of a pairing code under the server's pepper.
pub fn hmac_code(code: &str, pepper: &[u8]) -> (hash: Vec<u8>)
    ensures
        hash@ == code_hash(code@, pepper@),
        hash@.len() == 32,
{
    crypto::hmac_tag(pepper, code.as_bytes())
}

/// The characters of pairing codes, in their order.
pub open spec fn code_char(i: int) -> char {
    if i < 26 {
        (65 + i) as char
    } else {
        (50 + i - 26) as char
    }
}

/// Whether `c` can occur in a pairing code.
pub open spec fn in_code_charset(c: char) -> bool {
    'A' <= c <= 'Z' || '2' <= c <= '7'
}

fn code_char_at(i: usize) -> (c: char)
    requires
        i < CODE_CHARSET_LEN,
    ensures
        c == code_char(i as int),
        in_code_charset(c),
{
    if i < 26 {
        (65 + i as u8) as char
    } else {
        (50 + (i as u8 - 26)) as char
    }
}

/// The pairing code that the numbers drawn spell.
pub open spec fn code_of(drawn: Seq<usize>) -> Seq<char> {
    drawn.map_values(|n: usize| code_char(n as int))
}

/// The pairing code that the numbers drawn spell.
pub fn pairing_code_from(drawn: &Vec<usize>) -> (code: String)
    requires
        forall|i: int| 0 <= i < drawn@.len() ==> (#[trigger] drawn@[i]) < CODE_CHARSET_LEN,
    ensures
        code@ == code_of(drawn@),
{
    let mut code = String::new();
    let mut i: usize = 0;
    while i < drawn.len()
        invariant
            i <= drawn@.len(),
            forall|k: int| 0 <= k < drawn@.len() ==> (#[trigger] drawn@[k]) < CODE_CHARSET_LEN,
            code@ == code_of(drawn@.take(i as int)),
        decreases drawn@.len() - i,
    {
        code.push(code_char_at(drawn[i]));
        i = i + 1;
        assert(code@ =~= code_of(drawn@.take(i as int)));
    }
    assert(drawn@.take(i as int) =~= drawn@);
    code
}

/// A random pairing code: eight characters from A to Z and 2 to 7.
pub fn generate_pairing_code() -> (code: String)
    ensures
        code@.len() == CODE_LENGTH,
        forall|i: int| 0 <= i < code@.len() ==> in_code_charset(#[trigger] code@[i]),
{
    let mut drawn: Vec<usize> = Vec::new();
    while drawn.len() < CODE_LENGTH
        invariant
            drawn@.len() <= CODE_LENGTH,
            forall|k: int| 0 <= k < drawn@.len() ==> (#[trigger] drawn@[k]) < CODE_CHARSET_LEN,
        decreases CODE_LENGTH - drawn@.len(),
    {
        drawn.push(crypto::random_below(CODE_CHARSET_LEN));
    }
    let code = pairing_code_from(&drawn);
    assert forall|i: int| 0 <= i < code@.len() implies in_code_charset(#[trigger] code@[i]) by {
        assert(drawn@[i] < CODE_CHARSET_LEN);
    }
    code
}

/// A fresh code, with the hash to store in its place.
pub fn start_pairing(pepper: &[u8]) -> (r: (String, Vec<u8>))
    ensures
        r.0@.len() == CODE_LENGTH,
        forall|i: int| 0 <= i < r.0@.len() ==> in_code_charset(#[trigger] r.0@[i]),
        r.1@ == code_hash(r.0@, pepper@),
{
    let code = generate_pairing_code();
    let hash = hmac_code(code.as_str(), pepper);
    (code, hash)
}

/// What is done with a session.
#[derive(Clone, Copy, PartialEq, Eq, Debug, Structural)]
pub enum PairingUse {
    Approve,
    Finish,
}

/// Why a session cannot be approved, or finished, at `now`, whatever the code.
pub open spec fn session_refusal(
    session: PairingSession,
    now: UtcTime,
    purpose: PairingUse,
) -> Option<PairingError> {
    if session.used_at is Some {
        Some(PairingError::AlreadyUsed)
    } else if session.expires_at@ < now@ {
        Some(PairingError::Expired)
    } else if session.attempt_count >= MAX_ATTEMPTS {
        Some(PairingError::LockedOut)
    } else if purpose == PairingUse::Approve && session.approved_at is Some {
        Some(PairingError::AlreadyApproved)
    } else if purpose == PairingUse::Finish && session.approved_at is None {
        Some(PairingError::NotApproved)
    } else {
        None
    }
}

/// Why a session cannot be approved, or finished, at `now`, whatever the code.
pub fn refuse_session(session: &PairingSession, now: UtcTime, purpose: PairingUse) -> (r: Option<
    PairingError,
>)
    ensures
        r == session_refusal(*session, now, purpose),
{
    if session.used_at.is_some() {
        return Some(PairingError::AlreadyUsed);
    }
    if session.expires_at.before(now) {
        return Some(PairingError::Expired);
    }
    if session.attempt_count >= MAX_ATTEMPTS {
        return Some(PairingError::LockedOut);
    }
    match purpose {
        PairingUse::Approve => if session.approved_at.is_some() {
            return Some(PairingError::AlreadyApproved);
        },
        PairingUse::Finish => if session.approved_at.is_none() {
            return Some(PairingError::NotApproved);
        },
    }
    None
}

/// What a first look at the session leads to.
#[derive(Debug)]
pub enum FirstLook {
    Refused(PairingError),
    WrongCode,
    RightCode,
}

/// What a first look at the session leads to: its state is judged before the
/// code is.
pub open spec fn first_look(
    session: Option<PairingSession>,
    now: UtcTime,
    purpose: PairingUse,
    code: Seq<char>,
    pepper: Seq<u8>,
) -> FirstLook {
    match session {
        None => FirstLook::Refused(PairingError::NotFound),
        Some(s) => match session_refusal(s, now, purpose) {
            Some(e) => FirstLook::Refused(e),
            None => if s.code_hash@ == code_hash(code, pepper) {
                FirstLook::RightCode
            } else {
                FirstLook::WrongCode
            },
        },
    }
}

/// Looks at the session for the first time.
pub fn look_at_session(
    session: &Option<PairingSession>,
    now: UtcTime,
    purpose: PairingUse,
    code: &str,
    pepper: &[u8],
) -> (r: FirstLook)
    ensures
        r == first_look(*session, now, purpose, code@, pepper@),
{
    match session {
        None => FirstLook::Refused(PairingError::NotFound),
        Some(s) => match refuse_session(s, now, purpose) {
            Some(e) => FirstLook::Refused(e),
            None => if crypto::hmac_verify(pepper, code.as_bytes(), s.code_hash.as_slice()) {
                FirstLook::RightCode
            } else {
                FirstLook::WrongCode
            },
        },
    }
}

/// The error after a wrong code, given the number of failures that are now on
/// record, if the session still counts them.
pub open spec fn wrong_code_error(count: Option<i32>) -> PairingError {
    match count {
        Some(n) => if n >= MAX_ATTEMPTS {
            PairingError::LockedOut
        } else {
            PairingError::CodeMismatch
        },
        None => PairingError::CodeMismatch,
    }
}

fn after_wrong_code(count: Option<i32>) -> (e: PairingError)
    ensures
        e == wrong_code_error(count),
{
    match count {
        Some(n) => if n >= MAX_ATTEMPTS {
            PairingError::LockedOut
        } else {
            PairingError::CodeMismatch
        },
        None => PairingError::CodeMismatch,
    }
}

/// That `e` says why an update of the session came too late, the session being
/// as it is now.
pub open spec fn is_late_error(
    session: Option<PairingSession>,
    now: UtcTime,
    purpose: PairingUse,
    e: PairingError,
) -> bool {
    match session {
        None => e == PairingError::NotFound,
        Some(s) => match session_refusal(s, now, purpose) {
            Some(refusal) => e == refusal,
            None => e is DatabaseError && e->DatabaseError_0@
                == "conditional update failed for unknown reason"@,
        },
    }
}

fn late_error(session: &Option<PairingSession>, now: UtcTime, purpose: PairingUse) -> (e:
    PairingError)
    ensures
        is_late_error(*session, now, purpose, e),
{
    match session {
        None => PairingError::NotFound,
        Some(s) => match refuse_session(s, now, purpose) {
            Some(refusal) => refusal,
            None => PairingError::DatabaseError(
                "conditional update failed for unknown reason".to_owned(),
            ),
        },
    }
}

/// What the database answered.
#[derive(Debug)]
pub enum PairingEvent {
    /// The session, if there is one, and the time.
    Session(Option<PairingSession>, UtcTime),
    /// The failures on record after counting one more, if the session still
    /// counts them.
    Counted(Option<i32>),
    /// Whether the session was still open for approval and is now approved.
    Approved(bool),
    /// The user and the device name of the session that is now used, where it
    /// was still open.
    Used(Option<(Uuid, String)>),
    /// The new device, and the time.
    DeviceAdded(Uuid, UtcTime),
    TokenStored,
    /// The user's session epoch.
    Epoch(i32),
    Committed,
    Failed(String),
}

/// What to do next to approve a pairing.
#[derive(Debug)]
pub enum Approval {
    /// Read the session.
    Load,
    /// Count one more failure, where the session is neither used nor expired.
    CountFailure,
    /// Mark the session approved by that user and device, where it is unused,
    /// unexpired, unapproved and not locked.
    Approve { user_id: Uuid, device_id: Uuid },
    /// Read the session again.
    Reload,
    Done(Result<(), PairingError>),
}

/// That the event answers what was to be done.
pub open spec fn approval_fits(doing: Approval, event: PairingEvent) -> bool {
    match doing {
        Approval::Load | Approval::Reload => event is Session || event is Failed,
        Approval::CountFailure => event is Counted || event is Failed,
        Approval::Approve { .. } => event is Approved || event is Failed,
        Approval::Done(_) => false,
    }
}

/// That `next` follows `doing` upon the event.
pub open spec fn approval_follows(
    doing: Approval,
    event: PairingEvent,
    code: Seq<char>,
    user_id: Uuid,
    device_id: Uuid,
    pepper: Seq<u8>,
    next: Approval,
) -> bool {
    match (doing, event) {
        (_, PairingEvent::Failed(e)) => next == Approval::Done(Err(PairingError::DatabaseError(e))),
        (Approval::Load, PairingEvent::Session(session, now)) => next == match first_look(
            session,
            now,
            PairingUse::Approve,
            code,
            pepper,
        ) {
            FirstLook::Refused(e) => Approval::Done(Err(e)),
            FirstLook::WrongCode => Approval::CountFailure,
            FirstLook::RightCode => Approval::Approve { user_id, device_id },
        },
        (Approval::CountFailure, PairingEvent::Counted(count)) => next == Approval::Done(
            Err(wrong_code_error(count)),
        ),
        (Approval::Approve { .. }, PairingEvent::Approved(done)) => next == if done {
            Approval::Done(Ok(()))
        } else {
            Approval::Reload
        },
        (Approval::Reload, PairingEvent::Session(session, now)) => next is Done && next->Done_0 is Err
            && is_late_error(session, now, PairingUse::Approve, next->Done_0->Err_0),
        _ => false,
    }
}

/// Takes the approval of a pairing, by a user on a trusted device, one step
/// further.
pub fn approve_pairing(
    doing: Approval,
    event: PairingEvent,
    code: &str,
    user_id: Uuid,
    device_id: Uuid,
    pepper: &[u8],
) -> (next: Approval)
    requires
        approval_fits(doing, event),
    ensures
        approval_follows(doing, event, code@, user_id, device_id, pepper@, next),
{
    match (doing, event) {
        (_, PairingEvent::Failed(e)) => Approval::Done(Err(PairingError::DatabaseError(e))),
        (Approval::Load, PairingEvent::Session(session, now)) => match look_at_session(
            &session,
            now,
            PairingUse::Approve,
            code,
            pepper,
        ) {
            FirstLook::Refused(e) => Approval::Done(Err(e)),
            FirstLook::WrongCode => Approval::CountFailure,
            FirstLook::RightCode => Approval::Approve { user_id, device_id },
        },
        (Approval::CountFailure, PairingEvent::Counted(count)) => Approval::Done(
            Err(after_wrong_code(count)),
        ),
        (Approval::Approve { .. }, PairingEvent::Approved(done)) => if done {
            Approval::Done(Ok(()))
        } else {
            Approval::Reload
        },
        (Approval::Reload, PairingEvent::Session(session, now)) => Approval::Done(
            Err(late_error(&session, now, PairingUse::Approve)),
        ),
        (doing, _) => doing,
    }
}

/// What to do next to finish a pairing.
#[derive(Debug)]
pub enum Finish {
    /// Read the session.
    Load,
    /// Count one more failure, where the session is neither used nor expired.
    CountFailure,
    /// Begin a transaction and mark the session used, where it is approved,
    /// open and not locked.
    MarkUsed,
    /// Read the session again.
    Reload,
    /// Add a device of that name to the user.
    AddDevice { user_id: Uuid, device_name: String },
    /// Store the hash of the refresh token.
    StoreToken {
        user_id: Uuid,
        device_id: Uuid,
        refresh_token: String,
        token_hash: Vec<u8>,
        expires_at: UtcTime,
    },
    /// Read the user's session epoch.
    ReadEpoch { user_id: Uuid, device_id: Uuid, refresh_token: String },
    /// Commit the transaction.
    Commit { result: PairingResult },
    Done(Result<PairingResult, PairingError>),
}

/// What the tokens of a pairing are made with.
pub struct PairingKeys<'a> {
    /// The pepper of pairing codes.
    pub pepper: &'a [u8],
    /// The secret that access tokens are signed with.
    pub auth_secret: &'a [u8],
    pub access_ttl_secs: u64,
    pub refresh_ttl_days: u32,
    /// The pepper of refresh tokens.
    pub refresh_pepper: &'a [u8],
}

/// That the event answers what was to be done; a refresh token that is issued
/// now expires at a time that can be represented.
pub open spec fn finish_fits(doing: Finish, event: PairingEvent, refresh_ttl_days: u32) -> bool {
    match doing {
        Finish::Load | Finish::Reload => event is Session || event is Failed,
        Finish::CountFailure => event is Counted || event is Failed,
        Finish::MarkUsed => event is Used || event is Failed,
        Finish::AddDevice { .. } => event is Failed || (event is DeviceAdded
            && event->DeviceAdded_1.can_add_days(refresh_ttl_days)),
        Finish::StoreToken { .. } => event is TokenStored || event is Failed,
        Finish::ReadEpoch { .. } => event is Epoch || event is Failed,
        Finish::Commit { .. } => event is Committed || event is Failed,
        Finish::Done(_) => false,
    }
}

/// That `next` follows once the epoch is known, for what the clock answered: a
/// commit with tokens for the device, or the error of the signing in words.
pub open spec fn tokens_follow(
    reading: Result<u64, String>,
    user_id: Uuid,
    device_id: Uuid,
    refresh_token: String,
    epoch: i32,
    keys: PairingKeys,
    next: Finish,
) -> bool {
    if keys.auth_secret@.len() < 32 {
        is_database_error(next, "secret must be at least 32 bytes"@)
    } else {
        match reading {
            Err(why) => is_database_error(next, "token signing failed: "@ + why@),
            Ok(now) => if now + keys.access_ttl_secs > u64::MAX {
                is_database_error(next, "token signing failed: "@ + "token lifetime out of range"@)
            } else {
                next matches Finish::Commit { result } && result.user_id == user_id
                    && result.device_id == device_id && result.refresh_token == refresh_token
                    && jwt::access_token_for(
                    result.access_token@,
                    keys.auth_secret@,
                    user_id,
                    device_id,
                    (now + keys.access_ttl_secs) as u64,
                    now,
                    epoch,
                )
            },
        }
    }
}

/// That the pairing ended with a failure that has that text.
pub open spec fn is_database_error(next: Finish, text: Seq<char>) -> bool {
    next matches Finish::Done(Err(PairingError::DatabaseError(e))) && e@ == text
}

/// What follows once the epoch is known: the access token is signed at the
/// reading of the clock.
pub fn finish_with_tokens(
    reading: Result<u64, String>,
    user_id: Uuid,
    device_id: Uuid,
    refresh_token: String,
    epoch: i32,
    keys: &PairingKeys,
) -> (next: Finish)
    ensures
        tokens_follow(reading, user_id, device_id, refresh_token, epoch, *keys, next),
{
    match jwt::sign_access_token_from(
        reading,
        &user_id,
        &device_id,
        keys.auth_secret,
        keys.access_ttl_secs,
        epoch,
    ) {
        Ok(access_token) => Finish::Commit {
            result: PairingResult { user_id, device_id, access_token, refresh_token },
        },
        Err(e) => Finish::Done(Err(PairingError::DatabaseError(e.message()))),
    }
}

/// That `next` follows `doing` upon the event.
pub open spec fn finish_follows(
    doing: Finish,
    event: PairingEvent,
    code: Seq<char>,
    keys: PairingKeys,
    next: Finish,
) -> bool {
    match (doing, event) {
        (_, PairingEvent::Failed(e)) => next == Finish::Done(Err(PairingError::DatabaseError(e))),
        (Finish::Load, PairingEvent::Session(session, now)) => next == match first_look(
            session,
            now,
            PairingUse::Finish,
            code,
            keys.pepper@,
        ) {
            FirstLook::Refused(e) => Finish::Done(Err(e)),
            FirstLook::WrongCode => Finish::CountFailure,
            FirstLook::RightCode => Finish::MarkUsed,
        },
        (Finish::CountFailure, PairingEvent::Counted(count)) => next == Finish::Done(
            Err(wrong_code_error(count)),
        ),
        (Finish::MarkUsed, PairingEvent::Used(used)) => next == match used {
            Some((user_id, device_name)) => Finish::AddDevice { user_id, device_name },
            None => Finish::Reload,
        },
        (Finish::Reload, PairingEvent::Session(session, now)) => next is Done && next->Done_0 is Err
            && is_late_error(session, now, PairingUse::Finish, next->Done_0->Err_0),
        (
            Finish::AddDevice { user_id, .. },
            PairingEvent::DeviceAdded(device_id, now),
        ) => match next {
            Finish::StoreToken {
                user_id: u,
                device_id: d,
                refresh_token,
                token_hash,
                expires_at,
            } => u == user_id && d == device_id && auth::is_fresh_refresh_token(
                refresh_token@,
            ) && token_hash@ == auth::refresh_hash(refresh_token@, keys.refresh_pepper@)
                && expires_at@ == now@ + keys.refresh_ttl_days * calendar::SECS_PER_DAY * calendar::NANOS,
            _ => false,
        },
        (
            Finish::StoreToken { user_id, device_id, refresh_token, .. },
            PairingEvent::TokenStored,
        ) => next == (Finish::ReadEpoch { user_id, device_id, refresh_token }),
        (
            Finish::ReadEpoch { user_id, device_id, refresh_token },
            PairingEvent::Epoch(epoch),
        ) => exists|reading: Result<u64, String>|
            #[trigger] tokens_follow(
                reading,
                user_id,
                device_id,
                refresh_token,
                epoch,
                keys,
                next,
            ),
        (Finish::Commit { result }, PairingEvent::Committed) => next == Finish::Done(Ok(result)),
        _ => false,
    }
}

/// Takes the finishing of a pairing one step further.
pub fn finish_pairing(doing: Finish, event: PairingEvent, code: &str, keys: &PairingKeys) -> (next:
    Finish)
    requires
        finish_fits(doing, event, keys.refresh_ttl_days),
    ensures
        finish_follows(doing, event, code@, *keys, next),
{
    match (doing, event) {
        (_, PairingEvent::Failed(e)) => Finish::Done(Err(PairingError::DatabaseError(e))),
        (Finish::Load, PairingEvent::Session(session, now)) => match look_at_session(
            &session,
            now,
            PairingUse::Finish,
            code,
            keys.pepper,
        ) {
            FirstLook::Refused(e) => Finish::Done(Err(e)),
            FirstLook::WrongCode => Finish::CountFailure,
            FirstLook::RightCode => Finish::MarkUsed,
        },
        (Finish::CountFailure, PairingEvent::Counted(count)) => Finish::Done(
            Err(after_wrong_code(count)),
        ),
        (Finish::MarkUsed, PairingEvent::Used(used)) => match used {
            Some((user_id, device_name)) => Finish::AddDevice { user_id, device_name },
            None => Finish::Reload,
        },
        (Finish::Reload, PairingEvent::Session(session, now)) => Finish::Done(
            Err(late_error(&session, now, PairingUse::Finish)),
        ),
        (Finish::AddDevice { user_id, .. }, PairingEvent::DeviceAdded(device_id, now)) => {
            let refresh_token = auth::generate_refresh_token();
            let token_hash = auth::hash_refresh_token(refresh_token.as_str(), keys.refresh_pepper);
            let expires_at = now.plus_days(keys.refresh_ttl_days);
            Finish::StoreToken { user_id, device_id, refresh_token, token_hash, expires_at }
        },
        (
            Finish::StoreToken { user_id, device_id, refresh_token, .. },
            PairingEvent::TokenStored,
        ) => Finish::ReadEpoch { user_id, device_id, refresh_token },
        (
            Finish::ReadEpoch { user_id, device_id, refresh_token },
            PairingEvent::Epoch(epoch),
        ) => finish_with_tokens(
            jwt::unix_now(),
            user_id,
            device_id,
            refresh_token,
            epoch,
            keys,
        ),
        (Finish::Commit { result }, PairingEvent::Committed) => Finish::Done(Ok(result)),
        (doing, _) => doing,
    }
}

/// The code that a pairing was started with is the right one for its session, as
/// long as nothing else stands against it; another is right exactly where it has
/// the same hash.
pub proof fn law_the_code_handed_out_is_right(
    session: PairingSession,
    now: UtcTime,
    purpose: PairingUse,
    code: Seq<char>,
    offered: Seq<char>,
    pepper: Seq<u8>,
)
    requires
        session.code_hash@ == code_hash(code, pepper),
        session_refusal(session, now, purpose) is None,
    ensures
        first_look(Some(session), now, purpose, code, pepper) is RightCode,
        first_look(Some(session), now, purpose, offered, pepper) is RightCode <==> code_hash(
            offered,
            pepper,
        ) == code_hash(code, pepper),
        !(first_look(Some(session), now, purpose, offered, pepper) is RightCode) ==> first_look(
            Some(session),
            now,
            purpose,
            offered,
            pepper,
        ) is WrongCode,
{
}

/// A pairing is approved only where the database has just said so, and the
/// database is only asked where the session was open, unapproved and unlocked
/// and the code was the right one; it is then asked for the user and the device
/// that approve.
pub proof fn law_approval_needs_an_open_session_and_the_code(
    doing: Approval,
    event: PairingEvent,
    code: Seq<char>,
    user_id: Uuid,
    device_id: Uuid,
    pepper: Seq<u8>,
    next: Approval,
)
    requires
        approval_fits(doing, event),
        approval_follows(doing, event, code, user_id, device_id, pepper, next),
    ensures
        next == Approval::Done(Ok(())) ==> doing is Approve && event == PairingEvent::Approved(
            true,
        ),
        next is Approve ==> next == (Approval::Approve { user_id, device_id }),
        next is Approve ==> event is Session && event->Session_0 is Some && ({
            let s = event->Session_0->0;
            &&& s.used_at is None
            &&& s.expires_at@ >= event->Session_1@
            &&& s.attempt_count < MAX_ATTEMPTS
            &&& s.approved_at is None
            &&& s.code_hash@ == code_hash(code, pepper)
        }),
{
}

/// Whether a stored session can still be approved.
pub open spec fn approvable(session: PairingSession, now: UtcTime) -> bool {
    &&& session.approved_at is None
    &&& session.used_at is None
    &&& session.expires_at@ > now@
    &&& session.attempt_count < MAX_ATTEMPTS
}

/// Whether a stored session still counts failures.
pub open spec fn counts_failures(session: PairingSession, now: UtcTime) -> bool {
    session.used_at is None && session.expires_at@ > now@
}

/// The stored session once a step of its approval is done.
pub open spec fn stored_after(
    session: PairingSession,
    doing: Approval,
    now: UtcTime,
) -> PairingSession {
    match doing {
        Approval::CountFailure if counts_failures(session, now) => PairingSession {
            attempt_count: (session.attempt_count + 1) as i32,
            ..session
        },
        Approval::Approve { user_id, device_id } if approvable(session, now) => PairingSession {
            approved_user_id: Some(user_id),
            approved_by_device_id: Some(device_id),
            approved_at: Some(now),
            ..session
        },
        _ => session,
    }
}

/// What comes of doing a step of its approval to a stored session.
pub open spec fn stored_answer(
    session: PairingSession,
    doing: Approval,
    now: UtcTime,
) -> PairingEvent {
    match doing {
        Approval::CountFailure => PairingEvent::Counted(
            if counts_failures(session, now) {
                Some((session.attempt_count + 1) as i32)
            } else {
                None
            },
        ),
        Approval::Approve { .. } => PairingEvent::Approved(approvable(session, now)),
        _ => PairingEvent::Session(Some(session), now),
    }
}

/// What one call does to a session that is unused, unexpired and not approved,
/// where nobody else touches it. After five failures the call is locked out,
/// whatever the code, and the session stays as it is. Before, the right code
/// approves it for the user and the device that ask, and leaves the count of
/// failures alone; a wrong one is counted and does not approve it, and the
/// answer is a lockout from the fifth on.
pub proof fn law_what_an_approval_does(
    session: PairingSession,
    now: UtcTime,
    later: UtcTime,
    code: Seq<char>,
    user_id: Uuid,
    device_id: Uuid,
    pepper: Seq<u8>,
    second: Approval,
    last: Approval,
)
    requires
        session.used_at is None,
        session.approved_at is None,
        session.expires_at@ >= now@,
        session.expires_at@ > later@,
        approval_follows(
            Approval::Load,
            stored_answer(session, Approval::Load, now),
            code,
            user_id,
            device_id,
            pepper,
            second,
        ),
        second is Done ==> last == second,
        !(second is Done) ==> approval_follows(
            second,
            stored_answer(session, second, later),
            code,
            user_id,
            device_id,
            pepper,
            last,
        ),
    ensures
        ({
            let after = stored_after(session, second, later);
            if session.attempt_count >= MAX_ATTEMPTS {
                &&& last == Approval::Done(Err(PairingError::LockedOut))
                &&& after == session
            } else if code_hash(code, pepper) == session.code_hash@ {
                &&& last == Approval::Done(Ok(()))
                &&& after == (PairingSession {
                    approved_user_id: Some(user_id),
                    approved_by_device_id: Some(device_id),
                    approved_at: Some(later),
                    ..session
                })
            } else {
                &&& last == Approval::Done(
                    Err(
                        if session.attempt_count + 1 >= MAX_ATTEMPTS {
                            PairingError::LockedOut
                        } else {
                            PairingError::CodeMismatch
                        },
                    ),
                )
                &&& after == (PairingSession {
                    attempt_count: (session.attempt_count + 1) as i32,
                    ..session
                })
            }
        }),
{
}

/// Once five attempts have failed, neither the right code nor a wrong one gets
/// any further: until it expires, an unused session is answered with a lockout.
pub proof fn law_locked_out_whatever_the_code(
    session: PairingSession,
    now: UtcTime,
    purpose: PairingUse,
    code: Seq<char>,
    pepper: Seq<u8>,
)
    requires
        session.attempt_count >= MAX_ATTEMPTS,
        session.used_at is None,
        session.expires_at@ >= now@,
    ensures
        first_look(Some(session), now, purpose, code, pepper) == FirstLook::Refused(
            PairingError::LockedOut,
        ),
{
}

/// The tokens that finishing a pairing hands out are for the user that the
/// session names when it is marked used, and for the new device; and the session
/// had been found approved, unused, unexpired and unlocked, and the code right.
pub proof fn law_tokens_need_an_approved_session_and_the_code(
    session: PairingEvent,
    used: PairingEvent,
    device: PairingEvent,
    stored: PairingEvent,
    epoch: PairingEvent,
    committed: PairingEvent,
    code: Seq<char>,
    keys: PairingKeys,
    s1: Finish,
    s2: Finish,
    s3: Finish,
    s4: Finish,
    s5: Finish,
    last: Finish,
)
    requires
        finish_fits(Finish::Load, session, keys.refresh_ttl_days),
        finish_follows(Finish::Load, session, code, keys, s1),
        s1 is MarkUsed,
        finish_fits(s1, used, keys.refresh_ttl_days),
        finish_follows(s1, used, code, keys, s2),
        s2 is AddDevice,
        finish_fits(s2, device, keys.refresh_ttl_days),
        finish_follows(s2, device, code, keys, s3),
        finish_fits(s3, stored, keys.refresh_ttl_days),
        finish_follows(s3, stored, code, keys, s4),
        finish_fits(s4, epoch, keys.refresh_ttl_days),
        finish_follows(s4, epoch, code, keys, s5),
        finish_fits(s5, committed, keys.refresh_ttl_days),
        finish_follows(s5, committed, code, keys, last),
    ensures
        ({
            let s = session->Session_0->0;
            &&& session->Session_0 is Some
            &&& s.used_at is None
            &&& s.expires_at@ >= session->Session_1@
            &&& s.attempt_count < MAX_ATTEMPTS
            &&& s.approved_at is Some
            &&& s.code_hash@ == code_hash(code, keys.pepper@)
        }),
        last is Done,
        last->Done_0 is Ok <==> committed is Committed,
        last->Done_0 is Ok ==> ({
            let r = last->Done_0->Ok_0;
            &&& r.user_id == (used->Used_0->0).0
            &&& r.device_id == device->DeviceAdded_0
            &&& auth::is_signed_access_token(
                r.access_token@,
                r.user_id,
                r.device_id,
                keys.auth_secret@,
                keys.access_ttl_secs,
                epoch->Epoch_0,
            )
            &&& s3->StoreToken_token_hash@ == auth::refresh_hash(
                r.refresh_token@,
                keys.refresh_pepper@,
            )
        }),
{
}

/// Where the database answers and the session is approved, unused, unexpired and
/// unlocked, the right code finishes the pairing: the session is marked used, a
/// device with the name that it asked for is added, only the hash of the refresh
/// token is stored, to expire after its days, and the tokens are for the user that
/// approved, the access token being good for its lifetime. That takes a
/// secret of 32 bytes and a clock whose reading leaves room for the lifetime.
/// With a shorter secret the pairing fails before anything is committed. Once
/// the session is used it is refused.
pub proof fn law_right_code_finishes_an_approved_pairing(
    session: PairingSession,
    now: UtcTime,
    later: UtcTime,
    user_id: Uuid,
    device_name: String,
    device_id: Uuid,
    added_at: UtcTime,
    epoch: i32,
    reading: Result<u64, String>,
    code: Seq<char>,
    again: Seq<char>,
    used: PairingSession,
    keys: PairingKeys,
    s1: Finish,
    s2: Finish,
    s3: Finish,
    s4: Finish,
    s5: Finish,
    last: Finish,
    second: Finish,
)
    requires
        session.used_at is None,
        session.expires_at@ >= now@,
        session.attempt_count < MAX_ATTEMPTS,
        session.approved_at is Some,
        session.code_hash@ == code_hash(code, keys.pepper@),
        finish_follows(Finish::Load, PairingEvent::Session(Some(session), now), code, keys, s1),
        finish_follows(s1, PairingEvent::Used(Some((user_id, device_name))), code, keys, s2),
        added_at.can_add_days(keys.refresh_ttl_days),
        finish_follows(s2, PairingEvent::DeviceAdded(device_id, added_at), code, keys, s3),
        finish_follows(s3, PairingEvent::TokenStored, code, keys, s4),
        s4 is ReadEpoch ==> tokens_follow(
            reading,
            s4->ReadEpoch_user_id,
            s4->ReadEpoch_device_id,
            s4->ReadEpoch_refresh_token,
            epoch,
            keys,
            s5,
        ),
        s5 is Commit ==> finish_follows(s5, PairingEvent::Committed, code, keys, last),
        used.used_at is Some,
        finish_follows(Finish::Load, PairingEvent::Session(Some(used), later), again, keys, second),
    ensures
        s1 == Finish::MarkUsed,
        s2 == (Finish::AddDevice { user_id, device_name }),
        s3 is StoreToken,
        s3->StoreToken_user_id == user_id,
        s3->StoreToken_device_id == device_id,
        s3->StoreToken_token_hash@ == crypto::hmac_sha256(
            keys.refresh_pepper@,
            text::utf8(s3->StoreToken_refresh_token@),
        ),
        s3->StoreToken_expires_at@ == added_at@ + keys.refresh_ttl_days * 86_400 * 1_000_000_000,
        s5 is Commit <==> keys.auth_secret@.len() >= 32 && reading is Ok && reading->Ok_0
            + keys.access_ttl_secs <= u64::MAX,
        s5 is Commit ==> {
            &&& last matches Finish::Done(Ok(r))
            &&& r.user_id == user_id
            &&& r.device_id == device_id
            &&& r.refresh_token == s3->StoreToken_refresh_token
            &&& jwt::good_until(
                r.access_token@,
                keys.auth_secret@,
                user_id,
                device_id,
                epoch,
                reading->Ok_0 + keys.access_ttl_secs,
            )
        },
        keys.auth_secret@.len() < 32 ==> is_database_error(s5, "secret must be at least 32 bytes"@),
        second == Finish::Done(Err(PairingError::AlreadyUsed)),
{
    if s5 is Commit {
        jwt::law_access_token_lives_for_its_lifetime(
            reading->Ok_0,
            user_id,
            device_id,
            keys.auth_secret@,
            keys.access_ttl_secs,
            epoch,
            Ok(s5->result.access_token),
        );
    }
}

/// Tokens come only of a commit, and a device is added only to a session that was
/// marked used; one that had been used before is refused.
pub proof fn law_used_sessions_are_refused(
    doing: Finish,
    event: PairingEvent,
    code: Seq<char>,
    keys: PairingKeys,
    next: Finish,
)
    requires
        finish_fits(doing, event, keys.refresh_ttl_days),
        finish_follows(doing, event, code, keys, next),
    ensures
        next is Done && next->Done_0 is Ok ==> doing is Commit && event is Committed,
        next is AddDevice ==> doing is MarkUsed && event is Used && event->Used_0 is Some,
        next is MarkUsed ==> event is Session && event->Session_0 is Some && ({
            let s = event->Session_0->0;
            &&& s.used_at is None
            &&& s.expires_at@ >= event->Session_1@
            &&& s.attempt_count < MAX_ATTEMPTS
            &&& s.approved_at is Some
            &&& s.code_hash@ == code_hash(code, keys.pepper@)
        }),
        doing is Load && event is Session && event->Session_0 is Some
            && event->Session_0->0.used_at is Some ==> next == Finish::Done(
            Err(PairingError::AlreadyUsed),
        ),
{
}

/// A pairing from first to last: the code that it is started with is stored as its
/// HMAC-SHA256, approves the session for the user and the device that offer it,
/// and finishes it for that user and with the device name that was asked for. The
/// refresh token that is stored is the one that a rotation looks up.
pub proof fn law_pairing_from_first_to_last(
    started: (String, Vec<u8>),
    session: PairingSession,
    now: UtcTime,
    approved_at: UtcTime,
    later: UtcTime,
    user_id: Uuid,
    trusted: Uuid,
    device_id: Uuid,
    added_at: UtcTime,
    keys: PairingKeys,
    approved: Approval,
    done: Approval,
    s1: Finish,
    s2: Finish,
    s3: Finish,
    raw: &str,
    lookup: auth::Rotation,
)
    requires
        call_ensures(start_pairing, (keys.pepper,), started),
        session.code_hash@ == started.1@,
        session.used_at is None,
        session.approved_at is None,
        session.attempt_count < 5,
        session.expires_at@ >= now@,
        session.expires_at@ > approved_at@,
        session.expires_at@ >= later@,
        approval_follows(
            Approval::Load,
            PairingEvent::Session(Some(session), now),
            started.0@,
            user_id,
            trusted,
            keys.pepper@,
            approved,
        ),
        approval_follows(
            approved,
            PairingEvent::Approved(true),
            started.0@,
            user_id,
            trusted,
            keys.pepper@,
            done,
        ),
        ({
            let stored = stored_after(session, approved, approved_at);
            &&& finish_follows(
                Finish::Load,
                PairingEvent::Session(Some(stored), later),
                started.0@,
                keys,
                s1,
            )
            &&& stored.approved_user_id is Some ==> finish_follows(
                s1,
                PairingEvent::Used(
                    Some((stored.approved_user_id->0, stored.request_device_name)),
                ),
                started.0@,
                keys,
                s2,
            )
        }),
        finish_follows(s2, PairingEvent::DeviceAdded(device_id, added_at), started.0@, keys, s3),
        s3 is StoreToken ==> raw@ == s3->StoreToken_refresh_token@,
        call_ensures(auth::start_rotation, (raw, keys.refresh_pepper), lookup),
    ensures
        started.1@ == crypto::hmac_sha256(keys.pepper@, text::utf8(started.0@)),
        approved == (Approval::Approve { user_id, device_id: trusted }),
        done == Approval::Done(Ok(())),
        s1 == Finish::MarkUsed,
        s2 == (Finish::AddDevice { user_id, device_name: session.request_device_name }),
        s3 is StoreToken,
        s3->StoreToken_user_id == user_id,
        s3->StoreToken_device_id == device_id,
        lookup is Consume,
        lookup->Consume_token_hash@ == s3->StoreToken_token_hash@,
        s3->StoreToken_expires_at@ == added_at@ + keys.refresh_ttl_days * 86_400 * 1_000_000_000,
{
}

/// Why a session is refused, both for approving and for finishing: a used one is
/// used, whatever else; an expired one has expired; after five failures it is
/// locked; and then approving needs one that is not approved yet, and finishing
/// one that is. Nothing of this depends on the code.
pub proof fn law_why_a_session_is_refused(
    session: PairingSession,
    now: UtcTime,
    code: Seq<char>,
    user_id: Uuid,
    device_id: Uuid,
    keys: PairingKeys,
    approving: Approval,
    finishing: Finish,
    no_approving: Approval,
    no_finishing: Finish,
)
    requires
        approval_follows(
            Approval::Load,
            PairingEvent::Session(Some(session), now),
            code,
            user_id,
            device_id,
            keys.pepper@,
            approving,
        ),
        finish_follows(
            Finish::Load,
            PairingEvent::Session(Some(session), now),
            code,
            keys,
            finishing,
        ),
        approval_follows(
            Approval::Load,
            PairingEvent::Session(None, now),
            code,
            user_id,
            device_id,
            keys.pepper@,
            no_approving,
        ),
        finish_follows(Finish::Load, PairingEvent::Session(None, now), code, keys, no_finishing),
    ensures
        no_approving == Approval::Done(Err(PairingError::NotFound)),
        no_finishing == Finish::Done(Err(PairingError::NotFound)),
        approving == Approval::Done(Err(PairingError::AlreadyUsed)) <==> session.used_at is Some,
        finishing == Finish::Done(Err(PairingError::AlreadyUsed)) <==> session.used_at is Some,
        approving == Approval::Done(Err(PairingError::Expired)) <==> session.used_at is None
            && session.expires_at@ < now@,
        finishing == Finish::Done(Err(PairingError::Expired)) <==> session.used_at is None
            && session.expires_at@ < now@,
        session.used_at is None && session.expires_at@ >= now@ ==> {
            &&& approving == Approval::Done(Err(PairingError::LockedOut)) <==> session.attempt_count
                >= 5
            &&& finishing == Finish::Done(Err(PairingError::LockedOut)) <==> session.attempt_count
                >= 5
            &&& approving == Approval::Done(Err(PairingError::AlreadyApproved)) <==> (
            session.attempt_count < 5 && session.approved_at is Some)
            &&& finishing == Finish::Done(Err(PairingError::NotApproved)) <==> (
            session.attempt_count < 5 && session.approved_at is None)
            &&& session.attempt_count < 5 && session.approved_at is None ==> approving == if session.code_hash@
                == crypto::hmac_sha256(keys.pepper@, text::utf8(code)) {
                Approval::Approve { user_id, device_id }
            } else {
                Approval::CountFailure
            }
            &&& session.attempt_count < 5 && session.approved_at is Some ==> finishing == if session.code_hash@
                == crypto::hmac_sha256(keys.pepper@, text::utf8(code)) {
                Finish::MarkUsed
            } else {
                Finish::CountFailure
            }
        },
{
}

/// A wrong code is answered with a lockout once five failures are on record, and
/// as a mismatch before that or where the session no longer counts. A session that
/// changed before it could be marked is answered with its new state, and never
/// with success.
pub proof fn law_failures_and_latecomers(
    count: Option<i32>,
    session: Option<PairingSession>,
    now: UtcTime,
    code: Seq<char>,
    user_id: Uuid,
    device_id: Uuid,
    keys: PairingKeys,
    approving: Approval,
    finishing: Finish,
    late_approval: Approval,
    late_finish: Finish,
)
    requires
        approval_follows(
            Approval::CountFailure,
            PairingEvent::Counted(count),
            code,
            user_id,
            device_id,
            keys.pepper@,
            approving,
        ),
        finish_follows(
            Finish::CountFailure,
            PairingEvent::Counted(count),
            code,
            keys,
            finishing,
        ),
        approval_follows(
            Approval::Reload,
            PairingEvent::Session(session, now),
            code,
            user_id,
            device_id,
            keys.pepper@,
            late_approval,
        ),
        finish_follows(
            Finish::Reload,
            PairingEvent::Session(session, now),
            code,
            keys,
            late_finish,
        ),
    ensures
        approving == Approval::Done(
            Err(
                if count is Some && count->0 >= 5 {
                    PairingError::LockedOut
                } else {
                    PairingError::CodeMismatch
                },
            ),
        ),
        finishing == Finish::Done(
            Err(
                if count is Some && count->0 >= 5 {
                    PairingError::LockedOut
                } else {
                    PairingError::CodeMismatch
                },
            ),
        ),
        late_approval is Done && late_approval->Done_0 is Err,
        late_finish is Done && late_finish->Done_0 is Err,
        ({
            let a = late_approval->Done_0->Err_0;
            let f = late_finish->Done_0->Err_0;
            &&& a == PairingError::NotFound <==> session is None
            &&& f == PairingError::NotFound <==> session is None
            &&& session is Some ==> ({
                let s = session->0;
                &&& a == PairingError::AlreadyUsed <==> s.used_at is Some
                &&& f == PairingError::AlreadyUsed <==> s.used_at is Some
                &&& a == PairingError::Expired <==> s.used_at is None && s.expires_at@ < now@
                &&& f == PairingError::Expired <==> s.used_at is None && s.expires_at@ < now@
                &&& s.used_at is None && s.expires_at@ >= now@ ==> {
                    &&& a == PairingError::LockedOut <==> s.attempt_count >= 5
                    &&& f == PairingError::LockedOut <==> s.attempt_count >= 5
                    &&& s.attempt_count < 5 ==> {
                        &&& a == PairingError::AlreadyApproved <==> s.approved_at is Some
                        &&& f == PairingError::NotApproved <==> s.approved_at is None
                        &&& s.approved_at is None ==> a is DatabaseError
                        &&& s.approved_at is Some ==> f is DatabaseError
                    }
                }
            })
        }),
{
}

/// Each step of a pairing leads on only where it was done: nobody is approved who
/// was not marked so, no device is added to a session that was not marked used,
/// and a failure of the database ends it with the words of the database.
pub proof fn law_pairing_steps(
    approving: Approval,
    finishing: Finish,
    event: PairingEvent,
    code: Seq<char>,
    user_id: Uuid,
    device_id: Uuid,
    keys: PairingKeys,
    approved: Approval,
    finished: Finish,
)
    ensures
        approval_follows(approving, event, code, user_id, device_id, keys.pepper@, approved) ==> {
            &&& approved == Approval::Reload <==> approving is Approve && event
                == PairingEvent::Approved(false)
            &&& approved == Approval::Done(Ok(())) <==> approving is Approve && event
                == PairingEvent::Approved(true)
            &&& approved is Approve ==> approving is Load
            &&& approved is CountFailure ==> approving is Load
            &&& event is Failed ==> approved == Approval::Done(
                Err(PairingError::DatabaseError(event->Failed_0)),
            )
        },
        finish_follows(finishing, event, code, keys, finished) ==> {
            &&& finished == Finish::Reload <==> finishing is MarkUsed && event
                == PairingEvent::Used(None)
            &&& finished is CountFailure || finished is MarkUsed ==> finishing is Load
            &&& finished is AddDevice ==> finishing is MarkUsed && event == PairingEvent::Used(
                Some((finished->AddDevice_user_id, finished->AddDevice_device_name)),
            )
            &&& finished is StoreToken ==> finishing is AddDevice && event is DeviceAdded
            &&& finished is ReadEpoch ==> finishing is StoreToken && event
                == PairingEvent::TokenStored
            &&& finished is Commit ==> finishing is ReadEpoch && event is Epoch
            &&& finished is Done && finished->Done_0 is Ok ==> finishing is Commit && event
                == PairingEvent::Committed && finished->Done_0->Ok_0 == finishing->result
            &&& event is Failed ==> finished == Finish::Done(
                Err(PairingError::DatabaseError(event->Failed_0)),
            )
        },
{
}

/// Each error is told in its own words.
pub proof fn law_messages_say_what_is_wrong(e: &PairingError, s: String)
    requires
        call_ensures(PairingError::message, (e,), s),
    ensures
        *e is NotFound ==> s@ == "pairing session not found"@,
        *e is Expired ==> s@ == "pairing session expired"@,
        *e is AlreadyUsed ==> s@ == "pairing session already used"@,
        *e is AlreadyApproved ==> s@ == "pairing session already approved"@,
        *e is NotApproved ==> s@ == "pairing session not yet approved"@,
        *e is CodeMismatch ==> s@ == "pairing code mismatch"@,
        *e is LockedOut ==> s@ == "pairing locked out after too many failed attempts"@,
        *e is DatabaseError ==> s@ == "database error: "@ + e->DatabaseError_0@,
{
}

/// Each character of a pairing code is drawn for itself: a letter for a number below
/// 26, and a digit from 2 on for one above. What is stored is the HMAC of the code
/// under the pepper.
pub proof fn law_pairing_codes_are_drawn(
    drawn: &Vec<usize>,
    code: String,
    i: int,
    given: &str,
    pepper: &[u8],
    hash: Vec<u8>,
)
    requires
        forall|k: int| 0 <= k < drawn@.len() ==> (#[trigger] drawn@[k]) < 32,
        call_ensures(pairing_code_from, (drawn,), code),
        0 <= i < drawn@.len(),
        call_ensures(hmac_code, (given, pepper), hash),
    ensures
        code@.len() == drawn@.len(),
        drawn@[i] < 26 ==> code@[i] as u32 == 65 + drawn@[i],
        drawn@[i] >= 26 ==> code@[i] as u32 == 50 + (drawn@[i] - 26),
        hash@ == crypto::hmac_sha256(pepper@, text::utf8(given@)),
{
    assert(drawn@[i] < 32);
}

/// A fresh code has eight characters, letters and the digits from 2 to 7, and comes
/// with its own hash.
pub proof fn law_fresh_codes(pepper: &[u8], r: (String, Vec<u8>), code: String, i: int)
    requires
        call_ensures(start_pairing, (pepper,), r),
        call_ensures(generate_pairing_code, (), code),
        0 <= i < 8,
    ensures
        r.0@.len() == 8 && code@.len() == 8,
        65 <= r.0@[i] as u32 <= 90 || 50 <= r.0@[i] as u32 <= 55,
        65 <= code@[i] as u32 <= 90 || 50 <= code@[i] as u32 <= 55,
        r.1@ == crypto::hmac_sha256(pepper@, text::utf8(r.0@)),
{
    assert(in_code_charset(r.0@[i]));
    assert(in_code_charset(code@[i]));
}

} // verus!
