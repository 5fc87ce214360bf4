//! Requests about accounts, devices and tokens, and their answers.

use crate::abuse::request_window;
use crate::auth::auth::AuthError;
use crate::auth::auth::DeviceRegistration;
use crate::auth::auth::TokenPair;
use crate::auth::auth_rate_limiter::AuthRateLimiter;
use crate::auth::device::DeviceError;
use crate::auth::device::DeviceInfo;
use crate::auth::pairing::PairingError;
use crate::auth::pairing::PairingResult;
use crate::auth::recovery_rate_limiter::RecoveryRateLimiter;
use crate::calendar;
use crate::ids;
use crate::ids::Uuid;
use crate::net::IpAddr;
use crate::text;
use crate::time;
use crate::time::Instant;
use vstd::prelude::*;

verus! {

/// A request that was turned down: the status, the seconds to wait where they
/// are known, and the error text.
#[derive(Debug)]
pub struct AuthErrorResponse {
    pub status: u16,
    pub retry_after: Option<u64>,
    pub error: String,
}

impl AuthErrorResponse {
    /// That this is the answer with that status, wait and text.
    pub open spec fn says(&self, status: u16, retry_after: Option<u64>, error: Seq<char>) -> bool {
        self.status == status && self.retry_after == retry_after && self.error@ == error
    }
}

/// The answer with that status and text.
pub fn error_response(status: u16, error: &str) -> (r: AuthErrorResponse)
    ensures
        r.says(status, None, error@),
{
    AuthErrorResponse { status, retry_after: None, error: error.to_owned() }
}

/// The answer to someone over a limit.
pub fn rate_limited_response(retry_after_secs: Option<u64>) -> (r: AuthErrorResponse)
    ensures
        r.says(429, retry_after_secs, "too many requests"@),
{
    AuthErrorResponse {
        status: 429,
        retry_after: retry_after_secs,
        error: "too many requests".to_owned(),
    }
}

/// A request to register.
#[derive(Debug)]
pub struct RegisterRequest {
    pub phrase: String,
    pub username: String,
}

/// The answer to a registration.
#[derive(Debug)]
pub struct RegisterResponse {
    pub user_id: String,
    pub device_id: String,
    pub recovery_id: String,
    pub access_token: String,
    pub refresh_token: String,
}

/// A request to recover an account.
#[derive(Debug)]
pub struct RecoverRequest {
    pub recovery_id: String,
    pub phrase: String,
    pub username: String,
}

/// The answer to a recovery.
#[derive(Debug)]
pub struct RecoverResponse {
    pub user_id: String,
    pub device_id: String,
    pub access_token: String,
    pub refresh_token: String,
}

/// A request for new tokens.
#[derive(Debug)]
pub struct RefreshRequest {
    pub refresh_token: String,
}

/// New tokens.
#[derive(Debug)]
pub struct RefreshResponse {
    pub user_id: String,
    pub device_id: String,
    pub access_token: String,
    pub refresh_token: String,
}

/// A request to start a pairing.
#[derive(Debug)]
pub struct PairStartRequest {
    pub device_name: String,
}

/// A pairing that was started.
#[derive(Debug)]
pub struct PairStartResponse {
    pub pairing_id: String,
    pub code: String,
}

/// A request to approve a pairing.
#[derive(Debug)]
pub struct PairApproveRequest {
    pub pairing_id: Uuid,
    pub code: String,
}

/// A request to finish a pairing.
#[derive(Debug)]
pub struct PairFinishRequest {
    pub pairing_id: Uuid,
    pub code: String,
}

/// A pairing that was finished.
#[derive(Debug)]
pub struct PairFinishResponse {
    pub user_id: String,
    pub device_id: String,
    pub access_token: String,
    pub refresh_token: String,
}

/// A request to change the phrase.
#[derive(Debug)]
pub struct RotatePhraseRequest {
    pub current_phrase: String,
    pub new_phrase: String,
}

/// A request to change the user name.
#[derive(Debug)]
pub struct UpdateUsernameRequest {
    pub username: String,
}

/// The user who asks.
#[derive(Debug)]
pub struct MeResponse {
    pub username: String,
}

/// A device of the user.
#[derive(Debug)]
pub struct DeviceInfoResponse {
    pub device_id: String,
    pub device_name: String,
    pub created_at: String,
    pub revoked_at: Option<String>,
}

/// The devices of the user.
#[derive(Debug)]
pub struct ListDevicesResponse {
    pub devices: Vec<DeviceInfoResponse>,
    pub current_device_id: String,
}

/// Whether a text may be a user name: not empty, and no longer than allowed.
pub open spec fn is_username(s: Seq<char>, max_len: nat) -> bool {
    0 < s.len() <= max_len
}

/// The user name without white space at its ends, if it may be one.
pub fn validate_username(username: &str, max_len: usize) -> (r: Result<&str, AuthErrorResponse>)
    ensures
        match r {
            Ok(name) => is_username(text::trimmed(username@), max_len as nat) && name@
                == text::trimmed(username@),
            Err(e) => !is_username(text::trimmed(username@), max_len as nat) && e.says(
                400,
                None,
                "invalid username"@,
            ),
        },
{
    let username = text::trim(username);
    if username.is_empty() || username.unicode_len() > max_len {
        return Err(error_response(400, "invalid username"));
    }
    Ok(username)
}

/// The answer to a registration that failed: always the same.
pub fn map_register_error(err: &AuthError) -> (r: AuthErrorResponse)
    ensures
        r.says(500, None, "internal error"@),
{
    error_response(500, "internal error")
}

/// The status for a recovery that failed.
pub open spec fn recover_status(err: AuthError) -> u16 {
    if err is PhraseVerificationFailed || err is RecoveryIdNotFound || err is DeviceRevoked {
        401
    } else {
        500
    }
}

/// The status for a refresh that failed.
pub open spec fn refresh_status(err: AuthError) -> u16 {
    if err is RefreshTokenInvalid || err is TokenReuseDetected || err is ValidationFailed
        || err is TokenExpired || err is InvalidToken || err is EpochMismatch {
        401
    } else {
        500
    }
}

/// The text that goes with a status of 401 or 500.
pub open spec fn plain_text(status: u16) -> Seq<char> {
    if status == 401 {
        "authentication failed"@
    } else {
        "internal error"@
    }
}

/// The answer to a recovery that failed.
pub fn map_recover_error(err: &AuthError) -> (r: AuthErrorResponse)
    ensures
        r.says(recover_status(*err), None, plain_text(recover_status(*err))),
{
    match err {
        AuthError::PhraseVerificationFailed
        | AuthError::RecoveryIdNotFound
        | AuthError::DeviceRevoked => error_response(401, "authentication failed"),
        _ => error_response(500, "internal error"),
    }
}

/// The answer to a refresh that failed.
pub fn map_refresh_error(err: &AuthError) -> (r: AuthErrorResponse)
    ensures
        r.says(refresh_status(*err), None, plain_text(refresh_status(*err))),
{
    match err {
        AuthError::RefreshTokenInvalid
        | AuthError::TokenReuseDetected
        | AuthError::ValidationFailed
        | AuthError::TokenExpired
        | AuthError::InvalidToken
        | AuthError::EpochMismatch => error_response(401, "authentication failed"),
        _ => error_response(500, "internal error"),
    }
}

/// The status and the text for a pairing that failed.
pub open spec fn pairing_answer(err: PairingError) -> (u16, Seq<char>) {
    match err {
        PairingError::NotFound => (404u16, "not found"@),
        PairingError::Expired => (401u16, "authentication failed"@),
        PairingError::CodeMismatch => (401u16, "authentication failed"@),
        PairingError::AlreadyUsed => (409u16, "conflict"@),
        PairingError::AlreadyApproved => (409u16, "conflict"@),
        PairingError::NotApproved => (403u16, "forbidden"@),
        PairingError::LockedOut => (429u16, "too many requests"@),
        PairingError::DatabaseError(_) => (500u16, "internal error"@),
    }
}

/// The answer to a pairing that failed.
pub fn map_pairing_error(err: &PairingError) -> (r: AuthErrorResponse)
    ensures
        r.says(pairing_answer(*err).0, None, pairing_answer(*err).1),
{
    match err {
        PairingError::NotFound => error_response(404, "not found"),
        PairingError::Expired | PairingError::CodeMismatch => error_response(
            401,
            "authentication failed",
        ),
        PairingError::AlreadyUsed | PairingError::AlreadyApproved => error_response(
            409,
            "conflict",
        ),
        PairingError::NotApproved => error_response(403, "forbidden"),
        PairingError::LockedOut => error_response(429, "too many requests"),
        PairingError::DatabaseError(_) => error_response(500, "internal error"),
    }
}

/// The status and the text for a device that was not revoked.
pub open spec fn device_answer(err: DeviceError) -> (u16, Seq<char>) {
    match err {
        DeviceError::NotFound => (404u16, "not found"@),
        DeviceError::NotOwned => (403u16, "forbidden"@),
        DeviceError::DatabaseError(_) => (500u16, "internal error"@),
    }
}

/// The answer where a device was not revoked.
pub fn map_device_error(err: &DeviceError) -> (r: AuthErrorResponse)
    ensures
        r.says(device_answer(*err).0, None, device_answer(*err).1),
{
    match err {
        DeviceError::NotFound => error_response(404, "not found"),
        DeviceError::NotOwned => error_response(403, "forbidden"),
        DeviceError::DatabaseError(_) => error_response(500, "internal error"),
    }
}

/// The seconds that an address has to wait before it may register, if any.
pub open spec fn register_wait(l: AuthRateLimiter, ip: IpAddr, now: nat) -> Option<u64> {
    request_window::retry_after(
        request_window::log_of(l.registers(), ip),
        (l.limits().register_window_secs * time::NANOS_PER_SEC) as nat,
        l.limits().register_max_per_ip,
        now,
    )
}

/// The registrations on record after an address asked to make one.
pub open spec fn registers_after(l: AuthRateLimiter, ip: IpAddr, now: nat) -> Map<
    IpAddr,
    Seq<nat>,
> {
    let asked = request_window::asked_at(
        l.registers(),
        ip,
        (l.limits().register_window_secs * time::NANOS_PER_SEC) as nat,
        now,
    );
    if register_wait(l, ip, now) is Some {
        asked
    } else {
        request_window::recorded_at(asked, ip, now)
    }
}

/// Lets a registration, or a step of a pairing, through if the address is
/// within its limit, and counts it.
pub fn admit_register(limiter: &mut AuthRateLimiter, client_ip: IpAddr, now: Instant) -> (r: Result<
    (),
    AuthErrorResponse,
>)
    requires
        old(limiter).wf(),
    ensures
        final(limiter).wf(),
        final(limiter).limits() == old(limiter).limits(),
        final(limiter).refreshes() == old(limiter).refreshes(),
        final(limiter).registers() == registers_after(*old(limiter), client_ip, now@),
        r is Ok <==> register_wait(*old(limiter), client_ip, now@) is None,
        r matches Err(e) ==> e.says(
            429,
            register_wait(*old(limiter), client_ip, now@),
            "too many requests"@,
        ),
{
    let wait = limiter.seconds_until_register(client_ip, now);
    if wait.is_some() {
        return Err(rate_limited_response(wait));
    }
    limiter.record_register(client_ip, now);
    Ok(())
}

/// Lets a registration through if the address is within its limit, which it
/// counts toward in any case, and the user name is in order. The user name
/// comes back.
pub fn admit_registration<'a>(
    limiter: &mut AuthRateLimiter,
    client_ip: IpAddr,
    username: &'a str,
    max_len: usize,
    now: Instant,
) -> (r: Result<&'a str, AuthErrorResponse>)
    requires
        old(limiter).wf(),
    ensures
        final(limiter).wf(),
        final(limiter).limits() == old(limiter).limits(),
        final(limiter).refreshes() == old(limiter).refreshes(),
        final(limiter).registers() == registers_after(*old(limiter), client_ip, now@),
        match r {
            Ok(name) => register_wait(*old(limiter), client_ip, now@) is None && is_username(
                text::trimmed(username@),
                max_len as nat,
            ) && name@ == text::trimmed(username@),
            Err(e) => if register_wait(*old(limiter), client_ip, now@) is Some {
                e.says(
                    429,
                    register_wait(*old(limiter), client_ip, now@),
                    "too many requests"@,
                )
            } else {
                !is_username(text::trimmed(username@), max_len as nat) && e.says(
                    400,
                    None,
                    "invalid username"@,
                )
            },
        },
{
    match admit_register(limiter, client_ip, now) {
        Err(e) => Err(e),
        Ok(()) => validate_username(username, max_len),
    }
}

/// The answer to a registration.
pub fn register(result: Result<DeviceRegistration, AuthError>) -> (r: Result<
    (u16, RegisterResponse),
    AuthErrorResponse,
>)
    ensures
        match result {
            Ok(reg) => {
                &&& r matches Ok((status, body))
                &&& status == 201
                &&& body.user_id@ == ids::uuid_text(reg.user_id.value)
                &&& body.device_id@ == ids::uuid_text(reg.device_id.value)
                &&& body.recovery_id == reg.recovery_id
                &&& body.access_token == reg.access_token
                &&& body.refresh_token == reg.refresh_token
            },
            Err(_) => r is Err && r->Err_0.says(500, None, "internal error"@),
        },
{
    match result {
        Ok(reg) => Ok(
            (
                201,
                RegisterResponse {
                    user_id: reg.user_id.text(),
                    device_id: reg.device_id.text(),
                    recovery_id: reg.recovery_id,
                    access_token: reg.access_token,
                    refresh_token: reg.refresh_token,
                },
            ),
        ),
        Err(e) => Err(map_register_error(&e)),
    }
}

/// The seconds that an address has to wait before it may attempt a recovery.
pub open spec fn recovery_ip_wait(l: RecoveryRateLimiter, ip: IpAddr, now: nat) -> Option<u64> {
    request_window::retry_after(
        request_window::log_of(l.by_ip(), ip),
        (l.limits().per_ip_window_secs * time::NANOS_PER_SEC) as nat,
        l.limits().per_ip_max,
        now,
    )
}

/// The seconds until a recovery id may be tried again.
pub open spec fn recovery_id_wait(
    l: RecoveryRateLimiter,
    recovery_id: Seq<char>,
    now: nat,
) -> Option<u64> {
    request_window::retry_after(
        request_window::log_of(l.by_recovery_id(), recovery_id),
        (l.limits().per_rid_window_secs * time::NANOS_PER_SEC) as nat,
        l.limits().per_rid_max,
        now,
    )
}

/// Lets an attempt to recover an account through if the address and the
/// recovery id are within their limits and the user name is in order. The
/// attempt of an address counts in any case; that on a recovery id not yet, for
/// it is not known whether there is one.
pub fn admit_recovery<'a>(
    limiter: &mut RecoveryRateLimiter,
    client_ip: IpAddr,
    recovery_id: &str,
    username: &'a str,
    max_len: usize,
    now: Instant,
) -> (r: Result<&'a str, AuthErrorResponse>)
    requires
        old(limiter).wf(),
    ensures
        final(limiter).wf(),
        final(limiter).limits() == old(limiter).limits(),
        final(limiter).by_ip() == ({
            let asked = request_window::asked_at(
                old(limiter).by_ip(),
                client_ip,
                (old(limiter).limits().per_ip_window_secs * time::NANOS_PER_SEC) as nat,
                now@,
            );
            if recovery_ip_wait(*old(limiter), client_ip, now@) is Some {
                asked
            } else {
                request_window::recorded_at(asked, client_ip, now@)
            }
        }),
        final(limiter).by_recovery_id() == (if recovery_ip_wait(*old(limiter), client_ip, now@)
            is Some {
            old(limiter).by_recovery_id()
        } else {
            request_window::asked_at(
                old(limiter).by_recovery_id(),
                recovery_id@,
                (old(limiter).limits().per_rid_window_secs * time::NANOS_PER_SEC) as nat,
                now@,
            )
        }),
        match r {
            Ok(name) => {
                &&& recovery_ip_wait(*old(limiter), client_ip, now@) is None
                &&& recovery_id_wait(*old(limiter), recovery_id@, now@) is None
                &&& is_username(text::trimmed(username@), max_len as nat)
                &&& name@ == text::trimmed(username@)
            },
            Err(e) => if recovery_ip_wait(*old(limiter), client_ip, now@) is Some {
                e.says(
                    429,
                    recovery_ip_wait(*old(limiter), client_ip, now@),
                    "too many requests"@,
                )
            } else if recovery_id_wait(*old(limiter), recovery_id@, now@) is Some {
                e.says(
                    429,
                    recovery_id_wait(*old(limiter), recovery_id@, now@),
                    "too many requests"@,
                )
            } else {
                !is_username(text::trimmed(username@), max_len as nat) && e.says(
                    400,
                    None,
                    "invalid username"@,
                )
            },
        },
{
    let wait = limiter.seconds_until_ip(client_ip, now);
    if wait.is_some() {
        return Err(rate_limited_response(wait));
    }
    limiter.record_ip(client_ip, now);
    let wait = limiter.seconds_until_recovery_id(recovery_id, now);
    if wait.is_some() {
        return Err(rate_limited_response(wait));
    }
    validate_username(username, max_len)
}

/// Whether the outcome of a recovery shows that there is an account with the
/// recovery id.
pub open spec fn account_exists(result: Result<DeviceRegistration, AuthError>) -> bool {
    match result {
        Ok(_) => true,
        Err(e) => e is PhraseVerificationFailed,
    }
}

/// The answer to an attempt to recover an account. It counts toward the limit
/// of the recovery id only if there is an account with it.
pub fn recover(
    limiter: &mut RecoveryRateLimiter,
    recovery_id: &str,
    result: Result<DeviceRegistration, AuthError>,
    now: Instant,
) -> (r: Result<RecoverResponse, AuthErrorResponse>)
    requires
        old(limiter).wf(),
    ensures
        final(limiter).wf(),
        final(limiter).limits() == old(limiter).limits(),
        final(limiter).by_ip() == old(limiter).by_ip(),
        final(limiter).by_recovery_id() == (if account_exists(result) {
            request_window::recorded_at(old(limiter).by_recovery_id(), recovery_id@, now@)
        } else {
            old(limiter).by_recovery_id()
        }),
        match result {
            Ok(reg) => {
                &&& r matches Ok(body)
                &&& body.user_id@ == ids::uuid_text(reg.user_id.value)
                &&& body.device_id@ == ids::uuid_text(reg.device_id.value)
                &&& body.access_token == reg.access_token
                &&& body.refresh_token == reg.refresh_token
            },
            Err(e) => r is Err && r->Err_0.says(
                recover_status(e),
                None,
                plain_text(recover_status(e)),
            ),
        },
{
    match result {
        Ok(reg) => {
            limiter.record_recovery_id(recovery_id, now);
            Ok(
                RecoverResponse {
                    user_id: reg.user_id.text(),
                    device_id: reg.device_id.text(),
                    access_token: reg.access_token,
                    refresh_token: reg.refresh_token,
                },
            )
        },
        Err(e) => {
            if let AuthError::PhraseVerificationFailed = e {
                limiter.record_recovery_id(recovery_id, now);
            }
            Err(map_recover_error(&e))
        },
    }
}

/// A wrong phrase and an unknown recovery id are answered alike.
pub proof fn law_recovery_answers_tell_nothing_of_accounts()
    ensures
        recover_status(AuthError::PhraseVerificationFailed) == recover_status(
            AuthError::RecoveryIdNotFound,
        ),
        plain_text(recover_status(AuthError::PhraseVerificationFailed)) == plain_text(
            recover_status(AuthError::RecoveryIdNotFound),
        ),
{
}

/// The seconds that an address has to wait before it may refresh a token.
pub open spec fn refresh_wait(l: AuthRateLimiter, ip: IpAddr, now: nat) -> Option<u64> {
    request_window::retry_after(
        request_window::log_of(l.refreshes(), ip),
        (l.limits().refresh_window_secs * time::NANOS_PER_SEC) as nat,
        l.limits().refresh_max_per_ip,
        now,
    )
}

/// Lets a refresh through if the address is within its limit, and counts it.
pub fn admit_refresh(limiter: &mut AuthRateLimiter, client_ip: IpAddr, now: Instant) -> (r: Result<
    (),
    AuthErrorResponse,
>)
    requires
        old(limiter).wf(),
    ensures
        final(limiter).wf(),
        final(limiter).limits() == old(limiter).limits(),
        final(limiter).registers() == old(limiter).registers(),
        final(limiter).refreshes() == ({
            let asked = request_window::asked_at(
                old(limiter).refreshes(),
                client_ip,
                (old(limiter).limits().refresh_window_secs * time::NANOS_PER_SEC) as nat,
                now@,
            );
            if refresh_wait(*old(limiter), client_ip, now@) is Some {
                asked
            } else {
                request_window::recorded_at(asked, client_ip, now@)
            }
        }),
        r is Ok <==> refresh_wait(*old(limiter), client_ip, now@) is None,
        r matches Err(e) ==> e.says(
            429,
            refresh_wait(*old(limiter), client_ip, now@),
            "too many requests"@,
        ),
{
    let wait = limiter.seconds_until_refresh(client_ip, now);
    if wait.is_some() {
        return Err(rate_limited_response(wait));
    }
    limiter.record_refresh(client_ip, now);
    Ok(())
}

/// The answer to a refresh.
pub fn refresh_token(result: Result<TokenPair, AuthError>) -> (r: Result<
    RefreshResponse,
    AuthErrorResponse,
>)
    ensures
        match result {
            Ok(pair) => {
                &&& r matches Ok(body)
                &&& body.user_id@ == ids::uuid_text(pair.user_id.value)
                &&& body.device_id@ == ids::uuid_text(pair.device_id.value)
                &&& body.access_token == pair.access_token
                &&& body.refresh_token == pair.refresh_token
            },
            Err(e) => r is Err && r->Err_0.says(
                refresh_status(e),
                None,
                plain_text(refresh_status(e)),
            ),
        },
{
    match result {
        Ok(pair) => Ok(
            RefreshResponse {
                user_id: pair.user_id.text(),
                device_id: pair.device_id.text(),
                access_token: pair.access_token,
                refresh_token: pair.refresh_token,
            },
        ),
        Err(e) => Err(map_refresh_error(&e)),
    }
}

/// The answer to the start of a pairing.
pub fn pair_start(result: Result<(Uuid, String), PairingError>) -> (r: Result<
    (u16, PairStartResponse),
    AuthErrorResponse,
>)
    ensures
        match result {
            Ok((pairing_id, code)) => {
                &&& r matches Ok((status, body))
                &&& status == 201
                &&& body.pairing_id@ == ids::uuid_text(pairing_id.value)
                &&& body.code == code
            },
            Err(e) => r is Err && r->Err_0.says(pairing_answer(e).0, None, pairing_answer(e).1),
        },
{
    match result {
        Ok((pairing_id, code)) => Ok(
            (201, PairStartResponse { pairing_id: pairing_id.text(), code }),
        ),
        Err(e) => Err(map_pairing_error(&e)),
    }
}

/// The answer to the approval of a pairing.
pub fn pair_approve(result: Result<(), PairingError>) -> (r: Result<u16, AuthErrorResponse>)
    ensures
        match result {
            Ok(()) => r == Ok::<u16, AuthErrorResponse>(200),
            Err(e) => r is Err && r->Err_0.says(pairing_answer(e).0, None, pairing_answer(e).1),
        },
{
    match result {
        Ok(()) => Ok(200),
        Err(e) => Err(map_pairing_error(&e)),
    }
}

/// The answer to the end of a pairing.
pub fn pair_finish(result: Result<PairingResult, PairingError>) -> (r: Result<
    PairFinishResponse,
    AuthErrorResponse,
>)
    ensures
        match result {
            Ok(pr) => {
                &&& r matches Ok(body)
                &&& body.user_id@ == ids::uuid_text(pr.user_id.value)
                &&& body.device_id@ == ids::uuid_text(pr.device_id.value)
                &&& body.access_token == pr.access_token
                &&& body.refresh_token == pr.refresh_token
            },
            Err(e) => r is Err && r->Err_0.says(pairing_answer(e).0, None, pairing_answer(e).1),
        },
{
    match result {
        Ok(pr) => Ok(
            PairFinishResponse {
                user_id: pr.user_id.text(),
                device_id: pr.device_id.text(),
                access_token: pr.access_token,
                refresh_token: pr.refresh_token,
            },
        ),
        Err(e) => Err(map_pairing_error(&e)),
    }
}

/// The answer to the end of all sessions.
pub fn logout_all(result: Result<i32, DeviceError>) -> (r: Result<u16, AuthErrorResponse>)
    ensures
        match result {
            Ok(_) => r == Ok::<u16, AuthErrorResponse>(200),
            Err(e) => r is Err && r->Err_0.says(device_answer(e).0, None, device_answer(e).1),
        },
{
    match result {
        Ok(_) => Ok(200),
        Err(e) => Err(map_device_error(&e)),
    }
}

/// The answer to the revocation of a device.
pub fn revoke_device(result: Result<(), DeviceError>) -> (r: Result<u16, AuthErrorResponse>)
    ensures
        match result {
            Ok(()) => r == Ok::<u16, AuthErrorResponse>(200),
            Err(e) => r is Err && r->Err_0.says(device_answer(e).0, None, device_answer(e).1),
        },
{
    match result {
        Ok(()) => Ok(200),
        Err(e) => Err(map_device_error(&e)),
    }
}

/// That `shown` is how a device is shown.
pub open spec fn shows_device(d: DeviceInfo, shown: DeviceInfoResponse) -> bool {
    &&& shown.device_id@ == ids::uuid_text(d.device_id.value)
    &&& shown.device_name == d.device_name
    &&& shown.created_at@ == calendar::rfc3339_text(d.created_at@)
    &&& match d.revoked_at {
        Some(t) => shown.revoked_at is Some && shown.revoked_at->0@ == calendar::rfc3339_text(t@),
        None => shown.revoked_at is None,
    }
}

fn device_response(d: DeviceInfo) -> (shown: DeviceInfoResponse)
    ensures
        shows_device(d, shown),
{
    DeviceInfoResponse {
        device_id: d.device_id.text(),
        device_name: d.device_name,
        created_at: d.created_at.rfc3339(),
        revoked_at: match d.revoked_at {
            Some(t) => Some(t.rfc3339()),
            None => None,
        },
    }
}

/// The devices of a user, in the order in which they are stored.
pub fn list_devices(result: Result<Vec<DeviceInfo>, DeviceError>, current_device: Uuid) -> (r:
    Result<ListDevicesResponse, AuthErrorResponse>)
    ensures
        match result {
            Ok(devices) => {
                &&& r matches Ok(body)
                &&& body.current_device_id@ == ids::uuid_text(current_device.value)
                &&& body.devices@.len() == devices@.len()
                &&& forall|i: int|
                    0 <= i < devices@.len() ==> shows_device(
                        devices@[i],
                        #[trigger] body.devices@[i],
                    )
            },
            Err(e) => r is Err && r->Err_0.says(device_answer(e).0, None, device_answer(e).1),
        },
{
    match result {
        Err(e) => Err(map_device_error(&e)),
        Ok(found) => {
            let ghost all = found@;
            let mut rest = found;
            let n: usize = rest.len();
            let mut devices: Vec<DeviceInfoResponse> = Vec::new();
            let mut i: usize = 0;
            while i < n
                invariant
                    i <= n,
                    n == all.len(),
                    rest@ == all.skip(i as int),
                    devices@.len() == i,
                    forall|j: int| 0 <= j < i ==> shows_device(all[j], #[trigger] devices@[j]),
                decreases n - i,
            {
                let d = rest.remove(0);
                proof {
                    assert(d == all[i as int]);
                    assert(rest@ =~= all.skip(i as int + 1));
                }
                devices.push(device_response(d));
                i = i + 1;
            }
            Ok(ListDevicesResponse { devices, current_device_id: current_device.text() })
        },
    }
}

/// The answer to a change of the phrase.
pub fn rotate_phrase(result: Result<(), AuthError>) -> (r: Result<u16, AuthErrorResponse>)
    ensures
        match result {
            Ok(()) => r == Ok::<u16, AuthErrorResponse>(200),
            Err(e) => r is Err && (if e is PhraseVerificationFailed {
                r->Err_0.says(401, None, "authentication failed"@)
            } else {
                r->Err_0.says(500, None, "internal error"@)
            }),
        },
{
    match result {
        Ok(()) => Ok(200),
        Err(AuthError::PhraseVerificationFailed) => Err(
            error_response(401, "authentication failed"),
        ),
        Err(_) => Err(error_response(500, "internal error")),
    }
}

/// The answer to the question who asks.
pub fn get_me(result: Result<String, AuthError>) -> (r: Result<MeResponse, AuthErrorResponse>)
    ensures
        match result {
            Ok(username) => r is Ok && r->Ok_0.username == username,
            Err(_) => r is Err && r->Err_0.says(500, None, "internal error"@),
        },
{
    match result {
        Ok(username) => Ok(MeResponse { username }),
        Err(_) => Err(error_response(500, "internal error")),
    }
}

/// The answer to a change of the user name.
pub fn update_username(result: Result<(), AuthError>) -> (r: Result<u16, AuthErrorResponse>)
    ensures
        match result {
            Ok(()) => r == Ok::<u16, AuthErrorResponse>(200),
            Err(_) => r is Err && r->Err_0.says(500, None, "internal error"@),
        },
{
    match result {
        Ok(()) => Ok(200),
        Err(_) => Err(error_response(500, "internal error")),
    }
}

/// The answers do not tell what went wrong inside: each of the reasons for which
/// a recovery or a refresh is not authenticated gets the same status and text,
/// and so does each other failure, whatever its reason. A pairing that expired is
/// answered like a wrong code, and one that was used like one that was approved.
pub proof fn law_answers_are_opaque(err: AuthError, reason: String)
    ensures
        recover_status(AuthError::PhraseVerificationFailed) == 401,
        recover_status(AuthError::RecoveryIdNotFound) == 401,
        recover_status(AuthError::DeviceRevoked) == 401,
        recover_status(err) != 401 ==> recover_status(err) == 500,
        refresh_status(AuthError::RefreshTokenInvalid) == 401,
        refresh_status(AuthError::TokenReuseDetected) == 401,
        refresh_status(AuthError::ValidationFailed) == 401,
        refresh_status(AuthError::TokenExpired) == 401,
        refresh_status(AuthError::InvalidToken) == 401,
        refresh_status(AuthError::EpochMismatch) == 401,
        refresh_status(err) != 401 ==> refresh_status(err) == 500,
        plain_text(401) == "authentication failed"@,
        plain_text(500) == "internal error"@,
        pairing_answer(PairingError::Expired) == pairing_answer(PairingError::CodeMismatch),
        pairing_answer(PairingError::AlreadyUsed) == pairing_answer(PairingError::AlreadyApproved),
        pairing_answer(PairingError::DatabaseError(reason)) == (500u16, plain_text(500)),
        device_answer(DeviceError::DatabaseError(reason)) == (500u16, plain_text(500)),
{
}

/// Someone who registered is shown their own ids and tokens: the recovery id where
/// the recovery id belongs, the access token as the access token.
pub proof fn law_registered_users_get_their_own_tokens(
    reg: DeviceRegistration,
    r: Result<(u16, RegisterResponse), AuthErrorResponse>,
    limiter: &mut RecoveryRateLimiter,
    recovery_id: &str,
    now: Instant,
    recovered: Result<RecoverResponse, AuthErrorResponse>,
)
    requires
        call_ensures(register, (Ok(reg),), r),
        call_ensures(recover, (limiter, recovery_id, Ok(reg), now), recovered),
    ensures
        r is Ok && recovered is Ok,
        (r->Ok_0).0 == 201,
        ({
            let body = (r->Ok_0).1;
            let again = recovered->Ok_0;
            &&& body.user_id@ == ids::uuid_text(reg.user_id.value)
            &&& body.device_id@ == ids::uuid_text(reg.device_id.value)
            &&& body.recovery_id@ == reg.recovery_id@
            &&& body.access_token@ == reg.access_token@
            &&& body.refresh_token@ == reg.refresh_token@
            &&& again.user_id@ == body.user_id@
            &&& again.device_id@ == body.device_id@
            &&& again.access_token@ == body.access_token@
            &&& again.refresh_token@ == body.refresh_token@
        }),
        final(limiter).by_recovery_id()[recovery_id@].last() == now@,
{
}

/// New tokens and the tokens of a paired device come back as they were issued.
pub proof fn law_tokens_are_handed_over(
    pair: TokenPair,
    refreshed: Result<RefreshResponse, AuthErrorResponse>,
    paired: PairingResult,
    finished: Result<PairFinishResponse, AuthErrorResponse>,
    pairing_id: Uuid,
    code: String,
    started: Result<(u16, PairStartResponse), AuthErrorResponse>,
)
    requires
        call_ensures(refresh_token, (Ok(pair),), refreshed),
        call_ensures(pair_finish, (Ok(paired),), finished),
        call_ensures(pair_start, (Ok((pairing_id, code)),), started),
    ensures
        refreshed is Ok && finished is Ok && started is Ok,
        ({
            let a = refreshed->Ok_0;
            let b = finished->Ok_0;
            let c = (started->Ok_0).1;
            &&& a.user_id@ == ids::uuid_text(pair.user_id.value)
            &&& a.device_id@ == ids::uuid_text(pair.device_id.value)
            &&& a.access_token@ == pair.access_token@
            &&& a.refresh_token@ == pair.refresh_token@
            &&& b.user_id@ == ids::uuid_text(paired.user_id.value)
            &&& b.device_id@ == ids::uuid_text(paired.device_id.value)
            &&& b.access_token@ == paired.access_token@
            &&& b.refresh_token@ == paired.refresh_token@
            &&& c.pairing_id@ == ids::uuid_text(pairing_id.value)
            &&& c.code@ == code@
        }),
        (started->Ok_0).0 == 201,
{
}

/// Recoveries and refreshes fail with 401 exactly for a reason that lies with who
/// asks, and with 500 for every other; the text tells no more than the status.
pub proof fn law_why_accounts_are_refused(
    err: &AuthError,
    recovering: AuthErrorResponse,
    refreshing: AuthErrorResponse,
    registering: AuthErrorResponse,
)
    requires
        call_ensures(map_recover_error, (err,), recovering),
        call_ensures(map_refresh_error, (err,), refreshing),
        call_ensures(map_register_error, (err,), registering),
    ensures
        recovering.status == 401 <==> *err is PhraseVerificationFailed || *err is RecoveryIdNotFound
            || *err is DeviceRevoked,
        recovering.status == 401 || recovering.status == 500,
        refreshing.status == 401 <==> *err is RefreshTokenInvalid || *err is TokenReuseDetected
            || *err is ValidationFailed || *err is TokenExpired || *err is InvalidToken
            || *err is EpochMismatch,
        refreshing.status == 401 || refreshing.status == 500,
        registering.status == 500 && registering.error@ == "internal error"@,
        recovering.error@ == if recovering.status == 401 {
            "authentication failed"@
        } else {
            "internal error"@
        },
        refreshing.error@ == if refreshing.status == 401 {
            "authentication failed"@
        } else {
            "internal error"@
        },
        recovering.retry_after is None && refreshing.retry_after is None
            && registering.retry_after is None,
{
}

/// Each way in which a pairing or a revocation fails has the status that HTTP has
/// for it.
pub proof fn law_why_devices_are_refused(
    pairing: &PairingError,
    paired: AuthErrorResponse,
    revoking: &DeviceError,
    revoked: AuthErrorResponse,
)
    requires
        call_ensures(map_pairing_error, (pairing,), paired),
        call_ensures(map_device_error, (revoking,), revoked),
    ensures
        paired.status == 404 <==> *pairing is NotFound,
        paired.status == 401 <==> *pairing is Expired || *pairing is CodeMismatch,
        paired.status == 409 <==> *pairing is AlreadyUsed || *pairing is AlreadyApproved,
        paired.status == 403 <==> *pairing is NotApproved,
        paired.status == 429 <==> *pairing is LockedOut,
        paired.status == 500 <==> *pairing is DatabaseError,
        revoked.status == 404 <==> *revoking is NotFound,
        revoked.status == 403 <==> *revoking is NotOwned,
        revoked.status == 500 <==> *revoking is DatabaseError,
        paired.status == 401 ==> paired.error@ == "authentication failed"@,
        paired.status == 404 ==> paired.error@ == "not found"@,
        paired.status == 500 ==> paired.error@ == "internal error"@,
        revoked.status == 404 ==> revoked.error@ == "not found"@,
        revoked.status == 500 ==> revoked.error@ == "internal error"@,
{
}

/// What succeeded is answered with success, and what failed is not.
pub proof fn law_success_is_told_as_success(
    approval: Result<(), PairingError>,
    approved: Result<u16, AuthErrorResponse>,
    logout: Result<i32, DeviceError>,
    logged_out: Result<u16, AuthErrorResponse>,
    revocation: Result<(), DeviceError>,
    revoked: Result<u16, AuthErrorResponse>,
    rotation: Result<(), AuthError>,
    rotated: Result<u16, AuthErrorResponse>,
    update: Result<(), AuthError>,
    updated: Result<u16, AuthErrorResponse>,
    name: Result<String, AuthError>,
    me: Result<MeResponse, AuthErrorResponse>,
)
    requires
        call_ensures(pair_approve, (approval,), approved),
        call_ensures(logout_all, (logout,), logged_out),
        call_ensures(revoke_device, (revocation,), revoked),
        call_ensures(rotate_phrase, (rotation,), rotated),
        call_ensures(update_username, (update,), updated),
        call_ensures(get_me, (name,), me),
    ensures
        approved is Ok <==> approval is Ok,
        approved is Ok ==> approved->Ok_0 == 200,
        logged_out is Ok <==> logout is Ok,
        logged_out is Ok ==> logged_out->Ok_0 == 200,
        revoked is Ok <==> revocation is Ok,
        revoked is Ok ==> revoked->Ok_0 == 200,
        rotated is Ok <==> rotation is Ok,
        rotated is Ok ==> rotated->Ok_0 == 200,
        rotated is Err ==> (rotated->Err_0.status == 401 <==> rotation->Err_0
            is PhraseVerificationFailed),
        updated is Ok <==> update is Ok,
        updated is Ok ==> updated->Ok_0 == 200,
        me is Ok <==> name is Ok,
        me is Ok ==> me->Ok_0.username@ == name->Ok_0@,
{
}

/// An address is let through exactly where its limiter names no wait; it is counted
/// then, and else told to wait as long as the limiter says.
pub proof fn law_addresses_wait_as_long_as_they_must(
    asking: &mut AuthRateLimiter,
    admitting: &mut AuthRateLimiter,
    refreshing: &mut AuthRateLimiter,
    asking_again: &mut AuthRateLimiter,
    ip: IpAddr,
    now: Instant,
    wait: Option<u64>,
    wait_again: Option<u64>,
    r: Result<(), AuthErrorResponse>,
    s: Result<(), AuthErrorResponse>,
)
    requires
        call_ensures(AuthRateLimiter::seconds_until_register, (asking, ip, now), wait),
        *old(admitting) == *old(asking),
        call_ensures(admit_register, (admitting, ip, now), r),
        call_ensures(AuthRateLimiter::seconds_until_refresh, (asking_again, ip, now), wait_again),
        *old(refreshing) == *old(asking_again),
        call_ensures(admit_refresh, (refreshing, ip, now), s),
    ensures
        r is Ok <==> wait is None,
        r is Err ==> r->Err_0.status == 429 && r->Err_0.retry_after == wait,
        r is Ok ==> request_window::log_of(final(admitting).registers(), ip).last() == now@,
        r is Err ==> final(admitting).registers() == final(asking).registers(),
        final(admitting).refreshes() == old(admitting).refreshes(),
        s is Ok <==> wait_again is None,
        s is Err ==> s->Err_0.status == 429 && s->Err_0.retry_after == wait_again,
        s is Ok ==> request_window::log_of(final(refreshing).refreshes(), ip).last() == now@,
        s is Err ==> final(refreshing).refreshes() == final(asking_again).refreshes(),
        final(refreshing).registers() == old(refreshing).registers(),
{
}

/// A user name is taken over without the white space at its ends, and exactly where
/// something is left of it and no more than allowed.
pub proof fn law_usernames_are_trimmed(
    username: &str,
    max_len: usize,
    r: Result<&str, AuthErrorResponse>,
)
    requires
        call_ensures(validate_username, (username, max_len), r),
    ensures
        r is Ok <==> 0 < text::trimmed(username@).len() <= max_len,
        r is Ok ==> r->Ok_0@ == text::trimmed(username@),
        r is Err ==> r->Err_0.status == 400,
{
}

/// Every device of a user is listed once, in the stored order, with its own id,
/// name and times; a device shows as revoked exactly where it is.
pub proof fn law_every_device_is_listed(
    devices: Vec<DeviceInfo>,
    current: Uuid,
    r: Result<ListDevicesResponse, AuthErrorResponse>,
    i: int,
)
    requires
        call_ensures(list_devices, (Ok(devices), current), r),
        0 <= i < devices@.len(),
    ensures
        r is Ok,
        r->Ok_0.current_device_id@ == ids::uuid_text(current.value),
        r->Ok_0.devices@.len() == devices@.len(),
        ({
            let d = devices@[i];
            let shown = r->Ok_0.devices@[i];
            &&& shown.device_id@ == ids::uuid_text(d.device_id.value)
            &&& shown.device_name@ == d.device_name@
            &&& shown.created_at@ == calendar::rfc3339_text(d.created_at@)
            &&& shown.revoked_at is Some <==> d.revoked_at is Some
            &&& shown.revoked_at is Some ==> shown.revoked_at->0@ == calendar::rfc3339_text(
                d.revoked_at->0@,
            )
        }),
{
    assert(shows_device(devices@[i], r->Ok_0.devices@[i]));
}

/// Only attempts on accounts that exist count toward a recovery id.
pub proof fn law_attempts_on_accounts_count(
    limiter: &mut RecoveryRateLimiter,
    recovery_id: &str,
    err: AuthError,
    now: Instant,
    r: Result<RecoverResponse, AuthErrorResponse>,
)
    requires
        call_ensures(recover, (limiter, recovery_id, Err(err), now), r),
    ensures
        r is Err,
        err is PhraseVerificationFailed ==> request_window::log_of(
            final(limiter).by_recovery_id(),
            recovery_id@,
        ) == request_window::log_of(old(limiter).by_recovery_id(), recovery_id@).push(now@),
        !(err is PhraseVerificationFailed) ==> final(limiter).by_recovery_id() == old(
            limiter,
        ).by_recovery_id(),
        final(limiter).by_ip() == old(limiter).by_ip(),
{
}

/// A recovery is let through exactly where neither the address nor the recovery id
/// has to wait and the user name is in order; the first of these that fails is told.
pub proof fn law_recoveries_wait_as_long_as_they_must(
    by_ip: &mut RecoveryRateLimiter,
    by_id: &mut RecoveryRateLimiter,
    admitting: &mut RecoveryRateLimiter,
    ip: IpAddr,
    recovery_id: &str,
    username: &str,
    max_len: usize,
    now: Instant,
    ip_wait: Option<u64>,
    id_wait: Option<u64>,
    r: Result<&str, AuthErrorResponse>,
)
    requires
        call_ensures(RecoveryRateLimiter::seconds_until_ip, (by_ip, ip, now), ip_wait),
        *old(by_id) == *old(by_ip),
        call_ensures(
            RecoveryRateLimiter::seconds_until_recovery_id,
            (by_id, recovery_id, now),
            id_wait,
        ),
        *old(admitting) == *old(by_ip),
        call_ensures(
            admit_recovery,
            (admitting, ip, recovery_id, username, max_len, now),
            r,
        ),
    ensures
        r is Ok <==> ip_wait is None && id_wait is None && 0 < text::trimmed(username@).len()
            <= max_len,
        r is Ok ==> r->Ok_0@ == text::trimmed(username@),
        ip_wait is Some ==> r->Err_0.status == 429 && r->Err_0.retry_after == ip_wait,
        ip_wait is None && id_wait is Some ==> r->Err_0.status == 429 && r->Err_0.retry_after
            == id_wait,
        ip_wait is None && id_wait is None && r is Err ==> r->Err_0.status == 400,
        ip_wait is None ==> request_window::log_of(final(admitting).by_ip(), ip).last() == now@,
{
}

/// A registration is let through exactly where the address need not wait and the user
/// name is in order; it counts even where the name is not.
pub proof fn law_registrations_are_counted(
    asking: &mut AuthRateLimiter,
    admitting: &mut AuthRateLimiter,
    ip: IpAddr,
    username: &str,
    max_len: usize,
    now: Instant,
    wait: Option<u64>,
    r: Result<&str, AuthErrorResponse>,
)
    requires
        call_ensures(AuthRateLimiter::seconds_until_register, (asking, ip, now), wait),
        *old(admitting) == *old(asking),
        call_ensures(admit_registration, (admitting, ip, username, max_len, now), r),
    ensures
        r is Ok <==> wait is None && 0 < text::trimmed(username@).len() <= max_len,
        r is Ok ==> r->Ok_0@ == text::trimmed(username@),
        wait is Some ==> r->Err_0.status == 429 && r->Err_0.retry_after == wait,
        wait is None && r is Err ==> r->Err_0.status == 400,
        wait is None ==> request_window::log_of(final(admitting).registers(), ip).last() == now@,
{
}

} // verus!
