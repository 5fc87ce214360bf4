//! Who makes a request, from its `Authorization` header.

use crate::auth::auth;
use crate::auth::auth::AuthError;
use crate::auth::jwt;
use crate::calendar::UtcTime;
use crate::http;
use crate::http::Rejection;
use crate::ids::Uuid;
use crate::jwt_token;
use vstd::prelude::*;

verus! {

/// The user and the device that a request comes from.
#[derive(Debug, Clone, Copy, PartialEq, Eq, Structural)]
pub struct AuthenticatedUser {
    pub user_id: Uuid,
    pub device_id: Uuid,
}

/// What to do next to find out who makes a request.
#[derive(Debug)]
pub enum Authentication {
    /// Read when the device was revoked.
    ReadDevice { user: AuthenticatedUser, epoch: i32 },
    /// Read the user's session epoch.
    ReadEpoch { user: AuthenticatedUser, epoch: i32 },
    Done(Result<AuthenticatedUser, Rejection>),
}

/// What the database answered.
#[derive(Debug)]
pub enum AuthenticationEvent {
    /// When the device was revoked, if it is known and was.
    Device(Option<Option<UtcTime>>),
    /// The session epoch, if the user is known.
    Epoch(Option<i32>),
    Failed,
}

/// That the request is turned down, without a reason.
pub open spec fn turned_down(r: Rejection) -> bool {
    r.says(401, "authentication failed"@)
}

/// The rejection of a request whose author is not known. It gives no reason.
pub fn reject() -> (r: Rejection)
    ensures
        turned_down(r),
{
    Rejection::new(401, "authentication failed")
}

/// That `state` follows from what a token was found to say.
pub open spec fn starts_from(
    found: Result<(Uuid, Uuid, i32), AuthError>,
    state: Authentication,
) -> bool {
    match found {
        Ok((user_id, device_id, epoch)) => state == (Authentication::ReadDevice {
            user: AuthenticatedUser { user_id, device_id },
            epoch,
        }),
        Err(_) => state is Done && state->Done_0 is Err && turned_down(state->Done_0->Err_0),
    }
}

/// What to do first, from what the token was found to say.
pub fn start_from(found: Result<(Uuid, Uuid, i32), AuthError>) -> (state: Authentication)
    ensures
        starts_from(found, state),
{
    match found {
        Ok((user_id, device_id, epoch)) => Authentication::ReadDevice {
            user: AuthenticatedUser { user_id, device_id },
            epoch,
        },
        Err(_) => Authentication::Done(Err(reject())),
    }
}

/// The token of a header, if there is a header and it bears one.
pub open spec fn token_of(header: Option<&str>) -> Option<Seq<char>> {
    match header {
        Some(h) => http::bearer(h@),
        None => None,
    }
}

/// That `state` follows from a token, with what validating it may give.
pub open spec fn started(
    token: Seq<char>,
    secret: Seq<u8>,
    previous_secret: Option<&[u8]>,
    state: Authentication,
) -> bool {
    exists|found: Result<(Uuid, Uuid, i32), AuthError>|
        #[trigger] jwt::rotation_outcome(token, secret, previous_secret, found) && starts_from(
            found,
            state,
        )
}

/// What to do first for a request with that header: its token must be valid
/// under the current or the previous secret.
pub fn start_authentication(
    header: Option<&str>,
    secret: &[u8],
    previous_secret: Option<&[u8]>,
) -> (state: Authentication)
    ensures
        token_of(header) is None ==> state is Done && state->Done_0 is Err && turned_down(
            state->Done_0->Err_0,
        ),
        token_of(header) is Some ==> started(
            token_of(header)->0,
            secret@,
            previous_secret,
            state,
        ),
{
    let header = match header {
        None => {
            return Authentication::Done(Err(reject()));
        },
        Some(h) => h,
    };
    match http::bearer_token(header) {
        None => Authentication::Done(Err(reject())),
        Some(token) => {
            let found = jwt::validate_access_token_with_rotation(token, secret, previous_secret);
            let ghost seen = found;
            let state = start_from(found);
            proof {
                assert(jwt::rotation_outcome(token@, secret@, previous_secret, seen));
                assert(starts_from(seen, state));
                assert(started(token@, secret@, previous_secret, state));
            }
            state
        },
    }
}

/// That the event answers what was to be done.
pub open spec fn authentication_fits(doing: Authentication, event: AuthenticationEvent) -> bool {
    match doing {
        Authentication::ReadDevice { .. } => event is Device || event is Failed,
        Authentication::ReadEpoch { .. } => event is Epoch || event is Failed,
        Authentication::Done(_) => false,
    }
}

/// That `next` follows `doing` upon the event.
pub open spec fn authentication_follows(
    doing: Authentication,
    event: AuthenticationEvent,
    next: Authentication,
) -> bool {
    match (doing, event) {
        (
            Authentication::ReadDevice { user, epoch },
            AuthenticationEvent::Device(Some(None)),
        ) => next == (Authentication::ReadEpoch { user, epoch }),
        (Authentication::ReadEpoch { user, epoch }, AuthenticationEvent::Epoch(Some(current))) => if current
            == epoch {
            next == Authentication::Done(Ok(user))
        } else {
            next is Done && next->Done_0 is Err && turned_down(next->Done_0->Err_0)
        },
        _ => next is Done && next->Done_0 is Err && turned_down(next->Done_0->Err_0),
    }
}

/// Takes the authentication one step further: the device must be known and not
/// revoked, and the session epoch must be the token's.
pub fn authenticate(doing: Authentication, event: AuthenticationEvent) -> (next: Authentication)
    requires
        authentication_fits(doing, event),
    ensures
        authentication_follows(doing, event, next),
{
    match (doing, event) {
        (
            Authentication::ReadDevice { user, epoch },
            AuthenticationEvent::Device(Some(None)),
        ) => Authentication::ReadEpoch { user, epoch },
        (Authentication::ReadEpoch { user, epoch }, AuthenticationEvent::Epoch(current)) => {
            match auth::check_session_epoch(current, epoch) {
                Ok(()) => Authentication::Done(Ok(user)),
                Err(_) => Authentication::Done(Err(reject())),
            }
        },
        _ => Authentication::Done(Err(reject())),
    }
}

/// A request that bears a token signed under the current secret for a user, a
/// device and an epoch is recognised, while the token has not expired, as coming
/// from them.
pub proof fn law_signed_requests_are_recognised(
    token: Seq<char>,
    secret: Seq<u8>,
    previous_secret: Option<&[u8]>,
    user_id: Uuid,
    device_id: Uuid,
    exp: u64,
    issued: u64,
    epoch: i32,
    first: u64,
    second: u64,
    state: Authentication,
)
    requires
        jwt::access_token_for(token, secret, user_id, device_id, exp, issued, epoch),
        jwt_token::plausible(first),
        first <= exp + 60,
        starts_from(jwt::rotation_result(token, secret, previous_secret, first, second), state),
    ensures
        http::bearer("Bearer "@ + token) == Some(token),
        state == (Authentication::ReadDevice {
            user: AuthenticatedUser { user_id, device_id },
            epoch,
        }),
{
    let header = "Bearer "@ + token;
    assert(header.subrange(0, "Bearer "@.len() as int) =~= "Bearer "@);
    assert(header.skip("Bearer "@.len() as int) =~= token);
    jwt::law_access_token_round_trip(token, secret, user_id, device_id, exp, issued, epoch, first);
}

/// A request is let through exactly if its device is known and not revoked and
/// the session epoch is still that of the token; then for the user and the
/// device that the token names.
pub proof fn law_live_devices_and_sessions_only(
    user_id: Uuid,
    device_id: Uuid,
    epoch: i32,
    device: Option<Option<UtcTime>>,
    current: Option<i32>,
    first: Authentication,
    second: Authentication,
    third: Authentication,
)
    requires
        starts_from(Ok((user_id, device_id, epoch)), first),
        authentication_follows(first, AuthenticationEvent::Device(device), second),
        second is ReadEpoch ==> authentication_follows(
            second,
            AuthenticationEvent::Epoch(current),
            third,
        ),
        second is Done ==> third == second,
    ensures
        third is Done,
        third->Done_0 is Ok <==> device == Some(None::<UtcTime>) && current == Some(epoch),
        third->Done_0 is Ok ==> third->Done_0->Ok_0 == (AuthenticatedUser { user_id, device_id }),
{
}

/// Whatever the reason, a request that is turned down is answered alike.
pub proof fn law_rejections_look_alike(
    doing: Authentication,
    event: AuthenticationEvent,
    next: Authentication,
)
    requires
        authentication_follows(doing, event, next),
        next is Done,
        next->Done_0 is Err,
    ensures
        turned_down(next->Done_0->Err_0),
{
}

/// Nobody gets past the start without a token: what is looked up is the user, the
/// device and the epoch that the token behind `Bearer ` was found to be good for,
/// under the current secret or the previous one. Everything else is answered 401,
/// without a reason.
pub proof fn law_only_good_tokens_start(
    header: Option<&str>,
    secret: &[u8],
    previous_secret: Option<&[u8]>,
    state: Authentication,
)
    requires
        call_ensures(start_authentication, (header, secret, previous_secret), state),
    ensures
        state is ReadDevice || (state is Done && state->Done_0 is Err && state->Done_0->Err_0.says(
            401,
            "authentication failed"@,
        )),
        state is ReadDevice ==> exists|token: Seq<char>, t: u64|
            {
                &&& header is Some
                &&& header->0@ == "Bearer "@ + token
                &&& jwt_token::plausible(t)
                &&& ({
                    let who = Ok::<(Uuid, Uuid, i32), AuthError>(
                        (
                            state->ReadDevice_user.user_id,
                            state->ReadDevice_user.device_id,
                            state->ReadDevice_epoch,
                        ),
                    );
                    ||| jwt::access_result(#[trigger] jwt::access_found(token, secret@, t)) == who
                    ||| previous_secret is Some && jwt::access_result(
                        jwt::access_found(token, previous_secret->0@, t),
                    ) == who
                })
            },
{
    if state is ReadDevice {
        let token = token_of(header)->0;
        let found = choose|found: Result<(Uuid, Uuid, i32), AuthError>|
            #[trigger] jwt::rotation_outcome(token, secret@, previous_secret, found)
                && starts_from(found, state);
        let (first, second) = choose|first: u64, second: u64|
            jwt_token::plausible(first) && jwt_token::plausible(second) && found
                == #[trigger] jwt::rotation_result(
                token,
                secret@,
                previous_secret,
                first,
                second,
            );
        let h = header->0@;
        let n = "Bearer "@.len() as int;
        assert(h =~= "Bearer "@ + token) by {
            assert(h.subrange(0, n) =~= "Bearer "@);
            assert(h.skip(n) =~= token);
        }
        let at_first = jwt::access_result(jwt::access_found(token, secret@, first));
        if at_first is Err {
            let later = jwt::access_found(token, secret@, second);
        }
    }
}

/// A request is let through for the user and the device of its token exactly where
/// the device is known and was not revoked and the user's epoch is the token's.
/// Whatever else the database answers is answered 401, without a reason.
pub proof fn law_steps_of_an_authentication(
    user: AuthenticatedUser,
    epoch: i32,
    device: AuthenticationEvent,
    current: AuthenticationEvent,
    second: Authentication,
    third: Authentication,
)
    requires
        call_ensures(authenticate, (Authentication::ReadDevice { user, epoch }, device), second),
        call_ensures(authenticate, (Authentication::ReadEpoch { user, epoch }, current), third),
    ensures
        second is ReadEpoch <==> device == AuthenticationEvent::Device(Some(None)),
        second is ReadEpoch ==> second == (Authentication::ReadEpoch { user, epoch }),
        !(second is ReadEpoch) ==> second is Done && second->Done_0 is Err
            && second->Done_0->Err_0.says(401, "authentication failed"@),
        third == Authentication::Done(Ok(user)) <==> current == AuthenticationEvent::Epoch(
            Some(epoch),
        ),
        current != AuthenticationEvent::Epoch(Some(epoch)) ==> third is Done
            && third->Done_0 is Err && third->Done_0->Err_0.says(401, "authentication failed"@),
{
}

} // verus!
