//! The devices of a user.

use crate::calendar::UtcTime;
use crate::ids::Uuid;
use vstd::prelude::*;

verus! {

/// A registered device.
#[derive(Debug)]
pub struct DeviceInfo {
    pub device_id: Uuid,
    pub device_name: String,
    pub created_at: UtcTime,
    pub revoked_at: Option<UtcTime>,
}

/// Why a device was not revoked.
#[derive(Debug)]
pub enum DeviceError {
    NotFound,
    NotOwned,
    DatabaseError(String),
}

impl DeviceError {
    /// The error in words.
    pub fn message(&self) -> (s: String)
        ensures
            s@ == (match *self {
                DeviceError::NotFound => "device not found"@,
                DeviceError::NotOwned => "device does not belong to authenticated user"@,
                DeviceError::DatabaseError(e) => "database error: "@ + e@,
            }),
    {
        match self {
            DeviceError::NotFound => "device not found".to_owned(),
            DeviceError::NotOwned => "device does not belong to authenticated user".to_owned(),
            DeviceError::DatabaseError(e) => "database error: ".to_owned().concat(e.as_str()),
        }
    }
}

/// What to do next to revoke a device.
#[derive(Debug)]
pub enum Revocation {
    /// Read whose the device is.
    ReadOwner,
    /// Mark the device revoked, if it is not yet.
    RevokeDevice,
    /// Revoke the refresh tokens of the device that are not yet.
    RevokeTokens,
    Done(Result<(), DeviceError>),
}

/// What the database answered.
#[derive(Debug)]
pub enum RevocationEvent {
    Owner(Option<Uuid>),
    Updated,
    Failed(String),
}

/// That the event answers what was to be done.
pub open spec fn revocation_fits(doing: Revocation, event: RevocationEvent) -> bool {
    match doing {
        Revocation::ReadOwner => event is Owner || event is Failed,
        Revocation::RevokeDevice | Revocation::RevokeTokens => event is Updated || event is Failed,
        Revocation::Done(_) => false,
    }
}

/// What follows `doing` upon the event.
pub open spec fn revocation_next(
    doing: Revocation,
    event: RevocationEvent,
    user_id: Uuid,
) -> Revocation {
    match (doing, event) {
        (_, RevocationEvent::Failed(e)) => Revocation::Done(Err(DeviceError::DatabaseError(e))),
        (Revocation::ReadOwner, RevocationEvent::Owner(None)) => Revocation::Done(
            Err(DeviceError::NotFound),
        ),
        (Revocation::ReadOwner, RevocationEvent::Owner(Some(owner))) => if owner == user_id {
            Revocation::RevokeDevice
        } else {
            Revocation::Done(Err(DeviceError::NotOwned))
        },
        (Revocation::RevokeDevice, RevocationEvent::Updated) => Revocation::RevokeTokens,
        (Revocation::RevokeTokens, RevocationEvent::Updated) => Revocation::Done(Ok(())),
        (doing, _) => doing,
    }
}

/// Takes the revocation of a device one step further. Only its owner may
/// revoke it; its refresh tokens go with it.
pub fn revoke_device(doing: Revocation, event: RevocationEvent, user_id: Uuid) -> (next: Revocation)
    requires
        revocation_fits(doing, event),
    ensures
        next == revocation_next(doing, event, user_id),
{
    match (doing, event) {
        (_, RevocationEvent::Failed(e)) => Revocation::Done(Err(DeviceError::DatabaseError(e))),
        (Revocation::ReadOwner, RevocationEvent::Owner(None)) => Revocation::Done(
            Err(DeviceError::NotFound),
        ),
        (Revocation::ReadOwner, RevocationEvent::Owner(Some(owner))) => if owner == user_id {
            Revocation::RevokeDevice
        } else {
            Revocation::Done(Err(DeviceError::NotOwned))
        },
        (Revocation::RevokeDevice, RevocationEvent::Updated) => Revocation::RevokeTokens,
        (Revocation::RevokeTokens, RevocationEvent::Updated) => Revocation::Done(Ok(())),
        (doing, _) => doing,
    }
}

/// Nothing of a device is changed unless its owner asks for it.
pub proof fn law_only_the_owner_revokes(event: RevocationEvent, user_id: Uuid)
    requires
        revocation_fits(Revocation::ReadOwner, event),
    ensures
        revocation_next(Revocation::ReadOwner, event, user_id) is RevokeDevice <==> event
            == RevocationEvent::Owner(Some(user_id)),
        revocation_next(Revocation::ReadOwner, event, user_id) is RevokeDevice || (
        revocation_next(Revocation::ReadOwner, event, user_id) is Done && revocation_next(
            Revocation::ReadOwner,
            event,
            user_id,
        )->Done_0 is Err),
{
}

/// What to do next, in one transaction, to end every session of a user.
#[derive(Debug)]
pub enum LogoutAll {
    /// Raise the user's session epoch.
    RaiseEpoch,
    /// Revoke the refresh tokens of all devices of the user.
    RevokeTokens { epoch: i32 },
    Commit { epoch: i32 },
    Done(Result<i32, DeviceError>),
}

/// What the database answered.
#[derive(Debug)]
pub enum LogoutEvent {
    Epoch(i32),
    Updated,
    Committed,
    Failed(String),
}

/// That the event answers what was to be done.
pub open spec fn logout_fits(doing: LogoutAll, event: LogoutEvent) -> bool {
    match doing {
        LogoutAll::RaiseEpoch => event is Epoch || event is Failed,
        LogoutAll::RevokeTokens { .. } => event is Updated || event is Failed,
        LogoutAll::Commit { .. } => event is Committed || event is Failed,
        LogoutAll::Done(_) => false,
    }
}

/// What follows `doing` upon the event.
pub open spec fn logout_next(doing: LogoutAll, event: LogoutEvent) -> LogoutAll {
    match (doing, event) {
        (_, LogoutEvent::Failed(e)) => LogoutAll::Done(Err(DeviceError::DatabaseError(e))),
        (LogoutAll::RaiseEpoch, LogoutEvent::Epoch(epoch)) => LogoutAll::RevokeTokens { epoch },
        (LogoutAll::RevokeTokens { epoch }, LogoutEvent::Updated) => LogoutAll::Commit { epoch },
        (LogoutAll::Commit { epoch }, LogoutEvent::Committed) => LogoutAll::Done(Ok(epoch)),
        (doing, _) => doing,
    }
}

/// Takes the end of all sessions one step further. The new epoch comes back.
pub fn logout_all(doing: LogoutAll, event: LogoutEvent) -> (next: LogoutAll)
    requires
        logout_fits(doing, event),
    ensures
        next == logout_next(doing, event),
{
    match (doing, event) {
        (_, LogoutEvent::Failed(e)) => LogoutAll::Done(Err(DeviceError::DatabaseError(e))),
        (LogoutAll::RaiseEpoch, LogoutEvent::Epoch(epoch)) => LogoutAll::RevokeTokens { epoch },
        (LogoutAll::RevokeTokens { epoch }, LogoutEvent::Updated) => LogoutAll::Commit { epoch },
        (LogoutAll::Commit { epoch }, LogoutEvent::Committed) => LogoutAll::Done(Ok(epoch)),
        (doing, _) => doing,
    }
}

/// A device is revoked exactly at the wish of its owner, its refresh tokens go
/// with it, and only then is success the answer. A device that is not known, or
/// somebody else's, is left alone.
pub proof fn law_revoking_takes_the_tokens_too(
    user_id: Uuid,
    owner: Option<Uuid>,
    s1: Revocation,
    s2: Revocation,
    last: Revocation,
    doing: Revocation,
    event: RevocationEvent,
    next: Revocation,
)
    requires
        call_ensures(
            revoke_device,
            (Revocation::ReadOwner, RevocationEvent::Owner(owner), user_id),
            s1,
        ),
        call_ensures(
            revoke_device,
            (Revocation::RevokeDevice, RevocationEvent::Updated, user_id),
            s2,
        ),
        call_ensures(revoke_device, (s2, RevocationEvent::Updated, user_id), last),
        revocation_fits(doing, event),
        call_ensures(revoke_device, (doing, event, user_id), next),
    ensures
        owner == Some(user_id) ==> s1 == Revocation::RevokeDevice,
        owner is None ==> s1 == Revocation::Done(Err(DeviceError::NotFound)),
        owner is Some && owner->0 != user_id ==> s1 == Revocation::Done(
            Err(DeviceError::NotOwned),
        ),
        s2 == Revocation::RevokeTokens,
        last == Revocation::Done(Ok(())),
        next == Revocation::Done(Ok(())) <==> doing == Revocation::RevokeTokens && event
            == RevocationEvent::Updated,
        next == Revocation::RevokeTokens ==> doing == Revocation::RevokeDevice,
        event is Failed ==> next == Revocation::Done(
            Err(DeviceError::DatabaseError(event->Failed_0)),
        ),
{
}

/// Ending every session raises the epoch, revokes the refresh tokens and commits,
/// in this order, and only then answers, with the new epoch.
pub proof fn law_logout_ends_every_session(
    epoch: i32,
    s1: LogoutAll,
    s2: LogoutAll,
    last: LogoutAll,
    doing: LogoutAll,
    event: LogoutEvent,
    next: LogoutAll,
)
    requires
        call_ensures(logout_all, (LogoutAll::RaiseEpoch, LogoutEvent::Epoch(epoch)), s1),
        call_ensures(logout_all, (s1, LogoutEvent::Updated), s2),
        call_ensures(logout_all, (s2, LogoutEvent::Committed), last),
        logout_fits(doing, event),
        call_ensures(logout_all, (doing, event), next),
    ensures
        s1 == (LogoutAll::RevokeTokens { epoch }),
        s2 == (LogoutAll::Commit { epoch }),
        last == LogoutAll::Done(Ok(epoch)),
        next is Done && next->Done_0 is Ok <==> doing is Commit && event
            == LogoutEvent::Committed,
        next is Commit ==> doing is RevokeTokens,
        event is Failed ==> next == LogoutAll::Done(
            Err(DeviceError::DatabaseError(event->Failed_0)),
        ),
{
}

/// Each error is told in its own words.
pub proof fn law_messages_say_what_is_wrong(e: &DeviceError, s: String)
    requires
        call_ensures(DeviceError::message, (e,), s),
    ensures
        *e is NotFound ==> s@ == "device not found"@,
        *e is NotOwned ==> s@ == "device does not belong to authenticated user"@,
        *e is DatabaseError ==> s@ == "database error: "@ + e->DatabaseError_0@,
{
}

} // verus!
