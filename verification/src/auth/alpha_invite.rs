//! Invites to the closed alpha. Of a code only the hash is kept.

use crate::calendar::UtcTime;
use crate::crypto;
use crate::ids::Uuid;
use crate::redaction::Sensitive;
use crate::text;
use vstd::prelude::*;

verus! {

/// What is hashed in front of every code.
pub const HASH_DOMAIN: &'static str = "alpha-invite:v1:";

/// The number of random bytes in a code.
pub const GENERATED_CODE_BYTES: usize = 16;

/// The longest label, in characters.
pub const MAX_LABEL_CHARS: usize = 100;

/// Why a code was not redeemed.
#[derive(Debug, PartialEq, Eq)]
pub enum AlphaInviteError {
    Invalid,
    DatabaseError(String),
}

impl AlphaInviteError {
    /// The error in words.
    pub fn message(&self) -> (s: String)
        ensures
            s@ == (match *self {
                AlphaInviteError::Invalid => "invite code invalid"@,
                AlphaInviteError::DatabaseError(e) => "database error: "@ + e@,
            }),
    {
        match self {
            AlphaInviteError::Invalid => "invite code invalid".to_owned(),
            AlphaInviteError::DatabaseError(e) => "database error: ".to_owned().concat(e.as_str()),
        }
    }
}

/// Why an operator's request was refused.
#[derive(Debug, PartialEq, Eq)]
pub enum AlphaInviteAdminError {
    InvalidLabel,
    InvalidExpiry,
    InvalidMaxRedemptions,
    PepperTooShort,
    CodeGenerationFailed,
    NotFound,
    DatabaseError(String),
}

impl AlphaInviteAdminError {
    /// The error in words.
    pub open spec fn text(self) -> Seq<char> {
        match self {
            AlphaInviteAdminError::InvalidLabel =>
            "invite label must contain 1 to 100 characters and no control characters"@,
            AlphaInviteAdminError::InvalidExpiry => "invite expiry must be in the future"@,
            AlphaInviteAdminError::InvalidMaxRedemptions => "maximum redemptions must be positive"@,
            AlphaInviteAdminError::PepperTooShort => "invite pepper must be at least 32 bytes"@,
            AlphaInviteAdminError::CodeGenerationFailed =>
            "generated invite code could not be hashed"@,
            AlphaInviteAdminError::NotFound => "invite not found"@,
            AlphaInviteAdminError::DatabaseError(e) => "database operation failed: "@ + e@,
        }
    }

    /// The error in words.
    pub fn message(&self) -> (s: String)
        ensures
            s@ == self.text(),
    {
        match self {
            AlphaInviteAdminError::InvalidLabel =>
            "invite label must contain 1 to 100 characters and no control characters".to_owned(),
            AlphaInviteAdminError::InvalidExpiry => "invite expiry must be in the future".to_owned(),
            AlphaInviteAdminError::InvalidMaxRedemptions =>
            "maximum redemptions must be positive".to_owned(),
            AlphaInviteAdminError::PepperTooShort =>
            "invite pepper must be at least 32 bytes".to_owned(),
            AlphaInviteAdminError::CodeGenerationFailed =>
            "generated invite code could not be hashed".to_owned(),
            AlphaInviteAdminError::NotFound => "invite not found".to_owned(),
            AlphaInviteAdminError::DatabaseError(e) => "database operation failed: ".to_owned().concat(
                e.as_str(),
            ),
        }
    }
}

/// The status of an invite.
#[derive(Debug, Clone, Copy, PartialEq, Eq, Structural)]
pub enum AlphaInviteStatus {
    Active,
    Disabled,
    Expired,
    Exhausted,
}

impl AlphaInviteStatus {
    /// The name of the status.
    pub open spec fn name(self) -> Seq<char> {
        match self {
            AlphaInviteStatus::Active => "active"@,
            AlphaInviteStatus::Disabled => "disabled"@,
            AlphaInviteStatus::Expired => "expired"@,
            AlphaInviteStatus::Exhausted => "exhausted"@,
        }
    }

    /// The name of the status.
    pub fn as_str(self) -> (s: &'static str)
        ensures
            s@ == self.name(),
    {
        match self {
            AlphaInviteStatus::Active => "active",
            AlphaInviteStatus::Disabled => "disabled",
            AlphaInviteStatus::Expired => "expired",
            AlphaInviteStatus::Exhausted => "exhausted",
        }
    }
}

/// An invite as operators see it.
#[derive(Debug)]
pub struct AlphaInviteAdminRecord {
    pub invite_id: Uuid,
    pub label: Option<String>,
    pub created_at: UtcTime,
    pub expires_at: Option<UtcTime>,
    pub disabled_at: Option<UtcTime>,
    pub max_redemptions: i32,
    pub redemption_count: i32,
}

/// The status of an invite at a time: disabled before expired, expired before
/// exhausted.
pub open spec fn status(
    expires_at: Option<UtcTime>,
    disabled_at: Option<UtcTime>,
    max_redemptions: i32,
    redemption_count: i32,
    now: UtcTime,
) -> AlphaInviteStatus {
    if disabled_at is Some {
        AlphaInviteStatus::Disabled
    } else if expires_at is Some && now@ >= expires_at->0@ {
        AlphaInviteStatus::Expired
    } else if redemption_count >= max_redemptions {
        AlphaInviteStatus::Exhausted
    } else {
        AlphaInviteStatus::Active
    }
}

fn status_of(
    expires_at: Option<UtcTime>,
    disabled_at: Option<UtcTime>,
    max_redemptions: i32,
    redemption_count: i32,
    now: UtcTime,
) -> (s: AlphaInviteStatus)
    ensures
        s == status(expires_at, disabled_at, max_redemptions, redemption_count, now),
{
    if disabled_at.is_some() {
        return AlphaInviteStatus::Disabled;
    }
    if let Some(t) = expires_at {
        if !now.before(t) {
            return AlphaInviteStatus::Expired;
        }
    }
    if redemption_count >= max_redemptions {
        AlphaInviteStatus::Exhausted
    } else {
        AlphaInviteStatus::Active
    }
}

impl AlphaInviteAdminRecord {
    /// The status of the invite at a time.
    pub fn status_at(&self, now: UtcTime) -> (s: AlphaInviteStatus)
        ensures
            s == status(
                self.expires_at,
                self.disabled_at,
                self.max_redemptions,
                self.redemption_count,
                now,
            ),
    {
        status_of(
            self.expires_at,
            self.disabled_at,
            self.max_redemptions,
            self.redemption_count,
            now,
        )
    }

    /// How often the invite can still be redeemed, in 32 bits.
    pub open spec fn remaining(&self) -> i32 {
        let n = self.max_redemptions - self.redemption_count;
        if n > i32::MAX {
            i32::MAX
        } else if n < i32::MIN {
            i32::MIN
        } else {
            n as i32
        }
    }

    /// How often the invite can still be redeemed.
    pub fn remaining_redemptions(&self) -> (n: i32)
        ensures
            n == self.remaining(),
    {
        let n: i64 = self.max_redemptions as i64 - self.redemption_count as i64;
        if n > i32::MAX as i64 {
            i32::MAX
        } else if n < i32::MIN as i64 {
            i32::MIN
        } else {
            n as i32
        }
    }
}

/// An invite that was just made, with its code.
pub struct CreatedAlphaInvite {
    pub invite: AlphaInviteAdminRecord,
    pub raw_code: Sensitive<String>,
}

/// Whether a text may be a label: one to a hundred characters, none of them a
/// control character.
pub open spec fn is_label(s: Seq<char>) -> bool {
    &&& 1 <= s.len() <= MAX_LABEL_CHARS
    &&& forall|i: int| 0 <= i < s.len() ==> !text::control(#[trigger] s[i])
}

/// The label without white space at its ends, if it may be one.
pub fn validate_alpha_invite_label(label: &str) -> (r: Result<String, AlphaInviteAdminError>)
    ensures
        match r {
            Ok(l) => is_label(text::trimmed(label@)) && l@ == text::trimmed(label@),
            Err(e) => !is_label(text::trimmed(label@)) && e == AlphaInviteAdminError::InvalidLabel,
        },
{
    let trimmed = text::trim(label);
    let cs = text::chars_of(trimmed);
    if cs.len() == 0 || cs.len() > MAX_LABEL_CHARS {
        return Err(AlphaInviteAdminError::InvalidLabel);
    }
    let mut i: usize = 0;
    while i < cs.len()
        invariant
            i <= cs@.len(),
            cs@ == text::trimmed(label@),
            forall|j: int| 0 <= j < i ==> !text::control(#[trigger] cs@[j]),
        decreases cs@.len() - i,
    {
        if text::is_control(cs[i]) {
            return Err(AlphaInviteAdminError::InvalidLabel);
        }
        i = i + 1;
    }
    Ok(trimmed.to_owned())
}

/// A text with a hyphen after every four characters but the last.
pub open spec fn grouped(s: Seq<char>) -> Seq<char>
    decreases s.len(),
{
    if s.len() == 0 {
        s
    } else {
        let before = grouped(s.drop_last());
        if s.len() > 1 && (s.len() - 1) % 4 == 0 {
            before.push('-').push(s.last())
        } else {
            before.push(s.last())
        }
    }
}

/// Whether a code is one that may be generated: the upper-case hexadecimal
/// digits of random bytes, in groups of four.
pub open spec fn is_generated_code(code: Seq<char>) -> bool {
    exists|bytes: Seq<u8>|
        bytes.len() == GENERATED_CODE_BYTES && code == grouped(
            #[trigger] crypto::hex_text(bytes, 'A'),
        )
}

/// The code of the bytes: their upper-case hexadecimal digits in groups of four.
pub fn alpha_code_from(bytes: &[u8]) -> (code: String)
    ensures
        code@ == grouped(crypto::hex_text(bytes@, 'A')),
{
    let encoded = text::chars_of(crypto::hex_upper(bytes).as_str());
    let mut code = String::new();
    let mut i: usize = 0;
    assert(code@ =~= grouped(encoded@.take(0)));
    while i < encoded.len()
        invariant
            i <= encoded@.len(),
            code@ == grouped(encoded@.take(i as int)),
        decreases encoded@.len() - i,
    {
        assert(encoded@.take(i as int + 1).drop_last() =~= encoded@.take(i as int));
        if i > 0 && i % 4 == 0 {
            code.push('-');
        }
        code.push(encoded[i]);
        i = i + 1;
    }
    assert(encoded@.take(i as int) =~= encoded@);
    code
}

/// A random code of 128 bits.
pub fn generate_raw_alpha_invite_code() -> (code: String)
    ensures
        is_generated_code(code@),
{
    let bytes = crypto::random_bytes(GENERATED_CODE_BYTES);
    alpha_code_from(bytes.as_slice())
}

/// Why an invite is not made, if so: the label, the number of redemptions, the
/// expiry, the length of the pepper.
pub open spec fn create_fault(
    label: Seq<char>,
    expires_at: Option<UtcTime>,
    max_redemptions: i32,
    pepper_length: nat,
    now: UtcTime,
) -> Option<AlphaInviteAdminError> {
    if !is_label(text::trimmed(label)) {
        Some(AlphaInviteAdminError::InvalidLabel)
    } else if max_redemptions <= 0 {
        Some(AlphaInviteAdminError::InvalidMaxRedemptions)
    } else if expires_at is Some && expires_at->0@ <= now@ {
        Some(AlphaInviteAdminError::InvalidExpiry)
    } else if pepper_length < 32 {
        Some(AlphaInviteAdminError::PepperTooShort)
    } else {
        None
    }
}

/// The label of an invite that may be made.
pub fn validate_create_options(
    label: &str,
    expires_at: Option<UtcTime>,
    max_redemptions: i32,
    pepper_length: usize,
    now: UtcTime,
) -> (r: Result<String, AlphaInviteAdminError>)
    ensures
        match r {
            Ok(l) => create_fault(label@, expires_at, max_redemptions, pepper_length as nat, now)
                is None && l@ == text::trimmed(label@),
            Err(e) => create_fault(label@, expires_at, max_redemptions, pepper_length as nat, now)
                == Some(e),
        },
{
    let label = match validate_alpha_invite_label(label) {
        Ok(l) => l,
        Err(e) => {
            return Err(e);
        },
    };
    if max_redemptions <= 0 {
        return Err(AlphaInviteAdminError::InvalidMaxRedemptions);
    }
    if let Some(t) = expires_at {
        if !now.before(t) {
            return Err(AlphaInviteAdminError::InvalidExpiry);
        }
    }
    if pepper_length < 32 {
        return Err(AlphaInviteAdminError::PepperTooShort);
    }
    Ok(label)
}

/// Whether a character of a code counts.
pub open spec fn counts(c: char) -> bool {
    !text::ascii_white_space(c) && c != '-'
}

/// The characters of a code that count, in upper case.
pub open spec fn squeezed(s: Seq<char>) -> Seq<char>
    decreases s.len(),
{
    if s.len() == 0 {
        s
    } else {
        let before = squeezed(s.drop_last());
        if counts(s.last()) {
            before.push(text::ascii_upper(s.last()))
        } else {
            before
        }
    }
}

/// The normal form of a code: without white space and hyphens, in upper case.
pub open spec fn normalized(code: Seq<char>) -> Seq<char> {
    squeezed(text::trimmed(code))
}

/// The normal form of a code. One of which nothing is left is refused.
pub fn normalize_invite_code(code: &str) -> (r: Result<String, AlphaInviteError>)
    ensures
        match r {
            Ok(n) => n@ == normalized(code@) && n@.len() > 0,
            Err(e) => normalized(code@).len() == 0 && e == AlphaInviteError::Invalid,
        },
{
    let cs = text::chars_of(text::trim(code));
    let mut n = String::new();
    let mut i: usize = 0;
    assert(n@ =~= squeezed(cs@.take(0)));
    while i < cs.len()
        invariant
            i <= cs@.len(),
            n@ == squeezed(cs@.take(i as int)),
        decreases cs@.len() - i,
    {
        assert(cs@.take(i as int + 1).drop_last() =~= cs@.take(i as int));
        let c = cs[i];
        if !text::is_ascii_white_space(c) && c != '-' {
            n.push(text::to_ascii_upper(c));
        }
        i = i + 1;
    }
    assert(cs@.take(i as int) =~= cs@);
    if n.as_str().is_empty() {
        return Err(AlphaInviteError::Invalid);
    }
    Ok(n)
}

/// The hash under which a code is kept.
pub open spec fn code_hash(code: Seq<char>, pepper: Seq<u8>) -> Seq<u8> {
    crypto::hmac_sha256(pepper, text::utf8(HASH_DOMAIN@) + text::utf8(normalized(code)))
}

/// The hash under which a code is kept, if anything of the code is left in its
/// normal form.
pub fn hash_invite_code(code: &str, pepper: &[u8]) -> (r: Result<Vec<u8>, AlphaInviteError>)
    ensures
        match r {
            Ok(h) => normalized(code@).len() > 0 && h@ == code_hash(code@, pepper@) && h@.len() == 32,
            Err(e) => normalized(code@).len() == 0 && e == AlphaInviteError::Invalid,
        },
{
    let n = match normalize_invite_code(code) {
        Ok(n) => n,
        Err(e) => {
            return Err(e);
        },
    };
    let mut message: Vec<u8> = Vec::new();
    message.extend_from_slice(HASH_DOMAIN.as_bytes());
    message.extend_from_slice(n.as_str().as_bytes());
    assert(message@ =~= text::utf8(HASH_DOMAIN@) + text::utf8(n@));
    Ok(crypto::hmac_tag(pepper, message.as_slice()))
}

/// An invite that may be stored.
pub struct PreparedAlphaInvite {
    pub label: String,
    pub raw_code: Sensitive<String>,
    pub code_hash: Vec<u8>,
}

/// Makes a code for an invite that may be made.
pub fn create_alpha_invite(
    label: &str,
    expires_at: Option<UtcTime>,
    max_redemptions: i32,
    pepper: &Sensitive<Vec<u8>>,
    now: UtcTime,
) -> (r: Result<PreparedAlphaInvite, AlphaInviteAdminError>)
    ensures
        match r {
            Ok(p) => {
                &&& create_fault(label@, expires_at, max_redemptions, pepper.0@.len(), now) is None
                &&& p.label@ == text::trimmed(label@)
                &&& is_generated_code(p.raw_code.0@)
                &&& p.code_hash@ == code_hash(p.raw_code.0@, pepper.0@)
            },
            Err(e) => create_fault(label@, expires_at, max_redemptions, pepper.0@.len(), now)
                == Some(e),
        },
{
    let label = match validate_create_options(
        label,
        expires_at,
        max_redemptions,
        pepper.inner().len(),
        now,
    ) {
        Ok(l) => l,
        Err(e) => {
            return Err(e);
        },
    };
    let raw_code = generate_raw_alpha_invite_code();
    proof {
        let bytes = choose|bytes: Seq<u8>|
            bytes.len() == GENERATED_CODE_BYTES && raw_code@ == grouped(
                #[trigger] crypto::hex_text(bytes, 'A'),
            );
        law_generated_code_keeps_its_digits(bytes);
    }
    match hash_invite_code(raw_code.as_str(), pepper.inner().as_slice()) {
        Ok(code_hash) => Ok(PreparedAlphaInvite { label, raw_code: Sensitive(raw_code), code_hash }),
        Err(_) => Err(AlphaInviteAdminError::CodeGenerationFailed),
    }
}

/// The label by which invites are listed, if one was given: it must be one that
/// an invite can have.
pub fn list_alpha_invites(label: Option<&str>) -> (r: Result<
    Option<String>,
    AlphaInviteAdminError,
>)
    ensures
        match label {
            None => r == Ok::<Option<String>, AlphaInviteAdminError>(None),
            Some(l) => if is_label(text::trimmed(l@)) {
                r is Ok && r->Ok_0 is Some && r->Ok_0->0@ == text::trimmed(l@)
            } else {
                r == Err::<Option<String>, AlphaInviteAdminError>(
                    AlphaInviteAdminError::InvalidLabel,
                )
            },
        },
{
    match label {
        None => Ok(None),
        Some(l) => match validate_alpha_invite_label(l) {
            Ok(l) => Ok(Some(l)),
            Err(e) => Err(e),
        },
    }
}

/// The invite with the id that was to be disabled, if it is known.
pub fn disable_alpha_invite(found: Option<AlphaInviteAdminRecord>) -> (r: Result<
    AlphaInviteAdminRecord,
    AlphaInviteAdminError,
>)
    ensures
        r == (match found {
            Some(invite) => Ok::<AlphaInviteAdminRecord, AlphaInviteAdminError>(invite),
            None => Err(AlphaInviteAdminError::NotFound),
        }),
{
    match found {
        Some(invite) => Ok(invite),
        None => Err(AlphaInviteAdminError::NotFound),
    }
}

/// An invite as it is read for a redemption.
#[derive(Debug, Clone, Copy)]
pub struct StoredAlphaInvite {
    pub invite_id: Uuid,
    pub expires_at: Option<UtcTime>,
    pub disabled_at: Option<UtcTime>,
    pub max_redemptions: i32,
    pub redemption_count: i32,
}

/// What to do next, in one transaction, to redeem a code.
#[derive(Debug)]
pub enum AlphaRedemption {
    /// Read the invite with that hash, and lock it.
    Find { code_hash: Vec<u8> },
    /// Raise its number of redemptions by one.
    Count { invite_id: Uuid },
    Done(Result<Uuid, AlphaInviteError>),
}

/// What the database answered.
#[derive(Debug)]
pub enum AlphaRedemptionEvent {
    /// The invite, if there is one, and the time.
    Found(Option<StoredAlphaInvite>, UtcTime),
    Counted,
    Failed(String),
}

/// What to do first to redeem a code.
pub fn start_redemption(code: &str, pepper: &[u8]) -> (state: AlphaRedemption)
    ensures
        if normalized(code@).len() > 0 {
            state is Find && state->code_hash@ == code_hash(code@, pepper@)
        } else {
            state == AlphaRedemption::Done(Err(AlphaInviteError::Invalid))
        },
{
    match hash_invite_code(code, pepper) {
        Ok(code_hash) => AlphaRedemption::Find { code_hash },
        Err(e) => AlphaRedemption::Done(Err(e)),
    }
}

/// That the event answers what was to be done.
pub open spec fn redemption_fits(doing: AlphaRedemption, event: AlphaRedemptionEvent) -> bool {
    match doing {
        AlphaRedemption::Find { .. } => event is Found || event is Failed,
        AlphaRedemption::Count { .. } => event is Counted || event is Failed,
        AlphaRedemption::Done(_) => false,
    }
}

/// What follows `doing` upon the event.
pub open spec fn redemption_next(
    doing: AlphaRedemption,
    event: AlphaRedemptionEvent,
) -> AlphaRedemption {
    match (doing, event) {
        (_, AlphaRedemptionEvent::Failed(e)) => AlphaRedemption::Done(
            Err(AlphaInviteError::DatabaseError(e)),
        ),
        (AlphaRedemption::Find { .. }, AlphaRedemptionEvent::Found(Some(i), now)) => if status(
            i.expires_at,
            i.disabled_at,
            i.max_redemptions,
            i.redemption_count,
            now,
        ) == AlphaInviteStatus::Active {
            AlphaRedemption::Count { invite_id: i.invite_id }
        } else {
            AlphaRedemption::Done(Err(AlphaInviteError::Invalid))
        },
        (AlphaRedemption::Find { .. }, AlphaRedemptionEvent::Found(None, _)) =>
        AlphaRedemption::Done(Err(AlphaInviteError::Invalid)),
        (AlphaRedemption::Count { invite_id }, AlphaRedemptionEvent::Counted) =>
        AlphaRedemption::Done(Ok(invite_id)),
        (doing, _) => doing,
    }
}

/// Takes the redemption of a code one step further. A code that is unknown,
/// disabled, expired or used up is refused alike.
pub fn redeem_alpha_invite(doing: AlphaRedemption, event: AlphaRedemptionEvent) -> (next:
    AlphaRedemption)
    requires
        redemption_fits(doing, event),
    ensures
        next == redemption_next(doing, event),
{
    match (doing, event) {
        (_, AlphaRedemptionEvent::Failed(e)) => AlphaRedemption::Done(
            Err(AlphaInviteError::DatabaseError(e)),
        ),
        (AlphaRedemption::Find { .. }, AlphaRedemptionEvent::Found(Some(i), now)) => {
            if status_of(
                i.expires_at,
                i.disabled_at,
                i.max_redemptions,
                i.redemption_count,
                now,
            ) == AlphaInviteStatus::Active {
                AlphaRedemption::Count { invite_id: i.invite_id }
            } else {
                AlphaRedemption::Done(Err(AlphaInviteError::Invalid))
            }
        },
        (AlphaRedemption::Find { .. }, AlphaRedemptionEvent::Found(None, _)) =>
        AlphaRedemption::Done(Err(AlphaInviteError::Invalid)),
        (AlphaRedemption::Count { invite_id }, AlphaRedemptionEvent::Counted) =>
        AlphaRedemption::Done(Ok(invite_id)),
        (doing, _) => doing,
    }
}

/// A redemption is counted exactly if the invite is active, so no invite is
/// redeemed more often than it may be.
pub proof fn law_only_active_invites_are_redeemed(
    hash: Vec<u8>,
    invite: StoredAlphaInvite,
    now: UtcTime,
)
    ensures
        ({
            let next = redemption_next(
                AlphaRedemption::Find { code_hash: hash },
                AlphaRedemptionEvent::Found(Some(invite), now),
            );
            &&& next is Count <==> status(
                invite.expires_at,
                invite.disabled_at,
                invite.max_redemptions,
                invite.redemption_count,
                now,
            ) == AlphaInviteStatus::Active
            &&& next is Count ==> next->invite_id == invite.invite_id && invite.redemption_count + 1
                <= invite.max_redemptions
        }),
{
}

/// A disabled invite is disabled, whatever else holds of it; of the others one
/// that has expired is expired; and only one that is neither can be used up.
pub proof fn law_status_precedence(
    expires_at: Option<UtcTime>,
    disabled_at: Option<UtcTime>,
    max_redemptions: i32,
    redemption_count: i32,
    now: UtcTime,
)
    ensures
        ({
            let s = status(expires_at, disabled_at, max_redemptions, redemption_count, now);
            let expired = expires_at is Some && now@ >= expires_at->0@;
            let used_up = redemption_count >= max_redemptions;
            &&& s == AlphaInviteStatus::Disabled <==> disabled_at is Some
            &&& s == AlphaInviteStatus::Expired <==> disabled_at is None && expired
            &&& s == AlphaInviteStatus::Exhausted <==> disabled_at is None && !expired && used_up
            &&& s == AlphaInviteStatus::Active <==> disabled_at is None && !expired && !used_up
        }),
{
}

/// Codes with the same normal form have the same hash.
pub proof fn law_spelling_does_not_matter(a: Seq<char>, b: Seq<char>, pepper: Seq<u8>)
    requires
        normalized(a) == normalized(b),
    ensures
        code_hash(a, pepper) == code_hash(b, pepper),
{
}

proof fn lemma_squeeze_push(s: Seq<char>, c: char)
    ensures
        squeezed(s.push(c)) == if counts(c) {
            squeezed(s).push(text::ascii_upper(c))
        } else {
            squeezed(s)
        },
{
    assert(s.push(c).drop_last() =~= s);
}

/// A hyphen or white space of ASCII anywhere inside a code changes nothing.
pub proof fn law_separators_do_not_count(a: Seq<char>, sep: char, b: Seq<char>)
    requires
        !counts(sep),
    ensures
        squeezed(a.push(sep) + b) == squeezed(a + b),
    decreases b.len(),
{
    if b.len() == 0 {
        assert(a.push(sep) + b =~= a.push(sep));
        assert(a + b =~= a);
        lemma_squeeze_push(a, sep);
    } else {
        let rest = b.drop_last();
        law_separators_do_not_count(a, sep, rest);
        assert(a.push(sep) + b =~= (a.push(sep) + rest).push(b.last()));
        assert(a + b =~= (a + rest).push(b.last()));
        lemma_squeeze_push(a.push(sep) + rest, b.last());
        lemma_squeeze_push(a + rest, b.last());
    }
}

/// Whether all characters are upper-case hexadecimal digits.
pub open spec fn upper_hex(s: Seq<char>) -> bool {
    forall|i: int| 0 <= i < s.len() ==> '0' <= #[trigger] s[i] <= '9' || 'A' <= s[i] <= 'F'
}

proof fn lemma_grouping_is_squeezed_out(s: Seq<char>)
    requires
        upper_hex(s),
    ensures
        squeezed(grouped(s)) == s,
        s.len() > 0 ==> grouped(s).len() > 0 && grouped(s)[0] == s[0] && grouped(s).last()
            == s.last(),
    decreases s.len(),
{
    if s.len() > 0 {
        let rest = s.drop_last();
        assert forall|i: int| 0 <= i < rest.len() implies '0' <= #[trigger] rest[i] <= '9' || 'A'
            <= rest[i] <= 'F' by {
            assert(rest[i] == s[i]);
        }
        lemma_grouping_is_squeezed_out(rest);
        assert('0' <= s[s.len() - 1] <= '9' || 'A' <= s[s.len() - 1] <= 'F');
        let before = grouped(rest);
        if s.len() > 1 && (s.len() - 1) % 4 == 0 {
            lemma_squeeze_push(before, '-');
            lemma_squeeze_push(before.push('-'), s.last());
        } else {
            lemma_squeeze_push(before, s.last());
        }
        assert(rest.push(s.last()) =~= s);
    }
}

proof fn lemma_hex_upper_digits(bytes: Seq<u8>)
    ensures
        upper_hex(crypto::hex_text(bytes, 'A')),
{
}

/// A generated code keeps all its digits in its normal form, so nothing of its
/// randomness is lost.
pub proof fn law_generated_code_keeps_its_digits(bytes: Seq<u8>)
    requires
        bytes.len() > 0,
    ensures
        normalized(grouped(crypto::hex_text(bytes, 'A'))) == crypto::hex_text(bytes, 'A'),
        normalized(grouped(crypto::hex_text(bytes, 'A'))).len() == 2 * bytes.len(),
{
    let digits = crypto::hex_text(bytes, 'A');
    lemma_hex_upper_digits(bytes);
    lemma_grouping_is_squeezed_out(digits);
    let code = grouped(digits);
    assert(!text::white_space(code[0]));
    assert(!text::white_space(code.last()));
    assert(text::skip_white(code) == code);
    assert(text::trimmed(code) == code);
}

/// An invite from its making to its redemption. It is made exactly for a label of
/// 1 to 100 characters without control characters, a positive number of
/// redemptions, an expiry in the future, if any, and a pepper of 32 bytes. What is
/// stored in place of the code is what its redemption looks up, however the code
/// is spelled.
pub proof fn law_invite_from_making_to_redemption(
    label: &str,
    expires_at: Option<UtcTime>,
    max_redemptions: i32,
    pepper: &Sensitive<Vec<u8>>,
    key: &[u8],
    now: UtcTime,
    made: Result<PreparedAlphaInvite, AlphaInviteAdminError>,
    typed: &str,
    state: AlphaRedemption,
)
    requires
        call_ensures(
            create_alpha_invite,
            (label, expires_at, max_redemptions, pepper, now),
            made,
        ),
        key@ == pepper.0@,
        call_ensures(start_redemption, (typed, key), state),
    ensures
        made is Ok <==> {
            &&& 1 <= text::trimmed(label@).len() <= 100
            &&& forall|i: int|
                0 <= i < text::trimmed(label@).len() ==> !text::control(
                    #[trigger] text::trimmed(label@)[i],
                )
            &&& max_redemptions > 0
            &&& expires_at is None || now@ < expires_at->0@
            &&& pepper.0@.len() >= 32
        },
        made is Ok ==> made->Ok_0.label@ == text::trimmed(label@),
        made is Ok && normalized(typed@) == normalized(made->Ok_0.raw_code.0@) ==> {
            &&& state is Find
            &&& state->code_hash@ == made->Ok_0.code_hash@
        },
        state is Find ==> state->code_hash@ == crypto::hmac_sha256(
            key@,
            text::utf8("alpha-invite:v1:"@) + text::utf8(normalized(typed@)),
        ),
        !(state is Find) ==> normalized(typed@).len() == 0 && state == AlphaRedemption::Done(
            Err(AlphaInviteError::Invalid),
        ),
{
    if made is Ok {
        let code = made->Ok_0.raw_code.0@;
        let bytes = choose|bytes: Seq<u8>|
            bytes.len() == GENERATED_CODE_BYTES && code == grouped(
                #[trigger] crypto::hex_text(bytes, 'A'),
            );
        law_generated_code_keeps_its_digits(bytes);
    }
}

/// A code is redeemed exactly where its invite is known, not disabled, not
/// expired and not used up, and it counts before that is answered. A code that is
/// refused is refused alike, whatever the reason, and counts nothing.
pub proof fn law_redemptions_count(
    code_hash: Vec<u8>,
    found: Option<StoredAlphaInvite>,
    now: UtcTime,
    second: AlphaRedemption,
    doing: AlphaRedemption,
    event: AlphaRedemptionEvent,
    next: AlphaRedemption,
)
    requires
        call_ensures(
            redeem_alpha_invite,
            (AlphaRedemption::Find { code_hash }, AlphaRedemptionEvent::Found(found, now)),
            second,
        ),
        redemption_fits(doing, event),
        call_ensures(redeem_alpha_invite, (doing, event), next),
    ensures
        ({
            let i = found->0;
            second == if found is Some && i.disabled_at is None && (i.expires_at is None || now@
                < i.expires_at->0@) && i.redemption_count < i.max_redemptions {
                AlphaRedemption::Count { invite_id: i.invite_id }
            } else {
                AlphaRedemption::Done(Err(AlphaInviteError::Invalid))
            }
        }),
        next is Done && next->Done_0 is Ok <==> doing is Count && event
            == AlphaRedemptionEvent::Counted,
        doing is Count && event == AlphaRedemptionEvent::Counted ==> next
            == AlphaRedemption::Done(Ok(doing->invite_id)),
        event is Failed ==> next == AlphaRedemption::Done(
            Err(AlphaInviteError::DatabaseError(event->Failed_0)),
        ),
{
}

/// What an invite is shown as: its status follows from the times and the counts,
/// and the redemptions left with those made are those that it may have.
pub proof fn law_what_operators_see(
    record: &AlphaInviteAdminRecord,
    now: UtcTime,
    s: AlphaInviteStatus,
    left: i32,
)
    requires
        call_ensures(AlphaInviteAdminRecord::status_at, (record, now), s),
        call_ensures(AlphaInviteAdminRecord::remaining_redemptions, (record,), left),
    ensures
        s == AlphaInviteStatus::Disabled <==> record.disabled_at is Some,
        s == AlphaInviteStatus::Active ==> left > 0 && record.disabled_at is None,
        s == AlphaInviteStatus::Active <==> record.disabled_at is None && (
        record.expires_at is None || now@ < record.expires_at->0@) && record.redemption_count
            < record.max_redemptions,
        s == AlphaInviteStatus::Expired <==> record.disabled_at is None && record.expires_at is Some
            && record.expires_at->0@ <= now@,
        i32::MIN <= record.max_redemptions - record.redemption_count <= i32::MAX ==> left
            + record.redemption_count == record.max_redemptions,
{
}

/// The normal form holds no white space of ASCII, no hyphen and no lower-case
/// letter of ASCII.
pub proof fn law_normal_form_is_plain(code: Seq<char>)
    ensures
        forall|i: int|
            0 <= i < normalized(code).len() ==> {
                &&& (#[trigger] normalized(code)[i]) != '-'
                &&& normalized(code)[i] != ' '
                &&& !('a' <= normalized(code)[i] <= 'z')
            },
{
    lemma_squeezed_is_plain(text::trimmed(code));
}

proof fn lemma_squeezed_is_plain(s: Seq<char>)
    ensures
        forall|i: int|
            0 <= i < squeezed(s).len() ==> {
                &&& (#[trigger] squeezed(s)[i]) != '-'
                &&& squeezed(s)[i] != ' '
                &&& !('a' <= squeezed(s)[i] <= 'z')
            },
    decreases s.len(),
{
    if s.len() > 0 {
        let rest = squeezed(s.drop_last());
        lemma_squeezed_is_plain(s.drop_last());
        assert forall|i: int| 0 <= i < squeezed(s).len() implies {
            &&& (#[trigger] squeezed(s)[i]) != '-'
            &&& squeezed(s)[i] != ' '
            &&& !('a' <= squeezed(s)[i] <= 'z')
        } by {
            if i < rest.len() {
                assert(squeezed(s)[i] == rest[i]);
            } else {
                let c = s.last();
                assert(squeezed(s)[i] == text::ascii_upper(c));
                assert(c != '-' && c != ' ');
            }
        }
    }
}

/// Each error is told in its own words.
pub proof fn law_messages_say_what_is_wrong(
    e: &AlphaInviteError,
    s: String,
    a: &AlphaInviteAdminError,
    t: String,
)
    requires
        call_ensures(AlphaInviteError::message, (e,), s),
        call_ensures(AlphaInviteAdminError::message, (a,), t),
    ensures
        *e is Invalid ==> s@ == "invite code invalid"@,
        *e is DatabaseError ==> s@ == "database error: "@ + e->DatabaseError_0@,
        *a is InvalidLabel ==> t@
            == "invite label must contain 1 to 100 characters and no control characters"@,
        *a is InvalidExpiry ==> t@ == "invite expiry must be in the future"@,
        *a is InvalidMaxRedemptions ==> t@ == "maximum redemptions must be positive"@,
        *a is PepperTooShort ==> t@ == "invite pepper must be at least 32 bytes"@,
        *a is CodeGenerationFailed ==> t@ == "generated invite code could not be hashed"@,
        *a is NotFound ==> t@ == "invite not found"@,
        *a is DatabaseError ==> t@ == "database operation failed: "@ + a->DatabaseError_0@,
{
}

/// An invite is made exactly where its label has one to a hundred characters, none of
/// them a control character, it can be redeemed at least once, it expires in the
/// future, if it does, and the pepper is long enough. The label loses the white space
/// at its ends.
pub proof fn law_why_invites_are_not_made(
    label: &str,
    expires_at: Option<UtcTime>,
    max_redemptions: i32,
    pepper_length: usize,
    now: UtcTime,
    r: Result<String, AlphaInviteAdminError>,
    listed: Result<Option<String>, AlphaInviteAdminError>,
)
    requires
        call_ensures(
            validate_create_options,
            (label, expires_at, max_redemptions, pepper_length, now),
            r,
        ),
        call_ensures(list_alpha_invites, (Some(label),), listed),
    ensures
        ({
            let l = text::trimmed(label@);
            let good = 1 <= l.len() && l.len() <= 100 && forall|i: int|
                0 <= i < l.len() ==> !text::control(#[trigger] l[i]);
            let later = expires_at is Some ==> expires_at->0@ > now@;
            {
                &&& r is Ok <==> good && max_redemptions >= 1 && later && pepper_length >= 32
                &&& r is Ok ==> r->Ok_0@ == l
                &&& r is Err && !good ==> r->Err_0 is InvalidLabel
                &&& r is Err && good && max_redemptions < 1 ==> r->Err_0 is InvalidMaxRedemptions
                &&& r is Err && good && max_redemptions >= 1 && !later ==> r->Err_0 is InvalidExpiry
                &&& r is Err && good && max_redemptions >= 1 && later ==> r->Err_0 is PepperTooShort
                &&& listed is Ok <==> good
                &&& listed is Ok ==> listed->Ok_0 is Some && listed->Ok_0->0@ == l
            }
        }),
{
}

/// A code is kept as the HMAC of its normal form, marked as an invite, under the
/// pepper.
pub proof fn law_codes_are_kept_hashed(
    code: &str,
    pepper: &[u8],
    n: Result<String, AlphaInviteError>,
    h: Result<Vec<u8>, AlphaInviteError>,
)
    requires
        call_ensures(normalize_invite_code, (code,), n),
        call_ensures(hash_invite_code, (code, pepper), h),
    ensures
        n is Ok <==> h is Ok,
        n is Ok ==> n->Ok_0@.len() > 0,
        h is Ok ==> h->Ok_0@ == crypto::hmac_sha256(
            pepper@,
            text::utf8("alpha-invite:v1:"@) + text::utf8(n->Ok_0@),
        ),
        n is Err ==> n->Err_0 is Invalid && h->Err_0 is Invalid,
{
}

/// A code is shown in groups of four digits with a hyphen between each two.
pub proof fn law_codes_come_in_groups(bytes: &[u8], code: String, i: int)
    requires
        call_ensures(alpha_code_from, (bytes,), code),
        0 <= i < code@.len(),
    ensures
        i % 5 == 4 ==> code@[i] == '-',
        i % 5 != 4 ==> code@[i] == crypto::hex_text(bytes@, 'A')[i - i / 5],
{
    lemma_groups(crypto::hex_text(bytes@, 'A'), i);
}

proof fn lemma_groups(s: Seq<char>, i: int)
    ensures
        s.len() == 0 ==> grouped(s).len() == 0,
        s.len() > 0 ==> grouped(s).len() == s.len() + (s.len() - 1) / 4,
        0 <= i < grouped(s).len() ==> {
            &&& i % 5 == 4 ==> grouped(s)[i] == '-'
            &&& i % 5 != 4 ==> 0 <= i - i / 5 < s.len() && grouped(s)[i] == s[i - i / 5]
        },
    decreases s.len(),
{
    if s.len() > 0 {
        lemma_groups(s.drop_last(), i);
    }
}

} // verus!
