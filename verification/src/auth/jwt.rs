//! Media tokens and access tokens.

use crate::auth::auth::AuthError;
use crate::ids;
use crate::ids::Uuid;
use crate::json;
use crate::json::Json;
use crate::json::JsonView;
use crate::jwt_token;
use crate::jwt_token::Claim;
use crate::members;
use vstd::prelude::*;

verus! {

/// Default token lifetime in seconds (6 hours).
pub const DEFAULT_TOKEN_TTL_SECS: u64 = 21600;

/// Another name of the default token lifetime.
pub const TOKEN_TTL_SECS: u64 = DEFAULT_TOKEN_TTL_SECS;

/// Lifetime of LiveKit tokens in seconds (6 hours).
pub const LIVEKIT_TOKEN_TTL_SECS: u64 = 21600;

/// Audience claim of media tokens.
pub const SFU_AUDIENCE: &'static str = "wavis-sfu";

/// Default issuer of media tokens.
pub const DEFAULT_JWT_ISSUER: &'static str = "wavis-backend";

/// Audience claim of access tokens.
pub const AUTH_AUDIENCE: &'static str = "wavis";

/// Issuer claim of access tokens.
pub const AUTH_ISSUER: &'static str = "wavis-backend";

/// Lifetime of access tokens in seconds (15 minutes).
pub const ACCESS_TOKEN_TTL_SECS: u64 = 900;

/// The fewest bytes that a signing secret may have.
pub const MIN_SECRET_LEN: usize = 32;

/// Errors of the media server's interface.
#[derive(Debug)]
pub enum SfuError {
    TokenError(String),
}

/// The claims of a media token.
#[derive(Debug)]
pub struct MediaTokenClaims {
    pub room_id: String,
    pub participant_id: String,
    pub permissions: Vec<String>,
    pub exp: u64,
    pub nbf: u64,
    pub iat: u64,
    pub jti: String,
    pub aud: String,
    pub iss: String,
}

/// The claims of an access token.
#[derive(Debug)]
pub struct AuthTokenClaims {
    /// The user's UUID as text.
    pub sub: String,
    /// The device's UUID as text, or empty.
    pub did: String,
    pub exp: u64,
    pub aud: String,
    pub iss: String,
    pub iat: u64,
    /// The session epoch that the token was issued in.
    pub epoch: i32,
}

/// `SystemTime::now`, as whole seconds since the Unix epoch. Nothing is known
/// of the reading; the error is the text of the one that a clock set before
/// the epoch gives.
#[verifier::external_body]
pub(crate) fn unix_now() -> (r: Result<u64, String>) {
    std::time::SystemTime::now()
        .duration_since(std::time::UNIX_EPOCH)
        .map(|d| d.as_secs())
        .map_err(|e| e.to_string())
}

/// The claims of the media token that is issued at `now`.
pub open spec fn media_members(
    room_id: Seq<char>,
    participant_id: Seq<char>,
    issuer: Seq<char>,
    exp: u64,
    now: u64,
    jti: Seq<char>,
) -> Seq<(Seq<char>, JsonView)> {
    seq![
        ("room_id"@, JsonView::Text(room_id)),
        ("participant_id"@, JsonView::Text(participant_id)),
        (
            "permissions"@,
            JsonView::Array(seq![JsonView::Text("publish"@), JsonView::Text("subscribe"@)]),
        ),
        ("exp"@, JsonView::Unsigned(exp)),
        ("nbf"@, JsonView::Unsigned(now)),
        ("iat"@, JsonView::Unsigned(now)),
        ("jti"@, JsonView::Text(jti)),
        ("aud"@, JsonView::Text(SFU_AUDIENCE@)),
        ("iss"@, JsonView::Text(issuer)),
    ]
}

proof fn lemma_read_back(
    text: Seq<char>,
    claims: Seq<(Seq<char>, JsonView)>,
    names: Seq<Seq<char>>,
)
    requires
        members::writes(text, claims),
        names.len() == claims.len(),
        forall|i: int| 0 <= i < claims.len() ==> (#[trigger] claims[i]).0 == names[i],
    ensures
        members::document(text, names) is Some,
        forall|n: Seq<char>|
            #[trigger] json::json_field(members::document(text, names)->0, n) == json::member(
                claims,
                n,
            ),
{
    members::lemma_document_of(text, claims, names);
    assert forall|n: Seq<char>|
        #[trigger] json::json_field(members::document(text, names)->0, n) == json::member(
            claims,
            n,
        ) by {
        if !names.contains(n) {
            assert forall|i: int| 0 <= i < claims.len() implies (#[trigger] claims[i]).0 != n by {
                assert(names[i] != n);
            }
            json::lemma_member_absent(claims, n);
        }
    }
}

proof fn lemma_names_differ()
    ensures
        "room_id"@.len() == 7,
        "participant_id"@.len() == 14,
        "permissions"@.len() == 11,
        "epoch"@.len() == 5,
        "exp"@.len() == 3 && "exp"@[0] == 'e',
        "nbf"@.len() == 3 && "nbf"@[0] == 'n',
        "iat"@.len() == 3 && "iat"@[0] == 'i' && "iat"@[1] == 'a',
        "jti"@.len() == 3 && "jti"@[0] == 'j',
        "aud"@.len() == 3 && "aud"@[0] == 'a',
        "iss"@.len() == 3 && "iss"@[0] == 'i' && "iss"@[1] == 's',
        "sub"@.len() == 3 && "sub"@[0] == 's',
        "did"@.len() == 3 && "did"@[0] == 'd',
{
    reveal_strlit("room_id");
    reveal_strlit("participant_id");
    reveal_strlit("permissions");
    reveal_strlit("epoch");
    reveal_strlit("exp");
    reveal_strlit("nbf");
    reveal_strlit("iat");
    reveal_strlit("jti");
    reveal_strlit("aud");
    reveal_strlit("iss");
    reveal_strlit("sub");
    reveal_strlit("did");
}

proof fn lemma_media_members(
    room_id: Seq<char>,
    participant_id: Seq<char>,
    issuer: Seq<char>,
    exp: u64,
    now: u64,
    jti: Seq<char>,
)
    ensures
        ({
            let m = media_members(room_id, participant_id, issuer, exp, now, jti);
            &&& jwt_token::distinct_names(m)
            &&& jwt_token::checkable(m)
            &&& json::member(m, "room_id"@) == Some(m[0].1)
            &&& json::member(m, "participant_id"@) == Some(m[1].1)
            &&& json::member(m, "permissions"@) == Some(m[2].1)
            &&& json::member(m, "exp"@) == Some(m[3].1)
            &&& json::member(m, "nbf"@) == Some(m[4].1)
            &&& json::member(m, "iat"@) == Some(m[5].1)
            &&& json::member(m, "jti"@) == Some(m[6].1)
            &&& json::member(m, "aud"@) == Some(m[7].1)
            &&& json::member(m, "iss"@) == Some(m[8].1)
            &&& json::member(m, "sub"@) is None
        }),
{
    let m = media_members(room_id, participant_id, issuer, exp, now, jti);
    lemma_names_differ();
    assert(jwt_token::distinct_names(m));
    json::lemma_member_at(m, 0);
    json::lemma_member_at(m, 1);
    json::lemma_member_at(m, 2);
    json::lemma_member_at(m, 3);
    json::lemma_member_at(m, 4);
    json::lemma_member_at(m, 5);
    json::lemma_member_at(m, 6);
    json::lemma_member_at(m, 7);
    json::lemma_member_at(m, 8);
    json::lemma_member_absent(m, "sub"@);
}

fn too_short_secret() -> (e: SfuError)
    ensures
        e == SfuError::TokenError(e->TokenError_0),
        e->TokenError_0@ == "SFU_JWT_SECRET must be at least 32 bytes"@,
{
    SfuError::TokenError("SFU_JWT_SECRET must be at least 32 bytes".to_owned())
}

/// Signs the media token that is issued at `now` under the identifier `jti`.
/// A secret of fewer than 32 bytes is refused.
pub fn sign_media_token_at(
    room_id: &str,
    participant_id: &str,
    secret: &[u8],
    issuer: &str,
    ttl_secs: u64,
    now: u64,
    jti: &str,
) -> (r: Result<String, SfuError>)
    requires
        now + ttl_secs <= u64::MAX,
    ensures
        r is Ok <==> secret@.len() >= MIN_SECRET_LEN,
        r matches Ok(token) ==> {
            let claims = media_members(
                room_id@,
                participant_id@,
                issuer@,
                (now + ttl_secs) as u64,
                now,
                jti@,
            );
            token@ == jwt_token::jwt_signed(claims, secret@) && jwt_token::carries(
                token@,
                secret@,
                claims,
            )
        },
        r matches Err(SfuError::TokenError(e)) ==> e@
            == "SFU_JWT_SECRET must be at least 32 bytes"@,
{
    if secret.len() < MIN_SECRET_LEN {
        return Err(too_short_secret());
    }
    let mut permissions: Vec<String> = Vec::new();
    permissions.push("publish".to_owned());
    permissions.push("subscribe".to_owned());
    let mut claims: Vec<(String, Claim)> = Vec::new();
    claims.push(("room_id".to_owned(), Claim::Text(room_id.to_owned())));
    claims.push(("participant_id".to_owned(), Claim::Text(participant_id.to_owned())));
    claims.push(("permissions".to_owned(), Claim::List(permissions)));
    claims.push(("exp".to_owned(), Claim::Number(now + ttl_secs)));
    claims.push(("nbf".to_owned(), Claim::Number(now)));
    claims.push(("iat".to_owned(), Claim::Number(now)));
    claims.push(("jti".to_owned(), Claim::Text(jti.to_owned())));
    claims.push(("aud".to_owned(), Claim::Text(SFU_AUDIENCE.to_owned())));
    claims.push(("iss".to_owned(), Claim::Text(issuer.to_owned())));
    proof {
        let m = media_members(
            room_id@,
            participant_id@,
            issuer@,
            (now + ttl_secs) as u64,
            now,
            jti@,
        );
        assert(claims@[2].1@ == m[2].1) by {
            assert(claims@[2].1@->Array_0 =~= m[2].1->Array_0);
        }
        assert(jwt_token::claims_view(claims@) =~= m);
        lemma_media_members(
            room_id@,
            participant_id@,
            issuer@,
            (now + ttl_secs) as u64,
            now,
            jti@,
        );
    }
    Ok(jwt_token::jwt_encode(&claims, secret))
}

/// What signing a media token under the identifier `jti` gives, for what the
/// clock answered: its reading, or why it has none. A short secret is refused
/// first, then a clock without a reading, then an expiry that cannot be
/// represented.
pub open spec fn signs_media_token(
    reading: Result<u64, String>,
    room_id: Seq<char>,
    participant_id: Seq<char>,
    secret: Seq<u8>,
    issuer: Seq<char>,
    ttl_secs: u64,
    jti: Seq<char>,
    r: Result<String, SfuError>,
) -> bool {
    if secret.len() < MIN_SECRET_LEN {
        r matches Err(SfuError::TokenError(e)) && e@ == "SFU_JWT_SECRET must be at least 32 bytes"@
    } else {
        match reading {
            Err(why) => r matches Err(SfuError::TokenError(e)) && e@ == "system time error: "@
                + why@,
            Ok(now) => if now + ttl_secs > u64::MAX {
                r matches Err(SfuError::TokenError(e)) && e@ == "token lifetime out of range"@
            } else {
                let claims = media_members(
                    room_id,
                    participant_id,
                    issuer,
                    (now + ttl_secs) as u64,
                    now,
                    jti,
                );
                r matches Ok(token) && token@ == jwt_token::jwt_signed(claims, secret)
                    && jwt_token::carries(token@, secret, claims)
            },
        }
    }
}

/// Signs a media token under the identifier `jti`, valid for `ttl_secs` seconds
/// from the reading of the clock on.
pub fn sign_media_token_from(
    reading: Result<u64, String>,
    room_id: &str,
    participant_id: &str,
    secret: &[u8],
    issuer: &str,
    ttl_secs: u64,
    jti: &str,
) -> (r: Result<String, SfuError>)
    ensures
        signs_media_token(
            reading,
            room_id@,
            participant_id@,
            secret@,
            issuer@,
            ttl_secs,
            jti@,
            r,
        ),
{
    if secret.len() < MIN_SECRET_LEN {
        return Err(too_short_secret());
    }
    match reading {
        Err(why) => Err(
            SfuError::TokenError("system time error: ".to_owned().concat(why.as_str())),
        ),
        Ok(now) => {
            if ttl_secs > u64::MAX - now {
                return Err(SfuError::TokenError("token lifetime out of range".to_owned()));
            }
            sign_media_token_at(room_id, participant_id, secret, issuer, ttl_secs, now, jti)
        },
    }
}

/// Signs a media token that is valid from now on for `ttl_secs` seconds, under
/// a fresh UUID. What the clock answers is not known.
pub fn sign_media_token(
    room_id: &str,
    participant_id: &str,
    secret: &[u8],
    issuer: &str,
    ttl_secs: u64,
) -> (r: Result<String, SfuError>)
    ensures
        exists|reading: Result<u64, String>, id: u128|
            #[trigger] signs_media_token(
                reading,
                room_id@,
                participant_id@,
                secret@,
                issuer@,
                ttl_secs,
                ids::uuid_text(id),
                r,
            ),
        r matches Err(SfuError::TokenError(e)) ==> if secret@.len() < MIN_SECRET_LEN {
            e@ == "SFU_JWT_SECRET must be at least 32 bytes"@
        } else {
            "system time error: "@.is_prefix_of(e@) || e@ == "token lifetime out of range"@
        },
        r is Ok ==> secret@.len() >= MIN_SECRET_LEN,
{
    let reading = unix_now();
    let id = Uuid::new_v4();
    let ghost answered = reading;
    let r = sign_media_token_from(
        reading,
        room_id,
        participant_id,
        secret,
        issuer,
        ttl_secs,
        id.text().as_str(),
    );
    proof {
        assert(signs_media_token(
            answered,
            room_id@,
            participant_id@,
            secret@,
            issuer@,
            ttl_secs,
            ids::uuid_text(id.value),
            r,
        ));
        if let Err(why) = answered {
            let e = "system time error: "@ + why@;
            assert(e.subrange(0, "system time error: "@.len() as int) =~= "system time error: "@);
        }
    }
    r
}

/// That `c` is what the document `v` says.
pub open spec fn is_media_claims(v: JsonView, c: MediaTokenClaims) -> bool {
    &&& json::json_field(v, "room_id"@) == Some(JsonView::Text(c.room_id@))
    &&& json::json_field(v, "participant_id"@) == Some(JsonView::Text(c.participant_id@))
    &&& json::json_field(v, "permissions"@) == Some(
        JsonView::Array(c.permissions@.map_values(|s: String| JsonView::Text(s@))),
    )
    &&& json::json_field(v, "exp"@) == Some(JsonView::Unsigned(c.exp))
    &&& json::json_field(v, "nbf"@) == Some(JsonView::Unsigned(c.nbf))
    &&& json::json_field(v, "iat"@) == Some(JsonView::Unsigned(c.iat))
    &&& json::json_field(v, "jti"@) == Some(JsonView::Text(c.jti@))
    &&& json::json_field(v, "aud"@) == Some(JsonView::Text(c.aud@))
    &&& json::json_field(v, "iss"@) == Some(JsonView::Text(c.iss@))
}

/// That the member is there and is a text.
pub open spec fn has_text(v: JsonView, name: Seq<char>) -> bool {
    json::json_field(v, name) is Some && json::json_field(v, name)->0 is Text
}

/// That the member is there and is an integer that is not negative.
pub open spec fn has_number(v: JsonView, name: Seq<char>) -> bool {
    json::json_field(v, name) is Some && json::json_field(v, name)->0 is Unsigned
}

/// That the member is there and is an array of texts.
pub open spec fn has_texts(v: JsonView, name: Seq<char>) -> bool {
    let f = json::json_field(v, name);
    f is Some && f->0 is Array && forall|i: int|
        0 <= i < f->0->Array_0.len() ==> (#[trigger] f->0->Array_0[i]) is Text
}

/// That the document has all the claims of a media token.
pub open spec fn has_media_claims(v: JsonView) -> bool {
    &&& has_text(v, "room_id"@)
    &&& has_text(v, "participant_id"@)
    &&& has_texts(v, "permissions"@)
    &&& has_number(v, "exp"@)
    &&& has_number(v, "nbf"@)
    &&& has_number(v, "iat"@)
    &&& has_text(v, "jti"@)
    &&& has_text(v, "aud"@)
    &&& has_text(v, "iss"@)
}

fn text_member(j: &Json, name: &str) -> (r: Option<String>)
    ensures
        r is Some <==> has_text(j@, name@),
        r matches Some(s) ==> json::json_field(j@, name@) == Some(JsonView::Text(s@)),
{
    match j.field(name) {
        Some(v) => match v.as_str() {
            Some(s) => Some(s.to_owned()),
            None => None,
        },
        None => None,
    }
}

fn number_member(j: &Json, name: &str) -> (r: Option<u64>)
    ensures
        r is Some <==> has_number(j@, name@),
        r matches Some(n) ==> json::json_field(j@, name@) == Some(JsonView::Unsigned(n)),
{
    match j.field(name) {
        Some(v) => v.as_u64(),
        None => None,
    }
}

fn texts_member(j: &Json, name: &str) -> (r: Option<Vec<String>>)
    ensures
        r is Some <==> has_texts(j@, name@),
        r matches Some(list) ==> json::json_field(j@, name@) == Some(
            JsonView::Array(list@.map_values(|s: String| JsonView::Text(s@))),
        ),
{
    let items = match j.field(name) {
        Some(v) => match v.as_array() {
            Some(items) => items,
            None => {
                return None;
            },
        },
        None => {
            return None;
        },
    };
    let ghost all = json::json_field(j@, name@)->0->Array_0;
    let mut list: Vec<String> = Vec::new();
    let mut i: usize = 0;
    while i < items.len()
        invariant
            i <= items@.len(),
            list@.len() == i,
            all.len() == items@.len(),
            all == json::json_field(j@, name@)->0->Array_0,
            json::json_field(j@, name@) is Some,
            json::json_field(j@, name@)->0 is Array,
            forall|k: int| 0 <= k < items@.len() ==> all[k] == (#[trigger] items@[k])@,
            forall|k: int| 0 <= k < i ==> all[k] == JsonView::Text((#[trigger] list@[k])@),
        decreases items@.len() - i,
    {
        assert(all[i as int] == items@[i as int]@);
        match items[i].as_str() {
            Some(s) => list.push(s.to_owned()),
            None => {
                return None;
            },
        }
        i = i + 1;
    }
    assert(all =~= list@.map_values(|s: String| JsonView::Text(s@)));
    Some(list)
}

/// The claims of a media token, where the document has them all.
pub fn media_claims_of(j: &Json) -> (r: Option<MediaTokenClaims>)
    ensures
        r is Some <==> has_media_claims(j@),
        r matches Some(c) ==> is_media_claims(j@, c),
{
    let room_id = text_member(j, "room_id");
    let participant_id = text_member(j, "participant_id");
    let permissions = texts_member(j, "permissions");
    let exp = number_member(j, "exp");
    let nbf = number_member(j, "nbf");
    let iat = number_member(j, "iat");
    let jti = text_member(j, "jti");
    let aud = text_member(j, "aud");
    let iss = text_member(j, "iss");
    match (room_id, participant_id, permissions, exp, nbf, iat, jti, aud, iss) {
        (
            Some(room_id),
            Some(participant_id),
            Some(permissions),
            Some(exp),
            Some(nbf),
            Some(iat),
            Some(jti),
            Some(aud),
            Some(iss),
        ) => Some(
            MediaTokenClaims {
                room_id,
                participant_id,
                permissions,
                exp,
                nbf,
                iat,
                jti,
                aud,
                iss,
            },
        ),
        _ => None,
    }
}

/// That `r` is what a check that found `found` leads to.
pub open spec fn media_result(
    found: Result<JsonView, bool>,
    r: Result<MediaTokenClaims, SfuError>,
) -> bool {
    match r {
        Ok(c) => found is Ok && is_media_claims(found->Ok_0, c),
        Err(SfuError::TokenError(e)) => (found is Err || !has_media_claims(found->Ok_0))
            && "JWT validation failed: "@.is_prefix_of(e@),
    }
}

/// The names of a media token's claims.
pub open spec fn media_names() -> Seq<Seq<char>> {
    seq![
        "room_id"@,
        "participant_id"@,
        "permissions"@,
        "exp"@,
        "nbf"@,
        "iat"@,
        "jti"@,
        "aud"@,
        "iss"@,
    ]
}

/// What a check of a media token finds at a reading of the clock. A token that
/// repeats one of these claims is refused.
pub open spec fn media_found(
    token: Seq<char>,
    secret: Seq<u8>,
    audience: Seq<char>,
    issuer: Seq<char>,
    now: u64,
) -> Result<JsonView, bool> {
    match jwt_token::jwt_checked(token, secret, audience, issuer, true, set!["exp"@], now) {
        Ok(text) => match members::document(text, media_names()) {
            Some(v) => Ok(v),
            None => Err(false),
        },
        Err(expired) => Err(expired),
    }
}

fn read_media_document(text: &str) -> (r: Option<Json>)
    ensures
        match r {
            Some(j) => members::document(text@, media_names()) == Some(j@),
            None => members::document(text@, media_names()) is None,
        },
{
    let wanted: [&str; 9] = [
        "room_id",
        "participant_id",
        "permissions",
        "exp",
        "nbf",
        "iat",
        "jti",
        "aud",
        "iss",
    ];
    assert(wanted@.map_values(|s: &str| s@) =~= media_names());
    members::read_document(text, &wanted)
}

/// The outcome of validating a media token at a reading of the clock: a short
/// secret is refused, and otherwise the result is what a check finds.
pub open spec fn media_outcome_at(
    token: Seq<char>,
    secret: Seq<u8>,
    audience: Seq<char>,
    issuer: Seq<char>,
    now: u64,
    r: Result<MediaTokenClaims, SfuError>,
) -> bool {
    if secret.len() < MIN_SECRET_LEN {
        r matches Err(SfuError::TokenError(e)) && e@ == "SFU_JWT_SECRET must be at least 32 bytes"@
    } else {
        media_result(media_found(token, secret, audience, issuer, now), r)
    }
}

/// The outcome of validating a media token at some reading of the clock.
pub open spec fn media_outcome(
    token: Seq<char>,
    secret: Seq<u8>,
    audience: Seq<char>,
    issuer: Seq<char>,
    r: Result<MediaTokenClaims, SfuError>,
) -> bool {
    exists|now: u64|
        jwt_token::plausible(now) && #[trigger] media_outcome_at(
            token,
            secret,
            audience,
            issuer,
            now,
            r,
        )
}

/// What a check's finding means for a media token.
pub fn media_claims_from(found: Result<Json, String>) -> (r: Result<MediaTokenClaims, SfuError>)
    ensures
        match found {
            Ok(j) => media_result(Ok(j@), r),
            Err(reason) => r matches Err(SfuError::TokenError(e)) && e@ == "JWT validation failed: "@
                + reason@,
        },
{
    match found {
        Ok(j) => match media_claims_of(&j) {
            Some(c) => Ok(c),
            None => {
                let e = "JWT validation failed: ".to_owned().concat("JSON error: claims missing");
                assert("JWT validation failed: "@.is_prefix_of(e@)) by {
                    assert(e@.subrange(0, "JWT validation failed: "@.len() as int)
                        =~= "JWT validation failed: "@);
                }
                Err(SfuError::TokenError(e))
            },
        },
        Err(reason) => Err(
            SfuError::TokenError("JWT validation failed: ".to_owned().concat(reason.as_str())),
        ),
    }
}

/// Validates a media token and returns its claims. A token is refused that has
/// expired, is not valid yet, has another audience or issuer, lacks a claim, or
/// does not carry the right signature.
pub fn validate_media_token(
    token: &str,
    secret: &[u8],
    expected_audience: &str,
    expected_issuer: &str,
) -> (r: Result<MediaTokenClaims, SfuError>)
    ensures
        media_outcome(token@, secret@, expected_audience@, expected_issuer@, r),
{
    if secret.len() < MIN_SECRET_LEN {
        let r = Err(too_short_secret());
        assert(media_outcome_at(token@, secret@, expected_audience@, expected_issuer@, 60, r));
        return r;
    }
    let required: [&str; 1] = ["exp"];
    let r = jwt_token::jwt_decode(token, secret, expected_audience, expected_issuer, true, &required);
    proof {
        assert(jwt_token::names(required@) =~= set!["exp"@]) by {
            assert(required@.map_values(|s: &str| s@) =~= seq!["exp"@]);
            assert(seq!["exp"@].contains("exp"@)) by {
                assert(seq!["exp"@][0] == "exp"@);
            }
        }
    }
    let ghost now = choose|now: u64|
        jwt_token::same_finding(
            r,
            #[trigger] jwt_token::jwt_checked(
                token@,
                secret@,
                expected_audience@,
                expected_issuer@,
                true,
                jwt_token::names(required@),
                now,
            ),
            now,
        );
    let ghost found = media_found(token@, secret@, expected_audience@, expected_issuer@, now);
    let read = match r {
        Ok(text) => match read_media_document(text.as_str()) {
            Some(j) => Ok(j),
            None => Err("JSON error: claims repeated".to_owned()),
        },
        Err(refusal) => Err(refusal.reason),
    };
    let ghost refused = read is Err;
    let r = media_claims_from(read);
    proof {
        if refused {
            let e = r->Err_0->TokenError_0@;
            assert(e.subrange(0, "JWT validation failed: "@.len() as int)
                =~= "JWT validation failed: "@);
        }
    }
    assert(media_outcome_at(token@, secret@, expected_audience@, expected_issuer@, now, r));
    r
}

/// Validates a media token under the current secret and, where that fails and
/// there is one, under the previous secret.
pub fn validate_media_token_with_rotation(
    token: &str,
    current_secret: &[u8],
    previous_secret: Option<&[u8]>,
    expected_audience: &str,
    expected_issuer: &str,
) -> (r: Result<MediaTokenClaims, SfuError>)
    ensures
        exists|first: Result<MediaTokenClaims, SfuError>|
            #[trigger] media_outcome(
                token@,
                current_secret@,
                expected_audience@,
                expected_issuer@,
                first,
            ) && if first is Err && previous_secret is Some {
                media_outcome(
                    token@,
                    previous_secret->0@,
                    expected_audience@,
                    expected_issuer@,
                    r,
                )
            } else {
                r == first
            },
{
    let first = validate_media_token(token, current_secret, expected_audience, expected_issuer);
    let ghost seen = first;
    assert(media_outcome(token@, current_secret@, expected_audience@, expected_issuer@, seen));
    match (first, previous_secret) {
        (Err(_), Some(previous)) => validate_media_token(
            token,
            previous,
            expected_audience,
            expected_issuer,
        ),
        (first, _) => first,
    }
}

/// A media token that was signed validates to the claims that it was signed
/// with, from its start to its expiry, a minute of leeway on both sides; then
/// it is refused.
pub proof fn law_media_token_round_trip(
    token: Seq<char>,
    secret: Seq<u8>,
    room_id: Seq<char>,
    participant_id: Seq<char>,
    issuer: Seq<char>,
    exp: u64,
    issued: u64,
    jti: Seq<char>,
    now: u64,
)
    requires
        jwt_token::carries(
            token,
            secret,
            media_members(room_id, participant_id, issuer, exp, issued, jti),
        ),
        jwt_token::plausible(now),
    ensures
        ({
            let found = media_found(token, secret, SFU_AUDIENCE@, issuer, now);
            let m = media_members(room_id, participant_id, issuer, exp, issued, jti);
            if exp + 60 < now || issued > now + 60 {
                found is Err
            } else {
                &&& found is Ok
                &&& has_media_claims(found->Ok_0)
                &&& forall|name: Seq<char>|
                    #[trigger] json::json_field(found->Ok_0, name) == json::member(m, name)
            }
        }),
        forall|audience: Seq<char>, other: Seq<char>|
            audience != SFU_AUDIENCE@ || other != issuer ==> (#[trigger] media_found(
                token,
                secret,
                audience,
                other,
                now,
            )) is Err,
{
    let m = media_members(room_id, participant_id, issuer, exp, issued, jti);
    lemma_media_members(room_id, participant_id, issuer, exp, issued, jti);
    let found = media_found(token, secret, SFU_AUDIENCE@, issuer, now);
    let text = jwt_token::jwt_checked(
        token,
        secret,
        SFU_AUDIENCE@,
        issuer,
        true,
        set!["exp"@],
        now,
    );
    if text is Ok {
        lemma_read_back(text->Ok_0, m, media_names());
    }
    if found is Ok {
        let f = json::json_field(found->Ok_0, "permissions"@);
        assert(f == json::member(m, "permissions"@));
        assert(json::json_field(found->Ok_0, "room_id"@) == json::member(m, "room_id"@));
        assert(json::json_field(found->Ok_0, "participant_id"@) == json::member(
            m,
            "participant_id"@,
        ));
        assert(json::json_field(found->Ok_0, "exp"@) == json::member(m, "exp"@));
        assert(json::json_field(found->Ok_0, "nbf"@) == json::member(m, "nbf"@));
        assert(json::json_field(found->Ok_0, "iat"@) == json::member(m, "iat"@));
        assert(json::json_field(found->Ok_0, "jti"@) == json::member(m, "jti"@));
        assert(json::json_field(found->Ok_0, "aud"@) == json::member(m, "aud"@));
        assert(json::json_field(found->Ok_0, "iss"@) == json::member(m, "iss"@));
    }
}

/// Within its time, validating a media token under the secret that it was signed
/// with gives the claims back that it was signed with.
pub proof fn law_media_claims_come_back(
    token: Seq<char>,
    secret: Seq<u8>,
    room_id: Seq<char>,
    participant_id: Seq<char>,
    issuer: Seq<char>,
    exp: u64,
    issued: u64,
    jti: Seq<char>,
    now: u64,
    r: Result<MediaTokenClaims, SfuError>,
)
    requires
        secret.len() >= MIN_SECRET_LEN,
        jwt_token::carries(
            token,
            secret,
            media_members(room_id, participant_id, issuer, exp, issued, jti),
        ),
        jwt_token::plausible(now),
        now <= exp + 60,
        issued <= now + 60,
        media_outcome_at(token, secret, SFU_AUDIENCE@, issuer, now, r),
    ensures
        r is Ok,
        ({
            let c = r->Ok_0;
            &&& c.room_id@ == room_id
            &&& c.participant_id@ == participant_id
            &&& c.permissions@.map_values(|p: String| p@) == seq!["publish"@, "subscribe"@]
            &&& c.exp == exp
            &&& c.nbf == issued
            &&& c.iat == issued
            &&& c.jti@ == jti
            &&& c.aud@ == SFU_AUDIENCE@
            &&& c.iss@ == issuer
        }),
{
    let m = media_members(room_id, participant_id, issuer, exp, issued, jti);
    lemma_media_members(room_id, participant_id, issuer, exp, issued, jti);
    law_media_token_round_trip(
        token,
        secret,
        room_id,
        participant_id,
        issuer,
        exp,
        issued,
        jti,
        now,
    );
    let v = media_found(token, secret, SFU_AUDIENCE@, issuer, now)->Ok_0;
    assert(r is Ok);
    let c = r->Ok_0;
    assert(json::json_field(v, "room_id"@) == json::member(m, "room_id"@));
    assert(json::json_field(v, "participant_id"@) == json::member(m, "participant_id"@));
    assert(json::json_field(v, "permissions"@) == json::member(m, "permissions"@));
    assert(json::json_field(v, "exp"@) == json::member(m, "exp"@));
    assert(json::json_field(v, "nbf"@) == json::member(m, "nbf"@));
    assert(json::json_field(v, "iat"@) == json::member(m, "iat"@));
    assert(json::json_field(v, "jti"@) == json::member(m, "jti"@));
    assert(json::json_field(v, "aud"@) == json::member(m, "aud"@));
    assert(json::json_field(v, "iss"@) == json::member(m, "iss"@));
    let listed = c.permissions@.map_values(|s: String| JsonView::Text(s@));
    let given = seq![JsonView::Text("publish"@), JsonView::Text("subscribe"@)];
    assert(listed == given);
    assert(listed[0] == JsonView::Text(c.permissions@[0]@));
    assert(listed[1] == JsonView::Text(c.permissions@[1]@));
    assert(c.permissions@.map_values(|p: String| p@) =~= seq!["publish"@, "subscribe"@]);
}

/// The claims of the access token that is issued at `now`.
pub open spec fn access_members(
    user_id: Uuid,
    device_id: Uuid,
    exp: u64,
    now: u64,
    epoch: i32,
) -> Seq<(Seq<char>, JsonView)> {
    seq![
        ("sub"@, JsonView::Text(ids::uuid_text(user_id.value))),
        ("did"@, JsonView::Text(ids::uuid_text(device_id.value))),
        ("exp"@, JsonView::Unsigned(exp)),
        ("aud"@, JsonView::Text(AUTH_AUDIENCE@)),
        ("iss"@, JsonView::Text(AUTH_ISSUER@)),
        ("iat"@, JsonView::Unsigned(now)),
        ("epoch"@, jwt_token::signed_view(epoch)),
    ]
}

proof fn lemma_access_members(user_id: Uuid, device_id: Uuid, exp: u64, now: u64, epoch: i32)
    ensures
        ({
            let m = access_members(user_id, device_id, exp, now, epoch);
            &&& jwt_token::distinct_names(m)
            &&& jwt_token::checkable(m)
            &&& json::member(m, "sub"@) == Some(m[0].1)
            &&& json::member(m, "did"@) == Some(m[1].1)
            &&& json::member(m, "exp"@) == Some(m[2].1)
            &&& json::member(m, "aud"@) == Some(m[3].1)
            &&& json::member(m, "iss"@) == Some(m[4].1)
            &&& json::member(m, "iat"@) == Some(m[5].1)
            &&& json::member(m, "epoch"@) == Some(m[6].1)
            &&& json::member(m, "nbf"@) is None
        }),
{
    let m = access_members(user_id, device_id, exp, now, epoch);
    lemma_names_differ();
    assert(jwt_token::distinct_names(m));
    json::lemma_member_at(m, 0);
    json::lemma_member_at(m, 1);
    json::lemma_member_at(m, 2);
    json::lemma_member_at(m, 3);
    json::lemma_member_at(m, 4);
    json::lemma_member_at(m, 5);
    json::lemma_member_at(m, 6);
    json::lemma_member_absent(m, "nbf"@);
}

/// That `token` carries the identity given, under `secret`, until `exp`.
pub open spec fn access_token_for(
    token: Seq<char>,
    secret: Seq<u8>,
    user_id: Uuid,
    device_id: Uuid,
    exp: u64,
    now: u64,
    epoch: i32,
) -> bool {
    &&& token == jwt_token::jwt_signed(
        access_members(user_id, device_id, exp, now, epoch),
        secret,
    )
    &&& jwt_token::carries(token, secret, access_members(user_id, device_id, exp, now, epoch))
    &&& ids::uuid_parsed(ids::uuid_text(user_id.value)) == Some(user_id.value)
    &&& ids::uuid_parsed(ids::uuid_text(device_id.value)) == Some(device_id.value)
    &&& ids::uuid_text(device_id.value).len() > 0
}

/// Signs the access token that is issued at `now`. A secret of fewer than 32
/// bytes is refused.
pub fn sign_access_token_at(
    user_id: &Uuid,
    device_id: &Uuid,
    secret: &[u8],
    ttl_secs: u64,
    epoch: i32,
    now: u64,
) -> (r: Result<String, AuthError>)
    requires
        now + ttl_secs <= u64::MAX,
    ensures
        match r {
            Ok(token) => secret@.len() >= MIN_SECRET_LEN && access_token_for(
                token@,
                secret@,
                *user_id,
                *device_id,
                (now + ttl_secs) as u64,
                now,
                epoch,
            ),
            Err(e) => secret@.len() < MIN_SECRET_LEN && e == AuthError::SecretTooShort,
        },
{
    if secret.len() < MIN_SECRET_LEN {
        return Err(AuthError::SecretTooShort);
    }
    let mut claims: Vec<(String, Claim)> = Vec::new();
    claims.push(("sub".to_owned(), Claim::Text(user_id.text())));
    claims.push(("did".to_owned(), Claim::Text(device_id.text())));
    claims.push(("exp".to_owned(), Claim::Number(now + ttl_secs)));
    claims.push(("aud".to_owned(), Claim::Text(AUTH_AUDIENCE.to_owned())));
    claims.push(("iss".to_owned(), Claim::Text(AUTH_ISSUER.to_owned())));
    claims.push(("iat".to_owned(), Claim::Number(now)));
    claims.push(("epoch".to_owned(), Claim::Signed(epoch)));
    proof {
        let m = access_members(*user_id, *device_id, (now + ttl_secs) as u64, now, epoch);
        assert(jwt_token::claims_view(claims@) =~= m);
        lemma_access_members(*user_id, *device_id, (now + ttl_secs) as u64, now, epoch);
    }
    Ok(jwt_token::jwt_encode(&claims, secret))
}

/// What signing an access token gives, for what the clock answered: its reading,
/// or why it has none. A short secret is refused first, then a clock without a
/// reading, then an expiry that cannot be represented.
pub open spec fn signs_access_token(
    reading: Result<u64, String>,
    user_id: Uuid,
    device_id: Uuid,
    secret: Seq<u8>,
    ttl_secs: u64,
    epoch: i32,
    r: Result<String, AuthError>,
) -> bool {
    if secret.len() < MIN_SECRET_LEN {
        r == Err::<String, AuthError>(AuthError::SecretTooShort)
    } else {
        match reading {
            Err(why) => r == Err::<String, AuthError>(AuthError::SigningFailed(why)),
            Ok(now) => if now + ttl_secs > u64::MAX {
                r matches Err(AuthError::SigningFailed(e)) && e@ == "token lifetime out of range"@
            } else {
                r matches Ok(token) && access_token_for(
                    token@,
                    secret,
                    user_id,
                    device_id,
                    (now + ttl_secs) as u64,
                    now,
                    epoch,
                )
            },
        }
    }
}

/// Signs an access token that is valid for `ttl_secs` seconds from the reading
/// of the clock on.
pub fn sign_access_token_from(
    reading: Result<u64, String>,
    user_id: &Uuid,
    device_id: &Uuid,
    secret: &[u8],
    ttl_secs: u64,
    epoch: i32,
) -> (r: Result<String, AuthError>)
    ensures
        signs_access_token(reading, *user_id, *device_id, secret@, ttl_secs, epoch, r),
{
    if secret.len() < MIN_SECRET_LEN {
        return Err(AuthError::SecretTooShort);
    }
    match reading {
        Err(why) => Err(AuthError::SigningFailed(why)),
        Ok(now) => {
            if ttl_secs > u64::MAX - now {
                return Err(AuthError::SigningFailed("token lifetime out of range".to_owned()));
            }
            sign_access_token_at(user_id, device_id, secret, ttl_secs, epoch, now)
        },
    }
}

/// Signs an access token that is valid for `ttl_secs` seconds from now. What the
/// clock answers is not known; where it has no reading, or the expiry cannot be
/// represented, the signing fails.
pub fn sign_access_token(
    user_id: &Uuid,
    device_id: &Uuid,
    secret: &[u8],
    ttl_secs: u64,
    epoch: i32,
) -> (r: Result<String, AuthError>)
    ensures
        exists|reading: Result<u64, String>|
            #[trigger] signs_access_token(
                reading,
                *user_id,
                *device_id,
                secret@,
                ttl_secs,
                epoch,
                r,
            ),
        r == Err::<String, AuthError>(AuthError::SecretTooShort) <==> secret@.len()
            < MIN_SECRET_LEN,
{
    let reading = unix_now();
    sign_access_token_from(reading, user_id, device_id, secret, ttl_secs, epoch)
}

/// The device claim: empty where the token has none.
pub open spec fn device_claim(v: JsonView) -> Option<Seq<char>> {
    match json::json_field(v, "did"@) {
        None => Some(Seq::empty()),
        Some(JsonView::Text(s)) => Some(s),
        Some(_) => None,
    }
}

/// The epoch claim: zero where the token has none.
pub open spec fn epoch_claim(v: JsonView) -> Option<i32> {
    match json::json_field(v, "epoch"@) {
        None => Some(0),
        Some(JsonView::Unsigned(n)) => if n <= i32::MAX {
            Some(n as i32)
        } else {
            None
        },
        Some(JsonView::Negative(n)) => if i32::MIN <= n <= i32::MAX {
            Some(n as i32)
        } else {
            None
        },
        Some(_) => None,
    }
}

/// That the document has all the claims of an access token.
pub open spec fn has_access_claims(v: JsonView) -> bool {
    &&& has_text(v, "sub"@)
    &&& device_claim(v) is Some
    &&& has_number(v, "exp"@)
    &&& has_text(v, "aud"@)
    &&& has_text(v, "iss"@)
    &&& has_number(v, "iat"@)
    &&& epoch_claim(v) is Some
}

/// That `c` is what the document `v` says.
pub open spec fn is_access_claims(v: JsonView, c: AuthTokenClaims) -> bool {
    &&& json::json_field(v, "sub"@) == Some(JsonView::Text(c.sub@))
    &&& device_claim(v) == Some(c.did@)
    &&& json::json_field(v, "exp"@) == Some(JsonView::Unsigned(c.exp))
    &&& json::json_field(v, "aud"@) == Some(JsonView::Text(c.aud@))
    &&& json::json_field(v, "iss"@) == Some(JsonView::Text(c.iss@))
    &&& json::json_field(v, "iat"@) == Some(JsonView::Unsigned(c.iat))
    &&& epoch_claim(v) == Some(c.epoch)
}

fn device_member(j: &Json) -> (r: Option<String>)
    ensures
        match r {
            Some(s) => device_claim(j@) == Some(s@),
            None => device_claim(j@) is None,
        },
{
    match j.field("did") {
        None => {
            let s = String::new();
            assert(s@ =~= Seq::<char>::empty());
            Some(s)
        },
        Some(v) => match v.as_str() {
            Some(s) => Some(s.to_owned()),
            None => None,
        },
    }
}

fn epoch_member(j: &Json) -> (r: Option<i32>)
    ensures
        r == epoch_claim(j@),
{
    match j.field("epoch") {
        None => Some(0),
        Some(Json::Unsigned(n)) => if *n <= i32::MAX as u64 {
            Some(*n as i32)
        } else {
            None
        },
        Some(Json::Negative(n)) => if i32::MIN as i64 <= *n && *n <= i32::MAX as i64 {
            Some(*n as i32)
        } else {
            None
        },
        Some(_) => None,
    }
}

/// The claims of an access token, where the document has them all.
pub fn access_claims_of(j: &Json) -> (r: Option<AuthTokenClaims>)
    ensures
        r is Some <==> has_access_claims(j@),
        r matches Some(c) ==> is_access_claims(j@, c),
{
    let sub = text_member(j, "sub");
    let did = device_member(j);
    let exp = number_member(j, "exp");
    let aud = text_member(j, "aud");
    let iss = text_member(j, "iss");
    let iat = number_member(j, "iat");
    let epoch = epoch_member(j);
    match (sub, did, exp, aud, iss, iat, epoch) {
        (
            Some(sub),
            Some(did),
            Some(exp),
            Some(aud),
            Some(iss),
            Some(iat),
            Some(epoch),
        ) => Some(AuthTokenClaims { sub, did, exp, aud, iss, iat, epoch }),
        _ => None,
    }
}

/// The identity that claims denote: the user, the device (nil where the claim
/// is empty) and the epoch.
pub open spec fn identity_of(sub: Seq<char>, did: Seq<char>, epoch: i32) -> Result<
    (Uuid, Uuid, i32),
    AuthError,
> {
    match (ids::uuid_parsed(sub), ids::uuid_parsed(did)) {
        (None, _) => Err(AuthError::InvalidToken),
        (Some(user), device) => if did.len() == 0 {
            Ok(((Uuid { value: user }), (Uuid { value: 0 }), epoch))
        } else {
            match device {
                None => Err(AuthError::InvalidToken),
                Some(d) => Ok(((Uuid { value: user }), (Uuid { value: d }), epoch)),
            }
        },
    }
}

/// What a check's finding means for an access token.
pub open spec fn access_result(found: Result<JsonView, bool>) -> Result<
    (Uuid, Uuid, i32),
    AuthError,
> {
    match found {
        Err(true) => Err(AuthError::TokenExpired),
        Err(false) => Err(AuthError::ValidationFailed),
        Ok(v) => if has_access_claims(v) {
            identity_of(
                json::json_field(v, "sub"@)->0->Text_0,
                device_claim(v)->0,
                epoch_claim(v)->0,
            )
        } else {
            Err(AuthError::ValidationFailed)
        },
    }
}

/// The identity that claims denote.
pub fn access_identity(claims: &AuthTokenClaims) -> (r: Result<(Uuid, Uuid, i32), AuthError>)
    ensures
        r == identity_of(claims.sub@, claims.did@, claims.epoch),
{
    let user_id = match Uuid::parse_str(claims.sub.as_str()) {
        Some(u) => u,
        None => {
            return Err(AuthError::InvalidToken);
        },
    };
    let device_id = if claims.did.as_str().is_empty() {
        Uuid::nil()
    } else {
        match Uuid::parse_str(claims.did.as_str()) {
            Some(u) => u,
            None => {
                return Err(AuthError::InvalidToken);
            },
        }
    };
    Ok((user_id, device_id, claims.epoch))
}

/// What a check's finding means for an access token; `Err` holds whether the
/// token had expired.
pub fn access_identity_from(found: Result<Json, bool>) -> (r: Result<(Uuid, Uuid, i32), AuthError>)
    ensures
        r == access_result(
            match found {
                Ok(j) => Ok(j@),
                Err(expired) => Err(expired),
            },
        ),
{
    match found {
        Err(true) => Err(AuthError::TokenExpired),
        Err(false) => Err(AuthError::ValidationFailed),
        Ok(j) => match access_claims_of(&j) {
            Some(claims) => access_identity(&claims),
            None => Err(AuthError::ValidationFailed),
        },
    }
}

/// The claims that an access token must have.
pub open spec fn access_required() -> Set<Seq<char>> {
    set!["sub"@, "exp"@, "aud"@, "iss"@, "iat"@]
}

/// The names of an access token's claims.
pub open spec fn access_names() -> Seq<Seq<char>> {
    seq!["sub"@, "did"@, "exp"@, "aud"@, "iss"@, "iat"@, "epoch"@]
}

/// Whether a signed token has all the claims of an access token, none of them
/// repeated.
pub open spec fn is_access_token(token: Seq<char>, secret: Seq<u8>) -> bool {
    match jwt_token::jwt_payload(token, secret) {
        Some(text) => match members::document(text, access_names()) {
            Some(v) => has_access_claims(v),
            None => false,
        },
        None => false,
    }
}

/// What a check of an access token finds at a reading of the clock. A token that
/// repeats one of these claims is refused, and one that lacks or repeats a claim
/// is not found to have expired.
pub open spec fn access_found(token: Seq<char>, secret: Seq<u8>, now: u64) -> Result<
    JsonView,
    bool,
> {
    match jwt_token::jwt_checked(
        token,
        secret,
        AUTH_AUDIENCE@,
        AUTH_ISSUER@,
        false,
        access_required(),
        now,
    ) {
        Ok(text) => match members::document(text, access_names()) {
            Some(v) => Ok(v),
            None => Err(false),
        },
        Err(expired) => Err(expired && is_access_token(token, secret)),
    }
}

fn read_access_document(text: &str) -> (r: Option<Json>)
    ensures
        match r {
            Some(j) => members::document(text@, access_names()) == Some(j@),
            None => members::document(text@, access_names()) is None,
        },
{
    let wanted: [&str; 7] = ["sub", "did", "exp", "aud", "iss", "iat", "epoch"];
    assert(wanted@.map_values(|s: &str| s@) =~= access_names());
    members::read_document(text, &wanted)
}

fn check_access_claims(token: &str, secret: &[u8]) -> (r: bool)
    ensures
        r == is_access_token(token@, secret@),
{
    match jwt_token::jwt_open(token, secret) {
        Some(text) => match read_access_document(text.as_str()) {
            Some(j) => access_claims_of(&j).is_some(),
            None => false,
        },
        None => false,
    }
}

/// That `r` is what validating an access token gives at some reading of the
/// clock.
pub open spec fn access_outcome(
    token: Seq<char>,
    secret: Seq<u8>,
    r: Result<(Uuid, Uuid, i32), AuthError>,
) -> bool {
    exists|now: u64|
        jwt_token::plausible(now) && r == access_result(#[trigger] access_found(token, secret, now))
}

/// Validates an access token. Returns the user, the device and the epoch.
pub fn validate_access_token(token: &str, secret: &[u8]) -> (r: Result<
    (Uuid, Uuid, i32),
    AuthError,
>)
    ensures
        access_outcome(token@, secret@, r),
{
    let required: [&str; 5] = ["sub", "exp", "aud", "iss", "iat"];
    let r = jwt_token::jwt_decode(token, secret, AUTH_AUDIENCE, AUTH_ISSUER, false, &required);
    proof {
        let list = seq!["sub"@, "exp"@, "aud"@, "iss"@, "iat"@];
        assert(required@.map_values(|s: &str| s@) =~= list);
        assert(jwt_token::names(required@) =~= access_required()) by {
            assert(list[0] == "sub"@ && list[1] == "exp"@ && list[2] == "aud"@ && list[3] == "iss"@
                && list[4] == "iat"@);
            assert forall|n: Seq<char>| list.to_set().contains(n) <==> access_required().contains(
                n,
            ) by {
                assert(list.contains(list[0]) && list.contains(list[1]) && list.contains(list[2])
                    && list.contains(list[3]) && list.contains(list[4]));
            }
        }
    }
    let ghost now = choose|now: u64|
        jwt_token::same_finding(
            r,
            #[trigger] jwt_token::jwt_checked(
                token@,
                secret@,
                AUTH_AUDIENCE@,
                AUTH_ISSUER@,
                false,
                jwt_token::names(required@),
                now,
            ),
            now,
        );
    let ghost found = access_found(token@, secret@, now);
    let found_exec = match r {
        Ok(text) => match read_access_document(text.as_str()) {
            Some(j) => Ok(j),
            None => Err(false),
        },
        Err(refusal) => Err(refusal.expired && check_access_claims(token, secret)),
    };
    let r = access_identity_from(found_exec);
    assert(r == access_result(found));
    r
}

/// What validating an access token gives under the current secret at the first
/// reading of the clock and, where that fails, under the previous one at the
/// second.
pub open spec fn rotation_result(
    token: Seq<char>,
    current_secret: Seq<u8>,
    previous_secret: Option<&[u8]>,
    first: u64,
    second: u64,
) -> Result<(Uuid, Uuid, i32), AuthError> {
    match (access_result(access_found(token, current_secret, first)), previous_secret) {
        (Ok(found), _) => Ok(found),
        (Err(_), Some(previous)) => access_result(access_found(token, previous@, second)),
        (Err(_), None) => Err(AuthError::ValidationFailed),
    }
}

/// That `r` is what validating an access token with rotation gives at some
/// readings of the clock.
pub open spec fn rotation_outcome(
    token: Seq<char>,
    current_secret: Seq<u8>,
    previous_secret: Option<&[u8]>,
    r: Result<(Uuid, Uuid, i32), AuthError>,
) -> bool {
    exists|first: u64, second: u64|
        jwt_token::plausible(first) && jwt_token::plausible(second) && r
            == #[trigger] rotation_result(token, current_secret, previous_secret, first, second)
}

/// Validates an access token under the current secret and, where that fails,
/// under the previous one. Without a previous secret every failure is reported
/// as one of validation.
pub fn validate_access_token_with_rotation(
    token: &str,
    current_secret: &[u8],
    previous_secret: Option<&[u8]>,
) -> (r: Result<(Uuid, Uuid, i32), AuthError>)
    ensures
        rotation_outcome(token@, current_secret@, previous_secret, r),
{
    let first = validate_access_token(token, current_secret);
    let ghost n1 = choose|now: u64|
        jwt_token::plausible(now) && first == access_result(
            #[trigger] access_found(token@, current_secret@, now),
        );
    match first {
        Ok(found) => {
            assert(Ok::<(Uuid, Uuid, i32), AuthError>(found) == rotation_result(
                token@,
                current_secret@,
                previous_secret,
                n1,
                n1,
            ));
            Ok(found)
        },
        Err(_) => match previous_secret {
            Some(previous) => {
                let r = validate_access_token(token, previous);
                let ghost n2 = choose|now: u64|
                    jwt_token::plausible(now) && r == access_result(
                        #[trigger] access_found(token@, previous@, now),
                    );
                assert(r == rotation_result(token@, current_secret@, previous_secret, n1, n2));
                r
            },
            None => {
                assert(Err::<(Uuid, Uuid, i32), AuthError>(AuthError::ValidationFailed)
                    == rotation_result(token@, current_secret@, previous_secret, n1, n1));
                Err(AuthError::ValidationFailed)
            },
        },
    }
}

/// An access token that was signed validates to the identity that it was
/// signed for until it expires, with a minute of leeway; then it is reported
/// as expired.
pub proof fn law_access_token_round_trip(
    token: Seq<char>,
    secret: Seq<u8>,
    user_id: Uuid,
    device_id: Uuid,
    exp: u64,
    issued: u64,
    epoch: i32,
    now: u64,
)
    requires
        access_token_for(token, secret, user_id, device_id, exp, issued, epoch),
        jwt_token::plausible(now),
    ensures
        access_result(access_found(token, secret, now)) == (if exp + 60 < now {
            Err::<(Uuid, Uuid, i32), AuthError>(AuthError::TokenExpired)
        } else {
            Ok((user_id, device_id, epoch))
        }),
{
    let m = access_members(user_id, device_id, exp, issued, epoch);
    lemma_access_members(user_id, device_id, exp, issued, epoch);
    lemma_names_differ();
    assert(access_required().contains("iat"@));
    let found = access_found(token, secret, now);
    lemma_read_back(jwt_token::jwt_payload(token, secret)->0, m, access_names());
    let text = jwt_token::jwt_checked(
        token,
        secret,
        AUTH_AUDIENCE@,
        AUTH_ISSUER@,
        false,
        access_required(),
        now,
    );
    if text is Ok {
        lemma_read_back(text->Ok_0, m, access_names());
    }
    if found is Ok {
        let v = found->Ok_0;
        assert(json::json_field(v, "sub"@) == json::member(m, "sub"@));
        assert(json::json_field(v, "did"@) == json::member(m, "did"@));
        assert(json::json_field(v, "exp"@) == json::member(m, "exp"@));
        assert(json::json_field(v, "aud"@) == json::member(m, "aud"@));
        assert(json::json_field(v, "iss"@) == json::member(m, "iss"@));
        assert(json::json_field(v, "iat"@) == json::member(m, "iat"@));
        assert(json::json_field(v, "epoch"@) == json::member(m, "epoch"@));
    }
}

/// That the token is validated as the identity's at every reading of the clock up
/// to a minute after `end`, and reported as expired at every later one.
pub open spec fn good_until(
    token: Seq<char>,
    secret: Seq<u8>,
    user_id: Uuid,
    device_id: Uuid,
    epoch: i32,
    end: int,
) -> bool {
    forall|t: u64|
        jwt_token::plausible(t) ==> access_result(#[trigger] access_found(token, secret, t)) == (
        if t <= end + 60 {
            Ok::<(Uuid, Uuid, i32), AuthError>((user_id, device_id, epoch))
        } else {
            Err(AuthError::TokenExpired)
        })
}

/// An access token is signed exactly where the secret has 32 bytes and its expiry
/// can be represented, and it is then good for its whole lifetime, and no longer,
/// for the identity that it was signed for.
pub proof fn law_access_token_lives_for_its_lifetime(
    now: u64,
    user_id: Uuid,
    device_id: Uuid,
    secret: Seq<u8>,
    ttl_secs: u64,
    epoch: i32,
    r: Result<String, AuthError>,
)
    requires
        signs_access_token(Ok(now), user_id, device_id, secret, ttl_secs, epoch, r),
    ensures
        r is Ok <==> secret.len() >= 32 && now + ttl_secs <= u64::MAX,
        r is Ok ==> good_until(r->Ok_0@, secret, user_id, device_id, epoch, now + ttl_secs),
        secret.len() < 32 ==> r == Err::<String, AuthError>(AuthError::SecretTooShort),
{
    if r is Ok {
        let token = r->Ok_0@;
        let exp = (now + ttl_secs) as u64;
        assert forall|t: u64| jwt_token::plausible(t) implies access_result(
            #[trigger] access_found(token, secret, t),
        ) == (if t <= exp + 60 {
            Ok::<(Uuid, Uuid, i32), AuthError>((user_id, device_id, epoch))
        } else {
            Err(AuthError::TokenExpired)
        }) by {
            law_access_token_round_trip(token, secret, user_id, device_id, exp, now, epoch, t);
        }
    }
}

/// While a token has not expired, validation with rotation accepts it under the
/// secret that it was signed with: under the current one at once, and under the
/// previous one where the current one does not accept it.
pub proof fn law_rotation_keeps_tokens_valid(
    token: Seq<char>,
    signing: &[u8],
    other: &[u8],
    previous: Option<&[u8]>,
    user_id: Uuid,
    device_id: Uuid,
    exp: u64,
    issued: u64,
    epoch: i32,
    first: u64,
    second: u64,
)
    requires
        access_token_for(token, signing@, user_id, device_id, exp, issued, epoch),
        jwt_token::plausible(first),
        jwt_token::plausible(second),
        first <= exp + 60,
        second <= exp + 60,
    ensures
        rotation_result(token, signing@, previous, first, second) == Ok::<
            (Uuid, Uuid, i32),
            AuthError,
        >((user_id, device_id, epoch)),
        access_result(access_found(token, other@, first)) is Err ==> rotation_result(
            token,
            other@,
            Some(signing),
            first,
            second,
        ) == Ok::<(Uuid, Uuid, i32), AuthError>((user_id, device_id, epoch)),
{
    law_access_token_round_trip(
        token,
        signing@,
        user_id,
        device_id,
        exp,
        issued,
        epoch,
        first,
    );
    law_access_token_round_trip(
        token,
        signing@,
        user_id,
        device_id,
        exp,
        issued,
        epoch,
        second,
    );
}

/// What a LiveKit token lets its bearer do in a room.
#[derive(Clone, Copy, Debug)]
pub struct RoomGrants {
    pub join: bool,
    pub publish: bool,
    pub subscribe: bool,
}

/// The LiveKit token for an identity in a room, valid from `start` until
/// `ttl_secs` after a second reading of the clock.
pub uninterp spec fn livekit_signed(
    api_key: Seq<char>,
    api_secret: Seq<char>,
    identity: Seq<char>,
    name: Seq<char>,
    room: Seq<char>,
    grants: RoomGrants,
    start: u64,
    reading: u64,
    ttl_secs: u64,
) -> Seq<char>;

/// Whether a LiveKit token is signed: there are keys, and one that lets its
/// bearer join has an identity and a room.
pub open spec fn livekit_signs(
    api_key: Seq<char>,
    api_secret: Seq<char>,
    identity: Seq<char>,
    room: Seq<char>,
    grants: RoomGrants,
) -> bool {
    &&& api_key.len() > 0
    &&& api_secret.len() > 0
    &&& grants.join ==> identity.len() > 0 && room.len() > 0
}

/// The `AccessToken` builder of the `livekit-api` crate, from `with_api_key` to
/// `to_jwt`. The token is named for the lifetime and for the two readings of the
/// clock that it takes, which are not known: the first is its start, the second
/// with the lifetime added is its expiry. `to_jwt` refuses an empty key or secret, and an empty
/// identity or room where joining is granted; all else it signs. The words of an
/// error are left open.
#[verifier::external_body]
pub(crate) fn livekit_encode(
    api_key: &str,
    api_secret: &str,
    identity: &str,
    name: &str,
    room: &str,
    grants: RoomGrants,
    ttl_secs: u64,
) -> (r: Result<String, String>)
    requires
        ttl_secs <= i64::MAX,
    ensures
        match r {
            Ok(t) => livekit_signs(api_key@, api_secret@, identity@, room@, grants) && exists|
                start: u64,
                reading: u64,
            |
                t@ == #[trigger] livekit_signed(
                    api_key@,
                    api_secret@,
                    identity@,
                    name@,
                    room@,
                    grants,
                    start,
                    reading,
                    ttl_secs,
                ),
            Err(_) => !livekit_signs(api_key@, api_secret@, identity@, room@, grants),
        },
{
    let mut video = livekit_api::access_token::VideoGrants::default();
    video.room_join = grants.join;
    video.room = room.to_owned();
    video.can_publish = grants.publish;
    video.can_subscribe = grants.subscribe;
    livekit_api::access_token::AccessToken::with_api_key(api_key, api_secret)
        .with_identity(identity)
        .with_name(name)
        .with_grants(video)
        .with_ttl(std::time::Duration::from_secs(ttl_secs))
        .to_jwt()
        .map_err(|e| e.to_string())
}

/// Signs a LiveKit token that lets the participant join the room, publish and
/// subscribe for the lifetime given. Empty keys, and an empty room or participant, are refused.
pub fn sign_livekit_token(
    room_id: &str,
    participant_id: &str,
    display_name: &str,
    api_key: &str,
    api_secret: &str,
    ttl_secs: u64,
) -> (r: Result<String, SfuError>)
    requires
        ttl_secs <= i64::MAX,
    ensures
        ({
            let no_keys = api_key@.len() == 0 || api_secret@.len() == 0;
            let no_names = room_id@.len() == 0 || participant_id@.len() == 0;
            match r {
                Ok(t) => !no_keys && !no_names && exists|start: u64, reading: u64|
                    t@ == #[trigger] livekit_signed(
                        api_key@,
                        api_secret@,
                        participant_id@,
                        display_name@,
                        room_id@,
                        (RoomGrants { join: true, publish: true, subscribe: true }),
                        start,
                        reading,
                        ttl_secs,
                    ),
                Err(SfuError::TokenError(e)) => if no_keys {
                    e@ == "LiveKit api_key and api_secret must be non-empty"@
                } else {
                    no_names && e@ == "room_id and participant_id must be non-empty"@
                },
            }
        }),
{
    if api_key.is_empty() || api_secret.is_empty() {
        return Err(
            SfuError::TokenError("LiveKit api_key and api_secret must be non-empty".to_owned()),
        );
    }
    if room_id.is_empty() || participant_id.is_empty() {
        return Err(SfuError::TokenError("room_id and participant_id must be non-empty".to_owned()));
    }
    let grants = RoomGrants { join: true, publish: true, subscribe: true };
    match livekit_encode(
        api_key,
        api_secret,
        participant_id,
        display_name,
        room_id,
        grants,
        ttl_secs,
    ) {
        Ok(t) => Ok(t),
        Err(reason) => Err(
            SfuError::TokenError(
                "LiveKit token signing failed: ".to_owned().concat(reason.as_str()),
            ),
        ),
    }
}

/// A media token from its signing to its use. It is signed exactly where the
/// secret has 32 bytes and its expiry can be represented. It is good, a minute of
/// leeway on both sides, from when it was signed for its whole lifetime, and then
/// tells the room and the participant that it was signed for, with the right to
/// publish and to subscribe; for another audience or issuer it is never good.
pub proof fn law_media_token_from_signing_to_use(
    now: u64,
    room_id: Seq<char>,
    participant_id: Seq<char>,
    secret: Seq<u8>,
    issuer: Seq<char>,
    ttl_secs: u64,
    jti: Seq<char>,
    signed: Result<String, SfuError>,
    audience: Seq<char>,
    expected: Seq<char>,
    at: u64,
    checked: Result<MediaTokenClaims, SfuError>,
)
    requires
        signs_media_token(
            Ok(now),
            room_id,
            participant_id,
            secret,
            issuer,
            ttl_secs,
            jti,
            signed,
        ),
        jwt_token::plausible(at),
        signed is Ok ==> media_outcome_at(
            signed->Ok_0@,
            secret,
            audience,
            expected,
            at,
            checked,
        ),
    ensures
        signed is Ok <==> secret.len() >= 32 && now + ttl_secs <= u64::MAX,
        signed is Ok ==> (checked is Ok <==> audience == "wavis-sfu"@ && expected == issuer && at
            <= now + ttl_secs + 60 && now <= at + 60),
        signed is Ok && checked is Ok ==> ({
            let c = checked->Ok_0;
            &&& c.room_id@ == room_id
            &&& c.participant_id@ == participant_id
            &&& c.permissions@.map_values(|p: String| p@) == seq!["publish"@, "subscribe"@]
            &&& c.exp == now + ttl_secs
            &&& c.nbf == now
            &&& c.iat == now
            &&& c.jti@ == jti
            &&& c.aud@ == "wavis-sfu"@
            &&& c.iss@ == issuer
        }),
{
    if signed is Ok {
        let token = signed->Ok_0@;
        let exp = (now + ttl_secs) as u64;
        law_media_token_round_trip(
            token,
            secret,
            room_id,
            participant_id,
            issuer,
            exp,
            now,
            jti,
            at,
        );
        if audience == SFU_AUDIENCE@ && expected == issuer && at <= exp + 60 && now <= at + 60 {
            law_media_claims_come_back(
                token,
                secret,
                room_id,
                participant_id,
                issuer,
                exp,
                now,
                jti,
                at,
                checked,
            );
        }
    }
}

/// A media token is never taken for an access token, nor the other way round,
/// even where one secret signs both.
pub proof fn law_media_and_access_tokens_are_told_apart(
    media: Seq<char>,
    access: Seq<char>,
    secret: Seq<u8>,
    room_id: Seq<char>,
    participant_id: Seq<char>,
    issuer: Seq<char>,
    exp: u64,
    issued: u64,
    jti: Seq<char>,
    user_id: Uuid,
    device_id: Uuid,
    epoch: i32,
    expected: Seq<char>,
    now: u64,
)
    requires
        jwt_token::carries(
            media,
            secret,
            media_members(room_id, participant_id, issuer, exp, issued, jti),
        ),
        access_token_for(access, secret, user_id, device_id, exp, issued, epoch),
        jwt_token::plausible(now),
    ensures
        access_result(access_found(media, secret, now)) is Err,
        media_found(access, secret, "wavis-sfu"@, expected, now) is Err,
{
    lemma_media_members(room_id, participant_id, issuer, exp, issued, jti);
    lemma_access_members(user_id, device_id, exp, issued, epoch);
    reveal_strlit("wavis-sfu");
    reveal_strlit("wavis");
    assert("wavis-sfu"@.len() == 9);
    assert("wavis"@.len() == 5);
    assert(SFU_AUDIENCE@ != AUTH_AUDIENCE@);
}

/// A LiveKit token lets exactly the participant, under the name shown, join the
/// room, publish and subscribe, for the lifetime given. It is refused exactly
/// without keys, or without a room or a participant; the keys are looked at first.
pub proof fn law_what_a_livekit_token_is_for(
    room_id: &str,
    participant_id: &str,
    display_name: &str,
    api_key: &str,
    api_secret: &str,
    ttl_secs: u64,
    r: Result<String, SfuError>,
)
    requires
        ttl_secs <= i64::MAX,
        call_ensures(
            sign_livekit_token,
            (room_id, participant_id, display_name, api_key, api_secret, ttl_secs),
            r,
        ),
    ensures
        r is Ok <==> api_key@.len() > 0 && api_secret@.len() > 0 && room_id@.len() > 0
            && participant_id@.len() > 0,
        r is Ok ==> exists|start: u64, reading: u64|
            r->Ok_0@ == #[trigger] livekit_signed(
                api_key@,
                api_secret@,
                participant_id@,
                display_name@,
                room_id@,
                (RoomGrants { join: true, publish: true, subscribe: true }),
                start,
                reading,
                ttl_secs,
            ),
        r is Err && (api_key@.len() == 0 || api_secret@.len() == 0) ==> r->Err_0->TokenError_0@
            == "LiveKit api_key and api_secret must be non-empty"@,
        r is Err && api_key@.len() > 0 && api_secret@.len() > 0 ==> r->Err_0->TokenError_0@
            == "room_id and participant_id must be non-empty"@,
{
}

/// The claims of an access token are those of the document under their own names. A
/// device that is not named is none, an epoch that is not named is zero, and one that
/// does not fit into 32 bits is no epoch.
pub proof fn law_access_claims_are_read(j: &Json, r: Option<AuthTokenClaims>)
    requires
        call_ensures(access_claims_of, (j,), r),
    ensures
        ({
            let v = j@;
            let did = json::json_field(v, "did"@);
            let epoch = json::json_field(v, "epoch"@);
            {
                &&& r is Some ==> json::field_text(v, "sub"@) == Some(r->0.sub@)
                &&& r is Some ==> json::field_text(v, "aud"@) == Some(r->0.aud@)
                &&& r is Some ==> json::field_text(v, "iss"@) == Some(r->0.iss@)
                &&& r is Some ==> json::json_field(v, "exp"@) == Some(JsonView::Unsigned(r->0.exp))
                &&& r is Some ==> json::json_field(v, "iat"@) == Some(JsonView::Unsigned(r->0.iat))
                &&& r is Some && did is None ==> r->0.did@.len() == 0
                &&& r is Some && did is Some ==> json::field_text(v, "did"@) == Some(r->0.did@)
                &&& r is Some && epoch is None ==> r->0.epoch == 0
                &&& r is Some && epoch is Some && epoch->0 is Unsigned ==> r->0.epoch
                    == epoch->0->Unsigned_0
                &&& r is Some && epoch is Some && epoch->0 is Negative ==> r->0.epoch
                    == epoch->0->Negative_0
                &&& json::field_text(v, "sub"@) is Some && json::field_text(v, "aud"@) is Some
                    && json::field_text(v, "iss"@) is Some && json::json_field(v, "exp"@) is Some
                    && json::json_field(v, "exp"@)->0 is Unsigned && json::json_field(v, "iat"@)
                    is Some && json::json_field(v, "iat"@)->0 is Unsigned && (did is None
                    || did->0 is Text) && (epoch is None || (epoch->0 is Unsigned
                    && epoch->0->Unsigned_0 <= 0x7fff_ffff) || (epoch->0 is Negative
                    && -0x8000_0000 <= epoch->0->Negative_0 <= 0x7fff_ffff)) ==> r is Some
                &&& epoch is Some && epoch->0 is Unsigned && epoch->0->Unsigned_0 > 0x7fff_ffff
                    ==> r is None
                &&& did is Some && !(did->0 is Text) ==> r is None
            }
        }),
{
}

/// The claims of a media token are those of the document under their own names.
pub proof fn law_media_claims_are_read(j: &Json, r: Option<MediaTokenClaims>, i: int)
    requires
        call_ensures(media_claims_of, (j,), r),
        r is Some,
    ensures
        json::field_text(j@, "room_id"@) == Some(r->0.room_id@),
        json::field_text(j@, "participant_id"@) == Some(r->0.participant_id@),
        json::json_field(j@, "exp"@) == Some(JsonView::Unsigned(r->0.exp)),
        json::json_field(j@, "nbf"@) == Some(JsonView::Unsigned(r->0.nbf)),
        json::json_field(j@, "iat"@) == Some(JsonView::Unsigned(r->0.iat)),
        json::field_text(j@, "jti"@) == Some(r->0.jti@),
        json::field_text(j@, "aud"@) == Some(r->0.aud@),
        json::field_text(j@, "iss"@) == Some(r->0.iss@),
        ({
            let listed = json::json_field(j@, "permissions"@)->0->Array_0;
            {
                &&& listed.len() == r->0.permissions@.len()
                &&& 0 <= i < listed.len() ==> listed[i] == JsonView::Text(r->0.permissions@[i]@)
            }
        }),
{
}

/// The user and the device of claims are those whose ids they hold; a device that is
/// not named is the nil one, and claims that hold no ids are of nobody. An expired
/// token is told from one that is not valid.
pub proof fn law_claims_name_their_user(
    claims: &AuthTokenClaims,
    r: Result<(Uuid, Uuid, i32), AuthError>,
    expired: bool,
    of_error: Result<(Uuid, Uuid, i32), AuthError>,
)
    requires
        call_ensures(access_identity, (claims,), r),
        call_ensures(access_identity_from, (Err(expired),), of_error),
    ensures
        r is Ok ==> ids::uuid_parsed(claims.sub@) == Some((r->Ok_0).0.value),
        r is Ok && claims.did@.len() > 0 ==> ids::uuid_parsed(claims.did@) == Some(
            (r->Ok_0).1.value,
        ),
        r is Ok && claims.did@.len() == 0 ==> (r->Ok_0).1.value == 0,
        r is Ok ==> (r->Ok_0).2 == claims.epoch,
        r is Err ==> r->Err_0 is InvalidToken,
        r is Err <==> ids::uuid_parsed(claims.sub@) is None || (claims.did@.len() > 0
            && ids::uuid_parsed(claims.did@) is None),
        of_error is Err,
        expired <==> of_error->Err_0 is TokenExpired,
        !expired <==> of_error->Err_0 is ValidationFailed,
{
}

/// A media token is never read with a secret of fewer than 32 bytes, and the error
/// says so.
pub proof fn law_short_secrets_read_nothing(
    token: &str,
    secret: &[u8],
    audience: &str,
    issuer: &str,
    r: Result<MediaTokenClaims, SfuError>,
)
    requires
        call_ensures(validate_media_token, (token, secret, audience, issuer), r),
        secret@.len() < 32,
    ensures
        r is Err && r->Err_0->TokenError_0@ == "SFU_JWT_SECRET must be at least 32 bytes"@,
{
}

} // verus!
