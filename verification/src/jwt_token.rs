//! Signed tokens: the calls that sign and check them.

use crate::json;
use crate::json::Json;
use crate::json::JsonView;
use crate::members;
use vstd::prelude::*;

verus! {

/// Seconds by which a clock may be off when a token's times are checked.
pub const LEEWAY_SECS: u64 = 60;

/// One claim of a token.
#[derive(Debug)]
pub enum Claim {
    Text(String),
    Number(u64),
    Signed(i32),
    List(Vec<String>),
}

impl View for Claim {
    type V = JsonView;

    open spec fn view(&self) -> JsonView {
        match self {
            Claim::Text(s) => JsonView::Text(s@),
            Claim::Number(n) => JsonView::Unsigned(*n),
            Claim::Signed(n) => signed_view(*n),
            Claim::List(items) => JsonView::Array(
                items@.map_values(|s: String| JsonView::Text(s@)),
            ),
        }
    }
}

/// An integer as a JSON document.
pub open spec fn signed_view(n: i32) -> JsonView {
    if n >= 0 {
        JsonView::Unsigned(n as u64)
    } else {
        JsonView::Negative(n as i64)
    }
}

/// The claims by name.
pub open spec fn claims_view(claims: Seq<(String, Claim)>) -> Seq<(Seq<char>, JsonView)> {
    claims.map_values(|c: (String, Claim)| (c.0@, c.1@))
}

/// No name occurs twice.
pub open spec fn distinct_names(claims: Seq<(Seq<char>, JsonView)>) -> bool {
    forall|i: int, j: int|
        0 <= i < j < claims.len() ==> (#[trigger] claims[i]).0 != (#[trigger] claims[j]).0
}

/// The claims that are checked have the types that they should have: an expiry,
/// an issuer and an audience, and perhaps a subject and a start time.
pub open spec fn checkable(claims: Seq<(Seq<char>, JsonView)>) -> bool {
    let exp = json::member(claims, "exp"@);
    let nbf = json::member(claims, "nbf"@);
    let sub = json::member(claims, "sub"@);
    let iss = json::member(claims, "iss"@);
    let aud = json::member(claims, "aud"@);
    &&& exp is Some && exp->0 is Unsigned
    &&& iss is Some && iss->0 is Text
    &&& aud is Some && aud->0 is Text
    &&& sub is Some ==> sub->0 is Text
    &&& nbf is Some ==> nbf->0 is Unsigned
}

/// What a check found.
pub enum Verdict {
    Accepted,
    Expired,
    Refused,
}

/// The names that a check looks for where they are required.
pub open spec fn looked_for(name: Seq<char>) -> bool {
    name == "exp"@ || name == "nbf"@ || name == "sub"@ || name == "iss"@ || name == "aud"@
}

/// What the check of claims says, at a reading `now` of the clock.
pub open spec fn verdict(
    claims: Seq<(Seq<char>, JsonView)>,
    audience: Seq<char>,
    issuer: Seq<char>,
    check_start: bool,
    required: Set<Seq<char>>,
    now: u64,
) -> Verdict {
    if exists|name: Seq<char>|
        #[trigger] required.contains(name) && looked_for(name) && json::member(
            claims,
            name,
        ) is None {
        Verdict::Refused
    } else if json::member(claims, "exp"@)->0->Unsigned_0 + LEEWAY_SECS < now {
        Verdict::Expired
    } else if check_start && json::member(claims, "nbf"@) is Some && json::member(
        claims,
        "nbf"@,
    )->0->Unsigned_0 > now + LEEWAY_SECS {
        Verdict::Refused
    } else if json::member(claims, "iss"@) != Some(JsonView::Text(issuer)) || json::member(
        claims,
        "aud"@,
    ) != Some(JsonView::Text(audience)) {
        Verdict::Refused
    } else {
        Verdict::Accepted
    }
}

/// The token that carries the claims under a secret.
pub uninterp spec fn jwt_signed(claims: Seq<(Seq<char>, JsonView)>, secret: Seq<u8>) -> Seq<char>;

/// What a check of `token` gives at a reading `now` of the clock: the text of
/// the claims, or whether it was refused for having expired.
pub uninterp spec fn jwt_checked(
    token: Seq<char>,
    secret: Seq<u8>,
    audience: Seq<char>,
    issuer: Seq<char>,
    check_start: bool,
    required: Set<Seq<char>>,
    now: u64,
) -> Result<Seq<char>, bool>;

/// The text that `token` carries, where `secret` signed it and whatever its
/// claims say.
pub uninterp spec fn jwt_payload(token: Seq<char>, secret: Seq<u8>) -> Option<Seq<char>>;

/// That `token` carries the claims given under `secret`, and that checks of it
/// find them, with the verdict that these claims deserve.
pub open spec fn carries(
    token: Seq<char>,
    secret: Seq<u8>,
    claims: Seq<(Seq<char>, JsonView)>,
) -> bool {
    &&& jwt_payload(token, secret) is Some
    &&& members::writes(jwt_payload(token, secret)->0, claims)
    &&& forall|
        audience: Seq<char>,
        issuer: Seq<char>,
        check_start: bool,
        required: Set<Seq<char>>,
        now: u64,
    |
        #![trigger jwt_checked(token, secret, audience, issuer, check_start, required, now)]
        plausible(now) ==> {
            let found = jwt_checked(
                token,
                secret,
                audience,
                issuer,
                check_start,
                required,
                now,
            );
            match verdict(claims, audience, issuer, check_start, required, now) {
                Verdict::Accepted => found is Ok && members::writes(found->Ok_0, claims),
                Verdict::Expired => found == Err::<Seq<char>, bool>(true),
                Verdict::Refused => found == Err::<Seq<char>, bool>(false),
            }
        }
}

/// `jsonwebtoken::encode` with HS256 on a map of claims, which keeps their order.
/// The token is named. Where the claims are of the types that a check looks at,
/// it carries a text under the same secret that writes each of them once and no
/// other, and checks of it find such a text. No error can arise from such claims
/// and an HMAC key.
#[verifier::external_body]
pub(crate) fn jwt_encode(claims: &Vec<(String, Claim)>, secret: &[u8]) -> (token: String)
    requires
        distinct_names(claims_view(claims@)),
    ensures
        token@ == jwt_signed(claims_view(claims@), secret@),
        checkable(claims_view(claims@)) ==> carries(token@, secret@, claims_view(claims@)),
{
    let mut map = serde_json::Map::new();
    for (name, claim) in claims.iter() {
        let value = match claim {
            Claim::Text(s) => serde_json::Value::from(s.as_str()),
            Claim::Number(n) => serde_json::Value::from(*n),
            Claim::Signed(n) => serde_json::Value::from(*n),
            Claim::List(items) => serde_json::Value::from(items.clone()),
        };
        map.insert(name.clone(), value);
    }
    let header = jsonwebtoken::Header::new(jsonwebtoken::Algorithm::HS256);
    let key = jsonwebtoken::EncodingKey::from_secret(secret);
    jsonwebtoken::encode(&header, &map, &key).expect("plain claims and an HMAC key")
}

/// Why a check refused a token.
#[derive(Debug)]
pub struct Refusal {
    /// The token had expired.
    pub expired: bool,
    /// The reason in words.
    pub reason: String,
}

/// The set of the names in a list.
pub open spec fn names(list: Seq<&str>) -> Set<Seq<char>> {
    list.map_values(|s: &str| s@).to_set()
}

/// That what came back is what was found at a plausible reading of the clock.
pub open spec fn same_finding(
    r: Result<String, Refusal>,
    found: Result<Seq<char>, bool>,
    now: u64,
) -> bool {
    plausible(now) && match (r, found) {
        (Ok(text), Ok(claims)) => text@ == claims,
        (Err(refusal), Err(expired)) => refusal.expired == expired,
        _ => false,
    }
}

/// A reading of the clock that leaves room for the leeway on both sides.
pub open spec fn plausible(now: u64) -> bool {
    LEEWAY_SECS <= now <= u64::MAX - LEEWAY_SECS
}

/// `jsonwebtoken::decode` with HS256 for the JSON text of the claims, the expiry
/// being checked. The outcome is named for the reading of the clock at the time
/// of the call, which is not known. The words of a refusal are left open.
#[verifier::external_body]
pub(crate) fn jwt_decode(
    token: &str,
    secret: &[u8],
    audience: &str,
    issuer: &str,
    check_start: bool,
    required: &[&str],
) -> (r: Result<String, Refusal>)
    ensures
        exists|now: u64|
            same_finding(
                r,
                #[trigger] jwt_checked(
                    token@,
                    secret@,
                    audience@,
                    issuer@,
                    check_start,
                    names(required@),
                    now,
                ),
                now,
            ),
{
    let mut checks = jsonwebtoken::Validation::new(jsonwebtoken::Algorithm::HS256);
    checks.set_audience(&[audience]);
    checks.set_issuer(&[issuer]);
    checks.set_required_spec_claims(required);
    checks.validate_nbf = check_start;
    let key = jsonwebtoken::DecodingKey::from_secret(secret);
    match jsonwebtoken::decode::<Box<serde_json::value::RawValue>>(token, &key, &checks) {
        Ok(data) => Ok(data.claims.get().to_owned()),
        Err(e) => Err(Refusal {
            expired: matches!(e.kind(), jsonwebtoken::errors::ErrorKind::ExpiredSignature),
            reason: e.to_string(),
        }),
    }
}

/// `jsonwebtoken::decode` with HS256 for the JSON text of the claims, the
/// signature being checked and no claim. The outcome is named; nothing is said of
/// why a token is not read.
#[verifier::external_body]
pub(crate) fn jwt_open(token: &str, secret: &[u8]) -> (r: Option<String>)
    ensures
        match r {
            Some(text) => jwt_payload(token@, secret@) == Some(text@),
            None => jwt_payload(token@, secret@) is None,
        },
{
    let mut checks = jsonwebtoken::Validation::new(jsonwebtoken::Algorithm::HS256);
    checks.required_spec_claims.clear();
    checks.validate_exp = false;
    checks.validate_aud = false;
    let key = jsonwebtoken::DecodingKey::from_secret(secret);
    match jsonwebtoken::decode::<Box<serde_json::value::RawValue>>(token, &key, &checks) {
        Ok(data) => Some(data.claims.get().to_owned()),
        Err(_) => None,
    }
}

} // verus!
