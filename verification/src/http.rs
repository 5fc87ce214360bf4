//! Answers to requests, as plain values.

use crate::text;
use vstd::prelude::*;

verus! {

/// A request that was turned down: the HTTP status and the error text.
#[derive(Debug)]
pub struct Rejection {
    pub status: u16,
    pub error: String,
}

impl Rejection {
    /// That this is the rejection with that status and text.
    pub open spec fn says(&self, status: u16, error: Seq<char>) -> bool {
        self.status == status && self.error@ == error
    }

    /// The rejection with that status and text.
    pub fn new(status: u16, error: &str) -> (r: Rejection)
        ensures
            r.says(status, error@),
    {
        Rejection { status, error: error.to_owned() }
    }
}

/// The token of an `Authorization` header of the form `Bearer <token>`.
pub open spec fn bearer(header: Seq<char>) -> Option<Seq<char>> {
    if "Bearer "@.is_prefix_of(header) {
        Some(header.skip("Bearer "@.len() as int))
    } else {
        None
    }
}

/// The token of an `Authorization` header of the form `Bearer <token>`.
pub fn bearer_token<'a>(header: &'a str) -> (r: Option<&'a str>)
    ensures
        match r {
            Some(token) => bearer(header@) == Some(token@),
            None => bearer(header@) is None,
        },
{
    text::strip_prefix(header, "Bearer ")
}

/// Whether the header, if there is one, bears the token expected.
pub fn bears(header: Option<&str>, expected: &str) -> (r: bool)
    ensures
        r == (header is Some && bearer(header->0@) == Some(expected@)),
{
    match header {
        Some(h) => match bearer_token(h) {
            Some(token) => text::str_eq(token, expected),
            None => false,
        },
        None => false,
    }
}

/// A request bears a token exactly where its header is `Bearer`, a space, and that
/// token.
pub proof fn law_bearers_bear_their_token(
    header: Option<&str>,
    expected: &str,
    r: bool,
    given: &str,
    token: Option<&str>,
)
    requires
        call_ensures(bears, (header, expected), r),
        call_ensures(bearer_token, (given,), token),
    ensures
        r <==> header is Some && header->0@ == "Bearer "@ + expected@,
        token is Some ==> given@ == "Bearer "@ + token->0@,
        token is None ==> forall|rest: Seq<char>| given@ != #[trigger] ("Bearer "@ + rest),
{
    if header is Some {
        lemma_bearer_is_the_rest(header->0@, expected@);
    }
    if token is Some {
        lemma_bearer_is_the_rest(given@, token->0@);
    }
    assert forall|rest: Seq<char>| token is None implies given@ != #[trigger] ("Bearer "@ + rest) by {
        lemma_bearer_is_the_rest(given@, rest);
    }
}

proof fn lemma_bearer_is_the_rest(header: Seq<char>, token: Seq<char>)
    ensures
        bearer(header) == Some(token) <==> header == "Bearer "@ + token,
{
    let n = "Bearer "@.len() as int;
    if "Bearer "@.is_prefix_of(header) {
        assert(header =~= "Bearer "@ + header.skip(n));
    }
    assert(("Bearer "@ + token).skip(n) =~= token);
    assert(("Bearer "@ + token).subrange(0, n) =~= "Bearer "@);
    assert("Bearer "@.is_prefix_of("Bearer "@ + token));
}

} // verus!
