//! Bearer authentication.

use crate::json::{refusal, Reply};
use crate::text;
use vstd::prelude::*;

verus! {

/// The outcome of checking an `Authorization` header.
#[derive(Debug, Clone, Copy, PartialEq, Eq)]
pub enum AuthCheck {
    Authorized,
    Unauthorized,
    NotConfigured,
}

/// Nothing differs so far, and the next two bytes are the same, exactly if
/// their difference adds no bit.
proof fn lemma_no_difference(diff: u8, x: u8, y: u8)
    ensures
        (diff | (x ^ y)) == 0 <==> diff == 0 && x == y,
{
    assert((diff | (x ^ y)) == 0 <==> diff == 0 && x == y) by (bit_vector);
}

/// Equality of secret bytes without an early exit: every byte of the longer
/// sequence is looked at.
pub fn constant_time_eq(a: &[u8], b: &[u8]) -> (r: bool)
    ensures
        r == (a@ == b@),
{
    let max: usize = if a.len() > b.len() {
        a.len()
    } else {
        b.len()
    };
    let mut diff: u8 = if a.len() != b.len() {
        1
    } else {
        0
    };
    let mut i: usize = 0;
    while i < max
        invariant
            i <= max,
            a@.len() <= max,
            b@.len() <= max,
            a@.len() == max || b@.len() == max,
            diff == 0 <==> a@.len() == b@.len() && forall|j: int| 0 <= j < i ==> a@[j] == b@[j],
        decreases max - i,
    {
        let x: u8 = if i < a.len() {
            a[i]
        } else {
            0
        };
        let y: u8 = if i < b.len() {
            b[i]
        } else {
            0
        };
        proof {
            lemma_no_difference(diff, x, y);
        }
        diff = diff | (x ^ y);
        i += 1;
    }
    assert(diff == 0 ==> a@ =~= b@);
    diff == 0
}

/// The outcome for a header, where the expected token is `token`.
pub open spec fn auth_outcome(header: Option<Seq<char>>, token: Seq<char>) -> AuthCheck {
    if token.len() == 0 {
        AuthCheck::NotConfigured
    } else if header == Some("Bearer "@ + token) {
        AuthCheck::Authorized
    } else {
        AuthCheck::Unauthorized
    }
}

/// Checks `Authorization: Bearer <token>`.
pub fn check_bearer_auth(auth_header: Option<&str>, token: &str) -> (r: AuthCheck)
    ensures
        r == auth_outcome(text::view_of(auth_header), token@),
{
    if token.is_empty() {
        return AuthCheck::NotConfigured;
    }
    match auth_header {
        None => AuthCheck::Unauthorized,
        Some(header) => {
            let expected = text::concat2("Bearer ", token);
            let same = constant_time_eq(header.as_bytes(), expected.as_str().as_bytes());
            proof {
                if same {
                    text::lemma_utf8_injective(header@, expected@);
                }
            }
            if same {
                AuthCheck::Authorized
            } else {
                AuthCheck::Unauthorized
            }
        },
    }
}

/// The token of the service: the secret, else the variable, else none.
pub open spec fn token_of(secret: Option<Seq<char>>, variable: Option<Seq<char>>) -> Seq<char> {
    match (secret, variable) {
        (Some(s), _) => s,
        (None, Some(v)) => v,
        (None, None) => Seq::empty(),
    }
}

/// The token of the service: the secret, else the variable, else none.
pub fn configured_token(secret: Option<&str>, variable: Option<&str>) -> (r: String)
    ensures
        r@ == token_of(text::view_of(secret), text::view_of(variable)),
{
    match secret {
        Some(s) => s.to_owned(),
        None => match variable {
            Some(v) => v.to_owned(),
            None => String::new(),
        },
    }
}

/// The reply to a caller who may not go on, none to one who may.
pub open spec fn auth_refusal_view(check: AuthCheck) -> Option<crate::json::ReplyView> {
    match check {
        AuthCheck::Authorized => None,
        AuthCheck::Unauthorized => Some(crate::json::refusal_view("unauthorized"@, 401)),
        AuthCheck::NotConfigured => Some(
            crate::json::refusal_view("INGEST_TOKEN not configured"@, 500),
        ),
    }
}

/// The reply to a caller who may not go on.
pub fn auth_refusal(check: AuthCheck) -> (r: Option<Reply>)
    ensures
        match r {
            Some(reply) => auth_refusal_view(check) == Some(reply@),
            None => auth_refusal_view(check) is None,
        },
{
    match check {
        AuthCheck::Authorized => None,
        AuthCheck::Unauthorized => Some(refusal("unauthorized", 401)),
        AuthCheck::NotConfigured => Some(refusal("INGEST_TOKEN not configured", 500)),
    }
}

/// A caller goes on exactly if a token is configured and the header presents it.
pub proof fn law_only_the_token_opens(header: Option<Seq<char>>, token: Seq<char>)
    ensures
        auth_refusal_view(auth_outcome(header, token)) is None <==> token.len() > 0 && header
            == Some("Bearer "@ + token),
{
}

/// Without a configured token everyone is told so; with one, everyone who does not
/// present it is unauthorized.
pub proof fn law_checks(header: Option<Seq<char>>, token: Seq<char>)
    ensures
        token.len() == 0 ==> auth_outcome(header, token) == AuthCheck::NotConfigured,
        token.len() > 0 && header == Some("Bearer "@ + token) ==> auth_outcome(header, token)
            == AuthCheck::Authorized,
        token.len() > 0 && header != Some("Bearer "@ + token) ==> auth_outcome(header, token)
            == AuthCheck::Unauthorized,
        auth_refusal_view(AuthCheck::Authorized) is None,
        auth_refusal_view(AuthCheck::Unauthorized) is Some,
        crate::json::is_refusal(
            auth_refusal_view(AuthCheck::Unauthorized)->0,
            "unauthorized"@,
            401,
        ),
        auth_refusal_view(AuthCheck::NotConfigured) is Some,
        crate::json::is_refusal(
            auth_refusal_view(AuthCheck::NotConfigured)->0,
            "INGEST_TOKEN not configured"@,
            500,
        ),
{
    crate::json::law_refusal_reads("unauthorized"@, 401);
    crate::json::law_refusal_reads("INGEST_TOKEN not configured"@, 500);
}

/// The token is the secret, even an empty one, else the variable, else none.
pub proof fn law_tokens(secret: Seq<char>, variable: Option<Seq<char>>)
    ensures
        token_of(Some(secret), variable) == secret,
        variable is Some ==> Some(token_of(None, variable)) == variable,
        token_of(None, None).len() == 0,
{
}

} // verus!
