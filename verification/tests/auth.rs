use vitrine::auth::{
    auth_refusal, check_bearer_auth, configured_token, constant_time_eq, AuthCheck,
};
use vitrine::json::Json;

#[test]
fn constant_time_eq_matches() {
    assert!(constant_time_eq(b"secret", b"secret"));
    assert!(!constant_time_eq(b"secret", b"Secret"));
    assert!(!constant_time_eq(b"secret", b"secre"));
    assert!(!constant_time_eq(b"ab", b"abc"));
    assert!(constant_time_eq(b"", b""));
}

#[test]
fn bearer_auth_checks() {
    assert_eq!(
        check_bearer_auth(Some("Bearer tok"), "tok"),
        AuthCheck::Authorized
    );
    assert_eq!(
        check_bearer_auth(Some("Bearer no"), "tok"),
        AuthCheck::Unauthorized
    );
    assert_eq!(check_bearer_auth(None, "tok"), AuthCheck::Unauthorized);
    assert_eq!(
        check_bearer_auth(Some("Bearer x"), ""),
        AuthCheck::NotConfigured
    );
}

#[test]
fn trailing_zero_bytes_count() {
    assert!(!constant_time_eq(b"ab", b"ab\0"));
    assert!(!constant_time_eq(b"", b"\0"));
}

#[test]
fn only_the_exact_header_opens() {
    assert_eq!(
        check_bearer_auth(Some("bearer tok"), "tok"),
        AuthCheck::Unauthorized
    );
    assert_eq!(
        check_bearer_auth(Some("Bearer tok "), "tok"),
        AuthCheck::Unauthorized
    );
    assert_eq!(
        check_bearer_auth(Some("tok"), "tok"),
        AuthCheck::Unauthorized
    );
}

#[test]
fn a_secret_goes_before_a_variable() {
    assert_eq!(configured_token(Some("a"), Some("b")), "a");
    assert_eq!(configured_token(None, Some("b")), "b");
    assert_eq!(configured_token(None, None), "");
    assert_eq!(configured_token(Some(""), Some("b")), "");
}

#[test]
fn refusals_say_why() {
    assert!(auth_refusal(AuthCheck::Authorized).is_none());
    let reply = auth_refusal(AuthCheck::Unauthorized).unwrap();
    assert_eq!(reply.status, 401);
    assert_eq!(reply.body.get("error"), Some(&Json::text("unauthorized")));
    assert_eq!(reply.body.get("ok"), Some(&Json::Bool(false)));
    let reply = auth_refusal(AuthCheck::NotConfigured).unwrap();
    assert_eq!(reply.status, 500);
    assert_eq!(
        reply.body.get("error"),
        Some(&Json::text("INGEST_TOKEN not configured"))
    );
}
