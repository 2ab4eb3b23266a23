use vitrine::auth::AuthCheck;
use vitrine::json::{health, Json};
use vitrine::request::{
    cors_headers, parse_limit_offset, query_param, route, time_or_epoch, Method, Route, Url,
};

#[test]
fn parse_limit_offset_clamps() {
    let url = Url::parse("https://example.test/api/works?limit=999&offset=-5").unwrap();
    assert_eq!(parse_limit_offset(&url), (100, 0));

    let url = Url::parse("https://example.test/api/works?limit=0&offset=10").unwrap();
    assert_eq!(parse_limit_offset(&url), (1, 10));

    let url = Url::parse("https://example.test/api/works").unwrap();
    assert_eq!(parse_limit_offset(&url), (40, 0));
}

#[test]
fn health_payload_shape() {
    let reply = health();
    assert_eq!(reply.status, 200);
    assert_eq!(reply.body.get("ok"), Some(&Json::Bool(true)));
    assert_eq!(reply.body.get("service"), Some(&Json::text("vitrine")));
}

#[test]
fn urls_are_read() {
    let url = Url::parse("https://example.test/a%20b?q=x%20y+z&q=2&e=").unwrap();
    assert_eq!(url.path, "/a%20b");
    assert_eq!(
        url.query,
        vec![
            ("q".to_string(), "x y z".to_string()),
            ("q".to_string(), "2".to_string()),
            ("e".to_string(), "".to_string()),
        ]
    );
    assert!(Url::parse("no url").is_none());
}

#[test]
fn the_first_parameter_counts() {
    let url = Url::parse("https://example.test/?tag=%20a%20&tag=b&limit=x&limit=7").unwrap();
    assert_eq!(query_param(&url, "tag"), "a");
    assert_eq!(query_param(&url, "q"), "");
    assert_eq!(parse_limit_offset(&url), (40, 0));
}

#[test]
fn large_offsets_are_clamped() {
    let url = Url::parse("https://example.test/?limit=5&offset=4294967295").unwrap();
    assert_eq!(parse_limit_offset(&url), (5, u32::MAX));
    let url = Url::parse("https://example.test/?limit=5&offset=4294967299").unwrap();
    assert_eq!(parse_limit_offset(&url), (5, u32::MAX));
    let url = Url::parse("https://example.test/?limit=%2B5&offset=99999999999999999999").unwrap();
    assert_eq!(parse_limit_offset(&url), (5, 0));
}

#[test]
fn requests_find_their_handlers() {
    assert_eq!(route(Method::Options, "/api/ingest"), Route::Preflight);
    assert_eq!(route(Method::Put, "/api/health"), Route::Health);
    assert_eq!(route(Method::Post, "/api/ingest"), Route::Ingest);
    assert_eq!(route(Method::Get, "/api/ingest"), Route::Assets);
    assert_eq!(route(Method::Get, "/api/works"), Route::Works);
    assert_eq!(route(Method::Get, "/api/catalog"), Route::Catalog);
    assert_eq!(
        route(Method::Post, "/api/catalog/prune"),
        Route::CatalogPrune
    );
    assert_eq!(
        route(Method::Post, "/api/catalog/prune-works"),
        Route::CatalogWorkPrune
    );
    assert_eq!(
        route(Method::Post, "/api/catalog/retract"),
        Route::CatalogRetract
    );
    assert_eq!(
        route(Method::Post, "/api/catalog/prune-works/telegram-result"),
        Route::CatalogTelegramResult
    );
    assert_eq!(
        route(Method::Put, "/api/catalog/publications"),
        Route::CatalogPublication
    );
    assert_eq!(
        route(Method::Post, "/api/catalog/publications"),
        Route::Assets
    );
    assert_eq!(route(Method::Get, "/api/tags"), Route::Tags);
    assert_eq!(route(Method::Get, "/api/sources"), Route::Sources);
    assert_eq!(
        route(Method::Get, "/media/a/b.jpg"),
        Route::Media("a/b.jpg".into())
    );
    assert_eq!(route(Method::Post, "/media/a"), Route::Assets);
    assert_eq!(route(Method::Get, "/"), Route::Assets);
}

#[test]
fn the_catalog_takes_the_token() {
    assert!(route(Method::Get, "/api/catalog").needs_token());
    assert!(route(Method::Post, "/api/catalog/prune").needs_token());
    assert!(route(Method::Post, "/api/catalog/retract").needs_token());
    assert!(!route(Method::Get, "/api/works").needs_token());
    assert!(!route(Method::Get, "/api/catalog/prune").needs_token());
}

#[test]
fn guarded_routes_refuse_without_the_token() {
    let catalog = route(Method::Post, "/api/catalog/retract");
    assert_eq!(catalog.guard(AuthCheck::Authorized), None);
    assert_eq!(catalog.guard(AuthCheck::Unauthorized).unwrap().status, 401);
    assert_eq!(catalog.guard(AuthCheck::NotConfigured).unwrap().status, 500);
    for open in [
        route(Method::Get, "/api/works"),
        route(Method::Post, "/api/ingest"),
        route(Method::Options, "/api/catalog"),
        route(Method::Get, "/media/a"),
    ] {
        assert_eq!(open.guard(AuthCheck::Unauthorized), None);
        assert_eq!(open.guard(AuthCheck::NotConfigured), None);
    }
}

#[test]
fn other_origins_may_read() {
    let pairs = cors_headers();
    assert_eq!(pairs.len(), 3);
    assert_eq!(
        pairs[0],
        ("Access-Control-Allow-Origin".to_string(), "*".to_string())
    );
    assert_eq!(pairs[1].1, "GET, POST, PUT, OPTIONS");
    assert_eq!(pairs[2].1, "Authorization, Content-Type, Idempotency-Key");
}

#[test]
fn a_silent_clock_is_the_epoch() {
    assert_eq!(time_or_epoch(None), "1970-01-01T00:00:00.000Z");
    assert_eq!(time_or_epoch(Some("t".into())), "t");
}
