//! Requests: the parts of a URL, paging, and which handler answers.

use crate::auth::{auth_refusal, AuthCheck};
use crate::json::{Reply, ReplyView};
use crate::outside;
use crate::text;
use vstd::prelude::*;

verus! {

/// The path of a URL and the decoded pairs of its query, in order.
#[derive(Debug, Clone, PartialEq, Eq)]
pub struct Url {
    pub path: String,
    pub query: Vec<(String, String)>,
}

/// The value of a URL: its path and its query pairs.
pub open spec fn url_view(url: Url) -> (Seq<char>, Seq<(Seq<char>, Seq<char>)>) {
    (url.path@, outside::pair_texts(url.query@))
}

impl Url {
    /// Reads a URL; `None` where the text is none.
    pub fn parse(raw: &str) -> (r: Option<Url>)
        ensures
            match r {
                Some(url) => outside::url_parts(raw@) == Some(url_view(url)),
                None => outside::url_parts(raw@) is None,
            },
    {
        match outside::parse_url(raw) {
            Some(parts) => Some(Url { path: parts.0, query: parts.1 }),
            None => None,
        }
    }
}

/// The value of the first pair with the given name.
pub open spec fn first_value(
    pairs: Seq<(Seq<char>, Seq<char>)>,
    name: Seq<char>,
) -> Option<Seq<char>>
    decreases pairs.len(),
{
    if pairs.len() == 0 {
        None
    } else if pairs[0].0 == name {
        Some(pairs[0].1)
    } else {
        first_value(pairs.drop_first(), name)
    }
}

/// The value of the first query pair named `name`.
fn find_value<'a>(url: &'a Url, name: &str) -> (r: Option<&'a str>)
    ensures
        text::view_of(r) == first_value(url_view(*url).1, name@),
{
    let ghost pairs = outside::pair_texts(url.query@);
    let mut i: usize = 0;
    assert(pairs.skip(0) =~= pairs);
    while i < url.query.len()
        invariant
            i <= url.query@.len(),
            pairs == outside::pair_texts(url.query@),
            first_value(pairs, name@) == first_value(pairs.skip(i as int), name@),
        decreases url.query@.len() - i,
    {
        let ghost rest = pairs.skip(i as int);
        assert(rest[0] == (url.query@[i as int].0@, url.query@[i as int].1@));
        if text::same_text(url.query[i].0.as_str(), name) {
            return Some(url.query[i].1.as_str());
        }
        assert(rest.drop_first() =~= pairs.skip(i + 1));
        i += 1;
    }
    None
}

/// A query parameter without white space around it, empty where there is none.
pub open spec fn parameter(pairs: Seq<(Seq<char>, Seq<char>)>, name: Seq<char>) -> Seq<char> {
    match first_value(pairs, name) {
        Some(v) => text::trimmed(v),
        None => Seq::empty(),
    }
}

/// The query parameter `name`, trimmed.
pub fn query_param(url: &Url, name: &str) -> (r: String)
    ensures
        r@ == parameter(url_view(*url).1, name@),
{
    match find_value(url, name) {
        Some(v) => text::trim(v).to_owned(),
        None => String::new(),
    }
}

/// A number that a query gives, or the default.
pub open spec fn number_parameter(
    pairs: Seq<(Seq<char>, Seq<char>)>,
    name: Seq<char>,
    default: int,
) -> int {
    match first_value(pairs, name) {
        Some(v) => match text::signed_value(v) {
            Some(n) => n,
            None => default,
        },
        None => default,
    }
}

fn number_param(url: &Url, name: &str, default: i64) -> (r: i64)
    ensures
        r == number_parameter(url_view(*url).1, name@, default as int),
{
    match find_value(url, name) {
        Some(v) => match text::parse_i64(v) {
            Some(n) => n,
            None => default,
        },
        None => default,
    }
}

/// The page size: forty unless the query says otherwise, at least one and at
/// most a hundred.
pub open spec fn page_limit(pairs: Seq<(Seq<char>, Seq<char>)>) -> int {
    let n = number_parameter(pairs, "limit"@, 40);
    if n < 1 {
        1
    } else if n > 100 {
        100
    } else {
        n
    }
}

/// How much a page skips: nothing unless the query says otherwise, nothing for a
/// negative number, and at most the largest 32-bit number.
pub open spec fn page_offset(pairs: Seq<(Seq<char>, Seq<char>)>) -> int {
    let n = number_parameter(pairs, "offset"@, 0);
    if n < 0 {
        0
    } else if n > u32::MAX {
        u32::MAX as int
    } else {
        n
    }
}

/// The page size and the offset that a query asks for.
pub fn parse_limit_offset(url: &Url) -> (r: (u32, u32))
    ensures
        r.0 == page_limit(url_view(*url).1),
        r.1 == page_offset(url_view(*url).1),
        1 <= r.0 <= 100,
{
    let limit: i64 = number_param(url, "limit", 40);
    let offset: i64 = number_param(url, "offset", 0);
    let limit: u32 = if limit < 1 {
        1
    } else if limit > 100 {
        100
    } else {
        limit as u32
    };
    let offset: u32 = if offset < 0 {
        0
    } else if offset > u32::MAX as i64 {
        u32::MAX
    } else {
        offset as u32
    };
    (limit, offset)
}

/// An HTTP method, as far as the routes tell them apart.
#[derive(Debug, Clone, Copy, PartialEq, Eq, Structural)]
pub enum Method {
    Get,
    Post,
    Put,
    Options,
    Other,
}

/// Who answers a request.
#[derive(Debug, Clone, PartialEq, Eq)]
pub enum Route {
    Preflight,
    Health,
    Ingest,
    Works,
    Catalog,
    CatalogPrune,
    CatalogWorkPrune,
    CatalogRetract,
    CatalogTelegramResult,
    CatalogPublication,
    Tags,
    Sources,
    Media(String),
    Assets,
}

/// The mathematical value of a [`Route`].
pub enum RouteView {
    Preflight,
    Health,
    Ingest,
    Works,
    Catalog,
    CatalogPrune,
    CatalogWorkPrune,
    CatalogRetract,
    CatalogTelegramResult,
    CatalogPublication,
    Tags,
    Sources,
    Media(Seq<char>),
    Assets,
}

impl View for Route {
    type V = RouteView;

    open spec fn view(&self) -> RouteView {
        match self {
            Route::Preflight => RouteView::Preflight,
            Route::Health => RouteView::Health,
            Route::Ingest => RouteView::Ingest,
            Route::Works => RouteView::Works,
            Route::Catalog => RouteView::Catalog,
            Route::CatalogPrune => RouteView::CatalogPrune,
            Route::CatalogWorkPrune => RouteView::CatalogWorkPrune,
            Route::CatalogRetract => RouteView::CatalogRetract,
            Route::CatalogTelegramResult => RouteView::CatalogTelegramResult,
            Route::CatalogPublication => RouteView::CatalogPublication,
            Route::Tags => RouteView::Tags,
            Route::Sources => RouteView::Sources,
            Route::Media(key) => RouteView::Media(key@),
            Route::Assets => RouteView::Assets,
        }
    }
}

/// Who answers a request with the given method and path.
pub open spec fn route_of(method: Method, path: Seq<char>) -> RouteView {
    if method == Method::Options {
        RouteView::Preflight
    } else if path == "/api/health"@ {
        RouteView::Health
    } else if path == "/api/ingest"@ && method == Method::Post {
        RouteView::Ingest
    } else if path == "/api/works"@ && method == Method::Get {
        RouteView::Works
    } else if path == "/api/catalog"@ && method == Method::Get {
        RouteView::Catalog
    } else if path == "/api/catalog/prune"@ && method == Method::Post {
        RouteView::CatalogPrune
    } else if path == "/api/catalog/prune-works"@ && method == Method::Post {
        RouteView::CatalogWorkPrune
    } else if path == "/api/catalog/retract"@ && method == Method::Post {
        RouteView::CatalogRetract
    } else if path == "/api/catalog/prune-works/telegram-result"@ && method == Method::Post {
        RouteView::CatalogTelegramResult
    } else if path == "/api/catalog/publications"@ && method == Method::Put {
        RouteView::CatalogPublication
    } else if path == "/api/tags"@ && method == Method::Get {
        RouteView::Tags
    } else if path == "/api/sources"@ && method == Method::Get {
        RouteView::Sources
    } else if text::has_prefix(path, "/media/"@) && method == Method::Get {
        RouteView::Media(path.skip("/media/"@.len() as int))
    } else {
        RouteView::Assets
    }
}

/// Whether a route changes or lists the catalog, which takes the token.
pub open spec fn guarded(route: RouteView) -> bool {
    match route {
        RouteView::Catalog => true,
        RouteView::CatalogPrune => true,
        RouteView::CatalogWorkPrune => true,
        RouteView::CatalogRetract => true,
        RouteView::CatalogTelegramResult => true,
        RouteView::CatalogPublication => true,
        _ => false,
    }
}

/// Finds who answers a request.
pub fn route(method: Method, path: &str) -> (r: Route)
    ensures
        r@ == route_of(method, path@),
{
    if method == Method::Options {
        Route::Preflight
    } else if text::same_text(path, "/api/health") {
        Route::Health
    } else if text::same_text(path, "/api/ingest") && method == Method::Post {
        Route::Ingest
    } else if text::same_text(path, "/api/works") && method == Method::Get {
        Route::Works
    } else if text::same_text(path, "/api/catalog") && method == Method::Get {
        Route::Catalog
    } else if text::same_text(path, "/api/catalog/prune") && method == Method::Post {
        Route::CatalogPrune
    } else if text::same_text(path, "/api/catalog/prune-works") && method == Method::Post {
        Route::CatalogWorkPrune
    } else if text::same_text(path, "/api/catalog/retract") && method == Method::Post {
        Route::CatalogRetract
    } else if text::same_text(path, "/api/catalog/prune-works/telegram-result") && method
        == Method::Post {
        Route::CatalogTelegramResult
    } else if text::same_text(path, "/api/catalog/publications") && method == Method::Put {
        Route::CatalogPublication
    } else if text::same_text(path, "/api/tags") && method == Method::Get {
        Route::Tags
    } else if text::same_text(path, "/api/sources") && method == Method::Get {
        Route::Sources
    } else if text::starts_with(path, "/media/") && method == Method::Get {
        let from: usize = "/media/".unicode_len();
        let to: usize = path.unicode_len();
        let key = path.substring_char(from, to);
        assert(key@ =~= path@.skip(from as int));
        Route::Media(key.to_owned())
    } else {
        Route::Assets
    }
}

impl Route {
    /// Whether the route takes the token of the service.
    pub fn needs_token(&self) -> (r: bool)
        ensures
            r == guarded(self@),
    {
        match self {
            Route::Catalog => true,
            Route::CatalogPrune => true,
            Route::CatalogWorkPrune => true,
            Route::CatalogRetract => true,
            Route::CatalogTelegramResult => true,
            Route::CatalogPublication => true,
            _ => false,
        }
    }
}

/// The reply to a caller whom a route does not let in, none to one whom it does.
pub open spec fn guard_view(route: RouteView, check: AuthCheck) -> Option<ReplyView> {
    if guarded(route) {
        crate::auth::auth_refusal_view(check)
    } else {
        None
    }
}

impl Route {
    /// The reply to a caller whom the route does not let in: a guarded route
    /// refuses everyone who does not present the token, and no other does.
    pub fn guard(&self, check: AuthCheck) -> (r: Option<Reply>)
        ensures
            match r {
                Some(reply) => guard_view(self@, check) == Some(reply@),
                None => guard_view(self@, check) is None,
            },
            r is Some <==> guarded(self@) && check != AuthCheck::Authorized,
    {
        if self.needs_token() {
            auth_refusal(check)
        } else {
            None
        }
    }
}

/// Every request under `/api/catalog` takes the token: without it there is a
/// refusal, and no other answer than a preflight or the static assets.
pub proof fn law_catalog_is_guarded(
    method: Method,
    path: Seq<char>,
    header: Option<Seq<char>>,
    token: Seq<char>,
)
    requires
        text::has_prefix(path, "/api/catalog"@),
    ensures
        guarded(route_of(method, path)) || route_of(method, path) == RouteView::Preflight
            || route_of(method, path) == RouteView::Assets,
        guard_view(route_of(method, path), crate::auth::auth_outcome(header, token)) is None ==> {
            ||| token.len() > 0 && header == Some("Bearer "@ + token)
            ||| route_of(method, path) == RouteView::Preflight
            ||| route_of(method, path) == RouteView::Assets
        },
{
    crate::auth::law_only_the_token_opens(header, token);
    reveal_strlit("/api/catalog");
    reveal_strlit("/api/health");
    reveal_strlit("/api/ingest");
    reveal_strlit("/api/works");
    reveal_strlit("/api/tags");
    reveal_strlit("/api/sources");
    reveal_strlit("/media/");
    let head = path.subrange(0, 12);
    assert(head[5] == 'c');
    assert(path[5] == 'c');
    assert(head[1] == 'a');
    assert(path[1] == 'a');
    if text::has_prefix(path, "/media/"@) {
        assert(path.subrange(0, 7)[1] == 'm');
    }
}

/// One more pair behind the others.
pub fn add_pair(list: &mut Vec<(String, String)>, name: &str, value: &str)
    ensures
        outside::pair_texts(final(list)@) == outside::pair_texts(old(list)@).push((name@, value@)),
{
    let ghost before = outside::pair_texts(list@);
    list.push((name.to_owned(), value.to_owned()));
    assert(outside::pair_texts(list@) =~= before.push((name@, value@)));
}

/// The headers that let other origins read a reply.
pub open spec fn cors_pairs() -> Seq<(Seq<char>, Seq<char>)> {
    Seq::<(Seq<char>, Seq<char>)>::empty().push(("Access-Control-Allow-Origin"@, "*"@)).push(
        ("Access-Control-Allow-Methods"@, "GET, POST, PUT, OPTIONS"@),
    ).push(("Access-Control-Allow-Headers"@, "Authorization, Content-Type, Idempotency-Key"@))
}

/// The headers that let other origins read a reply.
pub fn cors_headers() -> (r: Vec<(String, String)>)
    ensures
        outside::pair_texts(r@) == cors_pairs(),
{
    let mut out: Vec<(String, String)> = Vec::new();
    assert(outside::pair_texts(out@) =~= Seq::<(Seq<char>, Seq<char>)>::empty());
    add_pair(&mut out, "Access-Control-Allow-Origin", "*");
    add_pair(&mut out, "Access-Control-Allow-Methods", "GET, POST, PUT, OPTIONS");
    add_pair(
        &mut out,
        "Access-Control-Allow-Headers",
        "Authorization, Content-Type, Idempotency-Key",
    );
    out
}

/// The time of a request.
pub open spec fn time_of(clock: Option<Seq<char>>) -> Seq<char> {
    match clock {
        Some(t) => t,
        None => "1970-01-01T00:00:00.000Z"@,
    }
}

/// The time of a request: what the clock says, or the start of the epoch where
/// it says nothing.
pub fn time_or_epoch(clock: Option<String>) -> (r: String)
    ensures
        r@ == time_of(outside::opt_text(clock)),
{
    match clock {
        Some(t) => t,
        None => "1970-01-01T00:00:00.000Z".to_owned(),
    }
}

/// A parameter is the first pair of its name, without the white space around the
/// value, and empty where there is none.
pub proof fn law_parameters(pairs: Seq<(Seq<char>, Seq<char>)>, name: Seq<char>, k: int)
    ensures
        (0 <= k < pairs.len() && pairs[k].0 == name && forall|j: int|
            0 <= j < k ==> (#[trigger] pairs[j]).0 != name) ==> {
            &&& first_value(pairs, name) == Some(pairs[k].1)
            &&& parameter(pairs, name) == text::trimmed(pairs[k].1)
        },
        (forall|j: int| 0 <= j < pairs.len() ==> (#[trigger] pairs[j]).0 != name) ==> {
            &&& first_value(pairs, name) is None
            &&& parameter(pairs, name).len() == 0
        },
    decreases pairs.len(),
{
    if pairs.len() > 0 {
        let rest = pairs.drop_first();
        assert forall|j: int| 0 <= j < rest.len() implies #[trigger] rest[j] == pairs[j + 1] by {}
        if pairs[0].0 != name {
            law_parameters(rest, name, k - 1);
        }
    }
}

/// A page has forty entries and skips none, unless the query gives other numbers;
/// it has at least one and at most a hundred entries, and skips at least none and
/// at most as many as a 32-bit number says.
pub proof fn law_pages(pairs: Seq<(Seq<char>, Seq<char>)>, n: int)
    ensures
        ({
            let asked = |name: Seq<char>|
                match first_value(pairs, name) {
                    Some(v) => text::signed_value(v),
                    None => None,
                };
            &&& asked("limit"@) is None ==> page_limit(pairs) == 40
            &&& asked("limit"@) == Some(n) && n < 1 ==> page_limit(pairs) == 1
            &&& asked("limit"@) == Some(n) && 1 <= n <= 100 ==> page_limit(pairs) == n
            &&& asked("limit"@) == Some(n) && n > 100 ==> page_limit(pairs) == 100
            &&& asked("offset"@) is None ==> page_offset(pairs) == 0
            &&& asked("offset"@) == Some(n) && n < 0 ==> page_offset(pairs) == 0
            &&& asked("offset"@) == Some(n) && 0 <= n <= 0xffff_ffff ==> page_offset(pairs) == n
            &&& asked("offset"@) == Some(n) && n > 0xffff_ffff ==> page_offset(pairs) == 0xffff_ffff
        }),
{
}

/// Other origins may read every reply, and send the methods and headers that the
/// service takes.
pub proof fn law_other_origins()
    ensures
        cors_pairs() =~= seq![
            ("Access-Control-Allow-Origin"@, "*"@),
            ("Access-Control-Allow-Methods"@, "GET, POST, PUT, OPTIONS"@),
            ("Access-Control-Allow-Headers"@, "Authorization, Content-Type, Idempotency-Key"@),
        ],
{
}

/// Which requests lead where: a preflight whatever its path, the health check
/// whatever its method, and each other route by one method and one path, but for
/// media, whose path names the object. Everything else is for the assets.
pub proof fn law_routes(method: Method, path: Seq<char>)
    ensures
        ({
            let route = route_of(method, path);
            let other = method != Method::Options && path != "/api/health"@;
            &&& route == RouteView::Preflight <==> method == Method::Options
            &&& route == RouteView::Health <==> method != Method::Options && path
                == "/api/health"@
            &&& route == RouteView::Ingest ==> method == Method::Post && path == "/api/ingest"@
            &&& route == RouteView::Works ==> method == Method::Get && path == "/api/works"@
            &&& route == RouteView::Catalog ==> method == Method::Get && path == "/api/catalog"@
            &&& route == RouteView::CatalogPrune ==> method == Method::Post && path
                == "/api/catalog/prune"@
            &&& route == RouteView::CatalogWorkPrune ==> method == Method::Post && path
                == "/api/catalog/prune-works"@
            &&& route == RouteView::CatalogRetract ==> method == Method::Post && path
                == "/api/catalog/retract"@
            &&& route == RouteView::CatalogTelegramResult ==> method == Method::Post && path
                == "/api/catalog/prune-works/telegram-result"@
            &&& route == RouteView::CatalogPublication ==> method == Method::Put && path
                == "/api/catalog/publications"@
            &&& route == RouteView::Tags ==> method == Method::Get && path == "/api/tags"@
            &&& route == RouteView::Sources ==> method == Method::Get && path == "/api/sources"@
            &&& route matches RouteView::Media(key) ==> method == Method::Get && path =~= "/media/"@
                + key
            &&& other && method == Method::Get && path == "/api/works"@ ==> route
                == RouteView::Works || path == "/api/ingest"@
            &&& route == RouteView::Assets ==> !(method == Method::Post && path == "/api/ingest"@)
                && !(method == Method::Get && (path == "/api/works"@ || path == "/api/catalog"@
                || path == "/api/tags"@ || path == "/api/sources"@ || text::has_prefix(
                path,
                "/media/"@,
            ))) && !(method == Method::Post && (path == "/api/catalog/prune"@ || path
                == "/api/catalog/prune-works"@ || path == "/api/catalog/retract"@ || path
                == "/api/catalog/prune-works/telegram-result"@)) && !(method == Method::Put && path
                == "/api/catalog/publications"@)
        }),
{
    if text::has_prefix(path, "/media/"@) {
        assert(path =~= path.subrange(0, "/media/"@.len() as int) + path.skip(
            "/media/"@.len() as int,
        ));
    }
}

/// A guarded route is one of the catalog, and refuses a caller without the token
/// in the words of the service; no other route refuses anyone.
pub proof fn law_guards(route: RouteView, check: AuthCheck)
    ensures
        ({
            let catalog = route == RouteView::Catalog || route == RouteView::CatalogPrune || route
                == RouteView::CatalogWorkPrune || route == RouteView::CatalogRetract || route
                == RouteView::CatalogTelegramResult || route == RouteView::CatalogPublication;
            let refusal = guard_view(route, check);
            &&& refusal is Some <==> catalog && check != AuthCheck::Authorized
            &&& catalog && check == AuthCheck::Unauthorized ==> crate::json::is_refusal(
                refusal->0,
                "unauthorized"@,
                401,
            )
            &&& catalog && check == AuthCheck::NotConfigured ==> crate::json::is_refusal(
                refusal->0,
                "INGEST_TOKEN not configured"@,
                500,
            )
        }),
{
    crate::json::law_refusal_reads("unauthorized"@, 401);
    crate::json::law_refusal_reads("INGEST_TOKEN not configured"@, 500);
}

/// A clock is believed; a silent one says the start of the epoch.
pub proof fn law_times(t: Seq<char>)
    ensures
        time_of(Some(t)) == t,
        time_of(None) == "1970-01-01T00:00:00.000Z"@,
{
}

} // verus!
