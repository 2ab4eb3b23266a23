//! What visitors read: lists of works, tags, sources and catalog images, and the
//! headers of media.

use crate::json::{success, Json, JsonView, Members, Reply};
use crate::outside;
use crate::request::{add_pair, parse_limit_offset, query_param, Url};
use crate::sql::{SqlView, Statement, StatementView};
use crate::tags;
use crate::text;
use vstd::prelude::*;

verus! {

// ---------------------------------------------------------------------------
// The list of works
// ---------------------------------------------------------------------------

/// The head of the query for works, up to its conditions.
pub const WORKS_SELECT: &'static str = r#"
        SELECT w.*,
          (SELECT i.r2_key FROM images i WHERE i.work_id = w.id ORDER BY i.page_index LIMIT 1) AS cover_key,
          (SELECT GROUP_CONCAT(wt.tag, ',') FROM work_tags wt WHERE wt.work_id = w.id) AS tags
        FROM works w
        "#;

/// The tail of the query for works, behind its conditions.
pub const WORKS_ORDER: &'static str = r#"
        ORDER BY w.created_at DESC
        LIMIT ? OFFSET ?
        "#;

/// The condition on the source of a work.
pub const SOURCE_CONDITION: &'static str = "w.source = ?";

/// The condition on a tag of a work.
pub const TAG_CONDITION: &'static str =
    "EXISTS (SELECT 1 FROM work_tags wt WHERE wt.work_id = w.id AND wt.tag = ?)";

/// The condition on the title, the author or the identifier of a work.
pub const SEARCH_CONDITION: &'static str =
    "(w.title LIKE ? OR w.author_name LIKE ? OR w.source_id LIKE ?)";

/// The condition that hides deleted works.
pub const ACTIVE_CONDITION: &'static str = "(w.deleted_at IS NULL)";

/// The conditions of a query for works, in order.
pub open spec fn work_conditions(source: Seq<char>, tag: Seq<char>, q: Seq<char>) -> Seq<Seq<char>> {
    let a = if source.len() > 0 {
        Seq::<Seq<char>>::empty().push(SOURCE_CONDITION@)
    } else {
        Seq::empty()
    };
    let b = if tag.len() > 0 {
        a.push(TAG_CONDITION@)
    } else {
        a
    };
    let c = if q.len() > 0 {
        b.push(SEARCH_CONDITION@)
    } else {
        b
    };
    c.push(ACTIVE_CONDITION@)
}

/// The pattern that finds `q` anywhere.
pub open spec fn like_pattern(q: Seq<char>) -> Seq<char> {
    "%"@ + q + "%"@
}

/// The query for a page of works: the text of the statement, and the values
/// bound in the order of the conditions, then the page.
pub open spec fn works_statement(
    source: Seq<char>,
    tag: Seq<char>,
    q: Seq<char>,
    limit: int,
    offset: int,
) -> crate::sql::StatementView {
    let conditions = text::joined(work_conditions(source, tag, q), " AND "@);
    let a = crate::sql::statement(WORKS_SELECT@ + "WHERE "@ + conditions + WORKS_ORDER@);
    let b = if source.len() > 0 {
        a.text(source)
    } else {
        a
    };
    let c = if tag.len() > 0 {
        b.text(tags::normalized(tag))
    } else {
        b
    };
    let d = if q.len() > 0 {
        c.text(like_pattern(q)).text(like_pattern(q)).text(like_pattern(q))
    } else {
        c
    };
    d.num(limit).num(offset)
}

/// The query for a page of works with the given filters; the source is already
/// in lower case, and an empty filter is none.
pub fn works_query_with(source: &str, tag: &str, q: &str, limit: u32, offset: u32) -> (r: Statement)
    ensures
        r@ == works_statement(source@, tag@, q@, limit as int, offset as int),
{
    let mut conditions: Vec<String> = Vec::new();
    let ghost mut seen: Seq<Seq<char>> = Seq::empty();
    assert(text::texts(conditions@) =~= seen);
    if !source.is_empty() {
        conditions.push(SOURCE_CONDITION.to_owned());
        proof {
            seen = seen.push(SOURCE_CONDITION@);
            assert(text::texts(conditions@) =~= seen);
        }
    }
    if !tag.is_empty() {
        conditions.push(TAG_CONDITION.to_owned());
        proof {
            seen = seen.push(TAG_CONDITION@);
            assert(text::texts(conditions@) =~= seen);
        }
    }
    if !q.is_empty() {
        conditions.push(SEARCH_CONDITION.to_owned());
        proof {
            seen = seen.push(SEARCH_CONDITION@);
            assert(text::texts(conditions@) =~= seen);
        }
    }
    conditions.push(ACTIVE_CONDITION.to_owned());
    assert(text::texts(conditions@) =~= seen.push(ACTIVE_CONDITION@));
    let mut sql = WORKS_SELECT.to_owned();
    sql.append("WHERE ");
    sql.append(text::join(conditions.as_slice(), " AND ").as_str());
    sql.append(WORKS_ORDER);
    let mut r = Statement::new(sql.as_str());
    if !source.is_empty() {
        r = r.text(source);
    }
    if !tag.is_empty() {
        r = r.text(tags::normalize_tag(tag).as_str());
    }
    if !q.is_empty() {
        let like = text::concat3("%", q, "%");
        r = r.text(like.as_str()).text(like.as_str()).text(like.as_str());
    }
    r.num(limit as i128).num(offset as i128)
}

/// The query for the page of works that the pairs of a URL ask for.
pub open spec fn works_asked(pairs: Seq<(Seq<char>, Seq<char>)>) -> StatementView {
    works_statement(
        outside::unicode_lower(crate::request::parameter(pairs, "source"@)),
        crate::request::parameter(pairs, "tag"@),
        crate::request::parameter(pairs, "q"@),
        crate::request::page_limit(pairs),
        crate::request::page_offset(pairs),
    )
}

/// The query for the page of works that a URL asks for.
pub fn works_query(url: &Url) -> (r: Statement)
    ensures
        r@ == works_asked(crate::request::url_view(*url).1),
{
    let tag = query_param(url, "tag");
    let source = outside::to_lowercase(query_param(url, "source").as_str());
    let q = query_param(url, "q");
    let page: (u32, u32) = parse_limit_offset(url);
    works_query_with(source.as_str(), tag.as_str(), q.as_str(), page.0, page.1)
}

/// A stored work, as the query for works returns it. `T` is the type of texts.
pub struct WorkRow<T> {
    pub id: T,
    pub source: T,
    pub source_id: T,
    pub source_url: T,
    pub title: T,
    pub author_name: T,
    pub author_url: T,
    pub is_r18: i64,
    pub page_count: i64,
    pub origin: T,
    pub created_at: T,
    pub cover_key: Option<T>,
    pub tags: Option<T>,
}

impl View for WorkRow<String> {
    type V = WorkRow<Seq<char>>;

    open spec fn view(&self) -> WorkRow<Seq<char>> {
        WorkRow {
            id: self.id@,
            source: self.source@,
            source_id: self.source_id@,
            source_url: self.source_url@,
            title: self.title@,
            author_name: self.author_name@,
            author_url: self.author_url@,
            is_r18: self.is_r18,
            page_count: self.page_count,
            origin: self.origin@,
            created_at: self.created_at@,
            cover_key: outside::opt_text(self.cover_key),
            tags: outside::opt_text(self.tags),
        }
    }
}

/// A work as a visitor sees it.
pub struct WorkOut {
    pub id: String,
    pub source: String,
    pub source_id: String,
    pub source_url: String,
    pub title: String,
    pub author_name: String,
    pub author_url: String,
    pub is_r18: bool,
    pub page_count: i64,
    pub origin: String,
    pub created_at: String,
    pub cover_url: Option<String>,
    pub tags: Vec<String>,
}

/// An optional text as a document.
pub open spec fn text_or_null(t: Option<Seq<char>>) -> JsonView {
    match t {
        Some(t) => JsonView::Text(t),
        None => JsonView::Null,
    }
}

/// The document of a work.
pub open spec fn work_out_document(
    id: Seq<char>,
    source: Seq<char>,
    source_id: Seq<char>,
    source_url: Seq<char>,
    title: Seq<char>,
    author_name: Seq<char>,
    author_url: Seq<char>,
    is_r18: bool,
    page_count: i64,
    origin: Seq<char>,
    created_at: Seq<char>,
    cover_url: Option<Seq<char>>,
    tags: Seq<Seq<char>>,
) -> JsonView {
    crate::json::no_members().with("author_name"@, JsonView::Text(author_name)).with(
        "author_url"@,
        JsonView::Text(author_url),
    ).with("cover_url"@, text_or_null(cover_url)).with(
        "created_at"@,
        JsonView::Text(created_at),
    ).with("id"@, JsonView::Text(id)).with("is_r18"@, JsonView::Bool(is_r18)).with(
        "origin"@,
        JsonView::Text(origin),
    ).with("page_count"@, JsonView::Num(page_count as int)).with(
        "source"@,
        JsonView::Text(source),
    ).with("source_id"@, JsonView::Text(source_id)).with(
        "source_url"@,
        JsonView::Text(source_url),
    ).with("tags"@, JsonView::List(crate::json::text_documents(tags))).with(
        "title"@,
        JsonView::Text(title),
    ).object()
}

/// The document of a stored work.
pub open spec fn work_document(row: WorkRow<Seq<char>>) -> JsonView {
    work_out_document(
        row.id,
        row.source,
        row.source_id,
        row.source_url,
        row.title,
        row.author_name,
        row.author_url,
        row.is_r18 != 0,
        row.page_count,
        row.origin,
        row.created_at,
        tags::cover_path(row.cover_key),
        tags::tags_of_list(row.tags),
    )
}

/// An optional text as a document.
pub fn optional_json(t: &Option<String>) -> (r: Json)
    ensures
        r@ == text_or_null(outside::opt_text(*t)),
{
    match t {
        Some(t) => Json::text(t.as_str()),
        None => Json::Null,
    }
}

impl WorkOut {
    /// The document of this work.
    pub fn document(&self) -> (r: Json)
        ensures
            r@ == work_out_document(
                self.id@,
                self.source@,
                self.source_id@,
                self.source_url@,
                self.title@,
                self.author_name@,
                self.author_url@,
                self.is_r18,
                self.page_count,
                self.origin@,
                self.created_at@,
                outside::opt_text(self.cover_url),
                text::texts(self.tags@),
            ),
    {
        Members::new().with("author_name", Json::text(self.author_name.as_str())).with(
            "author_url",
            Json::text(self.author_url.as_str()),
        ).with("cover_url", optional_json(&self.cover_url)).with(
            "created_at",
            Json::text(self.created_at.as_str()),
        ).with("id", Json::text(self.id.as_str())).with("is_r18", Json::Bool(self.is_r18)).with(
            "origin",
            Json::text(self.origin.as_str()),
        ).with("page_count", Json::Num(self.page_count as i128)).with(
            "source",
            Json::text(self.source.as_str()),
        ).with("source_id", Json::text(self.source_id.as_str())).with(
            "source_url",
            Json::text(self.source_url.as_str()),
        ).with("tags", Json::texts(self.tags.as_slice())).with(
            "title",
            Json::text(self.title.as_str()),
        ).object()
    }
}

/// A text inside an option.
pub fn as_text(t: &Option<String>) -> (r: Option<&str>)
    ensures
        text::view_of(r) == outside::opt_text(*t),
{
    match t {
        Some(t) => Some(t.as_str()),
        None => None,
    }
}

/// The work that a visitor sees for a stored one.
pub fn work_out(row: &WorkRow<String>) -> (r: WorkOut)
    ensures
        r.id@ == row.id@,
        r.source@ == row.source@,
        r.source_id@ == row.source_id@,
        r.source_url@ == row.source_url@,
        r.title@ == row.title@,
        r.author_name@ == row.author_name@,
        r.author_url@ == row.author_url@,
        r.is_r18 == (row.is_r18 != 0),
        r.page_count == row.page_count,
        r.origin@ == row.origin@,
        r.created_at@ == row.created_at@,
        outside::opt_text(r.cover_url) == tags::cover_path(outside::opt_text(row.cover_key)),
        text::texts(r.tags@) == tags::tags_of_list(outside::opt_text(row.tags)),
{
    WorkOut {
        id: row.id.clone(),
        source: row.source.clone(),
        source_id: row.source_id.clone(),
        source_url: row.source_url.clone(),
        title: row.title.clone(),
        author_name: row.author_name.clone(),
        author_url: row.author_url.clone(),
        is_r18: row.is_r18 != 0,
        page_count: row.page_count,
        origin: row.origin.clone(),
        created_at: row.created_at.clone(),
        cover_url: tags::cover_url_from_key(as_text(&row.cover_key)),
        tags: tags::tags_from_group_concat(as_text(&row.tags)),
    }
}

/// The values of a list of stored works.
pub open spec fn work_views(rows: Seq<WorkRow<String>>) -> Seq<WorkRow<Seq<char>>> {
    rows.map_values(|r: WorkRow<String>| r@)
}

/// The documents of a list of stored works.
pub open spec fn work_documents(rows: Seq<WorkRow<Seq<char>>>) -> Seq<JsonView> {
    rows.map_values(|r: WorkRow<Seq<char>>| work_document(r))
}

/// The reply with a page of works.
pub open spec fn works_page(
    rows: Seq<WorkRow<Seq<char>>>,
    limit: int,
    offset: int,
) -> crate::json::ReplyView {
    crate::json::success_view(
        crate::json::no_members().with("limit"@, JsonView::Num(limit)).with(
            "offset"@,
            JsonView::Num(offset),
        ).with("ok"@, JsonView::Bool(true)).with("works"@, JsonView::List(work_documents(rows))),
    )
}

/// The reply with a page of works.
pub fn works_reply(rows: &[WorkRow<String>], limit: u32, offset: u32) -> (r: Reply)
    ensures
        r@ == works_page(work_views(rows@), limit as int, offset as int),
{
    let mut out: Vec<Json> = Vec::new();
    let mut i: usize = 0;
    let ghost want = work_documents(work_views(rows@));
    assert(crate::json::documents(out@) =~= want.take(0));
    while i < rows.len()
        invariant
            i <= rows@.len(),
            want == work_documents(work_views(rows@)),
            crate::json::documents(out@) == want.take(i as int),
        decreases rows@.len() - i,
    {
        let item = work_out(&rows[i]).document();
        let ghost before = crate::json::documents(out@);
        out.push(item);
        proof {
            assert(item@ == work_document(rows@[i as int]@));
            assert(want[i as int] == work_document(rows@[i as int]@));
            assert(crate::json::documents(out@) =~= before.push(item@));
            assert(want.take(i + 1) =~= want.take(i as int).push(want[i as int]));
        }
        i += 1;
    }
    assert(want.take(rows@.len() as int) =~= want);
    success(
        Members::new().with("limit", Json::Num(limit as i128)).with(
            "offset",
            Json::Num(offset as i128),
        ).with("ok", Json::Bool(true)).with("works", Json::list(out)),
    )
}

// ---------------------------------------------------------------------------
// Catalog images, tags and sources
// ---------------------------------------------------------------------------

/// The query for tags counts only works that are not deleted.
pub fn tags_list_sql() -> (r: &'static str)
    ensures
        r@ == TAGS_LIST_SQL@,
{
    TAGS_LIST_SQL
}

/// The query for tags and how many active works have each.
pub const TAGS_LIST_SQL: &'static str = r#"
            SELECT t.name, COUNT(w.id) AS cnt
            FROM tags t
            LEFT JOIN work_tags wt ON wt.tag = t.name
            LEFT JOIN works w ON w.id = wt.work_id AND w.deleted_at IS NULL
            GROUP BY t.name
            HAVING cnt > 0
            ORDER BY cnt DESC, t.name ASC
            LIMIT 200
            "#;

/// The query for a page of the images of active works.
pub fn catalog_list_sql() -> (r: &'static str)
    ensures
        r@ == CATALOG_LIST_SQL@,
{
    CATALOG_LIST_SQL
}

/// The query for a page of the images of active works.
pub const CATALOG_LIST_SQL: &'static str = r#"
        SELECT i.work_id,w.source,w.source_id,w.source_url,w.title,
               i.page_index,i.r2_key,i.byte_size,i.content_type,i.sha256
        FROM images i
        JOIN works w ON w.id = i.work_id
        WHERE w.deleted_at IS NULL
        ORDER BY i.id
        LIMIT ? OFFSET ?
    "#;

/// The query for sources and how many active works each has.
pub const SOURCES_LIST_SQL: &'static str = r#"
            SELECT source, COUNT(*) AS cnt
            FROM works
            WHERE deleted_at IS NULL
            GROUP BY source
            ORDER BY cnt DESC
            "#;

/// The query for tags.
pub fn tags_query() -> (r: Statement)
    ensures
        r@ == crate::sql::statement(TAGS_LIST_SQL@),
{
    Statement::new(tags_list_sql())
}

/// The query for sources.
pub fn sources_query() -> (r: Statement)
    ensures
        r@ == crate::sql::statement(SOURCES_LIST_SQL@),
{
    Statement::new(SOURCES_LIST_SQL)
}

/// The query for the page of catalog images that the pairs of a URL ask for.
pub open spec fn catalog_asked(pairs: Seq<(Seq<char>, Seq<char>)>) -> StatementView {
    crate::sql::statement(CATALOG_LIST_SQL@).num(crate::request::page_limit(pairs)).num(
        crate::request::page_offset(pairs),
    )
}

/// The query for the page of catalog images that a URL asks for.
pub fn catalog_query(url: &Url) -> (r: Statement)
    ensures
        r@ == catalog_asked(crate::request::url_view(*url).1),
{
    let page: (u32, u32) = parse_limit_offset(url);
    Statement::new(catalog_list_sql()).num(page.0 as i128).num(page.1 as i128)
}

/// How often a tag or a source occurs. `T` is the type of texts.
pub struct CountRow<T> {
    pub name: T,
    pub cnt: i64,
}

impl View for CountRow<String> {
    type V = CountRow<Seq<char>>;

    open spec fn view(&self) -> CountRow<Seq<char>> {
        CountRow { name: self.name@, cnt: self.cnt }
    }
}

/// The values of a list of counts.
pub open spec fn count_views(rows: Seq<CountRow<String>>) -> Seq<CountRow<Seq<char>>> {
    rows.map_values(|r: CountRow<String>| r@)
}

/// The documents of a list of counts, the counted thing under the given name.
pub open spec fn count_documents(rows: Seq<CountRow<Seq<char>>>, name: Seq<char>) -> Seq<JsonView> {
    rows.map_values(
        |r: CountRow<Seq<char>>|
            crate::json::no_members().with("cnt"@, JsonView::Num(r.cnt as int)).with(
                name,
                JsonView::Text(r.name),
            ).object(),
    )
}

fn counts_json(rows: &[CountRow<String>], name: &str) -> (r: Json)
    ensures
        r@ == JsonView::List(count_documents(count_views(rows@), name@)),
{
    let mut out: Vec<Json> = Vec::new();
    let mut i: usize = 0;
    let ghost want = count_documents(count_views(rows@), name@);
    assert(crate::json::documents(out@) =~= want.take(0));
    while i < rows.len()
        invariant
            i <= rows@.len(),
            want == count_documents(count_views(rows@), name@),
            crate::json::documents(out@) == want.take(i as int),
        decreases rows@.len() - i,
    {
        let item = Members::new().with("cnt", Json::Num(rows[i].cnt as i128)).with(
            name,
            Json::text(rows[i].name.as_str()),
        ).object();
        let ghost before = crate::json::documents(out@);
        out.push(item);
        proof {
            assert(want[i as int] == item@);
            assert(crate::json::documents(out@) =~= before.push(item@));
            assert(want.take(i + 1) =~= want.take(i as int).push(want[i as int]));
        }
        i += 1;
    }
    assert(want.take(rows@.len() as int) =~= want);
    Json::list(out)
}

/// The reply with the tags.
pub open spec fn tags_page(rows: Seq<CountRow<Seq<char>>>) -> crate::json::ReplyView {
    crate::json::success_view(
        crate::json::no_members().with("ok"@, JsonView::Bool(true)).with(
            "tags"@,
            JsonView::List(count_documents(rows, "name"@)),
        ),
    )
}

/// The reply with the tags.
pub fn tags_reply(rows: &[CountRow<String>]) -> (r: Reply)
    ensures
        r@ == tags_page(count_views(rows@)),
{
    success(Members::new().with("ok", Json::Bool(true)).with("tags", counts_json(rows, "name")))
}

/// The reply with the sources.
pub open spec fn sources_page(rows: Seq<CountRow<Seq<char>>>) -> crate::json::ReplyView {
    crate::json::success_view(
        crate::json::no_members().with("ok"@, JsonView::Bool(true)).with(
            "sources"@,
            JsonView::List(count_documents(rows, "source"@)),
        ),
    )
}

/// The reply with the sources.
pub fn sources_reply(rows: &[CountRow<String>]) -> (r: Reply)
    ensures
        r@ == sources_page(count_views(rows@)),
{
    success(
        Members::new().with("ok", Json::Bool(true)).with("sources", counts_json(rows, "source")),
    )
}

/// An image of the catalog. `T` is the type of texts.
pub struct CatalogImageOut<T> {
    pub work_id: T,
    pub source: T,
    pub source_id: T,
    pub source_url: T,
    pub title: T,
    pub page_index: i64,
    pub r2_key: T,
    pub byte_size: i64,
    pub content_type: T,
    pub sha256: T,
}

impl View for CatalogImageOut<String> {
    type V = CatalogImageOut<Seq<char>>;

    open spec fn view(&self) -> CatalogImageOut<Seq<char>> {
        CatalogImageOut {
            work_id: self.work_id@,
            source: self.source@,
            source_id: self.source_id@,
            source_url: self.source_url@,
            title: self.title@,
            page_index: self.page_index,
            r2_key: self.r2_key@,
            byte_size: self.byte_size,
            content_type: self.content_type@,
            sha256: self.sha256@,
        }
    }
}

/// The document of a catalog image.
pub open spec fn catalog_document(row: CatalogImageOut<Seq<char>>) -> JsonView {
    crate::json::no_members().with("byte_size"@, JsonView::Num(row.byte_size as int)).with(
        "content_type"@,
        JsonView::Text(row.content_type),
    ).with("page_index"@, JsonView::Num(row.page_index as int)).with(
        "r2_key"@,
        JsonView::Text(row.r2_key),
    ).with("sha256"@, JsonView::Text(row.sha256)).with("source"@, JsonView::Text(row.source)).with(
        "source_id"@,
        JsonView::Text(row.source_id),
    ).with("source_url"@, JsonView::Text(row.source_url)).with(
        "title"@,
        JsonView::Text(row.title),
    ).with("work_id"@, JsonView::Text(row.work_id)).object()
}

/// The values of a list of catalog images.
pub open spec fn catalog_views(rows: Seq<CatalogImageOut<String>>) -> Seq<
    CatalogImageOut<Seq<char>>,
> {
    rows.map_values(|r: CatalogImageOut<String>| r@)
}

/// The documents of a list of catalog images.
pub open spec fn catalog_documents(rows: Seq<CatalogImageOut<Seq<char>>>) -> Seq<JsonView> {
    rows.map_values(|r: CatalogImageOut<Seq<char>>| catalog_document(r))
}

/// The reply with a page of catalog images.
pub open spec fn catalog_page(
    rows: Seq<CatalogImageOut<Seq<char>>>,
    limit: int,
    offset: int,
) -> crate::json::ReplyView {
    crate::json::success_view(
        crate::json::no_members().with(
            "images"@,
            JsonView::List(catalog_documents(rows)),
        ).with("limit"@, JsonView::Num(limit)).with("offset"@, JsonView::Num(offset)).with(
            "ok"@,
            JsonView::Bool(true),
        ),
    )
}

/// The reply with a page of catalog images.
pub fn catalog_reply(rows: &[CatalogImageOut<String>], limit: u32, offset: u32) -> (r: Reply)
    ensures
        r@ == catalog_page(catalog_views(rows@), limit as int, offset as int),
{
    let mut out: Vec<Json> = Vec::new();
    let mut i: usize = 0;
    let ghost want = catalog_documents(catalog_views(rows@));
    assert(crate::json::documents(out@) =~= want.take(0));
    while i < rows.len()
        invariant
            i <= rows@.len(),
            want == catalog_documents(catalog_views(rows@)),
            crate::json::documents(out@) == want.take(i as int),
        decreases rows@.len() - i,
    {
        let row = &rows[i];
        let item = Members::new().with("byte_size", Json::Num(row.byte_size as i128)).with(
            "content_type",
            Json::text(row.content_type.as_str()),
        ).with("page_index", Json::Num(row.page_index as i128)).with(
            "r2_key",
            Json::text(row.r2_key.as_str()),
        ).with("sha256", Json::text(row.sha256.as_str())).with(
            "source",
            Json::text(row.source.as_str()),
        ).with("source_id", Json::text(row.source_id.as_str())).with(
            "source_url",
            Json::text(row.source_url.as_str()),
        ).with("title", Json::text(row.title.as_str())).with(
            "work_id",
            Json::text(row.work_id.as_str()),
        ).object();
        let ghost before = crate::json::documents(out@);
        out.push(item);
        proof {
            assert(item@ == catalog_document(rows@[i as int]@));
            assert(want[i as int] == catalog_document(rows@[i as int]@));
            assert(crate::json::documents(out@) =~= before.push(item@));
            assert(want.take(i + 1) =~= want.take(i as int).push(want[i as int]));
        }
        i += 1;
    }
    assert(want.take(rows@.len() as int) =~= want);
    success(
        Members::new().with("images", Json::list(out)).with("limit", Json::Num(limit as i128)).with(
            "offset",
            Json::Num(offset as i128),
        ).with("ok", Json::Bool(true)),
    )
}

// ---------------------------------------------------------------------------
// Media
// ---------------------------------------------------------------------------

/// How long media may be kept by caches.
pub const IMMUTABLE_CACHE: &'static str = "public, max-age=31536000, immutable";

/// A text without `%` is decoded as it is.
proof fn lemma_plain_text(t: Seq<char>)
    requires
        !t.contains('%'),
    ensures
        outside::percent_decoded(t) == Some(t),
{
    let bytes = vstd::utf8::encode_utf8(t);
    text::lemma_absent_byte(t, '%');
    lemma_nothing_escaped(bytes);
    vstd::utf8::encode_utf8_valid_utf8(t);
    vstd::utf8::encode_utf8_decode_utf8(t);
}

proof fn lemma_nothing_escaped(bytes: Seq<u8>)
    requires
        !bytes.contains('%' as u8),
    ensures
        outside::unescaped(bytes) == bytes,
    decreases bytes.len(),
{
    if bytes.len() > 0 {
        let rest = bytes.skip(1);
        assert(bytes.contains(bytes[0]));
        if rest.contains('%' as u8) {
            let i = choose|i: int| 0 <= i < rest.len() && rest[i] == '%' as u8;
            assert(bytes[i + 1] == '%' as u8);
        }
        lemma_nothing_escaped(rest);
        assert(seq![bytes[0]] + rest =~= bytes);
    }
}

/// The key of a stored object that a path names.
pub open spec fn media_key_of(raw: Seq<char>) -> Seq<char> {
    match outside::percent_decoded(raw) {
        Some(key) => key,
        None => raw,
    }
}

/// The key of a stored object that a path names: percent-decoded, or as it is
/// where the decoded bytes are no text.
pub fn media_key(raw: &str) -> (r: String)
    ensures
        r@ == media_key_of(raw@),
        !raw@.contains('%') ==> r@ == raw@,
{
    proof {
        if !raw@.contains('%') {
            lemma_plain_text(raw@);
        }
    }
    match outside::percent_decode(raw) {
        Some(key) => key,
        None => raw.to_owned(),
    }
}

/// A header, where there is a value for it.
pub open spec fn with_header(
    pairs: Seq<(Seq<char>, Seq<char>)>,
    name: Seq<char>,
    value: Option<Seq<char>>,
) -> Seq<(Seq<char>, Seq<char>)> {
    match value {
        Some(v) => if v.len() > 0 {
            pairs.push((name, v))
        } else {
            pairs
        },
        None => pairs,
    }
}

/// The headers of a media reply, in order.
pub open spec fn media_pairs(
    content_type: Option<Seq<char>>,
    content_language: Option<Seq<char>>,
    content_disposition: Option<Seq<char>>,
    content_encoding: Option<Seq<char>>,
    etag: Seq<char>,
) -> Seq<(Seq<char>, Seq<char>)> {
    let a = with_header(Seq::empty(), "Content-Type"@, content_type);
    let b = with_header(a, "Content-Language"@, content_language);
    let c = with_header(b, "Content-Disposition"@, content_disposition);
    let d = with_header(c, "Content-Encoding"@, content_encoding);
    with_header(
        d.push(("Cache-Control"@, IMMUTABLE_CACHE@)).push(("X-Content-Type-Options"@, "nosniff"@)),
        "etag"@,
        Some(etag),
    )
}

fn add_header(list: &mut Vec<(String, String)>, name: &str, value: Option<&str>)
    ensures
        outside::pair_texts(final(list)@) == with_header(
            outside::pair_texts(old(list)@),
            name@,
            text::view_of(value),
        ),
{
    match value {
        Some(v) => {
            if !v.is_empty() {
                add_pair(list, name, v);
            }
        },
        None => {},
    }
}

/// The headers of a media reply: what the store knows of the object, always the
/// immutable caching, whatever the store says of it, and never content sniffing.
pub fn media_header_pairs(
    content_type: Option<&str>,
    content_language: Option<&str>,
    content_disposition: Option<&str>,
    content_encoding: Option<&str>,
    cache_control: Option<&str>,
    etag: &str,
) -> (r: Vec<(String, String)>)
    ensures
        outside::pair_texts(r@) == media_pairs(
            text::view_of(content_type),
            text::view_of(content_language),
            text::view_of(content_disposition),
            text::view_of(content_encoding),
            etag@,
        ),
{
    let _ = cache_control;
    let mut out: Vec<(String, String)> = Vec::new();
    assert(outside::pair_texts(out@) =~= Seq::<(Seq<char>, Seq<char>)>::empty());
    add_header(&mut out, "Content-Type", content_type);
    add_header(&mut out, "Content-Language", content_language);
    add_header(&mut out, "Content-Disposition", content_disposition);
    add_header(&mut out, "Content-Encoding", content_encoding);
    add_pair(&mut out, "Cache-Control", IMMUTABLE_CACHE);
    add_pair(&mut out, "X-Content-Type-Options", "nosniff");
    add_header(&mut out, "etag", Some(etag));
    out
}

/// Every media reply is immutable and not sniffed, whatever the store says.
pub proof fn law_media_is_immutable(
    content_type: Option<Seq<char>>,
    content_language: Option<Seq<char>>,
    content_disposition: Option<Seq<char>>,
    content_encoding: Option<Seq<char>>,
    etag: Seq<char>,
)
    ensures
        ({
            let pairs = media_pairs(
                content_type,
                content_language,
                content_disposition,
                content_encoding,
                etag,
            );
            &&& pairs.contains(("Cache-Control"@, IMMUTABLE_CACHE@))
            &&& pairs.contains(("X-Content-Type-Options"@, "nosniff"@))
        }),
{
    let a = with_header(Seq::empty(), "Content-Type"@, content_type);
    let b = with_header(a, "Content-Language"@, content_language);
    let c = with_header(b, "Content-Disposition"@, content_disposition);
    let d = with_header(c, "Content-Encoding"@, content_encoding);
    let n = d.len() as int;
    let pairs = media_pairs(
        content_type,
        content_language,
        content_disposition,
        content_encoding,
        etag,
    );
    assert(pairs[n] == ("Cache-Control"@, IMMUTABLE_CACHE@));
    assert(pairs[n + 1] == ("X-Content-Type-Options"@, "nosniff"@));
}

// ---------------------------------------------------------------------------
// What is asked for, and what is shown
// ---------------------------------------------------------------------------

/// A stored work is shown with all that is stored of it, each under its name; its
/// cover is the path of its first image, where it has one.
pub proof fn law_shown_work(row: WorkRow<Seq<char>>)
    ensures
        crate::json::member_count(work_document(row)) == 13,
        crate::json::tells(work_document(row), "author_name"@, JsonView::Text(row.author_name)),
        crate::json::tells(work_document(row), "author_url"@, JsonView::Text(row.author_url)),
        crate::json::tells(work_document(row), "cover_url"@, (match row.cover_key {
            Some(k) => if k.len() > 0 {
                JsonView::Text("/media/"@ + k)
            } else {
                JsonView::Null
            },
            None => JsonView::Null,
        })),
        crate::json::tells(work_document(row), "created_at"@, JsonView::Text(row.created_at)),
        crate::json::tells(work_document(row), "id"@, JsonView::Text(row.id)),
        crate::json::tells(work_document(row), "is_r18"@, JsonView::Bool(row.is_r18 != 0)),
        crate::json::tells(work_document(row), "origin"@, JsonView::Text(row.origin)),
        crate::json::tells(work_document(row), "page_count"@, JsonView::Num(row.page_count as int)),
        crate::json::tells(work_document(row), "source"@, JsonView::Text(row.source)),
        crate::json::tells(work_document(row), "source_id"@, JsonView::Text(row.source_id)),
        crate::json::tells(work_document(row), "source_url"@, JsonView::Text(row.source_url)),
        crate::json::tells(work_document(row), "tags"@, JsonView::List(crate::json::text_documents(tags::tags_of_list(row.tags)))),
        crate::json::tells(work_document(row), "title"@, JsonView::Text(row.title)),
{
    reveal_strlit("author_name");
    reveal_strlit("author_url");
    reveal_strlit("cover_url");
    reveal_strlit("created_at");
    reveal_strlit("id");
    reveal_strlit("is_r18");
    reveal_strlit("origin");
    reveal_strlit("page_count");
    reveal_strlit("source");
    reveal_strlit("source_id");
    reveal_strlit("source_url");
    reveal_strlit("tags");
    reveal_strlit("title");
    assert("author_name"@.len() != "author_url"@.len());
    assert("author_name"@.len() != "cover_url"@.len());
    assert("author_name"@.len() != "created_at"@.len());
    assert("author_name"@.len() != "id"@.len());
    assert("author_name"@.len() != "is_r18"@.len());
    assert("author_name"@.len() != "origin"@.len());
    assert("author_name"@.len() != "page_count"@.len());
    assert("author_name"@.len() != "source"@.len());
    assert("author_name"@.len() != "source_id"@.len());
    assert("author_name"@.len() != "source_url"@.len());
    assert("author_name"@.len() != "tags"@.len());
    assert("author_name"@.len() != "title"@.len());
    assert("author_url"@.len() != "cover_url"@.len());
    assert("author_url"@.len() != "id"@.len());
    assert("author_url"@.len() != "is_r18"@.len());
    assert("author_url"@.len() != "origin"@.len());
    assert("author_url"@.len() != "source"@.len());
    assert("author_url"@.len() != "source_id"@.len());
    assert("author_url"@.len() != "tags"@.len());
    assert("author_url"@.len() != "title"@.len());
    assert("cover_url"@.len() != "created_at"@.len());
    assert("cover_url"@.len() != "id"@.len());
    assert("cover_url"@.len() != "is_r18"@.len());
    assert("cover_url"@.len() != "origin"@.len());
    assert("cover_url"@.len() != "page_count"@.len());
    assert("cover_url"@.len() != "source"@.len());
    assert("cover_url"@.len() != "source_url"@.len());
    assert("cover_url"@.len() != "tags"@.len());
    assert("cover_url"@.len() != "title"@.len());
    assert("created_at"@.len() != "id"@.len());
    assert("created_at"@.len() != "is_r18"@.len());
    assert("created_at"@.len() != "origin"@.len());
    assert("created_at"@.len() != "source"@.len());
    assert("created_at"@.len() != "source_id"@.len());
    assert("created_at"@.len() != "tags"@.len());
    assert("created_at"@.len() != "title"@.len());
    assert("id"@.len() != "is_r18"@.len());
    assert("id"@.len() != "origin"@.len());
    assert("id"@.len() != "page_count"@.len());
    assert("id"@.len() != "source"@.len());
    assert("id"@.len() != "source_id"@.len());
    assert("id"@.len() != "source_url"@.len());
    assert("id"@.len() != "tags"@.len());
    assert("id"@.len() != "title"@.len());
    assert("is_r18"@.len() != "page_count"@.len());
    assert("is_r18"@.len() != "source_id"@.len());
    assert("is_r18"@.len() != "source_url"@.len());
    assert("is_r18"@.len() != "tags"@.len());
    assert("is_r18"@.len() != "title"@.len());
    assert("origin"@.len() != "page_count"@.len());
    assert("origin"@.len() != "source_id"@.len());
    assert("origin"@.len() != "source_url"@.len());
    assert("origin"@.len() != "tags"@.len());
    assert("origin"@.len() != "title"@.len());
    assert("page_count"@.len() != "source"@.len());
    assert("page_count"@.len() != "source_id"@.len());
    assert("page_count"@.len() != "tags"@.len());
    assert("page_count"@.len() != "title"@.len());
    assert("source"@.len() != "source_id"@.len());
    assert("source"@.len() != "source_url"@.len());
    assert("source"@.len() != "tags"@.len());
    assert("source"@.len() != "title"@.len());
    assert("source_id"@.len() != "source_url"@.len());
    assert("source_id"@.len() != "tags"@.len());
    assert("source_id"@.len() != "title"@.len());
    assert("source_url"@.len() != "tags"@.len());
    assert("source_url"@.len() != "title"@.len());
    assert("tags"@.len() != "title"@.len());
    assert("author_url"@[0] != "created_at"@[0]);
    assert("author_url"@[0] != "page_count"@[0]);
    assert("author_url"@[0] != "source_url"@[0]);
    assert("cover_url"@[0] != "source_id"@[0]);
    assert("created_at"@[0] != "page_count"@[0]);
    assert("created_at"@[0] != "source_url"@[0]);
    assert("is_r18"@[0] != "origin"@[0]);
    assert("is_r18"@[0] != "source"@[0]);
    assert("origin"@[0] != "source"@[0]);
    assert("page_count"@[0] != "source_url"@[0]);
    let d = work_document(row);
    let l_d = d->Object_0;
    assert(l_d[0].name == "author_name"@ && l_d[0].value == JsonView::Text(row.author_name));
    assert(l_d[1].name == "author_url"@ && l_d[1].value == JsonView::Text(row.author_url));
    assert(l_d[2].name == "cover_url"@ && l_d[2].value == (match row.cover_key {
            Some(k) => if k.len() > 0 {
                JsonView::Text("/media/"@ + k)
            } else {
                JsonView::Null
            },
            None => JsonView::Null,
        }));
    assert(l_d[3].name == "created_at"@ && l_d[3].value == JsonView::Text(row.created_at));
    assert(l_d[4].name == "id"@ && l_d[4].value == JsonView::Text(row.id));
    assert(l_d[5].name == "is_r18"@ && l_d[5].value == JsonView::Bool(row.is_r18 != 0));
    assert(l_d[6].name == "origin"@ && l_d[6].value == JsonView::Text(row.origin));
    assert(l_d[7].name == "page_count"@ && l_d[7].value == JsonView::Num(row.page_count as int));
    assert(l_d[8].name == "source"@ && l_d[8].value == JsonView::Text(row.source));
    assert(l_d[9].name == "source_id"@ && l_d[9].value == JsonView::Text(row.source_id));
    assert(l_d[10].name == "source_url"@ && l_d[10].value == JsonView::Text(row.source_url));
    assert(l_d[11].name == "tags"@ && l_d[11].value == JsonView::List(crate::json::text_documents(tags::tags_of_list(row.tags))));
    assert(l_d[12].name == "title"@ && l_d[12].value == JsonView::Text(row.title));
}

/// An image of the catalog is shown with all that is stored of it.
pub proof fn law_shown_image(row: CatalogImageOut<Seq<char>>)
    ensures
        crate::json::member_count(catalog_document(row)) == 10,
        crate::json::tells(catalog_document(row), "byte_size"@, JsonView::Num(row.byte_size as int)),
        crate::json::tells(catalog_document(row), "content_type"@, JsonView::Text(row.content_type)),
        crate::json::tells(catalog_document(row), "page_index"@, JsonView::Num(row.page_index as int)),
        crate::json::tells(catalog_document(row), "r2_key"@, JsonView::Text(row.r2_key)),
        crate::json::tells(catalog_document(row), "sha256"@, JsonView::Text(row.sha256)),
        crate::json::tells(catalog_document(row), "source"@, JsonView::Text(row.source)),
        crate::json::tells(catalog_document(row), "source_id"@, JsonView::Text(row.source_id)),
        crate::json::tells(catalog_document(row), "source_url"@, JsonView::Text(row.source_url)),
        crate::json::tells(catalog_document(row), "title"@, JsonView::Text(row.title)),
        crate::json::tells(catalog_document(row), "work_id"@, JsonView::Text(row.work_id)),
{
    reveal_strlit("byte_size");
    reveal_strlit("content_type");
    reveal_strlit("page_index");
    reveal_strlit("r2_key");
    reveal_strlit("sha256");
    reveal_strlit("source");
    reveal_strlit("source_id");
    reveal_strlit("source_url");
    reveal_strlit("title");
    reveal_strlit("work_id");
    assert("byte_size"@.len() != "content_type"@.len());
    assert("byte_size"@.len() != "page_index"@.len());
    assert("byte_size"@.len() != "r2_key"@.len());
    assert("byte_size"@.len() != "sha256"@.len());
    assert("byte_size"@.len() != "source"@.len());
    assert("byte_size"@.len() != "source_url"@.len());
    assert("byte_size"@.len() != "title"@.len());
    assert("byte_size"@.len() != "work_id"@.len());
    assert("content_type"@.len() != "page_index"@.len());
    assert("content_type"@.len() != "r2_key"@.len());
    assert("content_type"@.len() != "sha256"@.len());
    assert("content_type"@.len() != "source"@.len());
    assert("content_type"@.len() != "source_id"@.len());
    assert("content_type"@.len() != "source_url"@.len());
    assert("content_type"@.len() != "title"@.len());
    assert("content_type"@.len() != "work_id"@.len());
    assert("page_index"@.len() != "r2_key"@.len());
    assert("page_index"@.len() != "sha256"@.len());
    assert("page_index"@.len() != "source"@.len());
    assert("page_index"@.len() != "source_id"@.len());
    assert("page_index"@.len() != "title"@.len());
    assert("page_index"@.len() != "work_id"@.len());
    assert("r2_key"@.len() != "source_id"@.len());
    assert("r2_key"@.len() != "source_url"@.len());
    assert("r2_key"@.len() != "title"@.len());
    assert("r2_key"@.len() != "work_id"@.len());
    assert("sha256"@.len() != "source_id"@.len());
    assert("sha256"@.len() != "source_url"@.len());
    assert("sha256"@.len() != "title"@.len());
    assert("sha256"@.len() != "work_id"@.len());
    assert("source"@.len() != "source_id"@.len());
    assert("source"@.len() != "source_url"@.len());
    assert("source"@.len() != "title"@.len());
    assert("source"@.len() != "work_id"@.len());
    assert("source_id"@.len() != "source_url"@.len());
    assert("source_id"@.len() != "title"@.len());
    assert("source_id"@.len() != "work_id"@.len());
    assert("source_url"@.len() != "title"@.len());
    assert("source_url"@.len() != "work_id"@.len());
    assert("title"@.len() != "work_id"@.len());
    assert("byte_size"@[0] != "source_id"@[0]);
    assert("page_index"@[0] != "source_url"@[0]);
    assert("r2_key"@[0] != "sha256"@[0]);
    assert("r2_key"@[0] != "source"@[0]);
    assert("sha256"@[1] != "source"@[1]);
    let d = catalog_document(row);
    let l_d = d->Object_0;
    assert(l_d[0].name == "byte_size"@ && l_d[0].value == JsonView::Num(row.byte_size as int));
    assert(l_d[1].name == "content_type"@ && l_d[1].value == JsonView::Text(row.content_type));
    assert(l_d[2].name == "page_index"@ && l_d[2].value == JsonView::Num(row.page_index as int));
    assert(l_d[3].name == "r2_key"@ && l_d[3].value == JsonView::Text(row.r2_key));
    assert(l_d[4].name == "sha256"@ && l_d[4].value == JsonView::Text(row.sha256));
    assert(l_d[5].name == "source"@ && l_d[5].value == JsonView::Text(row.source));
    assert(l_d[6].name == "source_id"@ && l_d[6].value == JsonView::Text(row.source_id));
    assert(l_d[7].name == "source_url"@ && l_d[7].value == JsonView::Text(row.source_url));
    assert(l_d[8].name == "title"@ && l_d[8].value == JsonView::Text(row.title));
    assert(l_d[9].name == "work_id"@ && l_d[9].value == JsonView::Text(row.work_id));
}

/// A page of works shows each of them, in their order, and says which page it is.
pub proof fn law_page_of_works(rows: Seq<WorkRow<Seq<char>>>, limit: int, offset: int)
    ensures
        works_page(rows, limit, offset).status == 200,
        crate::json::member_count(works_page(rows, limit, offset).body) == 4,
        crate::json::tells(works_page(rows, limit, offset).body, "limit"@, JsonView::Num(limit)),
        crate::json::tells(works_page(rows, limit, offset).body, "offset"@, JsonView::Num(offset)),
        crate::json::tells(works_page(rows, limit, offset).body, "ok"@, JsonView::Bool(true)),
        exists|list: Seq<JsonView>|
            {
                &&& #[trigger] crate::json::tells(works_page(rows, limit, offset).body, "works"@, JsonView::List(list))
                &&& list.len() == rows.len()
                &&& forall|i: int| 0 <= i < rows.len() ==> list[i] == work_document(#[trigger] rows[i])
            },
{
    let list = work_documents(rows);
    reveal_strlit("limit");
    reveal_strlit("offset");
    reveal_strlit("ok");
    reveal_strlit("works");
    assert("limit"@.len() != "offset"@.len());
    assert("limit"@.len() != "ok"@.len());
    assert("offset"@.len() != "ok"@.len());
    assert("offset"@.len() != "works"@.len());
    assert("ok"@.len() != "works"@.len());
    assert("limit"@[0] != "works"@[0]);
    let d = works_page(rows, limit, offset).body;
    let l_d = d->Object_0;
    assert(l_d[0].name == "limit"@ && l_d[0].value == JsonView::Num(limit));
    assert(l_d[1].name == "offset"@ && l_d[1].value == JsonView::Num(offset));
    assert(l_d[2].name == "ok"@ && l_d[2].value == JsonView::Bool(true));
    assert(l_d[3].name == "works"@ && l_d[3].value == JsonView::List(list));
    assert(crate::json::tells(d, "works"@, JsonView::List(list)));
}

/// A page of catalog images shows each of them, in their order, and says which
/// page it is.
pub proof fn law_page_of_images(rows: Seq<CatalogImageOut<Seq<char>>>, limit: int, offset: int)
    ensures
        catalog_page(rows, limit, offset).status == 200,
        crate::json::member_count(catalog_page(rows, limit, offset).body) == 4,
        crate::json::tells(catalog_page(rows, limit, offset).body, "limit"@, JsonView::Num(limit)),
        crate::json::tells(catalog_page(rows, limit, offset).body, "offset"@, JsonView::Num(offset)),
        crate::json::tells(catalog_page(rows, limit, offset).body, "ok"@, JsonView::Bool(true)),
        exists|list: Seq<JsonView>|
            {
                &&& #[trigger] crate::json::tells(catalog_page(rows, limit, offset).body, "images"@, JsonView::List(list))
                &&& list.len() == rows.len()
                &&& forall|i: int| 0 <= i < rows.len() ==> list[i] == catalog_document(#[trigger] rows[i])
            },
{
    let list = catalog_documents(rows);
    reveal_strlit("images");
    reveal_strlit("limit");
    reveal_strlit("offset");
    reveal_strlit("ok");
    assert("images"@.len() != "limit"@.len());
    assert("images"@.len() != "ok"@.len());
    assert("limit"@.len() != "offset"@.len());
    assert("limit"@.len() != "ok"@.len());
    assert("offset"@.len() != "ok"@.len());
    assert("images"@[0] != "offset"@[0]);
    let d = catalog_page(rows, limit, offset).body;
    let l_d = d->Object_0;
    assert(l_d[0].name == "images"@ && l_d[0].value == JsonView::List(list));
    assert(l_d[1].name == "limit"@ && l_d[1].value == JsonView::Num(limit));
    assert(l_d[2].name == "offset"@ && l_d[2].value == JsonView::Num(offset));
    assert(l_d[3].name == "ok"@ && l_d[3].value == JsonView::Bool(true));
    assert(crate::json::tells(d, "images"@, JsonView::List(list)));
}

/// The list of tags shows each with its count, in their order.
pub proof fn law_list_of_tags(rows: Seq<CountRow<Seq<char>>>)
    ensures
        tags_page(rows).status == 200,
        crate::json::member_count(tags_page(rows).body) == 2,
        crate::json::tells(tags_page(rows).body, "ok"@, JsonView::Bool(true)),
        exists|list: Seq<JsonView>|
            {
                &&& #[trigger] crate::json::tells(tags_page(rows).body, "tags"@, JsonView::List(list))
                &&& list.len() == rows.len()
                &&& forall|i: int| 0 <= i < rows.len() ==> {
                    &&& crate::json::member_count(list[i]) == 2
                    &&& crate::json::tells(list[i], "cnt"@, JsonView::Num((#[trigger] rows[i]).cnt as int))
                    &&& crate::json::tells(list[i], "name"@, JsonView::Text(rows[i].name))
                }
            },
{
    let list = count_documents(rows, "name"@);
    assert forall|i: int| 0 <= i < rows.len() implies {
        &&& crate::json::member_count(list[i]) == 2
        &&& crate::json::tells(list[i], "cnt"@, JsonView::Num((#[trigger] rows[i]).cnt as int))
        &&& crate::json::tells(list[i], "name"@, JsonView::Text(rows[i].name))
    } by {
        reveal_strlit("cnt");
        reveal_strlit("name");
        assert("cnt"@.len() != "name"@.len());
        let e = list[i];
        let l_e = e->Object_0;
        assert(l_e[0].name == "cnt"@ && l_e[0].value == JsonView::Num(rows[i].cnt as int));
        assert(l_e[1].name == "name"@ && l_e[1].value == JsonView::Text(rows[i].name));
    }
    reveal_strlit("ok");
    reveal_strlit("tags");
    assert("ok"@.len() != "tags"@.len());
    let d = tags_page(rows).body;
    let l_d = d->Object_0;
    assert(l_d[0].name == "ok"@ && l_d[0].value == JsonView::Bool(true));
    assert(l_d[1].name == "tags"@ && l_d[1].value == JsonView::List(list));
    assert(crate::json::tells(d, "tags"@, JsonView::List(list)));
}

/// The list of sources shows each with its count, in their order.
pub proof fn law_list_of_sources(rows: Seq<CountRow<Seq<char>>>)
    ensures
        sources_page(rows).status == 200,
        crate::json::member_count(sources_page(rows).body) == 2,
        crate::json::tells(sources_page(rows).body, "ok"@, JsonView::Bool(true)),
        exists|list: Seq<JsonView>|
            {
                &&& #[trigger] crate::json::tells(sources_page(rows).body, "sources"@, JsonView::List(list))
                &&& list.len() == rows.len()
                &&& forall|i: int| 0 <= i < rows.len() ==> {
                    &&& crate::json::member_count(list[i]) == 2
                    &&& crate::json::tells(list[i], "cnt"@, JsonView::Num((#[trigger] rows[i]).cnt as int))
                    &&& crate::json::tells(list[i], "source"@, JsonView::Text(rows[i].name))
                }
            },
{
    let list = count_documents(rows, "source"@);
    assert forall|i: int| 0 <= i < rows.len() implies {
        &&& crate::json::member_count(list[i]) == 2
        &&& crate::json::tells(list[i], "cnt"@, JsonView::Num((#[trigger] rows[i]).cnt as int))
        &&& crate::json::tells(list[i], "source"@, JsonView::Text(rows[i].name))
    } by {
        reveal_strlit("cnt");
        reveal_strlit("source");
        assert("cnt"@.len() != "source"@.len());
        let e = list[i];
        let l_e = e->Object_0;
        assert(l_e[0].name == "cnt"@ && l_e[0].value == JsonView::Num(rows[i].cnt as int));
        assert(l_e[1].name == "source"@ && l_e[1].value == JsonView::Text(rows[i].name));
    }
    reveal_strlit("ok");
    reveal_strlit("sources");
    assert("ok"@.len() != "sources"@.len());
    let d = sources_page(rows).body;
    let l_d = d->Object_0;
    assert(l_d[0].name == "ok"@ && l_d[0].value == JsonView::Bool(true));
    assert(l_d[1].name == "sources"@ && l_d[1].value == JsonView::List(list));
    assert(crate::json::tells(d, "sources"@, JsonView::List(list)));
}

/// Each filter that is not empty adds its condition to the query and its values to
/// what is bound, alone or with the others, and an empty one adds neither: the
/// source as it is, the tag as it is stored, and the search text anywhere in the
/// title, the author or the identifier. Deleted works are never listed; the newest
/// come first; the page comes last.
pub proof fn law_filters_of_works(
    source: Seq<char>,
    tag: Seq<char>,
    q: Seq<char>,
    limit: int,
    offset: int,
)
    ensures
        ({
            let by_source = if source.len() > 0 {
                "w.source = ?"@ + " AND "@
            } else {
                Seq::empty()
            };
            let by_tag = if tag.len() > 0 {
                "EXISTS (SELECT 1 FROM work_tags wt WHERE wt.work_id = w.id AND wt.tag = ?)"@ + " AND "@
            } else {
                Seq::empty()
            };
            let by_text = if q.len() > 0 {
                "(w.title LIKE ? OR w.author_name LIKE ? OR w.source_id LIKE ?)"@ + " AND "@
            } else {
                Seq::empty()
            };
            let with_source = if source.len() > 0 {
                seq![SqlView::Text(source)]
            } else {
                Seq::empty()
            };
            let with_tag = if tag.len() > 0 {
                seq![SqlView::Text(tags::normalized(tag))]
            } else {
                Seq::empty()
            };
            let like = SqlView::Text("%"@ + q + "%"@);
            let with_text = if q.len() > 0 {
                seq![like, like, like]
            } else {
                Seq::empty()
            };
            let s = works_statement(source, tag, q, limit, offset);
            &&& s.sql =~= r#"
        SELECT w.*,
          (SELECT i.r2_key FROM images i WHERE i.work_id = w.id ORDER BY i.page_index LIMIT 1) AS cover_key,
          (SELECT GROUP_CONCAT(wt.tag, ',') FROM work_tags wt WHERE wt.work_id = w.id) AS tags
        FROM works w
        "#@ + "WHERE "@ + by_source + by_tag + by_text
                + "(w.deleted_at IS NULL)"@ + r#"
        ORDER BY w.created_at DESC
        LIMIT ? OFFSET ?
        "#@
            &&& s.binds =~= with_source + with_tag + with_text + seq![
                SqlView::Num(limit),
                SqlView::Num(offset),
            ]
        }),
{
    let conditions = work_conditions(source, tag, q);
    let none = Seq::<Seq<char>>::empty();
    let and = " AND "@;
    let a = if source.len() > 0 {
        none.push(SOURCE_CONDITION@)
    } else {
        none
    };
    let b = if tag.len() > 0 {
        a.push(TAG_CONDITION@)
    } else {
        a
    };
    let c = if q.len() > 0 {
        b.push(SEARCH_CONDITION@)
    } else {
        b
    };
    lemma_joined_push(none, SOURCE_CONDITION@, and);
    lemma_joined_push(a, TAG_CONDITION@, and);
    lemma_joined_push(b, SEARCH_CONDITION@, and);
    lemma_joined_push(c, ACTIVE_CONDITION@, and);
    assert(conditions == c.push(ACTIVE_CONDITION@));
}

/// The parts so far, each followed by the separator.
spec fn led(parts: Seq<Seq<char>>, sep: Seq<char>) -> Seq<char>
    decreases parts.len(),
{
    if parts.len() == 0 {
        Seq::empty()
    } else {
        led(parts.drop_last(), sep) + parts.last() + sep
    }
}

proof fn lemma_joined_push(parts: Seq<Seq<char>>, part: Seq<char>, sep: Seq<char>)
    ensures
        text::joined(parts.push(part), sep) == led(parts, sep) + part,
        led(parts.push(part), sep) == led(parts, sep) + part + sep,
    decreases parts.len(),
{
    assert(parts.push(part).drop_last() =~= parts);
    if parts.len() == 0 {
        assert(text::joined(parts.push(part), sep) =~= part);
        assert(led(parts, sep) + part =~= part);
    } else {
        let front = parts.drop_last();
        lemma_joined_push(front, parts.last(), sep);
        assert(front.push(parts.last()) =~= parts);
        assert(text::joined(parts.push(part), sep) == text::joined(parts, sep) + sep + part);
        assert(text::joined(parts, sep) + sep + part =~= led(parts, sep) + part);
    }
}

/// What a URL asks for is what is looked for: its source in lower case, its tag,
/// its search text and its page, each by its own parameter.
pub proof fn law_works_are_asked_for(pairs: Seq<(Seq<char>, Seq<char>)>)
    ensures
        ({
            let source = outside::unicode_lower(crate::request::parameter(pairs, "source"@));
            let tag = crate::request::parameter(pairs, "tag"@);
            let q = crate::request::parameter(pairs, "q"@);
            let binds = works_asked(pairs).binds;
            &&& binds.len() >= 2
            &&& binds[binds.len() - 2] == SqlView::Num(crate::request::page_limit(pairs))
            &&& binds[binds.len() - 1] == SqlView::Num(crate::request::page_offset(pairs))
            &&& source.len() > 0 ==> binds[0] == SqlView::Text(source)
            &&& tag.len() > 0 ==> binds.contains(SqlView::Text(tags::normalized(tag)))
            &&& q.len() > 0 ==> binds[binds.len() - 3] == SqlView::Text("%"@ + q + "%"@)
            &&& binds.len() == 2 + (if source.len() > 0 { 1int } else { 0 }) + (if tag.len() > 0 {
                1int
            } else {
                0
            }) + (if q.len() > 0 { 3int } else { 0 })
        }),
{
    let source = outside::unicode_lower(crate::request::parameter(pairs, "source"@));
    let tag = crate::request::parameter(pairs, "tag"@);
    let at: int = if source.len() > 0 { 1 } else { 0 };
    if tag.len() > 0 {
        assert(works_asked(pairs).binds[at] == SqlView::Text(tags::normalized(tag)));
    }
}

/// The catalog lists the images of works that are not deleted, in the order of
/// their names, a page at a time.
pub proof fn law_catalog_is_asked_for(pairs: Seq<(Seq<char>, Seq<char>)>)
    ensures
        crate::sql::says(
            catalog_asked(pairs),
            r#"
        SELECT i.work_id,w.source,w.source_id,w.source_url,w.title,
               i.page_index,i.r2_key,i.byte_size,i.content_type,i.sha256
        FROM images i
        JOIN works w ON w.id = i.work_id
        WHERE w.deleted_at IS NULL
        ORDER BY i.id
        LIMIT ? OFFSET ?
    "#@,
            seq![
                SqlView::Num(crate::request::page_limit(pairs)),
                SqlView::Num(crate::request::page_offset(pairs)),
            ],
        ),
{
}

/// The lists of tags and sources count works that are not deleted; a tag that no
/// such work has is left out.
pub proof fn law_counts_leave_deleted_works_out()
    ensures
        TAGS_LIST_SQL@ == r#"
            SELECT t.name, COUNT(w.id) AS cnt
            FROM tags t
            LEFT JOIN work_tags wt ON wt.tag = t.name
            LEFT JOIN works w ON w.id = wt.work_id AND w.deleted_at IS NULL
            GROUP BY t.name
            HAVING cnt > 0
            ORDER BY cnt DESC, t.name ASC
            LIMIT 200
            "#@,
        SOURCES_LIST_SQL@ == r#"
            SELECT source, COUNT(*) AS cnt
            FROM works
            WHERE deleted_at IS NULL
            GROUP BY source
            ORDER BY cnt DESC
            "#@,
{
}

/// A media reply has a header for everything that the store knows of the object,
/// and for nothing else but its caching, against sniffing, and its tag.
pub proof fn law_media_headers(
    content_type: Option<Seq<char>>,
    content_language: Option<Seq<char>>,
    content_disposition: Option<Seq<char>>,
    content_encoding: Option<Seq<char>>,
    etag: Seq<char>,
)
    ensures
        ({
            let known = |name: Seq<char>, v: Option<Seq<char>>|
                if v is Some && v->0.len() > 0 {
                    seq![(name, v->0)]
                } else {
                    Seq::empty()
                };
            media_pairs(content_type, content_language, content_disposition, content_encoding, etag)
                =~= known("Content-Type"@, content_type) + known(
                "Content-Language"@,
                content_language,
            ) + known("Content-Disposition"@, content_disposition) + known(
                "Content-Encoding"@,
                content_encoding,
            ) + seq![
                ("Cache-Control"@, "public, max-age=31536000, immutable"@),
                ("X-Content-Type-Options"@, "nosniff"@),
            ] + known("etag"@, Some(etag))
        }),
{
}

/// A path names the object of its decoded key, and where it cannot be decoded the
/// object of the path itself. A key without a percent sign names itself.
pub proof fn law_media_keys(raw: Seq<char>)
    ensures
        ({
            let bytes = outside::unescaped(vstd::utf8::encode_utf8(raw));
            &&& vstd::utf8::valid_utf8(bytes) ==> media_key_of(raw) == vstd::utf8::decode_utf8(bytes)
            &&& !vstd::utf8::valid_utf8(bytes) ==> media_key_of(raw) == raw
        }),
        !raw.contains('%') ==> media_key_of(raw) == raw,
{
    if !raw.contains('%') {
        lemma_plain_text(raw);
    }
}

} // verus!
