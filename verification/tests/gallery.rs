use vitrine::gallery::{
    catalog_list_sql, catalog_query, catalog_reply, media_header_pairs, media_key, sources_query,
    sources_reply, tags_list_sql, tags_query, tags_reply, work_out, works_query, works_query_with,
    works_reply, CatalogImageOut, CountRow, WorkOut, WorkRow,
};
use vitrine::json::Json;
use vitrine::request::Url;
use vitrine::sql::SqlValue;

fn text(t: &str) -> SqlValue {
    SqlValue::Text(t.into())
}

fn at<'a>(json: &'a Json, index: usize) -> &'a Json {
    match json {
        Json::List(items) => &items[index],
        _ => panic!("not a list"),
    }
}

#[test]
fn work_out_serializes_like_ts() {
    let work = WorkOut {
        id: "pixiv:1".into(),
        source: "pixiv".into(),
        source_id: "1".into(),
        source_url: "https://example".into(),
        title: "t".into(),
        author_name: "a".into(),
        author_url: "".into(),
        is_r18: false,
        page_count: 1,
        origin: "hanabi".into(),
        created_at: "2026-01-01T00:00:00Z".into(),
        cover_url: Some("/media/pixiv/1/00.jpg".into()),
        tags: vec!["foo".into(), "bar".into()],
    };
    let v = work.document();
    assert_eq!(v.get("id"), Some(&Json::text("pixiv:1")));
    assert_eq!(
        v.get("cover_url"),
        Some(&Json::text("/media/pixiv/1/00.jpg"))
    );
    assert_eq!(at(v.get("tags").unwrap(), 0), &Json::text("foo"));
    assert_eq!(v.get("is_r18"), Some(&Json::Bool(false)));
}

#[test]
fn media_headers_copy_content_type_and_override_cache() {
    let pairs = media_header_pairs(
        Some("image/png"),
        Some("en"),
        None,
        None,
        Some("no-cache"),
        "\"abc\"",
    );
    let map: std::collections::HashMap<_, _> = pairs.into_iter().collect();
    assert_eq!(
        map.get("Content-Type").map(String::as_str),
        Some("image/png")
    );
    assert_eq!(map.get("Content-Language").map(String::as_str), Some("en"));
    assert_eq!(
        map.get("Cache-Control").map(String::as_str),
        Some("public, max-age=31536000, immutable")
    );
    assert_eq!(
        map.get("X-Content-Type-Options").map(String::as_str),
        Some("nosniff")
    );
    assert_eq!(map.get("etag").map(String::as_str), Some("\"abc\""));
}

#[test]
fn tags_list_sql_excludes_soft_deleted_works() {
    let sql = tags_list_sql();
    assert!(sql.contains("deleted_at IS NULL"));
    assert!(
        sql.contains("JOIN works w") || sql.contains("join works w") || sql.contains("works w ON")
    );
    assert!(sql.contains("COUNT(w.id)"));
}

#[test]
fn catalog_list_sql_exposes_every_active_image_in_stable_order() {
    let sql = catalog_list_sql();
    assert!(sql.contains("FROM images i"));
    assert!(sql.contains("JOIN works w ON w.id = i.work_id"));
    assert!(sql.contains("w.deleted_at IS NULL"));
    assert!(sql.contains("ORDER BY i.id"));
    assert!(sql.contains("i.sha256"));
    assert!(sql.contains("LIMIT ? OFFSET ?"));
}

#[test]
fn works_are_filtered_and_paged() {
    let url =
        Url::parse("https://x.test/api/works?source=PIXIV&tag=%23a%20b&q=z&limit=3&offset=6")
            .unwrap();
    let query = works_query(&url);
    assert_eq!(
        query.binds,
        vec![
            text("pixiv"),
            text("a_b"),
            text("%z%"),
            text("%z%"),
            text("%z%"),
            SqlValue::Num(3),
            SqlValue::Num(6),
        ]
    );
    assert!(query.sql.contains(
        "WHERE w.source = ? AND EXISTS (SELECT 1 FROM work_tags wt WHERE wt.work_id = w.id AND wt.tag = ?) AND (w.title LIKE ? OR w.author_name LIKE ? OR w.source_id LIKE ?) AND (w.deleted_at IS NULL)\n        ORDER BY w.created_at DESC"
    ));
}

#[test]
fn works_without_filters_are_the_active_ones() {
    let query = works_query_with("", "", "", 40, 0);
    assert_eq!(query.binds, vec![SqlValue::Num(40), SqlValue::Num(0)]);
    assert!(query
        .sql
        .contains("FROM works w\n        WHERE (w.deleted_at IS NULL)\n"));
    assert_eq!(query.sql.matches('?').count(), 2);
}

fn row() -> WorkRow<String> {
    WorkRow {
        id: "pixiv:1".into(),
        source: "pixiv".into(),
        source_id: "1".into(),
        source_url: "u".into(),
        title: "t".into(),
        author_name: "a".into(),
        author_url: "b".into(),
        is_r18: 2,
        page_count: 3,
        origin: "o".into(),
        created_at: "c".into(),
        cover_key: Some("k".into()),
        tags: Some("x,,y".into()),
    }
}

#[test]
fn stored_works_become_shown_ones() {
    let out = work_out(&row());
    assert!(out.is_r18);
    assert_eq!(out.cover_url.as_deref(), Some("/media/k"));
    assert_eq!(out.tags, vec!["x", "y"]);
    let mut plain = row();
    plain.is_r18 = 0;
    plain.cover_key = None;
    plain.tags = None;
    let out = work_out(&plain);
    assert!(!out.is_r18);
    assert_eq!(out.cover_url, None);
    assert_eq!(out.document().get("cover_url"), Some(&Json::Null));
    assert!(out.tags.is_empty());
}

#[test]
fn lists_are_told_with_their_page() {
    let reply = works_reply(&[row()], 40, 5);
    assert_eq!(reply.status, 200);
    assert_eq!(reply.body.get("limit"), Some(&Json::Num(40)));
    assert_eq!(reply.body.get("offset"), Some(&Json::Num(5)));
    assert_eq!(reply.body.get("ok"), Some(&Json::Bool(true)));
    let works = reply.body.get("works").unwrap();
    assert_eq!(works, &Json::List(vec![work_out(&row()).document()]));

    let image = CatalogImageOut {
        work_id: "w".to_string(),
        source: "s".to_string(),
        source_id: "i".to_string(),
        source_url: "u".to_string(),
        title: "t".to_string(),
        page_index: 1,
        r2_key: "k".to_string(),
        byte_size: 9,
        content_type: "image/png".to_string(),
        sha256: "h".to_string(),
    };
    let reply = catalog_reply(&[image], 1, 2);
    let first = at(reply.body.get("images").unwrap(), 0);
    assert_eq!(first.get("byte_size"), Some(&Json::Num(9)));
    assert_eq!(first.get("r2_key"), Some(&Json::text("k")));
    assert_eq!(reply.body.get("offset"), Some(&Json::Num(2)));
}

#[test]
fn counts_are_told() {
    let rows = [CountRow {
        name: "a".to_string(),
        cnt: 4,
    }];
    let reply = tags_reply(&rows);
    let first = at(reply.body.get("tags").unwrap(), 0);
    assert_eq!(first.get("name"), Some(&Json::text("a")));
    assert_eq!(first.get("cnt"), Some(&Json::Num(4)));
    let reply = sources_reply(&rows);
    let first = at(reply.body.get("sources").unwrap(), 0);
    assert_eq!(first.get("source"), Some(&Json::text("a")));
    assert_eq!(sources_reply(&[]).body.get("sources"), Some(&Json::List(vec![])));
}

#[test]
fn fixed_queries_bind_only_the_page() {
    assert!(tags_query().binds.is_empty());
    assert!(sources_query().sql.contains("GROUP BY source"));
    let url = Url::parse("https://x.test/api/catalog?limit=2&offset=4").unwrap();
    let query = catalog_query(&url);
    assert_eq!(query.sql, catalog_list_sql());
    assert_eq!(query.binds, vec![SqlValue::Num(2), SqlValue::Num(4)]);
}

#[test]
fn media_keys_are_decoded() {
    assert_eq!(media_key("a%20b/c%2Fd"), "a b/c/d");
    assert_eq!(media_key("a+b"), "a+b");
    assert_eq!(media_key("%zz%4%"), "%zz%4%");
    assert_eq!(media_key("%%41%4a%4A"), "%AJJ");
    assert_eq!(media_key("%ff"), "%ff");
    assert_eq!(media_key("%E5%9B%BE.jpg"), "图.jpg");
}

#[test]
fn media_is_always_immutable() {
    let pairs = media_header_pairs(None, Some(""), Some("inline"), Some("gzip"), None, "");
    let names: Vec<&str> = pairs.iter().map(|p| p.0.as_str()).collect();
    assert_eq!(
        names,
        vec![
            "Content-Disposition",
            "Content-Encoding",
            "Cache-Control",
            "X-Content-Type-Options"
        ]
    );
}
