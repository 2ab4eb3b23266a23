use vitrine::auth::AuthCheck;
use vitrine::effect::{Action, Event, Table, Upload};
use vitrine::fingerprint::{compute_fingerprint, sha256_hex, shape_ingest_id};
use vitrine::ingest::{
    describe_file, read_meta, replay_reply, screen, success_response_body, Ingest, IngestFile,
    MetaField, SavedImage,
};
use vitrine::json::{Json, Reply};
use vitrine::limits::IngestLimits;
use vitrine::meta::{IngestMetaRaw, MetaValue, ValidatedMeta};
use vitrine::rows::IdempotencyRow;
use vitrine::sql::{SqlValue, Statement};

fn at<'a>(json: &'a Json, index: usize) -> &'a Json {
    match json {
        Json::List(items) => &items[index],
        _ => panic!("not a list"),
    }
}

fn error(reply: &Reply) -> &Json {
    reply.body.get("error").unwrap()
}

fn text(t: &str) -> SqlValue {
    SqlValue::Text(t.into())
}

#[test]
fn success_response_shape() {
    let images = vec![SavedImage {
        page: 0,
        r2_key: "pixiv/1/ing/00.jpg".into(),
        bytes: 12,
        sha256: "abc".into(),
    }];
    let v = success_response_body("pixiv:1", &["t".into()], &images, "ing", true);
    assert_eq!(v.get("ok"), Some(&Json::Bool(true)));
    assert_eq!(v.get("work_id"), Some(&Json::text("pixiv:1")));
    assert_eq!(v.get("pages"), Some(&Json::Num(1)));
    assert_eq!(at(v.get("tags").unwrap(), 0), &Json::text("t"));
    assert_eq!(
        at(v.get("images").unwrap(), 0).get("r2_key"),
        Some(&Json::text("pixiv/1/ing/00.jpg"))
    );
    assert_eq!(v.get("ingest_id"), Some(&Json::text("ing")));
    assert_eq!(v.get("idempotent"), Some(&Json::Bool(true)));
}

#[test]
fn headers_are_screened() {
    let form = Some("Multipart/Form-Data; boundary=x");
    assert_eq!(screen(AuthCheck::Authorized, form, None), Ok(None));
    assert_eq!(screen(AuthCheck::Authorized, form, Some("  ")), Ok(None));
    assert_eq!(
        screen(AuthCheck::Authorized, form, Some(" key ")),
        Ok(Some("key".into()))
    );
    let refused = screen(AuthCheck::Unauthorized, form, None).unwrap_err();
    assert_eq!(refused.status, 401);
    let refused = screen(AuthCheck::NotConfigured, None, None).unwrap_err();
    assert_eq!(refused.status, 500);
    for kind in [None, Some("application/json")] {
        let refused = screen(AuthCheck::Authorized, kind, None).unwrap_err();
        assert_eq!(refused.status, 400);
        assert_eq!(error(&refused), &Json::text("expected multipart/form-data"));
    }
    let long = "é".repeat(129);
    let refused = screen(AuthCheck::Authorized, form, Some(&long)).unwrap_err();
    assert_eq!(refused.status, 400);
    assert_eq!(error(&refused), &Json::text("Idempotency-Key too long"));
    let longest = "é".repeat(128);
    assert_eq!(
        screen(AuthCheck::Authorized, form, Some(&longest)),
        Ok(Some(longest.clone()))
    );
}

#[test]
fn the_meta_field_is_read() {
    let message = |field: MetaField| {
        let reply = read_meta(field).unwrap_err();
        assert_eq!(reply.status, 400);
        match error(&reply) {
            Json::Text(t) => t.clone(),
            _ => panic!("no text"),
        }
    };
    assert_eq!(message(MetaField::Missing), "missing meta field");
    assert_eq!(message(MetaField::File), "meta must be a form field");
    assert_eq!(message(MetaField::Field(None)), "invalid meta json");
    let raw = IngestMetaRaw {
        source: Some(MetaValue::Text("Pixiv".into())),
        source_id: Some(MetaValue::Text("1".into())),
        source_url: None,
        title: None,
        author_name: None,
        author_url: None,
        tags: None,
        is_r18: None,
        origin: None,
    };
    let meta = read_meta(MetaField::Field(Some(raw.clone()))).unwrap();
    assert_eq!(meta.source, "pixiv");
    let mut bad = raw;
    bad.title = Some(MetaValue::Object);
    assert_eq!(message(MetaField::Field(Some(bad))), "invalid title");
}

#[test]
fn files_are_described() {
    let file = describe_file("a.png", "", b"abc");
    assert_eq!(file.content_type, "image/png");
    assert_eq!(file.byte_size, 3);
    assert_eq!(file.sha256, sha256_hex(b"abc"));
    assert_eq!(describe_file("a.png", "x/y", b"").content_type, "x/y");
}

fn meta() -> ValidatedMeta {
    ValidatedMeta {
        source: "pixiv".into(),
        source_id: "9".into(),
        source_url: "u".into(),
        title: "t".into(),
        author_name: "a".into(),
        author_url: "b".into(),
        tags: vec!["x".into(), "y".into()],
        is_r18: true,
        origin: "o".into(),
    }
}

fn files() -> Vec<IngestFile<String>> {
    vec![
        describe_file("0.png", "", b"abc"),
        describe_file("1.jpg", "", b"de"),
    ]
}

fn fingerprint() -> String {
    compute_fingerprint(&meta(), &[sha256_hex(b"abc"), sha256_hex(b"de")])
}

fn begin(key: Option<&str>) -> (Ingest, Action) {
    Ingest::begin_with(
        meta(),
        files(),
        key.map(String::from),
        &IngestLimits::default(),
        vec![1, 2],
    )
    .unwrap()
}

fn ingest_id() -> String {
    shape_ingest_id(&["now", "pixiv:9", &fingerprint(), "0102"])
}

fn upload(i: usize) -> Upload {
    let names = ["00.png", "01.jpg"];
    let types = ["image/png", "image/jpeg"];
    let bytes: [&[u8]; 2] = [b"abc", b"de"];
    let id = ingest_id();
    Upload {
        file: i,
        key: format!("pixiv/9/{id}/{}", names[i]),
        content_type: types[i].into(),
        cache_control: "public, max-age=31536000, immutable".into(),
        metadata: vec![
            ("work_id".into(), "pixiv:9".into()),
            ("page_index".into(), i.to_string()),
            ("ingest_id".into(), id.clone()),
            ("sha256".into(), sha256_hex(bytes[i])),
        ],
    }
}

fn to_storing(key: Option<&str>) -> (Ingest, Action) {
    let (mut run, action) = begin(key);
    if let Some(key) = key {
        assert_eq!(
            action,
            Action::Query(
                Table::Idempotency,
                Statement::new("SELECT fingerprint, response_json, status_code FROM idempotency_receipts WHERE idempotency_key = ?").text(key)
            )
        );
        let (next, action) = run.step(Event::Idempotency(None));
        assert_eq!(action, Action::Clock);
        run = next;
    } else {
        assert_eq!(action, Action::Clock);
    }
    let (run, action) = run.step(Event::Now("now".into()));
    assert_eq!(
        action,
        Action::Query(
            Table::OldKeys,
            Statement::new("SELECT r2_key FROM images WHERE work_id = ?").text("pixiv:9")
        )
    );
    run.step(Event::Texts(vec!["old".into(), "".into()]))
}

fn reply(action: Action) -> Reply {
    match action {
        Action::Reply(reply) => reply,
        other => panic!("no reply: {other:?}"),
    }
}

#[test]
fn a_work_is_taken_in() {
    let (run, action) = to_storing(Some("key"));
    assert_eq!(action, Action::Put(upload(0)));
    let (run, action) = run.step(Event::Done);
    assert_eq!(action, Action::Put(upload(1)));
    let (run, action) = run.step(Event::Done);
    let batch = match action {
        Action::Batch(batch) => batch,
        other => panic!("no batch: {other:?}"),
    };
    let id = ingest_id();
    let sqls: Vec<&str> = batch
        .iter()
        .map(|s| s.sql.trim().lines().next().unwrap().trim())
        .collect();
    assert_eq!(
        sqls,
        vec![
            "INSERT INTO works (",
            "DELETE FROM images WHERE work_id = ?",
            "INSERT INTO images (",
            "INSERT INTO images (",
            "DELETE FROM work_tags WHERE work_id = ?",
            "INSERT INTO tags (name, use_count) VALUES (?, 1)",
            "INSERT OR IGNORE INTO work_tags (work_id, tag) VALUES (?, ?)",
            "INSERT INTO tags (name, use_count) VALUES (?, 1)",
            "INSERT OR IGNORE INTO work_tags (work_id, tag) VALUES (?, ?)",
            "INSERT INTO orphan_objects (r2_key, work_id, reason, created_at, deleted_at)",
            "INSERT INTO idempotency_receipts (",
            "INSERT INTO ingest_audits (",
        ]
    );
    assert_eq!(
        batch[0].binds,
        vec![
            text("pixiv:9"),
            text("pixiv"),
            text("9"),
            text("u"),
            text("t"),
            text("a"),
            text("b"),
            SqlValue::Num(1),
            SqlValue::Num(2),
            text("o"),
            text("now"),
        ]
    );
    assert_eq!(
        batch[3].binds,
        vec![
            text("pixiv:9#1"),
            text("pixiv:9"),
            SqlValue::Num(1),
            text(&format!("pixiv/9/{id}/01.jpg")),
            text("image/jpeg"),
            SqlValue::Num(2),
            text("now"),
            text(&sha256_hex(b"de")),
        ]
    );
    assert_eq!(batch[8].binds, vec![text("pixiv:9"), text("y")]);
    assert_eq!(
        batch[9].binds,
        vec![text("old"), text("pixiv:9"), text("now")]
    );
    assert_eq!(batch[10].binds[0], text("key"));
    assert_eq!(batch[10].binds[1], text(&fingerprint()));
    assert_eq!(
        batch[11].binds,
        vec![
            text(&shape_ingest_id(&["audit", &id, "now"])),
            text("pixiv:9"),
            text("pixiv"),
            text("9"),
            text(&id),
            text(&fingerprint()),
            text("key"),
            SqlValue::Num(2),
            SqlValue::Num(5),
            text("now"),
        ]
    );
    for s in &batch {
        assert_eq!(s.sql.matches('?').count(), s.binds.len());
    }
    let (_, action) = run.step(Event::Done);
    let reply = reply(action);
    assert_eq!(reply.status, 200);
    assert_eq!(SqlValue::Text(reply.body.print()), batch_document(batch));
}

fn batch_document(batch: Vec<Statement>) -> SqlValue {
    let receipt = batch.into_iter().nth(10).unwrap();
    receipt.binds.into_iter().nth(3).unwrap()
}

#[test]
fn the_reply_tells_what_was_stored() {
    let (run, _) = to_storing(None);
    let (run, _) = run.step(Event::Done);
    let (run, action) = run.step(Event::Done);
    match action {
        Action::Batch(batch) => {
            assert_eq!(batch.len(), 11);
            assert_eq!(batch[10].binds[6], SqlValue::Null);
        }
        other => panic!("no batch: {other:?}"),
    }
    let (_, action) = run.step(Event::Done);
    let body = reply(action).body;
    assert_eq!(body.get("idempotent"), Some(&Json::Bool(false)));
    assert_eq!(body.get("pages"), Some(&Json::Num(2)));
    assert_eq!(body.get("ingest_id"), Some(&Json::text(&ingest_id())));
    let second = at(body.get("images").unwrap(), 1);
    assert_eq!(second.get("page"), Some(&Json::Num(1)));
    assert_eq!(second.get("bytes"), Some(&Json::Num(2)));
}

#[test]
fn a_failed_upload_is_taken_back() {
    let (run, _) = to_storing(None);
    let (run, _) = run.step(Event::Done);
    let (run, action) = run.step(Event::Failed("full".into()));
    assert_eq!(action, Action::Forget(upload(0).key));
    let (run, action) = run.step(Event::Failed("gone".into()));
    let audit = match action {
        Action::Run(audit) => audit,
        other => panic!("no audit: {other:?}"),
    };
    let id = ingest_id();
    assert_eq!(
        audit.binds,
        vec![
            text(&shape_ingest_id(&["audit-fail", &id, "failed", "now"])),
            text("pixiv:9"),
            text("pixiv"),
            text("9"),
            text(&id),
            text(&fingerprint()),
            SqlValue::Null,
            SqlValue::Num(2),
            SqlValue::Num(5),
            text("failed"),
            text("r2 upload failed: full"),
            text("now"),
        ]
    );
    let (_, action) = run.step(Event::Failed("no audit".into()));
    let reply = reply(action);
    assert_eq!(reply.status, 500);
    assert_eq!(error(&reply), &Json::text("r2 upload failed: full"));
}

#[test]
fn a_failed_first_upload_has_nothing_to_take_back() {
    let (run, _) = to_storing(None);
    let (run, action) = run.step(Event::Failed("full".into()));
    assert!(matches!(action, Action::Run(_)));
    let (_, action) = run.step(Event::Done);
    assert_eq!(reply(action).status, 500);
}

#[test]
fn a_failed_transaction_is_taken_back() {
    let (run, _) = to_storing(Some("key"));
    let (run, _) = run.step(Event::Done);
    let (run, _) = run.step(Event::Done);
    let (run, action) = run.step(Event::Failed("busy".into()));
    assert_eq!(action, Action::Forget(upload(0).key));
    let (run, action) = run.step(Event::Done);
    assert_eq!(action, Action::Forget(upload(1).key));
    let (run, action) = run.step(Event::Done);
    match action {
        Action::Run(audit) => assert_eq!(audit.binds[10], text("busy")),
        other => panic!("no audit: {other:?}"),
    }
    let (_, action) = run.step(Event::Done);
    assert_eq!(error(&reply(action)), &Json::text("d1 batch failed: busy"));
}

#[test]
fn the_same_request_is_answered_from_its_receipt() {
    let (run, _) = begin(Some("key"));
    let row = IdempotencyRow {
        fingerprint: fingerprint(),
        response_json: "{ \"b\":1, \"a\":[2] }".to_string(),
        status_code: 200,
    };
    let (_, action) = run.step(Event::Idempotency(Some(row)));
    let reply = reply(action);
    assert_eq!(reply.status, 200);
    assert_eq!(reply.body, Json::Written("{\"a\":[2],\"b\":1}".into()));
}

#[test]
fn a_receipt_brings_back_the_reply() {
    let (run, _) = to_storing(Some("key"));
    let (run, _) = run.step(Event::Done);
    let (run, action) = run.step(Event::Done);
    let batch = match action {
        Action::Batch(batch) => batch,
        other => panic!("no batch: {other:?}"),
    };
    let response_json = match batch_document(batch) {
        SqlValue::Text(t) => t,
        other => panic!("no text: {other:?}"),
    };
    let (_, action) = run.step(Event::Done);
    let told = reply(action);
    assert_eq!(told.body.print(), response_json);
    assert!(response_json.starts_with("{\"idempotent\":false,\"images\":[{\"bytes\":3,\"page\":0,"));

    let (run, _) = begin(Some("key"));
    let row = IdempotencyRow {
        fingerprint: fingerprint(),
        response_json: response_json.clone(),
        status_code: 200,
    };
    let (run, action) = run.step(Event::Idempotency(Some(row)));
    let again = reply(action);
    assert_eq!(again.status, 200);
    assert_eq!(again.body.print(), response_json);
    let (_, action) = run.step(Event::Done);
    assert!(matches!(action, Action::Fail(_)));
}

#[test]
fn an_unreadable_receipt_is_answered_shortly() {
    let (run, _) = begin(Some("key"));
    let row = IdempotencyRow {
        fingerprint: fingerprint(),
        response_json: "{".to_string(),
        status_code: 65_736,
    };
    let (_, action) = run.step(Event::Idempotency(Some(row)));
    let reply = reply(action);
    assert_eq!(reply.status, 200);
    assert_eq!(reply.body.get("work_id"), Some(&Json::text("pixiv:9")));
    assert_eq!(reply.body.get("idempotent"), Some(&Json::Bool(true)));
    assert_eq!(reply, replay_reply(None, 200, "pixiv:9"));
}

#[test]
fn another_request_under_the_same_key_conflicts() {
    let (run, _) = begin(Some("key"));
    let row = IdempotencyRow {
        fingerprint: "other".to_string(),
        response_json: "{}".to_string(),
        status_code: 200,
    };
    let (_, action) = run.step(Event::Idempotency(Some(row)));
    let reply = reply(action);
    assert_eq!(reply.status, 409);
    assert_eq!(reply.body.get("conflict"), Some(&Json::Bool(true)));
    assert_eq!(
        error(&reply),
        &Json::text("idempotency key reuse with different payload")
    );
}

#[test]
fn too_many_files_are_refused() {
    let limits = IngestLimits {
        max_file_count: 1,
        max_file_bytes: 10,
        max_total_bytes: 10,
    };
    let refused = Ingest::begin_with(meta(), files(), None, &limits, vec![])
        .err()
        .unwrap();
    assert_eq!(refused.status, 400);
    assert_eq!(error(&refused), &Json::text("too many files: 2 > max 1"));
    let refused = Ingest::begin(meta(), vec![], None, &limits).err().unwrap();
    assert_eq!(error(&refused), &Json::text("no files"));
}

#[test]
fn two_attempts_store_under_different_keys() {
    let key = || {
        let (run, _) = Ingest::begin(meta(), files(), None, &IngestLimits::default()).unwrap();
        let (run, _) = run.step(Event::Now("now".into()));
        match run.step(Event::Texts(vec![])).1 {
            Action::Put(upload) => upload.key,
            other => panic!("no upload: {other:?}"),
        }
    };
    assert_ne!(key(), key());
}

#[test]
fn failures_elsewhere_end_the_run() {
    let (run, _) = begin(Some("key"));
    let (run, action) = run.step(Event::Failed("down".into()));
    assert_eq!(action, Action::Fail("down".into()));
    let (_, action) = run.step(Event::Done);
    assert_eq!(action, Action::Fail("unexpected event".into()));
}
