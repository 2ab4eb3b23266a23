//! Taking in a work: its files are stored under new keys, then one transaction
//! makes it visible. What fails half-way is taken back.

use crate::auth::{auth_refusal, AuthCheck};
use crate::effect::{give_up, refusing, Action, ActionView, Event, EventView, Machine, Table, Upload};
use crate::fingerprint::{compute_fingerprint, ingest_id_with, sha256_hex, shape_ingest_id};
use crate::gallery::IMMUTABLE_CACHE;
use crate::json::{refusal, Json, JsonView, Members, Reply, ReplyView};
use crate::keys;
use crate::limits::{check_file_limits, IngestLimits};
use crate::meta::{validate_meta_json, IngestMetaRaw, MetaView, ValidatedMeta};
use crate::outside;
use crate::request::add_pair;
use crate::sql::{add_statement, add_statements, no_statements, SqlView, Statement, StatementView};
use crate::text;
use vstd::prelude::*;

verus! {

/// The longest idempotency key, in bytes.
pub const MAX_IDEMPOTENCY_BYTES: usize = 256;

// ---------------------------------------------------------------------------
// Before the files are read
// ---------------------------------------------------------------------------

/// The idempotency key of a request, or why the request is refused before its
/// body is read.
pub open spec fn screened(
    check: AuthCheck,
    content_type: Option<Seq<char>>,
    key: Option<Seq<char>>,
) -> Result<Option<Seq<char>>, ReplyView> {
    let kind = match content_type {
        Some(t) => t,
        None => Seq::empty(),
    };
    match crate::auth::auth_refusal_view(check) {
        Some(reply) => Err(reply),
        None => if !text::has_part(text::ascii_lower(kind), "multipart/form-data"@) {
            Err(crate::json::refusal_view("expected multipart/form-data"@, 400))
        } else {
            match key {
                None => Ok(None),
                Some(key) => {
                    let key = text::trimmed(key);
                    if key.len() == 0 {
                        Ok(None)
                    } else if text::byte_len(key) > MAX_IDEMPOTENCY_BYTES {
                        Err(crate::json::refusal_view("Idempotency-Key too long"@, 400))
                    } else {
                        Ok(Some(key))
                    }
                },
            }
        },
    }
}

/// Looks at the headers of a request: who sends it, what it holds, and under
/// which idempotency key.
pub fn screen(check: AuthCheck, content_type: Option<&str>, idempotency_key: Option<&str>) -> (r:
    Result<Option<String>, Reply>)
    ensures
        match r {
            Ok(key) => screened(check, text::view_of(content_type), text::view_of(idempotency_key))
                == Ok::<Option<Seq<char>>, ReplyView>(outside::opt_text(key)),
            Err(reply) => screened(
                check,
                text::view_of(content_type),
                text::view_of(idempotency_key),
            ) == Err::<Option<Seq<char>>, ReplyView>(reply@),
        },
{
    match auth_refusal(check) {
        Some(reply) => {
            return Err(reply);
        },
        None => {},
    }
    let kind = match content_type {
        Some(t) => text::to_ascii_lower(t),
        None => {
            assert(text::ascii_lower(Seq::empty()) =~= Seq::<char>::empty());
            String::new()
        },
    };
    if !text::contains(kind.as_str(), "multipart/form-data") {
        return Err(refusal("expected multipart/form-data", 400));
    }
    match idempotency_key {
        None => Ok(None),
        Some(key) => {
            let key = text::trim(key);
            if key.is_empty() {
                Ok(None)
            } else if text::count_bytes(key) > MAX_IDEMPOTENCY_BYTES {
                Err(refusal("Idempotency-Key too long", 400))
            } else {
                Ok(Some(key.to_owned()))
            }
        },
    }
}

/// The part of the form that holds the metadata. A field is absent inside where
/// its text could not be read as metadata.
pub enum MetaField {
    Missing,
    File,
    Field(Option<IngestMetaRaw>),
}

/// The mathematical value of a [`MetaField`].
pub enum MetaFieldView {
    Missing,
    File,
    Field(Option<crate::meta::RawMetaView>),
}

impl View for MetaField {
    type V = MetaFieldView;

    open spec fn view(&self) -> MetaFieldView {
        match self {
            MetaField::Missing => MetaFieldView::Missing,
            MetaField::File => MetaFieldView::File,
            MetaField::Field(raw) => MetaFieldView::Field(crate::rows::opt_view(*raw)),
        }
    }
}

/// What the metadata of a form is, or why the request is refused.
pub open spec fn meta_screened(field: MetaFieldView) -> Result<MetaView, ReplyView> {
    match field {
        MetaFieldView::Missing => Err(crate::json::refusal_view("missing meta field"@, 400)),
        MetaFieldView::File => Err(crate::json::refusal_view("meta must be a form field"@, 400)),
        MetaFieldView::Field(None) => Err(crate::json::refusal_view("invalid meta json"@, 400)),
        MetaFieldView::Field(Some(raw)) => match crate::meta::validated(raw) {
            Ok(meta) => Ok(meta),
            Err(fault) => Err(crate::json::refusal_view(crate::meta::meta_message(fault), 400)),
        },
    }
}

/// Reads the metadata of a form.
pub fn read_meta(field: MetaField) -> (r: Result<ValidatedMeta, Reply>)
    ensures
        match r {
            Ok(meta) => meta_screened(field@) == Ok::<MetaView, ReplyView>(meta@),
            Err(reply) => meta_screened(field@) == Err::<MetaView, ReplyView>(reply@),
        },
{
    match field {
        MetaField::Missing => Err(refusal("missing meta field", 400)),
        MetaField::File => Err(refusal("meta must be a form field", 400)),
        MetaField::Field(raw) => match validate_meta_json(raw) {
            Ok(meta) => Ok(meta),
            Err(fault) => Err(refusal(fault.message(), 400)),
        },
    }
}

// ---------------------------------------------------------------------------
// Files
// ---------------------------------------------------------------------------

/// What is known of an uploaded file.
#[derive(Debug, Clone, PartialEq, Eq)]
pub struct IngestFile<T> {
    pub content_type: T,
    pub byte_size: u64,
    pub sha256: T,
}

impl View for IngestFile<String> {
    type V = IngestFile<Seq<char>>;

    open spec fn view(&self) -> IngestFile<Seq<char>> {
        IngestFile {
            content_type: self.content_type@,
            byte_size: self.byte_size,
            sha256: self.sha256@,
        }
    }
}

/// What is known of a file from its name, its declared type and its bytes.
pub open spec fn describes(
    file: IngestFile<Seq<char>>,
    name: Seq<char>,
    declared: Seq<char>,
    bytes: Seq<u8>,
) -> bool {
    &&& file.content_type == keys::content_type_of_file(name, declared)
    &&& file.byte_size == bytes.len()
    &&& file.sha256 == crate::fingerprint::digest_text(bytes)
}

/// What is known of a file from its name, its declared type and its bytes.
pub fn describe_file(name: &str, declared: &str, bytes: &[u8]) -> (r: IngestFile<String>)
    ensures
        describes(r@, name@, declared@, bytes@),
{
    IngestFile {
        content_type: keys::file_content_type(name, declared),
        byte_size: bytes.len() as u64,
        sha256: sha256_hex(bytes),
    }
}

/// The sizes of some files.
pub open spec fn sizes_of(files: Seq<IngestFile<Seq<char>>>) -> Seq<u64> {
    files.map_values(|f: IngestFile<Seq<char>>| f.byte_size)
}

/// The digests of some files.
pub open spec fn digests_of(files: Seq<IngestFile<Seq<char>>>) -> Seq<Seq<char>> {
    files.map_values(|f: IngestFile<Seq<char>>| f.sha256)
}

fn file_sizes(files: &[IngestFile<String>]) -> (r: Vec<u64>)
    ensures
        r@ == sizes_of(crate::rows::views(files@)),
{
    let mut out: Vec<u64> = Vec::new();
    let mut i: usize = 0;
    let ghost want = sizes_of(crate::rows::views(files@));
    while i < files.len()
        invariant
            i <= files@.len(),
            want == sizes_of(crate::rows::views(files@)),
            out@ == want.take(i as int),
        decreases files@.len() - i,
    {
        out.push(files[i].byte_size);
        assert(out@ =~= want.take(i + 1));
        i += 1;
    }
    assert(want.take(i as int) =~= want);
    out
}

fn file_digests(files: &[IngestFile<String>]) -> (r: Vec<String>)
    ensures
        text::texts(r@) == digests_of(crate::rows::views(files@)),
{
    let mut out: Vec<String> = Vec::new();
    let mut i: usize = 0;
    let ghost want = digests_of(crate::rows::views(files@));
    assert(text::texts(out@) =~= want.take(0));
    while i < files.len()
        invariant
            i <= files@.len(),
            want == digests_of(crate::rows::views(files@)),
            text::texts(out@) == want.take(i as int),
        decreases files@.len() - i,
    {
        let ghost before = text::texts(out@);
        out.push(files[i].sha256.clone());
        assert(text::texts(out@) =~= before.push(files@[i as int].sha256@));
        assert(want.take(i + 1) =~= before.push(files@[i as int].sha256@));
        i += 1;
    }
    assert(want.take(i as int) =~= want);
    out
}

/// The bytes of all files together, capped at the largest 64-bit number.
fn total_bytes(files: &[IngestFile<String>]) -> (r: u64)
    ensures
        r == crate::limits::capped_total(sizes_of(crate::rows::views(files@))),
{
    let mut total: u64 = 0;
    let mut i: usize = 0;
    let ghost sizes = sizes_of(crate::rows::views(files@));
    assert(sizes.take(0) =~= Seq::<u64>::empty());
    while i < files.len()
        invariant
            i <= files@.len(),
            sizes == sizes_of(crate::rows::views(files@)),
            total == crate::limits::capped_total(sizes.take(i as int)),
        decreases files@.len() - i,
    {
        assert(sizes.take(i + 1).drop_last() =~= sizes.take(i as int));
        assert(sizes.take(i + 1).last() == files@[i as int].byte_size);
        total = total.saturating_add(files[i].byte_size);
        i += 1;
    }
    assert(sizes.take(i as int) =~= sizes);
    total
}

// ---------------------------------------------------------------------------
// The reply
// ---------------------------------------------------------------------------

/// A stored page of a work.
#[derive(Debug, Clone, PartialEq, Eq)]
pub struct SavedImage {
    pub page: usize,
    pub r2_key: String,
    pub bytes: u64,
    pub sha256: String,
}

/// The document of a stored page.
pub open spec fn saved_document(page: nat, r2_key: Seq<char>, bytes: u64, sha256: Seq<char>) -> JsonView {
    crate::json::no_members().with("bytes"@, JsonView::Num(bytes as int)).with(
        "page"@,
        JsonView::Num(page as int),
    ).with("r2_key"@, JsonView::Text(r2_key)).with("sha256"@, JsonView::Text(sha256)).object()
}

/// The documents of stored pages.
pub open spec fn saved_documents(images: Seq<SavedImage>) -> Seq<JsonView> {
    images.map_values(|i: SavedImage| saved_document(i.page as nat, i.r2_key@, i.bytes, i.sha256@))
}

/// The reply to a work that was taken in.
pub open spec fn success_document(
    work_id: Seq<char>,
    tags: Seq<Seq<char>>,
    images: Seq<JsonView>,
    ingest_id: Seq<char>,
    idempotent_replay: bool,
) -> JsonView {
    crate::json::no_members().with("idempotent"@, JsonView::Bool(idempotent_replay)).with(
        "images"@,
        JsonView::List(images),
    ).with("ingest_id"@, JsonView::Text(ingest_id)).with("ok"@, JsonView::Bool(true)).with(
        "pages"@,
        JsonView::Num(images.len() as int),
    ).with("tags"@, JsonView::List(crate::json::text_documents(tags))).with(
        "work_id"@,
        JsonView::Text(work_id),
    ).object()
}

/// The reply to a work that was taken in.
pub fn success_response_body(
    work_id: &str,
    tags: &[String],
    images: &[SavedImage],
    ingest_id: &str,
    idempotent_replay: bool,
) -> (r: Json)
    ensures
        r@ == success_document(
            work_id@,
            text::texts(tags@),
            saved_documents(images@),
            ingest_id@,
            idempotent_replay,
        ),
{
    let mut list: Vec<Json> = Vec::new();
    let mut i: usize = 0;
    let ghost want = saved_documents(images@);
    assert(crate::json::documents(list@) =~= want.take(0));
    while i < images.len()
        invariant
            i <= images@.len(),
            want == saved_documents(images@),
            crate::json::documents(list@) == want.take(i as int),
        decreases images@.len() - i,
    {
        let item = Members::new().with("bytes", Json::Num(images[i].bytes as i128)).with(
            "page",
            Json::Num(images[i].page as i128),
        ).with("r2_key", Json::text(images[i].r2_key.as_str())).with(
            "sha256",
            Json::text(images[i].sha256.as_str()),
        ).object();
        let ghost before = crate::json::documents(list@);
        list.push(item);
        proof {
            assert(want[i as int] == item@);
            assert(crate::json::documents(list@) =~= before.push(item@));
            assert(want.take(i + 1) =~= want.take(i as int).push(want[i as int]));
        }
        i += 1;
    }
    assert(want.take(i as int) =~= want);
    Members::new().with("idempotent", Json::Bool(idempotent_replay)).with(
        "images",
        Json::list(list),
    ).with("ingest_id", Json::text(ingest_id)).with("ok", Json::Bool(true)).with(
        "pages",
        Json::Num(images.len() as i128),
    ).with("tags", Json::texts(tags)).with("work_id", Json::text(work_id)).object()
}

/// The reply to a repeated request: the recorded body, or a short one where the
/// recorded text is no JSON, with the recorded status.
pub open spec fn replay_view(
    body: Option<Seq<char>>,
    status_code: i64,
    work_id: Seq<char>,
) -> ReplyView {
    ReplyView {
        status: status_code as u16,
        body: match body {
            Some(body) => JsonView::Written(body),
            None => crate::json::no_members().with("idempotent"@, JsonView::Bool(true)).with(
                "ok"@,
                JsonView::Bool(true),
            ).with("work_id"@, JsonView::Text(work_id)).object(),
        },
    }
}

/// The reply to a repeated request whose recorded body reads as `body`.
pub fn replay_reply(body: Option<String>, status_code: i64, work_id: &str) -> (r: Reply)
    ensures
        r@ == replay_view(outside::opt_text(body), status_code, work_id@),
{
    let document = match body {
        Some(body) => Json::Written(body),
        None => Members::new().with("idempotent", Json::Bool(true)).with(
            "ok",
            Json::Bool(true),
        ).with("work_id", Json::text(work_id)).object(),
    };
    Reply { status: status_code as u16, body: document }
}

/// The reply to a request that uses the idempotency key of another one.
pub open spec fn conflict_view() -> ReplyView {
    ReplyView {
        status: 409,
        body: crate::json::no_members().with("conflict"@, JsonView::Bool(true)).with(
            "error"@,
            JsonView::Text("idempotency key reuse with different payload"@),
        ).with("ok"@, JsonView::Bool(false)).object(),
    }
}

fn conflict_reply() -> (r: Reply)
    ensures
        r@ == conflict_view(),
{
    let body = Members::new().with("conflict", Json::Bool(true)).with(
        "error",
        Json::text("idempotency key reuse with different payload"),
    ).with("ok", Json::Bool(false)).object();
    Reply { status: 409, body }
}

// ---------------------------------------------------------------------------
// Statements
// ---------------------------------------------------------------------------

/// Reads the recorded outcome under an idempotency key.
pub const IDEMPOTENCY_SQL: &'static str =
    "SELECT fingerprint, response_json, status_code FROM idempotency_receipts WHERE idempotency_key = ?";

/// Reads the keys of the pages that a work has.
pub const OLD_KEYS_SQL: &'static str = "SELECT r2_key FROM images WHERE work_id = ?";

/// Makes a work, or brings it up to date; a deleted work comes back.
pub const UPSERT_WORK_SQL: &'static str = r#"
            INSERT INTO works (
              id, source, source_id, source_url, title, author_name, author_url,
              is_r18, page_count, origin, created_at, deleted_at
            ) VALUES (?, ?, ?, ?, ?, ?, ?, ?, ?, ?, ?, NULL)
            ON CONFLICT(id) DO UPDATE SET
              source_url=excluded.source_url,
              title=excluded.title,
              author_name=excluded.author_name,
              author_url=excluded.author_url,
              is_r18=excluded.is_r18,
              page_count=excluded.page_count,
              origin=excluded.origin,
              deleted_at=NULL
            "#;

/// Removes the pages of a work.
pub const CLEAR_IMAGES_SQL: &'static str = "DELETE FROM images WHERE work_id = ?";

/// Makes a page of a work.
pub const INSERT_IMAGE_SQL: &'static str = r#"
                INSERT INTO images (
                  id, work_id, page_index, r2_key, content_type, byte_size, created_at, sha256
                ) VALUES (?, ?, ?, ?, ?, ?, ?, ?)
                "#;

/// Removes the tags of a work.
pub const CLEAR_TAGS_SQL: &'static str = "DELETE FROM work_tags WHERE work_id = ?";

/// Counts one more use of a tag.
pub const COUNT_TAG_SQL: &'static str = r#"
                INSERT INTO tags (name, use_count) VALUES (?, 1)
                ON CONFLICT(name) DO UPDATE SET use_count = use_count + 1
                "#;

/// Gives a tag to a work.
pub const INSERT_TAG_SQL: &'static str =
    "INSERT OR IGNORE INTO work_tags (work_id, tag) VALUES (?, ?)";

/// Records that an object is no longer in use.
pub const ORPHAN_SQL: &'static str = r#"
                INSERT INTO orphan_objects (r2_key, work_id, reason, created_at, deleted_at)
                VALUES (?, ?, 'replaced', ?, NULL)
                ON CONFLICT(r2_key) DO UPDATE SET
                  work_id=excluded.work_id,
                  reason=excluded.reason,
                  created_at=excluded.created_at,
                  deleted_at=NULL
                "#;

/// Records the outcome under an idempotency key.
pub const INSERT_RECEIPT_SQL: &'static str = r#"
                INSERT INTO idempotency_receipts (
                  idempotency_key, fingerprint, work_id, status_code, response_json, created_at
                ) VALUES (?, ?, ?, 200, ?, ?)
                "#;

/// Records that a work was taken in.
pub const SUCCESS_AUDIT_SQL: &'static str = r#"
            INSERT INTO ingest_audits (
              id, work_id, source, source_id, ingest_id, fingerprint, idempotency_key,
              page_count, total_bytes, status, error, created_at
            ) VALUES (?, ?, ?, ?, ?, ?, ?, ?, ?, 'success', NULL, ?)
            "#;

/// Records how an attempt to take in a work ended.
pub const AUDIT_SQL: &'static str = r#"
        INSERT INTO ingest_audits (
          id, work_id, source, source_id, ingest_id, fingerprint, idempotency_key,
          page_count, total_bytes, status, error, created_at
        ) VALUES (?, ?, ?, ?, ?, ?, ?, ?, ?, ?, ?, ?)
        "#;

/// A request to take in a work.
pub struct Intake {
    pub meta: ValidatedMeta,
    pub files: Vec<IngestFile<String>>,
    pub key: Option<String>,
    pub entropy: Vec<u8>,
    pub work_id: String,
    pub fingerprint: String,
}

/// The mathematical value of an [`Intake`].
pub struct IntakeView {
    pub meta: MetaView,
    pub files: Seq<IngestFile<Seq<char>>>,
    pub key: Option<Seq<char>>,
    pub entropy: Seq<u8>,
    pub work_id: Seq<char>,
    pub fingerprint: Seq<char>,
}

impl View for Intake {
    type V = IntakeView;

    open spec fn view(&self) -> IntakeView {
        IntakeView {
            meta: self.meta@,
            files: crate::rows::views(self.files@),
            key: outside::opt_text(self.key),
            entropy: self.entropy@,
            work_id: self.work_id@,
            fingerprint: self.fingerprint@,
        }
    }
}

/// When an attempt was made, and its identifier.
pub struct Attempt<T> {
    pub now: T,
    pub ingest_id: T,
}

impl View for Attempt<String> {
    type V = Attempt<Seq<char>>;

    open spec fn view(&self) -> Attempt<Seq<char>> {
        Attempt { now: self.now@, ingest_id: self.ingest_id@ }
    }
}

impl IntakeView {
    /// The key under which the file `i` is stored.
    pub open spec fn file_key(self, ingest_id: Seq<char>, i: int) -> Seq<char> {
        keys::versioned_key(
            self.meta.source,
            self.meta.source_id,
            ingest_id,
            i as nat,
            keys::extension_of(self.files[i].content_type),
        )
    }

    /// How the file `i` is stored.
    pub open spec fn upload(self, ingest_id: Seq<char>, i: int) -> crate::effect::UploadView {
        crate::effect::UploadView {
            file: i,
            key: self.file_key(ingest_id, i),
            content_type: self.files[i].content_type,
            cache_control: IMMUTABLE_CACHE@,
            metadata: Seq::<(Seq<char>, Seq<char>)>::empty().push(("work_id"@, self.work_id)).push(
                ("page_index"@, text::decimal(i as nat)),
            ).push(("ingest_id"@, ingest_id)).push(("sha256"@, self.files[i].sha256)),
        }
    }

    /// The document of the page `i`.
    pub open spec fn page_document(self, ingest_id: Seq<char>, i: int) -> JsonView {
        saved_document(
            i as nat,
            self.file_key(ingest_id, i),
            self.files[i].byte_size,
            self.files[i].sha256,
        )
    }

    /// The reply to this request once it is done.
    pub open spec fn outcome(self, ingest_id: Seq<char>) -> JsonView {
        success_document(
            self.work_id,
            self.meta.tags,
            Seq::new(self.files.len(), |i: int| self.page_document(ingest_id, i)),
            ingest_id,
            false,
        )
    }

    /// The bytes of all files together.
    pub open spec fn total(self) -> nat {
        crate::limits::capped_total(sizes_of(self.files))
    }

    /// Makes the work or brings it up to date.
    pub open spec fn work_statement(self, now: Seq<char>) -> StatementView {
        crate::sql::statement(UPSERT_WORK_SQL@).text(self.work_id).text(self.meta.source).text(
            self.meta.source_id,
        ).text(self.meta.source_url).text(self.meta.title).text(self.meta.author_name).text(
            self.meta.author_url,
        ).flag(self.meta.is_r18).num(self.files.len() as int).text(self.meta.origin).text(now)
    }

    /// Makes the page `i`.
    pub open spec fn image_statement(self, at: Attempt<Seq<char>>, i: int) -> StatementView {
        crate::sql::statement(INSERT_IMAGE_SQL@).text(
            keys::image_id_text(self.work_id, i as nat),
        ).text(self.work_id).num(i).text(self.file_key(at.ingest_id, i)).text(
            self.files[i].content_type,
        ).num(self.files[i].byte_size as int).text(at.now).text(self.files[i].sha256)
    }

    /// Makes all pages.
    pub open spec fn image_statements(self, at: Attempt<Seq<char>>) -> Seq<StatementView> {
        Seq::new(self.files.len(), |i: int| self.image_statement(at, i))
    }

    /// Records the outcome under the idempotency key, if there is one.
    pub open spec fn receipt_statements(self, at: Attempt<Seq<char>>) -> Seq<StatementView> {
        match self.key {
            Some(key) => Seq::<StatementView>::empty().push(
                crate::sql::statement(INSERT_RECEIPT_SQL@).text(key).text(self.fingerprint).text(
                    self.work_id,
                ).document(self.outcome(at.ingest_id)).text(at.now),
            ),
            None => Seq::empty(),
        }
    }

    /// Records that the work was taken in.
    pub open spec fn success_audit(self, at: Attempt<Seq<char>>) -> StatementView {
        crate::sql::statement(SUCCESS_AUDIT_SQL@).text(
            crate::fingerprint::derived_id(
                Seq::<Seq<char>>::empty().push("audit"@).push(at.ingest_id).push(at.now),
            ),
        ).text(self.work_id).text(self.meta.source).text(self.meta.source_id).text(
            at.ingest_id,
        ).text(self.fingerprint).optional(self.key).num(self.files.len() as int).num(
            self.total() as int,
        ).text(at.now)
    }

    /// Records that the attempt failed.
    pub open spec fn failed_audit(self, at: Attempt<Seq<char>>, error: Seq<char>) -> StatementView {
        crate::sql::statement(AUDIT_SQL@).text(
            crate::fingerprint::derived_id(
                Seq::<Seq<char>>::empty().push("audit-fail"@).push(at.ingest_id).push(
                    "failed"@,
                ).push(at.now),
            ),
        ).text(self.work_id).text(self.meta.source).text(self.meta.source_id).text(
            at.ingest_id,
        ).text(self.fingerprint).optional(self.key).num(self.files.len() as int).num(
            self.total() as int,
        ).text("failed"@).optional(Some(error)).text(at.now)
    }

    /// The transaction that makes the work visible: the work, its pages, its
    /// tags, the objects that it no longer uses, the idempotency receipt, and
    /// the audit.
    pub open spec fn commit(self, at: Attempt<Seq<char>>, old: Seq<Seq<char>>) -> Seq<
        StatementView,
    > {
        Seq::<StatementView>::empty().push(self.work_statement(at.now)).push(
            crate::sql::statement(CLEAR_IMAGES_SQL@).text(self.work_id),
        ) + self.image_statements(at) + Seq::<StatementView>::empty().push(
            crate::sql::statement(CLEAR_TAGS_SQL@).text(self.work_id),
        ) + tag_statements(self.work_id, self.meta.tags) + orphan_statements(
            self.work_id,
            old,
            at.now,
        ) + self.receipt_statements(at) + Seq::<StatementView>::empty().push(
            self.success_audit(at),
        )
    }
}

/// Counts each tag and gives it to the work.
pub open spec fn tag_statements(work_id: Seq<char>, tags: Seq<Seq<char>>) -> Seq<StatementView>
    decreases tags.len(),
{
    if tags.len() == 0 {
        Seq::empty()
    } else {
        tag_statements(work_id, tags.drop_last()).push(
            crate::sql::statement(COUNT_TAG_SQL@).text(tags.last()),
        ).push(crate::sql::statement(INSERT_TAG_SQL@).text(work_id).text(tags.last()))
    }
}

/// Records that an object is no longer in use.
pub open spec fn orphan_statement(
    work_id: Seq<char>,
    key: Seq<char>,
    now: Seq<char>,
) -> StatementView {
    crate::sql::statement(ORPHAN_SQL@).text(key).text(work_id).text(now)
}

/// Records the objects that are no longer in use; an empty key names none.
pub open spec fn orphan_statements(
    work_id: Seq<char>,
    old: Seq<Seq<char>>,
    now: Seq<char>,
) -> Seq<StatementView>
    decreases old.len(),
{
    if old.len() == 0 {
        Seq::empty()
    } else if old.last().len() == 0 {
        orphan_statements(work_id, old.drop_last(), now)
    } else {
        orphan_statements(work_id, old.drop_last(), now).push(
            orphan_statement(work_id, old.last(), now),
        )
    }
}

fn tag_batch(work_id: &str, tags: &[String]) -> (r: Vec<Statement>)
    ensures
        crate::sql::statement_views(r@) == tag_statements(work_id@, text::texts(tags@)),
{
    let mut out = no_statements();
    let mut i: usize = 0;
    let ghost all = text::texts(tags@);
    assert(all.take(0) =~= Seq::<Seq<char>>::empty());
    while i < tags.len()
        invariant
            i <= tags@.len(),
            all == text::texts(tags@),
            crate::sql::statement_views(out@) == tag_statements(work_id@, all.take(i as int)),
        decreases tags@.len() - i,
    {
        assert(all.take(i + 1).drop_last() =~= all.take(i as int));
        assert(all.take(i + 1).last() == tags@[i as int]@);
        add_statement(&mut out, Statement::new(COUNT_TAG_SQL).text(tags[i].as_str()));
        add_statement(
            &mut out,
            Statement::new(INSERT_TAG_SQL).text(work_id).text(tags[i].as_str()),
        );
        i += 1;
    }
    assert(all.take(i as int) =~= all);
    out
}

fn orphan_batch(work_id: &str, old: &[String], now: &str) -> (r: Vec<Statement>)
    ensures
        crate::sql::statement_views(r@) == orphan_statements(work_id@, text::texts(old@), now@),
{
    let mut out = no_statements();
    let mut i: usize = 0;
    let ghost all = text::texts(old@);
    assert(all.take(0) =~= Seq::<Seq<char>>::empty());
    while i < old.len()
        invariant
            i <= old@.len(),
            all == text::texts(old@),
            crate::sql::statement_views(out@) == orphan_statements(
                work_id@,
                all.take(i as int),
                now@,
            ),
        decreases old@.len() - i,
    {
        assert(all.take(i + 1).drop_last() =~= all.take(i as int));
        assert(all.take(i + 1).last() == old@[i as int]@);
        if !old[i].as_str().is_empty() {
            add_statement(
                &mut out,
                Statement::new(ORPHAN_SQL).text(old[i].as_str()).text(work_id).text(now),
            );
        }
        i += 1;
    }
    assert(all.take(i as int) =~= all);
    out
}

impl Intake {
    fn file_key(&self, ingest_id: &str, i: usize) -> (r: String)
        requires
            i < self.files@.len(),
        ensures
            r@ == self@.file_key(ingest_id@, i as int),
    {
        let ext = keys::ext_from_content_type(self.files[i].content_type.as_str());
        keys::versioned_r2_key(
            self.meta.source.as_str(),
            self.meta.source_id.as_str(),
            ingest_id,
            i,
            ext,
        )
    }

    fn upload(&self, ingest_id: &str, i: usize) -> (r: Upload)
        requires
            i < self.files@.len(),
        ensures
            r@ == self@.upload(ingest_id@, i as int),
    {
        let mut metadata: Vec<(String, String)> = Vec::new();
        assert(outside::pair_texts(metadata@) =~= Seq::<(Seq<char>, Seq<char>)>::empty());
        add_pair(&mut metadata, "work_id", self.work_id.as_str());
        add_pair(&mut metadata, "page_index", text::decimal_text(i as u64).as_str());
        add_pair(&mut metadata, "ingest_id", ingest_id);
        add_pair(&mut metadata, "sha256", self.files[i].sha256.as_str());
        Upload {
            file: i,
            key: self.file_key(ingest_id, i),
            content_type: self.files[i].content_type.clone(),
            cache_control: IMMUTABLE_CACHE.to_owned(),
            metadata,
        }
    }

    fn outcome(&self, ingest_id: &str) -> (r: Json)
        ensures
            r@ == self@.outcome(ingest_id@),
    {
        let mut saved: Vec<SavedImage> = Vec::new();
        let mut i: usize = 0;
        while i < self.files.len()
            invariant
                i <= self.files@.len(),
                saved@.len() == i,
                forall|k: int|
                    0 <= k < i ==> saved_documents(saved@)[k] == #[trigger] self@.page_document(
                        ingest_id@,
                        k,
                    ),
            decreases self.files@.len() - i,
        {
            let ghost before = saved@;
            saved.push(
                SavedImage {
                    page: i,
                    r2_key: self.file_key(ingest_id, i),
                    bytes: self.files[i].byte_size,
                    sha256: self.files[i].sha256.clone(),
                },
            );
            proof {
                assert forall|k: int| 0 <= k < i + 1 implies saved_documents(saved@)[k]
                    == #[trigger] self@.page_document(ingest_id@, k) by {
                    if k < i {
                        assert(saved@[k] == before[k]);
                        assert(saved_documents(before)[k] == self@.page_document(ingest_id@, k));
                    }
                }
            }
            i += 1;
        }
        assert(saved_documents(saved@) =~= Seq::new(
            self@.files.len(),
            |k: int| self@.page_document(ingest_id@, k),
        ));
        success_response_body(
            self.work_id.as_str(),
            self.meta.tags.as_slice(),
            saved.as_slice(),
            ingest_id,
            false,
        )
    }

    fn work_statement(&self, now: &str) -> (r: Statement)
        ensures
            r@ == self@.work_statement(now@),
    {
        Statement::new(UPSERT_WORK_SQL).text(self.work_id.as_str()).text(
            self.meta.source.as_str(),
        ).text(self.meta.source_id.as_str()).text(self.meta.source_url.as_str()).text(
            self.meta.title.as_str(),
        ).text(self.meta.author_name.as_str()).text(self.meta.author_url.as_str()).flag(
            self.meta.is_r18,
        ).num(self.files.len() as i128).text(self.meta.origin.as_str()).text(now)
    }

    fn image_batch(&self, at: &Attempt<String>) -> (r: Vec<Statement>)
        ensures
            crate::sql::statement_views(r@) == self@.image_statements(at@),
    {
        let mut out = no_statements();
        let mut i: usize = 0;
        let ghost want = self@.image_statements(at@);
        assert(want.take(0) =~= Seq::<StatementView>::empty());
        while i < self.files.len()
            invariant
                i <= self.files@.len(),
                want == self@.image_statements(at@),
                want.len() == self.files@.len(),
                crate::sql::statement_views(out@) == want.take(i as int),
            decreases self.files@.len() - i,
        {
            let key = self.file_key(at.ingest_id.as_str(), i);
            let id = keys::image_id(self.work_id.as_str(), i);
            let s = Statement::new(INSERT_IMAGE_SQL).text(id.as_str()).text(
                self.work_id.as_str(),
            ).num(i as i128).text(key.as_str()).text(self.files[i].content_type.as_str()).num(
                self.files[i].byte_size as i128,
            ).text(at.now.as_str()).text(self.files[i].sha256.as_str());
            assert(s@ == self@.image_statement(at@, i as int));
            assert(want[i as int] == s@);
            add_statement(&mut out, s);
            assert(want.take(i + 1) =~= want.take(i as int).push(want[i as int]));
            i += 1;
        }
        assert(want.take(i as int) =~= want);
        out
    }

    fn receipt_batch(&self, at: &Attempt<String>) -> (r: Vec<Statement>)
        ensures
            crate::sql::statement_views(r@) == self@.receipt_statements(at@),
    {
        let mut out = no_statements();
        match &self.key {
            Some(key) => {
                let body = self.outcome(at.ingest_id.as_str());
                add_statement(
                    &mut out,
                    Statement::new(INSERT_RECEIPT_SQL).text(key.as_str()).text(
                        self.fingerprint.as_str(),
                    ).text(self.work_id.as_str()).document(body).text(at.now.as_str()),
                );
            },
            None => {},
        }
        out
    }

    fn optional_key(&self) -> (r: Option<&str>)
        ensures
            text::view_of(r) == self@.key,
    {
        match &self.key {
            Some(key) => Some(key.as_str()),
            None => None,
        }
    }

    fn success_audit(&self, at: &Attempt<String>) -> (r: Statement)
        ensures
            r@ == self@.success_audit(at@),
    {
        let parts: [&str; 3] = ["audit", at.ingest_id.as_str(), at.now.as_str()];
        let id = shape_ingest_id(parts.as_slice());
        assert(crate::fingerprint::part_views(parts@) =~= Seq::<Seq<char>>::empty().push(
            "audit"@,
        ).push(at@.ingest_id).push(at@.now));
        let total: u64 = total_bytes(self.files.as_slice());
        Statement::new(SUCCESS_AUDIT_SQL).text(id.as_str()).text(self.work_id.as_str()).text(
            self.meta.source.as_str(),
        ).text(self.meta.source_id.as_str()).text(at.ingest_id.as_str()).text(
            self.fingerprint.as_str(),
        ).optional(self.optional_key()).num(self.files.len() as i128).num(total as i128).text(
            at.now.as_str(),
        )
    }

    /// Records that the attempt failed.
    fn failed_audit(&self, at: &Attempt<String>, error: &str) -> (r: Statement)
        ensures
            r@ == self@.failed_audit(at@, error@),
    {
        let parts: [&str; 4] = ["audit-fail", at.ingest_id.as_str(), "failed", at.now.as_str()];
        let id = shape_ingest_id(parts.as_slice());
        assert(crate::fingerprint::part_views(parts@) =~= Seq::<Seq<char>>::empty().push(
            "audit-fail"@,
        ).push(at@.ingest_id).push("failed"@).push(at@.now));
        let total: u64 = total_bytes(self.files.as_slice());
        Statement::new(AUDIT_SQL).text(id.as_str()).text(self.work_id.as_str()).text(
            self.meta.source.as_str(),
        ).text(self.meta.source_id.as_str()).text(at.ingest_id.as_str()).text(
            self.fingerprint.as_str(),
        ).optional(self.optional_key()).num(self.files.len() as i128).num(total as i128).text(
            "failed",
        ).optional(Some(error)).text(at.now.as_str())
    }

    /// The transaction that makes the work visible.
    fn commit(&self, at: &Attempt<String>, old: &[String]) -> (r: Vec<Statement>)
        ensures
            crate::sql::statement_views(r@) == self@.commit(at@, text::texts(old@)),
    {
        let mut out = no_statements();
        add_statement(&mut out, self.work_statement(at.now.as_str()));
        add_statement(&mut out, Statement::new(CLEAR_IMAGES_SQL).text(self.work_id.as_str()));
        add_statements(&mut out, self.image_batch(at));
        let mut clear = no_statements();
        add_statement(&mut clear, Statement::new(CLEAR_TAGS_SQL).text(self.work_id.as_str()));
        add_statements(&mut out, clear);
        add_statements(&mut out, tag_batch(self.work_id.as_str(), self.meta.tags.as_slice()));
        add_statements(&mut out, orphan_batch(self.work_id.as_str(), old, at.now.as_str()));
        add_statements(&mut out, self.receipt_batch(at));
        let mut audit = no_statements();
        add_statement(&mut audit, self.success_audit(at));
        add_statements(&mut out, audit);
        out
    }
}

// ---------------------------------------------------------------------------
// The machine
// ---------------------------------------------------------------------------

/// What is left to take back after a failure.
pub struct Undo<T> {
    /// How many files were stored.
    pub stored: usize,
    /// The file that is being taken back.
    pub file: usize,
    /// What the audit records.
    pub cause: T,
    /// What the reply says.
    pub message: T,
}

impl View for Undo<String> {
    type V = Undo<Seq<char>>;

    open spec fn view(&self) -> Undo<Seq<char>> {
        Undo {
            stored: self.stored,
            file: self.file,
            cause: self.cause@,
            message: self.message@,
        }
    }
}

/// How far taking in a work is.
pub enum IngestPhase {
    /// The recorded outcome under the idempotency key is read.
    Receipt,
    /// The clock is asked.
    Time,
    /// The keys of the pages that the work has are read.
    OldKeys(Attempt<String>),
    /// A file is stored.
    Storing(Attempt<String>, Vec<String>, usize),
    /// The transaction runs.
    Commit(Attempt<String>),
    /// A stored file is taken back.
    Undo(Attempt<String>, Undo<String>),
    /// The failure is recorded; the reply will give the message.
    Audit(String),
    /// All is said.
    End,
}

/// The mathematical value of an [`IngestPhase`].
pub enum IngestPhaseView {
    Receipt,
    Time,
    OldKeys(Attempt<Seq<char>>),
    Storing(Attempt<Seq<char>>, Seq<Seq<char>>, int),
    Commit(Attempt<Seq<char>>),
    Undo(Attempt<Seq<char>>, Undo<Seq<char>>),
    Audit(Seq<char>),
    End,
}

impl View for IngestPhase {
    type V = IngestPhaseView;

    open spec fn view(&self) -> IngestPhaseView {
        match self {
            IngestPhase::Receipt => IngestPhaseView::Receipt,
            IngestPhase::Time => IngestPhaseView::Time,
            IngestPhase::OldKeys(at) => IngestPhaseView::OldKeys(at@),
            IngestPhase::Storing(at, old, i) => IngestPhaseView::Storing(
                at@,
                text::texts(old@),
                *i as int,
            ),
            IngestPhase::Commit(at) => IngestPhaseView::Commit(at@),
            IngestPhase::Undo(at, undo) => IngestPhaseView::Undo(at@, undo@),
            IngestPhase::Audit(message) => IngestPhaseView::Audit(message@),
            IngestPhase::End => IngestPhaseView::End,
        }
    }
}

/// A request to take in a work, on its way.
pub struct Ingest {
    intake: Intake,
    phase: IngestPhase,
}

/// The mathematical value of an [`Ingest`].
pub struct IngestView {
    pub intake: IntakeView,
    pub phase: IngestPhaseView,
}

impl View for Ingest {
    type V = IngestView;

    closed spec fn view(&self) -> IngestView {
        IngestView { intake: self.intake@, phase: self.phase@ }
    }
}

impl IngestView {
    /// There are files, and only files of the request are stored or taken back.
    pub open spec fn well_formed(self) -> bool {
        let n = self.intake.files.len();
        &&& 0 < n
        &&& match self.phase {
            IngestPhaseView::Storing(_, _, i) => 0 <= i < n,
            IngestPhaseView::Undo(_, undo) => undo.file < undo.stored <= n,
            _ => true,
        }
    }

    /// Takes back `stored` files after a failure, or records it at once where
    /// there are none.
    pub open spec fn take_back(
        self,
        at: Attempt<Seq<char>>,
        stored: usize,
        cause: Seq<char>,
        message: Seq<char>,
    ) -> (IngestView, ActionView) {
        if stored > 0 {
            (
                IngestView {
                    intake: self.intake,
                    phase: IngestPhaseView::Undo(at, Undo { stored, file: 0, cause, message }),
                },
                ActionView::Forget(self.intake.file_key(at.ingest_id, 0)),
            )
        } else {
            (
                IngestView { intake: self.intake, phase: IngestPhaseView::Audit(message) },
                ActionView::Run(self.intake.failed_audit(at, cause)),
            )
        }
    }

    /// What follows once a file was taken back, or could not be.
    pub open spec fn taken_back(self, at: Attempt<Seq<char>>, undo: Undo<Seq<char>>) -> (
        IngestView,
        ActionView,
    ) {
        if undo.file + 1 < undo.stored {
            (
                IngestView {
                    intake: self.intake,
                    phase: IngestPhaseView::Undo(
                        at,
                        Undo {
                            stored: undo.stored,
                            file: (undo.file + 1) as usize,
                            cause: undo.cause,
                            message: undo.message,
                        },
                    ),
                },
                ActionView::Forget(self.intake.file_key(at.ingest_id, undo.file + 1)),
            )
        } else {
            (
                IngestView { intake: self.intake, phase: IngestPhaseView::Audit(undo.message) },
                ActionView::Run(self.intake.failed_audit(at, undo.cause)),
            )
        }
    }

    /// The last step.
    pub open spec fn ends(self, action: ActionView) -> (IngestView, ActionView) {
        (IngestView { intake: self.intake, phase: IngestPhaseView::End }, action)
    }

    /// One more step.
    pub open spec fn goes(self, phase: IngestPhaseView, action: ActionView) -> (
        IngestView,
        ActionView,
    ) {
        (IngestView { intake: self.intake, phase }, action)
    }
}

impl Machine for IngestView {
    open spec fn next(self, event: EventView) -> (IngestView, ActionView) {
        let n = self.intake.files.len();
        match (self.phase, event) {
            (IngestPhaseView::Receipt, EventView::Idempotency(Some(row))) => if row.fingerprint
                == self.intake.fingerprint {
                self.ends(
                    ActionView::Reply(
                        replay_view(
                            outside::rewritten(row.response_json),
                            row.status_code,
                            self.intake.work_id,
                        ),
                    ),
                )
            } else {
                self.ends(ActionView::Reply(conflict_view()))
            },
            (IngestPhaseView::Receipt, EventView::Idempotency(None)) => self.goes(
                IngestPhaseView::Time,
                ActionView::Clock,
            ),
            (IngestPhaseView::Time, EventView::Now(now)) => {
                let ingest_id = crate::fingerprint::derived_id(
                    crate::fingerprint::ingest_id_parts(
                        now,
                        self.intake.work_id,
                        self.intake.fingerprint,
                        self.intake.entropy,
                    ),
                );
                self.goes(
                    IngestPhaseView::OldKeys(Attempt { now, ingest_id }),
                    ActionView::Query(
                        Table::OldKeys,
                        crate::sql::statement(OLD_KEYS_SQL@).text(self.intake.work_id),
                    ),
                )
            },
            (IngestPhaseView::OldKeys(at), EventView::Texts(old)) => self.goes(
                IngestPhaseView::Storing(at, old, 0),
                ActionView::Put(self.intake.upload(at.ingest_id, 0)),
            ),
            (IngestPhaseView::Storing(at, old, i), EventView::Done) => if i + 1 < n {
                self.goes(
                    IngestPhaseView::Storing(at, old, i + 1),
                    ActionView::Put(self.intake.upload(at.ingest_id, i + 1)),
                )
            } else {
                self.goes(
                    IngestPhaseView::Commit(at),
                    ActionView::Batch(self.intake.commit(at, old)),
                )
            },
            (IngestPhaseView::Storing(at, old, i), EventView::Failed(message)) => {
                let text = "r2 upload failed: "@ + message;
                self.take_back(at, i as usize, text, text)
            },
            (IngestPhaseView::Commit(at), EventView::Done) => self.ends(
                ActionView::Reply(
                    ReplyView { status: 200, body: self.intake.outcome(at.ingest_id) },
                ),
            ),
            (IngestPhaseView::Commit(at), EventView::Failed(message)) => self.take_back(
                at,
                n as usize,
                message,
                "d1 batch failed: "@ + message,
            ),
            (IngestPhaseView::Undo(at, undo), EventView::Done) => self.taken_back(at, undo),
            (IngestPhaseView::Undo(at, undo), EventView::Failed(_)) => self.taken_back(at, undo),
            (IngestPhaseView::Audit(message), EventView::Done) => self.ends(
                crate::effect::refuse(message, 500),
            ),
            (IngestPhaseView::Audit(message), EventView::Failed(_)) => self.ends(
                crate::effect::refuse(message, 500),
            ),
            _ => self.ends(crate::effect::stop(event)),
        }
    }
}

/// The request with its identifiers.
pub open spec fn intake_of(
    meta: MetaView,
    files: Seq<IngestFile<Seq<char>>>,
    key: Option<Seq<char>>,
    entropy: Seq<u8>,
) -> IntakeView {
    IntakeView {
        meta,
        files,
        key,
        entropy,
        work_id: keys::work_id_text(meta.source, meta.source_id),
        fingerprint: crate::fingerprint::fingerprint_of(meta, digests_of(files)),
    }
}

/// The first step of taking in a work, or why it is refused.
pub open spec fn ingest_begun(
    meta: MetaView,
    files: Seq<IngestFile<Seq<char>>>,
    key: Option<Seq<char>>,
    limits: IngestLimits,
    entropy: Seq<u8>,
) -> Result<(IngestView, ActionView), ReplyView> {
    let intake = intake_of(meta, files, key, entropy);
    match crate::limits::limit_outcome(files.len() as usize, sizes_of(files), limits) {
        Err(fault) => Err(crate::json::refusal_view(crate::limits::limit_message(fault), 400)),
        Ok(()) => Ok(
            match key {
                Some(key) => (
                    IngestView { intake, phase: IngestPhaseView::Receipt },
                    ActionView::Query(
                        Table::Idempotency,
                        crate::sql::statement(IDEMPOTENCY_SQL@).text(key),
                    ),
                ),
                None => (
                    IngestView { intake, phase: IngestPhaseView::Time },
                    ActionView::Clock,
                ),
            },
        ),
    }
}

/// The value of the first step of a machine.
pub open spec fn ingest_start(r: Result<(Ingest, Action), Reply>) -> Result<
    (IngestView, ActionView),
    ReplyView,
> {
    match r {
        Ok(first) => Ok((first.0@, first.1@)),
        Err(reply) => Err(reply@),
    }
}

impl Ingest {
    /// Only files of the request are stored or taken back.
    pub open spec fn well_formed(self) -> bool {
        self@.well_formed()
    }

    /// Begins to take in a work, with the given random bytes in its identifier.
    pub fn begin_with(
        meta: ValidatedMeta,
        files: Vec<IngestFile<String>>,
        key: Option<String>,
        limits: &IngestLimits,
        entropy: Vec<u8>,
    ) -> (r: Result<(Ingest, Action), Reply>)
        ensures
            ingest_start(r) == ingest_begun(
                meta@,
                crate::rows::views(files@),
                outside::opt_text(key),
                *limits,
                entropy@,
            ),
            r is Ok ==> r->Ok_0.0.well_formed(),
    {
        let sizes = file_sizes(files.as_slice());
        match check_file_limits(files.len(), sizes.as_slice(), limits) {
            Err(fault) => {
                return Err(refusal(fault.message().as_str(), 400));
            },
            Ok(()) => {},
        }
        let digests = file_digests(files.as_slice());
        let fingerprint = compute_fingerprint(&meta, digests.as_slice());
        let work_id = keys::work_id(meta.source.as_str(), meta.source_id.as_str());
        let (phase, action) = match &key {
            Some(key) => (
                IngestPhase::Receipt,
                Action::Query(
                    Table::Idempotency,
                    Statement::new(IDEMPOTENCY_SQL).text(key.as_str()),
                ),
            ),
            None => (IngestPhase::Time, Action::Clock),
        };
        let intake = Intake { meta, files, key, entropy, work_id, fingerprint };
        Ok((Ingest { intake, phase }, action))
    }

    /// Begins to take in a work.
    pub fn begin(
        meta: ValidatedMeta,
        files: Vec<IngestFile<String>>,
        key: Option<String>,
        limits: &IngestLimits,
    ) -> (r: Result<(Ingest, Action), Reply>)
        ensures
            exists|entropy: Seq<u8>|
                entropy.len() == 16 && ingest_start(r) == #[trigger] ingest_begun(
                    meta@,
                    crate::rows::views(files@),
                    outside::opt_text(key),
                    *limits,
                    entropy,
                ),
            r is Ok ==> r->Ok_0.0.well_formed(),
    {
        let entropy = outside::random_bytes();
        let ghost e = entropy@;
        let ghost m = meta@;
        let ghost f = crate::rows::views(files@);
        let ghost k = outside::opt_text(key);
        let r = Ingest::begin_with(meta, files, key, limits, entropy);
        assert(ingest_start(r) == ingest_begun(m, f, k, *limits, e));
        r
    }

    fn take_back(
        intake: Intake,
        at: Attempt<String>,
        stored: usize,
        cause: String,
        message: String,
    ) -> (r: (Ingest, Action))
        requires
            stored <= intake.files@.len(),
            0 < intake.files@.len(),
        ensures
            (r.0@, r.1@) == (IngestView { intake: intake@, phase: IngestPhaseView::End }).take_back(
                at@,
                stored,
                cause@,
                message@,
            ),
            r.0.well_formed(),
    {
        if stored > 0 {
            let key = intake.file_key(at.ingest_id.as_str(), 0);
            let undo = Undo { stored, file: 0, cause, message };
            (Ingest { intake, phase: IngestPhase::Undo(at, undo) }, Action::Forget(key))
        } else {
            let audit = intake.failed_audit(&at, cause.as_str());
            (Ingest { intake, phase: IngestPhase::Audit(message) }, Action::Run(audit))
        }
    }

    fn taken_back(intake: Intake, at: Attempt<String>, undo: Undo<String>) -> (r: (Ingest, Action))
        requires
            undo.file < undo.stored <= intake.files@.len(),
        ensures
            (r.0@, r.1@) == (IngestView {
                intake: intake@,
                phase: IngestPhaseView::End,
            }).taken_back(at@, undo@),
            r.0.well_formed(),
    {
        if undo.file + 1 < undo.stored {
            let file: usize = undo.file + 1;
            let key = intake.file_key(at.ingest_id.as_str(), file);
            let undo = Undo { stored: undo.stored, file, cause: undo.cause, message: undo.message };
            (Ingest { intake, phase: IngestPhase::Undo(at, undo) }, Action::Forget(key))
        } else {
            let audit = intake.failed_audit(&at, undo.cause.as_str());
            (Ingest { intake, phase: IngestPhase::Audit(undo.message) }, Action::Run(audit))
        }
    }

    /// Takes one step.
    pub fn step(self, event: Event) -> (r: (Ingest, Action))
        requires
            self.well_formed(),
        ensures
            (r.0@, r.1@) == self@.next(event@),
            r.0.well_formed(),
    {
        let intake = self.intake;
        match (self.phase, event) {
            (IngestPhase::Receipt, Event::Idempotency(Some(row))) => {
                let reply = if text::same_text(
                    row.fingerprint.as_str(),
                    intake.fingerprint.as_str(),
                ) {
                    let body = outside::rewrite_json(row.response_json.as_str());
                    replay_reply(body, row.status_code, intake.work_id.as_str())
                } else {
                    conflict_reply()
                };
                (Ingest { intake, phase: IngestPhase::End }, Action::Reply(reply))
            },
            (IngestPhase::Receipt, Event::Idempotency(None)) => (
                Ingest { intake, phase: IngestPhase::Time },
                Action::Clock,
            ),
            (IngestPhase::Time, Event::Now(now)) => {
                let ingest_id = ingest_id_with(
                    now.as_str(),
                    intake.work_id.as_str(),
                    intake.fingerprint.as_str(),
                    intake.entropy.as_slice(),
                );
                let query = Statement::new(OLD_KEYS_SQL).text(intake.work_id.as_str());
                let at = Attempt { now, ingest_id };
                (
                    Ingest { intake, phase: IngestPhase::OldKeys(at) },
                    Action::Query(Table::OldKeys, query),
                )
            },
            (IngestPhase::OldKeys(at), Event::Texts(old)) => {
                let upload = intake.upload(at.ingest_id.as_str(), 0);
                (
                    Ingest { intake, phase: IngestPhase::Storing(at, old, 0) },
                    Action::Put(upload),
                )
            },
            (IngestPhase::Storing(at, old, i), Event::Done) => {
                let n: usize = intake.files.len();
                if i + 1 < n {
                    let upload = intake.upload(at.ingest_id.as_str(), i + 1);
                    (
                        Ingest { intake, phase: IngestPhase::Storing(at, old, i + 1) },
                        Action::Put(upload),
                    )
                } else {
                    let batch = intake.commit(&at, old.as_slice());
                    (Ingest { intake, phase: IngestPhase::Commit(at) }, Action::Batch(batch))
                }
            },
            (IngestPhase::Storing(at, _, i), Event::Failed(message)) => {
                let cause = text::concat2("r2 upload failed: ", message.as_str());
                let told = cause.clone();
                Ingest::take_back(intake, at, i, cause, told)
            },
            (IngestPhase::Commit(at), Event::Done) => {
                let body = intake.outcome(at.ingest_id.as_str());
                (
                    Ingest { intake, phase: IngestPhase::End },
                    Action::Reply(Reply { status: 200, body }),
                )
            },
            (IngestPhase::Commit(at), Event::Failed(message)) => {
                let told = text::concat2("d1 batch failed: ", message.as_str());
                let n: usize = intake.files.len();
                Ingest::take_back(intake, at, n, message, told)
            },
            (IngestPhase::Undo(at, undo), Event::Done) => Ingest::taken_back(intake, at, undo),
            (IngestPhase::Undo(at, undo), Event::Failed(_)) => Ingest::taken_back(
                intake,
                at,
                undo,
            ),
            (IngestPhase::Audit(message), Event::Done) => (
                Ingest { intake, phase: IngestPhase::End },
                refusing(message.as_str(), 500),
            ),
            (IngestPhase::Audit(message), Event::Failed(_)) => (
                Ingest { intake, phase: IngestPhase::End },
                refusing(message.as_str(), 500),
            ),
            (_, event) => (Ingest { intake, phase: IngestPhase::End }, give_up(event)),
        }
    }
}

// ---------------------------------------------------------------------------
// What holds of every run
// ---------------------------------------------------------------------------

/// Whether the file `i` was stored under its key in the course of some events.
pub open spec fn was_stored(
    start: (IngestView, ActionView),
    events: Seq<EventView>,
    ingest_id: Seq<char>,
    i: int,
) -> bool {
    crate::effect::was_done(
        start,
        events,
        ActionView::Put(start.0.intake.upload(ingest_id, i)),
    )
}

/// Whether an action is the transaction that makes a work visible.
pub open spec fn commits(
    intake: IntakeView,
    at: Attempt<Seq<char>>,
    action: ActionView,
) -> bool {
    exists|old: Seq<Seq<char>>| action == ActionView::Batch(#[trigger] intake.commit(at, old))
}

/// Whether all files were stored under the keys of one attempt.
pub open spec fn all_stored(
    start: (IngestView, ActionView),
    events: Seq<EventView>,
    ingest_id: Seq<char>,
) -> bool {
    forall|i: int|
        0 <= i < start.0.intake.files.len() ==> #[trigger] was_stored(start, events, ingest_id, i)
}

/// What the state of a run tells of its past.
spec fn history(start: (IngestView, ActionView), events: Seq<EventView>) -> bool {
    let (now, asked) = crate::effect::after(start, events);
    let n = start.0.intake.files.len() as int;
    &&& now.intake == start.0.intake
    &&& now.well_formed()
    &&& asked !is Delete
    &&& match now.phase {
        IngestPhaseView::Storing(at, _, k) => {
            &&& asked == ActionView::Put(start.0.intake.upload(at.ingest_id, k))
            &&& forall|i: int| 0 <= i < k ==> #[trigger] was_stored(start, events, at.ingest_id, i)
        },
        IngestPhaseView::Commit(at) => {
            &&& commits(start.0.intake, at, asked)
            &&& forall|i: int| 0 <= i < n ==> #[trigger] was_stored(start, events, at.ingest_id, i)
        },
        IngestPhaseView::Undo(at, undo) => {
            &&& asked == ActionView::Forget(
                start.0.intake.file_key(at.ingest_id, undo.file as int),
            )
            &&& forall|i: int|
                0 <= i < undo.stored ==> #[trigger] was_stored(start, events, at.ingest_id, i)
        },
        _ => asked !is Batch && asked !is Forget,
    }
}

proof fn lemma_history(
    meta: MetaView,
    files: Seq<IngestFile<Seq<char>>>,
    key: Option<Seq<char>>,
    limits: IngestLimits,
    entropy: Seq<u8>,
    start: (IngestView, ActionView),
    events: Seq<EventView>,
)
    requires
        files.len() <= usize::MAX,
        ingest_begun(meta, files, key, limits, entropy) == Ok::<
            (IngestView, ActionView),
            ReplyView,
        >(start),
    ensures
        history(start, events),
    decreases events.len(),
{
    if events.len() > 0 {
        let front = events.drop_last();
        let event = events.last();
        lemma_history(meta, files, key, limits, entropy, start, front);
        let (was, asked) = crate::effect::after(start, front);
        let n = files.len() as int;
        assert(front =~= events.take(events.len() - 1));
        assert forall|id: Seq<char>, i: int|
            was_stored(start, front, id, i) implies #[trigger] was_stored(start, events, id, i) by {
            crate::effect::lemma_done_stays(
                start,
                events,
                ActionView::Put(start.0.intake.upload(id, i)),
            );
        }
        match (was.phase, event) {
            (IngestPhaseView::Storing(at, old, k), EventView::Done) => {
                if k + 1 >= n {
                    assert(commits(start.0.intake, at, crate::effect::after(start, events).1));
                }
                crate::effect::lemma_done_now(start, events);
                assert(was_stored(start, events, at.ingest_id, k));
            },
            _ => {},
        }
    }
}

/// A work becomes visible only when all its files are stored: the transaction
/// is asked for after each file was stored under its key.
pub proof fn law_commit_follows_all_files(
    meta: MetaView,
    files: Seq<IngestFile<Seq<char>>>,
    key: Option<Seq<char>>,
    limits: IngestLimits,
    entropy: Seq<u8>,
    start: (IngestView, ActionView),
    events: Seq<EventView>,
)
    requires
        files.len() <= usize::MAX,
        ingest_begun(meta, files, key, limits, entropy) == Ok::<
            (IngestView, ActionView),
            ReplyView,
        >(start),
        crate::effect::after(start, events).1 is Batch,
    ensures
        exists|at: Attempt<Seq<char>>| #[trigger]
            commits(start.0.intake, at, crate::effect::after(start, events).1) && all_stored(
                start,
                events,
                at.ingest_id,
            ),
{
    lemma_history(meta, files, key, limits, entropy, start, events);
    let now = crate::effect::after(start, events).0;
    match now.phase {
        IngestPhaseView::Commit(at) => {
            assert(all_stored(start, events, at.ingest_id));
        },
        _ => {},
    }
}

/// Taking in a work deletes nothing but what the same attempt stored: the
/// objects that the work used before are never touched.
pub proof fn law_ingest_deletes_only_its_own(
    meta: MetaView,
    files: Seq<IngestFile<Seq<char>>>,
    key: Option<Seq<char>>,
    limits: IngestLimits,
    entropy: Seq<u8>,
    start: (IngestView, ActionView),
    events: Seq<EventView>,
)
    requires
        files.len() <= usize::MAX,
        ingest_begun(meta, files, key, limits, entropy) == Ok::<
            (IngestView, ActionView),
            ReplyView,
        >(start),
    ensures
        crate::effect::after(start, events).1 !is Delete,
        crate::effect::after(start, events).1 matches ActionView::Forget(k) ==> exists|
            ingest_id: Seq<char>,
            i: int,
        |
            0 <= i < files.len() && k == start.0.intake.file_key(ingest_id, i)
                && #[trigger] was_stored(start, events, ingest_id, i),
{
    lemma_history(meta, files, key, limits, entropy, start, events);
    let (now, asked) = crate::effect::after(start, events);
    match now.phase {
        IngestPhaseView::Undo(at, undo) => {
            assert(was_stored(start, events, at.ingest_id, undo.file as int));
        },
        _ => {},
    }
}

/// Whether an event is the receipt of an earlier request.
pub open spec fn has_receipt(event: EventView) -> bool {
    event is Idempotency && event->Idempotency_0 is Some
}

/// A success that is no replay is told only after the transaction went through,
/// with or without an idempotency key.
pub proof fn law_success_follows_commit(
    meta: MetaView,
    files: Seq<IngestFile<Seq<char>>>,
    key: Option<Seq<char>>,
    limits: IngestLimits,
    entropy: Seq<u8>,
    start: (IngestView, ActionView),
    events: Seq<EventView>,
)
    requires
        files.len() <= usize::MAX,
        ingest_begun(meta, files, key, limits, entropy) == Ok::<
            (IngestView, ActionView),
            ReplyView,
        >(start),
        crate::effect::after(start, events).1 matches ActionView::Reply(r) && r.status == 200,
        forall|i: int| 0 <= i < events.len() ==> !has_receipt(#[trigger] events[i]),
    ensures
        exists|at: Attempt<Seq<char>>, old: Seq<Seq<char>>|
            crate::effect::was_done(
                start,
                events,
                ActionView::Batch(#[trigger] start.0.intake.commit(at, old)),
            ),
{
    assert(events.len() > 0);
    let front = events.drop_last();
    lemma_history(meta, files, key, limits, entropy, start, front);
    let was = crate::effect::after(start, front).0;
    let last = events.len() - 1;
    assert(!has_receipt(events[last]));
    assert(was.phase is Commit && events[last] == EventView::Done);
    let at = was.phase->Commit_0;
    let asked = crate::effect::after(start, front).1;
    let old = choose|old: Seq<Seq<char>>|
        asked == ActionView::Batch(#[trigger] start.0.intake.commit(at, old));
    crate::effect::lemma_done_now(start, events);
    assert(crate::effect::was_done(
        start,
        events,
        ActionView::Batch(start.0.intake.commit(at, old)),
    ));
}

/// Every object that the work used before is recorded as no longer in use.
pub proof fn law_replaced_objects_are_recorded(
    intake: IntakeView,
    at: Attempt<Seq<char>>,
    old: Seq<Seq<char>>,
    key: Seq<char>,
)
    requires
        old.contains(key),
        key.len() > 0,
    ensures
        intake.commit(at, old).contains(orphan_statement(intake.work_id, key, at.now)),
{
    lemma_orphan_listed(intake.work_id, old, at.now, key);
    let orphans = orphan_statements(intake.work_id, old, at.now);
    let front = Seq::<StatementView>::empty().push(intake.work_statement(at.now)).push(
        crate::sql::statement(CLEAR_IMAGES_SQL@).text(intake.work_id),
    ) + intake.image_statements(at) + Seq::<StatementView>::empty().push(
        crate::sql::statement(CLEAR_TAGS_SQL@).text(intake.work_id),
    ) + tag_statements(intake.work_id, intake.meta.tags);
    let want = orphan_statement(intake.work_id, key, at.now);
    let i = choose|i: int| 0 <= i < orphans.len() && orphans[i] == want;
    let all = intake.commit(at, old);
    assert(all[front.len() + i] == want);
}

proof fn lemma_orphan_listed(
    work_id: Seq<char>,
    old: Seq<Seq<char>>,
    now: Seq<char>,
    key: Seq<char>,
)
    requires
        old.contains(key),
        key.len() > 0,
    ensures
        orphan_statements(work_id, old, now).contains(orphan_statement(work_id, key, now)),
    decreases old.len(),
{
    let front = old.drop_last();
    let list = orphan_statements(work_id, front, now);
    let want = orphan_statement(work_id, key, now);
    if old.last() == key {
        assert(list.push(want)[list.len() as int] == want);
    } else {
        let k = choose|k: int| 0 <= k < old.len() && old[k] == key;
        assert(front[k] == key);
        lemma_orphan_listed(work_id, front, now, key);
        let j = choose|j: int| 0 <= j < list.len() && list[j] == want;
        assert(orphan_statements(work_id, old, now)[j] == want);
    }
}

/// The names in the reply to a work that was taken in are in ascending order.
proof fn lemma_names_ascend()
    ensures
        text::comes_before("bytes"@, "page"@),
        text::comes_before("bytes"@, "r2_key"@),
        text::comes_before("bytes"@, "sha256"@),
        text::comes_before("page"@, "r2_key"@),
        text::comes_before("page"@, "sha256"@),
        text::comes_before("r2_key"@, "sha256"@),
        text::comes_before("idempotent"@, "images"@),
        text::comes_before("idempotent"@, "ingest_id"@),
        text::comes_before("idempotent"@, "ok"@),
        text::comes_before("idempotent"@, "pages"@),
        text::comes_before("idempotent"@, "tags"@),
        text::comes_before("idempotent"@, "work_id"@),
        text::comes_before("images"@, "ingest_id"@),
        text::comes_before("images"@, "ok"@),
        text::comes_before("images"@, "pages"@),
        text::comes_before("images"@, "tags"@),
        text::comes_before("images"@, "work_id"@),
        text::comes_before("ingest_id"@, "ok"@),
        text::comes_before("ingest_id"@, "pages"@),
        text::comes_before("ingest_id"@, "tags"@),
        text::comes_before("ingest_id"@, "work_id"@),
        text::comes_before("ok"@, "pages"@),
        text::comes_before("ok"@, "tags"@),
        text::comes_before("ok"@, "work_id"@),
        text::comes_before("pages"@, "tags"@),
        text::comes_before("pages"@, "work_id"@),
        text::comes_before("tags"@, "work_id"@),
{
    reveal_with_fuel(text::comes_before, 2);
    reveal_strlit("bytes");
    reveal_strlit("page");
    reveal_strlit("r2_key");
    reveal_strlit("sha256");
    reveal_strlit("idempotent");
    reveal_strlit("images");
    reveal_strlit("ingest_id");
    reveal_strlit("ok");
    reveal_strlit("pages");
    reveal_strlit("tags");
    reveal_strlit("work_id");
}

/// The text of what a request is answered is read as the same document.
proof fn lemma_outcome_is_compact(intake: IntakeView, ingest_id: Seq<char>)
    requires
        intake.files.len() <= usize::MAX,
    ensures
        crate::json::is_compact(crate::json::json_text(intake.outcome(ingest_id))),
{
    let document = intake.outcome(ingest_id);
    let images = Seq::new(intake.files.len(), |i: int| intake.page_document(ingest_id, i));
    lemma_names_ascend();
    assert forall|i: int| 0 <= i < images.len() implies crate::json::orderly(
        #[trigger] images[i],
        125,
    ) by {
        let page = images[i];
        assert(page == intake.page_document(ingest_id, i));
        let fields = page->Object_0;
        assert forall|k: int| 0 <= k < fields.len() implies crate::json::orderly(
            (#[trigger] fields[k]).value,
            124,
        ) by {}
    }
    let tags = crate::json::text_documents(intake.meta.tags);
    assert forall|i: int| 0 <= i < tags.len() implies crate::json::orderly(
        #[trigger] tags[i],
        125,
    ) by {}
    let fields = document->Object_0;
    assert(crate::json::orderly(JsonView::List(images), 126));
    assert(crate::json::orderly(JsonView::List(tags), 126));
    assert forall|k: int| 0 <= k < fields.len() implies crate::json::orderly(
        (#[trigger] fields[k]).value,
        126,
    ) by {}
    assert(crate::json::orderly(document, crate::json::MAX_DEPTH as nat));
}

/// A receipt is answered with the reply that the request before it got: where a
/// request under a key went through, its transaction records the very text of
/// its reply, and a later request under that key with the same fingerprint is
/// answered with status 200 and that text. It asks for the receipt, and then
/// replies: it changes nothing.
pub proof fn law_same_request_replays(
    first: IntakeView,
    key: Seq<char>,
    at: Attempt<Seq<char>>,
    old: Seq<Seq<char>>,
    meta: MetaView,
    files: Seq<IngestFile<Seq<char>>>,
    limits: IngestLimits,
    entropy: Seq<u8>,
    start: (IngestView, ActionView),
)
    requires
        first.key == Some(key),
        first.files.len() <= usize::MAX,
        ingest_begun(meta, files, Some(key), limits, entropy) == Ok::<
            (IngestView, ActionView),
            ReplyView,
        >(start),
        crate::fingerprint::fingerprint_of(meta, digests_of(files)) == first.fingerprint,
    ensures
        ({
            let commit = IngestView { intake: first, phase: IngestPhaseView::Commit(at) };
            let told = first.outcome(at.ingest_id);
            let text = crate::json::json_text(told);
            let receipt = crate::sql::statement(INSERT_RECEIPT_SQL@).text(key).text(
                first.fingerprint,
            ).text(first.work_id).text(text).text(at.now);
            let row = crate::rows::IdempotencyRow {
                fingerprint: first.fingerprint,
                response_json: text,
                status_code: 200,
            };
            let again = ReplyView { status: 200, body: JsonView::Written(text) };
            &&& first.commit(at, old).contains(receipt)
            &&& commit.next(EventView::Done).1 == ActionView::Reply(
                ReplyView { status: 200, body: told },
            )
            &&& start.1 == ActionView::Query(
                Table::Idempotency,
                crate::sql::statement(IDEMPOTENCY_SQL@).text(key),
            )
            &&& start.0.next(EventView::Idempotency(Some(row))).1 == ActionView::Reply(again)
            &&& crate::json::json_text(again.body) == text
        }),
{
    lemma_outcome_is_compact(first, at.ingest_id);
    let told = first.outcome(at.ingest_id);
    let receipt = crate::sql::statement(INSERT_RECEIPT_SQL@).text(key).text(
        first.fingerprint,
    ).text(first.work_id).text(crate::json::json_text(told)).text(at.now);
    let front = Seq::<StatementView>::empty().push(first.work_statement(at.now)).push(
        crate::sql::statement(CLEAR_IMAGES_SQL@).text(first.work_id),
    ) + first.image_statements(at) + Seq::<StatementView>::empty().push(
        crate::sql::statement(CLEAR_TAGS_SQL@).text(first.work_id),
    ) + tag_statements(first.work_id, first.meta.tags) + orphan_statements(
        first.work_id,
        old,
        at.now,
    );
    assert(first.commit(at, old)[front.len() as int] == receipt);
}

/// A request under the idempotency key of another one is refused: it asks for the
/// receipt, and then replies.
pub proof fn law_other_request_conflicts(
    meta: MetaView,
    files: Seq<IngestFile<Seq<char>>>,
    key: Seq<char>,
    limits: IngestLimits,
    entropy: Seq<u8>,
    row: crate::rows::IdempotencyRow<Seq<char>>,
    start: (IngestView, ActionView),
)
    requires
        ingest_begun(meta, files, Some(key), limits, entropy) == Ok::<
            (IngestView, ActionView),
            ReplyView,
        >(start),
        row.fingerprint != crate::fingerprint::fingerprint_of(meta, digests_of(files)),
    ensures
        start.1 == ActionView::Query(
            Table::Idempotency,
            crate::sql::statement(IDEMPOTENCY_SQL@).text(key),
        ),
        start.0.next(EventView::Idempotency(Some(row))).1 == ActionView::Reply(conflict_view()),
        conflict_view().status == 409,
{
}

/// A request whose key has a receipt changes nothing, whatever comes after: it is
/// over with the reply.
pub proof fn law_receipt_ends_the_run(
    meta: MetaView,
    files: Seq<IngestFile<Seq<char>>>,
    key: Seq<char>,
    limits: IngestLimits,
    entropy: Seq<u8>,
    start: (IngestView, ActionView),
    events: Seq<EventView>,
)
    requires
        ingest_begun(meta, files, Some(key), limits, entropy) == Ok::<
            (IngestView, ActionView),
            ReplyView,
        >(start),
        events.len() > 0,
        has_receipt(events[0]),
    ensures
        crate::effect::after(start, events).0.phase is End,
        crate::effect::after(start, events).1 is Reply || crate::effect::after(
            start,
            events,
        ).1 is Fail,
    decreases events.len(),
{
    let front = events.drop_last();
    if front.len() > 0 {
        law_receipt_ends_the_run(meta, files, key, limits, entropy, start, front);
    } else {
        assert(crate::effect::after(start, front) == start);
    }
}

// ---------------------------------------------------------------------------
// What is stored, and what is told
// ---------------------------------------------------------------------------

/// The keys of a list that name an object: those that are not empty, in order.
pub open spec fn named_keys(keys: Seq<Seq<char>>) -> Seq<Seq<char>> {
    keys.filter(|k: Seq<char>| k.len() > 0)
}

/// The transaction of an intake writes the work, column by column: the validated
/// metadata as it is, one for a work that is R18 and zero for any other, and as
/// many pages as there are files. Then the old pages go, and each file has a page
/// with the key under which it was stored. Then the old tags go, and each tag is
/// counted and given to the work. Each object that the work used before is noted,
/// the outcome is recorded under the idempotency key where there is one, and the
/// audit comes last. There is nothing else.
#[verifier::rlimit(80)]
pub proof fn law_commit_statements(intake: IntakeView, at: Attempt<Seq<char>>, old: Seq<Seq<char>>)
    ensures
        ({
            let kept = named_keys(old).len();
            let keyed: int = if intake.key is Some { 1 } else { 0 };
            intake.commit(at, old).len() == 4 + intake.files.len() + 2 * intake.meta.tags.len() + kept + keyed
        }),
        crate::sql::says(
            intake.commit(at, old)[0],
            r#"
            INSERT INTO works (
              id, source, source_id, source_url, title, author_name, author_url,
              is_r18, page_count, origin, created_at, deleted_at
            ) VALUES (?, ?, ?, ?, ?, ?, ?, ?, ?, ?, ?, NULL)
            ON CONFLICT(id) DO UPDATE SET
              source_url=excluded.source_url,
              title=excluded.title,
              author_name=excluded.author_name,
              author_url=excluded.author_url,
              is_r18=excluded.is_r18,
              page_count=excluded.page_count,
              origin=excluded.origin,
              deleted_at=NULL
            "#@,
            seq![
                SqlView::Text(intake.work_id),
                SqlView::Text(intake.meta.source),
                SqlView::Text(intake.meta.source_id),
                SqlView::Text(intake.meta.source_url),
                SqlView::Text(intake.meta.title),
                SqlView::Text(intake.meta.author_name),
                SqlView::Text(intake.meta.author_url),
                SqlView::Num(if intake.meta.is_r18 { 1int } else { 0int }),
                SqlView::Num(intake.files.len() as int),
                SqlView::Text(intake.meta.origin),
                SqlView::Text(at.now),
            ],
        ),
        crate::sql::says(
            intake.commit(at, old)[1],
            "DELETE FROM images WHERE work_id = ?"@,
            seq![
                SqlView::Text(intake.work_id),
            ],
        ),
        forall|i: int|
            0 <= i < intake.files.len() ==> crate::sql::says(
                intake.commit(at, old)[2 + i],
                r#"
                INSERT INTO images (
                  id, work_id, page_index, r2_key, content_type, byte_size, created_at, sha256
                ) VALUES (?, ?, ?, ?, ?, ?, ?, ?)
                "#@,
                seq![
                    SqlView::Text(intake.work_id + seq!['#'] + text::decimal(i as nat)),
                    SqlView::Text(intake.work_id),
                    SqlView::Num(i),
                    SqlView::Text(intake.upload(at.ingest_id, i).key),
                    SqlView::Text((#[trigger] intake.files[i]).content_type),
                    SqlView::Num(intake.files[i].byte_size as int),
                    SqlView::Text(at.now),
                    SqlView::Text(intake.files[i].sha256),
                ],
            ),
        crate::sql::says(
            intake.commit(at, old)[2 + intake.files.len() as int],
            "DELETE FROM work_tags WHERE work_id = ?"@,
            seq![
                SqlView::Text(intake.work_id),
            ],
        ),
        forall|k: int|
            0 <= k < intake.meta.tags.len() ==> {
                &&& crate::sql::says(
                    intake.commit(at, old)[3 + intake.files.len() + 2 * k],
                    r#"
                INSERT INTO tags (name, use_count) VALUES (?, 1)
                ON CONFLICT(name) DO UPDATE SET use_count = use_count + 1
                "#@,
                    seq![
                        SqlView::Text(#[trigger] intake.meta.tags[k]),
                    ],
                )
                &&& crate::sql::says(
                    intake.commit(at, old)[4 + intake.files.len() + 2 * k],
                    "INSERT OR IGNORE INTO work_tags (work_id, tag) VALUES (?, ?)"@,
                    seq![
                        SqlView::Text(intake.work_id),
                        SqlView::Text(intake.meta.tags[k]),
                    ],
                )
            },
        forall|j: int|
            0 <= j < named_keys(old).len() ==> crate::sql::says(
                intake.commit(at, old)[3 + intake.files.len() + 2 * intake.meta.tags.len() + j],
                r#"
                INSERT INTO orphan_objects (r2_key, work_id, reason, created_at, deleted_at)
                VALUES (?, ?, 'replaced', ?, NULL)
                ON CONFLICT(r2_key) DO UPDATE SET
                  work_id=excluded.work_id,
                  reason=excluded.reason,
                  created_at=excluded.created_at,
                  deleted_at=NULL
                "#@,
                seq![
                    SqlView::Text(#[trigger] named_keys(old)[j]),
                    SqlView::Text(intake.work_id),
                    SqlView::Text(at.now),
                ],
            ),
        intake.key is Some ==> crate::sql::says(
            intake.commit(at, old)[intake.commit(at, old).len() - 2],
            r#"
                INSERT INTO idempotency_receipts (
                  idempotency_key, fingerprint, work_id, status_code, response_json, created_at
                ) VALUES (?, ?, ?, 200, ?, ?)
                "#@,
            seq![
                SqlView::Text(intake.key->0),
                SqlView::Text(intake.fingerprint),
                SqlView::Text(intake.work_id),
                SqlView::Text(crate::json::json_text(intake.outcome(at.ingest_id))),
                SqlView::Text(at.now),
            ],
        ),
        crate::sql::says(
            intake.commit(at, old).last(),
            r#"
            INSERT INTO ingest_audits (
              id, work_id, source, source_id, ingest_id, fingerprint, idempotency_key,
              page_count, total_bytes, status, error, created_at
            ) VALUES (?, ?, ?, ?, ?, ?, ?, ?, ?, 'success', NULL, ?)
            "#@,
            seq![
                SqlView::Text(crate::fingerprint::derived_id(Seq::<Seq<char>>::empty().push("audit"@).push(at.ingest_id).push(at.now))),
                SqlView::Text(intake.work_id),
                SqlView::Text(intake.meta.source),
                SqlView::Text(intake.meta.source_id),
                SqlView::Text(at.ingest_id),
                SqlView::Text(intake.fingerprint),
                match intake.key {
                    Some(key) => SqlView::Text(key),
                    None => SqlView::Null,
                },
                SqlView::Num(intake.files.len() as int),
                SqlView::Num(crate::limits::capped_total(intake.files.map_values(|f: IngestFile<Seq<char>>| f.byte_size)) as int),
                SqlView::Text(at.now),
            ],
        ),
{
    let n = intake.files.len() as int;
    let m = intake.meta.tags.len() as int;
    let list = intake.commit(at, old);
    lemma_tag_statements(intake.work_id, intake.meta.tags);
    lemma_orphan_statements(intake.work_id, old, at.now);
    let pages = intake.image_statements(at);
    let given = tag_statements(intake.work_id, intake.meta.tags);
    let orphans = orphan_statements(intake.work_id, old, at.now);
    let o = orphans.len() as int;
    assert forall|i: int| 0 <= i < n implies list[2 + i] == intake.image_statement(at, i)
        && #[trigger] intake.files[i] == intake.files[i] by {
        assert(list[2 + i] == pages[i]);
    }
    assert forall|k: int| 0 <= k < m implies list[3 + n + 2 * k] == given[2 * k] && list[4 + n + 2
        * k] == given[2 * k + 1] && #[trigger] intake.meta.tags[k] == intake.meta.tags[k] by {}
    let kept = named_keys(old);
    assert forall|j: int| 0 <= j < o implies list[3 + n + 2 * m + j] == orphans[j]
        && #[trigger] kept[j] == kept[j] by {}
    if intake.key is Some {
        assert(list[3 + n + 2 * m + o] == intake.receipt_statements(at)[0]);
    }
    assert(list.last() == intake.success_audit(at));
}

proof fn lemma_tag_statements(work_id: Seq<char>, tags: Seq<Seq<char>>)
    ensures
        tag_statements(work_id, tags).len() == 2 * tags.len(),
        forall|k: int|
            0 <= k < tags.len() ==> {
                &&& tag_statements(work_id, tags)[2 * k] == crate::sql::statement(
                    COUNT_TAG_SQL@,
                ).text(#[trigger] tags[k])
                &&& tag_statements(work_id, tags)[2 * k + 1] == crate::sql::statement(
                    INSERT_TAG_SQL@,
                ).text(work_id).text(tags[k])
            },
    decreases tags.len(),
{
    if tags.len() > 0 {
        let front = tags.drop_last();
        lemma_tag_statements(work_id, front);
        let all = tag_statements(work_id, tags);
        let some = tag_statements(work_id, front);
        assert forall|k: int| 0 <= k < tags.len() implies {
            &&& all[2 * k] == crate::sql::statement(COUNT_TAG_SQL@).text(#[trigger] tags[k])
            &&& all[2 * k + 1] == crate::sql::statement(INSERT_TAG_SQL@).text(work_id).text(tags[k])
        } by {
            if k < front.len() {
                assert(front[k] == tags[k]);
                assert(all[2 * k] == some[2 * k]);
                assert(all[2 * k + 1] == some[2 * k + 1]);
            }
        }
    }
}

proof fn lemma_orphan_statements(work_id: Seq<char>, old: Seq<Seq<char>>, now: Seq<char>)
    ensures
        ({
            let kept = named_keys(old);
            let list = orphan_statements(work_id, old, now);
            &&& list.len() == kept.len()
            &&& forall|j: int|
                0 <= j < kept.len() ==> list[j] == orphan_statement(
                    work_id,
                    #[trigger] kept[j],
                    now,
                )
        }),
    decreases old.len(),
{
    reveal(Seq::filter);
    if old.len() > 0 {
        lemma_orphan_statements(work_id, old.drop_last(), now);
        let before = named_keys(old.drop_last());
        let kept = named_keys(old);
        let some = orphan_statements(work_id, old.drop_last(), now);
        let list = orphan_statements(work_id, old, now);
        assert forall|j: int| 0 <= j < kept.len() implies list[j] == orphan_statement(
            work_id,
            #[trigger] kept[j],
            now,
        ) by {
            if j < before.len() {
                assert(kept[j] == before[j]);
                assert(list[j] == some[j]);
            }
        }
    }
}

/// A failed attempt is audited as such, with its cause.
pub proof fn law_failure_is_audited(intake: IntakeView, at: Attempt<Seq<char>>, error: Seq<char>)
    ensures
        crate::sql::says(
            intake.failed_audit(at, error),
            r#"
        INSERT INTO ingest_audits (
          id, work_id, source, source_id, ingest_id, fingerprint, idempotency_key,
          page_count, total_bytes, status, error, created_at
        ) VALUES (?, ?, ?, ?, ?, ?, ?, ?, ?, ?, ?, ?)
        "#@,
            seq![
                SqlView::Text(crate::fingerprint::derived_id(Seq::<Seq<char>>::empty().push("audit-fail"@).push(at.ingest_id).push("failed"@).push(at.now))),
                SqlView::Text(intake.work_id),
                SqlView::Text(intake.meta.source),
                SqlView::Text(intake.meta.source_id),
                SqlView::Text(at.ingest_id),
                SqlView::Text(intake.fingerprint),
                match intake.key {
                    Some(key) => SqlView::Text(key),
                    None => SqlView::Null,
                },
                SqlView::Num(intake.files.len() as int),
                SqlView::Num(crate::limits::capped_total(intake.files.map_values(|f: IngestFile<Seq<char>>| f.byte_size)) as int),
                SqlView::Text("failed"@),
                SqlView::Text(error),
                SqlView::Text(at.now),
            ],
        ),
{
}

/// A file is stored as itself: under a key of its own, with its content type,
/// for immutable caching, and labelled with its work, its page, its ingest and its
/// digest.
pub proof fn law_upload_labels(intake: IntakeView, ingest_id: Seq<char>, i: int)
    requires
        0 <= i < intake.files.len(),
    ensures
        ({
            let u = intake.upload(ingest_id, i);
            &&& u.file == i
            &&& u.key =~= intake.meta.source + "/"@ + intake.meta.source_id + "/"@ + ingest_id + "/"@
                + text::two_digits(i as nat) + "."@ + keys::extension_of(
                intake.files[i].content_type,
            )
            &&& u.content_type == intake.files[i].content_type
            &&& u.cache_control == "public, max-age=31536000, immutable"@
            &&& u.metadata =~= seq![
                ("work_id"@, intake.work_id),
                ("page_index"@, text::decimal(i as nat)),
                ("ingest_id"@, ingest_id),
                ("sha256"@, intake.files[i].sha256),
            ]
        }),
{
    reveal_strlit("/");
    reveal_strlit(".");
    assert("/"@ =~= seq!['/']);
    assert("."@ =~= seq!['.']);
}

/// The reply to a work that was taken in names the work, its tags, the ingest,
/// and for each file its page, its size, its digest and the key under which it was
/// stored.
pub proof fn law_reply_names_what_was_stored(intake: IntakeView, ingest_id: Seq<char>)
    ensures
        crate::json::member_count(intake.outcome(ingest_id)) == 7,
        crate::json::tells(intake.outcome(ingest_id), "idempotent"@, JsonView::Bool(false)),
        crate::json::tells(intake.outcome(ingest_id), "ingest_id"@, JsonView::Text(ingest_id)),
        crate::json::tells(intake.outcome(ingest_id), "ok"@, JsonView::Bool(true)),
        crate::json::tells(intake.outcome(ingest_id), "pages"@, JsonView::Num(intake.files.len() as int)),
        crate::json::tells(intake.outcome(ingest_id), "tags"@, JsonView::List(crate::json::text_documents(intake.meta.tags))),
        crate::json::tells(intake.outcome(ingest_id), "work_id"@, JsonView::Text(intake.work_id)),
        exists|images: Seq<JsonView>|
            {
                &&& #[trigger] crate::json::tells(
                    intake.outcome(ingest_id),
                    "images"@,
                    JsonView::List(images),
                )
                &&& images.len() == intake.files.len()
                &&& forall|i: int|
                    0 <= i < images.len() ==> {
                        &&& crate::json::member_count(#[trigger] images[i]) == 4
                        &&& crate::json::tells(images[i], "bytes"@, JsonView::Num(intake.files[i].byte_size as int))
                        &&& crate::json::tells(images[i], "page"@, JsonView::Num(i))
                        &&& crate::json::tells(images[i], "r2_key"@, JsonView::Text(intake.upload(ingest_id, i).key))
                        &&& crate::json::tells(images[i], "sha256"@, JsonView::Text(intake.files[i].sha256))
                    }
            },
{
    let images = Seq::new(intake.files.len(), |i: int| intake.page_document(ingest_id, i));
    assert forall|i: int| 0 <= i < images.len() implies {
        &&& crate::json::member_count(#[trigger] images[i]) == 4
        &&& crate::json::tells(images[i], "bytes"@, JsonView::Num(intake.files[i].byte_size as int))
        &&& crate::json::tells(images[i], "page"@, JsonView::Num(i))
        &&& crate::json::tells(images[i], "r2_key"@, JsonView::Text(intake.upload(ingest_id, i).key))
        &&& crate::json::tells(images[i], "sha256"@, JsonView::Text(intake.files[i].sha256))
    } by {
        reveal_strlit("bytes");
        reveal_strlit("page");
        reveal_strlit("r2_key");
        reveal_strlit("sha256");
        assert("bytes"@.len() != "page"@.len());
        assert("bytes"@.len() != "r2_key"@.len());
        assert("bytes"@.len() != "sha256"@.len());
        assert("page"@.len() != "r2_key"@.len());
        assert("page"@.len() != "sha256"@.len());
        assert("r2_key"@[0] != "sha256"@[0]);
        let e = images[i];
        let l_e = e->Object_0;
        assert(l_e[0].name == "bytes"@ && l_e[0].value == JsonView::Num(intake.files[i].byte_size as int));
        assert(l_e[1].name == "page"@ && l_e[1].value == JsonView::Num(i));
        assert(l_e[2].name == "r2_key"@ && l_e[2].value == JsonView::Text(intake.upload(ingest_id, i).key));
        assert(l_e[3].name == "sha256"@ && l_e[3].value == JsonView::Text(intake.files[i].sha256));
    }
    reveal_strlit("idempotent");
    reveal_strlit("images");
    reveal_strlit("ingest_id");
    reveal_strlit("ok");
    reveal_strlit("pages");
    reveal_strlit("tags");
    reveal_strlit("work_id");
    assert("idempotent"@.len() != "images"@.len());
    assert("idempotent"@.len() != "ingest_id"@.len());
    assert("idempotent"@.len() != "ok"@.len());
    assert("idempotent"@.len() != "pages"@.len());
    assert("idempotent"@.len() != "tags"@.len());
    assert("idempotent"@.len() != "work_id"@.len());
    assert("images"@.len() != "ingest_id"@.len());
    assert("images"@.len() != "ok"@.len());
    assert("images"@.len() != "pages"@.len());
    assert("images"@.len() != "tags"@.len());
    assert("images"@.len() != "work_id"@.len());
    assert("ingest_id"@.len() != "ok"@.len());
    assert("ingest_id"@.len() != "pages"@.len());
    assert("ingest_id"@.len() != "tags"@.len());
    assert("ingest_id"@.len() != "work_id"@.len());
    assert("ok"@.len() != "pages"@.len());
    assert("ok"@.len() != "tags"@.len());
    assert("ok"@.len() != "work_id"@.len());
    assert("pages"@.len() != "tags"@.len());
    assert("pages"@.len() != "work_id"@.len());
    assert("tags"@.len() != "work_id"@.len());
    let d = intake.outcome(ingest_id);
    let l_d = d->Object_0;
    assert(l_d[0].name == "idempotent"@ && l_d[0].value == JsonView::Bool(false));
    assert(l_d[1].name == "images"@ && l_d[1].value == JsonView::List(images));
    assert(l_d[2].name == "ingest_id"@ && l_d[2].value == JsonView::Text(ingest_id));
    assert(l_d[3].name == "ok"@ && l_d[3].value == JsonView::Bool(true));
    assert(l_d[4].name == "pages"@ && l_d[4].value == JsonView::Num(intake.files.len() as int));
    assert(l_d[5].name == "tags"@ && l_d[5].value == JsonView::List(crate::json::text_documents(intake.meta.tags)));
    assert(l_d[6].name == "work_id"@ && l_d[6].value == JsonView::Text(intake.work_id));
    assert(crate::json::tells(d, "images"@, JsonView::List(images)));
}

/// The steps of an intake: the receipt of its key where it has one, the clock,
/// the keys that the work uses so far, each file in turn, and then the
/// transaction, for the identifier that was made of the time, the work, the
/// fingerprint and the random bytes.
pub proof fn law_intake_steps(
    intake: IntakeView,
    at: Attempt<Seq<char>>,
    old: Seq<Seq<char>>,
    now: Seq<char>,
    i: int,
)
    requires
        0 <= i < intake.files.len(),
    ensures
        (IngestView { intake, phase: IngestPhaseView::Receipt }).next(EventView::Idempotency(None)).1 == ActionView::Clock,
        ({
            let made = Attempt {
                now,
                ingest_id: crate::fingerprint::derived_id(
                    Seq::<Seq<char>>::empty().push(now).push(intake.work_id).push(
                        intake.fingerprint,
                    ).push(outside::hex_text(intake.entropy)),
                ),
            };
            let (then, asks) = (IngestView { intake, phase: IngestPhaseView::Time }).next(EventView::Now(now));
            &&& then == (IngestView { intake, phase: IngestPhaseView::OldKeys(made) })
            &&& crate::effect::queries(
                asks,
                Table::OldKeys,
                "SELECT r2_key FROM images WHERE work_id = ?"@,
                seq![SqlView::Text(intake.work_id)],
            )
        }),
        (IngestView { intake, phase: IngestPhaseView::OldKeys(at) }).next(EventView::Texts(old)) == (
            (IngestView { intake, phase: IngestPhaseView::Storing(at, old, 0) }),
            ActionView::Put(intake.upload(at.ingest_id, 0)),
        ),
        i + 1 < intake.files.len() ==> (IngestView { intake, phase: IngestPhaseView::Storing(at, old, i) }).next(EventView::Done) == (
            (IngestView { intake, phase: IngestPhaseView::Storing(at, old, i + 1) }),
            ActionView::Put(intake.upload(at.ingest_id, i + 1)),
        ),
        i + 1 == intake.files.len() ==> (IngestView { intake, phase: IngestPhaseView::Storing(at, old, i) }).next(EventView::Done) == (
            (IngestView { intake, phase: IngestPhaseView::Commit(at) }),
            ActionView::Batch(intake.commit(at, old)),
        ),
        (IngestView { intake, phase: IngestPhaseView::Commit(at) }).next(EventView::Done).1 == ActionView::Reply(
            ReplyView { status: 200, body: intake.outcome(at.ingest_id) },
        ),
{
}

/// What fails half-way is taken back: where a file could not be stored, the ones
/// before it are forgotten, where the transaction failed, all of them; one after
/// the other, whether or not each can be. Then the failure is audited, and told
/// with status 500.
pub proof fn law_failure_is_taken_back(
    intake: IntakeView,
    at: Attempt<Seq<char>>,
    old: Seq<Seq<char>>,
    message: Seq<char>,
    again: Seq<char>,
    i: int,
    undo: Undo<Seq<char>>,
)
    requires
        0 < intake.files.len() <= usize::MAX,
        0 <= i < intake.files.len(),
        undo.file < undo.stored <= intake.files.len(),
    ensures
        ({
            let cause = "r2 upload failed: "@ + message;
            let failed = (IngestView { intake, phase: IngestPhaseView::Storing(at, old, i) }).next(EventView::Failed(message));
            &&& i == 0 ==> failed == (
                (IngestView { intake, phase: IngestPhaseView::Audit(cause) }),
                ActionView::Run(intake.failed_audit(at, cause)),
            )
            &&& i > 0 ==> failed == (
                (IngestView { intake, phase: IngestPhaseView::Undo(at, Undo { stored: i as usize, file: 0, cause, message: cause }) }),
                ActionView::Forget(intake.upload(at.ingest_id, 0).key),
            )
        }),
        (IngestView { intake, phase: IngestPhaseView::Commit(at) }).next(EventView::Failed(message)) == (
            (IngestView { intake, phase: IngestPhaseView::Undo(at, Undo { stored: intake.files.len() as usize, file: 0, cause: message, message: "d1 batch failed: "@ + message }) }),
            ActionView::Forget(intake.upload(at.ingest_id, 0).key),
        ),
        ({
            let run = IngestView { intake, phase: IngestPhaseView::Undo(at, undo) };
            &&& run.next(EventView::Done) == run.next(EventView::Failed(again))
            &&& undo.file + 1 < undo.stored ==> run.next(EventView::Done) == (
                (IngestView { intake, phase: IngestPhaseView::Undo(at, Undo { stored: undo.stored, file: (undo.file + 1) as usize, cause: undo.cause, message: undo.message }) }),
                ActionView::Forget(intake.upload(at.ingest_id, undo.file + 1).key),
            )
            &&& undo.file + 1 == undo.stored ==> run.next(EventView::Done) == (
                (IngestView { intake, phase: IngestPhaseView::Audit(undo.message) }),
                ActionView::Run(intake.failed_audit(at, undo.cause)),
            )
        }),
        crate::effect::refuses((IngestView { intake, phase: IngestPhaseView::Audit(message) }).next(EventView::Done).1, message, 500),
        crate::effect::refuses((IngestView { intake, phase: IngestPhaseView::Audit(message) }).next(EventView::Failed(again)).1, message, 500),
{
    crate::effect::law_refusals_say_why(message, 500);
}

/// An intake is that of its metadata and files: the work has the identifier of
/// its source and its identifier there, and the fingerprint covers both metadata
/// and files. Files that keep to the limits are taken in, others are refused with
/// the reason.
pub proof fn law_intake_begins(
    meta: MetaView,
    files: Seq<IngestFile<Seq<char>>>,
    key: Option<Seq<char>>,
    limits: IngestLimits,
    entropy: Seq<u8>,
)
    requires
        files.len() <= usize::MAX,
    ensures
        ({
            let begun = ingest_begun(meta, files, key, limits, entropy);
            let checked = crate::limits::limit_outcome(
                files.len() as usize,
                files.map_values(|f: IngestFile<Seq<char>>| f.byte_size),
                limits,
            );
            &&& checked is Err ==> begun is Err && crate::json::is_refusal(
                begun->Err_0,
                crate::limits::limit_message(checked->Err_0),
                400,
            )
            &&& checked is Ok ==> {
                &&& begun is Ok
                &&& begun->Ok_0.0.intake.meta == meta
                &&& begun->Ok_0.0.intake.files == files
                &&& begun->Ok_0.0.intake.key == key
                &&& begun->Ok_0.0.intake.entropy == entropy
                &&& begun->Ok_0.0.intake.work_id =~= meta.source + ":"@ + meta.source_id
                &&& begun->Ok_0.0.intake.fingerprint == crate::fingerprint::fingerprint_of(
                    meta,
                    files.map_values(|f: IngestFile<Seq<char>>| f.sha256),
                )
                &&& key is None ==> begun->Ok_0.1 == ActionView::Clock
                    && begun->Ok_0.0.phase == IngestPhaseView::Time
                &&& key is Some ==> begun->Ok_0.0.phase == IngestPhaseView::Receipt
                    && crate::effect::queries(
                        begun->Ok_0.1,
                        Table::Idempotency,
                        "SELECT fingerprint, response_json, status_code FROM idempotency_receipts WHERE idempotency_key = ?"@,
                        seq![SqlView::Text(key->0)],
                    )
            }
        }),
{
    reveal_strlit(":");
    assert(":"@ =~= seq![':']);
    let checked = crate::limits::limit_outcome(
        files.len() as usize,
        files.map_values(|f: IngestFile<Seq<char>>| f.byte_size),
        limits,
    );
    if checked is Err {
        crate::json::law_refusal_reads(crate::limits::limit_message(checked->Err_0), 400);
    }
}

/// What is taken in is what is listed: the row that the transaction writes, with
/// the first page and the tags that it gives the work, is shown with exactly the
/// metadata of the intake.
pub proof fn law_work_is_listed_as_taken_in(
    intake: IntakeView,
    at: Attempt<Seq<char>>,
    old: Seq<Seq<char>>,
    row: crate::gallery::WorkRow<Seq<char>>,
)
    requires
        intake.files.len() > 0,
        intake.meta.tags.len() > 0,
        forall|k: int|
            0 <= k < intake.meta.tags.len() ==> (#[trigger] intake.meta.tags[k]).len() > 0
                && !intake.meta.tags[k].contains(','),
        SqlView::Text(row.id) == intake.commit(at, old)[0].binds[0],
        SqlView::Text(row.source) == intake.commit(at, old)[0].binds[1],
        SqlView::Text(row.source_id) == intake.commit(at, old)[0].binds[2],
        SqlView::Text(row.source_url) == intake.commit(at, old)[0].binds[3],
        SqlView::Text(row.title) == intake.commit(at, old)[0].binds[4],
        SqlView::Text(row.author_name) == intake.commit(at, old)[0].binds[5],
        SqlView::Text(row.author_url) == intake.commit(at, old)[0].binds[6],
        SqlView::Num(row.is_r18 as int) == intake.commit(at, old)[0].binds[7],
        SqlView::Num(row.page_count as int) == intake.commit(at, old)[0].binds[8],
        SqlView::Text(row.origin) == intake.commit(at, old)[0].binds[9],
        SqlView::Text(row.created_at) == intake.commit(at, old)[0].binds[10],
        row.cover_key is Some,
        SqlView::Text(row.cover_key->0) == intake.commit(at, old)[2].binds[3],
        row.tags == Some(text::joined(intake.meta.tags, ","@)),
    ensures
        ({
            let meta = intake.meta;
            let shown = crate::gallery::work_document(row);
            &&& crate::json::member_count(shown) == 13
            &&& crate::json::tells(shown, "author_name"@, JsonView::Text(meta.author_name))
            &&& crate::json::tells(shown, "author_url"@, JsonView::Text(meta.author_url))
            &&& crate::json::tells(shown, "created_at"@, JsonView::Text(row.created_at))
            &&& crate::json::tells(shown, "id"@, JsonView::Text(intake.work_id))
            &&& crate::json::tells(shown, "is_r18"@, JsonView::Bool(meta.is_r18))
            &&& crate::json::tells(shown, "origin"@, JsonView::Text(meta.origin))
            &&& crate::json::tells(shown, "page_count"@, JsonView::Num(intake.files.len() as int))
            &&& crate::json::tells(shown, "source"@, JsonView::Text(meta.source))
            &&& crate::json::tells(shown, "source_id"@, JsonView::Text(meta.source_id))
            &&& crate::json::tells(shown, "source_url"@, JsonView::Text(meta.source_url))
            &&& crate::json::tells(shown, "title"@, JsonView::Text(meta.title))
            &&& crate::json::tells(shown, "tags"@, JsonView::List(crate::json::text_documents(meta.tags)))
            &&& crate::json::tells(
                shown,
                "cover_url"@,
                JsonView::Text("/media/"@ + intake.upload(at.ingest_id, 0).key),
            )
        }),
{
    law_commit_statements(intake, at, old);
    assert(intake.files[0] == intake.files[0]);
    let meta = intake.meta;
    let key = intake.upload(at.ingest_id, 0).key;
    assert(row.cover_key == Some(key));
    assert(key.len() > 0);
    reveal_strlit(",");
    assert(","@ =~= seq![',']);
    crate::tags::law_tags_come_back(meta.tags);
    crate::gallery::law_shown_work(row);
}

/// Which requests may send files, and under which key: the caller must present the
/// token, the body must be a form, and the key, without the white space around it,
/// must have at most 256 bytes; an empty one is none.
pub proof fn law_requests_are_screened(
    check: AuthCheck,
    content_type: Seq<char>,
    key: Option<Seq<char>>,
)
    ensures
        ({
            let seen = screened(check, Some(content_type), key);
            let form = text::has_part(text::ascii_lower(content_type), "multipart/form-data"@);
            let short = key is None || vstd::utf8::encode_utf8(text::trimmed(key->0)).len() <= 256;
            let none = key is None || text::trimmed(key->0).len() == 0;
            &&& seen is Ok <==> check == AuthCheck::Authorized && form && short
            &&& seen is Ok ==> seen->Ok_0 == if none {
                None
            } else {
                Some(text::trimmed(key->0))
            }
            &&& check == AuthCheck::Unauthorized ==> crate::json::is_refusal(
                seen->Err_0,
                "unauthorized"@,
                401,
            )
            &&& check == AuthCheck::NotConfigured ==> crate::json::is_refusal(
                seen->Err_0,
                "INGEST_TOKEN not configured"@,
                500,
            )
            &&& check == AuthCheck::Authorized && !form ==> crate::json::is_refusal(
                seen->Err_0,
                "expected multipart/form-data"@,
                400,
            )
            &&& check == AuthCheck::Authorized && form && !short ==> crate::json::is_refusal(
                seen->Err_0,
                "Idempotency-Key too long"@,
                400,
            )
        }),
{
    crate::json::law_refusal_reads("unauthorized"@, 401);
    crate::json::law_refusal_reads("INGEST_TOKEN not configured"@, 500);
    crate::json::law_refusal_reads("expected multipart/form-data"@, 400);
    crate::json::law_refusal_reads("Idempotency-Key too long"@, 400);
    if key is Some && text::trimmed(key->0).len() == 0 {
        assert(text::trimmed(key->0) =~= Seq::<char>::empty());
        assert(vstd::utf8::encode_utf8(text::trimmed(key->0)).len() == 0);
    }
}

/// The metadata of a form is read where it is a field that can be, and refused
/// with the reason where it is not.
pub proof fn law_metadata_is_read(raw: crate::meta::RawMetaView)
    ensures
        meta_screened(MetaFieldView::Missing) is Err,
        crate::json::is_refusal(
            meta_screened(MetaFieldView::Missing)->Err_0,
            "missing meta field"@,
            400,
        ),
        meta_screened(MetaFieldView::File) is Err,
        crate::json::is_refusal(
            meta_screened(MetaFieldView::File)->Err_0,
            "meta must be a form field"@,
            400,
        ),
        meta_screened(MetaFieldView::Field(None)) is Err,
        crate::json::is_refusal(
            meta_screened(MetaFieldView::Field(None))->Err_0,
            "invalid meta json"@,
            400,
        ),
        crate::meta::validated(raw) is Ok ==> meta_screened(MetaFieldView::Field(Some(raw))) == Ok::<
            MetaView,
            ReplyView,
        >(crate::meta::validated(raw)->Ok_0),
        crate::meta::validated(raw) is Err ==> meta_screened(MetaFieldView::Field(Some(raw))) is Err
            && crate::json::is_refusal(
            meta_screened(MetaFieldView::Field(Some(raw)))->Err_0,
            crate::meta::meta_message(crate::meta::validated(raw)->Err_0),
            400,
        ),
{
    crate::json::law_refusal_reads("missing meta field"@, 400);
    crate::json::law_refusal_reads("meta must be a form field"@, 400);
    crate::json::law_refusal_reads("invalid meta json"@, 400);
    if crate::meta::validated(raw) is Err {
        crate::json::law_refusal_reads(
            crate::meta::meta_message(crate::meta::validated(raw)->Err_0),
            400,
        );
    }
}

/// A conflict is told as one.
pub proof fn law_conflict_reads()
    ensures
        conflict_view().status == 409,
        crate::json::member_count(conflict_view().body) == 3,
        crate::json::tells(conflict_view().body, "conflict"@, JsonView::Bool(true)),
        crate::json::tells(conflict_view().body, "ok"@, JsonView::Bool(false)),
        crate::json::tells(
            conflict_view().body,
            "error"@,
            JsonView::Text("idempotency key reuse with different payload"@),
        ),
{
    reveal_strlit("conflict");
    reveal_strlit("error");
    reveal_strlit("ok");
    assert("conflict"@.len() != "error"@.len());
    assert("conflict"@.len() != "ok"@.len());
    assert("error"@.len() != "ok"@.len());
    let d = conflict_view().body;
    let l_d = d->Object_0;
    assert(l_d[0].name == "conflict"@ && l_d[0].value == JsonView::Bool(true));
    assert(l_d[1].name == "error"@ && l_d[1].value == JsonView::Text("idempotency key reuse with different payload"@));
    assert(l_d[2].name == "ok"@ && l_d[2].value == JsonView::Bool(false));
}

/// A receipt that cannot be read is answered shortly, with the recorded status.
pub proof fn law_unreadable_receipt(work_id: Seq<char>)
    ensures
        replay_view(None, 200, work_id).status == 200,
        crate::json::member_count(replay_view(None, 200, work_id).body) == 3,
        crate::json::tells(replay_view(None, 200, work_id).body, "ok"@, JsonView::Bool(true)),
        crate::json::tells(
            replay_view(None, 200, work_id).body,
            "idempotent"@,
            JsonView::Bool(true),
        ),
        crate::json::tells(
            replay_view(None, 200, work_id).body,
            "work_id"@,
            JsonView::Text(work_id),
        ),
{
    reveal_strlit("idempotent");
    reveal_strlit("ok");
    reveal_strlit("work_id");
    assert("idempotent"@.len() != "ok"@.len());
    assert("idempotent"@.len() != "work_id"@.len());
    assert("ok"@.len() != "work_id"@.len());
    let d = replay_view(None, 200, work_id).body;
    let l_d = d->Object_0;
    assert(l_d[0].name == "idempotent"@ && l_d[0].value == JsonView::Bool(true));
    assert(l_d[1].name == "ok"@ && l_d[1].value == JsonView::Bool(true));
    assert(l_d[2].name == "work_id"@ && l_d[2].value == JsonView::Text(work_id));
}

/// A file is described by its size, by the digest of its bytes, and by the type
/// that was declared of it; its name counts only where none was.
pub proof fn law_files_are_described(
    file: IngestFile<Seq<char>>,
    name: Seq<char>,
    declared: Seq<char>,
    bytes: Seq<u8>,
)
    requires
        describes(file, name, declared, bytes),
    ensures
        file.byte_size == bytes.len(),
        file.sha256 == outside::hex_text(outside::sha256_of(bytes)),
        declared.len() > 0 ==> file.content_type == declared,
        declared.len() == 0 && text::has_suffix(text::ascii_lower(name), ".png"@)
            ==> file.content_type == "image/png"@,
{
}

/// The values of what was described are its own, field by field.
pub proof fn law_values_of_files(f: IngestFile<String>)
    ensures
        f@.content_type == f.content_type@,
        f@.byte_size == f.byte_size,
        f@.sha256 == f.sha256@,
{
}

/// Taking in a work answers or fails in its last step, and in no other; what was asked of it
/// never changes, and once it is over every event is unexpected.
pub proof fn law_intake_ends(run: IngestView, event: EventView)
    ensures
        run.next(event).0.intake == run.intake,
        run.next(event).0.phase is End <==> run.next(event).1 is Reply || run.next(event).1 is Fail,
        run.phase is End && event !is Failed ==> run.next(event).1 == ActionView::Fail(
            "unexpected event"@,
        ),
{
}

/// The first steps of an intake without a recorded outcome: the clock is asked, and
/// what it says is the time of the attempt.
pub proof fn law_intake_is_timed(intake: IntakeView, now: Seq<char>)
    ensures
        ({
            let run = IngestView { intake, phase: IngestPhaseView::Receipt };
            let (timed, asks) = run.next(EventView::Idempotency(None));
            let then = timed.next(EventView::Now(now)).0;
            &&& asks == ActionView::Clock
            &&& then.phase is OldKeys
            &&& then.phase->OldKeys_0.now == now
        }),
{
}

} // verus!
