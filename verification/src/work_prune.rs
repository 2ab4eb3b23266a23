//! Removing works that look like another one. The images, tags and publications
//! of the works are gathered, each image is copied to a backup, then one
//! transaction takes the works out of the catalog, then the objects are deleted.
//! The receipt names the messages that are still to be removed.

use crate::catalog::{
    parse_publication_message_ids, parse_work_prune_receipt, same_work_prune_plan,
    validate_catalog_work_prune, CatalogWorkPruneRequest, ParsedView, ParsedWorkPruneReceipt,
    PruneView, TargetView, TelegramPruneTarget, BAD_MAPPING, CORRUPT_RECEIPT,
};
use crate::effect::{give_up, refusing, Action, ActionView, Event, EventView, Machine, Table};
use crate::json::{refusal, success, Json, JsonView, Members, Reply, ReplyView};
use crate::outside;
use crate::removal::{
    copy_to_backup, find_active_work, find_work_images, find_work_tags, record_backups,
    recorded_list, recount_tags, row_keys, DELETE_WORK_SQL, DROP_IMAGES_SQL, DROP_TAGS_SQL,
};
use crate::rows::{CatalogPruneImageRow, WorkPublicationRow};
use crate::sql::{add_statement, add_statements, no_statements, SqlView, Statement, StatementView};
use crate::text;
use vstd::prelude::*;

verus! {

/// Reads the receipt of a decision.
pub const WORK_RECEIPT_SQL: &'static str =
    r#"SELECT keep_work_id, remove_work_ids_json, removed_r2_keys_json, telegram_targets_json
               FROM catalog_work_prune_receipts WHERE decision_id=?"#;

/// Reads the publications of a work that are not deleted.
pub const WORK_PUBLICATIONS_SQL: &'static str = r#"SELECT id, work_id, chat_id, message_ids_json
                   FROM telegram_publications
                   WHERE work_id=? AND deleted_at IS NULL
                   ORDER BY created_at, id"#;

/// Records a decision that was carried out but for its messages.
pub const INSERT_WORK_RECEIPT_SQL: &'static str = r#"INSERT INTO catalog_work_prune_receipts (
                 decision_id, keep_work_id, remove_work_ids_json, removed_r2_keys_json,
                 telegram_targets_json, telegram_state, telegram_error, created_at,
                 telegram_completed_at
               ) VALUES (?, ?, ?, ?, ?, 'pending', NULL, ?, NULL)"#;

// ---------------------------------------------------------------------------
// Sorted sets of tags
// ---------------------------------------------------------------------------

fn is_before(a: &str, b: &str) -> (r: bool)
    ensures
        r == text::comes_before(a@, b@),
{
    let x = text::to_chars(a);
    let y = text::to_chars(b);
    let mut i: usize = 0;
    assert(a@.skip(0) =~= a@);
    assert(b@.skip(0) =~= b@);
    while i < x.len() && i < y.len()
        invariant
            x@ == a@,
            y@ == b@,
            i <= x@.len(),
            i <= y@.len(),
            text::comes_before(a@, b@) == text::comes_before(a@.skip(i as int), b@.skip(i as int)),
        decreases x@.len() - i,
    {
        if x[i] != y[i] {
            return x[i] < y[i];
        }
        assert(a@.skip(i as int).drop_first() =~= a@.skip(i + 1));
        assert(b@.skip(i as int).drop_first() =~= b@.skip(i + 1));
        i += 1;
    }
    i < y.len()
}

/// A sorted list with one more text in its place, unless it is there.
pub open spec fn with_text(list: Seq<Seq<char>>, t: Seq<char>) -> Seq<Seq<char>>
    decreases list.len(),
{
    if list.len() == 0 {
        seq![t]
    } else if text::comes_before(list[0], t) {
        seq![list[0]] + with_text(list.drop_first(), t)
    } else if list[0] == t {
        list
    } else {
        seq![t] + list
    }
}

/// A sorted list with some more texts; the empty ones are left out.
pub open spec fn with_texts(list: Seq<Seq<char>>, more: Seq<Seq<char>>) -> Seq<Seq<char>>
    decreases more.len(),
{
    if more.len() == 0 {
        list
    } else if more.last().len() == 0 {
        with_texts(list, more.drop_last())
    } else {
        with_text(with_texts(list, more.drop_last()), more.last())
    }
}

fn add_text(list: &mut Vec<String>, t: &str)
    ensures
        text::texts(final(list)@) == with_text(text::texts(old(list)@), t@),
{
    let ghost all = text::texts(list@);
    let mut i: usize = 0;
    assert(all.skip(0) =~= all);
    assert(all.take(0) + with_text(all.skip(0), t@) =~= with_text(all, t@));
    while i < list.len() && is_before(list[i].as_str(), t)
        invariant
            i <= list@.len(),
            all == text::texts(list@),
            with_text(all, t@) == all.take(i as int) + with_text(all.skip(i as int), t@),
        decreases list@.len() - i,
    {
        proof {
            let rest = all.skip(i as int);
            assert(rest[0] == list@[i as int]@);
            assert(rest.drop_first() =~= all.skip(i + 1));
            assert(all.take(i as int) + (seq![rest[0]] + with_text(rest.drop_first(), t@))
                =~= all.take(i + 1) + with_text(all.skip(i + 1), t@));
        }
        i += 1;
    }
    let ghost rest = all.skip(i as int);
    if i < list.len() && text::same_text(list[i].as_str(), t) {
        assert(rest[0] == list@[i as int]@);
        assert(all.take(i as int) + rest =~= all);
        return ;
    }
    proof {
        if i < list@.len() {
            assert(rest[0] == list@[i as int]@);
            assert(with_text(rest, t@) == seq![t@] + rest);
        } else {
            assert(rest.len() == 0);
            assert(with_text(rest, t@) =~= seq![t@] + rest);
        }
    }
    list.insert(i, t.to_owned());
    assert(text::texts(list@) =~= all.take(i as int) + (seq![t@] + rest));
}

fn add_texts(list: &mut Vec<String>, more: &[String])
    ensures
        text::texts(final(list)@) == with_texts(text::texts(old(list)@), text::texts(more@)),
{
    let ghost first = text::texts(list@);
    let ghost all = text::texts(more@);
    let mut i: usize = 0;
    assert(all.take(0) =~= Seq::<Seq<char>>::empty());
    while i < more.len()
        invariant
            i <= more@.len(),
            all == text::texts(more@),
            text::texts(list@) == with_texts(first, all.take(i as int)),
        decreases more@.len() - i,
    {
        assert(all.take(i + 1).drop_last() =~= all.take(i as int));
        assert(all.take(i + 1).last() == more@[i as int]@);
        if !more[i].as_str().is_empty() {
            add_text(list, more[i].as_str());
        }
        i += 1;
    }
    assert(all.take(i as int) =~= all);
}

/// A list in which each text comes before the next.
pub open spec fn ascending(list: Seq<Seq<char>>) -> bool {
    forall|i: int, j: int| 0 <= i < j < list.len() ==> text::comes_before(#[trigger] list[i], #[trigger] list[j])
}

proof fn lemma_before_chain(a: Seq<char>, b: Seq<char>, c: Seq<char>)
    requires
        text::comes_before(a, b),
        text::comes_before(b, c),
    ensures
        text::comes_before(a, c),
    decreases a.len(),
{
    if a.len() > 0 && b.len() > 0 && c.len() > 0 && a[0] == b[0] && b[0] == c[0] {
        lemma_before_chain(a.drop_first(), b.drop_first(), c.drop_first());
    }
}

proof fn lemma_before_total(a: Seq<char>, b: Seq<char>)
    ensures
        a == b || text::comes_before(a, b) || text::comes_before(b, a),
    decreases a.len(),
{
    if a.len() > 0 && b.len() > 0 {
        if a[0] == b[0] {
            lemma_before_total(a.drop_first(), b.drop_first());
            assert(a =~= seq![a[0]] + a.drop_first());
            assert(b =~= seq![b[0]] + b.drop_first());
        }
    } else {
        if a.len() == 0 && b.len() == 0 {
            assert(a =~= b);
        }
    }
}

proof fn lemma_with_text(list: Seq<Seq<char>>, t: Seq<char>)
    requires
        ascending(list),
    ensures
        ascending(with_text(list, t)),
        forall|u: Seq<char>| #[trigger]
            with_text(list, t).contains(u) <==> (u == t || list.contains(u)),
    decreases list.len(),
{
    let r = with_text(list, t);
    if list.len() == 0 {
        assert(r[0] == t);
        assert forall|u: Seq<char>| r.contains(u) <==> (u == t || list.contains(u)) by {
            if u == t {
                assert(r.contains(r[0]));
            }
        }
    } else if text::comes_before(list[0], t) {
        let rest = list.drop_first();
        let tail = with_text(rest, t);
        assert(ascending(rest)) by {
            assert forall|i: int, j: int| 0 <= i < j < rest.len() implies text::comes_before(
                #[trigger] rest[i],
                #[trigger] rest[j],
            ) by {
                assert(rest[i] == list[i + 1] && rest[j] == list[j + 1]);
            }
        }
        lemma_with_text(rest, t);
        assert forall|i: int, j: int| 0 <= i < j < r.len() implies text::comes_before(
            #[trigger] r[i],
            #[trigger] r[j],
        ) by {
            assert(r[j] == tail[j - 1]);
            if i == 0 {
                assert(tail.contains(tail[j - 1]));
                if tail[j - 1] != t {
                    assert(rest.contains(tail[j - 1]));
                    let k = choose|k: int| 0 <= k < rest.len() && rest[k] == tail[j - 1];
                    assert(list[k + 1] == rest[k]);
                    assert(text::comes_before(list[0], list[k + 1]));
                }
            } else {
                assert(r[i] == tail[i - 1]);
            }
        }
        assert forall|u: Seq<char>| r.contains(u) <==> (u == t || list.contains(u)) by {
            if r.contains(u) {
                let k = choose|k: int| 0 <= k < r.len() && r[k] == u;
                if k == 0 {
                    assert(list[0] == u);
                } else {
                    assert(tail[k - 1] == u);
                    assert(tail.contains(u));
                    if u != t {
                        assert(rest.contains(u));
                        let m = choose|m: int| 0 <= m < rest.len() && rest[m] == u;
                        assert(list[m + 1] == u);
                    }
                }
            }
            if u == t || list.contains(u) {
                if list.contains(u) && u == list[0] {
                    assert(r[0] == u);
                } else {
                    if u != t {
                        let m = choose|m: int| 0 <= m < list.len() && list[m] == u;
                        assert(rest[m - 1] == u);
                        assert(rest.contains(u));
                    }
                    assert(tail.contains(u));
                    let m = choose|m: int| 0 <= m < tail.len() && tail[m] == u;
                    assert(r[m + 1] == u);
                }
            }
        }
    } else if list[0] == t {
        assert(list.contains(list[0]));
    } else {
        lemma_before_total(list[0], t);
        assert forall|i: int, j: int| 0 <= i < j < r.len() implies text::comes_before(
            #[trigger] r[i],
            #[trigger] r[j],
        ) by {
            assert(r[j] == list[j - 1]);
            if i == 0 {
                if j > 1 {
                    assert(text::comes_before(list[0], list[j - 1]));
                    lemma_before_chain(t, list[0], list[j - 1]);
                }
            } else {
                assert(r[i] == list[i - 1]);
            }
        }
        assert forall|u: Seq<char>| r.contains(u) <==> (u == t || list.contains(u)) by {
            if r.contains(u) {
                let k = choose|k: int| 0 <= k < r.len() && r[k] == u;
                if k > 0 {
                    assert(list[k - 1] == u);
                }
            }
            if u == t {
                assert(r[0] == u);
            } else if list.contains(u) {
                let k = choose|k: int| 0 <= k < list.len() && list[k] == u;
                assert(r[k + 1] == u);
            }
        }
    }
}

/// Gathered tags are in ascending order, so none is there twice, and they are
/// exactly the ones that were there and the ones that are not empty among those
/// that came.
pub proof fn law_gathered_tags(list: Seq<Seq<char>>, more: Seq<Seq<char>>)
    requires
        ascending(list),
    ensures
        ascending(with_texts(list, more)),
        forall|u: Seq<char>| #[trigger]
            with_texts(list, more).contains(u) <==> (list.contains(u) || (u.len() > 0
                && more.contains(u))),
    decreases more.len(),
{
    if more.len() > 0 {
        let front = more.drop_last();
        let before = with_texts(list, front);
        law_gathered_tags(list, front);
        if more.last().len() > 0 {
            lemma_with_text(before, more.last());
        }
        assert forall|u: Seq<char>|
            with_texts(list, more).contains(u) <==> (list.contains(u) || (u.len() > 0
                && more.contains(u))) by {
            if more.contains(u) {
                let k = choose|k: int| 0 <= k < more.len() && more[k] == u;
                if k < front.len() {
                    assert(front[k] == u);
                }
            }
            if front.contains(u) {
                let k = choose|k: int| 0 <= k < front.len() && front[k] == u;
                assert(more[k] == u);
            }
            assert(more.contains(more[more.len() - 1]));
        }
    }
}

// ---------------------------------------------------------------------------
// What is gathered
// ---------------------------------------------------------------------------

/// The images, the tags and the messages of the works that were looked at.
pub struct Gathered {
    pub images: Vec<CatalogPruneImageRow<String>>,
    pub tags: Vec<String>,
    pub targets: Vec<TelegramPruneTarget>,
}

/// The mathematical value of [`Gathered`].
pub struct GatheredView {
    pub images: Seq<CatalogPruneImageRow<Seq<char>>>,
    pub tags: Seq<Seq<char>>,
    pub targets: Seq<TargetView>,
}

impl View for Gathered {
    type V = GatheredView;

    open spec fn view(&self) -> GatheredView {
        GatheredView {
            images: crate::rows::views(self.images@),
            tags: text::texts(self.tags@),
            targets: crate::catalog::target_views(self.targets@),
        }
    }
}

/// Nothing yet.
pub open spec fn nothing() -> GatheredView {
    GatheredView { images: Seq::empty(), tags: Seq::empty(), targets: Seq::empty() }
}

impl GatheredView {
    /// With some more images.
    pub open spec fn with_images(self, rows: Seq<CatalogPruneImageRow<Seq<char>>>) -> GatheredView {
        GatheredView { images: self.images + rows, tags: self.tags, targets: self.targets }
    }

    /// With some more tags.
    pub open spec fn with_tags(self, more: Seq<Seq<char>>) -> GatheredView {
        GatheredView {
            images: self.images,
            tags: with_texts(self.tags, more),
            targets: self.targets,
        }
    }

    /// With some more messages.
    pub open spec fn with_targets(self, more: Seq<TargetView>) -> GatheredView {
        GatheredView { images: self.images, tags: self.tags, targets: self.targets + more }
    }
}

impl Gathered {
    fn new() -> (r: Gathered)
        ensures
            r@ == nothing(),
    {
        let r = Gathered { images: Vec::new(), tags: Vec::new(), targets: Vec::new() };
        assert(r@.images =~= nothing().images);
        assert(r@.tags =~= nothing().tags);
        assert(r@.targets =~= nothing().targets);
        r
    }

    fn with_images(self, rows: Vec<CatalogPruneImageRow<String>>) -> (r: Gathered)
        ensures
            r@ == self@.with_images(crate::rows::views(rows@)),
    {
        let mut images = self.images;
        let mut rows = rows;
        let ghost before = crate::rows::views(images@);
        let ghost more = crate::rows::views(rows@);
        images.append(&mut rows);
        assert(crate::rows::views(images@) =~= before + more);
        Gathered { images, tags: self.tags, targets: self.targets }
    }

    fn with_tags(self, more: &[String]) -> (r: Gathered)
        ensures
            r@ == self@.with_tags(text::texts(more@)),
    {
        let mut tags = self.tags;
        add_texts(&mut tags, more);
        Gathered { images: self.images, tags, targets: self.targets }
    }

    fn with_targets(self, more: Vec<TelegramPruneTarget>) -> (r: Gathered)
        ensures
            r@ == self@.with_targets(crate::catalog::target_views(more@)),
    {
        let mut targets = self.targets;
        let mut more = more;
        let ghost before = crate::catalog::target_views(targets@);
        let ghost rest = crate::catalog::target_views(more@);
        targets.append(&mut more);
        assert(crate::catalog::target_views(targets@) =~= before + rest);
        Gathered { images: self.images, tags: self.tags, targets }
    }
}

/// The messages of some publications, where each of their lists is a good one.
pub open spec fn mapped(rows: Seq<WorkPublicationRow<Seq<char>>>) -> Option<Seq<TargetView>>
    decreases rows.len(),
{
    if rows.len() == 0 {
        Some(Seq::empty())
    } else {
        let row = rows.last();
        match (
            mapped(rows.drop_last()),
            crate::catalog::mapping(outside::json_i64_list(row.message_ids_json)),
        ) {
            (Some(list), Some(message_ids)) => Some(
                list.push(
                    TargetView {
                        publication_id: row.id,
                        work_id: row.work_id,
                        chat_id: row.chat_id,
                        message_ids,
                    },
                ),
            ),
            _ => None,
        }
    }
}

proof fn lemma_mapped_front(rows: Seq<WorkPublicationRow<Seq<char>>>, n: int)
    requires
        0 <= n <= rows.len(),
        mapped(rows.take(n)) is None,
    ensures
        mapped(rows) is None,
    decreases rows.len() - n,
{
    if n < rows.len() {
        assert(rows.take(n + 1).drop_last() =~= rows.take(n));
        lemma_mapped_front(rows, n + 1);
    } else {
        assert(rows.take(n) =~= rows);
    }
}

/// The messages of some publications.
pub fn map_publications(rows: &[WorkPublicationRow<String>]) -> (r: Option<
    Vec<TelegramPruneTarget>,
>)
    ensures
        crate::catalog::opt_targets(r) == mapped(crate::rows::views(rows@)),
{
    let ghost all = crate::rows::views(rows@);
    let mut out: Vec<TelegramPruneTarget> = Vec::new();
    let mut i: usize = 0;
    assert(all.take(0) =~= Seq::<WorkPublicationRow<Seq<char>>>::empty());
    assert(crate::catalog::target_views(out@) =~= Seq::<TargetView>::empty());
    while i < rows.len()
        invariant
            i <= rows@.len(),
            all == crate::rows::views(rows@),
            mapped(all.take(i as int)) == Some(crate::catalog::target_views(out@)),
        decreases rows@.len() - i,
    {
        assert(all.take(i + 1).drop_last() =~= all.take(i as int));
        assert(all.take(i + 1).last() == rows@[i as int]@);
        match parse_publication_message_ids(rows[i].message_ids_json.as_str()) {
            Err(_) => {
                proof {
                    lemma_mapped_front(all, i + 1);
                }
                return None;
            },
            Ok(message_ids) => {
                let target = TelegramPruneTarget {
                    publication_id: rows[i].id.clone(),
                    work_id: rows[i].work_id.clone(),
                    chat_id: rows[i].chat_id,
                    message_ids,
                };
                let ghost before = crate::catalog::target_views(out@);
                out.push(target);
                assert(crate::catalog::target_views(out@) =~= before.push(target@));
            },
        }
        i += 1;
    }
    assert(all.take(i as int) =~= all);
    Some(out)
}

// ---------------------------------------------------------------------------
// The transaction
// ---------------------------------------------------------------------------

/// Takes each work out of the catalog.
pub open spec fn drop_statements(works: Seq<Seq<char>>, now: Seq<char>) -> Seq<StatementView>
    decreases works.len(),
{
    if works.len() == 0 {
        Seq::empty()
    } else {
        drop_statements(works.drop_last(), now).push(
            crate::sql::statement(DROP_IMAGES_SQL@).text(works.last()),
        ).push(crate::sql::statement(DROP_TAGS_SQL@).text(works.last())).push(
            crate::sql::statement(DELETE_WORK_SQL@).text(now).text(works.last()),
        )
    }
}

fn drop_works(works: &[String], now: &str) -> (r: Vec<Statement>)
    ensures
        crate::sql::statement_views(r@) == drop_statements(text::texts(works@), now@),
{
    let mut out = no_statements();
    let mut i: usize = 0;
    let ghost all = text::texts(works@);
    assert(all.take(0) =~= Seq::<Seq<char>>::empty());
    while i < works.len()
        invariant
            i <= works@.len(),
            all == text::texts(works@),
            crate::sql::statement_views(out@) == drop_statements(all.take(i as int), now@),
        decreases works@.len() - i,
    {
        assert(all.take(i + 1).drop_last() =~= all.take(i as int));
        assert(all.take(i + 1).last() == works@[i as int]@);
        let work = works[i].as_str();
        add_statement(&mut out, Statement::new(DROP_IMAGES_SQL).text(work));
        add_statement(&mut out, Statement::new(DROP_TAGS_SQL).text(work));
        add_statement(&mut out, Statement::new(DELETE_WORK_SQL).text(now).text(work));
        i += 1;
    }
    assert(all.take(i as int) =~= all);
    out
}

/// A target as it is recorded.
pub open spec fn recorded_target(t: TargetView) -> JsonView {
    crate::json::no_members().with("publication_id"@, JsonView::Text(t.publication_id)).with(
        "work_id"@,
        JsonView::Text(t.work_id),
    ).with("chat_id"@, JsonView::Num(t.chat_id as int)).with(
        "message_ids"@,
        JsonView::List(crate::json::number_documents(t.message_ids)),
    ).object()
}

/// A target as it is told.
pub open spec fn told_target(t: TargetView) -> JsonView {
    crate::json::no_members().with("chat_id"@, JsonView::Num(t.chat_id as int)).with(
        "message_ids"@,
        JsonView::List(crate::json::number_documents(t.message_ids)),
    ).with("publication_id"@, JsonView::Text(t.publication_id)).with(
        "work_id"@,
        JsonView::Text(t.work_id),
    ).object()
}

/// Targets as they are recorded.
pub open spec fn recorded_targets(targets: Seq<TargetView>) -> JsonView {
    JsonView::List(targets.map_values(|t: TargetView| recorded_target(t)))
}

/// Targets as they are told.
pub open spec fn told_targets(targets: Seq<TargetView>) -> JsonView {
    JsonView::List(targets.map_values(|t: TargetView| told_target(t)))
}

fn record_targets(targets: &[TelegramPruneTarget]) -> (r: Json)
    ensures
        r@ == recorded_targets(crate::catalog::target_views(targets@)),
{
    let mut out: Vec<Json> = Vec::new();
    let mut i: usize = 0;
    let ghost want = crate::catalog::target_views(targets@).map_values(
        |t: TargetView| recorded_target(t),
    );
    assert(crate::json::documents(out@) =~= want.take(0));
    while i < targets.len()
        invariant
            i <= targets@.len(),
            want == crate::catalog::target_views(targets@).map_values(
                |t: TargetView| recorded_target(t),
            ),
            crate::json::documents(out@) == want.take(i as int),
        decreases targets@.len() - i,
    {
        let t = &targets[i];
        let item = Members::new().with(
            "publication_id",
            Json::text(t.publication_id.as_str()),
        ).with("work_id", Json::text(t.work_id.as_str())).with(
            "chat_id",
            Json::Num(t.chat_id as i128),
        ).with("message_ids", Json::numbers(t.message_ids.as_slice())).object();
        let ghost before = crate::json::documents(out@);
        out.push(item);
        proof {
            assert(item@ == recorded_target(targets@[i as int]@));
            assert(want[i as int] == item@);
            assert(crate::json::documents(out@) =~= before.push(item@));
            assert(want.take(i + 1) =~= want.take(i as int).push(want[i as int]));
        }
        i += 1;
    }
    assert(want.take(i as int) =~= want);
    Json::list(out)
}

fn tell_targets(targets: &[TelegramPruneTarget]) -> (r: Json)
    ensures
        r@ == told_targets(crate::catalog::target_views(targets@)),
{
    let mut out: Vec<Json> = Vec::new();
    let mut i: usize = 0;
    let ghost want = crate::catalog::target_views(targets@).map_values(
        |t: TargetView| told_target(t),
    );
    assert(crate::json::documents(out@) =~= want.take(0));
    while i < targets.len()
        invariant
            i <= targets@.len(),
            want == crate::catalog::target_views(targets@).map_values(
                |t: TargetView| told_target(t),
            ),
            crate::json::documents(out@) == want.take(i as int),
        decreases targets@.len() - i,
    {
        let t = &targets[i];
        let item = Members::new().with("chat_id", Json::Num(t.chat_id as i128)).with(
            "message_ids",
            Json::numbers(t.message_ids.as_slice()),
        ).with("publication_id", Json::text(t.publication_id.as_str())).with(
            "work_id",
            Json::text(t.work_id.as_str()),
        ).object();
        let ghost before = crate::json::documents(out@);
        out.push(item);
        proof {
            assert(item@ == told_target(targets@[i as int]@));
            assert(want[i as int] == item@);
            assert(crate::json::documents(out@) =~= before.push(item@));
            assert(want.take(i + 1) =~= want.take(i as int).push(want[i as int]));
        }
        i += 1;
    }
    assert(want.take(i as int) =~= want);
    Json::list(out)
}

/// Records a decision that was carried out but for its messages.
pub open spec fn work_receipt(request: PruneView, g: GatheredView, now: Seq<char>) -> StatementView {
    crate::sql::statement(INSERT_WORK_RECEIPT_SQL@).text(request.decision_id).text(
        request.keep,
    ).text(outside::json_of_strings(request.remove)).text(
        outside::json_of_strings(crate::removal::keys_of(g.images)),
    ).document(recorded_targets(g.targets)).text(now)
}

/// The transaction that takes the works out of the catalog.
pub open spec fn work_prune_batch(
    request: PruneView,
    g: GatheredView,
    now: Seq<char>,
) -> Seq<StatementView> {
    (crate::removal::backup_statements(g.images, request.decision_id, now) + drop_statements(
        request.remove,
        now,
    ) + crate::removal::recount_statements(g.tags)).push(work_receipt(request, g, now))
}

fn removal_batch(request: &CatalogWorkPruneRequest, g: &Gathered, now: &str) -> (r: Vec<Statement>)
    ensures
        crate::sql::statement_views(r@) == work_prune_batch(request@, g@, now@),
        outside::json_string_list(outside::json_of_strings(request@.remove)) == Some(
            request@.remove,
        ),
        outside::json_string_list(
            outside::json_of_strings(crate::removal::keys_of(g@.images)),
        ) == Some(crate::removal::keys_of(g@.images)),
{
    let mut out = record_backups(g.images.as_slice(), request.decision_id.as_str(), now);
    add_statements(&mut out, drop_works(request.remove_work_ids.as_slice(), now));
    add_statements(&mut out, recount_tags(g.tags.as_slice()));
    let works = recorded_list(request.remove_work_ids.as_slice());
    let keys = row_keys(g.images.as_slice());
    let removed = recorded_list(keys.as_slice());
    let targets = record_targets(g.targets.as_slice());
    add_statement(
        &mut out,
        Statement::new(INSERT_WORK_RECEIPT_SQL).text(request.decision_id.as_str()).text(
            request.keep_work_id.as_str(),
        ).text(works.as_str()).text(removed.as_str()).document(targets).text(now),
    );
    out
}

/// The reply to a decision that was carried out.
pub open spec fn work_pruned_view(
    works: Seq<Seq<char>>,
    keys: Seq<Seq<char>>,
    targets: Seq<TargetView>,
    replayed: bool,
) -> ReplyView {
    crate::json::success_view(
        crate::json::no_members().with("ok"@, JsonView::Bool(true)).with(
            "removed_r2_keys"@,
            JsonView::List(crate::json::text_documents(keys)),
        ).with("removed_works"@, JsonView::List(crate::json::text_documents(works))).with(
            "replayed"@,
            JsonView::Bool(replayed),
        ).with("telegram_targets"@, told_targets(targets)),
    )
}

fn work_pruned_reply(
    works: &[String],
    keys: &[String],
    targets: &[TelegramPruneTarget],
    replayed: bool,
) -> (r: Reply)
    ensures
        r@ == work_pruned_view(
            text::texts(works@),
            text::texts(keys@),
            crate::catalog::target_views(targets@),
            replayed,
        ),
{
    success(
        Members::new().with("ok", Json::Bool(true)).with("removed_r2_keys", Json::texts(keys)).with(
            "removed_works",
            Json::texts(works),
        ).with("replayed", Json::Bool(replayed)).with("telegram_targets", tell_targets(targets)),
    )
}

// ---------------------------------------------------------------------------
// The machine
// ---------------------------------------------------------------------------

/// How far a decision is. The number is that of the work, or of the image, that
/// is looked at.
pub enum WorkPrunePhase {
    /// The receipt of the decision is read.
    Receipt,
    /// The objects that the receipt lists are deleted.
    Replay(ParsedWorkPruneReceipt),
    /// The work to keep is looked for.
    Keep,
    /// A work to remove is looked for.
    Active(Gathered, usize),
    /// Its images are read.
    Images(Gathered, usize),
    /// Its tags are read.
    Tags(Gathered, usize),
    /// Its publications are read.
    Publications(Gathered, usize),
    /// An image is copied.
    Copying(Gathered, usize),
    /// The clock is asked.
    Time(Gathered),
    /// The transaction runs.
    Commit(Gathered),
    /// The objects are deleted.
    Deleting(Gathered),
    /// All is said.
    End,
}

/// The mathematical value of a [`WorkPrunePhase`].
pub enum WorkPrunePhaseView {
    Receipt,
    Replay(ParsedView),
    Keep,
    Active(GatheredView, int),
    Images(GatheredView, int),
    Tags(GatheredView, int),
    Publications(GatheredView, int),
    Copying(GatheredView, int),
    Time(GatheredView),
    Commit(GatheredView),
    Deleting(GatheredView),
    End,
}

impl View for WorkPrunePhase {
    type V = WorkPrunePhaseView;

    open spec fn view(&self) -> WorkPrunePhaseView {
        match self {
            WorkPrunePhase::Receipt => WorkPrunePhaseView::Receipt,
            WorkPrunePhase::Replay(p) => WorkPrunePhaseView::Replay(p@),
            WorkPrunePhase::Keep => WorkPrunePhaseView::Keep,
            WorkPrunePhase::Active(g, i) => WorkPrunePhaseView::Active(g@, *i as int),
            WorkPrunePhase::Images(g, i) => WorkPrunePhaseView::Images(g@, *i as int),
            WorkPrunePhase::Tags(g, i) => WorkPrunePhaseView::Tags(g@, *i as int),
            WorkPrunePhase::Publications(g, i) => WorkPrunePhaseView::Publications(g@, *i as int),
            WorkPrunePhase::Copying(g, i) => WorkPrunePhaseView::Copying(g@, *i as int),
            WorkPrunePhase::Time(g) => WorkPrunePhaseView::Time(g@),
            WorkPrunePhase::Commit(g) => WorkPrunePhaseView::Commit(g@),
            WorkPrunePhase::Deleting(g) => WorkPrunePhaseView::Deleting(g@),
            WorkPrunePhase::End => WorkPrunePhaseView::End,
        }
    }
}

/// A decision on its way.
pub struct WorkPrune {
    request: CatalogWorkPruneRequest,
    phase: WorkPrunePhase,
}

/// The mathematical value of a [`WorkPrune`].
pub struct WorkPruneRun {
    pub request: PruneView,
    pub phase: WorkPrunePhaseView,
}

impl View for WorkPrune {
    type V = WorkPruneRun;

    closed spec fn view(&self) -> WorkPruneRun {
        WorkPruneRun { request: self.request@, phase: self.phase@ }
    }
}

/// Reads the publications of a work.
pub open spec fn work_publications(work_id: Seq<char>) -> ActionView {
    ActionView::Query(
        Table::WorkPublications,
        crate::sql::statement(WORK_PUBLICATIONS_SQL@).text(work_id),
    )
}

impl WorkPruneRun {
    /// Something is to be removed, and only works of the decision and images
    /// that were found are looked at.
    pub open spec fn well_formed(self) -> bool {
        let n = self.request.remove.len();
        &&& 0 < n
        &&& match self.phase {
            WorkPrunePhaseView::Active(_, i) => 0 <= i < n,
            WorkPrunePhaseView::Images(_, i) => 0 <= i < n,
            WorkPrunePhaseView::Tags(_, i) => 0 <= i < n,
            WorkPrunePhaseView::Publications(_, i) => 0 <= i < n,
            WorkPrunePhaseView::Copying(g, i) => 0 <= i < g.images.len(),
            _ => true,
        }
    }

    /// One more step.
    pub open spec fn goes(self, phase: WorkPrunePhaseView, action: ActionView) -> (
        WorkPruneRun,
        ActionView,
    ) {
        (WorkPruneRun { request: self.request, phase }, action)
    }

    /// The last step.
    pub open spec fn ends(self, action: ActionView) -> (WorkPruneRun, ActionView) {
        self.goes(WorkPrunePhaseView::End, action)
    }

    /// What follows from the receipt of the decision.
    pub open spec fn replays(self, receipt: crate::catalog::WorkReceiptView) -> (
        WorkPruneRun,
        ActionView,
    ) {
        match crate::catalog::receipt_says(receipt) {
            None => self.ends(crate::effect::refuse(CORRUPT_RECEIPT@, 500)),
            Some(p) => if !crate::catalog::same_plan(
                self.request.keep,
                self.request.remove,
                receipt.keep,
                p.works,
            ) {
                self.ends(crate::effect::refuse("prune decision conflict"@, 409))
            } else if p.keys.len() > 0 {
                self.goes(WorkPrunePhaseView::Replay(p), ActionView::Delete(p.keys))
            } else {
                self.ends(ActionView::Reply(work_pruned_view(p.works, p.keys, p.targets, true)))
            },
        }
    }

    /// What follows once all works were looked at.
    pub open spec fn copies(self, g: GatheredView) -> (WorkPruneRun, ActionView) {
        if g.images.len() > 0 {
            self.goes(
                WorkPrunePhaseView::Copying(g, 0),
                crate::removal::backup_copy(g.images[0], self.request.decision_id),
            )
        } else {
            self.goes(WorkPrunePhaseView::Time(g), ActionView::Clock)
        }
    }

    /// What follows once the publications of the work `i` are known.
    pub open spec fn publishes(
        self,
        g: GatheredView,
        i: int,
        rows: Seq<WorkPublicationRow<Seq<char>>>,
    ) -> (WorkPruneRun, ActionView) {
        let work = self.request.remove[i];
        if rows.len() == 0 {
            self.ends(
                crate::effect::refuse("telegram publication mapping missing: "@ + work, 409),
            )
        } else {
            match mapped(rows) {
                None => self.ends(crate::effect::refuse(BAD_MAPPING@ + ": "@ + work, 409)),
                Some(targets) => if i + 1 < self.request.remove.len() {
                    self.goes(
                        WorkPrunePhaseView::Active(g.with_targets(targets), i + 1),
                        crate::removal::active_work(self.request.remove[i + 1]),
                    )
                } else {
                    self.copies(g.with_targets(targets))
                },
            }
        }
    }

    /// The reply once the decision was carried out.
    pub open spec fn told(self, g: GatheredView) -> ActionView {
        ActionView::Reply(
            work_pruned_view(
                self.request.remove,
                crate::removal::keys_of(g.images),
                g.targets,
                false,
            ),
        )
    }
}

impl Machine for WorkPruneRun {
    open spec fn next(self, event: EventView) -> (WorkPruneRun, ActionView) {
        match (self.phase, event) {
            (WorkPrunePhaseView::Receipt, EventView::WorkReceipt(Some(receipt))) => self.replays(
                receipt,
            ),
            (WorkPrunePhaseView::Receipt, EventView::WorkReceipt(None)) => self.goes(
                WorkPrunePhaseView::Keep,
                crate::removal::active_work(self.request.keep),
            ),
            (WorkPrunePhaseView::Replay(p), EventView::Done) => self.ends(
                ActionView::Reply(work_pruned_view(p.works, p.keys, p.targets, true)),
            ),
            (WorkPrunePhaseView::Keep, EventView::Text(found)) => if found == Some(
                self.request.keep,
            ) {
                self.goes(
                    WorkPrunePhaseView::Active(nothing(), 0),
                    crate::removal::active_work(self.request.remove[0]),
                )
            } else {
                self.ends(crate::effect::refuse("keep work not active"@, 409))
            },
            (WorkPrunePhaseView::Active(g, i), EventView::Text(found)) => if found == Some(
                self.request.remove[i],
            ) {
                self.goes(
                    WorkPrunePhaseView::Images(g, i),
                    crate::removal::work_images(self.request.remove[i]),
                )
            } else {
                self.ends(
                    crate::effect::refuse(
                        "remove work not active: "@ + self.request.remove[i],
                        409,
                    ),
                )
            },
            (WorkPrunePhaseView::Images(g, i), EventView::Images(rows)) => self.goes(
                WorkPrunePhaseView::Tags(g.with_images(rows), i),
                crate::removal::work_tags(self.request.remove[i]),
            ),
            (WorkPrunePhaseView::Tags(g, i), EventView::Texts(tags)) => self.goes(
                WorkPrunePhaseView::Publications(g.with_tags(tags), i),
                work_publications(self.request.remove[i]),
            ),
            (
                WorkPrunePhaseView::Publications(g, i),
                EventView::Publications(rows),
            ) => self.publishes(g, i, rows),
            (WorkPrunePhaseView::Copying(g, i), EventView::Done) => if i + 1 < g.images.len() {
                self.goes(
                    WorkPrunePhaseView::Copying(g, i + 1),
                    crate::removal::backup_copy(g.images[i + 1], self.request.decision_id),
                )
            } else {
                self.goes(WorkPrunePhaseView::Time(g), ActionView::Clock)
            },
            (WorkPrunePhaseView::Time(g), EventView::Now(now)) => self.goes(
                WorkPrunePhaseView::Commit(g),
                ActionView::Batch(work_prune_batch(self.request, g, now)),
            ),
            (WorkPrunePhaseView::Commit(g), EventView::Done) => if g.images.len() > 0 {
                self.goes(
                    WorkPrunePhaseView::Deleting(g),
                    ActionView::Delete(crate::removal::keys_of(g.images)),
                )
            } else {
                self.ends(self.told(g))
            },
            (WorkPrunePhaseView::Deleting(g), EventView::Done) => self.ends(self.told(g)),
            _ => self.ends(crate::effect::stop(event)),
        }
    }
}

/// The first step of a decision, or why it is refused.
pub open spec fn work_prune_begun(request: Option<PruneView>) -> Result<
    (WorkPruneRun, ActionView),
    ReplyView,
> {
    match request {
        None => Err(crate::json::refusal_view("invalid json"@, 400)),
        Some(request) => match crate::catalog::work_prune_fault(request) {
            Some(fault) => Err(crate::json::refusal_view(fault, 400)),
            None => Ok(
                (
                    WorkPruneRun { request, phase: WorkPrunePhaseView::Receipt },
                    ActionView::Query(
                        Table::WorkPruneReceipt,
                        crate::sql::statement(WORK_RECEIPT_SQL@).text(request.decision_id),
                    ),
                ),
            ),
        },
    }
}

/// The value of the first step of a decision.
pub open spec fn work_prune_start(r: Result<(WorkPrune, Action), Reply>) -> Result<
    (WorkPruneRun, ActionView),
    ReplyView,
> {
    match r {
        Ok(first) => Ok((first.0@, first.1@)),
        Err(reply) => Err(reply@),
    }
}

fn is_text(found: &Option<String>, t: &str) -> (r: bool)
    ensures
        r == (outside::opt_text(*found) == Some(t@)),
{
    match found {
        Some(f) => text::same_text(f.as_str(), t),
        None => false,
    }
}

impl WorkPrune {
    /// Only works of the decision and images that were found are looked at.
    pub open spec fn well_formed(self) -> bool {
        self@.well_formed()
    }

    /// Begins to carry out a decision. The request is absent where it could not
    /// be read.
    pub fn begin(request: Option<CatalogWorkPruneRequest>) -> (r: Result<
        (WorkPrune, Action),
        Reply,
    >)
        ensures
            work_prune_start(r) == work_prune_begun(crate::rows::opt_view(request)),
            r is Ok ==> r->Ok_0.0.well_formed(),
    {
        match request {
            None => Err(refusal("invalid json", 400)),
            Some(request) => match validate_catalog_work_prune(&request) {
                Err(message) => Err(refusal(message, 400)),
                Ok(()) => {
                    let query = Statement::new(WORK_RECEIPT_SQL).text(
                        request.decision_id.as_str(),
                    );
                    Ok(
                        (
                            WorkPrune { request, phase: WorkPrunePhase::Receipt },
                            Action::Query(Table::WorkPruneReceipt, query),
                        ),
                    )
                },
            },
        }
    }

    fn replays(
        request: CatalogWorkPruneRequest,
        receipt: crate::catalog::CatalogWorkPruneReceiptRow,
    ) -> (r: (WorkPrune, Action))
        requires
            request.remove_work_ids@.len() > 0,
        ensures
            (r.0@, r.1@) == (WorkPruneRun {
                request: request@,
                phase: WorkPrunePhaseView::End,
            }).replays(receipt@),
            r.0.well_formed(),
    {
        match parse_work_prune_receipt(&receipt) {
            Err(message) => (
                WorkPrune { request, phase: WorkPrunePhase::End },
                refusing(message, 500),
            ),
            Ok(p) => {
                if !same_work_prune_plan(
                    request.keep_work_id.as_str(),
                    request.remove_work_ids.as_slice(),
                    receipt.keep_work_id.as_str(),
                    p.remove_work_ids.as_slice(),
                ) {
                    (
                        WorkPrune { request, phase: WorkPrunePhase::End },
                        refusing("prune decision conflict", 409),
                    )
                } else if p.removed_r2_keys.len() > 0 {
                    let keys = text::copy_texts(p.removed_r2_keys.as_slice());
                    (
                        WorkPrune { request, phase: WorkPrunePhase::Replay(p) },
                        Action::Delete(keys),
                    )
                } else {
                    let reply = work_pruned_reply(
                        p.remove_work_ids.as_slice(),
                        p.removed_r2_keys.as_slice(),
                        p.telegram_targets.as_slice(),
                        true,
                    );
                    (WorkPrune { request, phase: WorkPrunePhase::End }, Action::Reply(reply))
                }
            },
        }
    }

    fn copies(request: CatalogWorkPruneRequest, g: Gathered) -> (r: (WorkPrune, Action))
        requires
            request.remove_work_ids@.len() > 0,
        ensures
            (r.0@, r.1@) == (WorkPruneRun {
                request: request@,
                phase: WorkPrunePhaseView::End,
            }).copies(g@),
            r.0.well_formed(),
    {
        if g.images.len() > 0 {
            let action = copy_to_backup(&g.images[0], request.decision_id.as_str());
            (WorkPrune { request, phase: WorkPrunePhase::Copying(g, 0) }, action)
        } else {
            (WorkPrune { request, phase: WorkPrunePhase::Time(g) }, Action::Clock)
        }
    }

    fn publishes(
        request: CatalogWorkPruneRequest,
        g: Gathered,
        i: usize,
        rows: Vec<WorkPublicationRow<String>>,
    ) -> (r: (WorkPrune, Action))
        requires
            i < request.remove_work_ids@.len(),
        ensures
            (r.0@, r.1@) == (WorkPruneRun {
                request: request@,
                phase: WorkPrunePhaseView::End,
            }).publishes(g@, i as int, crate::rows::views(rows@)),
            r.0.well_formed(),
    {
        let n: usize = request.remove_work_ids.len();
        if rows.len() == 0 {
            let message = text::concat2(
                "telegram publication mapping missing: ",
                request.remove_work_ids[i].as_str(),
            );
            return (
                WorkPrune { request, phase: WorkPrunePhase::End },
                refusing(message.as_str(), 409),
            );
        }
        match map_publications(rows.as_slice()) {
            None => {
                let message = text::concat3(
                    BAD_MAPPING,
                    ": ",
                    request.remove_work_ids[i].as_str(),
                );
                (WorkPrune { request, phase: WorkPrunePhase::End }, refusing(message.as_str(), 409))
            },
            Some(targets) => {
                let g = g.with_targets(targets);
                if i + 1 < n {
                    let action = find_active_work(request.remove_work_ids[i + 1].as_str());
                    (WorkPrune { request, phase: WorkPrunePhase::Active(g, i + 1) }, action)
                } else {
                    WorkPrune::copies(request, g)
                }
            },
        }
    }

    fn told(request: &CatalogWorkPruneRequest, g: &Gathered) -> (r: Action)
        ensures
            r@ == (WorkPruneRun { request: request@, phase: WorkPrunePhaseView::End }).told(g@),
    {
        let keys = row_keys(g.images.as_slice());
        Action::Reply(
            work_pruned_reply(
                request.remove_work_ids.as_slice(),
                keys.as_slice(),
                g.targets.as_slice(),
                false,
            ),
        )
    }

    /// Takes one step. The lists in the receipt that the transaction writes read
    /// back as the works and the keys that are removed.
    pub fn step(self, event: Event) -> (r: (WorkPrune, Action))
        requires
            self.well_formed(),
        ensures
            (r.0@, r.1@) == self@.next(event@),
            r.0.well_formed(),
            r.0@.phase matches WorkPrunePhaseView::Commit(g) ==> outside::json_string_list(
                outside::json_of_strings(self@.request.remove),
            ) == Some(self@.request.remove) && outside::json_string_list(
                outside::json_of_strings(crate::removal::keys_of(g.images)),
            ) == Some(crate::removal::keys_of(g.images)),
    {
        let request = self.request;
        match (self.phase, event) {
            (WorkPrunePhase::Receipt, Event::WorkReceipt(Some(receipt))) => WorkPrune::replays(
                request,
                receipt,
            ),
            (WorkPrunePhase::Receipt, Event::WorkReceipt(None)) => {
                let action = find_active_work(request.keep_work_id.as_str());
                (WorkPrune { request, phase: WorkPrunePhase::Keep }, action)
            },
            (WorkPrunePhase::Replay(p), Event::Done) => {
                let reply = work_pruned_reply(
                    p.remove_work_ids.as_slice(),
                    p.removed_r2_keys.as_slice(),
                    p.telegram_targets.as_slice(),
                    true,
                );
                (WorkPrune { request, phase: WorkPrunePhase::End }, Action::Reply(reply))
            },
            (WorkPrunePhase::Keep, Event::Text(found)) => {
                if is_text(&found, request.keep_work_id.as_str()) {
                    let action = find_active_work(request.remove_work_ids[0].as_str());
                    (
                        WorkPrune { request, phase: WorkPrunePhase::Active(Gathered::new(), 0) },
                        action,
                    )
                } else {
                    (
                        WorkPrune { request, phase: WorkPrunePhase::End },
                        refusing("keep work not active", 409),
                    )
                }
            },
            (WorkPrunePhase::Active(g, i), Event::Text(found)) => {
                if is_text(&found, request.remove_work_ids[i].as_str()) {
                    let action = find_work_images(request.remove_work_ids[i].as_str());
                    (WorkPrune { request, phase: WorkPrunePhase::Images(g, i) }, action)
                } else {
                    let message = text::concat2(
                        "remove work not active: ",
                        request.remove_work_ids[i].as_str(),
                    );
                    (
                        WorkPrune { request, phase: WorkPrunePhase::End },
                        refusing(message.as_str(), 409),
                    )
                }
            },
            (WorkPrunePhase::Images(g, i), Event::Images(rows)) => {
                let action = find_work_tags(request.remove_work_ids[i].as_str());
                (
                    WorkPrune { request, phase: WorkPrunePhase::Tags(g.with_images(rows), i) },
                    action,
                )
            },
            (WorkPrunePhase::Tags(g, i), Event::Texts(tags)) => {
                let query = Statement::new(WORK_PUBLICATIONS_SQL).text(
                    request.remove_work_ids[i].as_str(),
                );
                let g = g.with_tags(tags.as_slice());
                (
                    WorkPrune { request, phase: WorkPrunePhase::Publications(g, i) },
                    Action::Query(Table::WorkPublications, query),
                )
            },
            (
                WorkPrunePhase::Publications(g, i),
                Event::Publications(rows),
            ) => WorkPrune::publishes(request, g, i, rows),
            (WorkPrunePhase::Copying(g, i), Event::Done) => {
                let n: usize = g.images.len();
                if i + 1 < n {
                    let action = copy_to_backup(&g.images[i + 1], request.decision_id.as_str());
                    (WorkPrune { request, phase: WorkPrunePhase::Copying(g, i + 1) }, action)
                } else {
                    (WorkPrune { request, phase: WorkPrunePhase::Time(g) }, Action::Clock)
                }
            },
            (WorkPrunePhase::Time(g), Event::Now(now)) => {
                let batch = removal_batch(&request, &g, now.as_str());
                (WorkPrune { request, phase: WorkPrunePhase::Commit(g) }, Action::Batch(batch))
            },
            (WorkPrunePhase::Commit(g), Event::Done) => {
                if g.images.len() > 0 {
                    let keys = row_keys(g.images.as_slice());
                    (
                        WorkPrune { request, phase: WorkPrunePhase::Deleting(g) },
                        Action::Delete(keys),
                    )
                } else {
                    let action = WorkPrune::told(&request, &g);
                    (WorkPrune { request, phase: WorkPrunePhase::End }, action)
                }
            },
            (WorkPrunePhase::Deleting(g), Event::Done) => {
                let action = WorkPrune::told(&request, &g);
                (WorkPrune { request, phase: WorkPrunePhase::End }, action)
            },
            (_, event) => (WorkPrune { request, phase: WorkPrunePhase::End }, give_up(event)),
        }
    }
}

// ---------------------------------------------------------------------------
// What holds of every run
// ---------------------------------------------------------------------------

/// Whether the transaction that removes the works went through, after all their
/// images were copied.
pub open spec fn committed(
    start: (WorkPruneRun, ActionView),
    events: Seq<EventView>,
    g: GatheredView,
    now: Seq<char>,
) -> bool {
    let id = start.0.request.decision_id;
    &&& crate::removal::all_copied(start, events, id, g.images)
    &&& crate::effect::was_done(
        start,
        events,
        ActionView::Batch(work_prune_batch(start.0.request, g, now)),
    )
}

/// Whether an event is a receipt of the decision.
pub open spec fn has_receipt(event: EventView) -> bool {
    event is WorkReceipt && event->WorkReceipt_0 is Some
}

/// What the state of a run tells of its past.
spec fn history(start: (WorkPruneRun, ActionView), events: Seq<EventView>) -> bool {
    let (now, asked) = crate::effect::after(start, events);
    let id = start.0.request.decision_id;
    &&& now.request == start.0.request
    &&& now.well_formed()
    &&& match now.phase {
        WorkPrunePhaseView::Copying(g, k) => {
            &&& asked == crate::removal::backup_copy(g.images[k], now.request.decision_id)
            &&& crate::removal::all_copied(start, events, id, g.images.take(k))
        },
        WorkPrunePhaseView::Time(g) => {
            &&& crate::removal::all_copied(start, events, id, g.images)
            &&& asked == ActionView::Clock
        },
        WorkPrunePhaseView::Commit(g) => {
            &&& crate::removal::all_copied(start, events, id, g.images)
            &&& exists|t: Seq<char>|
                asked == ActionView::Batch(#[trigger] work_prune_batch(now.request, g, t))
        },
        WorkPrunePhaseView::Deleting(g) => {
            &&& asked == ActionView::Delete(crate::removal::keys_of(g.images))
            &&& exists|t: Seq<char>| #[trigger] committed(start, events, g, t)
        },
        WorkPrunePhaseView::Replay(_) => exists|i: int|
            0 <= i < events.len() && has_receipt(#[trigger] events[i]),
        _ => asked !is Delete,
    }
}

proof fn lemma_history(
    request: PruneView,
    start: (WorkPruneRun, ActionView),
    events: Seq<EventView>,
)
    requires
        work_prune_begun(Some(request)) == Ok::<(WorkPruneRun, ActionView), ReplyView>(start),
    ensures
        history(start, events),
    decreases events.len(),
{
    if events.len() == 0 {
        crate::catalog::law_accepted_work_prune(request);
    } else {
        let id = start.0.request.decision_id;
        let front = events.drop_last();
        let event = events.last();
        lemma_history(request, start, front);
        let (was, asked) = crate::effect::after(start, front);
        let (now, asks) = crate::effect::after(start, events);
        match (was.phase, event) {
            (WorkPrunePhaseView::Receipt, EventView::WorkReceipt(Some(receipt))) => {
                assert(has_receipt(events[events.len() - 1]));
            },
            (WorkPrunePhaseView::Publications(g, i), EventView::Publications(rows)) => {
                match mapped(rows) {
                    Some(targets) => {
                        let all = g.with_targets(targets).images;
                        assert(crate::removal::all_copied(start, events, id, all.take(0)));
                        if all.len() == 0 {
                            assert(all =~= all.take(0));
                        }
                    },
                    None => {},
                }
            },
            (WorkPrunePhaseView::Copying(g, k), EventView::Done) => {
                crate::removal::lemma_copied_now(start, events, id, g.images, k);
            },
            (WorkPrunePhaseView::Time(g), EventView::Now(t)) => {
                crate::removal::lemma_copied_stays(start, events, id, g.images);
                assert(asks == ActionView::Batch(work_prune_batch(now.request, g, t)));
            },
            (WorkPrunePhaseView::Commit(g), EventView::Done) => {
                let t = choose|t: Seq<char>|
                    asked == ActionView::Batch(#[trigger] work_prune_batch(was.request, g, t));
                crate::removal::lemma_copied_stays(start, events, id, g.images);
                crate::effect::lemma_done_now(start, events);
                assert(committed(start, events, g, t));
            },
            _ => {},
        }
    }
}

/// An object is deleted only when nothing needs it any more: unless the decision
/// had been carried out before, each image was copied to its backup, then the
/// transaction went through, and then exactly the keys of these images are
/// deleted.
pub proof fn law_work_prune_deletes_after_commit(
    request: PruneView,
    start: (WorkPruneRun, ActionView),
    events: Seq<EventView>,
    deleted: Seq<Seq<char>>,
)
    requires
        work_prune_begun(Some(request)) == Ok::<(WorkPruneRun, ActionView), ReplyView>(start),
        crate::effect::after(start, events).1 == ActionView::Delete(deleted),
        forall|i: int| 0 <= i < events.len() ==> !has_receipt(#[trigger] events[i]),
    ensures
        exists|g: GatheredView, now: Seq<char>|
            deleted == crate::removal::keys_of(g.images) && #[trigger] committed(
                start,
                events,
                g,
                now,
            ),
{
    lemma_history(request, start, events);
    match crate::effect::after(start, events).0.phase {
        WorkPrunePhaseView::Deleting(g) => {
            let t = choose|t: Seq<char>| #[trigger] committed(start, events, g, t);
            assert(committed(start, events, g, t));
        },
        _ => {},
    }
}

/// Publications of a work that make sense: theirs is the work, and they have a
/// name and a chat.
pub open spec fn sound_publications(
    rows: Seq<WorkPublicationRow<Seq<char>>>,
    work_id: Seq<char>,
) -> bool {
    forall|j: int|
        0 <= j < rows.len() ==> (#[trigger] rows[j]).work_id == work_id && text::trimmed(
            rows[j].id,
        ).len() > 0 && rows[j].chat_id != 0
}

/// Whether each list of publications in the course of some events is one of the
/// work that was asked about.
pub open spec fn sound_answers(
    start: (WorkPruneRun, ActionView),
    events: Seq<EventView>,
) -> bool {
    forall|p: int|
        0 <= p < events.len() ==> match (
            (#[trigger] crate::effect::after(start, events.take(p))).0.phase,
            events[p],
        ) {
            (
                WorkPrunePhaseView::Publications(_, i),
                EventView::Publications(rows),
            ) => sound_publications(rows, start.0.request.remove[i]),
            _ => true,
        }
}

proof fn lemma_mapped(rows: Seq<WorkPublicationRow<Seq<char>>>)
    requires
        mapped(rows) is Some,
    ensures
        mapped(rows)->0.len() == rows.len(),
        forall|j: int|
            0 <= j < rows.len() ==> {
                let t = #[trigger] mapped(rows)->0[j];
                &&& t.work_id == rows[j].work_id
                &&& t.publication_id == rows[j].id
                &&& t.chat_id == rows[j].chat_id
                &&& crate::catalog::good_ids(t.message_ids)
            },
    decreases rows.len(),
{
    if rows.len() > 0 {
        let front = rows.drop_last();
        lemma_mapped(front);
        assert forall|j: int| 0 <= j < rows.len() implies {
            let t = #[trigger] mapped(rows)->0[j];
            &&& t.work_id == rows[j].work_id
            &&& t.publication_id == rows[j].id
            &&& t.chat_id == rows[j].chat_id
            &&& crate::catalog::good_ids(t.message_ids)
        } by {
            if j < front.len() {
                assert(mapped(rows)->0[j] == mapped(front)->0[j]);
                assert(front[j] == rows[j]);
            }
        }
    }
}

/// Good targets of the first works of a decision, at least one for each.
spec fn covers(targets: Seq<TargetView>, works: Seq<Seq<char>>, n: int) -> bool {
    &&& forall|j: int|
        0 <= j < targets.len() ==> crate::catalog::good_target(#[trigger] targets[j], works)
    &&& forall|k: int|
        0 <= k < n ==> crate::catalog::target_works(targets).contains(#[trigger] works[k])
}

proof fn lemma_covers_more(
    targets: Seq<TargetView>,
    rows: Seq<WorkPublicationRow<Seq<char>>>,
    works: Seq<Seq<char>>,
    i: int,
)
    requires
        covers(targets, works, i),
        0 <= i < works.len(),
        rows.len() > 0,
        mapped(rows) is Some,
        sound_publications(rows, works[i]),
    ensures
        covers(targets + mapped(rows)->0, works, i + 1),
{
    let more = mapped(rows)->0;
    let all = targets + more;
    lemma_mapped(rows);
    assert forall|j: int| 0 <= j < all.len() implies crate::catalog::good_target(
        #[trigger] all[j],
        works,
    ) by {
        if j < targets.len() {
            assert(all[j] == targets[j]);
        } else {
            let m = j - targets.len();
            assert(all[j] == more[m]);
            assert(rows[m].work_id == works[i]);
            assert(works.contains(works[i]));
        }
    }
    let names = crate::catalog::target_works(all);
    assert forall|k: int| 0 <= k < i + 1 implies names.contains(#[trigger] works[k]) by {
        if k < i {
            let old_names = crate::catalog::target_works(targets);
            let m = choose|m: int| 0 <= m < old_names.len() && old_names[m] == works[k];
            assert(names[m] == works[k]);
        } else {
            assert(more[0].work_id == rows[0].work_id);
            assert(names[targets.len() as int] == works[k]);
        }
    }
}

/// What is gathered in the course of a run with sound answers.
spec fn gathers(start: (WorkPruneRun, ActionView), events: Seq<EventView>) -> bool {
    let works = start.0.request.remove;
    let n = works.len() as int;
    match crate::effect::after(start, events).0.phase {
        WorkPrunePhaseView::Active(g, i) => covers(g.targets, works, i),
        WorkPrunePhaseView::Images(g, i) => covers(g.targets, works, i),
        WorkPrunePhaseView::Tags(g, i) => covers(g.targets, works, i),
        WorkPrunePhaseView::Publications(g, i) => covers(g.targets, works, i),
        WorkPrunePhaseView::Copying(g, _) => covers(g.targets, works, n),
        WorkPrunePhaseView::Time(g) => covers(g.targets, works, n),
        WorkPrunePhaseView::Commit(g) => covers(g.targets, works, n),
        _ => true,
    }
}

proof fn lemma_gathers(
    request: PruneView,
    start: (WorkPruneRun, ActionView),
    events: Seq<EventView>,
)
    requires
        work_prune_begun(Some(request)) == Ok::<(WorkPruneRun, ActionView), ReplyView>(start),
        sound_answers(start, events),
    ensures
        gathers(start, events),
    decreases events.len(),
{
    if events.len() > 0 {
        let front = events.drop_last();
        let last = events.len() - 1;
        assert(front =~= events.take(last));
        assert forall|p: int| 0 <= p < front.len() implies match (
            (#[trigger] crate::effect::after(start, front.take(p))).0.phase,
            front[p],
        ) {
            (
                WorkPrunePhaseView::Publications(_, i),
                EventView::Publications(rows),
            ) => sound_publications(rows, start.0.request.remove[i]),
            _ => true,
        } by {
            assert(front.take(p) =~= events.take(p));
            assert(front[p] == events[p]);
        }
        lemma_gathers(request, start, front);
        lemma_history(request, start, front);
        let was = crate::effect::after(start, front).0;
        match (was.phase, events.last()) {
            (WorkPrunePhaseView::Publications(g, i), EventView::Publications(rows)) => {
                assert(crate::effect::after(start, events.take(last)).0.phase == was.phase);
                assert(sound_publications(rows, start.0.request.remove[i]));
                if rows.len() > 0 && mapped(rows) is Some {
                    lemma_covers_more(g.targets, rows, start.0.request.remove, i);
                }
            },
            _ => {},
        }
    }
}

/// What a decision writes, the same decision reads back: where the publications
/// that were found are those of the works asked about, each under its own name,
/// the receipt of a decision that was carried out is accepted, and the same
/// decision, its works in any order, is answered from it as it was the first
/// time. Nothing is changed again; only the objects are deleted once more. The
/// recorded lists of works and keys read as the lists that were recorded.
pub proof fn law_written_receipt_replays(
    request: PruneView,
    start: (WorkPruneRun, ActionView),
    events: Seq<EventView>,
    g: GatheredView,
    again: PruneView,
    restart: (WorkPruneRun, ActionView),
    receipt: crate::catalog::WorkReceiptView,
)
    requires
        work_prune_begun(Some(request)) == Ok::<(WorkPruneRun, ActionView), ReplyView>(start),
        sound_answers(start, events),
        crate::effect::after(start, events).0.phase == WorkPrunePhaseView::Commit(g),
        crate::catalog::target_publications(g.targets).no_duplicates(),
        work_prune_begun(Some(again)) == Ok::<(WorkPruneRun, ActionView), ReplyView>(restart),
        again.keep == request.keep,
        again.remove.to_multiset() == request.remove.to_multiset(),
        receipt.keep == request.keep,
        outside::json_string_list(receipt.works) == Some(request.remove),
        outside::json_string_list(receipt.keys) == Some(crate::removal::keys_of(g.images)),
        receipt.targets == Some(g.targets),
    ensures
        ({
            let keys = crate::removal::keys_of(g.images);
            let (then, action) = restart.0.next(EventView::WorkReceipt(Some(receipt)));
            let reply = ActionView::Reply(
                work_pruned_view(request.remove, keys, g.targets, true),
            );
            if keys.len() > 0 {
                action == ActionView::Delete(keys) && then.next(EventView::Done).1 == reply
            } else {
                action == reply
            }
        }),
{
    lemma_gathers(request, start, events);
    lemma_history(request, start, events);
    crate::catalog::law_accepted_work_prune(request);
    let works = request.remove;
    assert(crate::catalog::target_works(g.targets).contains(works[0]));
    assert(g.targets.len() > 0);
    assert(crate::catalog::good_targets(g.targets, works));
    assert(crate::catalog::good_works(works));
}

proof fn lemma_drop_statements(works: Seq<Seq<char>>, now: Seq<char>)
    ensures
        drop_statements(works, now).len() == 3 * works.len(),
        forall|i: int|
            0 <= i < drop_statements(works, now).len() ==> {
                let s = #[trigger] drop_statements(works, now)[i];
                &&& s.binds.len() > 0
                &&& s.binds.last() == crate::sql::SqlView::Text(works[i / 3])
            },
    decreases works.len(),
{
    if works.len() > 0 {
        let front = works.drop_last();
        let list = drop_statements(front, now);
        let all = drop_statements(works, now);
        lemma_drop_statements(front, now);
        assert forall|i: int| 0 <= i < all.len() implies {
            let s = #[trigger] all[i];
            &&& s.binds.len() > 0
            &&& s.binds.last() == crate::sql::SqlView::Text(works[i / 3])
        } by {
            if i < list.len() {
                assert(all[i] == list[i]);
                assert(front[i / 3] == works[i / 3]);
            } else {
                assert(i / 3 == works.len() - 1);
            }
        }
    }
}

/// An accepted decision takes out every work that it names, by three statements
/// each, and the work that it keeps is none of those that a statement names.
pub proof fn law_kept_work_stays(request: PruneView, now: Seq<char>, i: int)
    requires
        crate::catalog::work_prune_fault(request) is None,
        0 <= i < drop_statements(request.remove, now).len(),
    ensures
        drop_statements(request.remove, now).len() == 3 * request.remove.len(),
        drop_statements(request.remove, now)[i].binds.last() == crate::sql::SqlView::Text(
            request.remove[i / 3],
        ),
        drop_statements(request.remove, now)[i].binds.last() != crate::sql::SqlView::Text(
            request.keep,
        ),
{
    lemma_drop_statements(request.remove, now);
    crate::catalog::law_accepted_work_prune(request);
    assert(request.remove.contains(request.remove[i / 3]));
}

// ---------------------------------------------------------------------------
// What the steps, statements and replies say
// ---------------------------------------------------------------------------

/// Whether a document reads, member by member, as a target.
pub open spec fn reads_as_target(document: JsonView, t: TargetView) -> bool {
    &&& crate::json::member_count(document) == 4
    &&& crate::json::tells(document, "chat_id"@, JsonView::Num(t.chat_id as int))
    &&& crate::json::tells(document, "message_ids"@, JsonView::List(crate::json::number_documents(t.message_ids)))
    &&& crate::json::tells(document, "publication_id"@, JsonView::Text(t.publication_id))
    &&& crate::json::tells(document, "work_id"@, JsonView::Text(t.work_id))
}

/// Whether a list of documents reads as a list of targets, in their order.
pub open spec fn read_as_targets(list: Seq<JsonView>, targets: Seq<TargetView>) -> bool {
    &&& list.len() == targets.len()
    &&& forall|i: int| 0 <= i < list.len() ==> reads_as_target(#[trigger] list[i], targets[i])
}

/// A target is told and recorded with the same members: both read as the target.
pub proof fn law_target_reads_back(t: TargetView)
    ensures
        reads_as_target(told_target(t), t),
        reads_as_target(recorded_target(t), t),
{
    reveal_strlit("chat_id");
    reveal_strlit("message_ids");
    reveal_strlit("publication_id");
    reveal_strlit("work_id");
    assert("chat_id"@.len() != "message_ids"@.len());
    assert("chat_id"@.len() != "publication_id"@.len());
    assert("chat_id"@[0] != "work_id"@[0]);
    assert("message_ids"@.len() != "publication_id"@.len());
    assert("message_ids"@.len() != "work_id"@.len());
    assert("publication_id"@.len() != "work_id"@.len());
    let d = told_target(t);
    let l_d = d->Object_0;
    assert(l_d[0].name == "chat_id"@ && l_d[0].value == JsonView::Num(t.chat_id as int));
    assert(l_d[1].name == "message_ids"@ && l_d[1].value == JsonView::List(crate::json::number_documents(t.message_ids)));
    assert(l_d[2].name == "publication_id"@ && l_d[2].value == JsonView::Text(t.publication_id));
    assert(l_d[3].name == "work_id"@ && l_d[3].value == JsonView::Text(t.work_id));
    assert("publication_id"@.len() != "work_id"@.len());
    assert("publication_id"@.len() != "chat_id"@.len());
    assert("publication_id"@.len() != "message_ids"@.len());
    assert("work_id"@.len() != "message_ids"@.len());
    assert("chat_id"@.len() != "message_ids"@.len());
    let e = recorded_target(t);
    let l_e = e->Object_0;
    assert(l_e[0].name == "publication_id"@ && l_e[0].value == JsonView::Text(t.publication_id));
    assert(l_e[1].name == "work_id"@ && l_e[1].value == JsonView::Text(t.work_id));
    assert(l_e[2].name == "chat_id"@ && l_e[2].value == JsonView::Num(t.chat_id as int));
    assert(l_e[3].name == "message_ids"@ && l_e[3].value == JsonView::List(crate::json::number_documents(t.message_ids)));
}

/// All targets are told and recorded, in their order.
pub proof fn law_targets_read_back(targets: Seq<TargetView>)
    ensures
        recorded_targets(targets) is List,
        read_as_targets(recorded_targets(targets)->List_0, targets),
        told_targets(targets) is List,
        read_as_targets(told_targets(targets)->List_0, targets),
{
    let a = recorded_targets(targets)->List_0;
    let b = told_targets(targets)->List_0;
    assert forall|i: int| 0 <= i < a.len() implies reads_as_target(#[trigger] a[i], targets[i]) by {
        law_target_reads_back(targets[i]);
    }
    assert forall|i: int| 0 <= i < b.len() implies reads_as_target(#[trigger] b[i], targets[i]) by {
        law_target_reads_back(targets[i]);
    }
}

/// Whether a reply names the works, the keys and the messages that a decision
/// removes, and says whether it is a replay.
pub open spec fn names_removed(
    reply: ReplyView,
    works: Seq<Seq<char>>,
    keys: Seq<Seq<char>>,
    targets: Seq<TargetView>,
    replayed: bool,
) -> bool {
    &&& reply.status == 200
    &&& crate::json::member_count(reply.body) == 5
    &&& crate::json::tells(reply.body, "ok"@, JsonView::Bool(true))
    &&& crate::json::tells(reply.body, "removed_r2_keys"@, JsonView::List(crate::json::text_documents(keys)))
    &&& crate::json::tells(reply.body, "removed_works"@, JsonView::List(crate::json::text_documents(works)))
    &&& crate::json::tells(reply.body, "replayed"@, JsonView::Bool(replayed))
    &&& exists|list: Seq<JsonView>| #[trigger]
        crate::json::tells(reply.body, "telegram_targets"@, JsonView::List(list))
            && read_as_targets(list, targets)
}

/// The reply to a decision reads as it should.
pub proof fn law_work_prune_reply(
    works: Seq<Seq<char>>,
    keys: Seq<Seq<char>>,
    targets: Seq<TargetView>,
    replayed: bool,
)
    ensures
        names_removed(
            work_pruned_view(works, keys, targets, replayed),
            works,
            keys,
            targets,
            replayed,
        ),
{
    law_targets_read_back(targets);
    let list = told_targets(targets)->List_0;
    reveal_strlit("ok");
    reveal_strlit("removed_r2_keys");
    reveal_strlit("removed_works");
    reveal_strlit("replayed");
    reveal_strlit("telegram_targets");
    assert("ok"@.len() != "removed_r2_keys"@.len());
    assert("ok"@.len() != "removed_works"@.len());
    assert("ok"@.len() != "replayed"@.len());
    assert("ok"@.len() != "telegram_targets"@.len());
    assert("removed_r2_keys"@.len() != "removed_works"@.len());
    assert("removed_r2_keys"@.len() != "replayed"@.len());
    assert("removed_r2_keys"@.len() != "telegram_targets"@.len());
    assert("removed_works"@.len() != "replayed"@.len());
    assert("removed_works"@.len() != "telegram_targets"@.len());
    assert("replayed"@.len() != "telegram_targets"@.len());
    let d = work_pruned_view(works, keys, targets, replayed).body;
    let l_d = d->Object_0;
    assert(l_d[0].name == "ok"@ && l_d[0].value == JsonView::Bool(true));
    assert(l_d[1].name == "removed_r2_keys"@ && l_d[1].value == JsonView::List(crate::json::text_documents(keys)));
    assert(l_d[2].name == "removed_works"@ && l_d[2].value == JsonView::List(crate::json::text_documents(works)));
    assert(l_d[3].name == "replayed"@ && l_d[3].value == JsonView::Bool(replayed));
    assert(l_d[4].name == "telegram_targets"@ && l_d[4].value == JsonView::List(list));
    assert(crate::json::tells(d, "telegram_targets"@, JsonView::List(list)));
}

/// The transaction of a decision, statement by statement: the backup of each image
/// is recorded; each work of the decision loses its images and its tags and is
/// deleted; each tag that was gathered is counted anew; the receipt comes last,
/// with the decision, the work that is kept, the works, the keys and the messages
/// that go.
#[verifier::rlimit(80)]
pub proof fn law_work_prune_statements(request: PruneView, g: GatheredView, now: Seq<char>)
    ensures
        work_prune_batch(request, g, now).len() == g.images.len() + 3 * request.remove.len() + g.tags.len() + 1,
        forall|i: int|
            0 <= i < g.images.len() ==> crate::sql::says(
                work_prune_batch(request, g, now)[i],
                r#"INSERT INTO catalog_prune_backups
                   (original_r2_key,backup_r2_key,decision_id,work_id,created_at)
                   VALUES (?,?,?,?,?)"#@,
                seq![
                    SqlView::Text((#[trigger] g.images[i]).r2_key),
                    SqlView::Text("review-trash/"@ + crate::keys::directory_name(request.decision_id) + "/"@ + (#[trigger] g.images[i]).r2_key),
                    SqlView::Text(request.decision_id),
                    SqlView::Text((#[trigger] g.images[i]).work_id),
                    SqlView::Text(now),
                ],
            ),
        forall|j: int|
            0 <= j < request.remove.len() ==> {
                &&& crate::sql::says(
                    work_prune_batch(request, g, now)[g.images.len() + 3 * j],
                    "DELETE FROM images WHERE work_id=?"@,
                    seq![
                        SqlView::Text(#[trigger] request.remove[j]),
                    ],
                )
                &&& crate::sql::says(
                    work_prune_batch(request, g, now)[g.images.len() + 3 * j + 1],
                    "DELETE FROM work_tags WHERE work_id=?"@,
                    seq![
                        SqlView::Text(request.remove[j]),
                    ],
                )
                &&& crate::sql::says(
                    work_prune_batch(request, g, now)[g.images.len() + 3 * j + 2],
                    "UPDATE works SET deleted_at=? WHERE id=?"@,
                    seq![
                        SqlView::Text(now),
                        SqlView::Text(request.remove[j]),
                    ],
                )
            },
        forall|k: int|
            0 <= k < g.tags.len() ==> crate::sql::says(
                work_prune_batch(request, g, now)[g.images.len() + 3 * request.remove.len() + k],
                r#"UPDATE tags SET use_count=(
                     SELECT COUNT(*) FROM work_tags WHERE tag=?
                   ) WHERE name=?"#@,
                seq![
                    SqlView::Text(#[trigger] g.tags[k]),
                    SqlView::Text(g.tags[k]),
                ],
            ),
        crate::sql::says(
            work_prune_batch(request, g, now).last(),
            r#"INSERT INTO catalog_work_prune_receipts (
                 decision_id, keep_work_id, remove_work_ids_json, removed_r2_keys_json,
                 telegram_targets_json, telegram_state, telegram_error, created_at,
                 telegram_completed_at
               ) VALUES (?, ?, ?, ?, ?, 'pending', NULL, ?, NULL)"#@,
            seq![
                SqlView::Text(request.decision_id),
                SqlView::Text(request.keep),
                SqlView::Text(outside::json_of_strings(request.remove)),
                SqlView::Text(outside::json_of_strings(crate::removal::keys_of(g.images))),
                SqlView::Text(crate::json::json_text(recorded_targets(g.targets))),
                SqlView::Text(now),
            ],
        ),
{
    let n = g.images.len() as int;
    let r = request.remove.len() as int;
    let batch = work_prune_batch(request, g, now);
    crate::removal::law_lists_of_statements(g.images, g.tags, request.decision_id, now);
    lemma_dropped(request.remove, now);
    let copies = crate::removal::backup_statements(g.images, request.decision_id, now);
    let drops = drop_statements(request.remove, now);
    let counts = crate::removal::recount_statements(g.tags);
    assert forall|i: int| 0 <= i < n implies crate::sql::says(
        batch[i],
        r#"INSERT INTO catalog_prune_backups
                   (original_r2_key,backup_r2_key,decision_id,work_id,created_at)
                   VALUES (?,?,?,?,?)"#@,
        seq![
            SqlView::Text((#[trigger] g.images[i]).r2_key),
            SqlView::Text("review-trash/"@ + crate::keys::directory_name(request.decision_id) + "/"@ + (#[trigger] g.images[i]).r2_key),
            SqlView::Text(request.decision_id),
            SqlView::Text((#[trigger] g.images[i]).work_id),
            SqlView::Text(now),
        ],
    ) by {
        assert(batch[i] == copies[i]);
        crate::removal::law_backup_is_recorded(g.images[i], request.decision_id, now);
    }
    assert forall|j: int| 0 <= j < r implies batch[n + 3 * j] == drops[3 * j] && batch[n + 3 * j + 1]
        == drops[3 * j + 1] && batch[n + 3 * j + 2] == drops[3 * j + 2] && #[trigger] request.remove[j]
        == request.remove[j] by {}
    assert forall|k: int| 0 <= k < g.tags.len() implies batch[n + 3 * r + k] == counts[k]
        && #[trigger] g.tags[k] == g.tags[k] by {}
}

proof fn lemma_dropped(works: Seq<Seq<char>>, now: Seq<char>)
    ensures
        drop_statements(works, now).len() == 3 * works.len(),
        forall|j: int|
            0 <= j < works.len() ==> {
                let list = drop_statements(works, now);
                &&& list[3 * j] == crate::sql::statement(DROP_IMAGES_SQL@).text(#[trigger] works[j])
                &&& list[3 * j + 1] == crate::sql::statement(DROP_TAGS_SQL@).text(works[j])
                &&& list[3 * j + 2] == crate::sql::statement(DELETE_WORK_SQL@).text(now).text(
                    works[j],
                )
            },
    decreases works.len(),
{
    if works.len() > 0 {
        let front = works.drop_last();
        lemma_dropped(front, now);
        let list = drop_statements(works, now);
        let some = drop_statements(front, now);
        assert forall|j: int| 0 <= j < works.len() implies {
            &&& list[3 * j] == crate::sql::statement(DROP_IMAGES_SQL@).text(#[trigger] works[j])
            &&& list[3 * j + 1] == crate::sql::statement(DROP_TAGS_SQL@).text(works[j])
            &&& list[3 * j + 2] == crate::sql::statement(DELETE_WORK_SQL@).text(now).text(works[j])
        } by {
            if j < front.len() {
                assert(front[j] == works[j]);
                assert(list[3 * j] == some[3 * j]);
                assert(list[3 * j + 1] == some[3 * j + 1]);
                assert(list[3 * j + 2] == some[3 * j + 2]);
            }
        }
    }
}

/// The receipt that a decision writes is the one that it finds again: it is
/// recorded under the value by which a decision of the same name looks for it, and
/// so does the report on its messages; the row of the values that were bound leads
/// the same decision, its works in any order, to delete the same keys and to reply
/// with the same works, keys and messages. Lists are taken to read as they were
/// written, which every step that asks for the transaction ensures.
pub proof fn law_work_receipt_is_found_again(
    request: PruneView,
    start: (WorkPruneRun, ActionView),
    events: Seq<EventView>,
    g: GatheredView,
    now: Seq<char>,
    again: PruneView,
    restart: (WorkPruneRun, ActionView),
    row: crate::catalog::WorkReceiptView,
    report: crate::telegram::ResultView,
)
    requires
        work_prune_begun(Some(request)) == Ok::<(WorkPruneRun, ActionView), ReplyView>(start),
        sound_answers(start, events),
        crate::effect::after(start, events).0.phase == WorkPrunePhaseView::Commit(g),
        crate::catalog::target_publications(g.targets).no_duplicates(),
        work_prune_begun(Some(again)) == Ok::<(WorkPruneRun, ActionView), ReplyView>(restart),
        again.decision_id == request.decision_id,
        again.keep == request.keep,
        again.remove.to_multiset() == request.remove.to_multiset(),
        report.decision_id == request.decision_id,
        crate::telegram::result_begun(Some(report)) is Ok,
        SqlView::Text(row.keep) == work_prune_batch(request, g, now).last().binds[1],
        SqlView::Text(row.works) == work_prune_batch(request, g, now).last().binds[2],
        SqlView::Text(row.keys) == work_prune_batch(request, g, now).last().binds[3],
        row.targets == Some(g.targets),
        outside::json_string_list(outside::json_of_strings(request.remove)) == Some(request.remove),
        outside::json_string_list(outside::json_of_strings(crate::removal::keys_of(g.images)))
            == Some(crate::removal::keys_of(g.images)),
    ensures
        ({
            let receipt = work_prune_batch(request, g, now).last();
            let looks = crate::telegram::result_begun(Some(report))->Ok_0.1;
            let keys = crate::removal::keys_of(g.images);
            let (then, action) = restart.0.next(EventView::WorkReceipt(Some(row)));
            let told = if keys.len() > 0 {
                then.next(EventView::Done).1
            } else {
                action
            };
            &&& receipt.sql == r#"INSERT INTO catalog_work_prune_receipts (
                 decision_id, keep_work_id, remove_work_ids_json, removed_r2_keys_json,
                 telegram_targets_json, telegram_state, telegram_error, created_at,
                 telegram_completed_at
               ) VALUES (?, ?, ?, ?, ?, 'pending', NULL, ?, NULL)"#@
            &&& restart.1 is Query
            &&& restart.1->Query_0 == Table::WorkPruneReceipt
            &&& restart.1->Query_1.binds =~= seq![receipt.binds[0]]
            &&& looks is Query
            &&& looks->Query_1.binds =~= seq![receipt.binds[0]]
            &&& receipt.binds[1] == SqlView::Text(request.keep)
            &&& keys.len() > 0 ==> action == ActionView::Delete(keys)
            &&& told is Reply
            &&& names_removed(told->Reply_0, request.remove, keys, g.targets, true)
        }),
{
    law_work_prune_statements(request, g, now);
    law_written_receipt_replays(request, start, events, g, again, restart, row);
    law_work_prune_reply(
        request.remove,
        crate::removal::keys_of(g.images),
        g.targets,
        true,
    );
}

/// The steps of a decision: its receipt is looked for, then the work to keep, then
/// for each work to remove whether it is active, its images, its tags and its
/// publications, and what was found is gathered. Then each image is copied, and
/// the transaction is asked for with all that was gathered; the keys of these
/// images are deleted, and the reply names them.
#[verifier::rlimit(60)]
pub proof fn law_work_prune_steps(
    request: PruneView,
    g: GatheredView,
    images: Seq<CatalogPruneImageRow<Seq<char>>>,
    tags: Seq<Seq<char>>,
    rows: Seq<WorkPublicationRow<Seq<char>>>,
    found: Option<Seq<char>>,
    now: Seq<char>,
    i: int,
    k: int,
)
    requires
        crate::catalog::work_prune_fault(request) is None,
        0 <= i < request.remove.len(),
        0 <= k < g.images.len(),
    ensures
        work_prune_begun(Some(request)) is Ok,
        work_prune_begun(Some(request))->Ok_0.0 == (WorkPruneRun { request, phase: WorkPrunePhaseView::Receipt }),
        crate::effect::queries(
            work_prune_begun(Some(request))->Ok_0.1,
            Table::WorkPruneReceipt,
            r#"SELECT keep_work_id, remove_work_ids_json, removed_r2_keys_json, telegram_targets_json
               FROM catalog_work_prune_receipts WHERE decision_id=?"#@,
            seq![
                SqlView::Text(request.decision_id),
            ],
        ),
        (WorkPruneRun { request, phase: WorkPrunePhaseView::Receipt }).next(EventView::WorkReceipt(None)).0 == (WorkPruneRun { request, phase: WorkPrunePhaseView::Keep }),
        crate::effect::queries(
            (WorkPruneRun { request, phase: WorkPrunePhaseView::Receipt }).next(EventView::WorkReceipt(None)).1,
            Table::ActiveWork,
            "SELECT id FROM works WHERE id=? AND deleted_at IS NULL"@,
            seq![
                SqlView::Text(request.keep),
            ],
        ),
        found != Some(request.keep) ==> crate::effect::refuses(
            (WorkPruneRun { request, phase: WorkPrunePhaseView::Keep }).next(EventView::Text(found)).1,
            "keep work not active"@,
            409,
        ),
        (WorkPruneRun { request, phase: WorkPrunePhaseView::Keep }).next(EventView::Text(Some(request.keep))).0 == (WorkPruneRun { request, phase: WorkPrunePhaseView::Active(nothing(), 0) }),
        crate::effect::queries(
            (WorkPruneRun { request, phase: WorkPrunePhaseView::Keep }).next(EventView::Text(Some(request.keep))).1,
            Table::ActiveWork,
            "SELECT id FROM works WHERE id=? AND deleted_at IS NULL"@,
            seq![
                SqlView::Text(request.remove[0]),
            ],
        ),
        found != Some(request.remove[i]) ==> crate::effect::refuses(
            (WorkPruneRun { request, phase: WorkPrunePhaseView::Active(g, i) }).next(EventView::Text(found)).1,
            "remove work not active: "@ + request.remove[i],
            409,
        ),
        (WorkPruneRun { request, phase: WorkPrunePhaseView::Active(g, i) }).next(EventView::Text(Some(request.remove[i]))).0 == (WorkPruneRun { request, phase: WorkPrunePhaseView::Images(g, i) }),
        crate::effect::queries(
            (WorkPruneRun { request, phase: WorkPrunePhaseView::Active(g, i) }).next(EventView::Text(Some(request.remove[i]))).1,
            Table::PruneImages,
            r#"SELECT i.id,i.work_id,i.r2_key
                   FROM images i JOIN works w ON w.id=i.work_id
                   WHERE i.work_id=? AND w.deleted_at IS NULL
                   ORDER BY i.page_index"#@,
            seq![
                SqlView::Text(request.remove[i]),
            ],
        ),
        ({
            let (then, asks) = (WorkPruneRun { request, phase: WorkPrunePhaseView::Images(g, i) }).next(EventView::Images(images));
            &&& then.phase is Tags && then.phase->Tags_1 == i
            &&& then.phase->Tags_0.images == g.images + images
            &&& then.phase->Tags_0.tags == g.tags
            &&& then.phase->Tags_0.targets == g.targets
            &&& crate::effect::queries(
                asks,
                Table::WorkTags,
                "SELECT tag FROM work_tags WHERE work_id=?"@,
                seq![
                    SqlView::Text(request.remove[i]),
                ],
            )
        }),
        ({
            let (then, asks) = (WorkPruneRun { request, phase: WorkPrunePhaseView::Tags(g, i) }).next(EventView::Texts(tags));
            &&& then.phase is Publications && then.phase->Publications_1 == i
            &&& then.phase->Publications_0.images == g.images
            &&& then.phase->Publications_0.tags == with_texts(g.tags, tags)
            &&& then.phase->Publications_0.targets == g.targets
            &&& crate::effect::queries(
                asks,
                Table::WorkPublications,
                r#"SELECT id, work_id, chat_id, message_ids_json
                   FROM telegram_publications
                   WHERE work_id=? AND deleted_at IS NULL
                   ORDER BY created_at, id"#@,
                seq![
                    SqlView::Text(request.remove[i]),
                ],
            )
        }),
        crate::effect::refuses(
            (WorkPruneRun { request, phase: WorkPrunePhaseView::Publications(g, i) }).next(EventView::Publications(Seq::empty())).1,
            "telegram publication mapping missing: "@ + request.remove[i],
            409,
        ),
        rows.len() > 0 && mapped(rows) is None ==> crate::effect::refuses(
            (WorkPruneRun { request, phase: WorkPrunePhaseView::Publications(g, i) }).next(EventView::Publications(rows)).1,
            "invalid telegram publication mapping"@ + ": "@ + request.remove[i],
            409,
        ),
        rows.len() > 0 && mapped(rows) is Some && i + 1 < request.remove.len() ==> {
            let (then, asks) = (WorkPruneRun { request, phase: WorkPrunePhaseView::Publications(g, i) }).next(EventView::Publications(rows));
            &&& then.phase is Active && then.phase->Active_1 == i + 1
            &&& then.phase->Active_0.images == g.images
            &&& then.phase->Active_0.tags == g.tags
            &&& then.phase->Active_0.targets == g.targets + mapped(rows)->0
            &&& crate::effect::queries(
                asks,
                Table::ActiveWork,
                "SELECT id FROM works WHERE id=? AND deleted_at IS NULL"@,
                seq![
                    SqlView::Text(request.remove[i + 1]),
                ],
            )
        },
        rows.len() > 0 && mapped(rows) is Some && i + 1 == request.remove.len() ==> {
            let (then, asks) = (WorkPruneRun { request, phase: WorkPrunePhaseView::Publications(g, i) }).next(EventView::Publications(rows));
            &&& then.phase is Copying && then.phase->Copying_1 == 0
            &&& then.phase->Copying_0.images == g.images
            &&& then.phase->Copying_0.tags == g.tags
            &&& then.phase->Copying_0.targets == g.targets + mapped(rows)->0
            &&& asks == crate::removal::backup_copy(g.images[0], request.decision_id)
        },
        k + 1 < g.images.len() ==> (WorkPruneRun { request, phase: WorkPrunePhaseView::Copying(g, k) }).next(EventView::Done) == (
            (WorkPruneRun { request, phase: WorkPrunePhaseView::Copying(g, k + 1) }),
            crate::removal::backup_copy(g.images[k + 1], request.decision_id),
        ),
        k + 1 == g.images.len() ==> (WorkPruneRun { request, phase: WorkPrunePhaseView::Copying(g, k) }).next(EventView::Done) == ((WorkPruneRun { request, phase: WorkPrunePhaseView::Time(g) }), ActionView::Clock),
        (WorkPruneRun { request, phase: WorkPrunePhaseView::Time(g) }).next(EventView::Now(now)) == ((WorkPruneRun { request, phase: WorkPrunePhaseView::Commit(g) }), ActionView::Batch(work_prune_batch(request, g, now))),
        (WorkPruneRun { request, phase: WorkPrunePhaseView::Commit(g) }).next(EventView::Done) == (
            (WorkPruneRun { request, phase: WorkPrunePhaseView::Deleting(g) }),
            ActionView::Delete(crate::removal::keys_of(g.images)),
        ),
        ({
            let told = (WorkPruneRun { request, phase: WorkPrunePhaseView::Deleting(g) }).next(EventView::Done).1;
            told is Reply && names_removed(
                told->Reply_0,
                request.remove,
                crate::removal::keys_of(g.images),
                g.targets,
                false,
            )
        }),
{
    crate::effect::law_refusals_say_why("keep work not active"@, 409);
    crate::effect::law_refusals_say_why("remove work not active: "@ + request.remove[i], 409);
    crate::effect::law_refusals_say_why(
        "telegram publication mapping missing: "@ + request.remove[i],
        409,
    );
    crate::effect::law_refusals_say_why(
        "invalid telegram publication mapping"@ + ": "@ + request.remove[i],
        409,
    );
    law_work_prune_reply(
        request.remove,
        crate::removal::keys_of(g.images),
        g.targets,
        false,
    );
}

/// The messages of some publications are mapped one for one: each target is of
/// its own publication, work and chat, with the messages that its list reads as.
pub proof fn law_publications_are_mapped(rows: Seq<WorkPublicationRow<Seq<char>>>)
    ensures
        mapped(rows) is Some <==> forall|i: int|
            0 <= i < rows.len() ==> crate::catalog::mapping(
                outside::json_i64_list((#[trigger] rows[i]).message_ids_json),
            ) is Some,
        mapped(rows) is Some ==> {
            &&& mapped(rows)->0.len() == rows.len()
            &&& forall|i: int|
                0 <= i < rows.len() ==> {
                    let t = mapped(rows)->0[i];
                    &&& t.publication_id == (#[trigger] rows[i]).id
                    &&& t.work_id == rows[i].work_id
                    &&& t.chat_id == rows[i].chat_id
                    &&& outside::json_i64_list(rows[i].message_ids_json) == Some(t.message_ids)
                }
        },
    decreases rows.len(),
{
    if rows.len() > 0 {
        let front = rows.drop_last();
        law_publications_are_mapped(front);
        assert forall|i: int| 0 <= i < front.len() implies #[trigger] front[i] == rows[i] by {}
        if mapped(rows) is Some {
            assert forall|i: int| 0 <= i < rows.len() implies {
                let t = mapped(rows)->0[i];
                &&& t.publication_id == (#[trigger] rows[i]).id
                &&& t.work_id == rows[i].work_id
                &&& t.chat_id == rows[i].chat_id
                &&& outside::json_i64_list(rows[i].message_ids_json) == Some(t.message_ids)
            } by {
                if i < front.len() {
                    assert(front[i] == rows[i]);
                    assert(mapped(rows)->0[i] == mapped(front)->0[i]);
                }
            }
            assert forall|i: int| 0 <= i < rows.len() implies crate::catalog::mapping(
                outside::json_i64_list((#[trigger] rows[i]).message_ids_json),
            ) is Some by {
                if i < front.len() {
                    assert(front[i] == rows[i]);
                }
            }
        } else if forall|i: int|
            0 <= i < rows.len() ==> crate::catalog::mapping(
                outside::json_i64_list((#[trigger] rows[i]).message_ids_json),
            ) is Some {
            assert forall|i: int| 0 <= i < front.len() implies crate::catalog::mapping(
                outside::json_i64_list((#[trigger] front[i]).message_ids_json),
            ) is Some by {
                assert(front[i] == rows[i]);
            }
            assert(rows[rows.len() - 1] == rows.last());
        }
    }
}

/// Nothing is gathered at first; more images and more messages go behind those
/// that are there.
pub proof fn law_gathering(
    g: GatheredView,
    rows: Seq<CatalogPruneImageRow<Seq<char>>>,
    more: Seq<TargetView>,
)
    ensures
        nothing().images.len() == 0,
        nothing().tags.len() == 0,
        nothing().targets.len() == 0,
        g.with_images(rows).images == g.images + rows,
        g.with_targets(more).targets == g.targets + more,
{
}

/// A decision answers or fails in its last step, and in no other; what was asked of it
/// never changes, and once it is over every event is unexpected.
pub proof fn law_work_prune_ends(run: WorkPruneRun, event: EventView)
    ensures
        run.next(event).0.request == run.request,
        run.next(event).0.phase is End <==> run.next(event).1 is Reply || run.next(event).1 is Fail,
        run.phase is End && event !is Failed ==> run.next(event).1 == ActionView::Fail(
            "unexpected event"@,
        ),
{
}

} // verus!
