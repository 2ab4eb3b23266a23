//! What removing images and works has in common: backups, statements, lists of
//! keys.

use crate::effect::{Action, ActionView, EventView, Machine, Table};
use crate::keys::catalog_backup_key;
use crate::outside;
use crate::rows::CatalogPruneImageRow;
use crate::sql::{add_statement, no_statements, SqlView, Statement, StatementView};
use crate::text;
use vstd::prelude::*;

verus! {

/// Records the backup of an image.
pub const BACKUP_SQL: &'static str = r#"INSERT INTO catalog_prune_backups
                   (original_r2_key,backup_r2_key,decision_id,work_id,created_at)
                   VALUES (?,?,?,?,?)"#;

/// Reads the images of an active work in the order of its pages.
pub const WORK_IMAGES_SQL: &'static str = r#"SELECT i.id,i.work_id,i.r2_key
                   FROM images i JOIN works w ON w.id=i.work_id
                   WHERE i.work_id=? AND w.deleted_at IS NULL
                   ORDER BY i.page_index"#;

/// Reads the tags of a work.
pub const WORK_TAGS_SQL: &'static str = "SELECT tag FROM work_tags WHERE work_id=?";

/// Removes the images of a work.
pub const DROP_IMAGES_SQL: &'static str = "DELETE FROM images WHERE work_id=?";

/// Removes the tags of a work.
pub const DROP_TAGS_SQL: &'static str = "DELETE FROM work_tags WHERE work_id=?";

/// Marks a work as deleted.
pub const DELETE_WORK_SQL: &'static str = "UPDATE works SET deleted_at=? WHERE id=?";

/// Counts the uses of a tag anew.
pub const RECOUNT_TAG_SQL: &'static str = r#"UPDATE tags SET use_count=(
                     SELECT COUNT(*) FROM work_tags WHERE tag=?
                   ) WHERE name=?"#;

/// Reads a work that is not deleted.
pub const ACTIVE_WORK_SQL: &'static str = "SELECT id FROM works WHERE id=? AND deleted_at IS NULL";

/// The keys of some images.
pub open spec fn keys_of(rows: Seq<CatalogPruneImageRow<Seq<char>>>) -> Seq<Seq<char>> {
    rows.map_values(|r: CatalogPruneImageRow<Seq<char>>| r.r2_key)
}

/// The keys of some images.
pub fn row_keys(rows: &[CatalogPruneImageRow<String>]) -> (r: Vec<String>)
    ensures
        text::texts(r@) == keys_of(crate::rows::views(rows@)),
{
    let mut out: Vec<String> = Vec::new();
    let mut i: usize = 0;
    let ghost want = keys_of(crate::rows::views(rows@));
    assert(text::texts(out@) =~= want.take(0));
    while i < rows.len()
        invariant
            i <= rows@.len(),
            want == keys_of(crate::rows::views(rows@)),
            text::texts(out@) == want.take(i as int),
        decreases rows@.len() - i,
    {
        let ghost before = text::texts(out@);
        out.push(rows[i].r2_key.clone());
        assert(text::texts(out@) =~= before.push(rows@[i as int].r2_key@));
        assert(want.take(i + 1) =~= before.push(rows@[i as int].r2_key@));
        i += 1;
    }
    assert(want.take(i as int) =~= want);
    out
}

/// Copies an image to the backup that a decision makes of it.
pub open spec fn backup_copy(
    row: CatalogPruneImageRow<Seq<char>>,
    decision_id: Seq<char>,
) -> ActionView {
    ActionView::Copy(row.r2_key, crate::keys::backup_key(decision_id, row.r2_key))
}

/// Copies an image to the backup that a decision makes of it.
pub fn copy_to_backup(row: &CatalogPruneImageRow<String>, decision_id: &str) -> (r: Action)
    ensures
        r@ == backup_copy(row@, decision_id@),
{
    Action::Copy(row.r2_key.clone(), catalog_backup_key(decision_id, row.r2_key.as_str()))
}

/// Records the backup of an image.
pub open spec fn backup_statement(
    row: CatalogPruneImageRow<Seq<char>>,
    decision_id: Seq<char>,
    now: Seq<char>,
) -> StatementView {
    crate::sql::statement(BACKUP_SQL@).text(row.r2_key).text(
        crate::keys::backup_key(decision_id, row.r2_key),
    ).text(decision_id).text(row.work_id).text(now)
}

/// Records the backup of an image.
pub fn record_backup(row: &CatalogPruneImageRow<String>, decision_id: &str, now: &str) -> (r:
    Statement)
    ensures
        r@ == backup_statement(row@, decision_id@, now@),
{
    let backup = catalog_backup_key(decision_id, row.r2_key.as_str());
    Statement::new(BACKUP_SQL).text(row.r2_key.as_str()).text(backup.as_str()).text(
        decision_id,
    ).text(row.work_id.as_str()).text(now)
}

/// Records the backups of some images.
pub open spec fn backup_statements(
    rows: Seq<CatalogPruneImageRow<Seq<char>>>,
    decision_id: Seq<char>,
    now: Seq<char>,
) -> Seq<StatementView> {
    rows.map_values(|r: CatalogPruneImageRow<Seq<char>>| backup_statement(r, decision_id, now))
}

/// Records the backups of some images.
pub fn record_backups(rows: &[CatalogPruneImageRow<String>], decision_id: &str, now: &str) -> (r:
    Vec<Statement>)
    ensures
        crate::sql::statement_views(r@) == backup_statements(
            crate::rows::views(rows@),
            decision_id@,
            now@,
        ),
{
    let mut out = no_statements();
    let mut i: usize = 0;
    let ghost want = backup_statements(crate::rows::views(rows@), decision_id@, now@);
    assert(want.take(0) =~= Seq::<StatementView>::empty());
    while i < rows.len()
        invariant
            i <= rows@.len(),
            want == backup_statements(crate::rows::views(rows@), decision_id@, now@),
            crate::sql::statement_views(out@) == want.take(i as int),
        decreases rows@.len() - i,
    {
        add_statement(&mut out, record_backup(&rows[i], decision_id, now));
        assert(want[i as int] == backup_statement(rows@[i as int]@, decision_id@, now@));
        assert(want.take(i + 1) =~= want.take(i as int).push(want[i as int]));
        i += 1;
    }
    assert(want.take(i as int) =~= want);
    out
}

/// Counts the uses of a tag anew.
pub open spec fn recount_statement(tag: Seq<char>) -> StatementView {
    crate::sql::statement(RECOUNT_TAG_SQL@).text(tag).text(tag)
}

/// Counts the uses of some tags anew.
pub open spec fn recount_statements(tags: Seq<Seq<char>>) -> Seq<StatementView> {
    tags.map_values(|t: Seq<char>| recount_statement(t))
}

/// Counts the uses of some tags anew.
pub fn recount_tags(tags: &[String]) -> (r: Vec<Statement>)
    ensures
        crate::sql::statement_views(r@) == recount_statements(text::texts(tags@)),
{
    let mut out = no_statements();
    let mut i: usize = 0;
    let ghost want = recount_statements(text::texts(tags@));
    assert(want.take(0) =~= Seq::<StatementView>::empty());
    while i < tags.len()
        invariant
            i <= tags@.len(),
            want == recount_statements(text::texts(tags@)),
            crate::sql::statement_views(out@) == want.take(i as int),
        decreases tags@.len() - i,
    {
        let tag = tags[i].as_str();
        add_statement(&mut out, Statement::new(RECOUNT_TAG_SQL).text(tag).text(tag));
        assert(want[i as int] == recount_statement(tags@[i as int]@));
        assert(want.take(i + 1) =~= want.take(i as int).push(want[i as int]));
        i += 1;
    }
    assert(want.take(i as int) =~= want);
    out
}

/// A list of texts as it is recorded; it reads back as the same list.
pub fn recorded_list(list: &[String]) -> (r: String)
    ensures
        r@ == outside::json_of_strings(text::texts(list@)),
        outside::json_string_list(r@) == Some(text::texts(list@)),
{
    match outside::write_string_list(list) {
        Some(t) => t,
        None => String::new(),
    }
}

/// Reads a work that is not deleted.
pub open spec fn active_work(work_id: Seq<char>) -> ActionView {
    ActionView::Query(Table::ActiveWork, crate::sql::statement(ACTIVE_WORK_SQL@).text(work_id))
}

/// Reads a work that is not deleted.
pub fn find_active_work(work_id: &str) -> (r: Action)
    ensures
        r@ == active_work(work_id@),
{
    Action::Query(Table::ActiveWork, Statement::new(ACTIVE_WORK_SQL).text(work_id))
}

/// Reads the images of an active work.
pub open spec fn work_images(work_id: Seq<char>) -> ActionView {
    ActionView::Query(Table::PruneImages, crate::sql::statement(WORK_IMAGES_SQL@).text(work_id))
}

/// Reads the images of an active work.
pub fn find_work_images(work_id: &str) -> (r: Action)
    ensures
        r@ == work_images(work_id@),
{
    Action::Query(Table::PruneImages, Statement::new(WORK_IMAGES_SQL).text(work_id))
}

/// Reads the tags of a work.
pub open spec fn work_tags(work_id: Seq<char>) -> ActionView {
    ActionView::Query(Table::WorkTags, crate::sql::statement(WORK_TAGS_SQL@).text(work_id))
}

/// Reads the tags of a work.
pub fn find_work_tags(work_id: &str) -> (r: Action)
    ensures
        r@ == work_tags(work_id@),
{
    Action::Query(Table::WorkTags, Statement::new(WORK_TAGS_SQL).text(work_id))
}

/// Whether all the given images were copied to the backups of a decision.
pub open spec fn all_copied<M: Machine>(
    start: (M, ActionView),
    events: Seq<EventView>,
    decision_id: Seq<char>,
    rows: Seq<CatalogPruneImageRow<Seq<char>>>,
) -> bool {
    forall|i: int|
        0 <= i < rows.len() ==> crate::effect::was_done(
            start,
            events,
            backup_copy(#[trigger] rows[i], decision_id),
        )
}

/// What was copied stays copied.
pub proof fn lemma_copied_stays<M: Machine>(
    start: (M, ActionView),
    events: Seq<EventView>,
    decision_id: Seq<char>,
    rows: Seq<CatalogPruneImageRow<Seq<char>>>,
)
    requires
        events.len() > 0,
        all_copied(start, events.drop_last(), decision_id, rows),
    ensures
        all_copied(start, events, decision_id, rows),
{
    assert forall|i: int| 0 <= i < rows.len() implies crate::effect::was_done(
        start,
        events,
        backup_copy(#[trigger] rows[i], decision_id),
    ) by {
        crate::effect::lemma_done_stays(start, events, backup_copy(rows[i], decision_id));
    }
}

/// One more image was copied just now.
pub proof fn lemma_copied_now<M: Machine>(
    start: (M, ActionView),
    events: Seq<EventView>,
    decision_id: Seq<char>,
    rows: Seq<CatalogPruneImageRow<Seq<char>>>,
    k: int,
)
    requires
        events.len() > 0,
        events.last() == EventView::Done,
        0 <= k < rows.len(),
        crate::effect::after(start, events.drop_last()).1 == backup_copy(rows[k], decision_id),
        all_copied(start, events.drop_last(), decision_id, rows.take(k)),
    ensures
        all_copied(start, events, decision_id, rows.take(k + 1)),
        k + 1 >= rows.len() ==> all_copied(start, events, decision_id, rows),
{
    lemma_copied_stays(start, events, decision_id, rows.take(k));
    crate::effect::lemma_done_now(start, events);
    assert forall|i: int| 0 <= i < k + 1 implies crate::effect::was_done(
        start,
        events,
        backup_copy(#[trigger] rows.take(k + 1)[i], decision_id),
    ) by {
        if i < k {
            assert(rows.take(k)[i] == rows.take(k + 1)[i]);
        }
    }
    if k + 1 >= rows.len() {
        assert(rows.take(k + 1) =~= rows);
    }
}

// ---------------------------------------------------------------------------
// What the shared steps say
// ---------------------------------------------------------------------------

/// A backup is a copy of the object itself, in the directory of the decision, and
/// it is recorded with both keys, the decision and the work.
pub proof fn law_backup_is_recorded(
    row: CatalogPruneImageRow<Seq<char>>,
    decision_id: Seq<char>,
    now: Seq<char>,
)
    ensures
        backup_copy(row, decision_id) is Copy,
        backup_copy(row, decision_id)->Copy_0 == row.r2_key,
        SqlView::Text(backup_copy(row, decision_id)->Copy_1) == backup_statement(
            row,
            decision_id,
            now,
        ).binds[1],
        crate::sql::says(
            backup_statement(row, decision_id, now),
            r#"INSERT INTO catalog_prune_backups
                   (original_r2_key,backup_r2_key,decision_id,work_id,created_at)
                   VALUES (?,?,?,?,?)"#@,
            seq![
                SqlView::Text(row.r2_key),
                SqlView::Text("review-trash/"@ + crate::keys::directory_name(decision_id) + "/"@ + row.r2_key),
                SqlView::Text(decision_id),
                SqlView::Text(row.work_id),
                SqlView::Text(now),
            ],
        ),
{
    reveal_strlit("/");
    assert("/"@ =~= seq!['/']);
    assert(crate::keys::backup_key(decision_id, row.r2_key) =~= "review-trash/"@ + crate::keys::directory_name(decision_id) + "/"@ + row.r2_key);
}

/// Some images are backed up one by one, some tags counted one by one, each as
/// itself and in the order of the list.
pub proof fn law_lists_of_statements(
    rows: Seq<CatalogPruneImageRow<Seq<char>>>,
    tags: Seq<Seq<char>>,
    decision_id: Seq<char>,
    now: Seq<char>,
)
    ensures
        backup_statements(rows, decision_id, now).len() == rows.len(),
        forall|i: int|
            0 <= i < rows.len() ==> backup_statements(rows, decision_id, now)[i]
                == backup_statement(#[trigger] rows[i], decision_id, now),
        recount_statements(tags).len() == tags.len(),
        forall|k: int|
            0 <= k < tags.len() ==> crate::sql::says(
                recount_statements(tags)[k],
                r#"UPDATE tags SET use_count=(
                     SELECT COUNT(*) FROM work_tags WHERE tag=?
                   ) WHERE name=?"#@,
                seq![
                    SqlView::Text(#[trigger] tags[k]),
                    SqlView::Text(tags[k]),
                ],
            ),
        keys_of(rows).len() == rows.len(),
        forall|i: int| 0 <= i < rows.len() ==> keys_of(rows)[i] == (#[trigger] rows[i]).r2_key,
{
}

/// A work is looked for by its own name: whether it is active, its images in the
/// order of their pages, and its tags.
pub proof fn law_work_questions(work_id: Seq<char>)
    ensures
        crate::effect::queries(
            active_work(work_id),
            Table::ActiveWork,
            "SELECT id FROM works WHERE id=? AND deleted_at IS NULL"@,
            seq![
                SqlView::Text(work_id),
            ],
        ),
        crate::effect::queries(
            work_images(work_id),
            Table::PruneImages,
            r#"SELECT i.id,i.work_id,i.r2_key
                   FROM images i JOIN works w ON w.id=i.work_id
                   WHERE i.work_id=? AND w.deleted_at IS NULL
                   ORDER BY i.page_index"#@,
            seq![
                SqlView::Text(work_id),
            ],
        ),
        crate::effect::queries(
            work_tags(work_id),
            Table::WorkTags,
            "SELECT tag FROM work_tags WHERE work_id=?"@,
            seq![
                SqlView::Text(work_id),
            ],
        ),
{
}

} // verus!
