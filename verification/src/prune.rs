//! Removing images that look like another one. Each image is copied to a backup,
//! then one transaction takes all of them out of the catalog, then the objects
//! are deleted. A decision that was carried out is only finished again.

use crate::catalog::{validate_catalog_prune, CatalogPruneRequest, PruneView};
use crate::effect::{give_up, refusing, Action, ActionView, Event, EventView, Machine, Table};
use crate::json::{refusal, success, Json, JsonView, Members, Reply, ReplyView};
use crate::outside;
use crate::removal::{copy_to_backup, record_backup, recorded_list};
use crate::rows::CatalogPruneImageRow;
use crate::sql::{add_statement, add_statements, no_statements, SqlView, Statement, StatementView};
use crate::text;
use vstd::prelude::*;

verus! {

/// Reads the receipt of a decision.
pub const PRUNE_RECEIPT_SQL: &'static str =
    "SELECT removed_json FROM catalog_prune_receipts WHERE decision_id = ?";

/// Reads an image of a work that is not deleted.
pub const ACTIVE_IMAGE_SQL: &'static str = r#"
        SELECT i.id,i.work_id,i.r2_key
        FROM images i JOIN works w ON w.id=i.work_id
        WHERE i.r2_key=? AND w.deleted_at IS NULL
    "#;

/// Removes an image.
pub const DROP_IMAGE_SQL: &'static str = "DELETE FROM images WHERE id=? AND r2_key=?";

/// Counts the pages of a work anew.
pub const RECOUNT_PAGES_SQL: &'static str =
    "UPDATE works SET page_count=(SELECT COUNT(*) FROM images WHERE work_id=?) WHERE id=?";

/// Marks a work as deleted that has no pages left.
pub const DELETE_EMPTY_SQL: &'static str =
    "UPDATE works SET deleted_at=? WHERE id=? AND NOT EXISTS (SELECT 1 FROM images WHERE work_id=?)";

/// Records a decision that was carried out.
pub const INSERT_PRUNE_RECEIPT_SQL: &'static str =
    "INSERT INTO catalog_prune_receipts (decision_id,keep_r2_key,removed_json,created_at) VALUES (?,?,?,?)";

/// Reads an image of a work that is not deleted.
pub open spec fn active_image(key: Seq<char>) -> ActionView {
    ActionView::Query(Table::PruneImage, crate::sql::statement(ACTIVE_IMAGE_SQL@).text(key))
}

fn find_active_image(key: &str) -> (r: Action)
    ensures
        r@ == active_image(key@),
{
    Action::Query(Table::PruneImage, Statement::new(ACTIVE_IMAGE_SQL).text(key))
}

/// The works of some images, each once, in the order in which they come up.
pub open spec fn distinct_works(rows: Seq<CatalogPruneImageRow<Seq<char>>>) -> Seq<Seq<char>>
    decreases rows.len(),
{
    if rows.len() == 0 {
        Seq::empty()
    } else {
        let front = distinct_works(rows.drop_last());
        if front.contains(rows.last().work_id) {
            front
        } else {
            front.push(rows.last().work_id)
        }
    }
}

fn works_of(rows: &[CatalogPruneImageRow<String>]) -> (r: Vec<String>)
    ensures
        text::texts(r@) == distinct_works(crate::rows::views(rows@)),
{
    let mut out: Vec<String> = Vec::new();
    let mut i: usize = 0;
    let ghost all = crate::rows::views(rows@);
    assert(all.take(0) =~= Seq::<CatalogPruneImageRow<Seq<char>>>::empty());
    assert(text::texts(out@) =~= Seq::<Seq<char>>::empty());
    while i < rows.len()
        invariant
            i <= rows@.len(),
            all == crate::rows::views(rows@),
            text::texts(out@) == distinct_works(all.take(i as int)),
        decreases rows@.len() - i,
    {
        assert(all.take(i + 1).drop_last() =~= all.take(i as int));
        assert(all.take(i + 1).last() == rows@[i as int]@);
        let ghost before = text::texts(out@);
        if !text::list_has(out.as_slice(), rows[i].work_id.as_str()) {
            out.push(rows[i].work_id.clone());
            assert(text::texts(out@) =~= before.push(rows@[i as int].work_id@));
        }
        i += 1;
    }
    assert(all.take(i as int) =~= all);
    out
}

/// Every work that loses an image is counted anew, and none of them twice.
pub proof fn law_each_work_once(rows: Seq<CatalogPruneImageRow<Seq<char>>>)
    ensures
        distinct_works(rows).no_duplicates(),
        forall|i: int|
            0 <= i < rows.len() ==> distinct_works(rows).contains(#[trigger] rows[i].work_id),
    decreases rows.len(),
{
    if rows.len() > 0 {
        let front = rows.drop_last();
        let list = distinct_works(front);
        let all = distinct_works(rows);
        law_each_work_once(front);
        if !list.contains(rows.last().work_id) {
            assert(all[list.len() as int] == rows.last().work_id);
            assert forall|i: int, j: int|
                0 <= i < all.len() && 0 <= j < all.len() && i != j implies all[i] != all[j] by {
                if i < list.len() {
                    assert(all[i] == list[i]);
                }
                if j < list.len() {
                    assert(all[j] == list[j]);
                }
            }
        }
        assert forall|i: int| 0 <= i < rows.len() implies all.contains(
            #[trigger] rows[i].work_id,
        ) by {
            if i < front.len() {
                assert(front[i] == rows[i]);
                let k = choose|k: int| 0 <= k < list.len() && list[k] == front[i].work_id;
                assert(all[k] == list[k]);
            }
        }
    }
}

/// Records the backup of each image and removes it.
pub open spec fn image_statements(
    rows: Seq<CatalogPruneImageRow<Seq<char>>>,
    decision_id: Seq<char>,
    now: Seq<char>,
) -> Seq<StatementView>
    decreases rows.len(),
{
    if rows.len() == 0 {
        Seq::empty()
    } else {
        image_statements(rows.drop_last(), decision_id, now).push(
            crate::removal::backup_statement(rows.last(), decision_id, now),
        ).push(
            crate::sql::statement(DROP_IMAGE_SQL@).text(rows.last().id).text(rows.last().r2_key),
        )
    }
}

/// Counts the pages of each work anew, and deletes it where none are left.
pub open spec fn work_statements(works: Seq<Seq<char>>, now: Seq<char>) -> Seq<StatementView>
    decreases works.len(),
{
    if works.len() == 0 {
        Seq::empty()
    } else {
        work_statements(works.drop_last(), now).push(
            crate::sql::statement(RECOUNT_PAGES_SQL@).text(works.last()).text(works.last()),
        ).push(
            crate::sql::statement(DELETE_EMPTY_SQL@).text(now).text(works.last()).text(
                works.last(),
            ),
        )
    }
}

/// Records that a decision was carried out.
pub open spec fn receipt_statement(request: PruneView, now: Seq<char>) -> StatementView {
    crate::sql::statement(INSERT_PRUNE_RECEIPT_SQL@).text(request.decision_id).text(
        request.keep,
    ).text(outside::json_of_strings(request.remove)).text(now)
}

/// The transaction that takes the images out of the catalog.
pub open spec fn prune_batch(
    request: PruneView,
    rows: Seq<CatalogPruneImageRow<Seq<char>>>,
    now: Seq<char>,
) -> Seq<StatementView> {
    (image_statements(rows, request.decision_id, now) + work_statements(
        distinct_works(rows),
        now,
    )).push(receipt_statement(request, now))
}

fn image_batch(rows: &[CatalogPruneImageRow<String>], decision_id: &str, now: &str) -> (r: Vec<
    Statement,
>)
    ensures
        crate::sql::statement_views(r@) == image_statements(
            crate::rows::views(rows@),
            decision_id@,
            now@,
        ),
{
    let mut out = no_statements();
    let mut i: usize = 0;
    let ghost all = crate::rows::views(rows@);
    assert(all.take(0) =~= Seq::<CatalogPruneImageRow<Seq<char>>>::empty());
    while i < rows.len()
        invariant
            i <= rows@.len(),
            all == crate::rows::views(rows@),
            crate::sql::statement_views(out@) == image_statements(
                all.take(i as int),
                decision_id@,
                now@,
            ),
        decreases rows@.len() - i,
    {
        assert(all.take(i + 1).drop_last() =~= all.take(i as int));
        assert(all.take(i + 1).last() == rows@[i as int]@);
        add_statement(&mut out, record_backup(&rows[i], decision_id, now));
        add_statement(
            &mut out,
            Statement::new(DROP_IMAGE_SQL).text(rows[i].id.as_str()).text(rows[i].r2_key.as_str()),
        );
        i += 1;
    }
    assert(all.take(i as int) =~= all);
    out
}

fn work_batch(works: &[String], now: &str) -> (r: Vec<Statement>)
    ensures
        crate::sql::statement_views(r@) == work_statements(text::texts(works@), now@),
{
    let mut out = no_statements();
    let mut i: usize = 0;
    let ghost all = text::texts(works@);
    assert(all.take(0) =~= Seq::<Seq<char>>::empty());
    while i < works.len()
        invariant
            i <= works@.len(),
            all == text::texts(works@),
            crate::sql::statement_views(out@) == work_statements(all.take(i as int), now@),
        decreases works@.len() - i,
    {
        assert(all.take(i + 1).drop_last() =~= all.take(i as int));
        assert(all.take(i + 1).last() == works@[i as int]@);
        let work = works[i].as_str();
        add_statement(&mut out, Statement::new(RECOUNT_PAGES_SQL).text(work).text(work));
        add_statement(&mut out, Statement::new(DELETE_EMPTY_SQL).text(now).text(work).text(work));
        i += 1;
    }
    assert(all.take(i as int) =~= all);
    out
}

fn removal_batch(
    request: &CatalogPruneRequest,
    rows: &[CatalogPruneImageRow<String>],
    now: &str,
) -> (r: Vec<Statement>)
    ensures
        crate::sql::statement_views(r@) == prune_batch(request@, crate::rows::views(rows@), now@),
        outside::json_string_list(outside::json_of_strings(request@.remove)) == Some(
            request@.remove,
        ),
{
    let mut out = image_batch(rows, request.decision_id.as_str(), now);
    let works = works_of(rows);
    add_statements(&mut out, work_batch(works.as_slice(), now));
    let removed = recorded_list(request.remove_r2_keys.as_slice());
    add_statement(
        &mut out,
        Statement::new(INSERT_PRUNE_RECEIPT_SQL).text(request.decision_id.as_str()).text(
            request.keep_r2_key.as_str(),
        ).text(removed.as_str()).text(now),
    );
    out
}

/// The keys that a receipt lists; none where the list cannot be read.
pub open spec fn listed(removed: Option<Seq<Seq<char>>>) -> Seq<Seq<char>> {
    match removed {
        Some(list) => list,
        None => Seq::empty(),
    }
}

/// The keys that a receipt lists; none where the list cannot be read.
pub fn listed_keys(removed: Option<Vec<String>>) -> (r: Vec<String>)
    ensures
        text::texts(r@) == listed(outside::opt_texts(removed)),
{
    match removed {
        Some(list) => list,
        None => {
            let none: Vec<String> = Vec::new();
            assert(text::texts(none@) =~= Seq::<Seq<char>>::empty());
            none
        },
    }
}

/// The reply to a decision that was carried out.
pub open spec fn pruned_view(removed: nat, replayed: bool) -> ReplyView {
    crate::json::success_view(
        crate::json::no_members().with("ok"@, JsonView::Bool(true)).with(
            "removed"@,
            JsonView::Num(removed as int),
        ).with("replayed"@, JsonView::Bool(replayed)),
    )
}

fn pruned_reply(removed: usize, replayed: bool) -> (r: Reply)
    ensures
        r@ == pruned_view(removed as nat, replayed),
{
    success(
        Members::new().with("ok", Json::Bool(true)).with("removed", Json::Num(removed as i128)).with(
            "replayed",
            Json::Bool(replayed),
        ),
    )
}

/// How far a decision is.
pub enum PrunePhase {
    /// The receipt of the decision is read.
    Receipt,
    /// The objects that the receipt lists are deleted.
    Replay(usize),
    /// The image to keep is looked for.
    Keep,
    /// The images to remove are looked for, after those that were found.
    Rows(Vec<CatalogPruneImageRow<String>>),
    /// An image is copied.
    Copying(Vec<CatalogPruneImageRow<String>>, usize),
    /// The clock is asked.
    Time(Vec<CatalogPruneImageRow<String>>),
    /// The transaction runs.
    Commit,
    /// The objects are deleted.
    Deleting,
    /// All is said.
    End,
}

/// The mathematical value of a [`PrunePhase`].
pub enum PrunePhaseView {
    Receipt,
    Replay(nat),
    Keep,
    Rows(Seq<CatalogPruneImageRow<Seq<char>>>),
    Copying(Seq<CatalogPruneImageRow<Seq<char>>>, int),
    Time(Seq<CatalogPruneImageRow<Seq<char>>>),
    Commit,
    Deleting,
    End,
}

impl View for PrunePhase {
    type V = PrunePhaseView;

    open spec fn view(&self) -> PrunePhaseView {
        match self {
            PrunePhase::Receipt => PrunePhaseView::Receipt,
            PrunePhase::Replay(n) => PrunePhaseView::Replay(*n as nat),
            PrunePhase::Keep => PrunePhaseView::Keep,
            PrunePhase::Rows(rows) => PrunePhaseView::Rows(crate::rows::views(rows@)),
            PrunePhase::Copying(rows, i) => PrunePhaseView::Copying(
                crate::rows::views(rows@),
                *i as int,
            ),
            PrunePhase::Time(rows) => PrunePhaseView::Time(crate::rows::views(rows@)),
            PrunePhase::Commit => PrunePhaseView::Commit,
            PrunePhase::Deleting => PrunePhaseView::Deleting,
            PrunePhase::End => PrunePhaseView::End,
        }
    }
}

/// A decision on its way.
pub struct Prune {
    request: CatalogPruneRequest,
    phase: PrunePhase,
}

/// The mathematical value of a [`Prune`].
pub struct PruneRun {
    pub request: PruneView,
    pub phase: PrunePhaseView,
}

impl View for Prune {
    type V = PruneRun;

    closed spec fn view(&self) -> PruneRun {
        PruneRun { request: self.request@, phase: self.phase@ }
    }
}

impl PruneRun {
    /// Something is to be removed, and only images that were found are copied.
    pub open spec fn well_formed(self) -> bool {
        &&& 0 < self.request.remove.len()
        &&& match self.phase {
            PrunePhaseView::Rows(rows) => rows.len() < self.request.remove.len(),
            PrunePhaseView::Copying(rows, i) => 0 <= i < rows.len(),
            _ => true,
        }
    }

    /// One more step.
    pub open spec fn goes(self, phase: PrunePhaseView, action: ActionView) -> (
        PruneRun,
        ActionView,
    ) {
        (PruneRun { request: self.request, phase }, action)
    }

    /// The last step.
    pub open spec fn ends(self, action: ActionView) -> (PruneRun, ActionView) {
        self.goes(PrunePhaseView::End, action)
    }

    /// What follows once an image to remove was found.
    pub open spec fn found(
        self,
        rows: Seq<CatalogPruneImageRow<Seq<char>>>,
        row: CatalogPruneImageRow<Seq<char>>,
    ) -> (PruneRun, ActionView) {
        let rows = rows.push(row);
        if rows.len() < self.request.remove.len() {
            self.goes(
                PrunePhaseView::Rows(rows),
                active_image(self.request.remove[rows.len() as int]),
            )
        } else {
            self.goes(
                PrunePhaseView::Copying(rows, 0),
                crate::removal::backup_copy(rows[0], self.request.decision_id),
            )
        }
    }
}

impl Machine for PruneRun {
    open spec fn next(self, event: EventView) -> (PruneRun, ActionView) {
        match (self.phase, event) {
            (PrunePhaseView::Receipt, EventView::Text(Some(json))) => {
                let removed = listed(outside::json_string_list(json));
                self.goes(PrunePhaseView::Replay(removed.len()), ActionView::Delete(removed))
            },
            (PrunePhaseView::Receipt, EventView::Text(None)) => self.goes(
                PrunePhaseView::Keep,
                active_image(self.request.keep),
            ),
            (PrunePhaseView::Replay(n), EventView::Done) => self.ends(
                ActionView::Reply(pruned_view(n, true)),
            ),
            (PrunePhaseView::Keep, EventView::Image(None)) => self.ends(
                crate::effect::refuse("keep key not active"@, 409),
            ),
            (PrunePhaseView::Keep, EventView::Image(Some(_))) => self.goes(
                PrunePhaseView::Rows(Seq::empty()),
                active_image(self.request.remove[0]),
            ),
            (PrunePhaseView::Rows(rows), EventView::Image(None)) => self.ends(
                crate::effect::refuse(
                    "remove key not active: "@ + self.request.remove[rows.len() as int],
                    409,
                ),
            ),
            (PrunePhaseView::Rows(rows), EventView::Image(Some(row))) => self.found(rows, row),
            (PrunePhaseView::Copying(rows, i), EventView::Done) => if i + 1 < rows.len() {
                self.goes(
                    PrunePhaseView::Copying(rows, i + 1),
                    crate::removal::backup_copy(rows[i + 1], self.request.decision_id),
                )
            } else {
                self.goes(PrunePhaseView::Time(rows), ActionView::Clock)
            },
            (PrunePhaseView::Time(rows), EventView::Now(now)) => self.goes(
                PrunePhaseView::Commit,
                ActionView::Batch(prune_batch(self.request, rows, now)),
            ),
            (PrunePhaseView::Commit, EventView::Done) => self.goes(
                PrunePhaseView::Deleting,
                ActionView::Delete(self.request.remove),
            ),
            (PrunePhaseView::Deleting, EventView::Done) => self.ends(
                ActionView::Reply(pruned_view(self.request.remove.len(), false)),
            ),
            _ => self.ends(crate::effect::stop(event)),
        }
    }
}

/// The first step of a decision, or why it is refused.
pub open spec fn prune_begun(request: Option<PruneView>) -> Result<
    (PruneRun, ActionView),
    ReplyView,
> {
    match request {
        None => Err(crate::json::refusal_view("invalid json"@, 400)),
        Some(request) => match crate::catalog::prune_fault(request) {
            Some(fault) => Err(crate::json::refusal_view(fault, 400)),
            None => Ok(
                (
                    PruneRun { request, phase: PrunePhaseView::Receipt },
                    ActionView::Query(
                        Table::PruneReceipt,
                        crate::sql::statement(PRUNE_RECEIPT_SQL@).text(request.decision_id),
                    ),
                ),
            ),
        },
    }
}

/// The value of the first step of a decision.
pub open spec fn prune_start(r: Result<(Prune, Action), Reply>) -> Result<
    (PruneRun, ActionView),
    ReplyView,
> {
    match r {
        Ok(first) => Ok((first.0@, first.1@)),
        Err(reply) => Err(reply@),
    }
}

impl Prune {
    /// Only images that were found are copied.
    pub open spec fn well_formed(self) -> bool {
        self@.well_formed()
    }

    /// Begins to carry out a decision. The request is absent where it could not
    /// be read.
    pub fn begin(request: Option<CatalogPruneRequest>) -> (r: Result<(Prune, Action), Reply>)
        ensures
            prune_start(r) == prune_begun(crate::rows::opt_view(request)),
            r is Ok ==> r->Ok_0.0.well_formed(),
    {
        match request {
            None => Err(refusal("invalid json", 400)),
            Some(request) => match validate_catalog_prune(&request) {
                Err(message) => Err(refusal(message, 400)),
                Ok(()) => {
                    let query = Statement::new(PRUNE_RECEIPT_SQL).text(
                        request.decision_id.as_str(),
                    );
                    Ok(
                        (
                            Prune { request, phase: PrunePhase::Receipt },
                            Action::Query(Table::PruneReceipt, query),
                        ),
                    )
                },
            },
        }
    }

    /// Takes one step. The receipt that the transaction writes lists exactly the
    /// keys that are removed.
    pub fn step(self, event: Event) -> (r: (Prune, Action))
        requires
            self.well_formed(),
        ensures
            (r.0@, r.1@) == self@.next(event@),
            r.0.well_formed(),
            r.1@ is Batch ==> listed(
                outside::json_string_list(outside::json_of_strings(self@.request.remove)),
            ) == self@.request.remove,
    {
        let request = self.request;
        match (self.phase, event) {
            (PrunePhase::Receipt, Event::Text(Some(json))) => {
                let removed = listed_keys(outside::read_string_list(json.as_str()));
                let n: usize = removed.len();
                (Prune { request, phase: PrunePhase::Replay(n) }, Action::Delete(removed))
            },
            (PrunePhase::Receipt, Event::Text(None)) => {
                let action = find_active_image(request.keep_r2_key.as_str());
                (Prune { request, phase: PrunePhase::Keep }, action)
            },
            (PrunePhase::Replay(n), Event::Done) => (
                Prune { request, phase: PrunePhase::End },
                Action::Reply(pruned_reply(n, true)),
            ),
            (PrunePhase::Keep, Event::Image(None)) => (
                Prune { request, phase: PrunePhase::End },
                refusing("keep key not active", 409),
            ),
            (PrunePhase::Keep, Event::Image(Some(_))) => {
                let action = find_active_image(request.remove_r2_keys[0].as_str());
                let rows: Vec<CatalogPruneImageRow<String>> = Vec::new();
                assert(crate::rows::views(rows@) =~= Seq::<
                    CatalogPruneImageRow<Seq<char>>,
                >::empty());
                (Prune { request, phase: PrunePhase::Rows(rows) }, action)
            },
            (PrunePhase::Rows(rows), Event::Image(None)) => {
                let message = text::concat2(
                    "remove key not active: ",
                    request.remove_r2_keys[rows.len()].as_str(),
                );
                (Prune { request, phase: PrunePhase::End }, refusing(message.as_str(), 409))
            },
            (PrunePhase::Rows(rows), Event::Image(Some(row))) => {
                let mut rows = rows;
                let ghost before = crate::rows::views(rows@);
                rows.push(row);
                assert(crate::rows::views(rows@) =~= before.push(row@));
                if rows.len() < request.remove_r2_keys.len() {
                    let action = find_active_image(request.remove_r2_keys[rows.len()].as_str());
                    (Prune { request, phase: PrunePhase::Rows(rows) }, action)
                } else {
                    let action = copy_to_backup(&rows[0], request.decision_id.as_str());
                    (Prune { request, phase: PrunePhase::Copying(rows, 0) }, action)
                }
            },
            (PrunePhase::Copying(rows, i), Event::Done) => {
                let n: usize = rows.len();
                if i + 1 < n {
                    let action = copy_to_backup(&rows[i + 1], request.decision_id.as_str());
                    (Prune { request, phase: PrunePhase::Copying(rows, i + 1) }, action)
                } else {
                    (Prune { request, phase: PrunePhase::Time(rows) }, Action::Clock)
                }
            },
            (PrunePhase::Time(rows), Event::Now(now)) => {
                let batch = removal_batch(&request, rows.as_slice(), now.as_str());
                (Prune { request, phase: PrunePhase::Commit }, Action::Batch(batch))
            },
            (PrunePhase::Commit, Event::Done) => {
                let removed = text::copy_texts(request.remove_r2_keys.as_slice());
                (Prune { request, phase: PrunePhase::Deleting }, Action::Delete(removed))
            },
            (PrunePhase::Deleting, Event::Done) => {
                let n: usize = request.remove_r2_keys.len();
                (
                    Prune { request, phase: PrunePhase::End },
                    Action::Reply(pruned_reply(n, false)),
                )
            },
            (_, event) => (Prune { request, phase: PrunePhase::End }, give_up(event)),
        }
    }
}

// ---------------------------------------------------------------------------
// What holds of every run
// ---------------------------------------------------------------------------

/// Whether the transaction that removes some images went through, after all of
/// them were copied.
pub open spec fn committed(
    start: (PruneRun, ActionView),
    events: Seq<EventView>,
    rows: Seq<CatalogPruneImageRow<Seq<char>>>,
    now: Seq<char>,
) -> bool {
    let id = start.0.request.decision_id;
    &&& rows.len() == start.0.request.remove.len()
    &&& crate::removal::all_copied(start, events, id, rows)
    &&& crate::effect::was_done(
        start,
        events,
        ActionView::Batch(prune_batch(start.0.request, rows, now)),
    )
}

/// What the state of a run tells of its past.
spec fn history(start: (PruneRun, ActionView), events: Seq<EventView>) -> bool {
    let (now, asked) = crate::effect::after(start, events);
    let id = start.0.request.decision_id;
    &&& now.request == start.0.request
    &&& now.well_formed()
    &&& match now.phase {
        PrunePhaseView::Copying(rows, k) => {
            &&& rows.len() == now.request.remove.len()
            &&& asked == crate::removal::backup_copy(rows[k], now.request.decision_id)
            &&& crate::removal::all_copied(start, events, id, rows.take(k))
        },
        PrunePhaseView::Time(rows) => {
            &&& rows.len() == now.request.remove.len()
            &&& crate::removal::all_copied(start, events, id, rows)
            &&& asked == ActionView::Clock
        },
        PrunePhaseView::Commit => exists|rows: Seq<CatalogPruneImageRow<Seq<char>>>, t: Seq<char>|
            {
                &&& asked == ActionView::Batch(#[trigger] prune_batch(now.request, rows, t))
                &&& rows.len() == now.request.remove.len()
                &&& crate::removal::all_copied(start, events, id, rows)
            },
        PrunePhaseView::Deleting => {
            &&& asked == ActionView::Delete(now.request.remove)
            &&& exists|rows: Seq<CatalogPruneImageRow<Seq<char>>>, t: Seq<char>| #[trigger]
                committed(start, events, rows, t)
        },
        PrunePhaseView::Replay(_) => exists|i: int|
            0 <= i < events.len() && (#[trigger] events[i]) is Text && events[i]->Text_0 is Some,
        _ => asked !is Delete,
    }
}

proof fn lemma_history(
    request: PruneView,
    start: (PruneRun, ActionView),
    events: Seq<EventView>,
)
    requires
        prune_begun(Some(request)) == Ok::<(PruneRun, ActionView), ReplyView>(start),
    ensures
        history(start, events),
    decreases events.len(),
{
    if events.len() == 0 {
        crate::catalog::law_accepted_prune(request);
    } else {
        let id = start.0.request.decision_id;
        let front = events.drop_last();
        let event = events.last();
        lemma_history(request, start, front);
        let (was, asked) = crate::effect::after(start, front);
        let (now, asks) = crate::effect::after(start, events);
        match (was.phase, event) {
            (PrunePhaseView::Receipt, EventView::Text(Some(json))) => {
                assert(events[events.len() - 1] is Text);
            },
            (PrunePhaseView::Rows(rows), EventView::Image(Some(row))) => {
                assert(crate::removal::all_copied(start, events, id, rows.push(row).take(0)));
            },
            (PrunePhaseView::Copying(rows, k), EventView::Done) => {
                crate::removal::lemma_copied_now(start, events, id, rows, k);
            },
            (PrunePhaseView::Time(rows), EventView::Now(t)) => {
                crate::removal::lemma_copied_stays(start, events, id, rows);
                assert(asks == ActionView::Batch(prune_batch(now.request, rows, t)));
            },
            (PrunePhaseView::Commit, EventView::Done) => {
                let (rows, t) = choose|rows: Seq<CatalogPruneImageRow<Seq<char>>>, t: Seq<char>|
                    {
                        &&& asked == ActionView::Batch(#[trigger] prune_batch(was.request, rows, t))
                        &&& rows.len() == was.request.remove.len()
                        &&& crate::removal::all_copied(start, front, id, rows)
                    };
                crate::removal::lemma_copied_stays(start, events, id, rows);
                crate::effect::lemma_done_now(start, events);
                assert(committed(start, events, rows, t));
            },
            _ => {},
        }
    }
}

/// An object is deleted only when nothing needs it any more: unless the decision
/// had been carried out before, each image was copied to its backup, then the
/// transaction went through, and then exactly the keys of the decision are
/// deleted. The key to keep is none of them.
pub proof fn law_prune_deletes_after_commit(
    request: PruneView,
    start: (PruneRun, ActionView),
    events: Seq<EventView>,
    deleted: Seq<Seq<char>>,
)
    requires
        prune_begun(Some(request)) == Ok::<(PruneRun, ActionView), ReplyView>(start),
        crate::effect::after(start, events).1 == ActionView::Delete(deleted),
        forall|i: int|
            0 <= i < events.len() ==> !((#[trigger] events[i]) is Text && events[i]->Text_0 is Some),
    ensures
        deleted == request.remove,
        !deleted.contains(request.keep),
        exists|rows: Seq<CatalogPruneImageRow<Seq<char>>>, now: Seq<char>| #[trigger]
            committed(start, events, rows, now),
{
    lemma_history(request, start, events);
    crate::catalog::law_accepted_prune(request);
}

/// A decision that was carried out changes nothing again: its receipt is
/// answered by deleting what it lists, and then by a reply.
pub proof fn law_prune_replay(
    request: PruneView,
    start: (PruneRun, ActionView),
    json: Seq<char>,
)
    requires
        prune_begun(Some(request)) == Ok::<(PruneRun, ActionView), ReplyView>(start),
    ensures
        ({
            let removed = listed(outside::json_string_list(json));
            let (then, action) = start.0.next(EventView::Text(Some(json)));
            &&& action == ActionView::Delete(removed)
            &&& then.next(EventView::Done).1 == ActionView::Reply(pruned_view(removed.len(), true))
        }),
{
}

// ---------------------------------------------------------------------------
// What the steps and statements say
// ---------------------------------------------------------------------------

/// The transaction of a decision, statement by statement: for each image that was
/// found, its backup is recorded and its own row is deleted, by its own name and
/// key; the pages of each work that loses one are counted anew, and the work is
/// deleted where none are left; the receipt of the decision comes last.
#[verifier::rlimit(60)]
pub proof fn law_prune_statements(
    request: PruneView,
    rows: Seq<CatalogPruneImageRow<Seq<char>>>,
    now: Seq<char>,
)
    ensures
        prune_batch(request, rows, now).len() == 2 * rows.len() + 2 * distinct_works(rows).len() + 1,
        forall|i: int|
            0 <= i < rows.len() ==> {
                &&& crate::sql::says(
                    prune_batch(request, rows, now)[2 * i],
                    r#"INSERT INTO catalog_prune_backups
                   (original_r2_key,backup_r2_key,decision_id,work_id,created_at)
                   VALUES (?,?,?,?,?)"#@,
                    seq![
                        SqlView::Text((#[trigger] rows[i]).r2_key),
                        SqlView::Text("review-trash/"@ + crate::keys::directory_name(request.decision_id) + "/"@ + (#[trigger] rows[i]).r2_key),
                        SqlView::Text(request.decision_id),
                        SqlView::Text((#[trigger] rows[i]).work_id),
                        SqlView::Text(now),
                    ],
                )
                &&& crate::sql::says(
                    prune_batch(request, rows, now)[2 * i + 1],
                    "DELETE FROM images WHERE id=? AND r2_key=?"@,
                    seq![
                        SqlView::Text(rows[i].id),
                        SqlView::Text(rows[i].r2_key),
                    ],
                )
            },
        forall|j: int|
            0 <= j < distinct_works(rows).len() ==> {
                &&& crate::sql::says(
                    prune_batch(request, rows, now)[2 * rows.len() + 2 * j],
                    "UPDATE works SET page_count=(SELECT COUNT(*) FROM images WHERE work_id=?) WHERE id=?"@,
                    seq![
                        SqlView::Text(#[trigger] distinct_works(rows)[j]),
                        SqlView::Text(distinct_works(rows)[j]),
                    ],
                )
                &&& crate::sql::says(
                    prune_batch(request, rows, now)[2 * rows.len() + 2 * j + 1],
                    "UPDATE works SET deleted_at=? WHERE id=? AND NOT EXISTS (SELECT 1 FROM images WHERE work_id=?)"@,
                    seq![
                        SqlView::Text(now),
                        SqlView::Text(distinct_works(rows)[j]),
                        SqlView::Text(distinct_works(rows)[j]),
                    ],
                )
            },
        crate::sql::says(
            prune_batch(request, rows, now).last(),
            "INSERT INTO catalog_prune_receipts (decision_id,keep_r2_key,removed_json,created_at) VALUES (?,?,?,?)"@,
            seq![
                SqlView::Text(request.decision_id),
                SqlView::Text(request.keep),
                SqlView::Text(outside::json_of_strings(request.remove)),
                SqlView::Text(now),
            ],
        ),
{
    let works = distinct_works(rows);
    let n = rows.len() as int;
    let w = works.len() as int;
    let batch = prune_batch(request, rows, now);
    lemma_image_statements(rows, request.decision_id, now);
    lemma_work_statements(works, now);
    let images = image_statements(rows, request.decision_id, now);
    let counts = work_statements(works, now);
    assert forall|i: int| 0 <= i < n implies batch[2 * i] == images[2 * i] && batch[2 * i + 1]
        == images[2 * i + 1] && #[trigger] rows[i] == rows[i] by {
        crate::removal::law_backup_is_recorded(rows[i], request.decision_id, now);
    }
    assert forall|i: int| 0 <= i < n implies crate::sql::says(
        batch[2 * i],
        r#"INSERT INTO catalog_prune_backups
                   (original_r2_key,backup_r2_key,decision_id,work_id,created_at)
                   VALUES (?,?,?,?,?)"#@,
        seq![
            SqlView::Text((#[trigger] rows[i]).r2_key),
            SqlView::Text("review-trash/"@ + crate::keys::directory_name(request.decision_id) + "/"@ + (#[trigger] rows[i]).r2_key),
            SqlView::Text(request.decision_id),
            SqlView::Text((#[trigger] rows[i]).work_id),
            SqlView::Text(now),
        ],
    ) by {
        assert(batch[2 * i] == images[2 * i]);
        crate::removal::law_backup_is_recorded(rows[i], request.decision_id, now);
    }
    assert forall|j: int| 0 <= j < w implies batch[2 * n + 2 * j] == counts[2 * j] && batch[2 * n + 2
        * j + 1] == counts[2 * j + 1] && #[trigger] works[j] == works[j] by {}
}

proof fn lemma_image_statements(
    rows: Seq<CatalogPruneImageRow<Seq<char>>>,
    decision_id: Seq<char>,
    now: Seq<char>,
)
    ensures
        image_statements(rows, decision_id, now).len() == 2 * rows.len(),
        forall|i: int|
            0 <= i < rows.len() ==> {
                let list = image_statements(rows, decision_id, now);
                &&& list[2 * i] == crate::removal::backup_statement(
                    #[trigger] rows[i],
                    decision_id,
                    now,
                )
                &&& list[2 * i + 1] == crate::sql::statement(DROP_IMAGE_SQL@).text(
                    rows[i].id,
                ).text(rows[i].r2_key)
            },
    decreases rows.len(),
{
    if rows.len() > 0 {
        let front = rows.drop_last();
        lemma_image_statements(front, decision_id, now);
        let list = image_statements(rows, decision_id, now);
        let some = image_statements(front, decision_id, now);
        assert forall|i: int| 0 <= i < rows.len() implies {
            &&& list[2 * i] == crate::removal::backup_statement(
                #[trigger] rows[i],
                decision_id,
                now,
            )
            &&& list[2 * i + 1] == crate::sql::statement(DROP_IMAGE_SQL@).text(rows[i].id).text(
                rows[i].r2_key,
            )
        } by {
            if i < front.len() {
                assert(front[i] == rows[i]);
                assert(list[2 * i] == some[2 * i]);
                assert(list[2 * i + 1] == some[2 * i + 1]);
            }
        }
    }
}

proof fn lemma_work_statements(works: Seq<Seq<char>>, now: Seq<char>)
    ensures
        work_statements(works, now).len() == 2 * works.len(),
        forall|j: int|
            0 <= j < works.len() ==> {
                let list = work_statements(works, now);
                &&& list[2 * j] == crate::sql::statement(RECOUNT_PAGES_SQL@).text(
                    #[trigger] works[j],
                ).text(works[j])
                &&& list[2 * j + 1] == crate::sql::statement(DELETE_EMPTY_SQL@).text(now).text(
                    works[j],
                ).text(works[j])
            },
    decreases works.len(),
{
    if works.len() > 0 {
        let front = works.drop_last();
        lemma_work_statements(front, now);
        let list = work_statements(works, now);
        let some = work_statements(front, now);
        assert forall|j: int| 0 <= j < works.len() implies {
            &&& list[2 * j] == crate::sql::statement(RECOUNT_PAGES_SQL@).text(
                #[trigger] works[j],
            ).text(works[j])
            &&& list[2 * j + 1] == crate::sql::statement(DELETE_EMPTY_SQL@).text(now).text(
                works[j],
            ).text(works[j])
        } by {
            if j < front.len() {
                assert(front[j] == works[j]);
                assert(list[2 * j] == some[2 * j]);
                assert(list[2 * j + 1] == some[2 * j + 1]);
            }
        }
    }
}

/// Whether a reply says how many images were removed, and whether it is a replay.
pub open spec fn says_removed(reply: ReplyView, removed: nat, replayed: bool) -> bool {
    &&& reply.status == 200
    &&& crate::json::member_count(reply.body) == 3
    &&& crate::json::tells(reply.body, "ok"@, JsonView::Bool(true))
    &&& crate::json::tells(reply.body, "removed"@, JsonView::Num(removed as int))
    &&& crate::json::tells(reply.body, "replayed"@, JsonView::Bool(replayed))
}

/// The reply to a decision reads as it should.
pub proof fn law_prune_reply(removed: nat, replayed: bool)
    ensures
        says_removed(pruned_view(removed, replayed), removed, replayed),
{
    reveal_strlit("ok");
    reveal_strlit("removed");
    reveal_strlit("replayed");
    assert("ok"@.len() != "removed"@.len());
    assert("ok"@.len() != "replayed"@.len());
    assert("removed"@.len() != "replayed"@.len());
    let d = pruned_view(removed, replayed).body;
    let l_d = d->Object_0;
    assert(l_d[0].name == "ok"@ && l_d[0].value == JsonView::Bool(true));
    assert(l_d[1].name == "removed"@ && l_d[1].value == JsonView::Num(removed as int));
    assert(l_d[2].name == "replayed"@ && l_d[2].value == JsonView::Bool(replayed));
}

/// The steps of a decision: its receipt is looked for, then the image to keep,
/// then each image to remove by its own key, and what is not active is told. Each
/// image is copied to its backup; then comes the transaction for exactly the rows
/// that were found, then the keys of the decision are deleted, and the reply
/// counts them.
#[verifier::rlimit(40)]
pub proof fn law_prune_steps(
    request: PruneView,
    rows: Seq<CatalogPruneImageRow<Seq<char>>>,
    row: CatalogPruneImageRow<Seq<char>>,
    now: Seq<char>,
    i: int,
)
    requires
        crate::catalog::prune_fault(request) is None,
        rows.len() < request.remove.len(),
        0 <= i < rows.len(),
    ensures
        prune_begun(Some(request)) is Ok,
        prune_begun(Some(request))->Ok_0.0 == (PruneRun { request, phase: PrunePhaseView::Receipt }),
        crate::effect::queries(
            prune_begun(Some(request))->Ok_0.1,
            Table::PruneReceipt,
            "SELECT removed_json FROM catalog_prune_receipts WHERE decision_id = ?"@,
            seq![
                SqlView::Text(request.decision_id),
            ],
        ),
        (PruneRun { request, phase: PrunePhaseView::Receipt }).next(EventView::Text(None)).0 == (PruneRun { request, phase: PrunePhaseView::Keep }),
        crate::effect::queries(
            (PruneRun { request, phase: PrunePhaseView::Receipt }).next(EventView::Text(None)).1,
            Table::PruneImage,
            r#"
        SELECT i.id,i.work_id,i.r2_key
        FROM images i JOIN works w ON w.id=i.work_id
        WHERE i.r2_key=? AND w.deleted_at IS NULL
    "#@,
            seq![
                SqlView::Text(request.keep),
            ],
        ),
        crate::effect::refuses((PruneRun { request, phase: PrunePhaseView::Keep }).next(EventView::Image(None)).1, "keep key not active"@, 409),
        (PruneRun { request, phase: PrunePhaseView::Keep }).next(EventView::Image(Some(row))).0 == (PruneRun { request, phase: PrunePhaseView::Rows(Seq::empty()) }),
        crate::effect::queries(
            (PruneRun { request, phase: PrunePhaseView::Keep }).next(EventView::Image(Some(row))).1,
            Table::PruneImage,
            r#"
        SELECT i.id,i.work_id,i.r2_key
        FROM images i JOIN works w ON w.id=i.work_id
        WHERE i.r2_key=? AND w.deleted_at IS NULL
    "#@,
            seq![
                SqlView::Text(request.remove[0]),
            ],
        ),
        crate::effect::refuses(
            (PruneRun { request, phase: PrunePhaseView::Rows(rows) }).next(EventView::Image(None)).1,
            "remove key not active: "@ + request.remove[rows.len() as int],
            409,
        ),
        rows.len() + 1 < request.remove.len() ==> (PruneRun { request, phase: PrunePhaseView::Rows(rows) }).next(EventView::Image(Some(row))).0 == (PruneRun { request, phase: PrunePhaseView::Rows(rows.push(row)) })
            && crate::effect::queries(
                (PruneRun { request, phase: PrunePhaseView::Rows(rows) }).next(EventView::Image(Some(row))).1,
                Table::PruneImage,
                r#"
        SELECT i.id,i.work_id,i.r2_key
        FROM images i JOIN works w ON w.id=i.work_id
        WHERE i.r2_key=? AND w.deleted_at IS NULL
    "#@,
                seq![
                    SqlView::Text(request.remove[rows.len() as int + 1]),
                ],
            ),
        rows.len() + 1 == request.remove.len() ==> (PruneRun { request, phase: PrunePhaseView::Rows(rows) }).next(EventView::Image(Some(row))) == (
            (PruneRun { request, phase: PrunePhaseView::Copying(rows.push(row), 0) }),
            crate::removal::backup_copy(rows[0], request.decision_id),
        ),
        i + 1 < rows.len() ==> (PruneRun { request, phase: PrunePhaseView::Copying(rows, i) }).next(EventView::Done) == (
            (PruneRun { request, phase: PrunePhaseView::Copying(rows, i + 1) }),
            crate::removal::backup_copy(rows[i + 1], request.decision_id),
        ),
        i + 1 == rows.len() ==> (PruneRun { request, phase: PrunePhaseView::Copying(rows, i) }).next(EventView::Done) == ((PruneRun { request, phase: PrunePhaseView::Time(rows) }), ActionView::Clock),
        (PruneRun { request, phase: PrunePhaseView::Time(rows) }).next(EventView::Now(now)) == ((PruneRun { request, phase: PrunePhaseView::Commit }), ActionView::Batch(prune_batch(request, rows, now))),
        (PruneRun { request, phase: PrunePhaseView::Commit }).next(EventView::Done) == ((PruneRun { request, phase: PrunePhaseView::Deleting }), ActionView::Delete(request.remove)),
        ({
            let told = (PruneRun { request, phase: PrunePhaseView::Deleting }).next(EventView::Done).1;
            told is Reply && says_removed(told->Reply_0, request.remove.len(), false)
        }),
        ({
            let told = (PruneRun { request, phase: PrunePhaseView::Replay(rows.len()) }).next(EventView::Done).1;
            told is Reply && says_removed(told->Reply_0, rows.len(), true)
        }),
{
    crate::effect::law_refusals_say_why("keep key not active"@, 409);
    crate::effect::law_refusals_say_why(
        "remove key not active: "@ + request.remove[rows.len() as int],
        409,
    );
    law_prune_reply(request.remove.len(), false);
    law_prune_reply(rows.len(), true);
    assert(rows.push(row)[0] == rows[0]);
}

/// The receipt that a decision writes is the one that the same decision finds:
/// it is recorded under the value by which it is looked for, and the recorded list
/// leads the same decision to delete the same keys again and to count them, where
/// the list reads as it was written.
pub proof fn law_prune_receipt_is_found_again(
    request: PruneView,
    rows: Seq<CatalogPruneImageRow<Seq<char>>>,
    now: Seq<char>,
    removed_json: Seq<char>,
)
    requires
        crate::catalog::prune_fault(request) is None,
        SqlView::Text(removed_json) == prune_batch(request, rows, now).last().binds[2],
        outside::json_string_list(outside::json_of_strings(request.remove)) == Some(request.remove),
    ensures
        ({
            let receipt = prune_batch(request, rows, now).last();
            let (run, asks) = prune_begun(Some(request))->Ok_0;
            let (then, action) = run.next(EventView::Text(Some(removed_json)));
            let told = then.next(EventView::Done).1;
            &&& asks is Query
            &&& asks->Query_1.binds =~= seq![receipt.binds[0]]
            &&& receipt.binds[1] == SqlView::Text(request.keep)
            &&& action == ActionView::Delete(request.remove)
            &&& told is Reply && says_removed(told->Reply_0, request.remove.len(), true)
        }),
{
    law_prune_statements(request, rows, now);
    law_prune_reply(request.remove.len(), true);
}

/// Only works that lose an image are counted anew.
pub proof fn law_only_their_works(rows: Seq<CatalogPruneImageRow<Seq<char>>>)
    ensures
        forall|j: int|
            0 <= j < distinct_works(rows).len() ==> exists|i: int|
                0 <= i < rows.len() && (#[trigger] rows[i]).work_id == #[trigger] distinct_works(
                    rows,
                )[j],
    decreases rows.len(),
{
    if rows.len() > 0 {
        let front = rows.drop_last();
        law_only_their_works(front);
        let all = distinct_works(rows);
        let list = distinct_works(front);
        assert forall|j: int| 0 <= j < all.len() implies exists|i: int|
            0 <= i < rows.len() && (#[trigger] rows[i]).work_id == #[trigger] all[j] by {
            if j < list.len() {
                assert(all[j] == list[j]);
                let i = choose|i: int|
                    0 <= i < front.len() && (#[trigger] front[i]).work_id == list[j];
                assert(rows[i] == front[i]);
            } else {
                assert(rows[rows.len() - 1] == rows.last());
            }
        }
    }
}

/// A receipt lists the keys that it reads as, and none where it cannot be read.
pub proof fn law_listed_keys(keys: Seq<Seq<char>>)
    ensures
        listed(Some(keys)) == keys,
        listed(None).len() == 0,
{
}

/// A decision answers or fails in its last step, and in no other; what was asked of it
/// never changes, and once it is over every event is unexpected.
pub proof fn law_prune_ends(run: PruneRun, event: EventView)
    ensures
        run.next(event).0.request == run.request,
        run.next(event).0.phase is End <==> run.next(event).1 is Reply || run.next(event).1 is Fail,
        run.phase is End && event !is Failed ==> run.next(event).1 == ActionView::Fail(
            "unexpected event"@,
        ),
{
}

} // verus!
