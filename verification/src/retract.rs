//! Taking a work back. Its images are copied to backups, as far as they are
//! still there, then one transaction takes the work out of the catalog, then the
//! objects are deleted.

use crate::catalog::{validate_catalog_retract, CatalogRetractRequest};
use crate::effect::{give_up, refusing, Action, ActionView, Event, EventView, Machine, Table};
use crate::json::{refusal, success, Json, JsonView, Members, Reply, ReplyView};
use crate::keys::{is_missing_r2_object_message, MISSING_OBJECT};
use crate::removal::{
    copy_to_backup, find_work_images, find_work_tags, record_backups, recount_tags, row_keys,
    DELETE_WORK_SQL, DROP_IMAGES_SQL, DROP_TAGS_SQL,
};
use crate::rows::CatalogPruneImageRow;
use crate::sql::{add_statement, add_statements, no_statements, SqlView, Statement, StatementView};
use crate::tags;
use crate::text;
use vstd::prelude::*;

verus! {

/// Reads a work and when it was deleted.
pub const RETRACT_WORK_SQL: &'static str = "SELECT id, deleted_at FROM works WHERE id=?";

/// Reads the keys of the images that a decision made backups of.
pub const BACKUPS_SQL: &'static str =
    "SELECT original_r2_key FROM catalog_prune_backups WHERE work_id=? AND decision_id=?";

/// Marks the publications of a work as deleted.
pub const DELETE_PUBLICATIONS_SQL: &'static str =
    "UPDATE telegram_publications SET deleted_at=? WHERE work_id=? AND deleted_at IS NULL";

/// The mathematical value of a [`CatalogRetractRequest`].
pub struct RetractView {
    pub decision_id: Seq<char>,
    pub work_id: Seq<char>,
}

impl View for CatalogRetractRequest {
    type V = RetractView;

    open spec fn view(&self) -> RetractView {
        RetractView { decision_id: self.decision_id@, work_id: self.work_id@ }
    }
}

/// What is known of the work: its images, its tags, and the images that were
/// copied.
pub struct Removal {
    pub images: Vec<CatalogPruneImageRow<String>>,
    pub tags: Vec<String>,
    pub copied: Vec<CatalogPruneImageRow<String>>,
}

/// The mathematical value of a [`Removal`].
pub struct RemovalView {
    pub images: Seq<CatalogPruneImageRow<Seq<char>>>,
    pub tags: Seq<Seq<char>>,
    pub copied: Seq<CatalogPruneImageRow<Seq<char>>>,
}

impl View for Removal {
    type V = RemovalView;

    open spec fn view(&self) -> RemovalView {
        RemovalView {
            images: crate::rows::views(self.images@),
            tags: text::texts(self.tags@),
            copied: crate::rows::views(self.copied@),
        }
    }
}

/// Takes a work out of the catalog, with its publications.
pub open spec fn drop_work_statements(work_id: Seq<char>, now: Seq<char>) -> Seq<StatementView> {
    Seq::<StatementView>::empty().push(crate::sql::statement(DROP_IMAGES_SQL@).text(work_id)).push(
        crate::sql::statement(DROP_TAGS_SQL@).text(work_id),
    ).push(crate::sql::statement(DELETE_WORK_SQL@).text(now).text(work_id)).push(
        crate::sql::statement(DELETE_PUBLICATIONS_SQL@).text(now).text(work_id),
    )
}

/// The transaction that takes a work back.
pub open spec fn retract_batch(
    request: RetractView,
    removal: RemovalView,
    now: Seq<char>,
) -> Seq<StatementView> {
    crate::removal::backup_statements(removal.copied, request.decision_id, now)
        + drop_work_statements(request.work_id, now) + crate::removal::recount_statements(
        tags::nonempty(removal.tags),
    )
}

fn removal_batch(request: &CatalogRetractRequest, removal: &Removal, now: &str) -> (r: Vec<
    Statement,
>)
    ensures
        crate::sql::statement_views(r@) == retract_batch(request@, removal@, now@),
{
    let mut out = record_backups(removal.copied.as_slice(), request.decision_id.as_str(), now);
    let work = request.work_id.as_str();
    let mut drop = no_statements();
    add_statement(&mut drop, Statement::new(DROP_IMAGES_SQL).text(work));
    add_statement(&mut drop, Statement::new(DROP_TAGS_SQL).text(work));
    add_statement(&mut drop, Statement::new(DELETE_WORK_SQL).text(now).text(work));
    add_statement(&mut drop, Statement::new(DELETE_PUBLICATIONS_SQL).text(now).text(work));
    add_statements(&mut out, drop);
    let kept = tags::keep_nonempty(removal.tags.as_slice());
    add_statements(&mut out, recount_tags(kept.as_slice()));
    out
}

/// The reply to a work that was taken back.
pub open spec fn retracted_view(work_id: Seq<char>, replayed: bool) -> ReplyView {
    crate::json::success_view(
        crate::json::no_members().with("ok"@, JsonView::Bool(true)).with(
            "replayed"@,
            JsonView::Bool(replayed),
        ).with("work_id"@, JsonView::Text(work_id)),
    )
}

fn retracted_reply(work_id: &str, replayed: bool) -> (r: Reply)
    ensures
        r@ == retracted_view(work_id@, replayed),
{
    success(
        Members::new().with("ok", Json::Bool(true)).with("replayed", Json::Bool(replayed)).with(
            "work_id",
            Json::text(work_id),
        ),
    )
}

/// How far taking a work back is.
pub enum RetractPhase {
    /// The work is looked for.
    Work,
    /// The backups that the decision made are read.
    Backups,
    /// The objects that have backups are deleted.
    Replay,
    /// The images of the work are read.
    Images,
    /// The tags of the work are read.
    Tags(Vec<CatalogPruneImageRow<String>>),
    /// An image is copied.
    Copying(Removal, usize),
    /// The clock is asked.
    Time(Removal),
    /// The transaction runs.
    Commit(Removal),
    /// The objects are deleted.
    Deleting(Removal),
    /// All is said.
    End,
}

/// The mathematical value of a [`RetractPhase`].
pub enum RetractPhaseView {
    Work,
    Backups,
    Replay,
    Images,
    Tags(Seq<CatalogPruneImageRow<Seq<char>>>),
    Copying(RemovalView, int),
    Time(RemovalView),
    Commit(RemovalView),
    Deleting(RemovalView),
    End,
}

impl View for RetractPhase {
    type V = RetractPhaseView;

    open spec fn view(&self) -> RetractPhaseView {
        match self {
            RetractPhase::Work => RetractPhaseView::Work,
            RetractPhase::Backups => RetractPhaseView::Backups,
            RetractPhase::Replay => RetractPhaseView::Replay,
            RetractPhase::Images => RetractPhaseView::Images,
            RetractPhase::Tags(rows) => RetractPhaseView::Tags(crate::rows::views(rows@)),
            RetractPhase::Copying(removal, i) => RetractPhaseView::Copying(removal@, *i as int),
            RetractPhase::Time(removal) => RetractPhaseView::Time(removal@),
            RetractPhase::Commit(removal) => RetractPhaseView::Commit(removal@),
            RetractPhase::Deleting(removal) => RetractPhaseView::Deleting(removal@),
            RetractPhase::End => RetractPhaseView::End,
        }
    }
}

/// A work on its way out.
pub struct Retract {
    request: CatalogRetractRequest,
    phase: RetractPhase,
}

/// The mathematical value of a [`Retract`].
pub struct RetractRun {
    pub request: RetractView,
    pub phase: RetractPhaseView,
}

impl View for Retract {
    type V = RetractRun;

    closed spec fn view(&self) -> RetractRun {
        RetractRun { request: self.request@, phase: self.phase@ }
    }
}

impl RetractRun {
    /// Only images that were found are copied.
    pub open spec fn well_formed(self) -> bool {
        match self.phase {
            RetractPhaseView::Copying(removal, i) => 0 <= i < removal.images.len(),
            _ => true,
        }
    }

    /// One more step.
    pub open spec fn goes(self, phase: RetractPhaseView, action: ActionView) -> (
        RetractRun,
        ActionView,
    ) {
        (RetractRun { request: self.request, phase }, action)
    }

    /// The last step.
    pub open spec fn ends(self, action: ActionView) -> (RetractRun, ActionView) {
        self.goes(RetractPhaseView::End, action)
    }

    /// The reply once the work is taken back.
    pub open spec fn told(self, replayed: bool) -> ActionView {
        ActionView::Reply(retracted_view(self.request.work_id, replayed))
    }

    /// Copies the image `i`, or goes on where there is none.
    pub open spec fn copies(self, removal: RemovalView, i: int) -> (RetractRun, ActionView) {
        if i < removal.images.len() {
            self.goes(
                RetractPhaseView::Copying(removal, i),
                crate::removal::backup_copy(removal.images[i], self.request.decision_id),
            )
        } else {
            self.goes(RetractPhaseView::Time(removal), ActionView::Clock)
        }
    }
}

impl Machine for RetractRun {
    open spec fn next(self, event: EventView) -> (RetractRun, ActionView) {
        match (self.phase, event) {
            (RetractPhaseView::Work, EventView::Work(None)) => self.ends(
                crate::effect::refuse("work not active"@, 409),
            ),
            (RetractPhaseView::Work, EventView::Work(Some(row))) => if row.id
                != self.request.work_id {
                self.ends(crate::effect::refuse("work not active"@, 409))
            } else if row.deleted_at is Some {
                self.goes(
                    RetractPhaseView::Backups,
                    ActionView::Query(
                        Table::Backups,
                        crate::sql::statement(BACKUPS_SQL@).text(self.request.work_id).text(
                            self.request.decision_id,
                        ),
                    ),
                )
            } else {
                self.goes(
                    RetractPhaseView::Images,
                    crate::removal::work_images(self.request.work_id),
                )
            },
            (RetractPhaseView::Backups, EventView::Texts(keys)) => {
                let keys = tags::nonempty(keys);
                if keys.len() > 0 {
                    self.goes(RetractPhaseView::Replay, ActionView::Delete(keys))
                } else {
                    self.ends(self.told(true))
                }
            },
            (RetractPhaseView::Replay, EventView::Done) => self.ends(self.told(true)),
            (RetractPhaseView::Images, EventView::Images(rows)) => self.goes(
                RetractPhaseView::Tags(rows),
                crate::removal::work_tags(self.request.work_id),
            ),
            (RetractPhaseView::Tags(images), EventView::Texts(tags)) => self.copies(
                RemovalView { images, tags, copied: Seq::empty() },
                0,
            ),
            (RetractPhaseView::Copying(removal, i), EventView::Done) => self.copies(
                RemovalView {
                    images: removal.images,
                    tags: removal.tags,
                    copied: removal.copied.push(removal.images[i]),
                },
                i + 1,
            ),
            (RetractPhaseView::Copying(removal, i), EventView::Failed(message)) => if text::has_part(
                message,
                MISSING_OBJECT@,
            ) {
                self.copies(removal, i + 1)
            } else {
                self.ends(ActionView::Fail(message))
            },
            (RetractPhaseView::Time(removal), EventView::Now(now)) => self.goes(
                RetractPhaseView::Commit(removal),
                ActionView::Batch(retract_batch(self.request, removal, now)),
            ),
            (RetractPhaseView::Commit(removal), EventView::Done) => if removal.images.len() > 0 {
                self.goes(
                    RetractPhaseView::Deleting(removal),
                    ActionView::Delete(crate::removal::keys_of(removal.images)),
                )
            } else {
                self.ends(self.told(false))
            },
            (RetractPhaseView::Deleting(_), EventView::Done) => self.ends(self.told(false)),
            _ => self.ends(crate::effect::stop(event)),
        }
    }
}

/// The first step of taking a work back, or why it is refused.
pub open spec fn retract_begun(request: Option<RetractView>) -> Result<
    (RetractRun, ActionView),
    ReplyView,
> {
    match request {
        None => Err(crate::json::refusal_view("invalid json"@, 400)),
        Some(request) => match crate::catalog::retract_fault(
            request.decision_id,
            request.work_id,
        ) {
            Some(fault) => Err(crate::json::refusal_view(fault, 400)),
            None => Ok(
                (
                    RetractRun { request, phase: RetractPhaseView::Work },
                    ActionView::Query(
                        Table::RetractWork,
                        crate::sql::statement(RETRACT_WORK_SQL@).text(request.work_id),
                    ),
                ),
            ),
        },
    }
}

/// The value of the first step of taking a work back.
pub open spec fn retract_start(r: Result<(Retract, Action), Reply>) -> Result<
    (RetractRun, ActionView),
    ReplyView,
> {
    match r {
        Ok(first) => Ok((first.0@, first.1@)),
        Err(reply) => Err(reply@),
    }
}

fn copy_row(row: &CatalogPruneImageRow<String>) -> (r: CatalogPruneImageRow<String>)
    ensures
        r@ == row@,
{
    CatalogPruneImageRow {
        id: row.id.clone(),
        work_id: row.work_id.clone(),
        r2_key: row.r2_key.clone(),
    }
}

impl Retract {
    /// Only images that were found are copied.
    pub open spec fn well_formed(self) -> bool {
        self@.well_formed()
    }

    /// Begins to take a work back. The request is absent where it could not be
    /// read.
    pub fn begin(request: Option<CatalogRetractRequest>) -> (r: Result<(Retract, Action), Reply>)
        ensures
            retract_start(r) == retract_begun(crate::rows::opt_view(request)),
            r is Ok ==> r->Ok_0.0.well_formed(),
    {
        match request {
            None => Err(refusal("invalid json", 400)),
            Some(request) => match validate_catalog_retract(&request) {
                Err(message) => Err(refusal(message, 400)),
                Ok(()) => {
                    let query = Statement::new(RETRACT_WORK_SQL).text(request.work_id.as_str());
                    Ok(
                        (
                            Retract { request, phase: RetractPhase::Work },
                            Action::Query(Table::RetractWork, query),
                        ),
                    )
                },
            },
        }
    }

    fn copies(request: CatalogRetractRequest, removal: Removal, i: usize) -> (r: (Retract, Action))
        ensures
            (r.0@, r.1@) == (RetractRun { request: request@, phase: RetractPhaseView::End }).copies(
                removal@,
                i as int,
            ),
            r.0.well_formed(),
    {
        if i < removal.images.len() {
            let action = copy_to_backup(&removal.images[i], request.decision_id.as_str());
            (Retract { request, phase: RetractPhase::Copying(removal, i) }, action)
        } else {
            (Retract { request, phase: RetractPhase::Time(removal) }, Action::Clock)
        }
    }

    fn told(request: CatalogRetractRequest, replayed: bool) -> (r: (Retract, Action))
        ensures
            ({
                let run = RetractRun { request: request@, phase: RetractPhaseView::End };
                (r.0@, r.1@) == run.ends(run.told(replayed))
            }),
            r.0.well_formed(),
    {
        let reply = retracted_reply(request.work_id.as_str(), replayed);
        (Retract { request, phase: RetractPhase::End }, Action::Reply(reply))
    }

    /// Takes one step.
    pub fn step(self, event: Event) -> (r: (Retract, Action))
        requires
            self.well_formed(),
        ensures
            (r.0@, r.1@) == self@.next(event@),
            r.0.well_formed(),
    {
        let request = self.request;
        match (self.phase, event) {
            (RetractPhase::Work, Event::Work(None)) => (
                Retract { request, phase: RetractPhase::End },
                refusing("work not active", 409),
            ),
            (RetractPhase::Work, Event::Work(Some(row))) => {
                if !text::same_text(row.id.as_str(), request.work_id.as_str()) {
                    return (
                        Retract { request, phase: RetractPhase::End },
                        refusing("work not active", 409),
                    );
                }
                match row.deleted_at {
                    Some(_) => {
                        let query = Statement::new(BACKUPS_SQL).text(
                            request.work_id.as_str(),
                        ).text(request.decision_id.as_str());
                        (
                            Retract { request, phase: RetractPhase::Backups },
                            Action::Query(Table::Backups, query),
                        )
                    },
                    None => {
                        let action = find_work_images(request.work_id.as_str());
                        (Retract { request, phase: RetractPhase::Images }, action)
                    },
                }
            },
            (RetractPhase::Backups, Event::Texts(keys)) => {
                let keys = tags::keep_nonempty(keys.as_slice());
                if keys.len() > 0 {
                    (Retract { request, phase: RetractPhase::Replay }, Action::Delete(keys))
                } else {
                    Retract::told(request, true)
                }
            },
            (RetractPhase::Replay, Event::Done) => Retract::told(request, true),
            (RetractPhase::Images, Event::Images(rows)) => {
                let action = find_work_tags(request.work_id.as_str());
                (Retract { request, phase: RetractPhase::Tags(rows) }, action)
            },
            (RetractPhase::Tags(images), Event::Texts(tags)) => {
                let removal = Removal { images, tags, copied: Vec::new() };
                assert(removal@.copied =~= Seq::<CatalogPruneImageRow<Seq<char>>>::empty());
                Retract::copies(request, removal, 0)
            },
            (RetractPhase::Copying(removal, i), Event::Done) => {
                assert(i < removal.images.len());
                let row = copy_row(&removal.images[i]);
                let mut copied = removal.copied;
                let ghost before = crate::rows::views(copied@);
                copied.push(row);
                assert(crate::rows::views(copied@) =~= before.push(row@));
                let removal = Removal { images: removal.images, tags: removal.tags, copied };
                Retract::copies(request, removal, i + 1)
            },
            (RetractPhase::Copying(removal, i), Event::Failed(message)) => {
                assert(i < removal.images.len());
                if is_missing_r2_object_message(message.as_str()) {
                    Retract::copies(request, removal, i + 1)
                } else {
                    (Retract { request, phase: RetractPhase::End }, Action::Fail(message))
                }
            },
            (RetractPhase::Time(removal), Event::Now(now)) => {
                let batch = removal_batch(&request, &removal, now.as_str());
                (Retract { request, phase: RetractPhase::Commit(removal) }, Action::Batch(batch))
            },
            (RetractPhase::Commit(removal), Event::Done) => {
                if removal.images.len() > 0 {
                    let keys = row_keys(removal.images.as_slice());
                    (
                        Retract { request, phase: RetractPhase::Deleting(removal) },
                        Action::Delete(keys),
                    )
                } else {
                    Retract::told(request, false)
                }
            },
            (RetractPhase::Deleting(_), Event::Done) => Retract::told(request, false),
            (_, event) => (Retract { request, phase: RetractPhase::End }, give_up(event)),
        }
    }
}

// ---------------------------------------------------------------------------
// What holds of every run
// ---------------------------------------------------------------------------

/// Whether a run asked for an action in the course of some events, and was told
/// that the object is not there.
pub open spec fn was_missing(
    start: (RetractRun, ActionView),
    events: Seq<EventView>,
    action: ActionView,
) -> bool {
    exists|p: int|
        {
            &&& 0 <= p < events.len()
            &&& events[p] is Failed
            &&& text::has_part(events[p]->Failed_0, MISSING_OBJECT@)
            &&& (#[trigger] crate::effect::after(start, events.take(p))).1 == action
        }
}

/// Whether an image was copied to its backup, or is not there.
pub open spec fn settled(
    start: (RetractRun, ActionView),
    events: Seq<EventView>,
    row: CatalogPruneImageRow<Seq<char>>,
) -> bool {
    let copy = crate::removal::backup_copy(row, start.0.request.decision_id);
    crate::effect::was_done(start, events, copy) || was_missing(start, events, copy)
}

/// Whether all of some images were copied to their backups, or are not there.
pub open spec fn all_settled(
    start: (RetractRun, ActionView),
    events: Seq<EventView>,
    rows: Seq<CatalogPruneImageRow<Seq<char>>>,
) -> bool {
    forall|i: int| 0 <= i < rows.len() ==> settled(start, events, #[trigger] rows[i])
}

/// Whether the transaction that takes the work back went through, after all its
/// images were copied or found to be missing.
pub open spec fn committed(
    start: (RetractRun, ActionView),
    events: Seq<EventView>,
    removal: RemovalView,
    now: Seq<char>,
) -> bool {
    &&& all_settled(start, events, removal.images)
    &&& crate::effect::was_done(
        start,
        events,
        ActionView::Batch(retract_batch(start.0.request, removal, now)),
    )
}

/// What the state of a run tells of its past.
spec fn history(start: (RetractRun, ActionView), events: Seq<EventView>) -> bool {
    let (now, asked) = crate::effect::after(start, events);
    &&& now.request == start.0.request
    &&& now.well_formed()
    &&& match now.phase {
        RetractPhaseView::Copying(removal, k) => {
            &&& asked == crate::removal::backup_copy(removal.images[k], now.request.decision_id)
            &&& all_settled(start, events, removal.images.take(k))
        },
        RetractPhaseView::Time(removal) => {
            &&& all_settled(start, events, removal.images)
            &&& asked == ActionView::Clock
        },
        RetractPhaseView::Commit(removal) => {
            &&& all_settled(start, events, removal.images)
            &&& exists|t: Seq<char>|
                asked == ActionView::Batch(#[trigger] retract_batch(now.request, removal, t))
        },
        RetractPhaseView::Deleting(removal) => {
            &&& asked == ActionView::Delete(crate::removal::keys_of(removal.images))
            &&& exists|t: Seq<char>| #[trigger] committed(start, events, removal, t)
        },
        RetractPhaseView::Backups => asked !is Delete && exists|i: int|
            0 <= i < events.len() && is_deleted(#[trigger] events[i]),
        RetractPhaseView::Replay => exists|i: int|
            0 <= i < events.len() && is_deleted(#[trigger] events[i]),
        _ => asked !is Delete,
    }
}

/// Whether an event is a work that was deleted before.
pub open spec fn is_deleted(event: EventView) -> bool {
    event is Work && event->Work_0 is Some && event->Work_0->0.deleted_at is Some
}

proof fn lemma_settled_stays(
    start: (RetractRun, ActionView),
    events: Seq<EventView>,
    rows: Seq<CatalogPruneImageRow<Seq<char>>>,
)
    requires
        events.len() > 0,
        all_settled(start, events.drop_last(), rows),
    ensures
        all_settled(start, events, rows),
{
    let front = events.drop_last();
    assert forall|i: int| 0 <= i < rows.len() implies settled(start, events, #[trigger] rows[i]) by {
        let copy = crate::removal::backup_copy(rows[i], start.0.request.decision_id);
        assert(settled(start, front, rows[i]));
        if crate::effect::was_done(start, front, copy) {
            crate::effect::lemma_done_stays(start, events, copy);
        } else {
            let p = choose|p: int|
                {
                    &&& 0 <= p < front.len()
                    &&& front[p] is Failed
                    &&& text::has_part(front[p]->Failed_0, MISSING_OBJECT@)
                    &&& (#[trigger] crate::effect::after(start, front.take(p))).1 == copy
                };
            assert(front.take(p) =~= events.take(p));
            assert(was_missing(start, events, copy));
        }
    }
}

proof fn lemma_one_more_settled(
    start: (RetractRun, ActionView),
    events: Seq<EventView>,
    rows: Seq<CatalogPruneImageRow<Seq<char>>>,
    k: int,
)
    requires
        0 <= k < rows.len(),
        all_settled(start, events, rows.take(k)),
        settled(start, events, rows[k]),
    ensures
        all_settled(start, events, rows.take(k + 1)),
        k + 1 == rows.len() ==> all_settled(start, events, rows),
{
    assert forall|i: int| 0 <= i < k + 1 implies settled(
        start,
        events,
        #[trigger] rows.take(k + 1)[i],
    ) by {
        if i < k {
            assert(rows.take(k)[i] == rows.take(k + 1)[i]);
        }
    }
    if k + 1 == rows.len() {
        assert(rows.take(k + 1) =~= rows);
    }
}

proof fn lemma_history(
    request: RetractView,
    start: (RetractRun, ActionView),
    events: Seq<EventView>,
)
    requires
        retract_begun(Some(request)) == Ok::<(RetractRun, ActionView), ReplyView>(start),
    ensures
        history(start, events),
    decreases events.len(),
{
    if events.len() > 0 {
        let front = events.drop_last();
        let event = events.last();
        let last = events.len() - 1;
        lemma_history(request, start, front);
        let (was, asked) = crate::effect::after(start, front);
        let (now, asks) = crate::effect::after(start, events);
        assert(front =~= events.take(last));
        match (was.phase, event) {
            (RetractPhaseView::Work, EventView::Work(Some(row))) => {
                if row.deleted_at is Some {
                    assert(is_deleted(events[last]));
                }
            },
            (RetractPhaseView::Backups, EventView::Texts(keys)) => {
                let i = choose|i: int| 0 <= i < front.len() && is_deleted(#[trigger] front[i]);
                assert(is_deleted(events[i]));
            },
            (RetractPhaseView::Tags(images), EventView::Texts(tags)) => {
                assert(all_settled(start, events, images.take(0)));
                if images.len() == 0 {
                    assert(images =~= images.take(0));
                }
            },
            (RetractPhaseView::Copying(removal, k), EventView::Done) => {
                lemma_settled_stays(start, events, removal.images.take(k));
                crate::effect::lemma_done_now(start, events);
                assert(settled(start, events, removal.images[k]));
                lemma_one_more_settled(start, events, removal.images, k);
            },
            (RetractPhaseView::Copying(removal, k), EventView::Failed(message)) => {
                if text::has_part(message, MISSING_OBJECT@) {
                    lemma_settled_stays(start, events, removal.images.take(k));
                    assert(crate::effect::after(start, events.take(last)).1 == asked);
                    assert(was_missing(start, events, asked));
                    assert(settled(start, events, removal.images[k]));
                    lemma_one_more_settled(start, events, removal.images, k);
                }
            },
            (RetractPhaseView::Time(removal), EventView::Now(t)) => {
                lemma_settled_stays(start, events, removal.images);
                assert(asks == ActionView::Batch(retract_batch(now.request, removal, t)));
            },
            (RetractPhaseView::Commit(removal), EventView::Done) => {
                let t = choose|t: Seq<char>|
                    asked == ActionView::Batch(#[trigger] retract_batch(was.request, removal, t));
                lemma_settled_stays(start, events, removal.images);
                crate::effect::lemma_done_now(start, events);
                assert(committed(start, events, removal, t));
            },
            _ => {},
        }
    }
}

/// An object is deleted only when nothing needs it any more: unless the work had
/// been taken out before, each image was copied to its backup or is not there,
/// then the transaction went through, and then exactly the keys of these images
/// are deleted.
pub proof fn law_retract_deletes_after_commit(
    request: RetractView,
    start: (RetractRun, ActionView),
    events: Seq<EventView>,
    deleted: Seq<Seq<char>>,
)
    requires
        retract_begun(Some(request)) == Ok::<(RetractRun, ActionView), ReplyView>(start),
        crate::effect::after(start, events).1 == ActionView::Delete(deleted),
        forall|i: int| 0 <= i < events.len() ==> !is_deleted(#[trigger] events[i]),
    ensures
        exists|removal: RemovalView, now: Seq<char>|
            deleted == crate::removal::keys_of(removal.images) && #[trigger] committed(
                start,
                events,
                removal,
                now,
            ),
{
    lemma_history(request, start, events);
    match crate::effect::after(start, events).0.phase {
        RetractPhaseView::Deleting(removal) => {
            let t = choose|t: Seq<char>| #[trigger] committed(start, events, removal, t);
            assert(committed(start, events, removal, t));
        },
        _ => {},
    }
}

/// A work that was taken out before is not taken out again: whatever backups are
/// there, the only change is that their originals are deleted.
pub proof fn law_retract_replay(
    request: RetractView,
    start: (RetractRun, ActionView),
    row: crate::rows::RetractWorkRow<Seq<char>>,
    keys: Seq<Seq<char>>,
)
    requires
        retract_begun(Some(request)) == Ok::<(RetractRun, ActionView), ReplyView>(start),
        row.id == request.work_id,
        row.deleted_at is Some,
    ensures
        ({
            let (asking, query) = start.0.next(EventView::Work(Some(row)));
            let (then, action) = asking.next(EventView::Texts(keys));
            let reply = ActionView::Reply(retracted_view(request.work_id, true));
            let originals = tags::nonempty(keys);
            &&& query is Query
            &&& if originals.len() > 0 {
                action == ActionView::Delete(originals) && then.next(EventView::Done).1 == reply
            } else {
                action == reply
            }
        }),
{
}

// ---------------------------------------------------------------------------
// What the steps, statements and replies say
// ---------------------------------------------------------------------------

/// The transaction that takes a work back, statement by statement: the backup of
/// each image that was copied is recorded; the work loses its images and its tags
/// and is deleted, and so are its publications that are not; each tag that it had
/// is counted anew.
#[verifier::rlimit(60)]
pub proof fn law_retract_statements(request: RetractView, removal: RemovalView, now: Seq<char>)
    ensures
        retract_batch(request, removal, now).len() == removal.copied.len() + 4 + tags::nonempty(removal.tags).len(),
        forall|i: int|
            0 <= i < removal.copied.len() ==> crate::sql::says(
                retract_batch(request, removal, now)[i],
                r#"INSERT INTO catalog_prune_backups
                   (original_r2_key,backup_r2_key,decision_id,work_id,created_at)
                   VALUES (?,?,?,?,?)"#@,
                seq![
                    SqlView::Text((#[trigger] removal.copied[i]).r2_key),
                    SqlView::Text("review-trash/"@ + crate::keys::directory_name(request.decision_id) + "/"@ + (#[trigger] removal.copied[i]).r2_key),
                    SqlView::Text(request.decision_id),
                    SqlView::Text((#[trigger] removal.copied[i]).work_id),
                    SqlView::Text(now),
                ],
            ),
        crate::sql::says(
            retract_batch(request, removal, now)[removal.copied.len() as int],
            "DELETE FROM images WHERE work_id=?"@,
            seq![
                SqlView::Text(request.work_id),
            ],
        ),
        crate::sql::says(
            retract_batch(request, removal, now)[removal.copied.len() + 1int],
            "DELETE FROM work_tags WHERE work_id=?"@,
            seq![
                SqlView::Text(request.work_id),
            ],
        ),
        crate::sql::says(
            retract_batch(request, removal, now)[removal.copied.len() + 2int],
            "UPDATE works SET deleted_at=? WHERE id=?"@,
            seq![
                SqlView::Text(now),
                SqlView::Text(request.work_id),
            ],
        ),
        crate::sql::says(
            retract_batch(request, removal, now)[removal.copied.len() + 3int],
            "UPDATE telegram_publications SET deleted_at=? WHERE work_id=? AND deleted_at IS NULL"@,
            seq![
                SqlView::Text(now),
                SqlView::Text(request.work_id),
            ],
        ),
        forall|k: int|
            0 <= k < tags::nonempty(removal.tags).len() ==> crate::sql::says(
                retract_batch(request, removal, now)[removal.copied.len() + 4 + k],
                r#"UPDATE tags SET use_count=(
                     SELECT COUNT(*) FROM work_tags WHERE tag=?
                   ) WHERE name=?"#@,
                seq![
                    SqlView::Text(#[trigger] tags::nonempty(removal.tags)[k]),
                    SqlView::Text(tags::nonempty(removal.tags)[k]),
                ],
            ),
{
    let n = removal.copied.len() as int;
    let batch = retract_batch(request, removal, now);
    let named = tags::nonempty(removal.tags);
    crate::removal::law_lists_of_statements(removal.copied, named, request.decision_id, now);
    let copies = crate::removal::backup_statements(removal.copied, request.decision_id, now);
    let counts = crate::removal::recount_statements(named);
    assert forall|i: int| 0 <= i < n implies crate::sql::says(
        batch[i],
        r#"INSERT INTO catalog_prune_backups
                   (original_r2_key,backup_r2_key,decision_id,work_id,created_at)
                   VALUES (?,?,?,?,?)"#@,
        seq![
            SqlView::Text((#[trigger] removal.copied[i]).r2_key),
            SqlView::Text("review-trash/"@ + crate::keys::directory_name(request.decision_id) + "/"@ + (#[trigger] removal.copied[i]).r2_key),
            SqlView::Text(request.decision_id),
            SqlView::Text((#[trigger] removal.copied[i]).work_id),
            SqlView::Text(now),
        ],
    ) by {
        assert(batch[i] == copies[i]);
        crate::removal::law_backup_is_recorded(removal.copied[i], request.decision_id, now);
    }
    assert forall|k: int| 0 <= k < named.len() implies batch[n + 4 + k] == counts[k]
        && #[trigger] named[k] == named[k] by {}
}

/// Whether a reply says which work was taken back, and whether it is a replay.
pub open spec fn says_retracted(reply: ReplyView, work_id: Seq<char>, replayed: bool) -> bool {
    &&& reply.status == 200
    &&& crate::json::member_count(reply.body) == 3
    &&& crate::json::tells(reply.body, "ok"@, JsonView::Bool(true))
    &&& crate::json::tells(reply.body, "replayed"@, JsonView::Bool(replayed))
    &&& crate::json::tells(reply.body, "work_id"@, JsonView::Text(work_id))
}

/// The reply to a work that was taken back reads as it should.
pub proof fn law_retract_reply(work_id: Seq<char>, replayed: bool)
    ensures
        says_retracted(retracted_view(work_id, replayed), work_id, replayed),
{
    reveal_strlit("ok");
    reveal_strlit("replayed");
    reveal_strlit("work_id");
    assert("ok"@.len() != "replayed"@.len());
    assert("ok"@.len() != "work_id"@.len());
    assert("replayed"@.len() != "work_id"@.len());
    let d = retracted_view(work_id, replayed).body;
    let l_d = d->Object_0;
    assert(l_d[0].name == "ok"@ && l_d[0].value == JsonView::Bool(true));
    assert(l_d[1].name == "replayed"@ && l_d[1].value == JsonView::Bool(replayed));
    assert(l_d[2].name == "work_id"@ && l_d[2].value == JsonView::Text(work_id));
}

/// The steps of taking a work back: the work is looked for, then its images and
/// its tags; each image is copied to its backup, and one that is not there is
/// passed over; then comes the transaction, and the keys of all images are
/// deleted. Of a work that is deleted already, only the originals of its backups
/// are deleted.
#[verifier::rlimit(60)]
pub proof fn law_retract_steps(
    request: RetractView,
    row: crate::rows::RetractWorkRow<Seq<char>>,
    images: Seq<CatalogPruneImageRow<Seq<char>>>,
    found: Seq<Seq<char>>,
    removal: RemovalView,
    now: Seq<char>,
    message: Seq<char>,
    i: int,
)
    requires
        crate::catalog::retract_fault(request.decision_id, request.work_id) is None,
        images.len() > 0,
        0 <= i < removal.images.len(),
    ensures
        retract_begun(Some(request)) is Ok,
        retract_begun(Some(request))->Ok_0.0 == (RetractRun { request, phase: RetractPhaseView::Work }),
        crate::effect::queries(
            retract_begun(Some(request))->Ok_0.1,
            Table::RetractWork,
            "SELECT id, deleted_at FROM works WHERE id=?"@,
            seq![
                SqlView::Text(request.work_id),
            ],
        ),
        crate::effect::refuses((RetractRun { request, phase: RetractPhaseView::Work }).next(EventView::Work(None)).1, "work not active"@, 409),
        row.id != request.work_id ==> crate::effect::refuses(
            (RetractRun { request, phase: RetractPhaseView::Work }).next(EventView::Work(Some(row))).1,
            "work not active"@,
            409,
        ),
        row.id == request.work_id && row.deleted_at is Some ==> {
            let (then, asks) = (RetractRun { request, phase: RetractPhaseView::Work }).next(EventView::Work(Some(row)));
            let keys = tags::nonempty(found);
            let (replays, deletes) = then.next(EventView::Texts(found));
            &&& crate::effect::queries(
                asks,
                Table::Backups,
                "SELECT original_r2_key FROM catalog_prune_backups WHERE work_id=? AND decision_id=?"@,
                seq![
                    SqlView::Text(request.work_id),
                    SqlView::Text(request.decision_id),
                ],
            )
            &&& keys.len() > 0 ==> deletes == ActionView::Delete(keys)
            &&& keys.len() > 0 ==> replays.next(EventView::Done).1 is Reply && says_retracted(
                replays.next(EventView::Done).1->Reply_0,
                request.work_id,
                true,
            )
            &&& keys.len() == 0 ==> deletes is Reply && says_retracted(
                deletes->Reply_0,
                request.work_id,
                true,
            )
        },
        row.id == request.work_id && row.deleted_at is None ==> {
            let (then, asks) = (RetractRun { request, phase: RetractPhaseView::Work }).next(EventView::Work(Some(row)));
            let (tagged, wants) = then.next(EventView::Images(images));
            let (copying, copies) = tagged.next(EventView::Texts(found));
            &&& crate::effect::queries(
                asks,
                Table::PruneImages,
                r#"SELECT i.id,i.work_id,i.r2_key
                   FROM images i JOIN works w ON w.id=i.work_id
                   WHERE i.work_id=? AND w.deleted_at IS NULL
                   ORDER BY i.page_index"#@,
                seq![
                    SqlView::Text(request.work_id),
                ],
            )
            &&& crate::effect::queries(
                wants,
                Table::WorkTags,
                "SELECT tag FROM work_tags WHERE work_id=?"@,
                seq![
                    SqlView::Text(request.work_id),
                ],
            )
            &&& copying.phase is Copying && copying.phase->Copying_1 == 0
            &&& copying.phase->Copying_0.images == images
            &&& copying.phase->Copying_0.tags == found
            &&& copying.phase->Copying_0.copied.len() == 0
            &&& copies == crate::removal::backup_copy(images[0], request.decision_id)
        },
        ({
            let run = RetractRun { request, phase: RetractPhaseView::Copying(removal, i) };
            let (done, after_done) = run.next(EventView::Done);
            let (skipped, after_skipped) = run.next(EventView::Failed(message));
            let missing = text::has_part(message, "R2 object not found"@);
            &&& !missing ==> after_skipped == ActionView::Fail(message)
            &&& i + 1 < removal.images.len() ==> {
                &&& after_done == crate::removal::backup_copy(
                    removal.images[i + 1],
                    request.decision_id,
                )
                &&& done.phase is Copying && done.phase->Copying_1 == i + 1
                &&& done.phase->Copying_0.images == removal.images
                &&& done.phase->Copying_0.tags == removal.tags
                &&& done.phase->Copying_0.copied == removal.copied.push(removal.images[i])
                &&& missing ==> skipped == (RetractRun { request, phase: RetractPhaseView::Copying(removal, i + 1) }) && after_skipped == after_done
            }
            &&& i + 1 == removal.images.len() ==> {
                &&& after_done == ActionView::Clock
                &&& done.phase is Time
                &&& done.phase->Time_0.images == removal.images
                &&& done.phase->Time_0.tags == removal.tags
                &&& done.phase->Time_0.copied == removal.copied.push(removal.images[i])
                &&& missing ==> skipped == (RetractRun { request, phase: RetractPhaseView::Time(removal) }) && after_skipped == ActionView::Clock
            }
        }),
        (RetractRun { request, phase: RetractPhaseView::Time(removal) }).next(EventView::Now(now)) == (
            (RetractRun { request, phase: RetractPhaseView::Commit(removal) }),
            ActionView::Batch(retract_batch(request, removal, now)),
        ),
        (RetractRun { request, phase: RetractPhaseView::Commit(removal) }).next(EventView::Done) == (
            (RetractRun { request, phase: RetractPhaseView::Deleting(removal) }),
            ActionView::Delete(crate::removal::keys_of(removal.images)),
        ),
        ({
            let told = (RetractRun { request, phase: RetractPhaseView::Deleting(removal) }).next(EventView::Done).1;
            told is Reply && says_retracted(told->Reply_0, request.work_id, false)
        }),
{
    crate::effect::law_refusals_say_why("work not active"@, 409);
    law_retract_reply(request.work_id, false);
    law_retract_reply(request.work_id, true);
}

/// Taking a work back answers or fails in its last step, and in no other; what was asked of it
/// never changes, and once it is over every event is unexpected.
pub proof fn law_retract_ends(run: RetractRun, event: EventView)
    ensures
        run.next(event).0.request == run.request,
        run.next(event).0.phase is End <==> run.next(event).1 is Reply || run.next(event).1 is Fail,
        run.phase is End && event !is Failed ==> run.next(event).1 == ActionView::Fail(
            "unexpected event"@,
        ),
{
}

} // verus!
