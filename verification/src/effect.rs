//! What a handler asks of the outside world, and what it hears back.
//!
//! A handler is a machine: it names one action at a time, and takes one step for
//! each event. Reading rows, changing them, copying and deleting objects and
//! asking the clock are actions; a reply or a failure is the last one.

use crate::catalog::{CatalogPublicationRow, CatalogWorkPruneReceiptRow, WorkReceiptView};
use crate::json::{Reply, ReplyView};
use crate::rows::{
    CatalogPruneImageRow, IdempotencyRow, ImageRow, Publication, Receipt, ReceiptView,
    RetractWorkRow, TelegramReceiptView, TelegramResultReceiptRow, WorkPublicationRow, WorkState,
};
use crate::sql::{Statement, StatementView};
use crate::text;
use vstd::prelude::*;

verus! {

/// The failure of a machine that hears what it did not ask for.
pub const UNEXPECTED: &'static str = "unexpected event";

/// What a query reads, and which event hands it back.
#[derive(Debug, Clone, Copy, PartialEq, Eq, Structural)]
pub enum Table {
    /// One row of `fingerprint`, `response_json` and `status_code`.
    Idempotency,
    /// All rows of `r2_key`, none of them where they cannot be read.
    OldKeys,
    /// One row of `id`.
    ActiveWork,
    /// One row of a stored publication.
    Publication,
    /// One row of `removed_json`.
    PruneReceipt,
    /// One image that is to be removed or kept.
    PruneImage,
    /// All images that are to be removed.
    PruneImages,
    /// One receipt of removed works.
    WorkPruneReceipt,
    /// All rows of `tag`.
    WorkTags,
    /// All publications of a work.
    WorkPublications,
    /// One row of `id` and `deleted_at`.
    RetractWork,
    /// All rows of `original_r2_key`.
    Backups,
    /// One receipt of removed works, as far as their messages go.
    TelegramReceipt,
    /// One stored review of an image.
    ReviewReceipt,
    /// One image in full.
    ReviewImage,
    /// All images of a work in full.
    ReviewImages,
    /// One row of `review_version` and `deleted_at`.
    ReviewWork,
    /// All publications of a work, with their states.
    ReviewPublications,
}

/// An object to store: one of the files of the request, under a key.
#[derive(Debug, Clone, PartialEq, Eq)]
pub struct Upload {
    pub file: usize,
    pub key: String,
    pub content_type: String,
    pub cache_control: String,
    pub metadata: Vec<(String, String)>,
}

/// The mathematical value of an [`Upload`].
pub struct UploadView {
    pub file: int,
    pub key: Seq<char>,
    pub content_type: Seq<char>,
    pub cache_control: Seq<char>,
    pub metadata: Seq<(Seq<char>, Seq<char>)>,
}

impl View for Upload {
    type V = UploadView;

    open spec fn view(&self) -> UploadView {
        UploadView {
            file: self.file as int,
            key: self.key@,
            content_type: self.content_type@,
            cache_control: self.cache_control@,
            metadata: crate::outside::pair_texts(self.metadata@),
        }
    }
}

/// What a handler asks for.
#[derive(Debug, PartialEq, Eq)]
pub enum Action {
    /// Read rows.
    Query(Table, Statement),
    /// Run one statement.
    Run(Statement),
    /// Run statements in one transaction.
    Batch(Vec<Statement>),
    /// Copy an object from the first key to the second.
    Copy(String, String),
    /// Delete objects.
    Delete(Vec<String>),
    /// Delete an object if that is possible.
    Forget(String),
    /// Whether there is an object.
    Head(String),
    /// Store an object.
    Put(Upload),
    /// What time it is.
    Clock,
    /// Answer the request.
    Reply(Reply),
    /// Give up.
    Fail(String),
}

/// The mathematical value of an [`Action`].
pub enum ActionView {
    Query(Table, StatementView),
    Run(StatementView),
    Batch(Seq<StatementView>),
    Copy(Seq<char>, Seq<char>),
    Delete(Seq<Seq<char>>),
    Forget(Seq<char>),
    Head(Seq<char>),
    Put(UploadView),
    Clock,
    Reply(ReplyView),
    Fail(Seq<char>),
}

impl View for Action {
    type V = ActionView;

    open spec fn view(&self) -> ActionView {
        match self {
            Action::Query(table, s) => ActionView::Query(*table, s@),
            Action::Run(s) => ActionView::Run(s@),
            Action::Batch(list) => ActionView::Batch(crate::sql::statement_views(list@)),
            Action::Copy(from, to) => ActionView::Copy(from@, to@),
            Action::Delete(keys) => ActionView::Delete(text::texts(keys@)),
            Action::Forget(key) => ActionView::Forget(key@),
            Action::Head(key) => ActionView::Head(key@),
            Action::Put(upload) => ActionView::Put(upload@),
            Action::Clock => ActionView::Clock,
            Action::Reply(reply) => ActionView::Reply(reply@),
            Action::Fail(message) => ActionView::Fail(message@),
        }
    }
}

/// What a handler hears.
#[derive(Debug, PartialEq, Eq)]
pub enum Event {
    /// The one column of the first row, if there is a row.
    Text(Option<String>),
    /// The one column of all rows.
    Texts(Vec<String>),
    Idempotency(Option<IdempotencyRow<String>>),
    Publication(Option<CatalogPublicationRow<String>>),
    Image(Option<CatalogPruneImageRow<String>>),
    Images(Vec<CatalogPruneImageRow<String>>),
    WorkReceipt(Option<CatalogWorkPruneReceiptRow>),
    Publications(Vec<WorkPublicationRow<String>>),
    Work(Option<RetractWorkRow<String>>),
    TelegramReceipt(Option<TelegramResultReceiptRow>),
    ReviewReceipt(Option<Receipt>),
    ReviewImage(Option<ImageRow<String>>),
    ReviewImages(Vec<ImageRow<String>>),
    ReviewWork(Option<WorkState<String>>),
    ReviewPublications(Vec<Publication<String>>),
    /// A change was made.
    Done,
    /// The time.
    Now(String),
    /// Whether there is an object.
    Found(bool),
    /// The action failed.
    Failed(String),
}

/// The mathematical value of an [`Event`].
pub enum EventView {
    Text(Option<Seq<char>>),
    Texts(Seq<Seq<char>>),
    Idempotency(Option<IdempotencyRow<Seq<char>>>),
    Publication(Option<CatalogPublicationRow<Seq<char>>>),
    Image(Option<CatalogPruneImageRow<Seq<char>>>),
    Images(Seq<CatalogPruneImageRow<Seq<char>>>),
    WorkReceipt(Option<WorkReceiptView>),
    Publications(Seq<WorkPublicationRow<Seq<char>>>),
    Work(Option<RetractWorkRow<Seq<char>>>),
    TelegramReceipt(Option<TelegramReceiptView>),
    ReviewReceipt(Option<ReceiptView>),
    ReviewImage(Option<ImageRow<Seq<char>>>),
    ReviewImages(Seq<ImageRow<Seq<char>>>),
    ReviewWork(Option<WorkState<Seq<char>>>),
    ReviewPublications(Seq<Publication<Seq<char>>>),
    Done,
    Now(Seq<char>),
    Found(bool),
    Failed(Seq<char>),
}

impl View for Event {
    type V = EventView;

    open spec fn view(&self) -> EventView {
        match self {
            Event::Text(t) => EventView::Text(crate::outside::opt_text(*t)),
            Event::Texts(list) => EventView::Texts(text::texts(list@)),
            Event::Idempotency(row) => EventView::Idempotency(crate::rows::opt_view(*row)),
            Event::Publication(row) => EventView::Publication(crate::rows::opt_view(*row)),
            Event::Image(row) => EventView::Image(crate::rows::opt_view(*row)),
            Event::Images(rows) => EventView::Images(crate::rows::views(rows@)),
            Event::WorkReceipt(row) => EventView::WorkReceipt(crate::rows::opt_view(*row)),
            Event::Publications(rows) => EventView::Publications(crate::rows::views(rows@)),
            Event::Work(row) => EventView::Work(crate::rows::opt_view(*row)),
            Event::TelegramReceipt(row) => EventView::TelegramReceipt(crate::rows::opt_view(*row)),
            Event::ReviewReceipt(row) => EventView::ReviewReceipt(crate::rows::opt_view(*row)),
            Event::ReviewImage(row) => EventView::ReviewImage(crate::rows::opt_view(*row)),
            Event::ReviewImages(rows) => EventView::ReviewImages(crate::rows::views(rows@)),
            Event::ReviewWork(row) => EventView::ReviewWork(crate::rows::opt_view(*row)),
            Event::ReviewPublications(rows) => EventView::ReviewPublications(
                crate::rows::views(rows@),
            ),
            Event::Done => EventView::Done,
            Event::Now(t) => EventView::Now(t@),
            Event::Found(b) => EventView::Found(*b),
            Event::Failed(message) => EventView::Failed(message@),
        }
    }
}

/// The last action of a machine that hears `event` where it cannot go on: its
/// failure, or that the event was not asked for.
pub open spec fn stop(event: EventView) -> ActionView {
    match event {
        EventView::Failed(message) => ActionView::Fail(message),
        _ => ActionView::Fail(UNEXPECTED@),
    }
}

/// The last action of a machine that cannot go on.
pub fn give_up(event: Event) -> (r: Action)
    ensures
        r@ == stop(event@),
{
    match event {
        Event::Failed(message) => Action::Fail(message),
        _ => Action::Fail(UNEXPECTED.to_owned()),
    }
}

/// Whether an action reads a table by a statement with a text and some values.
pub open spec fn queries(
    action: ActionView,
    table: Table,
    sql: Seq<char>,
    binds: Seq<crate::sql::SqlView>,
) -> bool {
    match action {
        ActionView::Query(t, s) => t == table && crate::sql::says(s, sql, binds),
        _ => false,
    }
}

/// Whether an action runs a statement with a text and some values.
pub open spec fn runs(
    action: ActionView,
    sql: Seq<char>,
    binds: Seq<crate::sql::SqlView>,
) -> bool {
    match action {
        ActionView::Run(s) => crate::sql::says(s, sql, binds),
        _ => false,
    }
}

/// Whether an action is a refusal: the status and the message are told, and that
/// the request was not met.
pub open spec fn refuses(action: ActionView, message: Seq<char>, status: u16) -> bool {
    match action {
        ActionView::Reply(r) => crate::json::is_refusal(r, message, status),
        _ => false,
    }
}

/// A refused request is told why.
pub proof fn law_refusals_say_why(message: Seq<char>, status: u16)
    ensures
        refuses(refuse(message, status), message, status),
{
    crate::json::law_refusal_reads(message, status);
}

/// Refuses the request.
pub open spec fn refuse(message: Seq<char>, status: u16) -> ActionView {
    ActionView::Reply(crate::json::refusal_view(message, status))
}

/// Refuses the request.
pub fn refusing(message: &str, status: u16) -> (r: Action)
    ensures
        r@ == refuse(message@, status),
{
    Action::Reply(crate::json::refusal(message, status))
}

/// The mathematical side of a handler: where it goes from a state, and what it
/// asks for then.
pub trait Machine: Sized {
    spec fn next(self, event: EventView) -> (Self, ActionView);
}

/// The state and the last action of a machine after some events, from its first
/// state and action.
pub open spec fn after<M: Machine>(start: (M, ActionView), events: Seq<EventView>) -> (
    M,
    ActionView,
)
    decreases events.len(),
{
    if events.len() == 0 {
        start
    } else {
        after(start, events.drop_last()).0.next(events.last())
    }
}

/// Whether a run asked for an action in the course of some events, and it was
/// done.
pub open spec fn was_done<M: Machine>(
    start: (M, ActionView),
    events: Seq<EventView>,
    action: ActionView,
) -> bool {
    exists|p: int|
        0 <= p < events.len() && events[p] == EventView::Done && (#[trigger] after(
            start,
            events.take(p),
        )).1 == action
}

/// What was done before the last event was done after it.
pub proof fn lemma_done_stays<M: Machine>(
    start: (M, ActionView),
    events: Seq<EventView>,
    action: ActionView,
)
    requires
        events.len() > 0,
        was_done(start, events.drop_last(), action),
    ensures
        was_done(start, events, action),
{
    let front = events.drop_last();
    let p = choose|p: int|
        0 <= p < front.len() && front[p] == EventView::Done && (#[trigger] after(
            start,
            front.take(p),
        )).1 == action;
    assert(front.take(p) =~= events.take(p));
}

/// What was asked for before the last event is done where that event says so.
pub proof fn lemma_done_now<M: Machine>(start: (M, ActionView), events: Seq<EventView>)
    requires
        events.len() > 0,
        events.last() == EventView::Done,
    ensures
        was_done(start, events, after(start, events.drop_last()).1),
{
    let last = events.len() - 1;
    assert(events.drop_last() =~= events.take(last));
    assert(events[last] == EventView::Done);
}

/// A machine that hears what it did not ask for fails, with the failure that it
/// heard where it heard one.
pub proof fn law_unexpected_events(event: EventView, message: Seq<char>)
    ensures
        stop(EventView::Failed(message)) == ActionView::Fail(message),
        event !is Failed ==> stop(event) == ActionView::Fail("unexpected event"@),
{
}

} // verus!
