//! The outcome of removing the messages of pruned works: it closes the receipt
//! of the decision, or notes why it is still open.

use crate::catalog::{
    sanitize_telegram_error, validate_stored_telegram_targets, validate_telegram_result,
    CatalogTelegramResult, TargetView, TelegramPruneTarget, CORRUPT_RECEIPT,
};
use crate::effect::{give_up, refusing, Action, ActionView, Event, EventView, Machine, Table};
use crate::json::{refusal, success, Json, JsonView, Members, Reply, ReplyView};
use crate::outside;
use crate::rows::{TelegramReceiptView, TelegramResultReceiptRow};
use crate::sql::{add_statement, no_statements, SqlView, Statement, StatementView};
use crate::text;
use vstd::prelude::*;

verus! {

/// Reads the receipt of a decision.
pub const TELEGRAM_RECEIPT_SQL: &'static str =
    r#"SELECT telegram_state, remove_work_ids_json, telegram_targets_json
               FROM catalog_work_prune_receipts WHERE decision_id=?"#;

/// Marks a publication as deleted.
pub const DELETE_PUBLICATION_SQL: &'static str =
    "UPDATE telegram_publications SET deleted_at=? WHERE id=?";

/// Closes a receipt.
pub const CLOSE_RECEIPT_SQL: &'static str = r#"UPDATE catalog_work_prune_receipts
                   SET telegram_state='complete', telegram_error=NULL, telegram_completed_at=?
                   WHERE decision_id=?"#;

/// Notes an error on an open receipt.
pub const NOTE_ERROR_SQL: &'static str = r#"UPDATE catalog_work_prune_receipts
           SET telegram_error=?
           WHERE decision_id=? AND telegram_state='pending'"#;

/// The mathematical value of a [`CatalogTelegramResult`].
pub struct ResultView {
    pub decision_id: Seq<char>,
    pub complete: bool,
    pub error: Option<Seq<char>>,
}

impl View for CatalogTelegramResult {
    type V = ResultView;

    open spec fn view(&self) -> ResultView {
        ResultView {
            decision_id: self.decision_id@,
            complete: self.complete,
            error: outside::opt_text(self.error),
        }
    }
}

/// Marks a publication as deleted.
pub open spec fn delete_publication(t: TargetView, now: Seq<char>) -> StatementView {
    crate::sql::statement(DELETE_PUBLICATION_SQL@).text(now).text(t.publication_id)
}

/// The transaction that closes a receipt: its publications are deleted.
pub open spec fn close_batch(
    decision_id: Seq<char>,
    targets: Seq<TargetView>,
    now: Seq<char>,
) -> Seq<StatementView> {
    targets.map_values(|t: TargetView| delete_publication(t, now)).push(
        crate::sql::statement(CLOSE_RECEIPT_SQL@).text(now).text(decision_id),
    )
}

fn closing_batch(decision_id: &str, targets: &[TelegramPruneTarget], now: &str) -> (r: Vec<
    Statement,
>)
    ensures
        crate::sql::statement_views(r@) == close_batch(
            decision_id@,
            crate::catalog::target_views(targets@),
            now@,
        ),
{
    let mut out = no_statements();
    let mut i: usize = 0;
    let ghost want = crate::catalog::target_views(targets@).map_values(
        |t: TargetView| delete_publication(t, now@),
    );
    assert(want.take(0) =~= Seq::<StatementView>::empty());
    while i < targets.len()
        invariant
            i <= targets@.len(),
            want == crate::catalog::target_views(targets@).map_values(
                |t: TargetView| delete_publication(t, now@),
            ),
            crate::sql::statement_views(out@) == want.take(i as int),
        decreases targets@.len() - i,
    {
        add_statement(
            &mut out,
            Statement::new(DELETE_PUBLICATION_SQL).text(now).text(
                targets[i].publication_id.as_str(),
            ),
        );
        assert(want[i as int] == delete_publication(targets@[i as int]@, now@));
        assert(want.take(i + 1) =~= want.take(i as int).push(want[i as int]));
        i += 1;
    }
    assert(want.take(i as int) =~= want);
    add_statement(&mut out, Statement::new(CLOSE_RECEIPT_SQL).text(now).text(decision_id));
    out
}

/// Notes an error, or that there is none, on an open receipt.
pub open spec fn note_statement(decision_id: Seq<char>, error: Option<Seq<char>>) -> StatementView {
    crate::sql::statement(NOTE_ERROR_SQL@).optional(crate::catalog::sanitized(error)).text(
        decision_id,
    )
}

/// The reply to an outcome.
pub open spec fn noted_view(state: Seq<char>, idempotent: bool) -> ReplyView {
    crate::json::success_view(
        crate::json::no_members().with("idempotent"@, JsonView::Bool(idempotent)).with(
            "ok"@,
            JsonView::Bool(true),
        ).with("telegram_state"@, JsonView::Text(state)),
    )
}

fn noted_reply(state: &str, idempotent: bool) -> (r: Reply)
    ensures
        r@ == noted_view(state@, idempotent),
{
    success(
        Members::new().with("idempotent", Json::Bool(idempotent)).with(
            "ok",
            Json::Bool(true),
        ).with("telegram_state", Json::text(state)),
    )
}

/// The targets of a receipt whose works read as the given list, where they make
/// sense.
pub open spec fn receipt_targets(
    works: Option<Seq<Seq<char>>>,
    targets: Option<Seq<TargetView>>,
) -> Option<Seq<TargetView>> {
    match (works, targets) {
        (Some(works), Some(targets)) => if crate::catalog::good_targets(targets, works) {
            Some(targets)
        } else {
            None
        },
        _ => None,
    }
}

/// The targets of a receipt whose works read as the given list.
pub fn check_receipt_targets(
    works: Option<Vec<String>>,
    targets: Option<Vec<TelegramPruneTarget>>,
) -> (r: Option<Vec<TelegramPruneTarget>>)
    ensures
        crate::catalog::opt_targets(r) == receipt_targets(
            outside::opt_texts(works),
            crate::catalog::opt_targets(targets),
        ),
{
    match (works, targets) {
        (Some(works), Some(targets)) => match validate_stored_telegram_targets(
            targets.as_slice(),
            works.as_slice(),
        ) {
            Ok(()) => Some(targets),
            Err(_) => None,
        },
        _ => None,
    }
}

/// How far noting an outcome is.
pub enum ResultPhase {
    /// The receipt is read.
    Receipt,
    /// The clock is asked.
    Time(Vec<TelegramPruneTarget>),
    /// The receipt is closed.
    Commit,
    /// The error is noted.
    Noting,
    /// All is said.
    End,
}

/// The mathematical value of a [`ResultPhase`].
pub enum ResultPhaseView {
    Receipt,
    Time(Seq<TargetView>),
    Commit,
    Noting,
    End,
}

impl View for ResultPhase {
    type V = ResultPhaseView;

    open spec fn view(&self) -> ResultPhaseView {
        match self {
            ResultPhase::Receipt => ResultPhaseView::Receipt,
            ResultPhase::Time(targets) => ResultPhaseView::Time(
                crate::catalog::target_views(targets@),
            ),
            ResultPhase::Commit => ResultPhaseView::Commit,
            ResultPhase::Noting => ResultPhaseView::Noting,
            ResultPhase::End => ResultPhaseView::End,
        }
    }
}

/// An outcome on its way.
pub struct TelegramResult {
    request: CatalogTelegramResult,
    phase: ResultPhase,
}

/// The mathematical value of a [`TelegramResult`].
pub struct ResultRun {
    pub request: ResultView,
    pub phase: ResultPhaseView,
}

impl View for TelegramResult {
    type V = ResultRun;

    closed spec fn view(&self) -> ResultRun {
        ResultRun { request: self.request@, phase: self.phase@ }
    }
}

impl ResultRun {
    /// One more step.
    pub open spec fn goes(self, phase: ResultPhaseView, action: ActionView) -> (
        ResultRun,
        ActionView,
    ) {
        (ResultRun { request: self.request, phase }, action)
    }

    /// The last step.
    pub open spec fn ends(self, action: ActionView) -> (ResultRun, ActionView) {
        self.goes(ResultPhaseView::End, action)
    }

    /// What follows from the receipt.
    pub open spec fn reads(self, receipt: TelegramReceiptView) -> (ResultRun, ActionView) {
        let closed = receipt.state == "complete"@;
        if self.request.complete && closed {
            self.ends(ActionView::Reply(noted_view("complete"@, true)))
        } else if self.request.complete {
            match receipt_targets(outside::json_string_list(receipt.works), receipt.targets) {
                Some(targets) => self.goes(ResultPhaseView::Time(targets), ActionView::Clock),
                None => self.ends(ActionView::Fail(CORRUPT_RECEIPT@)),
            }
        } else if closed {
            self.ends(crate::effect::refuse("telegram already complete"@, 409))
        } else {
            self.goes(
                ResultPhaseView::Noting,
                ActionView::Run(note_statement(self.request.decision_id, self.request.error)),
            )
        }
    }
}

impl Machine for ResultRun {
    open spec fn next(self, event: EventView) -> (ResultRun, ActionView) {
        match (self.phase, event) {
            (ResultPhaseView::Receipt, EventView::TelegramReceipt(None)) => self.ends(
                crate::effect::refuse("prune receipt not found"@, 409),
            ),
            (ResultPhaseView::Receipt, EventView::TelegramReceipt(Some(receipt))) => self.reads(
                receipt,
            ),
            (ResultPhaseView::Time(targets), EventView::Now(now)) => self.goes(
                ResultPhaseView::Commit,
                ActionView::Batch(close_batch(self.request.decision_id, targets, now)),
            ),
            (ResultPhaseView::Commit, EventView::Done) => self.ends(
                ActionView::Reply(noted_view("complete"@, false)),
            ),
            (ResultPhaseView::Noting, EventView::Done) => self.ends(
                ActionView::Reply(noted_view("pending"@, false)),
            ),
            _ => self.ends(crate::effect::stop(event)),
        }
    }
}

/// The first step of noting an outcome, or why it is refused.
pub open spec fn result_begun(request: Option<ResultView>) -> Result<
    (ResultRun, ActionView),
    ReplyView,
> {
    match request {
        None => Err(crate::json::refusal_view("invalid json"@, 400)),
        Some(request) => match crate::catalog::result_fault(
            request.decision_id,
            request.complete,
            request.error,
        ) {
            Some(fault) => Err(crate::json::refusal_view(fault, 400)),
            None => Ok(
                (
                    ResultRun { request, phase: ResultPhaseView::Receipt },
                    ActionView::Query(
                        Table::TelegramReceipt,
                        crate::sql::statement(TELEGRAM_RECEIPT_SQL@).text(request.decision_id),
                    ),
                ),
            ),
        },
    }
}

/// The value of the first step of noting an outcome.
pub open spec fn result_start(r: Result<(TelegramResult, Action), Reply>) -> Result<
    (ResultRun, ActionView),
    ReplyView,
> {
    match r {
        Ok(first) => Ok((first.0@, first.1@)),
        Err(reply) => Err(reply@),
    }
}

impl TelegramResult {
    /// Begins to note an outcome. The request is absent where it could not be
    /// read.
    pub fn begin(request: Option<CatalogTelegramResult>) -> (r: Result<
        (TelegramResult, Action),
        Reply,
    >)
        ensures
            result_start(r) == result_begun(crate::rows::opt_view(request)),
    {
        match request {
            None => Err(refusal("invalid json", 400)),
            Some(request) => match validate_telegram_result(&request) {
                Err(message) => Err(refusal(message, 400)),
                Ok(()) => {
                    let query = Statement::new(TELEGRAM_RECEIPT_SQL).text(
                        request.decision_id.as_str(),
                    );
                    Ok(
                        (
                            TelegramResult { request, phase: ResultPhase::Receipt },
                            Action::Query(Table::TelegramReceipt, query),
                        ),
                    )
                },
            },
        }
    }

    fn reads(request: CatalogTelegramResult, receipt: TelegramResultReceiptRow) -> (r: (
        TelegramResult,
        Action,
    ))
        ensures
            (r.0@, r.1@) == (ResultRun { request: request@, phase: ResultPhaseView::End }).reads(
                receipt@,
            ),
    {
        let closed = text::same_text(receipt.telegram_state.as_str(), "complete");
        if request.complete && closed {
            (
                TelegramResult { request, phase: ResultPhase::End },
                Action::Reply(noted_reply("complete", true)),
            )
        } else if request.complete {
            let works = outside::read_string_list(receipt.remove_work_ids_json.as_str());
            match check_receipt_targets(works, receipt.telegram_targets) {
                Some(targets) => (
                    TelegramResult { request, phase: ResultPhase::Time(targets) },
                    Action::Clock,
                ),
                None => (
                    TelegramResult { request, phase: ResultPhase::End },
                    Action::Fail(CORRUPT_RECEIPT.to_owned()),
                ),
            }
        } else if closed {
            (
                TelegramResult { request, phase: ResultPhase::End },
                refusing("telegram already complete", 409),
            )
        } else {
            let raw = match &request.error {
                Some(e) => Some(e.as_str()),
                None => None,
            };
            let error = sanitize_telegram_error(raw);
            let shown = match &error {
                Some(e) => Some(e.as_str()),
                None => None,
            };
            let note = Statement::new(NOTE_ERROR_SQL).optional(shown).text(
                request.decision_id.as_str(),
            );
            (TelegramResult { request, phase: ResultPhase::Noting }, Action::Run(note))
        }
    }

    /// Takes one step.
    pub fn step(self, event: Event) -> (r: (TelegramResult, Action))
        ensures
            (r.0@, r.1@) == self@.next(event@),
    {
        let request = self.request;
        match (self.phase, event) {
            (ResultPhase::Receipt, Event::TelegramReceipt(None)) => (
                TelegramResult { request, phase: ResultPhase::End },
                refusing("prune receipt not found", 409),
            ),
            (ResultPhase::Receipt, Event::TelegramReceipt(Some(receipt))) => TelegramResult::reads(
                request,
                receipt,
            ),
            (ResultPhase::Time(targets), Event::Now(now)) => {
                let batch = closing_batch(
                    request.decision_id.as_str(),
                    targets.as_slice(),
                    now.as_str(),
                );
                (TelegramResult { request, phase: ResultPhase::Commit }, Action::Batch(batch))
            },
            (ResultPhase::Commit, Event::Done) => (
                TelegramResult { request, phase: ResultPhase::End },
                Action::Reply(noted_reply("complete", false)),
            ),
            (ResultPhase::Noting, Event::Done) => (
                TelegramResult { request, phase: ResultPhase::End },
                Action::Reply(noted_reply("pending", false)),
            ),
            (_, event) => (
                TelegramResult { request, phase: ResultPhase::End },
                give_up(event),
            ),
        }
    }
}

/// A receipt that is closed stays as it is: a success is confirmed, a failure is
/// refused, and nothing is changed either way.
pub proof fn law_closed_receipt_is_final(
    request: ResultView,
    start: (ResultRun, ActionView),
    receipt: TelegramReceiptView,
)
    requires
        result_begun(Some(request)) == Ok::<(ResultRun, ActionView), ReplyView>(start),
        receipt.state == "complete"@,
    ensures
        start.0.next(EventView::TelegramReceipt(Some(receipt))).1 == (if request.complete {
            ActionView::Reply(noted_view("complete"@, true))
        } else {
            crate::effect::refuse("telegram already complete"@, 409)
        }),
{
}

/// What is noted of a failure never looks like a credential.
pub proof fn law_noted_error_is_clean(
    request: ResultView,
    start: (ResultRun, ActionView),
    receipt: TelegramReceiptView,
    note: StatementView,
)
    requires
        result_begun(Some(request)) == Ok::<(ResultRun, ActionView), ReplyView>(start),
        start.0.next(EventView::TelegramReceipt(Some(receipt))).1 == ActionView::Run(note),
    ensures
        match note.binds[0] {
            crate::sql::SqlView::Null => true,
            crate::sql::SqlView::Text(t) => !crate::catalog::looks_secret(text::ascii_lower(t)),
            _ => false,
        },
{
    if crate::catalog::sanitized(request.error) is Some {
        crate::catalog::law_sanitized_error(request.error);
    }
    let plain = crate::sql::statement(NOTE_ERROR_SQL@).optional(
        crate::catalog::sanitized(request.error),
    );
    assert(note.binds[0] == plain.binds[0]);
}

// ---------------------------------------------------------------------------
// What the steps, statements and replies say
// ---------------------------------------------------------------------------

/// A receipt is closed by deleting each publication that it names, by its own
/// name, and marking the receipt of the decision.
pub proof fn law_closing_statements(
    decision_id: Seq<char>,
    targets: Seq<TargetView>,
    now: Seq<char>,
)
    ensures
        close_batch(decision_id, targets, now).len() == targets.len() + 1,
        forall|i: int|
            0 <= i < targets.len() ==> crate::sql::says(
                close_batch(decision_id, targets, now)[i],
                "UPDATE telegram_publications SET deleted_at=? WHERE id=?"@,
                seq![
                    SqlView::Text(now),
                    SqlView::Text((#[trigger] targets[i]).publication_id),
                ],
            ),
        crate::sql::says(
            close_batch(decision_id, targets, now).last(),
            r#"UPDATE catalog_work_prune_receipts
                   SET telegram_state='complete', telegram_error=NULL, telegram_completed_at=?
                   WHERE decision_id=?"#@,
            seq![
                SqlView::Text(now),
                SqlView::Text(decision_id),
            ],
        ),
{
}

/// An error is noted on the receipt of the decision, cleaned, and only while the
/// receipt is open.
pub proof fn law_noting_statement(decision_id: Seq<char>, error: Option<Seq<char>>)
    ensures
        crate::sql::says(
            note_statement(decision_id, error),
            r#"UPDATE catalog_work_prune_receipts
           SET telegram_error=?
           WHERE decision_id=? AND telegram_state='pending'"#@,
            seq![
                match crate::catalog::sanitized(error) {
                    Some(t) => SqlView::Text(t),
                    None => SqlView::Null,
                },
                SqlView::Text(decision_id),
            ],
        ),
{
}

/// Whether a reply says what state the messages of a decision are in.
pub open spec fn says_state(reply: ReplyView, state: Seq<char>, idempotent: bool) -> bool {
    &&& reply.status == 200
    &&& crate::json::member_count(reply.body) == 3
    &&& crate::json::tells(reply.body, "idempotent"@, JsonView::Bool(idempotent))
    &&& crate::json::tells(reply.body, "ok"@, JsonView::Bool(true))
    &&& crate::json::tells(reply.body, "telegram_state"@, JsonView::Text(state))
}

/// The reply to a report reads as it should.
pub proof fn law_report_reply(state: Seq<char>, idempotent: bool)
    ensures
        says_state(noted_view(state, idempotent), state, idempotent),
{
    reveal_strlit("idempotent");
    reveal_strlit("ok");
    reveal_strlit("telegram_state");
    assert("idempotent"@.len() != "ok"@.len());
    assert("idempotent"@.len() != "telegram_state"@.len());
    assert("ok"@.len() != "telegram_state"@.len());
    let d = noted_view(state, idempotent).body;
    let l_d = d->Object_0;
    assert(l_d[0].name == "idempotent"@ && l_d[0].value == JsonView::Bool(idempotent));
    assert(l_d[1].name == "ok"@ && l_d[1].value == JsonView::Bool(true));
    assert(l_d[2].name == "telegram_state"@ && l_d[2].value == JsonView::Text(state));
}

/// The steps of a report: the receipt of its decision is looked for. An open one
/// is closed by a success, for exactly the messages that it names, and keeps the
/// error of a failure; a closed one stays as it is.
#[verifier::rlimit(40)]
pub proof fn law_report_steps(
    request: ResultView,
    receipt: TelegramReceiptView,
    works: Seq<Seq<char>>,
    targets: Seq<TargetView>,
    now: Seq<char>,
)
    requires
        crate::catalog::result_fault(request.decision_id, request.complete, request.error) is None,
    ensures
        result_begun(Some(request)) is Ok,
        result_begun(Some(request))->Ok_0.0 == (ResultRun { request, phase: ResultPhaseView::Receipt }),
        crate::effect::queries(
            result_begun(Some(request))->Ok_0.1,
            Table::TelegramReceipt,
            r#"SELECT telegram_state, remove_work_ids_json, telegram_targets_json
               FROM catalog_work_prune_receipts WHERE decision_id=?"#@,
            seq![
                SqlView::Text(request.decision_id),
            ],
        ),
        crate::effect::refuses(
            (ResultRun { request, phase: ResultPhaseView::Receipt }).next(EventView::TelegramReceipt(None)).1,
            "prune receipt not found"@,
            409,
        ),
        ({
            let (then, asks) = (ResultRun { request, phase: ResultPhaseView::Receipt }).next(EventView::TelegramReceipt(Some(receipt)));
            let closed = receipt.state == "complete"@;
            let good = outside::json_string_list(receipt.works) == Some(works) && receipt.targets
                == Some(targets) && crate::catalog::good_targets(targets, works);
            &&& request.complete && closed ==> asks is Reply && says_state(
                asks->Reply_0,
                "complete"@,
                true,
            )
            &&& request.complete && !closed && good ==> then == (ResultRun { request, phase: ResultPhaseView::Time(targets) }) && asks == ActionView::Clock
            &&& request.complete && !closed && receipt.targets is None ==> asks == ActionView::Fail(
                "corrupt prune receipt"@,
            )
            &&& !request.complete && closed ==> crate::effect::refuses(
                asks,
                "telegram already complete"@,
                409,
            )
            &&& !request.complete && !closed ==> then == (ResultRun { request, phase: ResultPhaseView::Noting }) && asks == ActionView::Run(
                note_statement(request.decision_id, request.error),
            )
        }),
        (ResultRun { request, phase: ResultPhaseView::Time(targets) }).next(EventView::Now(now)) == (
            (ResultRun { request, phase: ResultPhaseView::Commit }),
            ActionView::Batch(close_batch(request.decision_id, targets, now)),
        ),
        ({
            let told = (ResultRun { request, phase: ResultPhaseView::Commit }).next(EventView::Done).1;
            told is Reply && says_state(told->Reply_0, "complete"@, false)
        }),
        ({
            let told = (ResultRun { request, phase: ResultPhaseView::Noting }).next(EventView::Done).1;
            told is Reply && says_state(told->Reply_0, "pending"@, false)
        }),
{
    crate::effect::law_refusals_say_why("prune receipt not found"@, 409);
    crate::effect::law_refusals_say_why("telegram already complete"@, 409);
    law_report_reply("complete"@, true);
    law_report_reply("complete"@, false);
    law_report_reply("pending"@, false);
}

/// A report answers or fails in its last step, and in no other; what was asked of it
/// never changes, and once it is over every event is unexpected.
pub proof fn law_report_ends(run: ResultRun, event: EventView)
    ensures
        run.next(event).0.request == run.request,
        run.next(event).0.phase is End <==> run.next(event).1 is Reply || run.next(event).1 is Fail,
        run.phase is End && event !is Failed ==> run.next(event).1 == ActionView::Fail(
            "unexpected event"@,
        ),
{
}

} // verus!
