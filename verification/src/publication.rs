//! Recording the messages in which a work was published. A publication that is
//! recorded already is confirmed, or refused where it differs.

use crate::catalog::{
    same_catalog_publication, validate_catalog_publication, CatalogPublicationRequest,
    PublicationView,
};
use crate::effect::{give_up, refusing, Action, ActionView, Event, EventView, Machine, Table};
use crate::fingerprint::shape_ingest_id;
use crate::json::{refusal, success, Json, JsonView, Members, Reply, ReplyView};
use crate::outside;
use crate::removal::find_active_work;
use crate::sql::{SqlView, Statement, StatementView};
use crate::text;
use vstd::prelude::*;

verus! {

/// Reads a stored publication.
pub const STORED_PUBLICATION_SQL: &'static str =
    r#"SELECT work_id, chat_id, message_ids_json, publish_state
               FROM telegram_publications WHERE id=?"#;

/// Records a publication.
pub const INSERT_PUBLICATION_SQL: &'static str = r#"INSERT INTO telegram_publications
           (id, work_id, chat_id, anchor_message_id, message_ids_json, publish_state, created_at, deleted_at)
           VALUES (?, ?, ?, ?, ?, ?, ?, NULL)"#;

/// The identifier of a publication: one for each work, chat and first message.
/// Where there are no messages, zero stands for the first.
pub open spec fn publication_id_text(request: PublicationView) -> Seq<char> {
    let anchor: int = if request.message_ids.len() > 0 {
        request.message_ids[0] as int
    } else {
        0
    };
    crate::fingerprint::derived_id(
        Seq::<Seq<char>>::empty().push("telegram"@).push(request.work_id).push(
            text::signed_decimal(request.chat_id as int),
        ).push(text::signed_decimal(anchor)),
    )
}

/// The identifier of a publication: one for each work, chat and first message.
pub fn publication_id(request: &CatalogPublicationRequest) -> (r: String)
    ensures
        r@ == publication_id_text(request@),
{
    let anchor: i64 = if request.message_ids.len() > 0 {
        request.message_ids[0]
    } else {
        0
    };
    let chat = text::signed_text(request.chat_id as i128);
    let first = text::signed_text(anchor as i128);
    let parts: [&str; 4] = ["telegram", request.work_id.as_str(), chat.as_str(), first.as_str()];
    assert(crate::fingerprint::part_views(parts@) =~= Seq::<Seq<char>>::empty().push(
        "telegram"@,
    ).push(request@.work_id).push(chat@).push(first@));
    shape_ingest_id(parts.as_slice())
}

/// A list of numbers as it is recorded; it reads back as the same list.
pub fn recorded_numbers(list: &[i64]) -> (r: String)
    ensures
        r@ == outside::json_of_i64s(list@),
        outside::json_i64_list(r@) == Some(list@),
{
    match outside::write_i64_list(list) {
        Some(t) => t,
        None => String::new(),
    }
}

/// Records a publication; its first message is its anchor.
pub open spec fn insert_publication(
    id: Seq<char>,
    request: PublicationView,
    now: Seq<char>,
) -> StatementView {
    crate::sql::statement(INSERT_PUBLICATION_SQL@).text(id).text(request.work_id).num(
        request.chat_id as int,
    ).num(request.message_ids[0] as int).text(outside::json_of_i64s(request.message_ids)).text(
        request.publish_state,
    ).text(now)
}

fn record_publication(id: &str, request: &CatalogPublicationRequest, now: &str) -> (r: Statement)
    requires
        request.message_ids@.len() > 0,
    ensures
        r@ == insert_publication(id@, request@, now@),
        outside::json_i64_list(outside::json_of_i64s(request@.message_ids)) == Some(
            request@.message_ids,
        ),
{
    let ids = recorded_numbers(request.message_ids.as_slice());
    Statement::new(INSERT_PUBLICATION_SQL).text(id).text(request.work_id.as_str()).num(
        request.chat_id as i128,
    ).num(request.message_ids[0] as i128).text(ids.as_str()).text(
        request.publish_state.as_str(),
    ).text(now)
}

/// The reply to a recorded publication.
pub open spec fn recorded_view(id: Seq<char>, idempotent: bool) -> ReplyView {
    crate::json::success_view(
        crate::json::no_members().with("idempotent"@, JsonView::Bool(idempotent)).with(
            "ok"@,
            JsonView::Bool(true),
        ).with("publication_id"@, JsonView::Text(id)),
    )
}

fn recorded_reply(id: &str, idempotent: bool) -> (r: Reply)
    ensures
        r@ == recorded_view(id@, idempotent),
{
    success(
        Members::new().with("idempotent", Json::Bool(idempotent)).with(
            "ok",
            Json::Bool(true),
        ).with("publication_id", Json::text(id)),
    )
}

/// How far recording a publication is.
#[derive(Clone, Copy, PartialEq, Eq, Structural)]
pub enum PublicationPhase {
    /// The work is looked for.
    Work,
    /// The stored publication is looked for.
    Stored,
    /// The clock is asked.
    Time,
    /// The publication is recorded.
    Recording,
    /// All is said.
    End,
}

/// A publication on its way, under its identifier.
pub struct RecordPublication {
    request: CatalogPublicationRequest,
    id: String,
    phase: PublicationPhase,
}

/// The mathematical value of a [`RecordPublication`].
pub struct PublicationRun {
    pub request: PublicationView,
    pub id: Seq<char>,
    pub phase: PublicationPhase,
}

impl View for RecordPublication {
    type V = PublicationRun;

    closed spec fn view(&self) -> PublicationRun {
        PublicationRun { request: self.request@, id: self.id@, phase: self.phase }
    }
}

impl PublicationRun {
    /// There is a first message.
    pub open spec fn well_formed(self) -> bool {
        self.request.message_ids.len() > 0
    }

    /// One more step.
    pub open spec fn goes(self, phase: PublicationPhase, action: ActionView) -> (
        PublicationRun,
        ActionView,
    ) {
        (PublicationRun { request: self.request, id: self.id, phase }, action)
    }

    /// The last step.
    pub open spec fn ends(self, action: ActionView) -> (PublicationRun, ActionView) {
        self.goes(PublicationPhase::End, action)
    }
}

impl Machine for PublicationRun {
    open spec fn next(self, event: EventView) -> (PublicationRun, ActionView) {
        match (self.phase, event) {
            (PublicationPhase::Work, EventView::Text(found)) => if found == Some(
                self.request.work_id,
            ) {
                self.goes(
                    PublicationPhase::Stored,
                    ActionView::Query(
                        Table::Publication,
                        crate::sql::statement(STORED_PUBLICATION_SQL@).text(self.id),
                    ),
                )
            } else {
                self.ends(crate::effect::refuse("work not active"@, 409))
            },
            (PublicationPhase::Stored, EventView::Publication(Some(stored))) => {
                let ids = outside::json_i64_list(stored.message_ids_json);
                if crate::catalog::same_publication(stored, ids, self.request) {
                    self.ends(ActionView::Reply(recorded_view(self.id, true)))
                } else {
                    self.ends(crate::effect::refuse("publication conflict"@, 409))
                }
            },
            (PublicationPhase::Stored, EventView::Publication(None)) => self.goes(
                PublicationPhase::Time,
                ActionView::Clock,
            ),
            (PublicationPhase::Time, EventView::Now(now)) => self.goes(
                PublicationPhase::Recording,
                ActionView::Run(insert_publication(self.id, self.request, now)),
            ),
            (PublicationPhase::Recording, EventView::Done) => self.ends(
                ActionView::Reply(recorded_view(self.id, false)),
            ),
            _ => self.ends(crate::effect::stop(event)),
        }
    }
}

/// The first step of recording a publication, or why it is refused.
pub open spec fn publication_begun(request: Option<PublicationView>, id: Seq<char>) -> Result<
    (PublicationRun, ActionView),
    ReplyView,
> {
    match request {
        None => Err(crate::json::refusal_view("invalid json"@, 400)),
        Some(request) => match crate::catalog::publication_fault(request) {
            Some(fault) => Err(crate::json::refusal_view(fault, 400)),
            None => Ok(
                (
                    PublicationRun { request, id, phase: PublicationPhase::Work },
                    crate::removal::active_work(request.work_id),
                ),
            ),
        },
    }
}

/// The first step of recording a publication under its own identifier, or why
/// it is refused.
pub open spec fn publication_opened(request: Option<PublicationView>) -> Result<
    (PublicationRun, ActionView),
    ReplyView,
> {
    match request {
        None => publication_begun(None, Seq::empty()),
        Some(r) => publication_begun(Some(r), publication_id_text(r)),
    }
}

/// The value of the first step of recording a publication.
pub open spec fn publication_start(r: Result<(RecordPublication, Action), Reply>) -> Result<
    (PublicationRun, ActionView),
    ReplyView,
> {
    match r {
        Ok(first) => Ok((first.0@, first.1@)),
        Err(reply) => Err(reply@),
    }
}

impl RecordPublication {
    /// There is a first message.
    pub open spec fn well_formed(self) -> bool {
        self@.well_formed()
    }

    /// Begins to record a publication under its identifier, which stands for its
    /// work, its chat and its first message. The request is absent where it could
    /// not be read.
    pub fn begin(request: Option<CatalogPublicationRequest>) -> (r: Result<
        (RecordPublication, Action),
        Reply,
    >)
        ensures
            publication_start(r) == publication_opened(crate::rows::opt_view(request)),
            r is Ok ==> request is Some && r->Ok_0.0@.id == publication_id_text(request->Some_0@),
            r is Ok ==> r->Ok_0.0.well_formed(),
    {
        let id = match &request {
            None => String::new(),
            Some(request) => publication_id(request),
        };
        RecordPublication::begin_with(request, id)
    }

    /// Begins to record a publication under the identifier `id`.
    pub fn begin_with(request: Option<CatalogPublicationRequest>, id: String) -> (r: Result<
        (RecordPublication, Action),
        Reply,
    >)
        ensures
            publication_start(r) == publication_begun(crate::rows::opt_view(request), id@),
            r is Ok ==> r->Ok_0.0.well_formed(),
    {
        match request {
            None => Err(refusal("invalid json", 400)),
            Some(request) => match validate_catalog_publication(&request) {
                Err(message) => Err(refusal(message, 400)),
                Ok(()) => {
                    let action = find_active_work(request.work_id.as_str());
                    Ok((RecordPublication { request, id, phase: PublicationPhase::Work }, action))
                },
            },
        }
    }

    /// Takes one step. The messages that are recorded read back as those of the
    /// request.
    pub fn step(self, event: Event) -> (r: (RecordPublication, Action))
        requires
            self.well_formed(),
        ensures
            (r.0@, r.1@) == self@.next(event@),
            r.0.well_formed(),
            r.1@ is Run ==> outside::json_i64_list(
                outside::json_of_i64s(self@.request.message_ids),
            ) == Some(self@.request.message_ids),
    {
        let request = self.request;
        let id = self.id;
        match (self.phase, event) {
            (PublicationPhase::Work, Event::Text(found)) => {
                let active = match &found {
                    Some(f) => text::same_text(f.as_str(), request.work_id.as_str()),
                    None => false,
                };
                if active {
                    let query = Statement::new(STORED_PUBLICATION_SQL).text(id.as_str());
                    (
                        RecordPublication { request, id, phase: PublicationPhase::Stored },
                        Action::Query(Table::Publication, query),
                    )
                } else {
                    (
                        RecordPublication { request, id, phase: PublicationPhase::End },
                        refusing("work not active", 409),
                    )
                }
            },
            (PublicationPhase::Stored, Event::Publication(Some(stored))) => {
                let action = if same_catalog_publication(&stored, &request) {
                    Action::Reply(recorded_reply(id.as_str(), true))
                } else {
                    refusing("publication conflict", 409)
                };
                (RecordPublication { request, id, phase: PublicationPhase::End }, action)
            },
            (PublicationPhase::Stored, Event::Publication(None)) => (
                RecordPublication { request, id, phase: PublicationPhase::Time },
                Action::Clock,
            ),
            (PublicationPhase::Time, Event::Now(now)) => {
                let insert = record_publication(id.as_str(), &request, now.as_str());
                (
                    RecordPublication { request, id, phase: PublicationPhase::Recording },
                    Action::Run(insert),
                )
            },
            (PublicationPhase::Recording, Event::Done) => {
                let reply = recorded_reply(id.as_str(), false);
                (
                    RecordPublication { request, id, phase: PublicationPhase::End },
                    Action::Reply(reply),
                )
            },
            (_, event) => (
                RecordPublication { request, id, phase: PublicationPhase::End },
                give_up(event),
            ),
        }
    }
}

/// A publication that was recorded is looked for under its identifier and
/// confirmed when it is sent again, and any other one under that identifier is
/// refused; neither changes anything. The recorded list of messages reads as the
/// list of the request.
pub proof fn law_recorded_publication(
    first: PublicationView,
    again: PublicationView,
    id: Seq<char>,
    restart: (PublicationRun, ActionView),
    stored: crate::catalog::CatalogPublicationRow<Seq<char>>,
)
    requires
        publication_begun(Some(again), id) == Ok::<(PublicationRun, ActionView), ReplyView>(
            restart,
        ),
        stored.work_id == first.work_id,
        stored.chat_id == first.chat_id,
        stored.publish_state == first.publish_state,
        outside::json_i64_list(stored.message_ids_json) == Some(first.message_ids),
    ensures
        ({
            let (then, asks) = restart.0.next(EventView::Text(Some(again.work_id)));
            &&& asks == ActionView::Query(
                Table::Publication,
                crate::sql::statement(STORED_PUBLICATION_SQL@).text(id),
            )
            &&& then.next(EventView::Publication(Some(stored))).1 == (if again == first {
                ActionView::Reply(recorded_view(id, true))
            } else {
                crate::effect::refuse("publication conflict"@, 409)
            })
        }),
{
    let ids = outside::json_i64_list(stored.message_ids_json);
    if crate::catalog::same_publication(stored, ids, again) {
        assert(again == first);
    }
}

// ---------------------------------------------------------------------------
// What the steps, statements and replies say
// ---------------------------------------------------------------------------

/// Whether a reply says under which name a publication is recorded, and whether
/// it was before.
pub open spec fn says_recorded(reply: ReplyView, id: Seq<char>, idempotent: bool) -> bool {
    &&& reply.status == 200
    &&& crate::json::member_count(reply.body) == 3
    &&& crate::json::tells(reply.body, "idempotent"@, JsonView::Bool(idempotent))
    &&& crate::json::tells(reply.body, "ok"@, JsonView::Bool(true))
    &&& crate::json::tells(reply.body, "publication_id"@, JsonView::Text(id))
}

/// The reply to a recorded publication reads as it should.
pub proof fn law_publication_reply(id: Seq<char>, idempotent: bool)
    ensures
        says_recorded(recorded_view(id, idempotent), id, idempotent),
{
    reveal_strlit("idempotent");
    reveal_strlit("ok");
    reveal_strlit("publication_id");
    assert("idempotent"@.len() != "ok"@.len());
    assert("idempotent"@.len() != "publication_id"@.len());
    assert("ok"@.len() != "publication_id"@.len());
    let d = recorded_view(id, idempotent).body;
    let l_d = d->Object_0;
    assert(l_d[0].name == "idempotent"@ && l_d[0].value == JsonView::Bool(idempotent));
    assert(l_d[1].name == "ok"@ && l_d[1].value == JsonView::Bool(true));
    assert(l_d[2].name == "publication_id"@ && l_d[2].value == JsonView::Text(id));
}

/// The steps of recording a publication: its work must be active; the publication
/// is looked for under its name, and recorded under it where it is not there, with
/// its work, its chat, its first message as the anchor, all its messages and its
/// state.
#[verifier::rlimit(40)]
pub proof fn law_publication_steps(
    request: PublicationView,
    id: Seq<char>,
    found: Option<Seq<char>>,
    now: Seq<char>,
)
    requires
        crate::catalog::publication_fault(request) is None,
    ensures
        publication_begun(Some(request), id) is Ok,
        publication_begun(Some(request), id)->Ok_0.0 == (PublicationRun { request, id, phase: PublicationPhase::Work }),
        crate::effect::queries(
            publication_begun(Some(request), id)->Ok_0.1,
            Table::ActiveWork,
            "SELECT id FROM works WHERE id=? AND deleted_at IS NULL"@,
            seq![
                SqlView::Text(request.work_id),
            ],
        ),
        found != Some(request.work_id) ==> crate::effect::refuses(
            (PublicationRun { request, id, phase: PublicationPhase::Work }).next(EventView::Text(found)).1,
            "work not active"@,
            409,
        ),
        (PublicationRun { request, id, phase: PublicationPhase::Work }).next(EventView::Text(Some(request.work_id))).0 == (PublicationRun { request, id, phase: PublicationPhase::Stored }),
        crate::effect::queries(
            (PublicationRun { request, id, phase: PublicationPhase::Work }).next(EventView::Text(Some(request.work_id))).1,
            Table::Publication,
            r#"SELECT work_id, chat_id, message_ids_json, publish_state
               FROM telegram_publications WHERE id=?"#@,
            seq![
                SqlView::Text(id),
            ],
        ),
        (PublicationRun { request, id, phase: PublicationPhase::Stored }).next(EventView::Publication(None)) == ((PublicationRun { request, id, phase: PublicationPhase::Time }), ActionView::Clock),
        (PublicationRun { request, id, phase: PublicationPhase::Time }).next(EventView::Now(now)).0 == (PublicationRun { request, id, phase: PublicationPhase::Recording }),
        crate::effect::runs(
            (PublicationRun { request, id, phase: PublicationPhase::Time }).next(EventView::Now(now)).1,
            r#"INSERT INTO telegram_publications
           (id, work_id, chat_id, anchor_message_id, message_ids_json, publish_state, created_at, deleted_at)
           VALUES (?, ?, ?, ?, ?, ?, ?, NULL)"#@,
            seq![SqlView::Text(id), SqlView::Text(request.work_id), SqlView::Num(request.chat_id as int), SqlView::Num(request.message_ids[0] as int), SqlView::Text(outside::json_of_i64s(request.message_ids)), SqlView::Text(request.publish_state), SqlView::Text(now)],
        ),
        ({
            let told = (PublicationRun { request, id, phase: PublicationPhase::Recording }).next(EventView::Done).1;
            told is Reply && says_recorded(told->Reply_0, id, false)
        }),
{
    crate::effect::law_refusals_say_why("work not active"@, 409);
    law_publication_reply(id, false);
}

/// What is recorded is what is looked for: the values that are bound, read as a
/// stored row, are confirmed as the same publication under the same name, and are
/// a conflict for any other one. The list of messages is taken to read as it was
/// written, which the step that records it ensures.
pub proof fn law_publication_is_found_again(
    first: PublicationView,
    again: PublicationView,
    now: Seq<char>,
    stored: crate::catalog::CatalogPublicationRow<Seq<char>>,
)
    requires
        crate::catalog::publication_fault(first) is None,
        crate::catalog::publication_fault(again) is None,
        ({
            let id = publication_id_text(first);
            let binds = insert_publication(id, first, now).binds;
            &&& SqlView::Text(stored.work_id) == binds[1]
            &&& SqlView::Num(stored.chat_id as int) == binds[2]
            &&& SqlView::Text(stored.message_ids_json) == binds[4]
            &&& SqlView::Text(stored.publish_state) == binds[5]
        }),
        outside::json_i64_list(outside::json_of_i64s(first.message_ids)) == Some(first.message_ids),
    ensures
        ({
            let id = publication_id_text(first);
            let binds = insert_publication(id, first, now).binds;
            let (run, _) = publication_opened(Some(again))->Ok_0;
            let (looks, asks) = run.next(EventView::Text(Some(again.work_id)));
            let told = looks.next(EventView::Publication(Some(stored))).1;
            &&& asks is Query
            &&& again == first ==> asks->Query_1.binds =~= seq![binds[0]]
            &&& again == first ==> told is Reply && says_recorded(told->Reply_0, id, true)
            &&& again != first ==> crate::effect::refuses(told, "publication conflict"@, 409)
        }),
{
    crate::effect::law_refusals_say_why("publication conflict"@, 409);
    law_publication_reply(publication_id_text(first), true);
    let ids = outside::json_i64_list(stored.message_ids_json);
    if crate::catalog::same_publication(stored, ids, again) {
        assert(again == first);
    }
}

/// The name of a publication is made of its work, its chat and its first message,
/// and of nothing else.
pub proof fn law_publication_names(a: PublicationView, b: PublicationView)
    requires
        a.message_ids.len() > 0,
    ensures
        publication_id_text(a) == crate::fingerprint::derived_id(
            seq![
                "telegram"@,
                a.work_id,
                text::signed_decimal(a.chat_id as int),
                text::signed_decimal(a.message_ids[0] as int),
            ],
        ),
        b.message_ids.len() > 0 && a.work_id == b.work_id && a.chat_id == b.chat_id
            && a.message_ids[0] == b.message_ids[0] ==> publication_id_text(a)
            == publication_id_text(b),
{
    assert(seq![
        "telegram"@,
        a.work_id,
        text::signed_decimal(a.chat_id as int),
        text::signed_decimal(a.message_ids[0] as int),
    ] =~= Seq::<Seq<char>>::empty().push("telegram"@).push(a.work_id).push(
        text::signed_decimal(a.chat_id as int),
    ).push(text::signed_decimal(a.message_ids[0] as int)));
}

/// Recording a publication answers or fails in its last step, and in no other; what was asked of it
/// never changes, and once it is over every event is unexpected.
pub proof fn law_publication_ends(run: PublicationRun, event: EventView)
    ensures
        run.next(event).0.request == run.request,
        run.next(event).0.id == run.id,
        run.next(event).0.phase is End <==> run.next(event).1 is Reply || run.next(event).1 is Fail,
        run.phase is End && event !is Failed ==> run.next(event).1 == ActionView::Fail(
            "unexpected event"@,
        ),
{
}

} // verus!
