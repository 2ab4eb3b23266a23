use vitrine::catalog::{CatalogPublicationRequest, CatalogPublicationRow};
use vitrine::effect::{Action, Event, Table};
use vitrine::json::{Json, Reply};
use vitrine::fingerprint::shape_ingest_id;
use vitrine::publication::{publication_id, RecordPublication};
use vitrine::sql::SqlValue;

fn request() -> CatalogPublicationRequest {
    CatalogPublicationRequest {
        work_id: "a:1".into(),
        chat_id: -5,
        message_ids: vec![41, 42],
        publish_state: "full".into(),
    }
}

fn reply(action: Action) -> Reply {
    match action {
        Action::Reply(reply) => reply,
        other => panic!("no reply: {other:?}"),
    }
}

fn to_stored() -> RecordPublication {
    let (run, action) = RecordPublication::begin_with(Some(request()), "id".into()).unwrap();
    assert!(matches!(action, Action::Query(Table::ActiveWork, _)));
    let (run, action) = run.step(Event::Text(Some("a:1".into())));
    match &action {
        Action::Query(Table::Publication, s) => {
            assert_eq!(s.binds, vec![SqlValue::Text("id".into())])
        }
        other => panic!("no query: {other:?}"),
    }
    run
}

#[test]
fn work_chat_and_first_message_identify_a_publication() {
    let id = publication_id(&request());
    assert_eq!(id, shape_ingest_id(&["telegram", "a:1", "-5", "41"]));
    let mut other = request();
    other.message_ids = vec![41];
    assert_eq!(publication_id(&other), id);
    other.message_ids = vec![42, 41];
    assert_ne!(publication_id(&other), id);
    other.message_ids = vec![];
    assert_eq!(
        publication_id(&other),
        shape_ingest_id(&["telegram", "a:1", "-5", "0"])
    );
}

#[test]
fn a_publication_is_recorded_under_its_own_identifier() {
    let id = publication_id(&request());
    let (run, action) = RecordPublication::begin(Some(request())).unwrap();
    assert!(matches!(action, Action::Query(Table::ActiveWork, _)));
    let (run, action) = run.step(Event::Text(Some("a:1".into())));
    match &action {
        Action::Query(Table::Publication, s) => {
            assert_eq!(s.binds, vec![SqlValue::Text(id.clone())])
        }
        other => panic!("no query: {other:?}"),
    }
    let (run, _) = run.step(Event::Publication(None));
    let (run, action) = run.step(Event::Now("now".into()));
    match &action {
        Action::Run(s) => assert_eq!(s.binds[0], SqlValue::Text(id.clone())),
        other => panic!("no statement: {other:?}"),
    }
    let (_, action) = run.step(Event::Done);
    assert_eq!(
        reply(action).body.get("publication_id"),
        Some(&Json::text(&id))
    );
    let refused = RecordPublication::begin(None).map(|_| ()).unwrap_err();
    assert_eq!(refused.status, 400);
    assert_eq!(refused.body.get("error"), Some(&Json::text("invalid json")));
}

#[test]
fn a_publication_is_recorded() {
    let (run, action) = to_stored().step(Event::Publication(None));
    assert_eq!(action, Action::Clock);
    let (run, action) = run.step(Event::Now("now".into()));
    match &action {
        Action::Run(s) => assert_eq!(
            s.binds,
            vec![
                SqlValue::Text("id".into()),
                SqlValue::Text("a:1".into()),
                SqlValue::Num(-5),
                SqlValue::Num(41),
                SqlValue::Text("[41,42]".into()),
                SqlValue::Text("full".into()),
                SqlValue::Text("now".into()),
            ]
        ),
        other => panic!("no statement: {other:?}"),
    }
    let (_, action) = run.step(Event::Done);
    let told = reply(action);
    assert_eq!(told.status, 200);
    assert_eq!(told.body.get("publication_id"), Some(&Json::text("id")));
    assert_eq!(told.body.get("idempotent"), Some(&Json::Bool(false)));
}

#[test]
fn a_recorded_publication_is_confirmed_or_refused() {
    let stored = CatalogPublicationRow {
        work_id: "a:1".to_string(),
        chat_id: -5,
        message_ids_json: "[41,42]".to_string(),
        publish_state: "full".to_string(),
    };
    let (_, action) = to_stored().step(Event::Publication(Some(stored.clone())));
    assert_eq!(
        reply(action).body.get("idempotent"),
        Some(&Json::Bool(true))
    );
    let mut other = stored;
    other.message_ids_json = "[41]".into();
    let (_, action) = to_stored().step(Event::Publication(Some(other)));
    let told = reply(action);
    assert_eq!(told.status, 409);
    assert_eq!(
        told.body.get("error"),
        Some(&Json::text("publication conflict"))
    );
}

#[test]
fn publications_need_an_active_work() {
    for found in [None, Some("a:2".to_string())] {
        let (run, _) = RecordPublication::begin_with(Some(request()), "id".into()).unwrap();
        let (_, action) = run.step(Event::Text(found));
        let told = reply(action);
        assert_eq!(told.status, 409);
        assert_eq!(told.body.get("error"), Some(&Json::text("work not active")));
    }
    assert_eq!(
        RecordPublication::begin_with(None, "id".into())
            .err()
            .unwrap()
            .status,
        400
    );
    let mut bad = request();
    bad.message_ids = vec![];
    assert_eq!(
        RecordPublication::begin_with(Some(bad), "id".into())
            .err()
            .unwrap()
            .body
            .get("error"),
        Some(&Json::text("message ids must contain 1 to 40 entries"))
    );
}
