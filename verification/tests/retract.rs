use vitrine::catalog::CatalogRetractRequest;
use vitrine::effect::{Action, Event, Table};
use vitrine::json::{Json, Reply};
use vitrine::retract::Retract;
use vitrine::rows::{CatalogPruneImageRow, RetractWorkRow};
use vitrine::sql::{SqlValue, Statement};

fn request() -> CatalogRetractRequest {
    CatalogRetractRequest {
        decision_id: "undo".into(),
        work_id: "a:1".into(),
    }
}

fn image(id: &str, key: &str) -> CatalogPruneImageRow<String> {
    CatalogPruneImageRow {
        id: id.into(),
        work_id: "a:1".into(),
        r2_key: key.into(),
    }
}

fn work(deleted_at: Option<&str>) -> Event {
    Event::Work(Some(RetractWorkRow {
        id: "a:1".into(),
        deleted_at: deleted_at.map(String::from),
    }))
}

fn reply(action: Action) -> Reply {
    match action {
        Action::Reply(reply) => reply,
        other => panic!("no reply: {other:?}"),
    }
}

fn text(t: &str) -> SqlValue {
    SqlValue::Text(t.into())
}

fn to_copies() -> (Retract, Action) {
    let (run, action) = Retract::begin(Some(request())).unwrap();
    assert_eq!(
        action,
        Action::Query(
            Table::RetractWork,
            Statement::new("SELECT id, deleted_at FROM works WHERE id=?").text("a:1")
        )
    );
    let (run, action) = run.step(work(None));
    assert!(matches!(action, Action::Query(Table::PruneImages, _)));
    let (run, action) = run.step(Event::Images(vec![image("1", "k1"), image("2", "k2")]));
    assert!(matches!(action, Action::Query(Table::WorkTags, _)));
    run.step(Event::Texts(vec!["x".into(), "".into(), "x".into()]))
}

#[test]
fn missing_objects_are_skipped() {
    let (run, action) = to_copies();
    assert_eq!(
        action,
        Action::Copy("k1".into(), "review-trash/undo/k1".into())
    );
    let (run, action) = run.step(Event::Failed("R2 object not found: k1".into()));
    assert_eq!(
        action,
        Action::Copy("k2".into(), "review-trash/undo/k2".into())
    );
    let (run, action) = run.step(Event::Done);
    assert_eq!(action, Action::Clock);
    let (run, action) = run.step(Event::Now("now".into()));
    let batch = match action {
        Action::Batch(batch) => batch,
        other => panic!("no batch: {other:?}"),
    };
    assert_eq!(batch.len(), 7);
    assert_eq!(batch[0].binds[0], text("k2"));
    assert_eq!(
        batch[4],
        Statement::new(
            "UPDATE telegram_publications SET deleted_at=? WHERE work_id=? AND deleted_at IS NULL"
        )
        .text("now")
        .text("a:1")
    );
    assert_eq!(batch[5].binds, vec![text("x"), text("x")]);
    assert_eq!(batch[6].binds, vec![text("x"), text("x")]);
    let (run, action) = run.step(Event::Done);
    assert_eq!(action, Action::Delete(vec!["k1".into(), "k2".into()]));
    let (_, action) = run.step(Event::Done);
    let reply = reply(action);
    assert_eq!(reply.status, 200);
    assert_eq!(reply.body.get("work_id"), Some(&Json::text("a:1")));
    assert_eq!(reply.body.get("replayed"), Some(&Json::Bool(false)));
}

#[test]
fn other_copy_failures_stop() {
    let (run, _) = to_copies();
    let (_, action) = run.step(Event::Failed("R2 put failed".into()));
    assert_eq!(action, Action::Fail("R2 put failed".into()));
}

#[test]
fn a_deleted_work_is_only_finished_again() {
    let (run, _) = Retract::begin(Some(request())).unwrap();
    let (run, action) = run.step(work(Some("then")));
    match &action {
        Action::Query(Table::Backups, s) => {
            assert_eq!(s.binds, vec![text("a:1"), text("undo")])
        }
        other => panic!("no query: {other:?}"),
    }
    let (run, action) = run.step(Event::Texts(vec!["k1".into(), "".into()]));
    assert_eq!(action, Action::Delete(vec!["k1".into()]));
    let (_, action) = run.step(Event::Done);
    assert_eq!(
        reply(action).body.get("replayed"),
        Some(&Json::Bool(true))
    );

    let (run, _) = Retract::begin(Some(request())).unwrap();
    let (run, _) = run.step(work(Some("then")));
    let (_, action) = run.step(Event::Texts(vec!["".into()]));
    assert_eq!(
        reply(action).body.get("replayed"),
        Some(&Json::Bool(true))
    );
}

#[test]
fn unknown_works_are_refused() {
    let (run, _) = Retract::begin(Some(request())).unwrap();
    let (_, action) = run.step(Event::Work(None));
    let told = reply(action);
    assert_eq!(told.status, 409);
    assert_eq!(told.body.get("error"), Some(&Json::text("work not active")));
    let (run, _) = Retract::begin(Some(request())).unwrap();
    let (_, action) = run.step(Event::Work(Some(RetractWorkRow {
        id: "a:2".into(),
        deleted_at: None,
    })));
    assert_eq!(reply(action).status, 409);
}

#[test]
fn works_without_images_are_taken_back_too() {
    let (run, _) = Retract::begin(Some(request())).unwrap();
    let (run, _) = run.step(work(None));
    let (run, _) = run.step(Event::Images(vec![]));
    let (run, action) = run.step(Event::Texts(vec![]));
    assert_eq!(action, Action::Clock);
    let (run, _) = run.step(Event::Now("now".into()));
    let (_, action) = run.step(Event::Done);
    assert_eq!(
        reply(action).body.get("replayed"),
        Some(&Json::Bool(false))
    );
}

#[test]
fn bad_retract_requests_are_refused() {
    assert_eq!(Retract::begin(None).err().unwrap().status, 400);
    let mut bad = request();
    bad.decision_id = " ".into();
    let refused = Retract::begin(Some(bad)).err().unwrap();
    assert_eq!(
        refused.body.get("error"),
        Some(&Json::text("invalid decision id"))
    );
}
