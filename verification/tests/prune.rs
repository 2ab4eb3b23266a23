use vitrine::catalog::CatalogPruneRequest;
use vitrine::effect::{Action, Event, Table};
use vitrine::json::{Json, Reply};
use vitrine::prune::{listed_keys, Prune};
use vitrine::rows::CatalogPruneImageRow;
use vitrine::sql::{SqlValue, Statement};

fn request() -> CatalogPruneRequest {
    CatalogPruneRequest {
        decision_id: "d 1".into(),
        keep_r2_key: "keep".into(),
        remove_r2_keys: vec!["a".into(), "b".into(), "c".into()],
    }
}

fn row(id: &str, work: &str, key: &str) -> CatalogPruneImageRow<String> {
    CatalogPruneImageRow {
        id: id.into(),
        work_id: work.into(),
        r2_key: key.into(),
    }
}

fn text(t: &str) -> SqlValue {
    SqlValue::Text(t.into())
}

fn reply(action: Action) -> Reply {
    match action {
        Action::Reply(reply) => reply,
        other => panic!("no reply: {other:?}"),
    }
}

fn bind(action: &Action) -> &SqlValue {
    match action {
        Action::Query(Table::PruneImage, s) => &s.binds[0],
        other => panic!("no query: {other:?}"),
    }
}

#[test]
fn images_are_removed_after_backup_and_commit() {
    let (run, action) = Prune::begin(Some(request())).unwrap();
    assert_eq!(
        action,
        Action::Query(
            Table::PruneReceipt,
            Statement::new("SELECT removed_json FROM catalog_prune_receipts WHERE decision_id = ?")
                .text("d 1")
        )
    );
    let (run, action) = run.step(Event::Text(None));
    assert_eq!(bind(&action), &text("keep"));
    let (run, action) = run.step(Event::Image(Some(row("k", "w0", "keep"))));
    assert_eq!(bind(&action), &text("a"));
    let (run, action) = run.step(Event::Image(Some(row("1", "w1", "a"))));
    assert_eq!(bind(&action), &text("b"));
    let (run, action) = run.step(Event::Image(Some(row("2", "w2", "b"))));
    assert_eq!(bind(&action), &text("c"));
    let (run, action) = run.step(Event::Image(Some(row("3", "w1", "c"))));
    assert_eq!(
        action,
        Action::Copy("a".into(), "review-trash/d_1/a".into())
    );
    let (run, action) = run.step(Event::Done);
    assert_eq!(
        action,
        Action::Copy("b".into(), "review-trash/d_1/b".into())
    );
    let (run, action) = run.step(Event::Done);
    assert_eq!(
        action,
        Action::Copy("c".into(), "review-trash/d_1/c".into())
    );
    let (run, action) = run.step(Event::Done);
    assert_eq!(action, Action::Clock);
    let (run, action) = run.step(Event::Now("now".into()));
    let batch = match action {
        Action::Batch(batch) => batch,
        other => panic!("no batch: {other:?}"),
    };
    assert_eq!(batch.len(), 11);
    assert_eq!(
        batch[0].binds,
        vec![
            text("a"),
            text("review-trash/d_1/a"),
            text("d 1"),
            text("w1"),
            text("now")
        ]
    );
    assert_eq!(
        batch[1],
        Statement::new("DELETE FROM images WHERE id=? AND r2_key=?")
            .text("1")
            .text("a")
    );
    assert_eq!(batch[6].binds, vec![text("w1"), text("w1")]);
    assert_eq!(batch[7].binds, vec![text("now"), text("w1"), text("w1")]);
    assert_eq!(batch[8].binds, vec![text("w2"), text("w2")]);
    assert_eq!(
        batch[10].binds,
        vec![
            text("d 1"),
            text("keep"),
            text("[\"a\",\"b\",\"c\"]"),
            text("now")
        ]
    );
    for s in &batch {
        assert_eq!(s.sql.matches('?').count(), s.binds.len());
    }
    let (run, action) = run.step(Event::Done);
    assert_eq!(
        action,
        Action::Delete(vec!["a".into(), "b".into(), "c".into()])
    );
    let (_, action) = run.step(Event::Done);
    let reply = reply(action);
    assert_eq!(reply.status, 200);
    assert_eq!(reply.body.get("removed"), Some(&Json::Num(3)));
    assert_eq!(reply.body.get("replayed"), Some(&Json::Bool(false)));
}

#[test]
fn a_decision_is_only_finished_again() {
    let (run, _) = Prune::begin(Some(request())).unwrap();
    let (run, action) = run.step(Event::Text(Some("[\"a\",\"b\"]".into())));
    assert_eq!(action, Action::Delete(vec!["a".into(), "b".into()]));
    let (_, action) = run.step(Event::Done);
    let told = reply(action);
    assert_eq!(told.body.get("removed"), Some(&Json::Num(2)));
    assert_eq!(told.body.get("replayed"), Some(&Json::Bool(true)));

    let (run, _) = Prune::begin(Some(request())).unwrap();
    let (_, action) = run.step(Event::Text(Some("broken".into())));
    assert_eq!(action, Action::Delete(vec![]));
    assert!(listed_keys(None).is_empty());
}

#[test]
fn inactive_images_stop_a_decision() {
    let (run, _) = Prune::begin(Some(request())).unwrap();
    let (run, _) = run.step(Event::Text(None));
    let (_, action) = run.step(Event::Image(None));
    let told = reply(action);
    assert_eq!(told.status, 409);
    assert_eq!(
        told.body.get("error"),
        Some(&Json::text("keep key not active"))
    );

    let (run, _) = Prune::begin(Some(request())).unwrap();
    let (run, _) = run.step(Event::Text(None));
    let (run, _) = run.step(Event::Image(Some(row("k", "w0", "keep"))));
    let (run, _) = run.step(Event::Image(Some(row("1", "w1", "a"))));
    let (_, action) = run.step(Event::Image(None));
    let told = reply(action);
    assert_eq!(told.status, 409);
    assert_eq!(
        told.body.get("error"),
        Some(&Json::text("remove key not active: b"))
    );
}

#[test]
fn bad_prune_requests_are_refused() {
    let refused = Prune::begin(None).err().unwrap();
    assert_eq!(refused.status, 400);
    assert_eq!(
        refused.body.get("error"),
        Some(&Json::text("invalid json"))
    );
    let mut bad = request();
    bad.remove_r2_keys.push("keep".into());
    let refused = Prune::begin(Some(bad)).err().unwrap();
    assert_eq!(
        refused.body.get("error"),
        Some(&Json::text("keep key cannot be removed"))
    );
}

#[test]
fn a_failed_copy_or_commit_deletes_nothing() {
    let (run, _) = Prune::begin(Some(request())).unwrap();
    let (run, _) = run.step(Event::Text(None));
    let (run, _) = run.step(Event::Image(Some(row("k", "w0", "keep"))));
    let (run, _) = run.step(Event::Image(Some(row("1", "w1", "a"))));
    let (run, _) = run.step(Event::Image(Some(row("2", "w2", "b"))));
    let (run, _) = run.step(Event::Image(Some(row("3", "w1", "c"))));
    let (run, action) = run.step(Event::Failed("no".into()));
    assert_eq!(action, Action::Fail("no".into()));
    let (_, action) = run.step(Event::Done);
    assert_eq!(action, Action::Fail("unexpected event".into()));
}
