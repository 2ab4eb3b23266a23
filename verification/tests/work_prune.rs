use vitrine::catalog::{
    CatalogWorkPruneReceiptRow, CatalogWorkPruneRequest, TelegramPruneTarget,
};
use vitrine::effect::{Action, Event, Table};
use vitrine::json::{Json, Reply};
use vitrine::rows::{CatalogPruneImageRow, WorkPublicationRow};
use vitrine::sql::{SqlValue, Statement};
use vitrine::work_prune::WorkPrune;

fn request() -> CatalogWorkPruneRequest {
    CatalogWorkPruneRequest {
        decision_id: "d".into(),
        keep_work_id: "a:0".into(),
        remove_work_ids: vec!["a:1".into(), "a:2".into()],
    }
}

fn text(t: &str) -> SqlValue {
    SqlValue::Text(t.into())
}

fn image(id: &str, work: &str, key: &str) -> CatalogPruneImageRow<String> {
    CatalogPruneImageRow {
        id: id.into(),
        work_id: work.into(),
        r2_key: key.into(),
    }
}

fn publication(id: &str, work: &str, ids: &str) -> WorkPublicationRow<String> {
    WorkPublicationRow {
        id: id.into(),
        work_id: work.into(),
        chat_id: -7,
        message_ids_json: ids.into(),
    }
}

fn reply(action: Action) -> Reply {
    match action {
        Action::Reply(reply) => reply,
        other => panic!("no reply: {other:?}"),
    }
}

fn told(action: Action) -> (u16, String) {
    let reply = reply(action);
    match reply.body.get("error") {
        Some(Json::Text(t)) => (reply.status, t.clone()),
        other => panic!("no error: {other:?}"),
    }
}

fn to_work(work: &str) -> Action {
    Action::Query(
        Table::ActiveWork,
        Statement::new("SELECT id FROM works WHERE id=? AND deleted_at IS NULL").text(work),
    )
}

fn start() -> WorkPrune {
    let (run, action) = WorkPrune::begin(Some(request())).unwrap();
    assert!(matches!(action, Action::Query(Table::WorkPruneReceipt, _)));
    let (run, action) = run.step(Event::WorkReceipt(None));
    assert_eq!(action, to_work("a:0"));
    run
}

fn targets() -> Vec<TelegramPruneTarget> {
    vec![
        TelegramPruneTarget {
            publication_id: "p".into(),
            work_id: "a:1".into(),
            chat_id: -7,
            message_ids: vec![5, 6],
        },
        TelegramPruneTarget {
            publication_id: "q".into(),
            work_id: "a:2".into(),
            chat_id: -7,
            message_ids: vec![8],
        },
    ]
}

fn to_commit() -> (WorkPrune, Vec<Statement>) {
    let (run, action) = start().step(Event::Text(Some("a:0".into())));
    assert_eq!(action, to_work("a:1"));
    let (run, action) = run.step(Event::Text(Some("a:1".into())));
    assert!(matches!(action, Action::Query(Table::PruneImages, _)));
    let (run, action) = run.step(Event::Images(vec![image("1", "a:1", "k1")]));
    assert!(matches!(action, Action::Query(Table::WorkTags, _)));
    let (run, action) = run.step(Event::Texts(vec!["z".into(), "".into(), "b".into()]));
    assert!(matches!(action, Action::Query(Table::WorkPublications, _)));
    let (run, action) = run.step(Event::Publications(vec![publication("p", "a:1", "[5,6]")]));
    assert_eq!(action, to_work("a:2"));
    let (run, _) = run.step(Event::Text(Some("a:2".into())));
    let (run, _) = run.step(Event::Images(vec![image("2", "a:2", "k2")]));
    let (run, _) = run.step(Event::Texts(vec!["b".into(), "c".into()]));
    let (run, action) = run.step(Event::Publications(vec![publication("q", "a:2", "[8]")]));
    assert_eq!(
        action,
        Action::Copy("k1".into(), "review-trash/d/k1".into())
    );
    let (run, action) = run.step(Event::Done);
    assert_eq!(
        action,
        Action::Copy("k2".into(), "review-trash/d/k2".into())
    );
    let (run, action) = run.step(Event::Done);
    assert_eq!(action, Action::Clock);
    let (run, action) = run.step(Event::Now("now".into()));
    match action {
        Action::Batch(batch) => (run, batch),
        other => panic!("no batch: {other:?}"),
    }
}

#[test]
fn works_are_removed_after_backup_and_commit() {
    let (run, batch) = to_commit();
    assert_eq!(batch.len(), 12);
    assert_eq!(batch[0].binds[1], text("review-trash/d/k1"));
    assert_eq!(
        batch[2],
        Statement::new("DELETE FROM images WHERE work_id=?").text("a:1")
    );
    assert_eq!(
        batch[3],
        Statement::new("DELETE FROM work_tags WHERE work_id=?").text("a:1")
    );
    assert_eq!(
        batch[7],
        Statement::new("UPDATE works SET deleted_at=? WHERE id=?")
            .text("now")
            .text("a:2")
    );
    let tags: Vec<&SqlValue> = batch[8..11].iter().map(|s| &s.binds[0]).collect();
    assert_eq!(tags, vec![&text("b"), &text("c"), &text("z")]);
    let receipt = &batch[11];
    assert_eq!(receipt.binds[2], text("[\"a:1\",\"a:2\"]"));
    assert_eq!(receipt.binds[3], text("[\"k1\",\"k2\"]"));
    let targets = [
        "[{\"publication_id\":\"p\",\"work_id\":\"a:1\",\"chat_id\":-7,\"message_ids\":[5,6]},",
        "{\"publication_id\":\"q\",\"work_id\":\"a:2\",\"chat_id\":-7,\"message_ids\":[8]}]",
    ];
    assert_eq!(receipt.binds[4], text(&targets.concat()));
    for s in &batch {
        assert_eq!(s.sql.matches('?').count(), s.binds.len());
    }
    let (run, action) = run.step(Event::Done);
    assert_eq!(action, Action::Delete(vec!["k1".into(), "k2".into()]));
    let (_, action) = run.step(Event::Done);
    let reply = reply(action);
    assert_eq!(reply.status, 200);
    assert_eq!(reply.body.get("replayed"), Some(&Json::Bool(false)));
    assert_eq!(
        reply.body.get("removed_works"),
        Some(&Json::texts(&["a:1".into(), "a:2".into()]))
    );
}

#[test]
fn a_written_receipt_is_answered_again() {
    let (run, _) = to_commit();
    let (run, _) = run.step(Event::Done);
    let first = reply(run.step(Event::Done).1);

    let mut again = request();
    again.remove_work_ids.reverse();
    let (run, _) = WorkPrune::begin(Some(again)).unwrap();
    let receipt = CatalogWorkPruneReceiptRow {
        keep_work_id: "a:0".into(),
        remove_work_ids_json: "[\"a:1\",\"a:2\"]".into(),
        removed_r2_keys_json: "[\"k1\",\"k2\"]".into(),
        telegram_targets: Some(targets()),
    };
    let (run, action) = run.step(Event::WorkReceipt(Some(receipt)));
    assert_eq!(action, Action::Delete(vec!["k1".into(), "k2".into()]));
    let second = reply(run.step(Event::Done).1);
    assert_eq!(second.body.get("replayed"), Some(&Json::Bool(true)));
    for name in ["removed_works", "removed_r2_keys", "telegram_targets"] {
        assert_eq!(second.body.get(name), first.body.get(name));
    }
}

#[test]
fn a_receipt_without_objects_is_answered_at_once() {
    let (run, _) = WorkPrune::begin(Some(request())).unwrap();
    let receipt = CatalogWorkPruneReceiptRow {
        keep_work_id: "a:0".into(),
        remove_work_ids_json: "[\"a:1\",\"a:2\"]".into(),
        removed_r2_keys_json: "[]".into(),
        telegram_targets: Some(targets()),
    };
    let (_, action) = run.step(Event::WorkReceipt(Some(receipt)));
    assert_eq!(
        reply(action).body.get("replayed"),
        Some(&Json::Bool(true))
    );
}

#[test]
fn another_plan_under_the_same_decision_conflicts() {
    let receipt = || CatalogWorkPruneReceiptRow {
        keep_work_id: "a:0".into(),
        remove_work_ids_json: "[\"a:1\",\"a:2\"]".into(),
        removed_r2_keys_json: "[]".into(),
        telegram_targets: Some(targets()),
    };
    let mut other = request();
    other.remove_work_ids.pop();
    let (run, _) = WorkPrune::begin(Some(other)).unwrap();
    let (_, action) = run.step(Event::WorkReceipt(Some(receipt())));
    assert_eq!(told(action), (409, "prune decision conflict".into()));

    let (run, _) = WorkPrune::begin(Some(request())).unwrap();
    let mut corrupt = receipt();
    corrupt.telegram_targets = None;
    let (_, action) = run.step(Event::WorkReceipt(Some(corrupt)));
    assert_eq!(told(action), (500, "corrupt prune receipt".into()));
}

#[test]
fn inactive_or_unmapped_works_stop_a_decision() {
    let (_, action) = start().step(Event::Text(None));
    assert_eq!(told(action), (409, "keep work not active".into()));
    let (_, action) = start().step(Event::Text(Some("a:9".into())));
    assert_eq!(told(action), (409, "keep work not active".into()));

    let (run, _) = start().step(Event::Text(Some("a:0".into())));
    let (_, action) = run.step(Event::Text(None));
    assert_eq!(told(action), (409, "remove work not active: a:1".into()));

    let to_publications = || {
        let (run, _) = start().step(Event::Text(Some("a:0".into())));
        let (run, _) = run.step(Event::Text(Some("a:1".into())));
        let (run, _) = run.step(Event::Images(vec![]));
        run.step(Event::Texts(vec![])).0
    };
    let (_, action) = to_publications().step(Event::Publications(vec![]));
    assert_eq!(
        told(action),
        (409, "telegram publication mapping missing: a:1".into())
    );
    let (_, action) =
        to_publications().step(Event::Publications(vec![publication("p", "a:1", "[1,1]")]));
    assert_eq!(
        told(action),
        (409, "invalid telegram publication mapping: a:1".into())
    );
}

#[test]
fn works_without_images_need_no_copies() {
    let mut one = request();
    one.remove_work_ids.pop();
    let (run, _) = WorkPrune::begin(Some(one)).unwrap();
    let (run, _) = run.step(Event::WorkReceipt(None));
    let (run, _) = run.step(Event::Text(Some("a:0".into())));
    let (run, _) = run.step(Event::Text(Some("a:1".into())));
    let (run, _) = run.step(Event::Images(vec![]));
    let (run, _) = run.step(Event::Texts(vec![]));
    let (run, action) = run.step(Event::Publications(vec![publication("p", "a:1", "[1]")]));
    assert_eq!(action, Action::Clock);
    let (run, action) = run.step(Event::Now("now".into()));
    assert!(matches!(action, Action::Batch(_)));
    let (_, action) = run.step(Event::Done);
    assert_eq!(reply(action).status, 200);
}

#[test]
fn bad_work_prune_requests_are_refused() {
    let refused = WorkPrune::begin(None).err().unwrap();
    assert_eq!(refused.status, 400);
    let mut bad = request();
    bad.remove_work_ids.push("a:0".into());
    let refused = WorkPrune::begin(Some(bad)).err().unwrap();
    assert_eq!(
        refused.body.get("error"),
        Some(&Json::text("keep work cannot be removed"))
    );
}
