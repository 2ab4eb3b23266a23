use vitrine::catalog::{CatalogTelegramResult, TelegramPruneTarget};
use vitrine::effect::{Action, Event, Table};
use vitrine::json::{Json, Reply};
use vitrine::rows::TelegramResultReceiptRow;
use vitrine::sql::{SqlValue, Statement};
use vitrine::telegram::TelegramResult;

fn request(complete: bool, error: Option<&str>) -> CatalogTelegramResult {
    CatalogTelegramResult {
        decision_id: "d".into(),
        complete,
        error: error.map(String::from),
    }
}

fn receipt(state: &str) -> TelegramResultReceiptRow {
    TelegramResultReceiptRow {
        telegram_state: state.into(),
        remove_work_ids_json: "[\"a:1\"]".into(),
        telegram_targets: Some(vec![TelegramPruneTarget {
            publication_id: "p".into(),
            work_id: "a:1".into(),
            chat_id: 1,
            message_ids: vec![2],
        }]),
    }
}

fn reply(action: Action) -> Reply {
    match action {
        Action::Reply(reply) => reply,
        other => panic!("no reply: {other:?}"),
    }
}

fn hear(complete: bool, error: Option<&str>, row: TelegramResultReceiptRow) -> (TelegramResult, Action) {
    let (run, action) = TelegramResult::begin(Some(request(complete, error))).unwrap();
    assert!(matches!(action, Action::Query(Table::TelegramReceipt, _)));
    run.step(Event::TelegramReceipt(Some(row)))
}

fn text(t: &str) -> SqlValue {
    SqlValue::Text(t.into())
}

#[test]
fn a_success_closes_the_receipt() {
    let (run, action) = hear(true, None, receipt("pending"));
    assert_eq!(action, Action::Clock);
    let (run, action) = run.step(Event::Now("now".into()));
    let batch = match action {
        Action::Batch(batch) => batch,
        other => panic!("no batch: {other:?}"),
    };
    assert_eq!(
        batch[0],
        Statement::new("UPDATE telegram_publications SET deleted_at=? WHERE id=?")
            .text("now")
            .text("p")
    );
    assert_eq!(batch[1].binds, vec![text("now"), text("d")]);
    assert_eq!(batch.len(), 2);
    let (_, action) = run.step(Event::Done);
    let told = reply(action);
    assert_eq!(
        told.body.get("telegram_state"),
        Some(&Json::text("complete"))
    );
    assert_eq!(told.body.get("idempotent"), Some(&Json::Bool(false)));
}

#[test]
fn a_closed_receipt_stays_closed() {
    let (_, action) = hear(true, None, receipt("complete"));
    assert_eq!(
        reply(action).body.get("idempotent"),
        Some(&Json::Bool(true))
    );
    let (_, action) = hear(false, Some("x"), receipt("complete"));
    let told = reply(action);
    assert_eq!(told.status, 409);
    assert_eq!(
        told.body.get("error"),
        Some(&Json::text("telegram already complete"))
    );
}

#[test]
fn a_failure_is_noted() {
    let (run, action) = hear(false, Some(" timed\nout "), receipt("pending"));
    match &action {
        Action::Run(s) => assert_eq!(s.binds, vec![text("timedout"), text("d")]),
        other => panic!("no statement: {other:?}"),
    }
    let (_, action) = run.step(Event::Done);
    assert_eq!(
        reply(action).body.get("telegram_state"),
        Some(&Json::text("pending"))
    );
    let (_, action) = hear(false, None, receipt("pending"));
    match &action {
        Action::Run(s) => assert_eq!(s.binds[0], SqlValue::Null),
        other => panic!("no statement: {other:?}"),
    }
    let (_, action) = hear(false, Some("Authorization: x"), receipt("pending"));
    match &action {
        Action::Run(s) => assert_eq!(s.binds[0], text("[redacted]")),
        other => panic!("no statement: {other:?}"),
    }
}

#[test]
fn corrupt_receipts_fail() {
    let corrupt = Action::Fail("corrupt prune receipt".into());
    let mut row = receipt("pending");
    row.telegram_targets = None;
    assert_eq!(hear(true, None, row).1, corrupt);
    let mut row = receipt("pending");
    row.remove_work_ids_json = "{".into();
    assert_eq!(hear(true, None, row).1, corrupt);
    let mut row = receipt("pending");
    row.remove_work_ids_json = "[\"a:2\"]".into();
    assert_eq!(hear(true, None, row).1, corrupt);
}

#[test]
fn unknown_decisions_are_refused() {
    let (run, _) = TelegramResult::begin(Some(request(true, None))).unwrap();
    let (_, action) = run.step(Event::TelegramReceipt(None));
    let told = reply(action);
    assert_eq!(told.status, 409);
    assert_eq!(
        told.body.get("error"),
        Some(&Json::text("prune receipt not found"))
    );
    assert_eq!(TelegramResult::begin(None).err().unwrap().status, 400);
    let refused = TelegramResult::begin(Some(request(true, Some("x"))))
        .err()
        .unwrap();
    assert_eq!(
        refused.body.get("error"),
        Some(&Json::text("successful result cannot include error"))
    );
}
