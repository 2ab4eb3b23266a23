use vitrine::effect::{Action, Event, Table};
use vitrine::image_review::{
    image_target, image_target_with, ImageRequest, ImageReview, RestoredTarget,
};
use vitrine::json::{Json, Reply};
use vitrine::rows::{ImageRow, ImageTarget, Publication, Receipt, Snapshot, WorkState};
use vitrine::sql::{SqlValue, Statement};

fn publication(state: &str, ids: &str) -> Publication<String> {
    Publication {
        id: "p".into(),
        chat_id: -100,
        message_ids_json: ids.into(),
        publish_state: state.into(),
        deleted_at: None,
    }
}

#[test]
fn delete_targets_only_the_selected_page_and_rejects_ambiguous_albums() {
    let target = image_target(publication("full", "[11,12,13]"), 3, 1).unwrap();
    assert_eq!(target.message_id, 12);
    assert_eq!(target.remaining, vec![11, 13]);
    assert!(image_target(publication("partial", "[11,13]"), 3, 1).is_err());
    assert!(image_target(publication("full", "[11,13]"), 3, 1).is_err());
}

#[test]
fn bad_albums_are_told_apart() {
    let unclear = "cannot identify this image in the Telegram publication";
    assert_eq!(
        image_target(publication("full", "{"), 1, 0).unwrap_err(),
        "invalid publication mapping"
    );
    assert_eq!(
        image_target(publication("full", "[1,1]"), 2, 0).unwrap_err(),
        unclear
    );
    assert_eq!(
        image_target(publication("full", "[1,0]"), 2, 0).unwrap_err(),
        unclear
    );
    assert_eq!(
        image_target(publication("full", "[1,2]"), 2, 2).unwrap_err(),
        unclear
    );
    assert_eq!(
        image_target_with(publication("full", ""), Some(vec![4]), 1, 0)
            .unwrap()
            .message_id,
        4
    );
}

#[test]
fn a_removed_message_goes_back_to_its_place() {
    for position in 0..3 {
        let target = image_target(publication("full", "[11,12,13]"), 3, position).unwrap();
        let mut ids = target.remaining.clone();
        ids.insert(target.position, target.message_id);
        assert_eq!(ids, vec![11, 12, 13]);
    }
}

fn image() -> ImageRow<String> {
    ImageRow {
        id: "w:1#1".into(),
        work_id: "w:1".into(),
        page_index: 1,
        r2_key: "key".into(),
        content_type: "image/png".into(),
        byte_size: 9,
        created_at: "then".into(),
        sha256: "h".into(),
    }
}

fn target() -> ImageTarget {
    ImageTarget {
        publication_id: "p".into(),
        chat_id: -100,
        message_id: 12,
        remaining: vec![11, 13],
        position: 1,
    }
}

fn snapshot() -> Snapshot {
    Snapshot {
        image: image(),
        targets: vec![target()],
        backup_key: "review-trash/d/key".into(),
        review_version: Some(4),
    }
}

fn request(action: &str) -> ImageRequest {
    ImageRequest {
        decision_id: "d".into(),
        r2_key: "key".into(),
        action: action.into(),
        restored: vec![],
    }
}

fn receipt(state: &str) -> Event {
    Event::ReviewReceipt(Some(Receipt {
        payload: Ok(snapshot()),
        state: state.into(),
    }))
}

fn work(deleted: bool) -> Event {
    Event::ReviewWork(Some(WorkState {
        review_version: 4,
        deleted_at: if deleted { Some("then".into()) } else { None },
    }))
}

fn reply(action: Action) -> Reply {
    match action {
        Action::Reply(reply) => reply,
        other => panic!("no reply: {other:?}"),
    }
}

fn told(action: Action) -> (u16, String) {
    let reply = reply(action);
    match reply.body.get("error") {
        Some(Json::Text(t)) => (reply.status, t.clone()),
        other => panic!("no error: {other:?}"),
    }
}

fn text(t: &str) -> SqlValue {
    SqlValue::Text(t.into())
}

fn stale() -> (u16, String) {
    (
        409,
        "work or publication changed; image review is no longer current".into(),
    )
}

/// A review whose stored state is current.
fn current(request: ImageRequest, state: &str) -> (ImageReview, Action) {
    let (run, _) = ImageReview::begin(Some(request)).unwrap();
    let (run, action) = run.step(receipt(state));
    assert!(matches!(action, Action::Query(Table::ReviewWork, _)));
    let (run, action) = run.step(work(false));
    assert!(matches!(action, Action::Query(Table::ReviewImage, _)));
    let found = if state == "deleted" {
        None
    } else {
        Some(image())
    };
    let (run, action) = run.step(Event::ReviewImage(found));
    if state == "restored" {
        return (run, action);
    }
    assert!(matches!(action, Action::Query(Table::ReviewPublications, _)));
    let ids = if state == "prepared" {
        "[11,12,13]"
    } else {
        "[11,13]"
    };
    run.step(Event::ReviewPublications(vec![publication("full", ids)]))
}

#[test]
fn a_review_is_prepared() {
    let (run, action) = ImageReview::begin(Some(request("prepare"))).unwrap();
    assert_eq!(
        action,
        Action::Query(
            Table::ReviewReceipt,
            Statement::new("SELECT payload,state FROM catalog_image_reviews WHERE decision_id=?")
                .text("d")
        )
    );
    let (run, action) = run.step(Event::ReviewReceipt(None));
    assert!(matches!(action, Action::Query(Table::ReviewImage, _)));
    let (run, action) = run.step(Event::ReviewImage(Some(image())));
    assert!(matches!(action, Action::Query(Table::ReviewWork, _)));
    let (run, action) = run.step(work(false));
    assert!(matches!(action, Action::Query(Table::ReviewImages, _)));
    let mut first = image();
    first.id = "w:1#0".into();
    let mut last = image();
    last.id = "w:1#2".into();
    let (run, action) = run.step(Event::ReviewImages(vec![first, image(), last]));
    assert!(matches!(action, Action::Query(Table::ReviewPublications, _)));
    let (run, action) = run.step(Event::ReviewPublications(vec![publication(
        "full",
        "[11,12,13]",
    )]));
    assert_eq!(
        action,
        Action::Copy("key".into(), "review-trash/d/key".into())
    );
    let (run, action) = run.step(Event::Done);
    assert_eq!(action, Action::Clock);
    let (run, action) = run.step(Event::Now("now".into()));
    match &action {
        Action::Run(s) => {
            assert_eq!(s.binds[0], text("d"));
            assert_eq!(s.binds[2], text("now"));
            match &s.binds[1] {
                SqlValue::Text(t) => {
                    let doc = serde_json::from_str::<serde_json::Value>(t).unwrap();
                    assert_eq!(doc["review_version"], 4);
                    assert_eq!(doc["image"]["id"], "w:1#1");
                    assert_eq!(doc["targets"][0]["message_id"], 12);
                    assert!(t.contains("\"remaining\":[11,13]"));
                }
                other => panic!("no document: {other:?}"),
            }
        }
        other => panic!("no statement: {other:?}"),
    }
    let (run, action) = run.step(Event::Done);
    assert!(matches!(action, Action::Query(Table::ReviewReceipt, _)));
    let (_, action) = run.step(receipt("prepared"));
    assert!(matches!(action, Action::Query(Table::ReviewWork, _)));
}

#[test]
fn preparing_twice_tells_the_same() {
    let (_, action) = current(request("prepare"), "prepared");
    let reply = reply(action);
    assert_eq!(reply.status, 200);
    assert_eq!(reply.body.get("state"), Some(&Json::text("prepared")));
    match reply.body.get("targets").unwrap() {
        Json::List(items) => assert_eq!(items[0].get("position"), Some(&Json::Num(1))),
        other => panic!("no targets: {other:?}"),
    }
}

#[test]
fn a_review_cannot_begin_without_its_image() {
    let to_image = || {
        let (run, _) = ImageReview::begin(Some(request("prepare"))).unwrap();
        run.step(Event::ReviewReceipt(None)).0
    };
    let (_, action) = to_image().step(Event::ReviewImage(None));
    assert_eq!(told(action), (409, "image not active".into()));
    let (run, _) = to_image().step(Event::ReviewImage(Some(image())));
    let (_, action) = run.step(Event::ReviewWork(None));
    assert_eq!(action, Action::Fail("work disappeared".into()));
    let to_images = || {
        let (run, _) = to_image().step(Event::ReviewImage(Some(image())));
        run.step(work(false)).0
    };
    let (_, action) = to_images().step(Event::ReviewImages(vec![]));
    assert_eq!(action, Action::Fail("image disappeared".into()));
    let to_publications = || to_images().step(Event::ReviewImages(vec![image()])).0;
    let (_, action) = to_publications().step(Event::ReviewPublications(vec![]));
    assert_eq!(
        told(action),
        (409, "telegram publication mapping missing".into())
    );
    let (_, action) =
        to_publications().step(Event::ReviewPublications(vec![publication("partial", "[1]")]));
    assert_eq!(
        told(action),
        (
            409,
            "cannot identify this image in the Telegram publication".into()
        )
    );
}

#[test]
fn an_image_is_removed() {
    let (run, action) = current(request("delete"), "prepared");
    assert_eq!(action, Action::Clock);
    let (run, action) = run.step(Event::Now("now".into()));
    let batch = match action {
        Action::Batch(batch) => batch,
        other => panic!("no batch: {other:?}"),
    };
    assert_eq!(batch.len(), 7);
    assert_eq!(
        batch[0].binds,
        vec![
            text("prepared"),
            text("w:1"),
            SqlValue::Num(4),
            SqlValue::Num(0),
            text("w:1"),
            SqlValue::Num(1),
            text("w:1#1"),
            text("key"),
            SqlValue::Num(1),
            text("d"),
        ]
    );
    assert_eq!(
        batch[2].binds,
        vec![
            text("p"),
            text("w:1"),
            SqlValue::Num(-100),
            text("[11,12,13]"),
            SqlValue::Num(0),
            text("d"),
        ]
    );
    assert_eq!(batch[3].binds, vec![text("w:1#1"), text("key")]);
    assert_eq!(
        batch[4].binds,
        vec![
            text("[11,13]"),
            SqlValue::Num(11),
            SqlValue::Null,
            text("p")
        ]
    );
    assert_eq!(
        batch[5].binds,
        vec![text("w:1"), text("w:1"), text("now"), text("w:1")]
    );
    for s in &batch {
        assert_eq!(s.sql.matches('?').count(), s.binds.len());
    }
    let (_, action) = run.step(Event::Done);
    assert_eq!(
        reply(action).body.get("state"),
        Some(&Json::text("deleted"))
    );
}

#[test]
fn the_last_image_takes_its_publication_along() {
    let last = || Snapshot {
        targets: vec![ImageTarget {
            remaining: vec![],
            position: 0,
            ..target()
        }],
        ..snapshot()
    };
    let event = |state: &str| {
        Event::ReviewReceipt(Some(Receipt {
            payload: Ok(last()),
            state: state.into(),
        }))
    };
    let (run, _) = ImageReview::begin(Some(request("delete"))).unwrap();
    let (run, _) = run.step(event("prepared"));
    let (run, _) = run.step(work(false));
    let (run, _) = run.step(Event::ReviewImage(Some(image())));
    let (run, _) = run.step(Event::ReviewPublications(vec![publication("full", "[12]")]));
    let (_, action) = run.step(Event::Now("now".into()));
    match action {
        Action::Batch(batch) => assert_eq!(
            batch[4].binds,
            vec![text("[]"), SqlValue::Num(12), text("now"), text("p")]
        ),
        other => panic!("no batch: {other:?}"),
    }

    let (run, _) = ImageReview::begin(Some(request("delete"))).unwrap();
    let (run, _) = run.step(event("deleted"));
    let (run, action) = run.step(work(true));
    assert!(matches!(action, Action::Query(Table::ReviewImage, _)));
    let (run, _) = run.step(Event::ReviewImage(None));
    let mut gone = publication("full", "[]");
    gone.deleted_at = Some("then".into());
    let (_, action) = run.step(Event::ReviewPublications(vec![gone]));
    assert_eq!(
        reply(action).body.get("state"),
        Some(&Json::text("deleted"))
    );
}

#[test]
fn removing_twice_changes_nothing_more() {
    let (_, action) = current(request("delete"), "deleted");
    assert_eq!(
        reply(action).body.get("state"),
        Some(&Json::text("deleted"))
    );
}

#[test]
fn an_undone_deletion_stays_undone() {
    let (_, action) = current(request("delete"), "restored");
    assert_eq!(
        told(action),
        (409, "this deletion was already undone".into())
    );
    let (_, action) = current(request("restore"), "restored");
    assert_eq!(
        reply(action).body.get("state"),
        Some(&Json::text("restored"))
    );
}

#[test]
fn a_prepared_review_is_given_up() {
    let (run, action) = current(request("restore"), "prepared");
    match action {
        Action::Batch(batch) => {
            assert_eq!(batch.len(), 4);
            assert!(batch[3].sql.contains("state='restored'"));
        }
        other => panic!("no batch: {other:?}"),
    }
    let (_, action) = run.step(Event::Done);
    assert_eq!(
        reply(action).body.get("state"),
        Some(&Json::text("restored"))
    );
}

fn restoring(message_id: i64) -> ImageRequest {
    let mut r = request("restore");
    r.restored.push(RestoredTarget {
        publication_id: "p".into(),
        message_id,
    });
    r
}

#[test]
fn an_image_is_put_back() {
    let (run, action) = current(restoring(20), "deleted");
    assert_eq!(action, Action::Head("key".into()));
    let (run, action) = run.step(Event::Found(false));
    assert_eq!(
        action,
        Action::Copy("review-trash/d/key".into(), "key".into())
    );
    let (run, action) = run.step(Event::Done);
    let batch = match action {
        Action::Batch(batch) => batch,
        other => panic!("no batch: {other:?}"),
    };
    assert_eq!(batch.len(), 6);
    assert_eq!(batch[0].binds[0], text("deleted"));
    assert_eq!(batch[1].binds[3], text("[11,13]"));
    assert_eq!(
        batch[2].binds,
        vec![text("[11,20,13]"), SqlValue::Num(11), text("p")]
    );
    assert_eq!(
        batch[3].binds,
        vec![
            text("w:1#1"),
            text("w:1"),
            SqlValue::Num(1),
            text("key"),
            text("image/png"),
            SqlValue::Num(9),
            text("then"),
            text("h"),
        ]
    );
    let (_, action) = run.step(Event::Done);
    assert_eq!(
        reply(action).body.get("state"),
        Some(&Json::text("restored"))
    );

    let (run, _) = current(restoring(20), "deleted");
    let (_, action) = run.step(Event::Found(true));
    assert!(matches!(action, Action::Batch(_)));
}

#[test]
fn incomplete_restorations_are_refused() {
    let incomplete = (400, "restored Telegram targets are incomplete".to_string());
    let (_, action) = current(request("restore"), "deleted");
    assert_eq!(told(action), incomplete);
    let (_, action) = current(restoring(0), "deleted");
    assert_eq!(told(action), incomplete);
    let (_, action) = current(restoring(13), "deleted");
    assert_eq!(told(action), incomplete);
    let mut other = restoring(20);
    other.restored[0].publication_id = "q".into();
    let (_, action) = current(other, "deleted");
    assert_eq!(told(action), incomplete);
}

#[test]
fn changed_works_make_a_review_stale() {
    let to_work = || {
        let (run, _) = ImageReview::begin(Some(request("delete"))).unwrap();
        run.step(receipt("prepared")).0
    };
    let (_, action) = to_work().step(Event::ReviewWork(None));
    assert_eq!(told(action), stale());
    let (_, action) = to_work().step(work(true));
    assert_eq!(told(action), stale());
    let (_, action) = to_work().step(Event::ReviewWork(Some(WorkState {
        review_version: 5,
        deleted_at: None,
    })));
    assert_eq!(told(action), stale());
    let to_image = || to_work().step(work(false)).0;
    let (_, action) = to_image().step(Event::ReviewImage(None));
    assert_eq!(told(action), stale());
    let mut other = image();
    other.r2_key = "other".into();
    let (_, action) = to_image().step(Event::ReviewImage(Some(other)));
    assert_eq!(told(action), stale());
    let to_publications = || to_image().step(Event::ReviewImage(Some(image()))).0;
    let hear = |rows: Vec<Publication<String>>| {
        told(to_publications().step(Event::ReviewPublications(rows)).1)
    };
    assert_eq!(hear(vec![]), stale());
    assert_eq!(hear(vec![publication("full", "[11,13,12]")]), stale());
    assert_eq!(hear(vec![publication("partial", "[11,12,13]")]), stale());
    assert_eq!(
        hear(vec![
            publication("full", "[11,12,13]"),
            publication("full", "[11,12,13]")
        ]),
        stale()
    );
}

#[test]
fn reviews_of_other_images_conflict() {
    let mut other = request("delete");
    other.r2_key = "other".into();
    let (run, _) = ImageReview::begin(Some(other)).unwrap();
    let (_, action) = run.step(receipt("prepared"));
    assert_eq!(told(action), (409, "image review decision conflict".into()));
    let (run, _) = ImageReview::begin(Some(request("delete"))).unwrap();
    let (_, action) = run.step(Event::ReviewReceipt(None));
    assert_eq!(told(action), (409, "image review not prepared".into()));
    let (run, _) = ImageReview::begin(Some(request("delete"))).unwrap();
    let (_, action) = run.step(Event::ReviewReceipt(Some(Receipt {
        payload: Err("bad payload".into()),
        state: "prepared".into(),
    })));
    assert_eq!(action, Action::Fail("bad payload".into()));
}

#[test]
fn broken_transactions_can_be_tried_again() {
    let (run, _) = current(request("delete"), "prepared");
    let (run, _) = run.step(Event::Now("now".into()));
    let (_, action) = run.step(Event::Failed("D1: CHECK constraint failed: state".into()));
    assert_eq!(
        told(action),
        (
            409,
            "image review changed concurrently; retry the action".into()
        )
    );
    let (run, _) = current(request("delete"), "prepared");
    let (_, action) = run.step(Event::Failed("down".into()));
    assert_eq!(action, Action::Fail("down".into()));
}

#[test]
fn bad_review_requests_are_refused() {
    let refused = |r: Option<ImageRequest>| {
        let reply = ImageReview::begin(r).err().unwrap();
        (reply.status, reply.body.get("error") == Some(&Json::text("invalid image review request")))
    };
    assert_eq!(refused(None), (400, false));
    assert_eq!(refused(Some(request("remove"))), (400, true));
    let mut long = request("delete");
    long.decision_id = "d".repeat(161);
    assert_eq!(refused(Some(long)), (400, true));
    let mut empty = request("delete");
    empty.r2_key = "".into();
    assert_eq!(refused(Some(empty)), (400, true));
    let mut spaces = request("delete");
    spaces.decision_id = " ".into();
    assert!(ImageReview::begin(Some(spaces)).is_ok());
}
