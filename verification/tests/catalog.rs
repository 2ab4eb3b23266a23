use vitrine::catalog::{
    parse_publication_message_ids, parse_work_prune_receipt, same_catalog_publication,
    same_work_prune_plan, sanitize_telegram_error, validate_catalog_prune,
    validate_catalog_publication, validate_catalog_retract, validate_catalog_work_prune,
    validate_stored_telegram_targets, validate_telegram_result, CatalogPruneRequest,
    CatalogPublicationRequest, CatalogPublicationRow, CatalogRetractRequest,
    CatalogTelegramResult, CatalogWorkPruneReceiptRow, CatalogWorkPruneRequest,
    TelegramPruneTarget,
};

#[test]
fn catalog_prune_request_requires_one_distinct_keep_and_bounded_removals() {
    let valid = CatalogPruneRequest {
        decision_id: "review-1".into(),
        keep_r2_key: "x/1/00.jpg".into(),
        remove_r2_keys: vec!["x/2/00.jpg".into()],
    };
    assert!(validate_catalog_prune(&valid).is_ok());

    let mut invalid = valid.clone();
    invalid.remove_r2_keys.push(invalid.keep_r2_key.clone());
    assert_eq!(
        validate_catalog_prune(&invalid),
        Err("keep key cannot be removed")
    );

    let mut duplicate = valid;
    duplicate.remove_r2_keys.push("x/2/00.jpg".into());
    assert_eq!(
        validate_catalog_prune(&duplicate),
        Err("duplicate remove key")
    );
}

#[test]
fn publication_upsert_requires_complete_ids_shape() {
    let valid = CatalogPublicationRequest {
        work_id: "pixiv:1".into(),
        chat_id: -100123,
        message_ids: vec![41, 42],
        publish_state: "full".into(),
    };
    assert!(validate_catalog_publication(&valid).is_ok());
    let duplicate = CatalogPublicationRequest {
        message_ids: vec![41, 41],
        ..valid
    };
    assert_eq!(
        validate_catalog_publication(&duplicate),
        Err("duplicate message id")
    );
}

#[test]
fn catalog_retract_requires_work_id() {
    let valid = CatalogRetractRequest {
        decision_id: "hanabi-undo-1".into(),
        work_id: "douyin:7672448675021161593".into(),
    };
    assert!(validate_catalog_retract(&valid).is_ok());
    let invalid = CatalogRetractRequest {
        work_id: "bad".into(),
        ..valid
    };
    assert_eq!(validate_catalog_retract(&invalid), Err("invalid work id"));
}

#[test]
fn whole_work_prune_is_bounded_and_distinct() {
    let valid = CatalogWorkPruneRequest {
        decision_id: "hanabi-similar-91".into(),
        keep_work_id: "pixiv:2".into(),
        remove_work_ids: vec!["douyin:1".into()],
    };
    assert!(validate_catalog_work_prune(&valid).is_ok());
    let invalid = CatalogWorkPruneRequest {
        remove_work_ids: vec!["pixiv:2".into()],
        ..valid
    };
    assert_eq!(
        validate_catalog_work_prune(&invalid),
        Err("keep work cannot be removed")
    );
}

#[test]
fn receipt_replay_requires_identical_plan() {
    assert!(same_work_prune_plan(
        "pixiv:2",
        &["douyin:1".into()],
        "pixiv:2",
        &["douyin:1".into()]
    ));
    assert!(!same_work_prune_plan(
        "pixiv:2",
        &["douyin:1".into()],
        "pixiv:3",
        &["douyin:1".into()]
    ));
}

#[test]
fn corrupt_work_prune_receipt_is_rejected() {
    let receipt = CatalogWorkPruneReceiptRow {
        keep_work_id: "pixiv:2".into(),
        remove_work_ids_json: r#"["douyin:1"]"#.into(),
        removed_r2_keys_json: r#"["douyin/1/00.jpg"]"#.into(),
        telegram_targets: Some(vec![]),
    };
    assert!(matches!(
        parse_work_prune_receipt(&receipt),
        Err("corrupt prune receipt")
    ));
}

#[test]
fn successful_telegram_result_rejects_error_text() {
    let value = CatalogTelegramResult {
        decision_id: "d1".into(),
        complete: true,
        error: Some("unexpected".into()),
    };
    assert_eq!(
        validate_telegram_result(&value),
        Err("successful result cannot include error")
    );
}

#[test]
fn plans_are_the_same_in_any_order() {
    let left = ["a:1".to_string(), "b:2".to_string(), "a:1".to_string()];
    let right = ["b:2".to_string(), "a:1".to_string(), "a:1".to_string()];
    let other = ["b:2".to_string(), "b:2".to_string(), "a:1".to_string()];
    assert!(same_work_prune_plan("k", &left, "k", &right));
    assert!(!same_work_prune_plan("k", &left, "k", &other));
    assert!(!same_work_prune_plan("k", &left, "k", &right[..2]));
    assert!(!same_work_prune_plan("k", &left[..2], "k", &right));
}

#[test]
fn prune_requests_are_checked_in_order() {
    let base = CatalogPruneRequest {
        decision_id: "d".into(),
        keep_r2_key: "k".into(),
        remove_r2_keys: vec!["r".into()],
    };
    let fault = |change: &dyn Fn(&mut CatalogPruneRequest)| {
        let mut r = base.clone();
        change(&mut r);
        validate_catalog_prune(&r).unwrap_err()
    };
    assert_eq!(
        fault(&|r| r.decision_id = " \t".into()),
        "invalid decision id"
    );
    assert_eq!(
        fault(&|r| r.decision_id = "d".repeat(161)),
        "invalid decision id"
    );
    assert_eq!(fault(&|r| r.keep_r2_key = "".into()), "invalid keep key");
    assert_eq!(
        fault(&|r| r.keep_r2_key = "k".repeat(1025)),
        "invalid keep key"
    );
    assert_eq!(
        fault(&|r| r.remove_r2_keys.clear()),
        "remove keys must contain 1 to 20 entries"
    );
    assert_eq!(
        fault(&|r| r.remove_r2_keys = (0..21).map(|i| i.to_string()).collect()),
        "remove keys must contain 1 to 20 entries"
    );
    assert_eq!(
        fault(&|r| r.remove_r2_keys = vec!["a".into(), " ".into(), "a".into()]),
        "invalid remove key"
    );
    let mut longest = base.clone();
    longest.decision_id = "d".repeat(160);
    longest.remove_r2_keys = (0..20).map(|i| i.to_string()).collect();
    assert_eq!(validate_catalog_prune(&longest), Ok(()));
}

#[test]
fn work_prune_requests_are_checked_in_order() {
    let base = CatalogWorkPruneRequest {
        decision_id: "d".into(),
        keep_work_id: "a:1".into(),
        remove_work_ids: vec!["a:2".into()],
    };
    let fault = |change: &dyn Fn(&mut CatalogWorkPruneRequest)| {
        let mut r = base.clone();
        change(&mut r);
        validate_catalog_work_prune(&r).unwrap_err()
    };
    assert_eq!(fault(&|r| r.decision_id = "".into()), "invalid decision id");
    assert_eq!(fault(&|r| r.keep_work_id = "a".into()), "invalid work id");
    assert_eq!(
        fault(&|r| r.remove_work_ids.clear()),
        "remove works must contain 1 to 20 entries"
    );
    assert_eq!(
        fault(&|r| r.remove_work_ids.push("bad".into())),
        "invalid work id"
    );
    assert_eq!(
        fault(&|r| r.remove_work_ids.push("a:2".into())),
        "duplicate remove work id"
    );
}

#[test]
fn publications_are_checked_in_order() {
    let base = CatalogPublicationRequest {
        work_id: "a:1".into(),
        chat_id: 1,
        message_ids: vec![1],
        publish_state: "partial".into(),
    };
    assert_eq!(validate_catalog_publication(&base), Ok(()));
    let fault = |change: &dyn Fn(&mut CatalogPublicationRequest)| {
        let mut r = base.clone();
        change(&mut r);
        validate_catalog_publication(&r).unwrap_err()
    };
    assert_eq!(fault(&|r| r.work_id = "a".into()), "invalid work id");
    assert_eq!(fault(&|r| r.chat_id = 0), "invalid chat id");
    assert_eq!(
        fault(&|r| r.message_ids.clear()),
        "message ids must contain 1 to 40 entries"
    );
    assert_eq!(
        fault(&|r| r.message_ids = (1..42).collect()),
        "message ids must contain 1 to 40 entries"
    );
    assert_eq!(
        fault(&|r| r.message_ids = vec![1, 0, 1]),
        "invalid message id"
    );
    assert_eq!(
        fault(&|r| r.message_ids = vec![1, 1, 0]),
        "duplicate message id"
    );
    assert_eq!(
        fault(&|r| r.publish_state = "Full".into()),
        "invalid publish state"
    );
}

#[test]
fn stored_publications_are_compared() {
    let request = CatalogPublicationRequest {
        work_id: "a:1".into(),
        chat_id: -5,
        message_ids: vec![1, 2],
        publish_state: "full".into(),
    };
    let stored = CatalogPublicationRow {
        work_id: "a:1".to_string(),
        chat_id: -5,
        message_ids_json: "[1, 2]".to_string(),
        publish_state: "full".to_string(),
    };
    assert!(same_catalog_publication(&stored, &request));
    let mut other = stored.clone();
    other.message_ids_json = "[2,1]".into();
    assert!(!same_catalog_publication(&other, &request));
    other.message_ids_json = "[1,2".into();
    assert!(!same_catalog_publication(&other, &request));
    let mut other = stored.clone();
    other.chat_id = 5;
    assert!(!same_catalog_publication(&other, &request));
    let mut other = stored.clone();
    other.publish_state = "partial".into();
    assert!(!same_catalog_publication(&other, &request));
    let mut other = stored;
    other.work_id = "a:2".into();
    assert!(!same_catalog_publication(&other, &request));
}

#[test]
fn stored_message_lists_are_checked() {
    let bad = Err("invalid telegram publication mapping");
    assert_eq!(parse_publication_message_ids("[3,1,2]"), Ok(vec![3, 1, 2]));
    assert_eq!(parse_publication_message_ids("[]"), bad);
    assert_eq!(parse_publication_message_ids("[1,1]"), bad);
    assert_eq!(parse_publication_message_ids("[0]"), bad);
    assert_eq!(parse_publication_message_ids("[1.5]"), bad);
    assert_eq!(parse_publication_message_ids("nonsense"), bad);
}

fn target(publication: &str, work: &str) -> TelegramPruneTarget {
    TelegramPruneTarget {
        publication_id: publication.into(),
        work_id: work.into(),
        chat_id: -1,
        message_ids: vec![7],
    }
}

#[test]
fn stored_targets_cover_the_works() {
    let works = ["a:1".to_string(), "a:2".to_string()];
    let good = vec![target("p", "a:1"), target("q", "a:2"), target("r", "a:1")];
    assert_eq!(validate_stored_telegram_targets(&good, &works), Ok(()));
    let corrupt = Err("corrupt prune receipt");
    assert_eq!(validate_stored_telegram_targets(&[], &works), corrupt);
    assert_eq!(
        validate_stored_telegram_targets(&good[..1], &works),
        corrupt
    );
    let change = |f: &dyn Fn(&mut TelegramPruneTarget)| {
        let mut list = good.clone();
        f(&mut list[1]);
        validate_stored_telegram_targets(&list, &works)
    };
    assert_eq!(change(&|t| t.publication_id = " ".into()), corrupt);
    assert_eq!(change(&|t| t.publication_id = "p".into()), corrupt);
    assert_eq!(change(&|t| t.chat_id = 0), corrupt);
    assert_eq!(change(&|t| t.work_id = "a:3".into()), corrupt);
    assert_eq!(change(&|t| t.message_ids = vec![]), corrupt);
    assert_eq!(change(&|t| t.message_ids = vec![1, 1]), corrupt);
}

#[test]
fn good_receipts_are_read() {
    let receipt = CatalogWorkPruneReceiptRow {
        keep_work_id: "a:0".into(),
        remove_work_ids_json: r#"["a:1","a:2"]"#.into(),
        removed_r2_keys_json: "[]".into(),
        telegram_targets: Some(vec![target("p", "a:1"), target("q", "a:2")]),
    };
    let parsed = parse_work_prune_receipt(&receipt).unwrap();
    assert_eq!(parsed.remove_work_ids, vec!["a:1", "a:2"]);
    assert!(parsed.removed_r2_keys.is_empty());
    assert_eq!(parsed.telegram_targets.len(), 2);
    let corrupt = |f: &dyn Fn(&mut CatalogWorkPruneReceiptRow)| {
        let mut r = receipt.clone();
        f(&mut r);
        parse_work_prune_receipt(&r).unwrap_err()
    };
    assert_eq!(
        corrupt(&|r| r.telegram_targets = None),
        "corrupt prune receipt"
    );
    assert_eq!(
        corrupt(&|r| r.remove_work_ids_json = "[]".into()),
        "corrupt prune receipt"
    );
    assert_eq!(
        corrupt(&|r| r.remove_work_ids_json = r#"["a:1","a:1"]"#.into()),
        "corrupt prune receipt"
    );
    assert_eq!(
        corrupt(&|r| r.remove_work_ids_json = r#"["a:1","bad"]"#.into()),
        "corrupt prune receipt"
    );
    assert_eq!(
        corrupt(&|r| r.removed_r2_keys_json = "[1]".into()),
        "corrupt prune receipt"
    );
}

#[test]
fn outcomes_are_checked() {
    let value = |complete: bool, error: Option<&str>| CatalogTelegramResult {
        decision_id: "d".into(),
        complete,
        error: error.map(String::from),
    };
    assert_eq!(validate_telegram_result(&value(true, None)), Ok(()));
    assert_eq!(validate_telegram_result(&value(true, Some("  "))), Ok(()));
    assert_eq!(validate_telegram_result(&value(false, Some("x"))), Ok(()));
    let mut bad = value(false, None);
    bad.decision_id = "".into();
    assert_eq!(validate_telegram_result(&bad), Err("invalid decision id"));
}

#[test]
fn errors_are_cleaned() {
    assert_eq!(sanitize_telegram_error(None), None);
    assert_eq!(sanitize_telegram_error(Some("  ")), None);
    assert_eq!(sanitize_telegram_error(Some("a\u{7}")), Some("a".into()));
    assert_eq!(
        sanitize_telegram_error(Some(" a\nb\u{85}c ")),
        Some("abc".into())
    );
    assert_eq!(
        sanitize_telegram_error(Some(&"é".repeat(600))),
        Some("é".repeat(500))
    );
    for secret in [
        "Bearer abc",
        "x AUTHORIZATION: y",
        "Cookie:a",
        "set-COOKIE:a",
        "bea\u{1}rer x",
    ] {
        assert_eq!(
            sanitize_telegram_error(Some(secret)),
            Some("[redacted]".into())
        );
    }
    assert_eq!(sanitize_telegram_error(Some("\u{1}\u{2}")), None);
    assert_eq!(
        sanitize_telegram_error(Some(&format!("{}bearer x", "a".repeat(499)))),
        Some(format!("{}b", "a".repeat(499)))
    );
}
