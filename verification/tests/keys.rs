use vitrine::keys::{
    catalog_backup_key, ext_from_content_type, file_content_type, guess_content_type, image_id,
    is_missing_r2_object_message, is_safe_source, is_safe_source_id, missing_object_message,
    validate_work_id_value, versioned_r2_key, work_id,
};

#[test]
fn content_type_and_ext() {
    assert_eq!(guess_content_type("a.PNG"), "image/png");
    assert_eq!(guess_content_type("a.webp"), "image/webp");
    assert_eq!(guess_content_type("a"), "image/jpeg");
    assert_eq!(ext_from_content_type("image/png"), "png");
    assert_eq!(ext_from_content_type("image/jpeg"), "jpg");
}

#[test]
fn work_id_shape() {
    assert_eq!(work_id("pixiv", "123"), "pixiv:123");
}

#[test]
fn missing_r2_object_is_skippable_for_retract() {
    assert!(is_missing_r2_object_message(
        "R2 object not found: douyin/1/00.jpg"
    ));
    assert!(!is_missing_r2_object_message("R2 put failed"));
}

#[test]
fn missing_object_message_is_recognised() {
    let message = missing_object_message("douyin/1/00.jpg");
    assert_eq!(message, "R2 object not found: douyin/1/00.jpg");
    assert!(is_missing_r2_object_message(&message));
    assert!(is_missing_r2_object_message(&missing_object_message("")));
}

#[test]
fn other_types_and_extensions() {
    assert_eq!(guess_content_type("x.GiF"), "image/gif");
    assert_eq!(guess_content_type("x.bmp"), "image/bmp");
    assert_eq!(guess_content_type("png"), "image/jpeg");
    assert_eq!(ext_from_content_type("IMAGE/WEBP"), "webp");
    assert_eq!(ext_from_content_type("image/gif"), "gif");
    assert_eq!(ext_from_content_type("image/bmp"), "bmp");
    assert_eq!(ext_from_content_type(""), "jpg");
    assert_eq!(file_content_type("a.png", ""), "image/png");
    assert_eq!(file_content_type("a.png", "image/gif"), "image/gif");
}

#[test]
fn sources_are_plain_path_segments() {
    assert!(is_safe_source("pixiv_2-x"));
    assert!(!is_safe_source(""));
    assert!(!is_safe_source("Pixiv"));
    assert!(!is_safe_source("pix/iv"));
    assert!(!is_safe_source("é"));
    assert!(is_safe_source(&"a".repeat(64)));
    assert!(!is_safe_source(&"a".repeat(65)));
}

#[test]
fn source_ids_stay_in_their_segment() {
    assert!(is_safe_source_id("a.b é:#"));
    assert!(!is_safe_source_id(""));
    assert!(!is_safe_source_id("a..b"));
    assert!(!is_safe_source_id("a/b"));
    assert!(!is_safe_source_id("a\\b"));
    assert!(!is_safe_source_id("a\0b"));
    assert!(is_safe_source_id(&"é".repeat(128)));
    assert!(!is_safe_source_id(&"é".repeat(129)));
}

#[test]
fn work_ids_are_checked() {
    assert_eq!(validate_work_id_value("pixiv:1"), Ok(()));
    assert_eq!(validate_work_id_value("pixiv:1:2"), Ok(()));
    assert_eq!(validate_work_id_value(""), Err("invalid work id"));
    assert_eq!(validate_work_id_value("  "), Err("invalid work id"));
    assert_eq!(validate_work_id_value("pixiv"), Err("invalid work id"));
    assert_eq!(validate_work_id_value(":1"), Err("invalid work id"));
    assert_eq!(validate_work_id_value("pixiv:"), Err("invalid work id"));
    assert_eq!(validate_work_id_value("pixiv:../1"), Err("invalid work id"));
    let longest = format!("{}:{}", "a".repeat(64), "b".repeat(255));
    assert_eq!(validate_work_id_value(&longest), Ok(()));
    assert_eq!(
        validate_work_id_value(&format!("{longest}b")),
        Err("invalid work id")
    );
}

#[test]
fn different_works_have_different_ids() {
    assert_ne!(work_id("a", "b:c"), work_id("a-b", "c"));
    assert_eq!(work_id("a", "b:c"), "a:b:c");
}

#[test]
fn pages_have_at_least_two_digits() {
    assert_eq!(versioned_r2_key("s", "i", "x", 7, "png"), "s/i/x/07.png");
    assert_eq!(versioned_r2_key("s", "i", "x", 99, "png"), "s/i/x/99.png");
    assert_eq!(versioned_r2_key("s", "i", "x", 100, "png"), "s/i/x/100.png");
    assert_ne!(
        versioned_r2_key("s", "i", "x", 1, "png"),
        versioned_r2_key("s", "i", "x", 10, "png")
    );
    assert_eq!(image_id("pixiv:1", 0), "pixiv:1#0");
    assert_eq!(image_id("pixiv:1", 12), "pixiv:1#12");
}

#[test]
fn backups_stand_in_a_directory_of_their_decision() {
    assert_eq!(
        catalog_backup_key("review 1/é", "x/2/00.jpg"),
        "review-trash/review_1__/x/2/00.jpg"
    );
    assert_ne!(catalog_backup_key("d", "a"), catalog_backup_key("d", "b"));
}
