use vitrine::tags::{cover_url_from_key, normalize_tag, tags_from_group_concat};

#[test]
fn normalize_tag_trims_hash_and_spaces() {
    assert_eq!(normalize_tag("  #foo bar  "), "foo_bar");
    assert_eq!(normalize_tag("#already_ok"), "already_ok");
    assert_eq!(normalize_tag(""), "");
}

#[test]
fn normalize_tag_caps_at_64_chars() {
    let long = "a".repeat(80);
    assert_eq!(normalize_tag(&long).len(), 64);
}

#[test]
fn tags_from_group_concat_splits() {
    assert_eq!(tags_from_group_concat(Some("a,b,c")), vec!["a", "b", "c"]);
    assert!(tags_from_group_concat(None).is_empty());
    assert!(tags_from_group_concat(Some("")).is_empty());
}

#[test]
fn cover_url_from_key_builds_media_path() {
    assert_eq!(
        cover_url_from_key(Some("pixiv/1/00.jpg")).as_deref(),
        Some("/media/pixiv/1/00.jpg")
    );
    assert_eq!(cover_url_from_key(Some("")), None);
    assert_eq!(cover_url_from_key(None), None);
}

#[test]
fn normalizing_counts_characters_not_bytes() {
    let long = "é".repeat(70);
    assert_eq!(normalize_tag(&long), "é".repeat(64));
    assert_eq!(normalize_tag("##\u{3000}a\t b\nc"), "a_b_c");
    assert_eq!(normalize_tag("###"), "");
}

#[test]
fn normalizing_twice_changes_nothing_more() {
    let once = normalize_tag(" #foo  bar baz ");
    assert_eq!(once, "foo_bar_baz");
    assert_eq!(normalize_tag(&once), once);
    assert_eq!(normalize_tag("# #foo"), "#foo");
    assert_eq!(normalize_tag("#foo"), "foo");
}

#[test]
fn empty_entries_of_a_list_are_left_out() {
    assert_eq!(tags_from_group_concat(Some(",a,,b,")), vec!["a", "b"]);
}

#[test]
fn joined_tags_come_back() {
    let tags = vec!["foo".to_string(), "bar_baz".to_string()];
    assert_eq!(tags_from_group_concat(Some(&tags.join(","))), tags);
}
