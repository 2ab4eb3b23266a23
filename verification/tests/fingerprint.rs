use vitrine::fingerprint::{compute_fingerprint, ingest_id_with, sha256_hex, shape_ingest_id};
use vitrine::keys::versioned_r2_key;
use vitrine::meta::ValidatedMeta;

fn sample() -> ValidatedMeta {
    ValidatedMeta {
        source: "pixiv".into(),
        source_id: "99".into(),
        source_url: "https://x".into(),
        title: "t".into(),
        author_name: "a".into(),
        author_url: "".into(),
        tags: vec!["tag".into()],
        is_r18: false,
        origin: "hanabi".into(),
    }
}

#[test]
fn fingerprint_and_keys_stable() {
    let meta = sample();
    let fp1 = compute_fingerprint(&meta, &["aa".into(), "bb".into()]);
    let fp2 = compute_fingerprint(&meta, &["aa".into(), "bb".into()]);
    let fp3 = compute_fingerprint(&meta, &["aa".into(), "cc".into()]);
    assert_eq!(fp1, fp2);
    assert_ne!(fp1, fp3);
    assert_eq!(fp1.len(), 64);

    let key = versioned_r2_key("pixiv", "99", "deadbeef", 0, "jpg");
    assert_eq!(key, "pixiv/99/deadbeef/00.jpg");
    assert_eq!(
        versioned_r2_key("pixiv", "99", "deadbeef", 12, "png"),
        "pixiv/99/deadbeef/12.png"
    );

    let id = shape_ingest_id(&["a", "b", "c"]);
    assert_eq!(id.len(), 32);
    assert_eq!(id, shape_ingest_id(&["a", "b", "c"]));
}

#[test]
fn digests_are_the_known_ones() {
    assert_eq!(
        sha256_hex(b""),
        "e3b0c44298fc1c149afbf4c8996fb92427ae41e4649b934ca495991b7852b855"
    );
    assert_eq!(
        sha256_hex(b"abc"),
        "ba7816bf8f01cfea414140de5dae2223b00361a396177a9cb410ff61f20015ad"
    );
}

#[test]
fn every_part_is_closed_by_a_zero_byte() {
    assert_eq!(
        shape_ingest_id(&["abc"]),
        sha256_hex(b"abc\0")[..32].to_string()
    );
    assert_eq!(
        shape_ingest_id(&["a", "bc"]),
        sha256_hex(b"a\0bc\0")[..32].to_string()
    );
    assert_ne!(shape_ingest_id(&["ab", "c"]), shape_ingest_id(&["a", "bc"]));
}

#[test]
fn fingerprint_is_the_digest_of_all_fields() {
    let expected = sha256_hex(b"pixiv\099\0https://x\0t\0a\0\00\0hanabi\0tag\0aa\0");
    assert_eq!(compute_fingerprint(&sample(), &["aa".into()]), expected);
    let mut adult = sample();
    adult.is_r18 = true;
    assert_eq!(
        compute_fingerprint(&adult, &[]),
        sha256_hex(b"pixiv\099\0https://x\0t\0a\0\01\0hanabi\0tag\0")
    );
}

#[test]
fn each_field_changes_the_fingerprint() {
    let base = compute_fingerprint(&sample(), &[]);
    let mut other = sample();
    other.tags.push("more".into());
    assert_ne!(compute_fingerprint(&other, &[]), base);
    let mut other = sample();
    other.title = "ta".into();
    other.author_name = "".into();
    assert_ne!(compute_fingerprint(&other, &[]), base);
}

#[test]
fn ingest_ids_hold_the_random_bytes() {
    let id = ingest_id_with("now", "pixiv:1", "fp", &[0, 255, 16]);
    assert_eq!(id, shape_ingest_id(&["now", "pixiv:1", "fp", "00ff10"]));
    assert_ne!(id, ingest_id_with("now", "pixiv:1", "fp", &[0, 255, 17]));
}
