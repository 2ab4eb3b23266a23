use serde_json::Value;
use vitrine::json::{failure, Json, Members};

#[test]
fn documents_are_printed_without_white_space() {
    assert_eq!(Json::Null.print(), "null");
    assert_eq!(Json::Bool(true).print(), "true");
    assert_eq!(Json::Bool(false).print(), "false");
    assert_eq!(Json::Num(0).print(), "0");
    assert_eq!(Json::Num(-1205).print(), "-1205");
    assert_eq!(Json::list(vec![]).print(), "[]");
    assert_eq!(Members::new().object().print(), "{}");
    assert_eq!(Json::Written("[1, 2]".into()).print(), "[1, 2]");
    let document = Members::new()
        .with("b", Json::numbers(&[1, -2]))
        .with("a", Json::list(vec![Json::text("x"), Json::Null]))
        .object();
    assert_eq!(document.print(), "{\"b\":[1,-2],\"a\":[\"x\",null]}");
    assert_eq!(failure("no").body.print(), "{\"error\":\"no\",\"ok\":false}");
}

#[test]
fn the_widest_numbers_are_printed() {
    assert_eq!(Json::Num(i128::MAX).print(), i128::MAX.to_string());
    assert_eq!(Json::Num(i128::MIN).print(), i128::MIN.to_string());
}

#[test]
fn strings_are_escaped() {
    assert_eq!(
        Json::text("a\"b\\c\u{8}\t\n\u{c}\r\u{1}\u{1f}\u{7f}/é").print(),
        "\"a\\\"b\\\\c\\b\\t\\n\\f\\r\\u0001\\u001f\u{7f}/é\""
    );
}

#[test]
fn printed_documents_are_read_as_they_are() {
    let document = Members::new()
        .with("a", Json::Num(u64::MAX as i128))
        .with("b", Json::Num(i64::MIN as i128))
        .with("c", Json::text("\u{0}\u{7f}\u{10ffff}\""))
        .with("é", Json::list(vec![Json::Null, Json::Bool(true)]))
        .object();
    let printed = document.print();
    let read = serde_json::from_str::<Value>(&printed).unwrap();
    assert_eq!(read["a"], u64::MAX);
    assert_eq!(read["c"], "\u{0}\u{7f}\u{10ffff}\"");
    assert_eq!(read.to_string(), printed);
}

#[test]
fn deep_documents_are_read_as_they_are() {
    let mut document = Json::Null;
    for _ in 0..127 {
        document = Json::list(vec![document]);
    }
    let printed = document.print();
    let read = serde_json::from_str::<Value>(&printed).unwrap();
    assert_eq!(read.to_string(), printed);
    let deeper = Json::list(vec![document]).print();
    assert!(serde_json::from_str::<Value>(&deeper).is_err());
}
