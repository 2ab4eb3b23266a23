use serde_json::Value;
use vitrine::meta::{
    validate_meta, validate_meta_json, IngestMetaRaw, MetaError, MetaItem, MetaValue,
    ValidatedMeta,
};

fn value(v: &Value) -> MetaValue {
    match v {
        Value::Null => MetaValue::Null,
        Value::Bool(b) => MetaValue::Bool(*b),
        Value::Number(n) => MetaValue::Number {
            text: n.to_string(),
            integer: n.as_i64(),
        },
        Value::String(s) => MetaValue::Text(s.clone()),
        Value::Array(items) => MetaValue::List(
            items
                .iter()
                .map(|item| match item {
                    Value::Null => MetaItem::Null,
                    Value::String(s) => MetaItem::Text(s.clone()),
                    _ => MetaItem::Other,
                })
                .collect(),
        ),
        Value::Object(_) => MetaValue::Object,
    }
}

fn raw(text: &str) -> Option<IngestMetaRaw> {
    let parsed: Value = serde_json::from_str(text).ok()?;
    let object = parsed.as_object()?;
    let field = |name: &str| object.get(name).map(value);
    Some(IngestMetaRaw {
        source: field("source"),
        source_id: field("source_id"),
        source_url: field("source_url"),
        title: field("title"),
        author_name: field("author_name"),
        author_url: field("author_url"),
        tags: field("tags"),
        is_r18: field("is_r18"),
        origin: field("origin"),
    })
}

fn validate(text: &str) -> Result<ValidatedMeta, MetaError> {
    validate_meta_json(raw(text))
}

#[test]
fn validate_meta_requires_source_fields() {
    let err = validate(r#"{"source":"","source_id":"1"}"#).unwrap_err();
    assert_eq!(err, MetaError::MissingSource);

    let err = validate(r#"{"source":"pixiv"}"#).unwrap_err();
    assert_eq!(err, MetaError::MissingSourceId);

    let ok = validate(
        r##"{"source":"Pixiv","source_id":"123","tags":["#foo bar","foo_bar"],"is_r18":false}"##,
    )
    .unwrap();
    assert_eq!(ok.source, "pixiv");
    assert_eq!(ok.source_id, "123");
    assert_eq!(ok.tags, vec!["foo_bar"]);
}

#[test]
fn validate_meta_rejects_path_injection() {
    assert!(validate(r#"{"source":"pix/iv","source_id":"1"}"#).is_err());
    assert!(validate(r#"{"source":"pixiv","source_id":"../x"}"#).is_err());
    assert!(validate(r#"{"source":"pixiv","source_id":"a/b"}"#).is_err());
    assert!(validate(r#"{"source":"pixiv","source_id":"ok","tags":1}"#).is_err());
}

#[test]
fn unreadable_metadata_is_refused() {
    assert_eq!(validate("[]").unwrap_err(), MetaError::InvalidJson);
    assert_eq!(validate("{").unwrap_err(), MetaError::InvalidJson);
    assert_eq!(MetaError::InvalidJson.message(), "invalid meta json");
}

#[test]
fn each_bad_field_is_named() {
    let err = |text: &str| validate(text).unwrap_err();
    assert_eq!(
        err(r#"{"source":[],"source_id":"1"}"#),
        MetaError::InvalidField("source")
    );
    assert_eq!(
        err(r#"{"source":"p","source_id":{}}"#),
        MetaError::InvalidField("source_id")
    );
    assert_eq!(
        err(r#"{"source":"p!","source_id":"1"}"#),
        MetaError::InvalidSource
    );
    assert_eq!(
        err(r#"{"source":"p","source_id":"a/b"}"#),
        MetaError::InvalidSourceId
    );
    for (field, message) in [
        ("source_url", "invalid source_url"),
        ("title", "invalid title"),
        ("author_name", "invalid author_name"),
        ("author_url", "invalid author_url"),
        ("tags", "invalid tags"),
        ("is_r18", "invalid is_r18"),
        ("origin", "invalid origin"),
    ] {
        let e = err(&format!(
            "{{\"source\":\"p\",\"source_id\":\"1\",\"{field}\":{{}}}}"
        ));
        assert_eq!(e, MetaError::InvalidField(field));
        assert_eq!(e.message(), message);
    }
    assert_eq!(
        MetaError::InvalidField("source").message(),
        "invalid meta field"
    );
    assert_eq!(
        MetaError::MissingSource.message(),
        "source and source_id required"
    );
    assert_eq!(
        MetaError::MissingSourceId.message(),
        "source and source_id required"
    );
    assert_eq!(MetaError::InvalidSource.message(), "invalid source");
    assert_eq!(MetaError::InvalidSourceId.message(), "invalid source_id");
}

#[test]
fn plain_values_become_texts() {
    let meta = validate(
        r#"{"source":" Pixiv ","source_id":12,"title":true,"author_name":1.5,"origin":null,"is_r18":2}"#,
    )
    .unwrap();
    assert_eq!(meta.source, "pixiv");
    assert_eq!(meta.source_id, "12");
    assert_eq!(meta.title, "true");
    assert_eq!(meta.author_name, "1.5");
    assert_eq!(meta.origin, "");
    assert!(meta.is_r18);
    assert_eq!(
        validate(r#"{"source":"p","source_id":"1","is_r18":1.5}"#).unwrap_err(),
        MetaError::InvalidField("is_r18")
    );
    assert_eq!(
        validate(r#"{"source":"p","source_id":"1","is_r18":"1"}"#).unwrap_err(),
        MetaError::InvalidField("is_r18")
    );
}

#[test]
fn tags_are_distinct_and_few() {
    let mut list: Vec<String> = (0..50).map(|i| format!("\"t{i}\"")).collect();
    list.push("\"t0\"".into());
    let meta = validate(&format!(
        "{{\"source\":\"p\",\"source_id\":\"1\",\"tags\":[{}]}}",
        list.join(",")
    ))
    .unwrap();
    assert_eq!(meta.tags.len(), 40);
    assert_eq!(meta.tags[39], "t39");
    let meta = validate(r##"{"source":"p","source_id":"1","tags":["a","#a",null,"  ","b"]}"##)
        .unwrap();
    assert_eq!(meta.tags, vec!["a", "b"]);
    assert_eq!(
        validate(r#"{"source":"p","source_id":"1","tags":["a",1]}"#).unwrap_err(),
        MetaError::InvalidField("tags")
    );
}

#[test]
fn sources_are_lowered_beyond_ascii() {
    let err = validate(r#"{"source":"ÉTÉ","source_id":"1"}"#).unwrap_err();
    assert_eq!(err, MetaError::InvalidSource);
    let meta = validate_meta(raw(r#"{"source":"\u212a","source_id":"1"}"#).unwrap()).unwrap();
    assert_eq!(meta.source, "k");
}
