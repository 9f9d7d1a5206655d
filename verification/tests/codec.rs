use dirty_db::lines::split_lines;
use dirty_db::record::record_from_value;
use dirty_db::replay::apply;
use dirty_db::{decode, encode, encode_line, replay, DbError, DecodeError, Record};
use serde_json::{Number, Value};
use vstd::hash_map::StringHashMap;

fn text(s: &str) -> Value {
    Value::String(s.to_string())
}

fn record(key: &str, value: Option<Value>) -> Record {
    Record { key: key.to_string(), value }
}

fn object(members: Vec<(&str, Value)>) -> Value {
    members.into_iter().map(|(name, value)| (name.to_string(), value)).collect()
}

fn nested() -> Value {
    object(vec![
        ("list", Value::Array(vec![Value::Bool(false), Value::Null])),
        ("n", Value::Number(Number::from(42u64))),
        ("text", text("line\nbreak\tand \"quotes\" \u{e9}")),
    ])
}

#[test]
fn encode_insertion_is_exact() {
    let line = encode(&record("example", Some(text("success"))));
    assert_eq!(line, b"{\"key\":\"example\",\"value\":\"success\"}".to_vec());
}

#[test]
fn encode_tombstone_has_no_value_member() {
    let line = encode(&record("example", None));
    assert_eq!(line, b"{\"key\":\"example\"}".to_vec());
}

#[test]
fn encode_null_keeps_the_value_member() {
    let line = encode(&record("k", Some(Value::Null)));
    assert_eq!(line, b"{\"key\":\"k\",\"value\":null}".to_vec());
}

#[test]
fn encode_line_ends_in_one_line_feed() {
    let line = encode_line(&record("k", Some(Value::Bool(true))));
    assert_eq!(line, b"{\"key\":\"k\",\"value\":true}\n".to_vec());
}

#[test]
fn encoded_text_is_a_single_line() {
    let line = encode(&record("a\nb\rc", Some(text("x\r\ny\n"))));
    assert!(!line.contains(&b'\n'));
    assert!(!line.contains(&b'\r'));
    assert_eq!(line, b"{\"key\":\"a\\nb\\rc\",\"value\":\"x\\r\\ny\\n\"}".to_vec());
}

#[test]
fn decode_gives_back_what_encode_took() {
    let records = vec![
        record("example", Some(text("success"))),
        record("example", None),
        record("k", Some(Value::Null)),
        record("", Some(Value::Bool(true))),
        record("a\nb \"c\" \u{1F600}", Some(nested())),
        record("n", Some(Value::Number(Number::from(-5i64)))),
        record("big", Some(Value::Number(Number::from(u64::MAX)))),
        record("half", Some(Value::Number(Number::from_f64(0.5).unwrap()))),
        record("key", Some(text("value"))),
    ];
    for r in records {
        assert_eq!(decode(&encode(&r)), Ok(r));
    }
}

#[test]
fn decode_tells_null_from_absent() {
    let stored = decode(b"{\"key\":\"k\",\"value\":null}").unwrap();
    assert_eq!(stored, record("k", Some(Value::Null)));
    let removed = decode(b"{\"key\":\"k\"}").unwrap();
    assert_eq!(removed, record("k", None));
}

#[test]
fn decode_accepts_any_layout_of_the_object() {
    let spaced = decode(b" { \"value\" : [1, 2] ,\t\"key\" : \"k\" } ").unwrap();
    let list = Value::Array(vec![
        Value::Number(Number::from(1u64)),
        Value::Number(Number::from(2u64)),
    ]);
    assert_eq!(spaced, record("k", Some(list)));
    let more = decode(b"{\"key\":\"k\",\"note\":\"kept out\"}").unwrap();
    assert_eq!(more, record("k", None));
}

#[test]
fn decode_takes_the_last_of_a_repeated_member() {
    let twice = decode(b"{\"key\":\"a\",\"value\":1,\"key\":\"b\",\"value\":2}").unwrap();
    assert_eq!(twice, record("b", Some(Value::Number(Number::from(2u64)))));
}

#[test]
fn decode_rejects_what_is_not_json() {
    assert_eq!(decode(b""), Err(DecodeError::InvalidJson));
    assert_eq!(decode(b"not json"), Err(DecodeError::InvalidJson));
    assert_eq!(decode(b"{\"key\":\"k\""), Err(DecodeError::InvalidJson));
    assert_eq!(decode(b"{\"key\":\"k\"}{\"key\":\"l\"}"), Err(DecodeError::InvalidJson));
    assert_eq!(decode(b"{\"key\":\"\xff\"}"), Err(DecodeError::InvalidJson));
}

#[test]
fn decode_rejects_what_is_no_object() {
    assert_eq!(decode(b"[\"k\",\"v\"]"), Err(DecodeError::NotAnObject));
    assert_eq!(decode(b"\"key\""), Err(DecodeError::NotAnObject));
    assert_eq!(decode(b"null"), Err(DecodeError::NotAnObject));
    assert_eq!(decode(b"17"), Err(DecodeError::NotAnObject));
}

#[test]
fn decode_rejects_an_object_without_key() {
    assert_eq!(decode(b"{}"), Err(DecodeError::MissingKey));
    assert_eq!(decode(b"{\"value\":1}"), Err(DecodeError::MissingKey));
    assert_eq!(decode(b"{\"Key\":\"k\"}"), Err(DecodeError::MissingKey));
}

#[test]
fn decode_rejects_a_key_that_is_no_string() {
    assert_eq!(decode(b"{\"key\":1}"), Err(DecodeError::KeyNotText));
    assert_eq!(decode(b"{\"key\":null,\"value\":1}"), Err(DecodeError::KeyNotText));
    assert_eq!(decode(b"{\"key\":[\"k\"]}"), Err(DecodeError::KeyNotText));
}

#[test]
fn record_from_value_reads_an_object() {
    let stored = object(vec![("key", text("k")), ("value", nested())]);
    assert_eq!(record_from_value(&stored), Ok(record("k", Some(nested()))));
    assert_eq!(record_from_value(&text("k")), Err(DecodeError::NotAnObject));
    assert_eq!(record_from_value(&object(vec![])), Err(DecodeError::MissingKey));
}

#[test]
fn split_lines_cuts_at_line_feeds() {
    assert_eq!(split_lines(b""), Vec::<Vec<u8>>::new());
    assert_eq!(split_lines(b"a"), vec![b"a".to_vec()]);
    assert_eq!(split_lines(b"a\n"), vec![b"a".to_vec()]);
    assert_eq!(split_lines(b"a\nb"), vec![b"a".to_vec(), b"b".to_vec()]);
    assert_eq!(split_lines(b"a\nb\n"), vec![b"a".to_vec(), b"b".to_vec()]);
    assert_eq!(split_lines(b"\n"), vec![b"".to_vec()]);
    assert_eq!(split_lines(b"a\n\nb\n"), vec![b"a".to_vec(), b"".to_vec(), b"b".to_vec()]);
    assert_eq!(split_lines(b"\n\n"), vec![b"".to_vec(), b"".to_vec()]);
}

#[test]
fn split_lines_drops_a_carriage_return_before_the_line_feed() {
    assert_eq!(split_lines(b"a\r\nb\r\n"), vec![b"a".to_vec(), b"b".to_vec()]);
    assert_eq!(split_lines(b"\r\n"), vec![b"".to_vec()]);
    assert_eq!(split_lines(b"a\r\r\n"), vec![b"a\r".to_vec()]);
    assert_eq!(split_lines(b"a\rb\n"), vec![b"a\rb".to_vec()]);
    assert_eq!(split_lines(b"a\r"), vec![b"a\r".to_vec()]);
    assert_eq!(split_lines(b"a\n\r"), vec![b"a".to_vec(), b"\r".to_vec()]);
}

#[test]
fn apply_sets_and_removes() {
    let mut docs: StringHashMap<Value> = StringHashMap::new();
    apply(&mut docs, record("a", Some(text("one"))));
    apply(&mut docs, record("b", Some(Value::Null)));
    apply(&mut docs, record("a", Some(text("two"))));
    assert_eq!(docs.len(), 2);
    assert_eq!(docs.get("a"), Some(&text("two")));
    assert_eq!(docs.get("b"), Some(&Value::Null));
    apply(&mut docs, record("b", None));
    apply(&mut docs, record("c", None));
    assert_eq!(docs.len(), 1);
    assert!(!docs.contains_key("b"));
}

#[test]
fn replay_folds_the_log() {
    let log = b"{\"key\":\"a\",\"value\":1}\n{\"key\":\"b\",\"value\":2}\n{\"key\":\"a\"}\n{\"key\":\"b\",\"value\":3}\n";
    let docs = replay(log).unwrap();
    assert_eq!(docs.len(), 1);
    assert_eq!(docs.get("b"), Some(&Value::Number(Number::from(3u64))));
    assert!(!docs.contains_key("a"));
    assert_eq!(replay(b"").unwrap().len(), 0);
}

#[test]
fn replay_names_the_first_corrupt_line() {
    let log = b"{\"key\":\"a\"}\n{\"key\":\"b\"}\n{\"key\":3}\nnot json\n";
    match replay(log) {
        Err(error) => {
            assert_eq!(error, DbError::CorruptLog { line: 3, cause: DecodeError::KeyNotText })
        }
        Ok(_) => panic!("a corrupt log must not replay"),
    }
}
