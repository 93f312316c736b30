use serde_json::Value;
use wallcraft::database::{database_json_reply, database_json_text, json_read_reply};

#[test]
fn a_missing_database_file_reads_as_null() {
    let r = database_json_reply(false, Ok(""));
    assert!(r.ok);
    assert_eq!(r.data, Some(Value::Null));
    assert!(r.error.is_none());
}

#[test]
fn a_database_file_reads_as_its_document() {
    let text = "{\"favorites\": [1, 2], \"name\": \"x\"}";
    let r = database_json_reply(true, Ok(text));
    assert!(r.ok);
    assert_eq!(r.data, Some(serde_json::from_str::<Value>(text).unwrap()));
}

#[test]
fn a_database_file_that_is_not_json_fails_to_parse() {
    let r = database_json_reply(true, Ok("{bad"));
    assert!(!r.ok);
    assert!(r.data.is_none());
    let e = r.error.unwrap();
    assert_eq!(e.code, "PARSE_FAILED");
    assert_eq!(e.message, serde_json::from_str::<Value>("{bad").unwrap_err().to_string());
    let e = database_json_reply(true, Ok("")).error.unwrap();
    assert_eq!(e.code, "PARSE_FAILED");
}

#[test]
fn an_unreadable_database_file_fails_to_read() {
    let e = database_json_reply(true, Err("permission denied")).error.unwrap();
    assert_eq!(e.code, "READ_FAILED");
    assert_eq!(e.message, "permission denied");
}

#[test]
fn database_values_are_written_as_indented_json() {
    let v: Value = serde_json::from_str("{\"a\":[1,2]}").unwrap();
    assert_eq!(database_json_text(&v).ok().unwrap(), "{\n  \"a\": [\n    1,\n    2\n  ]\n}");
    assert_eq!(database_json_text(&Value::Null).ok().unwrap(), "null");
}

#[test]
fn a_read_document_is_handed_on() {
    let v: Value = serde_json::from_str("{\"k\": [true, null, 3]}").unwrap();
    let r = json_read_reply(Ok(v.clone()));
    assert!(r.ok);
    assert_eq!(r.data, Some(v.clone()));
    let e = json_read_reply(Err("bad".to_string())).error.unwrap();
    assert_eq!((e.code.as_str(), e.message.as_str()), ("PARSE_FAILED", "bad"));
    // what is written reads back as the same document
    let text = database_json_text(&v).ok().unwrap();
    assert_eq!(database_json_reply(true, Ok(&text)).data, Some(v));
}
