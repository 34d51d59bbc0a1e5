use chrome_trace::json::{encode_json_string, u64_to_dec};
use chrome_trace::record::{build_record, in_micros, Recorder};

#[test]
fn in_micros_truncates_sub_microsecond_precision() {
    assert_eq!(in_micros(0, 0), 0);
    assert_eq!(in_micros(0, 999), 0);
    assert_eq!(in_micros(0, 1000), 1);
    assert_eq!(in_micros(2, 3_456), 2_000_003);
    assert_eq!(in_micros(1, 999_999_999), 1_999_999);
}

#[test]
fn decimal_rendering_is_exact() {
    assert_eq!(u64_to_dec(0), "0");
    assert_eq!(u64_to_dec(7), "7");
    assert_eq!(u64_to_dec(10), "10");
    assert_eq!(u64_to_dec(1234567890), "1234567890");
    assert_eq!(u64_to_dec(u64::MAX), "18446744073709551615");
}

#[test]
fn json_string_escaping() {
    assert_eq!(encode_json_string(""), "\"\"");
    assert_eq!(encode_json_string("hi"), "\"hi\"");
    assert_eq!(encode_json_string("a\"b\\c"), "\"a\\\"b\\\\c\"");
    assert_eq!(encode_json_string("line\nbreak\ttab\rret"), "\"line\\nbreak\\ttab\\rret\"");
    assert_eq!(encode_json_string("\u{8}\u{c}"), "\"\\b\\f\"");
    assert_eq!(encode_json_string("\u{1}\u{1f}"), "\"\\u0001\\u001f\"");
    assert_eq!(encode_json_string("héllo ✓"), "\"héllo ✓\"");
}

#[test]
fn json_string_round_trips_through_a_json_parser() {
    let encoded = encode_json_string("a\"b\\c\nd\u{1}e");
    let value: serde_json::Value = serde_json::from_str(&encoded).unwrap();
    assert_eq!(value.as_str().unwrap(), "a\"b\\c\nd\u{1}e");
}

#[test]
fn recorder_separates_message_from_fields() {
    let mut rec = Recorder::new();
    rec.record_str("message", "hi");
    rec.record_str("x", "1");
    assert_eq!(rec.message.as_deref(), Some("hi"));
    assert_eq!(rec.fields, vec![("x".to_string(), "1".to_string())]);
}

#[test]
fn recorder_last_write_wins_on_a_repeated_field_name() {
    let mut rec = Recorder::new();
    rec.record_str("x", "1");
    rec.record_str("y", "2");
    rec.record_str("x", "3");
    assert_eq!(
        rec.fields,
        vec![("x".to_string(), "3".to_string()), ("y".to_string(), "2".to_string())]
    );
    rec.record_str("message", "a");
    rec.record_str("message", "b");
    assert_eq!(rec.message.as_deref(), Some("b"));
}

#[test]
fn recorder_debug_values_behave_like_strings() {
    let mut rec = Recorder::new();
    rec.record_debug("n", format!("{:?}", 42u64));
    rec.record_debug("message", "zap".to_string());
    assert_eq!(rec.message.as_deref(), Some("zap"));
    assert_eq!(rec.fields, vec![("n".to_string(), "42".to_string())]);
}

#[test]
fn record_with_message_and_field() {
    let mut rec = Recorder::new();
    rec.record_str("message", "hi");
    rec.record_str("x", "1");
    let record = build_record(rec, "app", 5, 7, 9);
    let line = record.to_json_line();
    assert_eq!(
        line,
        "{\"name\":\"hi\",\"cat\":\"app\",\"ph\":\"I\",\"ts\":5,\"s\":\"p\",\"pid\":7,\"tid\":9,\"args\":{\"x\":\"1\"}}"
    );
    let value: serde_json::Value = serde_json::from_str(&line).unwrap();
    assert_eq!(value.get("name").unwrap().as_str().unwrap(), "hi");
    assert_eq!(value.get("cat").unwrap().as_str().unwrap(), "app");
    assert_eq!(value.get("ph").unwrap().as_str().unwrap(), "I");
    assert_eq!(value.get("ts").unwrap().as_u64().unwrap(), 5);
    assert_eq!(value.get("s").unwrap().as_str().unwrap(), "p");
    assert_eq!(value.get("pid").unwrap().as_u64().unwrap(), 7);
    assert_eq!(value.get("tid").unwrap().as_u64().unwrap(), 9);
    let args = value.get("args").unwrap();
    assert_eq!(args.get("x").unwrap().as_str().unwrap(), "1");
    assert!(args.get("message").is_none());
    assert_eq!(args.as_object().unwrap().len(), 1);
}

#[test]
fn missing_message_becomes_the_placeholder_name() {
    let mut rec = Recorder::new();
    rec.record_str("x", "1");
    let record = build_record(rec, "app", 0, 1, 2);
    let value: serde_json::Value = serde_json::from_str(&record.to_json_line()).unwrap();
    assert_eq!(value.get("name").unwrap().as_str().unwrap(), "<unknown>");
    assert!(value.get("args").unwrap().get("message").is_none());
}

#[test]
fn debug_valued_field_is_a_nonempty_json_string() {
    let mut rec = Recorder::new();
    rec.record_debug("n", format!("{:?}", 42u64));
    let record = build_record(rec, "app", 0, 1, 2);
    let value: serde_json::Value = serde_json::from_str(&record.to_json_line()).unwrap();
    let n = value.get("args").unwrap().get("n").unwrap();
    assert!(n.is_string());
    assert!(!n.as_str().unwrap().is_empty());
}

#[test]
fn empty_recorder_yields_empty_args() {
    let rec = Recorder::new();
    let record = build_record(rec, "", 0, 0, 0);
    assert_eq!(
        record.to_json_line(),
        "{\"name\":\"<unknown>\",\"cat\":\"\",\"ph\":\"I\",\"ts\":0,\"s\":\"p\",\"pid\":0,\"tid\":0,\"args\":{}}"
    );
}
