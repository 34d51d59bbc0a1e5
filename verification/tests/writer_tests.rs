use chrome_trace::record::{build_record, Recorder, TraceRecord};
use chrome_trace::writer::{array_open, run_writer, writer_step, Message, WriterState};

fn named_record(name: &str, ts: u64) -> TraceRecord {
    let mut rec = Recorder::new();
    rec.record_str("message", name);
    build_record(rec, "test", ts, 1, 2)
}

#[test]
fn empty_session_yields_exactly_open_then_close() {
    let out = run_writer(&vec![Message::Done]);
    assert_eq!(out, "[\n]\n");
}

#[test]
fn session_preserves_record_count_and_order() {
    let msgs = vec![
        Message::Event(named_record("a", 1)),
        Message::Event(named_record("b", 2)),
        Message::Event(named_record("c", 3)),
        Message::Done,
    ];
    let out = run_writer(&msgs);
    let lines: Vec<&str> = out.lines().collect();
    assert_eq!(lines[0], "[");
    assert_eq!(lines[lines.len() - 1], "]");
    let mut names = Vec::new();
    let mut i: usize = 1;
    while i + 1 < lines.len() {
        let value: serde_json::Value = serde_json::from_str(lines[i]).unwrap();
        names.push(value.get("name").unwrap().as_str().unwrap().to_string());
        assert_eq!(lines[i + 1], ",");
        i += 2;
    }
    assert_eq!(names, vec!["a", "b", "c"]);
}

#[test]
fn messages_after_done_are_ignored() {
    let msgs = vec![Message::Done, Message::Event(named_record("late", 9))];
    assert_eq!(run_writer(&msgs), "[\n]\n");
}

#[test]
fn without_done_the_array_stays_unclosed() {
    let msgs = vec![Message::Event(named_record("a", 1))];
    let out = run_writer(&msgs);
    assert!(out.starts_with("[\n"));
    assert!(out.ends_with(",\n"));
    assert!(!out.contains(']'));
}

#[test]
fn each_record_line_is_followed_by_a_comma_line() {
    let msgs = vec![Message::Event(named_record("only", 4)), Message::Done];
    let out = run_writer(&msgs);
    let expected = format!("[\n{}\n,\n]\n", named_record("only", 4).to_json_line());
    assert_eq!(out, expected);
}

#[test]
fn step_writes_the_close_token_once_and_then_nothing() {
    let (text, next) = writer_step(WriterState::Open, &Message::Done);
    assert_eq!(text, "]\n");
    assert_eq!(next, WriterState::Closed);
    let (text, next) = writer_step(WriterState::Closed, &Message::Event(named_record("a", 0)));
    assert_eq!(text, "");
    assert_eq!(next, WriterState::Closed);
    let (text, next) = writer_step(WriterState::Closed, &Message::Done);
    assert_eq!(text, "");
    assert_eq!(next, WriterState::Closed);
}

#[test]
fn open_token_is_a_bracket_line() {
    assert_eq!(array_open(), "[\n");
}
