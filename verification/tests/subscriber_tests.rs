use chrome_trace::record::Recorder;
use chrome_trace::subscriber::{ChromeTraceSubscriber, MaybeChromeTraceSubscriber};
use chrome_trace::writer::Message;

#[test]
fn always_enabled() {
    let s = ChromeTraceSubscriber::new(1);
    assert!(s.enabled());
}

#[test]
fn span_ids_start_at_zero_and_advance_by_ten() {
    let mut s = ChromeTraceSubscriber::new(1);
    assert_eq!(s.new_span(), 0);
    assert_eq!(s.new_span(), 10);
    assert_eq!(s.new_span(), 20);
}

#[test]
fn span_ids_never_repeat() {
    let mut s = ChromeTraceSubscriber::new(1);
    let mut ids = Vec::new();
    for _ in 0..100 {
        ids.push(s.new_span());
    }
    for i in 0..ids.len() {
        for j in (i + 1)..ids.len() {
            assert_ne!(ids[i], ids[j]);
        }
    }
}

#[test]
fn event_builds_the_normalized_record() {
    let s = ChromeTraceSubscriber::new(77);
    let mut rec = Recorder::new();
    rec.record_str("message", "hello");
    rec.record_str("k", "v");
    match s.event("cat", rec, 123) {
        Message::Event(r) => {
            assert_eq!(r.name, "hello");
            assert_eq!(r.cat, "cat");
            assert_eq!(r.ts, 123);
            assert_eq!(r.pid, 77);
            assert_eq!(r.args, vec![("k".to_string(), "v".to_string())]);
        }
        Message::Done => panic!("expected an event message"),
    }
}

#[test]
fn event_without_message_uses_the_placeholder() {
    let s = ChromeTraceSubscriber::new(1);
    match s.event("cat", Recorder::new(), 0) {
        Message::Event(r) => assert_eq!(r.name, "<unknown>"),
        Message::Done => panic!("expected an event message"),
    }
}

#[test]
fn absent_subscriber_noops_every_operation() {
    let mut m = MaybeChromeTraceSubscriber(None);
    assert!(!m.enabled());
    assert_eq!(m.new_span(), 0);
    m.record(0);
    m.record_follows_from(0, 0);
    m.enter(0);
    m.exit(0);
    assert!(m.event("cat", Recorder::new(), 1).is_none());
    assert!(m.0.is_none());
}

#[test]
fn present_subscriber_delegates() {
    let mut m = MaybeChromeTraceSubscriber(Some(ChromeTraceSubscriber::new(5)));
    assert!(m.enabled());
    assert_eq!(m.new_span(), 0);
    assert_eq!(m.new_span(), 10);
    let mut rec = Recorder::new();
    rec.record_str("message", "e");
    match m.event("c", rec, 2) {
        Some(Message::Event(r)) => {
            assert_eq!(r.pid, 5);
            assert_eq!(r.name, "e");
            assert_eq!(r.ts, 2);
        }
        _ => panic!("expected an event message"),
    }
    m.record(0);
    m.enter(0);
    m.exit(0);
}
