use logagent::forwarder::{event_to_log, Forwarder};
use logagent::models::{LogEvent, TimePoint};

fn ev(label: &str, content: &str, seconds: i64) -> LogEvent {
    LogEvent {
        label: label.to_string(),
        content: content.to_string(),
        timestamp: TimePoint { seconds, nanos: 0 },
    }
}

fn now(seconds: i64) -> TimePoint {
    TimePoint { seconds, nanos: 0 }
}

#[test]
fn event_to_log_keeps_fields() {
    let log = event_to_log(ev("lbl", "line", 42));
    assert_eq!(log.label, "lbl");
    assert_eq!(log.line, "line");
    assert_eq!(log.timestamp, TimePoint { seconds: 42, nanos: 0 });
}

#[test]
fn batch_flushes_exactly_at_size() {
    let mut f = Forwarder::new("agent1".to_string(), "host1".to_string(), 3, 5);
    assert!(f.on_event(ev("a", "1", 1), now(1)).is_none());
    assert!(f.on_event(ev("a", "2", 2), now(2)).is_none());
    let batch = f.on_event(ev("a", "3", 3), now(3)).expect("third event must flush");
    assert_eq!(batch.logs.len(), 3);
    let lines: Vec<&str> = batch.logs.iter().map(|l| l.line.as_str()).collect();
    assert_eq!(lines, vec!["1", "2", "3"]);
    assert_eq!(batch.send_at, now(3));
    assert_eq!(batch.agent_id, "agent1");
    assert_eq!(batch.agent_name, "host1");
    assert!(f.buf.is_empty());
}

#[test]
fn batch_id_is_agent_id_hyphen_unique_suffix() {
    let mut f = Forwarder::new("agent1".to_string(), "host1".to_string(), 1, 5);
    let b1 = f.on_event(ev("a", "x", 1), now(1)).unwrap();
    let b2 = f.on_event(ev("a", "y", 2), now(2)).unwrap();
    assert!(b1.batch_id.starts_with("agent1-"));
    assert_eq!(b1.batch_id.chars().count(), "agent1-".chars().count() + 36);
    assert!(b2.batch_id.starts_with("agent1-"));
    assert_ne!(b1.batch_id, b2.batch_id);
}

#[test]
fn timer_flush_takes_partial_batch() {
    let mut f = Forwarder::new("a".to_string(), "n".to_string(), 10, 5);
    assert!(f.on_event(ev("s", "1", 1), now(1)).is_none());
    assert!(f.on_event(ev("s", "2", 2), now(2)).is_none());
    let batch = f.on_tick(now(7)).expect("elapsed interval must flush");
    assert_eq!(batch.logs.len(), 2);
    assert_eq!(batch.send_at, now(7));
    assert!(f.buf.is_empty());
}

#[test]
fn empty_tick_is_a_no_op() {
    let mut f = Forwarder::new("a".to_string(), "n".to_string(), 10, 5);
    assert!(f.on_tick(now(5)).is_none());
    assert!(f.on_close(now(6)).is_none());
}

#[test]
fn close_flushes_the_remainder() {
    let mut f = Forwarder::new("a".to_string(), "n".to_string(), 10, 5);
    f.on_event(ev("s", "tail", 1), now(1));
    let batch = f.on_close(now(2)).expect("close must drain");
    assert_eq!(batch.logs.len(), 1);
    assert_eq!(batch.logs[0].line, "tail");
    assert!(f.on_close(now(3)).is_none());
}

#[test]
fn batch_size_zero_flushes_every_event_alone() {
    let mut f = Forwarder::new("a".to_string(), "n".to_string(), 0, 5);
    let batch = f.on_event(ev("s", "only", 1), now(1)).expect("size zero can hold nothing");
    assert_eq!(batch.logs.len(), 1);
    assert!(f.buf.is_empty());
}

#[test]
fn flush_restarts_accumulation() {
    let mut f = Forwarder::new("a".to_string(), "n".to_string(), 2, 5);
    assert!(f.on_event(ev("s", "1", 1), now(1)).is_none());
    assert!(f.on_event(ev("s", "2", 2), now(2)).is_some());
    // the accumulator restarted: the next flush holds only what followed
    assert!(f.on_event(ev("s", "3", 3), now(3)).is_none());
    let batch = f.on_event(ev("s", "4", 4), now(4)).unwrap();
    let lines: Vec<&str> = batch.logs.iter().map(|l| l.line.as_str()).collect();
    assert_eq!(lines, vec!["3", "4"]);
}
