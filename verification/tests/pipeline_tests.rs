use logagent::collector::Collector;
use logagent::forwarder::Forwarder;
use logagent::models::TimePoint;
use logagent::streamer::{after_first_attempt, RetryDecision, SendOutcome};

/// Source "app.log", batch size 10, flush interval 5 s. Three lines are
/// written within a second; after the interval elapses with nothing more,
/// exactly one batch with the three entries — in capture order — goes out
/// and is delivered.
#[test]
fn three_lines_one_timed_batch() {
    let mut collector = Collector::new("app.log".to_string(), 0, 1);
    let mut forwarder = Forwarder::new("agent-1".to_string(), "host-1".to_string(), 10, 5);

    // three writes land within the second
    let mut events = Vec::new();
    events.extend(collector.ingest(b"first\n"));
    events.extend(collector.ingest(b"second\n"));
    events.extend(collector.ingest(b"third\n"));
    assert_eq!(events.len(), 3);

    // capture order is file order, and the capture clock never runs backwards
    for pair in events.windows(2) {
        let a = (pair[0].timestamp.seconds, pair[0].timestamp.nanos);
        let b = (pair[1].timestamp.seconds, pair[1].timestamp.nanos);
        assert!(a <= b);
    }

    // below the batch size, no flush happens on arrival
    let mut flushed = Vec::new();
    for event in events {
        if let Some(batch) = forwarder.on_event(event, TimePoint { seconds: 100, nanos: 0 }) {
            flushed.push(batch);
        }
    }
    assert!(flushed.is_empty());

    // the 5 s flush interval elapses
    let batch = forwarder
        .on_tick(TimePoint { seconds: 105, nanos: 0 })
        .expect("the elapsed interval flushes the partial batch");
    assert!(forwarder.on_tick(TimePoint { seconds: 110, nanos: 0 }).is_none());

    assert_eq!(batch.logs.len(), 3);
    let lines: Vec<&str> = batch.logs.iter().map(|l| l.line.as_str()).collect();
    assert_eq!(lines, vec!["first", "second", "third"]);
    for log in &batch.logs {
        assert_eq!(log.label, "app.log");
    }
    for pair in batch.logs.windows(2) {
        let a = (pair[0].timestamp.seconds, pair[0].timestamp.nanos);
        let b = (pair[1].timestamp.seconds, pair[1].timestamp.nanos);
        assert!(a <= b);
    }
    assert_eq!(batch.send_at, TimePoint { seconds: 105, nanos: 0 });

    // the delivery is acknowledged on the first attempt
    assert_eq!(after_first_attempt(&SendOutcome::Delivered), RetryDecision::Success);
}
