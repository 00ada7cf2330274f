use vstd::prelude::*;

verus! {

/// A point in time: whole seconds since the Unix epoch, and the nanoseconds
/// within that second.
#[derive(Clone, Copy, Debug, PartialEq, Eq, Structural)]
pub struct TimePoint {
    pub seconds: i64,
    pub nanos: u32,
}

/// One captured log line: the label of the source it came from, the line's
/// content with trailing whitespace removed, and the capture time.
#[derive(Clone, Debug)]
pub struct LogEvent {
    pub label: String,
    pub content: String,
    pub timestamp: TimePoint,
}

/// The wire projection of a [`LogEvent`].
#[derive(Clone, Debug)]
pub struct Log {
    pub label: String,
    pub line: String,
    pub timestamp: TimePoint,
}

/// A bounded group of log lines delivered to the remote service in one call,
/// tagged with a unique identifier and a send timestamp.
#[derive(Clone, Debug)]
pub struct LogBatch {
    pub agent_id: String,
    pub agent_name: String,
    pub batch_id: String,
    pub send_at: TimePoint,
    pub logs: Vec<Log>,
}

/// Relies on `chrono::Utc::now` together with `DateTime::timestamp` and
/// `DateTime::timestamp_subsec_nanos` for the current wall-clock time.
/// The subsecond part is at most 1_999_999_999: chrono documents that it
/// exceeds 999_999_999 only to encode a leap second. `Utc::now` itself
/// aborts on a host whose clock stands before the Unix epoch.
#[verifier::external_body]
pub(crate) fn now_utc() -> (t: TimePoint)
    ensures
        t.nanos <= 1_999_999_999,
{
    let now = chrono::Utc::now();
    TimePoint { seconds: now.timestamp(), nanos: now.timestamp_subsec_nanos() }
}

} // verus!
