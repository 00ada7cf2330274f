use logagent::collector::{Collector, FileCheck};

fn fresh(label: &str, position: u64, file_id: u64) -> Collector {
    Collector::new(label.to_string(), position, file_id)
}

#[test]
fn single_complete_line() {
    let mut c = fresh("app.log", 0, 1);
    let events = c.ingest(b"hello\n");
    assert_eq!(events.len(), 1);
    assert_eq!(events[0].label, "app.log");
    assert_eq!(events[0].content, "hello");
    assert_eq!(c.position, 6);
    assert!(c.pending.is_empty());
}

#[test]
fn fragment_is_withheld_until_completed() {
    let mut c = fresh("app.log", 0, 1);
    let events = c.ingest(b"par");
    assert!(events.is_empty());
    assert_eq!(c.position, 0);
    assert_eq!(c.pending, b"par".to_vec());

    let events = c.ingest(b"tial\nrest");
    assert_eq!(events.len(), 1);
    assert_eq!(events[0].content, "partial");
    assert_eq!(c.position, 8);
    assert_eq!(c.pending, b"rest".to_vec());
}

#[test]
fn blank_lines_are_discarded() {
    let mut c = fresh("s", 0, 1);
    let events = c.ingest(b"  \n\n a \n");
    assert_eq!(events.len(), 1);
    assert_eq!(events[0].content, " a");
    assert_eq!(c.position, 8);
}

#[test]
fn trailing_whitespace_is_trimmed() {
    let mut c = fresh("s", 0, 1);
    let events = c.ingest(b"abc \r\n");
    assert_eq!(events.len(), 1);
    assert_eq!(events[0].content, "abc");
}

#[test]
fn multiple_lines_in_file_order() {
    let mut c = fresh("s", 0, 1);
    let events = c.ingest(b"one\ntwo\nthree\n");
    let contents: Vec<&str> = events.iter().map(|e| e.content.as_str()).collect();
    assert_eq!(contents, vec!["one", "two", "three"]);
    assert_eq!(c.position, 14);
}

#[test]
fn non_ascii_content_is_decoded() {
    let mut c = fresh("s", 0, 1);
    let events = c.ingest("héllo\n".as_bytes());
    assert_eq!(events.len(), 1);
    assert_eq!(events[0].content, "héllo");
}

#[test]
fn invalid_utf8_is_replaced_not_dropped() {
    let mut c = fresh("s", 0, 1);
    let events = c.ingest(&[0xff, b'a', b'\n']);
    assert_eq!(events.len(), 1);
    assert_eq!(events[0].content, "\u{FFFD}a");
}

#[test]
fn rotation_resets_to_new_file_start() {
    let mut c = fresh("app.log", 0, 7);
    c.ingest(b"old line\n");
    assert_eq!(c.position, 9);

    // the path now names a different file
    let r = c.check_file(8, 100);
    assert_eq!(r, FileCheck::Rotated);
    assert_eq!(c.file_id, 8);
    assert_eq!(c.position, 0);

    // nothing appended to the new file after the swap is lost
    let events = c.ingest(b"new first\nnew second\n");
    let contents: Vec<&str> = events.iter().map(|e| e.content.as_str()).collect();
    assert_eq!(contents, vec!["new first", "new second"]);
    assert_eq!(c.position, 21);
}

#[test]
fn truncation_resets_offset_to_zero() {
    let mut c = fresh("app.log", 0, 7);
    c.ingest(b"0123456789\n");
    assert_eq!(c.position, 11);

    // same file identity, length below the tracked offset
    let r = c.check_file(7, 4);
    assert_eq!(r, FileCheck::Truncated);
    assert_eq!(c.file_id, 7);
    assert_eq!(c.position, 0);

    let events = c.ingest(b"anew\n");
    assert_eq!(events.len(), 1);
    assert_eq!(events[0].content, "anew");
}

#[test]
fn rotation_drops_the_stale_fragment() {
    let mut c = fresh("app.log", 0, 7);
    let events = c.ingest(b"done\nabc");
    assert_eq!(events.len(), 1);
    assert_eq!(c.pending, b"abc".to_vec());

    // the path now names a different, shorter file; nothing of the old
    // fragment may prefix it, and reading must restart at offset 0
    let r = c.check_file(8, 6);
    assert_eq!(r, FileCheck::Rotated);
    assert!(c.pending.is_empty());
    assert_eq!(c.read_offset(), 0);

    let events = c.ingest(b"hello\n");
    assert_eq!(events.len(), 1);
    assert_eq!(events[0].content, "hello");
}

#[test]
fn truncation_drops_the_stale_fragment() {
    let mut c = fresh("app.log", 0, 7);
    c.ingest(b"done\nabc");
    let r = c.check_file(7, 2);
    assert_eq!(r, FileCheck::Truncated);
    assert!(c.pending.is_empty());
    assert_eq!(c.read_offset(), 0);

    let events = c.ingest(b"hi\n");
    assert_eq!(events.len(), 1);
    assert_eq!(events[0].content, "hi");
}

#[test]
fn peek_decides_without_moving_the_cursor() {
    let mut c = fresh("s", 0, 7);
    c.ingest(b"x\nfrag");
    assert_eq!(c.peek_file(8, 0), FileCheck::Rotated);
    assert_eq!(c.peek_file(7, 0), FileCheck::Truncated);
    assert_eq!(c.peek_file(7, 99), FileCheck::Unchanged);
    assert_eq!(c.position, 2);
    assert_eq!(c.pending, b"frag".to_vec());
    assert_eq!(c.file_id, 7);
}

#[test]
fn unchanged_file_leaves_cursor_alone() {
    let mut c = fresh("app.log", 5, 7);
    let r = c.check_file(7, 5);
    assert_eq!(r, FileCheck::Unchanged);
    assert_eq!(c.position, 5);
    assert_eq!(c.file_id, 7);
}

#[test]
fn read_offset_counts_buffered_fragment() {
    let mut c = fresh("s", 0, 1);
    c.ingest(b"ab\ncd");
    assert_eq!(c.position, 3);
    assert_eq!(c.read_offset(), 5);
}

#[test]
fn empty_read_changes_nothing() {
    let mut c = fresh("s", 3, 1);
    c.ingest(b"frag");
    let events = c.ingest(b"");
    assert!(events.is_empty());
    assert_eq!(c.position, 3);
    assert_eq!(c.pending, b"frag".to_vec());
}

#[test]
fn capture_timestamps_are_well_formed() {
    let mut c = fresh("s", 0, 1);
    let events = c.ingest(b"x\ny\n");
    assert_eq!(events.len(), 2);
    for e in &events {
        assert!(e.timestamp.nanos <= 1_999_999_999);
        assert!(e.timestamp.seconds > 0);
    }
}
