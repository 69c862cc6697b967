use dockpit::log_buffer::LogBuffer;
use dockpit::message::{LogEntry, LogLevel, Timestamp};

fn make_entry(content: &str) -> LogEntry {
    LogEntry {
        timestamp: None,
        content: content.to_string(),
        level: LogLevel::Info,
    }
}

#[test]
fn test_push_and_get() {
    let mut buffer = LogBuffer::new(100);
    buffer.push(make_entry("line 1"));
    buffer.push(make_entry("line 2"));

    assert_eq!(buffer.len(), 2);
    assert_eq!(buffer.get(0).unwrap().content, "line 1");
    assert_eq!(buffer.get(1).unwrap().content, "line 2");
}

#[test]
fn test_capacity_limit() {
    let mut buffer = LogBuffer::new(3);
    buffer.push(make_entry("line 1"));
    buffer.push(make_entry("line 2"));
    buffer.push(make_entry("line 3"));
    buffer.push(make_entry("line 4"));

    assert_eq!(buffer.len(), 3);
    // Oldest entry should be removed
    assert_eq!(buffer.get(0).unwrap().content, "line 2");
}

#[test]
fn test_prepend() {
    let mut buffer = LogBuffer::new(100);
    buffer.push(make_entry("line 3"));
    buffer.push(make_entry("line 4"));

    buffer.prepend(vec![make_entry("line 1"), make_entry("line 2")]);

    assert_eq!(buffer.len(), 4);
    assert_eq!(buffer.get(0).unwrap().content, "line 1");
    assert_eq!(buffer.get(1).unwrap().content, "line 2");
    assert_eq!(buffer.get(2).unwrap().content, "line 3");
    assert_eq!(buffer.get(3).unwrap().content, "line 4");
}

#[test]
fn test_get_range() {
    let mut buffer = LogBuffer::new(100);
    for i in 1..=10 {
        buffer.push(make_entry(&format!("line {}", i)));
    }

    let range: Vec<_> = buffer.get_range(3, 4);
    assert_eq!(range.len(), 4);
    assert_eq!(range[0].content, "line 4");
    assert_eq!(range[3].content, "line 7");
}

#[test]
fn log_buffer_prepend_trims_newest_and_reports_count() {
    let mut buffer = LogBuffer::new(3);
    buffer.push(make_entry("line 3"));
    buffer.push(make_entry("line 4"));
    let added = buffer.prepend(vec![make_entry("line 1"), make_entry("line 2")]);
    assert_eq!(added, 2);
    assert_eq!(buffer.len(), 3);
    assert_eq!(buffer.newest().unwrap().content, "line 3");
    assert_eq!(buffer.oldest().unwrap().content, "line 1");
}

#[test]
fn log_buffer_push_batch_keeps_last_capacity_entries() {
    let mut buffer = LogBuffer::new(2);
    buffer.push_batch(vec![make_entry("a"), make_entry("b"), make_entry("c")]);
    let all: Vec<&str> = buffer.iter().iter().map(|e| e.content.as_str()).collect();
    assert_eq!(all, vec!["b", "c"]);
    assert!(buffer.get(2).is_none());
    assert_eq!(buffer.capacity(), 2);
}

#[test]
fn log_buffer_oldest_timestamp_and_clear() {
    let mut buffer = LogBuffer::default();
    assert_eq!(buffer.capacity(), 10000);
    assert!(buffer.is_empty());
    assert_eq!(buffer.oldest_timestamp(), None);
    let ts = Timestamp { secs: 1_700_000_000, nanos: 5 };
    buffer.push(LogEntry { timestamp: Some(ts), content: "x".to_string(), level: LogLevel::Error });
    assert_eq!(buffer.oldest_timestamp(), Some(ts));
    assert!(buffer.get_range(5, 2).is_empty());
    buffer.clear();
    assert_eq!(buffer.len(), 0);
}

#[test]
fn log_buffer_prepend_counts_only_entries_kept() {
    let mut buffer = LogBuffer::new(2);
    let added = buffer.prepend(vec![make_entry("a"), make_entry("b"), make_entry("c")]);
    assert_eq!(added, 2);
    assert_eq!(buffer.len(), 2);
    assert_eq!(buffer.get(0).unwrap().content, "a");
    assert_eq!(buffer.get(1).unwrap().content, "b");
}
