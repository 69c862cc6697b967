use dockpit::message::{LogEntry, LogLevel};
use dockpit::state::LogsState;

fn entry(s: &str) -> LogEntry {
    LogEntry::from_raw(s)
}

#[test]
fn push_trims_to_capacity_dropping_oldest() {
    let mut logs = LogsState {
        capacity: 3,
        ..Default::default()
    };
    for i in 0..5 {
        logs.push(entry(&format!("INFO line {i}")));
    }
    assert_eq!(logs.entries.len(), 3);
    assert!(logs.entries.front().unwrap().content.contains("line 2"));
    assert!(logs.entries.back().unwrap().content.contains("line 4"));
}

#[test]
fn prepend_keeps_chronological_order_and_shifts_scroll() {
    let mut logs = LogsState::default();
    logs.push(entry("INFO new1"));
    logs.push(entry("INFO new2"));
    logs.scroll_position = 0;

    // Batch arrives oldest-first from the Docker API.
    logs.prepend(vec![entry("INFO old1"), entry("INFO old2")]);

    let order: Vec<&str> = logs.entries.iter().map(|e| e.content.as_str()).collect();
    assert_eq!(order, vec!["INFO old1", "INFO old2", "INFO new1", "INFO new2"]);
    // No filter: scroll shifts by the full batch count to keep the same view.
    assert_eq!(logs.scroll_position, 2);
}

#[test]
fn filter_changes_visible_count_and_entries() {
    let mut logs = LogsState::default();
    logs.push(entry("ERROR a"));
    logs.push(entry("INFO b"));
    logs.push(entry("ERROR c"));

    assert_eq!(logs.filtered_len(), 3);

    logs.level_filter = Some(LogLevel::Error);
    logs.recount_filtered();
    assert_eq!(logs.filtered_len(), 2);
    let got: Vec<&str> = logs.filtered_entries().iter().map(|e| e.content.as_str()).collect();
    assert_eq!(got, vec!["ERROR a", "ERROR c"]);

    // max_scroll and visible_entries operate in filtered space.
    assert_eq!(logs.max_scroll(1), 1);
    let visible: Vec<&str> = logs.visible_entries(1).iter().map(|e| e.content.as_str()).collect();
    assert_eq!(visible, vec!["ERROR a"]);
}

#[test]
fn prepend_scroll_shift_counts_only_filtered_entries() {
    let mut logs = LogsState::default();
    logs.push(entry("ERROR e1"));
    logs.level_filter = Some(LogLevel::Error);
    logs.recount_filtered();
    logs.scroll_position = 0;

    // One matching (ERROR) + one non-matching (INFO) prepended.
    logs.prepend(vec![entry("INFO old"), entry("ERROR old2")]);

    // Only the visible (ERROR) entry shifts the filtered view.
    assert_eq!(logs.scroll_position, 1);
}

/// The incrementally-maintained count must always match a from-scratch
/// recount across push / prepend / capacity trim / filter changes.
#[test]
fn filtered_count_cache_never_drifts() {
    let brute = |logs: &LogsState| -> usize {
        match logs.level_filter {
            None => logs.entries.len(),
            Some(level) => logs.entries.iter().filter(|e| e.level == level).count(),
        }
    };

    let mut logs = LogsState {
        capacity: 4,
        ..Default::default()
    };

    // Push past capacity with mixed levels (exercises front-trim).
    for i in 0..8 {
        let level = if i % 2 == 0 { "ERROR" } else { "INFO" };
        logs.push(entry(&format!("{level} line {i}")));
        assert_eq!(logs.filtered_len(), brute(&logs), "after push {i}");
    }

    // Apply a filter and confirm the recount matches.
    logs.level_filter = Some(LogLevel::Error);
    logs.recount_filtered();
    assert_eq!(logs.filtered_len(), brute(&logs), "after filter set");

    // Prepend a mixed batch under an active filter (exercises back-trim).
    logs.prepend(vec![
        entry("ERROR old1"),
        entry("INFO old2"),
        entry("ERROR old3"),
    ]);
    assert_eq!(logs.filtered_len(), brute(&logs), "after prepend under filter");

    // Clearing the filter recounts to the full buffer length.
    logs.level_filter = None;
    logs.recount_filtered();
    assert_eq!(logs.filtered_len(), logs.entries.len(), "after filter clear");
    assert_eq!(logs.filtered_len(), brute(&logs));

    // Clear resets the cache to zero.
    logs.clear();
    assert_eq!(logs.filtered_len(), 0);
}
