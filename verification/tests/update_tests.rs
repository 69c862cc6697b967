use std::collections::HashMap;

use dockpit::docker::{Container, ContainerState};
use dockpit::message::{DockerOp, Effect, KeyCode, KeyEvent, LogEntry, LogLevel, Message};
use dockpit::state::{AppState, MenuMode, NavigationMode, NumericInputState, SearchState, TransitionState, ViewMode};
use dockpit::update::{collect_logs, cycle_filter, find_matches, tick_effects, update, update_at, Clock};

fn container(id: &str, name: &str, state: ContainerState) -> Container {
    Container {
        id: id.to_string(),
        name: name.to_string(),
        image: "img".to_string(),
        status: "Up".to_string(),
        state,
        created: 0,
        ports: Vec::new(),
        labels: HashMap::new(),
    }
}

fn key(c: char) -> Message {
    Message::KeyPressed(KeyEvent { code: KeyCode::Char(c), control: false })
}

fn special(code: KeyCode) -> Message {
    Message::KeyPressed(KeyEvent { code, control: false })
}

fn two_containers() -> AppState {
    let mut s = AppState::default();
    s.containers = vec![
        container("id-a", "alpha", ContainerState::Running),
        container("id-b", "beta", ContainerState::Stopped),
    ];
    s
}

fn with_lines(mut s: AppState, lines: &[&str]) -> AppState {
    for l in lines {
        s.logs.push(LogEntry::from_raw(l));
    }
    s
}

#[test]
fn quit_key_sets_flag_and_emits_quit() {
    let (s, effects) = update(AppState::default(), key('q'));
    assert!(s.should_quit);
    assert_eq!(effects.len(), 1);
    assert!(matches!(effects[0], Effect::Quit));
}

#[test]
fn quit_message_sets_flag_and_emits_quit() {
    let (s, effects) = update(AppState::default(), Message::Quit);
    assert!(s.should_quit);
    assert!(matches!(effects[..], [Effect::Quit]));
}

#[test]
fn stale_log_lines_are_dropped() {
    let mut s = two_containers();
    s.stream_generation = 3;
    s.current_container_id = Some("id-a".to_string());

    let (s, e) = update(
        s,
        Message::LogReceived { container_id: "id-a".into(), generation: 2, content: "INFO old".into() },
    );
    assert!(e.is_empty());
    assert_eq!(s.logs.entries.len(), 0);

    let (s, _) = update(
        s,
        Message::LogReceived { container_id: "id-b".into(), generation: 3, content: "INFO other".into() },
    );
    assert_eq!(s.logs.entries.len(), 0);

    let (s, _) = update(
        s,
        Message::LogReceived { container_id: "id-a".into(), generation: 3, content: "INFO fresh".into() },
    );
    assert_eq!(s.logs.entries.len(), 1);
    assert_eq!(s.logs.entries[0].content, "INFO fresh");
    assert_eq!(s.logs.total_loaded, 1);
}

#[test]
fn log_line_ends_loading_transition() {
    let mut s = two_containers();
    s.current_container_id = Some("id-a".to_string());
    s.transition_state = TransitionState::Loading("Switching container...".to_string());
    s.force_full_redraw = false;
    let (s, _) = update(
        s,
        Message::LogReceived { container_id: "id-a".into(), generation: 0, content: "hello".into() },
    );
    assert!(matches!(s.transition_state, TransitionState::Ready));
    assert!(s.force_full_redraw);
}

#[test]
fn navigate_down_switches_container_and_stream() {
    let mut s = two_containers();
    s.logs.push(LogEntry::from_raw("INFO before"));
    let (s, effects) = update(s, special(KeyCode::Down));
    assert_eq!(s.selected_container, 1);
    assert_eq!(s.stream_generation, 1);
    assert_eq!(s.logs.entries.len(), 0);
    assert_eq!(s.current_container_id.as_deref(), Some("id-b"));
    assert!(matches!(&s.transition_state, TransitionState::Loading(m) if m == "Switching container..."));
    assert_eq!(effects.len(), 2);
    assert!(matches!(effects[0], Effect::StopAllStreams));
    assert!(matches!(
        &effects[1],
        Effect::StartLogsStream { container_id, initial_lines: 100, generation: 1 } if container_id == "id-b"
    ));
}

#[test]
fn navigate_down_at_last_container_does_nothing() {
    let mut s = two_containers();
    s.selected_container = 1;
    let (s, effects) = update(s, key('j'));
    assert_eq!(s.selected_container, 1);
    assert_eq!(s.stream_generation, 0);
    assert!(effects.is_empty());
}

#[test]
fn navigate_up_in_stats_view_starts_stats_stream() {
    let mut s = two_containers();
    s.selected_container = 1;
    s.view_mode = ViewMode::Stats;
    let (s, effects) = update(s, special(KeyCode::Up));
    assert_eq!(s.selected_container, 0);
    assert!(matches!(
        &effects[..],
        [Effect::StopAllStreams, Effect::StartStatsStream { container_id }] if container_id == "id-a"
    ));
}

#[test]
fn numeric_jump_selects_container() {
    let s = two_containers();
    let (s, e) = update(s, key('2'));
    assert!(e.is_empty());
    assert!(s.numeric_input.active);
    assert_eq!(s.numeric_input.value, "2");
    let (s, effects) = update(s, special(KeyCode::Enter));
    assert!(!s.numeric_input.active);
    assert_eq!(s.selected_container, 1);
    assert!(matches!(&s.transition_state, TransitionState::Loading(m) if m == "Jumping to container #2..."));
    assert!(matches!(
        &effects[..],
        [Effect::StopAllStreams, Effect::StartLogsStream { container_id, generation: 1, .. }] if container_id == "id-b"
    ));
}

#[test]
fn numeric_jump_out_of_range_notifies() {
    let s = two_containers();
    let (s, _) = update(s, key('9'));
    let (s, effects) = update(s, special(KeyCode::Enter));
    assert!(effects.is_empty());
    assert_eq!(s.selected_container, 0);
    let n = s.notification.as_ref().unwrap();
    assert!(n.is_error);
    assert_eq!(n.message, "Container #9 does not exist");
}

#[test]
fn numeric_input_keeps_three_digits() {
    let s = two_containers();
    let (s, _) = update(s, key('1'));
    let (s, _) = update(s, key('2'));
    let (s, _) = update(s, key('3'));
    let (s, _) = update(s, key('4'));
    assert_eq!(s.numeric_input.value, "123");
    let (s, _) = update(s, special(KeyCode::Backspace));
    assert_eq!(s.numeric_input.value, "12");
    let (s, _) = update(s, special(KeyCode::Esc));
    assert!(!s.numeric_input.active);
    assert_eq!(s.numeric_input.value, "");
}

#[test]
fn search_enter_jumps_to_first_match() {
    let s = with_lines(two_containers(), &["INFO boot", "ERROR disk full", "INFO ok", "error again"]);
    let (s, _) = update(s, key('/'));
    assert!(s.search.active);
    let (s, _) = update(s, key('e'));
    let (s, _) = update(s, key('r'));
    let (s, _) = update(s, key('r'));
    let (s, effects) = update(s, special(KeyCode::Enter));
    assert!(effects.is_empty());
    assert!(!s.search.active);
    assert_eq!(s.search.matches, vec![1, 3]);
    assert_eq!(s.search.current, 0);
    assert_eq!(s.logs.scroll_position, 1);
    let (s, _) = update(s, key('n'));
    assert_eq!(s.logs.scroll_position, 3);
    let (s, _) = update(s, key('n'));
    assert_eq!(s.logs.scroll_position, 1);
    let (s, _) = update(s, key('N'));
    assert_eq!(s.logs.scroll_position, 3);
}

#[test]
fn search_without_match_notifies() {
    let s = with_lines(two_containers(), &["INFO boot"]);
    let (s, _) = update(s, key('/'));
    let (s, _) = update(s, key('x'));
    let (s, _) = update(s, key('y'));
    let (s, _) = update(s, special(KeyCode::Enter));
    assert!(!s.search.active);
    assert_eq!(s.search.query, "");
    let n = s.notification.as_ref().unwrap();
    assert!(n.is_error);
    assert_eq!(n.message, "No matches for 'xy'");
}

#[test]
fn search_enter_with_empty_query_cancels() {
    let s = with_lines(two_containers(), &["INFO boot"]);
    let (s, _) = update(s, key('/'));
    let (s, _) = update(s, special(KeyCode::Enter));
    assert!(!s.search.active);
    assert!(s.notification.is_none());
}

#[test]
fn tab_cycles_level_filter() {
    let s = with_lines(two_containers(), &["INFO a", "ERROR b", "WARN c"]);
    let (s, _) = update(s, special(KeyCode::Tab));
    assert_eq!(s.logs.level_filter, Some(LogLevel::Error));
    assert_eq!(s.logs.filtered_count, 1);
    let (s, _) = update(s, special(KeyCode::Tab));
    assert_eq!(s.logs.level_filter, Some(LogLevel::Warn));
    assert_eq!(s.logs.filtered_len(), 1);
}

#[test]
fn cycle_filter_returns_to_all_after_six_steps() {
    let mut f = None;
    let expected = [
        Some(LogLevel::Error),
        Some(LogLevel::Warn),
        Some(LogLevel::Info),
        Some(LogLevel::Debug),
        Some(LogLevel::Trace),
        None,
    ];
    for e in expected {
        f = cycle_filter(f);
        assert_eq!(f, e);
    }
    assert_eq!(cycle_filter(Some(LogLevel::Unknown)), None);
}

#[test]
fn docker_menu_stop_emits_operation_and_closes() {
    let s = two_containers();
    let (s, _) = update(s, key('d'));
    assert_eq!(s.menu_mode, MenuMode::DockerOps);
    let (s, effects) = update(s, key('2'));
    assert_eq!(s.menu_mode, MenuMode::Closed);
    assert!(matches!(&effects[..], [Effect::DockerOperation(DockerOp::Stop(id))] if id == "id-a"));
}

#[test]
fn docker_menu_remove_is_not_forced() {
    let s = two_containers();
    let (s, _) = update(s, key('D'));
    let (_, effects) = update(s, key('6'));
    assert!(matches!(
        &effects[..],
        [Effect::DockerOperation(DockerOp::Remove { id, force: false })] if id == "id-a"
    ));
}

#[test]
fn quick_restart_key() {
    let (_, effects) = update(two_containers(), key('r'));
    assert!(matches!(&effects[..], [Effect::DockerOperation(DockerOp::Restart(id))] if id == "id-a"));
}

#[test]
fn clipboard_menu_copies_last_lines() {
    let s = with_lines(two_containers(), &["INFO one", "INFO two", "INFO three"]);
    let (s, _) = update(s, key('c'));
    assert_eq!(s.menu_mode, MenuMode::Clipboard);
    let (s, effects) = update(s, key('1'));
    assert_eq!(s.menu_mode, MenuMode::Closed);
    assert!(matches!(&effects[..], [Effect::CopyToClipboard(t)] if t == "INFO one\nINFO two\nINFO three"));
}

#[test]
fn clipboard_menu_export_names_container() {
    let s = with_lines(two_containers(), &["INFO one", "ERROR two"]);
    let (s, _) = update(s, key('c'));
    let (_, effects) = update(s, key('6'));
    assert!(matches!(
        &effects[..],
        [Effect::ExportLogs { content, container_name }] if content == "INFO one\nERROR two" && container_name == "alpha"
    ));
}

#[test]
fn clipboard_menu_print_uses_filtered_lines() {
    let mut s = with_lines(two_containers(), &["INFO one", "ERROR two", "INFO three"]);
    s.logs.level_filter = Some(LogLevel::Info);
    s.logs.recount_filtered();
    let (s, _) = update(s, key('c'));
    let (_, effects) = update(s, key('7'));
    assert!(matches!(&effects[..], [Effect::PrintForManualCopy(t)] if t == "INFO one\nINFO three"));
}

#[test]
fn collect_logs_takes_the_last_n() {
    let s = with_lines(AppState::default(), &["a", "b", "c"]);
    assert_eq!(collect_logs(&s.logs, 2), "b\nc");
    assert_eq!(collect_logs(&s.logs, 10), "a\nb\nc");
    assert_eq!(collect_logs(&s.logs, 0), "");
}

#[test]
fn find_matches_uses_filtered_positions() {
    let mut s = with_lines(AppState::default(), &["INFO x1", "ERROR x2", "INFO y", "INFO x3"]);
    s.logs.level_filter = Some(LogLevel::Info);
    s.logs.recount_filtered();
    assert_eq!(find_matches(&s.logs, "X"), vec![0, 2]);
}

#[test]
fn views_switch_and_focus() {
    let s = two_containers();
    let (s, effects) = update(s, key('s'));
    assert_eq!(s.view_mode, ViewMode::Stats);
    assert_eq!(s.navigation_mode, NavigationMode::Stats);
    assert!(matches!(&effects[..], [Effect::StopAllStreams, Effect::StartStatsStream { .. }]));
    let (s, effects) = update(s, key('l'));
    assert_eq!(s.view_mode, ViewMode::Logs);
    assert_eq!(s.stream_generation, 1);
    assert!(matches!(&effects[..], [Effect::StopAllStreams, Effect::StartLogsStream { generation: 1, .. }]));
    let (s, effects) = update(s, key('l'));
    assert!(effects.is_empty());
    assert_eq!(s.navigation_mode, NavigationMode::Logs);
    let (s, _) = update(s, key('f'));
    assert_eq!(s.view_mode, ViewMode::LogsExpanded);
    let (s, _) = update(s, key('F'));
    assert_eq!(s.view_mode, ViewMode::Logs);
    let (s, _) = update(s, special(KeyCode::Left));
    assert_eq!(s.navigation_mode, NavigationMode::Containers);
}

#[test]
fn home_requests_history_when_available() {
    let mut s = with_lines(two_containers(), &["2024-01-15T10:30:45.123456789Z INFO first line of the log"]);
    s.navigation_mode = NavigationMode::Logs;
    let (s, effects) = update(s, special(KeyCode::Home));
    assert!(s.logs.is_loading_more);
    assert_eq!(s.logs.scroll_position, 0);
    assert!(matches!(
        &effects[..],
        [Effect::LoadHistoricalLogs { container_id, before_timestamp: Some(ts), batch_size: 50 }]
            if container_id == "id-a" && ts.secs == 1705314645 && ts.nanos == 123456789
    ));
    let (_, effects) = update(s, special(KeyCode::Home));
    assert!(effects.is_empty());
}

#[test]
fn history_loaded_prepends_and_notifies_at_beginning() {
    let s = with_lines(two_containers(), &["INFO newer"]);
    let older = vec![LogEntry::from_raw("INFO old1"), LogEntry::from_raw("INFO old2")];
    let (s, effects) = update(s, Message::HistoricalLogsLoaded { logs: older, has_more: false });
    assert!(effects.is_empty());
    assert_eq!(s.logs.entries.len(), 3);
    assert_eq!(s.logs.entries[0].content, "INFO old1");
    assert!(!s.logs.has_more_history);
    assert!(!s.logs.is_loading_more);
    let n = s.notification.as_ref().unwrap();
    assert!(!n.is_error);
    assert_eq!(n.message, "Reached beginning of logs");
}

#[test]
fn containers_loaded_clamps_selection() {
    let mut s = two_containers();
    s.selected_container = 1;
    let (s, _) = update(s, Message::ContainersLoaded(vec![container("id-z", "zed", ContainerState::Running)]));
    assert_eq!(s.selected_container, 0);
    assert_eq!(s.containers.len(), 1);
}

#[test]
fn operation_results_notify() {
    let (s, effects) = update(two_containers(), Message::OperationSuccess("Container started".into()));
    assert!(matches!(&effects[..], [Effect::LoadContainers]));
    assert_eq!(s.notification.as_ref().unwrap().message, "Container started");
    let (s, effects) = update(s, Message::OperationError("boom".into()));
    assert!(effects.is_empty());
    assert!(s.notification.as_ref().unwrap().is_error);
    let mut s = s;
    s.menu_mode = MenuMode::Clipboard;
    let (s, _) = update(s, Message::ClipboardSuccess("Copied 3 lines to clipboard".into()));
    assert_eq!(s.menu_mode, MenuMode::Closed);
    assert!(!s.notification.as_ref().unwrap().is_error);
}

#[test]
fn resize_clamps_scroll() {
    let mut s = with_lines(AppState::default(), &["a", "b", "c", "d", "e", "f", "g", "h", "i", "j"]);
    s.logs_panel_height = 2;
    s.logs.scroll_position = 8;
    let (s, _) = update(s, Message::Resize(14));
    assert_eq!(s.viewport_height, 8);
    assert_eq!(s.logs_panel_height, 6);
    assert_eq!(s.logs.scroll_position, 4);
    let (s, _) = update(s, Message::Resize(3));
    assert_eq!(s.viewport_height, 0);
    assert_eq!(s.logs_panel_height, 0);
}

#[test]
fn page_keys_move_by_ten_lines() {
    let lines: Vec<String> = (0..30).map(|i| format!("line {i}")).collect();
    let refs: Vec<&str> = lines.iter().map(|s| s.as_str()).collect();
    let mut s = with_lines(two_containers(), &refs);
    s.logs_panel_height = 8;
    let (s, effects) = update(s, special(KeyCode::PageDown));
    assert!(effects.is_empty());
    assert_eq!(s.logs.scroll_position, 10);
    let (s, _) = update(s, special(KeyCode::PageDown));
    assert_eq!(s.logs.scroll_position, 20);
    let (s, _) = update(s, special(KeyCode::PageDown));
    assert_eq!(s.logs.scroll_position, 22);
    let (s, _) = update(s, special(KeyCode::PageUp));
    assert_eq!(s.logs.scroll_position, 12);
    let (s, _) = update(s, special(KeyCode::End));
    assert_eq!(s.logs.scroll_position, 22);
}

#[test]
fn page_down_with_twenty_line_panel_scrolls_ten() {
    let lines: Vec<String> = (0..100).map(|i| format!("line {i}")).collect();
    let refs: Vec<&str> = lines.iter().map(|s| s.as_str()).collect();
    let mut s = with_lines(two_containers(), &refs);
    s.logs_panel_height = 20;
    s.logs.scroll_position = 0;
    let (s, effects) = update(s, special(KeyCode::PageDown));
    assert!(effects.is_empty());
    assert_eq!(s.logs.scroll_position, 10);
}

#[test]
fn numeric_jump_to_zero_does_not_exist() {
    let s = two_containers();
    let (s, _) = update(s, key('0'));
    let (s, effects) = update(s, special(KeyCode::Enter));
    assert!(effects.is_empty());
    assert_eq!(s.selected_container, 0);
    assert_eq!(s.stream_generation, 0);
    assert!(!s.numeric_input.active);
    let n = s.notification.as_ref().unwrap();
    assert!(n.is_error);
    assert_eq!(n.message, "Container #0 does not exist");
}

#[test]
fn tick_on_fresh_state_schedules_fast_tick() {
    let (_, effects) = update(AppState::default(), Message::Tick);
    assert!(matches!(&effects[..], [Effect::ScheduleTick { millis: 250 }]));
}

#[test]
fn tick_effects_follow_idle_and_refresh_age() {
    assert!(matches!(&tick_effects(0, 0)[..], [Effect::ScheduleTick { millis: 250 }]));
    assert!(matches!(&tick_effects(0, 2)[..], [Effect::LoadContainers, Effect::ScheduleTick { millis: 250 }]));
    assert!(matches!(&tick_effects(5, 4)[..], [Effect::ScheduleTick { millis: 1000 }]));
    assert!(matches!(&tick_effects(5, 5)[..], [Effect::LoadContainers, Effect::ScheduleTick { millis: 1000 }]));
}

#[test]
fn search_next_then_prev_returns_to_same_match() {
    let mut s = SearchState::default();
    assert_eq!(s.next(), None);
    assert_eq!(s.prev(), None);
    s.matches = vec![1, 5, 9];
    s.current = 2;
    assert_eq!(s.next(), Some(1));
    assert_eq!(s.current, 0);
    assert_eq!(s.prev(), Some(9));
    assert_eq!(s.current, 2);
    assert_eq!(s.prev(), Some(5));
    assert_eq!(s.next(), Some(9));
}

#[test]
fn numeric_input_value_parses_digits() {
    let mut n = NumericInputState::default();
    assert_eq!(n.get_value(), None);
    n.start();
    n.push('0');
    n.push('x');
    n.push('7');
    assert_eq!(n.value, "07");
    assert_eq!(n.get_value(), Some(7));
    n.pop();
    n.pop();
    n.pop();
    assert_eq!(n.value, "");
    assert!(n.active);
    n.cancel();
    assert!(!n.active);
}

fn clock(activity_secs: u64, refresh_secs: u64, notification_secs: u64) -> Clock {
    Clock { now: std::time::Instant::now(), activity_secs, refresh_secs, notification_secs }
}

#[test]
fn tick_with_clock_drops_expired_notifications() {
    let (s, _) = update(two_containers(), Message::OperationError("boom".into()));
    let (s, effects) = update_at(s, Message::Tick, clock(0, 0, 4));
    assert!(s.notification.is_some());
    assert!(matches!(&effects[..], [Effect::ScheduleTick { millis: 250 }]));
    let (s, effects) = update_at(s, Message::Tick, clock(6, 7, 5));
    assert!(s.notification.is_none());
    assert!(matches!(&effects[..], [Effect::LoadContainers, Effect::ScheduleTick { millis: 1000 }]));

    let (s, _) = update(s, Message::OperationSuccess("done".into()));
    let (s, _) = update_at(s, Message::Tick, clock(0, 0, 1));
    assert!(s.notification.is_some());
    let (s, _) = update_at(s, Message::Tick, clock(0, 0, 2));
    assert!(s.notification.is_none());
}

#[test]
fn key_press_and_refresh_record_the_clock_instant() {
    let c = clock(0, 0, 0);
    let t = c.now;
    let (s, _) = update_at(two_containers(), key('x'), c);
    assert_eq!(s.last_activity, t);
    let c = clock(0, 0, 0);
    let t = c.now;
    let (s, _) = update_at(s, Message::ContainersLoaded(Vec::new()), c);
    assert_eq!(s.last_refresh, t);
    assert!(s.containers.is_empty());
}

#[test]
fn operation_notices_and_batch_rule() {
    use_ops();
    assert!(dockpit::update::history_batch_full(50, 50));
    assert!(!dockpit::update::history_batch_full(49, 50));
}

fn use_ops() {
    let cases = [
        (DockerOp::Start("x".into()), "Container started"),
        (DockerOp::Stop("x".into()), "Container stopped"),
        (DockerOp::Restart("x".into()), "Container restarted"),
        (DockerOp::Pause("x".into()), "Container paused"),
        (DockerOp::Unpause("x".into()), "Container unpaused"),
        (DockerOp::Remove { id: "x".into(), force: true }, "Container removed"),
    ];
    for (op, text) in cases {
        assert_eq!(dockpit::message::operation_done(&op), text);
    }
}

#[test]
fn stale_line_with_full_counter_is_still_ignored() {
    let mut s = two_containers();
    s.current_container_id = Some("id-a".to_string());
    s.logs.total_loaded = usize::MAX;
    let (s, e) = update(
        s,
        Message::LogReceived { container_id: "id-b".into(), generation: 0, content: "INFO x".into() },
    );
    assert!(e.is_empty());
    assert_eq!(s.logs.entries.len(), 0);
}

#[test]
fn notifications_are_stamped_with_the_clock_instant() {
    use_notice_stamp();
}

fn use_notice_stamp() {
    let c = clock(0, 0, 0);
    let t = c.now;
    let (s, _) = update_at(two_containers(), Message::OperationError("boom".into()), c);
    assert_eq!(s.notification.as_ref().unwrap().created_at, t);
    let n = dockpit::state::Notification::success_at("ok".to_string(), t);
    assert_eq!(n.created_at, t);
    assert!(!n.is_error);
    let e = dockpit::state::Notification::error_at("bad".to_string(), t);
    assert!(e.is_error);
    assert_eq!(e.message, "bad");
}
