use std::collections::HashMap;

use dockpit::clipboard::{detect_clipboard_backend, ClipboardBackend, ClipboardEnv};
use dockpit::docker::{Container, ContainerState};
use dockpit::message::{LogEntry, LogLevel};
use dockpit::osc52::{in_screen, osc52_sequence, TerminalEnv, MAX_BASE64_LEN};
use dockpit::state::{AppState, MenuMode, NavigationMode, TransitionState};
use dockpit::view::{
    byte_unit, centered_rect, filter_suffix, footer_help, highlight_segments, level_label, loading_overlay_rect,
    logs_title, search_query_upper, stats_title, status_symbol, unit_size, ByteUnit, Rect, Segment,
};

fn seg(start: usize, end: usize, highlighted: bool) -> Segment {
    Segment { start, end, highlighted }
}

fn one_container() -> AppState {
    let mut s = AppState::default();
    s.containers = vec![Container {
        id: "id-web".to_string(),
        name: "web".to_string(),
        image: String::new(),
        status: String::new(),
        state: ContainerState::Running,
        created: 0,
        ports: Vec::new(),
        labels: HashMap::new(),
    }];
    s
}

#[test]
fn level_labels() {
    assert_eq!(level_label(LogLevel::Error), "ERROR");
    assert_eq!(level_label(LogLevel::Warn), "WARN");
    assert_eq!(level_label(LogLevel::Unknown), "UNKNOWN");
}

#[test]
fn highlight_segments_split_greedily() {
    assert_eq!(
        highlight_segments("an Error here", "ERROR"),
        vec![seg(0, 3, false), seg(3, 8, true), seg(8, 13, false)]
    );
    assert_eq!(highlight_segments("aaaa", "AA"), vec![seg(0, 2, true), seg(2, 4, true)]);
    assert_eq!(highlight_segments("aaa", "AA"), vec![seg(0, 2, true), seg(2, 3, false)]);
    assert_eq!(highlight_segments("none", "X"), vec![seg(0, 4, false)]);
    assert_eq!(highlight_segments("", "X"), vec![]);
    assert_eq!(highlight_segments("abc", ""), vec![seg(0, 3, false)]);
    assert_eq!(highlight_segments("", ""), vec![]);
    // Multi-byte characters are never split: "é" is two bytes.
    assert_eq!(highlight_segments("é ok", "OK"), vec![seg(0, 3, false), seg(3, 5, true)]);
}

#[test]
fn search_query_and_filter_suffix() {
    let mut s = AppState::default();
    assert_eq!(search_query_upper(&s), None);
    s.search.query = "err".to_string();
    assert_eq!(search_query_upper(&s), Some("ERR".to_string()));
    assert_eq!(filter_suffix(&s), "");
    s.logs.level_filter = Some(LogLevel::Debug);
    assert_eq!(filter_suffix(&s), " [filter:DEBUG]");
}

#[test]
fn logs_title_shows_position_count_filter_and_loading() {
    let mut s = one_container();
    for l in ["INFO a", "ERROR b", "INFO c"] {
        s.logs.push(LogEntry::from_raw(l));
    }
    s.logs.scroll_position = 1;
    assert_eq!(logs_title(&s, false), " Logs: web [2/3] ");
    assert_eq!(logs_title(&s, true), " Logs (Expanded): web [2/3] - Press F to minimize ");
    s.logs.level_filter = Some(LogLevel::Error);
    s.logs.recount_filtered();
    s.logs.is_loading_more = true;
    assert_eq!(logs_title(&s, false), " Logs: web [2/1] [filter:ERROR] \u{23f3} ");

    let mut empty = AppState::default();
    assert_eq!(logs_title(&empty, false), " Logs ");
    empty.transition_state = TransitionState::Loading("x".to_string());
    assert_eq!(logs_title(&empty, true), " Logs (Expanded) \u{23f3} - Press F to minimize ");
}

#[test]
fn stats_title_names_container() {
    let mut s = one_container();
    assert_eq!(stats_title(&s), " Stats: web ");
    s.transition_state = TransitionState::Loading("Loading stats...".to_string());
    assert_eq!(stats_title(&s), " Stats: web \u{23f3} ");
    assert_eq!(stats_title(&AppState::default()), " Stats ");
}

#[test]
fn footer_help_per_mode() {
    assert_eq!(
        footer_help(MenuMode::DockerOps, NavigationMode::Logs),
        "1:Start 2:Stop 3:Restart 4:Pause 5:Unpause 6:Remove | ESC:Close"
    );
    assert!(footer_help(MenuMode::Closed, NavigationMode::Containers).starts_with("\u{2191}\u{2193}:Select"));
    assert!(footer_help(MenuMode::Closed, NavigationMode::Stats).starts_with("\u{2191}\u{2193}:Scroll"));
    assert!(footer_help(MenuMode::Clipboard, NavigationMode::Stats).contains("7:Print"));
}

#[test]
fn status_symbols() {
    assert_eq!(status_symbol(ContainerState::Running), "\u{25cf}");
    assert_eq!(status_symbol(ContainerState::Stopped), "\u{25cb}");
    assert_eq!(status_symbol(ContainerState::Restarting), "\u{21bb}");
}

#[test]
fn byte_units_switch_at_powers_of_1024() {
    assert_eq!(byte_unit(0), ByteUnit::Bytes);
    assert_eq!(byte_unit(1023), ByteUnit::Bytes);
    assert_eq!(byte_unit(1024), ByteUnit::Kilo);
    assert_eq!(byte_unit(1048575), ByteUnit::Kilo);
    assert_eq!(byte_unit(1048576), ByteUnit::Mega);
    assert_eq!(byte_unit(1073741824), ByteUnit::Giga);
    assert_eq!(unit_size(ByteUnit::Mega), 1048576);
    assert_eq!(unit_size(ByteUnit::Bytes), 1);
}

#[test]
fn centered_rect_is_clipped_and_centred() {
    let area = Rect { x: 10, y: 5, width: 100, height: 40 };
    assert_eq!(centered_rect(35, 12, area), Rect { x: 42, y: 19, width: 35, height: 12 });
    let small = Rect { x: 0, y: 0, width: 20, height: 6 };
    assert_eq!(centered_rect(44, 13, small), Rect { x: 0, y: 0, width: 20, height: 6 });
}

#[test]
fn loading_overlay_fits_inside_panel() {
    let area = Rect { x: 35, y: 3, width: 80, height: 30 };
    assert_eq!(loading_overlay_rect(area), Rect { x: 55, y: 15, width: 40, height: 5 });
    let tiny = Rect { x: 0, y: 0, width: 3, height: 1 };
    assert_eq!(loading_overlay_rect(tiny), Rect { x: 1, y: 0, width: 0, height: 0 });
}

fn env(over: Option<&str>, ssh: bool, display: bool) -> ClipboardEnv {
    ClipboardEnv {
        override_value: over.map(|s| s.to_string()),
        ssh_connection: ssh,
        ssh_tty: false,
        ssh_client: false,
        display,
        wayland_display: false,
    }
}

#[test]
fn clipboard_backend_choice() {
    assert_eq!(detect_clipboard_backend(&env(Some("OSC52"), false, true)), ClipboardBackend::Osc52);
    assert_eq!(detect_clipboard_backend(&env(Some("Native"), true, false)), ClipboardBackend::Local);
    assert_eq!(detect_clipboard_backend(&env(Some("bogus"), false, true)), ClipboardBackend::Local);
    assert_eq!(detect_clipboard_backend(&env(None, true, true)), ClipboardBackend::Osc52);
    assert_eq!(detect_clipboard_backend(&env(None, false, true)), ClipboardBackend::Local);
    assert_eq!(detect_clipboard_backend(&env(None, false, false)), ClipboardBackend::Osc52);
    let mut w = env(None, false, false);
    w.wayland_display = true;
    assert_eq!(detect_clipboard_backend(&w), ClipboardBackend::Local);
    let mut t = env(None, false, true);
    t.ssh_tty = true;
    assert_eq!(detect_clipboard_backend(&t), ClipboardBackend::Osc52);
}

#[test]
fn terminal_env_selects_passthrough() {
    let plain = TerminalEnv { tmux: false, term: Some("xterm-256color".to_string()) };
    assert!(!in_screen(&plain));
    assert_eq!(osc52_sequence("foo", &plain).unwrap(), "\x1b]52;c;Zm9v\x07");
    let screen = TerminalEnv { tmux: false, term: Some("screen.xterm".to_string()) };
    assert!(in_screen(&screen));
    assert_eq!(osc52_sequence("foo", &screen).unwrap(), "\x1bP\x1b]52;c;Zm9v\x07\x1b\\");
    let both = TerminalEnv { tmux: true, term: Some("screen".to_string()) };
    assert_eq!(osc52_sequence("foo", &both).unwrap(), "\x1bPtmux;\x1b\x1b\x1b]52;c;Zm9v\x07\x1b\\");
    assert!(!in_screen(&TerminalEnv { tmux: false, term: Some("scree".to_string()) }));
    assert!(!in_screen(&TerminalEnv { tmux: false, term: None }));
}

#[test]
fn osc52_limit_is_on_the_encoded_length() {
    let env = TerminalEnv { tmux: false, term: None };
    // 75000 bytes encode to exactly 100000 symbols: accepted.
    let ok = "a".repeat(75000);
    assert!(osc52_sequence(&ok, &env).is_ok());
    assert_eq!(MAX_BASE64_LEN, 100000);
    let over = "a".repeat(75001);
    let err = osc52_sequence(&over, &env).unwrap_err();
    assert_eq!(err.message(), "selection too large for terminal clipboard (73 KB) \u{2014} use Export (6) instead");
}

#[test]
fn detecting_a_label_gives_its_level() {
    use_levels(&[LogLevel::Error, LogLevel::Warn, LogLevel::Info, LogLevel::Debug, LogLevel::Trace, LogLevel::Unknown]);
}

fn use_levels(levels: &[LogLevel]) {
    for &l in levels {
        assert_eq!(dockpit::message::detect_log_level(level_label(l)), l);
    }
}

#[test]
fn highlight_segments_fall_on_char_boundaries() {
    let text = "café CAFÉ au lait";
    let segs = highlight_segments(text, "CAFÉ");
    for s in &segs {
        assert!(text.is_char_boundary(s.start) && text.is_char_boundary(s.end));
    }
    assert_eq!(segs, vec![seg(0, 6, false), seg(6, 11, true), seg(11, 19, false)]);
}
