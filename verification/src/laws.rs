//! Properties of the library that span several calls or hold of every state.
use vstd::prelude::*;
use vstd::string::*;
use crate::message::{DockerOpView, EffectView, KeyCode, KeyEvent, LogEntry, LogLevel, Message, Timestamp, level_of_text};
use crate::text::{contains_upper, upper_byte, window_matches};
use crate::view::level_label_spec;
use crate::state::{AppView, LogsView, MenuMode, next_match, prev_match, sat_sub, trim_front, visible, NumericView};
use crate::update::{update_relation, key_step};

verus! {

/// The selection points at an existing container whenever there is one.
pub open spec fn selection_in_range(s: AppView) -> bool {
    s.containers.len() > 0 ==> s.selected_container < s.containers.len()
}

proof fn lemma_switch_keeps_selection(s: AppView, index: usize, msg: Seq<char>, view: crate::state::ViewMode)
    requires
        s.containers.len() > 0 ==> index < s.containers.len(),
    ensures
        selection_in_range(crate::update::switch_step(s, index, msg, view).0),
{
}

proof fn lemma_navigation_keeps_selection(s: AppView)
    requires
        selection_in_range(s),
    ensures
        selection_in_range(crate::update::navigate_up_step(s).0),
        selection_in_range(crate::update::navigate_down_step(s).0),
{
    if s.navigation_mode == crate::state::NavigationMode::Containers {
        if s.selected_container > 0 {
            lemma_switch_keeps_selection(
                s,
                (s.selected_container - 1) as usize,
                "Switching container..."@,
                s.view_mode,
            );
        }
        if s.selected_container < crate::state::sat_sub(s.containers.len() as int, 1) {
            lemma_switch_keeps_selection(
                s,
                (s.selected_container + 1) as usize,
                "Switching container..."@,
                s.view_mode,
            );
        }
    }
}

proof fn lemma_key_keeps_selection(s: AppView, code: crate::message::KeyCode)
    requires
        selection_in_range(s),
    ensures
        selection_in_range(key_step(s, code).0),
{
    if s.search.active {
        reveal(crate::update::search_step);
    } else if s.numeric_input.active {
        reveal(crate::update::numeric_step);
    } else {
        match s.menu_mode {
            crate::state::MenuMode::DockerOps => {
                reveal(crate::update::docker_menu_step);
            },
            crate::state::MenuMode::Clipboard => {
                reveal(crate::update::clipboard_menu_step);
            },
            crate::state::MenuMode::Closed => {
                reveal(crate::update::normal_step);
                lemma_navigation_keeps_selection(s);
            },
        }
    }
}

/// No message moves the selection out of the container list: if it was in
/// range before, it is in range after.
pub proof fn lemma_update_keeps_selection_in_range(
    s: AppView,
    m: Message,
    r: AppView,
    e: Seq<EffectView>,
)
    requires
        selection_in_range(s),
        update_relation(s, m, r, e),
    ensures
        selection_in_range(r),
{
    match m {
        Message::KeyPressed(k) => {
            let t = choose|t: std::time::Instant|
                #[trigger] key_step(AppView { last_activity: t, ..s }, k.code) == (r, e);
            lemma_key_keeps_selection(AppView { last_activity: t, ..s }, k.code);
        },
        Message::LogReceived { container_id, generation, content } => {
            if crate::update::is_current_stream(s, container_id@, generation) {
                let entry = choose|entry: LogEntry|
                    #[trigger] crate::message::entry_from_raw(content@, entry) && r
                        == crate::update::log_appended(s, entry);
                assert(r == crate::update::log_appended(s, entry));
            }
        },
        _ => {},
    }
}

/// A log line from an older stream generation, or for another container,
/// leaves the state exactly as it was and asks for nothing.
pub proof fn lemma_stale_log_lines_ignored(
    s: AppView,
    container_id: String,
    generation: u64,
    content: String,
    r: AppView,
    e: Seq<EffectView>,
)
    requires
        update_relation(s, Message::LogReceived { container_id, generation, content }, r, e),
        generation != s.stream_generation || s.current_container_id != Some(container_id@),
    ensures
        r == s,
        e.len() == 0,
{
}

/// Going to the next match and back to the previous one returns to the
/// same match.
pub proof fn lemma_next_then_prev(cur: usize, len: nat)
    requires
        len > 0,
        cur < len,
        len <= usize::MAX,
    ensures
        prev_match(next_match(cur, len), len) == cur,
{
    let n = next_match(cur, len);
    let m = len as int;
    if cur + 1 < m {
        vstd::arithmetic::div_mod::lemma_small_mod((cur + 1) as nat, len);
        assert(n == cur + 1);
        vstd::arithmetic::div_mod::lemma_mod_add_multiples_vanish(cur as int, m);
        vstd::arithmetic::div_mod::lemma_small_mod(cur as nat, len);
        assert(n + m - 1 == m + cur);
    } else {
        vstd::arithmetic::div_mod::lemma_mod_self_0(m);
        assert(n == 0);
        vstd::arithmetic::div_mod::lemma_small_mod((m - 1) as nat, len);
    }
}

/// The numeric input only ever holds ASCII digits, at most three bytes of
/// them.
pub open spec fn numeric_input_ok(v: NumericView) -> bool {
    &&& crate::text::all_digits(v.value)
    &&& vstd::utf8::encode_utf8(v.value).len() <= 3
}

pub proof fn lemma_numeric_push_keeps_input_short(v: NumericView, c: char)
    requires
        numeric_input_ok(v),
    ensures
        numeric_input_ok(v.pushed(c)),
{
    if crate::text::is_digit(c) && vstd::utf8::encode_utf8(v.value).len() < 3 {
        let w = v.value.push(c);
        assert(crate::text::all_digits(w));
        lemma_digits_encode_len(w);
        lemma_digits_encode_len(v.value);
    }
}

/// ASCII digits take one byte each.
pub proof fn lemma_digits_encode_len(s: Seq<char>)
    requires
        crate::text::all_digits(s),
    ensures
        vstd::utf8::encode_utf8(s).len() == s.len(),
{
    assert forall|i: int| 0 <= i < s.len() implies '\0' <= #[trigger] s[i] <= '\u{7f}' by {
        assert(crate::text::is_digit(s[i]));
    }
    vstd::utf8::is_ascii_chars_encode_utf8(s);
}

/// Upper-casing the haystack first changes nothing: the search ignores ASCII
/// case.
pub proof fn lemma_contains_ci_ignores_case(h: Seq<u8>, n: Seq<u8>)
    ensures
        crate::text::contains_upper(
            Seq::new(h.len(), |i: int| crate::text::upper_byte(h[i])),
            n,
        ) == crate::text::contains_upper(h, n),
{
    let u = Seq::new(h.len(), |i: int| crate::text::upper_byte(h[i]));
    if crate::text::contains_upper(h, n) {
        let i = choose|i: int| #[trigger] crate::text::window_matches(h, n, i);
        assert(crate::text::window_matches(u, n, i));
    }
    if crate::text::contains_upper(u, n) {
        let i = choose|i: int| #[trigger] crate::text::window_matches(u, n, i);
        assert forall|j: int| 0 <= j < n.len() implies #[trigger] crate::text::upper_byte(h[i + j])
            == n[j] by {
            assert(crate::text::upper_byte(u[i + j]) == n[j]);
            assert(u[i + j] == crate::text::upper_byte(h[i + j]));
        }
        assert(crate::text::window_matches(h, n, i));
    }
}

/// Trimming to a capacity never leaves more entries than the capacity and
/// keeps the newest ones.
pub proof fn lemma_trim_front_keeps_newest(s: Seq<LogEntry>, cap: usize)
    ensures
        trim_front(s, cap).len() <= cap,
        trim_front(s, cap).len() == crate::state::min(s.len() as int, cap as int),
        trim_front(s, cap) == s.subrange(s.len() - trim_front(s, cap).len(), s.len() as int),
{
    if s.len() <= cap {
        assert(s.subrange(0, s.len() as int) =~= s);
    } else {
        assert(s.skip(s.len() - cap) =~= s.subrange(s.len() - cap, s.len() as int));
    }
}

/// The bytes of an ASCII text are its characters' codes.
proof fn lemma_ascii_bytes(s: &str, b: Seq<u8>)
    requires
        s@.len() == b.len(),
        forall|i: int| 0 <= i < b.len() ==> '\0' <= #[trigger] s@[i] <= '\u{7f}' && s@[i] as u8 == b[i],
    ensures
        s.spec_bytes() == b,
{
    assert(is_ascii(s));
    broadcast use is_ascii_spec_bytes;
    assert(s.spec_bytes() =~= b);
}

/// A needle with a byte that the haystack never shows (after upper-casing)
/// does not occur in it.
proof fn lemma_byte_absent(h: Seq<u8>, n: Seq<u8>, p: int)
    requires
        0 <= p < n.len(),
        forall|k: int| 0 <= k < h.len() ==> upper_byte(#[trigger] h[k]) != n[p],
    ensures
        !contains_upper(h, n),
{
    assert forall|i: int| !#[trigger] window_matches(h, n, i) by {
        if window_matches(h, n, i) {
            assert(upper_byte(h[i + p]) == n[p]);
        }
    }
}

/// An upper-case text occurs in itself.
proof fn lemma_contains_self(h: Seq<u8>)
    requires
        forall|k: int| 0 <= k < h.len() ==> upper_byte(#[trigger] h[k]) == h[k],
    ensures
        contains_upper(h, h),
{
    assert forall|j: int| 0 <= j < h.len() implies #[trigger] upper_byte(h[0 + j]) == h[j] by {
        assert(h[0 + j] == h[j]);
    }
    assert(window_matches(h, h, 0));
}

/// Detecting the level of a level's own label gives the level back.
pub proof fn lemma_label_detects_level(l: LogLevel)
    ensures
        level_of_text(level_label_spec(l)) == l,
{
    reveal_strlit("ERROR");
    lemma_ascii_bytes("ERROR", seq![69u8, 82, 82, 79, 82]);
    reveal_strlit("ERR]");
    lemma_ascii_bytes("ERR]", seq![69u8, 82, 82, 93]);
    reveal_strlit("[E]");
    lemma_ascii_bytes("[E]", seq![91u8, 69, 93]);
    reveal_strlit("WARN");
    lemma_ascii_bytes("WARN", seq![87u8, 65, 82, 78]);
    reveal_strlit("WRN]");
    lemma_ascii_bytes("WRN]", seq![87u8, 82, 78, 93]);
    reveal_strlit("[W]");
    lemma_ascii_bytes("[W]", seq![91u8, 87, 93]);
    reveal_strlit("INFO");
    lemma_ascii_bytes("INFO", seq![73u8, 78, 70, 79]);
    reveal_strlit("INF]");
    lemma_ascii_bytes("INF]", seq![73u8, 78, 70, 93]);
    reveal_strlit("[I]");
    lemma_ascii_bytes("[I]", seq![91u8, 73, 93]);
    reveal_strlit("DEBUG");
    lemma_ascii_bytes("DEBUG", seq![68u8, 69, 66, 85, 71]);
    reveal_strlit("DBG]");
    lemma_ascii_bytes("DBG]", seq![68u8, 66, 71, 93]);
    reveal_strlit("[D]");
    lemma_ascii_bytes("[D]", seq![91u8, 68, 93]);
    reveal_strlit("TRACE");
    lemma_ascii_bytes("TRACE", seq![84u8, 82, 65, 67, 69]);
    reveal_strlit("TRC]");
    lemma_ascii_bytes("TRC]", seq![84u8, 82, 67, 93]);
    reveal_strlit("[T]");
    lemma_ascii_bytes("[T]", seq![91u8, 84, 93]);
    reveal_strlit("UNKNOWN");
    lemma_ascii_bytes("UNKNOWN", seq![85u8, 78, 75, 78, 79, 87, 78]);
    match l {
        LogLevel::Error => {
            let h = "ERROR".spec_bytes();
            lemma_contains_self(h);
        },
        LogLevel::Warn => {
            let h = "WARN".spec_bytes();
            lemma_byte_absent(h, "ERROR".spec_bytes(), 0);
            lemma_byte_absent(h, "ERR]".spec_bytes(), 3);
            lemma_byte_absent(h, "[E]".spec_bytes(), 2);
            lemma_contains_self(h);
        },
        LogLevel::Info => {
            let h = "INFO".spec_bytes();
            lemma_byte_absent(h, "ERROR".spec_bytes(), 0);
            lemma_byte_absent(h, "ERR]".spec_bytes(), 3);
            lemma_byte_absent(h, "[E]".spec_bytes(), 2);
            lemma_byte_absent(h, "WARN".spec_bytes(), 0);
            lemma_byte_absent(h, "WRN]".spec_bytes(), 3);
            lemma_byte_absent(h, "[W]".spec_bytes(), 2);
            lemma_contains_self(h);
        },
        LogLevel::Debug => {
            let h = "DEBUG".spec_bytes();
            lemma_byte_absent(h, "ERROR".spec_bytes(), 1);
            lemma_byte_absent(h, "ERR]".spec_bytes(), 3);
            lemma_byte_absent(h, "[E]".spec_bytes(), 2);
            lemma_byte_absent(h, "WARN".spec_bytes(), 0);
            lemma_byte_absent(h, "WRN]".spec_bytes(), 3);
            lemma_byte_absent(h, "[W]".spec_bytes(), 2);
            lemma_byte_absent(h, "INFO".spec_bytes(), 0);
            lemma_byte_absent(h, "INF]".spec_bytes(), 3);
            lemma_byte_absent(h, "[I]".spec_bytes(), 2);
            lemma_contains_self(h);
        },
        LogLevel::Trace => {
            let h = "TRACE".spec_bytes();
            lemma_byte_absent(h, "ERROR".spec_bytes(), 3);
            lemma_byte_absent(h, "ERR]".spec_bytes(), 3);
            lemma_byte_absent(h, "[E]".spec_bytes(), 2);
            lemma_byte_absent(h, "WARN".spec_bytes(), 0);
            lemma_byte_absent(h, "WRN]".spec_bytes(), 3);
            lemma_byte_absent(h, "[W]".spec_bytes(), 2);
            lemma_byte_absent(h, "INFO".spec_bytes(), 0);
            lemma_byte_absent(h, "INF]".spec_bytes(), 3);
            lemma_byte_absent(h, "[I]".spec_bytes(), 2);
            lemma_byte_absent(h, "DEBUG".spec_bytes(), 0);
            lemma_byte_absent(h, "DBG]".spec_bytes(), 3);
            lemma_byte_absent(h, "[D]".spec_bytes(), 2);
            lemma_contains_self(h);
        },
        LogLevel::Unknown => {
            let h = "UNKNOWN".spec_bytes();
            lemma_byte_absent(h, "ERROR".spec_bytes(), 0);
            lemma_byte_absent(h, "ERR]".spec_bytes(), 3);
            lemma_byte_absent(h, "[E]".spec_bytes(), 2);
            lemma_byte_absent(h, "WARN".spec_bytes(), 1);
            lemma_byte_absent(h, "WRN]".spec_bytes(), 3);
            lemma_byte_absent(h, "[W]".spec_bytes(), 2);
            lemma_byte_absent(h, "INFO".spec_bytes(), 0);
            lemma_byte_absent(h, "INF]".spec_bytes(), 3);
            lemma_byte_absent(h, "[I]".spec_bytes(), 2);
            lemma_byte_absent(h, "DEBUG".spec_bytes(), 0);
            lemma_byte_absent(h, "DBG]".spec_bytes(), 3);
            lemma_byte_absent(h, "[D]".spec_bytes(), 2);
            lemma_byte_absent(h, "TRACE".spec_bytes(), 0);
            lemma_byte_absent(h, "TRC]".spec_bytes(), 3);
            lemma_byte_absent(h, "[T]".spec_bytes(), 2);
        },
    }
}

/// In the Docker menu, each numbered key runs the operation its label names
/// on the selected container and closes the menu: 1 start, 2 stop, 3 restart,
/// 4 pause, 5 unpause, 6 remove (not forced).
pub proof fn lemma_docker_menu_keys(s: AppView, k: KeyEvent, r: AppView, e: Seq<EffectView>)
    requires
        update_relation(s, Message::KeyPressed(k), r, e),
        !s.search.active,
        !s.numeric_input.active,
        s.menu_mode == MenuMode::DockerOps,
        s.selected() is Some,
    ensures
        ({
            let id = s.selected()->0.id@;
            &&& k.code == KeyCode::Char('1') ==> e == seq![EffectView::DockerOperation(DockerOpView::Start(id))]
            &&& k.code == KeyCode::Char('2') ==> e == seq![EffectView::DockerOperation(DockerOpView::Stop(id))]
            &&& k.code == KeyCode::Char('3') ==> e == seq![EffectView::DockerOperation(DockerOpView::Restart(id))]
            &&& k.code == KeyCode::Char('4') ==> e == seq![EffectView::DockerOperation(DockerOpView::Pause(id))]
            &&& k.code == KeyCode::Char('5') ==> e == seq![EffectView::DockerOperation(DockerOpView::Unpause(id))]
            &&& k.code == KeyCode::Char('6') ==> e == seq![
                EffectView::DockerOperation(DockerOpView::Remove { id, force: false }),
            ]
        }),
        (k.code matches KeyCode::Char(c) && '1' <= c <= '6') ==> r.menu_mode == MenuMode::Closed,
{
    let t = choose|t: std::time::Instant|
        #[trigger] key_step(AppView { last_activity: t, ..s }, k.code) == (r, e);
    assert(key_step(AppView { last_activity: t, ..s }, k.code) == (r, e));
    reveal(crate::update::docker_menu_step);
}

/// Copying "from the current position" copies the lines that the level
/// filter shows, from the scroll position (an index among those lines) to
/// the end, joined by newlines; with no filter that is the tail of the log.
pub proof fn lemma_copy_from_position(s: AppView, k: KeyEvent, r: AppView, e: Seq<EffectView>)
    requires
        update_relation(s, Message::KeyPressed(k), r, e),
        !s.search.active,
        !s.numeric_input.active,
        s.menu_mode == MenuMode::Clipboard,
        k.code == KeyCode::Char('4'),
    ensures
        ({
            let shown = visible(s.logs.entries, s.logs.level_filter);
            let pos = s.logs.scroll_position as int;
            &&& pos <= shown.len() ==> e == seq![EffectView::CopyToClipboard(crate::update::joined(shown.skip(pos)))]
            &&& pos > shown.len() ==> e == seq![EffectView::CopyToClipboard(crate::update::joined(Seq::empty()))]
            &&& s.logs.level_filter is None && pos <= s.logs.entries.len() ==> e == seq![
                EffectView::CopyToClipboard(crate::update::joined(s.logs.entries.skip(pos))),
            ]
        }),
        r.menu_mode == MenuMode::Closed,
{
    let t = choose|t: std::time::Instant|
        #[trigger] key_step(AppView { last_activity: t, ..s }, k.code) == (r, e);
    assert(key_step(AppView { last_activity: t, ..s }, k.code) == (r, e));
    reveal(crate::update::clipboard_menu_step);
    let shown = visible(s.logs.entries, s.logs.level_filter);
    if s.logs.scroll_position == shown.len() {
        assert(shown.skip(s.logs.scroll_position as int) =~= Seq::<LogEntry>::empty());
    }
    crate::state::lemma_visible_all(s.logs.entries);
}

/// The level tags, matched ignoring ASCII case: any error tag (`ERROR`,
/// `ERR]`, `[E]`) makes a line an error; otherwise any warning tag (`WARN`,
/// `WRN]`, `[W]`) a warning; then info (`INFO`, `INF]`, `[I]`), debug
/// (`DEBUG`, `DBG]`, `[D]`) and trace (`TRACE`, `TRC]`, `[T]`); a line with
/// none of them has an unknown level.
pub proof fn lemma_level_tags(text: Seq<char>)
    ensures
        ({
            let b = vstd::utf8::encode_utf8(text);
            let error = contains_upper(b, "ERROR".spec_bytes()) || contains_upper(b, "ERR]".spec_bytes())
                || contains_upper(b, "[E]".spec_bytes());
            let warn = contains_upper(b, "WARN".spec_bytes()) || contains_upper(b, "WRN]".spec_bytes())
                || contains_upper(b, "[W]".spec_bytes());
            let info = contains_upper(b, "INFO".spec_bytes()) || contains_upper(b, "INF]".spec_bytes())
                || contains_upper(b, "[I]".spec_bytes());
            let debug = contains_upper(b, "DEBUG".spec_bytes()) || contains_upper(b, "DBG]".spec_bytes())
                || contains_upper(b, "[D]".spec_bytes());
            let trace = contains_upper(b, "TRACE".spec_bytes()) || contains_upper(b, "TRC]".spec_bytes())
                || contains_upper(b, "[T]".spec_bytes());
            &&& error ==> level_of_text(text) == LogLevel::Error
            &&& !error && warn ==> level_of_text(text) == LogLevel::Warn
            &&& !error && !warn && info ==> level_of_text(text) == LogLevel::Info
            &&& !error && !warn && !info && debug ==> level_of_text(text) == LogLevel::Debug
            &&& !error && !warn && !info && !debug && trace ==> level_of_text(text) == LogLevel::Trace
            &&& !error && !warn && !info && !debug && !trace ==> level_of_text(text) == LogLevel::Unknown
        }),
{
}

/// `a` is no later than `b`.
pub open spec fn not_later(a: Timestamp, b: Timestamp) -> bool {
    a.secs < b.secs || (a.secs == b.secs && a.nanos <= b.nanos)
}

/// Prepending older lines keeps the oldest known timestamp: with a batch
/// whose first line is stamped, the result is that stamp or the previous
/// oldest, whichever is earlier; otherwise the oldest timestamp is kept.
pub proof fn lemma_prepend_oldest_timestamp(l: LogsView, batch: Seq<LogEntry>)
    ensures
        batch.len() == 0 || batch[0].timestamp is None ==> l.prepended(batch).oldest_timestamp
            == l.oldest_timestamp,
        batch.len() > 0 && batch[0].timestamp is Some ==> ({
            let ts = batch[0].timestamp->0;
            let o = l.prepended(batch).oldest_timestamp;
            &&& o is Some
            &&& o == Some(ts) || o == l.oldest_timestamp
            &&& not_later(o->0, ts)
            &&& l.oldest_timestamp is Some ==> not_later(o->0, l.oldest_timestamp->0)
        }),
{
}

/// A line of the current stream follows the live tail: if the view was at
/// the bottom of the shown lines, it is at the bottom after the line is
/// added; otherwise the scroll position stays where it was.
pub proof fn lemma_live_tail_follows(
    s: AppView,
    container_id: String,
    generation: u64,
    content: String,
    r: AppView,
    e: Seq<EffectView>,
)
    requires
        update_relation(s, Message::LogReceived { container_id, generation, content }, r, e),
        crate::update::is_current_stream(s, container_id@, generation),
        s.logs.entries.len() <= usize::MAX,
    ensures
        ({
            let h = s.logs_panel_height as int;
            let before = sat_sub(visible(s.logs.entries, s.logs.level_filter).len() as int, h);
            let after = sat_sub(visible(r.logs.entries, r.logs.level_filter).len() as int, h);
            &&& r.logs_panel_height == s.logs_panel_height
            &&& r.logs.level_filter == s.logs.level_filter
            &&& s.logs.scroll_position >= before ==> r.logs.scroll_position == after
            &&& s.logs.scroll_position < before ==> r.logs.scroll_position == s.logs.scroll_position
        }),
        e.len() == 0,
{
    let entry = choose|entry: LogEntry|
        #[trigger] crate::message::entry_from_raw(content@, entry) && r == crate::update::log_appended(s, entry);
    assert(r == crate::update::log_appended(s, entry));
    crate::state::lemma_visible_len(s.logs.entries, s.logs.level_filter);
    crate::state::lemma_visible_len(r.logs.entries, r.logs.level_filter);
}

} // verus!
