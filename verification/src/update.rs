//! The update function: given the current state and a message, the next state
//! and the side effects to run. It performs no I/O.
use vstd::prelude::*;
use vstd::string::*;
use vstd::utf8::encode_utf8;
use crate::message::{DockerOp, DockerOpView, Effect, EffectView, KeyCode, KeyEvent, LogEntry, LogLevel,
    Message, effects_view};
use crate::state::{AppState, AppView, LogsState, LogsView, MenuMode, NavigationMode, Notification,
    NotificationView, NumericView, SearchView, TransitionState, TransitionView, ViewMode, elapsed_secs,
    min, now, sat_sub};
use crate::docker::Container;
use std::time::Instant;
use crate::text::{ascii_uppercase, contains_ci, decimal, push_decimal, push_str};

verus! {

// ---------------------------------------------------------------------------
// Level filter cycling
// ---------------------------------------------------------------------------

/// All -> Error -> Warn -> Info -> Debug -> Trace -> All.
pub open spec fn next_filter(current: Option<LogLevel>) -> Option<LogLevel> {
    match current {
        None => Some(LogLevel::Error),
        Some(LogLevel::Error) => Some(LogLevel::Warn),
        Some(LogLevel::Warn) => Some(LogLevel::Info),
        Some(LogLevel::Info) => Some(LogLevel::Debug),
        Some(LogLevel::Debug) => Some(LogLevel::Trace),
        Some(LogLevel::Trace) | Some(LogLevel::Unknown) => None,
    }
}

/// Cycle through the level filters: All, Error, Warn, Info, Debug, Trace, All.
pub fn cycle_filter(current: Option<LogLevel>) -> (r: Option<LogLevel>)
    ensures
        r == next_filter(current),
{
    match current {
        None => Some(LogLevel::Error),
        Some(LogLevel::Error) => Some(LogLevel::Warn),
        Some(LogLevel::Warn) => Some(LogLevel::Info),
        Some(LogLevel::Info) => Some(LogLevel::Debug),
        Some(LogLevel::Debug) => Some(LogLevel::Trace),
        Some(LogLevel::Trace) | Some(LogLevel::Unknown) => None,
    }
}

/// Six presses of Tab bring any filter of the cycle back to where it started;
/// an `Unknown` filter falls back to "all" on the first press.
pub proof fn lemma_filter_cycle(f: Option<LogLevel>)
    requires
        f != Some(LogLevel::Unknown),
    ensures
        next_filter(next_filter(next_filter(next_filter(next_filter(next_filter(f)))))) == f,
{
}

// ---------------------------------------------------------------------------
// Log text for search and clipboard
// ---------------------------------------------------------------------------

/// Number of older log lines requested per infinite-scroll batch.
pub const HISTORICAL_BATCH_SIZE: usize = 50;

/// Whether a batch of older lines is complete: collecting stops once
/// `batch_size` lines have arrived, and a full batch means more history may
/// remain.
pub fn history_batch_full(received: usize, batch_size: usize) -> (r: bool)
    ensures
        r == (received >= batch_size),
{
    received >= batch_size
}

/// The texts of a run of entries.
pub open spec fn contents(s: Seq<LogEntry>) -> Seq<Seq<char>> {
    Seq::new(s.len(), |i: int| s[i].content@)
}

/// The entries' texts joined by newlines.
pub open spec fn joined(s: Seq<LogEntry>) -> Seq<char> {
    crate::text::join_lines(contents(s))
}

/// Whether an entry's text contains the (upper-case) needle, ignoring ASCII
/// case.
pub open spec fn entry_matches(e: LogEntry, needle: Seq<char>) -> bool {
    crate::text::contains_upper(encode_utf8(e.content@), encode_utf8(needle))
}

/// Positions of the entries whose text contains the needle.
pub open spec fn match_positions(v: Seq<LogEntry>, needle: Seq<char>) -> Seq<usize>
    decreases v.len(),
{
    if v.len() == 0 {
        Seq::empty()
    } else if entry_matches(v.last(), needle) {
        match_positions(v.drop_last(), needle).push((v.len() - 1) as usize)
    } else {
        match_positions(v.drop_last(), needle)
    }
}

proof fn lemma_match_positions_bound(v: Seq<LogEntry>, needle: Seq<char>)
    requires
        v.len() <= usize::MAX,
    ensures
        forall|i: int|
            0 <= i < match_positions(v, needle).len() ==> match_positions(v, needle)[i] < v.len(),
    decreases v.len(),
{
    if v.len() > 0 {
        let prev = match_positions(v.drop_last(), needle);
        lemma_match_positions_bound(v.drop_last(), needle);
        assert forall|i: int| 0 <= i < match_positions(v, needle).len() implies match_positions(
            v,
            needle,
        )[i] < v.len() by {
            if i < prev.len() {
                assert(match_positions(v, needle)[i] == prev[i]);
            }
        }
    }
}

/// Joins the texts of the given entries with newlines.
pub fn join_entries(v: &Vec<&LogEntry>) -> (r: String)
    ensures
        r@ == joined(v@.unref()),
{
    let n: usize = v.len();
    let mut out = String::new();
    let mut i: usize = 0;
    while i < n
        invariant
            n == v@.len(),
            i <= n,
            out@ == joined(v@.unref().take(i as int)),
        decreases n - i,
    {
        let ghost prefix = v@.unref().take(i as int);
        let ghost next = v@.unref().take(i + 1);
        assert(contents(next).drop_last() =~= contents(prefix));
        assert(contents(next).last() == v[i as int].content@);
        if i > 0 {
            push_str(&mut out, "\n");
            proof {
                reveal_strlit("\n");
            }
        }
        push_str(&mut out, v[i].content.as_str());
        proof {
            if i == 0 {
                assert(contents(next) =~= seq![v[0].content@]);
            }
        }
        assert(out@ =~= joined(next));
        i += 1;
    }
    assert(v@.unref().take(n as int) =~= v@.unref());
    out
}

/// References to all entries, oldest first.
fn all_entries(logs: &LogsState) -> (r: Vec<&LogEntry>)
    ensures
        r@.unref() == logs.entries@,
{
    let n: usize = logs.entries.len();
    let mut out: Vec<&LogEntry> = Vec::new();
    let mut i: usize = 0;
    while i < n
        invariant
            n == logs.entries@.len(),
            i <= n,
            out@.len() == i,
            forall|j: int| 0 <= j < i ==> *out@[j] == logs.entries@[j],
        decreases n - i,
    {
        out.push(&logs.entries[i]);
        i += 1;
    }
    assert(out@.unref() =~= logs.entries@);
    out
}

/// References to the entries from position `start` on.
fn tail_of(v: Vec<&LogEntry>, start: usize) -> (r: Vec<&LogEntry>)
    ensures
        r@.unref() == (if start < v@.len() {
            v@.unref().skip(start as int)
        } else {
            Seq::empty()
        }),
{
    let n: usize = v.len();
    let mut out: Vec<&LogEntry> = Vec::new();
    if start >= n {
        return out;
    }
    let mut i: usize = start;
    while i < n
        invariant
            n == v@.len(),
            start <= i <= n,
            out@ == v@.subrange(start as int, i as int),
        decreases n - i,
    {
        out.push(v[i]);
        assert(out@ =~= v@.subrange(start as int, i + 1));
        i += 1;
    }
    assert(out@.unref() =~= v@.unref().skip(start as int));
    out
}

/// The last `n` log lines (or all of them when there are fewer), joined by
/// newlines.
pub fn collect_logs(logs: &LogsState, n: usize) -> (r: String)
    ensures
        r@ == joined(logs.entries@.skip(crate::state::sat_sub(logs.entries@.len() as int, n as int))),
{
    let len: usize = logs.entries.len();
    let start: usize = len.saturating_sub(n);
    let all = all_entries(logs);
    let tail = tail_of(all, start);
    proof {
        if start >= len {
            assert(logs.entries@.skip(start as int) =~= Seq::<LogEntry>::empty());
        }
    }
    join_entries(&tail)
}

/// Positions (in the filtered view) of the entries whose text contains the
/// needle, ASCII case-insensitively.
pub fn find_matches(logs: &LogsState, needle: &str) -> (r: Vec<usize>)
    ensures
        r@ == match_positions(logs@.shown(), needle@),
{
    let shown = logs.filtered_entries();
    let n: usize = shown.len();
    let mut out: Vec<usize> = Vec::new();
    let mut i: usize = 0;
    while i < n
        invariant
            n == shown@.len(),
            shown@.unref() == logs@.shown(),
            i <= n,
            out@ == match_positions(logs@.shown().take(i as int), needle@),
        decreases n - i,
    {
        let ghost v = logs@.shown().take(i + 1);
        assert(v.drop_last() =~= logs@.shown().take(i as int));
        assert(v.last() == *shown@[i as int]);
        if contains_ci(shown[i].content.as_str(), needle) {
            out.push(i);
        }
        i += 1;
    }
    assert(logs@.shown().take(n as int) =~= logs@.shown());
    out
}

/// Effects of a tick: reload the containers once the refresh interval has
/// passed since the last refresh (two seconds, five when the user has been
/// idle for five seconds), then schedule the next tick (250 ms, or one second
/// when idle).
pub open spec fn tick_plan(activity_secs: u64, refresh_secs: u64) -> Seq<crate::message::EffectView> {
    let idle = activity_secs >= 5;
    let interval: u64 = if idle { 5 } else { 2 };
    let tick: u64 = if idle { 1000 } else { 250 };
    if refresh_secs >= interval {
        seq![
            crate::message::EffectView::LoadContainers,
            crate::message::EffectView::ScheduleTick { millis: tick },
        ]
    } else {
        seq![crate::message::EffectView::ScheduleTick { millis: tick }]
    }
}

/// The effects of a tick, given the seconds since the last key press and
/// since the last container refresh.
pub fn tick_effects(activity_secs: u64, refresh_secs: u64) -> (r: Vec<Effect>)
    ensures
        crate::message::effects_view(r@) == tick_plan(activity_secs, refresh_secs),
{
    let idle = activity_secs >= 5;
    let refresh_interval: u64 = if idle {
        5
    } else {
        2
    };
    let mut effects: Vec<Effect> = Vec::new();
    if refresh_secs >= refresh_interval {
        effects.push(Effect::LoadContainers);
    }
    let tick_ms: u64 = if idle {
        1000
    } else {
        250
    };
    effects.push(Effect::ScheduleTick { millis: tick_ms });
    assert(crate::message::effects_view(effects@) =~= tick_plan(activity_secs, refresh_secs));
    effects
}

// ---------------------------------------------------------------------------
// Transitions
// ---------------------------------------------------------------------------

/// The state with a redraw requested.
pub open spec fn redrawn(s: AppView) -> AppView {
    AppView { needs_redraw: true, ..s }
}

/// The view with the given logs state.
pub open spec fn with_logs(s: AppView, l: LogsView) -> AppView {
    AppView { logs: l, ..s }
}

/// Largest scroll position for a panel of the given height, computed from
/// the entries that the filter shows.
pub open spec fn max_scroll_of(l: LogsView, height: usize) -> usize {
    sat_sub(l.shown().len() as int, height as int) as usize
}

/// Scroll up by `amount`; reaching the top from below asks for older lines
/// once (when more may exist and none are loading).
pub open spec fn scroll_up_step(s: AppView, amount: usize) -> (AppView, Seq<EffectView>) {
    let old_pos = s.logs.scroll_position;
    let new_pos = sat_sub(old_pos as int, amount as int) as usize;
    let trigger = old_pos > 0 && new_pos == 0 && !s.logs.is_loading_more && s.logs.has_more_history;
    let logs = LogsView {
        scroll_position: new_pos,
        is_loading_more: trigger || s.logs.is_loading_more,
        ..s.logs
    };
    let effects = if trigger && s.selected() is Some {
        seq![
            EffectView::LoadHistoricalLogs {
                container_id: s.selected()->0.id@,
                before_timestamp: s.logs.oldest_timestamp,
                batch_size: HISTORICAL_BATCH_SIZE,
            },
        ]
    } else {
        Seq::empty()
    };
    (redrawn(with_logs(s, logs)), effects)
}

/// The effect that starts the stream for the given view: stats for the
/// stats view, logs (100 initial lines) otherwise.
pub open spec fn stream_effect(view: ViewMode, id: Seq<char>, generation: u64) -> EffectView {
    match view {
        ViewMode::Stats => EffectView::StartStatsStream { container_id: id },
        _ => EffectView::StartLogsStream { container_id: id, initial_lines: 100, generation },
    }
}

/// Switch to container `index`: show a loading message, start a new stream
/// generation, clear the logs and stats, stop all streams and start the new
/// container's stream (logs, or the one for `view`).
pub open spec fn switch_step(s: AppView, index: usize, message: Seq<char>, view: ViewMode) -> (
    AppView,
    Seq<EffectView>,
) {
    let g = s.stream_generation.wrapping_add(1);
    let base = AppView {
        transition_state: TransitionView::Loading(message),
        force_full_redraw: true,
        needs_redraw: true,
        stream_generation: g,
        selected_container: index,
        logs: s.logs.cleared(),
        stats: None,
        ..s
    };
    if index < s.containers.len() {
        let id = s.containers[index as int].id@;
        (
            AppView { current_container_id: Some(id), ..base },
            seq![EffectView::StopAllStreams, stream_effect(view, id, g)],
        )
    } else {
        (base, seq![EffectView::StopAllStreams])
    }
}

pub open spec fn navigate_up_step(s: AppView) -> (AppView, Seq<EffectView>) {
    match s.navigation_mode {
        NavigationMode::Containers => if s.selected_container > 0 {
            switch_step(
                s,
                (s.selected_container - 1) as usize,
                "Switching container..."@,
                s.view_mode,
            )
        } else {
            (s, Seq::empty())
        },
        _ => scroll_up_step(s, 1),
    }
}

pub open spec fn navigate_down_step(s: AppView) -> (AppView, Seq<EffectView>) {
    match s.navigation_mode {
        NavigationMode::Containers => if s.selected_container < sat_sub(
            s.containers.len() as int,
            1,
        ) {
            switch_step(
                s,
                (s.selected_container + 1) as usize,
                "Switching container..."@,
                s.view_mode,
            )
        } else {
            (s, Seq::empty())
        },
        _ => (
            redrawn(
                with_logs(
                    s,
                    LogsView {
                        scroll_position: min(
                            s.logs.scroll_position + 1,
                            max_scroll_of(s.logs, s.logs_panel_height) as int,
                        ) as usize,
                        ..s.logs
                    },
                ),
            ),
            Seq::empty(),
        ),
    }
}

/// The Docker operation that menu key `c` asks for on container `id`.
pub open spec fn docker_op_for(c: char, id: Seq<char>) -> Option<DockerOpView> {
    if c == '1' {
        Some(DockerOpView::Start(id))
    } else if c == '2' {
        Some(DockerOpView::Stop(id))
    } else if c == '3' {
        Some(DockerOpView::Restart(id))
    } else if c == '4' {
        Some(DockerOpView::Pause(id))
    } else if c == '5' {
        Some(DockerOpView::Unpause(id))
    } else if c == '6' {
        Some(DockerOpView::Remove { id, force: false })
    } else {
        None
    }
}

/// Keys of the Docker operations menu: `1`..`6` run an operation on the
/// selected container and close the menu; `Esc` and `q` close it.
#[verifier::opaque]
pub open spec fn docker_menu_step(s: AppView, key: KeyCode) -> (AppView, Seq<EffectView>) {
    match key {
        KeyCode::Char(c) => if '1' <= c <= '6' {
            (
                redrawn(AppView { menu_mode: MenuMode::Closed, ..s }),
                match s.selected() {
                    Some(cont) => seq![EffectView::DockerOperation(docker_op_for(c, cont.id@)->0)],
                    None => Seq::empty(),
                },
            )
        } else if c == 'q' {
            (redrawn(AppView { menu_mode: MenuMode::Closed, ..s }), Seq::empty())
        } else {
            (redrawn(s), Seq::empty())
        },
        KeyCode::Esc => (redrawn(AppView { menu_mode: MenuMode::Closed, ..s }), Seq::empty()),
        _ => (redrawn(s), Seq::empty()),
    }
}

/// The filtered entries from the scroll position on (nothing when the
/// position is past the end).
pub open spec fn from_position(l: LogsView) -> Seq<LogEntry> {
    if l.scroll_position < l.shown().len() {
        l.shown().skip(l.scroll_position as int)
    } else {
        Seq::empty()
    }
}

/// The entries on screen for a panel of the given height.
pub open spec fn on_screen(l: LogsView, filtered_count: usize, height: usize) -> Seq<LogEntry> {
    crate::state::window(
        l.shown(),
        min(l.scroll_position as int, sat_sub(filtered_count as int, 1)),
        height as int,
    )
}

/// The effect that clipboard menu key `c` asks for: last 100 lines, last
/// 500, the lines on screen, from the scroll position on, all lines, export
/// of all lines, or printing of the filtered lines.
pub open spec fn clipboard_effect(s: AppView, filtered_count: usize, c: char) -> EffectView {
    let all = s.logs.entries;
    if c == '1' {
        EffectView::CopyToClipboard(joined(all.skip(sat_sub(all.len() as int, 100))))
    } else if c == '2' {
        EffectView::CopyToClipboard(joined(all.skip(sat_sub(all.len() as int, 500))))
    } else if c == '3' {
        EffectView::CopyToClipboard(
            joined(on_screen(s.logs, filtered_count, s.logs_panel_height)),
        )
    } else if c == '4' {
        EffectView::CopyToClipboard(joined(from_position(s.logs)))
    } else if c == '5' {
        EffectView::CopyToClipboard(joined(all))
    } else if c == '6' {
        EffectView::ExportLogs {
            content: joined(all),
            container_name: match s.selected() {
                Some(cont) => cont.name@,
                None => "container"@,
            },
        }
    } else {
        EffectView::PrintForManualCopy(joined(s.logs.shown()))
    }
}

/// Keys of the clipboard menu: `1`..`7` produce the copy, export or print
/// effect and close the menu; `Esc` and `q` close it.
#[verifier::opaque]
pub open spec fn clipboard_menu_step(s: AppView, filtered_count: usize, key: KeyCode) -> (
    AppView,
    Seq<EffectView>,
) {
    match key {
        KeyCode::Char(c) => if '1' <= c <= '7' {
            (
                redrawn(AppView { menu_mode: MenuMode::Closed, ..s }),
                seq![clipboard_effect(s, filtered_count, c)],
            )
        } else if c == 'q' {
            (redrawn(AppView { menu_mode: MenuMode::Closed, ..s }), Seq::empty())
        } else {
            (redrawn(s), Seq::empty())
        },
        KeyCode::Esc => (redrawn(AppView { menu_mode: MenuMode::Closed, ..s }), Seq::empty()),
        _ => (redrawn(s), Seq::empty()),
    }
}

/// Scroll up with the infinite-scroll trigger.
fn handle_scroll_up(state: &mut AppState, amount: usize) -> (effects: Vec<Effect>)
    requires
        old(state).wf(),
    ensures
        final(state).notification == old(state).notification,
        final(state).wf(),
        (final(state)@, effects_view(effects@)) == scroll_up_step(old(state)@, amount),
{
    let mut effects: Vec<Effect> = Vec::new();
    let old_scroll = state.logs.scroll_position;
    state.logs.scroll_position = state.logs.scroll_position.saturating_sub(amount);
    if old_scroll > 0 && state.logs.scroll_position == 0 && !state.logs.is_loading_more
        && state.logs.has_more_history {
        state.logs.is_loading_more = true;
        match state.selected_container() {
            Some(container) => {
                effects.push(
                    Effect::LoadHistoricalLogs {
                        container_id: container.id.clone(),
                        before_timestamp: state.logs.oldest_timestamp,
                        batch_size: HISTORICAL_BATCH_SIZE,
                    },
                );
            },
            None => {},
        }
    }
    state.needs_redraw = true;
    assert(effects_view(effects@) =~= scroll_up_step(old(state)@, amount).1);
    assert(state@ =~= scroll_up_step(old(state)@, amount).0);
    effects
}

/// Switch to container `index` (see `switch_step`).
fn switch_to(state: &mut AppState, index: usize, message: &str, view: ViewMode) -> (effects: Vec<Effect>)
    requires
        old(state).wf(),
    ensures
        final(state).notification == old(state).notification,
        final(state).wf(),
        (final(state)@, effects_view(effects@)) == switch_step(old(state)@, index, message@, view),
{
    let mut effects: Vec<Effect> = Vec::new();
    state.transition_state = TransitionState::Loading(String::from_str(message));
    state.force_full_redraw = true;
    state.needs_redraw = true;
    state.stream_generation = state.stream_generation.wrapping_add(1);
    state.selected_container = index;
    state.logs.clear();
    state.stats = None;
    effects.push(Effect::StopAllStreams);
    if index < state.containers.len() {
        let id = state.containers[index].id.clone();
        state.current_container_id = Some(id.clone());
        match view {
            ViewMode::Stats => {
                effects.push(Effect::StartStatsStream { container_id: id });
            },
            _ => {
                effects.push(
                    Effect::StartLogsStream {
                        container_id: id,
                        initial_lines: 100,
                        generation: state.stream_generation,
                    },
                );
            },
        }
    }
    assert(effects_view(effects@) =~= switch_step(old(state)@, index, message@, view).1);
    assert(state@ =~= switch_step(old(state)@, index, message@, view).0);
    effects
}

/// Navigation up: previous container, or scroll up by one line.
fn handle_navigate_up(state: &mut AppState) -> (effects: Vec<Effect>)
    requires
        old(state).wf(),
    ensures
        final(state).notification == old(state).notification,
        final(state).wf(),
        (final(state)@, effects_view(effects@)) == navigate_up_step(old(state)@),
{
    match state.navigation_mode {
        NavigationMode::Containers => {
            if state.selected_container > 0 {
                let view = state.view_mode;
                switch_to(state, state.selected_container - 1, "Switching container...", view)
            } else {
                let effects: Vec<Effect> = Vec::new();
                assert(effects_view(effects@) =~= Seq::<EffectView>::empty());
                effects
            }
        },
        _ => handle_scroll_up(state, 1),
    }
}

/// Navigation down: next container, or scroll down by one line.
fn handle_navigate_down(state: &mut AppState) -> (effects: Vec<Effect>)
    requires
        old(state).wf(),
    ensures
        final(state).notification == old(state).notification,
        final(state).wf(),
        (final(state)@, effects_view(effects@)) == navigate_down_step(old(state)@),
{
    match state.navigation_mode {
        NavigationMode::Containers => {
            if state.selected_container < state.containers.len().saturating_sub(1) {
                let view = state.view_mode;
                switch_to(state, state.selected_container + 1, "Switching container...", view)
            } else {
                let effects: Vec<Effect> = Vec::new();
                assert(effects_view(effects@) =~= Seq::<EffectView>::empty());
                effects
            }
        },
        _ => {
            let max = state.logs.max_scroll(state.logs_panel_height);
            state.logs.scroll_position = bounded_add(state.logs.scroll_position, 1, max);
            state.needs_redraw = true;
            let effects: Vec<Effect> = Vec::new();
            assert(effects_view(effects@) =~= Seq::<EffectView>::empty());
            assert(state@ =~= navigate_down_step(old(state)@).0);
            effects
        },
    }
}

/// `min(a + b, max)` over the integers.
fn bounded_add(a: usize, b: usize, max: usize) -> (r: usize)
    ensures
        r == min(a + b, max as int),
{
    if a >= max || b >= max - a {
        max
    } else {
        a + b
    }
}

/// Keys of the Docker operations menu.
fn handle_docker_ops_menu(state: &mut AppState, key: KeyCode) -> (effects: Vec<Effect>)
    requires
        old(state).wf(),
    ensures
        final(state).notification == old(state).notification,
        final(state).wf(),
        (final(state)@, effects_view(effects@)) == docker_menu_step(old(state)@, key),
{
    reveal(docker_menu_step);
    let mut effects: Vec<Effect> = Vec::new();
    match key {
        KeyCode::Char(c) => {
            if '1' <= c && c <= '6' {
                match state.selected_container() {
                    Some(container) => {
                        let id = container.id.clone();
                        let op = if c == '1' {
                            DockerOp::Start(id)
                        } else if c == '2' {
                            DockerOp::Stop(id)
                        } else if c == '3' {
                            DockerOp::Restart(id)
                        } else if c == '4' {
                            DockerOp::Pause(id)
                        } else if c == '5' {
                            DockerOp::Unpause(id)
                        } else {
                            DockerOp::Remove { id, force: false }
                        };
                        effects.push(Effect::DockerOperation(op));
                    },
                    None => {},
                }
                state.menu_mode = MenuMode::Closed;
            } else if c == 'q' {
                state.menu_mode = MenuMode::Closed;
            }
        },
        KeyCode::Esc => {
            state.menu_mode = MenuMode::Closed;
        },
        _ => {},
    }
    state.needs_redraw = true;
    assert(effects_view(effects@) =~= docker_menu_step(old(state)@, key).1);
    assert(state@ =~= docker_menu_step(old(state)@, key).0);
    effects
}

/// Keys of the clipboard menu.
fn handle_clipboard_menu(state: &mut AppState, key: KeyCode) -> (effects: Vec<Effect>)
    requires
        old(state).wf(),
    ensures
        final(state).notification == old(state).notification,
        final(state).wf(),
        (final(state)@, effects_view(effects@)) == clipboard_menu_step(
            old(state)@,
            old(state).logs.filtered_count,
            key,
        ),
{
    reveal(clipboard_menu_step);
    let mut effects: Vec<Effect> = Vec::new();
    let ghost s = state@;
    let ghost fc = state.logs.filtered_count;
    match key {
        KeyCode::Char(c) => {
            if '1' <= c && c <= '7' {
                let effect = if c == '1' {
                    Effect::CopyToClipboard(collect_logs(&state.logs, 100))
                } else if c == '2' {
                    Effect::CopyToClipboard(collect_logs(&state.logs, 500))
                } else if c == '3' {
                    let v = state.logs.visible_entries(state.logs_panel_height);
                    Effect::CopyToClipboard(join_entries(&v))
                } else if c == '4' {
                    let v = tail_of(state.logs.filtered_entries(), state.logs.scroll_position);
                    Effect::CopyToClipboard(join_entries(&v))
                } else if c == '5' {
                    let v = all_entries(&state.logs);
                    Effect::CopyToClipboard(join_entries(&v))
                } else if c == '6' {
                    let v = all_entries(&state.logs);
                    let content = join_entries(&v);
                    let container_name = match state.selected_container() {
                        Some(cont) => cont.name.clone(),
                        None => String::from_str("container"),
                    };
                    Effect::ExportLogs { content, container_name }
                } else {
                    let v = state.logs.filtered_entries();
                    Effect::PrintForManualCopy(join_entries(&v))
                };
                proof {
                    assert(s.logs.entries.skip(0) =~= s.logs.entries);
                }
                assert(effect@ == clipboard_effect(s, fc, c));
                effects.push(effect);
                state.menu_mode = MenuMode::Closed;
            } else if c == 'q' {
                state.menu_mode = MenuMode::Closed;
            }
        },
        KeyCode::Esc => {
            state.menu_mode = MenuMode::Closed;
        },
        _ => {},
    }
    state.needs_redraw = true;
    assert(effects_view(effects@) =~= clipboard_menu_step(s, fc, key).1);
    assert(state@ =~= clipboard_menu_step(s, fc, key).0);
    effects
}

// ---------------------------------------------------------------------------
// Search and numeric input
// ---------------------------------------------------------------------------

/// Enter in the search bar: an empty query closes the bar; otherwise the
/// matching positions in the filtered view are stored, the bar closes and
/// the view scrolls to the first match; with no match the search is
/// cancelled and an error notification says so.
pub open spec fn search_enter(s: AppView) -> AppView {
    let needle = crate::text::upper_chars(s.search.query);
    if needle.len() == 0 {
        AppView { search: s.search.cancelled(), ..s }
    } else {
        let m = match_positions(s.logs.shown(), needle);
        if m.len() > 0 {
            AppView {
                search: SearchView { matches: m, current: 0, active: false, ..s.search },
                logs: LogsView { scroll_position: m[0], ..s.logs },
                ..s
            }
        } else {
            AppView {
                search: s.search.cancelled(),
                notification: Some(
                    NotificationView {
                        message: "No matches for '"@ + s.search.query + "'"@,
                        is_error: true,
                    },
                ),
                ..s
            }
        }
    }
}

/// Keys while the search bar is open: characters extend the query,
/// Backspace removes one, Esc cancels, Enter searches.
#[verifier::opaque]
pub open spec fn search_step(s: AppView, key: KeyCode) -> AppView {
    redrawn(
        match key {
            KeyCode::Char(c) => AppView {
                search: SearchView { query: s.search.query.push(c), ..s.search },
                ..s
            },
            KeyCode::Backspace => AppView { search: s.search.popped(), ..s },
            KeyCode::Esc => AppView { search: s.search.cancelled(), ..s },
            KeyCode::Enter => search_enter(s),
            _ => s,
        },
    )
}

/// Enter in the numeric input: jump to container `num` (1-based) when it
/// exists, else an error notification.
pub open spec fn numeric_enter(s: AppView) -> (AppView, Seq<EffectView>) {
    match crate::text::parse_usize_spec(s.numeric_input.value) {
        Some(num) => {
            if 1 <= num <= s.containers.len() {
                switch_step(
                    s,
                    (num - 1) as usize,
                    "Jumping to container #"@ + decimal(num as nat) + "..."@,
                    ViewMode::Logs,
                )
            } else {
                (
                    AppView {
                        notification: Some(
                            NotificationView {
                                message: "Container #"@ + decimal(num as nat) + " does not exist"@,
                                is_error: true,
                            },
                        ),
                        ..s
                    },
                    Seq::empty(),
                )
            }
        },
        None => (s, Seq::empty()),
    }
}

/// Keys while the numeric input is open: digits extend it, Enter jumps and
/// closes it, Esc closes it, Backspace removes a digit.
#[verifier::opaque]
pub open spec fn numeric_step(s: AppView, key: KeyCode) -> (AppView, Seq<EffectView>) {
    match key {
        KeyCode::Char(c) => if crate::text::is_digit(c) {
            (AppView { numeric_input: s.numeric_input.pushed(c), ..s }, Seq::empty())
        } else {
            (s, Seq::empty())
        },
        KeyCode::Enter => {
            let (t, e) = numeric_enter(s);
            (AppView { numeric_input: NumericView { active: false, value: Seq::empty() }, ..t }, e)
        },
        KeyCode::Esc => (
            AppView { numeric_input: NumericView { active: false, value: Seq::empty() }, ..s },
            Seq::empty(),
        ),
        KeyCode::Backspace => (AppView { numeric_input: s.numeric_input.popped(), ..s }, Seq::empty()),
        _ => (s, Seq::empty()),
    }
}

fn handle_search_key(state: &mut AppState, key: KeyCode, t: Instant)
    requires
        old(state).wf(),
    ensures
        stamped(old(state).notification, final(state).notification, t),
        final(state).wf(),
        final(state)@ == search_step(old(state)@, key),
{
    reveal(search_step);
    let ghost s = state@;
    match key {
        KeyCode::Char(c) => state.search.push(c),
        KeyCode::Backspace => state.search.pop(),
        KeyCode::Esc => state.search.cancel(),
        KeyCode::Enter => {
            let needle = ascii_uppercase(state.search.query.as_str());
            if needle.as_str().unicode_len() == 0 {
                state.search.cancel();
            } else {
                let matches = find_matches(&state.logs, needle.as_str());
                if matches.len() > 0 {
                    let first = matches[0];
                    state.search.matches = matches;
                    state.search.current = 0;
                    state.search.active = false;
                    state.logs.scroll_position = first;
                } else {
                    let mut msg = String::new();
                    push_str(&mut msg, "No matches for '");
                    push_str(&mut msg, state.search.query.as_str());
                    push_str(&mut msg, "'");
                    state.search.cancel();
                    state.notification = Some(Notification::error_at(msg, t));
                }
            }
        },
        _ => {},
    }
    state.needs_redraw = true;
    assert(state@ =~= search_step(s, key));
}

fn handle_numeric_key(state: &mut AppState, key: KeyCode, t: Instant) -> (effects: Vec<Effect>)
    requires
        old(state).wf(),
    ensures
        stamped(old(state).notification, final(state).notification, t),
        final(state).wf(),
        (final(state)@, effects_view(effects@)) == numeric_step(old(state)@, key),
{
    reveal(numeric_step);
    let ghost s = state@;
    let mut effects: Vec<Effect> = Vec::new();
    match key {
        KeyCode::Char(c) => {
            if '0' <= c && c <= '9' {
                state.numeric_input.push(c);
            }
        },
        KeyCode::Enter => {
            match state.numeric_input.get_value() {
                Some(num) => {
                    if 1 <= num && num <= state.containers.len() {
                        let index = num - 1;
                        let mut msg = String::new();
                        push_str(&mut msg, "Jumping to container #");
                        push_decimal(&mut msg, num as u64);
                        push_str(&mut msg, "...");
                        effects = switch_to(state, index, msg.as_str(), ViewMode::Logs);
                    } else {
                        let mut msg = String::new();
                        push_str(&mut msg, "Container #");
                        push_decimal(&mut msg, num as u64);
                        push_str(&mut msg, " does not exist");
                        state.notification = Some(Notification::error_at(msg, t));
                    }
                },
                None => {},
            }
            state.numeric_input.cancel();
        },
        KeyCode::Esc => {
            state.numeric_input.cancel();
        },
        KeyCode::Backspace => {
            state.numeric_input.pop();
        },
        _ => {},
    }
    assert(effects_view(effects@) =~= numeric_step(s, key).1);
    assert(state@ =~= numeric_step(s, key).0);
    effects
}

// ---------------------------------------------------------------------------
// Normal navigation keys
// ---------------------------------------------------------------------------

/// Tab: next level filter; the scroll position is kept within the new
/// filtered range.
pub open spec fn tab_step(s: AppView) -> AppView {
    let filtered = LogsView { level_filter: next_filter(s.logs.level_filter), ..s.logs };
    AppView {
        logs: LogsView {
            scroll_position: min(
                s.logs.scroll_position as int,
                max_scroll_of(filtered, s.logs_panel_height) as int,
            ) as usize,
            ..filtered
        },
        force_full_redraw: true,
        needs_redraw: true,
        ..s
    }
}

/// `l`: focus the logs, switching to the logs view (new stream generation,
/// cleared logs and stats, logs stream of the selected container) when
/// another view is shown.
pub open spec fn logs_view_step(s: AppView) -> (AppView, Seq<EffectView>) {
    if s.view_mode == ViewMode::Logs || s.view_mode == ViewMode::LogsExpanded {
        (redrawn(AppView { navigation_mode: NavigationMode::Logs, ..s }), Seq::empty())
    } else {
        let g = s.stream_generation.wrapping_add(1);
        let base = AppView {
            transition_state: TransitionView::Loading("Loading logs..."@),
            force_full_redraw: true,
            needs_redraw: true,
            view_mode: ViewMode::Logs,
            navigation_mode: NavigationMode::Logs,
            stream_generation: g,
            logs: s.logs.cleared(),
            stats: None,
            ..s
        };
        match s.selected() {
            Some(c) => (
                AppView { current_container_id: Some(c.id@), ..base },
                seq![
                    EffectView::StopAllStreams,
                    EffectView::StartLogsStream {
                        container_id: c.id@,
                        initial_lines: 100,
                        generation: g,
                    },
                ],
            ),
            None => (base, seq![EffectView::StopAllStreams]),
        }
    }
}

/// `s`: focus the stats, switching to the stats view (cleared logs, stats
/// stream of the selected container) when another view is shown.
pub open spec fn stats_view_step(s: AppView) -> (AppView, Seq<EffectView>) {
    if s.view_mode == ViewMode::Stats {
        (redrawn(AppView { navigation_mode: NavigationMode::Stats, ..s }), Seq::empty())
    } else {
        let base = AppView {
            transition_state: TransitionView::Loading("Loading stats..."@),
            force_full_redraw: true,
            needs_redraw: true,
            view_mode: ViewMode::Stats,
            navigation_mode: NavigationMode::Stats,
            logs: s.logs.cleared(),
            ..s
        };
        match s.selected() {
            Some(c) => (
                base,
                seq![
                    EffectView::StopAllStreams,
                    EffectView::StartStatsStream { container_id: c.id@ },
                ],
            ),
            None => (base, seq![EffectView::StopAllStreams]),
        }
    }
}

/// Lines that PageUp and PageDown scroll the logs by.
pub const PAGE_LINES: usize = 10;

/// Home: scroll to the top and, when more history may exist and none is
/// loading, ask for older lines.
pub open spec fn home_step(s: AppView) -> (AppView, Seq<EffectView>) {
    let trigger = s.logs.has_more_history && !s.logs.is_loading_more;
    let logs = LogsView {
        scroll_position: 0,
        is_loading_more: trigger || s.logs.is_loading_more,
        ..s.logs
    };
    let effects = if trigger && s.selected() is Some {
        seq![
            EffectView::LoadHistoricalLogs {
                container_id: s.selected()->0.id@,
                before_timestamp: s.logs.oldest_timestamp,
                batch_size: HISTORICAL_BATCH_SIZE,
            },
        ]
    } else {
        Seq::empty()
    };
    (redrawn(with_logs(s, logs)), effects)
}

/// Keys with no input mode and no menu open.
#[verifier::opaque]
pub open spec fn normal_step(s: AppView, key: KeyCode) -> (AppView, Seq<EffectView>) {
    match key {
        KeyCode::Char(c) => char_step(s, c),
        _ => special_key_step(s, key),
    }
}

/// Character keys with no input mode and no menu open: quit, start the
/// numeric input, search and match navigation, focus and view switches,
/// menus, restart.
pub open spec fn char_step(s: AppView, c: char) -> (AppView, Seq<EffectView>) {
    if c == 'q' || c == 'Q' {
            (AppView { should_quit: true, ..s }, seq![EffectView::Quit])
        } else if crate::text::is_digit(c) {
            (
                AppView {
                    numeric_input: NumericView { active: true, value: Seq::empty() }.pushed(c),
                    ..s
                },
                Seq::empty(),
            )
        } else if c == '/' {
            (redrawn(AppView { search: s.search.started(), ..s }), Seq::empty())
        } else if c == 'n' || c == 'N' {
            if s.search.matches.len() > 0 {
                let cur = if c == 'n' {
                    crate::state::next_match(s.search.current, s.search.matches.len())
                } else {
                    crate::state::prev_match(s.search.current, s.search.matches.len())
                };
                (
                    redrawn(
                        AppView {
                            search: SearchView { current: cur, ..s.search },
                            logs: LogsView { scroll_position: s.search.matches[cur as int], ..s.logs },
                            ..s
                        },
                    ),
                    Seq::empty(),
                )
            } else {
                (s, Seq::empty())
            }
        } else if c == 'k' || c == 'K' {
            navigate_up_step(s)
        } else if c == 'j' || c == 'J' {
            navigate_down_step(s)
        } else if c == 'h' || c == 'H' {
            (AppView { navigation_mode: NavigationMode::Containers, ..s }, Seq::empty())
        } else if c == 'l' || c == 'L' {
            logs_view_step(s)
        } else if c == 's' || c == 'S' {
            stats_view_step(s)
        } else if c == 'f' || c == 'F' {
            (
                AppView {
                    force_full_redraw: true,
                    needs_redraw: true,
                    view_mode: if s.view_mode == ViewMode::LogsExpanded {
                        ViewMode::Logs
                    } else {
                        ViewMode::LogsExpanded
                    },
                    ..s
                },
                Seq::empty(),
            )
        } else if c == 'c' || c == 'C' {
            (redrawn(AppView { menu_mode: MenuMode::Clipboard, ..s }), Seq::empty())
        } else if c == 'd' || c == 'D' {
            (redrawn(AppView { menu_mode: MenuMode::DockerOps, ..s }), Seq::empty())
        } else if c == 'r' || c == 'R' {
            (
                s,
                match s.selected() {
                    Some(cont) => seq![
                        EffectView::DockerOperation(DockerOpView::Restart(cont.id@)),
                    ],
                    None => Seq::empty(),
                },
            )
        } else {
            (s, Seq::empty())
        }
}

/// The other keys with no input mode and no menu open: filter cycling,
/// arrows, paging, Home, End, Esc.
pub open spec fn special_key_step(s: AppView, key: KeyCode) -> (AppView, Seq<EffectView>) {
    match key {
        KeyCode::Tab => (tab_step(s), Seq::empty()),
        KeyCode::Up => navigate_up_step(s),
        KeyCode::Down => navigate_down_step(s),
        KeyCode::Left => (AppView { navigation_mode: NavigationMode::Containers, ..s }, Seq::empty()),
        KeyCode::Right => (
            AppView {
                navigation_mode: if s.view_mode == ViewMode::Logs || s.view_mode
                    == ViewMode::LogsExpanded {
                    NavigationMode::Logs
                } else {
                    NavigationMode::Stats
                },
                ..s
            },
            Seq::empty(),
        ),
        KeyCode::PageUp => scroll_up_step(s, PAGE_LINES),
        KeyCode::PageDown => (
            redrawn(
                with_logs(
                    s,
                    LogsView {
                        scroll_position: min(
                            s.logs.scroll_position + PAGE_LINES,
                            max_scroll_of(s.logs, s.logs_panel_height) as int,
                        ) as usize,
                        ..s.logs
                    },
                ),
            ),
            Seq::empty(),
        ),
        KeyCode::Home => home_step(s),
        KeyCode::End => (
            redrawn(
                with_logs(
                    s,
                    LogsView {
                        scroll_position: max_scroll_of(s.logs, s.logs_panel_height),
                        ..s.logs
                    },
                ),
            ),
            Seq::empty(),
        ),
        KeyCode::Esc => (
            redrawn(
                AppView {
                    menu_mode: MenuMode::Closed,
                    numeric_input: NumericView { active: false, value: Seq::empty() },
                    ..s
                },
            ),
            Seq::empty(),
        ),
        _ => (s, Seq::empty()),
    }
}

fn handle_logs_view_key(state: &mut AppState) -> (effects: Vec<Effect>)
    requires
        old(state).wf(),
    ensures
        final(state).notification == old(state).notification,
        final(state).wf(),
        (final(state)@, effects_view(effects@)) == logs_view_step(old(state)@),
{
    let ghost s = state@;
    let mut effects: Vec<Effect> = Vec::new();
    if state.view_mode == ViewMode::Logs || state.view_mode == ViewMode::LogsExpanded {
        state.navigation_mode = NavigationMode::Logs;
        state.needs_redraw = true;
    } else {
        state.transition_state = TransitionState::Loading(String::from_str("Loading logs..."));
        state.force_full_redraw = true;
        state.needs_redraw = true;
        state.view_mode = ViewMode::Logs;
        state.navigation_mode = NavigationMode::Logs;
        state.stream_generation = state.stream_generation.wrapping_add(1);
        state.logs.clear();
        state.stats = None;
        effects.push(Effect::StopAllStreams);
        let container_id = match state.selected_container() {
            Some(c) => Some(c.id.clone()),
            None => None,
        };
        match container_id {
            Some(id) => {
                state.current_container_id = Some(id.clone());
                effects.push(
                    Effect::StartLogsStream {
                        container_id: id,
                        initial_lines: 100,
                        generation: state.stream_generation,
                    },
                );
            },
            None => {},
        }
    }
    assert(effects_view(effects@) =~= logs_view_step(s).1);
    assert(state@ =~= logs_view_step(s).0);
    effects
}

fn handle_stats_view_key(state: &mut AppState) -> (effects: Vec<Effect>)
    requires
        old(state).wf(),
    ensures
        final(state).notification == old(state).notification,
        final(state).wf(),
        (final(state)@, effects_view(effects@)) == stats_view_step(old(state)@),
{
    let ghost s = state@;
    let mut effects: Vec<Effect> = Vec::new();
    if state.view_mode == ViewMode::Stats {
        state.navigation_mode = NavigationMode::Stats;
        state.needs_redraw = true;
    } else {
        state.transition_state = TransitionState::Loading(String::from_str("Loading stats..."));
        state.force_full_redraw = true;
        state.needs_redraw = true;
        state.view_mode = ViewMode::Stats;
        state.navigation_mode = NavigationMode::Stats;
        state.logs.clear();
        effects.push(Effect::StopAllStreams);
        match state.selected_container() {
            Some(container) => {
                effects.push(Effect::StartStatsStream { container_id: container.id.clone() });
            },
            None => {},
        }
    }
    assert(effects_view(effects@) =~= stats_view_step(s).1);
    assert(state@ =~= stats_view_step(s).0);
    effects
}

fn handle_home_key(state: &mut AppState) -> (effects: Vec<Effect>)
    requires
        old(state).wf(),
    ensures
        final(state).notification == old(state).notification,
        final(state).wf(),
        (final(state)@, effects_view(effects@)) == home_step(old(state)@),
{
    let ghost s = state@;
    let mut effects: Vec<Effect> = Vec::new();
    state.logs.scroll_position = 0;
    state.needs_redraw = true;
    if state.logs.has_more_history && !state.logs.is_loading_more {
        state.logs.is_loading_more = true;
        match state.selected_container() {
            Some(container) => {
                effects.push(
                    Effect::LoadHistoricalLogs {
                        container_id: container.id.clone(),
                        before_timestamp: state.logs.oldest_timestamp,
                        batch_size: HISTORICAL_BATCH_SIZE,
                    },
                );
            },
            None => {},
        }
    }
    assert(effects_view(effects@) =~= home_step(s).1);
    assert(state@ =~= home_step(s).0);
    effects
}

fn handle_char_key(state: &mut AppState, c: char) -> (effects: Vec<Effect>)
    requires
        old(state).wf(),
    ensures
        final(state).notification == old(state).notification,
        final(state).wf(),
        (final(state)@, effects_view(effects@)) == char_step(old(state)@, c),
{
    let ghost s = state@;
    let mut effects: Vec<Effect> = Vec::new();
    if c == 'q' || c == 'Q' {
        state.should_quit = true;
        effects.push(Effect::Quit);
    } else if '0' <= c && c <= '9' {
        state.numeric_input.start();
        state.numeric_input.push(c);
    } else if c == '/' {
        state.search.start();
        state.needs_redraw = true;
    } else if c == 'n' || c == 'N' {
        let found = if c == 'n' {
            state.search.next()
        } else {
            state.search.prev()
        };
        match found {
            Some(pos) => {
                state.logs.scroll_position = pos;
                state.needs_redraw = true;
            },
            None => {},
        }
    } else if c == 'k' || c == 'K' {
        return handle_navigate_up(state);
    } else if c == 'j' || c == 'J' {
        return handle_navigate_down(state);
    } else if c == 'h' || c == 'H' {
        state.navigation_mode = NavigationMode::Containers;
    } else if c == 'l' || c == 'L' {
        return handle_logs_view_key(state);
    } else if c == 's' || c == 'S' {
        return handle_stats_view_key(state);
    } else if c == 'f' || c == 'F' {
        state.force_full_redraw = true;
        state.needs_redraw = true;
        state.view_mode = match state.view_mode {
            ViewMode::LogsExpanded => ViewMode::Logs,
            _ => ViewMode::LogsExpanded,
        };
    } else if c == 'c' || c == 'C' {
        state.menu_mode = MenuMode::Clipboard;
        state.needs_redraw = true;
    } else if c == 'd' || c == 'D' {
        state.menu_mode = MenuMode::DockerOps;
        state.needs_redraw = true;
    } else if c == 'r' || c == 'R' {
        match state.selected_container() {
            Some(container) => {
                effects.push(Effect::DockerOperation(DockerOp::Restart(container.id.clone())));
            },
            None => {},
        }
    }
    assert(effects_view(effects@) =~= char_step(s, c).1);
    assert(state@ =~= char_step(s, c).0);
    effects
}

fn handle_special_key(state: &mut AppState, key: KeyCode) -> (effects: Vec<Effect>)
    requires
        old(state).wf(),
        !(key is Char),
    ensures
        final(state).notification == old(state).notification,
        final(state).wf(),
        (final(state)@, effects_view(effects@)) == special_key_step(old(state)@, key),
{
    let ghost s = state@;
    let effects: Vec<Effect> = Vec::new();
    assert(effects_view(effects@) =~= Seq::<EffectView>::empty());
    match key {
        KeyCode::Up => {
            return handle_navigate_up(state);
        },
        KeyCode::Down => {
            return handle_navigate_down(state);
        },
        KeyCode::Home => {
            return handle_home_key(state);
        },
        KeyCode::PageUp => {
            let effects = handle_scroll_up(state, PAGE_LINES);
            state.needs_redraw = true;
            return effects;
        },
        KeyCode::Tab => {
            state.logs.level_filter = cycle_filter(state.logs.level_filter);
            state.logs.recount_filtered();
            let max = state.logs.max_scroll(state.logs_panel_height);
            if max < state.logs.scroll_position {
                state.logs.scroll_position = max;
            }
            state.force_full_redraw = true;
            state.needs_redraw = true;
            assert(state@ =~= special_key_step(s, key).0);
        },
        KeyCode::Left => {
            state.navigation_mode = NavigationMode::Containers;
            assert(state@ =~= special_key_step(s, key).0);
        },
        KeyCode::Right => {
            if state.view_mode == ViewMode::Logs || state.view_mode == ViewMode::LogsExpanded {
                state.navigation_mode = NavigationMode::Logs;
            } else {
                state.navigation_mode = NavigationMode::Stats;
            }
            assert(state@ =~= special_key_step(s, key).0);
        },
        KeyCode::PageDown => {
            let max = state.logs.max_scroll(state.logs_panel_height);
            state.logs.scroll_position = bounded_add(state.logs.scroll_position, PAGE_LINES, max);
            state.needs_redraw = true;
            assert(state@ =~= special_key_step(s, key).0);
        },
        KeyCode::End => {
            state.logs.scroll_to_bottom(state.logs_panel_height);
            state.needs_redraw = true;
            assert(state@ =~= special_key_step(s, key).0);
        },
        KeyCode::Esc => {
            state.menu_mode = MenuMode::Closed;
            state.numeric_input.cancel();
            state.needs_redraw = true;
            assert(state@ =~= special_key_step(s, key).0);
        },
        _ => {},
    }
    effects
}

fn handle_normal_key(state: &mut AppState, key: KeyCode) -> (effects: Vec<Effect>)
    requires
        old(state).wf(),
    ensures
        final(state).notification == old(state).notification,
        final(state).wf(),
        (final(state)@, effects_view(effects@)) == normal_step(old(state)@, key),
{
    reveal(normal_step);
    match key {
        KeyCode::Char(c) => handle_char_key(state, c),
        _ => handle_special_key(state, key),
    }
}

// ---------------------------------------------------------------------------
// Messages
// ---------------------------------------------------------------------------

/// A key press: the search bar captures every key, then the numeric input,
/// then an open menu, else the normal navigation keys.
pub open spec fn key_step(s: AppView, key: KeyCode) -> (AppView, Seq<EffectView>) {
    if s.search.active {
        (search_step(s, key), Seq::empty())
    } else if s.numeric_input.active {
        numeric_step(s, key)
    } else {
        match s.menu_mode {
            MenuMode::DockerOps => docker_menu_step(s, key),
            MenuMode::Clipboard => clipboard_menu_step(s, s.logs.shown().len() as usize, key),
            MenuMode::Closed => normal_step(s, key),
        }
    }
}

/// A finished loading transition: the loading message goes away and the
/// screen is cleared once.
pub open spec fn transition_done(s: AppView) -> AppView {
    match s.transition_state {
        TransitionView::Loading(_) => AppView {
            transition_state: TransitionView::Ready,
            force_full_redraw: true,
            ..s
        },
        TransitionView::Ready => s,
    }
}

/// A log line of the current stream appended: the view follows the bottom
/// when it was there, and a loading transition completes.
pub open spec fn log_appended(s: AppView, entry: LogEntry) -> AppView {
    let height = s.logs_panel_height;
    let pushed = s.logs.pushed(entry);
    let logs = if s.logs.scroll_position >= max_scroll_of(s.logs, height) {
        LogsView { scroll_position: max_scroll_of(pushed, height), ..pushed }
    } else {
        pushed
    };
    redrawn(transition_done(with_logs(s, logs)))
}

/// Whether a log line belongs to the current stream: same generation and
/// same container.
pub open spec fn is_current_stream(s: AppView, container_id: Seq<char>, generation: u64) -> bool {
    generation == s.stream_generation && s.current_container_id == Some(container_id)
}

/// What a message does to the state (`s` before, `r` after) and which
/// effects it asks for. Instants read from the clock and the expiry of a
/// notification on a tick are the only things left open.
pub open spec fn update_relation(s: AppView, m: Message, r: AppView, e: Seq<EffectView>) -> bool {
    match m {
        Message::KeyPressed(k) => exists|t: Instant|
            #[trigger] key_step(AppView { last_activity: t, ..s }, k.code) == (r, e),
        Message::Tick => {
            &&& r == (AppView { notification: r.notification, ..s })
            &&& (r.notification == s.notification || (s.notification is Some
                && r.notification is None))
            &&& exists|a: u64, b: u64| e == #[trigger] tick_plan(a, b)
        },
        Message::ContainersLoaded(cs) => {
            &&& r == redrawn(
                AppView {
                    selected_container: if s.selected_container >= cs@.len() && cs@.len() > 0 {
                        (cs@.len() - 1) as usize
                    } else {
                        s.selected_container
                    },
                    containers: cs@,
                    last_refresh: r.last_refresh,
                    ..s
                },
            )
            &&& e.len() == 0
        },
        Message::LogReceived { container_id, generation, content } => {
            &&& e.len() == 0
            &&& if is_current_stream(s, container_id@, generation) {
                exists|entry: LogEntry|
                    #[trigger] crate::message::entry_from_raw(content@, entry) && r == log_appended(
                        s,
                        entry,
                    )
            } else {
                r == s
            }
        },
        Message::HistoricalLogsLoaded { logs, has_more } => {
            &&& r == redrawn(
                AppView {
                    logs: LogsView {
                        has_more_history: has_more,
                        is_loading_more: false,
                        ..s.logs.prepended(logs@)
                    },
                    notification: if has_more {
                        s.notification
                    } else {
                        Some(
                            NotificationView {
                                message: "Reached beginning of logs"@,
                                is_error: false,
                            },
                        )
                    },
                    ..s
                },
            )
            &&& e.len() == 0
        },
        Message::StatsReceived(st) => {
            &&& r == redrawn(transition_done(AppView { stats: Some(st), ..s }))
            &&& e.len() == 0
        },
        Message::OperationSuccess(msg) => {
            &&& r == redrawn(
                AppView {
                    notification: Some(NotificationView { message: msg@, is_error: false }),
                    ..s
                },
            )
            &&& e == seq![EffectView::LoadContainers]
        },
        Message::OperationError(msg) => {
            &&& r == redrawn(
                AppView {
                    notification: Some(NotificationView { message: msg@, is_error: true }),
                    ..s
                },
            )
            &&& e.len() == 0
        },
        Message::ClipboardSuccess(msg) => {
            &&& r == redrawn(
                AppView {
                    notification: Some(NotificationView { message: msg@, is_error: false }),
                    menu_mode: MenuMode::Closed,
                    ..s
                },
            )
            &&& e.len() == 0
        },
        Message::ClipboardError(msg) => {
            &&& r == redrawn(
                AppView {
                    notification: Some(NotificationView { message: msg@, is_error: true }),
                    menu_mode: MenuMode::Closed,
                    ..s
                },
            )
            &&& e.len() == 0
        },
        Message::Quit => {
            &&& r == (AppView { should_quit: true, ..s })
            &&& e == seq![EffectView::Quit]
        },
        Message::Resize(h) => {
            &&& r == resized(s, h)
            &&& e.len() == 0
        },
    }
}

/// The notification after a step is the one before, none, or one created at
/// the instant `t`.
pub open spec fn stamped(before: Option<Notification>, after: Option<Notification>, t: Instant) -> bool {
    match after {
        Some(n) => after == before || n.created_at == t,
        None => true,
    }
}

/// What the update function reads from the clock for one message.
pub struct Clock {
    /// The current instant.
    pub now: Instant,
    /// Whole seconds since the last key press.
    pub activity_secs: u64,
    /// Whole seconds since the last container refresh.
    pub refresh_secs: u64,
    /// Whole seconds since the shown notification was created (zero when
    /// there is none).
    pub notification_secs: u64,
}

/// The notification after a tick: dropped once it has outlived its lifetime.
pub open spec fn tick_notification(n: Option<NotificationView>, secs: u64) -> Option<NotificationView> {
    match n {
        Some(v) => if crate::state::expired_after_secs(v.is_error, secs) {
            None
        } else {
            n
        },
        None => None,
    }
}

/// The next state and effects for a message, with the clock readings given.
pub open spec fn update_relation_at(s: AppView, m: Message, c: Clock, r: AppView, e: Seq<EffectView>) -> bool {
    match m {
        Message::KeyPressed(k) => key_step(AppView { last_activity: c.now, ..s }, k.code) == (r, e),
        Message::Tick => {
            &&& r == (AppView { notification: tick_notification(s.notification, c.notification_secs), ..s })
            &&& e == tick_plan(c.activity_secs, c.refresh_secs)
        },
        Message::ContainersLoaded(cs) => {
            &&& r == redrawn(
                AppView {
                    selected_container: if s.selected_container >= cs@.len() && cs@.len() > 0 {
                        (cs@.len() - 1) as usize
                    } else {
                        s.selected_container
                    },
                    containers: cs@,
                    last_refresh: c.now,
                    ..s
                },
            )
            &&& e.len() == 0
        },
        _ => update_relation(s, m, r, e),
    }
}

/// Whatever the clock reads, a step with it is one that `update_relation`
/// allows.
proof fn lemma_clocked_step_allowed(s: AppView, m: Message, c: Clock, r: AppView, e: Seq<EffectView>)
    requires
        update_relation_at(s, m, c, r, e),
    ensures
        update_relation(s, m, r, e),
{
    match m {
        Message::KeyPressed(k) => {
            assert(key_step(AppView { last_activity: c.now, ..s }, k.code) == (r, e));
        },
        Message::Tick => {
            assert(e == tick_plan(c.activity_secs, c.refresh_secs));
        },
        _ => {},
    }
}

/// What a log line leaves alone, down to the instants that the view omits: a
/// line from another stream leaves the whole state as it was, and no line
/// touches the notification.
pub open spec fn log_line_untouched(state: AppState, m: Message, next: AppState) -> bool {
    match m {
        Message::LogReceived { container_id, generation, .. } => if is_current_stream(
            state@,
            container_id@,
            generation,
        ) {
            next.notification == state.notification
        } else {
            next == state
        },
        _ => true,
    }
}

/// The counters that a message adds to must stay within `usize`.
pub open spec fn update_requires(state: AppState, m: Message) -> bool {
    &&& state.wf()
    &&& match m {
        Message::LogReceived { container_id, generation, .. } => is_current_stream(
            state@,
            container_id@,
            generation,
        ) ==> state.logs.total_loaded < usize::MAX,
        Message::HistoricalLogsLoaded { logs, .. } => state.logs.total_loaded + logs@.len()
            <= usize::MAX,
        _ => true,
    }
}

fn handle_key_pressed(state: &mut AppState, key: KeyEvent, t: Instant) -> (effects: Vec<Effect>)
    requires
        old(state).wf(),
    ensures
        stamped(old(state).notification, final(state).notification, t),
        final(state).wf(),
        key_step(AppView { last_activity: t, ..old(state)@ }, key.code) == (final(state)@, effects_view(effects@)),
{
    let ghost s0 = state@;
    state.last_activity = t;
    let ghost s1 = state@;
    assert(s1 == AppView { last_activity: t, ..s0 });
    let effects = if state.search.active {
        handle_search_key(state, key.code, t);
        let effects: Vec<Effect> = Vec::new();
        assert(effects_view(effects@) =~= Seq::<EffectView>::empty());
        effects
    } else if state.numeric_input.active {
        handle_numeric_key(state, key.code, t)
    } else {
        match state.menu_mode {
            MenuMode::DockerOps => handle_docker_ops_menu(state, key.code),
            MenuMode::Clipboard => handle_clipboard_menu(state, key.code),
            MenuMode::Closed => handle_normal_key(state, key.code),
        }
    };
    assert(key_step(AppView { last_activity: t, ..s0 }, key.code) == (
        state@,
        effects_view(effects@),
    ));
    effects
}

fn handle_log_received(state: &mut AppState, container_id: String, generation: u64, content: String)
    requires
        old(state).wf(),
        is_current_stream(old(state)@, container_id@, generation) ==> old(state).logs.total_loaded
            < usize::MAX,
    ensures
        final(state).wf(),
        if is_current_stream(old(state)@, container_id@, generation) {
            &&& exists|entry: LogEntry|
                #[trigger] crate::message::entry_from_raw(content@, entry) && final(state)@
                    == log_appended(old(state)@, entry)
            &&& final(state).notification == old(state).notification
        } else {
            *final(state) == *old(state)
        },
{
    if generation != state.stream_generation {
        return;
    }
    let matches = match &state.current_container_id {
        Some(id) => *id == container_id,
        None => false,
    };
    if !matches {
        return;
    }
    let ghost s = state@;
    let entry = LogEntry::from_raw(content.as_str());
    let ghost e = entry;
    let height = state.logs_panel_height;
    let was_at_bottom = state.logs.is_at_bottom(height);
    state.logs.push(entry);
    if was_at_bottom {
        state.logs.scroll_to_bottom(height);
    }
    match state.transition_state {
        TransitionState::Loading(_) => {
            state.transition_state = TransitionState::Ready;
            state.force_full_redraw = true;
        },
        TransitionState::Ready => {},
    }
    state.needs_redraw = true;
    assert(state@ =~= log_appended(s, e));
}

fn handle_tick(state: &mut AppState, activity_secs: u64, refresh_secs: u64, notification_secs: u64) -> (effects: Vec<
    Effect,
>)
    requires
        old(state).wf(),
    ensures
        final(state).notification == old(state).notification || final(state).notification is None,
        final(state).wf(),
        final(state)@ == (AppView {
            notification: tick_notification(old(state)@.notification, notification_secs),
            ..old(state)@
        }),
        effects_view(effects@) == tick_plan(activity_secs, refresh_secs),
{
    let ghost s = state@;
    let expired = match &state.notification {
        Some(n) => n.expired_after(notification_secs),
        None => false,
    };
    if expired {
        state.notification = None;
    }
    assert(state@ =~= AppView { notification: tick_notification(s.notification, notification_secs), ..s });
    tick_effects(activity_secs, refresh_secs)
}

fn handle_containers_loaded(state: &mut AppState, containers: Vec<Container>, t: Instant)
    requires
        old(state).wf(),
    ensures
        final(state).notification == old(state).notification,
        final(state).wf(),
        final(state)@ == redrawn(
            AppView {
                selected_container: if old(state)@.selected_container >= containers@.len()
                    && containers@.len() > 0 {
                    (containers@.len() - 1) as usize
                } else {
                    old(state)@.selected_container
                },
                containers: containers@,
                last_refresh: t,
                ..old(state)@
            },
        ),
{
    let ghost s = state@;
    let ghost cs = containers;
    let n: usize = containers.len();
    if state.selected_container >= n && n > 0 {
        state.selected_container = n - 1;
    }
    state.containers = containers;
    state.last_refresh = t;
    state.needs_redraw = true;
    assert(state@ =~= redrawn(
        AppView {
            selected_container: state.selected_container,
            containers: cs@,
            last_refresh: state.last_refresh,
            ..s
        },
    ));
}

fn handle_history_loaded(state: &mut AppState, logs: Vec<LogEntry>, has_more: bool, t: Instant)
    requires
        old(state).wf(),
        old(state).logs.total_loaded + logs@.len() <= usize::MAX,
    ensures
        stamped(old(state).notification, final(state).notification, t),
        final(state).wf(),
        update_relation(
            old(state)@,
            Message::HistoricalLogsLoaded { logs, has_more },
            final(state)@,
            Seq::empty(),
        ),
{
    let ghost s = state@;
    let ghost batch = logs@;
    state.logs.prepend(logs);
    state.logs.has_more_history = has_more;
    state.logs.is_loading_more = false;
    if !has_more {
        state.notification = Some(
            Notification::success_at(String::from_str("Reached beginning of logs"), t),
        );
    }
    state.needs_redraw = true;
    assert(state@ =~= redrawn(
        AppView {
            logs: LogsView { has_more_history: has_more, is_loading_more: false, ..s.logs.prepended(batch) },
            notification: if has_more {
                s.notification
            } else {
                Some(NotificationView { message: "Reached beginning of logs"@, is_error: false })
            },
            ..s
        },
    ));
}

fn handle_resize(state: &mut AppState, height: u16)
    requires
        old(state).wf(),
    ensures
        final(state).notification == old(state).notification,
        final(state).wf(),
        update_relation(old(state)@, Message::Resize(height), final(state)@, Seq::empty()),
{
    let ghost s = state@;
    state.viewport_height = height.saturating_sub(6) as usize;
    state.logs_panel_height = height.saturating_sub(8) as usize;
    let max_scroll = state.logs.max_scroll(state.logs_panel_height);
    if state.logs.scroll_position > max_scroll {
        state.logs.scroll_position = max_scroll;
    }
    state.force_full_redraw = true;
    state.needs_redraw = true;
    assert(state@ =~= resized(s, height));
}

/// The state after a resize to `height` rows.
pub open spec fn resized(s: AppView, h: u16) -> AppView {
    let panel = sat_sub(h as int, 8) as usize;
    let max = max_scroll_of(s.logs, panel);
    redrawn(
        AppView {
            viewport_height: sat_sub(h as int, 6) as usize,
            logs_panel_height: panel,
            logs: LogsView {
                scroll_position: if s.logs.scroll_position > max {
                    max
                } else {
                    s.logs.scroll_position
                },
                ..s.logs
            },
            force_full_redraw: true,
            ..s
        },
    )
}

fn handle_notice(state: &mut AppState, message: Message, t: Instant) -> (effects: Vec<Effect>)
    requires
        old(state).wf(),
        message is StatsReceived || message is OperationSuccess || message is OperationError
            || message is ClipboardSuccess || message is ClipboardError || message is Quit,
    ensures
        stamped(old(state).notification, final(state).notification, t),
        final(state).wf(),
        update_relation(old(state)@, message, final(state)@, effects_view(effects@)),
{
    let ghost s = state@;
    let mut effects: Vec<Effect> = Vec::new();
    match message {
        Message::StatsReceived(stats) => {
            state.stats = Some(stats);
            match state.transition_state {
                TransitionState::Loading(_) => {
                    state.transition_state = TransitionState::Ready;
                    state.force_full_redraw = true;
                },
                TransitionState::Ready => {},
            }
            state.needs_redraw = true;
            assert(state@ =~= redrawn(transition_done(AppView { stats: Some(stats), ..s })));
        },
        Message::OperationSuccess(msg) => {
            state.notification = Some(Notification::success_at(msg, t));
            effects.push(Effect::LoadContainers);
            state.needs_redraw = true;
            assert(effects_view(effects@) =~= seq![EffectView::LoadContainers]);
        },
        Message::OperationError(msg) => {
            state.notification = Some(Notification::error_at(msg, t));
            state.needs_redraw = true;
        },
        Message::ClipboardSuccess(msg) => {
            state.notification = Some(Notification::success_at(msg, t));
            state.menu_mode = MenuMode::Closed;
            state.needs_redraw = true;
        },
        Message::ClipboardError(msg) => {
            state.notification = Some(Notification::error_at(msg, t));
            state.menu_mode = MenuMode::Closed;
            state.needs_redraw = true;
        },
        _ => {
            state.should_quit = true;
            effects.push(Effect::Quit);
            assert(effects_view(effects@) =~= seq![EffectView::Quit]);
        },
    }
    effects
}

/// The state transition for one message, with the clock readings given: the
/// next state and the effects to run. It reads nothing itself: the
/// notifications it creates are stamped with `clock.now`.
pub fn update_at(state: AppState, message: Message, clock: Clock) -> (r: (AppState, Vec<Effect>))
    requires
        update_requires(state, message),
    ensures
        r.0.wf(),
        update_relation_at(state@, message, clock, r.0@, effects_view(r.1@)),
        log_line_untouched(state, message, r.0),
        stamped(state.notification, r.0.notification, clock.now),
{
    let mut state = state;
    let effects = match message {
        Message::KeyPressed(key) => handle_key_pressed(&mut state, key, clock.now),
        Message::Tick => handle_tick(&mut state, clock.activity_secs, clock.refresh_secs, clock.notification_secs),
        Message::ContainersLoaded(containers) => {
            handle_containers_loaded(&mut state, containers, clock.now);
            no_effects()
        },
        Message::LogReceived { container_id, generation, content } => {
            handle_log_received(&mut state, container_id, generation, content);
            no_effects()
        },
        Message::HistoricalLogsLoaded { logs, has_more } => {
            handle_history_loaded(&mut state, logs, has_more, clock.now);
            no_effects()
        },
        Message::Resize(height) => {
            handle_resize(&mut state, height);
            no_effects()
        },
        other => handle_notice(&mut state, other, clock.now),
    };
    (state, effects)
}

/// The clock readings for the next message: the current instant and the
/// seconds elapsed since the instants that the state records. Without a
/// notification there is nothing to time, and its age reads zero.
fn read_clock(state: &AppState) -> (r: Clock)
    ensures
        state.notification is None ==> r.notification_secs == 0,
{
    let now = now();
    let activity_secs = elapsed_secs(&state.last_activity);
    let refresh_secs = elapsed_secs(&state.last_refresh);
    let notification_secs = match &state.notification {
        Some(n) => elapsed_secs(&n.created_at),
        None => 0,
    };
    Clock { now, activity_secs, refresh_secs, notification_secs }
}

/// Pure state transition: the next state and the effects to run for one
/// message, reading the clock for the key press, tick and refresh times.
pub fn update(state: AppState, message: Message) -> (r: (AppState, Vec<Effect>))
    requires
        update_requires(state, message),
    ensures
        r.0.wf(),
        update_relation(state@, message, r.0@, effects_view(r.1@)),
        log_line_untouched(state, message, r.0),
{
    let clock = read_clock(&state);
    let ghost c = clock;
    let ghost s = state@;
    let ghost m = message;
    let r = update_at(state, message, clock);
    proof {
        lemma_clocked_step_allowed(s, m, c, r.0@, effects_view(r.1@));
    }
    r
}

fn no_effects() -> (r: Vec<Effect>)
    ensures
        effects_view(r@) == Seq::<EffectView>::empty(),
{
    let r: Vec<Effect> = Vec::new();
    assert(effects_view(r@) =~= Seq::<EffectView>::empty());
    r
}

} // verus!
