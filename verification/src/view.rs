//! Decisions behind the rendering: labels, the highlighted segments of a log
//! line, panel titles, help texts and overlay geometry. Drawing itself is
//! done by the terminal front end.
use vstd::prelude::*;
use vstd::string::*;
use vstd::utf8::{is_char_boundary, is_continuation_byte, length_of_first_scalar, pop_first_scalar, valid_first_scalar, valid_utf8};
use crate::docker::ContainerState;
use crate::message::LogLevel;
use crate::state::{AppState, MenuMode, NavigationMode, TransitionState};
use crate::text::{ascii_upper_byte, ascii_uppercase, push_decimal, push_str};

verus! {

/// Short upper-case label of a level (used in the filter indicator).
pub open spec fn level_label_spec(level: LogLevel) -> Seq<char> {
    match level {
        LogLevel::Error => "ERROR"@,
        LogLevel::Warn => "WARN"@,
        LogLevel::Info => "INFO"@,
        LogLevel::Debug => "DEBUG"@,
        LogLevel::Trace => "TRACE"@,
        LogLevel::Unknown => "UNKNOWN"@,
    }
}

pub fn level_label(level: LogLevel) -> (r: &'static str)
    ensures
        r@ == level_label_spec(level),
{
    match level {
        LogLevel::Error => "ERROR",
        LogLevel::Warn => "WARN",
        LogLevel::Info => "INFO",
        LogLevel::Debug => "DEBUG",
        LogLevel::Trace => "TRACE",
        LogLevel::Unknown => "UNKNOWN",
    }
}

// ---------------------------------------------------------------------------
// Search highlighting
// ---------------------------------------------------------------------------

/// A run of bytes `start..end` of a line, highlighted or not.
#[derive(Debug, Clone, Copy, PartialEq, Eq, Structural)]
pub struct Segment {
    pub start: usize,
    pub end: usize,
    pub highlighted: bool,
}

/// The segments of a line for a non-empty needle `n`: they cover the line's
/// bytes `h` in order without gaps; a highlighted segment is one occurrence
/// of the needle (ignoring ASCII case); a plain segment is non-empty and no
/// occurrence starts inside it; no two plain segments are adjacent. This is
/// the left-to-right greedy choice of non-overlapping occurrences.
pub open spec fn segments_ok(h: Seq<u8>, n: Seq<u8>, segs: Seq<Segment>, upto: int) -> bool {
    &&& segs.len() == 0 ==> upto == 0
    &&& segs.len() > 0 ==> segs[0].start == 0 && segs.last().end == upto
    &&& forall|k: int| 0 <= k < segs.len() - 1 ==> #[trigger] segs[k].end == segs[k + 1].start
    &&& forall|k: int|
        0 <= k < segs.len() - 1 ==> !(!#[trigger] segs[k].highlighted && !segs[k + 1].highlighted)
    &&& forall|k: int|
        0 <= k < segs.len() ==> {
            let g = #[trigger] segs[k];
            &&& g.start < g.end
            &&& g.highlighted ==> g.end == g.start + n.len() && crate::text::window_matches(
                h,
                n,
                g.start as int,
            )
            &&& !g.highlighted ==> forall|p: int|
                g.start <= p < g.end ==> !#[trigger] crate::text::window_matches(h, n, p)
        }
}

/// Bytes taken by the UTF-8 character whose encoding starts with `b`.
pub open spec fn char_width(b: u8) -> int {
    if b <= 0x7f {
        1
    } else if 0xc0 <= b <= 0xdf {
        2
    } else if 0xe0 <= b <= 0xef {
        3
    } else {
        4
    }
}

/// Every segment starts and ends on a character boundary of `h`, so the
/// text can be sliced at the segments' offsets.
pub open spec fn on_char_boundaries(h: Seq<u8>, segs: Seq<Segment>) -> bool {
    forall|k: int|
        0 <= k < segs.len() ==> is_char_boundary(h, #[trigger] segs[k].start as int)
            && is_char_boundary(h, segs[k].end as int)
}

/// From a character boundary inside valid UTF-8, the character there ends
/// on the next boundary.
proof fn lemma_next_boundary(b: Seq<u8>, p: int)
    requires
        valid_utf8(b),
        0 <= p < b.len(),
        is_char_boundary(b, p),
    ensures
        !is_continuation_byte(b[p]),
        p + char_width(b[p]) <= b.len(),
        is_char_boundary(b, p + char_width(b[p])),
{
    let g = b.subrange(p, b.len() as int);
    vstd::utf8::valid_utf8_split(b, p);
    assert(valid_first_scalar(g));
    assert(g[0] == b[p]);
    let w = char_width(b[p]);
    assert(length_of_first_scalar(g) == w);
    let rest = pop_first_scalar(g);
    assert(valid_utf8(rest));
    if p + w < b.len() {
        assert(valid_first_scalar(rest));
        assert(rest[0] == b[p + w]);
        vstd::utf8::is_char_boundary_iff_not_is_continuation_byte(b, p + w);
    } else {
        vstd::utf8::is_char_boundary_start_end_of_seq(b);
    }
    vstd::utf8::is_char_boundary_iff_not_is_continuation_byte(b, p);
}

/// Walking an occurrence of valid UTF-8 `n` in `h` character by character:
/// the boundaries of the needle are boundaries of the haystack, up to the
/// occurrence's end.
proof fn lemma_walk_occurrence(h: Seq<u8>, n: Seq<u8>, i: int, d: int)
    requires
        valid_utf8(h),
        valid_utf8(n),
        crate::text::window_matches(h, n, i),
        0 <= d <= n.len(),
        is_char_boundary(n, d),
        is_char_boundary(h, i + d),
    ensures
        is_char_boundary(h, i + n.len()),
    decreases n.len() - d,
{
    if d < n.len() {
        lemma_next_boundary(n, d);
        assert(crate::text::upper_byte(h[i + d]) == n[d]);
        assert(char_width(h[i + d]) == char_width(n[d]));
        lemma_next_boundary(h, i + d);
        lemma_walk_occurrence(h, n, i, d + char_width(n[d]));
    }
}

/// An occurrence of valid UTF-8 in valid UTF-8 (ignoring ASCII case) starts
/// and ends on character boundaries.
proof fn lemma_occurrence_boundaries(h: Seq<u8>, n: Seq<u8>, i: int)
    requires
        valid_utf8(h),
        valid_utf8(n),
        n.len() > 0,
        crate::text::window_matches(h, n, i),
    ensures
        is_char_boundary(h, i),
        is_char_boundary(h, i + n.len()),
{
    vstd::utf8::is_char_boundary_start_end_of_seq(n);
    vstd::utf8::is_char_boundary_iff_not_is_continuation_byte(n, 0);
    assert(crate::text::upper_byte(h[i + 0]) == n[0]);
    assert(h[i + 0] == h[i]);
    vstd::utf8::is_char_boundary_iff_not_is_continuation_byte(h, i);
    lemma_walk_occurrence(h, n, i, 0);
}

/// The segments of valid UTF-8 text split at occurrences of a valid UTF-8
/// needle lie on character boundaries.
proof fn lemma_segments_on_boundaries(h: Seq<u8>, n: Seq<u8>, segs: Seq<Segment>)
    requires
        valid_utf8(h),
        valid_utf8(n),
        n.len() > 0,
        segments_ok(h, n, segs, h.len() as int),
    ensures
        on_char_boundaries(h, segs),
{
    vstd::utf8::is_char_boundary_start_end_of_seq(h);
    assert forall|k: int| 0 <= k < segs.len() implies is_char_boundary(h, #[trigger] segs[k].start as int)
        && is_char_boundary(h, segs[k].end as int) by {
        let g = segs[k];
        if g.highlighted {
            lemma_occurrence_boundaries(h, n, g.start as int);
        } else {
            if k > 0 {
                let f = segs[k - 1];
                assert(f.end == segs[(k - 1) + 1].start);
                assert(f.highlighted);
                lemma_occurrence_boundaries(h, n, f.start as int);
            }
            if k < segs.len() - 1 {
                let f = segs[k + 1];
                assert(segs[k].end == f.start);
                assert(f.highlighted);
                lemma_occurrence_boundaries(h, n, f.start as int);
            }
        }
    }
}

fn push_plain(segs: &mut Vec<Segment>, start: usize, end: usize)
    requires
        start < end,
    ensures
        final(segs)@ == old(segs)@.push(Segment { start, end, highlighted: false }),
{
    segs.push(Segment { start, end, highlighted: false });
}

/// Split a line into highlighted occurrences of `needle_upper` (ASCII
/// case-insensitively) and the plain text between them. With an empty needle
/// the whole line is one plain segment (none for an empty line).
pub fn highlight_segments(content: &str, needle_upper: &str) -> (r: Vec<Segment>)
    ensures
        needle_upper.spec_bytes().len() > 0 ==> segments_ok(
            content.spec_bytes(),
            needle_upper.spec_bytes(),
            r@,
            content.spec_bytes().len() as int,
        ),
        needle_upper.spec_bytes().len() == 0 && content.spec_bytes().len() > 0 ==> r@ == seq![
            Segment { start: 0, end: content.spec_bytes().len() as usize, highlighted: false },
        ],
        needle_upper.spec_bytes().len() == 0 && content.spec_bytes().len() == 0 ==> r@.len() == 0,
        on_char_boundaries(content.spec_bytes(), r@),
{
    let bytes = content.as_bytes();
    let nb = needle_upper.as_bytes();
    let len: usize = bytes.len();
    let n: usize = nb.len();
    let ghost h = bytes@;
    let ghost nd = nb@;
    let mut segs: Vec<Segment> = Vec::new();
    let mut seg_start: usize = 0;
    let mut i: usize = 0;
    if n > 0 {
        while n <= len && i <= len - n
            invariant
                bytes@ == h,
                nb@ == nd,
                len == h.len(),
                n == nd.len(),
                n > 0,
                h == content.spec_bytes(),
                nd == needle_upper.spec_bytes(),
                seg_start <= i <= len,
                segments_ok(h, nd, segs@, seg_start as int),
                segs@.len() > 0 ==> segs@.last().highlighted,
                forall|p: int|
                    seg_start <= p < i ==> !#[trigger] crate::text::window_matches(h, nd, p),
            decreases len - i,
        {
            let mut is_match = true;
            let mut j: usize = 0;
            while j < n
                invariant
                    bytes@ == h,
                    nb@ == nd,
                    len == h.len(),
                    n == nd.len(),
                    i + n <= len,
                    j <= n,
                    is_match ==> forall|q: int|
                        0 <= q < j ==> #[trigger] crate::text::upper_byte(h[i + q]) == nd[q],
                    !is_match ==> !crate::text::window_matches(h, nd, i as int),
                decreases n - j,
            {
                if is_match && ascii_upper_byte(bytes[i + j]) != nb[j] {
                    is_match = false;
                    assert(!(crate::text::upper_byte(h[i + j]) == nd[j as int]));
                }
                j += 1;
            }
            if is_match {
                let ghost before = segs@;
                if seg_start < i {
                    push_plain(&mut segs, seg_start, i);
                }
                segs.push(Segment { start: i, end: i + n, highlighted: true });
                proof {
                    assert(crate::text::window_matches(h, nd, i as int));
                    let segs_now = segs@;
                    assert forall|k: int| 0 <= k < segs_now.len() - 1 implies #[trigger] segs_now[k].end
                        == segs_now[k + 1].start by {
                        if k < before.len() - 1 {
                            assert(segs_now[k] == before[k]);
                            assert(segs_now[k + 1] == before[k + 1]);
                        }
                    }
                    assert forall|k: int|
                        0 <= k < segs_now.len() - 1 implies !(!#[trigger] segs_now[k].highlighted
                        && !segs_now[k + 1].highlighted) by {
                        if k < before.len() - 1 {
                            assert(segs_now[k] == before[k]);
                            assert(segs_now[k + 1] == before[k + 1]);
                        }
                    }
                    assert forall|k: int| 0 <= k < segs_now.len() implies {
                        let g = #[trigger] segs_now[k];
                        &&& g.start < g.end
                        &&& g.highlighted ==> g.end == g.start + nd.len()
                            && crate::text::window_matches(h, nd, g.start as int)
                        &&& !g.highlighted ==> forall|p: int|
                            g.start <= p < g.end ==> !#[trigger] crate::text::window_matches(
                                h,
                                nd,
                                p,
                            )
                    } by {
                        if k < before.len() {
                            assert(segs_now[k] == before[k]);
                        }
                    }
                }
                i = i + n;
                seg_start = i;
            } else {
                i += 1;
            }
        }
        proof {
            assert forall|p: int| seg_start <= p < len implies !#[trigger] crate::text::window_matches(
                h,
                nd,
                p,
            ) by {
                if p >= i {
                }
            }
        }
    }
    if seg_start < len {
        let ghost before = segs@;
        push_plain(&mut segs, seg_start, len);
        proof {
            if n > 0 {
                let segs_now = segs@;
                assert forall|k: int| 0 <= k < segs_now.len() - 1 implies #[trigger] segs_now[k].end
                    == segs_now[k + 1].start by {
                    if k < before.len() - 1 {
                        assert(segs_now[k] == before[k]);
                        assert(segs_now[k + 1] == before[k + 1]);
                    }
                }
                assert forall|k: int|
                    0 <= k < segs_now.len() - 1 implies !(!#[trigger] segs_now[k].highlighted
                    && !segs_now[k + 1].highlighted) by {
                    if k < before.len() - 1 {
                        assert(segs_now[k] == before[k]);
                        assert(segs_now[k + 1] == before[k + 1]);
                    }
                }
                assert forall|k: int| 0 <= k < segs_now.len() implies {
                    let g = #[trigger] segs_now[k];
                    &&& g.start < g.end
                    &&& g.highlighted ==> g.end == g.start + nd.len()
                        && crate::text::window_matches(h, nd, g.start as int)
                    &&& !g.highlighted ==> forall|p: int|
                        g.start <= p < g.end ==> !#[trigger] crate::text::window_matches(h, nd, p)
                } by {
                    if k < before.len() {
                        assert(segs_now[k] == before[k]);
                    }
                }
            } else {
                assert(segs@ =~= seq![Segment { start: 0, end: len, highlighted: false }]);
            }
        }
    }
    proof {
        vstd::utf8::encode_utf8_valid_utf8(content@);
        vstd::utf8::encode_utf8_valid_utf8(needle_upper@);
        if n > 0 {
            lemma_segments_on_boundaries(h, nd, segs@);
        } else {
            vstd::utf8::is_char_boundary_start_end_of_seq(h);
        }
    }
    segs
}

// ---------------------------------------------------------------------------
// Titles and help
// ---------------------------------------------------------------------------

/// The search query upper-cased, or nothing when it is empty.
pub fn search_query_upper(state: &AppState) -> (r: Option<String>)
    ensures
        state.search.query@.len() == 0 ==> r is None,
        state.search.query@.len() > 0 ==> (r matches Some(q) && q@ == crate::text::upper_chars(
            state.search.query@,
        )),
{
    if state.search.query.as_str().unicode_len() == 0 {
        None
    } else {
        Some(ascii_uppercase(state.search.query.as_str()))
    }
}

/// Filter indicator for log panel titles: ` [filter:LEVEL]`, or nothing.
pub fn filter_suffix(state: &AppState) -> (r: String)
    ensures
        r@ == (match state.logs.level_filter {
            Some(level) => " [filter:"@ + level_label_spec(level) + "]"@,
            None => Seq::empty(),
        }),
{
    match state.logs.level_filter {
        Some(level) => {
            let mut s = String::new();
            push_str(&mut s, " [filter:");
            push_str(&mut s, level_label(level));
            push_str(&mut s, "]");
            s
        },
        None => String::new(),
    }
}

/// Whether a loading transition is shown.
pub open spec fn is_loading(state: &AppState) -> bool {
    state.transition_state is Loading
}

/// ` ⏳` while older lines or a transition are loading.
pub open spec fn logs_loading_suffix(state: &AppState) -> Seq<char> {
    if state.logs.is_loading_more || is_loading(state) {
        " \u{23f3}"@
    } else {
        Seq::empty()
    }
}

/// Title of the logs panel: the container, the position (1-based) in the
/// filtered lines and their count (at least 1), the filter and the loading
/// indicator; the expanded panel says how to minimise it.
pub open spec fn logs_title_spec(state: &AppState, expanded: bool) -> Seq<char> {
    let filter = match state.logs.level_filter {
        Some(level) => " [filter:"@ + level_label_spec(level) + "]"@,
        None => Seq::empty(),
    };
    let total: nat = if state.logs.filtered_count > 1 { state.logs.filtered_count as nat } else { 1 };
    let head = if expanded { " Logs (Expanded)"@ } else { " Logs"@ };
    let tail = if expanded { " - Press F to minimize "@ } else { " "@ };
    match state@.selected() {
        Some(c) => head + ": "@ + c.name@ + " ["@ + crate::text::decimal(
            (state.logs.scroll_position + 1) as nat,
        ) + "/"@ + crate::text::decimal(total) + "]"@ + filter + logs_loading_suffix(state) + tail,
        None => head + filter + logs_loading_suffix(state) + tail,
    }
}

pub fn logs_title(state: &AppState, expanded: bool) -> (r: String)
    requires
        state.logs.scroll_position < usize::MAX,
    ensures
        r@ == logs_title_spec(state, expanded),
{
    let loading = match state.transition_state {
        TransitionState::Loading(_) => true,
        TransitionState::Ready => false,
    };
    let mut s = String::new();
    if expanded {
        push_str(&mut s, " Logs (Expanded)");
    } else {
        push_str(&mut s, " Logs");
    }
    match state.selected_container() {
        Some(c) => {
            push_str(&mut s, ": ");
            push_str(&mut s, c.name.as_str());
            push_str(&mut s, " [");
            push_decimal(&mut s, (state.logs.scroll_position + 1) as u64);
            push_str(&mut s, "/");
            let total: usize = if state.logs.filtered_count > 1 {
                state.logs.filtered_count
            } else {
                1
            };
            push_decimal(&mut s, total as u64);
            push_str(&mut s, "]");
        },
        None => {},
    }
    let filter = filter_suffix(state);
    push_str(&mut s, filter.as_str());
    if state.logs.is_loading_more || loading {
        push_str(&mut s, " \u{23f3}");
    }
    if expanded {
        push_str(&mut s, " - Press F to minimize ");
    } else {
        push_str(&mut s, " ");
    }
    assert(s@ =~= logs_title_spec(state, expanded));
    s
}

/// Title of the stats panel: the container and the loading indicator.
pub open spec fn stats_title_spec(state: &AppState) -> Seq<char> {
    let suffix = if is_loading(state) { " \u{23f3}"@ } else { Seq::empty() };
    match state@.selected() {
        Some(c) => " Stats: "@ + c.name@ + suffix + " "@,
        None => " Stats"@ + suffix + " "@,
    }
}

pub fn stats_title(state: &AppState) -> (r: String)
    ensures
        r@ == stats_title_spec(state),
{
    let mut s = String::new();
    match state.selected_container() {
        Some(c) => {
            push_str(&mut s, " Stats: ");
            push_str(&mut s, c.name.as_str());
        },
        None => {
            push_str(&mut s, " Stats");
        },
    }
    match state.transition_state {
        TransitionState::Loading(_) => {
            push_str(&mut s, " \u{23f3}");
        },
        TransitionState::Ready => {},
    }
    push_str(&mut s, " ");
    assert(s@ =~= stats_title_spec(state));
    s
}

/// Key help shown in the footer for the open menu or focused panel.
pub fn footer_help(menu: MenuMode, nav: NavigationMode) -> (r: &'static str)
    ensures
        r@ == (match menu {
            MenuMode::DockerOps => "1:Start 2:Stop 3:Restart 4:Pause 5:Unpause 6:Remove | ESC:Close"@,
            MenuMode::Clipboard => "1:Last100 2:Last500 3:Visible 4:FromPos 5:All 6:Export 7:Print | ESC:Close"@,
            MenuMode::Closed => match nav {
                NavigationMode::Containers => "\u{2191}\u{2193}:Select | L:Logs S:Stats | /:Search Tab:Filter | D:Docker C:Copy R:Restart | #:Jump | Q:Quit"@,
                _ => "\u{2191}\u{2193}:Scroll | /:Search n/N:Match Tab:Filter | Home/End \u{2190}:Back F:Expand | Q:Quit"@,
            },
        }),
{
    match menu {
        MenuMode::DockerOps => "1:Start 2:Stop 3:Restart 4:Pause 5:Unpause 6:Remove | ESC:Close",
        MenuMode::Clipboard => "1:Last100 2:Last500 3:Visible 4:FromPos 5:All 6:Export 7:Print | ESC:Close",
        MenuMode::Closed => match nav {
            NavigationMode::Containers => "\u{2191}\u{2193}:Select | L:Logs S:Stats | /:Search Tab:Filter | D:Docker C:Copy R:Restart | #:Jump | Q:Quit",
            _ => "\u{2191}\u{2193}:Scroll | /:Search n/N:Match Tab:Filter | Home/End \u{2190}:Back F:Expand | Q:Quit",
        },
    }
}

/// Symbol shown next to a container for its state.
pub fn status_symbol(state: ContainerState) -> (r: &'static str)
    ensures
        r@ == (match state {
            ContainerState::Running => "\u{25cf}"@,
            ContainerState::Paused => "\u{23f8}"@,
            ContainerState::Stopped => "\u{25cb}"@,
            ContainerState::Dead => "\u{2717}"@,
            ContainerState::Restarting => "\u{21bb}"@,
        }),
{
    match state {
        ContainerState::Running => "\u{25cf}",
        ContainerState::Paused => "\u{23f8}",
        ContainerState::Stopped => "\u{25cb}",
        ContainerState::Dead => "\u{2717}",
        ContainerState::Restarting => "\u{21bb}",
    }
}

// ---------------------------------------------------------------------------
// Byte sizes
// ---------------------------------------------------------------------------

/// Unit in which a byte count is shown.
#[derive(Debug, Clone, Copy, PartialEq, Eq, Structural)]
pub enum ByteUnit {
    Bytes,
    Kilo,
    Mega,
    Giga,
}

/// The largest binary unit (KiB = 1024 bytes) not exceeding the count.
pub fn byte_unit(bytes: u64) -> (r: ByteUnit)
    ensures
        r == (if bytes >= 1073741824 {
            ByteUnit::Giga
        } else if bytes >= 1048576 {
            ByteUnit::Mega
        } else if bytes >= 1024 {
            ByteUnit::Kilo
        } else {
            ByteUnit::Bytes
        }),
{
    let kb: u64 = 1024;
    let mb: u64 = kb * 1024;
    let gb: u64 = mb * 1024;
    if bytes >= gb {
        ByteUnit::Giga
    } else if bytes >= mb {
        ByteUnit::Mega
    } else if bytes >= kb {
        ByteUnit::Kilo
    } else {
        ByteUnit::Bytes
    }
}

/// The divisor of a unit.
pub fn unit_size(unit: ByteUnit) -> (r: u64)
    ensures
        r == (match unit {
            ByteUnit::Bytes => 1u64,
            ByteUnit::Kilo => 1024u64,
            ByteUnit::Mega => 1048576u64,
            ByteUnit::Giga => 1073741824u64,
        }),
{
    match unit {
        ByteUnit::Bytes => 1,
        ByteUnit::Kilo => 1024,
        ByteUnit::Mega => 1048576,
        ByteUnit::Giga => 1073741824,
    }
}

// ---------------------------------------------------------------------------
// Overlay geometry
// ---------------------------------------------------------------------------

/// A screen rectangle.
#[derive(Debug, Clone, Copy, PartialEq, Eq, Structural)]
pub struct Rect {
    pub x: u16,
    pub y: u16,
    pub width: u16,
    pub height: u16,
}

/// A `width` x `height` rectangle centred in `area`, clipped to it.
pub fn centered_rect(width: u16, height: u16, area: Rect) -> (r: Rect)
    requires
        area.x + area.width <= u16::MAX,
        area.y + area.height <= u16::MAX,
    ensures
        r.x == area.x + (if area.width > width { area.width - width } else { 0 }) / 2,
        r.y == area.y + (if area.height > height { area.height - height } else { 0 }) / 2,
        r.width == (if width < area.width { width } else { area.width }),
        r.height == (if height < area.height { height } else { area.height }),
        r.x + r.width <= area.x + area.width,
        r.y + r.height <= area.y + area.height,
{
    let x: u16 = area.width.saturating_sub(width) / 2;
    let y: u16 = area.height.saturating_sub(height) / 2;
    Rect {
        x: area.x + x,
        y: area.y + y,
        width: if width < area.width {
            width
        } else {
            area.width
        },
        height: if height < area.height {
            height
        } else {
            area.height
        },
    }
}

/// The loading box inside a panel: at most 40 x 5, leaving a margin of two
/// columns and one row on each side, centred.
pub fn loading_overlay_rect(area: Rect) -> (r: Rect)
    requires
        area.x + area.width <= u16::MAX,
        area.y + area.height <= u16::MAX,
    ensures
        r.width == crate::state::min(40, crate::state::sat_sub(area.width as int, 4)),
        r.height == crate::state::min(5, crate::state::sat_sub(area.height as int, 2)),
        r.x == area.x + (area.width - r.width) / 2,
        r.y == area.y + (area.height - r.height) / 2,
{
    let w: u16 = if area.width.saturating_sub(4) < 40 {
        area.width.saturating_sub(4)
    } else {
        40
    };
    let h: u16 = if area.height.saturating_sub(2) < 5 {
        area.height.saturating_sub(2)
    } else {
        5
    };
    Rect {
        x: area.x + (area.width - w) / 2,
        y: area.y + (area.height - h) / 2,
        width: w,
        height: h,
    }
}

} // verus!
