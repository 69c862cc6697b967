//! Application state: the log viewer with its level filter, the input modes,
//! notifications, and the whole state that the update function evolves.
use vstd::prelude::*;
use vstd::string::*;
use std::collections::VecDeque;
use std::time::Instant;
use crate::docker::{Container, ContainerState, Stats};
use crate::message::{LogEntry, LogLevel, Timestamp};
use crate::text::{push_char, pop_char, clear_string, parse_usize};

verus! {

// ---------------------------------------------------------------------------
// Time
// ---------------------------------------------------------------------------

#[verifier::external_type_specification]
#[verifier::external_body]
pub struct ExInstant(Instant);

/// The current instant (std `Instant::now`). Nothing is promised of it.
#[verifier::external_body]
pub(crate) fn now() -> Instant {
    Instant::now()
}

/// Whole seconds elapsed since `t` (std `Instant::elapsed`, then
/// `Duration::as_secs`). It depends on the clock: nothing is promised of it.
#[verifier::external_body]
pub(crate) fn elapsed_secs(t: &Instant) -> u64 {
    t.elapsed().as_secs()
}

// ---------------------------------------------------------------------------
// Modes
// ---------------------------------------------------------------------------

/// Which panel is displayed.
#[derive(Debug, Clone, Copy, PartialEq, Eq, Structural)]
pub enum ViewMode {
    Logs,
    Stats,
    LogsExpanded,
}

/// Which panel has focus.
#[derive(Debug, Clone, Copy, PartialEq, Eq, Structural)]
pub enum NavigationMode {
    Containers,
    Logs,
    Stats,
}

/// Which overlay menu is open.
#[derive(Debug, Clone, Copy, PartialEq, Eq, Structural)]
pub enum MenuMode {
    Closed,
    DockerOps,
    Clipboard,
}

/// Loading feedback during view and container switches.
#[derive(Debug)]
pub enum TransitionState {
    Loading(String),
    Ready,
}

#[verifier::ext_equal]
pub enum TransitionView {
    Loading(Seq<char>),
    Ready,
}

impl View for TransitionState {
    type V = TransitionView;

    open spec fn view(&self) -> TransitionView {
        match self {
            TransitionState::Loading(m) => TransitionView::Loading(m@),
            TransitionState::Ready => TransitionView::Ready,
        }
    }
}

impl Default for TransitionState {
    fn default() -> (r: Self)
        ensures
            r@ == TransitionView::Ready,
    {
        TransitionState::Ready
    }
}

// ---------------------------------------------------------------------------
// Notifications
// ---------------------------------------------------------------------------

/// A temporary message in the footer.
#[derive(Debug)]
pub struct Notification {
    pub message: String,
    pub is_error: bool,
    pub created_at: Instant,
}

#[verifier::ext_equal]
/// A notification's text and kind; the creation instant is left out.
pub struct NotificationView {
    pub message: Seq<char>,
    pub is_error: bool,
}

impl View for Notification {
    type V = NotificationView;

    open spec fn view(&self) -> NotificationView {
        NotificationView { message: self.message@, is_error: self.is_error }
    }
}

/// A notification has expired once its lifetime has passed.
pub open spec fn expired_after_secs(is_error: bool, secs: u64) -> bool {
    secs >= lifetime_secs(is_error)
}

/// Errors stay five seconds, other notifications two.
pub open spec fn lifetime_secs(is_error: bool) -> u64 {
    if is_error {
        5
    } else {
        2
    }
}

impl Notification {
    /// A success notice created now (the instant is read from the clock).
    pub fn success(message: String) -> (r: Self)
        ensures
            r@ == (NotificationView { message: message@, is_error: false }),
    {
        Notification::success_at(message, now())
    }

    /// An error notice created now (the instant is read from the clock).
    pub fn error(message: String) -> (r: Self)
        ensures
            r@ == (NotificationView { message: message@, is_error: true }),
    {
        Notification::error_at(message, now())
    }

    /// A success notice created at the instant `at`.
    pub fn success_at(message: String, at: Instant) -> (r: Self)
        ensures
            r@ == (NotificationView { message: message@, is_error: false }),
            r.created_at == at,
    {
        Notification { message, is_error: false, created_at: at }
    }

    /// An error notice created at the instant `at`.
    pub fn error_at(message: String, at: Instant) -> (r: Self)
        ensures
            r@ == (NotificationView { message: message@, is_error: true }),
            r.created_at == at,
    {
        Notification { message, is_error: true, created_at: at }
    }

    /// Whether the notification has expired once `secs` seconds have passed
    /// since it was created.
    pub fn expired_after(&self, secs: u64) -> (r: bool)
        ensures
            r == expired_after_secs(self.is_error, secs),
    {
        let duration: u64 = if self.is_error {
            5
        } else {
            2
        };
        secs >= duration
    }

    /// Whether the notification has expired by now.
    pub fn is_expired(&self) -> (r: bool)
        ensures
            exists|secs: u64| r == #[trigger] expired_after_secs(self.is_error, secs),
    {
        let secs = elapsed_secs(&self.created_at);
        self.expired_after(secs)
    }
}

// ---------------------------------------------------------------------------
// The log viewer
// ---------------------------------------------------------------------------

/// Whether an entry passes the filter (`None` lets everything through).
pub open spec fn passes(filter: Option<LogLevel>, e: LogEntry) -> bool {
    match filter {
        Some(level) => e.level == level,
        None => true,
    }
}

/// The entries that pass the filter, in order.
pub open spec fn visible(s: Seq<LogEntry>, filter: Option<LogLevel>) -> Seq<LogEntry>
    decreases s.len(),
{
    if s.len() == 0 {
        Seq::empty()
    } else if passes(filter, s.last()) {
        visible(s.drop_last(), filter).push(s.last())
    } else {
        visible(s.drop_last(), filter)
    }
}

pub proof fn lemma_visible_concat(a: Seq<LogEntry>, b: Seq<LogEntry>, f: Option<LogLevel>)
    ensures
        visible(a + b, f) == visible(a, f) + visible(b, f),
    decreases b.len(),
{
    if b.len() == 0 {
        assert(a + b =~= a);
        assert(visible(a, f) + visible(b, f) =~= visible(a, f));
    } else {
        assert((a + b).drop_last() =~= a + b.drop_last());
        assert((a + b).last() == b.last());
        lemma_visible_concat(a, b.drop_last(), f);
        if passes(f, b.last()) {
            assert(visible(a + b, f) =~= visible(a, f) + visible(b, f));
        } else {
            assert(visible(a + b, f) =~= visible(a, f) + visible(b, f));
        }
    }
}

pub proof fn lemma_visible_len(s: Seq<LogEntry>, f: Option<LogLevel>)
    ensures
        visible(s, f).len() <= s.len(),
    decreases s.len(),
{
    if s.len() > 0 {
        lemma_visible_len(s.drop_last(), f);
    }
}

pub proof fn lemma_visible_all(s: Seq<LogEntry>)
    ensures
        visible(s, None) == s,
    decreases s.len(),
{
    if s.len() > 0 {
        lemma_visible_all(s.drop_last());
        assert(s.drop_last().push(s.last()) =~= s);
    }
}

proof fn lemma_visible_single(e: LogEntry, f: Option<LogLevel>)
    ensures
        visible(seq![e], f) == (if passes(f, e) {
            seq![e]
        } else {
            Seq::<LogEntry>::empty()
        }),
{
    reveal_with_fuel(visible, 2);
    assert(seq![e].drop_last() =~= Seq::<LogEntry>::empty());
    assert(Seq::<LogEntry>::empty().push(e) =~= seq![e]);
}

proof fn lemma_visible_drop_first(s: Seq<LogEntry>, f: Option<LogLevel>)
    requires
        s.len() > 0,
    ensures
        visible(s, f).len() == visible(s.drop_first(), f).len() + (if passes(f, s[0]) {
            1int
        } else {
            0int
        }),
{
    assert(s =~= seq![s[0]] + s.drop_first());
    lemma_visible_concat(seq![s[0]], s.drop_first(), f);
    lemma_visible_single(s[0], f);
}

/// Drops the oldest entries beyond `cap`.
pub open spec fn trim_front(s: Seq<LogEntry>, cap: usize) -> Seq<LogEntry> {
    if s.len() > cap {
        s.skip(s.len() - cap)
    } else {
        s
    }
}

/// Drops the newest entries beyond `cap`.
pub open spec fn trim_back(s: Seq<LogEntry>, cap: usize) -> Seq<LogEntry> {
    if s.len() > cap {
        s.take(cap as int)
    } else {
        s
    }
}

pub open spec fn sat_sub(a: int, b: int) -> int {
    if a > b {
        a - b
    } else {
        0
    }
}

/// State of the logs viewer.
#[derive(Debug)]
pub struct LogsState {
    /// The log entries, newest at the end.
    pub entries: VecDeque<LogEntry>,
    /// Scroll position in filtered-index space (0 = top).
    pub scroll_position: usize,
    /// Whether older log lines are being loaded.
    pub is_loading_more: bool,
    /// Whether older log lines may still be available.
    pub has_more_history: bool,
    /// The oldest timestamp loaded (for pagination).
    pub oldest_timestamp: Option<Timestamp>,
    /// Total lines loaded.
    pub total_loaded: usize,
    /// Maximum number of entries kept.
    pub capacity: usize,
    /// Active level filter; `None` shows every line. After changing it,
    /// `recount_filtered` brings `filtered_count` back in line.
    pub level_filter: Option<LogLevel>,
    /// Number of entries passing `level_filter`, kept up to date by every
    /// method so that `filtered_len` is O(1).
    pub filtered_count: usize,
}

/// The logs state without its cached count.
#[verifier::ext_equal]
pub struct LogsView {
    pub entries: Seq<LogEntry>,
    pub scroll_position: usize,
    pub is_loading_more: bool,
    pub has_more_history: bool,
    pub oldest_timestamp: Option<Timestamp>,
    pub total_loaded: usize,
    pub capacity: usize,
    pub level_filter: Option<LogLevel>,
}

impl View for LogsState {
    type V = LogsView;

    open spec fn view(&self) -> LogsView {
        LogsView {
            entries: self.entries@,
            scroll_position: self.scroll_position,
            is_loading_more: self.is_loading_more,
            has_more_history: self.has_more_history,
            oldest_timestamp: self.oldest_timestamp,
            total_loaded: self.total_loaded,
            capacity: self.capacity,
            level_filter: self.level_filter,
        }
    }
}

impl LogsView {
    /// The entries that the active filter lets through.
    pub open spec fn shown(self) -> Seq<LogEntry> {
        visible(self.entries, self.level_filter)
    }

    /// The view after `clear`.
    pub open spec fn cleared(self) -> LogsView {
        LogsView {
            entries: Seq::empty(),
            scroll_position: 0,
            is_loading_more: false,
            has_more_history: true,
            oldest_timestamp: None,
            total_loaded: 0,
            ..self
        }
    }

    /// The view after `push(e)`.
    pub open spec fn pushed(self, e: LogEntry) -> LogsView {
        LogsView {
            entries: trim_front(self.entries.push(e), self.capacity),
            oldest_timestamp: if self.entries.len() == 0 {
                e.timestamp
            } else {
                self.oldest_timestamp
            },
            total_loaded: (self.total_loaded + 1) as usize,
            ..self
        }
    }

    /// The oldest timestamp after a batch whose first entry carries `first`.
    pub open spec fn oldest_after(self, first: Option<Timestamp>) -> Option<Timestamp> {
        match first {
            Some(ts) => match self.oldest_timestamp {
                Some(existing) => if ts.earlier(existing) {
                    Some(ts)
                } else {
                    self.oldest_timestamp
                },
                None => Some(ts),
            },
            None => self.oldest_timestamp,
        }
    }

    /// The view after `prepend(batch)`: the batch goes in front, the newest
    /// entries beyond capacity are dropped, and the scroll position moves down
    /// by the number of batch entries that the filter shows.
    pub open spec fn prepended(self, batch: Seq<LogEntry>) -> LogsView {
        if batch.len() == 0 {
            self
        } else {
            LogsView {
                entries: trim_back(batch + self.entries, self.capacity),
                oldest_timestamp: self.oldest_after(batch[0].timestamp),
                total_loaded: (self.total_loaded + batch.len()) as usize,
                scroll_position: crate::state::sat_add(
                    self.scroll_position,
                    visible(batch, self.level_filter).len(),
                ),
                ..self
            }
        }
    }
}

/// Addition that stops at `usize::MAX`.
pub open spec fn sat_add(a: usize, b: nat) -> usize {
    if a + b > usize::MAX {
        usize::MAX
    } else {
        (a + b) as usize
    }
}

fn entry_passes(filter: Option<LogLevel>, e: &LogEntry) -> (r: bool)
    ensures
        r == passes(filter, *e),
{
    match filter {
        Some(level) => e.level == level,
        None => true,
    }
}

impl Default for LogsState {
    fn default() -> (r: Self)
        ensures
            r.wf(),
            r@.entries.len() == 0,
            r@.scroll_position == 0,
            !r@.is_loading_more,
            r@.has_more_history,
            r@.oldest_timestamp is None,
            r@.total_loaded == 0,
            r@.capacity == 10000,
            r@.level_filter is None,
    {
        LogsState {
            entries: VecDeque::with_capacity(10000),
            scroll_position: 0,
            is_loading_more: false,
            has_more_history: true,
            oldest_timestamp: None,
            total_loaded: 0,
            capacity: 10000,
            level_filter: None,
            filtered_count: 0,
        }
    }
}

impl LogsState {
    /// The cached count matches the entries that pass the filter.
    pub open spec fn wf(&self) -> bool {
        self.filtered_count == visible(self.entries@, self.level_filter).len()
    }

    /// Clear all logs and reset the paging state.
    pub fn clear(&mut self)
        ensures
            final(self).wf(),
            final(self)@ == old(self)@.cleared(),
    {
        self.entries.clear();
        self.scroll_position = 0;
        self.is_loading_more = false;
        self.has_more_history = true;
        self.oldest_timestamp = None;
        self.total_loaded = 0;
        self.filtered_count = 0;
    }

    /// Push a new entry at the end, dropping the oldest beyond capacity.
    pub fn push(&mut self, entry: LogEntry)
        requires
            old(self).wf(),
            old(self).total_loaded < usize::MAX,
        ensures
            final(self).wf(),
            final(self)@ == old(self)@.pushed(entry),
    {
        if self.entries.len() == 0 {
            self.oldest_timestamp = entry.timestamp;
        }
        let filter = self.level_filter;
        let pass = entry_passes(filter, &entry);
        let ghost e = entry;
        self.entries.push_back(entry);
        proof {
            lemma_visible_len(old(self).entries@, filter);
            assert(self.entries@.drop_last() =~= old(self).entries@);
        }
        let _n: usize = self.entries.len();
        if pass {
            self.filtered_count += 1;
        }
        self.total_loaded += 1;
        let ghost full = self.entries@;
        let ghost pre = self@;
        while self.entries.len() > self.capacity
            invariant
                self.level_filter == filter,
                self@ == (LogsView { entries: self.entries@, ..pre }),
                self.filtered_count == visible(self.entries@, filter).len(),
                full.len() >= self.entries@.len(),
                self.entries@.len() >= crate::state::min(full.len() as int, self.capacity as int),
                self.entries@ == full.skip(full.len() - self.entries@.len()),
                full == old(self).entries@.push(e),
            decreases self.entries@.len(),
        {
            let ghost before = self.entries@;
            match self.entries.pop_front() {
                Some(removed) => {
                    proof {
                        lemma_visible_drop_first(before, filter);
                        assert(self.entries@ =~= before.drop_first());
                        assert(self.entries@ =~= full.skip(full.len() - self.entries@.len()));
                    }
                    if entry_passes(filter, &removed) {
                        self.filtered_count = self.filtered_count.saturating_sub(1);
                    }
                },
                None => {},
            }
        }
        assert(self.entries@ =~= trim_front(full, self.capacity)) by {
            if full.len() <= self.capacity {
                assert(full.skip(0) =~= full);
            }
        }
    }

    /// Prepend older entries (for infinite scroll); the batch arrives oldest
    /// first and ends up in front in that order.
    pub fn prepend(&mut self, entries: Vec<LogEntry>)
        requires
            old(self).wf(),
            old(self).total_loaded + entries@.len() <= usize::MAX,
        ensures
            final(self).wf(),
            final(self)@ == old(self)@.prepended(entries@),
    {
        if entries.len() == 0 {
            return;
        }
        let count: usize = entries.len();
        let filter = self.level_filter;
        let ghost batch = entries@;
        // Number of new entries visible under the active filter.
        let mut visible_added: usize = 0;
        let mut i: usize = 0;
        while i < count
            invariant
                count == batch.len(),
                entries@ == batch,
                i <= count,
                visible_added == visible(batch.take(i as int), filter).len(),
                visible_added <= i,
            decreases count - i,
        {
            proof {
                assert(batch.take(i + 1).drop_last() =~= batch.take(i as int));
            }
            if entry_passes(filter, &entries[i]) {
                visible_added += 1;
            }
            i += 1;
        }
        assert(batch.take(count as int) =~= batch);
        let batch_oldest = entries[0].timestamp;
        match batch_oldest {
            Some(ts) => match self.oldest_timestamp {
                Some(existing) => {
                    if ts.is_earlier(&existing) {
                        self.oldest_timestamp = Some(ts);
                    }
                },
                None => {
                    self.oldest_timestamp = Some(ts);
                },
            },
            None => {},
        }
        let ghost old_entries = self.entries@;
        let ghost pre = self@;
        let ghost pre_count = self.filtered_count;
        let mut rest = entries;
        while rest.len() > 0
            invariant
                self.entries@ == batch.skip(rest@.len() as int) + old_entries,
                rest@ == batch.take(rest@.len() as int),
                rest@.len() <= batch.len(),
                self.level_filter == filter,
                self@ == (LogsView { entries: self.entries@, ..pre }),
                self.filtered_count == pre_count,
            decreases rest@.len(),
        {
            let ghost k = rest@.len();
            match rest.pop() {
                Some(e) => {
                    self.entries.push_front(e);
                    assert(self.entries@ =~= batch.skip(rest@.len() as int) + old_entries);
                    assert(rest@ =~= batch.take(rest@.len() as int));
                },
                None => {},
            }
        }
        assert(batch.skip(0) =~= batch);
        proof {
            lemma_visible_concat(batch, old_entries, filter);
            lemma_visible_len(self.entries@, filter);
        }
        let _n: usize = self.entries.len();
        self.filtered_count = self.filtered_count + visible_added;
        self.total_loaded += count;
        let ghost full = self.entries@;
        let ghost pre2 = self@;
        while self.entries.len() > self.capacity
            invariant
                self.level_filter == filter,
                self@ == (LogsView { entries: self.entries@, ..pre2 }),
                self.filtered_count == visible(self.entries@, filter).len(),
                full.len() >= self.entries@.len(),
                self.entries@.len() >= crate::state::min(full.len() as int, self.capacity as int),
                self.entries@ == full.take(self.entries@.len() as int),
            decreases self.entries@.len(),
        {
            let ghost before = self.entries@;
            match self.entries.pop_back() {
                Some(removed) => {
                    assert(self.entries@ =~= before.drop_last());
                    assert(self.entries@ =~= full.take(self.entries@.len() as int));
                    if entry_passes(filter, &removed) {
                        self.filtered_count = self.filtered_count.saturating_sub(1);
                    }
                },
                None => {},
            }
        }
        assert(self.entries@ =~= trim_back(full, self.capacity)) by {
            if full.len() <= self.capacity {
                assert(full.take(full.len() as int) =~= full);
            }
        }
        self.scroll_position = self.scroll_position.saturating_add(visible_added);
    }

    /// The entries that pass the active level filter, in order.
    pub fn filtered_entries(&self) -> (r: Vec<&LogEntry>)
        ensures
            r@.unref() == self@.shown(),
    {
        let filter = self.level_filter;
        let n: usize = self.entries.len();
        let mut out: Vec<&LogEntry> = Vec::new();
        let mut i: usize = 0;
        while i < n
            invariant
                n == self.entries@.len(),
                i <= n,
                filter == self.level_filter,
                out@.unref() == visible(self.entries@.take(i as int), filter),
            decreases n - i,
        {
            let e = &self.entries[i];
            proof {
                assert(self.entries@.take(i + 1).drop_last() =~= self.entries@.take(i as int));
            }
            if entry_passes(filter, e) {
                out.push(e);
            }
            assert(out@.unref() =~= visible(self.entries@.take(i + 1), filter));
            i += 1;
        }
        assert(self.entries@.take(n as int) =~= self.entries@);
        out
    }

    /// Number of entries shown under the active filter (the cached count).
    pub fn filtered_len(&self) -> (r: usize)
        ensures
            r == self.filtered_count,
            self.wf() ==> r == self@.shown().len(),
    {
        self.filtered_count
    }

    /// Rebuild the cached count from scratch; called after the filter changes.
    pub fn recount_filtered(&mut self)
        ensures
            final(self).wf(),
            final(self)@ == old(self)@,
    {
        let filter = self.level_filter;
        let n: usize = self.entries.len();
        let mut c: usize = 0;
        let mut i: usize = 0;
        while i < n
            invariant
                n == self.entries@.len(),
                i <= n,
                filter == self.level_filter,
                c == visible(self.entries@.take(i as int), filter).len(),
                c <= i,
            decreases n - i,
        {
            proof {
                assert(self.entries@.take(i + 1).drop_last() =~= self.entries@.take(i as int));
            }
            if entry_passes(filter, &self.entries[i]) {
                c += 1;
            }
            i += 1;
        }
        assert(self.entries@.take(n as int) =~= self.entries@);
        self.filtered_count = c;
    }

    /// The largest scroll position (in filtered-index space).
    pub fn max_scroll(&self, viewport_height: usize) -> (r: usize)
        ensures
            r == sat_sub(self.filtered_count as int, viewport_height as int),
    {
        self.filtered_count.saturating_sub(viewport_height)
    }

    /// Whether the view is scrolled to the bottom.
    pub fn is_at_bottom(&self, viewport_height: usize) -> (r: bool)
        ensures
            r == (self.scroll_position >= sat_sub(
                self.filtered_count as int,
                viewport_height as int,
            )),
    {
        self.scroll_position >= self.max_scroll(viewport_height)
    }

    /// Scroll to the bottom.
    pub fn scroll_to_bottom(&mut self, viewport_height: usize)
        ensures
            final(self).wf() == old(self).wf(),
            final(self)@ == (LogsView {
                scroll_position: sat_sub(old(self).filtered_count as int, viewport_height as int)
                    as usize,
                ..old(self)@
            }),
    {
        self.scroll_position = self.max_scroll(viewport_height);
    }

    /// The entries on screen: the filtered entries from the scroll position
    /// (kept below the filtered count) on, at most `viewport_height` of them.
    pub fn visible_entries(&self, viewport_height: usize) -> (r: Vec<&LogEntry>)
        ensures
            r@.unref() == window(
                self@.shown(),
                crate::state::min(
                    self.scroll_position as int,
                    sat_sub(self.filtered_count as int, 1),
                ),
                viewport_height as int,
            ),
    {
        let safe: usize = if self.scroll_position < self.filtered_count.saturating_sub(1) {
            self.scroll_position
        } else {
            self.filtered_count.saturating_sub(1)
        };
        let all = self.filtered_entries();
        let n: usize = all.len();
        let mut out: Vec<&LogEntry> = Vec::new();
        if safe >= n {
            return out;
        }
        let end: usize = if viewport_height > n - safe {
            n
        } else {
            safe + viewport_height
        };
        let mut i: usize = safe;
        while i < end
            invariant
                n == all@.len(),
                safe <= i <= end <= n,
                out@ == all@.subrange(safe as int, i as int),
            decreases end - i,
        {
            out.push(all[i]);
            assert(out@ =~= all@.subrange(safe as int, i + 1));
            i += 1;
        }
        assert(out@.unref() =~= all@.unref().subrange(safe as int, end as int));
        out
    }
}

pub open spec fn min(a: int, b: int) -> int {
    if a < b {
        a
    } else {
        b
    }
}

/// At most `count` elements of `s` from position `start` on.
pub open spec fn window<A>(s: Seq<A>, start: int, count: int) -> Seq<A> {
    if start >= s.len() {
        Seq::empty()
    } else {
        s.subrange(start, min(s.len() as int, start + count))
    }
}

// ---------------------------------------------------------------------------
// Numeric input (jump to container N)
// ---------------------------------------------------------------------------

/// State of the numeric input mode.
#[derive(Debug)]
pub struct NumericInputState {
    pub active: bool,
    pub value: String,
}

#[verifier::ext_equal]
pub struct NumericView {
    pub active: bool,
    pub value: Seq<char>,
}

impl View for NumericInputState {
    type V = NumericView;

    open spec fn view(&self) -> NumericView {
        NumericView { active: self.active, value: self.value@ }
    }
}

impl NumericView {
    /// The view after `push(c)`: a digit is appended while the value holds
    /// fewer than three bytes.
    pub open spec fn pushed(self, c: char) -> NumericView {
        if crate::text::is_digit(c) && vstd::utf8::encode_utf8(self.value).len() < 3 {
            NumericView { value: self.value.push(c), ..self }
        } else {
            self
        }
    }

    /// The view after `pop`.
    pub open spec fn popped(self) -> NumericView {
        NumericView {
            value: if self.value.len() > 0 {
                self.value.drop_last()
            } else {
                self.value
            },
            ..self
        }
    }
}

impl Default for NumericInputState {
    fn default() -> (r: Self)
        ensures
            !r@.active,
            r@.value.len() == 0,
    {
        NumericInputState { active: false, value: String::new() }
    }
}

impl NumericInputState {
    pub fn start(&mut self)
        ensures
            final(self)@ == (NumericView { active: true, value: Seq::empty() }),
    {
        self.active = true;
        clear_string(&mut self.value);
    }

    pub fn cancel(&mut self)
        ensures
            final(self)@ == (NumericView { active: false, value: Seq::empty() }),
    {
        self.active = false;
        clear_string(&mut self.value);
    }

    /// Append a digit; input is limited to three bytes.
    pub fn push(&mut self, c: char)
        ensures
            final(self)@ == old(self)@.pushed(c),
    {
        if '0' <= c && c <= '9' && self.value.as_str().as_bytes().len() < 3 {
            push_char(&mut self.value, c);
        }
    }

    pub fn pop(&mut self)
        ensures
            final(self)@ == old(self)@.popped(),
    {
        let _ = pop_char(&mut self.value);
    }

    /// The typed number, as `str::parse::<usize>` reads it.
    pub fn get_value(&self) -> (r: Option<usize>)
        ensures
            r == crate::text::parse_usize_spec(self.value@),
    {
        parse_usize(self.value.as_str())
    }
}

// ---------------------------------------------------------------------------
// In-log search
// ---------------------------------------------------------------------------

/// State of the in-log search.
#[derive(Debug)]
pub struct SearchState {
    /// Whether the search bar is open and capturing keystrokes.
    pub active: bool,
    /// Current query.
    pub query: String,
    /// Positions (in filtered-index space) of entries matching the query.
    pub matches: Vec<usize>,
    /// Index into `matches` of the highlighted match.
    pub current: usize,
}

#[verifier::ext_equal]
pub struct SearchView {
    pub active: bool,
    pub query: Seq<char>,
    pub matches: Seq<usize>,
    pub current: usize,
}

impl View for SearchState {
    type V = SearchView;

    open spec fn view(&self) -> SearchView {
        SearchView {
            active: self.active,
            query: self.query@,
            matches: self.matches@,
            current: self.current,
        }
    }
}

/// The match after `cur`, wrapping around.
pub open spec fn next_match(cur: usize, len: nat) -> usize {
    ((cur + 1) % (len as int)) as usize
}

/// The match before `cur`, wrapping around.
pub open spec fn prev_match(cur: usize, len: nat) -> usize {
    ((cur + len - 1) % (len as int)) as usize
}

impl SearchView {
    pub open spec fn started(self) -> SearchView {
        SearchView { active: true, query: Seq::empty(), matches: Seq::empty(), current: 0 }
    }

    pub open spec fn cancelled(self) -> SearchView {
        SearchView { active: false, query: Seq::empty(), matches: Seq::empty(), current: 0 }
    }

    pub open spec fn popped(self) -> SearchView {
        SearchView {
            query: if self.query.len() > 0 {
                self.query.drop_last()
            } else {
                self.query
            },
            ..self
        }
    }
}

impl Default for SearchState {
    fn default() -> (r: Self)
        ensures
            r@ == (SearchView { active: false, query: Seq::empty(), matches: Seq::empty(), current: 0 }),
    {
        SearchState { active: false, query: String::new(), matches: Vec::new(), current: 0 }
    }
}

impl SearchState {
    /// Open the input bar and reset previous results.
    pub fn start(&mut self)
        ensures
            final(self)@ == old(self)@.started(),
    {
        self.active = true;
        clear_string(&mut self.query);
        self.matches.clear();
        self.current = 0;
    }

    pub fn push(&mut self, c: char)
        ensures
            final(self)@ == (SearchView { query: old(self)@.query.push(c), ..old(self)@ }),
    {
        push_char(&mut self.query, c);
    }

    pub fn pop(&mut self)
        ensures
            final(self)@ == old(self)@.popped(),
    {
        let _ = pop_char(&mut self.query);
    }

    /// Close the bar and drop the query so highlighting stops.
    pub fn cancel(&mut self)
        ensures
            final(self)@ == old(self)@.cancelled(),
    {
        self.active = false;
        clear_string(&mut self.query);
        self.matches.clear();
        self.current = 0;
    }

    /// Advance to the next match, wrapping around; returns its position.
    pub fn next(&mut self) -> (r: Option<usize>)
        ensures
            old(self)@.matches.len() == 0 ==> r is None && final(self)@ == old(self)@,
            old(self)@.matches.len() > 0 ==> {
                let c = next_match(old(self).current, old(self)@.matches.len());
                &&& final(self)@ == (SearchView { current: c, ..old(self)@ })
                &&& r == Some(old(self)@.matches[c as int])
            },
    {
        let len: usize = self.matches.len();
        if len == 0 {
            return None;
        }
        let c: usize = self.current % len;
        self.current = if c + 1 == len {
            0
        } else {
            c + 1
        };
        assert(self.current == next_match(old(self).current, len as nat)) by {
            let cur = old(self).current as int;
            let m = len as int;
            vstd::arithmetic::div_mod::lemma_add_mod_noop_right(1, cur, m);
            if c + 1 < m {
                vstd::arithmetic::div_mod::lemma_small_mod((c + 1) as nat, m as nat);
            } else {
                vstd::arithmetic::div_mod::lemma_mod_self_0(m);
            }
        }
        Some(self.matches[self.current])
    }

    /// Go to the previous match, wrapping around; returns its position.
    pub fn prev(&mut self) -> (r: Option<usize>)
        ensures
            old(self)@.matches.len() == 0 ==> r is None && final(self)@ == old(self)@,
            old(self)@.matches.len() > 0 ==> {
                let c = prev_match(old(self).current, old(self)@.matches.len());
                &&& final(self)@ == (SearchView { current: c, ..old(self)@ })
                &&& r == Some(old(self)@.matches[c as int])
            },
    {
        let len: usize = self.matches.len();
        if len == 0 {
            return None;
        }
        let c: usize = self.current % len;
        self.current = if c == 0 {
            len - 1
        } else {
            c - 1
        };
        assert(self.current == prev_match(old(self).current, len as nat)) by {
            let cur = old(self).current as int;
            let m = len as int;
            vstd::arithmetic::div_mod::lemma_add_mod_noop_right(m - 1, cur, m);
            if c == 0 {
                vstd::arithmetic::div_mod::lemma_small_mod((m - 1) as nat, m as nat);
            } else {
                assert(m - 1 + c == m + (c - 1));
                vstd::arithmetic::div_mod::lemma_mod_add_multiples_vanish(c - 1, m);
                vstd::arithmetic::div_mod::lemma_small_mod((c - 1) as nat, m as nat);
            }
        }
        Some(self.matches[self.current])
    }
}

// ---------------------------------------------------------------------------
// The whole application state
// ---------------------------------------------------------------------------

/// Application state; every change goes through the update function.
#[derive(Debug)]
pub struct AppState {
    pub containers: Vec<Container>,
    pub selected_container: usize,
    pub view_mode: ViewMode,
    pub navigation_mode: NavigationMode,
    pub menu_mode: MenuMode,
    pub logs: LogsState,
    pub stats: Option<Stats>,
    pub numeric_input: NumericInputState,
    pub search: SearchState,
    pub notification: Option<Notification>,
    pub viewport_height: usize,
    /// Height of the logs panel's content (for scroll bounds).
    pub logs_panel_height: usize,
    pub should_quit: bool,
    pub last_refresh: Instant,
    /// Last key press; drives the adaptive tick cadence.
    pub last_activity: Instant,
    /// Incremented on each stream switch; log lines from older streams are
    /// dropped.
    pub stream_generation: u64,
    /// The container whose logs are being streamed.
    pub current_container_id: Option<String>,
    /// Whether the UI needs to be redrawn.
    pub needs_redraw: bool,
    /// Whether the screen must be cleared before the redraw.
    pub force_full_redraw: bool,
    pub transition_state: TransitionState,
}

#[verifier::ext_equal]
pub struct AppView {
    pub containers: Seq<Container>,
    pub selected_container: usize,
    pub view_mode: ViewMode,
    pub navigation_mode: NavigationMode,
    pub menu_mode: MenuMode,
    pub logs: LogsView,
    pub stats: Option<Stats>,
    pub numeric_input: NumericView,
    pub search: SearchView,
    pub notification: Option<NotificationView>,
    pub viewport_height: usize,
    pub logs_panel_height: usize,
    pub should_quit: bool,
    pub last_refresh: Instant,
    pub last_activity: Instant,
    pub stream_generation: u64,
    pub current_container_id: Option<Seq<char>>,
    pub needs_redraw: bool,
    pub force_full_redraw: bool,
    pub transition_state: TransitionView,
}

pub open spec fn notification_view(n: Option<Notification>) -> Option<NotificationView> {
    match n {
        Some(n) => Some(n@),
        None => None,
    }
}

pub open spec fn string_option_view(s: Option<String>) -> Option<Seq<char>> {
    match s {
        Some(s) => Some(s@),
        None => None,
    }
}

impl View for AppState {
    type V = AppView;

    open spec fn view(&self) -> AppView {
        AppView {
            containers: self.containers@,
            selected_container: self.selected_container,
            view_mode: self.view_mode,
            navigation_mode: self.navigation_mode,
            menu_mode: self.menu_mode,
            logs: self.logs@,
            stats: self.stats,
            numeric_input: self.numeric_input@,
            search: self.search@,
            notification: notification_view(self.notification),
            viewport_height: self.viewport_height,
            logs_panel_height: self.logs_panel_height,
            should_quit: self.should_quit,
            last_refresh: self.last_refresh,
            last_activity: self.last_activity,
            stream_generation: self.stream_generation,
            current_container_id: string_option_view(self.current_container_id),
            needs_redraw: self.needs_redraw,
            force_full_redraw: self.force_full_redraw,
            transition_state: self.transition_state@,
        }
    }
}

impl AppState {
    /// The state invariant: the cached filtered count is current.
    pub open spec fn wf(&self) -> bool {
        self.logs.wf()
    }
}

impl AppView {
    /// The selected container, when the selection is in range.
    pub open spec fn selected(self) -> Option<Container> {
        if self.selected_container < self.containers.len() {
            Some(self.containers[self.selected_container as int])
        } else {
            None
        }
    }
}

impl Default for AppState {
    fn default() -> (r: Self)
        ensures
            r.wf(),
            r@.containers.len() == 0,
            r@.selected_container == 0,
            r@.view_mode == ViewMode::Logs,
            r@.navigation_mode == NavigationMode::Containers,
            r@.menu_mode == MenuMode::Closed,
            r@.logs.entries.len() == 0,
            r@.logs.scroll_position == 0,
            r@.logs.capacity == 10000,
            r@.logs.level_filter is None,
            r@.logs.total_loaded == 0,
            r@.stats is None,
            !r@.numeric_input.active,
            !r@.search.active,
            r@.notification is None,
            r@.viewport_height == 20,
            r@.logs_panel_height == 20,
            !r@.should_quit,
            r@.stream_generation == 0,
            r@.current_container_id is None,
            r@.needs_redraw,
            r@.force_full_redraw,
            r@.transition_state == TransitionView::Ready,
    {
        AppState {
            containers: Vec::new(),
            selected_container: 0,
            view_mode: ViewMode::Logs,
            navigation_mode: NavigationMode::Containers,
            menu_mode: MenuMode::Closed,
            logs: LogsState::default(),
            stats: None,
            numeric_input: NumericInputState::default(),
            search: SearchState::default(),
            notification: None,
            viewport_height: 20,
            logs_panel_height: 20,
            should_quit: false,
            last_refresh: now(),
            last_activity: now(),
            stream_generation: 0,
            current_container_id: None,
            needs_redraw: true,
            force_full_redraw: true,
            transition_state: TransitionState::Ready,
        }
    }
}

impl AppState {
    /// The selected container, if the selection is in range.
    pub fn selected_container(&self) -> (r: Option<&Container>)
        ensures
            match r {
                Some(c) => self@.selected() == Some(*c),
                None => self@.selected() is None,
            },
    {
        if self.selected_container < self.containers.len() {
            Some(&self.containers[self.selected_container])
        } else {
            None
        }
    }

    /// Whether the selected container is running.
    pub fn is_selected_running(&self) -> (r: bool)
        ensures
            r == (self@.selected() matches Some(c) && c.state == ContainerState::Running),
    {
        match self.selected_container() {
            Some(c) => c.state == ContainerState::Running,
            None => false,
        }
    }

    /// Drop the notification once it has expired.
    pub fn clear_expired_notification(&mut self)
        ensures
            final(self).wf() == old(self).wf(),
            final(self)@ == (AppView { notification: final(self)@.notification, ..old(self)@ }),
            final(self)@.notification == old(self)@.notification || (old(self)@.notification is Some
                && final(self)@.notification is None),
    {
        let expired = match &self.notification {
            Some(n) => n.is_expired(),
            None => false,
        };
        if expired {
            self.notification = None;
        }
    }
}

} // verus!
