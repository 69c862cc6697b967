//! Messages that drive the state machine, the effects it asks for, and the
//! parsed form of one log line.
use vstd::prelude::*;
use vstd::string::*;
use vstd::utf8::encode_utf8;
use crate::docker::{Container, Stats};
use crate::text::contains_ci;

verus! {

/// Log level for filtering.
#[derive(Debug, Clone, Copy, PartialEq, Eq, Structural)]
pub enum LogLevel {
    Error,
    Warn,
    Info,
    Debug,
    Trace,
    Unknown,
}

/// An instant on the UTC time line: whole seconds since the Unix epoch and the
/// nanoseconds within that second.
#[derive(Debug, Clone, Copy, PartialEq, Eq, Structural)]
pub struct Timestamp {
    pub secs: i64,
    pub nanos: u32,
}

impl Timestamp {
    /// `self` lies strictly before `other` on the time line.
    pub open spec fn earlier(self, other: Timestamp) -> bool {
        self.secs < other.secs || (self.secs == other.secs && self.nanos < other.nanos)
    }

    pub fn is_earlier(&self, other: &Timestamp) -> (r: bool)
        ensures
            r == self.earlier(*other),
    {
        self.secs < other.secs || (self.secs == other.secs && self.nanos < other.nanos)
    }
}

/// The instant that an RFC 3339 date-time denotes, as seconds since the Unix
/// epoch and sub-second nanoseconds, or `None` when the text is not RFC 3339.
pub uninterp spec fn rfc3339_instant(text: Seq<char>) -> Option<(i64, u32)>;

/// Parses an RFC 3339 date-time with chrono's `DateTime::parse_from_rfc3339`
/// and converts the instant to UTC seconds and nanoseconds. The contract only
/// names the result: it is a function of the text alone.
#[verifier::external_body]
fn parse_rfc3339(text: &str) -> (r: Option<(i64, u32)>)
    ensures
        r == rfc3339_instant(text@),
{
    match chrono::DateTime::parse_from_rfc3339(text) {
        Ok(t) => {
            let utc = t.with_timezone(&chrono::Utc);
            Some((utc.timestamp(), utc.timestamp_subsec_nanos()))
        },
        Err(_) => None,
    }
}

/// A parsed log entry.
#[derive(Debug)]
pub struct LogEntry {
    pub timestamp: Option<Timestamp>,
    pub content: String,
    pub level: LogLevel,
}

/// Position of the first `c` in `s`, or `s.len()` when there is none.
pub open spec fn first_index(s: Seq<char>, c: char) -> nat
    decreases s.len(),
{
    if s.len() == 0 {
        0
    } else if s[0] == c {
        0
    } else {
        1 + first_index(s.drop_first(), c)
    }
}

proof fn lemma_first_index(s: Seq<char>, c: char)
    ensures
        first_index(s, c) <= s.len(),
        first_index(s, c) < s.len() ==> s[first_index(s, c) as int] == c,
        forall|i: int| 0 <= i < first_index(s, c) ==> s[i] != c,
    decreases s.len(),
{
    if s.len() > 0 && s[0] != c {
        lemma_first_index(s.drop_first(), c);
        assert forall|i: int| 0 <= i < first_index(s, c) implies s[i] != c by {
            if i > 0 {
                assert(s[i] == s.drop_first()[i - 1]);
            }
        }
    }
}

/// Where the timestamp of a raw Docker log line ends: at the first space of a
/// line longer than 30 bytes whose fifth character is `-`; a line of any
/// other shape has no timestamp.
pub open spec fn timestamp_end(raw: Seq<char>) -> Option<nat> {
    let k = first_index(raw, ' ');
    if encode_utf8(raw).len() > 30 && raw.len() > 4 && raw[4] == '-' && k < raw.len() {
        Some(k)
    } else {
        None
    }
}

/// The split of a line whose timestamp candidate ends at `k`, given the
/// instant that the candidate denotes: with one, the content is what follows
/// the space; without one, the whole line is content.
pub open spec fn split_at_instant(raw: Seq<char>, k: nat, instant: Option<(i64, u32)>) -> (
    Option<Timestamp>,
    Seq<char>,
) {
    match instant {
        Some(t) => (Some(Timestamp { secs: t.0, nanos: t.1 }), raw.skip(k as int + 1)),
        None => (None, raw),
    }
}

/// How a raw Docker log line splits into timestamp and content: the text
/// before the timestamp's end, read as RFC 3339, gives the timestamp.
pub open spec fn split_timestamp(raw: Seq<char>) -> (Option<Timestamp>, Seq<char>) {
    match timestamp_end(raw) {
        Some(k) => split_at_instant(raw, k, rfc3339_instant(raw.take(k as int))),
        None => (None, raw),
    }
}

fn find_space(s: &str) -> (k: usize)
    ensures
        k == first_index(s@, ' '),
{
    proof {
        lemma_first_index(s@, ' ');
    }
    let n: usize = s.unicode_len();
    let mut k: usize = 0;
    for c in it: s.chars()
        invariant
            n == s@.len(),
            it.seq() == s@,
            k == it.index(),
            forall|i: int| 0 <= i < k ==> s@[i] != ' ',
            first_index(s@, ' ') <= s@.len(),
            first_index(s@, ' ') < s@.len() ==> s@[first_index(s@, ' ') as int] == ' ',
            forall|i: int| 0 <= i < first_index(s@, ' ') ==> s@[i] != ' ',
    {
        if c == ' ' {
            return k;
        }
        k += 1;
    }
    k
}

/// Where the timestamp of a raw line ends, if the line has the shape of a
/// timestamped one.
pub fn find_timestamp_end(raw: &str) -> (r: Option<usize>)
    ensures
        match r {
            Some(k) => timestamp_end(raw@) == Some(k as nat),
            None => timestamp_end(raw@) is None,
        },
{
    let n: usize = raw.unicode_len();
    if raw.as_bytes().len() > 30 && n > 4 && raw.get_char(4) == '-' {
        let k = find_space(raw);
        if k < n {
            return Some(k);
        }
    }
    None
}

/// Split a line at the end `k` of its timestamp candidate, given the instant
/// that the candidate denotes (if it is one).
pub fn split_at(raw: &str, k: usize, instant: Option<(i64, u32)>) -> (r: (Option<Timestamp>, &str))
    requires
        k < raw@.len(),
    ensures
        r.0 == split_at_instant(raw@, k as nat, instant).0,
        r.1@ == split_at_instant(raw@, k as nat, instant).1,
{
    match instant {
        Some((secs, nanos)) => {
            let n: usize = raw.unicode_len();
            (Some(Timestamp { secs, nanos }), raw.substring_char(k + 1, n))
        },
        None => (None, raw),
    }
}

/// Parse the Docker log timestamp (format `2024-01-15T10:30:45.123456789Z`)
/// at the start of a line.
pub fn parse_timestamp(raw: &str) -> (r: (Option<Timestamp>, &str))
    ensures
        r.0 == split_timestamp(raw@).0,
        r.1@ == split_timestamp(raw@).1,
{
    match find_timestamp_end(raw) {
        Some(k) => {
            let head = raw.substring_char(0, k);
            split_at(raw, k, parse_rfc3339(head))
        },
        None => (None, raw),
    }
}

/// Keywords that mark each level, matched case-insensitively.
pub open spec fn level_of(b: Seq<u8>) -> LogLevel {
    if crate::text::contains_upper(b, "ERROR".spec_bytes()) || crate::text::contains_upper(b, "ERR]".spec_bytes())
        || crate::text::contains_upper(b, "[E]".spec_bytes()) {
        LogLevel::Error
    } else if crate::text::contains_upper(b, "WARN".spec_bytes()) || crate::text::contains_upper(b, "WRN]".spec_bytes())
        || crate::text::contains_upper(b, "[W]".spec_bytes()) {
        LogLevel::Warn
    } else if crate::text::contains_upper(b, "INFO".spec_bytes()) || crate::text::contains_upper(b, "INF]".spec_bytes())
        || crate::text::contains_upper(b, "[I]".spec_bytes()) {
        LogLevel::Info
    } else if crate::text::contains_upper(b, "DEBUG".spec_bytes()) || crate::text::contains_upper(b, "DBG]".spec_bytes())
        || crate::text::contains_upper(b, "[D]".spec_bytes()) {
        LogLevel::Debug
    } else if crate::text::contains_upper(b, "TRACE".spec_bytes()) || crate::text::contains_upper(b, "TRC]".spec_bytes())
        || crate::text::contains_upper(b, "[T]".spec_bytes()) {
        LogLevel::Trace
    } else {
        LogLevel::Unknown
    }
}

/// The level of a line of text (its UTF-8 bytes searched for the keywords).
pub open spec fn level_of_text(s: Seq<char>) -> LogLevel {
    level_of(encode_utf8(s))
}

/// Detect the log level from the content: the first of error, warn, info,
/// debug, trace whose keywords occur, else unknown.
pub fn detect_log_level(content: &str) -> (r: LogLevel)
    ensures
        r == level_of_text(content@),
{
    if contains_ci(content, "ERROR") || contains_ci(content, "ERR]") || contains_ci(content, "[E]") {
        LogLevel::Error
    } else if contains_ci(content, "WARN") || contains_ci(content, "WRN]") || contains_ci(
        content,
        "[W]",
    ) {
        LogLevel::Warn
    } else if contains_ci(content, "INFO") || contains_ci(content, "INF]") || contains_ci(
        content,
        "[I]",
    ) {
        LogLevel::Info
    } else if contains_ci(content, "DEBUG") || contains_ci(content, "DBG]") || contains_ci(
        content,
        "[D]",
    ) {
        LogLevel::Debug
    } else if contains_ci(content, "TRACE") || contains_ci(content, "TRC]") || contains_ci(
        content,
        "[T]",
    ) {
        LogLevel::Trace
    } else {
        LogLevel::Unknown
    }
}

/// The entry that a raw line parses into.
pub open spec fn entry_from_raw(raw: Seq<char>, e: LogEntry) -> bool {
    &&& e.timestamp == split_timestamp(raw).0
    &&& e.content@ == split_timestamp(raw).1
    &&& e.level == level_of_text(split_timestamp(raw).1)
}

impl LogEntry {
    pub fn from_raw(raw: &str) -> (r: Self)
        ensures
            entry_from_raw(raw@, r),
    {
        let (timestamp, content) = parse_timestamp(raw);
        let level = detect_log_level(content);
        LogEntry { timestamp, content: String::from_str(content), level }
    }
}

/// Docker operations.
#[derive(Debug)]
pub enum DockerOp {
    Start(String),
    Stop(String),
    Restart(String),
    Pause(String),
    Unpause(String),
    Remove { id: String, force: bool },
}

/// The notice shown once an operation has succeeded.
pub fn operation_done(op: &DockerOp) -> (r: &'static str)
    ensures
        r@ == (match op {
            DockerOp::Start(_) => "Container started"@,
            DockerOp::Stop(_) => "Container stopped"@,
            DockerOp::Restart(_) => "Container restarted"@,
            DockerOp::Pause(_) => "Container paused"@,
            DockerOp::Unpause(_) => "Container unpaused"@,
            DockerOp::Remove { .. } => "Container removed"@,
        }),
{
    match op {
        DockerOp::Start(_) => "Container started",
        DockerOp::Stop(_) => "Container stopped",
        DockerOp::Restart(_) => "Container restarted",
        DockerOp::Pause(_) => "Container paused",
        DockerOp::Unpause(_) => "Container unpaused",
        DockerOp::Remove { .. } => "Container removed",
    }
}

/// Side effects that result from state updates.
#[derive(Debug)]
pub enum Effect {
    /// Load the container list from Docker.
    LoadContainers,
    /// Start streaming logs for a container; the generation lets stale lines
    /// from an earlier stream be told apart.
    StartLogsStream { container_id: String, initial_lines: usize, generation: u64 },
    /// Load older log lines (infinite scroll).
    LoadHistoricalLogs {
        container_id: String,
        before_timestamp: Option<Timestamp>,
        batch_size: usize,
    },
    /// Start streaming stats for a container.
    StartStatsStream { container_id: String },
    /// Stop all active streams.
    StopAllStreams,
    /// Execute a Docker operation.
    DockerOperation(DockerOp),
    /// Copy to the clipboard.
    CopyToClipboard(String),
    /// Dump log content to the terminal's scrollback for manual selection.
    PrintForManualCopy(String),
    /// Export log content to a timestamped file.
    ExportLogs { content: String, container_name: String },
    /// Schedule a tick after this many milliseconds.
    ScheduleTick { millis: u64 },
    /// Quit the application.
    Quit,
}

/// The keys the application tells apart.
#[derive(Debug, Clone, Copy, PartialEq, Eq, Structural)]
pub enum KeyCode {
    Char(char),
    Backspace,
    Enter,
    Esc,
    Tab,
    Up,
    Down,
    Left,
    Right,
    PageUp,
    PageDown,
    Home,
    End,
    Other,
}

/// A key press: the key and whether Control was held.
#[derive(Debug, Clone, Copy, PartialEq, Eq, Structural)]
pub struct KeyEvent {
    pub code: KeyCode,
    pub control: bool,
}

/// All messages/events of the application.
#[derive(Debug)]
pub enum Message {
    KeyPressed(KeyEvent),
    Tick,
    ContainersLoaded(Vec<Container>),
    /// A log line from a container stream, with the stream's container id
    /// and generation for validation.
    LogReceived { container_id: String, generation: u64, content: String },
    HistoricalLogsLoaded { logs: Vec<LogEntry>, has_more: bool },
    StatsReceived(Stats),
    OperationSuccess(String),
    OperationError(String),
    ClipboardSuccess(String),
    ClipboardError(String),
    Quit,
    Resize(u16),
}

/// Terminal events as the library sees them.
#[derive(Debug, Clone, Copy, PartialEq, Eq, Structural)]
pub enum TermEvent {
    Key(KeyEvent),
    Resize(u16),
    Other,
}

/// Turn a terminal event into a message: Ctrl+C quits, other keys are
/// key presses, a resize carries the new height, the rest is ignored.
pub fn event_to_message(event: TermEvent) -> (r: Option<Message>)
    ensures
        match event {
            TermEvent::Key(k) => if k.code == KeyCode::Char('c') && k.control {
                r == Some(Message::Quit)
            } else {
                r == Some(Message::KeyPressed(k))
            },
            TermEvent::Resize(h) => r == Some(Message::Resize(h)),
            TermEvent::Other => r is None,
        },
{
    match event {
        TermEvent::Key(key) => {
            if key.code == KeyCode::Char('c') && key.control {
                Some(Message::Quit)
            } else {
                Some(Message::KeyPressed(key))
            }
        },
        TermEvent::Resize(h) => Some(Message::Resize(h)),
        TermEvent::Other => None,
    }
}

// ---------------------------------------------------------------------------
// Views of effects
// ---------------------------------------------------------------------------

#[verifier::ext_equal]
pub enum DockerOpView {
    Start(Seq<char>),
    Stop(Seq<char>),
    Restart(Seq<char>),
    Pause(Seq<char>),
    Unpause(Seq<char>),
    Remove { id: Seq<char>, force: bool },
}

impl View for DockerOp {
    type V = DockerOpView;

    open spec fn view(&self) -> DockerOpView {
        match self {
            DockerOp::Start(id) => DockerOpView::Start(id@),
            DockerOp::Stop(id) => DockerOpView::Stop(id@),
            DockerOp::Restart(id) => DockerOpView::Restart(id@),
            DockerOp::Pause(id) => DockerOpView::Pause(id@),
            DockerOp::Unpause(id) => DockerOpView::Unpause(id@),
            DockerOp::Remove { id, force } => DockerOpView::Remove { id: id@, force: *force },
        }
    }
}

#[verifier::ext_equal]
pub enum EffectView {
    LoadContainers,
    StartLogsStream { container_id: Seq<char>, initial_lines: usize, generation: u64 },
    LoadHistoricalLogs {
        container_id: Seq<char>,
        before_timestamp: Option<Timestamp>,
        batch_size: usize,
    },
    StartStatsStream { container_id: Seq<char> },
    StopAllStreams,
    DockerOperation(DockerOpView),
    CopyToClipboard(Seq<char>),
    PrintForManualCopy(Seq<char>),
    ExportLogs { content: Seq<char>, container_name: Seq<char> },
    ScheduleTick { millis: u64 },
    Quit,
}

impl View for Effect {
    type V = EffectView;

    open spec fn view(&self) -> EffectView {
        match self {
            Effect::LoadContainers => EffectView::LoadContainers,
            Effect::StartLogsStream { container_id, initial_lines, generation } =>
                EffectView::StartLogsStream {
                    container_id: container_id@,
                    initial_lines: *initial_lines,
                    generation: *generation,
                },
            Effect::LoadHistoricalLogs { container_id, before_timestamp, batch_size } =>
                EffectView::LoadHistoricalLogs {
                    container_id: container_id@,
                    before_timestamp: *before_timestamp,
                    batch_size: *batch_size,
                },
            Effect::StartStatsStream { container_id } => EffectView::StartStatsStream {
                container_id: container_id@,
            },
            Effect::StopAllStreams => EffectView::StopAllStreams,
            Effect::DockerOperation(op) => EffectView::DockerOperation(op@),
            Effect::CopyToClipboard(c) => EffectView::CopyToClipboard(c@),
            Effect::PrintForManualCopy(c) => EffectView::PrintForManualCopy(c@),
            Effect::ExportLogs { content, container_name } => EffectView::ExportLogs {
                content: content@,
                container_name: container_name@,
            },
            Effect::ScheduleTick { millis } => EffectView::ScheduleTick { millis: *millis },
            Effect::Quit => EffectView::Quit,
        }
    }
}

/// The views of a list of effects.
pub open spec fn effects_view(v: Seq<Effect>) -> Seq<EffectView> {
    Seq::new(v.len(), |i: int| v[i]@)
}

} // verus!
