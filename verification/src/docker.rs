//! Container model: what the library knows of a container and of its resource
//! usage, and how Docker's raw container summaries become that model.
use vstd::prelude::*;
use vstd::string::*;
use std::collections::HashMap;
use crate::text::push_char;

verus! {

/// Lifecycle state of a container.
#[derive(Debug, Clone, Copy, PartialEq, Eq, Structural)]
pub enum ContainerState {
    Running,
    Paused,
    Stopped,
    Dead,
    Restarting,
}

/// A published port.
#[derive(Debug, Clone)]
pub struct Port {
    pub private: u16,
    pub public: Option<u16>,
    pub protocol: String,
}

/// A container as listed by Docker.
#[derive(Debug, Clone)]
pub struct Container {
    pub id: String,
    pub name: String,
    pub image: String,
    pub status: String,
    pub state: ContainerState,
    pub created: i64,
    pub ports: Vec<Port>,
    pub labels: HashMap<String, String>,
}

/// One sample of a container's resource usage. The two percentages are held
/// as the bit patterns of their `f64` values.
#[derive(Debug, Clone, Copy, PartialEq, Eq, Structural)]
pub struct Stats {
    pub cpu_percent_bits: u64,
    pub memory_usage: u64,
    pub memory_limit: u64,
    pub memory_percent_bits: u64,
    pub network_rx: u64,
    pub network_tx: u64,
    pub block_read: u64,
    pub block_write: u64,
}

// ---------------------------------------------------------------------------
// Raw container summaries
// ---------------------------------------------------------------------------

/// Protocol of a published port as Docker reports it.
#[derive(Debug, Clone, Copy, PartialEq, Eq, Structural)]
pub enum PortType {
    Empty,
    Tcp,
    Udp,
    Sctp,
}

/// A port as Docker's container list reports it.
#[derive(Debug)]
pub struct PortSummary {
    pub private_port: u16,
    pub public_port: Option<u16>,
    pub typ: Option<PortType>,
}

/// A container as Docker's container list reports it; every field may be
/// missing.
#[derive(Debug)]
pub struct ContainerSummary {
    pub id: Option<String>,
    pub names: Option<Vec<String>>,
    pub image: Option<String>,
    pub status: Option<String>,
    pub state: Option<String>,
    pub created: Option<i64>,
    pub ports: Option<Vec<PortSummary>>,
    pub labels: Option<HashMap<String, String>>,
}

/// Character-wise equality of two strings.
pub fn str_eq(a: &str, b: &str) -> (r: bool)
    ensures
        r == (a@ == b@),
{
    let n: usize = a.unicode_len();
    if n != b.unicode_len() {
        return false;
    }
    let mut i: usize = 0;
    while i < n
        invariant
            n == a@.len(),
            n == b@.len(),
            i <= n,
            forall|j: int| 0 <= j < i ==> a@[j] == b@[j],
        decreases n - i,
    {
        if a.get_char(i) != b.get_char(i) {
            return false;
        }
        i += 1;
    }
    assert(a@ =~= b@);
    true
}

/// The text with every leading `/` removed.
pub open spec fn trim_slashes(s: Seq<char>) -> Seq<char>
    decreases s.len(),
{
    if s.len() > 0 && s[0] == '/' {
        trim_slashes(s.drop_first())
    } else {
        s
    }
}

fn trimmed_name(s: &str) -> (r: String)
    ensures
        r@ == trim_slashes(s@),
{
    let n: usize = s.unicode_len();
    let mut k: usize = 0;
    assert(s@.skip(0) =~= s@);
    while k < n && s.get_char(k) == '/'
        invariant
            n == s@.len(),
            k <= n,
            trim_slashes(s@) == trim_slashes(s@.skip(k as int)),
        decreases n - k,
    {
        assert(s@.skip(k as int).drop_first() =~= s@.skip(k + 1));
        k += 1;
    }
    assert(trim_slashes(s@.skip(k as int)) == s@.skip(k as int));
    String::from_str(s.substring_char(k, n))
}

/// The state that Docker's state text names; unknown states count as
/// stopped.
pub open spec fn state_named(s: Option<Seq<char>>) -> ContainerState {
    match s {
        Some(t) => if t == "running"@ {
            ContainerState::Running
        } else if t == "paused"@ {
            ContainerState::Paused
        } else if t == "exited"@ || t == "stopped"@ {
            ContainerState::Stopped
        } else if t == "dead"@ {
            ContainerState::Dead
        } else if t == "restarting"@ {
            ContainerState::Restarting
        } else {
            ContainerState::Stopped
        },
        None => ContainerState::Stopped,
    }
}

pub open spec fn opt_view(s: Option<String>) -> Option<Seq<char>> {
    match s {
        Some(t) => Some(t@),
        None => None,
    }
}

pub fn parse_state(state: &Option<String>) -> (r: ContainerState)
    ensures
        r == state_named(opt_view(*state)),
{
    match state {
        Some(t) => {
            let s = t.as_str();
            if str_eq(s, "running") {
                ContainerState::Running
            } else if str_eq(s, "paused") {
                ContainerState::Paused
            } else if str_eq(s, "exited") || str_eq(s, "stopped") {
                ContainerState::Stopped
            } else if str_eq(s, "dead") {
                ContainerState::Dead
            } else if str_eq(s, "restarting") {
                ContainerState::Restarting
            } else {
                ContainerState::Stopped
            }
        },
        None => ContainerState::Stopped,
    }
}

/// Protocol name of a port: `udp` and `sctp` when Docker says so, `tcp`
/// otherwise.
pub open spec fn protocol_name(t: Option<PortType>) -> Seq<char> {
    match t {
        Some(PortType::Udp) => "udp"@,
        Some(PortType::Sctp) => "sctp"@,
        _ => "tcp"@,
    }
}

fn parse_port(p: &PortSummary) -> (r: Port)
    ensures
        r.private == p.private_port,
        r.public == p.public_port,
        r.protocol@ == protocol_name(p.typ),
{
    let protocol = match p.typ {
        Some(PortType::Tcp) => String::from_str("tcp"),
        Some(PortType::Udp) => String::from_str("udp"),
        Some(PortType::Sctp) => String::from_str("sctp"),
        _ => String::from_str("tcp"),
    };
    Port { private: p.private_port, public: p.public_port, protocol }
}

/// Text of an optional string, empty when missing.
pub open spec fn text_or_empty(s: Option<String>) -> Seq<char> {
    match s {
        Some(t) => t@,
        None => Seq::empty(),
    }
}

fn string_or_empty(s: Option<String>) -> (r: String)
    ensures
        r@ == text_or_empty(s),
{
    match s {
        Some(t) => t,
        None => String::new(),
    }
}

/// The container name: the first name Docker lists, without leading `/`.
pub open spec fn container_name(names: Option<Vec<String>>) -> Seq<char> {
    match names {
        Some(v) => if v@.len() > 0 {
            trim_slashes(v@[0]@)
        } else {
            Seq::empty()
        },
        None => Seq::empty(),
    }
}

/// How a summary becomes a container: missing texts become empty, a missing
/// creation time zero, missing ports and labels empty.
pub open spec fn parsed_from(c: Container, s: ContainerSummary) -> bool {
    &&& c.id@ == text_or_empty(s.id)
    &&& c.name@ == container_name(s.names)
    &&& c.image@ == text_or_empty(s.image)
    &&& c.status@ == text_or_empty(s.status)
    &&& c.state == state_named(opt_view(s.state))
    &&& c.created == (match s.created {
        Some(t) => t,
        None => 0,
    })
    &&& c.ports@.len() == (match s.ports {
        Some(p) => p@.len(),
        None => 0,
    })
    &&& forall|i: int|
        0 <= i < c.ports@.len() ==> {
            let p = s.ports->0@[i];
            &&& #[trigger] c.ports@[i].private == p.private_port
            &&& c.ports@[i].public == p.public_port
            &&& c.ports@[i].protocol@ == protocol_name(p.typ)
        }
    &&& c.labels@ == (match s.labels {
        Some(l) => l@,
        None => Map::empty(),
    })
}

/// Turn Docker's summary of a container into the library's container.
pub fn parse_container(summary: ContainerSummary) -> (r: Container)
    ensures
        parsed_from(r, summary),
{
    let ghost s = summary;
    let name = match &summary.names {
        Some(names) => if names.len() > 0 {
            trimmed_name(names[0].as_str())
        } else {
            String::new()
        },
        None => String::new(),
    };
    let state = parse_state(&summary.state);
    let mut ports: Vec<Port> = Vec::new();
    match &summary.ports {
        Some(ps) => {
            let n: usize = ps.len();
            let mut i: usize = 0;
            while i < n
                invariant
                    n == ps@.len(),
                    i <= n,
                    ports@.len() == i,
                    forall|j: int|
                        0 <= j < i ==> {
                            &&& #[trigger] ports@[j].private == ps@[j].private_port
                            &&& ports@[j].public == ps@[j].public_port
                            &&& ports@[j].protocol@ == protocol_name(ps@[j].typ)
                        },
                decreases n - i,
            {
                ports.push(parse_port(&ps[i]));
                i += 1;
            }
        },
        None => {},
    }
    let labels = match summary.labels {
        Some(l) => l,
        None => HashMap::new(),
    };
    let r = Container {
        id: string_or_empty(summary.id),
        name,
        image: string_or_empty(summary.image),
        status: string_or_empty(summary.status),
        state,
        created: match summary.created {
            Some(t) => t,
            None => 0,
        },
        ports,
        labels,
    };
    assert forall|i: int| 0 <= i < r.ports@.len() implies {
        let p = s.ports->0@[i];
        &&& #[trigger] r.ports@[i].private == p.private_port
        &&& r.ports@[i].public == p.public_port
        &&& r.ports@[i].protocol@ == protocol_name(p.typ)
    } by {
        assert(r.ports@[i] == ports@[i]);
    }
    r
}

// ---------------------------------------------------------------------------
// Resource counters
// ---------------------------------------------------------------------------

/// Lower-case form of a text under Unicode's case mapping.
pub uninterp spec fn unicode_lowercase(s: Seq<char>) -> Seq<char>;

/// Unicode lower-casing (std `str::to_lowercase`). The contract names the
/// result; it depends on the text alone.
#[verifier::external_body]
fn to_lowercase(s: &str) -> (r: String)
    ensures
        r@ == unicode_lowercase(s@),
{
    s.to_lowercase()
}

/// Byte counters of one network interface.
#[derive(Debug, Clone, Copy, PartialEq, Eq, Structural)]
pub struct NetworkCounters {
    pub rx_bytes: u64,
    pub tx_bytes: u64,
}

/// One entry of the block I/O statistics: an operation name and its bytes.
#[derive(Debug)]
pub struct BlkioEntry {
    pub op: String,
    pub value: u64,
}

pub open spec fn sum_rx(s: Seq<NetworkCounters>) -> nat
    decreases s.len(),
{
    if s.len() == 0 {
        0
    } else {
        sum_rx(s.drop_last()) + s.last().rx_bytes as nat
    }
}

pub open spec fn sum_tx(s: Seq<NetworkCounters>) -> nat
    decreases s.len(),
{
    if s.len() == 0 {
        0
    } else {
        sum_tx(s.drop_last()) + s.last().tx_bytes as nat
    }
}

/// Total bytes received and sent over all interfaces (zero without network
/// statistics); `None` when a total does not fit in `u64`.
pub fn network_totals(nets: &Option<Vec<NetworkCounters>>) -> (r: Option<(u64, u64)>)
    ensures
        match nets {
            None => r == Some((0u64, 0u64)),
            Some(v) => if sum_rx(v@) <= u64::MAX && sum_tx(v@) <= u64::MAX {
                r == Some((sum_rx(v@) as u64, sum_tx(v@) as u64))
            } else {
                r is None
            },
        },
{
    match nets {
        None => Some((0, 0)),
        Some(v) => {
            let n: usize = v.len();
            let mut rx: u64 = 0;
            let mut tx: u64 = 0;
            let mut rx_ok = true;
            let mut tx_ok = true;
            let mut i: usize = 0;
            while i < n
                invariant
                    n == v@.len(),
                    i <= n,
                    rx_ok ==> rx == sum_rx(v@.take(i as int)),
                    !rx_ok ==> sum_rx(v@.take(i as int)) > u64::MAX,
                    tx_ok ==> tx == sum_tx(v@.take(i as int)),
                    !tx_ok ==> sum_tx(v@.take(i as int)) > u64::MAX,
                decreases n - i,
            {
                assert(v@.take(i + 1).drop_last() =~= v@.take(i as int));
                if rx_ok {
                    match rx.checked_add(v[i].rx_bytes) {
                        Some(t) => {
                            rx = t;
                        },
                        None => {
                            rx_ok = false;
                        },
                    }
                }
                if tx_ok {
                    match tx.checked_add(v[i].tx_bytes) {
                        Some(t) => {
                            tx = t;
                        },
                        None => {
                            tx_ok = false;
                        },
                    }
                }
                i += 1;
            }
            assert(v@.take(n as int) =~= v@);
            if rx_ok && tx_ok {
                Some((rx, tx))
            } else {
                None
            }
        },
    }
}

/// Bytes of the entries whose operation, lower-cased, is `op`.
pub open spec fn sum_op(s: Seq<BlkioEntry>, op: Seq<char>) -> nat
    decreases s.len(),
{
    if s.len() == 0 {
        0
    } else {
        sum_op(s.drop_last(), op) + (if unicode_lowercase(s.last().op@) == op {
            s.last().value as nat
        } else {
            0
        })
    }
}

/// Total bytes read and written (entries named `read` and `write` in any
/// case; zero without block statistics); `None` when a total does not fit
/// in `u64`.
pub fn block_io_totals(entries: &Option<Vec<BlkioEntry>>) -> (r: Option<(u64, u64)>)
    ensures
        match entries {
            None => r == Some((0u64, 0u64)),
            Some(v) => if sum_op(v@, "read"@) <= u64::MAX && sum_op(v@, "write"@) <= u64::MAX {
                r == Some((sum_op(v@, "read"@) as u64, sum_op(v@, "write"@) as u64))
            } else {
                r is None
            },
        },
{
    match entries {
        None => Some((0, 0)),
        Some(v) => {
            let n: usize = v.len();
            let mut read: u64 = 0;
            let mut write: u64 = 0;
            let mut read_ok = true;
            let mut write_ok = true;
            let mut i: usize = 0;
            while i < n
                invariant
                    n == v@.len(),
                    i <= n,
                    read_ok ==> read == sum_op(v@.take(i as int), "read"@),
                    !read_ok ==> sum_op(v@.take(i as int), "read"@) > u64::MAX,
                    write_ok ==> write == sum_op(v@.take(i as int), "write"@),
                    !write_ok ==> sum_op(v@.take(i as int), "write"@) > u64::MAX,
                decreases n - i,
            {
                assert(v@.take(i + 1).drop_last() =~= v@.take(i as int));
                let op = to_lowercase(v[i].op.as_str());
                let is_read = str_eq(op.as_str(), "read");
                let is_write = str_eq(op.as_str(), "write");
                if read_ok && is_read {
                    match read.checked_add(v[i].value) {
                        Some(t) => {
                            read = t;
                        },
                        None => {
                            read_ok = false;
                        },
                    }
                }
                if write_ok && is_write {
                    match write.checked_add(v[i].value) {
                        Some(t) => {
                            write = t;
                        },
                        None => {
                            write_ok = false;
                        },
                    }
                }
                i += 1;
            }
            assert(v@.take(n as int) =~= v@);
            if read_ok && write_ok {
                Some((read, write))
            } else {
                None
            }
        },
    }
}

// ---------------------------------------------------------------------------
// Process table
// ---------------------------------------------------------------------------

/// The cells of a row joined by tabs.
pub open spec fn tab_row(cells: Seq<String>) -> Seq<char> {
    crate::text::join_with(Seq::new(cells.len(), |i: int| cells[i]@), '\t')
}

/// The rows after the title row, each ended by a newline.
pub open spec fn rows_text(rows: Seq<Vec<String>>) -> Seq<char>
    decreases rows.len(),
{
    if rows.len() == 0 {
        Seq::empty()
    } else {
        rows_text(rows.drop_last()) + tab_row(rows.last()@).push('\n')
    }
}

fn push_tab_row(out: &mut String, cells: &Vec<String>)
    ensures
        final(out)@ == old(out)@ + tab_row(cells@),
{
    let ghost start = out@;
    let n: usize = cells.len();
    let mut i: usize = 0;
    while i < n
        invariant
            n == cells@.len(),
            i <= n,
            out@ == start + crate::text::join_with(
                Seq::new(i as nat, |k: int| cells@[k]@),
                '\t',
            ),
        decreases n - i,
    {
        let ghost prev = Seq::new(i as nat, |k: int| cells@[k]@);
        let ghost next = Seq::new((i + 1) as nat, |k: int| cells@[k]@);
        assert(next.drop_last() =~= prev);
        if i > 0 {
            push_char(out, '\t');
        }
        crate::text::push_str(out, cells[i].as_str());
        proof {
            if i == 0 {
                assert(next =~= seq![cells@[0]@]);
            }
        }
        assert(out@ =~= start + crate::text::join_with(next, '\t'));
        i += 1;
    }
    assert(Seq::new(n as nat, |k: int| cells@[k]@) =~= Seq::new(cells@.len(), |k: int| cells@[k]@));
}

/// The process listing of a container: the title row, then one row per
/// process, cells separated by tabs and rows ended by newlines.
pub fn process_table(titles: &Option<Vec<String>>, processes: &Option<Vec<Vec<String>>>) -> (r: String)
    ensures
        r@ == (match titles {
            Some(t) => tab_row(t@).push('\n'),
            None => Seq::empty(),
        }) + (match processes {
            Some(p) => rows_text(p@),
            None => Seq::empty(),
        }),
{
    let mut out = String::new();
    match titles {
        Some(t) => {
            push_tab_row(&mut out, t);
            push_char(&mut out, '\n');
        },
        None => {},
    }
    let ghost head = out@;
    match processes {
        Some(p) => {
            let n: usize = p.len();
            let mut i: usize = 0;
            while i < n
                invariant
                    n == p@.len(),
                    i <= n,
                    out@ == head + rows_text(p@.take(i as int)),
                decreases n - i,
            {
                assert(p@.take(i + 1).drop_last() =~= p@.take(i as int));
                push_tab_row(&mut out, &p[i]);
                push_char(&mut out, '\n');
                assert(out@ =~= head + rows_text(p@.take(i + 1)));
                i += 1;
            }
            assert(p@.take(n as int) =~= p@);
        },
        None => {
            assert(out@ =~= head + Seq::<char>::empty());
        },
    }
    out
}

// ---------------------------------------------------------------------------
// Ordering the container list
// ---------------------------------------------------------------------------

/// Code-point order of texts; it is the order of their UTF-8 bytes, which
/// is how `str` values compare.
pub open spec fn text_lt(a: Seq<char>, b: Seq<char>) -> bool
    decreases a.len(),
{
    if a.len() == 0 {
        b.len() > 0
    } else if b.len() == 0 {
        false
    } else if a[0] != b[0] {
        (a[0] as u32) < (b[0] as u32)
    } else {
        text_lt(a.drop_first(), b.drop_first())
    }
}

pub proof fn lemma_text_lt_irreflexive(a: Seq<char>)
    ensures
        !text_lt(a, a),
    decreases a.len(),
{
    if a.len() > 0 {
        lemma_text_lt_irreflexive(a.drop_first());
    }
}

pub proof fn lemma_text_lt_transitive(a: Seq<char>, b: Seq<char>, c: Seq<char>)
    requires
        text_lt(a, b),
        text_lt(b, c),
    ensures
        text_lt(a, c),
    decreases a.len(),
{
    if a.len() > 0 && b.len() > 0 && c.len() > 0 {
        if a[0] == b[0] && b[0] == c[0] {
            lemma_text_lt_transitive(a.drop_first(), b.drop_first(), c.drop_first());
        }
    }
}

pub proof fn lemma_text_lt_asymmetric(a: Seq<char>, b: Seq<char>)
    requires
        text_lt(a, b),
    ensures
        !text_lt(b, a),
{
    if text_lt(b, a) {
        lemma_text_lt_transitive(a, b, a);
        lemma_text_lt_irreflexive(a);
    }
}

/// Whether `a` sorts strictly before `b`.
pub fn text_less(a: &str, b: &str) -> (r: bool)
    ensures
        r == text_lt(a@, b@),
{
    let n: usize = a.unicode_len();
    let m: usize = b.unicode_len();
    let mut i: usize = 0;
    assert(a@.skip(0) =~= a@);
    assert(b@.skip(0) =~= b@);
    while i < n && i < m
        invariant
            n == a@.len(),
            m == b@.len(),
            i <= n,
            i <= m,
            text_lt(a@, b@) == text_lt(a@.skip(i as int), b@.skip(i as int)),
        decreases n - i,
    {
        let x = a.get_char(i);
        let y = b.get_char(i);
        assert(a@.skip(i as int)[0] == x);
        assert(b@.skip(i as int)[0] == y);
        if x != y {
            return (x as u32) < (y as u32);
        }
        assert(a@.skip(i as int).drop_first() =~= a@.skip(i + 1));
        assert(b@.skip(i as int).drop_first() =~= b@.skip(i + 1));
        i += 1;
    }
    i == n && i < m
}

/// The key containers are ordered by: the name in lower case.
pub open spec fn sort_key(c: Container) -> Seq<char> {
    unicode_lowercase(c.name@)
}

/// `r` is `v` ordered by key, stably: `p` maps each position of `r` to a
/// distinct position of `v`, keys never decrease along `r`, and entries with
/// equal keys keep their order.
pub open spec fn stable_sorted_by_key(v: Seq<Container>, r: Seq<Container>, p: Seq<int>) -> bool {
    &&& r.len() == v.len()
    &&& p.len() == v.len()
    &&& forall|k: int| 0 <= k < p.len() ==> 0 <= #[trigger] p[k] < v.len()
    &&& forall|k: int| 0 <= k < r.len() ==> #[trigger] r[k] == v[p[k]]
    &&& forall|a: int, b: int| 0 <= a < b < p.len() ==> #[trigger] p[a] != #[trigger] p[b]
    &&& forall|a: int, b: int|
        0 <= a < b < r.len() ==> !text_lt(sort_key(#[trigger] r[b]), sort_key(#[trigger] r[a]))
    &&& forall|a: int, b: int|
        0 <= a < b < r.len() && sort_key(#[trigger] r[a]) == sort_key(#[trigger] r[b]) ==> p[a]
            < p[b]
}

/// Containers ordered by lower-cased name; containers whose names compare
/// equal keep their order.
pub fn sort_by_name(containers: Vec<Container>) -> (r: Vec<Container>)
    ensures
        exists|p: Seq<int>| stable_sorted_by_key(containers@, r@, p),
{
    let ghost v = containers@;
    let mut result: Vec<Container> = Vec::new();
    let mut keys: Vec<String> = Vec::new();
    let ghost mut perm: Seq<int> = Seq::empty();
    for c in it: containers
        invariant
            it.seq() == v,
            result@.len() == it.index(),
            keys@.len() == it.index(),
            perm.len() == it.index(),
            forall|k: int| 0 <= k < keys@.len() ==> #[trigger] keys@[k]@ == sort_key(result@[k]),
            forall|k: int| 0 <= k < perm.len() ==> 0 <= #[trigger] perm[k] < it.index(),
            forall|k: int| 0 <= k < result@.len() ==> #[trigger] result@[k] == v[perm[k]],
            forall|a: int, b: int| 0 <= a < b < perm.len() ==> #[trigger] perm[a] != #[trigger] perm[b],
            forall|a: int, b: int|
                0 <= a < b < result@.len() ==> !text_lt(
                    sort_key(#[trigger] result@[b]),
                    sort_key(#[trigger] result@[a]),
                ),
            forall|a: int, b: int|
                0 <= a < b < result@.len() && sort_key(#[trigger] result@[a]) == sort_key(
                    #[trigger] result@[b],
                ) ==> perm[a] < perm[b],
    {
        let ghost i = it.index() as int;
        let key = to_lowercase(c.name.as_str());
        let len: usize = keys.len();
        let mut pos: usize = 0;
        while pos < len && !text_less(key.as_str(), keys[pos].as_str())
            invariant
                len == keys@.len(),
                pos <= len,
                forall|a: int| 0 <= a < pos ==> !text_lt(key@, #[trigger] keys@[a]@),
            decreases len - pos,
        {
            pos += 1;
        }
        let ghost old_result = result@;
        let ghost old_keys = keys@;
        let ghost old_perm = perm;
        let ghost kx = key@;
        assert(kx == sort_key(c));
        proof {
            if pos < len {
                assert(text_lt(kx, old_keys[pos as int]@));
            }
        }
        result.insert(pos, c);
        keys.insert(pos, key);
        proof {
            perm = perm.insert(pos as int, i);
            let r = result@;
            assert forall|k: int| 0 <= k < keys@.len() implies #[trigger] keys@[k]@ == sort_key(r[k]) by {
                if k < pos {
                    assert(keys@[k] == old_keys[k]);
                    assert(r[k] == old_result[k]);
                } else if k > pos {
                    assert(keys@[k] == old_keys[k - 1]);
                    assert(r[k] == old_result[k - 1]);
                }
            }
            assert forall|k: int| 0 <= k < perm.len() implies 0 <= #[trigger] perm[k] < i + 1 by {
                if k < pos {
                    assert(perm[k] == old_perm[k]);
                } else if k > pos {
                    assert(perm[k] == old_perm[k - 1]);
                }
            }
            assert forall|k: int| 0 <= k < r.len() implies #[trigger] r[k] == v[perm[k]] by {
                if k < pos {
                    assert(perm[k] == old_perm[k]);
                    assert(r[k] == old_result[k]);
                } else if k > pos {
                    assert(perm[k] == old_perm[k - 1]);
                    assert(r[k] == old_result[k - 1]);
                } else {
                    assert(c == v[i]);
                }
            }
            assert forall|a: int, b: int| 0 <= a < b < perm.len() implies #[trigger] perm[a]
                != #[trigger] perm[b] by {
                let oa = if a < pos { a } else { a - 1 };
                let ob = if b < pos { b } else { b - 1 };
                if a != pos && b != pos {
                    assert(perm[a] == old_perm[oa]);
                    assert(perm[b] == old_perm[ob]);
                } else if a == pos {
                    assert(perm[b] == old_perm[ob]);
                } else {
                    assert(perm[a] == old_perm[oa]);
                }
            }
            assert forall|a: int, b: int| 0 <= a < b < r.len() implies !text_lt(
                sort_key(#[trigger] r[b]),
                sort_key(#[trigger] r[a]),
            ) && (sort_key(r[a]) == sort_key(r[b]) ==> perm[a] < perm[b]) by {
                let oa = if a < pos { a } else { a - 1 };
                let ob = if b < pos { b } else { b - 1 };
                if a != pos && b != pos {
                    assert(r[a] == old_result[oa]);
                    assert(r[b] == old_result[ob]);
                    assert(perm[a] == old_perm[oa]);
                    assert(perm[b] == old_perm[ob]);
                } else if b == pos {
                    assert(r[a] == old_result[a]);
                    assert(old_keys[a]@ == sort_key(old_result[a]));
                    assert(!text_lt(kx, old_keys[a]@));
                    assert(perm[a] == old_perm[a]);
                } else {
                    // a == pos < b: the key at `pos` before the insertion is
                    // strictly greater than the new key and not greater than
                    // the key now at `b`.
                    assert(r[b] == old_result[ob]);
                    assert(old_keys[pos as int]@ == sort_key(old_result[pos as int]));
                    let kp = sort_key(old_result[pos as int]);
                    let kb = sort_key(old_result[ob]);
                    assert(text_lt(kx, kp));
                    if ob > pos {
                        assert(!text_lt(kb, kp));
                    }
                    if text_lt(kb, kx) {
                        lemma_text_lt_transitive(kb, kx, kp);
                        if ob == pos {
                            lemma_text_lt_irreflexive(kp);
                        }
                    }
                    if kb == kx {
                        if ob == pos {
                            lemma_text_lt_irreflexive(kp);
                        }
                    }
                }
            }
        }
    }
    assert(stable_sorted_by_key(v, result@, perm));
    result
}

/// The container list as shown: each summary parsed, ordered by
/// lower-cased name (stable).
pub fn build_container_list(summaries: Vec<ContainerSummary>) -> (r: Vec<Container>)
    ensures
        exists|parsed: Seq<Container>, p: Seq<int>|
            {
                &&& parsed.len() == summaries@.len()
                &&& forall|k: int|
                    0 <= k < parsed.len() ==> parsed_from(#[trigger] parsed[k], summaries@[k])
                &&& stable_sorted_by_key(parsed, r@, p)
            },
{
    let ghost sv = summaries@;
    let mut parsed: Vec<Container> = Vec::new();
    for summary in it: summaries
        invariant
            it.seq() == sv,
            parsed@.len() == it.index(),
            forall|k: int| 0 <= k < parsed@.len() ==> parsed_from(#[trigger] parsed@[k], sv[k]),
    {
        let c = parse_container(summary);
        parsed.push(c);
    }
    let ghost pv = parsed@;
    let r = sort_by_name(parsed);
    let ghost p = choose|p: Seq<int>| stable_sorted_by_key(pv, r@, p);
    assert(stable_sorted_by_key(pv, r@, p));
    r
}

} // verus!
