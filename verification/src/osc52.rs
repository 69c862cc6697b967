//! OSC 52 terminal clipboard support.
//!
//! OSC 52 is an ANSI escape sequence (`ESC ] 52 ; c ; <base64> BEL`) that asks
//! the terminal emulator to set the system clipboard. The local terminal (where
//! the user sits) interprets it, so it works transparently over SSH. Inside
//! tmux or GNU screen the sequence is wrapped in the multiplexer's passthrough
//! so that it reaches the outer terminal.
use vstd::prelude::*;
use vstd::string::*;
use crate::text::{push_char, push_str, decimal, push_decimal};

verus! {

/// Largest base64 payload that terminals reliably accept for OSC 52.
pub const MAX_BASE64_LEN: usize = 100000;

pub const ESC: char = '\x1b';

pub const BEL: char = '\x07';

#[derive(Debug, PartialEq, Eq, Structural)]
pub enum Osc52Error {
    /// The encoded payload is larger than terminals reliably accept.
    TooLarge { bytes: usize },
}

impl Osc52Error {
    /// Human-readable description of the error.
    pub fn message(&self) -> (r: String)
        ensures
            r@ == "selection too large for terminal clipboard ("@ + decimal(
                (self->bytes / 1024) as nat,
            ) + " KB) \u{2014} use Export (6) instead"@,
    {
        match self {
            Osc52Error::TooLarge { bytes } => {
                let mut s = String::new();
                push_str(&mut s, "selection too large for terminal clipboard (");
                push_decimal(&mut s, (*bytes / 1024) as u64);
                push_str(&mut s, " KB) \u{2014} use Export (6) instead");
                s
            },
        }
    }
}

// ---------------------------------------------------------------------------
// Base64 (RFC 4648, standard alphabet, `=` padding)
// ---------------------------------------------------------------------------

/// The base64 alphabet `A-Z a-z 0-9 + /`.
pub open spec fn b64_symbol(v: nat) -> char {
    if v < 26 {
        (65 + v) as char
    } else if v < 52 {
        (97 + (v - 26)) as char
    } else if v < 62 {
        (48 + (v - 52)) as char
    } else if v == 62 {
        '+'
    } else {
        '/'
    }
}

/// Encoding of one group of one to three bytes into four symbols; missing
/// bytes count as zero and their symbols become `=`.
pub open spec fn encode_group(g: Seq<u8>) -> Seq<char> {
    let b1: nat = if g.len() > 1 { g[1] as nat } else { 0 };
    let b2: nat = if g.len() > 2 { g[2] as nat } else { 0 };
    let n: nat = (g[0] as nat) * 65536 + b1 * 256 + b2;
    seq![
        b64_symbol((n / 262144) % 64),
        b64_symbol((n / 4096) % 64),
        if g.len() > 1 { b64_symbol((n / 64) % 64) } else { '=' },
        if g.len() > 2 { b64_symbol(n % 64) } else { '=' },
    ]
}

/// Base64 of a byte string: its three-byte groups encoded in order.
#[verifier::opaque]
pub open spec fn base64(d: Seq<u8>) -> Seq<char>
    decreases d.len(),
{
    if d.len() == 0 {
        Seq::empty()
    } else if d.len() <= 3 {
        encode_group(d)
    } else {
        encode_group(d.take(3)) + base64(d.skip(3))
    }
}

proof fn lemma_base64_append(a: Seq<u8>, g: Seq<u8>)
    requires
        a.len() % 3 == 0,
        1 <= g.len() <= 3,
    ensures
        base64(a + g) == base64(a) + encode_group(g),
    decreases a.len(),
{
    reveal(base64);
    if a.len() == 0 {
        assert(a + g =~= g);
        assert(base64(a) =~= Seq::<char>::empty());
        assert(base64(a) + encode_group(g) =~= encode_group(g));
    } else {
        assert((a + g).take(3) =~= a.take(3));
        assert((a + g).skip(3) =~= a.skip(3) + g);
        lemma_base64_append(a.skip(3), g);
        if a.len() == 3 {
            assert(a.skip(3) + g =~= g);
            assert(a.take(3) =~= a);
            assert(base64(a.skip(3)) =~= Seq::<char>::empty());
        }
        assert(base64(a) == encode_group(a.take(3)) + base64(a.skip(3)));
        assert(base64(a + g) =~= base64(a) + encode_group(g));
    }
}

proof fn lemma_base64_step(d: Seq<u8>, g: int, k: int)
    requires
        0 <= g,
        1 <= k <= 3,
        3 * g + k <= d.len(),
    ensures
        base64(d.take(3 * g + k)) == base64(d.take(3 * g)) + encode_group(
            d.subrange(3 * g, 3 * g + k),
        ),
{
    let i = 3 * g;
    vstd::arithmetic::div_mod::lemma_mod_multiples_basic(g, 3);
    assert(i % 3 == 0);
    assert(d.take(i + k) =~= d.take(i) + d.subrange(i, i + k));
    lemma_base64_append(d.take(i), d.subrange(i, i + k));
}

/// Base64 output is four symbols per started group of three bytes.
pub proof fn lemma_base64_len(d: Seq<u8>)
    ensures
        base64(d).len() == 4 * ((d.len() + 2) / 3),
    decreases d.len(),
{
    reveal(base64);
    if d.len() > 3 {
        lemma_base64_len(d.skip(3));
    }
}

fn symbol(v: u32) -> (c: char)
    requires
        v < 64,
    ensures
        c == b64_symbol(v as nat),
{
    if v < 26 {
        ((65 + v) as u8) as char
    } else if v < 52 {
        ((97 + (v - 26)) as u8) as char
    } else if v < 62 {
        ((48 + (v - 52)) as u8) as char
    } else if v == 62 {
        '+'
    } else {
        '/'
    }
}

fn push_group(out: &mut String, data: &[u8], i: usize, k: usize)
    requires
        1 <= k <= 3,
        i + k <= data@.len(),
    ensures
        final(out)@ == old(out)@ + encode_group(data@.subrange(i as int, i + k)),
{
    let ghost g = data@.subrange(i as int, i + k);
    let b0: u32 = data[i] as u32;
    let b1: u32 = if k > 1 {
        data[i + 1] as u32
    } else {
        0
    };
    let b2: u32 = if k > 2 {
        data[i + 2] as u32
    } else {
        0
    };
    let n: u32 = b0 * 65536 + b1 * 256 + b2;
    let ghost sn: nat = (g[0] as nat) * 65536 + (if g.len() > 1 { g[1] as nat } else { 0 }) * 256
        + (if g.len() > 2 { g[2] as nat } else { 0 });
    assert(n == sn);
    let ghost start = out@;
    push_char(out, symbol((n / 262144) % 64));
    push_char(out, symbol((n / 4096) % 64));
    if k > 1 {
        push_char(out, symbol((n / 64) % 64));
    } else {
        push_char(out, '=');
    }
    if k > 2 {
        push_char(out, symbol(n % 64));
    } else {
        push_char(out, '=');
    }
    assert(out@ =~= start + encode_group(g));
}

/// Standard base64 encoding (RFC 4648) with `=` padding.
#[verifier::rlimit(30)]
pub fn base64_encode(data: &[u8]) -> (r: String)
    ensures
        r@ == base64(data@),
        r@.len() == 4 * ((data@.len() + 2) / 3),
{
    let len: usize = data.len();
    let mut out = String::new();
    let mut i: usize = 0;
    let ghost mut groups: int = 0;
    proof {
        reveal(base64);
        assert(data@.take(0) =~= Seq::<u8>::empty());
    }
    while i < len
        invariant
            len == data@.len(),
            i <= len,
            i < len ==> i == 3 * groups,
            out@ == base64(data@.take(i as int)),
        decreases len - i,
    {
        let k: usize = if i + 2 < len {
            3
        } else if i + 1 < len {
            2
        } else {
            1
        };
        push_group(&mut out, data, i, k);
        proof {
            lemma_base64_step(data@, groups, k as int);
            groups = groups + 1;
        }
        i = i + k;
    }
    assert(data@.take(len as int) =~= data@);
    proof {
        lemma_base64_len(data@);
    }
    out
}

// ---------------------------------------------------------------------------
// Escape sequence and multiplexer passthrough
// ---------------------------------------------------------------------------

/// `ESC ] 52 ; c ; <payload> BEL`
pub open spec fn osc52_envelope(payload: Seq<char>) -> Seq<char> {
    seq![ESC, ']', '5', '2', ';', 'c', ';'] + payload + seq![BEL]
}

/// Every ESC doubled, every other character kept.
pub open spec fn double_escapes(s: Seq<char>) -> Seq<char>
    decreases s.len(),
{
    if s.len() == 0 {
        Seq::empty()
    } else {
        double_escapes(s.drop_last()) + (if s.last() == ESC {
            seq![ESC, ESC]
        } else {
            seq![s.last()]
        })
    }
}

/// The sequence as the outer terminal must receive it: tmux DCS passthrough
/// (`ESC P tmux ; ESC <inner with ESC doubled> ESC \`), GNU screen DCS
/// passthrough (`ESC P <inner> ESC \`), or unchanged.
pub open spec fn wrapped(inner: Seq<char>, tmux: bool, screen: bool) -> Seq<char> {
    if tmux {
        seq![ESC, 'P', 't', 'm', 'u', 'x', ';', ESC] + double_escapes(inner) + seq![ESC, '\\']
    } else if screen {
        seq![ESC, 'P'] + inner + seq![ESC, '\\']
    } else {
        inner
    }
}

fn push_doubled_escapes(out: &mut String, s: &str)
    ensures
        final(out)@ == old(out)@ + double_escapes(s@),
{
    let ghost start = out@;
    for c in it: s.chars()
        invariant
            it.seq() == s@,
            out@ == start + double_escapes(s@.take(it.index() as int)),
    {
        let ghost before = s@.take(it.index() as int);
        assert(s@.take(it.index() as int + 1).drop_last() =~= before);
        if c == ESC {
            push_char(out, ESC);
            push_char(out, ESC);
        } else {
            push_char(out, c);
        }
        assert(out@ =~= start + double_escapes(s@.take(it.index() as int + 1)));
    }
    assert(s@.take(s@.len() as int) =~= s@);
}

/// Wraps the raw OSC sequence for terminal multiplexers so it reaches the
/// outer terminal.
pub fn wrap(inner: String, tmux: bool, screen: bool) -> (r: String)
    ensures
        r@ == wrapped(inner@, tmux, screen),
{
    if tmux {
        let mut out = String::new();
        push_char(&mut out, ESC);
        push_char(&mut out, 'P');
        push_char(&mut out, 't');
        push_char(&mut out, 'm');
        push_char(&mut out, 'u');
        push_char(&mut out, 'x');
        push_char(&mut out, ';');
        push_char(&mut out, ESC);
        push_doubled_escapes(&mut out, inner.as_str());
        push_char(&mut out, ESC);
        push_char(&mut out, '\\');
        assert(out@ =~= wrapped(inner@, tmux, screen));
        return out;
    }
    if screen {
        let mut out = String::new();
        push_char(&mut out, ESC);
        push_char(&mut out, 'P');
        push_str(&mut out, inner.as_str());
        push_char(&mut out, ESC);
        push_char(&mut out, '\\');
        assert(out@ =~= wrapped(inner@, tmux, screen));
        return out;
    }
    inner
}

/// What `build_sequence` returns for `text`.
pub open spec fn sequence_for(text: &str, tmux: bool, screen: bool) -> Result<Seq<char>, Osc52Error> {
    let payload = base64(text.spec_bytes());
    if payload.len() > MAX_BASE64_LEN {
        Err(Osc52Error::TooLarge { bytes: text.spec_bytes().len() as usize })
    } else {
        Ok(wrapped(osc52_envelope(payload), tmux, screen))
    }
}

/// The full OSC 52 escape sequence that sets the clipboard to `text`, with the
/// multiplexer flags passed in. Fails when the base64 payload exceeds
/// `MAX_BASE64_LEN` symbols.
pub fn build_sequence(text: &str, tmux: bool, screen: bool) -> (r: Result<String, Osc52Error>)
    ensures
        match (r, sequence_for(text, tmux, screen)) {
            (Ok(s), Ok(t)) => s@ == t,
            (Err(e), Err(f)) => e == f,
            _ => false,
        },
{
    let bytes = text.as_bytes();
    let payload = base64_encode(bytes);
    let plen: usize = payload.as_str().unicode_len();
    if plen > MAX_BASE64_LEN {
        return Err(Osc52Error::TooLarge { bytes: text.len() });
    }
    let mut inner = String::new();
    push_char(&mut inner, ESC);
    push_char(&mut inner, ']');
    push_char(&mut inner, '5');
    push_char(&mut inner, '2');
    push_char(&mut inner, ';');
    push_char(&mut inner, 'c');
    push_char(&mut inner, ';');
    push_str(&mut inner, payload.as_str());
    push_char(&mut inner, BEL);
    assert(inner@ =~= osc52_envelope(payload@));
    Ok(wrap(inner, tmux, screen))
}

/// The multiplexer the process runs in, as read from its environment:
/// whether `TMUX` is set, and the value of `TERM` when it is valid Unicode.
pub struct TerminalEnv {
    pub tmux: bool,
    pub term: Option<String>,
}

/// Whether `TERM` names GNU screen (starts with `screen`).
pub open spec fn in_screen_spec(env: &TerminalEnv) -> bool {
    match env.term {
        Some(t) => t@.len() >= 6 && t@.take(6) == seq!['s', 'c', 'r', 'e', 'e', 'n'],
        None => false,
    }
}

pub fn in_screen(env: &TerminalEnv) -> (r: bool)
    ensures
        r == in_screen_spec(env),
{
    match &env.term {
        Some(t) => {
            let s = t.as_str();
            if s.unicode_len() < 6 {
                return false;
            }
            let p = s.substring_char(0, 6);
            let ok = p.get_char(0) == 's' && p.get_char(1) == 'c' && p.get_char(2) == 'r'
                && p.get_char(3) == 'e' && p.get_char(4) == 'e' && p.get_char(5) == 'n';
            assert(ok <==> p@ =~= seq!['s', 'c', 'r', 'e', 'e', 'n']);
            ok
        },
        None => false,
    }
}

/// The OSC 52 sequence for `text` in the terminal that `env` describes
/// (tmux passthrough wins over screen passthrough).
pub fn osc52_sequence(text: &str, env: &TerminalEnv) -> (r: Result<String, Osc52Error>)
    ensures
        match (r, sequence_for(text, env.tmux, in_screen_spec(env))) {
            (Ok(s), Ok(t)) => s@ == t,
            (Err(e), Err(f)) => e == f,
            _ => false,
        },
{
    let screen = in_screen(env);
    build_sequence(text, env.tmux, screen)
}

} // verus!
