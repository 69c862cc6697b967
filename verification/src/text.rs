//! Character and byte helpers shared by the rest of the library: ASCII case
//! folding, case-insensitive search, decimal rendering and parsing, line joins.
use vstd::prelude::*;
use vstd::string::*;

verus! {

/// Appends one character (std `String::push`).
#[verifier::external_body]
pub(crate) fn push_char(s: &mut String, c: char)
    ensures
        final(s)@ == old(s)@.push(c),
{
    s.push(c);
}

/// Removes the last character, if any (std `String::pop`).
#[verifier::external_body]
pub(crate) fn pop_char(s: &mut String) -> (r: Option<char>)
    ensures
        old(s)@.len() == 0 ==> r is None && final(s)@ == old(s)@,
        old(s)@.len() > 0 ==> r == Some(old(s)@.last()) && final(s)@ == old(s)@.drop_last(),
{
    s.pop()
}

/// Appends a string slice.
pub fn push_str(s: &mut String, t: &str)
    ensures
        final(s)@ == old(s)@ + t@,
{
    s.append(t);
}

/// Empties a string (std `String::clear`).
#[verifier::external_body]
pub(crate) fn clear_string(s: &mut String)
    ensures
        final(s)@ == Seq::<char>::empty(),
{
    s.clear();
}

// ---------------------------------------------------------------------------
// ASCII case folding
// ---------------------------------------------------------------------------

pub open spec fn upper_byte(b: u8) -> u8 {
    if 97 <= b <= 122 {
        (b - 32) as u8
    } else {
        b
    }
}

pub open spec fn upper_char(c: char) -> char {
    if 'a' <= c <= 'z' {
        ((c as u32) - 32) as char
    } else {
        c
    }
}

pub open spec fn upper_chars(s: Seq<char>) -> Seq<char> {
    Seq::new(s.len(), |i: int| upper_char(s[i]))
}

pub open spec fn lower_char(c: char) -> char {
    if 'A' <= c <= 'Z' {
        ((c as u32) + 32) as char
    } else {
        c
    }
}

pub open spec fn lower_chars(s: Seq<char>) -> Seq<char> {
    Seq::new(s.len(), |i: int| lower_char(s[i]))
}

pub fn ascii_lower_char(c: char) -> (r: char)
    ensures
        r == lower_char(c),
{
    if 'A' <= c && c <= 'Z' {
        let v: u32 = (c as u32) + 32;
        assert(0x61 <= v <= 0x7a);
        let u: u8 = v as u8;
        u as char
    } else {
        c
    }
}

/// ASCII lower-casing of a whole string (std `str::to_ascii_lowercase`).
pub fn ascii_lowercase(s: &str) -> (r: String)
    ensures
        r@ == lower_chars(s@),
{
    let mut out = String::new();
    for c in it: s.chars()
        invariant
            it.seq() == s@,
            out@ == lower_chars(s@.take(it.index() as int)),
    {
        let u = ascii_lower_char(c);
        push_char(&mut out, u);
        assert(lower_chars(s@.take(it.index() as int + 1)) =~= lower_chars(
            s@.take(it.index() as int),
        ).push(u));
    }
    assert(s@.take(s@.len() as int) =~= s@);
    out
}

pub fn ascii_upper_byte(b: u8) -> (r: u8)
    ensures
        r == upper_byte(b),
{
    if 97 <= b && b <= 122 {
        b - 32
    } else {
        b
    }
}

pub fn ascii_upper_char(c: char) -> (r: char)
    ensures
        r == upper_char(c),
{
    if 'a' <= c && c <= 'z' {
        let v: u32 = (c as u32) - 32;
        assert(0x41 <= v <= 0x5a);
        let u: u8 = v as u8;
        u as char
    } else {
        c
    }
}

/// ASCII upper-casing of a whole string (std `str::to_ascii_uppercase`):
/// `a..=z` become `A..=Z`, every other character is kept.
pub fn ascii_uppercase(s: &str) -> (r: String)
    ensures
        r@ == upper_chars(s@),
{
    let mut out = String::new();
    for c in it: s.chars()
        invariant
            it.seq() == s@,
            out@ == upper_chars(s@.take(it.index() as int)),
    {
        let u = ascii_upper_char(c);
        push_char(&mut out, u);
        assert(upper_chars(s@.take(it.index() as int + 1)) =~= upper_chars(
            s@.take(it.index() as int),
        ).push(u));
    }
    assert(s@.take(s@.len() as int) =~= s@);
    out
}

// ---------------------------------------------------------------------------
// Case-insensitive substring search
// ---------------------------------------------------------------------------

/// The needle matches the haystack at byte offset `i` once each haystack byte
/// is ASCII upper-cased.
pub open spec fn window_matches(h: Seq<u8>, n: Seq<u8>, i: int) -> bool {
    &&& 0 <= i
    &&& i + n.len() <= h.len()
    &&& forall|j: int| 0 <= j < n.len() ==> #[trigger] upper_byte(h[i + j]) == n[j]
}

/// Some window of the haystack matches the (already upper-case) needle.
/// An empty needle matches at offset 0.
pub open spec fn contains_upper(h: Seq<u8>, n: Seq<u8>) -> bool {
    exists|i: int| #[trigger] window_matches(h, n, i)
}

fn window_at(h: &[u8], n: &[u8], i: usize) -> (r: bool)
    requires
        i + n@.len() <= h@.len(),
    ensures
        r == window_matches(h@, n@, i as int),
{
    let hl: usize = h.len();
    let mut j: usize = 0;
    while j < n.len()
        invariant
            hl == h@.len(),
            i + n@.len() <= h@.len(),
            j <= n@.len(),
            forall|k: int| 0 <= k < j ==> #[trigger] upper_byte(h@[i + k]) == n@[k],
        decreases n@.len() - j,
    {
        if ascii_upper_byte(h[i + j]) != n[j] {
            return false;
        }
        j += 1;
    }
    true
}

/// Byte-level search behind `contains_ci`.
pub fn contains_upper_bytes(h: &[u8], n: &[u8]) -> (r: bool)
    ensures
        r == contains_upper(h@, n@),
{
    if n.len() == 0 {
        assert(window_matches(h@, n@, 0));
        return true;
    }
    if h.len() < n.len() {
        assert forall|i: int| !window_matches(h@, n@, i) by {}
        return false;
    }
    let last: usize = h.len() - n.len();
    let mut i: usize = 0;
    while i <= last
        invariant
            last == h@.len() - n@.len(),
            n@.len() <= h@.len(),
            forall|k: int| 0 <= k < i ==> !#[trigger] window_matches(h@, n@, k),
        decreases last + 1 - i,
    {
        if window_at(h, n, i) {
            return true;
        }
        if i == last {
            assert forall|k: int| !#[trigger] window_matches(h@, n@, k) by {
                if 0 <= k < i {
                } else if k == i {
                } else {
                }
            }
            return false;
        }
        i += 1;
    }
    false
}

/// ASCII case-insensitive substring search: some window of `haystack`'s bytes,
/// upper-cased, equals `needle`'s bytes. `needle` is expected to be upper-case
/// ASCII already; an empty needle always matches.
pub fn contains_ci(haystack: &str, needle: &str) -> (r: bool)
    ensures
        r == contains_upper(haystack.spec_bytes(), needle.spec_bytes()),
{
    contains_upper_bytes(haystack.as_bytes(), needle.as_bytes())
}

// ---------------------------------------------------------------------------
// Decimal rendering and parsing
// ---------------------------------------------------------------------------

pub open spec fn digit_char(d: nat) -> char
    recommends
        d < 10,
{
    (48 + d) as char
}

/// Decimal digits of `n`, most significant first, no leading zeros.
pub open spec fn decimal(n: nat) -> Seq<char>
    decreases n,
{
    if n < 10 {
        seq![digit_char(n)]
    } else {
        decimal(n / 10).push(digit_char(n % 10))
    }
}

fn digit(d: u64) -> (c: char)
    requires
        d < 10,
    ensures
        c == digit_char(d as nat),
{
    let b: u8 = 48 + (d as u8);
    b as char
}

/// Appends the decimal rendering of `n`.
pub fn push_decimal(s: &mut String, n: u64)
    ensures
        final(s)@ == old(s)@ + decimal(n as nat),
    decreases n,
{
    if n >= 10 {
        push_decimal(s, n / 10);
    }
    let c = digit(n % 10);
    push_char(s, c);
    proof {
        if n >= 10 {
            assert(decimal(n as nat) == decimal((n / 10) as nat).push(c));
        }
    }
}

/// The decimal rendering of `n` (what `n.to_string()` gives).
pub fn decimal_string(n: u64) -> (r: String)
    ensures
        r@ == decimal(n as nat),
{
    let mut s = String::new();
    push_decimal(&mut s, n);
    s
}

pub open spec fn is_digit(c: char) -> bool {
    '0' <= c <= '9'
}

pub open spec fn digit_value(c: char) -> nat {
    ((c as u32) - 48) as nat
}

/// Value of a run of decimal digits.
pub open spec fn digits_value(d: Seq<char>) -> nat
    decreases d.len(),
{
    if d.len() == 0 {
        0
    } else {
        digits_value(d.drop_last()) * 10 + digit_value(d.last())
    }
}

pub open spec fn all_digits(d: Seq<char>) -> bool {
    forall|i: int| 0 <= i < d.len() ==> #[trigger] is_digit(d[i])
}

/// What `s.parse::<usize>()` accepts: an optional leading `+` followed by at
/// least one ASCII digit, with a value that fits in `usize`.
pub open spec fn parse_usize_spec(s: Seq<char>) -> Option<usize> {
    let d = if s.len() > 0 && s[0] == '+' {
        s.drop_first()
    } else {
        s
    };
    if d.len() > 0 && all_digits(d) && digits_value(d) <= usize::MAX {
        Some(digits_value(d) as usize)
    } else {
        None
    }
}

/// Decimal parsing as `str::parse::<usize>` does it.
pub fn parse_usize(s: &str) -> (r: Option<usize>)
    ensures
        r == parse_usize_spec(s@),
{
    let n: usize = s.unicode_len();
    if n == 0 {
        return None;
    }
    let start: usize = if s.get_char(0) == '+' {
        1
    } else {
        0
    };
    let ghost d = if s@[0] == '+' {
        s@.drop_first()
    } else {
        s@
    };
    assert(d =~= s@.skip(start as int));
    if start == n {
        return None;
    }
    let mut acc: usize = 0;
    let mut overflow = false;
    let mut idx: usize = 0;
    for c in it: s.chars()
        invariant
            it.seq() == s@,
            idx == it.index(),
            n == s@.len(),
            start <= 1,
            start < n,
            start == 1 <==> s@[0] == '+',
            d == (if s@[0] == '+' { s@.drop_first() } else { s@ }),
            d =~= s@.skip(start as int),
            it.index() <= start ==> acc == 0 && !overflow,
            it.index() > start ==> all_digits(s@.subrange(start as int, it.index() as int)),
            it.index() > start && !overflow ==> acc == digits_value(
                s@.subrange(start as int, it.index() as int),
            ),
            overflow ==> digits_value(s@.subrange(start as int, it.index() as int)) > usize::MAX,
    {
        let ghost i = it.index() as int;
        if idx >= start {
            assert(c == s@[i]);
            assert(d[i - start] == c);
            if !('0' <= c && c <= '9') {
                assert(!is_digit(d[i - start]));
                return None;
            }
            let dv: u32 = (c as u32) - 48;
            let ghost prev = s@.subrange(start as int, i);
            let ghost next = s@.subrange(start as int, i + 1);
            assert(next.drop_last() =~= prev);
            assert(next.last() == c);
            if !overflow {
                match acc.checked_mul(10) {
                    Some(m) => match m.checked_add(dv as usize) {
                        Some(v) => {
                            acc = v;
                        },
                        None => {
                            overflow = true;
                        },
                    },
                    None => {
                        overflow = true;
                        assert(digits_value(next) >= digits_value(prev) * 10);
                    },
                }
            } else {
                assert(digits_value(next) >= digits_value(prev));
            }
        }
        idx += 1;
    }
    assert(s@.subrange(start as int, n as int) =~= d);
    if overflow {
        None
    } else {
        Some(acc)
    }
}

// ---------------------------------------------------------------------------
// Joining lines
// ---------------------------------------------------------------------------

/// Parts joined by a separator (none after the last), as `[..].join(sep)`.
pub open spec fn join_with(parts: Seq<Seq<char>>, sep: char) -> Seq<char>
    decreases parts.len(),
{
    if parts.len() == 0 {
        Seq::empty()
    } else if parts.len() == 1 {
        parts[0]
    } else {
        join_with(parts.drop_last(), sep).push(sep) + parts.last()
    }
}

/// Lines joined by newlines (no trailing newline), as `[..].join("\n")`.
pub open spec fn join_lines(lines: Seq<Seq<char>>) -> Seq<char> {
    join_with(lines, '\n')
}

} // verus!
