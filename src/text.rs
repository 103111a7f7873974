//! The meaning of every extraction, stated over the bytes still to be read.
use vstd::prelude::*;
use vstd::utf8::*;

use crate::classify::{lead_width, spec_ws1, spec_ws3, utf8_char_width};
use crate::parse::{numeral_in, numeral_value};

verus! {

/// The character put in place of bytes that do not decode.
pub const REPLACEMENT: char = '\u{FFFD}';

// ---------------------------------------------------------------- characters

/// Whether the first `w` bytes of `s` are a well-formed encoding of one scalar.
pub open spec fn encodes_scalar(s: Seq<u8>, w: nat) -> bool {
    &&& 2 <= w
    &&& w <= s.len()
    &&& valid_first_scalar(s.take(w as int))
    &&& length_of_first_scalar(s.take(w as int)) == w
}

/// The number of bytes that the next character takes: its full width when
/// they decode, else the single byte that is replaced.
pub open spec fn char_len(s: Seq<u8>) -> nat
    recommends
        s.len() > 0,
{
    let w = lead_width(s[0]);
    if w == 1 || encodes_scalar(s, w) {
        w
    } else {
        1
    }
}

/// The next character of `s`: the byte itself below 0x80, the decoded scalar
/// of a well-formed sequence, else the replacement character.
pub open spec fn char_at_front(s: Seq<u8>) -> char
    recommends
        s.len() > 0,
{
    let w = lead_width(s[0]);
    if w == 1 {
        s[0] as char
    } else if encodes_scalar(s, w) {
        decode_first_scalar(s.take(w as int)) as char
    } else {
        REPLACEMENT
    }
}

/// Text decoded one character at a time, each undecodable byte replaced.
pub open spec fn decode_lossy(s: Seq<u8>) -> Seq<char>
    decreases s.len(),
{
    if s.len() == 0 {
        Seq::empty()
    } else {
        seq![char_at_front(s)] + decode_lossy(s.skip(char_len(s) as int))
    }
}

/// The character that the single-byte decoding gives to `b`.
pub open spec fn ascii_char(b: u8) -> char {
    if b < 128 {
        b as char
    } else {
        REPLACEMENT
    }
}

/// Text decoded one byte at a time, bytes above 0x7F replaced.
pub open spec fn decode_ascii(s: Seq<u8>) -> Seq<char> {
    s.map_values(|b: u8| ascii_char(b))
}

// --------------------------------------------------------------------- lines

pub open spec fn is_eol(b: u8) -> bool {
    b == 10 || b == 13
}

/// Index of the first line terminator byte at or after `i`, else `s.len()`.
pub open spec fn eol_from(s: Seq<u8>, i: int) -> int
    decreases s.len() - i,
{
    if i >= s.len() {
        s.len() as int
    } else if is_eol(s[i]) {
        i
    } else {
        eol_from(s, i + 1)
    }
}

/// Length of the next line, without its terminator.
pub open spec fn line_len(s: Seq<u8>) -> int {
    eol_from(s, 0)
}

/// Bytes of the terminator at `e`: `\r\n` and `\n\r` are one terminator of
/// two bytes, a lone `\r` or `\n` one of a single byte, and the end of input
/// none.
pub open spec fn eol_len(s: Seq<u8>, e: int) -> int {
    if e >= s.len() {
        0
    } else if e + 1 < s.len() && is_eol(s[e + 1]) && s[e + 1] != s[e] {
        2
    } else {
        1
    }
}

/// Bytes that reading the next line consumes.
pub open spec fn line_consumed(s: Seq<u8>) -> int {
    line_len(s) + eol_len(s, line_len(s))
}

// -------------------------------------------------------------------- tokens

/// Length of the whitespace character at `i` (0 when there is none): one byte
/// of the single-byte set, or, when `wide`, three bytes of the three-byte set.
pub open spec fn ws_at(s: Seq<u8>, i: int, wide: bool) -> int {
    if 0 <= i < s.len() && spec_ws1(s[i]) {
        1
    } else if wide && 0 <= i && i + 3 <= s.len() && spec_ws3(s[i], s[i + 1], s[i + 2]) {
        3
    } else {
        0
    }
}

/// Where the run of whitespace characters that starts at `i` ends.
pub open spec fn ws_run_from(s: Seq<u8>, i: int, wide: bool) -> int
    decreases s.len() - i,
{
    if 0 <= i && ws_at(s, i, wide) > 0 {
        ws_run_from(s, i + ws_at(s, i, wide), wide)
    } else {
        i
    }
}

/// Where the token that starts at `i` ends: the first whitespace character
/// at or after `i`, else the end of input.
pub open spec fn token_end_from(s: Seq<u8>, i: int, wide: bool) -> int
    decreases s.len() - i,
{
    if i >= s.len() {
        s.len() as int
    } else if 0 <= i && ws_at(s, i, wide) > 0 {
        i
    } else {
        token_end_from(s, i + 1, wide)
    }
}

/// Where the next token starts.
pub open spec fn token_start(s: Seq<u8>, wide: bool) -> int {
    ws_run_from(s, 0, wide)
}

/// Where the next token ends.
pub open spec fn token_end(s: Seq<u8>, wide: bool) -> int {
    token_end_from(s, token_start(s, wide), wide)
}

/// Whether input holds a token after its leading whitespace.
pub open spec fn has_token(s: Seq<u8>, wide: bool) -> bool {
    token_start(s, wide) < s.len()
}

/// The bytes of the next token.
pub open spec fn token(s: Seq<u8>, wide: bool) -> Seq<u8> {
    s.subrange(token_start(s, wide), token_end(s, wide))
}

// ---------------------------------------------------------------- delimiters

pub open spec fn matches_at(s: Seq<u8>, b: Seq<u8>, i: int) -> bool {
    0 <= i && i + b.len() <= s.len() && s.subrange(i, i + b.len()) == b
}

/// The first index at or after `i` at which `b` occurs, else `s.len()` (an
/// empty `b` occurs nowhere).
pub open spec fn find_from(s: Seq<u8>, b: Seq<u8>, i: int) -> int
    decreases s.len() - i,
{
    if i < 0 || i >= s.len() || b.len() == 0 || i + b.len() > s.len() {
        s.len() as int
    } else if s.subrange(i, i + b.len()) == b {
        i
    } else {
        find_from(s, b, i + 1)
    }
}

/// Length of what precedes the first occurrence of `b` (all of `s` when
/// there is none).
pub open spec fn until_len(s: Seq<u8>, b: Seq<u8>) -> int {
    find_from(s, b, 0)
}

/// Bytes consumed by reading up to and through the first occurrence of `b`.
pub open spec fn until_consumed(s: Seq<u8>, b: Seq<u8>) -> int {
    if until_len(s, b) < s.len() {
        until_len(s, b) + b.len()
    } else {
        s.len() as int
    }
}

// ------------------------------------------------------------------ outcomes

/// `t` is what is left of `s` once some prefix of it has been consumed.
pub open spec fn suffix_of(t: Seq<u8>, s: Seq<u8>) -> bool {
    t.len() <= s.len() && t == s.skip(s.len() - t.len())
}

pub proof fn lemma_suffix_refl(s: Seq<u8>)
    ensures
        suffix_of(s, s),
{
    assert(s.skip(0) =~= s);
}

pub proof fn lemma_suffix_trans(t: Seq<u8>, u: Seq<u8>, s: Seq<u8>)
    requires
        suffix_of(t, u),
        suffix_of(u, s),
    ensures
        suffix_of(t, s),
{
    assert(t =~= s.skip(s.len() - t.len()));
}

pub proof fn lemma_skip_suffix(s: Seq<u8>, n: int)
    requires
        0 <= n <= s.len(),
    ensures
        suffix_of(s.skip(n), s),
{
    assert(s.skip(n) =~= s.skip(s.len() - s.skip(n).len()));
}

pub open spec fn bytes_of(o: Option<Vec<u8>>) -> Option<Seq<u8>> {
    match o {
        Some(v) => Some(v@),
        None => None,
    }
}

pub open spec fn slice_of(o: Option<&[u8]>) -> Option<Seq<u8>> {
    match o {
        Some(v) => Some(v@),
        None => None,
    }
}

pub open spec fn text_of(o: Option<String>) -> Option<Seq<char>> {
    match o {
        Some(v) => Some(v@),
        None => None,
    }
}

/// Decoding of an optional run of bytes: UTF-8 when `utf8`, else byte by byte.
pub open spec fn decode_opt(o: Option<Seq<u8>>, utf8: bool) -> Option<Seq<char>> {
    match o {
        Some(v) => Some(
            if utf8 {
                decode_lossy(v)
            } else {
                decode_ascii(v)
            },
        ),
        None => None,
    }
}

/// The next line of `s`: none at the end of input.
pub open spec fn line_of(s: Seq<u8>) -> Option<Seq<u8>> {
    if s.len() == 0 {
        None
    } else {
        Some(s.take(line_len(s)))
    }
}

/// What is left once the next line and its terminator are read.
pub open spec fn after_line(s: Seq<u8>) -> Seq<u8> {
    s.skip(line_consumed(s))
}

/// The next token of `s`: none when only whitespace is left.
pub open spec fn token_of(s: Seq<u8>, wide: bool) -> Option<Seq<u8>> {
    if has_token(s, wide) {
        Some(token(s, wide))
    } else {
        None
    }
}

/// What is left once the next token is read (or, without one, everything).
pub open spec fn after_token(s: Seq<u8>, wide: bool) -> Seq<u8> {
    s.skip(token_end(s, wide))
}

/// The bytes before the first occurrence of `b`: none at the end of input.
pub open spec fn until_of(s: Seq<u8>, b: Seq<u8>) -> Option<Seq<u8>> {
    if s.len() == 0 {
        None
    } else {
        Some(s.take(until_len(s, b)))
    }
}

pub open spec fn after_until(s: Seq<u8>, b: Seq<u8>) -> Seq<u8> {
    s.skip(until_consumed(s, b))
}

/// How many of at most `max` bytes are there to read.
pub open spec fn bytes_len(s: Seq<u8>, max: usize) -> int {
    if max < s.len() {
        max as int
    } else {
        s.len() as int
    }
}

/// What reading an integer from the optional text `t` yields: `Some(None)`
/// when there is no text, `Some(Some(v))` for a numeral of value `v` in
/// `lo..=hi`, and `None` (a parse failure) otherwise.
pub open spec fn int_outcome(t: Option<Seq<char>>, signed: bool, lo: int, hi: int) -> Option<
    Option<int>,
> {
    match t {
        None => Some(None),
        Some(x) => if numeral_in(x, signed, lo, hi) {
            Some(numeral_value(x, signed))
        } else {
            None
        },
    }
}

// ------------------------------------------------------------ exec decoding

/// Relies on char::from_u32, which gives the char of a Unicode scalar value
/// and `None` for a surrogate or a value above 0x10FFFF.
#[verifier::external_body]
fn char_from_u32(u: u32) -> (r: Option<char>)
    ensures
        is_scalar(u) ==> r == Some(u as char),
        !is_scalar(u) ==> r is None,
{
    char::from_u32(u)
}

/// The character at the front of `v[start..end]` and the bytes it takes.
pub fn decode_char_at(v: &[u8], start: usize, end: usize) -> (r: (char, usize))
    requires
        start < end <= v.len(),
    ensures
        r.0 == char_at_front(v@.subrange(start as int, end as int)),
        r.1 == char_len(v@.subrange(start as int, end as int)),
        1 <= r.1 <= end - start,
{
    let ghost t = v@.subrange(start as int, end as int);
    let b0 = v[start];
    let w = utf8_char_width(b0);
    if w == 1 {
        return (b0 as char, 1);
    }
    if w == 0 || end - start < w {
        return (REPLACEMENT, 1);
    }
    let ghost u = t.take(w as int);
    assert(u[0] == b0);
    let b1 = v[start + 1];
    assert(u[1] == b1);
    if b1 < 0x80 || b1 > 0xBF {
        return (REPLACEMENT, 1);
    }
    if w == 2 {
        let cp: u32 = (((b0 & 0x1F) as u32) << 6u32) | ((b1 & 0x3F) as u32);
        assert(cp == codepoint_width_2(b0, b1));
        assert(cp <= 0x7FF) by (bit_vector)
            requires
                cp == (((b0 & 0x1F) as u32) << 6u32) | ((b1 & 0x3F) as u32),
        ;
        if cp < 0x80 {
            return (REPLACEMENT, 1);
        }
        let c = char_from_u32(cp);
        match c {
            Some(c) => (c, 2),
            None => (REPLACEMENT, 1),
        }
    } else {
        let b2 = v[start + 2];
        assert(u[2] == b2);
        if b2 < 0x80 || b2 > 0xBF {
            return (REPLACEMENT, 1);
        }
        if w == 3 {
            let cp: u32 = (((b0 & 0x0F) as u32) << 12u32) | (((b1 & 0x3F) as u32) << 6u32) | ((
            b2 & 0x3F) as u32);
            assert(cp == codepoint_width_3(b0, b1, b2));
            assert(cp <= 0xFFFF) by (bit_vector)
                requires
                    cp == (((b0 & 0x0F) as u32) << 12u32) | (((b1 & 0x3F) as u32) << 6u32) | ((b2
                        & 0x3F) as u32),
            ;
            if cp < 0x800 || (0xD800 <= cp && cp <= 0xDFFF) {
                return (REPLACEMENT, 1);
            }
            let c = char_from_u32(cp);
            match c {
                Some(c) => (c, 3),
                None => (REPLACEMENT, 1),
            }
        } else {
            let b3 = v[start + 3];
            assert(u[3] == b3);
            if b3 < 0x80 || b3 > 0xBF {
                return (REPLACEMENT, 1);
            }
            let cp: u32 = (((b0 & 0x07) as u32) << 18u32) | (((b1 & 0x3F) as u32) << 12u32) | (((
            b2 & 0x3F) as u32) << 6u32) | ((b3 & 0x3F) as u32);
            assert(cp == codepoint_width_4(b0, b1, b2, b3));
            assert(cp <= 0x1FFFFF) by (bit_vector)
                requires
                    cp == (((b0 & 0x07) as u32) << 18u32) | (((b1 & 0x3F) as u32) << 12u32) | (((b2
                        & 0x3F) as u32) << 6u32) | ((b3 & 0x3F) as u32),
            ;
            if cp < 0x10000 || cp > 0x10FFFF {
                return (REPLACEMENT, 1);
            }
            let c = char_from_u32(cp);
            match c {
                Some(c) => (c, 4),
                None => (REPLACEMENT, 1),
            }
        }
    }
}

/// Relies on String::push, which appends one character to the string.
#[verifier::external_body]
fn push_char(s: &mut String, c: char)
    ensures
        final(s)@ == old(s)@.push(c),
{
    s.push(c)
}

/// The text of `v` decoded character by character, bad bytes replaced.
pub fn decode_lossy_string(v: &[u8]) -> (r: String)
    ensures
        r@ == decode_lossy(v@),
{
    let mut out = String::new();
    let mut i: usize = 0;
    assert(v@.skip(0) =~= v@);
    assert(out@ + decode_lossy(v@) =~= decode_lossy(v@));
    while i < v.len()
        invariant
            i <= v.len(),
            decode_lossy(v@) == out@ + decode_lossy(v@.skip(i as int)),
        decreases v.len() - i,
    {
        let ghost t = v@.skip(i as int);
        assert(v@.subrange(i as int, v.len() as int) =~= t);
        let (c, n) = decode_char_at(v, i, v.len());
        push_char(&mut out, c);
        assert(t.skip(n as int) =~= v@.skip(i + n));
        i = i + n;
        assert(decode_lossy(v@) =~= out@ + decode_lossy(v@.skip(i as int)));
    }
    assert(v@.skip(i as int) =~= Seq::<u8>::empty());
    assert(out@ =~= decode_lossy(v@));
    out
}

/// The text of `v` decoded byte by byte, bytes above 0x7F replaced.
pub fn decode_ascii_string(v: &[u8]) -> (r: String)
    ensures
        r@ == decode_ascii(v@),
{
    let mut out = String::new();
    let mut i: usize = 0;
    while i < v.len()
        invariant
            i <= v.len(),
            out@ == decode_ascii(v@.take(i as int)),
        decreases v.len() - i,
    {
        let b = v[i];
        let c = if b < 128 {
            b as char
        } else {
            REPLACEMENT
        };
        push_char(&mut out, c);
        i = i + 1;
        assert(out@ =~= decode_ascii(v@.take(i as int)));
    }
    assert(v@.take(i as int) =~= v@);
    out
}

/// The character that the single-byte decoding gives to `b`.
pub fn ascii_char_of(b: u8) -> (r: char)
    ensures
        r == ascii_char(b),
{
    if b < 128 {
        b as char
    } else {
        REPLACEMENT
    }
}

/// Whether `acc` ends with `b`.
pub fn ends_with(acc: &Vec<u8>, b: &[u8]) -> (r: bool)
    ensures
        r == (b.len() <= acc.len() && acc@.subrange(acc.len() - b.len(), acc.len() as int) == b@),
{
    if b.len() > acc.len() {
        return false;
    }
    let base = acc.len() - b.len();
    let mut j: usize = 0;
    while j < b.len()
        invariant
            base + b.len() == acc.len(),
            j <= b.len(),
            forall|k: int| 0 <= k < j ==> acc@[base + k] == b@[k],
        decreases b.len() - j,
    {
        if acc[base + j] != b[j] {
            assert(acc@.subrange(base as int, acc.len() as int)[j as int] != b@[j as int]);
            return false;
        }
        j = j + 1;
    }
    assert(acc@.subrange(base as int, acc.len() as int) =~= b@);
    true
}

// -------------------------------------------------------------------- lemmas

/// The first character depends only on the bytes its width covers.
pub proof fn lemma_front_of_prefix(s: Seq<u8>, m: int)
    requires
        1 <= m <= s.len(),
        m >= lead_width(s[0]) || m == s.len(),
    ensures
        char_at_front(s.take(m)) == char_at_front(s),
        char_len(s.take(m)) == char_len(s),
{
    let t = s.take(m);
    let w = lead_width(s[0]);
    assert(t[0] == s[0]);
    if w <= m {
        assert(t.take(w as int) =~= s.take(w as int));
    } else {
        assert(t =~= s);
    }
}

/// When no occurrence starts before `k`, the search from 0 agrees with the
/// search from `k`.
pub proof fn lemma_find_skip(s: Seq<u8>, b: Seq<u8>, k: int)
    requires
        0 <= k,
        b.len() > 0,
        forall|j: int| 0 <= j < k ==> !matches_at(s, b, j),
    ensures
        find_from(s, b, 0) == find_from(s, b, k) || (find_from(s, b, 0) == s.len()
            && find_from(s, b, k) == s.len()),
    decreases k,
{
    if k > 0 {
        lemma_find_skip(s, b, k - 1);
        let j = k - 1;
        assert(!matches_at(s, b, j));
        if j < s.len() && j + b.len() <= s.len() {
            assert(s.subrange(j, j + b.len()) != b);
        }
    }
}

/// The first occurrence is found at `k` when one starts there and none before.
pub proof fn lemma_find_at(s: Seq<u8>, b: Seq<u8>, k: int)
    requires
        0 <= k,
        b.len() > 0,
        matches_at(s, b, k),
        forall|j: int| 0 <= j < k ==> !matches_at(s, b, j),
    ensures
        until_len(s, b) == k,
{
    lemma_find_skip(s, b, k);
}

/// An occurrence that is found fits in what is searched.
pub proof fn lemma_find_fits(s: Seq<u8>, b: Seq<u8>, i: int)
    requires
        0 <= i,
    ensures
        find_from(s, b, i) < s.len() ==> find_from(s, b, i) + b.len() <= s.len(),
        find_from(s, b, i) < s.len() ==> s.subrange(
            find_from(s, b, i),
            find_from(s, b, i) + b.len(),
        ) == b,
        i <= s.len() ==> i <= find_from(s, b, i) <= s.len(),
    decreases s.len() - i,
{
    if !(i < 0 || i >= s.len() || b.len() == 0 || i + b.len() > s.len()) && s.subrange(
        i,
        i + b.len(),
    ) != b {
        lemma_find_fits(s, b, i + 1);
    }
}

/// Without any occurrence, the search runs to the end.
pub proof fn lemma_find_none(s: Seq<u8>, b: Seq<u8>)
    requires
        b.len() > 0,
        forall|j: int| 0 <= j && j + b.len() <= s.len() ==> !matches_at(s, b, j),
    ensures
        until_len(s, b) == s.len(),
{
    lemma_find_skip(s, b, s.len() as int);
}

} // verus!
