//! Properties that relate several reads of one input.
use vstd::prelude::*;
use vstd::utf8::*;

use crate::classify::lead_width;
use crate::scanner::Scanner;
use crate::source::ByteSource;
use crate::extract::{lemma_ws_at_skip, lemma_ws_run_bounds};
use crate::text::{
    after_line, char_at_front, line_of, char_len, decode_lossy, encodes_scalar, eol_len, is_eol,
    line_consumed, line_len, token_start, ws_at, ws_run_from, REPLACEMENT,
};

verus! {

/// The bytes of `s` with each byte that does not begin a well-formed
/// character replaced by the UTF-8 encoding of U+FFFD.
pub open spec fn lossy_bytes(s: Seq<u8>) -> Seq<u8>
    decreases s.len(),
{
    if s.len() == 0 {
        Seq::empty()
    } else if lead_width(s[0]) == 1 || encodes_scalar(s, lead_width(s[0])) {
        s.take(char_len(s) as int) + lossy_bytes(s.skip(char_len(s) as int))
    } else {
        encode_scalar(0xFFFDu32) + lossy_bytes(s.skip(1))
    }
}

proof fn lemma_front_encodes(s: Seq<u8>)
    requires
        s.len() > 0,
    ensures
        encode_scalar(char_at_front(s) as u32) == if lead_width(s[0]) == 1 || encodes_scalar(
            s,
            lead_width(s[0]),
        ) {
            s.take(char_len(s) as int)
        } else {
            encode_scalar(0xFFFDu32)
        },
{
    let b = s[0];
    let w = lead_width(b);
    if w == 1 {
        let u = (b as char) as u32;
        assert(u == b as u32);
        assert(((u & 0x7F) as u8) == b) by (bit_vector)
            requires
                u == b as u32,
                b <= 0x7F,
        ;
        assert(encode_scalar(u) =~= s.take(1));
    } else if encodes_scalar(s, w) {
        let t = s.take(w as int);
        assert(pop_first_scalar(t) =~= Seq::<u8>::empty());
        assert(valid_utf8(pop_first_scalar(t)));
        assert(valid_utf8(t));
        decode_utf8_first_scalar(t);
        assert(take_first_scalar(t) =~= t);
    } else {
        assert(REPLACEMENT as u32 == 0xFFFDu32);
    }
}

/// A well-formed UTF-8 sequence always decodes at its front, over the width
/// that its leading byte gives.
pub proof fn lemma_valid_front(s: Seq<u8>)
    requires
        s.len() > 0,
        valid_first_scalar(s),
    ensures
        lead_width(s[0]) == length_of_first_scalar(s),
        lead_width(s[0]) == 1 || encodes_scalar(s, lead_width(s[0])),
{
    let b0 = s[0];
    if 0xC0 <= b0 && b0 <= 0xC1 {
        let b1 = s[1];
        assert(((((b0 & 0x1F) as u32) << 6u32) | ((b1 & 0x3F) as u32)) < 0x80u32) by (bit_vector)
            requires
                0xC0 <= b0 && b0 <= 0xC1,
        ;
    }
    if 0xF5 <= b0 && b0 <= 0xF7 {
        let b1 = s[1];
        let b2 = s[2];
        let b3 = s[3];
        assert(((((b0 & 0x07) as u32) << 18u32) | (((b1 & 0x3F) as u32) << 12u32) | (((b2
            & 0x3F) as u32) << 6u32) | ((b3 & 0x3F) as u32)) > 0x10FFFFu32) by (bit_vector)
            requires
                0xF5 <= b0 && b0 <= 0xF7,
        ;
    }
    let w = lead_width(b0);
    if w >= 2 {
        let t = s.take(w as int);
        assert(t[0] == s[0]);
        assert(t[1] == s[1]);
        if w >= 3 {
            assert(t[2] == s[2]);
        }
        if w >= 4 {
            assert(t[3] == s[3]);
        }
        assert(valid_first_scalar(t));
    }
}

/// Reading bytes one character at a time (as `next_char` does, taking
/// `char_len` bytes for `char_at_front`) and encoding the characters again
/// gives back the bytes, each one that did not decode replaced by the
/// encoding of U+FFFD; well-formed UTF-8 comes back unchanged.
pub proof fn lemma_char_round_trip(s: Seq<u8>)
    ensures
        s.len() > 0 ==> decode_lossy(s) == seq![char_at_front(s)] + decode_lossy(
            s.skip(char_len(s) as int),
        ),
        encode_utf8(decode_lossy(s)) == lossy_bytes(s),
        valid_utf8(s) ==> lossy_bytes(s) == s,
    decreases s.len(),
{
    if s.len() > 0 {
        let n = char_len(s) as int;
        lemma_char_round_trip(s.skip(n));
        let d = decode_lossy(s);
        assert(d[0] == char_at_front(s));
        assert(d.drop_first() =~= decode_lossy(s.skip(n)));
        lemma_front_encodes(s);
        let w = lead_width(s[0]);
        if !(w == 1 || encodes_scalar(s, w)) {
            assert(n == 1);
        }
        if valid_utf8(s) {
            lemma_valid_front(s);
            assert(s.skip(n) =~= pop_first_scalar(s));
            assert(s.take(n) + s.skip(n) =~= s);
        }
    }
}

/// Once whitespace has been skipped, skipping again consumes nothing: the
/// front is then no whitespace character.
pub proof fn lemma_skip_whitespaces_idempotent(s: Seq<u8>, wide: bool)
    ensures
        token_start(s.skip(token_start(s, wide)), wide) == 0,
{
    lemma_ws_run_bounds(s, 0, wide);
    lemma_ws_run_end(s, 0, wide);
    let k = token_start(s, wide);
    lemma_ws_at_skip(s, k, 0, wide);
}

proof fn lemma_ws_run_end(s: Seq<u8>, i: int, wide: bool)
    requires
        0 <= i <= s.len(),
    ensures
        ws_at(s, ws_run_from(s, i, wide), wide) == 0,
    decreases s.len() - i,
{
    if ws_at(s, i, wide) > 0 {
        lemma_ws_run_end(s, i + ws_at(s, i, wide), wide);
    }
}

/// `\r\n` and `\n\r` end a line as one terminator: reading the line consumes
/// both bytes, so no empty line follows from the second.
pub proof fn lemma_terminator_pair(s: Seq<u8>)
    requires
        line_len(s) + 1 < s.len(),
        is_eol(s[line_len(s) + 1]),
        s[line_len(s) + 1] != s[line_len(s)],
    ensures
        line_consumed(s) == line_len(s) + 2,
        after_line(s) == s.skip(line_len(s) + 2),
{
}

/// Reading a line depends on the bytes still to be read alone: two scanners
/// over the same bytes, whatever their capacities, read the same line and are
/// left with the same bytes; and a line read from input that is not exhausted
/// consumes at least one byte.
pub proof fn lemma_line_capacity_independent<R: ByteSource, S: ByteSource>(
    a: &Scanner<R>,
    b: &Scanner<S>,
)
    requires
        a.wf(),
        b.wf(),
        a.stream() == b.stream(),
    ensures
        line_of(a.stream()) == line_of(b.stream()),
        after_line(a.stream()) == after_line(b.stream()),
        a.stream().len() > 0 ==> after_line(a.stream()).len() < a.stream().len(),
{
    let s = a.stream();
    if s.len() > 0 {
        crate::extract::lemma_eol_bounds(s, 0);
        if line_len(s) < s.len() {
            assert(eol_len(s, line_len(s)) >= 1);
        }
    }
}

} // verus!
