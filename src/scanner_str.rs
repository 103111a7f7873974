//! The in-memory scanner over text.
use vstd::prelude::*;
use vstd::string::StringSliceAdditionalSpecFns;
use vstd::utf8::*;

use crate::laws::lemma_valid_front;
use crate::parse::{
    parse_i128, parse_i16, parse_i32, parse_i64, parse_i8, parse_isize, parse_u128, parse_u16,
    parse_u32, parse_u64, parse_u8, parse_usize,
};
use crate::scanner_error::ScannerError;
use crate::slice_scan::{line_span, token_span, until_span};
use crate::text::{
    after_line, after_token, after_until, char_at_front, char_len, decode_char_at, decode_lossy,
    decode_opt, eol_from, int_outcome, is_eol, line_of, token_end, token_end_from,
    token_of, token_start, until_of, ws_at,
};

verus! {

broadcast use encode_utf8_valid_utf8, encode_utf8_decode_utf8;

pub open spec fn str_text_of(o: Option<&str>) -> Option<Seq<char>> {
    match o {
        Some(v) => Some(v@),
        None => None,
    }
}

pub open spec fn str_of(o: Option<&str>) -> Option<Seq<u8>> {
    match o {
        Some(v) => Some(v.spec_bytes()),
        None => None,
    }
}

/// Text decoded from well-formed UTF-8 is the text the bytes encode.
pub proof fn lemma_decode_lossy_valid(s: Seq<u8>)
    requires
        valid_utf8(s),
    ensures
        decode_lossy(s) == decode_utf8(s),
    decreases s.len(),
{
    if s.len() > 0 {
        lemma_valid_front(s);
        let n = char_len(s) as int;
        assert(s.skip(n) =~= pop_first_scalar(s));
        lemma_decode_lossy_valid(s.skip(n));
        let w = crate::classify::lead_width(s[0]);
        if w == 1 {
            let b = s[0];
            assert(((b & 0x7F) as u32) == b as u32) by (bit_vector)
                requires
                    b <= 0x7F,
            ;
        } else {
            assert(s.take(w as int).take(w as int) =~= s.take(w as int));
            assert(s.take(w as int)[0] == s[0]);
            assert(s.take(w as int)[1] == s[1]);
            if w >= 3 {
                assert(s.take(w as int)[2] == s[2]);
            }
            if w >= 4 {
                assert(s.take(w as int)[3] == s[3]);
            }
        }
    }
}

/// After a well-formed first character comes a character boundary.
proof fn lemma_boundary_after_first(b: Seq<u8>)
    requires
        valid_utf8(b),
        b.len() > 0,
    ensures
        is_char_boundary(b, length_of_first_scalar(b)),
{
    reveal_with_fuel(is_char_boundary, 2);
}

/// A byte that continues no character starts one.
proof fn lemma_boundary_at(b: Seq<u8>, k: int)
    requires
        valid_utf8(b),
        0 <= k <= b.len(),
        k < b.len() ==> !is_continuation_byte(b[k]),
    ensures
        is_char_boundary(b, k),
{
    if k < b.len() {
        is_char_boundary_iff_not_is_continuation_byte(b, k);
    } else {
        is_char_boundary_start_end_of_seq(b);
    }
}

/// Well-formed text that begins with the bytes of well-formed `p` has a
/// character boundary where they end.
proof fn lemma_prefix_boundary(a: Seq<u8>, p: Seq<u8>)
    requires
        valid_utf8(a),
        valid_utf8(p),
        p.len() <= a.len(),
        a.take(p.len() as int) == p,
    ensures
        is_char_boundary(a, p.len() as int),
    decreases p.len(),
{
    if p.len() > 0 {
        assert(a[0] == p[0]);
        let l = length_of_first_scalar(p);
        assert(length_of_first_scalar(a) == l);
        assert(pop_first_scalar(a).take(pop_first_scalar(p).len() as int) =~= pop_first_scalar(p));
        lemma_prefix_boundary(pop_first_scalar(a), pop_first_scalar(p));
    }
}

proof fn lemma_encode_concat(x: Seq<char>, y: Seq<char>)
    ensures
        encode_utf8(x + y) == encode_utf8(x) + encode_utf8(y),
    decreases x.len(),
{
    if x.len() > 0 {
        assert((x + y).drop_first() =~= x.drop_first() + y);
        assert((x + y)[0] == x[0]);
        lemma_encode_concat(x.drop_first(), y);
    } else {
        assert(x + y =~= y);
    }
}

proof fn lemma_token_stops_at_ws(s: Seq<u8>, i: int)
    requires
        0 <= i <= s.len(),
    ensures
        token_end_from(s, i, true) < s.len() ==> ws_at(s, token_end_from(s, i, true), true) > 0,
    decreases s.len() - i,
{
    if i < s.len() && ws_at(s, i, true) == 0 {
        lemma_token_stops_at_ws(s, i + 1);
    }
}

proof fn lemma_eol_at_line_end(s: Seq<u8>, i: int)
    requires
        0 <= i <= s.len(),
    ensures
        eol_from(s, i) < s.len() ==> is_eol(s[eol_from(s, i)]),
    decreases s.len() - i,
{
    if i < s.len() && !is_eol(s[i]) {
        lemma_eol_at_line_end(s, i + 1);
    }
}

/// A scanner over text that is all in memory; what it returns borrows from
/// the text. Its meaning is the bytes of the text not yet read.
pub struct ScannerStr<'a> {
    text: &'a str,
}

impl<'a> ScannerStr<'a> {
    /// The bytes not yet read.
    pub closed spec fn stream(&self) -> Seq<u8> {
        self.text.spec_bytes()
    }

    /// The characters not yet read.
    pub closed spec fn chars(&self) -> Seq<char> {
        self.text@
    }

    pub closed spec fn wf(&self) -> bool {
        true
    }

    /// A scanner at the start of `text`.
    pub fn new(text: &'a str) -> (r: ScannerStr<'a>)
        ensures
            r.wf(),
            r.stream() == text.spec_bytes(),
    {
        ScannerStr { text }
    }

    /// Drops the first byte of the text, which is below 0x80.
    fn drop_ascii(&mut self)
        requires
            old(self).stream().len() > 0,
            old(self).stream()[0] < 0x80,
        ensures
            final(self).stream() == old(self).stream().skip(1),
    {
        let ghost b = self.stream();
        proof {
            assert(length_of_first_scalar(b) == 1);
            lemma_boundary_after_first(b);
        }
        let (_, rest) = self.text.split_at(1);
        self.text = rest;
        assert(self.stream() =~= b.skip(1));
    }

    /// Reads the next character; `None` at the end of the text.
    pub fn next_char(&mut self) -> (r: Result<Option<char>, ScannerError>)
        requires
            old(self).wf(),
        ensures
            final(self).wf(),
            r matches Ok(o) ==> o == if old(self).stream().len() == 0 {
                None
            } else {
                Some(char_at_front(old(self).stream()))
            },
            final(self).stream() == if old(self).stream().len() == 0 {
                old(self).stream()
            } else {
                old(self).stream().skip(char_len(old(self).stream()) as int)
            },
            r is Ok,
    {
        let bytes = self.text.as_bytes();
        let ghost b = self.stream();
        if bytes.len() == 0 {
            return Ok(None);
        }
        assert(bytes@.subrange(0, bytes@.len() as int) =~= b);
        let (c, n) = decode_char_at(bytes, 0, bytes.len());
        proof {
            lemma_valid_front(b);
            lemma_boundary_after_first(b);
        }
        let (_, rest) = self.text.split_at(n);
        self.text = rest;
        assert(self.stream() =~= b.skip(n as int));
        Ok(Some(c))
    }

    /// Reads at most `max_number_of_characters` characters; `None` at the end
    /// of the text.
    pub fn next_str(&mut self, max_number_of_characters: usize) -> (r: Result<
        Option<&'a str>,
        ScannerError,
    >)
        requires
            old(self).wf(),
        ensures
            final(self).wf(),
            r matches Ok(o) ==> o matches Some(t) ==> t@ == old(self).chars().take(
                if max_number_of_characters < old(self).chars().len() {
                    max_number_of_characters as int
                } else {
                    old(self).chars().len() as int
                },
            ),
            r matches Ok(o) ==> (o is None <==> old(self).chars().len() == 0),
            r matches Ok(Some(t)) ==> final(self).chars() == old(self).chars().skip(t@.len() as int),
            r is Ok,
    {
        let bytes = self.text.as_bytes();
        let ghost chars = self.text@;
        let ghost b = bytes@;
        if bytes.len() == 0 {
            assert(chars.len() == 0) by {
                if chars.len() > 0 {
                    assert(encode_utf8(chars) =~= encode_scalar(chars[0] as u32) + encode_utf8(
                        chars.drop_first(),
                    ));
                }
            }
            return Ok(None);
        }
        let mut p: usize = 0;
        let mut c: usize = 0;
        let len = bytes.len();
        assert(chars.take(0) + chars.skip(0) =~= chars);
        assert(chars.take(0) =~= Seq::<char>::empty());
        assert(b.skip(0) =~= b);
        while c < max_number_of_characters && p < len
            invariant
                len == b.len(),
                b == bytes@,
                b == encode_utf8(chars),
                p <= len,
                c <= chars.len(),
                c <= max_number_of_characters,
                b.take(p as int) == encode_utf8(chars.take(c as int)),
                b.skip(p as int) == encode_utf8(chars.skip(c as int)),
            decreases len - p,
        {
            let ghost rest = chars.skip(c as int);
            assert(rest.len() > 0) by {
                if rest.len() == 0 {
                    assert(b.skip(p as int).len() == 0);
                }
            }
            proof {
                encode_utf8_first_scalar(rest);
                assert(encode_utf8(rest) =~= encode_scalar(rest[0] as u32) + encode_utf8(
                    rest.drop_first(),
                ));
            }
            assert(bytes@.subrange(p as int, len as int) =~= b.skip(p as int));
            let (_, n) = decode_char_at(bytes, p, len);
            proof {
                let sb = b.skip(p as int);
                lemma_valid_front(sb);
                let l = encode_scalar(rest[0] as u32).len();
                assert(n == l);
                lemma_encode_concat(chars.take(c as int), seq![rest[0]]);
                assert(chars.take(c + 1) =~= chars.take(c as int) + seq![rest[0]]);
                assert(seq![rest[0]].drop_first() =~= Seq::<char>::empty());
                assert(encode_utf8(Seq::<char>::empty()) =~= Seq::<u8>::empty());
                assert(encode_utf8(seq![rest[0]]) =~= encode_scalar(rest[0] as u32) + encode_utf8(
                    Seq::<char>::empty(),
                ));
                assert(encode_utf8(seq![rest[0]]) =~= encode_scalar(rest[0] as u32));
                assert(sb.take(n as int) =~= encode_scalar(rest[0] as u32));
                assert(b.take(p + n) =~= b.take(p as int) + sb.take(n as int));
                assert(chars.skip(c + 1) =~= rest.drop_first());
                assert(b.skip(p + n) =~= sb.skip(n as int));
            }
            p = p + n;
            c = c + 1;
        }
        proof {
            assert(b.take(p as int).len() <= b.len());
            lemma_prefix_boundary(b, b.take(p as int));
            if p == len {
                assert(chars.skip(c as int).len() == 0) by {
                    if chars.skip(c as int).len() > 0 {
                        let r = chars.skip(c as int);
                        assert(encode_utf8(r) =~= encode_scalar(r[0] as u32) + encode_utf8(
                            r.drop_first(),
                        ));
                        assert(b.skip(p as int).len() == 0);
                    }
                }
            }
        }
        let (piece, rest) = self.text.split_at(p);
        self.text = rest;
        proof {
            assert(piece.spec_bytes() =~= b.take(p as int));
            assert(encode_utf8(piece@) == encode_utf8(chars.take(c as int)));
            assert(decode_utf8(encode_utf8(piece@)) == piece@);
            assert(decode_utf8(encode_utf8(chars.take(c as int))) == chars.take(c as int));
            assert(self.text.spec_bytes() =~= b.skip(p as int));
            assert(decode_utf8(encode_utf8(self.text@)) == self.text@);
            assert(decode_utf8(encode_utf8(chars.skip(c as int))) == chars.skip(c as int));
        }
        Ok(Some(piece))
    }

    /// Reads the next line, without its terminator (`\n`, `\r`, `\r\n` or
    /// `\n\r`); `None` at the end of the text.
    pub fn next_line(&mut self) -> (r: Result<Option<&'a str>, ScannerError>)
        requires
            old(self).wf(),
        ensures
            final(self).wf(),
            r matches Ok(o) ==> str_of(o) == line_of(old(self).stream()),
            final(self).stream() == after_line(old(self).stream()),
            r is Ok,
    {
        let bytes = self.text.as_bytes();
        let ghost b = self.stream();
        if bytes.len() == 0 {
            assert(after_line(b) =~= b);
            return Ok(None);
        }
        let (l, c) = line_span(bytes, 0);
        assert(bytes@.skip(0) =~= b);
        proof {
            lemma_eol_at_line_end(b, 0);
            lemma_boundary_at(b, l as int);
        }
        let (line, after) = self.text.split_at(l);
        self.text = after;
        assert(self.stream() =~= b.skip(l as int));
        if c > l {
            self.drop_ascii();
            if c > l + 1 {
                assert(self.stream()[0] == b[l + 1]);
                self.drop_ascii();
            }
        }
        assert(self.stream() =~= after_line(b));
        assert(line.spec_bytes() =~= b.take(l as int));
        Ok(Some(line))
    }

    /// Skips whitespace. Says whether there was anything left to read before it.
    pub fn skip_whitespaces(&mut self) -> (r: Result<bool, ScannerError>)
        requires
            old(self).wf(),
        ensures
            final(self).wf(),
            r matches Ok(x) ==> x == (old(self).stream().len() > 0),
            final(self).stream() == old(self).stream().skip(token_start(old(self).stream(), true)),
            r is Ok,
    {
        let ghost s = self.stream();
        let ghost mut i: int = 0;
        let nonempty = self.text.as_bytes().len() > 0;
        assert(s.skip(0) =~= s);
        loop
            invariant
                0 <= i <= s.len(),
                s == old(self).stream(),
                self.stream() == s.skip(i),
                crate::text::ws_run_from(s, 0, true) == crate::text::ws_run_from(s, i, true),
                nonempty == (s.len() > 0),
            decreases s.len() - i,
        {
            let bytes = self.text.as_bytes();
            let ghost b = self.stream();
            if bytes.len() == 0 {
                return Ok(nonempty);
            }
            let x = bytes[0];
            assert(x == s[i]);
            if crate::classify::is_whitespace_1(x) {
                self.drop_ascii();
                proof {
                    i = i + 1;
                }
                assert(self.stream() =~= s.skip(i));
                continue ;
            }
            if bytes.len() >= 3 && crate::classify::is_whitespace_3(x, bytes[1], bytes[2]) {
                assert(bytes[1] == s[i + 1] && bytes[2] == s[i + 2]);
                proof {
                    assert(length_of_first_scalar(b) == 3);
                    lemma_boundary_after_first(b);
                }
                let (_, rest) = self.text.split_at(3);
                self.text = rest;
                proof {
                    i = i + 3;
                }
                assert(self.stream() =~= s.skip(i));
                continue ;
            }
            if bytes.len() >= 3 {
                assert(bytes[1] == s[i + 1] && bytes[2] == s[i + 2]);
            }
            assert(ws_at(s, i, true) == 0);
            return Ok(nonempty);
        }
    }

    /// Reads the next whitespace-separated token; `None` when only whitespace
    /// is left.
    #[verifier::rlimit(40)]
    pub fn next(&mut self) -> (r: Result<Option<&'a str>, ScannerError>)
        requires
            old(self).wf(),
        ensures
            final(self).wf(),
            r matches Ok(o) ==> str_of(o) == token_of(old(self).stream(), true),
            final(self).stream() == after_token(old(self).stream(), true),
            r is Ok,
    {
        let ghost s = self.stream();
        let _ = self.skip_whitespaces();
        let ghost st = token_start(s, true);
        proof {
            crate::extract::lemma_ws_run_bounds(s, 0, true);
        }
        let bytes = self.text.as_bytes();
        let ghost b = self.stream();
        if bytes.len() == 0 {
            assert(token_end(s, true) == s.len());
            assert(self.stream() =~= after_token(s, true));
            return Ok(None);
        }
        let e = token_span(bytes, 0, 0, true);
        assert(bytes@.skip(0) =~= b);
        proof {
            crate::extract::lemma_token_end_skip(s, st, 0, true);
            crate::extract::lemma_token_end_bounds(s, st, true);
            if e < b.len() {
                lemma_token_stops_at_ws(b, 0);
                assert(ws_at(b, e as int, true) > 0);
            }
            lemma_boundary_at(b, e as int);
        }
        let (tok, after) = self.text.split_at(e);
        self.text = after;
        assert(tok.spec_bytes() =~= s.subrange(st, token_end(s, true)));
        assert(self.stream() =~= after_token(s, true));
        Ok(Some(tok))
    }

    /// Reads up to the first occurrence of `boundary`, which it consumes;
    /// without one (or with an empty `boundary`), reads everything. `None`
    /// at the end of the text.
    pub fn next_until(&mut self, boundary: &str) -> (r: Result<Option<&'a str>, ScannerError>)
        requires
            old(self).wf(),
        ensures
            final(self).wf(),
            r matches Ok(o) ==> str_of(o) == until_of(old(self).stream(), boundary.spec_bytes()),
            final(self).stream() == after_until(old(self).stream(), boundary.spec_bytes()),
            r is Ok,
    {
        let bytes = self.text.as_bytes();
        let bnd = boundary.as_bytes();
        let ghost s = self.stream();
        let ghost bs = bnd@;
        if bytes.len() == 0 {
            assert(after_until(s, bs) =~= s);
            return Ok(None);
        }
        let u = until_span(bytes, 0, bnd);
        assert(bytes@.skip(0) =~= s);
        proof {
            crate::text::lemma_find_fits(s, bs, 0);
            if u < s.len() {
                assert(s.subrange(u as int, u + bs.len()) == bs);
                assert(s[u as int] == bs[0]);
            }
            lemma_boundary_at(s, u as int);
        }
        let (piece, after) = self.text.split_at(u);
        self.text = after;
        assert(piece.spec_bytes() =~= s.take(u as int));
        assert(self.stream() =~= s.skip(u as int));
        if u < bytes.len() {
            let ghost a = self.stream();
            proof {
                assert(a.take(bs.len() as int) =~= bs);
                lemma_prefix_boundary(a, bs);
            }
            let (_, rest) = self.text.split_at(bnd.len());
            self.text = rest;
            assert(self.stream() =~= s.skip(u + bs.len()));
        }
        assert(self.stream() =~= after_until(s, bs));
        Ok(Some(piece))
    }

    fn next_text(&mut self) -> (r: Result<Option<&'a str>, ScannerError>)
        requires
            old(self).wf(),
        ensures
            final(self).wf(),
            r matches Ok(o) ==> str_text_of(o) == decode_opt(token_of(old(self).stream(), true), true),
            final(self).stream() == after_token(old(self).stream(), true),
            r is Ok,
    {
        let r = self.next();
        match r {
            Ok(Some(t)) => {
                proof {
                    lemma_decode_lossy_valid(t.spec_bytes());
                }
                Ok(Some(t))
            },
            _ => Ok(None),
        }
    }

    fn until_text(&mut self, boundary: &str) -> (r: Result<Option<&'a str>, ScannerError>)
        requires
            old(self).wf(),
        ensures
            final(self).wf(),
            r matches Ok(o) ==> str_text_of(o) == decode_opt(
                until_of(old(self).stream(), boundary.spec_bytes()),
                true,
            ),
            final(self).stream() == after_until(old(self).stream(), boundary.spec_bytes()),
            r is Ok,
    {
        let r = self.next_until(boundary);
        match r {
            Ok(Some(t)) => {
                proof {
                    lemma_decode_lossy_valid(t.spec_bytes());
                }
                Ok(Some(t))
            },
            _ => Ok(None),
        }
    }

    /// Reads the next token and parses it as `u8`: `None` when no token is
    /// left, a parse error (with the token consumed) when it is no numeral of
    /// that type.
    pub fn next_u8(&mut self) -> (r: Result<Option<u8>, ScannerError>)
        requires
            old(self).wf(),
        ensures
            final(self).wf(),
            !(r matches Err(ScannerError::IOError(_))) ==> final(self).stream() == after_token(
                old(self).stream(),
                true,
            ),
            !(r matches Err(ScannerError::IOError(_))) ==> int_outcome(
                decode_opt(token_of(old(self).stream(), true), true),
                false,
                0,
                u8::MAX as int,
            ) == (match r {
                Ok(Some(v)) => Some(Some(v as int)),
                Ok(None) => Some(None),
                _ => None::<Option<int>>,
            }),
            !(r matches Err(ScannerError::ParseFloatError(_))),
            !(r matches Err(ScannerError::IOError(_))),
    {
        let text = match self.next_text() {
            Ok(t) => t,
            Err(e) => return Err(e),
        };
        match text {
            Some(s) => match parse_u8(s) {
                Ok(v) => Ok(Some(v)),
                Err(e) => Err(ScannerError::ParseIntError(e)),
            },
            None => Ok(None),
        }
    }

    /// Reads the next token and parses it as `u16`: `None` when no token is
    /// left, a parse error (with the token consumed) when it is no numeral of
    /// that type.
    pub fn next_u16(&mut self) -> (r: Result<Option<u16>, ScannerError>)
        requires
            old(self).wf(),
        ensures
            final(self).wf(),
            !(r matches Err(ScannerError::IOError(_))) ==> final(self).stream() == after_token(
                old(self).stream(),
                true,
            ),
            !(r matches Err(ScannerError::IOError(_))) ==> int_outcome(
                decode_opt(token_of(old(self).stream(), true), true),
                false,
                0,
                u16::MAX as int,
            ) == (match r {
                Ok(Some(v)) => Some(Some(v as int)),
                Ok(None) => Some(None),
                _ => None::<Option<int>>,
            }),
            !(r matches Err(ScannerError::ParseFloatError(_))),
            !(r matches Err(ScannerError::IOError(_))),
    {
        let text = match self.next_text() {
            Ok(t) => t,
            Err(e) => return Err(e),
        };
        match text {
            Some(s) => match parse_u16(s) {
                Ok(v) => Ok(Some(v)),
                Err(e) => Err(ScannerError::ParseIntError(e)),
            },
            None => Ok(None),
        }
    }

    /// Reads the next token and parses it as `u32`: `None` when no token is
    /// left, a parse error (with the token consumed) when it is no numeral of
    /// that type.
    pub fn next_u32(&mut self) -> (r: Result<Option<u32>, ScannerError>)
        requires
            old(self).wf(),
        ensures
            final(self).wf(),
            !(r matches Err(ScannerError::IOError(_))) ==> final(self).stream() == after_token(
                old(self).stream(),
                true,
            ),
            !(r matches Err(ScannerError::IOError(_))) ==> int_outcome(
                decode_opt(token_of(old(self).stream(), true), true),
                false,
                0,
                u32::MAX as int,
            ) == (match r {
                Ok(Some(v)) => Some(Some(v as int)),
                Ok(None) => Some(None),
                _ => None::<Option<int>>,
            }),
            !(r matches Err(ScannerError::ParseFloatError(_))),
            !(r matches Err(ScannerError::IOError(_))),
    {
        let text = match self.next_text() {
            Ok(t) => t,
            Err(e) => return Err(e),
        };
        match text {
            Some(s) => match parse_u32(s) {
                Ok(v) => Ok(Some(v)),
                Err(e) => Err(ScannerError::ParseIntError(e)),
            },
            None => Ok(None),
        }
    }

    /// Reads the next token and parses it as `u64`: `None` when no token is
    /// left, a parse error (with the token consumed) when it is no numeral of
    /// that type.
    pub fn next_u64(&mut self) -> (r: Result<Option<u64>, ScannerError>)
        requires
            old(self).wf(),
        ensures
            final(self).wf(),
            !(r matches Err(ScannerError::IOError(_))) ==> final(self).stream() == after_token(
                old(self).stream(),
                true,
            ),
            !(r matches Err(ScannerError::IOError(_))) ==> int_outcome(
                decode_opt(token_of(old(self).stream(), true), true),
                false,
                0,
                u64::MAX as int,
            ) == (match r {
                Ok(Some(v)) => Some(Some(v as int)),
                Ok(None) => Some(None),
                _ => None::<Option<int>>,
            }),
            !(r matches Err(ScannerError::ParseFloatError(_))),
            !(r matches Err(ScannerError::IOError(_))),
    {
        let text = match self.next_text() {
            Ok(t) => t,
            Err(e) => return Err(e),
        };
        match text {
            Some(s) => match parse_u64(s) {
                Ok(v) => Ok(Some(v)),
                Err(e) => Err(ScannerError::ParseIntError(e)),
            },
            None => Ok(None),
        }
    }

    /// Reads the next token and parses it as `u128`: `None` when no token is
    /// left, a parse error (with the token consumed) when it is no numeral of
    /// that type.
    pub fn next_u128(&mut self) -> (r: Result<Option<u128>, ScannerError>)
        requires
            old(self).wf(),
        ensures
            final(self).wf(),
            !(r matches Err(ScannerError::IOError(_))) ==> final(self).stream() == after_token(
                old(self).stream(),
                true,
            ),
            !(r matches Err(ScannerError::IOError(_))) ==> int_outcome(
                decode_opt(token_of(old(self).stream(), true), true),
                false,
                0,
                u128::MAX as int,
            ) == (match r {
                Ok(Some(v)) => Some(Some(v as int)),
                Ok(None) => Some(None),
                _ => None::<Option<int>>,
            }),
            !(r matches Err(ScannerError::ParseFloatError(_))),
            !(r matches Err(ScannerError::IOError(_))),
    {
        let text = match self.next_text() {
            Ok(t) => t,
            Err(e) => return Err(e),
        };
        match text {
            Some(s) => match parse_u128(s) {
                Ok(v) => Ok(Some(v)),
                Err(e) => Err(ScannerError::ParseIntError(e)),
            },
            None => Ok(None),
        }
    }

    /// Reads the next token and parses it as `usize`: `None` when no token is
    /// left, a parse error (with the token consumed) when it is no numeral of
    /// that type.
    pub fn next_usize(&mut self) -> (r: Result<Option<usize>, ScannerError>)
        requires
            old(self).wf(),
        ensures
            final(self).wf(),
            !(r matches Err(ScannerError::IOError(_))) ==> final(self).stream() == after_token(
                old(self).stream(),
                true,
            ),
            !(r matches Err(ScannerError::IOError(_))) ==> int_outcome(
                decode_opt(token_of(old(self).stream(), true), true),
                false,
                0,
                usize::MAX as int,
            ) == (match r {
                Ok(Some(v)) => Some(Some(v as int)),
                Ok(None) => Some(None),
                _ => None::<Option<int>>,
            }),
            !(r matches Err(ScannerError::ParseFloatError(_))),
            !(r matches Err(ScannerError::IOError(_))),
    {
        let text = match self.next_text() {
            Ok(t) => t,
            Err(e) => return Err(e),
        };
        match text {
            Some(s) => match parse_usize(s) {
                Ok(v) => Ok(Some(v)),
                Err(e) => Err(ScannerError::ParseIntError(e)),
            },
            None => Ok(None),
        }
    }

    /// Reads the next token and parses it as `i8`: `None` when no token is
    /// left, a parse error (with the token consumed) when it is no numeral of
    /// that type.
    pub fn next_i8(&mut self) -> (r: Result<Option<i8>, ScannerError>)
        requires
            old(self).wf(),
        ensures
            final(self).wf(),
            !(r matches Err(ScannerError::IOError(_))) ==> final(self).stream() == after_token(
                old(self).stream(),
                true,
            ),
            !(r matches Err(ScannerError::IOError(_))) ==> int_outcome(
                decode_opt(token_of(old(self).stream(), true), true),
                true,
                i8::MIN as int,
                i8::MAX as int,
            ) == (match r {
                Ok(Some(v)) => Some(Some(v as int)),
                Ok(None) => Some(None),
                _ => None::<Option<int>>,
            }),
            !(r matches Err(ScannerError::ParseFloatError(_))),
            !(r matches Err(ScannerError::IOError(_))),
    {
        let text = match self.next_text() {
            Ok(t) => t,
            Err(e) => return Err(e),
        };
        match text {
            Some(s) => match parse_i8(s) {
                Ok(v) => Ok(Some(v)),
                Err(e) => Err(ScannerError::ParseIntError(e)),
            },
            None => Ok(None),
        }
    }

    /// Reads the next token and parses it as `i16`: `None` when no token is
    /// left, a parse error (with the token consumed) when it is no numeral of
    /// that type.
    pub fn next_i16(&mut self) -> (r: Result<Option<i16>, ScannerError>)
        requires
            old(self).wf(),
        ensures
            final(self).wf(),
            !(r matches Err(ScannerError::IOError(_))) ==> final(self).stream() == after_token(
                old(self).stream(),
                true,
            ),
            !(r matches Err(ScannerError::IOError(_))) ==> int_outcome(
                decode_opt(token_of(old(self).stream(), true), true),
                true,
                i16::MIN as int,
                i16::MAX as int,
            ) == (match r {
                Ok(Some(v)) => Some(Some(v as int)),
                Ok(None) => Some(None),
                _ => None::<Option<int>>,
            }),
            !(r matches Err(ScannerError::ParseFloatError(_))),
            !(r matches Err(ScannerError::IOError(_))),
    {
        let text = match self.next_text() {
            Ok(t) => t,
            Err(e) => return Err(e),
        };
        match text {
            Some(s) => match parse_i16(s) {
                Ok(v) => Ok(Some(v)),
                Err(e) => Err(ScannerError::ParseIntError(e)),
            },
            None => Ok(None),
        }
    }

    /// Reads the next token and parses it as `i32`: `None` when no token is
    /// left, a parse error (with the token consumed) when it is no numeral of
    /// that type.
    pub fn next_i32(&mut self) -> (r: Result<Option<i32>, ScannerError>)
        requires
            old(self).wf(),
        ensures
            final(self).wf(),
            !(r matches Err(ScannerError::IOError(_))) ==> final(self).stream() == after_token(
                old(self).stream(),
                true,
            ),
            !(r matches Err(ScannerError::IOError(_))) ==> int_outcome(
                decode_opt(token_of(old(self).stream(), true), true),
                true,
                i32::MIN as int,
                i32::MAX as int,
            ) == (match r {
                Ok(Some(v)) => Some(Some(v as int)),
                Ok(None) => Some(None),
                _ => None::<Option<int>>,
            }),
            !(r matches Err(ScannerError::ParseFloatError(_))),
            !(r matches Err(ScannerError::IOError(_))),
    {
        let text = match self.next_text() {
            Ok(t) => t,
            Err(e) => return Err(e),
        };
        match text {
            Some(s) => match parse_i32(s) {
                Ok(v) => Ok(Some(v)),
                Err(e) => Err(ScannerError::ParseIntError(e)),
            },
            None => Ok(None),
        }
    }

    /// Reads the next token and parses it as `i64`: `None` when no token is
    /// left, a parse error (with the token consumed) when it is no numeral of
    /// that type.
    pub fn next_i64(&mut self) -> (r: Result<Option<i64>, ScannerError>)
        requires
            old(self).wf(),
        ensures
            final(self).wf(),
            !(r matches Err(ScannerError::IOError(_))) ==> final(self).stream() == after_token(
                old(self).stream(),
                true,
            ),
            !(r matches Err(ScannerError::IOError(_))) ==> int_outcome(
                decode_opt(token_of(old(self).stream(), true), true),
                true,
                i64::MIN as int,
                i64::MAX as int,
            ) == (match r {
                Ok(Some(v)) => Some(Some(v as int)),
                Ok(None) => Some(None),
                _ => None::<Option<int>>,
            }),
            !(r matches Err(ScannerError::ParseFloatError(_))),
            !(r matches Err(ScannerError::IOError(_))),
    {
        let text = match self.next_text() {
            Ok(t) => t,
            Err(e) => return Err(e),
        };
        match text {
            Some(s) => match parse_i64(s) {
                Ok(v) => Ok(Some(v)),
                Err(e) => Err(ScannerError::ParseIntError(e)),
            },
            None => Ok(None),
        }
    }

    /// Reads the next token and parses it as `i128`: `None` when no token is
    /// left, a parse error (with the token consumed) when it is no numeral of
    /// that type.
    pub fn next_i128(&mut self) -> (r: Result<Option<i128>, ScannerError>)
        requires
            old(self).wf(),
        ensures
            final(self).wf(),
            !(r matches Err(ScannerError::IOError(_))) ==> final(self).stream() == after_token(
                old(self).stream(),
                true,
            ),
            !(r matches Err(ScannerError::IOError(_))) ==> int_outcome(
                decode_opt(token_of(old(self).stream(), true), true),
                true,
                i128::MIN as int,
                i128::MAX as int,
            ) == (match r {
                Ok(Some(v)) => Some(Some(v as int)),
                Ok(None) => Some(None),
                _ => None::<Option<int>>,
            }),
            !(r matches Err(ScannerError::ParseFloatError(_))),
            !(r matches Err(ScannerError::IOError(_))),
    {
        let text = match self.next_text() {
            Ok(t) => t,
            Err(e) => return Err(e),
        };
        match text {
            Some(s) => match parse_i128(s) {
                Ok(v) => Ok(Some(v)),
                Err(e) => Err(ScannerError::ParseIntError(e)),
            },
            None => Ok(None),
        }
    }

    /// Reads the next token and parses it as `isize`: `None` when no token is
    /// left, a parse error (with the token consumed) when it is no numeral of
    /// that type.
    pub fn next_isize(&mut self) -> (r: Result<Option<isize>, ScannerError>)
        requires
            old(self).wf(),
        ensures
            final(self).wf(),
            !(r matches Err(ScannerError::IOError(_))) ==> final(self).stream() == after_token(
                old(self).stream(),
                true,
            ),
            !(r matches Err(ScannerError::IOError(_))) ==> int_outcome(
                decode_opt(token_of(old(self).stream(), true), true),
                true,
                isize::MIN as int,
                isize::MAX as int,
            ) == (match r {
                Ok(Some(v)) => Some(Some(v as int)),
                Ok(None) => Some(None),
                _ => None::<Option<int>>,
            }),
            !(r matches Err(ScannerError::ParseFloatError(_))),
            !(r matches Err(ScannerError::IOError(_))),
    {
        let text = match self.next_text() {
            Ok(t) => t,
            Err(e) => return Err(e),
        };
        match text {
            Some(s) => match parse_isize(s) {
                Ok(v) => Ok(Some(v)),
                Err(e) => Err(ScannerError::ParseIntError(e)),
            },
            None => Ok(None),
        }
    }

    /// Reads up to the first occurrence of `boundary`, which it consumes, and
    /// parses what precedes it as `u8`.
    pub fn next_u8_until(&mut self, boundary: &str) -> (r: Result<Option<u8>, ScannerError>)
        requires
            old(self).wf(),
        ensures
            final(self).wf(),
            !(r matches Err(ScannerError::IOError(_))) ==> final(self).stream() == after_until(
                old(self).stream(),
                boundary.spec_bytes(),
            ),
            !(r matches Err(ScannerError::IOError(_))) ==> int_outcome(
                decode_opt(until_of(old(self).stream(), boundary.spec_bytes()), true),
                false,
                0,
                u8::MAX as int,
            ) == (match r {
                Ok(Some(v)) => Some(Some(v as int)),
                Ok(None) => Some(None),
                _ => None::<Option<int>>,
            }),
            !(r matches Err(ScannerError::ParseFloatError(_))),
            !(r matches Err(ScannerError::IOError(_))),
    {
        let text = match self.until_text(boundary) {
            Ok(t) => t,
            Err(e) => return Err(e),
        };
        match text {
            Some(s) => match parse_u8(s) {
                Ok(v) => Ok(Some(v)),
                Err(e) => Err(ScannerError::ParseIntError(e)),
            },
            None => Ok(None),
        }
    }

    /// Reads up to the first occurrence of `boundary`, which it consumes, and
    /// parses what precedes it as `u16`.
    pub fn next_u16_until(&mut self, boundary: &str) -> (r: Result<Option<u16>, ScannerError>)
        requires
            old(self).wf(),
        ensures
            final(self).wf(),
            !(r matches Err(ScannerError::IOError(_))) ==> final(self).stream() == after_until(
                old(self).stream(),
                boundary.spec_bytes(),
            ),
            !(r matches Err(ScannerError::IOError(_))) ==> int_outcome(
                decode_opt(until_of(old(self).stream(), boundary.spec_bytes()), true),
                false,
                0,
                u16::MAX as int,
            ) == (match r {
                Ok(Some(v)) => Some(Some(v as int)),
                Ok(None) => Some(None),
                _ => None::<Option<int>>,
            }),
            !(r matches Err(ScannerError::ParseFloatError(_))),
            !(r matches Err(ScannerError::IOError(_))),
    {
        let text = match self.until_text(boundary) {
            Ok(t) => t,
            Err(e) => return Err(e),
        };
        match text {
            Some(s) => match parse_u16(s) {
                Ok(v) => Ok(Some(v)),
                Err(e) => Err(ScannerError::ParseIntError(e)),
            },
            None => Ok(None),
        }
    }

    /// Reads up to the first occurrence of `boundary`, which it consumes, and
    /// parses what precedes it as `u32`.
    pub fn next_u32_until(&mut self, boundary: &str) -> (r: Result<Option<u32>, ScannerError>)
        requires
            old(self).wf(),
        ensures
            final(self).wf(),
            !(r matches Err(ScannerError::IOError(_))) ==> final(self).stream() == after_until(
                old(self).stream(),
                boundary.spec_bytes(),
            ),
            !(r matches Err(ScannerError::IOError(_))) ==> int_outcome(
                decode_opt(until_of(old(self).stream(), boundary.spec_bytes()), true),
                false,
                0,
                u32::MAX as int,
            ) == (match r {
                Ok(Some(v)) => Some(Some(v as int)),
                Ok(None) => Some(None),
                _ => None::<Option<int>>,
            }),
            !(r matches Err(ScannerError::ParseFloatError(_))),
            !(r matches Err(ScannerError::IOError(_))),
    {
        let text = match self.until_text(boundary) {
            Ok(t) => t,
            Err(e) => return Err(e),
        };
        match text {
            Some(s) => match parse_u32(s) {
                Ok(v) => Ok(Some(v)),
                Err(e) => Err(ScannerError::ParseIntError(e)),
            },
            None => Ok(None),
        }
    }

    /// Reads up to the first occurrence of `boundary`, which it consumes, and
    /// parses what precedes it as `u64`.
    pub fn next_u64_until(&mut self, boundary: &str) -> (r: Result<Option<u64>, ScannerError>)
        requires
            old(self).wf(),
        ensures
            final(self).wf(),
            !(r matches Err(ScannerError::IOError(_))) ==> final(self).stream() == after_until(
                old(self).stream(),
                boundary.spec_bytes(),
            ),
            !(r matches Err(ScannerError::IOError(_))) ==> int_outcome(
                decode_opt(until_of(old(self).stream(), boundary.spec_bytes()), true),
                false,
                0,
                u64::MAX as int,
            ) == (match r {
                Ok(Some(v)) => Some(Some(v as int)),
                Ok(None) => Some(None),
                _ => None::<Option<int>>,
            }),
            !(r matches Err(ScannerError::ParseFloatError(_))),
            !(r matches Err(ScannerError::IOError(_))),
    {
        let text = match self.until_text(boundary) {
            Ok(t) => t,
            Err(e) => return Err(e),
        };
        match text {
            Some(s) => match parse_u64(s) {
                Ok(v) => Ok(Some(v)),
                Err(e) => Err(ScannerError::ParseIntError(e)),
            },
            None => Ok(None),
        }
    }

    /// Reads up to the first occurrence of `boundary`, which it consumes, and
    /// parses what precedes it as `u128`.
    pub fn next_u128_until(&mut self, boundary: &str) -> (r: Result<Option<u128>, ScannerError>)
        requires
            old(self).wf(),
        ensures
            final(self).wf(),
            !(r matches Err(ScannerError::IOError(_))) ==> final(self).stream() == after_until(
                old(self).stream(),
                boundary.spec_bytes(),
            ),
            !(r matches Err(ScannerError::IOError(_))) ==> int_outcome(
                decode_opt(until_of(old(self).stream(), boundary.spec_bytes()), true),
                false,
                0,
                u128::MAX as int,
            ) == (match r {
                Ok(Some(v)) => Some(Some(v as int)),
                Ok(None) => Some(None),
                _ => None::<Option<int>>,
            }),
            !(r matches Err(ScannerError::ParseFloatError(_))),
            !(r matches Err(ScannerError::IOError(_))),
    {
        let text = match self.until_text(boundary) {
            Ok(t) => t,
            Err(e) => return Err(e),
        };
        match text {
            Some(s) => match parse_u128(s) {
                Ok(v) => Ok(Some(v)),
                Err(e) => Err(ScannerError::ParseIntError(e)),
            },
            None => Ok(None),
        }
    }

    /// Reads up to the first occurrence of `boundary`, which it consumes, and
    /// parses what precedes it as `usize`.
    pub fn next_usize_until(&mut self, boundary: &str) -> (r: Result<Option<usize>, ScannerError>)
        requires
            old(self).wf(),
        ensures
            final(self).wf(),
            !(r matches Err(ScannerError::IOError(_))) ==> final(self).stream() == after_until(
                old(self).stream(),
                boundary.spec_bytes(),
            ),
            !(r matches Err(ScannerError::IOError(_))) ==> int_outcome(
                decode_opt(until_of(old(self).stream(), boundary.spec_bytes()), true),
                false,
                0,
                usize::MAX as int,
            ) == (match r {
                Ok(Some(v)) => Some(Some(v as int)),
                Ok(None) => Some(None),
                _ => None::<Option<int>>,
            }),
            !(r matches Err(ScannerError::ParseFloatError(_))),
            !(r matches Err(ScannerError::IOError(_))),
    {
        let text = match self.until_text(boundary) {
            Ok(t) => t,
            Err(e) => return Err(e),
        };
        match text {
            Some(s) => match parse_usize(s) {
                Ok(v) => Ok(Some(v)),
                Err(e) => Err(ScannerError::ParseIntError(e)),
            },
            None => Ok(None),
        }
    }

    /// Reads up to the first occurrence of `boundary`, which it consumes, and
    /// parses what precedes it as `i8`.
    pub fn next_i8_until(&mut self, boundary: &str) -> (r: Result<Option<i8>, ScannerError>)
        requires
            old(self).wf(),
        ensures
            final(self).wf(),
            !(r matches Err(ScannerError::IOError(_))) ==> final(self).stream() == after_until(
                old(self).stream(),
                boundary.spec_bytes(),
            ),
            !(r matches Err(ScannerError::IOError(_))) ==> int_outcome(
                decode_opt(until_of(old(self).stream(), boundary.spec_bytes()), true),
                true,
                i8::MIN as int,
                i8::MAX as int,
            ) == (match r {
                Ok(Some(v)) => Some(Some(v as int)),
                Ok(None) => Some(None),
                _ => None::<Option<int>>,
            }),
            !(r matches Err(ScannerError::ParseFloatError(_))),
            !(r matches Err(ScannerError::IOError(_))),
    {
        let text = match self.until_text(boundary) {
            Ok(t) => t,
            Err(e) => return Err(e),
        };
        match text {
            Some(s) => match parse_i8(s) {
                Ok(v) => Ok(Some(v)),
                Err(e) => Err(ScannerError::ParseIntError(e)),
            },
            None => Ok(None),
        }
    }

    /// Reads up to the first occurrence of `boundary`, which it consumes, and
    /// parses what precedes it as `i16`.
    pub fn next_i16_until(&mut self, boundary: &str) -> (r: Result<Option<i16>, ScannerError>)
        requires
            old(self).wf(),
        ensures
            final(self).wf(),
            !(r matches Err(ScannerError::IOError(_))) ==> final(self).stream() == after_until(
                old(self).stream(),
                boundary.spec_bytes(),
            ),
            !(r matches Err(ScannerError::IOError(_))) ==> int_outcome(
                decode_opt(until_of(old(self).stream(), boundary.spec_bytes()), true),
                true,
                i16::MIN as int,
                i16::MAX as int,
            ) == (match r {
                Ok(Some(v)) => Some(Some(v as int)),
                Ok(None) => Some(None),
                _ => None::<Option<int>>,
            }),
            !(r matches Err(ScannerError::ParseFloatError(_))),
            !(r matches Err(ScannerError::IOError(_))),
    {
        let text = match self.until_text(boundary) {
            Ok(t) => t,
            Err(e) => return Err(e),
        };
        match text {
            Some(s) => match parse_i16(s) {
                Ok(v) => Ok(Some(v)),
                Err(e) => Err(ScannerError::ParseIntError(e)),
            },
            None => Ok(None),
        }
    }

    /// Reads up to the first occurrence of `boundary`, which it consumes, and
    /// parses what precedes it as `i32`.
    pub fn next_i32_until(&mut self, boundary: &str) -> (r: Result<Option<i32>, ScannerError>)
        requires
            old(self).wf(),
        ensures
            final(self).wf(),
            !(r matches Err(ScannerError::IOError(_))) ==> final(self).stream() == after_until(
                old(self).stream(),
                boundary.spec_bytes(),
            ),
            !(r matches Err(ScannerError::IOError(_))) ==> int_outcome(
                decode_opt(until_of(old(self).stream(), boundary.spec_bytes()), true),
                true,
                i32::MIN as int,
                i32::MAX as int,
            ) == (match r {
                Ok(Some(v)) => Some(Some(v as int)),
                Ok(None) => Some(None),
                _ => None::<Option<int>>,
            }),
            !(r matches Err(ScannerError::ParseFloatError(_))),
            !(r matches Err(ScannerError::IOError(_))),
    {
        let text = match self.until_text(boundary) {
            Ok(t) => t,
            Err(e) => return Err(e),
        };
        match text {
            Some(s) => match parse_i32(s) {
                Ok(v) => Ok(Some(v)),
                Err(e) => Err(ScannerError::ParseIntError(e)),
            },
            None => Ok(None),
        }
    }

    /// Reads up to the first occurrence of `boundary`, which it consumes, and
    /// parses what precedes it as `i64`.
    pub fn next_i64_until(&mut self, boundary: &str) -> (r: Result<Option<i64>, ScannerError>)
        requires
            old(self).wf(),
        ensures
            final(self).wf(),
            !(r matches Err(ScannerError::IOError(_))) ==> final(self).stream() == after_until(
                old(self).stream(),
                boundary.spec_bytes(),
            ),
            !(r matches Err(ScannerError::IOError(_))) ==> int_outcome(
                decode_opt(until_of(old(self).stream(), boundary.spec_bytes()), true),
                true,
                i64::MIN as int,
                i64::MAX as int,
            ) == (match r {
                Ok(Some(v)) => Some(Some(v as int)),
                Ok(None) => Some(None),
                _ => None::<Option<int>>,
            }),
            !(r matches Err(ScannerError::ParseFloatError(_))),
            !(r matches Err(ScannerError::IOError(_))),
    {
        let text = match self.until_text(boundary) {
            Ok(t) => t,
            Err(e) => return Err(e),
        };
        match text {
            Some(s) => match parse_i64(s) {
                Ok(v) => Ok(Some(v)),
                Err(e) => Err(ScannerError::ParseIntError(e)),
            },
            None => Ok(None),
        }
    }

    /// Reads up to the first occurrence of `boundary`, which it consumes, and
    /// parses what precedes it as `i128`.
    pub fn next_i128_until(&mut self, boundary: &str) -> (r: Result<Option<i128>, ScannerError>)
        requires
            old(self).wf(),
        ensures
            final(self).wf(),
            !(r matches Err(ScannerError::IOError(_))) ==> final(self).stream() == after_until(
                old(self).stream(),
                boundary.spec_bytes(),
            ),
            !(r matches Err(ScannerError::IOError(_))) ==> int_outcome(
                decode_opt(until_of(old(self).stream(), boundary.spec_bytes()), true),
                true,
                i128::MIN as int,
                i128::MAX as int,
            ) == (match r {
                Ok(Some(v)) => Some(Some(v as int)),
                Ok(None) => Some(None),
                _ => None::<Option<int>>,
            }),
            !(r matches Err(ScannerError::ParseFloatError(_))),
            !(r matches Err(ScannerError::IOError(_))),
    {
        let text = match self.until_text(boundary) {
            Ok(t) => t,
            Err(e) => return Err(e),
        };
        match text {
            Some(s) => match parse_i128(s) {
                Ok(v) => Ok(Some(v)),
                Err(e) => Err(ScannerError::ParseIntError(e)),
            },
            None => Ok(None),
        }
    }

    /// Reads up to the first occurrence of `boundary`, which it consumes, and
    /// parses what precedes it as `isize`.
    pub fn next_isize_until(&mut self, boundary: &str) -> (r: Result<Option<isize>, ScannerError>)
        requires
            old(self).wf(),
        ensures
            final(self).wf(),
            !(r matches Err(ScannerError::IOError(_))) ==> final(self).stream() == after_until(
                old(self).stream(),
                boundary.spec_bytes(),
            ),
            !(r matches Err(ScannerError::IOError(_))) ==> int_outcome(
                decode_opt(until_of(old(self).stream(), boundary.spec_bytes()), true),
                true,
                isize::MIN as int,
                isize::MAX as int,
            ) == (match r {
                Ok(Some(v)) => Some(Some(v as int)),
                Ok(None) => Some(None),
                _ => None::<Option<int>>,
            }),
            !(r matches Err(ScannerError::ParseFloatError(_))),
            !(r matches Err(ScannerError::IOError(_))),
    {
        let text = match self.until_text(boundary) {
            Ok(t) => t,
            Err(e) => return Err(e),
        };
        match text {
            Some(s) => match parse_isize(s) {
                Ok(v) => Ok(Some(v)),
                Err(e) => Err(ScannerError::ParseIntError(e)),
            },
            None => Ok(None),
        }
    }
}

} // verus!
