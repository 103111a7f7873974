//! The in-memory single-byte scanner.
use vstd::prelude::*;
use vstd::slice::slice_subrange;

use crate::parse::{
    parse_i128, parse_i16, parse_i32, parse_i64, parse_i8, parse_isize, parse_u128, parse_u16,
    parse_u32, parse_u64, parse_u8, parse_usize,
};
use crate::scanner_error::ScannerError;
use crate::slice_scan::{line_span, token_span, until_span, ws_span};
use crate::text::{
    ascii_char, ascii_char_of, decode_ascii_string, after_line, after_token, after_until, bytes_len, decode_opt,
    int_outcome, line_of, slice_of, text_of, token_of, until_of,
};

verus! {

/// A scanner over bytes that are all in memory; what it returns borrows from
/// them. Its meaning is what follows its position.
pub struct ScannerU8SliceAscii<'a> {
    data: &'a [u8],
    data_length: usize,
    position: usize,
}

impl<'a> ScannerU8SliceAscii<'a> {
    pub closed spec fn wf(&self) -> bool {
        &&& self.data_length == self.data@.len()
        &&& self.position <= self.data_length
    }

    /// The bytes after the position.
    pub closed spec fn stream(&self) -> Seq<u8> {
        self.data@.skip(self.position as int)
    }

    /// A scanner at the start of `data`.
    pub fn new(data: &'a [u8]) -> (r: ScannerU8SliceAscii<'a>)
        ensures
            r.wf(),
            r.stream() == data@,
    {
        let r = ScannerU8SliceAscii { data, data_length: data.len(), position: 0 };
        assert(r.stream() =~= data@);
        r
    }

    /// Reads the next byte as a character; `None` when nothing is left.
    pub fn next_char(&mut self) -> (r: Result<Option<char>, ScannerError>)
        requires
            old(self).wf(),
        ensures
            final(self).wf(),
            r matches Ok(o) ==> o == if old(self).stream().len() == 0 {
                None
            } else {
                Some(ascii_char(old(self).stream()[0]))
            },
            final(self).stream() == if old(self).stream().len() == 0 {
                old(self).stream()
            } else {
                old(self).stream().skip(1)
            },
            r is Ok,
    {
        if self.position == self.data_length {
            return Ok(None);
        }
        let ghost s = self.stream();
        let e = self.data[self.position];
        assert(e == self.stream()[0]);
        self.position = self.position + 1;
        Ok(Some(ascii_char_of(e)))
    }

    /// Reads the next line, without its terminator (`\n`, `\r`, `\r\n` or
    /// `\n\r`); `None` when nothing is left.
    pub fn next_line(&mut self) -> (r: Result<Option<&'a [u8]>, ScannerError>)
        requires
            old(self).wf(),
        ensures
            final(self).wf(),
            r matches Ok(o) ==> slice_of(o) == line_of(old(self).stream()),
            final(self).stream() == after_line(old(self).stream()),
            r is Ok,
    {
        let ghost s = self.stream();
        if self.position == self.data_length {
            assert(after_line(s) =~= s);
            return Ok(None);
        }
        let (l, c) = line_span(self.data, self.position);
        let line = slice_subrange(self.data, self.position, self.position + l);
        assert(line@ =~= s.take(l as int));
        self.position = self.position + c;
        assert(self.stream() =~= after_line(s));
        Ok(Some(line))
    }

    /// Skips whitespace. Says whether there was anything left to read before it.
    pub fn skip_whitespaces(&mut self) -> (r: Result<bool, ScannerError>)
        requires
            old(self).wf(),
        ensures
            final(self).wf(),
            r matches Ok(b) ==> b == (old(self).stream().len() > 0),
            final(self).stream() == old(self).stream().skip(
                crate::text::token_start(old(self).stream(), false),
            ),
            r is Ok,
    {
        let ghost s = self.stream();
        if self.position == self.data_length {
            proof {
                crate::extract::lemma_ws_run_bounds(s, 0, false);
            }
            assert(s.skip(0) =~= s);
            return Ok(false);
        }
        let st = ws_span(self.data, self.position, false);
        self.position = self.position + st;
        assert(self.stream() =~= s.skip(st as int));
        Ok(true)
    }

    /// Reads the next whitespace-separated token; `None` when only whitespace
    /// is left.
    pub fn next(&mut self) -> (r: Result<Option<&'a [u8]>, ScannerError>)
        requires
            old(self).wf(),
        ensures
            final(self).wf(),
            r matches Ok(o) ==> slice_of(o) == token_of(old(self).stream(), false),
            final(self).stream() == after_token(old(self).stream(), false),
            r is Ok,
    {
        let ghost s = self.stream();
        let st = ws_span(self.data, self.position, false);
        proof {
            crate::extract::lemma_ws_run_bounds(s, 0, false);
        }
        if st == self.data_length - self.position {
            self.position = self.data_length;
            assert(self.stream() =~= after_token(s, false));
            return Ok(None);
        }
        let e = token_span(self.data, self.position, st, false);
        let t = slice_subrange(self.data, self.position + st, self.position + e);
        assert(t@ =~= s.subrange(st as int, e as int));
        self.position = self.position + e;
        assert(self.stream() =~= after_token(s, false));
        Ok(Some(t))
    }

    fn next_text(&mut self) -> (r: Result<Option<String>, ScannerError>)
        requires
            old(self).wf(),
        ensures
            final(self).wf(),
            r matches Ok(o) ==> text_of(o) == decode_opt(token_of(old(self).stream(), false), false),
            final(self).stream() == after_token(old(self).stream(), false),
            r is Ok,
    {
        match self.next() {
            Ok(Some(t)) => Ok(Some(decode_ascii_string(t))),
            _ => Ok(None),
        }
    }

    /// Reads at most `max_number_of_bytes` bytes; `None` when nothing is left.
    pub fn next_bytes(&mut self, max_number_of_bytes: usize) -> (r: Result<
        Option<&'a [u8]>,
        ScannerError,
    >)
        requires
            old(self).wf(),
        ensures
            final(self).wf(),
            r matches Ok(o) ==> slice_of(o) == if old(self).stream().len() == 0 {
                None
            } else {
                Some(old(self).stream().take(bytes_len(old(self).stream(), max_number_of_bytes)))
            },
            final(self).stream() == old(self).stream().skip(
                bytes_len(old(self).stream(), max_number_of_bytes),
            ),
            r is Ok,
    {
        let ghost s = self.stream();
        if self.position == self.data_length {
            assert(s.skip(0) =~= s);
            return Ok(None);
        }
        let left = self.data_length - self.position;
        let n = if max_number_of_bytes < left {
            max_number_of_bytes
        } else {
            left
        };
        let t = slice_subrange(self.data, self.position, self.position + n);
        assert(t@ =~= s.take(n as int));
        self.position = self.position + n;
        assert(self.stream() =~= s.skip(n as int));
        Ok(Some(t))
    }

    /// Skips at most `max_number_of_bytes` bytes and says how many; `None`
    /// when nothing is left.
    pub fn drop_next_bytes(&mut self, max_number_of_bytes: usize) -> (r: Result<
        Option<usize>,
        ScannerError,
    >)
        requires
            old(self).wf(),
        ensures
            final(self).wf(),
            r matches Ok(o) ==> o == if old(self).stream().len() == 0 {
                None
            } else {
                Some(bytes_len(old(self).stream(), max_number_of_bytes) as usize)
            },
            final(self).stream() == old(self).stream().skip(
                bytes_len(old(self).stream(), max_number_of_bytes),
            ),
            r is Ok,
    {
        let ghost s = self.stream();
        if self.position == self.data_length {
            assert(s.skip(0) =~= s);
            return Ok(None);
        }
        let left = self.data_length - self.position;
        let n = if max_number_of_bytes < left {
            max_number_of_bytes
        } else {
            left
        };
        self.position = self.position + n;
        assert(self.stream() =~= s.skip(n as int));
        Ok(Some(n))
    }

    /// Reads up to the first occurrence of `boundary`, which it consumes;
    /// without one (or with an empty `boundary`), reads everything. `None`
    /// when nothing is left.
    pub fn next_until(&mut self, boundary: &[u8]) -> (r: Result<Option<&'a [u8]>, ScannerError>)
        requires
            old(self).wf(),
        ensures
            final(self).wf(),
            r matches Ok(o) ==> slice_of(o) == until_of(old(self).stream(), boundary@),
            final(self).stream() == after_until(old(self).stream(), boundary@),
            r is Ok,
    {
        let ghost s = self.stream();
        if self.position == self.data_length {
            assert(after_until(s, boundary@) =~= s);
            return Ok(None);
        }
        let u = until_span(self.data, self.position, boundary);
        proof {
            crate::text::lemma_find_fits(s, boundary@, 0);
        }
        let t = slice_subrange(self.data, self.position, self.position + u);
        assert(t@ =~= s.take(u as int));
        let left = self.data_length - self.position;
        if u < left {
            self.position = self.position + u + boundary.len();
        } else {
            self.position = self.data_length;
        }
        assert(self.stream() =~= after_until(s, boundary@));
        Ok(Some(t))
    }

    fn until_text(&mut self, boundary: &[u8]) -> (r: Result<Option<String>, ScannerError>)
        requires
            old(self).wf(),
        ensures
            final(self).wf(),
            r matches Ok(o) ==> text_of(o) == decode_opt(until_of(old(self).stream(), boundary@), false),
            final(self).stream() == after_until(old(self).stream(), boundary@),
            r is Ok,
    {
        match self.next_until(boundary) {
            Ok(Some(t)) => Ok(Some(decode_ascii_string(t))),
            _ => Ok(None),
        }
    }

    /// Reads the next token and parses it as `u8`: `None` when no token is
    /// left, a parse error (with the token consumed) when it is no numeral of
    /// that type.
    pub fn next_u8(&mut self) -> (r: Result<Option<u8>, ScannerError>)
        requires
            old(self).wf(),
        ensures
            final(self).wf(),
            !(r matches Err(ScannerError::IOError(_))) ==> final(self).stream() == after_token(
                old(self).stream(),
                false,
            ),
            !(r matches Err(ScannerError::IOError(_))) ==> int_outcome(
                decode_opt(token_of(old(self).stream(), false), false),
                false,
                0,
                u8::MAX as int,
            ) == (match r {
                Ok(Some(v)) => Some(Some(v as int)),
                Ok(None) => Some(None),
                _ => None::<Option<int>>,
            }),
            !(r matches Err(ScannerError::ParseFloatError(_))),
            !(r matches Err(ScannerError::IOError(_))),
    {
        let text = match self.next_text() {
            Ok(t) => t,
            Err(e) => return Err(e),
        };
        match text {
            Some(s) => match parse_u8(s.as_str()) {
                Ok(v) => Ok(Some(v)),
                Err(e) => Err(ScannerError::ParseIntError(e)),
            },
            None => Ok(None),
        }
    }

    /// Reads the next token and parses it as `u16`: `None` when no token is
    /// left, a parse error (with the token consumed) when it is no numeral of
    /// that type.
    pub fn next_u16(&mut self) -> (r: Result<Option<u16>, ScannerError>)
        requires
            old(self).wf(),
        ensures
            final(self).wf(),
            !(r matches Err(ScannerError::IOError(_))) ==> final(self).stream() == after_token(
                old(self).stream(),
                false,
            ),
            !(r matches Err(ScannerError::IOError(_))) ==> int_outcome(
                decode_opt(token_of(old(self).stream(), false), false),
                false,
                0,
                u16::MAX as int,
            ) == (match r {
                Ok(Some(v)) => Some(Some(v as int)),
                Ok(None) => Some(None),
                _ => None::<Option<int>>,
            }),
            !(r matches Err(ScannerError::ParseFloatError(_))),
            !(r matches Err(ScannerError::IOError(_))),
    {
        let text = match self.next_text() {
            Ok(t) => t,
            Err(e) => return Err(e),
        };
        match text {
            Some(s) => match parse_u16(s.as_str()) {
                Ok(v) => Ok(Some(v)),
                Err(e) => Err(ScannerError::ParseIntError(e)),
            },
            None => Ok(None),
        }
    }

    /// Reads the next token and parses it as `u32`: `None` when no token is
    /// left, a parse error (with the token consumed) when it is no numeral of
    /// that type.
    pub fn next_u32(&mut self) -> (r: Result<Option<u32>, ScannerError>)
        requires
            old(self).wf(),
        ensures
            final(self).wf(),
            !(r matches Err(ScannerError::IOError(_))) ==> final(self).stream() == after_token(
                old(self).stream(),
                false,
            ),
            !(r matches Err(ScannerError::IOError(_))) ==> int_outcome(
                decode_opt(token_of(old(self).stream(), false), false),
                false,
                0,
                u32::MAX as int,
            ) == (match r {
                Ok(Some(v)) => Some(Some(v as int)),
                Ok(None) => Some(None),
                _ => None::<Option<int>>,
            }),
            !(r matches Err(ScannerError::ParseFloatError(_))),
            !(r matches Err(ScannerError::IOError(_))),
    {
        let text = match self.next_text() {
            Ok(t) => t,
            Err(e) => return Err(e),
        };
        match text {
            Some(s) => match parse_u32(s.as_str()) {
                Ok(v) => Ok(Some(v)),
                Err(e) => Err(ScannerError::ParseIntError(e)),
            },
            None => Ok(None),
        }
    }

    /// Reads the next token and parses it as `u64`: `None` when no token is
    /// left, a parse error (with the token consumed) when it is no numeral of
    /// that type.
    pub fn next_u64(&mut self) -> (r: Result<Option<u64>, ScannerError>)
        requires
            old(self).wf(),
        ensures
            final(self).wf(),
            !(r matches Err(ScannerError::IOError(_))) ==> final(self).stream() == after_token(
                old(self).stream(),
                false,
            ),
            !(r matches Err(ScannerError::IOError(_))) ==> int_outcome(
                decode_opt(token_of(old(self).stream(), false), false),
                false,
                0,
                u64::MAX as int,
            ) == (match r {
                Ok(Some(v)) => Some(Some(v as int)),
                Ok(None) => Some(None),
                _ => None::<Option<int>>,
            }),
            !(r matches Err(ScannerError::ParseFloatError(_))),
            !(r matches Err(ScannerError::IOError(_))),
    {
        let text = match self.next_text() {
            Ok(t) => t,
            Err(e) => return Err(e),
        };
        match text {
            Some(s) => match parse_u64(s.as_str()) {
                Ok(v) => Ok(Some(v)),
                Err(e) => Err(ScannerError::ParseIntError(e)),
            },
            None => Ok(None),
        }
    }

    /// Reads the next token and parses it as `u128`: `None` when no token is
    /// left, a parse error (with the token consumed) when it is no numeral of
    /// that type.
    pub fn next_u128(&mut self) -> (r: Result<Option<u128>, ScannerError>)
        requires
            old(self).wf(),
        ensures
            final(self).wf(),
            !(r matches Err(ScannerError::IOError(_))) ==> final(self).stream() == after_token(
                old(self).stream(),
                false,
            ),
            !(r matches Err(ScannerError::IOError(_))) ==> int_outcome(
                decode_opt(token_of(old(self).stream(), false), false),
                false,
                0,
                u128::MAX as int,
            ) == (match r {
                Ok(Some(v)) => Some(Some(v as int)),
                Ok(None) => Some(None),
                _ => None::<Option<int>>,
            }),
            !(r matches Err(ScannerError::ParseFloatError(_))),
            !(r matches Err(ScannerError::IOError(_))),
    {
        let text = match self.next_text() {
            Ok(t) => t,
            Err(e) => return Err(e),
        };
        match text {
            Some(s) => match parse_u128(s.as_str()) {
                Ok(v) => Ok(Some(v)),
                Err(e) => Err(ScannerError::ParseIntError(e)),
            },
            None => Ok(None),
        }
    }

    /// Reads the next token and parses it as `usize`: `None` when no token is
    /// left, a parse error (with the token consumed) when it is no numeral of
    /// that type.
    pub fn next_usize(&mut self) -> (r: Result<Option<usize>, ScannerError>)
        requires
            old(self).wf(),
        ensures
            final(self).wf(),
            !(r matches Err(ScannerError::IOError(_))) ==> final(self).stream() == after_token(
                old(self).stream(),
                false,
            ),
            !(r matches Err(ScannerError::IOError(_))) ==> int_outcome(
                decode_opt(token_of(old(self).stream(), false), false),
                false,
                0,
                usize::MAX as int,
            ) == (match r {
                Ok(Some(v)) => Some(Some(v as int)),
                Ok(None) => Some(None),
                _ => None::<Option<int>>,
            }),
            !(r matches Err(ScannerError::ParseFloatError(_))),
            !(r matches Err(ScannerError::IOError(_))),
    {
        let text = match self.next_text() {
            Ok(t) => t,
            Err(e) => return Err(e),
        };
        match text {
            Some(s) => match parse_usize(s.as_str()) {
                Ok(v) => Ok(Some(v)),
                Err(e) => Err(ScannerError::ParseIntError(e)),
            },
            None => Ok(None),
        }
    }

    /// Reads the next token and parses it as `i8`: `None` when no token is
    /// left, a parse error (with the token consumed) when it is no numeral of
    /// that type.
    pub fn next_i8(&mut self) -> (r: Result<Option<i8>, ScannerError>)
        requires
            old(self).wf(),
        ensures
            final(self).wf(),
            !(r matches Err(ScannerError::IOError(_))) ==> final(self).stream() == after_token(
                old(self).stream(),
                false,
            ),
            !(r matches Err(ScannerError::IOError(_))) ==> int_outcome(
                decode_opt(token_of(old(self).stream(), false), false),
                true,
                i8::MIN as int,
                i8::MAX as int,
            ) == (match r {
                Ok(Some(v)) => Some(Some(v as int)),
                Ok(None) => Some(None),
                _ => None::<Option<int>>,
            }),
            !(r matches Err(ScannerError::ParseFloatError(_))),
            !(r matches Err(ScannerError::IOError(_))),
    {
        let text = match self.next_text() {
            Ok(t) => t,
            Err(e) => return Err(e),
        };
        match text {
            Some(s) => match parse_i8(s.as_str()) {
                Ok(v) => Ok(Some(v)),
                Err(e) => Err(ScannerError::ParseIntError(e)),
            },
            None => Ok(None),
        }
    }

    /// Reads the next token and parses it as `i16`: `None` when no token is
    /// left, a parse error (with the token consumed) when it is no numeral of
    /// that type.
    pub fn next_i16(&mut self) -> (r: Result<Option<i16>, ScannerError>)
        requires
            old(self).wf(),
        ensures
            final(self).wf(),
            !(r matches Err(ScannerError::IOError(_))) ==> final(self).stream() == after_token(
                old(self).stream(),
                false,
            ),
            !(r matches Err(ScannerError::IOError(_))) ==> int_outcome(
                decode_opt(token_of(old(self).stream(), false), false),
                true,
                i16::MIN as int,
                i16::MAX as int,
            ) == (match r {
                Ok(Some(v)) => Some(Some(v as int)),
                Ok(None) => Some(None),
                _ => None::<Option<int>>,
            }),
            !(r matches Err(ScannerError::ParseFloatError(_))),
            !(r matches Err(ScannerError::IOError(_))),
    {
        let text = match self.next_text() {
            Ok(t) => t,
            Err(e) => return Err(e),
        };
        match text {
            Some(s) => match parse_i16(s.as_str()) {
                Ok(v) => Ok(Some(v)),
                Err(e) => Err(ScannerError::ParseIntError(e)),
            },
            None => Ok(None),
        }
    }

    /// Reads the next token and parses it as `i32`: `None` when no token is
    /// left, a parse error (with the token consumed) when it is no numeral of
    /// that type.
    pub fn next_i32(&mut self) -> (r: Result<Option<i32>, ScannerError>)
        requires
            old(self).wf(),
        ensures
            final(self).wf(),
            !(r matches Err(ScannerError::IOError(_))) ==> final(self).stream() == after_token(
                old(self).stream(),
                false,
            ),
            !(r matches Err(ScannerError::IOError(_))) ==> int_outcome(
                decode_opt(token_of(old(self).stream(), false), false),
                true,
                i32::MIN as int,
                i32::MAX as int,
            ) == (match r {
                Ok(Some(v)) => Some(Some(v as int)),
                Ok(None) => Some(None),
                _ => None::<Option<int>>,
            }),
            !(r matches Err(ScannerError::ParseFloatError(_))),
            !(r matches Err(ScannerError::IOError(_))),
    {
        let text = match self.next_text() {
            Ok(t) => t,
            Err(e) => return Err(e),
        };
        match text {
            Some(s) => match parse_i32(s.as_str()) {
                Ok(v) => Ok(Some(v)),
                Err(e) => Err(ScannerError::ParseIntError(e)),
            },
            None => Ok(None),
        }
    }

    /// Reads the next token and parses it as `i64`: `None` when no token is
    /// left, a parse error (with the token consumed) when it is no numeral of
    /// that type.
    pub fn next_i64(&mut self) -> (r: Result<Option<i64>, ScannerError>)
        requires
            old(self).wf(),
        ensures
            final(self).wf(),
            !(r matches Err(ScannerError::IOError(_))) ==> final(self).stream() == after_token(
                old(self).stream(),
                false,
            ),
            !(r matches Err(ScannerError::IOError(_))) ==> int_outcome(
                decode_opt(token_of(old(self).stream(), false), false),
                true,
                i64::MIN as int,
                i64::MAX as int,
            ) == (match r {
                Ok(Some(v)) => Some(Some(v as int)),
                Ok(None) => Some(None),
                _ => None::<Option<int>>,
            }),
            !(r matches Err(ScannerError::ParseFloatError(_))),
            !(r matches Err(ScannerError::IOError(_))),
    {
        let text = match self.next_text() {
            Ok(t) => t,
            Err(e) => return Err(e),
        };
        match text {
            Some(s) => match parse_i64(s.as_str()) {
                Ok(v) => Ok(Some(v)),
                Err(e) => Err(ScannerError::ParseIntError(e)),
            },
            None => Ok(None),
        }
    }

    /// Reads the next token and parses it as `i128`: `None` when no token is
    /// left, a parse error (with the token consumed) when it is no numeral of
    /// that type.
    pub fn next_i128(&mut self) -> (r: Result<Option<i128>, ScannerError>)
        requires
            old(self).wf(),
        ensures
            final(self).wf(),
            !(r matches Err(ScannerError::IOError(_))) ==> final(self).stream() == after_token(
                old(self).stream(),
                false,
            ),
            !(r matches Err(ScannerError::IOError(_))) ==> int_outcome(
                decode_opt(token_of(old(self).stream(), false), false),
                true,
                i128::MIN as int,
                i128::MAX as int,
            ) == (match r {
                Ok(Some(v)) => Some(Some(v as int)),
                Ok(None) => Some(None),
                _ => None::<Option<int>>,
            }),
            !(r matches Err(ScannerError::ParseFloatError(_))),
            !(r matches Err(ScannerError::IOError(_))),
    {
        let text = match self.next_text() {
            Ok(t) => t,
            Err(e) => return Err(e),
        };
        match text {
            Some(s) => match parse_i128(s.as_str()) {
                Ok(v) => Ok(Some(v)),
                Err(e) => Err(ScannerError::ParseIntError(e)),
            },
            None => Ok(None),
        }
    }

    /// Reads the next token and parses it as `isize`: `None` when no token is
    /// left, a parse error (with the token consumed) when it is no numeral of
    /// that type.
    pub fn next_isize(&mut self) -> (r: Result<Option<isize>, ScannerError>)
        requires
            old(self).wf(),
        ensures
            final(self).wf(),
            !(r matches Err(ScannerError::IOError(_))) ==> final(self).stream() == after_token(
                old(self).stream(),
                false,
            ),
            !(r matches Err(ScannerError::IOError(_))) ==> int_outcome(
                decode_opt(token_of(old(self).stream(), false), false),
                true,
                isize::MIN as int,
                isize::MAX as int,
            ) == (match r {
                Ok(Some(v)) => Some(Some(v as int)),
                Ok(None) => Some(None),
                _ => None::<Option<int>>,
            }),
            !(r matches Err(ScannerError::ParseFloatError(_))),
            !(r matches Err(ScannerError::IOError(_))),
    {
        let text = match self.next_text() {
            Ok(t) => t,
            Err(e) => return Err(e),
        };
        match text {
            Some(s) => match parse_isize(s.as_str()) {
                Ok(v) => Ok(Some(v)),
                Err(e) => Err(ScannerError::ParseIntError(e)),
            },
            None => Ok(None),
        }
    }

    /// Reads up to the first occurrence of `boundary`, which it consumes, and
    /// parses what precedes it as `u8`.
    pub fn next_u8_until(&mut self, boundary: &[u8]) -> (r: Result<Option<u8>, ScannerError>)
        requires
            old(self).wf(),
        ensures
            final(self).wf(),
            !(r matches Err(ScannerError::IOError(_))) ==> final(self).stream() == after_until(
                old(self).stream(),
                boundary@,
            ),
            !(r matches Err(ScannerError::IOError(_))) ==> int_outcome(
                decode_opt(until_of(old(self).stream(), boundary@), false),
                false,
                0,
                u8::MAX as int,
            ) == (match r {
                Ok(Some(v)) => Some(Some(v as int)),
                Ok(None) => Some(None),
                _ => None::<Option<int>>,
            }),
            !(r matches Err(ScannerError::ParseFloatError(_))),
            !(r matches Err(ScannerError::IOError(_))),
    {
        let text = match self.until_text(boundary) {
            Ok(t) => t,
            Err(e) => return Err(e),
        };
        match text {
            Some(s) => match parse_u8(s.as_str()) {
                Ok(v) => Ok(Some(v)),
                Err(e) => Err(ScannerError::ParseIntError(e)),
            },
            None => Ok(None),
        }
    }

    /// Reads up to the first occurrence of `boundary`, which it consumes, and
    /// parses what precedes it as `u16`.
    pub fn next_u16_until(&mut self, boundary: &[u8]) -> (r: Result<Option<u16>, ScannerError>)
        requires
            old(self).wf(),
        ensures
            final(self).wf(),
            !(r matches Err(ScannerError::IOError(_))) ==> final(self).stream() == after_until(
                old(self).stream(),
                boundary@,
            ),
            !(r matches Err(ScannerError::IOError(_))) ==> int_outcome(
                decode_opt(until_of(old(self).stream(), boundary@), false),
                false,
                0,
                u16::MAX as int,
            ) == (match r {
                Ok(Some(v)) => Some(Some(v as int)),
                Ok(None) => Some(None),
                _ => None::<Option<int>>,
            }),
            !(r matches Err(ScannerError::ParseFloatError(_))),
            !(r matches Err(ScannerError::IOError(_))),
    {
        let text = match self.until_text(boundary) {
            Ok(t) => t,
            Err(e) => return Err(e),
        };
        match text {
            Some(s) => match parse_u16(s.as_str()) {
                Ok(v) => Ok(Some(v)),
                Err(e) => Err(ScannerError::ParseIntError(e)),
            },
            None => Ok(None),
        }
    }

    /// Reads up to the first occurrence of `boundary`, which it consumes, and
    /// parses what precedes it as `u32`.
    pub fn next_u32_until(&mut self, boundary: &[u8]) -> (r: Result<Option<u32>, ScannerError>)
        requires
            old(self).wf(),
        ensures
            final(self).wf(),
            !(r matches Err(ScannerError::IOError(_))) ==> final(self).stream() == after_until(
                old(self).stream(),
                boundary@,
            ),
            !(r matches Err(ScannerError::IOError(_))) ==> int_outcome(
                decode_opt(until_of(old(self).stream(), boundary@), false),
                false,
                0,
                u32::MAX as int,
            ) == (match r {
                Ok(Some(v)) => Some(Some(v as int)),
                Ok(None) => Some(None),
                _ => None::<Option<int>>,
            }),
            !(r matches Err(ScannerError::ParseFloatError(_))),
            !(r matches Err(ScannerError::IOError(_))),
    {
        let text = match self.until_text(boundary) {
            Ok(t) => t,
            Err(e) => return Err(e),
        };
        match text {
            Some(s) => match parse_u32(s.as_str()) {
                Ok(v) => Ok(Some(v)),
                Err(e) => Err(ScannerError::ParseIntError(e)),
            },
            None => Ok(None),
        }
    }

    /// Reads up to the first occurrence of `boundary`, which it consumes, and
    /// parses what precedes it as `u64`.
    pub fn next_u64_until(&mut self, boundary: &[u8]) -> (r: Result<Option<u64>, ScannerError>)
        requires
            old(self).wf(),
        ensures
            final(self).wf(),
            !(r matches Err(ScannerError::IOError(_))) ==> final(self).stream() == after_until(
                old(self).stream(),
                boundary@,
            ),
            !(r matches Err(ScannerError::IOError(_))) ==> int_outcome(
                decode_opt(until_of(old(self).stream(), boundary@), false),
                false,
                0,
                u64::MAX as int,
            ) == (match r {
                Ok(Some(v)) => Some(Some(v as int)),
                Ok(None) => Some(None),
                _ => None::<Option<int>>,
            }),
            !(r matches Err(ScannerError::ParseFloatError(_))),
            !(r matches Err(ScannerError::IOError(_))),
    {
        let text = match self.until_text(boundary) {
            Ok(t) => t,
            Err(e) => return Err(e),
        };
        match text {
            Some(s) => match parse_u64(s.as_str()) {
                Ok(v) => Ok(Some(v)),
                Err(e) => Err(ScannerError::ParseIntError(e)),
            },
            None => Ok(None),
        }
    }

    /// Reads up to the first occurrence of `boundary`, which it consumes, and
    /// parses what precedes it as `u128`.
    pub fn next_u128_until(&mut self, boundary: &[u8]) -> (r: Result<Option<u128>, ScannerError>)
        requires
            old(self).wf(),
        ensures
            final(self).wf(),
            !(r matches Err(ScannerError::IOError(_))) ==> final(self).stream() == after_until(
                old(self).stream(),
                boundary@,
            ),
            !(r matches Err(ScannerError::IOError(_))) ==> int_outcome(
                decode_opt(until_of(old(self).stream(), boundary@), false),
                false,
                0,
                u128::MAX as int,
            ) == (match r {
                Ok(Some(v)) => Some(Some(v as int)),
                Ok(None) => Some(None),
                _ => None::<Option<int>>,
            }),
            !(r matches Err(ScannerError::ParseFloatError(_))),
            !(r matches Err(ScannerError::IOError(_))),
    {
        let text = match self.until_text(boundary) {
            Ok(t) => t,
            Err(e) => return Err(e),
        };
        match text {
            Some(s) => match parse_u128(s.as_str()) {
                Ok(v) => Ok(Some(v)),
                Err(e) => Err(ScannerError::ParseIntError(e)),
            },
            None => Ok(None),
        }
    }

    /// Reads up to the first occurrence of `boundary`, which it consumes, and
    /// parses what precedes it as `usize`.
    pub fn next_usize_until(&mut self, boundary: &[u8]) -> (r: Result<Option<usize>, ScannerError>)
        requires
            old(self).wf(),
        ensures
            final(self).wf(),
            !(r matches Err(ScannerError::IOError(_))) ==> final(self).stream() == after_until(
                old(self).stream(),
                boundary@,
            ),
            !(r matches Err(ScannerError::IOError(_))) ==> int_outcome(
                decode_opt(until_of(old(self).stream(), boundary@), false),
                false,
                0,
                usize::MAX as int,
            ) == (match r {
                Ok(Some(v)) => Some(Some(v as int)),
                Ok(None) => Some(None),
                _ => None::<Option<int>>,
            }),
            !(r matches Err(ScannerError::ParseFloatError(_))),
            !(r matches Err(ScannerError::IOError(_))),
    {
        let text = match self.until_text(boundary) {
            Ok(t) => t,
            Err(e) => return Err(e),
        };
        match text {
            Some(s) => match parse_usize(s.as_str()) {
                Ok(v) => Ok(Some(v)),
                Err(e) => Err(ScannerError::ParseIntError(e)),
            },
            None => Ok(None),
        }
    }

    /// Reads up to the first occurrence of `boundary`, which it consumes, and
    /// parses what precedes it as `i8`.
    pub fn next_i8_until(&mut self, boundary: &[u8]) -> (r: Result<Option<i8>, ScannerError>)
        requires
            old(self).wf(),
        ensures
            final(self).wf(),
            !(r matches Err(ScannerError::IOError(_))) ==> final(self).stream() == after_until(
                old(self).stream(),
                boundary@,
            ),
            !(r matches Err(ScannerError::IOError(_))) ==> int_outcome(
                decode_opt(until_of(old(self).stream(), boundary@), false),
                true,
                i8::MIN as int,
                i8::MAX as int,
            ) == (match r {
                Ok(Some(v)) => Some(Some(v as int)),
                Ok(None) => Some(None),
                _ => None::<Option<int>>,
            }),
            !(r matches Err(ScannerError::ParseFloatError(_))),
            !(r matches Err(ScannerError::IOError(_))),
    {
        let text = match self.until_text(boundary) {
            Ok(t) => t,
            Err(e) => return Err(e),
        };
        match text {
            Some(s) => match parse_i8(s.as_str()) {
                Ok(v) => Ok(Some(v)),
                Err(e) => Err(ScannerError::ParseIntError(e)),
            },
            None => Ok(None),
        }
    }

    /// Reads up to the first occurrence of `boundary`, which it consumes, and
    /// parses what precedes it as `i16`.
    pub fn next_i16_until(&mut self, boundary: &[u8]) -> (r: Result<Option<i16>, ScannerError>)
        requires
            old(self).wf(),
        ensures
            final(self).wf(),
            !(r matches Err(ScannerError::IOError(_))) ==> final(self).stream() == after_until(
                old(self).stream(),
                boundary@,
            ),
            !(r matches Err(ScannerError::IOError(_))) ==> int_outcome(
                decode_opt(until_of(old(self).stream(), boundary@), false),
                true,
                i16::MIN as int,
                i16::MAX as int,
            ) == (match r {
                Ok(Some(v)) => Some(Some(v as int)),
                Ok(None) => Some(None),
                _ => None::<Option<int>>,
            }),
            !(r matches Err(ScannerError::ParseFloatError(_))),
            !(r matches Err(ScannerError::IOError(_))),
    {
        let text = match self.until_text(boundary) {
            Ok(t) => t,
            Err(e) => return Err(e),
        };
        match text {
            Some(s) => match parse_i16(s.as_str()) {
                Ok(v) => Ok(Some(v)),
                Err(e) => Err(ScannerError::ParseIntError(e)),
            },
            None => Ok(None),
        }
    }

    /// Reads up to the first occurrence of `boundary`, which it consumes, and
    /// parses what precedes it as `i32`.
    pub fn next_i32_until(&mut self, boundary: &[u8]) -> (r: Result<Option<i32>, ScannerError>)
        requires
            old(self).wf(),
        ensures
            final(self).wf(),
            !(r matches Err(ScannerError::IOError(_))) ==> final(self).stream() == after_until(
                old(self).stream(),
                boundary@,
            ),
            !(r matches Err(ScannerError::IOError(_))) ==> int_outcome(
                decode_opt(until_of(old(self).stream(), boundary@), false),
                true,
                i32::MIN as int,
                i32::MAX as int,
            ) == (match r {
                Ok(Some(v)) => Some(Some(v as int)),
                Ok(None) => Some(None),
                _ => None::<Option<int>>,
            }),
            !(r matches Err(ScannerError::ParseFloatError(_))),
            !(r matches Err(ScannerError::IOError(_))),
    {
        let text = match self.until_text(boundary) {
            Ok(t) => t,
            Err(e) => return Err(e),
        };
        match text {
            Some(s) => match parse_i32(s.as_str()) {
                Ok(v) => Ok(Some(v)),
                Err(e) => Err(ScannerError::ParseIntError(e)),
            },
            None => Ok(None),
        }
    }

    /// Reads up to the first occurrence of `boundary`, which it consumes, and
    /// parses what precedes it as `i64`.
    pub fn next_i64_until(&mut self, boundary: &[u8]) -> (r: Result<Option<i64>, ScannerError>)
        requires
            old(self).wf(),
        ensures
            final(self).wf(),
            !(r matches Err(ScannerError::IOError(_))) ==> final(self).stream() == after_until(
                old(self).stream(),
                boundary@,
            ),
            !(r matches Err(ScannerError::IOError(_))) ==> int_outcome(
                decode_opt(until_of(old(self).stream(), boundary@), false),
                true,
                i64::MIN as int,
                i64::MAX as int,
            ) == (match r {
                Ok(Some(v)) => Some(Some(v as int)),
                Ok(None) => Some(None),
                _ => None::<Option<int>>,
            }),
            !(r matches Err(ScannerError::ParseFloatError(_))),
            !(r matches Err(ScannerError::IOError(_))),
    {
        let text = match self.until_text(boundary) {
            Ok(t) => t,
            Err(e) => return Err(e),
        };
        match text {
            Some(s) => match parse_i64(s.as_str()) {
                Ok(v) => Ok(Some(v)),
                Err(e) => Err(ScannerError::ParseIntError(e)),
            },
            None => Ok(None),
        }
    }

    /// Reads up to the first occurrence of `boundary`, which it consumes, and
    /// parses what precedes it as `i128`.
    pub fn next_i128_until(&mut self, boundary: &[u8]) -> (r: Result<Option<i128>, ScannerError>)
        requires
            old(self).wf(),
        ensures
            final(self).wf(),
            !(r matches Err(ScannerError::IOError(_))) ==> final(self).stream() == after_until(
                old(self).stream(),
                boundary@,
            ),
            !(r matches Err(ScannerError::IOError(_))) ==> int_outcome(
                decode_opt(until_of(old(self).stream(), boundary@), false),
                true,
                i128::MIN as int,
                i128::MAX as int,
            ) == (match r {
                Ok(Some(v)) => Some(Some(v as int)),
                Ok(None) => Some(None),
                _ => None::<Option<int>>,
            }),
            !(r matches Err(ScannerError::ParseFloatError(_))),
            !(r matches Err(ScannerError::IOError(_))),
    {
        let text = match self.until_text(boundary) {
            Ok(t) => t,
            Err(e) => return Err(e),
        };
        match text {
            Some(s) => match parse_i128(s.as_str()) {
                Ok(v) => Ok(Some(v)),
                Err(e) => Err(ScannerError::ParseIntError(e)),
            },
            None => Ok(None),
        }
    }

    /// Reads up to the first occurrence of `boundary`, which it consumes, and
    /// parses what precedes it as `isize`.
    pub fn next_isize_until(&mut self, boundary: &[u8]) -> (r: Result<Option<isize>, ScannerError>)
        requires
            old(self).wf(),
        ensures
            final(self).wf(),
            !(r matches Err(ScannerError::IOError(_))) ==> final(self).stream() == after_until(
                old(self).stream(),
                boundary@,
            ),
            !(r matches Err(ScannerError::IOError(_))) ==> int_outcome(
                decode_opt(until_of(old(self).stream(), boundary@), false),
                true,
                isize::MIN as int,
                isize::MAX as int,
            ) == (match r {
                Ok(Some(v)) => Some(Some(v as int)),
                Ok(None) => Some(None),
                _ => None::<Option<int>>,
            }),
            !(r matches Err(ScannerError::ParseFloatError(_))),
            !(r matches Err(ScannerError::IOError(_))),
    {
        let text = match self.until_text(boundary) {
            Ok(t) => t,
            Err(e) => return Err(e),
        };
        match text {
            Some(s) => match parse_isize(s.as_str()) {
                Ok(v) => Ok(Some(v)),
                Err(e) => Err(ScannerError::ParseIntError(e)),
            },
            None => Ok(None),
        }
    }
}

} // verus!
