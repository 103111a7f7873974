//! The buffered UTF-8 scanner.
use vstd::prelude::*;
use vstd::string::StringSliceAdditionalSpecFns;

use crate::buffer::{ByteBuffer, MIN_CAPACITY};
use crate::classify::utf8_char_width;
use crate::extract::{bytes_body, line_body, skip_ws, token_body, until_body};
use crate::parse::{
    parse_i128, parse_i16, parse_i32, parse_i64, parse_i8, parse_isize, parse_u128, parse_u16,
    parse_u32, parse_u64, parse_u8, parse_usize,
};
use crate::scanner_error::ScannerError;
use crate::source::ByteSource;
use crate::text::{
    lemma_skip_suffix, lemma_suffix_refl, lemma_suffix_trans, suffix_of, after_line, after_token, after_until, bytes_len, bytes_of, char_at_front, char_len,
    decode_lossy_string, decode_opt, int_outcome, line_len, line_of, text_of, token_of,
    until_of,
};

verus! {

/// Capacity of a scanner's buffer unless another is asked for.
pub const DEFAULT_CAPACITY: usize = 64;

/// A scanner that decodes UTF-8 text from a byte source through a buffer of
/// fixed capacity. Its meaning is the byte stream it has still to consume.
pub struct Scanner<R: ByteSource> {
    buffer: ByteBuffer<R>,
}

impl<R: ByteSource> Scanner<R> {
    pub closed spec fn wf(&self) -> bool {
        self.buffer.wf()
    }

    /// The bytes still to be consumed: those buffered, then the source's.
    pub closed spec fn stream(&self) -> Seq<u8> {
        self.buffer.stream()
    }

    pub closed spec fn capacity(&self) -> nat {
        self.buffer.capacity()
    }

    /// Whether no read of the source can fail.
    pub closed spec fn source_fails_never(&self) -> bool {
        self.buffer.fails_never()
    }

    /// Free bytes after the buffered ones.
    pub closed spec fn free_room(&self) -> nat {
        self.buffer.room()
    }

    /// A scanner over `reader` whose buffer holds `capacity` bytes.
    pub fn with_capacity(reader: R, capacity: usize) -> (r: Scanner<R>)
        requires
            capacity >= MIN_CAPACITY,
        ensures
            r.wf(),
            r.stream() == reader.pending(),
            r.capacity() == capacity,
            r.get_remains_len() == 0,
            r.source_fails_never() == reader.fails_never(),
    {
        Scanner { buffer: ByteBuffer::new(reader, capacity) }
    }

    /// A scanner over `reader` with the default capacity.
    pub fn new(reader: R) -> (r: Scanner<R>)
        ensures
            r.wf(),
            r.stream() == reader.pending(),
            r.capacity() == DEFAULT_CAPACITY,
            r.get_remains_len() == 0,
            r.source_fails_never() == reader.fails_never(),
    {
        Self::with_capacity(reader, DEFAULT_CAPACITY)
    }

    /// A scanner over a stream, with the default capacity.
    pub fn scan_stream(reader: R) -> (r: Scanner<R>)
        ensures
            r.wf(),
            r.stream() == reader.pending(),
            r.capacity() == DEFAULT_CAPACITY,
            r.get_remains_len() == 0,
            r.source_fails_never() == reader.fails_never(),
    {
        Self::new(reader)
    }

    /// The bytes read from the source and not yet consumed: a prefix of what
    /// is still to be read.
    pub fn get_remains(&self) -> (r: &[u8])
        requires
            self.wf(),
        ensures
            r@ == self.stream().take(r@.len() as int),
            r@.len() == self.get_remains_len(),
            r@.len() <= self.stream().len(),
    {
        proof {
            self.buffer.lemma_buffered_prefix();
        }
        self.buffer.remains()
    }

    /// Consumes `number_of_bytes` bytes, which must already be buffered.
    pub fn remove_heading_bytes_from_buffer(&mut self, number_of_bytes: usize)
        requires
            old(self).wf(),
            number_of_bytes <= old(self).get_remains_len(),
        ensures
            final(self).wf(),
            final(self).stream() == old(self).stream().skip(number_of_bytes as int),
            final(self).source_fails_never() == old(self).source_fails_never(),
    {
        self.buffer.shift(number_of_bytes);
    }

    /// How many bytes are buffered.
    pub closed spec fn get_remains_len(&self) -> nat {
        self.buffer.buffered_len()
    }

    /// Reads from the source until it is exhausted or the buffer is full, and
    /// shows the buffered bytes without consuming them. With `shift`, the
    /// buffered bytes are first moved to the front, so that the whole capacity
    /// is used.
    pub fn peek(&mut self, shift: bool) -> (r: Result<&[u8], ScannerError>)
        requires
            old(self).wf(),
        ensures
            final(self).wf(),
            final(self).stream() == old(self).stream(),
            r matches Ok(v) ==> v@ == final(self).stream().take(v@.len() as int),
            r matches Ok(v) ==> v@.len() <= final(self).stream().len(),
            r matches Ok(v) ==> (shift ==> (v@.len() == final(self).stream().len() || v@.len()
                == final(self).capacity())),
            r matches Ok(v) ==> v@.len() >= old(self).get_remains_len(),
            r matches Ok(v) ==> (old(self).stream().len() <= old(self).get_remains_len()
                + old(self).free_room() ==> v@.len() == final(self).stream().len()),
            old(self).source_fails_never() ==> r is Ok,
            old(self).source_fails_never() ==> final(self).source_fails_never(),
            !(r matches Err(ScannerError::ParseIntError(_))),
            !(r matches Err(ScannerError::ParseFloatError(_))),
    {
        let ghost before = self.buffer.buffered_len() + self.buffer.room();
        if shift {
            self.buffer.compact();
        }
        let ghost mid = self.buffer.buffered_len() + self.buffer.room();
        assert(mid >= before);
        match self.buffer.fill_all() {
            Ok(()) => {},
            Err(e) => {
                proof {
                    lemma_suffix_refl(old(self).stream());
                }
                return Err(ScannerError::IOError(e));
            },
        }
        proof {
            self.buffer.lemma_buffered_prefix();
            if self.buffer.buffered_len() < self.stream().len() {
                assert(self.buffer.room() == 0);
                assert(self.buffer.buffered_len() == mid);
            }
        }
        Ok(self.buffer.remains())
    }

    /// Reads the next character. Bytes that do not begin a well-formed UTF-8
    /// sequence give the replacement character and are consumed one at a time;
    /// `None` when nothing is left.
    pub fn next_char(&mut self) -> (r: Result<Option<char>, ScannerError>)
        requires
            old(self).wf(),
        ensures
            final(self).wf(),
            r matches Ok(o) ==> o == if old(self).stream().len() == 0 {
                None
            } else {
                Some(char_at_front(old(self).stream()))
            },
            r is Ok ==> final(self).stream() == if old(self).stream().len() == 0 {
                old(self).stream()
            } else {
                old(self).stream().skip(char_len(old(self).stream()) as int)
            },
            r matches Err(e) ==> e is IOError,
            old(self).source_fails_never() ==> r is Ok,
            old(self).source_fails_never() ==> final(self).source_fails_never(),
            r is Err ==> suffix_of(final(self).stream(), old(self).stream()),
    {
        let filled = match self.buffer.fill() {
            Ok(f) => f,
            Err(e) => {
                proof {
                    lemma_suffix_refl(old(self).stream());
                }
                return Err(ScannerError::IOError(e));
            },
        };
        if !filled {
            return Ok(None);
        }
        proof {
            self.buffer.lemma_buffered_prefix();
        }
        let first = self.buffer.byte(0);
        let w = utf8_char_width(first);
        if w >= 2 {
            match self.buffer.ensure(w) {
                Ok(_) => {},
                Err(e) => {
                proof {
                    lemma_suffix_refl(old(self).stream());
                }
                return Err(ScannerError::IOError(e));
            },
            }
            proof {
                self.buffer.lemma_buffered_prefix();
            }
        }
        let (c, n) = self.buffer.decode_front();
        self.buffer.shift(n);
        Ok(Some(c))
    }

    /// Reads the bytes of the next line, without its terminator (`\n`, `\r`,
    /// `\r\n` or `\n\r`); `None` when nothing is left.
    pub fn next_line_raw(&mut self) -> (r: Result<Option<Vec<u8>>, ScannerError>)
        requires
            old(self).wf(),
        ensures
            final(self).wf(),
            r matches Ok(o) ==> bytes_of(o) == line_of(old(self).stream()),
            r is Ok ==> final(self).stream() == after_line(old(self).stream()),
            r matches Err(e) ==> e is IOError,
            old(self).source_fails_never() ==> r is Ok,
            old(self).source_fails_never() ==> final(self).source_fails_never(),
            r is Err ==> suffix_of(final(self).stream(), old(self).stream()),
    {
        let filled = match self.buffer.fill() {
            Ok(f) => f,
            Err(e) => {
                proof {
                    lemma_suffix_refl(old(self).stream());
                }
                return Err(ScannerError::IOError(e));
            },
        };
        if !filled {
            return Ok(None);
        }
        let mut acc: Vec<u8> = Vec::new();
        match line_body(&mut self.buffer, &mut acc, true, false) {
            Ok(_) => {},
            Err(e) => {
                proof {
                    lemma_suffix_refl(old(self).stream());
                }
                return Err(ScannerError::IOError(e));
            },
        }
        assert(acc@ =~= old(self).stream().take(line_len(old(self).stream())));
        Ok(Some(acc))
    }

    /// Reads the next line as text, without its terminator; `None` when
    /// nothing is left.
    pub fn next_line(&mut self) -> (r: Result<Option<String>, ScannerError>)
        requires
            old(self).wf(),
        ensures
            final(self).wf(),
            r matches Ok(o) ==> text_of(o) == decode_opt(line_of(old(self).stream()), true),
            r is Ok ==> final(self).stream() == after_line(old(self).stream()),
            r matches Err(e) ==> e is IOError,
            old(self).source_fails_never() ==> r is Ok,
            old(self).source_fails_never() ==> final(self).source_fails_never(),
            r is Err ==> suffix_of(final(self).stream(), old(self).stream()),
    {
        let raw = match self.next_line_raw() {
            Ok(o) => o,
            Err(e) => return Err(e),
        };
        match raw {
            Some(v) => Ok(Some(decode_lossy_string(v.as_slice()))),
            None => Ok(None),
        }
    }

    /// Skips the next line and says how many bytes it had, its terminator not
    /// counted; `None` when nothing is left.
    pub fn drop_next_line(&mut self) -> (r: Result<Option<usize>, ScannerError>)
        requires
            old(self).wf(),
            old(self).stream().len() <= usize::MAX,
        ensures
            final(self).wf(),
            r matches Ok(o) ==> o == match line_of(old(self).stream()) {
                Some(l) => Some(l.len() as usize),
                None => None::<usize>,
            },
            r is Ok ==> final(self).stream() == after_line(old(self).stream()),
            r matches Err(e) ==> e is IOError,
            old(self).source_fails_never() ==> r is Ok,
            old(self).source_fails_never() ==> final(self).source_fails_never(),
            r is Err ==> suffix_of(final(self).stream(), old(self).stream()),
    {
        let filled = match self.buffer.fill() {
            Ok(f) => f,
            Err(e) => {
                proof {
                    lemma_suffix_refl(old(self).stream());
                }
                return Err(ScannerError::IOError(e));
            },
        };
        if !filled {
            return Ok(None);
        }
        let mut acc: Vec<u8> = Vec::new();
        proof {
            crate::extract::lemma_eol_bounds(old(self).stream(), 0);
        }
        match line_body(&mut self.buffer, &mut acc, false, false) {
            Ok((n, _)) => Ok(Some(n)),
            Err(e) => {
                proof {
                    lemma_suffix_refl(old(self).stream());
                }
                return Err(ScannerError::IOError(e));
            },
        }
    }

    /// Skips whitespace (the single-byte set and the three-byte Unicode
    /// spaces). Says whether there was anything left to read before it.
    pub fn skip_whitespaces(&mut self) -> (r: Result<bool, ScannerError>)
        requires
            old(self).wf(),
        ensures
            final(self).wf(),
            r matches Ok(b) ==> b == (old(self).stream().len() > 0),
            r is Ok ==> final(self).stream() == old(self).stream().skip(
                crate::text::token_start(old(self).stream(), true),
            ),
            r matches Err(e) ==> e is IOError,
            old(self).source_fails_never() ==> r is Ok,
            old(self).source_fails_never() ==> final(self).source_fails_never(),
            r is Err ==> suffix_of(final(self).stream(), old(self).stream()),
    {
        let filled = match self.buffer.fill() {
            Ok(f) => f,
            Err(e) => {
                proof {
                    lemma_suffix_refl(old(self).stream());
                }
                return Err(ScannerError::IOError(e));
            },
        };
        if !filled {
            return Ok(false);
        }
        match skip_ws(&mut self.buffer, true) {
            Ok(()) => Ok(true),
            Err(e) => {
                proof {
                    lemma_suffix_refl(old(self).stream());
                }
                return Err(ScannerError::IOError(e));
            },
        }
    }

    /// Reads the bytes of the next whitespace-separated token; `None` when
    /// only whitespace is left.
    pub fn next_raw(&mut self) -> (r: Result<Option<Vec<u8>>, ScannerError>)
        requires
            old(self).wf(),
        ensures
            final(self).wf(),
            r matches Ok(o) ==> bytes_of(o) == token_of(old(self).stream(), true),
            r is Ok ==> final(self).stream() == after_token(old(self).stream(), true),
            r matches Err(e) ==> e is IOError,
            old(self).source_fails_never() ==> r is Ok,
            old(self).source_fails_never() ==> final(self).source_fails_never(),
            r is Err ==> suffix_of(final(self).stream(), old(self).stream()),
    {
        let ghost s = self.stream();
        match skip_ws(&mut self.buffer, true) {
            Ok(()) => {},
            Err(e) => {
                proof {
                    lemma_suffix_refl(old(self).stream());
                }
                return Err(ScannerError::IOError(e));
            },
        }
        let ghost st = crate::text::token_start(s, true);
        proof {
            crate::extract::lemma_ws_run_bounds(s, 0, true);
            lemma_skip_suffix(s, st);
        }
        let filled = match self.buffer.fill() {
            Ok(f) => f,
            Err(e) => {
                proof {
                    lemma_suffix_refl(s.skip(st));
                    lemma_suffix_trans(self.stream(), s.skip(st), s);
                }
                return Err(ScannerError::IOError(e));
            },
        };
        if !filled {
            assert(s.skip(st).len() == 0);
            assert(crate::text::token_end(s, true) == s.len());
            return Ok(None);
        }
        let mut acc: Vec<u8> = Vec::new();
        match token_body(&mut self.buffer, &mut acc, true, true) {
            Ok(n) => {
                proof {
                    crate::extract::lemma_token_end_skip(s, st, 0, true);
                    crate::extract::lemma_token_end_bounds(s, st, true);
                }
                assert(acc@ =~= s.subrange(st, crate::text::token_end(s, true)));
                assert(self.stream() =~= s.skip(crate::text::token_end(s, true)));
                Ok(Some(acc))
            },
            Err(e) => {
                proof {
                    lemma_suffix_refl(s.skip(st));
                    lemma_suffix_trans(self.stream(), s.skip(st), s);
                }
                return Err(ScannerError::IOError(e));
            },
        }
    }

    /// Reads the next whitespace-separated token as text; `None` when only
    /// whitespace is left.
    pub fn next(&mut self) -> (r: Result<Option<String>, ScannerError>)
        requires
            old(self).wf(),
        ensures
            final(self).wf(),
            r matches Ok(o) ==> text_of(o) == decode_opt(token_of(old(self).stream(), true), true),
            r is Ok ==> final(self).stream() == after_token(old(self).stream(), true),
            r matches Err(e) ==> e is IOError,
            old(self).source_fails_never() ==> r is Ok,
            old(self).source_fails_never() ==> final(self).source_fails_never(),
            r is Err ==> suffix_of(final(self).stream(), old(self).stream()),
    {
        let raw = match self.next_raw() {
            Ok(o) => o,
            Err(e) => return Err(e),
        };
        match raw {
            Some(v) => Ok(Some(decode_lossy_string(v.as_slice()))),
            None => Ok(None),
        }
    }

    /// Skips the next whitespace-separated token and says how many bytes it
    /// had; `None` when only whitespace is left.
    pub fn drop_next(&mut self) -> (r: Result<Option<usize>, ScannerError>)
        requires
            old(self).wf(),
            old(self).stream().len() <= usize::MAX,
        ensures
            final(self).wf(),
            r matches Ok(o) ==> o == match token_of(old(self).stream(), true) {
                Some(t) => Some(t.len() as usize),
                None => None::<usize>,
            },
            r is Ok ==> final(self).stream() == after_token(old(self).stream(), true),
            r matches Err(e) ==> e is IOError,
            old(self).source_fails_never() ==> r is Ok,
            old(self).source_fails_never() ==> final(self).source_fails_never(),
            r is Err ==> suffix_of(final(self).stream(), old(self).stream()),
    {
        let ghost s = self.stream();
        match skip_ws(&mut self.buffer, true) {
            Ok(()) => {},
            Err(e) => {
                proof {
                    lemma_suffix_refl(old(self).stream());
                }
                return Err(ScannerError::IOError(e));
            },
        }
        let ghost st = crate::text::token_start(s, true);
        proof {
            crate::extract::lemma_ws_run_bounds(s, 0, true);
            lemma_skip_suffix(s, st);
        }
        let filled = match self.buffer.fill() {
            Ok(f) => f,
            Err(e) => {
                proof {
                    lemma_suffix_refl(s.skip(st));
                    lemma_suffix_trans(self.stream(), s.skip(st), s);
                }
                return Err(ScannerError::IOError(e));
            },
        };
        if !filled {
            assert(s.skip(st).len() == 0);
            assert(crate::text::token_end(s, true) == s.len());
            return Ok(None);
        }
        let mut acc: Vec<u8> = Vec::new();
        match token_body(&mut self.buffer, &mut acc, false, true) {
            Ok(n) => {
                proof {
                    crate::extract::lemma_token_end_skip(s, st, 0, true);
                    crate::extract::lemma_token_end_bounds(s, st, true);
                }
                assert(self.stream() =~= s.skip(crate::text::token_end(s, true)));
                Ok(Some(n))
            },
            Err(e) => {
                proof {
                    lemma_suffix_refl(s.skip(st));
                    lemma_suffix_trans(self.stream(), s.skip(st), s);
                }
                return Err(ScannerError::IOError(e));
            },
        }
    }

    /// Reads at most `max_number_of_bytes` bytes; `None` when nothing is left.
    pub fn next_bytes(&mut self, max_number_of_bytes: usize) -> (r: Result<
        Option<Vec<u8>>,
        ScannerError,
    >)
        requires
            old(self).wf(),
        ensures
            final(self).wf(),
            r matches Ok(o) ==> bytes_of(o) == if old(self).stream().len() == 0 {
                None
            } else {
                Some(old(self).stream().take(bytes_len(old(self).stream(), max_number_of_bytes)))
            },
            r is Ok ==> final(self).stream() == old(self).stream().skip(
                bytes_len(old(self).stream(), max_number_of_bytes),
            ),
            r matches Err(e) ==> e is IOError,
            old(self).source_fails_never() ==> r is Ok,
            old(self).source_fails_never() ==> final(self).source_fails_never(),
            r is Err ==> suffix_of(final(self).stream(), old(self).stream()),
    {
        let filled = match self.buffer.fill() {
            Ok(f) => f,
            Err(e) => {
                proof {
                    lemma_suffix_refl(old(self).stream());
                }
                return Err(ScannerError::IOError(e));
            },
        };
        if !filled {
            return Ok(None);
        }
        let mut acc: Vec<u8> = Vec::new();
        match bytes_body(&mut self.buffer, &mut acc, true, max_number_of_bytes) {
            Ok(_) => {
                assert(acc@ =~= old(self).stream().take(
                    bytes_len(old(self).stream(), max_number_of_bytes),
                ));
                Ok(Some(acc))
            },
            Err(e) => {
                proof {
                    lemma_suffix_refl(old(self).stream());
                }
                return Err(ScannerError::IOError(e));
            },
        }
    }

    /// Skips at most `max_number_of_bytes` bytes and says how many; `None`
    /// when nothing is left.
    pub fn drop_next_bytes(&mut self, max_number_of_bytes: usize) -> (r: Result<
        Option<usize>,
        ScannerError,
    >)
        requires
            old(self).wf(),
        ensures
            final(self).wf(),
            r matches Ok(o) ==> o == if old(self).stream().len() == 0 {
                None
            } else {
                Some(bytes_len(old(self).stream(), max_number_of_bytes) as usize)
            },
            r is Ok ==> final(self).stream() == old(self).stream().skip(
                bytes_len(old(self).stream(), max_number_of_bytes),
            ),
            r matches Err(e) ==> e is IOError,
            old(self).source_fails_never() ==> r is Ok,
            old(self).source_fails_never() ==> final(self).source_fails_never(),
            r is Err ==> suffix_of(final(self).stream(), old(self).stream()),
    {
        let filled = match self.buffer.fill() {
            Ok(f) => f,
            Err(e) => {
                proof {
                    lemma_suffix_refl(old(self).stream());
                }
                return Err(ScannerError::IOError(e));
            },
        };
        if !filled {
            return Ok(None);
        }
        let mut acc: Vec<u8> = Vec::new();
        match bytes_body(&mut self.buffer, &mut acc, false, max_number_of_bytes) {
            Ok(n) => Ok(Some(n)),
            Err(e) => {
                proof {
                    lemma_suffix_refl(old(self).stream());
                }
                return Err(ScannerError::IOError(e));
            },
        }
    }

    /// Reads up to the first occurrence of `boundary`, which it consumes;
    /// without one, reads everything. `None` when nothing is left.
    pub fn next_until_raw(&mut self, boundary: &[u8]) -> (r: Result<
        Option<Vec<u8>>,
        ScannerError,
    >)
        requires
            old(self).wf(),
        ensures
            final(self).wf(),
            r matches Ok(o) ==> bytes_of(o) == until_of(old(self).stream(), boundary@),
            r is Ok ==> final(self).stream() == after_until(old(self).stream(), boundary@),
            r matches Err(e) ==> e is IOError,
            old(self).source_fails_never() ==> r is Ok,
            old(self).source_fails_never() ==> final(self).source_fails_never(),
            r is Err ==> suffix_of(final(self).stream(), old(self).stream()),
    {
        let filled = match self.buffer.fill() {
            Ok(f) => f,
            Err(e) => {
                proof {
                    lemma_suffix_refl(old(self).stream());
                }
                return Err(ScannerError::IOError(e));
            },
        };
        if !filled {
            assert(after_until(old(self).stream(), boundary@) =~= old(self).stream());
            return Ok(None);
        }
        match until_body(&mut self.buffer, boundary) {
            Ok(v) => Ok(Some(v)),
            Err(e) => {
                proof {
                    lemma_suffix_refl(old(self).stream());
                }
                return Err(ScannerError::IOError(e));
            },
        }
    }

    /// Reads up to the first occurrence of `boundary`, which it consumes, as
    /// text; without one, reads everything. `None` when nothing is left.
    pub fn next_until(&mut self, boundary: &str) -> (r: Result<Option<String>, ScannerError>)
        requires
            old(self).wf(),
        ensures
            final(self).wf(),
            r matches Ok(o) ==> text_of(o) == decode_opt(
                until_of(old(self).stream(), boundary.spec_bytes()),
                true,
            ),
            r is Ok ==> final(self).stream() == after_until(old(self).stream(), boundary.spec_bytes()),
            r matches Err(e) ==> e is IOError,
            old(self).source_fails_never() ==> r is Ok,
            old(self).source_fails_never() ==> final(self).source_fails_never(),
            r is Err ==> suffix_of(final(self).stream(), old(self).stream()),
    {
        let raw = match self.next_until_raw(boundary.as_bytes()) {
            Ok(o) => o,
            Err(e) => return Err(e),
        };
        match raw {
            Some(v) => Ok(Some(decode_lossy_string(v.as_slice()))),
            None => Ok(None),
        }
    }

    fn until_text(&mut self, boundary: &[u8]) -> (r: Result<Option<String>, ScannerError>)
        requires
            old(self).wf(),
        ensures
            final(self).wf(),
            r matches Ok(o) ==> text_of(o) == decode_opt(until_of(old(self).stream(), boundary@), true),
            r is Ok ==> final(self).stream() == after_until(old(self).stream(), boundary@),
            r matches Err(e) ==> e is IOError,
            old(self).source_fails_never() ==> r is Ok,
            old(self).source_fails_never() ==> final(self).source_fails_never(),
            r is Err ==> suffix_of(final(self).stream(), old(self).stream()),
    {
        match self.next_until_raw(boundary) {
            Ok(Some(v)) => Ok(Some(decode_lossy_string(v.as_slice()))),
            Ok(None) => Ok(None),
            Err(e) => Err(e),
        }
    }

    /// Skips up to and through the first occurrence of `boundary` and says
    /// how many bytes preceded it; `None` when nothing is left.
    pub fn drop_next_until(&mut self, boundary: &[u8]) -> (r: Result<
        Option<usize>,
        ScannerError,
    >)
        requires
            old(self).wf(),
        ensures
            final(self).wf(),
            r matches Ok(o) ==> o == match until_of(old(self).stream(), boundary@) {
                Some(t) => Some(t.len() as usize),
                None => None::<usize>,
            },
            r is Ok ==> final(self).stream() == after_until(old(self).stream(), boundary@),
            r matches Err(e) ==> e is IOError,
            old(self).source_fails_never() ==> r is Ok,
            old(self).source_fails_never() ==> final(self).source_fails_never(),
            r is Err ==> suffix_of(final(self).stream(), old(self).stream()),
    {
        match self.next_until_raw(boundary) {
            Ok(Some(v)) => Ok(Some(v.len())),
            Ok(None) => Ok(None),
            Err(e) => Err(e),
        }
    }

    /// Reads the next token and parses it as `u8`: `None` when no token is
    /// left, a parse error (with the token consumed) when it is no numeral of
    /// that type.
    pub fn next_u8(&mut self) -> (r: Result<Option<u8>, ScannerError>)
        requires
            old(self).wf(),
        ensures
            final(self).wf(),
            !(r matches Err(ScannerError::IOError(_))) ==> final(self).stream() == after_token(
                old(self).stream(),
                true,
            ),
            !(r matches Err(ScannerError::IOError(_))) ==> int_outcome(
                decode_opt(token_of(old(self).stream(), true), true),
                false,
                0,
                u8::MAX as int,
            ) == (match r {
                Ok(Some(v)) => Some(Some(v as int)),
                Ok(None) => Some(None),
                _ => None::<Option<int>>,
            }),
            !(r matches Err(ScannerError::ParseFloatError(_))),
            old(self).source_fails_never() ==> !(r matches Err(ScannerError::IOError(_))),
            old(self).source_fails_never() ==> final(self).source_fails_never(),
            r matches Err(ScannerError::IOError(_)) ==> suffix_of(
                final(self).stream(),
                old(self).stream(),
            ),
    {
        let text = match self.next() {
            Ok(t) => t,
            Err(e) => return Err(e),
        };
        match text {
            Some(s) => match parse_u8(s.as_str()) {
                Ok(v) => Ok(Some(v)),
                Err(e) => Err(ScannerError::ParseIntError(e)),
            },
            None => Ok(None),
        }
    }

    /// Reads the next token and parses it as `u16`: `None` when no token is
    /// left, a parse error (with the token consumed) when it is no numeral of
    /// that type.
    pub fn next_u16(&mut self) -> (r: Result<Option<u16>, ScannerError>)
        requires
            old(self).wf(),
        ensures
            final(self).wf(),
            !(r matches Err(ScannerError::IOError(_))) ==> final(self).stream() == after_token(
                old(self).stream(),
                true,
            ),
            !(r matches Err(ScannerError::IOError(_))) ==> int_outcome(
                decode_opt(token_of(old(self).stream(), true), true),
                false,
                0,
                u16::MAX as int,
            ) == (match r {
                Ok(Some(v)) => Some(Some(v as int)),
                Ok(None) => Some(None),
                _ => None::<Option<int>>,
            }),
            !(r matches Err(ScannerError::ParseFloatError(_))),
            old(self).source_fails_never() ==> !(r matches Err(ScannerError::IOError(_))),
            old(self).source_fails_never() ==> final(self).source_fails_never(),
            r matches Err(ScannerError::IOError(_)) ==> suffix_of(
                final(self).stream(),
                old(self).stream(),
            ),
    {
        let text = match self.next() {
            Ok(t) => t,
            Err(e) => return Err(e),
        };
        match text {
            Some(s) => match parse_u16(s.as_str()) {
                Ok(v) => Ok(Some(v)),
                Err(e) => Err(ScannerError::ParseIntError(e)),
            },
            None => Ok(None),
        }
    }

    /// Reads the next token and parses it as `u32`: `None` when no token is
    /// left, a parse error (with the token consumed) when it is no numeral of
    /// that type.
    pub fn next_u32(&mut self) -> (r: Result<Option<u32>, ScannerError>)
        requires
            old(self).wf(),
        ensures
            final(self).wf(),
            !(r matches Err(ScannerError::IOError(_))) ==> final(self).stream() == after_token(
                old(self).stream(),
                true,
            ),
            !(r matches Err(ScannerError::IOError(_))) ==> int_outcome(
                decode_opt(token_of(old(self).stream(), true), true),
                false,
                0,
                u32::MAX as int,
            ) == (match r {
                Ok(Some(v)) => Some(Some(v as int)),
                Ok(None) => Some(None),
                _ => None::<Option<int>>,
            }),
            !(r matches Err(ScannerError::ParseFloatError(_))),
            old(self).source_fails_never() ==> !(r matches Err(ScannerError::IOError(_))),
            old(self).source_fails_never() ==> final(self).source_fails_never(),
            r matches Err(ScannerError::IOError(_)) ==> suffix_of(
                final(self).stream(),
                old(self).stream(),
            ),
    {
        let text = match self.next() {
            Ok(t) => t,
            Err(e) => return Err(e),
        };
        match text {
            Some(s) => match parse_u32(s.as_str()) {
                Ok(v) => Ok(Some(v)),
                Err(e) => Err(ScannerError::ParseIntError(e)),
            },
            None => Ok(None),
        }
    }

    /// Reads the next token and parses it as `u64`: `None` when no token is
    /// left, a parse error (with the token consumed) when it is no numeral of
    /// that type.
    pub fn next_u64(&mut self) -> (r: Result<Option<u64>, ScannerError>)
        requires
            old(self).wf(),
        ensures
            final(self).wf(),
            !(r matches Err(ScannerError::IOError(_))) ==> final(self).stream() == after_token(
                old(self).stream(),
                true,
            ),
            !(r matches Err(ScannerError::IOError(_))) ==> int_outcome(
                decode_opt(token_of(old(self).stream(), true), true),
                false,
                0,
                u64::MAX as int,
            ) == (match r {
                Ok(Some(v)) => Some(Some(v as int)),
                Ok(None) => Some(None),
                _ => None::<Option<int>>,
            }),
            !(r matches Err(ScannerError::ParseFloatError(_))),
            old(self).source_fails_never() ==> !(r matches Err(ScannerError::IOError(_))),
            old(self).source_fails_never() ==> final(self).source_fails_never(),
            r matches Err(ScannerError::IOError(_)) ==> suffix_of(
                final(self).stream(),
                old(self).stream(),
            ),
    {
        let text = match self.next() {
            Ok(t) => t,
            Err(e) => return Err(e),
        };
        match text {
            Some(s) => match parse_u64(s.as_str()) {
                Ok(v) => Ok(Some(v)),
                Err(e) => Err(ScannerError::ParseIntError(e)),
            },
            None => Ok(None),
        }
    }

    /// Reads the next token and parses it as `u128`: `None` when no token is
    /// left, a parse error (with the token consumed) when it is no numeral of
    /// that type.
    pub fn next_u128(&mut self) -> (r: Result<Option<u128>, ScannerError>)
        requires
            old(self).wf(),
        ensures
            final(self).wf(),
            !(r matches Err(ScannerError::IOError(_))) ==> final(self).stream() == after_token(
                old(self).stream(),
                true,
            ),
            !(r matches Err(ScannerError::IOError(_))) ==> int_outcome(
                decode_opt(token_of(old(self).stream(), true), true),
                false,
                0,
                u128::MAX as int,
            ) == (match r {
                Ok(Some(v)) => Some(Some(v as int)),
                Ok(None) => Some(None),
                _ => None::<Option<int>>,
            }),
            !(r matches Err(ScannerError::ParseFloatError(_))),
            old(self).source_fails_never() ==> !(r matches Err(ScannerError::IOError(_))),
            old(self).source_fails_never() ==> final(self).source_fails_never(),
            r matches Err(ScannerError::IOError(_)) ==> suffix_of(
                final(self).stream(),
                old(self).stream(),
            ),
    {
        let text = match self.next() {
            Ok(t) => t,
            Err(e) => return Err(e),
        };
        match text {
            Some(s) => match parse_u128(s.as_str()) {
                Ok(v) => Ok(Some(v)),
                Err(e) => Err(ScannerError::ParseIntError(e)),
            },
            None => Ok(None),
        }
    }

    /// Reads the next token and parses it as `usize`: `None` when no token is
    /// left, a parse error (with the token consumed) when it is no numeral of
    /// that type.
    pub fn next_usize(&mut self) -> (r: Result<Option<usize>, ScannerError>)
        requires
            old(self).wf(),
        ensures
            final(self).wf(),
            !(r matches Err(ScannerError::IOError(_))) ==> final(self).stream() == after_token(
                old(self).stream(),
                true,
            ),
            !(r matches Err(ScannerError::IOError(_))) ==> int_outcome(
                decode_opt(token_of(old(self).stream(), true), true),
                false,
                0,
                usize::MAX as int,
            ) == (match r {
                Ok(Some(v)) => Some(Some(v as int)),
                Ok(None) => Some(None),
                _ => None::<Option<int>>,
            }),
            !(r matches Err(ScannerError::ParseFloatError(_))),
            old(self).source_fails_never() ==> !(r matches Err(ScannerError::IOError(_))),
            old(self).source_fails_never() ==> final(self).source_fails_never(),
            r matches Err(ScannerError::IOError(_)) ==> suffix_of(
                final(self).stream(),
                old(self).stream(),
            ),
    {
        let text = match self.next() {
            Ok(t) => t,
            Err(e) => return Err(e),
        };
        match text {
            Some(s) => match parse_usize(s.as_str()) {
                Ok(v) => Ok(Some(v)),
                Err(e) => Err(ScannerError::ParseIntError(e)),
            },
            None => Ok(None),
        }
    }

    /// Reads the next token and parses it as `i8`: `None` when no token is
    /// left, a parse error (with the token consumed) when it is no numeral of
    /// that type.
    pub fn next_i8(&mut self) -> (r: Result<Option<i8>, ScannerError>)
        requires
            old(self).wf(),
        ensures
            final(self).wf(),
            !(r matches Err(ScannerError::IOError(_))) ==> final(self).stream() == after_token(
                old(self).stream(),
                true,
            ),
            !(r matches Err(ScannerError::IOError(_))) ==> int_outcome(
                decode_opt(token_of(old(self).stream(), true), true),
                true,
                i8::MIN as int,
                i8::MAX as int,
            ) == (match r {
                Ok(Some(v)) => Some(Some(v as int)),
                Ok(None) => Some(None),
                _ => None::<Option<int>>,
            }),
            !(r matches Err(ScannerError::ParseFloatError(_))),
            old(self).source_fails_never() ==> !(r matches Err(ScannerError::IOError(_))),
            old(self).source_fails_never() ==> final(self).source_fails_never(),
            r matches Err(ScannerError::IOError(_)) ==> suffix_of(
                final(self).stream(),
                old(self).stream(),
            ),
    {
        let text = match self.next() {
            Ok(t) => t,
            Err(e) => return Err(e),
        };
        match text {
            Some(s) => match parse_i8(s.as_str()) {
                Ok(v) => Ok(Some(v)),
                Err(e) => Err(ScannerError::ParseIntError(e)),
            },
            None => Ok(None),
        }
    }

    /// Reads the next token and parses it as `i16`: `None` when no token is
    /// left, a parse error (with the token consumed) when it is no numeral of
    /// that type.
    pub fn next_i16(&mut self) -> (r: Result<Option<i16>, ScannerError>)
        requires
            old(self).wf(),
        ensures
            final(self).wf(),
            !(r matches Err(ScannerError::IOError(_))) ==> final(self).stream() == after_token(
                old(self).stream(),
                true,
            ),
            !(r matches Err(ScannerError::IOError(_))) ==> int_outcome(
                decode_opt(token_of(old(self).stream(), true), true),
                true,
                i16::MIN as int,
                i16::MAX as int,
            ) == (match r {
                Ok(Some(v)) => Some(Some(v as int)),
                Ok(None) => Some(None),
                _ => None::<Option<int>>,
            }),
            !(r matches Err(ScannerError::ParseFloatError(_))),
            old(self).source_fails_never() ==> !(r matches Err(ScannerError::IOError(_))),
            old(self).source_fails_never() ==> final(self).source_fails_never(),
            r matches Err(ScannerError::IOError(_)) ==> suffix_of(
                final(self).stream(),
                old(self).stream(),
            ),
    {
        let text = match self.next() {
            Ok(t) => t,
            Err(e) => return Err(e),
        };
        match text {
            Some(s) => match parse_i16(s.as_str()) {
                Ok(v) => Ok(Some(v)),
                Err(e) => Err(ScannerError::ParseIntError(e)),
            },
            None => Ok(None),
        }
    }

    /// Reads the next token and parses it as `i32`: `None` when no token is
    /// left, a parse error (with the token consumed) when it is no numeral of
    /// that type.
    pub fn next_i32(&mut self) -> (r: Result<Option<i32>, ScannerError>)
        requires
            old(self).wf(),
        ensures
            final(self).wf(),
            !(r matches Err(ScannerError::IOError(_))) ==> final(self).stream() == after_token(
                old(self).stream(),
                true,
            ),
            !(r matches Err(ScannerError::IOError(_))) ==> int_outcome(
                decode_opt(token_of(old(self).stream(), true), true),
                true,
                i32::MIN as int,
                i32::MAX as int,
            ) == (match r {
                Ok(Some(v)) => Some(Some(v as int)),
                Ok(None) => Some(None),
                _ => None::<Option<int>>,
            }),
            !(r matches Err(ScannerError::ParseFloatError(_))),
            old(self).source_fails_never() ==> !(r matches Err(ScannerError::IOError(_))),
            old(self).source_fails_never() ==> final(self).source_fails_never(),
            r matches Err(ScannerError::IOError(_)) ==> suffix_of(
                final(self).stream(),
                old(self).stream(),
            ),
    {
        let text = match self.next() {
            Ok(t) => t,
            Err(e) => return Err(e),
        };
        match text {
            Some(s) => match parse_i32(s.as_str()) {
                Ok(v) => Ok(Some(v)),
                Err(e) => Err(ScannerError::ParseIntError(e)),
            },
            None => Ok(None),
        }
    }

    /// Reads the next token and parses it as `i64`: `None` when no token is
    /// left, a parse error (with the token consumed) when it is no numeral of
    /// that type.
    pub fn next_i64(&mut self) -> (r: Result<Option<i64>, ScannerError>)
        requires
            old(self).wf(),
        ensures
            final(self).wf(),
            !(r matches Err(ScannerError::IOError(_))) ==> final(self).stream() == after_token(
                old(self).stream(),
                true,
            ),
            !(r matches Err(ScannerError::IOError(_))) ==> int_outcome(
                decode_opt(token_of(old(self).stream(), true), true),
                true,
                i64::MIN as int,
                i64::MAX as int,
            ) == (match r {
                Ok(Some(v)) => Some(Some(v as int)),
                Ok(None) => Some(None),
                _ => None::<Option<int>>,
            }),
            !(r matches Err(ScannerError::ParseFloatError(_))),
            old(self).source_fails_never() ==> !(r matches Err(ScannerError::IOError(_))),
            old(self).source_fails_never() ==> final(self).source_fails_never(),
            r matches Err(ScannerError::IOError(_)) ==> suffix_of(
                final(self).stream(),
                old(self).stream(),
            ),
    {
        let text = match self.next() {
            Ok(t) => t,
            Err(e) => return Err(e),
        };
        match text {
            Some(s) => match parse_i64(s.as_str()) {
                Ok(v) => Ok(Some(v)),
                Err(e) => Err(ScannerError::ParseIntError(e)),
            },
            None => Ok(None),
        }
    }

    /// Reads the next token and parses it as `i128`: `None` when no token is
    /// left, a parse error (with the token consumed) when it is no numeral of
    /// that type.
    pub fn next_i128(&mut self) -> (r: Result<Option<i128>, ScannerError>)
        requires
            old(self).wf(),
        ensures
            final(self).wf(),
            !(r matches Err(ScannerError::IOError(_))) ==> final(self).stream() == after_token(
                old(self).stream(),
                true,
            ),
            !(r matches Err(ScannerError::IOError(_))) ==> int_outcome(
                decode_opt(token_of(old(self).stream(), true), true),
                true,
                i128::MIN as int,
                i128::MAX as int,
            ) == (match r {
                Ok(Some(v)) => Some(Some(v as int)),
                Ok(None) => Some(None),
                _ => None::<Option<int>>,
            }),
            !(r matches Err(ScannerError::ParseFloatError(_))),
            old(self).source_fails_never() ==> !(r matches Err(ScannerError::IOError(_))),
            old(self).source_fails_never() ==> final(self).source_fails_never(),
            r matches Err(ScannerError::IOError(_)) ==> suffix_of(
                final(self).stream(),
                old(self).stream(),
            ),
    {
        let text = match self.next() {
            Ok(t) => t,
            Err(e) => return Err(e),
        };
        match text {
            Some(s) => match parse_i128(s.as_str()) {
                Ok(v) => Ok(Some(v)),
                Err(e) => Err(ScannerError::ParseIntError(e)),
            },
            None => Ok(None),
        }
    }

    /// Reads the next token and parses it as `isize`: `None` when no token is
    /// left, a parse error (with the token consumed) when it is no numeral of
    /// that type.
    pub fn next_isize(&mut self) -> (r: Result<Option<isize>, ScannerError>)
        requires
            old(self).wf(),
        ensures
            final(self).wf(),
            !(r matches Err(ScannerError::IOError(_))) ==> final(self).stream() == after_token(
                old(self).stream(),
                true,
            ),
            !(r matches Err(ScannerError::IOError(_))) ==> int_outcome(
                decode_opt(token_of(old(self).stream(), true), true),
                true,
                isize::MIN as int,
                isize::MAX as int,
            ) == (match r {
                Ok(Some(v)) => Some(Some(v as int)),
                Ok(None) => Some(None),
                _ => None::<Option<int>>,
            }),
            !(r matches Err(ScannerError::ParseFloatError(_))),
            old(self).source_fails_never() ==> !(r matches Err(ScannerError::IOError(_))),
            old(self).source_fails_never() ==> final(self).source_fails_never(),
            r matches Err(ScannerError::IOError(_)) ==> suffix_of(
                final(self).stream(),
                old(self).stream(),
            ),
    {
        let text = match self.next() {
            Ok(t) => t,
            Err(e) => return Err(e),
        };
        match text {
            Some(s) => match parse_isize(s.as_str()) {
                Ok(v) => Ok(Some(v)),
                Err(e) => Err(ScannerError::ParseIntError(e)),
            },
            None => Ok(None),
        }
    }

    /// Reads up to the first occurrence of `boundary`, which it consumes, and
    /// parses what precedes it as `u8`.
    pub fn next_u8_until(&mut self, boundary: &[u8]) -> (r: Result<Option<u8>, ScannerError>)
        requires
            old(self).wf(),
        ensures
            final(self).wf(),
            !(r matches Err(ScannerError::IOError(_))) ==> final(self).stream() == after_until(
                old(self).stream(),
                boundary@,
            ),
            !(r matches Err(ScannerError::IOError(_))) ==> int_outcome(
                decode_opt(until_of(old(self).stream(), boundary@), true),
                false,
                0,
                u8::MAX as int,
            ) == (match r {
                Ok(Some(v)) => Some(Some(v as int)),
                Ok(None) => Some(None),
                _ => None::<Option<int>>,
            }),
            !(r matches Err(ScannerError::ParseFloatError(_))),
            old(self).source_fails_never() ==> !(r matches Err(ScannerError::IOError(_))),
            old(self).source_fails_never() ==> final(self).source_fails_never(),
            r matches Err(ScannerError::IOError(_)) ==> suffix_of(
                final(self).stream(),
                old(self).stream(),
            ),
    {
        let text = match self.until_text(boundary) {
            Ok(t) => t,
            Err(e) => return Err(e),
        };
        match text {
            Some(s) => match parse_u8(s.as_str()) {
                Ok(v) => Ok(Some(v)),
                Err(e) => Err(ScannerError::ParseIntError(e)),
            },
            None => Ok(None),
        }
    }

    /// Reads up to the first occurrence of `boundary`, which it consumes, and
    /// parses what precedes it as `u16`.
    pub fn next_u16_until(&mut self, boundary: &[u8]) -> (r: Result<Option<u16>, ScannerError>)
        requires
            old(self).wf(),
        ensures
            final(self).wf(),
            !(r matches Err(ScannerError::IOError(_))) ==> final(self).stream() == after_until(
                old(self).stream(),
                boundary@,
            ),
            !(r matches Err(ScannerError::IOError(_))) ==> int_outcome(
                decode_opt(until_of(old(self).stream(), boundary@), true),
                false,
                0,
                u16::MAX as int,
            ) == (match r {
                Ok(Some(v)) => Some(Some(v as int)),
                Ok(None) => Some(None),
                _ => None::<Option<int>>,
            }),
            !(r matches Err(ScannerError::ParseFloatError(_))),
            old(self).source_fails_never() ==> !(r matches Err(ScannerError::IOError(_))),
            old(self).source_fails_never() ==> final(self).source_fails_never(),
            r matches Err(ScannerError::IOError(_)) ==> suffix_of(
                final(self).stream(),
                old(self).stream(),
            ),
    {
        let text = match self.until_text(boundary) {
            Ok(t) => t,
            Err(e) => return Err(e),
        };
        match text {
            Some(s) => match parse_u16(s.as_str()) {
                Ok(v) => Ok(Some(v)),
                Err(e) => Err(ScannerError::ParseIntError(e)),
            },
            None => Ok(None),
        }
    }

    /// Reads up to the first occurrence of `boundary`, which it consumes, and
    /// parses what precedes it as `u32`.
    pub fn next_u32_until(&mut self, boundary: &[u8]) -> (r: Result<Option<u32>, ScannerError>)
        requires
            old(self).wf(),
        ensures
            final(self).wf(),
            !(r matches Err(ScannerError::IOError(_))) ==> final(self).stream() == after_until(
                old(self).stream(),
                boundary@,
            ),
            !(r matches Err(ScannerError::IOError(_))) ==> int_outcome(
                decode_opt(until_of(old(self).stream(), boundary@), true),
                false,
                0,
                u32::MAX as int,
            ) == (match r {
                Ok(Some(v)) => Some(Some(v as int)),
                Ok(None) => Some(None),
                _ => None::<Option<int>>,
            }),
            !(r matches Err(ScannerError::ParseFloatError(_))),
            old(self).source_fails_never() ==> !(r matches Err(ScannerError::IOError(_))),
            old(self).source_fails_never() ==> final(self).source_fails_never(),
            r matches Err(ScannerError::IOError(_)) ==> suffix_of(
                final(self).stream(),
                old(self).stream(),
            ),
    {
        let text = match self.until_text(boundary) {
            Ok(t) => t,
            Err(e) => return Err(e),
        };
        match text {
            Some(s) => match parse_u32(s.as_str()) {
                Ok(v) => Ok(Some(v)),
                Err(e) => Err(ScannerError::ParseIntError(e)),
            },
            None => Ok(None),
        }
    }

    /// Reads up to the first occurrence of `boundary`, which it consumes, and
    /// parses what precedes it as `u64`.
    pub fn next_u64_until(&mut self, boundary: &[u8]) -> (r: Result<Option<u64>, ScannerError>)
        requires
            old(self).wf(),
        ensures
            final(self).wf(),
            !(r matches Err(ScannerError::IOError(_))) ==> final(self).stream() == after_until(
                old(self).stream(),
                boundary@,
            ),
            !(r matches Err(ScannerError::IOError(_))) ==> int_outcome(
                decode_opt(until_of(old(self).stream(), boundary@), true),
                false,
                0,
                u64::MAX as int,
            ) == (match r {
                Ok(Some(v)) => Some(Some(v as int)),
                Ok(None) => Some(None),
                _ => None::<Option<int>>,
            }),
            !(r matches Err(ScannerError::ParseFloatError(_))),
            old(self).source_fails_never() ==> !(r matches Err(ScannerError::IOError(_))),
            old(self).source_fails_never() ==> final(self).source_fails_never(),
            r matches Err(ScannerError::IOError(_)) ==> suffix_of(
                final(self).stream(),
                old(self).stream(),
            ),
    {
        let text = match self.until_text(boundary) {
            Ok(t) => t,
            Err(e) => return Err(e),
        };
        match text {
            Some(s) => match parse_u64(s.as_str()) {
                Ok(v) => Ok(Some(v)),
                Err(e) => Err(ScannerError::ParseIntError(e)),
            },
            None => Ok(None),
        }
    }

    /// Reads up to the first occurrence of `boundary`, which it consumes, and
    /// parses what precedes it as `u128`.
    pub fn next_u128_until(&mut self, boundary: &[u8]) -> (r: Result<Option<u128>, ScannerError>)
        requires
            old(self).wf(),
        ensures
            final(self).wf(),
            !(r matches Err(ScannerError::IOError(_))) ==> final(self).stream() == after_until(
                old(self).stream(),
                boundary@,
            ),
            !(r matches Err(ScannerError::IOError(_))) ==> int_outcome(
                decode_opt(until_of(old(self).stream(), boundary@), true),
                false,
                0,
                u128::MAX as int,
            ) == (match r {
                Ok(Some(v)) => Some(Some(v as int)),
                Ok(None) => Some(None),
                _ => None::<Option<int>>,
            }),
            !(r matches Err(ScannerError::ParseFloatError(_))),
            old(self).source_fails_never() ==> !(r matches Err(ScannerError::IOError(_))),
            old(self).source_fails_never() ==> final(self).source_fails_never(),
            r matches Err(ScannerError::IOError(_)) ==> suffix_of(
                final(self).stream(),
                old(self).stream(),
            ),
    {
        let text = match self.until_text(boundary) {
            Ok(t) => t,
            Err(e) => return Err(e),
        };
        match text {
            Some(s) => match parse_u128(s.as_str()) {
                Ok(v) => Ok(Some(v)),
                Err(e) => Err(ScannerError::ParseIntError(e)),
            },
            None => Ok(None),
        }
    }

    /// Reads up to the first occurrence of `boundary`, which it consumes, and
    /// parses what precedes it as `usize`.
    pub fn next_usize_until(&mut self, boundary: &[u8]) -> (r: Result<Option<usize>, ScannerError>)
        requires
            old(self).wf(),
        ensures
            final(self).wf(),
            !(r matches Err(ScannerError::IOError(_))) ==> final(self).stream() == after_until(
                old(self).stream(),
                boundary@,
            ),
            !(r matches Err(ScannerError::IOError(_))) ==> int_outcome(
                decode_opt(until_of(old(self).stream(), boundary@), true),
                false,
                0,
                usize::MAX as int,
            ) == (match r {
                Ok(Some(v)) => Some(Some(v as int)),
                Ok(None) => Some(None),
                _ => None::<Option<int>>,
            }),
            !(r matches Err(ScannerError::ParseFloatError(_))),
            old(self).source_fails_never() ==> !(r matches Err(ScannerError::IOError(_))),
            old(self).source_fails_never() ==> final(self).source_fails_never(),
            r matches Err(ScannerError::IOError(_)) ==> suffix_of(
                final(self).stream(),
                old(self).stream(),
            ),
    {
        let text = match self.until_text(boundary) {
            Ok(t) => t,
            Err(e) => return Err(e),
        };
        match text {
            Some(s) => match parse_usize(s.as_str()) {
                Ok(v) => Ok(Some(v)),
                Err(e) => Err(ScannerError::ParseIntError(e)),
            },
            None => Ok(None),
        }
    }

    /// Reads up to the first occurrence of `boundary`, which it consumes, and
    /// parses what precedes it as `i8`.
    pub fn next_i8_until(&mut self, boundary: &[u8]) -> (r: Result<Option<i8>, ScannerError>)
        requires
            old(self).wf(),
        ensures
            final(self).wf(),
            !(r matches Err(ScannerError::IOError(_))) ==> final(self).stream() == after_until(
                old(self).stream(),
                boundary@,
            ),
            !(r matches Err(ScannerError::IOError(_))) ==> int_outcome(
                decode_opt(until_of(old(self).stream(), boundary@), true),
                true,
                i8::MIN as int,
                i8::MAX as int,
            ) == (match r {
                Ok(Some(v)) => Some(Some(v as int)),
                Ok(None) => Some(None),
                _ => None::<Option<int>>,
            }),
            !(r matches Err(ScannerError::ParseFloatError(_))),
            old(self).source_fails_never() ==> !(r matches Err(ScannerError::IOError(_))),
            old(self).source_fails_never() ==> final(self).source_fails_never(),
            r matches Err(ScannerError::IOError(_)) ==> suffix_of(
                final(self).stream(),
                old(self).stream(),
            ),
    {
        let text = match self.until_text(boundary) {
            Ok(t) => t,
            Err(e) => return Err(e),
        };
        match text {
            Some(s) => match parse_i8(s.as_str()) {
                Ok(v) => Ok(Some(v)),
                Err(e) => Err(ScannerError::ParseIntError(e)),
            },
            None => Ok(None),
        }
    }

    /// Reads up to the first occurrence of `boundary`, which it consumes, and
    /// parses what precedes it as `i16`.
    pub fn next_i16_until(&mut self, boundary: &[u8]) -> (r: Result<Option<i16>, ScannerError>)
        requires
            old(self).wf(),
        ensures
            final(self).wf(),
            !(r matches Err(ScannerError::IOError(_))) ==> final(self).stream() == after_until(
                old(self).stream(),
                boundary@,
            ),
            !(r matches Err(ScannerError::IOError(_))) ==> int_outcome(
                decode_opt(until_of(old(self).stream(), boundary@), true),
                true,
                i16::MIN as int,
                i16::MAX as int,
            ) == (match r {
                Ok(Some(v)) => Some(Some(v as int)),
                Ok(None) => Some(None),
                _ => None::<Option<int>>,
            }),
            !(r matches Err(ScannerError::ParseFloatError(_))),
            old(self).source_fails_never() ==> !(r matches Err(ScannerError::IOError(_))),
            old(self).source_fails_never() ==> final(self).source_fails_never(),
            r matches Err(ScannerError::IOError(_)) ==> suffix_of(
                final(self).stream(),
                old(self).stream(),
            ),
    {
        let text = match self.until_text(boundary) {
            Ok(t) => t,
            Err(e) => return Err(e),
        };
        match text {
            Some(s) => match parse_i16(s.as_str()) {
                Ok(v) => Ok(Some(v)),
                Err(e) => Err(ScannerError::ParseIntError(e)),
            },
            None => Ok(None),
        }
    }

    /// Reads up to the first occurrence of `boundary`, which it consumes, and
    /// parses what precedes it as `i32`.
    pub fn next_i32_until(&mut self, boundary: &[u8]) -> (r: Result<Option<i32>, ScannerError>)
        requires
            old(self).wf(),
        ensures
            final(self).wf(),
            !(r matches Err(ScannerError::IOError(_))) ==> final(self).stream() == after_until(
                old(self).stream(),
                boundary@,
            ),
            !(r matches Err(ScannerError::IOError(_))) ==> int_outcome(
                decode_opt(until_of(old(self).stream(), boundary@), true),
                true,
                i32::MIN as int,
                i32::MAX as int,
            ) == (match r {
                Ok(Some(v)) => Some(Some(v as int)),
                Ok(None) => Some(None),
                _ => None::<Option<int>>,
            }),
            !(r matches Err(ScannerError::ParseFloatError(_))),
            old(self).source_fails_never() ==> !(r matches Err(ScannerError::IOError(_))),
            old(self).source_fails_never() ==> final(self).source_fails_never(),
            r matches Err(ScannerError::IOError(_)) ==> suffix_of(
                final(self).stream(),
                old(self).stream(),
            ),
    {
        let text = match self.until_text(boundary) {
            Ok(t) => t,
            Err(e) => return Err(e),
        };
        match text {
            Some(s) => match parse_i32(s.as_str()) {
                Ok(v) => Ok(Some(v)),
                Err(e) => Err(ScannerError::ParseIntError(e)),
            },
            None => Ok(None),
        }
    }

    /// Reads up to the first occurrence of `boundary`, which it consumes, and
    /// parses what precedes it as `i64`.
    pub fn next_i64_until(&mut self, boundary: &[u8]) -> (r: Result<Option<i64>, ScannerError>)
        requires
            old(self).wf(),
        ensures
            final(self).wf(),
            !(r matches Err(ScannerError::IOError(_))) ==> final(self).stream() == after_until(
                old(self).stream(),
                boundary@,
            ),
            !(r matches Err(ScannerError::IOError(_))) ==> int_outcome(
                decode_opt(until_of(old(self).stream(), boundary@), true),
                true,
                i64::MIN as int,
                i64::MAX as int,
            ) == (match r {
                Ok(Some(v)) => Some(Some(v as int)),
                Ok(None) => Some(None),
                _ => None::<Option<int>>,
            }),
            !(r matches Err(ScannerError::ParseFloatError(_))),
            old(self).source_fails_never() ==> !(r matches Err(ScannerError::IOError(_))),
            old(self).source_fails_never() ==> final(self).source_fails_never(),
            r matches Err(ScannerError::IOError(_)) ==> suffix_of(
                final(self).stream(),
                old(self).stream(),
            ),
    {
        let text = match self.until_text(boundary) {
            Ok(t) => t,
            Err(e) => return Err(e),
        };
        match text {
            Some(s) => match parse_i64(s.as_str()) {
                Ok(v) => Ok(Some(v)),
                Err(e) => Err(ScannerError::ParseIntError(e)),
            },
            None => Ok(None),
        }
    }

    /// Reads up to the first occurrence of `boundary`, which it consumes, and
    /// parses what precedes it as `i128`.
    pub fn next_i128_until(&mut self, boundary: &[u8]) -> (r: Result<Option<i128>, ScannerError>)
        requires
            old(self).wf(),
        ensures
            final(self).wf(),
            !(r matches Err(ScannerError::IOError(_))) ==> final(self).stream() == after_until(
                old(self).stream(),
                boundary@,
            ),
            !(r matches Err(ScannerError::IOError(_))) ==> int_outcome(
                decode_opt(until_of(old(self).stream(), boundary@), true),
                true,
                i128::MIN as int,
                i128::MAX as int,
            ) == (match r {
                Ok(Some(v)) => Some(Some(v as int)),
                Ok(None) => Some(None),
                _ => None::<Option<int>>,
            }),
            !(r matches Err(ScannerError::ParseFloatError(_))),
            old(self).source_fails_never() ==> !(r matches Err(ScannerError::IOError(_))),
            old(self).source_fails_never() ==> final(self).source_fails_never(),
            r matches Err(ScannerError::IOError(_)) ==> suffix_of(
                final(self).stream(),
                old(self).stream(),
            ),
    {
        let text = match self.until_text(boundary) {
            Ok(t) => t,
            Err(e) => return Err(e),
        };
        match text {
            Some(s) => match parse_i128(s.as_str()) {
                Ok(v) => Ok(Some(v)),
                Err(e) => Err(ScannerError::ParseIntError(e)),
            },
            None => Ok(None),
        }
    }

    /// Reads up to the first occurrence of `boundary`, which it consumes, and
    /// parses what precedes it as `isize`.
    pub fn next_isize_until(&mut self, boundary: &[u8]) -> (r: Result<Option<isize>, ScannerError>)
        requires
            old(self).wf(),
        ensures
            final(self).wf(),
            !(r matches Err(ScannerError::IOError(_))) ==> final(self).stream() == after_until(
                old(self).stream(),
                boundary@,
            ),
            !(r matches Err(ScannerError::IOError(_))) ==> int_outcome(
                decode_opt(until_of(old(self).stream(), boundary@), true),
                true,
                isize::MIN as int,
                isize::MAX as int,
            ) == (match r {
                Ok(Some(v)) => Some(Some(v as int)),
                Ok(None) => Some(None),
                _ => None::<Option<int>>,
            }),
            !(r matches Err(ScannerError::ParseFloatError(_))),
            old(self).source_fails_never() ==> !(r matches Err(ScannerError::IOError(_))),
            old(self).source_fails_never() ==> final(self).source_fails_never(),
            r matches Err(ScannerError::IOError(_)) ==> suffix_of(
                final(self).stream(),
                old(self).stream(),
            ),
    {
        let text = match self.until_text(boundary) {
            Ok(t) => t,
            Err(e) => return Err(e),
        };
        match text {
            Some(s) => match parse_isize(s.as_str()) {
                Ok(v) => Ok(Some(v)),
                Err(e) => Err(ScannerError::ParseIntError(e)),
            },
            None => Ok(None),
        }
    }
}

impl<'a> Scanner<&'a [u8]> {
    /// A scanner over the bytes of `b`, whose buffer is no larger than they
    /// need (and no smaller than the least capacity).
    pub fn scan_slice(b: &'a [u8]) -> (r: Scanner<&'a [u8]>)
        ensures
            r.wf(),
            r.stream() == b@,
            r.get_remains_len() == 0,
            r.source_fails_never(),
            r.capacity() == if b@.len() < DEFAULT_CAPACITY {
                if b@.len() < MIN_CAPACITY {
                    MIN_CAPACITY as nat
                } else {
                    b@.len()
                }
            } else {
                DEFAULT_CAPACITY as nat
            },
    {
        let size = b.len();
        let capacity = if size < DEFAULT_CAPACITY {
            if size < MIN_CAPACITY {
                MIN_CAPACITY
            } else {
                size
            }
        } else {
            DEFAULT_CAPACITY
        };
        Scanner::with_capacity(b, capacity)
    }
}

} // verus!
