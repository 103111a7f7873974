//! The buffering engine shared by the stream scanners: a fixed-capacity byte
//! buffer in front of a byte source, refilled on demand and compacted when
//! its live range drifts towards the end.
use vstd::prelude::*;

use crate::classify::lead_width;
use crate::source::ByteSource;
use crate::text::{char_at_front, char_len, decode_char_at, lemma_front_of_prefix};

verus! {

/// The widest encoded character, and so the least capacity a buffer can have.
pub const MIN_CAPACITY: usize = 4;

/// Once fewer than this many bytes lie between the live range's start and the
/// end of the buffer, the live range is moved back to the front.
pub const HEADROOM: usize = 32;

pub struct ByteBuffer<R: ByteSource> {
    reader: R,
    buf: Vec<u8>,
    offset: usize,
    length: usize,
}

impl<R: ByteSource> ByteBuffer<R> {
    pub closed spec fn wf(&self) -> bool {
        &&& self.buf.len() >= MIN_CAPACITY
        &&& self.offset + self.length <= self.buf.len()
        &&& self.offset + MIN_CAPACITY <= self.buf.len()
    }

    /// Bytes read from the source and not yet consumed.
    pub closed spec fn buffered(&self) -> Seq<u8> {
        self.buf@.subrange(self.offset as int, self.offset + self.length)
    }

    /// Everything still to be consumed: the buffered bytes, then the source's.
    pub closed spec fn stream(&self) -> Seq<u8> {
        self.buffered() + self.reader.pending()
    }

    /// Free bytes after the live range.
    pub closed spec fn room(&self) -> nat {
        (self.buf.len() - self.offset - self.length) as nat
    }

    /// Whether no read of the source can fail.
    pub closed spec fn fails_never(&self) -> bool {
        self.reader.fails_never()
    }

    /// Where the live range starts in the buffer.
    pub closed spec fn offset(&self) -> nat {
        self.offset as nat
    }

    pub closed spec fn capacity(&self) -> nat {
        self.buf.len() as nat
    }

    pub closed spec fn buffered_len(&self) -> nat {
        self.length as nat
    }

    pub proof fn lemma_buffered_prefix(&self)
        requires
            self.wf(),
        ensures
            self.buffered_len() <= self.stream().len(),
            self.stream().take(self.buffered_len() as int) == self.buffered(),
            self.buffered().len() == self.buffered_len(),
    {
        assert(self.stream().take(self.buffered_len() as int) =~= self.buffered());
    }

    pub proof fn lemma_room(&self)
        requires
            self.wf(),
        ensures
            self.buffered_len() + self.room() >= MIN_CAPACITY,
    {
    }

    pub fn new(reader: R, capacity: usize) -> (r: Self)
        requires
            capacity >= MIN_CAPACITY,
        ensures
            r.wf(),
            r.stream() == reader.pending(),
            r.capacity() == capacity,
            r.buffered_len() == 0,
            r.fails_never() == reader.fails_never(),
    {
        let buf = vec![0u8; capacity];
        let r = ByteBuffer { reader, buf, offset: 0, length: 0 };
        assert(r.buffered() =~= Seq::<u8>::empty());
        assert(r.stream() =~= reader.pending());
        r
    }

    /// Number of buffered bytes.
    pub fn len(&self) -> (r: usize)
        ensures
            r == self.buffered_len(),
    {
        self.length
    }

    /// The `i`-th byte still to be consumed, which must be buffered.
    pub fn byte(&self, i: usize) -> (r: u8)
        requires
            self.wf(),
            i < self.buffered_len(),
        ensures
            r == self.stream()[i as int],
    {
        self.buf[self.offset + i]
    }

    /// Reads once from the source when nothing is buffered; says whether
    /// anything is left to consume.
    pub fn fill(&mut self) -> (r: Result<bool, std::io::Error>)
        requires
            old(self).wf(),
        ensures
            final(self).wf(),
            final(self).stream() == old(self).stream(),
            final(self).capacity() == old(self).capacity(),
            old(self).buffered_len() > 0 ==> final(self).buffered_len() == old(self).buffered_len(),
            r is Err ==> final(self).buffered_len() == old(self).buffered_len(),
            r matches Ok(b) ==> b == (final(self).stream().len() > 0),
            r matches Ok(b) ==> (b ==> final(self).buffered_len() > 0),
            old(self).fails_never() ==> r is Ok,
            old(self).fails_never() ==> final(self).fails_never(),
            final(self).buffered_len() + final(self).room() == old(self).buffered_len()
                + old(self).room(),
    {
        if self.length > 0 {
            return Ok(true);
        }
        let ghost old_pending = self.reader.pending();
        let n = match self.reader.read_into(&mut self.buf, self.offset) {
            Ok(n) => n,
            Err(e) => {
                assert(self.buffered() =~= Seq::<u8>::empty());
                return Err(e);
            },
        };
        self.length = n;
        assert(self.buffered() =~= old_pending.take(n as int));
        assert(self.stream() =~= old_pending);
        Ok(n > 0)
    }

    /// Reads until at least `k` bytes are buffered or the source is exhausted.
    /// `Ok(false)` means the whole remaining input is buffered and shorter than `k`.
    pub fn ensure(&mut self, k: usize) -> (r: Result<bool, std::io::Error>)
        requires
            old(self).wf(),
            1 <= k <= MIN_CAPACITY,
        ensures
            final(self).wf(),
            final(self).stream() == old(self).stream(),
            final(self).capacity() == old(self).capacity(),
            final(self).buffered_len() >= old(self).buffered_len(),
            r matches Ok(b) ==> (b <==> final(self).buffered_len() >= k),
            r matches Ok(b) ==> (!b ==> final(self).buffered_len() == final(self).stream().len()),
            old(self).fails_never() ==> r is Ok,
            old(self).fails_never() ==> final(self).fails_never(),
    {
        while self.length < k
            invariant
                self.wf(),
                self.stream() == old(self).stream(),
                self.buf.len() == old(self).buf.len(),
                self.length >= old(self).length,
                1 <= k <= MIN_CAPACITY,
                old(self).fails_never() ==> self.fails_never(),
            decreases self.buf.len() - self.offset - self.length,
        {
            let ghost before = self.stream();
            let ghost old_pending = self.reader.pending();
            let ghost old_buf = self.buffered();
            let n = match self.reader.read_into(&mut self.buf, self.offset + self.length) {
                Ok(n) => n,
                Err(e) => {
                    assert(self.buffered() =~= old_buf);
                    return Err(e);
                },
            };
            if n == 0 {
                assert(self.reader.pending() =~= Seq::<u8>::empty());
                assert(self.buffered() =~= old_buf);
                assert(self.stream() =~= old_buf);
                return Ok(false);
            }
            self.length = self.length + n;
            assert(self.buffered() =~= old_buf + old_pending.take(n as int));
            assert(self.stream() =~= before);
        }
        Ok(true)
    }

    /// Reads until the source is exhausted or the buffer has no room left.
    pub fn fill_all(&mut self) -> (r: Result<(), std::io::Error>)
        requires
            old(self).wf(),
        ensures
            final(self).wf(),
            final(self).stream() == old(self).stream(),
            final(self).capacity() == old(self).capacity(),
            final(self).buffered_len() >= old(self).buffered_len(),
            final(self).buffered_len() + final(self).room() == old(self).buffered_len()
                + old(self).room(),
            r is Ok ==> (final(self).buffered_len() == final(self).stream().len()
                || final(self).room() == 0),
            old(self).fails_never() ==> r is Ok,
            old(self).fails_never() ==> final(self).fails_never(),
    {
        loop
            invariant
                self.wf(),
                self.stream() == old(self).stream(),
                self.buf.len() == old(self).buf.len(),
                self.offset == old(self).offset,
                self.length >= old(self).length,
                old(self).fails_never() ==> self.fails_never(),
            decreases self.buf.len() - self.offset - self.length,
        {
            let ghost before = self.stream();
            let ghost old_pending = self.reader.pending();
            let ghost old_buf = self.buffered();
            let n = match self.reader.read_into(&mut self.buf, self.offset + self.length) {
                Ok(n) => n,
                Err(e) => {
                    assert(self.buffered() =~= old_buf);
                    return Err(e);
                },
            };
            if n == 0 {
                assert(self.buffered() =~= old_buf);
                assert(self.stream() =~= before);
                if self.offset + self.length < self.buf.len() {
                    assert(self.reader.pending().len() == 0);
                    assert(self.buffered_len() == self.stream().len());
                }
                return Ok(());
            }
            self.length = self.length + n;
            assert(self.buffered() =~= old_buf + old_pending.take(n as int));
            assert(self.stream() =~= before);
        }
    }

    /// Moves the live range to the front of the buffer.
    pub fn compact(&mut self)
        requires
            old(self).wf(),
        ensures
            final(self).wf(),
            final(self).stream() == old(self).stream(),
            final(self).capacity() == old(self).capacity(),
            final(self).buffered_len() == old(self).buffered_len(),
            final(self).room() == final(self).capacity() - final(self).buffered_len(),
            final(self).room() >= old(self).room(),
            final(self).fails_never() == old(self).fails_never(),
    {
        self.align_to_front();
    }

    fn align_to_front(&mut self)
        requires
            old(self).buf.len() >= MIN_CAPACITY,
            old(self).offset + old(self).length <= old(self).buf.len(),
        ensures
            final(self).wf(),
            final(self).stream() == old(self).stream(),
            final(self).capacity() == old(self).capacity(),
            final(self).buffered_len() == old(self).buffered_len(),
            final(self).offset == 0,
            final(self).reader == old(self).reader,
            final(self).fails_never() == old(self).fails_never(),
    {
        let ghost b = self.buffered();
        let mut i: usize = 0;
        while i < self.length
            invariant
                self.buf.len() >= MIN_CAPACITY,
                self.offset + self.length <= self.buf.len(),
                self.buf.len() == old(self).buf.len(),
                self.offset == old(self).offset,
                self.length == old(self).length,
                self.reader == old(self).reader,
                b == old(self).buffered(),
                i <= self.length,
                self.buf@.subrange(0, i as int) == b.take(i as int),
                forall|j: int| i <= j < self.length ==> self.buf@[self.offset + j] == b[j],
            decreases self.length - i,
        {
            let x = self.buf[self.offset + i];
            self.buf.set(i, x);
            i = i + 1;
            assert(self.buf@.subrange(0, i as int) =~= b.take(i as int));
        }
        self.offset = 0;
        assert(self.buffered() =~= b);
    }

    /// Consumes the first `n` buffered bytes.
    pub fn shift(&mut self, n: usize)
        requires
            old(self).wf(),
            n <= old(self).buffered_len(),
        ensures
            final(self).wf(),
            final(self).stream() == old(self).stream().skip(n as int),
            final(self).capacity() == old(self).capacity(),
            final(self).buffered_len() == old(self).buffered_len() - n,
            final(self).fails_never() == old(self).fails_never(),
            final(self).offset() == if old(self).capacity() - (old(self).offset() + n) < HEADROOM {
                0
            } else {
                old(self).offset() + n
            },
            final(self).room() >= old(self).room(),
    {
        let ghost s = self.stream();
        self.offset = self.offset + n;
        self.length = self.length - n;
        assert(self.stream() =~= s.skip(n as int));
        if self.buf.len() - self.offset < HEADROOM {
            self.align_to_front();
        }
    }

    /// Appends the first `n` buffered bytes to `acc` and consumes them.
    pub fn take_into(&mut self, acc: &mut Vec<u8>, n: usize)
        requires
            old(self).wf(),
            n <= old(self).buffered_len(),
        ensures
            final(self).wf(),
            final(self).stream() == old(self).stream().skip(n as int),
            final(self).capacity() == old(self).capacity(),
            final(self).buffered_len() == old(self).buffered_len() - n,
            final(acc)@ == old(acc)@ + old(self).stream().take(n as int),
            final(self).fails_never() == old(self).fails_never(),
    {
        let ghost s = self.stream();
        let ghost a = acc@;
        let mut i: usize = 0;
        while i < n
            invariant
                self.wf(),
                self.stream() == s,
                self.buf.len() == old(self).buf.len(),
                self.length == old(self).length,
                self.fails_never() == old(self).fails_never(),
                i <= n,
                n <= self.length,
                acc@ == a + s.take(i as int),
            decreases n - i,
        {
            let x = self.buf[self.offset + i];
            acc.push(x);
            i = i + 1;
            assert(acc@ =~= a + s.take(i as int));
        }
        self.shift(n);
    }

    /// The character at the front of the input, when enough of it is
    /// buffered to decide it.
    pub fn decode_front(&self) -> (r: (char, usize))
        requires
            self.wf(),
            self.buffered_len() > 0,
            self.buffered_len() >= lead_width(self.stream()[0]) || self.buffered_len()
                == self.stream().len(),
        ensures
            r.0 == char_at_front(self.stream()),
            r.1 == char_len(self.stream()),
            1 <= r.1 <= self.buffered_len(),
    {
        proof {
            self.lemma_buffered_prefix();
            lemma_front_of_prefix(self.stream(), self.length as int);
        }
        decode_char_at(self.buf.as_slice(), self.offset, self.offset + self.length)
    }

    /// The buffered bytes.
    pub fn remains(&self) -> (r: &[u8])
        requires
            self.wf(),
        ensures
            r@ == self.buffered(),
    {
        vstd::slice::slice_subrange(self.buf.as_slice(), self.offset, self.offset + self.length)
    }
}

} // verus!
