//! Where a scanner's bytes come from.
use vstd::prelude::*;
use vstd::slice::slice_subrange;

verus! {

#[verifier::external_type_specification]
#[verifier::external_body]
pub struct ExIoError(std::io::Error);

/// A pull-based producer of bytes: each read hands over some of the bytes it
/// has still to give, in order, and a read of nothing into a non-empty space
/// means that none are left.
pub trait ByteSource {
    /// The bytes this source will still deliver, in order.
    spec fn pending(&self) -> Seq<u8>;

    /// Whether no read of this source can fail.
    spec fn fails_never(&self) -> bool;

    /// Moves the next bytes of the source into `buf[start..]` and says how many.
    /// A failed read consumes nothing.
    fn read_into(&mut self, buf: &mut Vec<u8>, start: usize) -> (r: Result<usize, std::io::Error>)
        requires
            start <= old(buf).len(),
        ensures
            final(buf).len() == old(buf).len(),
            forall|j: int| 0 <= j < start ==> final(buf)@[j] == old(buf)@[j],
            r matches Ok(n) ==> {
                &&& n <= old(buf).len() - start
                &&& n <= old(self).pending().len()
                &&& final(buf)@.subrange(start as int, start + n) == old(self).pending().take(
                    n as int,
                )
                &&& final(self).pending() == old(self).pending().skip(n as int)
                &&& (n == 0 && start < old(buf).len() ==> old(self).pending().len() == 0)
            },
            r is Err ==> final(self).pending() == old(self).pending(),
            old(self).fails_never() ==> r is Ok && final(self).fails_never(),
    ;
}

impl<'a> ByteSource for &'a [u8] {
    open spec fn pending(&self) -> Seq<u8> {
        (*self)@
    }

    open spec fn fails_never(&self) -> bool {
        true
    }

    fn read_into(&mut self, buf: &mut Vec<u8>, start: usize) -> (r: Result<usize, std::io::Error>) {
        let avail = self.len();
        let room = buf.len() - start;
        let n = if avail < room {
            avail
        } else {
            room
        };
        let ghost b0 = buf@;
        let ghost p = (*self)@;
        let mut i: usize = 0;
        while i < n
            invariant
                i <= n,
                n <= avail,
                n <= room,
                avail == self@.len(),
                room == b0.len() - start,
                (*self)@ == p,
                buf.len() == b0.len(),
                forall|j: int| 0 <= j < start ==> buf@[j] == b0[j],
                buf@.subrange(start as int, start + i) == p.take(i as int),
            decreases n - i,
        {
            let x = self[i];
            buf.set(start + i, x);
            i = i + 1;
            assert(buf@.subrange(start as int, start + i) =~= p.take(i as int));
        }
        *self = slice_subrange(*self, n, avail);
        assert((*self)@ =~= p.skip(n as int));
        Ok(n)
    }
}

/// Bytes held in memory and handed out from a position onwards.
pub struct OwnedBytes {
    data: Vec<u8>,
    position: usize,
}

impl OwnedBytes {
    pub closed spec fn wf(&self) -> bool {
        self.position <= self.data.len()
    }

    pub fn new(data: Vec<u8>) -> (r: OwnedBytes)
        ensures
            r.pending() == data@,
    {
        let r = OwnedBytes { data, position: 0 };
        assert(r.pending() =~= data@);
        r
    }
}

impl ByteSource for OwnedBytes {
    /// The bytes after the position (none when it lies past the end).
    closed spec fn pending(&self) -> Seq<u8> {
        if self.position <= self.data.len() {
            self.data@.skip(self.position as int)
        } else {
            Seq::empty()
        }
    }

    open spec fn fails_never(&self) -> bool {
        true
    }

    fn read_into(&mut self, buf: &mut Vec<u8>, start: usize) -> (r: Result<usize, std::io::Error>) {
        let ghost p = self.pending();
        let ghost b0 = buf@;
        if self.position > self.data.len() {
            return Ok(0);
        }
        let avail = self.data.len() - self.position;
        let room = buf.len() - start;
        let n = if avail < room {
            avail
        } else {
            room
        };
        let mut i: usize = 0;
        while i < n
            invariant
                i <= n,
                n <= avail,
                n <= room,
                self.position <= self.data.len(),
                avail == self.data.len() - self.position,
                room == b0.len() - start,
                p == self.data@.skip(self.position as int),
                buf.len() == b0.len(),
                forall|j: int| 0 <= j < start ==> buf@[j] == b0[j],
                buf@.subrange(start as int, start + i) == p.take(i as int),
            decreases n - i,
        {
            let x = self.data[self.position + i];
            buf.set(start + i, x);
            i = i + 1;
            assert(buf@.subrange(start as int, start + i) =~= p.take(i as int));
        }
        self.position = self.position + n;
        assert(self.pending() =~= p.skip(n as int));
        Ok(n)
    }
}

} // verus!
