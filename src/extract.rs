//! The extraction loops over a buffered byte stream, shared by the scanners.
use vstd::prelude::*;

use crate::buffer::ByteBuffer;
use crate::classify::{is_whitespace_1, is_whitespace_3, utf8_char_width};
use crate::source::ByteSource;
use crate::text::{
    ends_with, lemma_skip_suffix, suffix_of, eol_from, is_eol, lemma_find_at, lemma_find_none, line_consumed, line_len, matches_at,
    token_end_from, token_start, until_consumed, until_len, ws_at, ws_run_from,
};

verus! {

/// What follows once a pending terminator byte `p` has been dropped, if it
/// comes first.
pub open spec fn absorb(p: Option<u8>, s: Seq<u8>) -> Seq<u8> {
    match p {
        Some(x) => if s.len() > 0 && s[0] == x {
            s.skip(1)
        } else {
            s
        },
        None => s,
    }
}

pub proof fn lemma_ws_at_skip(s: Seq<u8>, k: int, i: int, wide: bool)
    requires
        0 <= k <= s.len(),
        0 <= i,
    ensures
        ws_at(s.skip(k), i, wide) == ws_at(s, k + i, wide),
{
    let t = s.skip(k);
    if i < t.len() {
        assert(t[i] == s[k + i]);
    }
    if i + 3 <= t.len() {
        assert(t[i + 1] == s[k + i + 1]);
        assert(t[i + 2] == s[k + i + 2]);
    }
}

pub proof fn lemma_ws_run_bounds(s: Seq<u8>, i: int, wide: bool)
    requires
        0 <= i <= s.len(),
    ensures
        i <= ws_run_from(s, i, wide) <= s.len(),
        ws_run_from(s, i, wide) == s.len() ==> token_end_from(s, s.len() as int, wide) == s.len(),
    decreases s.len() - i,
{
    if ws_at(s, i, wide) > 0 {
        lemma_ws_run_bounds(s, i + ws_at(s, i, wide), wide);
    }
}

pub proof fn lemma_eol_bounds(s: Seq<u8>, i: int)
    requires
        0 <= i <= s.len(),
    ensures
        i <= eol_from(s, i) <= s.len(),
    decreases s.len() - i,
{
    if i < s.len() && !is_eol(s[i]) {
        lemma_eol_bounds(s, i + 1);
    }
}

pub proof fn lemma_token_end_bounds(s: Seq<u8>, i: int, wide: bool)
    requires
        0 <= i <= s.len(),
    ensures
        i <= token_end_from(s, i, wide) <= s.len(),
    decreases s.len() - i,
{
    if i < s.len() && ws_at(s, i, wide) == 0 {
        lemma_token_end_bounds(s, i + 1, wide);
    }
}

pub proof fn lemma_token_end_skip(s: Seq<u8>, k: int, i: int, wide: bool)
    requires
        0 <= k <= s.len(),
        0 <= i,
    ensures
        token_end_from(s.skip(k), i, wide) + k == token_end_from(s, k + i, wide),
    decreases s.len() - k - i,
{
    lemma_ws_at_skip(s, k, i, wide);
    if k + i < s.len() && ws_at(s, k + i, wide) == 0 {
        lemma_token_end_skip(s, k, i + 1, wide);
    }
}

/// Reads the rest of a line, its bytes appended to `acc` when `keep`, and
/// consumes the terminator. When `defer` and the terminator's first byte is
/// the last one buffered, no further read is made: the byte that would
/// complete it comes back instead, to be dropped if it is what follows.
pub fn line_body<R: ByteSource>(b: &mut ByteBuffer<R>, acc: &mut Vec<u8>, keep: bool, defer: bool) -> (r:
    Result<(usize, Option<u8>), std::io::Error>)
    requires
        old(b).wf(),
        keep || old(b).stream().len() <= usize::MAX,
    ensures
        final(b).wf(),
        final(b).capacity() == old(b).capacity(),
        !keep ==> final(acc)@ == old(acc)@,
        r matches Ok((n, p)) ==> {
            &&& n == line_len(old(b).stream())
            &&& keep ==> final(acc)@ == old(acc)@ + old(b).stream().take(n as int)
            &&& absorb(p, final(b).stream()) == old(b).stream().skip(
                line_consumed(old(b).stream()),
            )
            &&& (p is Some ==> defer && final(b).buffered_len() == 0)
        },
        old(b).fails_never() ==> r is Ok,
        old(b).fails_never() ==> final(b).fails_never(),
        r is Err ==> suffix_of(final(b).stream(), old(b).stream()),
{
    let ghost s = b.stream();
    let ghost a0 = acc@;
    let mut n: usize = 0;
    loop
        invariant
            b.wf(),
            b.capacity() == old(b).capacity(),
            old(b).fails_never() ==> b.fails_never(),
            n <= s.len(),
            s == old(b).stream(),
            a0 == old(acc)@,
            b.stream() == s.skip(n as int),
            eol_from(s, 0) == eol_from(s, n as int),
            keep ==> acc@ == a0 + s.take(n as int),
            !keep ==> acc@ == a0,
            keep || s.len() <= usize::MAX,
        decreases s.len() - n,
    {
        let filled = match b.fill() {
            Ok(f) => f,
            Err(e) => {
                proof {
                    lemma_skip_suffix(s, n as int);
                }
                return Err(e);
            },
        };
        if !filled {
            assert(s.skip(n as int).len() == 0);
            assert(b.stream() =~= s.skip(line_consumed(s)));
            return Ok((n, None));
        }
        proof {
            b.lemma_buffered_prefix();
        }
        let x = b.byte(0);
        assert(x == s[n as int]);
        if x == 10 || x == 13 {
            assert(eol_from(s, n as int) == n);
            let comp: u8 = if x == 10 {
                13
            } else {
                10
            };
            if defer && b.len() == 1 {
                b.shift(1);
                assert(b.stream() =~= s.skip(n + 1));
                assert(absorb(Some(comp), b.stream()) =~= s.skip(line_consumed(s)));
                return Ok((n, Some(comp)));
            }
            let more = match b.ensure(2) {
                Ok(m) => m,
                Err(e) => {
                proof {
                    lemma_skip_suffix(s, n as int);
                }
                return Err(e);
            },
            };
            proof {
                b.lemma_buffered_prefix();
            }
            if more && b.byte(1) == comp {
                assert(s[n + 1] == comp);
                b.shift(2);
                assert(b.stream() =~= s.skip(line_consumed(s)));
            } else {
                if more {
                    assert(s[n + 1] != comp);
                }
                b.shift(1);
                assert(b.stream() =~= s.skip(line_consumed(s)));
            }
            return Ok((n, None));
        }
        if keep {
            acc.push(x);
            let total = acc.len();
            assert(total == a0.len() + n + 1);
        }
        b.shift(1);
        n = n + 1;
        assert(b.stream() =~= s.skip(n as int));
        if keep {
            assert(acc@ =~= a0 + s.take(n as int));
        }
    }
}

/// Consumes the run of whitespace characters at the front of the input.
pub fn skip_ws<R: ByteSource>(b: &mut ByteBuffer<R>, wide: bool) -> (r: Result<(), std::io::Error>)
    requires
        old(b).wf(),
    ensures
        final(b).wf(),
        final(b).capacity() == old(b).capacity(),
        r is Ok ==> final(b).stream() == old(b).stream().skip(
            token_start(old(b).stream(), wide),
        ),
        old(b).fails_never() ==> r is Ok,
        old(b).fails_never() ==> final(b).fails_never(),
        r is Err ==> suffix_of(final(b).stream(), old(b).stream()),
{
    let ghost s = b.stream();
    let ghost mut i: int = 0;
    loop
        invariant
            b.wf(),
            b.capacity() == old(b).capacity(),
            old(b).fails_never() ==> b.fails_never(),
            s == old(b).stream(),
            0 <= i <= s.len(),
            b.stream() == s.skip(i),
            ws_run_from(s, 0, wide) == ws_run_from(s, i, wide),
        decreases s.len() - i,
    {
        let filled = match b.fill() {
            Ok(f) => f,
            Err(e) => {
                proof {
                    lemma_skip_suffix(s, i);
                }
                return Err(e);
            },
        };
        if !filled {
            assert(s.skip(i).len() == 0);
            return Ok(());
        }
        proof {
            b.lemma_buffered_prefix();
        }
        let x = b.byte(0);
        assert(x == s[i]);
        if is_whitespace_1(x) {
            b.shift(1);
            proof {
                i = i + 1;
            }
            assert(b.stream() =~= s.skip(i));
            continue ;
        }
        if wide && utf8_char_width(x) == 3 {
            let more = match b.ensure(3) {
                Ok(m) => m,
                Err(e) => {
                proof {
                    lemma_skip_suffix(s, i);
                }
                return Err(e);
            },
            };
            proof {
                b.lemma_buffered_prefix();
            }
            if more {
                let y = b.byte(1);
                let z = b.byte(2);
                assert(y == s[i + 1] && z == s[i + 2]);
                if is_whitespace_3(x, y, z) {
                    b.shift(3);
                    proof {
                        i = i + 3;
                    }
                    assert(b.stream() =~= s.skip(i));
                    continue ;
                }
            }
        }
        assert(ws_at(s, i, wide) == 0);
        return Ok(());
    }
}

/// Reads a token from the front of the input, up to the first whitespace
/// character; its bytes go to `acc` when `keep`.
pub fn token_body<R: ByteSource>(b: &mut ByteBuffer<R>, acc: &mut Vec<u8>, keep: bool, wide: bool) -> (r:
    Result<usize, std::io::Error>)
    requires
        old(b).wf(),
        keep || old(b).stream().len() <= usize::MAX,
    ensures
        final(b).wf(),
        final(b).capacity() == old(b).capacity(),
        !keep ==> final(acc)@ == old(acc)@,
        r matches Ok(n) ==> {
            &&& n == token_end_from(old(b).stream(), 0, wide)
            &&& keep ==> final(acc)@ == old(acc)@ + old(b).stream().take(n as int)
            &&& final(b).stream() == old(b).stream().skip(n as int)
        },
        old(b).fails_never() ==> r is Ok,
        old(b).fails_never() ==> final(b).fails_never(),
        r is Err ==> suffix_of(final(b).stream(), old(b).stream()),
{
    let ghost s = b.stream();
    let ghost a0 = acc@;
    let mut n: usize = 0;
    loop
        invariant
            b.wf(),
            b.capacity() == old(b).capacity(),
            old(b).fails_never() ==> b.fails_never(),
            n <= s.len(),
            s == old(b).stream(),
            a0 == old(acc)@,
            b.stream() == s.skip(n as int),
            token_end_from(s, 0, wide) == token_end_from(s, n as int, wide),
            keep ==> acc@ == a0 + s.take(n as int),
            !keep ==> acc@ == a0,
            keep || s.len() <= usize::MAX,
        decreases s.len() - n,
    {
        let filled = match b.fill() {
            Ok(f) => f,
            Err(e) => {
                proof {
                    lemma_skip_suffix(s, n as int);
                }
                return Err(e);
            },
        };
        if !filled {
            assert(s.skip(n as int).len() == 0);
            return Ok(n);
        }
        proof {
            b.lemma_buffered_prefix();
        }
        let x = b.byte(0);
        assert(x == s[n as int]);
        if is_whitespace_1(x) {
            return Ok(n);
        }
        if wide && utf8_char_width(x) == 3 {
            let more = match b.ensure(3) {
                Ok(m) => m,
                Err(e) => {
                proof {
                    lemma_skip_suffix(s, n as int);
                }
                return Err(e);
            },
            };
            proof {
                b.lemma_buffered_prefix();
            }
            if more {
                let y = b.byte(1);
                let z = b.byte(2);
                assert(y == s[n + 1] && z == s[n + 2]);
                if is_whitespace_3(x, y, z) {
                    return Ok(n);
                }
            }
        }
        assert(ws_at(s, n as int, wide) == 0);
        if keep {
            acc.push(x);
            let total = acc.len();
            assert(total == a0.len() + n + 1);
        }
        b.shift(1);
        n = n + 1;
        assert(b.stream() =~= s.skip(n as int));
        if keep {
            assert(acc@ =~= a0 + s.take(n as int));
        }
    }
}

/// Reads up to `max` bytes, appended to `acc` when `keep`.
pub fn bytes_body<R: ByteSource>(b: &mut ByteBuffer<R>, acc: &mut Vec<u8>, keep: bool, max: usize) -> (r:
    Result<usize, std::io::Error>)
    requires
        old(b).wf(),
    ensures
        final(b).wf(),
        final(b).capacity() == old(b).capacity(),
        !keep ==> final(acc)@ == old(acc)@,
        r matches Ok(n) ==> {
            &&& n as int == if max < old(b).stream().len() {
                max as int
            } else {
                old(b).stream().len() as int
            }
            &&& keep ==> final(acc)@ == old(acc)@ + old(b).stream().take(n as int)
            &&& final(b).stream() == old(b).stream().skip(n as int)
        },
        old(b).fails_never() ==> r is Ok,
        old(b).fails_never() ==> final(b).fails_never(),
        r is Err ==> suffix_of(final(b).stream(), old(b).stream()),
{
    let ghost s = b.stream();
    let ghost a0 = acc@;
    let mut c: usize = 0;
    while c < max
        invariant
            b.wf(),
            b.capacity() == old(b).capacity(),
            old(b).fails_never() ==> b.fails_never(),
            c <= max,
            c <= s.len(),
            s == old(b).stream(),
            a0 == old(acc)@,
            b.stream() == s.skip(c as int),
            keep ==> acc@ == a0 + s.take(c as int),
            !keep ==> acc@ == a0,
        decreases max - c,
    {
        let filled = match b.fill() {
            Ok(f) => f,
            Err(e) => {
                proof {
                    lemma_skip_suffix(s, c as int);
                }
                return Err(e);
            },
        };
        if !filled {
            assert(s.skip(c as int).len() == 0);
            return Ok(c);
        }
        proof {
            b.lemma_buffered_prefix();
        }
        let avail = b.len();
        let k = if avail < max - c {
            avail
        } else {
            max - c
        };
        let ghost before = acc@;
        if keep {
            b.take_into(acc, k);
            assert(acc@ =~= a0 + s.take(c + k));
        } else {
            b.shift(k);
        }
        c = c + k;
        assert(b.stream() =~= s.skip(c as int));
    }
    Ok(c)
}

/// Reads up to the first occurrence of `boundary` and consumes it too; the
/// bytes before it come back. Without an occurrence (an empty `boundary` has
/// none), all of the input does.
pub fn until_body<R: ByteSource>(b: &mut ByteBuffer<R>, boundary: &[u8]) -> (r: Result<
    Vec<u8>,
    std::io::Error,
>)
    requires
        old(b).wf(),
    ensures
        final(b).wf(),
        final(b).capacity() == old(b).capacity(),
        r matches Ok(v) ==> {
            &&& v@ == old(b).stream().take(until_len(old(b).stream(), boundary@))
            &&& final(b).stream() == old(b).stream().skip(
                until_consumed(old(b).stream(), boundary@),
            )
        },
        old(b).fails_never() ==> r is Ok,
        old(b).fails_never() ==> final(b).fails_never(),
        r is Err ==> suffix_of(final(b).stream(), old(b).stream()),
{
    let ghost s = b.stream();
    let ghost bd = boundary@;
    let mut got: Vec<u8> = Vec::new();
    loop
        invariant
            b.wf(),
            b.capacity() == old(b).capacity(),
            old(b).fails_never() ==> b.fails_never(),
            s == old(b).stream(),
            bd == boundary@,
            got.len() <= s.len(),
            got@ == s.take(got.len() as int),
            b.stream() == s.skip(got.len() as int),
            bd.len() > 0 ==> forall|j: int|
                0 <= j && j + bd.len() <= got.len() ==> !matches_at(s, bd, j),
        decreases s.len() - got.len(),
    {
        let filled = match b.fill() {
            Ok(f) => f,
            Err(e) => {
                proof {
                    lemma_skip_suffix(s, got.len() as int);
                }
                return Err(e);
            },
        };
        if !filled {
            assert(s.skip(got.len() as int).len() == 0);
            proof {
                if bd.len() > 0 {
                    lemma_find_none(s, bd);
                }
            }
            assert(got@ =~= s.take(until_len(s, bd)));
            return Ok(got);
        }
        proof {
            b.lemma_buffered_prefix();
        }
        let x = b.byte(0);
        assert(x == s[got.len() as int]);
        got.push(x);
        b.shift(1);
        assert(got@ =~= s.take(got.len() as int));
        assert(b.stream() =~= s.skip(got.len() as int));
        let hit = boundary.len() > 0 && ends_with(&got, boundary);
        let ghost j = got.len() - bd.len();
        if hit {
            assert(s.subrange(j, j + bd.len()) =~= got@.subrange(j, got.len() as int));
            assert(matches_at(s, bd, j));
            proof {
                lemma_find_at(s, bd, j);
            }
            let keep_len = got.len() - boundary.len();
            got.truncate(keep_len);
            assert(got@ =~= s.take(until_len(s, bd)));
            return Ok(got);
        }
        proof {
            if j >= 0 && bd.len() > 0 {
                assert(s.subrange(j, j + bd.len()) =~= got@.subrange(j, got.len() as int));
            }
        }
    }
}

} // verus!
