//! The extraction searches over bytes that are all in memory, stated over
//! what follows a position.
use vstd::prelude::*;

use crate::classify::{is_whitespace_1, is_whitespace_3};
use crate::text::{
    eol_from, find_from, line_consumed, line_len, token_end_from, token_start, until_len, ws_at,
    ws_run_from,
};

verus! {

/// Length of the line at `pos` and the bytes that reading it consumes.
pub fn line_span(data: &[u8], pos: usize) -> (r: (usize, usize))
    requires
        pos <= data@.len(),
    ensures
        r.0 == line_len(data@.skip(pos as int)),
        r.1 == line_consumed(data@.skip(pos as int)),
        r.0 <= r.1 <= data@.len() - pos,
{
    let ghost s = data@.skip(pos as int);
    let len = data.len();
    let mut k: usize = 0;
    while pos + k < len
        invariant
            pos + k <= len,
            len == data@.len(),
            s == data@.skip(pos as int),
            eol_from(s, 0) == eol_from(s, k as int),
        decreases len - pos - k,
    {
        let e = data[pos + k];
        assert(e == s[k as int]);
        if e == 10 || e == 13 {
            let comp: u8 = if e == 10 {
                13
            } else {
                10
            };
            if pos + k + 1 < len && data[pos + k + 1] == comp {
                assert(s[k + 1] == comp);
                return (k, k + 2);
            }
            return (k, k + 1);
        }
        k = k + 1;
    }
    (k, k)
}

/// Where the run of whitespace at `pos` ends, counted from `pos`.
pub fn ws_span(data: &[u8], pos: usize, wide: bool) -> (r: usize)
    requires
        pos <= data@.len(),
    ensures
        r == token_start(data@.skip(pos as int), wide),
        r <= data@.len() - pos,
{
    let ghost s = data@.skip(pos as int);
    let len = data.len();
    let mut k: usize = 0;
    while pos + k < len
        invariant
            pos + k <= len,
            len == data@.len(),
            s == data@.skip(pos as int),
            ws_run_from(s, 0, wide) == ws_run_from(s, k as int, wide),
        decreases len - pos - k,
    {
        let e = data[pos + k];
        assert(e == s[k as int]);
        if is_whitespace_1(e) {
            k = k + 1;
        } else if wide && 3 <= len - pos - k && is_whitespace_3(
            e,
            data[pos + k + 1],
            data[pos + k + 2],
        ) {
            assert(data[pos + k + 1] == s[k + 1] && data[pos + k + 2] == s[k + 2]);
            k = k + 3;
        } else {
            if wide && 3 <= len - pos - k {
                assert(data[pos + k + 1] == s[k + 1] && data[pos + k + 2] == s[k + 2]);
            }
            assert(ws_at(s, k as int, wide) == 0);
            return k;
        }
    }
    k
}

/// Where the token that starts `from` bytes after `pos` ends, counted from `pos`.
pub fn token_span(data: &[u8], pos: usize, from: usize, wide: bool) -> (r: usize)
    requires
        pos <= data@.len(),
        from <= data@.len() - pos,
    ensures
        r == token_end_from(data@.skip(pos as int), from as int, wide),
        from <= r <= data@.len() - pos,
{
    let ghost s = data@.skip(pos as int);
    let len = data.len();
    let mut k: usize = from;
    while pos + k < len
        invariant
            from <= k,
            pos + k <= len,
            len == data@.len(),
            s == data@.skip(pos as int),
            token_end_from(s, from as int, wide) == token_end_from(s, k as int, wide),
        decreases len - pos - k,
    {
        let e = data[pos + k];
        assert(e == s[k as int]);
        if is_whitespace_1(e) {
            return k;
        }
        if wide && 3 <= len - pos - k {
            assert(data[pos + k + 1] == s[k + 1] && data[pos + k + 2] == s[k + 2]);
            if is_whitespace_3(e, data[pos + k + 1], data[pos + k + 2]) {
                return k;
            }
        }
        assert(ws_at(s, k as int, wide) == 0);
        k = k + 1;
    }
    k
}

/// Whether `b` occurs in `data` at `start`.
fn occurs_at(data: &[u8], start: usize, b: &[u8]) -> (r: bool)
    requires
        start + b@.len() <= data@.len(),
    ensures
        r == (data@.subrange(start as int, start + b@.len()) == b@),
{
    let len = data.len();
    let mut j: usize = 0;
    while j < b.len()
        invariant
            len == data@.len(),
            j <= b@.len(),
            start + b@.len() <= data@.len(),
            forall|i: int| 0 <= i < j ==> data@[start + i] == b@[i],
        decreases b@.len() - j,
    {
        if data[start + j] != b[j] {
            assert(data@.subrange(start as int, start + b@.len())[j as int] != b@[j as int]);
            return false;
        }
        j = j + 1;
    }
    assert(data@.subrange(start as int, start + b@.len()) =~= b@);
    true
}

/// Where the first occurrence of `b` after `pos` starts, counted from `pos`
/// (all that follows `pos` when there is none).
pub fn until_span(data: &[u8], pos: usize, b: &[u8]) -> (r: usize)
    requires
        pos <= data@.len(),
    ensures
        r == until_len(data@.skip(pos as int), b@),
        r <= data@.len() - pos,
{
    let ghost s = data@.skip(pos as int);
    let len = data.len();
    let blen = b.len();
    if blen == 0 {
        return len - pos;
    }
    let mut k: usize = 0;
    while k < len - pos && blen <= len - pos - k
        invariant
            pos <= len,
            len == data@.len(),
            blen == b@.len(),
            blen > 0,
            s == data@.skip(pos as int),
            find_from(s, b@, 0) == find_from(s, b@, k as int),
        decreases len - pos - k,
    {
        let hit = occurs_at(data, pos + k, b);
        assert(data@.subrange(pos + k, pos + k + blen) =~= s.subrange(k as int, k + blen));
        if hit {
            return k;
        }
        k = k + 1;
    }
    len - pos
}

} // verus!
