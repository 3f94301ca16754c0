//! Scalar-level view of the wire format.
//!
//! Record-structure integers (tags, lengths, serial numbers, counts) are
//! big-endian; object identifiers and floating-point bit patterns are
//! little-endian. Each `sread_*` function says exactly what one scalar
//! read yields at a given position of the buffer, or with which error it
//! fails; the cursor's contracts and the record-level decoders are all
//! stated over these functions.

use vstd::prelude::*;

use crate::errors::Error;

verus! {

/// The error produced by any read of `requested` bytes at position `p` of
/// buffer `b` when fewer than `requested` bytes remain.
pub open spec fn oob_err(b: Seq<u8>, p: int, requested: int) -> Error {
    Error::OutOfBounds { requested: requested as usize, remaining: (b.len() - p) as usize }
}

/// The big-endian 16-bit value stored at position `p`.
pub open spec fn be_u16_at(b: Seq<u8>, p: int) -> u16
    recommends
        0 <= p,
        p + 2 <= b.len(),
{
    ((b[p] as u16) << 8) | (b[p + 1] as u16)
}

/// The big-endian 32-bit value stored at position `p`.
pub open spec fn be_u32_at(b: Seq<u8>, p: int) -> u32
    recommends
        0 <= p,
        p + 4 <= b.len(),
{
    ((b[p] as u32) << 24) | ((b[p + 1] as u32) << 16) | ((b[p + 2] as u32) << 8) | (b[p
        + 3] as u32)
}

/// The big-endian 64-bit value stored at position `p`.
pub open spec fn be_u64_at(b: Seq<u8>, p: int) -> u64
    recommends
        0 <= p,
        p + 8 <= b.len(),
{
    ((b[p] as u64) << 56) | ((b[p + 1] as u64) << 48) | ((b[p + 2] as u64) << 40) | ((b[p
        + 3] as u64) << 32) | ((b[p + 4] as u64) << 24) | ((b[p + 5] as u64) << 16) | ((b[p
        + 6] as u64) << 8) | (b[p + 7] as u64)
}

/// The little-endian 32-bit value stored at position `p`.
pub open spec fn le_u32_at(b: Seq<u8>, p: int) -> u32
    recommends
        0 <= p,
        p + 4 <= b.len(),
{
    (b[p] as u32) | ((b[p + 1] as u32) << 8) | ((b[p + 2] as u32) << 16) | ((b[p
        + 3] as u32) << 24)
}

/// The little-endian 64-bit value stored at position `p`.
pub open spec fn le_u64_at(b: Seq<u8>, p: int) -> u64
    recommends
        0 <= p,
        p + 8 <= b.len(),
{
    (b[p] as u64) | ((b[p + 1] as u64) << 8) | ((b[p + 2] as u64) << 16) | ((b[p
        + 3] as u64) << 24) | ((b[p + 4] as u64) << 32) | ((b[p + 5] as u64) << 40) | ((b[p
        + 6] as u64) << 48) | ((b[p + 7] as u64) << 56)
}

/// The object identifier stored at position `p`: `w` bytes little-endian,
/// widened to 64 bits. `w` is the session identifier width, 4 or 8.
pub open spec fn id_at(b: Seq<u8>, p: int, w: int) -> u64
    recommends
        0 <= p,
        p + w <= b.len(),
        w == 4 || w == 8,
{
    if w == 4 {
        le_u32_at(b, p) as u64
    } else {
        le_u64_at(b, p)
    }
}

/// One unsigned byte read: the value and the new position, or the exact
/// out-of-bounds error.
pub open spec fn sread_u8(b: Seq<u8>, p: int) -> Result<(u8, int), Error>
    recommends
        0 <= p <= b.len(),
{
    if p + 1 <= b.len() {
        Ok((b[p], p + 1))
    } else {
        Err(oob_err(b, p, 1))
    }
}

/// One big-endian `u16` read.
pub open spec fn sread_u16(b: Seq<u8>, p: int) -> Result<(u16, int), Error>
    recommends
        0 <= p <= b.len(),
{
    if p + 2 <= b.len() {
        Ok((be_u16_at(b, p), p + 2))
    } else {
        Err(oob_err(b, p, 2))
    }
}

/// One big-endian `u32` read.
pub open spec fn sread_u32(b: Seq<u8>, p: int) -> Result<(u32, int), Error>
    recommends
        0 <= p <= b.len(),
{
    if p + 4 <= b.len() {
        Ok((be_u32_at(b, p), p + 4))
    } else {
        Err(oob_err(b, p, 4))
    }
}

/// One big-endian `u64` read.
pub open spec fn sread_u64(b: Seq<u8>, p: int) -> Result<(u64, int), Error>
    recommends
        0 <= p <= b.len(),
{
    if p + 8 <= b.len() {
        Ok((be_u64_at(b, p), p + 8))
    } else {
        Err(oob_err(b, p, 8))
    }
}

/// One little-endian `u32` read (floating-point bit patterns).
pub open spec fn sread_le_u32(b: Seq<u8>, p: int) -> Result<(u32, int), Error>
    recommends
        0 <= p <= b.len(),
{
    if p + 4 <= b.len() {
        Ok((le_u32_at(b, p), p + 4))
    } else {
        Err(oob_err(b, p, 4))
    }
}

/// One little-endian `u64` read (floating-point bit patterns).
pub open spec fn sread_le_u64(b: Seq<u8>, p: int) -> Result<(u64, int), Error>
    recommends
        0 <= p <= b.len(),
{
    if p + 8 <= b.len() {
        Ok((le_u64_at(b, p), p + 8))
    } else {
        Err(oob_err(b, p, 8))
    }
}

/// One identifier read at session width `w`. A width other than 4 or 8 is
/// a configuration error, reported like any other decode failure.
pub open spec fn sread_id(b: Seq<u8>, p: int, w: int) -> Result<(u64, int), Error>
    recommends
        0 <= p <= b.len(),
{
    if w != 4 && w != 8 {
        Err(Error::MalformedHeader)
    } else if p + w <= b.len() {
        Ok((id_at(b, p, w), p + w))
    } else {
        Err(oob_err(b, p, w))
    }
}

/// Signed byte read: the unsigned read reinterpreted.
pub open spec fn sread_i8(b: Seq<u8>, p: int) -> Result<(i8, int), Error>
    recommends
        0 <= p <= b.len(),
{
    match sread_u8(b, p) {
        Ok((v, q)) => Ok((v as i8, q)),
        Err(e) => Err(e),
    }
}

/// Signed big-endian 16-bit read: the unsigned read reinterpreted.
pub open spec fn sread_i16(b: Seq<u8>, p: int) -> Result<(i16, int), Error>
    recommends
        0 <= p <= b.len(),
{
    match sread_u16(b, p) {
        Ok((v, q)) => Ok((v as i16, q)),
        Err(e) => Err(e),
    }
}

/// Signed big-endian 32-bit read: the unsigned read reinterpreted.
pub open spec fn sread_i32(b: Seq<u8>, p: int) -> Result<(i32, int), Error>
    recommends
        0 <= p <= b.len(),
{
    match sread_u32(b, p) {
        Ok((v, q)) => Ok((v as i32, q)),
        Err(e) => Err(e),
    }
}

/// Signed big-endian 64-bit read: the unsigned read reinterpreted.
pub open spec fn sread_i64(b: Seq<u8>, p: int) -> Result<(i64, int), Error>
    recommends
        0 <= p <= b.len(),
{
    match sread_u64(b, p) {
        Ok((v, q)) => Ok((v as i64, q)),
        Err(e) => Err(e),
    }
}

/// A raw read of `n` bytes: the bytes themselves and the new position.
pub open spec fn sread_bytes(b: Seq<u8>, p: int, n: int) -> Result<(Seq<u8>, int), Error>
    recommends
        0 <= p <= b.len(),
{
    if p + n <= b.len() {
        Ok((b.subrange(p, p + n), p + n))
    } else {
        Err(oob_err(b, p, n))
    }
}

/// Skipping `n` bytes: the new position, or the exact out-of-bounds error.
pub open spec fn sskip(b: Seq<u8>, p: int, n: int) -> Result<int, Error>
    recommends
        0 <= p <= b.len(),
{
    if p + n <= b.len() {
        Ok(p + n)
    } else {
        Err(oob_err(b, p, n))
    }
}

/// `n` consecutive reads of one kind, front to back: the sequence of
/// values and the final position, or the first error. `step` gives the
/// meaning of a single read at a given position.
pub open spec fn sparse_n<A>(
    step: spec_fn(int) -> Result<(A, int), Error>,
    p: int,
    n: int,
) -> Result<(Seq<A>, int), Error>
    decreases n,
{
    if n <= 0 {
        Ok((Seq::empty(), p))
    } else {
        match step(p) {
            Err(e) => Err(e),
            Ok((x, q)) => match sparse_n(step, q, n - 1) {
                Err(e) => Err(e),
                Ok((s, q2)) => Ok((seq![x] + s, q2)),
            },
        }
    }
}

/// Extending a run of `n` successful reads by one more: the combined run
/// either fails where the extra read fails, or appends its value at the
/// back. This is the step a decoding loop takes.
pub proof fn lemma_sparse_n_snoc<A>(
    step: spec_fn(int) -> Result<(A, int), Error>,
    p: int,
    n: int,
    s: Seq<A>,
    q: int,
)
    requires
        n >= 0,
        sparse_n(step, p, n) == Ok::<(Seq<A>, int), Error>((s, q)),
    ensures
        sparse_n(step, p, n + 1) == (match step(q) {
            Err(e) => Err::<(Seq<A>, int), Error>(e),
            Ok((x, q2)) => Ok::<(Seq<A>, int), Error>((s.push(x), q2)),
        }),
    decreases n,
{
    if n == 0 {
        assert(s == Seq::<A>::empty() && q == p);
        match step(p) {
            Err(e) => {},
            Ok((x, q2)) => {
                assert(seq![x] + Seq::<A>::empty() =~= s.push(x));
            },
        }
    } else {
        let (x0, p1) = step(p)->Ok_0;
        let (s1, q1) = sparse_n(step, p1, n - 1)->Ok_0;
        lemma_sparse_n_snoc(step, p1, n - 1, s1, q1);
        match step(q) {
            Err(e) => {},
            Ok((x, q2)) => {
                assert(seq![x0] + s1.push(x) =~= (seq![x0] + s1).push(x));
            },
        }
    }
}

/// A run of `n` reads fails with the error of its first failing read: if
/// the first `i` reads succeed and the next one fails, the whole run
/// fails the same way.
pub proof fn lemma_sparse_n_err<A>(
    step: spec_fn(int) -> Result<(A, int), Error>,
    p: int,
    i: int,
    n: int,
    s: Seq<A>,
    q: int,
    e: Error,
)
    requires
        0 <= i < n,
        sparse_n(step, p, i) == Ok::<(Seq<A>, int), Error>((s, q)),
        step(q) == Err::<(A, int), Error>(e),
    ensures
        sparse_n(step, p, n) == Err::<(Seq<A>, int), Error>(e),
    decreases i,
{
    if i == 0 {
        assert(q == p);
    } else {
        let (x0, p1) = step(p)->Ok_0;
        let (s1, q1) = sparse_n(step, p1, i - 1)->Ok_0;
        lemma_sparse_n_err(step, p1, i - 1, n - 1, s1, q1, e);
    }
}

/// A UTF-8 text read of `n` bytes: the decoded characters and the new
/// position; `InvalidUtf8` when the bytes are not valid UTF-8.
pub open spec fn sread_utf8(b: Seq<u8>, p: int, n: int) -> Result<(Seq<char>, int), Error>
    recommends
        0 <= p <= b.len(),
{
    match sread_bytes(b, p, n) {
        Ok((bs, q)) => if vstd::utf8::valid_utf8(bs) {
            Ok((vstd::utf8::decode_utf8(bs), q))
        } else {
            Err(Error::InvalidUtf8)
        },
        Err(e) => Err(e),
    }
}

} // verus!
