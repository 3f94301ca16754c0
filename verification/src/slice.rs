//! The bounds-checked cursor: an owned byte buffer, the session identifier
//! width, and a single read position that only ever moves forward.
//!
//! Every read first checks that enough bytes remain; a failing read returns
//! the exact `OutOfBounds` error and leaves the position unchanged. A
//! successful read advances the position by exactly the consumed width.

use vstd::prelude::*;

use crate::errors::Error;
use crate::wire::{
    sread_bytes, sread_i16, sread_i32, sread_i64, sread_i8, sread_id, sread_le_u32, sread_le_u64,
    sread_u16, sread_u32, sread_u64, sread_u8, sread_utf8, sskip,
};

verus! {

/// Bounds-checked reader over an immutable byte buffer with one mutable
/// read position.
#[derive(Debug)]
pub struct Slice {
    buf: Vec<u8>,
    id_size: u32,
    n: usize,
}

impl Slice {
    /// The underlying buffer.
    pub closed spec fn bytes(&self) -> Seq<u8> {
        self.buf@
    }

    /// The current read position.
    pub closed spec fn pos(&self) -> int {
        self.n as int
    }

    /// The session identifier width.
    pub closed spec fn idw(&self) -> int {
        self.id_size as int
    }

    /// The read position never passes the end of the buffer.
    pub open spec fn wf(&self) -> bool {
        0 <= self.pos() <= self.bytes().len() && self.bytes().len() <= usize::MAX
    }

    /// How many bytes are left to read.
    pub open spec fn remaining(&self) -> int {
        self.bytes().len() - self.pos()
    }

    /// A cursor over `buf` with identifier width `size`, positioned at the
    /// start.
    pub fn new(buf: Vec<u8>, size: u32) -> (s: Self)
        ensures
            s.bytes() == buf@,
            s.idw() == size as int,
            s.pos() == 0,
            s.wf(),
    {
        // the length call pins the buffer length inside the usize range,
        // which well-formedness records
        let _m = buf.len();
        Self { buf, id_size: size, n: 0 }
    }

    /// Succeeds exactly when `need` bytes remain; otherwise reports the
    /// exact shortfall.
    pub fn check(&self, need: usize) -> (r: Result<(), Error>)
        requires
            self.wf(),
        ensures
            match r {
                Ok(()) => need <= self.remaining(),
                Err(e) => self.remaining() < need && e == crate::wire::oob_err(
                    self.bytes(),
                    self.pos(),
                    need as int,
                ),
            },
    {
        let remain = self.remain();
        if remain < need {
            return Err(Error::OutOfBounds { requested: need, remaining: remain });
        }
        Ok(())
    }

    /// The number of bytes left to read.
    pub fn remain(&self) -> (r: usize)
        requires
            self.wf(),
        ensures
            r == self.remaining(),
    {
        self.buf.len() - self.n
    }

    /// The session identifier width in bytes.
    pub fn id_size(&self) -> (r: usize)
        ensures
            r == self.idw(),
    {
        self.id_size as usize
    }

    /// One unsigned byte.
    pub fn read_u8(&mut self) -> (r: Result<u8, Error>)
        requires
            old(self).wf(),
        ensures
            final(self).wf(),
            final(self).bytes() == old(self).bytes(),
            final(self).idw() == old(self).idw(),
            match sread_u8(old(self).bytes(), old(self).pos()) {
                Ok((v, q)) => r == Ok::<u8, Error>(v) && final(self).pos() == q,
                Err(e) => r == Err::<u8, Error>(e) && final(self).pos() == old(self).pos(),
            },
    {
        self.check(1)?;
        let b = self.buf[self.n];
        self.n = self.n + 1;
        Ok(b)
    }

    /// One big-endian `u16`.
    pub fn read_u16(&mut self) -> (r: Result<u16, Error>)
        requires
            old(self).wf(),
        ensures
            final(self).wf(),
            final(self).bytes() == old(self).bytes(),
            final(self).idw() == old(self).idw(),
            match sread_u16(old(self).bytes(), old(self).pos()) {
                Ok((v, q)) => r == Ok::<u16, Error>(v) && final(self).pos() == q,
                Err(e) => r == Err::<u16, Error>(e) && final(self).pos() == old(self).pos(),
            },
    {
        self.check(2)?;
        let b0 = self.buf[self.n];
        let b1 = self.buf[self.n + 1];
        self.n = self.n + 2;
        Ok(((b0 as u16) << 8) | (b1 as u16))
    }

    /// One big-endian `u32`.
    pub fn read_u32(&mut self) -> (r: Result<u32, Error>)
        requires
            old(self).wf(),
        ensures
            final(self).wf(),
            final(self).bytes() == old(self).bytes(),
            final(self).idw() == old(self).idw(),
            match sread_u32(old(self).bytes(), old(self).pos()) {
                Ok((v, q)) => r == Ok::<u32, Error>(v) && final(self).pos() == q,
                Err(e) => r == Err::<u32, Error>(e) && final(self).pos() == old(self).pos(),
            },
    {
        self.check(4)?;
        let b0 = self.buf[self.n];
        let b1 = self.buf[self.n + 1];
        let b2 = self.buf[self.n + 2];
        let b3 = self.buf[self.n + 3];
        self.n = self.n + 4;
        Ok(((b0 as u32) << 24) | ((b1 as u32) << 16) | ((b2 as u32) << 8) | (b3 as u32))
    }

    /// One big-endian `u64`.
    pub fn read_u64(&mut self) -> (r: Result<u64, Error>)
        requires
            old(self).wf(),
        ensures
            final(self).wf(),
            final(self).bytes() == old(self).bytes(),
            final(self).idw() == old(self).idw(),
            match sread_u64(old(self).bytes(), old(self).pos()) {
                Ok((v, q)) => r == Ok::<u64, Error>(v) && final(self).pos() == q,
                Err(e) => r == Err::<u64, Error>(e) && final(self).pos() == old(self).pos(),
            },
    {
        self.check(8)?;
        let b0 = self.buf[self.n];
        let b1 = self.buf[self.n + 1];
        let b2 = self.buf[self.n + 2];
        let b3 = self.buf[self.n + 3];
        let b4 = self.buf[self.n + 4];
        let b5 = self.buf[self.n + 5];
        let b6 = self.buf[self.n + 6];
        let b7 = self.buf[self.n + 7];
        self.n = self.n + 8;
        Ok(
            ((b0 as u64) << 56) | ((b1 as u64) << 48) | ((b2 as u64) << 40) | ((b3 as u64) << 32)
                | ((b4 as u64) << 24) | ((b5 as u64) << 16) | ((b6 as u64) << 8) | (b7 as u64),
        )
    }

    /// One object identifier: `id_size` bytes little-endian, widened to 64
    /// bits. An identifier width other than 4 or 8 is a configuration
    /// error, not a panic.
    pub fn read_id(&mut self) -> (r: Result<u64, Error>)
        requires
            old(self).wf(),
        ensures
            final(self).wf(),
            final(self).bytes() == old(self).bytes(),
            final(self).idw() == old(self).idw(),
            match sread_id(old(self).bytes(), old(self).pos(), old(self).idw()) {
                Ok((v, q)) => r == Ok::<u64, Error>(v) && final(self).pos() == q,
                Err(e) => r == Err::<u64, Error>(e) && final(self).pos() == old(self).pos(),
            },
    {
        if self.id_size == 4 {
            self.check(4)?;
            let b0 = self.buf[self.n];
            let b1 = self.buf[self.n + 1];
            let b2 = self.buf[self.n + 2];
            let b3 = self.buf[self.n + 3];
            self.n = self.n + 4;
            let v: u32 = (b0 as u32) | ((b1 as u32) << 8) | ((b2 as u32) << 16) | ((b3
                as u32) << 24);
            Ok(v as u64)
        } else if self.id_size == 8 {
            self.check(8)?;
            let b0 = self.buf[self.n];
            let b1 = self.buf[self.n + 1];
            let b2 = self.buf[self.n + 2];
            let b3 = self.buf[self.n + 3];
            let b4 = self.buf[self.n + 4];
            let b5 = self.buf[self.n + 5];
            let b6 = self.buf[self.n + 6];
            let b7 = self.buf[self.n + 7];
            self.n = self.n + 8;
            Ok(
                (b0 as u64) | ((b1 as u64) << 8) | ((b2 as u64) << 16) | ((b3 as u64) << 24) | ((b4
                    as u64) << 32) | ((b5 as u64) << 40) | ((b6 as u64) << 48) | ((b7
                    as u64) << 56),
            )
        } else {
            Err(Error::MalformedHeader)
        }
    }

    /// `size` raw bytes, copied out of the buffer.
    pub fn read_u8_array(&mut self, size: usize) -> (r: Result<Vec<u8>, Error>)
        requires
            old(self).wf(),
        ensures
            final(self).wf(),
            final(self).bytes() == old(self).bytes(),
            final(self).idw() == old(self).idw(),
            match sread_bytes(old(self).bytes(), old(self).pos(), size as int) {
                Ok((bs, q)) => r matches Ok(v) && v@ == bs && final(self).pos() == q,
                Err(e) => r == Err::<Vec<u8>, Error>(e) && final(self).pos() == old(self).pos(),
            },
    {
        self.check(size)?;
        let sub = vstd::slice::slice_subrange(self.buf.as_slice(), self.n, self.n + size);
        let arr = vstd::slice::slice_to_vec(sub);
        self.n = self.n + size;
        Ok(arr)
    }

    /// `size` bytes decoded as UTF-8 text. Invalid UTF-8 is its own error
    /// kind, never silently replaced.
    pub fn read_utf8(&mut self, size: usize) -> (r: Result<String, Error>)
        requires
            old(self).wf(),
        ensures
            final(self).wf(),
            final(self).bytes() == old(self).bytes(),
            final(self).idw() == old(self).idw(),
            match sread_utf8(old(self).bytes(), old(self).pos(), size as int) {
                Ok((cs, q)) => r matches Ok(s) && s@ == cs && final(self).pos() == q,
                Err(e) => r == Err::<String, Error>(e) && final(self).pos() == if e
                    matches Error::OutOfBounds { .. } {
                    old(self).pos()
                } else {
                    old(self).pos() + size
                },
            },
    {
        let arr = self.read_u8_array(size)?;
        match utf8_to_string(arr.as_slice()) {
            Some(s) => Ok(s),
            None => Err(Error::InvalidUtf8),
        }
    }

    /// Advances the position by `size` without interpreting the bytes.
    pub fn skip(&mut self, size: usize) -> (r: Result<(), Error>)
        requires
            old(self).wf(),
        ensures
            final(self).wf(),
            final(self).bytes() == old(self).bytes(),
            final(self).idw() == old(self).idw(),
            match sskip(old(self).bytes(), old(self).pos(), size as int) {
                Ok(q) => r == Ok::<(), Error>(()) && final(self).pos() == q,
                Err(e) => r == Err::<(), Error>(e) && final(self).pos() == old(self).pos(),
            },
    {
        self.check(size)?;
        self.n = self.n + size;
        Ok(())
    }

    /// The bit pattern of a little-endian 32-bit floating-point field.
    pub fn read_f32_bits(&mut self) -> (r: Result<u32, Error>)
        requires
            old(self).wf(),
        ensures
            final(self).wf(),
            final(self).bytes() == old(self).bytes(),
            final(self).idw() == old(self).idw(),
            match sread_le_u32(old(self).bytes(), old(self).pos()) {
                Ok((v, q)) => r == Ok::<u32, Error>(v) && final(self).pos() == q,
                Err(e) => r == Err::<u32, Error>(e) && final(self).pos() == old(self).pos(),
            },
    {
        self.check(4)?;
        let b0 = self.buf[self.n];
        let b1 = self.buf[self.n + 1];
        let b2 = self.buf[self.n + 2];
        let b3 = self.buf[self.n + 3];
        self.n = self.n + 4;
        Ok((b0 as u32) | ((b1 as u32) << 8) | ((b2 as u32) << 16) | ((b3 as u32) << 24))
    }

    /// The bit pattern of a little-endian 64-bit floating-point field.
    pub fn read_f64_bits(&mut self) -> (r: Result<u64, Error>)
        requires
            old(self).wf(),
        ensures
            final(self).wf(),
            final(self).bytes() == old(self).bytes(),
            final(self).idw() == old(self).idw(),
            match sread_le_u64(old(self).bytes(), old(self).pos()) {
                Ok((v, q)) => r == Ok::<u64, Error>(v) && final(self).pos() == q,
                Err(e) => r == Err::<u64, Error>(e) && final(self).pos() == old(self).pos(),
            },
    {
        self.check(8)?;
        let b0 = self.buf[self.n];
        let b1 = self.buf[self.n + 1];
        let b2 = self.buf[self.n + 2];
        let b3 = self.buf[self.n + 3];
        let b4 = self.buf[self.n + 4];
        let b5 = self.buf[self.n + 5];
        let b6 = self.buf[self.n + 6];
        let b7 = self.buf[self.n + 7];
        self.n = self.n + 8;
        Ok(
            (b0 as u64) | ((b1 as u64) << 8) | ((b2 as u64) << 16) | ((b3 as u64) << 24) | ((b4
                as u64) << 32) | ((b5 as u64) << 40) | ((b6 as u64) << 48) | ((b7 as u64) << 56),
        )
    }

    /// A signed byte: the unsigned read reinterpreted.
    pub fn read_i8(&mut self) -> (r: Result<i8, Error>)
        requires
            old(self).wf(),
        ensures
            final(self).wf(),
            final(self).bytes() == old(self).bytes(),
            final(self).idw() == old(self).idw(),
            match sread_i8(old(self).bytes(), old(self).pos()) {
                Ok((v, q)) => r == Ok::<i8, Error>(v) && final(self).pos() == q,
                Err(e) => r == Err::<i8, Error>(e) && final(self).pos() == old(self).pos(),
            },
    {
        let v = self.read_u8()?;
        Ok(v as i8)
    }

    /// A signed big-endian 16-bit integer: the unsigned read reinterpreted.
    pub fn read_i16(&mut self) -> (r: Result<i16, Error>)
        requires
            old(self).wf(),
        ensures
            final(self).wf(),
            final(self).bytes() == old(self).bytes(),
            final(self).idw() == old(self).idw(),
            match sread_i16(old(self).bytes(), old(self).pos()) {
                Ok((v, q)) => r == Ok::<i16, Error>(v) && final(self).pos() == q,
                Err(e) => r == Err::<i16, Error>(e) && final(self).pos() == old(self).pos(),
            },
    {
        let v = self.read_u16()?;
        Ok(v as i16)
    }

    /// A signed big-endian 32-bit integer: the unsigned read reinterpreted.
    pub fn read_i32(&mut self) -> (r: Result<i32, Error>)
        requires
            old(self).wf(),
        ensures
            final(self).wf(),
            final(self).bytes() == old(self).bytes(),
            final(self).idw() == old(self).idw(),
            match sread_i32(old(self).bytes(), old(self).pos()) {
                Ok((v, q)) => r == Ok::<i32, Error>(v) && final(self).pos() == q,
                Err(e) => r == Err::<i32, Error>(e) && final(self).pos() == old(self).pos(),
            },
    {
        let v = self.read_u32()?;
        Ok(v as i32)
    }

    /// A signed big-endian 64-bit integer: the unsigned read reinterpreted.
    pub fn read_i64(&mut self) -> (r: Result<i64, Error>)
        requires
            old(self).wf(),
        ensures
            final(self).wf(),
            final(self).bytes() == old(self).bytes(),
            final(self).idw() == old(self).idw(),
            match sread_i64(old(self).bytes(), old(self).pos()) {
                Ok((v, q)) => r == Ok::<i64, Error>(v) && final(self).pos() == q,
                Err(e) => r == Err::<i64, Error>(e) && final(self).pos() == old(self).pos(),
            },
    {
        let v = self.read_u64()?;
        Ok(v as i64)
    }
}

/// Relies on std::str::from_utf8: it succeeds exactly when the bytes are
/// valid UTF-8, and then yields the text those bytes encode; vstd's
/// `valid_utf8` and `decode_utf8` describe the same encoding.
#[verifier::external_body]
pub(crate) fn utf8_to_string(bytes: &[u8]) -> (r: Option<String>)
    ensures
        match r {
            Some(s) => vstd::utf8::valid_utf8(bytes@) && s@ == vstd::utf8::decode_utf8(bytes@),
            None => !vstd::utf8::valid_utf8(bytes@),
        },
{
    match core::str::from_utf8(bytes) {
        Ok(s) => Some(s.to_string()),
        Err(_) => None,
    }
}

} // verus!
