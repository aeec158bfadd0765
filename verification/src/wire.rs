//! Byte-level primitives of the wire format: big-endian byte strings of the
//! fixed-width integers, the signed/unsigned reinterpretations, a
//! bounds-checked read cursor, and the buffer write helpers.

use vstd::prelude::*;

use crate::error::CodecError;

verus! {

// ---------------------------------------------------------------------------
// Big-endian byte strings of unsigned integers
// ---------------------------------------------------------------------------

/// The two big-endian bytes of a 16-bit value.
pub open spec fn be2_bytes(v: u16) -> Seq<u8> {
    seq![(v / 0x100) as u8, (v % 0x100) as u8]
}

/// The four big-endian bytes of a 32-bit value.
pub open spec fn be4_bytes(v: u32) -> Seq<u8> {
    seq![
        (v / 0x1000000) as u8,
        ((v / 0x10000) % 0x100) as u8,
        ((v / 0x100) % 0x100) as u8,
        (v % 0x100) as u8,
    ]
}

/// The eight big-endian bytes of a 64-bit value.
pub open spec fn be8_bytes(v: u64) -> Seq<u8> {
    seq![
        (v / 0x100000000000000) as u8,
        ((v / 0x1000000000000) % 0x100) as u8,
        ((v / 0x10000000000) % 0x100) as u8,
        ((v / 0x100000000) % 0x100) as u8,
        ((v / 0x1000000) % 0x100) as u8,
        ((v / 0x10000) % 0x100) as u8,
        ((v / 0x100) % 0x100) as u8,
        (v % 0x100) as u8,
    ]
}

/// The 16-bit value read big-endian from two bytes.
pub open spec fn be2_val(b: Seq<u8>) -> u16
    recommends
        b.len() == 2,
{
    (b[0] * 0x100 + b[1]) as u16
}

/// The 32-bit value read big-endian from four bytes.
pub open spec fn be4_val(b: Seq<u8>) -> u32
    recommends
        b.len() == 4,
{
    (b[0] * 0x1000000 + b[1] * 0x10000 + b[2] * 0x100 + b[3]) as u32
}

/// The 64-bit value read big-endian from eight bytes.
pub open spec fn be8_val(b: Seq<u8>) -> u64
    recommends
        b.len() == 8,
{
    (b[0] * 0x100000000000000 + b[1] * 0x1000000000000 + b[2] * 0x10000000000 + b[3] * 0x100000000
        + b[4] * 0x1000000 + b[5] * 0x10000 + b[6] * 0x100 + b[7]) as u64
}

/// Reading back the two bytes of a 16-bit value gives the value again.
pub proof fn lemma_be2_roundtrip(v: u16)
    ensures
        be2_val(be2_bytes(v)) == v,
{
}

/// Reading back the four bytes of a 32-bit value gives the value again.
pub proof fn lemma_be4_roundtrip(v: u32)
    ensures
        be4_val(be4_bytes(v)) == v,
{
    assert((v / 0x100) / 0x100 == v / 0x10000) by (nonlinear_arith);
    assert((v / 0x10000) / 0x100 == v / 0x1000000) by (nonlinear_arith);
}

/// Reading back the eight bytes of a 64-bit value gives the value again.
pub proof fn lemma_be8_roundtrip(v: u64)
    ensures
        be8_val(be8_bytes(v)) == v,
{
    assert((v / 0x100) / 0x100 == v / 0x10000) by (nonlinear_arith);
    assert((v / 0x10000) / 0x100 == v / 0x1000000) by (nonlinear_arith);
    assert((v / 0x1000000) / 0x100 == v / 0x100000000) by (nonlinear_arith);
    assert((v / 0x100000000) / 0x100 == v / 0x10000000000) by (nonlinear_arith);
    assert((v / 0x10000000000) / 0x100 == v / 0x1000000000000) by (nonlinear_arith);
    assert((v / 0x1000000000000) / 0x100 == v / 0x100000000000000) by (nonlinear_arith);
}

// ---------------------------------------------------------------------------
// Signed fields travel as their two's-complement unsigned wire value
// ---------------------------------------------------------------------------

/// The signed reading of an unsigned 8-bit wire value.
pub open spec fn i8_from_u8(v: u8) -> i8 {
    if v < 0x80 {
        v as i8
    } else {
        (v - 0x100) as i8
    }
}

/// The unsigned wire value of a signed 8-bit field.
pub open spec fn u8_from_i8(w: i8) -> u8 {
    if w >= 0 {
        w as u8
    } else {
        (w + 0x100) as u8
    }
}

/// The signed reading of an unsigned 16-bit wire value.
pub open spec fn i16_from_u16(v: u16) -> i16 {
    if v < 0x8000 {
        v as i16
    } else {
        (v - 0x10000) as i16
    }
}

/// The unsigned wire value of a signed 16-bit field.
pub open spec fn u16_from_i16(w: i16) -> u16 {
    if w >= 0 {
        w as u16
    } else {
        (w + 0x10000) as u16
    }
}

/// The signed reading of an unsigned 32-bit wire value.
pub open spec fn i32_from_u32(v: u32) -> i32 {
    if v < 0x80000000 {
        v as i32
    } else {
        (v - 0x100000000) as i32
    }
}

/// The unsigned wire value of a signed 32-bit field.
pub open spec fn u32_from_i32(w: i32) -> u32 {
    if w >= 0 {
        w as u32
    } else {
        (w + 0x100000000) as u32
    }
}

/// The signed reading of an unsigned 64-bit wire value.
pub open spec fn i64_from_u64(v: u64) -> i64 {
    if v < 0x8000000000000000 {
        v as i64
    } else {
        (v - 0x10000000000000000) as i64
    }
}

/// The unsigned wire value of a signed 64-bit field.
pub open spec fn u64_from_i64(w: i64) -> u64 {
    if w >= 0 {
        w as u64
    } else {
        (w + 0x10000000000000000) as u64
    }
}

/// The signed and unsigned reinterpretations invert each other.
pub proof fn lemma_signed_roundtrip()
    ensures
        forall|w: i8| #[trigger] i8_from_u8(u8_from_i8(w)) == w,
        forall|w: i16| #[trigger] i16_from_u16(u16_from_i16(w)) == w,
        forall|w: i32| #[trigger] i32_from_u32(u32_from_i32(w)) == w,
        forall|w: i64| #[trigger] i64_from_u64(u64_from_i64(w)) == w,
{
}

// ---------------------------------------------------------------------------
// Bounds-checked read cursor
// ---------------------------------------------------------------------------

/// A position tracker over a byte buffer, consuming fields left to right.
///
/// Every read checks the bounds first and reports `TruncatedMessage` instead
/// of reading past the end; a failed read leaves the position unchanged.
pub struct Cursor<'a> {
    data: &'a [u8],
    pos: usize,
}

impl<'a> Cursor<'a> {
    /// The whole underlying buffer.
    pub closed spec fn buf(self) -> Seq<u8> {
        self.data@
    }

    /// How many bytes have been consumed so far.
    pub closed spec fn pos(self) -> int {
        self.pos as int
    }

    /// The bytes that have not been consumed yet.
    pub open spec fn remaining_bytes(self) -> Seq<u8> {
        self.buf().skip(self.pos())
    }

    /// The position never runs past the end of the buffer.
    pub open spec fn wf(self) -> bool {
        0 <= self.pos() <= self.buf().len()
    }

    /// A fresh cursor at the start of the given buffer.
    pub fn new(data: &'a [u8]) -> (c: Cursor<'a>)
        ensures
            c.wf(),
            c.buf() == data@,
            c.pos() == 0,
    {
        Cursor { data, pos: 0 }
    }

    /// How many bytes are left to read.
    pub fn remaining(&self) -> (n: usize)
        requires
            self.wf(),
        ensures
            n == self.remaining_bytes().len(),
    {
        self.data.len() - self.pos
    }

    /// Reads one byte.
    pub fn get_u8(&mut self) -> (r: Result<u8, CodecError>)
        requires
            old(self).wf(),
        ensures
            final(self).wf(),
            final(self).buf() == old(self).buf(),
            old(self).remaining_bytes().len() >= 1 ==> {
                &&& r == Ok::<u8, CodecError>(old(self).remaining_bytes()[0])
                &&& final(self).pos() == old(self).pos() + 1
            },
            old(self).remaining_bytes().len() < 1 ==> {
                &&& r == Err::<u8, CodecError>(CodecError::TruncatedMessage)
                &&& final(self).pos() == old(self).pos()
            },
    {
        if self.pos < self.data.len() {
            let b: u8 = self.data[self.pos];
            self.pos = self.pos + 1;
            Ok(b)
        } else {
            Err(CodecError::TruncatedMessage)
        }
    }

    /// Reads a 16-bit unsigned big-endian value.
    pub fn get_u16(&mut self) -> (r: Result<u16, CodecError>)
        requires
            old(self).wf(),
        ensures
            final(self).wf(),
            final(self).buf() == old(self).buf(),
            old(self).remaining_bytes().len() >= 2 ==> {
                &&& r == Ok::<u16, CodecError>(be2_val(old(self).remaining_bytes().take(2)))
                &&& final(self).pos() == old(self).pos() + 2
            },
            old(self).remaining_bytes().len() < 2 ==> {
                &&& r == Err::<u16, CodecError>(CodecError::TruncatedMessage)
                &&& final(self).pos() == old(self).pos()
            },
    {
        if self.data.len() - self.pos >= 2 {
            let b0: u8 = self.data[self.pos];
            let b1: u8 = self.data[self.pos + 1];
            self.pos = self.pos + 2;
            Ok((b0 as u16) * 0x100 + (b1 as u16))
        } else {
            Err(CodecError::TruncatedMessage)
        }
    }

    /// Reads a 32-bit unsigned big-endian value.
    pub fn get_u32(&mut self) -> (r: Result<u32, CodecError>)
        requires
            old(self).wf(),
        ensures
            final(self).wf(),
            final(self).buf() == old(self).buf(),
            old(self).remaining_bytes().len() >= 4 ==> {
                &&& r == Ok::<u32, CodecError>(be4_val(old(self).remaining_bytes().take(4)))
                &&& final(self).pos() == old(self).pos() + 4
            },
            old(self).remaining_bytes().len() < 4 ==> {
                &&& r == Err::<u32, CodecError>(CodecError::TruncatedMessage)
                &&& final(self).pos() == old(self).pos()
            },
    {
        if self.data.len() - self.pos >= 4 {
            let b0: u8 = self.data[self.pos];
            let b1: u8 = self.data[self.pos + 1];
            let b2: u8 = self.data[self.pos + 2];
            let b3: u8 = self.data[self.pos + 3];
            self.pos = self.pos + 4;
            Ok((b0 as u32) * 0x1000000 + (b1 as u32) * 0x10000 + (b2 as u32) * 0x100 + (b3 as u32))
        } else {
            Err(CodecError::TruncatedMessage)
        }
    }

    /// Reads a 64-bit unsigned big-endian value.
    pub fn get_u64(&mut self) -> (r: Result<u64, CodecError>)
        requires
            old(self).wf(),
        ensures
            final(self).wf(),
            final(self).buf() == old(self).buf(),
            old(self).remaining_bytes().len() >= 8 ==> {
                &&& r == Ok::<u64, CodecError>(be8_val(old(self).remaining_bytes().take(8)))
                &&& final(self).pos() == old(self).pos() + 8
            },
            old(self).remaining_bytes().len() < 8 ==> {
                &&& r == Err::<u64, CodecError>(CodecError::TruncatedMessage)
                &&& final(self).pos() == old(self).pos()
            },
    {
        if self.data.len() - self.pos >= 8 {
            let b0: u8 = self.data[self.pos];
            let b1: u8 = self.data[self.pos + 1];
            let b2: u8 = self.data[self.pos + 2];
            let b3: u8 = self.data[self.pos + 3];
            let b4: u8 = self.data[self.pos + 4];
            let b5: u8 = self.data[self.pos + 5];
            let b6: u8 = self.data[self.pos + 6];
            let b7: u8 = self.data[self.pos + 7];
            self.pos = self.pos + 8;
            Ok(
                (b0 as u64) * 0x100000000000000 + (b1 as u64) * 0x1000000000000 + (b2 as u64)
                    * 0x10000000000 + (b3 as u64) * 0x100000000 + (b4 as u64) * 0x1000000 + (
                b5 as u64) * 0x10000 + (b6 as u64) * 0x100 + (b7 as u64),
            )
        } else {
            Err(CodecError::TruncatedMessage)
        }
    }

    /// Reads an 8-bit signed value.
    pub fn get_i8(&mut self) -> (r: Result<i8, CodecError>)
        requires
            old(self).wf(),
        ensures
            final(self).wf(),
            final(self).buf() == old(self).buf(),
            old(self).remaining_bytes().len() >= 1 ==> {
                &&& r == Ok::<i8, CodecError>(i8_from_u8(old(self).remaining_bytes()[0]))
                &&& final(self).pos() == old(self).pos() + 1
            },
            old(self).remaining_bytes().len() < 1 ==> {
                &&& r == Err::<i8, CodecError>(CodecError::TruncatedMessage)
                &&& final(self).pos() == old(self).pos()
            },
    {
        match self.get_u8() {
            Ok(v) => {
                if v < 0x80 {
                    Ok(v as i8)
                } else {
                    Ok(((v as i16) - 0x100) as i8)
                }
            },
            Err(e) => Err(e),
        }
    }

    /// Reads a 16-bit signed big-endian value.
    pub fn get_i16(&mut self) -> (r: Result<i16, CodecError>)
        requires
            old(self).wf(),
        ensures
            final(self).wf(),
            final(self).buf() == old(self).buf(),
            old(self).remaining_bytes().len() >= 2 ==> {
                &&& r == Ok::<i16, CodecError>(
                    i16_from_u16(be2_val(old(self).remaining_bytes().take(2))),
                )
                &&& final(self).pos() == old(self).pos() + 2
            },
            old(self).remaining_bytes().len() < 2 ==> {
                &&& r == Err::<i16, CodecError>(CodecError::TruncatedMessage)
                &&& final(self).pos() == old(self).pos()
            },
    {
        match self.get_u16() {
            Ok(v) => {
                if v < 0x8000 {
                    Ok(v as i16)
                } else {
                    Ok(((v as i32) - 0x10000) as i16)
                }
            },
            Err(e) => Err(e),
        }
    }

    /// Reads a 32-bit signed big-endian value.
    pub fn get_i32(&mut self) -> (r: Result<i32, CodecError>)
        requires
            old(self).wf(),
        ensures
            final(self).wf(),
            final(self).buf() == old(self).buf(),
            old(self).remaining_bytes().len() >= 4 ==> {
                &&& r == Ok::<i32, CodecError>(
                    i32_from_u32(be4_val(old(self).remaining_bytes().take(4))),
                )
                &&& final(self).pos() == old(self).pos() + 4
            },
            old(self).remaining_bytes().len() < 4 ==> {
                &&& r == Err::<i32, CodecError>(CodecError::TruncatedMessage)
                &&& final(self).pos() == old(self).pos()
            },
    {
        match self.get_u32() {
            Ok(v) => {
                if v < 0x80000000 {
                    Ok(v as i32)
                } else {
                    Ok(((v as i64) - 0x100000000) as i32)
                }
            },
            Err(e) => Err(e),
        }
    }

    /// Reads a 64-bit signed big-endian value.
    pub fn get_i64(&mut self) -> (r: Result<i64, CodecError>)
        requires
            old(self).wf(),
        ensures
            final(self).wf(),
            final(self).buf() == old(self).buf(),
            old(self).remaining_bytes().len() >= 8 ==> {
                &&& r == Ok::<i64, CodecError>(
                    i64_from_u64(be8_val(old(self).remaining_bytes().take(8))),
                )
                &&& final(self).pos() == old(self).pos() + 8
            },
            old(self).remaining_bytes().len() < 8 ==> {
                &&& r == Err::<i64, CodecError>(CodecError::TruncatedMessage)
                &&& final(self).pos() == old(self).pos()
            },
    {
        match self.get_u64() {
            Ok(v) => {
                if v < 0x8000000000000000 {
                    Ok(v as i64)
                } else {
                    Ok(((v as i128) - 0x10000000000000000) as i64)
                }
            },
            Err(e) => Err(e),
        }
    }
}

// ---------------------------------------------------------------------------
// Buffer write helpers
// ---------------------------------------------------------------------------

/// Appends one byte to the buffer.
pub fn put_u8(buffer: &mut Vec<u8>, v: u8)
    ensures
        final(buffer)@ == old(buffer)@ + seq![v],
{
    buffer.push(v);
    assert(buffer@ =~= old(buffer)@ + seq![v]);
}

/// Appends a 16-bit value as two big-endian bytes.
pub fn put_u16(buffer: &mut Vec<u8>, v: u16)
    ensures
        final(buffer)@ == old(buffer)@ + be2_bytes(v),
{
    buffer.push((v / 0x100) as u8);
    buffer.push((v % 0x100) as u8);
    assert(buffer@ =~= old(buffer)@ + be2_bytes(v));
}

/// Appends a 32-bit value as four big-endian bytes.
pub fn put_u32(buffer: &mut Vec<u8>, v: u32)
    ensures
        final(buffer)@ == old(buffer)@ + be4_bytes(v),
{
    buffer.push((v / 0x1000000) as u8);
    buffer.push(((v / 0x10000) % 0x100) as u8);
    buffer.push(((v / 0x100) % 0x100) as u8);
    buffer.push((v % 0x100) as u8);
    assert(buffer@ =~= old(buffer)@ + be4_bytes(v));
}

/// Appends a 64-bit value as eight big-endian bytes.
pub fn put_u64(buffer: &mut Vec<u8>, v: u64)
    ensures
        final(buffer)@ == old(buffer)@ + be8_bytes(v),
{
    buffer.push((v / 0x100000000000000) as u8);
    buffer.push(((v / 0x1000000000000) % 0x100) as u8);
    buffer.push(((v / 0x10000000000) % 0x100) as u8);
    buffer.push(((v / 0x100000000) % 0x100) as u8);
    buffer.push(((v / 0x1000000) % 0x100) as u8);
    buffer.push(((v / 0x10000) % 0x100) as u8);
    buffer.push(((v / 0x100) % 0x100) as u8);
    buffer.push((v % 0x100) as u8);
    assert(buffer@ =~= old(buffer)@ + be8_bytes(v));
}

/// Appends an 8-bit signed field as its unsigned wire byte.
pub fn put_i8(buffer: &mut Vec<u8>, w: i8)
    ensures
        final(buffer)@ == old(buffer)@ + seq![u8_from_i8(w)],
{
    let v: u8 = if w >= 0 {
        w as u8
    } else {
        ((w as i16) + 0x100) as u8
    };
    put_u8(buffer, v);
}

/// Appends a 16-bit signed field as its big-endian unsigned wire bytes.
pub fn put_i16(buffer: &mut Vec<u8>, w: i16)
    ensures
        final(buffer)@ == old(buffer)@ + be2_bytes(u16_from_i16(w)),
{
    let v: u16 = if w >= 0 {
        w as u16
    } else {
        ((w as i32) + 0x10000) as u16
    };
    put_u16(buffer, v);
}

/// Appends a 32-bit signed field as its big-endian unsigned wire bytes.
pub fn put_i32(buffer: &mut Vec<u8>, w: i32)
    ensures
        final(buffer)@ == old(buffer)@ + be4_bytes(u32_from_i32(w)),
{
    let v: u32 = if w >= 0 {
        w as u32
    } else {
        ((w as i64) + 0x100000000) as u32
    };
    put_u32(buffer, v);
}

/// Appends a 64-bit signed field as its big-endian unsigned wire bytes.
pub fn put_i64(buffer: &mut Vec<u8>, w: i64)
    ensures
        final(buffer)@ == old(buffer)@ + be8_bytes(u64_from_i64(w)),
{
    let v: u64 = if w >= 0 {
        w as u64
    } else {
        ((w as i128) + 0x10000000000000000) as u64
    };
    put_u64(buffer, v);
}

} // verus!
