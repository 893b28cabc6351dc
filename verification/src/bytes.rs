//! Bounds-checked big-endian fixed-width reads over a byte buffer, and the
//! four-byte tag peek used for container dispatch.

use crate::DecodeError;
use crate::DecodeErrorKind;
use vstd::prelude::*;

verus! {

/// The big-endian `u16` at `off`.
pub open spec fn be_u16(s: Seq<u8>, off: int) -> u16 {
    (s[off] * 0x100 + s[off + 1]) as u16
}

/// The big-endian `u32` at `off`.
pub open spec fn be_u32(s: Seq<u8>, off: int) -> u32 {
    (s[off] * 0x100_0000 + s[off + 1] * 0x1_0000 + s[off + 2] * 0x100 + s[off + 3]) as u32
}

/// The two's-complement reading of a `u32`.
pub open spec fn i32_of_u32(u: u32) -> i32 {
    if u < 0x8000_0000 {
        u as i32
    } else {
        (u - 0x1_0000_0000) as i32
    }
}

/// The two's-complement reading of a `u16`.
pub open spec fn i16_of_u16(u: u16) -> i16 {
    if u < 0x8000 {
        u as i16
    } else {
        (u - 0x1_0000) as i16
    }
}

/// The big-endian `i32` at `off`.
pub open spec fn be_i32(s: Seq<u8>, off: int) -> i32 {
    i32_of_u32(be_u32(s, off))
}

/// The big-endian `i16` at `off`.
pub open spec fn be_i16(s: Seq<u8>, off: int) -> i16 {
    i16_of_u16(be_u16(s, off))
}

/// The error every reader reports when `off + width` passes the buffer end.
pub open spec fn oob(off: usize) -> DecodeError {
    DecodeError { kind: DecodeErrorKind::OutOfBounds, offset: off }
}

/// Reads the byte at `off`.
pub fn read_u8(data: &[u8], off: usize) -> (r: Result<u8, DecodeError>)
    ensures
        off + 1 <= data@.len() ==> r == Ok::<u8, DecodeError>(data@[off as int]),
        off + 1 > data@.len() ==> r == Err::<u8, DecodeError>(oob(off)),
{
    if off < data.len() {
        Ok(data[off])
    } else {
        Err(DecodeError { kind: DecodeErrorKind::OutOfBounds, offset: off })
    }
}

/// Reads the big-endian `u16` at `off`.
pub fn read_u16(data: &[u8], off: usize) -> (r: Result<u16, DecodeError>)
    ensures
        off + 2 <= data@.len() ==> r == Ok::<u16, DecodeError>(be_u16(data@, off as int)),
        off + 2 > data@.len() ==> r == Err::<u16, DecodeError>(oob(off)),
{
    if off < data.len() && data.len() - off >= 2 {
        Ok((data[off] as u16) * 0x100 + (data[off + 1] as u16))
    } else {
        Err(DecodeError { kind: DecodeErrorKind::OutOfBounds, offset: off })
    }
}

/// Reads the big-endian `u32` at `off`.
pub fn read_u32(data: &[u8], off: usize) -> (r: Result<u32, DecodeError>)
    ensures
        off + 4 <= data@.len() ==> r == Ok::<u32, DecodeError>(be_u32(data@, off as int)),
        off + 4 > data@.len() ==> r == Err::<u32, DecodeError>(oob(off)),
{
    if off < data.len() && data.len() - off >= 4 {
        Ok(
            (data[off] as u32) * 0x100_0000 + (data[off + 1] as u32) * 0x1_0000 + (data[off
                + 2] as u32) * 0x100 + (data[off + 3] as u32),
        )
    } else {
        Err(DecodeError { kind: DecodeErrorKind::OutOfBounds, offset: off })
    }
}

/// Reads the big-endian `i16` at `off`.
pub fn read_i16(data: &[u8], off: usize) -> (r: Result<i16, DecodeError>)
    ensures
        off + 2 <= data@.len() ==> r == Ok::<i16, DecodeError>(be_i16(data@, off as int)),
        off + 2 > data@.len() ==> r == Err::<i16, DecodeError>(oob(off)),
{
    match read_u16(data, off) {
        Ok(u) => {
            if u < 0x8000 {
                Ok(u as i16)
            } else {
                Ok(((u - 0x8000) as i16) + i16::MIN)
            }
        },
        Err(e) => Err(e),
    }
}

/// Reads the big-endian `i32` at `off`.
pub fn read_i32(data: &[u8], off: usize) -> (r: Result<i32, DecodeError>)
    ensures
        off + 4 <= data@.len() ==> r == Ok::<i32, DecodeError>(be_i32(data@, off as int)),
        off + 4 > data@.len() ==> r == Err::<i32, DecodeError>(oob(off)),
{
    match read_u32(data, off) {
        Ok(u) => {
            if u < 0x8000_0000 {
                Ok(u as i32)
            } else {
                Ok(((u - 0x8000_0000) as i32) + i32::MIN)
            }
        },
        Err(e) => Err(e),
    }
}

/// Reads the big-endian `u32` at `off` when the caller has already shown the
/// whole record to lie inside the buffer.
pub(crate) fn gu32(data: &[u8], off: usize) -> (r: u32)
    requires
        off + 4 <= data@.len(),
    ensures
        r == be_u32(data@, off as int),
{
    (data[off] as u32) * 0x100_0000 + (data[off + 1] as u32) * 0x1_0000 + (data[off
        + 2] as u32) * 0x100 + (data[off + 3] as u32)
}

/// Reads the big-endian `i32` at `off` when the caller has already shown the
/// whole record to lie inside the buffer.
pub(crate) fn gi32(data: &[u8], off: usize) -> (r: i32)
    requires
        off + 4 <= data@.len(),
    ensures
        r == be_i32(data@, off as int),
{
    let u = gu32(data, off);
    if u < 0x8000_0000 {
        u as i32
    } else {
        ((u - 0x8000_0000) as i32) + i32::MIN
    }
}

/// The four tag bytes at the start of `s`.
pub open spec fn tag4(s: Seq<u8>) -> Seq<u8> {
    s.subrange(0, 4)
}

/// True for the printable bytes a tag name may hold.
pub open spec fn printable(b: u8) -> bool {
    0x21 <= b <= 0x7E
}

/// How many printable bytes start the four-byte tag: its name's length.
pub open spec fn tag_plen(t: Seq<u8>) -> int {
    if t.len() < 4 || !printable(t[0]) {
        0
    } else if !printable(t[1]) {
        1
    } else if !printable(t[2]) {
        2
    } else if !printable(t[3]) {
        3
    } else {
        4
    }
}

/// The printable name that starts the four-byte tag (empty for "no tag").
pub open spec fn tag_prefix(t: Seq<u8>) -> Seq<u8> {
    t.subrange(0, tag_plen(t))
}

/// Computes the length of the tag's printable name.
pub fn tag_plen_exec(t: &[u8; 4]) -> (r: usize)
    ensures
        r == tag_plen(t@),
{
    if !(0x21 <= t[0] && t[0] <= 0x7E) {
        0
    } else if !(0x21 <= t[1] && t[1] <= 0x7E) {
        1
    } else if !(0x21 <= t[2] && t[2] <= 0x7E) {
        2
    } else if !(0x21 <= t[3] && t[3] <= 0x7E) {
        3
    } else {
        4
    }
}

/// Peeks the four-byte dispatch tag at the start of the buffer. The bytes are
/// an opaque key: garbage and non-text bytes are meaningful ("no tag" marks a
/// nested container), so no validation happens here.
pub fn parse_tag(data: &[u8]) -> (r: Result<[u8; 4], DecodeError>)
    ensures
        r is Ok <==> data@.len() >= 4,
        r matches Ok(t) ==> t@ =~= tag4(data@),
        r is Err ==> r == Err::<[u8; 4], DecodeError>(oob(0)),
{
    if data.len() >= 4 {
        let t = [data[0], data[1], data[2], data[3]];
        assert(t@ =~= tag4(data@));
        Ok(t)
    } else {
        Err(DecodeError { kind: DecodeErrorKind::OutOfBounds, offset: 0 })
    }
}

} // verus!
