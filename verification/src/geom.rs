//! Homogeneous transform values, carried as IEEE-754 single-precision bit
//! patterns. Building a translation matrix is pure bit placement and is
//! verified; the one genuinely numeric operation on matrices, the product, is
//! delegated to cgmath behind a trusted wrapper, as is the midpoint of two
//! depth coordinates. Both results are pure functions of their argument bits
//! whenever they are numbers; a not-a-number result has machine-dependent
//! payload bits, so only its NaN-ness is trusted and every result is
//! canonicalized before it enters the derivation. The canonicalized results
//! carry names that the callers' contracts compose exactly.

use byteorder::BigEndian;
use byteorder::ByteOrder;
use cgmath::Matrix4;
use cgmath::Vector4;
use vstd::prelude::*;

verus! {

/// Bit pattern of the single-precision constant one.
pub const F32_ONE: u32 = 0x3F80_0000;

/// A 4x4 column-major matrix of IEEE-754 single-precision bit patterns:
/// element `e[4 * c + r]` is row `r` of column `c`.
#[derive(Clone, Copy, Debug)]
pub struct Mat4 {
    pub e: [u32; 16],
}

/// A three-component vector of single-precision bit patterns.
#[derive(Clone, Copy, Debug, PartialEq, Eq, Structural)]
pub struct Vec3 {
    pub x: u32,
    pub y: u32,
    pub z: u32,
}

/// The elements of the homogeneous translation matrix by `v`: an identity
/// block and `v` in the fourth column, exactly as cgmath lays it out.
pub open spec fn translation_bits(v: Vec3) -> Seq<u32> {
    seq![
        F32_ONE, 0, 0, 0,
        0, F32_ONE, 0, 0,
        0, 0, F32_ONE, 0,
        v.x, v.y, v.z, F32_ONE,
    ]
}

/// The elements of the identity matrix.
pub open spec fn identity_bits() -> Seq<u32> {
    translation_bits(Vec3 { x: 0, y: 0, z: 0 })
}

/// Builds the homogeneous translation matrix by `v`. Pure bit placement: a
/// translation matrix is an identity block with `v` as its fourth column, so
/// no floating-point arithmetic happens.
pub fn translation_matrix(v: Vec3) -> (r: Mat4)
    ensures
        r.e@ == translation_bits(v),
{
    let e: [u32; 16] = [
        F32_ONE, 0, 0, 0,
        0, F32_ONE, 0, 0,
        0, 0, F32_ONE, 0,
        v.x, v.y, v.z, F32_ONE,
    ];
    assert(e@ =~= translation_bits(v));
    Mat4 { e }
}

/// Builds the identity matrix.
pub fn identity_matrix() -> (r: Mat4)
    ensures
        r.e@ == identity_bits(),
{
    translation_matrix(Vec3 { x: 0, y: 0, z: 0 })
}

/// The element bits of the matrix product `a * b`, under the convention that
/// a not-a-number element carries the canonical quiet pattern.
pub uninterp spec fn mat4_mul_bits(a: Seq<u32>, b: Seq<u32>) -> Seq<u32>;

/// The bits of the single-precision midpoint `(a + b) / 2`, under the same
/// convention.
pub uninterp spec fn avg_bits(a: u32, b: u32) -> u32;

/// The canonical quiet not-a-number pattern.
pub const F32_QNAN: u32 = 0x7FC0_0000;

/// Canonicalizes a bit pattern: every not-a-number pattern is rewritten to
/// the one quiet pattern, every number is kept. Whether an IEEE-754 result is
/// a number is a function of the operands, but the payload bits of a
/// not-a-number result are not (they may differ between machines and even
/// between runs), so results are canonicalized right after every arithmetic
/// call and only the canonical form enters the derivation.
pub open spec fn canon_nan(k: u32) -> u32 {
    if crate::render::is_nan_bits(k) {
        F32_QNAN
    } else {
        k
    }
}

/// Canonicalizes one bit pattern.
pub fn canon_nan_exec(k: u32) -> (r: u32)
    ensures
        r == canon_nan(k),
{
    if crate::render::is_nan_bits_exec(k) {
        F32_QNAN
    } else {
        k
    }
}

/// The canonicalized element bits of the matrix product `a * b`: what the
/// library actually computes and everything downstream is stated over.
pub open spec fn mat4_mul_canon_bits(a: Seq<u32>, b: Seq<u32>) -> Seq<u32> {
    Seq::new(16, |i: int| canon_nan(mat4_mul_bits(a, b)[i]))
}

/// The canonicalized bits of the single-precision midpoint of `a` and `b`.
pub open spec fn avg_canon_bits(a: u32, b: u32) -> u32 {
    canon_nan(avg_bits(a, b))
}

/// Relies on cgmath's `Matrix4` product (a fixed expression of single-precision
/// multiplies and adds) and on byteorder's `read_f32` (an exact bit
/// round-trip). Each element of an IEEE-754 product is a pure function of the
/// operand bits whenever it is a number; when it is not a number only that
/// fact is determined, the payload bits are not, so the contract claims the
/// named bits for number results and only NaN-ness otherwise.
#[verifier::external_body]
fn mat4_mul_raw(a: &Mat4, b: &Mat4) -> (r: Mat4)
    ensures
        forall|i: int|
            0 <= i < 16 ==> (#[trigger] r.e@[i]) == mat4_mul_bits(a.e@, b.e@)[i] || (
            crate::render::is_nan_bits(r.e@[i]) && crate::render::is_nan_bits(
                mat4_mul_bits(a.e@, b.e@)[i],
            )),
{
    let f = |x: u32| BigEndian::read_f32(&x.to_be_bytes());
    let c = |m: &Mat4, i: usize| Vector4::new(f(m.e[i]), f(m.e[i + 1]), f(m.e[i + 2]), f(m.e[i + 3]));
    let g = |m: &Mat4| Matrix4::from_cols(c(m, 0), c(m, 4), c(m, 8), c(m, 12));
    let p = g(a) * g(b);
    let mut e = [0u32; 16];
    for i in 0..16usize {
        e[i] = p[i / 4][i % 4].to_bits();
    }
    Mat4 { e }
}

/// The matrix product of `a` and `b`, with every not-a-number element
/// canonicalized, so that the result is a pure function of the operand bits.
pub fn mat4_mul(a: &Mat4, b: &Mat4) -> (r: Mat4)
    ensures
        r.e@ == mat4_mul_canon_bits(a.e@, b.e@),
{
    let raw = mat4_mul_raw(a, b);
    let mut e = raw.e;
    let mut i: usize = 0;
    while i < 16
        invariant
            0 <= i <= 16,
            e@.len() == 16,
            forall|j: int|
                0 <= j < 16 ==> (#[trigger] raw.e@[j]) == mat4_mul_bits(a.e@, b.e@)[j] || (
                crate::render::is_nan_bits(raw.e@[j]) && crate::render::is_nan_bits(
                    mat4_mul_bits(a.e@, b.e@)[j],
                )),
            forall|j: int| 0 <= j < i ==> e@[j] == mat4_mul_canon_bits(a.e@, b.e@)[j],
            forall|j: int| i <= j < 16 ==> e@[j] == raw.e@[j],
        decreases 16 - i,
    {
        let v = e[i];
        e[i] = canon_nan_exec(v);
        i += 1;
    }
    assert(e@ =~= mat4_mul_canon_bits(a.e@, b.e@));
    Mat4 { e }
}

/// Relies on IEEE-754 addition and division (native operations; byteorder's
/// `read_f32` only reconstructs the operands from their bits, and 0x40000000
/// is the bit pattern of the constant two). The midpoint is a pure function
/// of the operand bits whenever it is a number; when it is not a number only
/// that fact is determined, so the contract claims the named bits for number
/// results and only NaN-ness otherwise.
#[verifier::external_body]
fn avg_half_raw(a: u32, b: u32) -> (r: u32)
    ensures
        r == avg_bits(a, b) || (crate::render::is_nan_bits(r) && crate::render::is_nan_bits(
            avg_bits(a, b),
        )),
{
    let f = |x: u32| BigEndian::read_f32(&x.to_be_bytes());
    ((f(a) + f(b)) / f(0x4000_0000)).to_bits()
}

/// The midpoint of the values `a` and `b` encode, with a not-a-number result
/// canonicalized, so that the result is a pure function of the operand bits.
pub fn avg_half(a: u32, b: u32) -> (r: u32)
    ensures
        r == avg_canon_bits(a, b),
{
    canon_nan_exec(avg_half_raw(a, b))
}

} // verus!
