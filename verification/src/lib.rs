//! Decoder for a family of nested, offset-relative binary asset containers
//! (archives, resource trees, models, animations) and a deriver that turns an
//! animated bone hierarchy plus attack/defense descriptors into flat, linked,
//! deterministically ordered two-dimensional collision geometry per frame.
//!
//! All floating-point quantities are carried as their IEEE-754 single-precision
//! bit patterns (`u32`); the few genuinely numeric operations on them are
//! delegated to outside libraries behind trusted wrappers in `geom`.

use vstd::prelude::*;

pub mod bres;
pub mod bytes;
pub mod geom;
pub mod geometry;
pub mod mdl0;
pub mod parse;
pub mod render;
pub mod resources;
pub mod util;

verus! {

/// Every kind of decode failure names the byte offset it was found at, so a
/// malformed file can be reported precisely and never decoded in part.
///
/// What went wrong, per the failure taxonomy of the formats:
/// a read past the end of the buffer, an offset or size that contradicts the
/// structure around it, a format version outside the supported set, or a
/// string with no terminator.
#[derive(Clone, Copy, Debug, PartialEq, Eq, Structural)]
pub enum DecodeErrorKind {
    OutOfBounds,
    CorruptContainer,
    UnsupportedVersion,
    Unterminated,
}

/// A decode failure, carrying the byte offset (relative to the buffer handed
/// to the failing decoder) at which it was detected.
#[derive(Clone, Copy, Debug, PartialEq, Eq, Structural)]
pub struct DecodeError {
    pub kind: DecodeErrorKind,
    pub offset: usize,
}

} // verus!
