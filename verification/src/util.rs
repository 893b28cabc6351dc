//! Null-terminated string extraction.

use crate::DecodeError;
use crate::DecodeErrorKind;
use vstd::prelude::*;

verus! {

/// True when `s` holds a zero byte.
pub open spec fn has_nul(s: Seq<u8>) -> bool {
    exists|i: int| 0 <= i < s.len() && s[i] == 0
}

/// The index of the first zero byte of `s` (its length when there is none).
pub open spec fn first_nul(s: Seq<u8>) -> int
    decreases s.len(),
{
    if s.len() == 0 {
        0
    } else if s[0] == 0 {
        0
    } else {
        1 + first_nul(s.drop_first())
    }
}

/// The bytes of `s` before its first zero byte.
pub open spec fn nul_prefix(s: Seq<u8>) -> Seq<u8> {
    s.subrange(0, first_nul(s))
}

pub proof fn lemma_first_nul_at(s: Seq<u8>, i: int)
    requires
        0 <= i < s.len(),
        s[i] == 0,
        forall|j: int| 0 <= j < i ==> s[j] != 0,
    ensures
        first_nul(s) == i,
    decreases i,
{
    if i > 0 {
        lemma_first_nul_at(s.drop_first(), i - 1);
    }
}

pub proof fn lemma_no_nul(s: Seq<u8>)
    requires
        forall|j: int| 0 <= j < s.len() ==> s[j] != 0,
    ensures
        first_nul(s) == s.len(),
    decreases s.len(),
{
    if s.len() > 0 {
        lemma_no_nul(s.drop_first());
    }
}

/// Relies on str::from_utf8: it returns Ok exactly on valid UTF-8 input, and
/// then the result borrows the bytes it decodes. The error message is the
/// standard library's own.
#[verifier::external_body]
pub(crate) fn utf8_str<'a>(v: &'a [u8]) -> (r: Result<&'a str, String>)
    ensures
        r is Ok <==> vstd::utf8::valid_utf8(v@),
        r matches Ok(s) ==> s@ == vstd::utf8::decode_utf8(v@),
{
    core::str::from_utf8(v).map_err(|x| format!("{}", x))
}

/// Extracts the string that starts the buffer: the bytes before the first
/// zero byte, decoded as UTF-8. Fails when no zero byte terminates the string
/// before the buffer ends, or when the bytes before it are not valid UTF-8.
pub fn parse_str<'a>(data: &'a [u8]) -> (r: Result<&'a str, String>)
    ensures
        r is Ok <==> has_nul(data@) && vstd::utf8::valid_utf8(nul_prefix(data@)),
        r matches Ok(s) ==> s@ == vstd::utf8::decode_utf8(nul_prefix(data@)),
        !has_nul(data@) ==> (r matches Err(e) && e@ == "String was not terminated"@),
{
    let mut i: usize = 0;
    while i < data.len()
        invariant
            0 <= i <= data@.len(),
            forall|j: int| 0 <= j < i ==> data@[j] != 0,
        decreases data@.len() - i,
    {
        if data[i] == 0 {
            proof {
                lemma_first_nul_at(data@, i as int);
            }
            let prefix = &data[0..i];
            return utf8_str(prefix);
        }
        i += 1;
    }
    proof {
        lemma_no_nul(data@);
    }
    Err(String::from_str("String was not terminated"))
}

/// True when a terminated, validly encoded string starts at `off`.
pub open spec fn c_string_ok(s: Seq<u8>, off: int) -> bool {
    0 <= off <= s.len() && has_nul(s.skip(off)) && vstd::utf8::valid_utf8(nul_prefix(s.skip(off)))
}

/// The characters of the string that starts at `off`.
pub open spec fn c_string_at(s: Seq<u8>, off: int) -> Seq<char> {
    vstd::utf8::decode_utf8(nul_prefix(s.skip(off)))
}

/// Extracts the null-terminated string at `off`, reporting failures in the
/// decoders' own error type: `OutOfBounds` when `off` passes the buffer end,
/// `Unterminated` when no zero byte follows, and `CorruptContainer` when the
/// bytes before the terminator are not valid UTF-8.
pub fn read_c_string<'a>(data: &'a [u8], off: usize) -> (r: Result<&'a str, DecodeError>)
    ensures
        r is Ok <==> c_string_ok(data@, off as int),
        r matches Ok(s) ==> s@ == c_string_at(data@, off as int),
        off > data@.len() ==> r == Err::<&'a str, DecodeError>(
            DecodeError { kind: DecodeErrorKind::OutOfBounds, offset: off },
        ),
        off <= data@.len() && !has_nul(data@.skip(off as int)) ==> r == Err::<
            &'a str,
            DecodeError,
        >(DecodeError { kind: DecodeErrorKind::Unterminated, offset: off }),
        off <= data@.len() && has_nul(data@.skip(off as int)) && !vstd::utf8::valid_utf8(
            nul_prefix(data@.skip(off as int)),
        ) ==> r == Err::<&'a str, DecodeError>(
            DecodeError { kind: DecodeErrorKind::CorruptContainer, offset: off },
        ),
{
    if off > data.len() {
        return Err(DecodeError { kind: DecodeErrorKind::OutOfBounds, offset: off });
    }
    let tail = &data[off..data.len()];
    match parse_str(tail) {
        Ok(s) => Ok(s),
        Err(_) => {
            if has_nul_exec(tail) {
                Err(DecodeError { kind: DecodeErrorKind::CorruptContainer, offset: off })
            } else {
                Err(DecodeError { kind: DecodeErrorKind::Unterminated, offset: off })
            }
        },
    }
}

/// The characters a tag's printable name decodes to, kept for diagnostics on
/// unrecognized payloads (empty when the name is not a valid encoding).
pub open spec fn tag_string_chars(t: Seq<u8>) -> Seq<char> {
    if vstd::utf8::valid_utf8(crate::bytes::tag_prefix(t)) {
        vstd::utf8::decode_utf8(crate::bytes::tag_prefix(t))
    } else {
        Seq::empty()
    }
}

/// The printable name of a tag, as a string, for unrecognized payloads.
pub fn tag_to_string(t: &[u8; 4]) -> (r: String)
    ensures
        r@ == tag_string_chars(t@),
{
    let len = crate::bytes::tag_plen_exec(t);
    let prefix = &t.as_slice()[0..len];
    assert(prefix@ =~= crate::bytes::tag_prefix(t@));
    match utf8_str(prefix) {
        Ok(s) => s.to_owned(),
        Err(_) => String::new(),
    }
}

/// Reports whether the buffer holds a zero byte.
pub fn has_nul_exec(data: &[u8]) -> (r: bool)
    ensures
        r == has_nul(data@),
{
    let mut i: usize = 0;
    while i < data.len()
        invariant
            0 <= i <= data@.len(),
            forall|j: int| 0 <= j < i ==> data@[j] != 0,
        decreases data@.len() - i,
    {
        if data[i] == 0 {
            return true;
        }
        i += 1;
    }
    false
}

} // verus!
