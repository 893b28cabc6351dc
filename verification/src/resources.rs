//! Decoder for resource groups: the generic named-entry index shared by every
//! container format. On disk a group is a binary search tree, but the tree's
//! navigation fields are irrelevant here: after the sentinel node that starts
//! every group, the node array is read as a flat list, in array order.

use crate::DecodeError;
use crate::DecodeErrorKind;
use crate::bytes::be_i32;
use crate::bytes::read_i32;
use crate::util::c_string_at;
use crate::util::c_string_ok;
use crate::util::read_c_string;
use vstd::prelude::*;

verus! {

/// One named entry of a resource group. Both offsets are relative to the
/// start of the group.
#[derive(Debug)]
pub struct Resource {
    pub string_offset: i32,
    pub data_offset: i32,
    pub string: String,
}

/// Group header: total size, then the number of entries after the sentinel.
pub open spec fn num_children_of(s: Seq<u8>) -> int {
    be_i32(s, 4) as int
}

/// Byte offset of node `i` of the group; node 0 is the sentinel.
pub open spec fn node_off(i: int) -> int {
    8 + 0x10 * i
}

/// The string offset stored in node `i`.
pub open spec fn entry_string_off(s: Seq<u8>, i: int) -> i32 {
    be_i32(s, node_off(i) + 8)
}

/// The data offset stored in node `i`.
pub open spec fn entry_data_off(s: Seq<u8>, i: int) -> i32 {
    be_i32(s, node_off(i) + 12)
}

/// The header is readable, the child count is not negative, and the sentinel
/// plus all child nodes lie inside the buffer.
pub open spec fn group_header_ok(s: Seq<u8>) -> bool {
    s.len() >= 8 && num_children_of(s) >= 0 && node_off(num_children_of(s) + 1) <= s.len()
}

/// Node `i` names a terminated, validly encoded string inside the buffer.
pub open spec fn entry_ok(s: Seq<u8>, i: int) -> bool {
    c_string_ok(s, entry_string_off(s, i) as int)
}

/// The decoded `Resource` carries exactly what node `i` stores.
pub open spec fn resource_matches(s: Seq<u8>, i: int, r: Resource) -> bool {
    &&& r.string_offset == entry_string_off(s, i)
    &&& r.data_offset == entry_data_off(s, i)
    &&& r.string@ == c_string_at(s, entry_string_off(s, i) as int)
}

/// A resource group at the start of `s` decodes without error.
pub open spec fn resources_ok(s: Seq<u8>) -> bool {
    group_header_ok(s) && (forall|i: int| 1 <= i <= num_children_of(s) ==> entry_ok(s, i))
}

/// `v` is exactly what the resource group at the start of `s` holds.
pub open spec fn resources_decoded(s: Seq<u8>, v: Seq<Resource>) -> bool {
    &&& v.len() == num_children_of(s)
    &&& forall|k: int| 0 <= k < v.len() ==> resource_matches(s, k + 1, v[k])
}

/// Decodes a resource group positioned at the start of `data`. The sentinel
/// node is skipped and never returned; the result holds exactly
/// `num_children` entries, in node-array order.
pub fn resources(data: &[u8]) -> (r: Result<Vec<Resource>, DecodeError>)
    ensures
        r is Ok <==> resources_ok(data@),
        r matches Ok(v) ==> resources_decoded(data@, v@),
        data@.len() >= 8 && num_children_of(data@) < 0 ==> r == Err::<Vec<Resource>, DecodeError>(
            DecodeError { kind: DecodeErrorKind::CorruptContainer, offset: 4 },
        ),
{
    let num = match read_i32(data, 4) {
        Ok(n) => n,
        Err(e) => { return Err(e) },
    };
    if num < 0 {
        return Err(DecodeError { kind: DecodeErrorKind::CorruptContainer, offset: 4 });
    }
    let num = num as usize;
    // The sentinel and every child node must lie inside the buffer; the
    // comparison is widened so that it cannot overflow on any machine.
    if data.len() < 8 || ((data.len() - 8) as u64) < 0x10u64 * (num as u64 + 1) {
        return Err(DecodeError { kind: DecodeErrorKind::OutOfBounds, offset: 8 });
    }
    let mut out: Vec<Resource> = Vec::new();
    let mut i: usize = 1;
    while i <= num
        invariant
            1 <= i <= num + 1,
            num < 0x8000_0000,
            num == num_children_of(data@),
            group_header_ok(data@),
            data@.len() >= node_off(num as int + 1),
            data@.len() <= usize::MAX,
            out@.len() == i - 1,
            forall|j: int| 1 <= j < i ==> entry_ok(data@, j),
            forall|k: int| 0 <= k < out@.len() ==> resource_matches(data@, k + 1, out@[k]),
        decreases num + 1 - i,
    {
        let base = 8 + 0x10 * i;
        let string_offset = match read_i32(data, base + 8) {
            Ok(v) => v,
            Err(e) => { return Err(e) },
        };
        let data_offset = match read_i32(data, base + 12) {
            Ok(v) => v,
            Err(e) => { return Err(e) },
        };
        if string_offset < 0 {
            assert(!entry_ok(data@, i as int));
            return Err(DecodeError { kind: DecodeErrorKind::CorruptContainer, offset: base + 8 });
        }
        let string = match read_c_string(data, string_offset as usize) {
            Ok(s) => s.to_owned(),
            Err(e) => {
                assert(!entry_ok(data@, i as int));
                return Err(e);
            },
        };
        out.push(Resource { string_offset, data_offset, string });
        i += 1;
    }
    Ok(out)
}

} // verus!
