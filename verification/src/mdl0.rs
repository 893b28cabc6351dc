//! Decoder for model containers: a version-dependent properties block, a set
//! of positionally dispatched resource lists, and the bone hierarchy with one
//! local transform per bone.

use crate::DecodeError;
use crate::DecodeErrorKind;
use crate::bytes::be_i32;
use crate::bytes::be_u32;
use crate::bytes::read_i32;
use crate::bytes::read_u32;
use crate::bytes::read_u8;
use crate::geom::Mat4;
use crate::resources::Resource;
use crate::resources::resources;
use vstd::prelude::*;

verus! {

/// One node of the bone hierarchy: its position in the bone resource list,
/// its name, its local transform, and the bones it owns.
#[derive(Debug)]
pub struct Bone {
    pub index: u32,
    pub name: String,
    pub transform: Mat4,
    pub children: Vec<Bone>,
}

/// An axis-aligned extent box, as two corner vectors of single-precision bit
/// patterns.
#[derive(Clone, Copy, Debug)]
pub struct MBox {
    pub min: crate::geom::Vec3,
    pub max: crate::geom::Vec3,
}

/// The model properties block; every numeric quantity is carried verbatim,
/// floats as their bit patterns.
#[derive(Clone, Copy, Debug)]
pub struct Mdl0Props {
    pub header_len: u32,
    pub mdl0offset: i32,
    pub scaling_rule: i32,
    pub tex_matrix_mode: i32,
    pub num_vertices: i32,
    pub num_triangles: i32,
    pub orig_path_offset: i32,
    pub num_nodes: i32,
    pub need_nrm_mtx_array: u8,
    pub need_tex_mtx_array: u8,
    pub enable_extents: u8,
    pub env_mtx_mode: u8,
    pub data_offset: i32,
    pub extents: MBox,
}

/// The bone resource list of a model.
#[derive(Debug)]
pub struct Mdl0Bones {
    pub resources: Vec<Resource>,
}

/// The definitions resource list of a model.
#[derive(Debug)]
pub struct Mdl0Definitions {
    pub resources: Vec<Resource>,
}

/// A decoded model: version, optional properties, the resource lists the
/// format dispatches by position, and the resolved bone hierarchy.
#[derive(Debug)]
pub struct Mdl0 {
    pub version: i32,
    pub props: Option<Mdl0Props>,
    pub definitions: Option<Mdl0Definitions>,
    pub bones: Option<Mdl0Bones>,
    pub root_bone: Option<Bone>,
    pub vertices: Option<Vec<Resource>>,
    pub normals: Option<Vec<Resource>>,
    pub colors: Option<Vec<Resource>>,
    pub uv: Option<Vec<Resource>>,
    pub fur_vectors: Option<Vec<Resource>>,
    pub fur_layer_coords: Option<Vec<Resource>>,
    pub materials: Option<Vec<Resource>>,
    pub shaders: Option<Vec<Resource>>,
    pub objects: Option<Vec<Resource>>,
    pub textures: Option<Vec<Resource>>,
    pub palettes: Option<Vec<Resource>>,
}

/// The 16 big-endian matrix elements at `off`, column major.
pub open spec fn mat_bits_at(s: Seq<u8>, off: int) -> Seq<u32> {
    Seq::new(16, |i: int| be_u32(s, off + 4 * i))
}

/// Reads a 4x4 matrix of element bit patterns.
pub(crate) fn read_mat16(data: &[u8], off: usize) -> (r: Mat4)
    requires
        off + 64 <= data@.len(),
    ensures
        r.e@ == mat_bits_at(data@, off as int),
{
    let n = data.len();
    let mut e: [u32; 16] = [0; 16];
    let mut i: usize = 0;
    while i < 16
        invariant
            0 <= i <= 16,
            off + 64 <= data@.len(),
            n == data@.len(),
            e@.len() == 16,
            forall|j: int| 0 <= j < i ==> e@[j] == be_u32(data@, off + 4 * j),
        decreases 16 - i,
    {
        let v = match read_u32(data, off + 4 * i) {
            Ok(v) => v,
            Err(_) => 0,
        };
        e[i] = v;
        i += 1;
    }
    assert(e@ =~= mat_bits_at(data@, off as int));
    Mat4 { e }
}

/// The bone record of entry `k` (the node after the sentinel, so node `k+1`
/// of the group) lies inside the group and names children consistently: a
/// bone's children follow it in the list, so the hierarchy cannot cycle.
pub open spec fn bone_ok(g: Seq<u8>, k: int) -> bool
    decreases crate::resources::num_children_of(g) - k, 0int,
{
    let n = crate::resources::num_children_of(g);
    if !(0 <= k < n && k <= 0xFFFF_FFFF) {
        false
    } else {
        let rec = crate::resources::entry_data_off(g, k + 1) as int;
        if rec < 0 || rec + 72 > g.len() {
            false
        } else {
            let count = be_u32(g, rec + 64) as int;
            let first = be_u32(g, rec + 68) as int;
            if count == 0 {
                true
            } else if first <= k || first + count > n {
                false
            } else {
                range_ok(g, first, count)
            }
        }
    }
}

/// Entries `first .. first + count` all store well-formed bones.
pub open spec fn range_ok(g: Seq<u8>, first: int, count: int) -> bool
    decreases crate::resources::num_children_of(g) - first, count + 1,
{
    if count <= 0 {
        true
    } else if !(0 <= first < crate::resources::num_children_of(g)) {
        false
    } else {
        bone_ok(g, first) && range_ok(g, first + 1, count - 1)
    }
}

proof fn lemma_range_ok_push(g: Seq<u8>, first: int, c: int)
    requires
        c >= 0,
        range_ok(g, first, c),
        bone_ok(g, first + c),
    ensures
        range_ok(g, first, c + 1),
    decreases c,
{
    let n = crate::resources::num_children_of(g);
    assert(0 <= first + c < n);
    if c == 0 {
        assert(bone_ok(g, first));
        assert(range_ok(g, first + 1, 0));
        assert(range_ok(g, first, 1));
    } else {
        lemma_range_ok_push(g, first + 1, c - 1);
        assert(range_ok(g, first, c + 1));
    }
}

proof fn lemma_range_ok_index(g: Seq<u8>, first: int, count: int, c: int)
    requires
        range_ok(g, first, count),
        0 <= c < count,
    ensures
        bone_ok(g, first + c),
    decreases c,
{
    if c > 0 {
        lemma_range_ok_index(g, first + 1, count - 1, c - 1);
    }
}

/// `b` is exactly the bone that entry `k` of the group stores: its index, its
/// name, its local transform, and its children resolved recursively.
pub open spec fn bone_rel(g: Seq<u8>, k: int, b: Bone) -> bool
    decreases b,
{
    let n = crate::resources::num_children_of(g);
    let rec = crate::resources::entry_data_off(g, k + 1) as int;
    &&& 0 <= k < n
    &&& b.index == k
    &&& b.name@ == crate::util::c_string_at(g, crate::resources::entry_string_off(g, k + 1) as int)
    &&& b.transform.e@ == mat_bits_at(g, rec)
    &&& b.children@.len() == be_u32(g, rec + 64)
    &&& children_rel(g, be_u32(g, rec + 68) as int, b.children@)
}

/// The bones of `cs`, in order, are exactly what entries `first` on store.
pub open spec fn children_rel(g: Seq<u8>, first: int, cs: Seq<Bone>) -> bool
    decreases cs,
{
    cs.len() == 0 || (bone_rel(g, first, cs.first()) && children_rel(g, first + 1, cs.drop_first()))
}

proof fn lemma_children_rel_push(g: Seq<u8>, first: int, cs: Seq<Bone>, b: Bone)
    requires
        children_rel(g, first, cs),
        bone_rel(g, first + cs.len(), b),
    ensures
        children_rel(g, first, cs.push(b)),
    decreases cs.len(),
{
    if cs.len() == 0 {
        assert(cs.push(b).first() == b);
        assert(cs.push(b).drop_first() =~= Seq::<Bone>::empty());
        assert(bone_rel(g, first, b));
        assert(children_rel(g, first + 1, cs.push(b).drop_first()));
        assert(children_rel(g, first, cs.push(b)));
    } else {
        assert(cs.push(b).first() == cs.first());
        assert(cs.push(b).drop_first() =~= cs.drop_first().push(b));
        lemma_children_rel_push(g, first + 1, cs.drop_first(), b);
        assert(children_rel(g, first + 1, cs.push(b).drop_first()));
        assert(bone_rel(g, first, cs.push(b).first()));
        assert(children_rel(g, first, cs.push(b)));
    }
}

/// Resolves the bone stored by entry `k` of the bones group, recursing into
/// the entries its child range names.
pub(crate) fn build_bone(g: &[u8], entries: &Vec<Resource>, k: usize) -> (r: Result<Bone, DecodeError>)
    requires
        crate::resources::resources_decoded(g@, entries@),
    ensures
        r is Ok <==> bone_ok(g@, k as int),
        r matches Ok(b) ==> bone_rel(g@, k as int, b),
    decreases entries@.len() - k,
{
    if k >= entries.len() || k > 0xFFFF_FFFFusize {
        return Err(DecodeError { kind: DecodeErrorKind::CorruptContainer, offset: 0 });
    }
    let doff = entries[k].data_offset;
    if doff < 0 {
        return Err(DecodeError { kind: DecodeErrorKind::CorruptContainer, offset: 0 });
    }
    let rec = doff as usize;
    if g.len() < 72 || rec > g.len() - 72 {
        return Err(DecodeError { kind: DecodeErrorKind::OutOfBounds, offset: rec });
    }
    let transform = read_mat16(g, rec);
    let count = match read_u32(g, rec + 64) {
        Ok(v) => v,
        Err(e) => { return Err(e) },
    };
    let first = match read_u32(g, rec + 68) {
        Ok(v) => v,
        Err(e) => { return Err(e) },
    };
    proof {
        assert(crate::resources::resource_matches(g@, k as int + 1, entries@[k as int]));
    }
    let name = entries[k].string.clone();
    if count == 0 {
        let children: Vec<Bone> = Vec::new();
        assert(children@.len() == 0);
        return Ok(Bone { index: k as u32, name, transform, children });
    }
    if first as usize <= k || count as usize > entries.len() || first as usize > entries.len()
        - count as usize {
        return Err(DecodeError { kind: DecodeErrorKind::CorruptContainer, offset: rec + 68 });
    }
    let mut children: Vec<Bone> = Vec::new();
    let mut c: usize = 0;
    while c < count as usize
        invariant
            0 <= c <= count,
            crate::resources::resources_decoded(g@, entries@),
            k < entries@.len(),
            entries@.len() == crate::resources::num_children_of(g@),
            k <= 0xFFFF_FFFF,
            doff >= 0,
            doff == crate::resources::entry_data_off(g@, k as int + 1),
            rec == doff,
            rec + 72 <= g@.len(),
            count == be_u32(g@, rec as int + 64),
            first == be_u32(g@, rec as int + 68),
            count > 0,
            k < first,
            first + count <= entries@.len(),
            children@.len() == c,
            children_rel(g@, first as int, children@),
            range_ok(g@, first as int, c as int),
        decreases count - c,
    {
        let child = match build_bone(g, entries, first as usize + c) {
            Ok(b) => b,
            Err(e) => {
                proof {
                    if bone_ok(g@, k as int) {
                        lemma_range_ok_index(g@, first as int, count as int, c as int);
                    }
                }
                return Err(e);
            },
        };
        proof {
            lemma_children_rel_push(g@, first as int, children@, child);
            lemma_range_ok_push(g@, first as int, c as int);
        }
        children.push(child);
        c += 1;
    }
    let b = Bone { index: k as u32, name, transform, children };
    proof {
        assert(bone_ok(g@, k as int));
        assert(bone_rel(g@, k as int, b));
    }
    Ok(b)
}

/// The resource-list offset slot `i` of the model header.
pub open spec fn list_off(s: Seq<u8>, i: int) -> i32 {
    be_i32(s, 0x10 + 4 * i)
}

/// List slot `i` reads without error: the slot itself lies in the buffer and
/// is zero (no list) or names a well-formed resource group.
pub open spec fn list_ok(s: Seq<u8>, i: int) -> bool {
    &&& 0x10 + 4 * i + 4 <= s.len()
    &&& (list_off(s, i) == 0 || (list_off(s, i) > 0 && list_off(s, i) <= s.len()
        && crate::resources::resources_ok(s.skip(list_off(s, i) as int))))
}

/// `o` is exactly what list slot `i` stores: nothing for a zero offset, else
/// the group's entries.
pub open spec fn opt_list_matches(s: Seq<u8>, i: int, o: Option<Vec<Resource>>) -> bool {
    if list_off(s, i) == 0 {
        o is None
    } else {
        o matches Some(v) && crate::resources::resources_decoded(
            s.skip(list_off(s, i) as int),
            v@,
        )
    }
}

/// Reads the resource list that slot `i` names, if any.
fn read_list(data: &[u8], i: usize) -> (r: Result<Option<Vec<Resource>>, DecodeError>)
    requires
        i <= 16,
    ensures
        r is Ok <==> list_ok(data@, i as int),
        r matches Ok(o) ==> opt_list_matches(data@, i as int, o),
{
    let off = match read_i32(data, 0x10 + 4 * i) {
        Ok(v) => v,
        Err(e) => { return Err(e) },
    };
    if off == 0 {
        return Ok(None);
    }
    if off < 0 || off as usize > data.len() {
        return Err(DecodeError { kind: DecodeErrorKind::CorruptContainer, offset: 0x10 + 4 * i });
    }
    let tail = &data[off as usize..data.len()];
    match resources(tail) {
        Ok(v) => Ok(Some(v)),
        Err(e) => Err(e),
    }
}

/// The byte offset of the properties block for a format version, zero when
/// the version is outside the known set (then there is no block; that is not
/// an error).
pub open spec fn props_offset_of(version: i32) -> int {
    if version == 0x08 || version == 0x09 {
        0x40
    } else if version == 0x0A {
        0x48
    } else if version == 0x0B {
        0x4C
    } else {
        0
    }
}

/// The properties block at `p`, field by field.
pub open spec fn spec_props(s: Seq<u8>, p: int) -> Mdl0Props {
    Mdl0Props {
        header_len: be_u32(s, p),
        mdl0offset: be_i32(s, p + 0x04),
        scaling_rule: be_i32(s, p + 0x08),
        tex_matrix_mode: be_i32(s, p + 0x0c),
        num_vertices: be_i32(s, p + 0x10),
        num_triangles: be_i32(s, p + 0x14),
        orig_path_offset: be_i32(s, p + 0x18),
        num_nodes: be_i32(s, p + 0x1c),
        need_nrm_mtx_array: s[p + 0x20],
        need_tex_mtx_array: s[p + 0x21],
        enable_extents: s[p + 0x22],
        env_mtx_mode: s[p + 0x23],
        data_offset: be_i32(s, p + 0x24),
        extents: MBox {
            min: crate::geom::Vec3 {
                x: be_u32(s, p + 0x28),
                y: be_u32(s, p + 0x2c),
                z: be_u32(s, p + 0x30),
            },
            max: crate::geom::Vec3 {
                x: be_u32(s, p + 0x34),
                y: be_u32(s, p + 0x38),
                z: be_u32(s, p + 0x3c),
            },
        },
    }
}

/// How many resource-list slots the version carries: the newer fur-capable
/// layouts add two.
pub open spec fn num_list_slots(version: i32) -> int {
    if version >= 10 {
        13
    } else {
        11
    }
}

/// A model at the start of `s` decodes without error: the header is
/// readable, the properties block (when the version has one) lies inside the
/// buffer, every named resource list is well formed, and the bone list, when
/// it is not empty, stores a well-formed hierarchy from its first entry.
pub open spec fn mdl0_ok(s: Seq<u8>) -> bool {
    let version = be_i32(s, 8);
    &&& s.len() >= 0x10
    &&& (props_offset_of(version) != 0 ==> props_offset_of(version) + 0x40 <= s.len())
    &&& (forall|i: int| 0 <= i < num_list_slots(version) ==> #[trigger] list_ok(s, i))
    &&& (list_off(s, 1) != 0 ==> (crate::resources::num_children_of(
        s.skip(list_off(s, 1) as int),
    ) > 0 ==> bone_ok(s.skip(list_off(s, 1) as int), 0)))
}

/// `m` is exactly the model stored at the start of `s`.
pub open spec fn mdl0_decoded(s: Seq<u8>, m: Mdl0) -> bool {
    let version = be_i32(s, 8);
    let p = props_offset_of(version);
    let fur = version >= 10;
    let g = s.skip(list_off(s, 1) as int);
    &&& m.version == version
    &&& (p == 0 ==> m.props is None)
    &&& (p != 0 ==> m.props == Some(spec_props(s, p)))
    &&& (list_off(s, 0) == 0 ==> m.definitions is None)
    &&& (list_off(s, 0) != 0 ==> (m.definitions matches Some(d) && crate::resources::resources_decoded(
        s.skip(list_off(s, 0) as int),
        d.resources@,
    )))
    &&& (list_off(s, 1) == 0 ==> m.bones is None && m.root_bone is None)
    &&& (list_off(s, 1) != 0 ==> (m.bones matches Some(bl) && crate::resources::resources_decoded(
        g,
        bl.resources@,
    )))
    &&& (list_off(s, 1) != 0 ==> (if crate::resources::num_children_of(g) == 0 {
        m.root_bone is None
    } else {
        m.root_bone matches Some(b) && bone_rel(g, 0, b)
    }))
    &&& opt_list_matches(s, 2, m.vertices)
    &&& opt_list_matches(s, 3, m.normals)
    &&& opt_list_matches(s, 4, m.colors)
    &&& opt_list_matches(s, 5, m.uv)
    &&& (fur ==> {
        &&& opt_list_matches(s, 6, m.fur_vectors)
        &&& opt_list_matches(s, 7, m.fur_layer_coords)
        &&& opt_list_matches(s, 8, m.materials)
        &&& opt_list_matches(s, 9, m.shaders)
        &&& opt_list_matches(s, 10, m.objects)
        &&& opt_list_matches(s, 11, m.textures)
        &&& opt_list_matches(s, 12, m.palettes)
    })
    &&& (!fur ==> {
        &&& m.fur_vectors is None
        &&& m.fur_layer_coords is None
        &&& opt_list_matches(s, 6, m.materials)
        &&& opt_list_matches(s, 7, m.shaders)
        &&& opt_list_matches(s, 8, m.objects)
        &&& opt_list_matches(s, 9, m.textures)
        &&& opt_list_matches(s, 10, m.palettes)
    })
}

/// Decodes a model container positioned at the start of `data`: the header,
/// the version-dependent properties block, the positionally dispatched
/// resource lists, and the bone hierarchy rooted at the first bone of the
/// bone list.
pub fn mdl0(data: &[u8]) -> (r: Result<Mdl0, DecodeError>)
    ensures
        r is Ok <==> mdl0_ok(data@),
        r matches Ok(m) ==> mdl0_decoded(data@, m),
{
    let _size = match read_i32(data, 0x4) {
        Ok(v) => v,
        Err(e) => { return Err(e) },
    };
    let version = match read_i32(data, 0x8) {
        Ok(v) => v,
        Err(e) => { return Err(e) },
    };
    let _bres_offset = match read_i32(data, 0xc) {
        Ok(v) => v,
        Err(e) => { return Err(e) },
    };
    let props_offset: usize = if version == 0x08 || version == 0x09 {
        0x40
    } else if version == 0x0A {
        0x48
    } else if version == 0x0B {
        0x4C
    } else {
        0
    };
    let props = if props_offset == 0 {
        None
    } else {
        let p = props_offset;
        let header_len = match read_u32(data, p) {
            Ok(v) => v,
            Err(e) => { return Err(e) },
        };
        // The block ends with the extents at p + 0x3c; one bounds test covers
        // every remaining field.
        if data.len() < p + 0x40 {
            return Err(DecodeError { kind: DecodeErrorKind::OutOfBounds, offset: p });
        }
        let mdl0offset = match read_i32(data, p + 0x04) {
            Ok(v) => v,
            Err(e) => { return Err(e) },
        };
        let scaling_rule = match read_i32(data, p + 0x08) {
            Ok(v) => v,
            Err(e) => { return Err(e) },
        };
        let tex_matrix_mode = match read_i32(data, p + 0x0c) {
            Ok(v) => v,
            Err(e) => { return Err(e) },
        };
        let num_vertices = match read_i32(data, p + 0x10) {
            Ok(v) => v,
            Err(e) => { return Err(e) },
        };
        let num_triangles = match read_i32(data, p + 0x14) {
            Ok(v) => v,
            Err(e) => { return Err(e) },
        };
        let orig_path_offset = match read_i32(data, p + 0x18) {
            Ok(v) => v,
            Err(e) => { return Err(e) },
        };
        let num_nodes = match read_i32(data, p + 0x1c) {
            Ok(v) => v,
            Err(e) => { return Err(e) },
        };
        let need_nrm_mtx_array = match read_u8(data, p + 0x20) {
            Ok(v) => v,
            Err(e) => { return Err(e) },
        };
        let need_tex_mtx_array = match read_u8(data, p + 0x21) {
            Ok(v) => v,
            Err(e) => { return Err(e) },
        };
        let enable_extents = match read_u8(data, p + 0x22) {
            Ok(v) => v,
            Err(e) => { return Err(e) },
        };
        let env_mtx_mode = match read_u8(data, p + 0x23) {
            Ok(v) => v,
            Err(e) => { return Err(e) },
        };
        let data_offset = match read_i32(data, p + 0x24) {
            Ok(v) => v,
            Err(e) => { return Err(e) },
        };
        let min = crate::geom::Vec3 {
            x: match read_u32(data, p + 0x28) {
                Ok(v) => v,
                Err(e) => { return Err(e) },
            },
            y: match read_u32(data, p + 0x2c) {
                Ok(v) => v,
                Err(e) => { return Err(e) },
            },
            z: match read_u32(data, p + 0x30) {
                Ok(v) => v,
                Err(e) => { return Err(e) },
            },
        };
        let max = crate::geom::Vec3 {
            x: match read_u32(data, p + 0x34) {
                Ok(v) => v,
                Err(e) => { return Err(e) },
            },
            y: match read_u32(data, p + 0x38) {
                Ok(v) => v,
                Err(e) => { return Err(e) },
            },
            z: match read_u32(data, p + 0x3c) {
                Ok(v) => v,
                Err(e) => { return Err(e) },
            },
        };
        Some(
            Mdl0Props {
                header_len,
                mdl0offset,
                scaling_rule,
                tex_matrix_mode,
                num_vertices,
                num_triangles,
                orig_path_offset,
                num_nodes,
                need_nrm_mtx_array,
                need_tex_mtx_array,
                enable_extents,
                env_mtx_mode,
                data_offset,
                extents: MBox { min, max },
            },
        )
    };
    let definitions_list = match read_list(data, 0) {
        Ok(v) => v,
        Err(e) => { return Err(e) },
    };
    let bones_list = match read_list(data, 1) {
        Ok(v) => v,
        Err(e) => { return Err(e) },
    };
    let vertices = match read_list(data, 2) {
        Ok(v) => v,
        Err(e) => { return Err(e) },
    };
    let normals = match read_list(data, 3) {
        Ok(v) => v,
        Err(e) => { return Err(e) },
    };
    let colors = match read_list(data, 4) {
        Ok(v) => v,
        Err(e) => { return Err(e) },
    };
    let uv = match read_list(data, 5) {
        Ok(v) => v,
        Err(e) => { return Err(e) },
    };
    let fur = version >= 10;
    let mut fur_vectors: Option<Vec<Resource>> = None;
    let mut fur_layer_coords: Option<Vec<Resource>> = None;
    let materials: Option<Vec<Resource>>;
    let shaders: Option<Vec<Resource>>;
    let objects: Option<Vec<Resource>>;
    let textures: Option<Vec<Resource>>;
    let palettes: Option<Vec<Resource>>;
    if fur {
        fur_vectors = match read_list(data, 6) {
            Ok(v) => v,
            Err(e) => { return Err(e) },
        };
        fur_layer_coords = match read_list(data, 7) {
            Ok(v) => v,
            Err(e) => { return Err(e) },
        };
        materials = match read_list(data, 8) {
            Ok(v) => v,
            Err(e) => { return Err(e) },
        };
        shaders = match read_list(data, 9) {
            Ok(v) => v,
            Err(e) => { return Err(e) },
        };
        objects = match read_list(data, 10) {
            Ok(v) => v,
            Err(e) => { return Err(e) },
        };
        textures = match read_list(data, 11) {
            Ok(v) => v,
            Err(e) => { return Err(e) },
        };
        palettes = match read_list(data, 12) {
            Ok(v) => v,
            Err(e) => { return Err(e) },
        };
    } else {
        materials = match read_list(data, 6) {
            Ok(v) => v,
            Err(e) => { return Err(e) },
        };
        shaders = match read_list(data, 7) {
            Ok(v) => v,
            Err(e) => { return Err(e) },
        };
        objects = match read_list(data, 8) {
            Ok(v) => v,
            Err(e) => { return Err(e) },
        };
        textures = match read_list(data, 9) {
            Ok(v) => v,
            Err(e) => { return Err(e) },
        };
        palettes = match read_list(data, 10) {
            Ok(v) => v,
            Err(e) => { return Err(e) },
        };
    }
    let bones: Option<Mdl0Bones>;
    let root_bone: Option<Bone>;
    match bones_list {
        None => {
            bones = None;
            root_bone = None;
        },
        Some(entries) => {
            let boff = match read_i32(data, 0x14) {
                Ok(v) => v,
                Err(e) => { return Err(e) },
            };
            let g = &data[boff as usize..data.len()];
            proof {
                assert(g@ =~= data@.skip(list_off(data@, 1) as int));
            }
            if entries.len() == 0 {
                root_bone = None;
            } else {
                let root = match build_bone(g, &entries, 0) {
                    Ok(b) => b,
                    Err(e) => { return Err(e) },
                };
                root_bone = Some(root);
            }
            bones = Some(Mdl0Bones { resources: entries });
        },
    }
    Ok(
        Mdl0 {
            version,
            props,
            definitions: match definitions_list {
                None => None,
                Some(v) => Some(Mdl0Definitions { resources: v }),
            },
            bones,
            root_bone,
            vertices,
            normals,
            colors,
            uv,
            fur_vectors,
            fur_layer_coords,
            materials,
            shaders,
            objects,
            textures,
            palettes,
        },
    )
}

} // verus!
