//! Decoder for nested named-resource-tree containers and for the animation
//! containers they carry, together with the animation's frame semantics:
//! which transform a named bone has at a given frame, with looping animations
//! reducing the frame modulo the frame count and non-looping ones clamping to
//! the last frame.

use crate::DecodeError;
use crate::DecodeErrorKind;
use crate::bytes::be_i32;
use crate::geom::Mat4;
use crate::geom::identity_bits;
use crate::geom::identity_matrix;
use crate::mdl0::Mdl0;
use vstd::arithmetic::div_mod::lemma_mod_multiples_vanish;
use vstd::prelude::*;

verus! {

/// A resource-tree container: a list of named children, each an animation, a
/// model, a nested container, or an unrecognized payload kept by its tag.
#[derive(Debug)]
pub struct Bres {
    pub children: Vec<BresChild>,
}

/// One named child of a resource-tree container, with the offsets its group
/// node stored.
#[derive(Debug)]
pub struct BresChild {
    pub string_offset: i32,
    pub data_offset: i32,
    pub name: String,
    pub data: BresChildData,
}

/// The payload of a resource-tree child, dispatched by its four-byte tag.
#[derive(Debug)]
pub enum BresChildData {
    Chr0(Chr0),
    Mdl0(Mdl0),
    Bres(Box<Bres>),
    Unknown(String),
}

/// The keyframe data of one animation track. A track may carry no payload
/// (the bone holds its bind pose), one fixed transform, or one transform per
/// frame.
#[derive(Debug)]
pub enum Chr0Track {
    NoData,
    Fixed(Mat4),
    Keyed(Vec<Mat4>),
}

/// One per-bone track of an animation: the name of the bone it moves and its
/// keyframe data.
#[derive(Debug)]
pub struct Chr0Child {
    pub string_offset: i32,
    pub data_offset: i32,
    pub name: String,
    pub track: Chr0Track,
}

/// A named animation: a frame count, a looping flag, and one track per bone
/// that moves.
#[derive(Debug)]
pub struct Chr0 {
    pub name: String,
    pub size: i32,
    pub version: i32,
    pub bres_offset: i32,
    pub string_offset: i32,
    pub orig_path_offset: i32,
    pub num_frames: u16,
    pub num_children: u16,
    pub loop_value: bool,
    pub scaling_rule: i32,
    pub children: Vec<Chr0Child>,
}

/// The frame an animation actually samples: looping animations reduce the
/// frame modulo the frame count, non-looping ones clamp past the end to the
/// last frame. An animation of no frames samples frame zero.
pub open spec fn reduced_frame(num_frames: u16, looping: bool, frame: int) -> int {
    if num_frames == 0 {
        0
    } else if looping {
        frame % (num_frames as int)
    } else if frame >= num_frames as int {
        num_frames as int - 1
    } else {
        frame
    }
}

/// The first track whose bone name matches, if any: a bone with several
/// tracks is driven by the first in container order.
pub open spec fn track_of(children: Seq<Chr0Child>, name: Seq<char>) -> Option<Chr0Child>
    decreases children.len(),
{
    if children.len() == 0 {
        None
    } else if children.first().name@ == name {
        Some(children.first())
    } else {
        track_of(children.drop_first(), name)
    }
}

/// The transform a track yields at a reduced frame index. A track without
/// payload yields the identity; a keyed track past its last key holds it.
pub open spec fn track_matrix(track: Chr0Track, idx: int) -> Seq<u32> {
    match track {
        Chr0Track::NoData => identity_bits(),
        Chr0Track::Fixed(m) => m.e@,
        Chr0Track::Keyed(v) => if v@.len() == 0 {
            identity_bits()
        } else if idx >= v@.len() {
            v@[v@.len() - 1].e@
        } else {
            v@[idx].e@
        },
    }
}

/// The transform of the named bone at a frame: the identity when no track
/// moves the bone (a valid, common case, not an error), else the matching
/// track sampled at the reduced frame.
pub open spec fn spec_bone_transform(c: Chr0, name: Seq<char>, frame: int) -> Seq<u32> {
    match track_of(c.children@, name) {
        Option::None => identity_bits(),
        Option::Some(ch) => track_matrix(ch.track, reduced_frame(c.num_frames, c.loop_value, frame)),
    }
}

proof fn lemma_track_of_skip(children: Seq<Chr0Child>, name: Seq<char>, i: int)
    requires
        0 <= i <= children.len(),
        forall|j: int| 0 <= j < i ==> children[j].name@ != name,
    ensures
        track_of(children, name) == track_of(children.skip(i), name),
    decreases i,
{
    if i > 0 {
        assert(forall|j: int| #![auto]
            0 <= j < i - 1 ==> children.drop_first()[j] == children[j + 1]);
        lemma_track_of_skip(children.drop_first(), name, i - 1);
        assert(children.drop_first().skip(i - 1) =~= children.skip(i));
    } else {
        assert(children.skip(0) =~= children);
    }
}

impl Chr0 {
    /// The transform of the named bone at `frame`, per the animation's loop
    /// semantics.
    pub fn bone_transform(&self, bone_name: &String, frame: u32) -> (r: Mat4)
        ensures
            r.e@ == spec_bone_transform(*self, bone_name@, frame as int),
    {
        let mut i: usize = 0;
        while i < self.children.len()
            invariant
                0 <= i <= self.children@.len(),
                forall|j: int| 0 <= j < i ==> self.children@[j].name@ != bone_name@,
            decreases self.children@.len() - i,
        {
            if self.children[i].name == *bone_name {
                proof {
                    lemma_track_of_skip(self.children@, bone_name@, i as int);
                    assert(self.children@.skip(i as int).first() == self.children@[i as int]);
                }
                let idx = self.reduced_frame_exec(frame);
                return match &self.children[i].track {
                    Chr0Track::NoData => identity_matrix(),
                    Chr0Track::Fixed(m) => *m,
                    Chr0Track::Keyed(v) => {
                        if v.len() == 0 {
                            identity_matrix()
                        } else if idx >= v.len() {
                            v[v.len() - 1]
                        } else {
                            v[idx]
                        }
                    },
                };
            }
            i += 1;
        }
        proof {
            lemma_track_of_skip(self.children@, bone_name@, i as int);
            assert(self.children@.skip(i as int) =~= Seq::empty());
        }
        identity_matrix()
    }

    /// The frame the animation samples for a requested frame.
    pub fn reduced_frame_exec(&self, frame: u32) -> (r: usize)
        ensures
            r == reduced_frame(self.num_frames, self.loop_value, frame as int),
    {
        if self.num_frames == 0 {
            0
        } else if self.loop_value {
            (frame % (self.num_frames as u32)) as usize
        } else if frame >= self.num_frames as u32 {
            (self.num_frames - 1) as usize
        } else {
            frame as usize
        }
    }
}

/// A non-looping animation clamps: every frame from the last one on yields
/// the very transform of the last frame, for every bone.
pub proof fn lemma_bone_transform_clamps(c: Chr0, name: Seq<char>, frame: int)
    requires
        !c.loop_value,
        c.num_frames > 0,
        frame >= c.num_frames as int - 1,
    ensures
        spec_bone_transform(c, name, frame) == spec_bone_transform(c, name, c.num_frames as int - 1),
{
}

/// A looping animation is periodic: a frame and the same frame any whole
/// number of loops later yield the very same transform, for every bone.
pub proof fn lemma_bone_transform_periodic(c: Chr0, name: Seq<char>, frame: int, k: int)
    requires
        c.loop_value,
        c.num_frames > 0,
        frame >= 0,
        k >= 0,
    ensures
        spec_bone_transform(c, name, frame + k * c.num_frames) == spec_bone_transform(
            c,
            name,
            frame,
        ),
{
    lemma_mod_multiples_vanish(k, frame, c.num_frames as int);
    assert((c.num_frames as int) * k + frame == frame + k * c.num_frames) by {
        vstd::arithmetic::mul::lemma_mul_is_commutative(c.num_frames as int, k);
    }
}

/// The tag bytes of an animation container.
pub open spec fn is_chr0_tag(t: Seq<u8>) -> bool {
    t.len() == 4 && t[0] == 0x43 && t[1] == 0x48 && t[2] == 0x52 && t[3] == 0x30
}

/// The tag bytes of a model container.
pub open spec fn is_mdl0_tag(t: Seq<u8>) -> bool {
    t.len() == 4 && t[0] == 0x4D && t[1] == 0x44 && t[2] == 0x4C && t[3] == 0x30
}

/// "No tag": the payload starts with a non-printable byte, which marks a
/// nested container.
pub open spec fn no_tag(t: Seq<u8>) -> bool {
    t.len() == 4 && !crate::bytes::printable(t[0])
}

/// The track record of group node `i` lies inside the group slice and, when
/// it is a static track (keyframe count one), its fixed transform does too.
pub open spec fn chr0_track_ok(g: Seq<u8>, i: int) -> bool {
    let doff = crate::resources::entry_data_off(g, i) as int;
    &&& doff >= 0
    &&& doff + 4 <= g.len()
    &&& (crate::bytes::be_u32(g, doff) == 1 ==> doff + 4 + 64 <= g.len())
}

/// An animation container at the start of `s` decodes without error: the
/// header is readable, the version is the one supported value, the name
/// string resolves, the track group is well formed, and every track record is
/// readable.
pub open spec fn chr0_ok(s: Seq<u8>) -> bool {
    let ro = be_i32(s, 0x10) as int;
    &&& s.len() >= 0x28
    &&& be_i32(s, 8) == 4
    &&& be_i32(s, 0x14) >= 0
    &&& crate::util::c_string_ok(s, be_i32(s, 0x14) as int)
    &&& be_i32(s, 0x10) >= 0
    &&& be_i32(s, 0x10) <= s.len()
    &&& crate::resources::resources_ok(s.skip(ro))
    &&& (forall|i: int|
        1 <= i <= crate::resources::num_children_of(s.skip(ro)) ==> #[trigger] chr0_track_ok(
            s.skip(ro),
            i,
        ))
}

/// One decoded track carries exactly what its group node stores. A record
/// whose keyframe count is one is a static bone and yields its fixed
/// transform; any other count names an interpolated keyframe table, whose
/// evaluation is floating-point interpolation and is not performed here, so
/// such a track carries no data and the bone holds its bind pose.
pub open spec fn chr0_child_matches(g: Seq<u8>, i: int, c: Chr0Child) -> bool {
    let doff = crate::resources::entry_data_off(g, i) as int;
    &&& c.string_offset == crate::resources::entry_string_off(g, i)
    &&& c.data_offset == crate::resources::entry_data_off(g, i)
    &&& c.name@ == crate::util::c_string_at(g, crate::resources::entry_string_off(g, i) as int)
    &&& if crate::bytes::be_u32(g, doff) == 1 {
        c.track matches Chr0Track::Fixed(m) && m.e@ == crate::mdl0::mat_bits_at(g, doff + 4)
    } else {
        c.track is NoData
    }
}

/// `c` is exactly the animation stored at the start of `s`.
pub open spec fn chr0_decoded(s: Seq<u8>, c: Chr0) -> bool {
    let ro = be_i32(s, 0x10) as int;
    &&& c.name@ == crate::util::c_string_at(s, be_i32(s, 0x14) as int)
    &&& c.size == be_i32(s, 0x4)
    &&& c.version == be_i32(s, 0x8)
    &&& c.bres_offset == be_i32(s, 0xc)
    &&& c.string_offset == be_i32(s, 0x14)
    &&& c.orig_path_offset == be_i32(s, 0x18)
    &&& c.num_frames == crate::bytes::be_u16(s, 0x1c)
    &&& c.num_children == crate::bytes::be_u16(s, 0x1e)
    &&& c.loop_value == (be_i32(s, 0x20) != 0)
    &&& c.scaling_rule == be_i32(s, 0x24)
    &&& c.children@.len() == crate::resources::num_children_of(s.skip(ro))
    &&& forall|k: int|
        0 <= k < c.children@.len() ==> chr0_child_matches(s.skip(ro), k + 1, #[trigger] c.children@[k])
}

/// Decodes an animation container positioned at the start of `data`. Only the
/// one known format version is accepted; guessing at another would silently
/// misread every offset after the header.
pub fn chr0(data: &[u8]) -> (r: Result<Chr0, DecodeError>)
    ensures
        r is Ok <==> chr0_ok(data@),
        r matches Ok(c) ==> chr0_decoded(data@, c),
        data@.len() >= 0x28 && be_i32(data@, 8) != 4 ==> r == Err::<Chr0, DecodeError>(
            DecodeError { kind: DecodeErrorKind::UnsupportedVersion, offset: 0x8 },
        ),
{
    if data.len() < 0x28 {
        return Err(DecodeError { kind: DecodeErrorKind::OutOfBounds, offset: 0 });
    }
    let size = match crate::bytes::read_i32(data, 0x4) {
        Ok(v) => v,
        Err(e) => { return Err(e) },
    };
    let version = match crate::bytes::read_i32(data, 0x8) {
        Ok(v) => v,
        Err(e) => { return Err(e) },
    };
    let bres_offset = match crate::bytes::read_i32(data, 0xc) {
        Ok(v) => v,
        Err(e) => { return Err(e) },
    };
    let resources_offset = match crate::bytes::read_i32(data, 0x10) {
        Ok(v) => v,
        Err(e) => { return Err(e) },
    };
    let string_offset = match crate::bytes::read_i32(data, 0x14) {
        Ok(v) => v,
        Err(e) => { return Err(e) },
    };
    let orig_path_offset = match crate::bytes::read_i32(data, 0x18) {
        Ok(v) => v,
        Err(e) => { return Err(e) },
    };
    let num_frames = match crate::bytes::read_u16(data, 0x1c) {
        Ok(v) => v,
        Err(e) => { return Err(e) },
    };
    let num_children = match crate::bytes::read_u16(data, 0x1e) {
        Ok(v) => v,
        Err(e) => { return Err(e) },
    };
    let loop_value = match crate::bytes::read_i32(data, 0x20) {
        Ok(v) => v,
        Err(e) => { return Err(e) },
    };
    let scaling_rule = match crate::bytes::read_i32(data, 0x24) {
        Ok(v) => v,
        Err(e) => { return Err(e) },
    };
    if version != 4 {
        return Err(DecodeError { kind: DecodeErrorKind::UnsupportedVersion, offset: 0x8 });
    }
    if string_offset < 0 {
        return Err(DecodeError { kind: DecodeErrorKind::CorruptContainer, offset: 0x14 });
    }
    let name = match crate::util::read_c_string(data, string_offset as usize) {
        Ok(v) => v.to_owned(),
        Err(e) => { return Err(e) },
    };
    if resources_offset < 0 || resources_offset as usize > data.len() {
        return Err(DecodeError { kind: DecodeErrorKind::CorruptContainer, offset: 0x10 });
    }
    let group = &data[resources_offset as usize..data.len()];
    let entries = match crate::resources::resources(group) {
        Ok(v) => v,
        Err(e) => { return Err(e) },
    };
    let mut children: Vec<Chr0Child> = Vec::new();
    let mut i: usize = 0;
    while i < entries.len()
        invariant
            0 <= i <= entries@.len(),
            data@.len() >= 0x28,
            be_i32(data@, 8) == 4,
            be_i32(data@, 0x14) >= 0,
            crate::util::c_string_ok(data@, be_i32(data@, 0x14) as int),
            resources_offset >= 0,
            resources_offset <= data@.len(),
            resources_offset == be_i32(data@, 0x10),
            crate::resources::resources_ok(group@),
            crate::resources::resources_decoded(group@, entries@),
            entries@.len() == crate::resources::num_children_of(group@),
            group@ == data@.skip(resources_offset as int),
            group@.len() <= usize::MAX,
            children@.len() == i,
            forall|k: int|
                0 <= k < i ==> chr0_child_matches(group@, k + 1, #[trigger] children@[k]),
            forall|k: int| 1 <= k <= i ==> #[trigger] chr0_track_ok(group@, k),
        decreases entries@.len() - i,
    {
        proof {
            assert(crate::resources::resource_matches(group@, i as int + 1, entries@[i as int]));
        }
        let doff = entries[i].data_offset;
        if doff < 0 {
            assert(!chr0_track_ok(group@, i as int + 1));
            return Err(DecodeError { kind: DecodeErrorKind::CorruptContainer, offset: 0x10 });
        }
        let rec = doff as usize;
        let count = match crate::bytes::read_u32(group, rec) {
            Ok(v) => v,
            Err(e) => {
                assert(!chr0_track_ok(group@, i as int + 1));
                return Err(e);
            },
        };
        let track = if count == 1 {
            if rec + 4 > group.len() || group.len() - (rec + 4) < 64 {
                assert(!chr0_track_ok(group@, i as int + 1));
                return Err(DecodeError { kind: DecodeErrorKind::OutOfBounds, offset: rec });
            }
            Chr0Track::Fixed(crate::mdl0::read_mat16(group, rec + 4))
        } else {
            Chr0Track::NoData
        };
        children.push(
            Chr0Child {
                string_offset: entries[i].string_offset,
                data_offset: doff,
                name: entries[i].string.clone(),
                track,
            },
        );
        i += 1;
    }
    Ok(
        Chr0 {
            name,
            size,
            version,
            bres_offset,
            string_offset,
            orig_path_offset,
            num_frames,
            num_children,
            loop_value: loop_value != 0,
            scaling_rule,
            children,
        },
    )
}

/// The non-negative entry count of the group at offset 8 of `g`, for
/// termination measures.
pub open spec fn group_n(g: Seq<u8>) -> int {
    let n = crate::resources::num_children_of(g.skip(8));
    if n >= 0 {
        n
    } else {
        0
    }
}

/// A resource-tree container body at the start of `g` decodes without error:
/// its group (at offset 8) is well formed and every child's payload decodes
/// under its tag. A nested container must stand at a positive offset, else
/// the structure would contain itself.
pub open spec fn bres_group_ok(g: Seq<u8>) -> bool
    decreases g.len(), group_n(g) + 2,
{
    &&& g.len() >= 8
    &&& crate::resources::resources_ok(g.skip(8))
    &&& bres_children_ok(g, 1, crate::resources::num_children_of(g.skip(8)))
}

/// Children `i .. i + cnt` (as group node indexes) all decode without error.
pub open spec fn bres_children_ok(g: Seq<u8>, i: int, cnt: int) -> bool
    decreases g.len(), (if cnt >= 0 { cnt } else { 0 }),
{
    if cnt <= 0 {
        true
    } else {
        let doff = crate::resources::entry_data_off(g.skip(8), i) as int;
        let child_ok = {
            &&& doff >= 0
            &&& 8 + doff + 4 <= g.len()
            &&& {
                let t = crate::bytes::tag4(g.skip(8 + doff));
                if is_chr0_tag(t) {
                    chr0_ok(g.skip(8 + doff))
                } else if is_mdl0_tag(t) {
                    crate::mdl0::mdl0_ok(g.skip(8 + doff))
                } else if no_tag(t) {
                    doff > 0 && bres_group_ok(g.skip(doff))
                } else {
                    true
                }
            }
        };
        child_ok && bres_children_ok(g, i + 1, cnt - 1)
    }
}

/// `c` is exactly child `i` (as a group node index) of the container at the
/// start of `g`: the node's offsets and name, and the payload its tag selects.
pub open spec fn bres_child_rel(g: Seq<u8>, i: int, c: BresChild) -> bool
    decreases c,
{
    let e8 = g.skip(8);
    let doff = crate::resources::entry_data_off(e8, i) as int;
    let t = crate::bytes::tag4(g.skip(8 + doff));
    &&& c.string_offset == crate::resources::entry_string_off(e8, i)
    &&& c.data_offset == crate::resources::entry_data_off(e8, i)
    &&& c.name@ == crate::util::c_string_at(e8, crate::resources::entry_string_off(e8, i) as int)
    &&& if is_chr0_tag(t) {
        c.data matches BresChildData::Chr0(ch) && chr0_decoded(g.skip(8 + doff), ch)
    } else if is_mdl0_tag(t) {
        c.data matches BresChildData::Mdl0(m) && crate::mdl0::mdl0_decoded(g.skip(8 + doff), m)
    } else if no_tag(t) {
        c.data matches BresChildData::Bres(bb) && bres_group_rel(g.skip(doff), *bb)
    } else {
        c.data matches BresChildData::Unknown(ts) && ts@ == crate::util::tag_string_chars(t)
    }
}

/// The children of `cs`, in order, are exactly what group nodes `i` on store.
pub open spec fn bres_children_rel(g: Seq<u8>, i: int, cs: Seq<BresChild>) -> bool
    decreases cs,
{
    cs.len() == 0 || (bres_child_rel(g, i, cs.first()) && bres_children_rel(
        g,
        i + 1,
        cs.drop_first(),
    ))
}

/// `b` is exactly the container body stored at the start of `g`.
pub open spec fn bres_group_rel(g: Seq<u8>, b: Bres) -> bool
    decreases b,
{
    &&& b.children@.len() == crate::resources::num_children_of(g.skip(8))
    &&& bres_children_rel(g, 1, b.children@)
}

proof fn lemma_bres_children_rel_push(g: Seq<u8>, i: int, cs: Seq<BresChild>, c: BresChild)
    requires
        bres_children_rel(g, i, cs),
        bres_child_rel(g, i + cs.len(), c),
    ensures
        bres_children_rel(g, i, cs.push(c)),
    decreases cs.len(),
{
    if cs.len() == 0 {
        assert(cs.push(c).first() == c);
        assert(cs.push(c).drop_first() =~= Seq::<BresChild>::empty());
        assert(bres_children_rel(g, i + 1, cs.push(c).drop_first()));
    } else {
        assert(cs.push(c).first() == cs.first());
        assert(cs.push(c).drop_first() =~= cs.drop_first().push(c));
        lemma_bres_children_rel_push(g, i + 1, cs.drop_first(), c);
        assert(bres_children_rel(g, i + 1, cs.push(c).drop_first()));
    }
}

proof fn lemma_bres_children_ok_push(g: Seq<u8>, i: int, cnt: int)
    requires
        cnt >= 0,
        bres_children_ok(g, i, cnt),
        bres_children_ok(g, i + cnt, 1),
    ensures
        bres_children_ok(g, i, cnt + 1),
    decreases cnt,
{
    if cnt > 0 {
        lemma_bres_children_ok_push(g, i + 1, cnt - 1);
    }
}

proof fn lemma_bres_children_ok_index(g: Seq<u8>, i: int, cnt: int, j: int)
    requires
        bres_children_ok(g, i, cnt),
        0 <= j < cnt,
    ensures
        bres_children_ok(g, i + j, 1),
    decreases j,
{
    if j == 0 {
        assert(bres_children_ok(g, i + 1, 0));
    } else {
        lemma_bres_children_ok_index(g, i + 1, cnt - 1, j - 1);
    }
}

/// Decodes a resource-tree container body whose group sits at offset 8 of
/// `g`, recursing into nested containers and dispatching each child's payload
/// by the four tag bytes at its data offset.
pub fn bres_group(g: &[u8]) -> (r: Result<Bres, DecodeError>)
    ensures
        r is Ok <==> bres_group_ok(g@),
        r matches Ok(b) ==> bres_group_rel(g@, b),
    decreases g@.len(),
{
    if g.len() < 8 {
        return Err(DecodeError { kind: DecodeErrorKind::OutOfBounds, offset: 0 });
    }
    let grp = &g[8..g.len()];
    proof {
        assert(grp@ =~= g@.skip(8));
    }
    let entries = match crate::resources::resources(grp) {
        Ok(v) => v,
        Err(e) => { return Err(e) },
    };
    let mut children: Vec<BresChild> = Vec::new();
    let mut i: usize = 0;
    while i < entries.len()
        invariant
            0 <= i <= entries@.len(),
            g@.len() >= 8,
            crate::resources::resources_decoded(g@.skip(8), entries@),
            crate::resources::resources_ok(g@.skip(8)),
            entries@.len() == crate::resources::num_children_of(g@.skip(8)),
            children@.len() == i,
            bres_children_rel(g@, 1, children@),
            bres_children_ok(g@, 1, i as int),
        decreases entries@.len() - i,
    {
        proof {
            assert(crate::resources::resource_matches(g@.skip(8), i as int + 1, entries@[i as int]));
        }
        let doff = entries[i].data_offset;
        if doff < 0 {
            proof {
                assert(!bres_children_ok(g@, 1 + i, 1));
                if bres_group_ok(g@) {
                    lemma_bres_children_ok_index(
                        g@,
                        1,
                        crate::resources::num_children_of(g@.skip(8)),
                        i as int,
                    );
                }
            }
            return Err(DecodeError { kind: DecodeErrorKind::CorruptContainer, offset: 8 });
        }
        if doff as usize > g.len() - 8 - 4 || g.len() < 12 {
            proof {
                assert(!bres_children_ok(g@, 1 + i, 1));
                if bres_group_ok(g@) {
                    lemma_bres_children_ok_index(
                        g@,
                        1,
                        crate::resources::num_children_of(g@.skip(8)),
                        i as int,
                    );
                }
            }
            return Err(DecodeError { kind: DecodeErrorKind::OutOfBounds, offset: 8 });
        }
        let cd = &g[8 + doff as usize..g.len()];
        proof {
            assert(cd@ =~= g@.skip(8 + doff as int));
        }
        let t = match crate::bytes::parse_tag(cd) {
            Ok(v) => v,
            Err(e) => { return Err(e) },
        };
        proof {
            assert(t@ =~= crate::bytes::tag4(g@.skip(8 + doff as int)));
        }
        let data = if t[0] == 0x43 && t[1] == 0x48 && t[2] == 0x52 && t[3] == 0x30 {
            // "CHR0"
            match chr0(cd) {
                Ok(c) => BresChildData::Chr0(c),
                Err(e) => {
                    proof {
                        assert(!bres_children_ok(g@, 1 + i, 1));
                        if bres_group_ok(g@) {
                            lemma_bres_children_ok_index(
                                g@,
                                1,
                                crate::resources::num_children_of(g@.skip(8)),
                                i as int,
                            );
                        }
                    }
                    return Err(e);
                },
            }
        } else if t[0] == 0x4D && t[1] == 0x44 && t[2] == 0x4C && t[3] == 0x30 {
            // "MDL0"
            match crate::mdl0::mdl0(cd) {
                Ok(m) => BresChildData::Mdl0(m),
                Err(e) => {
                    proof {
                        assert(!bres_children_ok(g@, 1 + i, 1));
                        if bres_group_ok(g@) {
                            lemma_bres_children_ok_index(
                                g@,
                                1,
                                crate::resources::num_children_of(g@.skip(8)),
                                i as int,
                            );
                        }
                    }
                    return Err(e);
                },
            }
        } else if !(0x21 <= t[0] && t[0] <= 0x7E) {
            // No tag at all: a nested container.
            if doff == 0 {
                proof {
                    assert(!bres_children_ok(g@, 1 + i, 1));
                    if bres_group_ok(g@) {
                        lemma_bres_children_ok_index(
                            g@,
                            1,
                            crate::resources::num_children_of(g@.skip(8)),
                            i as int,
                        );
                    }
                }
                return Err(DecodeError { kind: DecodeErrorKind::CorruptContainer, offset: 8 });
            }
            let nested_slice = &g[doff as usize..g.len()];
            proof {
                assert(nested_slice@ =~= g@.skip(doff as int));
            }
            match bres_group(nested_slice) {
                Ok(b) => BresChildData::Bres(Box::new(b)),
                Err(e) => {
                    proof {
                        assert(!bres_children_ok(g@, 1 + i, 1));
                        if bres_group_ok(g@) {
                            lemma_bres_children_ok_index(
                                g@,
                                1,
                                crate::resources::num_children_of(g@.skip(8)),
                                i as int,
                            );
                        }
                    }
                    return Err(e);
                },
            }
        } else {
            BresChildData::Unknown(crate::util::tag_to_string(&t))
        };
        let child = BresChild {
            string_offset: entries[i].string_offset,
            data_offset: doff,
            name: entries[i].string.clone(),
            data,
        };
        proof {
            assert(bres_child_rel(g@, 1 + i, child));
            lemma_bres_children_rel_push(g@, 1, children@, child);
            assert(bres_children_ok(g@, 2 + i, 0));
            assert(bres_children_ok(g@, 1 + i, 1));
            lemma_bres_children_ok_push(g@, 1, i as int);
        }
        children.push(child);
        i += 1;
    }
    let b = Bres { children };
    proof {
        assert(bres_group_ok(g@));
        assert(bres_group_rel(g@, b));
    }
    Ok(b)
}

/// A full resource-tree container at the start of `s` decodes without error:
/// the root offset is readable and the body it names is well formed.
pub open spec fn bres_ok(s: Seq<u8>) -> bool {
    &&& s.len() >= 0xe
    &&& crate::bytes::be_u16(s, 0xc) <= s.len()
    &&& bres_group_ok(s.skip(crate::bytes::be_u16(s, 0xc) as int))
}

/// `b` is exactly the container stored at the start of `s`.
pub open spec fn bres_decoded(s: Seq<u8>, b: Bres) -> bool {
    bres_group_rel(s.skip(crate::bytes::be_u16(s, 0xc) as int), b)
}

/// Decodes a resource-tree container positioned at the start of `data`: the
/// root offset at 0xc selects the first group, whose children recursively
/// carry animations, models, and nested containers.
pub fn bres(data: &[u8]) -> (r: Result<Bres, DecodeError>)
    ensures
        r is Ok <==> bres_ok(data@),
        r matches Ok(b) ==> bres_decoded(data@, b),
{
    let root_offset = match crate::bytes::read_u16(data, 0xc) {
        Ok(v) => v,
        Err(e) => { return Err(e) },
    };
    if root_offset as usize > data.len() {
        return Err(DecodeError { kind: DecodeErrorKind::OutOfBounds, offset: 0xc });
    }
    let body = &data[root_offset as usize..data.len()];
    proof {
        assert(body@ =~= data@.skip(crate::bytes::be_u16(data@, 0xc) as int));
    }
    bres_group(body)
}

} // verus!
