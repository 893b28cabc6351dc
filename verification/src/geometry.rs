//! The collision geometry deriver: walks an animated bone hierarchy, matches
//! hurtbox descriptors to bones, and emits a flat, linked, deterministically
//! ordered list of two-dimensional collision primitives for one frame.
//!
//! Hurtboxes are physically capsules (a sphere swept between two bone-relative
//! points), but the output model only knows circles and explicit links, so a
//! stretched hurtbox becomes two linked circles. Hitboxes take visual priority
//! over hurtboxes, so their render entries carry a sentinel key below every
//! real depth coordinate. Every coordinate is an IEEE-754 single-precision bit
//! pattern; the two numeric operations (composing a transform with a
//! translation, averaging two depths) stand behind the trusted wrappers in
//! `geom`, and everything else is exact.

use crate::bres::Chr0;
use crate::bres::spec_bone_transform;
use crate::geom::Mat4;
use crate::geom::Vec3;
use crate::geom::avg_canon_bits;
use crate::geom::avg_half;
use crate::geom::identity_bits;
use crate::geom::identity_matrix;
use crate::geom::mat4_mul;
use crate::geom::mat4_mul_canon_bits;
use crate::geom::translation_bits;
use crate::geom::translation_matrix;
use crate::mdl0::Bone;
use crate::render::RenderEntry;
use crate::render::RenderOrder;
use crate::render::is_nan_bits;
use crate::render::is_nan_bits_exec;
use crate::render::sort_render_entries;
use crate::render::sort_spec;
use vstd::prelude::*;

verus! {

/// The vulnerability state of a hurtbox on the frame being derived.
#[derive(Clone, Copy, Debug, PartialEq, Eq, Structural)]
pub enum HurtBoxState {
    Normal,
    Invincible,
    IntangibleFlashing,
    IntangibleNoFlashing,
    IntangibleQuickFlashing,
    Unknown(u32),
}

/// A static per-fighter hurtbox descriptor: the bone it anchors to, a
/// bone-relative offset, a radius, and a stretch vector that sweeps the
/// sphere into a capsule when nonzero.
#[derive(Clone, Copy, Debug, PartialEq, Eq, Structural)]
pub struct HurtDescriptor {
    pub bone_index: u32,
    pub offset: Vec3,
    pub radius: u32,
    pub stretch: Vec3,
}

/// A hurtbox resolved for one frame: its descriptor, the world transform of
/// the bone it anchors to, and its state on this frame.
#[derive(Clone, Copy, Debug)]
pub struct HurtBoxInstance {
    pub bone_matrix: Mat4,
    pub hurt_box: HurtDescriptor,
    pub state: HurtBoxState,
}

/// The mathematical content of a resolved hurtbox.
pub struct InstanceView {
    pub world: Seq<u32>,
    pub desc: HurtDescriptor,
    pub state: HurtBoxState,
}

impl View for HurtBoxInstance {
    type V = InstanceView;

    open spec fn view(&self) -> InstanceView {
        InstanceView { world: self.bone_matrix.e@, desc: self.hurt_box, state: self.state }
    }
}

/// How a hit angle follows the attacker, as the attack script stated it.
#[derive(Clone, Copy, Debug, PartialEq, Eq, Structural)]
pub enum AngleFlip {
    AwayFromAttacker,
    AttackerDir,
    AttackerDirReverse,
    Unknown(u32),
}

/// The attack values a hitbox carries, verbatim from the attack script.
#[derive(Clone, Copy, Debug, PartialEq, Eq, Structural)]
pub struct HitBoxValues {
    pub enabled: bool,
    pub can_hit_fighter: bool,
    pub shield_damage: u32,
    pub damage: u32,
    pub bkb: u32,
    pub kbg: u32,
    pub trajectory: i32,
    pub angle_flipping: AngleFlip,
    pub clang: bool,
}

/// A hitbox either damages or grabs.
#[derive(Clone, Copy, Debug, PartialEq, Eq, Structural)]
pub enum CollisionBoxValues {
    Hit(HitBoxValues),
    Grab,
}

/// The interpolation position some hitboxes carry from the previous frame.
#[derive(Clone, Copy, Debug, PartialEq, Eq, Structural)]
pub struct HitBoxPrev {
    pub pos: Vec3,
    pub size: u32,
}

/// A hitbox resolved for one frame: its world position and size, the
/// previous-frame position when the source carries one, and its values.
#[derive(Clone, Copy, Debug, PartialEq, Eq, Structural)]
pub struct HitBoxInstance {
    pub next_pos: Vec3,
    pub next_size: u32,
    pub prev: Option<HitBoxPrev>,
    pub values: CollisionBoxValues,
}

/// The normalized attack parameters a hit collision box carries. The angle is
/// in degrees. Knockback growth (`kbg`) and the other magnitudes stay in the
/// source scripts' own integer units: the deliberate policy here is that no
/// unit conversion happens in the deriver, because conversions belong to the
/// destination-format exporter. In particular a destination engine that wants
/// knockback growth as a fraction divides `kbg` by one hundred when it builds
/// its own record; that quotient is a float, which this core does not hold.
#[derive(Clone, Copy, Debug, PartialEq, Eq, Structural)]
pub struct HitBoxParams {
    pub shield_damage: u32,
    pub damage: u32,
    pub bkb: u32,
    pub kbg: u32,
    pub angle: i64,
    pub enable_reverse_hit: bool,
    pub enable_clang: bool,
    pub enable_rebound: bool,
}

/// The role of an emitted collision box.
#[derive(Clone, Copy, Debug, PartialEq, Eq, Structural)]
pub enum CollisionBoxRole {
    Hurt,
    Invincible,
    Intangible,
    Hit(HitBoxParams),
    Grab,
}

/// How two linked boxes are to be read: melded into one capsule whose shape
/// follows the first box.
#[derive(Clone, Copy, Debug, PartialEq, Eq, Structural)]
pub enum LinkType {
    MeldFirst,
}

/// A link between two boxes of the same frame that form one capsule.
#[derive(Clone, Copy, Debug, PartialEq, Eq, Structural)]
pub struct CollisionBoxLink {
    pub one: usize,
    pub two: usize,
    pub link_type: LinkType,
}

/// One collision circle on the display plane: `point_x` is the world depth
/// axis coordinate that the display maps to its horizontal axis, `point_y`
/// the world vertical coordinate; both are single-precision bit patterns.
#[derive(Clone, Copy, Debug, PartialEq, Eq, Structural)]
pub struct CollisionBox {
    pub point_x: u32,
    pub point_y: u32,
    pub radius: u32,
    pub role: CollisionBoxRole,
}

/// The derived geometry of one frame: the flat box list, the capsule links
/// (indexes into the box list), and the draw order (references sorted by
/// depth).
#[derive(Debug)]
pub struct CollisionFrame {
    pub colboxes: Vec<CollisionBox>,
    pub colbox_links: Vec<CollisionBoxLink>,
    pub render_order: Vec<RenderOrder>,
}

/// The accumulating parts of a frame while boxes are emitted: boxes, links,
/// and the unsorted render entries.
pub struct FrameParts {
    pub boxes: Seq<CollisionBox>,
    pub links: Seq<CollisionBoxLink>,
    pub entries: Seq<RenderEntry>,
}

/// The sentinel sort key of hit boxes: far below every real depth, so hits
/// render above all hurtboxes. It is the single-precision pattern of a large
/// negative constant.
pub const HIT_SORT_KEY: u32 = 0xC7C3_4F80;

/// True when the bit pattern encodes anything but a zero (either sign).
pub open spec fn nonzero_f32(b: u32) -> bool {
    b != 0 && b != 0x8000_0000
}

/// Reports whether the bit pattern encodes anything but a zero.
pub fn nonzero_f32_exec(b: u32) -> (r: bool)
    ensures
        r == nonzero_f32(b),
{
    b != 0 && b != 0x8000_0000
}

/// True when any component of the stretch vector is nonzero: only then does
/// the hurtbox sweep into a capsule.
pub open spec fn stretch_nonzero(s: Vec3) -> bool {
    nonzero_f32(s.x) || nonzero_f32(s.y) || nonzero_f32(s.z)
}

/// Reports whether the stretch vector has any nonzero component.
pub fn stretch_nonzero_exec(s: &Vec3) -> (r: bool)
    ensures
        r == stretch_nonzero(*s),
{
    nonzero_f32_exec(s.x) || nonzero_f32_exec(s.y) || nonzero_f32_exec(s.z)
}

/// The box role a hurtbox state maps to; an unrecognized state is vulnerable.
pub open spec fn hurt_role(st: HurtBoxState) -> CollisionBoxRole {
    match st {
        HurtBoxState::Normal => CollisionBoxRole::Hurt,
        HurtBoxState::Unknown(_) => CollisionBoxRole::Hurt,
        HurtBoxState::Invincible => CollisionBoxRole::Invincible,
        HurtBoxState::IntangibleFlashing => CollisionBoxRole::Intangible,
        HurtBoxState::IntangibleNoFlashing => CollisionBoxRole::Intangible,
        HurtBoxState::IntangibleQuickFlashing => CollisionBoxRole::Intangible,
    }
}

/// Computes the box role of a hurtbox state.
pub fn hurt_role_exec(st: &HurtBoxState) -> (r: CollisionBoxRole)
    ensures
        r == hurt_role(*st),
{
    match st {
        HurtBoxState::Normal => CollisionBoxRole::Hurt,
        HurtBoxState::Unknown(_) => CollisionBoxRole::Hurt,
        HurtBoxState::Invincible => CollisionBoxRole::Invincible,
        HurtBoxState::IntangibleFlashing => CollisionBoxRole::Intangible,
        HurtBoxState::IntangibleNoFlashing => CollisionBoxRole::Intangible,
        HurtBoxState::IntangibleQuickFlashing => CollisionBoxRole::Intangible,
    }
}

/// The transform of a hurtbox: its bone's world transform composed with the
/// translation by its offset.
pub open spec fn hurt_transform(h: InstanceView) -> Seq<u32> {
    mat4_mul_canon_bits(h.world, translation_bits(h.desc.offset))
}

/// The stretched transform of a hurtbox: the hurtbox transform composed with
/// the translation by the stretch vector.
pub open spec fn hurt_stretch_transform(h: InstanceView) -> Seq<u32> {
    mat4_mul_canon_bits(hurt_transform(h), translation_bits(h.desc.stretch))
}

/// The depth sort key of a hurtbox's render entry: its own depth coordinate,
/// or the average of the two linked boxes' depths when stretched.
pub open spec fn hurt_key(h: InstanceView) -> u32 {
    if stretch_nonzero(h.desc.stretch) {
        avg_canon_bits(hurt_transform(h)[12], hurt_stretch_transform(h)[12])
    } else {
        hurt_transform(h)[12]
    }
}

/// What one resolved hurtbox adds to the frame: one box at the transformed
/// offset; with a nonzero stretch a second box at the stretched point and a
/// meld link between the two. The render entry keyed by depth is dropped,
/// with nothing else lost, when the key is not a number.
pub open spec fn hurt_step(acc: FrameParts, h: InstanceView) -> FrameParts {
    let t = hurt_transform(h);
    let role = hurt_role(h.state);
    let box1 = CollisionBox { point_x: t[14], point_y: t[13], radius: h.desc.radius, role };
    let key = hurt_key(h);
    if stretch_nonzero(h.desc.stretch) {
        let st = hurt_stretch_transform(h);
        let box2 = CollisionBox { point_x: st[14], point_y: st[13], radius: h.desc.radius, role };
        let link = CollisionBoxLink {
            one: acc.boxes.len() as usize,
            two: (acc.boxes.len() + 1) as usize,
            link_type: LinkType::MeldFirst,
        };
        FrameParts {
            boxes: acc.boxes.push(box1).push(box2),
            links: acc.links.push(link),
            entries: if is_nan_bits(key) {
                acc.entries
            } else {
                acc.entries.push(
                    RenderEntry { order: RenderOrder::Link(acc.links.len() as usize), key },
                )
            },
        }
    } else {
        FrameParts {
            boxes: acc.boxes.push(box1),
            links: acc.links,
            entries: if is_nan_bits(key) {
                acc.entries
            } else {
                acc.entries.push(
                    RenderEntry { order: RenderOrder::Colbox(acc.boxes.len() as usize), key },
                )
            },
        }
    }
}

/// The frame parts after every resolved hurtbox, in list order.
pub open spec fn hurt_fold(acc: FrameParts, hs: Seq<InstanceView>) -> FrameParts
    decreases hs.len(),
{
    if hs.len() == 0 {
        acc
    } else {
        hurt_step(hurt_fold(acc, hs.drop_last()), hs.last())
    }
}

/// A hitbox is skipped when its hit values are disabled or cannot touch a
/// fighter; grab boxes always count.
pub open spec fn hit_active(v: CollisionBoxValues) -> bool {
    match v {
        CollisionBoxValues::Hit(hv) => hv.enabled && hv.can_hit_fighter,
        CollisionBoxValues::Grab => true,
    }
}

/// The box role of a hitbox: its values normalized to parameters. An angle
/// that flips with the attacker's direction reverses the trajectory.
pub open spec fn hit_role(v: CollisionBoxValues) -> CollisionBoxRole {
    match v {
        CollisionBoxValues::Hit(hv) => CollisionBoxRole::Hit(
            HitBoxParams {
                shield_damage: hv.shield_damage,
                damage: hv.damage,
                bkb: hv.bkb,
                kbg: hv.kbg,
                angle: if hv.angle_flipping is AttackerDirReverse {
                    (180 - hv.trajectory as int) as i64
                } else {
                    hv.trajectory as i64
                },
                enable_reverse_hit: hv.angle_flipping is AwayFromAttacker,
                enable_clang: hv.clang,
                enable_rebound: hv.clang,
            },
        ),
        CollisionBoxValues::Grab => CollisionBoxRole::Grab,
    }
}

/// What one hitbox adds to the frame: nothing when inactive; else one box at
/// its position, and, when it carries a previous-frame position, a second box
/// there with a meld link. Its render entry takes the sentinel key.
pub open spec fn hit_step(acc: FrameParts, h: HitBoxInstance) -> FrameParts {
    if !hit_active(h.values) {
        acc
    } else {
        let role = hit_role(h.values);
        let box1 = CollisionBox {
            point_x: h.next_pos.z,
            point_y: h.next_pos.y,
            radius: h.next_size,
            role,
        };
        match h.prev {
            Option::Some(p) => {
                let box2 = CollisionBox {
                    point_x: p.pos.z,
                    point_y: p.pos.y,
                    radius: p.size,
                    role,
                };
                let link = CollisionBoxLink {
                    one: acc.boxes.len() as usize,
                    two: (acc.boxes.len() + 1) as usize,
                    link_type: LinkType::MeldFirst,
                };
                FrameParts {
                    boxes: acc.boxes.push(box1).push(box2),
                    links: acc.links.push(link),
                    entries: acc.entries.push(
                        RenderEntry {
                            order: RenderOrder::Link(acc.links.len() as usize),
                            key: HIT_SORT_KEY,
                        },
                    ),
                }
            },
            Option::None => FrameParts {
                boxes: acc.boxes.push(box1),
                links: acc.links,
                entries: acc.entries.push(
                    RenderEntry {
                        order: RenderOrder::Colbox(acc.boxes.len() as usize),
                        key: HIT_SORT_KEY,
                    },
                ),
            },
        }
    }
}

/// The frame parts after every hitbox, in list order.
pub open spec fn hit_fold(acc: FrameParts, ts: Seq<HitBoxInstance>) -> FrameParts
    decreases ts.len(),
{
    if ts.len() == 0 {
        acc
    } else {
        hit_step(hit_fold(acc, ts.drop_last()), ts.last())
    }
}

/// The empty frame.
pub open spec fn empty_parts() -> FrameParts {
    FrameParts { boxes: Seq::empty(), links: Seq::empty(), entries: Seq::empty() }
}

/// Everything one frame accumulates: all hurtboxes in order, then all
/// hitboxes in order.
pub open spec fn derive_parts(hs: Seq<InstanceView>, ts: Seq<HitBoxInstance>) -> FrameParts {
    hit_fold(hurt_fold(empty_parts(), hs), ts)
}

/// The mathematical content of a sequence of resolved hurtboxes.
pub open spec fn hurt_views(s: Seq<HurtBoxInstance>) -> Seq<InstanceView> {
    s.map_values(|h: HurtBoxInstance| h@)
}

/// The draw order a sequence of render entries yields: the references, in
/// stable-sorted key order.
pub open spec fn render_order_of(entries: Seq<RenderEntry>) -> Seq<RenderOrder> {
    sort_spec(entries).map_values(|e: RenderEntry| e.order)
}

/// The derived frame is exactly the accumulated parts, with the render
/// entries stable-sorted and stripped to their references.
pub open spec fn frame_matches(
    hs: Seq<InstanceView>,
    ts: Seq<HitBoxInstance>,
    r: CollisionFrame,
) -> bool {
    let p = derive_parts(hs, ts);
    &&& r.colboxes@ == p.boxes
    &&& r.colbox_links@ == p.links
    &&& r.render_order@ == render_order_of(p.entries)
}

/// Assembles the collision geometry of one frame from its resolved hurtboxes
/// and hitboxes. This cannot fail: ambiguous data is resolved by policy (a
/// not-a-number depth only loses its draw-order entry, never its box).
pub fn derive_collision_frame(hurt: &Vec<HurtBoxInstance>, hits: &Vec<HitBoxInstance>) -> (r:
    CollisionFrame)
    ensures
        frame_matches(hurt_views(hurt@), hits@, r),
{
    let mut boxes: Vec<CollisionBox> = Vec::new();
    let mut links: Vec<CollisionBoxLink> = Vec::new();
    let mut entries: Vec<RenderEntry> = Vec::new();
    let mut i: usize = 0;
    proof {
        assert(hurt_views(hurt@).take(0) =~= Seq::empty());
    }
    while i < hurt.len()
        invariant
            0 <= i <= hurt@.len(),
            (FrameParts { boxes: boxes@, links: links@, entries: entries@ }) == hurt_fold(
                empty_parts(),
                hurt_views(hurt@).take(i as int),
            ),
        decreases hurt@.len() - i,
    {
        let h = &hurt[i];
        let t = mat4_mul(&h.bone_matrix, &translation_matrix(h.hurt_box.offset));
        let role = hurt_role_exec(&h.state);
        let base = boxes.len();
        boxes.push(
            CollisionBox { point_x: t.e[14], point_y: t.e[13], radius: h.hurt_box.radius, role },
        );
        if stretch_nonzero_exec(&h.hurt_box.stretch) {
            let st = mat4_mul(&t, &translation_matrix(h.hurt_box.stretch));
            boxes.push(
                CollisionBox {
                    point_x: st.e[14],
                    point_y: st.e[13],
                    radius: h.hurt_box.radius,
                    role,
                },
            );
            let blen = boxes.len();
            let lbase = links.len();
            links.push(
                CollisionBoxLink { one: blen - 2, two: blen - 1, link_type: LinkType::MeldFirst },
            );
            let key = avg_half(t.e[12], st.e[12]);
            if !is_nan_bits_exec(key) {
                entries.push(RenderEntry { order: RenderOrder::Link(lbase), key });
            }
        } else {
            let key = t.e[12];
            if !is_nan_bits_exec(key) {
                entries.push(RenderEntry { order: RenderOrder::Colbox(base), key });
            }
        }
        proof {
            let views = hurt_views(hurt@);
            assert(views.take(i + 1).drop_last() =~= views.take(i as int));
            assert(views.take(i + 1).last() == hurt@[i as int]@);
        }
        i += 1;
    }
    proof {
        assert(hurt_views(hurt@).take(hurt@.len() as int) =~= hurt_views(hurt@));
        assert(hits@.take(0) =~= Seq::empty());
    }
    let hurt_parts = Ghost(hurt_fold(empty_parts(), hurt_views(hurt@)));
    let mut j: usize = 0;
    while j < hits.len()
        invariant
            0 <= j <= hits@.len(),
            (FrameParts { boxes: boxes@, links: links@, entries: entries@ }) == hit_fold(
                hurt_parts@,
                hits@.take(j as int),
            ),
        decreases hits@.len() - j,
    {
        let h = &hits[j];
        let active = match &h.values {
            CollisionBoxValues::Hit(hv) => hv.enabled && hv.can_hit_fighter,
            CollisionBoxValues::Grab => true,
        };
        if active {
            let role = hit_role_exec(&h.values);
            let base = boxes.len();
            boxes.push(
                CollisionBox {
                    point_x: h.next_pos.z,
                    point_y: h.next_pos.y,
                    radius: h.next_size,
                    role,
                },
            );
            match &h.prev {
                Option::Some(p) => {
                    boxes.push(
                        CollisionBox { point_x: p.pos.z, point_y: p.pos.y, radius: p.size, role },
                    );
                    let blen = boxes.len();
                    let lbase = links.len();
                    links.push(
                        CollisionBoxLink { one: blen - 2, two: blen - 1, link_type: LinkType::MeldFirst },
                    );
                    entries.push(RenderEntry { order: RenderOrder::Link(lbase), key: HIT_SORT_KEY });
                },
                Option::None => {
                    entries.push(
                        RenderEntry { order: RenderOrder::Colbox(base), key: HIT_SORT_KEY },
                    );
                },
            }
        }
        proof {
            assert(hits@.take(j + 1).drop_last() =~= hits@.take(j as int));
            assert(hits@.take(j + 1).last() == hits@[j as int]);
        }
        j += 1;
    }
    proof {
        assert(hits@.take(hits@.len() as int) =~= hits@);
    }
    let sorted = sort_render_entries(&entries);
    let mut render_order: Vec<RenderOrder> = Vec::new();
    let mut k: usize = 0;
    while k < sorted.len()
        invariant
            0 <= k <= sorted@.len(),
            render_order@ == sorted@.take(k as int).map_values(|e: RenderEntry| e.order),
        decreases sorted@.len() - k,
    {
        render_order.push(sorted[k].order);
        proof {
            assert(sorted@.take(k + 1).map_values(|e: RenderEntry| e.order) =~= sorted@.take(
                k as int,
            ).map_values(|e: RenderEntry| e.order).push(sorted@[k as int].order));
        }
        k += 1;
    }
    proof {
        assert(sorted@.take(sorted@.len() as int) =~= sorted@);
    }
    CollisionFrame { colboxes: boxes, colbox_links: links, render_order }
}

/// The role of a hitbox's values.
pub fn hit_role_exec(v: &CollisionBoxValues) -> (r: CollisionBoxRole)
    ensures
        r == hit_role(*v),
{
    match v {
        CollisionBoxValues::Hit(hv) => {
            let angle: i64 = if hv.angle_flipping == AngleFlip::AttackerDirReverse {
                180 - (hv.trajectory as i64)
            } else {
                hv.trajectory as i64
            };
            CollisionBoxRole::Hit(
                HitBoxParams {
                    shield_damage: hv.shield_damage,
                    damage: hv.damage,
                    bkb: hv.bkb,
                    kbg: hv.kbg,
                    angle,
                    enable_reverse_hit: hv.angle_flipping == AngleFlip::AwayFromAttacker,
                    enable_clang: hv.clang,
                    enable_rebound: hv.clang,
                },
            )
        },
        CollisionBoxValues::Grab => CollisionBoxRole::Grab,
    }
}

/// A hurtbox with zero stretch yields exactly one box and no link; a nonzero
/// stretch yields exactly two boxes and exactly one link between them.
pub proof fn lemma_hurt_box_counts(acc: FrameParts, h: InstanceView)
    ensures
        !stretch_nonzero(h.desc.stretch) ==> hurt_step(acc, h).boxes.len() == acc.boxes.len() + 1
            && hurt_step(acc, h).links == acc.links,
        stretch_nonzero(h.desc.stretch) ==> hurt_step(acc, h).boxes.len() == acc.boxes.len() + 2
            && hurt_step(acc, h).links.len() == acc.links.len() + 1 && hurt_step(acc, h).links.last()
            == (CollisionBoxLink {
            one: acc.boxes.len() as usize,
            two: (acc.boxes.len() + 1) as usize,
            link_type: LinkType::MeldFirst,
        }),
{
}

/// A not-a-number depth key drops only the draw-order entry: the collision
/// boxes are still emitted. A numeric key keeps its entry.
pub proof fn lemma_nan_key_policy(acc: FrameParts, h: InstanceView)
    ensures
        is_nan_bits(hurt_key(h)) ==> hurt_step(acc, h).entries == acc.entries,
        !is_nan_bits(hurt_key(h)) ==> hurt_step(acc, h).entries.len() == acc.entries.len() + 1,
        hurt_step(acc, h).boxes.len() > acc.boxes.len(),
{
}

/// Deriving is a pure function of its inputs: two frames derived from the
/// same resolved boxes are the same, part for part.
pub proof fn lemma_derive_deterministic(
    hs: Seq<InstanceView>,
    ts: Seq<HitBoxInstance>,
    a: CollisionFrame,
    b: CollisionFrame,
)
    requires
        frame_matches(hs, ts, a),
        frame_matches(hs, ts, b),
    ensures
        a.colboxes@ == b.colboxes@,
        a.colbox_links@ == b.colbox_links@,
        a.render_order@ == b.render_order@,
{
}

/// The first hurt descriptor anchored to the bone, if any. When two
/// descriptors name the same bone only the first in list order is honored;
/// the duplicate is deliberately collapsed, not summed.
pub open spec fn first_hurt_match(descs: Seq<HurtDescriptor>, bone_index: u32) -> Option<
    HurtDescriptor,
>
    decreases descs.len(),
{
    if descs.len() == 0 {
        Option::None
    } else if descs.first().bone_index == bone_index {
        Option::Some(descs.first())
    } else {
        first_hurt_match(descs.drop_first(), bone_index)
    }
}

proof fn lemma_first_match_skip(descs: Seq<HurtDescriptor>, bone_index: u32, i: int)
    requires
        0 <= i <= descs.len(),
        forall|j: int| 0 <= j < i ==> descs[j].bone_index != bone_index,
    ensures
        first_hurt_match(descs, bone_index) == first_hurt_match(descs.skip(i), bone_index),
    decreases i,
{
    if i > 0 {
        assert(forall|j: int| #![auto] 0 <= j < i - 1 ==> descs.drop_first()[j] == descs[j + 1]);
        lemma_first_match_skip(descs.drop_first(), bone_index, i - 1);
        assert(descs.drop_first().skip(i - 1) =~= descs.skip(i));
    } else {
        assert(descs.skip(0) =~= descs);
    }
}

/// Finds the first hurt descriptor anchored to the bone.
pub fn first_hurt_match_exec(descs: &Vec<HurtDescriptor>, bone_index: u32) -> (r: Option<
    HurtDescriptor,
>)
    ensures
        r == first_hurt_match(descs@, bone_index),
{
    let mut i: usize = 0;
    while i < descs.len()
        invariant
            0 <= i <= descs@.len(),
            forall|j: int| 0 <= j < i ==> descs@[j].bone_index != bone_index,
        decreases descs@.len() - i,
    {
        if descs[i].bone_index == bone_index {
            proof {
                lemma_first_match_skip(descs@, bone_index, i as int);
                assert(descs@.skip(i as int).first() == descs@[i as int]);
            }
            return Some(descs[i]);
        }
        i += 1;
    }
    proof {
        lemma_first_match_skip(descs@, bone_index, i as int);
        assert(descs@.skip(i as int) =~= Seq::empty());
    }
    None
}

/// The world transform of a bone on an animation frame: the parent world
/// transform, the bone local transform, and the animation transform of the
/// bone, composed in that order.
pub open spec fn world_of(pw: Seq<u32>, b: Bone, anim: Chr0, frame: int) -> Seq<u32> {
    mat4_mul_canon_bits(mat4_mul_canon_bits(pw, b.transform.e@), spec_bone_transform(anim, b.name@, frame))
}

/// The resolved hurtboxes a forest of bones contributes, depth first: the
/// first bone own matched descriptor when one matches, then its subtree, then
/// its later siblings, each child walked under its parent world transform.
pub open spec fn forest_instances(
    bones: Seq<Bone>,
    pw: Seq<u32>,
    descs: Seq<HurtDescriptor>,
    anim: Chr0,
    frame: int,
) -> Seq<InstanceView>
    decreases bones,
{
    if bones.len() == 0 {
        Seq::empty()
    } else {
        let b = bones[0];
        let w = world_of(pw, b, anim, frame);
        let own = match first_hurt_match(descs, b.index) {
            Option::None => Seq::<InstanceView>::empty(),
            Option::Some(d) => seq![
                InstanceView { world: w, desc: d, state: HurtBoxState::Normal },
            ],
        };
        own + forest_instances(b.children@, w, descs, anim, frame) + forest_instances(
            bones.drop_first(),
            pw,
            descs,
            anim,
            frame,
        )
    }
}

/// A forest splits into its first tree and the rest.
proof fn lemma_forest_split_first(
    bones: Seq<Bone>,
    pw: Seq<u32>,
    descs: Seq<HurtDescriptor>,
    anim: Chr0,
    frame: int,
)
    requires
        bones.len() > 0,
    ensures
        forest_instances(bones, pw, descs, anim, frame) == forest_instances(
            seq![bones[0]],
            pw,
            descs,
            anim,
            frame,
        ) + forest_instances(bones.drop_first(), pw, descs, anim, frame),
{
    let single = seq![bones[0]];
    assert(single.drop_first() =~= Seq::<Bone>::empty());
    let b = bones[0];
    assert(single.len() == 1);
    assert(single[0] == b);
    let w = world_of(pw, b, anim, frame);
    let own = match first_hurt_match(descs, b.index) {
        Option::None => Seq::<InstanceView>::empty(),
        Option::Some(d) => seq![InstanceView { world: w, desc: d, state: HurtBoxState::Normal }],
    };
    let sub = forest_instances(b.children@, w, descs, anim, frame);
    let rest = forest_instances(bones.drop_first(), pw, descs, anim, frame);
    assert(forest_instances(single, pw, descs, anim, frame) =~= own + sub) by {
        assert(forest_instances(single.drop_first(), pw, descs, anim, frame) =~= Seq::<
            InstanceView,
        >::empty());
        assert(forest_instances(single, pw, descs, anim, frame) =~= own + sub + forest_instances(
            single.drop_first(),
            pw,
            descs,
            anim,
            frame,
        ));
    }
    assert(forest_instances(bones, pw, descs, anim, frame) =~= (own + sub) + rest);
}

/// Walks one bone and its subtree, appending every resolved hurtbox.
pub fn collect_bone_instances(
    bone: &Bone,
    pw: &Mat4,
    descs: &Vec<HurtDescriptor>,
    anim: &Chr0,
    frame: u32,
    out: &mut Vec<HurtBoxInstance>,
)
    ensures
        hurt_views(final(out)@) == hurt_views(old(out)@) + forest_instances(
            seq![*bone],
            pw.e@,
            descs@,
            *anim,
            frame as int,
        ),
    decreases *bone,
{
    let local = mat4_mul(pw, &bone.transform);
    let anim_m = anim.bone_transform(&bone.name, frame);
    let w = mat4_mul(&local, &anim_m);
    let ghost w_spec = world_of(pw.e@, *bone, *anim, frame as int);
    let ghost own = match first_hurt_match(descs@, bone.index) {
        Option::None => Seq::<InstanceView>::empty(),
        Option::Some(d) => seq![
            InstanceView { world: w_spec, desc: d, state: HurtBoxState::Normal },
        ],
    };
    match first_hurt_match_exec(descs, bone.index) {
        Option::Some(d) => {
            out.push(HurtBoxInstance { bone_matrix: w, hurt_box: d, state: HurtBoxState::Normal });
            proof {
                assert(hurt_views(out@) =~= hurt_views(old(out)@) + own);
            }
        },
        Option::None => {
            proof {
                assert(hurt_views(out@) =~= hurt_views(old(out)@) + own);
            }
        },
    }
    let ghost base = hurt_views(old(out)@) + own;
    proof {
        assert(bone.children@.skip(0) =~= bone.children@);
        assert(hurt_views(out@) + forest_instances(
            bone.children@,
            w_spec,
            descs@,
            *anim,
            frame as int,
        ) =~= base + forest_instances(bone.children@, w_spec, descs@, *anim, frame as int));
    }
    let mut i: usize = 0;
    while i < bone.children.len()
        invariant
            0 <= i <= bone.children@.len(),
            w.e@ == w_spec,
            base == hurt_views(old(out)@) + own,
            hurt_views(out@) + forest_instances(
                bone.children@.skip(i as int),
                w_spec,
                descs@,
                *anim,
                frame as int,
            ) =~= base + forest_instances(bone.children@, w_spec, descs@, *anim, frame as int),
        decreases *bone, bone.children@.len() - i,
    {
        proof {
            assert(decreases_to!(*bone => bone.children@[i as int]));
            lemma_forest_split_first(
                bone.children@.skip(i as int),
                w_spec,
                descs@,
                *anim,
                frame as int,
            );
            assert(bone.children@.skip(i as int)[0] == bone.children@[i as int]);
            assert(bone.children@.skip(i as int).drop_first() =~= bone.children@.skip(i + 1));
        }
        collect_bone_instances(&bone.children[i], &w, descs, anim, frame, out);
        proof {
            broadcast use vstd::seq_lib::group_seq_properties;

        }
        i += 1;
    }
    proof {
        assert(bone.children@.skip(bone.children@.len() as int) =~= Seq::<Bone>::empty());
        lemma_forest_split_first(seq![*bone], pw.e@, descs@, *anim, frame as int);
        assert((seq![*bone]).drop_first() =~= Seq::<Bone>::empty());
        assert((seq![*bone])[0] == *bone);
        assert(hurt_views(out@) =~= hurt_views(old(out)@) + forest_instances(
            seq![*bone],
            pw.e@,
            descs@,
            *anim,
            frame as int,
        ));
    }
}

/// Derives the collision geometry of one animation frame from the bone tree,
/// the fighter hurtbox descriptors, and the frame hitboxes: bone world
/// transforms are recomputed depth first from the root, each descriptor is
/// anchored to its bone, and the resolved boxes are assembled and ordered.
pub fn derive_frame(
    root: &Bone,
    descs: &Vec<HurtDescriptor>,
    hits: &Vec<HitBoxInstance>,
    anim: &Chr0,
    frame: u32,
) -> (r: CollisionFrame)
    ensures
        frame_matches(
            forest_instances(seq![*root], identity_bits(), descs@, *anim, frame as int),
            hits@,
            r,
        ),
{
    let ident = identity_matrix();
    let mut instances: Vec<HurtBoxInstance> = Vec::new();
    collect_bone_instances(root, &ident, descs, anim, frame, &mut instances);
    proof {
        assert(hurt_views(instances@) =~= Seq::<InstanceView>::empty() + forest_instances(
            seq![*root],
            identity_bits(),
            descs@,
            *anim,
            frame as int,
        ));
        assert(Seq::<InstanceView>::empty() + forest_instances(
            seq![*root],
            identity_bits(),
            descs@,
            *anim,
            frame as int,
        ) =~= forest_instances(seq![*root], identity_bits(), descs@, *anim, frame as int));
    }
    derive_collision_frame(&instances, hits)
}


} // verus!
