use brawl_geom::bres::Chr0;
use brawl_geom::bres::Chr0Child;
use brawl_geom::bres::Chr0Track;
use brawl_geom::geom::Mat4;
use brawl_geom::geom::Vec3;
use brawl_geom::geom::avg_half;
use brawl_geom::geom::identity_matrix;
use brawl_geom::geom::mat4_mul;
use brawl_geom::geom::translation_matrix;
use brawl_geom::geometry::CollisionBoxRole;
use brawl_geom::geometry::CollisionBoxValues;
use brawl_geom::geometry::HitBoxInstance;
use brawl_geom::geometry::HitBoxPrev;
use brawl_geom::geometry::HitBoxValues;
use brawl_geom::geometry::AngleFlip;
use brawl_geom::geometry::HurtBoxInstance;
use brawl_geom::geometry::HurtBoxState;
use brawl_geom::geometry::HurtDescriptor;
use brawl_geom::geometry::derive_collision_frame;
use brawl_geom::geometry::derive_frame;
use brawl_geom::render::RenderEntry;
use brawl_geom::render::RenderOrder;
use brawl_geom::render::is_nan_bits_exec;
use brawl_geom::render::key_rank_exec;
use brawl_geom::render::sort_render_entries;

fn v3(x: f32, y: f32, z: f32) -> Vec3 {
    Vec3 { x: x.to_bits(), y: y.to_bits(), z: z.to_bits() }
}

fn zero3() -> Vec3 {
    v3(0.0, 0.0, 0.0)
}

fn hurt(bone_matrix: Mat4, offset: Vec3, radius: f32, stretch: Vec3) -> HurtBoxInstance {
    HurtBoxInstance {
        bone_matrix,
        hurt_box: HurtDescriptor { bone_index: 0, offset, radius: radius.to_bits(), stretch },
        state: HurtBoxState::Normal,
    }
}

fn cgmath_mat(m: &Mat4) -> cgmath::Matrix4<f32> {
    let f = |i: usize| f32::from_bits(m.e[i]);
    cgmath::Matrix4::from_cols(
        cgmath::Vector4::new(f(0), f(1), f(2), f(3)),
        cgmath::Vector4::new(f(4), f(5), f(6), f(7)),
        cgmath::Vector4::new(f(8), f(9), f(10), f(11)),
        cgmath::Vector4::new(f(12), f(13), f(14), f(15)),
    )
}

#[test]
fn translation_matrix_matches_cgmath() {
    let t = translation_matrix(v3(1.5, -2.0, 3.25));
    let expect = cgmath::Matrix4::from_translation(cgmath::Vector3::new(1.5f32, -2.0, 3.25));
    assert_eq!(cgmath_mat(&t), expect);
}

#[test]
fn mat4_mul_composes_translations() {
    let a = translation_matrix(v3(1.0, 2.0, 3.0));
    let b = translation_matrix(v3(4.0, 5.0, 6.0));
    let p = mat4_mul(&a, &b);
    assert_eq!(f32::from_bits(p.e[12]), 5.0);
    assert_eq!(f32::from_bits(p.e[13]), 7.0);
    assert_eq!(f32::from_bits(p.e[14]), 9.0);
    assert_eq!(f32::from_bits(p.e[15]), 1.0);
    // And it agrees with cgmath on a non-trivial product.
    let expect = cgmath_mat(&a) * cgmath_mat(&b);
    assert_eq!(cgmath_mat(&p), expect);
}

#[test]
fn avg_half_is_the_midpoint() {
    assert_eq!(f32::from_bits(avg_half(2.0f32.to_bits(), 4.0f32.to_bits())), 3.0);
    assert_eq!(f32::from_bits(avg_half((-1.0f32).to_bits(), 1.0f32.to_bits())), 0.0);
}

#[test]
fn nan_bits_agree_with_is_nan() {
    for v in [0.0f32, -0.0, 1.0, -99999.0, f32::INFINITY, f32::NEG_INFINITY, f32::NAN] {
        assert_eq!(is_nan_bits_exec(v.to_bits()), v.is_nan());
    }
}

#[test]
fn key_rank_orders_like_floats() {
    let vals = [-99999.0f32, -2.5, -0.0, 0.0, 1.0e-10, 3.5, 99999.0, f32::INFINITY];
    for a in vals {
        for b in vals {
            let ra = key_rank_exec(a.to_bits());
            let rb = key_rank_exec(b.to_bits());
            assert_eq!(ra < rb, a < b, "{} vs {}", a, b);
            assert_eq!(ra == rb, a == b, "{} vs {}", a, b);
        }
    }
}

#[test]
fn sort_is_stable_on_equal_keys() {
    let k = 7.0f32.to_bits();
    let entries = vec![
        RenderEntry { order: RenderOrder::Colbox(0), key: 9.0f32.to_bits() },
        RenderEntry { order: RenderOrder::Colbox(1), key: k },
        RenderEntry { order: RenderOrder::Link(0), key: k },
        RenderEntry { order: RenderOrder::Colbox(2), key: (-1.0f32).to_bits() },
        RenderEntry { order: RenderOrder::Link(1), key: k },
    ];
    let sorted = sort_render_entries(&entries);
    let orders: Vec<RenderOrder> = sorted.iter().map(|e| e.order).collect();
    assert_eq!(
        orders,
        vec![
            RenderOrder::Colbox(2),
            RenderOrder::Colbox(1),
            RenderOrder::Link(0),
            RenderOrder::Link(1),
            RenderOrder::Colbox(0),
        ]
    );
}

#[test]
fn zero_stretch_yields_one_box_and_no_link() {
    let h = hurt(identity_matrix(), v3(0.0, 2.0, 1.0), 3.0, zero3());
    let frame = derive_collision_frame(&vec![h], &vec![]);
    assert_eq!(frame.colboxes.len(), 1);
    assert_eq!(frame.colbox_links.len(), 0);
    assert_eq!(f32::from_bits(frame.colboxes[0].point_x), 1.0);
    assert_eq!(f32::from_bits(frame.colboxes[0].point_y), 2.0);
    assert_eq!(f32::from_bits(frame.colboxes[0].radius), 3.0);
    assert_eq!(frame.colboxes[0].role, CollisionBoxRole::Hurt);
    assert_eq!(frame.render_order, vec![RenderOrder::Colbox(0)]);
}

#[test]
fn nonzero_stretch_yields_two_linked_boxes() {
    let h = hurt(identity_matrix(), zero3(), 3.0, v3(0.0, 5.0, 0.0));
    let frame = derive_collision_frame(&vec![h], &vec![]);
    assert_eq!(frame.colboxes.len(), 2);
    assert_eq!(frame.colbox_links.len(), 1);
    assert_eq!(frame.colbox_links[0].one, 0);
    assert_eq!(frame.colbox_links[0].two, 1);
    assert_eq!(f32::from_bits(frame.colboxes[1].point_y), 5.0);
    assert_eq!(frame.render_order, vec![RenderOrder::Link(0)]);
}

#[test]
fn stretch_key_is_the_average_depth() {
    // Place the hurtbox at depth 4 and stretch it to depth 10: the entry is
    // keyed by 7, so it sorts between boxes at depths 6 and 8.
    let deep = hurt(translation_matrix(v3(4.0, 0.0, 0.0)), zero3(), 1.0, v3(6.0, 0.0, 0.0));
    let six = hurt(translation_matrix(v3(6.0, 0.0, 0.0)), zero3(), 1.0, zero3());
    let eight = hurt(translation_matrix(v3(8.0, 0.0, 0.0)), zero3(), 1.0, zero3());
    let frame = derive_collision_frame(&vec![deep, six, eight], &vec![]);
    assert_eq!(
        frame.render_order,
        vec![RenderOrder::Colbox(2), RenderOrder::Link(0), RenderOrder::Colbox(3)]
    );
}

#[test]
fn nan_key_drops_only_the_render_entry() {
    let h = hurt(translation_matrix(v3(f32::NAN, 0.0, 0.0)), zero3(), 2.0, zero3());
    let ok = hurt(identity_matrix(), zero3(), 1.0, zero3());
    let frame = derive_collision_frame(&vec![h, ok], &vec![]);
    assert_eq!(frame.colboxes.len(), 2);
    assert_eq!(frame.render_order, vec![RenderOrder::Colbox(1)]);
}

#[test]
fn derivation_is_deterministic() {
    let hs = vec![
        hurt(translation_matrix(v3(1.0, 2.0, 3.0)), v3(0.5, 0.0, 0.0), 2.5, v3(0.0, 4.0, 0.0)),
        hurt(identity_matrix(), zero3(), 1.0, zero3()),
    ];
    let ts = vec![HitBoxInstance {
        next_pos: v3(0.0, 1.0, 2.0),
        next_size: 1.5f32.to_bits(),
        prev: None,
        values: CollisionBoxValues::Grab,
    }];
    let a = derive_collision_frame(&hs, &ts);
    let b = derive_collision_frame(&hs, &ts);
    assert_eq!(a.colboxes, b.colboxes);
    assert_eq!(a.colbox_links, b.colbox_links);
    assert_eq!(a.render_order, b.render_order);
}

fn hit_values(enabled: bool, can_hit: bool, flip: AngleFlip, trajectory: i32) -> CollisionBoxValues {
    CollisionBoxValues::Hit(HitBoxValues {
        enabled,
        can_hit_fighter: can_hit,
        shield_damage: 1,
        damage: 8,
        bkb: 40,
        kbg: 100,
        trajectory,
        angle_flipping: flip,
        clang: true,
    })
}

#[test]
fn disabled_hit_boxes_are_skipped() {
    let t = vec![
        HitBoxInstance {
            next_pos: v3(0.0, 0.0, 0.0),
            next_size: 1.0f32.to_bits(),
            prev: None,
            values: hit_values(false, true, AngleFlip::AttackerDir, 45),
        },
        HitBoxInstance {
            next_pos: v3(0.0, 0.0, 0.0),
            next_size: 1.0f32.to_bits(),
            prev: None,
            values: hit_values(true, false, AngleFlip::AttackerDir, 45),
        },
    ];
    let frame = derive_collision_frame(&vec![], &t);
    assert_eq!(frame.colboxes.len(), 0);
    assert_eq!(frame.render_order.len(), 0);
}

#[test]
fn hit_box_roles_and_angles() {
    let t = vec![
        HitBoxInstance {
            next_pos: v3(0.0, 2.0, 3.0),
            next_size: 1.0f32.to_bits(),
            prev: None,
            values: hit_values(true, true, AngleFlip::AttackerDirReverse, 30),
        },
        HitBoxInstance {
            next_pos: v3(0.0, 0.0, 0.0),
            next_size: 1.0f32.to_bits(),
            prev: None,
            values: hit_values(true, true, AngleFlip::AwayFromAttacker, 80),
        },
        HitBoxInstance {
            next_pos: v3(0.0, 0.0, 0.0),
            next_size: 2.0f32.to_bits(),
            prev: None,
            values: CollisionBoxValues::Grab,
        },
    ];
    let frame = derive_collision_frame(&vec![], &t);
    assert_eq!(frame.colboxes.len(), 3);
    match frame.colboxes[0].role {
        CollisionBoxRole::Hit(p) => {
            assert_eq!(p.angle, 150);
            assert!(!p.enable_reverse_hit);
            assert!(p.enable_clang);
            assert_eq!(p.damage, 8);
        }
        _ => panic!("expected a hit role"),
    }
    assert_eq!(f32::from_bits(frame.colboxes[0].point_x), 3.0);
    assert_eq!(f32::from_bits(frame.colboxes[0].point_y), 2.0);
    match frame.colboxes[1].role {
        CollisionBoxRole::Hit(p) => {
            assert_eq!(p.angle, 80);
            assert!(p.enable_reverse_hit);
        }
        _ => panic!("expected a hit role"),
    }
    assert_eq!(frame.colboxes[2].role, CollisionBoxRole::Grab);
}

#[test]
fn hit_boxes_sort_below_all_hurt_boxes() {
    let h = hurt(translation_matrix(v3(-500.0, 0.0, 0.0)), zero3(), 1.0, zero3());
    let t = vec![HitBoxInstance {
        next_pos: v3(1.0, 1.0, 1.0),
        next_size: 1.0f32.to_bits(),
        prev: Some(HitBoxPrev { pos: v3(0.5, 0.5, 0.5), size: 1.0f32.to_bits() }),
        values: hit_values(true, true, AngleFlip::AttackerDir, 0),
    }];
    let frame = derive_collision_frame(&vec![h], &t);
    // The hurtbox is box 0; the hit pair is boxes 1 and 2, linked, and its
    // sentinel key renders it first.
    assert_eq!(frame.colboxes.len(), 3);
    assert_eq!(frame.colbox_links.len(), 1);
    assert_eq!(frame.colbox_links[0].one, 1);
    assert_eq!(frame.colbox_links[0].two, 2);
    assert_eq!(frame.render_order, vec![RenderOrder::Link(0), RenderOrder::Colbox(0)]);
}

fn track(name: &str, track: Chr0Track) -> Chr0Child {
    Chr0Child { string_offset: 0, data_offset: 0, name: String::from(name), track }
}

fn anim(num_frames: u16, loop_value: bool, children: Vec<Chr0Child>) -> Chr0 {
    Chr0 {
        name: String::from("Wait1"),
        size: 0,
        version: 4,
        bres_offset: 0,
        string_offset: 0,
        orig_path_offset: 0,
        num_frames,
        num_children: children.len() as u16,
        loop_value,
        scaling_rule: 0,
        children,
    }
}

fn keyed(frames: &[f32]) -> Chr0Track {
    Chr0Track::Keyed(frames.iter().map(|y| translation_matrix(v3(0.0, *y, 0.0))).collect())
}

#[test]
fn bone_transform_clamps_when_not_looping() {
    let a = anim(3, false, vec![track("Hip", keyed(&[1.0, 2.0, 3.0]))]);
    let name = String::from("Hip");
    let last = a.bone_transform(&name, 2);
    for f in [2u32, 3, 4, 100, u32::MAX] {
        assert_eq!(a.bone_transform(&name, f).e, last.e);
    }
    assert_eq!(f32::from_bits(last.e[13]), 3.0);
    assert_eq!(f32::from_bits(a.bone_transform(&name, 0).e[13]), 1.0);
}

#[test]
fn bone_transform_wraps_when_looping() {
    let a = anim(3, true, vec![track("Hip", keyed(&[1.0, 2.0, 3.0]))]);
    let name = String::from("Hip");
    for f in 0u32..3 {
        let base = a.bone_transform(&name, f);
        for k in 1u32..5 {
            assert_eq!(a.bone_transform(&name, f + k * 3).e, base.e);
        }
    }
}

#[test]
fn bone_without_track_holds_the_identity() {
    let a = anim(5, false, vec![track("Hip", keyed(&[1.0]))]);
    let name = String::from("Shoulder");
    let m = a.bone_transform(&name, 2);
    assert_eq!(m.e, identity_matrix().e);
}

#[test]
fn duplicate_tracks_first_wins() {
    let a = anim(
        1,
        false,
        vec![
            track("Hip", Chr0Track::Fixed(translation_matrix(v3(0.0, 1.0, 0.0)))),
            track("Hip", Chr0Track::Fixed(translation_matrix(v3(0.0, 2.0, 0.0)))),
        ],
    );
    let m = a.bone_transform(&String::from("Hip"), 0);
    assert_eq!(f32::from_bits(m.e[13]), 1.0);
}

fn bone(index: u32, name: &str, transform: Mat4, children: Vec<brawl_geom::mdl0::Bone>) -> brawl_geom::mdl0::Bone {
    brawl_geom::mdl0::Bone { index, name: String::from(name), transform, children }
}

#[test]
fn world_transforms_compose_parent_local_animation() {
    let child = bone(1, "bone1", translation_matrix(v3(0.0, 10.0, 0.0)), vec![]);
    let root = bone(0, "bone0", identity_matrix(), vec![child]);
    // The animation moves the root by (0, 0, 7) on every frame.
    let a = anim(1, false, vec![track("bone0", Chr0Track::Fixed(translation_matrix(v3(0.0, 0.0, 7.0))))]);
    let descs = vec![
        HurtDescriptor {
            bone_index: 0,
            offset: v3(0.0, 1.0, 0.0),
            radius: 1.0f32.to_bits(),
            stretch: zero3(),
        },
        HurtDescriptor {
            bone_index: 1,
            offset: zero3(),
            radius: 1.0f32.to_bits(),
            stretch: zero3(),
        },
    ];
    let hits: Vec<HitBoxInstance> = vec![];
    let frame = derive_frame(&root, &descs, &hits, &a, 0);
    assert_eq!(frame.colboxes.len(), 2);
    // Root: world (0,0,7) then the hurtbox offset (0,1,0).
    assert_eq!(f32::from_bits(frame.colboxes[0].point_x), 7.0);
    assert_eq!(f32::from_bits(frame.colboxes[0].point_y), 1.0);
    // Child: the parent's animated world composed with its local translation.
    assert_eq!(f32::from_bits(frame.colboxes[1].point_x), 7.0);
    assert_eq!(f32::from_bits(frame.colboxes[1].point_y), 10.0);
}

#[test]
fn duplicate_hurt_descriptors_first_wins() {
    let root = bone(0, "bone0", identity_matrix(), vec![]);
    let a = anim(1, false, vec![]);
    let descs = vec![
        HurtDescriptor {
            bone_index: 0,
            offset: v3(0.0, 1.0, 0.0),
            radius: 2.0f32.to_bits(),
            stretch: zero3(),
        },
        HurtDescriptor {
            bone_index: 0,
            offset: v3(0.0, 9.0, 0.0),
            radius: 4.0f32.to_bits(),
            stretch: zero3(),
        },
    ];
    let hits: Vec<HitBoxInstance> = vec![];
    let frame = derive_frame(&root, &descs, &hits, &a, 0);
    // Only the first descriptor for the bone is honored.
    assert_eq!(frame.colboxes.len(), 1);
    assert_eq!(f32::from_bits(frame.colboxes[0].point_y), 1.0);
    assert_eq!(f32::from_bits(frame.colboxes[0].radius), 2.0);
}

#[test]
fn hit_sort_key_is_the_documented_sentinel() {
    assert_eq!(brawl_geom::geometry::HIT_SORT_KEY, (-99999.0f32).to_bits());
}

#[test]
fn animation_of_no_frames_samples_frame_zero() {
    let a = anim(0, true, vec![track("Hip", keyed(&[4.0, 8.0]))]);
    let m = a.bone_transform(&String::from("Hip"), 37);
    assert_eq!(f32::from_bits(m.e[13]), 4.0);
}
