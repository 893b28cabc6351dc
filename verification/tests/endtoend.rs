use brawl_geom::DecodeErrorKind;
use brawl_geom::bres::BresChildData;
use brawl_geom::bres::bres;
use brawl_geom::bres::chr0;
use brawl_geom::geom::Vec3;
use brawl_geom::geometry::HurtDescriptor;
use brawl_geom::geometry::CollisionBoxRole;
use brawl_geom::geometry::derive_frame;
use brawl_geom::mdl0::mdl0;
use brawl_geom::parse::Arc;
use brawl_geom::parse::ArcChildData;
use brawl_geom::parse::SectionData;
use brawl_geom::parse::arc;
use brawl_geom::parse::arc_sakurai;
use brawl_geom::render::RenderOrder;

fn put(buf: &mut Vec<u8>, off: usize, bytes: &[u8]) {
    while buf.len() < off + bytes.len() {
        buf.push(0);
    }
    buf[off..off + bytes.len()].copy_from_slice(bytes);
}

fn put_u32(buf: &mut Vec<u8>, off: usize, v: u32) {
    put(buf, off, &v.to_be_bytes());
}

fn put_u16(buf: &mut Vec<u8>, off: usize, v: u16) {
    put(buf, off, &v.to_be_bytes());
}

fn put_str(buf: &mut Vec<u8>, off: usize, s: &str) {
    put(buf, off, s.as_bytes());
    put(buf, off + s.len(), &[0]);
}

/// Writes a column-major translation matrix as big-endian float bits.
fn put_translation(buf: &mut Vec<u8>, off: usize, x: f32, y: f32, z: f32) {
    let cols: [f32; 16] = [1.0, 0.0, 0.0, 0.0, 0.0, 1.0, 0.0, 0.0, 0.0, 0.0, 1.0, 0.0, x, y, z, 1.0];
    for (i, v) in cols.iter().enumerate() {
        put_u32(buf, off + 4 * i, v.to_bits());
    }
}

/// Writes a resource-group header, sentinel and nodes at `base`; strings are
/// placed right after the nodes. Offsets in `children` are data offsets
/// relative to `base`.
fn put_group(buf: &mut Vec<u8>, base: usize, children: &[(&str, u32)]) {
    let n = children.len();
    put_u32(buf, base, 0);
    put_u32(buf, base + 4, n as u32);
    let mut str_off = 8 + 0x10 * (n + 1);
    for (i, (name, doff)) in children.iter().enumerate() {
        let node = base + 8 + 0x10 * (i + 1);
        put_u32(buf, node + 8, str_off as u32);
        put_u32(buf, node + 12, *doff);
        put_str(buf, base + str_off, name);
        str_off += name.len() + 1;
    }
    // The sentinel node (node 0) stays zeroed: it is never read as an entry.
}

/// Builds a model container with a two-bone chain: the root bone holds the
/// identity, its one child is translated by (0, 10, 0).
fn put_mdl0(buf: &mut Vec<u8>, m: usize) {
    put(buf, m, b"MDL0");
    put_u32(buf, m + 0x8, 9); // version: props at 0x40, eleven list slots
    put(buf, m + 0x40, &[0u8; 0x40]); // properties block, unused values
    put_u32(buf, m + 0x14, 0x80); // list slot 1: the bone list
    let g = m + 0x80;
    put_group(buf, g, &[("bone0", 0x48), ("bone1", 0x90)]);
    put_translation(buf, g + 0x48, 0.0, 0.0, 0.0);
    put_u32(buf, g + 0x48 + 64, 1); // one child ...
    put_u32(buf, g + 0x48 + 68, 1); // ... stored at entry 1
    put_translation(buf, g + 0x90, 0.0, 10.0, 0.0);
    put_u32(buf, g + 0x90 + 64, 0);
    put_u32(buf, g + 0x90 + 68, 0);
}

/// Builds an animation container named "Wait1" with one frame, no looping
/// and no tracks.
fn put_chr0(buf: &mut Vec<u8>, c: usize) {
    put(buf, c, b"CHR0");
    put_u32(buf, c + 0x8, 4); // the one supported version
    put_u32(buf, c + 0x10, 0x40); // track group offset
    put_u32(buf, c + 0x14, 0x30); // name offset
    put_str(buf, c + 0x30, "Wait1");
    put_u16(buf, c + 0x1c, 1); // one frame
    put_u16(buf, c + 0x1e, 0);
    put_u32(buf, c + 0x20, 0); // not looping
    put_group(buf, c + 0x40, &[]);
}

/// Builds the whole archive: one sub-entry tagged "bres" holding a root group
/// with the model and the animation.
fn build_archive() -> Vec<u8> {
    let mut buf: Vec<u8> = Vec::new();
    put_u16(&mut buf, 6, 1); // one sub-entry
    put_str(&mut buf, 0x10, "fighter");
    // Sub-entry header: size, then the redirect marker 0xFF ("not a
    // redirect", decode the body).
    put_u32(&mut buf, 0x44, 0x600);
    put_u16(&mut buf, 0x49, 0x00FF);
    let b = 0x60; // the bres payload
    put(&mut buf, b, b"bres");
    put_u16(&mut buf, b + 0xc, 0x10); // root offset: group at b + 0x10 + 8
    put_group(&mut buf, b + 0x18, &[("model", 0x68), ("Wait1", 0x1e8)]);
    put_mdl0(&mut buf, b + 0x18 + 0x68);
    put_chr0(&mut buf, b + 0x18 + 0x1e8);
    while buf.len() < 0x60 + 0x600 {
        buf.push(0);
    }
    buf
}

fn v3(x: f32, y: f32, z: f32) -> Vec3 {
    Vec3 { x: x.to_bits(), y: y.to_bits(), z: z.to_bits() }
}

/// Decodes the synthetic archive down to its bone tree and animation, then
/// derives frame geometry for the given hurtbox descriptor.
fn derive_synthetic(desc: HurtDescriptor) -> brawl_geom::geometry::CollisionFrame {
    let data = build_archive();
    let a: Arc = arc(&data).unwrap();
    assert_eq!(a.name, "fighter");
    assert_eq!(a.children.len(), 1);
    let b = match &a.children[0].data {
        ArcChildData::Bres(b) => b,
        other => panic!("expected a resource tree, got {:?}", other),
    };
    assert_eq!(b.children.len(), 2);
    assert_eq!(b.children[0].name, "model");
    assert_eq!(b.children[1].name, "Wait1");
    let model = match &b.children[0].data {
        BresChildData::Mdl0(m) => m,
        other => panic!("expected a model, got {:?}", other),
    };
    let anim = match &b.children[1].data {
        BresChildData::Chr0(c) => c,
        other => panic!("expected an animation, got {:?}", other),
    };
    assert_eq!(anim.name, "Wait1");
    assert_eq!(anim.num_frames, 1);
    assert!(!anim.loop_value);
    let root = model.root_bone.as_ref().expect("the model must have a root bone");
    assert_eq!(root.name, "bone0");
    assert_eq!(root.children.len(), 1);
    assert_eq!(root.children[0].name, "bone1");
    assert_eq!(f32::from_bits(root.children[0].transform.e[13]), 10.0);
    let descs = vec![desc];
    let hits: Vec<brawl_geom::geometry::HitBoxInstance> = Vec::new();
    derive_frame(root, &descs, &hits, anim, 0)
}

#[test]
fn archive_with_one_plain_hurtbox() {
    let frame = derive_synthetic(HurtDescriptor {
        bone_index: 0,
        offset: v3(0.0, 0.0, 0.0),
        radius: 3.0f32.to_bits(),
        stretch: v3(0.0, 0.0, 0.0),
    });
    assert_eq!(frame.colboxes.len(), 1);
    assert_eq!(f32::from_bits(frame.colboxes[0].point_x), 0.0);
    assert_eq!(f32::from_bits(frame.colboxes[0].point_y), 0.0);
    assert_eq!(f32::from_bits(frame.colboxes[0].radius), 3.0);
    assert_eq!(frame.colboxes[0].role, CollisionBoxRole::Hurt);
    assert!(frame.colbox_links.is_empty());
    assert_eq!(frame.render_order, vec![RenderOrder::Colbox(0)]);
}

#[test]
fn archive_with_one_stretched_hurtbox() {
    let frame = derive_synthetic(HurtDescriptor {
        bone_index: 0,
        offset: v3(0.0, 0.0, 0.0),
        radius: 3.0f32.to_bits(),
        stretch: v3(0.0, 5.0, 0.0),
    });
    assert_eq!(frame.colboxes.len(), 2);
    assert_eq!(f32::from_bits(frame.colboxes[0].point_y), 0.0);
    // The second box reflects the bone transform composed with the stretch
    // translation.
    assert_eq!(f32::from_bits(frame.colboxes[1].point_y), 5.0);
    assert_eq!(f32::from_bits(frame.colboxes[1].point_x), 0.0);
    assert_eq!(frame.colbox_links.len(), 1);
    assert_eq!(frame.colbox_links[0].one, 0);
    assert_eq!(frame.colbox_links[0].two, 1);
    assert_eq!(frame.render_order, vec![RenderOrder::Link(0)]);
}

#[test]
fn hurtbox_on_the_translated_child_bone() {
    let frame = derive_synthetic(HurtDescriptor {
        bone_index: 1,
        offset: v3(0.0, 0.0, 0.0),
        radius: 2.0f32.to_bits(),
        stretch: v3(0.0, 0.0, 0.0),
    });
    assert_eq!(frame.colboxes.len(), 1);
    assert_eq!(f32::from_bits(frame.colboxes[0].point_y), 10.0);
}

/// Entries whose sizes are not multiples of 0x20 still land on aligned
/// offsets: every payload tag is found where the padding puts it.
#[test]
fn archive_walk_pads_entry_offsets() {
    let mut buf: Vec<u8> = Vec::new();
    put_u16(&mut buf, 6, 3);
    put_str(&mut buf, 0x10, "padded");
    // Entry 0 at 0x40, payload at 0x60, size 0x11: next aligns to 0x80.
    put_u32(&mut buf, 0x44, 0x11);
    put_u16(&mut buf, 0x49, 0x00FF);
    put(&mut buf, 0x60, b"EFLS");
    // Entry 1 at 0x80, payload at 0xa0, size 0x20: already aligned.
    put_u32(&mut buf, 0x84, 0x20);
    put_u16(&mut buf, 0x89, 0x00FF);
    put(&mut buf, 0xa0, b"ATKD");
    // Entry 2 at 0xc0, payload at 0xe0, size 5.
    put_u32(&mut buf, 0xc4, 5);
    put_u16(&mut buf, 0xc9, 0x00FF);
    put(&mut buf, 0xe0, b"REFF");
    while buf.len() < 0x100 {
        buf.push(0);
    }
    let a = arc(&buf).unwrap();
    assert_eq!(a.children.len(), 3);
    assert!(matches!(a.children[0].data, ArcChildData::Efls));
    assert!(matches!(a.children[1].data, ArcChildData::Atkd));
    assert!(matches!(a.children[2].data, ArcChildData::Reff));
    assert_eq!(a.children[0].size, 0x11);
    assert_eq!(a.children[2].size, 5);
}

/// An entry whose redirect index is not the keep marker points into another
/// file: it yields no child, but the walk still advances past it by its
/// aligned size, so the entry after it is read at the right offset.
#[test]
fn archive_redirect_entries_are_skipped() {
    let mut buf: Vec<u8> = Vec::new();
    put_u16(&mut buf, 6, 2);
    put_str(&mut buf, 0x10, "redirects");
    // Entry 0 at 0x40: a redirect, with a size that is not a multiple of
    // 0x20; the walk must land on 0x80 regardless.
    put_u32(&mut buf, 0x44, 0x11);
    put_u16(&mut buf, 0x49, 0x0003);
    // Entry 1 at 0x80 is kept, its payload at 0xa0.
    put_u32(&mut buf, 0x84, 0x20);
    put_u16(&mut buf, 0x89, 0x00FF);
    put(&mut buf, 0xa0, b"EFLS");
    while buf.len() < 0x100 {
        buf.push(0);
    }
    let a = arc(&buf).unwrap();
    assert_eq!(a.children.len(), 1);
    assert!(matches!(a.children[0].data, ArcChildData::Efls));
    assert_eq!(a.children[0].redirect_index, 0xFF);
}

/// A size field that drives the cursor past the buffer end is fatal even on
/// the archive's last entry: no partial tree is returned.
#[test]
fn archive_size_overrun_is_fatal() {
    let mut buf: Vec<u8> = Vec::new();
    put_u16(&mut buf, 6, 1);
    put_str(&mut buf, 0x10, "overrun");
    put_u32(&mut buf, 0x44, 0x1000); // far past the end
    put_u16(&mut buf, 0x49, 0x00FF);
    put(&mut buf, 0x60, b"EFLS");
    while buf.len() < 0x100 {
        buf.push(0);
    }
    let e = arc(&buf).unwrap_err();
    assert_eq!(e.kind, DecodeErrorKind::OutOfBounds);
    assert_eq!(e.offset, 0x40);
}

#[test]
fn truncated_archive_fails_loudly() {
    let mut buf = build_archive();
    buf.truncate(0x70);
    // The sub-entry announces more bytes than remain: decoding must fail, not
    // return a partial tree.
    let e = arc(&buf).unwrap_err();
    assert_eq!(e.kind, DecodeErrorKind::OutOfBounds);
}

#[test]
fn chr0_rejects_other_versions() {
    let mut buf: Vec<u8> = Vec::new();
    put_chr0(&mut buf, 0);
    put_u32(&mut buf, 0x8, 5);
    let e = chr0(&buf).unwrap_err();
    assert_eq!(e.kind, DecodeErrorKind::UnsupportedVersion);
}

#[test]
fn chr0_reads_track_names() {
    let mut buf: Vec<u8> = Vec::new();
    put(&mut buf, 0, b"CHR0");
    put_u32(&mut buf, 0x8, 4);
    put_u32(&mut buf, 0x10, 0x40);
    put_u32(&mut buf, 0x14, 0x30);
    put_str(&mut buf, 0x30, "Run");
    put_u16(&mut buf, 0x1c, 60);
    put_u32(&mut buf, 0x20, 1); // looping
    put_group(&mut buf, 0x40, &[("Hip", 0x100), ("Knee", 0x140)]);
    // The Hip track is static (keyframe count one) with a fixed translation
    // by (0, 9, 0); the Knee track names an interpolated table, which the
    // decoder leaves unevaluated.
    put_u32(&mut buf, 0x40 + 0x100, 1);
    put_translation(&mut buf, 0x40 + 0x100 + 4, 0.0, 9.0, 0.0);
    put_u32(&mut buf, 0x40 + 0x140, 12);
    let c = chr0(&buf).unwrap();
    assert_eq!(c.name, "Run");
    assert_eq!(c.num_frames, 60);
    assert!(c.loop_value);
    assert_eq!(c.children.len(), 2);
    assert_eq!(c.children[0].name, "Hip");
    assert_eq!(c.children[1].name, "Knee");
    let hip = c.bone_transform(&String::from("Hip"), 7);
    assert_eq!(f32::from_bits(hip.e[13]), 9.0);
    let knee = c.bone_transform(&String::from("Knee"), 7);
    assert_eq!(f32::from_bits(knee.e[13]), 0.0);
    assert_eq!(f32::from_bits(knee.e[0]), 1.0);
}

#[test]
fn mdl0_without_bone_list_has_no_root() {
    let mut buf: Vec<u8> = Vec::new();
    put_u32(&mut buf, 0x8, 9);
    put(&mut buf, 0x40, &[0u8; 0x40]);
    let m = mdl0(&buf).unwrap();
    assert!(m.root_bone.is_none());
    assert!(m.bones.is_none());
    assert!(m.props.is_some());
}

#[test]
fn mdl0_rejects_a_bone_cycle() {
    let mut buf: Vec<u8> = Vec::new();
    put_mdl0(&mut buf, 0);
    // Make the root bone name itself as its own child: the decoder must
    // refuse rather than chase the cycle.
    put_u32(&mut buf, 0x80 + 0x48 + 68, 0);
    let e = mdl0(&buf).unwrap_err();
    assert_eq!(e.kind, DecodeErrorKind::CorruptContainer);
}

#[test]
fn bres_decodes_nested_containers() {
    let mut buf: Vec<u8> = Vec::new();
    put(&mut buf, 0, b"bres");
    put_u16(&mut buf, 0xc, 0x10);
    // Root group holds one tagless child: a nested container at 0x80 relative
    // to the root body (0x10), whose own group holds one unknown child.
    put_group(&mut buf, 0x18, &[("inner", 0x80)]);
    let nested = 0x10 + 0x80;
    put_group(&mut buf, nested + 0x8, &[("leaf", 0x100)]);
    put(&mut buf, nested + 0x8 + 0x100, b"XYZW");
    while buf.len() < 0x400 {
        buf.push(0);
    }
    let b = bres(&buf).unwrap();
    assert_eq!(b.children.len(), 1);
    assert_eq!(b.children[0].name, "inner");
    match &b.children[0].data {
        BresChildData::Bres(inner) => {
            assert_eq!(inner.children.len(), 1);
            assert_eq!(inner.children[0].name, "leaf");
            match &inner.children[0].data {
                BresChildData::Unknown(tag) => assert_eq!(tag, "XYZW"),
                other => panic!("expected an unknown payload, got {:?}", other),
            }
        }
        other => panic!("expected a nested container, got {:?}", other),
    }
}

/// Builds a fighter data blob with two sections, the second named "data",
/// whose record points at an attribute block with known constants.
#[test]
fn sakurai_data_section_attributes() {
    let mut buf: Vec<u8> = Vec::new();
    // Header: size, lookup offset, lookup entries, sections, subroutines.
    put_u32(&mut buf, 0x4, 0x100); // lookup entries at 0x120
    put_u32(&mut buf, 0x8, 2);
    put_u32(&mut buf, 0xc, 2);
    put_u32(&mut buf, 0x10, 1);
    // Lookup entries: 2 * 4 bytes at 0x120; sections at 0x128; external
    // subroutines at 0x138; string table at 0x140.
    let sections = 0x20 + 0x100 + 8;
    let strings = sections + 2 * 8 + 1 * 8;
    put_u32(&mut buf, sections, 0x400); // "misc" data offset
    put_u32(&mut buf, sections + 4, 0); // name at strings + 0
    put_u32(&mut buf, sections + 8, 0x200); // "data" data offset
    put_u32(&mut buf, sections + 12, 5); // name at strings + 5
    put_str(&mut buf, strings, "misc");
    put_str(&mut buf, strings + 5, "data");
    // The fighter data record at 0x20 + 0x200, attribute_start at its +8.
    let fd = 0x20 + 0x200;
    put_u32(&mut buf, fd + 8, 0x300); // attribute_start
    put_u32(&mut buf, fd + 16, 0x500); // misc_section_offset: the hurtbox list
    put_u32(&mut buf, fd + 48, 0x1234); // subaction_main_start
    put_u32(&mut buf, fd + 68, 0x777); // gooey_bomb_positions
    // Two static hurtboxes at 0x20 + 0x500: a count, then 32-byte records.
    let hb = 0x20 + 0x500;
    put_u32(&mut buf, hb, 2);
    put_u32(&mut buf, hb + 4, 0); // bone 0
    put_u32(&mut buf, hb + 4 + 4, 0.0f32.to_bits());
    put_u32(&mut buf, hb + 4 + 8, 1.5f32.to_bits());
    put_u32(&mut buf, hb + 4 + 12, 0.0f32.to_bits());
    put_u32(&mut buf, hb + 4 + 16, 3.0f32.to_bits()); // radius
    put_u32(&mut buf, hb + 4 + 24, 5.0f32.to_bits()); // stretch y
    put_u32(&mut buf, hb + 4 + 32, 7); // bone 7
    put_u32(&mut buf, hb + 4 + 32 + 16, 2.0f32.to_bits()); // radius
    let at = 0x20 + 0x300;
    put_u32(&mut buf, at + 0x00, 1.5f32.to_bits()); // walk_init_vel
    put_u32(&mut buf, at + 0x60, 6); // num_jumps
    put_u32(&mut buf, at + 0x64, 0.08f32.to_bits()); // gravity
    put_u32(&mut buf, at + 0xb0, 112.0f32.to_bits()); // weight
    while buf.len() < 0x20 + 0x500 + 4 + 64 {
        buf.push(0);
    }
    let h = arc_sakurai(&buf).unwrap();
    assert_eq!(h.section_count, 2);
    assert_eq!(h.sections.len(), 2);
    assert_eq!(h.sections[0].name, "misc");
    assert!(matches!(h.sections[0].data, SectionData::Empty));
    assert_eq!(h.sections[1].name, "data");
    match &h.sections[1].data {
        SectionData::FighterData { header, attributes, hurt_boxes } => {
            assert_eq!(header.attribute_start, 0x300);
            assert_eq!(header.misc_section_offset, 0x500);
            assert_eq!(header.subaction_main_start, 0x1234);
            assert_eq!(header.gooey_bomb_positions, 0x777);
            assert_eq!(f32::from_bits(attributes.walk_init_vel), 1.5);
            assert_eq!(attributes.num_jumps, 6);
            assert_eq!(f32::from_bits(attributes.gravity), 0.08);
            assert_eq!(f32::from_bits(attributes.weight), 112.0);
            assert_eq!(hurt_boxes.len(), 2);
            assert_eq!(hurt_boxes[0].bone_index, 0);
            assert_eq!(f32::from_bits(hurt_boxes[0].offset.y), 1.5);
            assert_eq!(f32::from_bits(hurt_boxes[0].radius), 3.0);
            assert_eq!(f32::from_bits(hurt_boxes[0].stretch.y), 5.0);
            assert_eq!(hurt_boxes[1].bone_index, 7);
            assert_eq!(f32::from_bits(hurt_boxes[1].radius), 2.0);
            assert_eq!(f32::from_bits(hurt_boxes[1].stretch.y), 0.0);
        }
        other => panic!("expected fighter data, got {:?}", other),
    }
}

/// A sub-entry tagged as an archive recurses into a nested archive.
#[test]
fn archive_recurses_into_nested_archives() {
    let mut buf: Vec<u8> = Vec::new();
    put_u16(&mut buf, 6, 1);
    put_str(&mut buf, 0x10, "outer");
    put_u32(&mut buf, 0x44, 0x100);
    put_u16(&mut buf, 0x49, 0x00FF);
    // The nested archive at 0x60: its own header, no sub-entries.
    put(&mut buf, 0x60, b"ARC\0");
    put_u16(&mut buf, 0x60 + 6, 0);
    put_str(&mut buf, 0x60 + 0x10, "inner");
    while buf.len() < 0x160 {
        buf.push(0);
    }
    let a = arc(&buf).unwrap();
    assert_eq!(a.name, "outer");
    assert_eq!(a.children.len(), 1);
    match &a.children[0].data {
        ArcChildData::Arc(inner) => {
            assert_eq!(inner.name, "inner");
            assert_eq!(inner.children.len(), 0);
        }
        other => panic!("expected a nested archive, got {:?}", other),
    }
}
