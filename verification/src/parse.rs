//! Decoder for the top-level archive container: a header, then a sequence of
//! self-describing sub-entries walked by their size fields with mandatory
//! alignment padding, each payload dispatched by a four-byte tag; and for the
//! fixed-layout fighter data section one of those entries embeds, with the
//! fighter's physics constants. Every float constant is carried verbatim as
//! its bit pattern.

use crate::DecodeError;
use crate::DecodeErrorKind;
use crate::bres::Bres;
use crate::bres::bres;
use crate::bres::bres_decoded;
use crate::bres::bres_ok;
use crate::bres::no_tag;
use crate::bytes::be_i16;
use crate::bytes::be_i32;
use crate::bytes::be_u16;
use crate::bytes::be_u32;
use crate::bytes::gi32;
use crate::bytes::gu32;
use crate::bytes::printable;
use crate::bytes::read_i16;
use crate::bytes::read_i32;
use crate::bytes::read_u16;
use crate::bytes::read_u8;
use crate::bytes::tag4;
use crate::geom::Vec3;
use crate::geometry::HurtDescriptor;
use crate::util::c_string_at;
use crate::util::c_string_ok;
use crate::util::read_c_string;
use vstd::prelude::*;

verus! {

/// One fighter's decoded archives: the moveset and animation archives and any
/// model archives, as read from its asset files.
#[derive(Debug)]
pub struct BrawlFighter {
    pub cased_fighter_name: String,
    pub folder_name: String,
    pub moveset: Arc,
    pub motion: Arc,
    pub models: Vec<Arc>,
}

/// A decoded archive container (an archive in the asset-file sense): its name
/// and its sub-entries.
#[derive(Debug)]
pub struct Arc {
    pub name: String,
    pub children: Vec<ArcChild>,
}

/// One archive sub-entry: its header fields and the payload its tag selects.
#[derive(Debug)]
pub struct ArcChild {
    pub ty: i16,
    pub index: i16,
    pub size: i32,
    pub group_index: u8,
    pub redirect_index: i16,
    pub data: ArcChildData,
}

/// The payload of an archive sub-entry. An unrecognized tag is a deliberate
/// "skip, not needed" outcome, not an error.
#[derive(Debug)]
pub enum ArcChildData {
    Arc(Arc),
    Sakurai(ArcSakurai),
    Efls,
    Bres(Bres),
    Atkd,
    Reff,
    Reft,
    Aipd,
    W,
    Unknown,
}

/// The fighter data blob of an archive: a lookup table, named sections, and
/// external subroutines, with the fighter attributes under the section named
/// "data".
#[derive(Debug)]
pub struct ArcSakurai {
    pub size: i32,
    pub lookup_offset: i32,
    pub lookup_entry_count: i32,
    pub section_count: i32,
    pub external_subroutine_count: i32,
    pub sections: Vec<ArcSakuraiSection>,
}

/// One named section of the fighter data blob.
#[derive(Debug)]
pub struct ArcSakuraiSection {
    pub data_offset: i32,
    pub string_offset: i32,
    pub name: String,
    pub data: SectionData,
}

/// What a section stores: the fighter data record with its attributes and
/// static hurtbox descriptors, or nothing this decoder reads.
#[derive(Debug)]
pub enum SectionData {
    FighterData {
        header: ArcFighterData,
        attributes: FighterAttributes,
        hurt_boxes: Vec<HurtDescriptor>,
    },
    Empty,
}

/// The fixed-layout fighter data header: offsets of the per-move tables.
#[derive(Clone, Copy, Debug, PartialEq, Eq, Structural)]
pub struct ArcFighterData {
    pub subaction_flags_start: i32,
    pub model_visibility_start: i32,
    pub attribute_start: i32,
    pub sse_attribute_start: i32,
    pub misc_section_offset: i32,
    pub common_action_flags_start: i32,
    pub action_flags_start: i32,
    pub action_interrupts: i32,
    pub entry_actions_start: i32,
    pub exit_actions_start: i32,
    pub action_pre_start: i32,
    pub subaction_main_start: i32,
    pub subaction_gfx_start: i32,
    pub subaction_sfx_start: i32,
    pub subaction_other_start: i32,
    pub anchored_item_positions: i32,
    pub gooey_bomb_positions: i32,
    pub bone_ref1: i32,
    pub bone_ref2: i32,
    pub entry_action_overrides: i32,
    pub exit_action_overrides: i32,
    pub samus_arm_cannon_positions: i32,
    pub static_articles_start: i32,
    pub entry_articles_start: i32,
    pub flags1: u32,
    pub flags2: i32,
}

/// The fighter's physics constants, copied verbatim from the attribute
/// record: integer counts as integers, float quantities as their bit
/// patterns. No unit conversion happens here.
#[derive(Clone, Copy, Debug, PartialEq, Eq, Structural)]
pub struct FighterAttributes {
    pub walk_init_vel: u32,
    pub walk_acc: u32,
    pub walk_max_vel: u32,
    pub ground_friction: u32,
    pub dash_init_vel: u32,
    pub dash_run_acc_a: u32,
    pub dash_run_acc_b: u32,
    pub dash_run_term_vel: u32,
    pub grounded_max_x_vel: u32,
    pub dash_cancel_frame_window: i32,
    pub guard_on_max_momentum: u32,
    pub jump_squat_frames: i32,
    pub jump_x_init_vel: u32,
    pub jump_y_init_vel: u32,
    pub jump_x_vel_ground_mult: u32,
    pub jump_x_init_term_vel: u32,
    pub jump_y_init_vel_short: u32,
    pub air_jump_x_mult: u32,
    pub air_jump_y_mult: u32,
    pub footstool_init_vel: u32,
    pub footstool_init_vel_short: u32,
    pub meteor_cancel_delay: u32,
    pub num_jumps: u32,
    pub gravity: u32,
    pub term_vel: u32,
    pub air_friction_y: u32,
    pub air_y_term_vel: u32,
    pub air_mobility_a: u32,
    pub air_mobility_b: u32,
    pub air_x_term_mobility: u32,
    pub air_friction_x: u32,
    pub fastfall_velocity: u32,
    pub air_x_term_vel: u32,
    pub glide_frame_window: u32,
    pub jab2_window: u32,
    pub jab3_window: u32,
    pub ftilt2_window: u32,
    pub ftilt3_window: u32,
    pub fsmash2_window: u32,
    pub flip_dir_frame: u32,
    pub weight: u32,
    pub size: u32,
    pub results_screen_size: u32,
    pub shield_size: u32,
    pub shield_break_vel: u32,
    pub shield_strength: u32,
    pub respawn_platform_size: u32,
    pub edge_jump_x_vel: u32,
    pub edge_jump_y_vel: u32,
    pub item_throw_strength: u32,
    pub projectile_item_move_speed: u32,
    pub projectile_item_move_speed_dash_f: u32,
    pub projectile_item_move_speed_dash_b: u32,
    pub light_landing_lag: u32,
    pub normal_landing_lag: u32,
    pub nair_landing_lag: u32,
    pub fair_landing_lag: u32,
    pub bair_landing_lag: u32,
    pub uair_landing_lag: u32,
    pub dair_landing_lag: u32,
    pub term_vel_hard_frames: u32,
    pub hip_n_bone: u32,
    pub tag_height_value: u32,
    pub walljump_x_vel: u32,
    pub walljump_y_vel: u32,
    pub lhand_n_bone: u32,
    pub rhand_n_bone: u32,
    pub water_y_acc: u32,
    pub spit_star_size: u32,
    pub spit_star_damage: u32,
    pub egg_size: u32,
    pub hip_n_bone2: u32,
    pub x_rot_n_bone: u32,
}

/// The fighter data header, field by field.
pub open spec fn spec_fighter_data(s: Seq<u8>) -> ArcFighterData {
    ArcFighterData {
        subaction_flags_start: be_i32(s, 0),
        model_visibility_start: be_i32(s, 4),
        attribute_start: be_i32(s, 8),
        sse_attribute_start: be_i32(s, 12),
        misc_section_offset: be_i32(s, 16),
        common_action_flags_start: be_i32(s, 20),
        action_flags_start: be_i32(s, 24),
        action_interrupts: be_i32(s, 32),
        entry_actions_start: be_i32(s, 36),
        exit_actions_start: be_i32(s, 40),
        action_pre_start: be_i32(s, 44),
        subaction_main_start: be_i32(s, 48),
        subaction_gfx_start: be_i32(s, 52),
        subaction_sfx_start: be_i32(s, 56),
        subaction_other_start: be_i32(s, 60),
        anchored_item_positions: be_i32(s, 64),
        gooey_bomb_positions: be_i32(s, 68),
        bone_ref1: be_i32(s, 72),
        bone_ref2: be_i32(s, 76),
        entry_action_overrides: be_i32(s, 80),
        exit_action_overrides: be_i32(s, 84),
        samus_arm_cannon_positions: be_i32(s, 92),
        static_articles_start: be_i32(s, 100),
        entry_articles_start: be_i32(s, 104),
        flags1: be_u32(s, 116),
        flags2: be_i32(s, 120),
    }
}

/// The attribute record, field by field.
pub open spec fn spec_fighter_attributes(s: Seq<u8>) -> FighterAttributes {
    FighterAttributes {
        walk_init_vel: be_u32(s, 0x0),
        walk_acc: be_u32(s, 0x4),
        walk_max_vel: be_u32(s, 0x8),
        ground_friction: be_u32(s, 0xc),
        dash_init_vel: be_u32(s, 0x10),
        dash_run_acc_a: be_u32(s, 0x14),
        dash_run_acc_b: be_u32(s, 0x18),
        dash_run_term_vel: be_u32(s, 0x1c),
        grounded_max_x_vel: be_u32(s, 0x24),
        dash_cancel_frame_window: be_i32(s, 0x28),
        guard_on_max_momentum: be_u32(s, 0x2c),
        jump_squat_frames: be_i32(s, 0x30),
        jump_x_init_vel: be_u32(s, 0x34),
        jump_y_init_vel: be_u32(s, 0x38),
        jump_x_vel_ground_mult: be_u32(s, 0x3c),
        jump_x_init_term_vel: be_u32(s, 0x40),
        jump_y_init_vel_short: be_u32(s, 0x44),
        air_jump_x_mult: be_u32(s, 0x48),
        air_jump_y_mult: be_u32(s, 0x4c),
        footstool_init_vel: be_u32(s, 0x50),
        footstool_init_vel_short: be_u32(s, 0x54),
        meteor_cancel_delay: be_u32(s, 0x5c),
        num_jumps: be_u32(s, 0x60),
        gravity: be_u32(s, 0x64),
        term_vel: be_u32(s, 0x68),
        air_friction_y: be_u32(s, 0x6c),
        air_y_term_vel: be_u32(s, 0x70),
        air_mobility_a: be_u32(s, 0x74),
        air_mobility_b: be_u32(s, 0x78),
        air_x_term_mobility: be_u32(s, 0x7c),
        air_friction_x: be_u32(s, 0x80),
        fastfall_velocity: be_u32(s, 0x84),
        air_x_term_vel: be_u32(s, 0x88),
        glide_frame_window: be_u32(s, 0x8c),
        jab2_window: be_u32(s, 0x94),
        jab3_window: be_u32(s, 0x98),
        ftilt2_window: be_u32(s, 0x9c),
        ftilt3_window: be_u32(s, 0xa0),
        fsmash2_window: be_u32(s, 0xa4),
        flip_dir_frame: be_u32(s, 0xa8),
        weight: be_u32(s, 0xb0),
        size: be_u32(s, 0xb4),
        results_screen_size: be_u32(s, 0xb8),
        shield_size: be_u32(s, 0xc4),
        shield_break_vel: be_u32(s, 0xc8),
        shield_strength: be_u32(s, 0xcc),
        respawn_platform_size: be_u32(s, 0xd4),
        edge_jump_x_vel: be_u32(s, 0xf4),
        edge_jump_y_vel: be_u32(s, 0xfc),
        item_throw_strength: be_u32(s, 0x118),
        projectile_item_move_speed: be_u32(s, 0x128),
        projectile_item_move_speed_dash_f: be_u32(s, 0x12c),
        projectile_item_move_speed_dash_b: be_u32(s, 0x130),
        light_landing_lag: be_u32(s, 0x138),
        normal_landing_lag: be_u32(s, 0x13c),
        nair_landing_lag: be_u32(s, 0x140),
        fair_landing_lag: be_u32(s, 0x144),
        bair_landing_lag: be_u32(s, 0x148),
        uair_landing_lag: be_u32(s, 0x14c),
        dair_landing_lag: be_u32(s, 0x150),
        term_vel_hard_frames: be_u32(s, 0x154),
        hip_n_bone: be_u32(s, 0x158),
        tag_height_value: be_u32(s, 0x15c),
        walljump_x_vel: be_u32(s, 0x164),
        walljump_y_vel: be_u32(s, 0x168),
        lhand_n_bone: be_u32(s, 0x180),
        rhand_n_bone: be_u32(s, 0x184),
        water_y_acc: be_u32(s, 0x18c),
        spit_star_size: be_u32(s, 0x1a4),
        spit_star_damage: be_u32(s, 0x1a8),
        egg_size: be_u32(s, 0x1ac),
        hip_n_bone2: be_u32(s, 0x1cc),
        x_rot_n_bone: be_u32(s, 0x1e0),
    }
}

impl ArcFighterData {
    /// Decodes the fighter data header at the start of `data`.
    pub fn new(data: &[u8]) -> (r: Result<ArcFighterData, DecodeError>)
        ensures
            r is Ok <==> data@.len() >= 0x7c,
            r matches Ok(v) ==> v == spec_fighter_data(data@),
            data@.len() < 0x7c ==> r == Err::<ArcFighterData, DecodeError>(
                DecodeError { kind: DecodeErrorKind::OutOfBounds, offset: 0 },
            ),
    {
        if data.len() < 0x7c {
            return Err(DecodeError { kind: DecodeErrorKind::OutOfBounds, offset: 0 });
        }
        Ok(
            ArcFighterData {
                subaction_flags_start: gi32(data, 0),
                model_visibility_start: gi32(data, 4),
                attribute_start: gi32(data, 8),
                sse_attribute_start: gi32(data, 12),
                misc_section_offset: gi32(data, 16),
                common_action_flags_start: gi32(data, 20),
                action_flags_start: gi32(data, 24),
                action_interrupts: gi32(data, 32),
                entry_actions_start: gi32(data, 36),
                exit_actions_start: gi32(data, 40),
                action_pre_start: gi32(data, 44),
                subaction_main_start: gi32(data, 48),
                subaction_gfx_start: gi32(data, 52),
                subaction_sfx_start: gi32(data, 56),
                subaction_other_start: gi32(data, 60),
                anchored_item_positions: gi32(data, 64),
                gooey_bomb_positions: gi32(data, 68),
                bone_ref1: gi32(data, 72),
                bone_ref2: gi32(data, 76),
                entry_action_overrides: gi32(data, 80),
                exit_action_overrides: gi32(data, 84),
                samus_arm_cannon_positions: gi32(data, 92),
                static_articles_start: gi32(data, 100),
                entry_articles_start: gi32(data, 104),
                flags1: gu32(data, 116),
                flags2: gi32(data, 120),
            },
        )
    }
}

impl FighterAttributes {
    /// Decodes the attribute record at the start of `data`.
    pub fn new(data: &[u8]) -> (r: Result<FighterAttributes, DecodeError>)
        ensures
            r is Ok <==> data@.len() >= 0x1e4,
            r matches Ok(v) ==> v == spec_fighter_attributes(data@),
            data@.len() < 0x1e4 ==> r == Err::<FighterAttributes, DecodeError>(
                DecodeError { kind: DecodeErrorKind::OutOfBounds, offset: 0 },
            ),
    {
        if data.len() < 0x1e4 {
            return Err(DecodeError { kind: DecodeErrorKind::OutOfBounds, offset: 0 });
        }
        Ok(
            FighterAttributes {
                walk_init_vel: gu32(data, 0x0),
                walk_acc: gu32(data, 0x4),
                walk_max_vel: gu32(data, 0x8),
                ground_friction: gu32(data, 0xc),
                dash_init_vel: gu32(data, 0x10),
                dash_run_acc_a: gu32(data, 0x14),
                dash_run_acc_b: gu32(data, 0x18),
                dash_run_term_vel: gu32(data, 0x1c),
                grounded_max_x_vel: gu32(data, 0x24),
                dash_cancel_frame_window: gi32(data, 0x28),
                guard_on_max_momentum: gu32(data, 0x2c),
                jump_squat_frames: gi32(data, 0x30),
                jump_x_init_vel: gu32(data, 0x34),
                jump_y_init_vel: gu32(data, 0x38),
                jump_x_vel_ground_mult: gu32(data, 0x3c),
                jump_x_init_term_vel: gu32(data, 0x40),
                jump_y_init_vel_short: gu32(data, 0x44),
                air_jump_x_mult: gu32(data, 0x48),
                air_jump_y_mult: gu32(data, 0x4c),
                footstool_init_vel: gu32(data, 0x50),
                footstool_init_vel_short: gu32(data, 0x54),
                meteor_cancel_delay: gu32(data, 0x5c),
                num_jumps: gu32(data, 0x60),
                gravity: gu32(data, 0x64),
                term_vel: gu32(data, 0x68),
                air_friction_y: gu32(data, 0x6c),
                air_y_term_vel: gu32(data, 0x70),
                air_mobility_a: gu32(data, 0x74),
                air_mobility_b: gu32(data, 0x78),
                air_x_term_mobility: gu32(data, 0x7c),
                air_friction_x: gu32(data, 0x80),
                fastfall_velocity: gu32(data, 0x84),
                air_x_term_vel: gu32(data, 0x88),
                glide_frame_window: gu32(data, 0x8c),
                jab2_window: gu32(data, 0x94),
                jab3_window: gu32(data, 0x98),
                ftilt2_window: gu32(data, 0x9c),
                ftilt3_window: gu32(data, 0xa0),
                fsmash2_window: gu32(data, 0xa4),
                flip_dir_frame: gu32(data, 0xa8),
                weight: gu32(data, 0xb0),
                size: gu32(data, 0xb4),
                results_screen_size: gu32(data, 0xb8),
                shield_size: gu32(data, 0xc4),
                shield_break_vel: gu32(data, 0xc8),
                shield_strength: gu32(data, 0xcc),
                respawn_platform_size: gu32(data, 0xd4),
                edge_jump_x_vel: gu32(data, 0xf4),
                edge_jump_y_vel: gu32(data, 0xfc),
                item_throw_strength: gu32(data, 0x118),
                projectile_item_move_speed: gu32(data, 0x128),
                projectile_item_move_speed_dash_f: gu32(data, 0x12c),
                projectile_item_move_speed_dash_b: gu32(data, 0x130),
                light_landing_lag: gu32(data, 0x138),
                normal_landing_lag: gu32(data, 0x13c),
                nair_landing_lag: gu32(data, 0x140),
                fair_landing_lag: gu32(data, 0x144),
                bair_landing_lag: gu32(data, 0x148),
                uair_landing_lag: gu32(data, 0x14c),
                dair_landing_lag: gu32(data, 0x150),
                term_vel_hard_frames: gu32(data, 0x154),
                hip_n_bone: gu32(data, 0x158),
                tag_height_value: gu32(data, 0x15c),
                walljump_x_vel: gu32(data, 0x164),
                walljump_y_vel: gu32(data, 0x168),
                lhand_n_bone: gu32(data, 0x180),
                rhand_n_bone: gu32(data, 0x184),
                water_y_acc: gu32(data, 0x18c),
                spit_star_size: gu32(data, 0x1a4),
                spit_star_damage: gu32(data, 0x1a8),
                egg_size: gu32(data, 0x1ac),
                hip_n_bone2: gu32(data, 0x1cc),
                x_rot_n_bone: gu32(data, 0x1e0),
            },
        )
    }
}

/// Where the lookup entries start inside the fighter data blob.
pub open spec fn lookup_index(s: Seq<u8>) -> int {
    0x20 + be_i32(s, 4)
}

/// Where the section headers start: after the lookup entries.
pub open spec fn sections_index(s: Seq<u8>) -> int {
    lookup_index(s) + 4 * be_i32(s, 8)
}

/// Where the external subroutine entries start: after the section headers.
pub open spec fn extern_sub_index(s: Seq<u8>) -> int {
    sections_index(s) + 8 * be_i32(s, 12)
}

/// Where the string table starts: after the external subroutine entries, in
/// that fixed order.
pub open spec fn string_table_index(s: Seq<u8>) -> int {
    extern_sub_index(s) + 8 * be_i32(s, 16)
}

/// The name characters of section `i`.
pub open spec fn section_name(s: Seq<u8>, i: int) -> Seq<char> {
    c_string_at(s, string_table_index(s) + be_i32(s, sections_index(s) + 8 * i + 4))
}

/// One static hurtbox descriptor at `off`: the bone it anchors to, then the
/// offset vector, the radius and the stretch vector as bit patterns.
pub open spec fn spec_hurt_descriptor(s: Seq<u8>, off: int) -> HurtDescriptor {
    HurtDescriptor {
        bone_index: be_u32(s, off),
        offset: Vec3 { x: be_u32(s, off + 4), y: be_u32(s, off + 8), z: be_u32(s, off + 12) },
        radius: be_u32(s, off + 16),
        stretch: Vec3 { x: be_u32(s, off + 20), y: be_u32(s, off + 24), z: be_u32(s, off + 28) },
    }
}

/// Where the "data" section's hurtbox list starts: the misc record the
/// fighter data header points to begins with the list (a count, then fixed
/// 32-byte descriptors). Earlier format generations carry no pointer (a
/// non-positive offset) and have no static hurtboxes.
pub open spec fn hurt_list_off(s: Seq<u8>, dof: int) -> int {
    0x20 + be_i32(s, 0x20 + dof + 16)
}

/// The hurtbox list of the "data" section at record offset `dof` decodes
/// without error.
pub open spec fn hurt_list_ok(s: Seq<u8>, dof: int) -> bool {
    let mo = be_i32(s, 0x20 + dof + 16);
    let hl = hurt_list_off(s, dof);
    mo <= 0 || {
        &&& hl + 4 <= s.len()
        &&& be_i32(s, hl) >= 0
        &&& hl + 4 + 32 * be_i32(s, hl) <= s.len()
    }
}

/// `v` is exactly the hurtbox list of the "data" section at record offset
/// `dof`: empty when the record carries no pointer, else one descriptor per
/// stored record, in order.
pub open spec fn hurt_list_matches(s: Seq<u8>, dof: int, v: Seq<HurtDescriptor>) -> bool {
    let mo = be_i32(s, 0x20 + dof + 16);
    let hl = hurt_list_off(s, dof);
    if mo <= 0 {
        v.len() == 0
    } else {
        &&& v.len() == be_i32(s, hl)
        &&& forall|k: int| 0 <= k < v.len() ==> #[trigger] v[k] == spec_hurt_descriptor(
            s,
            hl + 4 + 32 * k,
        )
    }
}

/// Section `i` decodes without error: its header is readable, its name
/// resolves in the string table, and when it is the "data" section, the
/// fighter data record and the attribute record it points to lie inside the
/// buffer.
pub open spec fn section_ok(s: Seq<u8>, i: int) -> bool {
    let off = sections_index(s) + 8 * i;
    let so = be_i32(s, off + 4);
    let dof = be_i32(s, off);
    &&& 0 <= off
    &&& off + 8 <= s.len()
    &&& so >= 0
    &&& string_table_index(s) + so <= s.len()
    &&& c_string_ok(s, string_table_index(s) + so)
    &&& (section_name(s, i) == "data"@ ==> {
        let ab = be_i32(s, 0x20 + dof + 8);
        &&& dof >= 0
        &&& 0x20 + dof + 0x7c <= s.len()
        &&& ab >= 0
        &&& 0x20 + ab + 0x1e4 <= s.len()
        &&& hurt_list_ok(s, dof as int)
    })
}

/// A fighter data blob at the start of `s` decodes without error.
pub open spec fn sakurai_ok(s: Seq<u8>) -> bool {
    &&& s.len() >= 20
    &&& be_i32(s, 4) >= 0
    &&& be_i32(s, 8) >= 0
    &&& be_i32(s, 12) >= 0
    &&& be_i32(s, 16) >= 0
    &&& forall|i: int| 0 <= i < be_i32(s, 12) ==> #[trigger] section_ok(s, i)
}

/// `v` is exactly section `i` of the blob: its offsets, its resolved name,
/// and, for the "data" section, the fighter data header and the attribute
/// record it points to.
pub open spec fn section_matches(s: Seq<u8>, i: int, v: ArcSakuraiSection) -> bool {
    let off = sections_index(s) + 8 * i;
    let dof = be_i32(s, off);
    &&& v.data_offset == dof
    &&& v.string_offset == be_i32(s, off + 4)
    &&& v.name@ == section_name(s, i)
    &&& if section_name(s, i) == "data"@ {
        v.data matches SectionData::FighterData { header, attributes, hurt_boxes } && header
            == spec_fighter_data(s.skip(0x20 + dof)) && attributes == spec_fighter_attributes(
            s.skip(0x20 + be_i32(s, 0x20 + dof + 8)),
        ) && hurt_list_matches(s, dof as int, hurt_boxes@)
    } else {
        v.data is Empty
    }
}

/// `h` is exactly the blob stored at the start of `s`.
pub open spec fn sakurai_decoded(s: Seq<u8>, h: ArcSakurai) -> bool {
    &&& h.size == be_i32(s, 0)
    &&& h.lookup_offset == be_i32(s, 4)
    &&& h.lookup_entry_count == be_i32(s, 8)
    &&& h.section_count == be_i32(s, 12)
    &&& h.external_subroutine_count == be_i32(s, 16)
    &&& h.sections@.len() == be_i32(s, 12)
    &&& forall|i: int|
        0 <= i < h.sections@.len() ==> section_matches(s, i, #[trigger] h.sections@[i])
}

/// Decodes the static hurtbox-descriptor list of the "data" section whose
/// record starts at `0x20 + dof`: the misc record its header points to begins
/// with a count and then fixed 32-byte descriptors. A record without the
/// pointer (earlier format generations) has no static hurtboxes.
fn read_hurt_list(data: &[u8], dof: i32) -> (r: Result<Vec<HurtDescriptor>, DecodeError>)
    requires
        dof >= 0,
        0x20 + dof + 20 <= data@.len(),
    ensures
        r is Ok <==> hurt_list_ok(data@, dof as int),
        r matches Ok(v) ==> hurt_list_matches(data@, dof as int, v@),
{
    let base = 0x20 + dof as usize;
    let mo = match read_i32(data, base + 16) {
        Ok(v) => v,
        Err(e) => { return Err(e) },
    };
    if mo <= 0 {
        return Ok(Vec::new());
    }
    let hl64: u64 = 0x20u64 + (mo as u64);
    if hl64 + 4 > data.len() as u64 {
        return Err(DecodeError { kind: DecodeErrorKind::OutOfBounds, offset: base + 16 });
    }
    let hl = hl64 as usize;
    let cnt = match read_i32(data, hl) {
        Ok(v) => v,
        Err(e) => { return Err(e) },
    };
    if cnt < 0 {
        return Err(DecodeError { kind: DecodeErrorKind::CorruptContainer, offset: hl });
    }
    if ((data.len() - (hl + 4)) as u64) < 32u64 * (cnt as u64) {
        return Err(DecodeError { kind: DecodeErrorKind::OutOfBounds, offset: hl });
    }
    let mut out: Vec<HurtDescriptor> = Vec::new();
    let mut k: usize = 0;
    while k < cnt as usize
        invariant
            0 <= k <= cnt,
            cnt >= 0,
            cnt == be_i32(data@, hl as int),
            hl == hurt_list_off(data@, dof as int),
            hl + 4 + 32 * cnt <= data@.len(),
            data@.len() <= usize::MAX,
            out@.len() == k,
            forall|j: int| 0 <= j < k ==> #[trigger] out@[j] == spec_hurt_descriptor(
                data@,
                hl + 4 + 32 * j,
            ),
        decreases cnt - k,
    {
        let off = hl + 4 + 32 * k;
        out.push(
            HurtDescriptor {
                bone_index: gu32(data, off),
                offset: Vec3 {
                    x: gu32(data, off + 4),
                    y: gu32(data, off + 8),
                    z: gu32(data, off + 12),
                },
                radius: gu32(data, off + 16),
                stretch: Vec3 {
                    x: gu32(data, off + 20),
                    y: gu32(data, off + 24),
                    z: gu32(data, off + 28),
                },
            },
        );
        k += 1;
    }
    Ok(out)
}

/// Decodes the fighter data blob at the start of `data`: the four counts of
/// its header place the string table, each section name is read there, and
/// the section named "data" yields the fighter data header, the attributes
/// and the static hurtbox descriptors.
#[verifier::rlimit(40)]
pub fn arc_sakurai(data: &[u8]) -> (r: Result<ArcSakurai, DecodeError>)
    ensures
        r is Ok <==> sakurai_ok(data@),
        r matches Ok(h) ==> sakurai_decoded(data@, h),
{
    if data.len() < 20 {
        return Err(DecodeError { kind: DecodeErrorKind::OutOfBounds, offset: 0 });
    }
    let size = match read_i32(data, 0) {
        Ok(v) => v,
        Err(e) => { return Err(e) },
    };
    let lookup_offset = match read_i32(data, 4) {
        Ok(v) => v,
        Err(e) => { return Err(e) },
    };
    let lookup_entry_count = match read_i32(data, 8) {
        Ok(v) => v,
        Err(e) => { return Err(e) },
    };
    let section_count = match read_i32(data, 12) {
        Ok(v) => v,
        Err(e) => { return Err(e) },
    };
    let external_subroutine_count = match read_i32(data, 16) {
        Ok(v) => v,
        Err(e) => { return Err(e) },
    };
    if lookup_offset < 0 || lookup_entry_count < 0 || section_count < 0
        || external_subroutine_count < 0 {
        return Err(DecodeError { kind: DecodeErrorKind::CorruptContainer, offset: 4 });
    }
    // The string table sits after the lookup entries, the section headers and
    // the external subroutine entries, in that fixed order; the arithmetic is
    // widened so that it cannot overflow on any machine.
    let sections_start: u64 = 0x20u64 + (lookup_offset as u64) + 4u64 * (lookup_entry_count
        as u64);
    let string_table_start: u64 = sections_start + 8u64 * (section_count as u64) + 8u64 * (
    external_subroutine_count as u64);
    let mut sections: Vec<ArcSakuraiSection> = Vec::new();
    let mut i: usize = 0;
    let data_lit = String::from_str("data");
    proof {
        assert(sections_start == sections_index(data@));
        assert(string_table_start == string_table_index(data@));
    }
    while i < section_count as usize
        invariant
            0 <= i <= section_count,
            data@.len() >= 20,
            section_count == be_i32(data@, 12),
            section_count >= 0,
            sections_start == sections_index(data@),
            string_table_start == string_table_index(data@),
            data_lit@ == "data"@,
            sections@.len() == i,
            forall|k: int| 0 <= k < i ==> section_matches(data@, k, #[trigger] sections@[k]),
            forall|k: int| 0 <= k < i ==> #[trigger] section_ok(data@, k),
        decreases section_count - i,
    {
        let off64: u64 = sections_start + 8u64 * (i as u64);
        if off64 + 8 > data.len() as u64 {
            assert(!section_ok(data@, i as int));
            return Err(DecodeError { kind: DecodeErrorKind::OutOfBounds, offset: 0 });
        }
        let off = off64 as usize;
        let data_offset = match read_i32(data, off) {
            Ok(v) => v,
            Err(e) => { return Err(e) },
        };
        let string_offset = match read_i32(data, off + 4) {
            Ok(v) => v,
            Err(e) => { return Err(e) },
        };
        if string_offset < 0 {
            assert(!section_ok(data@, i as int));
            return Err(DecodeError { kind: DecodeErrorKind::CorruptContainer, offset: off + 4 });
        }
        let name_off64: u64 = string_table_start + (string_offset as u64);
        if name_off64 > data.len() as u64 {
            assert(!section_ok(data@, i as int));
            return Err(DecodeError { kind: DecodeErrorKind::OutOfBounds, offset: off + 4 });
        }
        let name = match read_c_string(data, name_off64 as usize) {
            Ok(v) => v.to_owned(),
            Err(e) => {
                assert(!section_ok(data@, i as int));
                return Err(e);
            },
        };
        let is_data = name == data_lit;
        let section_data = if is_data {
            if data_offset < 0 {
                assert(name@ == section_name(data@, i as int));
                assert(!section_ok(data@, i as int));
                return Err(DecodeError { kind: DecodeErrorKind::CorruptContainer, offset: off });
            }
            let base64: u64 = 0x20u64 + (data_offset as u64);
            if base64 > data.len() as u64 {
                assert(name@ == section_name(data@, i as int));
                assert(!section_ok(data@, i as int));
                return Err(DecodeError { kind: DecodeErrorKind::OutOfBounds, offset: off });
            }
            let body = &data[base64 as usize..data.len()];
            proof {
                assert(body@ =~= data@.skip(0x20 + data_offset as int));
            }
            let header = match ArcFighterData::new(body) {
                Ok(v) => v,
                Err(e) => {
                    assert(name@ == section_name(data@, i as int));
                    assert(!section_ok(data@, i as int));
                    return Err(e);
                },
            };
            if header.attribute_start < 0 {
                assert(name@ == section_name(data@, i as int));
                assert(!section_ok(data@, i as int));
                return Err(DecodeError { kind: DecodeErrorKind::CorruptContainer, offset: off });
            }
            let abase64: u64 = 0x20u64 + (header.attribute_start as u64);
            if abase64 > data.len() as u64 {
                assert(name@ == section_name(data@, i as int));
                assert(!section_ok(data@, i as int));
                return Err(DecodeError { kind: DecodeErrorKind::OutOfBounds, offset: off });
            }
            let abody = &data[abase64 as usize..data.len()];
            proof {
                assert(abody@ =~= data@.skip(0x20 + header.attribute_start as int));
            }
            let attributes = match FighterAttributes::new(abody) {
                Ok(v) => v,
                Err(e) => {
                    assert(name@ == section_name(data@, i as int));
                    assert(!section_ok(data@, i as int));
                    return Err(e);
                },
            };
            let hurt_boxes = match read_hurt_list(data, data_offset) {
                Ok(v) => v,
                Err(e) => {
                    assert(name@ == section_name(data@, i as int));
                    assert(!section_ok(data@, i as int));
                    return Err(e);
                },
            };
            SectionData::FighterData { header, attributes, hurt_boxes }
        } else {
            SectionData::Empty
        };
        let section = ArcSakuraiSection { data_offset, string_offset, name, data: section_data };
        proof {
            assert(section_ok(data@, i as int));
            assert(section_matches(data@, i as int, section));
        }
        sections.push(section);
        i += 1;
    }
    Ok(
        ArcSakurai {
            size,
            lookup_offset,
            lookup_entry_count,
            section_count,
            external_subroutine_count,
            sections,
        },
    )
}

/// The number of sub-entry headers the archive announces.
pub open spec fn arc_num(s: Seq<u8>) -> int {
    be_u16(s, 6) as int
}

/// Rounding up to the next 0x20-byte boundary: the mandatory alignment
/// padding between sub-entries. Omitting it would desync every entry that
/// follows.
pub open spec fn align20(n: int) -> int {
    if n % 0x20 == 0 {
        n
    } else {
        n + 0x20 - n % 0x20
    }
}

/// Where the entry after the entry at `off` begins: past its header and its
/// size, aligned. Every entry advances the cursor this way, whether or not
/// its body is decoded; a cursor driven past the buffer end is fatal.
pub open spec fn next_off(s: Seq<u8>, off: int) -> int {
    align20(off + 0x20 + be_i32(s, off + 4))
}

/// Where the cursor stands after `cnt` entries from `off`.
pub open spec fn end_off(s: Seq<u8>, off: int, cnt: int) -> int
    decreases cnt,
{
    if cnt <= 0 {
        off
    } else {
        end_off(s, next_off(s, off), cnt - 1)
    }
}

pub open spec fn is_arc_tag(t: Seq<u8>) -> bool {
    t.len() == 4 && t[0] == 0x41 && t[1] == 0x52 && t[2] == 0x43 && !printable(t[3])
}

pub open spec fn is_efls_tag(t: Seq<u8>) -> bool {
    t.len() == 4 && t[0] == 0x45 && t[1] == 0x46 && t[2] == 0x4C && t[3] == 0x53
}

pub open spec fn is_bres_tag(t: Seq<u8>) -> bool {
    t.len() == 4 && t[0] == 0x62 && t[1] == 0x72 && t[2] == 0x65 && t[3] == 0x73
}

pub open spec fn is_atkd_tag(t: Seq<u8>) -> bool {
    t.len() == 4 && t[0] == 0x41 && t[1] == 0x54 && t[2] == 0x4B && t[3] == 0x44
}

pub open spec fn is_reff_tag(t: Seq<u8>) -> bool {
    t.len() == 4 && t[0] == 0x52 && t[1] == 0x45 && t[2] == 0x46 && t[3] == 0x46
}

pub open spec fn is_reft_tag(t: Seq<u8>) -> bool {
    t.len() == 4 && t[0] == 0x52 && t[1] == 0x45 && t[2] == 0x46 && t[3] == 0x54
}

pub open spec fn is_aipd_tag(t: Seq<u8>) -> bool {
    t.len() == 4 && t[0] == 0x41 && t[1] == 0x49 && t[2] == 0x50 && t[3] == 0x44
}

pub open spec fn is_w_tag(t: Seq<u8>) -> bool {
    t.len() == 4 && t[0] == 0x57 && !printable(t[1])
}

/// The entry at `off` decodes without error. `first` marks the archive's
/// first entry, the only place a tagless payload means the fighter data blob.
pub open spec fn iter_ok(s: Seq<u8>, off: int, first: bool) -> bool
    decreases s.len(), 0int, 0int,
{
    &&& 0 <= off
    &&& off + 11 <= s.len()
    &&& be_i32(s, off + 4) >= 0
    &&& next_off(s, off) <= s.len()
    &&& (be_i16(s, off + 9) == 0xFF ==> {
        &&& off + 0x24 <= s.len()
        &&& {
            let t = tag4(s.skip(off + 0x20));
            if is_arc_tag(t) {
                arc_ok(s.skip(off + 0x20))
            } else if is_bres_tag(t) {
                bres_ok(s.skip(off + 0x20))
            } else if no_tag(t) && first {
                sakurai_ok(s.skip(off + 0x20))
            } else {
                true
            }
        }
    })
}

/// `cnt` entries from `off` decode without error.
pub open spec fn seg_ok(s: Seq<u8>, off: int, cnt: int, first: bool) -> bool
    decreases s.len(), 1int, (if cnt >= 0 { cnt } else { 0 }),
{
    if cnt <= 0 {
        true
    } else {
        iter_ok(s, off, first) && seg_ok(s, next_off(s, off), cnt - 1, false)
    }
}

/// An archive at the start of `s` decodes without error: its header and name
/// are readable and all announced entries decode.
pub open spec fn arc_ok(s: Seq<u8>) -> bool
    decreases s.len(), 2int, 0int,
{
    &&& s.len() >= 8
    &&& c_string_ok(s, 0x10)
    &&& seg_ok(s, 0x40, arc_num(s), true)
}

/// `c` is exactly the kept entry at `off`: its header fields and the payload
/// its tag selects. An unrecognized tag is kept as an unknown payload.
pub open spec fn arc_child_matches(s: Seq<u8>, off: int, first: bool, c: ArcChild) -> bool
    decreases c, 0int,
{
    let t = tag4(s.skip(off + 0x20));
    &&& c.ty == be_i16(s, off)
    &&& c.index == be_i16(s, off + 2)
    &&& c.size == be_i32(s, off + 4)
    &&& c.group_index == s[off + 8]
    &&& c.redirect_index == be_i16(s, off + 9)
    &&& if is_arc_tag(t) {
        c.data matches ArcChildData::Arc(a) && arc_rel(s.skip(off + 0x20), a)
    } else if is_efls_tag(t) {
        c.data is Efls
    } else if is_bres_tag(t) {
        c.data matches ArcChildData::Bres(b) && bres_decoded(s.skip(off + 0x20), b)
    } else if is_atkd_tag(t) {
        c.data is Atkd
    } else if is_reff_tag(t) {
        c.data is Reff
    } else if is_reft_tag(t) {
        c.data is Reft
    } else if is_aipd_tag(t) {
        c.data is Aipd
    } else if is_w_tag(t) {
        c.data is W
    } else if no_tag(t) && first {
        c.data matches ArcChildData::Sakurai(h) && sakurai_decoded(s.skip(off + 0x20), h)
    } else {
        c.data is Unknown
    }
}

/// The kept entries among `cnt` entries walked from `off`, in walk order, are
/// exactly `cs`.
pub open spec fn arc_children_rel(s: Seq<u8>, off: int, cnt: int, first: bool, cs: Seq<ArcChild>) -> bool
    decreases cs, (if cnt >= 0 { cnt } else { 0 }),
{
    if cnt <= 0 {
        cs.len() == 0
    } else if be_i16(s, off + 9) == 0xFF {
        cs.len() > 0 && arc_child_matches(s, off, first, cs.first()) && arc_children_rel(
            s,
            next_off(s, off),
            cnt - 1,
            false,
            cs.drop_first(),
        )
    } else {
        arc_children_rel(s, next_off(s, off), cnt - 1, false, cs)
    }
}

/// `a` is exactly the archive stored at the start of `s`.
pub open spec fn arc_rel(s: Seq<u8>, a: Arc) -> bool
    decreases a, 1int,
{
    &&& a.name@ == c_string_at(s, 0x10)
    &&& arc_children_rel(s, 0x40, arc_num(s), true, a.children@)
}

proof fn lemma_end_off_snoc(s: Seq<u8>, off: int, cnt: int)
    requires
        cnt >= 0,
    ensures
        end_off(s, off, cnt + 1) == next_off(s, end_off(s, off, cnt)),
    decreases cnt,
{
    if cnt == 0 {
        assert(end_off(s, next_off(s, off), 0) == next_off(s, off));
    } else {
        lemma_end_off_snoc(s, next_off(s, off), cnt - 1);
    }
}

proof fn lemma_seg_ok_iter(s: Seq<u8>, off: int, cnt: int, first: bool, j: int)
    requires
        seg_ok(s, off, cnt, first),
        0 <= j < cnt,
    ensures
        iter_ok(s, end_off(s, off, j), j == 0 && first),
    decreases j,
{
    if j > 0 {
        lemma_seg_ok_iter(s, next_off(s, off), cnt - 1, false, j - 1);
    }
}

proof fn lemma_seg_ok_push(s: Seq<u8>, off: int, cnt: int, first: bool)
    requires
        cnt >= 0,
        seg_ok(s, off, cnt, first),
        iter_ok(s, end_off(s, off, cnt), cnt == 0 && first),
    ensures
        seg_ok(s, off, cnt + 1, first),
    decreases cnt,
{
    if cnt == 0 {
        assert(seg_ok(s, next_off(s, off), 0, false));
    } else {
        lemma_seg_ok_push(s, next_off(s, off), cnt - 1, false);
    }
}

proof fn lemma_children_rel_push_kept(
    s: Seq<u8>,
    off: int,
    cnt: int,
    first: bool,
    cs: Seq<ArcChild>,
    c: ArcChild,
)
    requires
        cnt >= 0,
        arc_children_rel(s, off, cnt, first, cs),
        be_i16(s, end_off(s, off, cnt) + 9) == 0xFF,
        arc_child_matches(s, end_off(s, off, cnt), cnt == 0 && first, c),
    ensures
        arc_children_rel(s, off, cnt + 1, first, cs.push(c)),
    decreases cnt,
{
    if cnt == 0 {
        assert(cs.push(c).first() == c);
        assert(cs.push(c).drop_first() =~= Seq::<ArcChild>::empty());
        assert(arc_children_rel(s, next_off(s, off), 0, false, cs.push(c).drop_first()));
    } else {
        if be_i16(s, off + 9) == 0xFF {
            assert(cs.push(c).first() == cs.first());
            assert(cs.push(c).drop_first() =~= cs.drop_first().push(c));
            lemma_children_rel_push_kept(s, next_off(s, off), cnt - 1, false, cs.drop_first(), c);
        } else {
            lemma_children_rel_push_kept(s, next_off(s, off), cnt - 1, false, cs, c);
        }
    }
}

proof fn lemma_children_rel_push_skip(
    s: Seq<u8>,
    off: int,
    cnt: int,
    first: bool,
    cs: Seq<ArcChild>,
)
    requires
        cnt >= 0,
        arc_children_rel(s, off, cnt, first, cs),
        be_i16(s, end_off(s, off, cnt) + 9) != 0xFF,
    ensures
        arc_children_rel(s, off, cnt + 1, first, cs),
    decreases cnt,
{
    if cnt == 0 {
        assert(arc_children_rel(s, next_off(s, off), 0, false, cs));
    } else {
        if be_i16(s, off + 9) == 0xFF {
            lemma_children_rel_push_skip(s, next_off(s, off), cnt - 1, false, cs.drop_first());
        } else {
            lemma_children_rel_push_skip(s, next_off(s, off), cnt - 1, false, cs);
        }
    }
}

/// Whether an entry at `hi` fails as the walk's iteration `i` sees it; used
/// to conclude that the whole archive is malformed when one entry is.
proof fn lemma_arc_iter_err(s: Seq<u8>, i: int, hi: int)
    requires
        0 <= i < arc_num(s),
        hi == end_off(s, 0x40, i),
        !iter_ok(s, hi, i == 0),
    ensures
        !arc_ok(s),
{
    if seg_ok(s, 0x40, arc_num(s), true) {
        lemma_seg_ok_iter(s, 0x40, arc_num(s), true, i);
    }
}

/// Advances the cursor past the entry at `hi`: past its header and its size,
/// rounded up to the next 0x20-byte boundary. A cursor that would pass the
/// buffer end is a malformed size field and is fatal, whichever entry it is.
fn advance_cursor(data: &[u8], hi: usize, size: i32) -> (r: Result<usize, DecodeError>)
    requires
        size >= 0,
        size == be_i32(data@, hi as int + 4),
        hi + 11 <= data@.len(),
    ensures
        r is Ok <==> next_off(data@, hi as int) <= data@.len(),
        r matches Ok(v) ==> v == next_off(data@, hi as int),
        r is Err ==> r == Err::<usize, DecodeError>(
            DecodeError { kind: DecodeErrorKind::OutOfBounds, offset: hi },
        ),
{
    if 0x20 > data.len() - hi {
        // Already the unaligned cursor passes the end.
        return Err(DecodeError { kind: DecodeErrorKind::OutOfBounds, offset: hi });
    }
    let body = hi + 0x20;
    if size as usize > data.len() - body {
        return Err(DecodeError { kind: DecodeErrorKind::OutOfBounds, offset: hi });
    }
    let raw = body + size as usize;
    let pad = raw % 0x20;
    if pad == 0 {
        Ok(raw)
    } else if 0x20 - pad <= data.len() - raw {
        Ok(raw + (0x20 - pad))
    } else {
        Err(DecodeError { kind: DecodeErrorKind::OutOfBounds, offset: hi })
    }
}

/// Decodes an archive positioned at the start of `data`: a 0x40-byte header
/// with the entry count and name, then the entry headers walked sequentially
/// by their size fields, aligned to 0x20-byte boundaries. Every entry
/// advances the walk; an entry whose redirect marker is not 0xFF points at
/// another file, so its body is not decoded and it yields no child.
pub fn arc(data: &[u8]) -> (r: Result<Arc, DecodeError>)
    ensures
        r is Ok <==> arc_ok(data@),
        r matches Ok(a) ==> arc_rel(data@, a),
    decreases data@.len(),
{
    let num = match read_u16(data, 6) {
        Ok(v) => v,
        Err(e) => { return Err(e) },
    };
    let name = match read_c_string(data, 0x10) {
        Ok(v) => v.to_owned(),
        Err(e) => { return Err(e) },
    };
    let mut children: Vec<ArcChild> = Vec::new();
    let mut hi: usize = 0x40;
    let mut i: usize = 0;
    while i < num as usize
        invariant
            0 <= i <= num,
            num == arc_num(data@),
            data@.len() >= 8,
            c_string_ok(data@, 0x10),
            name@ == c_string_at(data@, 0x10),
            hi == end_off(data@, 0x40, i as int),
            hi == 0x40 || hi <= data@.len(),
            seg_ok(data@, 0x40, i as int, true),
            arc_children_rel(data@, 0x40, i as int, true, children@),
        decreases num - i,
    {
        let first = i == 0;
        if hi > data.len() || data.len() - hi < 11 {
            proof { lemma_arc_iter_err(data@, i as int, hi as int) }
            return Err(DecodeError { kind: DecodeErrorKind::OutOfBounds, offset: hi });
        }
        let ty = match read_i16(data, hi) {
            Ok(v) => v,
            Err(e) => {
                proof { lemma_arc_iter_err(data@, i as int, hi as int) }
                return Err(e);
            },
        };
        let index = match read_i16(data, hi + 2) {
            Ok(v) => v,
            Err(e) => {
                proof { lemma_arc_iter_err(data@, i as int, hi as int) }
                return Err(e);
            },
        };
        let size = match read_i32(data, hi + 4) {
            Ok(v) => v,
            Err(e) => {
                proof { lemma_arc_iter_err(data@, i as int, hi as int) }
                return Err(e);
            },
        };
        let group_index = match read_u8(data, hi + 8) {
            Ok(v) => v,
            Err(e) => {
                proof { lemma_arc_iter_err(data@, i as int, hi as int) }
                return Err(e);
            },
        };
        let redirect_index = match read_i16(data, hi + 9) {
            Ok(v) => v,
            Err(e) => {
                proof { lemma_arc_iter_err(data@, i as int, hi as int) }
                return Err(e);
            },
        };
        if redirect_index == 0xFF {
            if size < 0 {
                proof { lemma_arc_iter_err(data@, i as int, hi as int) }
                return Err(DecodeError { kind: DecodeErrorKind::CorruptContainer, offset: hi + 4 });
            }
            if hi > data.len() || data.len() - hi < 0x24 {
                proof { lemma_arc_iter_err(data@, i as int, hi as int) }
                return Err(DecodeError { kind: DecodeErrorKind::OutOfBounds, offset: hi });
            }
            let cd = &data[hi + 0x20..data.len()];
            proof {
                assert(cd@ =~= data@.skip(hi + 0x20));
            }
            let t = match crate::bytes::parse_tag(cd) {
                Ok(v) => v,
                Err(e) => {
                    proof { lemma_arc_iter_err(data@, i as int, hi as int) }
                    return Err(e);
                },
            };
            proof {
                assert(t@ =~= tag4(data@.skip(hi + 0x20)));
            }
            let child_data = if t[0] == 0x41 && t[1] == 0x52 && t[2] == 0x43 && !(0x21 <= t[3]
                && t[3] <= 0x7E) {
                // "ARC": a nested archive.
                proof {
                    assert(cd@.len() < data@.len());
                }
                match arc(cd) {
                    Ok(a) => ArcChildData::Arc(a),
                    Err(e) => {
                        proof { lemma_arc_iter_err(data@, i as int, hi as int) }
                        return Err(e);
                    },
                }
            } else if t[0] == 0x45 && t[1] == 0x46 && t[2] == 0x4C && t[3] == 0x53 {
                // "EFLS"
                ArcChildData::Efls
            } else if t[0] == 0x62 && t[1] == 0x72 && t[2] == 0x65 && t[3] == 0x73 {
                // "bres": a resource-tree container.
                match bres(cd) {
                    Ok(b) => ArcChildData::Bres(b),
                    Err(e) => {
                        proof { lemma_arc_iter_err(data@, i as int, hi as int) }
                        return Err(e);
                    },
                }
            } else if t[0] == 0x41 && t[1] == 0x54 && t[2] == 0x4B && t[3] == 0x44 {
                // "ATKD"
                ArcChildData::Atkd
            } else if t[0] == 0x52 && t[1] == 0x45 && t[2] == 0x46 && t[3] == 0x46 {
                // "REFF"
                ArcChildData::Reff
            } else if t[0] == 0x52 && t[1] == 0x45 && t[2] == 0x46 && t[3] == 0x54 {
                // "REFT"
                ArcChildData::Reft
            } else if t[0] == 0x41 && t[1] == 0x49 && t[2] == 0x50 && t[3] == 0x44 {
                // "AIPD"
                ArcChildData::Aipd
            } else if t[0] == 0x57 && !(0x21 <= t[1] && t[1] <= 0x7E) {
                // "W"
                ArcChildData::W
            } else if !(0x21 <= t[0] && t[0] <= 0x7E) {
                // No tag at all: only the archive's first entry may hold the
                // fighter data blob there.
                if first {
                    match arc_sakurai(cd) {
                        Ok(h) => ArcChildData::Sakurai(h),
                        Err(e) => {
                            proof { lemma_arc_iter_err(data@, i as int, hi as int) }
                            return Err(e);
                        },
                    }
                } else {
                    ArcChildData::Unknown
                }
            } else {
                ArcChildData::Unknown
            };
            let child = ArcChild { ty, index, size, group_index, redirect_index, data: child_data };
            let ghost pre_children = children@;
            let ghost ch = child;
            proof {
                assert(arc_child_matches(data@, hi as int, first, ch));
            }
            children.push(child);
            // Advance past the entry and its alignment padding.
            let ghost old_hi = hi as int;
            hi = match advance_cursor(data, hi, size) {
                Ok(v) => v,
                Err(e) => {
                    proof { lemma_arc_iter_err(data@, i as int, hi as int) }
                    return Err(e);
                },
            };
            proof {
                assert(hi == next_off(data@, old_hi));
                assert(iter_ok(data@, old_hi, first));
                lemma_seg_ok_push(data@, 0x40, i as int, true);
                lemma_children_rel_push_kept(data@, 0x40, i as int, true, pre_children, ch);
                assert(pre_children.push(ch) =~= children@);
                lemma_end_off_snoc(data@, 0x40, i as int);
                assert(hi == end_off(data@, 0x40, i as int + 1));
            }
        } else {
            // Not kept: the body is not decoded, but the walk still advances
            // past the entry by its aligned size.
            if size < 0 {
                proof { lemma_arc_iter_err(data@, i as int, hi as int) }
                return Err(DecodeError { kind: DecodeErrorKind::CorruptContainer, offset: hi + 4 });
            }
            let ghost old_hi = hi as int;
            hi = match advance_cursor(data, hi, size) {
                Ok(v) => v,
                Err(e) => {
                    proof { lemma_arc_iter_err(data@, i as int, hi as int) }
                    return Err(e);
                },
            };
            proof {
                assert(iter_ok(data@, old_hi, first));
                lemma_seg_ok_push(data@, 0x40, i as int, true);
                lemma_children_rel_push_skip(data@, 0x40, i as int, true, children@);
                lemma_end_off_snoc(data@, 0x40, i as int);
                assert(hi == end_off(data@, 0x40, i as int + 1));
            }
        }
        i += 1;
    }
    let a = Arc { name, children };
    proof {
        assert(arc_ok(data@));
        assert(arc_rel(data@, a));
    }
    Ok(a)
}

impl ArcChild {
    /// Decodes a sub-entry header at the start of `data`; the payload is not
    /// examined and is left unknown.
    pub fn new(data: &[u8]) -> (r: Result<ArcChild, DecodeError>)
        ensures
            r is Ok <==> data@.len() >= 11,
            r matches Ok(c) ==> {
                &&& c.ty == be_i16(data@, 0)
                &&& c.index == be_i16(data@, 2)
                &&& c.size == be_i32(data@, 4)
                &&& c.group_index == data@[8]
                &&& c.redirect_index == be_i16(data@, 9)
                &&& c.data is Unknown
            },
    {
        if data.len() < 11 {
            return Err(DecodeError { kind: DecodeErrorKind::OutOfBounds, offset: 0 });
        }
        Ok(
            ArcChild {
                ty: match read_i16(data, 0) {
                    Ok(v) => v,
                    Err(e) => { return Err(e) },
                },
                index: match read_i16(data, 2) {
                    Ok(v) => v,
                    Err(e) => { return Err(e) },
                },
                size: match read_i32(data, 4) {
                    Ok(v) => v,
                    Err(e) => { return Err(e) },
                },
                group_index: match read_u8(data, 8) {
                    Ok(v) => v,
                    Err(e) => { return Err(e) },
                },
                redirect_index: match read_i16(data, 9) {
                    Ok(v) => v,
                    Err(e) => { return Err(e) },
                },
                data: ArcChildData::Unknown,
            },
        )
    }
}

impl ArcSakurai {
    /// Decodes the fighter data blob header at the start of `data`, with no
    /// sections resolved yet.
    pub fn new(data: &[u8]) -> (r: Result<ArcSakurai, DecodeError>)
        ensures
            r is Ok <==> data@.len() >= 20,
            r matches Ok(h) ==> {
                &&& h.size == be_i32(data@, 0)
                &&& h.lookup_offset == be_i32(data@, 4)
                &&& h.lookup_entry_count == be_i32(data@, 8)
                &&& h.section_count == be_i32(data@, 12)
                &&& h.external_subroutine_count == be_i32(data@, 16)
                &&& h.sections@.len() == 0
            },
    {
        if data.len() < 20 {
            return Err(DecodeError { kind: DecodeErrorKind::OutOfBounds, offset: 0 });
        }
        Ok(
            ArcSakurai {
                size: gi32(data, 0),
                lookup_offset: gi32(data, 4),
                lookup_entry_count: gi32(data, 8),
                section_count: gi32(data, 12),
                external_subroutine_count: gi32(data, 16),
                sections: Vec::new(),
            },
        )
    }
}

impl ArcSakuraiSection {
    /// Decodes a section header at the start of `data`, with the name not yet
    /// resolved from the string table.
    pub fn new(data: &[u8]) -> (r: Result<ArcSakuraiSection, DecodeError>)
        ensures
            r is Ok <==> data@.len() >= 8,
            r matches Ok(v) ==> {
                &&& v.data_offset == be_i32(data@, 0)
                &&& v.string_offset == be_i32(data@, 4)
                &&& v.name@ == Seq::<char>::empty()
                &&& v.data is Empty
            },
    {
        if data.len() < 8 {
            return Err(DecodeError { kind: DecodeErrorKind::OutOfBounds, offset: 0 });
        }
        Ok(
            ArcSakuraiSection {
                data_offset: gi32(data, 0),
                string_offset: gi32(data, 4),
                name: String::new(),
                data: SectionData::Empty,
            },
        )
    }
}

} // verus!
