//! Skill ids the recorder uses for its own synthetic rows.

use vstd::prelude::*;
use crate::parse::arc_builds;

verus! {

/// Dodge id from build `INTERNAL_SKILL_IDS_CHANGE` on.
pub const ARC_DODGE_20220307: u32 = 23275;
/// Dodge id of older builds.
pub const ARC_DODGE_LEGACY: u32 = 65001;
/// Generic defiance bar damage id from build `INTERNAL_SKILL_IDS_CHANGE` on.
pub const ARC_GENERIC_BREAKBAR_20220307: u32 = 23276;
pub const ARC_GENERIC_BREAKBAR_LEGACY: u32 = 65002;
/// The weapon swap pseudo-skill.
pub const WEAPON_SWAP: i64 = -2;
pub const RESURRECT: i64 = 1066;
/// Synthetic animation rows: emote, gadget interaction, bundle pick-up.
pub const ARC_GENERIC_EMOTE: u32 = 23303;
pub const ARC_GENERIC_GADGET_INTERACT: u32 = 23302;
pub const ARC_GENERIC_PICK_UP: u32 = 23308;
/// The no-buff marker.
pub const NO_BUFF: i64 = -9223372036854775808i64;

/// (dodge id, generic defiance bar id) of a recorder build.
pub fn dodge_and_breakbar_for_build(build: i32) -> (r: (u32, u32))
    ensures
        build >= arc_builds::INTERNAL_SKILL_IDS_CHANGE ==> r == (ARC_DODGE_20220307, ARC_GENERIC_BREAKBAR_20220307),
        build < arc_builds::INTERNAL_SKILL_IDS_CHANGE ==> r == (ARC_DODGE_LEGACY, ARC_GENERIC_BREAKBAR_LEGACY),
{
    if build >= arc_builds::INTERNAL_SKILL_IDS_CHANGE {
        (ARC_DODGE_20220307, ARC_GENERIC_BREAKBAR_20220307)
    } else {
        (ARC_DODGE_LEGACY, ARC_GENERIC_BREAKBAR_LEGACY)
    }
}

} // verus!
