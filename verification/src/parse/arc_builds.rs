//! Recording-tool build boundaries (`YYYYMMDD`) at which the row layout changed.

use vstd::prelude::*;

verus! {

pub const START_OF_LIFE: i32 = -2147483648i32;
pub const PROPER_CONFUSION_DAMAGE_SIMULATION: i32 = 20210529;
pub const SCORING_SYSTEM_CHANGE: i32 = 20210800;
pub const DIRECT_X11_UPDATE: i32 = 20210923;
/// Internal skill ids (dodge, generic breakbar) changed on this build.
pub const INTERNAL_SKILL_IDS_CHANGE: i32 = 20220304;
pub const BUFF_ATTR_FLAT_INC_REMOVED: i32 = 20220308;
pub const FUNCTIONAL_ID_TO_GUID_EVENTS: i32 = 20220709;
pub const NEW_LOG_START: i32 = 20221111;
pub const EFFECT2_EVENTS: i32 = 20230718;
pub const FUNCTIONAL_EFFECT2_EVENTS: i32 = 20230719;
pub const BUFF_EXTENSION_BROKEN: i32 = 20230905;
pub const BUFF_EXTENSION_OVERSTACK_VALUE_CHANGED: i32 = 20231107;
pub const LINGERING_AGENTS: i32 = 20231110;
pub const REMOVED_DURATION_FOR_INFINITE_DURATION_STACKS_CHANGED: i32 = 20240211;
pub const NEW_MARKER_EVENT_BEHAVIOR: i32 = 20240418;
pub const LAST90_BEFORE_DOWN_RETIRED: i32 = 20240529;
pub const STACK_TYPE0_ACTIVE_CHANGE: i32 = 20240609;
pub const TEAM_CHANGE_ON_DESPAWN: i32 = 20240612;
pub const WEAPON_SWAP_VALUE_IS_PREVIOUS_CROWD_CONTROL_EVENTS_GLIDER_EVENTS: i32 = 20240627;
pub const MOVEMENT_SKILL_DETECTION: i32 = 20240709;
pub const EI_CAN_DO_MANUAL_BUFF_ATTRIBUTES: i32 = 20240716;
pub const EXTRA_DATA_IN_GUID_EVENTS: i32 = 20241030;
pub const LOG_START_LOG_END_PER_COMBAT_SEQUENCE_ON_INSTANCE_LOGS: i32 = 20250315;
pub const SPECIES_SKILL_GUIDS: i32 = 20250428;
pub const MISSILES_INTRODUCED: i32 = 20250525;
pub const BUFF_FORMULA_ORIGINAL_ATTRIBUTE: i32 = 20250913;
/// Emote, gadget interaction and bundle pick-up became their own skill ids.
pub const EMOTE_AND_GADGET_INTERACTION_ADDED: i32 = 20260318;
/// Cast start/end rows became `AnimationStart`/`AnimationStop` state changes.
pub const ANIMATION_AS_STATE_CHANGES: i32 = 20260430;
/// Buff applies and removes became state changes of their own.
pub const BUFF_APPLIES_AND_REMOVES_AS_STATE_CHANGES: i32 = 20260501;
/// Damage results moved to the reworked result table.
pub const RESULT_ENUM_REWORK: i32 = 20260501;
pub const VISIBILITY_IN_TARGETABLE_STATE_CHANGE: i32 = 20260522;
pub const VISIBILITY_ON_STATE_CHANGE: i32 = 20260527;
pub const GADGET_CAPTURES_ADDED: i32 = 20260602;
pub const END_OF_LIFE: i32 = 2147483647i32;

} // verus!
