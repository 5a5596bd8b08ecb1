use gw2ei::parse::arc_builds;
use gw2ei::parse::enums::{Activation, BreakbarState, BuffRemove, Iff, LogType, SkillAction, StateChange};

#[test]
fn state_change_values() {
    assert_eq!(StateChange::Combat.to_byte(), 0);
    assert_eq!(StateChange::AnimationStart.to_byte(), 67);
    assert_eq!(StateChange::BuffApply.to_byte(), 69);
    assert_eq!(StateChange::BuffChange.to_byte(), 70);
    assert_eq!(StateChange::BuffRemoveSingle.to_byte(), 71);
    assert_eq!(StateChange::BuffRemoveAll.to_byte(), 72);
    assert_eq!(StateChange::Tick.to_byte(), 84);
    assert_eq!(StateChange::Teleport.to_byte(), 85);
    assert_eq!(StateChange::Jump.to_byte(), 86);
    assert_eq!(StateChange::Unknown.to_byte(), 87);
}

#[test]
fn from_byte_folds_out_of_range() {
    assert_eq!(StateChange::from_byte(0), StateChange::Combat);
    assert_eq!(StateChange::from_byte(86), StateChange::Jump);
    assert_eq!(StateChange::from_byte(87), StateChange::Unknown);
    assert_eq!(StateChange::from_byte(200), StateChange::Unknown);
    assert_eq!(Iff::from_byte(0), Iff::Friend);
    assert_eq!(Iff::from_byte(2), Iff::Unknown);
    assert_eq!(Activation::from_byte(255), Activation::Unknown);
    assert_eq!(SkillAction::from_byte(4), SkillAction::EffectHappened);
    assert_eq!(SkillAction::from_byte(0), SkillAction::Unknown);
}

#[test]
fn from_csharp_int_matches_get_log_type_and_get_breakbar_state() {
    assert_eq!(LogType::from_csharp_int(0), LogType::NotSet);
    assert_eq!(LogType::from_csharp_int(3), LogType::Generic);
    assert_eq!(LogType::from_csharp_int(4), LogType::Unknown);
    assert_eq!(LogType::from_csharp_int(0x102), LogType::Unknown);
    assert_eq!(LogType::from_csharp_int(-1), LogType::Unknown);
    assert_eq!(BreakbarState::from_csharp_int(0), BreakbarState::Active);
    assert_eq!(BreakbarState::from_csharp_int(3), BreakbarState::NotSet);
    assert_eq!(BreakbarState::from_csharp_int(4), BreakbarState::Unknown);
    assert_eq!(BreakbarState::from_csharp_int(-300), BreakbarState::Unknown);
}

#[test]
fn csharp_names() {
    assert_eq!(StateChange::SquadCombatStart.csharp_name(), "SquadCombatStart");
    assert_eq!(StateChange::Effect_45.csharp_name(), "Effect_45");
    assert_eq!(StateChange::Unknown.csharp_name(), "Unknown");
    assert_eq!(Iff::Foe.csharp_name(), "Foe");
    assert_eq!(BuffRemove::Manual.csharp_name(), "Manual");
}

#[test]
fn build_constants() {
    assert_eq!(arc_builds::ANIMATION_AS_STATE_CHANGES, 20260430);
    assert_eq!(arc_builds::BUFF_APPLIES_AND_REMOVES_AS_STATE_CHANGES, 20260501);
    assert_eq!(arc_builds::RESULT_ENUM_REWORK, 20260501);
    assert_eq!(arc_builds::EMOTE_AND_GADGET_INTERACTION_ADDED, 20260318);
    assert_eq!(arc_builds::VISIBILITY_ON_STATE_CHANGE, 20260527);
}

#[test]
fn log_type_names_and_none_display() {
    assert_eq!(LogType::NotSet.csharp_name(), "None");
    assert_eq!(LogType::MapLog.csharp_name(), "Map");
    assert_eq!(LogType::from_byte(2), LogType::MapLog);
    assert_eq!(LogType::MapLog.to_byte(), 2);
}
