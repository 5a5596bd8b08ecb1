//! Agent lookups by address, as the event factory needs them.

use vstd::prelude::*;
use std::collections::BTreeMap;
use crate::parse::models::{EvtcCombatItem, EvtcRawAgent, EvtcRawLog, RawAgentKind, kind_of};
use crate::parse::enums::{
    Activation, AnimationStart, AnimationStop, BuffRemove, DamageResult, Iff, StateChange,
};
use crate::parse::skill_ids::{ARC_GENERIC_EMOTE, ARC_GENERIC_GADGET_INTERACT, ARC_GENERIC_PICK_UP};
use crate::model::ordering::{events_in_order, is_stable_order, rows_in_order, stable_order};
use crate::parse::arc_builds::{
    BUFF_APPLIES_AND_REMOVES_AS_STATE_CHANGES, BUFF_EXTENSION_OVERSTACK_VALUE_CHANGED,
    INTERNAL_SKILL_IDS_CHANGE,
};
use crate::parse::skill_ids::{
    ARC_DODGE_20220307, ARC_DODGE_LEGACY, ARC_GENERIC_BREAKBAR_20220307,
    ARC_GENERIC_BREAKBAR_LEGACY, dodge_and_breakbar_for_build,
};
use crate::parse::models::{is_essential_metadata_kind, is_extension_kind};
use crate::model::error::ModelError;
use crate::model::state_change::{dispatch_state_change, state_change_done};
use crate::model::combat_data::{
    CategoryCounts, CombatData, CountKind, MetaDataBucket, UnsupportedCounts,
};
use crate::model::events::{
    AnimatedCastEventFields, AnimationStatus, BundlePickUpEventFields, EmoteEventFields,
    BreakbarEventFields, BuffApplyBaseFields, BuffApplyEventFields, BuffEventFields,
    BuffExtensionEventFields, BuffRemoveAllEventFields, BuffRemoveBaseFields,
    BuffRemoveSingleEventFields, CombatEvent, CrowdControlEventFields, HealthDamageEventFields,
    SkillEventFields, UnsupportedEventKind,
};

verus! {

broadcast use {vstd::std_specs::btree::group_btree_axioms, vstd::laws_cmp::group_laws_cmp};

/// Kind of each agent address of the agent table; a later record of an
/// address replaces an earlier one.
pub open spec fn kinds_by_address(agents: Seq<EvtcRawAgent>) -> Map<u64, RawAgentKind>
    decreases agents.len(),
{
    if agents.len() == 0 {
        Map::empty()
    } else {
        let a = agents.last();
        kinds_by_address(agents.drop_last()).insert(a.address, kind_of(a.prof, a.is_elite))
    }
}

/// The kinds of the agents of a log, by address.
pub struct AgentLookup {
    by_address: BTreeMap<u64, RawAgentKind>,
}

impl AgentLookup {
    pub closed spec fn view(&self) -> Map<u64, RawAgentKind> {
        self.by_address@
    }

    /// Address 0, or an address the agent table does not have.
    pub open spec fn unknown(&self, address: u64) -> bool {
        address == 0 || !self@.contains_key(address)
    }

    pub fn new(log: &EvtcRawLog) -> (r: Self)
        ensures
            r@ == kinds_by_address(log.agents@),
    {
        let mut by_address: BTreeMap<u64, RawAgentKind> = BTreeMap::new();
        let ghost agents = log.agents@;
        let mut i: usize = 0;
        assert(agents.take(0) =~= Seq::<EvtcRawAgent>::empty());
        while i < log.agents.len()
            invariant
                i <= agents.len(),
                agents == log.agents@,
                by_address@ == kinds_by_address(agents.take(i as int)),
            decreases agents.len() - i,
        {
            let a = &log.agents[i];
            assert(agents.take(i + 1).drop_last() =~= agents.take(i as int));
            assert(agents.take(i + 1).last() == *a);
            by_address.insert(a.address, a.agent_kind());
            i = i + 1;
        }
        assert(agents.take(i as int) =~= agents);
        AgentLookup { by_address }
    }

    /// Kind of the agent of `address`, if the agent table has it.
    pub fn kind_of(&self, address: u64) -> (r: Option<RawAgentKind>)
        ensures
            r == (if self@.contains_key(address) {
                Some(self@[address])
            } else {
                None::<RawAgentKind>
            }),
    {
        match self.by_address.get(&address) {
            Some(k) => Some(*k),
            None => None,
        }
    }

    /// The agent table has `address` as a player.
    pub fn is_player(&self, address: u64) -> (r: bool)
        ensures
            r == (self@.contains_key(address) && self@[address] == RawAgentKind::Player),
    {
        match self.kind_of(address) {
            Some(RawAgentKind::Player) => true,
            _ => false,
        }
    }

    /// Address 0, or an address the agent table does not have.
    pub fn is_unknown(&self, address: u64) -> (r: bool)
        ensures
            r == (address == 0 || !self@.contains_key(address)),
    {
        address == 0 || !self.by_address.contains_key(&address)
    }
}


/// Common fields of a skill row.
pub open spec fn skill_fields_of(item: EvtcCombatItem) -> SkillEventFields {
    SkillEventFields {
        time: item.time,
        from: item.src_agent,
        to: item.dst_agent,
        skill_id: item.skill_id,
        iff: item.iff,
        is_over_ninety: item.is_ninety > 0,
        against_under_fifty: item.is_fifty > 0,
        is_moving: item.is_moving & 1u8 > 0,
        against_moving: item.is_moving & 2u8 > 0,
        is_flanking: item.is_flanking > 0,
        against_downed: false,
    }
}

/// Common fields of a row that is no damage: against a downed target when
/// the off-cycle byte is 1.
pub open spec fn non_damage_skill_fields_of(item: EvtcCombatItem) -> SkillEventFields {
    SkillEventFields { against_downed: item.is_offcycle == 1, ..skill_fields_of(item) }
}

/// A hit with the given skill fields and nothing else set.
pub open spec fn blank_hit(skill: SkillEventFields) -> HealthDamageEventFields {
    HealthDamageEventFields {
        skill,
        health_damage: 0,
        shield_damage: 0,
        has_hit: false,
        has_crit: false,
        has_glanced: false,
        is_life_leech: false,
        is_blind: false,
        is_absorbed: false,
        is_blocked: false,
        is_evaded: false,
        is_not_a_damage_event: false,
        has_interrupted: false,
        has_downed: false,
        has_killed: false,
    }
}

/// The counter an event counts in.
pub open spec fn count_kind_of(e: CombatEvent) -> CountKind {
    match e {
        CombatEvent::DirectHealthDamage(_) => CountKind::DirectHealthDamage,
        CombatEvent::NonDirectHealthDamage(_) => CountKind::NonDirectHealthDamage,
        CombatEvent::NoDamageHealthDamage(_) => CountKind::NoDamageHealthDamage,
        CombatEvent::BreakbarDamage(_) => CountKind::BreakbarDamage,
        CombatEvent::BreakbarRecovery(_) => CountKind::BreakbarRecovery,
        CombatEvent::CrowdControl(_) => CountKind::CrowdControl,
        CombatEvent::StunBreak(_) => CountKind::StunBreak,
        CombatEvent::BuffApply(_) => CountKind::BuffApply,
        CombatEvent::BuffExtension(_) => CountKind::BuffExtension,
        CombatEvent::BuffStackActive(_) => CountKind::BuffStackActive,
        CombatEvent::BuffStackDeactive(_) => CountKind::BuffStackDeactive,
        CombatEvent::BuffRemoveSingle(_) => CountKind::BuffRemoveSingle,
        CombatEvent::BuffRemoveAll(_) => CountKind::BuffRemoveAll,
        CombatEvent::BuffRemoveManual(_) => CountKind::BuffRemoveManual,
        CombatEvent::AnimatedCast(_) => CountKind::AnimatedCast,
        CombatEvent::Emote(_) => CountKind::Emote,
        CombatEvent::GadgetInteract(_) => CountKind::GadgetInteract,
        CombatEvent::BundlePickUp(_) => CountKind::BundlePickUp,
        CombatEvent::WeaponSwap(_) => CountKind::WeaponSwap,
        CombatEvent::EnterCombat(_) => CountKind::EnterCombat,
        CombatEvent::ExitCombat(_) => CountKind::ExitCombat,
        CombatEvent::Alive(_) => CountKind::Alive,
        CombatEvent::Dead(_) => CountKind::Dead,
        CombatEvent::Down(_) => CountKind::Down,
        CombatEvent::Spawn(_) => CountKind::Spawn,
        CombatEvent::Despawn(_) => CountKind::Despawn,
        CombatEvent::HealthUpdate(_) => CountKind::HealthUpdate,
        CombatEvent::BarrierUpdate(_) => CountKind::BarrierUpdate,
        CombatEvent::MaxHealthUpdate(_) => CountKind::MaxHealthUpdate,
        CombatEvent::TeamChange(_) => CountKind::TeamChange,
        CombatEvent::Targetable(_) => CountKind::Targetable,
        CombatEvent::Visibility(_) => CountKind::Visibility,
        CombatEvent::BreakbarState(_) => CountKind::BreakbarState,
        CombatEvent::BreakbarPercent(_) => CountKind::BreakbarPercent,
        CombatEvent::Glider(_) => CountKind::Glider,
        CombatEvent::Last90BeforeDown(_) => CountKind::Last90BeforeDown,
        CombatEvent::Position(_) => CountKind::Movement,
        CombatEvent::Rotation(_) => CountKind::Movement,
        CombatEvent::Velocity(_) => CountKind::Movement,
        CombatEvent::Teleport(_) => CountKind::Movement,
        CombatEvent::GuidEffect(_) => CountKind::MetadataGuid,
        CombatEvent::GuidMarker(_) => CountKind::MetadataGuid,
        CombatEvent::GuidSkill(_) => CountKind::MetadataGuid,
        CombatEvent::GuidSpecies(_) => CountKind::MetadataGuid,
        CombatEvent::GuidTeam(_) => CountKind::MetadataGuid,
        CombatEvent::GuidEmote(_) => CountKind::MetadataGuid,
        CombatEvent::GuidTransformation(_) => CountKind::MetadataGuid,
        _ => CountKind::DroppedByCs,
    }
}

/// What a row of the event stream turns into.
pub enum RowOutcome {
    /// An event, counted in its category.
    Event(CombatEvent),
    /// Nothing, counted as dropped.
    Dropped,
}

/// Events a row adds.
pub open spec fn outcome_events(o: RowOutcome) -> Seq<CombatEvent> {
    match o {
        RowOutcome::Event(e) => seq![e],
        RowOutcome::Dropped => Seq::empty(),
    }
}

/// Counters after a row.
pub open spec fn outcome_counts(c: CategoryCounts, o: RowOutcome) -> CategoryCounts {
    match o {
        RowOutcome::Event(e) => c.bumped(count_kind_of(e)),
        RowOutcome::Dropped => c.bumped(CountKind::DroppedByCs),
    }
}

/// Outcome of a combat row whose result is a defiance bar hit, a crowd
/// control, an interrupt, a killing blow or a down.
pub open spec fn non_damage_outcome(
    item: EvtcCombatItem,
    result: DamageResult,
    generic_breakbar_id: u32,
    src_unknown: bool,
) -> RowOutcome {
    let nd = non_damage_skill_fields_of(item);
    match result {
        DamageResult::BreakbarDamage => {
            let f = BreakbarEventFields { skill: nd, value_tenths: item.value };
            if item.skill_id == generic_breakbar_id && src_unknown {
                RowOutcome::Event(CombatEvent::BreakbarRecovery(f))
            } else {
                RowOutcome::Event(CombatEvent::BreakbarDamage(f))
            }
        },
        DamageResult::CrowdControl => RowOutcome::Event(
            CombatEvent::CrowdControl(
                CrowdControlEventFields {
                    skill: nd,
                    duration: item.value,
                    defiance_calculation: item.value.wrapping_add(item.overstack_value as i32),
                },
            ),
        ),
        _ => RowOutcome::Event(
            CombatEvent::NoDamageHealthDamage(
                HealthDamageEventFields {
                    has_downed: result == DamageResult::Downed,
                    has_killed: result == DamageResult::KillingBlow,
                    has_interrupted: result == DamageResult::Interrupt,
                    is_not_a_damage_event: true,
                    ..blank_hit(skill_fields_of(item))
                },
            ),
        ),
    }
}

pub open spec fn is_non_damage_result(r: DamageResult) -> bool {
    r == DamageResult::BreakbarDamage || r == DamageResult::CrowdControl || r
        == DamageResult::Interrupt || r == DamageResult::KillingBlow || r == DamageResult::Downed
}

/// Outcome of a combat row of direct damage.
pub open spec fn direct_damage_outcome(
    item: EvtcCombatItem,
    generic_breakbar_id: u32,
    src_unknown: bool,
) -> RowOutcome {
    let result = DamageResult::decode(item.result);
    if is_non_damage_result(result) {
        non_damage_outcome(item, result, generic_breakbar_id, src_unknown)
    } else if result == DamageResult::DirectNormal || result == DamageResult::DirectCrit || result
        == DamageResult::DirectGlance || result == DamageResult::DirectBlock || result
        == DamageResult::DirectEvade || result == DamageResult::DirectOrBuffAbsorb || result
        == DamageResult::DirectBlind || result == DamageResult::DirectOrBuffInvert {
        let crit = result == DamageResult::DirectCrit;
        let glance = result == DamageResult::DirectGlance;
        RowOutcome::Event(
            CombatEvent::DirectHealthDamage(
                HealthDamageEventFields {
                    health_damage: item.value,
                    shield_damage: if item.is_shields > 0 {
                        item.overstack_value as i32
                    } else {
                        0
                    },
                    has_crit: crit,
                    has_glanced: glance,
                    is_absorbed: result == DamageResult::DirectOrBuffAbsorb || result
                        == DamageResult::DirectOrBuffInvert,
                    is_blind: result == DamageResult::DirectBlind,
                    is_blocked: result == DamageResult::DirectBlock,
                    is_evaded: result == DamageResult::DirectEvade,
                    has_hit: result == DamageResult::DirectNormal || glance || crit,
                    ..blank_hit(non_damage_skill_fields_of(item))
                },
            ),
        )
    } else {
        RowOutcome::Dropped
    }
}

/// Outcome of a combat row of condition or other non-direct damage.
pub open spec fn buff_damage_outcome(
    item: EvtcCombatItem,
    generic_breakbar_id: u32,
    src_unknown: bool,
) -> RowOutcome {
    let result = DamageResult::decode(item.result);
    if is_non_damage_result(result) {
        non_damage_outcome(item, result, generic_breakbar_id, src_unknown)
    } else if result == DamageResult::BuffNotCycle || result == DamageResult::BuffCycle || result
        == DamageResult::BuffNotCycle_DamageToSourceOnHit || result
        == DamageResult::BuffNotCycle_DamageToTargetOnHit || result
        == DamageResult::BuffNotCycle_DamageToTargetOnStackRemove || result
        == DamageResult::DirectOrBuffAbsorb || result == DamageResult::DirectOrBuffInvert {
        let leech = result == DamageResult::BuffNotCycle_DamageToTargetOnHit || result
            == DamageResult::BuffNotCycle_DamageToTargetOnStackRemove;
        RowOutcome::Event(
            CombatEvent::NonDirectHealthDamage(
                HealthDamageEventFields {
                    health_damage: item.buff_dmg,
                    is_life_leech: leech,
                    is_absorbed: result == DamageResult::DirectOrBuffAbsorb || result
                        == DamageResult::DirectOrBuffInvert,
                    shield_damage: if item.is_shields > 0 {
                        if item.overstack_value > 0 {
                            item.overstack_value as i32
                        } else {
                            item.buff_dmg
                        }
                    } else {
                        0
                    },
                    has_hit: result == DamageResult::BuffCycle || result
                        == DamageResult::BuffNotCycle || result
                        == DamageResult::BuffNotCycle_DamageToSourceOnHit || leech,
                    ..blank_hit(non_damage_skill_fields_of(item))
                },
            ),
        )
    } else {
        RowOutcome::Dropped
    }
}

/// Buff fields of a row with the given giver and receiver.
pub open spec fn buff_fields_of(item: EvtcCombatItem, by: u64, to: u64) -> BuffEventFields {
    BuffEventFields { time: item.time, buff_id: item.skill_id, by, to, iff: item.iff }
}

/// Outcome of a buff application, change or initial row. A change row is an
/// extension; an initial row of a recent enough build keeps the original
/// duration from the buff damage field.
pub open spec fn buff_apply_outcome(item: EvtcCombatItem, build: i32) -> RowOutcome {
    let base = BuffApplyBaseFields {
        base: buff_fields_of(item, item.src_agent, item.dst_agent),
        buff_instance: item.pad,
    };
    if item.state_change == StateChange::BuffChange {
        RowOutcome::Event(
            CombatEvent::BuffExtension(
                BuffExtensionEventFields {
                    apply: base,
                    new_duration: item.overstack_value,
                    extended_duration: if item.value > 0 {
                        item.value as i64
                    } else {
                        0
                    },
                },
            ),
        )
    } else {
        let initial = item.state_change == StateChange::BuffInitial;
        RowOutcome::Event(
            CombatEvent::BuffApply(
                BuffApplyEventFields {
                    apply: base,
                    initial,
                    applied_duration: item.value,
                    original_applied_duration: if initial && build
                        >= BUFF_EXTENSION_OVERSTACK_VALUE_CHANGED {
                        item.buff_dmg
                    } else {
                        item.value
                    },
                    added_active: item.is_shields > 0,
                },
            ),
        )
    }
}

/// Outcome of a buff removal row: the giver is the row's destination and
/// the receiver its source. A single removal without giver and of unknown
/// affiliation is an overstack or a natural end.
pub open spec fn buff_remove_outcome(item: EvtcCombatItem) -> RowOutcome {
    let base = BuffRemoveBaseFields {
        base: buff_fields_of(item, item.dst_agent, item.src_agent),
        removed_duration: item.value,
    };
    if item.state_change == StateChange::BuffRemoveAll {
        RowOutcome::Event(
            CombatEvent::BuffRemoveAll(
                BuffRemoveAllEventFields {
                    remove: base,
                    removed_stacks: item.result,
                    last_removed_duration: item.buff_dmg,
                },
            ),
        )
    } else if item.buff_remove == BuffRemove::Single {
        RowOutcome::Event(
            CombatEvent::BuffRemoveSingle(
                BuffRemoveSingleEventFields {
                    remove: base,
                    buff_instance: item.pad,
                    overstack_or_natural_end: item.iff == Iff::Unknown && item.dst_agent == 0,
                },
            ),
        )
    } else if item.buff_remove == BuffRemove::Manual {
        RowOutcome::Event(CombatEvent::BuffRemoveManual(base))
    } else {
        RowOutcome::Dropped
    }
}

/// State of the event factory while it walks the rows.
pub struct Collector {
    pub build: i32,
    /// Start of the log before time was zeroed.
    pub log_start: i64,
    pub generic_breakbar_id: u32,
    pub events: Vec<CombatEvent>,
    pub metadata: MetaDataBucket,
    pub counts: CategoryCounts,
    pub unsupported: UnsupportedCounts,
    /// Positions of the cast rows, in row order.
    pub cast_rows: Vec<usize>,
    /// Last targetability and visibility reported for each agent.
    pub last_targetable_by_src: BTreeMap<u64, bool>,
    pub last_visibility_by_src: BTreeMap<u64, bool>,
    /// Position in `events` of the last effect start of each tracking id,
    /// by generation of effect rows.
    pub effect_starts_by_tracking: BTreeMap<u32, usize>,
    pub split_ground_by_tracking: BTreeMap<u32, usize>,
    pub split_agent_by_tracking: BTreeMap<u32, usize>,
}

impl Collector {
    /// Everything but the events and the counters is as in `old`.
    pub open spec fn books_unchanged(&self, old: &Collector) -> bool {
        &&& self.build == old.build
        &&& self.log_start == old.log_start
        &&& self.generic_breakbar_id == old.generic_breakbar_id
        &&& self.metadata == old.metadata
        &&& self.unsupported == old.unsupported
        &&& self.cast_rows == old.cast_rows
        &&& self.last_targetable_by_src == old.last_targetable_by_src
        &&& self.last_visibility_by_src == old.last_visibility_by_src
        &&& self.effect_starts_by_tracking == old.effect_starts_by_tracking
        &&& self.split_ground_by_tracking == old.split_ground_by_tracking
        &&& self.split_agent_by_tracking == old.split_agent_by_tracking
    }

    /// Number of rows counted so far.
    pub open spec fn tally(&self) -> int {
        self.counts.total() + self.unsupported.total()
    }

    /// The tracked effect starts lie inside the event list.
    pub open spec fn tracking_inside(&self) -> bool {
        &&& forall|k: u32| #[trigger]
            self.effect_starts_by_tracking@.contains_key(k)
                ==> self.effect_starts_by_tracking@[k] < self.events@.len()
        &&& forall|k: u32| #[trigger]
            self.split_ground_by_tracking@.contains_key(k)
                ==> self.split_ground_by_tracking@[k] < self.events@.len()
        &&& forall|k: u32| #[trigger]
            self.split_agent_by_tracking@.contains_key(k)
                ==> self.split_agent_by_tracking@[k] < self.events@.len()
    }

    /// Applies a row outcome to the events and counters.
    pub(crate) fn record(&mut self, o: RowOutcome)
        requires
            old(self).tally() < u64::MAX,
        ensures
            final(self).events@ == old(self).events@ + outcome_events(o),
            final(self).counts == outcome_counts(old(self).counts, o),
            final(self).books_unchanged(old(self)),
            final(self).tally() == old(self).tally() + 1,
    {
        match o {
            RowOutcome::Event(e) => {
                let kind = count_kind(&e);
                self.events.push(e);
                self.counts.bump(kind);
            },
            RowOutcome::Dropped => {
                self.counts.bump(CountKind::DroppedByCs);
            },
        }
    }
}


/// The parts of the factory state a step may change.
pub struct Touched {
    pub events: bool,
    pub counts: bool,
    pub unsupported: bool,
    pub metadata: bool,
    pub targetable: bool,
    pub visibility: bool,
    pub tracking: bool,
}

impl Collector {
    /// The parts that `t` does not name are as in `old`.
    pub open spec fn frame(&self, old: &Collector, t: Touched) -> bool {
        &&& self.build == old.build
        &&& self.log_start == old.log_start
        &&& self.generic_breakbar_id == old.generic_breakbar_id
        &&& self.cast_rows == old.cast_rows
        &&& (!t.events ==> self.events@ == old.events@)
        &&& (!t.counts ==> self.counts == old.counts)
        &&& (!t.unsupported ==> self.unsupported == old.unsupported)
        &&& (!t.metadata ==> self.metadata == old.metadata)
        &&& (!t.targetable ==> self.last_targetable_by_src == old.last_targetable_by_src)
        &&& (!t.visibility ==> self.last_visibility_by_src == old.last_visibility_by_src)
        &&& (!t.tracking ==> {
            &&& self.effect_starts_by_tracking == old.effect_starts_by_tracking
            &&& self.split_ground_by_tracking == old.split_ground_by_tracking
            &&& self.split_agent_by_tracking == old.split_agent_by_tracking
        })
    }
}

pub open spec fn touched(
    events: bool,
    counts: bool,
    unsupported: bool,
    metadata: bool,
    targetable: bool,
    visibility: bool,
    tracking: bool,
) -> Touched {
    Touched { events, counts, unsupported, metadata, targetable, visibility, tracking }
}

/// The counter an event counts in.
fn count_kind(e: &CombatEvent) -> (r: CountKind)
    ensures
        r == count_kind_of(*e),
{
    match e {
        CombatEvent::DirectHealthDamage(_) => CountKind::DirectHealthDamage,
        CombatEvent::NonDirectHealthDamage(_) => CountKind::NonDirectHealthDamage,
        CombatEvent::NoDamageHealthDamage(_) => CountKind::NoDamageHealthDamage,
        CombatEvent::BreakbarDamage(_) => CountKind::BreakbarDamage,
        CombatEvent::BreakbarRecovery(_) => CountKind::BreakbarRecovery,
        CombatEvent::CrowdControl(_) => CountKind::CrowdControl,
        CombatEvent::StunBreak(_) => CountKind::StunBreak,
        CombatEvent::BuffApply(_) => CountKind::BuffApply,
        CombatEvent::BuffExtension(_) => CountKind::BuffExtension,
        CombatEvent::BuffStackActive(_) => CountKind::BuffStackActive,
        CombatEvent::BuffStackDeactive(_) => CountKind::BuffStackDeactive,
        CombatEvent::BuffRemoveSingle(_) => CountKind::BuffRemoveSingle,
        CombatEvent::BuffRemoveAll(_) => CountKind::BuffRemoveAll,
        CombatEvent::BuffRemoveManual(_) => CountKind::BuffRemoveManual,
        CombatEvent::AnimatedCast(_) => CountKind::AnimatedCast,
        CombatEvent::Emote(_) => CountKind::Emote,
        CombatEvent::GadgetInteract(_) => CountKind::GadgetInteract,
        CombatEvent::BundlePickUp(_) => CountKind::BundlePickUp,
        CombatEvent::WeaponSwap(_) => CountKind::WeaponSwap,
        CombatEvent::EnterCombat(_) => CountKind::EnterCombat,
        CombatEvent::ExitCombat(_) => CountKind::ExitCombat,
        CombatEvent::Alive(_) => CountKind::Alive,
        CombatEvent::Dead(_) => CountKind::Dead,
        CombatEvent::Down(_) => CountKind::Down,
        CombatEvent::Spawn(_) => CountKind::Spawn,
        CombatEvent::Despawn(_) => CountKind::Despawn,
        CombatEvent::HealthUpdate(_) => CountKind::HealthUpdate,
        CombatEvent::BarrierUpdate(_) => CountKind::BarrierUpdate,
        CombatEvent::MaxHealthUpdate(_) => CountKind::MaxHealthUpdate,
        CombatEvent::TeamChange(_) => CountKind::TeamChange,
        CombatEvent::Targetable(_) => CountKind::Targetable,
        CombatEvent::Visibility(_) => CountKind::Visibility,
        CombatEvent::BreakbarState(_) => CountKind::BreakbarState,
        CombatEvent::BreakbarPercent(_) => CountKind::BreakbarPercent,
        CombatEvent::Glider(_) => CountKind::Glider,
        CombatEvent::Last90BeforeDown(_) => CountKind::Last90BeforeDown,
        CombatEvent::Position(_) => CountKind::Movement,
        CombatEvent::Rotation(_) => CountKind::Movement,
        CombatEvent::Velocity(_) => CountKind::Movement,
        CombatEvent::Teleport(_) => CountKind::Movement,
        CombatEvent::GuidEffect(_) => CountKind::MetadataGuid,
        CombatEvent::GuidMarker(_) => CountKind::MetadataGuid,
        CombatEvent::GuidSkill(_) => CountKind::MetadataGuid,
        CombatEvent::GuidSpecies(_) => CountKind::MetadataGuid,
        CombatEvent::GuidTeam(_) => CountKind::MetadataGuid,
        CombatEvent::GuidEmote(_) => CountKind::MetadataGuid,
        CombatEvent::GuidTransformation(_) => CountKind::MetadataGuid,
        _ => CountKind::DroppedByCs,
    }
}

fn skill_fields(item: &EvtcCombatItem) -> (r: SkillEventFields)
    ensures
        r == skill_fields_of(*item),
{
    SkillEventFields {
        time: item.time,
        from: item.src_agent,
        to: item.dst_agent,
        skill_id: item.skill_id,
        iff: item.iff,
        is_over_ninety: item.is_ninety > 0,
        against_under_fifty: item.is_fifty > 0,
        is_moving: item.is_moving & 1 > 0,
        against_moving: item.is_moving & 2 > 0,
        is_flanking: item.is_flanking > 0,
        against_downed: false,
    }
}

fn skill_fields_non_damage(item: &EvtcCombatItem) -> (r: SkillEventFields)
    ensures
        r == non_damage_skill_fields_of(*item),
{
    let mut s = skill_fields(item);
    s.against_downed = item.is_offcycle == 1;
    s
}

fn blank(skill: SkillEventFields) -> (r: HealthDamageEventFields)
    ensures
        r == blank_hit(skill),
{
    HealthDamageEventFields {
        skill,
        health_damage: 0,
        shield_damage: 0,
        has_hit: false,
        has_crit: false,
        has_glanced: false,
        is_life_leech: false,
        is_blind: false,
        is_absorbed: false,
        is_blocked: false,
        is_evaded: false,
        is_not_a_damage_event: false,
        has_interrupted: false,
        has_downed: false,
        has_killed: false,
    }
}

fn non_damage_row(
    item: &EvtcCombatItem,
    result: DamageResult,
    generic_breakbar_id: u32,
    src_unknown: bool,
) -> (r: RowOutcome)
    requires
        is_non_damage_result(result),
    ensures
        r == non_damage_outcome(*item, result, generic_breakbar_id, src_unknown),
{
    match result {
        DamageResult::BreakbarDamage => {
            let f = BreakbarEventFields {
                skill: skill_fields_non_damage(item),
                value_tenths: item.value,
            };
            if item.skill_id == generic_breakbar_id && src_unknown {
                RowOutcome::Event(CombatEvent::BreakbarRecovery(f))
            } else {
                RowOutcome::Event(CombatEvent::BreakbarDamage(f))
            }
        },
        DamageResult::CrowdControl => RowOutcome::Event(
            CombatEvent::CrowdControl(
                CrowdControlEventFields {
                    skill: skill_fields_non_damage(item),
                    duration: item.value,
                    defiance_calculation: item.value.wrapping_add(item.overstack_value as i32),
                },
            ),
        ),
        _ => {
            let mut hp = blank(skill_fields(item));
            hp.has_downed = result == DamageResult::Downed;
            hp.has_killed = result == DamageResult::KillingBlow;
            hp.has_interrupted = result == DamageResult::Interrupt;
            hp.is_not_a_damage_event = true;
            RowOutcome::Event(CombatEvent::NoDamageHealthDamage(hp))
        },
    }
}

/// A combat row of direct damage.
fn add_direct_damage(c: &mut Collector, agents: &AgentLookup, item: &EvtcCombatItem)
    requires
        old(c).tally() < u64::MAX,
    ensures
        final(c).events@ == old(c).events@ + outcome_events(
            direct_damage_outcome(*item, old(c).generic_breakbar_id, agents.unknown(item.src_agent)),
        ),
        final(c).counts == outcome_counts(
            old(c).counts,
            direct_damage_outcome(*item, old(c).generic_breakbar_id, agents.unknown(item.src_agent)),
        ),
        final(c).books_unchanged(old(c)),
        final(c).tally() == old(c).tally() + 1,
{
    let result = DamageResult::from_byte(item.result);
    let o = match result {
        DamageResult::BreakbarDamage
        | DamageResult::CrowdControl
        | DamageResult::Interrupt
        | DamageResult::KillingBlow
        | DamageResult::Downed => {
            let unknown = agents.is_unknown(item.src_agent);
            non_damage_row(item, result, c.generic_breakbar_id, unknown)
        },
        DamageResult::DirectNormal
        | DamageResult::DirectCrit
        | DamageResult::DirectGlance
        | DamageResult::DirectBlock
        | DamageResult::DirectEvade
        | DamageResult::DirectOrBuffAbsorb
        | DamageResult::DirectBlind
        | DamageResult::DirectOrBuffInvert => {
            let mut hp = blank(skill_fields_non_damage(item));
            hp.health_damage = item.value;
            hp.shield_damage = if item.is_shields > 0 {
                item.overstack_value as i32
            } else {
                0
            };
            hp.has_crit = result == DamageResult::DirectCrit;
            hp.has_glanced = result == DamageResult::DirectGlance;
            hp.is_absorbed = result == DamageResult::DirectOrBuffAbsorb || result
                == DamageResult::DirectOrBuffInvert;
            hp.is_blind = result == DamageResult::DirectBlind;
            hp.is_blocked = result == DamageResult::DirectBlock;
            hp.is_evaded = result == DamageResult::DirectEvade;
            hp.has_hit = result == DamageResult::DirectNormal || hp.has_glanced || hp.has_crit;
            RowOutcome::Event(CombatEvent::DirectHealthDamage(hp))
        },
        _ => RowOutcome::Dropped,
    };
    c.record(o);
}

/// A combat row of condition or other non-direct damage.
fn add_buff_damage(c: &mut Collector, agents: &AgentLookup, item: &EvtcCombatItem)
    requires
        old(c).tally() < u64::MAX,
    ensures
        final(c).events@ == old(c).events@ + outcome_events(
            buff_damage_outcome(*item, old(c).generic_breakbar_id, agents.unknown(item.src_agent)),
        ),
        final(c).counts == outcome_counts(
            old(c).counts,
            buff_damage_outcome(*item, old(c).generic_breakbar_id, agents.unknown(item.src_agent)),
        ),
        final(c).books_unchanged(old(c)),
        final(c).tally() == old(c).tally() + 1,
{
    let result = DamageResult::from_byte(item.result);
    let o = match result {
        DamageResult::BreakbarDamage
        | DamageResult::CrowdControl
        | DamageResult::Interrupt
        | DamageResult::KillingBlow
        | DamageResult::Downed => {
            let unknown = agents.is_unknown(item.src_agent);
            non_damage_row(item, result, c.generic_breakbar_id, unknown)
        },
        DamageResult::BuffNotCycle
        | DamageResult::BuffCycle
        | DamageResult::BuffNotCycle_DamageToSourceOnHit
        | DamageResult::BuffNotCycle_DamageToTargetOnHit
        | DamageResult::BuffNotCycle_DamageToTargetOnStackRemove
        | DamageResult::DirectOrBuffAbsorb
        | DamageResult::DirectOrBuffInvert => {
            let mut hp = blank(skill_fields_non_damage(item));
            hp.health_damage = item.buff_dmg;
            hp.is_life_leech = result == DamageResult::BuffNotCycle_DamageToTargetOnHit || result
                == DamageResult::BuffNotCycle_DamageToTargetOnStackRemove;
            hp.is_absorbed = result == DamageResult::DirectOrBuffAbsorb || result
                == DamageResult::DirectOrBuffInvert;
            hp.shield_damage = if item.is_shields > 0 {
                if item.overstack_value > 0 {
                    item.overstack_value as i32
                } else {
                    hp.health_damage
                }
            } else {
                0
            };
            hp.has_hit = result == DamageResult::BuffCycle || result == DamageResult::BuffNotCycle
                || result == DamageResult::BuffNotCycle_DamageToSourceOnHit || hp.is_life_leech;
            RowOutcome::Event(CombatEvent::NonDirectHealthDamage(hp))
        },
        _ => RowOutcome::Dropped,
    };
    c.record(o);
}

fn buff_fields(item: &EvtcCombatItem, by: u64, to: u64) -> (r: BuffEventFields)
    ensures
        r == buff_fields_of(*item, by, to),
{
    BuffEventFields { time: item.time, buff_id: item.skill_id, by, to, iff: item.iff }
}

/// A buff application, change or initial row.
fn add_buff_apply(c: &mut Collector, item: &EvtcCombatItem)
    requires
        old(c).tally() < u64::MAX,
    ensures
        final(c).events@ == old(c).events@ + outcome_events(buff_apply_outcome(*item, old(c).build)),
        final(c).counts == outcome_counts(old(c).counts, buff_apply_outcome(*item, old(c).build)),
        final(c).books_unchanged(old(c)),
        final(c).tally() == old(c).tally() + 1,
{
    let base = BuffApplyBaseFields {
        base: buff_fields(item, item.src_agent, item.dst_agent),
        buff_instance: item.pad,
    };
    let o = if item.state_change == StateChange::BuffChange {
        RowOutcome::Event(
            CombatEvent::BuffExtension(
                BuffExtensionEventFields {
                    apply: base,
                    new_duration: item.overstack_value,
                    extended_duration: if item.value > 0 {
                        item.value as i64
                    } else {
                        0
                    },
                },
            ),
        )
    } else {
        let initial = item.state_change == StateChange::BuffInitial;
        let applied_duration = item.value;
        let original_applied_duration = if initial && c.build
            >= BUFF_EXTENSION_OVERSTACK_VALUE_CHANGED {
            item.buff_dmg
        } else {
            applied_duration
        };
        RowOutcome::Event(
            CombatEvent::BuffApply(
                BuffApplyEventFields {
                    apply: base,
                    initial,
                    applied_duration,
                    original_applied_duration,
                    added_active: item.is_shields > 0,
                },
            ),
        )
    };
    c.record(o);
}

/// A buff removal row.
fn add_buff_remove(c: &mut Collector, agents: &AgentLookup, item: &EvtcCombatItem)
    requires
        old(c).tally() < u64::MAX,
    ensures
        final(c).events@ == old(c).events@ + outcome_events(buff_remove_outcome(*item)),
        final(c).counts == outcome_counts(old(c).counts, buff_remove_outcome(*item)),
        final(c).books_unchanged(old(c)),
        final(c).tally() == old(c).tally() + 1,
{
    let base = BuffRemoveBaseFields {
        base: buff_fields(item, item.dst_agent, item.src_agent),
        removed_duration: item.value,
    };
    let o = if item.state_change == StateChange::BuffRemoveAll {
        RowOutcome::Event(
            CombatEvent::BuffRemoveAll(
                BuffRemoveAllEventFields {
                    remove: base,
                    removed_stacks: item.result,
                    last_removed_duration: item.buff_dmg,
                },
            ),
        )
    } else {
        match item.buff_remove {
            BuffRemove::Single => {
                let overstack_or_natural_end = item.iff == Iff::Unknown && agents.is_unknown(
                    item.dst_agent,
                ) && item.dst_agent == 0;
                RowOutcome::Event(
                    CombatEvent::BuffRemoveSingle(
                        BuffRemoveSingleEventFields {
                            remove: base,
                            buff_instance: item.pad,
                            overstack_or_natural_end,
                        },
                    ),
                )
            },
            BuffRemove::Manual => RowOutcome::Event(CombatEvent::BuffRemoveManual(base)),
            _ => RowOutcome::Dropped,
        }
    };
    c.record(o);
}


/// `|x - y|` on 64 bits, wrapping as release builds do.
pub open spec fn wrapping_distance(x: i64, y: i64) -> i64 {
    let d = x.wrapping_sub(y);
    if d < 0 {
        0i64.wrapping_sub(d)
    } else {
        d
    }
}

/// Status and saved time of a cast from its end row's activation; a
/// resurrection keeps neither.
pub open spec fn cast_status(
    activation: Activation,
    is_resurrect: bool,
    expected: i32,
    actual: i32,
) -> (AnimationStatus, i32) {
    if is_resurrect {
        (AnimationStatus::Unknown, 0)
    } else {
        match activation {
            Activation::Cancel => (AnimationStatus::Interrupted, 0i32.wrapping_sub(actual)),
            Activation::Reset => (AnimationStatus::Full, 0),
            Activation::Minimum | Activation::NoData => {
                let s = expected.wrapping_sub(actual);
                (AnimationStatus::Reduced, if s > 0 {
                    s
                } else {
                    0
                })
            },
            _ => (AnimationStatus::Unknown, 0),
        }
    }
}

/// A cast from its start row, its end row, or both.
///
/// The expected duration is the start row's buff damage field when
/// positive, else its value field (750 for a dodge without end). The actual
/// duration is the end row's value field, or the time between the rows
/// when that differs from it by more than 150 ms; a cast without end lasts
/// as expected, cut at the log end. An end without start moves the cast
/// back by its duration. The end row's buff damage field is the scaled
/// duration, dropped when the actual duration came from the row times and
/// for dodges.
pub open spec fn cast_fields_of(
    start: Option<EvtcCombatItem>,
    end: Option<EvtcCombatItem>,
    dodge_id: u32,
    log_end: i64,
    skill_id: u32,
) -> AnimatedCastEventFields {
    let base = match start {
        Some(s) => s,
        None => end->0,
    };
    let is_dodge = skill_id == dodge_id;
    let is_resurrect = skill_id == 1066;
    let expected0: i32 = match start {
        Some(s) => if s.buff_dmg > 0 {
            s.buff_dmg
        } else {
            s.value
        },
        None => 0,
    };
    let anim_start = match start {
        Some(s) => AnimationStart::decode(s.result),
        None => AnimationStart::NotSet,
    };
    let effect_target: u64 = match start {
        Some(s) => s.dst_agent,
        None => 0,
    };
    match end {
        Some(e) => {
            let (time, actual, expected, scaled) = match start {
                Some(s) => {
                    let diff = e.time.wrapping_sub(s.time);
                    let far = wrapping_distance(e.value as i64, diff) > 150;
                    let a1: i32 = if far {
                        diff as i32
                    } else {
                        e.value
                    };
                    let sc1: i32 = if far {
                        0
                    } else {
                        e.buff_dmg
                    };
                    if is_dodge {
                        (base.time, a1, a1, 0i32)
                    } else {
                        (base.time, a1, expected0, sc1)
                    }
                },
                None => (
                    base.time.wrapping_sub(e.value as i64),
                    e.value,
                    e.value,
                    if is_dodge {
                        0i32
                    } else {
                        e.buff_dmg
                    },
                ),
            };
            let (status, saved) = cast_status(e.activation, is_resurrect, expected, actual);
            AnimatedCastEventFields {
                time,
                skill_id,
                caster: base.src_agent,
                effect_target,
                anim_start,
                anim_stop: AnimationStop::decode(e.result),
                status,
                saved_duration: saved,
                expected_duration: expected,
                actual_duration: actual,
                scaled_actual_duration: scaled,
            }
        },
        None => {
            let expected: i32 = if is_dodge {
                750
            } else {
                expected0
            };
            let actual: i32 = if base.time.wrapping_add(expected as i64) > log_end {
                log_end.wrapping_sub(base.time) as i32
            } else {
                expected
            };
            AnimatedCastEventFields {
                time: base.time,
                skill_id,
                caster: base.src_agent,
                effect_target,
                anim_start,
                anim_stop: AnimationStop::NotSet,
                status: AnimationStatus::Unknown,
                saved_duration: 0,
                expected_duration: expected,
                actual_duration: actual,
                scaled_actual_duration: 0,
            }
        },
    }
}

/// A gadget interaction that did not end by a reset or normally, and was
/// not interrupted, counts as interrupted.
pub open spec fn gadget_fixed(f: AnimatedCastEventFields) -> AnimatedCastEventFields {
    if f.anim_start == AnimationStart::GadgetInteract && f.anim_stop
        != AnimationStop::GadgetViaReset && f.anim_stop != AnimationStop::Ended && f.status
        != AnimationStatus::Interrupted {
        AnimatedCastEventFields {
            status: AnimationStatus::Interrupted,
            saved_duration: 0i32.wrapping_sub(f.actual_duration),
            ..f
        }
    } else {
        f
    }
}

/// The cast event of a start row, an end row, or both, by the special
/// skill ids: emotes, gadget interactions and bundle pick-ups (whose caster
/// is dropped); any other skill is an animated cast.
pub open spec fn cast_event_of(
    start: Option<EvtcCombatItem>,
    end: Option<EvtcCombatItem>,
    dodge_id: u32,
    log_end: i64,
    skill_id: u32,
) -> CombatEvent {
    let f = cast_fields_of(start, end, dodge_id, log_end, skill_id);
    let extra: u64 = match start {
        Some(s) => s.overstack_value as u64,
        None => 0,
    };
    if skill_id == ARC_GENERIC_EMOTE {
        CombatEvent::Emote(EmoteEventFields { base: f, emote_id: extra })
    } else if skill_id == ARC_GENERIC_GADGET_INTERACT {
        CombatEvent::GadgetInteract(gadget_fixed(f))
    } else if skill_id == ARC_GENERIC_PICK_UP {
        CombatEvent::BundlePickUp(
            BundlePickUpEventFields { base: AnimatedCastEventFields { caster: 0, ..f }, bundle_id: extra },
        )
    } else {
        CombatEvent::AnimatedCast(f)
    }
}

/// Caster, time and actual duration of a cast event.
pub open spec fn cast_core(e: CombatEvent) -> AnimatedCastEventFields {
    match e {
        CombatEvent::AnimatedCast(f) => f,
        CombatEvent::GadgetInteract(f) => f,
        CombatEvent::Emote(f) => f.base,
        CombatEvent::BundlePickUp(f) => f.base,
        _ => arbitrary(),
    }
}

pub open spec fn is_cast_event(e: CombatEvent) -> bool {
    e is AnimatedCast || e is GadgetInteract || e is Emote || e is BundlePickUp
}

/// A player's cast of at most 1 ms is left out.
pub open spec fn keeps_cast(agents: Map<u64, RawAgentKind>, e: CombatEvent) -> bool {
    let f = cast_core(e);
    !(agents.contains_key(f.caster) && agents[f.caster] == RawAgentKind::Player && f.actual_duration <= 1)
}

/// The kept cast, tagged with the agent its rows came from.
pub open spec fn emit_cast(agents: Map<u64, RawAgentKind>, src: u64, e: CombatEvent) -> Seq<(u64, CombatEvent)> {
    if keeps_cast(agents, e) {
        seq![(src, e)]
    } else {
        Seq::empty()
    }
}

/// Parameters of the cast pairing.
pub struct CastParams {
    pub agents: Map<u64, RawAgentKind>,
    pub dodge_id: u32,
    pub log_end: i64,
    pub log_start: i64,
}

/// The cast of a start row left without end.
pub open spec fn flush_start(p: CastParams, pending: Option<EvtcCombatItem>) -> Seq<(u64, CombatEvent)> {
    match pending {
        Some(s) => emit_cast(
            p.agents,
            s.src_agent,
            cast_event_of(Some(s), None, p.dodge_id, p.log_end, s.skill_id),
        ),
        None => Seq::empty(),
    }
}

/// Casts of the cast rows from position `k` on, the rows grouped by agent
/// and skill: in each group a start row pairs with the next end row; a start
/// followed by another start, or by the group's end, stands alone; an end
/// without start is kept only when its cast begins before the log start.
pub open spec fn pair_from(
    p: CastParams,
    rows: Seq<EvtcCombatItem>,
    k: int,
    pending: Option<EvtcCombatItem>,
) -> Seq<(u64, CombatEvent)>
    decreases rows.len() - k,
{
    if k < 0 || k >= rows.len() {
        flush_start(p, pending)
    } else {
        let r = rows[k];
        let same_group = match pending {
            Some(s) => s.src_agent == r.src_agent && s.skill_id == r.skill_id,
            None => true,
        };
        let before = if same_group {
            Seq::empty()
        } else {
            flush_start(p, pending)
        };
        let open: Option<EvtcCombatItem> = if same_group {
            pending
        } else {
            None
        };
        if r.state_change == StateChange::AnimationStart {
            before + flush_start(p, open) + pair_from(p, rows, k + 1, Some(r))
        } else {
            match open {
                Some(s) => before + emit_cast(
                    p.agents,
                    r.src_agent,
                    cast_event_of(Some(s), Some(r), p.dodge_id, p.log_end, r.skill_id),
                ) + pair_from(p, rows, k + 1, None),
                None => {
                    let e = cast_event_of(None, Some(r), p.dodge_id, p.log_end, r.skill_id);
                    before + (if cast_core(e).time < p.log_start {
                        emit_cast(p.agents, r.src_agent, e)
                    } else {
                        Seq::empty()
                    }) + pair_from(p, rows, k + 1, None)
                },
            }
        }
    }
}

/// The cast with its actual duration cut so that it ends by `max_end`,
/// when its status is unknown.
pub open spec fn cut_cast(e: CombatEvent, max_end: i64) -> CombatEvent {
    let f = cast_core(e);
    if f.status == AnimationStatus::Unknown && f.time.wrapping_add(f.actual_duration as i64) > max_end {
        let a = max_end.wrapping_sub(f.time) as i32;
        match e {
            CombatEvent::AnimatedCast(g) => CombatEvent::AnimatedCast(
                AnimatedCastEventFields { actual_duration: a, ..g },
            ),
            CombatEvent::GadgetInteract(g) => CombatEvent::GadgetInteract(
                AnimatedCastEventFields { actual_duration: a, ..g },
            ),
            CombatEvent::Emote(g) => CombatEvent::Emote(
                EmoteEventFields { base: AnimatedCastEventFields { actual_duration: a, ..g.base }, ..g },
            ),
            CombatEvent::BundlePickUp(g) => CombatEvent::BundlePickUp(
                BundlePickUpEventFields {
                    base: AnimatedCastEventFields { actual_duration: a, ..g.base },
                    ..g
                },
            ),
            _ => e,
        }
    } else {
        e
    }
}

/// The first position from `i` on whose tag is `s`.
pub open spec fn first_from(tags: Seq<u64>, i: int, s: u64) -> Option<int>
    decreases tags.len() - i,
{
    if i < 0 || i >= tags.len() {
        None
    } else if tags[i] == s {
        Some(i)
    } else {
        first_from(tags, i + 1, s)
    }
}

/// Each cast cut to end 150 ms after the next cast of the same agent
/// begins.
pub open spec fn cut_all(tags: Seq<u64>, es: Seq<CombatEvent>) -> Seq<CombatEvent> {
    Seq::new(
        es.len(),
        |i: int|
            match first_from(tags, i + 1, tags[i]) {
                Some(j) => cut_cast(es[i], cast_core(es[j]).time.wrapping_add(150)),
                None => es[i],
            },
    )
}

/// Sort key of a cast row: agent, then skill.
pub open spec fn group_key(r: EvtcCombatItem) -> i128 {
    (r.src_agent * 0x1_0000_0000 + r.skill_id) as i128
}

/// Sort key of a tagged cast: time, then agent.
pub open spec fn time_src_key(t: (u64, CombatEvent)) -> i128 {
    (cast_core(t.1).time * 0x1_0000_0000_0000_0000 + t.0) as i128
}

/// The casts of the cast rows: the rows in stable order of agent and skill
/// (`p1`), paired, then in stable order of time and agent (`p2`), each cut
/// against the next cast of its agent.
pub open spec fn casts_with(p: CastParams, rows: Seq<EvtcCombatItem>, p1: Seq<usize>, p2: Seq<usize>) -> Seq<CombatEvent> {
    let grouped = p1.map_values(|i: usize| rows[i as int]);
    let tagged = pair_from(p, grouped, 0, None);
    let ordered = p2.map_values(|i: usize| tagged[i as int]);
    cut_all(ordered.map_values(|t: (u64, CombatEvent)| t.0), ordered.map_values(|t: (u64, CombatEvent)| t.1))
}

/// `p1` and `p2` are the stable orders `casts_with` uses.
pub open spec fn cast_orders(p: CastParams, rows: Seq<EvtcCombatItem>, p1: Seq<usize>, p2: Seq<usize>) -> bool {
    let grouped = p1.map_values(|i: usize| rows[i as int]);
    let tagged = pair_from(p, grouped, 0, None);
    &&& is_stable_order(rows.map_values(|r: EvtcCombatItem| group_key(r)), p1)
    &&& is_stable_order(tagged.map_values(|t: (u64, CombatEvent)| time_src_key(t)), p2)
}

/// Counters after counting each event in its category.
pub open spec fn counts_after(c: CategoryCounts, es: Seq<CombatEvent>) -> CategoryCounts
    decreases es.len(),
{
    if es.len() == 0 {
        c
    } else {
        counts_after(c, es.drop_last()).bumped(count_kind_of(es.last()))
    }
}

fn build_cast_fields(
    start: Option<EvtcCombatItem>,
    end: Option<EvtcCombatItem>,
    dodge_id: u32,
    log_end: i64,
    skill_id: u32,
) -> (r: AnimatedCastEventFields)
    requires
        start is Some || end is Some,
    ensures
        r == cast_fields_of(start, end, dodge_id, log_end, skill_id),
{
    let base = match start {
        Some(s) => s,
        None => end.unwrap(),
    };
    let is_dodge = skill_id == dodge_id;
    let is_resurrect = skill_id == 1066;
    let mut f = AnimatedCastEventFields {
        time: base.time,
        skill_id,
        caster: base.src_agent,
        effect_target: 0,
        anim_start: AnimationStart::NotSet,
        anim_stop: AnimationStop::NotSet,
        status: AnimationStatus::Unknown,
        saved_duration: 0,
        expected_duration: 0,
        actual_duration: 0,
        scaled_actual_duration: 0,
    };
    if let Some(s) = start {
        f.expected_duration = if s.buff_dmg > 0 {
            s.buff_dmg
        } else {
            s.value
        };
        if s.dst_agent != 0 {
            f.effect_target = s.dst_agent;
        }
        f.anim_start = AnimationStart::from_byte(s.result);
    }
    match end {
        Some(e) => {
            f.actual_duration = e.value;
            let mut scaled = e.buff_dmg;
            match start {
                Some(s) => {
                    let diff = e.time.wrapping_sub(s.time);
                    let d = (e.value as i64).wrapping_sub(diff);
                    let dist = if d < 0 {
                        0i64.wrapping_sub(d)
                    } else {
                        d
                    };
                    if dist > 150 {
                        f.actual_duration = diff as i32;
                        scaled = 0;
                    }
                    if is_dodge {
                        f.expected_duration = f.actual_duration;
                        scaled = 0;
                    }
                },
                None => {
                    f.expected_duration = f.actual_duration;
                    if is_dodge {
                        scaled = 0;
                    }
                    f.time = f.time.wrapping_sub(f.actual_duration as i64);
                },
            }
            f.anim_stop = AnimationStop::from_byte(e.result);
            f.scaled_actual_duration = scaled;
            if !is_resurrect {
                match e.activation {
                    Activation::Cancel => {
                        f.status = AnimationStatus::Interrupted;
                        f.saved_duration = 0i32.wrapping_sub(f.actual_duration);
                    },
                    Activation::Reset => {
                        f.status = AnimationStatus::Full;
                    },
                    Activation::Minimum | Activation::NoData => {
                        let s = f.expected_duration.wrapping_sub(f.actual_duration);
                        f.saved_duration = if s > 0 {
                            s
                        } else {
                            0
                        };
                        f.status = AnimationStatus::Reduced;
                    },
                    _ => {},
                }
            }
        },
        None => {
            if is_dodge {
                f.expected_duration = 750;
            }
            f.actual_duration = f.expected_duration;
            if f.time.wrapping_add(f.actual_duration as i64) > log_end {
                f.actual_duration = log_end.wrapping_sub(f.time) as i32;
            }
        },
    }
    f
}

fn create_cast_event(
    start: Option<EvtcCombatItem>,
    end: Option<EvtcCombatItem>,
    dodge_id: u32,
    log_end: i64,
    skill_id: u32,
) -> (r: CombatEvent)
    requires
        start is Some || end is Some,
    ensures
        r == cast_event_of(start, end, dodge_id, log_end, skill_id),
        is_cast_event(r),
{
    let f = build_cast_fields(start, end, dodge_id, log_end, skill_id);
    let extra: u64 = match start {
        Some(s) => s.overstack_value as u64,
        None => 0,
    };
    if skill_id == ARC_GENERIC_EMOTE {
        CombatEvent::Emote(EmoteEventFields { base: f, emote_id: extra })
    } else if skill_id == ARC_GENERIC_GADGET_INTERACT {
        let mut g = f;
        if g.anim_start == AnimationStart::GadgetInteract && g.anim_stop
            != AnimationStop::GadgetViaReset && g.anim_stop != AnimationStop::Ended && g.status
            != AnimationStatus::Interrupted {
            g.status = AnimationStatus::Interrupted;
            g.saved_duration = 0i32.wrapping_sub(g.actual_duration);
        }
        CombatEvent::GadgetInteract(g)
    } else if skill_id == ARC_GENERIC_PICK_UP {
        let mut g = f;
        g.caster = 0;
        CombatEvent::BundlePickUp(BundlePickUpEventFields { base: g, bundle_id: extra })
    } else {
        CombatEvent::AnimatedCast(f)
    }
}

fn cast_fields(e: &CombatEvent) -> (r: AnimatedCastEventFields)
    requires
        is_cast_event(*e),
    ensures
        r == cast_core(*e),
{
    match e {
        CombatEvent::AnimatedCast(f) => *f,
        CombatEvent::GadgetInteract(f) => *f,
        CombatEvent::Emote(f) => f.base,
        CombatEvent::BundlePickUp(f) => f.base,
        _ => {
            assert(false);
            AnimatedCastEventFields {
                time: 0,
                skill_id: 0,
                caster: 0,
                effect_target: 0,
                anim_start: AnimationStart::NotSet,
                anim_stop: AnimationStop::NotSet,
                status: AnimationStatus::Unknown,
                saved_duration: 0,
                expected_duration: 0,
                actual_duration: 0,
                scaled_actual_duration: 0,
            }
        },
    }
}



/// Tags and events side by side.
pub open spec fn zip_tags(tags: Seq<u64>, es: Seq<CombatEvent>) -> Seq<(u64, CombatEvent)> {
    Seq::new(es.len(), |i: int| (tags[i], es[i]))
}

proof fn lemma_pair_len(p: CastParams, rows: Seq<EvtcCombatItem>, k: int, pending: Option<EvtcCombatItem>)
    requires
        0 <= k <= rows.len(),
    ensures
        pair_from(p, rows, k, pending).len() <= rows.len() - k + (if pending is Some {
            1int
        } else {
            0int
        }),
    decreases rows.len() - k,
{
    if k < rows.len() {
        let r = rows[k];
        if r.state_change == StateChange::AnimationStart {
            lemma_pair_len(p, rows, k + 1, Some(r));
        } else {
            lemma_pair_len(p, rows, k + 1, None);
        }
    }
}

fn push_kept(
    tags: &mut Vec<u64>,
    out: &mut Vec<CombatEvent>,
    agents: &AgentLookup,
    src: u64,
    e: CombatEvent,
)
    requires
        is_cast_event(e),
        old(tags)@.len() == old(out)@.len(),
        forall|i: int| 0 <= i < old(out)@.len() ==> is_cast_event(#[trigger] old(out)@[i]),
    ensures
        zip_tags(final(tags)@, final(out)@) == zip_tags(old(tags)@, old(out)@) + emit_cast(agents@, src, e),
        final(tags)@.len() == final(out)@.len(),
        forall|i: int| 0 <= i < final(out)@.len() ==> is_cast_event(#[trigger] final(out)@[i]),
{
    let f = cast_fields(&e);
    if !(agents.is_player(f.caster) && f.actual_duration <= 1) {
        tags.push(src);
        out.push(e);
        assert(zip_tags(tags@, out@) =~= zip_tags(old(tags)@, old(out)@).push((src, e)));
    } else {
        assert(zip_tags(tags@, out@) =~= zip_tags(old(tags)@, old(out)@));
    }
}

/// Pairs the cast rows, which come grouped by agent and skill.
#[verifier::spinoff_prover]
#[verifier::rlimit(40)]
fn pair_casts(
    p: Ghost<CastParams>,
    rows: &Vec<EvtcCombatItem>,
    agents: &AgentLookup,
    dodge_id: u32,
    log_end: i64,
    log_start: i64,
) -> (r: (Vec<u64>, Vec<CombatEvent>))
    requires
        p@ == (CastParams { agents: agents@, dodge_id, log_end, log_start }),
    ensures
        zip_tags(r.0@, r.1@) == pair_from(p@, rows@, 0, None),
        r.0@.len() == r.1@.len(),
        forall|i: int| 0 <= i < r.1@.len() ==> is_cast_event(#[trigger] r.1@[i]),
{
    let mut tags: Vec<u64> = Vec::new();
    let mut out: Vec<CombatEvent> = Vec::new();
    let mut pending: Option<EvtcCombatItem> = None;
    let mut k: usize = 0;
    while k < rows.len()
        invariant
            k <= rows@.len(),
            p@ == (CastParams { agents: agents@, dodge_id, log_end, log_start }),
            tags@.len() == out@.len(),
            forall|i: int| 0 <= i < out@.len() ==> is_cast_event(#[trigger] out@[i]),
            zip_tags(tags@, out@) + pair_from(p@, rows@, k as int, pending) == pair_from(
                p@,
                rows@,
                0,
                None,
            ),
        decreases rows@.len() - k,
    {
        let r = rows[k];
        let ghost z0 = zip_tags(tags@, out@);
        let ghost pend0 = pending;
        let same_group = match pending {
            Some(s) => s.src_agent == r.src_agent && s.skill_id == r.skill_id,
            None => true,
        };
        if !same_group {
            let s = pending.unwrap();
            let e = create_cast_event(Some(s), None, dodge_id, log_end, s.skill_id);
            push_kept(&mut tags, &mut out, agents, s.src_agent, e);
            pending = None;
        }
        let ghost z1 = zip_tags(tags@, out@);
        assert(z1 == z0 + (if same_group {
            Seq::empty()
        } else {
            flush_start(p@, pend0)
        }));
        if r.state_change == StateChange::AnimationStart {
            if let Some(s) = pending {
                let e = create_cast_event(Some(s), None, dodge_id, log_end, s.skill_id);
                push_kept(&mut tags, &mut out, agents, s.src_agent, e);
            }
            assert(zip_tags(tags@, out@) == z1 + flush_start(p@, pending));
            pending = Some(r);
        } else {
            match pending {
                Some(s) => {
                    let e = create_cast_event(Some(s), Some(r), dodge_id, log_end, r.skill_id);
                    push_kept(&mut tags, &mut out, agents, r.src_agent, e);
                },
                None => {
                    let e = create_cast_event(None, Some(r), dodge_id, log_end, r.skill_id);
                    if cast_fields(&e).time < log_start {
                        push_kept(&mut tags, &mut out, agents, r.src_agent, e);
                    } else {
                        assert(zip_tags(tags@, out@) =~= zip_tags(tags@, out@) + Seq::<(u64, CombatEvent)>::empty());
                    }
                },
            }
            pending = None;
        }
        assert(zip_tags(tags@, out@) + pair_from(p@, rows@, k + 1, pending) =~= z0 + pair_from(
            p@,
            rows@,
            k as int,
            pend0,
        ));
        k = k + 1;
    }
    if let Some(s) = pending {
        let e = create_cast_event(Some(s), None, dodge_id, log_end, s.skill_id);
        push_kept(&mut tags, &mut out, agents, s.src_agent, e);
    }
    assert(zip_tags(tags@, out@) =~= pair_from(p@, rows@, 0, None));
    (tags, out)
}

/// The cast with its actual duration cut to end by `max_end`, when its
/// status is unknown.
fn cut_at(e: &CombatEvent, max_end: i64) -> (r: CombatEvent)
    requires
        is_cast_event(*e),
    ensures
        r == cut_cast(*e, max_end),
        is_cast_event(r),
        cast_core(r).time == cast_core(*e).time,
{
    let f = cast_fields(e);
    if f.status == AnimationStatus::Unknown && f.time.wrapping_add(f.actual_duration as i64) > max_end {
        let a = max_end.wrapping_sub(f.time) as i32;
        match e {
            CombatEvent::AnimatedCast(g) => CombatEvent::AnimatedCast(
                AnimatedCastEventFields { actual_duration: a, ..*g },
            ),
            CombatEvent::GadgetInteract(g) => CombatEvent::GadgetInteract(
                AnimatedCastEventFields { actual_duration: a, ..*g },
            ),
            CombatEvent::Emote(g) => CombatEvent::Emote(
                EmoteEventFields {
                    base: AnimatedCastEventFields { actual_duration: a, ..g.base },
                    emote_id: g.emote_id,
                },
            ),
            CombatEvent::BundlePickUp(g) => CombatEvent::BundlePickUp(
                BundlePickUpEventFields {
                    base: AnimatedCastEventFields { actual_duration: a, ..g.base },
                    bundle_id: g.bundle_id,
                },
            ),
            _ => {
                assert(false);
                CombatEvent::AnimatedCast(f)
            },
        }
    } else {
        match e {
            CombatEvent::AnimatedCast(g) => CombatEvent::AnimatedCast(*g),
            CombatEvent::GadgetInteract(g) => CombatEvent::GadgetInteract(*g),
            CombatEvent::Emote(g) => CombatEvent::Emote(*g),
            CombatEvent::BundlePickUp(g) => CombatEvent::BundlePickUp(*g),
            _ => {
                assert(false);
                CombatEvent::AnimatedCast(f)
            },
        }
    }
}

/// Cuts each cast against the next cast of the same tag.
#[verifier::spinoff_prover]
#[verifier::rlimit(40)]
fn cut_casts(tags: &Vec<u64>, es: Vec<CombatEvent>) -> (r: Vec<CombatEvent>)
    requires
        tags@.len() == es@.len(),
        forall|i: int| 0 <= i < es@.len() ==> is_cast_event(#[trigger] es@[i]),
    ensures
        r@ == cut_all(tags@, es@),
{
    let ghost orig = es@;
    let mut es = es;
    let n = es.len();
    let mut next_time: BTreeMap<u64, i64> = BTreeMap::new();
    let mut i: usize = n;
    while i > 0
        invariant
            i <= n == orig.len() == tags@.len(),
            es@.len() == n,
            forall|j: int| 0 <= j < n ==> is_cast_event(#[trigger] orig[j]),
            forall|j: int| 0 <= j < i ==> #[trigger] es@[j] == orig[j],
            forall|j: int| i <= j < n ==> #[trigger] es@[j] == cut_all(tags@, orig)[j],
            forall|s: u64|
                #![trigger next_time@.contains_key(s)]
                #![trigger first_from(tags@, i as int, s)]
                next_time@.contains_key(s) <==> first_from(tags@, i as int, s) is Some,
            forall|s: u64| #[trigger]
                next_time@.contains_key(s) ==> next_time@[s] == cast_core(
                    orig[first_from(tags@, i as int, s)->0],
                ).time,
        decreases i,
    {
        i = i - 1;
        let s = tags[i];
        let t = cast_fields(&es[i]).time;
        let ghost nt0 = next_time@;
        assert(first_from(tags@, i as int, s) == Some(i as int));
        assert forall|x: u64| x != s implies first_from(tags@, i as int, x) == first_from(
            tags@,
            i + 1,
            x,
        ) by {}
        let cut = match next_time.get(&s) {
            Some(nt) => Some(cut_at(&es[i], nt.wrapping_add(150))),
            None => None,
        };
        if let Some(e) = cut {
            es.set(i, e);
        }
        next_time.insert(s, t);
        assert(es@[i as int] == cut_all(tags@, orig)[i as int]);
    }
    assert(es@ =~= cut_all(tags@, orig));
    es
}

/// Sort keys of the cast rows: agent, then skill.
fn group_keys(rows: &Vec<EvtcCombatItem>) -> (r: Vec<i128>)
    ensures
        r@ == rows@.map_values(|x: EvtcCombatItem| group_key(x)),
{
    let mut keys: Vec<i128> = Vec::new();
    let mut i: usize = 0;
    while i < rows.len()
        invariant
            i <= rows@.len(),
            keys@ == rows@.take(i as int).map_values(|x: EvtcCombatItem| group_key(x)),
        decreases rows@.len() - i,
    {
        let r = &rows[i];
        keys.push(r.src_agent as i128 * 0x1_0000_0000 + r.skill_id as i128);
        assert(rows@.take(i + 1).map_values(|x: EvtcCombatItem| group_key(x)) =~= rows@.take(
            i as int,
        ).map_values(|x: EvtcCombatItem| group_key(x)).push(group_key(rows@[i as int])));
        i = i + 1;
    }
    assert(rows@.take(i as int) =~= rows@);
    keys
}

/// Sort keys of tagged casts: time, then tag.
fn time_src_keys(tags: &Vec<u64>, es: &Vec<CombatEvent>) -> (r: Vec<i128>)
    requires
        tags@.len() == es@.len(),
        forall|i: int| 0 <= i < es@.len() ==> is_cast_event(#[trigger] es@[i]),
    ensures
        r@ == zip_tags(tags@, es@).map_values(|t: (u64, CombatEvent)| time_src_key(t)),
{
    let mut keys: Vec<i128> = Vec::new();
    let mut i: usize = 0;
    while i < es.len()
        invariant
            i <= es@.len() == tags@.len(),
            forall|j: int| 0 <= j < es@.len() ==> is_cast_event(#[trigger] es@[j]),
            keys@.len() == i,
            forall|j: int| 0 <= j < i ==> #[trigger] keys@[j] == time_src_key((tags@[j], es@[j])),
        decreases es@.len() - i,
    {
        let t = cast_fields(&es[i]).time;
        keys.push(t as i128 * 0x1_0000_0000_0000_0000 + tags[i] as i128);
        i = i + 1;
    }
    assert(keys@ =~= zip_tags(tags@, es@).map_values(|t: (u64, CombatEvent)| time_src_key(t)));
    keys
}

/// The tags in the given order of positions.
fn tags_in_order(tags: &Vec<u64>, p: &Vec<usize>) -> (r: Vec<u64>)
    requires
        forall|i: int| 0 <= i < p@.len() ==> #[trigger] p@[i] < tags@.len(),
    ensures
        r@ == p@.map_values(|i: usize| tags@[i as int]),
{
    let mut out: Vec<u64> = Vec::new();
    let mut k: usize = 0;
    while k < p.len()
        invariant
            k <= p@.len(),
            forall|i: int| 0 <= i < p@.len() ==> #[trigger] p@[i] < tags@.len(),
            out@.len() == k,
            forall|i: int| 0 <= i < k ==> #[trigger] out@[i] == tags@[p@[i] as int],
        decreases p@.len() - k,
    {
        out.push(tags[p[k]]);
        k = k + 1;
    }
    assert(out@ =~= p@.map_values(|i: usize| tags@[i as int]));
    out
}

/// Pairs the cast rows into cast events, cuts overlapping casts of an
/// agent, and adds them, counted, in time order.
#[verifier::spinoff_prover]
#[verifier::rlimit(40)]
fn create_cast_events(
    c: &mut Collector,
    items: &Vec<EvtcCombatItem>,
    agents: &AgentLookup,
    dodge_id: u32,
    log_end: i64,
    log_start: i64,
)
    requires
        forall|i: int| 0 <= i < old(c).cast_rows@.len() ==> #[trigger] old(c).cast_rows@[i] < items@.len(),
        old(c).tally() + old(c).cast_rows@.len() < u64::MAX,
        old(c).tracking_inside(),
    ensures
        ({
            let p = CastParams { agents: agents@, dodge_id, log_end, log_start };
            let rows = old(c).cast_rows@.map_values(|i: usize| items@[i as int]);
            exists|p1: Seq<usize>, p2: Seq<usize>|
                {
                    &&& cast_orders(p, rows, p1, p2)
                    &&& final(c).events@ == old(c).events@ + casts_with(p, rows, p1, p2)
                    &&& final(c).counts == counts_after(old(c).counts, casts_with(p, rows, p1, p2))
                }
        }),
        final(c).frame(old(c), touched(true, true, false, false, false, false, false)),
        final(c).tracking_inside(),
        final(c).tally() <= old(c).tally() + old(c).cast_rows@.len(),
        final(c).events@.len() <= old(c).events@.len() + old(c).cast_rows@.len(),
{
    let ghost p = CastParams { agents: agents@, dodge_id, log_end, log_start };
    let rows = rows_in_order(items, &c.cast_rows);
    assert(rows@ =~= old(c).cast_rows@.map_values(|i: usize| items@[i as int]));
    let keys1 = group_keys(&rows);
    let p1 = stable_order(&keys1);
    let grouped = rows_in_order(&rows, &p1);
    assert(grouped@ =~= p1@.map_values(|i: usize| rows@[i as int]));
    let (tags, paired) = pair_casts(Ghost(p), &grouped, agents, dodge_id, log_end, log_start);
    proof {
        lemma_pair_len(p, grouped@, 0, None);
    }
    let keys2 = time_src_keys(&tags, &paired);
    let p2 = stable_order(&keys2);
    let ghost tagged = zip_tags(tags@, paired@);
    let ordered_tags = tags_in_order(&tags, &p2);
    let ghost paired_view = paired@;
    let ordered = events_in_order(paired, Ghost(keys2@), &p2);
    let ghost ordered_pairs = p2@.map_values(|i: usize| tagged[i as int]);
    assert(ordered_pairs.map_values(|t: (u64, CombatEvent)| t.0) =~= ordered_tags@);
    assert(ordered_pairs.map_values(|t: (u64, CombatEvent)| t.1) =~= ordered@);
    assert forall|i: int| 0 <= i < ordered@.len() implies is_cast_event(#[trigger] ordered@[i]) by {
        assert(ordered@[i] == paired_view[p2@[i] as int]);
    }
    let casts = cut_casts(&ordered_tags, ordered);
    let ghost result = casts@;
    assert(result == casts_with(p, rows@, p1@, p2@));
    let ghost counts0 = c.counts;
    let mut k: usize = 0;
    while k < casts.len()
        invariant
            k <= casts@.len() == result.len(),
            casts@ == result,
            result.len() <= old(c).cast_rows@.len(),
            c.counts == counts_after(counts0, result.take(k as int)),
            c.tally() == old(c).tally() + k,
            old(c).tally() + old(c).cast_rows@.len() < u64::MAX,
            c.frame(old(c), touched(false, true, false, false, false, false, false)),
            counts0 == old(c).counts,
            c.tracking_inside(),
        decreases casts@.len() - k,
    {
        let kind = count_kind(&casts[k]);
        c.counts.bump(kind);
        assert(result.take(k + 1).drop_last() =~= result.take(k as int));
        k = k + 1;
    }
    assert(result.take(k as int) =~= result);
    let mut casts = casts;
    c.events.append(&mut casts);
    assert(cast_orders(p, rows@, p1@, p2@));
    assert(c.events@ == old(c).events@ + casts_with(p, rows@, p1@, p2@));
}


/// A fresh factory state.
pub open spec fn is_fresh(c: Collector, build: i32, log_start: i64, generic_breakbar_id: u32) -> bool {
    &&& c.build == build
    &&& c.log_start == log_start
    &&& c.generic_breakbar_id == generic_breakbar_id
    &&& c.events@.len() == 0
    &&& c.metadata.is_empty_bucket()
    &&& c.counts == CategoryCounts::zeroed()
    &&& c.unsupported == UnsupportedCounts::zeroed()
    &&& c.cast_rows@.len() == 0
    &&& c.last_targetable_by_src@ == Map::<u64, bool>::empty()
    &&& c.last_visibility_by_src@ == Map::<u64, bool>::empty()
    &&& c.effect_starts_by_tracking@ == Map::<u32, usize>::empty()
    &&& c.split_ground_by_tracking@ == Map::<u32, usize>::empty()
    &&& c.split_agent_by_tracking@ == Map::<u32, usize>::empty()
}

/// First walk over the rows: only the metadata the other rows rely on.
pub open spec fn first_pass_step(old: Collector, new: Collector, item: EvtcCombatItem) -> bool {
    if is_essential_metadata_kind(item.state_change) {
        state_change_done(old, new, item)
    } else {
        new == old
    }
}

pub open spec fn is_buff_apply_kind(s: StateChange) -> bool {
    s == StateChange::BuffApply || s == StateChange::BuffChange || s == StateChange::BuffInitial
}

pub open spec fn is_buff_remove_kind(s: StateChange) -> bool {
    s == StateChange::BuffRemoveAll || s == StateChange::BuffRemoveSingle
}

/// Second walk over the rows: cast rows are set aside by position, buff
/// and damage rows become events, extension rows are counted as
/// unsupported, the rows of the first walk are skipped, and every other row
/// is a state change.
pub open spec fn second_pass_step(
    old: Collector,
    new: Collector,
    item: EvtcCombatItem,
    index: usize,
    agents: Map<u64, RawAgentKind>,
) -> bool {
    let s = item.state_change;
    let src_unknown = item.src_agent == 0 || !agents.contains_key(item.src_agent);
    if s == StateChange::AnimationStart || s == StateChange::AnimationStop {
        new == Collector { cast_rows: new.cast_rows, ..old } && new.cast_rows@
            == old.cast_rows@.push(index)
    } else if is_buff_apply_kind(s) || is_buff_remove_kind(s) || s == StateChange::Combat {
        let o = if is_buff_apply_kind(s) {
            buff_apply_outcome(item, old.build)
        } else if is_buff_remove_kind(s) {
            buff_remove_outcome(item)
        } else if item.buff == 0 {
            direct_damage_outcome(item, old.generic_breakbar_id, src_unknown)
        } else {
            buff_damage_outcome(item, old.generic_breakbar_id, src_unknown)
        };
        &&& new.events@ == old.events@ + outcome_events(o)
        &&& new.counts == outcome_counts(old.counts, o)
        &&& new.books_unchanged(&old)
    } else if is_essential_metadata_kind(s) {
        new == old
    } else if is_extension_kind(s) {
        &&& new.unsupported == old.unsupported.bumped(UnsupportedEventKind::Extension)
        &&& new.frame(&old, touched(false, false, true, false, false, false, false))
    } else {
        state_change_done(old, new, item)
    }
}

/// `trace` walks `items` from its first state with `step` at each row.
pub open spec fn first_pass_trace(trace: Seq<Collector>, items: Seq<EvtcCombatItem>) -> bool {
    &&& trace.len() == items.len() + 1
    &&& forall|k: int| 0 <= k < items.len() ==> #[trigger] first_pass_step(trace[k], trace[k + 1], items[k])
}

pub open spec fn second_pass_trace(
    trace: Seq<Collector>,
    items: Seq<EvtcCombatItem>,
    agents: Map<u64, RawAgentKind>,
) -> bool {
    &&& trace.len() == items.len() + 1
    &&& forall|k: int|
        0 <= k < items.len() ==> #[trigger] second_pass_step(trace[k], trace[k + 1], items[k], k as usize, agents)
}

/// Sort key of an event: its time, or the smallest time for metadata
/// without one.
pub open spec fn event_time_key(e: CombatEvent) -> i128 {
    match e.time_of() {
        Some(t) => t as i128,
        None => i64::MIN as i128,
    }
}

/// The map with the count of `k` one higher.
pub open spec fn count_in(m: Map<u64, u64>, k: u64) -> Map<u64, u64> {
    m.insert(k, if m.contains_key(k) {
        (m[k] + 1) as u64
    } else {
        1
    })
}

/// Number of events each non-zero participant takes part in.
pub open spec fn agent_counts(es: Seq<CombatEvent>) -> Map<u64, u64>
    decreases es.len(),
{
    if es.len() == 0 {
        Map::empty()
    } else {
        let m = agent_counts(es.drop_last());
        let (a, b) = es.last().participants_of();
        let m1 = if a != 0 {
            count_in(m, a)
        } else {
            m
        };
        if b != 0 {
            count_in(m1, b)
        } else {
            m1
        }
    }
}

/// Number of events about each skill or buff id.
pub open spec fn id_counts(es: Seq<CombatEvent>) -> Map<u32, u64>
    decreases es.len(),
{
    if es.len() == 0 {
        Map::empty()
    } else {
        let m = id_counts(es.drop_last());
        match es.last().related_id_of() {
            Some(id) => m.insert(id, if m.contains_key(id) {
                (m[id] + 1) as u64
            } else {
                1
            }),
            None => m,
        }
    }
}

/// The events of a log from its rows: the rows in stable time order
/// (`order`), walked twice (`t1`, `t2`), the casts paired (`p1`, `p2`),
/// and all events in stable time order (`p3`).
pub open spec fn eventized(
    log_items: Seq<EvtcCombatItem>,
    agents: Map<u64, RawAgentKind>,
    build: i32,
    log_start_offset: i64,
    log_end: i64,
    order: Seq<usize>,
    t1: Seq<Collector>,
    t2: Seq<Collector>,
    p1: Seq<usize>,
    p2: Seq<usize>,
    p3: Seq<usize>,
    d: CombatData,
) -> bool {
    let items = order.map_values(|i: usize| log_items[i as int]);
    let ids = dodge_and_breakbar_ids(build);
    let cp = CastParams { agents, dodge_id: ids.0, log_end, log_start: 0 };
    let last = t2.last();
    let rows = last.cast_rows@.map_values(|i: usize| items[i as int]);
    let casts = casts_with(cp, rows, p1, p2);
    let all = last.events@ + casts;
    &&& is_stable_order(log_items.map_values(|r: EvtcCombatItem| r.time as i128), order)
    &&& is_fresh(t1[0], build, log_start_offset, ids.1)
    &&& first_pass_trace(t1, items)
    &&& t2[0] == t1.last()
    &&& second_pass_trace(t2, items, agents)
    &&& cast_orders(cp, rows, p1, p2)
    &&& is_stable_order(all.map_values(|e: CombatEvent| event_time_key(e)), p3)
    &&& d.events@ == p3.map_values(|i: usize| all[i as int])
    &&& d.counts == counts_after(last.counts, casts)
    &&& d.unsupported == last.unsupported
    &&& d.metadata == last.metadata
    &&& d.per_agent_counts@ == agent_counts(d.events@)
    &&& d.per_id_counts@ == id_counts(d.events@)
}

pub open spec fn dodge_and_breakbar_ids(build: i32) -> (u32, u32) {
    if build >= INTERNAL_SKILL_IDS_CHANGE {
        (ARC_DODGE_20220307, ARC_GENERIC_BREAKBAR_20220307)
    } else {
        (ARC_DODGE_LEGACY, ARC_GENERIC_BREAKBAR_LEGACY)
    }
}

fn count_into(m: &mut BTreeMap<u64, u64>, k: u64, bound: Ghost<int>)
    requires
        forall|x: u64| #[trigger] old(m)@.contains_key(x) ==> old(m)@[x] <= bound@,
        0 <= bound@,
        bound@ + 1 < u64::MAX,
    ensures
        final(m)@ == count_in(old(m)@, k),
        forall|x: u64| #[trigger] final(m)@.contains_key(x) ==> final(m)@[x] <= bound@ + 1,
{
    let v: u64 = match m.get(&k) {
        Some(x) => *x + 1,
        None => 1,
    };
    m.insert(k, v);
    assert forall|x| #[trigger] m@.contains_key(x) implies m@[x] <= bound@ + 1 by {
        if x != k {
            assert(old(m)@.contains_key(x));
        } else if old(m)@.contains_key(k) {
            assert(old(m)@[k] <= bound@);
        }
    }
}

fn count_id_into(m: &mut BTreeMap<u32, u64>, k: u32, bound: Ghost<int>)
    requires
        forall|x: u32| #[trigger] old(m)@.contains_key(x) ==> old(m)@[x] <= bound@,
        0 <= bound@,
        bound@ + 1 < u64::MAX,
    ensures
        final(m)@ == old(m)@.insert(k, if old(m)@.contains_key(k) {
            (old(m)@[k] + 1) as u64
        } else {
            1
        }),
        forall|x: u32| #[trigger] final(m)@.contains_key(x) ==> final(m)@[x] <= bound@ + 1,
{
    let v: u64 = match m.get(&k) {
        Some(x) => *x + 1,
        None => 1,
    };
    m.insert(k, v);
    assert forall|x| #[trigger] m@.contains_key(x) implies m@[x] <= bound@ + 1 by {
        if x != k {
            assert(old(m)@.contains_key(x));
        } else if old(m)@.contains_key(k) {
            assert(old(m)@[k] <= bound@);
        }
    }
}

/// The positions of the rows in stable time order.
fn time_order(rows: &Vec<EvtcCombatItem>) -> (r: Vec<usize>)
    ensures
        is_stable_order(rows@.map_values(|x: EvtcCombatItem| x.time as i128), r@),
{
    let n = rows.len();
    let mut time_keys: Vec<i128> = Vec::new();
    let mut i: usize = 0;
    while i < n
        invariant
            i <= n == rows@.len(),
            time_keys@ == rows@.take(i as int).map_values(|x: EvtcCombatItem| x.time as i128),
        decreases n - i,
    {
        time_keys.push(rows[i].time as i128);
        assert(rows@.take(i + 1).map_values(|x: EvtcCombatItem| x.time as i128) =~= time_keys@);
        i = i + 1;
    }
    assert(rows@.take(n as int) =~= rows@);
    stable_order(&time_keys)
}

/// The first walk over the rows.
#[verifier::spinoff_prover]
#[verifier::rlimit(40)]
fn first_pass(c: &mut Collector, items: &Vec<EvtcCombatItem>) -> (trace: Ghost<Seq<Collector>>)
    requires
        items@.len() < 0x1000_0000_0000_0000,
        old(c).tally() == 0,
        old(c).events@.len() == 0,
        old(c).cast_rows@.len() == 0,
        old(c).tracking_inside(),
    ensures
        first_pass_trace(trace@, items@),
        trace@[0] == *old(c),
        trace@.last() == *final(c),
        final(c).tally() <= 2 * items@.len(),
        final(c).events@.len() <= 2 * items@.len(),
        final(c).cast_rows@.len() == 0,
        final(c).build == old(c).build,
        final(c).generic_breakbar_id == old(c).generic_breakbar_id,
        final(c).tracking_inside(),
{
    let n = items.len();
    let ghost mut t1: Seq<Collector> = seq![*c];
    let mut k: usize = 0;
    while k < n
        invariant
            k <= n == items@.len(),
            n < 0x1000_0000_0000_0000,
            t1.len() == k + 1,
            t1[0] == *old(c),
            t1.last() == *c,
            forall|j: int| 0 <= j < k ==> #[trigger] first_pass_step(t1[j], t1[j + 1], items@[j]),
            c.tally() <= 2 * k,
            c.events@.len() <= 2 * k,
            c.cast_rows@.len() == 0,
            c.build == old(c).build,
            c.generic_breakbar_id == old(c).generic_breakbar_id,
            c.tracking_inside(),
        decreases n - k,
    {
        let item = items[k];
        if item.is_essential_metadata() {
            dispatch_state_change(c, &item);
        }
        proof {
            t1 = t1.push(*c);
        }
        k = k + 1;
    }
    Ghost(t1)
}

/// The second walk over the rows.
#[verifier::spinoff_prover]
#[verifier::rlimit(40)]
fn second_pass(c: &mut Collector, items: &Vec<EvtcCombatItem>, agents: &AgentLookup) -> (trace: Ghost<
    Seq<Collector>,
>)
    requires
        items@.len() < 0x1000_0000_0000_0000,
        old(c).tally() <= 2 * items@.len(),
        old(c).events@.len() <= 2 * items@.len(),
        old(c).cast_rows@.len() == 0,
        old(c).tracking_inside(),
    ensures
        second_pass_trace(trace@, items@, agents@),
        trace@[0] == *old(c),
        trace@.last() == *final(c),
        final(c).tally() <= 4 * items@.len(),
        final(c).events@.len() <= 4 * items@.len(),
        final(c).cast_rows@.len() <= items@.len(),
        forall|j: int| 0 <= j < final(c).cast_rows@.len() ==> #[trigger] final(c).cast_rows@[j] < items@.len(),
        final(c).tracking_inside(),
{
    let n = items.len();
    let ghost mut t2: Seq<Collector> = seq![*c];
    let mut k: usize = 0;
    while k < n
        invariant
            k <= n == items@.len(),
            n < 0x1000_0000_0000_0000,
            t2.len() == k + 1,
            t2[0] == *old(c),
            t2.last() == *c,
            forall|j: int|
                0 <= j < k ==> #[trigger] second_pass_step(t2[j], t2[j + 1], items@[j], j as usize, agents@),
            c.tally() <= 2 * n + 2 * k,
            c.events@.len() <= 2 * n + 2 * k,
            c.cast_rows@.len() <= k,
            forall|j: int| 0 <= j < c.cast_rows@.len() ==> #[trigger] c.cast_rows@[j] < n,
            c.tracking_inside(),
        decreases n - k,
    {
        let item = items[k];
        let s = item.state_change;
        if s == StateChange::AnimationStart || s == StateChange::AnimationStop {
            c.cast_rows.push(k);
        } else if s == StateChange::BuffApply || s == StateChange::BuffChange || s
            == StateChange::BuffInitial {
            add_buff_apply(c, &item);
        } else if s == StateChange::BuffRemoveAll || s == StateChange::BuffRemoveSingle {
            add_buff_remove(c, agents, &item);
        } else if s == StateChange::Combat {
            if item.buff == 0 {
                add_direct_damage(c, agents, &item);
            } else {
                add_buff_damage(c, agents, &item);
            }
        } else if item.is_essential_metadata() {
        } else if item.is_extension() {
            c.unsupported.bump(UnsupportedEventKind::Extension);
        } else {
            dispatch_state_change(c, &item);
        }
        proof {
            t2 = t2.push(*c);
        }
        k = k + 1;
    }
    Ghost(t2)
}

/// The events in stable time order, those without time first.
fn order_events(events: Vec<CombatEvent>) -> (r: (Vec<CombatEvent>, Ghost<Seq<usize>>))
    ensures
        is_stable_order(events@.map_values(|e: CombatEvent| event_time_key(e)), r.1@),
        r.0@ == r.1@.map_values(|i: usize| events@[i as int]),
{
    let mut keys: Vec<i128> = Vec::new();
    let mut i: usize = 0;
    while i < events.len()
        invariant
            i <= events@.len(),
            keys@.len() == i,
            forall|j: int| 0 <= j < i ==> #[trigger] keys@[j] == event_time_key(events@[j]),
        decreases events@.len() - i,
    {
        let key: i128 = match events[i].time() {
            Some(t) => t as i128,
            None => i64::MIN as i128,
        };
        keys.push(key);
        i = i + 1;
    }
    let ghost all = events@;
    assert(keys@ =~= all.map_values(|e: CombatEvent| event_time_key(e)));
    let p3 = stable_order(&keys);
    let ordered = events_in_order(events, Ghost(keys@), &p3);
    assert(ordered@ =~= p3@.map_values(|i: usize| all[i as int]));
    (ordered, Ghost(p3@))
}

/// Number of events of each participant and of each skill or buff id.
fn count_participants(events: &Vec<CombatEvent>) -> (r: (BTreeMap<u64, u64>, BTreeMap<u32, u64>))
    requires
        events@.len() < 0x7000_0000_0000_0000,
    ensures
        r.0@ == agent_counts(events@),
        r.1@ == id_counts(events@),
{
    let mut per_agent_counts: BTreeMap<u64, u64> = BTreeMap::new();
    let mut per_id_counts: BTreeMap<u32, u64> = BTreeMap::new();
    let mut i: usize = 0;
    assert(events@.take(0) =~= Seq::<CombatEvent>::empty());
    while i < events.len()
        invariant
            i <= events@.len(),
            events@.len() < 0x7000_0000_0000_0000,
            per_agent_counts@ == agent_counts(events@.take(i as int)),
            per_id_counts@ == id_counts(events@.take(i as int)),
            forall|x: u64| #[trigger] per_agent_counts@.contains_key(x) ==> per_agent_counts@[x] <= 2 * i,
            forall|x: u32| #[trigger] per_id_counts@.contains_key(x) ==> per_id_counts@[x] <= i,
        decreases events@.len() - i,
    {
        assert(events@.take(i + 1).drop_last() =~= events@.take(i as int));
        let (a, b) = events[i].participants();
        if a != 0 {
            count_into(&mut per_agent_counts, a, Ghost(2 * i as int));
        }
        if b != 0 {
            count_into(&mut per_agent_counts, b, Ghost(2 * i + 1));
        }
        match events[i].related_id() {
            Some(id) => count_id_into(&mut per_id_counts, id, Ghost(i as int)),
            None => {},
        }
        i = i + 1;
    }
    assert(events@.take(i as int) =~= events@);
    (per_agent_counts, per_id_counts)
}

/// Turns the rows of a parsed log into typed events, metadata and counts.
/// Builds older than buff rows as state changes are refused.
#[verifier::spinoff_prover]
#[verifier::rlimit(40)]
pub fn build_combat_data(log: EvtcRawLog) -> (r: Result<CombatData, ModelError>)
    requires
        log.combat_events@.len() < 0x1000_0000_0000_0000,
    ensures
        match r {
            Err(e) => log.arc_version.0 < BUFF_APPLIES_AND_REMOVES_AS_STATE_CHANGES && e
                == ModelError::UnsupportedArcBuild { build: log.arc_version.0 },
            Ok(d) => {
                &&& log.arc_version.0 >= BUFF_APPLIES_AND_REMOVES_AS_STATE_CHANGES
                &&& d.arc_version == log.arc_version
                &&& d.log_start_offset == log.log_start_offset
                &&& d.log_end_time == log.log_end_time
                &&& exists|
                    order: Seq<usize>,
                    t1: Seq<Collector>,
                    t2: Seq<Collector>,
                    p1: Seq<usize>,
                    p2: Seq<usize>,
                    p3: Seq<usize>,
                | eventized(
                    log.combat_events@,
                    kinds_by_address(log.agents@),
                    log.arc_version.0,
                    log.log_start_offset,
                    log.log_end_time,
                    order,
                    t1,
                    t2,
                    p1,
                    p2,
                    p3,
                    d,
                )
            },
        },
{
    let build = log.arc_version.0;
    if build < BUFF_APPLIES_AND_REMOVES_AS_STATE_CHANGES {
        return Err(ModelError::UnsupportedArcBuild { build });
    }
    let agents = AgentLookup::new(&log);
    let ids = dodge_and_breakbar_for_build(build);
    let dodge_id = ids.0;
    let generic_breakbar_id = ids.1;
    let order = time_order(&log.combat_events);
    let items = rows_in_order(&log.combat_events, &order);
    assert(items@ =~= order@.map_values(|i: usize| log.combat_events@[i as int]));
    assert(items@.len() == log.combat_events@.map_values(|x: EvtcCombatItem| x.time as i128).len());
    let mut c = Collector {
        build,
        log_start: log.log_start_offset,
        generic_breakbar_id,
        events: Vec::new(),
        metadata: MetaDataBucket::new(),
        counts: CategoryCounts::zero(),
        unsupported: UnsupportedCounts::zero(),
        cast_rows: Vec::new(),
        last_targetable_by_src: BTreeMap::new(),
        last_visibility_by_src: BTreeMap::new(),
        effect_starts_by_tracking: BTreeMap::new(),
        split_ground_by_tracking: BTreeMap::new(),
        split_agent_by_tracking: BTreeMap::new(),
    };
    assert(is_fresh(c, build, log.log_start_offset, generic_breakbar_id));
    let t1 = first_pass(&mut c, &items);
    let t2 = second_pass(&mut c, &items, &agents);
    let ghost before_casts = c;
    let ghost cp = CastParams { agents: agents@, dodge_id, log_end: log.log_end_time, log_start: 0 };
    let ghost rows_c = before_casts.cast_rows@.map_values(|i: usize| items@[i as int]);
    create_cast_events(&mut c, &items, &agents, dodge_id, log.log_end_time, 0);
    let ghost (p1, p2) = choose|p1: Seq<usize>, p2: Seq<usize>|
        {
            &&& cast_orders(cp, rows_c, p1, p2)
            &&& c.events@ == before_casts.events@ + casts_with(cp, rows_c, p1, p2)
            &&& c.counts == counts_after(before_casts.counts, casts_with(cp, rows_c, p1, p2))
        };
    let ghost ne = c.events@.len();
    assert(ne <= 5 * items@.len());
    let Collector { events, metadata, counts, unsupported, .. } = c;
    let ghost evs = events@;
    assert(evs.len() == ne);
    let (events, p3) = order_events(events);
    assert(events@.len() == evs.map_values(|e: CombatEvent| event_time_key(e)).len());
    assert(items@.len() < 0x1000_0000_0000_0000);
    assert(ne < 0x7000_0000_0000_0000);
    assert(events@.len() == ne);
    let (per_agent_counts, per_id_counts) = count_participants(&events);
    let d = CombatData {
        events,
        metadata,
        counts,
        unsupported,
        per_agent_counts,
        per_id_counts,
        arc_version: log.arc_version,
        log_start_offset: log.log_start_offset,
        log_end_time: log.log_end_time,
    };
    assert(eventized(
        log.combat_events@,
        kinds_by_address(log.agents@),
        build,
        log.log_start_offset,
        log.log_end_time,
        order@,
        t1@,
        t2@,
        p1,
        p2,
        p3@,
        d,
    ));
    Ok(d)
}

/// The events of a log come out in time order (untimed ones first), equal
/// times in the order they were made.
pub proof fn law_events_in_time_order(
    log_items: Seq<EvtcCombatItem>,
    agents: Map<u64, RawAgentKind>,
    build: i32,
    log_start_offset: i64,
    log_end: i64,
    order: Seq<usize>,
    t1: Seq<Collector>,
    t2: Seq<Collector>,
    p1: Seq<usize>,
    p2: Seq<usize>,
    p3: Seq<usize>,
    d: CombatData,
    i: int,
    j: int,
)
    requires
        eventized(log_items, agents, build, log_start_offset, log_end, order, t1, t2, p1, p2, p3, d),
        0 <= i < j < d.events@.len(),
    ensures
        event_time_key(d.events@[i]) <= event_time_key(d.events@[j]),
{
    let ids = dodge_and_breakbar_ids(build);
    let items = order.map_values(|q: usize| log_items[q as int]);
    let cp = CastParams { agents, dodge_id: ids.0, log_end, log_start: 0 };
    let last = t2.last();
    let rows = last.cast_rows@.map_values(|q: usize| items[q as int]);
    let casts = casts_with(cp, rows, p1, p2);
    let all = last.events@ + casts;
    let keys = all.map_values(|e: CombatEvent| event_time_key(e));
    assert(crate::model::ordering::key_before(keys, p3[i] as int, p3[j] as int));
    assert(d.events@[i] == all[p3[i] as int]);
    assert(d.events@[j] == all[p3[j] as int]);
}

} // verus!
