//! Events of a combat log, grouped as the log model keeps them, and their
//! counts by category.

use vstd::prelude::*;
use std::collections::BTreeMap;
use crate::model::events::{
    AttackTargetEventFields, BuffInfoEventFields, CombatEvent, EffectGuidInfo, ErrorEventFields,
    FractalScaleEventFields, GuildEventFields, Gw2BuildEventFields, InstanceStartEventFields,
    LanguageEventFields, LogNpcUpdateEventFields, MapChangeEventFields, MapIdEventFields,
    PointOfViewEventFields, RewardEventFields, ShardEventFields, SkillInfoEventFields,
    SquadCombatEndEventFields, SquadCombatStartEventFields, TickEventFields, TickRateEventFields,
    UnsupportedEventKind, WvWObjectiveStatusEventFields, WvWTeamsEventFields,
};

verus! {

/// Number of events of each category.
#[derive(Debug, Clone, Copy, Default, PartialEq, Eq)]
pub struct CategoryCounts {
    pub direct_health_damage: u64,
    pub non_direct_health_damage: u64,
    pub no_damage_health_damage: u64,
    pub breakbar_damage: u64,
    pub breakbar_recovery: u64,
    pub crowd_control: u64,
    pub stun_break: u64,
    pub buff_apply: u64,
    pub buff_extension: u64,
    pub buff_stack_active: u64,
    pub buff_stack_deactive: u64,
    pub buff_remove_single: u64,
    pub buff_remove_all: u64,
    pub buff_remove_manual: u64,
    pub animated_cast: u64,
    pub emote: u64,
    pub gadget_interact: u64,
    pub bundle_pick_up: u64,
    pub weapon_swap: u64,
    pub enter_combat: u64,
    pub exit_combat: u64,
    pub alive: u64,
    pub dead: u64,
    pub down: u64,
    pub spawn: u64,
    pub despawn: u64,
    pub health_update: u64,
    pub barrier_update: u64,
    pub max_health_update: u64,
    pub team_change: u64,
    pub targetable: u64,
    pub visibility: u64,
    pub breakbar_state: u64,
    pub breakbar_percent: u64,
    pub glider: u64,
    pub last90_before_down: u64,
    pub movement: u64,
    pub metadata_singletons: u64,
    pub metadata_list: u64,
    pub metadata_guid: u64,
    /// Rows consumed without producing anything.
    pub dropped_by_cs: u64,
}

/// A category of events, one per counter of [`CategoryCounts`].
#[derive(Debug, Clone, Copy, PartialEq, Eq, Structural)]
pub enum CountKind {
    DirectHealthDamage,
    NonDirectHealthDamage,
    NoDamageHealthDamage,
    BreakbarDamage,
    BreakbarRecovery,
    CrowdControl,
    StunBreak,
    BuffApply,
    BuffExtension,
    BuffStackActive,
    BuffStackDeactive,
    BuffRemoveSingle,
    BuffRemoveAll,
    BuffRemoveManual,
    AnimatedCast,
    Emote,
    GadgetInteract,
    BundlePickUp,
    WeaponSwap,
    EnterCombat,
    ExitCombat,
    Alive,
    Dead,
    Down,
    Spawn,
    Despawn,
    HealthUpdate,
    BarrierUpdate,
    MaxHealthUpdate,
    TeamChange,
    Targetable,
    Visibility,
    BreakbarState,
    BreakbarPercent,
    Glider,
    Last90BeforeDown,
    Movement,
    MetadataSingletons,
    MetadataList,
    MetadataGuid,
    DroppedByCs,
}

impl CategoryCounts {
    /// All counters at 0.
    pub open spec fn zeroed() -> CategoryCounts {
        CategoryCounts {
            direct_health_damage: 0,
            non_direct_health_damage: 0,
            no_damage_health_damage: 0,
            breakbar_damage: 0,
            breakbar_recovery: 0,
            crowd_control: 0,
            stun_break: 0,
            buff_apply: 0,
            buff_extension: 0,
            buff_stack_active: 0,
            buff_stack_deactive: 0,
            buff_remove_single: 0,
            buff_remove_all: 0,
            buff_remove_manual: 0,
            animated_cast: 0,
            emote: 0,
            gadget_interact: 0,
            bundle_pick_up: 0,
            weapon_swap: 0,
            enter_combat: 0,
            exit_combat: 0,
            alive: 0,
            dead: 0,
            down: 0,
            spawn: 0,
            despawn: 0,
            health_update: 0,
            barrier_update: 0,
            max_health_update: 0,
            team_change: 0,
            targetable: 0,
            visibility: 0,
            breakbar_state: 0,
            breakbar_percent: 0,
            glider: 0,
            last90_before_down: 0,
            movement: 0,
            metadata_singletons: 0,
            metadata_list: 0,
            metadata_guid: 0,
            dropped_by_cs: 0,
        }
    }

    pub fn zero() -> (r: CategoryCounts)
        ensures
            r == Self::zeroed(),
    {
        CategoryCounts {
            direct_health_damage: 0,
            non_direct_health_damage: 0,
            no_damage_health_damage: 0,
            breakbar_damage: 0,
            breakbar_recovery: 0,
            crowd_control: 0,
            stun_break: 0,
            buff_apply: 0,
            buff_extension: 0,
            buff_stack_active: 0,
            buff_stack_deactive: 0,
            buff_remove_single: 0,
            buff_remove_all: 0,
            buff_remove_manual: 0,
            animated_cast: 0,
            emote: 0,
            gadget_interact: 0,
            bundle_pick_up: 0,
            weapon_swap: 0,
            enter_combat: 0,
            exit_combat: 0,
            alive: 0,
            dead: 0,
            down: 0,
            spawn: 0,
            despawn: 0,
            health_update: 0,
            barrier_update: 0,
            max_health_update: 0,
            team_change: 0,
            targetable: 0,
            visibility: 0,
            breakbar_state: 0,
            breakbar_percent: 0,
            glider: 0,
            last90_before_down: 0,
            movement: 0,
            metadata_singletons: 0,
            metadata_list: 0,
            metadata_guid: 0,
            dropped_by_cs: 0,
        }
    }

    /// Sum of all counters.
    pub open spec fn total(&self) -> int {
        self.direct_health_damage
            + self.non_direct_health_damage
            + self.no_damage_health_damage
            + self.breakbar_damage
            + self.breakbar_recovery
            + self.crowd_control
            + self.stun_break
            + self.buff_apply
            + self.buff_extension
            + self.buff_stack_active
            + self.buff_stack_deactive
            + self.buff_remove_single
            + self.buff_remove_all
            + self.buff_remove_manual
            + self.animated_cast
            + self.emote
            + self.gadget_interact
            + self.bundle_pick_up
            + self.weapon_swap
            + self.enter_combat
            + self.exit_combat
            + self.alive
            + self.dead
            + self.down
            + self.spawn
            + self.despawn
            + self.health_update
            + self.barrier_update
            + self.max_health_update
            + self.team_change
            + self.targetable
            + self.visibility
            + self.breakbar_state
            + self.breakbar_percent
            + self.glider
            + self.last90_before_down
            + self.movement
            + self.metadata_singletons
            + self.metadata_list
            + self.metadata_guid
            + self.dropped_by_cs
    }

    /// The counters with the one of `kind` one higher.
    pub open spec fn bumped(self, kind: CountKind) -> CategoryCounts {
        match kind {
            CountKind::DirectHealthDamage => CategoryCounts { direct_health_damage: (self.direct_health_damage + 1) as u64, ..self },
            CountKind::NonDirectHealthDamage => CategoryCounts { non_direct_health_damage: (self.non_direct_health_damage + 1) as u64, ..self },
            CountKind::NoDamageHealthDamage => CategoryCounts { no_damage_health_damage: (self.no_damage_health_damage + 1) as u64, ..self },
            CountKind::BreakbarDamage => CategoryCounts { breakbar_damage: (self.breakbar_damage + 1) as u64, ..self },
            CountKind::BreakbarRecovery => CategoryCounts { breakbar_recovery: (self.breakbar_recovery + 1) as u64, ..self },
            CountKind::CrowdControl => CategoryCounts { crowd_control: (self.crowd_control + 1) as u64, ..self },
            CountKind::StunBreak => CategoryCounts { stun_break: (self.stun_break + 1) as u64, ..self },
            CountKind::BuffApply => CategoryCounts { buff_apply: (self.buff_apply + 1) as u64, ..self },
            CountKind::BuffExtension => CategoryCounts { buff_extension: (self.buff_extension + 1) as u64, ..self },
            CountKind::BuffStackActive => CategoryCounts { buff_stack_active: (self.buff_stack_active + 1) as u64, ..self },
            CountKind::BuffStackDeactive => CategoryCounts { buff_stack_deactive: (self.buff_stack_deactive + 1) as u64, ..self },
            CountKind::BuffRemoveSingle => CategoryCounts { buff_remove_single: (self.buff_remove_single + 1) as u64, ..self },
            CountKind::BuffRemoveAll => CategoryCounts { buff_remove_all: (self.buff_remove_all + 1) as u64, ..self },
            CountKind::BuffRemoveManual => CategoryCounts { buff_remove_manual: (self.buff_remove_manual + 1) as u64, ..self },
            CountKind::AnimatedCast => CategoryCounts { animated_cast: (self.animated_cast + 1) as u64, ..self },
            CountKind::Emote => CategoryCounts { emote: (self.emote + 1) as u64, ..self },
            CountKind::GadgetInteract => CategoryCounts { gadget_interact: (self.gadget_interact + 1) as u64, ..self },
            CountKind::BundlePickUp => CategoryCounts { bundle_pick_up: (self.bundle_pick_up + 1) as u64, ..self },
            CountKind::WeaponSwap => CategoryCounts { weapon_swap: (self.weapon_swap + 1) as u64, ..self },
            CountKind::EnterCombat => CategoryCounts { enter_combat: (self.enter_combat + 1) as u64, ..self },
            CountKind::ExitCombat => CategoryCounts { exit_combat: (self.exit_combat + 1) as u64, ..self },
            CountKind::Alive => CategoryCounts { alive: (self.alive + 1) as u64, ..self },
            CountKind::Dead => CategoryCounts { dead: (self.dead + 1) as u64, ..self },
            CountKind::Down => CategoryCounts { down: (self.down + 1) as u64, ..self },
            CountKind::Spawn => CategoryCounts { spawn: (self.spawn + 1) as u64, ..self },
            CountKind::Despawn => CategoryCounts { despawn: (self.despawn + 1) as u64, ..self },
            CountKind::HealthUpdate => CategoryCounts { health_update: (self.health_update + 1) as u64, ..self },
            CountKind::BarrierUpdate => CategoryCounts { barrier_update: (self.barrier_update + 1) as u64, ..self },
            CountKind::MaxHealthUpdate => CategoryCounts { max_health_update: (self.max_health_update + 1) as u64, ..self },
            CountKind::TeamChange => CategoryCounts { team_change: (self.team_change + 1) as u64, ..self },
            CountKind::Targetable => CategoryCounts { targetable: (self.targetable + 1) as u64, ..self },
            CountKind::Visibility => CategoryCounts { visibility: (self.visibility + 1) as u64, ..self },
            CountKind::BreakbarState => CategoryCounts { breakbar_state: (self.breakbar_state + 1) as u64, ..self },
            CountKind::BreakbarPercent => CategoryCounts { breakbar_percent: (self.breakbar_percent + 1) as u64, ..self },
            CountKind::Glider => CategoryCounts { glider: (self.glider + 1) as u64, ..self },
            CountKind::Last90BeforeDown => CategoryCounts { last90_before_down: (self.last90_before_down + 1) as u64, ..self },
            CountKind::Movement => CategoryCounts { movement: (self.movement + 1) as u64, ..self },
            CountKind::MetadataSingletons => CategoryCounts { metadata_singletons: (self.metadata_singletons + 1) as u64, ..self },
            CountKind::MetadataList => CategoryCounts { metadata_list: (self.metadata_list + 1) as u64, ..self },
            CountKind::MetadataGuid => CategoryCounts { metadata_guid: (self.metadata_guid + 1) as u64, ..self },
            CountKind::DroppedByCs => CategoryCounts { dropped_by_cs: (self.dropped_by_cs + 1) as u64, ..self },
        }
    }

    /// Counts one more event of `kind`.
    pub fn bump(&mut self, kind: CountKind)
        requires
            old(self).total() < u64::MAX,
        ensures
            *final(self) == old(self).bumped(kind),
            final(self).total() == old(self).total() + 1,
    {
        match kind {
            CountKind::DirectHealthDamage => {
                self.direct_health_damage = self.direct_health_damage + 1;
            },
            CountKind::NonDirectHealthDamage => {
                self.non_direct_health_damage = self.non_direct_health_damage + 1;
            },
            CountKind::NoDamageHealthDamage => {
                self.no_damage_health_damage = self.no_damage_health_damage + 1;
            },
            CountKind::BreakbarDamage => {
                self.breakbar_damage = self.breakbar_damage + 1;
            },
            CountKind::BreakbarRecovery => {
                self.breakbar_recovery = self.breakbar_recovery + 1;
            },
            CountKind::CrowdControl => {
                self.crowd_control = self.crowd_control + 1;
            },
            CountKind::StunBreak => {
                self.stun_break = self.stun_break + 1;
            },
            CountKind::BuffApply => {
                self.buff_apply = self.buff_apply + 1;
            },
            CountKind::BuffExtension => {
                self.buff_extension = self.buff_extension + 1;
            },
            CountKind::BuffStackActive => {
                self.buff_stack_active = self.buff_stack_active + 1;
            },
            CountKind::BuffStackDeactive => {
                self.buff_stack_deactive = self.buff_stack_deactive + 1;
            },
            CountKind::BuffRemoveSingle => {
                self.buff_remove_single = self.buff_remove_single + 1;
            },
            CountKind::BuffRemoveAll => {
                self.buff_remove_all = self.buff_remove_all + 1;
            },
            CountKind::BuffRemoveManual => {
                self.buff_remove_manual = self.buff_remove_manual + 1;
            },
            CountKind::AnimatedCast => {
                self.animated_cast = self.animated_cast + 1;
            },
            CountKind::Emote => {
                self.emote = self.emote + 1;
            },
            CountKind::GadgetInteract => {
                self.gadget_interact = self.gadget_interact + 1;
            },
            CountKind::BundlePickUp => {
                self.bundle_pick_up = self.bundle_pick_up + 1;
            },
            CountKind::WeaponSwap => {
                self.weapon_swap = self.weapon_swap + 1;
            },
            CountKind::EnterCombat => {
                self.enter_combat = self.enter_combat + 1;
            },
            CountKind::ExitCombat => {
                self.exit_combat = self.exit_combat + 1;
            },
            CountKind::Alive => {
                self.alive = self.alive + 1;
            },
            CountKind::Dead => {
                self.dead = self.dead + 1;
            },
            CountKind::Down => {
                self.down = self.down + 1;
            },
            CountKind::Spawn => {
                self.spawn = self.spawn + 1;
            },
            CountKind::Despawn => {
                self.despawn = self.despawn + 1;
            },
            CountKind::HealthUpdate => {
                self.health_update = self.health_update + 1;
            },
            CountKind::BarrierUpdate => {
                self.barrier_update = self.barrier_update + 1;
            },
            CountKind::MaxHealthUpdate => {
                self.max_health_update = self.max_health_update + 1;
            },
            CountKind::TeamChange => {
                self.team_change = self.team_change + 1;
            },
            CountKind::Targetable => {
                self.targetable = self.targetable + 1;
            },
            CountKind::Visibility => {
                self.visibility = self.visibility + 1;
            },
            CountKind::BreakbarState => {
                self.breakbar_state = self.breakbar_state + 1;
            },
            CountKind::BreakbarPercent => {
                self.breakbar_percent = self.breakbar_percent + 1;
            },
            CountKind::Glider => {
                self.glider = self.glider + 1;
            },
            CountKind::Last90BeforeDown => {
                self.last90_before_down = self.last90_before_down + 1;
            },
            CountKind::Movement => {
                self.movement = self.movement + 1;
            },
            CountKind::MetadataSingletons => {
                self.metadata_singletons = self.metadata_singletons + 1;
            },
            CountKind::MetadataList => {
                self.metadata_list = self.metadata_list + 1;
            },
            CountKind::MetadataGuid => {
                self.metadata_guid = self.metadata_guid + 1;
            },
            CountKind::DroppedByCs => {
                self.dropped_by_cs = self.dropped_by_cs + 1;
            },
        }
    }
}

/// Rows of each kind that are counted but not turned into events.
#[derive(Debug, Clone, Copy, Default, PartialEq, Eq)]
pub struct UnsupportedCounts {
    pub effect: u64,
    pub marker: u64,
    pub squad_marker: u64,
    pub transformation: u64,
    pub missile: u64,
    pub wvw_objective_status: u64,
    pub gadget_capture: u64,
    pub gadget_animation: u64,
    pub ignored_by_cs: u64,
    pub extension: u64,
}

impl UnsupportedCounts {
    /// All counters at 0.
    pub open spec fn zeroed() -> UnsupportedCounts {
        UnsupportedCounts {
            effect: 0,
            marker: 0,
            squad_marker: 0,
            transformation: 0,
            missile: 0,
            wvw_objective_status: 0,
            gadget_capture: 0,
            gadget_animation: 0,
            ignored_by_cs: 0,
            extension: 0,
        }
    }

    pub fn zero() -> (r: UnsupportedCounts)
        ensures
            r == Self::zeroed(),
    {
        UnsupportedCounts {
            effect: 0,
            marker: 0,
            squad_marker: 0,
            transformation: 0,
            missile: 0,
            wvw_objective_status: 0,
            gadget_capture: 0,
            gadget_animation: 0,
            ignored_by_cs: 0,
            extension: 0,
        }
    }

    pub open spec fn total(&self) -> int {
        self.effect
            + self.marker
            + self.squad_marker
            + self.transformation
            + self.missile
            + self.wvw_objective_status
            + self.gadget_capture
            + self.gadget_animation
            + self.ignored_by_cs
            + self.extension
    }

    pub open spec fn count_of(&self, kind: UnsupportedEventKind) -> u64 {
        match kind {
            UnsupportedEventKind::Effect => self.effect,
            UnsupportedEventKind::Marker => self.marker,
            UnsupportedEventKind::SquadMarker => self.squad_marker,
            UnsupportedEventKind::Transformation => self.transformation,
            UnsupportedEventKind::Missile => self.missile,
            UnsupportedEventKind::WvWObjectiveStatus => self.wvw_objective_status,
            UnsupportedEventKind::GadgetCapture => self.gadget_capture,
            UnsupportedEventKind::GadgetAnimation => self.gadget_animation,
            UnsupportedEventKind::IgnoredByCs => self.ignored_by_cs,
            UnsupportedEventKind::Extension => self.extension,
        }
    }

    /// The counters with the one of `kind` one higher.
    pub open spec fn bumped(self, kind: UnsupportedEventKind) -> UnsupportedCounts {
        match kind {
            UnsupportedEventKind::Effect => UnsupportedCounts { effect: (self.effect + 1) as u64, ..self },
            UnsupportedEventKind::Marker => UnsupportedCounts { marker: (self.marker + 1) as u64, ..self },
            UnsupportedEventKind::SquadMarker => UnsupportedCounts { squad_marker: (self.squad_marker + 1) as u64, ..self },
            UnsupportedEventKind::Transformation => UnsupportedCounts { transformation: (self.transformation + 1) as u64, ..self },
            UnsupportedEventKind::Missile => UnsupportedCounts { missile: (self.missile + 1) as u64, ..self },
            UnsupportedEventKind::WvWObjectiveStatus => UnsupportedCounts { wvw_objective_status: (self.wvw_objective_status + 1) as u64, ..self },
            UnsupportedEventKind::GadgetCapture => UnsupportedCounts { gadget_capture: (self.gadget_capture + 1) as u64, ..self },
            UnsupportedEventKind::GadgetAnimation => UnsupportedCounts { gadget_animation: (self.gadget_animation + 1) as u64, ..self },
            UnsupportedEventKind::IgnoredByCs => UnsupportedCounts { ignored_by_cs: (self.ignored_by_cs + 1) as u64, ..self },
            UnsupportedEventKind::Extension => UnsupportedCounts { extension: (self.extension + 1) as u64, ..self },
        }
    }

    /// Number of rows of `kind`.
    pub fn get(&self, kind: UnsupportedEventKind) -> (r: u64)
        ensures
            r == self.count_of(kind),
    {
        match kind {
            UnsupportedEventKind::Effect => self.effect,
            UnsupportedEventKind::Marker => self.marker,
            UnsupportedEventKind::SquadMarker => self.squad_marker,
            UnsupportedEventKind::Transformation => self.transformation,
            UnsupportedEventKind::Missile => self.missile,
            UnsupportedEventKind::WvWObjectiveStatus => self.wvw_objective_status,
            UnsupportedEventKind::GadgetCapture => self.gadget_capture,
            UnsupportedEventKind::GadgetAnimation => self.gadget_animation,
            UnsupportedEventKind::IgnoredByCs => self.ignored_by_cs,
            UnsupportedEventKind::Extension => self.extension,
        }
    }

    /// Counts one more row of `kind`.
    pub fn bump(&mut self, kind: UnsupportedEventKind)
        requires
            old(self).total() < u64::MAX,
        ensures
            *final(self) == old(self).bumped(kind),
            final(self).total() == old(self).total() + 1,
    {
        match kind {
            UnsupportedEventKind::Effect => {
                self.effect = self.effect + 1;
            },
            UnsupportedEventKind::Marker => {
                self.marker = self.marker + 1;
            },
            UnsupportedEventKind::SquadMarker => {
                self.squad_marker = self.squad_marker + 1;
            },
            UnsupportedEventKind::Transformation => {
                self.transformation = self.transformation + 1;
            },
            UnsupportedEventKind::Missile => {
                self.missile = self.missile + 1;
            },
            UnsupportedEventKind::WvWObjectiveStatus => {
                self.wvw_objective_status = self.wvw_objective_status + 1;
            },
            UnsupportedEventKind::GadgetCapture => {
                self.gadget_capture = self.gadget_capture + 1;
            },
            UnsupportedEventKind::GadgetAnimation => {
                self.gadget_animation = self.gadget_animation + 1;
            },
            UnsupportedEventKind::IgnoredByCs => {
                self.ignored_by_cs = self.ignored_by_cs + 1;
            },
            UnsupportedEventKind::Extension => {
                self.extension = self.extension + 1;
            },
        }
    }
}


/// Metadata of the log: singletons keep the last row seen, lists keep row
/// order, and the tables merge rows by id.
#[derive(Debug, Clone)]
pub struct MetaDataBucket {
    pub instance_start: Option<InstanceStartEventFields>,
    pub language: Option<LanguageEventFields>,
    pub gw2_build: Option<Gw2BuildEventFields>,
    pub shard: Option<ShardEventFields>,
    pub map_id: Option<MapIdEventFields>,
    pub point_of_view: Option<PointOfViewEventFields>,
    pub fractal_scale: Option<FractalScaleEventFields>,
    pub wvw_teams: Option<WvWTeamsEventFields>,
    /// The first squad combat start not already overtaken by a squad
    /// combat end.
    pub log_start_event: Option<SquadCombatStartEventFields>,
    /// The last squad combat end.
    pub log_end_event: Option<SquadCombatEndEventFields>,
    pub map_changes: Vec<MapChangeEventFields>,
    pub squad_combat_starts: Vec<SquadCombatStartEventFields>,
    pub squad_combat_ends: Vec<SquadCombatEndEventFields>,
    pub log_npc_updates: Vec<LogNpcUpdateEventFields>,
    pub rewards: Vec<RewardEventFields>,
    pub guilds: Vec<GuildEventFields>,
    pub attack_targets: Vec<AttackTargetEventFields>,
    pub tick_rates: Vec<TickRateEventFields>,
    pub ticks: Vec<TickEventFields>,
    pub errors: Vec<ErrorEventFields>,
    pub buff_info_by_id: BTreeMap<u32, BuffInfoEventFields>,
    pub skill_info_by_id: BTreeMap<u32, SkillInfoEventFields>,
    /// GUID rows, as events of the GUID variants.
    pub id_to_guid: Vec<CombatEvent>,
    /// Effect GUIDs and default durations by effect id.
    pub effect_guid_by_effect_id: BTreeMap<i64, EffectGuidInfo>,
    /// World vs. World objectives in the order they were first seen.
    pub wvw_objective_statuses: Vec<WvWObjectiveStatusEventFields>,
}

impl MetaDataBucket {
    /// A bucket with nothing in it.
    pub open spec fn is_empty_bucket(&self) -> bool {
        &&& self.instance_start is None
        &&& self.language is None
        &&& self.gw2_build is None
        &&& self.shard is None
        &&& self.map_id is None
        &&& self.point_of_view is None
        &&& self.fractal_scale is None
        &&& self.wvw_teams is None
        &&& self.log_start_event is None
        &&& self.log_end_event is None
        &&& self.map_changes@.len() == 0
        &&& self.squad_combat_starts@.len() == 0
        &&& self.squad_combat_ends@.len() == 0
        &&& self.log_npc_updates@.len() == 0
        &&& self.rewards@.len() == 0
        &&& self.guilds@.len() == 0
        &&& self.attack_targets@.len() == 0
        &&& self.tick_rates@.len() == 0
        &&& self.ticks@.len() == 0
        &&& self.errors@.len() == 0
        &&& self.buff_info_by_id@ == Map::<u32, BuffInfoEventFields>::empty()
        &&& self.skill_info_by_id@ == Map::<u32, SkillInfoEventFields>::empty()
        &&& self.id_to_guid@.len() == 0
        &&& self.effect_guid_by_effect_id@ == Map::<i64, EffectGuidInfo>::empty()
        &&& self.wvw_objective_statuses@.len() == 0
    }

    pub fn new() -> (r: Self)
        ensures
            r.is_empty_bucket(),
    {
        MetaDataBucket {
            instance_start: None,
            language: None,
            gw2_build: None,
            shard: None,
            map_id: None,
            point_of_view: None,
            fractal_scale: None,
            wvw_teams: None,
            log_start_event: None,
            log_end_event: None,
            map_changes: Vec::new(),
            squad_combat_starts: Vec::new(),
            squad_combat_ends: Vec::new(),
            log_npc_updates: Vec::new(),
            rewards: Vec::new(),
            guilds: Vec::new(),
            attack_targets: Vec::new(),
            tick_rates: Vec::new(),
            ticks: Vec::new(),
            errors: Vec::new(),
            buff_info_by_id: BTreeMap::new(),
            skill_info_by_id: BTreeMap::new(),
            id_to_guid: Vec::new(),
            effect_guid_by_effect_id: BTreeMap::new(),
            wvw_objective_statuses: Vec::new(),
        }
    }
}

/// The events of a log with their metadata and counts.
#[derive(Debug)]
pub struct CombatData {
    /// Row events in time order.
    pub events: Vec<CombatEvent>,
    pub metadata: MetaDataBucket,
    pub counts: CategoryCounts,
    pub unsupported: UnsupportedCounts,
    /// Number of events each agent address takes part in.
    pub per_agent_counts: BTreeMap<u64, u64>,
    /// Number of events about each skill or buff id.
    pub per_id_counts: BTreeMap<u32, u64>,
    /// Build and revision the events were read with.
    pub arc_version: (i32, i32),
    pub log_start_offset: i64,
    pub log_end_time: i64,
}

} // verus!
