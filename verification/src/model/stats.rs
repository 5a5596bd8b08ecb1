//! Event indexes by agent and the damage statistics computed from events
//! alone.
//!
//! Damage sums and the per-second graph wrap on integer overflow.

use vstd::prelude::*;
use std::collections::BTreeMap;
use std::collections::BTreeSet;
use crate::model::agent::{
    AgentId, AgentItem, AgentTable, NO_AGENT, agent_at, at_address, first_by_key, is_player_type, live,
    non_identified_id,
};
use crate::model::factory::wrapping_distance;
use crate::model::parsed::ParsedLog;
use crate::model::events::CombatEvent;
use crate::parse::enums::Iff;

verus! {

broadcast use {vstd::std_specs::btree::group_btree_axioms, vstd::laws_cmp::group_laws_cmp};

/// Event positions by agent and role.
#[derive(Debug, Clone, Default)]
pub struct EventIndex {
    /// Health damage dealt (direct, non-direct and no-damage hits).
    pub damage_from: BTreeMap<AgentId, Vec<usize>>,
    pub damage_to: BTreeMap<AgentId, Vec<usize>>,
    pub breakbar_damage_from: BTreeMap<AgentId, Vec<usize>>,
    pub breakbar_damage_to: BTreeMap<AgentId, Vec<usize>>,
    pub cc_from: BTreeMap<AgentId, Vec<usize>>,
    pub cc_to: BTreeMap<AgentId, Vec<usize>>,
    /// Stun breaks by the agent whose stun was broken.
    pub stun_break_to: BTreeMap<AgentId, Vec<usize>>,
    /// Casts by caster.
    pub cast_by_caster: BTreeMap<AgentId, Vec<usize>>,
    pub weapon_swap_by_caster: BTreeMap<AgentId, Vec<usize>>,
    pub down: BTreeMap<AgentId, Vec<usize>>,
    pub alive: BTreeMap<AgentId, Vec<usize>>,
    pub dead: BTreeMap<AgentId, Vec<usize>>,
    pub spawn: BTreeMap<AgentId, Vec<usize>>,
    pub despawn: BTreeMap<AgentId, Vec<usize>>,
    pub health_update: BTreeMap<AgentId, Vec<usize>>,
    pub barrier_update: BTreeMap<AgentId, Vec<usize>>,
    pub max_health_update: BTreeMap<AgentId, Vec<usize>>,
    pub enter_combat: BTreeMap<AgentId, Vec<usize>>,
    pub exit_combat: BTreeMap<AgentId, Vec<usize>>,
    pub breakbar_percent: BTreeMap<AgentId, Vec<usize>>,
    /// Some defiance bar damage exists.
    pub has_breakbar_damage: bool,
    /// Some crowd control exists.
    pub has_cc: bool,
    /// Events whose agent did not resolve.
    pub unresolved: u64,
}

/// Which statistics still lack the data they need.
#[derive(Debug, Clone, Copy, PartialEq, Eq, Default)]
pub struct StatsCompleteness {
    pub requires_buff_registry: bool,
    pub requires_simulator: bool,
    pub requires_skill_content: bool,
    pub requires_combat_replay: bool,
    /// Non-direct hits left out for want of a condition/power classification.
    pub unclassified_indirect_events: u64,
}

/// Lists of an index map, by their views.
pub open spec fn lists(m: BTreeMap<AgentId, Vec<usize>>) -> Map<AgentId, Seq<usize>> {
    m@.map_values(|v: Vec<usize>| v@)
}

/// The list of `k`, empty when it has none.
pub open spec fn list_or_empty(m: Map<AgentId, Seq<usize>>, k: AgentId) -> Seq<usize> {
    if m.contains_key(k) {
        m[k]
    } else {
        Seq::empty()
    }
}

/// `m` with `v` appended to the list of `k`; nothing for `NO_AGENT`.
pub open spec fn pushed(m: Map<AgentId, Seq<usize>>, k: AgentId, v: usize) -> Map<AgentId, Seq<usize>> {
    if k != NO_AGENT {
        m.insert(k, list_or_empty(m, k).push(v))
    } else {
        m
    }
}

/// The agent of `addr` for an event at `time`: for a timed event the agent
/// of that address aware then (earliest first); for an untimed one the
/// first agent of that address; `NO_AGENT` for address 0 or when there is
/// none.
pub open spec fn resolves(s: Seq<Option<AgentItem>>, addr: u64, time: Option<i64>, r: AgentId) -> bool {
    if addr == 0 {
        r == NO_AGENT
    } else {
        match time {
            Some(t) => first_by_key(s, at_address(addr, t), r),
            None => if r == NO_AGENT {
                forall|x: int| live(s, x) ==> agent_at(s, x).address != addr
            } else {
                &&& live(s, r as int)
                &&& agent_at(s, r as int).address == addr
                &&& forall|x: int| 0 <= x < r && live(s, x) ==> agent_at(s, x).address != addr
            },
        }
    }
}

/// The index lists an event goes into, and by which of its agents.
pub enum Bucket {
    DamageFrom,
    DamageTo,
    BreakbarFrom,
    BreakbarTo,
    CcFrom,
    CcTo,
    StunBreakTo,
    Cast,
    WeaponSwap,
    Down,
    Alive,
    Dead,
    Spawn,
    Despawn,
    HealthUpdate,
    BarrierUpdate,
    MaxHealthUpdate,
    EnterCombat,
    ExitCombat,
    BreakbarPercent,
}

pub open spec fn is_health_damage(e: CombatEvent) -> bool {
    e is DirectHealthDamage || e is NonDirectHealthDamage || e is NoDamageHealthDamage
}

pub open spec fn is_breakbar(e: CombatEvent) -> bool {
    e is BreakbarDamage || e is BreakbarRecovery
}

/// The event belongs in the bucket.
pub open spec fn in_bucket(e: CombatEvent, b: Bucket) -> bool {
    match b {
        Bucket::DamageFrom | Bucket::DamageTo => is_health_damage(e),
        Bucket::BreakbarFrom | Bucket::BreakbarTo => is_breakbar(e),
        Bucket::CcFrom | Bucket::CcTo => e is CrowdControl,
        Bucket::StunBreakTo => e is StunBreak,
        Bucket::Cast => e is AnimatedCast || e is Emote || e is GadgetInteract || e is BundlePickUp,
        Bucket::WeaponSwap => e is WeaponSwap,
        Bucket::Down => e is Down,
        Bucket::Alive => e is Alive,
        Bucket::Dead => e is Dead,
        Bucket::Spawn => e is Spawn,
        Bucket::Despawn => e is Despawn,
        Bucket::HealthUpdate => e is HealthUpdate,
        Bucket::BarrierUpdate => e is BarrierUpdate,
        Bucket::MaxHealthUpdate => e is MaxHealthUpdate,
        Bucket::EnterCombat => e is EnterCombat,
        Bucket::ExitCombat => e is ExitCombat,
        Bucket::BreakbarPercent => e is BreakbarPercent,
    }
}

/// The bucket keys its events by their second agent.
pub open spec fn by_second(b: Bucket) -> bool {
    b == Bucket::DamageTo || b == Bucket::BreakbarTo || b == Bucket::CcTo
}

/// The bucket over the first `n` events: positions of its events by
/// resolved agent, in event order.
pub open spec fn bucket_of(
    es: Seq<CombatEvent>,
    ra: Seq<AgentId>,
    rb: Seq<AgentId>,
    b: Bucket,
    n: int,
) -> Map<AgentId, Seq<usize>>
    decreases n,
{
    if n <= 0 {
        Map::empty()
    } else {
        let m = bucket_of(es, ra, rb, b, n - 1);
        if in_bucket(es[n - 1], b) {
            pushed(m, if by_second(b) {
                rb[n - 1]
            } else {
                ra[n - 1]
            }, (n - 1) as usize)
        } else {
            m
        }
    }
}

/// Time, kill flag and down flag of a health damage event.
pub open spec fn damage_flags_of(e: CombatEvent) -> (i64, bool, bool) {
    match e {
        CombatEvent::DirectHealthDamage(f) => (f.skill.time, f.has_killed, f.has_downed),
        CombatEvent::NonDirectHealthDamage(f) => (f.skill.time, f.has_killed, f.has_downed),
        CombatEvent::NoDamageHealthDamage(f) => (f.skill.time, f.has_killed, f.has_downed),
        _ => (0, false, false),
    }
}

/// Sort key of a listed event: its time; untimed events first.
pub open spec fn list_key(e: CombatEvent) -> int {
    match e.time_of() {
        Some(t) => t as int,
        None => i64::MIN - 1,
    }
}

/// `s` with `x` inserted after the last element whose key is at most its own.
pub open spec fn sorted_insert(s: Seq<usize>, x: usize, es: Seq<CombatEvent>) -> Seq<usize>
    decreases s.len(),
{
    if s.len() == 0 {
        seq![x]
    } else if list_key(es[s.last() as int]) <= list_key(es[x as int]) {
        s.push(x)
    } else {
        sorted_insert(s.drop_last(), x, es).push(s.last())
    }
}

/// Stable insertion sort of positions by the keys of their events.
pub open spec fn isort(s: Seq<usize>, es: Seq<CombatEvent>) -> Seq<usize>
    decreases s.len(),
{
    if s.len() == 0 {
        Seq::empty()
    } else {
        sorted_insert(isort(s.drop_last(), es), s.last(), es)
    }
}

/// The list has an event within 500 ms of `t` (time of an untimed event
/// taken as 0; distances wrap as release builds do).
pub open spec fn has_near(list: Seq<usize>, es: Seq<CombatEvent>, t: i64) -> bool {
    exists|j: int|
        0 <= j < list.len() && wrapping_distance(
            match es[#[trigger] list[j] as int].time_of() {
                Some(x) => x,
                None => 0,
            },
            t,
        ) < 500
}

/// Damage events on `k` that killed (or downed) it with no death (or down)
/// of `k` within 500 ms already listed.
pub open spec fn added_for(
    status: Map<AgentId, Seq<usize>>,
    damage_to: Map<AgentId, Seq<usize>>,
    es: Seq<CombatEvent>,
    k: AgentId,
    killed: bool,
) -> Seq<usize> {
    list_or_empty(damage_to, k).filter(
        |i: usize|
            (if killed {
                damage_flags_of(es[i as int]).1
            } else {
                damage_flags_of(es[i as int]).2
            }) && !has_near(list_or_empty(status, k), es, damage_flags_of(es[i as int]).0),
    )
}

/// The agent gets deaths and downs from the damage it took: it was hit, and
/// it is a known agent that is not of an unidentified species.
pub open spec fn takes_additions(s: Seq<Option<AgentItem>>, damage_to: Map<AgentId, Seq<usize>>, k: AgentId) -> bool {
    &&& damage_to.contains_key(k)
    &&& k != NO_AGENT
    &&& live(s, k as int)
    &&& !(!is_player_type(agent_at(s, k as int).agent_type) && (agent_at(s, k as int).is_unknown
        || non_identified_id(agent_at(s, k as int).id)))
}

/// Death (or down) lists with the additions from damage, each list with
/// additions sorted stably by time.
pub open spec fn with_additions(
    status: Map<AgentId, Seq<usize>>,
    damage_to: Map<AgentId, Seq<usize>>,
    es: Seq<CombatEvent>,
    s: Seq<Option<AgentItem>>,
    killed: bool,
) -> Map<AgentId, Seq<usize>> {
    Map::new(
        |k: AgentId|
            status.contains_key(k) || (takes_additions(s, damage_to, k) && added_for(
                status,
                damage_to,
                es,
                k,
                killed,
            ).len() > 0),
        |k: AgentId|
            if takes_additions(s, damage_to, k) && added_for(status, damage_to, es, k, killed).len() > 0 {
                isort(list_or_empty(status, k) + added_for(status, damage_to, es, k, killed), es)
            } else {
                status[k]
            },
    )
}

/// Number of events whose first agent is set but did not resolve.
pub open spec fn unresolved_count(es: Seq<CombatEvent>, ra: Seq<AgentId>, n: int) -> int
    decreases n,
{
    if n <= 0 {
        0
    } else {
        unresolved_count(es, ra, n - 1) + if es[n - 1].participants_of().0 != 0 && ra[n - 1]
            == NO_AGENT {
            1int
        } else {
            0int
        }
    }
}

/// The index of a log's events.
pub open spec fn indexed(
    s: Seq<Option<AgentItem>>,
    es: Seq<CombatEvent>,
    ra: Seq<AgentId>,
    rb: Seq<AgentId>,
    idx: EventIndex,
) -> bool {
    let n = es.len() as int;
    &&& ra.len() == n && rb.len() == n
    &&& forall|i: int|
        0 <= i < n ==> resolves(s, (#[trigger] es[i]).participants_of().0, es[i].time_of(), ra[i])
            && resolves(s, es[i].participants_of().1, es[i].time_of(), rb[i])
    &&& lists(idx.damage_from) == bucket_of(es, ra, rb, Bucket::DamageFrom, n)
    &&& lists(idx.damage_to) == bucket_of(es, ra, rb, Bucket::DamageTo, n)
    &&& lists(idx.breakbar_damage_from) == bucket_of(es, ra, rb, Bucket::BreakbarFrom, n)
    &&& lists(idx.breakbar_damage_to) == bucket_of(es, ra, rb, Bucket::BreakbarTo, n)
    &&& lists(idx.cc_from) == bucket_of(es, ra, rb, Bucket::CcFrom, n)
    &&& lists(idx.cc_to) == bucket_of(es, ra, rb, Bucket::CcTo, n)
    &&& lists(idx.stun_break_to) == bucket_of(es, ra, rb, Bucket::StunBreakTo, n)
    &&& lists(idx.cast_by_caster) == bucket_of(es, ra, rb, Bucket::Cast, n)
    &&& lists(idx.weapon_swap_by_caster) == bucket_of(es, ra, rb, Bucket::WeaponSwap, n)
    &&& lists(idx.alive) == bucket_of(es, ra, rb, Bucket::Alive, n)
    &&& lists(idx.spawn) == bucket_of(es, ra, rb, Bucket::Spawn, n)
    &&& lists(idx.despawn) == bucket_of(es, ra, rb, Bucket::Despawn, n)
    &&& lists(idx.health_update) == bucket_of(es, ra, rb, Bucket::HealthUpdate, n)
    &&& lists(idx.barrier_update) == bucket_of(es, ra, rb, Bucket::BarrierUpdate, n)
    &&& lists(idx.max_health_update) == bucket_of(es, ra, rb, Bucket::MaxHealthUpdate, n)
    &&& lists(idx.enter_combat) == bucket_of(es, ra, rb, Bucket::EnterCombat, n)
    &&& lists(idx.exit_combat) == bucket_of(es, ra, rb, Bucket::ExitCombat, n)
    &&& lists(idx.breakbar_percent) == bucket_of(es, ra, rb, Bucket::BreakbarPercent, n)
    &&& lists(idx.dead) == with_additions(
        bucket_of(es, ra, rb, Bucket::Dead, n),
        bucket_of(es, ra, rb, Bucket::DamageTo, n),
        es,
        s,
        true,
    )
    &&& lists(idx.down) == with_additions(
        bucket_of(es, ra, rb, Bucket::Down, n),
        bucket_of(es, ra, rb, Bucket::DamageTo, n),
        es,
        s,
        false,
    )
    &&& idx.has_breakbar_damage == exists|i: int| 0 <= i < n && is_breakbar(#[trigger] es[i])
    &&& idx.has_cc == exists|i: int| 0 <= i < n && (#[trigger] es[i]) is CrowdControl
    &&& idx.unresolved == unresolved_count(es, ra, n)
}

/// A damage event as the aggregators read it.
#[derive(Debug, Clone, Copy)]
pub struct DmgRow {
    pub time: i64,
    pub from: AgentId,
    pub to: AgentId,
    pub skill_id: u32,
    pub health_damage: i32,
    pub shield_damage: i32,
    pub is_non_direct: bool,
    pub is_no_damage: bool,
    pub is_life_leech: bool,
    pub has_hit: bool,
    pub has_crit: bool,
    pub has_glanced: bool,
    pub is_blind: bool,
    pub is_absorbed: bool,
    pub is_blocked: bool,
    pub is_evaded: bool,
    pub has_interrupted: bool,
    pub has_downed: bool,
    pub has_killed: bool,
    pub against_downed: bool,
    pub against_moving: bool,
    pub is_flanking: bool,
    pub is_over_ninety: bool,
    /// The target is friendly to the source.
    pub to_friendly: bool,
    /// Condition damage (`Some(true)`), power damage (`Some(false)`), or
    /// not classified.
    pub condition_based: Option<bool>,
}

/// The aggregator row of a health damage event, with its resolved agents:
/// non-direct rows are not yet classified as condition or power damage;
/// rows of no damage keep only the interrupt, down and kill flags.
pub open spec fn dmg_row_of(e: CombatEvent, from: AgentId, to: AgentId) -> Option<DmgRow> {
    match e {
        CombatEvent::DirectHealthDamage(f) => Some(
            DmgRow {
                time: f.skill.time,
                from,
                to,
                skill_id: f.skill.skill_id,
                health_damage: f.health_damage,
                shield_damage: f.shield_damage,
                is_non_direct: false,
                is_no_damage: f.is_not_a_damage_event,
                is_life_leech: false,
                has_hit: f.has_hit,
                has_crit: f.has_crit,
                has_glanced: f.has_glanced,
                is_blind: f.is_blind,
                is_absorbed: f.is_absorbed,
                is_blocked: f.is_blocked,
                is_evaded: f.is_evaded,
                has_interrupted: f.has_interrupted,
                has_downed: f.has_downed,
                has_killed: f.has_killed,
                against_downed: f.skill.against_downed,
                against_moving: f.skill.against_moving,
                is_flanking: f.skill.is_flanking,
                is_over_ninety: f.skill.is_over_ninety,
                to_friendly: f.skill.iff == Iff::Friend,
                condition_based: Some(false),
            },
        ),
        CombatEvent::NonDirectHealthDamage(f) => Some(
            DmgRow {
                time: f.skill.time,
                from,
                to,
                skill_id: f.skill.skill_id,
                health_damage: f.health_damage,
                shield_damage: f.shield_damage,
                is_non_direct: true,
                is_no_damage: f.is_not_a_damage_event,
                is_life_leech: f.is_life_leech,
                has_hit: f.has_hit,
                has_crit: f.has_crit,
                has_glanced: f.has_glanced,
                is_blind: f.is_blind,
                is_absorbed: f.is_absorbed,
                is_blocked: f.is_blocked,
                is_evaded: f.is_evaded,
                has_interrupted: f.has_interrupted,
                has_downed: f.has_downed,
                has_killed: f.has_killed,
                against_downed: f.skill.against_downed,
                against_moving: f.skill.against_moving,
                is_flanking: f.skill.is_flanking,
                is_over_ninety: f.skill.is_over_ninety,
                to_friendly: f.skill.iff == Iff::Friend,
                condition_based: None,
            },
        ),
        CombatEvent::NoDamageHealthDamage(f) => Some(
            DmgRow {
                time: f.skill.time,
                from,
                to,
                skill_id: f.skill.skill_id,
                health_damage: f.health_damage,
                shield_damage: f.shield_damage,
                is_non_direct: false,
                is_no_damage: true,
                is_life_leech: false,
                has_hit: false,
                has_crit: false,
                has_glanced: false,
                is_blind: false,
                is_absorbed: false,
                is_blocked: false,
                is_evaded: false,
                has_interrupted: f.has_interrupted,
                has_downed: f.has_downed,
                has_killed: f.has_killed,
                against_downed: false,
                against_moving: false,
                is_flanking: false,
                is_over_ninety: false,
                to_friendly: false,
                condition_based: Some(false),
            },
        ),
        _ => None,
    }
}

/// The aggregator row of a health damage event; none for other events.
pub fn dmg_row(evt: &CombatEvent, from: AgentId, to: AgentId) -> (r: Option<DmgRow>)
    ensures
        r == dmg_row_of(*evt, from, to),
{
    match evt {
        CombatEvent::DirectHealthDamage(f) => Some(
            DmgRow {
                time: f.skill.time,
                from,
                to,
                skill_id: f.skill.skill_id,
                health_damage: f.health_damage,
                shield_damage: f.shield_damage,
                is_non_direct: false,
                is_no_damage: f.is_not_a_damage_event,
                is_life_leech: false,
                has_hit: f.has_hit,
                has_crit: f.has_crit,
                has_glanced: f.has_glanced,
                is_blind: f.is_blind,
                is_absorbed: f.is_absorbed,
                is_blocked: f.is_blocked,
                is_evaded: f.is_evaded,
                has_interrupted: f.has_interrupted,
                has_downed: f.has_downed,
                has_killed: f.has_killed,
                against_downed: f.skill.against_downed,
                against_moving: f.skill.against_moving,
                is_flanking: f.skill.is_flanking,
                is_over_ninety: f.skill.is_over_ninety,
                to_friendly: f.skill.iff == Iff::Friend,
                condition_based: Some(false),
            },
        ),
        CombatEvent::NonDirectHealthDamage(f) => Some(
            DmgRow {
                time: f.skill.time,
                from,
                to,
                skill_id: f.skill.skill_id,
                health_damage: f.health_damage,
                shield_damage: f.shield_damage,
                is_non_direct: true,
                is_no_damage: f.is_not_a_damage_event,
                is_life_leech: f.is_life_leech,
                has_hit: f.has_hit,
                has_crit: f.has_crit,
                has_glanced: f.has_glanced,
                is_blind: f.is_blind,
                is_absorbed: f.is_absorbed,
                is_blocked: f.is_blocked,
                is_evaded: f.is_evaded,
                has_interrupted: f.has_interrupted,
                has_downed: f.has_downed,
                has_killed: f.has_killed,
                against_downed: f.skill.against_downed,
                against_moving: f.skill.against_moving,
                is_flanking: f.skill.is_flanking,
                is_over_ninety: f.skill.is_over_ninety,
                to_friendly: f.skill.iff == Iff::Friend,
                condition_based: None,
            },
        ),
        CombatEvent::NoDamageHealthDamage(f) => Some(
            DmgRow {
                time: f.skill.time,
                from,
                to,
                skill_id: f.skill.skill_id,
                health_damage: f.health_damage,
                shield_damage: f.shield_damage,
                is_non_direct: false,
                is_no_damage: true,
                is_life_leech: false,
                has_hit: false,
                has_crit: false,
                has_glanced: false,
                is_blind: false,
                is_absorbed: false,
                is_blocked: false,
                is_evaded: false,
                has_interrupted: f.has_interrupted,
                has_downed: f.has_downed,
                has_killed: f.has_killed,
                against_downed: false,
                against_moving: false,
                is_flanking: false,
                is_over_ninety: false,
                to_friendly: false,
                condition_based: Some(false),
            },
        ),
        _ => None,
    }
}

/// (all, power, condition, strike, life leech, barrier, unclassified count).
pub type DamageTotals = (i32, i32, i32, i32, i32, i32, u64);

/// Totals after one more row: every row counts in all and barrier; a
/// direct hit is strike and power; a non-direct one is condition or power
/// (and life leech) by its classification, or only counted as unclassified.
pub open spec fn add_damage_row(t: DamageTotals, d: DmgRow) -> DamageTotals {
    let all = t.0.wrapping_add(d.health_damage);
    let barrier = t.5.wrapping_add(d.shield_damage);
    if d.is_non_direct {
        match d.condition_based {
            Some(true) => (all, t.1, t.2.wrapping_add(d.health_damage), t.3, t.4, barrier, t.6),
            Some(false) => (
                all,
                t.1.wrapping_add(d.health_damage),
                t.2,
                t.3,
                if d.is_life_leech {
                    t.4.wrapping_add(d.health_damage)
                } else {
                    t.4
                },
                barrier,
                t.6,
            ),
            None => (all, t.1, t.2, t.3, t.4, barrier, (t.6 + 1) as u64),
        }
    } else {
        (
            all,
            t.1.wrapping_add(d.health_damage),
            t.2,
            t.3.wrapping_add(d.health_damage),
            t.4,
            barrier,
            t.6,
        )
    }
}

pub open spec fn damage_totals(rows: Seq<DmgRow>) -> DamageTotals
    decreases rows.len(),
{
    if rows.len() == 0 {
        (0, 0, 0, 0, 0, 0, 0)
    } else {
        add_damage_row(damage_totals(rows.drop_last()), rows.last())
    }
}

/// Integer sums of the health damage of `rows`: (all rows, direct hits,
/// non-direct rows classified as power, non-direct rows classified as
/// condition, and the sum of magnitudes).
pub open spec fn health_sums(rows: Seq<DmgRow>) -> (int, int, int, int, int)
    decreases rows.len(),
{
    if rows.len() == 0 {
        (0, 0, 0, 0, 0)
    } else {
        let p = health_sums(rows.drop_last());
        let d = rows.last();
        let h = d.health_damage as int;
        (
            p.0 + h,
            p.1 + if !d.is_non_direct { h } else { 0 },
            p.2 + if d.is_non_direct && d.condition_based == Some(false) { h } else { 0 },
            p.3 + if d.is_non_direct && d.condition_based == Some(true) { h } else { 0 },
            p.4 + if h < 0 { -h } else { h },
        )
    }
}

proof fn lemma_health_sums_bounded(rows: Seq<DmgRow>)
    ensures
        0 <= health_sums(rows).4,
        -health_sums(rows).4 <= health_sums(rows).0 <= health_sums(rows).4,
        -health_sums(rows).4 <= health_sums(rows).1 <= health_sums(rows).4,
        -health_sums(rows).4 <= health_sums(rows).2 <= health_sums(rows).4,
        -health_sums(rows).4 <= health_sums(rows).3 <= health_sums(rows).4,
        -health_sums(rows).4 <= health_sums(rows).1 + health_sums(rows).2 <= health_sums(rows).4,
    decreases rows.len(),
{
    if rows.len() > 0 {
        lemma_health_sums_bounded(rows.drop_last());
    }
}

/// What the damage totals count, while no total can overflow: all rows
/// make up the total; the direct hits make up the strike damage; power
/// damage is the strike damage plus the non-direct rows classified as
/// power; condition damage is the non-direct rows classified as condition.
pub proof fn law_damage_totals(rows: Seq<DmgRow>)
    requires
        health_sums(rows).4 <= 0x7FFF_FFFF,
    ensures
        damage_totals(rows).0 == health_sums(rows).0,
        damage_totals(rows).3 == health_sums(rows).1,
        damage_totals(rows).1 == damage_totals(rows).3 + health_sums(rows).2,
        damage_totals(rows).2 == health_sums(rows).3,
    decreases rows.len(),
{
    if rows.len() > 0 {
        let p = rows.drop_last();
        lemma_health_sums_bounded(p);
        law_damage_totals(p);
    }
}

/// Further integer sums of `rows`: (health damage of non-direct power
/// rows that leech life, shield damage, sum of shield magnitudes, number of
/// non-direct rows left unclassified).
pub open spec fn other_sums(rows: Seq<DmgRow>) -> (int, int, int, int)
    decreases rows.len(),
{
    if rows.len() == 0 {
        (0, 0, 0, 0)
    } else {
        let p = other_sums(rows.drop_last());
        let d = rows.last();
        let sh = d.shield_damage as int;
        (
            p.0 + if d.is_non_direct && d.condition_based == Some(false) && d.is_life_leech {
                d.health_damage as int
            } else {
                0
            },
            p.1 + sh,
            p.2 + if sh < 0 { -sh } else { sh },
            p.3 + if d.is_non_direct && d.condition_based is None { 1int } else { 0int },
        )
    }
}

proof fn lemma_other_sums_bounded(rows: Seq<DmgRow>)
    ensures
        0 <= other_sums(rows).2,
        -other_sums(rows).2 <= other_sums(rows).1 <= other_sums(rows).2,
        -health_sums(rows).4 <= other_sums(rows).0 <= health_sums(rows).4,
        0 <= other_sums(rows).3 <= rows.len(),
    decreases rows.len(),
{
    if rows.len() > 0 {
        lemma_other_sums_bounded(rows.drop_last());
        lemma_health_sums_bounded(rows.drop_last());
    }
}

/// The rest of the damage totals, while none can overflow: life leech is
/// the non-direct power rows that leech life, barrier is all the shield
/// damage, and the count is the number of non-direct rows left
/// unclassified.
pub proof fn law_damage_totals_rest(rows: Seq<DmgRow>)
    requires
        health_sums(rows).4 <= 0x7FFF_FFFF,
        other_sums(rows).2 <= 0x7FFF_FFFF,
        rows.len() <= 0xFFFF_FFFF_FFFF_FFFF,
    ensures
        damage_totals(rows).4 == other_sums(rows).0,
        damage_totals(rows).5 == other_sums(rows).1,
        damage_totals(rows).6 == other_sums(rows).3,
    decreases rows.len(),
{
    if rows.len() > 0 {
        let p = rows.drop_last();
        lemma_health_sums_bounded(p);
        lemma_other_sums_bounded(p);
        law_damage_totals_rest(p);
    }
}

/// Damage totals of the rows, in order.
pub fn compute_damage_from(rows: &[DmgRow]) -> (r: (i32, i32, i32, i32, i32, i32, u64))
    ensures
        r == damage_totals(rows@),
        r.6 <= rows@.len(),
{
    let mut t: (i32, i32, i32, i32, i32, i32, u64) = (0, 0, 0, 0, 0, 0, 0);
    let ghost rs = rows@;
    let mut i: usize = 0;
    assert(rs.take(0) =~= Seq::<DmgRow>::empty());
    while i < rows.len()
        invariant
            i <= rs.len(),
            rs == rows@,
            t == damage_totals(rs.take(i as int)),
            t.6 <= i,
        decreases rs.len() - i,
    {
        let d = rows[i];
        assert(rs.take(i + 1).drop_last() =~= rs.take(i as int));
        assert(rs.take(i + 1).last() == d);
        let all = t.0.wrapping_add(d.health_damage);
        let barrier = t.5.wrapping_add(d.shield_damage);
        if d.is_non_direct {
            match d.condition_based {
                Some(true) => {
                    t = (all, t.1, t.2.wrapping_add(d.health_damage), t.3, t.4, barrier, t.6);
                },
                Some(false) => {
                    let leech = if d.is_life_leech {
                        t.4.wrapping_add(d.health_damage)
                    } else {
                        t.4
                    };
                    t = (all, t.1.wrapping_add(d.health_damage), t.2, t.3, leech, barrier, t.6);
                },
                None => {
                    t = (all, t.1, t.2, t.3, t.4, barrier, t.6 + 1);
                },
            }
        } else {
            t = (
                all,
                t.1.wrapping_add(d.health_damage),
                t.2,
                t.3.wrapping_add(d.health_damage),
                t.4,
                barrier,
                t.6,
            );
        }
        i = i + 1;
    }
    assert(rs.take(i as int) =~= rs);
    t
}

/// Number of one-second points of the graph of `[start, end]`: one per
/// whole second plus the start, and one more for a partial last second.
pub open spec fn graph_len(start: i64, end: i64) -> int {
    let d = end - start;
    if (d / 1000) * 1000 != d {
        d / 1000 + 2
    } else {
        d / 1000 + 1
    }
}

/// The second (rounded up) of `time` since `start`.
pub open spec fn second_of(time: i64, start: i64) -> int {
    let x = time - start;
    if x <= 0 {
        0
    } else {
        (x + 999) / 1000
    }
}

/// `vals` with the points `lo..hi` set to `v`.
pub open spec fn fill(vals: Seq<i64>, lo: int, hi: int, v: i64) -> Seq<i64> {
    Seq::new(vals.len(), |i: int| if lo <= i < hi { v } else { vals[i] })
}

/// The graph after one more row: the points since the last row's second
/// take its value, then the row's damage adds to its own second.
pub open spec fn graph_step(vals: Seq<i64>, prev: int, row: (i64, i64), start: i64) -> (Seq<i64>, int) {
    let b = second_of(row.0, start);
    let vals1 = if b != prev {
        fill(vals, prev + 1, b + 1, vals[prev])
    } else {
        vals
    };
    (vals1.update(b, vals1[b].wrapping_add(row.1)), b)
}

pub open spec fn graph_rows(rows: Seq<(i64, i64)>, start: i64, end: i64) -> (Seq<i64>, int)
    decreases rows.len(),
{
    if rows.len() == 0 {
        (Seq::new(graph_len(start, end) as nat, |i: int| 0i64), 0)
    } else {
        let (vals, prev) = graph_rows(rows.drop_last(), start, end);
        graph_step(vals, prev, rows.last(), start)
    }
}

/// The cumulative damage at each second of `[start, end]`.
pub open spec fn damage_graph_spec(rows: Seq<(i64, i64)>, start: i64, end: i64) -> Seq<i64> {
    let (vals, prev) = graph_rows(rows, start, end);
    fill(vals, prev + 1, vals.len() as int, vals[prev])
}

/// Rows in time order.
pub open spec fn rows_in_time_order(rows: Seq<(i64, i64)>) -> bool {
    forall|i: int, j: int| 0 <= i < j < rows.len() ==> (#[trigger] rows[i]).0 <= (#[trigger] rows[j]).0
}

/// Damage, as an integer, of the rows whose second (rounded up, since
/// `start`) is at most `p`.
pub open spec fn damage_upto(rows: Seq<(i64, i64)>, start: i64, p: int) -> int
    decreases rows.len(),
{
    if rows.len() == 0 {
        0
    } else {
        damage_upto(rows.drop_last(), start, p) + if second_of(rows.last().0, start) <= p {
            rows.last().1 as int
        } else {
            0
        }
    }
}

/// Sum of the magnitudes of the rows' damage.
pub open spec fn damage_size(rows: Seq<(i64, i64)>) -> int
    decreases rows.len(),
{
    if rows.len() == 0 {
        0
    } else {
        damage_size(rows.drop_last()) + if rows.last().1 < 0 {
            -(rows.last().1 as int)
        } else {
            rows.last().1 as int
        }
    }
}

proof fn lemma_damage_upto_bounded(rows: Seq<(i64, i64)>, start: i64, p: int)
    ensures
        0 <= damage_size(rows),
        -damage_size(rows) <= damage_upto(rows, start, p) <= damage_size(rows),
    decreases rows.len(),
{
    if rows.len() > 0 {
        lemma_damage_upto_bounded(rows.drop_last(), start, p);
    }
}

/// Past the last row's second the cumulative damage no longer changes.
proof fn lemma_damage_upto_all(rows: Seq<(i64, i64)>, start: i64, p: int, q: int)
    requires
        p <= q,
        forall|i: int| 0 <= i < rows.len() ==> second_of(#[trigger] rows[i].0, start) <= p,
    ensures
        damage_upto(rows, start, p) == damage_upto(rows, start, q),
    decreases rows.len(),
{
    if rows.len() > 0 {
        let d = rows.drop_last();
        assert forall|i: int| 0 <= i < d.len() implies second_of(#[trigger] d[i].0, start) <= p by {
            assert(d[i] == rows[i]);
        }
        assert(second_of(rows[rows.len() - 1].0, start) <= p);
        lemma_damage_upto_all(d, start, p, q);
    }
}

proof fn lemma_second_monotone(t1: i64, t2: i64, start: i64)
    requires
        t1 <= t2,
    ensures
        second_of(t1, start) <= second_of(t2, start),
        0 <= second_of(t1, start),
{
    let x1 = t1 - start;
    let x2 = t2 - start;
    if x1 > 0 {
        assert((x1 + 999) / 1000 <= (x2 + 999) / 1000) by (nonlinear_arith)
            requires
                0 < x1 <= x2,
        ;
    } else if x2 > 0 {
        assert((x2 + 999) / 1000 >= 0) by (nonlinear_arith)
            requires
                0 < x2,
        ;
    }
}

/// The graph state after rows in time order: the points up to the last
/// row's second hold the cumulative damage, later points are still zero.
proof fn lemma_graph_rows_cumulative(rows: Seq<(i64, i64)>, start: i64, end: i64)
    requires
        start <= end,
        rows_in_graph(rows, start, end),
        rows_in_time_order(rows),
        damage_size(rows) <= 0x7FFF_FFFF_FFFF_FFFF,
    ensures
        graph_rows(rows, start, end).0.len() == graph_len(start, end),
        0 <= graph_rows(rows, start, end).1 < graph_len(start, end),
        forall|i: int| 0 <= i < rows.len() ==> second_of(#[trigger] rows[i].0, start) <= graph_rows(rows, start, end).1,
        forall|q: int| 0 <= q <= graph_rows(rows, start, end).1 ==> #[trigger] graph_rows(rows, start, end).0[q]
            == damage_upto(rows, start, q),
        forall|q: int| graph_rows(rows, start, end).1 < q < graph_len(start, end) ==> #[trigger] graph_rows(
            rows,
            start,
            end,
        ).0[q] == 0,
    decreases rows.len(),
{
    if rows.len() > 0 {
        let pre = rows.drop_last();
        let r = rows.last();
        assert forall|i: int| 0 <= i < pre.len() implies start - 1000 < #[trigger] pre[i].0 <= end by {
            assert(pre[i] == rows[i]);
        }
        assert forall|i: int, j: int| 0 <= i < j < pre.len() implies (#[trigger] pre[i]).0 <= (#[trigger] pre[j]).0 by {
            assert(pre[i] == rows[i] && pre[j] == rows[j]);
        }
        lemma_damage_upto_bounded(pre, start, 0);
        lemma_graph_rows_cumulative(pre, start, end);
        let (v0, prev0) = graph_rows(pre, start, end);
        let b = second_of(r.0, start);
        assert(start - 1000 < rows[rows.len() - 1].0 <= end);
        lemma_second_in_graph(r.0, start, end);
        lemma_second_monotone(r.0, r.0, start);
        if pre.len() > 0 {
            assert(rows[pre.len() - 1].0 <= rows[rows.len() - 1].0);
            lemma_second_monotone(pre.last().0, r.0, start);
            assert(pre[pre.len() - 1] == pre.last());
        }
        assert(prev0 <= b);
        let vals1 = if b != prev0 {
            fill(v0, prev0 + 1, b + 1, v0[prev0])
        } else {
            v0
        };
        assert forall|q: int| 0 <= q <= b implies vals1[q] == damage_upto(pre, start, q) by {
            if q > prev0 {
                lemma_damage_upto_all(pre, start, prev0, q);
            }
        }
        lemma_damage_upto_bounded(pre, start, b);
        let (v, prev) = graph_rows(rows, start, end);
        assert((v, prev) == graph_step(v0, prev0, r, start));
        assert(prev == b);
        assert forall|i: int| 0 <= i < rows.len() implies second_of(#[trigger] rows[i].0, start) <= prev by {
            if i < pre.len() {
                assert(pre[i] == rows[i]);
                assert(second_of(pre[i].0, start) <= prev0);
            }
        }
        assert forall|q: int| 0 <= q <= prev implies #[trigger] v[q] == damage_upto(rows, start, q) by {
            if q < b {
                assert(v[q] == vals1[q]);
            } else {
                assert(v[q] == vals1[b].wrapping_add(r.1));
            }
        }
        assert forall|q: int| prev < q < graph_len(start, end) implies #[trigger] v[q] == 0 by {
            assert(v[q] == vals1[q]);
            assert(vals1[q] == v0[q]);
        }
    }
}

/// The graph is cumulative: for rows in time order (while no sum can
/// overflow), every point holds the damage of the rows whose second,
/// rounded up, is at most that point's index; so the last point holds the
/// damage of all rows.
pub proof fn law_damage_graph_cumulative(rows: Seq<(i64, i64)>, start: i64, end: i64)
    requires
        start <= end,
        rows_in_graph(rows, start, end),
        rows_in_time_order(rows),
        damage_size(rows) <= 0x7FFF_FFFF_FFFF_FFFF,
    ensures
        damage_graph_spec(rows, start, end).len() == graph_len(start, end),
        forall|p: int| 0 <= p < graph_len(start, end) ==> #[trigger] damage_graph_spec(rows, start, end)[p]
            == damage_upto(rows, start, p),
        damage_graph_spec(rows, start, end)[graph_len(start, end) - 1] == damage_upto(rows, start, graph_len(start, end) - 1),
{
    lemma_graph_rows_cumulative(rows, start, end);
    let (vals, prev) = graph_rows(rows, start, end);
    assert forall|p: int| 0 <= p < graph_len(start, end) implies #[trigger] damage_graph_spec(rows, start, end)[p]
        == damage_upto(rows, start, p) by {
        if p > prev {
            lemma_damage_upto_all(rows, start, prev, p);
        }
    }
}

/// Rows whose second falls inside the graph.
pub open spec fn rows_in_graph(rows: Seq<(i64, i64)>, start: i64, end: i64) -> bool {
    forall|i: int| 0 <= i < rows.len() ==> start - 1000 < #[trigger] rows[i].0 <= end
}

proof fn lemma_second_in_graph(time: i64, start: i64, end: i64)
    requires
        start <= end,
        start - 1000 < time <= end,
    ensures
        0 <= second_of(time, start) < graph_len(start, end),
{
    let d = end - start;
    let x = time - start;
    if x > 0 {
        assert((x + 999) / 1000 <= (d + 999) / 1000) by (nonlinear_arith)
            requires
                x <= d,
        ;
        assert((d + 999) / 1000 <= d / 1000 + 1) by (nonlinear_arith)
            requires
                d >= 0,
        ;
        if (d / 1000) * 1000 == d {
            assert((d + 999) / 1000 == d / 1000) by (nonlinear_arith)
                requires
                    (d / 1000) * 1000 == d,
                    d >= 0,
            ;
        }
    }
}

/// Cumulative damage per second: the point of a second holds the damage
/// up to its end. The rows are (time, damage), meant to be in time order.
/// The span is at most 2^40 ms (about 35 years): the graph holds one entry
/// per second, so this bounds its allocation (2^30 entries), and keeps every
/// time difference exactly representable as a 64-bit float, as the division
/// into seconds asks.
pub fn damage_graph_1s(rows: &[(i64, i64)], start: i64, end: i64) -> (r: Vec<i64>)
    requires
        start <= end,
        end - start <= 0x100_0000_0000,
        rows_in_graph(rows@, start, end),
    ensures
        r@ == damage_graph_spec(rows@, start, end),
{
    let duration_ms = end - start;
    let duration_s = duration_ms / 1000;
    let len: i64 = if duration_s * 1000 != duration_ms {
        duration_s + 2
    } else {
        duration_s + 1
    };
    let n = len as usize;
    let mut values: Vec<i64> = Vec::new();
    while values.len() < n
        invariant
            values@.len() <= n,
            forall|k: int| 0 <= k < values@.len() ==> values@[k] == 0,
        decreases n - values@.len(),
    {
        values.push(0);
    }
    assert(values@ =~= Seq::new(graph_len(start, end) as nat, |i: int| 0i64));
    let ghost rs = rows@;
    let mut previous_time: i64 = 0;
    let mut i: usize = 0;
    assert(rs.take(0) =~= Seq::<(i64, i64)>::empty());
    while i < rows.len()
        invariant
            i <= rs.len(),
            rs == rows@,
            start <= end,
            end - start <= 0x100_0000_0000,
            rows_in_graph(rs, start, end),
            (values@, previous_time as int) == graph_rows(rs.take(i as int), start, end),
            values@.len() == graph_len(start, end),
            0 <= previous_time < values@.len(),
        decreases rs.len() - i,
    {
        let (time, dmg) = rows[i];
        assert(rs.take(i + 1).drop_last() =~= rs.take(i as int));
        assert(rs.take(i + 1).last() == (time, dmg));
        assert(start - 1000 < rs[i as int].0 <= end);
        proof {
            lemma_second_in_graph(time, start, end);
        }
        let x = time - start;
        let bucket: i64 = if x <= 0 {
            0
        } else {
            (x + 999) / 1000
        };
        let ghost before = values@;
        if bucket != previous_time {
            let fill_value = values[previous_time as usize];
            let hi: usize = bucket as usize + 1;
            let mut k: usize = (previous_time + 1) as usize;
            while k < hi
                invariant
                    values@.len() == before.len(),
                    hi == bucket + 1,
                    hi <= before.len(),
                    previous_time + 1 <= k,
                    k <= hi || k == previous_time + 1,
                    0 <= previous_time < before.len(),
                    fill_value == before[previous_time as int],
                    forall|j: int|
                        0 <= j < before.len() ==> values@[j] == if previous_time + 1 <= j < k {
                            fill_value
                        } else {
                            before[j]
                        },
                decreases values@.len() - k,
            {
                values.set(k, fill_value);
                k = k + 1;
            }
            assert(values@ =~= fill(before, previous_time + 1, bucket + 1, before[previous_time as int]));
        }
        previous_time = bucket;
        let b = bucket as usize;
        let v = values[b].wrapping_add(dmg);
        values.set(b, v);
        i = i + 1;
    }
    assert(rs.take(i as int) =~= rs);
    let tail_fill = values[previous_time as usize];
    let ghost before = values@;
    let mut k: usize = (previous_time + 1) as usize;
    while k < values.len()
        invariant
            values@.len() == before.len(),
            previous_time + 1 <= k,
            0 <= previous_time < before.len(),
            tail_fill == before[previous_time as int],
            forall|j: int|
                0 <= j < before.len() ==> values@[j] == if previous_time + 1 <= j < k {
                    tail_fill
                } else {
                    before[j]
                },
        decreases values@.len() - k,
    {
        values.set(k, tail_fill);
        k = k + 1;
    }
    assert(values@ =~= fill(before, previous_time + 1, before.len() as int, before[previous_time as int]));
    values
}


/// The event index over the first `n` events, before deaths and downs from
/// damage are added.
pub open spec fn prefix_indexed(
    es: Seq<CombatEvent>,
    ra: Seq<AgentId>,
    rb: Seq<AgentId>,
    idx: EventIndex,
    n: int,
) -> bool {
    &&& lists(idx.damage_from) == bucket_of(es, ra, rb, Bucket::DamageFrom, n)
    &&& lists(idx.damage_to) == bucket_of(es, ra, rb, Bucket::DamageTo, n)
    &&& lists(idx.breakbar_damage_from) == bucket_of(es, ra, rb, Bucket::BreakbarFrom, n)
    &&& lists(idx.breakbar_damage_to) == bucket_of(es, ra, rb, Bucket::BreakbarTo, n)
    &&& lists(idx.cc_from) == bucket_of(es, ra, rb, Bucket::CcFrom, n)
    &&& lists(idx.cc_to) == bucket_of(es, ra, rb, Bucket::CcTo, n)
    &&& lists(idx.stun_break_to) == bucket_of(es, ra, rb, Bucket::StunBreakTo, n)
    &&& lists(idx.cast_by_caster) == bucket_of(es, ra, rb, Bucket::Cast, n)
    &&& lists(idx.weapon_swap_by_caster) == bucket_of(es, ra, rb, Bucket::WeaponSwap, n)
    &&& lists(idx.down) == bucket_of(es, ra, rb, Bucket::Down, n)
    &&& lists(idx.alive) == bucket_of(es, ra, rb, Bucket::Alive, n)
    &&& lists(idx.dead) == bucket_of(es, ra, rb, Bucket::Dead, n)
    &&& lists(idx.spawn) == bucket_of(es, ra, rb, Bucket::Spawn, n)
    &&& lists(idx.despawn) == bucket_of(es, ra, rb, Bucket::Despawn, n)
    &&& lists(idx.health_update) == bucket_of(es, ra, rb, Bucket::HealthUpdate, n)
    &&& lists(idx.barrier_update) == bucket_of(es, ra, rb, Bucket::BarrierUpdate, n)
    &&& lists(idx.max_health_update) == bucket_of(es, ra, rb, Bucket::MaxHealthUpdate, n)
    &&& lists(idx.enter_combat) == bucket_of(es, ra, rb, Bucket::EnterCombat, n)
    &&& lists(idx.exit_combat) == bucket_of(es, ra, rb, Bucket::ExitCombat, n)
    &&& lists(idx.breakbar_percent) == bucket_of(es, ra, rb, Bucket::BreakbarPercent, n)
    &&& idx.has_breakbar_damage == exists|i: int| 0 <= i < n && is_breakbar(#[trigger] es[i])
    &&& idx.has_cc == exists|i: int| 0 <= i < n && (#[trigger] es[i]) is CrowdControl
    &&& idx.unresolved == unresolved_count(es, ra, n)
}

pub(crate) fn push_index(map: &mut BTreeMap<AgentId, Vec<usize>>, k: AgentId, v: usize)
    ensures
        lists(*final(map)) == pushed(lists(*old(map)), k, v),
{
    if k != NO_AGENT {
        let mut list = match map.remove(&k) {
            Some(l) => l,
            None => Vec::new(),
        };
        list.push(v);
        map.insert(k, list);
        assert(lists(*map) =~= pushed(lists(*old(map)), k, v));
    }
}

fn empty_index() -> (r: EventIndex)
    ensures
        prefix_indexed(Seq::empty(), Seq::empty(), Seq::empty(), r, 0),
{
    let r = EventIndex {
        damage_from: BTreeMap::new(),
        damage_to: BTreeMap::new(),
        breakbar_damage_from: BTreeMap::new(),
        breakbar_damage_to: BTreeMap::new(),
        cc_from: BTreeMap::new(),
        cc_to: BTreeMap::new(),
        stun_break_to: BTreeMap::new(),
        cast_by_caster: BTreeMap::new(),
        weapon_swap_by_caster: BTreeMap::new(),
        down: BTreeMap::new(),
        alive: BTreeMap::new(),
        dead: BTreeMap::new(),
        spawn: BTreeMap::new(),
        despawn: BTreeMap::new(),
        health_update: BTreeMap::new(),
        barrier_update: BTreeMap::new(),
        max_health_update: BTreeMap::new(),
        enter_combat: BTreeMap::new(),
        exit_combat: BTreeMap::new(),
        breakbar_percent: BTreeMap::new(),
        has_breakbar_damage: false,
        has_cc: false,
        unresolved: 0,
    };
    assert(lists(r.damage_from) =~= Map::<AgentId, Seq<usize>>::empty());
    assert(lists(r.damage_to) =~= Map::<AgentId, Seq<usize>>::empty());
    assert(lists(r.breakbar_damage_from) =~= Map::<AgentId, Seq<usize>>::empty());
    assert(lists(r.breakbar_damage_to) =~= Map::<AgentId, Seq<usize>>::empty());
    assert(lists(r.cc_from) =~= Map::<AgentId, Seq<usize>>::empty());
    assert(lists(r.cc_to) =~= Map::<AgentId, Seq<usize>>::empty());
    assert(lists(r.stun_break_to) =~= Map::<AgentId, Seq<usize>>::empty());
    assert(lists(r.cast_by_caster) =~= Map::<AgentId, Seq<usize>>::empty());
    assert(lists(r.weapon_swap_by_caster) =~= Map::<AgentId, Seq<usize>>::empty());
    assert(lists(r.down) =~= Map::<AgentId, Seq<usize>>::empty());
    assert(lists(r.alive) =~= Map::<AgentId, Seq<usize>>::empty());
    assert(lists(r.dead) =~= Map::<AgentId, Seq<usize>>::empty());
    assert(lists(r.spawn) =~= Map::<AgentId, Seq<usize>>::empty());
    assert(lists(r.despawn) =~= Map::<AgentId, Seq<usize>>::empty());
    assert(lists(r.health_update) =~= Map::<AgentId, Seq<usize>>::empty());
    assert(lists(r.barrier_update) =~= Map::<AgentId, Seq<usize>>::empty());
    assert(lists(r.max_health_update) =~= Map::<AgentId, Seq<usize>>::empty());
    assert(lists(r.enter_combat) =~= Map::<AgentId, Seq<usize>>::empty());
    assert(lists(r.exit_combat) =~= Map::<AgentId, Seq<usize>>::empty());
    assert(lists(r.breakbar_percent) =~= Map::<AgentId, Seq<usize>>::empty());
    r
}

/// Indexes event `i` under its resolved agents.
#[verifier::spinoff_prover]
#[verifier::rlimit(40)]
fn index_event(
    idx: &mut EventIndex,
    e: &CombatEvent,
    a: AgentId,
    b: AgentId,
    i: usize,
    es: Ghost<Seq<CombatEvent>>,
    ra: Ghost<Seq<AgentId>>,
    rb: Ghost<Seq<AgentId>>,
)
    requires
        prefix_indexed(es@, ra@, rb@, *old(idx), i as int),
        i < es@.len(),
        es@[i as int] == *e,
        ra@[i as int] == a,
        rb@[i as int] == b,
        old(idx).unresolved <= i,
        i < u64::MAX,
    ensures
        prefix_indexed(es@, ra@, rb@, *final(idx), i + 1),
        final(idx).unresolved <= i + 1,
{
    let ghost n = i + 1;
    match e {
        CombatEvent::DirectHealthDamage(_)
        | CombatEvent::NonDirectHealthDamage(_)
        | CombatEvent::NoDamageHealthDamage(_) => {
            push_index(&mut idx.damage_from, a, i);
            push_index(&mut idx.damage_to, b, i);
        },
        CombatEvent::BreakbarDamage(_) | CombatEvent::BreakbarRecovery(_) => {
            idx.has_breakbar_damage = true;
            push_index(&mut idx.breakbar_damage_from, a, i);
            push_index(&mut idx.breakbar_damage_to, b, i);
        },
        CombatEvent::CrowdControl(_) => {
            idx.has_cc = true;
            push_index(&mut idx.cc_from, a, i);
            push_index(&mut idx.cc_to, b, i);
        },
        CombatEvent::StunBreak(_) => push_index(&mut idx.stun_break_to, a, i),
        CombatEvent::AnimatedCast(_)
        | CombatEvent::Emote(_)
        | CombatEvent::GadgetInteract(_)
        | CombatEvent::BundlePickUp(_) => push_index(&mut idx.cast_by_caster, a, i),
        CombatEvent::WeaponSwap(_) => push_index(&mut idx.weapon_swap_by_caster, a, i),
        CombatEvent::Down(_) => push_index(&mut idx.down, a, i),
        CombatEvent::Alive(_) => push_index(&mut idx.alive, a, i),
        CombatEvent::Dead(_) => push_index(&mut idx.dead, a, i),
        CombatEvent::Spawn(_) => push_index(&mut idx.spawn, a, i),
        CombatEvent::Despawn(_) => push_index(&mut idx.despawn, a, i),
        CombatEvent::HealthUpdate(_) => push_index(&mut idx.health_update, a, i),
        CombatEvent::BarrierUpdate(_) => push_index(&mut idx.barrier_update, a, i),
        CombatEvent::MaxHealthUpdate(_) => push_index(&mut idx.max_health_update, a, i),
        CombatEvent::EnterCombat(_) => push_index(&mut idx.enter_combat, a, i),
        CombatEvent::ExitCombat(_) => push_index(&mut idx.exit_combat, a, i),
        CombatEvent::BreakbarPercent(_) => push_index(&mut idx.breakbar_percent, a, i),
        _ => {},
    }
    let (pa, _pb) = e.participants();
    if pa != 0 && a == NO_AGENT {
        idx.unresolved = idx.unresolved + 1;
    }
    assert(is_breakbar(es@[i as int]) ==> idx.has_breakbar_damage);
}

/// The agent of `addr` for an event at `time`.
fn resolve(table: &AgentTable, addr: u64, time: Option<i64>) -> (r: AgentId)
    requires
        table@.len() <= NO_AGENT,
    ensures
        resolves(table@, addr, time, r),
{
    if addr == 0 {
        return NO_AGENT;
    }
    match time {
        Some(t) => table.first_matching(true, addr, 0, t),
        None => {
            let ghost s = table@;
            let n = table.slot_count();
            let mut id: usize = 0;
            while id < n
                invariant
                    id <= n == s.len() <= NO_AGENT,
                    s == table@,
                    addr != 0,
                    time is None,
                    forall|x: int| 0 <= x < id && live(s, x) ==> agent_at(s, x).address != addr,
                decreases n - id,
            {
                match table.slot(id as AgentId) {
                    Some(a) => {
                        if a.address == addr {
                            return id as AgentId;
                        }
                    },
                    None => {},
                }
                id = id + 1;
            }
            NO_AGENT
        },
    }
}

/// Some listed event lies within 500 ms of `t`.
fn near(list: &Vec<usize>, events: &Vec<CombatEvent>, t: i64) -> (r: bool)
    requires
        forall|j: int| 0 <= j < list@.len() ==> #[trigger] list@[j] < events@.len(),
    ensures
        r == has_near(list@, events@, t),
{
    let mut j: usize = 0;
    while j < list.len()
        invariant
            j <= list@.len(),
            forall|q: int| 0 <= q < list@.len() ==> #[trigger] list@[q] < events@.len(),
            forall|q: int|
                0 <= q < j ==> !(wrapping_distance(
                    match events@[#[trigger] list@[q] as int].time_of() {
                        Some(x) => x,
                        None => 0,
                    },
                    t,
                ) < 500),
        decreases list@.len() - j,
    {
        let et = match events[list[j]].time() {
            Some(x) => x,
            None => 0,
        };
        let d = et.wrapping_sub(t);
        let dist = if d < 0 {
            0i64.wrapping_sub(d)
        } else {
            d
        };
        if dist < 500 {
            return true;
        }
        j = j + 1;
    }
    false
}

fn list_key_of(e: &CombatEvent) -> (r: i128)
    ensures
        r == list_key(*e),
{
    match e.time() {
        Some(t) => t as i128,
        None => i64::MIN as i128 - 1,
    }
}

proof fn lemma_sorted_insert(s: Seq<usize>, x: usize, es: Seq<CombatEvent>, j: int)
    requires
        0 <= j <= s.len(),
        forall|i: int| j <= i < s.len() ==> list_key(es[#[trigger] s[i] as int]) > list_key(es[x as int]),
        j > 0 ==> list_key(es[s[j - 1] as int]) <= list_key(es[x as int]),
    ensures
        sorted_insert(s, x, es) == s.insert(j, x),
    decreases s.len(),
{
    if s.len() == 0 {
        assert(s.insert(j, x) =~= seq![x]);
    } else if list_key(es[s.last() as int]) <= list_key(es[x as int]) {
        assert(j == s.len());
        assert(s.insert(j, x) =~= s.push(x));
    } else {
        assert(j < s.len());
        lemma_sorted_insert(s.drop_last(), x, es, j);
        assert(s.drop_last().insert(j, x).push(s.last()) =~= s.insert(j, x));
    }
}

/// Inserts `x` after the last position whose event key is at most its own.
fn insert_sorted(out: &mut Vec<usize>, x: usize, events: &Vec<CombatEvent>)
    requires
        x < events@.len(),
        forall|q: int| 0 <= q < old(out)@.len() ==> #[trigger] old(out)@[q] < events@.len(),
    ensures
        final(out)@ == sorted_insert(old(out)@, x, events@),
        forall|q: int| 0 <= q < final(out)@.len() ==> #[trigger] final(out)@[q] < events@.len(),
{
    let kx = list_key_of(&events[x]);
    let mut j: usize = out.len();
    while j > 0 && list_key_of(&events[out[j - 1]]) > kx
        invariant
            j <= out@.len(),
            out@ == old(out)@,
            kx == list_key(events@[x as int]),
            forall|q: int| 0 <= q < out@.len() ==> #[trigger] out@[q] < events@.len(),
            forall|i: int| j <= i < out@.len() ==> list_key(events@[#[trigger] out@[i] as int]) > kx,
        decreases j,
    {
        j = j - 1;
    }
    proof {
        lemma_sorted_insert(out@, x, events@, j as int);
    }
    out.insert(j, x);
}

/// Stable insertion sort of positions by the keys of their events.
fn isort_vec(s: &Vec<usize>, events: &Vec<CombatEvent>) -> (r: Vec<usize>)
    requires
        forall|q: int| 0 <= q < s@.len() ==> #[trigger] s@[q] < events@.len(),
    ensures
        r@ == isort(s@, events@),
{
    let mut out: Vec<usize> = Vec::new();
    let mut i: usize = 0;
    assert(s@.take(0) =~= Seq::<usize>::empty());
    while i < s.len()
        invariant
            i <= s@.len(),
            forall|q: int| 0 <= q < s@.len() ==> #[trigger] s@[q] < events@.len(),
            out@ == isort(s@.take(i as int), events@),
            forall|q: int| 0 <= q < out@.len() ==> #[trigger] out@[q] < events@.len(),
        decreases s@.len() - i,
    {
        assert(s@.take(i + 1).drop_last() =~= s@.take(i as int));
        insert_sorted(&mut out, s[i], events);
        i = i + 1;
    }
    assert(s@.take(i as int) =~= s@);
    out
}

/// Damage events that killed (or downed) the target with no listed death
/// (or down) within 500 ms.
pub open spec fn addition_pred(status_list: Seq<usize>, es: Seq<CombatEvent>, killed: bool) -> spec_fn(usize) -> bool {
    |i: usize|
        (if killed {
            damage_flags_of(es[i as int]).1
        } else {
            damage_flags_of(es[i as int]).2
        }) && !has_near(status_list, es, damage_flags_of(es[i as int]).0)
}

/// The status lists with the additions for `k`.
pub open spec fn updated_for(
    status: Map<AgentId, Seq<usize>>,
    damage_to: Map<AgentId, Seq<usize>>,
    es: Seq<CombatEvent>,
    s: Seq<Option<AgentItem>>,
    killed: bool,
    k: AgentId,
) -> Map<AgentId, Seq<usize>> {
    if takes_additions(s, damage_to, k) && added_for(status, damage_to, es, k, killed).len() > 0 {
        status.insert(k, isort(list_or_empty(status, k) + added_for(status, damage_to, es, k, killed), es))
    } else {
        status
    }
}

/// The status lists with the additions of the agents in `done`.
pub open spec fn partly_added(
    status: Map<AgentId, Seq<usize>>,
    damage_to: Map<AgentId, Seq<usize>>,
    es: Seq<CombatEvent>,
    s: Seq<Option<AgentItem>>,
    killed: bool,
    done: Set<AgentId>,
) -> Map<AgentId, Seq<usize>> {
    Map::new(
        |k: AgentId|
            status.contains_key(k) || (done.contains(k) && takes_additions(s, damage_to, k) && added_for(
                status,
                damage_to,
                es,
                k,
                killed,
            ).len() > 0),
        |k: AgentId|
            if done.contains(k) && takes_additions(s, damage_to, k) && added_for(
                status,
                damage_to,
                es,
                k,
                killed,
            ).len() > 0 {
                isort(list_or_empty(status, k) + added_for(status, damage_to, es, k, killed), es)
            } else {
                status[k]
            },
    )
}

/// Positions listed in a map lie below `n`.
pub open spec fn bounded_lists(m: Map<AgentId, Seq<usize>>, n: int) -> bool {
    forall|k: AgentId, q: int| #![trigger m[k][q]] m.contains_key(k) && 0 <= q < m[k].len() ==> m[k][q] < n
}

proof fn lemma_bucket_facts(es: Seq<CombatEvent>, ra: Seq<AgentId>, rb: Seq<AgentId>, b: Bucket, n: int)
    requires
        0 <= n,
    ensures
        bounded_lists(bucket_of(es, ra, rb, b, n), n),
        forall|k: AgentId| #[trigger]
            bucket_of(es, ra, rb, b, n).contains_key(k) ==> k != NO_AGENT && exists|j: int|
                0 <= j < n && in_bucket(#[trigger] es[j], b) && (if by_second(b) {
                    rb[j]
                } else {
                    ra[j]
                }) == k,
    decreases n,
{
    if n > 0 {
        lemma_bucket_facts(es, ra, rb, b, n - 1);
        let m = bucket_of(es, ra, rb, b, n - 1);
        let m2 = bucket_of(es, ra, rb, b, n);
        assert forall|k: AgentId, q: int| #![trigger m2[k][q]] m2.contains_key(k) && 0 <= q < m2[k].len() implies m2[k][q] < n by {
            if m.contains_key(k) && q < m[k].len() {
                assert(m[k][q] < n - 1);
            }
        }
        assert forall|k: AgentId| #[trigger] m2.contains_key(k) implies k != NO_AGENT && exists|j: int|
            0 <= j < n && in_bucket(#[trigger] es[j], b) && (if by_second(b) {
                rb[j]
            } else {
                ra[j]
            }) == k by {
            if m.contains_key(k) {
                let j = choose|j: int|
                    0 <= j < n - 1 && in_bucket(#[trigger] es[j], b) && (if by_second(b) {
                        rb[j]
                    } else {
                        ra[j]
                    }) == k;
                assert(in_bucket(es[j], b));
            } else {
                assert(in_bucket(es[n - 1], b));
            }
        }
    }
}

/// The damage events of a list that add a death (or a down).
fn additions(dt: &Vec<usize>, status_list: &Vec<usize>, events: &Vec<CombatEvent>, killed: bool) -> (r: Vec<usize>)
    requires
        forall|q: int| 0 <= q < dt@.len() ==> #[trigger] dt@[q] < events@.len(),
        forall|q: int| 0 <= q < status_list@.len() ==> #[trigger] status_list@[q] < events@.len(),
    ensures
        r@ == dt@.filter(addition_pred(status_list@, events@, killed)),
        forall|q: int| 0 <= q < r@.len() ==> #[trigger] r@[q] < events@.len(),
{
    let ghost pred = addition_pred(status_list@, events@, killed);
    let mut out: Vec<usize> = Vec::new();
    let mut j: usize = 0;
    assert(dt@.take(0) =~= Seq::<usize>::empty());
    while j < dt.len()
        invariant
            j <= dt@.len(),
            pred == addition_pred(status_list@, events@, killed),
            forall|q: int| 0 <= q < dt@.len() ==> #[trigger] dt@[q] < events@.len(),
            forall|q: int| 0 <= q < status_list@.len() ==> #[trigger] status_list@[q] < events@.len(),
            out@ == dt@.take(j as int).filter(pred),
            forall|q: int| 0 <= q < out@.len() ==> #[trigger] out@[q] < events@.len(),
        decreases dt@.len() - j,
    {
        let evi = dt[j];
        assert(dt@.take(j + 1).drop_last() =~= dt@.take(j as int));
        let (time, has_killed, has_downed) = damage_flags(&events[evi]);
        let flag = if killed {
            has_killed
        } else {
            has_downed
        };
        let close = near(status_list, events, time);
        assert(pred(evi) == (flag && !close));
        let ghost before = out@;
        if flag && !close {
            out.push(evi);
        }
        assert(dt@.take(j + 1).last() == evi);
        assert(out@ == dt@.take(j + 1).filter(pred)) by {
            reveal(Seq::filter);
            assert(dt@.take(j + 1).filter(pred) == if pred(evi) {
                before.push(evi)
            } else {
                before
            });
        }
        j = j + 1;
    }
    assert(dt@.take(j as int) =~= dt@);
    out
}

fn damage_flags(e: &CombatEvent) -> (r: (i64, bool, bool))
    ensures
        r == damage_flags_of(*e),
{
    match e {
        CombatEvent::DirectHealthDamage(f) => (f.skill.time, f.has_killed, f.has_downed),
        CombatEvent::NonDirectHealthDamage(f) => (f.skill.time, f.has_killed, f.has_downed),
        CombatEvent::NoDamageHealthDamage(f) => (f.skill.time, f.has_killed, f.has_downed),
        _ => (0, false, false),
    }
}

/// Adds to a status map the additions of one agent.
fn add_to_status(
    status: &mut BTreeMap<AgentId, Vec<usize>>,
    k: AgentId,
    adds: Vec<usize>,
    events: &Vec<CombatEvent>,
)
    requires
        adds@.len() > 0,
        forall|q: int|
            0 <= q < list_or_empty(lists(*old(status)), k).len() ==> #[trigger] list_or_empty(
                lists(*old(status)),
                k,
            )[q] < events@.len(),
        forall|q: int| 0 <= q < adds@.len() ==> #[trigger] adds@[q] < events@.len(),
    ensures
        lists(*final(status)) == lists(*old(status)).insert(
            k,
            isort(list_or_empty(lists(*old(status)), k) + adds@, events@),
        ),
{
    let mut l = match status.remove(&k) {
        Some(l) => l,
        None => Vec::new(),
    };
    let ghost l0 = l@;
    assert(l0 == list_or_empty(lists(*old(status)), k));
    assert forall|q: int| 0 <= q < l0.len() implies #[trigger] l0[q] < events@.len() by {
        assert(list_or_empty(lists(*old(status)), k)[q] < events@.len());
    }
    let ghost a0 = adds@;
    let mut adds = adds;
    l.append(&mut adds);
    let sorted = isort_vec(&l, events);
    status.insert(k, sorted);
    assert(lists(*status) =~= lists(*old(status)).insert(k, isort(l0 + a0, events@)));
}

/// Adds deaths and downs of agent `k` from the damage it took.
#[verifier::spinoff_prover]
#[verifier::rlimit(40)]
fn complete_agent(
    idx: &mut EventIndex,
    table: &AgentTable,
    events: &Vec<CombatEvent>,
    k: AgentId,
    dead1: Ghost<Map<AgentId, Seq<usize>>>,
    down1: Ghost<Map<AgentId, Seq<usize>>>,
    done: Ghost<Set<AgentId>>,
)
    requires
        lists(old(idx).dead) == partly_added(dead1@, lists(old(idx).damage_to), events@, table@, true, done@),
        lists(old(idx).down) == partly_added(down1@, lists(old(idx).damage_to), events@, table@, false, done@),
        !done@.contains(k),
        bounded_lists(lists(old(idx).damage_to), events@.len() as int),
        bounded_lists(dead1@, events@.len() as int),
        bounded_lists(down1@, events@.len() as int),
    ensures
        lists(final(idx).dead) == partly_added(dead1@, lists(old(idx).damage_to), events@, table@, true, done@.insert(k)),
        lists(final(idx).down) == partly_added(down1@, lists(old(idx).damage_to), events@, table@, false, done@.insert(k)),
        *final(idx) == (EventIndex { dead: final(idx).dead, down: final(idx).down, ..*old(idx) }),
{
    let ghost dt = lists(idx.damage_to);
    let ghost s = table@;
    let eligible = match table.slot(k) {
        Some(a) => !a.is_non_identified_species(),
        None => false,
    };
    let dt_list = match idx.damage_to.get(&k) {
        Some(l) => l,
        None => {
            assert(partly_added(dead1@, dt, events@, s, true, done@.insert(k)) =~= partly_added(dead1@, dt, events@, s, true, done@));
            assert(partly_added(down1@, dt, events@, s, false, done@.insert(k)) =~= partly_added(down1@, dt, events@, s, false, done@));
            return ;
        },
    };
    if k == NO_AGENT || !eligible {
        assert(partly_added(dead1@, dt, events@, s, true, done@.insert(k)) =~= partly_added(dead1@, dt, events@, s, true, done@));
        assert(partly_added(down1@, dt, events@, s, false, done@.insert(k)) =~= partly_added(down1@, dt, events@, s, false, done@));
        return ;
    }
    assert(takes_additions(s, dt, k));
    let empty: Vec<usize> = Vec::new();
    let adds_dead = {
        proof {
            let pa = partly_added(dead1@, dt, events@, s, true, done@);
            assert(pa.contains_key(k) == dead1@.contains_key(k));
            assert(dead1@.contains_key(k) ==> pa[k] == dead1@[k]);
        }
        let cur = match idx.dead.get(&k) {
            Some(l) => {
                assert(lists(idx.dead)[k] == l@);
                l
            },
            None => &empty,
        };
        assert(cur@ =~= list_or_empty(dead1@, k));
        assert forall|q: int| 0 <= q < cur@.len() implies #[trigger] cur@[q] < events@.len() by {
            assert(dead1@[k][q] < events@.len());
        }
        assert forall|q: int| 0 <= q < dt_list@.len() implies #[trigger] dt_list@[q] < events@.len() by {
            assert(dt[k][q] < events@.len());
        }
        additions(dt_list, cur, events, true)
    };
    let adds_down = {
        proof {
            let pa = partly_added(down1@, dt, events@, s, false, done@);
            assert(pa.contains_key(k) == down1@.contains_key(k));
            assert(down1@.contains_key(k) ==> pa[k] == down1@[k]);
        }
        let cur = match idx.down.get(&k) {
            Some(l) => {
                assert(lists(idx.down)[k] == l@);
                l
            },
            None => &empty,
        };
        assert(cur@ =~= list_or_empty(down1@, k));
        assert forall|q: int| 0 <= q < cur@.len() implies #[trigger] cur@[q] < events@.len() by {
            assert(down1@[k][q] < events@.len());
        }
        assert forall|q: int| 0 <= q < dt_list@.len() implies #[trigger] dt_list@[q] < events@.len() by {
            assert(dt[k][q] < events@.len());
        }
        additions(dt_list, cur, events, false)
    };
    assert(adds_dead@ == added_for(dead1@, dt, events@, k, true));
    assert(adds_down@ == added_for(down1@, dt, events@, k, false));
    if adds_dead.len() > 0 {
        add_to_status(&mut idx.dead, k, adds_dead, events);
    }
    if adds_down.len() > 0 {
        add_to_status(&mut idx.down, k, adds_down, events);
    }
    assert(lists(idx.dead) =~= partly_added(dead1@, dt, events@, s, true, done@.insert(k)));
    assert(lists(idx.down) =~= partly_added(down1@, dt, events@, s, false, done@.insert(k)));
}

fn is_health_damage_event(e: &CombatEvent) -> (r: bool)
    ensures
        r == is_health_damage(*e),
{
    match e {
        CombatEvent::DirectHealthDamage(_)
        | CombatEvent::NonDirectHealthDamage(_)
        | CombatEvent::NoDamageHealthDamage(_) => true,
        _ => false,
    }
}

/// Indexes the events of a log by agent and role: damage dealt and taken,
/// defiance bar damage, crowd control, stun breaks, casts, weapon swaps and
/// status events, each under the agent its address resolves to at the
/// event's time. Deaths and downs also get the kills and downs of the damage
/// an identified agent took, when no death or down of it lies within 500 ms.
#[verifier::spinoff_prover]
#[verifier::rlimit(40)]
pub fn build_event_index(log: &ParsedLog) -> (idx: EventIndex)
    requires
        log.agents@.len() <= NO_AGENT,
    ensures
        exists|ra: Seq<AgentId>, rb: Seq<AgentId>| indexed(log.agents@, log.events@, ra, rb, idx),
{
    let events = &log.events;
    let table = &log.agents;
    let ghost s = table@;
    let ghost es = events@;
    let n = events.len();
    let mut ras: Vec<AgentId> = Vec::new();
    let mut rbs: Vec<AgentId> = Vec::new();
    let mut i: usize = 0;
    while i < n
        invariant
            i <= n == es.len(),
            es == events@,
            s == table@,
            s.len() <= NO_AGENT,
            ras@.len() == i && rbs@.len() == i,
            forall|j: int|
                0 <= j < i ==> resolves(s, (#[trigger] es[j]).participants_of().0, es[j].time_of(), ras@[j])
                    && resolves(s, es[j].participants_of().1, es[j].time_of(), rbs@[j]),
        decreases n - i,
    {
        let (a, b) = events[i].participants();
        let t = events[i].time();
        let ra = resolve(table, a, t);
        let rb = resolve(table, b, t);
        ras.push(ra);
        rbs.push(rb);
        i = i + 1;
    }
    let ghost ra = ras@;
    let ghost rb = rbs@;
    let mut idx = empty_index();
    let mut i: usize = 0;
    while i < n
        invariant
            i <= n == es.len() == ra.len() == rb.len(),
            es == events@,
            ra == ras@,
            rb == rbs@,
            prefix_indexed(es, ra, rb, idx, i as int),
            idx.unresolved <= i,
        decreases n - i,
    {
        index_event(&mut idx, &events[i], ras[i], rbs[i], i, Ghost(es), Ghost(ra), Ghost(rb));
        i = i + 1;
    }
    let ghost dead1 = lists(idx.dead);
    let ghost down1 = lists(idx.down);
    let ghost dt = lists(idx.damage_to);
    let ghost idx1 = idx;
    proof {
        lemma_bucket_facts(es, ra, rb, Bucket::DamageTo, n as int);
        lemma_bucket_facts(es, ra, rb, Bucket::Dead, n as int);
        lemma_bucket_facts(es, ra, rb, Bucket::Down, n as int);
        assert(partly_added(dead1, dt, es, s, true, Set::empty()) =~= dead1);
        assert(partly_added(down1, dt, es, s, false, Set::empty()) =~= down1);
    }
    let mut done: BTreeSet<AgentId> = BTreeSet::new();
    let mut i: usize = 0;
    while i < n
        invariant
            i <= n == es.len() == ra.len() == rb.len(),
            es == events@,
            s == table@,
            rb == rbs@,
            dt == lists(idx.damage_to),
            dead1 == bucket_of(es, ra, rb, Bucket::Dead, n as int),
            down1 == bucket_of(es, ra, rb, Bucket::Down, n as int),
            dt == bucket_of(es, ra, rb, Bucket::DamageTo, n as int),
            bounded_lists(dt, n as int),
            bounded_lists(dead1, n as int),
            bounded_lists(down1, n as int),
            lists(idx.dead) == partly_added(dead1, dt, es, s, true, done@),
            lists(idx.down) == partly_added(down1, dt, es, s, false, done@),
            idx == (EventIndex { dead: idx.dead, down: idx.down, ..idx1 }),
            forall|j: int|
                0 <= j < i && is_health_damage(#[trigger] es[j]) && rb[j] != NO_AGENT ==> done@.contains(
                    rb[j],
                ),
        decreases n - i,
    {
        let k = rbs[i];
        if is_health_damage_event(&events[i]) && k != NO_AGENT && !done.contains(&k) {
            complete_agent(&mut idx, table, events, k, Ghost(dead1), Ghost(down1), Ghost(done@));
            done.insert(k);
        }
        i = i + 1;
    }
    proof {
        assert forall|k: AgentId| takes_additions(s, dt, k) implies #[trigger] done@.contains(k) by {
            assert(dt.contains_key(k));
            let j = choose|j: int|
                0 <= j < n && in_bucket(#[trigger] es[j], Bucket::DamageTo) && rb[j] == k;
            assert(is_health_damage(es[j]));
        }
        assert(with_additions(dead1, dt, es, s, true) =~= partly_added(dead1, dt, es, s, true, done@));
        assert(with_additions(down1, dt, es, s, false) =~= partly_added(down1, dt, es, s, false, done@));
        assert(indexed(s, es, ra, rb, idx));
    }
    idx
}

// ===== status spans =====

/// A span of time `[start, end)` in which a status holds.
#[derive(Debug, Clone, Copy, PartialEq, Eq, Structural)]
pub struct Span {
    pub start: i64,
    pub end: i64,
}

/// Dead, down, disconnected and active spans.
pub type StatusLists = (Seq<Span>, Seq<Span>, Seq<Span>, Seq<Span>);

/// `seg` with `[start, end)` added when it is not empty.
pub open spec fn add_span(seg: Seq<Span>, start: i64, end: i64) -> Seq<Span> {
    if start < end {
        seg.push(Span { start, end })
    } else {
        seg
    }
}

/// The status lists after status row `i` (time, kind: 0 down, 1 dead, 2
/// despawn, other alive), which holds until `next`.
pub open spec fn status_step(l: StatusLists, i: int, time: i64, kind: u8, next: i64, first_aware: i64) -> StatusLists {
    let (dead, down, dc, act) = l;
    if kind == 0 {
        let act2 = if i == 0 { add_span(act, first_aware, time) } else { act };
        (dead, add_span(down, time, next), dc, act2)
    } else if kind == 1 {
        let act2 = if i == 0 { add_span(act, first_aware, time) } else { act };
        (add_span(dead, time, next), down, dc, act2)
    } else if kind == 2 {
        let act2 = if i == 0 { add_span(act, first_aware, time) } else { act };
        (dead, down, add_span(dc, time, next), act2)
    } else {
        let dc2 = if i == 0 && time.wrapping_sub(first_aware) > 50 { add_span(dc, first_aware, time) } else { dc };
        (dead, down, dc2, add_span(act, time, next))
    }
}

/// When status row `i` of `events` stops holding: at the next row, or when
/// the agent stops being aware.
pub open spec fn status_next(events: Seq<(i64, u8)>, i: int, last_aware: i64) -> i64 {
    if i + 1 < events.len() {
        events[i + 1].0
    } else {
        last_aware
    }
}

/// The status lists after the first `k` rows: disconnected before the
/// agent is first aware, then each row in turn.
pub open spec fn status_prefix(events: Seq<(i64, u8)>, first_aware: i64, last_aware: i64, k: nat) -> StatusLists
    decreases k,
{
    if k == 0 {
        (Seq::empty(), Seq::empty(), seq![Span { start: i64::MIN, end: first_aware }], Seq::empty())
    } else {
        let i = k - 1;
        status_step(
            status_prefix(events, first_aware, last_aware, (k - 1) as nat),
            i,
            events[i].0,
            events[i].1,
            status_next(events, i, last_aware),
            first_aware,
        )
    }
}

/// The status lists of an agent aware over `[first_aware, last_aware]`
/// from its status rows in time order: the last row holds until the agent
/// stops being aware; a dead agent stays dead and any other disconnects
/// after that.
pub open spec fn status_lists(events: Seq<(i64, u8)>, first_aware: i64, last_aware: i64) -> StatusLists {
    if events.len() == 0 {
        (Seq::empty(), Seq::empty(), seq![Span { start: i64::MIN, end: first_aware }, Span { start: last_aware, end: i64::MAX }],
            seq![Span { start: first_aware, end: last_aware }])
    } else {
        let (dead, down, dc, act) = status_prefix(events, first_aware, last_aware, events.len());
        let (time, kind) = events.last();
        let after = if kind == 0 {
            (dead, add_span(down, time, last_aware), dc, act)
        } else if kind == 1 {
            (add_span(dead, time, last_aware).push(Span { start: last_aware, end: i64::MAX }), down, dc, act)
        } else if kind == 2 {
            (dead, down, add_span(dc, time, last_aware), act)
        } else {
            (dead, down, dc, add_span(act, time, last_aware))
        };
        if kind != 1 {
            (after.0, after.1, after.2.push(Span { start: last_aware, end: i64::MAX }), after.3)
        } else {
            after
        }
    }
}

fn push_span(seg: &mut Vec<Span>, start: i64, end: i64)
    ensures
        final(seg)@ == add_span(old(seg)@, start, end),
{
    if start < end {
        seg.push(Span { start, end });
    }
}

/// The dead, down, disconnected and active spans of an agent aware over
/// `[first_aware, last_aware]` from its status rows (time, kind: 0 down,
/// 1 dead, 2 despawn, other alive) in time order.
pub fn status_segments(events: &[(i64, u8)], first_aware: i64, last_aware: i64) -> (r: (Vec<Span>, Vec<Span>, Vec<Span>, Vec<Span>))
    ensures
        (r.0@, r.1@, r.2@, r.3@) == status_lists(events@, first_aware, last_aware),
{
    let mut dead: Vec<Span> = Vec::new();
    let mut down: Vec<Span> = Vec::new();
    let mut dc: Vec<Span> = Vec::new();
    let mut actives: Vec<Span> = Vec::new();
    dc.push(Span { start: i64::MIN, end: first_aware });
    if events.len() == 0 {
        actives.push(Span { start: first_aware, end: last_aware });
        dc.push(Span { start: last_aware, end: i64::MAX });
        assert(dc@ =~= seq![Span { start: i64::MIN, end: first_aware }, Span { start: last_aware, end: i64::MAX }]);
        assert(actives@ =~= seq![Span { start: first_aware, end: last_aware }]);
        return (dead, down, dc, actives);
    }
    let n = events.len();
    let mut i: usize = 0;
    assert(dc@ =~= seq![Span { start: i64::MIN, end: first_aware }]);
    while i < n
        invariant
            n == events@.len(),
            i <= n,
            (dead@, down@, dc@, actives@) == status_prefix(events@, first_aware, last_aware, i as nat),
        decreases n - i,
    {
        let (time, kind) = events[i];
        let next = if i + 1 < n {
            events[i + 1].0
        } else {
            last_aware
        };
        if kind == 0 {
            if i == 0 {
                push_span(&mut actives, first_aware, time);
            }
            push_span(&mut down, time, next);
        } else if kind == 1 {
            if i == 0 {
                push_span(&mut actives, first_aware, time);
            }
            push_span(&mut dead, time, next);
        } else if kind == 2 {
            if i == 0 {
                push_span(&mut actives, first_aware, time);
            }
            push_span(&mut dc, time, next);
        } else {
            if i == 0 && time.wrapping_sub(first_aware) > 50 {
                push_span(&mut dc, first_aware, time);
            }
            push_span(&mut actives, time, next);
        }
        i = i + 1;
    }
    let (time, kind) = events[n - 1];
    if kind == 0 {
        push_span(&mut down, time, last_aware);
    } else if kind == 1 {
        push_span(&mut dead, time, last_aware);
        dead.push(Span { start: last_aware, end: i64::MAX });
    } else if kind == 2 {
        push_span(&mut dc, time, last_aware);
    } else {
        push_span(&mut actives, time, last_aware);
    }
    if kind != 1 {
        dc.push(Span { start: last_aware, end: i64::MAX });
    }
    (dead, down, dc, actives)
}

} // verus!
