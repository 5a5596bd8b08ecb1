//! State change rows: status, buff stack, movement and metadata rows turned
//! into events or metadata, and effect rows paired by tracking id.

use vstd::prelude::*;
use std::collections::BTreeMap;
use crate::parse::models::{EvtcCombatItem, squad_log_type_of};
use crate::parse::enums::{
    BreakbarState, BuffStackType, ContentLocal, Language, SkillAction, StateChange,
};
use crate::parse::arc_builds::{
    EXTRA_DATA_IN_GUID_EVENTS, TEAM_CHANGE_ON_DESPAWN, VISIBILITY_IN_TARGETABLE_STATE_CHANGE,
    VISIBILITY_ON_STATE_CHANGE, WEAPON_SWAP_VALUE_IS_PREVIOUS_CROWD_CONTROL_EVENTS_GLIDER_EVENTS,
};
use crate::model::combat_data::{CategoryCounts, CountKind, MetaDataBucket, UnsupportedCounts};
use crate::model::events::{
    AttackTargetEventFields, BreakbarPercentEventFields, BreakbarStateEventFields,
    BuffEventFields, BuffFormulaRowFields, BuffInfoEventFields, BuffInfoRowFields,
    BuffStackDeactiveEventFields, BuffStackEventFields, CombatEvent, CombatStatusEventFields,
    EffectEventFields, EffectGuidInfo, EffectPosition, ErrorEventFields, FractalScaleEventFields,
    GliderEventFields, GuidEventFields, GuildEventFields, Gw2BuildEventFields,
    HealthPercentEventFields, InstanceStartEventFields, Last90BeforeDownEventFields,
    LanguageEventFields, LogDateEventFields, LogNpcUpdateEventFields, MapChangeEventFields,
    MapIdEventFields, MaxHealthEventFields, MissileEventFields, MovementEventFields,
    PointOfViewEventFields, Region, RewardEventFields, ShardEventFields, SkillEventFields,
    SkillInfoEventFields, SkillTimingRowFields, SquadCombatEndEventFields,
    SquadCombatStartEventFields, StatusEventFields, StunBreakEventFields, TargetableEventFields,
    TeamChangeEventFields, TickEventFields, TickRateEventFields, UnsupportedEventKind,
    VisibilityEventFields, WeaponSwapEventFields, WvWObjectiveStatusEventFields,
    WvWTeamsEventFields, bytes_hex, le_bytes, le_hex, push_bytes_hex, push_le_bytes,
};
use crate::model::factory::{
    Collector, RowOutcome, Touched, count_kind_of, outcome_counts, outcome_events, touched,
};
use crate::model::float_bits::{
    f32_as_int, f32_bits_as_i32, f32_bits_as_i64, f32_bits_as_u8, f32_bits_finite, f32_finite,
};
use crate::text::{lossy_utf8, utf8_lossy};
use crate::model::spec::{Spec, spec_of_prof_elite, spec_from_prof_elite};

verus! {

broadcast use {vstd::std_specs::btree::group_btree_axioms, vstd::laws_cmp::group_laws_cmp};

/// Time and source agent of a row.
pub open spec fn status_of(item: EvtcCombatItem) -> StatusEventFields {
    StatusEventFields { time: item.time, src: item.src_agent }
}

/// Buff fields of a buff stack row: the stack belongs to the source agent,
/// its giver is unknown.
pub open spec fn stack_buff_fields_of(item: EvtcCombatItem) -> BuffEventFields {
    BuffEventFields {
        time: item.time,
        buff_id: item.skill_id,
        by: 0,
        to: item.src_agent,
        iff: item.iff,
    }
}

/// Health percent in hundredths: the destination field, at most 100%.
pub open spec fn health_hundredths(dst: u64) -> u64 {
    if dst > 10000 {
        10000
    } else {
        dst
    }
}

/// Barrier percent in hundredths: the destination field, or 0 when it is
/// over 100%.
pub open spec fn barrier_hundredths(dst: u64) -> u64 {
    if dst > 10000 {
        0
    } else {
        dst
    }
}

/// Movement of a row: x and y are the low and high halves of the
/// destination field, z the value field; a row with a coordinate that is
/// not finite is dropped.
pub open spec fn movement_outcome(item: EvtcCombatItem) -> RowOutcome {
    let m = MovementEventFields {
        base: status_of(item),
        x_bits: item.dst_agent as u32,
        y_bits: (item.dst_agent >> 32u64) as u32,
        z_bits: item.value as u32,
    };
    if !(f32_finite(m.x_bits) && f32_finite(m.y_bits) && f32_finite(m.z_bits)) {
        RowOutcome::Dropped
    } else {
        RowOutcome::Event(
            match item.state_change {
                StateChange::Position => CombatEvent::Position(m),
                StateChange::Rotation => CombatEvent::Rotation(m),
                StateChange::Velocity => CombatEvent::Velocity(m),
                _ => CombatEvent::Teleport(m),
            },
        )
    }
}

/// State changes that turn into one event each, counted in its category.
pub open spec fn is_simple_state(s: StateChange) -> bool {
    s == StateChange::EnterCombat || s == StateChange::ExitCombat || s == StateChange::ChangeUp
        || s == StateChange::ChangeDead || s == StateChange::ChangeDown || s == StateChange::Spawn
        || s == StateChange::Despawn || s == StateChange::HealthUpdate || s
        == StateChange::BarrierUpdate || s == StateChange::MaxHealthUpdate || s
        == StateChange::TeamChange || s == StateChange::BreakbarState || s
        == StateChange::BreakbarPercent || s == StateChange::Glider || s
        == StateChange::Last90BeforeDown || s == StateChange::Position || s
        == StateChange::Rotation || s == StateChange::Velocity || s == StateChange::Teleport || s
        == StateChange::WeaponSwap || s == StateChange::StackActive || s
        == StateChange::StackDeactive || s == StateChange::StunBreak
}

/// The event of a row of a simple state change.
#[verifier::opaque]
pub open spec fn simple_outcome(item: EvtcCombatItem, build: i32) -> RowOutcome {
    let st = status_of(item);
    match item.state_change {
        StateChange::EnterCombat => {
            let spec = spec_of_prof_elite(item.value as u32, item.buff_dmg as u32);
            RowOutcome::Event(
                CombatEvent::EnterCombat(
                    CombatStatusEventFields {
                        base: st,
                        subgroup: item.dst_agent,
                        spec,
                        base_spec: spec.base_of(),
                    },
                ),
            )
        },
        StateChange::ExitCombat => {
            let spec = spec_of_prof_elite(item.value as u32, item.buff_dmg as u32);
            RowOutcome::Event(
                CombatEvent::ExitCombat(
                    CombatStatusEventFields {
                        base: st,
                        subgroup: item.dst_agent,
                        spec,
                        base_spec: spec.base_of(),
                    },
                ),
            )
        },
        StateChange::ChangeUp => RowOutcome::Event(CombatEvent::Alive(st)),
        StateChange::ChangeDead => RowOutcome::Event(CombatEvent::Dead(st)),
        StateChange::ChangeDown => RowOutcome::Event(CombatEvent::Down(st)),
        StateChange::Spawn => RowOutcome::Event(CombatEvent::Spawn(st)),
        StateChange::Despawn => RowOutcome::Event(CombatEvent::Despawn(st)),
        StateChange::HealthUpdate => RowOutcome::Event(
            CombatEvent::HealthUpdate(
                HealthPercentEventFields {
                    base: st,
                    percent_hundredths: health_hundredths(item.dst_agent),
                },
            ),
        ),
        StateChange::BarrierUpdate => RowOutcome::Event(
            CombatEvent::BarrierUpdate(
                HealthPercentEventFields {
                    base: st,
                    percent_hundredths: barrier_hundredths(item.dst_agent),
                },
            ),
        ),
        StateChange::MaxHealthUpdate => RowOutcome::Event(
            CombatEvent::MaxHealthUpdate(
                MaxHealthEventFields { base: st, max_health: item.dst_agent as i32 },
            ),
        ),
        StateChange::TeamChange => RowOutcome::Event(
            CombatEvent::TeamChange(
                TeamChangeEventFields {
                    base: st,
                    team_id_into: item.dst_agent,
                    team_id_coming_from: if build >= TEAM_CHANGE_ON_DESPAWN {
                        item.value as u64
                    } else {
                        0
                    },
                },
            ),
        ),
        StateChange::BreakbarState => RowOutcome::Event(
            CombatEvent::BreakbarState(
                BreakbarStateEventFields { base: st, state: BreakbarState::of_int(item.value) },
            ),
        ),
        StateChange::BreakbarPercent => RowOutcome::Event(
            CombatEvent::BreakbarPercent(
                BreakbarPercentEventFields { base: st, fraction_bits: item.value as u32 },
            ),
        ),
        StateChange::Glider => RowOutcome::Event(
            CombatEvent::Glider(GliderEventFields { base: st, deployed: item.value == 1 }),
        ),
        StateChange::Last90BeforeDown => RowOutcome::Event(
            CombatEvent::Last90BeforeDown(
                Last90BeforeDownEventFields { base: st, time_since_last_90: item.dst_agent },
            ),
        ),
        StateChange::WeaponSwap => RowOutcome::Event(
            CombatEvent::WeaponSwap(
                WeaponSwapEventFields {
                    time: item.time,
                    caster: item.src_agent,
                    swapped_to: item.dst_agent as i32,
                    swapped_from: if build
                        >= WEAPON_SWAP_VALUE_IS_PREVIOUS_CROWD_CONTROL_EVENTS_GLIDER_EVENTS {
                        item.value
                    } else {
                        -1i32
                    },
                },
            ),
        ),
        StateChange::StackActive => RowOutcome::Event(
            CombatEvent::BuffStackActive(
                BuffStackEventFields {
                    base: stack_buff_fields_of(item),
                    buff_instance: item.dst_agent as u32,
                },
            ),
        ),
        StateChange::StackDeactive => RowOutcome::Event(
            CombatEvent::BuffStackDeactive(
                BuffStackDeactiveEventFields {
                    stack: BuffStackEventFields {
                        base: stack_buff_fields_of(item),
                        buff_instance: item.pad,
                    },
                    reset_to_duration: item.value,
                },
            ),
        ),
        StateChange::StunBreak => RowOutcome::Event(
            CombatEvent::StunBreak(
                StunBreakEventFields {
                    skill: SkillEventFields {
                        time: item.time,
                        from: 0,
                        to: item.src_agent,
                        skill_id: item.skill_id,
                        iff: item.iff,
                        is_over_ninety: false,
                        against_under_fifty: false,
                        is_moving: false,
                        against_moving: false,
                        is_flanking: false,
                        against_downed: item.is_offcycle == 1,
                    },
                    remaining_duration: item.value,
                },
            ),
        ),
        _ => movement_outcome(item),
    }
}

fn status_fields(item: &EvtcCombatItem) -> (r: StatusEventFields)
    ensures
        r == status_of(*item),
{
    StatusEventFields { time: item.time, src: item.src_agent }
}

fn stack_buff_fields(item: &EvtcCombatItem) -> (r: BuffEventFields)
    ensures
        r == stack_buff_fields_of(*item),
{
    BuffEventFields {
        time: item.time,
        buff_id: item.skill_id,
        by: 0,
        to: item.src_agent,
        iff: item.iff,
    }
}

fn movement_row(item: &EvtcCombatItem) -> (r: RowOutcome)
    ensures
        r == movement_outcome(*item),
{
    let m = MovementEventFields {
        base: status_fields(item),
        x_bits: item.dst_agent as u32,
        y_bits: (item.dst_agent >> 32u64) as u32,
        z_bits: item.value as u32,
    };
    if !(f32_bits_finite(m.x_bits) && f32_bits_finite(m.y_bits) && f32_bits_finite(m.z_bits)) {
        RowOutcome::Dropped
    } else {
        RowOutcome::Event(
            match item.state_change {
                StateChange::Position => CombatEvent::Position(m),
                StateChange::Rotation => CombatEvent::Rotation(m),
                StateChange::Velocity => CombatEvent::Velocity(m),
                _ => CombatEvent::Teleport(m),
            },
        )
    }
}

/// The event of a row of a simple state change.
fn simple_row(item: &EvtcCombatItem, build: i32) -> (r: RowOutcome)
    requires
        is_simple_state(item.state_change),
    ensures
        r == simple_outcome(*item, build),
{
    reveal(simple_outcome);
    match item.state_change {
        StateChange::EnterCombat | StateChange::ExitCombat => {
            let spec: Spec = spec_from_prof_elite(item.value as u32, item.buff_dmg as u32);
            let f = CombatStatusEventFields {
                base: status_fields(item),
                subgroup: item.dst_agent,
                spec,
                base_spec: spec.base_spec(),
            };
            if item.state_change == StateChange::EnterCombat {
                RowOutcome::Event(CombatEvent::EnterCombat(f))
            } else {
                RowOutcome::Event(CombatEvent::ExitCombat(f))
            }
        },
        StateChange::ChangeUp => RowOutcome::Event(CombatEvent::Alive(status_fields(item))),
        StateChange::ChangeDead => RowOutcome::Event(CombatEvent::Dead(status_fields(item))),
        StateChange::ChangeDown => RowOutcome::Event(CombatEvent::Down(status_fields(item))),
        StateChange::Spawn => RowOutcome::Event(CombatEvent::Spawn(status_fields(item))),
        StateChange::Despawn => RowOutcome::Event(CombatEvent::Despawn(status_fields(item))),
        StateChange::HealthUpdate => {
            let p: u64 = if item.dst_agent > 10000 {
                10000
            } else {
                item.dst_agent
            };
            RowOutcome::Event(
                CombatEvent::HealthUpdate(
                    HealthPercentEventFields { base: status_fields(item), percent_hundredths: p },
                ),
            )
        },
        StateChange::BarrierUpdate => {
            let p: u64 = if item.dst_agent > 10000 {
                0
            } else {
                item.dst_agent
            };
            RowOutcome::Event(
                CombatEvent::BarrierUpdate(
                    HealthPercentEventFields { base: status_fields(item), percent_hundredths: p },
                ),
            )
        },
        StateChange::MaxHealthUpdate => RowOutcome::Event(
            CombatEvent::MaxHealthUpdate(
                MaxHealthEventFields {
                    base: status_fields(item),
                    max_health: item.dst_agent as i32,
                },
            ),
        ),
        StateChange::TeamChange => RowOutcome::Event(
            CombatEvent::TeamChange(
                TeamChangeEventFields {
                    base: status_fields(item),
                    team_id_into: item.dst_agent,
                    team_id_coming_from: if build >= TEAM_CHANGE_ON_DESPAWN {
                        item.value as u64
                    } else {
                        0
                    },
                },
            ),
        ),
        StateChange::BreakbarState => RowOutcome::Event(
            CombatEvent::BreakbarState(
                BreakbarStateEventFields {
                    base: status_fields(item),
                    state: BreakbarState::from_csharp_int(item.value),
                },
            ),
        ),
        StateChange::BreakbarPercent => RowOutcome::Event(
            CombatEvent::BreakbarPercent(
                BreakbarPercentEventFields {
                    base: status_fields(item),
                    fraction_bits: item.value as u32,
                },
            ),
        ),
        StateChange::Glider => RowOutcome::Event(
            CombatEvent::Glider(
                GliderEventFields { base: status_fields(item), deployed: item.value == 1 },
            ),
        ),
        StateChange::Last90BeforeDown => RowOutcome::Event(
            CombatEvent::Last90BeforeDown(
                Last90BeforeDownEventFields {
                    base: status_fields(item),
                    time_since_last_90: item.dst_agent,
                },
            ),
        ),
        StateChange::WeaponSwap => RowOutcome::Event(
            CombatEvent::WeaponSwap(
                WeaponSwapEventFields {
                    time: item.time,
                    caster: item.src_agent,
                    swapped_to: item.dst_agent as i32,
                    swapped_from: if build
                        >= WEAPON_SWAP_VALUE_IS_PREVIOUS_CROWD_CONTROL_EVENTS_GLIDER_EVENTS {
                        item.value
                    } else {
                        -1
                    },
                },
            ),
        ),
        StateChange::StackActive => RowOutcome::Event(
            CombatEvent::BuffStackActive(
                BuffStackEventFields {
                    base: stack_buff_fields(item),
                    buff_instance: item.dst_agent as u32,
                },
            ),
        ),
        StateChange::StackDeactive => RowOutcome::Event(
            CombatEvent::BuffStackDeactive(
                BuffStackDeactiveEventFields {
                    stack: BuffStackEventFields {
                        base: stack_buff_fields(item),
                        buff_instance: item.pad,
                    },
                    reset_to_duration: item.value,
                },
            ),
        ),
        StateChange::StunBreak => RowOutcome::Event(
            CombatEvent::StunBreak(
                StunBreakEventFields {
                    skill: SkillEventFields {
                        time: item.time,
                        from: 0,
                        to: item.src_agent,
                        skill_id: item.skill_id,
                        iff: item.iff,
                        is_over_ninety: false,
                        against_under_fifty: false,
                        is_moving: false,
                        against_moving: false,
                        is_flanking: false,
                        against_downed: item.is_offcycle == 1,
                    },
                    remaining_duration: item.value,
                },
            ),
        ),
        _ => movement_row(item),
    }
}


/// A row reports a new value for an agent: none was reported before, or
/// another one.
pub open spec fn is_new_value(last: Map<u64, bool>, src: u64, v: bool) -> bool {
    !(last.contains_key(src) && last[src] == v)
}

/// The counters with one more of `kind` when `cond` holds.
pub open spec fn bumped_if(c: CategoryCounts, cond: bool, kind: CountKind) -> CategoryCounts {
    if cond {
        c.bumped(kind)
    } else {
        c
    }
}

/// The event when `cond` holds.
pub open spec fn event_if(cond: bool, e: CombatEvent) -> Seq<CombatEvent> {
    if cond {
        seq![e]
    } else {
        Seq::empty()
    }
}

/// A visibility change of the row's source agent; a value equal to the last
/// one reported for the agent is left out.
pub open spec fn visibility_done(old: Collector, new: Collector, item: EvtcCombatItem, visible: bool) -> bool {
    let emit = is_new_value(old.last_visibility_by_src@, item.src_agent, visible);
    let f = VisibilityEventFields { base: status_of(item), visible };
    &&& new.events@ =~= old.events@ + event_if(emit, CombatEvent::Visibility(f))
    &&& new.counts == bumped_if(old.counts, emit, CountKind::Visibility)
    &&& new.last_visibility_by_src@ == if emit {
        old.last_visibility_by_src@.insert(item.src_agent, visible)
    } else {
        old.last_visibility_by_src@
    }
    &&& new.frame(&old, touched(true, true, false, false, false, true, false))
}

/// A targetability row: targetable or not when the destination field is 0
/// or 1 (other values are left out), reported only when it changes; in the
/// builds that carried visibility in these rows, a value field of 0 or 1 is
/// a visibility change too.
pub open spec fn targetable_done(old: Collector, new: Collector, item: EvtcCombatItem) -> bool {
    let t = item.dst_agent == 1;
    let temit = item.dst_agent < 2 && is_new_value(old.last_targetable_by_src@, item.src_agent, t);
    let vis_rows = old.build >= VISIBILITY_IN_TARGETABLE_STATE_CHANGE && old.build
        < VISIBILITY_ON_STATE_CHANGE && item.value < 2;
    let v = item.value == 1;
    let vemit = vis_rows && is_new_value(old.last_visibility_by_src@, item.src_agent, v);
    &&& new.events@ =~= old.events@ + event_if(
        temit,
        CombatEvent::Targetable(TargetableEventFields { base: status_of(item), targetable: t }),
    ) + event_if(
        vemit,
        CombatEvent::Visibility(VisibilityEventFields { base: status_of(item), visible: v }),
    )
    &&& new.counts == bumped_if(
        bumped_if(old.counts, temit, CountKind::Targetable),
        vemit,
        CountKind::Visibility,
    )
    &&& new.last_targetable_by_src@ == if temit {
        old.last_targetable_by_src@.insert(item.src_agent, t)
    } else {
        old.last_targetable_by_src@
    }
    &&& new.last_visibility_by_src@ == if vemit {
        old.last_visibility_by_src@.insert(item.src_agent, v)
    } else {
        old.last_visibility_by_src@
    }
    &&& new.frame(&old, touched(true, true, false, false, true, true, false))
}

fn push_visibility(c: &mut Collector, item: &EvtcCombatItem, visible: bool)
    requires
        old(c).tally() < u64::MAX,
    ensures
        visibility_done(*old(c), *final(c), *item, visible),
        final(c).tally() <= old(c).tally() + 1,
{
    let fields = VisibilityEventFields { base: status_fields(item), visible };
    let src = item.src_agent;
    let same = match c.last_visibility_by_src.get(&src) {
        Some(v) => *v == visible,
        None => false,
    };
    if !same {
        c.last_visibility_by_src.insert(src, visible);
        c.counts.bump(CountKind::Visibility);
        c.events.push(CombatEvent::Visibility(fields));
    }
}

/// A targetability row: targetable or not when the destination field is 0
/// or 1 (other values are left out), reported only when it changes; in the
/// builds that carried visibility in these rows, a value field of 0 or 1 is
/// a visibility change too.
fn targetable_row(c: &mut Collector, item: &EvtcCombatItem)
    requires
        old(c).tally() + 1 < u64::MAX,
    ensures
        targetable_done(*old(c), *final(c), *item),
        final(c).tally() <= old(c).tally() + 2,
{
    if item.dst_agent < 2 {
        let fields = TargetableEventFields {
            base: status_fields(item),
            targetable: item.dst_agent == 1,
        };
        let src = item.src_agent;
        let same = match c.last_targetable_by_src.get(&src) {
            Some(v) => *v == fields.targetable,
            None => false,
        };
        if !same {
            c.last_targetable_by_src.insert(src, fields.targetable);
            c.counts.bump(CountKind::Targetable);
            c.events.push(CombatEvent::Targetable(fields));
        }
    }
    let ghost mid = c.events@;
    if c.build >= VISIBILITY_IN_TARGETABLE_STATE_CHANGE && c.build < VISIBILITY_ON_STATE_CHANGE
        && item.value < 2 {
        push_visibility(c, item, item.value == 1);
    }
    assert(c.events@ =~= old(c).events@ + event_if(
        item.dst_agent < 2 && is_new_value(
            old(c).last_targetable_by_src@,
            item.src_agent,
            item.dst_agent == 1,
        ),
        CombatEvent::Targetable(
            TargetableEventFields { base: status_of(*item), targetable: item.dst_agent == 1 },
        ),
    ) + event_if(
        old(c).build >= VISIBILITY_IN_TARGETABLE_STATE_CHANGE && old(c).build
            < VISIBILITY_ON_STATE_CHANGE && item.value < 2 && is_new_value(
            old(c).last_visibility_by_src@,
            item.src_agent,
            item.value == 1,
        ),
        CombatEvent::Visibility(
            VisibilityEventFields { base: status_of(*item), visible: item.value == 1 },
        ),
    ));
}


/// Byte `k` of `x`, lowest first.
pub open spec fn byte_of(x: u64, k: int) -> u8 {
    (x >> ((8 * k) as u64)) as u8
}

/// Server and local clocks of a log boundary row.
pub open spec fn log_date_of(item: EvtcCombatItem) -> LogDateEventFields {
    LogDateEventFields {
        time: item.time,
        server_unix_time_stamp: item.value as u32,
        local_unix_time_stamp: item.buff_dmg as u32,
    }
}

/// Start of the instance: its offset from the log start, and its IPv4
/// address from the value field, most significant byte first, when that
/// field is not 0.
pub open spec fn instance_start_of(item: EvtcCombatItem, log_start: i64) -> InstanceStartEventFields {
    let v = item.value as u32;
    InstanceStartEventFields {
        time: item.time,
        time_offset_from_instance_creation: log_start.wrapping_sub(item.src_agent as i64),
        instance_ip: if item.value != 0 {
            Some([(v >> 24u32) as u8, (v >> 16u32) as u8, (v >> 8u32) as u8, v as u8])
        } else {
            None
        },
    }
}

/// Shards and teams of a World vs. World row: six 32-bit halves of the
/// source, destination, value and buff damage fields.
pub open spec fn wvw_teams_of(item: EvtcCombatItem) -> WvWTeamsEventFields {
    WvWTeamsEventFields {
        red_shard_id: item.src_agent as u32,
        blue_shard_id: (item.src_agent >> 32u64) as u32,
        green_shard_id: item.dst_agent as u32,
        red_team_id: (item.dst_agent >> 32u64) as u32,
        blue_team_id: item.value as u32,
        green_team_id: item.buff_dmg as u32,
    }
}

/// The 32 bytes of an error row: time, source, destination, value and buff
/// damage fields, each little-endian.
pub open spec fn error_bytes(item: EvtcCombatItem) -> Seq<u8> {
    le_bytes(item.time as u64, 8) + le_bytes(item.src_agent, 8) + le_bytes(item.dst_agent, 8)
        + le_bytes(item.value as u32 as u64, 4) + le_bytes(item.buff_dmg as u32 as u64, 4)
}

/// A guild key in 8-4-4-4-12 form: the first three groups are the
/// destination field's bytes with the first four, next two and next two
/// each reversed; the last two groups are the value field and buff damage
/// field bytes in order.
pub open spec fn guild_guid_of(item: EvtcCombatItem) -> Seq<char> {
    let d = item.dst_agent;
    let v = item.value as u32 as u64;
    let b = item.buff_dmg as u32 as u64;
    bytes_hex(seq![byte_of(d, 3), byte_of(d, 2), byte_of(d, 1), byte_of(d, 0)]) + seq!['-']
        + bytes_hex(seq![byte_of(d, 5), byte_of(d, 4)]) + seq!['-'] + bytes_hex(
        seq![byte_of(d, 7), byte_of(d, 6)],
    ) + seq!['-'] + bytes_hex(le_bytes(v, 2)) + seq!['-'] + bytes_hex(
        seq![byte_of(v, 2), byte_of(v, 3)] + le_bytes(b, 4),
    )
}

/// Static buff information of a buff info row.
pub open spec fn buff_info_row_of(item: EvtcCombatItem) -> BuffInfoRowFields {
    let b1 = (item.pad % 256) as u8;
    BuffInfoRowFields {
        probably_invul: item.is_flanking > 0,
        probably_invert: item.is_shields > 0,
        category_byte: item.is_offcycle,
        stacking_type_byte: b1,
        stacking_type: BuffStackType::decode(b1),
        probably_resistance: (item.pad / 256) % 256 > 0,
        max_stacks: item.src_master_instid,
        duration_cap: item.overstack_value,
    }
}

/// A buff formula row: eleven 32-bit floats taken, in order, from the
/// halves of the time, source and destination fields, the value, buff
/// damage and overstack fields, and the two pairs of instance ids.
pub open spec fn buff_formula_row_of(item: EvtcCombatItem) -> BuffFormulaRowFields {
    let t = item.time as u64;
    let f9 = (item.src_instid as u32 + item.dst_instid as u32 * 65536) as u32;
    let f10 = (item.src_master_instid as u32 + item.dst_master_instid as u32 * 65536) as u32;
    BuffFormulaRowFields {
        formula_type: f32_as_int(t as u32, i32::MIN as int, i32::MAX as int) as i32,
        byte_attr1: f32_as_int((t >> 32u64) as u32, 0, 255) as u8,
        byte_attr2: f32_as_int(item.src_agent as u32, 0, 255) as u8,
        constant_offset_bits: (item.src_agent >> 32u64) as u32,
        level_offset_bits: item.dst_agent as u32,
        variable_bits: (item.dst_agent >> 32u64) as u32,
        trait_src: f32_as_int(item.value as u32, i32::MIN as int, i32::MAX as int) as i32,
        trait_self: f32_as_int(item.buff_dmg as u32, i32::MIN as int, i32::MAX as int) as i32,
        content_reference_bits: item.overstack_value,
        buff_src: f32_as_int(f9, i32::MIN as int, i32::MAX as int) as i32,
        buff_self: f32_as_int(f10, i32::MIN as int, i32::MAX as int) as i32,
        extra_number: item.overstack_value,
        extra_number_state: (item.pad % 256) as u8,
        npc: item.is_flanking == 0,
        player: item.is_shields == 0,
        is_break: item.is_offcycle > 0,
    }
}

/// A timed action of a skill timing row.
pub open spec fn skill_timing_of(item: EvtcCombatItem) -> SkillTimingRowFields {
    SkillTimingRowFields {
        action_byte: item.src_agent as u8,
        action: SkillAction::decode(item.src_agent as u8),
        at_millisecond: item.dst_agent,
    }
}

/// GUID fields of a GUID row.
pub open spec fn guid_fields_of(item: EvtcCombatItem) -> GuidEventFields {
    GuidEventFields {
        guid_first8: item.src_agent,
        guid_last8: item.dst_agent,
        content_id: item.skill_id,
    }
}

/// The GUID event of a row by its content kind; none for an unknown kind.
pub open spec fn guid_event_of(content: ContentLocal, f: GuidEventFields) -> Option<CombatEvent> {
    match content {
        ContentLocal::Effect => Some(CombatEvent::GuidEffect(f)),
        ContentLocal::Marker => Some(CombatEvent::GuidMarker(f)),
        ContentLocal::Skill => Some(CombatEvent::GuidSkill(f)),
        ContentLocal::Species => Some(CombatEvent::GuidSpecies(f)),
        ContentLocal::Team => Some(CombatEvent::GuidTeam(f)),
        ContentLocal::Emote => Some(CombatEvent::GuidEmote(f)),
        ContentLocal::Transformation => Some(CombatEvent::GuidTransformation(f)),
        ContentLocal::Unknown => None,
    }
}

/// Default duration of an effect GUID row: the buff damage field as a
/// 32-bit float converted to an integer, for builds that carry it; -1
/// otherwise.
pub open spec fn effect_default_duration(item: EvtcCombatItem, build: i32) -> i64 {
    if build >= EXTRA_DATA_IN_GUID_EVENTS {
        f32_as_int(item.buff_dmg as u32, i64::MIN as int, i64::MAX as int) as i64
    } else {
        -1i64
    }
}

/// Key of a World vs. World objective: the map id shifted 16 bits up plus
/// the objective id.
pub open spec fn wvw_key(map_id: i32, objective_id: i32) -> int {
    map_id * 65536 + objective_id
}

/// `idx` is the first objective with the key, or -1 when none has it.
pub open spec fn is_first_key(s: Seq<WvWObjectiveStatusEventFields>, key: int, idx: int) -> bool {
    &&& -1 <= idx < s.len()
    &&& forall|j: int| 0 <= j < s.len() && (idx == -1 || j < idx) ==> wvw_key(
        #[trigger] s[j].map_id,
        s[j].objective_id,
    ) != key
    &&& idx >= 0 ==> wvw_key(s[idx].map_id, s[idx].objective_id) == key
}

/// State changes that feed the metadata.
pub open spec fn is_meta_state(s: StateChange) -> bool {
    s == StateChange::InstanceStart || s == StateChange::SquadCombatStart || s
        == StateChange::SquadCombatEnd || s == StateChange::LogNPCUpdate || s
        == StateChange::Reward || s == StateChange::Language || s == StateChange::GWBuild || s
        == StateChange::ShardID || s == StateChange::PointOfView || s == StateChange::MapID || s
        == StateChange::MapChange || s == StateChange::FractalScale || s
        == StateChange::WvWTeams || s == StateChange::TickRate || s == StateChange::Tick || s
        == StateChange::Integrity || s == StateChange::AttackTarget || s == StateChange::Guild
        || s == StateChange::BuffInfo || s == StateChange::BuffFormula || s
        == StateChange::SkillInfo || s == StateChange::SkillTiming || s == StateChange::IDToGUID
        || s == StateChange::WvWObjectiveStatus
}

/// A metadata row's effect on the metadata and counters. Rows the metadata
/// ignores (a squad combat boundary without clocks, a build, point of view
/// or fractal scale row with a zero source, a GUID row of unknown kind) are
/// counted as dropped.
#[verifier::opaque]
pub open spec fn metadata_done(old: Collector, new: Collector, item: EvtcCombatItem) -> bool {
    let m = old.metadata;
    let n = new.metadata;
    let single = old.counts.bumped(CountKind::MetadataSingletons);
    let list = old.counts.bumped(CountKind::MetadataList);
    let dropped = old.counts.bumped(CountKind::DroppedByCs);
    &&& new.frame(&old, touched(false, true, false, true, false, false, false))
    &&& match item.state_change {
        StateChange::InstanceStart => n == MetaDataBucket {
            instance_start: Some(instance_start_of(item, old.log_start)),
            ..m
        } && new.counts == single,
        StateChange::SquadCombatStart => if item.value == 0 || item.buff_dmg == 0 {
            n == m && new.counts == dropped
        } else {
            let f = SquadCombatStartEventFields {
                date: log_date_of(item),
                log_type: squad_log_type_of(item.dst_agent),
            };
            let expired = match m.log_end_event {
                Some(e) => e.date.server_unix_time_stamp <= f.date.server_unix_time_stamp,
                None => false,
            };
            &&& n == MetaDataBucket {
                squad_combat_starts: n.squad_combat_starts,
                log_start_event: if m.log_start_event is None && !expired {
                    Some(f)
                } else {
                    m.log_start_event
                },
                ..m
            }
            &&& n.squad_combat_starts@ == m.squad_combat_starts@.push(f)
            &&& new.counts == list
        },
        StateChange::SquadCombatEnd => if item.value == 0 || item.buff_dmg == 0 {
            n == m && new.counts == dropped
        } else {
            let f = SquadCombatEndEventFields {
                date: log_date_of(item),
                by_pov_map_exit: item.dst_agent % 2 == 1,
            };
            &&& n == MetaDataBucket {
                squad_combat_ends: n.squad_combat_ends,
                log_end_event: Some(f),
                ..m
            }
            &&& n.squad_combat_ends@ == m.squad_combat_ends@.push(f)
            &&& new.counts == list
        },
        StateChange::LogNPCUpdate => {
            &&& n == MetaDataBucket { log_npc_updates: n.log_npc_updates, ..m }
            &&& n.log_npc_updates@ == m.log_npc_updates@.push(
                LogNpcUpdateEventFields {
                    date: log_date_of(item),
                    agent_id: item.src_agent as u16,
                    trigger_agent: item.dst_agent,
                    trigger_is_gadget: item.is_flanking > 0,
                },
            )
            &&& new.counts == list
        },
        StateChange::Reward => {
            &&& n == MetaDataBucket { rewards: n.rewards, ..m }
            &&& n.rewards@ == m.rewards@.push(
                RewardEventFields {
                    time: item.time,
                    reward_id: item.dst_agent,
                    reward_type: item.value,
                },
            )
            &&& new.counts == list
        },
        StateChange::Language => n == MetaDataBucket {
            language: Some(LanguageEventFields { language: Language::decode(item.src_agent as u8) }),
            ..m
        } && new.counts == single,
        StateChange::GWBuild => if item.src_agent == 0 {
            n == m && new.counts == dropped
        } else {
            n == MetaDataBucket {
                gw2_build: Some(Gw2BuildEventFields { build: item.src_agent }),
                ..m
            } && new.counts == single
        },
        StateChange::ShardID => n == MetaDataBucket {
            shard: Some(
                ShardEventFields {
                    shard_id: item.src_agent,
                    upper_shard_id: item.dst_agent,
                    user_world_id_0: item.value as u32,
                    user_world_id_1: item.buff_dmg as u32,
                    region: if item.value > 0 {
                        Region::of_shard(item.value as u32 as u64)
                    } else {
                        Region::Unknown
                    },
                },
            ),
            ..m
        } && new.counts == single,
        StateChange::PointOfView => if item.src_agent == 0 {
            n == m && new.counts == dropped
        } else {
            n == MetaDataBucket {
                point_of_view: Some(PointOfViewEventFields { time: item.time, pov: item.src_agent }),
                ..m
            } && new.counts == single
        },
        StateChange::MapID => n == MetaDataBucket {
            map_id: Some(
                MapIdEventFields {
                    time: item.time,
                    map_id: item.src_agent as i32,
                    map_type: item.dst_agent,
                },
            ),
            ..m
        } && new.counts == single,
        StateChange::MapChange => {
            &&& n == MetaDataBucket { map_changes: n.map_changes, ..m }
            &&& n.map_changes@ == m.map_changes@.push(
                MapChangeEventFields {
                    time: item.time,
                    map_id: item.src_agent as i32,
                    old_map_id: item.dst_agent as i32,
                    map_type: item.value,
                },
            )
            &&& new.counts == list
        },
        StateChange::FractalScale => if item.src_agent == 0 {
            n == m && new.counts == dropped
        } else {
            n == MetaDataBucket {
                fractal_scale: Some(FractalScaleEventFields { scale: item.src_agent as u8 }),
                ..m
            } && new.counts == single
        },
        StateChange::WvWTeams => n == MetaDataBucket { wvw_teams: Some(wvw_teams_of(item)), ..m }
            && new.counts == single,
        StateChange::TickRate => {
            &&& n == MetaDataBucket { tick_rates: n.tick_rates, ..m }
            &&& n.tick_rates@ == m.tick_rates@.push(
                TickRateEventFields { time: item.time, tick_rate: item.src_agent },
            )
            &&& new.counts == list
        },
        StateChange::Tick => {
            &&& n == MetaDataBucket { ticks: n.ticks, ..m }
            &&& n.ticks@ == m.ticks@.push(
                TickEventFields {
                    time: item.time,
                    tick_interpolated: item.src_agent,
                    tick_since_last_update: item.dst_agent,
                },
            )
            &&& new.counts == list
        },
        StateChange::Integrity => {
            &&& n == MetaDataBucket { errors: n.errors, ..m }
            &&& n.errors@.len() == m.errors@.len() + 1
            &&& n.errors@.drop_last() == m.errors@
            &&& n.errors@.last().message@ == lossy_utf8(error_bytes(item))
            &&& new.counts == list
        },
        StateChange::AttackTarget => {
            &&& n == MetaDataBucket { attack_targets: n.attack_targets, ..m }
            &&& n.attack_targets@ == m.attack_targets@.push(
                AttackTargetEventFields {
                    time: item.time,
                    src: item.dst_agent,
                    attack_target: item.src_agent,
                    targetable: item.value == 1,
                },
            )
            &&& new.counts == list
        },
        StateChange::Guild => {
            &&& n == MetaDataBucket { guilds: n.guilds, ..m }
            &&& n.guilds@.len() == m.guilds@.len() + 1
            &&& n.guilds@.drop_last() == m.guilds@
            &&& n.guilds@.last().src == item.src_agent
            &&& n.guilds@.last().guild_key_hex@ == guild_guid_of(item)
            &&& new.counts == list
        },
        StateChange::BuffInfo | StateChange::BuffFormula => {
            let id = item.skill_id;
            let had = m.buff_info_by_id@.contains_key(id);
            let prev = m.buff_info_by_id@[id];
            let e = n.buff_info_by_id@[id];
            &&& n == MetaDataBucket { buff_info_by_id: n.buff_info_by_id, ..m }
            &&& n.buff_info_by_id@.dom() == m.buff_info_by_id@.dom().insert(id)
            &&& forall|k: u32|
                k != id && #[trigger] m.buff_info_by_id@.contains_key(k) ==> n.buff_info_by_id@[k]
                    == m.buff_info_by_id@[k]
            &&& e.buff_id == if had {
                prev.buff_id
            } else {
                id
            }
            &&& if item.state_change == StateChange::BuffFormula {
                &&& e.info == if had {
                    prev.info
                } else {
                    None
                }
                &&& e.formulas@ == if had {
                    prev.formulas@
                } else {
                    Seq::empty()
                }.push(buff_formula_row_of(item))
            } else {
                &&& e.info == Some(buff_info_row_of(item))
                &&& e.formulas@ == if had {
                    prev.formulas@
                } else {
                    Seq::empty()
                }
            }
            &&& new.counts == list
        },
        StateChange::SkillInfo | StateChange::SkillTiming => {
            let id = item.skill_id;
            let had = m.skill_info_by_id@.contains_key(id);
            let prev = m.skill_info_by_id@[id];
            let e = n.skill_info_by_id@[id];
            let t = item.time as u64;
            &&& n == MetaDataBucket { skill_info_by_id: n.skill_info_by_id, ..m }
            &&& n.skill_info_by_id@.dom() == m.skill_info_by_id@.dom().insert(id)
            &&& forall|k: u32|
                k != id && #[trigger] m.skill_info_by_id@.contains_key(k)
                    ==> n.skill_info_by_id@[k] == m.skill_info_by_id@[k]
            &&& e.skill_id == if had {
                prev.skill_id
            } else {
                id
            }
            &&& if item.state_change == StateChange::SkillTiming {
                &&& e.timings@ == if had {
                    prev.timings@
                } else {
                    Seq::empty()
                }.push(skill_timing_of(item))
                &&& (e.recharge_bits, e.range0_bits, e.range1_bits, e.tooltip_time_bits) == if had {
                    (prev.recharge_bits, prev.range0_bits, prev.range1_bits, prev.tooltip_time_bits)
                } else {
                    (0u32, 0u32, 0u32, 0u32)
                }
            } else {
                &&& e.timings@ == if had {
                    prev.timings@
                } else {
                    Seq::empty()
                }
                &&& e.recharge_bits == t as u32
                &&& e.range0_bits == (t >> 32u64) as u32
                &&& e.range1_bits == item.src_agent as u32
                &&& e.tooltip_time_bits == (item.src_agent >> 32u64) as u32
            }
            &&& new.counts == list
        },
        StateChange::IDToGUID => {
            let content = ContentLocal::decode(item.overstack_value as u8);
            let f = guid_fields_of(item);
            match guid_event_of(content, f) {
                None => n == m && new.counts == dropped,
                Some(ev) => {
                    &&& n.id_to_guid@ == m.id_to_guid@.push(ev)
                    &&& new.counts == old.counts.bumped(CountKind::MetadataGuid)
                    &&& if content == ContentLocal::Effect {
                        let key = item.skill_id as i32 as i64;
                        let g = n.effect_guid_by_effect_id@[key];
                        &&& n == MetaDataBucket {
                            id_to_guid: n.id_to_guid,
                            effect_guid_by_effect_id: n.effect_guid_by_effect_id,
                            ..m
                        }
                        &&& n.effect_guid_by_effect_id@.dom()
                            == m.effect_guid_by_effect_id@.dom().insert(key)
                        &&& forall|k: i64|
                            k != key && #[trigger] m.effect_guid_by_effect_id@.contains_key(k)
                                ==> n.effect_guid_by_effect_id@[k]
                                == m.effect_guid_by_effect_id@[k]
                        &&& g.guid_hex@ == le_hex(f.guid_first8, 8) + le_hex(f.guid_last8, 8)
                        &&& g.default_duration == effect_default_duration(item, old.build)
                    } else {
                        n == MetaDataBucket { id_to_guid: n.id_to_guid, ..m }
                    }
                },
            }
        },
        StateChange::WvWObjectiveStatus => {
            let key = wvw_key(item.value, item.skill_id as i32);
            let s = m.wvw_objective_statuses@;
            let t = n.wvw_objective_statuses@;
            let owner = (item.buff_dmg as u32, item.time);
            &&& n == MetaDataBucket { wvw_objective_statuses: n.wvw_objective_statuses, ..m }
            &&& new.counts == list
            &&& exists|idx: int|
                is_first_key(s, key, idx) && if idx >= 0 {
                    &&& t.len() == s.len()
                    &&& forall|j: int| 0 <= j < s.len() && j != idx ==> #[trigger] t[j] == s[j]
                    &&& t[idx].map_id == s[idx].map_id
                    &&& t[idx].objective_id == s[idx].objective_id
                    &&& t[idx].auto_upgrade_progress == s[idx].auto_upgrade_progress
                    &&& t[idx].owners@ == s[idx].owners@.push(owner)
                } else {
                    &&& t.len() == s.len() + 1
                    &&& t.drop_last() == s
                    &&& t.last().map_id == item.value
                    &&& t.last().objective_id == item.skill_id as i32
                    &&& t.last().auto_upgrade_progress == item.pad
                    &&& t.last().owners@ == seq![owner]
                }
        },
        _ => false,
    }
}

fn log_date_fields(item: &EvtcCombatItem) -> (r: LogDateEventFields)
    ensures
        r == log_date_of(*item),
{
    LogDateEventFields {
        time: item.time,
        server_unix_time_stamp: item.value as u32,
        local_unix_time_stamp: item.buff_dmg as u32,
    }
}

fn wvw_teams_fields(item: &EvtcCombatItem) -> (r: WvWTeamsEventFields)
    ensures
        r == wvw_teams_of(*item),
{
    WvWTeamsEventFields {
        red_shard_id: item.src_agent as u32,
        blue_shard_id: (item.src_agent >> 32u64) as u32,
        green_shard_id: item.dst_agent as u32,
        red_team_id: (item.dst_agent >> 32u64) as u32,
        blue_team_id: item.value as u32,
        green_team_id: item.buff_dmg as u32,
    }
}

/// The message of an error row: its 32 bytes decoded as UTF-8, invalid
/// sequences replaced.
fn error_message(item: &EvtcCombatItem) -> (r: String)
    ensures
        r@ == lossy_utf8(error_bytes(*item)),
{
    let mut buf: Vec<u8> = Vec::new();
    push_le_bytes(&mut buf, item.time as u64, 8);
    push_le_bytes(&mut buf, item.src_agent, 8);
    push_le_bytes(&mut buf, item.dst_agent, 8);
    push_le_bytes(&mut buf, item.value as u32 as u64, 4);
    push_le_bytes(&mut buf, item.buff_dmg as u32 as u64, 4);
    assert(buf@ =~= error_bytes(*item));
    utf8_lossy(buf.as_slice())
}

/// The guild key of a guild row in 8-4-4-4-12 form.
fn guild_guid(item: &EvtcCombatItem) -> (r: String)
    ensures
        r@ == guild_guid_of(*item),
{
    let d = item.dst_agent;
    let v: u64 = item.value as u32 as u64;
    let b: u64 = item.buff_dmg as u32 as u64;
    let g1: Vec<u8> = vec![(d >> 24u64) as u8, (d >> 16u64) as u8, (d >> 8u64) as u8, (d >> 0u64) as u8];
    let g2: Vec<u8> = vec![(d >> 40u64) as u8, (d >> 32u64) as u8];
    let g3: Vec<u8> = vec![(d >> 56u64) as u8, (d >> 48u64) as u8];
    let mut g4: Vec<u8> = Vec::new();
    push_le_bytes(&mut g4, v, 2);
    let mut g5: Vec<u8> = vec![(v >> 16u64) as u8, (v >> 24u64) as u8];
    push_le_bytes(&mut g5, b, 4);
    proof {
        reveal_strlit("-");
        assert(g1@ =~= seq![byte_of(d, 3), byte_of(d, 2), byte_of(d, 1), byte_of(d, 0)]);
        assert(g2@ =~= seq![byte_of(d, 5), byte_of(d, 4)]);
        assert(g3@ =~= seq![byte_of(d, 7), byte_of(d, 6)]);
        assert(g5@ =~= seq![byte_of(v, 2), byte_of(v, 3)] + le_bytes(b, 4));
    }
    let out = push_bytes_hex(String::new(), g1.as_slice());
    let out = out.concat("-");
    let out = push_bytes_hex(out, g2.as_slice());
    let out = out.concat("-");
    let out = push_bytes_hex(out, g3.as_slice());
    let out = out.concat("-");
    let out = push_bytes_hex(out, g4.as_slice());
    let out = out.concat("-");
    let out = push_bytes_hex(out, g5.as_slice());
    assert(out@ =~= guild_guid_of(*item));
    out
}

fn buff_info_row(item: &EvtcCombatItem) -> (r: BuffInfoRowFields)
    ensures
        r == buff_info_row_of(*item),
{
    let pad = item.pad_bytes();
    BuffInfoRowFields {
        probably_invul: item.is_flanking > 0,
        probably_invert: item.is_shields > 0,
        category_byte: item.is_offcycle,
        stacking_type_byte: pad.b1,
        stacking_type: BuffStackType::from_byte(pad.b1),
        probably_resistance: pad.b2 > 0,
        max_stacks: item.src_master_instid,
        duration_cap: item.overstack_value,
    }
}

fn buff_formula_row(item: &EvtcCombatItem) -> (r: BuffFormulaRowFields)
    ensures
        r == buff_formula_row_of(*item),
{
    let t = item.time as u64;
    let f9: u32 = item.src_instid as u32 + item.dst_instid as u32 * 65536;
    let f10: u32 = item.src_master_instid as u32 + item.dst_master_instid as u32 * 65536;
    let pad = item.pad_bytes();
    BuffFormulaRowFields {
        formula_type: f32_bits_as_i32(t as u32),
        byte_attr1: f32_bits_as_u8((t >> 32u64) as u32),
        byte_attr2: f32_bits_as_u8(item.src_agent as u32),
        constant_offset_bits: (item.src_agent >> 32u64) as u32,
        level_offset_bits: item.dst_agent as u32,
        variable_bits: (item.dst_agent >> 32u64) as u32,
        trait_src: f32_bits_as_i32(item.value as u32),
        trait_self: f32_bits_as_i32(item.buff_dmg as u32),
        content_reference_bits: item.overstack_value,
        buff_src: f32_bits_as_i32(f9),
        buff_self: f32_bits_as_i32(f10),
        extra_number: item.overstack_value,
        extra_number_state: pad.b1,
        npc: item.is_flanking == 0,
        player: item.is_shields == 0,
        is_break: item.is_offcycle > 0,
    }
}

/// A buff info or formula row, merged into the buff's entry.
fn buff_info_merge(m: &mut MetaDataBucket, item: &EvtcCombatItem)
    requires
        item.state_change == StateChange::BuffInfo || item.state_change == StateChange::BuffFormula,
    ensures
        ({
            let id = item.skill_id;
            let had = old(m).buff_info_by_id@.contains_key(id);
            let prev = old(m).buff_info_by_id@[id];
            let e = final(m).buff_info_by_id@[id];
            &&& *final(m) == MetaDataBucket { buff_info_by_id: final(m).buff_info_by_id, ..*old(m) }
            &&& final(m).buff_info_by_id@.dom() == old(m).buff_info_by_id@.dom().insert(id)
            &&& forall|k: u32|
                k != id && #[trigger] old(m).buff_info_by_id@.contains_key(k)
                    ==> final(m).buff_info_by_id@[k] == old(m).buff_info_by_id@[k]
            &&& e.buff_id == if had {
                prev.buff_id
            } else {
                id
            }
            &&& if item.state_change == StateChange::BuffFormula {
                &&& e.info == if had {
                    prev.info
                } else {
                    None
                }
                &&& e.formulas@ == if had {
                    prev.formulas@
                } else {
                    Seq::empty()
                }.push(buff_formula_row_of(*item))
            } else {
                &&& e.info == Some(buff_info_row_of(*item))
                &&& e.formulas@ == if had {
                    prev.formulas@
                } else {
                    Seq::empty()
                }
            }
        }),
{
    let id = item.skill_id;
    let mut entry = match m.buff_info_by_id.remove(&id) {
        Some(e) => e,
        None => BuffInfoEventFields { buff_id: id, info: None, formulas: Vec::new() },
    };
    if item.state_change == StateChange::BuffFormula {
        entry.formulas.push(buff_formula_row(item));
    } else {
        entry.info = Some(buff_info_row(item));
    }
    m.buff_info_by_id.insert(id, entry);
}

/// A skill info or timing row, merged into the skill's entry.
fn skill_info_merge(m: &mut MetaDataBucket, item: &EvtcCombatItem)
    requires
        item.state_change == StateChange::SkillInfo || item.state_change == StateChange::SkillTiming,
    ensures
        ({
            let id = item.skill_id;
            let had = old(m).skill_info_by_id@.contains_key(id);
            let prev = old(m).skill_info_by_id@[id];
            let e = final(m).skill_info_by_id@[id];
            let t = item.time as u64;
            &&& *final(m) == MetaDataBucket { skill_info_by_id: final(m).skill_info_by_id, ..*old(m) }
            &&& final(m).skill_info_by_id@.dom() == old(m).skill_info_by_id@.dom().insert(id)
            &&& forall|k: u32|
                k != id && #[trigger] old(m).skill_info_by_id@.contains_key(k)
                    ==> final(m).skill_info_by_id@[k] == old(m).skill_info_by_id@[k]
            &&& e.skill_id == if had {
                prev.skill_id
            } else {
                id
            }
            &&& if item.state_change == StateChange::SkillTiming {
                &&& e.timings@ == if had {
                    prev.timings@
                } else {
                    Seq::empty()
                }.push(skill_timing_of(*item))
                &&& (e.recharge_bits, e.range0_bits, e.range1_bits, e.tooltip_time_bits) == if had {
                    (prev.recharge_bits, prev.range0_bits, prev.range1_bits, prev.tooltip_time_bits)
                } else {
                    (0u32, 0u32, 0u32, 0u32)
                }
            } else {
                &&& e.timings@ == if had {
                    prev.timings@
                } else {
                    Seq::empty()
                }
                &&& e.recharge_bits == t as u32
                &&& e.range0_bits == (t >> 32u64) as u32
                &&& e.range1_bits == item.src_agent as u32
                &&& e.tooltip_time_bits == (item.src_agent >> 32u64) as u32
            }
        }),
{
    let id = item.skill_id;
    let mut entry = match m.skill_info_by_id.remove(&id) {
        Some(e) => e,
        None => SkillInfoEventFields {
            skill_id: id,
            recharge_bits: 0,
            range0_bits: 0,
            range1_bits: 0,
            tooltip_time_bits: 0,
            timings: Vec::new(),
        },
    };
    if item.state_change == StateChange::SkillTiming {
        entry.timings.push(
            SkillTimingRowFields {
                action_byte: item.src_agent as u8,
                action: SkillAction::from_byte(item.src_agent as u8),
                at_millisecond: item.dst_agent,
            },
        );
    } else {
        let t = item.time as u64;
        entry.recharge_bits = t as u32;
        entry.range0_bits = (t >> 32u64) as u32;
        entry.range1_bits = item.src_agent as u32;
        entry.tooltip_time_bits = (item.src_agent >> 32u64) as u32;
    }
    m.skill_info_by_id.insert(id, entry);
}

/// A World vs. World objective row: the owner is added to the first
/// objective of the same key, or a new objective is added.
fn wvw_objective_merge(m: &mut MetaDataBucket, item: &EvtcCombatItem)
    ensures
        ({
            let key = wvw_key(item.value, item.skill_id as i32);
            let s = old(m).wvw_objective_statuses@;
            let t = final(m).wvw_objective_statuses@;
            let owner = (item.buff_dmg as u32, item.time);
            &&& *final(m) == MetaDataBucket {
                wvw_objective_statuses: final(m).wvw_objective_statuses,
                ..*old(m)
            }
            &&& exists|idx: int|
                is_first_key(s, key, idx) && if idx >= 0 {
                    &&& t.len() == s.len()
                    &&& forall|j: int| 0 <= j < s.len() && j != idx ==> #[trigger] t[j] == s[j]
                    &&& t[idx].map_id == s[idx].map_id
                    &&& t[idx].objective_id == s[idx].objective_id
                    &&& t[idx].auto_upgrade_progress == s[idx].auto_upgrade_progress
                    &&& t[idx].owners@ == s[idx].owners@.push(owner)
                } else {
                    &&& t.len() == s.len() + 1
                    &&& t.drop_last() == s
                    &&& t.last().map_id == item.value
                    &&& t.last().objective_id == item.skill_id as i32
                    &&& t.last().auto_upgrade_progress == item.pad
                    &&& t.last().owners@ == seq![owner]
                }
        }),
{
    let map_id = item.value;
    let objective_id = item.skill_id as i32;
    let key: i64 = map_id as i64 * 65536 + objective_id as i64;
    let ghost s = m.wvw_objective_statuses@;
    let n = m.wvw_objective_statuses.len();
    let mut i: usize = 0;
    while i < n
        invariant
            i <= n == s.len(),
            s == m.wvw_objective_statuses@,
            key == wvw_key(map_id, objective_id),
            forall|j: int| 0 <= j < i ==> wvw_key(#[trigger] s[j].map_id, s[j].objective_id) != key,
        ensures
            i <= n,
            forall|j: int| 0 <= j < i ==> wvw_key(#[trigger] s[j].map_id, s[j].objective_id) != key,
            i < n ==> wvw_key(s[i as int].map_id, s[i as int].objective_id) == key,
        decreases n - i,
    {
        if m.wvw_objective_statuses[i].key() == key {
            break;
        }
        i = i + 1;
    }
    let owner = (item.buff_dmg as u32, item.time);
    if i < n {
        assert(is_first_key(s, key as int, i as int));
        m.wvw_objective_statuses[i].owners.push(owner);
    } else {
        assert(is_first_key(s, key as int, -1));
        m.wvw_objective_statuses.push(
            WvWObjectiveStatusEventFields {
                map_id,
                objective_id,
                auto_upgrade_progress: item.pad,
                owners: vec![owner],
            },
        );
    }
}

/// A metadata row.
#[verifier::spinoff_prover]
#[verifier::rlimit(40)]
fn metadata_row(c: &mut Collector, item: &EvtcCombatItem)
    requires
        old(c).tally() < u64::MAX,
        is_meta_state(item.state_change),
    ensures
        metadata_done(*old(c), *final(c), *item),
        final(c).frame(old(c), touched(false, true, false, true, false, false, false)),
        final(c).tally() == old(c).tally() + 1,
{
    reveal(metadata_done);
    match item.state_change {
        StateChange::InstanceStart => {
            let ip = if item.value != 0 {
                let v = item.value as u32;
                Some([(v >> 24u32) as u8, (v >> 16u32) as u8, (v >> 8u32) as u8, v as u8])
            } else {
                None
            };
            c.counts.bump(CountKind::MetadataSingletons);
            c.metadata.instance_start = Some(
                InstanceStartEventFields {
                    time: item.time,
                    time_offset_from_instance_creation: c.log_start.wrapping_sub(
                        item.src_agent as i64,
                    ),
                    instance_ip: ip,
                },
            );
        },
        StateChange::SquadCombatStart => {
            if item.value == 0 || item.buff_dmg == 0 {
                c.counts.bump(CountKind::DroppedByCs);
                return ;
            }
            let fields = SquadCombatStartEventFields {
                date: log_date_fields(item),
                log_type: item.squad_combat_log_type(),
            };
            c.counts.bump(CountKind::MetadataList);
            c.metadata.squad_combat_starts.push(fields);
            let expired = match c.metadata.log_end_event {
                Some(end) => end.date.server_unix_time_stamp <= fields.date.server_unix_time_stamp,
                None => false,
            };
            if c.metadata.log_start_event.is_none() && !expired {
                c.metadata.log_start_event = Some(fields);
            }
        },
        StateChange::SquadCombatEnd => {
            if item.value == 0 || item.buff_dmg == 0 {
                c.counts.bump(CountKind::DroppedByCs);
                return ;
            }
            let fields = SquadCombatEndEventFields {
                date: log_date_fields(item),
                by_pov_map_exit: item.dst_agent % 2 == 1,
            };
            c.counts.bump(CountKind::MetadataList);
            c.metadata.log_end_event = Some(fields);
            c.metadata.squad_combat_ends.push(fields);
        },
        StateChange::LogNPCUpdate => {
            c.counts.bump(CountKind::MetadataList);
            c.metadata.log_npc_updates.push(
                LogNpcUpdateEventFields {
                    date: log_date_fields(item),
                    agent_id: item.src_agent as u16,
                    trigger_agent: item.dst_agent,
                    trigger_is_gadget: item.is_flanking > 0,
                },
            );
        },
        StateChange::Reward => {
            c.counts.bump(CountKind::MetadataList);
            c.metadata.rewards.push(
                RewardEventFields {
                    time: item.time,
                    reward_id: item.dst_agent,
                    reward_type: item.value,
                },
            );
        },
        StateChange::Language => {
            c.counts.bump(CountKind::MetadataSingletons);
            c.metadata.language = Some(
                LanguageEventFields { language: Language::from_byte(item.src_agent as u8) },
            );
        },
        StateChange::GWBuild => {
            if item.src_agent == 0 {
                c.counts.bump(CountKind::DroppedByCs);
                return ;
            }
            c.counts.bump(CountKind::MetadataSingletons);
            c.metadata.gw2_build = Some(Gw2BuildEventFields { build: item.src_agent });
        },
        StateChange::ShardID => {
            let region = if item.value > 0 {
                Region::from_shard_id(item.value as u32 as u64)
            } else {
                Region::Unknown
            };
            c.counts.bump(CountKind::MetadataSingletons);
            c.metadata.shard = Some(
                ShardEventFields {
                    shard_id: item.src_agent,
                    upper_shard_id: item.dst_agent,
                    user_world_id_0: item.value as u32,
                    user_world_id_1: item.buff_dmg as u32,
                    region,
                },
            );
        },
        StateChange::PointOfView => {
            if item.src_agent == 0 {
                c.counts.bump(CountKind::DroppedByCs);
                return ;
            }
            c.counts.bump(CountKind::MetadataSingletons);
            c.metadata.point_of_view = Some(
                PointOfViewEventFields { time: item.time, pov: item.src_agent },
            );
        },
        StateChange::MapID => {
            c.counts.bump(CountKind::MetadataSingletons);
            c.metadata.map_id = Some(
                MapIdEventFields {
                    time: item.time,
                    map_id: item.src_agent as i32,
                    map_type: item.dst_agent,
                },
            );
        },
        StateChange::MapChange => {
            c.counts.bump(CountKind::MetadataList);
            c.metadata.map_changes.push(
                MapChangeEventFields {
                    time: item.time,
                    map_id: item.src_agent as i32,
                    old_map_id: item.dst_agent as i32,
                    map_type: item.value,
                },
            );
        },
        StateChange::FractalScale => {
            if item.src_agent == 0 {
                c.counts.bump(CountKind::DroppedByCs);
                return ;
            }
            c.counts.bump(CountKind::MetadataSingletons);
            c.metadata.fractal_scale = Some(
                FractalScaleEventFields { scale: item.src_agent as u8 },
            );
        },
        StateChange::WvWTeams => {
            c.counts.bump(CountKind::MetadataSingletons);
            c.metadata.wvw_teams = Some(wvw_teams_fields(item));
        },
        StateChange::TickRate => {
            c.counts.bump(CountKind::MetadataList);
            c.metadata.tick_rates.push(
                TickRateEventFields { time: item.time, tick_rate: item.src_agent },
            );
        },
        StateChange::Tick => {
            c.counts.bump(CountKind::MetadataList);
            c.metadata.ticks.push(
                TickEventFields {
                    time: item.time,
                    tick_interpolated: item.src_agent,
                    tick_since_last_update: item.dst_agent,
                },
            );
        },
        StateChange::Integrity => {
            c.counts.bump(CountKind::MetadataList);
            let message = error_message(item);
            c.metadata.errors.push(ErrorEventFields { message });
            assert(c.metadata.errors@.drop_last() =~= old(c).metadata.errors@);
        },
        StateChange::AttackTarget => {
            c.counts.bump(CountKind::MetadataList);
            c.metadata.attack_targets.push(
                AttackTargetEventFields {
                    time: item.time,
                    src: item.dst_agent,
                    attack_target: item.src_agent,
                    targetable: item.value == 1,
                },
            );
        },
        StateChange::Guild => {
            c.counts.bump(CountKind::MetadataList);
            let guild_key_hex = guild_guid(item);
            c.metadata.guilds.push(GuildEventFields { src: item.src_agent, guild_key_hex });
            assert(c.metadata.guilds@.drop_last() =~= old(c).metadata.guilds@);
        },
        StateChange::BuffInfo | StateChange::BuffFormula => {
            buff_info_merge(&mut c.metadata, item);
            c.counts.bump(CountKind::MetadataList);
        },
        StateChange::SkillInfo | StateChange::SkillTiming => {
            skill_info_merge(&mut c.metadata, item);
            c.counts.bump(CountKind::MetadataList);
        },
        StateChange::IDToGUID => {
            let content = ContentLocal::from_byte(item.overstack_value as u8);
            let fields = GuidEventFields {
                guid_first8: item.src_agent,
                guid_last8: item.dst_agent,
                content_id: item.skill_id,
            };
            let evt = match content {
                ContentLocal::Effect => {
                    let default_duration: i64 = if c.build >= EXTRA_DATA_IN_GUID_EVENTS {
                        f32_bits_as_i64(item.buff_dmg as u32)
                    } else {
                        -1
                    };
                    let guid_hex = fields.guid_hex();
                    c.metadata.effect_guid_by_effect_id.insert(
                        item.skill_id as i32 as i64,
                        EffectGuidInfo { guid_hex, default_duration },
                    );
                    CombatEvent::GuidEffect(fields)
                },
                ContentLocal::Marker => CombatEvent::GuidMarker(fields),
                ContentLocal::Skill => CombatEvent::GuidSkill(fields),
                ContentLocal::Species => CombatEvent::GuidSpecies(fields),
                ContentLocal::Team => CombatEvent::GuidTeam(fields),
                ContentLocal::Emote => CombatEvent::GuidEmote(fields),
                ContentLocal::Transformation => CombatEvent::GuidTransformation(fields),
                ContentLocal::Unknown => {
                    c.counts.bump(CountKind::DroppedByCs);
                    return ;
                },
            };
            c.counts.bump(CountKind::MetadataGuid);
            c.metadata.id_to_guid.push(evt);
        },
        _ => {
            wvw_objective_merge(&mut c.metadata, item);
            c.counts.bump(CountKind::MetadataList);
        },
    }
}


/// The duration bytes of an effect row (row offsets 48 to 51), read
/// little-endian.
pub open spec fn effect_duration_raw(item: EvtcCombatItem) -> u32 {
    (item.iff_raw as u32 + item.buff as u32 * 256 + item.result as u32 * 65536
        + item.activation_raw as u32 * 16777216) as u32
}

/// The tracking id bytes of an older effect row (row offsets 52 to 55),
/// read little-endian.
pub open spec fn effect_tracking_raw(item: EvtcCombatItem) -> u32 {
    (item.buff_remove_raw as u32 + item.is_ninety as u32 * 256 + item.is_fifty as u32 * 65536
        + item.is_moving as u32 * 16777216) as u32
}

/// Duration of an effect start: the row's duration, or when it is 0 and
/// `fallback` holds, the positive default duration of the effect's GUID,
/// at most `i32::MAX`.
pub open spec fn effect_duration(
    item: EvtcCombatItem,
    guids: Map<i64, EffectGuidInfo>,
    fallback: bool,
) -> i64 {
    let d = effect_duration_raw(item) as i64;
    let eid = item.skill_id as i32 as i64;
    if fallback && d == 0 && guids.contains_key(eid) && guids[eid].default_duration > 0 {
        if guids[eid].default_duration > i32::MAX {
            i32::MAX as i64
        } else {
            guids[eid].default_duration
        }
    } else {
        d
    }
}

/// The start tracked under a non-zero tracking id.
pub open spec fn tracked_start(starts: Map<u32, usize>, tracking: u32) -> Option<usize> {
    if tracking != 0 && starts.contains_key(tracking) {
        Some(starts[tracking])
    } else {
        None
    }
}

/// The events with the effect start at `at` ended at `t`, when it is an
/// effect without an end yet.
pub open spec fn end_effect_at(events: Seq<CombatEvent>, at: Option<usize>, t: i64) -> Seq<CombatEvent> {
    match at {
        Some(i) => if i < events.len() {
            match events[i as int] {
                CombatEvent::Effect(f) => if f.end_time is None {
                    events.update(i as int, CombatEvent::Effect(EffectEventFields { end_time: Some(t), ..f }))
                } else {
                    events
                },
                _ => events,
            }
        } else {
            events
        },
        None => events,
    }
}

/// The tracking map with `tracking` pointing at `idx`, when the id is not 0.
pub open spec fn track(starts: Map<u32, usize>, tracking: u32, idx: usize) -> Map<u32, usize> {
    if tracking != 0 {
        starts.insert(tracking, idx)
    } else {
        starts
    }
}

pub open spec fn is_effect_state(s: StateChange) -> bool {
    s == StateChange::Effect_45 || s == StateChange::Effect_51 || s
        == StateChange::EffectGroundCreate || s == StateChange::EffectGroundRemove || s
        == StateChange::EffectAgentCreate || s == StateChange::EffectAgentRemove
}

/// An effect row's effect on the events and the tracking maps. Create rows
/// on a moving platform are left out; end rows end the last start of their
/// tracking id once.
#[verifier::opaque]
pub open spec fn effect_done(old: Collector, new: Collector, item: EvtcCombatItem) -> bool {
    let guids = old.metadata.effect_guid_by_effect_id@;
    let nothing = new.frame(&old, touched(false, false, false, false, false, false, false));
    let ends = new.frame(&old, touched(true, false, false, false, false, false, false));
    let grows = new.frame(&old, touched(true, false, false, false, false, false, true));
    match item.state_change {
        StateChange::EffectGroundRemove => ends && new.events@ == end_effect_at(
            old.events@,
            tracked_start(old.split_ground_by_tracking@, item.pad),
            item.time,
        ),
        StateChange::EffectAgentRemove => ends && new.events@ == end_effect_at(
            old.events@,
            tracked_start(old.split_agent_by_tracking@, item.pad),
            item.time,
        ),
        StateChange::EffectGroundCreate | StateChange::EffectAgentCreate => {
            let is_agent = item.state_change == StateChange::EffectAgentCreate;
            if item.is_flanking > 0 {
                nothing
            } else {
                let d = item.dst_agent;
                let f = EffectEventFields {
                    time: item.time,
                    src: item.src_agent,
                    dst: if is_agent {
                        d
                    } else {
                        0
                    },
                    effect_id: item.skill_id,
                    duration: effect_duration(item, guids, true),
                    end_time: None,
                    tracking_id: item.pad,
                    cbts45: false,
                    position: if is_agent {
                        EffectPosition::OnAgent
                    } else {
                        EffectPosition::Whole {
                            x: ((d as i16) * 10) as i32,
                            y: (((d >> 16u64) as i16) * 10) as i32,
                            z: (((d >> 32u64) as i16) * 10) as i32,
                        }
                    },
                };
                let idx = old.events@.len() as usize;
                &&& grows
                &&& new.events@ == old.events@.push(CombatEvent::Effect(f))
                &&& new.effect_starts_by_tracking == old.effect_starts_by_tracking
                &&& new.split_ground_by_tracking@ == if is_agent {
                    old.split_ground_by_tracking@
                } else {
                    track(old.split_ground_by_tracking@, item.pad, idx)
                }
                &&& new.split_agent_by_tracking@ == if is_agent {
                    track(old.split_agent_by_tracking@, item.pad, idx)
                } else {
                    old.split_agent_by_tracking@
                }
            }
        },
        StateChange::Effect_45 | StateChange::Effect_51 => {
            let cbts45 = item.state_change == StateChange::Effect_45;
            let tracking = effect_tracking_raw(item);
            if item.skill_id == 0 {
                if cbts45 {
                    nothing
                } else {
                    ends && new.events@ == end_effect_at(
                        old.events@,
                        tracked_start(old.effect_starts_by_tracking@, tracking),
                        item.time,
                    )
                }
            } else if item.is_flanking > 0 {
                nothing
            } else {
                let f = EffectEventFields {
                    time: item.time,
                    src: item.src_agent,
                    dst: item.dst_agent,
                    effect_id: item.skill_id,
                    duration: effect_duration(item, guids, !cbts45),
                    end_time: None,
                    tracking_id: if cbts45 {
                        0
                    } else {
                        tracking
                    },
                    cbts45,
                    position: if item.dst_agent != 0 {
                        EffectPosition::OnAgent
                    } else {
                        EffectPosition::Bits {
                            x: item.value as u32,
                            y: item.buff_dmg as u32,
                            z: item.overstack_value,
                        }
                    },
                };
                let idx = old.events@.len() as usize;
                &&& grows
                &&& new.events@ == old.events@.push(CombatEvent::Effect(f))
                &&& new.split_ground_by_tracking == old.split_ground_by_tracking
                &&& new.split_agent_by_tracking == old.split_agent_by_tracking
                &&& new.effect_starts_by_tracking@ == if cbts45 {
                    old.effect_starts_by_tracking@
                } else {
                    track(old.effect_starts_by_tracking@, tracking, idx)
                }
            }
        },
        _ => false,
    }
}

fn lookup_start(starts: &BTreeMap<u32, usize>, tracking: u32) -> (r: Option<usize>)
    ensures
        r == tracked_start(starts@, tracking),
{
    if tracking == 0 {
        return None;
    }
    match starts.get(&tracking) {
        Some(i) => Some(*i),
        None => None,
    }
}

/// Ends the effect start at `at`, when it is an effect without an end yet.
fn end_effect(events: &mut Vec<CombatEvent>, at: Option<usize>, t: i64)
    ensures
        final(events)@ == end_effect_at(old(events)@, at, t),
{
    if let Some(i) = at {
        if i < events.len() {
            let updated = match &events[i] {
                CombatEvent::Effect(f) => if f.end_time.is_none() {
                    Some(EffectEventFields { end_time: Some(t), ..*f })
                } else {
                    None
                },
                _ => None,
            };
            if let Some(nf) = updated {
                events.set(i, CombatEvent::Effect(nf));
            }
        }
    }
}

fn effect_duration_of(item: &EvtcCombatItem, guids: &BTreeMap<i64, EffectGuidInfo>, fallback: bool) -> (r: i64)
    ensures
        r == effect_duration(*item, guids@, fallback),
{
    let raw: u32 = item.iff_raw as u32 + item.buff as u32 * 256 + item.result as u32 * 65536
        + item.activation_raw as u32 * 16777216;
    let d = raw as i64;
    if fallback && d == 0 {
        let eid = item.skill_id as i32 as i64;
        match guids.get(&eid) {
            Some(info) => {
                if info.default_duration > 0 {
                    if info.default_duration > i32::MAX as i64 {
                        return i32::MAX as i64;
                    } else {
                        return info.default_duration;
                    }
                }
            },
            None => {},
        }
    }
    d
}

fn track_start(starts: &mut BTreeMap<u32, usize>, tracking: u32, idx: usize)
    ensures
        final(starts)@ == track(old(starts)@, tracking, idx),
{
    if tracking != 0 {
        starts.insert(tracking, idx);
    }
}

/// An effect row.
#[verifier::spinoff_prover]
#[verifier::rlimit(40)]
fn dispatch_effect(c: &mut Collector, item: &EvtcCombatItem)
    requires
        is_effect_state(item.state_change),
        old(c).tracking_inside(),
    ensures
        effect_done(*old(c), *final(c), *item),
        final(c).frame(old(c), touched(true, false, false, false, false, false, true)),
        final(c).tracking_inside(),
        final(c).tally() == old(c).tally(),
        old(c).events@.len() <= final(c).events@.len() <= old(c).events@.len() + 1,
{
    reveal(effect_done);
    match item.state_change {
        StateChange::EffectGroundRemove => {
            let at = lookup_start(&c.split_ground_by_tracking, item.pad);
            end_effect(&mut c.events, at, item.time);
            return ;
        },
        StateChange::EffectAgentRemove => {
            let at = lookup_start(&c.split_agent_by_tracking, item.pad);
            end_effect(&mut c.events, at, item.time);
            return ;
        },
        StateChange::EffectGroundCreate | StateChange::EffectAgentCreate => {
            let is_agent = item.state_change == StateChange::EffectAgentCreate;
            let duration = effect_duration_of(item, &c.metadata.effect_guid_by_effect_id, true);
            if item.is_flanking > 0 {
                return ;
            }
            let d = item.dst_agent;
            let position = if is_agent {
                EffectPosition::OnAgent
            } else {
                EffectPosition::Whole {
                    x: (d as i16) as i32 * 10,
                    y: ((d >> 16u64) as i16) as i32 * 10,
                    z: ((d >> 32u64) as i16) as i32 * 10,
                }
            };
            let idx = c.events.len();
            c.events.push(
                CombatEvent::Effect(
                    EffectEventFields {
                        time: item.time,
                        src: item.src_agent,
                        dst: if is_agent {
                            d
                        } else {
                            0
                        },
                        effect_id: item.skill_id,
                        duration,
                        end_time: None,
                        tracking_id: item.pad,
                        cbts45: false,
                        position,
                    },
                ),
            );
            if is_agent {
                track_start(&mut c.split_agent_by_tracking, item.pad, idx);
            } else {
                track_start(&mut c.split_ground_by_tracking, item.pad, idx);
            }
            return ;
        },
        _ => {},
    }
    let cbts45 = item.state_change == StateChange::Effect_45;
    let tracking: u32 = item.buff_remove_raw as u32 + item.is_ninety as u32 * 256
        + item.is_fifty as u32 * 65536 + item.is_moving as u32 * 16777216;
    if item.skill_id == 0 {
        if !cbts45 {
            let at = lookup_start(&c.effect_starts_by_tracking, tracking);
            end_effect(&mut c.events, at, item.time);
        }
        return ;
    }
    let duration = effect_duration_of(item, &c.metadata.effect_guid_by_effect_id, !cbts45);
    if item.is_flanking > 0 {
        return ;
    }
    let position = if item.dst_agent != 0 {
        EffectPosition::OnAgent
    } else {
        EffectPosition::Bits {
            x: item.value as u32,
            y: item.buff_dmg as u32,
            z: item.overstack_value,
        }
    };
    let idx = c.events.len();
    c.events.push(
        CombatEvent::Effect(
            EffectEventFields {
                time: item.time,
                src: item.src_agent,
                dst: item.dst_agent,
                effect_id: item.skill_id,
                duration,
                end_time: None,
                tracking_id: if cbts45 {
                    0
                } else {
                    tracking
                },
                cbts45,
                position,
            },
        ),
    );
    if !cbts45 {
        track_start(&mut c.effect_starts_by_tracking, tracking, idx);
    }
}


/// Rows counted as unsupported, and the kind they count as.
pub open spec fn unsupported_kind_of(s: StateChange) -> Option<UnsupportedEventKind> {
    match s {
        StateChange::Marker => Some(UnsupportedEventKind::Marker),
        StateChange::SquadMarker => Some(UnsupportedEventKind::SquadMarker),
        StateChange::Transformation => Some(UnsupportedEventKind::Transformation),
        StateChange::MissileLaunch | StateChange::MissileRemove => Some(
            UnsupportedEventKind::Missile,
        ),
        StateChange::GadgetAnimation => Some(UnsupportedEventKind::GadgetAnimation),
        StateChange::GadgetCaptureOutlineShow | StateChange::GadgetCaptureSplitPercent
        | StateChange::GadgetCaptureOutlineHide
        | StateChange::GadgetCaptureOutlinePoint => Some(UnsupportedEventKind::GadgetCapture),
        StateChange::GadgetNameVisible | StateChange::EffectMissileCreate
        | StateChange::RuleSet => Some(UnsupportedEventKind::IgnoredByCs),
        _ => None,
    }
}

/// What a state change row does to the factory state.
pub open spec fn state_change_done(old: Collector, new: Collector, item: EvtcCombatItem) -> bool {
    let s = item.state_change;
    if is_simple_state(s) {
        let o = simple_outcome(item, old.build);
        &&& new.events@ == old.events@ + outcome_events(o)
        &&& new.counts == outcome_counts(old.counts, o)
        &&& new.frame(&old, touched(true, true, false, false, false, false, false))
    } else if s == StateChange::Targetable {
        targetable_done(old, new, item)
    } else if s == StateChange::StealthChange {
        if item.dst_agent < 2 {
            visibility_done(old, new, item, item.dst_agent == 1)
        } else {
            new.frame(&old, touched(false, false, false, false, false, false, false))
        }
    } else if is_meta_state(s) {
        metadata_done(old, new, item)
    } else if is_effect_state(s) {
        effect_done(old, new, item)
    } else if s == StateChange::MissileCreate {
        &&& new.events@ == old.events@.push(
            CombatEvent::Missile(
                MissileEventFields { time: item.time, src: item.src_agent, skill_id: item.skill_id },
            ),
        )
        &&& new.frame(&old, touched(true, false, false, false, false, false, false))
    } else {
        match unsupported_kind_of(s) {
            Some(k) => {
                &&& new.unsupported == old.unsupported.bumped(k)
                &&& new.frame(&old, touched(false, false, true, false, false, false, false))
            },
            None => {
                &&& new.counts == old.counts.bumped(CountKind::DroppedByCs)
                &&& new.frame(&old, touched(false, true, false, false, false, false, false))
            },
        }
    }
}

/// A state change row: a status, buff stack or movement event, a
/// targetability or visibility change, metadata, an effect, a missile, an
/// unsupported row, or a dropped one.
#[verifier::spinoff_prover]
#[verifier::rlimit(50)]
pub fn dispatch_state_change(c: &mut Collector, item: &EvtcCombatItem)
    requires
        old(c).tally() + 1 < u64::MAX,
        old(c).tracking_inside(),
    ensures
        state_change_done(*old(c), *final(c), *item),
        final(c).build == old(c).build,
        final(c).log_start == old(c).log_start,
        final(c).generic_breakbar_id == old(c).generic_breakbar_id,
        final(c).cast_rows == old(c).cast_rows,
        final(c).tally() <= old(c).tally() + 2,
        final(c).tracking_inside(),
        old(c).events@.len() <= final(c).events@.len() <= old(c).events@.len() + 2,
{
    let s = item.state_change;
    match s {
        StateChange::EnterCombat
        | StateChange::ExitCombat
        | StateChange::ChangeUp
        | StateChange::ChangeDead
        | StateChange::ChangeDown
        | StateChange::Spawn
        | StateChange::Despawn
        | StateChange::HealthUpdate
        | StateChange::BarrierUpdate
        | StateChange::MaxHealthUpdate
        | StateChange::TeamChange
        | StateChange::BreakbarState
        | StateChange::BreakbarPercent
        | StateChange::Glider
        | StateChange::Last90BeforeDown
        | StateChange::Position
        | StateChange::Rotation
        | StateChange::Velocity
        | StateChange::Teleport
        | StateChange::WeaponSwap
        | StateChange::StackActive
        | StateChange::StackDeactive
        | StateChange::StunBreak => {
            let o = simple_row(item, c.build);
            c.record(o);
        },
        StateChange::Targetable => {
            targetable_row(c, item);
        },
        StateChange::StealthChange => {
            if item.dst_agent < 2 {
                push_visibility(c, item, item.dst_agent == 1);
            }
        },
        StateChange::InstanceStart
        | StateChange::SquadCombatStart
        | StateChange::SquadCombatEnd
        | StateChange::LogNPCUpdate
        | StateChange::Reward
        | StateChange::Language
        | StateChange::GWBuild
        | StateChange::ShardID
        | StateChange::PointOfView
        | StateChange::MapID
        | StateChange::MapChange
        | StateChange::FractalScale
        | StateChange::WvWTeams
        | StateChange::TickRate
        | StateChange::Tick
        | StateChange::Integrity
        | StateChange::AttackTarget
        | StateChange::Guild
        | StateChange::BuffInfo
        | StateChange::BuffFormula
        | StateChange::SkillInfo
        | StateChange::SkillTiming
        | StateChange::IDToGUID
        | StateChange::WvWObjectiveStatus => {
            metadata_row(c, item);
        },
        StateChange::Effect_45
        | StateChange::Effect_51
        | StateChange::EffectGroundCreate
        | StateChange::EffectGroundRemove
        | StateChange::EffectAgentCreate
        | StateChange::EffectAgentRemove => {
            dispatch_effect(c, item);
        },
        StateChange::MissileCreate => {
            c.events.push(
                CombatEvent::Missile(
                    MissileEventFields {
                        time: item.time,
                        src: item.src_agent,
                        skill_id: item.skill_id,
                    },
                ),
            );
        },
        StateChange::Marker => c.unsupported.bump(UnsupportedEventKind::Marker),
        StateChange::SquadMarker => c.unsupported.bump(UnsupportedEventKind::SquadMarker),
        StateChange::Transformation => c.unsupported.bump(UnsupportedEventKind::Transformation),
        StateChange::MissileLaunch | StateChange::MissileRemove => c.unsupported.bump(
            UnsupportedEventKind::Missile,
        ),
        StateChange::GadgetAnimation => c.unsupported.bump(UnsupportedEventKind::GadgetAnimation),
        StateChange::GadgetCaptureOutlineShow
        | StateChange::GadgetCaptureSplitPercent
        | StateChange::GadgetCaptureOutlineHide
        | StateChange::GadgetCaptureOutlinePoint => c.unsupported.bump(
            UnsupportedEventKind::GadgetCapture,
        ),
        StateChange::GadgetNameVisible
        | StateChange::EffectMissileCreate
        | StateChange::RuleSet => c.unsupported.bump(UnsupportedEventKind::IgnoredByCs),
        _ => c.counts.bump(CountKind::DroppedByCs),
    }
}

} // verus!
