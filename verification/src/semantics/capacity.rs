//! How many stacks a simulator holds: a full simulator evicts or overstacks
//! rather than grow, so no command and no passing of time takes it past
//! what its stacking logic holds.

use vstd::prelude::*;
use crate::semantics::sim::{
    SimConfig, SimModel, SimCmd, StackModel, StackLogic, config_ok, is_full_spec,
    heal_of, heal_insert_pos, heal_sort, ovr_index, totals, total_of, add_by_logic_spec,
    lowest_index, find_lowest_spec, activate_uid_spec, add_inner_spec, activate_spec,
    remove_all_spec, extend_spec, fresh_stack, distances, dur_step, update_duration_spec, keep_live, int_step,
    update_intensity_spec, update_spec, apply_spec, run_cmds, simulate_spec, stack_weight,
    min_duration, shift_all,
    lemma_argmin_bounds, lemma_index_of_uid_bound, lemma_index_of_stack_id_bound,
    lemma_index_of_removal_bound, lemma_dur_step_weight, lemma_int_step_weight,
};

verus! {

/// Whether `s` has no more stacks than the logic of `c` holds: one under
/// force logic, the capacity under the other logics.
pub open spec fn within_capacity(c: SimConfig, s: Seq<StackModel<u32>>) -> bool {
    if c.logic == StackLogic::Force {
        s.len() <= 1
    } else {
        s.len() <= c.capacity
    }
}

/// Configurations whose capacity bounds the stacks: a valid configuration
/// whose capacity is not negative (force logic holds one stack whatever its
/// capacity).
pub open spec fn capacity_ok(c: SimConfig) -> bool {
    &&& config_ok(c)
    &&& (c.logic != StackLogic::Force ==> c.capacity >= 0)
}

proof fn lemma_heal_insert_pos_bound(sorted: Seq<StackModel<u32>>, table: Seq<(u32, u16)>, k: u16)
    ensures
        0 <= heal_insert_pos(sorted, table, k) <= sorted.len(),
    decreases sorted.len(),
{
    if sorted.len() > 0 && !(heal_of(table, sorted[0].seed_src) < k) {
        lemma_heal_insert_pos_bound(sorted.drop_first(), table, k);
    }
}

proof fn lemma_heal_sort_len(s: Seq<StackModel<u32>>, table: Seq<(u32, u16)>)
    ensures
        heal_sort(s, table).len() == s.len(),
    decreases s.len(),
{
    if s.len() > 0 {
        lemma_heal_sort_len(s.drop_last(), table);
        let sorted = heal_sort(s.drop_last(), table);
        lemma_heal_insert_pos_bound(sorted, table, heal_of(table, s.last().seed_src));
    }
}

proof fn lemma_ovr_index_bound(tot: Seq<i64>, t: i64, min: int, max: int)
    requires
        0 <= min <= max,
    ensures
        min <= ovr_index(tot, t, min, max) <= max + 1,
    decreases max - min,
{
    if !(tot[min] > t) && !(tot[max] < t) && !(min > max) {
        let mid = (min + max) / 2;
        if t == tot[mid] {
        } else if t < tot[mid] {
            if mid > min {
                lemma_ovr_index_bound(tot, t, min, mid - 1);
            }
        } else {
            if mid < max {
                lemma_ovr_index_bound(tot, t, mid + 1, max);
            }
        }
    }
}

proof fn lemma_add_by_logic_len(
    c: SimConfig,
    no_sort: bool,
    stacks: Seq<StackModel<u32>>,
    to_add: StackModel<u32>,
)
    ensures
        add_by_logic_spec(c, no_sort, stacks, to_add).len() == stacks.len() + 1,
{
    if c.logic == StackLogic::Healing && !no_sort {
        lemma_heal_sort_len(stacks.push(to_add), c.healing);
    }
    if c.logic == StackLogic::Override && stacks.len() > 0 {
        lemma_ovr_index_bound(totals(stacks), total_of(to_add), 0, stacks.len() - 1);
    }
}

proof fn lemma_activate_uid_len(c: SimConfig, s: Seq<StackModel<u32>>, uid: u64)
    ensures
        activate_uid_spec(c, s, uid).len() == s.len(),
{
    lemma_index_of_uid_bound(s, uid);
}

/// The stacks of a full simulator after an eviction keep their number.
proof fn lemma_find_lowest_len(
    c: SimConfig,
    st: SimModel,
    to_add: StackModel<u32>,
    overriden_duration: i64,
    overriden_stack_id: u64,
)
    requires
        capacity_ok(c),
        is_full_spec(c, st.stacks),
    ensures
        find_lowest_spec(c, st, to_add, overriden_duration, overriden_stack_id) matches Some(s2)
            ==> s2.stacks.len() == st.stacks.len(),
{
    let s = st.stacks;
    if c.logic == StackLogic::Queue {
        lemma_argmin_bounds(totals(s), 1, s.len() as int);
    }
    if c.logic == StackLogic::Healing {
        lemma_index_of_stack_id_bound(s, overriden_stack_id);
        lemma_argmin_bounds(distances(s, overriden_duration), 0, s.len() as int);
    }
    match lowest_index(c, s, overriden_duration, overriden_stack_id) {
        Some(i) => {
            assert(0 <= i < s.len());
            let rest = s.remove(i);
            lemma_add_by_logic_len(c, st.no_sort, rest, StackModel { stack_id: 0, ..to_add });
        },
        None => {},
    }
}

proof fn lemma_add_inner_within(
    c: SimConfig,
    st: SimModel,
    to_add: StackModel<u32>,
    added_active: bool,
    overriden_duration: i64,
    overriden_stack_id: u64,
)
    requires
        capacity_ok(c),
        within_capacity(c, st.stacks),
    ensures
        within_capacity(
            c,
            add_inner_spec(c, st, to_add, added_active, overriden_duration, overriden_stack_id).stacks,
        ),
{
    lemma_add_by_logic_len(c, st.no_sort, st.stacks, to_add);
    let s1 = if !is_full_spec(c, st.stacks) {
        add_by_logic_spec(c, st.no_sort, st.stacks, to_add)
    } else {
        lemma_find_lowest_len(c, st, to_add, overriden_duration, overriden_stack_id);
        match find_lowest_spec(c, st, to_add, overriden_duration, overriden_stack_id) {
            Some(s2) => s2.stacks,
            None => st.stacks,
        }
    };
    assert(within_capacity(c, s1));
    lemma_activate_uid_len(c, s1, to_add.uid);
}

proof fn lemma_activate_len(c: SimConfig, st: SimModel, stack_id: u64)
    ensures
        activate_spec(c, st, stack_id).stacks.len() <= st.stacks.len(),
{
    lemma_index_of_stack_id_bound(st.stacks, stack_id);
}

proof fn lemma_extend_within(
    c: SimConfig,
    st: SimModel,
    extension: i64,
    old_value: i64,
    src: u32,
    start: i64,
    stack_id: u64,
)
    requires
        capacity_ok(c),
        within_capacity(c, st.stacks),
    ensures
        within_capacity(c, extend_spec(c, st, extension, old_value, src, start, stack_id).stacks),
{
    let value = old_value.wrapping_add(extension);
    let bumped = SimModel { next_uid: st.next_uid.wrapping_add(1), ..st };
    if st.stacks.len() > 0 {
        lemma_argmin_bounds(distances(st.stacks, old_value), 0, st.stacks.len() as int);
    }
    lemma_add_inner_within(
        c,
        bumped,
        fresh_stack(st, value, src, st.last_src_remove.0, start, st.last_src_remove.1, stack_id),
        true,
        0,
        0,
    );
    if st.last_src_removes.len() > 0 {
        lemma_add_inner_within(
            c,
            SimModel { last_src_removes: st.last_src_removes.drop_first(), ..bumped },
            fresh_stack(
                st,
                value,
                src,
                st.last_src_removes[0].0,
                start,
                st.last_src_removes[0].1,
                stack_id,
            ),
            false,
            0,
            0,
        );
    }
    lemma_add_inner_within(c, bumped, fresh_stack(st, value, src, src, start, false, stack_id), true, 0, 0);
}

proof fn lemma_update_duration_len(st: SimModel, passed: i64)
    ensures
        update_duration_spec(st, passed).stacks.len() <= st.stacks.len(),
    decreases stack_weight(st.stacks),
{
    if !(st.stacks.len() == 0 || passed <= 0) {
        let (st2, leftover) = dur_step(st, passed);
        assert(st2.stacks.len() <= st.stacks.len());
        if leftover > 0 {
            lemma_dur_step_weight(st, passed);
            lemma_update_duration_len(st2, leftover);
        }
    }
}

proof fn lemma_keep_live_len(s: Seq<StackModel<u32>>)
    ensures
        keep_live(s).len() <= s.len(),
    decreases s.len(),
{
    if s.len() > 0 {
        lemma_keep_live_len(s.drop_first());
    }
}

proof fn lemma_update_intensity_len(st: SimModel, passed: i64)
    ensures
        update_intensity_spec(st, passed).stacks.len() <= st.stacks.len(),
    decreases stack_weight(st.stacks),
{
    if !(st.stacks.len() == 0 || passed <= 0) {
        let (st2, leftover) = int_step(st, passed);
        let m = min_duration(st.stacks);
        let diff = if m < passed {
            m
        } else {
            passed
        };
        lemma_keep_live_len(shift_all(st.stacks, diff, diff));
        assert(st2.stacks.len() <= st.stacks.len());
        if leftover > 0 {
            lemma_int_step_weight(st, passed);
            lemma_update_intensity_len(st2, leftover);
        }
    }
}

/// Passing time never adds a stack: the stacks after `passed` milliseconds
/// are at most those before.
pub proof fn law_time_adds_no_stack(c: SimConfig, st: SimModel, passed: i64)
    ensures
        update_spec(c, st, passed).stacks.len() <= st.stacks.len(),
{
    lemma_update_duration_len(st, passed);
    lemma_update_intensity_len(st, passed);
}

/// A simulator within its capacity stays within it after any command: an
/// application to a full simulator evicts a stack or is overstacked, an
/// activation moves a stack, a removal or an extension adds none.
pub proof fn law_command_within_capacity(c: SimConfig, st: SimModel, cmd: SimCmd<u32>)
    requires
        capacity_ok(c),
        within_capacity(c, st.stacks),
    ensures
        within_capacity(c, apply_spec(c, st, cmd).stacks),
{
    match cmd {
        SimCmd::Add {
            duration,
            src,
            start,
            stack_id,
            added_active,
            overriden_duration,
            overriden_stack_id,
        } => {
            lemma_add_inner_within(
                c,
                SimModel { next_uid: st.next_uid.wrapping_add(1), ..st },
                fresh_stack(st, duration, src, src, start, false, stack_id),
                added_active,
                overriden_duration,
                overriden_stack_id,
            );
        },
        SimCmd::Extend { extension, old_value, src, time, stack_id } => {
            lemma_extend_within(c, st, extension, old_value, src, time, stack_id);
        },
        SimCmd::Remove { removed_duration, time, all } => {
            lemma_index_of_removal_bound(st.stacks, removed_duration);
            assert(remove_all_spec(st, time).stacks.len() == 0);
        },
        SimCmd::Activate { stack_id, .. } => {
            lemma_activate_len(c, st, stack_id);
        },
        SimCmd::Deactivate { .. } => {},
    }
}

proof fn lemma_run_cmds_within(c: SimConfig, st: SimModel, events: Seq<SimCmd<u32>>, time_prev: i64)
    requires
        capacity_ok(c),
        within_capacity(c, st.stacks),
    ensures
        within_capacity(c, run_cmds(c, st, events, time_prev).0.stacks),
    decreases events.len(),
{
    if events.len() > 0 {
        lemma_run_cmds_within(c, st, events.drop_last(), time_prev);
        let (s1, tp) = run_cmds(c, st, events.drop_last(), time_prev);
        let e = events.last();
        let s2 = update_spec(c, s1, e.time_of().wrapping_sub(tp));
        law_time_adds_no_stack(c, s1, e.time_of().wrapping_sub(tp));
        law_command_within_capacity(c, s2, e);
    }
}

/// A whole simulation from a state within the capacity (a fresh simulator
/// has no stack) ends within it.
pub proof fn law_simulation_within_capacity(
    c: SimConfig,
    st: SimModel,
    events: Seq<SimCmd<u32>>,
    log_start: i64,
    log_end: i64,
)
    requires
        capacity_ok(c),
        within_capacity(c, st.stacks),
    ensures
        within_capacity(c, simulate_spec(c, st, events, log_start, log_end).stacks),
{
    if st.result.items.len() == 0 {
        let tp0 = if events.len() == 0 {
            log_start
        } else if events[0].time_of() < log_start {
            events[0].time_of()
        } else {
            log_start
        };
        lemma_run_cmds_within(c, st, events, tp0);
        let (s1, tp) = run_cmds(c, st, events, tp0);
        law_time_adds_no_stack(c, s1, log_end.wrapping_sub(tp));
    }
}

} // verus!
