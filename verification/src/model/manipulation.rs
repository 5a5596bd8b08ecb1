//! Linking the agents of a log to its rows: aware times and instance ids
//! from the rows that name them, masters, merges of agents that are one,
//! and the split of players by specialization and subgroup.

use vstd::prelude::*;
use std::collections::BTreeMap;
use vstd::set_lib::{set_int_range, lemma_int_range, lemma_len_subset};
use vstd::laws_cmp::obeys_cmp;
use crate::model::agent::{
    AgentItem, AgentMergedFrom, AgentTable, AgentType, AgentId, NO_AGENT, ENVIRONMENT, live, agent_at,
    first_by_key, key_lt, at_address, with_instid, master_set, has_master, half_toward_zero, key_sorted, in_aware,
    with_englobing, root_of_type, chain_hits, chain_ends,
};
use crate::model::stats::{lists, list_or_empty, pushed, push_index};
use crate::model::ordering::{is_stable_order, stable_order};
use crate::model::parsed::LinkStats;
use crate::model::spec::SpecCatalog;
use crate::parse::enums::StateChange;
use crate::parse::models::{EvtcCombatItem, EvtcRawLog, EvtcRawAgent, src_is_agent_kind, dst_is_agent_kind};
use crate::model::raw_agent::{agent_from_raw_with, made_from_raw};
use crate::text::{decimal, concat_str, u64_text};
use crate::model::error::ModelError;
use crate::model::spec::NoSpecCatalog;
use crate::model::spec::Spec;
use crate::model::raw_agent::{field0, first_field};
use crate::parse::arc_build::to_chars;

verus! {

broadcast use {vstd::std_specs::btree::group_btree_axioms, vstd::laws_cmp::group_laws_cmp};

// ===== aware times and instance ids =====

/// The agent seen by a row at `time` with instance id `instid`: a missing
/// instance id is filled in, and the aware span grows to cover `time` (it
/// becomes `[time, time]` when the agent was never seen).
pub open spec fn touched_agent(a: AgentItem, time: i64, instid: u16) -> AgentItem {
    let b = if instid != 0 && a.instid == 0 {
        AgentItem { instid: instid, ..a }
    } else {
        a
    };
    if b.last_aware == i64::MAX {
        AgentItem { first_aware: time, last_aware: time, ..b }
    } else {
        AgentItem {
            first_aware: if time < b.first_aware {
                time
            } else {
                b.first_aware
            },
            last_aware: if time > b.last_aware {
                time
            } else {
                b.last_aware
            },
            ..b
        }
    }
}

/// The row's instance id contradicts the agent's, and the check is asked for.
pub open spec fn instid_conflict(a: AgentItem, instid: u16, check: bool) -> bool {
    instid != 0 && a.instid != 0 && check && a.instid != instid
}

/// Records that agent `agent` was seen at `log_time` with instance id
/// `instid`; with `check_instid`, a different known instance id refuses the
/// row (`false`, table unchanged).
pub fn update_agent_data(
    table: &mut AgentTable,
    agent: AgentId,
    log_time: i64,
    instid: u16,
    check_instid: bool,
) -> (r: bool)
    requires
        live(old(table)@, agent as int),
    ensures
        r == !instid_conflict(agent_at(old(table)@, agent as int), instid, check_instid),
        final(table)@ == if r {
            old(table)@.update(
                agent as int,
                Some(touched_agent(agent_at(old(table)@, agent as int), log_time, instid)),
            )
        } else {
            old(table)@
        },
{
    match table.slot_mut(agent) {
        Some(a) => {
            if instid != 0 && a.instid != 0 && check_instid && a.instid != instid {
                return false;
            }
            if instid != 0 && a.instid == 0 {
                a.instid = instid;
            }
            if a.last_aware == i64::MAX {
                a.first_aware = log_time;
                a.last_aware = log_time;
            } else {
                if log_time < a.first_aware {
                    a.first_aware = log_time;
                }
                if log_time > a.last_aware {
                    a.last_aware = log_time;
                }
            }
            true
        },
        None => false,
    }
}

// ===== masters =====

/// The table after a row names a master by instance id for the minion of
/// `minion_addr`, both resolved at `time`.
pub open spec fn master_linked(
    s: Seq<Option<AgentItem>>,
    time: i64,
    master_instid: u16,
    minion_addr: u64,
    s2: Seq<Option<AgentItem>>,
) -> bool {
    exists|m: AgentId, mi: AgentId| #[trigger] master_linked_by(s, time, master_instid, minion_addr, s2, m, mi)
}

/// [`master_linked`], with the master `m` and minion `mi` found.
pub open spec fn master_linked_by(
    s: Seq<Option<AgentItem>>,
    time: i64,
    master_instid: u16,
    minion_addr: u64,
    s2: Seq<Option<AgentItem>>,
    m: AgentId,
    mi: AgentId,
) -> bool {
    &&& (if master_instid == 0 {
        m == NO_AGENT
    } else {
        first_by_key(s, with_instid(master_instid, time), m)
    })
    &&& (if minion_addr == 0 {
        mi == NO_AGENT
    } else {
        first_by_key(s, at_address(minion_addr, time), mi)
    })
    &&& s2 == if m == NO_AGENT || mi == NO_AGENT {
        s
    } else {
        master_set(s, mi, m)
    }
}

/// Makes the agent of instance id `master_instid` the master of the agent
/// of address `minion_addr`, both as they are at `log_time`.
pub fn find_agent_master(table: &mut AgentTable, log_time: i64, master_instid: u16, minion_addr: u64)
    requires
        old(table)@.len() <= NO_AGENT,
    ensures
        master_linked(old(table)@, log_time, master_instid, minion_addr, final(table)@),
{
    let ghost s = table@;
    let master = table.agent_by_instid(master_instid, log_time);
    let minion = table.resolve_agent(minion_addr, log_time);
    if master != NO_AGENT && minion != NO_AGENT {
        table.set_master(minion, master);
    }
    assert(master_linked_by(s, log_time, master_instid, minion_addr, table@, master, minion));
}

// ===== fresh addresses and instance ids =====

/// One step of the generator of fresh addresses and instance ids: the
/// 64-bit linear congruential step (multiply, then add, both wrapping).
pub open spec fn lcg_step(x: u64) -> u64 {
    x.wrapping_mul(6364136223846793005).wrapping_add(1442695040888963407)
}

/// One step of the generator of fresh addresses and instance ids.
fn lcg_next(x: u64) -> (r: u64)
    ensures
        r == lcg_step(x),
{
    x.wrapping_mul(6364136223846793005).wrapping_add(1442695040888963407)
}

/// Lower end of the fresh addresses.
pub const ADDRESS_BASE: u64 = 2147483647;

/// Lower end of the fresh instance ids; they lie below twice this.
pub const INSTID_BASE: u16 = 32767;

/// Number of generator draws before the first free value is searched for.
pub const DRAWS: u32 = 65536;

fn contains_u64(v: &Vec<u64>, x: u64) -> (r: bool)
    ensures
        r == v@.contains(x),
{
    let mut i: usize = 0;
    while i < v.len()
        invariant
            i <= v@.len(),
            forall|k: int| 0 <= k < i ==> v@[k] != x,
        decreases v@.len() - i,
    {
        if v[i] == x {
            assert(v@[i as int] == x);
            return true;
        }
        i = i + 1;
    }
    false
}

fn contains_u16(v: &Vec<u16>, x: u16) -> (r: bool)
    ensures
        r == v@.contains(x),
{
    let mut i: usize = 0;
    while i < v.len()
        invariant
            i <= v@.len(),
            forall|k: int| 0 <= k < i ==> v@[k] != x,
        decreases v@.len() - i,
    {
        if v[i] == x {
            assert(v@[i as int] == x);
            return true;
        }
        i = i + 1;
    }
    false
}

/// `base + k` as an address.
pub open spec fn offset64(base: int, k: int) -> u64 {
    (base + k) as u64
}

/// `base + k` as an instance id.
pub open spec fn offset16(base: int, k: int) -> u16 {
    (base + k) as u16
}

/// Among `count` consecutive values from `base`, more than `used` holds,
/// one is not used.
proof fn lemma_free_value(used: Seq<u64>, base: int, count: int)
    requires
        0 <= base,
        count > used.len(),
        base + count <= 0x1_0000_0000_0000_0000,
    ensures
        exists|k: int| 0 <= k < count && !used.contains(#[trigger] offset64(base, k)),
{
    let ints = used.map_values(|v: u64| v as int);
    let range = set_int_range(base, base + count);
    lemma_int_range(base, base + count);
    ints.lemma_cardinality_of_set();
    vstd::seq_lib::seq_to_set_is_finite(ints);
    if forall|k: int| 0 <= k < count ==> used.contains(#[trigger] offset64(base, k)) {
        assert forall|x: int| range.contains(x) implies ints.to_set().contains(x) by {
            let k = x - base;
            assert(used.contains(offset64(base, k)));
            let j = choose|j: int| 0 <= j < used.len() && used[j] == (base + k) as u64;
            assert(ints[j] == x);
            assert(ints.contains(x));
        }
        assert(range.subset_of(ints.to_set()));
        lemma_len_subset(range, ints.to_set());
        assert(false);
    }
}

/// A fresh address: drawn from the generator in `rng` while the draws hit
/// `used`; after [`DRAWS`] draws, the first value from [`ADDRESS_BASE`] on
/// that is not used.
pub(crate) fn pick_address(rng: &mut u64, used: &Vec<u64>) -> (r: u64)
    requires
        used@.len() < 0x1_0000_0000,
    ensures
        r != 0,
        !used@.contains(r),
{
    let h: u64 = ADDRESS_BASE;
    let mut tries: u32 = 0;
    while tries < DRAWS
        invariant
            h == ADDRESS_BASE,
        decreases DRAWS - tries,
    {
        *rng = lcg_next(*rng);
        let cand = h + (*rng >> 33) % h;
        if !contains_u64(used, cand) {
            return cand;
        }
        tries = tries + 1;
    }
    proof {
        lemma_free_value(used@, h as int, used@.len() + 1int);
    }
    let n = used.len();
    let mut k: usize = 0;
    while k <= n
        invariant
            h == ADDRESS_BASE,
            n == used@.len(),
            n < 0x1_0000_0000,
            k <= n + 1,
            forall|j: int| 0 <= j < k ==> used@.contains(#[trigger] offset64(h as int, j)),
            exists|j: int| 0 <= j < n + 1 && !used@.contains(#[trigger] offset64(h as int, j)),
        decreases n + 1 - k,
    {
        let cand = h + k as u64;
        assert(cand == offset64(h as int, k as int));
        if !contains_u64(used, cand) {
            return cand;
        }
        k = k + 1;
    }
    assert(false);
    h
}

/// A fresh instance id: drawn from the generator in `rng` while the draws
/// hit `used`; after [`DRAWS`] draws, the first value from [`INSTID_BASE`]
/// on that is not used, or 0 when every one is.
pub(crate) fn pick_instid(rng: &mut u64, used: &Vec<u16>) -> (r: u16)
    ensures
        r != 0 ==> INSTID_BASE <= r < 2 * INSTID_BASE && !used@.contains(r),
        (exists|v: u16| INSTID_BASE <= v < 2 * INSTID_BASE && !used@.contains(v)) ==> r != 0,
{
    let h: u16 = INSTID_BASE;
    let mut tries: u32 = 0;
    while tries < DRAWS
        invariant
            h == INSTID_BASE,
        decreases DRAWS - tries,
    {
        *rng = lcg_next(*rng);
        let cand = h + ((*rng >> 48) as u16) % h;
        if !contains_u16(used, cand) {
            return cand;
        }
        tries = tries + 1;
    }
    let mut k: u16 = 0;
    while k < h
        invariant
            h == INSTID_BASE,
            k <= h,
            forall|j: int| 0 <= j < k ==> used@.contains(#[trigger] offset16(h as int, j)),
        decreases h - k,
    {
        let cand = h + k;
        assert(cand == offset16(h as int, k as int));
        if !contains_u16(used, cand) {
            return cand;
        }
        k = k + 1;
    }
    assert forall|v: u16| INSTID_BASE <= v < 2 * INSTID_BASE implies used@.contains(v) by {
        assert(used@.contains(offset16(h as int, v - h)));
    }
    0
}

/// Addresses of the agents of a table, and how many there are at most.
pub(crate) fn table_addresses(table: &AgentTable) -> (r: Vec<u64>)
    requires
        table@.len() <= NO_AGENT,
    ensures
        r@.len() <= table@.len(),
        forall|i: int| live(table@, i) ==> r@.contains(#[trigger] agent_at(table@, i).address),
{
    let n = table.slot_count();
    let mut out: Vec<u64> = Vec::new();
    let mut i: usize = 0;
    while i < n
        invariant
            n == table@.len(),
            n <= NO_AGENT,
            i <= n,
            out@.len() <= i,
            forall|k: int| 0 <= k < i && live(table@, k) ==> out@.contains(#[trigger] agent_at(table@, k).address),
        decreases n - i,
    {
        match table.slot(i as AgentId) {
            Some(a) => {
                let ghost before = out@;
                out.push(a.address);
                proof {
                    assert forall|x| before.contains(x) implies out@.contains(x) by {
                        let j = choose|j: int| 0 <= j < before.len() && before[j] == x;
                        assert(out@[j] == x);
                    }
                    assert(out@[out@.len() - 1] == a.address);
                }
            },
            None => {},
        }
        i = i + 1;
    }
    out
}

/// Instance ids of the agents of a table.
pub(crate) fn table_instids(table: &AgentTable) -> (r: Vec<u16>)
    requires
        table@.len() <= NO_AGENT,
    ensures
        forall|i: int| live(table@, i) ==> r@.contains(#[trigger] agent_at(table@, i).instid),
        forall|j: int| 0 <= j < r@.len() ==> instid_used(table@, #[trigger] r@[j]),
{
    let n = table.slot_count();
    let mut out: Vec<u16> = Vec::new();
    let mut i: usize = 0;
    while i < n
        invariant
            n == table@.len(),
            n <= NO_AGENT,
            i <= n,
            forall|k: int| 0 <= k < i && live(table@, k) ==> out@.contains(#[trigger] agent_at(table@, k).instid),
            forall|j: int| 0 <= j < out@.len() ==> instid_used(table@, #[trigger] out@[j]),
        decreases n - i,
    {
        match table.slot(i as AgentId) {
            Some(a) => {
                let ghost before = out@;
                out.push(a.instid);
                proof {
                    assert forall|x| before.contains(x) implies out@.contains(x) by {
                        let j = choose|j: int| 0 <= j < before.len() && before[j] == x;
                        assert(out@[j] == x);
                    }
                    assert(out@[out@.len() - 1] == a.instid);
                    assert(agent_at(table@, i as int).instid == out@[out@.len() - 1]);
                    assert(instid_used(table@, out@[out@.len() - 1]));
                    assert forall|j: int| 0 <= j < out@.len() implies instid_used(table@, #[trigger] out@[j]) by {
                        if j < before.len() {
                            assert(out@[j] == before[j]);
                        }
                    }
                }
            },
            None => {},
        }
        i = i + 1;
    }
    out
}

// ===== agents made by the linking =====

/// `a` copies the identity of `f` over `[start, end]` with specialization
/// `spec`: species id 0, no master, no parts, the character being the first
/// field of the name. Address and instance id are chosen apart.
pub open spec fn custom_copy(a: AgentItem, f: AgentItem, start: i64, end: i64, spec: Spec) -> bool {
    &&& a.name@ == f.name@
    &&& a.agent_type == f.agent_type
    &&& a.spec == spec
    &&& a.base_spec == spec.base_of()
    &&& a.id == 0
    &&& a.toughness == f.toughness
    &&& a.healing == f.healing
    &&& a.condition == f.condition
    &&& a.concentration == f.concentration
    &&& a.hitbox_width == f.hitbox_width
    &&& a.hitbox_height == f.hitbox_height
    &&& a.first_aware == start
    &&& a.last_aware == end
    &&& a.master == NO_AGENT
    &&& a.englobing == NO_AGENT
    &&& a.englobed@.len() == 0
    &&& a.regrouped@.len() == 0
    &&& a.is_fake == f.is_fake
    &&& a.is_not_in_squad_friendly_player == f.is_not_in_squad_friendly_player
    &&& !a.is_unknown
    &&& a.character@ == field0(f.name@)
    &&& a.account == f.account
    &&& a.group == f.group
    &&& a.unamed == f.unamed
}

/// The address of `a` is not 0 and no agent of `s` has it, and its
/// instance id is fresh in `s`.
pub open spec fn fresh_in(a: AgentItem, s: Seq<Option<AgentItem>>) -> bool {
    &&& a.address != 0
    &&& forall|i: int| live(s, i) ==> #[trigger] agent_at(s, i).address != a.address
    &&& fresh_instid_in(a, s)
}

/// The instance id of `a`, when not 0, lies in the range of fresh ones and
/// no agent of `s` has it; it is not 0 when some id of that range is free.
pub open spec fn fresh_instid_in(a: AgentItem, s: Seq<Option<AgentItem>>) -> bool {
    &&& a.instid != 0 ==> INSTID_BASE <= a.instid < 2 * INSTID_BASE
        && forall|i: int| live(s, i) ==> #[trigger] agent_at(s, i).instid != a.instid
    &&& (exists|v: u16| INSTID_BASE <= v < 2 * INSTID_BASE && #[trigger] instid_free(s, v)) ==> a.instid != 0
}

/// Some agent of `s` has instance id `v`.
pub open spec fn instid_used(s: Seq<Option<AgentItem>>, v: u16) -> bool {
    exists|i: int| live(s, i) && #[trigger] agent_at(s, i).instid == v
}

/// No agent of `s` has instance id `v`.
pub open spec fn instid_free(s: Seq<Option<AgentItem>>, v: u16) -> bool {
    forall|i: int| live(s, i) ==> #[trigger] agent_at(s, i).instid != v
}

fn clone_account(x: &Option<String>) -> (r: Option<String>)
    ensures
        r == *x,
{
    match x {
        Some(s) => Some(s.clone()),
        None => None,
    }
}

/// Adds a copy of agent `from` over `[start, end]` with specialization
/// `spec`, under a fresh address and instance id, and returns its id.
pub fn add_custom_agent_from(table: &mut AgentTable, from: AgentId, start: i64, end: i64, spec: Spec) -> (r: AgentId)
    requires
        live(old(table)@, from as int),
        old(table)@.len() < NO_AGENT,
    ensures
        r == old(table)@.len(),
        final(table)@.len() == old(table)@.len() + 1,
        final(table)@.subrange(0, r as int) == old(table)@,
        live(final(table)@, r as int),
        custom_copy(agent_at(final(table)@, r as int), agent_at(old(table)@, from as int), start, end, spec),
        fresh_in(agent_at(final(table)@, r as int), old(table)@),
{
    let ghost s = table@;
    let (ag, f_ghost) = match table.slot(from) {
        Some(src) => {
            let character = first_field(&src.name);
            (AgentItem {
                address: 0,
                name: src.name.clone(),
                agent_type: src.agent_type,
                spec,
                base_spec: spec.base_spec(),
                id: 0,
                instid: 0,
                toughness: src.toughness,
                healing: src.healing,
                condition: src.condition,
                concentration: src.concentration,
                hitbox_width: src.hitbox_width,
                hitbox_height: src.hitbox_height,
                first_aware: start,
                last_aware: end,
                master: NO_AGENT,
                englobing: NO_AGENT,
                englobed: Vec::new(),
                regrouped: Vec::new(),
                is_fake: src.is_fake,
                is_not_in_squad_friendly_player: src.is_not_in_squad_friendly_player,
                is_unknown: false,
                character,
                account: clone_account(&src.account),
                group: src.group,
                unamed: src.unamed,
            }, Ghost(*src))
        },
        None => {
            return 0;
        },
    };
    let new_id = table.push_agent(ag);
    let ghost s1 = table@;
    let mut rng: u64 = 0x9e37_79b9_7f4a_7c15u64.wrapping_mul(new_id as u64 + 1);
    let used_addr = table_addresses(table);
    let addr = pick_address(&mut rng, &used_addr);
    let used_ids = table_instids(table);
    let instid = pick_instid(&mut rng, &used_ids);
    match table.slot_mut(new_id) {
        Some(a) => {
            a.address = addr;
            a.instid = instid;
        },
        None => {},
    }
    proof {
        let a = agent_at(table@, new_id as int);
        assert(table@.subrange(0, new_id as int) =~= s);
        assert forall|i: int| live(s, i) implies #[trigger] agent_at(s, i).address != a.address by {
            assert(live(s1, i) && agent_at(s1, i) == agent_at(s, i));
        }
        if a.instid != 0 {
            assert forall|i: int| live(s, i) implies #[trigger] agent_at(s, i).instid != a.instid by {
                assert(live(s1, i) && agent_at(s1, i) == agent_at(s, i));
            }
        }
        if exists|v: u16| INSTID_BASE <= v < 2 * INSTID_BASE && #[trigger] instid_free(s, v) {
            let v = choose|v: u16| INSTID_BASE <= v < 2 * INSTID_BASE && #[trigger] instid_free(s, v);
            if used_ids@.contains(v) {
                let j = choose|j: int| 0 <= j < used_ids@.len() && used_ids@[j] == v;
                assert(instid_used(s1, used_ids@[j]));
                let i = choose|i: int| live(s1, i) && #[trigger] agent_at(s1, i).instid == used_ids@[j];
                if i < s.len() {
                    assert(agent_at(s, i).instid != v);
                }
                assert(false);
            }
        }
    }
    new_id
}

/// `a` is the agent standing for the environment, aware over `[0, log_end]`.
pub open spec fn environment_agent(a: AgentItem, log_end: i64) -> bool {
    &&& a.name@ == "Environment"@
    &&& a.agent_type == AgentType::StableSpecies
    &&& a.spec == Spec::Gadget
    &&& a.base_spec == Spec::Gadget
    &&& a.id == ENVIRONMENT
    &&& a.toughness == 0 && a.healing == 0 && a.condition == 0 && a.concentration == 0
    &&& a.hitbox_width == 0 && a.hitbox_height == 0
    &&& a.first_aware == 0
    &&& a.last_aware == log_end
    &&& a.master == NO_AGENT
    &&& a.englobing == NO_AGENT
    &&& a.englobed@.len() == 0
    &&& a.regrouped@.len() == 0
    &&& a.is_fake
    &&& !a.is_not_in_squad_friendly_player
    &&& !a.is_unknown
    &&& a.character@ == "Environment"@
    &&& a.account is None
    &&& a.group is None
    &&& !a.unamed
}

/// Adds the agent standing for the environment, under an address that
/// `addresses` does not hold (it is recorded there) and a fresh instance id.
pub fn add_environment_agent(table: &mut AgentTable, addresses: &mut Vec<u64>, log_end: i64) -> (r: AgentId)
    requires
        old(table)@.len() < NO_AGENT,
        old(addresses)@.len() < 0x1_0000_0000,
    ensures
        r == old(table)@.len(),
        final(table)@.len() == old(table)@.len() + 1,
        final(table)@.subrange(0, r as int) == old(table)@,
        live(final(table)@, r as int),
        environment_agent(agent_at(final(table)@, r as int), log_end),
        agent_at(final(table)@, r as int).address != 0,
        !old(addresses)@.contains(agent_at(final(table)@, r as int).address),
        final(addresses)@ == old(addresses)@.push(agent_at(final(table)@, r as int).address),
        fresh_instid_in(agent_at(final(table)@, r as int), old(table)@),
{
    let ghost s = table@;
    let mut rng: u64 = 0x1234_5678_9abc_def0u64;
    let addr = pick_address(&mut rng, addresses);
    addresses.push(addr);
    let used_ids = table_instids(table);
    let instid = pick_instid(&mut rng, &used_ids);
    let name = "Environment".to_owned();
    let character = "Environment".to_owned();
    let ag = AgentItem {
        address: addr,
        name,
        agent_type: AgentType::StableSpecies,
        spec: Spec::Gadget,
        base_spec: Spec::Gadget,
        id: ENVIRONMENT,
        instid,
        toughness: 0,
        healing: 0,
        condition: 0,
        concentration: 0,
        hitbox_width: 0,
        hitbox_height: 0,
        first_aware: 0,
        last_aware: log_end,
        master: NO_AGENT,
        englobing: NO_AGENT,
        englobed: Vec::new(),
        regrouped: Vec::new(),
        is_fake: true,
        is_not_in_squad_friendly_player: false,
        is_unknown: false,
        character,
        account: None,
        group: None,
        unamed: false,
    };
    let r = table.push_agent(ag);
    proof {
        assert(table@.subrange(0, r as int) =~= s);
        if exists|v: u16| INSTID_BASE <= v < 2 * INSTID_BASE && #[trigger] instid_free(s, v) {
            let v = choose|v: u16| INSTID_BASE <= v < 2 * INSTID_BASE && #[trigger] instid_free(s, v);
            if used_ids@.contains(v) {
                let j = choose|j: int| 0 <= j < used_ids@.len() && used_ids@[j] == v;
                assert(instid_used(s, used_ids@[j]));
                let i = choose|i: int| live(s, i) && #[trigger] agent_at(s, i).instid == used_ids@[j];
                assert(false);
            }
        }
    }
    r
}

// ===== rows by agent =====

/// At most one agent is the first by key to satisfy `p`.
pub proof fn lemma_first_by_key_unique(
    s: Seq<Option<AgentItem>>,
    p: spec_fn(AgentItem) -> bool,
    r1: AgentId,
    r2: AgentId,
)
    requires
        first_by_key(s, p, r1),
        first_by_key(s, p, r2),
    ensures
        r1 == r2,
{
    if r1 != r2 {
        if r1 != NO_AGENT && r2 != NO_AGENT {
            assert(key_lt(s, r1, r2) && key_lt(s, r2, r1));
        }
    }
}

/// The agent of `addr` aware at `time`, the earliest one first; `NO_AGENT`
/// for address 0 or when there is none.
pub open spec fn resolved_at(s: Seq<Option<AgentItem>>, addr: u64, time: i64) -> AgentId {
    if addr == 0 {
        NO_AGENT
    } else {
        choose|r: AgentId| first_by_key(s, at_address(addr, time), r)
    }
}

proof fn lemma_resolved_at(s: Seq<Option<AgentItem>>, addr: u64, time: i64, r: AgentId)
    requires
        addr == 0 ==> r == NO_AGENT,
        addr != 0 ==> first_by_key(s, at_address(addr, time), r),
    ensures
        resolved_at(s, addr, time) == r,
{
    if addr != 0 {
        let c = choose|c: AgentId| first_by_key(s, at_address(addr, time), c);
        lemma_first_by_key_unique(s, at_address(addr, time), c, r);
    }
}

/// For each agent, the indices of the rows whose source (`src`) or
/// destination resolves to it at the row's time.
pub open spec fn side_lists(s: Seq<Option<AgentItem>>, items: Seq<EvtcCombatItem>, src: bool) -> Map<AgentId, Seq<usize>>
    decreases items.len(),
{
    if items.len() == 0 {
        Map::empty()
    } else {
        let n = items.len() - 1;
        let it = items[n];
        let prev = side_lists(s, items.drop_last(), src);
        if src && src_is_agent_kind(it.state_change) {
            pushed(prev, resolved_at(s, it.src_agent, it.time), n as usize)
        } else if !src && dst_is_agent_kind(it.state_change) {
            pushed(prev, resolved_at(s, it.dst_agent, it.time), n as usize)
        } else {
            prev
        }
    }
}

/// The rows of each agent, by source and by destination.
pub fn build_item_side_maps(table: &mut AgentTable, items: &Vec<EvtcCombatItem>) -> (r: (
    BTreeMap<AgentId, Vec<usize>>,
    BTreeMap<AgentId, Vec<usize>>,
))
    requires
        old(table)@.len() <= NO_AGENT,
    ensures
        final(table)@ == old(table)@,
        lists(r.0) == side_lists(old(table)@, items@, true),
        lists(r.1) == side_lists(old(table)@, items@, false),
{
    let ghost s = table@;
    let mut src: BTreeMap<AgentId, Vec<usize>> = BTreeMap::new();
    let mut dst: BTreeMap<AgentId, Vec<usize>> = BTreeMap::new();
    assert(lists(src) =~= Map::empty());
    assert(items@.take(0) =~= Seq::<EvtcCombatItem>::empty());
    let mut idx: usize = 0;
    while idx < items.len()
        invariant
            s == table@,
            s.len() <= NO_AGENT,
            idx <= items@.len(),
            lists(src) == side_lists(s, items@.take(idx as int), true),
            lists(dst) == side_lists(s, items@.take(idx as int), false),
        decreases items@.len() - idx,
    {
        let item = items[idx];
        assert(items@.take(idx + 1).drop_last() =~= items@.take(idx as int));
        assert(items@.take(idx + 1)[idx as int] == item);
        if item.src_is_agent() {
            let a = table.resolve_agent(item.src_agent, item.time);
            proof {
                lemma_resolved_at(s, item.src_agent, item.time, a);
            }
            push_index(&mut src, a, idx);
        }
        if item.dst_is_agent() {
            let a = table.resolve_agent(item.dst_agent, item.time);
            proof {
                lemma_resolved_at(s, item.dst_agent, item.time, a);
            }
            push_index(&mut dst, a, idx);
        }
        idx = idx + 1;
    }
    assert(items@.take(idx as int) =~= items@);
    (src, dst)
}

// ===== merging agents that are one =====

/// What a merged agent keeps of `a`.
pub open spec fn merge_record(a: AgentItem) -> AgentMergedFrom {
    AgentMergedFrom {
        first_aware: a.first_aware,
        last_aware: a.last_aware,
        name: a.name,
        character: a.character,
        spec: a.spec,
        base_spec: a.base_spec,
        agent_type: a.agent_type,
        toughness: a.toughness,
        healing: a.healing,
        condition: a.condition,
        concentration: a.concentration,
        is_fake: a.is_fake,
    }
}

/// Earliest first aware time over the agents of `g`.
pub open spec fn group_first_aware(s: Seq<Option<AgentItem>>, g: Seq<AgentId>) -> i64
    decreases g.len(),
{
    if g.len() <= 1 {
        agent_at(s, g[0] as int).first_aware
    } else {
        let m = group_first_aware(s, g.drop_last());
        let x = agent_at(s, g.last() as int).first_aware;
        if x < m {
            x
        } else {
            m
        }
    }
}

/// Latest last aware time over the agents of `g`.
pub open spec fn group_last_aware(s: Seq<Option<AgentItem>>, g: Seq<AgentId>) -> i64
    decreases g.len(),
{
    if g.len() <= 1 {
        agent_at(s, g[0] as int).last_aware
    } else {
        let m = group_last_aware(s, g.drop_last());
        let x = agent_at(s, g.last() as int).last_aware;
        if x > m {
            x
        } else {
            m
        }
    }
}

/// `a` is `first` aware over `[fa, la]`, a root with no parts, that keeps
/// the records `recs` of the agents merged into it.
pub open spec fn merged_agent(a: AgentItem, first: AgentItem, fa: i64, la: i64, recs: Seq<AgentMergedFrom>) -> bool {
    &&& a.address == first.address
    &&& a.name == first.name
    &&& a.agent_type == first.agent_type
    &&& a.spec == first.spec
    &&& a.base_spec == first.base_spec
    &&& a.id == first.id
    &&& a.instid == first.instid
    &&& a.toughness == first.toughness
    &&& a.healing == first.healing
    &&& a.condition == first.condition
    &&& a.concentration == first.concentration
    &&& a.hitbox_width == first.hitbox_width
    &&& a.hitbox_height == first.hitbox_height
    &&& a.master == first.master
    &&& a.is_fake == first.is_fake
    &&& a.is_not_in_squad_friendly_player == first.is_not_in_squad_friendly_player
    &&& !a.is_unknown
    &&& a.character == first.character
    &&& a.account == first.account
    &&& a.group == first.group
    &&& a.unamed == first.unamed
    &&& a.first_aware == fa
    &&& a.last_aware == la
    &&& a.englobing == NO_AGENT
    &&& a.englobed@.len() == 0
    &&& a.regrouped@ == recs
}

/// The agents of `g` that have a master get agent `to` as master, in order.
pub open spec fn masters_redirected(s: Seq<Option<AgentItem>>, g: Seq<AgentId>, to: AgentId) -> Seq<Option<AgentItem>>
    decreases g.len(),
{
    if g.len() == 0 {
        s
    } else {
        let s1 = masters_redirected(s, g.drop_last(), to);
        if has_master(s1, g.last()) {
            master_set(s1, g.last(), to)
        } else {
            s1
        }
    }
}

/// `s` with the slots of `g` emptied.
pub open spec fn removed_all(s: Seq<Option<AgentItem>>, g: Seq<AgentId>) -> Seq<Option<AgentItem>>
    decreases g.len(),
{
    if g.len() == 0 {
        s
    } else {
        let s1 = removed_all(s, g.drop_last());
        if (g.last() as int) < s1.len() {
            s1.update(g.last() as int, None)
        } else {
            s1
        }
    }
}

/// Some agent of `g` has row `idx` in its list in `m`.
pub open spec fn in_lists(m: Map<AgentId, Seq<usize>>, g: Seq<AgentId>, idx: int) -> bool {
    exists|k: int| 0 <= k < g.len() && #[trigger] list_or_empty(m, g[k]).contains(idx as usize)
}

/// `it` with its source and/or destination set to `addr`.
pub open spec fn readdressed(it: EvtcCombatItem, to_src: bool, to_dst: bool, addr: u64) -> EvtcCombatItem {
    let a = if to_src {
        EvtcCombatItem { src_agent: addr, ..it }
    } else {
        it
    };
    if to_dst {
        EvtcCombatItem { dst_agent: addr, ..a }
    } else {
        a
    }
}

/// The rows of the agents of `g` (by `src` and `dst` lists) moved to `addr`.
pub open spec fn rows_readdressed(
    items: Seq<EvtcCombatItem>,
    src: Map<AgentId, Seq<usize>>,
    dst: Map<AgentId, Seq<usize>>,
    g: Seq<AgentId>,
    addr: u64,
) -> Seq<EvtcCombatItem> {
    Seq::new(
        items.len(),
        |i: int| readdressed(items[i], in_lists(src, g, i), in_lists(dst, g, i), addr),
    )
}

/// The lists of `m` for the agents of `g` index rows of `items`.
pub open spec fn lists_in_range(m: Map<AgentId, Seq<usize>>, g: Seq<AgentId>, n: int) -> bool {
    forall|k: int, j: int| 0 <= k < g.len() && 0 <= j < list_or_empty(m, g[k]).len() ==> #[trigger] list_or_empty(m, g[k])[j] < n
}

/// Moves the rows of list `list` to `addr`, on the source or destination side.
fn readdress_list(items: &mut Vec<EvtcCombatItem>, list: &Vec<usize>, addr: u64, src_side: bool)
    requires
        forall|j: int| 0 <= j < list@.len() ==> #[trigger] list@[j] < old(items)@.len(),
    ensures
        final(items)@.len() == old(items)@.len(),
        forall|i: int| 0 <= i < old(items)@.len() ==> #[trigger] final(items)@[i] == if list@.contains(i as usize) {
            readdressed(old(items)@[i], src_side, !src_side, addr)
        } else {
            old(items)@[i]
        },
{
    let ghost o = items@;
    let n = items.len();
    let mut j: usize = 0;
    while j < list.len()
        invariant
            j <= list@.len(),
            n == o.len(),
            items@.len() == o.len(),
            forall|q: int| 0 <= q < list@.len() ==> #[trigger] list@[q] < o.len(),
            forall|i: int| 0 <= i < o.len() ==> #[trigger] items@[i] == if list@.take(j as int).contains(i as usize) {
                readdressed(o[i], src_side, !src_side, addr)
            } else {
                o[i]
            },
        decreases list@.len() - j,
    {
        let idx = list[j];
        let mut it = items[idx];
        if src_side {
            it.src_agent = addr;
        } else {
            it.dst_agent = addr;
        }
        items.set(idx, it);
        proof {
            assert forall|i: int| 0 <= i < o.len() implies #[trigger] items@[i] == if list@.take(j + 1).contains(i as usize) {
                readdressed(o[i], src_side, !src_side, addr)
            } else {
                o[i]
            } by {
                let t0 = list@.take(j as int);
                let t1 = list@.take(j + 1);
                assert(t1 =~= t0.push(idx));
                if i != idx as int {
                    assert(t1.contains(i as usize) == t0.contains(i as usize)) by {
                        if t1.contains(i as usize) {
                            let q = choose|q: int| 0 <= q < t1.len() && t1[q] == i as usize;
                            assert(t1.len() == t0.len() + 1);
                            if q == t0.len() {
                                assert(t1[q] == idx);
                                assert((i as usize) as int == i);
                                assert(false);
                            }
                            assert(t0[q] == i as usize);
                        }
                        if t0.contains(i as usize) {
                            let q = choose|q: int| 0 <= q < t0.len() && t0[q] == i as usize;
                            assert(t1[q] == i as usize);
                        }
                    }
                } else {
                    assert(t1[t1.len() - 1] == idx);
                }
            }
        }
        j = j + 1;
    }
    assert(list@.take(j as int) =~= list@);
}

/// Merges the agents of `group` into one new agent: a copy of the first,
/// aware over the union of their spans, keeping a record of each; their
/// rows (from the lists `src_items` and `dst_items`) move to its address,
/// those that have a master take it as master, and they are removed.
#[verifier::spinoff_prover]
#[verifier::rlimit(40)]
pub fn regroup_agents(
    table: &mut AgentTable,
    group: &Vec<AgentId>,
    items: &mut Vec<EvtcCombatItem>,
    src_items: &BTreeMap<AgentId, Vec<usize>>,
    dst_items: &BTreeMap<AgentId, Vec<usize>>,
) -> (r: AgentId)
    requires
        group@.len() >= 1,
        forall|k: int| 0 <= k < group@.len() ==> live(old(table)@, #[trigger] group@[k] as int),
        old(table)@.len() < NO_AGENT,
        lists_in_range(lists(*src_items), group@, old(items)@.len() as int),
        lists_in_range(lists(*dst_items), group@, old(items)@.len() as int),
    ensures
        r == old(table)@.len(),
        final(table)@.len() == old(table)@.len() + 1,
        live(final(table)@, r as int),
        merged_agent(
            agent_at(final(table)@, r as int),
            agent_at(old(table)@, group@[0] as int),
            group_first_aware(old(table)@, group@),
            group_last_aware(old(table)@, group@),
            group@.map_values(|id: AgentId| merge_record(agent_at(old(table)@, id as int))),
        ),
        final(table)@ == removed_all(
            masters_redirected(old(table)@.push(final(table)@[r as int]), group@, r),
            group@,
        ),
        final(items)@ == rows_readdressed(
            old(items)@,
            lists(*src_items),
            lists(*dst_items),
            group@,
            agent_at(old(table)@, group@[0] as int).address,
        ),
{
    let ghost s = table@;
    let ghost g = group@;
    let ghost src = lists(*src_items);
    let ghost dst = lists(*dst_items);
    let ghost o = items@;
    let first = group[0];
    let mut new_agent = match table.slot(first) {
        Some(a) => AgentItem {
            address: a.address,
            name: a.name.clone(),
            agent_type: a.agent_type,
            spec: a.spec,
            base_spec: a.base_spec,
            id: a.id,
            instid: a.instid,
            toughness: a.toughness,
            healing: a.healing,
            condition: a.condition,
            concentration: a.concentration,
            hitbox_width: a.hitbox_width,
            hitbox_height: a.hitbox_height,
            first_aware: a.first_aware,
            last_aware: a.last_aware,
            master: a.master,
            englobing: NO_AGENT,
            englobed: Vec::new(),
            regrouped: Vec::new(),
            is_fake: a.is_fake,
            is_not_in_squad_friendly_player: a.is_not_in_squad_friendly_player,
            is_unknown: a.is_unknown,
            character: a.character.clone(),
            account: clone_account(&a.account),
            group: a.group,
            unamed: a.unamed,
        },
        None => {
            assert(live(s, g[0] as int));
            return 0;
        },
    };
    let addr = new_agent.address;
    let ghost f = agent_at(s, g[0] as int);
    let mut k: usize = 0;
    while k < group.len()
        invariant
            g == group@,
            g.len() >= 1,
            forall|q: int| 0 <= q < g.len() ==> live(s, #[trigger] g[q] as int),
            s == table@,
            src == lists(*src_items),
            dst == lists(*dst_items),
            lists_in_range(src, g, o.len() as int),
            lists_in_range(dst, g, o.len() as int),
            k <= g.len(),
            addr == f.address,
            f == agent_at(s, g[0] as int),
            items@.len() == o.len(),
            forall|i: int| 0 <= i < o.len() ==> #[trigger] items@[i] == readdressed(
                o[i],
                in_lists(src, g.take(k as int), i),
                in_lists(dst, g.take(k as int), i),
                addr,
            ),
            new_agent.regrouped@ == g.take(k as int).map_values(|id: AgentId| merge_record(agent_at(s, id as int))),
            k == 0 ==> new_agent.first_aware == f.first_aware && new_agent.last_aware == f.last_aware,
            k >= 1 ==> new_agent.first_aware == group_first_aware(s, g.take(k as int)),
            k >= 1 ==> new_agent.last_aware == group_last_aware(s, g.take(k as int)),
            new_agent == (AgentItem {
                first_aware: new_agent.first_aware,
                last_aware: new_agent.last_aware,
                regrouped: new_agent.regrouped,
                ..new_agent
            }),
            merged_agent(
                AgentItem { is_unknown: false, ..new_agent },
                f,
                new_agent.first_aware,
                new_agent.last_aware,
                new_agent.regrouped@,
            ),
        decreases g.len() - k,
    {
        let id = group[k];
        let ghost t0 = g.take(k as int);
        let ghost t1 = g.take(k + 1);
        assert(t1.drop_last() =~= t0);
        assert(t1.last() == id);
        let a = match table.slot(id) {
            Some(a) => a,
            None => {
                assert(live(s, g[k as int] as int));
                return 0;
            },
        };
        proof {
            if k == 0 {
                assert(t1.len() == 1);
            }
        }
        if k == 0 || a.first_aware < new_agent.first_aware {
            new_agent.first_aware = a.first_aware;
        }
        if k == 0 || a.last_aware > new_agent.last_aware {
            new_agent.last_aware = a.last_aware;
        }
        let ghost before = items@;
        let ghost src_here = list_or_empty(src, id);
        let ghost dst_here = list_or_empty(dst, id);
        match src_items.get(&id) {
            Some(list) => {
                assert(list@ == src_here);
                assert forall|j: int| 0 <= j < list@.len() implies #[trigger] list@[j] < items@.len() by {
                    assert(list_or_empty(src, g[k as int])[j] < o.len());
                }
                readdress_list(items, list, addr, true);
            },
            None => {
                assert(src_here =~= Seq::<usize>::empty());
            },
        }
        let ghost mid = items@;
        match dst_items.get(&id) {
            Some(list) => {
                assert(list@ == dst_here);
                assert forall|j: int| 0 <= j < list@.len() implies #[trigger] list@[j] < items@.len() by {
                    assert(list_or_empty(dst, g[k as int])[j] < o.len());
                }
                readdress_list(items, list, addr, false);
            },
            None => {
                assert(dst_here =~= Seq::<usize>::empty());
            },
        }
        proof {
            assert forall|i: int| 0 <= i < o.len() implies #[trigger] items@[i] == readdressed(
                o[i],
                in_lists(src, t1, i),
                in_lists(dst, t1, i),
                addr,
            ) by {
                assert(in_lists(src, t1, i) == (in_lists(src, t0, i) || src_here.contains(i as usize))) by {
                    if in_lists(src, t1, i) {
                        let q = choose|q: int| 0 <= q < t1.len() && #[trigger] list_or_empty(src, t1[q]).contains(i as usize);
                        if q < t0.len() {
                            assert(t0[q] == t1[q]);
                        }
                    }
                    if in_lists(src, t0, i) {
                        let q = choose|q: int| 0 <= q < t0.len() && #[trigger] list_or_empty(src, t0[q]).contains(i as usize);
                        assert(t0[q] == t1[q]);
                    }
                    if src_here.contains(i as usize) {
                        assert(list_or_empty(src, t1[k as int]).contains(i as usize));
                    }
                }
                assert(in_lists(dst, t1, i) == (in_lists(dst, t0, i) || dst_here.contains(i as usize))) by {
                    if in_lists(dst, t1, i) {
                        let q = choose|q: int| 0 <= q < t1.len() && #[trigger] list_or_empty(dst, t1[q]).contains(i as usize);
                        if q < t0.len() {
                            assert(t0[q] == t1[q]);
                        }
                    }
                    if in_lists(dst, t0, i) {
                        let q = choose|q: int| 0 <= q < t0.len() && #[trigger] list_or_empty(dst, t0[q]).contains(i as usize);
                        assert(t0[q] == t1[q]);
                    }
                    if dst_here.contains(i as usize) {
                        assert(list_or_empty(dst, t1[k as int]).contains(i as usize));
                    }
                }
            }
        }
        let rec = AgentMergedFrom {
            first_aware: a.first_aware,
            last_aware: a.last_aware,
            name: a.name.clone(),
            character: a.character.clone(),
            spec: a.spec,
            base_spec: a.base_spec,
            agent_type: a.agent_type,
            toughness: a.toughness,
            healing: a.healing,
            condition: a.condition,
            concentration: a.concentration,
            is_fake: a.is_fake,
        };
        assert(rec == merge_record(agent_at(s, id as int)));
        new_agent.regrouped.push(rec);
        assert(new_agent.regrouped@ =~= t1.map_values(|id: AgentId| merge_record(agent_at(s, id as int))));
        k = k + 1;
    }
    assert(g.take(k as int) =~= g);
    let new_id = table.push_agent(new_agent);
    let ghost s1 = table@;
    let mut k: usize = 0;
    assert(g.take(0) =~= Seq::<AgentId>::empty());
    while k < group.len()
        invariant
            g == group@,
            forall|q: int| 0 <= q < g.len() ==> live(s, #[trigger] g[q] as int),
            s1.len() == s.len() + 1,
            new_id == s.len(),
            k <= g.len(),
            table@ == masters_redirected(s1, g.take(k as int), new_id),
        decreases g.len() - k,
    {
        let id = group[k];
        let ghost t0 = g.take(k as int);
        assert(g.take(k + 1).drop_last() =~= t0);
        let has = match table.slot(id) {
            Some(a) => a.master != NO_AGENT,
            None => false,
        };
        if has {
            table.set_master(id, new_id);
        }
        k = k + 1;
    }
    let ghost s2 = table@;
    let mut k: usize = 0;
    while k < group.len()
        invariant
            g == group@,
            k <= g.len(),
            table@ == removed_all(s2, g.take(k as int)),
        decreases g.len() - k,
    {
        let id = group[k];
        assert(g.take(k + 1).drop_last() =~= g.take(k as int));
        table.remove_agent(id);
        k = k + 1;
    }
    proof {
        assert(g.take(g.len() as int) =~= g);
        assert forall|q: int| 0 <= q < g.len() implies #[trigger] g[q] < new_id by {
            assert(live(s, g[q] as int));
        }
        lemma_redirect_keeps(s1, g, new_id, new_id as int);
        lemma_removed_keeps(s2, g, new_id as int);
    }
    new_id
}

/// Redirecting the masters of `g` leaves the length and every slot outside
/// `g` as they were.
proof fn lemma_redirect_keeps(s: Seq<Option<AgentItem>>, g: Seq<AgentId>, to: AgentId, j: int)
    requires
        0 <= j < s.len(),
        forall|q: int| 0 <= q < g.len() ==> #[trigger] g[q] != j,
    ensures
        masters_redirected(s, g, to).len() == s.len(),
        masters_redirected(s, g, to)[j] == s[j],
    decreases g.len(),
{
    if g.len() > 0 {
        assert forall|q: int| 0 <= q < g.drop_last().len() implies #[trigger] g.drop_last()[q] != j by {
            assert(g.drop_last()[q] == g[q]);
        }
        lemma_redirect_keeps(s, g.drop_last(), to, j);
        assert(g[g.len() - 1] != j);
    }
}

/// Emptying the slots of `g` leaves the length and every slot outside `g`
/// as they were.
proof fn lemma_removed_keeps(s: Seq<Option<AgentItem>>, g: Seq<AgentId>, j: int)
    requires
        0 <= j < s.len(),
        forall|q: int| 0 <= q < g.len() ==> #[trigger] g[q] != j,
    ensures
        removed_all(s, g).len() == s.len(),
        removed_all(s, g)[j] == s[j],
    decreases g.len(),
{
    if g.len() > 0 {
        assert forall|q: int| 0 <= q < g.drop_last().len() implies #[trigger] g.drop_last()[q] != j by {
            assert(g.drop_last()[q] == g[q]);
        }
        lemma_removed_keeps(s, g.drop_last(), j);
        assert(g[g.len() - 1] != j);
    }
}

// ===== players split by specialization and subgroup =====

/// The entries of `enters` (time, subgroup, specialization) where the
/// player's (specialization, subgroup) changes, starting from `(spec0,
/// group0)`; subgroup 0 and unknown specializations are passed over.
pub open spec fn change_points(enters: Seq<(i64, u64, Spec)>, spec0: Spec, group0: i64) -> Seq<(i64, i64, Spec)>
    decreases enters.len(),
{
    if enters.len() == 0 {
        Seq::empty()
    } else {
        let e = enters[0];
        let g = e.1 as i64;
        if e.1 == 0 || e.2 == Spec::Unknown {
            change_points(enters.drop_first(), spec0, group0)
        } else if e.2 != spec0 || g != group0 {
            seq![(e.0, g, e.2)] + change_points(enters.drop_first(), e.2, g)
        } else {
            change_points(enters.drop_first(), spec0, group0)
        }
    }
}

/// The last time of `exits` strictly between `lo` and `hi`.
pub open spec fn last_between(exits: Seq<i64>, lo: i64, hi: i64) -> Option<i64>
    decreases exits.len(),
{
    if exits.len() == 0 {
        None
    } else if lo < exits.last() && exits.last() < hi {
        Some(exits.last())
    } else {
        last_between(exits.drop_last(), lo, hi)
    }
}

/// Where the piece of change point `t` starts, after a piece that started
/// at `prev_start`: midway between `t` and the exit from combat before it,
/// if any; for the first split without such an exit, midway between the
/// player's first aware time and `t`.
pub open spec fn piece_start(t: i64, exits: Seq<i64>, prev_start: i64, first: bool, first_aware: i64) -> i64 {
    match last_between(exits, prev_start, t) {
        Some(x) => half_toward_zero(x.wrapping_add(1).wrapping_add(t)),
        None => if first {
            half_toward_zero(first_aware.wrapping_add(t))
        } else {
            t
        },
    }
}

/// Starts of the pieces of change points `pts`, the first piece following
/// one that started at `prev_start`.
pub open spec fn piece_starts(pts: Seq<(i64, i64, Spec)>, exits: Seq<i64>, prev_start: i64, first: bool, first_aware: i64) -> Seq<i64>
    decreases pts.len(),
{
    if pts.len() == 0 {
        Seq::empty()
    } else {
        let st = piece_start(pts[0].0, exits, prev_start, first, first_aware);
        seq![st] + piece_starts(pts.drop_first(), exits, st, false, first_aware)
    }
}

/// Piece `a` of player `p`: a copy over `[start, end]` with
/// specialization `spec`, a part of `root`, fresh among the agents of `s`.
pub open spec fn split_piece(a: AgentItem, p: AgentItem, root: AgentId, start: i64, end: i64, spec: Spec, s: Seq<Option<AgentItem>>) -> bool {
    &&& custom_copy(AgentItem { englobing: NO_AGENT, ..a }, p, start, end, spec)
    &&& a.englobing == root
    &&& fresh_in(a, s)
}

/// `e` with the ids of `ids` appended, each unless it is there already.
pub open spec fn with_parts(e: Seq<AgentId>, ids: Seq<AgentId>) -> Seq<AgentId>
    decreases ids.len(),
{
    if ids.len() == 0 {
        e
    } else {
        let e1 = with_parts(e, ids.drop_last());
        if e1.contains(ids.last()) {
            e1
        } else {
            e1.push(ids.last())
        }
    }
}

/// The subgroup a player starts in: its subgroup field, or 0.
pub open spec fn group_or_zero(a: AgentItem) -> i64 {
    match a.group {
        Some(g) => g as i64,
        None => 0,
    }
}

/// Piece `j` of the split of `root` (of table `o`) over change points `pts`
/// starting at `st`, in table `s` after `k` pieces: at slot `len + 1 + j`,
/// ending one before the next piece or, for the last one, when the player
/// does.
pub open spec fn piece_ok(
    o: Seq<Option<AgentItem>>,
    s: Seq<Option<AgentItem>>,
    root: AgentId,
    pts: Seq<(i64, i64, Spec)>,
    st: Seq<i64>,
    k: int,
    j: int,
) -> bool {
    let n = o.len() as int;
    let r0 = agent_at(o, root as int);
    &&& live(s, n + 1 + j)
    &&& split_piece(
        agent_at(s, n + 1 + j),
        r0,
        root,
        st[j],
        if j + 1 < k {
            st[j + 1].wrapping_sub(1)
        } else {
            r0.last_aware
        },
        pts[j].2,
        s.subrange(0, n + 1 + j),
    )
}

/// Ids `from`, `from + 1`, ... (`count` of them).
pub open spec fn id_run(from: int, count: int) -> Seq<AgentId> {
    Seq::new(count as nat, |j: int| (from + j) as AgentId)
}

/// Table `s` holds the split of `root` (of table `o`) after `k >= 1` pieces:
/// the piece before the first change at slot `len`, the pieces of the
/// change points after it, all parts of `root`, nothing else changed.
pub open spec fn split_done(
    o: Seq<Option<AgentItem>>,
    s: Seq<Option<AgentItem>>,
    root: AgentId,
    pts: Seq<(i64, i64, Spec)>,
    st: Seq<i64>,
    k: int,
) -> bool {
    let n = o.len() as int;
    let r0 = agent_at(o, root as int);
    &&& s.len() == n + k + 1
    &&& forall|i: int| 0 <= i < n && i != root ==> s[i] == o[i]
    &&& live(s, root as int)
    &&& agent_at(s, root as int) == (AgentItem { englobed: agent_at(s, root as int).englobed, ..r0 })
    &&& agent_at(s, root as int).englobed@ == with_parts(r0.englobed@, id_run(n, k + 1))
    &&& live(s, n)
    &&& split_piece(agent_at(s, n), r0, root, r0.first_aware, st[0].wrapping_sub(1), r0.spec, s.subrange(0, n))
    &&& forall|j: int| 0 <= j < k ==> #[trigger] piece_ok(o, s, root, pts, st, k, j)
}

/// Consecutive change points differ, and the first differs from the start.
proof fn lemma_points_differ(enters: Seq<(i64, u64, Spec)>, spec0: Spec, group0: i64)
    ensures
        ({
            let pts = change_points(enters, spec0, group0);
            &&& pts.len() <= enters.len()
            &&& pts.len() > 0 ==> (pts[0].2 != spec0 || pts[0].1 != group0)
            &&& forall|k: int| 1 <= k < pts.len() ==> (#[trigger] pts[k].2 != pts[k - 1].2 || pts[k].1 != pts[k - 1].1)
        }),
    decreases enters.len(),
{
    if enters.len() > 0 {
        let e = enters[0];
        let g = e.1 as i64;
        if e.1 == 0 || e.2 == Spec::Unknown {
            lemma_points_differ(enters.drop_first(), spec0, group0);
        } else if e.2 != spec0 || g != group0 {
            lemma_points_differ(enters.drop_first(), e.2, g);
            let rest = change_points(enters.drop_first(), e.2, g);
            let pts = change_points(enters, spec0, group0);
            assert(pts == seq![(e.0, g, e.2)] + rest);
            assert forall|k: int| 1 <= k < pts.len() implies (#[trigger] pts[k].2 != pts[k - 1].2 || pts[k].1 != pts[k - 1].1) by {
                assert(pts[k] == rest[k - 1]);
                if k >= 2 {
                    assert(pts[k - 1] == rest[k - 2]);
                }
            }
        } else {
            lemma_points_differ(enters.drop_first(), spec0, group0);
        }
    }
}

/// Element `k` of [`piece_starts`] is the start of point `k` after the
/// previous element (after `prev` for the first).
proof fn lemma_piece_starts(pts: Seq<(i64, i64, Spec)>, exits: Seq<i64>, prev: i64, first: bool, fa: i64, k: int)
    requires
        0 <= k < pts.len(),
    ensures
        piece_starts(pts, exits, prev, first, fa).len() == pts.len(),
        piece_starts(pts, exits, prev, first, fa)[k] == piece_start(
            pts[k].0,
            exits,
            if k == 0 {
                prev
            } else {
                piece_starts(pts, exits, prev, first, fa)[k - 1]
            },
            first && k == 0,
            fa,
        ),
    decreases k,
{
    let st = piece_starts(pts, exits, prev, first, fa);
    let s0 = piece_start(pts[0].0, exits, prev, first, fa);
    let rest = piece_starts(pts.drop_first(), exits, s0, false, fa);
    lemma_starts_len(pts, exits, prev, first, fa);
    if k > 0 {
        lemma_piece_starts(pts.drop_first(), exits, s0, false, fa, k - 1);
        assert(st[k] == rest[k - 1]);
        if k >= 2 {
            assert(st[k - 1] == rest[k - 2]);
        }
    }
}

proof fn lemma_starts_len(pts: Seq<(i64, i64, Spec)>, exits: Seq<i64>, prev: i64, first: bool, fa: i64)
    ensures
        piece_starts(pts, exits, prev, first, fa).len() == pts.len(),
    decreases pts.len(),
{
    if pts.len() > 0 {
        let s0 = piece_start(pts[0].0, exits, prev, first, fa);
        lemma_starts_len(pts.drop_first(), exits, s0, false, fa);
    }
}

/// The last time of `exits` strictly between `lo` and `hi`.
fn last_exit_between(exits: &Vec<i64>, lo: i64, hi: i64) -> (r: Option<i64>)
    ensures
        r == last_between(exits@, lo, hi),
{
    let mut i = exits.len();
    assert(exits@.take(i as int) =~= exits@);
    while i > 0
        invariant
            i <= exits@.len(),
            last_between(exits@, lo, hi) == last_between(exits@.take(i as int), lo, hi),
        decreases i,
    {
        let t = exits[i - 1];
        assert(exits@.take(i as int).last() == t);
        if lo < t && t < hi {
            return Some(t);
        }
        assert(exits@.take(i as int).drop_last() =~= exits@.take(i - 1));
        i = i - 1;
    }
    None
}

/// The same agents in the same slots, with the same addresses and
/// instance ids.
pub open spec fn same_ids(s: Seq<Option<AgentItem>>, s2: Seq<Option<AgentItem>>) -> bool {
    &&& s.len() == s2.len()
    &&& forall|i: int| #![trigger s[i], s2[i]] 0 <= i < s.len() ==> (live(s, i) == live(s2, i))
    &&& forall|i: int| #![trigger s[i], s2[i]] live(s, i) ==> agent_at(s, i).address == agent_at(s2, i).address
        && agent_at(s, i).instid == agent_at(s2, i).instid
}

proof fn lemma_fresh_transfer(a: AgentItem, s: Seq<Option<AgentItem>>, a2: AgentItem, s2: Seq<Option<AgentItem>>)
    requires
        fresh_in(a, s),
        same_ids(s, s2),
        a.address == a2.address,
        a.instid == a2.instid,
    ensures
        fresh_in(a2, s2),
{
    assert forall|i: int| live(s2, i) implies #[trigger] agent_at(s2, i).address != a2.address by {
        assert(s[i] == s[i] && s2[i] == s2[i]);
        assert(live(s, i));
    }
    if a2.instid != 0 {
        assert forall|i: int| live(s2, i) implies #[trigger] agent_at(s2, i).instid != a2.instid by {
            assert(s[i] == s[i] && s2[i] == s2[i]);
            assert(live(s, i));
        }
    }
    if exists|v: u16| INSTID_BASE <= v < 2 * INSTID_BASE && #[trigger] instid_free(s2, v) {
        let v = choose|v: u16| INSTID_BASE <= v < 2 * INSTID_BASE && #[trigger] instid_free(s2, v);
        assert forall|i: int| live(s, i) implies #[trigger] agent_at(s, i).instid != v by {
            assert(s[i] == s[i] && s2[i] == s2[i]);
            assert(live(s2, i));
        }
        assert(instid_free(s, v));
    }
}

/// Adds a piece of `root` over `[start, end]` with specialization `spec`,
/// as a part of `root`.
fn add_piece(table: &mut AgentTable, root: AgentId, start: i64, end: i64, spec: Spec) -> (r: AgentId)
    requires
        live(old(table)@, root as int),
        old(table)@.len() < NO_AGENT,
    ensures
        r == old(table)@.len(),
        final(table)@.len() == old(table)@.len() + 1,
        forall|i: int| 0 <= i < old(table)@.len() && i != root ==> final(table)@[i] == old(table)@[i],
        live(final(table)@, root as int),
        agent_at(final(table)@, root as int) == (AgentItem {
            englobed: agent_at(final(table)@, root as int).englobed,
            ..agent_at(old(table)@, root as int)
        }),
        agent_at(final(table)@, root as int).englobed@ == if agent_at(old(table)@, root as int).englobed@.contains(r) {
            agent_at(old(table)@, root as int).englobed@
        } else {
            agent_at(old(table)@, root as int).englobed@.push(r)
        },
        live(final(table)@, r as int),
        split_piece(agent_at(final(table)@, r as int), agent_at(old(table)@, root as int), root, start, end, spec, old(table)@),
{
    let ghost s0 = table@;
    let id = add_custom_agent_from(table, root, start, end, spec);
    let ghost s1 = table@;
    table.set_englobing(id, root);
    proof {
        let s1u = s1.update(id as int, Some(AgentItem { englobing: root, ..agent_at(s1, id as int) }));
        assert(live(s1, id as int));
        assert(with_englobing(s1, id, root) == s1u);
        assert(table@[id as int] == s1u[id as int]);
        assert(s1.subrange(0, id as int) =~= s0);
        assert(s1[root as int] == s0[root as int]);
        assert(root != id);
        assert forall|i: int| 0 <= i < s0.len() && i != root implies table@[i] == s0[i] by {
            assert(s1.subrange(0, id as int)[i] == s1[i]);
            assert(table@[i] == s1u[i]);
        }
    }
    id
}

/// Same liveness, addresses and instance ids below slot `m`.
pub open spec fn ids_agree(s: Seq<Option<AgentItem>>, s2: Seq<Option<AgentItem>>, m: int) -> bool {
    &&& m <= s.len()
    &&& m <= s2.len()
    &&& forall|i: int| 0 <= i < m ==> #[trigger] live(s, i) == live(s2, i)
    &&& forall|i: int| 0 <= i < m && live(s, i) ==> #[trigger] agent_at(s, i).address == agent_at(s2, i).address
        && agent_at(s, i).instid == agent_at(s2, i).instid
}

/// A piece stays a piece, with its end moved to `end2`, when the slots
/// below it keep their ids and its other fields stay; its player may be
/// replaced by one that differs only in its parts.
proof fn lemma_piece_kept(
    a: AgentItem,
    p: AgentItem,
    root: AgentId,
    start: i64,
    end: i64,
    spec: Spec,
    s: Seq<Option<AgentItem>>,
    a2: AgentItem,
    p2: AgentItem,
    end2: i64,
    s2: Seq<Option<AgentItem>>,
    m: int,
)
    requires
        0 <= m,
        split_piece(a, p, root, start, end, spec, s.subrange(0, m)),
        ids_agree(s, s2, m),
        a2 == (AgentItem { last_aware: end2, ..a }),
        p2 == (AgentItem { englobed: p2.englobed, ..p }),
    ensures
        split_piece(a2, p2, root, start, end2, spec, s2.subrange(0, m)),
{
    let x = s.subrange(0, m);
    let y = s2.subrange(0, m);
    assert(same_ids(x, y)) by {
        assert forall|i: int| #![trigger x[i], y[i]] 0 <= i < x.len() implies live(x, i) == live(y, i) by {
            assert(x[i] == s[i] && y[i] == s2[i]);
            assert(live(s, i) == live(s2, i));
        }
        assert forall|i: int| #![trigger x[i], y[i]] live(x, i) implies agent_at(x, i).address == agent_at(y, i).address
            && agent_at(x, i).instid == agent_at(y, i).instid by {
            assert(0 <= i < m);
            assert(x[i] == s[i] && y[i] == s2[i]);
            assert(live(s, i));
            assert(agent_at(s, i).address == agent_at(s2, i).address);
            assert(agent_at(s, i).instid == agent_at(s2, i).instid);
        }
    }
    lemma_fresh_transfer(a, x, a2, y);
}

/// Splits player `root` at its changes of (specialization, subgroup) in
/// `enters` (time order): a first piece up to the first change, then one
/// piece per change, each a part of `root`. Returns the number of changes.
#[verifier::spinoff_prover]
#[verifier::rlimit(60)]
pub fn split_one_player(table: &mut AgentTable, root: AgentId, enters: &Vec<(i64, u64, Spec)>, exits: &Vec<i64>) -> (r: usize)
    requires
        live(old(table)@, root as int),
        old(table)@.len() + enters@.len() + 2 < NO_AGENT,
    ensures
        ({
            let r0 = agent_at(old(table)@, root as int);
            let pts = change_points(enters@, r0.spec, group_or_zero(r0));
            let st = piece_starts(pts, exits@, 0, true, r0.first_aware);
            &&& r == pts.len()
            &&& r == 0 ==> final(table)@ == old(table)@
            &&& r > 0 ==> split_done(old(table)@, final(table)@, root, pts, st, r as int)
        }),
{
    let ghost o = table@;
    let ghost n = o.len() as int;
    let (spec0, group0, fa) = match table.slot(root) {
        Some(a) => (a.spec, match a.group {
            Some(g) => g as i64,
            None => 0i64,
        }, a.first_aware),
        None => {
            return 0;
        },
    };
    let ghost r0 = agent_at(o, root as int);
    let ghost pts = change_points(enters@, spec0, group0);
    let mut list: Vec<(i64, i64, Spec)> = Vec::new();
    let mut ps = spec0;
    let mut pg = group0;
    let mut i: usize = 0;
    assert(enters@.skip(0) =~= enters@);
    assert(list@ + pts =~= pts);
    while i < enters.len()
        invariant
            i <= enters@.len(),
            list@ + change_points(enters@.skip(i as int), ps, pg) == pts,
        decreases enters@.len() - i,
    {
        let (time, subgroup, spec) = enters[i];
        let ghost rest = enters@.skip(i as int);
        assert(rest.drop_first() =~= enters@.skip(i + 1));
        assert(rest[0] == enters@[i as int]);
        if !(subgroup == 0 || spec == Spec::Unknown) {
            let sg = subgroup as i64;
            if spec != ps || sg != pg {
                let ghost before = list@;
                ps = spec;
                pg = sg;
                list.push((time, sg, spec));
                assert(list@ + change_points(enters@.skip(i + 1), ps, pg) =~= before + (seq![(time, sg, spec)] + change_points(enters@.skip(i + 1), ps, pg)));
            }
        }
        i = i + 1;
    }
    assert(enters@.skip(i as int) =~= Seq::<(i64, u64, Spec)>::empty());
    assert(list@ =~= pts);
    if list.len() == 0 {
        return 0;
    }
    proof {
        lemma_points_differ(enters@, spec0, group0);
        lemma_starts_len(pts, exits@, 0, true, fa);
    }
    let ghost st = piece_starts(pts, exits@, 0, true, fa);
    let mut pieces: usize = 0;
    let mut previous_player = root;
    let mut first_split = true;
    let mut previous_start: i64 = 0;
    let mut prev_spec = spec0;
    let mut prev_group = group0;
    let mut k: usize = 0;
    while k < list.len()
        invariant
            list@ == pts,
            pts.len() > 0,
            pts.len() <= enters@.len(),
            k <= pts.len(),
            o.len() + enters@.len() + 2 < NO_AGENT,
            n == o.len(),
            live(o, root as int),
            r0 == agent_at(o, root as int),
            spec0 == r0.spec,
            group0 == group_or_zero(r0),
            fa == r0.first_aware,
            pts == change_points(enters@, spec0, group0),
            st == piece_starts(pts, exits@, 0, true, fa),
            st.len() == pts.len(),
            pts[0].2 != spec0 || pts[0].1 != group0,
            forall|q: int| 1 <= q < pts.len() ==> (#[trigger] pts[q].2 != pts[q - 1].2 || pts[q].1 != pts[q - 1].1),
            pieces == k,
            k == 0 ==> table@ == o && previous_player == root && first_split && previous_start == 0
                && prev_spec == spec0 && prev_group == group0,
            k > 0 ==> split_done(o, table@, root, pts, st, k as int) && previous_player == n + k
                && !first_split && previous_start == st[k - 1] && prev_spec == pts[k - 1].2
                && prev_group == pts[k - 1].1,
        decreases pts.len() - k,
    {
        let (start0, group, spec) = list[k];
        if spec == prev_spec && group == prev_group {
            assert(false);
            k = k + 1;
            continue;
        }
        prev_spec = spec;
        prev_group = group;
        proof {
            lemma_piece_starts(pts, exits@, 0, true, fa, k as int);
        }
        let prev_exit = last_exit_between(exits, previous_start, start0);
        let mut start = match prev_exit {
            Some(e) => e.wrapping_add(1).wrapping_add(start0) / 2,
            None => start0,
        };
        let end = match table.slot(previous_player) {
            Some(a) => a.last_aware,
            None => 0,
        };
        let ghost tk = table@;
        if first_split {
            first_split = false;
            if prev_exit.is_none() {
                start = fa.wrapping_add(start) / 2;
            }
            assert(start == st[0]);
            let piece_a = add_piece(table, root, fa, start.wrapping_sub(1), spec0);
            previous_player = piece_a;
        }
        assert(start == st[k as int]);
        let ghost t1 = table@;
        let piece_b = add_piece(table, root, start, end, spec);
        let ghost t2 = table@;
        proof {
            if k == 0 {
                assert(live(t2, n));
            } else {
                assert(piece_ok(o, tk, root, pts, st, k as int, k - 1));
                assert(live(t2, n + k));
                assert(end == r0.last_aware);
            }
        }
        match table.slot_mut(previous_player) {
            Some(p) => {
                p.last_aware = start.wrapping_sub(1);
            },
            None => {},
        }
        proof {
            let t3 = table@;
            let pa = agent_at(t2, previous_player as int);
            let ku = k as int;
            assert(t3 == t2.update(previous_player as int, Some(AgentItem { last_aware: start.wrapping_sub(1), ..pa })));
            assert(ids_agree(t2, t3, t3.len() as int));
            assert(ids_agree(t1, t3, t1.len() as int));
            assert(id_run(n, ku + 2).drop_last() =~= id_run(n, ku + 1));
            assert(id_run(n, ku + 2).last() == (n + ku + 1) as AgentId);
            if k == 0 {
                assert(id_run(n, 1).drop_last() =~= Seq::<AgentId>::empty());
                assert(id_run(n, 1).last() == n as AgentId);
                assert(with_parts(r0.englobed@, Seq::<AgentId>::empty()) == r0.englobed@);
                assert(with_parts(r0.englobed@, id_run(n, 1)) == agent_at(t1, root as int).englobed@);
                assert(with_parts(r0.englobed@, id_run(n, 2)) == agent_at(t2, root as int).englobed@);
                assert(ids_agree(o, t3, n));
                assert(o.subrange(0, n) =~= o);
                assert(t1.subrange(0, n + 1) =~= t1);
                assert(pa == agent_at(t1, n));
                lemma_piece_kept(agent_at(t1, n), r0, root, fa, st[0].wrapping_sub(1), spec0, o, agent_at(t3, n), r0, st[0].wrapping_sub(1), t3, n);
                lemma_piece_kept(
                    agent_at(t2, n + 1), agent_at(t1, root as int), root, st[0], r0.last_aware, pts[0].2, t1,
                    agent_at(t3, n + 1), r0, r0.last_aware, t3, n + 1,
                );
                assert(piece_ok(o, t3, root, pts, st, 1, 0));
                assert forall|j: int| 0 <= j < 1 implies #[trigger] piece_ok(o, t3, root, pts, st, 1, j) by {}
            } else {
                assert(with_parts(r0.englobed@, id_run(n, ku + 2)) == agent_at(t2, root as int).englobed@);
                assert(ids_agree(tk, t3, n + ku));
                assert(tk.subrange(0, n + ku + 1) =~= tk);
                lemma_piece_kept(agent_at(tk, n), r0, root, fa, st[0].wrapping_sub(1), spec0, tk, agent_at(t3, n), r0, st[0].wrapping_sub(1), t3, n);
                assert forall|j: int| 0 <= j < ku + 1 implies #[trigger] piece_ok(o, t3, root, pts, st, ku + 1, j) by {
                    if j < ku - 1 {
                        assert(piece_ok(o, tk, root, pts, st, ku, j));
                        lemma_piece_kept(
                            agent_at(tk, n + 1 + j), r0, root, st[j], st[j + 1].wrapping_sub(1), pts[j].2, tk,
                            agent_at(t3, n + 1 + j), r0, st[j + 1].wrapping_sub(1), t3, n + 1 + j,
                        );
                    } else if j == ku - 1 {
                        assert(piece_ok(o, tk, root, pts, st, ku, j));
                        lemma_piece_kept(
                            agent_at(tk, n + 1 + j), r0, root, st[j], r0.last_aware, pts[j].2, tk,
                            agent_at(t3, n + 1 + j), r0, st[j + 1].wrapping_sub(1), t3, n + 1 + j,
                        );
                    } else {
                        assert(t1.subrange(0, n + 1 + j) =~= t1);
                        lemma_piece_kept(
                            agent_at(t2, n + 1 + j), agent_at(t1, root as int), root, st[j], r0.last_aware, pts[j].2, t1,
                            agent_at(t3, n + 1 + j), r0, r0.last_aware, t3, n + 1 + j,
                        );
                    }
                }
            }
            let k1 = ku + 1;
            assert(t3.len() == n + k1 + 1);
            assert(forall|i: int| 0 <= i < n && i != root ==> t3[i] == o[i]);
            assert(live(t3, root as int));
            assert(agent_at(t3, root as int) == (AgentItem { englobed: agent_at(t3, root as int).englobed, ..r0 }));
            assert(agent_at(t3, root as int).englobed@ == with_parts(r0.englobed@, id_run(n, k1 + 1)));
            assert(live(t3, n));
            assert(split_piece(agent_at(t3, n), r0, root, r0.first_aware, st[0].wrapping_sub(1), r0.spec, t3.subrange(0, n)));
            assert(forall|j: int| 0 <= j < k1 ==> #[trigger] piece_ok(o, t3, root, pts, st, k1, j));
        }
        previous_player = piece_b;
        previous_start = start;
        pieces = pieces + 1;
        k = k + 1;
    }
    pieces
}

/// Times of enter rows, as sort keys.
pub open spec fn enter_keys(v: Seq<(i64, u64, Spec)>) -> Seq<i128> {
    v.map_values(|e: (i64, u64, Spec)| e.0 as i128)
}

/// Times as sort keys.
pub open spec fn time_keys(v: Seq<i64>) -> Seq<i128> {
    v.map_values(|t: i64| t as i128)
}

/// `en` is `v` sorted by time, equal times in the order of `v`.
pub open spec fn sorted_by_time(v: Seq<(i64, u64, Spec)>, en: Seq<(i64, u64, Spec)>) -> bool {
    exists|p: Seq<usize>| #[trigger] is_stable_order(enter_keys(v), p) && en.len() == p.len()
        && forall|i: int| 0 <= i < p.len() ==> #[trigger] en[i] == v[p[i] as int]
}

/// `xs` is `v` in increasing order.
pub open spec fn times_sorted(v: Seq<i64>, xs: Seq<i64>) -> bool {
    exists|p: Seq<usize>| #[trigger] is_stable_order(time_keys(v), p) && xs.len() == p.len()
        && forall|i: int| 0 <= i < p.len() ==> #[trigger] xs[i] == v[p[i] as int]
}

/// The enter rows in time order, equal times in row order.
fn sort_enters(v: &Vec<(i64, u64, Spec)>) -> (r: Vec<(i64, u64, Spec)>)
    ensures
        sorted_by_time(v@, r@),
{
    let mut keys: Vec<i128> = Vec::new();
    let mut i: usize = 0;
    while i < v.len()
        invariant
            i <= v@.len(),
            keys@ =~= enter_keys(v@).take(i as int),
        decreases v@.len() - i,
    {
        keys.push(v[i].0 as i128);
        i = i + 1;
    }
    assert(keys@ =~= enter_keys(v@));
    let p = stable_order(&keys);
    let mut out: Vec<(i64, u64, Spec)> = Vec::new();
    let mut k: usize = 0;
    while k < p.len()
        invariant
            is_stable_order(keys@, p@),
            keys@.len() == v@.len(),
            k <= p@.len(),
            out@.len() == k,
            forall|q: int| 0 <= q < k ==> #[trigger] out@[q] == v@[p@[q] as int],
        decreases p@.len() - k,
    {
        out.push(v[p[k]]);
        k = k + 1;
    }
    out
}

/// Times in increasing order.
fn sort_times(v: &Vec<i64>) -> (r: Vec<i64>)
    ensures
        times_sorted(v@, r@),
{
    let mut keys: Vec<i128> = Vec::new();
    let mut i: usize = 0;
    while i < v.len()
        invariant
            i <= v@.len(),
            keys@ =~= time_keys(v@).take(i as int),
        decreases v@.len() - i,
    {
        keys.push(v[i] as i128);
        i = i + 1;
    }
    assert(keys@ =~= time_keys(v@));
    let p = stable_order(&keys);
    let mut out: Vec<i64> = Vec::new();
    let mut k: usize = 0;
    while k < p.len()
        invariant
            is_stable_order(keys@, p@),
            keys@.len() == v@.len(),
            k <= p@.len(),
            out@.len() == k,
            forall|q: int| 0 <= q < k ==> #[trigger] out@[q] == v@[p@[q] as int],
        decreases p@.len() - k,
    {
        out.push(v[p[k]]);
        k = k + 1;
    }
    out
}

/// Slot `i` of `s2` is that of `s` but for the parts of the agent.
pub open spec fn same_but_parts(s: Seq<Option<AgentItem>>, s2: Seq<Option<AgentItem>>, i: int) -> bool {
    &&& live(s2, i)
    &&& agent_at(s2, i) == (AgentItem { englobed: agent_at(s2, i).englobed, ..agent_at(s, i) })
}

/// Time and destination of the enter-combat rows of `items` whose source
/// resolves to `root` in `s`, in row order.
pub open spec fn enter_rows(s: Seq<Option<AgentItem>>, items: Seq<EvtcCombatItem>, root: AgentId) -> Seq<(i64, u64)>
    decreases items.len(),
{
    if items.len() == 0 {
        Seq::empty()
    } else {
        let rest = enter_rows(s, items.drop_last(), root);
        let it = items.last();
        if it.state_change == StateChange::EnterCombat && resolved_at(s, it.src_agent, it.time) == root {
            rest.push((it.time, it.dst_agent))
        } else {
            rest
        }
    }
}

/// Times of the exit-combat rows of `items` whose source resolves to `root`
/// in `s`, in row order.
pub open spec fn exit_rows(s: Seq<Option<AgentItem>>, items: Seq<EvtcCombatItem>, root: AgentId) -> Seq<i64>
    decreases items.len(),
{
    if items.len() == 0 {
        Seq::empty()
    } else {
        let rest = exit_rows(s, items.drop_last(), root);
        let it = items.last();
        if it.state_change == StateChange::ExitCombat && resolved_at(s, it.src_agent, it.time) == root {
            rest.push(it.time)
        } else {
            rest
        }
    }
}

/// Time and destination of each enter row.
pub open spec fn enter_times(v: Seq<(i64, u64, Spec)>) -> Seq<(i64, u64)> {
    v.map_values(|e: (i64, u64, Spec)| (e.0, e.1))
}

/// A table of `len` slots has room for a player with `n` enter rows.
pub open spec fn split_fits(len: nat, n: nat) -> bool {
    len + n + 2 < NO_AGENT
}

/// What splitting `root` at the sorted enter rows `en` and exit times `xs`
/// makes of `t0`.
pub open spec fn split_effect(
    t0: Seq<Option<AgentItem>>,
    t1: Seq<Option<AgentItem>>,
    root: AgentId,
    en: Seq<(i64, u64, Spec)>,
    xs: Seq<i64>,
) -> bool {
    let r0 = agent_at(t0, root as int);
    let pts = change_points(en, r0.spec, group_or_zero(r0));
    let st = piece_starts(pts, xs, 0, true, r0.first_aware);
    &&& pts.len() == 0 ==> t1 == t0
    &&& pts.len() > 0 ==> split_done(t0, t1, root, pts, st, pts.len() as int)
}

/// `t1` is `t0` with player `root` split at its enter-combat rows of
/// `items` (each with the specialization that the catalogue gave it),
/// sorted by time, and its exit-combat times, sorted.
pub open spec fn split_step(
    t0: Seq<Option<AgentItem>>,
    t1: Seq<Option<AgentItem>>,
    root: AgentId,
    items: Seq<EvtcCombatItem>,
) -> bool {
    exists|v: Seq<(i64, u64, Spec)>, en: Seq<(i64, u64, Spec)>, xs: Seq<i64>|
        #![trigger sorted_by_time(v, en), times_sorted(exit_rows(t0, items, root), xs)]
        enter_times(v) == enter_rows(t0, items, root) && sorted_by_time(v, en) && times_sorted(
            exit_rows(t0, items, root),
            xs,
        ) && split_effect(t0, t1, root, en, xs)
}

/// Step `k` of the run `ts`: player `players[k]` fits and is split.
pub open spec fn step_at(
    ts: Seq<Seq<Option<AgentItem>>>,
    items: Seq<EvtcCombatItem>,
    players: Seq<AgentId>,
    k: int,
) -> bool {
    &&& split_fits(ts[k].len(), enter_rows(ts[k], items, players[k]).len())
    &&& split_step(ts[k], ts[k + 1], players[k], items)
}

/// The squad players of `o` in (first aware, id) order.
pub open spec fn player_roots(o: Seq<Option<AgentItem>>, players: Seq<AgentId>) -> bool {
    &&& key_sorted(o, players)
    &&& forall|x: AgentId| players.contains(x) <==> (live(o, x as int) && root_of_type(AgentType::Player)(agent_at(o, x as int)))
}

/// The tables `ts` run from `o` to `f`, one player of `players` split per
/// step while the table has room for it, stopping at the first that does not fit.
pub open spec fn split_run(
    o: Seq<Option<AgentItem>>,
    f: Seq<Option<AgentItem>>,
    items: Seq<EvtcCombatItem>,
    players: Seq<AgentId>,
    ts: Seq<Seq<Option<AgentItem>>>,
) -> bool {
    &&& player_roots(o, players)
    &&& 1 <= ts.len() <= players.len() + 1
    &&& ts[0] == o
    &&& ts.last() == f
    &&& forall|k: int| 0 <= k < ts.len() - 1 ==> #[trigger] step_at(ts, items, players, k)
    &&& ts.len() - 1 < players.len() ==> !split_fits(
        ts.last().len(),
        enter_rows(ts.last(), items, players[ts.len() - 1]).len(),
    )
}

/// Splits every squad player at its changes of specialization (decoded by
/// `catalog`) and subgroup, as its enter-combat rows give them; its
/// exit-combat rows place each change. Players are taken while the table
/// has room for their pieces.
#[verifier::spinoff_prover]
pub fn split_players_by_enter_combat<C: SpecCatalog>(
    table: &mut AgentTable,
    items: &Vec<EvtcCombatItem>,
    catalog: &C,
    stats: &mut LinkStats,
)
    requires
        old(table)@.len() < NO_AGENT,
        old(stats).split_pieces_created < 0x1_0000_0000,
    ensures
        final(table)@.len() >= old(table)@.len(),
        final(table)@.len() < NO_AGENT,
        forall|i: int| 0 <= i < old(table)@.len() ==> if live(old(table)@, i) && root_of_type(AgentType::Player)(agent_at(old(table)@, i)) {
            same_but_parts(old(table)@, final(table)@, i)
        } else {
            final(table)@[i] == old(table)@[i]
        },
        forall|i: int| old(table)@.len() <= i < final(table)@.len() ==> live(final(table)@, i) && {
            let e = agent_at(final(table)@, i).englobing;
            &&& live(old(table)@, e as int)
            &&& root_of_type(AgentType::Player)(agent_at(old(table)@, e as int))
        },
        *final(stats) == (LinkStats { split_pieces_created: final(stats).split_pieces_created, ..*old(stats) }),
        final(stats).split_pieces_created - old(stats).split_pieces_created <= final(table)@.len() - old(table)@.len(),
        exists|players: Seq<AgentId>, ts: Seq<Seq<Option<AgentItem>>>| #[trigger] split_run(old(table)@, final(table)@, items@, players, ts),
{
    let ghost o = table@;
    let ghost st0 = *stats;
    let players = table.agents_by_type(AgentType::Player);
    let ghost mut ts: Seq<Seq<Option<AgentItem>>> = seq![o];
    let mut pi: usize = 0;
    while pi < players.len()
        invariant
            pi <= players@.len(),
            player_roots(o, players@),
            ts.len() == pi + 1,
            ts[0] == o,
            ts.last() == table@,
            forall|k: int| 0 <= k < ts.len() - 1 ==> #[trigger] step_at(ts, items@, players@, k),
            table@.len() >= o.len(),
            table@.len() < NO_AGENT,
            o.len() < NO_AGENT,
            forall|x: AgentId| players@.contains(x) <==> (live(o, x as int) && root_of_type(AgentType::Player)(agent_at(o, x as int))),
            forall|i: int| 0 <= i < o.len() ==> if live(o, i) && root_of_type(AgentType::Player)(agent_at(o, i)) {
                same_but_parts(o, table@, i)
            } else {
                table@[i] == o[i]
            },
            forall|i: int| o.len() <= i < table@.len() ==> live(table@, i) && {
                let e = agent_at(table@, i).englobing;
                &&& live(o, e as int)
                &&& root_of_type(AgentType::Player)(agent_at(o, e as int))
            },
            *stats == (LinkStats { split_pieces_created: stats.split_pieces_created, ..st0 }),
            stats.split_pieces_created >= st0.split_pieces_created,
            stats.split_pieces_created - st0.split_pieces_created <= table@.len() - o.len(),
            st0.split_pieces_created < 0x1_0000_0000,
        ensures
            pi <= players@.len(),
            ts.len() == pi + 1,
            ts.last() == table@,
            pi < players@.len() ==> !split_fits(ts.last().len(), enter_rows(ts.last(), items@, players@[pi as int]).len()),
        decreases players@.len() - pi,
    {
        let root = players[pi];
        assert(players@.contains(root));
        let mut enters: Vec<(i64, u64, Spec)> = Vec::new();
        let mut exits: Vec<i64> = Vec::new();
        let mut j: usize = 0;
        let ghost tb = table@;
        assert(enter_times(enters@) =~= enter_rows(tb, items@.take(0), root));
        assert(exits@ =~= exit_rows(tb, items@.take(0), root));
        while j < items.len()
            invariant
                j <= items@.len(),
                enters@.len() <= j,
                table@ == tb,
                tb.len() < NO_AGENT,
                enter_times(enters@) == enter_rows(tb, items@.take(j as int), root),
                exits@ == exit_rows(tb, items@.take(j as int), root),
            decreases items@.len() - j,
        {
            let item = items[j];
            assert(items@.take(j + 1).drop_last() =~= items@.take(j as int));
            assert(items@.take(j + 1).last() == item);
            let ghost v0 = enters@;
            if item.state_change == StateChange::EnterCombat {
                let a = table.resolve_agent(item.src_agent, item.time);
                proof {
                    lemma_resolved_at(tb, item.src_agent, item.time, a);
                }
                if a == root {
                    let spec = catalog.spec_of(item.value as u32, item.buff_dmg as u32);
                    enters.push((item.time, item.dst_agent, spec));
                    assert(enter_times(enters@) =~= enter_times(v0).push((item.time, item.dst_agent)));
                }
            } else if item.state_change == StateChange::ExitCombat {
                let a = table.resolve_agent(item.src_agent, item.time);
                proof {
                    lemma_resolved_at(tb, item.src_agent, item.time, a);
                }
                if a == root {
                    exits.push(item.time);
                }
            }
            j = j + 1;
        }
        assert(items@.take(j as int) =~= items@);
        let ghost v = enters@;
        let ghost ex = exits@;
        let enters = sort_enters(&enters);
        let exits = sort_times(&exits);
        assert(enters@.len() == v.len());
        assert(enter_times(v).len() == v.len());
        let room = (NO_AGENT as usize) - table.slot_count();
        if room < 3 || enters.len() >= room - 2 {
            assert(!split_fits(ts.last().len(), enter_rows(ts.last(), items@, players@[pi as int]).len()));
            break;
        }
        assert(split_fits(tb.len(), enter_rows(tb, items@, root).len()));
        let ghost t0 = table@;
        assert(live(o, root as int) && root_of_type(AgentType::Player)(agent_at(o, root as int)));
        assert(same_but_parts(o, t0, root as int));
        let pieces = split_one_player(table, root, &enters, &exits);
        proof {
            let r0 = agent_at(t0, root as int);
            lemma_points_differ(enters@, r0.spec, group_or_zero(r0));
            assert forall|i: int| o.len() <= i < table@.len() implies live(table@, i) && {
                let e = agent_at(table@, i).englobing;
                &&& live(o, e as int)
                &&& root_of_type(AgentType::Player)(agent_at(o, e as int))
            } by {
                if i < t0.len() {
                    assert(root as int != i);
                    assert(table@[i] == t0[i]);
                    assert(live(t0, i));
                } else {
                    let pts = change_points(enters@, r0.spec, group_or_zero(r0));
                    let st = piece_starts(pts, exits@, 0, true, r0.first_aware);
                    assert(pieces > 0);
                    assert(live(o, root as int) && root_of_type(AgentType::Player)(agent_at(o, root as int)));
                    assert(split_done(t0, table@, root, pts, st, pieces as int));
                    let n = t0.len() as int;
                    if i > n {
                        assert(piece_ok(t0, table@, root, pts, st, pieces as int, i - n - 1));
                    }
                    assert(agent_at(table@, i).englobing == root);
                }
            }
        }
        proof {
            assert(split_effect(t0, table@, root, enters@, exits@));
            assert(enter_times(v) == enter_rows(t0, items@, root) && sorted_by_time(v, enters@) && times_sorted(
                exit_rows(t0, items@, root),
                exits@,
            ) && split_effect(t0, table@, root, enters@, exits@));
            assert(split_step(t0, table@, root, items@));
            let ts0 = ts;
            ts = ts.push(table@);
            assert forall|k: int| 0 <= k < ts.len() - 1 implies #[trigger] step_at(ts, items@, players@, k) by {
                if k < ts0.len() - 1 {
                    assert(step_at(ts0, items@, players@, k));
                    assert(ts[k] == ts0[k]);
                    assert(ts[k + 1] == ts0[k + 1]);
                } else {
                    assert(ts[k] == t0);
                    assert(ts[k + 1] == table@);
                }
            }
        }
        stats.split_pieces_created = stats.split_pieces_created + pieces as u64;
        pi = pi + 1;
    }
    proof {
        assert(split_run(o, table@, items@, players@, ts));
    }
}

// ===== merging the agents that are one =====

/// `b` is `a`, but for the mark of a non-squad player friendly to the squad,
/// which only a non-squad player gets.
pub open spec fn kept_agent(a: AgentItem, b: AgentItem) -> bool {
    &&& b == (AgentItem { is_not_in_squad_friendly_player: b.is_not_in_squad_friendly_player, ..a })
    &&& b.is_not_in_squad_friendly_player != a.is_not_in_squad_friendly_player ==> a.agent_type == AgentType::NonSquadPlayer
}

/// Table `s` comes from `o` by merges: each old slot is kept or emptied, and
/// each new slot holds a root agent merged from two or more agents.
pub open spec fn merged_table(o: Seq<Option<AgentItem>>, s: Seq<Option<AgentItem>>) -> bool {
    &&& merged_core(o, s)
    &&& merged_types(o, s)
}

/// The slots of `s` against those of `o`: each old slot kept or emptied
/// (then recorded in a merged agent), each new slot a merged root agent.
pub open spec fn merged_core(o: Seq<Option<AgentItem>>, s: Seq<Option<AgentItem>>) -> bool {
    &&& s.len() >= o.len()
    &&& forall|i: int| 0 <= i < o.len() ==> #[trigger] s[i] is None || (live(o, i) && kept_agent(agent_at(o, i), agent_at(s, i)))
    &&& forall|i: int| o.len() <= i < s.len() ==> live(s, i) && #[trigger] agent_at(s, i).regrouped@.len() >= 2
        && agent_at(s, i).englobing == NO_AGENT
    &&& forall|i: int| 0 <= i < o.len() && live(o, i) && s[i] is None ==> #[trigger] merged_into(o, s, i)
}

/// Each new slot of `s` is of a kind that some agent of `o` is of.
pub open spec fn merged_types(o: Seq<Option<AgentItem>>, s: Seq<Option<AgentItem>>) -> bool {
    forall|i: int| o.len() <= i < s.len() && live(s, i) ==> has_type(o, (#[trigger] agent_at(s, i)).agent_type)
}

proof fn lemma_merge_types(
    o: Seq<Option<AgentItem>>,
    s: Seq<Option<AgentItem>>,
    g0: int,
    new_agent: Option<AgentItem>,
    s2: Seq<Option<AgentItem>>,
)
    requires
        merged_table(o, s),
        s2.len() == s.len() + 1,
        forall|i: int| 0 <= i < s.len() ==> #[trigger] s2[i] is None || s2[i] == s[i],
        s2[s.len() as int] == new_agent,
        0 <= g0 < o.len(),
        live(s, g0),
        new_agent matches Some(a) && a.agent_type == agent_at(s, g0).agent_type,
    ensures
        merged_types(o, s2),
{
    assert forall|i: int| o.len() <= i < s2.len() && live(s2, i) implies has_type(o, (#[trigger] agent_at(s2, i)).agent_type) by {
        if i < s.len() {
            assert(s2[i] == s[i]);
            assert(live(s, i));
        } else {
            assert(s[g0] is None || (live(o, g0) && kept_agent(agent_at(o, g0), agent_at(s, g0))));
            assert(agent_at(o, g0).agent_type == agent_at(s2, i).agent_type);
        }
    }
}

/// Some agent of `o` is of kind `t`.
pub open spec fn has_type(o: Seq<Option<AgentItem>>, t: AgentType) -> bool {
    exists|j: int| live(o, j) && (#[trigger] agent_at(o, j)).agent_type == t
}

/// Old agent `i` of `o` is recorded in a merged agent of `s`.
pub open spec fn merged_into(o: Seq<Option<AgentItem>>, s: Seq<Option<AgentItem>>, i: int) -> bool {
    exists|j: int| o.len() <= j < s.len() && #[trigger] agent_at(s, j).regrouped@.contains(merge_record(agent_at(o, i)))
}

/// Row `b` is row `a` with its source and destination possibly moved.
pub open spec fn readdressed_only(a: EvtcCombatItem, b: EvtcCombatItem) -> bool {
    b == (EvtcCombatItem { src_agent: b.src_agent, dst_agent: b.dst_agent, ..a })
}

proof fn lemma_removed_all_at(s: Seq<Option<AgentItem>>, g: Seq<AgentId>, i: int)
    requires
        0 <= i < s.len(),
    ensures
        removed_all(s, g).len() == s.len(),
        removed_all(s, g)[i] == if exists|k: int| 0 <= k < g.len() && #[trigger] g[k] as int == i {
            None
        } else {
            s[i]
        },
    decreases g.len(),
{
    if g.len() > 0 {
        let h = g.drop_last();
        lemma_removed_all_at(s, h, i);
        if exists|k: int| 0 <= k < h.len() && #[trigger] h[k] as int == i {
            let k = choose|k: int| 0 <= k < h.len() && #[trigger] h[k] as int == i;
            assert(g[k] == h[k]);
        }
        if exists|k: int| 0 <= k < g.len() && #[trigger] g[k] as int == i {
            let k = choose|k: int| 0 <= k < g.len() && #[trigger] g[k] as int == i;
            if k < h.len() {
                assert(h[k] == g[k]);
            }
        }
    }
}

proof fn lemma_redirect_at(s: Seq<Option<AgentItem>>, g: Seq<AgentId>, to: AgentId, i: int)
    requires
        0 <= i < s.len(),
        forall|k: int| 0 <= k < g.len() ==> #[trigger] g[k] as int != i,
    ensures
        masters_redirected(s, g, to).len() == s.len(),
        masters_redirected(s, g, to)[i] == s[i],
    decreases g.len(),
{
    if g.len() > 0 {
        let h = g.drop_last();
        assert forall|k: int| 0 <= k < h.len() implies #[trigger] h[k] as int != i by {
            assert(h[k] == g[k]);
        }
        lemma_redirect_at(s, h, to, i);
        assert(g[g.len() - 1] as int != i);
    }
}

proof fn lemma_redirect_len(s: Seq<Option<AgentItem>>, g: Seq<AgentId>, to: AgentId)
    ensures
        masters_redirected(s, g, to).len() == s.len(),
    decreases g.len(),
{
    if g.len() > 0 {
        lemma_redirect_len(s, g.drop_last(), to);
    }
}

/// A merge keeps a merged table merged.
#[verifier::spinoff_prover]
#[verifier::rlimit(80)]
proof fn lemma_merge_step(
    o: Seq<Option<AgentItem>>,
    s: Seq<Option<AgentItem>>,
    g: Seq<AgentId>,
    new_agent: Option<AgentItem>,
    s2: Seq<Option<AgentItem>>,
)
    requires
        merged_core(o, s),
        g.len() >= 2,
        forall|k: int| 0 <= k < g.len() ==> live(s, #[trigger] g[k] as int) && g[k] < o.len(),
        new_agent matches Some(a) && a.regrouped@.len() >= 2 && a.englobing == NO_AGENT
            && a.regrouped@ == g.map_values(|id: AgentId| merge_record(agent_at(s, id as int))),
        s2 == removed_all(masters_redirected(s.push(new_agent), g, s.len() as AgentId), g),
        s.len() < NO_AGENT,
    ensures
        merged_core(o, s2),
        s2.len() == s.len() + 1,
        s2[s.len() as int] == new_agent,
        forall|i: int| 0 <= i < s.len() ==> #[trigger] s2[i] is None || s2[i] == s[i],
{
    let sp = s.push(new_agent);
    let n = s.len() as int;
    let m = masters_redirected(sp, g, n as AgentId);
    lemma_redirect_len(sp, g, n as AgentId);
    assert forall|k: int| 0 <= k < g.len() implies #[trigger] g[k] as int != n by {
        assert(live(s, g[k] as int));
    }
    lemma_redirect_at(sp, g, n as AgentId, n);
    lemma_removed_all_at(m, g, n);
    assert forall|i: int| 0 <= i < s.len() implies #[trigger] s2[i] is None || s2[i] == s[i] by {
        lemma_removed_all_at(m, g, i);
        if !(exists|k: int| 0 <= k < g.len() && #[trigger] g[k] as int == i) {
            lemma_redirect_at(sp, g, n as AgentId, i);
        }
    }
    assert forall|i: int| 0 <= i < o.len() implies #[trigger] s2[i] is None || (live(o, i) && kept_agent(agent_at(o, i), agent_at(s2, i))) by {
        assert(s2[i] is None || s2[i] == s[i]);
    }
    assert forall|i: int| o.len() <= i < s2.len() implies live(s2, i) && #[trigger] agent_at(s2, i).regrouped@.len() >= 2
        && agent_at(s2, i).englobing == NO_AGENT by {
        if i < n {
            assert(s2[i] is None || s2[i] == s[i]);
            assert(live(s, i) && agent_at(s, i).regrouped@.len() >= 2);
            lemma_removed_all_at(m, g, i);
            if exists|k: int| 0 <= k < g.len() && #[trigger] g[k] as int == i {
                let k = choose|k: int| 0 <= k < g.len() && #[trigger] g[k] as int == i;
                assert(g[k] < o.len());
                assert(false);
            } else {
                lemma_redirect_at(sp, g, n as AgentId, i);
                assert(s2[i] == s[i]);
            }
        } else {
            assert(i == n);
            assert(!(exists|k: int| 0 <= k < g.len() && #[trigger] g[k] as int == n));
            assert(s2[n] == m[n]);
            assert(m[n] == sp[n]);
        }
    }
    assert(live(s2, n)) by {
        assert(!(exists|k: int| 0 <= k < g.len() && #[trigger] g[k] as int == n));
        assert(s2[n] == m[n]);
    }
    assert(s2[n] == new_agent) by {
        assert(!(exists|k: int| 0 <= k < g.len() && #[trigger] g[k] as int == n));
        assert(s2[n] == m[n]);
        assert(m[n] == sp[n]);
    }
    assert forall|i: int| 0 <= i < o.len() && live(o, i) && s2[i] is None implies #[trigger] merged_into(o, s2, i) by {
        assert(s2[i] is None || s2[i] == s[i]);
        lemma_removed_all_at(m, g, i);
        if exists|k: int| 0 <= k < g.len() && #[trigger] g[k] as int == i {
            let k = choose|k: int| 0 <= k < g.len() && #[trigger] g[k] as int == i;
            let a = agent_at(s2, n);
            assert(a.regrouped@[k] == merge_record(agent_at(s, g[k] as int)));
            assert(live(s, i) && kept_agent(agent_at(o, i), agent_at(s, i)));
            assert(merge_record(agent_at(s, i)) == merge_record(agent_at(o, i)));
            assert(a.regrouped@.contains(merge_record(agent_at(o, i))));
        } else {
            lemma_redirect_at(sp, g, n as AgentId, i);
            assert(s[i] is None);
            assert(merged_into(o, s, i));
            let j = choose|j: int| o.len() <= j < s.len() && #[trigger] agent_at(s, j).regrouped@.contains(merge_record(agent_at(o, i)));
            assert(s2[j] is None || s2[j] == s[j]);
            assert(live(s, j) && agent_at(s, j).regrouped@.len() >= 2);
            lemma_removed_all_at(m, g, j);
            if exists|k: int| 0 <= k < g.len() && #[trigger] g[k] as int == j {
                let k = choose|k: int| 0 <= k < g.len() && #[trigger] g[k] as int == j;
                assert(g[k] < o.len());
            }
            assert(s2[j] == s[j]);
        }
    }
}

/// Judgement of the distance between two positions, each given as the
/// destination field of a position row (the x and y bits as two 32-bit
/// floats). The squad's point of view tells agents that are one apart by
/// their positions when it saw them.
pub trait PositionJudge {
    /// Positions `a` and `b` lie farther apart than an agent can have moved.
    fn far_apart(&self, a: u64, b: u64) -> bool;
}

/// The last of `boundaries` at or before `t`, `i64::MIN` when none is.
pub open spec fn last_at_or_before(boundaries: Seq<i64>, t: i64) -> i64
    decreases boundaries.len(),
{
    if boundaries.len() == 0 {
        i64::MIN
    } else if boundaries.last() <= t {
        boundaries.last()
    } else {
        last_at_or_before(boundaries.drop_last(), t)
    }
}

/// The middle of an aware span (its sum wraps on overflow), at the last
/// boundary of squad combat at or before it.
fn state_time(boundaries: &Vec<i64>, first_aware: i64, last_aware: i64) -> (r: i64)
    ensures
        r == last_at_or_before(boundaries@, half_toward_zero(first_aware.wrapping_add(last_aware))),
{
    let half = first_aware.wrapping_add(last_aware) / 2;
    let ghost h = half_toward_zero(first_aware.wrapping_add(last_aware));
    assert(half == h);
    let mut i = boundaries.len();
    assert(boundaries@.take(i as int) =~= boundaries@);
    while i > 0
        invariant
            i <= boundaries@.len(),
            half == h,
            h == half_toward_zero(first_aware.wrapping_add(last_aware)),
            last_at_or_before(boundaries@, h) == last_at_or_before(boundaries@.take(i as int), h),
        decreases i,
    {
        assert(boundaries@.take(i as int).last() == boundaries@[i - 1]);
        assert(boundaries@.take(i as int).drop_last() =~= boundaries@.take(i - 1));
        if boundaries[i - 1] <= half {
            assert(last_at_or_before(boundaries@.take(i as int), h) == boundaries@[i - 1]);
            return boundaries[i - 1];
        }
        i = i - 1;
    }
    assert(boundaries@.take(0) =~= Seq::<i64>::empty());
    i64::MIN
}

/// Ids grouped by instance id: runs of equal instance ids, in increasing
/// instance id order, each in the order of `ids`.
fn runs_by_instid(table: &AgentTable, ids: &Vec<AgentId>) -> (r: Vec<Vec<AgentId>>)
    ensures
        forall|k: int, j: int| 0 <= k < r@.len() && 0 <= j < r@[k]@.len() ==> ids@.contains(#[trigger] r@[k]@[j]),
{
    let mut keys: Vec<i128> = Vec::new();
    let mut i: usize = 0;
    while i < ids.len()
        invariant
            i <= ids@.len(),
            keys@.len() == i,
        decreases ids@.len() - i,
    {
        let k: i128 = match table.slot(ids[i]) {
            Some(a) => a.instid as i128,
            None => -1,
        };
        keys.push(k);
        i = i + 1;
    }
    let p = stable_order(&keys);
    let mut out: Vec<Vec<AgentId>> = Vec::new();
    let mut cur: Vec<AgentId> = Vec::new();
    let mut cur_key: i128 = -2;
    let mut q: usize = 0;
    while q < p.len()
        invariant
            is_stable_order(keys@, p@),
            keys@.len() == ids@.len(),
            q <= p@.len(),
            forall|j: int| 0 <= j < cur@.len() ==> ids@.contains(#[trigger] cur@[j]),
            forall|k: int, j: int| 0 <= k < out@.len() && 0 <= j < out@[k]@.len() ==> ids@.contains(#[trigger] out@[k]@[j]),
        decreases p@.len() - q,
    {
        let at = p[q];
        let id = ids[at];
        assert(ids@.contains(ids@[at as int]));
        if keys[at] != cur_key && cur.len() > 0 {
            let done = cur;
            out.push(done);
            cur = Vec::new();
        }
        cur_key = keys[at];
        cur.push(id);
        q = q + 1;
    }
    if cur.len() > 0 {
        out.push(cur);
    }
    out
}

proof fn lemma_side_lists_range(s: Seq<Option<AgentItem>>, items: Seq<EvtcCombatItem>, src: bool)
    ensures
        forall|a: AgentId, j: int| 0 <= j < list_or_empty(side_lists(s, items, src), a).len()
            ==> #[trigger] list_or_empty(side_lists(s, items, src), a)[j] < items.len(),
    decreases items.len(),
{
    if items.len() > 0 {
        let n = items.len() - 1;
        let prev = side_lists(s, items.drop_last(), src);
        let cur = side_lists(s, items, src);
        lemma_side_lists_range(s, items.drop_last(), src);
        assert forall|a: AgentId, j: int| 0 <= j < list_or_empty(cur, a).len()
            implies #[trigger] list_or_empty(cur, a)[j] < items.len() by {
            if list_or_empty(cur, a) != list_or_empty(prev, a) {
                assert(list_or_empty(cur, a) == list_or_empty(prev, a).push(n as usize));
                if j < list_or_empty(prev, a).len() {
                    assert(list_or_empty(prev, a)[j] < items.drop_last().len());
                }
            } else {
                assert(list_or_empty(prev, a)[j] < items.drop_last().len());
            }
        }
    }
}

/// The rows of each agent index rows of a table of `n` rows.
pub open spec fn all_lists_in_range(m: Map<AgentId, Seq<usize>>, n: int) -> bool {
    forall|a: AgentId, j: int| 0 <= j < list_or_empty(m, a).len() ==> #[trigger] list_or_empty(m, a)[j] < n
}

/// Merges `group` when it has two agents or more, all of them in the
/// table since before the merges began (slots below `n0`), and the table has
/// room for one more.
fn merge_group(
    table: &mut AgentTable,
    group: &Vec<AgentId>,
    items: &mut Vec<EvtcCombatItem>,
    src_items: &BTreeMap<AgentId, Vec<usize>>,
    dst_items: &BTreeMap<AgentId, Vec<usize>>,
    n0: usize,
    Ghost(o): Ghost<Seq<Option<AgentItem>>>,
    Ghost(items0): Ghost<Seq<EvtcCombatItem>>,
) -> (r: bool)
    requires
        merged_table(o, old(table)@),
        n0 == o.len(),
        old(table)@.len() < NO_AGENT,
        all_lists_in_range(lists(*src_items), old(items)@.len() as int),
        all_lists_in_range(lists(*dst_items), old(items)@.len() as int),
        old(items)@.len() == items0.len(),
        forall|i: int| 0 <= i < items0.len() ==> readdressed_only(items0[i], #[trigger] old(items)@[i]),
    ensures
        merged_table(o, final(table)@),
        final(table)@.len() <= old(table)@.len() + 1,
        final(table)@.len() < NO_AGENT || final(table)@ == old(table)@,
        final(items)@.len() == items0.len(),
        forall|i: int| 0 <= i < items0.len() ==> readdressed_only(items0[i], #[trigger] final(items)@[i]),
        r == (final(table)@.len() == old(table)@.len() + 1),
        !r ==> final(table)@ == old(table)@ && final(items)@ == old(items)@,
        (group@.len() >= 2 && old(table)@.len() + 1 < NO_AGENT && forall|k: int| 0 <= k < group@.len()
            ==> live(old(table)@, #[trigger] group@[k] as int) && group@[k] < n0) ==> r,
        r ==> {
            let n = old(table)@.len() as int;
            let first = agent_at(old(table)@, group@[0] as int);
            &&& live(final(table)@, n)
            &&& agent_at(final(table)@, n).agent_type == first.agent_type
            &&& agent_at(final(table)@, n).account == first.account
            &&& agent_at(final(table)@, n).englobing == NO_AGENT
            &&& forall|i: int| 0 <= i < n ==> #[trigger] final(table)@[i] is None || final(table)@[i] == old(table)@[i]
            &&& forall|k: int| 0 <= k < group@.len() ==> final(table)@[#[trigger] group@[k] as int] is None
            &&& forall|i: int| 0 <= i < n && (forall|k: int| 0 <= k < group@.len() ==> #[trigger] group@[k] as int != i)
                ==> #[trigger] final(table)@[i] == old(table)@[i]
            &&& forall|k: int| 0 <= k < group@.len() ==> live(old(table)@, #[trigger] group@[k] as int) && group@[k] < n0
        },
{
    if group.len() < 2 || table.slot_count() >= (NO_AGENT as usize) - 1 {
        return false;
    }
    let ghost s0 = table@;
    let ghost it0 = items@;
    let mut k: usize = 0;
    while k < group.len()
        invariant
            table@ == s0,
            items@ == it0,
            merged_table(o, s0),
            it0.len() == items0.len(),
            forall|i: int| 0 <= i < items0.len() ==> readdressed_only(items0[i], #[trigger] it0[i]),
            k <= group@.len(),
            forall|q: int| 0 <= q < k ==> live(table@, #[trigger] group@[q] as int) && group@[q] < n0,
        decreases group@.len() - k,
    {
        if group[k] as usize >= n0 || table.slot(group[k]).is_none() {
            return false;
        }
        k = k + 1;
    }
    let ghost s = table@;
    let ghost it = items@;
    let new_id = regroup_agents(table, group, items, src_items, dst_items);
    proof {
        let a = agent_at(table@, new_id as int);
        assert(a.regrouped@.len() == group@.len());
        assert(a.regrouped@ == group@.map_values(|id: AgentId| merge_record(agent_at(s, id as int))));
        lemma_merge_step(o, s, group@, table@[new_id as int], table@);
        assert(live(s, group@[0] as int) && group@[0] < o.len());
        lemma_merge_types(o, s, group@[0] as int, table@[new_id as int], table@);
        assert forall|i: int| 0 <= i < items0.len() implies readdressed_only(items0[i], #[trigger] items@[i]) by {
            assert(readdressed_only(items0[i], it[i]));
        }
        let sp = s.push(table@[new_id as int]);
        let m = masters_redirected(sp, group@, s.len() as AgentId);
        lemma_redirect_len(sp, group@, s.len() as AgentId);
        assert forall|k: int| 0 <= k < group@.len() implies table@[#[trigger] group@[k] as int] is None by {
            lemma_removed_all_at(m, group@, group@[k] as int);
            assert(group@[k] as int == group@[k] as int);
        }
        assert forall|i: int| 0 <= i < s.len() && (forall|k: int| 0 <= k < group@.len() ==> #[trigger] group@[k] as int != i)
            implies #[trigger] table@[i] == s[i] by {
            lemma_removed_all_at(m, group@, i);
            lemma_redirect_at(sp, group@, s.len() as AgentId, i);
        }
    }
    true
}

/// The slots added to `o` in `s` hold no squad player.
pub open spec fn no_new_player(o: Seq<Option<AgentItem>>, s: Seq<Option<AgentItem>>) -> bool {
    forall|i: int| o.len() <= i < s.len() && live(s, i) ==> (#[trigger] agent_at(s, i)).agent_type != AgentType::Player
}

/// Two different live squad player roots of `s` have different accounts.
pub open spec fn accounts_distinct(s: Seq<Option<AgentItem>>) -> bool {
    forall|i: int, j: int|
        #![trigger agent_at(s, i), agent_at(s, j)]
        i != j && live(s, i) && live(s, j) && root_of_type(AgentType::Player)(agent_at(s, i))
            && root_of_type(AgentType::Player)(agent_at(s, j)) ==> account_chars(s, i as AgentId) != account_chars(
            s,
            j as AgentId,
        )
}

proof fn lemma_merge_no_new_player(
    o: Seq<Option<AgentItem>>,
    s: Seq<Option<AgentItem>>,
    s2: Seq<Option<AgentItem>>,
    g0: int,
)
    requires
        merged_table(o, s),
        no_new_player(o, s),
        0 <= g0 < o.len(),
        live(o, g0),
        agent_at(o, g0).agent_type != AgentType::Player,
        live(s, g0),
        s2.len() == s.len() + 1,
        live(s2, s.len() as int),
        agent_at(s2, s.len() as int).agent_type == agent_at(s, g0).agent_type,
        forall|i: int| 0 <= i < s.len() ==> #[trigger] s2[i] is None || s2[i] == s[i],
    ensures
        no_new_player(o, s2),
{
    assert(s[g0] is None || (live(o, g0) && kept_agent(agent_at(o, g0), agent_at(s, g0))));
    assert forall|i: int| o.len() <= i < s2.len() && live(s2, i) implies (#[trigger] agent_at(s2, i)).agent_type != AgentType::Player by {
        if i < s.len() {
            assert(s2[i] == s[i]);
            assert(live(s, i));
            assert(agent_at(s2, i) == agent_at(s, i));
        }
    }
}

/// The account of the first member of group `k` of `gs` in `s`.
pub open spec fn group_account(s: Seq<Option<AgentItem>>, gs: Seq<Seq<AgentId>>, k: int) -> Seq<char> {
    account_chars(s, gs[k][0])
}

proof fn lemma_with_account_subset(s: Seq<Option<AgentItem>>, ids: Seq<AgentId>, a: Seq<char>)
    ensures
        forall|j: int| 0 <= j < with_account(s, ids, a).len() ==> ids.contains(#[trigger] with_account(s, ids, a)[j]),
    decreases ids.len(),
{
    if ids.len() > 0 {
        lemma_with_account_subset(s, ids.drop_last(), a);
        let rest = with_account(s, ids.drop_last(), a);
        assert forall|j: int| 0 <= j < with_account(s, ids, a).len() implies ids.contains(#[trigger] with_account(s, ids, a)[j]) by {
            if j < rest.len() {
                assert(with_account(s, ids, a)[j] == rest[j]);
                let k = choose|k: int| 0 <= k < ids.drop_last().len() && ids.drop_last()[k] == rest[j];
                assert(ids[k] == rest[j]);
            } else {
                assert(ids[ids.len() - 1] == ids.last());
            }
        }
    }
}

/// A live squad player root `x` of the table `t` that grew from `tp` by
/// merging whole account groups `gs` is the only player root of its
/// account, when every group of two or more was merged.
proof fn lemma_players_apart(
    tp: Seq<Option<AgentItem>>,
    gs: Seq<Seq<AgentId>>,
    players: Seq<AgentId>,
    t: Seq<Option<AgentItem>>,
    i: int,
    j: int,
)
    requires
        tp.len() <= t.len(),
        t.len() < NO_AGENT,
        grouped_by_account(tp, players, gs),
        forall|x: AgentId| players.contains(x) <==> (live(tp, x as int) && root_of_type(AgentType::Player)(agent_at(tp, x as int))),
        forall|k: int, q: int| 0 <= k < gs.len() && 0 <= q < gs[k].len() ==> account_chars(tp, #[trigger] gs[k][q]) == group_account(tp, gs, k)
            && players.contains(gs[k][q]),
        forall|x: int| 0 <= x < tp.len() ==> #[trigger] t[x] is None || t[x] == tp[x],
        forall|k: int, q: int| 0 <= k < gs.len() && gs[k].len() >= 2 && 0 <= q < gs[k].len() ==> t[#[trigger] gs[k][q] as int] is None,
        forall|x: int| tp.len() <= x < t.len() ==> {
            &&& live(t, x)
            &&& root_of_type(AgentType::Player)(#[trigger] agent_at(t, x))
            &&& exists|k: int| 0 <= k < gs.len() && gs[k].len() >= 2 && account_chars(t, x as AgentId) == group_account(tp, gs, k)
        },
        forall|j1: int, j2: int| #![trigger t[j1], t[j2]] tp.len() <= j1 < j2 < t.len() ==> account_chars(t, j1 as AgentId) != account_chars(t, j2 as AgentId),
        i != j,
        live(t, i),
        live(t, j),
        root_of_type(AgentType::Player)(agent_at(t, i)),
        root_of_type(AgentType::Player)(agent_at(t, j)),
    ensures
        account_chars(t, i as AgentId) != account_chars(t, j as AgentId),
{
    if i < tp.len() && j < tp.len() {
        assert(t[i] == tp[i] && t[j] == tp[j]);
        assert(players.contains(i as AgentId) && players.contains(j as AgentId));
        if account_chars(t, i as AgentId) == account_chars(t, j as AgentId) {
            let xi = i as AgentId;
            let xj = j as AgentId;
            let pi = choose|p: int| 0 <= p < players.len() && players[p] == xi;
            assert(has_group_of(tp, gs, account_chars(tp, players[pi])));
            let k = choose|k: int| 0 <= k < gs.len() && account_chars(tp, #[trigger] gs[k][0]) == account_chars(tp, xi);
            lemma_with_account_contains(tp, players, account_chars(tp, gs[k][0]), xi);
            lemma_with_account_contains(tp, players, account_chars(tp, gs[k][0]), xj);
            assert(gs[k] == with_account(tp, players, account_chars(tp, gs[k][0])));
            let qi = choose|q: int| 0 <= q < gs[k].len() && gs[k][q] == xi;
            let qj = choose|q: int| 0 <= q < gs[k].len() && gs[k][q] == xj;
            assert(qi != qj);
            assert(gs[k].len() >= 2);
            assert(t[gs[k][qi] as int] is None);
        }
    } else if i < tp.len() || j < tp.len() {
        let (old_id, new_id) = if i < tp.len() { (i, j) } else { (j, i) };
        assert(t[old_id] == tp[old_id]);
        let xo = old_id as AgentId;
        assert(players.contains(xo));
        assert(live(t, new_id) && root_of_type(AgentType::Player)(agent_at(t, new_id)));
        let k = choose|k: int| 0 <= k < gs.len() && gs[k].len() >= 2 && account_chars(t, new_id as AgentId) == group_account(tp, gs, k);
        if account_chars(t, i as AgentId) == account_chars(t, j as AgentId) {
            assert(account_chars(tp, xo) == account_chars(tp, gs[k][0]));
            lemma_with_account_contains(tp, players, account_chars(tp, gs[k][0]), xo);
            assert(gs[k] == with_account(tp, players, account_chars(tp, gs[k][0])));
            let q = choose|q: int| 0 <= q < gs[k].len() && gs[k][q] == xo;
            assert(t[gs[k][q] as int] is None);
        }
    } else {
        if i < j {
            assert(account_chars(t, i as AgentId) != account_chars(t, j as AgentId));
        } else {
            assert(account_chars(t, j as AgentId) != account_chars(t, i as AgentId));
        }
    }
}

/// Merges the agents that are one: NPCs of one instance id seen one after
/// another (while no squad combat boundary lies between them; with a point
/// of view, unless `judge` finds their positions too far apart; without
/// one, unless the later one is a player's minion), non-squad players of
/// one instance id, and players of one account; non-squad players that
/// share the squad's most common team are marked friendly. Returns the
/// numbers of NPC, non-squad and player merges.
#[verifier::spinoff_prover]
#[verifier::rlimit(60)]
pub fn regroup_same_agents_and_determine_teams<J: PositionJudge>(
    table: &mut AgentTable,
    items: &mut Vec<EvtcCombatItem>,
    judge: &J,
) -> (r: (u64, u64, u64))
    requires
        old(table)@.len() < NO_AGENT,
    ensures
        merged_table(old(table)@, final(table)@),
        final(table)@.len() < NO_AGENT,
        final(items)@.len() == old(items)@.len(),
        forall|i: int| 0 <= i < old(items)@.len() ==> readdressed_only(old(items)@[i], #[trigger] final(items)@[i]),
        r.0 + r.1 + r.2 == final(table)@.len() - old(table)@.len(),
        final(table)@.len() + 1 < NO_AGENT ==> accounts_distinct(final(table)@),
{
    let ghost o = table@;
    let ghost items0 = items@;
    let n0 = table.slot_count();
    // squad combat boundaries
    let mut boundaries: Vec<i64> = Vec::new();
    boundaries.push(i64::MIN);
    let mut i: usize = 0;
    while i < items.len()
        invariant
            i <= items@.len(),
        decreases items@.len() - i,
    {
        if items[i].state_change == StateChange::SquadCombatStart || items[i].state_change == StateChange::SquadCombatEnd {
            boundaries.push(items[i].time);
        }
        i = i + 1;
    }
    boundaries.push(i64::MAX);
    // the point of view and its positions
    let mut pov_agent = NO_AGENT;
    let mut i: usize = 0;
    while i < items.len()
        invariant
            i <= items@.len(),
            table@ == o,
            o.len() < NO_AGENT,
        decreases items@.len() - i,
    {
        if items[i].state_change == StateChange::PointOfView {
            pov_agent = table.resolve_agent(items[i].src_agent, items[i].time);
            break;
        }
        i = i + 1;
    }
    let mut pov_raw: Vec<(i64, u64)> = Vec::new();
    let mut first_pos: BTreeMap<AgentId, u64> = BTreeMap::new();
    let mut last_pos: BTreeMap<AgentId, u64> = BTreeMap::new();
    let mut i: usize = 0;
    while i < items.len()
        invariant
            i <= items@.len(),
            table@ == o,
            o.len() < NO_AGENT,
        decreases items@.len() - i,
    {
        let item = items[i];
        if item.is_position() {
            let a = table.resolve_agent(item.src_agent, item.time);
            if a != NO_AGENT {
                if pov_agent != NO_AGENT && a == pov_agent {
                    pov_raw.push((item.time, item.dst_agent));
                }
                if first_pos.get(&a).is_none() {
                    first_pos.insert(a, item.dst_agent);
                }
                last_pos.insert(a, item.dst_agent);
            }
        }
        i = i + 1;
    }
    let mut pov_times: Vec<i64> = Vec::new();
    let mut i: usize = 0;
    while i < pov_raw.len()
        invariant
            i <= pov_raw@.len(),
            pov_times@.len() == i,
        decreases pov_raw@.len() - i,
    {
        pov_times.push(pov_raw[i].0);
        i = i + 1;
    }
    let mut keys: Vec<i128> = Vec::new();
    let mut i: usize = 0;
    while i < pov_times.len()
        invariant
            i <= pov_times@.len(),
            pov_times@.len() == pov_raw@.len(),
            keys@.len() == i,
        decreases pov_times@.len() - i,
    {
        keys.push(pov_times[i] as i128);
        i = i + 1;
    }
    let order = stable_order(&keys);
    let mut pov_positions: Vec<(i64, u64)> = Vec::new();
    let mut i: usize = 0;
    while i < order.len()
        invariant
            is_stable_order(keys@, order@),
            keys@.len() == pov_raw@.len(),
            i <= order@.len(),
        decreases order@.len() - i,
    {
        pov_positions.push(pov_raw[order[i]]);
        i = i + 1;
    }
    let (src_items, dst_items) = build_item_side_maps(table, items);
    proof {
        lemma_side_lists_range(o, items0, true);
        lemma_side_lists_range(o, items0, false);
    }
    let no_pov = pov_agent == NO_AGENT || pov_positions.len() == 0;
    let mut npc_merges: u64 = 0;
    let mut non_squad_merges: u64 = 0;
    let mut player_merges: u64 = 0;
    assert forall|q: int| 0 <= q < items0.len() implies readdressed_only(items0[q], #[trigger] items@[q]) by {}
    // NPCs of one instance id
    let npcs = table.agents_by_type(AgentType::StableSpecies);
    let runs = runs_by_instid(table, &npcs);
    assert(no_new_player(o, table@));
    let mut ri: usize = 0;
    while ri < runs.len()
        invariant
            no_new_player(o, table@),
            forall|x: AgentId| npcs@.contains(x) <==> (live(o, x as int) && root_of_type(AgentType::StableSpecies)(agent_at(o, x as int))),
            forall|k: int, j: int| 0 <= k < runs@.len() && 0 <= j < runs@[k]@.len() ==> npcs@.contains(#[trigger] runs@[k]@[j]),
            merged_table(o, table@),
            n0 == o.len(),
            table@.len() < NO_AGENT,
            all_lists_in_range(lists(src_items), items0.len() as int),
            all_lists_in_range(lists(dst_items), items0.len() as int),
            items@.len() == items0.len(),
            forall|q: int| 0 <= q < items0.len() ==> readdressed_only(items0[q], #[trigger] items@[q]),
            npc_merges + non_squad_merges + player_merges == table@.len() - o.len(),
        decreases runs@.len() - ri,
    {
        let list = &runs[ri];
        assert forall|q: int| 0 <= q < list@.len() implies npcs@.contains(#[trigger] list@[q]) by {
            assert(runs@[ri as int]@[q] == list@[q]);
        }
        if list.len() >= 2 {
            let mut group: Vec<AgentId> = Vec::new();
            let mut previous = list[0];
            let mut previous_state = match table.slot(previous) {
                Some(a) => state_time(&boundaries, a.first_aware, a.last_aware),
                None => i64::MIN,
            };
            let mut j: usize = 0;
            while j < list.len()
                invariant
                    no_new_player(o, table@),
                    forall|x: AgentId| npcs@.contains(x) <==> (live(o, x as int) && root_of_type(AgentType::StableSpecies)(agent_at(o, x as int))),
                    forall|q: int| 0 <= q < list@.len() ==> npcs@.contains(#[trigger] list@[q]),
                    forall|q: int| 0 <= q < group@.len() ==> npcs@.contains(#[trigger] group@[q]),
                    merged_table(o, table@),
                    n0 == o.len(),
                    table@.len() < NO_AGENT,
                    all_lists_in_range(lists(src_items), items0.len() as int),
                    all_lists_in_range(lists(dst_items), items0.len() as int),
                    items@.len() == items0.len(),
                    forall|q: int| 0 <= q < items0.len() ==> readdressed_only(items0[q], #[trigger] items@[q]),
                    npc_merges + non_squad_merges + player_merges == table@.len() - o.len(),
                decreases list@.len() - j,
            {
                let cur = list[j];
                let (cur_state, equal_prev) = match (table.slot(cur), table.slot(previous)) {
                    (Some(c), Some(p)) => {
                        let cs = state_time(&boundaries, c.first_aware, c.last_aware);
                        (cs, c.could_be_equal(p) && cs == previous_state)
                    },
                    _ => (i64::MIN, false),
                };
                let mut merge = false;
                if equal_prev {
                    if no_pov {
                        let fm = table.final_master(cur);
                        let fm_is_player = fm != NO_AGENT && match table.slot(fm) {
                            Some(a) => a.agent_type.is_player(),
                            None => false,
                        };
                        merge = !fm_is_player;
                    } else {
                        let mut go_next = true;
                        let prev_last = match table.slot(previous) {
                            Some(a) => a.last_aware,
                            None => 0,
                        };
                        match last_pos.get(&previous) {
                            Some(agent_pos) => {
                                let mut q: usize = 0;
                                while q < pov_positions.len()
                                    invariant
                                        q <= pov_positions@.len(),
                                    decreases pov_positions@.len() - q,
                                {
                                    if pov_positions[q].0 > prev_last {
                                        if judge.far_apart(pov_positions[q].1, *agent_pos) {
                                            go_next = false;
                                        }
                                        break;
                                    }
                                    q = q + 1;
                                }
                            },
                            None => {},
                        }
                        if go_next {
                            let cur_first = match table.slot(cur) {
                                Some(a) => a.first_aware,
                                None => 0,
                            };
                            match first_pos.get(&cur) {
                                Some(agent_pos) => {
                                    let mut q = pov_positions.len();
                                    while q > 0
                                        invariant
                                            q <= pov_positions@.len(),
                                        decreases q,
                                    {
                                        if pov_positions[q - 1].0 < cur_first {
                                            if judge.far_apart(pov_positions[q - 1].1, *agent_pos) {
                                                go_next = false;
                                            }
                                            break;
                                        }
                                        q = q - 1;
                                    }
                                },
                                None => {},
                            }
                        }
                        merge = !go_next;
                    }
                }
                if merge {
                    group.push(cur);
                } else {
                    if group.len() > 1 {
                        let ghost t0 = table@;
                        let ok = merge_group(table, &group, items, &src_items, &dst_items, n0, Ghost(o), Ghost(items0));
                        proof {
                            if ok {
                                assert(npcs@.contains(group@[0]));
                                lemma_merge_no_new_player(o, t0, table@, group@[0] as int);
                            }
                        }
                        if ok {
                            npc_merges = npc_merges + 1;
                        }
                    }
                    group = Vec::new();
                    group.push(cur);
                    previous_state = cur_state;
                }
                previous = cur;
                j = j + 1;
            }
            if group.len() > 1 {
                let ghost t0 = table@;
                let ok = merge_group(table, &group, items, &src_items, &dst_items, n0, Ghost(o), Ghost(items0));
                proof {
                    if ok {
                        assert(npcs@.contains(group@[0]));
                        lemma_merge_no_new_player(o, t0, table@, group@[0] as int);
                    }
                }
                if ok {
                    npc_merges = npc_merges + 1;
                }
            }
        }
        ri = ri + 1;
    }
    // non-squad players: friendly ones, and those of one instance id
    let non_squad = table.agents_by_type(AgentType::NonSquadPlayer);
    if non_squad.len() > 0 {
        let mut team_events: Vec<(u64, i64, i64)> = Vec::new();
        let mut i: usize = 0;
        while i < items.len()
            invariant
                i <= items@.len(),
            decreases items@.len() - i,
        {
            let item = items[i];
            if item.state_change == StateChange::TeamChange {
                team_events.push((item.src_agent, item.dst_agent as i64, item.value as i64));
            }
            i = i + 1;
        }
        let players = table.agents_by_type(AgentType::Player);
        let mut squad_teams: Vec<i64> = Vec::new();
        let mut pi: usize = 0;
        while pi < players.len()
            invariant
                pi <= players@.len(),
            decreases players@.len() - pi,
        {
            match table.slot(players[pi]) {
                Some(a) => {
                    let addr = a.address;
                    let mut e: usize = 0;
                    while e < team_events.len()
                        invariant
                            e <= team_events@.len(),
                        decreases team_events@.len() - e,
                    {
                        let (src, into, from) = team_events[e];
                        if src == addr {
                            if into != 0 {
                                squad_teams.push(into);
                            }
                            if from != 0 {
                                squad_teams.push(from);
                            }
                        }
                        e = e + 1;
                    }
                },
                None => {},
            }
            pi = pi + 1;
        }
        if squad_teams.len() > 0 {
            let most_common = most_common_team(&squad_teams);
            let mut ni: usize = 0;
            while ni < non_squad.len()
                invariant
                    ni <= non_squad@.len(),
                    merged_table(o, table@),
                    table@.len() < NO_AGENT,
                    npc_merges + non_squad_merges + player_merges == table@.len() - o.len(),
                    no_new_player(o, table@),
                    forall|x: AgentId| non_squad@.contains(x) ==> live(table@, x as int)
                        && root_of_type(AgentType::NonSquadPlayer)(agent_at(table@, x as int)),
                decreases non_squad@.len() - ni,
            {
                let nid = non_squad[ni];
                assert(non_squad@.contains(nid));
                let addr = match table.slot(nid) {
                    Some(a) => a.address,
                    None => 0,
                };
                let mut has_squad_team = false;
                let mut e: usize = 0;
                while e < team_events.len()
                    invariant
                        e <= team_events@.len(),
                    decreases team_events@.len() - e,
                {
                    let (src, into, from) = team_events[e];
                    if src == addr && ((into != 0 && into == most_common) || (from != 0 && from == most_common)) {
                        has_squad_team = true;
                    }
                    e = e + 1;
                }
                if has_squad_team {
                    let ghost t0 = table@;
                    match table.slot_mut(nid) {
                        Some(a) => {
                            a.is_not_in_squad_friendly_player = true;
                        },
                        None => {},
                    }
                    proof {
                        assert forall|x: AgentId| non_squad@.contains(x) implies live(table@, x as int)
                            && root_of_type(AgentType::NonSquadPlayer)(agent_at(table@, x as int)) by {
                            assert(live(t0, x as int));
                        }
                        assert forall|q: int| 0 <= q < o.len() implies #[trigger] table@[q] is None || (live(o, q) && kept_agent(agent_at(o, q), agent_at(table@, q))) by {
                            assert(t0[q] is None || (live(o, q) && kept_agent(agent_at(o, q), agent_at(t0, q))));
                        }
                        assert forall|q: int| o.len() <= q < table@.len() implies live(table@, q) && #[trigger] agent_at(table@, q).regrouped@.len() >= 2
                            && agent_at(table@, q).englobing == NO_AGENT by {
                            assert(live(t0, q) && agent_at(t0, q).regrouped@.len() >= 2);
                        }
                        assert forall|q: int| o.len() <= q < table@.len() && live(table@, q) implies has_type(o, (#[trigger] agent_at(table@, q)).agent_type) by {
                            assert(live(t0, q));
                            assert(agent_at(table@, q).agent_type == agent_at(t0, q).agent_type);
                        }
                        assert(merged_types(o, table@));
                        assert forall|q: int| o.len() <= q < table@.len() && live(table@, q) implies (#[trigger] agent_at(table@, q)).agent_type != AgentType::Player by {
                            assert(live(t0, q));
                            assert(agent_at(table@, q).agent_type == agent_at(t0, q).agent_type);
                        }
                        assert forall|q: int| 0 <= q < o.len() && live(o, q) && table@[q] is None implies #[trigger] merged_into(o, table@, q) by {
                            assert(t0[q] is None);
                            assert(merged_into(o, t0, q));
                            let j = choose|j: int| o.len() <= j < t0.len() && #[trigger] agent_at(t0, j).regrouped@.contains(merge_record(agent_at(o, q)));
                            assert(live(t0, j) && agent_at(t0, j).regrouped@.len() >= 2);
                            assert(agent_at(table@, j).regrouped == agent_at(t0, j).regrouped);
                        }
                    }
                }
                ni = ni + 1;
            }
        }
        let runs = runs_by_instid(table, &non_squad);
        let ghost tns = table@;
        let mut ri: usize = 0;
        while ri < runs.len()
            invariant
                no_new_player(o, table@),
                merged_table(o, tns),
                forall|x: AgentId| non_squad@.contains(x) ==> live(tns, x as int)
                    && root_of_type(AgentType::NonSquadPlayer)(agent_at(tns, x as int)),
                forall|k: int, j: int| 0 <= k < runs@.len() && 0 <= j < runs@[k]@.len() ==> non_squad@.contains(#[trigger] runs@[k]@[j]),
                merged_table(o, table@),
                n0 == o.len(),
                table@.len() < NO_AGENT,
                all_lists_in_range(lists(src_items), items0.len() as int),
                all_lists_in_range(lists(dst_items), items0.len() as int),
                items@.len() == items0.len(),
                forall|q: int| 0 <= q < items0.len() ==> readdressed_only(items0[q], #[trigger] items@[q]),
                npc_merges + non_squad_merges + player_merges == table@.len() - o.len(),
            decreases runs@.len() - ri,
        {
            if runs[ri].len() > 1 {
                let ghost t0 = table@;
                let ok = merge_group(table, &runs[ri], items, &src_items, &dst_items, n0, Ghost(o), Ghost(items0));
                proof {
                    if ok {
                        let g0 = runs@[ri as int]@[0];
                        assert(non_squad@.contains(g0));
                        assert(live(tns, g0 as int));
                        assert(g0 < n0);
                        assert(tns[g0 as int] is None || (live(o, g0 as int) && kept_agent(agent_at(o, g0 as int), agent_at(tns, g0 as int))));
                        lemma_merge_no_new_player(o, t0, table@, g0 as int);
                    }
                }
                if ok {
                    non_squad_merges = non_squad_merges + 1;
                }
            }
            ri = ri + 1;
        }
    }
    // players of one account
    let players = table.agents_by_type(AgentType::Player);
    let groups = groups_by_account(table, &players);
    let ghost tp = table@;
    let ghost gs = id_lists(groups@);
    assert(gs.len() == groups@.len());
    assert(o.len() <= tp.len());
    proof {
        assert forall|k: int, q: int| 0 <= k < gs.len() && 0 <= q < gs[k].len() implies account_chars(tp, #[trigger] gs[k][q]) == group_account(tp, gs, k)
            && players@.contains(gs[k][q]) by {
            lemma_with_account_members(tp, players@, account_chars(tp, gs[k][0]));
            lemma_with_account_subset(tp, players@, account_chars(tp, gs[k][0]));
        }
    }
    let mut gi: usize = 0;
    while gi < groups.len()
        invariant
            gi <= groups@.len(),
            gs.len() == groups@.len(),
            o.len() <= tp.len(),
            tp.len() <= table@.len(),
            gs == id_lists(groups@),
            grouped_by_account(tp, players@, gs),
            forall|x: AgentId| players@.contains(x) <==> (live(tp, x as int) && root_of_type(AgentType::Player)(agent_at(tp, x as int))),
            no_new_player(o, tp),
            forall|k: int, q: int| 0 <= k < gs.len() && 0 <= q < gs[k].len() ==> account_chars(tp, #[trigger] gs[k][q]) == group_account(tp, gs, k)
                && players@.contains(gs[k][q]),
            forall|i: int| 0 <= i < tp.len() ==> #[trigger] table@[i] is None || table@[i] == tp[i],
            forall|k: int, q: int| gi <= k < gs.len() && 0 <= q < gs[k].len() ==> table@[#[trigger] gs[k][q] as int] == tp[gs[k][q] as int],
            table@.len() + 1 < NO_AGENT ==> forall|k: int, q: int| 0 <= k < gi && gs[k].len() >= 2 && 0 <= q < gs[k].len()
                ==> table@[#[trigger] gs[k][q] as int] is None,
            forall|j: int| tp.len() <= j < table@.len() ==> {
                &&& live(table@, j)
                &&& root_of_type(AgentType::Player)(#[trigger] agent_at(table@, j))
                &&& exists|k: int| 0 <= k < gi && gs[k].len() >= 2 && account_chars(table@, j as AgentId) == group_account(tp, gs, k)
            },
            forall|j1: int, j2: int| #![trigger table@[j1], table@[j2]] tp.len() <= j1 < j2 < table@.len() ==> account_chars(table@, j1 as AgentId) != account_chars(
                table@,
                j2 as AgentId,
            ),
            merged_table(o, table@),
            n0 == o.len(),
            table@.len() < NO_AGENT,
            all_lists_in_range(lists(src_items), items0.len() as int),
            all_lists_in_range(lists(dst_items), items0.len() as int),
            items@.len() == items0.len(),
            forall|q: int| 0 <= q < items0.len() ==> readdressed_only(items0[q], #[trigger] items@[q]),
            npc_merges + non_squad_merges + player_merges == table@.len() - o.len(),
        decreases groups@.len() - gi,
    {
        let ghost t0 = table@;
        let ghost g = gs[gi as int];
        assert(groups@[gi as int]@ == g);
        if groups[gi].len() > 1 {
            let ok = merge_group(table, &groups[gi], items, &src_items, &dst_items, n0, Ghost(o), Ghost(items0));
            proof {
                let t1 = table@;
                let n = t0.len() as int;
                // members of this group are live old players
                assert forall|q: int| 0 <= q < g.len() implies live(t0, #[trigger] g[q] as int) && g[q] < n0 by {
                    assert(t0[g[q] as int] == tp[g[q] as int]);
                    assert(players@.contains(g[q]));
                    assert(live(tp, g[q] as int));
                    if g[q] >= n0 {
                        assert(agent_at(tp, g[q] as int).agent_type != AgentType::Player);
                    }
                }
                // a member of a later group is not in this one
                assert forall|k: int, q: int| #![trigger gs[k][q]] gi + 1 <= k < gs.len() && 0 <= q < gs[k].len() implies (forall|kk: int| 0 <= kk < g.len() ==> #[trigger] g[kk] as int != gs[k][q] as int) by {
                    assert(chars_lt(account_chars(tp, gs[gi as int][0]), account_chars(tp, gs[k][0])));
                    assert forall|kk: int| 0 <= kk < g.len() implies #[trigger] g[kk] as int != gs[k][q] as int by {
                        if g[kk] == gs[k][q] {
                            assert(account_chars(tp, gs[gi as int][kk]) == group_account(tp, gs, gi as int));
                            assert(account_chars(tp, gs[k][q]) == group_account(tp, gs, k));
                            lemma_chars_lt_asym(group_account(tp, gs, gi as int), group_account(tp, gs, gi as int));
                        }
                    }
                }
                if ok {
                    let first = agent_at(t0, g[0] as int);
                    assert(t0[g[0] as int] == tp[g[0] as int]);
                    assert(players@.contains(g[0]));
                    assert(account_chars(t1, n as AgentId) == group_account(tp, gs, gi as int));
                    assert forall|j: int| tp.len() <= j < n implies t1[j] == t0[j] && live(t1, j) by {
                        assert(live(t1, j) && agent_at(t1, j).regrouped@.len() >= 2);
                    }
                    assert forall|j: int| #![trigger t1[j]] tp.len() <= j < n implies account_chars(t1, j as AgentId) != account_chars(t1, n as AgentId) by {
                        assert(t1[j] == t0[j]);
                        let k = choose|k: int| 0 <= k < gi && gs[k].len() >= 2 && account_chars(t0, j as AgentId) == group_account(tp, gs, k);
                        assert(chars_lt(account_chars(tp, gs[k][0]), account_chars(tp, gs[gi as int][0])));
                        lemma_chars_lt_asym(group_account(tp, gs, k), group_account(tp, gs, k));
                    }
                }
            }
            if ok {
                player_merges = player_merges + 1;
            }
        }
        gi = gi + 1;
    }
    proof {
        let t = table@;
        if t.len() + 1 < NO_AGENT {
            assert forall|i: int, j: int|
                #![trigger agent_at(t, i), agent_at(t, j)]
                i != j && live(t, i) && live(t, j) && root_of_type(AgentType::Player)(agent_at(t, i))
                    && root_of_type(AgentType::Player)(agent_at(t, j)) implies account_chars(t, i as AgentId) != account_chars(t, j as AgentId) by {
                lemma_players_apart(tp, gs, players@, t, i, j);
            }
        }
    }
    (npc_merges, non_squad_merges, player_merges)
}

/// Position of `t` in `keys`, or `keys.len()`.
fn position_of(keys: &Vec<i64>, t: i64) -> (r: usize)
    ensures
        r <= keys@.len(),
        r < keys@.len() ==> keys@[r as int] == t,
        r == keys@.len() ==> !keys@.contains(t),
{
    let mut j: usize = 0;
    while j < keys.len()
        invariant
            j <= keys@.len(),
            forall|q: int| 0 <= q < j ==> keys@[q] != t,
        decreases keys@.len() - j,
    {
        if keys[j] == t {
            return j;
        }
        j = j + 1;
    }
    j
}

/// Number of times `t` occurs in `s`.
pub open spec fn occurrences(s: Seq<i64>, t: i64) -> nat
    decreases s.len(),
{
    if s.len() == 0 {
        0
    } else {
        occurrences(s.drop_last(), t) + if s.last() == t {
            1nat
        } else {
            0nat
        }
    }
}

/// `r` occurs in `teams` at least as often as any team, and is the smallest
/// of the teams that occur as often.
pub open spec fn is_most_common(teams: Seq<i64>, r: i64) -> bool {
    &&& teams.contains(r)
    &&& forall|t: i64| #[trigger] teams.contains(t) ==> occurrences(teams, t) < occurrences(teams, r) || (
    occurrences(teams, t) == occurrences(teams, r) && r <= t)
}

proof fn lemma_occurrences_absent(s: Seq<i64>, t: i64)
    requires
        !s.contains(t),
    ensures
        occurrences(s, t) == 0,
    decreases s.len(),
{
    if s.len() > 0 {
        assert forall|x: i64| s.drop_last().contains(x) implies s.contains(x) by {
            let k = choose|k: int| 0 <= k < s.drop_last().len() && s.drop_last()[k] == x;
            assert(s[k] == x);
        }
        assert(s[s.len() - 1] == s.last());
        lemma_occurrences_absent(s.drop_last(), t);
    }
}

/// The team that occurs most often in `teams` (non-empty); among equally
/// frequent ones, the smallest.
fn most_common_team(teams: &Vec<i64>) -> (r: i64)
    requires
        teams@.len() > 0,
    ensures
        is_most_common(teams@, r),
{
    let mut keys: Vec<i64> = Vec::new();
    let mut counts: Vec<usize> = Vec::new();
    let mut i: usize = 0;
    while i < teams.len()
        invariant
            i <= teams@.len(),
            keys@.len() == counts@.len(),
            i > 0 ==> keys@.len() > 0,
            forall|q: int| 0 <= q < counts@.len() ==> counts@[q] <= i,
            forall|q: int| 0 <= q < counts@.len() ==> counts@[q] == occurrences(teams@.take(i as int), #[trigger] keys@[q]),
            forall|q: int| 0 <= q < keys@.len() ==> teams@.take(i as int).contains(#[trigger] keys@[q]),
            forall|t: i64| teams@.take(i as int).contains(t) ==> keys@.contains(t),
            forall|a: int, b: int| 0 <= a < b < keys@.len() ==> keys@[a] != keys@[b],
        decreases teams@.len() - i,
    {
        let t = teams[i];
        let ghost p0 = teams@.take(i as int);
        let ghost p1 = teams@.take(i + 1);
        assert(p1.drop_last() =~= p0);
        assert(p1.last() == t);
        assert forall|x: i64| p0.contains(x) implies p1.contains(x) by {
            let k = choose|k: int| 0 <= k < p0.len() && p0[k] == x;
            assert(p1[k] == x);
        }
        assert(p1[i as int] == t);
        let j = position_of(&keys, t);
        if j < keys.len() {
            let c = counts[j] + 1;
            counts.set(j, c);
            assert forall|x: i64| p1.contains(x) implies keys@.contains(x) by {
                let k = choose|k: int| 0 <= k < p1.len() && p1[k] == x;
                if k < i {
                    assert(p0[k] == x);
                    assert(p0.contains(x));
                }
            }
        } else {
            proof {
                if p0.contains(t) {
                    assert(keys@.contains(t));
                }
                lemma_occurrences_absent(p0, t);
            }
            let ghost k0 = keys@;
            keys.push(t);
            counts.push(1);
            assert forall|x: i64| p1.contains(x) implies keys@.contains(x) by {
                let k = choose|k: int| 0 <= k < p1.len() && p1[k] == x;
                if k < i {
                    assert(p0[k] == x);
                    assert(p0.contains(x));
                    assert(k0.contains(x));
                    let q = choose|q: int| 0 <= q < k0.len() && k0[q] == x;
                    assert(keys@[q] == x);
                } else {
                    assert(keys@[keys@.len() - 1] == t);
                }
            }
        }
        i = i + 1;
    }
    assert(teams@.take(i as int) =~= teams@);
    let mut best = keys[0];
    let mut best_count = counts[0];
    let ghost mut bi: int = 0;
    let mut j: usize = 1;
    while j < keys.len()
        invariant
            1 <= j <= keys@.len(),
            keys@.len() == counts@.len(),
            0 <= bi < keys@.len(),
            best == keys@[bi],
            best_count == counts@[bi],
            forall|q: int| 0 <= q < j ==> #[trigger] counts@[q] < best_count || (counts@[q] == best_count && best <= keys@[q]),
        decreases keys@.len() - j,
    {
        let ghost b0 = best;
        let ghost c0 = best_count;
        if counts[j] > best_count || (counts[j] == best_count && keys[j] < best) {
            best = keys[j];
            best_count = counts[j];
            proof {
                bi = j as int;
            }
        }
        assert forall|q: int| 0 <= q <= j implies #[trigger] counts@[q] < best_count || (counts@[q] == best_count && best
            <= keys@[q]) by {
            if q < j {
                assert(counts@[q] < c0 || (counts@[q] == c0 && b0 <= keys@[q]));
            }
        }
        j = j + 1;
    }
    assert forall|t: i64| #[trigger] teams@.contains(t) implies occurrences(teams@, t) < occurrences(teams@, best) || (
    occurrences(teams@, t) == occurrences(teams@, best) && best <= t) by {
        assert(keys@.contains(t));
        let q = choose|q: int| 0 <= q < keys@.len() && keys@[q] == t;
        assert(counts@[q] == occurrences(teams@, keys@[q]));
    }
    assert(teams@.contains(keys@[bi]));
    best
}

/// `a` comes before `b` in code point order (a proper prefix first).
pub open spec fn chars_lt(a: Seq<char>, b: Seq<char>) -> bool
    decreases a.len(),
{
    if a.len() == 0 {
        b.len() > 0
    } else if b.len() == 0 {
        false
    } else if a[0] != b[0] {
        (a[0] as u32) < (b[0] as u32)
    } else {
        chars_lt(a.drop_first(), b.drop_first())
    }
}

pub proof fn lemma_chars_lt_asym(a: Seq<char>, b: Seq<char>)
    ensures
        !(chars_lt(a, b) && chars_lt(b, a)),
    decreases a.len(),
{
    if a.len() > 0 && b.len() > 0 && a[0] == b[0] {
        lemma_chars_lt_asym(a.drop_first(), b.drop_first());
    }
}

pub proof fn lemma_chars_lt_trans(a: Seq<char>, b: Seq<char>, c: Seq<char>)
    requires
        chars_lt(a, b),
        chars_lt(b, c),
    ensures
        chars_lt(a, c),
    decreases a.len(),
{
    if a.len() > 0 && b.len() > 0 && c.len() > 0 && a[0] == b[0] && b[0] == c[0] {
        lemma_chars_lt_trans(a.drop_first(), b.drop_first(), c.drop_first());
    }
}

/// `a` comes before `b` in code point order.
pub(crate) fn chars_less(a: &Vec<char>, b: &Vec<char>) -> (r: bool)
    ensures
        r == chars_lt(a@, b@),
{
    let mut i: usize = 0;
    assert(a@.skip(0) =~= a@);
    assert(b@.skip(0) =~= b@);
    while i < a.len() && i < b.len()
        invariant
            i <= a@.len(),
            i <= b@.len(),
            chars_lt(a@, b@) == chars_lt(a@.skip(i as int), b@.skip(i as int)),
        decreases a@.len() - i,
    {
        assert(a@.skip(i as int)[0] == a@[i as int]);
        assert(b@.skip(i as int)[0] == b@[i as int]);
        if a[i] != b[i] {
            return (a[i] as u32) < (b[i] as u32);
        }
        assert(a@.skip(i as int).drop_first() =~= a@.skip(i + 1));
        assert(b@.skip(i as int).drop_first() =~= b@.skip(i + 1));
        assert(a@[i as int] == b@[i as int]);
        assert(chars_lt(a@.skip(i as int), b@.skip(i as int)) == chars_lt(a@.skip(i + 1), b@.skip(i + 1)));
        i = i + 1;
    }
    a.len() < b.len()
}

fn chars_equal(a: &Vec<char>, b: &Vec<char>) -> (r: bool)
    ensures
        r == (a@ == b@),
{
    if a.len() != b.len() {
        return false;
    }
    let mut i: usize = 0;
    while i < a.len()
        invariant
            i <= a@.len(),
            a@.len() == b@.len(),
            forall|k: int| 0 <= k < i ==> a@[k] == b@[k],
        decreases a@.len() - i,
    {
        if a[i] != b[i] {
            return false;
        }
        i = i + 1;
    }
    assert(a@ =~= b@);
    true
}

/// Code point order is total: of two different texts one comes first.
pub proof fn lemma_chars_lt_total(a: Seq<char>, b: Seq<char>)
    requires
        a != b,
    ensures
        chars_lt(a, b) || chars_lt(b, a),
    decreases a.len(),
{
    if a.len() > 0 && b.len() > 0 && a[0] == b[0] {
        if a.drop_first() == b.drop_first() {
            assert(a =~= seq![a[0]] + a.drop_first());
            assert(b =~= seq![b[0]] + b.drop_first());
        }
        lemma_chars_lt_total(a.drop_first(), b.drop_first());
    } else if a.len() > 0 && b.len() > 0 {
        let x = a[0] as u32;
        let y = b[0] as u32;
        assert(x != y) by {
            vstd::utf8::char_u32_cast(a[0], x);
            vstd::utf8::char_u32_cast(b[0], y);
        }
    } else if a.len() == 0 && b.len() == 0 {
        assert(a =~= b);
    }
}

/// Where account `acc` stands among the sorted `keys`: its index when it is
/// there (`true`), else where it goes.
fn account_slot(keys: &Vec<Vec<char>>, acc: &Vec<char>) -> (r: (usize, bool))
    ensures
        r.0 <= keys@.len(),
        r.1 ==> r.0 < keys@.len() && keys@[r.0 as int]@ == acc@,
        !r.1 ==> forall|h: int| 0 <= h < r.0 ==> chars_lt(#[trigger] keys@[h]@, acc@),
        !r.1 && r.0 < keys@.len() ==> chars_lt(acc@, keys@[r.0 as int]@),
{
    let mut g: usize = 0;
    while g < keys.len()
        invariant
            g <= keys@.len(),
            forall|h: int| 0 <= h < g ==> chars_lt(#[trigger] keys@[h]@, acc@),
        decreases keys@.len() - g,
    {
        if chars_equal(&keys[g], acc) {
            return (g, true);
        }
        if chars_less(acc, &keys[g]) {
            return (g, false);
        }
        proof {
            lemma_chars_lt_total(keys@[g as int]@, acc@);
        }
        g = g + 1;
    }
    (g, false)
}

/// The account of agent `id` as text: empty when the slot is empty or the
/// agent has no account.
pub open spec fn account_chars(s: Seq<Option<AgentItem>>, id: AgentId) -> Seq<char> {
    if live(s, id as int) {
        match agent_at(s, id as int).account {
            Some(a) => a@,
            None => Seq::empty(),
        }
    } else {
        Seq::empty()
    }
}

/// The ids of `ids` whose account is `a`, in order.
pub open spec fn with_account(s: Seq<Option<AgentItem>>, ids: Seq<AgentId>, a: Seq<char>) -> Seq<AgentId>
    decreases ids.len(),
{
    if ids.len() == 0 {
        Seq::empty()
    } else {
        let rest = with_account(s, ids.drop_last(), a);
        if account_chars(s, ids.last()) == a {
            rest.push(ids.last())
        } else {
            rest
        }
    }
}

/// `groups` holds `ids` grouped by account: each group is every id of one
/// account in the order of `ids`, the groups in increasing account order,
/// and every id is in a group.
pub open spec fn grouped_by_account(s: Seq<Option<AgentItem>>, ids: Seq<AgentId>, groups: Seq<Seq<AgentId>>) -> bool {
    &&& forall|k: int| 0 <= k < groups.len() ==> (#[trigger] groups[k]).len() > 0 && groups[k] == with_account(
        s,
        ids,
        account_chars(s, groups[k][0]),
    )
    &&& forall|k: int, l: int| 0 <= k < l < groups.len() ==> chars_lt(
        account_chars(s, (#[trigger] groups[k])[0]),
        account_chars(s, (#[trigger] groups[l])[0]),
    )
    &&& forall|i: int| 0 <= i < ids.len() ==> has_group_of(s, groups, account_chars(s, #[trigger] ids[i]))
}

/// One of `groups` is of account `a`.
pub open spec fn has_group_of(s: Seq<Option<AgentItem>>, groups: Seq<Seq<AgentId>>, a: Seq<char>) -> bool {
    exists|k: int| 0 <= k < groups.len() && account_chars(s, #[trigger] groups[k][0]) == a
}

proof fn lemma_with_account_members(s: Seq<Option<AgentItem>>, ids: Seq<AgentId>, a: Seq<char>)
    ensures
        forall|j: int| 0 <= j < with_account(s, ids, a).len() ==> account_chars(s, #[trigger] with_account(s, ids, a)[j]) == a,
    decreases ids.len(),
{
    if ids.len() > 0 {
        lemma_with_account_members(s, ids.drop_last(), a);
        let rest = with_account(s, ids.drop_last(), a);
        assert forall|j: int| 0 <= j < with_account(s, ids, a).len() implies account_chars(s, #[trigger] with_account(s, ids, a)[j]) == a by {
            if j < rest.len() {
                assert(with_account(s, ids, a)[j] == rest[j]);
            }
        }
    }
}

proof fn lemma_with_account_none(s: Seq<Option<AgentItem>>, ids: Seq<AgentId>, a: Seq<char>)
    requires
        forall|j: int| 0 <= j < ids.len() ==> account_chars(s, #[trigger] ids[j]) != a,
    ensures
        with_account(s, ids, a) == Seq::<AgentId>::empty(),
    decreases ids.len(),
{
    if ids.len() > 0 {
        assert forall|j: int| 0 <= j < ids.drop_last().len() implies account_chars(s, #[trigger] ids.drop_last()[j]) != a by {
            assert(ids.drop_last()[j] == ids[j]);
        }
        lemma_with_account_none(s, ids.drop_last(), a);
        assert(ids[ids.len() - 1] == ids.last());
    }
}

/// The lists of `r` as sequences.
pub open spec fn id_lists(r: Seq<Vec<AgentId>>) -> Seq<Seq<AgentId>> {
    r.map_values(|v: Vec<AgentId>| v@)
}

proof fn lemma_with_account_contains(s: Seq<Option<AgentItem>>, ids: Seq<AgentId>, a: Seq<char>, x: AgentId)
    requires
        ids.contains(x),
        account_chars(s, x) == a,
    ensures
        with_account(s, ids, a).contains(x),
    decreases ids.len(),
{
    let rest = with_account(s, ids.drop_last(), a);
    if ids.last() == x {
        assert(with_account(s, ids, a) == rest.push(x));
        assert(rest.push(x)[rest.len() as int] == x);
    } else {
        let k = choose|k: int| 0 <= k < ids.len() && ids[k] == x;
        assert(k < ids.len() - 1);
        assert(ids.drop_last()[k] == x);
        lemma_with_account_contains(s, ids.drop_last(), a, x);
        let j = choose|j: int| 0 <= j < rest.len() && rest[j] == x;
        if account_chars(s, ids.last()) == a {
            assert(rest.push(ids.last())[j] == x);
        }
    }
}

/// Players grouped by account (no account counting as the empty one), in
/// increasing account order, each group in the order of `ids`.
fn groups_by_account(table: &AgentTable, ids: &Vec<AgentId>) -> (r: Vec<Vec<AgentId>>)
    ensures
        grouped_by_account(table@, ids@, id_lists(r@)),
{
    let ghost s = table@;
    let mut keys: Vec<Vec<char>> = Vec::new();
    let mut members: Vec<Vec<AgentId>> = Vec::new();
    let mut i: usize = 0;
    while i < ids.len()
        invariant
            i <= ids@.len(),
            s == table@,
            keys@.len() == members@.len(),
            forall|g: int| 0 <= g < members@.len() ==> (#[trigger] members@[g])@.len() > 0 && members@[g]@ == with_account(
                s,
                ids@.take(i as int),
                keys@[g]@,
            ),
            forall|g: int, h: int| 0 <= g < h < keys@.len() ==> chars_lt((#[trigger] keys@[g])@, (#[trigger] keys@[h])@),
            forall|j: int| #![trigger ids@[j]] 0 <= j < i ==> exists|g: int| #![trigger keys@[g]] 0 <= g < keys@.len() && account_chars(s, ids@[j]) == keys@[g]@,
        decreases ids@.len() - i,
    {
        let id = ids[i];
        let acc: Vec<char> = match table.slot(id) {
            Some(a) => match &a.account {
                Some(name) => to_chars(name),
                None => Vec::new(),
            },
            None => Vec::new(),
        };
        let ghost a = acc@;
        assert(a == account_chars(s, id));
        let ghost p0 = ids@.take(i as int);
        let ghost p1 = ids@.take(i + 1);
        assert(p1.drop_last() =~= p0);
        assert(p1.last() == id);
        let ghost k0 = keys@;
        let ghost m0 = members@;
        let (g, same) = account_slot(&keys, &acc);
        if same {
            let mut m = members.remove(g);
            m.push(id);
            members.insert(g, m);
            assert(members@ =~= m0.update(g as int, m));
            assert forall|q: int| 0 <= q < members@.len() implies (#[trigger] members@[q])@.len() > 0 && members@[q]@ == with_account(
                s,
                p1,
                keys@[q]@,
            ) by {
                if q != g {
                    assert(keys@[q]@ != a) by {
                        if q < g {
                            lemma_chars_lt_asym(keys@[q]@, keys@[g as int]@);
                        } else {
                            lemma_chars_lt_asym(keys@[g as int]@, keys@[q]@);
                        }
                    }
                }
            }
            assert forall|j: int| #![trigger ids@[j]] 0 <= j < i + 1 implies exists|q: int| #![trigger keys@[q]] 0 <= q < keys@.len() && account_chars(s, ids@[j]) == keys@[q]@ by {
                if j == i {
                    assert(account_chars(s, ids@[j]) == keys@[g as int]@);
                }
            }
        } else {
            let mut m: Vec<AgentId> = Vec::new();
            m.push(id);
            proof {
                assert forall|j: int| 0 <= j < p0.len() implies account_chars(s, #[trigger] p0[j]) != a by {
                    assert(p0[j] == ids@[j]);
                    let q = choose|q: int| 0 <= q < k0.len() && account_chars(s, ids@[j]) == k0[q]@;
                    if account_chars(s, p0[j]) == a {
                        if q < g {
                            lemma_chars_lt_asym(k0[q]@, a);
                        } else {
                            lemma_chars_lt_asym(a, k0[g as int]@);
                            if q > g {
                                lemma_chars_lt_trans(a, k0[g as int]@, k0[q]@);
                                lemma_chars_lt_asym(a, k0[q]@);
                            }
                        }
                    }
                }
                lemma_with_account_none(s, p0, a);
            }
            keys.insert(g, acc);
            members.insert(g, m);
            assert(keys@ =~= k0.insert(g as int, keys@[g as int]));
            assert(members@ =~= m0.insert(g as int, m));
            assert forall|q: int| 0 <= q < members@.len() implies (#[trigger] members@[q])@.len() > 0 && members@[q]@ == with_account(
                s,
                p1,
                keys@[q]@,
            ) by {
                if q == g {
                    assert(members@[q]@ =~= seq![id]);
                    assert(with_account(s, p1, a) =~= Seq::<AgentId>::empty().push(id));
                } else {
                    let q0 = if q < g { q } else { q - 1 };
                    assert(members@[q] == m0[q0]);
                    assert(keys@[q] == k0[q0]);
                    assert(k0[q0]@ != a) by {
                        if q0 < g {
                            lemma_chars_lt_asym(k0[q0]@, a);
                        } else {
                            lemma_chars_lt_asym(a, k0[g as int]@);
                            if q0 > g {
                                lemma_chars_lt_trans(a, k0[g as int]@, k0[q0]@);
                                lemma_chars_lt_asym(a, k0[q0]@);
                            }
                        }
                    }
                }
            }
            assert forall|x: int, y: int| 0 <= x < y < keys@.len() implies chars_lt((#[trigger] keys@[x])@, (#[trigger] keys@[y])@) by {
                let x0 = if x < g { x } else { x - 1 };
                let y0 = if y < g { y } else { y - 1 };
                if x == g {
                    assert(keys@[y] == k0[y0]);
                    if y0 > g {
                        assert(chars_lt(k0[g as int]@, k0[y0]@));
                        lemma_chars_lt_trans(a, k0[g as int]@, k0[y0]@);
                    }
                } else if y == g {
                    assert(keys@[x] == k0[x0]);
                } else {
                    assert(keys@[x] == k0[x0]);
                    assert(keys@[y] == k0[y0]);
                }
            }
            assert forall|j: int| #![trigger ids@[j]] 0 <= j < i + 1 implies exists|q: int| #![trigger keys@[q]] 0 <= q < keys@.len() && account_chars(s, ids@[j]) == keys@[q]@ by {
                if j == i {
                    assert(account_chars(s, ids@[j]) == keys@[g as int]@);
                } else {
                    let q0 = choose|q0: int| 0 <= q0 < k0.len() && account_chars(s, ids@[j]) == k0[q0]@;
                    let q = if q0 < g { q0 } else { q0 + 1 };
                    assert(keys@[q] == k0[q0]);
                }
            }
        }
        i = i + 1;
    }
    assert(ids@.take(i as int) =~= ids@);
    let ghost gs = id_lists(members@);
    assert forall|g: int| 0 <= g < members@.len() implies account_chars(s, members@[g]@[0]) == keys@[g]@ by {
        lemma_with_account_members(s, ids@, keys@[g]@);
    }
    assert forall|k: int, l: int| 0 <= k < l < gs.len() implies chars_lt(
        account_chars(s, (#[trigger] gs[k])[0]),
        account_chars(s, (#[trigger] gs[l])[0]),
    ) by {
        assert(gs[k] == members@[k]@);
        assert(gs[l] == members@[l]@);
        assert(chars_lt(keys@[k]@, keys@[l]@));
    }
    assert forall|x: int| 0 <= x < ids@.len() implies has_group_of(s, gs, account_chars(s, #[trigger] ids@[x])) by {
        let ghost idx = ids@[x];
        assert(0 <= x < i);
        assert(exists|q: int| #![trigger keys@[q]] 0 <= q < keys@.len() && account_chars(s, idx) == keys@[q]@);
        let q = choose|q: int| #![trigger keys@[q]] 0 <= q < keys@.len() && account_chars(s, ids@[x]) == keys@[q]@;
        assert(gs[q] == members@[q]@);
        assert(account_chars(s, members@[q]@[0]) == keys@[q]@);
        assert(account_chars(s, gs[q][0]) == account_chars(s, ids@[x]));
    }

    assert forall|k: int| 0 <= k < gs.len() implies (#[trigger] gs[k]).len() > 0 && gs[k] == with_account(
        s,
        ids@,
        account_chars(s, gs[k][0]),
    ) by {
        assert(gs[k] == members@[k]@);
    }
    assert(gs.len() == members@.len());
    assert(forall|k: int| 0 <= k < gs.len() ==> (#[trigger] gs[k]).len() > 0 && gs[k] == with_account(
        s,
        ids@,
        account_chars(s, gs[k][0]),
    ));
    assert(forall|k: int, l: int| 0 <= k < l < gs.len() ==> chars_lt(
        account_chars(s, (#[trigger] gs[k])[0]),
        account_chars(s, (#[trigger] gs[l])[0]),
    ));
    assert(grouped_by_account(s, ids@, gs));
    members
}

// ===== the whole linking =====

/// Name of an agent that rows name but the agent records lack: `UNKNOWN `
/// and the decimal address.
fn unknown_name(addr: u64) -> (r: String)
    ensures
        r@ == "UNKNOWN "@ + decimal(addr as nat),
{
    let digits = u64_text(addr);
    concat_str("UNKNOWN ", digits.as_str())
}

/// The agent standing for address `addr` that no record describes.
pub open spec fn unknown_agent(a: AgentItem, addr: u64) -> bool {
    &&& a.address == addr
    &&& a.name@ == "UNKNOWN "@ + decimal(addr as nat)
    &&& a.agent_type == AgentType::StableSpecies
    &&& a.spec == Spec::Npc
    &&& a.base_spec == Spec::Npc
    &&& a.id == 0
    &&& a.instid == 0
    &&& a.toughness == 0 && a.healing == 0 && a.condition == 0 && a.concentration == 0
    &&& a.hitbox_width == 0 && a.hitbox_height == 0
    &&& a.first_aware == i64::MAX && a.last_aware == i64::MAX
    &&& a.master == NO_AGENT && a.englobing == NO_AGENT
    &&& a.englobed@.len() == 0 && a.regrouped@.len() == 0
    &&& !a.is_fake && !a.is_not_in_squad_friendly_player && !a.is_unknown
    &&& a.character@ == a.name@
    &&& a.account is None && a.group is None && !a.unamed
}

/// Adds the agent standing for address `addr`.
fn add_unknown_agent(table: &mut AgentTable, addr: u64) -> (r: AgentId)
    requires
        old(table)@.len() < NO_AGENT,
    ensures
        r == old(table)@.len(),
        final(table)@.len() == old(table)@.len() + 1,
        final(table)@.subrange(0, r as int) == old(table)@,
        live(final(table)@, r as int),
        unknown_agent(agent_at(final(table)@, r as int), addr),
{
    let ghost s = table@;
    let name = unknown_name(addr);
    let character = name.clone();
    let ag = AgentItem {
        address: addr,
        name,
        agent_type: AgentType::StableSpecies,
        spec: Spec::Npc,
        base_spec: Spec::Npc,
        id: 0,
        instid: 0,
        toughness: 0,
        healing: 0,
        condition: 0,
        concentration: 0,
        hitbox_width: 0,
        hitbox_height: 0,
        first_aware: i64::MAX,
        last_aware: i64::MAX,
        master: NO_AGENT,
        englobing: NO_AGENT,
        englobed: Vec::new(),
        regrouped: Vec::new(),
        is_fake: false,
        is_not_in_squad_friendly_player: false,
        is_unknown: false,
        character,
        account: None,
        group: None,
        unamed: false,
    };
    let r = table.push_agent(ag);
    assert(table@.subrange(0, r as int) =~= s);
    r
}

/// Addresses that rows name (as source or destination agent) and that
/// neither 0 nor `known` is, without repeats, in increasing order.
fn missing_addresses(items: &Vec<EvtcCombatItem>, known: &Vec<u64>) -> (r: Vec<u64>)
    ensures
        forall|k: int| 0 <= k < r@.len() ==> #[trigger] r@[k] != 0 && !known@.contains(r@[k]),
        forall|k: int, j: int| 0 <= k < j < r@.len() ==> r@[k] < r@[j],
{
    let mut found: Vec<u64> = Vec::new();
    let mut i: usize = 0;
    while i < items.len()
        invariant
            i <= items@.len(),
            forall|k: int| 0 <= k < found@.len() ==> #[trigger] found@[k] != 0 && !known@.contains(found@[k]),
        decreases items@.len() - i,
    {
        let item = items[i];
        if item.src_is_agent() && item.src_agent != 0 && !contains_u64(known, item.src_agent) {
            found.push(item.src_agent);
        }
        if item.dst_is_agent() && item.dst_agent != 0 && !contains_u64(known, item.dst_agent) {
            found.push(item.dst_agent);
        }
        i = i + 1;
    }
    let mut keys: Vec<i128> = Vec::new();
    let mut i: usize = 0;
    while i < found.len()
        invariant
            i <= found@.len(),
            keys@.len() == i,
            forall|k: int| 0 <= k < i ==> #[trigger] keys@[k] == found@[k] as i128,
        decreases found@.len() - i,
    {
        keys.push(found[i] as i128);
        i = i + 1;
    }
    let p = stable_order(&keys);
    let mut out: Vec<u64> = Vec::new();
    let mut q: usize = 0;
    while q < p.len()
        invariant
            is_stable_order(keys@, p@),
            keys@.len() == found@.len(),
            forall|k: int| 0 <= k < found@.len() ==> #[trigger] keys@[k] == found@[k] as i128,
            forall|k: int| 0 <= k < found@.len() ==> #[trigger] found@[k] != 0 && !known@.contains(found@[k]),
            q <= p@.len(),
            forall|k: int| 0 <= k < out@.len() ==> #[trigger] out@[k] != 0 && !known@.contains(out@[k]),
            forall|k: int, j: int| 0 <= k < j < out@.len() ==> out@[k] < out@[j],
            out@.len() > 0 && q > 0 ==> out@[out@.len() - 1] == found@[p@[q - 1] as int],
            out@.len() > 0 ==> q > 0,
        decreases p@.len() - q,
    {
        let a = found[p[q]];
        proof {
            if q > 0 {
                lemma_keys_ordered(keys@, p@, q as int);
            }
        }
        if out.len() == 0 || out[out.len() - 1] != a {
            out.push(a);
        }
        q = q + 1;
    }
    out
}

proof fn lemma_keys_ordered(keys: Seq<i128>, p: Seq<usize>, q: int)
    requires
        is_stable_order(keys, p),
        1 <= q < p.len(),
    ensures
        keys[p[q - 1] as int] <= keys[p[q] as int],
{
    assert(crate::model::ordering::key_before(keys, p[q - 1] as int, p[q] as int));
}

/// The list of `k` in `m`, empty when it has none.
pub open spec fn ids_or_empty<K>(m: Map<K, Vec<AgentId>>, k: K) -> Seq<AgentId> {
    if m.contains_key(k) {
        m[k]@
    } else {
        Seq::empty()
    }
}

/// Keys of type `K` are ordered as the map of lists needs.
pub open spec fn ordered_keys<K: Ord>() -> bool {
    obeys_cmp::<K>()
}

/// Appends `v` to the list of `k` (which it creates when `k` has none);
/// the other lists stay.
fn push_by_key<K: Ord + Copy>(map: &mut BTreeMap<K, Vec<AgentId>>, k: K, v: AgentId)
    ensures
        ordered_keys::<K>() ==> {
            &&& final(map)@.dom() == old(map)@.dom().insert(k)
            &&& final(map)@[k]@ == ids_or_empty(old(map)@, k).push(v)
            &&& forall|q: K| q != k && old(map)@.contains_key(q) ==> final(map)@[q] == old(map)@[q]
        },
{
    let mut list = match map.remove(&k) {
        Some(l) => l,
        None => Vec::new(),
    };
    list.push(v);
    map.insert(k, list);
}

/// `m` holds, for each key that a live agent of `s` has, the agents of
/// that key in (first aware, id) order, and nothing else.
pub open spec fn grouped_by<K>(s: Seq<Option<AgentItem>>, m: Map<K, Vec<AgentId>>, key: spec_fn(AgentItem) -> K) -> bool {
    &&& forall|q: K| #[trigger] m.contains_key(q) ==> {
        &&& m[q]@.len() > 0
        &&& key_sorted(s, m[q]@)
        &&& forall|j: int| 0 <= j < m[q]@.len() ==> live(s, #[trigger] m[q]@[j] as int) && key(
            agent_at(s, m[q]@[j] as int),
        ) == q
    }
    &&& forall|x: int| #[trigger] live(s, x) ==> {
        &&& m.contains_key(key(agent_at(s, x)))
        &&& m[key(agent_at(s, x))]@.contains(x as AgentId)
    }
}

/// `m` is grouped as [`grouped_by`] asks for the agents among `done`.
pub open spec fn grouped_prefix<K>(
    s: Seq<Option<AgentItem>>,
    m: Map<K, Vec<AgentId>>,
    key: spec_fn(AgentItem) -> K,
    done: Seq<AgentId>,
) -> bool {
    &&& forall|q: K| #[trigger] m.contains_key(q) ==> {
        &&& m[q]@.len() > 0
        &&& key_sorted(s, m[q]@)
        &&& forall|j: int| 0 <= j < m[q]@.len() ==> done.contains(#[trigger] m[q]@[j]) && live(s, m[q]@[j] as int) && key(
            agent_at(s, m[q]@[j] as int),
        ) == q
    }
    &&& forall|j: int| 0 <= j < done.len() ==> {
        &&& m.contains_key(key(agent_at(s, #[trigger] done[j] as int)))
        &&& m[key(agent_at(s, done[j] as int))]@.contains(done[j])
    }
}

proof fn lemma_grouped_step<K>(
    s: Seq<Option<AgentItem>>,
    m0: Map<K, Vec<AgentId>>,
    m1: Map<K, Vec<AgentId>>,
    key: spec_fn(AgentItem) -> K,
    sorted: Seq<AgentId>,
    i: int,
)
    requires
        0 <= i < sorted.len(),
        key_sorted(s, sorted),
        live(s, sorted[i] as int),
        grouped_prefix(s, m0, key, sorted.take(i)),
        m1.dom() == m0.dom().insert(key(agent_at(s, sorted[i] as int))),
        m1[key(agent_at(s, sorted[i] as int))]@ == ids_or_empty(m0, key(agent_at(s, sorted[i] as int))).push(sorted[i]),
        forall|q: K| q != key(agent_at(s, sorted[i] as int)) && m0.contains_key(q) ==> m1[q] == m0[q],
    ensures
        grouped_prefix(s, m1, key, sorted.take(i + 1)),
{
    let x = sorted[i];
    let kx = key(agent_at(s, x as int));
    let d0 = sorted.take(i);
    let d1 = sorted.take(i + 1);
    assert forall|e: AgentId| d0.contains(e) implies d1.contains(e) by {
        let j = choose|j: int| 0 <= j < d0.len() && d0[j] == e;
        assert(d1[j] == e);
    }
    assert(d1[i] == x);
    let old_list = ids_or_empty(m0, kx);
    assert forall|j: int| 0 <= j < old_list.len() implies key_lt(s, old_list[j], x) by {
        assert(m0.contains_key(kx));
        assert(d0.contains(m0[kx]@[j]));
        let p = choose|p: int| 0 <= p < d0.len() && d0[p] == old_list[j];
        assert(sorted[p] == old_list[j]);
    }
    assert forall|q: K| #[trigger] m1.contains_key(q) implies {
        &&& m1[q]@.len() > 0
        &&& key_sorted(s, m1[q]@)
        &&& forall|j: int| 0 <= j < m1[q]@.len() ==> d1.contains(#[trigger] m1[q]@[j]) && live(s, m1[q]@[j] as int) && key(
            agent_at(s, m1[q]@[j] as int),
        ) == q
    } by {
        if q == kx {
            let l = m1[q]@;
            assert forall|a: int, b: int| 0 <= a < b < l.len() implies key_lt(s, l[a], l[b]) by {
                if b < l.len() - 1 {
                    assert(m0.contains_key(kx));
                    assert(key_sorted(s, m0[kx]@));
                }
            }
            assert forall|j: int| 0 <= j < l.len() implies d1.contains(#[trigger] l[j]) && live(s, l[j] as int) && key(
                agent_at(s, l[j] as int),
            ) == q by {
                if j < l.len() - 1 {
                    assert(m0.contains_key(kx));
                    assert(l[j] == m0[kx]@[j]);
                    assert(d0.contains(m0[kx]@[j]));
                }
            }
        } else {
            assert(m0.contains_key(q));
            assert(m1[q] == m0[q]);
            assert forall|j: int| 0 <= j < m1[q]@.len() implies d1.contains(#[trigger] m1[q]@[j]) by {
                assert(d0.contains(m0[q]@[j]));
            }
        }
    }
    assert forall|j: int| 0 <= j < d1.len() implies {
        &&& m1.contains_key(key(agent_at(s, #[trigger] d1[j] as int)))
        &&& m1[key(agent_at(s, d1[j] as int))]@.contains(d1[j])
    } by {
        if j == i {
            let l = m1[kx]@;
            assert(l[l.len() - 1] == x);
        } else {
            assert(d1[j] == d0[j]);
            let kj = key(agent_at(s, d0[j] as int));
            assert(m0.contains_key(kj));
            if kj == kx {
                let l = m1[kx]@;
                let p = choose|p: int| 0 <= p < m0[kx]@.len() && m0[kx]@[p] == d0[j];
                assert(l[p] == d0[j]);
            } else {
                assert(m1[kj] == m0[kj]);
            }
        }
    }
}

proof fn lemma_grouped_done<K>(
    s: Seq<Option<AgentItem>>,
    m: Map<K, Vec<AgentId>>,
    key: spec_fn(AgentItem) -> K,
    sorted: Seq<AgentId>,
)
    requires
        s.len() <= NO_AGENT,
        grouped_prefix(s, m, key, sorted),
        forall|x: AgentId| sorted.contains(x) <==> live(s, x as int),
    ensures
        grouped_by(s, m, key),
{
    assert forall|x: int| #[trigger] live(s, x) implies {
        &&& m.contains_key(key(agent_at(s, x)))
        &&& m[key(agent_at(s, x))]@.contains(x as AgentId)
    } by {
        assert(sorted.contains(x as AgentId));
        let j = choose|j: int| 0 <= j < sorted.len() && sorted[j] == x as AgentId;
        assert(sorted[j] as int == x);
    }
}

/// Agents of each address, each list by first aware time, then id.
fn agents_by_address(table: &AgentTable) -> (r: BTreeMap<u64, Vec<AgentId>>)
    requires
        table@.len() <= NO_AGENT,
    ensures
        grouped_by(table@, r@, |a: AgentItem| a.address),
{
    let ghost key = |a: AgentItem| a.address;
    let sorted = table.ids_sorted_by_first_aware();
    let mut m: BTreeMap<u64, Vec<AgentId>> = BTreeMap::new();
    let mut i: usize = 0;
    assert(grouped_prefix(table@, m@, key, sorted@.take(0)));
    while i < sorted.len()
        invariant
            i <= sorted@.len(),
            table@.len() <= NO_AGENT,
            key_sorted(table@, sorted@),
            forall|x: AgentId| sorted@.contains(x) <==> live(table@, x as int),
            forall|x: AgentItem| #[trigger] key(x) == x.address,
            grouped_prefix(table@, m@, key, sorted@.take(i as int)),
        decreases sorted@.len() - i,
    {
        assert(sorted@.contains(sorted@[i as int]));
        match table.slot(sorted[i]) {
            Some(a) => {
                let ghost m0 = m@;
                push_by_key(&mut m, a.address, sorted[i]);
                proof {
                    assert(ordered_keys::<u64>());
                    assert(key(agent_at(table@, sorted@[i as int] as int)) == a.address);
                    lemma_grouped_step(table@, m0, m@, key, sorted@, i as int);
                }
            },
            None => {},
        }
        i = i + 1;
    }
    assert(sorted@.take(i as int) =~= sorted@);
    proof {
        lemma_grouped_done(table@, m@, key, sorted@);
    }
    m
}

/// Agents of each instance id, each list by first aware time, then id.
fn agents_by_instid(table: &AgentTable) -> (r: BTreeMap<u16, Vec<AgentId>>)
    requires
        table@.len() <= NO_AGENT,
    ensures
        grouped_by(table@, r@, |a: AgentItem| a.instid),
{
    let ghost key = |a: AgentItem| a.instid;
    let sorted = table.ids_sorted_by_first_aware();
    let mut m: BTreeMap<u16, Vec<AgentId>> = BTreeMap::new();
    let mut i: usize = 0;
    assert(grouped_prefix(table@, m@, key, sorted@.take(0)));
    while i < sorted.len()
        invariant
            i <= sorted@.len(),
            table@.len() <= NO_AGENT,
            key_sorted(table@, sorted@),
            forall|x: AgentId| sorted@.contains(x) <==> live(table@, x as int),
            forall|x: AgentItem| #[trigger] key(x) == x.instid,
            grouped_prefix(table@, m@, key, sorted@.take(i as int)),
        decreases sorted@.len() - i,
    {
        assert(sorted@.contains(sorted@[i as int]));
        match table.slot(sorted[i]) {
            Some(a) => {
                let ghost m0 = m@;
                push_by_key(&mut m, a.instid, sorted[i]);
                proof {
                    assert(ordered_keys::<u16>());
                    assert(key(agent_at(table@, sorted@[i as int] as int)) == a.instid);
                    lemma_grouped_step(table@, m0, m@, key, sorted@, i as int);
                }
            },
            None => {},
        }
        i = i + 1;
    }
    assert(sorted@.take(i as int) =~= sorted@);
    proof {
        lemma_grouped_done(table@, m@, key, sorted@);
    }
    m
}

/// Agent `c` of `s` takes a row with instance id `instid` (its instance id
/// checked when `check`).
pub open spec fn accepts_row(s: Seq<Option<AgentItem>>, c: AgentId, instid: u16, check: bool) -> bool {
    live(s, c as int) && !instid_conflict(agent_at(s, c as int), instid, check)
}

/// Records a row's sight of the first agent of `candidates` that accepts it
/// (checking instance ids when there are several); whether one did.
fn see_agent(table: &mut AgentTable, candidates: &Vec<AgentId>, time: i64, instid: u16) -> (r: bool)
    ensures
        final(table)@.len() == old(table)@.len(),
        forall|i: int| 0 <= i < old(table)@.len() ==> #[trigger] live(final(table)@, i) == live(old(table)@, i),
        r == exists|k: int| 0 <= k < candidates@.len() && accepts_row(old(table)@, #[trigger] candidates@[k], instid, candidates@.len() > 1),
        r ==> exists|k: int| 0 <= k < candidates@.len() && {
            let c = #[trigger] candidates@[k];
            &&& accepts_row(old(table)@, c, instid, candidates@.len() > 1)
            &&& forall|j: int| 0 <= j < k ==> !accepts_row(old(table)@, candidates@[j], instid, candidates@.len() > 1)
            &&& final(table)@ == old(table)@.update(c as int, Some(touched_agent(agent_at(old(table)@, c as int), time, instid)))
        },
        !r ==> final(table)@ == old(table)@,
{
    let check = candidates.len() > 1;
    let mut k: usize = 0;
    while k < candidates.len()
        invariant
            k <= candidates@.len(),
            check == (candidates@.len() > 1),
            table@ == old(table)@,
            forall|j: int| 0 <= j < k ==> !accepts_row(old(table)@, #[trigger] candidates@[j], instid, check),
        decreases candidates@.len() - k,
    {
        let aid = candidates[k];
        if table.slot(aid).is_some() {
            let seen = update_agent_data(table, aid, time, instid, check);
            if seen {
                assert(accepts_row(old(table)@, candidates@[k as int], instid, check));
                return true;
            }
        }
        k = k + 1;
    }
    false
}

/// Agent `c` of `s` is aware 300 ms before or after `time` (both wrapping).
pub open spec fn near_row(s: Seq<Option<AgentItem>>, c: AgentId, time: i64) -> bool {
    &&& live(s, c as int)
    &&& (in_aware(agent_at(s, c as int), time.wrapping_sub(300)) || in_aware(agent_at(s, c as int), time.wrapping_add(300)))
}

/// The first agent of `list` aware 300 ms before or after `time`.
fn orphan_candidate(table: &AgentTable, list: &Vec<AgentId>, time: i64) -> (r: Option<AgentId>)
    ensures
        r matches Some(a) ==> live(table@, a as int),
        match r {
            Some(a) => exists|k: int| 0 <= k < list@.len() && #[trigger] list@[k] == a && near_row(table@, a, time)
                && forall|j: int| 0 <= j < k ==> !near_row(table@, list@[j], time),
            None => forall|k: int| 0 <= k < list@.len() ==> !near_row(table@, #[trigger] list@[k], time),
        },
{
    let mut k: usize = 0;
    while k < list.len()
        invariant
            k <= list@.len(),
            forall|j: int| 0 <= j < k ==> !near_row(table@, #[trigger] list@[j], time),
        decreases list@.len() - k,
    {
        match table.slot(list[k]) {
            Some(a) => {
                if a.in_aware_times(time.wrapping_sub(300)) || a.in_aware_times(time.wrapping_add(300)) {
                    return Some(list[k]);
                }
            },
            None => {},
        }
        k = k + 1;
    }
    None
}

/// The table has a squad player among its root agents.
pub open spec fn has_player_root(s: Seq<Option<AgentItem>>) -> bool {
    exists|i: int| live(s, i) && #[trigger] root_of_type(AgentType::Player)(agent_at(s, i))
}

/// No agent of `s` is a squad player.
pub open spec fn no_player_agent(s: Seq<Option<AgentItem>>) -> bool {
    forall|i: int| live(s, i) ==> (#[trigger] agent_at(s, i)).agent_type != AgentType::Player
}

/// The catalogue decodes every record of `agents` as an NPC or a gadget.
pub open spec fn no_player_records<C: SpecCatalog>(catalog: C, agents: Seq<EvtcRawAgent>) -> bool {
    forall|k: int| 0 <= k < agents.len() ==> {
        let d = catalog.decoded(#[trigger] agents[k].prof, agents[k].is_elite);
        d == Spec::Npc || d == Spec::Gadget
    }
}

proof fn lemma_push_no_player(t0: Seq<Option<AgentItem>>, t1: Seq<Option<AgentItem>>)
    requires
        no_player_agent(t0),
        t1.len() == t0.len() + 1,
        t1.subrange(0, t0.len() as int) == t0,
        live(t1, t0.len() as int),
        agent_at(t1, t0.len() as int).agent_type != AgentType::Player,
    ensures
        no_player_agent(t1),
{
    assert forall|i: int| live(t1, i) implies (#[trigger] agent_at(t1, i)).agent_type != AgentType::Player by {
        if i < t0.len() {
            assert(t1.subrange(0, t0.len() as int)[i] == t1[i]);
            assert(t1[i] == t0[i]);
            assert(live(t0, i));
            assert(agent_at(t1, i) == agent_at(t0, i));
        }
    }
}

proof fn lemma_merged_no_player(o: Seq<Option<AgentItem>>, s: Seq<Option<AgentItem>>)
    requires
        merged_table(o, s),
        no_player_agent(o),
    ensures
        no_player_agent(s),
{
    assert forall|i: int| live(s, i) implies (#[trigger] agent_at(s, i)).agent_type != AgentType::Player by {
        if i < o.len() {
            assert(s[i] is None || (live(o, i) && kept_agent(agent_at(o, i), agent_at(s, i))));
        } else {
            assert(has_type(o, agent_at(s, i).agent_type));
            let j = choose|j: int| live(o, j) && (#[trigger] agent_at(o, j)).agent_type == agent_at(s, i).agent_type;
            assert(agent_at(o, j).agent_type != AgentType::Player);
        }
    }
}

proof fn lemma_master_linked_no_player(
    s: Seq<Option<AgentItem>>,
    time: i64,
    master_instid: u16,
    minion_addr: u64,
    s2: Seq<Option<AgentItem>>,
)
    requires
        master_linked(s, time, master_instid, minion_addr, s2),
        no_player_agent(s),
    ensures
        no_player_agent(s2),
{
    let (m, mi) = choose|m: AgentId, mi: AgentId| #[trigger] master_linked_by(s, time, master_instid, minion_addr, s2, m, mi);
    assert forall|i: int| live(s2, i) implies (#[trigger] agent_at(s2, i)).agent_type != AgentType::Player by {
        if i != mi as int {
            assert(live(s, i));
        } else {
            assert(live(s, i));
        }
    }
}

proof fn lemma_touch_no_player(t0: Seq<Option<AgentItem>>, t1: Seq<Option<AgentItem>>, c: AgentId, time: i64, instid: u16)
    requires
        no_player_agent(t0),
        t1 == t0 || (live(t0, c as int) && t1 == t0.update(c as int, Some(touched_agent(agent_at(t0, c as int), time, instid)))),
    ensures
        no_player_agent(t1),
{
    assert forall|i: int| live(t1, i) implies (#[trigger] agent_at(t1, i)).agent_type != AgentType::Player by {
        if t1 != t0 {
            if i == c as int {
                let a = agent_at(t0, c as int);
                assert(agent_at(t1, i) == touched_agent(a, time, instid));
                assert(touched_agent(a, time, instid).agent_type == a.agent_type);
                assert(live(t0, i));
            } else {
                assert(t1[i] == t0[i]);
                assert(live(t0, i));
                assert(agent_at(t1, i) == agent_at(t0, i));
            }
        } else {
            assert(live(t0, i));
            assert(agent_at(t1, i) == agent_at(t0, i));
        }
    }
}

/// A live player root after splitting is one from before, its slot the
/// same but for its parts.
proof fn lemma_split_root(o: Seq<Option<AgentItem>>, s: Seq<Option<AgentItem>>, i: int)
    requires
        forall|x: int| 0 <= x < o.len() ==> if live(o, x) && root_of_type(AgentType::Player)(agent_at(o, x)) {
            same_but_parts(o, s, x)
        } else {
            s[x] == o[x]
        },
        i >= o.len() ==> live(o, agent_at(s, i).englobing as int),
        o.len() < NO_AGENT,
        live(s, i),
        root_of_type(AgentType::Player)(agent_at(s, i)),
    ensures
        0 <= i < o.len(),
        live(o, i),
        root_of_type(AgentType::Player)(agent_at(o, i)),
        agent_at(s, i).account == agent_at(o, i).account,
{
    if i >= o.len() {
        let e = agent_at(s, i).englobing;
        assert(live(o, e as int));
        assert(e != NO_AGENT);
    }
    if !(live(o, i) && root_of_type(AgentType::Player)(agent_at(o, i))) {
        assert(s[i] == o[i]);
    }
}

proof fn lemma_touch_seen(
    tb: Seq<Option<AgentItem>>,
    t0: Seq<Option<AgentItem>>,
    t1: Seq<Option<AgentItem>>,
    c: AgentId,
    time: i64,
    instid: u16,
)
    requires
        seen_by_rows(tb, t0),
        t1 == t0 || (live(t0, c as int) && t1 == t0.update(c as int, Some(touched_agent(agent_at(t0, c as int), time, instid)))),
    ensures
        seen_by_rows(tb, t1),
{
    assert forall|i: int| #![trigger t1[i]] 0 <= i < tb.len() implies (live(t1, i) <==> live(tb, i)) && (live(tb, i) ==> retimed(agent_at(tb, i), agent_at(t1, i))) by {
        assert(live(t0, i) <==> live(tb, i));
        if t1 != t0 && i == c as int {
            assert(live(tb, i) ==> retimed(agent_at(tb, i), agent_at(t0, i)));
        } else {
            assert(t1[i] == t0[i]);
        }
    }
}

proof fn lemma_master_linked_masters(
    tb: Seq<Option<AgentItem>>,
    s: Seq<Option<AgentItem>>,
    time: i64,
    master_instid: u16,
    minion_addr: u64,
    s2: Seq<Option<AgentItem>>,
)
    requires
        masters_only(tb, s),
        master_linked(s, time, master_instid, minion_addr, s2),
    ensures
        masters_only(tb, s2),
{
    let (m, mi) = choose|m: AgentId, mi: AgentId| #[trigger] master_linked_by(s, time, master_instid, minion_addr, s2, m, mi);
    assert forall|i: int| #![trigger s2[i]] 0 <= i < tb.len() implies (live(s2, i) <==> live(tb, i)) && (live(tb, i) ==> agent_at(s2, i)
        == (AgentItem { master: agent_at(s2, i).master, ..agent_at(tb, i) })) by {
        assert(s[i] == s[i]);
        if s2 != s && i == mi as int {
        } else {
            assert(s2[i] == s[i]);
        }
    }
}

proof fn lemma_link_chain<C: SpecCatalog>(
    catalog: C,
    log: EvtcRawLog,
    t0: Seq<Option<AgentItem>>,
    t1: Seq<Option<AgentItem>>,
    t3: Seq<Option<AgentItem>>,
    t4: Seq<Option<AgentItem>>,
    t5: Seq<Option<AgentItem>>,
    t6: Seq<Option<AgentItem>>,
    t7: Seq<Option<AgentItem>>,
)
    requires
        built_from_records(catalog, log.agents@, t0),
        unknown_appended(t0, t1),
        seen_by_rows(t1, t3),
        unseen_removed(t3, t4),
        env_added(t4, t5, log.log_end_time),
        masters_only(t5, t6),
        merged_table(t6, t7),
        t7.len() + 1 < NO_AGENT ==> accounts_distinct(t7),
    ensures
        linked_table(catalog, log, t7),
{
    assert(link_chain(catalog, log, t0, t1, t3, t4, t5, t6, t7));
}

/// Slot `i` is among the first `k` of `ids`.
pub open spec fn done_upto(ids: Seq<AgentId>, k: int, i: int) -> bool {
    exists|q: int| 0 <= q < k && #[trigger] ids[q] as int == i
}

/// `t` holds the agents of the records `agents` in order, each decoded by
/// `catalog`, as many as the table takes.
pub open spec fn built_from_records<C: SpecCatalog>(catalog: C, agents: Seq<EvtcRawAgent>, t: Seq<Option<AgentItem>>) -> bool {
    &&& t.len() == if agents.len() < NO_AGENT - 2 { agents.len() as int } else { NO_AGENT - 2 }
    &&& forall|k: int| 0 <= k < t.len() ==> live(t, k) && made_from_raw(
        #[trigger] agent_at(t, k),
        agents[k],
        catalog.decoded(agents[k].prof, agents[k].is_elite),
    )
}

/// `t1` is `t0` with agents for addresses that no record describes appended.
pub open spec fn unknown_appended(t0: Seq<Option<AgentItem>>, t1: Seq<Option<AgentItem>>) -> bool {
    &&& t1.len() >= t0.len()
    &&& t1.subrange(0, t0.len() as int) == t0
    &&& forall|i: int| t0.len() <= i < t1.len() ==> live(t1, i) && unknown_agent(#[trigger] agent_at(t1, i), agent_at(t1, i).address)
}

/// `b` is `a` seen at rows: only its aware span and instance id differ.
pub open spec fn retimed(a: AgentItem, b: AgentItem) -> bool {
    b == (AgentItem { first_aware: b.first_aware, last_aware: b.last_aware, instid: b.instid, ..a })
}

/// `t1` is `t0` with agents seen at rows.
pub open spec fn seen_by_rows(t0: Seq<Option<AgentItem>>, t1: Seq<Option<AgentItem>>) -> bool {
    &&& t1.len() == t0.len()
    &&& forall|i: int| #![trigger t1[i]] 0 <= i < t0.len() ==> (live(t1, i) <==> live(t0, i)) && (live(t0, i) ==> retimed(agent_at(t0, i), agent_at(t1, i)))
}

/// An agent that rows have seen: a finite aware span.
pub open spec fn aware_seen(a: AgentItem) -> bool {
    a.last_aware != i64::MAX && a.last_aware.wrapping_sub(a.first_aware) >= 0
}

/// The agent of slot `i` of `t`, or none when the agent was never seen.
pub open spec fn kept_if_seen(t: Seq<Option<AgentItem>>, i: int) -> Option<AgentItem> {
    if live(t, i) && !aware_seen(agent_at(t, i)) {
        None
    } else {
        t[i]
    }
}

/// `t1` is `t0` without the agents never seen.
pub open spec fn unseen_removed(t0: Seq<Option<AgentItem>>, t1: Seq<Option<AgentItem>>) -> bool {
    &&& t1.len() == t0.len()
    &&& forall|i: int| 0 <= i < t0.len() ==> #[trigger] t1[i] == kept_if_seen(t0, i)
}

/// `t1` is `t0` with the environment agent of a log ending at `log_end`
/// appended, when the table has room for it; else `t0` itself.
pub open spec fn env_added(t0: Seq<Option<AgentItem>>, t1: Seq<Option<AgentItem>>, log_end: i64) -> bool {
    if t0.len() + 2 < NO_AGENT {
        &&& t1.len() == t0.len() + 1
        &&& t1.subrange(0, t0.len() as int) == t0
        &&& live(t1, t0.len() as int)
        &&& environment_agent(agent_at(t1, t0.len() as int), log_end)
    } else {
        t1 == t0
    }
}

/// `t1` is `t0` with masters set: only master fields differ.
pub open spec fn masters_only(t0: Seq<Option<AgentItem>>, t1: Seq<Option<AgentItem>>) -> bool {
    &&& t1.len() == t0.len()
    &&& forall|i: int| #![trigger t1[i]] 0 <= i < t0.len() ==> (live(t1, i) <==> live(t0, i)) && (live(t0, i) ==> agent_at(t1, i)
        == (AgentItem { master: agent_at(t1, i).master, ..agent_at(t0, i) }))
}

/// The tables of the linking, step by step: built from the records,
/// unknown agents appended, agents seen at rows, the never seen removed,
/// the environment added, masters set, agents that are one merged.
pub open spec fn link_chain<C: SpecCatalog>(
    catalog: C,
    log: EvtcRawLog,
    t0: Seq<Option<AgentItem>>,
    t1: Seq<Option<AgentItem>>,
    t3: Seq<Option<AgentItem>>,
    t4: Seq<Option<AgentItem>>,
    t5: Seq<Option<AgentItem>>,
    t6: Seq<Option<AgentItem>>,
    t7: Seq<Option<AgentItem>>,
) -> bool {
    &&& built_from_records(catalog, log.agents@, t0)
    &&& unknown_appended(t0, t1)
    &&& seen_by_rows(t1, t3)
    &&& unseen_removed(t3, t4)
    &&& env_added(t4, t5, log.log_end_time)
    &&& masters_only(t5, t6)
    &&& merged_table(t6, t7)
    &&& (t7.len() + 1 < NO_AGENT ==> accounts_distinct(t7))
}

/// `t7` is the table of `log` after linking and merging.
pub open spec fn linked_table<C: SpecCatalog>(catalog: C, log: EvtcRawLog, t7: Seq<Option<AgentItem>>) -> bool {
    exists|t0: Seq<Option<AgentItem>>, t1: Seq<Option<AgentItem>>, t3: Seq<Option<AgentItem>>, t4: Seq<Option<AgentItem>>, t5: Seq<Option<AgentItem>>, t6: Seq<Option<AgentItem>>|
        #[trigger] link_chain(catalog, log, t0, t1, t3, t4, t5, t6, t7)
}

/// `t` is `t7` with its squad players split at their enter-combat rows.
pub open spec fn split_from(t7: Seq<Option<AgentItem>>, t: Seq<Option<AgentItem>>, items: Seq<EvtcCombatItem>) -> bool {
    exists|players: Seq<AgentId>, ts: Seq<Seq<Option<AgentItem>>>| #[trigger] split_run(t7, t, items, players, ts)
}

/// Builds the agents of `log` (specializations decoded by `catalog`) and
/// links them to its rows: agents that rows name but records lack are
/// added; each row's agents take its time and instance id (after agent
/// redirections), the rows that name no agent on either side are dropped,
/// agents never seen are removed, the environment agent is added, masters
/// are linked, agents that are one are merged (`judge` telling positions
/// apart), and squad players are split by specialization and subgroup.
/// Fails when no squad player is left to split.
#[verifier::spinoff_prover]
#[verifier::rlimit(80)]
pub fn complete_agents_with<C: SpecCatalog, J: PositionJudge>(
    log: &mut EvtcRawLog,
    catalog: &C,
    judge: &J,
) -> (r: Result<(AgentTable, LinkStats), ModelError>)
    ensures
        *final(log) == (EvtcRawLog { combat_events: final(log).combat_events, ..*old(log) }),
        match r {
            Ok((t, st)) => {
                &&& has_player_root(t@)
                &&& t@.len() < NO_AGENT
                &&& final(log).combat_events@.len() + st.invalid_both_removed_items == old(log).combat_events@.len()
                &&& t@.len() + 1 < NO_AGENT ==> accounts_distinct(t@)
            },
            Err(e) => e == ModelError::NoPlayersFound,
        },
        no_player_records(*catalog, old(log).agents@) ==> r == Err::<(AgentTable, LinkStats), ModelError>(
            ModelError::NoPlayersFound,
        ),
        exists|t7: Seq<Option<AgentItem>>| #[trigger] linked_table(*catalog, *old(log), t7) && match r {
            Err(_) => !has_player_root(t7),
            Ok((t, st)) => has_player_root(t7) && split_from(t7, t@, final(log).combat_events@),
        },
{
    let ghost np = no_player_records(*catalog, log.agents@);
    let ghost log_in = *log;
    let mut stats = LinkStats {
        missing_agents_added: 0,
        orphan_src_fixed: 0,
        orphan_dst_fixed: 0,
        invalid_both_removed_items: 0,
        agents_removed: 0,
        master_link_attempts: 0,
        regroup_npc_groups: 0,
        regroup_non_squad_groups: 0,
        regroup_player_groups: 0,
        split_pieces_created: 0,
    };
    let mut table = AgentTable::new();
    let mut i: usize = 0;
    while i < log.agents.len()
        invariant
            i <= log.agents@.len(),
            table@.len() == i,
            table@.len() < NO_AGENT - 1,
            np == no_player_records(*catalog, log.agents@),
            np ==> no_player_agent(table@),
            *log == log_in,
            forall|q: int| 0 <= q < table@.len() ==> live(table@, q) && made_from_raw(
                #[trigger] agent_at(table@, q),
                log.agents@[q],
                catalog.decoded(log.agents@[q].prof, log.agents@[q].is_elite),
            ),
        ensures
            i == log.agents@.len() || table@.len() == NO_AGENT - 2,
            table@.len() == i,
        decreases log.agents@.len() - i,
    {
        if table.slot_count() >= (NO_AGENT as usize) - 2 {
            break;
        }
        let ghost t0 = table@;
        agent_from_raw_with(&log.agents[i], &mut table, catalog);
        proof {
            assert forall|q: int| 0 <= q < table@.len() implies live(table@, q) && made_from_raw(
                #[trigger] agent_at(table@, q),
                log.agents@[q],
                catalog.decoded(log.agents@[q].prof, log.agents@[q].is_elite),
            ) by {
                if q < t0.len() {
                    assert(table@.subrange(0, t0.len() as int)[q] == table@[q]);
                    assert(agent_at(table@, q) == agent_at(t0, q));
                }
            }
        }
        proof {
            if np {
                let raw = log.agents@[i as int];
                assert(catalog.decoded(raw.prof, raw.is_elite) == Spec::Npc || catalog.decoded(raw.prof, raw.is_elite) == Spec::Gadget);
                lemma_push_no_player(t0, table@);
            }
        }
        i = i + 1;
    }
    let ghost tb0 = table@;
    assert(built_from_records(*catalog, log_in.agents@, tb0));
    assert(table@.subrange(0, tb0.len() as int) =~= tb0);
    let mut addresses = table_addresses(&table);
    // 1. agents that rows name but records lack
    let missing = missing_addresses(&log.combat_events, &addresses);
    let mut k: usize = 0;
    while k < missing.len()
        invariant
            k <= missing@.len(),
            table@.len() < NO_AGENT,
            np ==> no_player_agent(table@),
            unknown_appended(tb0, table@),
            addresses@.len() <= table@.len(),
        decreases missing@.len() - k,
    {
        if table.slot_count() >= (NO_AGENT as usize) - 2 || addresses.len() >= 0xFFFF_FFFF {
            break;
        }
        let ghost t0 = table@;
        add_unknown_agent(&mut table, missing[k]);
        proof {
            assert(table@.subrange(0, tb0.len() as int) =~= tb0) by {
                assert forall|q: int| 0 <= q < tb0.len() implies table@[q] == tb0[q] by {
                    assert(table@.subrange(0, t0.len() as int)[q] == table@[q]);
                    assert(t0.subrange(0, tb0.len() as int)[q] == t0[q]);
                }
            }
            assert forall|q: int| tb0.len() <= q < table@.len() implies live(table@, q) && unknown_agent(#[trigger] agent_at(table@, q), agent_at(table@, q).address) by {
                if q < t0.len() {
                    assert(table@.subrange(0, t0.len() as int)[q] == table@[q]);
                    assert(agent_at(table@, q) == agent_at(t0, q));
                }
            }
        }
        proof {
            if np {
                lemma_push_no_player(t0, table@);
            }
        }
        addresses.push(missing[k]);
        k = k + 1;
    }
    stats.missing_agents_added = k as u64;
    let ghost tb1 = table@;
    // 2. each row's agents take its time and instance id
    let n = log.combat_events.len();
    let mut invalid_src: Vec<bool> = Vec::new();
    let mut invalid_dst: Vec<bool> = Vec::new();
    let mut orphan_src: Vec<usize> = Vec::new();
    let mut orphan_dst: Vec<usize> = Vec::new();
    let by_addr = agents_by_address(&table);
    let ghost ev0 = log.combat_events@;
    let ghost log0 = *log;
    let mut idx: usize = 0;
    while idx < n
        invariant
            n == log.combat_events@.len(),
            n == ev0.len(),
            idx <= n,
            invalid_src@.len() == idx,
            invalid_dst@.len() == idx,
            forall|q: int| 0 <= q < orphan_src@.len() ==> #[trigger] orphan_src@[q] < n,
            forall|q: int| 0 <= q < orphan_dst@.len() ==> #[trigger] orphan_dst@[q] < n,
            table@.len() < NO_AGENT,
            *log == (EvtcRawLog { combat_events: log.combat_events, ..log0 }),
            np ==> no_player_agent(table@),
            seen_by_rows(tb1, table@),
        decreases n - idx,
    {
        let mut item = log.combat_events[idx];
        let mut bad_src = false;
        let mut bad_dst = false;
        if item.src_is_agent() {
            match log.agent_redirection.get(&item.src_agent) {
                Some(new_addr) => {
                    item.src_agent = *new_addr;
                },
                None => {},
            }
            let (updated, known) = match by_addr.get(&item.src_agent) {
                Some(agents) => {
                    let ghost t0 = table@;
                    let u = see_agent(&mut table, agents, item.time, item.src_instid);
                    proof {
                        if u {
                            let k = choose|k: int| 0 <= k < agents@.len() && {
                                let c = #[trigger] agents@[k];
                                &&& accepts_row(t0, c, item.src_instid, agents@.len() > 1)
                                &&& forall|j: int| 0 <= j < k ==> !accepts_row(t0, agents@[j], item.src_instid, agents@.len() > 1)
                                &&& table@ == t0.update(c as int, Some(touched_agent(agent_at(t0, c as int), item.time, item.src_instid)))
                            };
                            if np {
                                lemma_touch_no_player(t0, table@, agents@[k], item.time, item.src_instid);
                            }
                            lemma_touch_seen(tb1, t0, table@, agents@[k], item.time, item.src_instid);
                        } else {
                            lemma_touch_seen(tb1, t0, table@, 0, item.time, item.src_instid);
                        }
                    }
                    (u, true)
                },
                None => (false, false),
            };
            if !updated && item.src_instid != 0 {
                bad_src = true;
            } else if !known && item.src_instid > 0 {
                orphan_src.push(idx);
            }
        }
        if item.dst_is_agent() {
            match log.agent_redirection.get(&item.dst_agent) {
                Some(new_addr) => {
                    item.dst_agent = *new_addr;
                },
                None => {},
            }
            let (updated, known) = match by_addr.get(&item.dst_agent) {
                Some(agents) => {
                    let ghost t0 = table@;
                    let u = see_agent(&mut table, agents, item.time, item.dst_instid);
                    proof {
                        if u {
                            let k = choose|k: int| 0 <= k < agents@.len() && {
                                let c = #[trigger] agents@[k];
                                &&& accepts_row(t0, c, item.dst_instid, agents@.len() > 1)
                                &&& forall|j: int| 0 <= j < k ==> !accepts_row(t0, agents@[j], item.dst_instid, agents@.len() > 1)
                                &&& table@ == t0.update(c as int, Some(touched_agent(agent_at(t0, c as int), item.time, item.dst_instid)))
                            };
                            if np {
                                lemma_touch_no_player(t0, table@, agents@[k], item.time, item.dst_instid);
                            }
                            lemma_touch_seen(tb1, t0, table@, agents@[k], item.time, item.dst_instid);
                        } else {
                            lemma_touch_seen(tb1, t0, table@, 0, item.time, item.dst_instid);
                        }
                    }
                    (u, true)
                },
                None => (false, false),
            };
            if !updated && item.dst_instid != 0 {
                bad_dst = true;
            } else if !known && item.dst_instid > 0 {
                orphan_dst.push(idx);
            }
        }
        log.combat_events.set(idx, item);
        invalid_src.push(bad_src);
        invalid_dst.push(bad_dst);
        idx = idx + 1;
    }
    // 3. rows naming an unknown address get the agent of their instance id
    if orphan_src.len() > 0 || orphan_dst.len() > 0 {
        let by_instid = agents_by_instid(&table);
        let mut fixed: u64 = 0;
        let mut q: usize = 0;
        while q < orphan_src.len()
            invariant
                n == log.combat_events@.len(),
                forall|j: int| 0 <= j < orphan_src@.len() ==> #[trigger] orphan_src@[j] < n,
                table@.len() < NO_AGENT,
                fixed <= q,
                *log == (EvtcRawLog { combat_events: log.combat_events, ..log0 }),
                np ==> no_player_agent(table@),
                seen_by_rows(tb1, table@),
            decreases orphan_src@.len() - q,
        {
            let at = orphan_src[q];
            let mut item = log.combat_events[at];
            match by_instid.get(&item.src_instid) {
                Some(list) => match orphan_candidate(&table, list, item.time) {
                    Some(aid) => {
                        match table.slot(aid) {
                            Some(a) => {
                                item.src_agent = a.address;
                            },
                            None => {},
                        }
                        log.combat_events.set(at, item);
                        let ghost t0 = table@;
                        update_agent_data(&mut table, aid, item.time, 0, false);
                        proof {
                            if np {
                                lemma_touch_no_player(t0, table@, aid, item.time, 0);
                            }
                            lemma_touch_seen(tb1, t0, table@, aid, item.time, 0);
                        }
                        fixed = fixed + 1;
                    },
                    None => {},
                },
                None => {},
            }
            q = q + 1;
        }
        stats.orphan_src_fixed = fixed;
        let mut fixed: u64 = 0;
        let mut q: usize = 0;
        while q < orphan_dst.len()
            invariant
                n == log.combat_events@.len(),
                forall|j: int| 0 <= j < orphan_dst@.len() ==> #[trigger] orphan_dst@[j] < n,
                table@.len() < NO_AGENT,
                fixed <= q,
                *log == (EvtcRawLog { combat_events: log.combat_events, ..log0 }),
                np ==> no_player_agent(table@),
                seen_by_rows(tb1, table@),
            decreases orphan_dst@.len() - q,
        {
            let at = orphan_dst[q];
            let mut item = log.combat_events[at];
            match by_instid.get(&item.dst_instid) {
                Some(list) => match orphan_candidate(&table, list, item.time) {
                    Some(aid) => {
                        match table.slot(aid) {
                            Some(a) => {
                                item.dst_agent = a.address;
                            },
                            None => {},
                        }
                        log.combat_events.set(at, item);
                        let ghost t0 = table@;
                        update_agent_data(&mut table, aid, item.time, 0, false);
                        proof {
                            if np {
                                lemma_touch_no_player(t0, table@, aid, item.time, 0);
                            }
                            lemma_touch_seen(tb1, t0, table@, aid, item.time, 0);
                        }
                        fixed = fixed + 1;
                    },
                    None => {},
                },
                None => {},
            }
            q = q + 1;
        }
        stats.orphan_dst_fixed = fixed;
    }
    // 4. rows that name no agent on either side
    let mut kept: Vec<EvtcCombatItem> = Vec::new();
    let mut removed: u64 = 0;
    let mut idx: usize = 0;
    while idx < n
        invariant
            n == log.combat_events@.len(),
            invalid_src@.len() == n,
            invalid_dst@.len() == n,
            idx <= n,
            kept@.len() + removed == idx,
        decreases n - idx,
    {
        if invalid_src[idx] && invalid_dst[idx] {
            removed = removed + 1;
        } else {
            kept.push(log.combat_events[idx]);
        }
        idx = idx + 1;
    }
    stats.invalid_both_removed_items = removed;
    log.combat_events = kept;
    // 5. agents never seen
    let ghost tb3 = table@;
    let ids = table.all_ids();
    let mut gone: u64 = 0;
    let mut k: usize = 0;
    while k < ids.len()
        invariant
            k <= ids@.len(),
            table@.len() < NO_AGENT,
            gone <= k,
            np ==> no_player_agent(table@),
            table@.len() == tb3.len(),
            forall|i: int| 0 <= i < tb3.len() ==> #[trigger] table@[i] == if done_upto(ids@, k as int, i) {
                kept_if_seen(tb3, i)
            } else {
                tb3[i]
            },
        decreases ids@.len() - k,
    {
        let ghost tk = table@;
        let bad = match table.slot(ids[k]) {
            Some(a) => !(a.last_aware != i64::MAX && a.last_aware.wrapping_sub(a.first_aware) >= 0),
            None => false,
        };
        if bad {
            let ghost t0 = table@;
            table.remove_agent(ids[k]);
            proof {
                if np {
                    assert forall|i: int| live(table@, i) implies (#[trigger] agent_at(table@, i)).agent_type != AgentType::Player by {
                        if i != ids@[k as int] as int {
                            assert(table@[i] == t0[i]);
                        }
                        assert(live(t0, i));
                        assert(agent_at(table@, i) == agent_at(t0, i));
                    }
                }
            }
            gone = gone + 1;
        }
        proof {
            let x = ids@[k as int] as int;
            assert forall|i: int| 0 <= i < tb3.len() implies #[trigger] table@[i] == if done_upto(ids@, k + 1, i) {
                kept_if_seen(tb3, i)
            } else {
                tb3[i]
            } by {
                if i == x {
                    assert(ids@[k as int] as int == i);
                    assert(done_upto(ids@, k + 1, i));
                } else {
                    assert(table@[i] == tk[i]);
                    if done_upto(ids@, k + 1, i) {
                        let q = choose|q: int| 0 <= q < k + 1 && #[trigger] ids@[q] as int == i;
                        assert(q < k);
                        assert(done_upto(ids@, k as int, i));
                    }
                }
            }
        }
        k = k + 1;
    }
    proof {
        assert forall|i: int| 0 <= i < tb3.len() implies #[trigger] table@[i] == kept_if_seen(tb3, i) by {
            if live(tb3, i) {
                crate::model::agent::lemma_live_ids_contains(tb3, i as AgentId);
                let q = choose|q: int| 0 <= q < ids@.len() && ids@[q] == i as AgentId;
                assert(ids@[q] as int == i);
                assert(done_upto(ids@, k as int, i));
            }
        }
        assert(unseen_removed(tb3, table@));
    }
    let ghost tb4 = table@;
    stats.agents_removed = gone;
    // 6. the environment
    assert(addresses@.len() <= table@.len());
    if table.slot_count() < (NO_AGENT as usize) - 2 && addresses.len() < 0xFFFF_FFFF {
        let ghost t0 = table@;
        add_environment_agent(&mut table, &mut addresses, log.log_end_time);
        proof {
            if np {
                lemma_push_no_player(t0, table@);
            }
        }
    }
    let ghost tb5 = table@;
    assert(env_added(tb4, tb5, log_in.log_end_time));
    assert(masters_only(tb5, table@));
    // 8. masters
    let rows = log.combat_events.clone();
    let mut attempts: u64 = 0;
    let mut idx: usize = 0;
    while idx < rows.len()
        invariant
            idx <= rows@.len(),
            table@.len() < NO_AGENT,
            np ==> no_player_agent(table@),
            masters_only(tb5, table@),
        decreases rows@.len() - idx,
    {
        let item = rows[idx];
        if item.src_is_agent() && item.src_master_instid != 0 {
            let ghost t0 = table@;
            find_agent_master(&mut table, item.time, item.src_master_instid, item.src_agent);
            proof {
                if np {
                    lemma_master_linked_no_player(t0, item.time, item.src_master_instid, item.src_agent, table@);
                }
                lemma_master_linked_masters(tb5, t0, item.time, item.src_master_instid, item.src_agent, table@);
            }
            attempts = attempts.saturating_add(1);
        }
        if item.dst_is_agent() && item.dst_master_instid != 0 {
            let ghost t0 = table@;
            find_agent_master(&mut table, item.time, item.dst_master_instid, item.dst_agent);
            proof {
                if np {
                    lemma_master_linked_no_player(t0, item.time, item.dst_master_instid, item.dst_agent, table@);
                }
                lemma_master_linked_masters(tb5, t0, item.time, item.dst_master_instid, item.dst_agent, table@);
            }
            attempts = attempts.saturating_add(1);
        }
        idx = idx + 1;
    }
    stats.master_link_attempts = attempts;
    // 9. agents that are one
    let ghost t8 = table@;
    let (npc, non_squad, players) = regroup_same_agents_and_determine_teams(&mut table, &mut log.combat_events, judge);
    proof {
        if np {
            lemma_merged_no_player(t8, table@);
        }
    }
    let ghost t7 = table@;
    proof {
        lemma_link_chain(*catalog, log_in, tb0, tb1, tb3, tb4, tb5, t8, t7);
    }
    stats.regroup_npc_groups = npc;
    stats.regroup_non_squad_groups = non_squad;
    stats.regroup_player_groups = players;
    let ghost ev_len = log.combat_events@.len();
    assert(ev_len + removed == n);
    let player_roots = table.agents_by_type(AgentType::Player);
    if player_roots.len() == 0 {
        proof {
            if has_player_root(t7) {
                let i = choose|i: int| live(t7, i) && #[trigger] root_of_type(AgentType::Player)(agent_at(t7, i));
                assert(player_roots@.contains(i as AgentId));
            }
        }
        return Err(ModelError::NoPlayersFound);
    }
    proof {
        if np {
            assert(player_roots@.contains(player_roots@[0]));
            assert(live(table@, player_roots@[0] as int));
        }
    }
    let ghost t9 = table@;
    let p0 = player_roots[0];
    assert(player_roots@.contains(p0));
    // 10. players split by specialization and subgroup
    split_players_by_enter_combat(&mut table, &log.combat_events, catalog, &mut stats);
    table.finalize();
    proof {
        let t = table@;
        if t.len() + 1 < NO_AGENT {
            assert(accounts_distinct(t9));
            assert forall|i: int, j: int|
                #![trigger agent_at(t, i), agent_at(t, j)]
                i != j && live(t, i) && live(t, j) && root_of_type(AgentType::Player)(agent_at(t, i))
                    && root_of_type(AgentType::Player)(agent_at(t, j)) implies account_chars(t, i as AgentId) != account_chars(t, j as AgentId) by {
                assert(live(t, i) && live(t, j));
                if i >= t9.len() {
                    assert(live(t9, agent_at(t, i).englobing as int));
                }
                if j >= t9.len() {
                    assert(live(t9, agent_at(t, j).englobing as int));
                }
                lemma_split_root(t9, t, i);
                lemma_split_root(t9, t, j);
                assert(account_chars(t, i as AgentId) == account_chars(t9, i as AgentId));
                assert(account_chars(t, j as AgentId) == account_chars(t9, j as AgentId));
                assert(agent_at(t9, i).agent_type == AgentType::Player);
            }
        }
    }
    proof {
        assert(live(t9, p0 as int) && root_of_type(AgentType::Player)(agent_at(t9, p0 as int)));
        assert(same_but_parts(t9, table@, p0 as int));
        assert(root_of_type(AgentType::Player)(agent_at(table@, p0 as int)));
        assert(has_player_root(t7));
        assert(split_from(t7, table@, log.combat_events@));
    }
    Ok((table, stats))
}

/// [`complete_agents_with`] with the specializations decoded locally.
pub fn complete_agents<J: PositionJudge>(log: &mut EvtcRawLog, judge: &J) -> (r: Result<(AgentTable, LinkStats), ModelError>)
    ensures
        *final(log) == (EvtcRawLog { combat_events: final(log).combat_events, ..*old(log) }),
        match r {
            Ok((t, st)) => {
                &&& has_player_root(t@)
                &&& t@.len() < NO_AGENT
                &&& final(log).combat_events@.len() + st.invalid_both_removed_items == old(log).combat_events@.len()
                &&& t@.len() + 1 < NO_AGENT ==> accounts_distinct(t@)
            },
            Err(e) => e == ModelError::NoPlayersFound,
        },
        no_player_records(NoSpecCatalog, old(log).agents@) ==> r == Err::<(AgentTable, LinkStats), ModelError>(
            ModelError::NoPlayersFound,
        ),
        exists|t7: Seq<Option<AgentItem>>| #[trigger] linked_table(NoSpecCatalog, *old(log), t7) && match r {
            Err(_) => !has_player_root(t7),
            Ok((t, st)) => has_player_root(t7) && split_from(t7, t@, final(log).combat_events@),
        },
{
    complete_agents_with(log, &NoSpecCatalog, judge)
}

// ===== laws =====

/// A change of the slot of agent `m` does not change whether a master
/// chain reaches `m`: the chain stops there.
proof fn lemma_hits_unchanged(s: Seq<Option<AgentItem>>, m: AgentId, v: AgentItem, x: AgentId, n: nat)
    requires
        live(s, m as int),
    ensures
        chain_hits(s.update(m as int, Some(v)), x, m, n) == chain_hits(s, x, m, n),
    decreases n,
{
    let s2 = s.update(m as int, Some(v));
    if x != m && n > 0 && has_master(s, x) {
        assert(agent_at(s2, x as int) == agent_at(s, x as int));
        lemma_hits_unchanged(s, m, v, agent_at(s, x as int).master, (n - 1) as nat);
    }
}

/// An agent never becomes its own master: when setting a master changes
/// the table, the chain of the minion's new master does not lead back to
/// the minion.
pub proof fn law_no_master_cycle(s: Seq<Option<AgentItem>>, minion: AgentId, master: AgentId)
    requires
        master_set(s, minion, master) != s,
    ensures
        ({
            let s2 = master_set(s, minion, master);
            !chain_hits(s2, agent_at(s2, minion as int).master, minion, s.len())
        }),
{
    let root = crate::model::agent::root_of(s, master);
    let v = AgentItem { master: root, ..agent_at(s, minion as int) };
    lemma_hits_unchanged(s, minion, v, root, s.len());
}

/// The agent merged from a group is aware whenever one of the group was:
/// its span holds every member's.
pub proof fn law_merged_span_covers(s: Seq<Option<AgentItem>>, g: Seq<AgentId>, k: int)
    requires
        0 <= k < g.len(),
    ensures
        group_first_aware(s, g) <= agent_at(s, g[k] as int).first_aware,
        group_last_aware(s, g) >= agent_at(s, g[k] as int).last_aware,
    decreases g.len(),
{
    if g.len() > 1 && k < g.len() - 1 {
        law_merged_span_covers(s, g.drop_last(), k);
    }
}

proof fn lemma_wrap_back(x: i64)
    ensures
        x.wrapping_sub(1).wrapping_add(1) == x,
{
    if x == i64::MIN {
        assert(x.wrapping_sub(1) == i64::MAX);
    } else {
        assert(x.wrapping_sub(1) == x - 1);
    }
}

/// The pieces of a split follow one another: each starts one after the
/// previous one ends, the first starts when the player does and the last
/// ends when the player does.
pub proof fn law_split_pieces_tile(
    o: Seq<Option<AgentItem>>,
    s: Seq<Option<AgentItem>>,
    root: AgentId,
    pts: Seq<(i64, i64, Spec)>,
    st: Seq<i64>,
    k: int,
    j: int,
)
    requires
        split_done(o, s, root, pts, st, k),
        0 <= j < k,
    ensures
        agent_at(s, o.len() as int).first_aware == agent_at(o, root as int).first_aware,
        agent_at(s, o.len() as int).last_aware.wrapping_add(1) == agent_at(s, o.len() as int + 1).first_aware,
        j + 1 < k ==> agent_at(s, o.len() as int + 1 + j).last_aware.wrapping_add(1) == agent_at(s, o.len() as int + 2 + j).first_aware,
        agent_at(s, o.len() as int + k).last_aware == agent_at(o, root as int).last_aware,
{
    assert(piece_ok(o, s, root, pts, st, k, 0));
    assert(piece_ok(o, s, root, pts, st, k, j));
    assert(piece_ok(o, s, root, pts, st, k, k - 1));
    if j + 1 < k {
        assert(piece_ok(o, s, root, pts, st, k, j + 1));
        assert(o.len() as int + 1 + (j + 1) == o.len() as int + 2 + j);
    }
    lemma_wrap_back(st[0]);
    if j + 1 < k {
        lemma_wrap_back(st[j + 1]);
    }
}

/// Every master chain of `s` ends: no chain runs round a cycle.
pub open spec fn chains_end(s: Seq<Option<AgentItem>>) -> bool {
    forall|x: AgentId| #[trigger] chain_finite(s, x)
}

/// The master chain from `x` ends.
pub open spec fn chain_finite(s: Seq<Option<AgentItem>>, x: AgentId) -> bool {
    exists|n: nat| #[trigger] chain_ends(s, x, n)
}

proof fn lemma_ends_more(s: Seq<Option<AgentItem>>, x: AgentId, a: nat, b: nat)
    requires
        chain_ends(s, x, a),
        a <= b,
    ensures
        chain_ends(s, x, b),
    decreases a,
{
    if has_master(s, x) && a > 0 {
        lemma_ends_more(s, agent_at(s, x as int).master, (a - 1) as nat, (b - 1) as nat);
    }
}

/// A chain that does not reach `m` is the same once `m`'s slot changes.
proof fn lemma_ends_avoiding(s: Seq<Option<AgentItem>>, m: AgentId, v: AgentItem, x: AgentId, n: nat)
    requires
        live(s, m as int),
        chain_ends(s, x, n),
        !chain_hits(s, x, m, n),
    ensures
        chain_ends(s.update(m as int, Some(v)), x, n),
    decreases n,
{
    let s2 = s.update(m as int, Some(v));
    if has_master(s, x) {
        assert(agent_at(s2, x as int) == agent_at(s, x as int));
        lemma_ends_avoiding(s, m, v, agent_at(s, x as int).master, (n - 1) as nat);
    } else {
        assert(!has_master(s2, x));
    }
}

/// Once `m` takes a master whose chain ends within `extra`, a chain that
/// ended within `n` ends within `n + 1 + extra`.
proof fn lemma_ends_through(s: Seq<Option<AgentItem>>, m: AgentId, v: AgentItem, x: AgentId, n: nat, extra: nat)
    requires
        live(s, m as int),
        chain_ends(s, x, n),
        chain_ends(s.update(m as int, Some(v)), v.master, extra),
    ensures
        chain_ends(s.update(m as int, Some(v)), x, n + 1 + extra),
    decreases n,
{
    let s2 = s.update(m as int, Some(v));
    if x == m {
        if has_master(s2, m) {
            lemma_ends_more(s2, v.master, extra, n + extra);
        }
    } else if has_master(s, x) {
        assert(agent_at(s2, x as int) == agent_at(s, x as int));
        lemma_ends_through(s, m, v, agent_at(s, x as int).master, (n - 1) as nat, extra);
    } else {
        assert(!has_master(s2, x));
    }
}

/// Master chains stay acyclic: when every master chain of `s` ends (none
/// runs round a cycle), every chain still ends after `set_master`, whose
/// result is `master_set`.
pub proof fn law_chains_stay_finite(s: Seq<Option<AgentItem>>, minion: AgentId, master: AgentId)
    requires
        chains_end(s),
    ensures
        chains_end(master_set(s, minion, master)),
{
    let s2 = master_set(s, minion, master);
    if s2 != s {
        let root = crate::model::agent::root_of(s, master);
        let v = AgentItem { master: root, ..agent_at(s, minion as int) };
        lemma_ends_avoiding(s, minion, v, root, s.len());
        assert forall|x: AgentId| #[trigger] chain_finite(s2, x) by {
            assert(chain_finite(s, x));
            let n = choose|n: nat| chain_ends(s, x, n);
            lemma_ends_through(s, minion, v, x, n, s.len());
            assert(chain_ends(s2, x, n + 1 + s.len()));
        }
    }
}

} // verus!
