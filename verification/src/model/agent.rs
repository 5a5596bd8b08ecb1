//! Agents and the agent table: slot ids that stay valid when agents are
//! removed, and the queries that resolve events to agents.

use vstd::prelude::*;
use crate::model::spec::Spec;

verus! {

/// Species ids with a special meaning.
pub const NON_IDENTIFIED: i32 = 0;
pub const WORLD_VERSUS_WORLD: i32 = 1;
pub const INSTANCE: i32 = 2;
pub const ENVIRONMENT: i32 = -36;
pub const DUMMY_TARGET: i32 = -1;

/// Stable slot id of an agent.
pub type AgentId = u32;

/// No agent, or the unknown agent.
pub const NO_AGENT: AgentId = 0xFFFF_FFFF;

#[derive(Debug, Clone, Copy, PartialEq, Eq, PartialOrd, Ord, Hash, Structural)]
pub enum AgentType {
    StableSpecies,
    VolatileSpecies,
    Player,
    NonSquadPlayer,
}

pub open spec fn is_player_type(t: AgentType) -> bool {
    t == AgentType::Player || t == AgentType::NonSquadPlayer
}

impl AgentType {
    /// Squad and non-squad players.
    pub fn is_player(self) -> (r: bool)
        ensures
            r == is_player_type(self),
    {
        matches!(self, AgentType::Player | AgentType::NonSquadPlayer)
    }

    pub fn is_npc(self) -> (r: bool)
        ensures
            r == !is_player_type(self),
    {
        !self.is_player()
    }
}

/// What is kept of an agent merged into another one.
#[derive(Debug, Clone)]
pub struct AgentMergedFrom {
    pub first_aware: i64,
    pub last_aware: i64,
    pub name: String,
    pub character: String,
    pub spec: Spec,
    pub base_spec: Spec,
    pub agent_type: AgentType,
    pub toughness: u16,
    pub healing: u16,
    pub condition: u16,
    pub concentration: u16,
    pub is_fake: bool,
}

/// An agent of the log.
#[derive(Debug, Clone)]
pub struct AgentItem {
    pub address: u64,
    /// The full 68-byte name, NUL-separated fields included.
    pub name: String,
    pub agent_type: AgentType,
    pub spec: Spec,
    pub base_spec: Spec,
    /// Species id (0 for players).
    pub id: i32,
    pub instid: u16,
    pub toughness: u16,
    pub healing: u16,
    pub condition: u16,
    pub concentration: u16,
    pub hitbox_width: u32,
    pub hitbox_height: u32,
    /// First and last time the agent is seen; `i64::MAX` when never.
    pub first_aware: i64,
    pub last_aware: i64,
    /// Master of a minion (`NO_AGENT` for none).
    pub master: AgentId,
    /// The agent this one is a part of (`NO_AGENT` when it is a root).
    pub englobing: AgentId,
    /// Parts of this agent.
    pub englobed: Vec<AgentId>,
    /// Agents merged into this one.
    pub regrouped: Vec<AgentMergedFrom>,
    pub is_fake: bool,
    pub is_not_in_squad_friendly_player: bool,
    pub is_unknown: bool,
    /// Character name (first name field).
    pub character: String,
    /// Account of a player (second name field without its leading `:`).
    pub account: Option<String>,
    /// Subgroup of a player (third name field), when it parses.
    pub group: Option<i32>,
    /// The name carries an unnamed-entity marker.
    pub unamed: bool,
}

/// Integer division by 2 rounding toward zero.
pub open spec fn half_toward_zero(x: i64) -> i64 {
    if x >= 0 {
        (x / 2) as i64
    } else {
        (0 - ((0 - x) / 2)) as i64
    }
}

pub open spec fn in_aware(a: AgentItem, time: i64) -> bool {
    a.first_aware <= time && time <= a.last_aware
}

/// Species ids that identify no particular species.
pub open spec fn non_identified_id(id: i32) -> bool {
    id == NON_IDENTIFIED || id == WORLD_VERSUS_WORLD || id == ENVIRONMENT || id == INSTANCE
        || id == DUMMY_TARGET
}

impl AgentItem {
    /// Middle of the aware span (its sum wraps on overflow).
    pub fn half_aware(&self) -> (r: i64)
        ensures
            r == half_toward_zero(self.first_aware.wrapping_add(self.last_aware)),
    {
        self.first_aware.wrapping_add(self.last_aware) / 2
    }

    pub fn in_aware_times(&self, time: i64) -> (r: bool)
        ensures
            r == in_aware(*self, time),
    {
        self.first_aware <= time && time <= self.last_aware
    }

    /// The aware span meets `[start, end]`.
    pub fn aware_intersects(&self, start: i64, end: i64) -> (r: bool)
        ensures
            r == (self.first_aware <= end && self.last_aware >= start),
    {
        self.first_aware <= end && self.last_aware >= start
    }

    /// Same instance id, species, type, unnamed marker, name and master.
    pub fn could_be_equal(&self, other: &AgentItem) -> (r: bool)
        ensures
            r == (self.instid == other.instid && self.id == other.id && self.agent_type
                == other.agent_type && self.unamed == other.unamed && self.name@ == other.name@
                && self.master == other.master),
    {
        self.instid == other.instid && self.id == other.id && self.agent_type == other.agent_type
            && self.unamed == other.unamed && self.name == other.name && self.master == other.master
    }

    /// A non-player that is unknown or of a species id with no particular species.
    pub fn is_non_identified_species(&self) -> (r: bool)
        ensures
            r == (!is_player_type(self.agent_type) && (self.is_unknown || non_identified_id(self.id))),
    {
        if self.agent_type.is_player() {
            return false;
        }
        self.is_unknown || self.id == NON_IDENTIFIED || self.id == WORLD_VERSUS_WORLD || self.id
            == ENVIRONMENT || self.id == INSTANCE || self.id == DUMMY_TARGET
    }
}

// ===== the agent table =====

/// Slot `id` holds an agent.
pub open spec fn live(s: Seq<Option<AgentItem>>, id: int) -> bool {
    0 <= id < s.len() && s[id] is Some
}

/// The agent in slot `id`.
pub open spec fn agent_at(s: Seq<Option<AgentItem>>, id: int) -> AgentItem {
    s[id]->Some_0
}

/// Number of agents.
pub open spec fn live_count(s: Seq<Option<AgentItem>>) -> nat
    decreases s.len(),
{
    if s.len() == 0 {
        0
    } else {
        live_count(s.drop_last()) + if s.last() is Some {
            1nat
        } else {
            0nat
        }
    }
}

/// Ids of the agents, in slot order.
pub open spec fn live_ids(s: Seq<Option<AgentItem>>) -> Seq<AgentId>
    decreases s.len(),
{
    if s.len() == 0 {
        Seq::empty()
    } else if s.last() is Some {
        live_ids(s.drop_last()).push((s.len() - 1) as AgentId)
    } else {
        live_ids(s.drop_last())
    }
}

/// Agents in slots, each slot id being a stable agent id.
#[derive(Debug, Clone)]
pub struct AgentTable {
    slots: Vec<Option<AgentItem>>,
}

impl AgentTable {
    pub closed spec fn view(&self) -> Seq<Option<AgentItem>> {
        self.slots@
    }

    pub fn new() -> (r: Self)
        ensures
            r@ == Seq::<Option<AgentItem>>::empty(),
    {
        AgentTable { slots: Vec::new() }
    }

    /// Number of agents (removed slots excluded).
    /// Number of slots, live or not.
    pub fn slot_count(&self) -> (r: usize)
        ensures
            r == self@.len(),
    {
        self.slots.len()
    }

    pub fn len(&self) -> (r: usize)
        ensures
            r == live_count(self@),
    {
        let ghost s = self@;
        let mut n: usize = 0;
        let mut i: usize = 0;
        assert(s.take(0) =~= Seq::<Option<AgentItem>>::empty());
        while i < self.slots.len()
            invariant
                i <= s.len(),
                s == self@,
                n == live_count(s.take(i as int)),
                n <= i,
            decreases s.len() - i,
        {
            assert(s.take(i + 1).drop_last() =~= s.take(i as int));
            if self.slots[i].is_some() {
                n = n + 1;
            }
            i = i + 1;
        }
        assert(s.take(i as int) =~= s);
        n
    }

    pub fn is_empty(&self) -> (r: bool)
        ensures
            r == (live_count(self@) == 0),
    {
        self.len() == 0
    }

    /// The agent in slot `id`, if any.
    pub fn slot(&self, id: AgentId) -> (r: Option<&AgentItem>)
        ensures
            match r {
                Some(a) => live(self@, id as int) && *a == agent_at(self@, id as int),
                None => !live(self@, id as int),
            },
    {
        if (id as usize) < self.slots.len() {
            self.slots[id as usize].as_ref()
        } else {
            None
        }
    }

    /// Mutable access to the agent in slot `id`, if any.
    pub fn slot_mut(&mut self, id: AgentId) -> (r: Option<&mut AgentItem>)
        ensures
            match r {
                Some(a) => live(old(self)@, id as int) && *a == agent_at(old(self)@, id as int)
                    && final(self)@ == old(self)@.update(id as int, Some(*final(a))),
                None => !live(old(self)@, id as int) && final(self)@ == old(self)@,
            },
    {
        if (id as usize) < self.slots.len() {
            self.slots[id as usize].as_mut()
        } else {
            None
        }
    }

    /// Adds an agent (as a known one) and returns its id.
    pub fn push_agent(&mut self, agent: AgentItem) -> (r: AgentId)
        requires
            old(self)@.len() < NO_AGENT,
        ensures
            r == old(self)@.len(),
            final(self)@ == old(self)@.push(Some(AgentItem { is_unknown: false, ..agent })),
    {
        let id = self.slots.len() as AgentId;
        let mut agent = agent;
        agent.is_unknown = false;
        self.slots.push(Some(agent));
        id
    }

    /// Removes the agent of slot `id`; the slot stays, empty.
    pub fn remove_agent(&mut self, id: AgentId)
        ensures
            final(self)@ == without_agent(old(self)@, id),
    {
        if (id as usize) < self.slots.len() {
            self.slots.set(id as usize, None);
        }
    }

    /// Ids of the agents, in slot order.
    pub fn iter(&self) -> (r: Vec<AgentId>)
        ensures
            r@ == live_ids(self@),
    {
        let ghost s = self@;
        let mut out: Vec<AgentId> = Vec::new();
        let mut i: usize = 0;
        assert(s.take(0) =~= Seq::<Option<AgentItem>>::empty());
        while i < self.slots.len()
            invariant
                i <= s.len(),
                s == self@,
                out@ == live_ids(s.take(i as int)),
            decreases s.len() - i,
        {
            assert(s.take(i + 1).drop_last() =~= s.take(i as int));
            if self.slots[i].is_some() {
                out.push(i as AgentId);
            }
            i = i + 1;
        }
        assert(s.take(i as int) =~= s);
        out
    }

    /// Ids of the agents, in slot order.
    pub fn all_ids(&self) -> (r: Vec<AgentId>)
        ensures
            r@ == live_ids(self@),
    {
        self.iter()
    }
}

/// The slots after the agent of slot `id` is removed (the slot stays, empty).
pub open spec fn without_agent(s: Seq<Option<AgentItem>>, id: AgentId) -> Seq<Option<AgentItem>> {
    if (id as int) < s.len() {
        s.update(id as int, None)
    } else {
        s
    }
}

pub(crate) proof fn lemma_live_ids_contains(s: Seq<Option<AgentItem>>, x: AgentId)
    requires
        s.len() <= NO_AGENT,
    ensures
        live_ids(s).contains(x) <==> live(s, x as int),
    decreases s.len(),
{
    if s.len() > 0 {
        let t = s.drop_last();
        lemma_live_ids_contains(t, x);
        let n = (s.len() - 1) as AgentId;
        assert(n as int == s.len() - 1);
        if s.last() is Some {
            let l = live_ids(t).push(n);
            assert(l[l.len() - 1] == n);
            if live_ids(t).contains(x) {
                let k = choose|k: int| 0 <= k < live_ids(t).len() && live_ids(t)[k] == x;
                assert(l[k] == x);
            }
            if l.contains(x) && x != n {
                let k = choose|k: int| 0 <= k < l.len() && l[k] == x;
                assert(k < live_ids(t).len());
                assert(live_ids(t)[k] == x);
            }
        }
        if (x as int) < t.len() {
            assert(t[x as int] == s[x as int]);
        }
    }
}

proof fn lemma_live_count_cleared(s: Seq<Option<AgentItem>>, i: int)
    requires
        0 <= i < s.len(),
    ensures
        live_count(s.update(i, None)) + (if s[i] is Some { 1nat } else { 0nat }) == live_count(s),
    decreases s.len(),
{
    let u = s.update(i, None);
    if i < s.len() - 1 {
        assert(u.drop_last() =~= s.drop_last().update(i, None));
        lemma_live_count_cleared(s.drop_last(), i);
    } else {
        assert(u.drop_last() =~= s.drop_last());
    }
}

/// Removing an agent: its slot is empty afterwards, the number of agents
/// drops by one when the slot held one, no other slot changes, the ids
/// listed are those before less `id`, removing it again changes nothing,
/// and the slots keep their number, so the next agent pushed takes a new id.
pub proof fn law_remove_agent(s: Seq<Option<AgentItem>>, id: AgentId)
    requires
        s.len() <= NO_AGENT,
    ensures
        !live(without_agent(s, id), id as int),
        forall|x: int| 0 <= x < s.len() && x != id ==> #[trigger] without_agent(s, id)[x] == s[x],
        without_agent(s, id).len() == s.len(),
        live_count(without_agent(s, id)) + (if live(s, id as int) { 1nat } else { 0nat }) == live_count(s),
        !live_ids(without_agent(s, id)).contains(id),
        forall|x: AgentId| x != id ==> (#[trigger] live_ids(without_agent(s, id)).contains(x) <==> live_ids(s).contains(x)),
        without_agent(without_agent(s, id), id) == without_agent(s, id),
{
    let s2 = without_agent(s, id);
    if (id as int) < s.len() {
        lemma_live_count_cleared(s, id as int);
    }
    lemma_live_ids_contains(s2, id);
    assert forall|x: AgentId| x != id implies (#[trigger] live_ids(s2).contains(x) <==> live_ids(s).contains(x)) by {
        lemma_live_ids_contains(s2, x);
        lemma_live_ids_contains(s, x);
    }
    assert(without_agent(s2, id) =~= s2);
}

/// Order of agents by first aware time, then by id.
pub open spec fn key_lt(s: Seq<Option<AgentItem>>, a: AgentId, b: AgentId) -> bool {
    let fa = agent_at(s, a as int).first_aware;
    let fb = agent_at(s, b as int).first_aware;
    fa < fb || (fa == fb && a < b)
}

proof fn lemma_key_total(s: Seq<Option<AgentItem>>, a: AgentId, b: AgentId)
    requires
        a != b,
    ensures
        key_lt(s, a, b) || key_lt(s, b, a),
{
}

proof fn lemma_key_trans(s: Seq<Option<AgentItem>>, a: AgentId, b: AgentId, c: AgentId)
    requires
        key_lt(s, a, b),
        key_lt(s, b, c),
    ensures
        key_lt(s, a, c),
{
}

/// `ids` is increasing in [`key_lt`] order.
pub open spec fn key_sorted(s: Seq<Option<AgentItem>>, ids: Seq<AgentId>) -> bool {
    forall|i: int, j: int| 0 <= i < j < ids.len() ==> key_lt(s, ids[i], ids[j])
}

/// `r` is the agent with the smallest (first aware, id) among those that
/// satisfy `p`, or `NO_AGENT` when none does.
pub open spec fn first_by_key(s: Seq<Option<AgentItem>>, p: spec_fn(AgentItem) -> bool, r: AgentId) -> bool {
    if r == NO_AGENT {
        forall|x: int| live(s, x) ==> !p(agent_at(s, x))
    } else {
        &&& live(s, r as int)
        &&& p(agent_at(s, r as int))
        &&& forall|x: AgentId| live(s, x as int) && p(agent_at(s, x as int)) && x != r ==> key_lt(s, r, x)
    }
}

/// The root of the agent's englobing (the agent itself when it is a root).
pub open spec fn root_of(s: Seq<Option<AgentItem>>, id: AgentId) -> AgentId {
    if live(s, id as int) && agent_at(s, id as int).englobing != NO_AGENT {
        agent_at(s, id as int).englobing
    } else {
        id
    }
}

pub open spec fn has_master(s: Seq<Option<AgentItem>>, id: AgentId) -> bool {
    live(s, id as int) && agent_at(s, id as int).master != NO_AGENT
}

/// Follows masters from `id`, at most `n` steps.
pub open spec fn follow_master(s: Seq<Option<AgentItem>>, id: AgentId, n: nat) -> AgentId
    decreases n,
{
    if n == 0 || !has_master(s, id) {
        id
    } else {
        follow_master(s, agent_at(s, id as int).master, (n - 1) as nat)
    }
}

/// The master chain from `id` ends within `n` steps.
pub open spec fn chain_ends(s: Seq<Option<AgentItem>>, id: AgentId, n: nat) -> bool
    decreases n,
{
    if !has_master(s, id) {
        true
    } else if n == 0 {
        false
    } else {
        chain_ends(s, agent_at(s, id as int).master, (n - 1) as nat)
    }
}

/// The master chain from `id` meets `target` within `n` steps.
pub open spec fn chain_hits(s: Seq<Option<AgentItem>>, id: AgentId, target: AgentId, n: nat) -> bool
    decreases n,
{
    if id == target {
        true
    } else if n == 0 || !has_master(s, id) {
        false
    } else {
        chain_hits(s, agent_at(s, id as int).master, target, (n - 1) as nat)
    }
}

/// The table after setting the master of `minion` to the englobing root of
/// `master`: players, absent minions and settings that would close a cycle
/// (or find one) leave it unchanged.
pub open spec fn master_set(s: Seq<Option<AgentItem>>, minion: AgentId, master: AgentId) -> Seq<Option<AgentItem>> {
    let root = root_of(s, master);
    if !live(s, minion as int) || is_player_type(agent_at(s, minion as int).agent_type)
        || chain_hits(s, root, minion, s.len()) || !chain_ends(s, root, s.len()) {
        s
    } else {
        s.update(minion as int, Some(AgentItem { master: root, ..agent_at(s, minion as int) }))
    }
}

/// `s` with `child` marked a part of `parent`.
pub open spec fn with_englobing(s: Seq<Option<AgentItem>>, child: AgentId, parent: AgentId) -> Seq<Option<AgentItem>> {
    if live(s, child as int) {
        s.update(child as int, Some(AgentItem { englobing: parent, ..agent_at(s, child as int) }))
    } else {
        s
    }
}

/// `s2` is `s` with `child` made a part of `parent`: the child marked, and
/// the child recorded once among the parent's parts.
pub open spec fn englobing_set(s: Seq<Option<AgentItem>>, s2: Seq<Option<AgentItem>>, child: AgentId, parent: AgentId) -> bool {
    let s1 = with_englobing(s, child, parent);
    &&& s2.len() == s1.len()
    &&& forall|i: int| 0 <= i < s1.len() && i != parent ==> #[trigger] s2[i] == s1[i]
    &&& live(s2, parent as int) == live(s1, parent as int)
    &&& live(s1, parent as int) ==> {
        let before = agent_at(s1, parent as int);
        let after = agent_at(s2, parent as int);
        &&& (AgentItem { englobed: before.englobed, ..after }) == before
        &&& after.englobed@ == if before.englobed@.contains(child) {
            before.englobed@
        } else {
            before.englobed@.push(child)
        }
    }
}

/// `s` and `t` hold the same agents, the lists of parts compared by their
/// contents.
pub open spec fn same_agents(s: Seq<Option<AgentItem>>, t: Seq<Option<AgentItem>>) -> bool {
    &&& s.len() == t.len()
    &&& forall|i: int| 0 <= i < s.len() ==> (#[trigger] live(t, i) <==> live(s, i))
    &&& forall|i: int| #[trigger] live(s, i) ==> {
        let a = agent_at(s, i);
        let b = agent_at(t, i);
        &&& (AgentItem { englobed: a.englobed, ..b }) == a
        &&& b.englobed@ == a.englobed@
    }
}

proof fn lemma_englobing_fixed(s2: Seq<Option<AgentItem>>, s3: Seq<Option<AgentItem>>, child: AgentId, parent: AgentId)
    requires
        live(s2, child as int) ==> agent_at(s2, child as int).englobing == parent,
        live(s2, parent as int) ==> agent_at(s2, parent as int).englobed@.contains(child),
        englobing_set(s2, s3, child, parent),
    ensures
        same_agents(s2, s3),
{
    let u1 = with_englobing(s2, child, parent);
    assert forall|i: int| 0 <= i < s2.len() implies (#[trigger] live(s3, i) <==> live(s2, i)) by {
        if i != parent as int {
            assert(s3[i] == u1[i]);
        }
    }
    assert forall|i: int| #[trigger] live(s2, i) implies {
        let a = agent_at(s2, i);
        let b = agent_at(s3, i);
        &&& (AgentItem { englobed: a.englobed, ..b }) == a
        &&& b.englobed@ == a.englobed@
    } by {
        if i == child as int {
            assert(agent_at(u1, i) == (AgentItem { englobing: parent, ..agent_at(s2, i) }));
            assert(agent_at(u1, i) == agent_at(s2, i));
        } else {
            assert(u1[i] == s2[i]);
        }
        if i != parent as int {
            assert(s3[i] == u1[i]);
        }
    }
}

proof fn lemma_englobing_parts(s: Seq<Option<AgentItem>>, s2: Seq<Option<AgentItem>>, child: AgentId, parent: AgentId)
    requires
        englobing_set(s, s2, child, parent),
    ensures
        live(s2, child as int) ==> agent_at(s2, child as int).englobing == parent,
        live(s2, parent as int) ==> agent_at(s2, parent as int).englobed@.contains(child),
        live(s, parent as int) && agent_at(s, parent as int).englobed@.no_duplicates() ==> agent_at(
            s2,
            parent as int,
        ).englobed@.no_duplicates(),
{
    let s1 = with_englobing(s, child, parent);
    if live(s2, child as int) {
        assert(live(s1, child as int));
        if child as int != parent as int {
            assert(s2[child as int] == s1[child as int]);
        }
    }
    if live(s2, parent as int) {
        let before = agent_at(s1, parent as int);
        if !before.englobed@.contains(child) {
            let l = before.englobed@.push(child);
            assert(l[l.len() - 1] == child);
        }
        if live(s, parent as int) && agent_at(s, parent as int).englobed@.no_duplicates() {
            assert(before.englobed@ == agent_at(s, parent as int).englobed@);
            if !before.englobed@.contains(child) {
                let l = before.englobed@.push(child);
                assert forall|x: int, y: int| 0 <= x < l.len() && 0 <= y < l.len() && x != y implies l[x] != l[y] by {
                    if y == l.len() - 1 {
                        assert(l[x] == before.englobed@[x]);
                    } else if x == l.len() - 1 {
                        assert(l[y] == before.englobed@[y]);
                    }
                }
            }
        }
    }
}

/// Making `child` a part of `parent` is idempotent: doing it again gives
/// the same agents. The child is then among the parent's parts, and a list
/// of parts without repeats stays without repeats, so the child is in it
/// once.
pub proof fn law_set_englobing_idempotent(
    s: Seq<Option<AgentItem>>,
    s2: Seq<Option<AgentItem>>,
    s3: Seq<Option<AgentItem>>,
    child: AgentId,
    parent: AgentId,
)
    requires
        englobing_set(s, s2, child, parent),
        englobing_set(s2, s3, child, parent),
    ensures
        same_agents(s2, s3),
        live(s2, parent as int) ==> agent_at(s2, parent as int).englobed@.contains(child),
        live(s, parent as int) && agent_at(s, parent as int).englobed@.no_duplicates() ==> agent_at(
            s2,
            parent as int,
        ).englobed@.no_duplicates(),
{
    lemma_englobing_parts(s, s2, child, parent);
    lemma_englobing_fixed(s2, s3, child, parent);
}

/// Maximum number of steps a master lookup follows.
pub const MASTER_CHAIN_LIMIT: u32 = 1025;

impl AgentTable {
    /// Whether agent `q` comes before an agent of first aware time `fa` and id `id`.
    fn key_before(&self, q: AgentId, fa: i64, id: AgentId) -> (r: bool)
        requires
            live(self@, q as int),
        ensures
            r == (agent_at(self@, q as int).first_aware < fa || (agent_at(self@, q as int).first_aware
                == fa && q < id)),
    {
        let qa = match &self.slots[q as usize] {
            Some(b) => b.first_aware,
            None => 0,
        };
        qa < fa || (qa == fa && q < id)
    }

    /// Ids of the agents by first aware time, ties by id.
    pub fn ids_sorted_by_first_aware(&self) -> (r: Vec<AgentId>)
        requires
            self@.len() <= NO_AGENT,
        ensures
            key_sorted(self@, r@),
            forall|x: AgentId| r@.contains(x) <==> live(self@, x as int),
    {
        let ghost s = self@;
        let mut out: Vec<AgentId> = Vec::new();
        let mut i: usize = 0;
        while i < self.slots.len()
            invariant
                i <= s.len(),
                s == self@,
                s.len() <= NO_AGENT,
                key_sorted(s, out@),
                forall|x: AgentId| #[trigger] out@.contains(x) <==> (x < i && live(s, x as int)),
            decreases s.len() - i,
        {
            match &self.slots[i] {
                Some(a) => {
                    let id = i as AgentId;
                    let fa = a.first_aware;
                    assert(live(s, i as int));
                    assert(agent_at(s, i as int) == *a);
                    let mut p: usize = 0;
                    proof {
                        assert forall|k: int| 0 <= k < out@.len() implies live(s, out@[k] as int)
                            && out@[k] < i by {
                            assert(out@.contains(out@[k]));
                        }
                    }
                    while p < out.len() && self.key_before(out[p], fa, id)
                        invariant
                            p <= out@.len(),
                            s == self@,
                            id == i,
                            i < s.len(),
                            fa == agent_at(s, i as int).first_aware,
                            forall|k: int| 0 <= k < out@.len() ==> live(s, out@[k] as int) && out@[k] < i,
                            forall|k: int| 0 <= k < p ==> key_lt(s, out@[k], id),
                        decreases out@.len() - p,
                    {
                        p = p + 1;
                    }
                    let ghost before = out@;
                    out.insert(p, id);
                    proof {
                        if p < before.len() {
                            assert(before[p as int] != id);
                            assert(!key_lt(s, before[p as int], id));
                            lemma_key_total(s, before[p as int], id);
                        }
                        assert forall|k: int, m: int| 0 <= k < m < out@.len() implies key_lt(
                            s,
                            out@[k],
                            out@[m],
                        ) by {
                            if m < p {
                                assert(out@[k] == before[k] && out@[m] == before[m]);
                            } else if m == p {
                                assert(out@[k] == before[k]);
                            } else if k == p {
                                assert(out@[m] == before[m - 1]);
                                if m - 1 > p {
                                    lemma_key_trans(s, id, before[p as int], before[m - 1]);
                                }
                            } else if k < p {
                                assert(out@[k] == before[k] && out@[m] == before[m - 1]);
                            } else {
                                assert(out@[k] == before[k - 1] && out@[m] == before[m - 1]);
                            }
                        }
                        assert forall|x: AgentId| out@.contains(x) <==> (x < i + 1 && live(s, x as int)) by {
                            if out@.contains(x) {
                                let k = choose|k: int| 0 <= k < out@.len() && out@[k] == x;
                                if k != p {
                                    if k < p {
                                        assert(before[k] == x);
                                    } else {
                                        assert(before[k - 1] == x);
                                    }
                                    assert(before.contains(x));
                                }
                            }
                            if x < i + 1 && live(s, x as int) {
                                if x == i {
                                    assert(out@[p as int] == x);
                                } else {
                                    assert(before.contains(x));
                                    let k = choose|k: int| 0 <= k < before.len() && before[k] == x;
                                    if k < p {
                                        assert(out@[k] == x);
                                    } else {
                                        assert(out@[k + 1] == x);
                                    }
                                }
                            }
                        }
                    }
                },
                None => {
                    assert(!live(s, i as int));
                    assert forall|x: AgentId| out@.contains(x) <==> (x < i + 1 && live(s, x as int)) by {
                        assert(out@.contains(x) <==> (x < i && live(s, x as int)));
                        if x == i {
                            assert(!live(s, x as int));
                        }
                    }
                },
            }
            i = i + 1;
        }
        out
    }
}

/// Agents of an address aware at a time.
pub open spec fn at_address(address: u64, time: i64) -> spec_fn(AgentItem) -> bool {
    |a: AgentItem| a.address == address && in_aware(a, time)
}

/// Agents of an instance id aware at a time.
pub open spec fn with_instid(instid: u16, time: i64) -> spec_fn(AgentItem) -> bool {
    |a: AgentItem| a.instid == instid && in_aware(a, time)
}

/// Root agents of a type.
pub open spec fn root_of_type(ty: AgentType) -> spec_fn(AgentItem) -> bool {
    |a: AgentItem| a.englobing == NO_AGENT && a.agent_type == ty
}

impl AgentTable {
    /// The first agent (by first aware time, then id) that satisfies the
    /// instance id or address test at `time`.
    pub(crate) fn first_matching(&self, by_address: bool, address: u64, instid: u16, time: i64) -> (r: AgentId)
        requires
            self@.len() <= NO_AGENT,
        ensures
            first_by_key(
                self@,
                if by_address {
                    at_address(address, time)
                } else {
                    with_instid(instid, time)
                },
                r,
            ),
    {
        let ghost s = self@;
        let ghost p = if by_address {
            at_address(address, time)
        } else {
            with_instid(instid, time)
        };
        let mut best: AgentId = NO_AGENT;
        let mut best_fa: i64 = 0;
        let mut i: usize = 0;
        while i < self.slots.len()
            invariant
                i <= s.len(),
                s == self@,
                s.len() <= NO_AGENT,
                p == (if by_address {
                    at_address(address, time)
                } else {
                    with_instid(instid, time)
                }),
                best == NO_AGENT ==> forall|x: int| 0 <= x < i && live(s, x) ==> !p(agent_at(s, x)),
                best != NO_AGENT ==> {
                    &&& best < i
                    &&& live(s, best as int)
                    &&& p(agent_at(s, best as int))
                    &&& best_fa == agent_at(s, best as int).first_aware
                    &&& forall|x: AgentId|
                        x < i && live(s, x as int) && p(agent_at(s, x as int)) && x != best ==> key_lt(
                            s,
                            best,
                            x,
                        )
                },
            decreases s.len() - i,
        {
            match &self.slots[i] {
                Some(a) => {
                    assert(agent_at(s, i as int) == *a);
                    let hit = if by_address {
                        a.address == address && a.in_aware_times(time)
                    } else {
                        a.instid == instid && a.in_aware_times(time)
                    };
                    assert(hit == p(agent_at(s, i as int)));
                    if hit && (best == NO_AGENT || a.first_aware < best_fa) {
                        best = i as AgentId;
                        best_fa = a.first_aware;
                    }
                },
                None => {},
            }
            i = i + 1;
        }
        best
    }

    /// The agent of `address` aware at `time`, the earliest one first;
    /// `NO_AGENT` for address 0 or when there is none.
    pub fn resolve_agent(&mut self, address: u64, time: i64) -> (r: AgentId)
        requires
            old(self)@.len() <= NO_AGENT,
        ensures
            final(self)@ == old(self)@,
            address == 0 ==> r == NO_AGENT,
            address != 0 ==> first_by_key(old(self)@, at_address(address, time), r),
    {
        if address == 0 {
            return NO_AGENT;
        }
        self.first_matching(true, address, 0, time)
    }

    /// The agent of instance id `instid` aware at `time`, the earliest one
    /// first; `NO_AGENT` for instance id 0 or when there is none.
    pub fn agent_by_instid(&mut self, instid: u16, time: i64) -> (r: AgentId)
        requires
            old(self)@.len() <= NO_AGENT,
        ensures
            final(self)@ == old(self)@,
            instid == 0 ==> r == NO_AGENT,
            instid != 0 ==> first_by_key(old(self)@, with_instid(instid, time), r),
    {
        if instid == 0 {
            return NO_AGENT;
        }
        self.first_matching(false, 0, instid, time)
    }

    /// Root agents of type `ty`, by first aware time, ties by id.
    pub fn agents_by_type(&mut self, ty: AgentType) -> (r: Vec<AgentId>)
        requires
            old(self)@.len() <= NO_AGENT,
        ensures
            final(self)@ == old(self)@,
            key_sorted(old(self)@, r@),
            forall|x: AgentId| r@.contains(x) <==> (live(old(self)@, x as int) && root_of_type(ty)(
                agent_at(old(self)@, x as int),
            )),
    {
        let ghost s = self@;
        let sorted = self.ids_sorted_by_first_aware();
        let mut out: Vec<AgentId> = Vec::new();
        let mut k: usize = 0;
        while k < sorted.len()
            invariant
                k <= sorted@.len(),
                s == self@,
                key_sorted(s, sorted@),
                forall|x: AgentId| #[trigger] sorted@.contains(x) <==> live(s, x as int),
                forall|j: int| 0 <= j < out@.len() ==> exists|m: int| 0 <= m < k && sorted@[m] == #[trigger] out@[j],
                forall|j: int, l: int| 0 <= j < l < out@.len() ==> key_lt(s, out@[j], out@[l]),
                forall|j: int| 0 <= j < out@.len() ==> live(s, #[trigger] out@[j] as int) && root_of_type(ty)(agent_at(s, out@[j] as int)),
                forall|m: int| 0 <= m < k && root_of_type(ty)(agent_at(s, #[trigger] sorted@[m] as int)) ==> out@.contains(sorted@[m]),
                out@.len() > 0 ==> exists|m: int| 0 <= m < k && sorted@[m] == out@.last(),
            decreases sorted@.len() - k,
        {
            let id = sorted[k];
            assert(sorted@.contains(id));
            let keep = match &self.slots[id as usize] {
                Some(a) => a.englobing == NO_AGENT && a.agent_type == ty,
                None => false,
            };
            if keep {
                let ghost before = out@;
                proof {
                    if before.len() > 0 {
                        let m = choose|m: int| 0 <= m < k && sorted@[m] == before.last();
                        assert(key_lt(s, before.last(), id));
                    }
                }
                out.push(id);
                proof {
                    assert forall|j: int, l: int| 0 <= j < l < out@.len() implies key_lt(s, out@[j], out@[l]) by {
                        if l == out@.len() - 1 && j < l {
                            let m = choose|m: int| 0 <= m < k && sorted@[m] == before.last();
                            if j < before.len() - 1 {
                                lemma_key_trans(s, out@[j], before.last(), id);
                            }
                        }
                    }
                    assert forall|j: int| 0 <= j < out@.len() implies exists|m: int| 0 <= m < k + 1 && sorted@[m] == #[trigger] out@[j] by {
                        if j < before.len() {
                            let m = choose|m: int| 0 <= m < k && sorted@[m] == before[j];
                            assert(sorted@[m] == out@[j]);
                        } else {
                            assert(sorted@[k as int] == out@[j]);
                        }
                    }
                    assert forall|m: int| 0 <= m < k + 1 && root_of_type(ty)(agent_at(s, #[trigger] sorted@[m] as int)) implies out@.contains(sorted@[m]) by {
                        if m < k {
                            assert(before.contains(sorted@[m]));
                            let j = choose|j: int| 0 <= j < before.len() && before[j] == sorted@[m];
                            assert(out@[j] == sorted@[m]);
                        } else {
                            assert(out@[out@.len() - 1] == sorted@[m]);
                        }
                    }
                }
            }
            k = k + 1;
        }
        proof {
            assert forall|x: AgentId| out@.contains(x) <==> (live(s, x as int) && root_of_type(ty)(agent_at(s, x as int))) by {
                if out@.contains(x) {
                    let j = choose|j: int| 0 <= j < out@.len() && out@[j] == x;
                    assert(live(s, out@[j] as int));
                }
                if live(s, x as int) && root_of_type(ty)(agent_at(s, x as int)) {
                    assert(sorted@.contains(x));
                    let m = choose|m: int| 0 <= m < sorted@.len() && sorted@[m] == x;
                }
            }
        }
        out
    }

    /// The root of the agent's englobing: its englobing agent, or itself.
    pub fn englobing_root(&self, id: AgentId) -> (r: AgentId)
        ensures
            r == root_of(self@, id),
    {
        match self.slot(id) {
            Some(a) => if a.englobing != NO_AGENT {
                a.englobing
            } else {
                id
            },
            None => id,
        }
    }

    /// Same englobing root; `NO_AGENT` is nobody's identity.
    pub fn same_identity(&self, a: AgentId, b: AgentId) -> (r: bool)
        ensures
            r == (a != NO_AGENT && b != NO_AGENT && root_of(self@, a) == root_of(self@, b)),
    {
        a != NO_AGENT && b != NO_AGENT && self.englobing_root(a) == self.englobing_root(b)
    }

    /// The end of the master chain from `id`, following at most
    /// [`MASTER_CHAIN_LIMIT`] masters.
    pub fn final_master(&self, id: AgentId) -> (r: AgentId)
        ensures
            r == follow_master(self@, id, MASTER_CHAIN_LIMIT as nat),
    {
        let ghost s = self@;
        let mut cur = id;
        let mut guard: u32 = 0;
        while guard < MASTER_CHAIN_LIMIT
            invariant
                s == self@,
                guard <= MASTER_CHAIN_LIMIT,
                follow_master(s, id, MASTER_CHAIN_LIMIT as nat) == follow_master(
                    s,
                    cur,
                    (MASTER_CHAIN_LIMIT - guard) as nat,
                ),
            decreases MASTER_CHAIN_LIMIT - guard,
        {
            let next = match self.slot(cur) {
                Some(a) => a.master,
                None => NO_AGENT,
            };
            if next == NO_AGENT {
                return cur;
            }
            cur = next;
            guard = guard + 1;
        }
        cur
    }

    /// Sets the master of a non-player `minion` to the englobing root of
    /// `master`, unless that would make the minion its own master, directly
    /// or through the chain. A chain is followed for as many steps as the
    /// table has slots: a longer one would go round a cycle, and then the
    /// table is left as it is.
    pub fn set_master(&mut self, minion: AgentId, master: AgentId)
        ensures
            final(self)@ == master_set(old(self)@, minion, master),
    {
        let ghost s = self@;
        let is_player = match self.slot(minion) {
            Some(a) => a.agent_type.is_player(),
            None => return,
        };
        if is_player {
            return;
        }
        let master_root = self.englobing_root(master);
        let n = self.slots.len();
        let mut cur = master_root;
        let mut k: usize = 0;
        loop
            invariant
                s == self@,
                n == s.len(),
                k <= n,
                chain_hits(s, master_root, minion, n as nat) == chain_hits(s, cur, minion, (n - k) as nat),
                chain_ends(s, master_root, n as nat) == chain_ends(s, cur, (n - k) as nat),
                live(s, minion as int),
                !is_player_type(agent_at(s, minion as int).agent_type),
                master_root == root_of(s, master),
            ensures
                s == self@,
                !chain_hits(s, master_root, minion, n as nat),
                chain_ends(s, master_root, n as nat),
                live(s, minion as int),
                !is_player_type(agent_at(s, minion as int).agent_type),
                master_root == root_of(s, master),
            decreases n - k,
        {
            if cur == minion {
                return;
            }
            let next = match self.slot(cur) {
                Some(a) => a.master,
                None => NO_AGENT,
            };
            if next == NO_AGENT {
                break;
            }
            if k == n {
                return;
            }
            cur = next;
            k = k + 1;
        }
        match self.slot_mut(minion) {
            Some(a) => {
                a.master = master_root;
            },
            None => {},
        }
    }

    /// Makes `child` a part of `parent`, recording it among the parent's
    /// parts once.
    pub fn set_englobing(&mut self, child: AgentId, parent: AgentId)
        ensures
            englobing_set(old(self)@, final(self)@, child, parent),
    {
        match self.slot_mut(child) {
            Some(c) => {
                c.englobing = parent;
            },
            None => {},
        }
        match self.slot_mut(parent) {
            Some(p) => {
                if !contains_id(&p.englobed, child) {
                    p.englobed.push(child);
                }
            },
            None => {},
        }
    }

    /// Whether `other` has the identity of the final master of `master`.
    pub fn is_master_or_self(&self, master: AgentId, other: AgentId) -> (r: bool)
        ensures
            r == (follow_master(self@, master, MASTER_CHAIN_LIMIT as nat) != NO_AGENT && other
                != NO_AGENT && root_of(self@, follow_master(self@, master, MASTER_CHAIN_LIMIT as nat))
                == root_of(self@, other)),
    {
        self.same_identity(self.final_master(master), other)
    }

    /// Ends the construction of the table: the queries scan the slots, so
    /// there is nothing to rebuild.
    pub fn finalize(&mut self)
        ensures
            final(self)@ == old(self)@,
    {
    }
}

fn contains_id(v: &Vec<AgentId>, x: AgentId) -> (r: bool)
    ensures
        r == v@.contains(x),
{
    let mut i: usize = 0;
    while i < v.len()
        invariant
            i <= v@.len(),
            forall|k: int| 0 <= k < i ==> v@[k] != x,
        decreases v@.len() - i,
    {
        if v[i] == x {
            assert(v@[i as int] == x);
            return true;
        }
        i = i + 1;
    }
    false
}

} // verus!
