//! Assembling a parsed log: agents linked, the encounter recognised, the
//! squad players and the friendly non-squad players listed, the enemy
//! players gathered into one target, and the rows turned into events.

use vstd::prelude::*;
use crate::model::agent::{
    AgentItem, AgentTable, AgentType, AgentId, NO_AGENT, WORLD_VERSUS_WORLD, live, agent_at, root_of_type,
};
use crate::model::spec::{Spec, SpecCatalog, NoSpecCatalog};
use crate::model::error::ModelError;
use crate::model::manipulation::{
    no_player_records, linked_table, split_from, has_player_root,
    complete_agents_with, PositionJudge, fresh_in, pick_address, pick_instid, table_addresses, table_instids,
    instid_free, instid_used, chars_lt, chars_less, lemma_chars_lt_asym, lemma_chars_lt_trans, lemma_chars_lt_total, INSTID_BASE,
};
use crate::model::parsed::{
    LogData, PhaseData, PlayerActor, NonSquadPlayerActor, NpcActor, Friend, ParsedLog,
};
use crate::model::factory::build_combat_data;
use crate::parse::models::{EvtcCombatItem, EvtcRawLog};
use crate::parse::enums::StateChange;
use crate::parse::arc_build::to_chars;
use crate::text::{decimal, concat_str, u64_text};
use crate::parse::arc_builds::BUFF_APPLIES_AND_REMOVES_AS_STATE_CHANGES;

verus! {

// ===== the fight name =====

/// Name of a map of the mists, for the maps that have one here.
pub open spec fn wvw_map_name(map_id: i32) -> Option<Seq<char>> {
    if map_id == 38 {
        Some("Eternal Battlegrounds"@)
    } else if map_id == 95 {
        Some("Green Alpine Borderlands"@)
    } else if map_id == 96 {
        Some("Blue Alpine Borderlands"@)
    } else if map_id == 1099 {
        Some("Red Desert Borderlands"@)
    } else if map_id == 1100 {
        Some("Obsidian Sanctum"@)
    } else if map_id == 968 {
        Some("Edge of the Mists"@)
    } else if map_id == 1102 {
        Some("Armistice Bastion"@)
    } else {
        None
    }
}

/// `World vs World`, followed by ` - ` and the map's name when it has one.
pub open spec fn wvw_name_of(map_id: i32) -> Seq<char> {
    match wvw_map_name(map_id) {
        Some(m) => "World vs World - "@ + m,
        None => "World vs World"@,
    }
}

/// The name of a fight in the mists on map `map_id`.
pub fn wvw_fight_name(map_id: i32) -> (r: String)
    ensures
        r@ == wvw_name_of(map_id),
{
    let map: &str = if map_id == 38 {
        "Eternal Battlegrounds"
    } else if map_id == 95 {
        "Green Alpine Borderlands"
    } else if map_id == 96 {
        "Blue Alpine Borderlands"
    } else if map_id == 1099 {
        "Red Desert Borderlands"
    } else if map_id == 1100 {
        "Obsidian Sanctum"
    } else if map_id == 968 {
        "Edge of the Mists"
    } else if map_id == 1102 {
        "Armistice Bastion"
    } else {
        return "World vs World".to_owned();
    };
    concat_str("World vs World - ", map)
}

// ===== toughness =====

/// Toughness `t` on the 0-10 scale of the squad's range `[min, max]`:
/// `10 (t - min) / max(max - min, 1)` rounded half to even.
pub open spec fn toughness_scaled(t: u16, min: u16, max: u16) -> u16 {
    let a = 10 * (t - min);
    let d = if max - min >= 1 {
        max - min
    } else {
        1
    };
    let q = a / d;
    let rem = a % d;
    (if 2 * rem > d {
        q + 1
    } else if 2 * rem < d {
        q
    } else if q % 2 == 0 {
        q
    } else {
        q + 1
    }) as u16
}

fn scale_toughness(t: u16, min: u16, max: u16) -> (r: u16)
    requires
        min <= t <= max,
    ensures
        r == toughness_scaled(t, min, max),
        r <= 10,
{
    let a: u32 = 10 * ((t - min) as u32);
    let d: u32 = if max - min >= 1 {
        (max - min) as u32
    } else {
        1
    };
    let q = a / d;
    let rem = a % d;
    assert(q <= 10) by (nonlinear_arith)
        requires
            a <= 10 * d,
            q == a / d,
            d >= 1,
    ;
    let r = if 2 * rem > d {
        q + 1
    } else if 2 * rem < d {
        q
    } else if q % 2 == 0 {
        q
    } else {
        q + 1
    };
    assert(r <= 10) by (nonlinear_arith)
        requires
            a <= 10 * d,
            q == a / d,
            rem == a % d,
            d >= 1,
            r == q || r == q + 1,
            r == q + 1 ==> 2 * rem >= d,
    ;
    r as u16
}

// ===== the target standing for the enemy players =====

/// `a` is a made-up NPC target named `name`, of species id `id` and
/// specialization `spec`, aware over `[0, log_end]`.
pub open spec fn fake_npc(a: AgentItem, id: i32, spec: Spec, name: Seq<char>, log_end: i64) -> bool {
    &&& a.name@ == name
    &&& a.character@ == name
    &&& a.agent_type == AgentType::StableSpecies
    &&& a.spec == spec
    &&& a.base_spec == spec.base_of()
    &&& a.id == id
    &&& a.toughness == 0 && a.healing == 0 && a.condition == 0 && a.concentration == 0
    &&& a.hitbox_width == 0 && a.hitbox_height == 0
    &&& a.first_aware == 0
    &&& a.last_aware == log_end
    &&& a.master == NO_AGENT && a.englobing == NO_AGENT
    &&& a.englobed@.len() == 0 && a.regrouped@.len() == 0
    &&& a.is_fake && !a.is_not_in_squad_friendly_player && !a.is_unknown
    &&& a.account is None && a.group is None && !a.unamed
}

/// Adds a made-up NPC target under a fresh address and instance id.
pub fn add_fake_npc_agent(agents: &mut AgentTable, id: i32, spec: Spec, name: &str, log_end: i64) -> (r: AgentId)
    requires
        old(agents)@.len() < NO_AGENT,
    ensures
        r == old(agents)@.len(),
        final(agents)@.len() == old(agents)@.len() + 1,
        final(agents)@.subrange(0, r as int) == old(agents)@,
        live(final(agents)@, r as int),
        fake_npc(agent_at(final(agents)@, r as int), id, spec, name@, log_end),
        fresh_in(agent_at(final(agents)@, r as int), old(agents)@),
{
    let ghost s = agents@;
    let mut rng: u64 = 0x243f_6a88_85a3_08d3u64;
    let used_addr = table_addresses(agents);
    let addr = pick_address(&mut rng, &used_addr);
    let used_inst = table_instids(agents);
    let instid = pick_instid(&mut rng, &used_inst);
    let ag = AgentItem {
        address: addr,
        name: name.to_owned(),
        agent_type: AgentType::StableSpecies,
        spec,
        base_spec: spec.base_spec(),
        id,
        instid,
        toughness: 0,
        healing: 0,
        condition: 0,
        concentration: 0,
        hitbox_width: 0,
        hitbox_height: 0,
        first_aware: 0,
        last_aware: log_end,
        master: NO_AGENT,
        englobing: NO_AGENT,
        englobed: Vec::new(),
        regrouped: Vec::new(),
        is_fake: true,
        is_not_in_squad_friendly_player: false,
        is_unknown: false,
        character: name.to_owned(),
        account: None,
        group: None,
        unamed: false,
    };
    let r = agents.push_agent(ag);
    proof {
        assert(agents@.subrange(0, r as int) =~= s);
        if exists|v: u16| INSTID_BASE <= v < 2 * INSTID_BASE && #[trigger] instid_free(s, v) {
            let v = choose|v: u16| INSTID_BASE <= v < 2 * INSTID_BASE && #[trigger] instid_free(s, v);
            if used_inst@.contains(v) {
                let j = choose|j: int| 0 <= j < used_inst@.len() && used_inst@[j] == v;
                assert(instid_used(s, used_inst@[j]));
                let i = choose|i: int| live(s, i) && #[trigger] agent_at(s, i).instid == used_inst@[j];
                assert(false);
            }
        }
    }
    r
}

// ===== players =====

fn clone_player(x: &PlayerActor) -> (r: PlayerActor)
    ensures
        r == *x,
{
    PlayerActor {
        agent: x.agent,
        account: x.account.clone(),
        character: x.character.clone(),
        group: x.group,
        squadless: x.squadless,
    }
}

/// Where `x` goes among the sorted `out`: after every name it does not come
/// before.
fn insertion_point(out: &Vec<PlayerActor>, xc: &Vec<char>) -> (p: usize)
    ensures
        p <= out@.len(),
        forall|i: int| 0 <= i < p ==> !chars_lt(xc@, #[trigger] out@[i].character@),
        p < out@.len() ==> chars_lt(xc@, out@[p as int].character@),
{
    let mut p: usize = 0;
    while p < out.len()
        invariant
            p <= out@.len(),
            forall|i: int| 0 <= i < p ==> !chars_lt(xc@, #[trigger] out@[i].character@),
        decreases out@.len() - p,
    {
        let oc = to_chars(&out[p].character);
        if chars_less(xc, &oc) {
            return p;
        }
        p = p + 1;
    }
    p
}

/// Players in character order (code points), equal names in the order met.
#[verifier::spinoff_prover]
#[verifier::rlimit(40)]
fn sort_players(v: Vec<PlayerActor>) -> (r: Vec<PlayerActor>)
    ensures
        r@.len() == v@.len(),
        forall|i: int, j: int| 0 <= i < j < r@.len() ==> !chars_lt(#[trigger] r@[j].character@, #[trigger] r@[i].character@),
        forall|i: int| 0 <= i < r@.len() ==> v@.contains(#[trigger] r@[i]),
        forall|i: int| 0 <= i < v@.len() ==> r@.contains(#[trigger] v@[i]),
{
    let mut out: Vec<PlayerActor> = Vec::new();
    let mut k: usize = 0;
    while k < v.len()
        invariant
            k <= v@.len(),
            out@.len() == k,
            forall|i: int, j: int| 0 <= i < j < out@.len() ==> !chars_lt(#[trigger] out@[j].character@, #[trigger] out@[i].character@),
            forall|i: int| 0 <= i < out@.len() ==> v@.contains(#[trigger] out@[i]),
            forall|q: int| 0 <= q < k ==> out@.contains(#[trigger] v@[q]),
        decreases v@.len() - k,
    {
        let x = clone_player(&v[k]);
        let xc = to_chars(&x.character);
        let p = insertion_point(&out, &xc);
        let ghost o = out@;
        out.insert(p, x);
        proof {
            assert forall|q: int| 0 <= q <= k implies out@.contains(#[trigger] v@[q]) by {
                if q == k {
                    assert(out@[p as int] == v@[q]);
                } else {
                    assert(o.contains(v@[q]));
                    let w = choose|w: int| 0 <= w < o.len() && o[w] == v@[q];
                    if w < p {
                        assert(out@[w] == o[w]);
                    } else {
                        assert(out@[w + 1] == o[w]);
                    }
                }
            }
            assert forall|i: int| 0 <= i < out@.len() implies v@.contains(#[trigger] out@[i]) by {
                if i < p {
                    assert(out@[i] == o[i]);
                    assert(v@.contains(o[i]));
                } else if i == p {
                    assert(out@[i] == v@[k as int]);
                } else {
                    assert(out@[i] == o[i - 1]);
                    assert(v@.contains(o[i - 1]));
                }
            }
            assert forall|i: int, j: int| 0 <= i < j < out@.len() implies !chars_lt(#[trigger] out@[j].character@, #[trigger] out@[i].character@) by {
                if j < p {
                    assert(out@[i] == o[i] && out@[j] == o[j]);
                } else if j == p {
                    assert(out@[i] == o[i]);
                } else if i > p {
                    assert(out@[i] == o[i - 1] && out@[j] == o[j - 1]);
                } else if i == p {
                    assert(out@[j] == o[j - 1]);
                    lemma_chars_lt_asym(o[p as int].character@, x.character@);
                    if chars_lt(o[j - 1].character@, x.character@) && j - 1 > p {
                        lemma_chars_lt_trans(o[j - 1].character@, x.character@, o[p as int].character@);
                    }
                } else {
                    assert(out@[i] == o[i] && out@[j] == o[j - 1]);
                }
            }
        }
        k = k + 1;
    }
    out
}

// ===== the whole assembly =====

/// Player `pa` stands for a squad player root of `s` that was seen, with its
/// character and account (empty when it has none).
pub open spec fn player_entry(s: Seq<Option<AgentItem>>, pa: PlayerActor) -> bool {
    let a = agent_at(s, pa.agent as int);
    &&& live(s, pa.agent as int)
    &&& root_of_type(AgentType::Player)(a)
    &&& a.instid != 0
    &&& a.last_aware != i64::MAX
    &&& pa.character@ == a.character@
    &&& pa.account@ == match a.account {
        Some(acc) => acc@,
        None => Seq::<char>::empty(),
    }
}

/// `s2` is `s` with at most the toughness of agents changed, and agents
/// added after them.
pub open spec fn toughness_only(s: Seq<Option<AgentItem>>, s2: Seq<Option<AgentItem>>) -> bool {
    &&& s2.len() >= s.len()
    &&& forall|i: int| 0 <= i < s.len() ==> #[trigger] live(s2, i) == live(s, i)
    &&& forall|i: int| 0 <= i < s.len() && live(s, i) ==> #[trigger] agent_at(s2, i) == (AgentItem {
        toughness: agent_at(s2, i).toughness,
        ..agent_at(s, i)
    })
}

proof fn lemma_player_entry_kept(s: Seq<Option<AgentItem>>, s2: Seq<Option<AgentItem>>, pa: PlayerActor)
    requires
        player_entry(s, pa),
        toughness_only(s, s2),
    ensures
        player_entry(s2, pa),
        agent_at(s2, pa.agent as int).group == agent_at(s, pa.agent as int).group,
{
    assert(live(s2, pa.agent as int));
    assert(agent_at(s2, pa.agent as int) == (AgentItem { toughness: agent_at(s2, pa.agent as int).toughness, ..agent_at(s, pa.agent as int) }));
}

/// What an assembled log states of the binary log `raw` it came from.
pub open spec fn assembled(raw: EvtcRawLog, p: ParsedLog) -> bool {
    let d = p.log_data.dummy_target_agent;
    let np = p.players@.len();
    &&& raw.id == WORLD_VERSUS_WORLD
    &&& p.arc_version == raw.arc_version
    &&& p.log_data.trigger_id == raw.id
    &&& p.log_data.log_start == 0
    &&& p.log_data.log_end == raw.log_end_time
    &&& p.log_data.evtc_log_end == raw.log_end_time
    &&& p.log_data.map_id == raw.map_id
    &&& p.log_data.name@ == wvw_name_of(raw.map_id)
    &&& p.log_data.main_phase.start == 0
    &&& p.log_data.main_phase.end == raw.log_end_time
    &&& p.log_data.main_phase.name@ == "Full Fight"@
    &&& p.log_data.main_phase.targets@ == seq![d]
    &&& p.targets@.len() == 1
    &&& p.targets@[0].agent == d
    &&& p.targets@[0].character@ == "Enemy Players"@
    &&& p.targets@[0].id == WORLD_VERSUS_WORLD
    &&& live(p.agents@, d as int)
    &&& fake_npc(agent_at(p.agents@, d as int), WORLD_VERSUS_WORLD, Spec::Npc, "Enemy Players"@, raw.log_end_time)
    &&& np > 0
    &&& forall|i: int| 0 <= i < np ==> player_entry(p.agents@, #[trigger] p.players@[i])
    &&& forall|i: int, j: int| 0 <= i < j < np ==> !chars_lt(#[trigger] p.players@[j].character@, #[trigger] p.players@[i].character@)
    &&& ((forall|i: int| 0 <= i < np ==> #[trigger] p.players@[i].squadless && p.players@[i].group == 1)
        || (forall|i: int| 0 <= i < np ==> !(#[trigger] p.players@[i].squadless) && p.players@[i].group != 0
            && agent_at(p.agents@, p.players@[i].agent as int).group == Some(p.players@[i].group)))
    &&& forall|i: int| 0 <= i < p.friendly_non_squad@.len() ==> {
        let a = agent_at(p.agents@, #[trigger] p.friendly_non_squad@[i].agent as int);
        &&& live(p.agents@, p.friendly_non_squad@[i].agent as int)
        &&& root_of_type(AgentType::NonSquadPlayer)(a)
        &&& a.is_not_in_squad_friendly_player
        &&& p.friendly_non_squad@[i].group == 51
    }
    &&& forall|i: int, j: int| 0 <= i < j < p.friendly_non_squad@.len() ==> !name_instid_lt(
        friendly_key(p.agents@, #[trigger] p.friendly_non_squad@[j]),
        friendly_key(p.agents@, #[trigger] p.friendly_non_squad@[i]),
    )
    &&& p.friendlies@.len() == np + p.friendly_non_squad@.len()
    &&& forall|i: int| 0 <= i < p.friendlies@.len() ==> #[trigger] p.friendlies@[i] == if i < np {
        Friend::Player(i as usize)
    } else {
        Friend::NonSquad((i - np) as usize)
    }
    &&& p.skills@.len() == raw.skills@.len()
    &&& forall|i: int| 0 <= i < raw.skills@.len() ==> #[trigger] p.skills@[i].0 == raw.skills@[i].id
        && p.skills@[i].1@ == raw.skills@[i].name@
}

/// The rows of damage.
fn is_damage_item(item: &EvtcCombatItem) -> (r: bool)
    ensures
        r == (item.state_change == StateChange::Combat),
{
    item.state_change == StateChange::Combat
}

/// Slot `i` of `s` holds a squad player that can be listed: a live root
/// with an instance id, seen before the end.
pub open spec fn valid_player(s: Seq<Option<AgentItem>>, i: int) -> bool {
    &&& live(s, i)
    &&& root_of_type(AgentType::Player)(agent_at(s, i))
    &&& agent_at(s, i).instid != 0
    &&& agent_at(s, i).last_aware != i64::MAX
}

/// Some slot of `s` holds a squad player that can be listed.
pub open spec fn has_valid_player(s: Seq<Option<AgentItem>>) -> bool {
    exists|i: int| #[trigger] valid_player(s, i)
}

/// Slot `i` of `s` holds a non-squad player marked friendly.
pub open spec fn friendly_root(s: Seq<Option<AgentItem>>, i: int) -> bool {
    &&& live(s, i)
    &&& root_of_type(AgentType::NonSquadPlayer)(agent_at(s, i))
    &&& agent_at(s, i).is_not_in_squad_friendly_player
}

/// What assembling `raw` gives once its agents are linked and split into
/// `t`: the encounter must be a fight in the mists, a squad player must be
/// listable, and the build must write buff rows as state changes.
pub open spec fn assembly_outcome(raw: EvtcRawLog, t: Seq<Option<AgentItem>>, r: Result<ParsedLog, ModelError>) -> bool {
    if raw.id != WORLD_VERSUS_WORLD {
        r == Err::<ParsedLog, ModelError>(ModelError::UnsupportedEncounter { trigger_id: raw.id })
    } else if !has_valid_player(t) {
        r == Err::<ParsedLog, ModelError>(ModelError::NoValidPlayers)
    } else if raw.arc_version.0 < BUFF_APPLIES_AND_REMOVES_AS_STATE_CHANGES {
        r == Err::<ParsedLog, ModelError>(ModelError::UnsupportedArcBuild { build: raw.arc_version.0 })
    } else {
        &&& r is Ok
        &&& toughness_only(t, r->Ok_0.agents@)
        &&& forall|i: int| #[trigger] valid_player(t, i) ==> exists|j: int|
            0 <= j < r->Ok_0.players@.len() && r->Ok_0.players@[j].agent as int == i
        &&& forall|i: int| #[trigger] friendly_root(r->Ok_0.agents@, i) ==> exists|j: int|
            0 <= j < r->Ok_0.friendly_non_squad@.len() && r->Ok_0.friendly_non_squad@[j].agent as int == i
    }
}

/// Assembles the log `raw` of a fight in the mists: links its agents
/// (specializations decoded by `catalog`, positions told apart by `judge`),
/// lists its players by character name (squadless when one has no
/// subgroup) with toughness on a 0-10 scale, gathers the enemy players into
/// one made-up target that takes their damage rows, lists the friendly
/// non-squad players, and turns the rows into events. Fails, checked in
/// this order, when linking leaves no squad player, when the encounter is
/// not a fight in the mists, when no squad player can be listed, and when
/// the build predates buff rows as state changes.
#[verifier::spinoff_prover]
#[verifier::rlimit(40)]
pub fn assemble_raw_with<C: SpecCatalog, J: PositionJudge>(raw: EvtcRawLog, catalog: &C, judge: &J) -> (r: Result<ParsedLog, ModelError>)
    requires
        raw.combat_events@.len() < 0x1000_0000_0000_0000,
    ensures
        match r {
            Ok(p) => assembled(raw, p),
            Err(e) => e == ModelError::NoPlayersFound
                || (raw.id != WORLD_VERSUS_WORLD && e == (ModelError::UnsupportedEncounter { trigger_id: raw.id }))
                || e == ModelError::NoValidPlayers
                || (raw.arc_version.0 < BUFF_APPLIES_AND_REMOVES_AS_STATE_CHANGES
                    && e == (ModelError::UnsupportedArcBuild { build: raw.arc_version.0 })),
        },
        raw.id != WORLD_VERSUS_WORLD ==> r == Err::<ParsedLog, ModelError>(ModelError::NoPlayersFound)
            || r == Err::<ParsedLog, ModelError>(ModelError::UnsupportedEncounter { trigger_id: raw.id }),
        no_player_records(*catalog, raw.agents@) ==> r == Err::<ParsedLog, ModelError>(ModelError::NoPlayersFound),
        exists|t7: Seq<Option<AgentItem>>| #[trigger] linked_table(*catalog, raw, t7) && if has_player_root(t7) {
            exists|t: Seq<Option<AgentItem>>, items: Seq<EvtcCombatItem>| #[trigger] split_from(t7, t, items)
                && assembly_outcome(raw, t, r)
        } else {
            r == Err::<ParsedLog, ModelError>(ModelError::NoPlayersFound)
        },
{
    let ghost raw0 = raw;
    let mut raw = raw;
    let mut skills: Vec<(u32, String)> = Vec::new();
    let mut i: usize = 0;
    while i < raw.skills.len()
        invariant
            raw == raw0,
            i <= raw0.skills@.len(),
            skills@.len() == i,
            forall|q: int| 0 <= q < i ==> #[trigger] skills@[q].0 == raw0.skills@[q].id
                && skills@[q].1@ == raw0.skills@[q].name@,
        decreases raw0.skills@.len() - i,
    {
        skills.push((raw.skills[i].id, raw.skills[i].name.clone()));
        i = i + 1;
    }
    let arc_version = raw.arc_version;
    let trigger_id = raw.id;
    let evtc_log_end = raw.log_end_time;
    let map_id = raw.map_id;
    let linked = complete_agents_with(&mut raw, catalog, judge);
    let ghost t7 = choose|t7: Seq<Option<AgentItem>>| #[trigger] linked_table(*catalog, raw0, t7) && match linked {
        Err(_) => !has_player_root(t7),
        Ok((t, st)) => has_player_root(t7) && split_from(t7, t@, raw.combat_events@),
    };
    let (mut agents, link_stats) = match linked {
        Ok(x) => x,
        Err(e) => {
            proof {
                assert(linked_table(*catalog, raw0, t7));
            }
            return Err(e);
        },
    };
    let ghost tsplit = agents@;
    let ghost items = raw.combat_events@;
    proof {
        assert(linked_table(*catalog, raw0, t7));
        assert(split_from(t7, tsplit, items));
    }
    if trigger_id != WORLD_VERSUS_WORLD as u16 {
        proof {
            assert(linked_table(*catalog, raw0, t7));
            assert(split_from(t7, tsplit, items));
        }
        return Err(ModelError::UnsupportedEncounter { trigger_id });
    }
    let name = wvw_fight_name(map_id);
    // squad players
    let player_roots = agents.agents_by_type(AgentType::Player);
    let mut players: Vec<PlayerActor> = Vec::new();
    let mut any_ungrouped = false;
    let mut k: usize = 0;
    while k < player_roots.len()
        invariant
            k <= player_roots@.len(),
            agents@.len() < NO_AGENT,
            forall|x: AgentId| player_roots@.contains(x) <==> (live(agents@, x as int) && root_of_type(AgentType::Player)(agent_at(agents@, x as int))),
            forall|i: int| 0 <= i < players@.len() ==> player_entry(agents@, #[trigger] players@[i])
                && !players@[i].squadless
                && (agent_at(agents@, players@[i].agent as int).group == Some(players@[i].group)
                    || (agent_at(agents@, players@[i].agent as int).group is None && players@[i].group == 0)),
            any_ungrouped == exists|i: int| 0 <= i < players@.len() && #[trigger] players@[i].group == 0,
            agents@ == tsplit,
            players@.len() > 0 ==> has_valid_player(tsplit),
            forall|q: int| 0 <= q < k ==> valid_player(tsplit, #[trigger] player_roots@[q] as int) ==> exists|j: int|
                0 <= j < players@.len() && players@[j].agent == player_roots@[q],
        decreases player_roots@.len() - k,
    {
        let id = player_roots[k];
        assert(player_roots@.contains(id));
        match agents.slot(id) {
            Some(a) => {
                if a.instid != 0 && a.last_aware != i64::MAX {
                    let account = match &a.account {
                        Some(acc) => acc.clone(),
                        None => String::new(),
                    };
                    let group = match a.group {
                        Some(g) => g,
                        None => 0,
                    };
                    let ghost before = players@;
                    players.push(PlayerActor { agent: id, account, character: a.character.clone(), group, squadless: false });
                    if group == 0 {
                        any_ungrouped = true;
                    }
                    proof {
                        assert(players@[players@.len() - 1].group == group);
                        assert(valid_player(tsplit, id as int));
                        assert forall|i: int| 0 <= i < before.len() implies players@[i] == before[i] by {}
                    }
                }
            },
            None => {},
        }
        k = k + 1;
    }
    if players.len() == 0 {
        proof {
            assert forall|i: int| !valid_player(tsplit, i) by {
                if valid_player(tsplit, i) {
                    let x = i as AgentId;
                    assert(player_roots@.contains(x));
                    let q = choose|q: int| 0 <= q < player_roots@.len() && player_roots@[q] == x;
                    assert(valid_player(tsplit, player_roots@[q] as int));
                }
            }
            assert(linked_table(*catalog, raw0, t7));
            assert(split_from(t7, tsplit, items));
        }
        return Err(ModelError::NoValidPlayers);
    }
    assert(has_valid_player(tsplit));
    proof {
        assert forall|i: int| #[trigger] valid_player(tsplit, i) implies exists|j: int|
            0 <= j < players@.len() && players@[j].agent as int == i by {
            let x = i as AgentId;
            assert(player_roots@.contains(x));
            let q = choose|q: int| 0 <= q < player_roots@.len() && player_roots@[q] == x;
            assert(valid_player(tsplit, player_roots@[q] as int));
        }
    }
    let ghost pl0 = players@;
    if any_ungrouped {
        let mut k: usize = 0;
        while k < players.len()
            invariant
                k <= players@.len(),
                players@.len() == pl0.len(),
                forall|i: int| 0 <= i < players@.len() ==> #[trigger] players@[i] == if i < k {
                    PlayerActor { squadless: true, group: 1, ..pl0[i] }
                } else {
                    pl0[i]
                },
            decreases players@.len() - k,
        {
            let mut p = clone_player(&players[k]);
            p.squadless = true;
            p.group = 1;
            players.set(k, p);
            k = k + 1;
        }
    }
    proof {
        if !any_ungrouped {
            assert forall|i: int| 0 <= i < pl0.len() implies #[trigger] pl0[i].group != 0 by {
                if pl0[i].group == 0 {
                    assert(exists|q: int| 0 <= q < pl0.len() && #[trigger] pl0[q].group == 0);
                }
            }
        }
    }
    let ghost pl1 = players@;
    let players = sort_players(players);
    // toughness on the squad's 0-10 scale
    let ghost ag0 = agents@;
    let mut min_t: u16 = 0;
    let mut max_t: u16 = 0;
    let mut k: usize = 0;
    while k < players.len()
        invariant
            k <= players@.len(),
        decreases players@.len() - k,
    {
        let t = match agents.slot(players[k].agent) {
            Some(a) => a.toughness,
            None => 0,
        };
        if k == 0 || t < min_t {
            min_t = t;
        }
        if k == 0 || t > max_t {
            max_t = t;
        }
        k = k + 1;
    }
    if min_t > 0 {
        let mut k: usize = 0;
        while k < players.len()
            invariant
                k <= players@.len(),
                toughness_only(ag0, agents@),
                agents@.len() == ag0.len(),
            decreases players@.len() - k,
        {
            let id = players[k].agent;
            let t = match agents.slot(id) {
                Some(a) => a.toughness,
                None => 0,
            };
            if min_t <= t && t <= max_t {
                let norm = scale_toughness(t, min_t, max_t);
                let ghost before = agents@;
                match agents.slot_mut(id) {
                    Some(a) => {
                        a.toughness = norm;
                    },
                    None => {},
                }
                proof {
                    assert forall|i: int| 0 <= i < ag0.len() && live(ag0, i) implies #[trigger] agent_at(agents@, i) == (AgentItem {
                        toughness: agent_at(agents@, i).toughness,
                        ..agent_at(ag0, i)
                    }) by {
                        assert(agent_at(before, i) == (AgentItem { toughness: agent_at(before, i).toughness, ..agent_at(ag0, i) }));
                    }
                    assert forall|i: int| 0 <= i < ag0.len() implies #[trigger] live(agents@, i) == live(ag0, i) by {
                        assert(live(before, i) == live(ag0, i));
                    }
                }
            }
            k = k + 1;
        }
    }
    proof {
        if min_t == 0 {
            assert forall|i: int| 0 <= i < ag0.len() && live(ag0, i) implies #[trigger] agent_at(agents@, i) == (AgentItem {
                toughness: agent_at(agents@, i).toughness,
                ..agent_at(ag0, i)
            }) by {}
        }
        assert(toughness_only(ag0, agents@));
        assert(agents@.len() == ag0.len());
    }
    // the made-up target standing for the enemy players
    let ghost ag1 = agents@;
    let dummy = add_fake_npc_agent(&mut agents, WORLD_VERSUS_WORLD, Spec::Npc, "Enemy Players", evtc_log_end);
    proof {
        assert forall|i: int| 0 <= i < ag0.len() implies #[trigger] live(agents@, i) == live(ag0, i) by {
            assert(agents@.subrange(0, dummy as int)[i] == agents@[i]);
            assert(agents@[i] == ag1[i]);
            assert(live(ag1, i) == live(ag0, i));
        }
        assert forall|i: int| 0 <= i < ag0.len() && live(ag0, i) implies #[trigger] agent_at(agents@, i) == (AgentItem {
            toughness: agent_at(agents@, i).toughness,
            ..agent_at(ag0, i)
        }) by {
            assert(agents@.subrange(0, dummy as int)[i] == agents@[i]);
            assert(agents@[i] == ag1[i]);
            assert(live(ag1, i));
            assert(agent_at(ag1, i) == (AgentItem { toughness: agent_at(ag1, i).toughness, ..agent_at(ag0, i) }));
        }
        assert(toughness_only(ag0, agents@));
    }
    // non-squad players: the friendly ones listed, the others the enemy
    let non_squad_ids = agents.agents_by_type(AgentType::NonSquadPlayer);
    let mut friendly: Vec<NonSquadPlayerActor> = Vec::new();
    let mut friendly_spec: Vec<(Vec<char>, u16)> = Vec::new();
    let mut enemy: Vec<(u64, i64, i64)> = Vec::new();
    let mut k: usize = 0;
    while k < non_squad_ids.len()
        invariant
            k <= non_squad_ids@.len(),
            forall|x: AgentId| non_squad_ids@.contains(x) <==> (live(agents@, x as int) && root_of_type(AgentType::NonSquadPlayer)(agent_at(agents@, x as int))),
            friendly@.len() == friendly_spec@.len(),
            forall|i: int| 0 <= i < friendly@.len() ==> non_squad_entry(agents@, #[trigger] friendly@[i]),
            forall|j: int| 0 <= j < friendly@.len() ==> (friendly_spec@[j].0@, friendly_spec@[j].1) == friendly_key(agents@, #[trigger] friendly@[j]),
            forall|q: int| 0 <= q < k ==> friendly_root(agents@, #[trigger] non_squad_ids@[q] as int) ==> exists|j: int|
                0 <= j < friendly@.len() && friendly@[j].agent == non_squad_ids@[q],
        decreases non_squad_ids@.len() - k,
    {
        let id = non_squad_ids[k];
        assert(non_squad_ids@.contains(id));
        match agents.slot(id) {
            Some(a) => {
                let counter = u64_text((k as u64) + 1);
                let account = concat_str("Non Squad Player ", counter.as_str());
                let spec_name = a.spec.csharp_name();
                let head = concat_str(spec_name, " pl-");
                let inst = u64_text(a.instid as u64);
                let character = concat_str(head.as_str(), inst.as_str());
                if a.is_not_in_squad_friendly_player {
                    let ghost before = friendly@;
                    friendly.push(NonSquadPlayerActor { agent: id, account, character, group: 51 });
                    friendly_spec.push((to_chars(&spec_name.to_owned()), a.instid));
                    proof {
                        assert forall|q: int| 0 <= q < k implies friendly_root(agents@, #[trigger] non_squad_ids@[q] as int) ==> exists|j: int|
                            0 <= j < friendly@.len() && friendly@[j].agent == non_squad_ids@[q] by {
                            if friendly_root(agents@, non_squad_ids@[q] as int) {
                                let j = choose|j: int| 0 <= j < before.len() && before[j].agent == non_squad_ids@[q];
                                assert(friendly@[j] == before[j]);
                            }
                        }
                        assert(friendly@[friendly@.len() - 1].agent == id);
                    }
                } else {
                    enemy.push((a.address, a.first_aware, a.last_aware));
                }
            },
            None => {},
        }
        k = k + 1;
    }
    proof {
        assert forall|i: int| #[trigger] friendly_root(agents@, i) implies exists|j: int|
            0 <= j < friendly@.len() && friendly@[j].agent as int == i by {
            let x = i as AgentId;
            assert(non_squad_ids@.contains(x));
            let q = choose|q: int| 0 <= q < non_squad_ids@.len() && non_squad_ids@[q] == x;
            assert(friendly_root(agents@, non_squad_ids@[q] as int));
        }
    }
    let ghost fr0 = friendly@;
    let friendly = sort_friendly(friendly, friendly_spec, Ghost(agents@));
    // the enemy's damage rows go to the made-up target
    let dummy_addr = match agents.slot(dummy) {
        Some(a) => a.address,
        None => 0,
    };
    let ghost raw1 = raw;
    let n = raw.combat_events.len();
    let mut idx: usize = 0;
    while idx < n
        invariant
            n == raw.combat_events@.len(),
            idx <= n,
            raw == (EvtcRawLog { combat_events: raw.combat_events, ..raw1 }),
        decreases n - idx,
    {
        let mut item = raw.combat_events[idx];
        if is_damage_item(&item) {
            let mut e: usize = 0;
            while e < enemy.len()
                invariant
                    e <= enemy@.len(),
                decreases enemy@.len() - e,
            {
                let (addr, fa, la) = enemy[e];
                if item.src_agent == addr && fa <= item.time && item.time <= la {
                    item.src_agent = dummy_addr;
                    break;
                }
                e = e + 1;
            }
            let mut e: usize = 0;
            while e < enemy.len()
                invariant
                    e <= enemy@.len(),
                decreases enemy@.len() - e,
            {
                let (addr, fa, la) = enemy[e];
                if item.dst_agent == addr && fa <= item.time && item.time <= la {
                    item.dst_agent = dummy_addr;
                    break;
                }
                e = e + 1;
            }
            raw.combat_events.set(idx, item);
        }
        idx = idx + 1;
    }
    // the rows as events
    let combat_data = match build_combat_data(raw) {
        Ok(d) => d,
        Err(e) => {
            proof {
                assert(linked_table(*catalog, raw0, t7));
                assert(split_from(t7, tsplit, items));
            }
            return Err(e);
        },
    };
    let mut targets: Vec<NpcActor> = Vec::new();
    targets.push(NpcActor { agent: dummy, character: "Enemy Players".to_owned(), id: WORLD_VERSUS_WORLD });
    let mut friendlies: Vec<Friend> = Vec::new();
    let mut k: usize = 0;
    while k < players.len()
        invariant
            k <= players@.len(),
            friendlies@.len() == k,
            forall|i: int| 0 <= i < k ==> #[trigger] friendlies@[i] == Friend::Player(i as usize),
        decreases players@.len() - k,
    {
        friendlies.push(Friend::Player(k));
        k = k + 1;
    }
    let mut k: usize = 0;
    while k < friendly.len()
        invariant
            k <= friendly@.len(),
            friendlies@.len() == players@.len() + k,
            forall|i: int| 0 <= i < players@.len() + k ==> #[trigger] friendlies@[i] == if i < players@.len() {
                Friend::Player(i as usize)
            } else {
                Friend::NonSquad((i - players@.len()) as usize)
            },
        decreases friendly@.len() - k,
    {
        friendlies.push(Friend::NonSquad(k));
        k = k + 1;
    }
    let mut phase_targets: Vec<AgentId> = Vec::new();
    phase_targets.push(dummy);
    let log_data = LogData {
        trigger_id,
        log_start: 0,
        log_end: evtc_log_end,
        evtc_log_end,
        map_id,
        name,
        main_phase: PhaseData { start: 0, end: evtc_log_end, name: "Full Fight".to_owned(), targets: phase_targets },
        dummy_target_agent: dummy,
    };
    let parsed = ParsedLog {
        arc_version,
        agents,
        link_stats,
        log_data,
        players,
        friendly_non_squad: friendly,
        targets,
        friendlies,
        events: combat_data.events,
        metadata: combat_data.metadata,
        skills,
    };
    proof {
        let pa = parsed.agents@;
        assert forall|i: int| 0 <= i < parsed.players@.len() implies player_entry(pa, #[trigger] parsed.players@[i]) by {
            let x = parsed.players@[i];
            assert(pl1.contains(x));
            let j = choose|j: int| 0 <= j < pl1.len() && pl1[j] == x;
            assert(player_entry(ag0, pl0[j]));
            assert(player_entry(ag0, x));
            lemma_player_entry_kept(ag0, pa, x);
        }
        if any_ungrouped {
            assert forall|i: int| 0 <= i < parsed.players@.len() implies #[trigger] parsed.players@[i].squadless && parsed.players@[i].group == 1 by {
                let x = parsed.players@[i];
                assert(pl1.contains(x));
                let j = choose|j: int| 0 <= j < pl1.len() && pl1[j] == x;
            }
        } else {
            assert forall|i: int| 0 <= i < parsed.players@.len() implies !(#[trigger] parsed.players@[i].squadless) && parsed.players@[i].group != 0
                && agent_at(pa, parsed.players@[i].agent as int).group == Some(parsed.players@[i].group) by {
                let x = parsed.players@[i];
                assert(pl1.contains(x));
                let j = choose|j: int| 0 <= j < pl1.len() && pl1[j] == x;
                assert(pl0[j] == x);
                assert(pl0[j].group != 0);
                lemma_player_entry_kept(ag0, pa, x);
            }
        }
        assert(assembled(raw0, parsed));
        assert(ag0 == tsplit);
        assert forall|i: int| #[trigger] friendly_root(parsed.agents@, i) implies exists|j: int|
            0 <= j < parsed.friendly_non_squad@.len() && parsed.friendly_non_squad@[j].agent as int == i by {
            let j = choose|j: int| 0 <= j < fr0.len() && fr0[j].agent as int == i;
            assert(parsed.friendly_non_squad@.contains(fr0[j]));
        }
        assert forall|i: int| #[trigger] valid_player(tsplit, i) implies exists|j: int|
            0 <= j < parsed.players@.len() && parsed.players@[j].agent as int == i by {
            let j = choose|j: int| 0 <= j < pl0.len() && pl0[j].agent as int == i;
            assert(pl1[j].agent == pl0[j].agent);
            assert(parsed.players@.contains(pl1[j]));
        }
        assert(linked_table(*catalog, raw0, t7));
        assert(split_from(t7, tsplit, items));
    }
    Ok(parsed)
}

/// Friendly non-squad player `f` stands for a friendly non-squad root of `s`.
pub open spec fn non_squad_entry(s: Seq<Option<AgentItem>>, f: NonSquadPlayerActor) -> bool {
    let a = agent_at(s, f.agent as int);
    &&& live(s, f.agent as int)
    &&& root_of_type(AgentType::NonSquadPlayer)(a)
    &&& a.is_not_in_squad_friendly_player
    &&& f.group == 51
}

/// Key `(name, instid)` `a` comes before `b`: by name in code point order,
/// then by instance id.
pub open spec fn name_instid_lt(a: (Seq<char>, u16), b: (Seq<char>, u16)) -> bool {
    chars_lt(a.0, b.0) || (!chars_lt(b.0, a.0) && a.1 < b.1)
}

/// (specialization name, instance id) `a` comes before `b`.
fn key_less(a: &(Vec<char>, u16), b: &(Vec<char>, u16)) -> (r: bool)
    ensures
        r == name_instid_lt((a.0@, a.1), (b.0@, b.1)),
{
    if chars_less(&a.0, &b.0) {
        true
    } else if chars_less(&b.0, &a.0) {
        false
    } else {
        a.1 < b.1
    }
}

/// The sort key of a friendly non-squad player in `s`: the name of its
/// specialization, then its instance id.
pub open spec fn friendly_key(s: Seq<Option<AgentItem>>, f: NonSquadPlayerActor) -> (Seq<char>, u16) {
    let a = agent_at(s, f.agent as int);
    (a.spec.name_of(), a.instid)
}

proof fn lemma_name_instid_trans(a: (Seq<char>, u16), b: (Seq<char>, u16), c: (Seq<char>, u16))
    requires
        name_instid_lt(a, b),
        name_instid_lt(b, c),
    ensures
        name_instid_lt(a, c),
{
    if chars_lt(a.0, b.0) && chars_lt(b.0, c.0) {
        lemma_chars_lt_trans(a.0, b.0, c.0);
    } else if chars_lt(a.0, b.0) {
        if b.0 != c.0 {
            lemma_chars_lt_total(b.0, c.0);
        }
    } else if chars_lt(b.0, c.0) {
        if a.0 != b.0 {
            lemma_chars_lt_total(a.0, b.0);
        }
    } else {
        if a.0 != b.0 {
            lemma_chars_lt_total(a.0, b.0);
        }
        if b.0 != c.0 {
            lemma_chars_lt_total(b.0, c.0);
        }
        lemma_chars_lt_asym(a.0, a.0);
    }
}

/// The friendly non-squad players by specialization name, then instance
/// id (`keys` holds both for each), equal keys in the order met.
fn sort_friendly(v: Vec<NonSquadPlayerActor>, keys: Vec<(Vec<char>, u16)>, Ghost(s): Ghost<Seq<Option<AgentItem>>>) -> (r: Vec<NonSquadPlayerActor>)
    requires
        v@.len() == keys@.len(),
        forall|j: int| 0 <= j < v@.len() ==> (keys@[j].0@, keys@[j].1) == friendly_key(s, #[trigger] v@[j]),
    ensures
        r@.len() == v@.len(),
        forall|i: int| 0 <= i < r@.len() ==> v@.contains(#[trigger] r@[i]),
        forall|i: int| 0 <= i < v@.len() ==> r@.contains(#[trigger] v@[i]),
        forall|i: int, j: int| 0 <= i < j < r@.len() ==> !name_instid_lt(friendly_key(s, #[trigger] r@[j]), friendly_key(s, #[trigger] r@[i])),
{
    let mut out: Vec<NonSquadPlayerActor> = Vec::new();
    let mut out_keys: Vec<(Vec<char>, u16)> = Vec::new();
    let mut k: usize = 0;
    while k < v.len()
        invariant
            k <= v@.len(),
            v@.len() == keys@.len(),
            forall|j: int| 0 <= j < v@.len() ==> (keys@[j].0@, keys@[j].1) == friendly_key(s, #[trigger] v@[j]),
            out@.len() == k,
            out_keys@.len() == k,
            forall|i: int| 0 <= i < out@.len() ==> v@.contains(#[trigger] out@[i]),
            forall|i: int| 0 <= i < out@.len() ==> (out_keys@[i].0@, out_keys@[i].1) == friendly_key(s, #[trigger] out@[i]),
            forall|i: int, j: int| 0 <= i < j < out@.len() ==> !name_instid_lt(friendly_key(s, #[trigger] out@[j]), friendly_key(s, #[trigger] out@[i])),
            forall|q: int| 0 <= q < k ==> out@.contains(#[trigger] v@[q]),
        decreases v@.len() - k,
    {
        let ghost kk = friendly_key(s, v@[k as int]);
        let mut p: usize = 0;
        while p < out_keys.len()
            invariant
                p <= out_keys@.len(),
                k < keys@.len(),
                out@.len() == out_keys@.len(),
                kk == (keys@[k as int].0@, keys@[k as int].1),
                forall|i: int| 0 <= i < out@.len() ==> (out_keys@[i].0@, out_keys@[i].1) == friendly_key(s, #[trigger] out@[i]),
                forall|q: int| 0 <= q < p ==> !name_instid_lt(kk, friendly_key(s, #[trigger] out@[q])),
            ensures
                p <= out_keys@.len(),
                forall|q: int| 0 <= q < p ==> !name_instid_lt(kk, friendly_key(s, #[trigger] out@[q])),
                p < out_keys@.len() ==> name_instid_lt(kk, friendly_key(s, out@[p as int])),
            decreases out_keys@.len() - p,
        {
            if key_less(&keys[k], &out_keys[p]) {
                break;
            }
            p = p + 1;
        }
        proof {
            if p < out@.len() {
                assert(name_instid_lt(kk, friendly_key(s, out@[p as int])));
            }
        }
        let x = NonSquadPlayerActor {
            agent: v[k].agent,
            account: v[k].account.clone(),
            character: v[k].character.clone(),
            group: v[k].group,
        };
        assert(x == v@[k as int]);
        let kx = (keys[k].0.clone(), keys[k].1);
        let ghost o = out@;
        let ghost ok = out_keys@;
        out.insert(p, x);
        out_keys.insert(p, kx);
        proof {
            assert forall|q: int| 0 <= q <= k implies out@.contains(#[trigger] v@[q]) by {
                if q == k {
                    assert(out@[p as int] == v@[q]);
                } else {
                    assert(o.contains(v@[q]));
                    let w = choose|w: int| 0 <= w < o.len() && o[w] == v@[q];
                    if w < p {
                        assert(out@[w] == o[w]);
                    } else {
                        assert(out@[w + 1] == o[w]);
                    }
                }
            }
            assert forall|i: int| 0 <= i < out@.len() implies v@.contains(#[trigger] out@[i]) by {
                if i < p {
                    assert(out@[i] == o[i]);
                    assert(v@.contains(o[i]));
                } else if i == p {
                    assert(out@[i] == v@[k as int]);
                } else {
                    assert(out@[i] == o[i - 1]);
                    assert(v@.contains(o[i - 1]));
                }
            }
            assert forall|i: int| 0 <= i < out@.len() implies (out_keys@[i].0@, out_keys@[i].1) == friendly_key(s, #[trigger] out@[i]) by {
                if i < p {
                    assert(out@[i] == o[i] && out_keys@[i] == ok[i]);
                } else if i == p {
                    assert(out@[i] == v@[k as int]);
                } else {
                    assert(out@[i] == o[i - 1] && out_keys@[i] == ok[i - 1]);
                }
            }
            assert forall|i: int, j: int| 0 <= i < j < out@.len() implies !name_instid_lt(friendly_key(s, #[trigger] out@[j]), friendly_key(s, #[trigger] out@[i])) by {
                if j < p {
                    assert(out@[i] == o[i] && out@[j] == o[j]);
                } else if j == p {
                    assert(out@[i] == o[i]);
                    assert(out@[j] == v@[k as int]);
                } else if i > p {
                    assert(out@[i] == o[i - 1] && out@[j] == o[j - 1]);
                } else if i == p {
                    assert(out@[i] == v@[k as int]);
                    assert(out@[j] == o[j - 1]);
                    let b = friendly_key(s, o[p as int]);
                    let c = friendly_key(s, o[j - 1]);
                    if j - 1 > p {
                        assert(!name_instid_lt(c, b));
                    }
                    if name_instid_lt(c, kk) {
                        lemma_name_instid_trans(c, kk, b);
                        lemma_chars_lt_asym(b.0, b.0);
                    }
                } else {
                    assert(out@[i] == o[i]);
                    assert(out@[j] == o[j - 1]);
                }
            }
        }
        k = k + 1;
    }
    out
}

/// [`assemble_raw_with`] with the specializations decoded locally.
pub fn assemble_raw<J: PositionJudge>(raw: EvtcRawLog, judge: &J) -> (r: Result<ParsedLog, ModelError>)
    requires
        raw.combat_events@.len() < 0x1000_0000_0000_0000,
    ensures
        match r {
            Ok(p) => assembled(raw, p),
            Err(e) => e == ModelError::NoPlayersFound
                || (raw.id != WORLD_VERSUS_WORLD && e == (ModelError::UnsupportedEncounter { trigger_id: raw.id }))
                || e == ModelError::NoValidPlayers
                || (raw.arc_version.0 < BUFF_APPLIES_AND_REMOVES_AS_STATE_CHANGES
                    && e == (ModelError::UnsupportedArcBuild { build: raw.arc_version.0 })),
        },
        raw.id != WORLD_VERSUS_WORLD ==> r == Err::<ParsedLog, ModelError>(ModelError::NoPlayersFound)
            || r == Err::<ParsedLog, ModelError>(ModelError::UnsupportedEncounter { trigger_id: raw.id }),
        no_player_records(NoSpecCatalog, raw.agents@) ==> r == Err::<ParsedLog, ModelError>(ModelError::NoPlayersFound),
        exists|t7: Seq<Option<AgentItem>>| #[trigger] linked_table(NoSpecCatalog, raw, t7) && if has_player_root(t7) {
            exists|t: Seq<Option<AgentItem>>, items: Seq<EvtcCombatItem>| #[trigger] split_from(t7, t, items)
                && assembly_outcome(raw, t, r)
        } else {
            r == Err::<ParsedLog, ModelError>(ModelError::NoPlayersFound)
        },
{
    assemble_raw_with(raw, &NoSpecCatalog, judge)
}

} // verus!
