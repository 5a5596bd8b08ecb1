use gw2ei::model::agent::{AgentItem, AgentTable, AgentType, NO_AGENT, ENVIRONMENT};
use gw2ei::model::assemble::{assemble_raw, wvw_fight_name};
use gw2ei::model::error::ModelError;
use gw2ei::model::manipulation::{
    add_custom_agent_from, add_environment_agent, complete_agents, find_agent_master,
    regroup_same_agents_and_determine_teams, split_players_by_enter_combat, update_agent_data,
    PositionJudge,
};
use gw2ei::model::parsed::{Friend, LinkStats};
use gw2ei::model::raw_agent::{agent_from_raw, agent_from_raw_spec};
use gw2ei::model::spec::{NoSpecCatalog, Spec};
use gw2ei::parse::enums::{Activation, BuffRemove, Iff, StateChange};
use gw2ei::parse::models::{EvtcCombatItem, EvtcRawAgent, EvtcRawLog, EvtcRawSkill, ParseStats};

/// Never finds two positions apart.
struct Near;

impl PositionJudge for Near {
    fn far_apart(&self, _a: u64, _b: u64) -> bool {
        false
    }
}

/// Compares positions as the x and y floats packed in a row.
struct Euclid;

impl PositionJudge for Euclid {
    fn far_apart(&self, a: u64, b: u64) -> bool {
        let ax = f64::from(f32::from_bits(a as u32));
        let ay = f64::from(f32::from_bits((a >> 32) as u32));
        let bx = f64::from(f32::from_bits(b as u32));
        let by = f64::from(f32::from_bits((b >> 32) as u32));
        ((ax - bx).powi(2) + (ay - by).powi(2)).sqrt() > 4980.0
    }
}

fn row(state: StateChange, time: i64, src: u64, dst: u64) -> EvtcCombatItem {
    EvtcCombatItem {
        time,
        src_agent: src,
        dst_agent: dst,
        value: 0,
        buff_dmg: 0,
        overstack_value: 0,
        skill_id: 0,
        src_instid: 0,
        dst_instid: 0,
        src_master_instid: 0,
        dst_master_instid: 0,
        iff: Iff::Friend,
        iff_raw: 0,
        buff: 0,
        result: 0,
        activation: Activation::NotSet,
        activation_raw: 0,
        buff_remove: BuffRemove::NotSet,
        buff_remove_raw: 0,
        is_ninety: 0,
        is_fifty: 0,
        is_moving: 0,
        state_change: state,
        state_change_raw: state.to_byte(),
        is_flanking: 0,
        is_shields: 0,
        is_offcycle: 0,
        pad: 0,
    }
}

fn raw_agent(address: u64, prof: u32, elite: u32, name: &[u8]) -> EvtcRawAgent {
    let mut n = [0u8; 68];
    n[..name.len()].copy_from_slice(name);
    EvtcRawAgent {
        address,
        prof,
        is_elite: elite,
        toughness: 100,
        concentration: 0,
        healing: 0,
        hitbox_width_raw: 48,
        condition: 0,
        hitbox_height_raw: 60,
        name: n,
    }
}

fn agent(address: u64, ty: AgentType, instid: u16, first: i64, last: i64) -> AgentItem {
    AgentItem {
        address,
        name: format!("agent {address}"),
        agent_type: ty,
        spec: if ty == AgentType::Player { Spec::Guardian } else { Spec::Npc },
        base_spec: if ty == AgentType::Player { Spec::Guardian } else { Spec::Npc },
        id: if ty == AgentType::Player { 0 } else { 42 },
        instid,
        toughness: 0,
        healing: 0,
        condition: 0,
        concentration: 0,
        hitbox_width: 0,
        hitbox_height: 0,
        first_aware: first,
        last_aware: last,
        master: NO_AGENT,
        englobing: NO_AGENT,
        englobed: Vec::new(),
        regrouped: Vec::new(),
        is_fake: false,
        is_not_in_squad_friendly_player: false,
        is_unknown: false,
        character: format!("agent {address}"),
        account: if ty == AgentType::Player { Some("acc.1234".to_string()) } else { None },
        group: if ty == AgentType::Player { Some(2) } else { None },
        unamed: false,
    }
}

#[test]
fn raw_player_fields_split_from_name() {
    let mut table = AgentTable::new();
    let id = agent_from_raw(&raw_agent(0x10, 1, 0, b"Hero Name\0:acc.1234\0003"), &mut table);
    let a = table.slot(id).unwrap();
    assert_eq!(a.agent_type, AgentType::Player);
    assert_eq!(a.character, "Hero Name");
    assert_eq!(a.account.as_deref(), Some("acc.1234"));
    assert_eq!(a.group, Some(3));
    assert_eq!(a.spec, Spec::Guardian);
    assert_eq!(a.id, 0);
    assert_eq!(a.hitbox_width, 96);
    assert_eq!(a.hitbox_height, 120);
    assert_eq!(a.first_aware, i64::MAX);
    assert!(!a.unamed);
}

#[test]
fn raw_player_without_subgroup_or_with_dash_is_not_squad() {
    let mut table = AgentTable::new();
    let a = agent_from_raw(&raw_agent(0x10, 1, 0, b"Solo"), &mut table);
    let b = agent_from_raw(&raw_agent(0x11, 1, 0, b"Some-one\0:acc\0001"), &mut table);
    let c = agent_from_raw(&raw_agent(0x12, 1, 0, b"Two\0:acc"), &mut table);
    assert_eq!(table.slot(a).unwrap().agent_type, AgentType::NonSquadPlayer);
    assert_eq!(table.slot(b).unwrap().agent_type, AgentType::NonSquadPlayer);
    assert_eq!(table.slot(b).unwrap().account, None);
    // the padding NULs leave an empty third field
    assert_eq!(table.slot(c).unwrap().agent_type, AgentType::NonSquadPlayer);
    assert_eq!(table.slot(c).unwrap().account, None);
    assert_eq!(table.slot(c).unwrap().character, "Two");
}

#[test]
fn raw_npc_and_gadget_species_ids() {
    let mut table = AgentTable::new();
    let npc = agent_from_raw(&raw_agent(0x20, 0x1234, u32::MAX, b"Foe"), &mut table);
    let gadget = agent_from_raw(&raw_agent(0x21, 0xFFFF_0042, u32::MAX, b"Turret"), &mut table);
    let marked = agent_from_raw_spec(&raw_agent(0x22, 77, u32::MAX, b"ch77-thing"), &mut table, Spec::Npc);
    assert_eq!(table.slot(npc).unwrap().agent_type, AgentType::StableSpecies);
    assert_eq!(table.slot(npc).unwrap().id, 0x1234);
    assert_eq!(table.slot(gadget).unwrap().agent_type, AgentType::VolatileSpecies);
    assert_eq!(table.slot(gadget).unwrap().id, 0x42);
    assert!(table.slot(marked).unwrap().unamed);
    assert_eq!(table.slot(npc).unwrap().character, "Foe");
}

#[test]
fn update_agent_data_spans_and_instids() {
    let mut table = AgentTable::new();
    let id = table.push_agent(agent(0x30, AgentType::StableSpecies, 0, i64::MAX, i64::MAX));
    assert!(update_agent_data(&mut table, id, 500, 7, false));
    assert_eq!(table.slot(id).unwrap().instid, 7);
    assert_eq!((table.slot(id).unwrap().first_aware, table.slot(id).unwrap().last_aware), (500, 500));
    assert!(update_agent_data(&mut table, id, 200, 0, false));
    assert!(update_agent_data(&mut table, id, 900, 7, true));
    assert_eq!((table.slot(id).unwrap().first_aware, table.slot(id).unwrap().last_aware), (200, 900));
    // a different instance id is refused when checked
    assert!(!update_agent_data(&mut table, id, 1000, 8, true));
    assert_eq!(table.slot(id).unwrap().last_aware, 900);
}

#[test]
fn master_found_by_instid() {
    let mut table = AgentTable::new();
    let master = table.push_agent(agent(0x40, AgentType::Player, 5, 0, 1000));
    let minion = table.push_agent(agent(0x41, AgentType::StableSpecies, 6, 0, 1000));
    find_agent_master(&mut table, 100, 5, 0x41);
    assert_eq!(table.slot(minion).unwrap().master, master);
    // a player is nobody's minion
    find_agent_master(&mut table, 100, 6, 0x40);
    assert_eq!(table.slot(master).unwrap().master, NO_AGENT);
}

#[test]
fn custom_and_environment_agents_are_fresh() {
    let mut table = AgentTable::new();
    let p = table.push_agent(agent(0x50, AgentType::Player, 9, 0, 1000));
    let c = add_custom_agent_from(&mut table, p, 10, 20, Spec::Firebrand);
    let a = table.slot(c).unwrap().clone();
    assert_ne!(a.address, 0);
    assert_ne!(a.address, 0x50);
    assert_ne!(a.instid, 0);
    assert_ne!(a.instid, 9);
    assert_eq!((a.first_aware, a.last_aware), (10, 20));
    assert_eq!(a.spec, Spec::Firebrand);
    assert_eq!(a.base_spec, Spec::Guardian);
    assert_eq!(a.account.as_deref(), Some("acc.1234"));
    let mut addresses = vec![0x50, a.address];
    let e = add_environment_agent(&mut table, &mut addresses, 777);
    let env = table.slot(e).unwrap();
    assert_eq!(env.name, "Environment");
    assert_eq!(env.id, ENVIRONMENT);
    assert_eq!((env.first_aware, env.last_aware), (0, 777));
    assert!(env.is_fake);
    assert_eq!(addresses.len(), 3);
    assert!(!addresses[..2].contains(&env.address));
}

#[test]
fn npcs_of_one_instid_merge_without_point_of_view() {
    let mut table = AgentTable::new();
    let a = table.push_agent(agent(0x60, AgentType::StableSpecies, 3, 0, 100));
    let b = table.push_agent(agent(0x60, AgentType::StableSpecies, 3, 200, 300));
    let mut b_item = table.slot(b).unwrap().clone();
    b_item.address = 0x61;
    b_item.name = table.slot(a).unwrap().name.clone();
    *table.slot_mut(b).unwrap() = b_item;
    let mut items = vec![
        row(StateChange::Combat, 50, 0x60, 0),
        row(StateChange::Combat, 250, 0x61, 0),
    ];
    let (npc, non_squad, players) = regroup_same_agents_and_determine_teams(&mut table, &mut items, &Near);
    assert_eq!((npc, non_squad, players), (1, 0, 0));
    assert!(table.slot(a).is_none() && table.slot(b).is_none());
    let merged = table.slot(2).unwrap();
    assert_eq!((merged.first_aware, merged.last_aware), (0, 300));
    assert_eq!(merged.regrouped.len(), 2);
    assert_eq!(items[1].src_agent, 0x60);
}

#[test]
fn players_of_one_account_merge() {
    let mut table = AgentTable::new();
    table.push_agent(agent(0x70, AgentType::Player, 4, 0, 100));
    table.push_agent(agent(0x71, AgentType::Player, 5, 150, 300));
    let mut items = vec![row(StateChange::Combat, 200, 0x71, 0)];
    let (_, _, players) = regroup_same_agents_and_determine_teams(&mut table, &mut items, &Euclid);
    assert_eq!(players, 1);
    assert_eq!(table.len(), 1);
    assert_eq!(items[0].src_agent, 0x70);
}

#[test]
fn player_split_at_subgroup_change() {
    let mut table = AgentTable::new();
    let p = table.push_agent(agent(0x80, AgentType::Player, 4, 0, 10000));
    let mut enter = row(StateChange::EnterCombat, 4000, 0x80, 5);
    enter.value = 1; // Guardian
    enter.buff_dmg = 0;
    let items = vec![enter, row(StateChange::ExitCombat, 3000, 0x80, 0)];
    let mut stats = LinkStats::default();
    split_players_by_enter_combat(&mut table, &items, &NoSpecCatalog, &mut stats);
    assert_eq!(stats.split_pieces_created, 1);
    let root = table.slot(p).unwrap();
    assert_eq!(root.englobed, vec![1, 2]);
    let first = table.slot(1).unwrap();
    let second = table.slot(2).unwrap();
    // the change lies midway between the exit and the enter: (3000 + 1 + 4000) / 2
    assert_eq!((first.first_aware, first.last_aware), (0, 3499));
    assert_eq!((second.first_aware, second.last_aware), (3500, 10000));
    assert_eq!(second.group, Some(2));
    assert_eq!(first.englobing, p);
}

fn wvw_log(agents: Vec<EvtcRawAgent>, items: Vec<EvtcCombatItem>) -> EvtcRawLog {
    EvtcRawLog {
        header_build: 20260530,
        revision: 1,
        id: 1,
        agents,
        skills: vec![EvtcRawSkill { id: 7, name: "Strike".to_string() }],
        combat_events: items,
        agent_redirection: Default::default(),
        enabled_extensions: vec![],
        map_id: 38,
        log_start_offset: 0,
        log_end_time: 9000,
        arc_version: (20260530, 0),
        gw2_build: 0,
        stats: ParseStats::default(),
    }
}

#[test]
fn complete_agents_links_and_adds_unknown() {
    let mut hit = row(StateChange::Combat, 100, 0x10, 0x99);
    hit.src_instid = 3;
    let mut log = wvw_log(vec![raw_agent(0x10, 1, 0, b"Hero\0:acc.1\0001")], vec![hit]);
    let (table, stats) = complete_agents(&mut log, &Near).expect("one player");
    assert_eq!(stats.missing_agents_added, 1);
    let player = table.slot(0).unwrap();
    assert_eq!(player.instid, 3);
    assert_eq!((player.first_aware, player.last_aware), (100, 100));
    let unknown = table.slot(1).unwrap();
    assert_eq!(unknown.name, "UNKNOWN 153");
    assert_eq!((unknown.first_aware, unknown.last_aware), (100, 100));
    assert!(table.iter().iter().any(|&id| table.slot(id).unwrap().name == "Environment"));
}

#[test]
fn complete_agents_without_players_fails() {
    let mut log = wvw_log(vec![raw_agent(0x10, 0x1234, u32::MAX, b"Foe")], vec![row(StateChange::Combat, 100, 0x10, 0)]);
    assert!(matches!(complete_agents(&mut log, &Near), Err(ModelError::NoPlayersFound)));
}

#[test]
fn assemble_lists_players_and_enemy_target() {
    let mut a = row(StateChange::Combat, 100, 0x10, 0);
    a.src_instid = 3;
    let mut b = row(StateChange::Combat, 200, 0x11, 0);
    b.src_instid = 4;
    let mut agents = vec![
        raw_agent(0x10, 1, 0, b"Zed\0:zed.1\0001"),
        raw_agent(0x11, 2, 0, b"Amy\0:amy.2\0002"),
    ];
    agents[1].toughness = 300;
    let parsed = assemble_raw(wvw_log(agents, vec![a, b]), &Near).expect("assembles");
    assert_eq!(parsed.log_data.name, "World vs World - Eternal Battlegrounds");
    assert_eq!(parsed.log_data.main_phase.name, "Full Fight");
    assert_eq!(parsed.players.len(), 2);
    assert_eq!(parsed.players[0].character, "Amy");
    assert_eq!(parsed.players[1].character, "Zed");
    assert_eq!(parsed.players[0].account, "amy.2");
    assert!(!parsed.players[0].squadless);
    assert_eq!(parsed.targets.len(), 1);
    assert_eq!(parsed.targets[0].character, "Enemy Players");
    assert_eq!(parsed.friendlies, vec![Friend::Player(0), Friend::Player(1)]);
    assert_eq!(parsed.skills, vec![(7, "Strike".to_string())]);
    // toughness on the 0-10 scale: 100 -> 0, 300 -> 10
    assert_eq!(parsed.agents.slot(parsed.players[0].agent).unwrap().toughness, 10);
    assert_eq!(parsed.agents.slot(parsed.players[1].agent).unwrap().toughness, 0);
}

#[test]
fn assemble_rejects_other_encounters() {
    let mut a = row(StateChange::Combat, 100, 0x10, 0);
    a.src_instid = 3;
    let mut log = wvw_log(vec![raw_agent(0x10, 1, 0, b"Zed\0:zed.1\0001")], vec![a]);
    log.id = 17;
    assert!(matches!(assemble_raw(log, &Near), Err(ModelError::UnsupportedEncounter { trigger_id: 17 })));
}

#[test]
fn fight_names_of_the_mists() {
    assert_eq!(wvw_fight_name(1099), "World vs World - Red Desert Borderlands");
    assert_eq!(wvw_fight_name(5), "World vs World");
}

#[test]
fn master_cycle_refused() {
    let mut table = AgentTable::new();
    let a = table.push_agent(agent(0x90, AgentType::StableSpecies, 1, 0, 100));
    let b = table.push_agent(agent(0x91, AgentType::StableSpecies, 2, 0, 100));
    table.set_master(a, b);
    assert_eq!(table.slot(a).unwrap().master, b);
    // b under a would close the loop a -> b -> a
    table.set_master(b, a);
    assert_eq!(table.slot(b).unwrap().master, NO_AGENT);
    assert_eq!(table.final_master(a), b);
}

#[test]
fn assemble_without_players_reports_no_players() {
    let log = wvw_log(vec![raw_agent(0x10, 0x1234, u32::MAX, b"Foe")], vec![row(StateChange::Combat, 100, 0x10, 0)]);
    assert!(matches!(assemble_raw(log, &Near), Err(ModelError::NoPlayersFound)));
}

#[test]
fn assemble_player_without_instance_id_is_not_listed() {
    // the row gives no instance id, so the player cannot be listed
    let a = row(StateChange::Combat, 100, 0x10, 0);
    let log = wvw_log(vec![raw_agent(0x10, 1, 0, b"Zed\0:zed.1\0001")], vec![a]);
    assert!(matches!(assemble_raw(log, &Near), Err(ModelError::NoValidPlayers)));
}

#[test]
fn assemble_refuses_old_builds_after_linking() {
    let mut a = row(StateChange::Combat, 100, 0x10, 0);
    a.src_instid = 3;
    let mut log = wvw_log(vec![raw_agent(0x10, 1, 0, b"Zed\0:zed.1\0001")], vec![a]);
    log.arc_version = (20200101, 0);
    assert!(matches!(assemble_raw(log, &Near), Err(ModelError::UnsupportedArcBuild { build: 20200101 })));
}

#[test]
fn assemble_lists_every_seen_player_once() {
    let mut rows = Vec::new();
    let mut agents = Vec::new();
    let names: [&[u8]; 3] = [b"Cid\0:cid.3\0001", b"Bea\0:bea.2\0002", b"Abe\0:abe.1\0001"];
    for (k, name) in names.iter().enumerate() {
        let addr = 0x20 + k as u64;
        let mut r = row(StateChange::Combat, 100 + k as i64, addr, 0);
        r.src_instid = 10 + k as u16;
        rows.push(r);
        agents.push(raw_agent(addr, 1 + k as u32, 0, name));
    }
    let parsed = assemble_raw(wvw_log(agents, rows), &Near).expect("assembles");
    let listed: Vec<&str> = parsed.players.iter().map(|p| p.character.as_str()).collect();
    assert_eq!(listed, vec!["Abe", "Bea", "Cid"]);
    assert!(parsed.friendly_non_squad.is_empty());
}

#[test]
fn error_texts_write_numbers_in_decimal() {
    assert_eq!(
        ModelError::UnsupportedEncounter { trigger_id: 1000 }.message(),
        "trigger id 1000 does not resolve to the WvW path; boss/instance encounter logic is not supported"
    );
    assert!(ModelError::UnsupportedArcBuild { build: 0 }.message().starts_with("ArcDPS build 0 is below"));
    assert!(ModelError::UnsupportedArcBuild { build: -20250430 }.message().starts_with("ArcDPS build -20250430 is below"));
}
