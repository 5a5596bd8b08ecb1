use gw2ei::model::agent::{AgentItem, AgentTable, AgentType, NO_AGENT};
use gw2ei::model::combat_data::CombatData;
use gw2ei::model::events::{CombatEvent, EffectPosition, Region, UnsupportedEventKind};
use gw2ei::model::factory::build_combat_data;
use gw2ei::model::float_bits::{f32_bits_as_i32, f32_bits_as_i64, f32_bits_as_u8, f32_bits_finite};
use gw2ei::model::parsed::{LinkStats, LogData, ParsedLog, PhaseData};
use gw2ei::model::spec::Spec;
use gw2ei::model::stats::{build_event_index, dmg_row};
use gw2ei::parse::enums::{Activation, BuffRemove, Iff, StateChange};
use gw2ei::parse::models::{EvtcCombatItem, EvtcRawAgent, EvtcRawLog, ParseStats};
use gw2ei::model::combat_data::MetaDataBucket;

fn row(state: StateChange, time: i64) -> EvtcCombatItem {
    EvtcCombatItem {
        time,
        src_agent: 0x1111,
        dst_agent: 0x2222,
        value: 0,
        buff_dmg: 0,
        overstack_value: 0,
        skill_id: 7,
        src_instid: 1,
        dst_instid: 2,
        src_master_instid: 0,
        dst_master_instid: 0,
        iff: Iff::Friend,
        iff_raw: 0,
        buff: 0,
        result: 0,
        activation: Activation::NotSet,
        activation_raw: 0,
        buff_remove: BuffRemove::NotSet,
        buff_remove_raw: 0,
        is_ninety: 0,
        is_fifty: 0,
        is_moving: 0,
        state_change: state,
        state_change_raw: state.to_byte(),
        is_flanking: 0,
        is_shields: 0,
        is_offcycle: 0,
        pad: 0,
    }
}

fn raw_agent(address: u64, prof: u32, is_elite: u32) -> EvtcRawAgent {
    EvtcRawAgent {
        address,
        prof,
        is_elite,
        toughness: 0,
        concentration: 0,
        healing: 0,
        hitbox_width_raw: 0,
        condition: 0,
        hitbox_height_raw: 0,
        name: [0u8; 68],
    }
}

fn log_of(items: Vec<EvtcCombatItem>, build: i32) -> EvtcRawLog {
    EvtcRawLog {
        header_build: build,
        revision: 1,
        id: 2,
        agents: vec![raw_agent(0x1111, 1, 0), raw_agent(0x2222, 0x1234, u32::MAX)],
        skills: vec![],
        combat_events: items,
        agent_redirection: Default::default(),
        enabled_extensions: vec![],
        map_id: -1,
        log_start_offset: 5000,
        log_end_time: 8000,
        arc_version: (build, 0),
        gw2_build: 0,
        stats: ParseStats::default(),
    }
}

fn eventize(items: Vec<EvtcCombatItem>) -> CombatData {
    build_combat_data(log_of(items, 20260530)).expect("eventize")
}

#[test]
fn events_come_out_in_stable_time_order() {
    let mut a = row(StateChange::ChangeDead, 300);
    a.src_agent = 0xA;
    let mut b = row(StateChange::ChangeDown, 100);
    b.src_agent = 0xB;
    let mut c = row(StateChange::ChangeUp, 300);
    c.src_agent = 0xC;
    let data = eventize(vec![a, b, c]);
    let times: Vec<i64> = data.events.iter().map(|e| e.time().unwrap()).collect();
    assert_eq!(times, vec![100, 300, 300]);
    assert!(matches!(data.events[0], CombatEvent::Down(_)));
    assert!(matches!(data.events[1], CombatEvent::Dead(_)));
    assert!(matches!(data.events[2], CombatEvent::Alive(_)));
}

#[test]
fn per_agent_and_per_id_counts() {
    let mut hit = row(StateChange::Combat, 5000);
    hit.value = 10;
    let mut hit2 = row(StateChange::Combat, 5100);
    hit2.value = 20;
    hit2.skill_id = 9;
    let data = eventize(vec![hit, hit2]);
    assert_eq!(data.per_agent_counts.get(&0x1111), Some(&2));
    assert_eq!(data.per_agent_counts.get(&0x2222), Some(&2));
    assert_eq!(data.per_id_counts.get(&7), Some(&1));
    assert_eq!(data.per_id_counts.get(&9), Some(&1));
}

#[test]
fn barrier_over_100_is_zero() {
    let mut r = row(StateChange::BarrierUpdate, 5000);
    r.dst_agent = 10001;
    let data = eventize(vec![r]);
    match &data.events[0] {
        CombatEvent::BarrierUpdate(e) => assert_eq!(e.percent_hundredths, 0),
        other => panic!("unexpected {other:?}"),
    }
}

#[test]
fn visibility_from_stealth_rows_dedup() {
    let mut a = row(StateChange::StealthChange, 5000);
    a.dst_agent = 1;
    let mut b = row(StateChange::StealthChange, 5100);
    b.dst_agent = 1;
    let mut c = row(StateChange::StealthChange, 5200);
    c.dst_agent = 0;
    let mut d = row(StateChange::StealthChange, 5300);
    d.dst_agent = 7;
    let data = eventize(vec![a, b, c, d]);
    assert_eq!(data.counts.visibility, 2);
    assert_eq!(data.events.len(), 2);
}

#[test]
fn metadata_singletons_and_lists() {
    let mut lang = row(StateChange::Language, 0);
    lang.src_agent = 2;
    let mut build = row(StateChange::GWBuild, 0);
    build.src_agent = 0;
    let mut shard = row(StateChange::ShardID, 0);
    shard.src_agent = 55;
    shard.value = 2005;
    let mut start = row(StateChange::InstanceStart, 0);
    start.src_agent = 1000;
    start.value = 0x0A000001;
    let mut reward = row(StateChange::Reward, 7000);
    reward.dst_agent = 42;
    reward.value = 3;
    let data = eventize(vec![lang, build, shard, start, reward]);
    assert_eq!(data.metadata.gw2_build, None);
    assert_eq!(data.counts.dropped_by_cs, 1);
    let s = data.metadata.shard.expect("shard");
    assert_eq!(s.shard_id, 55);
    assert_eq!(s.region, Region::Eu);
    let i = data.metadata.instance_start.expect("instance start");
    assert_eq!(i.instance_ip, Some([10, 0, 0, 1]));
    assert_eq!(i.time_offset_from_instance_creation, 4000);
    assert_eq!(data.metadata.rewards.len(), 1);
    assert_eq!(data.metadata.rewards[0].reward_id, 42);
    assert_eq!(data.counts.metadata_singletons, 3);
    assert_eq!(data.counts.metadata_list, 1);
}

#[test]
fn guild_key_formatting() {
    let mut g = row(StateChange::Guild, 0);
    g.dst_agent = 0x0807_0605_0403_0201;
    g.value = i32::from_le_bytes([0x09, 0x0A, 0x0B, 0x0C]);
    g.buff_dmg = i32::from_le_bytes([0x0D, 0x0E, 0x0F, 0x10]);
    let data = eventize(vec![g]);
    assert_eq!(data.metadata.guilds[0].guild_key_hex, "04030201-0605-0807-090A-0B0C0D0E0F10");
}

#[test]
fn error_row_message() {
    let mut e = row(StateChange::Integrity, 0);
    let bytes = *b"abcdefghijklmnopqrstuvwxyz012345";
    e.time = i64::from_le_bytes(bytes[0..8].try_into().unwrap());
    e.src_agent = u64::from_le_bytes(bytes[8..16].try_into().unwrap());
    e.dst_agent = u64::from_le_bytes(bytes[16..24].try_into().unwrap());
    e.value = i32::from_le_bytes(bytes[24..28].try_into().unwrap());
    e.buff_dmg = i32::from_le_bytes(bytes[28..32].try_into().unwrap());
    let data = eventize(vec![e]);
    assert_eq!(data.metadata.errors[0].message, "abcdefghijklmnopqrstuvwxyz012345");
}

#[test]
fn skill_info_and_timing_merge() {
    let mut info = row(StateChange::SkillInfo, 0);
    info.skill_id = 5;
    info.time = i64::from_le_bytes([1.5f32.to_le_bytes(), 2.0f32.to_le_bytes()].concat().try_into().unwrap());
    let mut timing = row(StateChange::SkillTiming, 0);
    timing.skill_id = 5;
    timing.src_agent = 4;
    timing.dst_agent = 250;
    let data = eventize(vec![info, timing]);
    let e = data.metadata.skill_info_by_id.get(&5).expect("skill 5");
    assert_eq!(f32::from_bits(e.recharge_bits), 1.5);
    assert_eq!(f32::from_bits(e.range0_bits), 2.0);
    assert_eq!(e.timings.len(), 1);
    assert_eq!(e.timings[0].at_millisecond, 250);
}

#[test]
fn effect_start_and_end_pair_by_tracking() {
    let mut start = row(StateChange::EffectGroundCreate, 5000);
    start.skill_id = 900;
    start.pad = 33;
    start.dst_agent = u64::from_le_bytes([0x0A, 0x00, 0xF6, 0xFF, 0x03, 0x00, 0, 0]);
    start.iff_raw = 0xE8;
    start.buff = 0x03;
    let mut end = row(StateChange::EffectGroundRemove, 6000);
    end.pad = 33;
    let mut end2 = row(StateChange::EffectGroundRemove, 6500);
    end2.pad = 33;
    let data = eventize(vec![start, end, end2]);
    match &data.events[0] {
        CombatEvent::Effect(e) => {
            assert_eq!(e.effect_id, 900);
            assert_eq!(e.duration, 1000);
            assert_eq!(e.end_time, Some(6000));
            assert_eq!(e.dst, 0);
            assert_eq!(e.position, EffectPosition::Whole { x: 100, y: -100, z: 30 });
        }
        other => panic!("unexpected {other:?}"),
    }
    assert_eq!(data.events.len(), 1);
}

#[test]
fn effect_on_moving_platform_left_out() {
    let mut start = row(StateChange::EffectAgentCreate, 5000);
    start.is_flanking = 1;
    let data = eventize(vec![start]);
    assert_eq!(data.events.len(), 0);
}

#[test]
fn unsupported_and_extension_rows_counted() {
    let m = row(StateChange::SquadMarker, 0);
    let g = row(StateChange::GadgetCaptureSplitPercent, 0);
    let x = row(StateChange::Extension, 0);
    let data = eventize(vec![m, g, x]);
    assert_eq!(data.unsupported.get(UnsupportedEventKind::SquadMarker), 1);
    assert_eq!(data.unsupported.get(UnsupportedEventKind::GadgetCapture), 1);
    assert_eq!(data.unsupported.get(UnsupportedEventKind::Extension), 1);
    assert_eq!(data.events.len(), 0);
}

#[test]
fn overlapping_casts_of_an_agent_are_cut() {
    let mut s1 = row(StateChange::AnimationStart, 5000);
    s1.buff_dmg = 3000;
    s1.src_agent = 0x2222;
    let mut s2 = row(StateChange::AnimationStart, 5500);
    s2.buff_dmg = 1000;
    s2.skill_id = 8;
    s2.src_agent = 0x2222;
    let data = eventize(vec![s1, s2]);
    assert_eq!(data.counts.animated_cast, 2);
    match &data.events[0] {
        CombatEvent::AnimatedCast(e) => {
            assert_eq!(e.time, 5000);
            assert_eq!(e.actual_duration, 650);
        }
        other => panic!("unexpected {other:?}"),
    }
}

#[test]
fn dodge_without_end_lasts_750() {
    let mut s = row(StateChange::AnimationStart, 5000);
    s.skill_id = 23275;
    s.src_agent = 0x2222;
    let data = eventize(vec![s]);
    match &data.events[0] {
        CombatEvent::AnimatedCast(e) => {
            assert_eq!(e.expected_duration, 750);
            assert_eq!(e.actual_duration, 750);
        }
        other => panic!("unexpected {other:?}"),
    }
}

#[test]
fn f32_conversions_follow_as_casts() {
    for v in [0.0f32, -0.5, 1.9, -1.9, 255.7, 300.0, -7.0, 1e20, -1e20, f32::INFINITY, f32::NEG_INFINITY, f32::NAN, 1e-40] {
        let b = v.to_bits();
        assert_eq!(f32_bits_as_i64(b), v as i64);
        assert_eq!(f32_bits_as_i32(b), v as i32);
        assert_eq!(f32_bits_as_u8(b), v as u8);
        assert_eq!(f32_bits_finite(b), v.is_finite());
    }
}

fn agent(address: u64, first: i64, last: i64, agent_type: AgentType, id: i32) -> AgentItem {
    AgentItem {
        address,
        name: String::new(),
        agent_type,
        spec: Spec::Npc,
        base_spec: Spec::Npc,
        id,
        instid: 1,
        toughness: 0,
        healing: 0,
        condition: 0,
        concentration: 0,
        hitbox_width: 0,
        hitbox_height: 0,
        first_aware: first,
        last_aware: last,
        master: NO_AGENT,
        englobing: NO_AGENT,
        englobed: Vec::new(),
        regrouped: Vec::new(),
        is_fake: false,
        is_not_in_squad_friendly_player: false,
        is_unknown: false,
        character: String::new(),
        account: None,
        group: None,
        unamed: false,
    }
}

fn parsed(agents: AgentTable, events: Vec<CombatEvent>) -> ParsedLog {
    ParsedLog {
        arc_version: (20260530, 0),
        agents,
        link_stats: LinkStats::default(),
        log_data: LogData {
            trigger_id: 1,
            log_start: 0,
            log_end: 10_000,
            evtc_log_end: 10_000,
            map_id: 0,
            name: String::new(),
            main_phase: PhaseData { start: 0, end: 10_000, name: String::new(), targets: vec![] },
            dummy_target_agent: NO_AGENT,
        },
        players: vec![],
        friendly_non_squad: vec![],
        targets: vec![],
        friendlies: vec![],
        events,
        metadata: MetaDataBucket::new(),
        skills: vec![],
    }
}

#[test]
fn event_index_resolves_and_adds_kills() {
    let mut table = AgentTable::new();
    let a = table.push_agent(agent(0x1111, 0, 10_000, AgentType::Player, 0));
    let b = table.push_agent(agent(0x2222, 0, 10_000, AgentType::StableSpecies, 1234));
    let mut killing = row(StateChange::Combat, 4000);
    killing.result = 8;
    let mut direct = row(StateChange::Combat, 3000);
    direct.value = 50;
    let data = eventize(vec![direct, killing]);
    let log = parsed(table, data.events);
    let idx = build_event_index(&log);
    assert_eq!(idx.damage_from.get(&a), Some(&vec![0, 1]));
    assert_eq!(idx.damage_to.get(&b), Some(&vec![0, 1]));
    assert_eq!(idx.dead.get(&b), Some(&vec![1]));
    assert_eq!(idx.unresolved, 0);
    let r = dmg_row(&log.events[0], a, b).expect("damage row");
    assert_eq!(r.health_damage, 50);
    assert_eq!(r.condition_based, Some(false));
    assert!(r.to_friendly);
    assert!(dmg_row(&log.events[1], a, b).expect("row").has_killed);
}
