use gw2ei::parse::arc_build::parse_arc_build_payload;
use gw2ei::parse::enums::{Iff, LogType, StateChange};
use gw2ei::parse::error::EvtcError;
use gw2ei::parse::log_reader::{parse_evtc_log, read_combat_item_rev0, read_combat_item_rev1};
use gw2ei::parse::models::EvtcCombatItem;
use gw2ei::parse::reader::Reader;

fn header(revision: u8) -> Vec<u8> {
    let mut v = Vec::new();
    v.extend_from_slice(b"EVTC20260507");
    v.push(revision);
    v.extend_from_slice(&2u16.to_le_bytes());
    v.push(0);
    v
}

fn agent_entry(name: &[u8]) -> Vec<u8> {
    let mut v = Vec::new();
    v.extend_from_slice(&0x1122334455667788u64.to_le_bytes());
    v.extend_from_slice(&1u32.to_le_bytes());
    v.extend_from_slice(&0xFFFFFFFFu32.to_le_bytes());
    v.extend_from_slice(&1000u16.to_le_bytes());
    v.extend_from_slice(&2000u16.to_le_bytes());
    v.extend_from_slice(&3000u16.to_le_bytes());
    v.extend_from_slice(&4000u16.to_le_bytes());
    v.extend_from_slice(&5000u16.to_le_bytes());
    v.extend_from_slice(&6000u16.to_le_bytes());
    assert!(name.len() <= 68, "agent name must fit in 68 bytes");
    v.extend_from_slice(name);
    v.resize(96, 0);
    v
}

fn skill_entry(id: u32, name: &[u8]) -> Vec<u8> {
    let mut v = Vec::new();
    v.extend_from_slice(&id.to_le_bytes());
    assert!(name.len() <= 64, "skill name must fit in 64 bytes");
    v.extend_from_slice(name);
    v.resize(68, 0);
    v
}

#[allow(clippy::too_many_arguments)]
fn combat_rev1(
    time: i64,
    src: u64,
    dst: u64,
    value: i32,
    buff_dmg: i32,
    overstack: u32,
    skill: u32,
    s_inst: u16,
    d_inst: u16,
    s_master: u16,
    d_master: u16,
    iff: u8,
    buff: u8,
    result: u8,
    activation: u8,
    buff_remove: u8,
    n90: u8,
    n50: u8,
    moving: u8,
    state: u8,
    flanking: u8,
    shields: u8,
    offcycle: u8,
    pad: u32,
) -> Vec<u8> {
    let mut v = Vec::new();
    for x in [
        time.to_le_bytes().as_slice(),
        src.to_le_bytes().as_slice(),
        dst.to_le_bytes().as_slice(),
        value.to_le_bytes().as_slice(),
        buff_dmg.to_le_bytes().as_slice(),
        overstack.to_le_bytes().as_slice(),
        skill.to_le_bytes().as_slice(),
        s_inst.to_le_bytes().as_slice(),
        d_inst.to_le_bytes().as_slice(),
        s_master.to_le_bytes().as_slice(),
        d_master.to_le_bytes().as_slice(),
        &[iff],
        &[buff],
        &[result],
        &[activation],
        &[buff_remove],
        &[n90],
        &[n50],
        &[moving],
        &[state],
        &[flanking],
        &[shields],
        &[offcycle],
        pad.to_le_bytes().as_slice(),
    ] {
        v.extend_from_slice(x);
    }
    assert_eq!(v.len(), 64);
    v
}

fn plain_combat_rev1(time: i64) -> Vec<u8> {
    combat_rev1(
        time, 0x1122334455667788, 0, 100, 0, 0, 7, 1, 0, 0, 0, 0, 0, 0, 0, 0, 0, 0, 0, 0, 0, 0, 0,
        0,
    )
}

fn read_item_from(bytes: &[u8], revision: u8) -> EvtcCombatItem {
    let mut r = Reader::new(bytes);
    if revision > 0 {
        read_combat_item_rev1(&mut r)
    } else {
        read_combat_item_rev0(&mut r)
    }
}

#[test]
fn parses_valid_rev1_log() {
    let mut bytes = header(1);
    bytes.extend_from_slice(&1u32.to_le_bytes());
    bytes.extend_from_slice(&agent_entry(b"NPC some foe"));
    bytes.extend_from_slice(&1u32.to_le_bytes());
    bytes.extend_from_slice(&skill_entry(7, b"Fireball\0rest"));
    bytes.extend_from_slice(&plain_combat_rev1(500000));
    bytes.extend_from_slice(&plain_combat_rev1(504000));
    let log = parse_evtc_log(&bytes).expect("synthetic test bytes must parse");
    assert_eq!(log.header_build, 20260507);
    assert_eq!(log.revision, 1);
    assert_eq!(log.id, 2);
    assert_eq!(log.stats.raw_agent_count, 1);
    assert_eq!(log.stats.raw_skill_count, 1);
    assert_eq!(log.stats.raw_combat_count, 2);
    assert_eq!(log.stats.kept_combat_count, 2);
    assert_eq!(log.log_start_offset, 500000);
    assert_eq!(log.log_end_time, 4000);
    assert_eq!(log.combat_events[0].time, 0);
    assert_eq!(log.combat_events[1].time, 4000);
    assert_eq!(log.agents[0].address, 0x1122334455667788);
    assert_eq!(log.agents[0].name_cstr(), b"NPC some foe");
    assert_eq!(log.agents[0].name.len(), 68);
    assert_eq!(log.skills[0].name, "Fireball");
    assert_eq!(log.skills[0].id, 7);
}

#[test]
fn rejects_bad_magic_and_bad_version() {
    let mut bytes = header(1);
    bytes[0] = b'X';
    assert!(matches!(parse_evtc_log(&bytes), Err(EvtcError::NotEvtc)));
    let mut bytes = header(1);
    bytes[4..12].copy_from_slice(b"abcdefgh");
    assert!(matches!(parse_evtc_log(&bytes), Err(EvtcError::NotEvtc)));
    let bytes = &header(1)[..10];
    assert!(matches!(parse_evtc_log(bytes), Err(EvtcError::UnexpectedEnd { .. })));
}

#[test]
fn revision_0_layout_with_garbage_skip() {
    let mut row = Vec::new();
    row.extend_from_slice(&300000i64.to_le_bytes());
    row.extend_from_slice(&0x11u64.to_le_bytes());
    row.extend_from_slice(&0x22u64.to_le_bytes());
    row.extend_from_slice(&5i32.to_le_bytes());
    row.extend_from_slice(&6i32.to_le_bytes());
    row.extend_from_slice(&0xABCDu16.to_le_bytes());
    row.extend_from_slice(&7u16.to_le_bytes());
    row.extend_from_slice(&8u16.to_le_bytes());
    row.extend_from_slice(&9u16.to_le_bytes());
    row.extend_from_slice(&10u16.to_le_bytes());
    row.extend_from_slice(&[0xAA; 9]);
    row.extend_from_slice(&[1, 0, 0, 0, 0, 0, 0, 0, 0, 0, 0, 0]);
    row.extend_from_slice(&[0xBB]);
    assert_eq!(row.len(), 64);

    let mut row2 = row.clone();
    row2[0..8].copy_from_slice(&600000i64.to_le_bytes());
    let mut bytes = header(0);
    bytes.extend_from_slice(&0u32.to_le_bytes());
    bytes.extend_from_slice(&0u32.to_le_bytes());
    bytes.extend_from_slice(&row);
    bytes.extend_from_slice(&row2);
    let log = parse_evtc_log(&bytes).expect("synthetic test bytes must parse");
    assert_eq!(log.stats.raw_combat_count, 2);
    let evt = &log.combat_events[0];
    assert_eq!(evt.time, 0);
    assert_eq!(evt.dst_master_instid, 0);
    assert_eq!(evt.pad, 0);
    assert_eq!(evt.overstack_value, 0xABCD);
    assert_eq!(evt.skill_id, 7);
    assert_eq!(evt.iff, Iff::Foe);
    assert_eq!(evt.skill_id, 7);
}

#[test]
fn revision_255_reads_as_rev1() {
    let mut bytes = header(255);
    bytes.extend_from_slice(&0u32.to_le_bytes());
    bytes.extend_from_slice(&0u32.to_le_bytes());
    bytes.extend_from_slice(&combat_rev1(
        300000, 0x11, 0, 10, 0, 0, 0, 1, 0, 0, 0, 0, 0, 0, 0, 0, 0, 0, 0, 0, 0, 0, 0, 0,
    ));
    bytes.extend_from_slice(&combat_rev1(
        305000, 0x11, 0, 20, 0, 0, 0, 1, 0, 0, 0, 0, 0, 0, 0, 0, 0, 0, 0, 0, 0, 0, 0, 0,
    ));
    let log = parse_evtc_log(&bytes).expect("synthetic test bytes must parse");
    assert_eq!(log.revision, 255);
    assert_eq!(log.combat_events.len(), 2);
    assert_eq!(log.combat_events[0].value, 10);
    assert_eq!(log.combat_events[0].time, 0);
    assert_eq!(log.combat_events[1].time, 5000);
}

#[test]
fn arc_build_payload_parsing() {
    let mut row = combat_rev1(
        0, 0, 0, 0, 0, 0, 0, 0, 0, 0, 0, 0, 0, 0, 0, 0, 0, 0, 0,
        StateChange::ArcBuild.to_byte(), 0, 0, 0, 0,
    );
    let text = b"20260530.1";
    row[8..8 + text.len()].copy_from_slice(text);
    let mut item = read_item_from(&row, 1);
    item.state_change = StateChange::from_byte(StateChange::ArcBuild.to_byte());
    let parsed = parse_arc_build_payload(&item).expect("synthetic test bytes must parse");
    assert_eq!(parsed, (20260530, 1));

    let text = b"EVTC20260530.1";
    row[8..8 + text.len()].copy_from_slice(text);
    let mut item = read_item_from(&row, 1);
    item.state_change = StateChange::from_byte(StateChange::ArcBuild.to_byte());
    assert!(parse_arc_build_payload(&item).is_none());

    let text = b"20260530";
    row[8..8 + text.len()].copy_from_slice(text);
    let mut item = read_item_from(&row, 1);
    item.state_change = StateChange::from_byte(StateChange::ArcBuild.to_byte());
    assert!(parse_arc_build_payload(&item).is_none());
}

#[test]
fn arc_build_event_sets_version_and_is_consumed() {
    let row = plain_combat_rev1(700000);
    let row2 = plain_combat_rev1(703000);
    let mut arc_row = combat_rev1(
        3000, 0, 0, 0, 0, 0, 0, 0, 0, 0, 0, 0, 0, 0, 0, 0, 0, 0, 0,
        StateChange::ArcBuild.to_byte(), 0, 0, 0, 0,
    );
    let text = b"20260602.2";
    arc_row[8..8 + text.len()].copy_from_slice(text);

    let mut bytes = header(1);
    bytes.extend_from_slice(&0u32.to_le_bytes());
    bytes.extend_from_slice(&0u32.to_le_bytes());
    bytes.extend_from_slice(&arc_row);
    bytes.extend_from_slice(&row);
    bytes.extend_from_slice(&row2);
    let log = parse_evtc_log(&bytes).expect("synthetic test bytes must parse");
    assert_eq!(log.arc_version, (20260602, 2));
    assert_eq!(log.combat_events.len(), 2);
    assert_eq!(log.log_start_offset, 700000);
    assert_eq!(log.combat_events[0].time, 0);
    assert_eq!(log.log_end_time, 3000);
}

#[test]
fn too_short_rejected() {
    let mut bytes = header(1);
    bytes.extend_from_slice(&0u32.to_le_bytes());
    bytes.extend_from_slice(&0u32.to_le_bytes());
    bytes.extend_from_slice(&plain_combat_rev1(100));
    let err = parse_evtc_log(&bytes).expect_err("synthetic bytes must fail");
    assert!(matches!(err, EvtcError::TooShort { .. }), "unexpected {err:?}");
}

#[test]
fn no_combat_events_rejected() {
    let mut bytes = header(1);
    bytes.extend_from_slice(&0u32.to_le_bytes());
    bytes.extend_from_slice(&0u32.to_le_bytes());
    bytes.extend_from_slice(&combat_rev1(
        1000, 0, 0, 0, 0, 0, 0, 0, 0, 0, 0, 0, 0, 0, 0, 0, 0, 0, 0,
        StateChange::Jump.to_byte(), 0, 0, 0, 0,
    ));
    assert!(matches!(parse_evtc_log(&bytes), Err(EvtcError::NoCombatEvents)));
}

#[test]
fn empty_event_and_map_mismatch_filters() {
    let empty = combat_rev1(1000, 0, 0, 0, 0, 0, 0, 0, 0, 0, 0, 2, 0, 0, 0, 0, 0, 0, 0,
        0, 0, 0, 0, 0);
    let mut bytes = header(1);
    bytes.extend_from_slice(&0u32.to_le_bytes());
    bytes.extend_from_slice(&0u32.to_le_bytes());
    bytes.extend_from_slice(&empty);
    bytes.extend_from_slice(&plain_combat_rev1(300000));
    bytes.extend_from_slice(&plain_combat_rev1(305000));
    let log = parse_evtc_log(&bytes).expect("synthetic test bytes must parse");
    assert_eq!(log.stats.kept_combat_count, 2);
    assert_eq!(log.stats.discarded.empty_event, 1);
    assert_eq!(log.stats.discarded.total(), 1);
}

#[test]
fn health_update_over_200_percent_dropped() {
    let mut bad = combat_rev1(
        100000, 0x11, 0, 0, 0, 0, 0, 1, 0, 0, 0, 1, 0, 0, 0, 0, 0, 0, 0,
        StateChange::HealthUpdate.to_byte(), 0, 0, 0, 0,
    );
    bad[16..24].copy_from_slice(&20050u64.to_le_bytes());
    let mut good = combat_rev1(
        105000, 0x11, 0, 0, 0, 0, 0, 1, 0, 0, 0, 1, 0, 0, 0, 0, 0, 0, 0,
        StateChange::HealthUpdate.to_byte(), 0, 0, 0, 0,
    );
    good[16..24].copy_from_slice(&20000u64.to_le_bytes());
    let mut bytes = header(1);
    bytes.extend_from_slice(&0u32.to_le_bytes());
    bytes.extend_from_slice(&0u32.to_le_bytes());
    bytes.extend_from_slice(&bad);
    bytes.extend_from_slice(&good);
    bytes.extend_from_slice(&plain_combat_rev1(500000));
    let log = parse_evtc_log(&bytes).expect("synthetic test bytes must parse");
    assert_eq!(log.combat_events.len(), 2);
    assert_eq!(log.stats.discarded.invalid_health_update, 1);
    assert_eq!(log.combat_events[0].time, 0);
    assert_eq!(log.log_start_offset, 105000);
    assert_eq!(log.log_end_time, 395000);
}

#[test]
fn agent_change_collected_but_not_in_stream() {
    let change = combat_rev1(
        1000, 0xAAAABBBBCCCCDDDD, 0x1111222233334444, 0, 0, 0, 0, 0, 0, 0, 0, 0, 0,
        0, 0, 0, 0, 0, 0, StateChange::AgentChange.to_byte(), 0, 0, 0, 0,
    );
    let mut bytes = header(1);
    bytes.extend_from_slice(&0u32.to_le_bytes());
    bytes.extend_from_slice(&0u32.to_le_bytes());
    bytes.extend_from_slice(&change);
    bytes.extend_from_slice(&plain_combat_rev1(300000));
    bytes.extend_from_slice(&plain_combat_rev1(305000));
    let log = parse_evtc_log(&bytes).expect("synthetic test bytes must parse");
    assert_eq!(log.combat_events.len(), 2);
    assert_eq!(
        log.agent_redirection.get(&0xAAAABBBBCCCCDDDD),
        Some(&0x1111222233334444)
    );
    assert_eq!(log.stats.discarded.unsupported_state_change, 1);
}

#[test]
fn squad_combat_end_trims_to_extensions() {
    let mut bytes = header(1);
    bytes[13..15].copy_from_slice(&3u16.to_le_bytes());
    bytes.extend_from_slice(&0u32.to_le_bytes());
    bytes.extend_from_slice(&0u32.to_le_bytes());
    let start = combat_rev1(100000, 0, LogType::Generic.to_byte() as u64, 100, 200, 0, 0, 0, 0, 0,
        0, 0, 0, 0, 0, 0, 0, 0, 0, StateChange::SquadCombatStart.to_byte(), 0, 0, 0, 0);
    let end = combat_rev1(200000, 0, 1, 100, 200, 0, 0, 0, 0, 0, 0, 0, 0, 0, 0, 0, 0,
        0, 0, StateChange::SquadCombatEnd.to_byte(), 0, 0, 0, 0);
    let after = plain_combat_rev1(300000);
    bytes.extend_from_slice(&start);
    bytes.extend_from_slice(&end);
    bytes.extend_from_slice(&after);
    let log = parse_evtc_log(&bytes).expect("synthetic test bytes must parse");
    assert_eq!(log.combat_events.len(), 2);
    assert_eq!(log.stats.discarded.after_log_end, 1);
}

#[test]
fn extension_registration_and_keep() {
    let mut meta = combat_rev1(500, 0, 0, 0, 0, 0, 0, 0, 0, 0, 0, 0, 0, 0, 0, 0, 0,
        0, 0, StateChange::Extension.to_byte(), 0, 0, 0, 0);
    let src = (1u64 << 32) | 0x9c9b3c99u64;
    meta[8..16].copy_from_slice(&src.to_le_bytes());
    let row = combat_rev1(900, 0xAA, 0, 10, 0, 0, 0, 0, 0, 0, 0, 0, 0, 0, 0, 0, 0, 0,
        0, StateChange::Extension.to_byte(), 0, 0, 0, 0x9c9b3c99);
    let mut bytes = header(1);
    bytes.extend_from_slice(&0u32.to_le_bytes());
    bytes.extend_from_slice(&0u32.to_le_bytes());
    bytes.extend_from_slice(&meta);
    bytes.extend_from_slice(&row);
    bytes.extend_from_slice(&plain_combat_rev1(400000));
    bytes.extend_from_slice(&plain_combat_rev1(405000));
    let log = parse_evtc_log(&bytes).expect("synthetic test bytes must parse");
    assert_eq!(log.enabled_extensions, vec![0x9c9b3c99]);
    assert_eq!(log.combat_events.len(), 3);
    assert_eq!(log.combat_events[0].state_change, StateChange::Extension);
    assert_eq!(log.stats.discarded.extension_metadata, 1);
    assert_eq!(log.combat_events[0].time, 900 - 400000);
}

#[test]
fn counts_add_up_over_kept_dropped_and_build_rows() {
    let empty = combat_rev1(1000, 0, 0, 0, 0, 0, 0, 0, 0, 0, 0, 2, 0, 0, 0, 0, 0, 0, 0,
        0, 0, 0, 0, 0);
    let mut arc_row = combat_rev1(
        3000, 0, 0, 0, 0, 0, 0, 0, 0, 0, 0, 0, 0, 0, 0, 0, 0, 0, 0,
        StateChange::ArcBuild.to_byte(), 0, 0, 0, 0,
    );
    arc_row[8..18].copy_from_slice(b"20260602.2");
    let mut bytes = header(1);
    bytes.extend_from_slice(&0u32.to_le_bytes());
    bytes.extend_from_slice(&0u32.to_le_bytes());
    bytes.extend_from_slice(&empty);
    bytes.extend_from_slice(&arc_row);
    bytes.extend_from_slice(&plain_combat_rev1(300000));
    bytes.extend_from_slice(&plain_combat_rev1(305000));
    bytes.extend_from_slice(&[1, 2, 3]);
    let log = parse_evtc_log(&bytes).expect("synthetic test bytes must parse");
    let s = log.stats;
    assert_eq!(s.raw_combat_count, 4);
    assert_eq!(s.kept_combat_count as u64 + s.discarded.total() + s.arc_build_consumed, s.raw_combat_count);
    assert_eq!(s.arc_build_consumed, 1);
}

#[test]
fn truncated_agent_table_reports_first_missing_field() {
    let mut bytes = header(1);
    bytes.extend_from_slice(&1u32.to_le_bytes());
    bytes.extend_from_slice(&[0u8; 10]);
    match parse_evtc_log(&bytes) {
        Err(EvtcError::UnexpectedEnd { position, required, remaining }) => {
            assert_eq!(position, 28);
            assert_eq!(required, 4);
            assert_eq!(remaining, 2);
        }
        other => panic!("unexpected result: {:?}", other.map(|l| l.id)),
    }
}

#[test]
fn too_long_rejected() {
    let mut bytes = header(1);
    bytes.extend_from_slice(&0u32.to_le_bytes());
    bytes.extend_from_slice(&0u32.to_le_bytes());
    bytes.extend_from_slice(&plain_combat_rev1(0));
    bytes.extend_from_slice(&plain_combat_rev1(86_400_001));
    assert!(matches!(parse_evtc_log(&bytes), Err(EvtcError::TooLong)));
}

fn map_id_row(time: i64, map: u64) -> Vec<u8> {
    combat_rev1(time, map, 0, 0, 0, 0, 0, 0, 0, 0, 0, 0, 0, 0, 0, 0, 0, 0, 0, 25, 0, 0, 0, 0)
}

#[test]
fn map_id_is_the_first_map_row() {
    let mut bytes = header(1);
    bytes.extend_from_slice(&0u32.to_le_bytes());
    bytes.extend_from_slice(&0u32.to_le_bytes());
    bytes.extend_from_slice(&map_id_row(300000, 1234));
    bytes.extend_from_slice(&plain_combat_rev1(300000));
    bytes.extend_from_slice(&plain_combat_rev1(305000));
    bytes.extend_from_slice(&map_id_row(305000, 5678));
    let log = parse_evtc_log(&bytes).expect("synthetic test bytes must parse");
    assert_eq!(log.map_id, 1234);
}
