use gw2ei::parse::enums::BuffStackType as B;
use gw2ei::semantics::sim::{AgentKey, SimCmd, SimResult, Simulator, WasteEvent};
use gw2ei::semantics::stats::{clamped, fuse_segments, phase_distrib, srcs_of, total_value};
use gw2ei::model::stats::{status_segments, Span};

fn run(events: Vec<SimCmd<u32>>, stack_type: B, capacity: i64, log_end: i64) -> SimResult<u32> {
    let mut sim = Simulator::new(stack_type, capacity, Vec::new());
    sim.simulate(&events, 0, log_end);
    sim.result
}

fn add(dur: i64, src: u32, start: i64) -> SimCmd<u32> {
    SimCmd::Add { duration: dur, src, start, stack_id: 0, added_active: false, overriden_duration: 0, overriden_stack_id: 0 }
}

#[test]
fn duration_value_and_presence() {
    let r = run(vec![add(4_000, 1, 0)], B::Force, 1, 10_000);
    let d = phase_distrib(&r, 1_000, 9_000);
    assert_eq!(d.by_src.get(&1).map(|a| a.value), Some(3_000));
    assert_eq!(d.presence_ms, 3_000);
    assert_eq!(d.presence_by.get(&1), Some(&3_000));
    assert_eq!(d.presence_by.get(&2), None);
    let d0 = phase_distrib(&r, 5_000, 9_000);
    assert_eq!(total_value(&d0.by_src), 0);
    let d1 = phase_distrib(&r, 3_500, 4_500);
    assert_eq!(d1.presence_ms, 500);
}

#[test]
fn intensity_multi_stack_value() {
    let r = run(vec![add(4_000, 1, 0), add(4_000, 2, 2_000)], B::Stacking, 5, 10_000);
    let d = phase_distrib(&r, 0, 10_000);
    assert_eq!(total_value(&d.by_src), 8_000);
    assert_eq!(d.presence_ms, 6_000);
    assert_eq!(d.presence_by.get(&1), Some(&4_000));
    assert_eq!(d.presence_by.get(&2), Some(&4_000));
}

#[test]
fn waste_inclusive_bounds() {
    let r = run(vec![add(1_000, 1, 0)], B::Force, 1, 10_000);
    let mut rr = SimResult { items: Vec::new(), wastes: Vec::new(), overstacks: Vec::new() };
    rr.overstacks.push(WasteEvent { time: 5_000, src: 1, value: 100 });
    rr.wastes.push(WasteEvent { time: 5_000, src: 2, value: 50 });
    let d = phase_distrib(&rr, 5_000, 6_000);
    assert_eq!(d.overstack_of(1), 100);
    assert_eq!(d.waste_of(2), 50);
    let d2 = phase_distrib(&rr, 5_001, 6_000);
    assert_eq!(d2.overstack_of(1), 0);
    let _ = r;
}

#[test]
fn unknown_src_keys() {
    let r = run(vec![add(1_000, u32::unknown(), 0)], B::Force, 1, 10_000);
    let d = phase_distrib(&r, 0, 10_000);
    assert_eq!(d.generation_of(u32::unknown()), 1_000);
}

#[test]
fn fuse_zero_fill_and_merge() {
    let fused = fuse_segments(0, 10, vec![(2, 3, 1), (3, 5, 2)]);
    assert_eq!(fused, vec![(0, 2, 0), (2, 3, 1), (3, 5, 2), (5, 10, 0)]);
    let fused2 = fuse_segments(0, 10, vec![(0, 2, 1), (2, 2, 1), (2, 4, 1)]);
    assert_eq!(fused2, vec![(0, 0, 0), (0, 4, 1), (4, 10, 0)]);
    let fused3 = fuse_segments(0, 10, vec![(5, 8, 1)]);
    assert_eq!(fused3, vec![(0, 5, 0), (5, 8, 1), (8, 10, 0)]);
}

#[test]
fn clamped_overlaps() {
    assert_eq!(clamped(0, 10, 2, 5), 3);
    assert_eq!(clamped(3, 10, 0, 5), 2);
    assert_eq!(clamped(0, 10, 10, 20), 0);
    assert_eq!(clamped(5, 5, 0, 10), 0);
    assert_eq!(clamped(0, 10, 6, 4), 0);
}

#[test]
fn extension_credit_and_sources() {
    let r = run(
        vec![
            add(1_000, 1, 0),
            SimCmd::Extend { extension: 2_000, old_value: 500, src: 2, time: 500, stack_id: 0 },
        ],
        B::Queue,
        5,
        10_000,
    );
    let d = phase_distrib(&r, 0, 10_000);
    assert_eq!(d.generation_of(1), 1_000);
    assert_eq!(d.generation_of(2), 2_000);
    assert_eq!(d.extension_of(2), 2_000);
    assert_eq!(d.extended_of(1), 2_000);
    assert_eq!(d.unknown_ext_of(1), 0);
    assert_eq!(d.presence_of(2), 2_000);
    assert_eq!(srcs_of(&d), vec![1, 2]);
    assert_eq!(total_value(&d.by_src), 3_000);
}

#[test]
fn status_spans_down_then_alive() {
    let (dead, down, dc, act) = status_segments(&[(100, 0), (300, 3)], 0, 1000);
    assert!(dead.is_empty());
    assert_eq!(down, vec![Span { start: 100, end: 300 }]);
    assert_eq!(dc, vec![Span { start: i64::MIN, end: 0 }, Span { start: 1000, end: i64::MAX }]);
    // the last row is counted up to the end of awareness twice over
    assert_eq!(
        act,
        vec![Span { start: 0, end: 100 }, Span { start: 300, end: 1000 }, Span { start: 300, end: 1000 }]
    );
}

#[test]
fn status_spans_dead_stays_dead() {
    let (dead, _down, dc, act) = status_segments(&[(500, 1)], 0, 800);
    assert_eq!(act, vec![Span { start: 0, end: 500 }]);
    assert_eq!(dead, vec![Span { start: 500, end: 800 }, Span { start: 500, end: 800 }, Span { start: 800, end: i64::MAX }]);
    assert_eq!(dc, vec![Span { start: i64::MIN, end: 0 }]);
    let (_, _, dc2, act2) = status_segments(&[], 10, 20);
    assert_eq!(act2, vec![Span { start: 10, end: 20 }]);
    assert_eq!(dc2.len(), 2);
}
