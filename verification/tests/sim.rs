use gw2ei::parse::enums::BuffStackType as B;
use gw2ei::semantics::sim::{SimCmd, SimResult, Simulator};

fn run(events: Vec<SimCmd<u32>>, stack_type: B, capacity: i64, log_end: i64) -> SimResult<u32> {
    let mut sim = Simulator::new(stack_type, capacity, Vec::new());
    sim.simulate(&events, 0, log_end);
    sim.result
}

fn add(duration: i64, src: u32, start: i64, stack_id: u64) -> SimCmd<u32> {
    SimCmd::Add {
        duration,
        src,
        start,
        stack_id,
        added_active: false,
        overriden_duration: 0,
        overriden_stack_id: 0,
    }
}

#[test]
fn queue_evicts_min_non_head() {
    let mut ev: Vec<SimCmd<u32>> = Vec::new();
    for i in 0..5u64 {
        ev.push(add(10_000, 1, i as i64, 100 + i));
    }
    ev.push(add(12_000, 2, 6, 200));
    let r = run(ev, B::Queue, 5, 20_000);
    assert!(r.wastes.iter().any(|w| w.src == 1 && w.value == 10_000 && w.time == 6));
    assert!(!r.wastes.iter().any(|w| w.src == 2 && w.value == 12_000));
    let total: i64 = r.items.iter().map(|i| i.end - i.start).sum();
    assert_eq!(total, 20_000);
    assert_eq!(r.items[0].start, 0);
    assert_eq!(r.items[0].end, 1);
    assert_eq!(r.items[0].groups[0].count, 1);
    assert_eq!(r.items.last().expect("last").end, 20_000);
    assert_eq!(r.items.last().expect("last").groups[0].src, 2);
}

#[test]
fn duration_head_expiry_promotes_extension() {
    let ev = vec![
        add(5_000, 1, 0, 7),
        SimCmd::Extend { extension: 8_000, old_value: 5_000, src: 2, time: 1_000, stack_id: 7 },
    ];
    let r = run(ev, B::Queue, 5, 20_000);
    let total: i64 = r.items.iter().map(|i| i.end - i.start).sum();
    assert_eq!(total, 13_000);
    assert_eq!(r.items[0].groups[0].src, 1);
    assert_eq!(r.items[0].groups[0].seed_src, 1);
    let ext_item = r.items.last().expect("item");
    assert_eq!(ext_item.groups[0].src, 2);
    assert_eq!(ext_item.groups[0].seed_src, 1);
    assert!(ext_item.groups[0].is_extension);
}

#[test]
fn intensity_counts_and_evicts_shortest() {
    let mut ev = vec![add(10_000, 1, 0, 0)];
    for t in [100, 200] {
        ev.push(add(10_000, 1, t, 0));
    }
    ev.push(add(2_000, 2, 300, 0));
    let r = run(ev, B::Stacking, 3, 20_000);
    let seg3 = r.items.iter().find(|i| i.start == 200).expect("seg at 200");
    assert_eq!(seg3.groups.len(), 1);
    assert_eq!(seg3.groups[0].count, 3);
    assert!(r.wastes.iter().any(|w| w.src == 1 && w.value == 9_700 && w.time == 300));
    let seg = r.items.iter().find(|i| i.start == 300).expect("seg at 300");
    assert_eq!(seg.groups.iter().map(|g| g.count).sum::<i64>(), 3);
}

#[test]
fn override_sorts_ascending() {
    let mut sim = Simulator::new(B::Stacking, 10, Vec::new());
    let ev: Vec<SimCmd<u32>> = vec![add(9000, 1, 0, 0), add(2000, 2, 0, 0), add(5000, 3, 0, 0), add(5000, 4, 0, 0)];
    for e in ev {
        sim.apply_cmd(e);
    }
    let durs: Vec<i64> = sim.stacks.iter().map(|s| s.duration).collect();
    assert_eq!(durs, vec![2000, 5000, 5000, 9000]);
    let srcs: Vec<u32> = sim.stacks.iter().map(|s| s.src).collect();
    assert_eq!(srcs, vec![2, 3, 4, 1]);
}

#[test]
fn regen_override_by_id() {
    let mut sim = Simulator::new(B::Regeneration, 3, Vec::new());
    for t in 0..3u64 {
        sim.apply_cmd(add(10_000, 10 + t as u32, t as i64, 100 + t));
    }
    assert_eq!(sim.stacks.len(), 3);
    sim.apply_cmd(SimCmd::Add {
        duration: 12_000,
        src: 9,
        start: 5,
        stack_id: 999,
        added_active: false,
        overriden_duration: 0,
        overriden_stack_id: 101,
    });
    assert_eq!(sim.stacks.len(), 3);
    assert!(!sim.stacks.iter().any(|s| s.src == 11));
    assert!(sim.stacks.iter().any(|s| s.src == 9 && s.duration == 12_000));
}

#[test]
fn remove_single_approx_and_remove_all() {
    let ev2 = vec![add(10_000, 1, 0, 0), SimCmd::Remove { removed_duration: 9_990, time: 10, all: false }];
    let mut sim = Simulator::new(B::Force, 1, Vec::new());
    sim.simulate(&ev2, 0, 50_000);
    assert!(sim.stacks.is_empty());
    assert_eq!(sim.result.wastes.len(), 1);
    assert_eq!(sim.result.wastes[0].value, 10_000 - 10);
    let ev3 = vec![add(10_000, 1, 0, 0), SimCmd::Remove { removed_duration: 0, time: 100, all: true }];
    let mut sim = Simulator::new(B::Force, 1, Vec::new());
    sim.simulate(&ev3, 0, 50_000);
    assert!(sim.stacks.is_empty());
    assert_eq!(sim.result.wastes[0].value, 10_000 - 100);
    assert_eq!(sim.result.wastes[0].time, 100);
}

#[test]
fn trim_to_log_end() {
    let r = run(vec![add(100_000, 1, 0, 0)], B::Force, 1, 50_000);
    assert_eq!(r.items.len(), 1);
    assert_eq!(r.items[0].end, 50_000);
}

#[test]
fn regen_sorted_by_healing_of_seed() {
    let mut sim = Simulator::new(B::Regeneration, 5, vec![(1, 10), (2, 30), (3, 20)]);
    sim.apply_cmd(add(1_000, 1, 0, 1));
    sim.apply_cmd(add(1_000, 2, 0, 2));
    sim.apply_cmd(add(1_000, 3, 0, 3));
    sim.apply_cmd(add(1_000, 4, 0, 4));
    let srcs: Vec<u32> = sim.stacks.iter().map(|s| s.src).collect();
    assert_eq!(srcs, vec![2, 3, 1, 4]);
    sim.apply_cmd(SimCmd::Activate { time: 0, stack_id: 4 });
    let srcs: Vec<u32> = sim.stacks.iter().map(|s| s.src).collect();
    assert_eq!(srcs, vec![4, 2, 3, 1]);
    assert!(sim.no_sort);
}

#[test]
fn full_force_buff_overstacks_nothing_evicts_head() {
    let r = run(vec![add(5_000, 1, 0, 0), add(3_000, 2, 1_000, 0)], B::Force, 1, 10_000);
    assert!(r.wastes.iter().any(|w| w.src == 1 && w.value == 4_000 && w.time == 1_000));
    assert!(r.overstacks.is_empty());
    let full = run(vec![add(5_000, 1, 0, 0), add(3_000, 2, 1_000, 0)], B::Stacking, 0, 10_000);
    assert_eq!(full.overstacks.len(), 2);
    assert!(full.items.is_empty());
}

#[test]
fn simulate_runs_once() {
    let mut sim = Simulator::new(B::Force, 1, Vec::new());
    sim.simulate(&[add(1_000, 1, 0, 0)], 0, 10_000);
    let n = sim.result.items.len();
    sim.simulate(&[add(5_000, 2, 0, 0)], 0, 10_000);
    assert_eq!(sim.result.items.len(), n);
    assert!(sim.result.items.iter().all(|i| i.end - i.start > 0));
}

#[test]
fn stacks_never_exceed_capacity() {
    // Queue logic with room for three: the fourth and fifth applications evict.
    let mut sim = Simulator::new(B::Queue, 3, Vec::new());
    for i in 0..5u64 {
        sim.apply_cmd(add(10_000 + i as i64, 1, 0, 10 + i));
        assert!(sim.stacks.len() <= 3);
    }
    assert_eq!(sim.stacks.len(), 3);
    assert_eq!(sim.result.wastes.len(), 2);
    // Override logic with no room at all overstacks every application.
    let mut sim = Simulator::new(B::StackingConditionalLoss, 0, Vec::new());
    sim.apply_cmd(add(5_000, 1, 0, 1));
    sim.apply_cmd(add(6_000, 2, 0, 2));
    assert_eq!(sim.stacks.len(), 0);
    assert_eq!(sim.result.overstacks.len(), 2);
    // Force logic holds one stack whatever its capacity.
    let mut sim = Simulator::new(B::Force, 9, Vec::new());
    sim.apply_cmd(add(5_000, 1, 0, 1));
    sim.apply_cmd(add(6_000, 2, 0, 2));
    assert_eq!(sim.stacks.len(), 1);
    assert_eq!(sim.stacks[0].src, 2);
}
