//! Buff stacking simulation: one simulator per (actor, buff) is fed the
//! buff commands of that pair in time order and produces the generation
//! segments (who kept the buff up, and when), the wasted durations and the
//! overstacked applications.
//!
//! Durations and times are 64-bit two's complement values; the time
//! arithmetic wraps on overflow, which agrees with plain arithmetic whenever
//! every value stays in the `i64` range.

use vstd::prelude::*;
use crate::parse::enums::BuffStackType;

verus! {

/// Tolerance of a single removal matched by remaining duration, in milliseconds.
pub const REMOVE_TOLERANCE: i64 = 15;

/// A stack activated while the head stack has less than this many
/// milliseconds left replaces the head.
pub const STACK_ACTIVE_FRESH: i64 = 50;

/// Agent keys of the simulator.
pub type Agent = u32;

/// The key of an unknown agent.
pub const UNKNOWN_AGENT: Agent = 0xFFFF_FFFF;

/// Agent keys with a distinguished unknown value.
pub trait AgentKey: Sized {
    fn unknown() -> Self;
}

impl AgentKey for u32 {
    fn unknown() -> (r: Self)
        ensures
            r == UNKNOWN_AGENT,
    {
        UNKNOWN_AGENT
    }
}

/// How stacks combine: one active stack at a time, or stacks that add up.
#[derive(Debug, Clone, Copy, PartialEq, Eq, Structural)]
pub enum BuffType {
    Duration,
    Intensity,
}

impl BuffType {
    pub open spec fn of_spec(stack_type: BuffStackType) -> BuffType {
        match stack_type {
            BuffStackType::Stacking
            | BuffStackType::StackingUniquePerSrc
            | BuffStackType::StackingConditionalLoss => BuffType::Intensity,
            _ => BuffType::Duration,
        }
    }

    /// Queue, regeneration and force buffs last; the stacking kinds add up.
    /// A buff of unknown stacking has no type.
    pub fn of(stack_type: BuffStackType) -> (r: BuffType)
        requires
            stack_type != BuffStackType::Unknown,
        ensures
            r == Self::of_spec(stack_type),
    {
        match stack_type {
            BuffStackType::Stacking
            | BuffStackType::StackingUniquePerSrc
            | BuffStackType::StackingConditionalLoss => BuffType::Intensity,
            _ => BuffType::Duration,
        }
    }
}

/// Stacking logic of a simulator.
#[derive(Debug, Clone, Copy, PartialEq, Eq, Structural)]
pub enum StackLogic {
    Queue,
    Force,
    Override,
    /// Queue ordered by the healing power of the seed source.
    Healing,
}

pub open spec fn logic_of(stack_type: BuffStackType) -> StackLogic {
    match stack_type {
        BuffStackType::Queue => StackLogic::Queue,
        BuffStackType::Regeneration => StackLogic::Healing,
        BuffStackType::Force => StackLogic::Force,
        _ => StackLogic::Override,
    }
}

fn stack_logic_of(stack_type: BuffStackType) -> (r: StackLogic)
    ensures
        r == logic_of(stack_type),
{
    match stack_type {
        BuffStackType::Queue => StackLogic::Queue,
        BuffStackType::Regeneration => StackLogic::Healing,
        BuffStackType::Force => StackLogic::Force,
        _ => StackLogic::Override,
    }
}

/// A buff stack: its remaining own duration and the queue of extensions
/// that follow it.
#[derive(Debug)]
pub struct StackItem<A> {
    /// Identity of the stack within its simulator.
    pub uid: u64,
    pub start: i64,
    pub duration: i64,
    pub src: A,
    pub seed_src: A,
    pub is_extension: bool,
    pub stack_id: u64,
    /// Extensions waiting behind the stack, as (source, duration).
    pub extensions: Vec<(A, i64)>,
}

/// Mathematical value of a stack.
pub struct StackModel<A> {
    pub uid: u64,
    pub start: i64,
    pub duration: i64,
    pub src: A,
    pub seed_src: A,
    pub is_extension: bool,
    pub stack_id: u64,
    pub extensions: Seq<(A, i64)>,
}

/// Sum of the extension durations, added from the front.
pub open spec fn ext_sum<A>(e: Seq<(A, i64)>) -> i64
    decreases e.len(),
{
    if e.len() == 0 {
        0
    } else {
        ext_sum(e.drop_last()).wrapping_add(e.last().1)
    }
}

/// Own duration plus the extensions.
pub open spec fn total_of<A>(s: StackModel<A>) -> i64 {
    s.duration.wrapping_add(ext_sum(s.extensions))
}

/// Moves the start by `start_shift` and takes `duration_shift` off the own
/// duration; a stack whose own duration reaches zero takes on its first
/// extension, which then counts as an extension stack.
pub open spec fn shift_model<A>(s: StackModel<A>, start_shift: i64, duration_shift: i64) -> StackModel<A> {
    let moved = StackModel {
        start: s.start.wrapping_add(start_shift),
        duration: s.duration.wrapping_sub(duration_shift),
        ..s
    };
    if moved.duration == 0 && moved.extensions.len() > 0 {
        StackModel {
            src: moved.extensions[0].0,
            duration: moved.extensions[0].1,
            is_extension: true,
            extensions: moved.extensions.drop_first(),
            ..moved
        }
    } else {
        moved
    }
}

proof fn lemma_wrapping_add_assoc(a: i64, b: i64, c: i64)
    ensures
        a.wrapping_add(b).wrapping_add(c) == a.wrapping_add(b.wrapping_add(c)),
{
}

proof fn lemma_ext_sum_front<A>(e: Seq<(A, i64)>)
    requires
        e.len() > 0,
    ensures
        ext_sum(e) == e[0].1.wrapping_add(ext_sum(e.drop_first())),
    decreases e.len(),
{
    if e.len() == 1 {
        assert(e.drop_first() =~= Seq::<(A, i64)>::empty());
        assert(e.drop_last() =~= Seq::<(A, i64)>::empty());
    } else {
        lemma_ext_sum_front(e.drop_last());
        assert(e.drop_last().drop_first() =~= e.drop_first().drop_last());
        assert(e.drop_first().last() == e.last());
        assert(e.drop_last()[0] == e[0]);
        lemma_wrapping_add_assoc(e[0].1, ext_sum(e.drop_first().drop_last()), e.last().1);
    }
}

/// A shift takes `duration_shift` off the stack's total duration (own plus
/// extensions, 64-bit wrapping) and moves its start by `start_shift`;
/// identity and seed stay.
pub proof fn law_shift_total<A>(s: StackModel<A>, start_shift: i64, duration_shift: i64)
    ensures
        total_of(shift_model(s, start_shift, duration_shift)) == total_of(s).wrapping_sub(duration_shift),
        shift_model(s, start_shift, duration_shift).start == s.start.wrapping_add(start_shift),
        shift_model(s, start_shift, duration_shift).uid == s.uid,
        shift_model(s, start_shift, duration_shift).seed_src == s.seed_src,
        shift_model(s, start_shift, duration_shift).stack_id == s.stack_id,
{
    let d = s.duration.wrapping_sub(duration_shift);
    if d == 0 && s.extensions.len() > 0 {
        lemma_ext_sum_front(s.extensions);
    }
}

impl<A: Copy> StackItem<A> {
    pub open spec fn view(&self) -> StackModel<A> {
        StackModel {
            uid: self.uid,
            start: self.start,
            duration: self.duration,
            src: self.src,
            seed_src: self.seed_src,
            is_extension: self.is_extension,
            stack_id: self.stack_id,
            extensions: self.extensions@,
        }
    }

    /// Own duration plus the queued extensions.
    pub fn total_duration(&self) -> (r: i64)
        ensures
            r == total_of(self@),
    {
        let mut sum: i64 = 0;
        let mut i: usize = 0;
        while i < self.extensions.len()
            invariant
                i <= self.extensions@.len(),
                sum == ext_sum(self.extensions@.subrange(0, i as int)),
            decreases self.extensions@.len() - i,
        {
            assert(self.extensions@.subrange(0, i + 1).drop_last() =~= self.extensions@.subrange(
                0,
                i as int,
            ));
            sum = sum.wrapping_add(self.extensions[i].1);
            i = i + 1;
        }
        assert(self.extensions@.subrange(0, i as int) =~= self.extensions@);
        self.duration.wrapping_add(sum)
    }

    /// See [`shift_model`].
    pub fn shift(&mut self, start_shift: i64, duration_shift: i64)
        ensures
            final(self)@ == shift_model(old(self)@, start_shift, duration_shift),
    {
        self.start = self.start.wrapping_add(start_shift);
        self.duration = self.duration.wrapping_sub(duration_shift);
        if self.duration == 0 && self.extensions.len() > 0 {
            let (src, value) = self.extensions.remove(0);
            self.src = src;
            self.duration = value;
            self.is_extension = true;
        }
    }
}

/// A generation segment `[start, end]` and the stacks that were up during it.
#[derive(Debug)]
pub struct GenItem<A> {
    pub start: i64,
    pub end: i64,
    /// Stacks grouped by (source, seed source, extension flag). A duration
    /// buff lists its head stack only.
    pub groups: Vec<Group<A>>,
}

/// Stacks that share source, seed source and extension flag.
#[derive(Debug, Clone, Copy)]
pub struct Group<A> {
    pub src: A,
    pub seed_src: A,
    pub is_extension: bool,
    pub count: i64,
}

/// A wasted or overstacked duration: when, whose, and how long.
#[derive(Debug, Clone, Copy)]
pub struct WasteEvent<A> {
    pub time: i64,
    pub src: A,
    pub value: i64,
}

/// Mathematical value of a generation segment.
pub struct GenModel<A> {
    pub start: i64,
    pub end: i64,
    pub groups: Seq<Group<A>>,
}

impl<A> GenItem<A> {
    pub open spec fn view(&self) -> GenModel<A> {
        GenModel { start: self.start, end: self.end, groups: self.groups@ }
    }
}

/// What one simulation produced.
#[derive(Debug)]
pub struct SimResult<A> {
    /// Generation segments, in time order.
    pub items: Vec<GenItem<A>>,
    pub wastes: Vec<WasteEvent<A>>,
    pub overstacks: Vec<WasteEvent<A>>,
}

/// Mathematical value of a simulation result.
pub struct ResultModel<A> {
    pub items: Seq<GenModel<A>>,
    pub wastes: Seq<WasteEvent<A>>,
    pub overstacks: Seq<WasteEvent<A>>,
}

impl<A> SimResult<A> {
    pub open spec fn view(&self) -> ResultModel<A> {
        ResultModel {
            items: self.items@.map_values(|g: GenItem<A>| g@),
            wastes: self.wastes@,
            overstacks: self.overstacks@,
        }
    }
}

/// A simulator command.
#[derive(Debug, Clone, Copy)]
pub enum SimCmd<A> {
    /// An application: a new stack, possibly made active at once, possibly
    /// naming the stack it overrides.
    Add {
        duration: i64,
        src: A,
        start: i64,
        stack_id: u64,
        added_active: bool,
        overriden_duration: i64,
        overriden_stack_id: u64,
    },
    /// An extension of a stack whose remaining duration was `old_value`.
    Extend { extension: i64, old_value: i64, src: A, time: i64, stack_id: u64 },
    /// A removal of one stack (matched by remaining duration) or of all.
    Remove { removed_duration: i64, time: i64, all: bool },
    Activate { time: i64, stack_id: u64 },
    Deactivate { time: i64, stack_id: u64, to_duration: i64 },
}

impl<A> SimCmd<A> {
    pub open spec fn time_of(self) -> i64 {
        match self {
            SimCmd::Add { start, .. } => start,
            SimCmd::Extend { time, .. } => time,
            SimCmd::Remove { time, .. } => time,
            SimCmd::Activate { time, .. } => time,
            SimCmd::Deactivate { time, .. } => time,
        }
    }

    /// When the command applies.
    pub fn time(&self) -> (r: i64)
        ensures
            r == self.time_of(),
    {
        match self {
            SimCmd::Add { start, .. } => *start,
            SimCmd::Extend { time, .. } => *time,
            SimCmd::Remove { time, .. } => *time,
            SimCmd::Activate { time, .. } => *time,
            SimCmd::Deactivate { time, .. } => *time,
        }
    }
}

// ===== simulator state =====

/// Mathematical value of a simulator's evolving state.
pub struct SimModel {
    pub stacks: Seq<StackModel<u32>>,
    pub result: ResultModel<u32>,
    pub next_uid: u64,
    /// Seed source and extension flag of the last stack that ran out (duration buffs).
    pub last_src_remove: (u32, bool),
    /// The same for intensity buffs, in the order they ran out.
    pub last_src_removes: Seq<(u32, bool)>,
    /// Set once a stack was activated by id: the healing order is frozen.
    pub no_sort: bool,
}

/// The fixed parameters of a simulator.
pub struct SimConfig {
    pub buff_type: BuffType,
    pub logic: StackLogic,
    pub capacity: i64,
    /// Healing power by agent; agents not listed have 0.
    pub healing: Seq<(u32, u16)>,
}

pub open spec fn stacks_view(v: Seq<StackItem<u32>>) -> Seq<StackModel<u32>> {
    v.map_values(|s: StackItem<u32>| s@)
}

/// One simulator per (actor, buff).
pub struct Simulator {
    pub buff_type: BuffType,
    pub logic: StackLogic,
    pub capacity: i64,
    /// Healing power of the seed sources, which orders regeneration stacks.
    pub healing_of: Vec<(u32, u16)>,
    pub next_uid: u64,
    pub stacks: Vec<StackItem<u32>>,
    pub result: SimResult<u32>,
    pub last_src_remove: (u32, bool),
    pub last_src_removes: Vec<(u32, bool)>,
    pub no_sort: bool,
}

/// Queue-based logics need room for a stack besides the active one.
pub open spec fn config_ok(c: SimConfig) -> bool {
    (c.logic == StackLogic::Queue || c.logic == StackLogic::Healing) ==> c.capacity > 1
}

impl Simulator {
    pub open spec fn config(&self) -> SimConfig {
        SimConfig {
            buff_type: self.buff_type,
            logic: self.logic,
            capacity: self.capacity,
            healing: self.healing_of@,
        }
    }

    pub open spec fn view(&self) -> SimModel {
        SimModel {
            stacks: stacks_view(self.stacks@),
            result: self.result@,
            next_uid: self.next_uid,
            last_src_remove: self.last_src_remove,
            last_src_removes: self.last_src_removes@,
            no_sort: self.no_sort,
        }
    }

    pub open spec fn wf(&self) -> bool {
        config_ok(self.config())
    }
}

/// A simulator before its first command.
pub open spec fn sim_init() -> SimModel {
    SimModel {
        stacks: Seq::empty(),
        result: ResultModel { items: Seq::empty(), wastes: Seq::empty(), overstacks: Seq::empty() },
        next_uid: 0,
        last_src_remove: (UNKNOWN_AGENT, false),
        last_src_removes: Seq::empty(),
        no_sort: false,
    }
}

/// Healing power of `a` in `table`: its first entry, 0 when there is none.
pub open spec fn heal_of(table: Seq<(u32, u16)>, a: u32) -> u16
    decreases table.len(),
{
    if table.len() == 0 {
        0
    } else if table[0].0 == a {
        table[0].1
    } else {
        heal_of(table.drop_first(), a)
    }
}

/// Whether no stack can be added without evicting one.
pub open spec fn is_full_spec(c: SimConfig, stacks: Seq<StackModel<u32>>) -> bool {
    if c.logic == StackLogic::Force {
        stacks.len() == 1
    } else {
        (stacks.len() as i64) == c.capacity
    }
}

/// Where a stack of healing key `k` goes in a list sorted by descending key:
/// after every stack whose key is at least `k`.
pub open spec fn heal_insert_pos(sorted: Seq<StackModel<u32>>, table: Seq<(u32, u16)>, k: u16) -> int
    decreases sorted.len(),
{
    if sorted.len() == 0 {
        0
    } else if heal_of(table, sorted[0].seed_src) < k {
        0
    } else {
        1 + heal_insert_pos(sorted.drop_first(), table, k)
    }
}

/// Stable sort by descending healing power of the seed source.
pub open spec fn heal_sort(s: Seq<StackModel<u32>>, table: Seq<(u32, u16)>) -> Seq<StackModel<u32>>
    decreases s.len(),
{
    if s.len() == 0 {
        s
    } else {
        let sorted = heal_sort(s.drop_last(), table);
        sorted.insert(heal_insert_pos(sorted, table, heal_of(table, s.last().seed_src)), s.last())
    }
}

/// Binary search for an insertion index by total duration (ascending, an
/// equal total goes after), over `tot[min..=max]`.
pub open spec fn ovr_index(tot: Seq<i64>, t: i64, min: int, max: int) -> int
    decreases max - min,
{
    if tot[min] > t {
        min
    } else if tot[max] < t {
        max + 1
    } else if min > max {
        min
    } else {
        let mid = (min + max) / 2;
        if t == tot[mid] {
            mid + 1
        } else if t < tot[mid] {
            if mid > min {
                ovr_index(tot, t, min, mid - 1)
            } else {
                min
            }
        } else {
            if mid < max {
                ovr_index(tot, t, mid + 1, max)
            } else {
                max + 1
            }
        }
    }
}

pub open spec fn totals(s: Seq<StackModel<u32>>) -> Seq<i64> {
    s.map_values(|x: StackModel<u32>| total_of(x))
}

/// The stacks after `to_add` joins them by the logic's rule: appended
/// (queue, force), appended then sorted by healing unless the order is
/// frozen (regeneration), or inserted by total duration (override).
pub open spec fn add_by_logic_spec(
    c: SimConfig,
    no_sort: bool,
    stacks: Seq<StackModel<u32>>,
    to_add: StackModel<u32>,
) -> Seq<StackModel<u32>> {
    match c.logic {
        StackLogic::Queue | StackLogic::Force => stacks.push(to_add),
        StackLogic::Healing => if no_sort {
            stacks.push(to_add)
        } else {
            heal_sort(stacks.push(to_add), c.healing)
        },
        StackLogic::Override => if stacks.len() == 0 {
            stacks.push(to_add)
        } else {
            let idx = ovr_index(totals(stacks), total_of(to_add), 0, stacks.len() - 1);
            if idx > stacks.len() - 1 {
                stacks.push(to_add)
            } else {
                stacks.insert(idx, to_add)
            }
        },
    }
}

fn heal_lookup(table: &Vec<(u32, u16)>, a: u32) -> (r: u16)
    ensures
        r == heal_of(table@, a),
{
    let mut i: usize = 0;
    assert(table@.subrange(0, table@.len() as int) =~= table@);
    while i < table.len()
        invariant
            i <= table@.len(),
            heal_of(table@, a) == heal_of(table@.subrange(i as int, table@.len() as int), a),
        decreases table@.len() - i,
    {
        let ghost rest = table@.subrange(i as int, table@.len() as int);
        if table[i].0 == a {
            assert(rest[0] == table@[i as int]);
            return table[i].1;
        }
        assert(rest.drop_first() =~= table@.subrange(i + 1, table@.len() as int));
        i = i + 1;
    }
    0
}

impl Simulator {
    /// A simulator for a buff of the given stacking and capacity; `healing_of`
    /// gives the healing power of the agents that may seed regeneration stacks.
    pub fn new(stack_type: BuffStackType, capacity: i64, healing_of: Vec<(u32, u16)>) -> (r: Self)
        requires
            stack_type != BuffStackType::Unknown,
            (stack_type == BuffStackType::Queue || stack_type == BuffStackType::Regeneration)
                ==> capacity > 1,
        ensures
            r.wf(),
            r.config() == (SimConfig {
                buff_type: BuffType::of_spec(stack_type),
                logic: logic_of(stack_type),
                capacity,
                healing: healing_of@,
            }),
            r@ == sim_init(),
    {
        let buff_type = BuffType::of(stack_type);
        let r = Simulator {
            buff_type,
            logic: stack_logic_of(stack_type),
            capacity,
            healing_of,
            next_uid: 0,
            stacks: Vec::new(),
            result: SimResult { items: Vec::new(), wastes: Vec::new(), overstacks: Vec::new() },
            last_src_remove: (UNKNOWN_AGENT, false),
            last_src_removes: Vec::new(),
            no_sort: false,
        };
        assert(r.result@.items =~= Seq::<GenModel<u32>>::empty());
        assert(stacks_view(r.stacks@) =~= Seq::<StackModel<u32>>::empty());
        r
    }

    pub fn buff_type(&self) -> (r: BuffType)
        ensures
            r == self.buff_type,
    {
        self.buff_type
    }

    fn is_full(&self) -> (r: bool)
        ensures
            r == is_full_spec(self.config(), self@.stacks),
    {
        match self.logic {
            StackLogic::Force => self.stacks.len() == 1,
            _ => self.stacks.len() as i64 == self.capacity,
        }
    }

    /// Sorts the stacks by descending healing power of their seed source,
    /// keeping the order of equal ones.
    fn sort_by_healing(&mut self)
        ensures
            final(self)@ == (SimModel { stacks: heal_sort(old(self)@.stacks, old(self).healing_of@), ..old(self)@ }),
            final(self).config() == old(self).config(),
    {
        let ghost orig = self@.stacks;
        let mut src: Vec<StackItem<u32>> = Vec::new();
        std::mem::swap(&mut src, &mut self.stacks);
        let ghost n = orig.len();
        let mut out: Vec<StackItem<u32>> = Vec::new();
        assert(orig.take(0) =~= Seq::<StackModel<u32>>::empty());
        assert(stacks_view(out@) =~= heal_sort(orig.take(0), self.healing_of@));
        assert(stacks_view(src@) =~= orig.skip(0));
        while src.len() > 0
            invariant
                stacks_view(src@) == orig.skip(n - src@.len()),
                src@.len() <= n,
                n == orig.len(),
                stacks_view(out@) == heal_sort(orig.take(n - src@.len()), self.healing_of@),
                self@ == (SimModel { stacks: Seq::empty(), ..old(self)@ }),
                self.config() == old(self).config(),
            decreases src@.len(),
        {
            let ghost i = n - src@.len();
            let ghost before = src@;
            let x = src.remove(0);
            assert(stacks_view(before)[0] == x@);
            assert(orig.skip(i)[0] == orig[i]);
            assert(x@ == orig[i]);
            assert forall|j: int| 0 <= j < src@.len() implies stacks_view(src@)[j] == orig.skip(
                i + 1,
            )[j] by {
                assert(src@[j] == before[j + 1]);
                assert(stacks_view(before)[j + 1] == orig.skip(i)[j + 1]);
            }
            assert(stacks_view(src@) =~= orig.skip(i + 1));
            let k = heal_lookup(&self.healing_of, x.seed_src);
            // find the insertion position
            let mut p: usize = 0;
            let ghost sorted = stacks_view(out@);
            assert(sorted.skip(0) =~= sorted);
            while p < out.len() && heal_lookup(&self.healing_of, out[p].seed_src) >= k
                invariant
                    p <= out@.len(),
                    sorted == stacks_view(out@),
                    heal_insert_pos(sorted, self.healing_of@, k) == p + heal_insert_pos(
                        sorted.skip(p as int),
                        self.healing_of@,
                        k,
                    ),
                decreases out@.len() - p,
            {
                assert(sorted.skip(p as int).drop_first() =~= sorted.skip(p + 1));
                p = p + 1;
            }
            assert(heal_insert_pos(sorted.skip(p as int), self.healing_of@, k) == 0);
            assert(orig.take(i + 1).drop_last() =~= orig.take(i));
            assert(orig.take(i + 1).last() == orig[i]);
            out.insert(p, x);
            assert(stacks_view(out@) =~= sorted.insert(p as int, x@));
        }
        assert(orig.take(n as int) =~= orig);
        self.stacks = out;
    }
}

impl Simulator {
    fn override_insert_index(&self, total_duration: i64, min_index: usize, max_index: usize) -> (r: usize)
        requires
            min_index <= max_index < self.stacks@.len(),
        ensures
            r == ovr_index(totals(self@.stacks), total_duration, min_index as int, max_index as int),
        decreases max_index - min_index,
    {
        let ghost tot = totals(self@.stacks);
        let _n = self.stacks.len();
        let lo = self.stacks[min_index].total_duration();
        let hi = self.stacks[max_index].total_duration();
        assert(tot[min_index as int] == lo);
        assert(tot[max_index as int] == hi);
        if lo > total_duration {
            return min_index;
        }
        if hi < total_duration {
            return max_index + 1;
        }
        let mid_index = min_index + (max_index - min_index) / 2;
        assert(mid_index == (min_index + max_index) / 2);
        let m = self.stacks[mid_index].total_duration();
        assert(tot[mid_index as int] == m);
        if total_duration == m {
            mid_index + 1
        } else if total_duration < m {
            self.override_insert_index(total_duration, min_index, mid_index - 1)
        } else {
            self.override_insert_index(total_duration, mid_index + 1, max_index)
        }
    }

    fn add_by_logic(&mut self, to_add: StackItem<u32>)
        ensures
            final(self)@ == (SimModel {
                stacks: add_by_logic_spec(old(self).config(), old(self).no_sort, old(self)@.stacks, to_add@),
                ..old(self)@
            }),
            final(self).config() == old(self).config(),
    {
        match self.logic {
            StackLogic::Queue | StackLogic::Force => {
                self.stacks.push(to_add);
                assert(stacks_view(self.stacks@) =~= old(self)@.stacks.push(to_add@));
            },
            StackLogic::Healing => {
                self.stacks.push(to_add);
                assert(stacks_view(self.stacks@) =~= old(self)@.stacks.push(to_add@));
                if !self.no_sort {
                    self.sort_by_healing();
                }
            },
            StackLogic::Override => {
                if self.stacks.len() == 0 {
                    self.stacks.push(to_add);
                    assert(stacks_view(self.stacks@) =~= old(self)@.stacks.push(to_add@));
                } else {
                    let dur = to_add.total_duration();
                    let idx = self.override_insert_index(dur, 0, self.stacks.len() - 1);
                    if idx > self.stacks.len() - 1 {
                        self.stacks.push(to_add);
                        assert(stacks_view(self.stacks@) =~= old(self)@.stacks.push(to_add@));
                    } else {
                        self.stacks.insert(idx, to_add);
                        assert(stacks_view(self.stacks@) =~= old(self)@.stacks.insert(
                            idx as int,
                            to_add@,
                        ));
                    }
                }
            },
        }
    }
}

// ===== eviction, activation, wastes =====

/// Wastes of a whole stack at `time`: its own duration, then each extension.
pub open spec fn stack_wastes(s: StackModel<u32>, time: i64) -> Seq<WasteEvent<u32>> {
    seq![WasteEvent { time, src: s.src, value: s.duration }] + s.extensions.map_values(
        |e: (u32, i64)| WasteEvent { time, src: e.0, value: e.1 },
    )
}

/// Sum, as an integer, of the values of the wastes credited to `who`.
pub open spec fn wasted_by(ws: Seq<WasteEvent<u32>>, who: u32) -> int
    decreases ws.len(),
{
    if ws.len() == 0 {
        0
    } else {
        wasted_by(ws.drop_last(), who) + if ws.last().src == who {
            ws.last().value as int
        } else {
            0
        }
    }
}

/// Sum, as an integer, of the values of all the wastes.
pub open spec fn wasted(ws: Seq<WasteEvent<u32>>) -> int
    decreases ws.len(),
{
    if ws.len() == 0 {
        0
    } else {
        wasted(ws.drop_last()) + ws.last().value
    }
}

/// Sum, as an integer, of the durations of the extensions by `who`.
pub open spec fn extended_by(e: Seq<(u32, i64)>, who: u32) -> int
    decreases e.len(),
{
    if e.len() == 0 {
        0
    } else {
        extended_by(e.drop_last(), who) + if e.last().0 == who {
            e.last().1 as int
        } else {
            0
        }
    }
}

/// Sum, as an integer, of the durations of all the extensions.
pub open spec fn extended(e: Seq<(u32, i64)>) -> int
    decreases e.len(),
{
    if e.len() == 0 {
        0
    } else {
        extended(e.drop_last()) + e.last().1
    }
}

proof fn lemma_wasted_concat(a: Seq<WasteEvent<u32>>, b: Seq<WasteEvent<u32>>, who: u32)
    ensures
        wasted(a + b) == wasted(a) + wasted(b),
        wasted_by(a + b, who) == wasted_by(a, who) + wasted_by(b, who),
    decreases b.len(),
{
    if b.len() == 0 {
        assert(a + b =~= a);
    } else {
        assert((a + b).drop_last() =~= a + b.drop_last());
        lemma_wasted_concat(a, b.drop_last(), who);
    }
}

proof fn lemma_wasted_extensions(e: Seq<(u32, i64)>, time: i64, who: u32)
    ensures
        wasted(e.map_values(|x: (u32, i64)| WasteEvent { time, src: x.0, value: x.1 })) == extended(e),
        wasted_by(e.map_values(|x: (u32, i64)| WasteEvent { time, src: x.0, value: x.1 }), who) == extended_by(e, who),
    decreases e.len(),
{
    let f = |x: (u32, i64)| WasteEvent { time, src: x.0, value: x.1 };
    if e.len() > 0 {
        assert(e.map_values(f).drop_last() =~= e.drop_last().map_values(f));
        lemma_wasted_extensions(e.drop_last(), time, who);
    }
}

/// Removing a stack wastes its whole remaining total: the wastes recorded
/// at removal sum to its own duration plus every queued extension, and
/// each source is credited with exactly its part: the stack's source its
/// own duration, each extension's source that extension. All carry the
/// time of removal.
pub proof fn law_removal_wastes_total(s: StackModel<u32>, time: i64, who: u32)
    ensures
        wasted(stack_wastes(s, time)) == s.duration + extended(s.extensions),
        wasted_by(stack_wastes(s, time), who) == (if s.src == who {
            s.duration as int
        } else {
            0
        }) + extended_by(s.extensions, who),
        stack_wastes(s, time).len() == s.extensions.len() + 1,
        forall|i: int| 0 <= i < stack_wastes(s, time).len() ==> (#[trigger] stack_wastes(s, time)[i]).time == time,
{
    let f = |x: (u32, i64)| WasteEvent { time, src: x.0, value: x.1 };
    let head = seq![WasteEvent { time, src: s.src, value: s.duration }];
    lemma_wasted_concat(head, s.extensions.map_values(f), who);
    lemma_wasted_extensions(s.extensions, time, who);
    assert(head.drop_last() =~= Seq::<WasteEvent<u32>>::empty());
    assert(head.last() == WasteEvent { time, src: s.src, value: s.duration });
    assert(wasted(head.drop_last()) == 0);
    assert(wasted_by(head.drop_last(), who) == 0);
    assert(wasted(head) == s.duration);
    assert(wasted_by(head, who) == if s.src == who {
        s.duration as int
    } else {
        0
    });
    assert(stack_wastes(s, time) =~= head + s.extensions.map_values(f));
}

/// Index of the first stack with the given identity.
pub open spec fn index_of_uid(s: Seq<StackModel<u32>>, uid: u64) -> Option<int>
    decreases s.len(),
{
    if s.len() == 0 {
        None
    } else if s[0].uid == uid {
        Some(0)
    } else {
        match index_of_uid(s.drop_first(), uid) {
            Some(i) => Some(i + 1),
            None => None,
        }
    }
}

/// Index of the first stack with the given instance id.
pub open spec fn index_of_stack_id(s: Seq<StackModel<u32>>, id: u64) -> Option<int>
    decreases s.len(),
{
    if s.len() == 0 {
        None
    } else if s[0].stack_id == id {
        Some(0)
    } else {
        match index_of_stack_id(s.drop_first(), id) {
            Some(i) => Some(i + 1),
            None => None,
        }
    }
}

/// `s` with its element `i` moved to the front.
pub open spec fn to_front<T>(s: Seq<T>, i: int) -> Seq<T> {
    s.remove(i).insert(0, s[i])
}

/// Absolute value on 64 bits (the minimum maps to itself).
pub open spec fn wabs(x: i64) -> i64 {
    if x < 0 {
        0i64.wrapping_sub(x)
    } else {
        x
    }
}

/// First index of a smallest value of `v` in `[lo, hi)`.
pub open spec fn argmin(v: Seq<i64>, lo: int, hi: int) -> int
    decreases hi - lo,
{
    if hi <= lo + 1 {
        lo
    } else {
        let m = argmin(v, lo, hi - 1);
        if v[hi - 1] < v[m] {
            hi - 1
        } else {
            m
        }
    }
}

/// Distances of the stacks' totals to `d`.
pub open spec fn distances(s: Seq<StackModel<u32>>, d: i64) -> Seq<i64> {
    s.map_values(|x: StackModel<u32>| wabs(total_of(x).wrapping_sub(d)))
}

/// The stack a full simulator evicts for a new one, `None` when there is
/// nothing to evict. Queue: the shortest total after the head. Regeneration:
/// the named instance, else the total closest to the overridden duration,
/// else the last. Force and override: the first.
pub open spec fn lowest_index(
    c: SimConfig,
    s: Seq<StackModel<u32>>,
    overriden_duration: i64,
    overriden_stack_id: u64,
) -> Option<int> {
    match c.logic {
        StackLogic::Queue => Some(argmin(totals(s), 1, s.len() as int)),
        StackLogic::Healing => {
            let by_id = if overriden_stack_id > 0 {
                index_of_stack_id(s, overriden_stack_id)
            } else {
                None
            };
            match by_id {
                Some(i) => Some(i),
                None => if overriden_duration > 0 {
                    Some(argmin(distances(s, overriden_duration), 0, s.len() as int))
                } else {
                    Some(s.len() - 1)
                },
            }
        },
        _ => if s.len() == 0 {
            None
        } else {
            Some(0)
        },
    }
}

/// Evicts a stack for `to_add`, if there is one to evict: the evicted stack
/// is wasted at its start, and `to_add` (as a stack without instance id)
/// takes its place, or its sorted place under override logic.
pub open spec fn find_lowest_spec(
    c: SimConfig,
    st: SimModel,
    to_add: StackModel<u32>,
    overriden_duration: i64,
    overriden_stack_id: u64,
) -> Option<SimModel> {
    match lowest_index(c, st.stacks, overriden_duration, overriden_stack_id) {
        None => None,
        Some(i) => {
            let removed = st.stacks[i];
            let rest = st.stacks.remove(i);
            let item = StackModel { stack_id: 0, ..to_add };
            Some(
                SimModel {
                    stacks: if c.logic == StackLogic::Override {
                        add_by_logic_spec(c, st.no_sort, rest, item)
                    } else {
                        rest.insert(i, item)
                    },
                    result: ResultModel {
                        wastes: st.result.wastes + stack_wastes(removed, removed.start),
                        ..st.result
                    },
                    ..st
                },
            )
        },
    }
}

/// Queue and regeneration logics move the stack with identity `uid` to the front.
pub open spec fn activate_uid_spec(c: SimConfig, s: Seq<StackModel<u32>>, uid: u64) -> Seq<
    StackModel<u32>,
> {
    if c.logic == StackLogic::Queue || c.logic == StackLogic::Healing {
        match index_of_uid(s, uid) {
            Some(i) => to_front(s, i),
            None => s,
        }
    } else {
        s
    }
}

/// Adds `to_add`: directly when there is room, else by eviction, else as an
/// overstack; then moves it to the front if it is added active.
pub open spec fn add_inner_spec(
    c: SimConfig,
    st: SimModel,
    to_add: StackModel<u32>,
    added_active: bool,
    overriden_duration: i64,
    overriden_stack_id: u64,
) -> SimModel {
    let st1 = if !is_full_spec(c, st.stacks) {
        SimModel { stacks: add_by_logic_spec(c, st.no_sort, st.stacks, to_add), ..st }
    } else {
        match find_lowest_spec(c, st, to_add, overriden_duration, overriden_stack_id) {
            Some(s2) => s2,
            None => SimModel {
                result: ResultModel {
                    overstacks: st.result.overstacks.push(
                        WasteEvent { time: to_add.start, src: to_add.src, value: to_add.duration },
                    ),
                    ..st.result
                },
                ..st
            },
        }
    };
    if added_active {
        SimModel { stacks: activate_uid_spec(c, st1.stacks, to_add.uid), ..st1 }
    } else {
        st1
    }
}

/// A fresh stack of the simulator (taking the next identity).
pub open spec fn fresh_stack(
    st: SimModel,
    duration: i64,
    src: u32,
    seed_src: u32,
    start: i64,
    is_extension: bool,
    stack_id: u64,
) -> StackModel<u32> {
    StackModel {
        uid: st.next_uid,
        start,
        duration,
        src,
        seed_src,
        is_extension,
        stack_id,
        extensions: Seq::empty(),
    }
}

fn wabs_exec(x: i64) -> (r: i64)
    ensures
        r == wabs(x),
{
    if x < 0 {
        0i64.wrapping_sub(x)
    } else {
        x
    }
}

pub(crate) proof fn lemma_argmin_bounds(v: Seq<i64>, lo: int, hi: int)
    requires
        lo < hi,
    ensures
        lo <= argmin(v, lo, hi) < hi,
    decreases hi - lo,
{
    if hi > lo + 1 {
        lemma_argmin_bounds(v, lo, hi - 1);
    }
}

impl Simulator {
    fn take_uid(&mut self) -> (r: u64)
        ensures
            r == old(self).next_uid,
            final(self)@ == (SimModel { next_uid: old(self).next_uid.wrapping_add(1), ..old(self)@ }),
            final(self).config() == old(self).config(),
    {
        let u = self.next_uid;
        self.next_uid = self.next_uid.wrapping_add(1);
        u
    }

    fn new_stack_seeded(
        &mut self,
        duration: i64,
        src: u32,
        seed_src: u32,
        start: i64,
        is_extension: bool,
        stack_id: u64,
    ) -> (r: StackItem<u32>)
        ensures
            r@ == fresh_stack(old(self)@, duration, src, seed_src, start, is_extension, stack_id),
            final(self)@ == (SimModel { next_uid: old(self).next_uid.wrapping_add(1), ..old(self)@ }),
            final(self).config() == old(self).config(),
    {
        let uid = self.take_uid();
        let r = StackItem {
            uid,
            start,
            duration,
            src,
            seed_src,
            is_extension,
            stack_id,
            extensions: Vec::new(),
        };
        assert(r@.extensions =~= Seq::<(u32, i64)>::empty());
        r
    }

    fn push_waste(&mut self, to_remove: &StackItem<u32>, time: i64)
        ensures
            final(self)@ == (SimModel {
                result: ResultModel {
                    wastes: old(self)@.result.wastes + stack_wastes(to_remove@, time),
                    ..old(self)@.result
                },
                ..old(self)@
            }),
            final(self).config() == old(self).config(),
    {
        self.result.wastes.push(WasteEvent { time, src: to_remove.src, value: to_remove.duration });
        let ghost w0 = old(self)@.result.wastes;
        let ghost ws = stack_wastes(to_remove@, time);
        let mut i: usize = 0;
        while i < to_remove.extensions.len()
            invariant
                i <= to_remove.extensions@.len(),
                ws == stack_wastes(to_remove@, time),
                self.result.wastes@ == w0 + ws.subrange(0, i + 1),
                self@ == (SimModel {
                    result: ResultModel { wastes: self.result.wastes@, ..old(self)@.result },
                    ..old(self)@
                }),
                self.config() == old(self).config(),
            decreases to_remove.extensions@.len() - i,
        {
            let (src, value) = to_remove.extensions[i];
            self.result.wastes.push(WasteEvent { time, src, value });
            assert(ws[i + 1] == (WasteEvent { time, src, value }));
            assert(self.result.wastes@ =~= w0 + ws.subrange(0, i + 2));
            i = i + 1;
        }
        assert(ws.subrange(0, i + 1) =~= ws);
    }

    fn find_uid(&self, uid: u64) -> (r: Option<usize>)
        ensures
            match r {
                Some(i) => index_of_uid(self@.stacks, uid) == Some(i as int),
                None => index_of_uid(self@.stacks, uid) is None,
            },
    {
        let ghost sv = self@.stacks;
        let mut i: usize = 0;
        assert(sv.skip(0) =~= sv);
        while i < self.stacks.len()
            invariant
                i <= sv.len(),
                sv == self@.stacks,
                index_of_uid(sv, uid) == match index_of_uid(sv.skip(i as int), uid) {
                    Some(j) => Some(j + i),
                    None => None,
                },
            decreases sv.len() - i,
        {
            assert(sv[i as int] == self.stacks@[i as int]@);
            if self.stacks[i].uid == uid {
                assert(sv.skip(i as int)[0] == sv[i as int]);
                return Some(i);
            }
            assert(sv.skip(i as int).drop_first() =~= sv.skip(i + 1));
            i = i + 1;
        }
        None
    }

    fn find_stack_id(&self, id: u64) -> (r: Option<usize>)
        ensures
            match r {
                Some(i) => index_of_stack_id(self@.stacks, id) == Some(i as int),
                None => index_of_stack_id(self@.stacks, id) is None,
            },
    {
        let ghost sv = self@.stacks;
        let mut i: usize = 0;
        assert(sv.skip(0) =~= sv);
        while i < self.stacks.len()
            invariant
                i <= sv.len(),
                sv == self@.stacks,
                index_of_stack_id(sv, id) == match index_of_stack_id(sv.skip(i as int), id) {
                    Some(j) => Some(j + i),
                    None => None,
                },
            decreases sv.len() - i,
        {
            assert(sv[i as int] == self.stacks@[i as int]@);
            if self.stacks[i].stack_id == id {
                assert(sv.skip(i as int)[0] == sv[i as int]);
                return Some(i);
            }
            assert(sv.skip(i as int).drop_first() =~= sv.skip(i + 1));
            i = i + 1;
        }
        None
    }

    /// Moves stack `i` to the front.
    fn move_to_front(&mut self, i: usize)
        requires
            i < old(self)@.stacks.len(),
        ensures
            final(self)@ == (SimModel { stacks: to_front(old(self)@.stacks, i as int), ..old(self)@ }),
            final(self).config() == old(self).config(),
    {
        let item = self.stacks.remove(i);
        self.stacks.insert(0, item);
        assert(stacks_view(self.stacks@) =~= to_front(old(self)@.stacks, i as int));
    }

    fn activate_uid(&mut self, uid: u64)
        ensures
            final(self)@ == (SimModel {
                stacks: activate_uid_spec(old(self).config(), old(self)@.stacks, uid),
                ..old(self)@
            }),
            final(self).config() == old(self).config(),
    {
        if !(self.logic == StackLogic::Queue || self.logic == StackLogic::Healing) {
            return;
        }
        match self.find_uid(uid) {
            Some(idx) => {
                proof {
                    lemma_index_of_uid_bound(self@.stacks, uid);
                }
                self.move_to_front(idx);
            },
            None => {},
        }
    }

    /// Index of the first stack with the smallest total in `[lo, len)`.
    fn argmin_total(&self, lo: usize) -> (r: usize)
        requires
            lo < self@.stacks.len(),
        ensures
            r == argmin(totals(self@.stacks), lo as int, self@.stacks.len() as int),
    {
        let ghost tot = totals(self@.stacks);
        let _n = self.stacks.len();
        let mut best = lo;
        let mut best_v = self.stacks[lo].total_duration();
        let mut i = lo + 1;
        while i < self.stacks.len()
            invariant
                lo < i <= self@.stacks.len(),
                tot == totals(self@.stacks),
                best == argmin(tot, lo as int, i as int),
                best_v == tot[best as int],
                lo <= best < i,
            decreases self@.stacks.len() - i,
        {
            let v = self.stacks[i].total_duration();
            if v < best_v {
                best = i;
                best_v = v;
            }
            i = i + 1;
        }
        best
    }

    /// Index of the first stack whose total is closest to `d`.
    fn argmin_distance(&self, d: i64) -> (r: usize)
        requires
            0 < self@.stacks.len(),
        ensures
            r == argmin(distances(self@.stacks, d), 0, self@.stacks.len() as int),
            r < self@.stacks.len(),
    {
        let ghost dist = distances(self@.stacks, d);
        let mut best: usize = 0;
        let mut best_v = wabs_exec(self.stacks[0].total_duration().wrapping_sub(d));
        let mut i: usize = 1;
        while i < self.stacks.len()
            invariant
                0 < i <= self@.stacks.len(),
                dist == distances(self@.stacks, d),
                best == argmin(dist, 0, i as int),
                best_v == dist[best as int],
                best < i,
            decreases self@.stacks.len() - i,
        {
            let v = wabs_exec(self.stacks[i].total_duration().wrapping_sub(d));
            if v < best_v {
                best = i;
                best_v = v;
            }
            i = i + 1;
        }
        best
    }

    /// Evicts a stack for `to_add`; false when there is none to evict.
    fn find_lowest_value(&mut self, to_add: StackItem<u32>, overriden_duration: i64, overriden_stack_id: u64) -> (r: bool)
        requires
            (old(self).logic == StackLogic::Queue || old(self).logic == StackLogic::Healing)
                ==> old(self)@.stacks.len() >= 2,
        ensures
            match find_lowest_spec(old(self).config(), old(self)@, to_add@, overriden_duration, overriden_stack_id) {
                Some(s2) => r && final(self)@ == s2,
                None => !r && final(self)@ == old(self)@,
            },
            final(self).config() == old(self).config(),
    {
        let ghost c = self.config();
        let ghost st = self@;
        let n = self.stacks.len();
        let remove_idx: usize = match self.logic {
            StackLogic::Queue => {
                self.argmin_total(1)
            },
            StackLogic::Healing => {
                let by_id = if overriden_stack_id > 0 {
                    self.find_stack_id(overriden_stack_id)
                } else {
                    None
                };
                match by_id {
                    Some(i) => {
                        proof {
                            lemma_index_of_stack_id_bound(self@.stacks, overriden_stack_id);
                        }
                        i
                    },
                    None => if overriden_duration > 0 {
                        self.argmin_distance(overriden_duration)
                    } else {
                        n - 1
                    },
                }
            },
            _ => {
                if n == 0 {
                    return false;
                }
                0
            },
        };
        proof {
            if c.logic == StackLogic::Queue {
                lemma_argmin_bounds(totals(st.stacks), 1, st.stacks.len() as int);
            }
        }
        assert(lowest_index(c, st.stacks, overriden_duration, overriden_stack_id) == Some(remove_idx as int));
        let to_remove = self.stacks.remove(remove_idx);
        assert(stacks_view(self.stacks@) =~= st.stacks.remove(remove_idx as int));
        assert(to_remove@ == st.stacks[remove_idx as int]);
        let time = to_remove.start;
        self.push_waste(&to_remove, time);
        let mut item = to_add;
        item.stack_id = 0;
        assert(item@ == (StackModel { stack_id: 0, ..to_add@ }));
        match self.logic {
            StackLogic::Override => self.add_by_logic(item),
            _ => {
                self.stacks.insert(remove_idx, item);
                assert(stacks_view(self.stacks@) =~= st.stacks.remove(remove_idx as int).insert(
                    remove_idx as int,
                    item@,
                ));
            },
        }
        true
    }

    fn add_inner(&mut self, to_add: StackItem<u32>, added_active: bool, overriden_duration: i64, overriden_stack_id: u64)
        requires
            old(self).wf(),
        ensures
            final(self)@ == add_inner_spec(
                old(self).config(),
                old(self)@,
                to_add@,
                added_active,
                overriden_duration,
                overriden_stack_id,
            ),
            final(self).config() == old(self).config(),
    {
        let uid = to_add.uid;
        let start = to_add.start;
        let duration = to_add.duration;
        let src = to_add.src;
        if !self.is_full() {
            self.add_by_logic(to_add);
        } else if !self.find_lowest_value(to_add, overriden_duration, overriden_stack_id) {
            self.result.overstacks.push(WasteEvent { time: start, src, value: duration });
        }
        if added_active {
            self.activate_uid(uid);
        }
    }
}

pub(crate) proof fn lemma_index_of_uid_bound(s: Seq<StackModel<u32>>, uid: u64)
    ensures
        index_of_uid(s, uid) matches Some(i) ==> 0 <= i < s.len(),
    decreases s.len(),
{
    if s.len() > 0 && s[0].uid != uid {
        lemma_index_of_uid_bound(s.drop_first(), uid);
    }
}

pub(crate) proof fn lemma_index_of_stack_id_bound(s: Seq<StackModel<u32>>, id: u64)
    ensures
        index_of_stack_id(s, id) matches Some(i) ==> 0 <= i < s.len(),
    decreases s.len(),
{
    if s.len() > 0 && s[0].stack_id != id {
        lemma_index_of_stack_id_bound(s.drop_first(), id);
    }
}

// ===== activation, removal, extension =====

/// Activation by instance id (regeneration only): freezes the healing order
/// and puts the stack in front, replacing a head that has less than
/// [`STACK_ACTIVE_FRESH`] left.
pub open spec fn activate_spec(c: SimConfig, st: SimModel, stack_id: u64) -> SimModel {
    if c.logic != StackLogic::Healing {
        st
    } else {
        match index_of_stack_id(st.stacks, stack_id) {
            None => st,
            Some(i) => {
                let item = st.stacks[i];
                let rest = st.stacks.remove(i);
                SimModel {
                    no_sort: true,
                    stacks: if rest.len() > 0 && total_of(rest[0]) < STACK_ACTIVE_FRESH {
                        rest.update(0, item)
                    } else {
                        rest.insert(0, item)
                    },
                    ..st
                }
            },
        }
    }
}

/// Wastes of all stacks at `time`, stack by stack.
pub open spec fn all_wastes(s: Seq<StackModel<u32>>, time: i64) -> Seq<WasteEvent<u32>>
    decreases s.len(),
{
    if s.len() == 0 {
        Seq::empty()
    } else {
        all_wastes(s.drop_last(), time) + stack_wastes(s.last(), time)
    }
}

/// Removal of all stacks: each is wasted at `time`.
pub open spec fn remove_all_spec(st: SimModel, time: i64) -> SimModel {
    SimModel {
        stacks: Seq::empty(),
        result: ResultModel { wastes: st.result.wastes + all_wastes(st.stacks, time), ..st.result },
        ..st
    }
}

/// Index of the first stack whose total is within the removal tolerance of `removed`.
pub open spec fn index_of_removal(s: Seq<StackModel<u32>>, removed: i64) -> Option<int>
    decreases s.len(),
{
    if s.len() == 0 {
        None
    } else if wabs(removed.wrapping_sub(total_of(s[0]))) < REMOVE_TOLERANCE {
        Some(0)
    } else {
        match index_of_removal(s.drop_first(), removed) {
            Some(i) => Some(i + 1),
            None => None,
        }
    }
}

/// Removal of one stack, matched by its remaining total; it is wasted at `time`.
pub open spec fn remove_single_spec(st: SimModel, removed: i64, time: i64) -> SimModel {
    match index_of_removal(st.stacks, removed) {
        None => st,
        Some(i) => SimModel {
            stacks: st.stacks.remove(i),
            result: ResultModel {
                wastes: st.result.wastes + stack_wastes(st.stacks[i], time),
                ..st.result
            },
            ..st
        },
    }
}

/// `s` with `(src, value)` queued on its extensions.
pub open spec fn with_extension(s: StackModel<u32>, src: u32, value: i64) -> StackModel<u32> {
    StackModel { extensions: s.extensions.push((src, value)), ..s }
}

/// An extension: queued on an existing stack when the buff was still up (or
/// there is no room), otherwise a new stack of `old_value + extension`,
/// seeded by the stack that ran out last.
pub open spec fn extend_spec(
    c: SimConfig,
    st: SimModel,
    extension: i64,
    old_value: i64,
    src: u32,
    start: i64,
    stack_id: u64,
) -> SimModel {
    let queued = (st.stacks.len() > 0 && old_value > 0) || is_full_spec(c, st.stacks);
    let value = old_value.wrapping_add(extension);
    let bumped = SimModel { next_uid: st.next_uid.wrapping_add(1), ..st };
    match c.buff_type {
        BuffType::Duration => if queued {
            if st.stacks.len() > 0 {
                SimModel { stacks: st.stacks.update(0, with_extension(st.stacks[0], src, extension)), ..st }
            } else {
                st
            }
        } else {
            add_inner_spec(
                c,
                bumped,
                fresh_stack(st, value, src, st.last_src_remove.0, start, st.last_src_remove.1, stack_id),
                true,
                0,
                0,
            )
        },
        BuffType::Intensity => if queued {
            if st.stacks.len() > 0 {
                let i = argmin(distances(st.stacks, old_value), 0, st.stacks.len() as int);
                SimModel { stacks: st.stacks.update(i, with_extension(st.stacks[i], src, extension)), ..st }
            } else {
                st
            }
        } else if st.last_src_removes.len() > 0 {
            add_inner_spec(
                c,
                SimModel { last_src_removes: st.last_src_removes.drop_first(), ..bumped },
                fresh_stack(
                    st,
                    value,
                    src,
                    st.last_src_removes[0].0,
                    start,
                    st.last_src_removes[0].1,
                    stack_id,
                ),
                false,
                0,
                0,
            )
        } else {
            add_inner_spec(c, bumped, fresh_stack(st, value, src, src, start, false, stack_id), true, 0, 0)
        },
    }
}

impl Simulator {
    fn activate(&mut self, stack_id: u64)
        ensures
            final(self)@ == activate_spec(old(self).config(), old(self)@, stack_id),
            final(self).config() == old(self).config(),
    {
        if self.logic != StackLogic::Healing {
            return;
        }
        let idx = match self.find_stack_id(stack_id) {
            Some(i) => i,
            None => return,
        };
        proof {
            lemma_index_of_stack_id_bound(self@.stacks, stack_id);
        }
        let ghost st = self@;
        self.no_sort = true;
        let to_activate = self.stacks.remove(idx);
        assert(stacks_view(self.stacks@) =~= st.stacks.remove(idx as int));
        if self.stacks.len() > 0 && self.stacks[0].total_duration() < STACK_ACTIVE_FRESH {
            self.stacks.set(0, to_activate);
            assert(stacks_view(self.stacks@) =~= st.stacks.remove(idx as int).update(
                0,
                st.stacks[idx as int],
            ));
        } else {
            self.stacks.insert(0, to_activate);
            assert(stacks_view(self.stacks@) =~= st.stacks.remove(idx as int).insert(
                0,
                st.stacks[idx as int],
            ));
        }
    }

    fn remove_all(&mut self, time: i64)
        requires
            old(self).wf(),
        ensures
            final(self)@ == remove_all_spec(old(self)@, time),
            final(self).config() == old(self).config(),
    {
        let ghost st = self@;
        let mut i: usize = 0;
        while i < self.stacks.len()
            invariant
                i <= self.stacks@.len(),
                stacks_view(self.stacks@) == st.stacks,
                self@ == (SimModel {
                    result: ResultModel {
                        wastes: st.result.wastes + all_wastes(st.stacks.take(i as int), time),
                        ..st.result
                    },
                    ..st
                }),
                self.config() == old(self).config(),
            decreases self.stacks@.len() - i,
        {
            proof {
                assert(st.stacks.take(i + 1).drop_last() =~= st.stacks.take(i as int));
                assert(st.stacks.take(i + 1).last() == self.stacks@[i as int]@);
            }
            let ghost w = self.result.wastes@;
            let mut s: Vec<StackItem<u32>> = Vec::new();
            std::mem::swap(&mut s, &mut self.stacks);
            self.push_waste(&s[i], time);
            std::mem::swap(&mut s, &mut self.stacks);
            assert(self.result.wastes@ =~= st.result.wastes + all_wastes(st.stacks.take(i + 1), time));
            i = i + 1;
        }
        assert(st.stacks.take(i as int) =~= st.stacks);
        self.stacks.clear();
        assert(stacks_view(self.stacks@) =~= Seq::<StackModel<u32>>::empty());
    }

    fn find_removal(&self, removed: i64) -> (r: Option<usize>)
        ensures
            match r {
                Some(i) => index_of_removal(self@.stacks, removed) == Some(i as int),
                None => index_of_removal(self@.stacks, removed) is None,
            },
    {
        let ghost sv = self@.stacks;
        let mut i: usize = 0;
        assert(sv.skip(0) =~= sv);
        while i < self.stacks.len()
            invariant
                i <= sv.len(),
                sv == self@.stacks,
                index_of_removal(sv, removed) == match index_of_removal(sv.skip(i as int), removed) {
                    Some(j) => Some(j + i),
                    None => None,
                },
            decreases sv.len() - i,
        {
            assert(sv[i as int] == self.stacks@[i as int]@);
            if wabs_exec(removed.wrapping_sub(self.stacks[i].total_duration())) < REMOVE_TOLERANCE {
                assert(sv.skip(i as int)[0] == sv[i as int]);
                return Some(i);
            }
            assert(sv.skip(i as int).drop_first() =~= sv.skip(i + 1));
            i = i + 1;
        }
        None
    }

    fn remove_single(&mut self, removed_duration: i64, time: i64)
        ensures
            final(self)@ == remove_single_spec(old(self)@, removed_duration, time),
            final(self).config() == old(self).config(),
    {
        let idx = match self.find_removal(removed_duration) {
            Some(i) => i,
            None => return,
        };
        proof {
            lemma_index_of_removal_bound(self@.stacks, removed_duration);
        }
        let ghost st = self@;
        let s = self.stacks.remove(idx);
        assert(stacks_view(self.stacks@) =~= st.stacks.remove(idx as int));
        self.push_waste(&s, time);
    }

    fn extend(&mut self, extension: i64, old_value: i64, src: u32, start: i64, stack_id: u64)
        requires
            old(self).wf(),
        ensures
            final(self)@ == extend_spec(
                old(self).config(),
                old(self)@,
                extension,
                old_value,
                src,
                start,
                stack_id,
            ),
            final(self).config() == old(self).config(),
    {
        let ghost st = self@;
        let queued = (self.stacks.len() > 0 && old_value > 0) || self.is_full();
        match self.buff_type {
            BuffType::Duration => {
                if queued {
                    if self.stacks.len() > 0 {
                        self.stacks[0].extensions.push((src, extension));
                        assert(stacks_view(self.stacks@) =~= st.stacks.update(
                            0,
                            with_extension(st.stacks[0], src, extension),
                        ));
                    }
                } else {
                    let (seed, is_ext) = self.last_src_remove;
                    let to_add = self.new_stack_seeded(
                        old_value.wrapping_add(extension),
                        src,
                        seed,
                        start,
                        is_ext,
                        stack_id,
                    );
                    self.add_inner(to_add, true, 0, 0);
                }
            },
            BuffType::Intensity => {
                if queued {
                    if self.stacks.len() > 0 {
                        let i = self.argmin_distance(old_value);
                        self.stacks[i].extensions.push((src, extension));
                        assert(stacks_view(self.stacks@) =~= st.stacks.update(
                            i as int,
                            with_extension(st.stacks[i as int], src, extension),
                        ));
                    }
                } else if self.last_src_removes.len() > 0 {
                    let (seed, is_ext) = self.last_src_removes.remove(0);
                    let to_add = self.new_stack_seeded(
                        old_value.wrapping_add(extension),
                        src,
                        seed,
                        start,
                        is_ext,
                        stack_id,
                    );
                    self.add_inner(to_add, false, 0, 0);
                } else {
                    let to_add = self.new_stack_seeded(
                        old_value.wrapping_add(extension),
                        src,
                        src,
                        start,
                        false,
                        stack_id,
                    );
                    self.add_inner(to_add, true, 0, 0);
                }
            },
        }
    }
}

pub(crate) proof fn lemma_index_of_removal_bound(s: Seq<StackModel<u32>>, removed: i64)
    ensures
        index_of_removal(s, removed) matches Some(i) ==> 0 <= i < s.len(),
    decreases s.len(),
{
    if s.len() > 0 && !(wabs(removed.wrapping_sub(total_of(s[0]))) < REMOVE_TOLERANCE) {
        lemma_index_of_removal_bound(s.drop_first(), removed);
    }
}

// ===== time passing =====

/// Number of queued extensions over all stacks.
pub open spec fn ext_count(s: Seq<StackModel<u32>>) -> nat
    decreases s.len(),
{
    if s.len() == 0 {
        0
    } else {
        s[0].extensions.len() + ext_count(s.drop_first())
    }
}

/// Stacks and extensions left: every step that carries time over consumes one.
pub open spec fn stack_weight(s: Seq<StackModel<u32>>) -> nat {
    s.len() + ext_count(s)
}

/// Every stack shifted by the same amounts.
pub open spec fn shift_all(s: Seq<StackModel<u32>>, start_shift: i64, duration_shift: i64) -> Seq<StackModel<u32>> {
    s.map_values(|x: StackModel<u32>| shift_model(x, start_shift, duration_shift))
}

/// The head's segment for a duration buff and the state after `diff`
/// milliseconds of it, with the time left over.
pub open spec fn dur_step(st: SimModel, passed: i64) -> (SimModel, i64) {
    let head = st.stacks[0];
    let time_diff = head.duration.wrapping_sub(passed);
    let diff = if time_diff < 0 {
        head.duration
    } else {
        passed
    };
    let leftover = if time_diff < 0 {
        passed.wrapping_sub(head.duration)
    } else {
        0i64
    };
    let item = GenModel {
        start: head.start,
        end: head.start.wrapping_add(diff),
        groups: seq![
            Group {
                src: head.src,
                seed_src: head.seed_src,
                is_extension: head.is_extension,
                count: 1,
            },
        ],
    };
    let shifted = shift_all(st.stacks.update(0, shift_model(head, 0, diff)), diff, 0);
    let expired = shifted[0].duration == 0;
    (
        SimModel {
            stacks: if expired {
                shifted.drop_first()
            } else {
                shifted
            },
            last_src_remove: if expired {
                (shifted[0].seed_src, shifted[0].is_extension)
            } else {
                (UNKNOWN_AGENT, false)
            },
            result: ResultModel { items: st.result.items.push(item), ..st.result },
            ..st
        },
        leftover,
    )
}

/// Duration buff: time passes on the head stack only; the segment is the
/// head's, a stack that runs out leaves, and time left over goes on.
pub open spec fn update_duration_spec(st: SimModel, passed: i64) -> SimModel
    decreases stack_weight(st.stacks),
    via update_duration_decreases
{
    if st.stacks.len() == 0 || passed <= 0 {
        st
    } else {
        let (st2, leftover) = dur_step(st, passed);
        if leftover > 0 {
            update_duration_spec(st2, leftover)
        } else {
            st2
        }
    }
}

proof fn lemma_ext_count_drop_first(s: Seq<StackModel<u32>>)
    requires
        s.len() > 0,
    ensures
        ext_count(s) == s[0].extensions.len() + ext_count(s.drop_first()),
{
}

proof fn lemma_ext_count_update0(s: Seq<StackModel<u32>>, y: StackModel<u32>)
    requires
        s.len() > 0,
    ensures
        ext_count(s.update(0, y)) == y.extensions.len() + ext_count(s.drop_first()),
{
    assert(s.update(0, y).drop_first() =~= s.drop_first());
}

proof fn lemma_shift_ext_len(x: StackModel<u32>, a: i64, b: i64)
    ensures
        shift_model(x, a, b).extensions.len() <= x.extensions.len(),
        shift_model(x, a, b).extensions.len() < x.extensions.len() || shift_model(x, a, b).duration
            == x.duration.wrapping_sub(b),
{
}

proof fn lemma_ext_count_shift_all(s: Seq<StackModel<u32>>, a: i64, b: i64)
    ensures
        ext_count(shift_all(s, a, b)) <= ext_count(s),
        shift_all(s, a, b).len() == s.len(),
    decreases s.len(),
{
    if s.len() > 0 {
        assert(shift_all(s, a, b).drop_first() =~= shift_all(s.drop_first(), a, b));
        lemma_ext_count_shift_all(s.drop_first(), a, b);
        lemma_shift_ext_len(s[0], a, b);
    }
}

pub(crate) proof fn lemma_dur_step_weight(st: SimModel, passed: i64)
    requires
        st.stacks.len() > 0,
        passed > 0,
        dur_step(st, passed).1 > 0,
    ensures
        stack_weight(dur_step(st, passed).0.stacks) < stack_weight(st.stacks),
{
    let head = st.stacks[0];
    let diff = head.duration;
    let h1 = shift_model(head, 0, diff);
    let u = st.stacks.update(0, h1);
    let shifted = shift_all(u, diff, 0);
    lemma_ext_count_update0(st.stacks, h1);
    lemma_ext_count_drop_first(st.stacks);
    lemma_ext_count_shift_all(u, diff, 0);
    lemma_shift_ext_len(head, 0, diff);
    lemma_shift_ext_len(h1, diff, 0);
    assert(shifted[0] == shift_model(h1, diff, 0));
    lemma_ext_count_drop_first(shifted);
    assert(shifted.drop_first() =~= shift_all(st.stacks.drop_first(), diff, 0));
    lemma_ext_count_shift_all(st.stacks.drop_first(), diff, 0);
}

#[via_fn]
proof fn update_duration_decreases(st: SimModel, passed: i64) {
    if !(st.stacks.len() == 0 || passed <= 0) {
        if dur_step(st, passed).1 > 0 {
            lemma_dur_step_weight(st, passed);
        }
    }
}

/// Index of the group of stack `x`, if it has one yet.
pub open spec fn group_index(g: Seq<Group<u32>>, x: StackModel<u32>) -> Option<int>
    decreases g.len(),
{
    if g.len() == 0 {
        None
    } else if g[0].src == x.src && g[0].seed_src == x.seed_src && g[0].is_extension == x.is_extension {
        Some(0)
    } else {
        match group_index(g.drop_first(), x) {
            Some(i) => Some(i + 1),
            None => None,
        }
    }
}

/// Groups of the stacks, in order of first appearance, with their counts.
pub open spec fn group_stacks(s: Seq<StackModel<u32>>) -> Seq<Group<u32>>
    decreases s.len(),
{
    if s.len() == 0 {
        Seq::empty()
    } else {
        let g = group_stacks(s.drop_last());
        let x = s.last();
        match group_index(g, x) {
            Some(j) => g.update(j, Group { count: g[j].count.wrapping_add(1), ..g[j] }),
            None => g.push(
                Group { src: x.src, seed_src: x.seed_src, is_extension: x.is_extension, count: 1 },
            ),
        }
    }
}

/// Smallest own duration of a non-empty list of stacks.
pub open spec fn min_duration(s: Seq<StackModel<u32>>) -> i64
    decreases s.len(),
{
    if s.len() <= 1 {
        s[0].duration
    } else {
        let m = min_duration(s.drop_last());
        if s.last().duration < m {
            s.last().duration
        } else {
            m
        }
    }
}

/// The stacks with time left, in order.
pub open spec fn keep_live(s: Seq<StackModel<u32>>) -> Seq<StackModel<u32>>
    decreases s.len(),
{
    if s.len() == 0 {
        Seq::empty()
    } else if s[0].duration != 0 {
        seq![s[0]] + keep_live(s.drop_first())
    } else {
        keep_live(s.drop_first())
    }
}

/// Seed source and extension flag of the stacks that ran out, last first.
pub open spec fn expired_marks(s: Seq<StackModel<u32>>) -> Seq<(u32, bool)>
    decreases s.len(),
{
    if s.len() == 0 {
        Seq::empty()
    } else if s[0].duration == 0 {
        expired_marks(s.drop_first()).push((s[0].seed_src, s[0].is_extension))
    } else {
        expired_marks(s.drop_first())
    }
}

/// The segment of an intensity buff and the state after `diff`
/// milliseconds on every stack, with the time left over.
pub open spec fn int_step(st: SimModel, passed: i64) -> (SimModel, i64) {
    let m = min_duration(st.stacks);
    let diff = if m < passed {
        m
    } else {
        passed
    };
    let leftover = passed.wrapping_sub(diff);
    let start = st.stacks[0].start;
    let item = GenModel { start, end: start.wrapping_add(diff), groups: group_stacks(st.stacks) };
    let shifted = shift_all(st.stacks, diff, diff);
    (
        SimModel {
            stacks: keep_live(shifted),
            last_src_removes: if leftover == 0 {
                expired_marks(shifted)
            } else {
                st.last_src_removes
            },
            result: ResultModel { items: st.result.items.push(item), ..st.result },
            ..st
        },
        leftover,
    )
}

/// Intensity buff: time passes on every stack up to the first expiry; the
/// segment lists every stack; the expired ones leave and time left over goes on.
pub open spec fn update_intensity_spec(st: SimModel, passed: i64) -> SimModel
    decreases stack_weight(st.stacks),
    via update_intensity_decreases
{
    if st.stacks.len() == 0 || passed <= 0 {
        st
    } else {
        let (st2, leftover) = int_step(st, passed);
        if leftover > 0 {
            update_intensity_spec(st2, leftover)
        } else {
            st2
        }
    }
}

proof fn lemma_min_duration_attained(s: Seq<StackModel<u32>>)
    requires
        s.len() > 0,
    ensures
        exists|k: int| 0 <= k < s.len() && s[k].duration == min_duration(s),
    decreases s.len(),
{
    if s.len() > 1 {
        lemma_min_duration_attained(s.drop_last());
        let k = choose|k: int| 0 <= k < s.drop_last().len() && s.drop_last()[k].duration
            == min_duration(s.drop_last());
        assert(s[k] == s.drop_last()[k]);
        assert(s[s.len() - 1] == s.last());
    } else {
        assert(s[0].duration == min_duration(s));
    }
}

proof fn lemma_keep_live_weight(s: Seq<StackModel<u32>>)
    ensures
        stack_weight(keep_live(s)) <= stack_weight(s),
        (exists|k: int| 0 <= k < s.len() && s[k].duration == 0) ==> stack_weight(keep_live(s))
            < stack_weight(s),
    decreases s.len(),
{
    if s.len() > 0 {
        lemma_keep_live_weight(s.drop_first());
        lemma_ext_count_drop_first(s);
        if s[0].duration != 0 {
            let rest = keep_live(s.drop_first());
            assert((seq![s[0]] + rest).drop_first() =~= rest);
            lemma_ext_count_drop_first(seq![s[0]] + rest);
        }
        if exists|k: int| 0 <= k < s.len() && s[k].duration == 0 {
            let k = choose|k: int| 0 <= k < s.len() && s[k].duration == 0;
            if k > 0 {
                assert(s.drop_first()[k - 1] == s[k]);
            }
        }
    }
}

proof fn lemma_shift_all_strict(s: Seq<StackModel<u32>>, a: i64, b: i64, k: int)
    requires
        0 <= k < s.len(),
        shift_all(s, a, b)[k].extensions.len() < s[k].extensions.len(),
    ensures
        ext_count(shift_all(s, a, b)) < ext_count(s),
    decreases s.len(),
{
    assert(shift_all(s, a, b).drop_first() =~= shift_all(s.drop_first(), a, b));
    lemma_ext_count_drop_first(s);
    lemma_ext_count_drop_first(shift_all(s, a, b));
    if k == 0 {
        lemma_ext_count_shift_all(s.drop_first(), a, b);
    } else {
        lemma_shift_all_strict(s.drop_first(), a, b, k - 1);
        lemma_shift_ext_len(s[0], a, b);
    }
}

pub(crate) proof fn lemma_int_step_weight(st: SimModel, passed: i64)
    requires
        st.stacks.len() > 0,
        passed > 0,
        int_step(st, passed).1 > 0,
    ensures
        stack_weight(int_step(st, passed).0.stacks) < stack_weight(st.stacks),
{
    let m = min_duration(st.stacks);
    assert(m < passed);
    lemma_min_duration_attained(st.stacks);
    let k = choose|k: int| 0 <= k < st.stacks.len() && st.stacks[k].duration == m;
    let shifted = shift_all(st.stacks, m, m);
    lemma_ext_count_shift_all(st.stacks, m, m);
    lemma_keep_live_weight(shifted);
    lemma_shift_ext_len(st.stacks[k], m, m);
    assert(shifted[k] == shift_model(st.stacks[k], m, m));
    if shifted[k].extensions.len() < st.stacks[k].extensions.len() {
        lemma_shift_all_strict(st.stacks, m, m, k);
    } else {
        assert(shifted[k].duration == 0);
    }
}

#[via_fn]
proof fn update_intensity_decreases(st: SimModel, passed: i64) {
    if !(st.stacks.len() == 0 || passed <= 0) {
        if int_step(st, passed).1 > 0 {
            lemma_int_step_weight(st, passed);
        }
    }
}

/// The tail segments that end after `log_end` end there instead.
pub open spec fn trim_items(items: Seq<GenModel<u32>>, log_end: i64) -> Seq<GenModel<u32>>
    decreases items.len(),
{
    if items.len() == 0 {
        items
    } else if items.last().end > log_end {
        trim_items(items.drop_last(), log_end).push(GenModel { end: log_end, ..items.last() })
    } else {
        items
    }
}

fn group_of(groups: &Vec<Group<u32>>, x: &StackItem<u32>) -> (r: Option<usize>)
    ensures
        match r {
            Some(i) => group_index(groups@, x@) == Some(i as int) && i < groups@.len(),
            None => group_index(groups@, x@) is None,
        },
{
    let ghost g = groups@;
    let mut i: usize = 0;
    assert(g.skip(0) =~= g);
    while i < groups.len()
        invariant
            i <= g.len(),
            g == groups@,
            group_index(g, x@) == match group_index(g.skip(i as int), x@) {
                Some(j) => Some(j + i),
                None => None,
            },
        decreases g.len() - i,
    {
        if groups[i].src == x.src && groups[i].seed_src == x.seed_src && groups[i].is_extension
            == x.is_extension {
            assert(g.skip(i as int)[0] == g[i as int]);
            return Some(i);
        }
        assert(g.skip(i as int).drop_first() =~= g.skip(i + 1));
        i = i + 1;
    }
    None
}

fn group_stacks_exec(stacks: &Vec<StackItem<u32>>) -> (r: Vec<Group<u32>>)
    ensures
        r@ == group_stacks(stacks_view(stacks@)),
{
    let ghost sv = stacks_view(stacks@);
    let mut groups: Vec<Group<u32>> = Vec::new();
    let mut i: usize = 0;
    assert(sv.take(0) =~= Seq::<StackModel<u32>>::empty());
    while i < stacks.len()
        invariant
            i <= sv.len(),
            sv == stacks_view(stacks@),
            groups@ == group_stacks(sv.take(i as int)),
        decreases sv.len() - i,
    {
        assert(sv.take(i + 1).drop_last() =~= sv.take(i as int));
        assert(sv.take(i + 1).last() == stacks@[i as int]@);
        let x = &stacks[i];
        match group_of(&groups, x) {
            Some(j) => {
                let g = groups[j];
                groups.set(j, Group { count: g.count.wrapping_add(1), ..g });
            },
            None => {
                groups.push(
                    Group { src: x.src, seed_src: x.seed_src, is_extension: x.is_extension, count: 1 },
                );
            },
        }
        i = i + 1;
    }
    assert(sv.take(i as int) =~= sv);
    groups
}

impl Simulator {
    fn shift_every(&mut self, a: i64, b: i64)
        ensures
            final(self)@ == (SimModel { stacks: shift_all(old(self)@.stacks, a, b), ..old(self)@ }),
            final(self).config() == old(self).config(),
    {
        let ghost st = self@;
        let mut i: usize = 0;
        while i < self.stacks.len()
            invariant
                i <= self.stacks@.len(),
                self.stacks@.len() == st.stacks.len(),
                forall|j: int| 0 <= j < i ==> self.stacks@[j]@ == shift_model(st.stacks[j], a, b),
                forall|j: int| i <= j < st.stacks.len() ==> self.stacks@[j]@ == st.stacks[j],
                self@ == (SimModel { stacks: stacks_view(self.stacks@), ..st }),
                self.config() == old(self).config(),
                st == old(self)@,
            decreases st.stacks.len() - i,
        {
            self.stacks[i].shift(a, b);
            i = i + 1;
        }
        assert(stacks_view(self.stacks@) =~= shift_all(st.stacks, a, b));
    }

    fn push_item(&mut self, item: GenItem<u32>)
        ensures
            final(self)@ == (SimModel {
                result: ResultModel { items: old(self)@.result.items.push(item@), ..old(self)@.result },
                ..old(self)@
            }),
            final(self).config() == old(self).config(),
    {
        self.result.items.push(item);
        assert(self.result@.items =~= old(self)@.result.items.push(item@));
    }

    fn update_duration(&mut self, time_passed: i64)
        ensures
            final(self)@ == update_duration_spec(old(self)@, time_passed),
            final(self).config() == old(self).config(),
        decreases stack_weight(old(self)@.stacks),
    {
        if self.stacks.len() == 0 || time_passed <= 0 {
            return;
        }
        let ghost st = self@;
        let head_start = self.stacks[0].start;
        let head_duration = self.stacks[0].duration;
        let group = Group {
            src: self.stacks[0].src,
            seed_src: self.stacks[0].seed_src,
            is_extension: self.stacks[0].is_extension,
            count: 1,
        };
        let time_diff = head_duration.wrapping_sub(time_passed);
        let (diff, leftover): (i64, i64) = if time_diff < 0 {
            (head_duration, time_passed.wrapping_sub(head_duration))
        } else {
            (time_passed, 0)
        };
        let groups = vec![group];
        self.push_item(GenItem { start: head_start, end: head_start.wrapping_add(diff), groups });
        self.stacks[0].shift(0, diff);
        assert(stacks_view(self.stacks@) =~= st.stacks.update(0, shift_model(st.stacks[0], 0, diff)));
        self.shift_every(diff, 0);
        assert(stacks_view(self.stacks@).len() == self.stacks@.len());
        if self.stacks[0].duration == 0 {
            self.last_src_remove = (self.stacks[0].seed_src, self.stacks[0].is_extension);
            let ghost before = stacks_view(self.stacks@);
            self.stacks.remove(0);
            assert(stacks_view(self.stacks@) =~= before.drop_first());
        } else {
            self.last_src_remove = (UNKNOWN_AGENT, false);
        }
        proof {
            let d = dur_step(st, time_passed).0;
            assert(groups@ == seq![group]);
            assert(self@.result.items == d.result.items);
            assert(self@.result == d.result);
            assert(self@.stacks == d.stacks);
            assert(self@.last_src_remove == d.last_src_remove);
        }
        assert(self@ == dur_step(st, time_passed).0);
        if leftover > 0 {
            proof {
                lemma_dur_step_weight(st, time_passed);
            }
            self.update_duration(leftover);
        }
    }

    fn min_duration_exec(&self) -> (r: i64)
        requires
            self@.stacks.len() > 0,
        ensures
            r == min_duration(self@.stacks),
    {
        let ghost sv = self@.stacks;
        let mut m = self.stacks[0].duration;
        let mut i: usize = 1;
        assert(sv.take(1).len() == 1);
        while i < self.stacks.len()
            invariant
                1 <= i <= sv.len(),
                sv == self@.stacks,
                m == min_duration(sv.take(i as int)),
            decreases sv.len() - i,
        {
            assert(sv.take(i + 1).drop_last() =~= sv.take(i as int));
            assert(sv.take(i + 1).last() == sv[i as int]);
            let d = self.stacks[i].duration;
            if d < m {
                m = d;
            }
            i = i + 1;
        }
        assert(sv.take(i as int) =~= sv);
        m
    }

    fn update_intensity(&mut self, time_passed: i64)
        ensures
            final(self)@ == update_intensity_spec(old(self)@, time_passed),
            final(self).config() == old(self).config(),
        decreases stack_weight(old(self)@.stacks),
    {
        if self.stacks.len() == 0 || time_passed <= 0 {
            return;
        }
        let ghost st = self@;
        let start = self.stacks[0].start;
        let groups = group_stacks_exec(&self.stacks);
        let m = self.min_duration_exec();
        let diff = if m < time_passed {
            m
        } else {
            time_passed
        };
        let leftover = time_passed.wrapping_sub(diff);
        self.push_item(GenItem { start, end: start.wrapping_add(diff), groups });
        if leftover == 0 {
            self.last_src_removes.clear();
        }
        self.shift_every(diff, diff);
        let ghost shifted = self@.stacks;
        let ghost mid = self@;
        let mut i: usize = self.stacks.len();
        assert(shifted.take(i as int) =~= shifted);
        assert(shifted.skip(i as int) =~= Seq::<StackModel<u32>>::empty());
        assert(self.last_src_removes@ =~= (if leftover == 0 {
            expired_marks(shifted.skip(i as int))
        } else {
            st.last_src_removes
        }));
        while i > 0
            invariant
                i <= shifted.len(),
                stacks_view(self.stacks@) == shifted.take(i as int) + keep_live(shifted.skip(i as int)),
                self.last_src_removes@ == (if leftover == 0 {
                    expired_marks(shifted.skip(i as int))
                } else {
                    st.last_src_removes
                }),
                self@ == (SimModel {
                    stacks: stacks_view(self.stacks@),
                    last_src_removes: self.last_src_removes@,
                    ..mid
                }),
                self.config() == old(self).config(),
            decreases i,
        {
            i = i - 1;
            let ghost before = stacks_view(self.stacks@);
            assert(before.len() == self.stacks@.len());
            assert(shifted.take(i + 1).len() == i + 1);
            assert(before[i as int] == shifted[i as int]);
            assert(shifted.skip(i as int).drop_first() =~= shifted.skip(i + 1));
            assert(shifted.skip(i as int)[0] == shifted[i as int]);
            if self.stacks[i].duration == 0 {
                if leftover == 0 {
                    self.last_src_removes.push((self.stacks[i].seed_src, self.stacks[i].is_extension));
                }
                self.stacks.remove(i);
                assert(keep_live(shifted.skip(i as int)) == keep_live(shifted.skip(i + 1)));
                assert(stacks_view(self.stacks@) =~= before.remove(i as int));
                assert(shifted.take(i + 1) =~= shifted.take(i as int).push(shifted[i as int]));
                assert(before.remove(i as int) =~= shifted.take(i as int) + keep_live(
                    shifted.skip(i + 1),
                ));
            } else {
                assert(stacks_view(self.stacks@) =~= shifted.take(i as int) + keep_live(
                    shifted.skip(i as int),
                ));
            }
        }
        assert(shifted.skip(0) =~= shifted);
        assert(shifted.take(0) + keep_live(shifted) =~= keep_live(shifted));
        assert(self@ == int_step(st, time_passed).0);
        if leftover > 0 {
            proof {
                lemma_int_step_weight(st, time_passed);
            }
            self.update_intensity(leftover);
        }
    }

    fn update(&mut self, time_passed: i64)
        ensures
            final(self)@ == update_spec(old(self).config(), old(self)@, time_passed),
            final(self).config() == old(self).config(),
    {
        match self.buff_type {
            BuffType::Duration => self.update_duration(time_passed),
            BuffType::Intensity => self.update_intensity(time_passed),
        }
    }

    fn trim(&mut self, log_end: i64)
        ensures
            final(self)@ == (SimModel {
                result: ResultModel {
                    items: trim_items(old(self)@.result.items, log_end),
                    ..old(self)@.result
                },
                ..old(self)@
            }),
            final(self).config() == old(self).config(),
    {
        let ghost items0 = self@.result.items;
        let mut i: usize = self.result.items.len();
        assert(items0.take(i as int) =~= items0);
        assert(self@.result.items.skip(i as int) =~= Seq::<GenModel<u32>>::empty());
        while i > 0
            invariant
                i <= items0.len(),
                self@.result.items.len() == items0.len(),
                trim_items(items0, log_end) == trim_items(items0.take(i as int), log_end)
                    + self@.result.items.skip(i as int),
                forall|j: int| 0 <= j < i ==> self@.result.items[j] == items0[j],
                self@ == (SimModel {
                    result: ResultModel { items: self@.result.items, ..old(self)@.result },
                    ..old(self)@
                }),
                self.config() == old(self).config(),
            ensures
                trim_items(items0, log_end) == self@.result.items,
                self@ == (SimModel {
                    result: ResultModel { items: self@.result.items, ..old(self)@.result },
                    ..old(self)@
                }),
                self.config() == old(self).config(),
            decreases i,
        {
            let ghost prev = self@.result.items;
            assert(prev[i - 1] == self.result.items@[i - 1]@);
            if self.result.items[i - 1].end > log_end {
                self.result.items[i - 1].end = log_end;
                proof {
                    let t = items0.take(i as int);
                    assert(t.drop_last() =~= items0.take(i - 1));
                    assert(t.last() == items0[i - 1]);
                    assert(self@.result.items =~= prev.update(i - 1, GenModel { end: log_end, ..prev[i - 1] }));
                    assert(self@.result.items.skip(i - 1) =~= seq![GenModel { end: log_end, ..t.last() }]
                        + prev.skip(i as int));
                }
                i = i - 1;
            } else {
                proof {
                    let t = items0.take(i as int);
                    assert(t.last() == items0[i - 1]);
                    assert(trim_items(t, log_end) == t);
                    assert(self@.result.items =~= t + self@.result.items.skip(i as int));
                }
                break;
            }
        }
        if i == 0 {
            assert(items0.take(0) =~= Seq::<GenModel<u32>>::empty());
            assert(self@.result.items.skip(0) =~= self@.result.items);
        }
    }
}

pub open spec fn update_spec(c: SimConfig, st: SimModel, passed: i64) -> SimModel {
    match c.buff_type {
        BuffType::Duration => update_duration_spec(st, passed),
        BuffType::Intensity => update_intensity_spec(st, passed),
    }
}

// ===== commands and the whole run =====

/// One command applied to the state.
pub open spec fn apply_spec(c: SimConfig, st: SimModel, cmd: SimCmd<u32>) -> SimModel {
    match cmd {
        SimCmd::Add {
            duration,
            src,
            start,
            stack_id,
            added_active,
            overriden_duration,
            overriden_stack_id,
        } => add_inner_spec(
            c,
            SimModel { next_uid: st.next_uid.wrapping_add(1), ..st },
            fresh_stack(st, duration, src, src, start, false, stack_id),
            added_active,
            overriden_duration,
            overriden_stack_id,
        ),
        SimCmd::Extend { extension, old_value, src, time, stack_id } => extend_spec(
            c,
            st,
            extension,
            old_value,
            src,
            time,
            stack_id,
        ),
        SimCmd::Remove { removed_duration, time, all } => if all {
            remove_all_spec(st, time)
        } else {
            remove_single_spec(st, removed_duration, time)
        },
        SimCmd::Activate { stack_id, .. } => activate_spec(c, st, stack_id),
        SimCmd::Deactivate { .. } => st,
    }
}

/// The commands in order, each after the time since the previous one has
/// passed; also the time of the last command.
pub open spec fn run_cmds(c: SimConfig, st: SimModel, events: Seq<SimCmd<u32>>, time_prev: i64) -> (SimModel, i64)
    decreases events.len(),
{
    if events.len() == 0 {
        (st, time_prev)
    } else {
        let (s1, tp) = run_cmds(c, st, events.drop_last(), time_prev);
        let e = events.last();
        (apply_spec(c, update_spec(c, s1, e.time_of().wrapping_sub(tp)), e), e.time_of())
    }
}

/// The segments of positive length, in order.
pub open spec fn retain_positive(items: Seq<GenModel<u32>>) -> Seq<GenModel<u32>>
    decreases items.len(),
{
    if items.len() == 0 {
        items
    } else if items.last().end.wrapping_sub(items.last().start) > 0 {
        retain_positive(items.drop_last()).push(items.last())
    } else {
        retain_positive(items.drop_last())
    }
}

/// A whole simulation: from the earlier of the first command and the log
/// start, every command in turn, then the time up to the log end; segments
/// are cut at the log end and empty ones dropped. A simulator that already
/// has segments stays as it is.
pub open spec fn simulate_spec(c: SimConfig, st: SimModel, events: Seq<SimCmd<u32>>, log_start: i64, log_end: i64) -> SimModel {
    if st.result.items.len() > 0 {
        st
    } else {
        let tp0 = if events.len() == 0 {
            log_start
        } else if events[0].time_of() < log_start {
            events[0].time_of()
        } else {
            log_start
        };
        let (s1, tp) = run_cmds(c, st, events, tp0);
        let s2 = update_spec(c, s1, log_end.wrapping_sub(tp));
        SimModel {
            result: ResultModel {
                items: retain_positive(trim_items(s2.result.items, log_end)),
                ..s2.result
            },
            ..s2
        }
    }
}

pub open spec fn items_view(v: Seq<GenItem<u32>>) -> Seq<GenModel<u32>> {
    v.map_values(|g: GenItem<u32>| g@)
}

impl Simulator {
    /// Applies one command, without letting time pass.
    pub fn apply_cmd(&mut self, cmd: SimCmd<u32>)
        requires
            old(self).wf(),
        ensures
            final(self)@ == apply_spec(old(self).config(), old(self)@, cmd),
            final(self).config() == old(self).config(),
    {
        match cmd {
            SimCmd::Add {
                duration,
                src,
                start,
                stack_id,
                added_active,
                overriden_duration,
                overriden_stack_id,
            } => {
                let to_add = self.new_stack_seeded(duration, src, src, start, false, stack_id);
                self.add_inner(to_add, added_active, overriden_duration, overriden_stack_id);
            },
            SimCmd::Extend { extension, old_value, src, time, stack_id } => {
                self.extend(extension, old_value, src, time, stack_id);
            },
            SimCmd::Remove { removed_duration, time, all } => {
                if all {
                    self.remove_all(time);
                } else {
                    self.remove_single(removed_duration, time);
                }
            },
            SimCmd::Activate { stack_id, .. } => {
                self.activate(stack_id);
            },
            SimCmd::Deactivate { .. } => {},
        }
    }

    fn retain_positive_items(&mut self)
        ensures
            final(self)@ == (SimModel {
                result: ResultModel {
                    items: retain_positive(old(self)@.result.items),
                    ..old(self)@.result
                },
                ..old(self)@
            }),
            final(self).config() == old(self).config(),
    {
        let ghost items0 = self@.result.items;
        assert(items0 =~= items_view(self.result.items@));
        let mut src: Vec<GenItem<u32>> = Vec::new();
        std::mem::swap(&mut src, &mut self.result.items);
        let mut kept: Vec<GenItem<u32>> = Vec::new();
        let ghost n = items0.len();
        assert(items0.take(0) =~= Seq::<GenModel<u32>>::empty());
        assert(items_view(kept@) =~= retain_positive(items0.take(0)));
        assert(items_view(src@) =~= items0.skip(0));
        while src.len() > 0
            invariant
                src@.len() <= n,
                n == items0.len(),
                items_view(src@) == items0.skip(n - src@.len()),
                items_view(kept@) == retain_positive(items0.take(n - src@.len())),
                self@ == (SimModel {
                    result: ResultModel { items: Seq::empty(), ..old(self)@.result },
                    ..old(self)@
                }),
                self.config() == old(self).config(),
            decreases src@.len(),
        {
            let ghost i = n - src@.len();
            let ghost before = src@;
            let g = src.remove(0);
            assert(items_view(before)[0] == g@);
            assert(items0.skip(i)[0] == items0[i]);
            assert forall|j: int| 0 <= j < src@.len() implies items_view(src@)[j] == items0.skip(i + 1)[j] by {
                assert(src@[j] == before[j + 1]);
                assert(items_view(before)[j + 1] == items0.skip(i)[j + 1]);
            }
            assert(items_view(src@) =~= items0.skip(i + 1));
            assert(items0.take(i + 1).drop_last() =~= items0.take(i));
            assert(items0.take(i + 1).last() == items0[i]);
            if g.end.wrapping_sub(g.start) > 0 {
                let ghost kv = items_view(kept@);
                kept.push(g);
                assert(items_view(kept@) =~= kv.push(items0[i]));
            }
        }
        assert(items0.take(n as int) =~= items0);
        self.result.items = kept;
        assert(self@.result.items =~= retain_positive(items0));
    }

    /// Runs the simulation over `events` (meant to be in time order) between
    /// `log_start` and `log_end`. A simulator runs once: a second call
    /// changes nothing.
    pub fn simulate(&mut self, events: &[SimCmd<u32>], log_start: i64, log_end: i64)
        requires
            old(self).wf(),
        ensures
            final(self)@ == simulate_spec(old(self).config(), old(self)@, events@, log_start, log_end),
            final(self).config() == old(self).config(),
    {
        if self.result.items.len() > 0 {
            assert(self@.result.items.len() > 0);
            return;
        }
        assert(self@.result.items.len() == 0);
        let ghost c = self.config();
        let ghost st0 = self@;
        let mut time_prev = if events.len() == 0 {
            log_start
        } else if events[0].time() < log_start {
            events[0].time()
        } else {
            log_start
        };
        let ghost tp0 = time_prev;
        let mut k: usize = 0;
        assert(events@.take(0) =~= Seq::<SimCmd<u32>>::empty());
        while k < events.len()
            invariant
                k <= events@.len(),
                self.wf(),
                self.config() == c,
                (self@, time_prev) == run_cmds(c, st0, events@.take(k as int), tp0),
            decreases events@.len() - k,
        {
            let e = events[k];
            let time_cur = e.time();
            assert(events@.take(k + 1).drop_last() =~= events@.take(k as int));
            assert(events@.take(k + 1).last() == e);
            self.update(time_cur.wrapping_sub(time_prev));
            self.apply_cmd(e);
            time_prev = time_cur;
            k = k + 1;
        }
        assert(events@.take(k as int) =~= events@);
        self.update(log_end.wrapping_sub(time_prev));
        self.trim(log_end);
        self.retain_positive_items();
    }
}

} // verus!
