//! Buff statistics of a phase: generation, waste, overstack and presence
//! per source, reduced from a simulation result; and the state graph's
//! segment assembly.
//!
//! Sums and products of durations wrap on 64-bit overflow, like the
//! simulator's time arithmetic.

use vstd::prelude::*;
use std::collections::BTreeMap;
use vstd::std_specs::iter::IteratorSpec;
use vstd::std_specs::btree::increasing_seq;
use vstd::std_specs::cmp::OrdSpec;
use crate::semantics::sim::{GenItem, GenModel, Group, ResultModel, SimResult, UNKNOWN_AGENT, WasteEvent, items_view};

verus! {

broadcast use {vstd::std_specs::btree::group_btree_axioms, vstd::laws_cmp::group_laws_cmp};

/// Per-source totals of a buff over a phase.
#[derive(Debug, Clone, Copy, PartialEq, Eq, Structural)]
pub struct Acc {
    pub value: i64,
    pub overstack: i64,
    pub waste: i64,
    pub unknown_extension: i64,
    pub extension: i64,
    pub extended: i64,
}

pub open spec fn zero_acc() -> Acc {
    Acc { value: 0, overstack: 0, waste: 0, unknown_extension: 0, extension: 0, extended: 0 }
}

impl Default for Acc {
    fn default() -> (r: Acc)
        ensures
            r == zero_acc(),
    {
        Acc { value: 0, overstack: 0, waste: 0, unknown_extension: 0, extension: 0, extended: 0 }
    }
}

/// The overlap of `[item_start, item_end]` with the phase `[start, end]`;
/// 0 when they do not overlap or the phase is empty.
pub open spec fn clamped_spec(start: i64, end: i64, item_start: i64, item_end: i64) -> i64 {
    if start >= end || start >= item_end || item_start >= end {
        0
    } else {
        let lo = if item_start > start {
            item_start
        } else {
            start
        };
        let hi = if item_end < end {
            item_end
        } else {
            end
        };
        let d = hi.wrapping_sub(lo);
        if d > 0 {
            d
        } else {
            0
        }
    }
}

/// See [`clamped_spec`].
pub fn clamped(start: i64, end: i64, item_start: i64, item_end: i64) -> (r: i64)
    ensures
        r == clamped_spec(start, end, item_start, item_end),
{
    if start >= end || start >= item_end || item_start >= end {
        return 0;
    }
    let lo = if item_start > start {
        item_start
    } else {
        start
    };
    let hi = if item_end < end {
        item_end
    } else {
        end
    };
    let d = hi.wrapping_sub(lo);
    if d > 0 {
        d
    } else {
        0
    }
}

/// A phase's buff distribution.
#[derive(Debug)]
pub struct Distrib<A> {
    /// Totals by source, the unknown agent included.
    pub by_src: BTreeMap<A, Acc>,
    /// Time during which at least one stack was up.
    pub presence_ms: i64,
    /// Time during which the source had at least one stack up.
    pub presence_by: BTreeMap<A, i64>,
}

/// Mathematical value of a distribution.
pub struct DistribModel {
    pub by_src: Map<u32, Acc>,
    pub presence_ms: i64,
    pub presence_by: Map<u32, i64>,
}

impl Distrib<u32> {
    pub open spec fn view(&self) -> DistribModel {
        DistribModel {
            by_src: self.by_src@,
            presence_ms: self.presence_ms,
            presence_by: self.presence_by@,
        }
    }
}

/// The totals of `k` (zero when it has none).
pub open spec fn acc_of(m: Map<u32, Acc>, k: u32) -> Acc {
    if m.contains_key(k) {
        m[k]
    } else {
        zero_acc()
    }
}

pub open spec fn add_value(m: Map<u32, Acc>, k: u32, v: i64) -> Map<u32, Acc> {
    m.insert(k, Acc { value: acc_of(m, k).value.wrapping_add(v), ..acc_of(m, k) })
}

pub open spec fn add_overstack(m: Map<u32, Acc>, k: u32, v: i64) -> Map<u32, Acc> {
    m.insert(k, Acc { overstack: acc_of(m, k).overstack.wrapping_add(v), ..acc_of(m, k) })
}

pub open spec fn add_waste(m: Map<u32, Acc>, k: u32, v: i64) -> Map<u32, Acc> {
    m.insert(k, Acc { waste: acc_of(m, k).waste.wrapping_add(v), ..acc_of(m, k) })
}

pub open spec fn add_unknown(m: Map<u32, Acc>, k: u32, v: i64) -> Map<u32, Acc> {
    m.insert(k, Acc { unknown_extension: acc_of(m, k).unknown_extension.wrapping_add(v), ..acc_of(m, k) })
}

pub open spec fn add_extension(m: Map<u32, Acc>, k: u32, v: i64) -> Map<u32, Acc> {
    m.insert(k, Acc { extension: acc_of(m, k).extension.wrapping_add(v), ..acc_of(m, k) })
}

pub open spec fn add_extended(m: Map<u32, Acc>, k: u32, v: i64) -> Map<u32, Acc> {
    m.insert(k, Acc { extended: acc_of(m, k).extended.wrapping_add(v), ..acc_of(m, k) })
}

/// Credit of one group of stacks that was up `w` (duration times count):
/// the source generated it; a seed other than the source extended it (and
/// had an unknown source extend it when the source is unknown); an
/// extension stack counts as extension of its source.
pub open spec fn credit_group(m: Map<u32, Acc>, g: Group<u32>, w: i64) -> Map<u32, Acc> {
    let m1 = add_value(m, g.src, w);
    let m2 = if g.seed_src != g.src {
        let m3 = add_extended(m1, g.seed_src, w);
        if g.src == UNKNOWN_AGENT {
            add_unknown(m3, g.seed_src, w)
        } else {
            m3
        }
    } else {
        m1
    };
    if g.is_extension {
        add_extension(m2, g.src, w)
    } else {
        m2
    }
}

/// Credits of the groups of a segment that overlaps the phase by `c`.
pub open spec fn credit_groups(m: Map<u32, Acc>, gs: Seq<Group<u32>>, c: i64) -> Map<u32, Acc>
    decreases gs.len(),
{
    if gs.len() == 0 {
        m
    } else {
        let g = gs.last();
        credit_group(credit_groups(m, gs.drop_last(), c), g, c.wrapping_mul(g.count))
    }
}

/// The sources of the groups, each once, in order of first appearance.
pub open spec fn distinct_srcs(gs: Seq<Group<u32>>) -> Seq<u32>
    decreases gs.len(),
{
    if gs.len() == 0 {
        Seq::empty()
    } else {
        let d = distinct_srcs(gs.drop_last());
        if d.contains(gs.last().src) {
            d
        } else {
            d.push(gs.last().src)
        }
    }
}

/// Presence time `c` added for each source.
pub open spec fn add_presence(m: Map<u32, i64>, srcs: Seq<u32>, c: i64) -> Map<u32, i64>
    decreases srcs.len(),
{
    if srcs.len() == 0 {
        m
    } else {
        let m1 = add_presence(m, srcs.drop_last(), c);
        let k = srcs.last();
        m1.insert(k, (if m1.contains_key(k) { m1[k] } else { 0i64 }).wrapping_add(c))
    }
}

/// A segment's contribution to the phase `[start, end]`.
pub open spec fn credit_item(d: DistribModel, item: GenModel<u32>, start: i64, end: i64) -> DistribModel {
    let c = clamped_spec(start, end, item.start, item.end);
    if c <= 0 {
        d
    } else {
        DistribModel {
            by_src: credit_groups(d.by_src, item.groups, c),
            presence_ms: d.presence_ms.wrapping_add(c),
            presence_by: add_presence(d.presence_by, distinct_srcs(item.groups), c),
        }
    }
}

pub open spec fn credit_items(d: DistribModel, items: Seq<GenModel<u32>>, start: i64, end: i64) -> DistribModel
    decreases items.len(),
{
    if items.len() == 0 {
        d
    } else {
        credit_item(credit_items(d, items.drop_last(), start, end), items.last(), start, end)
    }
}

/// Wastes at times within `[start, end]` (both ends included).
pub open spec fn credit_wastes(m: Map<u32, Acc>, ws: Seq<WasteEvent<u32>>, start: i64, end: i64) -> Map<u32, Acc>
    decreases ws.len(),
{
    if ws.len() == 0 {
        m
    } else {
        let m1 = credit_wastes(m, ws.drop_last(), start, end);
        let w = ws.last();
        if start <= w.time && w.time <= end {
            add_waste(m1, w.src, w.value)
        } else {
            m1
        }
    }
}

/// Overstacks at times within `[start, end]` (both ends included).
pub open spec fn credit_overstacks(m: Map<u32, Acc>, ws: Seq<WasteEvent<u32>>, start: i64, end: i64) -> Map<u32, Acc>
    decreases ws.len(),
{
    if ws.len() == 0 {
        m
    } else {
        let m1 = credit_overstacks(m, ws.drop_last(), start, end);
        let w = ws.last();
        if start <= w.time && w.time <= end {
            add_overstack(m1, w.src, w.value)
        } else {
            m1
        }
    }
}

/// The distribution of a simulation over the phase `[start, end]`.
pub open spec fn phase_distrib_spec(res: ResultModel<u32>, start: i64, end: i64) -> DistribModel {
    let d = credit_items(
        DistribModel { by_src: Map::empty(), presence_ms: 0, presence_by: Map::empty() },
        res.items,
        start,
        end,
    );
    DistribModel {
        by_src: credit_overstacks(credit_wastes(d.by_src, res.wastes, start, end), res.overstacks, start, end),
        ..d
    }
}

fn acc_get(m: &BTreeMap<u32, Acc>, k: u32) -> (r: Acc)
    ensures
        r == acc_of(m@, k),
{
    match m.get(&k) {
        Some(a) => *a,
        None => Acc::default(),
    }
}

impl Distrib<u32> {
    fn add_value(&mut self, k: u32, v: i64)
        ensures
            final(self)@ == (DistribModel { by_src: add_value(old(self)@.by_src, k, v), ..old(self)@ }),
    {
        let a = acc_get(&self.by_src, k);
        self.by_src.insert(k, Acc { value: a.value.wrapping_add(v), ..a });
    }

    fn add_overstack(&mut self, k: u32, v: i64)
        ensures
            final(self)@ == (DistribModel { by_src: add_overstack(old(self)@.by_src, k, v), ..old(self)@ }),
    {
        let a = acc_get(&self.by_src, k);
        self.by_src.insert(k, Acc { overstack: a.overstack.wrapping_add(v), ..a });
    }

    fn add_waste(&mut self, k: u32, v: i64)
        ensures
            final(self)@ == (DistribModel { by_src: add_waste(old(self)@.by_src, k, v), ..old(self)@ }),
    {
        let a = acc_get(&self.by_src, k);
        self.by_src.insert(k, Acc { waste: a.waste.wrapping_add(v), ..a });
    }

    fn add_unknown(&mut self, k: u32, v: i64)
        ensures
            final(self)@ == (DistribModel { by_src: add_unknown(old(self)@.by_src, k, v), ..old(self)@ }),
    {
        let a = acc_get(&self.by_src, k);
        self.by_src.insert(k, Acc { unknown_extension: a.unknown_extension.wrapping_add(v), ..a });
    }

    fn add_extension(&mut self, k: u32, v: i64)
        ensures
            final(self)@ == (DistribModel { by_src: add_extension(old(self)@.by_src, k, v), ..old(self)@ }),
    {
        let a = acc_get(&self.by_src, k);
        self.by_src.insert(k, Acc { extension: a.extension.wrapping_add(v), ..a });
    }

    fn add_extended(&mut self, k: u32, v: i64)
        ensures
            final(self)@ == (DistribModel { by_src: add_extended(old(self)@.by_src, k, v), ..old(self)@ }),
    {
        let a = acc_get(&self.by_src, k);
        self.by_src.insert(k, Acc { extended: a.extended.wrapping_add(v), ..a });
    }

    /// Generation credited to `k`.
    pub fn generation_of(&self, k: u32) -> (r: i64)
        ensures
            r == acc_of(self@.by_src, k).value,
    {
        acc_get(&self.by_src, k).value
    }

    pub fn overstack_of(&self, k: u32) -> (r: i64)
        ensures
            r == acc_of(self@.by_src, k).overstack,
    {
        acc_get(&self.by_src, k).overstack
    }

    pub fn waste_of(&self, k: u32) -> (r: i64)
        ensures
            r == acc_of(self@.by_src, k).waste,
    {
        acc_get(&self.by_src, k).waste
    }

    pub fn unknown_ext_of(&self, k: u32) -> (r: i64)
        ensures
            r == acc_of(self@.by_src, k).unknown_extension,
    {
        acc_get(&self.by_src, k).unknown_extension
    }

    pub fn extension_of(&self, k: u32) -> (r: i64)
        ensures
            r == acc_of(self@.by_src, k).extension,
    {
        acc_get(&self.by_src, k).extension
    }

    pub fn extended_of(&self, k: u32) -> (r: i64)
        ensures
            r == acc_of(self@.by_src, k).extended,
    {
        acc_get(&self.by_src, k).extended
    }

    /// Presence of `k` (0 when it has none).
    pub fn presence_of(&self, k: u32) -> (r: i64)
        ensures
            r == (if self@.presence_by.contains_key(k) {
                self@.presence_by[k]
            } else {
                0
            }),
    {
        match self.presence_by.get(&k) {
            Some(p) => *p,
            None => 0,
        }
    }

    fn credit_group(&mut self, g: Group<u32>, w: i64)
        ensures
            final(self)@ == (DistribModel { by_src: credit_group(old(self)@.by_src, g, w), ..old(self)@ }),
    {
        self.add_value(g.src, w);
        if g.seed_src != g.src {
            self.add_extended(g.seed_src, w);
            if g.src == UNKNOWN_AGENT {
                self.add_unknown(g.seed_src, w);
            }
        }
        if g.is_extension {
            self.add_extension(g.src, w);
        }
    }

    fn credit_item(&mut self, item: &GenItem<u32>, start: i64, end: i64)
        ensures
            final(self)@ == credit_item(old(self)@, item@, start, end),
    {
        let c_dur = clamped(start, end, item.start, item.end);
        if c_dur <= 0 {
            return;
        }
        self.presence_ms = self.presence_ms.wrapping_add(c_dur);
        let ghost gs = item.groups@;
        let ghost d1 = self@;
        let mut i: usize = 0;
        assert(gs.take(0) =~= Seq::<Group<u32>>::empty());
        while i < item.groups.len()
            invariant
                i <= gs.len(),
                gs == item.groups@,
                self@ == (DistribModel { by_src: credit_groups(d1.by_src, gs.take(i as int), c_dur), ..d1 }),
            decreases gs.len() - i,
        {
            let g = item.groups[i];
            assert(gs.take(i + 1).drop_last() =~= gs.take(i as int));
            assert(gs.take(i + 1).last() == g);
            self.credit_group(g, c_dur.wrapping_mul(g.count));
            i = i + 1;
        }
        assert(gs.take(i as int) =~= gs);
        let mut seen: Vec<u32> = Vec::new();
        let mut j: usize = 0;
        assert(gs.take(0) =~= Seq::<Group<u32>>::empty());
        while j < item.groups.len()
            invariant
                j <= gs.len(),
                gs == item.groups@,
                seen@ == distinct_srcs(gs.take(j as int)),
            decreases gs.len() - j,
        {
            let src = item.groups[j].src;
            assert(gs.take(j + 1).drop_last() =~= gs.take(j as int));
            assert(gs.take(j + 1).last().src == src);
            if !contains_agent(&seen, src) {
                seen.push(src);
            }
            j = j + 1;
        }
        assert(gs.take(j as int) =~= gs);
        let ghost d2 = self@;
        let mut k: usize = 0;
        assert(seen@.take(0) =~= Seq::<u32>::empty());
        while k < seen.len()
            invariant
                k <= seen@.len(),
                self@ == (DistribModel { presence_by: add_presence(d2.presence_by, seen@.take(k as int), c_dur), ..d2 }),
            decreases seen@.len() - k,
        {
            let src = seen[k];
            assert(seen@.take(k + 1).drop_last() =~= seen@.take(k as int));
            assert(seen@.take(k + 1).last() == src);
            let p = match self.presence_by.get(&src) {
                Some(p) => *p,
                None => 0,
            };
            self.presence_by.insert(src, p.wrapping_add(c_dur));
            k = k + 1;
        }
        assert(seen@.take(k as int) =~= seen@);
    }
}

fn contains_agent(v: &Vec<u32>, x: u32) -> (r: bool)
    ensures
        r == v@.contains(x),
{
    let mut i: usize = 0;
    while i < v.len()
        invariant
            i <= v@.len(),
            forall|k: int| 0 <= k < i ==> v@[k] != x,
        decreases v@.len() - i,
    {
        if v[i] == x {
            assert(v@[i as int] == x);
            return true;
        }
        i = i + 1;
    }
    false
}

/// The buff distribution of `res` over the phase `[start, end]`: each
/// segment's overlap with the phase, weighted by stack counts, is credited
/// to its sources; wastes and overstacks at times within the phase are
/// credited to theirs.
pub fn phase_distrib(res: &SimResult<u32>, start: i64, end: i64) -> (r: Distrib<u32>)
    ensures
        r@ == phase_distrib_spec(res@, start, end),
{
    let mut out = Distrib { by_src: BTreeMap::new(), presence_ms: 0, presence_by: BTreeMap::new() };
    let ghost items = res@.items;
    let ghost d0 = out@;
    let mut i: usize = 0;
    assert(items.take(0) =~= Seq::<GenModel<u32>>::empty());
    while i < res.items.len()
        invariant
            i <= res.items@.len(),
            items == res@.items,
            items.len() == res.items@.len(),
            out@ == credit_items(d0, items.take(i as int), start, end),
        decreases res.items@.len() - i,
    {
        assert(items.take(i + 1).drop_last() =~= items.take(i as int));
        assert(items.take(i + 1).last() == res.items@[i as int]@);
        out.credit_item(&res.items[i], start, end);
        i = i + 1;
    }
    assert(items.take(i as int) =~= items);
    let ghost d1 = out@;
    let ghost ws = res.wastes@;
    let mut j: usize = 0;
    assert(ws.take(0) =~= Seq::<WasteEvent<u32>>::empty());
    while j < res.wastes.len()
        invariant
            j <= ws.len(),
            ws == res.wastes@,
            out@ == (DistribModel { by_src: credit_wastes(d1.by_src, ws.take(j as int), start, end), ..d1 }),
        decreases ws.len() - j,
    {
        let w = res.wastes[j];
        assert(ws.take(j + 1).drop_last() =~= ws.take(j as int));
        assert(ws.take(j + 1).last() == w);
        if start <= w.time && w.time <= end {
            out.add_waste(w.src, w.value);
        }
        j = j + 1;
    }
    assert(ws.take(j as int) =~= ws);
    let ghost d2 = out@;
    let ghost os = res.overstacks@;
    let mut k: usize = 0;
    assert(os.take(0) =~= Seq::<WasteEvent<u32>>::empty());
    while k < res.overstacks.len()
        invariant
            k <= os.len(),
            os == res.overstacks@,
            out@ == (DistribModel { by_src: credit_overstacks(d2.by_src, os.take(k as int), start, end), ..d2 }),
        decreases os.len() - k,
    {
        let w = res.overstacks[k];
        assert(os.take(k + 1).drop_last() =~= os.take(k as int));
        assert(os.take(k + 1).last() == w);
        if start <= w.time && w.time <= end {
            out.add_overstack(w.src, w.value);
        }
        k = k + 1;
    }
    assert(os.take(k as int) =~= os);
    out
}

/// Keys that a map's key iterator yields in increasing order are increasing.
proof fn lemma_keys_increasing(all: Seq<&u32>)
    requires
        increasing_seq(all),
    ensures
        increasing(all.unref()),
{
    assert(vstd::laws_cmp::obeys_cmp::<u32>());
    assert(vstd::laws_cmp::obeys_cmp::<&u32>());
    vstd::std_specs::btree::axiom_increasing_seq_meaning::<&u32>(all);
    assert forall|i: int, j: int| 0 <= i < j < all.unref().len() implies all.unref()[i]
        < all.unref()[j] by {
        assert(OrdSpec::cmp_spec(&all[i], &all[j]) is Less);
    }
}

/// The sources of a distribution, in increasing order.
pub fn srcs_of(d: &Distrib<u32>) -> (r: Vec<u32>)
    ensures
        r@.to_set() == d@.by_src.dom(),
        r@.no_duplicates(),
        increasing(r@),
{
    let mut out: Vec<u32> = Vec::new();
    let keys = d.by_src.keys();
    let ghost all = keys.remaining();
    for k in it: keys
        invariant
            all == it.seq(),
            out@ == it.seq().take(it.index() as int).map_values(|x: &u32| *x),
    {
        out.push(*k);
        assert(out@ =~= it.seq().take(it.index() + 1).map_values(|x: &u32| *x));
    }
    assert(out@ =~= all.map_values(|x: &u32| *x));
    assert(out@ =~= all.unref());
    proof {
        lemma_keys_increasing(all);
    }
    out
}

/// Strictly increasing.
pub open spec fn increasing(ks: Seq<u32>) -> bool {
    forall|i: int, j: int| 0 <= i < j < ks.len() ==> ks[i] < ks[j]
}

/// Sum of the generation of the keys `ks`, added in order.
pub open spec fn value_sum(m: Map<u32, Acc>, ks: Seq<u32>) -> i64
    decreases ks.len(),
{
    if ks.len() == 0 {
        0
    } else {
        value_sum(m, ks.drop_last()).wrapping_add(acc_of(m, ks.last()).value)
    }
}

/// Two increasing sequences with the same elements are equal.
pub proof fn lemma_increasing_unique(a: Seq<u32>, b: Seq<u32>)
    requires
        increasing(a),
        increasing(b),
        a.to_set() == b.to_set(),
    ensures
        a == b,
    decreases a.len(),
{
    if a.len() == 0 {
        if b.len() > 0 {
            assert(b.to_set().contains(b[0]));
        }
        assert(a =~= b);
    } else {
        assert(a.to_set().contains(a[0]));
        assert(b.to_set().contains(a[0]));
        let k = choose|k: int| 0 <= k < b.len() && b[k] == a[0];
        assert(b.len() > 0);
        assert(b.to_set().contains(b[0]));
        assert(a.to_set().contains(b[0]));
        let m = choose|m: int| 0 <= m < a.len() && a[m] == b[0];
        assert(a[0] == b[0]) by {
            if k > 0 {
                assert(b[0] < b[k]);
            }
            if m > 0 {
                assert(a[0] < a[m]);
            }
        }
        let a1 = a.drop_first();
        let b1 = b.drop_first();
        assert forall|x: u32| a1.to_set().contains(x) implies b1.to_set().contains(x) by {
            let i = choose|i: int| 0 <= i < a1.len() && a1[i] == x;
            assert(a[i + 1] == x);
            assert(a.to_set().contains(x));
            assert(b.to_set().contains(x));
            let j = choose|j: int| 0 <= j < b.len() && b[j] == x;
            if j == 0 {
                assert(a[0] < a[i + 1]);
            }
            assert(b1[j - 1] == x);
        }
        assert forall|x: u32| b1.to_set().contains(x) implies a1.to_set().contains(x) by {
            let i = choose|i: int| 0 <= i < b1.len() && b1[i] == x;
            assert(b[i + 1] == x);
            assert(b.to_set().contains(x));
            assert(a.to_set().contains(x));
            let j = choose|j: int| 0 <= j < a.len() && a[j] == x;
            if j == 0 {
                assert(b[0] < b[i + 1]);
            }
            assert(a1[j - 1] == x);
        }
        assert(a1.to_set() =~= b1.to_set());
        assert(increasing(a1)) by {
            assert forall|i: int, j: int| 0 <= i < j < a1.len() implies a1[i] < a1[j] by {
                assert(a1[i] == a[i + 1]);
                assert(a1[j] == a[j + 1]);
            }
        }
        assert(increasing(b1)) by {
            assert forall|i: int, j: int| 0 <= i < j < b1.len() implies b1[i] < b1[j] by {
                assert(b1[i] == b[i + 1]);
                assert(b1[j] == b[j + 1]);
            }
        }
        lemma_increasing_unique(a1, b1);
        assert(a1 == b1);
        assert(a.len() == b.len());
        assert forall|i: int| 0 <= i < a.len() implies a[i] == b[i] by {
            if i > 0 {
                assert(a[i] == a1[i - 1]);
                assert(b[i] == b1[i - 1]);
            }
        }
        assert(a =~= b);
    }
}

/// Total generation of a distribution, over all sources.
pub fn total_value(acc: &BTreeMap<u32, Acc>) -> (r: i64)
    ensures
        forall|ks: Seq<u32>| increasing(ks) && ks.to_set() == acc@.dom() ==> r == value_sum(acc@, ks),
{
    let mut sum: i64 = 0;
    let keys = acc.keys();
    let ghost all = keys.remaining();
    let ghost m = acc@;
    for k in it: keys
        invariant
            all == it.seq(),
            m == acc@,
            sum == value_sum(m, it.seq().take(it.index() as int).unref()),
    {
        let ghost prev = it.seq().take(it.index() as int).unref();
        assert(it.seq().take(it.index() + 1).unref().drop_last() =~= prev);
        let a = acc_get(acc, *k);
        sum = sum.wrapping_add(a.value);
    }
    proof {
        assert(all.take(all.len() as int) =~= all);
        lemma_keys_increasing(all);
        assert forall|ks: Seq<u32>| increasing(ks) && ks.to_set() == acc@.dom() implies sum
            == value_sum(acc@, ks) by {
            lemma_increasing_unique(ks, all.unref());
        }
    }
    sum
}

// ===== state graph segments =====

/// The segments with the gaps filled by value-0 segments: one from
/// `log_start` to the first start, one between segments that do not touch.
pub open spec fn fill_gaps(log_start: i64, segs: Seq<(i64, i64, i64)>) -> Seq<(i64, i64, i64)>
    decreases segs.len(),
{
    if segs.len() == 0 {
        Seq::empty()
    } else {
        let out = fill_gaps(log_start, segs.drop_last());
        let cur = segs.last();
        let out1 = if out.len() == 0 {
            out.push((log_start, cur.0, 0i64))
        } else if out.last().1 != cur.0 {
            out.push((out.last().1, cur.0, 0i64))
        } else {
            out
        };
        out1.push(cur)
    }
}

/// The filled segments closed by a value-0 segment up to `log_end`.
pub open spec fn assemble_segments(log_start: i64, log_end: i64, segs: Seq<(i64, i64, i64)>) -> Seq<(i64, i64, i64)> {
    let out = fill_gaps(log_start, segs);
    if out.len() == 0 {
        seq![(log_start, log_end, 0i64)]
    } else {
        out.push((out.last().1, log_end, 0i64))
    }
}

/// The segments that do not end before they start.
pub open spec fn keep_ordered(segs: Seq<(i64, i64, i64)>) -> Seq<(i64, i64, i64)>
    decreases segs.len(),
{
    if segs.len() == 0 {
        segs
    } else if segs.last().0 <= segs.last().1 {
        keep_ordered(segs.drop_last()).push(segs.last())
    } else {
        keep_ordered(segs.drop_last())
    }
}

/// Merging after `last`: empty segments are skipped, a segment of the
/// same value extends `last`, another one closes it.
pub open spec fn fuse_from(done: Seq<(i64, i64, i64)>, last: (i64, i64, i64), rest: Seq<(i64, i64, i64)>) -> Seq<(i64, i64, i64)>
    decreases rest.len(),
{
    if rest.len() == 0 {
        done.push(last)
    } else {
        let cur = rest[0];
        if cur.0 >= cur.1 {
            fuse_from(done, last, rest.drop_first())
        } else if cur.2 == last.2 {
            fuse_from(done, (last.0, cur.1, last.2), rest.drop_first())
        } else {
            fuse_from(done.push(last), cur, rest.drop_first())
        }
    }
}

/// Consecutive segments of equal value merged; empty segments after the
/// first dropped (the first is kept even when empty).
pub open spec fn fuse_consecutive(segs: Seq<(i64, i64, i64)>) -> Seq<(i64, i64, i64)> {
    if segs.len() == 0 {
        segs
    } else {
        fuse_from(Seq::empty(), segs[0], segs.drop_first())
    }
}

/// The state graph of a buff: the `(start, end, value)` segments between
/// `log_start` and `log_end`, gaps at value 0, equal neighbours merged.
pub open spec fn fuse_segments_spec(log_start: i64, log_end: i64, segs: Seq<(i64, i64, i64)>) -> Seq<(i64, i64, i64)> {
    fuse_consecutive(keep_ordered(assemble_segments(log_start, log_end, segs)))
}

/// See [`fuse_segments_spec`].
pub fn fuse_segments(log_start: i64, log_end: i64, segs: Vec<(i64, i64, i64)>) -> (r: Vec<(i64, i64, i64)>)
    ensures
        r@ == fuse_segments_spec(log_start, log_end, segs@),
{
    let ghost sv = segs@;
    let mut out: Vec<(i64, i64, i64)> = Vec::new();
    let mut i: usize = 0;
    assert(sv.take(0) =~= Seq::<(i64, i64, i64)>::empty());
    while i < segs.len()
        invariant
            i <= sv.len(),
            sv == segs@,
            out@ == fill_gaps(log_start, sv.take(i as int)),
        decreases sv.len() - i,
    {
        let cur = segs[i];
        assert(sv.take(i + 1).drop_last() =~= sv.take(i as int));
        assert(sv.take(i + 1).last() == cur);
        if out.len() == 0 {
            out.push((log_start, cur.0, 0));
        } else {
            let pe = out[out.len() - 1].1;
            if pe != cur.0 {
                out.push((pe, cur.0, 0));
            }
        }
        out.push(cur);
        i = i + 1;
    }
    assert(sv.take(i as int) =~= sv);
    if out.len() == 0 {
        out.push((log_start, log_end, 0));
        assert(out@ =~= seq![(log_start, log_end, 0i64)]);
    } else {
        let le = out[out.len() - 1].1;
        out.push((le, log_end, 0));
    }
    let ghost assembled = out@;
    let mut kept: Vec<(i64, i64, i64)> = Vec::new();
    let mut j: usize = 0;
    assert(assembled.take(0) =~= Seq::<(i64, i64, i64)>::empty());
    while j < out.len()
        invariant
            j <= assembled.len(),
            assembled == out@,
            kept@ == keep_ordered(assembled.take(j as int)),
        decreases assembled.len() - j,
    {
        let seg = out[j];
        assert(assembled.take(j + 1).drop_last() =~= assembled.take(j as int));
        assert(assembled.take(j + 1).last() == seg);
        if seg.0 <= seg.1 {
            kept.push(seg);
        }
        j = j + 1;
    }
    assert(assembled.take(j as int) =~= assembled);
    if kept.len() == 0 {
        return kept;
    }
    let ghost ks = kept@;
    let mut done: Vec<(i64, i64, i64)> = Vec::new();
    let mut last = kept[0];
    let mut k: usize = 1;
    assert(ks.skip(1) =~= ks.drop_first());
    while k < kept.len()
        invariant
            1 <= k <= ks.len(),
            ks == kept@,
            fuse_consecutive(ks) == fuse_from(done@, last, ks.skip(k as int)),
        decreases ks.len() - k,
    {
        let cur = kept[k];
        assert(ks.skip(k as int).drop_first() =~= ks.skip(k + 1));
        assert(ks.skip(k as int)[0] == cur);
        if cur.0 >= cur.1 {
        } else if cur.2 == last.2 {
            last = (last.0, cur.1, last.2);
        } else {
            done.push(last);
            last = cur;
        }
        k = k + 1;
    }
    assert(ks.skip(k as int) =~= Seq::<(i64, i64, i64)>::empty());
    done.push(last);
    done
}

/// An extension by an unknown source of a stack seeded by another source
/// is credited to the seed: its unknown-source extension and its extended
/// time both grow by the group's weight, while the unknown source itself
/// gets no unknown-source credit.
pub proof fn law_unknown_extension_credits_seed(m: Map<u32, Acc>, g: Group<u32>, w: i64)
    requires
        g.src == UNKNOWN_AGENT,
        g.seed_src != g.src,
    ensures
        acc_of(credit_group(m, g, w), g.seed_src).unknown_extension == acc_of(m, g.seed_src).unknown_extension.wrapping_add(w),
        acc_of(credit_group(m, g, w), g.seed_src).extended == acc_of(m, g.seed_src).extended.wrapping_add(w),
        acc_of(credit_group(m, g, w), g.seed_src).value == acc_of(m, g.seed_src).value,
        acc_of(credit_group(m, g, w), g.src).unknown_extension == acc_of(m, g.src).unknown_extension,
        acc_of(credit_group(m, g, w), g.src).value == acc_of(m, g.src).value.wrapping_add(w),
{
}

/// A group generated and seeded by the same source credits that source's
/// generation with the weight (and its extension credit too when it is an
/// extension stack); no one is credited with extending it.
pub proof fn law_own_group_credits_source(m: Map<u32, Acc>, g: Group<u32>, w: i64)
    requires
        g.src == g.seed_src,
    ensures
        acc_of(credit_group(m, g, w), g.src).value == acc_of(m, g.src).value.wrapping_add(w),
        acc_of(credit_group(m, g, w), g.src).extended == acc_of(m, g.src).extended,
        acc_of(credit_group(m, g, w), g.src).unknown_extension == acc_of(m, g.src).unknown_extension,
        acc_of(credit_group(m, g, w), g.src).extension == if g.is_extension {
            acc_of(m, g.src).extension.wrapping_add(w)
        } else {
            acc_of(m, g.src).extension
        },
        forall|k: u32| k != g.src ==> #[trigger] acc_of(credit_group(m, g, w), k) == acc_of(m, k),
{
}

/// A group extended by a known source other than its seed credits the
/// source's generation and the seed's extended time with the weight, and
/// no one's unknown-source extension.
pub proof fn law_known_extension_credits_both(m: Map<u32, Acc>, g: Group<u32>, w: i64)
    requires
        g.src != g.seed_src,
        g.src != UNKNOWN_AGENT,
    ensures
        acc_of(credit_group(m, g, w), g.src).value == acc_of(m, g.src).value.wrapping_add(w),
        acc_of(credit_group(m, g, w), g.seed_src).extended == acc_of(m, g.seed_src).extended.wrapping_add(w),
        acc_of(credit_group(m, g, w), g.seed_src).value == acc_of(m, g.seed_src).value,
        acc_of(credit_group(m, g, w), g.seed_src).unknown_extension == acc_of(m, g.seed_src).unknown_extension,
        acc_of(credit_group(m, g, w), g.src).unknown_extension == acc_of(m, g.src).unknown_extension,
{
}

} // verus!
