//! Stable orders: the positions of a list sorted by integer keys, equal
//! keys keeping their original order, and lists rearranged by such an
//! order.

use vstd::prelude::*;
use crate::model::events::CombatEvent;
use crate::parse::models::EvtcCombatItem;

verus! {

/// Position `a` comes before position `b`: a smaller key, or an equal key
/// and an earlier position.
pub open spec fn key_before(keys: Seq<i128>, a: int, b: int) -> bool {
    keys[a] < keys[b] || (keys[a] == keys[b] && a < b)
}

/// `p` lists the positions of `keys` in increasing key order, equal keys in
/// position order: the stable sort of the positions.
pub open spec fn is_stable_order(keys: Seq<i128>, p: Seq<usize>) -> bool {
    &&& p.len() == keys.len()
    &&& forall|i: int| 0 <= i < p.len() ==> #[trigger] p[i] < keys.len()
    &&& forall|i: int, j: int|
        0 <= i < j < p.len() ==> key_before(keys, #[trigger] p[i] as int, #[trigger] p[j] as int)
}

/// `r` holds positions in `[lo, hi)`, in strictly increasing key order.
pub open spec fn ordered_in(keys: Seq<i128>, r: Seq<usize>, lo: int, hi: int) -> bool {
    &&& forall|i: int| 0 <= i < r.len() ==> lo <= #[trigger] r[i] < hi
    &&& forall|i: int, j: int|
        0 <= i < j < r.len() ==> key_before(keys, #[trigger] r[i] as int, #[trigger] r[j] as int)
}

fn merge(keys: &Vec<i128>, a: Vec<usize>, b: Vec<usize>, lo: usize, mid: usize, hi: usize) -> (r: Vec<
    usize,
>)
    requires
        lo <= mid <= hi <= keys.len(),
        ordered_in(keys@, a@, lo as int, mid as int),
        ordered_in(keys@, b@, mid as int, hi as int),
    ensures
        r@.len() == a@.len() + b@.len(),
        ordered_in(keys@, r@, lo as int, hi as int),
{
    let mut out: Vec<usize> = Vec::new();
    let mut i: usize = 0;
    let mut j: usize = 0;
    let ghost ks = keys@;
    while i < a.len() || j < b.len()
        invariant
            ks == keys@,
            lo <= mid <= hi <= ks.len(),
            ordered_in(ks, a@, lo as int, mid as int),
            ordered_in(ks, b@, mid as int, hi as int),
            i <= a@.len(),
            j <= b@.len(),
            out@.len() == i + j,
            ordered_in(ks, out@, lo as int, hi as int),
            out@.len() > 0 && i < a@.len() ==> key_before(ks, out@.last() as int, a@[i as int] as int),
            out@.len() > 0 && j < b@.len() ==> key_before(ks, out@.last() as int, b@[j as int] as int),
        decreases a@.len() + b@.len() - i - j,
    {
        let take_a = if i < a.len() && j < b.len() {
            keys[a[i]] <= keys[b[j]]
        } else {
            i < a.len()
        };
        let ghost before = out@;
        if take_a {
            let x = a[i];
            out.push(x);
            proof {
                assert forall|p: int, q: int| 0 <= p < q < out@.len() implies key_before(
                    ks,
                    #[trigger] out@[p] as int,
                    #[trigger] out@[q] as int,
                ) by {
                    if q == out@.len() - 1 && p < q && before.len() > 0 {
                        assert(key_before(ks, before[p] as int, before.last() as int) || p == before.len() - 1);
                    }
                }
                if j < b@.len() {
                    assert(x < b@[j as int]);
                }
            }
            i = i + 1;
        } else {
            let x = b[j];
            out.push(x);
            proof {
                assert forall|p: int, q: int| 0 <= p < q < out@.len() implies key_before(
                    ks,
                    #[trigger] out@[p] as int,
                    #[trigger] out@[q] as int,
                ) by {
                    if q == out@.len() - 1 && p < q && before.len() > 0 {
                        assert(key_before(ks, before[p] as int, before.last() as int) || p == before.len() - 1);
                    }
                }
            }
            j = j + 1;
        }
    }
    out
}

fn sort_range(keys: &Vec<i128>, lo: usize, hi: usize) -> (r: Vec<usize>)
    requires
        lo <= hi <= keys.len(),
    ensures
        r@.len() == hi - lo,
        ordered_in(keys@, r@, lo as int, hi as int),
    decreases hi - lo,
{
    if hi - lo == 0 {
        Vec::new()
    } else if hi - lo == 1 {
        let mut v: Vec<usize> = Vec::new();
        v.push(lo);
        v
    } else {
        let mid = lo + (hi - lo) / 2;
        let a = sort_range(keys, lo, mid);
        let b = sort_range(keys, mid, hi);
        merge(keys, a, b, lo, mid, hi)
    }
}

/// The positions of `keys` in stable sorted order.
pub fn stable_order(keys: &Vec<i128>) -> (r: Vec<usize>)
    ensures
        is_stable_order(keys@, r@),
{
    sort_range(keys, 0, keys.len())
}

/// The rows in the given order of positions.
pub fn rows_in_order(items: &Vec<EvtcCombatItem>, p: &Vec<usize>) -> (r: Vec<EvtcCombatItem>)
    requires
        forall|i: int| 0 <= i < p@.len() ==> #[trigger] p@[i] < items@.len(),
    ensures
        r@.len() == p@.len(),
        forall|i: int| 0 <= i < p@.len() ==> #[trigger] r@[i] == items@[p@[i] as int],
{
    let mut out: Vec<EvtcCombatItem> = Vec::new();
    let mut k: usize = 0;
    while k < p.len()
        invariant
            k <= p@.len(),
            forall|i: int| 0 <= i < p@.len() ==> #[trigger] p@[i] < items@.len(),
            out@.len() == k,
            forall|i: int| 0 <= i < k ==> #[trigger] out@[i] == items@[p@[i] as int],
        decreases p@.len() - k,
    {
        out.push(items[p[k]]);
        k = k + 1;
    }
    out
}

/// Distinct positions of a stable order.
pub proof fn lemma_order_distinct(keys: Seq<i128>, p: Seq<usize>)
    requires
        is_stable_order(keys, p),
    ensures
        forall|i: int, j: int| 0 <= i < p.len() && 0 <= j < p.len() && i != j ==> #[trigger] p[i] != #[trigger] p[j],
{
    assert forall|i: int, j: int| 0 <= i < p.len() && 0 <= j < p.len() && i != j implies #[trigger] p[i] != #[trigger] p[j] by {
        if i < j {
            assert(key_before(keys, p[i] as int, p[j] as int));
        } else {
            assert(key_before(keys, p[j] as int, p[i] as int));
        }
    }
}

/// The events in the given order of positions, moved out of `events`.
pub fn events_in_order(events: Vec<CombatEvent>, keys: Ghost<Seq<i128>>, p: &Vec<usize>) -> (r: Vec<CombatEvent>)
    requires
        is_stable_order(keys@, p@),
        keys@.len() == events@.len(),
    ensures
        r@.len() == p@.len(),
        forall|i: int| 0 <= i < p@.len() ==> #[trigger] r@[i] == events@[p@[i] as int],
{
    proof {
        lemma_order_distinct(keys@, p@);
    }
    let ghost ev = events@;
    let mut slots: Vec<Option<CombatEvent>> = Vec::new();
    let mut events = events;
    let n = events.len();
    // Move the events into optional slots, last first.
    while events.len() > 0
        invariant
            ev.len() == n,
            events@.len() + slots@.len() == n,
            events@ == ev.take(events@.len() as int),
            forall|i: int| 0 <= i < slots@.len() ==> #[trigger] slots@[i] == Some(ev[n - 1 - i]),
        decreases events@.len(),
    {
        let e = events.pop().unwrap();
        slots.push(Some(e));
        assert(ev.take(events@.len() as int) =~= ev.take(events@.len() as int + 1).drop_last());
    }
    let mut out: Vec<CombatEvent> = Vec::new();
    let mut k: usize = 0;
    while k < p.len()
        invariant
            k <= p@.len() == n,
            ev.len() == n,
            slots@.len() == n,
            is_stable_order(keys@, p@),
            keys@.len() == n,
            forall|i: int, j: int| 0 <= i < p@.len() && 0 <= j < p@.len() && i != j ==> #[trigger] p@[i] != #[trigger] p@[j],
            out@.len() == k,
            forall|i: int| 0 <= i < k ==> #[trigger] out@[i] == ev[p@[i] as int],
            forall|i: int|
                k <= i < p@.len() ==> #[trigger] slots@[n - 1 - p@[i]] == Some(ev[p@[i] as int]),
        decreases p@.len() - k,
    {
        let idx = p[k];
        let slot = n - 1 - idx;
        let taken = slots[slot].take();
        match taken {
            Some(e) => {
                out.push(e);
            },
            None => {
                assert(false);
            },
        }
        proof {
            assert forall|i: int| k + 1 <= i < p@.len() implies #[trigger] slots@[n - 1 - p@[i]] == Some(ev[p@[i] as int]) by {
                assert(p@[i] != p@[k as int]);
            }
        }
        k = k + 1;
    }
    out
}

} // verus!
