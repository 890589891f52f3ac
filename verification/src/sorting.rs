//! Stable orderings used by the text layout: indices ordered by integer keys,
//! and text widths ordered by their value as fractions.
use vstd::prelude::*;
use vstd::relations::*;
use vstd::seq_lib::*;

verus! {

broadcast use vstd::seq_lib::group_to_multiset_ensures;

/// Index `a` comes no later than index `b` when its key is smaller, or the
/// keys are equal and `a` is the earlier index (a stable order).
pub open spec fn key_le(keys: Seq<(u64, u64)>, a: usize, b: usize) -> bool {
    let ka = keys[a as int];
    let kb = keys[b as int];
    ka.0 < kb.0 || (ka.0 == kb.0 && (ka.1 < kb.1 || (ka.1 == kb.1 && a <= b)))
}

pub open spec fn key_order(keys: Seq<(u64, u64)>) -> spec_fn(usize, usize) -> bool {
    |a: usize, b: usize| key_le(keys, a, b)
}

/// The indices `0, 1, ..., n - 1`.
pub open spec fn identity_indices(n: nat) -> Seq<usize> {
    Seq::new(n, |i: int| i as usize)
}

/// The indices of `keys`, stably sorted by key.
pub open spec fn stable_order(keys: Seq<(u64, u64)>) -> Seq<usize> {
    identity_indices(keys.len()).sort_by(key_order(keys))
}

pub proof fn lemma_key_order_total(keys: Seq<(u64, u64)>)
    ensures
        total_ordering(key_order(keys)),
{
}

/// The stable order is a rearrangement of the indices of `keys`.
pub proof fn lemma_stable_order_indices(keys: Seq<(u64, u64)>)
    ensures
        stable_order(keys).len() == keys.len(),
        forall|k: int| 0 <= k < keys.len() ==> #[trigger] stable_order(keys)[k] < keys.len(),
{
    lemma_key_order_total(keys);
    let ids = identity_indices(keys.len());
    ids.lemma_sort_by_ensures(key_order(keys));
    let sorted = stable_order(keys);
    assert(sorted.to_multiset().len() == ids.to_multiset().len());
    assert forall|k: int| 0 <= k < keys.len() implies #[trigger] stable_order(keys)[k] < keys.len() by {
        assert(sorted.contains(sorted[k]));
        if !ids.contains(sorted[k]) {
            assert(!sorted.contains(sorted[k]));
        }
        let j = choose|j: int| 0 <= j < ids.len() && ids[j] == sorted[k];
    }
}

fn key_le_exec(keys: &Vec<(u64, u64)>, a: usize, b: usize) -> (r: bool)
    requires
        a < keys@.len(),
        b < keys@.len(),
    ensures
        r == key_le(keys@, a, b),
{
    let ka = keys[a];
    let kb = keys[b];
    ka.0 < kb.0 || (ka.0 == kb.0 && (ka.1 < kb.1 || (ka.1 == kb.1 && a <= b)))
}

/// Returns the indices of `keys` in stable key order.
pub fn sort_by_keys(keys: &Vec<(u64, u64)>) -> (order: Vec<usize>)
    ensures
        order@ == stable_order(keys@),
{
    let ghost le = key_order(keys@);
    proof {
        lemma_key_order_total(keys@);
    }
    let n = keys.len();
    let mut order: Vec<usize> = Vec::new();
    for i in 0..n
        invariant
            n == keys@.len(),
            le == key_order(keys@),
            total_ordering(le),
            order@.len() == i,
            forall|k: int| 0 <= k < order@.len() ==> #[trigger] order@[k] < i,
            sorted_by(order@, le),
            order@.to_multiset() == identity_indices(i as nat).to_multiset(),
    {
        let mut j: usize = 0;
        while j < order.len()
            invariant
                n == keys@.len(),
                le == key_order(keys@),
                i < n,
                0 <= j <= order@.len(),
                forall|k: int| 0 <= k < order@.len() ==> #[trigger] order@[k] < i,
                forall|k: int| 0 <= k < j ==> le(#[trigger] order@[k], i as usize),
            ensures
                0 <= j <= order@.len(),
                forall|k: int| 0 <= k < j ==> le(#[trigger] order@[k], i as usize),
                j == order@.len() || !le(order@[j as int], i as usize),
            decreases order@.len() - j,
        {
            if !key_le_exec(keys, order[j], i) {
                break;
            }
            j = j + 1;
        }
        let ghost before = order@;
        proof {
            assert forall|k: int| j <= k < before.len() implies le(i as usize, #[trigger] before[k]) by {
                if le(before[k], i as usize) {
                    if (k as int) != (j as int) {
                        assert(le(before[j as int], before[k]));
                    }
                    assert(le(before[j as int], i as usize));
                    assert(false);
                }
            }
        }
        order.insert(j, i);
        proof {
            let after = order@;
            assert forall|p: int, q: int| 0 <= p < q < after.len() implies le(
                #[trigger] after[p],
                #[trigger] after[q],
            ) by {
                if q < j {
                    assert(le(before[p], before[q]));
                } else if q == j {
                } else if p < j {
                    assert(le(before[p], i as usize));
                    assert(le(i as usize, before[q - 1]));
                } else if p == j {
                } else {
                    assert(le(before[p - 1], before[q - 1]));
                }
            }
            assert(identity_indices((i + 1) as nat) =~= identity_indices(i as nat).push(i as usize));
        }
    }
    proof {
        let target = identity_indices(n as nat);
        assert(identity_indices(n as nat) =~= identity_indices(keys@.len()));
        target.lemma_sort_by_ensures(le);
        lemma_sorted_unique(order@, target.sort_by(le), le);
    }
    order
}

/// The denominator of a width fraction, never zero.
pub open spec fn denominator(w: (u64, u64)) -> int {
    if w.1 == 0 { 1 } else { w.1 as int }
}

/// Width fractions `(numerator, denominator)` ordered by their value, ties
/// broken by the numerator and then the denominator, so that the order is total.
pub open spec fn width_le(a: (u64, u64), b: (u64, u64)) -> bool {
    let x = a.0 * denominator(b);
    let y = b.0 * denominator(a);
    x < y || (x == y && (a.0 < b.0 || (a.0 == b.0 && a.1 <= b.1)))
}

pub open spec fn width_order() -> spec_fn((u64, u64), (u64, u64)) -> bool {
    |a: (u64, u64), b: (u64, u64)| width_le(a, b)
}

proof fn lemma_fraction_chain(a: (u64, u64), b: (u64, u64), c: (u64, u64))
    requires
        a.0 * denominator(b) <= b.0 * denominator(a),
        b.0 * denominator(c) <= c.0 * denominator(b),
    ensures
        a.0 * denominator(c) <= c.0 * denominator(a),
        (a.0 * denominator(b) < b.0 * denominator(a) || b.0 * denominator(c) < c.0
            * denominator(b)) ==> a.0 * denominator(c) < c.0 * denominator(a),
{
    let (wa, wb, wc) = (a.0 as int, b.0 as int, c.0 as int);
    let (da, db, dc) = (denominator(a), denominator(b), denominator(c));
    assert(wa * dc <= wc * da && ((wa * db < wb * da || wb * dc < wc * db) ==> wa * dc < wc * da))
        by (nonlinear_arith)
        requires
            da > 0,
            db > 0,
            dc > 0,
            wa >= 0,
            wb >= 0,
            wc >= 0,
            wa * db <= wb * da,
            wb * dc <= wc * db,
    {
        assert(wa * db * dc <= wb * da * dc);
        assert(wb * dc * da <= wc * db * da);
        assert(db * (wa * dc) <= db * (wc * da));
        if wa * db < wb * da {
            assert(wa * db * dc < wb * da * dc);
            assert(db * (wa * dc) < db * (wc * da));
        }
        if wb * dc < wc * db {
            assert(wb * dc * da < wc * db * da);
            assert(db * (wa * dc) < db * (wc * da));
        }
    }
}

pub proof fn lemma_width_order_total()
    ensures
        total_ordering(width_order()),
{
    let le = width_order();
    assert forall|a: (u64, u64), b: (u64, u64), c: (u64, u64)|
        #[trigger] le(a, b) && #[trigger] le(b, c) implies le(a, c) by {
        lemma_fraction_chain(a, b, c);
    }
    assert(transitive(le));
}

fn width_le_exec(a: (u64, u64), b: (u64, u64)) -> (r: bool)
    ensures
        r == width_le(a, b),
{
    let da: u128 = if a.1 == 0 { 1 } else { a.1 as u128 };
    let db: u128 = if b.1 == 0 { 1 } else { b.1 as u128 };
    assert((a.0 as u128) * db <= u64::MAX as u128 * u64::MAX as u128) by (nonlinear_arith)
        requires
            db <= u64::MAX,
            a.0 <= u64::MAX,
    ;
    assert((b.0 as u128) * da <= u64::MAX as u128 * u64::MAX as u128) by (nonlinear_arith)
        requires
            da <= u64::MAX,
            b.0 <= u64::MAX,
    ;
    let x = (a.0 as u128) * db;
    let y = (b.0 as u128) * da;
    x < y || (x == y && (a.0 < b.0 || (a.0 == b.0 && a.1 <= b.1)))
}

/// Returns the width fractions sorted by value.
pub fn sort_widths(widths: Vec<(u64, u64)>) -> (sorted: Vec<(u64, u64)>)
    ensures
        sorted@ == widths@.sort_by(width_order()),
{
    let ghost le = width_order();
    proof {
        lemma_width_order_total();
    }
    let n = widths.len();
    let mut sorted: Vec<(u64, u64)> = Vec::new();
    for i in 0..n
        invariant
            n == widths@.len(),
            le == width_order(),
            total_ordering(le),
            sorted@.len() == i,
            sorted_by(sorted@, le),
            sorted@.to_multiset() == widths@.take(i as int).to_multiset(),
    {
        let w = widths[i];
        let mut j: usize = 0;
        while j < sorted.len()
            invariant
                le == width_order(),
                0 <= j <= sorted@.len(),
                forall|k: int| 0 <= k < j ==> le(#[trigger] sorted@[k], w),
            ensures
                0 <= j <= sorted@.len(),
                forall|k: int| 0 <= k < j ==> le(#[trigger] sorted@[k], w),
                j == sorted@.len() || !le(sorted@[j as int], w),
            decreases sorted@.len() - j,
        {
            if !width_le_exec(sorted[j], w) {
                break;
            }
            j = j + 1;
        }
        let ghost before = sorted@;
        proof {
            assert forall|k: int| j <= k < before.len() implies le(w, #[trigger] before[k]) by {
                if le(before[k], w) {
                    if (k as int) != (j as int) {
                        assert(le(before[j as int], before[k]));
                    }
                    assert(le(before[j as int], w));
                    assert(false);
                }
            }
        }
        sorted.insert(j, w);
        proof {
            let after = sorted@;
            assert forall|p: int, q: int| 0 <= p < q < after.len() implies le(
                #[trigger] after[p],
                #[trigger] after[q],
            ) by {
                if q < j {
                    assert(le(before[p], before[q]));
                } else if q == j {
                } else if p < j {
                    assert(le(before[p], w));
                    assert(le(w, before[q - 1]));
                } else if p == j {
                } else {
                    assert(le(before[p - 1], before[q - 1]));
                }
            }
            assert(widths@.take(i + 1) =~= widths@.take(i as int).push(w));
        }
    }
    proof {
        assert(widths@.take(n as int) =~= widths@);
        widths@.lemma_sort_by_ensures(le);
        lemma_sorted_unique(sorted@, widths@.sort_by(le), le);
    }
    sorted
}

} // verus!
