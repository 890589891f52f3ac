//! The laid-out text of recognized fragments depends only on the fragments,
//! not on the order in which the recognizer listed them.
use vstd::prelude::*;
use crate::layout::{
    collect_widths, fragment_keys, fragment_views, group_rows, layout_text, layout_unit,
    lemma_group_rows_well_formed, lemma_matching_row_range, lemma_min_left_below, line,
    matching_row, min_left, place, reading_order, row_bottom, row_height, row_keys,
    row_sequence, row_top, rows_text, rows_well_formed, separator, span, anchored, Fragment,
    FragmentView,
};
use crate::sorting::{
    identity_indices, key_order, lemma_key_order_total, lemma_stable_order_indices, stable_order,
};
use vstd::relations::sorted_by;

verus! {

/// `b` lists the fragments of `a` in another order: `b[i]` is `a[p[i]]`, and
/// `p` pairs the positions of the two one to one.
pub open spec fn rearranges(a: Seq<FragmentView>, b: Seq<FragmentView>, p: Seq<usize>) -> bool {
    &&& a.len() == b.len()
    &&& p.len() == b.len()
    &&& forall|i: int| 0 <= i < b.len() ==> #[trigger] p[i] < a.len() && b[i] == a[p[i] as int]
    &&& forall|i: int, j: int| 0 <= i < j < b.len() ==> #[trigger] p[i] != #[trigger] p[j]
    &&& forall|v: int| 0 <= v < a.len() ==> #[trigger] paired(p, v)
}

/// Some position is paired with position `v`.
pub open spec fn paired(p: Seq<usize>, v: int) -> bool {
    exists|i: int| 0 <= i < p.len() && p[i] == v
}

/// The same positions, named by their counterparts in the other listing.
spec fn relabel(s: Seq<usize>, p: Seq<usize>) -> Seq<usize> {
    s.map_values(|k: usize| p[k as int])
}

spec fn relabel_rows(rows: Seq<Seq<usize>>, p: Seq<usize>) -> Seq<Seq<usize>> {
    rows.map_values(|r: Seq<usize>| relabel(r, p))
}

spec fn below(s: Seq<usize>, n: int) -> bool {
    forall|i: int| 0 <= i < s.len() ==> #[trigger] s[i] < n
}

proof fn lemma_relabel_drop_last(s: Seq<usize>, p: Seq<usize>, n: int)
    requires
        s.len() > 0,
        below(s, n),
    ensures
        relabel(s.drop_last(), p) == relabel(s, p).drop_last(),
        relabel(s, p).last() == p[s.last() as int],
        below(s.drop_last(), n),
        s.last() < n,
{
    assert(relabel(s.drop_last(), p) =~= relabel(s, p).drop_last());
    assert(s.last() == s[s.len() - 1]);
    assert forall|i: int| 0 <= i < s.drop_last().len() implies #[trigger] s.drop_last()[i] < n by {
        assert(s.drop_last()[i] == s[i]);
    }
}

proof fn lemma_widths(a: Seq<FragmentView>, b: Seq<FragmentView>, p: Seq<usize>, s: Seq<usize>)
    requires
        rearranges(a, b, p),
        below(s, b.len() as int),
    ensures
        collect_widths(b, s) == collect_widths(a, relabel(s, p)),
    decreases s.len(),
{
    if s.len() > 0 {
        lemma_relabel_drop_last(s, p, b.len() as int);
        lemma_widths(a, b, p, s.drop_last());
        assert(b[s.last() as int] == a[p[s.last() as int] as int]);
    }
}

proof fn lemma_row_bounds(a: Seq<FragmentView>, b: Seq<FragmentView>, p: Seq<usize>, row: Seq<usize>)
    requires
        rearranges(a, b, p),
        below(row, b.len() as int),
    ensures
        row_top(b, row) == row_top(a, relabel(row, p)),
        row_bottom(b, row) == row_bottom(a, relabel(row, p)),
        row_height(b, row) == row_height(a, relabel(row, p)),
    decreases row.len(),
{
    if row.len() > 0 {
        lemma_relabel_drop_last(row, p, b.len() as int);
        lemma_row_bounds(a, b, p, row.drop_last());
        assert(b[row.last() as int] == a[p[row.last() as int] as int]);
        assert(row[0] < b.len());
        assert(relabel(row, p)[0] == p[row[0] as int]);
        assert(b[row[0] as int] == a[p[row[0] as int] as int]);
    }
}

proof fn lemma_line(
    a: Seq<FragmentView>,
    b: Seq<FragmentView>,
    p: Seq<usize>,
    s: Seq<usize>,
    origin: int,
    unit: (u64, u64),
    k: int,
)
    requires
        rearranges(a, b, p),
        below(s, b.len() as int),
        0 <= k <= s.len(),
    ensures
        line(b, s, origin, unit, k) == line(a, relabel(s, p), origin, unit, k),
    decreases k,
{
    if k > 0 {
        lemma_line(a, b, p, s, origin, unit, k - 1);
        assert(s[k - 1] < b.len());
        assert(relabel(s, p)[k - 1] == p[s[k - 1] as int]);
        assert(b[s[k - 1] as int] == a[p[s[k - 1] as int] as int]);
    }
}

/// A row listed left to right names the same fragments in both listings.
proof fn lemma_row_sequence(a: Seq<FragmentView>, b: Seq<FragmentView>, p: Seq<usize>, row: Seq<usize>)
    requires
        rearranges(a, b, p),
        below(row, b.len() as int),
    ensures
        relabel(row_sequence(b, row), p) == row_sequence(a, relabel(row, p)),
        below(row_sequence(b, row), b.len() as int),
        row_sequence(b, row).len() == row.len(),
{
    let ra = relabel(row, p);
    assert forall|q: int| 0 <= q < row.len() implies #[trigger] row_keys(b, row)[q] == row_keys(a, ra)[q] by {
        assert(row[q] < b.len());
        assert(b[row[q] as int] == a[p[row[q] as int] as int]);
    }
    assert(row_keys(b, row) =~= row_keys(a, ra));
    let so = stable_order(row_keys(b, row));
    lemma_stable_order_indices(row_keys(b, row));
    assert forall|i: int| 0 <= i < so.len() implies #[trigger] row_sequence(b, row)[i] < b.len() by {
        assert(so[i] < row.len());
    }
    assert forall|i: int| 0 <= i < so.len() implies #[trigger] relabel(row_sequence(b, row), p)[i]
        == row_sequence(a, ra)[i] by {
        assert(so[i] < row.len());
    }
    assert(relabel(row_sequence(b, row), p) =~= row_sequence(a, ra));
}

proof fn lemma_relabel_rows_wf(rows: Seq<Seq<usize>>, p: Seq<usize>, r: int, n: int)
    requires
        rows_well_formed(rows, n),
        0 <= r < rows.len(),
    ensures
        relabel_rows(rows, p)[r] == relabel(rows[r], p),
        below(rows[r], n),
        rows[r].len() > 0,
        relabel_rows(rows, p)[r][0] == p[rows[r][0] as int],
{
    assert(rows[r].len() > 0);
    assert forall|i: int| 0 <= i < rows[r].len() implies #[trigger] rows[r][i] < n by {}
}

proof fn lemma_matching_row(
    a: Seq<FragmentView>,
    b: Seq<FragmentView>,
    p: Seq<usize>,
    rows: Seq<Seq<usize>>,
    f: usize,
    k: int,
)
    requires
        rearranges(a, b, p),
        rows_well_formed(rows, b.len() as int),
        f < b.len(),
        0 <= k <= rows.len(),
    ensures
        matching_row(b, rows, f, k) == matching_row(a, relabel_rows(rows, p), p[f as int], k),
    decreases k,
{
    if k > 0 {
        lemma_matching_row(a, b, p, rows, f, k - 1);
        lemma_relabel_rows_wf(rows, p, k - 1, b.len() as int);
        let g = rows[k - 1][0];
        assert(b[g as int] == a[p[g as int] as int]);
        assert(b[f as int] == a[p[f as int] as int]);
    }
}

/// Rows grouped from corresponding orders hold corresponding fragments.
proof fn lemma_group_rows(a: Seq<FragmentView>, b: Seq<FragmentView>, p: Seq<usize>, s: Seq<usize>)
    requires
        rearranges(a, b, p),
        below(s, b.len() as int),
    ensures
        relabel_rows(group_rows(b, s), p) == group_rows(a, relabel(s, p)),
        rows_well_formed(group_rows(b, s), b.len() as int),
    decreases s.len(),
{
    lemma_group_rows_well_formed(b, s);
    if s.len() > 0 {
        let n = b.len() as int;
        lemma_relabel_drop_last(s, p, n);
        let t = s.drop_last();
        lemma_group_rows(a, b, p, t);
        let rb = group_rows(b, t);
        let ra = group_rows(a, relabel(t, p));
        let f = s.last();
        let r = matching_row(b, rb, f, rb.len() as int);
        lemma_matching_row(a, b, p, rb, f, rb.len() as int);
        assert(ra.len() == rb.len());
        assert(place(b, rb, f) == group_rows(b, s));
        assert(place(a, ra, p[f as int]) == group_rows(a, relabel(s, p)));
        if r >= 0 {
            lemma_matching_row_range(b, rb, f, rb.len() as int);
            lemma_relabel_rows_wf(rb, p, r, n);
            assert(relabel(rb[r].push(f), p) =~= relabel(rb[r], p).push(p[f as int]));
            assert(relabel_rows(rb.update(r, rb[r].push(f)), p) =~= ra.update(r, ra[r].push(p[f as int])));
        } else {
            assert(relabel(seq![f], p) =~= seq![p[f as int]]);
            assert(relabel_rows(rb.push(seq![f]), p) =~= ra.push(seq![p[f as int]]));
        }
    }
}

proof fn lemma_separator(a: Seq<FragmentView>, b: Seq<FragmentView>, p: Seq<usize>, rows: Seq<Seq<usize>>, r: int)
    requires
        rearranges(a, b, p),
        rows_well_formed(rows, b.len() as int),
        0 <= r < rows.len(),
    ensures
        separator(b, rows, r) == separator(a, relabel_rows(rows, p), r),
{
    if r > 0 {
        lemma_relabel_rows_wf(rows, p, r, b.len() as int);
        lemma_relabel_rows_wf(rows, p, r - 1, b.len() as int);
        lemma_row_bounds(a, b, p, rows[r]);
        lemma_row_bounds(a, b, p, rows[r - 1]);
    }
}

proof fn lemma_rows_text(
    a: Seq<FragmentView>,
    b: Seq<FragmentView>,
    p: Seq<usize>,
    rows: Seq<Seq<usize>>,
    origin: int,
    unit: (u64, u64),
    k: int,
)
    requires
        rearranges(a, b, p),
        rows_well_formed(rows, b.len() as int),
        0 <= k <= rows.len(),
    ensures
        rows_text(b, rows, origin, unit, k) == rows_text(a, relabel_rows(rows, p), origin, unit, k),
    decreases k,
{
    if k > 0 {
        lemma_rows_text(a, b, p, rows, origin, unit, k - 1);
        lemma_separator(a, b, p, rows, k - 1);
        lemma_relabel_rows_wf(rows, p, k - 1, b.len() as int);
        lemma_row_sequence(a, b, p, rows[k - 1]);
        let seq_b = row_sequence(b, rows[k - 1]);
        lemma_line(a, b, p, seq_b, origin, unit, seq_b.len() as int);
    }
}

proof fn lemma_min_left_attained(frags: Seq<FragmentView>)
    requires
        frags.len() > 0,
    ensures
        exists|i: int| 0 <= i < frags.len() && min_left(frags) == (#[trigger] frags[i]).left,
    decreases frags.len(),
{
    if frags.len() == 1 {
        assert(min_left(frags) == frags[0].left);
    } else {
        let rest = frags.drop_last();
        lemma_min_left_attained(rest);
        let i = choose|i: int| 0 <= i < rest.len() && min_left(rest) == (#[trigger] rest[i]).left;
        assert(rest[i] == frags[i]);
        assert(frags.last() == frags[frags.len() - 1]);
    }
}

proof fn lemma_min_left(a: Seq<FragmentView>, b: Seq<FragmentView>, p: Seq<usize>)
    requires
        rearranges(a, b, p),
        a.len() > 0,
    ensures
        min_left(b) == min_left(a),
{
    lemma_min_left_below(a);
    lemma_min_left_below(b);
    lemma_min_left_attained(a);
    lemma_min_left_attained(b);
    let i = choose|i: int| 0 <= i < b.len() && min_left(b) == (#[trigger] b[i]).left;
    assert(b[i] == a[p[i] as int]);
    let j = choose|j: int| 0 <= j < a.len() && min_left(a) == (#[trigger] a[j]).left;
    assert(paired(p, j));
    let k = choose|k: int| 0 <= k < p.len() && p[k] == j;
    assert(b[k] == a[p[k] as int]);
}

/// No two fragments share both their vertical center and their left edge.
pub open spec fn distinct_positions(a: Seq<FragmentView>) -> bool {
    forall|i: int, j: int|
        0 <= i < a.len() && 0 <= j < a.len() && i != j ==> span(#[trigger] a[i]) != span(#[trigger] a[j])
            || a[i].left != a[j].left
}

/// The positions `0 .. n - 1`, each once, in some order.
spec fn lists_each_position(s: Seq<usize>, n: int) -> bool {
    &&& s.no_duplicates()
    &&& forall|v: usize| s.contains(v) <==> v < n
}

proof fn lemma_same_positions_same_multiset(s: Seq<usize>, t: Seq<usize>, n: int)
    requires
        lists_each_position(s, n),
        lists_each_position(t, n),
    ensures
        s.to_multiset() =~= t.to_multiset(),
{
    broadcast use vstd::seq_lib::group_to_multiset_ensures;
    s.lemma_multiset_has_no_duplicates();
    t.lemma_multiset_has_no_duplicates();
    assert forall|v: usize| s.to_multiset().count(v) == t.to_multiset().count(v) by {
        if v < n {
            assert(s.contains(v) && t.contains(v));
        } else {
            assert(!s.contains(v) && !t.contains(v));
        }
    }
}

/// A stable order of `n` keys lists each position once.
proof fn lemma_stable_order_lists(keys: Seq<(u64, u64)>)
    requires
        keys.len() <= usize::MAX + 1,
    ensures
        lists_each_position(stable_order(keys), keys.len() as int),
{
    broadcast use vstd::seq_lib::group_to_multiset_ensures;
    let ids = identity_indices(keys.len());
    let so = stable_order(keys);
    lemma_key_order_total(keys);
    ids.lemma_sort_by_ensures(key_order(keys));
    assert forall|v: usize| ids.contains(v) <==> v < keys.len() by {
        if v < keys.len() {
            assert(ids[v as int] == v);
        }
    }
    assert forall|i: int, j: int| 0 <= i < ids.len() && 0 <= j < ids.len() && i != j implies ids[i]
        != ids[j] by {
        assert(ids[i] == i && ids[j] == j);
    }
    assert(ids.no_duplicates());
    ids.lemma_multiset_has_no_duplicates();
    assert forall|v: usize| so.to_multiset().contains(v) implies so.to_multiset().count(v) == 1 by {}
    so.lemma_multiset_has_no_duplicates_conv();
    assert forall|v: usize| so.contains(v) <==> v < keys.len() by {
        assert(so.contains(v) <==> so.to_multiset().count(v) > 0);
        assert(ids.contains(v) <==> ids.to_multiset().count(v) > 0);
    }
}

/// With distinct positions, the reading orders of the two listings name the
/// same fragments in the same sequence.
proof fn lemma_reading_order(a: Seq<FragmentView>, b: Seq<FragmentView>, p: Seq<usize>)
    requires
        rearranges(a, b, p),
        distinct_positions(a),
    ensures
        relabel(reading_order(b), p) == reading_order(a),
        below(reading_order(b), b.len() as int),
{
    broadcast use vstd::seq_lib::group_to_multiset_ensures;
    let n = b.len() as int;
    let ka = fragment_keys(a);
    let kb = fragment_keys(b);
    let oa = reading_order(a);
    let ob = reading_order(b);
    let y = relabel(ob, p);
    if n > 0 {
        assert(paired(p, n - 1));
    }
    lemma_stable_order_indices(kb);
    lemma_stable_order_lists(ka);
    lemma_stable_order_lists(kb);
    assert forall|k: int| 0 <= k < n implies #[trigger] kb[k] == ka[p[k] as int] by {
        assert(b[k] == a[p[k] as int]);
    }
    assert(below(ob, n));
    // y lists each position of `a` once
    assert forall|i: int, j: int| 0 <= i < y.len() && 0 <= j < y.len() && i != j implies y[i] != y[j] by {
        assert(ob[i] != ob[j]);
        assert(ob[i] < n && ob[j] < n);
        if ob[i] < ob[j] {
            assert(p[ob[i] as int] != p[ob[j] as int]);
        } else {
            assert(p[ob[j] as int] != p[ob[i] as int]);
        }
    }
    assert forall|v: usize| y.contains(v) <==> v < n by {
        if y.contains(v) {
            let i = choose|i: int| 0 <= i < y.len() && y[i] == v;
            assert(ob[i] < n);
        }
        if v < n {
            assert(paired(p, v as int));
            let k = choose|k: int| 0 <= k < p.len() && p[k] == v;
            assert(ob.contains(k as usize));
            let i = choose|i: int| 0 <= i < ob.len() && ob[i] == k as usize;
            assert(y[i] == v);
        }
    }
    lemma_same_positions_same_multiset(oa, y, n);
    // y is sorted by the keys of `a`
    lemma_key_order_total(ka);
    lemma_key_order_total(kb);
    identity_indices(kb.len()).lemma_sort_by_ensures(key_order(kb));
    identity_indices(ka.len()).lemma_sort_by_ensures(key_order(ka));
    assert forall|i: int, j: int| 0 <= i < j < y.len() implies #[trigger] key_order(ka)(y[i], y[j]) by {
        let u = ob[i];
        let v = ob[j];
        assert(key_order(kb)(u, v));
        assert(u < n && v < n);
        if u != v {
            let pu = p[u as int] as int;
            let pv = p[v as int] as int;
            if u < v {
                assert(p[u as int] != p[v as int]);
            } else {
                assert(p[v as int] != p[u as int]);
            }
            assert(a[pu] != a[pv] || pu != pv);
            assert(span(a[pu]) != span(a[pv]) || a[pu].left != a[pv].left);
        }
    }
    assert(sorted_by(y, key_order(ka)));
    vstd::seq_lib::lemma_sorted_unique(oa, y, key_order(ka));
}

/// The text laid out from recognized fragments does not depend on the order
/// in which they were listed: any rearrangement of fragments that pairwise
/// differ in vertical center or left edge lays out to the same text.
pub proof fn lemma_layout_ignores_listing_order(a: Seq<Fragment>, b: Seq<Fragment>)
    requires
        exists|p: Seq<usize>| rearranges(fragment_views(a), fragment_views(b), p),
        distinct_positions(fragment_views(a)),
    ensures
        layout_text(fragment_views(a)) == layout_text(fragment_views(b)),
{
    let va = fragment_views(a);
    let vb = fragment_views(b);
    let p = choose|p: Seq<usize>| rearranges(va, vb, p);
    if va.len() > 0 {
        lemma_reading_order(va, vb, p);
        let ob = reading_order(vb);
        lemma_widths(va, vb, p, ob);
        lemma_group_rows(va, vb, p, ob);
        lemma_min_left(va, vb, p);
        let rows = group_rows(vb, ob);
        lemma_rows_text(
            va,
            vb,
            p,
            rows,
            min_left(va),
            layout_unit(collect_widths(va, reading_order(va))),
            rows.len() as int,
        );
    }
}

/// A fragment joins the row of an anchor exactly when their vertical
/// centers lie at most half the smaller box height apart (heights counted
/// as at least one pixel).
pub proof fn lemma_anchored_within_half_height(frags: Seq<FragmentView>, a: usize, f: usize)
    ensures
        anchored(frags, a, f) <==> ({
            let x = frags[a as int];
            let y = frags[f as int];
            let hx: int = if x.bottom as int - x.top as int >= 1 { x.bottom - x.top } else { 1 };
            let hy: int = if y.bottom as int - y.top as int >= 1 { y.bottom - y.top } else { 1 };
            let smaller: int = if hx <= hy { hx } else { hy };
            let twice_distance: int = (x.top + x.bottom) - (y.top + y.bottom);
            -smaller <= twice_distance <= smaller
        }),
{
}

proof fn lemma_matching_row_anchors(frags: Seq<FragmentView>, rows: Seq<Seq<usize>>, f: usize, k: int)
    requires
        0 <= k,
    ensures
        matching_row(frags, rows, f, k) >= 0 ==> anchored(
            frags,
            rows[matching_row(frags, rows, f, k)][0],
            f,
        ),
    decreases k,
{
    if k > 0 {
        lemma_matching_row_anchors(frags, rows, f, k - 1);
    }
}

spec fn rows_anchored(frags: Seq<FragmentView>, rows: Seq<Seq<usize>>) -> bool {
    forall|r: int, p: int|
        0 <= r < rows.len() && 0 <= p < rows[r].len() ==> anchored(frags, rows[r][0], #[trigger] rows[r][p])
}

proof fn lemma_rows_anchored(frags: Seq<FragmentView>, order: Seq<usize>)
    requires
        below(order, frags.len() as int),
    ensures
        rows_anchored(frags, group_rows(frags, order)),
    decreases order.len(),
{
    if order.len() > 0 {
        lemma_relabel_drop_last(order, Seq::empty(), frags.len() as int);
        let rest = order.drop_last();
        lemma_rows_anchored(frags, rest);
        lemma_group_rows_well_formed(frags, rest);
        let rows = group_rows(frags, rest);
        let f = order.last();
        let r = matching_row(frags, rows, f, rows.len() as int);
        lemma_matching_row_range(frags, rows, f, rows.len() as int);
        lemma_matching_row_anchors(frags, rows, f, rows.len() as int);
        let placed = group_rows(frags, order);
        assert(placed == place(frags, rows, f));
        assert forall|q: int, p: int| 0 <= q < placed.len() && 0 <= p < placed[q].len() implies anchored(
            frags,
            placed[q][0],
            #[trigger] placed[q][p],
        ) by {
            if r >= 0 && q == r {
                assert(rows[q].len() > 0);
                assert(placed[q] == rows[q].push(f));
                assert(placed[q][0] == rows[q][0]);
                if p < rows[q].len() {
                    assert(placed[q][p] == rows[q][p]);
                }
            } else if r < 0 && q == rows.len() {
                assert(placed[q] == seq![f]);
            } else {
                assert(placed[q] == rows[q]);
            }
        }
    }
}

/// Every fragment on a row of the layout has its vertical center at most
/// half the smaller box height away from the center of the row's first
/// fragment: boxes farther apart than that never share a line of the text.
pub proof fn lemma_rows_keep_centers_close(frags: Seq<FragmentView>)
    ensures
        ({
            let rows = group_rows(frags, reading_order(frags));
            forall|r: int, p: int|
                0 <= r < rows.len() && 0 <= p < rows[r].len() ==> ({
                    let x = frags[rows[r][0] as int];
                    let y = frags[#[trigger] rows[r][p] as int];
                    let hx: int = if x.bottom as int - x.top as int >= 1 { x.bottom - x.top } else { 1 };
                    let hy: int = if y.bottom as int - y.top as int >= 1 { y.bottom - y.top } else { 1 };
                    let smaller: int = if hx <= hy { hx } else { hy };
                    let twice_distance: int = (x.top + x.bottom) - (y.top + y.bottom);
                    -smaller <= twice_distance <= smaller
                })
        }),
{
    let order = reading_order(frags);
    lemma_stable_order_indices(fragment_keys(frags));
    lemma_rows_anchored(frags, order);
    let rows = group_rows(frags, order);
    assert forall|r: int, p: int| 0 <= r < rows.len() && 0 <= p < rows[r].len() implies ({
        let x = frags[rows[r][0] as int];
        let y = frags[#[trigger] rows[r][p] as int];
        let hx: int = if x.bottom as int - x.top as int >= 1 { x.bottom - x.top } else { 1 };
        let hy: int = if y.bottom as int - y.top as int >= 1 { y.bottom - y.top } else { 1 };
        let smaller: int = if hx <= hy { hx } else { hy };
        let twice_distance: int = (x.top + x.bottom) - (y.top + y.bottom);
        -smaller <= twice_distance <= smaller
    }) by {
        assert(anchored(frags, rows[r][0], rows[r][p]));
        lemma_anchored_within_half_height(frags, rows[r][0], rows[r][p]);
    }
}

} // verus!
