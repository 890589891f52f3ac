use vstd::prelude::*;
use vstd::std_specs::iter::IteratorSpec;
use crate::text::{lemma_trimmed_shorter, trim, trimmed};
use crate::sorting::{
    denominator, lemma_stable_order_indices, sort_by_keys, sort_widths, stable_order, width_order,
};

verus! {

broadcast use vstd::string::group_string_axioms;

/// A piece of recognized text with its bounding box in image pixels.
pub struct Fragment {
    pub text: String,
    pub left: u32,
    pub top: u32,
    pub right: u32,
    pub bottom: u32,
}

/// Every fragment's text is short enough for its width in columns to be counted
/// in a machine word (always true of text held in memory).
pub open spec fn texts_fit(frags: Seq<Fragment>) -> bool {
    forall|i: int| 0 <= i < frags.len() ==> (#[trigger] frags[i]).text@.len() <= isize::MAX
}

/// What the layout reads of a fragment: its text and its box.
pub struct FragmentView {
    pub text: Seq<char>,
    pub left: u32,
    pub top: u32,
    pub right: u32,
    pub bottom: u32,
}

impl View for Fragment {
    type V = FragmentView;

    open spec fn view(&self) -> FragmentView {
        FragmentView {
            text: self.text@,
            left: self.left,
            top: self.top,
            right: self.right,
            bottom: self.bottom,
        }
    }
}

/// The views of a sequence of fragments.
pub open spec fn fragment_views(frags: Seq<Fragment>) -> Seq<FragmentView> {
    frags.map_values(|f: Fragment| f@)
}

/// Twice the vertical center of a fragment.
pub open spec fn span(f: FragmentView) -> int {
    f.top + f.bottom
}

/// The height of a fragment, at least one pixel.
pub open spec fn height(f: FragmentView) -> int {
    if f.bottom as int - f.top as int >= 1 { f.bottom - f.top } else { 1 }
}

/// Sort keys of the fragments: vertical center first, then left edge.
pub open spec fn fragment_keys(frags: Seq<FragmentView>) -> Seq<(u64, u64)> {
    Seq::new(frags.len(), |i: int| ((frags[i].top + frags[i].bottom) as u64, frags[i].left as u64))
}

/// Fragment indices in reading order: top to bottom by center, then left to
/// right, keeping the input order among equal keys.
pub open spec fn reading_order(frags: Seq<FragmentView>) -> Seq<usize> {
    stable_order(fragment_keys(frags))
}

/// The smallest left edge of the fragments.
pub open spec fn min_left(frags: Seq<FragmentView>) -> int
    decreases frags.len(),
{
    if frags.len() <= 1 {
        if frags.len() == 1 { frags[0].left as int } else { 0 }
    } else {
        let rest = min_left(frags.drop_last());
        if frags.last().left < rest { frags.last().left as int } else { rest }
    }
}

/// The width of one text column in a fragment, as a fraction: the box width
/// over the number of columns (at least one).
pub open spec fn fragment_width(f: FragmentView) -> (u64, u64) {
    let columns = text_columns(f.text);
    ((f.right - f.left) as u64, (if columns >= 1 { columns } else { 1 }) as u64)
}

/// Column widths of the fragments with a positive box width, in the given order.
pub open spec fn collect_widths(frags: Seq<FragmentView>, order: Seq<usize>) -> Seq<(u64, u64)>
    decreases order.len(),
{
    if order.len() == 0 {
        Seq::empty()
    } else {
        let rest = collect_widths(frags, order.drop_last());
        let f = frags[order.last() as int];
        if f.right > f.left { rest.push(fragment_width(f)) } else { rest }
    }
}

/// The layout's column unit: the median column width (the element at the
/// middle position once sorted), eight pixels when no fragment has a width,
/// and never less than one pixel.
pub open spec fn layout_unit(widths: Seq<(u64, u64)>) -> (u64, u64) {
    if widths.len() == 0 {
        (8, 1)
    } else {
        let m = widths.sort_by(width_order())[(widths.len() / 2) as int];
        if (m.0 as int) < denominator(m) { (1, 1) } else { m }
    }
}

/// The text column at which a fragment starts: its distance from the leftmost
/// edge divided by the unit, rounded half up.
pub open spec fn column_of(f: FragmentView, origin: int, unit: (u64, u64)) -> int {
    column_of_edge(f.left as int, origin, unit)
}

pub open spec fn column_of_edge(left: int, origin: int, unit: (u64, u64)) -> int {
    (2 * (left - origin) * denominator(unit) + unit.0) / (2 * unit.0)
}

/// Fragment `f` belongs to the row anchored by fragment `a` when their
/// centers differ by at most half the smaller height.
pub open spec fn anchored(frags: Seq<FragmentView>, a: usize, f: usize) -> bool {
    let d = span(frags[a as int]) - span(frags[f as int]);
    let ha = height(frags[a as int]);
    let hf = height(frags[f as int]);
    (if d >= 0 { d } else { -d }) <= (if ha <= hf { ha } else { hf })
}

/// The last of the first `k` rows whose first fragment anchors `f`, or -1.
pub open spec fn matching_row(frags: Seq<FragmentView>, rows: Seq<Seq<usize>>, f: usize, k: int) -> int
    decreases k,
{
    if k <= 0 {
        -1
    } else if anchored(frags, rows[k - 1][0], f) {
        k - 1
    } else {
        matching_row(frags, rows, f, k - 1)
    }
}

/// Adds fragment `f` to its matching row, or opens a new row for it.
pub open spec fn place(frags: Seq<FragmentView>, rows: Seq<Seq<usize>>, f: usize) -> Seq<Seq<usize>> {
    let r = matching_row(frags, rows, f, rows.len() as int);
    if r >= 0 { rows.update(r, rows[r].push(f)) } else { rows.push(seq![f]) }
}

/// The rows formed by placing the fragments one after another in `order`.
pub open spec fn group_rows(frags: Seq<FragmentView>, order: Seq<usize>) -> Seq<Seq<usize>>
    decreases order.len(),
{
    if order.len() == 0 {
        Seq::empty()
    } else {
        place(frags, group_rows(frags, order.drop_last()), order.last())
    }
}

/// Sort keys of a row's positions: the left edge of the fragment there.
pub open spec fn row_keys(frags: Seq<FragmentView>, row: Seq<usize>) -> Seq<(u64, u64)> {
    Seq::new(row.len(), |p: int| (frags[row[p] as int].left as u64, 0u64))
}

/// A row's fragments from left to right, keeping the row order among equal edges.
pub open spec fn row_sequence(frags: Seq<FragmentView>, row: Seq<usize>) -> Seq<usize> {
    stable_order(row_keys(frags, row)).map_values(|p: usize| row[p as int])
}

pub open spec fn row_top(frags: Seq<FragmentView>, row: Seq<usize>) -> int
    decreases row.len(),
{
    if row.len() <= 1 {
        if row.len() == 1 { frags[row[0] as int].top as int } else { 0 }
    } else {
        let rest = row_top(frags, row.drop_last());
        let t = frags[row.last() as int].top as int;
        if t < rest { t } else { rest }
    }
}

pub open spec fn row_bottom(frags: Seq<FragmentView>, row: Seq<usize>) -> int
    decreases row.len(),
{
    if row.len() == 0 {
        0
    } else {
        let rest = row_bottom(frags, row.drop_last());
        let b = frags[row.last() as int].bottom as int;
        if b > rest { b } else { rest }
    }
}

pub open spec fn row_height(frags: Seq<FragmentView>, row: Seq<usize>) -> int
    decreases row.len(),
{
    if row.len() <= 1 {
        if row.len() == 1 { height(frags[row[0] as int]) } else { 0 }
    } else {
        let rest = row_height(frags, row.drop_last());
        let h = height(frags[row.last() as int]);
        if h < rest { h } else { rest }
    }
}

pub open spec fn spaces(n: int) -> Seq<char> {
    Seq::new(n as nat, |i: int| ' ')
}

/// The text of the first `k` fragments of a row sequence, and the column the
/// cursor reaches after them. Each fragment is padded to its column, by at
/// most 160 spaces, and by at least one space after the first fragment.
pub open spec fn line(
    frags: Seq<FragmentView>,
    seq: Seq<usize>,
    origin: int,
    unit: (u64, u64),
    k: int,
) -> (Seq<char>, int)
    decreases k,
{
    if k <= 0 {
        (Seq::empty(), 0)
    } else {
        let (prev, cursor) = line(frags, seq, origin, unit, k - 1);
        let f = frags[seq[k - 1] as int];
        let target = column_of(f, origin, unit);
        let gap = if target > cursor { target - cursor } else { 0 };
        let capped = if gap > 160 { 160 } else { gap };
        let padding = if k - 1 > 0 && capped < 1 { 1 } else { capped };
        (prev + spaces(padding) + f.text, cursor + padding + text_columns(f.text))
    }
}

/// The separator before row `r`: nothing before the first row, a line break,
/// and a blank line when the gap above the row exceeds 1.2 times its height.
pub open spec fn separator(frags: Seq<FragmentView>, rows: Seq<Seq<usize>>, r: int) -> Seq<char> {
    if r == 0 {
        Seq::empty()
    } else if 5 * (row_top(frags, rows[r]) - row_bottom(frags, rows[r - 1])) > 6 * row_height(
        frags,
        rows[r],
    ) {
        seq!['\n', '\n']
    } else {
        seq!['\n']
    }
}

/// The text of the first `k` rows.
pub open spec fn rows_text(
    frags: Seq<FragmentView>,
    rows: Seq<Seq<usize>>,
    origin: int,
    unit: (u64, u64),
    k: int,
) -> Seq<char>
    decreases k,
{
    if k <= 0 {
        Seq::empty()
    } else {
        let row = row_sequence(frags, rows[k - 1]);
        rows_text(frags, rows, origin, unit, k - 1) + separator(frags, rows, k - 1) + line(
            frags,
            row,
            origin,
            unit,
            row.len() as int,
        ).0
    }
}

/// The laid-out text of a set of positioned fragments.
pub open spec fn layout_text(frags: Seq<FragmentView>) -> Seq<char> {
    if frags.len() == 0 {
        Seq::empty()
    } else {
        let order = reading_order(frags);
        let rows = group_rows(frags, order);
        rows_text(
            frags,
            rows,
            min_left(frags),
            layout_unit(collect_widths(frags, order)),
            rows.len() as int,
        )
    }
}

pub open spec fn char_columns(c: char) -> int {
    if (c as u32) < 128 { 1 } else { 2 }
}

pub open spec fn text_columns(s: Seq<char>) -> int
    decreases s.len(),
{
    if s.len() == 0 { 0 } else { text_columns(s.drop_last()) + char_columns(s.last()) }
}

pub proof fn lemma_text_columns_bounds(s: Seq<char>)
    ensures
        s.len() <= text_columns(s) <= 2 * s.len(),
    decreases s.len(),
{
    if s.len() > 0 {
        lemma_text_columns_bounds(s.drop_last());
    }
}

pub fn columns(text: &str) -> (n: usize)
    requires
        text@.len() <= isize::MAX,
    ensures
        n == text_columns(text@),
{
    let mut n: usize = 0;
    let mut chars = text.chars();
    let ghost mut seen: Seq<char> = Seq::empty();
    loop
        invariant
            text@.len() <= isize::MAX,
            seen + chars.remaining() == text@,
            n == text_columns(seen),
        ensures
            seen == text@,
            n == text_columns(seen),
        decreases text@.len() - seen.len(),
    {
        proof {
            lemma_text_columns_bounds(seen);
        }
        let ghost before = chars.remaining();
        match chars.next() {
            Some(c) => {
                proof {
                    assert(seen.push(c).drop_last() =~= seen);
                    assert(seen.push(c) + chars.remaining() =~= seen + before);
                }
                if (c as u32) < 128 {
                    n = n + 1;
                } else {
                    n = n + 2;
                }
                proof {
                    seen = seen.push(c);
                }
            },
            None => {
                break;
            },
        }
    }
    n
}

fn fragment_keys_exec(frags: &Vec<Fragment>) -> (keys: Vec<(u64, u64)>)
    ensures
        keys@ == fragment_keys(fragment_views(frags@)),
{
    let mut keys: Vec<(u64, u64)> = Vec::new();
    for i in 0..frags.len()
        invariant
            keys@.len() == i,
            forall|k: int| 0 <= k < i ==> #[trigger] keys@[k] == fragment_keys(fragment_views(frags@))[k],
    {
        let f = &frags[i];
        keys.push((f.top as u64 + f.bottom as u64, f.left as u64));
    }
    assert(keys@ =~= fragment_keys(fragment_views(frags@)));
    keys
}

fn leftmost(frags: &Vec<Fragment>) -> (m: u32)
    requires
        frags@.len() > 0,
    ensures
        m == min_left(fragment_views(frags@)),
{
    let mut m = frags[0].left;
    assert(frags@.take(1).drop_last().len() == 0);
    for i in 1..frags.len()
        invariant
            frags@.len() > 0,
            m == min_left(fragment_views(frags@).take(i as int)),
    {
        assert(fragment_views(frags@).take(i + 1).drop_last() =~= fragment_views(frags@).take(
            i as int,
        ));
        assert(fragment_views(frags@).take(i + 1).last() == frags@[i as int]@);
        if frags[i].left < m {
            m = frags[i].left;
        }
    }
    assert(fragment_views(frags@).take(frags@.len() as int) =~= fragment_views(frags@));
    m
}

fn column_counts(frags: &Vec<Fragment>) -> (cols: Vec<usize>)
    requires
        texts_fit(frags@),
    ensures
        cols@.len() == frags@.len(),
        forall|i: int| 0 <= i < frags@.len() ==> #[trigger] cols@[i] == text_columns(frags@[i].text@),
{
    let mut cols: Vec<usize> = Vec::new();
    for i in 0..frags.len()
        invariant
            texts_fit(frags@),
            cols@.len() == i,
            forall|k: int| 0 <= k < i ==> #[trigger] cols@[k] == text_columns(frags@[k].text@),
    {
        assert(frags@[i as int].text@.len() <= isize::MAX);
        cols.push(columns(frags[i].text.as_str()));
    }
    cols
}

fn collect_widths_exec(frags: &Vec<Fragment>, cols: &Vec<usize>, order: &Vec<usize>) -> (widths: Vec<
    (u64, u64),
>)
    requires
        texts_fit(frags@),
        cols@.len() == frags@.len(),
        forall|i: int| 0 <= i < frags@.len() ==> #[trigger] cols@[i] == text_columns(frags@[i].text@),
        forall|k: int| 0 <= k < order@.len() ==> #[trigger] order@[k] < frags@.len(),
    ensures
        widths@ == collect_widths(fragment_views(frags@), order@),
{
    let mut widths: Vec<(u64, u64)> = Vec::new();
    for k in 0..order.len()
        invariant
            texts_fit(frags@),
            cols@.len() == frags@.len(),
            forall|i: int| 0 <= i < frags@.len() ==> #[trigger] cols@[i] == text_columns(frags@[i].text@),
            forall|k: int| 0 <= k < order@.len() ==> #[trigger] order@[k] < frags@.len(),
            widths@ == collect_widths(fragment_views(frags@), order@.take(k as int)),
    {
        assert(order@.take(k + 1).drop_last() =~= order@.take(k as int));
        let i = order[k];
        let f = &frags[i];
        if f.right > f.left {
            proof {
                assert(frags@[i as int].text@.len() <= isize::MAX);
                lemma_text_columns_bounds(frags@[i as int].text@);
            }
            let c = cols[i];
            let c1: u64 = if c >= 1 { c as u64 } else { 1 };
            widths.push(((f.right - f.left) as u64, c1));
        }
    }
    assert(order@.take(order@.len() as int) =~= order@);
    widths
}

fn unit_exec(widths: Vec<(u64, u64)>) -> (unit: (u64, u64))
    requires
        forall|k: int| 0 <= k < widths@.len() ==> (#[trigger] widths@[k]).0 <= u32::MAX,
    ensures
        unit == layout_unit(widths@),
        unit.0 <= u32::MAX,
        unit.0 >= 1,
        1 <= denominator(unit) <= unit.0,
{
    if widths.len() == 0 {
        return (8, 1);
    }
    let ghost original = widths@;
    let n = widths.len();
    let sorted = sort_widths(widths);
    proof {
        broadcast use vstd::seq_lib::group_to_multiset_ensures;

        crate::sorting::lemma_width_order_total();
        original.lemma_sort_by_ensures(width_order());
        assert(sorted@.to_multiset().len() == original.to_multiset().len());
    }
    let m = sorted[n / 2];
    proof {
        broadcast use vstd::seq_lib::group_to_multiset_ensures;

        assert(sorted@.contains(m));
        if !original.contains(m) {
            assert(!original.sort_by(width_order()).contains(m));
        }
    }
    let d: u64 = if m.1 == 0 { 1 } else { m.1 };
    if m.0 < d {
        (1, 1)
    } else {
        m
    }
}

/// The contents of a vector of rows.
pub open spec fn nested(rows: Seq<Vec<usize>>) -> Seq<Seq<usize>> {
    Seq::new(rows.len(), |i: int| rows[i]@)
}

/// Every row holds at least one fragment, and only indices below `n`.
pub open spec fn rows_well_formed(rows: Seq<Seq<usize>>, n: int) -> bool {
    forall|r: int|
        0 <= r < rows.len() ==> (#[trigger] rows[r]).len() > 0 && forall|p: int|
            0 <= p < rows[r].len() ==> #[trigger] rows[r][p] < n
}

pub(crate) proof fn lemma_matching_row_range(frags: Seq<FragmentView>, rows: Seq<Seq<usize>>, f: usize, k: int)
    requires
        k >= 0,
    ensures
        -1 <= matching_row(frags, rows, f, k),
        matching_row(frags, rows, f, k) < k,
    decreases k,
{
    if k > 0 {
        lemma_matching_row_range(frags, rows, f, k - 1);
    }
}

pub(crate) proof fn lemma_group_rows_well_formed(frags: Seq<FragmentView>, order: Seq<usize>)
    requires
        forall|k: int| 0 <= k < order.len() ==> #[trigger] order[k] < frags.len(),
    ensures
        rows_well_formed(group_rows(frags, order), frags.len() as int),
    decreases order.len(),
{
    if order.len() > 0 {
        let rest = order.drop_last();
        assert forall|k: int| 0 <= k < rest.len() implies #[trigger] rest[k] < frags.len() by {
            assert(rest[k] == order[k]);
        }
        lemma_group_rows_well_formed(frags, rest);
        let rows = group_rows(frags, rest);
        let f = order.last();
        assert(f == order[order.len() - 1]);
        lemma_matching_row_range(frags, rows, f, rows.len() as int);
        let placed = group_rows(frags, order);
        let r = matching_row(frags, rows, f, rows.len() as int);
        assert forall|q: int| 0 <= q < placed.len() implies (#[trigger] placed[q]).len() > 0
            && forall|p: int| 0 <= p < placed[q].len() ==> #[trigger] placed[q][p] < frags.len() by {
            if r >= 0 && q == r {
                assert(placed[q] == rows[q].push(f));
                assert forall|p: int| 0 <= p < placed[q].len() implies #[trigger] placed[q][p]
                    < frags.len() by {
                    if p < rows[q].len() {
                        assert(placed[q][p] == rows[q][p]);
                    }
                }
            } else if r < 0 && q == rows.len() {
                assert(placed[q] == seq![f]);
            } else {
                assert(placed[q] == rows[q]);
            }
        }
    }
}

fn anchored_exec(frags: &Vec<Fragment>, a: usize, f: usize) -> (r: bool)
    requires
        a < frags@.len(),
        f < frags@.len(),
    ensures
        r == anchored(fragment_views(frags@), a, f),
{
    let fa = &frags[a];
    let ff = &frags[f];
    let d: i64 = (fa.top as i64 + fa.bottom as i64) - (ff.top as i64 + ff.bottom as i64);
    let ha: i64 = if fa.bottom as i64 - fa.top as i64 >= 1 { fa.bottom as i64 - fa.top as i64 } else { 1 };
    let hf: i64 = if ff.bottom as i64 - ff.top as i64 >= 1 { ff.bottom as i64 - ff.top as i64 } else { 1 };
    let distance = if d >= 0 { d } else { -d };
    distance <= if ha <= hf { ha } else { hf }
}

fn group_rows_exec(frags: &Vec<Fragment>, order: &Vec<usize>) -> (rows: Vec<Vec<usize>>)
    requires
        forall|k: int| 0 <= k < order@.len() ==> #[trigger] order@[k] < frags@.len(),
    ensures
        nested(rows@) == group_rows(fragment_views(frags@), order@),
        rows_well_formed(nested(rows@), frags@.len() as int),
{
    let mut rows: Vec<Vec<usize>> = Vec::new();
    assert(nested(rows@) =~= group_rows(fragment_views(frags@), order@.take(0)));
    for k in 0..order.len()
        invariant
            forall|k: int| 0 <= k < order@.len() ==> #[trigger] order@[k] < frags@.len(),
            nested(rows@) == group_rows(fragment_views(frags@), order@.take(k as int)),
    {
        let ghost prefix = order@.take(k as int);
        assert(order@.take(k + 1).drop_last() =~= prefix);
        proof {
            assert forall|j: int| 0 <= j < prefix.len() implies #[trigger] prefix[j] < frags@.len() by {
                assert(prefix[j] == order@[j]);
            }
            lemma_group_rows_well_formed(fragment_views(frags@), prefix);
        }
        let f = order[k];
        let ghost current = nested(rows@);
        let mut r = rows.len();
        let mut found = false;
        while r > 0
            invariant_except_break
                !found,
            invariant
                r <= rows@.len(),
                f < frags@.len(),
                current == nested(rows@),
                rows_well_formed(current, frags@.len() as int),
                matching_row(fragment_views(frags@), current, f, rows@.len() as int) == matching_row(
                    fragment_views(frags@),
                    current,
                    f,
                    r as int,
                ),
            ensures
                found ==> r > 0 && matching_row(fragment_views(frags@), current, f, rows@.len() as int) == r - 1,
                !found ==> matching_row(fragment_views(frags@), current, f, rows@.len() as int) == -1,
            decreases r,
        {
            assert(current[r - 1] == rows@[r - 1]@);
            assert(current[r - 1].len() > 0);
            if anchored_exec(frags, rows[r - 1][0], f) {
                assert(matching_row(fragment_views(frags@), current, f, r as int) == r - 1);
                found = true;
                break;
            }
            r = r - 1;
        }
        if found {
            rows[r - 1].push(f);
            assert(nested(rows@) =~= current.update(r - 1, current[r - 1].push(f)));
        } else {
            let mut single: Vec<usize> = Vec::new();
            single.push(f);
            rows.push(single);
            assert(nested(rows@) =~= current.push(seq![f]));
        }
        assert(nested(rows@) =~= place(fragment_views(frags@), current, f));
    }
    assert(order@.take(order@.len() as int) =~= order@);
    proof {
        lemma_group_rows_well_formed(fragment_views(frags@), order@);
    }
    rows
}

fn row_sequence_exec(frags: &Vec<Fragment>, row: &Vec<usize>) -> (seq: Vec<usize>)
    requires
        forall|p: int| 0 <= p < row@.len() ==> #[trigger] row@[p] < frags@.len(),
    ensures
        seq@ == row_sequence(fragment_views(frags@), row@),
        seq@.len() == row@.len(),
        forall|p: int| 0 <= p < seq@.len() ==> #[trigger] seq@[p] < frags@.len(),
{
    let mut keys: Vec<(u64, u64)> = Vec::new();
    for p in 0..row.len()
        invariant
            forall|p: int| 0 <= p < row@.len() ==> #[trigger] row@[p] < frags@.len(),
            keys@.len() == p,
            forall|q: int| 0 <= q < p ==> #[trigger] keys@[q] == row_keys(fragment_views(frags@), row@)[q],
    {
        keys.push((frags[row[p]].left as u64, 0u64));
    }
    assert(keys@ =~= row_keys(fragment_views(frags@), row@));
    let order = sort_by_keys(&keys);
    proof {
        lemma_stable_order_indices(keys@);
    }
    let mut seq: Vec<usize> = Vec::new();
    for p in 0..order.len()
        invariant
            forall|p: int| 0 <= p < row@.len() ==> #[trigger] row@[p] < frags@.len(),
            order@ == stable_order(keys@),
            keys@.len() == row@.len(),
            order@.len() == row@.len(),
            forall|q: int| 0 <= q < order@.len() ==> #[trigger] order@[q] < keys@.len(),
            seq@.len() == p,
            forall|q: int| 0 <= q < p ==> #[trigger] seq@[q] == row@[order@[q] as int],
    {
        seq.push(row[order[p]]);
    }
    assert(seq@ =~= row_sequence(fragment_views(frags@), row@));
    seq
}

fn row_metrics(frags: &Vec<Fragment>, row: &Vec<usize>) -> (m: (i64, i64, i64))
    requires
        row@.len() > 0,
        forall|p: int| 0 <= p < row@.len() ==> #[trigger] row@[p] < frags@.len(),
    ensures
        m.0 == row_top(fragment_views(frags@), row@),
        m.1 == row_bottom(fragment_views(frags@), row@),
        m.2 == row_height(fragment_views(frags@), row@),
        0 <= m.0 <= u32::MAX,
        0 <= m.1 <= u32::MAX,
        1 <= m.2 <= u32::MAX,
{
    let first = &frags[row[0]];
    let mut top = first.top as i64;
    let mut bottom = first.bottom as i64;
    let mut height: i64 = if first.bottom as i64 - first.top as i64 >= 1 {
        first.bottom as i64 - first.top as i64
    } else {
        1
    };
    assert(row@.take(1).drop_last().len() == 0);
    assert(row@.take(1).last() == row@[0]);
    assert(row_bottom(fragment_views(frags@), row@.take(1).drop_last()) == 0);
    for p in 1..row.len()
        invariant
            row@.len() > 0,
            forall|p: int| 0 <= p < row@.len() ==> #[trigger] row@[p] < frags@.len(),
            top == row_top(fragment_views(frags@), row@.take(p as int)),
            bottom == row_bottom(fragment_views(frags@), row@.take(p as int)),
            height == row_height(fragment_views(frags@), row@.take(p as int)),
            0 <= top <= u32::MAX,
            0 <= bottom <= u32::MAX,
            1 <= height <= u32::MAX,
    {
        assert(row@.take(p + 1).drop_last() =~= row@.take(p as int));
        let f = &frags[row[p]];
        if (f.top as i64) < top {
            top = f.top as i64;
        }
        if (f.bottom as i64) > bottom {
            bottom = f.bottom as i64;
        }
        let h: i64 = if f.bottom as i64 - f.top as i64 >= 1 {
            f.bottom as i64 - f.top as i64
        } else {
            1
        };
        if h < height {
            height = h;
        }
    }
    assert(row@.take(row@.len() as int) =~= row@);
    (top, bottom, height)
}

proof fn lemma_column_bound(d: int, c: int, w: int)
    requires
        0 <= d,
        1 <= c <= w,
    ensures
        0 <= (2 * d * c + w) / (2 * w) <= d,
{
    assert(2 * d * c + w <= 2 * d * w + w) by (nonlinear_arith)
        requires
            0 <= d,
            c <= w,
    ;
    assert((2 * d * w + w) / (2 * w) == d) by (nonlinear_arith)
        requires
            w >= 1,
            d >= 0,
    {
        assert(2 * d * w + w == d * (2 * w) + w);
    }
    assert(0 <= (2 * d * c + w) / (2 * w) <= (2 * d * w + w) / (2 * w)) by (nonlinear_arith)
        requires
            0 <= 2 * d * c + w <= 2 * d * w + w,
            w >= 1,
    ;
}

fn column_exec(left: u32, origin: u32, unit: (u64, u64)) -> (col: u64)
    requires
        origin <= left,
        unit.0 >= 1,
        1 <= denominator(unit) <= unit.0,
        unit.0 <= u32::MAX,
    ensures
        col == column_of_edge(left as int, origin as int, unit),
        col <= left - origin,
{
    let d = (left - origin) as u128;
    let c: u128 = if unit.1 == 0 { 1 } else { unit.1 as u128 };
    let w = unit.0 as u128;
    proof {
        lemma_column_bound(d as int, c as int, w as int);
        assert(2 * d * c <= 2 * (u32::MAX as u128) * (u32::MAX as u128)) by (nonlinear_arith)
            requires
                d <= u32::MAX,
                c <= u32::MAX,
        ;
    }
    ((2 * d * c + w) / (2 * w)) as u64
}

proof fn lemma_collect_widths_bounded(frags: Seq<FragmentView>, order: Seq<usize>)
    ensures
        forall|k: int|
            0 <= k < collect_widths(frags, order).len() ==> (#[trigger] collect_widths(
                frags,
                order,
            )[k]).0 <= u32::MAX,
    decreases order.len(),
{
    if order.len() > 0 {
        let rest = order.drop_last();
        lemma_collect_widths_bounded(frags, rest);
        let f = frags[order.last() as int];
        if f.right > f.left {
            let w = fragment_width(f);
            assert(w.0 == f.right - f.left);
            let all = collect_widths(frags, order);
            assert(all == collect_widths(frags, rest).push(w));
            assert forall|k: int| 0 <= k < all.len() implies (#[trigger] all[k]).0 <= u32::MAX by {
                if k < all.len() - 1 {
                    assert(all[k] == collect_widths(frags, rest)[k]);
                }
            }
        }
    }
}

pub(crate) proof fn lemma_min_left_below(frags: Seq<FragmentView>)
    ensures
        forall|i: int| 0 <= i < frags.len() ==> min_left(frags) <= (#[trigger] frags[i]).left,
        frags.len() > 0 ==> 0 <= min_left(frags) <= u32::MAX,
    decreases frags.len(),
{
    if frags.len() > 1 {
        let rest = frags.drop_last();
        lemma_min_left_below(rest);
        assert forall|i: int| 0 <= i < frags.len() implies min_left(frags) <= (
        #[trigger] frags[i]).left by {
            if i < frags.len() - 1 {
                assert(frags[i] == rest[i]);
            }
        }
    }
}

fn append_spaces(out: &mut String, n: u64)
    ensures
        final(out)@ == old(out)@ + spaces(n as int),
{
    proof {
        reveal_strlit(" ");
    }
    let ghost base = out@;
    let mut j: u64 = 0;
    while j < n
        invariant
            j <= n,
            out@ == base + spaces(j as int),
        decreases n - j,
    {
        out.append(" ");
        proof {
            reveal_strlit(" ");
        }
        assert(" "@ =~= seq![' ']);
        assert(spaces(j + 1) =~= spaces(j as int).push(' '));
        assert(base + spaces(j + 1) =~= base + spaces(j as int) + " "@);
        j = j + 1;
    }
}

fn render_line(
    frags: &Vec<Fragment>,
    cols: &Vec<usize>,
    seq: &Vec<usize>,
    origin: u32,
    unit: (u64, u64),
    out: &mut String,
)
    requires
        texts_fit(frags@),
        cols@.len() == frags@.len(),
        forall|i: int| 0 <= i < frags@.len() ==> #[trigger] cols@[i] == text_columns(frags@[i].text@),
        forall|p: int| 0 <= p < seq@.len() ==> #[trigger] seq@[p] < frags@.len(),
        forall|i: int| 0 <= i < frags@.len() ==> origin <= (#[trigger] frags@[i]).left,
        unit.0 >= 1,
        1 <= denominator(unit) <= unit.0,
        unit.0 <= u32::MAX,
    ensures
        final(out)@ == old(out)@ + line(fragment_views(frags@), seq@, origin as int, unit, seq@.len() as int).0,
{
    let ghost base = out@;
    let cap: u128 = 0x100_0000_0000;
    let mut cursor: u128 = 0;
    for k in 0..seq.len()
        invariant
            texts_fit(frags@),
            cols@.len() == frags@.len(),
            forall|i: int| 0 <= i < frags@.len() ==> #[trigger] cols@[i] == text_columns(
                frags@[i].text@,
            ),
            forall|p: int| 0 <= p < seq@.len() ==> #[trigger] seq@[p] < frags@.len(),
            forall|i: int| 0 <= i < frags@.len() ==> origin <= (#[trigger] frags@[i]).left,
            unit.0 >= 1,
            1 <= denominator(unit) <= unit.0,
            unit.0 <= u32::MAX,
            cap == 0x100_0000_0000,
            out@ == base + line(fragment_views(frags@), seq@, origin as int, unit, k as int).0,
            line(fragment_views(frags@), seq@, origin as int, unit, k as int).1 >= 0,
            cursor == (if line(fragment_views(frags@), seq@, origin as int, unit, k as int).1 < cap {
                line(fragment_views(frags@), seq@, origin as int, unit, k as int).1
            } else {
                cap as int
            }),
    {
        let i = seq[k];
        let f = &frags[i];
        assert(frags@[i as int].left >= origin);
        let target = column_exec(f.left, origin, unit) as u128;
        let gap = if target > cursor { target - cursor } else { 0 };
        let capped = if gap > 160 { 160 } else { gap };
        let padding = if k > 0 && capped < 1 { 1 } else { capped };
        append_spaces(out, padding as u64);
        out.append(f.text.as_str());
        proof {
            assert(frags@[i as int].text@.len() <= isize::MAX);
            lemma_text_columns_bounds(frags@[i as int].text@);
        }
        let next = cursor + padding + cols[i] as u128;
        cursor = if next > cap { cap } else { next };
        proof {
            let prev = line(fragment_views(frags@), seq@, origin as int, unit, k as int);
            assert(base + prev.0 + spaces(padding as int) + frags@[i as int].text@ =~= base + (prev.0
                + spaces(padding as int) + frags@[i as int].text@));
        }
    }
}

fn render_rows(
    frags: &Vec<Fragment>,
    cols: &Vec<usize>,
    rows: &Vec<Vec<usize>>,
    origin: u32,
    unit: (u64, u64),
) -> (out: String)
    requires
        texts_fit(frags@),
        cols@.len() == frags@.len(),
        forall|i: int| 0 <= i < frags@.len() ==> #[trigger] cols@[i] == text_columns(frags@[i].text@),
        rows_well_formed(nested(rows@), frags@.len() as int),
        forall|i: int| 0 <= i < frags@.len() ==> origin <= (#[trigger] frags@[i]).left,
        unit.0 >= 1,
        1 <= denominator(unit) <= unit.0,
        unit.0 <= u32::MAX,
    ensures
        out@ == rows_text(fragment_views(frags@), nested(rows@), origin as int, unit, rows@.len() as int),
{
    proof {
        reveal_strlit("\n");
    }
    let ghost all = nested(rows@);
    let mut out = String::new();
    let mut prev_bottom: i64 = 0;
    for r in 0..rows.len()
        invariant
            texts_fit(frags@),
            cols@.len() == frags@.len(),
            forall|i: int| 0 <= i < frags@.len() ==> #[trigger] cols@[i] == text_columns(
                frags@[i].text@,
            ),
            all == nested(rows@),
            rows_well_formed(all, frags@.len() as int),
            forall|i: int| 0 <= i < frags@.len() ==> origin <= (#[trigger] frags@[i]).left,
            unit.0 >= 1,
            1 <= denominator(unit) <= unit.0,
            unit.0 <= u32::MAX,
            out@ == rows_text(fragment_views(frags@), all, origin as int, unit, r as int),
            r > 0 ==> prev_bottom == row_bottom(fragment_views(frags@), all[r - 1]),
            0 <= prev_bottom <= u32::MAX,
    {
        let row = &rows[r];
        assert(all[r as int] == row@);
        assert(all[r as int].len() > 0);
        let seq = row_sequence_exec(frags, row);
        let (top, bottom, height) = row_metrics(frags, row);
        let ghost before = out@;
        proof {
            reveal_strlit("\n");
        }
        assert("\n"@ =~= seq!['\n']);
        if r > 0 {
            out.append("\n");
            if 5 * (top - prev_bottom) > 6 * height {
                out.append("\n");
            }
        }
        assert(out@ == before + separator(fragment_views(frags@), all, r as int));
        render_line(frags, cols, &seq, origin, unit, &mut out);
        prev_bottom = bottom;
    }
    out
}

/// Lays out positioned text fragments as plain text: fragments are grouped
/// into rows by their vertical centers, rows are separated by line breaks (and
/// a blank line across large gaps), and within a row each fragment is padded
/// with spaces to the column given by its left edge and the median column width.
pub fn format_fragments(fragments: Vec<Fragment>) -> (text: String)
    requires
        texts_fit(fragments@),
    ensures
        text@ == layout_text(fragment_views(fragments@)),
{
    if fragments.len() == 0 {
        return String::new();
    }
    let cols = column_counts(&fragments);
    let keys = fragment_keys_exec(&fragments);
    let order = sort_by_keys(&keys);
    proof {
        lemma_stable_order_indices(keys@);
        lemma_collect_widths_bounded(fragment_views(fragments@), order@);
        lemma_min_left_below(fragment_views(fragments@));
    }
    let origin = leftmost(&fragments);
    let widths = collect_widths_exec(&fragments, &cols, &order);
    let unit = unit_exec(widths);
    let rows = group_rows_exec(&fragments, &order);
    assert forall|i: int| 0 <= i < fragments@.len() implies origin <= (
    #[trigger] fragments@[i]).left by {
        assert(fragment_views(fragments@)[i].left == fragments@[i].left);
    }
    render_rows(&fragments, &cols, &rows, origin, unit)
}

/// A corner of a recognized text box, in image pixels.
#[derive(Clone, Copy)]
pub struct TextPoint {
    pub x: u32,
    pub y: u32,
}

/// A text block as the recognizer returns it: text and its box corners.
pub struct TextBlock {
    pub text: String,
    pub box_points: Vec<TextPoint>,
}

/// The smallest (`max == false`) or largest (`max == true`) coordinate of the
/// points, along x (`vertical == false`) or y (`vertical == true`).
pub open spec fn extreme(points: Seq<TextPoint>, vertical: bool, max: bool) -> u32
    decreases points.len(),
{
    if points.len() <= 1 {
        if points.len() == 1 {
            if vertical { points[0].y } else { points[0].x }
        } else {
            0
        }
    } else {
        let rest = extreme(points.drop_last(), vertical, max);
        let v = if vertical { points.last().y } else { points.last().x };
        if (max && v > rest) || (!max && v < rest) { v } else { rest }
    }
}

/// The fragments of the blocks whose trimmed text is not empty and which have
/// box corners: the trimmed text in the bounding box of the corners.
pub open spec fn positioned_fragments(blocks: Seq<TextBlock>) -> Seq<FragmentView>
    decreases blocks.len(),
{
    if blocks.len() == 0 {
        Seq::empty()
    } else {
        let rest = positioned_fragments(blocks.drop_last());
        let b = blocks.last();
        let t = trimmed(b.text@);
        let points = b.box_points@;
        if t.len() > 0 && points.len() > 0 {
            rest.push(
                FragmentView {
                    text: t,
                    left: extreme(points, false, false),
                    top: extreme(points, true, false),
                    right: extreme(points, false, true),
                    bottom: extreme(points, true, true),
                },
            )
        } else {
            rest
        }
    }
}

/// The trimmed, non-empty texts of the blocks without box corners.
pub open spec fn unpositioned_texts(blocks: Seq<TextBlock>) -> Seq<Seq<char>>
    decreases blocks.len(),
{
    if blocks.len() == 0 {
        Seq::empty()
    } else {
        let rest = unpositioned_texts(blocks.drop_last());
        let b = blocks.last();
        let t = trimmed(b.text@);
        if t.len() > 0 && b.box_points@.len() == 0 { rest.push(t) } else { rest }
    }
}

/// `base` followed by each line, each line break placed only after non-empty text.
pub open spec fn append_lines(base: Seq<char>, lines: Seq<Seq<char>>) -> Seq<char>
    decreases lines.len(),
{
    if lines.len() == 0 {
        base
    } else {
        let prev = append_lines(base, lines.drop_last());
        (if prev.len() > 0 { prev.push('\n') } else { prev }) + lines.last()
    }
}

/// The text that the recognizer's blocks read as.
pub open spec fn blocks_text(blocks: Seq<TextBlock>) -> Seq<char> {
    append_lines(layout_text(positioned_fragments(blocks)), unpositioned_texts(blocks))
}

fn extreme_exec(points: &Vec<TextPoint>, vertical: bool, max: bool) -> (v: u32)
    requires
        points@.len() > 0,
    ensures
        v == extreme(points@, vertical, max),
{
    let mut v = if vertical { points[0].y } else { points[0].x };
    assert(points@.take(1).drop_last().len() == 0);
    for i in 1..points.len()
        invariant
            points@.len() > 0,
            v == extreme(points@.take(i as int), vertical, max),
    {
        assert(points@.take(i + 1).drop_last() =~= points@.take(i as int));
        let c = if vertical { points[i].y } else { points[i].x };
        if (max && c > v) || (!max && c < v) {
            v = c;
        }
    }
    assert(points@.take(points@.len() as int) =~= points@);
    v
}

/// Restores readable horizontal layout from recognized blocks: blocks with
/// boxes are laid out by `format_fragments`, then the texts of blocks without
/// boxes follow on lines of their own; blank texts are skipped.
pub fn format_text(blocks: &[TextBlock]) -> (text: String)
    requires
        forall|i: int| 0 <= i < blocks@.len() ==> (#[trigger] blocks@[i]).text@.len() <= isize::MAX,
    ensures
        text@ == blocks_text(blocks@),
{
    let mut fragments: Vec<Fragment> = Vec::new();
    let mut unpositioned: Vec<&str> = Vec::new();
    for i in 0..blocks.len()
        invariant
            forall|i: int| 0 <= i < blocks@.len() ==> (#[trigger] blocks@[i]).text@.len()
                <= isize::MAX,
            fragment_views(fragments@) == positioned_fragments(blocks@.take(i as int)),
            texts_fit(fragments@),
            unpositioned@.map_values(|t: &str| t@) == unpositioned_texts(blocks@.take(i as int)),
    {
        assert(blocks@.take(i + 1).drop_last() =~= blocks@.take(i as int));
        let block = &blocks[i];
        let t = trim(block.text.as_str());
        proof {
            lemma_trimmed_shorter(block.text@);
        }
        if !t.is_empty() {
            if block.box_points.len() > 0 {
                let ghost before = fragments@;
                let fragment = Fragment {
                    text: t.to_owned(),
                    left: extreme_exec(&block.box_points, false, false),
                    top: extreme_exec(&block.box_points, true, false),
                    right: extreme_exec(&block.box_points, false, true),
                    bottom: extreme_exec(&block.box_points, true, true),
                };
                fragments.push(fragment);
                assert(fragment_views(fragments@) =~= fragment_views(before).push(fragment@));
            } else {
                let ghost before = unpositioned@;
                unpositioned.push(t);
                assert(unpositioned@.map_values(|t: &str| t@) =~= before.map_values(|t: &str| t@).push(t@));
            }
        }
    }
    assert(blocks@.take(blocks@.len() as int) =~= blocks@);
    let ghost lines = unpositioned@.map_values(|t: &str| t@);
    let ghost base = layout_text(fragment_views(fragments@));
    let mut text = format_fragments(fragments);
    for k in 0..unpositioned.len()
        invariant
            lines == unpositioned@.map_values(|t: &str| t@),
            text@ == append_lines(base, lines.take(k as int)),
    {
        assert(lines.take(k + 1).drop_last() =~= lines.take(k as int));
        if !text.as_str().is_empty() {
            proof {
                reveal_strlit("\n");
            }
            text.append("\n");
        }
        text.append(unpositioned[k]);
    }
    assert(lines.take(lines.len() as int) =~= lines);
    text
}

} // verus!
