//! Composing the selected part of the virtual desktop from the monitor
//! captures of a session.
use vstd::prelude::*;
use crate::capture::{max_of, min_of, selection_error, selection_pixels};
use crate::imaging::{crop_pixels, filled_pixels, replace_pixels};
use crate::session::{Pixels, Snapshot};

verus! {

/// The selected part of the desktop, with the desktop position of its
/// top-left pixel.
pub struct ComposedCapture {
    pub image: Pixels,
    pub x: i32,
    pub y: i32,
}

/// A capture whose image is whole and has the size its description gives.
pub open spec fn snapshot_wf(s: Snapshot) -> bool {
    &&& s.image.wf()
    &&& s.image.width == s.info.width
    &&& s.image.height == s.info.height
}

pub open spec fn snapshots_wf(snapshots: Seq<Snapshot>) -> bool {
    forall|i: int| 0 <= i < snapshots.len() ==> #[trigger] snapshot_wf(snapshots[i])
}

/// The monitor of capture `s` shows the desktop point (`dx`, `dy`).
pub open spec fn covers(s: Snapshot, dx: int, dy: int) -> bool {
    &&& s.x <= dx < s.x + s.info.width
    &&& s.y <= dy < s.y + s.info.height
}

/// What the desktop shows at (`dx`, `dy`): the pixel of the last capture
/// whose monitor covers the point, or opaque black where none does.
pub open spec fn desktop_pixel(snapshots: Seq<Snapshot>, dx: int, dy: int) -> Seq<u8>
    decreases snapshots.len(),
{
    if snapshots.len() == 0 {
        seq![0u8, 0u8, 0u8, 255u8]
    } else {
        let last = snapshots.last();
        if covers(last, dx, dy) {
            last.image.pixel(dx - last.x, dy - last.y)
        } else {
            desktop_pixel(snapshots.drop_last(), dx, dy)
        }
    }
}

/// The monitor of capture `s` shows part of the rectangle at (`x`, `y`) of
/// size `width` x `height`.
pub open spec fn overlaps(s: Snapshot, x: int, y: int, width: int, height: int) -> bool {
    &&& max_of(x, s.x as int) < min_of(x + width, s.x + s.info.width)
    &&& max_of(y, s.y as int) < min_of(y + height, s.y + s.info.height)
}

/// The rectangle lies inside the box spanned by all monitors.
pub open spec fn within_desktop(snapshots: Seq<Snapshot>, x: int, y: int, width: int, height: int) -> bool {
    &&& exists|i: int| 0 <= i < snapshots.len() && #[trigger] snapshots[i].x <= x
    &&& exists|i: int| 0 <= i < snapshots.len() && #[trigger] snapshots[i].y <= y
    &&& exists|i: int|
        0 <= i < snapshots.len() && x + width <= #[trigger] snapshots[i].x + snapshots[i].info.width
    &&& exists|i: int|
        0 <= i < snapshots.len() && y + height <= #[trigger] snapshots[i].y + snapshots[i].info.height
}

/// Why the rectangle cannot be composed from the captures, if it cannot.
pub open spec fn compose_error(snapshots: Seq<Snapshot>, x: int, y: int, width: int, height: int) -> Option<Seq<char>> {
    if snapshots.len() == 0 {
        Some("未找到显示器"@)
    } else if !within_desktop(snapshots, x, y, width, height) {
        Some("截图选区超出虚拟桌面范围"@)
    } else if !(exists|i: int| 0 <= i < snapshots.len() && #[trigger] overlaps(snapshots[i], x, y, width, height)) {
        Some("截图选区不在任何显示器内"@)
    } else {
        None
    }
}

/// The composed image shows, at each of its pixels, what the desktop shows
/// at the matching point.
pub open spec fn composed_from(image: Pixels, snapshots: Seq<Snapshot>, x: int, y: int) -> bool {
    &&& image.wf()
    &&& forall|i: int, j: int|
        0 <= i < image.width && 0 <= j < image.height ==> #[trigger] image.pixel(i, j) == desktop_pixel(
            snapshots,
            x + i,
            y + j,
        )
}

/// Every pixel of the image is fully opaque.
pub open spec fn opaque_image(p: Pixels) -> bool {
    forall|x: int, y: int| 0 <= x < p.width && 0 <= y < p.height ==> (#[trigger] p.pixel(x, y))[3] == 255u8
}

/// What the desktop shows is opaque wherever every capture is opaque.
pub proof fn lemma_desktop_pixel_opaque(snapshots: Seq<Snapshot>, dx: int, dy: int)
    requires
        snapshots_wf(snapshots),
        forall|i: int| 0 <= i < snapshots.len() ==> opaque_image(#[trigger] snapshots[i].image),
    ensures
        desktop_pixel(snapshots, dx, dy)[3] == 255u8,
    decreases snapshots.len(),
{
    if snapshots.len() > 0 {
        let last = snapshots.last();
        assert(snapshot_wf(snapshots[snapshots.len() - 1]));
        assert(opaque_image(snapshots[snapshots.len() - 1].image));
        if covers(last, dx, dy) {
            assert((last.image.pixel(dx - last.x, dy - last.y))[3] == 255u8);
        } else {
            let rest = snapshots.drop_last();
            assert forall|i: int| 0 <= i < rest.len() implies #[trigger] snapshot_wf(rest[i]) by {
                assert(snapshot_wf(snapshots[i]));
            }
            assert forall|i: int| 0 <= i < rest.len() implies opaque_image(#[trigger] rest[i].image) by {
                assert(opaque_image(snapshots[i].image));
            }
            lemma_desktop_pixel_opaque(rest, dx, dy);
        }
    }
}

/// A selection composed from opaque captures is opaque: the points that no
/// monitor shows are opaque black.
pub proof fn lemma_composed_is_opaque(image: Pixels, snapshots: Seq<Snapshot>, x: int, y: int)
    requires
        composed_from(image, snapshots, x, y),
        snapshots_wf(snapshots),
        forall|i: int| 0 <= i < snapshots.len() ==> opaque_image(#[trigger] snapshots[i].image),
    ensures
        opaque_image(image),
{
    assert forall|i: int, j: int| 0 <= i < image.width && 0 <= j < image.height implies (#[trigger] image.pixel(
        i,
        j,
    ))[3] == 255u8 by {
        lemma_desktop_pixel_opaque(snapshots, x + i, y + j);
    }
}

proof fn lemma_prefix(snapshots: Seq<Snapshot>, k: int)
    requires
        0 <= k < snapshots.len(),
    ensures
        snapshots.take(k + 1).last() == snapshots[k],
        snapshots.take(k + 1).drop_last() == snapshots.take(k),
        snapshots.take(k + 1).len() == k + 1,
{
    assert(snapshots.take(k + 1).drop_last() =~= snapshots.take(k));
}

/// Composes the `width` x `height` rectangle of the desktop at (`x`, `y`)
/// from the captures: a later capture is drawn over an earlier one, and
/// points that no monitor shows are opaque black.
pub fn compose_rect(snapshots: &Vec<Snapshot>, x: i32, y: i32, width: u32, height: u32) -> (r: Result<ComposedCapture, String>)
    requires
        snapshots_wf(snapshots@),
        snapshots@.len() > 0 && within_desktop(snapshots@, x as int, y as int, width as int, height as int)
            ==> 4 * (width as int) * (height as int) <= usize::MAX,
    ensures
        r is Err <==> compose_error(snapshots@, x as int, y as int, width as int, height as int) is Some,
        r matches Err(e) ==> Some(e@) == compose_error(snapshots@, x as int, y as int, width as int, height as int),
        r matches Ok(c) ==> c.x == x && c.y == y && c.image.width == width && c.image.height == height
            && composed_from(c.image, snapshots@, x as int, y as int),
{
    let n = snapshots.len();
    if n == 0 {
        return Err("未找到显示器".to_owned());
    }
    let xi = x as i64;
    let yi = y as i64;
    let right = xi + width as i64;
    let bottom = yi + height as i64;
    let ghost s = snapshots@;

    let mut has_left = false;
    let mut has_top = false;
    let mut has_right = false;
    let mut has_bottom = false;
    let mut k: usize = 0;
    while k < n
        invariant
            n == s.len(),
            s == snapshots@,
            0 <= k <= n,
            xi == x,
            yi == y,
            right == x + width,
            bottom == y + height,
            has_left <==> exists|i: int| 0 <= i < k && #[trigger] s[i].x <= x,
            has_top <==> exists|i: int| 0 <= i < k && #[trigger] s[i].y <= y,
            has_right <==> exists|i: int| 0 <= i < k && x + width <= #[trigger] s[i].x + s[i].info.width,
            has_bottom <==> exists|i: int| 0 <= i < k && y + height <= #[trigger] s[i].y + s[i].info.height,
        decreases n - k,
    {
        let sx = snapshots[k].x as i64;
        let sy = snapshots[k].y as i64;
        if sx <= xi {
            has_left = true;
        }
        if sy <= yi {
            has_top = true;
        }
        if sx + snapshots[k].info.width as i64 >= right {
            has_right = true;
        }
        if sy + snapshots[k].info.height as i64 >= bottom {
            has_bottom = true;
        }
        k = k + 1;
    }
    if !(has_left && has_top && has_right && has_bottom) {
        return Err("截图选区超出虚拟桌面范围".to_owned());
    }

    let mut canvas = filled_pixels(width, height, (0, 0, 0, 255));
    let mut intersects = false;
    let mut k: usize = 0;
    while k < n
        invariant
            n == s.len(),
            s == snapshots@,
            snapshots_wf(s),
            0 <= k <= n,
            xi == x,
            yi == y,
            right == x + width,
            bottom == y + height,
            canvas.width == width,
            canvas.height == height,
            composed_from(canvas, s.take(k as int), x as int, y as int),
            intersects <==> exists|i: int| 0 <= i < k && #[trigger] overlaps(s[i], x as int, y as int, width as int, height as int),
        decreases n - k,
    {
        proof {
            lemma_prefix(s, k as int);
        }
        let snap = &snapshots[k];
        let sx = snap.x as i64;
        let sy = snap.y as i64;
        let left = if xi >= sx { xi } else { sx };
        let top = if yi >= sy { yi } else { sy };
        let snap_right = sx + snap.info.width as i64;
        let snap_bottom = sy + snap.info.height as i64;
        let clip_right = if right <= snap_right { right } else { snap_right };
        let clip_bottom = if bottom <= snap_bottom { bottom } else { snap_bottom };
        if clip_right <= left || clip_bottom <= top {
            assert forall|i: int, j: int| 0 <= i < width && 0 <= j < height implies #[trigger] canvas.pixel(i, j)
                == desktop_pixel(s.take(k + 1), x + i, y + j) by {
                assert(!covers(s[k as int], x + i, y + j));
            }
            k = k + 1;
            continue;
        }
        assert(overlaps(s[k as int], x as int, y as int, width as int, height as int));
        intersects = true;
        assert(snapshot_wf(s[k as int]));
        let part = crop_pixels(
            &snap.image,
            (left - sx) as u32,
            (top - sy) as u32,
            (clip_right - left) as u32,
            (clip_bottom - top) as u32,
        );
        let ghost before = canvas;
        replace_pixels(&mut canvas, &part, (left - xi) as u32, (top - yi) as u32);
        assert forall|i: int, j: int| 0 <= i < width && 0 <= j < height implies #[trigger] canvas.pixel(i, j)
            == desktop_pixel(s.take(k + 1), x + i, y + j) by {
            assert(before.pixel(i, j) == desktop_pixel(s.take(k as int), x + i, y + j));
            if left - x <= i < clip_right - x && top - y <= j < clip_bottom - y {
                assert(part.pixel(i - (left - x), j - (top - y)) == snap.image.pixel(
                    (left - sx) + (i - (left - x)),
                    (top - sy) + (j - (top - y)),
                ));
                assert(covers(s[k as int], x + i, y + j));
            } else {
                assert(!covers(s[k as int], x + i, y + j));
            }
        }
        k = k + 1;
    }
    assert(s.take(n as int) =~= s);
    if !intersects {
        return Err("截图选区不在任何显示器内".to_owned());
    }
    Ok(ComposedCapture { image: canvas, x, y })
}

/// Composes the selection whose edges, rounded outward to whole pixels, are
/// `left`, `top`, `right` and `bottom`: the selection must be usable
/// (see `selection_pixels`) and then composable (see `compose_rect`).
pub fn compose_selection(snapshots: &Vec<Snapshot>, left: i64, top: i64, right: i64, bottom: i64) -> (r: Result<ComposedCapture, String>)
    requires
        snapshots_wf(snapshots@),
        selection_error(left as int, top as int, right as int, bottom as int) is None && snapshots@.len() > 0
            && within_desktop(snapshots@, left as int, top as int, right - left, bottom - top) ==> 4 * (right
            - left) * (bottom - top) <= usize::MAX,
    ensures
        selection_error(left as int, top as int, right as int, bottom as int) matches Some(e) ==> (r matches Err(m) && m@ == e),
        selection_error(left as int, top as int, right as int, bottom as int) is None ==> {
            &&& r is Err <==> compose_error(snapshots@, left as int, top as int, right - left, bottom - top) is Some
            &&& r matches Err(e) ==> Some(e@) == compose_error(snapshots@, left as int, top as int, right - left, bottom - top)
            &&& r matches Ok(c) ==> c.x == left && c.y == top && c.image.width == right - left && c.image.height == bottom - top
                && composed_from(c.image, snapshots@, left as int, top as int)
        },
{
    let (x, y, width, height) = selection_pixels(left, top, right, bottom)?;
    compose_rect(snapshots, x, y, width, height)
}

} // verus!
