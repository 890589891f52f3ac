//! Screen capture geometry: window labels, the virtual desktop spanned by
//! the monitors, the windows visible on each monitor, and selection pixels.
use vstd::prelude::*;
use crate::text::{decimal, digit_char, push_decimal};

verus! {

/// The label of the selection window shown on a monitor.
pub open spec fn label_of(monitor_id: u32) -> Seq<char> {
    "capture_"@ + decimal(monitor_id as nat)
}

proof fn lemma_decimal_len(n: nat)
    ensures
        decimal(n).len() >= 1,
        n >= 10 ==> decimal(n).len() >= 2,
    decreases n,
{
    if n >= 10 {
        lemma_decimal_len(n / 10);
    }
}

proof fn lemma_decimal_injective(a: nat, b: nat)
    requires
        decimal(a) == decimal(b),
    ensures
        a == b,
    decreases a,
{
    lemma_decimal_len(a);
    lemma_decimal_len(b);
    if a < 10 && b < 10 {
        assert(decimal(a)[0] == digit_char(a));
        assert(decimal(b)[0] == digit_char(b));
    } else if a >= 10 && b >= 10 {
        assert(decimal(a).last() == digit_char(a % 10));
        assert(decimal(b).last() == digit_char(b % 10));
        assert(decimal(a).drop_last() =~= decimal(a / 10));
        assert(decimal(b).drop_last() =~= decimal(b / 10));
        lemma_decimal_injective(a / 10, b / 10);
    }
}

/// Each monitor's selection window has a label of its own, so a window can
/// only ever act for its own monitor.
pub proof fn lemma_labels_are_distinct(a: u32, b: u32)
    requires
        a != b,
    ensures
        label_of(a) != label_of(b),
{
    if label_of(a) == label_of(b) {
        let p = "capture_"@;
        assert(label_of(a).subrange(p.len() as int, label_of(a).len() as int) =~= decimal(a as nat));
        assert(label_of(b).subrange(p.len() as int, label_of(b).len() as int) =~= decimal(b as nat));
        lemma_decimal_injective(a as nat, b as nat);
    }
}

/// The label of the selection window shown on monitor `monitor_id`.
pub fn label(monitor_id: u32) -> (r: String)
    ensures
        r@ == label_of(monitor_id),
{
    let mut r = "capture_".to_owned();
    push_decimal(&mut r, monitor_id as u64);
    r
}

/// The part of a visible window that lies on one monitor, relative to the
/// monitor's top-left corner.
#[derive(Clone, Copy)]
pub struct WindowRegion {
    pub window_id: u32,
    pub x: u32,
    pub y: u32,
    pub width: u32,
    pub height: u32,
}

/// A visible top-level window in desktop coordinates.
#[derive(Clone, Copy)]
pub struct WindowBounds {
    pub id: u32,
    pub x: i32,
    pub y: i32,
    pub width: u32,
    pub height: u32,
}

/// Which windows a capture lets the user snap to: not the application's
/// own, not minimized ones (nor those whose state is unknown), only those
/// whose bounds could be read, and only those more than one pixel wide and
/// high.
pub fn visible_window(own_process: bool, minimized: Option<bool>, bounds: Option<WindowBounds>) -> (r: Option<WindowBounds>)
    ensures
        r is Some <==> (!own_process && minimized == Some(false) && (bounds matches Some(b) && b.width > 1
            && b.height > 1)),
        r matches Some(w) ==> bounds == Some(w),
{
    if own_process {
        return None;
    }
    match minimized {
        Some(false) => {},
        _ => {
            return None;
        },
    }
    match bounds {
        Some(b) => {
            if b.width > 1 && b.height > 1 {
                Some(b)
            } else {
                None
            }
        },
        None => None,
    }
}

/// What the selection window of one monitor is told about its capture.
pub struct SnapshotInfo {
    pub session_id: String,
    pub monitor_id: u32,
    pub monitor_x: i32,
    pub monitor_y: i32,
    pub width: u32,
    pub height: u32,
    pub desktop_x: i32,
    pub desktop_y: i32,
    pub desktop_width: u32,
    pub desktop_height: u32,
    pub window_regions: Vec<WindowRegion>,
}

pub open spec fn max_of(a: int, b: int) -> int {
    if a >= b { a } else { b }
}

pub open spec fn min_of(a: int, b: int) -> int {
    if a <= b { a } else { b }
}

/// The part of window `w` that lies on the monitor at (`mx`, `my`) of size
/// `mw` x `mh`, if any.
pub open spec fn clip_window(w: WindowBounds, mx: i32, my: i32, mw: u32, mh: u32) -> Option<
    WindowRegion,
> {
    let left = max_of(w.x as int, mx as int);
    let top = max_of(w.y as int, my as int);
    let right = min_of(w.x + w.width, mx + mw);
    let bottom = min_of(w.y + w.height, my + mh);
    if right > left && bottom > top {
        Some(
            WindowRegion {
                window_id: w.id,
                x: (left - mx) as u32,
                y: (top - my) as u32,
                width: (right - left) as u32,
                height: (bottom - top) as u32,
            },
        )
    } else {
        None
    }
}

/// The regions of the windows that overlap the monitor, in window order.
pub open spec fn monitor_regions(windows: Seq<WindowBounds>, mx: i32, my: i32, mw: u32, mh: u32) -> Seq<
    WindowRegion,
>
    decreases windows.len(),
{
    if windows.len() == 0 {
        Seq::empty()
    } else {
        let rest = monitor_regions(windows.drop_last(), mx, my, mw, mh);
        match clip_window(windows.last(), mx, my, mw, mh) {
            Some(region) => rest.push(region),
            None => rest,
        }
    }
}

/// Clips the visible windows to one monitor, for the selection window to snap to.
pub fn regions_for_monitor(
    windows: &Vec<WindowBounds>,
    monitor_x: i32,
    monitor_y: i32,
    monitor_width: u32,
    monitor_height: u32,
) -> (regions: Vec<WindowRegion>)
    ensures
        regions@ == monitor_regions(windows@, monitor_x, monitor_y, monitor_width, monitor_height),
{
    let monitor_left = monitor_x as i64;
    let monitor_top = monitor_y as i64;
    let monitor_right = monitor_left + monitor_width as i64;
    let monitor_bottom = monitor_top + monitor_height as i64;
    let mut regions: Vec<WindowRegion> = Vec::new();
    for i in 0..windows.len()
        invariant
            monitor_left == monitor_x,
            monitor_top == monitor_y,
            monitor_right == monitor_x + monitor_width,
            monitor_bottom == monitor_y + monitor_height,
            regions@ == monitor_regions(
                windows@.take(i as int),
                monitor_x,
                monitor_y,
                monitor_width,
                monitor_height,
            ),
    {
        assert(windows@.take(i + 1).drop_last() =~= windows@.take(i as int));
        let w = &windows[i];
        let left = if w.x as i64 >= monitor_left { w.x as i64 } else { monitor_left };
        let top = if w.y as i64 >= monitor_top { w.y as i64 } else { monitor_top };
        let wr = w.x as i64 + w.width as i64;
        let wb = w.y as i64 + w.height as i64;
        let right = if wr <= monitor_right { wr } else { monitor_right };
        let bottom = if wb <= monitor_bottom { wb } else { monitor_bottom };
        if right > left && bottom > top {
            regions.push(
                WindowRegion {
                    window_id: w.id,
                    x: (left - monitor_left) as u32,
                    y: (top - monitor_top) as u32,
                    width: (right - left) as u32,
                    height: (bottom - top) as u32,
                },
            );
        }
    }
    assert(windows@.take(windows@.len() as int) =~= windows@);
    regions
}

/// The smallest left edge, smallest top edge, largest right edge and largest
/// bottom edge of the monitors: the virtual desktop.
pub open spec fn desktop_edges(infos: Seq<SnapshotInfo>) -> (int, int, int, int)
    decreases infos.len(),
{
    if infos.len() <= 1 {
        if infos.len() == 1 {
            let m = infos[0];
            (m.monitor_x as int, m.monitor_y as int, m.monitor_x + m.width, m.monitor_y + m.height)
        } else {
            (0, 0, 0, 0)
        }
    } else {
        let (l, t, r, b) = desktop_edges(infos.drop_last());
        let m = infos.last();
        (
            min_of(l, m.monitor_x as int),
            min_of(t, m.monitor_y as int),
            max_of(r, m.monitor_x + m.width),
            max_of(b, m.monitor_y + m.height),
        )
    }
}

proof fn lemma_desktop_edges_range(infos: Seq<SnapshotInfo>)
    requires
        infos.len() > 0,
    ensures
        i32::MIN <= desktop_edges(infos).0 <= i32::MAX,
        i32::MIN <= desktop_edges(infos).1 <= i32::MAX,
        desktop_edges(infos).0 <= desktop_edges(infos).2 <= i32::MAX + u32::MAX,
        desktop_edges(infos).1 <= desktop_edges(infos).3 <= i32::MAX + u32::MAX,
    decreases infos.len(),
{
    if infos.len() > 1 {
        lemma_desktop_edges_range(infos.drop_last());
    }
}

/// The virtual desktop is the smallest rectangle that holds every monitor:
/// each monitor lies inside it, and each of its four edges is an edge of
/// some monitor.
pub proof fn lemma_desktop_is_the_monitors_bounding_box(infos: Seq<SnapshotInfo>)
    requires
        infos.len() > 0,
    ensures
        forall|i: int|
            0 <= i < infos.len() ==> desktop_edges(infos).0 <= (#[trigger] infos[i]).monitor_x
                && desktop_edges(infos).1 <= infos[i].monitor_y && infos[i].monitor_x + infos[i].width
                <= desktop_edges(infos).2 && infos[i].monitor_y + infos[i].height <= desktop_edges(infos).3,
        exists|i: int| 0 <= i < infos.len() && desktop_edges(infos).0 == (#[trigger] infos[i]).monitor_x,
        exists|i: int| 0 <= i < infos.len() && desktop_edges(infos).1 == (#[trigger] infos[i]).monitor_y,
        exists|i: int|
            0 <= i < infos.len() && desktop_edges(infos).2 == (#[trigger] infos[i]).monitor_x + infos[i].width,
        exists|i: int|
            0 <= i < infos.len() && desktop_edges(infos).3 == (#[trigger] infos[i]).monitor_y + infos[i].height,
    decreases infos.len(),
{
    if infos.len() == 1 {
        assert(infos[0] == infos[0]);
    } else {
        let rest = infos.drop_last();
        lemma_desktop_is_the_monitors_bounding_box(rest);
        let last = infos.len() - 1;
        assert(infos.last() == infos[last]);
        assert forall|i: int| 0 <= i < rest.len() implies #[trigger] rest[i] == infos[i] by {}
        let (l, t, r, b) = desktop_edges(rest);
        assert forall|i: int|
            0 <= i < infos.len() implies desktop_edges(infos).0 <= (#[trigger] infos[i]).monitor_x
                && desktop_edges(infos).1 <= infos[i].monitor_y && infos[i].monitor_x + infos[i].width
                <= desktop_edges(infos).2 && infos[i].monitor_y + infos[i].height <= desktop_edges(infos).3 by {
            if i < last {
                assert(rest[i] == infos[i]);
            }
        }
        let i0 = choose|i: int| 0 <= i < rest.len() && l == (#[trigger] rest[i]).monitor_x;
        let i1 = choose|i: int| 0 <= i < rest.len() && t == (#[trigger] rest[i]).monitor_y;
        let i2 = choose|i: int| 0 <= i < rest.len() && r == (#[trigger] rest[i]).monitor_x + rest[i].width;
        let i3 = choose|i: int| 0 <= i < rest.len() && b == (#[trigger] rest[i]).monitor_y + rest[i].height;
        assert(infos[i0] == rest[i0] && infos[i1] == rest[i1] && infos[i2] == rest[i2] && infos[i3] == rest[i3]);
    }
}

/// Why a set of monitor captures cannot be described as one desktop, if it cannot.
pub open spec fn desktop_error(infos: Seq<SnapshotInfo>) -> Option<Seq<char>> {
    let (l, t, r, b) = desktop_edges(infos);
    if infos.len() == 0 {
        Some("未找到显示器"@)
    } else if r - l > u32::MAX {
        Some("虚拟桌面宽度超出范围"@)
    } else if b - t > u32::MAX {
        Some("虚拟桌面高度超出范围"@)
    } else {
        None
    }
}

/// One monitor's capture description completed with the desktop it belongs
/// to and the windows visible on it.
pub open spec fn described(info: SnapshotInfo, out: SnapshotInfo, infos: Seq<SnapshotInfo>, windows: Seq<WindowBounds>) -> bool {
    let (l, t, r, b) = desktop_edges(infos);
    &&& out.session_id@ == info.session_id@
    &&& out.monitor_id == info.monitor_id
    &&& out.monitor_x == info.monitor_x
    &&& out.monitor_y == info.monitor_y
    &&& out.width == info.width
    &&& out.height == info.height
    &&& out.desktop_x == l
    &&& out.desktop_y == t
    &&& out.desktop_width == r - l
    &&& out.desktop_height == b - t
    &&& out.window_regions@ == monitor_regions(windows, info.monitor_x, info.monitor_y, info.width, info.height)
}

/// Completes the monitors' capture descriptions with the virtual desktop that
/// they span together and the visible windows clipped to each monitor.
pub fn describe_desktop(infos: &Vec<SnapshotInfo>, windows: &Vec<WindowBounds>) -> (r: Result<Vec<SnapshotInfo>, String>)
    ensures
        r is Err <==> desktop_error(infos@) is Some,
        r matches Err(e) ==> Some(e@) == desktop_error(infos@),
        r matches Ok(out) ==> out@.len() == infos@.len() && forall|i: int|
            0 <= i < infos@.len() ==> described(#[trigger] infos@[i], out@[i], infos@, windows@),
        r matches Ok(out) ==> forall|i: int, j: int|
            0 <= i < out@.len() && 0 <= j < infos@.len() ==> (#[trigger] out@[i]).desktop_x <= (
            #[trigger] infos@[j]).monitor_x && out@[i].desktop_y <= infos@[j].monitor_y
                && infos@[j].monitor_x + infos@[j].width <= out@[i].desktop_x + out@[i].desktop_width
                && infos@[j].monitor_y + infos@[j].height <= out@[i].desktop_y + out@[i].desktop_height,
{
    if infos.len() == 0 {
        return Err("未找到显示器".to_owned());
    }
    let first = &infos[0];
    let mut left: i64 = first.monitor_x as i64;
    let mut top: i64 = first.monitor_y as i64;
    let mut right: i64 = first.monitor_x as i64 + first.width as i64;
    let mut bottom: i64 = first.monitor_y as i64 + first.height as i64;
    assert(infos@.take(1).drop_last().len() == 0);
    for i in 1..infos.len()
        invariant
            infos@.len() > 0,
            (left as int, top as int, right as int, bottom as int) == desktop_edges(infos@.take(i as int)),
            i32::MIN <= left <= i32::MAX,
            i32::MIN <= top <= i32::MAX,
            right <= i32::MAX + u32::MAX,
            bottom <= i32::MAX + u32::MAX,
    {
        assert(infos@.take(i + 1).drop_last() =~= infos@.take(i as int));
        proof {
            lemma_desktop_edges_range(infos@.take(i + 1));
        }
        let m = &infos[i];
        if (m.monitor_x as i64) < left {
            left = m.monitor_x as i64;
        }
        if (m.monitor_y as i64) < top {
            top = m.monitor_y as i64;
        }
        if m.monitor_x as i64 + m.width as i64 > right {
            right = m.monitor_x as i64 + m.width as i64;
        }
        if m.monitor_y as i64 + m.height as i64 > bottom {
            bottom = m.monitor_y as i64 + m.height as i64;
        }
    }
    assert(infos@.take(infos@.len() as int) =~= infos@);
    proof {
        lemma_desktop_edges_range(infos@);
    }
    proof {
        lemma_desktop_is_the_monitors_bounding_box(infos@);
    }
    if right - left > u32::MAX as i64 {
        return Err("虚拟桌面宽度超出范围".to_owned());
    }
    if bottom - top > u32::MAX as i64 {
        return Err("虚拟桌面高度超出范围".to_owned());
    }
    let mut out: Vec<SnapshotInfo> = Vec::new();
    for i in 0..infos.len()
        invariant
            (left as int, top as int, right as int, bottom as int) == desktop_edges(infos@),
            i32::MIN <= left <= i32::MAX,
            i32::MIN <= top <= i32::MAX,
            0 <= right - left <= u32::MAX,
            0 <= bottom - top <= u32::MAX,
            out@.len() == i,
            forall|k: int| 0 <= k < i ==> described(#[trigger] infos@[k], out@[k], infos@, windows@),
    {
        let m = &infos[i];
        let regions = regions_for_monitor(windows, m.monitor_x, m.monitor_y, m.width, m.height);
        out.push(
            SnapshotInfo {
                session_id: m.session_id.clone(),
                monitor_id: m.monitor_id,
                monitor_x: m.monitor_x,
                monitor_y: m.monitor_y,
                width: m.width,
                height: m.height,
                desktop_x: left as i32,
                desktop_y: top as i32,
                desktop_width: (right - left) as u32,
                desktop_height: (bottom - top) as u32,
                window_regions: regions,
            },
        );
    }
    proof {
        lemma_desktop_is_the_monitors_bounding_box(infos@);
        assert forall|i: int, j: int| 0 <= i < out@.len() && 0 <= j < infos@.len() implies (
        #[trigger] out@[i]).desktop_x <= (#[trigger] infos@[j]).monitor_x && out@[i].desktop_y
            <= infos@[j].monitor_y && infos@[j].monitor_x + infos@[j].width <= out@[i].desktop_x
            + out@[i].desktop_width && infos@[j].monitor_y + infos@[j].height <= out@[i].desktop_y
            + out@[i].desktop_height by {
            assert(described(infos@[i], out@[i], infos@, windows@));
        }
    }
    Ok(out)
}

/// Why the pixel rectangle with edges `left`, `top`, `right`, `bottom` (the
/// selection rounded outward) is not a usable capture, if it is not.
pub open spec fn selection_error(left: int, top: int, right: int, bottom: int) -> Option<Seq<char>> {
    if left < i32::MIN || top < i32::MIN || right > i32::MAX || bottom > i32::MAX {
        Some("截图选区超出桌面范围"@)
    } else if right - left < 2 || bottom - top < 2 {
        Some("截图选区太小"@)
    } else {
        None
    }
}

/// Turns a selection, already rounded outward to whole pixels, into its
/// position and size; it must lie in the 32-bit desktop range and be at least
/// two pixels wide and high.
pub fn selection_pixels(left: i64, top: i64, right: i64, bottom: i64) -> (r: Result<(i32, i32, u32, u32), String>)
    ensures
        r is Err <==> selection_error(left as int, top as int, right as int, bottom as int) is Some,
        r matches Err(e) ==> Some(e@) == selection_error(left as int, top as int, right as int, bottom as int),
        r matches Ok(p) ==> p.0 == left && p.1 == top && p.2 == right - left && p.3 == bottom - top,
{
    if left < i32::MIN as i64 || top < i32::MIN as i64 || right > i32::MAX as i64 || bottom
        > i32::MAX as i64 {
        return Err("截图选区超出桌面范围".to_owned());
    }
    let width: i64 = if right > left { right - left } else { 0 };
    let height: i64 = if bottom > top { bottom - top } else { 0 };
    if width < 2 || height < 2 {
        return Err("截图选区太小".to_owned());
    }
    Ok((left as i32, top as i32, width as u32, height as u32))
}

} // verus!
