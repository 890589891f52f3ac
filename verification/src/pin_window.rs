//! The decisions of a native pin window: what a key or a menu choice does,
//! where the window opens, the geometry it stores, and how its image is
//! resampled for a zoom.
use vstd::prelude::*;
use crate::records::WindowState;

verus! {

/// What the user can ask of a pin window.
#[derive(Clone, Copy, PartialEq, Eq, Structural)]
pub enum PinCommand {
    Copy,
    Recognize,
    ResetZoom,
    Close,
}

/// The command of a key pressed in a pin window: Esc closes it, `0` resets
/// the zoom, and Ctrl+C copies the image.
pub open spec fn key_command_of(key: u16, control_down: bool) -> Option<PinCommand> {
    if key == 0x1B {
        Some(PinCommand::Close)
    } else if key == 0x30 {
        Some(PinCommand::ResetZoom)
    } else if key == 0x43 && control_down {
        Some(PinCommand::Copy)
    } else {
        None
    }
}

pub fn key_command(key: u16, control_down: bool) -> (r: Option<PinCommand>)
    ensures
        r == key_command_of(key, control_down),
{
    if key == 0x1B {
        Some(PinCommand::Close)
    } else if key == 0x30 {
        Some(PinCommand::ResetZoom)
    } else if key == 0x43 && control_down {
        Some(PinCommand::Copy)
    } else {
        None
    }
}

/// The identifiers of the context menu's entries, in menu order.
pub open spec fn menu_command_of(choice: i32) -> Option<PinCommand> {
    if choice == 1 {
        Some(PinCommand::Copy)
    } else if choice == 2 {
        Some(PinCommand::Recognize)
    } else if choice == 3 {
        Some(PinCommand::ResetZoom)
    } else if choice == 4 {
        Some(PinCommand::Close)
    } else {
        None
    }
}

/// The command of the context menu entry chosen; none when the menu was
/// dismissed.
pub fn menu_command(choice: i32) -> (r: Option<PinCommand>)
    ensures
        r == menu_command_of(choice),
{
    if choice == 1 {
        Some(PinCommand::Copy)
    } else if choice == 2 {
        Some(PinCommand::Recognize)
    } else if choice == 3 {
        Some(PinCommand::ResetZoom)
    } else if choice == 4 {
        Some(PinCommand::Close)
    } else {
        None
    }
}

/// Where the context menu opens: the point packed in the message (its low
/// and high 16 bits, signed), or the cursor when the menu was opened from
/// the keyboard, which the message marks with -1 for the point or for both
/// coordinates.
pub open spec fn menu_point_of(packed: isize, cursor: (i32, i32)) -> (i32, i32) {
    let x = packed as i16 as i32;
    let y = (packed >> 16) as i16 as i32;
    if packed == -1 || (x == -1 && y == -1) {
        cursor
    } else {
        (x, y)
    }
}

pub fn menu_point(packed: isize, cursor: (i32, i32)) -> (r: (i32, i32))
    ensures
        r == menu_point_of(packed, cursor),
{
    if packed == -1 {
        return cursor;
    }
    let x = packed as i16 as i32;
    let y = (packed >> 16) as i16 as i32;
    if x == -1 && y == -1 {
        cursor
    } else {
        (x, y)
    }
}

/// The geometry stored for a pin window from its screen rectangle: at least
/// one pixel wide and high, always on top.
pub fn window_state_from_rect(left: i32, top: i32, right: i32, bottom: i32) -> (r: WindowState)
    requires
        i32::MIN <= right - left <= i32::MAX,
        i32::MIN <= bottom - top <= i32::MAX,
    ensures
        r.x == left,
        r.y == top,
        r.width == if right - left >= 1 { right - left } else { 1 },
        r.height == if bottom - top >= 1 { bottom - top } else { 1 },
        r.topmost,
{
    let w = right - left;
    let h = bottom - top;
    WindowState {
        x: left,
        y: top,
        width: if w >= 1 { w as u32 } else { 1 },
        height: if h >= 1 { h as u32 } else { 1 },
        topmost: true,
    }
}

/// A monitor's rectangle on the virtual desktop, in physical pixels.
#[derive(Clone, Copy, PartialEq, Eq, Structural)]
pub struct MonitorRect {
    pub x: i32,
    pub y: i32,
    pub width: u32,
    pub height: u32,
}

/// Whether a monitor shows the point `p`.
pub open spec fn monitor_holds(m: MonitorRect, p: (i32, i32)) -> bool {
    &&& m.x <= p.0 < m.x + m.width
    &&& m.y <= p.1 < m.y + m.height
}

/// Whether some connected monitor shows the point `p`.
pub open spec fn on_some_monitor(monitors: Seq<MonitorRect>, p: (i32, i32)) -> bool {
    exists|i: int| 0 <= i < monitors.len() && #[trigger] monitor_holds(monitors[i], p)
}

/// `i` is the first monitor that shows `p`.
pub open spec fn first_holding(monitors: Seq<MonitorRect>, p: (i32, i32), i: int) -> bool {
    &&& 0 <= i < monitors.len()
    &&& monitor_holds(monitors[i], p)
    &&& forall|j: int| 0 <= j < i ==> !#[trigger] monitor_holds(monitors[j], p)
}

/// The monitor a window is centered on: the first one under the cursor,
/// else the first one connected; none when no monitor is known.
pub open spec fn home_monitor(monitors: Seq<MonitorRect>, cursor: (i32, i32)) -> Option<MonitorRect> {
    if exists|i: int| first_holding(monitors, cursor, i) {
        Some(monitors[choose|i: int| first_holding(monitors, cursor, i)])
    } else if monitors.len() > 0 {
        Some(monitors[0])
    } else {
        None
    }
}

/// The origin that centers a `width` x `height` window on a point.
pub open spec fn centered_at(cx: int, cy: int, width: i32, height: i32) -> (int, int) {
    (cx - width / 2, cy - height / 2)
}

/// Where a pin window opens: the position asked for; else its stored
/// position while a connected monitor still shows it; else, when a position
/// was stored, centered on the monitor under the cursor (or the first
/// monitor); else centered on the cursor.
pub open spec fn pin_origin_of(
    position: Option<(i32, i32)>,
    saved: Option<(i32, i32)>,
    cursor: (i32, i32),
    monitors: Seq<MonitorRect>,
    width: i32,
    height: i32,
) -> (int, int) {
    match position {
        Some(p) => (p.0 as int, p.1 as int),
        None => match saved {
            Some(s) => if on_some_monitor(monitors, s) {
                (s.0 as int, s.1 as int)
            } else {
                match home_monitor(monitors, cursor) {
                    Some(m) => centered_at(m.x + m.width / 2, m.y + m.height / 2, width, height),
                    None => centered_at(cursor.0 as int, cursor.1 as int, width, height),
                }
            },
            None => centered_at(cursor.0 as int, cursor.1 as int, width, height),
        },
    }
}

/// Whether an origin can be given to the window system.
pub open spec fn origin_fits(o: (int, int)) -> bool {
    i32::MIN <= o.0 <= i32::MAX && i32::MIN <= o.1 <= i32::MAX
}

/// The stored top-left corner of a window state.
pub open spec fn saved_point(saved: Option<&WindowState>) -> Option<(i32, i32)> {
    match saved {
        Some(s) => Some((s.x, s.y)),
        None => None,
    }
}

fn monitor_shows(m: &MonitorRect, p: (i32, i32)) -> (r: bool)
    ensures
        r == monitor_holds(*m, p),
{
    let left = m.x as i64;
    let top = m.y as i64;
    left <= p.0 as i64 && (p.0 as i64) < left + m.width as i64 && top <= p.1 as i64 && (p.1 as i64)
        < top + m.height as i64
}

/// The index of the first monitor that shows `p`, if any.
fn first_monitor_showing(monitors: &[MonitorRect], p: (i32, i32)) -> (r: Option<usize>)
    ensures
        r matches Some(i) ==> first_holding(monitors@, p, i as int),
        r is None ==> !on_some_monitor(monitors@, p),
{
    let mut i: usize = 0;
    while i < monitors.len()
        invariant
            0 <= i <= monitors@.len(),
            forall|j: int| 0 <= j < i ==> !#[trigger] monitor_holds(monitors@[j], p),
        decreases monitors@.len() - i,
    {
        if monitor_shows(&monitors[i], p) {
            return Some(i);
        }
        i += 1;
    }
    None
}

/// The origin of a pin window, as `pin_origin_of` says; none when that
/// origin lies outside what a window position can hold.
pub fn pin_origin(
    position: Option<(i32, i32)>,
    saved: Option<&WindowState>,
    cursor: (i32, i32),
    monitors: &[MonitorRect],
    width: i32,
    height: i32,
) -> (r: Option<(i32, i32)>)
    requires
        1 <= width,
        1 <= height,
    ensures
        r is Some <==> origin_fits(
            pin_origin_of(position, saved_point(saved), cursor, monitors@, width, height),
        ),
        r matches Some(o) ==> (o.0 as int, o.1 as int) == pin_origin_of(
            position,
            saved_point(saved),
            cursor,
            monitors@,
            width,
            height,
        ),
{
    if let Some(p) = position {
        return Some(p);
    }
    let (cx, cy): (i64, i64) = match saved {
        Some(s) => {
            let shown = first_monitor_showing(monitors, (s.x, s.y));
            if shown.is_some() {
                return Some((s.x, s.y));
            }
            match first_monitor_showing(monitors, cursor) {
                Some(i) => {
                    proof {
                        let k = i as int;
                        assert(first_holding(monitors@, cursor, k));
                        let c = choose|j: int| first_holding(monitors@, cursor, j);
                        if c < k {
                            assert(!monitor_holds(monitors@[c], cursor));
                        }
                        if k < c {
                            assert(!monitor_holds(monitors@[k], cursor));
                        }
                    }
                    let m = monitors[i];
                    (m.x as i64 + (m.width / 2) as i64, m.y as i64 + (m.height / 2) as i64)
                },
                None => {
                    proof {
                        assert forall|j: int| !first_holding(monitors@, cursor, j) by {
                            if first_holding(monitors@, cursor, j) {
                                assert(monitor_holds(monitors@[j], cursor));
                            }
                        }
                    }
                    if monitors.len() > 0 {
                        let m = monitors[0];
                        (m.x as i64 + (m.width / 2) as i64, m.y as i64 + (m.height / 2) as i64)
                    } else {
                        (cursor.0 as i64, cursor.1 as i64)
                    }
                },
            }
        },
        None => (cursor.0 as i64, cursor.1 as i64),
    };
    let x = cx - (width / 2) as i64;
    let y = cy - (height / 2) as i64;
    if x < i32::MIN as i64 || x > i32::MAX as i64 || y < i32::MIN as i64 || y > i32::MAX as i64 {
        None
    } else {
        Some((x as i32, y as i32))
    }
}

/// How finely a zoomed pin image is resampled: quickly while the wheel
/// turns, finely once it settles.
#[derive(Clone, Copy, PartialEq, Eq, Structural)]
pub enum Resampling {
    Triangle,
    Lanczos3,
}

/// What `image::imageops::resize` gives, with the triangle filter, for the
/// first `width * height` pixels of `source` resampled to `new_width` x
/// `new_height`. That filter's arithmetic is plain IEEE operations, so the
/// result depends on these arguments alone.
pub uninterp spec fn triangle_resampled(source: Seq<u8>, width: u32, height: u32, new_width: u32, new_height: u32) -> Seq<u8>;

/// `image::imageops::resize` on a view of the source pixels: an image of the
/// new size, four bytes a pixel, and an exact copy when the size is
/// unchanged. With the triangle filter the pixels are named by
/// `triangle_resampled`; with Lanczos3 the crate computes its kernel through
/// `f32::sin`, whose result std leaves to the platform, so nothing more is
/// said of those pixels.
#[verifier::external_body]
fn resize_pixels(source: &[u8], width: u32, height: u32, new_width: u32, new_height: u32, filter: Resampling) -> (r: Vec<u8>)
    requires
        source@.len() >= 4 * (width as int) * (height as int),
        4 * (width as int) * (height as int) <= usize::MAX,
        4 * (new_width as int) * (new_height as int) <= usize::MAX,
    ensures
        filter == Resampling::Triangle ==> r@ == triangle_resampled(source@, width, height, new_width, new_height),
        r@.len() == 4 * (new_width as int) * (new_height as int),
        width > 0 && height > 0 && new_width == width && new_height == height ==> r@ == source@.take(
            4 * (width as int) * (height as int),
        ),
{
    let view = image::ImageBuffer::<image::Rgba<u8>, &[u8]>::from_raw(width, height, source).unwrap();
    let kind = match filter {
        Resampling::Triangle => image::imageops::FilterType::Triangle,
        Resampling::Lanczos3 => image::imageops::FilterType::Lanczos3,
    };
    image::imageops::resize(&view, new_width, new_height, kind).into_raw()
}

/// Resamples a pin's premultiplied BGRA pixels, `width` x `height`, to
/// `new_width` x `new_height`; refused when the source holds fewer pixels
/// than its size says. The triangle filter's pixels are those
/// `triangle_resampled` names; of the Lanczos3 filter's only their count
/// and the copy at an unchanged size are stated.
pub fn resize_premultiplied_bgra(
    source: &[u8],
    width: u32,
    height: u32,
    new_width: u32,
    new_height: u32,
    filter: Resampling,
) -> (r: Result<Vec<u8>, String>)
    requires
        4 * (new_width as int) * (new_height as int) <= usize::MAX,
    ensures
        r is Err <==> 4 * (width as int) * (height as int) > source@.len(),
        r matches Err(e) ==> e@ == "贴图源像素尺寸无效"@,
        r matches Ok(pixels) ==> pixels@.len() == 4 * (new_width as int) * (new_height as int),
        r matches Ok(pixels) ==> (filter == Resampling::Triangle ==> pixels@ == triangle_resampled(
            source@,
            width,
            height,
            new_width,
            new_height,
        )),
        r matches Ok(pixels) ==> (width > 0 && height > 0 && new_width == width && new_height == height
            ==> pixels@ == source@.take(4 * (width as int) * (height as int))),
{
    let w = width as u64;
    let h = height as u64;
    assert(w * h <= u32::MAX * u32::MAX) by (nonlinear_arith)
        requires
            w <= u32::MAX,
            h <= u32::MAX,
    ;
    let needed = w * h;
    if needed > (source.len() as u64) / 4 {
        assert(4 * (width as int) * (height as int) > source@.len()) by (nonlinear_arith)
            requires
                needed == (width as int) * (height as int),
                needed > source@.len() / 4,
        ;
        return Err("贴图源像素尺寸无效".to_owned());
    }
    assert(4 * (width as int) * (height as int) <= source@.len()) by (nonlinear_arith)
        requires
            needed == (width as int) * (height as int),
            needed <= source@.len() / 4,
    ;
    Ok(resize_pixels(source, width, height, new_width, new_height, filter))
}

/// Whether a zoom needs resampling: not when the window shows the image at
/// its own size.
pub fn needs_resampling(image_width: u32, image_height: u32, width: u32, height: u32) -> (r: bool)
    ensures
        r == !(width == image_width && height == image_height),
{
    !(width == image_width && height == image_height)
}

/// The resampling for a redraw: fine when the zoom is settled.
pub fn resampling_for(settled: bool) -> (r: Resampling)
    ensures
        r == if settled { Resampling::Lanczos3 } else { Resampling::Triangle },
{
    if settled {
        Resampling::Lanczos3
    } else {
        Resampling::Triangle
    }
}

} // verus!
