//! Pins: images shown in their own always-on-top window. The rules for
//! reopening them, their window size, and pasting the clipboard as a pin.
use vstd::prelude::*;
use crate::image_import::{check_capture, clipboard_accepts, clipboard_failure, clipboard_ok, ImageImport};
use crate::acquisition::png_encoding;
use crate::session::Pixels;

verus! {

/// A pin as stored: its zoom is the bits of an `f64`.
pub struct PinRecord {
    pub id: String,
    pub workspace_id: String,
    pub image_id: String,
    pub zoom_bits: u64,
    pub is_open: bool,
    pub created_at: i64,
}

/// The pins of a workspace, as the desktop list shows them.
pub struct DesktopItems {
    pub pins: Vec<PinRecord>,
}

/// Whether the application is quitting: pin windows destroyed meanwhile keep
/// their open mark.
pub struct QuitState {
    pub quitting: bool,
}

impl QuitState {
    pub fn new() -> (q: QuitState)
        ensures
            !q.quitting,
    {
        QuitState { quitting: false }
    }

    /// Marks the application as quitting, once every pin's geometry is saved.
    pub fn mark_quitting(&mut self)
        ensures
            final(self).quitting,
    {
        self.quitting = true;
    }

    /// Whether a pin window that is being destroyed marks its pin closed: only
    /// when the user closed it, not when the application quits, so that the
    /// pins open at quit time reopen at the next start.
    pub fn closes_pin(&self) -> (r: bool)
        ensures
            r == !self.quitting,
    {
        !self.quitting
    }
}

/// The ids of the pins that were open, in order: they are reopened when the
/// application starts.
pub open spec fn open_pin_ids(pins: Seq<PinRecord>) -> Seq<Seq<char>>
    decreases pins.len(),
{
    if pins.len() == 0 {
        Seq::empty()
    } else {
        let rest = open_pin_ids(pins.drop_last());
        if pins.last().is_open {
            rest.push(pins.last().id@)
        } else {
            rest
        }
    }
}

pub fn pins_to_restore(pins: &Vec<PinRecord>) -> (r: Vec<String>)
    ensures
        r@.map_values(|s: String| s@) == open_pin_ids(pins@),
{
    let mut out: Vec<String> = Vec::new();
    let mut k: usize = 0;
    while k < pins.len()
        invariant
            0 <= k <= pins@.len(),
            out@.map_values(|s: String| s@) == open_pin_ids(pins@.take(k as int)),
        decreases pins@.len() - k,
    {
        assert(pins@.take(k + 1).drop_last() =~= pins@.take(k as int));
        if pins[k].is_open {
            out.push(pins[k].id.clone());
        }
        k = k + 1;
        assert(out@.map_values(|s: String| s@) =~= open_pin_ids(pins@.take(k as int)));
    }
    assert(pins@.take(pins@.len() as int) =~= pins@);
    out
}

/// The size of a pin's window at zoom 1: the stored image size, which must
/// fit in 32 bits.
pub fn pin_size(width: i64, height: i64) -> (r: Result<(u32, u32), String>)
    ensures
        !(0 <= width <= u32::MAX) ==> (r matches Err(e) && e@ == "贴图宽度无效"@),
        0 <= width <= u32::MAX && !(0 <= height <= u32::MAX) ==> (r matches Err(e) && e@ == "贴图高度无效"@),
        r matches Ok((w, h)) ==> w == width && h == height,
        r is Ok <==> 0 <= width <= u32::MAX && 0 <= height <= u32::MAX,
{
    if width < 0 || width > u32::MAX as i64 {
        return Err("贴图宽度无效".to_owned());
    }
    if height < 0 || height > u32::MAX as i64 {
        return Err("贴图高度无效".to_owned());
    }
    Ok((width as u32, height as u32))
}

/// The clipboard's image as pixels: its buffer must hold the four bytes of
/// each pixel; the pixels are the buffer's first `4 * width * height` bytes.
pub fn clipboard_pixels(width: u32, height: u32, rgba: Vec<u8>) -> (r: Result<Pixels, String>)
    ensures
        r is Err <==> rgba@.len() < 4 * (width as int) * (height as int),
        r matches Err(e) ==> e@ == "剪贴板图片数据无效"@,
        r matches Ok(p) ==> p.width == width && p.height == height && p.wf() && p.rgba@ == rgba@.take(
            4 * (width as int) * (height as int),
        ),
{
    let w = width as u64;
    let h = height as u64;
    assert(w * h <= u32::MAX * u32::MAX) by (nonlinear_arith)
        requires
            w <= u32::MAX,
            h <= u32::MAX,
    ;
    let pixels = w * h;
    if pixels > (rgba.len() as u64) / 4 {
        assert(4 * (width as int) * (height as int) > rgba@.len()) by (nonlinear_arith)
            requires
                pixels == (width as int) * (height as int),
                pixels > rgba@.len() / 4,
        ;
        return Err("剪贴板图片数据无效".to_owned());
    }
    assert(4 * (width as int) * (height as int) <= rgba@.len()) by (nonlinear_arith)
        requires
            pixels == (width as int) * (height as int),
            pixels <= rgba@.len() / 4,
    ;
    assert(4 * pixels == 4 * (width as int) * (height as int)) by (nonlinear_arith)
        requires
            pixels == (width as int) * (height as int),
    ;
    let needed = (4 * pixels) as usize;
    let mut bytes = rgba;
    bytes.truncate(needed);
    Ok(Pixels { width, height, rgba: bytes })
}

/// Checks the clipboard's pixels for storage as a pin: they are stored as a
/// capture is, named after the clipboard.
pub fn check_clipboard_pixels(workspace_id: &str, image: &Pixels) -> (r: Result<(Vec<u8>, ImageImport), String>)
    requires
        image.wf(),
    ensures
        r is Ok <==> (png_encoding(image.width, image.height, image.rgba@) matches Some(png) && clipboard_ok(
            workspace_id@,
            png,
        )),
        r matches Ok((png, i)) ==> png_encoding(image.width, image.height, image.rgba@) == Some(png@)
            && i.original_name@ == "剪贴板图片.png"@ && i.byte_size == png@.len()
            && clipboard_accepts(workspace_id@, png@, i),
        r matches Err(e) ==> match png_encoding(image.width, image.height, image.rgba@) {
            Some(png) => clipboard_failure(workspace_id@, png, e@),
            None => true,
        },
{
    let (png, mut import) = check_capture(workspace_id, image)?;
    import.original_name = "剪贴板图片.png".to_owned();
    Ok((png, import))
}

} // verus!
