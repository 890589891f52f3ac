//! The image operations this library takes from the `image` crate, on
//! images held as plain RGBA bytes.
use vstd::prelude::*;
use crate::session::Pixels;

verus! {

/// `image::RgbaImage::from_pixel`: an image of `width` x `height` pixels that
/// are all `fill`.
#[verifier::external_body]
pub(crate) fn filled_pixels(width: u32, height: u32, fill: (u8, u8, u8, u8)) -> (p: Pixels)
    requires
        4 * (width as int) * (height as int) <= usize::MAX,
    ensures
        p.width == width,
        p.height == height,
        p.wf(),
        forall|x: int, y: int|
            0 <= x < width && 0 <= y < height ==> #[trigger] p.pixel(x, y) == seq![
                fill.0,
                fill.1,
                fill.2,
                fill.3,
            ],
{
    let filled = image::RgbaImage::from_pixel(width, height, image::Rgba([fill.0, fill.1, fill.2, fill.3]));
    Pixels { width: filled.width(), height: filled.height(), rgba: filled.into_raw() }
}

/// `image::imageops::crop_imm(..).to_image()`: the `width` x `height` part of
/// `source` whose top-left pixel is (`x`, `y`), which lies inside `source`.
#[verifier::external_body]
pub(crate) fn crop_pixels(source: &Pixels, x: u32, y: u32, width: u32, height: u32) -> (p: Pixels)
    requires
        source.wf(),
        x + width <= source.width,
        y + height <= source.height,
    ensures
        p.width == width,
        p.height == height,
        p.wf(),
        forall|i: int, j: int|
            0 <= i < width && 0 <= j < height ==> #[trigger] p.pixel(i, j) == source.pixel(
                x + i,
                y + j,
            ),
{
    let whole = image::RgbaImage::from_raw(source.width, source.height, source.rgba.clone()).unwrap();
    let part = image::imageops::crop_imm(&whole, x, y, width, height).to_image();
    Pixels { width: part.width(), height: part.height(), rgba: part.into_raw() }
}

/// `image::imageops::replace`: copies `top` onto `bottom` with its top-left
/// pixel at (`x`, `y`); `top` lies inside `bottom`, and the pixels of
/// `bottom` outside it keep their value.
#[verifier::external_body]
pub(crate) fn replace_pixels(bottom: &mut Pixels, top: &Pixels, x: u32, y: u32)
    requires
        old(bottom).wf(),
        top.wf(),
        x + top.width <= old(bottom).width,
        y + top.height <= old(bottom).height,
    ensures
        final(bottom).width == old(bottom).width,
        final(bottom).height == old(bottom).height,
        final(bottom).wf(),
        forall|i: int, j: int|
            0 <= i < old(bottom).width && 0 <= j < old(bottom).height
                ==> #[trigger] final(bottom).pixel(i, j) == if x <= i < x + top.width && y <= j < y + top.height {
                top.pixel(i - x, j - y)
            } else {
                old(bottom).pixel(i, j)
            },
{
    let raw = std::mem::take(&mut bottom.rgba);
    let mut canvas = image::RgbaImage::from_raw(bottom.width, bottom.height, raw).unwrap();
    let layer = image::ImageBuffer::<image::Rgba<u8>, &[u8]>::from_raw(top.width, top.height, top.rgba.as_slice()).unwrap();
    image::imageops::replace(&mut canvas, &layer, i64::from(x), i64::from(y));
    bottom.rgba = canvas.into_raw();
}

} // verus!
