//! Pixel format conversion for layered pin windows.
use vstd::prelude::*;

verus! {

/// One channel multiplied by an alpha value, rounded to the nearest integer.
pub open spec fn premultiply(channel: u8, alpha: u8) -> u8 {
    ((channel as int * alpha as int + 127) / 255) as u8
}

/// A premultiplied channel never exceeds its alpha, and an opaque pixel
/// keeps its channels.
pub proof fn lemma_premultiplied_within_alpha(channel: u8, alpha: u8)
    ensures
        premultiply(channel, alpha) <= alpha,
        premultiply(channel, 255) == channel,
{
    assert((channel as int * alpha as int + 127) / 255 <= alpha as int) by (nonlinear_arith)
        requires
            0 <= channel <= 255,
            0 <= alpha <= 255,
    ;
    assert((channel as int * 255 + 127) / 255 == channel as int) by (nonlinear_arith)
        requires
            0 <= channel <= 255,
    ;
}

/// Number of whole four-byte pixels that a conversion from `source` into
/// `output` touches: the shorter of the two, counted in whole pixels.
pub open spec fn converted_pixels(source_len: int, output_len: int) -> int {
    if source_len / 4 <= output_len / 4 { source_len / 4 } else { output_len / 4 }
}

/// The byte that conversion writes at `index` of the output, given the RGBA
/// source; bytes past the converted pixels keep their old value.
pub open spec fn premultiplied_bgra_byte(source: Seq<u8>, old_output: Seq<u8>, index: int) -> u8 {
    let pixel = index / 4;
    let channel = index % 4;
    if pixel < converted_pixels(source.len() as int, old_output.len() as int) {
        let base = pixel * 4;
        let alpha = source[base + 3];
        if channel == 0 {
            premultiply(source[base + 2], alpha)
        } else if channel == 1 {
            premultiply(source[base + 1], alpha)
        } else if channel == 2 {
            premultiply(source[base], alpha)
        } else {
            alpha
        }
    } else {
        old_output[index]
    }
}

/// Converts straight-alpha RGBA pixels into premultiplied BGRA pixels, one
/// whole pixel at a time, for as many pixels as both buffers hold.
pub fn write_premultiplied_bgra(source: &[u8], output: &mut [u8])
    ensures
        final(output)@.len() == old(output)@.len(),
        forall|i: int|
            0 <= i < old(output)@.len() ==> #[trigger] final(output)@[i]
                == premultiplied_bgra_byte(source@, old(output)@, i),
{
    let pixels = if source.len() / 4 <= output.len() / 4 {
        source.len() / 4
    } else {
        output.len() / 4
    };
    let ghost original = output@;
    assert(pixels * 4 <= source.len());
    let mut p: usize = 0;
    while p < pixels
        invariant
            pixels == converted_pixels(source@.len() as int, original.len() as int),
            0 <= p <= pixels,
            pixels * 4 <= source@.len(),
            pixels * 4 <= usize::MAX,
            pixels * 4 <= original.len(),
            output@.len() == original.len(),
            forall|i: int|
                0 <= i < p * 4 ==> #[trigger] output@[i] == premultiplied_bgra_byte(
                    source@,
                    original,
                    i,
                ),
            forall|i: int| p * 4 <= i < original.len() ==> #[trigger] output@[i] == original[i],
        decreases pixels - p,
    {
        let base = p * 4;
        let alpha = source[base + 3] as u16;
        let r = source[base] as u16;
        let g = source[base + 1] as u16;
        let b = source[base + 2] as u16;
        assert(b * alpha <= 255 * 255 && g * alpha <= 255 * 255 && r * alpha <= 255 * 255)
            by (nonlinear_arith)
            requires
                r <= 255,
                g <= 255,
                b <= 255,
                alpha <= 255,
        ;
        let blue = ((b * alpha + 127) / 255) as u8;
        let green = ((g * alpha + 127) / 255) as u8;
        let red = ((r * alpha + 127) / 255) as u8;
        output[base] = blue;
        output[base + 1] = green;
        output[base + 2] = red;
        output[base + 3] = source[base + 3];
        assert forall|i: int| 0 <= i < (p + 1) * 4 implies #[trigger] output@[i]
            == premultiplied_bgra_byte(source@, original, i) by {
            if i >= p * 4 {
                assert(i / 4 == p as int);
                assert(i % 4 == i - p * 4);
            }
        }
        p = p + 1;
    }
}

} // verus!
