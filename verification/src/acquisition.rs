//! Turning the raw monitor captures into the snapshots of a session: opaque
//! pixels, an encoded preview, and the place of each monitor on the desktop.
use vstd::prelude::*;
use crate::capture::{described, describe_desktop, desktop_error, SnapshotInfo, WindowBounds};
use crate::composition::{opaque_image, snapshot_wf};
use crate::session::{Pixels, Snapshot};

verus! {

/// The bytes of an RGBA buffer with the alpha of every whole pixel set to
/// opaque.
pub open spec fn opaque_bytes(rgba: Seq<u8>) -> Seq<u8> {
    Seq::new(
        rgba.len(),
        |i: int|
            if i % 4 == 3 && i < 4 * (rgba.len() / 4) {
                255u8
            } else {
                rgba[i]
            },
    )
}

/// Sets the alpha of every whole pixel to opaque.
pub fn make_opaque(rgba: &mut Vec<u8>)
    ensures
        final(rgba)@ == opaque_bytes(old(rgba)@),
{
    let ghost original = rgba@;
    let len = rgba.len();
    let pixels = len / 4;
    let mut k: usize = 0;
    while k < pixels
        invariant
            len == original.len(),
            pixels == original.len() / 4,
            rgba@.len() == original.len(),
            0 <= k <= pixels,
            forall|i: int|
                0 <= i < original.len() ==> #[trigger] rgba@[i] == if i % 4 == 3 && i < 4 * k {
                    255u8
                } else {
                    original[i]
                },
        decreases pixels - k,
    {
        assert(4 * k + 3 < rgba@.len()) by (nonlinear_arith)
            requires
                k < pixels,
                pixels == rgba@.len() / 4,
        ;
        rgba.set(4 * k + 3, 255);
        k = k + 1;
    }
    assert(rgba@ =~= opaque_bytes(original));
}

/// A capture made opaque byte by byte is opaque pixel by pixel.
pub proof fn lemma_opaque_bytes_make_opaque_image(image: Pixels, raw: Seq<u8>)
    requires
        image.wf(),
        image.rgba@ == opaque_bytes(raw),
    ensures
        opaque_image(image),
{
    reveal(Pixels::pixel);
    let w = image.width as int;
    let h = image.height as int;
    assert forall|x: int, y: int| 0 <= x < w && 0 <= y < h implies (#[trigger] image.pixel(x, y))[3] == 255u8 by {
        let start = 4 * (y * w + x);
        assert(0 <= y * w + x < w * h) by (nonlinear_arith)
            requires
                0 <= x < w,
                0 <= y < h,
        ;
        assert((start + 3) % 4 == 3 && start + 3 < 4 * (raw.len() / 4) && start + 3 < raw.len()) by (nonlinear_arith)
            requires
                start == 4 * (y * w + x),
                0 <= y * w + x < w * h,
                raw.len() == 4 * w * h,
        ;
        assert(image.pixel(x, y) == image.rgba@.subrange(start, start + 4));
    }
}

/// The PNG file that the `image` crate writes for an RGBA image; `None` when
/// its encoder refuses the image.
pub uninterp spec fn png_encoding(width: u32, height: u32, rgba: Seq<u8>) -> Option<Seq<u8>>;

/// `image::ImageBuffer::write_to` with `ImageFormat::Png` into memory: the PNG
/// encoding of the image, or the encoder's error message. Which images the
/// encoder refuses is named, not stated.
#[verifier::external_body]
pub(crate) fn encode_png(image: &Pixels) -> (r: Result<Vec<u8>, String>)
    requires
        image.wf(),
    ensures
        r matches Ok(bytes) ==> png_encoding(image.width, image.height, image.rgba@) == Some(bytes@),
        r is Err ==> png_encoding(image.width, image.height, image.rgba@) is None,
{
    let view = image::ImageBuffer::<image::Rgba<u8>, &[u8]>::from_raw(image.width, image.height, image.rgba.as_slice()).unwrap();
    let mut out = std::io::Cursor::new(Vec::new());
    match view.write_to(&mut out, image::ImageFormat::Png) {
        Ok(()) => Ok(out.into_inner()),
        Err(error) => Err(error.to_string()),
    }
}

/// The snapshot made from monitor `monitor_id`'s raw capture: its pixels
/// made opaque, their PNG preview, and a description that is not yet placed
/// on the desktop.
pub open spec fn captured_as(
    s: Snapshot,
    session_id: Seq<char>,
    monitor_id: u32,
    monitor_x: i32,
    monitor_y: i32,
    scale_bits: u64,
    image: Pixels,
) -> bool {
    &&& s.info.session_id@ == session_id
    &&& s.info.monitor_id == monitor_id
    &&& s.info.monitor_x == monitor_x
    &&& s.info.monitor_y == monitor_y
    &&& s.info.width == image.width
    &&& s.info.height == image.height
    &&& s.info.desktop_x == 0 && s.info.desktop_y == 0
    &&& s.info.desktop_width == 0 && s.info.desktop_height == 0
    &&& s.info.window_regions@.len() == 0
    &&& s.image.width == image.width
    &&& s.image.height == image.height
    &&& s.image.rgba@ == opaque_bytes(image.rgba@)
    &&& png_encoding(image.width, image.height, opaque_bytes(image.rgba@)) == Some(s.preview_png@)
    &&& s.x == monitor_x
    &&& s.y == monitor_y
    &&& s.scale_bits == scale_bits
}

/// Makes the snapshot of one monitor from its raw capture at desktop
/// position (`monitor_x`, `monitor_y`) and display scale `scale_bits` (the
/// bits of an `f64`). Fails only when the preview cannot be encoded.
pub fn snapshot_from_capture(
    session_id: String,
    monitor_id: u32,
    monitor_x: i32,
    monitor_y: i32,
    scale_bits: u64,
    image: Pixels,
) -> (r: Result<Snapshot, String>)
    requires
        image.wf(),
    ensures
        r matches Ok(s) ==> captured_as(s, session_id@, monitor_id, monitor_x, monitor_y, scale_bits, image)
            && snapshot_wf(s) && opaque_image(s.image),
        r is Ok <==> png_encoding(image.width, image.height, opaque_bytes(image.rgba@)) is Some,
        r matches Err(e) ==> exists|detail: Seq<char>| e@ == "编码截图预览失败: "@ + detail,
{
    let ghost original = image;
    let mut image = image;
    make_opaque(&mut image.rgba);
    let preview_png = match encode_png(&image) {
        Ok(bytes) => bytes,
        Err(detail) => {
            let mut message = "编码截图预览失败: ".to_owned();
            message.append(detail.as_str());
            return Err(message);
        },
    };
    let width = image.width;
    let height = image.height;
    let s = Snapshot {
        info: SnapshotInfo {
            session_id,
            monitor_id,
            monitor_x,
            monitor_y,
            width,
            height,
            desktop_x: 0,
            desktop_y: 0,
            desktop_width: 0,
            desktop_height: 0,
            window_regions: Vec::new(),
        },
        image,
        preview_png,
        x: monitor_x,
        y: monitor_y,
        scale_bits,
    };
    proof {
        lemma_opaque_bytes_make_opaque_image(s.image, original.rgba@);
    }
    Ok(s)
}

/// The descriptions of the snapshots, in order.
pub open spec fn infos_of(snapshots: Seq<Snapshot>) -> Seq<SnapshotInfo> {
    snapshots.map_values(|s: Snapshot| s.info)
}

/// Each snapshot is at the position its description gives.
pub open spec fn positioned(snapshots: Seq<Snapshot>) -> bool {
    forall|i: int|
        0 <= i < snapshots.len() ==> (#[trigger] snapshots[i]).x == snapshots[i].info.monitor_x
            && snapshots[i].y == snapshots[i].info.monitor_y
}

/// The snapshot `s` is `was` with its description completed for the desktop
/// and the visible windows.
pub open spec fn placed(s: Snapshot, was: Snapshot, all: Seq<Snapshot>, windows: Seq<WindowBounds>) -> bool {
    &&& described(was.info, s.info, infos_of(all), windows)
    &&& s.image == was.image
    &&& s.preview_png@ == was.preview_png@
    &&& s.x == was.x
    &&& s.y == was.y
    &&& s.scale_bits == was.scale_bits
}

/// Completes the snapshots of all monitors with the virtual desktop that
/// they span and the windows visible on each.
pub fn place_on_desktop(snapshots: Vec<Snapshot>, windows: &Vec<WindowBounds>) -> (r: Result<Vec<Snapshot>, String>)
    requires
        positioned(snapshots@),
    ensures
        r is Err <==> desktop_error(infos_of(snapshots@)) is Some,
        r matches Err(e) ==> Some(e@) == desktop_error(infos_of(snapshots@)),
        r matches Ok(out) ==> out@.len() == snapshots@.len() && forall|i: int|
            0 <= i < snapshots@.len() ==> placed(#[trigger] out@[i], snapshots@[i], snapshots@, windows@),
{
    let ghost all = snapshots@;
    let n = snapshots.len();
    let mut rest = snapshots;
    let mut infos: Vec<SnapshotInfo> = Vec::new();
    let mut bodies: Vec<(Pixels, Vec<u8>, i32, i32, u64)> = Vec::new();
    let mut k: usize = 0;
    while k < n
        invariant
            n == all.len(),
            0 <= k <= n,
            rest@ == all.subrange(k as int, n as int),
            infos@ == infos_of(all.take(k as int)),
            bodies@.len() == k,
            forall|i: int|
                0 <= i < k ==> {
                    let b = #[trigger] bodies@[i];
                    &&& b.0 == all[i].image
                    &&& b.1@ == all[i].preview_png@
                    &&& b.2 == all[i].x
                    &&& b.3 == all[i].y
                    &&& b.4 == all[i].scale_bits
                },
        decreases n - k,
    {
        let s = rest.remove(0);
        infos.push(s.info);
        bodies.push((s.image, s.preview_png, s.x, s.y, s.scale_bits));
        k = k + 1;
        assert(infos@ =~= infos_of(all.take(k as int)));
        assert(rest@ =~= all.subrange(k as int, n as int));
    }
    assert(all.take(n as int) =~= all);
    let mut described_infos = describe_desktop(&infos, windows)?;
    let mut out: Vec<Snapshot> = Vec::new();
    let mut k: usize = 0;
    let ghost placed_infos = described_infos@;
    while k < n
        invariant
            n == all.len(),
            0 <= k <= n,
            infos@ == infos_of(all),
            placed_infos.len() == n,
            forall|i: int| 0 <= i < n ==> described(#[trigger] infos@[i], placed_infos[i], infos@, windows@),
            described_infos@ == placed_infos.subrange(k as int, n as int),
            bodies@.len() == n - k,
            forall|i: int|
                0 <= i < n - k ==> {
                    let b = #[trigger] bodies@[i];
                    &&& b.0 == all[i + k].image
                    &&& b.1@ == all[i + k].preview_png@
                    &&& b.2 == all[i + k].x
                    &&& b.3 == all[i + k].y
                    &&& b.4 == all[i + k].scale_bits
                },
            out@.len() == k,
            forall|i: int| 0 <= i < k ==> placed(#[trigger] out@[i], all[i], all, windows@),
        decreases n - k,
    {
        let info = described_infos.remove(0);
        let ghost prev = bodies@;
        let body = bodies.remove(0);
        assert(described(infos@[k as int], placed_infos[k as int], infos@, windows@));
        out.push(Snapshot { info, image: body.0, preview_png: body.1, x: body.2, y: body.3, scale_bits: body.4 });
        proof {
            assert(bodies@.len() == n - k - 1);
            assert forall|i: int| 0 <= i < n - (k + 1) implies {
                let b = #[trigger] bodies@[i];
                &&& b.0 == all[i + k + 1].image
                &&& b.1@ == all[i + k + 1].preview_png@
                &&& b.2 == all[i + k + 1].x
                &&& b.3 == all[i + k + 1].y
                &&& b.4 == all[i + k + 1].scale_bits
            } by {
                assert(bodies@[i] == prev[i + 1]);
            }
        }
        k = k + 1;
        assert(described_infos@ =~= placed_infos.subrange(k as int, n as int));
    }
    Ok(out)
}

} // verus!
