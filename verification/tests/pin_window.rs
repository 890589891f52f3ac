use ww_ocr::pin_window::{
    key_command, menu_command, menu_point, needs_resampling, pin_origin, resampling_for,
    resize_premultiplied_bgra, window_state_from_rect, MonitorRect, PinCommand, Resampling,
};
use ww_ocr::records::WindowState;

#[test]
fn resampling_preserves_opaque_alpha_and_dimensions() {
    let source = [0, 0, 255, 255, 0, 255, 0, 255, 255, 0, 0, 255, 255, 255, 255, 255];
    for filter in [Resampling::Triangle, Resampling::Lanczos3] {
        let scaled = resize_premultiplied_bgra(&source, 2, 2, 4, 4, filter).unwrap();
        assert_eq!(scaled.len(), 4 * 4 * 4);
        assert!(scaled.chunks_exact(4).all(|pixel| pixel[3] == 255));
    }
    assert!(resize_premultiplied_bgra(&source[..3], 2, 2, 4, 4, Resampling::Lanczos3).is_err());
}

#[test]
fn refuses_too_few_source_pixels_and_copies_an_unchanged_size() {
    let source = [1, 2, 3, 4, 5, 6, 7, 8];
    assert_eq!(
        resize_premultiplied_bgra(&source, 3, 1, 1, 1, Resampling::Triangle).err().unwrap(),
        "贴图源像素尺寸无效"
    );
    assert_eq!(resize_premultiplied_bgra(&source, 2, 1, 2, 1, Resampling::Lanczos3).unwrap(), source.to_vec());
    assert_eq!(resize_premultiplied_bgra(&source, 1, 1, 3, 2, Resampling::Triangle).unwrap().len(), 24);
}

#[test]
fn keys_close_reset_and_copy() {
    assert!(key_command(0x1B, false) == Some(PinCommand::Close));
    assert!(key_command(0x30, true) == Some(PinCommand::ResetZoom));
    assert!(key_command(0x43, true) == Some(PinCommand::Copy));
    assert!(key_command(0x43, false).is_none());
    assert!(key_command(0x41, true).is_none());
}

#[test]
fn menu_entries_in_order() {
    assert!(menu_command(1) == Some(PinCommand::Copy));
    assert!(menu_command(2) == Some(PinCommand::Recognize));
    assert!(menu_command(3) == Some(PinCommand::ResetZoom));
    assert!(menu_command(4) == Some(PinCommand::Close));
    assert!(menu_command(0).is_none());
}

#[test]
fn the_menu_opens_at_the_packed_point_or_the_cursor() {
    let packed = ((-5i16 as u16 as isize) << 16) | (300i16 as u16 as isize);
    assert_eq!(menu_point(packed, (1, 2)), (300, -5));
    assert_eq!(menu_point(-1, (1, 2)), (1, 2));
    let both = ((-1i16 as u16 as isize) << 16) | (-1i16 as u16 as isize);
    assert_eq!(menu_point(both, (7, 8)), (7, 8));
}

#[test]
fn stored_geometry_is_at_least_one_pixel() {
    let state = window_state_from_rect(-10, 20, 90, 20);
    assert_eq!((state.x, state.y, state.width, state.height, state.topmost), (-10, 20, 100, 1, true));
}

#[test]
fn a_pin_opens_where_asked_else_where_it_was_else_at_the_cursor() {
    let monitors = [MonitorRect { x: 0, y: 0, width: 1920, height: 1080 }];
    let saved = WindowState { x: 5, y: 6, width: 10, height: 10, topmost: true };
    assert_eq!(pin_origin(Some((1, 2)), Some(&saved), (100, 100), &monitors, 40, 20), Some((1, 2)));
    assert_eq!(pin_origin(None, Some(&saved), (100, 100), &monitors, 40, 20), Some((5, 6)));
    assert_eq!(pin_origin(None, None, (100, 100), &monitors, 40, 21), Some((80, 90)));
}

#[test]
fn a_pin_stored_off_every_monitor_opens_centered_on_one() {
    let monitors = [
        MonitorRect { x: -1280, y: 0, width: 1280, height: 1024 },
        MonitorRect { x: 0, y: 0, width: 1920, height: 1080 },
    ];
    let lost = WindowState { x: 5000, y: 5000, width: 10, height: 10, topmost: true };
    assert_eq!(pin_origin(None, Some(&lost), (100, 100), &monitors, 200, 100), Some((860, 490)));
    assert_eq!(pin_origin(None, Some(&lost), (-100, 100), &monitors, 200, 100), Some((-740, 462)));
    assert_eq!(pin_origin(None, Some(&lost), (9000, 9000), &monitors, 200, 100), Some((-740, 462)));
    assert_eq!(pin_origin(None, Some(&lost), (30, 40), &[], 20, 10), Some((20, 35)));
    let shown = WindowState { x: -10, y: 0, width: 10, height: 10, topmost: true };
    assert_eq!(pin_origin(None, Some(&shown), (100, 100), &monitors, 200, 100), Some((-10, 0)));
}

#[test]
fn a_pin_origin_beyond_the_coordinate_range_is_refused() {
    assert_eq!(pin_origin(None, None, (i32::MIN, 0), &[], 40, 20), None);
    assert_eq!(pin_origin(None, None, (i32::MIN + 20, 0), &[], 40, 20), Some((i32::MIN, -10)));
}

#[test]
fn resamples_finely_once_settled() {
    assert!(resampling_for(true) == Resampling::Lanczos3);
    assert!(resampling_for(false) == Resampling::Triangle);
    assert!(!needs_resampling(10, 20, 10, 20));
    assert!(needs_resampling(10, 20, 11, 20));
}
