use ww_ocr::capture::visible_window;
use ww_ocr::acquisition::{make_opaque, place_on_desktop, snapshot_from_capture};
use ww_ocr::capture::{describe_desktop, regions_for_monitor, WindowBounds};
use ww_ocr::session::Pixels;

fn raw(width: u32, height: u32, alpha: u8) -> Pixels {
    let mut rgba = Vec::new();
    for _ in 0..width * height {
        rgba.extend_from_slice(&[10, 20, 30, alpha]);
    }
    Pixels { width, height, rgba }
}

#[test]
fn sets_every_whole_pixel_opaque() {
    let mut bytes = vec![1, 2, 3, 4, 5, 6, 7, 8, 9, 10];
    make_opaque(&mut bytes);
    assert_eq!(bytes, vec![1, 2, 3, 255, 5, 6, 7, 255, 9, 10]);
}

#[test]
fn makes_a_snapshot_with_an_opaque_png_preview() {
    let snapshot = snapshot_from_capture("s".into(), 3, -1920, 0, 2.0f64.to_bits(), raw(2, 2, 7)).unwrap();
    assert_eq!(snapshot.info.monitor_id, 3);
    assert_eq!((snapshot.info.width, snapshot.info.height), (2, 2));
    assert_eq!((snapshot.x, snapshot.y), (-1920, 0));
    assert!(snapshot.image.rgba.chunks_exact(4).all(|pixel| pixel == [10, 20, 30, 255]));
    assert_eq!(&snapshot.preview_png[..8], &[0x89, b'P', b'N', b'G', 0x0D, 0x0A, 0x1A, 0x0A]);
    let decoded = image::load_from_memory(&snapshot.preview_png).unwrap().to_rgba8();
    assert_eq!(decoded.into_raw(), snapshot.image.rgba);
}

#[test]
fn places_every_monitor_on_the_virtual_desktop() {
    let left = snapshot_from_capture("s".into(), 1, -100, 10, 1.0f64.to_bits(), raw(100, 50, 255)).unwrap();
    let right = snapshot_from_capture("s".into(), 2, 0, 0, 1.0f64.to_bits(), raw(200, 80, 255)).unwrap();
    let windows = vec![
        WindowBounds { id: 5, x: -50, y: 20, width: 100, height: 10 },
        WindowBounds { id: 6, x: 500, y: 0, width: 10, height: 10 },
    ];
    let placed = place_on_desktop(vec![left, right], &windows).unwrap();
    assert_eq!(placed.len(), 2);
    for snapshot in &placed {
        assert_eq!(
            (snapshot.info.desktop_x, snapshot.info.desktop_y, snapshot.info.desktop_width, snapshot.info.desktop_height),
            (-100, 0, 300, 80)
        );
    }
    let regions = &placed[0].info.window_regions;
    assert_eq!(regions.len(), 1);
    assert_eq!((regions[0].window_id, regions[0].x, regions[0].y, regions[0].width, regions[0].height), (5, 50, 10, 50, 10));
    let regions = &placed[1].info.window_regions;
    assert_eq!(regions.len(), 1);
    assert_eq!((regions[0].x, regions[0].y, regions[0].width, regions[0].height), (0, 20, 50, 10));
    assert_eq!(placed[1].image.width, 200);
}

#[test]
fn refuses_an_empty_desktop() {
    assert_eq!(place_on_desktop(Vec::new(), &Vec::new()).err().unwrap(), "未找到显示器");
    assert_eq!(describe_desktop(&Vec::new(), &Vec::new()).err().unwrap(), "未找到显示器");
}

#[test]
fn clips_windows_to_a_monitor() {
    let windows = vec![
        WindowBounds { id: 1, x: -10, y: -10, width: 20, height: 20 },
        WindowBounds { id: 2, x: 90, y: 90, width: 20, height: 20 },
        WindowBounds { id: 3, x: 100, y: 0, width: 5, height: 5 },
    ];
    let regions = regions_for_monitor(&windows, 0, 0, 100, 100);
    assert_eq!(regions.len(), 2);
    assert_eq!((regions[0].window_id, regions[0].x, regions[0].y, regions[0].width, regions[0].height), (1, 0, 0, 10, 10));
    assert_eq!((regions[1].window_id, regions[1].x, regions[1].y, regions[1].width, regions[1].height), (2, 90, 90, 10, 10));
}

#[test]
fn snaps_only_to_other_visible_windows() {
    let window = WindowBounds { id: 1, x: 0, y: 0, width: 10, height: 10 };
    assert!(visible_window(false, Some(false), Some(window)).is_some());
    assert!(visible_window(true, Some(false), Some(window)).is_none());
    assert!(visible_window(false, Some(true), Some(window)).is_none());
    assert!(visible_window(false, None, Some(window)).is_none());
    assert!(visible_window(false, Some(false), None).is_none());
    let thin = WindowBounds { id: 2, x: 0, y: 0, width: 1, height: 10 };
    assert!(visible_window(false, Some(false), Some(thin)).is_none());
}
