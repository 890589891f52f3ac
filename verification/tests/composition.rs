use ww_ocr::capture::SnapshotInfo;
use ww_ocr::composition::{compose_rect, compose_selection};
use ww_ocr::session::{Pixels, Snapshot};

fn snapshot(monitor_id: u32, x: i32, y: i32, width: u32, height: u32, shade: u8) -> Snapshot {
    let mut rgba = Vec::new();
    for row in 0..height {
        for column in 0..width {
            rgba.extend_from_slice(&[shade, column as u8, row as u8, 255]);
        }
    }
    Snapshot {
        info: SnapshotInfo {
            session_id: "s".to_string(),
            monitor_id,
            monitor_x: x,
            monitor_y: y,
            width,
            height,
            desktop_x: 0,
            desktop_y: 0,
            desktop_width: 0,
            desktop_height: 0,
            window_regions: Vec::new(),
        },
        image: Pixels { width, height, rgba },
        preview_png: Vec::new(),
        x,
        y,
        scale_bits: 1.0f64.to_bits(),
    }
}

fn pixel(image: &Pixels, x: u32, y: u32) -> [u8; 4] {
    let start = 4 * (y * image.width + x) as usize;
    [image.rgba[start], image.rgba[start + 1], image.rgba[start + 2], image.rgba[start + 3]]
}

#[test]
fn composes_across_two_monitors() {
    let snapshots = vec![snapshot(1, 0, 0, 4, 4, 10), snapshot(2, 4, 0, 4, 4, 20)];
    let composed = compose_rect(&snapshots, 2, 1, 4, 2).unwrap();
    assert_eq!((composed.x, composed.y), (2, 1));
    assert_eq!((composed.image.width, composed.image.height), (4, 2));
    assert_eq!(composed.image.rgba.len(), 4 * 4 * 2);
    assert_eq!(pixel(&composed.image, 0, 0), [10, 2, 1, 255]);
    assert_eq!(pixel(&composed.image, 1, 1), [10, 3, 2, 255]);
    assert_eq!(pixel(&composed.image, 2, 0), [20, 0, 1, 255]);
    assert_eq!(pixel(&composed.image, 3, 1), [20, 1, 2, 255]);
}

#[test]
fn uncovered_points_are_opaque_black_and_later_monitors_win() {
    let snapshots = vec![snapshot(1, 0, 0, 4, 4, 10), snapshot(2, 2, 2, 4, 4, 20)];
    let composed = compose_rect(&snapshots, 0, 0, 6, 6).unwrap();
    assert_eq!(pixel(&composed.image, 5, 0), [0, 0, 0, 255]);
    assert_eq!(pixel(&composed.image, 0, 5), [0, 0, 0, 255]);
    assert_eq!(pixel(&composed.image, 3, 3), [20, 1, 1, 255]);
    assert_eq!(pixel(&composed.image, 1, 1), [10, 1, 1, 255]);
}

#[test]
fn refuses_selections_outside_the_desktop() {
    let snapshots = vec![snapshot(1, 0, 0, 4, 4, 10), snapshot(2, 6, 6, 4, 4, 20)];
    assert_eq!(compose_rect(&Vec::new(), 0, 0, 2, 2).err().unwrap(), "未找到显示器");
    assert_eq!(compose_rect(&snapshots, -1, 0, 2, 2).err().unwrap(), "截图选区超出虚拟桌面范围");
    assert_eq!(compose_rect(&snapshots, 9, 9, 2, 2).err().unwrap(), "截图选区超出虚拟桌面范围");
    assert_eq!(compose_rect(&snapshots, 4, 4, 2, 2).err().unwrap(), "截图选区不在任何显示器内");
}

#[test]
fn checks_the_selection_before_composing() {
    let snapshots = vec![snapshot(1, 0, 0, 4, 4, 10)];
    assert_eq!(compose_selection(&snapshots, 0, 0, 1, 4).err().unwrap(), "截图选区太小");
    assert_eq!(
        compose_selection(&snapshots, i64::from(i32::MIN) - 1, 0, 2, 2).err().unwrap(),
        "截图选区超出桌面范围"
    );
    let composed = compose_selection(&snapshots, 1, 1, 3, 4).unwrap();
    assert_eq!((composed.image.width, composed.image.height), (2, 3));
    assert_eq!(pixel(&composed.image, 1, 2), [10, 2, 3, 255]);
}
