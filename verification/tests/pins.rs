use ww_ocr::pins::QuitState;
use ww_ocr::pins::{check_clipboard_pixels, clipboard_pixels, pin_size, pins_to_restore, PinRecord};

fn pin(id: &str, is_open: bool) -> PinRecord {
    PinRecord {
        id: id.to_string(),
        workspace_id: "default".into(),
        image_id: "i".into(),
        zoom_bits: 1.0f64.to_bits(),
        is_open,
        created_at: 0,
    }
}

#[test]
fn reopens_the_pins_that_were_open() {
    let ids = pins_to_restore(&vec![pin("a", true), pin("b", false), pin("c", true)]);
    assert_eq!(ids, vec!["a".to_string(), "c".to_string()]);
    assert!(pins_to_restore(&vec![]).is_empty());
}

#[test]
fn pin_sizes_fit_in_32_bits() {
    assert_eq!(pin_size(640, 480).unwrap(), (640, 480));
    assert_eq!(pin_size(-1, 480).err().unwrap(), "贴图宽度无效");
    assert_eq!(pin_size(1 << 32, 480).err().unwrap(), "贴图宽度无效");
    assert_eq!(pin_size(640, 1 << 40).err().unwrap(), "贴图高度无效");
}

#[test]
fn clipboard_images_need_all_their_pixels() {
    assert_eq!(clipboard_pixels(2, 2, vec![0; 15]).err().unwrap(), "剪贴板图片数据无效");
    let pixels = clipboard_pixels(2, 1, vec![1, 2, 3, 4, 5, 6, 7, 8, 9]).unwrap();
    assert_eq!(pixels.rgba, vec![1, 2, 3, 4, 5, 6, 7, 8]);
    let (_, import) = check_clipboard_pixels("default", &pixels).unwrap();
    assert_eq!(import.original_name, "剪贴板图片.png");
}

#[test]
fn quitting_keeps_pins_marked_open() {
    let mut state = QuitState::new();
    assert!(state.closes_pin());
    state.mark_quitting();
    assert!(!state.closes_pin());
}
