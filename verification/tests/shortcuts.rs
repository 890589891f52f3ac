use ww_ocr::shortcuts::{native_action, NativeAction};
use ww_ocr::shortcuts::{
    capture_shortcuts, check_shortcut_conflicts, tray_action, CaptureShortcutAction,
    NativeShortcutConfig, TrayAction,
};

#[test]
fn capture_keys() {
    let table = capture_shortcuts();
    let names: Vec<&str> = table.iter().map(|(name, _)| *name).collect();
    assert_eq!(names, vec!["Escape", "Control+C", "Enter", "Control+V", "Control+T"]);
    assert!(table[0].1 == CaptureShortcutAction::Cancel);
    assert!(table[2].1 == CaptureShortcutAction::Confirm);
    assert!(table[4].1 == CaptureShortcutAction::Pin);
}

#[test]
fn default_native_shortcuts() {
    let config = NativeShortcutConfig::default_config();
    assert_eq!(config.capture_shortcut.as_deref(), Some("F1"));
    assert_eq!(config.paste_shortcut.as_deref(), Some("F3"));
    assert_eq!(config.show_shortcut.as_deref(), Some("CommandOrControl+Shift+O"));
    assert_eq!(config.workspace_id.as_deref(), Some("default"));
}

#[test]
fn enabled_shortcuts_must_differ() {
    assert!(check_shortcut_conflicts(&vec![Some(1), Some(2), None]).is_ok());
    assert!(check_shortcut_conflicts(&vec![None, None, None]).is_ok());
    assert_eq!(check_shortcut_conflicts(&vec![Some(1), None, Some(1)]).err().unwrap(), "原生全局快捷键冲突");
}

#[test]
fn tray_entries() {
    assert!(tray_action("show") == Some(TrayAction::Show));
    assert!(tray_action("capture") == Some(TrayAction::Capture));
    assert!(tray_action("quit") == Some(TrayAction::Quit));
    assert!(tray_action("other").is_none());
}

#[test]
fn pressed_shortcuts_start_their_action() {
    match native_action(Some(1), Some(2), Some(3), None, 1) {
        Some(NativeAction::Capture(workspace)) => assert_eq!(workspace, "default"),
        _ => panic!("capture expected"),
    }
    match native_action(Some(1), Some(2), Some(3), Some("w".into()), 2) {
        Some(NativeAction::Paste(workspace)) => assert_eq!(workspace, "w"),
        _ => panic!("paste expected"),
    }
    assert!(matches!(native_action(None, None, Some(3), None, 3), Some(NativeAction::Show)));
    assert!(native_action(Some(1), None, None, None, 9).is_none());
}
