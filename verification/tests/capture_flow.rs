use ww_ocr::capture::{label, selection_pixels, SnapshotInfo};
use ww_ocr::capture_actions::{
    begin_session, cancel_session, capture_action, finish_selection, host_session, preview_bytes,
    preview_ready, restore_pending, snapshot_info, specs, CaptureAction,
};
use ww_ocr::session::{Pixels, Session, Snapshot};

fn snapshot(monitor_id: u32, x: i32, y: i32, width: u32, height: u32) -> Snapshot {
    let mut rgba = Vec::new();
    for row in 0..height {
        for column in 0..width {
            rgba.extend_from_slice(&[monitor_id as u8, column as u8, row as u8, 255]);
        }
    }
    Snapshot {
        info: SnapshotInfo {
            session_id: "session".to_string(),
            monitor_id,
            monitor_x: x,
            monitor_y: y,
            width,
            height,
            desktop_x: 0,
            desktop_y: 0,
            desktop_width: 0,
            desktop_height: 0,
            window_regions: Vec::new(),
        },
        image: Pixels { width, height, rgba },
        preview_png: vec![monitor_id as u8, 1, 2],
        x,
        y,
        scale_bits: 1.5f64.to_bits(),
    }
}

fn selecting_session() -> Option<Session> {
    let mut session = begin_session(&None, true, "session".to_string(), "default".to_string()).unwrap();
    session
        .install_snapshots(vec![snapshot(7, 0, 0, 8, 8), snapshot(9, 8, 0, 8, 8)])
        .unwrap();
    assert!(!session.mark_preview_ready(7).unwrap());
    assert!(session.mark_preview_ready(9).unwrap());
    Some(session)
}

#[test]
fn scales_selection_and_checks_bounds() {
    assert_eq!(selection_pixels(-500, 200, 500, 800).unwrap(), (-500, 200, 1000, 600));
    assert!(selection_pixels(0, 0, 1, 1).is_err());
}

#[test]
fn labels_name_the_monitor() {
    assert_eq!(label(0), "capture_0");
    assert_eq!(label(4294967295), "capture_4294967295");
}

#[test]
fn parses_the_three_actions() {
    assert!(capture_action("pin") == Some(CaptureAction::Pin));
    assert!(capture_action("ocr") == Some(CaptureAction::Ocr));
    assert!(capture_action("copy") == Some(CaptureAction::Copy));
    assert!(capture_action("save").is_none());
    assert!(capture_action("").is_none());
}

#[test]
fn starts_only_one_capture_for_an_existing_workspace() {
    let running = selecting_session();
    assert_eq!(
        begin_session(&running, true, "b".into(), "default".into()).err().unwrap(),
        "已有截图正在进行，请完成或按 Esc 取消"
    );
    assert_eq!(begin_session(&None, false, "b".into(), "w".into()).err().unwrap(), "工作区不存在");
    let fresh = begin_session(&None, true, "b".into(), "w".into()).unwrap();
    assert_eq!(fresh.id, "b");
    assert_eq!(fresh.workspace_id, "w");
    assert!(fresh.snapshots.is_empty());
}

#[test]
fn finishing_checks_the_request_in_order() {
    let mut state = selecting_session();
    let refuse = |state: &mut Option<Session>, window: &str, id: &str, monitor: u32, right: i64, action: &str| {
        finish_selection(state, window, id, monitor, Some((1, 1, right, 5)), action).err().unwrap()
    };
    assert_eq!(refuse(&mut state, "capture_7", "session", 7, 5, "save"), "截图操作无效");
    assert_eq!(refuse(&mut state, "capture_9", "session", 7, 5, "pin"), "无权操作该截图");
    assert_eq!(refuse(&mut state, "capture_7", "other", 7, 5, "pin"), "截图会话已结束");
    assert_eq!(refuse(&mut state, "capture_3", "session", 3, 5, "pin"), "显示器不存在");
    assert_eq!(refuse(&mut state, "capture_7", "session", 7, 2, "pin"), "截图选区太小");
    assert_eq!(refuse(&mut state, "capture_7", "session", 7, 40, "pin"), "截图选区超出虚拟桌面范围");
    assert_eq!(
        finish_selection(&mut state, "capture_7", "session", 7, None, "pin").err().unwrap(),
        "截图选区无效"
    );
    assert_eq!(
        finish_selection(&mut state, "capture_7", "session", 7, None, "save").err().unwrap(),
        "截图操作无效"
    );
    assert!(state.is_some());

    let finished = finish_selection(&mut state, "capture_7", "session", 7, Some((6, 1, 10, 3)), "copy").unwrap();
    assert!(state.is_none());
    assert!(finished.action == CaptureAction::Copy);
    assert_eq!(finished.session.id, "session");
    assert_eq!((finished.composed.x, finished.composed.y), (6, 1));
    assert_eq!((finished.composed.image.width, finished.composed.image.height), (4, 2));
    // Columns 6 and 7 come from monitor 7, columns 8 and 9 from monitor 9.
    assert_eq!(&finished.composed.image.rgba[0..4], &[7, 6, 1, 255]);
    assert_eq!(&finished.composed.image.rgba[8..12], &[9, 0, 1, 255]);
    assert!(finished.session.ensure_selecting().is_err());
    assert_eq!(
        finish_selection(&mut state, "capture_7", "session", 7, Some((6, 1, 10, 3)), "copy").err().unwrap(),
        "截图会话已结束"
    );
}

#[test]
fn finishing_needs_every_preview() {
    let mut session = Session::new("s".into(), "default".into());
    session.install_snapshots(vec![snapshot(1, 0, 0, 4, 4), snapshot(2, 4, 0, 4, 4)]).unwrap();
    session.mark_preview_ready(1).unwrap();
    let mut state = Some(session);
    assert_eq!(
        finish_selection(&mut state, "capture_1", "s", 1, Some((0, 0, 3, 3)), "pin").err().unwrap(),
        "截图预览尚未准备完成"
    );
}

#[test]
fn previews_and_descriptions_go_to_their_own_window() {
    let state = selecting_session();
    assert_eq!(preview_bytes(&state, "capture_9", "session", 9).unwrap(), vec![9, 1, 2]);
    assert_eq!(preview_bytes(&state, "capture_7", "session", 9).err().unwrap(), "无权访问该截图预览");
    assert_eq!(preview_bytes(&state, "capture_9", "old", 9).err().unwrap(), "截图会话已结束");
    assert_eq!(preview_bytes(&state, "capture_3", "session", 3).err().unwrap(), "显示器截图不存在");
    assert_eq!(preview_bytes(&None, "capture_9", "session", 9).err().unwrap(), "截图会话已结束");

    let info = snapshot_info(&state, "capture_7", "session", 7).unwrap();
    assert_eq!((info.monitor_id, info.width, info.height), (7, 8, 8));
    assert_eq!(snapshot_info(&state, "main", "session", 7).err().unwrap(), "无权访问该截图窗口");
    assert_eq!(snapshot_info(&state, "capture_3", "session", 3).err().unwrap(), "显示器截图不存在");

    assert_eq!(host_session(&state, "capture_7", 7).unwrap(), Some("session".to_string()));
    assert_eq!(host_session(&state, "capture_3", 3).unwrap(), None);
    assert_eq!(host_session(&None, "capture_7", 7).unwrap(), None);
    assert_eq!(host_session(&state, "capture_9", 7).err().unwrap(), "无权初始化该截图窗口");
}

#[test]
fn selection_starts_once_every_preview_is_shown() {
    let mut session = Session::new("s".into(), "default".into());
    session.install_snapshots(vec![snapshot(1, 0, 0, 4, 4), snapshot(2, 4, 0, 4, 4)]).unwrap();
    let mut state = Some(session);
    assert_eq!(preview_ready(&mut state, "capture_2", "s", 1).err().unwrap(), "无权显示该截图窗口");
    assert_eq!(preview_ready(&mut state, "capture_1", "x", 1).err().unwrap(), "截图会话已结束");
    assert_eq!(preview_ready(&mut state, "capture_5", "s", 5).err().unwrap(), "显示器截图不存在");
    assert!(!preview_ready(&mut state, "capture_1", "s", 1).unwrap());
    assert!(!preview_ready(&mut state, "capture_1", "s", 1).unwrap());
    assert!(state.as_ref().unwrap().ensure_selecting().is_err());
    assert!(preview_ready(&mut state, "capture_2", "s", 2).unwrap());
    assert!(state.as_ref().unwrap().ensure_selecting().is_ok());
    assert!(!preview_ready(&mut state, "capture_2", "s", 2).unwrap());
}

#[test]
fn only_the_main_window_or_a_capture_window_cancels() {
    let mut state = selecting_session();
    assert_eq!(cancel_session(&mut state, "main", "other").err().unwrap(), "截图会话已结束");
    assert_eq!(cancel_session(&mut state, "capture_3", "session").err().unwrap(), "无权取消该截图");
    assert!(state.is_some());
    let session = cancel_session(&mut state, "capture_9", "session").unwrap();
    assert_eq!(session.id, "session");
    assert!(state.is_none());
    let mut state = selecting_session();
    assert!(cancel_session(&mut state, "main", "session").is_ok());
    assert!(state.is_none());
    assert_eq!(cancel_session(&mut state, "main", "session").err().unwrap(), "截图会话已结束");
}

#[test]
fn a_pinned_session_returns_unless_another_took_its_place() {
    let session = Session::new("a".into(), "default".into());
    let mut state: Option<Session> = None;
    assert!(restore_pending(&mut state, session).is_none());
    assert_eq!(state.as_ref().unwrap().id, "a");
    let other = Session::new("b".into(), "default".into());
    let back = restore_pending(&mut state, other).unwrap();
    assert_eq!(back.id, "b");
    assert_eq!(state.unwrap().id, "a");
}

#[test]
fn one_selection_window_per_monitor() {
    let windows = specs(&vec![snapshot(7, -10, 5, 8, 6), snapshot(9, 8, 0, 4, 4)]);
    assert_eq!(windows.len(), 2);
    assert_eq!(
        (windows[0].monitor_id, windows[0].x, windows[0].y, windows[0].width, windows[0].height),
        (7, -10, 5, 8, 6)
    );
    assert_eq!(f64::from_bits(windows[1].scale_bits), 1.5);
}
