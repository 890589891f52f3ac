use ww_ocr::main_window::{IdleAction, MainWindowLifecycle};

#[test]
fn destroys_a_hidden_idle_window_only() {
    let mut lifecycle = MainWindowLifecycle::new();
    let ticket = lifecycle.schedule_idle_destroy();
    assert_eq!(ticket, 1);
    assert!(lifecycle.idle_action(ticket, false, true, false) == IdleAction::Destroy);
    assert!(lifecycle.idle_action(ticket, true, true, false) == IdleAction::Reschedule);
    assert!(lifecycle.idle_action(ticket, false, true, true) == IdleAction::Stop);
    assert!(lifecycle.idle_action(ticket, false, false, false) == IdleAction::Stop);
}

#[test]
fn showing_the_window_cancels_the_pending_destroy() {
    let mut lifecycle = MainWindowLifecycle::new();
    let ticket = lifecycle.schedule_idle_destroy();
    lifecycle.cancel_pending_destroy();
    assert!(lifecycle.idle_action(ticket, false, true, false) == IdleAction::Stop);
    let later = lifecycle.schedule_idle_destroy();
    assert!(lifecycle.idle_action(later, false, true, false) == IdleAction::Destroy);
}

#[test]
fn the_generation_wraps_around() {
    let mut lifecycle = MainWindowLifecycle { generation: u64::MAX };
    assert_eq!(lifecycle.schedule_idle_destroy(), 0);
}
