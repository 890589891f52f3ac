use ww_ocr::shortcut_apply::{ShortcutApply, ShortcutEvent, ShortcutStep};

fn run(persist: bool, desired: Vec<Option<u32>>, previous: Vec<Option<u32>>, mut answer: impl FnMut(ShortcutStep) -> ShortcutEvent) -> (ShortcutApply, Vec<ShortcutStep>) {
    let (mut plan, mut step) = ShortcutApply::begin(persist, desired, previous).unwrap();
    let mut steps = vec![step];
    while step != ShortcutStep::Done && step != ShortcutStep::Abort {
        step = plan.next(answer(step));
        steps.push(step);
    }
    (plan, steps)
}

fn all_succeed(step: ShortcutStep) -> ShortcutEvent {
    match step {
        ShortcutStep::Check(_) => ShortcutEvent::Answer(false),
        _ => ShortcutEvent::Succeeded,
    }
}

#[test]
fn refuses_the_same_shortcut_twice() {
    assert_eq!(
        ShortcutApply::begin(true, vec![Some(1), None, Some(1)], vec![None, None, None]).err().unwrap(),
        "原生全局快捷键冲突"
    );
}

#[test]
fn registers_new_shortcuts_unregisters_stale_ones_then_saves() {
    let (plan, steps) = run(true, vec![Some(1), Some(2), None], vec![Some(1), Some(3), None], all_succeed);
    assert!(steps == vec![
        ShortcutStep::Check(2),
        ShortcutStep::Register(2),
        ShortcutStep::Unregister(3),
        ShortcutStep::Save,
        ShortcutStep::Done,
    ]);
    assert_eq!(plan.active, vec![Some(1), Some(2), None]);
    assert_eq!(plan.added, vec![2]);
    assert_eq!(plan.removed, vec![3]);
}

#[test]
fn frees_a_shortcut_that_is_taken_before_registering_it() {
    let (_, steps) = run(false, vec![Some(4)], vec![None], |step| match step {
        ShortcutStep::Check(_) => ShortcutEvent::Answer(true),
        _ => ShortcutEvent::Succeeded,
    });
    assert!(steps == vec![ShortcutStep::Check(4), ShortcutStep::Unregister(4), ShortcutStep::Register(4), ShortcutStep::Done]);
}

#[test]
fn a_saved_change_aborts_on_the_first_failure() {
    let (plan, steps) = run(true, vec![Some(1), Some(2)], vec![None, None], |step| match step {
        ShortcutStep::Check(_) => ShortcutEvent::Answer(false),
        ShortcutStep::Register(2) => ShortcutEvent::Failed,
        _ => ShortcutEvent::Succeeded,
    });
    assert_eq!(steps.last(), Some(&ShortcutStep::Abort));
    assert_eq!(plan.added, vec![1]);
    let (plan, steps) = run(true, vec![Some(1)], vec![Some(9)], |step| match step {
        ShortcutStep::Check(_) => ShortcutEvent::Answer(false),
        ShortcutStep::Save => ShortcutEvent::Failed,
        _ => ShortcutEvent::Succeeded,
    });
    assert_eq!(steps.last(), Some(&ShortcutStep::Abort));
    assert_eq!((plan.added.clone(), plan.removed.clone()), (vec![1], vec![9]));
}

#[test]
fn an_unsaved_change_skips_a_shortcut_it_cannot_take() {
    let (plan, steps) = run(false, vec![Some(1), Some(2)], vec![None, None], |step| match step {
        ShortcutStep::Check(_) => ShortcutEvent::Answer(false),
        ShortcutStep::Register(1) => ShortcutEvent::Failed,
        _ => ShortcutEvent::Succeeded,
    });
    assert_eq!(steps.last(), Some(&ShortcutStep::Done));
    assert_eq!(plan.active, vec![None, Some(2)]);
    assert_eq!(plan.added, vec![2]);
}

#[test]
fn nothing_to_do_when_the_binding_is_unchanged() {
    let (_, steps) = run(false, vec![Some(1), None], vec![Some(1), None], all_succeed);
    assert!(steps == vec![ShortcutStep::Done]);
    let (_, steps) = run(true, vec![Some(1), None], vec![Some(1), None], all_succeed);
    assert!(steps == vec![ShortcutStep::Save, ShortcutStep::Done]);
}
