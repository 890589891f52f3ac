//! Keyboard shortcuts of a capture, the native global shortcut settings, and
//! the tray menu.
use vstd::prelude::*;
use crate::text::text_equals;

verus! {

/// What a key pressed during a capture asks for.
#[derive(Clone, Copy, PartialEq, Eq, Structural)]
pub enum CaptureShortcutAction {
    Cancel,
    Confirm,
    Pin,
}

/// The shortcuts registered while a capture is selecting, with their actions.
pub open spec fn capture_shortcut_table() -> Seq<(Seq<char>, CaptureShortcutAction)> {
    seq![
        ("Escape"@, CaptureShortcutAction::Cancel),
        ("Control+C"@, CaptureShortcutAction::Confirm),
        ("Enter"@, CaptureShortcutAction::Confirm),
        ("Control+V"@, CaptureShortcutAction::Pin),
        ("Control+T"@, CaptureShortcutAction::Pin),
    ]
}

/// The shortcuts registered while a capture is selecting: Escape cancels,
/// Control+C and Enter confirm, Control+V and Control+T pin the selection.
pub fn capture_shortcuts() -> (table: Vec<(&'static str, CaptureShortcutAction)>)
    ensures
        table@.len() == capture_shortcut_table().len(),
        forall|i: int|
            0 <= i < table@.len() ==> (#[trigger] table@[i]).0@ == capture_shortcut_table()[i].0
                && table@[i].1 == capture_shortcut_table()[i].1,
{
    let mut table = Vec::new();
    table.push(("Escape", CaptureShortcutAction::Cancel));
    table.push(("Control+C", CaptureShortcutAction::Confirm));
    table.push(("Enter", CaptureShortcutAction::Confirm));
    table.push(("Control+V", CaptureShortcutAction::Pin));
    table.push(("Control+T", CaptureShortcutAction::Pin));
    table
}

/// The global shortcuts that work without the main window, and the workspace
/// that captures go to; `None` disables a shortcut.
pub struct NativeShortcutConfig {
    pub capture_shortcut: Option<String>,
    pub paste_shortcut: Option<String>,
    pub show_shortcut: Option<String>,
    pub workspace_id: Option<String>,
}

impl NativeShortcutConfig {
    /// F1 captures, F3 pastes the clipboard as a pin, Ctrl+Shift+O shows the
    /// main window, and captures go to the default workspace.
    pub fn default_config() -> (c: NativeShortcutConfig)
        ensures
            c.capture_shortcut matches Some(s) && s@ == "F1"@,
            c.paste_shortcut matches Some(s) && s@ == "F3"@,
            c.show_shortcut matches Some(s) && s@ == "CommandOrControl+Shift+O"@,
            c.workspace_id matches Some(s) && s@ == "default"@,
    {
        NativeShortcutConfig {
            capture_shortcut: Some("F1".to_owned()),
            paste_shortcut: Some("F3".to_owned()),
            show_shortcut: Some("CommandOrControl+Shift+O".to_owned()),
            workspace_id: Some("default".to_owned()),
        }
    }
}

/// Some two of the chosen shortcuts are the same key combination, each
/// shortcut given by its identifier (`None` for a disabled one).
pub open spec fn shortcuts_conflict(ids: Seq<Option<u32>>) -> bool {
    exists|i: int, j: int|
        0 <= i < j < ids.len() && ids[i] is Some && #[trigger] ids[i] == #[trigger] ids[j]
}

/// Two chosen shortcuts conflict exactly when some enabled shortcut occurs
/// in two different slots, whichever slots they are.
pub proof fn lemma_conflict_is_any_repeated_shortcut(ids: Seq<Option<u32>>)
    ensures
        forall|i: int, j: int|
            0 <= i < ids.len() && 0 <= j < ids.len() && i != j && (#[trigger] ids[i]) is Some && ids[i]
                == #[trigger] ids[j] ==> shortcuts_conflict(ids),
        !shortcuts_conflict(ids) ==> forall|i: int, j: int|
            0 <= i < ids.len() && 0 <= j < ids.len() && i != j && (#[trigger] ids[i]) is Some ==> ids[i]
                != #[trigger] ids[j],
{
    assert forall|i: int, j: int|
        0 <= i < ids.len() && 0 <= j < ids.len() && i != j && (#[trigger] ids[i]) is Some && ids[i]
            == #[trigger] ids[j] implies shortcuts_conflict(ids) by {
        if i < j {
            assert(ids[i] == ids[j]);
        } else {
            assert(ids[j] is Some && ids[j] == ids[i]);
        }
    }
}

/// Refuses a set of global shortcuts in which two enabled ones coincide.
pub fn check_shortcut_conflicts(ids: &Vec<Option<u32>>) -> (r: Result<(), String>)
    ensures
        r is Err <==> shortcuts_conflict(ids@),
        r matches Err(e) ==> e@ == "原生全局快捷键冲突"@,
        forall|i: int, j: int|
            0 <= i < j < ids@.len() && (#[trigger] ids@[i]) is Some && ids@[i] == #[trigger] ids@[j]
                ==> r is Err,
        r is Ok ==> forall|i: int, j: int|
            0 <= i < ids@.len() && 0 <= j < ids@.len() && i != j && (#[trigger] ids@[i]) is Some ==> ids@[i]
                != #[trigger] ids@[j],
{
    proof {
        lemma_conflict_is_any_repeated_shortcut(ids@);
    }
    let n = ids.len();
    for j in 0..n
        invariant
            n == ids@.len(),
            forall|a: int, b: int|
                0 <= a < b < j ==> !(ids@[a] is Some && #[trigger] ids@[a] == #[trigger] ids@[b]),
    {
        if let Some(id) = ids[j] {
            for i in 0..j
                invariant
                    n == ids@.len(),
                    j < n,
                    ids@[j as int] == Some(id),
                    forall|a: int, b: int|
                        0 <= a < b < j ==> !(ids@[a] is Some && #[trigger] ids@[a] == #[trigger] ids@[b]),
                    forall|a: int| 0 <= a < i ==> ids@[a] != Some(id),
            {
                if let Some(other) = ids[i] {
                    if other == id {
                        assert(ids@[i as int] is Some && ids@[i as int] == ids@[j as int]);
                        return Err("原生全局快捷键冲突".to_owned());
                    }
                }
            }
        }
    }
    Ok(())
}

/// What a pressed global shortcut starts.
pub enum NativeAction {
    /// A capture for the workspace.
    Capture(String),
    /// A pin of the clipboard's image in the workspace.
    Paste(String),
    /// Showing the main window.
    Show,
}

/// The action of the pressed shortcut `pressed` under the binding: the
/// capture shortcut first, then the paste shortcut, then the show shortcut;
/// captures and pastes go to the bound workspace, `default` when none is.
pub fn native_action(capture: Option<u32>, paste: Option<u32>, show: Option<u32>, workspace_id: Option<String>, pressed: u32) -> (r: Option<NativeAction>)
    ensures
        capture == Some(pressed) ==> (r matches Some(NativeAction::Capture(w)) && w@ == match workspace_id {
            Some(id) => id@,
            None => "default"@,
        }),
        capture != Some(pressed) && paste == Some(pressed) ==> (r matches Some(NativeAction::Paste(w)) && w@
            == match workspace_id {
            Some(id) => id@,
            None => "default"@,
        }),
        capture != Some(pressed) && paste != Some(pressed) && show == Some(pressed) ==> r matches Some(NativeAction::Show),
        r is None <==> capture != Some(pressed) && paste != Some(pressed) && show != Some(pressed),
{
    let workspace = match workspace_id {
        Some(id) => id,
        None => "default".to_owned(),
    };
    if capture == Some(pressed) {
        Some(NativeAction::Capture(workspace))
    } else if paste == Some(pressed) {
        Some(NativeAction::Paste(workspace))
    } else if show == Some(pressed) {
        Some(NativeAction::Show)
    } else {
        None
    }
}

/// An entry of the tray menu.
#[derive(Clone, Copy, PartialEq, Eq, Structural)]
pub enum TrayAction {
    Show,
    Capture,
    Quit,
}

/// The tray menu entry with identifier `id`.
pub open spec fn tray_action_of(id: Seq<char>) -> Option<TrayAction> {
    if id == "show"@ {
        Some(TrayAction::Show)
    } else if id == "capture"@ {
        Some(TrayAction::Capture)
    } else if id == "quit"@ {
        Some(TrayAction::Quit)
    } else {
        None
    }
}

/// Maps a tray menu event to its action; unknown entries are ignored.
pub fn tray_action(id: &str) -> (r: Option<TrayAction>)
    ensures
        r == tray_action_of(id@),
{
    if text_equals(id, "show") {
        Some(TrayAction::Show)
    } else if text_equals(id, "capture") {
        Some(TrayAction::Capture)
    } else if text_equals(id, "quit") {
        Some(TrayAction::Quit)
    } else {
        None
    }
}

} // verus!
