//! The decisions of the capture flow: who may act on the capture in
//! progress, and what each request does to it.
use vstd::prelude::*;
use crate::capture::{label, label_of, selection_error, SnapshotInfo, WindowRegion};
use crate::composition::{compose_error, compose_selection, composed_from, snapshots_wf, within_desktop, ComposedCapture};
use crate::session::{after_preview_ready, has_monitor, Phase, Session, Snapshot};
use crate::text::text_equals;

verus! {

/// What the user asked to do with a finished selection.
#[derive(Clone, Copy, PartialEq, Eq, Structural)]
pub enum CaptureAction {
    Pin,
    Ocr,
    Copy,
}

pub open spec fn capture_action_of(name: Seq<char>) -> Option<CaptureAction> {
    if name == "pin"@ {
        Some(CaptureAction::Pin)
    } else if name == "ocr"@ {
        Some(CaptureAction::Ocr)
    } else if name == "copy"@ {
        Some(CaptureAction::Copy)
    } else {
        None
    }
}

/// The action named `name`: `pin`, `ocr` or `copy`.
pub fn capture_action(name: &str) -> (r: Option<CaptureAction>)
    ensures
        r == capture_action_of(name@),
{
    if text_equals(name, "pin") {
        Some(CaptureAction::Pin)
    } else if text_equals(name, "ocr") {
        Some(CaptureAction::Ocr)
    } else if text_equals(name, "copy") {
        Some(CaptureAction::Copy)
    } else {
        None
    }
}

/// A capture is in progress and its id is `session_id`.
pub open spec fn active_session(state: Option<Session>, session_id: Seq<char>) -> bool {
    state matches Some(s) && s.id@ == session_id
}

/// The session in `state`, which is only meaningful when there is one.
pub open spec fn current(state: Option<Session>) -> Session {
    state->Some_0
}

/// The same session, in the finishing phase.
pub open spec fn finished_from(done: Session, was: Session) -> bool {
    &&& done.id@ == was.id@
    &&& done.workspace_id@ == was.workspace_id@
    &&& done.snapshots@ == was.snapshots@
    &&& done.shortcuts_registered == was.shortcuts_registered
    &&& done.phase() == Phase::Finishing
}

/// Why a request to finish the capture is refused, if it is: the checks are
/// made in this order. The selection is given by its edges rounded outward
/// to whole pixels, or `None` when it is not a usable rectangle (an empty
/// or non-finite one).
pub open spec fn finish_refusal(
    state: Option<Session>,
    window: Seq<char>,
    session_id: Seq<char>,
    monitor_id: u32,
    selection: Option<(i64, i64, i64, i64)>,
    action: Seq<char>,
) -> Option<Seq<char>> {
    let session = current(state);
    if capture_action_of(action) is None {
        Some("截图操作无效"@)
    } else if window != label_of(monitor_id) {
        Some("无权操作该截图"@)
    } else if !active_session(state, session_id) {
        Some("截图会话已结束"@)
    } else if session.phase() == Phase::Finishing {
        Some("截图正在完成"@)
    } else if session.phase() != Phase::Selecting {
        Some("截图预览尚未准备完成"@)
    } else if !has_monitor(session.snapshots@, monitor_id) {
        Some("显示器不存在"@)
    } else {
        match selection {
            None => Some("截图选区无效"@),
            Some((left, top, right, bottom)) => if selection_error(left as int, top as int, right as int, bottom as int) is Some {
                selection_error(left as int, top as int, right as int, bottom as int)
            } else {
                compose_error(session.snapshots@, left as int, top as int, right - left, bottom - top)
            },
        }
    }
}

/// The composed image could be too large for memory only when the
/// selection lies on the desktop of the session in `state`.
pub open spec fn selection_fits(state: Option<Session>, selection: Option<(i64, i64, i64, i64)>) -> bool {
    match (selection, state) {
        (Some((left, top, right, bottom)), Some(s)) => selection_error(left as int, top as int, right as int, bottom as int) is None
            && s.snapshots@.len() > 0 && within_desktop(s.snapshots@, left as int, top as int, right - left, bottom - top)
            ==> 4 * (right - left) * (bottom - top) <= usize::MAX,
        _ => true,
    }
}

/// A finished capture: the session, taken out of the capture state in its
/// finishing phase, the composed selection, and the action to take.
pub struct FinishedCapture {
    pub session: Session,
    pub composed: ComposedCapture,
    pub action: CaptureAction,
}

/// The captures of the session in `state` are whole, when there is one.
pub open spec fn state_wf(state: Option<Session>) -> bool {
    state matches Some(s) ==> snapshots_wf(s.snapshots@)
}

/// Finishes the capture `session_id` from the selection window of monitor
/// `monitor_id` (whose label is `window`), with the selection whose edges,
/// rounded outward, are `left`, `top`, `right`, `bottom`. On success the
/// session leaves `state`, in its finishing phase, with the composed image;
/// a refused request leaves `state` as it was.
pub fn finish_selection(
    state: &mut Option<Session>,
    window: &str,
    session_id: &str,
    monitor_id: u32,
    selection: Option<(i64, i64, i64, i64)>,
    action: &str,
) -> (r: Result<FinishedCapture, String>)
    requires
        state_wf(*old(state)),
        selection_fits(*old(state), selection),
    ensures
        r is Err <==> finish_refusal(*old(state), window@, session_id@, monitor_id, selection, action@) is Some,
        r matches Err(e) ==> Some(e@) == finish_refusal(*old(state), window@, session_id@, monitor_id, selection, action@),
        r is Err ==> *final(state) == *old(state),
        r matches Ok(f) ==> {
            &&& *final(state) is None
            &&& finished_from(f.session, current(*old(state)))
            &&& Some(f.action) == capture_action_of(action@)
            &&& selection matches Some((left, top, right, bottom))
            &&& f.composed.x == left && f.composed.y == top
            &&& f.composed.image.width == right - left && f.composed.image.height == bottom - top
            &&& composed_from(f.composed.image, current(*old(state)).snapshots@, left as int, top as int)
        },
{
    let chosen = match capture_action(action) {
        Some(a) => a,
        None => {
            return Err("截图操作无效".to_owned());
        },
    };
    let expected = label(monitor_id);
    if !text_equals(window, expected.as_str()) {
        return Err("无权操作该截图".to_owned());
    }
    let taken = state.take();
    let mut session = match taken {
        Some(s) => s,
        None => {
            return Err("截图会话已结束".to_owned());
        },
    };
    if !text_equals(session.id.as_str(), session_id) {
        *state = Some(session);
        return Err("截图会话已结束".to_owned());
    }
    match session.ensure_selecting() {
        Ok(()) => {},
        Err(e) => {
            *state = Some(session);
            return Err(e);
        },
    }
    if !snapshots_have_monitor(&session.snapshots, monitor_id) {
        *state = Some(session);
        return Err("显示器不存在".to_owned());
    }
    let (left, top, right, bottom) = match selection {
        Some(edges) => edges,
        None => {
            *state = Some(session);
            return Err("截图选区无效".to_owned());
        },
    };
    let composed = match compose_selection(&session.snapshots, left, top, right, bottom) {
        Ok(c) => c,
        Err(e) => {
            *state = Some(session);
            return Err(e);
        },
    };
    let ghost was = session;
    match session.begin_finishing() {
        Ok(()) => {},
        Err(e) => {
            *state = Some(session);
            return Err(e);
        },
    }
    assert(finished_from(session, was));
    Ok(FinishedCapture { session, composed, action: chosen })
}

/// Whether some capture of `snapshots` shows monitor `monitor_id`.
pub fn snapshots_have_monitor(snapshots: &Vec<Snapshot>, monitor_id: u32) -> (r: bool)
    ensures
        r == has_monitor(snapshots@, monitor_id),
{
    let mut k: usize = 0;
    while k < snapshots.len()
        invariant
            0 <= k <= snapshots@.len(),
            forall|j: int| 0 <= j < k ==> (#[trigger] snapshots@[j]).info.monitor_id != monitor_id,
        decreases snapshots@.len() - k,
    {
        if snapshots[k].info.monitor_id == monitor_id {
            assert(has_monitor(snapshots@, monitor_id));
            return true;
        }
        k = k + 1;
    }
    false
}

/// The position of the first capture of monitor `monitor_id`, if any.
pub open spec fn first_capture_of(snapshots: Seq<Snapshot>, monitor_id: u32) -> Option<int> {
    if has_monitor(snapshots, monitor_id) {
        Some(
            choose|i: int|
                0 <= i < snapshots.len() && snapshots[i].info.monitor_id == monitor_id && forall|j: int|
                    0 <= j < i ==> (#[trigger] snapshots[j]).info.monitor_id != monitor_id,
        )
    } else {
        None
    }
}

/// Finds the first capture of monitor `monitor_id`.
pub fn find_capture(snapshots: &Vec<Snapshot>, monitor_id: u32) -> (r: Option<usize>)
    ensures
        r is None <==> !has_monitor(snapshots@, monitor_id),
        r matches Some(i) ==> i < snapshots@.len() && snapshots@[i as int].info.monitor_id == monitor_id
            && forall|j: int| 0 <= j < i ==> (#[trigger] snapshots@[j]).info.monitor_id != monitor_id,
{
    let mut k: usize = 0;
    while k < snapshots.len()
        invariant
            0 <= k <= snapshots@.len(),
            forall|j: int| 0 <= j < k ==> (#[trigger] snapshots@[j]).info.monitor_id != monitor_id,
        decreases snapshots@.len() - k,
    {
        if snapshots[k].info.monitor_id == monitor_id {
            return Some(k);
        }
        k = k + 1;
    }
    None
}

/// The encoded preview of monitor `monitor_id`, for its selection window.
pub fn preview_bytes(state: &Option<Session>, window: &str, session_id: &str, monitor_id: u32) -> (r: Result<Vec<u8>, String>)
    ensures
        window@ != label_of(monitor_id) ==> (r matches Err(e) && e@ == "无权访问该截图预览"@),
        window@ == label_of(monitor_id) && !active_session(*state, session_id@) ==> (r matches Err(e) && e@ == "截图会话已结束"@),
        window@ == label_of(monitor_id) && active_session(*state, session_id@) && !has_monitor(current(*state).snapshots@, monitor_id)
            ==> (r matches Err(e) && e@ == "显示器截图不存在"@),
        r is Ok <==> window@ == label_of(monitor_id) && active_session(*state, session_id@) && has_monitor(current(*state).snapshots@, monitor_id),
        r matches Ok(bytes) ==> exists|i: int| 0 <= i < current(*state).snapshots@.len()
            && current(*state).snapshots@[i].info.monitor_id == monitor_id
            && (forall|j: int| 0 <= j < i ==> (#[trigger] current(*state).snapshots@[j]).info.monitor_id != monitor_id)
            && bytes@ == current(*state).snapshots@[i].preview_png@,
{
    let expected = label(monitor_id);
    if !text_equals(window, expected.as_str()) {
        return Err("无权访问该截图预览".to_owned());
    }
    let session = match state {
        Some(s) => s,
        None => {
            return Err("截图会话已结束".to_owned());
        },
    };
    if !text_equals(session.id.as_str(), session_id) {
        return Err("截图会话已结束".to_owned());
    }
    match find_capture(&session.snapshots, monitor_id) {
        Some(i) => Ok(session.snapshots[i].preview_png.clone()),
        None => Err("显示器截图不存在".to_owned()),
    }
}

/// The two descriptions are the same.
pub open spec fn same_info(a: SnapshotInfo, b: SnapshotInfo) -> bool {
    &&& a.session_id@ == b.session_id@
    &&& a.monitor_id == b.monitor_id
    &&& a.monitor_x == b.monitor_x
    &&& a.monitor_y == b.monitor_y
    &&& a.width == b.width
    &&& a.height == b.height
    &&& a.desktop_x == b.desktop_x
    &&& a.desktop_y == b.desktop_y
    &&& a.desktop_width == b.desktop_width
    &&& a.desktop_height == b.desktop_height
    &&& a.window_regions@ == b.window_regions@
}

/// A copy of a capture's description.
pub fn copy_info(info: &SnapshotInfo) -> (r: SnapshotInfo)
    ensures
        same_info(r, *info),
{
    let mut regions: Vec<WindowRegion> = Vec::new();
    let mut k: usize = 0;
    while k < info.window_regions.len()
        invariant
            0 <= k <= info.window_regions@.len(),
            regions@ == info.window_regions@.take(k as int),
        decreases info.window_regions@.len() - k,
    {
        let region = info.window_regions[k];
        regions.push(region);
        k = k + 1;
        assert(regions@ =~= info.window_regions@.take(k as int));
    }
    assert(regions@ =~= info.window_regions@);
    SnapshotInfo {
        session_id: info.session_id.clone(),
        monitor_id: info.monitor_id,
        monitor_x: info.monitor_x,
        monitor_y: info.monitor_y,
        width: info.width,
        height: info.height,
        desktop_x: info.desktop_x,
        desktop_y: info.desktop_y,
        desktop_width: info.desktop_width,
        desktop_height: info.desktop_height,
        window_regions: regions,
    }
}

/// The description of monitor `monitor_id`'s capture, for its selection
/// window.
pub fn snapshot_info(state: &Option<Session>, window: &str, session_id: &str, monitor_id: u32) -> (r: Result<SnapshotInfo, String>)
    ensures
        window@ != label_of(monitor_id) ==> (r matches Err(e) && e@ == "无权访问该截图窗口"@),
        window@ == label_of(monitor_id) && !active_session(*state, session_id@) ==> (r matches Err(e) && e@ == "截图会话已结束"@),
        window@ == label_of(monitor_id) && active_session(*state, session_id@) && !has_monitor(current(*state).snapshots@, monitor_id)
            ==> (r matches Err(e) && e@ == "显示器截图不存在"@),
        r is Ok <==> window@ == label_of(monitor_id) && active_session(*state, session_id@) && has_monitor(current(*state).snapshots@, monitor_id),
        r matches Ok(info) ==> exists|i: int| 0 <= i < current(*state).snapshots@.len()
            && current(*state).snapshots@[i].info.monitor_id == monitor_id
            && (forall|j: int| 0 <= j < i ==> (#[trigger] current(*state).snapshots@[j]).info.monitor_id != monitor_id)
            && same_info(info, current(*state).snapshots@[i].info),
{
    let expected = label(monitor_id);
    if !text_equals(window, expected.as_str()) {
        return Err("无权访问该截图窗口".to_owned());
    }
    let session = match state {
        Some(s) => s,
        None => {
            return Err("截图会话已结束".to_owned());
        },
    };
    if !text_equals(session.id.as_str(), session_id) {
        return Err("截图会话已结束".to_owned());
    }
    match find_capture(&session.snapshots, monitor_id) {
        Some(i) => Ok(copy_info(&session.snapshots[i].info)),
        None => Err("显示器截图不存在".to_owned()),
    }
}

/// The id of the capture that the selection window of monitor `monitor_id`
/// belongs to, if a capture in progress shows that monitor.
pub fn host_session(state: &Option<Session>, window: &str, monitor_id: u32) -> (r: Result<Option<String>, String>)
    ensures
        window@ != label_of(monitor_id) ==> (r matches Err(e) && e@ == "无权初始化该截图窗口"@),
        r is Ok <==> window@ == label_of(monitor_id),
        r matches Ok(found) ==> (found is Some <==> (*state matches Some(s) && has_monitor(s.snapshots@, monitor_id))),
        r matches Ok(Some(id)) ==> id@ == current(*state).id@,
{
    let expected = label(monitor_id);
    if !text_equals(window, expected.as_str()) {
        return Err("无权初始化该截图窗口".to_owned());
    }
    match state {
        Some(s) => {
            if snapshots_have_monitor(&s.snapshots, monitor_id) {
                Ok(Some(s.id.clone()))
            } else {
                Ok(None)
            }
        },
        None => Ok(None),
    }
}

/// Records that the selection window of monitor `monitor_id` shows its
/// preview. Returns whether every monitor's preview is now shown, so that
/// the selection windows can be revealed.
pub fn preview_ready(state: &mut Option<Session>, window: &str, session_id: &str, monitor_id: u32) -> (r: Result<bool, String>)
    ensures
        window@ != label_of(monitor_id) ==> (r matches Err(e) && e@ == "无权显示该截图窗口"@),
        window@ == label_of(monitor_id) && !active_session(*old(state), session_id@) ==> (r matches Err(e) && e@ == "截图会话已结束"@),
        window@ != label_of(monitor_id) || !active_session(*old(state), session_id@) ==> *final(state) == *old(state),
        window@ == label_of(monitor_id) && active_session(*old(state), session_id@) ==> {
            let was = current(*old(state));
            let now = current(*final(state));
            &&& *final(state) is Some
            &&& now.id@ == was.id@
            &&& now.workspace_id@ == was.workspace_id@
            &&& now.snapshots@ == was.snapshots@
            &&& now.shortcuts_registered == was.shortcuts_registered
            &&& !has_monitor(was.snapshots@, monitor_id) ==> (r matches Err(e) && e@ == "显示器截图不存在"@)
            &&& has_monitor(was.snapshots@, monitor_id) && after_preview_ready(was.phase(), was.snapshots@.len(), monitor_id) is None
                ==> (r matches Err(e) && e@ == "截图会话尚未准备完成"@)
            &&& r is Ok <==> has_monitor(was.snapshots@, monitor_id) && after_preview_ready(was.phase(), was.snapshots@.len(), monitor_id) is Some
            &&& r matches Ok(all) ==> after_preview_ready(was.phase(), was.snapshots@.len(), monitor_id) == Some((now.phase(), all))
            &&& r is Err ==> now.phase() == was.phase()
        },
{
    let expected = label(monitor_id);
    if !text_equals(window, expected.as_str()) {
        return Err("无权显示该截图窗口".to_owned());
    }
    let taken = state.take();
    let mut session = match taken {
        Some(s) => s,
        None => {
            return Err("截图会话已结束".to_owned());
        },
    };
    if !text_equals(session.id.as_str(), session_id) {
        *state = Some(session);
        return Err("截图会话已结束".to_owned());
    }
    let r = session.mark_preview_ready(monitor_id);
    *state = Some(session);
    r
}

/// Ends the capture `session_id` at the request of `window`: the main
/// window, or the selection window of one of its monitors. The session
/// leaves `state` so that its windows can be hidden.
pub fn cancel_session(state: &mut Option<Session>, window: &str, session_id: &str) -> (r: Result<Session, String>)
    ensures
        !active_session(*old(state), session_id@) ==> (r matches Err(e) && e@ == "截图会话已结束"@),
        active_session(*old(state), session_id@) && window@ != "main"@ && !(exists|i: int|
            0 <= i < current(*old(state)).snapshots@.len() && window@ == label_of(
                #[trigger] current(*old(state)).snapshots@[i].info.monitor_id,
            )) ==> (r matches Err(e) && e@ == "无权取消该截图"@),
        r is Ok <==> active_session(*old(state), session_id@) && (window@ == "main"@ || exists|i: int|
            0 <= i < current(*old(state)).snapshots@.len() && window@ == label_of(
                #[trigger] current(*old(state)).snapshots@[i].info.monitor_id,
            )),
        r is Err ==> *final(state) == *old(state),
        r matches Ok(s) ==> *final(state) is None && Some(s) == *old(state),
{
    let taken = state.take();
    let session = match taken {
        Some(s) => s,
        None => {
            return Err("截图会话已结束".to_owned());
        },
    };
    if !text_equals(session.id.as_str(), session_id) {
        *state = Some(session);
        return Err("截图会话已结束".to_owned());
    }
    if text_equals(window, "main") {
        return Ok(session);
    }
    let mut k: usize = 0;
    while k < session.snapshots.len()
        invariant
            0 <= k <= session.snapshots@.len(),
            Some(session) == *old(state),
            *state is None,
            session.id@ == session_id@,
            window@ != "main"@,
            forall|j: int| 0 <= j < k ==> window@ != label_of(#[trigger] session.snapshots@[j].info.monitor_id),
        decreases session.snapshots@.len() - k,
    {
        let owner = label(session.snapshots[k].info.monitor_id);
        if text_equals(window, owner.as_str()) {
            return Ok(session);
        }
        k = k + 1;
    }
    *state = Some(session);
    Err("无权取消该截图".to_owned())
}

/// Starts a capture with id `id` for workspace `workspace_id`; refused while
/// another capture is in progress, or when the workspace does not exist.
pub fn begin_session(state: &Option<Session>, workspace_exists: bool, id: String, workspace_id: String) -> (r: Result<Session, String>)
    ensures
        state is Some ==> (r matches Err(e) && e@ == "已有截图正在进行，请完成或按 Esc 取消"@),
        state is None && !workspace_exists ==> (r matches Err(e) && e@ == "工作区不存在"@),
        r is Ok <==> state is None && workspace_exists,
        r matches Ok(s) ==> s.id@ == id@ && s.workspace_id@ == workspace_id@ && s.snapshots@.len() == 0
            && !s.shortcuts_registered && s.phase() == Phase::Acquiring,
{
    if state.is_some() {
        return Err("已有截图正在进行，请完成或按 Esc 取消".to_owned());
    }
    if !workspace_exists {
        return Err("工作区不存在".to_owned());
    }
    Ok(Session::new(id, workspace_id))
}

/// Puts a pinned capture's session back into `state` so that its windows
/// stay until it ends. When another capture took its place meanwhile, the
/// session is handed back, to be cleaned up, and `state` is unchanged.
pub fn restore_pending(state: &mut Option<Session>, session: Session) -> (r: Option<Session>)
    ensures
        *old(state) is Some ==> r == Some(session) && *final(state) == *old(state),
        *old(state) is None ==> r is None && *final(state) == Some(session),
{
    if state.is_some() {
        Some(session)
    } else {
        *state = Some(session);
        None
    }
}

/// Where one monitor's selection window goes: over the whole monitor, at its
/// display scale (the bits of an `f64`).
#[derive(Clone, Copy)]
pub struct CaptureWindowSpec {
    pub monitor_id: u32,
    pub x: i32,
    pub y: i32,
    pub width: u32,
    pub height: u32,
    pub scale_bits: u64,
}

pub open spec fn window_spec_of(s: Snapshot) -> CaptureWindowSpec {
    CaptureWindowSpec {
        monitor_id: s.info.monitor_id,
        x: s.x,
        y: s.y,
        width: s.info.width,
        height: s.info.height,
        scale_bits: s.scale_bits,
    }
}

/// The selection windows of the captures, one per capture, in order.
pub fn specs(snapshots: &Vec<Snapshot>) -> (r: Vec<CaptureWindowSpec>)
    ensures
        r@ == snapshots@.map_values(|s: Snapshot| window_spec_of(s)),
{
    let mut out: Vec<CaptureWindowSpec> = Vec::new();
    let mut k: usize = 0;
    while k < snapshots.len()
        invariant
            0 <= k <= snapshots@.len(),
            out@ == snapshots@.take(k as int).map_values(|s: Snapshot| window_spec_of(s)),
        decreases snapshots@.len() - k,
    {
        let s = &snapshots[k];
        out.push(
            CaptureWindowSpec {
                monitor_id: s.info.monitor_id,
                x: s.x,
                y: s.y,
                width: s.info.width,
                height: s.info.height,
                scale_bits: s.scale_bits,
            },
        );
        k = k + 1;
        assert(out@ =~= snapshots@.take(k as int).map_values(|s: Snapshot| window_spec_of(s)));
    }
    assert(snapshots@.take(snapshots@.len() as int) =~= snapshots@);
    out
}

} // verus!
