//! The state of one screen capture: acquiring the monitors, waiting for each
//! monitor's selection window to show its preview, selecting, and finishing.
use vstd::prelude::*;
use std::collections::HashSet;
use crate::capture::SnapshotInfo;

verus! {

broadcast use vstd::std_specs::hash::group_hash_axioms;

/// An RGBA image: `width * height` pixels of four bytes, row by row.
pub struct Pixels {
    pub width: u32,
    pub height: u32,
    pub rgba: Vec<u8>,
}

impl Pixels {
    /// The buffer holds exactly four bytes for each of the `width * height` pixels.
    pub open spec fn wf(&self) -> bool {
        self.rgba@.len() == 4 * (self.width as int) * (self.height as int)
    }

    /// The four bytes of the pixel in column `x` of row `y`.
    #[verifier::opaque]
    pub open spec fn pixel(&self, x: int, y: int) -> Seq<u8> {
        let start = 4 * (y * self.width + x);
        self.rgba@.subrange(start, start + 4)
    }
}

/// One monitor's capture: its description, its image and encoded preview,
/// its desktop position, and its display scale (the bits of an `f64`).
pub struct Snapshot {
    pub info: SnapshotInfo,
    pub image: Pixels,
    pub preview_png: Vec<u8>,
    pub x: i32,
    pub y: i32,
    pub scale_bits: u64,
}

pub enum CapturePhase {
    Acquiring,
    AwaitingPreview { ready_monitors: HashSet<u32> },
    Selecting,
    Finishing,
}

/// The phase of a capture as the contracts see it; `AwaitingPreview` holds
/// the monitors whose previews are shown.
pub enum Phase {
    Acquiring,
    AwaitingPreview(Set<u32>),
    Selecting,
    Finishing,
}

impl CapturePhase {
    pub open spec fn view_phase(&self) -> Phase {
        match self {
            CapturePhase::Acquiring => Phase::Acquiring,
            CapturePhase::AwaitingPreview { ready_monitors } => Phase::AwaitingPreview(
                ready_monitors@,
            ),
            CapturePhase::Selecting => Phase::Selecting,
            CapturePhase::Finishing => Phase::Finishing,
        }
    }
}

/// One capture in progress.
pub struct Session {
    pub id: String,
    pub workspace_id: String,
    pub snapshots: Vec<Snapshot>,
    pub shortcuts_registered: bool,
    pub phase: CapturePhase,
}

/// Some snapshot was taken of monitor `monitor_id`.
pub open spec fn has_monitor(snapshots: Seq<Snapshot>, monitor_id: u32) -> bool {
    exists|i: int| 0 <= i < snapshots.len() && (#[trigger] snapshots[i]).info.monitor_id == monitor_id
}

/// The phase after monitor `monitor_id` reports its preview shown, and
/// whether that completed the set; `None` when the report is refused.
pub open spec fn after_preview_ready(phase: Phase, monitors: nat, monitor_id: u32) -> Option<(Phase, bool)> {
    match phase {
        Phase::AwaitingPreview(ready) => {
            let next = ready.insert(monitor_id);
            if next.len() == monitors {
                Some((Phase::Selecting, true))
            } else {
                Some((Phase::AwaitingPreview(next), false))
            }
        },
        Phase::Selecting => Some((Phase::Selecting, false)),
        _ => None,
    }
}

/// The monitors of the captures, in capture order.
pub open spec fn monitor_ids(snapshots: Seq<Snapshot>) -> Seq<u32> {
    snapshots.map_values(|s: Snapshot| s.info.monitor_id)
}

/// While previews are awaited, only monitors of the capture are counted as
/// ready.
pub open spec fn readiness_wf(phase: Phase, snapshots: Seq<Snapshot>) -> bool {
    phase matches Phase::AwaitingPreview(ready) ==> ready.subset_of(monitor_ids(snapshots).to_set())
}

proof fn lemma_has_monitor_in_ids(snapshots: Seq<Snapshot>, monitor_id: u32)
    ensures
        has_monitor(snapshots, monitor_id) <==> monitor_ids(snapshots).to_set().contains(monitor_id),
{
    if has_monitor(snapshots, monitor_id) {
        let i = choose|i: int| 0 <= i < snapshots.len() && (#[trigger] snapshots[i]).info.monitor_id == monitor_id;
        assert(monitor_ids(snapshots)[i] == monitor_id);
    }
    if monitor_ids(snapshots).to_set().contains(monitor_id) {
        let i = choose|i: int| 0 <= i < monitor_ids(snapshots).len() && monitor_ids(snapshots)[i] == monitor_id;
        assert(snapshots[i].info.monitor_id == monitor_id);
    }
}

/// When every monitor is captured once, the selection starts exactly when
/// the preview of every monitor has been reported shown.
pub proof fn lemma_selection_starts_when_all_previews_shown(ready: Set<u32>, snapshots: Seq<Snapshot>, monitor_id: u32)
    requires
        ready.subset_of(monitor_ids(snapshots).to_set()),
        has_monitor(snapshots, monitor_id),
        monitor_ids(snapshots).no_duplicates(),
    ensures
        after_preview_ready(Phase::AwaitingPreview(ready), snapshots.len(), monitor_id) == Some((Phase::Selecting, true))
            <==> ready.insert(monitor_id) == monitor_ids(snapshots).to_set(),
{
    let all = monitor_ids(snapshots).to_set();
    lemma_has_monitor_in_ids(snapshots, monitor_id);
    monitor_ids(snapshots).unique_seq_to_set();
    vstd::seq_lib::seq_to_set_is_finite(monitor_ids(snapshots));
    let next = ready.insert(monitor_id);
    assert(next.subset_of(all));
    vstd::set_lib::lemma_len_subset(next, all);
    if next.len() == snapshots.len() {
        vstd::set_lib::lemma_subset_equality(next, all);
    }
}

impl Session {
    pub open spec fn phase(&self) -> Phase {
        self.phase.view_phase()
    }

    /// A new capture that is acquiring its monitors.
    pub fn new(id: String, workspace_id: String) -> (s: Session)
        ensures
            s.id@ == id@,
            s.workspace_id@ == workspace_id@,
            s.snapshots@.len() == 0,
            !s.shortcuts_registered,
            s.phase() == Phase::Acquiring,
    {
        Session {
            id,
            workspace_id,
            snapshots: Vec::new(),
            shortcuts_registered: false,
            phase: CapturePhase::Acquiring,
        }
    }

    /// Installs the monitor captures; only while acquiring, and only if there
    /// is at least one. The capture then waits for every preview.
    pub fn install_snapshots(&mut self, snapshots: Vec<Snapshot>) -> (r: Result<(), String>)
        ensures
            old(self).phase() != Phase::Acquiring ==> (r matches Err(e) && e@ == "截图会话阶段无效"@),
            old(self).phase() == Phase::Acquiring && snapshots@.len() == 0 ==> (r matches Err(e) && e@ == "未找到显示器"@),
            r is Ok <==> old(self).phase() == Phase::Acquiring && snapshots@.len() > 0,
            r is Ok ==> final(self).snapshots@ == snapshots@ && final(self).phase()
                == Phase::AwaitingPreview(Set::empty()),
            r is Err ==> final(self).snapshots@ == old(self).snapshots@ && final(self).phase()
                == old(self).phase(),
            final(self).id@ == old(self).id@,
            final(self).workspace_id@ == old(self).workspace_id@,
            final(self).shortcuts_registered == old(self).shortcuts_registered,
    {
        match self.phase {
            CapturePhase::Acquiring => {},
            _ => {
                return Err("截图会话阶段无效".to_owned());
            },
        }
        if snapshots.len() == 0 {
            return Err("未找到显示器".to_owned());
        }
        self.snapshots = snapshots;
        self.phase = CapturePhase::AwaitingPreview { ready_monitors: HashSet::new() };
        Ok(())
    }

    /// Records that the preview of monitor `monitor_id` is shown. Returns
    /// whether this made every monitor's preview shown, which starts the
    /// selection.
    pub fn mark_preview_ready(&mut self, monitor_id: u32) -> (r: Result<bool, String>)
        ensures
            !has_monitor(old(self).snapshots@, monitor_id) ==> (r matches Err(e) && e@ == "显示器截图不存在"@),
            has_monitor(old(self).snapshots@, monitor_id) && after_preview_ready(
                old(self).phase(),
                old(self).snapshots@.len(),
                monitor_id,
            ) is None ==> (r matches Err(e) && e@ == "截图会话尚未准备完成"@),
            r is Ok <==> has_monitor(old(self).snapshots@, monitor_id) && after_preview_ready(
                old(self).phase(),
                old(self).snapshots@.len(),
                monitor_id,
            ) is Some,
            r matches Ok(all_ready) ==> after_preview_ready(
                old(self).phase(),
                old(self).snapshots@.len(),
                monitor_id,
            ) == Some((final(self).phase(), all_ready)),
            r is Err ==> final(self).phase() == old(self).phase(),
            final(self).snapshots@ == old(self).snapshots@,
            final(self).id@ == old(self).id@,
            final(self).workspace_id@ == old(self).workspace_id@,
            final(self).shortcuts_registered == old(self).shortcuts_registered,
            readiness_wf(old(self).phase(), old(self).snapshots@) ==> readiness_wf(final(self).phase(), final(self).snapshots@),
    {
        proof {
            lemma_has_monitor_in_ids(self.snapshots@, monitor_id);
        }
        let mut found = false;
        let mut i: usize = 0;
        while i < self.snapshots.len()
            invariant_except_break
                !found,
            invariant
                0 <= i <= self.snapshots@.len(),
                forall|j: int| 0 <= j < i ==> (#[trigger] self.snapshots@[j]).info.monitor_id
                    != monitor_id,
            ensures
                found ==> has_monitor(self.snapshots@, monitor_id),
                !found ==> !has_monitor(self.snapshots@, monitor_id),
            decreases self.snapshots@.len() - i,
        {
            if self.snapshots[i].info.monitor_id == monitor_id {
                assert(has_monitor(self.snapshots@, monitor_id));
                found = true;
                break;
            }
            i = i + 1;
        }
        if !found {
            return Err("显示器截图不存在".to_owned());
        }
        let monitors = self.snapshots.len();
        match &mut self.phase {
            CapturePhase::AwaitingPreview { ready_monitors } => {
                ready_monitors.insert(monitor_id);
                let all_ready = ready_monitors.len() == monitors;
                if all_ready {
                    self.phase = CapturePhase::Selecting;
                }
                Ok(all_ready)
            },
            CapturePhase::Selecting => Ok(false),
            _ => Err("截图会话尚未准备完成".to_owned()),
        }
    }

    /// Succeeds only while the user is selecting.
    pub fn ensure_selecting(&self) -> (r: Result<(), String>)
        ensures
            r is Ok <==> self.phase() == Phase::Selecting,
            self.phase() == Phase::Finishing ==> (r matches Err(e) && e@ == "截图正在完成"@),
            (self.phase() is Acquiring || self.phase() is AwaitingPreview) ==> (r matches Err(e) && e@ == "截图预览尚未准备完成"@),
    {
        match self.phase {
            CapturePhase::Selecting => Ok(()),
            CapturePhase::Finishing => Err("截图正在完成".to_owned()),
            _ => Err("截图预览尚未准备完成".to_owned()),
        }
    }

    /// Moves a selecting capture to finishing; refused in any other phase.
    pub fn begin_finishing(&mut self) -> (r: Result<(), String>)
        ensures
            r is Ok <==> old(self).phase() == Phase::Selecting,
            r is Ok ==> final(self).phase() == Phase::Finishing,
            old(self).phase() == Phase::Finishing ==> (r matches Err(e) && e@ == "截图正在完成"@),
            (old(self).phase() is Acquiring || old(self).phase() is AwaitingPreview) ==> (r matches Err(e) && e@ == "截图预览尚未准备完成"@),
            r is Err ==> final(self).phase() == old(self).phase(),
            final(self).snapshots@ == old(self).snapshots@,
            final(self).id@ == old(self).id@,
            final(self).workspace_id@ == old(self).workspace_id@,
            final(self).shortcuts_registered == old(self).shortcuts_registered,
    {
        self.ensure_selecting()?;
        self.phase = CapturePhase::Finishing;
        Ok(())
    }
}

} // verus!
