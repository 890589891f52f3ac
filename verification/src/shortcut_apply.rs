//! Applying a new set of global shortcuts: registering the new ones,
//! unregistering the ones no longer wanted, saving the choice, and undoing
//! the changes when a step fails. The shortcut manager is outside; this
//! module decides each step from the answer to the previous one.
use vstd::prelude::*;
use crate::shortcuts::{check_shortcut_conflicts, shortcuts_conflict};

verus! {

/// What the caller is asked to do next.
#[derive(Clone, Copy, Debug, PartialEq, Eq, Structural)]
pub enum ShortcutStep {
    /// Tell whether the shortcut is registered already (by another program
    /// or an earlier binding); answer with `Answer`.
    Check(u32),
    /// Unregister the shortcut.
    Unregister(u32),
    /// Register the shortcut.
    Register(u32),
    /// Save the configuration.
    Save,
    /// Nothing is left to do: the binding becomes `active`.
    Done,
    /// Unregister `added` and register `removed` again, then report the
    /// failure of the last step.
    Abort,
}

/// The outcome of the last step.
#[derive(Clone, Copy, Debug, PartialEq, Eq, Structural)]
pub enum ShortcutEvent {
    Answer(bool),
    Succeeded,
    Failed,
}

/// Which step's outcome the plan waits for, and for which slot.
#[derive(Clone, Copy, PartialEq, Eq, Structural)]
pub enum ApplyPhase {
    Checking(usize),
    Freeing(usize),
    Registering(usize),
    Removing(usize),
    Saving,
    Finished,
    Failed,
}

/// Applying a set of shortcuts, one slot per action; `None` disables a slot.
pub struct ShortcutApply {
    pub persist: bool,
    pub desired: Vec<Option<u32>>,
    pub previous: Vec<Option<u32>>,
    pub active: Vec<Option<u32>>,
    pub added: Vec<u32>,
    pub removed: Vec<u32>,
    pub phase: ApplyPhase,
}

pub struct ApplyView {
    pub persist: bool,
    pub desired: Seq<Option<u32>>,
    pub previous: Seq<Option<u32>>,
    pub active: Seq<Option<u32>>,
    pub added: Seq<u32>,
    pub removed: Seq<u32>,
    pub phase: ApplyPhase,
}

impl View for ShortcutApply {
    type V = ApplyView;

    open spec fn view(&self) -> ApplyView {
        ApplyView {
            persist: self.persist,
            desired: self.desired@,
            previous: self.previous@,
            active: self.active@,
            added: self.added@,
            removed: self.removed@,
            phase: self.phase,
        }
    }
}

/// Slot `s` holds a shortcut that is not bound already.
pub open spec fn is_new(active: Seq<Option<u32>>, previous: Seq<Option<u32>>, s: int) -> bool {
    active[s] matches Some(id) && !previous.contains(Some(id))
}

/// The first slot from `from` on whose shortcut is new.
pub open spec fn next_new_slot(active: Seq<Option<u32>>, previous: Seq<Option<u32>>, from: int) -> Option<int>
    decreases active.len() - from,
{
    if from < 0 || from >= active.len() {
        None
    } else if is_new(active, previous, from) {
        Some(from)
    } else {
        next_new_slot(active, previous, from + 1)
    }
}

/// Slot `i` of the old binding holds a shortcut that is no longer wanted.
pub open spec fn is_stale(previous: Seq<Option<u32>>, desired: Seq<Option<u32>>, i: int) -> bool {
    previous[i] matches Some(id) && !desired.contains(Some(id))
}

/// The first slot of the old binding from `from` on whose shortcut is stale.
pub open spec fn next_stale(previous: Seq<Option<u32>>, desired: Seq<Option<u32>>, from: int) -> Option<int>
    decreases previous.len() - from,
{
    if from < 0 || from >= previous.len() {
        None
    } else if is_stale(previous, desired, from) {
        Some(from)
    } else {
        next_stale(previous, desired, from + 1)
    }
}

pub open spec fn with_phase(v: ApplyView, phase: ApplyPhase) -> ApplyView {
    ApplyView { phase, ..v }
}

pub open spec fn slot_id(slots: Seq<Option<u32>>, s: int) -> u32 {
    slots[s]->Some_0
}

/// After the new shortcuts: unregister the next stale one, then save (when
/// persisting), then finish.
pub open spec fn advance_removing(v: ApplyView, from: int) -> (ApplyView, ShortcutStep) {
    match next_stale(v.previous, v.desired, from) {
        Some(i) => (with_phase(v, ApplyPhase::Removing(i as usize)), ShortcutStep::Unregister(slot_id(v.previous, i))),
        None => if v.persist {
            (with_phase(v, ApplyPhase::Saving), ShortcutStep::Save)
        } else {
            (with_phase(v, ApplyPhase::Finished), ShortcutStep::Done)
        },
    }
}

/// Check the next new shortcut from slot `from` on; when none is left, go on
/// to the stale ones.
pub open spec fn advance_adding(v: ApplyView, from: int) -> (ApplyView, ShortcutStep) {
    match next_new_slot(v.active, v.previous, from) {
        Some(s) => (with_phase(v, ApplyPhase::Checking(s as usize)), ShortcutStep::Check(slot_id(v.active, s))),
        None => advance_removing(v, 0),
    }
}

/// A new shortcut could not be taken: when persisting, everything is undone;
/// otherwise the slot is left disabled and the next one is tried.
pub open spec fn after_failure(v: ApplyView, s: int) -> (ApplyView, ShortcutStep) {
    if v.persist {
        (with_phase(v, ApplyPhase::Failed), ShortcutStep::Abort)
    } else {
        advance_adding(ApplyView { active: v.active.update(s, None), ..v }, s + 1)
    }
}

/// The plan and the next step after the outcome `e` of the last step.
pub open spec fn after_event(v: ApplyView, e: ShortcutEvent) -> (ApplyView, ShortcutStep) {
    match (v.phase, e) {
        (ApplyPhase::Checking(s), ShortcutEvent::Answer(true)) => (
            with_phase(v, ApplyPhase::Freeing(s)),
            ShortcutStep::Unregister(slot_id(v.active, s as int)),
        ),
        (ApplyPhase::Checking(s), ShortcutEvent::Answer(false)) => (
            with_phase(v, ApplyPhase::Registering(s)),
            ShortcutStep::Register(slot_id(v.active, s as int)),
        ),
        (ApplyPhase::Freeing(s), ShortcutEvent::Succeeded) => (
            with_phase(v, ApplyPhase::Registering(s)),
            ShortcutStep::Register(slot_id(v.active, s as int)),
        ),
        (ApplyPhase::Freeing(s), ShortcutEvent::Failed) => after_failure(v, s as int),
        (ApplyPhase::Registering(s), ShortcutEvent::Succeeded) => advance_adding(
            ApplyView { added: v.added.push(slot_id(v.active, s as int)), ..v },
            s + 1,
        ),
        (ApplyPhase::Registering(s), ShortcutEvent::Failed) => after_failure(v, s as int),
        (ApplyPhase::Removing(i), ShortcutEvent::Succeeded) => advance_removing(
            ApplyView { removed: v.removed.push(slot_id(v.previous, i as int)), ..v },
            i + 1,
        ),
        (ApplyPhase::Saving, ShortcutEvent::Succeeded) => (with_phase(v, ApplyPhase::Finished), ShortcutStep::Done),
        _ => (with_phase(v, ApplyPhase::Failed), ShortcutStep::Abort),
    }
}

proof fn lemma_removing_never_aborts(v: ApplyView, from: int)
    ensures
        advance_removing(v, from).1 != ShortcutStep::Abort,
        v.persist ==> advance_removing(v, from).1 != ShortcutStep::Done,
{
}

proof fn lemma_adding_never_aborts(v: ApplyView, from: int)
    ensures
        advance_adding(v, from).1 != ShortcutStep::Abort,
        v.persist ==> advance_adding(v, from).1 != ShortcutStep::Done,
{
    lemma_removing_never_aborts(v, 0);
}

/// When the choice is to be saved, any failed step aborts the whole change
/// (so that it is rolled back), and the change is only done once saving
/// succeeded.
pub proof fn lemma_persisted_changes_are_all_or_nothing(v: ApplyView, e: ShortcutEvent)
    requires
        v.persist,
    ensures
        e == ShortcutEvent::Failed ==> after_event(v, e).1 == ShortcutStep::Abort,
        after_event(v, e).1 == ShortcutStep::Done ==> v.phase == ApplyPhase::Saving && e == ShortcutEvent::Succeeded,
{
    match v.phase {
        ApplyPhase::Registering(s) => {
            lemma_adding_never_aborts(ApplyView { added: v.added.push(slot_id(v.active, s as int)), ..v }, s + 1);
        },
        ApplyPhase::Removing(i) => {
            lemma_removing_never_aborts(ApplyView { removed: v.removed.push(slot_id(v.previous, i as int)), ..v }, i + 1);
        },
        _ => {},
    }
}

/// Without saving, a shortcut that cannot be taken only disables its own
/// slot: the other slots stay as wanted and the change goes on.
pub proof fn lemma_unsaved_failure_disables_one_slot(v: ApplyView, s: usize)
    requires
        !v.persist,
        v.phase == ApplyPhase::Freeing(s) || v.phase == ApplyPhase::Registering(s),
    ensures
        after_event(v, ShortcutEvent::Failed).1 != ShortcutStep::Abort,
        after_event(v, ShortcutEvent::Failed).0.active == v.active.update(s as int, None),
{
    lemma_adding_never_aborts(ApplyView { active: v.active.update(s as int, None), ..v }, s + 1);
}

/// Only a failure changes which shortcuts are active: a change in which
/// every step succeeds binds exactly the wanted shortcuts.
pub proof fn lemma_success_keeps_wanted_shortcuts(v: ApplyView, e: ShortcutEvent)
    requires
        e != ShortcutEvent::Failed,
    ensures
        after_event(v, e).0.active == v.active,
        after_event(v, e).0.desired == v.desired,
        after_event(v, e).0.previous == v.previous,
        after_event(v, e).0.persist == v.persist,
{
}

/// The shortcuts that the change registers, in slot order: those of the
/// slots from `from` on that are new.
pub open spec fn new_ids(active: Seq<Option<u32>>, previous: Seq<Option<u32>>, from: int) -> Seq<u32>
    decreases active.len() - from,
{
    if 0 <= from < active.len() {
        if is_new(active, previous, from) {
            seq![slot_id(active, from)] + new_ids(active, previous, from + 1)
        } else {
            new_ids(active, previous, from + 1)
        }
    } else {
        Seq::empty()
    }
}

/// The shortcuts that the change unregisters, in the old binding's order:
/// those of its slots from `from` on that are stale.
pub open spec fn stale_ids(previous: Seq<Option<u32>>, desired: Seq<Option<u32>>, from: int) -> Seq<u32>
    decreases previous.len() - from,
{
    if 0 <= from < previous.len() {
        if is_stale(previous, desired, from) {
            seq![slot_id(previous, from)] + stale_ids(previous, desired, from + 1)
        } else {
            stale_ids(previous, desired, from + 1)
        }
    } else {
        Seq::empty()
    }
}

/// The answer to a step when everything succeeds and no shortcut is held
/// elsewhere.
pub open spec fn success_event(step: ShortcutStep) -> ShortcutEvent {
    match step {
        ShortcutStep::Check(_) => ShortcutEvent::Answer(false),
        _ => ShortcutEvent::Succeeded,
    }
}

/// The plan after at most `fuel` steps that all succeed, stopping at `Done`
/// or `Abort`.
pub open spec fn run_succeeding(v: ApplyView, step: ShortcutStep, fuel: nat) -> (ApplyView, ShortcutStep)
    decreases fuel,
{
    if fuel == 0 || step == ShortcutStep::Done || step == ShortcutStep::Abort {
        (v, step)
    } else {
        let (next, next_step) = after_event(v, success_event(step));
        run_succeeding(next, next_step, (fuel - 1) as nat)
    }
}

proof fn lemma_new_ids_follow_slots(active: Seq<Option<u32>>, previous: Seq<Option<u32>>, from: int)
    requires
        0 <= from,
    ensures
        match next_new_slot(active, previous, from) {
            Some(s) => new_ids(active, previous, from) == seq![slot_id(active, s)] + new_ids(active, previous, s + 1),
            None => new_ids(active, previous, from) == Seq::<u32>::empty(),
        },
    decreases active.len() - from,
{
    if from < active.len() && !is_new(active, previous, from) {
        lemma_new_ids_follow_slots(active, previous, from + 1);
    }
}

proof fn lemma_stale_ids_follow_slots(previous: Seq<Option<u32>>, desired: Seq<Option<u32>>, from: int)
    requires
        0 <= from,
    ensures
        match next_stale(previous, desired, from) {
            Some(i) => stale_ids(previous, desired, from) == seq![slot_id(previous, i)] + stale_ids(previous, desired, i + 1),
            None => stale_ids(previous, desired, from) == Seq::<u32>::empty(),
        },
    decreases previous.len() - from,
{
    if from < previous.len() && !is_stale(previous, desired, from) {
        lemma_stale_ids_follow_slots(previous, desired, from + 1);
    }
}

proof fn lemma_removing_succeeds(v: ApplyView, from: int, fuel: nat)
    requires
        0 <= from <= v.previous.len(),
        v.previous.len() <= usize::MAX,
        fuel >= v.previous.len() - from + 1,
    ensures
        run_succeeding(advance_removing(v, from).0, advance_removing(v, from).1, fuel).1 == ShortcutStep::Done,
        run_succeeding(advance_removing(v, from).0, advance_removing(v, from).1, fuel).0.active == v.active,
        run_succeeding(advance_removing(v, from).0, advance_removing(v, from).1, fuel).0.added == v.added,
        run_succeeding(advance_removing(v, from).0, advance_removing(v, from).1, fuel).0.removed == v.removed
            + stale_ids(v.previous, v.desired, from),
    decreases v.previous.len() - from,
{
    lemma_next_stale(v.previous, v.desired, from);
    lemma_stale_ids_follow_slots(v.previous, v.desired, from);
    match next_stale(v.previous, v.desired, from) {
        Some(i) => {
            let id = slot_id(v.previous, i);
            let waiting = with_phase(v, ApplyPhase::Removing(i as usize));
            let next = ApplyView { removed: v.removed.push(id), ..waiting };
            assert(after_event(waiting, ShortcutEvent::Succeeded) == advance_removing(next, i + 1));
            lemma_removing_succeeds(next, i + 1, (fuel - 1) as nat);
            assert(next.removed + stale_ids(v.previous, v.desired, i + 1) =~= v.removed + stale_ids(
                v.previous,
                v.desired,
                from,
            ));
        },
        None => {
            assert(v.removed + stale_ids(v.previous, v.desired, from) =~= v.removed);
            if v.persist {
                let saving = with_phase(v, ApplyPhase::Saving);
                assert(run_succeeding(with_phase(saving, ApplyPhase::Finished), ShortcutStep::Done, (fuel - 1) as nat).1
                    == ShortcutStep::Done);
            }
        },
    }
}

proof fn lemma_adding_succeeds(v: ApplyView, from: int, fuel: nat)
    requires
        0 <= from <= v.active.len(),
        v.active.len() <= usize::MAX,
        v.previous.len() <= usize::MAX,
        fuel >= 2 * (v.active.len() - from) + v.previous.len() + 1,
    ensures
        run_succeeding(advance_adding(v, from).0, advance_adding(v, from).1, fuel).1 == ShortcutStep::Done,
        run_succeeding(advance_adding(v, from).0, advance_adding(v, from).1, fuel).0.active == v.active,
        run_succeeding(advance_adding(v, from).0, advance_adding(v, from).1, fuel).0.added == v.added + new_ids(
            v.active,
            v.previous,
            from,
        ),
        run_succeeding(advance_adding(v, from).0, advance_adding(v, from).1, fuel).0.removed == v.removed
            + stale_ids(v.previous, v.desired, 0),
    decreases v.active.len() - from,
{
    lemma_next_new_slot(v.active, v.previous, from);
    lemma_new_ids_follow_slots(v.active, v.previous, from);
    match next_new_slot(v.active, v.previous, from) {
        Some(s) => {
            let id = slot_id(v.active, s);
            let checking = with_phase(v, ApplyPhase::Checking(s as usize));
            let registering = with_phase(v, ApplyPhase::Registering(s as usize));
            let next = ApplyView { added: v.added.push(id), ..registering };
            assert(after_event(checking, ShortcutEvent::Answer(false)) == (registering, ShortcutStep::Register(id)));
            assert(after_event(registering, ShortcutEvent::Succeeded) == advance_adding(next, s + 1));
            lemma_adding_succeeds(next, s + 1, (fuel - 2) as nat);
            assert(run_succeeding(checking, ShortcutStep::Check(id), fuel) == run_succeeding(
                registering,
                ShortcutStep::Register(id),
                (fuel - 1) as nat,
            ));
            assert(next.added + new_ids(v.active, v.previous, s + 1) =~= v.added + new_ids(v.active, v.previous, from));
        },
        None => {
            assert(v.added + new_ids(v.active, v.previous, from) =~= v.added);
            lemma_removing_succeeds(v, 0, fuel);
        },
    }
}

/// When every step succeeds and no wanted shortcut is held elsewhere, the
/// change registers exactly the shortcuts that were not bound (in slot
/// order), unregisters exactly the ones no longer wanted, saves when asked,
/// and ends done with the wanted binding.
pub proof fn lemma_successful_change_binds_wanted(persist: bool, desired: Seq<Option<u32>>, previous: Seq<Option<u32>>)
    requires
        desired.len() <= usize::MAX,
        previous.len() <= usize::MAX,
    ensures
        ({
            let (v, step) = advance_adding(initial_view(persist, desired, previous), 0);
            let (end, last) = run_succeeding(v, step, (2 * desired.len() + previous.len() + 1) as nat);
            &&& last == ShortcutStep::Done
            &&& end.active == desired
            &&& end.added == new_ids(desired, previous, 0)
            &&& end.removed == stale_ids(previous, desired, 0)
        }),
{
    let v = initial_view(persist, desired, previous);
    lemma_adding_succeeds(v, 0, (2 * desired.len() + previous.len() + 1) as nat);
    assert(v.added + new_ids(desired, previous, 0) =~= new_ids(desired, previous, 0));
    assert(v.removed + stale_ids(previous, desired, 0) =~= stale_ids(previous, desired, 0));
}

proof fn lemma_stale_ids_unwanted(previous: Seq<Option<u32>>, desired: Seq<Option<u32>>, from: int)
    requires
        0 <= from,
    ensures
        forall|k: int|
            0 <= k < stale_ids(previous, desired, from).len() ==> !desired.contains(
                Some(#[trigger] stale_ids(previous, desired, from)[k]),
            ) && previous.contains(Some(stale_ids(previous, desired, from)[k])),
        forall|i: int|
            from <= i < previous.len() && (#[trigger] previous[i]) is Some && !desired.contains(previous[i])
                ==> stale_ids(previous, desired, from).contains(previous[i]->Some_0),
    decreases previous.len() - from,
{
    if from < previous.len() {
        lemma_stale_ids_unwanted(previous, desired, from + 1);
        let rest = stale_ids(previous, desired, from + 1);
        let all = stale_ids(previous, desired, from);
        if is_stale(previous, desired, from) {
            let head = seq![slot_id(previous, from)];
            assert(all == head + rest);
            assert(previous.contains(previous[from]));
            assert forall|k: int| 0 <= k < all.len() implies !desired.contains(Some(#[trigger] all[k]))
                && previous.contains(Some(all[k])) by {
                if k > 0 {
                    assert(all[k] == rest[k - 1]);
                }
            }
            assert forall|i: int|
                from <= i < previous.len() && (#[trigger] previous[i]) is Some && !desired.contains(previous[i])
                implies all.contains(previous[i]->Some_0) by {
                if i == from {
                    assert(all[0] == previous[i]->Some_0);
                } else {
                    let k = choose|k: int| 0 <= k < rest.len() && rest[k] == previous[i]->Some_0;
                    assert(all[k + 1] == rest[k]);
                }
            }
        } else {
            assert(all == rest);
        }
    }
}

/// A change in which every step succeeds unregisters only shortcuts of the
/// old binding that no slot of the new binding holds (wherever the new
/// binding puts a shortcut, it stays registered), and unregisters every
/// such shortcut of the old binding.
pub proof fn lemma_successful_change_unregisters_only_unwanted(
    persist: bool,
    desired: Seq<Option<u32>>,
    previous: Seq<Option<u32>>,
)
    requires
        desired.len() <= usize::MAX,
        previous.len() <= usize::MAX,
    ensures
        ({
            let (v, step) = advance_adding(initial_view(persist, desired, previous), 0);
            let (end, last) = run_succeeding(v, step, (2 * desired.len() + previous.len() + 1) as nat);
            &&& forall|k: int|
                0 <= k < end.removed.len() ==> !desired.contains(Some(#[trigger] end.removed[k]))
                    && previous.contains(Some(end.removed[k]))
            &&& forall|i: int|
                0 <= i < previous.len() && (#[trigger] previous[i]) is Some && !desired.contains(previous[i])
                    ==> end.removed.contains(previous[i]->Some_0)
        }),
{
    lemma_successful_change_binds_wanted(persist, desired, previous);
    lemma_stale_ids_unwanted(previous, desired, 0);
}

/// The slots that the phase names lie inside the lists.
pub open spec fn apply_wf(v: ApplyView) -> bool {
    &&& v.active.len() == v.desired.len()
    &&& match v.phase {
        ApplyPhase::Checking(s) | ApplyPhase::Freeing(s) | ApplyPhase::Registering(s) => s < v.active.len()
            && v.active[s as int] is Some,
        ApplyPhase::Removing(i) => i < v.previous.len() && v.previous[i as int] is Some,
        _ => true,
    }
}

/// The plan before any step: every wanted shortcut is active, nothing is
/// added or removed yet.
pub open spec fn initial_view(persist: bool, desired: Seq<Option<u32>>, previous: Seq<Option<u32>>) -> ApplyView {
    ApplyView {
        persist,
        desired,
        previous,
        active: desired,
        added: Seq::empty(),
        removed: Seq::empty(),
        phase: ApplyPhase::Finished,
    }
}

proof fn lemma_next_new_slot(active: Seq<Option<u32>>, previous: Seq<Option<u32>>, from: int)
    ensures
        next_new_slot(active, previous, from) matches Some(s) ==> from <= s < active.len() && is_new(
            active,
            previous,
            s,
        ),
    decreases active.len() - from,
{
    if 0 <= from < active.len() && !is_new(active, previous, from) {
        lemma_next_new_slot(active, previous, from + 1);
    }
}

proof fn lemma_next_stale(previous: Seq<Option<u32>>, desired: Seq<Option<u32>>, from: int)
    ensures
        next_stale(previous, desired, from) matches Some(i) ==> from <= i < previous.len() && is_stale(
            previous,
            desired,
            i,
        ),
    decreases previous.len() - from,
{
    if 0 <= from < previous.len() && !is_stale(previous, desired, from) {
        lemma_next_stale(previous, desired, from + 1);
    }
}

fn holds(slots: &Vec<Option<u32>>, id: u32) -> (r: bool)
    ensures
        r == slots@.contains(Some(id)),
{
    let mut k: usize = 0;
    while k < slots.len()
        invariant
            0 <= k <= slots@.len(),
            forall|j: int| 0 <= j < k ==> slots@[j] != Some(id),
        decreases slots@.len() - k,
    {
        if let Some(other) = slots[k] {
            if other == id {
                assert(slots@[k as int] == Some(id));
                return true;
            }
        }
        k = k + 1;
    }
    false
}

fn copy_slots(slots: &Vec<Option<u32>>) -> (r: Vec<Option<u32>>)
    ensures
        r@ == slots@,
{
    let mut out: Vec<Option<u32>> = Vec::new();
    let mut k: usize = 0;
    while k < slots.len()
        invariant
            0 <= k <= slots@.len(),
            out@ == slots@.take(k as int),
        decreases slots@.len() - k,
    {
        out.push(slots[k]);
        k = k + 1;
        assert(out@ =~= slots@.take(k as int));
    }
    assert(slots@.take(slots@.len() as int) =~= slots@);
    out
}

impl ShortcutApply {
    fn find_new_slot(&self, from: usize) -> (r: Option<usize>)
        ensures
            r is None <==> next_new_slot(self.active@, self.previous@, from as int) is None,
            r matches Some(s) ==> next_new_slot(self.active@, self.previous@, from as int) == Some(s as int),
            r matches Some(s) ==> from <= s < self.active@.len() && is_new(self.active@, self.previous@, s as int),
    {
        let mut k = from;
        while k < self.active.len()
            invariant
                from <= k,
                next_new_slot(self.active@, self.previous@, from as int) == next_new_slot(
                    self.active@,
                    self.previous@,
                    k as int,
                ),
            decreases self.active@.len() - k,
        {
            if let Some(id) = self.active[k] {
                if !holds(&self.previous, id) {
                    return Some(k);
                }
            }
            k = k + 1;
        }
        None
    }

    fn find_stale(&self, from: usize) -> (r: Option<usize>)
        ensures
            r is None <==> next_stale(self.previous@, self.desired@, from as int) is None,
            r matches Some(i) ==> next_stale(self.previous@, self.desired@, from as int) == Some(i as int),
            r matches Some(i) ==> from <= i < self.previous@.len() && is_stale(self.previous@, self.desired@, i as int),
    {
        let mut k = from;
        while k < self.previous.len()
            invariant
                from <= k,
                next_stale(self.previous@, self.desired@, from as int) == next_stale(
                    self.previous@,
                    self.desired@,
                    k as int,
                ),
            decreases self.previous@.len() - k,
        {
            if let Some(id) = self.previous[k] {
                if !holds(&self.desired, id) {
                    return Some(k);
                }
            }
            k = k + 1;
        }
        None
    }

    fn advance_removing(&mut self, from: usize) -> (r: ShortcutStep)
        requires
            old(self)@.active.len() == old(self)@.desired.len(),
        ensures
            (final(self)@, r) == advance_removing(old(self)@, from as int),
            apply_wf(final(self)@),
    {
        proof {
            lemma_next_stale(self.previous@, self.desired@, from as int);
        }
        match self.find_stale(from) {
            Some(i) => {
                self.phase = ApplyPhase::Removing(i);
                let id = self.previous[i].unwrap();
                ShortcutStep::Unregister(id)
            },
            None => {
                if self.persist {
                    self.phase = ApplyPhase::Saving;
                    ShortcutStep::Save
                } else {
                    self.phase = ApplyPhase::Finished;
                    ShortcutStep::Done
                }
            },
        }
    }

    fn advance_adding(&mut self, from: usize) -> (r: ShortcutStep)
        requires
            old(self)@.active.len() == old(self)@.desired.len(),
        ensures
            (final(self)@, r) == advance_adding(old(self)@, from as int),
            apply_wf(final(self)@),
    {
        proof {
            lemma_next_new_slot(self.active@, self.previous@, from as int);
        }
        match self.find_new_slot(from) {
            Some(s) => {
                self.phase = ApplyPhase::Checking(s);
                let id = self.active[s].unwrap();
                ShortcutStep::Check(id)
            },
            None => self.advance_removing(0),
        }
    }

    fn after_failure(&mut self, s: usize) -> (r: ShortcutStep)
        requires
            apply_wf(old(self)@),
            s < old(self)@.active.len(),
        ensures
            (final(self)@, r) == after_failure(old(self)@, s as int),
            apply_wf(final(self)@),
    {
        if self.persist {
            self.phase = ApplyPhase::Failed;
            ShortcutStep::Abort
        } else {
            let n = self.active.len();
            self.active.set(s, None);
            self.advance_adding(if s < n { s + 1 } else { n })
        }
    }

    /// Starts applying the shortcuts `desired` over the current binding
    /// `previous`; when `persist` is set, a failure undoes everything and the
    /// choice is saved at the end. Refused when two wanted shortcuts are the
    /// same.
    pub fn begin(persist: bool, desired: Vec<Option<u32>>, previous: Vec<Option<u32>>) -> (r: Result<(ShortcutApply, ShortcutStep), String>)
        ensures
            r is Err <==> shortcuts_conflict(desired@),
            r matches Err(e) ==> e@ == "原生全局快捷键冲突"@,
            r matches Ok((plan, step)) ==> (plan@, step) == advance_adding(initial_view(persist, desired@, previous@), 0)
                && apply_wf(plan@),
    {
        check_shortcut_conflicts(&desired)?;
        let active = copy_slots(&desired);
        let mut plan = ShortcutApply {
            persist,
            desired,
            previous,
            active,
            added: Vec::new(),
            removed: Vec::new(),
            phase: ApplyPhase::Finished,
        };
        assert(plan@ == initial_view(persist, plan.desired@, plan.previous@));
        let step = plan.advance_adding(0);
        Ok((plan, step))
    }

    /// Takes the outcome of the last step and returns the next one.
    pub fn next(&mut self, event: ShortcutEvent) -> (r: ShortcutStep)
        requires
            apply_wf(old(self)@),
        ensures
            (final(self)@, r) == after_event(old(self)@, event),
            apply_wf(final(self)@),
    {
        match (self.phase, event) {
            (ApplyPhase::Checking(s), ShortcutEvent::Answer(true)) => {
                self.phase = ApplyPhase::Freeing(s);
                ShortcutStep::Unregister(self.active[s].unwrap())
            },
            (ApplyPhase::Checking(s), ShortcutEvent::Answer(false)) => {
                self.phase = ApplyPhase::Registering(s);
                ShortcutStep::Register(self.active[s].unwrap())
            },
            (ApplyPhase::Freeing(s), ShortcutEvent::Succeeded) => {
                self.phase = ApplyPhase::Registering(s);
                ShortcutStep::Register(self.active[s].unwrap())
            },
            (ApplyPhase::Freeing(s), ShortcutEvent::Failed) => self.after_failure(s),
            (ApplyPhase::Registering(s), ShortcutEvent::Succeeded) => {
                let n = self.active.len();
                let id = self.active[s].unwrap();
                self.added.push(id);
                self.advance_adding(if s < n { s + 1 } else { n })
            },
            (ApplyPhase::Registering(s), ShortcutEvent::Failed) => self.after_failure(s),
            (ApplyPhase::Removing(i), ShortcutEvent::Succeeded) => {
                let n = self.previous.len();
                let id = self.previous[i].unwrap();
                self.removed.push(id);
                self.advance_removing(if i < n { i + 1 } else { n })
            },
            (ApplyPhase::Saving, ShortcutEvent::Succeeded) => {
                self.phase = ApplyPhase::Finished;
                ShortcutStep::Done
            },
            _ => {
                self.phase = ApplyPhase::Failed;
                ShortcutStep::Abort
            },
        }
    }
}

} // verus!
