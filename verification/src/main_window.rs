//! When the hidden main window is destroyed: a while after it was hidden,
//! unless it was shown again, a capture is running, or it is visible.
use vstd::prelude::*;

verus! {

/// The generation counter of the main window: showing the window or hiding
/// it again starts a new generation, which makes earlier pending destroys
/// stale.
pub struct MainWindowLifecycle {
    pub generation: u64,
}

/// The next generation; the counter wraps around.
pub open spec fn bumped(generation: u64) -> u64 {
    if generation == u64::MAX {
        0
    } else {
        (generation + 1) as u64
    }
}

/// What a pending destroy does once its delay has passed.
#[derive(Clone, Copy, PartialEq, Eq, Structural)]
pub enum IdleAction {
    /// Leave the window alone.
    Stop,
    /// A capture is running: wait another delay.
    Reschedule,
    /// Release the shortcuts that only the window needs, then destroy it.
    Destroy,
}

pub open spec fn idle_action_of(
    generation: u64,
    ticket: u64,
    capture_active: bool,
    window_exists: bool,
    window_visible: bool,
) -> IdleAction {
    if generation != ticket {
        IdleAction::Stop
    } else if capture_active {
        IdleAction::Reschedule
    } else if !window_exists || window_visible {
        IdleAction::Stop
    } else {
        IdleAction::Destroy
    }
}

impl MainWindowLifecycle {
    pub fn new() -> (l: MainWindowLifecycle)
        ensures
            l.generation == 0,
    {
        MainWindowLifecycle { generation: 0 }
    }

    /// Showing the window cancels any pending destroy.
    pub fn cancel_pending_destroy(&mut self)
        ensures
            final(self).generation == bumped(old(self).generation),
    {
        self.generation = self.generation.wrapping_add(1);
    }

    /// Hiding the window schedules a destroy; returns its ticket.
    pub fn schedule_idle_destroy(&mut self) -> (ticket: u64)
        ensures
            final(self).generation == bumped(old(self).generation),
            ticket == final(self).generation,
    {
        self.generation = self.generation.wrapping_add(1);
        self.generation
    }

    /// Decides what the destroy with `ticket` does, from the state of the
    /// capture and of the window when its delay has passed.
    pub fn idle_action(&self, ticket: u64, capture_active: bool, window_exists: bool, window_visible: bool) -> (r: IdleAction)
        ensures
            r == idle_action_of(self.generation, ticket, capture_active, window_exists, window_visible),
    {
        if self.generation != ticket {
            IdleAction::Stop
        } else if capture_active {
            IdleAction::Reschedule
        } else if !window_exists || window_visible {
            IdleAction::Stop
        } else {
            IdleAction::Destroy
        }
    }
}

/// Showing the window after hiding it cancels the destroy that the hiding
/// scheduled, whatever the state of the capture and of the window.
pub proof fn lemma_show_cancels_destroy(generation: u64, capture_active: bool, window_exists: bool, window_visible: bool)
    ensures
        idle_action_of(bumped(bumped(generation)), bumped(generation), capture_active, window_exists, window_visible)
            == IdleAction::Stop,
{
}

/// A destroy is only ever carried out for the latest hiding, with no capture
/// running and the window hidden.
pub proof fn lemma_destroy_needs_hidden_idle_window(
    generation: u64,
    ticket: u64,
    capture_active: bool,
    window_exists: bool,
    window_visible: bool,
)
    ensures
        idle_action_of(generation, ticket, capture_active, window_exists, window_visible) == IdleAction::Destroy
            <==> generation == ticket && !capture_active && window_exists && !window_visible,
{
}

} // verus!
