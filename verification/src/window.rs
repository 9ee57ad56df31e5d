//! The lifecycles of the settings popover and of the HUD: which native show,
//! hide and present requests are current, decided by generation numbers and
//! event timestamps so that a stale request from the web view is refused.

use vstd::prelude::*;

verus! {

/// `g + 1`, wrapping as an atomic counter's `fetch_add` does.
pub open spec fn next_generation(g: u64) -> u64 {
    if g == u64::MAX { 0 } else { (g + 1) as u64 }
}

fn bump(g: u64) -> (n: u64)
    ensures
        n == next_generation(g),
{
    if g == u64::MAX { 0 } else { g + 1 }
}

/// The settings popover's lifecycle.
#[derive(Clone, Copy, Debug, PartialEq, Eq, Structural)]
pub struct SettingsWindowState {
    /// An open is being presented; losing focus must not close it yet.
    pub opening: bool,
    /// A close was requested and the exit animation is running.
    pub closing: bool,
    /// Increases with every open and close, so that replies to older ones
    /// are recognised.
    pub generation: u64,
    /// The settings page has loaded and listens for native events.
    pub ready: bool,
    /// An open waits for the page to present it.
    pub pending_open: bool,
    /// The generation of that waiting open.
    pub pending_generation: Option<u64>,
}

impl SettingsWindowState {
    /// A hidden popover whose page has not loaded yet.
    pub fn new() -> (s: Self)
        ensures
            !s.opening && !s.closing && !s.ready && !s.pending_open,
            s.generation == 0,
            s.pending_generation is None,
    {
        SettingsWindowState {
            opening: false,
            closing: false,
            generation: 0,
            ready: false,
            pending_open: false,
            pending_generation: None,
        }
    }

    /// Cancels any close in progress and starts a new generation, which it
    /// returns.
    pub fn cancel_close(&mut self) -> (generation: u64)
        ensures
            generation == next_generation(old(self).generation),
            *final(self) == (SettingsWindowState { closing: false, generation, ..*old(self) }),
    {
        self.closing = false;
        self.generation = bump(self.generation);
        self.generation
    }

    /// The page reports that it is ready; returns the generation of an open
    /// that is waiting for it, if any.
    pub fn mark_ready(&mut self) -> (waiting: Option<u64>)
        ensures
            waiting == old(self).pending_generation,
            *final(self) == (SettingsWindowState { ready: true, ..*old(self) }),
    {
        self.ready = true;
        self.pending_generation
    }

    /// Starts an open: a new generation that waits to be presented. Returns
    /// the generation and whether the page is ready to be told about it.
    pub fn begin_open(&mut self) -> (started: (u64, bool))
        ensures
            started.0 == next_generation(old(self).generation),
            started.1 == old(self).ready,
            *final(self) == (SettingsWindowState {
                opening: true,
                closing: false,
                generation: started.0,
                pending_open: true,
                pending_generation: Some(started.0),
                ..*old(self)
            }),
    {
        let generation = self.cancel_close();
        self.opening = true;
        self.pending_open = true;
        self.pending_generation = Some(generation);
        (generation, self.ready)
    }

    /// The page asks to present `generation`. Only the waiting open of the
    /// current generation may be presented, once, and not while closing.
    pub fn try_present(&mut self, generation: u64) -> (present: bool)
        ensures
            present == may_present(*old(self), generation),
            present ==> *final(self) == (SettingsWindowState {
                pending_open: false,
                pending_generation: None,
                ..*old(self)
            }),
            !present ==> *final(self) == *old(self),
    {
        if !self.ready || !self.pending_open || self.pending_generation != Some(generation)
            || self.generation != generation || self.closing {
            return false;
        }
        self.pending_open = false;
        self.pending_generation = None;
        true
    }

    /// Records whether a presented popover is still opening (it could take
    /// focus) or not (focusing failed and it was hidden again).
    pub fn set_opening(&mut self, opening: bool)
        ensures
            *final(self) == (SettingsWindowState { opening, ..*old(self) }),
    {
        self.opening = opening;
    }

    /// The opening grace period of `generation` ended; returns whether that
    /// generation is still current (then it is no longer opening).
    pub fn finish_opening(&mut self, generation: u64) -> (current: bool)
        ensures
            current == (old(self).generation == generation),
            current ==> *final(self) == (SettingsWindowState { opening: false, ..*old(self) }),
            !current ==> *final(self) == *old(self),
    {
        if self.generation != generation {
            return false;
        }
        self.opening = false;
        true
    }

    /// Whether the popover is still in its opening grace period.
    pub fn is_opening(&self) -> (o: bool)
        ensures
            o == self.opening,
    {
        self.opening
    }

    /// Starts a close: a new generation that the page animates out. Returns
    /// `None` when a close is already running.
    pub fn begin_close(&mut self) -> (started: Option<u64>)
        ensures
            old(self).closing ==> started is None && *final(self) == *old(self),
            !old(self).closing ==> started == Some(next_generation(old(self).generation)) && *final(self) == (
            SettingsWindowState { closing: true, generation: next_generation(old(self).generation), ..*old(self) }),
    {
        if self.closing {
            return None;
        }
        self.closing = true;
        self.generation = bump(self.generation);
        Some(self.generation)
    }

    /// The close request could not be sent to the page: the close is
    /// abandoned and its generation retired.
    pub fn abort_close(&mut self)
        ensures
            *final(self) == (SettingsWindowState {
                closing: false,
                generation: next_generation(old(self).generation),
                ..*old(self)
            }),
    {
        self.closing = false;
        self.generation = bump(self.generation);
    }

    /// The page finished the exit animation of `generation`: hide the popover
    /// if that close is the current one.
    pub fn try_hide(&mut self, generation: u64) -> (hide: bool)
        ensures
            hide == (old(self).closing && old(self).generation == generation),
            hide ==> *final(self) == (SettingsWindowState {
                opening: false,
                closing: false,
                generation: next_generation(old(self).generation),
                ..*old(self)
            }),
            !hide ==> *final(self) == *old(self),
    {
        if !self.closing || self.generation != generation {
            return false;
        }
        self.cancel_close();
        self.opening = false;
        true
    }

    /// The page never finished the exit animation of `generation`: hide the
    /// popover anyway if that close is still the current one.
    pub fn close_fallback(&mut self, generation: u64) -> (hide: bool)
        ensures
            hide == (old(self).closing && old(self).generation == generation),
            hide ==> *final(self) == (SettingsWindowState {
                closing: false,
                generation: next_generation(old(self).generation),
                ..*old(self)
            }),
            !hide ==> *final(self) == *old(self),
    {
        if !self.closing || self.generation != generation {
            return false;
        }
        self.closing = false;
        self.generation = bump(self.generation);
        true
    }

    /// The settings page started loading again: it is not ready, and a
    /// visible popover must be presented anew under a new generation.
    pub fn reset_on_page_load(&mut self, was_visible: bool)
        ensures
            *final(self) == (SettingsWindowState {
                opening: false,
                closing: false,
                generation: next_generation(old(self).generation),
                ready: false,
                pending_open: was_visible,
                pending_generation: if was_visible { Some(next_generation(old(self).generation)) } else { None },
            }),
    {
        let generation = self.cancel_close();
        self.opening = false;
        self.ready = false;
        self.pending_open = was_visible;
        self.pending_generation = if was_visible { Some(generation) } else { None };
    }
}

/// Whether the page may present `generation`: the waiting open of the
/// current generation, with the page ready and no close running.
pub open spec fn may_present(s: SettingsWindowState, generation: u64) -> bool {
    s.ready && s.pending_open && s.pending_generation == Some(generation) && s.generation == generation && !s.closing
}

/// The state after a close started and its exit animation completed.
pub open spec fn after_close_and_hide(s: SettingsWindowState) -> SettingsWindowState {
    SettingsWindowState {
        opening: false,
        closing: false,
        generation: next_generation(next_generation(s.generation)),
        ..s
    }
}

/// Law: an open is presented at most once: after a successful present of a
/// generation, presenting it again is refused.
pub proof fn law_present_once(s: SettingsWindowState, g: u64)
    requires
        may_present(s, g),
    ensures
        !may_present((SettingsWindowState { pending_open: false, pending_generation: None, ..s }), g),
{
}

/// Law: an open superseded by a close is never presented: while the close
/// runs, and after it completes, a present of the old generation is refused.
pub proof fn law_close_supersedes_open(s: SettingsWindowState, g: u64)
    requires
        s.generation == g,
        !s.closing,
    ensures
        !may_present((SettingsWindowState { closing: true, generation: next_generation(s.generation), ..s }), g),
        !may_present(after_close_and_hide(s), g),
{
}

/// The HUD's lifecycle: whether its page listens, which event was delivered
/// last and which one it finished showing.
#[derive(Clone, Copy, Debug, PartialEq, Eq, Structural)]
pub struct HudState {
    pub ready: bool,
    pub delivered_timestamp: u64,
    pub acknowledged_timestamp: u64,
}

impl HudState {
    /// A HUD whose page has not loaded.
    pub fn new() -> (h: Self)
        ensures
            !h.ready,
            h.delivered_timestamp == 0,
            h.acknowledged_timestamp == 0,
    {
        HudState { ready: false, delivered_timestamp: 0, acknowledged_timestamp: 0 }
    }

    /// The page loaded (`true`) or started loading again (`false`).
    pub fn set_ready(&mut self, ready: bool)
        ensures
            *final(self) == (HudState { ready, ..*old(self) }),
    {
        self.ready = ready;
    }

    /// Records that the event stamped `timestamp` is being delivered.
    pub fn deliver(&mut self, timestamp: u64)
        ensures
            *final(self) == (HudState { delivered_timestamp: timestamp, ..*old(self) }),
    {
        self.delivered_timestamp = timestamp;
    }

    /// Whether a request from the page concerns the event being delivered.
    pub fn is_current(&self, timestamp: u64) -> (current: bool)
        ensures
            current == (self.delivered_timestamp == timestamp),
    {
        self.delivered_timestamp == timestamp
    }

    /// Whether another event waits behind the current one: `pending` counts
    /// the current event too.
    pub fn has_followup(&self, timestamp: u64, pending: usize) -> (more: bool)
        ensures
            more == (self.delivered_timestamp == timestamp && pending > 1),
    {
        self.delivered_timestamp == timestamp && pending > 1
    }

    /// The page finished showing the event stamped `timestamp`; returns
    /// whether that event is the current one (only then is it acknowledged).
    pub fn acknowledge(&mut self, timestamp: u64) -> (current: bool)
        ensures
            current == (old(self).delivered_timestamp == timestamp),
            current ==> *final(self) == (HudState { acknowledged_timestamp: timestamp, ..*old(self) }),
            !current ==> *final(self) == *old(self),
    {
        if self.delivered_timestamp != timestamp {
            return false;
        }
        self.acknowledged_timestamp = timestamp;
        true
    }

    /// Whether the event stamped `timestamp` has been fully shown.
    pub fn is_acknowledged(&self, timestamp: u64) -> (done: bool)
        ensures
            done == (self.acknowledged_timestamp == timestamp),
    {
        self.acknowledged_timestamp == timestamp
    }
}

/// What the HUD forwarder does next for the event stamped `timestamp`,
/// which it has handed to the page.
#[derive(Clone, Copy, Debug, PartialEq, Eq, Structural)]
pub enum DeliveryAction {
    /// The page acknowledged the event: its cycle is complete.
    Complete,
    /// The page is loading again: hand the event over anew once it is ready.
    Redeliver,
    /// The page is ready and has not acknowledged yet: wait for a change.
    Wait,
}

/// The forwarder's decision for the event stamped `timestamp`: complete once
/// acknowledged, deliver again when the page is no longer ready, else wait.
pub fn delivery_step(hud: &HudState, timestamp: u64) -> (a: DeliveryAction)
    ensures
        a == (if hud.acknowledged_timestamp == timestamp {
            DeliveryAction::Complete
        } else if !hud.ready {
            DeliveryAction::Redeliver
        } else {
            DeliveryAction::Wait
        }),
{
    if hud.is_acknowledged(timestamp) {
        DeliveryAction::Complete
    } else if !hud.ready {
        DeliveryAction::Redeliver
    } else {
        DeliveryAction::Wait
    }
}

} // verus!
