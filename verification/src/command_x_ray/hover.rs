//! The command x-ray hover state machine, shared by every host that shows
//! token descriptions.
//!
//! It owns whether a hover is pending or open and whether the user dismissed
//! it. The host keeps the pointer position the hover started at and the
//! timer that opens it, tells the machine whether the pointer is still
//! within the movement threshold of that position and whether the timer has
//! elapsed, and carries out the timer actions each step returns.

use vstd::prelude::*;

verus! {

/// What the host's geometry says about the pointer position.
#[derive(Clone, Copy, Debug, PartialEq, Eq, Structural)]
pub struct HoverProbe {
    /// Whether the resolved position was clamped to the edge of the text,
    /// i.e. the pointer is past the end of a line rather than over a glyph.
    pub is_clamped: bool,
    /// Whether the resolved position falls inside the bounds of the token
    /// currently described.
    pub is_within_token: bool,
}

/// What the host should do in response to a pointer move.
#[derive(Debug, PartialEq, Eq, Clone, Copy, Structural)]
pub enum HoverOutcome {
    /// Nothing to do. The host should not treat the event as handled.
    Idle,
    /// Hide the tooltip.
    Hide,
    /// Show the tooltip for the position that was just probed.
    Show,
}

impl HoverOutcome {
    /// Whether the host should report the pointer event as handled.
    pub fn is_handled(&self) -> (r: bool)
        ensures
            r == !(*self is Idle),
    {
        match self {
            HoverOutcome::Idle => false,
            _ => true,
        }
    }
}

/// The pending or open hover tracked between pointer moves.
#[derive(Clone, Copy, Debug, PartialEq, Eq, Structural)]
pub struct HoverFlags {
    /// Whether the x-ray tooltip is visible.
    pub visible: bool,
    /// Whether the user dismissed the hover through some action (escape,
    /// typing, scrolling).
    pub user_dismissed: bool,
}

/// One step of the machine: the outcome for the host, and what the host does
/// with its timer. `cancel_timer` cancels the armed timer; `arm_timer`
/// records the current pointer position as the new hover point and arms a
/// fresh timer (cancelling happens first).
#[derive(Clone, Copy, Debug, PartialEq, Eq, Structural)]
pub struct HoverStep {
    pub outcome: HoverOutcome,
    pub cancel_timer: bool,
    pub arm_timer: bool,
}

pub open spec fn idle_step() -> HoverStep {
    HoverStep { outcome: HoverOutcome::Idle, cancel_timer: false, arm_timer: false }
}

/// A fresh pending hover.
pub open spec fn pending_flags() -> HoverFlags {
    HoverFlags { visible: false, user_dismissed: false }
}

/// Resetting the hover: hide an open tooltip, cancel any armed timer, and
/// start a new pending hover at the pointer when `rearm` holds (else none).
pub open spec fn restart_spec(state: Option<HoverFlags>, rearm: bool) -> (Option<HoverFlags>, HoverStep) {
    let outcome = match state {
        Some(f) => if f.visible {
            HoverOutcome::Hide
        } else {
            HoverOutcome::Idle
        },
        None => HoverOutcome::Idle,
    };
    (
        if rearm {
            Some(pending_flags())
        } else {
            None
        },
        HoverStep { outcome, cancel_timer: state is Some, arm_timer: rearm },
    )
}

/// The step decided before the text under the pointer is probed, if the
/// probe cannot affect it: a dismissed hover stays closed until the pointer
/// leaves the threshold (then restarts), and a pointer outside the host's
/// text clears the hover.
pub open spec fn step_before_probe(state: Option<HoverFlags>, within_threshold: bool, is_in_bounds: bool) -> Option<(Option<HoverFlags>, HoverStep)> {
    if state matches Some(f) && f.user_dismissed {
        if within_threshold {
            Some((state, idle_step()))
        } else {
            Some(restart_spec(state, true))
        }
    } else if !is_in_bounds {
        Some(restart_spec(state, false))
    } else {
        None
    }
}

/// The step decided from the probe. With no hover yet a new one starts. An
/// open tooltip closes (and a new hover starts) only when the pointer left
/// both the described token and the threshold. A pending hover opens once
/// the timer elapsed with the pointer resting within the threshold over a
/// glyph, and restarts when the pointer left the threshold.
pub open spec fn step_after_probe(state: Option<HoverFlags>, within_threshold: bool, timer_elapsed: bool, probe: HoverProbe) -> (Option<HoverFlags>, HoverStep) {
    match state {
        None => restart_spec(state, true),
        Some(f) => if f.visible && !probe.is_within_token && !within_threshold {
            restart_spec(state, true)
        } else if !f.visible {
            if timer_elapsed && within_threshold && !probe.is_clamped {
                (
                    Some(HoverFlags { visible: true, ..f }),
                    HoverStep { outcome: HoverOutcome::Show, cancel_timer: true, arm_timer: false },
                )
            } else if !within_threshold {
                restart_spec(state, true)
            } else {
                (state, idle_step())
            }
        } else {
            (state, idle_step())
        },
    }
}

/// The command x-ray hover state machine.
pub struct CommandXRayHover {
    state: Option<HoverFlags>,
}

impl View for CommandXRayHover {
    type V = Option<HoverFlags>;

    closed spec fn view(&self) -> Option<HoverFlags> {
        self.state
    }
}

fn restart(state: &mut Option<HoverFlags>, rearm: bool) -> (r: HoverStep)
    ensures
        (*final(state), r) == restart_spec(*old(state), rearm),
{
    let outcome = match state {
        Some(f) => if f.visible {
            HoverOutcome::Hide
        } else {
            HoverOutcome::Idle
        },
        None => HoverOutcome::Idle,
    };
    let cancel_timer = state.is_some();
    *state = if rearm {
        Some(HoverFlags { visible: false, user_dismissed: false })
    } else {
        None
    };
    HoverStep { outcome, cancel_timer, arm_timer: rearm }
}

impl CommandXRayHover {
    /// A machine with no hover pending or open.
    pub fn new() -> (r: Self)
        ensures
            r@ is None,
    {
        CommandXRayHover { state: None }
    }

    /// Advances the machine for a pointer move. `within_threshold` is whether
    /// the pointer is within the movement threshold of the hover point the
    /// host recorded, `is_in_bounds` whether it is over the host's text, and
    /// `timer_elapsed` whether the hover timer has fired. `probe` resolves the
    /// text under the pointer and is called only when it can affect the
    /// outcome.
    pub fn on_mouse_moved(
        &mut self,
        within_threshold: bool,
        is_in_bounds: bool,
        timer_elapsed: bool,
        probe: impl FnOnce() -> HoverProbe,
    ) -> (r: HoverStep)
        requires
            call_requires(probe, ()),
        ensures
            match step_before_probe(old(self)@, within_threshold, is_in_bounds) {
                Some(decided) => (final(self)@, r) == decided,
                None => exists|p: HoverProbe|
                    call_ensures(probe, (), p) && (final(self)@, r) == step_after_probe(
                        old(self)@,
                        within_threshold,
                        timer_elapsed,
                        p,
                    ),
            },
    {
        let ghost s0 = self.state;
        let dismissed = match &self.state {
            Some(f) => f.user_dismissed,
            None => false,
        };
        if dismissed {
            if within_threshold {
                return HoverStep { outcome: HoverOutcome::Idle, cancel_timer: false, arm_timer: false };
            }
            return restart(&mut self.state, true);
        }
        if !is_in_bounds {
            return restart(&mut self.state, false);
        }
        let p = probe();
        let r = match self.state {
            None => restart(&mut self.state, true),
            Some(f) => {
                if f.visible && !p.is_within_token && !within_threshold {
                    restart(&mut self.state, true)
                } else if !f.visible {
                    if timer_elapsed && within_threshold && !p.is_clamped {
                        self.state = Some(HoverFlags { visible: true, user_dismissed: f.user_dismissed });
                        HoverStep { outcome: HoverOutcome::Show, cancel_timer: true, arm_timer: false }
                    } else if !within_threshold {
                        restart(&mut self.state, true)
                    } else {
                        HoverStep { outcome: HoverOutcome::Idle, cancel_timer: false, arm_timer: false }
                    }
                } else {
                    HoverStep { outcome: HoverOutcome::Idle, cancel_timer: false, arm_timer: false }
                }
            },
        };
        assert(call_ensures(probe, (), p));
        assert((self.state, r) == step_after_probe(s0, within_threshold, timer_elapsed, p));
        r
    }

    /// Marks the hover as dismissed by the user, so it stays closed until the
    /// pointer moves beyond the threshold.
    pub fn mark_user_dismissed(&mut self)
        ensures
            final(self)@ == match old(self)@ {
                Some(f) => Some(HoverFlags { user_dismissed: true, ..f }),
                None => None,
            },
    {
        match self.state {
            Some(f) => {
                self.state = Some(HoverFlags { visible: f.visible, user_dismissed: true });
            },
            None => {},
        }
    }

    /// Whether the tooltip is open.
    pub fn is_visible(&self) -> (r: bool)
        ensures
            r == (self@ matches Some(f) && f.visible),
    {
        match self.state {
            Some(f) => f.visible,
            None => false,
        }
    }

    /// Whether a hover is pending or open.
    pub fn is_armed(&self) -> (r: bool)
        ensures
            r == self@ is Some,
    {
        self.state.is_some()
    }

    /// Whether the user dismissed the current hover.
    pub fn is_user_dismissed(&self) -> (r: bool)
        ensures
            r == (self@ matches Some(f) && f.user_dismissed),
    {
        match self.state {
            Some(f) => f.user_dismissed,
            None => false,
        }
    }
}

/// A dismissed hover stays closed, and nothing happens, while the pointer
/// rests within the threshold; moving beyond it starts a fresh pending hover.
pub proof fn law_dismissed_hover_stays_closed(f: HoverFlags, within_threshold: bool, is_in_bounds: bool)
    requires
        f.user_dismissed,
    ensures
        within_threshold ==> step_before_probe(Some(f), within_threshold, is_in_bounds) == Some((Some(f), idle_step())),
        !within_threshold ==> (step_before_probe(Some(f), within_threshold, is_in_bounds) matches Some((st, step))
            && st == Some(pending_flags()) && step.arm_timer && step.cancel_timer),
{
}

/// The tooltip opens only from a pending hover whose timer elapsed while the
/// pointer rested within the threshold over a glyph.
pub proof fn law_show_needs_rest(state: Option<HoverFlags>, within_threshold: bool, timer_elapsed: bool, p: HoverProbe)
    requires
        step_after_probe(state, within_threshold, timer_elapsed, p).1.outcome is Show,
    ensures
        state matches Some(f) && !f.visible,
        timer_elapsed && within_threshold && !p.is_clamped,
        step_after_probe(state, within_threshold, timer_elapsed, p).0 matches Some(g) && g.visible,
{
}

/// A tooltip is hidden only when one was open, and an open tooltip stays
/// open while the pointer is within the described token or the threshold.
pub proof fn law_hide_only_when_open(state: Option<HoverFlags>, within_threshold: bool, is_in_bounds: bool, timer_elapsed: bool, p: HoverProbe)
    ensures
        (step_before_probe(state, within_threshold, is_in_bounds) matches Some((_, step)) && step.outcome is Hide)
            ==> (state matches Some(f) && f.visible),
        step_after_probe(state, within_threshold, timer_elapsed, p).1.outcome is Hide ==> (state matches Some(f) && f.visible),
        (state matches Some(f) && f.visible && (p.is_within_token || within_threshold))
            ==> step_after_probe(state, within_threshold, timer_elapsed, p) == (state, idle_step()),
{
}

/// Leaving the host's text clears any hover that was not dismissed, hiding
/// an open tooltip.
pub proof fn law_leaving_clears(state: Option<HoverFlags>, within_threshold: bool)
    requires
        !(state matches Some(f) && f.user_dismissed),
    ensures
        step_before_probe(state, within_threshold, false) matches Some((st, step)) && st is None
            && !step.arm_timer && (step.outcome is Hide == (state matches Some(f) && f.visible)),
{
}

} // verus!
