//! Command x-ray over the agent permission prompt's command body.
//!
//! The code editor showing the command resolves the character under the
//! pointer itself; the hover state records it together with the character
//! range of the token the open tooltip describes, and runs the same open and
//! close rules as the shared hover machine over them.

use vstd::prelude::*;

use crate::command_x_ray::hover::{pending_flags, HoverFlags};

verus! {

/// A request the hover sends to the view that owns the description.
#[derive(Clone, Copy, Debug, PartialEq, Eq, Structural)]
pub enum XRayRequest {
    /// Describe the token under the pointer and show the tooltip.
    ShowAtPointer,
    /// Hide the tooltip.
    Hide,
}

/// One step of the pointer machine: whether the move opened or closed the
/// tooltip, the request for the view, and what the element does with its
/// timer (`arm_timer` records the current position and arms a fresh timer).
#[derive(Clone, Copy, Debug, PartialEq, Eq, Structural)]
pub struct PointerStep {
    pub updated: bool,
    pub request: Option<XRayRequest>,
    pub cancel_timer: bool,
    pub arm_timer: bool,
}

/// What the rules read of the hover state.
pub struct HoverStateView {
    pub pointer: Option<HoverFlags>,
    pub hovered_char_index: Option<usize>,
    pub described_token_range: Option<(usize, usize)>,
}

/// State shared between the element that owns the pointer and the view that
/// owns the description.
pub struct CommandXRayHoverState {
    pointer: Option<HoverFlags>,
    /// The character index in the command text under the pointer, as
    /// resolved by the code editor's hit test.
    hovered_char_index: Option<usize>,
    /// The character range of the token the visible tooltip describes.
    described_token_range: Option<core::ops::Range<usize>>,
}

pub open spec fn range_view(r: Option<core::ops::Range<usize>>) -> Option<(usize, usize)> {
    match r {
        Some(t) => Some((t.start, t.end)),
        None => None,
    }
}

impl View for CommandXRayHoverState {
    type V = HoverStateView;

    closed spec fn view(&self) -> HoverStateView {
        HoverStateView {
            pointer: self.pointer,
            hovered_char_index: self.hovered_char_index,
            described_token_range: range_view(self.described_token_range),
        }
    }
}

/// Whether the pointer is inside the described token's range (start
/// inclusive, end exclusive).
pub open spec fn within_described_token(v: HoverStateView) -> bool {
    match (v.hovered_char_index, v.described_token_range) {
        (Some(h), Some((start, end))) => start <= h && h < end,
        _ => false,
    }
}

/// Resetting the hover: an open tooltip is hidden (and its token range
/// dropped), any armed timer is cancelled, and a new pending hover starts at
/// the pointer when `rearm` holds.
pub open spec fn reset_spec(v: HoverStateView, rearm: bool) -> (HoverStateView, PointerStep) {
    let open = v.pointer matches Some(f) && f.visible;
    (
        HoverStateView {
            pointer: if rearm {
                Some(pending_flags())
            } else {
                None
            },
            described_token_range: if open {
                None
            } else {
                v.described_token_range
            },
            ..v
        },
        PointerStep {
            updated: open,
            request: if open {
                Some(XRayRequest::Hide)
            } else {
                None
            },
            cancel_timer: v.pointer is Some,
            arm_timer: rearm,
        },
    )
}

pub open spec fn no_step() -> PointerStep {
    PointerStep { updated: false, request: None, cancel_timer: false, arm_timer: false }
}

/// The pointer rules: a dismissed tooltip stays closed until the pointer
/// leaves the threshold; leaving the command body clears the hover; a first
/// move starts one. An open tooltip closes only when the pointer left both
/// the described token and the threshold; a pending one opens once the timer
/// elapsed with the pointer resting within the threshold over command text,
/// and restarts when the pointer left the threshold.
pub open spec fn mouse_moved_spec(v: HoverStateView, within_threshold: bool, over_body: bool, timer_elapsed: bool) -> (HoverStateView, PointerStep) {
    if v.pointer matches Some(f) && f.user_dismissed {
        if within_threshold {
            (v, no_step())
        } else {
            reset_spec(v, true)
        }
    } else if !over_body {
        reset_spec(v, false)
    } else {
        match v.pointer {
            None => reset_spec(v, true),
            Some(f) => if f.visible && !within_described_token(v) && !within_threshold {
                reset_spec(v, true)
            } else if !f.visible {
                if timer_elapsed && within_threshold && v.hovered_char_index is Some {
                    (
                        HoverStateView { pointer: Some(HoverFlags { visible: true, ..f }), ..v },
                        PointerStep {
                            updated: true,
                            request: Some(XRayRequest::ShowAtPointer),
                            cancel_timer: true,
                            arm_timer: false,
                        },
                    )
                } else if !within_threshold {
                    reset_spec(v, true)
                } else {
                    (v, no_step())
                }
            } else {
                (v, no_step())
            },
        }
    }
}

impl CommandXRayHoverState {
    /// No hover, nothing hovered, nothing described.
    pub fn new() -> (r: Self)
        ensures
            r@.pointer is None,
            r@.hovered_char_index is None,
            r@.described_token_range is None,
    {
        CommandXRayHoverState { pointer: None, hovered_char_index: None, described_token_range: None }
    }

    /// Records the character index the code editor resolved for the current
    /// pointer position.
    pub fn set_hovered_char_index(&mut self, hovered_char_index: Option<usize>)
        ensures
            final(self)@ == (HoverStateView { hovered_char_index, ..old(self)@ }),
    {
        self.hovered_char_index = hovered_char_index;
    }

    /// The character index currently under the pointer, if any.
    pub fn hovered_char_index(&self) -> (r: Option<usize>)
        ensures
            r == self@.hovered_char_index,
    {
        self.hovered_char_index
    }

    /// Records the token range the visible tooltip describes; clearing it
    /// also marks the tooltip closed.
    pub fn set_described_token_range(&mut self, token_range: Option<core::ops::Range<usize>>)
        ensures
            final(self)@.described_token_range == range_view(token_range),
            final(self)@.hovered_char_index == old(self)@.hovered_char_index,
            final(self)@.pointer == match (token_range, old(self)@.pointer) {
                (None, Some(f)) => Some(HoverFlags { visible: false, ..f }),
                _ => old(self)@.pointer,
            },
    {
        if token_range.is_none() {
            match self.pointer {
                Some(f) => {
                    self.pointer = Some(HoverFlags { visible: false, user_dismissed: f.user_dismissed });
                },
                None => {},
            }
        }
        self.described_token_range = token_range;
    }

    /// Marks the tooltip as dismissed by the user, so it stays dismissed
    /// until the pointer moves somewhere else, and drops the described token.
    pub fn mark_user_dismissed(&mut self)
        ensures
            final(self)@.described_token_range is None,
            final(self)@.hovered_char_index == old(self)@.hovered_char_index,
            final(self)@.pointer == match old(self)@.pointer {
                Some(f) => Some(HoverFlags { visible: false, user_dismissed: true }),
                None => None,
            },
    {
        match self.pointer {
            Some(_) => {
                self.pointer = Some(HoverFlags { visible: false, user_dismissed: true });
            },
            None => {},
        }
        self.described_token_range = None;
    }

    /// Whether the pointer is still inside the bounds of the token the
    /// tooltip describes.
    pub fn is_pointer_within_described_token(&self) -> (r: bool)
        ensures
            r == within_described_token(self@),
    {
        match (&self.hovered_char_index, &self.described_token_range) {
            (Some(hovered), Some(token)) => token.start <= *hovered && *hovered < token.end,
            _ => false,
        }
    }

    /// Whether the tooltip is open.
    pub fn is_visible(&self) -> (r: bool)
        ensures
            r == (self@.pointer matches Some(f) && f.visible),
    {
        match self.pointer {
            Some(f) => f.visible,
            None => false,
        }
    }

    fn reset(&mut self, rearm: bool) -> (r: PointerStep)
        ensures
            (final(self)@, r) == reset_spec(old(self)@, rearm),
    {
        let open = match self.pointer {
            Some(f) => f.visible,
            None => false,
        };
        if open {
            self.described_token_range = None;
        }
        let cancel_timer = self.pointer.is_some();
        self.pointer = if rearm {
            Some(HoverFlags { visible: false, user_dismissed: false })
        } else {
            None
        };
        PointerStep {
            updated: open,
            request: if open {
                Some(XRayRequest::Hide)
            } else {
                None
            },
            cancel_timer,
            arm_timer: rearm,
        }
    }

    /// Advances the pointer machine for a move. `within_threshold` is whether
    /// the pointer is within the movement threshold of the recorded hover
    /// point, `over_body` whether it is over the uncovered command body, and
    /// `timer_elapsed` whether the hover timer has fired.
    pub fn mouse_moved(&mut self, within_threshold: bool, over_body: bool, timer_elapsed: bool) -> (r: PointerStep)
        ensures
            (final(self)@, r) == mouse_moved_spec(old(self)@, within_threshold, over_body, timer_elapsed),
    {
        let dismissed = match self.pointer {
            Some(f) => f.user_dismissed,
            None => false,
        };
        if dismissed {
            if within_threshold {
                return PointerStep { updated: false, request: None, cancel_timer: false, arm_timer: false };
            }
            return self.reset(true);
        }
        if !over_body {
            return self.reset(false);
        }
        match self.pointer {
            None => self.reset(true),
            Some(f) => {
                let within_token = self.is_pointer_within_described_token();
                if f.visible && !within_token && !within_threshold {
                    self.reset(true)
                } else if !f.visible {
                    if timer_elapsed && within_threshold && self.hovered_char_index.is_some() {
                        self.pointer = Some(HoverFlags { visible: true, user_dismissed: f.user_dismissed });
                        PointerStep {
                            updated: true,
                            request: Some(XRayRequest::ShowAtPointer),
                            cancel_timer: true,
                            arm_timer: false,
                        }
                    } else if !within_threshold {
                        self.reset(true)
                    } else {
                        PointerStep { updated: false, request: None, cancel_timer: false, arm_timer: false }
                    }
                } else {
                    PointerStep { updated: false, request: None, cancel_timer: false, arm_timer: false }
                }
            },
        }
    }
}

/// After a dismissal no token bounds remain, whatever is hovered, and the
/// tooltip stays closed while the pointer rests.
pub proof fn law_dismissal_clears_bounds(v: HoverStateView, w: HoverStateView, over_body: bool, timer_elapsed: bool)
    requires
        w.described_token_range is None,
        w.pointer matches Some(f) && f.user_dismissed && !f.visible,
    ensures
        !within_described_token(w),
        mouse_moved_spec(w, true, over_body, timer_elapsed) == (w, no_step()),
{
}

/// The tooltip opens only over command text, after the timer elapsed with
/// the pointer resting within the threshold, from a pending hover.
pub proof fn law_open_needs_text(v: HoverStateView, within_threshold: bool, over_body: bool, timer_elapsed: bool)
    requires
        mouse_moved_spec(v, within_threshold, over_body, timer_elapsed).1.request == Some(XRayRequest::ShowAtPointer),
    ensures
        v.hovered_char_index is Some,
        timer_elapsed && within_threshold && over_body,
        v.pointer matches Some(f) && !f.visible && !f.user_dismissed,
{
}

/// Whenever the tooltip is hidden the described token range is dropped with
/// it.
pub proof fn law_hide_drops_token(v: HoverStateView, within_threshold: bool, over_body: bool, timer_elapsed: bool)
    requires
        mouse_moved_spec(v, within_threshold, over_body, timer_elapsed).1.request == Some(XRayRequest::Hide),
    ensures
        mouse_moved_spec(v, within_threshold, over_body, timer_elapsed).0.described_token_range is None,
        v.pointer matches Some(f) && f.visible,
{
}

} // verus!
