//! What a command x-ray host does when asked to show, hide or toggle the
//! x-ray: which update it applies, and whether a shown description is
//! announced to assistive technology.

use vstd::prelude::*;

verus! {

/// The completion context a host describes tokens against.
#[derive(Debug, Clone, Copy, PartialEq, Eq, Structural)]
pub enum CommandXRayContext {
    /// A live shell session: aliases, functions, `$PATH` and path
    /// completions all resolve.
    Session,
    /// No session; only the static command registry can be consulted.
    SessionAgnostic,
}

/// What opened the x-ray.
#[derive(Debug, Clone, Copy, PartialEq, Eq, Structural)]
pub enum CommandXRayTrigger {
    /// The pointer rested on a token.
    Hover,
    /// The keyboard shortcut.
    Keystroke,
}

/// How a host should change the x-ray it shows.
#[derive(Debug)]
pub enum CommandXRayUpdate<D> {
    /// Show this description.
    Show(D),
    /// The describe found nothing at the probed offset: drop any stored
    /// description without dismissing the hover, so a later hover on the
    /// same spot can still open.
    Empty,
    /// Hide the tooltip and dismiss the hover until the pointer moves.
    Dismiss,
}

/// What a toggle does.
#[derive(Debug, Clone, Copy, PartialEq, Eq, Structural)]
pub enum ToggleStep {
    /// Hide the x-ray that is showing.
    Hide,
    /// Describe the token at the offset and show it.
    Describe,
}

/// The update a hide applies: a dismissal when a description is showing,
/// nothing otherwise.
pub fn hide_update<D>(showing: bool) -> (r: Option<CommandXRayUpdate<D>>)
    ensures
        showing <==> r is Some,
        r matches Some(u) ==> u is Dismiss,
{
    if showing {
        Some(CommandXRayUpdate::Dismiss)
    } else {
        None
    }
}

/// The keyboard toggle: hide what shows, else describe.
pub fn toggle_step(showing: bool) -> (r: ToggleStep)
    ensures
        r == toggle_step_spec(showing),
{
    if showing {
        ToggleStep::Hide
    } else {
        ToggleStep::Describe
    }
}

/// The update for what a describe returned, and whether to announce it: a
/// description is shown, and announced when the keyboard asked for it;
/// nothing found empties the x-ray without dismissing the hover.
pub fn show_update<D>(description: Option<D>, trigger: CommandXRayTrigger) -> (r: (CommandXRayUpdate<D>, bool))
    ensures
        match description {
            Some(d) => r.0 == CommandXRayUpdate::Show(d) && r.1 == (trigger == CommandXRayTrigger::Keystroke),
            None => r.0 is Empty && !r.1,
        },
{
    match description {
        Some(d) => {
            let announce = match trigger {
                CommandXRayTrigger::Keystroke => true,
                CommandXRayTrigger::Hover => false,
            };
            (CommandXRayUpdate::Show(d), announce)
        },
        None => (CommandXRayUpdate::Empty, false),
    }
}

/// A toggle hides exactly when an x-ray shows, so a toggle after a hide
/// describes again.
pub proof fn law_toggle_alternates(showing: bool)
    ensures
        toggle_step_spec(showing) != toggle_step_spec(!showing),
        toggle_step_spec(showing) == ToggleStep::Hide <==> showing,
{
}

pub open spec fn toggle_step_spec(showing: bool) -> ToggleStep {
    if showing {
        ToggleStep::Hide
    } else {
        ToggleStep::Describe
    }
}

} // verus!
