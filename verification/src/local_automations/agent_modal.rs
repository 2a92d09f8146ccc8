//! The two-option agent modal for the automations page's entry points: the
//! "New" button, a suggested recipe, and a row's "Move to cloud" action.
//!
//! The modal offers to hand the flow to a Warp agent conversation or to copy
//! an equivalent prompt for another agent. Choosing an option dispatches the
//! matching workspace action and closes the modal.

use vstd::prelude::*;

use crate::local_automations::automation::{LocalAutomation, LocalAutomationView};
use crate::local_automations::suggestions::SuggestedAutomation;
use crate::text::{owned, push_all};

verus! {

/// Which automation flow the modal is offering agent options for.
pub enum LocalAutomationsAgentModalMode {
    /// The "New" button: create an automation from scratch.
    NewAutomation,
    /// A "Suggested" row: set up the given recipe.
    SetUpSuggestion(SuggestedAutomation),
    /// A row's "Move to cloud" action: recreate the automation as a cloud
    /// schedule.
    MoveToCloud(Box<LocalAutomation>),
}

pub enum ModeView {
    NewAutomation,
    SetUpSuggestion(SuggestedAutomation),
    MoveToCloud(LocalAutomationView),
}

impl View for LocalAutomationsAgentModalMode {
    type V = ModeView;

    open spec fn view(&self) -> ModeView {
        match self {
            LocalAutomationsAgentModalMode::NewAutomation => ModeView::NewAutomation,
            LocalAutomationsAgentModalMode::SetUpSuggestion(s) => ModeView::SetUpSuggestion(*s),
            LocalAutomationsAgentModalMode::MoveToCloud(a) => ModeView::MoveToCloud(a@),
        }
    }
}

/// The modal's title for a mode.
pub open spec fn mode_title(m: ModeView) -> Seq<char> {
    match m {
        ModeView::NewAutomation => "Create an automation"@,
        ModeView::SetUpSuggestion(s) => "Set up \""@ + s.spec_title() + "\""@,
        ModeView::MoveToCloud(a) => "Move \""@ + a.name + "\" to cloud"@,
    }
}

pub open spec fn warp_agent_description_text(m: ModeView) -> Seq<char> {
    match m {
        ModeView::MoveToCloud(_) => "Start an agent conversation that recreates this automation as an Oz cloud schedule"@,
        _ => "Start an agent conversation that sets up the automation with you"@,
    }
}

pub open spec fn copy_prompt_description_text(m: ModeView) -> Seq<char> {
    match m {
        ModeView::MoveToCloud(_) => "Copy a move-to-cloud prompt to paste into another coding agent"@,
        _ => "Copy a setup prompt to paste into another coding agent"@,
    }
}

impl LocalAutomationsAgentModalMode {
    /// The modal's title (see [`mode_title`]).
    pub fn title(&self) -> (r: String)
        ensures
            r@ == mode_title(self@),
    {
        match self {
            LocalAutomationsAgentModalMode::NewAutomation => owned("Create an automation"),
            LocalAutomationsAgentModalMode::SetUpSuggestion(suggestion) => {
                let mut r = owned("Set up \"");
                push_all(&mut r, suggestion.title());
                push_all(&mut r, "\"");
                r
            },
            LocalAutomationsAgentModalMode::MoveToCloud(automation) => {
                let mut r = owned("Move \"");
                push_all(&mut r, automation.name.as_str());
                push_all(&mut r, "\" to cloud");
                r
            },
        }
    }

    /// The description under "Use Warp Agent".
    pub fn warp_agent_description(&self) -> (r: &'static str)
        ensures
            r@ == warp_agent_description_text(self@),
    {
        match self {
            LocalAutomationsAgentModalMode::MoveToCloud(_) => "Start an agent conversation that recreates this automation as an Oz cloud schedule",
            _ => "Start an agent conversation that sets up the automation with you",
        }
    }

    /// The description under "Copy agent prompt".
    pub fn copy_prompt_description(&self) -> (r: &'static str)
        ensures
            r@ == copy_prompt_description_text(self@),
    {
        match self {
            LocalAutomationsAgentModalMode::MoveToCloud(_) => "Copy a move-to-cloud prompt to paste into another coding agent",
            _ => "Copy a setup prompt to paste into another coding agent",
        }
    }
}

/// What the user did in the modal.
#[derive(Debug, Clone, Copy, PartialEq, Eq, Structural)]
pub enum LocalAutomationsAgentModalAction {
    SelectWarpAgent,
    SelectCopyPrompt,
    Dismiss,
    HoveredIn(usize),
    ArrowUp,
    ArrowDown,
    Enter,
}

/// The modal closed, by a choice (whose action it dispatched) or by
/// dismissal.
#[derive(Debug, Clone, Copy, PartialEq, Eq, Structural)]
pub enum LocalAutomationsAgentModalEvent {
    Closed,
}

/// The workspace actions the automations page dispatches.
pub enum AutomationWorkspaceAction {
    NewLocalAutomationWithWarpAgent,
    CopyLocalAutomationPrompt,
    NewLocalAutomationFromSuggestion { suggestion: SuggestedAutomation },
    CopyLocalAutomationSuggestionPrompt { suggestion: SuggestedAutomation },
    PromoteLocalAutomationToCloud { automation: LocalAutomation },
    CopyLocalAutomationPromotionPrompt { automation: LocalAutomation },
    RunLocalAutomation { automation: LocalAutomation },
    OpenLocalAutomationConfig { path: String },
}

pub enum ActionView {
    NewLocalAutomationWithWarpAgent,
    CopyLocalAutomationPrompt,
    NewLocalAutomationFromSuggestion(SuggestedAutomation),
    CopyLocalAutomationSuggestionPrompt(SuggestedAutomation),
    PromoteLocalAutomationToCloud(LocalAutomationView),
    CopyLocalAutomationPromotionPrompt(LocalAutomationView),
    RunLocalAutomation(LocalAutomationView),
    OpenLocalAutomationConfig(Seq<char>),
}

impl View for AutomationWorkspaceAction {
    type V = ActionView;

    open spec fn view(&self) -> ActionView {
        match self {
            AutomationWorkspaceAction::NewLocalAutomationWithWarpAgent => ActionView::NewLocalAutomationWithWarpAgent,
            AutomationWorkspaceAction::CopyLocalAutomationPrompt => ActionView::CopyLocalAutomationPrompt,
            AutomationWorkspaceAction::NewLocalAutomationFromSuggestion { suggestion } => ActionView::NewLocalAutomationFromSuggestion(*suggestion),
            AutomationWorkspaceAction::CopyLocalAutomationSuggestionPrompt { suggestion } => ActionView::CopyLocalAutomationSuggestionPrompt(*suggestion),
            AutomationWorkspaceAction::PromoteLocalAutomationToCloud { automation } => ActionView::PromoteLocalAutomationToCloud(automation@),
            AutomationWorkspaceAction::CopyLocalAutomationPromotionPrompt { automation } => ActionView::CopyLocalAutomationPromotionPrompt(automation@),
            AutomationWorkspaceAction::RunLocalAutomation { automation } => ActionView::RunLocalAutomation(automation@),
            AutomationWorkspaceAction::OpenLocalAutomationConfig { path } => ActionView::OpenLocalAutomationConfig(path@),
        }
    }
}

pub open spec fn action_view(a: Option<AutomationWorkspaceAction>) -> Option<ActionView> {
    match a {
        Some(x) => Some(x@),
        None => None,
    }
}

/// What handling an action asks of the host: the workspace action to
/// dispatch, whether to emit [`LocalAutomationsAgentModalEvent::Closed`],
/// and whether to re-render.
pub struct ModalEffects {
    pub dispatch: Option<AutomationWorkspaceAction>,
    pub closed: bool,
    pub notify: bool,
}

/// The modal's state: the flow it is open for (none while hidden) and the
/// highlighted option (0 is "Use Warp Agent", 1 "Copy agent prompt").
pub struct LocalAutomationsAgentModal {
    mode: Option<LocalAutomationsAgentModalMode>,
    selected_option_index: usize,
}

pub struct ModalView {
    pub mode: Option<ModeView>,
    pub selected: usize,
}

pub open spec fn mode_view(m: Option<LocalAutomationsAgentModalMode>) -> Option<ModeView> {
    match m {
        Some(x) => Some(x@),
        None => None,
    }
}

impl View for LocalAutomationsAgentModal {
    type V = ModalView;

    closed spec fn view(&self) -> ModalView {
        ModalView { mode: mode_view(self.mode), selected: self.selected_option_index }
    }
}

/// The workspace action for choosing an option in a mode.
pub open spec fn choice_action(m: ModeView, use_warp_agent: bool) -> ActionView {
    match m {
        ModeView::NewAutomation => if use_warp_agent {
            ActionView::NewLocalAutomationWithWarpAgent
        } else {
            ActionView::CopyLocalAutomationPrompt
        },
        ModeView::SetUpSuggestion(s) => if use_warp_agent {
            ActionView::NewLocalAutomationFromSuggestion(s)
        } else {
            ActionView::CopyLocalAutomationSuggestionPrompt(s)
        },
        ModeView::MoveToCloud(a) => if use_warp_agent {
            ActionView::PromoteLocalAutomationToCloud(a)
        } else {
            ActionView::CopyLocalAutomationPromotionPrompt(a)
        },
    }
}

/// The effects, as plain values: dispatched action, closed, notify.
pub open spec fn effects_view(e: ModalEffects) -> (Option<ActionView>, bool, bool) {
    (action_view(e.dispatch), e.closed, e.notify)
}

/// Choosing an option closes an open modal and dispatches the option's
/// action for its mode; a hidden modal does nothing.
pub open spec fn select_spec(v: ModalView, use_warp_agent: bool) -> (ModalView, (Option<ActionView>, bool, bool)) {
    match v.mode {
        Some(m) => (
            ModalView { mode: None, ..v },
            (Some(choice_action(m, use_warp_agent)), true, true),
        ),
        None => (v, (None, false, false)),
    }
}

/// The modal's response to an action.
pub open spec fn modal_step(v: ModalView, action: LocalAutomationsAgentModalAction) -> (ModalView, (Option<ActionView>, bool, bool)) {
    match action {
        LocalAutomationsAgentModalAction::SelectWarpAgent => select_spec(v, true),
        LocalAutomationsAgentModalAction::SelectCopyPrompt => select_spec(v, false),
        LocalAutomationsAgentModalAction::Dismiss => match v.mode {
            Some(_) => (ModalView { mode: None, ..v }, (None, true, true)),
            None => (v, (None, false, false)),
        },
        LocalAutomationsAgentModalAction::HoveredIn(i) => (ModalView { selected: i, ..v }, (None, false, true)),
        LocalAutomationsAgentModalAction::ArrowUp | LocalAutomationsAgentModalAction::ArrowDown => (
            ModalView {
                selected: if v.selected == 0 {
                    1
                } else {
                    0
                },
                ..v
            },
            (None, false, true),
        ),
        LocalAutomationsAgentModalAction::Enter => select_spec(v, v.selected == 0),
    }
}

impl LocalAutomationsAgentModal {
    /// A hidden modal with the first option highlighted.
    pub fn new() -> (r: Self)
        ensures
            r@.mode is None,
            r@.selected == 0,
    {
        LocalAutomationsAgentModal { mode: None, selected_option_index: 0 }
    }

    pub fn is_visible(&self) -> (r: bool)
        ensures
            r == self@.mode is Some,
    {
        self.mode.is_some()
    }

    /// The highlighted option.
    pub fn selected_option_index(&self) -> (r: usize)
        ensures
            r == self@.selected,
    {
        self.selected_option_index
    }

    /// The flow the modal is open for.
    pub fn mode(&self) -> (r: &Option<LocalAutomationsAgentModalMode>)
        ensures
            mode_view(*r) == self@.mode,
    {
        &self.mode
    }

    /// Opens the modal for the given flow with the first option highlighted.
    pub fn show(&mut self, mode: LocalAutomationsAgentModalMode)
        ensures
            final(self)@.mode == Some(mode@),
            final(self)@.selected == 0,
    {
        self.mode = Some(mode);
        self.selected_option_index = 0;
    }

    /// Hides the modal without emitting an event; returns whether it was
    /// open (and the host should re-render).
    pub fn hide_silently(&mut self) -> (r: bool)
        ensures
            r == old(self)@.mode is Some,
            final(self)@.mode is None,
            final(self)@.selected == old(self)@.selected,
    {
        let was_open = self.mode.is_some();
        self.mode = None;
        was_open
    }

    fn select(&mut self, use_warp_agent: bool) -> (r: ModalEffects)
        ensures
            (final(self)@, effects_view(r)) == select_spec(old(self)@, use_warp_agent),
    {
        let mode = self.mode.take();
        match mode {
            None => ModalEffects { dispatch: None, closed: false, notify: false },
            Some(m) => {
                let action = match m {
                    LocalAutomationsAgentModalMode::NewAutomation => if use_warp_agent {
                        AutomationWorkspaceAction::NewLocalAutomationWithWarpAgent
                    } else {
                        AutomationWorkspaceAction::CopyLocalAutomationPrompt
                    },
                    LocalAutomationsAgentModalMode::SetUpSuggestion(suggestion) => if use_warp_agent {
                        AutomationWorkspaceAction::NewLocalAutomationFromSuggestion { suggestion }
                    } else {
                        AutomationWorkspaceAction::CopyLocalAutomationSuggestionPrompt { suggestion }
                    },
                    LocalAutomationsAgentModalMode::MoveToCloud(automation) => if use_warp_agent {
                        AutomationWorkspaceAction::PromoteLocalAutomationToCloud { automation: *automation }
                    } else {
                        AutomationWorkspaceAction::CopyLocalAutomationPromotionPrompt { automation: *automation }
                    },
                };
                ModalEffects { dispatch: Some(action), closed: true, notify: true }
            },
        }
    }

    /// Responds to an action (see [`modal_step`]).
    pub fn handle_action(&mut self, action: &LocalAutomationsAgentModalAction) -> (r: ModalEffects)
        ensures
            (final(self)@, effects_view(r)) == modal_step(old(self)@, *action),
    {
        match action {
            LocalAutomationsAgentModalAction::SelectWarpAgent => self.select(true),
            LocalAutomationsAgentModalAction::SelectCopyPrompt => self.select(false),
            LocalAutomationsAgentModalAction::Dismiss => {
                if self.mode.is_some() {
                    self.mode = None;
                    ModalEffects { dispatch: None, closed: true, notify: true }
                } else {
                    ModalEffects { dispatch: None, closed: false, notify: false }
                }
            },
            LocalAutomationsAgentModalAction::HoveredIn(index) => {
                self.selected_option_index = *index;
                ModalEffects { dispatch: None, closed: false, notify: true }
            },
            LocalAutomationsAgentModalAction::ArrowUp | LocalAutomationsAgentModalAction::ArrowDown => {
                self.selected_option_index = if self.selected_option_index == 0 {
                    1
                } else {
                    0
                };
                ModalEffects { dispatch: None, closed: false, notify: true }
            },
            LocalAutomationsAgentModalAction::Enter => {
                let use_warp_agent = self.selected_option_index == 0;
                self.select(use_warp_agent)
            },
        }
    }
}

/// Every way an open modal stops being open emits exactly one `Closed`, and
/// an action is dispatched only together with it.
pub proof fn law_modal_closes_once(v: ModalView, action: LocalAutomationsAgentModalAction)
    ensures
        ({
            let (w, (dispatch, closed, _)) = modal_step(v, action);
            &&& closed <==> (v.mode is Some && w.mode is None)
            &&& dispatch is Some ==> closed
            &&& v.mode is None ==> dispatch is None && !closed
        }),
{
}

/// Enter chooses the highlighted option: the first one is the Warp agent,
/// any other the copied prompt; the arrow keys alternate between the two.
pub proof fn law_enter_picks_highlighted(v: ModalView, m: ModeView)
    requires
        v.mode == Some(m),
    ensures
        modal_step(v, LocalAutomationsAgentModalAction::Enter).1.0 == Some(choice_action(m, v.selected == 0)),
        modal_step(v, LocalAutomationsAgentModalAction::ArrowDown).0.selected == (if v.selected == 0 {
            1usize
        } else {
            0usize
        }),
        modal_step(modal_step(v, LocalAutomationsAgentModalAction::ArrowDown).0, LocalAutomationsAgentModalAction::ArrowUp).0.selected
            == (if v.selected == 0 {
            0usize
        } else {
            1usize
        }),
{
}

} // verus!
