//! The automations list: what it does for each action of its rows, its
//! overflow menu, its "New" button and its suggested recipes.
//!
//! The list holds the loaded automations, the files that failed to load,
//! which row's overflow menu is open and the shared agent modal. Each action
//! updates that state and returns the effects for the host to carry out:
//! workspace actions to dispatch, the menu entries to show, where focus
//! goes, and the file writes the row actions ask for.

use vstd::prelude::*;

use crate::local_automations::agent_modal::{
    action_view, mode_view, ActionView, AutomationWorkspaceAction, LocalAutomationsAgentModal,
    LocalAutomationsAgentModalAction, LocalAutomationsAgentModalMode, ModalEffects, ModalView,
    ModeView, effects_view, modal_step,
};
use crate::local_automations::automation::{opt_view, LocalAutomation, LocalAutomationError, LocalAutomationView};
use crate::local_automations::suggestions::SuggestedAutomation;
use crate::text::{owned, push_all};

verus! {

/// What the user did on the automations page.
#[derive(Debug, Clone, Copy, PartialEq, Eq, Structural)]
pub enum LocalAutomationsViewAction {
    Run(usize),
    OpenErrorFile(usize),
    /// Opens the agent modal for creating an automation from scratch.
    OpenNewAutomationModal,
    /// Collapses or expands the "Suggested" section.
    ToggleSuggestions,
    /// Opens the agent modal for the suggestion at this index.
    OpenSuggestionModal(usize),
    /// Toggles the overflow menu of the automation row at this index.
    ToggleRowMenu(usize),
    /// Opens the config file of the row at this index.
    OpenRowConfig(usize),
    /// Opens the move-to-cloud agent modal for the row at this index.
    OpenMoveToCloudModal(usize),
    /// Pauses or resumes the automation at this index.
    ToggleRowEnabled(usize),
    /// Deletes the automation file of the row at this index.
    DeleteRow(usize),
}

/// The agent modal opened or closed; hosts re-render their overlay.
#[derive(Debug, Clone, Copy, PartialEq, Eq, Structural)]
pub enum LocalAutomationsViewEvent {
    AgentModalToggled,
}

/// An entry of a row's overflow menu.
#[derive(Debug, Clone, Copy, PartialEq, Eq, Structural)]
pub enum RowMenuEntry {
    EditConfig,
    Pause,
    Resume,
    MoveToCloud,
    Delete,
}

/// The icon of an overflow menu entry.
#[derive(Debug, Clone, Copy, PartialEq, Eq, Structural)]
pub enum RowMenuIcon {
    Pencil,
    Pause,
    Play,
    Cloud,
    Trash,
}

impl RowMenuEntry {
    pub open spec fn spec_label(self) -> Seq<char> {
        match self {
            RowMenuEntry::EditConfig => "Edit config"@,
            RowMenuEntry::Pause => "Pause"@,
            RowMenuEntry::Resume => "Resume"@,
            RowMenuEntry::MoveToCloud => "Move to cloud"@,
            RowMenuEntry::Delete => "Delete"@,
        }
    }

    pub fn label(self) -> (r: &'static str)
        ensures
            r@ == self.spec_label(),
    {
        match self {
            RowMenuEntry::EditConfig => "Edit config",
            RowMenuEntry::Pause => "Pause",
            RowMenuEntry::Resume => "Resume",
            RowMenuEntry::MoveToCloud => "Move to cloud",
            RowMenuEntry::Delete => "Delete",
        }
    }

    pub fn icon(self) -> (r: RowMenuIcon)
        ensures
            r == match self {
                RowMenuEntry::EditConfig => RowMenuIcon::Pencil,
                RowMenuEntry::Pause => RowMenuIcon::Pause,
                RowMenuEntry::Resume => RowMenuIcon::Play,
                RowMenuEntry::MoveToCloud => RowMenuIcon::Cloud,
                RowMenuEntry::Delete => RowMenuIcon::Trash,
            },
    {
        match self {
            RowMenuEntry::EditConfig => RowMenuIcon::Pencil,
            RowMenuEntry::Pause => RowMenuIcon::Pause,
            RowMenuEntry::Resume => RowMenuIcon::Play,
            RowMenuEntry::MoveToCloud => RowMenuIcon::Cloud,
            RowMenuEntry::Delete => RowMenuIcon::Trash,
        }
    }

    /// Whether the entry is shown in the destructive (red) text color.
    pub fn is_destructive(self) -> (r: bool)
        ensures
            r == (self == RowMenuEntry::Delete),
    {
        match self {
            RowMenuEntry::Delete => true,
            _ => false,
        }
    }

    /// The action the entry dispatches for the row at `index`.
    pub fn action(self, index: usize) -> (r: LocalAutomationsViewAction)
        ensures
            r == match self {
                RowMenuEntry::EditConfig => LocalAutomationsViewAction::OpenRowConfig(index),
                RowMenuEntry::Pause | RowMenuEntry::Resume => LocalAutomationsViewAction::ToggleRowEnabled(index),
                RowMenuEntry::MoveToCloud => LocalAutomationsViewAction::OpenMoveToCloudModal(index),
                RowMenuEntry::Delete => LocalAutomationsViewAction::DeleteRow(index),
            },
    {
        match self {
            RowMenuEntry::EditConfig => LocalAutomationsViewAction::OpenRowConfig(index),
            RowMenuEntry::Pause | RowMenuEntry::Resume => LocalAutomationsViewAction::ToggleRowEnabled(index),
            RowMenuEntry::MoveToCloud => LocalAutomationsViewAction::OpenMoveToCloudModal(index),
            RowMenuEntry::Delete => LocalAutomationsViewAction::DeleteRow(index),
        }
    }
}

/// Where focus goes after an action.
#[derive(Debug, Clone, Copy, PartialEq, Eq, Structural)]
pub enum FocusTarget {
    Unchanged,
    List,
    RowMenu,
    AgentModal,
}

/// What handling an action asks of the host.
pub struct ViewEffects {
    /// A workspace action to dispatch.
    pub dispatch: Option<AutomationWorkspaceAction>,
    /// The new collapse state of the "Suggested" section, to persist.
    pub set_suggestions_collapsed: Option<bool>,
    /// The entries to put in the overflow menu that just opened.
    pub row_menu: Option<Vec<RowMenuEntry>>,
    pub focus: FocusTarget,
    /// Whether to emit [`LocalAutomationsViewEvent::AgentModalToggled`].
    pub modal_toggled: bool,
    /// Whether to re-render.
    pub notify: bool,
    /// Write `enabled` into the automation file at this path.
    pub set_enabled: Option<(String, bool)>,
    /// Delete the automation file at this path.
    pub delete_file: Option<String>,
}

pub struct EffectsView {
    pub dispatch: Option<ActionView>,
    pub set_suggestions_collapsed: Option<bool>,
    pub row_menu: Option<Seq<RowMenuEntry>>,
    pub focus: FocusTarget,
    pub modal_toggled: bool,
    pub notify: bool,
    pub set_enabled: Option<(Seq<char>, bool)>,
    pub delete_file: Option<Seq<char>>,
}

impl View for ViewEffects {
    type V = EffectsView;

    open spec fn view(&self) -> EffectsView {
        EffectsView {
            dispatch: action_view(self.dispatch),
            set_suggestions_collapsed: self.set_suggestions_collapsed,
            row_menu: match self.row_menu {
                Some(v) => Some(v@),
                None => None,
            },
            focus: self.focus,
            modal_toggled: self.modal_toggled,
            notify: self.notify,
            set_enabled: match self.set_enabled {
                Some((p, e)) => Some((p@, e)),
                None => None,
            },
            delete_file: opt_view(self.delete_file),
        }
    }
}

pub open spec fn no_effects() -> EffectsView {
    EffectsView {
        dispatch: None,
        set_suggestions_collapsed: None,
        row_menu: None,
        focus: FocusTarget::Unchanged,
        modal_toggled: false,
        notify: false,
        set_enabled: None,
        delete_file: None,
    }
}

/// The automations list.
pub struct LocalAutomationsView {
    rows: Vec<LocalAutomation>,
    error_rows: Vec<LocalAutomationError>,
    agent_modal: LocalAutomationsAgentModal,
    show_row_menu: Option<usize>,
}

pub struct ListView {
    pub rows: Seq<LocalAutomationView>,
    pub error_paths: Seq<Seq<char>>,
    pub modal: ModalView,
    pub show_row_menu: Option<usize>,
}

pub open spec fn automation_views(v: Seq<LocalAutomation>) -> Seq<LocalAutomationView> {
    v.map_values(|a: LocalAutomation| a@)
}

pub open spec fn error_path_views(v: Seq<LocalAutomationError>) -> Seq<Seq<char>> {
    v.map_values(|e: LocalAutomationError| e.file_path@)
}

impl View for LocalAutomationsView {
    type V = ListView;

    closed spec fn view(&self) -> ListView {
        ListView {
            rows: automation_views(self.rows@),
            error_paths: error_path_views(self.error_rows@),
            modal: self.agent_modal@,
            show_row_menu: self.show_row_menu,
        }
    }
}

/// The overflow menu of a row: "Edit config" and "Pause" or "Resume" when
/// the automation's file is known, "Move to cloud", and "Delete" when the
/// file is known.
pub open spec fn menu_entries(a: LocalAutomationView) -> Seq<RowMenuEntry> {
    if a.source_path is Some {
        seq![
            RowMenuEntry::EditConfig,
            if a.enabled {
                RowMenuEntry::Pause
            } else {
                RowMenuEntry::Resume
            },
            RowMenuEntry::MoveToCloud,
            RowMenuEntry::Delete,
        ]
    } else {
        seq![RowMenuEntry::MoveToCloud]
    }
}

/// Opening the agent modal closes the overflow menu, shows the modal for
/// the mode with its first option highlighted, focuses it and tells the
/// host.
pub open spec fn open_modal_spec(v: ListView, m: ModeView) -> (ListView, EffectsView) {
    (
        ListView { show_row_menu: None, modal: ModalView { mode: Some(m), selected: 0 }, ..v },
        EffectsView { focus: FocusTarget::AgentModal, modal_toggled: true, notify: true, ..no_effects() },
    )
}

/// The list's response to an action, given whether the "Suggested"
/// section is collapsed. Actions on rows that do not exist (or, for the
/// file actions, whose file is not known) do nothing.
pub open spec fn view_step(v: ListView, action: LocalAutomationsViewAction, collapsed: bool) -> (ListView, EffectsView) {
    match action {
        LocalAutomationsViewAction::Run(i) => if i < v.rows.len() {
            (v, EffectsView { dispatch: Some(ActionView::RunLocalAutomation(v.rows[i as int])), ..no_effects() })
        } else {
            (v, no_effects())
        },
        LocalAutomationsViewAction::OpenErrorFile(i) => if i < v.error_paths.len() {
            (v, EffectsView { dispatch: Some(ActionView::OpenLocalAutomationConfig(v.error_paths[i as int])), ..no_effects() })
        } else {
            (v, no_effects())
        },
        LocalAutomationsViewAction::ToggleSuggestions => (
            v,
            EffectsView { set_suggestions_collapsed: Some(!collapsed), notify: true, ..no_effects() },
        ),
        LocalAutomationsViewAction::OpenNewAutomationModal => open_modal_spec(v, ModeView::NewAutomation),
        LocalAutomationsViewAction::OpenSuggestionModal(i) => if i < 3 {
            open_modal_spec(v, ModeView::SetUpSuggestion(SuggestedAutomation::spec_all()[i as int]))
        } else {
            (v, no_effects())
        },
        LocalAutomationsViewAction::ToggleRowMenu(i) => if v.show_row_menu == Some(i) {
            (
                ListView { show_row_menu: None, ..v },
                EffectsView { focus: FocusTarget::List, notify: true, ..no_effects() },
            )
        } else if i < v.rows.len() {
            (
                ListView { show_row_menu: Some(i), ..v },
                EffectsView {
                    row_menu: Some(menu_entries(v.rows[i as int])),
                    focus: FocusTarget::RowMenu,
                    notify: true,
                    ..no_effects()
                },
            )
        } else {
            (v, EffectsView { notify: true, ..no_effects() })
        },
        LocalAutomationsViewAction::OpenRowConfig(i) => if i < v.rows.len() && v.rows[i as int].source_path is Some {
            (
                v,
                EffectsView {
                    dispatch: Some(ActionView::OpenLocalAutomationConfig(v.rows[i as int].source_path->Some_0)),
                    ..no_effects()
                },
            )
        } else {
            (v, no_effects())
        },
        LocalAutomationsViewAction::OpenMoveToCloudModal(i) => if i < v.rows.len() {
            open_modal_spec(v, ModeView::MoveToCloud(v.rows[i as int]))
        } else {
            (v, no_effects())
        },
        LocalAutomationsViewAction::ToggleRowEnabled(i) => if i < v.rows.len() && v.rows[i as int].source_path is Some {
            (
                v,
                EffectsView {
                    set_enabled: Some((v.rows[i as int].source_path->Some_0, !v.rows[i as int].enabled)),
                    ..no_effects()
                },
            )
        } else {
            (v, no_effects())
        },
        LocalAutomationsViewAction::DeleteRow(i) => if i < v.rows.len() && v.rows[i as int].source_path is Some {
            (v, EffectsView { delete_file: v.rows[i as int].source_path, ..no_effects() })
        } else {
            (v, no_effects())
        },
    }
}

fn none_effects() -> (r: ViewEffects)
    ensures
        r@ == no_effects(),
{
    ViewEffects {
        dispatch: None,
        set_suggestions_collapsed: None,
        row_menu: None,
        focus: FocusTarget::Unchanged,
        modal_toggled: false,
        notify: false,
        set_enabled: None,
        delete_file: None,
    }
}

fn copy_path(p: &String) -> (r: String)
    ensures
        r@ == p@,
{
    owned(p.as_str())
}

impl LocalAutomationsView {
    /// A list of the given automations and failed files, with no menu open
    /// and the agent modal hidden.
    pub fn new(automations: Vec<LocalAutomation>, errors: Vec<LocalAutomationError>) -> (r: Self)
        ensures
            r@.rows == automation_views(automations@),
            r@.error_paths == error_path_views(errors@),
            r@.show_row_menu is None,
            r@.modal.mode is None,
            r@.modal.selected == 0,
    {
        LocalAutomationsView {
            rows: automations,
            error_rows: errors,
            agent_modal: LocalAutomationsAgentModal::new(),
            show_row_menu: None,
        }
    }

    /// Replaces the rows with freshly loaded automations and failed files.
    pub fn refresh(&mut self, automations: Vec<LocalAutomation>, errors: Vec<LocalAutomationError>)
        ensures
            final(self)@ == (ListView {
                rows: automation_views(automations@),
                error_paths: error_path_views(errors@),
                ..old(self)@
            }),
    {
        self.rows = automations;
        self.error_rows = errors;
    }

    /// The page was selected: the overflow menu closes and the agent modal
    /// hides without an event. Returns whether the modal was open.
    pub fn on_open(&mut self) -> (r: bool)
        ensures
            r == old(self)@.modal.mode is Some,
            final(self)@ == (ListView {
                show_row_menu: None,
                modal: ModalView { mode: None, ..old(self)@.modal },
                ..old(self)@
            }),
    {
        self.show_row_menu = None;
        self.agent_modal.hide_silently()
    }

    /// The overflow menu closed itself.
    pub fn row_menu_closed(&mut self)
        ensures
            final(self)@ == (ListView { show_row_menu: None, ..old(self)@ }),
    {
        self.show_row_menu = None;
    }

    /// The row whose overflow menu is open.
    pub fn show_row_menu(&self) -> (r: Option<usize>)
        ensures
            r == self@.show_row_menu,
    {
        self.show_row_menu
    }

    /// Whether the agent modal is open.
    pub fn is_agent_modal_visible(&self) -> (r: bool)
        ensures
            r == self@.modal.mode is Some,
    {
        self.agent_modal.is_visible()
    }

    /// The shared agent modal.
    pub fn agent_modal(&self) -> (r: &LocalAutomationsAgentModal)
        ensures
            r@ == self@.modal,
    {
        &self.agent_modal
    }

    /// Forwards an action to the agent modal (see [`modal_step`]).
    pub fn handle_modal_action(&mut self, action: &LocalAutomationsAgentModalAction) -> (r: ModalEffects)
        ensures
            (final(self)@.modal, effects_view(r)) == modal_step(old(self)@.modal, *action),
            final(self)@ == (ListView { modal: final(self)@.modal, ..old(self)@ }),
    {
        self.agent_modal.handle_action(action)
    }

    fn open_agent_modal(&mut self, mode: LocalAutomationsAgentModalMode) -> (r: ViewEffects)
        ensures
            (final(self)@, r@) == open_modal_spec(old(self)@, mode@),
    {
        self.show_row_menu = None;
        self.agent_modal.show(mode);
        ViewEffects {
            dispatch: None,
            set_suggestions_collapsed: None,
            row_menu: None,
            focus: FocusTarget::AgentModal,
            modal_toggled: true,
            notify: true,
            set_enabled: None,
            delete_file: None,
        }
    }

    fn menu_for(&self, index: usize) -> (r: Vec<RowMenuEntry>)
        requires
            index < self@.rows.len(),
        ensures
            r@ == menu_entries(self@.rows[index as int]),
    {
        let row = &self.rows[index];
        assert(self@.rows[index as int] == row@);
        let mut items: Vec<RowMenuEntry> = Vec::new();
        let has_source_path = row.source_path.is_some();
        if has_source_path {
            items.push(RowMenuEntry::EditConfig);
            if row.enabled {
                items.push(RowMenuEntry::Pause);
            } else {
                items.push(RowMenuEntry::Resume);
            }
        }
        items.push(RowMenuEntry::MoveToCloud);
        if has_source_path {
            items.push(RowMenuEntry::Delete);
        }
        assert(items@ =~= menu_entries(row@));
        items
    }

    /// Responds to an action (see [`view_step`]); `suggestions_collapsed` is
    /// the persisted collapse state of the "Suggested" section.
    pub fn handle_action(&mut self, action: &LocalAutomationsViewAction, suggestions_collapsed: bool) -> (r: ViewEffects)
        ensures
            (final(self)@, r@) == view_step(old(self)@, *action, suggestions_collapsed),
    {
        match *action {
            LocalAutomationsViewAction::Run(index) => {
                if index < self.rows.len() {
                    let automation = self.rows[index].clone();
                    assert(self@.rows[index as int] == self.rows@[index as int]@);
                    let mut e = none_effects();
                    e.dispatch = Some(AutomationWorkspaceAction::RunLocalAutomation { automation });
                    e
                } else {
                    none_effects()
                }
            },
            LocalAutomationsViewAction::OpenErrorFile(index) => {
                if index < self.error_rows.len() {
                    let path = copy_path(&self.error_rows[index].file_path);
                    assert(self@.error_paths[index as int] == self.error_rows@[index as int].file_path@);
                    let mut e = none_effects();
                    e.dispatch = Some(AutomationWorkspaceAction::OpenLocalAutomationConfig { path });
                    e
                } else {
                    none_effects()
                }
            },
            LocalAutomationsViewAction::ToggleSuggestions => {
                let mut e = none_effects();
                e.set_suggestions_collapsed = Some(!suggestions_collapsed);
                e.notify = true;
                e
            },
            LocalAutomationsViewAction::OpenNewAutomationModal => {
                self.open_agent_modal(LocalAutomationsAgentModalMode::NewAutomation)
            },
            LocalAutomationsViewAction::OpenSuggestionModal(index) => {
                match SuggestedAutomation::at(index) {
                    Some(suggestion) => self.open_agent_modal(LocalAutomationsAgentModalMode::SetUpSuggestion(suggestion)),
                    None => none_effects(),
                }
            },
            LocalAutomationsViewAction::ToggleRowMenu(index) => {
                let same = match self.show_row_menu {
                    Some(open) => open == index,
                    None => false,
                };
                if same {
                    self.show_row_menu = None;
                    let mut e = none_effects();
                    e.focus = FocusTarget::List;
                    e.notify = true;
                    e
                } else if index < self.rows.len() {
                    let items = self.menu_for(index);
                    self.show_row_menu = Some(index);
                    let mut e = none_effects();
                    e.row_menu = Some(items);
                    e.focus = FocusTarget::RowMenu;
                    e.notify = true;
                    e
                } else {
                    let mut e = none_effects();
                    e.notify = true;
                    e
                }
            },
            LocalAutomationsViewAction::OpenRowConfig(index) => {
                if index < self.rows.len() {
                    assert(self@.rows[index as int] == self.rows@[index as int]@);
                    match &self.rows[index].source_path {
                        Some(p) => {
                            let path = copy_path(p);
                            let mut e = none_effects();
                            e.dispatch = Some(AutomationWorkspaceAction::OpenLocalAutomationConfig { path });
                            e
                        },
                        None => none_effects(),
                    }
                } else {
                    none_effects()
                }
            },
            LocalAutomationsViewAction::OpenMoveToCloudModal(index) => {
                if index < self.rows.len() {
                    let automation = self.rows[index].clone();
                    assert(self@.rows[index as int] == self.rows@[index as int]@);
                    self.open_agent_modal(LocalAutomationsAgentModalMode::MoveToCloud(Box::new(automation)))
                } else {
                    none_effects()
                }
            },
            LocalAutomationsViewAction::ToggleRowEnabled(index) => {
                if index < self.rows.len() {
                    assert(self@.rows[index as int] == self.rows@[index as int]@);
                    let enabled = !self.rows[index].enabled;
                    match &self.rows[index].source_path {
                        Some(p) => {
                            let path = copy_path(p);
                            let mut e = none_effects();
                            e.set_enabled = Some((path, enabled));
                            e
                        },
                        None => none_effects(),
                    }
                } else {
                    none_effects()
                }
            },
            LocalAutomationsViewAction::DeleteRow(index) => {
                if index < self.rows.len() {
                    assert(self@.rows[index as int] == self.rows@[index as int]@);
                    match &self.rows[index].source_path {
                        Some(p) => {
                            let path = copy_path(p);
                            let mut e = none_effects();
                            e.delete_file = Some(path);
                            e
                        },
                        None => none_effects(),
                    }
                } else {
                    none_effects()
                }
            },
        }
    }
}

/// The overflow menu of a row whose file is unknown offers only "Move to
/// cloud"; with a known file it offers to pause an enabled automation and to
/// resume a disabled one, and the file actions dispatch nothing without a
/// file.
pub proof fn law_menu_follows_file(a: LocalAutomationView)
    ensures
        a.source_path is None ==> menu_entries(a) == seq![RowMenuEntry::MoveToCloud],
        a.source_path is Some ==> menu_entries(a).contains(RowMenuEntry::Delete) && menu_entries(a).contains(
            if a.enabled {
                RowMenuEntry::Pause
            } else {
                RowMenuEntry::Resume
            },
        ),
{
    if a.source_path is Some {
        assert(menu_entries(a)[3] == RowMenuEntry::Delete);
        assert(menu_entries(a)[1] == (if a.enabled {
            RowMenuEntry::Pause
        } else {
            RowMenuEntry::Resume
        }));
    }
}

/// Toggling the same row's menu twice closes it again and leaves the list
/// as it was.
pub proof fn law_row_menu_toggle_twice(v: ListView, i: usize, collapsed: bool)
    requires
        v.show_row_menu is None,
        i < v.rows.len(),
    ensures
        view_step(view_step(v, LocalAutomationsViewAction::ToggleRowMenu(i), collapsed).0, LocalAutomationsViewAction::ToggleRowMenu(i), collapsed).0 == v,
{
}

/// Opening the agent modal, from any entry point, always closes the
/// overflow menu and highlights the first option.
pub proof fn law_modal_open_closes_menu(v: ListView, action: LocalAutomationsViewAction, collapsed: bool)
    requires
        view_step(v, action, collapsed).1.modal_toggled,
    ensures
        view_step(v, action, collapsed).0.show_row_menu is None,
        view_step(v, action, collapsed).0.modal.mode is Some,
        view_step(v, action, collapsed).0.modal.selected == 0,
        view_step(v, action, collapsed).1.focus == FocusTarget::AgentModal,
{
}


/// The toast shown when pausing or resuming an automation failed: the verb
/// says what was asked (`enabled` is the state the row was set to).
pub open spec fn toggle_failure_text(enabled: bool, error: Seq<char>) -> Seq<char> {
    "Couldn't "@ + (if enabled {
        "resume"@
    } else {
        "pause"@
    }) + " automation: "@ + error
}

pub fn toggle_failure_message(enabled: bool, error: &str) -> (r: String)
    ensures
        r@ == toggle_failure_text(enabled, error@),
{
    let mut r = owned("Couldn't ");
    push_all(&mut r, if enabled { "resume" } else { "pause" });
    push_all(&mut r, " automation: ");
    push_all(&mut r, error);
    r
}

/// The toast shown when deleting an automation's file failed.
pub fn delete_failure_message(error: &str) -> (r: String)
    ensures
        r@ == "Couldn't delete automation: "@ + error@,
{
    let mut r = owned("Couldn't delete automation: ");
    push_all(&mut r, error);
    r
}


/// The chips after an automation's name: its runner, then "Missed" when a
/// scheduled run was missed, "Invalid schedule" when its schedule does not
/// parse, and "Disabled" when it is paused.
pub open spec fn row_chips_spec(runner_label: Seq<char>, missed: bool, invalid_schedule: bool, enabled: bool) -> Seq<
    Seq<char>,
> {
    seq![runner_label] + (if missed {
        seq!["Missed"@]
    } else {
        Seq::empty()
    }) + (if invalid_schedule {
        seq!["Invalid schedule"@]
    } else {
        Seq::empty()
    }) + (if !enabled {
        seq!["Disabled"@]
    } else {
        Seq::empty()
    })
}

pub fn row_chips<'a>(runner_label: &'a str, missed: bool, invalid_schedule: bool, enabled: bool) -> (r: Vec<&'a str>)
    ensures
        r@.map_values(|c: &str| c@) == row_chips_spec(runner_label@, missed, invalid_schedule, enabled),
{
    let mut chips: Vec<&'a str> = Vec::new();
    chips.push(runner_label);
    if missed {
        chips.push("Missed");
    }
    if invalid_schedule {
        chips.push("Invalid schedule");
    }
    if !enabled {
        chips.push("Disabled");
    }
    assert(chips@.map_values(|c: &str| c@) =~= row_chips_spec(runner_label@, missed, invalid_schedule, enabled));
    chips
}

/// A part of the subtitle after the schedule, with its separator.
pub open spec fn subtitle_part(part: Option<Seq<char>>) -> Seq<char> {
    match part {
        Some(p) => " · "@ + p,
        None => Seq::empty(),
    }
}

/// The one-line subtitle of an automation's row: its schedule in words,
/// then when it runs next and when it last ran, as far as they are known.
pub fn row_subtitle(schedule: &str, next: Option<&str>, last_ran: Option<&str>) -> (r: String)
    ensures
        r@ == schedule@ + subtitle_part(match next {
            Some(n) => Some(n@),
            None => None,
        }) + subtitle_part(match last_ran {
            Some(l) => Some(l@),
            None => None,
        }),
{
    let mut r = owned(schedule);
    match next {
        Some(n) => {
            push_all(&mut r, " · ");
            push_all(&mut r, n);
        },
        None => {},
    }
    match last_ran {
        Some(l) => {
            push_all(&mut r, " · ");
            push_all(&mut r, l);
        },
        None => {},
    }
    r
}

} // verus!
