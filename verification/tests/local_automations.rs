use warp_app::local_automations::agent_modal::{
    AutomationWorkspaceAction, LocalAutomationsAgentModal, LocalAutomationsAgentModalAction,
    LocalAutomationsAgentModalMode,
};
use warp_app::local_automations::automation::{
    home_relative, new_automation_agent_prompt, new_automation_external_prompt,
    promote_automation_agent_prompt, promote_automation_external_prompt, promote_automation_prompt_for_home,
    LocalAutomation, LocalAutomationError, LocalAutomationRunner,
};
use warp_app::local_automations::list_view::{
    delete_failure_message, row_chips, row_subtitle, toggle_failure_message, FocusTarget, LocalAutomationsView, LocalAutomationsViewAction,
    RowMenuEntry, RowMenuIcon,
};
use warp_app::local_automations::schedule_text::{
    humanize_schedule, moment_fragment, normalize_schedule, time_of_day_text, MomentKind, ScheduleError,
};
use warp_app::local_automations::suggestions::SuggestedAutomation;

fn agent_automation() -> LocalAutomation {
    LocalAutomation {
        name: "Morning repo brief".to_string(),
        schedule: "0 9 * * 1-5".to_string(),
        cwd: Some("~/code/warp".to_string()),
        runner: LocalAutomationRunner::WarpAgent {
            prompt: "Summarize commits on main from the last 24h.".to_string(),
        },
        enabled: true,
        source_path: None,
    }
}

fn shell_automation() -> LocalAutomation {
    LocalAutomation {
        name: "PR sweep".to_string(),
        schedule: "@daily".to_string(),
        cwd: Some("/tmp".to_string()),
        runner: LocalAutomationRunner::Shell {
            command: "gh pr list --author @me".to_string(),
        },
        enabled: true,
        source_path: None,
    }
}

#[test]
fn promote_prompt_with_source_path_points_at_the_toml() {
    let mut automation = agent_automation();
    automation.source_path = Some("/tmp/automations/morning_brief.toml".to_string());

    let prompt = promote_automation_agent_prompt(&automation);
    assert!(prompt.contains("create-automation skill"), "{prompt}");
    assert!(prompt.contains("\"Morning repo brief\""), "{prompt}");
    assert!(prompt.contains("morning_brief.toml"), "{prompt}");
    assert!(prompt.contains("Oz cloud schedule"), "{prompt}");
    assert!(prompt.contains("Oz environment"), "{prompt}");
}

#[test]
fn promote_prompt_without_source_path_embeds_key_fields() {
    let automation = agent_automation();
    assert_eq!(automation.source_path, None);

    let prompt = promote_automation_agent_prompt(&automation);
    assert!(prompt.contains("\"Morning repo brief\""), "{prompt}");
    assert!(prompt.contains("0 9 * * 1-5"), "{prompt}");
    assert!(prompt.contains("Summarize commits on main from the last 24h."), "{prompt}");
}

#[test]
fn promote_prompt_without_source_path_embeds_shell_command() {
    let automation = shell_automation();
    let prompt = promote_automation_external_prompt(&automation);
    assert!(prompt.contains("Warp local automation"), "{prompt}");
    assert!(prompt.contains("gh pr list --author @me"), "{prompt}");
}

#[test]
fn external_promote_prompt_names_warp() {
    let mut automation = agent_automation();
    automation.source_path = Some("/tmp/automations/morning_brief.toml".to_string());

    let prompt = promote_automation_external_prompt(&automation);
    assert!(prompt.contains("Warp local automation"), "{prompt}");
    assert!(prompt.contains("morning_brief.toml"), "{prompt}");
}

#[test]
fn promote_prompt_text_is_exact() {
    let mut automation = agent_automation();
    automation.source_path = Some("/home/me/.warp/automations/brief.toml".to_string());
    assert_eq!(
        promote_automation_prompt_for_home(&automation, "local automation", Some("/home/me")),
        "Use the create-automation skill to promote my local automation \"Morning repo brief\" to an Oz cloud \
         schedule. Read its config at ~/.warp/automations/brief.toml for the existing name, schedule, and runner, \
         and walk me through picking or creating an Oz environment."
    );
    assert_eq!(
        promote_automation_prompt_for_home(&shell_automation(), "Warp local automation", None),
        "Use the create-automation skill to promote my Warp local automation \"PR sweep\" to an Oz cloud \
         schedule. Its schedule is `@daily` and it runs this shell command: gh pr list --author @me. Walk me \
         through picking or creating an Oz environment."
    );
}

#[test]
fn home_relative_paths_only_shorten_inside_home() {
    assert_eq!(home_relative("/home/me/a.toml", Some("/home/me")), "~/a.toml");
    assert_eq!(home_relative("/home/me", Some("/home/me")), "~");
    assert_eq!(home_relative("/home/meow/a.toml", Some("/home/me")), "/home/meow/a.toml");
    assert_eq!(home_relative("/tmp/a.toml", None), "/tmp/a.toml");
}

#[test]
fn new_automation_prompts_defer_to_the_skill() {
    let expected = "Use the create-automation skill to create a new automation with me.";
    assert_eq!(new_automation_agent_prompt(), expected);
    assert_eq!(new_automation_external_prompt(), expected);
}

#[test]
fn suggestions_have_titles_descriptions_and_prompts() {
    assert_eq!(SuggestedAutomation::PrBabysitter.title(), "PR babysitter");
    assert!(SuggestedAutomation::StaleBranchCleanup.description().starts_with("Prune merged"));
    assert!(SuggestedAutomation::MiniSoftwareFactory.prompt().contains("GitHub repository I pick"));
    assert!(SuggestedAutomation::PrBabysitter.prompt().contains("\"PR babysitter\""));
    assert_eq!(SuggestedAutomation::all().len(), 3);
    assert_eq!(SuggestedAutomation::at(2), Some(SuggestedAutomation::MiniSoftwareFactory));
    assert_eq!(SuggestedAutomation::at(3), None);
}

#[test]
fn modal_titles_and_descriptions_follow_the_mode() {
    assert_eq!(LocalAutomationsAgentModalMode::NewAutomation.title(), "Create an automation");
    assert_eq!(
        LocalAutomationsAgentModalMode::SetUpSuggestion(SuggestedAutomation::PrBabysitter).title(),
        "Set up \"PR babysitter\""
    );
    let move_mode = LocalAutomationsAgentModalMode::MoveToCloud(Box::new(agent_automation()));
    assert_eq!(move_mode.title(), "Move \"Morning repo brief\" to cloud");
    assert!(move_mode.warp_agent_description().contains("Oz cloud schedule"));
    assert!(move_mode.copy_prompt_description().contains("move-to-cloud prompt"));
    assert!(LocalAutomationsAgentModalMode::NewAutomation.copy_prompt_description().contains("setup prompt"));
}

#[test]
fn modal_enter_selects_the_highlighted_option_and_closes() {
    let mut modal = LocalAutomationsAgentModal::new();
    modal.show(LocalAutomationsAgentModalMode::SetUpSuggestion(SuggestedAutomation::StaleBranchCleanup));
    assert!(modal.is_visible());
    let effects = modal.handle_action(&LocalAutomationsAgentModalAction::ArrowDown);
    assert!(effects.notify && !effects.closed);
    assert_eq!(modal.selected_option_index(), 1);
    let effects = modal.handle_action(&LocalAutomationsAgentModalAction::Enter);
    assert!(effects.closed);
    assert!(matches!(
        effects.dispatch,
        Some(AutomationWorkspaceAction::CopyLocalAutomationSuggestionPrompt {
            suggestion: SuggestedAutomation::StaleBranchCleanup
        })
    ));
    assert!(!modal.is_visible());
    let effects = modal.handle_action(&LocalAutomationsAgentModalAction::Enter);
    assert!(effects.dispatch.is_none() && !effects.closed);
}

#[test]
fn modal_dismissal_closes_once() {
    let mut modal = LocalAutomationsAgentModal::new();
    modal.show(LocalAutomationsAgentModalMode::NewAutomation);
    modal.handle_action(&LocalAutomationsAgentModalAction::HoveredIn(1));
    assert_eq!(modal.selected_option_index(), 1);
    let first = modal.handle_action(&LocalAutomationsAgentModalAction::Dismiss);
    assert!(first.closed);
    let second = modal.handle_action(&LocalAutomationsAgentModalAction::Dismiss);
    assert!(!second.closed);
    modal.show(LocalAutomationsAgentModalMode::NewAutomation);
    assert_eq!(modal.selected_option_index(), 0);
    let chosen = modal.handle_action(&LocalAutomationsAgentModalAction::SelectWarpAgent);
    assert!(matches!(chosen.dispatch, Some(AutomationWorkspaceAction::NewLocalAutomationWithWarpAgent)));
}

fn list() -> LocalAutomationsView {
    let mut with_file = agent_automation();
    with_file.source_path = Some("/home/me/.warp/automations/brief.toml".to_string());
    with_file.enabled = false;
    LocalAutomationsView::new(
        vec![with_file, shell_automation()],
        vec![LocalAutomationError { file_path: "/home/me/.warp/automations/broken.toml".to_string() }],
    )
}

#[test]
fn row_menu_offers_file_actions_only_with_a_file() {
    let mut view = list();
    let effects = view.handle_action(&LocalAutomationsViewAction::ToggleRowMenu(0), false);
    assert_eq!(effects.focus, FocusTarget::RowMenu);
    assert_eq!(
        effects.row_menu,
        Some(vec![RowMenuEntry::EditConfig, RowMenuEntry::Resume, RowMenuEntry::MoveToCloud, RowMenuEntry::Delete])
    );
    assert_eq!(view.show_row_menu(), Some(0));
    let closed = view.handle_action(&LocalAutomationsViewAction::ToggleRowMenu(0), false);
    assert_eq!(closed.focus, FocusTarget::List);
    assert_eq!(view.show_row_menu(), None);

    let effects = view.handle_action(&LocalAutomationsViewAction::ToggleRowMenu(1), false);
    assert_eq!(effects.row_menu, Some(vec![RowMenuEntry::MoveToCloud]));
    assert_eq!(RowMenuEntry::Resume.label(), "Resume");
    assert_eq!(RowMenuEntry::Resume.icon(), RowMenuIcon::Play);
    assert!(RowMenuEntry::Delete.is_destructive());
    assert_eq!(RowMenuEntry::Pause.action(4), LocalAutomationsViewAction::ToggleRowEnabled(4));
}

#[test]
fn row_actions_dispatch_and_write_files() {
    let mut view = list();
    let run = view.handle_action(&LocalAutomationsViewAction::Run(1), false);
    assert!(matches!(run.dispatch, Some(AutomationWorkspaceAction::RunLocalAutomation { ref automation }) if automation.name == "PR sweep"));
    let missing = view.handle_action(&LocalAutomationsViewAction::Run(5), false);
    assert!(missing.dispatch.is_none());
    let toggle = view.handle_action(&LocalAutomationsViewAction::ToggleRowEnabled(0), false);
    assert_eq!(toggle.set_enabled, Some(("/home/me/.warp/automations/brief.toml".to_string(), true)));
    let no_file = view.handle_action(&LocalAutomationsViewAction::DeleteRow(1), false);
    assert_eq!(no_file.delete_file, None);
    let delete = view.handle_action(&LocalAutomationsViewAction::DeleteRow(0), false);
    assert_eq!(delete.delete_file, Some("/home/me/.warp/automations/brief.toml".to_string()));
    let open_error = view.handle_action(&LocalAutomationsViewAction::OpenErrorFile(0), false);
    assert!(matches!(open_error.dispatch, Some(AutomationWorkspaceAction::OpenLocalAutomationConfig { ref path }) if path == "/home/me/.warp/automations/broken.toml"));
    let collapse = view.handle_action(&LocalAutomationsViewAction::ToggleSuggestions, false);
    assert_eq!(collapse.set_suggestions_collapsed, Some(true));
}

#[test]
fn opening_the_modal_closes_the_row_menu() {
    let mut view = list();
    view.handle_action(&LocalAutomationsViewAction::ToggleRowMenu(0), false);
    let effects = view.handle_action(&LocalAutomationsViewAction::OpenMoveToCloudModal(0), false);
    assert!(effects.modal_toggled);
    assert_eq!(effects.focus, FocusTarget::AgentModal);
    assert_eq!(view.show_row_menu(), None);
    assert!(view.is_agent_modal_visible());
    let chosen = view.handle_modal_action(&LocalAutomationsAgentModalAction::SelectWarpAgent);
    assert!(matches!(chosen.dispatch, Some(AutomationWorkspaceAction::PromoteLocalAutomationToCloud { ref automation }) if automation.name == "Morning repo brief"));
    assert!(!view.is_agent_modal_visible());
    let suggestion = view.handle_action(&LocalAutomationsViewAction::OpenSuggestionModal(7), false);
    assert!(!suggestion.modal_toggled);
    view.handle_action(&LocalAutomationsViewAction::OpenNewAutomationModal, false);
    assert!(view.on_open());
    assert!(!view.is_agent_modal_visible());
}

#[test]
fn row_write_failures_name_what_was_asked() {
    assert_eq!(toggle_failure_message(true, "permission denied"), "Couldn't resume automation: permission denied");
    assert_eq!(toggle_failure_message(false, "disk full"), "Couldn't pause automation: disk full");
    assert_eq!(delete_failure_message("not found"), "Couldn't delete automation: not found");
}

#[test]
fn row_chips_follow_the_runner() {
    assert_eq!(row_chips("Agent", false, false, true), vec!["Agent"]);
    assert_eq!(
        row_chips("Shell", true, true, false),
        vec!["Shell", "Missed", "Invalid schedule", "Disabled"]
    );
    assert_eq!(row_chips("Shell", false, true, true), vec!["Shell", "Invalid schedule"]);
}

#[test]
fn row_subtitle_joins_known_parts() {
    assert_eq!(row_subtitle("Every day at 9:00", None, None), "Every day at 9:00");
    assert_eq!(
        row_subtitle("Every day at 9:00", Some("next in 2h"), Some("last ran 1d ago")),
        "Every day at 9:00 · next in 2h · last ran 1d ago"
    );
    assert_eq!(row_subtitle("Hourly", None, Some("last ran 5m ago")), "Hourly · last ran 5m ago");
}

#[test]
fn closing_the_row_menu_forgets_it() {
    let mut view = list();
    view.handle_action(&LocalAutomationsViewAction::ToggleRowMenu(0), false);
    assert_eq!(view.show_row_menu(), Some(0));
    view.row_menu_closed();
    assert_eq!(view.show_row_menu(), None);
}

#[test]
fn normalize_presets() {
    assert_eq!(normalize_schedule("@hourly").unwrap(), "0 * * * *");
    assert_eq!(normalize_schedule("@daily").unwrap(), "0 0 * * *");
    assert_eq!(normalize_schedule("@weekly").unwrap(), "0 0 * * 0");
    assert_eq!(normalize_schedule("@monthly").unwrap(), "0 0 1 * *");
    assert_eq!(normalize_schedule("@yearly").unwrap(), "0 0 1 1 *");
    assert_eq!(normalize_schedule("@annually").unwrap(), "0 0 1 1 *");
    assert_eq!(normalize_schedule("0 9 * * 1-5").unwrap(), "0 9 * * 1-5");
    assert!(matches!(normalize_schedule("  "), Err(ScheduleError::Empty)));
}

#[test]
fn humanize_schedule_presets_and_common_crons() {
    assert_eq!(humanize_schedule("@hourly"), "Hourly");
    assert_eq!(humanize_schedule("@daily"), "Daily");
    assert_eq!(humanize_schedule("@weekly"), "Weekly");
    assert_eq!(humanize_schedule("@monthly"), "Monthly");
    assert_eq!(humanize_schedule("@annually"), "Yearly");

    assert_eq!(humanize_schedule("30 18 * * *"), "Daily 6:30pm");
    assert_eq!(humanize_schedule("0 9 * * 1-5"), "Weekdays 9:00am");
    assert_eq!(humanize_schedule("0 10 * * 0,6"), "Weekends 10:00am");
    assert_eq!(humanize_schedule("0 8 * * 0"), "Sundays 8:00am");
    assert_eq!(humanize_schedule("15 0 * * 3"), "Wednesdays 12:15am");
    assert_eq!(humanize_schedule("0 12 * * *"), "Daily 12:00pm");
}

#[test]
fn humanize_schedule_falls_back_to_raw() {
    // Anything with ranges/steps/fixed dates keeps the raw expression.
    assert_eq!(humanize_schedule("*/5 * * * *"), "*/5 * * * *");
    assert_eq!(humanize_schedule("0 9 1 * *"), "0 9 1 * *");
    assert_eq!(humanize_schedule("0 9 * 6 *"), "0 9 * 6 *");
    assert_eq!(humanize_schedule("0 9 * * 1,3"), "0 9 * * 1,3");
    assert_eq!(humanize_schedule("whenever"), "whenever");
}

#[test]
fn schedule_text_edges() {
    assert_eq!(normalize_schedule("  @daily\n").unwrap(), "0 0 * * *");
    assert_eq!(normalize_schedule(" 5 4 * * * ").unwrap(), "5 4 * * *");
    assert_eq!(humanize_schedule("60 9 * * *"), "60 9 * * *");
    assert_eq!(humanize_schedule("0 24 * * *"), "0 24 * * *");
    assert_eq!(humanize_schedule("5 23 * * 6"), "Saturdays 11:05pm");
    assert_eq!(time_of_day_text(0, 0), "12:00am");
    assert_eq!(time_of_day_text(13, 7), "1:07pm");
}

#[test]
fn schedule_moments_read_as_next_and_last_ran() {
    assert_eq!(moment_fragment(MomentKind::Next, 7, 23, 9, 0), "Next Jul 23 9:00am");
    assert_eq!(moment_fragment(MomentKind::LastRan, 7, 22, 9, 0), "Last ran Jul 22 9:00am");
    assert_eq!(moment_fragment(MomentKind::Next, 12, 1, 18, 45), "Next Dec 1 6:45pm");
}
