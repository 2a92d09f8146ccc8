//! Local automations: personal, user-scoped jobs defined as TOML files under
//! the user's automations directory. The modules here hold what the
//! automations page decides: the agent prompts, the two-option agent modal
//! and the list view's response to each action.

pub mod automation;
pub mod suggestions;
pub mod agent_modal;
pub mod list_view;
pub mod schedule_text;
