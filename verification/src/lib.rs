//! Verified core logic of the Warp app: task Git credentials, command x-ray
//! hover and offset handling, local automations, MCP startup readiness,
//! usage formatting, vim selection arithmetic and single-instance roles.

pub mod local_automations;
pub mod text;
pub mod url_ops;
pub mod git_credentials;
pub mod command_x_ray;
pub mod mcp_readiness;
pub mod factory_access;
pub mod usage;
pub mod single_instance;
pub mod startup_auth;
pub mod vim_selection;
pub mod ambient_task;
pub mod environment;
pub mod orchestration;
pub mod plugins;
pub mod requested_command;
pub mod status_text;
pub mod runner;
pub mod home;
