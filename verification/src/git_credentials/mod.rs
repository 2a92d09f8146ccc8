//! Task-scoped Git credentials for cloud agent sandboxes.
//!
//! Tokens are stored only in owner-readable files. Git selects them by the
//! complete HTTPS repository path, and each GitLab checkout receives a private
//! `glab` configuration selected by a task-local wrapper. This module holds
//! the decisions behind that: which paths and origins are valid, which
//! credential serves which repository, and what goes into each file; writing
//! the files and running `git` is left to the caller.

pub mod paths;
pub mod credential;
pub mod text_output;
pub mod store;
pub mod state;
pub mod setup;
pub mod laws;
pub mod preflight;
