use warp_app::runner::{
    confirm_delete, confirm_delete_with, merge_instance_shape, resolve_arch, resolve_runner, resolve_updated_name,
    DeleteConfirmation, RunnerArch, RunnerArchArg, RunnerError, RunnerIdentity, RunnerOsArg,
};
use warp_app::status_text::{resolve_default_warping_text, LOAD_OUTPUT_MESSAGE, REFRESHING_CREDENTIALS_MESSAGE};

#[test]
fn blocked_credential_refresh_uses_refreshing_text() {
    assert_eq!(resolve_default_warping_text(true, None), REFRESHING_CREDENTIALS_MESSAGE);
}

#[test]
fn non_blocking_credential_refresh_keeps_default_warping_text() {
    assert_eq!(resolve_default_warping_text(false, None), LOAD_OUTPUT_MESSAGE);
}

#[test]
fn credential_refresh_text_takes_precedence_over_fallback_text() {
    assert_eq!(
        resolve_default_warping_text(true, Some("Warping with another model.")),
        REFRESHING_CREDENTIALS_MESSAGE
    );
}

#[test]
fn fallback_text_shows_without_a_blocking_refresh() {
    assert_eq!(
        resolve_default_warping_text(false, Some("Warping with another model.")),
        "Warping with another model."
    );
}

#[test]
fn confirm_delete_refuses_non_interactive_without_force() {
    let err = confirm_delete("runner-123", false).expect_err("non-interactive refusal is an error");
    let msg = err.message();
    assert!(msg.contains("non-interactive"), "got: {msg}");
    assert!(msg.contains("runner-123"), "got: {msg}");
    assert_eq!(confirm_delete("runner-123", true), Ok(DeleteConfirmation::Proceed));
    assert_eq!(confirm_delete_with("runner-123", false, true), Ok(DeleteConfirmation::AskUser));
    assert!(confirm_delete_with("runner-123", false, false).is_err());
}

#[test]
fn resolve_arch_auto_maps_to_os_default() {
    assert!(matches!(resolve_arch(RunnerArchArg::Auto, RunnerOsArg::Linux), RunnerArch::X8664));
    assert!(matches!(resolve_arch(RunnerArchArg::Auto, RunnerOsArg::Macos), RunnerArch::Aarch64));
}

#[test]
fn resolve_arch_explicit_is_preserved_regardless_of_os() {
    assert!(matches!(resolve_arch(RunnerArchArg::X8664, RunnerOsArg::Macos), RunnerArch::X8664));
    assert!(matches!(resolve_arch(RunnerArchArg::Aarch64, RunnerOsArg::Linux), RunnerArch::Aarch64));
}

#[test]
fn merge_instance_shape_updates_dimensions_independently() {
    assert_eq!(merge_instance_shape(None, None, Some((2, 4))).unwrap(), Some((2, 4)));
    assert_eq!(merge_instance_shape(Some(8), None, Some((2, 4))).unwrap(), Some((8, 4)));
    assert_eq!(merge_instance_shape(None, Some(16), Some((2, 4))).unwrap(), Some((2, 16)));
    assert_eq!(merge_instance_shape(Some(8), Some(16), Some((2, 4))).unwrap(), Some((8, 16)));
    assert_eq!(merge_instance_shape(None, None, None).unwrap(), None);
}

#[test]
fn merge_instance_shape_errors_on_partial_shape_without_existing() {
    assert!(merge_instance_shape(Some(8), None, None).is_err());
    assert!(merge_instance_shape(None, Some(16), None).is_err());
    assert_eq!(merge_instance_shape(Some(8), Some(16), None), Ok(Some((8, 16))));
    assert_eq!(merge_instance_shape(Some(8), None, None), Err(RunnerError::PartialInstanceShape));
}

#[test]
fn resolve_updated_name_renames_only_with_uid() {
    assert_eq!(resolve_updated_name(true, Some("new"), "old"), "new");
    assert_eq!(resolve_updated_name(true, None, "old"), "old");
    assert_eq!(resolve_updated_name(false, Some("old"), "old"), "old");
}

fn make_runner(uid: &str, name: &str) -> RunnerIdentity {
    RunnerIdentity { uid: uid.to_string(), name: name.to_string() }
}

#[test]
fn resolve_runner_matches_exact_uid() {
    let runners = vec![make_runner("uid-1", "alpha"), make_runner("uid-2", "beta")];
    let resolved = resolve_runner(&runners, Some("uid-2"), None).unwrap();
    assert_eq!(runners[resolved].uid, "uid-2");
}

#[test]
fn resolve_runner_falls_back_to_name_when_identifier_is_not_a_uid() {
    let runners = vec![make_runner("uid-1", "alpha"), make_runner("uid-2", "beta")];
    let resolved = resolve_runner(&runners, Some("beta"), None).unwrap();
    assert_eq!(runners[resolved].uid, "uid-2");
}

#[test]
fn resolve_runner_prefers_uid_match_over_name_param() {
    let runners = vec![make_runner("uid-1", "alpha"), make_runner("uid-2", "beta")];
    let resolved = resolve_runner(&runners, Some("uid-1"), Some("new-name")).unwrap();
    assert_eq!(runners[resolved].uid, "uid-1");
}

#[test]
fn resolve_runner_uses_name_arg_when_identifier_is_absent() {
    let runners = vec![make_runner("uid-1", "alpha")];
    let resolved = resolve_runner(&runners, None, Some("alpha")).unwrap();
    assert_eq!(runners[resolved].uid, "uid-1");
}

#[test]
fn resolve_runner_errors_when_name_is_ambiguous() {
    let runners = vec![make_runner("uid-1", "dup"), make_runner("uid-2", "dup")];
    let err = resolve_runner(&runners, Some("dup"), None).unwrap_err();
    assert!(err.message().contains("Multiple runners match"), "got: {}", err.message());
}

#[test]
fn resolve_runner_errors_when_not_found() {
    let runners = vec![make_runner("uid-1", "alpha")];
    let err = resolve_runner(&runners, Some("missing"), None).unwrap_err();
    assert!(err.message().contains("not found"), "got: {}", err.message());
}

#[test]
fn resolve_runner_errors_when_neither_identifier_nor_name_given() {
    let runners = vec![make_runner("uid-1", "alpha")];
    let err = resolve_runner(&runners, None, None).unwrap_err();
    assert!(err.message().contains("required"), "got: {}", err.message());
    assert_eq!(err, RunnerError::RunnerSelectorRequired);
}
