use url::Url;
use warp_app::git_credentials::credential::{clone_url_for_path, credential_store_line, CodeForge, GitCredential, SourceRepo};
use warp_app::git_credentials::paths::{normalized_project_path, project_key, CredentialError};
use warp_app::git_credentials::preflight::{
    endpoint_url, project_api_url, refresh_decision, self_hosted_gitlab_credentials_for_repositories,
    transport_error_is_tls, GitLabPreflight,
    GitLabPreflightError, PreflightEvent, PreflightRequest, PreflightStep, RefreshDecision, RefreshOutcome,
    SendOutcome,
};
use warp_app::git_credentials::setup::{
    apply_refreshed_credentials, credentials_for_bootstrap, gh_hosts_yaml, gitlab_git_access_check_command,
    global_git_identity, task_bin_dir, task_bin_dir_for_home, task_credentials_file, task_credentials_root,
    TaskGitCredentialsResponse,
};
use warp_app::git_credentials::state::TaskCredentialState;
use warp_app::git_credentials::store::{select_credential_for_repository, unique_credentials_by_id};
use warp_app::git_credentials::text_output::{credential_diagnostics, shell_single_quote};

fn gitlab_credential(id: &str, project_path: &str, token: &str) -> GitCredential {
    GitCredential {
        id: id.to_string(),
        instance_uid: Some("instance-uid".to_string()),
        installation_uid: Some(format!("installation-{id}")),
        scheme: "https".to_string(),
        host: "gitlab.example.com".to_string(),
        port: Some(8443),
        relative_url_prefix: "gitlab".to_string(),
        project_paths: vec![project_path.to_string()],
        token: token.to_string(),
        username: Some("oauth2".to_string()),
        email: Some(format!("{id}@example.com")),
    }
}

fn github_credential() -> GitCredential {
    GitCredential {
        id: "github".to_string(),
        instance_uid: None,
        installation_uid: None,
        scheme: "https".to_string(),
        host: "github.com".to_string(),
        port: None,
        relative_url_prefix: String::new(),
        project_paths: vec!["warpdotdev/warp".to_string()],
        token: "github-token".to_string(),
        username: Some("warp-agent[bot]".to_string()),
        email: None,
    }
}

#[test]
fn project_path_normalization_accepts_optional_git_suffix() {
    assert_eq!(
        normalized_project_path("/platform/backend.git/").unwrap(),
        "platform/backend"
    );
    assert_eq!(
        project_key("Platform/Backend.GIT").unwrap(),
        "Platform/Backend"
    );
}

#[test]
fn project_path_normalization_rejects_unsafe_segments() {
    for invalid in ["", "group//repo", "group/../repo", r"group\repo"] {
        assert!(normalized_project_path(invalid).is_err(), "{invalid}");
    }
}

#[test]
fn explicit_clone_url_preserves_port_prefix_and_has_no_token() {
    let credential = gitlab_credential("one", "platform/backend.git", "secret-token");

    let clone_url = clone_url_for_path(&credential, "platform/backend").unwrap();
    let parsed = Url::parse(&clone_url).unwrap();

    assert_eq!(parsed.scheme(), "https");
    assert_eq!(parsed.host_str(), Some("gitlab.example.com"));
    assert_eq!(parsed.port(), Some(8443));
    assert_eq!(parsed.path(), "/gitlab/platform/backend.git");
    assert_eq!(parsed.username(), "");
    assert_eq!(parsed.password(), None);
}

#[test]
fn project_api_path_is_encoded_once() {
    let credential = gitlab_credential("one", "platform/backend", "secret-token");

    let url = project_api_url(&credential, "platform/backend").unwrap();

    assert_eq!(
        url.as_str(),
        "https://gitlab.example.com:8443/gitlab/api/v4/projects/platform%2Fbackend"
    );
    assert!(!url.as_str().contains("%252F"));
}

#[test]
fn credential_ids_allow_separate_tokens_on_one_host() {
    let credentials = unique_credentials_by_id(&[
        gitlab_credential("one", "group/one", "token-one"),
        gitlab_credential("two", "group/two", "token-two"),
    ])
    .unwrap();

    assert_eq!(credentials.len(), 2);
    assert_eq!(credentials[0].host, credentials[1].host);
    assert_ne!(credentials[0].id, credentials[1].id);
}

#[test]
fn conflicting_duplicate_credential_ids_are_rejected() {
    let error = unique_credentials_by_id(&[
        gitlab_credential("same", "group/one", "token-one"),
        gitlab_credential("same", "group/two", "token-two"),
    ])
    .unwrap_err();

    assert!(error.message().contains("share an ID"));
}

#[test]
fn exact_path_does_not_cross_forge_boundaries() {
    let repository = SourceRepo::new(CodeForge::GitHub, "group".to_string(), "one".to_string());
    let credential = gitlab_credential("one", "group/one", "token-one");

    assert!(
        select_credential_for_repository(&[credential], &repository)
            .unwrap()
            .is_none()
    );
}

#[test]
fn diagnostics_do_not_expose_tokens_hosts_or_identity() {
    let diagnostics = credential_diagnostics(&[gitlab_credential(
        "credential-one",
        "group/one",
        "secret-token",
    )]);

    assert!(diagnostics.contains("credential-one"));
    assert!(!diagnostics.contains("secret-token"));
    assert!(!diagnostics.contains("gitlab.example.com"));
    assert!(!diagnostics.contains("oauth2"));
}

#[test]
fn bootstrap_accepts_the_authoritative_credential_set() {
    let credentials = credentials_for_bootstrap(TaskGitCredentialsResponse {
        credentials: vec![github_credential()],
    })
    .unwrap();

    assert_eq!(credentials.len(), 1);
    assert_eq!(credentials[0].id, "github");
}

#[test]
fn managed_forge_fallback_remains_explicit_when_no_task_credential_matches() {
    let repository = SourceRepo::new(
        CodeForge::GitHub,
        "warpdotdev".to_string(),
        "warp".to_string(),
    );

    assert!(select_credential_for_repository(&[], &repository).unwrap().is_none());
    assert_eq!(
        repository.https_clone_url(),
        "https://github.com/warpdotdev/warp.git"
    );
}

#[test]
fn duplicate_identical_credentials_collapse_to_one() {
    let credentials = unique_credentials_by_id(&[
        gitlab_credential("one", "group/one", "token-one"),
        gitlab_credential("one", "group/one", "token-one"),
    ])
    .unwrap();
    assert_eq!(credentials.len(), 1);
    assert_eq!(credentials[0].id, "one");
}

#[test]
fn credential_without_id_is_rejected() {
    let error = unique_credentials_by_id(&[gitlab_credential("", "group/one", "token-one")]).unwrap_err();
    assert_eq!(error, CredentialError::MissingId);
}

#[test]
fn plain_http_credentials_are_refused() {
    let mut credential = gitlab_credential("one", "group/one", "token-one");
    credential.scheme = "http".to_string();
    assert_eq!(
        clone_url_for_path(&credential, "group/one").unwrap_err(),
        CredentialError::RequiresHttps
    );
}

#[test]
fn store_line_carries_the_token_for_exactly_one_path() {
    let line = credential_store_line(&gitlab_credential("one", "group/one", "token-one"), "group/one").unwrap();
    assert!(line.contains("token-one"));
    assert!(line.contains("gitlab.example.com:8443/gitlab/group/one.git"));
}

#[test]
fn endpoint_urls_sit_below_the_relative_prefix() {
    let credential = gitlab_credential("one", "group/one", "token-one");
    assert_eq!(
        endpoint_url(&credential, "-/readiness").unwrap(),
        "https://gitlab.example.com:8443/gitlab/-/readiness"
    );
    let mut without_prefix = credential;
    without_prefix.relative_url_prefix = String::new();
    assert_eq!(
        endpoint_url(&without_prefix, "api/v4/user").unwrap(),
        "https://gitlab.example.com:8443/api/v4/user"
    );
}

#[test]
fn tls_transport_errors_are_told_apart() {
    assert!(transport_error_is_tls("error sending request: invalid peer certificate: UnknownIssuer"));
    assert!(transport_error_is_tls("SSL handshake failed"));
    assert!(!transport_error_is_tls("connection refused"));
}

#[test]
fn gitlab_preflight_walks_every_check_in_order() {
    let credential = gitlab_credential("one", "group/one", "token-one");
    let (mut preflight, step) = GitLabPreflight::start(credential, vec!["group/one".to_string()]);
    match step {
        PreflightStep::Request(PreflightRequest::ConnectTcp { host, port }) => {
            assert_eq!(host, "gitlab.example.com");
            assert_eq!(port, 8443);
        },
        _ => panic!("expected a TCP connection first"),
    }
    assert!(matches!(
        preflight.advance(PreflightEvent::Connected(true)),
        PreflightStep::Request(PreflightRequest::BuildClient)
    ));
    match preflight.advance(PreflightEvent::ClientBuilt(true)) {
        PreflightStep::Request(PreflightRequest::Get { url, authenticated }) => {
            assert_eq!(url, "https://gitlab.example.com:8443/gitlab/-/readiness");
            assert!(!authenticated);
        },
        _ => panic!("expected the readiness request"),
    }
    match preflight.advance(PreflightEvent::Sent(SendOutcome::Status(503))) {
        PreflightStep::Request(PreflightRequest::Get { url, authenticated }) => {
            assert_eq!(url, "https://gitlab.example.com:8443/gitlab/api/v4/user");
            assert!(authenticated);
        },
        _ => panic!("expected the user request"),
    }
    match preflight.advance(PreflightEvent::Sent(SendOutcome::Status(200))) {
        PreflightStep::Request(PreflightRequest::Get { url, .. }) => {
            assert_eq!(url, "https://gitlab.example.com:8443/gitlab/api/v4/projects/group%2Fone");
        },
        _ => panic!("expected the project request"),
    }
    assert!(matches!(
        preflight.advance(PreflightEvent::Sent(SendOutcome::Status(401))),
        PreflightStep::Finished(Err(GitLabPreflightError::Authentication))
    ));
}

#[test]
fn gitlab_preflight_reports_tls_and_connectivity_failures() {
    let credential = gitlab_credential("one", "group/one", "token-one");
    let (mut preflight, _) = GitLabPreflight::start(credential.clone(), vec![]);
    assert!(matches!(
        preflight.advance(PreflightEvent::Connected(false)),
        PreflightStep::Finished(Err(GitLabPreflightError::Connectivity))
    ));
    let (mut preflight, _) = GitLabPreflight::start(credential, vec![]);
    preflight.advance(PreflightEvent::Connected(true));
    preflight.advance(PreflightEvent::ClientBuilt(true));
    assert!(matches!(
        preflight.advance(PreflightEvent::Sent(SendOutcome::TransportFailed { tls: true })),
        PreflightStep::Finished(Err(GitLabPreflightError::Tls))
    ));
}

#[test]
fn gitlab_preflight_passes_without_project_paths() {
    let (mut preflight, _) = GitLabPreflight::start(gitlab_credential("one", "group/one", "t"), vec![]);
    preflight.advance(PreflightEvent::Connected(true));
    preflight.advance(PreflightEvent::ClientBuilt(true));
    preflight.advance(PreflightEvent::Sent(SendOutcome::Status(200)));
    assert!(matches!(
        preflight.advance(PreflightEvent::Sent(SendOutcome::Status(204))),
        PreflightStep::Finished(Ok(()))
    ));
}

#[test]
fn refresh_retries_back_off_then_give_up() {
    assert_eq!(refresh_decision(0, RefreshOutcome::Complete), RefreshDecision::Done);
    assert_eq!(refresh_decision(0, RefreshOutcome::Failed), RefreshDecision::RetryAfterSecs(60));
    assert_eq!(refresh_decision(1, RefreshOutcome::Partial), RefreshDecision::RetryAfterSecs(120));
    assert_eq!(refresh_decision(2, RefreshOutcome::Failed), RefreshDecision::RetryAfterSecs(240));
    assert_eq!(refresh_decision(3, RefreshOutcome::Failed), RefreshDecision::GiveUp);
}

#[test]
fn github_hosts_file_holds_the_single_github_token() {
    let yaml = gh_hosts_yaml(&[github_credential(), gitlab_credential("one", "group/one", "t")])
        .unwrap()
        .unwrap();
    assert_eq!(
        yaml,
        "github.com:\n    oauth_token: github-token\n    git_protocol: https\n    user: warp-agent[bot]\n"
    );
    let mut second = github_credential();
    second.id = "github-two".to_string();
    assert_eq!(
        gh_hosts_yaml(&[github_credential(), second]).unwrap_err(),
        CredentialError::MultipleGitHubCredentials
    );
}

#[test]
fn shell_quoting_escapes_single_quotes() {
    assert_eq!(shell_single_quote("it's"), "it'\"'\"'s");
}

#[test]
fn state_replaces_and_clears_bindings() {
    let mut state = TaskCredentialState::new();
    let stored = state
        .replace_task_credentials(&[gitlab_credential("one", "group/one", "token-one")])
        .unwrap();
    assert_eq!(stored.len(), 1);
    assert_eq!(state.task_credentials_snapshot().len(), 1);
}

#[test]
fn glab_configuration_uses_the_origin_authority_and_subfolder() {
    let data = warp_app::git_credentials::setup::glab_config_data(&gitlab_credential("one", "group/one", "repository-token")).unwrap();
    assert_eq!(data.host, "https://gitlab.example.com:8443/gitlab");
    assert_eq!(data.authority, "gitlab.example.com:8443");
    assert_eq!(data.subfolder, Some("gitlab".to_string()));
    assert_eq!(data.token, "repository-token");
    assert_eq!(data.api_protocol, "https");
    assert_eq!(data.user, Some("oauth2".to_string()));
}

#[test]
fn task_paths_sit_below_the_home_directory() {
    assert_eq!(task_credentials_root("/home/agent"), "/home/agent/.warp/task-git");
    assert_eq!(task_credentials_file("/home/agent"), "/home/agent/.warp/task-git/credentials");
    assert_eq!(task_bin_dir_for_home("/home/agent"), "/home/agent/.warp/task-git/bin");
}

#[test]
fn global_identity_comes_from_the_first_credential() {
    assert_eq!(
        global_git_identity(&[gitlab_credential("one", "group/one", "t"), github_credential()]),
        ("oauth2".to_string(), "one@example.com".to_string())
    );
    assert_eq!(global_git_identity(&[]), ("Warp".to_string(), "agent@warp.dev".to_string()));
}

#[test]
fn preflight_targets_group_paths_by_credential() {
    let mut state = TaskCredentialState::new();
    state
        .replace_task_credentials(&[
            gitlab_credential("two", "group/two", "token-two"),
            gitlab_credential("one", "group/one", "token-one"),
        ])
        .unwrap();
    let repositories = [
        SourceRepo::new(CodeForge::GitLab, "group".to_string(), "two".to_string()),
        SourceRepo::new(CodeForge::GitLab, "group".to_string(), "one".to_string()),
        SourceRepo::new(CodeForge::GitHub, "warpdotdev".to_string(), "warp".to_string()),
    ];
    let targets = self_hosted_gitlab_credentials_for_repositories(&state, &repositories).unwrap();
    assert_eq!(targets.len(), 2);
    assert_eq!(targets[0].0.id, "one");
    assert_eq!(targets[0].1, vec!["group/one".to_string()]);
    assert_eq!(targets[1].0.id, "two");
    assert_eq!(targets[1].1, vec!["group/two".to_string()]);
}

fn gitlab_repo(owner: &str, repo: &str) -> SourceRepo {
    SourceRepo::new(CodeForge::GitLab, owner.to_string(), repo.to_string())
}

#[test]
fn configuring_credentials_drops_earlier_bindings() {
    let mut state = TaskCredentialState::new();
    state.configure_git_credentials(&[gitlab_credential("one", "group/one", "t1")]).unwrap();
    state.prepare_repository_credentials(&[gitlab_repo("group", "one")]).unwrap();
    assert_eq!(
        state.binding_credential_for_repository(&gitlab_repo("group", "one")).unwrap().map(|c| c.id),
        Some("one".to_string())
    );
    state.configure_git_credentials(&[gitlab_credential("two", "group/two", "t2")]).unwrap();
    assert!(state.binding_credential_for_repository(&gitlab_repo("group", "one")).unwrap().is_none());
    assert_eq!(state.task_credentials_snapshot()[0].id, "two");
}

#[test]
fn unbound_self_hosted_gitlab_repository_is_refused() {
    let mut state = TaskCredentialState::new();
    state.configure_git_credentials(&[gitlab_credential("one", "group/one", "t1")]).unwrap();
    assert_eq!(
        state.prepare_repository_credentials(&[gitlab_repo("other", "repo")]),
        Err(CredentialError::SelfHostedGitLabUnbound)
    );
}

#[test]
fn clone_urls_come_from_the_bound_credential_or_the_forge() {
    let mut state = TaskCredentialState::new();
    state.configure_git_credentials(&[gitlab_credential("one", "group/one", "secret")]).unwrap();
    state.prepare_repository_credentials(&[gitlab_repo("group", "one")]).unwrap();
    assert_eq!(
        state.clone_url_for_repository(&gitlab_repo("group", "one")).unwrap(),
        "https://gitlab.example.com:8443/gitlab/group/one.git"
    );
    let public = SourceRepo::new(CodeForge::GitHub, "warpdotdev".to_string(), "warp".to_string());
    assert_eq!(state.clone_url_for_repository(&public).unwrap(), "https://github.com/warpdotdev/warp.git");
}

#[test]
fn project_paths_bind_only_when_a_credential_serves_them() {
    let mut state = TaskCredentialState::new();
    state.configure_git_credentials(&[gitlab_credential("one", "group/one", "t1")]).unwrap();
    assert_eq!(state.prepare_project_path(CodeForge::GitLab, "group", "one"), Ok(true));
    assert_eq!(
        state.binding_credential_for_repository(&gitlab_repo("group", "one")).unwrap().map(|c| c.id),
        Some("one".to_string())
    );
    assert_eq!(state.prepare_project_path(CodeForge::GitHub, "someone", "else"), Ok(false));
}

#[test]
fn access_check_covers_bound_self_hosted_checkouts() {
    let mut state = TaskCredentialState::new();
    state.configure_git_credentials(&[gitlab_credential("one", "group/one", "secret"), github_credential()]).unwrap();
    let repositories = [
        gitlab_repo("group", "one"),
        SourceRepo::new(CodeForge::GitHub, "warpdotdev".to_string(), "warp".to_string()),
    ];
    state.prepare_repository_credentials(&repositories).unwrap();
    let command = gitlab_git_access_check_command(&state, &repositories, "/work").unwrap().unwrap();
    let script = "git -C '/work/one' ls-remote --exit-code 'https://gitlab.example.com:8443/gitlab/group/one.git' HEAD >/dev/null 2>&1 || exit 1\n";
    assert_eq!(command, format!("sh -c '{}'", script.replace('\'', "'\"'\"'")));
    assert!(!command.contains("secret"));
    assert_eq!(gitlab_git_access_check_command(&state, &repositories[1..], "/work").unwrap(), None);
}

#[test]
fn refreshed_credentials_merge_by_id() {
    let mut state = TaskCredentialState::new();
    state.configure_git_credentials(&[gitlab_credential("one", "group/one", "old")]).unwrap();
    let empty = TaskGitCredentialsResponse { credentials: vec![] };
    assert!(matches!(apply_refreshed_credentials(&mut state, &empty), Ok(None)));
    let response = TaskGitCredentialsResponse { credentials: vec![gitlab_credential("one", "group/one", "new")] };
    let merged = apply_refreshed_credentials(&mut state, &response).unwrap().unwrap();
    assert_eq!(merged.len(), 1);
    assert_eq!(merged[0].token, "new");
    assert_eq!(state.task_credentials_snapshot()[0].token, "new");
}

#[test]
fn task_bin_dir_sits_in_the_task_credentials_root() {
    if let Some(dir) = task_bin_dir() {
        assert!(dir.ends_with("/.warp/task-git/bin"));
    }
}
