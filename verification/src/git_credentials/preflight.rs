//! Network preflight for self-hosted GitLab credentials, and the retry
//! policy of the periodic credential refresh.
//!
//! The preflight runs bounded checks in order: a TCP connection to the
//! host, building the HTTP client, a readiness request (which fails only on
//! transport errors, telling TLS trouble from plain connectivity), an
//! authenticated user request, and one authenticated project request per
//! repository path. The decisions are a state machine: each step names the
//! request to make next or the verdict, and the caller performs the request
//! and reports what came back.

use vstd::prelude::*;

use crate::git_credentials::credential::{
    credential_origin, credential_origin_spec, is_self_hosted_gitlab_credential, is_self_hosted_gitlab_spec,
    views, GitCredential, GitCredentialView, SourceRepo, SourceRepoView,
};
use crate::git_credentials::paths::{
    normalized_project_path, normalized_project_path_spec, normalized_relative_prefix, normalized_relative_prefix_spec,
    CredentialError,
};
use crate::git_credentials::state::{binding_credential_spec, repo_views, TaskCredentialState, TaskCredentialStateView};
use crate::text::{ascii_lower, chars_lt, chars_of, lemma_lex_irreflexive, lemma_lex_total, lex_lt, owned, push_all};
use crate::url_ops::{url_push_segment, url_set_path, url_with_path, url_with_segment};

verus! {

/// Why a GitLab preflight failed.
#[derive(Debug, Clone, Copy, PartialEq, Eq, Structural)]
pub enum GitLabPreflightError {
    Connectivity,
    Tls,
    Authentication,
    RepositoryAccess,
}

/// The path of an endpoint below the credential's relative URL prefix.
pub open spec fn endpoint_path(prefix: Seq<char>, suffix: Seq<char>) -> Seq<char> {
    if prefix.len() == 0 {
        "/"@ + suffix
    } else {
        "/"@ + prefix + "/"@ + suffix
    }
}

/// The URL of an endpoint of the credential's GitLab instance: its origin
/// with the path set to the endpoint below the relative URL prefix.
pub open spec fn endpoint_url_spec(c: GitCredentialView, suffix: Seq<char>) -> Result<Seq<char>, CredentialError> {
    match normalized_relative_prefix_spec(c.relative_url_prefix) {
        None => Err(CredentialError::InvalidRelativePrefix),
        Some(prefix) => match credential_origin_spec(c) {
            Err(e) => Err(e),
            Ok(origin) => match url_set_path(origin, endpoint_path(prefix, suffix)) {
                None => Err(CredentialError::OriginInitialization),
                Some(u) => Ok(u),
            },
        },
    }
}

/// The project API URL of a repository path: the projects endpoint with the
/// path pushed as one (percent-encoded) segment.
pub open spec fn project_api_url_spec(c: GitCredentialView, project_path: Seq<char>) -> Result<Seq<char>, CredentialError> {
    match endpoint_url_spec(c, "api/v4/projects"@) {
        Err(e) => Err(e),
        Ok(u) => match url_push_segment(u, project_path) {
            None => Err(CredentialError::InvalidProjectApiUrl),
            Some(v) => Ok(v),
        },
    }
}

pub open spec fn str_result(r: Result<String, CredentialError>) -> Result<Seq<char>, CredentialError> {
    match r {
        Ok(s) => Ok(s@),
        Err(e) => Err(e),
    }
}

/// The URL of an endpoint (see [`endpoint_url_spec`]).
pub fn endpoint_url(credential: &GitCredential, suffix: &str) -> (r: Result<String, CredentialError>)
    ensures
        str_result(r) == endpoint_url_spec(credential@, suffix@),
{
    let prefix = match normalized_relative_prefix(credential.relative_url_prefix.as_str()) {
        Ok(p) => p,
        Err(e) => {
            return Err(e);
        },
    };
    let origin = match credential_origin(credential) {
        Ok(o) => o,
        Err(e) => {
            return Err(e);
        },
    };
    let mut path = owned("/");
    if prefix.as_str().is_empty() {
        push_all(&mut path, suffix);
    } else {
        push_all(&mut path, prefix.as_str());
        push_all(&mut path, "/");
        push_all(&mut path, suffix);
    }
    match url_with_path(origin.as_str(), path.as_str()) {
        Some(u) => Ok(u),
        None => Err(CredentialError::OriginInitialization),
    }
}

/// The project API URL of a repository path (see [`project_api_url_spec`]).
pub fn project_api_url(credential: &GitCredential, project_path: &str) -> (r: Result<String, CredentialError>)
    ensures
        str_result(r) == project_api_url_spec(credential@, project_path@),
{
    let base = match endpoint_url(credential, "api/v4/projects") {
        Ok(u) => u,
        Err(e) => {
            return Err(e);
        },
    };
    match url_with_segment(base.as_str(), project_path) {
        Some(u) => Ok(u),
        None => Err(CredentialError::InvalidProjectApiUrl),
    }
}

/// Whether `needle` occurs in `hay`.
pub open spec fn occurs_in(needle: Seq<char>, hay: Seq<char>) -> bool {
    exists|i: int| 0 <= i && i + needle.len() <= hay.len() && #[trigger] hay.subrange(i, i + needle.len()) == needle
}

/// The lowercase forms of a transport error message that mark a TLS
/// failure.
pub open spec fn tls_markers() -> Seq<Seq<char>> {
    seq!["certificate"@, "tls"@, "ssl"@, "unknown issuer"@, "invalid peer"@]
}

/// Whether a transport error, by its message, is a TLS failure: its ASCII
/// lowercase form holds one of the TLS markers.
pub open spec fn is_tls_message(message: Seq<char>) -> bool {
    let lower = message.map_values(|c: char| ascii_lower(c));
    exists|k: int| 0 <= k < tls_markers().len() && occurs_in(#[trigger] tls_markers()[k], lower)
}

fn lowercase_chars(s: &str) -> (r: Vec<char>)
    ensures
        r@ == s@.map_values(|c: char| ascii_lower(c)),
{
    let chars = chars_of(s);
    let mut r: Vec<char> = Vec::new();
    let mut i: usize = 0;
    while i < chars.len()
        invariant
            i <= chars.len(),
            chars@ == s@,
            r@ == s@.take(i as int).map_values(|c: char| ascii_lower(c)),
        decreases chars.len() - i,
    {
        let c = chars[i];
        let l = if 'A' <= c && c <= 'Z' {
            ((c as u8) + 32) as char
        } else {
            c
        };
        r.push(l);
        i = i + 1;
        assert(s@.take(i as int).map_values(|c: char| ascii_lower(c)) =~= s@.take(i - 1).map_values(
            |c: char| ascii_lower(c),
        ).push(ascii_lower(c)));
    }
    assert(s@.take(chars.len() as int) =~= s@);
    r
}

fn occurs_at(needle: &Vec<char>, hay: &Vec<char>, at: usize) -> (r: bool)
    requires
        at + needle@.len() <= hay@.len(),
    ensures
        r == (hay@.subrange(at as int, at + needle@.len()) == needle@),
{
    let mut j: usize = 0;
    while j < needle.len()
        invariant
            j <= needle.len(),
            at + needle.len() <= hay.len(),
            forall|k: int| 0 <= k < j ==> hay@[at + k] == needle@[k],
        decreases needle.len() - j,
    {
        if hay[at + j] != needle[j] {
            assert(hay@.subrange(at as int, at + needle@.len())[j as int] != needle@[j as int]);
            return false;
        }
        j = j + 1;
    }
    assert(hay@.subrange(at as int, at + needle@.len()) =~= needle@);
    true
}

fn find_in(needle: &str, hay: &Vec<char>) -> (r: bool)
    ensures
        r == occurs_in(needle@, hay@),
{
    let n = chars_of(needle);
    if n.len() > hay.len() {
        return false;
    }
    let mut i: usize = 0;
    let last = hay.len() - n.len();
    loop
        invariant
            n@ == needle@,
            n@.len() <= hay@.len(),
            last == hay@.len() - n@.len(),
            i <= last,
            forall|k: int| 0 <= k < i ==> #[trigger] hay@.subrange(k, k + n@.len()) != n@,
        decreases last - i,
    {
        if occurs_at(&n, hay, i) {
            return true;
        }
        if i == last {
            return false;
        }
        i = i + 1;
    }
}

/// Whether a transport error's message marks a TLS failure (see
/// [`is_tls_message`]).
pub fn transport_error_is_tls(message: &str) -> (r: bool)
    ensures
        r == is_tls_message(message@),
{
    let lower = lowercase_chars(message);
    let ghost markers = tls_markers();
    let hit = find_in("certificate", &lower) || find_in("tls", &lower) || find_in("ssl", &lower) || find_in(
        "unknown issuer",
        &lower,
    ) || find_in("invalid peer", &lower);
    proof {
        if hit {
            if occurs_in("certificate"@, lower@) {
                assert(markers[0] == "certificate"@);
            } else if occurs_in("tls"@, lower@) {
                assert(markers[1] == "tls"@);
            } else if occurs_in("ssl"@, lower@) {
                assert(markers[2] == "ssl"@);
            } else if occurs_in("unknown issuer"@, lower@) {
                assert(markers[3] == "unknown issuer"@);
            } else {
                assert(markers[4] == "invalid peer"@);
            }
        }
    }
    hit
}

/// The transport failure a send reports, TLS or plain connectivity.
pub open spec fn transport_error(tls: bool) -> GitLabPreflightError {
    if tls {
        GitLabPreflightError::Tls
    } else {
        GitLabPreflightError::Connectivity
    }
}

/// What came back for a request.
#[derive(Debug, Clone, Copy, PartialEq, Eq, Structural)]
pub enum SendOutcome {
    /// The request failed in transport; `tls` tells a TLS failure (see
    /// [`transport_error_is_tls`]).
    TransportFailed { tls: bool },
    /// A response with this HTTP status.
    Status(u16),
}

/// What the caller reports after carrying out a request.
#[derive(Debug, Clone, Copy, PartialEq, Eq, Structural)]
pub enum PreflightEvent {
    /// Whether a TCP connection to one of the host's addresses succeeded
    /// within the connect timeout.
    Connected(bool),
    /// Whether the HTTP client could be built.
    ClientBuilt(bool),
    Sent(SendOutcome),
}

/// A request for the caller to carry out.
pub enum PreflightRequest {
    ConnectTcp { host: String, port: u16 },
    BuildClient,
    /// A GET request; `authenticated` requests carry the token as a bearer
    /// token.
    Get { url: String, authenticated: bool },
}

/// The next request, or the verdict.
pub enum PreflightStep {
    Request(PreflightRequest),
    Finished(Result<(), GitLabPreflightError>),
}

pub enum StepView {
    ConnectTcp(Seq<char>, u16),
    BuildClient,
    Get(Seq<char>, bool),
    Finished(Result<(), GitLabPreflightError>),
}

impl View for PreflightStep {
    type V = StepView;

    open spec fn view(&self) -> StepView {
        match self {
            PreflightStep::Request(PreflightRequest::ConnectTcp { host, port }) => StepView::ConnectTcp(host@, *port),
            PreflightStep::Request(PreflightRequest::BuildClient) => StepView::BuildClient,
            PreflightStep::Request(PreflightRequest::Get { url, authenticated }) => StepView::Get(url@, *authenticated),
            PreflightStep::Finished(r) => StepView::Finished(*r),
        }
    }
}

/// Which check the preflight is waiting on.
#[derive(Debug, Clone, Copy, PartialEq, Eq, Structural)]
pub enum PreflightStage {
    Tcp,
    Client,
    Readiness,
    User,
    Project(usize),
    Done,
}

/// Whether an HTTP status is a success (2xx).
pub open spec fn is_success(status: u16) -> bool {
    200 <= status && status < 300
}

/// The first step: a TCP connection to the host, on the credential's port
/// (443 by default); a port beyond `u16` fails connectivity at once.
pub open spec fn preflight_start(c: GitCredentialView) -> (PreflightStage, StepView) {
    match c.port {
        Some(p) => if p > 65535 {
            (PreflightStage::Done, StepView::Finished(Err(GitLabPreflightError::Connectivity)))
        } else {
            (PreflightStage::Tcp, StepView::ConnectTcp(c.host, p as u16))
        },
        None => (PreflightStage::Tcp, StepView::ConnectTcp(c.host, 443)),
    }
}

/// The project request for path `k`, or success once every path passed.
pub open spec fn next_project(c: GitCredentialView, paths: Seq<Seq<char>>, k: int) -> (PreflightStage, StepView) {
    if k >= paths.len() {
        (PreflightStage::Done, StepView::Finished(Ok(())))
    } else {
        match project_api_url_spec(c, paths[k]) {
            Err(_) => (PreflightStage::Done, StepView::Finished(Err(GitLabPreflightError::RepositoryAccess))),
            Ok(u) => (PreflightStage::Project(k as usize), StepView::Get(u, true)),
        }
    }
}

/// Whether an event answers the request the stage is waiting on.
pub open spec fn event_fits(stage: PreflightStage, event: PreflightEvent) -> bool {
    match stage {
        PreflightStage::Tcp => event is Connected,
        PreflightStage::Client => event is ClientBuilt,
        PreflightStage::Readiness | PreflightStage::User | PreflightStage::Project(_) => event is Sent,
        PreflightStage::Done => false,
    }
}

/// The preflight's response to what came back. A failed connection fails
/// connectivity; a client that cannot be built fails TLS. The readiness
/// request fails only in transport; the user request also fails
/// authentication on a non-success status; a project request fails
/// authentication on 401 and repository access on any other non-success
/// status. A URL that cannot be formed fails the check it is for.
pub open spec fn preflight_advance(c: GitCredentialView, paths: Seq<Seq<char>>, stage: PreflightStage, event: PreflightEvent) -> (PreflightStage, StepView) {
    let fail = |e: GitLabPreflightError| (PreflightStage::Done, StepView::Finished(Err(e)));
    match (stage, event) {
        (PreflightStage::Tcp, PreflightEvent::Connected(ok)) => if !ok {
            fail(GitLabPreflightError::Connectivity)
        } else {
            (PreflightStage::Client, StepView::BuildClient)
        },
        (PreflightStage::Client, PreflightEvent::ClientBuilt(ok)) => if !ok {
            fail(GitLabPreflightError::Tls)
        } else {
            match endpoint_url_spec(c, "-/readiness"@) {
                Err(_) => fail(GitLabPreflightError::Connectivity),
                Ok(u) => (PreflightStage::Readiness, StepView::Get(u, false)),
            }
        },
        (PreflightStage::Readiness, PreflightEvent::Sent(outcome)) => match outcome {
            SendOutcome::TransportFailed { tls } => fail(transport_error(tls)),
            SendOutcome::Status(_) => match endpoint_url_spec(c, "api/v4/user"@) {
                Err(_) => fail(GitLabPreflightError::Authentication),
                Ok(u) => (PreflightStage::User, StepView::Get(u, true)),
            },
        },
        (PreflightStage::User, PreflightEvent::Sent(outcome)) => match outcome {
            SendOutcome::TransportFailed { tls } => fail(transport_error(tls)),
            SendOutcome::Status(s) => if !is_success(s) {
                fail(GitLabPreflightError::Authentication)
            } else {
                next_project(c, paths, 0)
            },
        },
        (PreflightStage::Project(k), PreflightEvent::Sent(outcome)) => match outcome {
            SendOutcome::TransportFailed { tls } => fail(transport_error(tls)),
            SendOutcome::Status(s) => if s == 401 {
                fail(GitLabPreflightError::Authentication)
            } else if !is_success(s) {
                fail(GitLabPreflightError::RepositoryAccess)
            } else {
                next_project(c, paths, k + 1)
            },
        },
        _ => (stage, StepView::Finished(Err(GitLabPreflightError::Connectivity))),
    }
}

/// The preflight of one credential for the repository paths it serves.
pub struct GitLabPreflight {
    credential: GitCredential,
    project_paths: Vec<String>,
    stage: PreflightStage,
}

impl GitLabPreflight {
    pub closed spec fn credential_view(self) -> GitCredentialView {
        self.credential@
    }

    pub closed spec fn paths_view(self) -> Seq<Seq<char>> {
        self.project_paths@.map_values(|s: String| s@)
    }

    pub closed spec fn stage_view(self) -> PreflightStage {
        self.stage
    }

    /// Starts the preflight (see [`preflight_start`]).
    pub fn start(credential: GitCredential, project_paths: Vec<String>) -> (r: (GitLabPreflight, PreflightStep))
        ensures
            r.0.credential_view() == credential@,
            r.0.paths_view() == project_paths@.map_values(|s: String| s@),
            (r.0.stage_view(), r.1@) == preflight_start(credential@),
    {
        let step = match credential.port {
            Some(p) => if p > 65535 {
                PreflightStep::Finished(Err(GitLabPreflightError::Connectivity))
            } else {
                PreflightStep::Request(
                    PreflightRequest::ConnectTcp { host: owned(credential.host.as_str()), port: p as u16 },
                )
            },
            None => PreflightStep::Request(
                PreflightRequest::ConnectTcp { host: owned(credential.host.as_str()), port: 443 },
            ),
        };
        let stage = match credential.port {
            Some(p) => if p > 65535 {
                PreflightStage::Done
            } else {
                PreflightStage::Tcp
            },
            None => PreflightStage::Tcp,
        };
        (GitLabPreflight { credential, project_paths, stage }, step)
    }

    fn next_project_step(&mut self, k: usize) -> (r: PreflightStep)
        requires
            k <= old(self).project_paths@.len(),
        ensures
            final(self).credential == old(self).credential,
            final(self).project_paths@ == old(self).project_paths@,
            (final(self).stage, r@) == next_project(old(self).credential@, old(self).paths_view(), k as int),
    {
        if k >= self.project_paths.len() {
            self.stage = PreflightStage::Done;
            return PreflightStep::Finished(Ok(()));
        }
        assert(self.paths_view()[k as int] == self.project_paths@[k as int]@);
        match project_api_url(&self.credential, self.project_paths[k].as_str()) {
            Err(_) => {
                self.stage = PreflightStage::Done;
                PreflightStep::Finished(Err(GitLabPreflightError::RepositoryAccess))
            },
            Ok(u) => {
                self.stage = PreflightStage::Project(k);
                PreflightStep::Request(PreflightRequest::Get { url: u, authenticated: true })
            },
        }
    }

    /// Advances the preflight with what came back for the request it asked
    /// for (see [`preflight_advance`]).
    pub fn advance(&mut self, event: PreflightEvent) -> (r: PreflightStep)
        requires
            event_fits(old(self).stage_view(), event),
            old(self).stage_view() matches PreflightStage::Project(k) ==> k < old(self).paths_view().len(),
        ensures
            final(self).credential_view() == old(self).credential_view(),
            final(self).paths_view() == old(self).paths_view(),
            (final(self).stage_view(), r@) == preflight_advance(
                old(self).credential_view(),
                old(self).paths_view(),
                old(self).stage_view(),
                event,
            ),
            final(self).stage_view() matches PreflightStage::Project(k) ==> k < final(self).paths_view().len(),
    {
        match (self.stage, event) {
            (PreflightStage::Tcp, PreflightEvent::Connected(ok)) => {
                if !ok {
                    self.stage = PreflightStage::Done;
                    PreflightStep::Finished(Err(GitLabPreflightError::Connectivity))
                } else {
                    self.stage = PreflightStage::Client;
                    PreflightStep::Request(PreflightRequest::BuildClient)
                }
            },
            (PreflightStage::Client, PreflightEvent::ClientBuilt(ok)) => {
                if !ok {
                    self.stage = PreflightStage::Done;
                    PreflightStep::Finished(Err(GitLabPreflightError::Tls))
                } else {
                    match endpoint_url(&self.credential, "-/readiness") {
                        Err(_) => {
                            self.stage = PreflightStage::Done;
                            PreflightStep::Finished(Err(GitLabPreflightError::Connectivity))
                        },
                        Ok(u) => {
                            self.stage = PreflightStage::Readiness;
                            PreflightStep::Request(PreflightRequest::Get { url: u, authenticated: false })
                        },
                    }
                }
            },
            (PreflightStage::Readiness, PreflightEvent::Sent(outcome)) => match outcome {
                SendOutcome::TransportFailed { tls } => {
                    self.stage = PreflightStage::Done;
                    PreflightStep::Finished(Err(if tls {
                        GitLabPreflightError::Tls
                    } else {
                        GitLabPreflightError::Connectivity
                    }))
                },
                SendOutcome::Status(_) => match endpoint_url(&self.credential, "api/v4/user") {
                    Err(_) => {
                        self.stage = PreflightStage::Done;
                        PreflightStep::Finished(Err(GitLabPreflightError::Authentication))
                    },
                    Ok(u) => {
                        self.stage = PreflightStage::User;
                        PreflightStep::Request(PreflightRequest::Get { url: u, authenticated: true })
                    },
                },
            },
            (PreflightStage::User, PreflightEvent::Sent(outcome)) => match outcome {
                SendOutcome::TransportFailed { tls } => {
                    self.stage = PreflightStage::Done;
                    PreflightStep::Finished(Err(if tls {
                        GitLabPreflightError::Tls
                    } else {
                        GitLabPreflightError::Connectivity
                    }))
                },
                SendOutcome::Status(s) => {
                    if !(200 <= s && s < 300) {
                        self.stage = PreflightStage::Done;
                        PreflightStep::Finished(Err(GitLabPreflightError::Authentication))
                    } else {
                        self.next_project_step(0)
                    }
                },
            },
            (PreflightStage::Project(k), PreflightEvent::Sent(outcome)) => match outcome {
                SendOutcome::TransportFailed { tls } => {
                    self.stage = PreflightStage::Done;
                    PreflightStep::Finished(Err(if tls {
                        GitLabPreflightError::Tls
                    } else {
                        GitLabPreflightError::Connectivity
                    }))
                },
                SendOutcome::Status(s) => {
                    if s == 401 {
                        self.stage = PreflightStage::Done;
                        PreflightStep::Finished(Err(GitLabPreflightError::Authentication))
                    } else if !(200 <= s && s < 300) {
                        self.stage = PreflightStage::Done;
                        PreflightStep::Finished(Err(GitLabPreflightError::RepositoryAccess))
                    } else {
                        assert(self.stage_view() == PreflightStage::Project(k));
                        assert(self.paths_view().len() == self.project_paths@.len());
                        assert(k < self.project_paths.len());
                        self.next_project_step(k + 1)
                    }
                },
            },
            _ => PreflightStep::Finished(Err(GitLabPreflightError::Connectivity)),
        }
    }
}

/// The preflight passes only after an authenticated user request succeeded
/// and, when paths remain, the last project request succeeded: a verdict of
/// success comes from a successful response, never from a transport error
/// or a failed connection.
pub proof fn law_preflight_passes_on_success(c: GitCredentialView, paths: Seq<Seq<char>>, stage: PreflightStage, event: PreflightEvent)
    requires
        event_fits(stage, event),
        preflight_advance(c, paths, stage, event).1 == StepView::Finished(Ok(())),
    ensures
        event matches PreflightEvent::Sent(SendOutcome::Status(s)) && is_success(s),
        stage is User || stage is Project,
{
}

/// A 401 on a project request is reported as an authentication failure,
/// and every verdict ends the preflight.
pub proof fn law_preflight_verdicts_are_final(c: GitCredentialView, paths: Seq<Seq<char>>, stage: PreflightStage, event: PreflightEvent)
    requires
        event_fits(stage, event),
    ensures
        preflight_advance(c, paths, stage, event).1 is Finished ==> preflight_advance(c, paths, stage, event).0 is Done,
        (stage is Project && event == PreflightEvent::Sent(SendOutcome::Status(401))) ==> preflight_advance(
            c,
            paths,
            stage,
            event,
        ).1 == StepView::Finished(Err(GitLabPreflightError::Authentication)),
{
}

/// A credential with the repository paths it is preflighted for.
pub type PreflightTarget = (GitCredential, Vec<String>);

pub open spec fn target_views(t: Seq<PreflightTarget>) -> Seq<(GitCredentialView, Seq<Seq<char>>)> {
    t.map_values(|e: PreflightTarget| (e.0@, views(e.1@)))
}

/// Adds path `p` for credential `c` to targets kept in ascending order of
/// credential ID: appended to the paths of the credential with that ID
/// (which keeps the credential it was first added with), or a new target
/// at its place in the order.
pub open spec fn add_target(t: Seq<(GitCredentialView, Seq<Seq<char>>)>, c: GitCredentialView, p: Seq<char>) -> Seq<(GitCredentialView, Seq<Seq<char>>)>
    decreases t.len(),
{
    if t.len() == 0 {
        seq![(c, seq![p])]
    } else if t[0].0.id == c.id {
        t.update(0, (t[0].0, t[0].1.push(p)))
    } else if lex_lt(c.id, t[0].0.id) {
        seq![(c, seq![p])] + t
    } else {
        seq![t[0]] + add_target(t.drop_first(), c, p)
    }
}

/// The self-hosted GitLab credentials serving `repos`, each with the
/// normalized paths of the repositories it serves (in repository order),
/// ordered by credential ID. Repositories without a credential, or served
/// by another kind, are skipped.
pub open spec fn preflight_targets_spec(st: TaskCredentialStateView, repos: Seq<SourceRepoView>) -> Result<Seq<(GitCredentialView, Seq<Seq<char>>)>, CredentialError>
    decreases repos.len(),
{
    if repos.len() == 0 {
        Ok(Seq::empty())
    } else {
        match preflight_targets_spec(st, repos.drop_last()) {
            Err(e) => Err(e),
            Ok(done) => {
                let repo = repos.last();
                match binding_credential_spec(st, repo) {
                    Err(e) => Err(e),
                    Ok(None) => Ok(done),
                    Ok(Some(c)) => if !is_self_hosted_gitlab_spec(c) {
                        Ok(done)
                    } else {
                        match normalized_project_path_spec(repo.spec_project_path()) {
                            None => Err(CredentialError::InvalidRepositoryPath),
                            Some(p) => Ok(add_target(done, c, p)),
                        }
                    },
                }
            },
        }
    }
}

proof fn lemma_add_target_at(t: Seq<(GitCredentialView, Seq<Seq<char>>)>, c: GitCredentialView, p: Seq<char>, k: int)
    requires
        0 <= k <= t.len(),
        forall|j: int| 0 <= j < k ==> lex_lt(#[trigger] t[j].0.id, c.id),
        k < t.len() ==> !lex_lt(t[k].0.id, c.id),
    ensures
        add_target(t, c, p) == if k < t.len() && t[k].0.id == c.id {
            t.update(k, (t[k].0, t[k].1.push(p)))
        } else {
            t.insert(k, (c, seq![p]))
        },
    decreases k,
{
    if k == 0 {
        if t.len() == 0 {
            assert(t.insert(0, (c, seq![p])) =~= seq![(c, seq![p])]);
        } else if t[0].0.id != c.id {
            lemma_lex_total(t[0].0.id, c.id);
            assert(t.insert(0, (c, seq![p])) =~= seq![(c, seq![p])] + t);
        }
    } else {
        lemma_lex_irreflexive(c.id);
        lemma_lex_total(t[0].0.id, c.id);
        assert(t[0].0.id != c.id);
        assert(!lex_lt(c.id, t[0].0.id));
        let rest = t.drop_first();
        assert forall|j: int| 0 <= j < k - 1 implies lex_lt(#[trigger] rest[j].0.id, c.id) by {
            assert(rest[j] == t[j + 1]);
        }
        lemma_add_target_at(rest, c, p, k - 1);
        if k < t.len() && t[k].0.id == c.id {
            assert(seq![t[0]] + rest.update(k - 1, (rest[k - 1].0, rest[k - 1].1.push(p))) =~= t.update(
                k,
                (t[k].0, t[k].1.push(p)),
            ));
        } else {
            assert(seq![t[0]] + rest.insert(k - 1, (c, seq![p])) =~= t.insert(k, (c, seq![p])));
        }
    }
}

fn add_target_exec(t: &mut Vec<PreflightTarget>, c: GitCredential, p: String)
    ensures
        target_views(final(t)@) == add_target(target_views(old(t)@), c@, p@),
{
    let ghost tv = target_views(t@);
    let ghost cv = c@;
    let cid = chars_of(c.id.as_str());
    let mut k: usize = 0;
    loop
        invariant
            k <= t.len(),
            tv == target_views(t@),
            cid@ == cv.id,
            forall|j: int| 0 <= j < k ==> lex_lt(#[trigger] tv[j].0.id, cv.id),
        ensures
            k <= t.len(),
            forall|j: int| 0 <= j < k ==> lex_lt(#[trigger] tv[j].0.id, cv.id),
            k < t.len() ==> !lex_lt(tv[k as int].0.id, cv.id),
        decreases t.len() - k,
    {
        if k == t.len() {
            break;
        }
        let kid = chars_of(t[k].0.id.as_str());
        assert(tv[k as int].0.id == t@[k as int].0.id@);
        if !chars_lt(kid.as_slice(), cid.as_slice()) {
            break;
        }
        k = k + 1;
    }
    proof {
        lemma_add_target_at(tv, cv, p@, k as int);
    }
    let same = if k < t.len() {
        let kid = chars_of(t[k].0.id.as_str());
        assert(tv[k as int].0.id == t@[k as int].0.id@);
        crate::text::chars_equal(kid.as_slice(), cid.as_slice())
    } else {
        false
    };
    if same {
        let mut entry = t.remove(k);
        let ghost before = views(entry.1@);
        entry.1.push(p);
        assert(views(entry.1@) =~= before.push(p@));
        t.insert(k, entry);
        assert(target_views(t@) =~= tv.update(k as int, (tv[k as int].0, tv[k as int].1.push(p@))));
    } else {
        let mut paths: Vec<String> = Vec::new();
        paths.push(p);
        let ghost pv = p@;
        assert(views(paths@) =~= seq![pv]);
        t.insert(k, (c, paths));
        assert(target_views(t@) =~= tv.insert(k as int, (cv, seq![pv])));
    }
}

proof fn lemma_targets_error_persists(st: TaskCredentialStateView, repos: Seq<SourceRepoView>, n: int)
    requires
        0 <= n <= repos.len(),
        preflight_targets_spec(st, repos.take(n)) is Err,
    ensures
        preflight_targets_spec(st, repos) == preflight_targets_spec(st, repos.take(n)),
    decreases repos.len() - n,
{
    if n < repos.len() {
        assert(repos.take(n + 1).drop_last() =~= repos.take(n));
        lemma_targets_error_persists(st, repos, n + 1);
    } else {
        assert(repos.take(n) =~= repos);
    }
}

/// The self-hosted GitLab credentials to preflight for a task's
/// repositories (see [`preflight_targets_spec`]).
pub fn self_hosted_gitlab_credentials_for_repositories(state: &TaskCredentialState, repositories: &[SourceRepo]) -> (r: Result<Vec<PreflightTarget>, CredentialError>)
    ensures
        match preflight_targets_spec(state@, repo_views(repositories@)) {
            Err(e) => r == Err::<Vec<PreflightTarget>, CredentialError>(e),
            Ok(t) => r matches Ok(v) && target_views(v@) == t,
        },
{
    let ghost rv = repo_views(repositories@);
    let mut targets: Vec<PreflightTarget> = Vec::new();
    let mut i: usize = 0;
    assert(rv.take(0) =~= Seq::<SourceRepoView>::empty());
    assert(target_views(targets@) =~= Seq::<(GitCredentialView, Seq<Seq<char>>)>::empty());
    while i < repositories.len()
        invariant
            i <= repositories.len(),
            rv == repo_views(repositories@),
            preflight_targets_spec(state@, rv.take(i as int)) == Ok::<Seq<(GitCredentialView, Seq<Seq<char>>)>, CredentialError>(
                target_views(targets@),
            ),
        decreases repositories.len() - i,
    {
        let repository = &repositories[i];
        proof {
            assert(rv.take(i + 1).drop_last() =~= rv.take(i as int));
            assert(rv.take(i + 1).last() == repository@);
        }
        let credential = match state.binding_credential_for_repository(repository) {
            Err(e) => {
                proof {
                    lemma_targets_error_persists(state@, rv, i + 1);
                }
                return Err(e);
            },
            Ok(c) => c,
        };
        match credential {
            None => {},
            Some(c) => {
                if is_self_hosted_gitlab_credential(&c) {
                    let raw = repository.project_path();
                    let path = match normalized_project_path(raw.as_str()) {
                        Ok(p) => p,
                        Err(e) => {
                            proof {
                                lemma_targets_error_persists(state@, rv, i + 1);
                            }
                            return Err(e);
                        },
                    };
                    add_target_exec(&mut targets, c, path);
                }
            },
        }
        i = i + 1;
    }
    assert(rv.take(repositories.len() as int) =~= rv);
    Ok(targets)
}

/// Targets stay in strictly ascending order of credential ID, one per ID,
/// as paths are added.
pub proof fn law_targets_sorted_by_id(t: Seq<(GitCredentialView, Seq<Seq<char>>)>, c: GitCredentialView, p: Seq<char>)
    requires
        forall|i: int, j: int| 0 <= i < j < t.len() ==> lex_lt(#[trigger] t[i].0.id, #[trigger] t[j].0.id),
    ensures
        forall|i: int, j: int|
            0 <= i < j < add_target(t, c, p).len() ==> lex_lt(
                #[trigger] add_target(t, c, p)[i].0.id,
                #[trigger] add_target(t, c, p)[j].0.id,
            ),
    decreases t.len(),
{
    if t.len() > 0 && t[0].0.id != c.id && !lex_lt(c.id, t[0].0.id) {
        let rest = t.drop_first();
        assert forall|i: int, j: int| 0 <= i < j < rest.len() implies lex_lt(#[trigger] rest[i].0.id, #[trigger] rest[j].0.id) by {
            assert(rest[i] == t[i + 1] && rest[j] == t[j + 1]);
        }
        law_targets_sorted_by_id(rest, c, p);
        lemma_lex_total(t[0].0.id, c.id);
        let a = add_target(rest, c, p);
        lemma_add_target_members(rest, c, p);
        let r = add_target(t, c, p);
        assert forall|i: int, j: int| 0 <= i < j < r.len() implies lex_lt(#[trigger] r[i].0.id, #[trigger] r[j].0.id) by {
            if i == 0 {
                assert(r[0] == t[0]);
                assert(r[j] == a[j - 1]);
                let id = a[j - 1].0.id;
                if id != c.id {
                    let m = choose|m: int| 0 <= m < rest.len() && rest[m].0.id == id;
                    assert(rest[m] == t[m + 1]);
                }
            } else {
                assert(r[i] == a[i - 1] && r[j] == a[j - 1]);
            }
        }
    } else if t.len() > 0 && t[0].0.id != c.id {
        lemma_lex_total(t[0].0.id, c.id);
        let r = add_target(t, c, p);
        assert forall|i: int, j: int| 0 <= i < j < r.len() implies lex_lt(#[trigger] r[i].0.id, #[trigger] r[j].0.id) by {
            if i == 0 {
                if j > 1 {
                    crate::text::lemma_lex_transitive(c.id, t[0].0.id, t[j - 1].0.id);
                }
            } else {
                assert(r[i] == t[i - 1] && r[j] == t[j - 1]);
            }
        }
    } else if t.len() > 0 {
        let r = add_target(t, c, p);
        assert forall|i: int, j: int| 0 <= i < j < r.len() implies lex_lt(#[trigger] r[i].0.id, #[trigger] r[j].0.id) by {
            assert(r[i].0.id == t[i].0.id && r[j].0.id == t[j].0.id);
        }
    }
}

/// Every ID among the targets after adding is `c`'s or one that was there.
proof fn lemma_add_target_members(t: Seq<(GitCredentialView, Seq<Seq<char>>)>, c: GitCredentialView, p: Seq<char>)
    ensures
        forall|j: int|
            0 <= j < add_target(t, c, p).len() ==> (#[trigger] add_target(t, c, p)[j]).0.id == c.id || exists|m: int|
                0 <= m < t.len() && t[m].0.id == add_target(t, c, p)[j].0.id,
    decreases t.len(),
{
    if t.len() > 0 && t[0].0.id != c.id && !lex_lt(c.id, t[0].0.id) {
        let rest = t.drop_first();
        lemma_add_target_members(rest, c, p);
        let r = add_target(t, c, p);
        assert forall|j: int| 0 <= j < r.len() implies (#[trigger] r[j]).0.id == c.id || exists|m: int|
            0 <= m < t.len() && t[m].0.id == r[j].0.id by {
            if j == 0 {
                assert(t[0].0.id == r[0].0.id);
            } else {
                let a = add_target(rest, c, p);
                assert(r[j] == a[j - 1]);
                if a[j - 1].0.id != c.id {
                    let m = choose|m: int| 0 <= m < rest.len() && rest[m].0.id == a[j - 1].0.id;
                    assert(t[m + 1] == rest[m]);
                }
            }
        }
    } else if t.len() > 0 {
        let r = add_target(t, c, p);
        assert forall|j: int| 0 <= j < r.len() implies (#[trigger] r[j]).0.id == c.id || exists|m: int|
            0 <= m < t.len() && t[m].0.id == r[j].0.id by {
            if t[0].0.id == c.id {
                assert(t[j].0.id == r[j].0.id);
            } else if j > 0 {
                assert(t[j - 1].0.id == r[j].0.id);
            }
        }
    }
}

/// How often task credentials are refreshed, in seconds: before the
/// shortest-lived one-hour token expires.
pub const GIT_CREDENTIALS_REFRESH_INTERVAL_SECS: u64 = 3000;

/// How a refresh attempt went.
#[derive(Debug, Clone, Copy, PartialEq, Eq, Structural)]
pub enum RefreshOutcome {
    /// Every credential was refreshed.
    Complete,
    /// Some credentials could not be refreshed.
    Partial,
    /// The refresh failed.
    Failed,
}

/// What to do after a refresh attempt.
#[derive(Debug, Clone, Copy, PartialEq, Eq, Structural)]
pub enum RefreshDecision {
    /// The cycle is over; wait for the next interval.
    Done,
    /// Try again after this many seconds.
    RetryAfterSecs(u64),
    /// Stop retrying until the next interval.
    GiveUp,
}

/// The delay before retry `attempt` (from 0): one, two, then four minutes.
pub open spec fn backoff_secs(attempt: nat) -> u64 {
    if attempt == 0 {
        60
    } else if attempt == 1 {
        120
    } else {
        240
    }
}

pub open spec fn refresh_decision_spec(attempt: nat, outcome: RefreshOutcome) -> RefreshDecision {
    if outcome == RefreshOutcome::Complete {
        RefreshDecision::Done
    } else if attempt < 3 {
        RefreshDecision::RetryAfterSecs(backoff_secs(attempt))
    } else {
        RefreshDecision::GiveUp
    }
}

/// The retry policy within one refresh cycle: a complete refresh ends the
/// cycle; a partial or failed one is retried after one, two and four
/// minutes, and after the third retry the cycle gives up.
pub fn refresh_decision(attempt: usize, outcome: RefreshOutcome) -> (r: RefreshDecision)
    ensures
        r == refresh_decision_spec(attempt as nat, outcome),
{
    match outcome {
        RefreshOutcome::Complete => RefreshDecision::Done,
        _ => {
            if attempt == 0 {
                RefreshDecision::RetryAfterSecs(60)
            } else if attempt == 1 {
                RefreshDecision::RetryAfterSecs(120)
            } else if attempt == 2 {
                RefreshDecision::RetryAfterSecs(240)
            } else {
                RefreshDecision::GiveUp
            }
        },
    }
}

/// A refresh cycle makes at most four attempts, and each retry waits twice
/// as long as the one before.
pub proof fn law_refresh_retries_are_bounded(attempt: nat, outcome: RefreshOutcome)
    ensures
        attempt >= 3 ==> !(refresh_decision_spec(attempt, outcome) is RetryAfterSecs),
        0 < attempt < 3 ==> backoff_secs(attempt) == 2 * backoff_secs((attempt - 1) as nat),
{
}

} // verus!
