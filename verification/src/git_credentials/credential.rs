//! Task Git credentials, the repositories they serve, and the URLs built
//! from them.

use vstd::prelude::*;

use crate::git_credentials::paths::{
    normalized_project_path, normalized_project_path_spec, normalized_relative_prefix,
    normalized_relative_prefix_spec, CredentialError,
};
use crate::text::{
    chars_eq_ignore_ascii_case, chars_equal, chars_of, contains_char, decimal, decimal_string,
    eq_ignore_ascii_case, push_all, trim, trim_chars, TrimSet,
};
use crate::url_ops::{
    url_host_of, url_host_str, url_port, url_port_of, url_set_host, url_set_path, url_set_port,
    url_with_host, url_with_path, url_with_port, view_opt,
};

verus! {

/// The code hosting service a repository lives on.
#[derive(Debug, Clone, Copy, PartialEq, Eq, Structural)]
pub enum CodeForge {
    Unset,
    Unknown,
    GitHub,
    GitLab,
}

impl CodeForge {
    /// Whether two forges are the same.
    pub fn same(self, other: CodeForge) -> (r: bool)
        ensures
            r == (self == other),
    {
        match (self, other) {
            (CodeForge::Unset, CodeForge::Unset) => true,
            (CodeForge::Unknown, CodeForge::Unknown) => true,
            (CodeForge::GitHub, CodeForge::GitHub) => true,
            (CodeForge::GitLab, CodeForge::GitLab) => true,
            _ => false,
        }
    }

    pub open spec fn spec_host(self) -> Seq<char> {
        match self {
            CodeForge::GitHub => "github.com"@,
            CodeForge::GitLab => "gitlab.com"@,
            _ => Seq::empty(),
        }
    }

    /// The managed host of the forge; empty for a repository without one.
    pub fn host(self) -> (r: &'static str)
        ensures
            r@ == self.spec_host(),
    {
        match self {
            CodeForge::GitHub => "github.com",
            CodeForge::GitLab => "gitlab.com",
            CodeForge::Unset => {
                proof {
                    reveal_strlit("");
                }
                ""
            },
            CodeForge::Unknown => {
                proof {
                    reveal_strlit("");
                }
                ""
            },
        }
    }
}

/// A repository a task works on.
#[derive(Debug)]
pub struct SourceRepo {
    pub code_forge: Option<CodeForge>,
    pub owner: String,
    pub repo: String,
}

/// A repository, as characters.
pub struct SourceRepoView {
    pub code_forge: Option<CodeForge>,
    pub owner: Seq<char>,
    pub repo: Seq<char>,
}

impl View for SourceRepo {
    type V = SourceRepoView;

    open spec fn view(&self) -> SourceRepoView {
        SourceRepoView { code_forge: self.code_forge, owner: self.owner@, repo: self.repo@ }
    }
}

impl SourceRepoView {
    /// `owner/repo`.
    pub open spec fn spec_project_path(self) -> Seq<char> {
        self.owner + "/"@ + self.repo
    }

    /// The managed forge URL, `https://{host}/{owner}/{repo}.git`.
    pub open spec fn spec_https_clone_url(self) -> Seq<char> {
        let host = match self.code_forge {
            Some(forge) => forge.spec_host(),
            None => Seq::empty(),
        };
        "https://"@ + host + "/"@ + self.spec_project_path() + ".git"@
    }
}

impl SourceRepo {
    pub fn new(code_forge: CodeForge, owner: String, repo: String) -> (r: SourceRepo)
        ensures
            r@ == (SourceRepoView { code_forge: Some(code_forge), owner: owner@, repo: repo@ }),
    {
        SourceRepo { code_forge: Some(code_forge), owner, repo }
    }

    /// The repository's path on its forge, `owner/repo`.
    pub fn project_path(&self) -> (r: String)
        ensures
            r@ == self@.spec_project_path(),
    {
        let mut r = String::new();
        push_all(&mut r, self.owner.as_str());
        push_all(&mut r, "/");
        push_all(&mut r, self.repo.as_str());
        r
    }

    /// The managed forge clone URL.
    pub fn https_clone_url(&self) -> (r: String)
        ensures
            r@ == self@.spec_https_clone_url(),
    {
        let mut r = String::new();
        push_all(&mut r, "https://");
        match self.code_forge {
            Some(forge) => push_all(&mut r, forge.host()),
            None => {},
        }
        push_all(&mut r, "/");
        let path = self.project_path();
        push_all(&mut r, path.as_str());
        push_all(&mut r, ".git");
        assert(r@ =~= self@.spec_https_clone_url());
        r
    }
}

/// A Git credential handed to the current run by the server.
#[derive(Debug)]
pub struct GitCredential {
    pub id: String,
    pub instance_uid: Option<String>,
    pub installation_uid: Option<String>,
    pub scheme: String,
    pub host: String,
    pub port: Option<u32>,
    pub relative_url_prefix: String,
    pub project_paths: Vec<String>,
    pub token: String,
    pub username: Option<String>,
    pub email: Option<String>,
}

/// What a credential says, as character sequences.
pub struct GitCredentialView {
    pub id: Seq<char>,
    pub instance_uid: Option<Seq<char>>,
    pub installation_uid: Option<Seq<char>>,
    pub scheme: Seq<char>,
    pub host: Seq<char>,
    pub port: Option<u32>,
    pub relative_url_prefix: Seq<char>,
    pub project_paths: Seq<Seq<char>>,
    pub token: Seq<char>,
    pub username: Option<Seq<char>>,
    pub email: Option<Seq<char>>,
}

/// The views of a sequence of strings.
pub open spec fn views(v: Seq<String>) -> Seq<Seq<char>> {
    v.map_values(|s: String| s@)
}

impl View for GitCredential {
    type V = GitCredentialView;

    open spec fn view(&self) -> GitCredentialView {
        GitCredentialView {
            id: self.id@,
            instance_uid: view_opt(self.instance_uid),
            installation_uid: view_opt(self.installation_uid),
            scheme: self.scheme@,
            host: self.host@,
            port: self.port,
            relative_url_prefix: self.relative_url_prefix@,
            project_paths: views(self.project_paths@),
            token: self.token@,
            username: view_opt(self.username),
            email: view_opt(self.email),
        }
    }
}

fn clone_opt(o: &Option<String>) -> (r: Option<String>)
    ensures
        view_opt(r) == view_opt(*o),
{
    match o {
        Some(s) => Some(s.clone()),
        None => None,
    }
}

pub fn clone_strings(v: &Vec<String>) -> (r: Vec<String>)
    ensures
        views(r@) == views(v@),
{
    let mut r: Vec<String> = Vec::new();
    let mut i: usize = 0;
    while i < v.len()
        invariant
            i <= v.len(),
            views(r@) == views(v@.take(i as int)),
        decreases v.len() - i,
    {
        let c = v[i].clone();
        let ghost before = r@;
        r.push(c);
        i = i + 1;
        assert(v@.take(i as int) =~= v@.take(i - 1).push(v@[i - 1]));
        assert(views(r@) =~= views(before).push(c@));
        assert(views(v@.take(i as int)) =~= views(v@.take(i - 1)).push(v@[i - 1]@));
    }
    assert(v@.take(v.len() as int) =~= v@);
    r
}

impl Clone for GitCredential {
    fn clone(&self) -> (r: Self)
        ensures
            r@ == self@,
    {
        GitCredential {
            id: self.id.clone(),
            instance_uid: clone_opt(&self.instance_uid),
            installation_uid: clone_opt(&self.installation_uid),
            scheme: self.scheme.clone(),
            host: self.host.clone(),
            port: self.port,
            relative_url_prefix: self.relative_url_prefix.clone(),
            project_paths: clone_strings(&self.project_paths),
            token: self.token.clone(),
            username: clone_opt(&self.username),
            email: clone_opt(&self.email),
        }
    }
}

/// A valid credential host: non-empty, with no surrounding whitespace and
/// no `/` or `@`.
pub open spec fn host_is_valid(host: Seq<char>) -> bool {
    &&& trim(TrimSet::Whitespace, host).len() != 0
    &&& trim(TrimSet::Whitespace, host) == host
    &&& !host.contains('/')
    &&& !host.contains('@')
}

/// The path of a credential origin: `/` or `/{prefix}/`.
pub open spec fn origin_path(prefix: Seq<char>) -> Seq<char> {
    if prefix.len() == 0 {
        "/"@
    } else {
        "/"@ + prefix + "/"@
    }
}

/// The URL every credential origin is built from.
pub open spec fn blank_origin() -> Seq<char> {
    "https://invalid/"@
}

/// The HTTPS origin of a credential: `https://{host}[:{port}]/[{prefix}/]`,
/// built with the `url` crate, or why the credential has none.
pub open spec fn credential_origin_spec(c: GitCredentialView) -> Result<Seq<char>, CredentialError> {
    if c.scheme != "https"@ {
        Err(CredentialError::RequiresHttps)
    } else if !host_is_valid(c.host) {
        Err(CredentialError::InvalidHost)
    } else {
        match url_set_host(blank_origin(), c.host) {
            None => Err(CredentialError::InvalidHost),
            Some(with_host) => {
                let with_port = match c.port {
                    None => Ok(with_host),
                    Some(port) => if port == 0 || port > 65535 {
                        Err(CredentialError::InvalidPort)
                    } else {
                        match url_set_port(with_host, port as u16) {
                            None => Err(CredentialError::InvalidPort),
                            Some(u) => Ok(u),
                        }
                    },
                };
                match with_port {
                    Err(e) => Err(e),
                    Ok(u) => match normalized_relative_prefix_spec(c.relative_url_prefix) {
                        None => Err(CredentialError::InvalidRelativePrefix),
                        Some(prefix) => match url_set_path(u, origin_path(prefix)) {
                            None => Err(CredentialError::OriginInitialization),
                            Some(origin) => Ok(origin),
                        },
                    },
                }
            },
        }
    }
}

pub open spec fn string_result(r: Result<String, CredentialError>) -> Result<Seq<char>, CredentialError> {
    match r {
        Ok(s) => Ok(s@),
        Err(e) => Err(e),
    }
}

fn is_valid_host(host: &str) -> (r: bool)
    ensures
        r == host_is_valid(host@),
{
    let chars = chars_of(host);
    let trimmed = trim_chars(TrimSet::Whitespace, chars.as_slice());
    trimmed.len() != 0 && chars_equal(trimmed.as_slice(), chars.as_slice()) && !contains_char(
        chars.as_slice(),
        '/',
    ) && !contains_char(chars.as_slice(), '@')
}

fn origin_path_string(prefix: &str) -> (r: String)
    ensures
        r@ == origin_path(prefix@),
{
    let mut r = String::new();
    push_all(&mut r, "/");
    if !prefix.is_empty() {
        push_all(&mut r, prefix);
        push_all(&mut r, "/");
    } else {
        assert(r@ =~= "/"@ + prefix@);
    }
    r
}

} // verus!

verus! {

/// The HTTPS origin of a credential (see [`credential_origin_spec`]).
pub fn credential_origin(credential: &GitCredential) -> (r: Result<String, CredentialError>)
    ensures
        string_result(r) == credential_origin_spec(credential@),
{
    if !crate::text::texts_equal(credential.scheme.as_str(), "https") {
        return Err(CredentialError::RequiresHttps);
    }
    if !is_valid_host(credential.host.as_str()) {
        return Err(CredentialError::InvalidHost);
    }
    let with_host = match url_with_host("https://invalid/", credential.host.as_str()) {
        Some(u) => u,
        None => {
            return Err(CredentialError::InvalidHost);
        },
    };
    let with_port = match credential.port {
        None => with_host,
        Some(port) => {
            if port == 0 || port > 65535 {
                return Err(CredentialError::InvalidPort);
            }
            match url_with_port(with_host.as_str(), port as u16) {
                Some(u) => u,
                None => {
                    return Err(CredentialError::InvalidPort);
                },
            }
        },
    };
    let prefix = match normalized_relative_prefix(credential.relative_url_prefix.as_str()) {
        Ok(p) => p,
        Err(e) => {
            return Err(e);
        },
    };
    let path = origin_path_string(prefix.as_str());
    match url_with_path(with_port.as_str(), path.as_str()) {
        Some(origin) => Ok(origin),
        None => Err(CredentialError::OriginInitialization),
    }
}

/// `host` or `host:port` of a credential origin, as `url` reports them.
pub open spec fn credential_authority_spec(c: GitCredentialView) -> Result<Seq<char>, CredentialError> {
    match credential_origin_spec(c) {
        Err(e) => Err(e),
        Ok(origin) => match url_host_str(origin) {
            None => Err(CredentialError::OriginWithoutHost),
            Some(host) => match url_port(origin) {
                Some(port) => Ok(host + ":"@ + decimal(port as nat)),
                None => Ok(host),
            },
        },
    }
}

/// The authority (`host[:port]`) of a credential's origin.
pub fn credential_authority(credential: &GitCredential) -> (r: Result<String, CredentialError>)
    ensures
        string_result(r) == credential_authority_spec(credential@),
{
    let origin = match credential_origin(credential) {
        Ok(o) => o,
        Err(e) => {
            return Err(e);
        },
    };
    let host = match url_host_of(origin.as_str()) {
        Some(h) => h,
        None => {
            return Err(CredentialError::OriginWithoutHost);
        },
    };
    match url_port_of(origin.as_str()) {
        Some(port) => {
            let mut r = host;
            push_all(&mut r, ":");
            let digits = decimal_string(port as u64);
            push_all(&mut r, digits.as_str());
            Ok(r)
        },
        None => Ok(host),
    }
}

/// The clone URL path for a project under a prefix:
/// `/[{prefix}/]{project}.git`.
pub open spec fn clone_path(prefix: Seq<char>, project: Seq<char>) -> Seq<char> {
    if prefix.len() == 0 {
        "/"@ + project + ".git"@
    } else {
        "/"@ + prefix + "/"@ + project + ".git"@
    }
}

/// The credential-owned, token-free clone URL of a project.
pub open spec fn clone_url_for_path_spec(c: GitCredentialView, project_path: Seq<char>) -> Result<Seq<char>, CredentialError> {
    match normalized_project_path_spec(project_path) {
        None => Err(CredentialError::InvalidRepositoryPath),
        Some(project) => match normalized_relative_prefix_spec(c.relative_url_prefix) {
            None => Err(CredentialError::InvalidRelativePrefix),
            Some(prefix) => match credential_origin_spec(c) {
                Err(e) => Err(e),
                Ok(origin) => match url_set_path(origin, clone_path(prefix, project)) {
                    None => Err(CredentialError::OriginInitialization),
                    Some(u) => Ok(u),
                },
            },
        },
    }
}

/// Builds the explicit clone URL of `project_path` under a credential's
/// origin.
pub fn clone_url_for_path(credential: &GitCredential, project_path: &str) -> (r: Result<String, CredentialError>)
    ensures
        string_result(r) == clone_url_for_path_spec(credential@, project_path@),
{
    let project = match normalized_project_path(project_path) {
        Ok(p) => p,
        Err(e) => {
            return Err(e);
        },
    };
    let prefix = match normalized_relative_prefix(credential.relative_url_prefix.as_str()) {
        Ok(p) => p,
        Err(e) => {
            return Err(e);
        },
    };
    let origin = match credential_origin(credential) {
        Ok(o) => o,
        Err(e) => {
            return Err(e);
        },
    };
    let mut path = String::new();
    push_all(&mut path, "/");
    if !prefix.as_str().is_empty() {
        push_all(&mut path, prefix.as_str());
        push_all(&mut path, "/");
    }
    push_all(&mut path, project.as_str());
    push_all(&mut path, ".git");
    assert(path@ =~= clone_path(prefix@, project@));
    match url_with_path(origin.as_str(), path.as_str()) {
        Some(u) => Ok(u),
        None => Err(CredentialError::OriginInitialization),
    }
}

} // verus!

verus! {

/// Whether `host` names the managed GitLab (`gitlab.com`, any ASCII case).
pub open spec fn is_gitlab_host(host: Seq<char>) -> bool {
    eq_ignore_ascii_case(host, "gitlab.com"@)
}

/// Whether `host` names GitHub (`github.com`, any ASCII case).
pub open spec fn is_github_host(host: Seq<char>) -> bool {
    eq_ignore_ascii_case(host, "github.com"@)
}

/// A GitLab credential: one tied to a GitLab instance or installation, or
/// one for `gitlab.com`.
pub open spec fn is_gitlab_spec(c: GitCredentialView) -> bool {
    c.instance_uid is Some || c.installation_uid is Some || is_gitlab_host(c.host)
}

/// A GitLab credential for anything but plain `gitlab.com`: another host, an
/// explicit port, or a relative URL prefix.
pub open spec fn is_self_hosted_gitlab_spec(c: GitCredentialView) -> bool {
    is_gitlab_spec(c) && (!is_gitlab_host(c.host) || c.port is Some || trim(
        TrimSet::Slash,
        c.relative_url_prefix,
    ).len() != 0)
}

fn host_is(host: &str, expected: &str) -> (r: bool)
    ensures
        r == eq_ignore_ascii_case(host@, expected@),
{
    let a = chars_of(host);
    let b = chars_of(expected);
    chars_eq_ignore_ascii_case(a.as_slice(), b.as_slice())
}

pub fn is_gitlab_credential(credential: &GitCredential) -> (r: bool)
    ensures
        r == is_gitlab_spec(credential@),
{
    credential.instance_uid.is_some() || credential.installation_uid.is_some() || host_is(
        credential.host.as_str(),
        "gitlab.com",
    )
}

pub fn is_self_hosted_gitlab_credential(credential: &GitCredential) -> (r: bool)
    ensures
        r == is_self_hosted_gitlab_spec(credential@),
{
    if !is_gitlab_credential(credential) {
        return false;
    }
    if !host_is(credential.host.as_str(), "gitlab.com") || credential.port.is_some() {
        return true;
    }
    let prefix = chars_of(credential.relative_url_prefix.as_str());
    let trimmed = trim_chars(TrimSet::Slash, prefix.as_slice());
    trimmed.len() != 0
}

/// Whether one of the credential's project paths normalizes to `key`.
pub open spec fn authorizes_path_spec(c: GitCredentialView, key: Seq<char>) -> bool {
    exists|i: int|
        0 <= i < c.project_paths.len() && normalized_project_path_spec(#[trigger] c.project_paths[i])
            == Some(key)
}

pub fn credential_authorizes_path(credential: &GitCredential, path_key: &str) -> (r: bool)
    ensures
        r == authorizes_path_spec(credential@, path_key@),
{
    let mut i: usize = 0;
    while i < credential.project_paths.len()
        invariant
            i <= credential.project_paths.len(),
            forall|k: int|
                0 <= k < i ==> normalized_project_path_spec(#[trigger] credential@.project_paths[k])
                    != Some(path_key@),
        decreases credential.project_paths.len() - i,
    {
        match normalized_project_path(credential.project_paths[i].as_str()) {
            Ok(key) => {
                if crate::text::texts_equal(key.as_str(), path_key) {
                    assert(credential@.project_paths[i as int] == credential.project_paths@[i as int]@);
                    return true;
                }
            },
            Err(_) => {},
        }
        assert(credential@.project_paths[i as int] == credential.project_paths@[i as int]@);
        i = i + 1;
    }
    false
}

/// Whether a credential may serve a repository on `forge`.
pub open spec fn matches_forge_spec(c: GitCredentialView, forge: Option<CodeForge>) -> bool {
    match forge {
        Some(CodeForge::GitHub) => is_github_host(c.host) && !is_gitlab_spec(c),
        Some(CodeForge::GitLab) => is_gitlab_spec(c),
        _ => false,
    }
}

pub fn credential_matches_forge(credential: &GitCredential, code_forge: Option<CodeForge>) -> (r: bool)
    ensures
        r == matches_forge_spec(credential@, code_forge),
{
    match code_forge {
        Some(CodeForge::GitHub) => host_is(credential.host.as_str(), "github.com")
            && !is_gitlab_credential(credential),
        Some(CodeForge::GitLab) => is_gitlab_credential(credential),
        _ => false,
    }
}

fn opt_equal(a: &Option<String>, b: &Option<String>) -> (r: bool)
    ensures
        r == (view_opt(*a) == view_opt(*b)),
{
    match (a, b) {
        (Some(x), Some(y)) => crate::text::texts_equal(x.as_str(), y.as_str()),
        (None, None) => true,
        _ => false,
    }
}

fn strings_equal(a: &Vec<String>, b: &Vec<String>) -> (r: bool)
    ensures
        r == (views(a@) == views(b@)),
{
    if a.len() != b.len() {
        assert(views(a@).len() != views(b@).len());
        return false;
    }
    let mut i: usize = 0;
    while i < a.len()
        invariant
            i <= a.len() == b.len(),
            forall|k: int| 0 <= k < i ==> a@[k]@ == b@[k]@,
        decreases a.len() - i,
    {
        if !crate::text::texts_equal(a[i].as_str(), b[i].as_str()) {
            assert(views(a@)[i as int] != views(b@)[i as int]);
            return false;
        }
        i = i + 1;
    }
    assert(views(a@) =~= views(b@));
    true
}

/// Whether two credentials agree on every field.
pub fn credentials_equal(left: &GitCredential, right: &GitCredential) -> (r: bool)
    ensures
        r == (left@ == right@),
{
    crate::text::texts_equal(left.id.as_str(), right.id.as_str()) && opt_equal(
        &left.instance_uid,
        &right.instance_uid,
    ) && opt_equal(&left.installation_uid, &right.installation_uid) && crate::text::texts_equal(
        left.scheme.as_str(),
        right.scheme.as_str(),
    ) && crate::text::texts_equal(left.host.as_str(), right.host.as_str()) && left.port == right.port
        && crate::text::texts_equal(left.relative_url_prefix.as_str(), right.relative_url_prefix.as_str())
        && strings_equal(&left.project_paths, &right.project_paths) && crate::text::texts_equal(
        left.token.as_str(),
        right.token.as_str(),
    ) && opt_equal(&left.username, &right.username) && opt_equal(&left.email, &right.email)
}

} // verus!

verus! {

/// The user name a credential authenticates with: its own, else `oauth2`
/// for GitLab and `x-access-token` otherwise.
pub open spec fn store_username(c: GitCredentialView) -> Seq<char> {
    match c.username {
        Some(u) => u,
        None => if is_gitlab_spec(c) {
            "oauth2"@
        } else {
            "x-access-token"@
        },
    }
}

/// One line of Git's credential store for a project: the clone URL with the
/// credential's user name and token filled in.
pub open spec fn store_line_spec(c: GitCredentialView, project_path: Seq<char>) -> Result<Seq<char>, CredentialError> {
    match clone_url_for_path_spec(c, project_path) {
        Err(e) => Err(e),
        Ok(url) => match crate::url_ops::url_set_username(url, store_username(c)) {
            None => Err(CredentialError::InvalidUsername),
            Some(with_user) => match crate::url_ops::url_set_password(with_user, c.token) {
                None => Err(CredentialError::InvalidToken),
                Some(line) => Ok(line),
            },
        },
    }
}

/// The credential store line of a project (see [`store_line_spec`]).
pub fn credential_store_line(credential: &GitCredential, project_path: &str) -> (r: Result<String, CredentialError>)
    ensures
        string_result(r) == store_line_spec(credential@, project_path@),
{
    let url = match clone_url_for_path(credential, project_path) {
        Ok(u) => u,
        Err(e) => {
            return Err(e);
        },
    };
    let username: String = match &credential.username {
        Some(u) => u.clone(),
        None => {
            let mut s = String::new();
            if is_gitlab_credential(credential) {
                push_all(&mut s, "oauth2");
            } else {
                push_all(&mut s, "x-access-token");
            }
            s
        },
    };
    let with_user = match crate::url_ops::url_with_username(url.as_str(), username.as_str()) {
        Some(u) => u,
        None => {
            return Err(CredentialError::InvalidUsername);
        },
    };
    match crate::url_ops::url_with_password(with_user.as_str(), credential.token.as_str()) {
        Some(line) => Ok(line),
        None => Err(CredentialError::InvalidToken),
    }
}

} // verus!
