//! The credentials a task holds, with the repository bindings and the
//! repository-local `glab` configurations registered for them.

use vstd::prelude::*;

use crate::git_credentials::credential::{
    clone_url_for_path, clone_url_for_path_spec, is_self_hosted_gitlab_credential,
    is_self_hosted_gitlab_spec, CodeForge, GitCredential, GitCredentialView, SourceRepo, SourceRepoView,
};
use crate::git_credentials::paths::{
    normalized_project_path, normalized_project_path_spec, CredentialError,
};
use crate::git_credentials::store::{
    creds_result, cviews, merged_credentials_by_id, merged_spec, select_credential_for_repository,
    select_spec, unique_by_id_spec, unique_credentials_by_id,
};
use crate::text::{chars_equal, chars_of};

verus! {

/// The views of a sequence of repositories.
pub open spec fn repo_views(v: Seq<SourceRepo>) -> Seq<SourceRepoView> {
    v.map_values(|r: SourceRepo| r@)
}

/// The key a repository is bound under: its forge and normalized path.
pub open spec fn binding_key_spec(repo: SourceRepoView) -> Result<(CodeForge, Seq<char>), CredentialError> {
    match repo.code_forge {
        Some(forge) => if forge == CodeForge::Unset || forge == CodeForge::Unknown {
            Err(CredentialError::UnsupportedForge)
        } else {
            match normalized_project_path_spec(repo.spec_project_path()) {
                None => Err(CredentialError::InvalidRepositoryPath),
                Some(key) => Ok((forge, key)),
            }
        },
        None => Err(CredentialError::UnsupportedForge),
    }
}

/// The key a repository is bound under.
pub fn repository_binding_key(repo: &SourceRepo) -> (r: Result<(CodeForge, String), CredentialError>)
    ensures
        match binding_key_spec(repo@) {
            Ok((f, k)) => r matches Ok((g, s)) && g == f && s@ == k,
            Err(e) => r == Err::<(CodeForge, String), CredentialError>(e),
        },
{
    let forge = match repo.code_forge {
        Some(f) => {
            if f.same(CodeForge::Unset) || f.same(CodeForge::Unknown) {
                return Err(CredentialError::UnsupportedForge);
            }
            f
        },
        None => {
            return Err(CredentialError::UnsupportedForge);
        },
    };
    let path = repo.project_path();
    match normalized_project_path(path.as_str()) {
        Ok(k) => Ok((forge, k)),
        Err(e) => Err(e),
    }
}

/// A repository bound to the ID of the credential that serves it.
pub struct RepositoryBinding {
    pub code_forge: CodeForge,
    pub project_path: String,
    pub credential_id: String,
}

/// A repository-local `glab` configuration directory and the credential it
/// was written for.
pub struct RegisteredGlabConfig {
    pub credential_id: String,
    pub config_dir: String,
}

/// Everything a task knows about its Git credentials.
pub struct TaskCredentialState {
    credentials: Vec<GitCredential>,
    bindings: Vec<RepositoryBinding>,
    glab_configs: Vec<RegisteredGlabConfig>,
}

/// The abstract state: the stored credentials, the repository bindings by
/// key, and the registered `glab` configurations as (credential ID,
/// directory) pairs in registration order.
pub struct TaskCredentialStateView {
    pub credentials: Seq<GitCredentialView>,
    pub bindings: Map<(CodeForge, Seq<char>), Seq<char>>,
    pub glab_configs: Seq<(Seq<char>, Seq<char>)>,
}

pub open spec fn binding_map(b: Seq<RepositoryBinding>) -> Map<(CodeForge, Seq<char>), Seq<char>>
    decreases b.len(),
{
    if b.len() == 0 {
        Map::empty()
    } else {
        binding_map(b.drop_last()).insert(
            (b.last().code_forge, b.last().project_path@),
            b.last().credential_id@,
        )
    }
}

pub open spec fn glab_view(g: Seq<RegisteredGlabConfig>) -> Seq<(Seq<char>, Seq<char>)> {
    g.map_values(|c: RegisteredGlabConfig| (c.credential_id@, c.config_dir@))
}

impl View for TaskCredentialState {
    type V = TaskCredentialStateView;

    closed spec fn view(&self) -> TaskCredentialStateView {
        TaskCredentialStateView {
            credentials: cviews(self.credentials@),
            bindings: binding_map(self.bindings@),
            glab_configs: glab_view(self.glab_configs@),
        }
    }
}

} // verus!

verus! {

proof fn lemma_binding_lookup(b: Seq<RepositoryBinding>, k: (CodeForge, Seq<char>), n: int)
    requires
        0 <= n <= b.len(),
        forall|j: int| n <= j < b.len() ==> (#[trigger] b[j].code_forge, b[j].project_path@) != k,
    ensures
        binding_map(b).contains_key(k) == binding_map(b.take(n)).contains_key(k),
        binding_map(b).contains_key(k) ==> binding_map(b)[k] == binding_map(b.take(n))[k],
    decreases b.len() - n,
{
    if n < b.len() {
        assert(b.drop_last().len() == b.len() - 1);
        assert forall|j: int| n <= j < b.drop_last().len() implies (#[trigger] b.drop_last()[j].code_forge, b.drop_last()[j].project_path@) != k by {
            assert(b.drop_last()[j] == b[j]);
        }
        lemma_binding_lookup(b.drop_last(), k, n);
        assert(b.drop_last().take(n) =~= b.take(n));
    } else {
        assert(b.take(n) =~= b);
    }
}

impl TaskCredentialState {
    pub fn new() -> (r: TaskCredentialState)
        ensures
            r@.credentials.len() == 0,
            r@.bindings == Map::<(CodeForge, Seq<char>), Seq<char>>::empty(),
            r@.glab_configs.len() == 0,
    {
        let r = TaskCredentialState { credentials: Vec::new(), bindings: Vec::new(), glab_configs: Vec::new() };
        assert(cviews(r.credentials@) =~= Seq::<GitCredentialView>::empty());
        assert(glab_view(r.glab_configs@) =~= Seq::<(Seq<char>, Seq<char>)>::empty());
        r
    }

    /// The ID of the credential bound to `key`, if any.
    fn bound_credential_id(&self, forge: CodeForge, path: &str) -> (r: Option<String>)
        ensures
            match r {
                Some(id) => self@.bindings.contains_key((forge, path@)) && self@.bindings[(forge, path@)] == id@,
                None => !self@.bindings.contains_key((forge, path@)),
            },
    {
        let ghost k = (forge, path@);
        let mut i: usize = self.bindings.len();
        while i > 0
            invariant
                i <= self.bindings.len(),
                k == (forge, path@),
                forall|j: int| i <= j < self.bindings@.len() ==> (#[trigger] self.bindings@[j].code_forge, self.bindings@[j].project_path@) != k,
            decreases i,
        {
            let b = &self.bindings[i - 1];
            let hit = b.code_forge.same(forge) && crate::text::texts_equal(b.project_path.as_str(), path);
            if hit {
                proof {
                    lemma_binding_lookup(self.bindings@, k, i as int);
                    let t = self.bindings@.take(i as int);
                    assert(t.drop_last() =~= self.bindings@.take(i - 1));
                    assert(t.last() == self.bindings@[i - 1]);
                    assert(binding_map(t) == binding_map(t.drop_last()).insert(
                        (t.last().code_forge, t.last().project_path@),
                        t.last().credential_id@,
                    ));
                    assert((t.last().code_forge, t.last().project_path@) == k);
                }
                return Some(b.credential_id.clone());
            }
            assert((self.bindings@[i - 1].code_forge, self.bindings@[i - 1].project_path@) != k);
            i = i - 1;
        }
        proof {
            lemma_binding_lookup(self.bindings@, k, 0);
            assert(self.bindings@.take(0) =~= Seq::<RepositoryBinding>::empty());
        }
        None
    }

    fn bind(&mut self, forge: CodeForge, path: String, credential_id: String)
        ensures
            final(self)@.credentials == old(self)@.credentials,
            final(self)@.glab_configs == old(self)@.glab_configs,
            final(self)@.bindings == old(self)@.bindings.insert((forge, path@), credential_id@),
    {
        let ghost before = self.bindings@;
        self.bindings.push(RepositoryBinding { code_forge: forge, project_path: path, credential_id });
        assert(self.bindings@.drop_last() =~= before);
    }

    fn clear_bindings(&mut self)
        ensures
            final(self)@.credentials == old(self)@.credentials,
            final(self)@.glab_configs == old(self)@.glab_configs,
            final(self)@.bindings == Map::<(CodeForge, Seq<char>), Seq<char>>::empty(),
    {
        self.bindings = Vec::new();
    }

    /// A copy of the stored credentials.
    pub fn task_credentials_snapshot(&self) -> (r: Vec<GitCredential>)
        ensures
            cviews(r@) == self@.credentials,
    {
        crate::git_credentials::store::clone_credentials(self.credentials.as_slice())
    }

    /// Replaces the stored credentials with `credentials`, de-duplicated by
    /// ID; on an error nothing changes.
    pub fn replace_task_credentials(&mut self, credentials: &[GitCredential]) -> (r: Result<Vec<GitCredential>, CredentialError>)
        ensures
            creds_result(r) == unique_by_id_spec(cviews(credentials@)),
            final(self)@.bindings == old(self)@.bindings,
            final(self)@.glab_configs == old(self)@.glab_configs,
            match unique_by_id_spec(cviews(credentials@)) {
                Ok(u) => final(self)@.credentials == u,
                Err(_) => final(self)@.credentials == old(self)@.credentials,
            },
    {
        let unique = match unique_credentials_by_id(credentials) {
            Ok(u) => u,
            Err(e) => {
                return Err(e);
            },
        };
        self.credentials = crate::git_credentials::store::clone_credentials(unique.as_slice());
        Ok(unique)
    }

    /// Merges a refresh into the stored credentials (see [`merged_spec`]);
    /// on an error nothing changes.
    pub fn merge_task_credentials(&mut self, credentials: &[GitCredential]) -> (r: Result<Vec<GitCredential>, CredentialError>)
        ensures
            creds_result(r) == merged_spec(old(self)@.credentials, cviews(credentials@)),
            final(self)@.bindings == old(self)@.bindings,
            final(self)@.glab_configs == old(self)@.glab_configs,
            match merged_spec(old(self)@.credentials, cviews(credentials@)) {
                Ok(m) => final(self)@.credentials == m,
                Err(_) => final(self)@.credentials == old(self)@.credentials,
            },
    {
        let merged = match merged_credentials_by_id(self.credentials.as_slice(), credentials) {
            Ok(m) => m,
            Err(e) => {
                return Err(e);
            },
        };
        self.credentials = crate::git_credentials::store::clone_credentials(merged.as_slice());
        Ok(merged)
    }
}

} // verus!

verus! {

/// Whether any credential is a self-hosted GitLab credential.
pub open spec fn has_self_hosted_gitlab(cs: Seq<GitCredentialView>) -> bool {
    exists|i: int| 0 <= i < cs.len() && is_self_hosted_gitlab_spec(#[trigger] cs[i])
}

/// Binding the repositories of a task, one after another, starting from
/// `bindings`: each repository with a selected credential is bound to its
/// ID. The first failure stops the walk and leaves the bindings made so far:
/// an unsupported forge or invalid path, an ambiguous selection, or a GitLab
/// repository left without a credential while self-hosted GitLab credentials
/// exist.
pub open spec fn prepare_steps(cs: Seq<GitCredentialView>, repos: Seq<SourceRepoView>, bindings: Map<(CodeForge, Seq<char>), Seq<char>>) -> (Map<(CodeForge, Seq<char>), Seq<char>>, Option<CredentialError>)
    decreases repos.len(),
{
    if repos.len() == 0 {
        (bindings, None)
    } else {
        let (m, e) = prepare_steps(cs, repos.drop_last(), bindings);
        if e is Some {
            (m, e)
        } else {
            let repo = repos.last();
            match binding_key_spec(repo) {
                Err(err) => (m, Some(err)),
                Ok(k) => match select_spec(cs, repo) {
                    Err(err) => (m, Some(err)),
                    Ok(Some(i)) => (m.insert(k, cs[i].id), None),
                    Ok(None) => if repo.code_forge == Some(CodeForge::GitLab) && has_self_hosted_gitlab(cs) {
                        (m, Some(CredentialError::SelfHostedGitLabUnbound))
                    } else {
                        (m, None)
                    },
                },
            }
        }
    }
}

/// The credential that serves a repository: the one its binding names, or,
/// without a binding, the selected one (see [`select_spec`]).
pub open spec fn binding_credential_spec(st: TaskCredentialStateView, repo: SourceRepoView) -> Result<Option<GitCredentialView>, CredentialError> {
    match binding_key_spec(repo) {
        Err(e) => Err(e),
        Ok(k) => if st.bindings.contains_key(k) {
            match crate::git_credentials::store::index_of_id(st.credentials, st.bindings[k]) {
                Some(j) => Ok(Some(st.credentials[j])),
                None => Err(CredentialError::CredentialUnavailable),
            }
        } else {
            match select_spec(st.credentials, repo) {
                Err(e) => Err(e),
                Ok(None) => Ok(None),
                Ok(Some(i)) => Ok(Some(st.credentials[i])),
            }
        },
    }
}

pub open spec fn opt_cred_result(r: Result<Option<GitCredential>, CredentialError>) -> Result<Option<GitCredentialView>, CredentialError> {
    match r {
        Ok(Some(c)) => Ok(Some(c@)),
        Ok(None) => Ok(None),
        Err(e) => Err(e),
    }
}

/// The clone URL of a repository: the credential-owned URL when a credential
/// serves it, the managed forge URL otherwise.
pub open spec fn clone_url_for_repository_spec(st: TaskCredentialStateView, repo: SourceRepoView) -> Result<Seq<char>, CredentialError> {
    match binding_credential_spec(st, repo) {
        Err(e) => Err(e),
        Ok(Some(c)) => clone_url_for_path_spec(c, repo.spec_project_path()),
        Ok(None) => Ok(repo.spec_https_clone_url()),
    }
}

fn any_self_hosted_gitlab(cs: &[GitCredential]) -> (r: bool)
    ensures
        r == has_self_hosted_gitlab(cviews(cs@)),
{
    let mut i: usize = 0;
    while i < cs.len()
        invariant
            i <= cs.len(),
            forall|k: int| 0 <= k < i ==> !is_self_hosted_gitlab_spec(#[trigger] cviews(cs@)[k]),
        decreases cs.len() - i,
    {
        if is_self_hosted_gitlab_credential(&cs[i]) {
            assert(is_self_hosted_gitlab_spec(cviews(cs@)[i as int]));
            return true;
        }
        i = i + 1;
    }
    false
}

impl TaskCredentialState {
    /// Installs a new credential set for a task: the credentials are
    /// de-duplicated and stored, and every binding and `glab` registration is
    /// dropped. On an error only the credentials stay as they were.
    pub fn configure_git_credentials(&mut self, credentials: &[GitCredential]) -> (r: Result<Vec<GitCredential>, CredentialError>)
        ensures
            creds_result(r) == unique_by_id_spec(cviews(credentials@)),
            match unique_by_id_spec(cviews(credentials@)) {
                Ok(u) => final(self)@.credentials == u && final(self)@.bindings
                    == Map::<(CodeForge, Seq<char>), Seq<char>>::empty() && final(self)@.glab_configs.len()
                    == 0,
                Err(_) => final(self)@ == old(self)@,
            },
    {
        let r = match self.replace_task_credentials(credentials) {
            Ok(u) => u,
            Err(e) => {
                return Err(e);
            },
        };
        self.clear_bindings();
        self.glab_configs = Vec::new();
        assert(glab_view(self.glab_configs@) =~= Seq::<(Seq<char>, Seq<char>)>::empty());
        Ok(r)
    }

    /// Registers exact credential bindings for the repositories a task needs,
    /// after dropping every earlier binding (see [`prepare_steps`]). Writing
    /// the credential store afterwards is the caller's part.
    pub fn prepare_repository_credentials(&mut self, repositories: &[SourceRepo]) -> (r: Result<(), CredentialError>)
        ensures
            final(self)@.credentials == old(self)@.credentials,
            final(self)@.glab_configs == old(self)@.glab_configs,
            ({
                let (m, e) = prepare_steps(old(self)@.credentials, repo_views(repositories@), Map::empty());
                &&& final(self)@.bindings == m
                &&& match e {
                    Some(err) => r == Err::<(), CredentialError>(err),
                    None => r is Ok,
                }
            }),
    {
        self.clear_bindings();
        let has_self_hosted = any_self_hosted_gitlab(self.credentials.as_slice());
        let ghost cs = self@.credentials;
        let ghost empty = Map::<(CodeForge, Seq<char>), Seq<char>>::empty();
        let mut i: usize = 0;
        let ghost rv = repo_views(repositories@);
        assert(rv.take(0) =~= Seq::<SourceRepoView>::empty());
        while i < repositories.len()
            invariant
                i <= repositories.len(),
                cs == old(self)@.credentials,
                self@.credentials == cs,
                self@.glab_configs == old(self)@.glab_configs,
                has_self_hosted == has_self_hosted_gitlab(cs),
                empty == Map::<(CodeForge, Seq<char>), Seq<char>>::empty(),
                rv == repo_views(repositories@),
                prepare_steps(cs, rv.take(i as int), empty) == (self@.bindings, None::<CredentialError>),
            decreases repositories.len() - i,
        {
            let repository = &repositories[i];
            proof {
                let t = rv.take(i + 1);
                assert(t.drop_last() =~= rv.take(i as int));
                assert(t.last() == repository@);
            }
            let key = match repository_binding_key(repository) {
                Ok(k) => k,
                Err(e) => {
                    proof {
                        lemma_prepare_error_persists(cs, rv, empty, i + 1);
                    }
                    return Err(e);
                },
            };
            let selected = select_credential_for_repository(self.credentials.as_slice(), repository);
            match selected {
                Err(e) => {
                    proof {
                        lemma_prepare_error_persists(cs, rv, empty, i + 1);
                    }
                    return Err(e);
                },
                Ok(Some(credential)) => {
                    let id = credential.id.clone();
                    let (forge, path) = key;
                    self.bind(forge, path, id);
                },
                Ok(None) => {
                    let is_gitlab = match repository.code_forge {
                        Some(f) => f.same(CodeForge::GitLab),
                        None => false,
                    };
                    if is_gitlab && has_self_hosted {
                        proof {
                            lemma_prepare_error_persists(cs, rv, empty, i + 1);
                        }
                        return Err(CredentialError::SelfHostedGitLabUnbound);
                    }
                },
            }
            i = i + 1;
        }
        assert(rv.take(repositories.len() as int) =~= rv);
        Ok(())
    }

    /// The credential bound to, or selected for, a repository (see
    /// [`binding_credential_spec`]).
    pub fn binding_credential_for_repository(&self, repo: &SourceRepo) -> (r: Result<Option<GitCredential>, CredentialError>)
        ensures
            opt_cred_result(r) == binding_credential_spec(self@, repo@),
    {
        let (forge, path) = match repository_binding_key(repo) {
            Ok(k) => k,
            Err(e) => {
                return Err(e);
            },
        };
        match self.bound_credential_id(forge, path.as_str()) {
            Some(id) => {
                match crate::git_credentials::store::find_credential_id(&self.credentials, id.as_str()) {
                    Some(j) => Ok(Some(self.credentials[j].clone())),
                    None => Err(CredentialError::CredentialUnavailable),
                }
            },
            None => {
                match select_credential_for_repository(self.credentials.as_slice(), repo) {
                    Err(e) => Err(e),
                    Ok(None) => Ok(None),
                    Ok(Some(c)) => Ok(Some(c.clone())),
                }
            },
        }
    }

    /// The URL a repository is cloned from (see
    /// [`clone_url_for_repository_spec`]).
    pub fn clone_url_for_repository(&self, repo: &SourceRepo) -> (r: Result<String, CredentialError>)
        ensures
            crate::git_credentials::credential::string_result(r) == clone_url_for_repository_spec(self@, repo@),
    {
        match self.binding_credential_for_repository(repo) {
            Err(e) => Err(e),
            Ok(Some(c)) => {
                let path = repo.project_path();
                clone_url_for_path(&c, path.as_str())
            },
            Ok(None) => Ok(repo.https_clone_url()),
        }
    }
}

proof fn lemma_prepare_error_persists(cs: Seq<GitCredentialView>, repos: Seq<SourceRepoView>, b: Map<(CodeForge, Seq<char>), Seq<char>>, n: int)
    requires
        0 <= n <= repos.len(),
        prepare_steps(cs, repos.take(n), b).1 is Some,
    ensures
        prepare_steps(cs, repos, b) == prepare_steps(cs, repos.take(n), b),
    decreases repos.len() - n,
{
    if n < repos.len() {
        assert(repos.take(n + 1).drop_last() =~= repos.take(n));
        lemma_prepare_error_persists(cs, repos, b, n + 1);
    } else {
        assert(repos.take(n) =~= repos);
    }
}

} // verus!

verus! {

pub open spec fn entry_key(b: RepositoryBinding) -> (CodeForge, Seq<char>) {
    (b.code_forge, b.project_path@)
}

proof fn lemma_binding_keys(b: Seq<RepositoryBinding>)
    ensures
        forall|k: (CodeForge, Seq<char>)|
            #[trigger] binding_map(b).contains_key(k) <==> exists|j: int| 0 <= j < b.len() && entry_key(b[j]) == k,
    decreases b.len(),
{
    if b.len() > 0 {
        lemma_binding_keys(b.drop_last());
        assert forall|k: (CodeForge, Seq<char>)|
            #[trigger] binding_map(b).contains_key(k) <==> exists|j: int| 0 <= j < b.len() && entry_key(b[j]) == k by {
            if binding_map(b).contains_key(k) {
                if k == entry_key(b.last()) {
                    assert(entry_key(b[b.len() - 1]) == k);
                } else {
                    assert(binding_map(b.drop_last()).contains_key(k));
                    let j = choose|j: int| 0 <= j < b.drop_last().len() && entry_key(b.drop_last()[j]) == k;
                    assert(b.drop_last()[j] == b[j]);
                    assert(entry_key(b[j]) == k);
                }
            }
            if exists|j: int| 0 <= j < b.len() && entry_key(b[j]) == k {
                let j = choose|j: int| 0 <= j < b.len() && entry_key(b[j]) == k;
                if j < b.len() - 1 {
                    assert(b.drop_last()[j] == b[j]);
                    assert(entry_key(b.drop_last()[j]) == k);
                    assert(binding_map(b.drop_last()).contains_key(k));
                }
            }
        }
    }
}

/// The repository paths a credential serves: its own project paths,
/// normalized, and the paths of the repositories bound to its ID. A project
/// path that does not normalize is an error.
pub open spec fn paths_for_credential_spec(st: TaskCredentialStateView, c: GitCredentialView) -> Result<Set<Seq<char>>, CredentialError> {
    if exists|i: int| 0 <= i < c.project_paths.len() && normalized_project_path_spec(#[trigger] c.project_paths[i]) is None {
        Err(CredentialError::InvalidRepositoryPath)
    } else {
        Ok(Set::new(|p: Seq<char>|
            (exists|i: int| 0 <= i < c.project_paths.len() && normalized_project_path_spec(#[trigger] c.project_paths[i]) == Some(p))
            || (exists|f: CodeForge| #[trigger] st.bindings.contains_key((f, p)) && st.bindings[(f, p)] == c.id)))
    }
}

impl TaskCredentialState {
    /// The paths a credential serves, in ascending order (see
    /// [`paths_for_credential_spec`]).
    pub fn paths_for_credential(&self, credential: &GitCredential) -> (r: Result<Vec<String>, CredentialError>)
        ensures
            match paths_for_credential_spec(self@, credential@) {
                Err(e) => r == Err::<Vec<String>, CredentialError>(e),
                Ok(set) => r matches Ok(v) && crate::text::strictly_sorted(v@.map_values(|x: String| x@))
                    && v@.map_values(|x: String| x@).to_set() == set,
            },
    {
        let ghost c = credential@;
        let mut paths: Vec<String> = Vec::new();
        let mut i: usize = 0;
        assert(paths@.map_values(|x: String| x@).to_set() =~= Set::<Seq<char>>::empty());
        while i < credential.project_paths.len()
            invariant
                i <= credential.project_paths.len(),
                c == credential@,
                crate::text::strictly_sorted(paths@.map_values(|x: String| x@)),
                paths@.map_values(|x: String| x@).to_set() == Set::new(|p: Seq<char>|
                    exists|k: int| 0 <= k < i && normalized_project_path_spec(#[trigger] c.project_paths[k]) == Some(p)),
                forall|k: int| 0 <= k < i ==> normalized_project_path_spec(#[trigger] c.project_paths[k]) is Some,
            decreases credential.project_paths.len() - i,
        {
            assert(c.project_paths[i as int] == credential.project_paths@[i as int]@);
            let p = match normalized_project_path(credential.project_paths[i].as_str()) {
                Ok(p) => p,
                Err(e) => {
                    return Err(e);
                },
            };
            let ghost before = paths@.map_values(|x: String| x@).to_set();
            crate::text::insert_sorted(&mut paths, p);
            proof {
                assert(paths@.map_values(|x: String| x@).to_set() =~= Set::new(|q: Seq<char>|
                    exists|k: int| 0 <= k < i + 1 && normalized_project_path_spec(#[trigger] c.project_paths[k]) == Some(q))) by {
                    assert forall|q: Seq<char>| #[trigger] before.insert(p@).contains(q) <==> exists|k: int| 0 <= k < i + 1 && normalized_project_path_spec(#[trigger] c.project_paths[k]) == Some(q) by {
                        if q == p@ {
                            assert(normalized_project_path_spec(c.project_paths[i as int]) == Some(q));
                        }
                    }
                }
            }
            i = i + 1;
        }
        let ghost own = paths@.map_values(|x: String| x@).to_set();
        let ghost bmap = self@.bindings;
        let ghost bs = self.bindings@;
        let mut j: usize = 0;
        while j < self.bindings.len()
            invariant
                j <= self.bindings.len(),
                c == credential@,
                bs == self.bindings@,
                bmap == self@.bindings,
                bmap == binding_map(bs),
                crate::text::strictly_sorted(paths@.map_values(|x: String| x@)),
                paths@.map_values(|x: String| x@).to_set() == own.union(Set::new(|p: Seq<char>|
                    exists|k: int| 0 <= k < j && entry_key(bs[k]).1 == p && bmap.contains_key(entry_key(bs[k]))
                        && bmap[entry_key(bs[k])] == c.id)),
            decreases self.bindings.len() - j,
        {
            let b = &self.bindings[j];
            let bound = self.bound_credential_id(b.code_forge, b.project_path.as_str());
            let ghost before = paths@.map_values(|x: String| x@).to_set();
            let take = match bound {
                Some(id) => crate::text::texts_equal(id.as_str(), credential.id.as_str()),
                None => false,
            };
            if take {
                crate::text::insert_sorted(&mut paths, b.project_path.clone());
            }
            proof {
                let next = Set::new(|p: Seq<char>|
                    exists|k: int| 0 <= k < j + 1 && entry_key(bs[k]).1 == p && bmap.contains_key(entry_key(bs[k]))
                        && bmap[entry_key(bs[k])] == c.id);
                let prev = Set::new(|p: Seq<char>|
                    exists|k: int| 0 <= k < j && entry_key(bs[k]).1 == p && bmap.contains_key(entry_key(bs[k]))
                        && bmap[entry_key(bs[k])] == c.id);
                assert(entry_key(bs[j as int]) == (b.code_forge, b.project_path@));
                if take {
                    assert(next =~= prev.insert(b.project_path@));
                    assert(paths@.map_values(|x: String| x@).to_set() =~= own.union(next));
                } else {
                    assert(next =~= prev);
                }
            }
            j = j + 1;
        }
        proof {
            lemma_binding_keys(bs);
            let bound_paths = Set::new(|p: Seq<char>|
                exists|k: int| 0 <= k < bs.len() && entry_key(bs[k]).1 == p && bmap.contains_key(entry_key(bs[k]))
                    && bmap[entry_key(bs[k])] == c.id);
            assert forall|p: Seq<char>| bound_paths.contains(p) <==> (exists|f: CodeForge| #[trigger] bmap.contains_key((f, p)) && bmap[(f, p)] == c.id) by {
                if bound_paths.contains(p) {
                    let k = choose|k: int| 0 <= k < bs.len() && entry_key(bs[k]).1 == p && bmap.contains_key(entry_key(bs[k]))
                        && bmap[entry_key(bs[k])] == c.id;
                    let f = entry_key(bs[k]).0;
                    assert(entry_key(bs[k]) == (f, p));
                    assert(bmap.contains_key((f, p)));
                }
                if exists|f: CodeForge| #[trigger] bmap.contains_key((f, p)) && bmap[(f, p)] == c.id {
                    let f = choose|f: CodeForge| #[trigger] bmap.contains_key((f, p)) && bmap[(f, p)] == c.id;
                    assert(binding_map(bs).contains_key((f, p)));
                    let k = choose|k: int| 0 <= k < bs.len() && entry_key(bs[k]) == (f, p);
                    assert(entry_key(bs[k]).1 == p);
                }
            }
            assert(paths@.map_values(|x: String| x@).to_set() =~= paths_for_credential_spec(self@, c)->Ok_0);
        }
        Ok(paths)
    }
}

} // verus!

verus! {

/// The store lines of one credential for the paths `ps`, in order; the first
/// line that cannot be built is the error.
pub open spec fn lines_for_paths(c: GitCredentialView, ps: Seq<Seq<char>>) -> Result<Seq<Seq<char>>, CredentialError>
    decreases ps.len(),
{
    if ps.len() == 0 {
        Ok(Seq::empty())
    } else {
        match lines_for_paths(c, ps.drop_last()) {
            Err(e) => Err(e),
            Ok(lines) => match crate::git_credentials::credential::store_line_spec(c, ps.last()) {
                Err(e) => Err(e),
                Ok(line) => Ok(lines.push(line)),
            },
        }
    }
}

/// The lines of Git's credential store: for each credential in order, one
/// line per path it serves, in ascending path order.
pub open spec fn store_lines_spec(st: TaskCredentialStateView, cs: Seq<GitCredentialView>) -> Result<Seq<Seq<char>>, CredentialError>
    decreases cs.len(),
{
    if cs.len() == 0 {
        Ok(Seq::empty())
    } else {
        match store_lines_spec(st, cs.drop_last()) {
            Err(e) => Err(e),
            Ok(lines) => match paths_for_credential_spec(st, cs.last()) {
                Err(e) => Err(e),
                Ok(set) => match lines_for_paths(cs.last(), crate::text::sorted_listing(set)) {
                    Err(e) => Err(e),
                    Ok(more) => Ok(lines + more),
                },
            },
        }
    }
}

/// The text of the credential store file: the lines joined with newlines,
/// with a final newline when there is any line.
pub open spec fn store_file_text(lines: Seq<Seq<char>>) -> Seq<char> {
    if lines.len() == 0 {
        Seq::empty()
    } else {
        crate::git_credentials::text_output::join(lines, "\n"@) + "\n"@
    }
}

proof fn lemma_join_push(parts: Seq<Seq<char>>, x: Seq<char>, sep: Seq<char>)
    ensures
        crate::git_credentials::text_output::join(parts.push(x), sep) == if parts.len() == 0 {
            x
        } else {
            crate::git_credentials::text_output::join(parts, sep) + sep + x
        },
{
    assert(parts.push(x).drop_last() =~= parts);
}

impl TaskCredentialState {
    /// The content of Git's credential store for `credentials` (see
    /// [`store_lines_spec`] and [`store_file_text`]); writing it to disk is
    /// the caller's part.
    pub fn task_credentials_file_content(&self, credentials: &[GitCredential]) -> (r: Result<String, CredentialError>)
        ensures
            match store_lines_spec(self@, cviews(credentials@)) {
                Err(e) => r == Err::<String, CredentialError>(e),
                Ok(lines) => r matches Ok(s) && s@ == store_file_text(lines),
            },
    {
        let ghost cs = cviews(credentials@);
        let mut text = String::new();
        let ghost mut lines: Seq<Seq<char>> = Seq::empty();
        let mut any_line = false;
        let mut i: usize = 0;
        assert(cs.take(0) =~= Seq::<GitCredentialView>::empty());
        while i < credentials.len()
            invariant
                i <= credentials.len(),
                cs == cviews(credentials@),
                store_lines_spec(self@, cs.take(i as int)) == Ok::<Seq<Seq<char>>, CredentialError>(lines),
                any_line == (lines.len() > 0),
                text@ == crate::git_credentials::text_output::join(lines, "\n"@),
            decreases credentials.len() - i,
        {
            let credential = &credentials[i];
            proof {
                assert(cs.take(i + 1).drop_last() =~= cs.take(i as int));
                assert(cs.take(i + 1).last() == credential@);
            }
            let paths = match self.paths_for_credential(credential) {
                Ok(p) => p,
                Err(e) => {
                    proof {
                        lemma_store_lines_error_persists(self@, cs, i + 1);
                    }
                    return Err(e);
                },
            };
            let ghost ps = paths@.map_values(|x: String| x@);
            proof {
                crate::text::lemma_sorted_listing(ps);
            }
            let ghost mut more: Seq<Seq<char>> = Seq::empty();
            let mut k: usize = 0;
            assert(ps.take(0) =~= Seq::<Seq<char>>::empty());
            while k < paths.len()
                invariant
                    k <= paths.len(),
                    ps == paths@.map_values(|x: String| x@),
                    lines_for_paths(credential@, ps.take(k as int)) == Ok::<Seq<Seq<char>>, CredentialError>(more),
                    any_line == (lines.len() + more.len() > 0),
                    i < credentials.len(),
                    cs == cviews(credentials@),
                    credential@ == cs[i as int],
                    cs.take(i + 1).drop_last() == cs.take(i as int),
                    cs.take(i + 1).last() == credential@,
                    store_lines_spec(self@, cs.take(i as int)) == Ok::<Seq<Seq<char>>, CredentialError>(lines),
                    paths_for_credential_spec(self@, credential@) == Ok::<Set<Seq<char>>, CredentialError>(ps.to_set()),
                    crate::text::sorted_listing(ps.to_set()) == ps,
                    text@ == crate::git_credentials::text_output::join(lines + more, "\n"@),
                decreases paths.len() - k,
            {
                proof {
                    assert(ps.take(k + 1).drop_last() =~= ps.take(k as int));
                    assert(ps.take(k + 1).last() == paths@[k as int]@);
                }
                let line = match crate::git_credentials::credential::credential_store_line(credential, paths[k].as_str()) {
                    Ok(l) => l,
                    Err(e) => {
                        proof {
                            lemma_lines_error_persists(credential@, ps, k + 1);
                            lemma_store_lines_error_persists(self@, cs, i + 1);
                        }
                        return Err(e);
                    },
                };
                proof {
                    lemma_join_push(lines + more, line@, "\n"@);
                    assert((lines + more).push(line@) =~= lines + more.push(line@));
                }
                if any_line {
                    push_all_str(&mut text, "\n");
                }
                push_all_str(&mut text, line.as_str());
                any_line = true;
                proof {
                    more = more.push(line@);
                }
                k = k + 1;
            }
            proof {
                assert(ps.take(paths.len() as int) =~= ps);
                lines = lines + more;
            }
            i = i + 1;
        }
        assert(cs.take(credentials.len() as int) =~= cs);
        if any_line {
            push_all_str(&mut text, "\n");
        }
        proof {
            if lines.len() == 0 {
                assert(text@ =~= Seq::<char>::empty());
            }
        }
        Ok(text)
    }
}

fn push_all_str(s: &mut String, t: &str)
    ensures
        final(s)@ == old(s)@ + t@,
{
    crate::text::push_all(s, t);
}

proof fn lemma_store_lines_error_persists(st: TaskCredentialStateView, cs: Seq<GitCredentialView>, n: int)
    requires
        0 <= n <= cs.len(),
        store_lines_spec(st, cs.take(n)) is Err,
    ensures
        store_lines_spec(st, cs) == store_lines_spec(st, cs.take(n)),
    decreases cs.len() - n,
{
    if n < cs.len() {
        assert(cs.take(n + 1).drop_last() =~= cs.take(n));
        lemma_store_lines_error_persists(st, cs, n + 1);
    } else {
        assert(cs.take(n) =~= cs);
    }
}

proof fn lemma_lines_error_persists(c: GitCredentialView, ps: Seq<Seq<char>>, n: int)
    requires
        0 <= n <= ps.len(),
        lines_for_paths(c, ps.take(n)) is Err,
    ensures
        lines_for_paths(c, ps) == lines_for_paths(c, ps.take(n)),
    decreases ps.len() - n,
{
    if n < ps.len() {
        assert(ps.take(n + 1).drop_last() =~= ps.take(n));
        lemma_lines_error_persists(c, ps, n + 1);
    } else {
        assert(ps.take(n) =~= ps);
    }
}

} // verus!

verus! {

/// The index of the registration for directory `dir`, if any.
pub open spec fn index_of_dir(g: Seq<(Seq<char>, Seq<char>)>, dir: Seq<char>) -> Option<int>
    decreases g.len(),
{
    if g.len() == 0 {
        None
    } else {
        match index_of_dir(g.drop_last(), dir) {
            Some(i) => Some(i),
            None => if g.last().1 == dir {
                Some(g.len() - 1)
            } else {
                None
            },
        }
    }
}

/// The credentials the registered `glab` directories are rewritten with, in
/// registration order; a registration whose credential is gone is an error.
pub open spec fn glab_targets_spec(g: Seq<(Seq<char>, Seq<char>)>, cs: Seq<GitCredentialView>) -> Result<Seq<(GitCredentialView, Seq<char>)>, CredentialError>
    decreases g.len(),
{
    if g.len() == 0 {
        Ok(Seq::empty())
    } else {
        match glab_targets_spec(g.drop_last(), cs) {
            Err(e) => Err(e),
            Ok(t) => match crate::git_credentials::store::index_of_id(cs, g.last().0) {
                None => Err(CredentialError::GlabCredentialUnavailable),
                Some(j) => Ok(t.push((cs[j], g.last().1))),
            },
        }
    }
}

impl TaskCredentialState {
    /// Binds one repository needed before environment metadata is available
    /// (such as a repository-qualified task skill) when a credential serves
    /// it. Returns whether a binding was made, after which the caller rewrites
    /// the credential store.
    pub fn prepare_project_path(&mut self, code_forge: CodeForge, owner: &str, repository: &str) -> (r: Result<bool, CredentialError>)
        ensures
            final(self)@.credentials == old(self)@.credentials,
            final(self)@.glab_configs == old(self)@.glab_configs,
            ({
                let repo = SourceRepoView { code_forge: Some(code_forge), owner: owner@, repo: repository@ };
                match select_spec(old(self)@.credentials, repo) {
                    Err(e) => r == Err::<bool, CredentialError>(e) && final(self)@.bindings == old(self)@.bindings,
                    Ok(None) => r == Ok::<bool, CredentialError>(false) && final(self)@.bindings == old(self)@.bindings,
                    Ok(Some(i)) => match binding_key_spec(repo) {
                        Err(e) => r == Err::<bool, CredentialError>(e) && final(self)@.bindings == old(self)@.bindings,
                        Ok(k) => r == Ok::<bool, CredentialError>(true) && final(self)@.bindings
                            == old(self)@.bindings.insert(k, old(self)@.credentials[i].id),
                    },
                }
            }),
    {
        let source = SourceRepo::new(code_forge, crate::text::owned(owner), crate::text::owned(repository));
        let id = match select_credential_for_repository(self.credentials.as_slice(), &source) {
            Err(e) => {
                return Err(e);
            },
            Ok(None) => {
                return Ok(false);
            },
            Ok(Some(c)) => c.id.clone(),
        };
        let (forge, path) = match repository_binding_key(&source) {
            Ok(k) => k,
            Err(e) => {
                return Err(e);
            },
        };
        self.bind(forge, path, id);
        Ok(true)
    }

    /// Registers the repository-local `glab` directory `config_dir` for a
    /// credential, replacing the credential of an earlier registration of
    /// the same directory.
    pub fn register_glab_config(&mut self, credential_id: &str, config_dir: &str)
        ensures
            final(self)@.credentials == old(self)@.credentials,
            final(self)@.bindings == old(self)@.bindings,
            final(self)@.glab_configs == match index_of_dir(old(self)@.glab_configs, config_dir@) {
                Some(j) => old(self)@.glab_configs.update(j, (credential_id@, config_dir@)),
                None => old(self)@.glab_configs.push((credential_id@, config_dir@)),
            },
    {
        let ghost g = glab_view(self.glab_configs@);
        let mut i: usize = 0;
        assert(g.take(0) =~= Seq::<(Seq<char>, Seq<char>)>::empty());
        while i < self.glab_configs.len()
            invariant
                i <= self.glab_configs.len(),
                g == glab_view(self.glab_configs@),
                g == old(self)@.glab_configs,
                self@.credentials == old(self)@.credentials,
                self@.bindings == old(self)@.bindings,
                index_of_dir(g.take(i as int), config_dir@) is None,
            decreases self.glab_configs.len() - i,
        {
            proof {
                assert(g.take(i + 1).drop_last() =~= g.take(i as int));
                assert(g.take(i + 1).last() == g[i as int]);
            }
            if crate::text::texts_equal(self.glab_configs[i].config_dir.as_str(), config_dir) {
                proof {
                    lemma_index_of_dir_prefix(g, i + 1, config_dir@);
                }
                let entry = RegisteredGlabConfig { credential_id: crate::text::owned(credential_id), config_dir: crate::text::owned(config_dir) };
                self.glab_configs.set(i, entry);
                assert(glab_view(self.glab_configs@) =~= g.update(i as int, (credential_id@, config_dir@)));
                return;
            }
            i = i + 1;
        }
        assert(g.take(self.glab_configs.len() as int) =~= g);
        let entry = RegisteredGlabConfig { credential_id: crate::text::owned(credential_id), config_dir: crate::text::owned(config_dir) };
        self.glab_configs.push(entry);
        assert(glab_view(self.glab_configs@) =~= g.push((credential_id@, config_dir@)));
    }

    /// Each registered `glab` directory with the credential it is rewritten
    /// with after a refresh (see [`glab_targets_spec`]).
    pub fn registered_glab_targets(&self, credentials: &Vec<GitCredential>) -> (r: Result<Vec<(GitCredential, String)>, CredentialError>)
        ensures
            match glab_targets_spec(self@.glab_configs, cviews(credentials@)) {
                Err(e) => r == Err::<Vec<(GitCredential, String)>, CredentialError>(e),
                Ok(t) => r matches Ok(v) && v@.map_values(|p: (GitCredential, String)| (p.0@, p.1@)) == t,
            },
    {
        let ghost g = glab_view(self.glab_configs@);
        let mut out: Vec<(GitCredential, String)> = Vec::new();
        let mut i: usize = 0;
        assert(g.take(0) =~= Seq::<(Seq<char>, Seq<char>)>::empty());
        assert(out@.map_values(|p: (GitCredential, String)| (p.0@, p.1@)) =~= Seq::<(GitCredentialView, Seq<char>)>::empty());
        while i < self.glab_configs.len()
            invariant
                i <= self.glab_configs.len(),
                g == glab_view(self.glab_configs@),
                glab_targets_spec(g.take(i as int), cviews(credentials@)) == Ok::<Seq<(GitCredentialView, Seq<char>)>, CredentialError>(
                    out@.map_values(|p: (GitCredential, String)| (p.0@, p.1@)),
                ),
            decreases self.glab_configs.len() - i,
        {
            proof {
                assert(g.take(i + 1).drop_last() =~= g.take(i as int));
                assert(g.take(i + 1).last() == g[i as int]);
            }
            let config = &self.glab_configs[i];
            match crate::git_credentials::store::find_credential_id(credentials, config.credential_id.as_str()) {
                None => {
                    proof {
                        lemma_glab_error_persists(g, cviews(credentials@), i + 1);
                    }
                    return Err(CredentialError::GlabCredentialUnavailable);
                },
                Some(j) => {
                    let c = credentials[j].clone();
                    let ghost before = out@.map_values(|p: (GitCredential, String)| (p.0@, p.1@));
                    out.push((c, config.config_dir.clone()));
                    assert(cviews(credentials@)[j as int] == credentials@[j as int]@);
                    assert(out@.map_values(|p: (GitCredential, String)| (p.0@, p.1@)) =~= before.push(
                        (credentials@[j as int]@, config.config_dir@),
                    ));
                },
            }
            i = i + 1;
        }
        assert(g.take(self.glab_configs.len() as int) =~= g);
        Ok(out)
    }
}

proof fn lemma_index_of_dir_prefix(g: Seq<(Seq<char>, Seq<char>)>, n: int, dir: Seq<char>)
    requires
        0 <= n <= g.len(),
        index_of_dir(g.take(n), dir) is Some,
    ensures
        index_of_dir(g, dir) == index_of_dir(g.take(n), dir),
    decreases g.len() - n,
{
    if n < g.len() {
        assert(g.take(n + 1).drop_last() =~= g.take(n));
        lemma_index_of_dir_prefix(g, n + 1, dir);
    } else {
        assert(g.take(n) =~= g);
    }
}

proof fn lemma_glab_error_persists(g: Seq<(Seq<char>, Seq<char>)>, cs: Seq<GitCredentialView>, n: int)
    requires
        0 <= n <= g.len(),
        glab_targets_spec(g.take(n), cs) is Err,
    ensures
        glab_targets_spec(g, cs) == glab_targets_spec(g.take(n), cs),
    decreases g.len() - n,
{
    if n < g.len() {
        assert(g.take(n + 1).drop_last() =~= g.take(n));
        lemma_glab_error_persists(g, cs, n + 1);
    } else {
        assert(g.take(n) =~= g);
    }
}

} // verus!
