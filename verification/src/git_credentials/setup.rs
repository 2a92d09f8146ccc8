//! The configuration text a task's Git setup writes: the GitHub CLI hosts
//! file, the global `git config` entries, the `glab` wrapper script and the
//! token-free remote access check.

use vstd::prelude::*;

use crate::git_credentials::credential::{
    clone_url_for_path, clone_url_for_path_spec, credential_origin, credential_origin_spec,
    is_github_host, is_self_hosted_gitlab_credential, is_self_hosted_gitlab_spec, string_result,
    GitCredential, GitCredentialView, SourceRepo, SourceRepoView,
};
use crate::git_credentials::paths::CredentialError;
use crate::git_credentials::state::{binding_credential_spec, TaskCredentialState};
use crate::git_credentials::store::{
    creds_result, cviews, matching_indices, unique_by_id_spec, unique_credentials_by_id,
    lemma_matching_indices_bounds,
};
use crate::git_credentials::text_output::{shell_quoted, shell_single_quote};
use crate::text::{chars_equal, chars_eq_ignore_ascii_case, chars_of, push_all};

verus! {

/// What the server returned for a task's credentials.
pub struct TaskGitCredentialsResponse {
    pub credentials: Vec<GitCredential>,
}

/// The credentials a task starts with: the response, de-duplicated by ID.
pub fn credentials_for_bootstrap(response: TaskGitCredentialsResponse) -> (r: Result<Vec<GitCredential>, CredentialError>)
    ensures
        creds_result(r) == unique_by_id_spec(cviews(response.credentials@)),
{
    unique_credentials_by_id(response.credentials.as_slice())
}

/// A credential for `github.com`.
pub open spec fn github_match() -> spec_fn(GitCredentialView) -> bool {
    |c: GitCredentialView| is_github_host(c.host)
}

/// The GitHub CLI `hosts.yml` for one credential.
pub open spec fn gh_hosts_text(c: GitCredentialView) -> Seq<char> {
    c.host + ":\n    oauth_token: "@ + c.token + "\n    git_protocol: https\n"@ + match c.username {
        Some(u) => "    user: "@ + u + "\n"@,
        None => Seq::empty(),
    }
}

/// The GitHub CLI configuration for a credential set: none without a GitHub
/// credential, the hosts file of the only one, an error when there are
/// several (the hosts file holds one token per host).
pub open spec fn gh_hosts_spec(cs: Seq<GitCredentialView>) -> Result<Option<Seq<char>>, CredentialError> {
    let m = matching_indices(cs, github_match());
    if m.len() == 0 {
        Ok(None)
    } else if m.len() > 1 {
        Err(CredentialError::MultipleGitHubCredentials)
    } else {
        Ok(Some(gh_hosts_text(cs[m[0]])))
    }
}

fn is_github(c: &GitCredential) -> (r: bool)
    ensures
        r == (github_match())(c@),
{
    let host = chars_of(c.host.as_str());
    let want = chars_of("github.com");
    chars_eq_ignore_ascii_case(host.as_slice(), want.as_slice())
}

/// The GitHub CLI `hosts.yml` content (see [`gh_hosts_spec`]).
pub fn gh_hosts_yaml(credentials: &[GitCredential]) -> (r: Result<Option<String>, CredentialError>)
    ensures
        match gh_hosts_spec(cviews(credentials@)) {
            Err(e) => r == Err::<Option<String>, CredentialError>(e),
            Ok(None) => r == Ok::<Option<String>, CredentialError>(None),
            Ok(Some(t)) => r matches Ok(Some(s)) && s@ == t,
        },
{
    let ghost s = cviews(credentials@);
    proof {
        lemma_matching_indices_bounds(s, github_match());
    }
    let mut count: usize = 0;
    let mut first: usize = 0;
    let mut i: usize = 0;
    assert(s.take(0) =~= Seq::<GitCredentialView>::empty());
    while i < credentials.len()
        invariant
            i <= credentials.len(),
            s == cviews(credentials@),
            count == if matching_indices(s.take(i as int), github_match()).len() >= 2 {
                2
            } else {
                matching_indices(s.take(i as int), github_match()).len()
            },
            matching_indices(s.take(i as int), github_match()).len() >= 1 ==> first
                == matching_indices(s.take(i as int), github_match())[0],
        decreases credentials.len() - i,
    {
        let hit = is_github(&credentials[i]);
        proof {
            assert(s.take(i + 1).drop_last() =~= s.take(i as int));
            assert(s.take(i + 1).last() == credentials@[i as int]@);
        }
        if hit {
            if count == 0 {
                first = i;
            }
            if count < 2 {
                count = count + 1;
            }
        }
        i = i + 1;
    }
    assert(s.take(credentials.len() as int) =~= s);
    if count == 0 {
        return Ok(None);
    }
    if count > 1 {
        return Err(CredentialError::MultipleGitHubCredentials);
    }
    let c = &credentials[first];
    assert(s[first as int] == c@);
    let mut yaml = String::new();
    push_all(&mut yaml, c.host.as_str());
    push_all(&mut yaml, ":\n    oauth_token: ");
    push_all(&mut yaml, c.token.as_str());
    push_all(&mut yaml, "\n    git_protocol: https\n");
    match &c.username {
        Some(u) => {
            push_all(&mut yaml, "    user: ");
            push_all(&mut yaml, u.as_str());
            push_all(&mut yaml, "\n");
        },
        None => {},
    }
    assert(yaml@ =~= gh_hosts_text(c@));
    Ok(Some(yaml))
}

/// One `git config --global` setting; `add` appends another value to a
/// multi-valued key (`--add`) instead of setting it.
pub struct GitConfigEntry {
    pub key: String,
    pub value: String,
    pub add: bool,
}

pub open spec fn entry_view(e: GitConfigEntry) -> (Seq<char>, Seq<char>, bool) {
    (e.key@, e.value@, e.add)
}

/// The URL rewrites of a credential set: for each distinct credential origin,
/// in order of first appearance, SSH and SCP-style remotes of its host are
/// redirected to the HTTPS origin. A credential without an origin is an
/// error.
pub open spec fn rewrites_spec(cs: Seq<GitCredentialView>) -> Result<(Seq<(Seq<char>, Seq<char>, bool)>, Set<Seq<char>>), CredentialError>
    decreases cs.len(),
{
    if cs.len() == 0 {
        Ok((Seq::empty(), Set::empty()))
    } else {
        match rewrites_spec(cs.drop_last()) {
            Err(e) => Err(e),
            Ok((entries, seen)) => {
                let c = cs.last();
                match credential_origin_spec(c) {
                    Err(e) => Err(e),
                    Ok(origin) => if seen.contains(origin) {
                        Ok((entries, seen))
                    } else {
                        let key = "url."@ + origin + ".insteadOf"@;
                        Ok((
                            entries.push((key, "ssh://git@"@ + c.host + "/"@, true)).push(
                                (key, "git@"@ + c.host + ":"@, true),
                            ),
                            seen.insert(origin),
                        ))
                    },
                }
            },
        }
    }
}

/// The global Git configuration of a task: the credential helper reading the
/// store at `store_file`, path-aware credential lookup, then the URL
/// rewrites (see [`rewrites_spec`]).
pub open spec fn git_config_spec(cs: Seq<GitCredentialView>, store_file: Seq<char>) -> Result<Seq<(Seq<char>, Seq<char>, bool)>, CredentialError> {
    match rewrites_spec(cs) {
        Err(e) => Err(e),
        Ok((entries, _)) => Ok(seq![
            ("credential.helper"@, "store --file="@ + store_file, false),
            ("credential.useHttpPath"@, "true"@, false),
        ] + entries),
    }
}

fn entry(key: &str, value: &str, add: bool) -> (r: GitConfigEntry)
    ensures
        entry_view(r) == (key@, value@, add),
{
    GitConfigEntry { key: crate::text::owned(key), value: crate::text::owned(value), add }
}

fn seen_contains(seen: &Vec<String>, s: &str) -> (r: bool)
    ensures
        r == seen@.map_values(|x: String| x@).contains(s@),
{
    let want = chars_of(s);
    let mut i: usize = 0;
    while i < seen.len()
        invariant
            i <= seen.len(),
            want@ == s@,
            forall|k: int| 0 <= k < i ==> seen@[k]@ != s@,
        decreases seen.len() - i,
    {
        let here = chars_of(seen[i].as_str());
        if chars_equal(here.as_slice(), want.as_slice()) {
            assert(seen@.map_values(|x: String| x@)[i as int] == s@);
            return true;
        }
        i = i + 1;
    }
    proof {
        if seen@.map_values(|x: String| x@).contains(s@) {
            let m = seen@.map_values(|x: String| x@);
            let k = choose|k: int| 0 <= k < m.len() && #[trigger] m[k] == s@;
            assert(seen@[k]@ == s@);
        }
    }
    false
}

/// The global Git configuration entries of a task (see [`git_config_spec`]);
/// clearing earlier credential helpers and running `git config` is the
/// caller's part.
pub fn git_config_entries(credentials: &[GitCredential], store_file: &str) -> (r: Result<Vec<GitConfigEntry>, CredentialError>)
    ensures
        match git_config_spec(cviews(credentials@), store_file@) {
            Err(e) => r matches Err(x) && x == e,
            Ok(t) => r matches Ok(v) && v@.map_values(|e: GitConfigEntry| entry_view(e)) == t,
        },
{
    let ghost s = cviews(credentials@);
    let mut out: Vec<GitConfigEntry> = Vec::new();
    let mut helper = String::new();
    push_all(&mut helper, "store --file=");
    push_all(&mut helper, store_file);
    out.push(entry("credential.helper", helper.as_str(), false));
    out.push(entry("credential.useHttpPath", "true", false));
    let ghost head = seq![
        ("credential.helper"@, "store --file="@ + store_file@, false),
        ("credential.useHttpPath"@, "true"@, false),
    ];
    assert(out@.map_values(|e: GitConfigEntry| entry_view(e)) =~= head);
    let mut seen: Vec<String> = Vec::new();
    let ghost mut entries: Seq<(Seq<char>, Seq<char>, bool)> = Seq::empty();
    let mut i: usize = 0;
    assert(s.take(0) =~= Seq::<GitCredentialView>::empty());
    assert(seen@.map_values(|x: String| x@).to_set() =~= Set::<Seq<char>>::empty());
    while i < credentials.len()
        invariant
            i <= credentials.len(),
            s == cviews(credentials@),
            head == seq![
                ("credential.helper"@, "store --file="@ + store_file@, false),
                ("credential.useHttpPath"@, "true"@, false),
            ],
            rewrites_spec(s.take(i as int)) == Ok::<(Seq<(Seq<char>, Seq<char>, bool)>, Set<Seq<char>>), CredentialError>(
                (entries, seen@.map_values(|x: String| x@).to_set()),
            ),
            out@.map_values(|e: GitConfigEntry| entry_view(e)) == head + entries,
        decreases credentials.len() - i,
    {
        let c = &credentials[i];
        proof {
            assert(s.take(i + 1).drop_last() =~= s.take(i as int));
            assert(s.take(i + 1).last() == c@);
        }
        let origin = match credential_origin(c) {
            Ok(o) => o,
            Err(e) => {
                proof {
                    lemma_rewrites_error_persists(s, i + 1);
                }
                return Err(e);
            },
        };
        if !seen_contains(&seen, origin.as_str()) {
            let mut key = String::new();
            push_all(&mut key, "url.");
            push_all(&mut key, origin.as_str());
            push_all(&mut key, ".insteadOf");
            let mut ssh = String::new();
            push_all(&mut ssh, "ssh://git@");
            push_all(&mut ssh, c.host.as_str());
            push_all(&mut ssh, "/");
            let mut scp = String::new();
            push_all(&mut scp, "git@");
            push_all(&mut scp, c.host.as_str());
            push_all(&mut scp, ":");
            let ghost before = out@.map_values(|e: GitConfigEntry| entry_view(e));
            let ghost seen_before = seen@.map_values(|x: String| x@);
            out.push(entry(key.as_str(), ssh.as_str(), true));
            out.push(entry(key.as_str(), scp.as_str(), true));
            seen.push(origin);
            proof {
                let e1 = (key@, ssh@, true);
                let e2 = (key@, scp@, true);
                assert(out@.map_values(|e: GitConfigEntry| entry_view(e)) =~= before.push(e1).push(e2));
                entries = entries.push(e1).push(e2);
                assert(head + entries =~= before.push(e1).push(e2));
                assert(seen@.map_values(|x: String| x@) =~= seen_before.push(seen@[seen@.len() - 1]@));
                seen_before.lemma_push_to_set_commute(seen@[seen@.len() - 1]@);
                assert(seen@.map_values(|x: String| x@).to_set() =~= seen_before.to_set().insert(seen@[seen@.len() - 1]@));
            }
        }
        i = i + 1;
    }
    assert(s.take(credentials.len() as int) =~= s);
    Ok(out)
}

proof fn lemma_rewrites_error_persists(cs: Seq<GitCredentialView>, n: int)
    requires
        0 <= n <= cs.len(),
        rewrites_spec(cs.take(n)) is Err,
    ensures
        rewrites_spec(cs) == rewrites_spec(cs.take(n)),
    decreases cs.len() - n,
{
    if n < cs.len() {
        assert(cs.take(n + 1).drop_last() =~= cs.take(n));
        lemma_rewrites_error_persists(cs, n + 1);
    } else {
        assert(cs.take(n) =~= cs);
    }
}

/// The rewrites of one credential: SSH and SCP-style remotes of its host go
/// to its HTTPS origin, each added to the configuration.
pub open spec fn origin_rewrites(c: GitCredentialView, origin: Seq<char>) -> (
    (Seq<char>, Seq<char>, bool),
    (Seq<char>, Seq<char>, bool),
) {
    (
        ("url."@ + origin + ".insteadOf"@, "ssh://git@"@ + c.host + "/"@, true),
        ("url."@ + origin + ".insteadOf"@, "git@"@ + c.host + ":"@, true),
    )
}

proof fn lemma_rewrites_cover(cs: Seq<GitCredentialView>)
    requires
        rewrites_spec(cs) is Ok,
    ensures
        forall|x: Seq<char>|
            #[trigger] rewrites_spec(cs)->Ok_0.1.contains(x) <==> exists|k: int|
                0 <= k < cs.len() && credential_origin_spec(#[trigger] cs[k]) == Ok::<Seq<char>, CredentialError>(x),
        forall|i: int|
            #![trigger cs[i]]
            0 <= i < cs.len() && (forall|k: int|
                0 <= k < i ==> credential_origin_spec(#[trigger] cs[k]) != credential_origin_spec(cs[i]))
                ==> rewrites_spec(cs)->Ok_0.0.contains(
                origin_rewrites(cs[i], credential_origin_spec(cs[i])->Ok_0).0,
            ) && rewrites_spec(cs)->Ok_0.0.contains(origin_rewrites(cs[i], credential_origin_spec(cs[i])->Ok_0).1),
        forall|k: int| 0 <= k < cs.len() ==> credential_origin_spec(#[trigger] cs[k]) is Ok,
    decreases cs.len(),
{
    if cs.len() > 0 {
        let init = cs.drop_last();
        lemma_rewrites_cover(init);
        let (entries, seen) = rewrites_spec(init)->Ok_0;
        let c = cs.last();
        let origin = credential_origin_spec(c)->Ok_0;
        let (e2, seen2) = rewrites_spec(cs)->Ok_0;
        assert forall|k: int| 0 <= k < init.len() implies init[k] == cs[k] by {}
        assert forall|x: Seq<char>| #[trigger] seen2.contains(x) <==> exists|k: int|
            0 <= k < cs.len() && credential_origin_spec(#[trigger] cs[k]) == Ok::<Seq<char>, CredentialError>(x) by {
            if seen2.contains(x) {
                if seen.contains(x) {
                    let k = choose|k: int|
                        0 <= k < init.len() && credential_origin_spec(#[trigger] init[k]) == Ok::<Seq<char>, CredentialError>(x);
                    assert(cs[k] == init[k]);
                } else {
                    assert(credential_origin_spec(cs[cs.len() - 1]) == Ok::<Seq<char>, CredentialError>(x));
                }
            }
            if exists|k: int| 0 <= k < cs.len() && credential_origin_spec(#[trigger] cs[k]) == Ok::<Seq<char>, CredentialError>(x) {
                let k = choose|k: int| 0 <= k < cs.len() && credential_origin_spec(#[trigger] cs[k]) == Ok::<Seq<char>, CredentialError>(x);
                if k < init.len() {
                    assert(init[k] == cs[k]);
                    assert(seen.contains(x));
                }
            }
        }
        assert forall|i: int|
            #![trigger cs[i]]
            0 <= i < cs.len() && (forall|k: int|
                0 <= k < i ==> credential_origin_spec(#[trigger] cs[k]) != credential_origin_spec(cs[i]))
                implies e2.contains(origin_rewrites(cs[i], credential_origin_spec(cs[i])->Ok_0).0)
                && e2.contains(origin_rewrites(cs[i], credential_origin_spec(cs[i])->Ok_0).1) by {
            let pair = origin_rewrites(cs[i], credential_origin_spec(cs[i])->Ok_0);
            if i < init.len() {
                assert(init[i] == cs[i]);
                assert forall|k: int| 0 <= k < i implies credential_origin_spec(#[trigger] init[k]) != credential_origin_spec(init[i]) by {
                    assert(init[k] == cs[k]);
                }
                assert(entries.contains(origin_rewrites(init[i], credential_origin_spec(init[i])->Ok_0).0));
                assert(entries.contains(pair.1));
                let a = choose|a: int| 0 <= a < entries.len() && entries[a] == pair.0;
                let b = choose|b: int| 0 <= b < entries.len() && entries[b] == pair.1;
                if !seen.contains(origin) {
                    let key = "url."@ + origin + ".insteadOf"@;
                    assert(e2 == entries.push((key, "ssh://git@"@ + c.host + "/"@, true)).push((key, "git@"@ + c.host + ":"@, true)));
                    assert(e2[a] == pair.0);
                    assert(e2[b] == pair.1);
                }
            } else {
                assert(cs[i] == c);
                if seen.contains(origin) {
                    let k = choose|k: int|
                        0 <= k < init.len() && credential_origin_spec(#[trigger] init[k]) == Ok::<Seq<char>, CredentialError>(origin);
                    assert(cs[k] == init[k]);
                    assert(false);
                }
                let key = "url."@ + origin + ".insteadOf"@;
                assert(e2 == entries.push((key, "ssh://git@"@ + c.host + "/"@, true)).push((key, "git@"@ + c.host + ":"@, true)));
                assert(e2[e2.len() - 2] == pair.0);
                assert(e2[e2.len() - 1] == pair.1);
            }
        }
    }
}

/// The global configuration always begins by pointing Git at the task's
/// credential store with path-aware lookup, and for every distinct
/// credential origin it adds both rewrites of the credential's host to that
/// origin: `ssh://git@{host}/` and the SCP-style `git@{host}:`.
pub proof fn law_git_config_rewrites_every_origin(cs: Seq<GitCredentialView>, store_file: Seq<char>)
    requires
        git_config_spec(cs, store_file) is Ok,
    ensures
        ({
            let t = git_config_spec(cs, store_file)->Ok_0;
            &&& t.len() >= 2
            &&& t[0] == ("credential.helper"@, "store --file="@ + store_file, false)
            &&& t[1] == ("credential.useHttpPath"@, "true"@, false)
            &&& forall|i: int|
                #![trigger cs[i]]
                0 <= i < cs.len() && (forall|k: int|
                    0 <= k < i ==> credential_origin_spec(#[trigger] cs[k]) != credential_origin_spec(cs[i])) ==> {
                    let o = credential_origin_spec(cs[i])->Ok_0;
                    &&& t.contains(("url."@ + o + ".insteadOf"@, "ssh://git@"@ + cs[i].host + "/"@, true))
                    &&& t.contains(("url."@ + o + ".insteadOf"@, "git@"@ + cs[i].host + ":"@, true))
                }
        }),
{
    lemma_rewrites_cover(cs);
    let t = git_config_spec(cs, store_file)->Ok_0;
    let head = seq![
        ("credential.helper"@, "store --file="@ + store_file, false),
        ("credential.useHttpPath"@, "true"@, false),
    ];
    let entries = rewrites_spec(cs)->Ok_0.0;
    assert(t == head + entries);
    assert forall|i: int|
        #![trigger cs[i]]
        0 <= i < cs.len() && (forall|k: int|
            0 <= k < i ==> credential_origin_spec(#[trigger] cs[k]) != credential_origin_spec(cs[i])) implies {
            let o = credential_origin_spec(cs[i])->Ok_0;
            &&& t.contains(("url."@ + o + ".insteadOf"@, "ssh://git@"@ + cs[i].host + "/"@, true))
            &&& t.contains(("url."@ + o + ".insteadOf"@, "git@"@ + cs[i].host + ":"@, true))
        } by {
        let pair = origin_rewrites(cs[i], credential_origin_spec(cs[i])->Ok_0);
        assert(entries.contains(pair.0) && entries.contains(pair.1));
        let a = choose|a: int| 0 <= a < entries.len() && entries[a] == pair.0;
        let b = choose|b: int| 0 <= b < entries.len() && entries[b] == pair.1;
        assert(t[a + 2] == pair.0);
        assert(t[b + 2] == pair.1);
    }
}

/// The repository-local config key the `glab` wrapper reads.
pub const GLAB_REPOSITORY_CONFIG_KEY: &'static str = "warp.glabConfigDir";

/// The repository-local config key the `glab` wrapper reads, as text.
pub open spec fn glab_config_key() -> Seq<char> {
    "warp.glabConfigDir"@
}

/// The `glab` wrapper script: it drops ambient GitLab variables and runs the
/// real `glab` with the configuration directory registered for the current
/// checkout, if any.
pub open spec fn glab_wrapper_text(real_glab: Seq<char>) -> Seq<char> {
    let q = shell_quoted(real_glab);
    "#!/bin/sh\nunset GITLAB_HOST GITLAB_TOKEN\nrepo_root=\"$(git rev-parse --show-toplevel 2>/dev/null)\" || exec '"@
        + q + "' \"$@\"\nconfig_dir=\"$(git -C \"$repo_root\" config --local --path --get "@
        + glab_config_key() + " 2>/dev/null)\"\nif [ -n \"$config_dir\" ]; then\nGLAB_CONFIG_DIR=\"$config_dir\" exec '"@
        + q + "' \"$@\"\nfi\nexec '"@ + q + "' \"$@\"\n"@
}

/// The `glab` wrapper script for the real executable at `real_glab`.
pub fn glab_wrapper_script(real_glab: &str) -> (r: String)
    ensures
        r@ == glab_wrapper_text(real_glab@),
{
    let q = shell_single_quote(real_glab);
    let mut s = String::new();
    push_all(&mut s, "#!/bin/sh\nunset GITLAB_HOST GITLAB_TOKEN\nrepo_root=\"$(git rev-parse --show-toplevel 2>/dev/null)\" || exec '");
    push_all(&mut s, q.as_str());
    push_all(&mut s, "' \"$@\"\nconfig_dir=\"$(git -C \"$repo_root\" config --local --path --get ");
    push_all(&mut s, "warp.glabConfigDir");
    push_all(&mut s, " 2>/dev/null)\"\nif [ -n \"$config_dir\" ]; then\nGLAB_CONFIG_DIR=\"$config_dir\" exec '");
    push_all(&mut s, q.as_str());
    push_all(&mut s, "' \"$@\"\nfi\nexec '");
    push_all(&mut s, q.as_str());
    push_all(&mut s, "' \"$@\"\n");
    assert(s@ =~= glab_wrapper_text(real_glab@));
    s
}

} // verus!

verus! {

/// What `std::path::Path::join` makes of the path `base` and the part `part`,
/// read back with `to_string_lossy`.
pub uninterp spec fn path_join(base: Seq<char>, part: Seq<char>) -> Seq<char>;

/// Calls `std::path::Path::join`. The contract claims only that the result is
/// the named outcome of that call.
#[verifier::external_body]
fn joined_path(base: &str, part: &str) -> (r: String)
    ensures
        r@ == path_join(base@, part@),
{
    std::path::Path::new(base).join(part).to_string_lossy().into_owned()
}

/// What a repository-local `glab` configuration holds for a credential.
pub struct GlabConfigData {
    /// The instance URL `glab` talks to: the credential's origin without
    /// trailing slashes.
    pub host: String,
    /// The host entry's key and API host: the credential's authority.
    pub authority: String,
    /// The API protocol: the credential's scheme.
    pub api_protocol: String,
    /// The relative URL prefix, when there is one.
    pub subfolder: Option<String>,
    pub token: String,
    pub user: Option<String>,
}

pub struct GlabConfigView {
    pub host: Seq<char>,
    pub authority: Seq<char>,
    pub api_protocol: Seq<char>,
    pub subfolder: Option<Seq<char>>,
    pub token: Seq<char>,
    pub user: Option<Seq<char>>,
}

impl View for GlabConfigData {
    type V = GlabConfigView;

    open spec fn view(&self) -> GlabConfigView {
        GlabConfigView {
            host: self.host@,
            authority: self.authority@,
            api_protocol: self.api_protocol@,
            subfolder: crate::url_ops::view_opt(self.subfolder),
            token: self.token@,
            user: crate::url_ops::view_opt(self.user),
        }
    }
}

/// The `glab` configuration of a credential: its authority, then its
/// relative prefix and its origin must be valid (the first failure is the
/// error).
pub open spec fn glab_config_spec(c: GitCredentialView) -> Result<GlabConfigView, CredentialError> {
    match crate::git_credentials::credential::credential_authority_spec(c) {
        Err(e) => Err(e),
        Ok(authority) => match crate::git_credentials::paths::normalized_relative_prefix_spec(c.relative_url_prefix) {
            None => Err(CredentialError::InvalidRelativePrefix),
            Some(prefix) => match credential_origin_spec(c) {
                Err(e) => Err(e),
                Ok(origin) => Ok(
                    GlabConfigView {
                        host: crate::text::trim_end(crate::text::TrimSet::Slash, origin),
                        authority,
                        api_protocol: c.scheme,
                        subfolder: if prefix.len() == 0 {
                            None
                        } else {
                            Some(prefix)
                        },
                        token: c.token,
                        user: c.username,
                    },
                ),
            },
        },
    }
}

/// The `glab` configuration of a credential (see [`glab_config_spec`]),
/// for the caller to write as YAML.
pub fn glab_config_data(credential: &GitCredential) -> (r: Result<GlabConfigData, CredentialError>)
    ensures
        match glab_config_spec(credential@) {
            Err(e) => r matches Err(x) && x == e,
            Ok(g) => r matches Ok(d) && d@ == g,
        },
{
    let authority = match crate::git_credentials::credential::credential_authority(credential) {
        Ok(a) => a,
        Err(e) => {
            return Err(e);
        },
    };
    let prefix = match crate::git_credentials::paths::normalized_relative_prefix(credential.relative_url_prefix.as_str()) {
        Ok(p) => p,
        Err(e) => {
            return Err(e);
        },
    };
    let origin = match credential_origin(credential) {
        Ok(o) => o,
        Err(e) => {
            return Err(e);
        },
    };
    let origin_chars = chars_of(origin.as_str());
    let host_chars = crate::text::trim_end_chars(crate::text::TrimSet::Slash, origin_chars.as_slice());
    let host = crate::text::string_of(host_chars.as_slice());
    let subfolder = if prefix.as_str().is_empty() {
        None
    } else {
        Some(prefix)
    };
    let user = match &credential.username {
        Some(u) => Some(crate::text::owned(u.as_str())),
        None => None,
    };
    Ok(
        GlabConfigData {
            host,
            authority,
            api_protocol: crate::text::owned(credential.scheme.as_str()),
            subfolder,
            token: crate::text::owned(credential.token.as_str()),
            user,
        },
    )
}

/// The directory of a task's credential files below the home directory.
pub open spec fn task_credentials_root_spec(home: Seq<char>) -> Seq<char> {
    path_join(home, ".warp/task-git"@)
}

pub fn task_credentials_root(home: &str) -> (r: String)
    ensures
        r@ == task_credentials_root_spec(home@),
{
    joined_path(home, ".warp/task-git")
}

/// The Git credential store of a task.
pub fn task_credentials_file(home: &str) -> (r: String)
    ensures
        r@ == path_join(task_credentials_root_spec(home@), "credentials"@),
{
    let root = task_credentials_root(home);
    joined_path(root.as_str(), "credentials")
}

/// The directory of a task's command wrappers (such as `glab`).
pub fn task_bin_dir_for_home(home: &str) -> (r: String)
    ensures
        r@ == path_join(task_credentials_root_spec(home@), "bin"@),
{
    let root = task_credentials_root(home);
    joined_path(root.as_str(), "bin")
}

/// The wrapper directory below the current home directory, when there is
/// one.
pub fn task_bin_dir() -> (r: Option<String>)
    ensures
        r matches Some(d) ==> exists|home: Seq<char>| d@ == path_join(task_credentials_root_spec(home), "bin"@),
{
    match crate::home::home_dir_text() {
        Some(home) => {
            let d = task_bin_dir_for_home(home.as_str());
            assert(d@ == path_join(task_credentials_root_spec(home@), "bin"@));
            Some(d)
        },
        None => None,
    }
}

/// The identity set globally for a task: that of its first credential, or
/// the defaults.
pub fn global_git_identity(credentials: &[GitCredential]) -> (r: (String, String))
    ensures
        credentials@.len() == 0 ==> (r.0@, r.1@) == crate::git_credentials::text_output::identity_spec(None),
        credentials@.len() > 0 ==> (r.0@, r.1@) == crate::git_credentials::text_output::identity_spec(Some(credentials@[0]@)),
{
    if credentials.len() == 0 {
        crate::git_credentials::text_output::identity_of(None)
    } else {
        crate::git_credentials::text_output::identity_of(Some(&credentials[0]))
    }
}

/// One line of the remote access check: `git -C '{dir}' ls-remote
/// --exit-code '{url}' HEAD`, failing the whole check when it fails.
pub open spec fn access_check_line(dir: Seq<char>, url: Seq<char>) -> Seq<char> {
    "git -C '"@ + shell_quoted(dir) + "' ls-remote --exit-code '"@ + shell_quoted(url)
        + "' HEAD >/dev/null 2>&1 || exit 1\n"@
}

/// The check script for `(repository, clone URL)` pairs under `working_dir`.
pub open spec fn access_check_script(repos: Seq<(SourceRepoView, Seq<char>)>, working_dir: Seq<char>) -> Seq<char>
    decreases repos.len(),
{
    if repos.len() == 0 {
        Seq::empty()
    } else {
        access_check_script(repos.drop_last(), working_dir) + access_check_line(
            path_join(working_dir, repos.last().0.repo),
            repos.last().1,
        )
    }
}

/// The shell command that runs the check, or `None` when there is nothing
/// to check.
pub open spec fn access_check_command_spec(repos: Seq<(SourceRepoView, Seq<char>)>, working_dir: Seq<char>) -> Option<Seq<char>> {
    let script = access_check_script(repos, working_dir);
    if script.len() == 0 {
        None
    } else {
        Some("sh -c '"@ + shell_quoted(script) + "'"@)
    }
}

pub open spec fn repo_url_views(v: Seq<(SourceRepo, String)>) -> Seq<(SourceRepoView, Seq<char>)> {
    v.map_values(|p: (SourceRepo, String)| (p.0@, p.1@))
}

/// A token-free `git ls-remote` check of each repository's clone URL.
pub fn git_access_check_command(repositories: &Vec<(SourceRepo, String)>, working_dir: &str) -> (r: Option<String>)
    ensures
        crate::url_ops::view_opt(r) == access_check_command_spec(repo_url_views(repositories@), working_dir@),
{
    let ghost rs = repo_url_views(repositories@);
    let mut script = String::new();
    let mut i: usize = 0;
    assert(rs.take(0) =~= Seq::<(SourceRepoView, Seq<char>)>::empty());
    while i < repositories.len()
        invariant
            i <= repositories.len(),
            rs == repo_url_views(repositories@),
            script@ == access_check_script(rs.take(i as int), working_dir@),
        decreases repositories.len() - i,
    {
        let (repository, clone_url) = &repositories[i];
        proof {
            assert(rs.take(i + 1).drop_last() =~= rs.take(i as int));
            assert(rs.take(i + 1).last() == (repository@, clone_url@));
        }
        let dir = joined_path(working_dir, repository.repo.as_str());
        let dir_q = shell_single_quote(dir.as_str());
        let url_q = shell_single_quote(clone_url.as_str());
        push_all(&mut script, "git -C '");
        push_all(&mut script, dir_q.as_str());
        push_all(&mut script, "' ls-remote --exit-code '");
        push_all(&mut script, url_q.as_str());
        push_all(&mut script, "' HEAD >/dev/null 2>&1 || exit 1\n");
        proof {
            assert(script@ =~= access_check_script(rs.take(i + 1), working_dir@));
        }
        i = i + 1;
    }
    assert(rs.take(repositories.len() as int) =~= rs);
    if script.as_str().is_empty() {
        return None;
    }
    let q = shell_single_quote(script.as_str());
    let mut cmd = String::new();
    push_all(&mut cmd, "sh -c '");
    push_all(&mut cmd, q.as_str());
    push_all(&mut cmd, "'");
    Some(cmd)
}

/// The repositories among `repos` served by a self-hosted GitLab credential,
/// each with its credential-owned clone URL, in order.
pub open spec fn self_hosted_checks_spec(st: crate::git_credentials::state::TaskCredentialStateView, repos: Seq<SourceRepoView>) -> Result<Seq<(SourceRepoView, Seq<char>)>, CredentialError>
    decreases repos.len(),
{
    if repos.len() == 0 {
        Ok(Seq::empty())
    } else {
        match self_hosted_checks_spec(st, repos.drop_last()) {
            Err(e) => Err(e),
            Ok(done) => {
                let repo = repos.last();
                match binding_credential_spec(st, repo) {
                    Err(e) => Err(e),
                    Ok(None) => Ok(done),
                    Ok(Some(c)) => if is_self_hosted_gitlab_spec(c) {
                        match clone_url_for_path_spec(c, repo.spec_project_path()) {
                            Err(e) => Err(e),
                            Ok(url) => Ok(done.push((repo, url))),
                        }
                    } else {
                        Ok(done)
                    },
                }
            },
        }
    }
}

fn clone_repo(r: &SourceRepo) -> (c: SourceRepo)
    ensures
        c@ == r@,
{
    SourceRepo { code_forge: r.code_forge, owner: r.owner.clone(), repo: r.repo.clone() }
}

/// The token-free remote check for every self-hosted GitLab checkout of a
/// task (see [`self_hosted_checks_spec`] and [`access_check_command_spec`]).
pub fn gitlab_git_access_check_command(state: &TaskCredentialState, repositories: &[SourceRepo], working_dir: &str) -> (r: Result<Option<String>, CredentialError>)
    ensures
        match self_hosted_checks_spec(state@, crate::git_credentials::state::repo_views(repositories@)) {
            Err(e) => r == Err::<Option<String>, CredentialError>(e),
            Ok(checks) => r matches Ok(cmd) && crate::url_ops::view_opt(cmd) == access_check_command_spec(checks, working_dir@),
        },
{
    let ghost rv = crate::git_credentials::state::repo_views(repositories@);
    let mut checks: Vec<(SourceRepo, String)> = Vec::new();
    let mut i: usize = 0;
    assert(rv.take(0) =~= Seq::<SourceRepoView>::empty());
    assert(repo_url_views(checks@) =~= Seq::<(SourceRepoView, Seq<char>)>::empty());
    while i < repositories.len()
        invariant
            i <= repositories.len(),
            rv == crate::git_credentials::state::repo_views(repositories@),
            self_hosted_checks_spec(state@, rv.take(i as int)) == Ok::<Seq<(SourceRepoView, Seq<char>)>, CredentialError>(
                repo_url_views(checks@),
            ),
        decreases repositories.len() - i,
    {
        let repository = &repositories[i];
        proof {
            assert(rv.take(i + 1).drop_last() =~= rv.take(i as int));
            assert(rv.take(i + 1).last() == repository@);
        }
        let credential = match state.binding_credential_for_repository(repository) {
            Err(e) => {
                proof {
                    lemma_checks_error_persists(state@, rv, i + 1);
                }
                return Err(e);
            },
            Ok(c) => c,
        };
        match credential {
            None => {},
            Some(c) => {
                if is_self_hosted_gitlab_credential(&c) {
                    let path = repository.project_path();
                    let url = match clone_url_for_path(&c, path.as_str()) {
                        Ok(u) => u,
                        Err(e) => {
                            proof {
                                lemma_checks_error_persists(state@, rv, i + 1);
                            }
                            return Err(e);
                        },
                    };
                    let ghost before = repo_url_views(checks@);
                    checks.push((clone_repo(repository), url));
                    assert(repo_url_views(checks@) =~= before.push((repository@, url@)));
                }
            },
        }
        i = i + 1;
    }
    assert(rv.take(repositories.len() as int) =~= rv);
    Ok(git_access_check_command(&checks, working_dir))
}

proof fn lemma_checks_error_persists(st: crate::git_credentials::state::TaskCredentialStateView, repos: Seq<SourceRepoView>, n: int)
    requires
        0 <= n <= repos.len(),
        self_hosted_checks_spec(st, repos.take(n)) is Err,
    ensures
        self_hosted_checks_spec(st, repos) == self_hosted_checks_spec(st, repos.take(n)),
    decreases repos.len() - n,
{
    if n < repos.len() {
        assert(repos.take(n + 1).drop_last() =~= repos.take(n));
        lemma_checks_error_persists(st, repos, n + 1);
    } else {
        assert(repos.take(n) =~= repos);
    }
}

} // verus!

verus! {

/// Applies a refresh to the stored credentials: an empty response changes
/// nothing (`None`); otherwise the refresh is merged in (see
/// [`crate::git_credentials::store::merged_spec`]) and the merged set, which
/// the caller writes back to the credential files, is returned.
pub fn apply_refreshed_credentials(state: &mut TaskCredentialState, response: &TaskGitCredentialsResponse) -> (r: Result<Option<Vec<GitCredential>>, CredentialError>)
    ensures
        response.credentials@.len() == 0 ==> r == Ok::<Option<Vec<GitCredential>>, CredentialError>(None) && final(state)@ == old(state)@,
        response.credentials@.len() > 0 ==> match crate::git_credentials::store::merged_spec(old(state)@.credentials, cviews(response.credentials@)) {
            Err(e) => r == Err::<Option<Vec<GitCredential>>, CredentialError>(e) && final(state)@.credentials == old(state)@.credentials,
            Ok(m) => r matches Ok(Some(v)) && cviews(v@) == m && final(state)@.credentials == m,
        },
        final(state)@.bindings == old(state)@.bindings,
        final(state)@.glab_configs == old(state)@.glab_configs,
{
    if response.credentials.len() == 0 {
        return Ok(None);
    }
    match state.merge_task_credentials(response.credentials.as_slice()) {
        Ok(m) => Ok(Some(m)),
        Err(e) => Err(e),
    }
}

} // verus!
