//! The set of credentials a task holds: validation, de-duplication by ID,
//! merging a refresh, and choosing the credential for a repository.

use vstd::prelude::*;

use crate::git_credentials::credential::{
    authorizes_path_spec, credential_authorizes_path, credential_matches_forge, credential_origin,
    credential_origin_spec, credentials_equal, matches_forge_spec, CodeForge, GitCredential,
    GitCredentialView, SourceRepo, SourceRepoView,
};
use crate::git_credentials::paths::{
    normalized_project_path, normalized_project_path_spec, CredentialError,
};
use crate::text::{chars_of, eq_ignore_ascii_case, trim, trim_chars, TrimSet};

verus! {

/// The views of a sequence of credentials.
pub open spec fn cviews(v: Seq<GitCredential>) -> Seq<GitCredentialView> {
    v.map_values(|c: GitCredential| c@)
}

/// Why a single credential is unusable, if it is: a blank ID, no valid
/// origin, or a project path that does not normalize.
pub open spec fn credential_problem(c: GitCredentialView) -> Option<CredentialError> {
    if trim(TrimSet::Whitespace, c.id).len() == 0 {
        Some(CredentialError::MissingId)
    } else if credential_origin_spec(c) is Err {
        Some(credential_origin_spec(c)->Err_0)
    } else if exists|i: int|
        0 <= i < c.project_paths.len() && normalized_project_path_spec(#[trigger] c.project_paths[i])
            is None {
        Some(CredentialError::InvalidRepositoryPath)
    } else {
        None
    }
}

/// The index of the first credential in `u` with ID `id`, if any.
pub open spec fn index_of_id(u: Seq<GitCredentialView>, id: Seq<char>) -> Option<int>
    decreases u.len(),
{
    if u.len() == 0 {
        None
    } else {
        match index_of_id(u.drop_last(), id) {
            Some(i) => Some(i),
            None => if u.last().id == id {
                Some(u.len() - 1)
            } else {
                None
            },
        }
    }
}

/// One credential per ID, in order of first appearance. Every credential
/// must be usable, and credentials that share an ID must agree on every
/// field; the first failure, in input order, is the error.
pub open spec fn unique_by_id_spec(s: Seq<GitCredentialView>) -> Result<Seq<GitCredentialView>, CredentialError>
    decreases s.len(),
{
    if s.len() == 0 {
        Ok(Seq::empty())
    } else {
        match unique_by_id_spec(s.drop_last()) {
            Err(e) => Err(e),
            Ok(u) => {
                let c = s.last();
                match credential_problem(c) {
                    Some(e) => Err(e),
                    None => match index_of_id(u, c.id) {
                        Some(j) => if u[j] == c {
                            Ok(u)
                        } else {
                            Err(CredentialError::ConflictingIds)
                        },
                        None => Ok(u.push(c)),
                    },
                }
            },
        }
    }
}

pub open spec fn creds_result(r: Result<Vec<GitCredential>, CredentialError>) -> Result<Seq<GitCredentialView>, CredentialError> {
    match r {
        Ok(v) => Ok(cviews(v@)),
        Err(e) => Err(e),
    }
}

fn is_blank(s: &str) -> (r: bool)
    ensures
        r == (trim(TrimSet::Whitespace, s@).len() == 0),
{
    let chars = chars_of(s);
    let t = trim_chars(TrimSet::Whitespace, chars.as_slice());
    t.len() == 0
}

fn check_credential(c: &GitCredential) -> (r: Option<CredentialError>)
    ensures
        r == credential_problem(c@),
{
    if is_blank(c.id.as_str()) {
        return Some(CredentialError::MissingId);
    }
    match credential_origin(c) {
        Err(e) => {
            return Some(e);
        },
        Ok(_) => {},
    }
    let mut i: usize = 0;
    while i < c.project_paths.len()
        invariant
            i <= c.project_paths.len(),
            trim(TrimSet::Whitespace, c@.id).len() != 0,
            credential_origin_spec(c@) is Ok,
            forall|k: int| 0 <= k < i ==> normalized_project_path_spec(#[trigger] c@.project_paths[k]) is Some,
        decreases c.project_paths.len() - i,
    {
        assert(c@.project_paths[i as int] == c.project_paths@[i as int]@);
        match normalized_project_path(c.project_paths[i].as_str()) {
            Err(e) => {
                assert(normalized_project_path_spec(c@.project_paths[i as int]) is None);
                return Some(e);
            },
            Ok(_) => {},
        }
        i = i + 1;
    }
    None
}

pub fn find_credential_id(u: &Vec<GitCredential>, id: &str) -> (r: Option<usize>)
    ensures
        match r {
            Some(j) => j < u.len() && index_of_id(cviews(u@), id@) == Some(j as int),
            None => index_of_id(cviews(u@), id@) is None,
        },
{
    let mut i: usize = 0;
    let ghost vs = cviews(u@);
    while i < u.len()
        invariant
            i <= u.len(),
            vs == cviews(u@),
            index_of_id(vs.take(i as int), id@) is None,
        decreases u.len() - i,
    {
        let t = chars_of(u[i].id.as_str());
        let w = chars_of(id);
        let same = crate::text::chars_equal(t.as_slice(), w.as_slice());
        proof {
            assert(vs.take(i + 1).drop_last() =~= vs.take(i as int));
            assert(vs.take(i + 1).last() == u@[i as int]@);
        }
        if same {
            proof {
                lemma_index_of_id_prefix(vs, i + 1, id@);
            }
            return Some(i);
        }
        i = i + 1;
    }
    assert(vs.take(u.len() as int) =~= vs);
    None
}

/// A match found in a prefix is the match of the whole sequence.
proof fn lemma_index_of_id_prefix(u: Seq<GitCredentialView>, n: int, id: Seq<char>)
    requires
        0 <= n <= u.len(),
        index_of_id(u.take(n), id) is Some,
    ensures
        index_of_id(u, id) == index_of_id(u.take(n), id),
    decreases u.len() - n,
{
    if n < u.len() {
        assert(u.take(n + 1).drop_last() =~= u.take(n));
        lemma_index_of_id_prefix(u, n + 1, id);
    } else {
        assert(u.take(n) =~= u);
    }
}

/// Keeps one credential per opaque ID (see [`unique_by_id_spec`]). Different
/// credentials may share a host.
pub fn unique_credentials_by_id(credentials: &[GitCredential]) -> (r: Result<Vec<GitCredential>, CredentialError>)
    ensures
        creds_result(r) == unique_by_id_spec(cviews(credentials@)),
{
    let ghost s = cviews(credentials@);
    let mut unique: Vec<GitCredential> = Vec::new();
    let mut i: usize = 0;
    assert(s.take(0) =~= Seq::<GitCredentialView>::empty());
    assert(cviews(unique@) =~= Seq::<GitCredentialView>::empty());
    while i < credentials.len()
        invariant
            i <= credentials.len(),
            s == cviews(credentials@),
            unique_by_id_spec(s.take(i as int)) == Ok::<Seq<GitCredentialView>, CredentialError>(cviews(unique@)),
        decreases credentials.len() - i,
    {
        let credential = &credentials[i];
        proof {
            assert(s.take(i + 1).drop_last() =~= s.take(i as int));
            assert(s.take(i + 1).last() == credential@);
        }
        match check_credential(credential) {
            Some(e) => {
                proof {
                    lemma_unique_error_persists(s, i + 1);
                }
                return Err(e);
            },
            None => {},
        }
        match find_credential_id(&unique, credential.id.as_str()) {
            Some(j) => {
                let same = credentials_equal(&unique[j], credential);
                assert(cviews(unique@)[j as int] == unique@[j as int]@);
                if !same {
                    proof {
                        lemma_unique_error_persists(s, i + 1);
                    }
                    return Err(CredentialError::ConflictingIds);
                }
            },
            None => {
                let c = credential.clone();
                let ghost before = unique@;
                unique.push(c);
                assert(cviews(unique@) =~= cviews(before).push(credential@));
            },
        }
        i = i + 1;
    }
    assert(s.take(credentials.len() as int) =~= s);
    Ok(unique)
}

/// Once a prefix fails, every longer prefix fails the same way.
proof fn lemma_unique_error_persists(s: Seq<GitCredentialView>, n: int)
    requires
        0 <= n <= s.len(),
        unique_by_id_spec(s.take(n)) is Err,
    ensures
        unique_by_id_spec(s) == unique_by_id_spec(s.take(n)),
    decreases s.len() - n,
{
    if n < s.len() {
        assert(s.take(n + 1).drop_last() =~= s.take(n));
        lemma_unique_error_persists(s, n + 1);
    } else {
        assert(s.take(n) =~= s);
    }
}

} // verus!

verus! {

/// `m` with each credential of `r`, in order, replacing the credential of the
/// same ID or appended after the others.
pub open spec fn merge_into(m: Seq<GitCredentialView>, r: Seq<GitCredentialView>) -> Seq<GitCredentialView>
    decreases r.len(),
{
    if r.len() == 0 {
        m
    } else {
        let m2 = merge_into(m, r.drop_last());
        let c = r.last();
        match index_of_id(m2, c.id) {
            Some(j) => m2.update(j, c),
            None => m2.push(c),
        }
    }
}

/// The stored credentials after a refresh: the refresh is de-duplicated by
/// ID first (see [`unique_by_id_spec`]) and then merged in.
pub open spec fn merged_spec(existing: Seq<GitCredentialView>, refreshed: Seq<GitCredentialView>) -> Result<Seq<GitCredentialView>, CredentialError> {
    match unique_by_id_spec(refreshed) {
        Err(e) => Err(e),
        Ok(u) => Ok(merge_into(existing, u)),
    }
}

pub proof fn lemma_index_of_id_bounds(u: Seq<GitCredentialView>, id: Seq<char>)
    ensures
        index_of_id(u, id) matches Some(j) ==> 0 <= j < u.len() && u[j].id == id,
        index_of_id(u, id) is None ==> forall|k: int| 0 <= k < u.len() ==> u[k].id != id,
    decreases u.len(),
{
    if u.len() > 0 {
        lemma_index_of_id_bounds(u.drop_last(), id);
        if index_of_id(u, id) is None {
            assert forall|k: int| 0 <= k < u.len() implies u[k].id != id by {
                if k < u.len() - 1 {
                    assert(u[k] == u.drop_last()[k]);
                }
            }
        }
    }
}

pub fn clone_credentials(v: &[GitCredential]) -> (r: Vec<GitCredential>)
    ensures
        cviews(r@) == cviews(v@),
{
    let mut r: Vec<GitCredential> = Vec::new();
    let mut i: usize = 0;
    while i < v.len()
        invariant
            i <= v.len(),
            cviews(r@) == cviews(v@.take(i as int)),
        decreases v.len() - i,
    {
        let c = v[i].clone();
        let ghost before = r@;
        r.push(c);
        i = i + 1;
        assert(v@.take(i as int) =~= v@.take(i - 1).push(v@[i - 1]));
        assert(cviews(r@) =~= cviews(before).push(c@));
        assert(cviews(v@.take(i as int)) =~= cviews(v@.take(i - 1)).push(v@[i - 1]@));
    }
    assert(v@.take(v.len() as int) =~= v@);
    r
}

/// The stored credentials `existing` after merging in `refreshed` (see
/// [`merged_spec`]).
pub fn merged_credentials_by_id(existing: &[GitCredential], refreshed: &[GitCredential]) -> (r: Result<Vec<GitCredential>, CredentialError>)
    ensures
        creds_result(r) == merged_spec(cviews(existing@), cviews(refreshed@)),
{
    let refreshed = match unique_credentials_by_id(refreshed) {
        Ok(u) => u,
        Err(e) => {
            return Err(e);
        },
    };
    let ghost u = cviews(refreshed@);
    let mut merged = clone_credentials(existing);
    let mut i: usize = 0;
    assert(u.take(0) =~= Seq::<GitCredentialView>::empty());
    while i < refreshed.len()
        invariant
            i <= refreshed.len(),
            u == cviews(refreshed@),
            cviews(merged@) == merge_into(cviews(existing@), u.take(i as int)),
        decreases refreshed.len() - i,
    {
        let credential = refreshed[i].clone();
        let ghost before = cviews(merged@);
        proof {
            assert(u.take(i + 1).drop_last() =~= u.take(i as int));
            assert(u.take(i + 1).last() == credential@);
        }
        match find_credential_id(&merged, credential.id.as_str()) {
            Some(j) => {
                merged.set(j, credential);
                assert(cviews(merged@) =~= before.update(j as int, credential@));
            },
            None => {
                merged.push(credential);
                assert(cviews(merged@) =~= before.push(credential@));
            },
        }
        i = i + 1;
    }
    assert(u.take(refreshed.len() as int) =~= u);
    Ok(merged)
}

} // verus!

verus! {

/// The indices of the credentials in `cs` that satisfy `pred`, ascending.
pub open spec fn matching_indices(cs: Seq<GitCredentialView>, pred: spec_fn(GitCredentialView) -> bool) -> Seq<int>
    decreases cs.len(),
{
    if cs.len() == 0 {
        Seq::empty()
    } else {
        let init = matching_indices(cs.drop_last(), pred);
        if pred(cs.last()) {
            init.push(cs.len() - 1)
        } else {
            init
        }
    }
}

/// A credential that authorizes exactly this repository path on this forge.
pub open spec fn exact_match(forge: Option<CodeForge>, key: Seq<char>) -> spec_fn(GitCredentialView) -> bool {
    |c: GitCredentialView| matches_forge_spec(c, forge) && authorizes_path_spec(c, key)
}

/// The managed host of a forge, empty when the repository has none.
pub open spec fn forge_host(forge: Option<CodeForge>) -> Seq<char> {
    match forge {
        Some(f) => f.spec_host(),
        None => Seq::empty(),
    }
}

/// A legacy host-wide credential (no project paths) for the forge's managed
/// host.
pub open spec fn host_wide_match(forge: Option<CodeForge>) -> spec_fn(GitCredentialView) -> bool {
    |c: GitCredentialView|
        matches_forge_spec(c, forge) && c.project_paths.len() == 0 && eq_ignore_ascii_case(
            c.host,
            forge_host(forge),
        )
}

/// The credential for a repository, by index into `cs`: the single
/// credential on its forge that authorizes its exact path; failing that, the
/// single host-wide credential for the forge's host; `None` when neither
/// exists. More than one candidate at either step is an error.
pub open spec fn select_spec(cs: Seq<GitCredentialView>, repo: SourceRepoView) -> Result<Option<int>, CredentialError> {
    match normalized_project_path_spec(repo.spec_project_path()) {
        None => Err(CredentialError::InvalidRepositoryPath),
        Some(key) => {
            let exact = matching_indices(cs, exact_match(repo.code_forge, key));
            if exact.len() == 1 {
                Ok(Some(exact[0]))
            } else if exact.len() > 1 {
                Err(CredentialError::AmbiguousExactPath)
            } else {
                let fallback = matching_indices(cs, host_wide_match(repo.code_forge));
                if fallback.len() == 1 {
                    Ok(Some(fallback[0]))
                } else if fallback.len() > 1 {
                    Err(CredentialError::AmbiguousHostWide)
                } else {
                    Ok(None)
                }
            }
        },
    }
}

pub proof fn lemma_matching_indices_bounds(cs: Seq<GitCredentialView>, pred: spec_fn(GitCredentialView) -> bool)
    ensures
        forall|k: int|
            0 <= k < matching_indices(cs, pred).len() ==> 0 <= #[trigger] matching_indices(cs, pred)[k]
                < cs.len() && pred(cs[matching_indices(cs, pred)[k]]),
    decreases cs.len(),
{
    if cs.len() > 0 {
        lemma_matching_indices_bounds(cs.drop_last(), pred);
        let init = matching_indices(cs.drop_last(), pred);
        assert forall|k: int| 0 <= k < init.len() implies cs[init[k]] == cs.drop_last()[init[k]] by {}
    }
}

fn is_exact(c: &GitCredential, forge: Option<CodeForge>, key: &str) -> (r: bool)
    ensures
        r == (exact_match(forge, key@))(c@),
{
    credential_matches_forge(c, forge) && credential_authorizes_path(c, key)
}

fn is_host_wide(c: &GitCredential, forge: Option<CodeForge>) -> (r: bool)
    ensures
        r == (host_wide_match(forge))(c@),
{
    let expected = match forge {
        Some(f) => f.host(),
        None => {
            proof {
                reveal_strlit("");
            }
            ""
        },
    };
    let host = chars_of(c.host.as_str());
    let want = chars_of(expected);
    credential_matches_forge(c, forge) && c.project_paths.len() == 0
        && crate::text::chars_eq_ignore_ascii_case(host.as_slice(), want.as_slice())
}

/// Up to two indices of `cs` whose credentials satisfy the selection step,
/// with the count of all that do, capped at two.
fn find_candidates(cs: &[GitCredential], forge: Option<CodeForge>, key: &str, exact: bool) -> (r: (usize, usize))
    ensures
        ({
            let m = matching_indices(
                cviews(cs@),
                if exact {
                    exact_match(forge, key@)
                } else {
                    host_wide_match(forge)
                },
            );
            &&& r.0 == if m.len() >= 2 {
                2
            } else {
                m.len()
            }
            &&& m.len() >= 1 ==> r.1 == m[0]
        }),
{
    let ghost pred = if exact {
        exact_match(forge, key@)
    } else {
        host_wide_match(forge)
    };
    let ghost s = cviews(cs@);
    let mut count: usize = 0;
    let mut first: usize = 0;
    let mut i: usize = 0;
    assert(s.take(0) =~= Seq::<GitCredentialView>::empty());
    while i < cs.len()
        invariant
            i <= cs.len(),
            s == cviews(cs@),
            pred == (if exact {
                exact_match(forge, key@)
            } else {
                host_wide_match(forge)
            }),
            count == if matching_indices(s.take(i as int), pred).len() >= 2 {
                2
            } else {
                matching_indices(s.take(i as int), pred).len()
            },
            matching_indices(s.take(i as int), pred).len() >= 1 ==> first == matching_indices(
                s.take(i as int),
                pred,
            )[0],
        decreases cs.len() - i,
    {
        let hit = if exact {
            is_exact(&cs[i], forge, key)
        } else {
            is_host_wide(&cs[i], forge)
        };
        proof {
            assert(s.take(i + 1).drop_last() =~= s.take(i as int));
            assert(s.take(i + 1).last() == cs@[i as int]@);
        }
        if hit {
            if count == 0 {
                first = i;
            }
            if count < 2 {
                count = count + 1;
            }
        }
        i = i + 1;
    }
    assert(s.take(cs.len() as int) =~= s);
    (count, first)
}

/// Chooses the credential for a repository (see [`select_spec`]).
pub fn select_credential_for_repository<'a>(credentials: &'a [GitCredential], repo: &SourceRepo) -> (r: Result<Option<&'a GitCredential>, CredentialError>)
    ensures
        match select_spec(cviews(credentials@), repo@) {
            Err(e) => r == Err::<Option<&'a GitCredential>, CredentialError>(e),
            Ok(None) => r == Ok::<Option<&'a GitCredential>, CredentialError>(None),
            Ok(Some(i)) => r matches Ok(Some(c)) && 0 <= i < credentials@.len() && *c == credentials@[i],
        },
{
    let path = repo.project_path();
    let key = match normalized_project_path(path.as_str()) {
        Ok(k) => k,
        Err(e) => {
            return Err(e);
        },
    };
    proof {
        lemma_matching_indices_bounds(cviews(credentials@), exact_match(repo.code_forge, key@));
        lemma_matching_indices_bounds(cviews(credentials@), host_wide_match(repo.code_forge));
    }
    let (count, first) = find_candidates(credentials, repo.code_forge, key.as_str(), true);
    if count == 1 {
        return Ok(Some(&credentials[first]));
    } else if count > 1 {
        return Err(CredentialError::AmbiguousExactPath);
    }
    let (count, first) = find_candidates(credentials, repo.code_forge, key.as_str(), false);
    if count == 1 {
        Ok(Some(&credentials[first]))
    } else if count > 1 {
        Err(CredentialError::AmbiguousHostWide)
    } else {
        Ok(None)
    }
}

} // verus!
