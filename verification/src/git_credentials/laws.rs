//! Properties of task credential handling that hold across calls.

use vstd::prelude::*;

use crate::git_credentials::credential::{
    authorizes_path_spec, matches_forge_spec, CodeForge, GitCredentialView, SourceRepoView,
};
use crate::git_credentials::store::{
    credential_problem, index_of_id, lemma_index_of_id_bounds, lemma_matching_indices_bounds,
    merge_into, merged_spec, matching_indices, select_spec, unique_by_id_spec, exact_match, host_wide_match,
};
use crate::text::eq_ignore_ascii_case;
use crate::git_credentials::text_output::{diagnostic_entry, diagnostics_spec};
use crate::git_credentials::paths::normalized_project_path_spec;

verus! {

/// No two credentials share an ID.
pub open spec fn ids_distinct(u: Seq<GitCredentialView>) -> bool {
    forall|i: int, j: int| 0 <= i < j < u.len() ==> (#[trigger] u[i]).id != (#[trigger] u[j]).id
}

/// De-duplication keeps one usable credential per ID: the result has
/// distinct IDs, holds only credentials of the input, and holds every input
/// credential (credentials that share an ID are identical).
pub proof fn law_unique_by_id(s: Seq<GitCredentialView>)
    requires
        unique_by_id_spec(s) is Ok,
    ensures
        ({
            let u = unique_by_id_spec(s)->Ok_0;
            &&& ids_distinct(u)
            &&& forall|i: int| 0 <= i < u.len() ==> credential_problem(#[trigger] u[i]) is None
            &&& forall|i: int| 0 <= i < u.len() ==> s.contains(#[trigger] u[i])
            &&& forall|j: int| 0 <= j < s.len() ==> u.contains(#[trigger] s[j])
        }),
    decreases s.len(),
{
    if s.len() > 0 {
        let init = s.drop_last();
        law_unique_by_id(init);
        let u0 = unique_by_id_spec(init)->Ok_0;
        let c = s.last();
        let u = unique_by_id_spec(s)->Ok_0;
        lemma_index_of_id_bounds(u0, c.id);
        assert forall|i: int| 0 <= i < u.len() implies s.contains(#[trigger] u[i]) by {
            if i < u0.len() {
                assert(u[i] == u0[i]);
                assert(init.contains(u0[i]));
                let k = choose|k: int| 0 <= k < init.len() && init[k] == u0[i];
                assert(s[k] == u0[i]);
            } else {
                assert(s[s.len() - 1] == u[i]);
            }
        }
        assert forall|j: int| 0 <= j < s.len() implies u.contains(#[trigger] s[j]) by {
            if j < s.len() - 1 {
                assert(init[j] == s[j]);
                assert(u0.contains(init[j]));
                let k = choose|k: int| 0 <= k < u0.len() && u0[k] == init[j];
                assert(u[k] == s[j]);
            } else {
                match index_of_id(u0, c.id) {
                    Some(k) => {
                        assert(u[k] == c);
                    },
                    None => {
                        assert(u[u.len() - 1] == c);
                    },
                }
            }
        }
        assert forall|i: int, j: int| 0 <= i < j < u.len() implies (#[trigger] u[i]).id != (#[trigger] u[j]).id by {
            if j < u0.len() {
                assert(u[i] == u0[i] && u[j] == u0[j]);
            } else {
                assert(u[i] == u0[i]);
            }
        }
        assert forall|i: int| 0 <= i < u.len() implies credential_problem(#[trigger] u[i]) is None by {
            if i < u0.len() {
                assert(u[i] == u0[i]);
            }
        }
    }
}

/// A set of usable credentials with distinct IDs is already de-duplicated.
pub proof fn law_unique_keeps_distinct(u: Seq<GitCredentialView>)
    requires
        ids_distinct(u),
        forall|i: int| 0 <= i < u.len() ==> credential_problem(#[trigger] u[i]) is None,
    ensures
        unique_by_id_spec(u) == Ok::<Seq<GitCredentialView>, crate::git_credentials::paths::CredentialError>(u),
    decreases u.len(),
{
    if u.len() > 0 {
        let init = u.drop_last();
        assert forall|i: int, j: int| 0 <= i < j < init.len() implies (#[trigger] init[i]).id != (#[trigger] init[j]).id by {
            assert(init[i] == u[i] && init[j] == u[j]);
        }
        assert forall|i: int| 0 <= i < init.len() implies credential_problem(#[trigger] init[i]) is None by {
            assert(init[i] == u[i]);
        }
        law_unique_keeps_distinct(init);
        lemma_index_of_id_bounds(init, u.last().id);
        if index_of_id(init, u.last().id) is Some {
            let k = index_of_id(init, u.last().id)->Some_0;
            assert(u[k].id == u[u.len() - 1].id);
        }
        assert(credential_problem(u.last()) is None);
        assert(index_of_id(init, u.last().id) is None);
        assert(unique_by_id_spec(init) == Ok::<Seq<GitCredentialView>, crate::git_credentials::paths::CredentialError>(init));
        assert(init.push(u.last()) =~= u);
        assert(unique_by_id_spec(u) == Ok::<Seq<GitCredentialView>, crate::git_credentials::paths::CredentialError>(init.push(u.last())));
    } else {
        assert(u =~= Seq::<GitCredentialView>::empty());
    }
}

/// De-duplicating twice gives what de-duplicating once gives.
pub proof fn law_unique_idempotent(s: Seq<GitCredentialView>)
    requires
        unique_by_id_spec(s) is Ok,
    ensures
        unique_by_id_spec(unique_by_id_spec(s)->Ok_0) == unique_by_id_spec(s),
{
    law_unique_by_id(s);
    law_unique_keeps_distinct(unique_by_id_spec(s)->Ok_0);
}

/// After merging distinct-ID credentials `r` into `m`, every credential of
/// `r` is present as it came, and every ID of `m` is still present.
pub proof fn lemma_merge_into(m: Seq<GitCredentialView>, r: Seq<GitCredentialView>)
    requires
        ids_distinct(r),
    ensures
        forall|k: int| 0 <= k < r.len() ==> merge_into(m, r).contains(#[trigger] r[k]),
        forall|k: int| 0 <= k < m.len() ==> exists|j: int| 0 <= j < merge_into(m, r).len() && (#[trigger] merge_into(m, r)[j]).id == (#[trigger] m[k]).id,
    decreases r.len(),
{
    if r.len() == 0 {
        assert forall|k: int| 0 <= k < m.len() implies exists|j: int| 0 <= j < merge_into(m, r).len() && (#[trigger] merge_into(m, r)[j]).id == (#[trigger] m[k]).id by {
            assert(merge_into(m, r)[k] == m[k]);
        }
    } else {
        let init = r.drop_last();
        assert forall|i: int, j: int| 0 <= i < j < init.len() implies (#[trigger] init[i]).id != (#[trigger] init[j]).id by {
            assert(init[i] == r[i] && init[j] == r[j]);
        }
        lemma_merge_into(m, init);
        let m2 = merge_into(m, init);
        let c = r.last();
        let out = merge_into(m, r);
        lemma_index_of_id_bounds(m2, c.id);
        assert forall|k: int| 0 <= k < r.len() implies out.contains(#[trigger] r[k]) by {
            if k < r.len() - 1 {
                assert(init[k] == r[k]);
                assert(m2.contains(init[k]));
                let p = choose|p: int| 0 <= p < m2.len() && m2[p] == init[k];
                match index_of_id(m2, c.id) {
                    Some(j) => {
                        assert(r[k].id != r[r.len() - 1].id);
                        assert(p != j);
                        assert(out[p] == r[k]);
                    },
                    None => {
                        assert(out[p] == r[k]);
                    },
                }
            } else {
                match index_of_id(m2, c.id) {
                    Some(j) => {
                        assert(out[j] == c);
                    },
                    None => {
                        assert(out[out.len() - 1] == c);
                    },
                }
            }
        }
        assert forall|k: int| 0 <= k < m.len() implies exists|j: int| 0 <= j < out.len() && (#[trigger] out[j]).id == (#[trigger] m[k]).id by {
            let p = choose|p: int| 0 <= p < m2.len() && (#[trigger] m2[p]).id == m[k].id;
            match index_of_id(m2, c.id) {
                Some(j) => {
                    assert(out[p].id == m[k].id);
                },
                None => {
                    assert(out[p].id == m[k].id);
                },
            }
        }
    }
}

/// A refresh keeps every stored credential ID and stores every refreshed
/// credential exactly as it came.
pub proof fn law_merge_keeps_ids_and_refresh(existing: Seq<GitCredentialView>, refreshed: Seq<GitCredentialView>)
    requires
        merged_spec(existing, refreshed) is Ok,
    ensures
        ({
            let m = merged_spec(existing, refreshed)->Ok_0;
            &&& forall|k: int| 0 <= k < refreshed.len() ==> m.contains(#[trigger] refreshed[k])
            &&& forall|k: int| 0 <= k < existing.len() ==> exists|j: int| 0 <= j < m.len() && (#[trigger] m[j]).id == (#[trigger] existing[k]).id
        }),
{
    law_unique_by_id(refreshed);
    let u = unique_by_id_spec(refreshed)->Ok_0;
    lemma_merge_into(existing, u);
    let m = merge_into(existing, u);
    assert(merged_spec(existing, refreshed)->Ok_0 == m);
    assert forall|k: int| 0 <= k < refreshed.len() implies m.contains(#[trigger] refreshed[k]) by {
        assert(u.contains(refreshed[k]));
        let p = choose|p: int| 0 <= p < u.len() && u[p] == refreshed[k];
        assert(m.contains(u[p]));
    }
}

/// Diagnostics depend only on each credential's ID and on whether it has a
/// token and a user name: tokens, hosts and identities never reach them.
pub proof fn law_diagnostics_hide_secrets(a: Seq<GitCredentialView>, b: Seq<GitCredentialView>)
    requires
        a.len() == b.len(),
        forall|i: int|
            0 <= i < a.len() ==> (#[trigger] a[i]).id == b[i].id && (a[i].token.len() == 0) == (
            b[i].token.len() == 0) && (a[i].username is Some) == (b[i].username is Some),
    ensures
        diagnostics_spec(a) == diagnostics_spec(b),
{
    assert(a.map_values(|c: GitCredentialView| diagnostic_entry(c)) =~= b.map_values(|c: GitCredentialView| diagnostic_entry(c)));
}

/// A credential chosen for a repository always belongs to the repository's
/// forge: a GitLab credential never serves a GitHub repository, or the
/// reverse.
pub proof fn law_selection_respects_forge(cs: Seq<GitCredentialView>, repo: SourceRepoView)
    requires
        select_spec(cs, repo) matches Ok(Some(_)),
    ensures
        ({
            let i = select_spec(cs, repo)->Ok_0->Some_0;
            0 <= i < cs.len() && matches_forge_spec(cs[i], repo.code_forge)
        }),
{
    let key = normalized_project_path_spec(repo.spec_project_path())->Some_0;
    lemma_matching_indices_bounds(cs, exact_match(repo.code_forge, key));
    lemma_matching_indices_bounds(cs, host_wide_match(repo.code_forge));
}


proof fn lemma_matching_none(cs: Seq<GitCredentialView>, pred: spec_fn(GitCredentialView) -> bool)
    requires
        forall|k: int| 0 <= k < cs.len() ==> !pred(#[trigger] cs[k]),
    ensures
        matching_indices(cs, pred).len() == 0,
    decreases cs.len(),
{
    if cs.len() > 0 {
        assert forall|k: int| 0 <= k < cs.drop_last().len() implies !pred(#[trigger] cs.drop_last()[k]) by {
            assert(cs.drop_last()[k] == cs[k]);
        }
        lemma_matching_none(cs.drop_last(), pred);
        assert(!pred(cs[cs.len() - 1]));
    }
}

proof fn lemma_matching_single(cs: Seq<GitCredentialView>, pred: spec_fn(GitCredentialView) -> bool, j: int)
    requires
        0 <= j < cs.len(),
        pred(cs[j]),
        forall|k: int| 0 <= k < cs.len() && pred(#[trigger] cs[k]) ==> k == j,
    ensures
        matching_indices(cs, pred) == seq![j],
    decreases cs.len(),
{
    let init = cs.drop_last();
    if j == cs.len() - 1 {
        assert forall|k: int| 0 <= k < init.len() implies !pred(#[trigger] init[k]) by {
            assert(init[k] == cs[k]);
        }
        lemma_matching_none(init, pred);
        assert(matching_indices(init, pred).push(j) =~= seq![j]);
    } else {
        assert forall|k: int| 0 <= k < init.len() && pred(#[trigger] init[k]) implies k == j by {
            assert(init[k] == cs[k]);
        }
        assert(init[j] == cs[j]);
        lemma_matching_single(init, pred, j);
        assert(!pred(cs[cs.len() - 1]));
    }
}

/// A credential is host-wide for a forge when it is on that forge, lists no
/// project paths, and names the forge's managed host (in any ASCII case).
pub open spec fn host_wide_for(c: GitCredentialView, forge: CodeForge) -> bool {
    &&& matches_forge_spec(c, Some(forge))
    &&& c.project_paths.len() == 0
    &&& eq_ignore_ascii_case(c.host, forge.spec_host())
}

/// A credential authorizes a repository path exactly when it is on the
/// repository's forge and lists that path.
pub open spec fn exact_for(c: GitCredentialView, forge: CodeForge, key: Seq<char>) -> bool {
    matches_forge_spec(c, Some(forge)) && authorizes_path_spec(c, key)
}

/// Selection for a repository of a forge with a valid project path: the
/// only credential on that forge authorizing the exact path is chosen; when
/// none does, the only host-wide credential for the forge's host is chosen;
/// when neither exists, nothing is.
pub proof fn law_selection_exact_then_host_wide(cs: Seq<GitCredentialView>, forge: CodeForge, owner: Seq<char>, name: Seq<char>, j: int)
    requires
        normalized_project_path_spec(owner + "/"@ + name) is Some,
    ensures
        ({
            let repo = SourceRepoView { code_forge: Some(forge), owner, repo: name };
            let key = normalized_project_path_spec(owner + "/"@ + name)->Some_0;
            &&& (0 <= j < cs.len() && exact_for(cs[j], forge, key) && (forall|k: int|
                0 <= k < cs.len() && exact_for(#[trigger] cs[k], forge, key) ==> k == j))
                ==> select_spec(cs, repo) == Ok::<Option<int>, crate::git_credentials::paths::CredentialError>(Some(j))
            &&& ((forall|k: int| 0 <= k < cs.len() ==> !exact_for(#[trigger] cs[k], forge, key)) && 0 <= j < cs.len() && host_wide_for(cs[j], forge)
                && (forall|k: int| 0 <= k < cs.len() && host_wide_for(#[trigger] cs[k], forge) ==> k == j))
                ==> select_spec(cs, repo) == Ok::<Option<int>, crate::git_credentials::paths::CredentialError>(Some(j))
            &&& ((forall|k: int| 0 <= k < cs.len() ==> !exact_for(#[trigger] cs[k], forge, key)) && (forall|k: int|
                0 <= k < cs.len() ==> !host_wide_for(#[trigger] cs[k], forge)))
                ==> select_spec(cs, repo) == Ok::<Option<int>, crate::git_credentials::paths::CredentialError>(None)
        }),
{
    let repo = SourceRepoView { code_forge: Some(forge), owner, repo: name };
    let key = normalized_project_path_spec(owner + "/"@ + name)->Some_0;
    assert(repo.spec_project_path() == owner + "/"@ + name);
    let ep = exact_match(Some(forge), key);
    let hp = host_wide_match(Some(forge));
    assert(forall|c: GitCredentialView| #[trigger] ep(c) == exact_for(c, forge, key));
    assert(forall|c: GitCredentialView| #[trigger] hp(c) == host_wide_for(c, forge));
    if 0 <= j < cs.len() && ep(cs[j]) && (forall|k: int| 0 <= k < cs.len() && ep(#[trigger] cs[k]) ==> k == j) {
        lemma_matching_single(cs, ep, j);
    }
    if forall|k: int| 0 <= k < cs.len() ==> !ep(#[trigger] cs[k]) {
        lemma_matching_none(cs, ep);
        if 0 <= j < cs.len() && hp(cs[j]) && (forall|k: int| 0 <= k < cs.len() && hp(#[trigger] cs[k]) ==> k == j) {
            lemma_matching_single(cs, hp, j);
        }
        if forall|k: int| 0 <= k < cs.len() ==> !hp(#[trigger] cs[k]) {
            lemma_matching_none(cs, hp);
        }
    }
}

} // verus!
