//! Repository path and URL prefix normalization.

use vstd::prelude::*;

use crate::text::{chars_of, string_of, trim_chars, contains_char, chars_eq_ignore_ascii_case, TrimSet, trim, eq_ignore_ascii_case};

verus! {

/// Why a task credential operation was refused.
#[derive(Debug, Clone, Copy, PartialEq, Eq)]
pub enum CredentialError {
    InvalidRepositoryPath,
    InvalidRelativePrefix,
    RequiresHttps,
    InvalidHost,
    OriginInitialization,
    InvalidPort,
    OriginWithoutHost,
    MissingId,
    ConflictingIds,
    UnsupportedForge,
    AmbiguousExactPath,
    AmbiguousHostWide,
    CredentialUnavailable,
    SelfHostedGitLabUnbound,
    InvalidRepositoryUrl,
    InvalidUsername,
    InvalidToken,
    MultipleGitHubCredentials,
    GlabCredentialUnavailable,
    InvalidProjectApiUrl,
}

impl CredentialError {
    /// The message the error is reported with.
    pub open spec fn spec_message(self) -> Seq<char> {
        match self {
            CredentialError::InvalidRepositoryPath => "Invalid repository credential path"@,
            CredentialError::InvalidRelativePrefix => "Invalid GitLab relative URL prefix"@,
            CredentialError::RequiresHttps => "Task Git credentials require HTTPS"@,
            CredentialError::InvalidHost => "Invalid task Git credential host"@,
            CredentialError::OriginInitialization => "Failed to initialize task Git credential origin"@,
            CredentialError::InvalidPort => "Invalid task Git credential port"@,
            CredentialError::OriginWithoutHost => "Task Git credential origin has no host"@,
            CredentialError::MissingId => "Task Git credential is missing an ID"@,
            CredentialError::ConflictingIds => "Conflicting task Git credentials share an ID"@,
            CredentialError::UnsupportedForge => "Repository has no supported code forge"@,
            CredentialError::AmbiguousExactPath => "Multiple task Git credentials authorize the same repository path"@,
            CredentialError::AmbiguousHostWide => "Multiple host-wide task Git credentials match one repository"@,
            CredentialError::CredentialUnavailable => "Task repository credential is unavailable"@,
            CredentialError::SelfHostedGitLabUnbound => "A self-hosted GitLab repository has no task credential binding"@,
            CredentialError::InvalidRepositoryUrl => "Invalid task Git credential repository URL"@,
            CredentialError::InvalidUsername => "Invalid task Git credential username"@,
            CredentialError::InvalidToken => "Invalid task Git credential token"@,
            CredentialError::MultipleGitHubCredentials => "Multiple GitHub task credentials cannot share the gh host configuration"@,
            CredentialError::GlabCredentialUnavailable => "Repository-local glab credential is unavailable"@,
            CredentialError::InvalidProjectApiUrl => "Invalid GitLab project API URL"@,
        }
    }

    /// The message the error is reported with.
    pub fn message(&self) -> (r: &'static str)
        ensures
            r@ == self.spec_message(),
    {
        match self {
            CredentialError::InvalidRepositoryPath => "Invalid repository credential path",
            CredentialError::InvalidRelativePrefix => "Invalid GitLab relative URL prefix",
            CredentialError::RequiresHttps => "Task Git credentials require HTTPS",
            CredentialError::InvalidHost => "Invalid task Git credential host",
            CredentialError::OriginInitialization => "Failed to initialize task Git credential origin",
            CredentialError::InvalidPort => "Invalid task Git credential port",
            CredentialError::OriginWithoutHost => "Task Git credential origin has no host",
            CredentialError::MissingId => "Task Git credential is missing an ID",
            CredentialError::ConflictingIds => "Conflicting task Git credentials share an ID",
            CredentialError::UnsupportedForge => "Repository has no supported code forge",
            CredentialError::AmbiguousExactPath => "Multiple task Git credentials authorize the same repository path",
            CredentialError::AmbiguousHostWide => "Multiple host-wide task Git credentials match one repository",
            CredentialError::CredentialUnavailable => "Task repository credential is unavailable",
            CredentialError::SelfHostedGitLabUnbound => "A self-hosted GitLab repository has no task credential binding",
            CredentialError::InvalidRepositoryUrl => "Invalid task Git credential repository URL",
            CredentialError::InvalidUsername => "Invalid task Git credential username",
            CredentialError::InvalidToken => "Invalid task Git credential token",
            CredentialError::MultipleGitHubCredentials => "Multiple GitHub task credentials cannot share the gh host configuration",
            CredentialError::GlabCredentialUnavailable => "Repository-local glab credential is unavailable",
            CredentialError::InvalidProjectApiUrl => "Invalid GitLab project API URL",
        }
    }
}

/// The pieces of `s` between occurrences of `sep`, as `str::split` yields
/// them (so an empty `s` has one empty piece, and separators at either end
/// or next to each other give empty pieces).
pub open spec fn split_on(s: Seq<char>, sep: char) -> Seq<Seq<char>>
    decreases s.len(),
{
    if s.len() == 0 {
        seq![Seq::<char>::empty()]
    } else {
        let init = split_on(s.drop_last(), sep);
        if s.last() == sep {
            init.push(Seq::<char>::empty())
        } else {
            init.update(init.len() - 1, init.last().push(s.last()))
        }
    }
}

pub proof fn lemma_split_nonempty(s: Seq<char>, sep: char)
    ensures
        split_on(s, sep).len() >= 1,
    decreases s.len(),
{
    if s.len() > 0 {
        lemma_split_nonempty(s.drop_last(), sep);
    }
}

/// A path component that is empty, `.` or `..`.
pub open spec fn is_unsafe_component(c: Seq<char>) -> bool {
    c.len() == 0 || c == seq!['.'] || c == seq!['.', '.']
}

/// Every `/`-separated component of `s` is safe.
pub open spec fn components_safe(s: Seq<char>) -> bool {
    forall|i: int| 0 <= i < split_on(s, '/').len() ==> !is_unsafe_component(#[trigger] split_on(s, '/')[i])
}

fn component_unsafe(c: &Vec<char>) -> (r: bool)
    ensures
        r == is_unsafe_component(c@),
{
    if c.len() == 0 {
        return true;
    }
    if c.len() == 1 && c[0] == '.' {
        assert(c@ =~= seq!['.']);
        return true;
    }
    if c.len() == 2 && c[0] == '.' && c[1] == '.' {
        assert(c@ =~= seq!['.', '.']);
        return true;
    }
    proof {
        if c@ == seq!['.'] {
            assert(c@.len() == 1 && c@[0] == '.');
        }
        if c@ == seq!['.', '.'] {
            assert(c@.len() == 2 && c@[0] == '.' && c@[1] == '.');
        }
    }
    false
}

/// Whether every `/`-separated component of `v` is non-empty and neither
/// `.` nor `..`.
fn all_components_safe(v: &[char]) -> (r: bool)
    ensures
        r == components_safe(v@),
{
    let mut current: Vec<char> = Vec::new();
    let mut i: usize = 0;
    proof {
        assert(v@.take(0) =~= Seq::<char>::empty());
    }
    while i < v.len()
        invariant
            i <= v.len(),
            split_on(v@.take(i as int), '/').len() >= 1,
            current@ == split_on(v@.take(i as int), '/').last(),
            forall|k: int|
                0 <= k < split_on(v@.take(i as int), '/').len() - 1 ==> !is_unsafe_component(
                    #[trigger] split_on(v@.take(i as int), '/')[k],
                ),
        decreases v.len() - i,
    {
        let ghost before = split_on(v@.take(i as int), '/');
        let c = v[i];
        proof {
            let t = v@.take(i + 1);
            assert(t.drop_last() =~= v@.take(i as int));
            assert(t.last() == c);
        }
        if c == '/' {
            if component_unsafe(&current) {
                proof {
                    let after = split_on(v@.take(i + 1), '/');
                    assert(after == before.push(Seq::<char>::empty()));
                    let whole = split_on(v@, '/');
                    lemma_split_prefix_stable(v@, i + 1, before.len() - 1);
                }
                return false;
            }
            current = Vec::new();
        } else {
            current.push(c);
        }
        i = i + 1;
        proof {
            let after = split_on(v@.take(i as int), '/');
            assert forall|k: int| 0 <= k < after.len() - 1 implies !is_unsafe_component(
                #[trigger] after[k],
            ) by {
                assert(after[k] == before[k]);
            }
        }
    }
    assert(v@.take(v.len() as int) =~= v@);
    let unsafe_last = component_unsafe(&current);
    if unsafe_last {
        return false;
    }
    true
}

/// Components of a prefix that are followed by a separator stay components
/// of the whole sequence.
proof fn lemma_split_prefix_stable(s: Seq<char>, n: int, k: int)
    requires
        0 <= n <= s.len(),
        0 <= k < split_on(s.take(n), '/').len() - 1,
    ensures
        k < split_on(s, '/').len() - 1,
        split_on(s, '/')[k] == split_on(s.take(n), '/')[k],
    decreases s.len() - n,
{
    if n < s.len() {
        let t = s.take(n + 1);
        assert(t.drop_last() =~= s.take(n));
        lemma_split_nonempty(s.take(n), '/');
        lemma_split_prefix_stable(s, n + 1, k);
    } else {
        assert(s.take(n) =~= s);
    }
}

} // verus!

verus! {

/// `.git`, which a repository path may end with in any ASCII case.
pub open spec fn git_suffix() -> Seq<char> {
    seq!['.', 'g', 'i', 't']
}

/// `s` without a trailing `.git` (compared ignoring ASCII case).
pub open spec fn strip_git_suffix(s: Seq<char>) -> Seq<char> {
    if s.len() >= 4 && eq_ignore_ascii_case(s.subrange(s.len() - 4, s.len() as int), git_suffix()) {
        s.take(s.len() - 4)
    } else {
        s
    }
}

/// The normalized form of a repository credential path: trimmed of
/// whitespace and of surrounding `/`, without a `.git` suffix, and refused
/// (`None`) when empty, when it holds a backslash, or when a component is
/// empty, `.` or `..`.
pub open spec fn normalized_project_path_spec(path: Seq<char>) -> Option<Seq<char>> {
    let p = strip_git_suffix(trim(TrimSet::Slash, trim(TrimSet::Whitespace, path)));
    if p.len() == 0 || p.contains('\\') || !components_safe(p) {
        None
    } else {
        Some(p)
    }
}

/// The normalized form of a GitLab relative URL prefix: trimmed of whitespace
/// and of surrounding `/`, and refused (`None`) when it holds a backslash or,
/// being non-empty, has an empty, `.` or `..` component. The empty prefix is
/// valid.
pub open spec fn normalized_relative_prefix_spec(prefix: Seq<char>) -> Option<Seq<char>> {
    let p = trim(TrimSet::Slash, trim(TrimSet::Whitespace, prefix));
    if p.contains('\\') || (p.len() != 0 && !components_safe(p)) {
        None
    } else {
        Some(p)
    }
}

pub open spec fn path_result(r: Result<String, CredentialError>, spec: Option<Seq<char>>, err: CredentialError) -> bool {
    match spec {
        Some(p) => r matches Ok(s) && s@ == p,
        None => r == Err::<String, CredentialError>(err),
    }
}

fn git_suffix_chars() -> (r: Vec<char>)
    ensures
        r@ == git_suffix(),
{
    let mut r = Vec::new();
    r.push('.');
    r.push('g');
    r.push('i');
    r.push('t');
    assert(r@ =~= git_suffix());
    r
}

/// Normalizes a repository credential path (see
/// [`normalized_project_path_spec`]).
pub fn normalized_project_path(path: &str) -> (r: Result<String, CredentialError>)
    ensures
        path_result(r, normalized_project_path_spec(path@), CredentialError::InvalidRepositoryPath),
{
    let chars = chars_of(path);
    let trimmed = trim_chars(TrimSet::Whitespace, chars.as_slice());
    let trimmed = trim_chars(TrimSet::Slash, trimmed.as_slice());
    let n = trimmed.len();
    let mut stripped: Vec<char> = Vec::new();
    let mut has_suffix = false;
    if n >= 4 {
        let mut tail: Vec<char> = Vec::new();
        let mut k: usize = n - 4;
        while k < n
            invariant
                n == trimmed.len(),
                n - 4 <= k <= n,
                n >= 4,
                tail@ == trimmed@.subrange(n - 4, k as int),
            decreases n - k,
        {
            tail.push(trimmed[k]);
            k = k + 1;
            assert(trimmed@.subrange(n - 4, k as int) == trimmed@.subrange(n - 4, k - 1).push(
                trimmed@[k - 1],
            ));
        }
        let suffix = git_suffix_chars();
        has_suffix = chars_eq_ignore_ascii_case(tail.as_slice(), suffix.as_slice());
    }
    let keep = if has_suffix {
        n - 4
    } else {
        n
    };
    let mut i: usize = 0;
    while i < keep
        invariant
            keep <= n == trimmed.len(),
            i <= keep,
            stripped@ == trimmed@.take(i as int),
        decreases keep - i,
    {
        stripped.push(trimmed[i]);
        i = i + 1;
        assert(trimmed@.take(i as int) == trimmed@.take(i - 1).push(trimmed@[i - 1]));
    }
    assert(stripped@ == strip_git_suffix(trimmed@));
    if stripped.len() == 0 || contains_char(stripped.as_slice(), '\\') || !all_components_safe(
        stripped.as_slice(),
    ) {
        return Err(CredentialError::InvalidRepositoryPath);
    }
    Ok(string_of(stripped.as_slice()))
}

/// The key under which a repository path is compared: its normalized form.
pub fn project_key(path: &str) -> (r: Result<String, CredentialError>)
    ensures
        path_result(r, normalized_project_path_spec(path@), CredentialError::InvalidRepositoryPath),
{
    normalized_project_path(path)
}

/// Normalizes a GitLab relative URL prefix (see
/// [`normalized_relative_prefix_spec`]).
pub fn normalized_relative_prefix(prefix: &str) -> (r: Result<String, CredentialError>)
    ensures
        path_result(r, normalized_relative_prefix_spec(prefix@), CredentialError::InvalidRelativePrefix),
{
    let chars = chars_of(prefix);
    let trimmed = trim_chars(TrimSet::Whitespace, chars.as_slice());
    let trimmed = trim_chars(TrimSet::Slash, trimmed.as_slice());
    if contains_char(trimmed.as_slice(), '\\') || (trimmed.len() != 0 && !all_components_safe(
        trimmed.as_slice(),
    )) {
        return Err(CredentialError::InvalidRelativePrefix);
    }
    Ok(string_of(trimmed.as_slice()))
}

} // verus!
