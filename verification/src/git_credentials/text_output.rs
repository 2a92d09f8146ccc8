//! Text that task credential setup produces: identities, diagnostics, shell
//! quoting, and the `glab` wrapper script.

use vstd::prelude::*;

use crate::git_credentials::credential::{GitCredential, GitCredentialView};
use crate::text::{chars_of, push_all, string_of};
use crate::url_ops::view_opt;

verus! {

pub open spec fn default_git_name() -> Seq<char> {
    "Warp"@
}

pub open spec fn default_git_email() -> Seq<char> {
    "agent@warp.dev"@
}

/// The Git identity used for a credential: its username and email, each
/// falling back to Warp's defaults; the defaults when there is no credential.
pub open spec fn identity_spec(c: Option<GitCredentialView>) -> (Seq<char>, Seq<char>) {
    match c {
        Some(c) => (
            match c.username {
                Some(u) => u,
                None => default_git_name(),
            },
            match c.email {
                Some(e) => e,
                None => default_git_email(),
            },
        ),
        None => (default_git_name(), default_git_email()),
    }
}

pub open spec fn opt_credential_view(c: Option<&GitCredential>) -> Option<GitCredentialView> {
    match c {
        Some(c) => Some(c@),
        None => None,
    }
}

pub fn identity_of(credential: Option<&GitCredential>) -> (r: (String, String))
    ensures
        (r.0@, r.1@) == identity_spec(opt_credential_view(credential)),
{
    match credential {
        Some(c) => {
            let name = match &c.username {
                Some(u) => u.clone(),
                None => {
                    let mut s = String::new();
                    push_all(&mut s, "Warp");
                    s
                },
            };
            let email = match &c.email {
                Some(e) => e.clone(),
                None => {
                    let mut s = String::new();
                    push_all(&mut s, "agent@warp.dev");
                    s
                },
            };
            (name, email)
        },
        None => {
            let mut name = String::new();
            push_all(&mut name, "Warp");
            let mut email = String::new();
            push_all(&mut email, "agent@warp.dev");
            (name, email)
        },
    }
}

pub open spec fn bool_text(b: bool) -> Seq<char> {
    if b {
        "true"@
    } else {
        "false"@
    }
}

/// The diagnostic entry of one credential:
/// `{id}(refreshed, token_present={bool}, username_present={bool})`.
pub open spec fn diagnostic_entry(c: GitCredentialView) -> Seq<char> {
    c.id + "(refreshed, token_present="@ + bool_text(c.token.len() != 0) + ", username_present="@
        + bool_text(c.username is Some) + ")"@
}

/// `parts` joined with `sep` between consecutive parts.
pub open spec fn join(parts: Seq<Seq<char>>, sep: Seq<char>) -> Seq<char>
    decreases parts.len(),
{
    if parts.len() == 0 {
        Seq::empty()
    } else if parts.len() == 1 {
        parts[0]
    } else {
        join(parts.drop_last(), sep) + sep + parts.last()
    }
}

/// The diagnostics of a credential list: its entries joined with `, `.
pub open spec fn diagnostics_spec(cs: Seq<GitCredentialView>) -> Seq<char> {
    join(cs.map_values(|c: GitCredentialView| diagnostic_entry(c)), ", "@)
}

fn push_bool(s: &mut String, b: bool)
    ensures
        final(s)@ == old(s)@ + bool_text(b),
{
    if b {
        push_all(s, "true");
    } else {
        push_all(s, "false");
    }
}

/// Formats non-sensitive metadata for local credential diagnostics: each
/// credential's ID and whether it has a token and a username.
pub fn credential_diagnostics(credentials: &[GitCredential]) -> (r: String)
    ensures
        r@ == diagnostics_spec(credentials@.map_values(|c: GitCredential| c@)),
{
    let ghost views = credentials@.map_values(|c: GitCredential| c@);
    let ghost entries = views.map_values(|c: GitCredentialView| diagnostic_entry(c));
    let mut r = String::new();
    let mut i: usize = 0;
    while i < credentials.len()
        invariant
            i <= credentials.len(),
            views == credentials@.map_values(|c: GitCredential| c@),
            entries == views.map_values(|c: GitCredentialView| diagnostic_entry(c)),
            r@ == join(entries.take(i as int), ", "@),
        decreases credentials.len() - i,
    {
        let c = &credentials[i];
        let ghost before = r@;
        if i > 0 {
            push_all(&mut r, ", ");
        }
        push_all(&mut r, c.id.as_str());
        push_all(&mut r, "(refreshed, token_present=");
        push_bool(&mut r, !c.token.as_str().is_empty());
        push_all(&mut r, ", username_present=");
        push_bool(&mut r, c.username.is_some());
        push_all(&mut r, ")");
        proof {
            assert(entries[i as int] == diagnostic_entry(credentials@[i as int]@));
            let t = entries.take(i + 1);
            assert(t.drop_last() =~= entries.take(i as int));
            if i > 0 {
                assert(r@ =~= before + ", "@ + entries[i as int]);
            } else {
                assert(r@ =~= entries[0]);
            }
        }
        i = i + 1;
    }
    assert(entries.take(credentials.len() as int) =~= entries);
    r
}

/// `value` with each `'` replaced by `'"'"'`, so it can sit inside a
/// single-quoted shell word.
pub open spec fn shell_quoted(value: Seq<char>) -> Seq<char>
    decreases value.len(),
{
    if value.len() == 0 {
        Seq::empty()
    } else {
        shell_quoted(value.drop_last()) + if value.last() == '\'' {
            seq!['\'', '"', '\'', '"', '\'']
        } else {
            seq![value.last()]
        }
    }
}

pub fn shell_single_quote(value: &str) -> (r: String)
    ensures
        r@ == shell_quoted(value@),
{
    let chars = chars_of(value);
    let mut out: Vec<char> = Vec::new();
    let mut i: usize = 0;
    while i < chars.len()
        invariant
            i <= chars.len(),
            chars@ == value@,
            out@ == shell_quoted(value@.take(i as int)),
        decreases chars.len() - i,
    {
        let c = chars[i];
        let ghost before = out@;
        if c == '\'' {
            out.push('\'');
            out.push('"');
            out.push('\'');
            out.push('"');
            out.push('\'');
        } else {
            out.push(c);
        }
        proof {
            let t = value@.take(i + 1);
            assert(t.drop_last() =~= value@.take(i as int));
            assert(out@ =~= shell_quoted(t));
        }
        i = i + 1;
    }
    assert(value@.take(chars.len() as int) =~= value@);
    string_of(out.as_slice())
}

} // verus!
