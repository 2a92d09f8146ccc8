//! The name an ambient agent task is shown under.

use vstd::prelude::*;

use crate::text::{chars_of, lemma_trim_idempotent, owned, string_of, trim, trim_chars, trim_end, trim_start, TrimSet};

verus! {

/// A task's display name: the name of the agent configuration it ran with,
/// else its title, each without surrounding whitespace and only when
/// something is left; else `Agent`.
pub open spec fn display_name_spec(snapshot_name: Option<Seq<char>>, title: Seq<char>) -> Seq<char> {
    let named = match snapshot_name {
        Some(n) => trim(TrimSet::Whitespace, n),
        None => Seq::empty(),
    };
    let titled = trim(TrimSet::Whitespace, title);
    if named.len() > 0 {
        named
    } else if titled.len() > 0 {
        titled
    } else {
        "Agent"@
    }
}

pub fn display_name(snapshot_name: Option<&str>, title: &str) -> (r: String)
    ensures
        r@ == display_name_spec(
            match snapshot_name {
                Some(n) => Some(n@),
                None => None,
            },
            title@,
        ),
{
    if let Some(n) = snapshot_name {
        let chars = chars_of(n);
        let t = trim_chars(TrimSet::Whitespace, chars.as_slice());
        if t.len() > 0 {
            return string_of(t.as_slice());
        }
    }
    let chars = chars_of(title);
    let t = trim_chars(TrimSet::Whitespace, chars.as_slice());
    if t.len() > 0 {
        return string_of(t.as_slice());
    }
    owned("Agent")
}


/// A task is never shown under an empty name, nor one with surrounding
/// whitespace.
pub proof fn law_display_name_is_trimmed(snapshot_name: Option<Seq<char>>, title: Seq<char>)
    ensures
        display_name_spec(snapshot_name, title).len() > 0,
        trim(TrimSet::Whitespace, display_name_spec(snapshot_name, title)) == display_name_spec(snapshot_name, title),
{
    lemma_trim_idempotent(TrimSet::Whitespace, title);
    match snapshot_name {
        Some(n) => lemma_trim_idempotent(TrimSet::Whitespace, n),
        None => {},
    }
    reveal_strlit("Agent");
    assert(trim_start(TrimSet::Whitespace, "Agent"@) == "Agent"@);
    assert(trim_end(TrimSet::Whitespace, "Agent"@) == "Agent"@);
}

} // verus!
