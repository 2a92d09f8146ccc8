//! The x-ray tooltip's label: the described token, cut short when it is
//! long.

use vstd::prelude::*;

use crate::text::{chars_of, push_all};

verus! {

/// How many characters of a token the tooltip's label shows.
pub const MAX_XRAY_LABEL_CHARS: usize = 16;

/// The label for a token: the token itself, or its first
/// [`MAX_XRAY_LABEL_CHARS`] characters and an ellipsis when it is longer.
pub open spec fn token_label_spec(token: Seq<char>) -> Seq<char> {
    if token.len() > MAX_XRAY_LABEL_CHARS {
        token.take(MAX_XRAY_LABEL_CHARS as int) + "..."@
    } else {
        token
    }
}

pub fn truncated_token_label(token: &str) -> (r: String)
    ensures
        r@ == token_label_spec(token@),
{
    let chars = chars_of(token);
    let mut r = String::new();
    let n = if chars.len() > MAX_XRAY_LABEL_CHARS {
        MAX_XRAY_LABEL_CHARS
    } else {
        chars.len()
    };
    let mut i: usize = 0;
    while i < n
        invariant
            i <= n <= chars@.len(),
            chars@ == token@,
            r@ == token@.take(i as int),
        decreases n - i,
    {
        r.push(chars[i]);
        assert(token@.take(i + 1) =~= token@.take(i as int).push(token@[i as int]));
        i = i + 1;
    }
    if chars.len() > MAX_XRAY_LABEL_CHARS {
        push_all(&mut r, "...");
    } else {
        assert(token@.take(i as int) =~= token@);
    }
    r
}

} // verus!
