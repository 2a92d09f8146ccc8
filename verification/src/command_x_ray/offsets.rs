//! Conversions between character indices and UTF-8 byte offsets in a command
//! text, and the snapping of a hovered character to the start of its token.
//!
//! A code editor reports positions in characters while token spans are in
//! bytes; every conversion here is stated over the text's character sequence
//! and the UTF-8 width of each character.

use vstd::prelude::*;
use vstd::utf8::{char_is_scalar, encode_scalar, encode_utf8};

use crate::text::{chars_of, is_white_space, is_whitespace};

verus! {

/// The number of bytes of the UTF-8 encoding of `c`.
pub open spec fn char_width(c: char) -> nat {
    let u = c as u32;
    if u < 0x80 {
        1
    } else if u < 0x800 {
        2
    } else if u < 0x10000 {
        3
    } else {
        4
    }
}

/// The number of bytes of the UTF-8 encoding of `s`.
pub open spec fn utf8_len(s: Seq<char>) -> nat
    decreases s.len(),
{
    if s.len() == 0 {
        0
    } else {
        char_width(s[0]) + utf8_len(s.drop_first())
    }
}

/// The byte offset at which character `k` of `s` starts (the end of the
/// text for `k == s.len()`).
pub open spec fn byte_offset(s: Seq<char>, k: int) -> nat {
    utf8_len(s.take(k))
}

/// The number of whole characters of `s` that fit in the first `b` bytes: the
/// character index of byte `b`, snapped down to the start of the character
/// that holds it and clamped to the end of the text.
pub open spec fn snap_chars(s: Seq<char>, b: int) -> nat
    decreases s.len(),
{
    if s.len() == 0 {
        0
    } else if char_width(s[0]) <= b {
        1 + snap_chars(s.drop_first(), b - char_width(s[0]))
    } else {
        0
    }
}

/// The character index of the start of the token that holds character
/// `k - 1`: one past the last whitespace character before `k`, or `0`.
pub open spec fn token_start_chars(s: Seq<char>, k: int) -> int
    decreases k,
{
    if k <= 0 {
        0
    } else if is_white_space(s[k - 1]) {
        k
    } else {
        token_start_chars(s, k - 1)
    }
}

/// The character index `char_index` of `s`, clamped to the end of the text.
pub open spec fn clamp_chars(s: Seq<char>, char_index: int) -> int {
    if char_index < s.len() {
        char_index
    } else {
        s.len() as int
    }
}

/// The byte index of character `char_index` (see
/// [`char_index_to_byte_index`]).
pub open spec fn char_to_byte_spec(s: Seq<char>, char_index: int) -> nat {
    byte_offset(s, clamp_chars(s, char_index))
}

pub proof fn lemma_char_width_encoding(c: char)
    ensures
        encode_scalar(c as u32).len() == char_width(c),
        1 <= char_width(c) <= 4,
{
    char_is_scalar(c);
}

pub proof fn lemma_utf8_len_concat(a: Seq<char>, b: Seq<char>)
    ensures
        utf8_len(a + b) == utf8_len(a) + utf8_len(b),
    decreases a.len(),
{
    if a.len() > 0 {
        assert((a + b).drop_first() =~= a.drop_first() + b);
        assert((a + b)[0] == a[0]);
        lemma_utf8_len_concat(a.drop_first(), b);
    } else {
        assert(a + b =~= b);
    }
}

pub proof fn lemma_utf8_len_encoding(s: Seq<char>)
    ensures
        encode_utf8(s).len() == utf8_len(s),
    decreases s.len(),
{
    if s.len() > 0 {
        lemma_char_width_encoding(s[0]);
        lemma_utf8_len_encoding(s.drop_first());
    }
}

pub proof fn lemma_byte_offset_step(s: Seq<char>, i: int)
    requires
        0 <= i < s.len(),
    ensures
        byte_offset(s, i + 1) == byte_offset(s, i) + char_width(s[i]),
{
    let one = seq![s[i]];
    assert(s.take(i + 1) =~= s.take(i) + one);
    lemma_utf8_len_concat(s.take(i), one);
    assert(one.drop_first() =~= Seq::<char>::empty());
    assert(utf8_len(one.drop_first()) == 0);
    assert(utf8_len(one) == char_width(s[i]));
}

pub proof fn lemma_byte_offset_bounded(s: Seq<char>, i: int)
    requires
        0 <= i <= s.len(),
    ensures
        byte_offset(s, i) <= utf8_len(s),
{
    assert(s =~= s.take(i) + s.skip(i));
    lemma_utf8_len_concat(s.take(i), s.skip(i));
}

/// Character `k` starts after the first character's bytes and the offset of
/// character `k - 1` in the rest of the text.
pub proof fn lemma_byte_offset_front(s: Seq<char>, k: int)
    requires
        1 <= k <= s.len(),
    ensures
        byte_offset(s, k) == char_width(s[0]) + byte_offset(s.drop_first(), k - 1),
{
    assert(s.take(k).drop_first() =~= s.drop_first().take(k - 1));
    assert(s.take(k)[0] == s[0]);
}

/// Byte offsets grow strictly from one character to the next.
pub proof fn lemma_byte_offset_strict(s: Seq<char>, i: int, j: int)
    requires
        0 <= i < j <= s.len(),
    ensures
        byte_offset(s, i) < byte_offset(s, j),
    decreases j - i,
{
    lemma_byte_offset_step(s, j - 1);
    lemma_char_width_encoding(s[j - 1]);
    if i < j - 1 {
        lemma_byte_offset_strict(s, i, j - 1);
    }
}

/// Snapping from the start of character `i` counts the first `i` characters
/// and goes on in the rest.
pub proof fn lemma_snap_skip(s: Seq<char>, i: int, b: int)
    requires
        0 <= i <= s.len(),
        byte_offset(s, i) <= b,
    ensures
        snap_chars(s, b) == i + snap_chars(s.skip(i), b - byte_offset(s, i)),
    decreases i,
{
    if i == 0 {
        assert(s.skip(0) =~= s);
        assert(s.take(0) =~= Seq::<char>::empty());
    } else {
        lemma_byte_offset_front(s, i);
        lemma_snap_skip(s.drop_first(), i - 1, b - char_width(s[0]));
        assert(s.drop_first().skip(i - 1) =~= s.skip(i));
    }
}

/// Snapping the byte offset of character `k` gives `k` back.
pub proof fn lemma_snap_byte_offset(s: Seq<char>, k: int)
    requires
        0 <= k <= s.len(),
    ensures
        snap_chars(s, byte_offset(s, k) as int) == k,
    decreases k,
{
    if k == 0 {
        assert(s.take(0) =~= Seq::<char>::empty());
        if s.len() > 0 {
            lemma_char_width_encoding(s[0]);
        }
    } else {
        lemma_byte_offset_front(s, k);
        lemma_snap_byte_offset(s.drop_first(), k - 1);
    }
}

fn char_width_of(c: char) -> (w: usize)
    ensures
        w == char_width(c),
{
    let u = c as u32;
    if u < 0x80 {
        1
    } else if u < 0x800 {
        2
    } else if u < 0x10000 {
        3
    } else {
        4
    }
}

/// The byte offset of character `k` of `chars`, where the whole text is
/// no longer than `usize::MAX` bytes.
fn offset_of(chars: &Vec<char>, k: usize) -> (r: usize)
    requires
        k <= chars.len(),
        utf8_len(chars@) <= usize::MAX,
    ensures
        r == byte_offset(chars@, k as int),
{
    let mut i: usize = 0;
    let mut acc: usize = 0;
    assert(chars@.take(0) =~= Seq::<char>::empty());
    while i < k
        invariant
            i <= k <= chars.len(),
            utf8_len(chars@) <= usize::MAX,
            acc == byte_offset(chars@, i as int),
        decreases k - i,
    {
        proof {
            lemma_byte_offset_step(chars@, i as int);
            lemma_byte_offset_bounded(chars@, i + 1);
        }
        acc = acc + char_width_of(chars[i]);
        i = i + 1;
    }
    acc
}

/// Converts a character index into `text` to a byte index, clamping
/// past-the-end indices to the end of the text.
pub fn char_index_to_byte_index(text: &str, char_index: usize) -> (r: usize)
    requires
        utf8_len(text@) <= usize::MAX,
    ensures
        r == char_to_byte_spec(text@, char_index as int),
{
    let chars = chars_of(text);
    let k = if char_index < chars.len() {
        char_index
    } else {
        chars.len()
    };
    offset_of(&chars, k)
}

/// Converts a byte index into `text` to a character index, clamping
/// past-the-end indices and snapping indices that land inside a multi-byte
/// character down to its start.
pub fn byte_index_to_char_index(text: &str, byte_index: usize) -> (r: usize)
    requires
        utf8_len(text@) <= usize::MAX,
    ensures
        r == snap_chars(text@, byte_index as int),
{
    let chars = chars_of(text);
    let ghost s = chars@;
    let mut i: usize = 0;
    let mut acc: usize = 0;
    proof {
        lemma_snap_skip(s, 0, byte_index as int);
    }
    assert(s.take(0) =~= Seq::<char>::empty());
    loop
        invariant
            i <= chars.len(),
            s == chars@,
            s == text@,
            utf8_len(s) <= usize::MAX,
            acc == byte_offset(s, i as int),
            acc <= byte_index,
            snap_chars(s, byte_index as int) == i + snap_chars(s.skip(i as int), byte_index - acc),
        ensures
            snap_chars(s, byte_index as int) == i,
        decreases chars.len() - i,
    {
        if i == chars.len() {
            assert(s.skip(i as int).len() == 0);
            assert(snap_chars(s.skip(i as int), byte_index - acc) == 0);
            break;
        }
        let w = char_width_of(chars[i]);
        proof {
            lemma_byte_offset_step(s, i as int);
            lemma_byte_offset_bounded(s, i + 1);
            assert(s.skip(i as int)[0] == s[i as int]);
        }
        if w > byte_index - acc {
            assert(snap_chars(s.skip(i as int), byte_index - acc) == 0);
            break;
        }
        proof {
            lemma_snap_skip(s, i + 1, byte_index as int);
        }
        acc = acc + w;
        i = i + 1;
    }
    i
}

/// The character range covered by a described token, whose span is given in
/// bytes.
pub fn token_char_range(text: &str, token_span: core::ops::Range<usize>) -> (r: core::ops::Range<usize>)
    requires
        utf8_len(text@) <= usize::MAX,
    ensures
        r.start == snap_chars(text@, token_span.start as int),
        r.end == snap_chars(text@, token_span.end as int),
{
    let start = byte_index_to_char_index(text, token_span.start);
    let end = byte_index_to_char_index(text, token_span.end);
    start..end
}

/// Snaps a character index to the start of the token that holds it and
/// returns that position as a byte offset into `command_text`. A token
/// starts after the last whitespace character before the (clamped) index.
pub fn token_start_byte_offset(command_text: &str, char_index: usize) -> (r: usize)
    requires
        utf8_len(command_text@) <= usize::MAX,
    ensures
        r == byte_offset(
            command_text@,
            token_start_chars(command_text@, clamp_chars(command_text@, char_index as int)),
        ),
{
    let chars = chars_of(command_text);
    let k = if char_index < chars.len() {
        char_index
    } else {
        chars.len()
    };
    let mut j = k;
    while j > 0
        invariant
            j <= k <= chars.len(),
            chars@ == command_text@,
            utf8_len(chars@) <= usize::MAX,
            token_start_chars(chars@, k as int) == token_start_chars(chars@, j as int),
        ensures
            j <= k,
            token_start_chars(chars@, k as int) == j,
        decreases j,
    {
        if is_whitespace(chars[j - 1]) {
            break;
        }
        j = j - 1;
    }
    offset_of(&chars, j)
}

/// Converting a character index to bytes and back gives the (clamped) index
/// again, and converting a character boundary to characters and back gives
/// the boundary again.
pub proof fn law_index_round_trip(s: Seq<char>, k: int)
    requires
        0 <= k,
    ensures
        snap_chars(s, char_to_byte_spec(s, k) as int) == clamp_chars(s, k),
        char_to_byte_spec(s, snap_chars(s, char_to_byte_spec(s, k) as int) as int) == char_to_byte_spec(s, k),
{
    lemma_snap_byte_offset(s, clamp_chars(s, k));
}

/// A byte index that falls inside a character snaps down to that character:
/// its character starts at or before the byte, and the next one after it.
pub proof fn law_snap_brackets(s: Seq<char>, b: int)
    requires
        0 <= b <= utf8_len(s),
    ensures
        snap_chars(s, b) <= s.len(),
        byte_offset(s, snap_chars(s, b) as int) <= b,
        snap_chars(s, b) < s.len() ==> b < byte_offset(s, snap_chars(s, b) as int + 1),
    decreases s.len(),
{
    if s.len() == 0 {
        assert(s.take(0) =~= Seq::<char>::empty());
    } else if char_width(s[0]) <= b {
        law_snap_brackets(s.drop_first(), b - char_width(s[0]));
        let r = snap_chars(s, b) as int;
        lemma_byte_offset_front(s, r);
        if r < s.len() {
            lemma_byte_offset_front(s, r + 1);
        }
    } else {
        assert(s.take(0) =~= Seq::<char>::empty());
        lemma_byte_offset_front(s, 1);
        assert(s.drop_first().take(0) =~= Seq::<char>::empty());
    }
}

} // verus!
