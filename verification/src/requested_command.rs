//! Header text of an agent's requested command: the command cut to its
//! first line, and the titles shown when the agent asks to call, or shows
//! the call of, an MCP tool.

use vstd::prelude::*;

use crate::text::{chars_of, is_white_space, is_whitespace, owned, push_all, string_of};

verus! {

/// The index of the first newline of `s`, or its length.
pub open spec fn first_newline(s: Seq<char>) -> int
    decreases s.len(),
{
    if s.len() == 0 {
        0
    } else if s[0] == '\n' {
        0
    } else {
        1 + first_newline(s.drop_first())
    }
}

/// Whether `s` holds anything but whitespace.
pub open spec fn has_content(s: Seq<char>) -> bool {
    exists|i: int| 0 <= i < s.len() && !is_white_space(#[trigger] s[i])
}

/// The command as its header shows it: the first line, followed by an
/// ellipsis when non-whitespace content follows the first newline.
pub open spec fn command_header_text(s: Seq<char>) -> Seq<char> {
    let i = first_newline(s);
    if i >= s.len() {
        s
    } else if has_content(s.skip(i + 1)) {
        s.take(i) + seq!['…']
    } else {
        s.take(i)
    }
}

proof fn lemma_first_newline(s: Seq<char>)
    ensures
        0 <= first_newline(s) <= s.len(),
        forall|k: int| 0 <= k < first_newline(s) ==> s[k] != '\n',
        first_newline(s) < s.len() ==> s[first_newline(s)] == '\n',
    decreases s.len(),
{
    if s.len() > 0 && s[0] != '\n' {
        lemma_first_newline(s.drop_first());
        assert forall|k: int| 0 <= k < first_newline(s) implies s[k] != '\n' by {
            if k > 0 {
                assert(s[k] == s.drop_first()[k - 1]);
            }
        }
    }
}

proof fn lemma_first_newline_is(s: Seq<char>, i: int)
    requires
        0 <= i <= s.len(),
        forall|k: int| 0 <= k < i ==> s[k] != '\n',
        i < s.len() ==> s[i] == '\n',
    ensures
        first_newline(s) == i,
    decreases s.len(),
{
    if s.len() > 0 && s[0] != '\n' {
        assert forall|k: int| 0 <= k < i - 1 implies s.drop_first()[k] != '\n' by {
            assert(s.drop_first()[k] == s[k + 1]);
        }
        if i - 1 < s.len() - 1 {
            assert(s.drop_first()[i - 1] == s[i]);
        }
        lemma_first_newline_is(s.drop_first(), i - 1);
    }
}

/// Formats a requested command for its header (see
/// [`command_header_text`]).
pub fn format_command_text(command: &str) -> (r: String)
    ensures
        r@ == command_header_text(command@),
{
    let chars = chars_of(command);
    let mut i: usize = 0;
    while i < chars.len()
        invariant
            i <= chars.len(),
            chars@ == command@,
            forall|k: int| 0 <= k < i ==> chars@[k] != '\n',
        ensures
            i <= chars.len(),
            forall|k: int| 0 <= k < i ==> chars@[k] != '\n',
            i < chars.len() ==> chars@[i as int] == '\n',
        decreases chars.len() - i,
    {
        if chars[i] == '\n' {
            break;
        }
        i = i + 1;
    }
    proof {
        lemma_first_newline_is(command@, i as int);
    }
    if i == chars.len() {
        return owned(command);
    }
    let mut j = i + 1;
    let mut content = false;
    while j < chars.len()
        invariant
            i < j <= chars.len(),
            chars@ == command@,
            content == exists|k: int| i + 1 <= k < j && !is_white_space(#[trigger] chars@[k]),
        decreases chars.len() - j,
    {
        if !is_whitespace(chars[j]) {
            content = true;
        }
        j = j + 1;
    }
    let mut head: Vec<char> = Vec::new();
    let mut k: usize = 0;
    while k < i
        invariant
            k <= i < chars.len(),
            head@ == chars@.take(k as int),
        decreases i - k,
    {
        head.push(chars[k]);
        k = k + 1;
        assert(chars@.take(k as int) =~= chars@.take(k - 1).push(chars@[k - 1]));
    }
    proof {
        let rest = command@.skip(i + 1);
        if content {
            let w = choose|w: int| i + 1 <= w < chars.len() && !is_white_space(#[trigger] chars@[w]);
            assert(rest[w - i - 1] == chars@[w]);
        }
        if has_content(rest) {
            let w = choose|w: int| 0 <= w < rest.len() && !is_white_space(#[trigger] rest[w]);
            assert(rest[w] == chars@[w + i + 1]);
        }
    }
    let mut r = string_of(head.as_slice());
    if content {
        r.push('…');
    }
    r
}

/// The title shown when the agent asks to call an MCP tool.
pub open spec fn mcp_blocked_title_spec(tool: Seq<char>, server: Option<Seq<char>>) -> Seq<char> {
    if tool.len() == 0 {
        "OK if I call this MCP tool?"@
    } else {
        match server {
            Some(s) => "OK if I call MCP tool "@ + tool + " on server "@ + s,
            None => "OK if I call MCP tool "@ + tool,
        }
    }
}

pub fn mcp_blocked_title_text(tool_name: &str, server_name: Option<&str>) -> (r: String)
    ensures
        r@ == mcp_blocked_title_spec(tool_name@, match server_name {
            Some(s) => Some(s@),
            None => None,
        }),
{
    if tool_name.is_empty() {
        return owned("OK if I call this MCP tool?");
    }
    let mut r = owned("OK if I call MCP tool ");
    push_all(&mut r, tool_name);
    match server_name {
        Some(s) => {
            push_all(&mut r, " on server ");
            push_all(&mut r, s);
        },
        None => {},
    }
    r
}

/// The title shown over the details of an MCP tool call.
pub open spec fn mcp_viewing_title_spec(tool: Seq<char>, server: Option<Seq<char>>) -> Seq<char> {
    if tool.len() == 0 {
        "Viewing MCP tool call detail"@
    } else {
        match server {
            Some(s) => "Viewing MCP tool "@ + tool + " on "@ + s,
            None => "Viewing MCP tool "@ + tool,
        }
    }
}

pub fn mcp_viewing_detail_title_text(tool_name: &str, server_name: Option<&str>) -> (r: String)
    ensures
        r@ == mcp_viewing_title_spec(tool_name@, match server_name {
            Some(s) => Some(s@),
            None => None,
        }),
{
    if tool_name.is_empty() {
        return owned("Viewing MCP tool call detail");
    }
    let mut r = owned("Viewing MCP tool ");
    push_all(&mut r, tool_name);
    match server_name {
        Some(s) => {
            push_all(&mut r, " on ");
            push_all(&mut r, s);
        },
        None => {},
    }
    r
}

/// The header never holds a newline, and it keeps the whole command when
/// the command has none.
pub proof fn law_header_is_one_line(s: Seq<char>)
    ensures
        !command_header_text(s).contains('\n'),
        !s.contains('\n') ==> command_header_text(s) == s,
{
    lemma_first_newline(s);
    let h = command_header_text(s);
    let i = first_newline(s);
    if h.contains('\n') {
        let k = choose|k: int| 0 <= k < h.len() && h[k] == '\n';
        if i < s.len() {
            assert(k < i ==> h[k] == s[k]);
        } else {
            assert(h[k] == s[k]);
        }
    }
    if !s.contains('\n') && i < s.len() {
        assert(s[i] == '\n');
    }
}


/// The characters of one colored stretch of the header, and its color.
pub struct HeaderHighlight<C> {
    pub highlight_indices: Vec<usize>,
    pub color: C,
}

/// Where a colored range `[start, end)` ends once the header is cut at
/// `truncated_at` (not cut: `None`).
pub open spec fn clipped_end(end: usize, truncated_at: Option<usize>) -> usize {
    match truncated_at {
        Some(t) => if t < end {
            t
        } else {
            end
        },
        None => end,
    }
}

/// The indices `start, start + 1, ..., end - 1`.
pub open spec fn index_run(start: usize, end: usize) -> Seq<usize> {
    Seq::new((end - start) as nat, |k: int| (start + k) as usize)
}

/// The header's highlights: each colored range, in order, cut at the
/// truncation point; a range that the cut leaves empty is dropped.
pub open spec fn header_highlights_spec<C>(ranges: Seq<(usize, usize, C)>, truncated_at: Option<usize>) -> Seq<
    (Seq<usize>, C),
>
    decreases ranges.len(),
{
    if ranges.len() == 0 {
        Seq::empty()
    } else {
        let rest = header_highlights_spec(ranges.drop_last(), truncated_at);
        let (start, end, color) = ranges.last();
        let e = clipped_end(end, truncated_at);
        if start < e {
            rest.push((index_run(start, e), color))
        } else {
            rest
        }
    }
}

pub open spec fn highlight_views<C>(v: Seq<HeaderHighlight<C>>) -> Seq<(Seq<usize>, C)> {
    v.map_values(|h: HeaderHighlight<C>| (h.highlight_indices@, h.color))
}

/// The header's highlights (see [`header_highlights_spec`]).
pub fn header_highlight_ranges<C: Copy>(color_ranges: &[(usize, usize, C)], truncated_at: Option<usize>) -> (r: Vec<
    HeaderHighlight<C>,
>)
    ensures
        highlight_views(r@) == header_highlights_spec(color_ranges@, truncated_at),
{
    let mut out: Vec<HeaderHighlight<C>> = Vec::new();
    let mut i: usize = 0;
    assert(color_ranges@.take(0) =~= Seq::<(usize, usize, C)>::empty());
    assert(highlight_views(out@) =~= Seq::<(Seq<usize>, C)>::empty());
    while i < color_ranges.len()
        invariant
            i <= color_ranges.len(),
            highlight_views(out@) == header_highlights_spec(color_ranges@.take(i as int), truncated_at),
        decreases color_ranges.len() - i,
    {
        proof {
            assert(color_ranges@.take(i + 1).drop_last() =~= color_ranges@.take(i as int));
            assert(color_ranges@.take(i + 1).last() == color_ranges@[i as int]);
        }
        let (start, end, color) = color_ranges[i];
        let e = match truncated_at {
            Some(t) => if t < end {
                t
            } else {
                end
            },
            None => end,
        };
        if start < e {
            let mut indices: Vec<usize> = Vec::new();
            let mut k = start;
            while k < e
                invariant
                    start <= k <= e,
                    indices@ == index_run(start, k),
                decreases e - k,
            {
                indices.push(k);
                k = k + 1;
                assert(indices@ =~= index_run(start, k));
            }
            let ghost before = highlight_views(out@);
            out.push(HeaderHighlight { highlight_indices: indices, color });
            assert(highlight_views(out@) =~= before.push((index_run(start, e), color)));
        }
        i = i + 1;
    }
    assert(color_ranges@.take(color_ranges.len() as int) =~= color_ranges@);
    out
}


/// A truncated header highlights nothing past its cut, and no highlight is
/// empty.
pub proof fn law_highlights_stay_before_the_cut<C>(ranges: Seq<(usize, usize, C)>, cut: usize)
    ensures
        forall|i: int, j: int|
            0 <= i < header_highlights_spec(ranges, Some(cut)).len() && 0 <= j < header_highlights_spec(
                ranges,
                Some(cut),
            )[i].0.len() ==> #[trigger] header_highlights_spec(ranges, Some(cut))[i].0[j] < cut,
        forall|i: int|
            0 <= i < header_highlights_spec(ranges, Some(cut)).len() ==> #[trigger] header_highlights_spec(
                ranges,
                Some(cut),
            )[i].0.len() > 0,
    decreases ranges.len(),
{
    if ranges.len() > 0 {
        law_highlights_stay_before_the_cut(ranges.drop_last(), cut);
        let rest = header_highlights_spec(ranges.drop_last(), Some(cut));
        let h = header_highlights_spec(ranges, Some(cut));
        assert forall|i: int, j: int| 0 <= i < h.len() && 0 <= j < h[i].0.len() implies #[trigger] h[i].0[j] < cut by {
            if i < rest.len() {
                assert(h[i] == rest[i]);
            }
        }
        assert forall|i: int| 0 <= i < h.len() implies #[trigger] h[i].0.len() > 0 by {
            if i < rest.len() {
                assert(h[i] == rest[i]);
            }
        }
    }
}

} // verus!
