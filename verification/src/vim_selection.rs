//! Vim selection arithmetic for the editors: the one-based carets the vim
//! handler works with against the zero-based offsets of a buffer, the line a
//! `:N` jump lands on, where each motion moves a selection given what the
//! buffer says of the lines around it, the order replacements are applied
//! in, and the selection steps an operator's operand asks of the notebook
//! editor.

use vstd::prelude::*;

verus! {

/// A vim caret offset (one-based) for a buffer offset.
pub fn to_one_based(offset: usize) -> (r: usize)
    requires
        offset < usize::MAX,
    ensures
        r == offset + 1,
{
    offset + 1
}

/// A buffer offset for a vim caret offset (one-based); zero stays zero.
pub fn to_zero_based(offset: usize) -> (r: usize)
    ensures
        r == if offset == 0 {
            0
        } else {
            offset - 1
        },
{
    offset.saturating_sub(1)
}

/// The buffer selection for a caret: head and tail turned zero-based and
/// clamped to the buffer length `max`, as a range from start to end that is
/// reversed when the head comes before the tail.
pub open spec fn caret_selection_spec(head: usize, tail: usize, max: usize) -> (usize, usize, bool) {
    let h: int = if head == 0 {
        0
    } else {
        head - 1
    };
    let t: int = if tail == 0 {
        0
    } else {
        tail - 1
    };
    let h: int = if h < max {
        h
    } else {
        max as int
    };
    let t: int = if t < max {
        t
    } else {
        max as int
    };
    if h >= t {
        (t as usize, h as usize, false)
    } else {
        (h as usize, t as usize, true)
    }
}

pub fn caret_selection(head: usize, tail: usize, max: usize) -> (r: (usize, usize, bool))
    ensures
        r == caret_selection_spec(head, tail, max),
{
    let h = to_zero_based(head);
    let t = to_zero_based(tail);
    let h = if h < max {
        h
    } else {
        max
    };
    let t = if t < max {
        t
    } else {
        max
    };
    if h >= t {
        (t, h, false)
    } else {
        (h, t, true)
    }
}

/// A caret's selection always runs forward within the buffer.
pub proof fn law_caret_selection_in_bounds(head: usize, tail: usize, max: usize)
    ensures
        caret_selection_spec(head, tail, max).0 <= caret_selection_spec(head, tail, max).1 <= max,
        caret_selection_spec(head, tail, max).2 <==> (if head == 0 {
            0
        } else {
            head - 1
        }) < (if tail == 0 {
            0
        } else {
            tail - 1
        }) && (if head == 0 {
            0
        } else {
            head - 1
        }) < max,
{
}

/// The row a `:N` jump lands on: at least the first line, at most the last
/// row of the buffer.
pub fn jump_row(line_number: u32, max_row: u32) -> (r: u32)
    ensures
        r == if line_number < 1 {
            if 1 < max_row {
                1
            } else {
                max_row
            }
        } else if line_number < max_row {
            line_number
        } else {
            max_row
        },
{
    let row = if line_number < 1 {
        1
    } else {
        line_number
    };
    if row < max_row {
        row
    } else {
        max_row
    }
}

/// The direction of a word or paragraph motion.
#[derive(Debug, Clone, Copy, PartialEq, Eq, Structural)]
pub enum Direction {
    Forward,
    Backward,
}

/// Motions to a position on the current line.
#[derive(Debug, Clone, Copy, PartialEq, Eq, Structural)]
pub enum LineMotion {
    Start,
    FirstNonWhitespace,
    End,
}

/// Motions to the first non-whitespace character of another line.
#[derive(Debug, Clone, Copy, PartialEq, Eq, Structural)]
pub enum FirstNonWhitespaceMotion {
    Up,
    Down,
    DownMinusOne,
}

/// The shape of a motion an operand holds; character and find-character
/// motions carry their own details, which the editor applies.
#[derive(Debug, Clone, Copy, PartialEq, Eq, Structural)]
pub enum MotionKind {
    Character,
    Word(Direction),
    Line(LineMotion),
    FirstNonWhitespace(FirstNonWhitespaceMotion),
    Paragraph,
    JumpToLastLine,
    JumpToFirstLine,
    FindChar,
    JumpToLine(u32),
    JumpToMatchingBracket,
    JumpToUnmatchedBracket,
}

/// What an operator acts on.
#[derive(Debug, Clone, Copy, PartialEq, Eq, Structural)]
pub enum OperandKind {
    /// A motion; `linewise` motions extend the selection to whole lines.
    Motion { motion: MotionKind, linewise: bool },
    /// The current line (`dd`, `yy`, ...), `count` lines from it.
    Line,
    TextObject,
}

/// One step of a motion for the editor; under an operator it extends the
/// selection, elsewhere it moves the cursor.
#[derive(Debug, Clone, Copy, PartialEq, Eq, Structural)]
pub enum SelectStep {
    /// The character motion, `count` times.
    NavigateChar { count: u32 },
    /// One word forward or back, `count` times.
    Word { forward: bool, count: u32 },
    /// To the start or end of the line.
    LineBound { start: bool },
    /// To the first non-whitespace character of the line.
    FirstNonWhitespace,
    /// `count` lines down or up.
    Vertical { count: u32, forwards: bool },
    /// `count` paragraphs in the motion's direction.
    Paragraph { count: u32 },
    JumpToLastLine,
    JumpToFirstLine,
    /// The find-character motion, `count` times.
    FindChar { count: u32 },
    JumpToLine(u32),
    /// Extend every selection to whole lines, with the trailing newline when
    /// the operator takes it.
    ExtendLinewise { include_newline: bool },
}

pub open spec fn minus_one(n: u32) -> u32 {
    if n == 0 {
        0
    } else {
        (n - 1) as u32
    }
}

/// The steps of a motion.
pub open spec fn motion_steps(motion: MotionKind, count: u32) -> Seq<SelectStep> {
    match motion {
        MotionKind::Character => seq![SelectStep::NavigateChar { count }],
        MotionKind::Word(d) => seq![SelectStep::Word { forward: d == Direction::Forward, count }],
        MotionKind::Line(LineMotion::Start) => seq![SelectStep::LineBound { start: true }],
        MotionKind::Line(LineMotion::FirstNonWhitespace) => seq![SelectStep::FirstNonWhitespace],
        MotionKind::Line(LineMotion::End) => seq![
            SelectStep::Vertical { count: minus_one(count), forwards: true },
            SelectStep::LineBound { start: false },
        ],
        MotionKind::FirstNonWhitespace(m) => seq![
            match m {
                FirstNonWhitespaceMotion::Up => SelectStep::Vertical { count, forwards: false },
                FirstNonWhitespaceMotion::Down => SelectStep::Vertical { count, forwards: true },
                FirstNonWhitespaceMotion::DownMinusOne => SelectStep::Vertical { count: minus_one(count), forwards: true },
            },
            SelectStep::FirstNonWhitespace,
        ],
        MotionKind::Paragraph => seq![SelectStep::Paragraph { count }],
        MotionKind::JumpToLastLine => seq![SelectStep::JumpToLastLine],
        MotionKind::JumpToFirstLine => seq![SelectStep::JumpToFirstLine],
        MotionKind::FindChar => seq![SelectStep::FindChar { count }],
        MotionKind::JumpToLine(n) => seq![SelectStep::JumpToLine(n)],
        MotionKind::JumpToMatchingBracket | MotionKind::JumpToUnmatchedBracket => Seq::empty(),
    }
}

/// The steps that select what an operator acts on: a motion's steps (then
/// whole lines for a linewise motion); for the line operand, `count - 1`
/// lines down and then whole lines; nothing for text objects.
pub open spec fn operand_steps(include_newline: bool, count: u32, operand: OperandKind) -> Seq<SelectStep> {
    match operand {
        OperandKind::Motion { motion, linewise } => motion_steps(motion, count) + if linewise {
            seq![SelectStep::ExtendLinewise { include_newline }]
        } else {
            Seq::empty()
        },
        OperandKind::Line => (if count > 1 {
            seq![SelectStep::Vertical { count: (count - 1) as u32, forwards: true }]
        } else {
            Seq::empty()
        }) + seq![SelectStep::ExtendLinewise { include_newline }],
        OperandKind::TextObject => Seq::empty(),
    }
}

fn push_motion_steps(steps: &mut Vec<SelectStep>, motion: MotionKind, count: u32)
    ensures
        final(steps)@ == old(steps)@ + motion_steps(motion, count),
{
    let ghost before = steps@;
    match motion {
        MotionKind::Character => steps.push(SelectStep::NavigateChar { count }),
        MotionKind::Word(d) => {
            let forward = match d {
                Direction::Forward => true,
                Direction::Backward => false,
            };
            steps.push(SelectStep::Word { forward, count });
        },
        MotionKind::Line(LineMotion::Start) => steps.push(SelectStep::LineBound { start: true }),
        MotionKind::Line(LineMotion::FirstNonWhitespace) => steps.push(SelectStep::FirstNonWhitespace),
        MotionKind::Line(LineMotion::End) => {
            steps.push(SelectStep::Vertical { count: count.saturating_sub(1), forwards: true });
            steps.push(SelectStep::LineBound { start: false });
        },
        MotionKind::FirstNonWhitespace(m) => {
            let step = match m {
                FirstNonWhitespaceMotion::Up => SelectStep::Vertical { count, forwards: false },
                FirstNonWhitespaceMotion::Down => SelectStep::Vertical { count, forwards: true },
                FirstNonWhitespaceMotion::DownMinusOne => SelectStep::Vertical {
                    count: count.saturating_sub(1),
                    forwards: true,
                },
            };
            steps.push(step);
            steps.push(SelectStep::FirstNonWhitespace);
        },
        MotionKind::Paragraph => steps.push(SelectStep::Paragraph { count }),
        MotionKind::JumpToLastLine => steps.push(SelectStep::JumpToLastLine),
        MotionKind::JumpToFirstLine => steps.push(SelectStep::JumpToFirstLine),
        MotionKind::FindChar => steps.push(SelectStep::FindChar { count }),
        MotionKind::JumpToLine(n) => steps.push(SelectStep::JumpToLine(n)),
        MotionKind::JumpToMatchingBracket | MotionKind::JumpToUnmatchedBracket => {},
    }
    assert(steps@ =~= before + motion_steps(motion, count));
}

/// The selection steps for an operator's operand (see [`operand_steps`]);
/// `include_newline` is whether the operator takes the trailing newline of
/// whole lines.
pub fn select_for_operand(include_newline: bool, count: u32, operand: OperandKind) -> (r: Vec<SelectStep>)
    ensures
        r@ == operand_steps(include_newline, count, operand),
{
    let mut steps: Vec<SelectStep> = Vec::new();
    match operand {
        OperandKind::Motion { motion, linewise } => {
            push_motion_steps(&mut steps, motion, count);
            if linewise {
                steps.push(SelectStep::ExtendLinewise { include_newline });
            }
        },
        OperandKind::Line => {
            if count > 1 {
                steps.push(SelectStep::Vertical { count: count - 1, forwards: true });
            }
            steps.push(SelectStep::ExtendLinewise { include_newline });
        },
        OperandKind::TextObject => {},
    }
    assert(steps@ =~= operand_steps(include_newline, count, operand));
    steps
}

/// A linewise selection, and the selection for the line operand, always
/// ends by extending to whole lines.
pub proof fn law_linewise_ends_in_whole_lines(include_newline: bool, count: u32, operand: OperandKind)
    requires
        (operand is Line) || (operand matches OperandKind::Motion { linewise, .. } && linewise),
    ensures
        operand_steps(include_newline, count, operand).len() > 0,
        operand_steps(include_newline, count, operand).last() == (SelectStep::ExtendLinewise { include_newline }),
{
}


/// `-` and `+` (first non-whitespace character of the line `count` lines up
/// or down) select in opposite directions: `-` moves up by the count, `+`
/// down by the count, each then goes to the first non-whitespace character,
/// and otherwise the two selections take the same steps.
pub proof fn law_first_nonwhitespace_up_and_down(include_newline: bool, count: u32, linewise: bool)
    ensures
        ({
            let up = operand_steps(
                include_newline,
                count,
                OperandKind::Motion { motion: MotionKind::FirstNonWhitespace(FirstNonWhitespaceMotion::Up), linewise },
            );
            let down = operand_steps(
                include_newline,
                count,
                OperandKind::Motion { motion: MotionKind::FirstNonWhitespace(FirstNonWhitespaceMotion::Down), linewise },
            );
            &&& up.len() >= 2 && up.len() == down.len()
            &&& up[0] == SelectStep::Vertical { count, forwards: false }
            &&& down[0] == SelectStep::Vertical { count, forwards: true }
            &&& up[1] == SelectStep::FirstNonWhitespace && down[1] == SelectStep::FirstNonWhitespace
            &&& forall|k: int| 2 <= k < up.len() ==> up[k] == down[k]
        }),
{
}

/// One selection of the notebook buffer: where the cursor is (`head`) and
/// where the selection started (`tail`), as buffer character offsets.
#[derive(Debug, Clone, Copy, PartialEq, Eq, Structural)]
pub struct SelectionOffsets {
    pub head: usize,
    pub tail: usize,
}

/// A selection whose head moved to `head`: the tail stays when the selection
/// is kept, else it follows the head.
pub open spec fn moved_spec(sel: SelectionOffsets, head: usize, keep_selection: bool) -> SelectionOffsets {
    SelectionOffsets {
        head,
        tail: if keep_selection {
            sel.tail
        } else {
            head
        },
    }
}

pub fn moved(sel: SelectionOffsets, head: usize, keep_selection: bool) -> (r: SelectionOffsets)
    ensures
        r == moved_spec(sel, head, keep_selection),
{
    SelectionOffsets { head, tail: if keep_selection { sel.tail } else { head } }
}

pub open spec fn min_int(a: int, b: int) -> int {
    if a < b {
        a
    } else {
        b
    }
}

pub open spec fn max_int(a: int, b: int) -> int {
    if a < b {
        b
    } else {
        a
    }
}

/// Where a horizontal motion of `count` characters takes a head at `head`
/// (on a line of `line_len` characters, at `column`, in a buffer whose last
/// offset is `max_offset`). Stopping at the line boundary, the head moves at
/// most to the line's start or end; wrapping, it moves across lines but not
/// before offset 1 or past `max_offset`, and a head already there stays.
pub open spec fn horizontal_head_spec(
    head: usize,
    count: u32,
    forward: bool,
    stop_at_line_boundary: bool,
    column: u32,
    line_len: u32,
    max_offset: usize,
) -> int {
    if stop_at_line_boundary {
        if forward {
            let room: int = if line_len >= column {
                line_len - column
            } else {
                0
            };
            min_int(max_offset as int, head + min_int(room, count as int))
        } else {
            max_int(0, head - min_int(column as int, count as int))
        }
    } else if forward {
        if head >= max_offset {
            head as int
        } else {
            min_int(max_offset as int, head + count)
        }
    } else if head <= 1 {
        head as int
    } else {
        max_int(1, head - count)
    }
}

/// Moves one selection's head `count` characters (see
/// [`horizontal_head_spec`]).
pub fn move_horizontal(
    sel: SelectionOffsets,
    count: u32,
    direction: Direction,
    keep_selection: bool,
    stop_at_line_boundary: bool,
    column: u32,
    line_len: u32,
    max_offset: usize,
) -> (r: SelectionOffsets)
    ensures
        r.head == horizontal_head_spec(
            sel.head,
            count,
            direction == Direction::Forward,
            stop_at_line_boundary,
            column,
            line_len,
            max_offset,
        ),
        r == moved_spec(sel, r.head, keep_selection),
{
    let head = sel.head;
    let new_head = if stop_at_line_boundary {
        match direction {
            Direction::Backward => {
                let change = if column < count {
                    column
                } else {
                    count
                };
                head.saturating_sub(change as usize)
            },
            Direction::Forward => {
                let room = line_len.saturating_sub(column);
                let change = if room < count {
                    room
                } else {
                    count
                };
                if head >= max_offset {
                    max_offset
                } else if (change as usize) < max_offset - head {
                    head + change as usize
                } else {
                    max_offset
                }
            },
        }
    } else {
        match direction {
            Direction::Forward => {
                if head >= max_offset {
                    head
                } else if (count as usize) < max_offset - head {
                    head + count as usize
                } else {
                    max_offset
                }
            },
            Direction::Backward => {
                if head <= 1 {
                    head
                } else if (count as usize) < head - 1 {
                    head - count as usize
                } else {
                    1
                }
            },
        }
    };
    moved(sel, new_head, keep_selection)
}

/// The row a vertical motion of `count` lines lands on: not above row 0
/// going up, not below `max_row` going down.
pub open spec fn vertical_row_spec(row: u32, count: u32, forwards: bool, max_row: u32) -> int {
    if forwards {
        min_int(max_row as int, row + count)
    } else {
        max_int(0, row - count)
    }
}

pub fn vertical_target_row(row: u32, count: u32, forwards: bool, max_row: u32) -> (r: u32)
    ensures
        r == vertical_row_spec(row, count, forwards, max_row),
{
    if forwards {
        let target = row.saturating_add(count);
        if max_row < target {
            max_row
        } else {
            target
        }
    } else {
        row.saturating_sub(count)
    }
}

/// The column a vertical motion keeps: the head's column, or the end of a
/// shorter target line.
pub fn vertical_target_column(column: u32, target_line_len: u32) -> (r: u32)
    ensures
        r == min_int(column as int, target_line_len as int),
{
    if column < target_line_len {
        column
    } else {
        target_line_len
    }
}

/// A selection collapsed to its start.
pub fn collapse_to_start(sel: SelectionOffsets) -> (r: SelectionOffsets)
    ensures
        r.head == r.tail,
        r.head == min_int(sel.head as int, sel.tail as int),
{
    let start = if sel.head < sel.tail {
        sel.head
    } else {
        sel.tail
    };
    SelectionOffsets { head: start, tail: start }
}

/// In normal mode the cursor sits on a character: a head at or past the end
/// of a non-empty line moves back one, and the tail with it.
pub fn cap_to_line(sel: SelectionOffsets, column: u32, line_len: u32) -> (r: SelectionOffsets)
    ensures
        r == if line_len > 0 && column >= line_len {
            SelectionOffsets {
                head: max_int(0, sel.head - 1) as usize,
                tail: max_int(0, sel.tail - 1) as usize,
            }
        } else {
            sel
        },
{
    if line_len > 0 && column >= line_len {
        SelectionOffsets { head: sel.head.saturating_sub(1), tail: sel.tail.saturating_sub(1) }
    } else {
        sel
    }
}

/// The first and last offsets a linewise extension covers: from the earlier
/// to the later of head and tail.
pub fn linewise_span(sel: SelectionOffsets) -> (r: (usize, usize))
    ensures
        r.0 == min_int(sel.head as int, sel.tail as int),
        r.1 == max_int(sel.head as int, sel.tail as int),
{
    if sel.tail < sel.head {
        (sel.tail, sel.head)
    } else {
        (sel.head, sel.tail)
    }
}

/// A selection extended to whole lines: its tail at `line_start`, the start
/// of the first line, and its head at the end of the last line
/// (`containing_line_end` is the offset just past that line). With the
/// newline, the head takes the line end, but not past `max_offset`; without
/// it, the head stops one before.
pub fn linewise_selection(line_start: usize, containing_line_end: usize, max_offset: usize, include_newline: bool) -> (r:
    SelectionOffsets)
    requires
        include_newline || containing_line_end >= 1,
    ensures
        r.tail == line_start,
        r.head == if include_newline {
            min_int(containing_line_end as int, max_offset as int)
        } else {
            containing_line_end - 1
        },
{
    let head = if include_newline {
        if containing_line_end < max_offset {
            containing_line_end
        } else {
            max_offset
        }
    } else {
        containing_line_end - 1
    };
    SelectionOffsets { head, tail: line_start }
}

/// The span a visual-mode selection covers, from the visual tail (where
/// visual mode began) to the head, in order, the end taking the character
/// under the cursor when there is one before `max_offset`.
pub open spec fn visual_span_spec(visual_tail: usize, head: usize, max_offset: usize) -> (int, int) {
    let start = min_int(visual_tail as int, head as int);
    let end = max_int(visual_tail as int, head as int);
    (start, if end < max_offset {
        end + 1
    } else {
        end
    })
}

pub fn visual_span(visual_tail: usize, head: usize, max_offset: usize) -> (r: (usize, usize))
    ensures
        r.0 == visual_span_spec(visual_tail, head, max_offset).0,
        r.1 == visual_span_spec(visual_tail, head, max_offset).1,
{
    let (start, end) = if visual_tail > head {
        (head, visual_tail)
    } else {
        (visual_tail, head)
    };
    let end = if end < max_offset {
        end + 1
    } else {
        end
    };
    (start, end)
}

/// The visual tail of the `i`-th selection: the one recorded for it, or
/// offset 1 when fewer were recorded.
pub fn visual_tail_at(tails: &[usize], i: usize) -> (r: usize)
    ensures
        r == if i < tails@.len() {
            tails@[i as int]
        } else {
            1
        },
{
    if i < tails.len() {
        tails[i]
    } else {
        1
    }
}

/// The end of a linewise visual selection: the end of the last line, and
/// its newline too when the operator takes it and there is one.
pub fn linewise_visual_end(line_end: usize, max_offset: usize, include_newline: bool) -> (r: usize)
    ensures
        r == if include_newline && line_end < max_offset {
            line_end + 1
        } else {
            line_end as int
        },
{
    if include_newline && line_end < max_offset {
        line_end + 1
    } else {
        line_end
    }
}

/// Every selection's head, which visual mode records as where it began.
pub fn heads_of(selections: &[SelectionOffsets]) -> (r: Vec<usize>)
    ensures
        r@.len() == selections@.len(),
        forall|i: int| 0 <= i < r@.len() ==> r@[i] == (#[trigger] selections@[i]).head,
{
    let mut r: Vec<usize> = Vec::new();
    let mut i: usize = 0;
    while i < selections.len()
        invariant
            i <= selections.len(),
            r@.len() == i,
            forall|k: int| 0 <= k < i ==> r@[k] == (#[trigger] selections@[k]).head,
        decreases selections.len() - i,
    {
        r.push(selections[i].head);
        i = i + 1;
    }
    r
}

/// A horizontal motion never leaves the buffer: stopping at the line
/// boundary it stays within the line; wrapping, the head of a cursor inside
/// the buffer stays between offset 1 and the last offset.
pub proof fn law_horizontal_stays_in_buffer(
    head: usize,
    count: u32,
    forward: bool,
    column: u32,
    line_len: u32,
    max_offset: usize,
)
    requires
        1 <= head <= max_offset,
    ensures
        1 <= horizontal_head_spec(head, count, forward, false, column, line_len, max_offset) <= max_offset,
        column <= line_len ==> head - column <= horizontal_head_spec(head, count, forward, true, column, line_len, max_offset)
            <= head + (line_len - column),
        horizontal_head_spec(head, 0, forward, false, column, line_len, max_offset) == head,
{
}


/// A replacement as plain values: start, end and text.
pub type EditView = (int, int, Seq<char>);

/// A one-based replacement turned zero-based, its end not before its start.
pub open spec fn zero_based_edit(e: (usize, usize, String)) -> EditView {
    let start: int = if e.0 == 0 {
        0
    } else {
        e.0 - 1
    };
    let end: int = if e.1 == 0 {
        0
    } else {
        e.1 - 1
    };
    (start, if end < start {
        start
    } else {
        end
    }, e.2@)
}

/// Where an edit goes among edits sorted by start: after every edit that
/// starts at or before it, so edits with one start keep their order.
pub open spec fn start_position(sorted: Seq<EditView>, e: EditView) -> int
    decreases sorted.len(),
{
    if sorted.len() == 0 {
        0
    } else if e.0 < sorted[0].0 {
        0
    } else {
        1 + start_position(sorted.drop_first(), e)
    }
}

/// The edits sorted by start, stably.
pub open spec fn sorted_by_start(edits: Seq<EditView>) -> Seq<EditView>
    decreases edits.len(),
{
    if edits.len() == 0 {
        Seq::empty()
    } else {
        let rest = sorted_by_start(edits.drop_last());
        rest.insert(start_position(rest, edits.last()), edits.last())
    }
}

/// The order the plain editor applies vim's replacements in: turned
/// zero-based, sorted by start, and then taken from the last to the first,
/// so that no edit moves the text of one still to come.
pub open spec fn replace_order_spec(edits: Seq<(usize, usize, String)>) -> Seq<EditView> {
    sorted_by_start(edits.map_values(|e: (usize, usize, String)| zero_based_edit(e))).reverse()
}

pub open spec fn edit_views(v: Seq<(usize, usize, String)>) -> Seq<EditView> {
    v.map_values(|e: (usize, usize, String)| (e.0 as int, e.1 as int, e.2@))
}

proof fn lemma_start_position_bounds(sorted: Seq<EditView>, e: EditView)
    ensures
        0 <= start_position(sorted, e) <= sorted.len(),
    decreases sorted.len(),
{
    if sorted.len() > 0 && !(e.0 < sorted[0].0) {
        lemma_start_position_bounds(sorted.drop_first(), e);
    }
}

fn insert_by_start(v: &mut Vec<(usize, usize, String)>, e: (usize, usize, String))
    ensures
        edit_views(final(v)@) == edit_views(old(v)@).insert(
            start_position(edit_views(old(v)@), (e.0 as int, e.1 as int, e.2@)),
            (e.0 as int, e.1 as int, e.2@),
        ),
{
    let ghost s = edit_views(v@);
    let ghost ev: EditView = (e.0 as int, e.1 as int, e.2@);
    let mut k: usize = 0;
    assert(s.skip(0) =~= s);
    while k < v.len()
        invariant
            k <= v.len(),
            s == edit_views(v@),
            ev == (e.0 as int, e.1 as int, e.2@),
            start_position(s, ev) == k + start_position(s.skip(k as int), ev),
        ensures
            k <= v.len(),
            start_position(s, ev) == k,
        decreases v.len() - k,
    {
        proof {
            assert(s.skip(k as int).drop_first() =~= s.skip(k + 1));
            assert(s.skip(k as int)[0] == s[k as int]);
        }
        if e.0 < v[k].0 {
            break;
        }
        k = k + 1;
    }
    proof {
        lemma_start_position_bounds(s, ev);
    }
    v.insert(k, e);
    assert(edit_views(v@) =~= s.insert(k as int, ev));
}

/// The replacements in the order they are applied (see
/// [`replace_order_spec`]).
pub fn replace_order(edits: &[(usize, usize, String)]) -> (r: Vec<(usize, usize, String)>)
    ensures
        edit_views(r@) == replace_order_spec(edits@),
{
    let ghost conv = edits@.map_values(|e: (usize, usize, String)| zero_based_edit(e));
    let mut sorted: Vec<(usize, usize, String)> = Vec::new();
    let mut i: usize = 0;
    assert(edit_views(sorted@) =~= sorted_by_start(conv.take(0)));
    while i < edits.len()
        invariant
            i <= edits.len(),
            conv == edits@.map_values(|e: (usize, usize, String)| zero_based_edit(e)),
            edit_views(sorted@) == sorted_by_start(conv.take(i as int)),
        decreases edits.len() - i,
    {
        let start = to_zero_based(edits[i].0);
        let end = to_zero_based(edits[i].1);
        let end = if end < start {
            start
        } else {
            end
        };
        let e = (start, end, edits[i].2.clone());
        proof {
            assert(conv.take(i + 1).drop_last() =~= conv.take(i as int));
            assert(conv.take(i + 1).last() == conv[i as int]);
            assert(conv[i as int] == (e.0 as int, e.1 as int, e.2@));
        }
        insert_by_start(&mut sorted, e);
        i = i + 1;
    }
    assert(conv.take(edits.len() as int) =~= conv);
    let ghost all = edit_views(sorted@);
    let mut r: Vec<(usize, usize, String)> = Vec::new();
    while sorted.len() > 0
        invariant
            all.len() == sorted@.len() + r@.len(),
            edit_views(sorted@) == all.take(sorted@.len() as int),
            forall|k: int| 0 <= k < r@.len() ==> edit_views(r@)[k] == #[trigger] all[all.len() - 1 - k],
        decreases sorted.len(),
    {
        let ghost n = sorted@.len();
        let ghost before = sorted@;
        let x = sorted.pop().unwrap();
        proof {
            assert(before == sorted@.push(x));
            assert(edit_views(before)[n - 1] == all.take(n as int)[n - 1]);
            assert(edit_views(sorted@) =~= all.take(n - 1));
            assert(all[n - 1] == (x.0 as int, x.1 as int, x.2@));
        }
        r.push(x);
    }
    assert(edit_views(r@) =~= all.reverse());
    r
}

/// Replacements are applied from the end of the buffer towards its start,
/// each over a range that does not end before it starts.
pub proof fn law_replacements_run_backwards(edits: Seq<(usize, usize, String)>)
    ensures
        forall|i: int, j: int|
            0 <= i < j < replace_order_spec(edits).len() ==> #[trigger] replace_order_spec(edits)[i].0
                >= #[trigger] replace_order_spec(edits)[j].0,
        forall|i: int|
            0 <= i < replace_order_spec(edits).len() ==> #[trigger] replace_order_spec(edits)[i].0
                <= replace_order_spec(edits)[i].1,
        replace_order_spec(edits).len() == edits.len(),
{
    let conv = edits.map_values(|e: (usize, usize, String)| zero_based_edit(e));
    lemma_sorted_by_start(conv);
    let s = sorted_by_start(conv);
    assert forall|i: int, j: int|
        0 <= i < j < s.reverse().len() implies #[trigger] s.reverse()[i].0 >= #[trigger] s.reverse()[j].0 by {
        assert(s.reverse()[i] == s[s.len() - 1 - i]);
        assert(s.reverse()[j] == s[s.len() - 1 - j]);
    }
    assert forall|i: int| 0 <= i < s.reverse().len() implies #[trigger] s.reverse()[i].0 <= s.reverse()[i].1 by {
        assert(s.reverse()[i] == s[s.len() - 1 - i]);
    }
}

proof fn lemma_sorted_by_start(edits: Seq<EditView>)
    requires
        forall|i: int| 0 <= i < edits.len() ==> (#[trigger] edits[i]).0 <= edits[i].1,
    ensures
        sorted_by_start(edits).len() == edits.len(),
        forall|i: int, j: int|
            0 <= i < j < sorted_by_start(edits).len() ==> #[trigger] sorted_by_start(edits)[i].0
                <= #[trigger] sorted_by_start(edits)[j].0,
        forall|i: int|
            0 <= i < sorted_by_start(edits).len() ==> #[trigger] sorted_by_start(edits)[i].0
                <= sorted_by_start(edits)[i].1,
    decreases edits.len(),
{
    if edits.len() > 0 {
        let init = edits.drop_last();
        lemma_sorted_by_start(init);
        let rest = sorted_by_start(init);
        let e = edits.last();
        lemma_start_position_bounds(rest, e);
        lemma_start_position_facts(rest, e);
        let p = start_position(rest, e);
        let t = rest.insert(p, e);
        assert forall|i: int, j: int| 0 <= i < j < t.len() implies #[trigger] t[i].0 <= #[trigger] t[j].0 by {
            if j < p {
                assert(t[i] == rest[i] && t[j] == rest[j]);
            } else if j == p {
                assert(t[i] == rest[i]);
            } else if i < p {
                assert(t[i] == rest[i] && t[j] == rest[j - 1]);
            } else if i == p {
                assert(t[j] == rest[j - 1]);
                assert(rest[p].0 <= rest[j - 1].0);
            } else {
                assert(t[i] == rest[i - 1] && t[j] == rest[j - 1]);
            }
        }
        assert forall|i: int| 0 <= i < t.len() implies #[trigger] t[i].0 <= t[i].1 by {
            if i < p {
                assert(t[i] == rest[i]);
            } else if i > p {
                assert(t[i] == rest[i - 1]);
            }
        }
    }
}

proof fn lemma_start_position_facts(sorted: Seq<EditView>, e: EditView)
    ensures
        forall|k: int| 0 <= k < start_position(sorted, e) ==> (#[trigger] sorted[k]).0 <= e.0,
        start_position(sorted, e) < sorted.len() ==> e.0 < sorted[start_position(sorted, e)].0,
    decreases sorted.len(),
{
    lemma_start_position_bounds(sorted, e);
    if sorted.len() > 0 && !(e.0 < sorted[0].0) {
        let tail = sorted.drop_first();
        lemma_start_position_facts(tail, e);
        lemma_start_position_bounds(tail, e);
        assert forall|k: int| 0 <= k < start_position(sorted, e) implies (#[trigger] sorted[k]).0 <= e.0 by {
            if k > 0 {
                assert(sorted[k] == tail[k - 1]);
            }
        }
        let p = start_position(sorted, e);
        if p < sorted.len() {
            assert(sorted[p] == tail[p - 1]);
        }
    }
}


/// The vim operators the editors tell apart.
#[derive(Debug, Clone, Copy, PartialEq, Eq, Structural)]
pub enum VimOperator {
    Delete,
    Change,
    Yank,
    ToggleCase,
    Uppercase,
    Lowercase,
    Indent,
    Dedent,
}

/// The plain editor edits text and case, but leaves indentation to its own
/// commands.
pub fn editor_supports_operator(operator: VimOperator) -> (r: bool)
    ensures
        r == !(operator == VimOperator::Indent || operator == VimOperator::Dedent),
{
    match operator {
        VimOperator::Delete | VimOperator::Change | VimOperator::Yank | VimOperator::ToggleCase
        | VimOperator::Uppercase | VimOperator::Lowercase => true,
        VimOperator::Indent | VimOperator::Dedent => false,
    }
}

/// The notebook editor supports every operator, indentation included.
pub fn notebook_supports_operator(operator: VimOperator) -> (r: bool)
    ensures
        r,
{
    match operator {
        VimOperator::Delete | VimOperator::Change | VimOperator::Yank | VimOperator::ToggleCase
        | VimOperator::Uppercase | VimOperator::Lowercase | VimOperator::Indent | VimOperator::Dedent => true,
    }
}


/// The character motions: by one character on the line, across lines, or
/// by one line.
#[derive(Debug, Clone, Copy, PartialEq, Eq, Structural)]
pub enum CharacterMotion {
    Right,
    Left,
    WrappingRight,
    WrappingLeft,
    Up,
    Down,
}

/// How the notebook editor carries out a character motion.
#[derive(Debug, Clone, Copy, PartialEq, Eq, Structural)]
pub enum CharacterStep {
    /// [`move_horizontal`] with these arguments.
    Horizontal { forward: bool, stop_at_line_boundary: bool },
    /// [`vertical_target_row`] in this direction.
    Vertical { forwards: bool },
}

/// Right and left stay on the line; their wrapping forms cross lines; up
/// and down move vertically.
pub fn character_step(motion: CharacterMotion) -> (r: CharacterStep)
    ensures
        r == match motion {
            CharacterMotion::Right => CharacterStep::Horizontal { forward: true, stop_at_line_boundary: true },
            CharacterMotion::Left => CharacterStep::Horizontal { forward: false, stop_at_line_boundary: true },
            CharacterMotion::WrappingRight => CharacterStep::Horizontal { forward: true, stop_at_line_boundary: false },
            CharacterMotion::WrappingLeft => CharacterStep::Horizontal { forward: false, stop_at_line_boundary: false },
            CharacterMotion::Up => CharacterStep::Vertical { forwards: false },
            CharacterMotion::Down => CharacterStep::Vertical { forwards: true },
        },
{
    match motion {
        CharacterMotion::Right => CharacterStep::Horizontal { forward: true, stop_at_line_boundary: true },
        CharacterMotion::Left => CharacterStep::Horizontal { forward: false, stop_at_line_boundary: true },
        CharacterMotion::WrappingRight => CharacterStep::Horizontal { forward: true, stop_at_line_boundary: false },
        CharacterMotion::WrappingLeft => CharacterStep::Horizontal { forward: false, stop_at_line_boundary: false },
        CharacterMotion::Up => CharacterStep::Vertical { forwards: false },
        CharacterMotion::Down => CharacterStep::Vertical { forwards: true },
    }
}

/// Where insert mode starts.
#[derive(Debug, Clone, Copy, PartialEq, Eq, Structural)]
pub enum InsertPosition {
    AtCursor,
    AfterCursor,
    LineFirstNonWhitespace,
    LineEnd,
    LineAbove,
    LineBelow,
}

/// What the notebook editor does before inserting.
#[derive(Debug, Clone, Copy, PartialEq, Eq, Structural)]
pub enum InsertStep {
    /// One character right, staying on the line.
    MoveRight,
    /// To the first non-whitespace character of the line.
    FirstNonWhitespace,
    /// To the end of the line.
    LineEnd,
    /// To the start of the line, then insert a newline, opening a line
    /// above.
    OpenLineAbove,
    /// Insert a newline, opening a line below.
    OpenLineBelow,
}

/// The step before inserting at `position`; none at the cursor.
pub fn insert_step(position: InsertPosition) -> (r: Option<InsertStep>)
    ensures
        r == match position {
            InsertPosition::AtCursor => None,
            InsertPosition::AfterCursor => Some(InsertStep::MoveRight),
            InsertPosition::LineFirstNonWhitespace => Some(InsertStep::FirstNonWhitespace),
            InsertPosition::LineEnd => Some(InsertStep::LineEnd),
            InsertPosition::LineAbove => Some(InsertStep::OpenLineAbove),
            InsertPosition::LineBelow => Some(InsertStep::OpenLineBelow),
        },
{
    match position {
        InsertPosition::AtCursor => None,
        InsertPosition::AfterCursor => Some(InsertStep::MoveRight),
        InsertPosition::LineFirstNonWhitespace => Some(InsertStep::FirstNonWhitespace),
        InsertPosition::LineEnd => Some(InsertStep::LineEnd),
        InsertPosition::LineAbove => Some(InsertStep::OpenLineAbove),
        InsertPosition::LineBelow => Some(InsertStep::OpenLineBelow),
    }
}

/// The steps of a cursor motion outside an operator: those of
/// [`motion_steps`], taken without keeping the selection.
pub fn navigation_steps(motion: MotionKind, count: u32) -> (r: Vec<SelectStep>)
    ensures
        r@ == motion_steps(motion, count),
{
    let mut steps: Vec<SelectStep> = Vec::new();
    push_motion_steps(&mut steps, motion, count);
    assert(steps@ =~= motion_steps(motion, count));
    steps
}

} // verus!
