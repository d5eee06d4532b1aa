//! What an open picker shows: its title with the highlighted position, the rows
//! of its five-row window with their marks and numbers, and the fixed labels of
//! its rows.

use vstd::prelude::*;
use crate::picker::{PickerKind, MAX_PICKER_ROWS};
use crate::text::{chars_of, decimal, decimal_string, push_char, push_decimal, push_str};

verus! {

/// How many rows the window shows: every row, between one and five.
pub open spec fn spec_visible_rows(item_count: int) -> int {
    if item_count < 1 {
        1
    } else if item_count > MAX_PICKER_ROWS {
        MAX_PICKER_ROWS as int
    } else {
        item_count
    }
}

/// The first row shown: the window's start, kept far enough from the end to fill
/// the window.
pub open spec fn spec_first_visible(item_count: int, window_start: int) -> int {
    let last_start = if item_count >= spec_visible_rows(item_count) {
        item_count - spec_visible_rows(item_count)
    } else {
        0
    };
    if window_start < last_start {
        window_start
    } else {
        last_start
    }
}

/// One past the last row shown.
pub open spec fn spec_last_visible(item_count: int, window_start: int) -> int {
    let end = spec_first_visible(item_count, window_start) + spec_visible_rows(item_count);
    if end < item_count {
        end
    } else {
        item_count
    }
}

/// The mark in front of a row.
#[derive(Debug, Clone, Copy, PartialEq, Eq, Structural)]
pub enum RowMark {
    /// The highlighted row.
    Selected,
    /// The top row, with more rows above it.
    MoreAbove,
    /// The bottom row, with more rows below it.
    MoreBelow,
    Plain,
}

pub open spec fn spec_row_mark(index: int, selected: int, first: int, last: int, item_count: int) -> RowMark {
    if index == selected {
        RowMark::Selected
    } else if index == first && first > 0 {
        RowMark::MoreAbove
    } else if index + 1 == last && last < item_count {
        RowMark::MoreBelow
    } else {
        RowMark::Plain
    }
}

/// The glyph of a row mark.
pub fn row_mark_glyph(mark: RowMark) -> (g: &'static str)
    ensures
        g@ == match mark {
            RowMark::Selected => "\u{276f}"@,
            RowMark::MoreAbove => "\u{2191}"@,
            RowMark::MoreBelow => "\u{2193}"@,
            RowMark::Plain => " "@,
        },
{
    match mark {
        RowMark::Selected => "\u{276f}",
        RowMark::MoreAbove => "\u{2191}",
        RowMark::MoreBelow => "\u{2193}",
        RowMark::Plain => " ",
    }
}

/// The rows shown, top to bottom: each row's index and mark.
pub fn picker_rows(item_count: usize, selected: usize, window_start: usize) -> (rows: Vec<(usize, RowMark)>)
    ensures
        rows@.len() == spec_last_visible(item_count as int, window_start as int) - spec_first_visible(
            item_count as int,
            window_start as int,
        ),
        forall|k: int|
            0 <= k < rows@.len() ==> #[trigger] rows@[k] == ((spec_first_visible(
                item_count as int,
                window_start as int,
            ) + k) as usize, spec_row_mark(
                spec_first_visible(item_count as int, window_start as int) + k,
                selected as int,
                spec_first_visible(item_count as int, window_start as int),
                spec_last_visible(item_count as int, window_start as int),
                item_count as int,
            )),
{
    let visible: usize = if item_count < 1 {
        1
    } else if item_count > MAX_PICKER_ROWS {
        MAX_PICKER_ROWS
    } else {
        item_count
    };
    let last_start = if item_count >= visible {
        item_count - visible
    } else {
        0
    };
    let first = if window_start < last_start {
        window_start
    } else {
        last_start
    };
    let end = first + visible;
    let last = if end < item_count {
        end
    } else {
        item_count
    };
    let mut rows: Vec<(usize, RowMark)> = Vec::new();
    let mut index = first;
    while index < last
        invariant
            first <= index <= last,
            first == spec_first_visible(item_count as int, window_start as int),
            last == spec_last_visible(item_count as int, window_start as int),
            rows@.len() == index - first,
            forall|k: int|
                0 <= k < rows@.len() ==> #[trigger] rows@[k] == ((first + k) as usize, spec_row_mark(
                    first + k,
                    selected as int,
                    first as int,
                    last as int,
                    item_count as int,
                )),
        decreases last - index,
    {
        let mark = if index == selected {
            RowMark::Selected
        } else if index == first && first > 0 {
            RowMark::MoreAbove
        } else if index + 1 == last && last < item_count {
            RowMark::MoreBelow
        } else {
            RowMark::Plain
        };
        rows.push((index, mark));
        index += 1;
    }
    rows
}

/// The highlighted row's position, counting from one; zero in an empty picker.
pub open spec fn spec_picker_position(item_count: int, selected: int) -> int {
    if item_count == 0 {
        0
    } else if selected + 1 < item_count {
        selected + 1
    } else {
        item_count
    }
}

pub fn picker_position(item_count: usize, selected: usize) -> (p: usize)
    ensures
        p == spec_picker_position(item_count as int, selected as int),
{
    if item_count == 0 {
        0
    } else {
        let next = selected.saturating_add(1);
        if next < item_count {
            next
        } else {
            item_count
        }
    }
}

/// "(position of count):"
pub open spec fn position_suffix(item_count: int, selected: int) -> Seq<char> {
    " ("@ + decimal(spec_picker_position(item_count, selected) as nat) + " of "@ + decimal(
        item_count as nat,
    ) + "):"@
}

/// `value`, or `fallback` without one.
pub open spec fn or_default(value: Option<Seq<char>>, fallback: Seq<char>) -> Seq<char> {
    match value {
        Some(v) => v,
        None => fallback,
    }
}

/// The picker's title: the position is shown for sessions and models, and for
/// tools and skills once they outgrow the window; an approval names the request's
/// category and tool.
pub open spec fn spec_picker_title(
    kind: PickerKind,
    item_count: int,
    selected: int,
    category: Option<Seq<char>>,
    tool_name: Option<Seq<char>>,
) -> Seq<char> {
    match kind {
        PickerKind::Sessions => "Select a session to resume"@ + position_suffix(item_count, selected),
        PickerKind::Models => "Select a model"@ + position_suffix(item_count, selected),
        PickerKind::Tools => if item_count > MAX_PICKER_ROWS {
            "Select tools"@ + position_suffix(item_count, selected)
        } else {
            "Select tools:"@
        },
        PickerKind::Skills => if item_count > MAX_PICKER_ROWS {
            "Select skills"@ + position_suffix(item_count, selected)
        } else {
            "Select skills:"@
        },
        PickerKind::Approval => or_default(category, "Tool"@) + " approval required for "@
            + or_default(tool_name, "request"@),
    }
}

fn push_position_suffix(title: &mut String, item_count: usize, selected: usize)
    ensures
        final(title)@ == old(title)@ + position_suffix(item_count as int, selected as int),
{
    push_str(title, " (");
    push_decimal(title, picker_position(item_count, selected) as u64);
    push_str(title, " of ");
    push_decimal(title, item_count as u64);
    push_str(title, "):");
}

/// The title of the open picker (see `spec_picker_title`); `category` and
/// `tool_name` describe the pending approval, when there is one.
pub fn picker_title(
    kind: PickerKind,
    item_count: usize,
    selected: usize,
    category: Option<&str>,
    tool_name: Option<&str>,
) -> (title: String)
    ensures
        title@ == spec_picker_title(
            kind,
            item_count as int,
            selected as int,
            match category {
                Some(c) => Some(c@),
                None => None,
            },
            match tool_name {
                Some(t) => Some(t@),
                None => None,
            },
        ),
{
    let mut title = String::new();
    match kind {
        PickerKind::Sessions => {
            push_str(&mut title, "Select a session to resume");
            push_position_suffix(&mut title, item_count, selected);
        },
        PickerKind::Models => {
            push_str(&mut title, "Select a model");
            push_position_suffix(&mut title, item_count, selected);
        },
        PickerKind::Tools => {
            if item_count > MAX_PICKER_ROWS {
                push_str(&mut title, "Select tools");
                push_position_suffix(&mut title, item_count, selected);
            } else {
                push_str(&mut title, "Select tools:");
            }
        },
        PickerKind::Skills => {
            if item_count > MAX_PICKER_ROWS {
                push_str(&mut title, "Select skills");
                push_position_suffix(&mut title, item_count, selected);
            } else {
                push_str(&mut title, "Select skills:");
            }
        },
        PickerKind::Approval => {
            match category {
                Some(c) => push_str(&mut title, c),
                None => push_str(&mut title, "Tool"),
            }
            push_str(&mut title, " approval required for ");
            match tool_name {
                Some(t) => push_str(&mut title, t),
                None => push_str(&mut title, "request"),
            }
        },
    }
    title
}

/// `s` with spaces in front up to `width` characters.
pub open spec fn pad_left(s: Seq<char>, width: int) -> Seq<char> {
    if s.len() >= width {
        s
    } else {
        Seq::new((width - s.len()) as nat, |i: int| ' ') + s
    }
}

/// The width of the row numbers: the digits of the row count (at least one row).
pub open spec fn number_width(item_count: int) -> int {
    decimal(if item_count < 1 {
        1nat
    } else {
        item_count as nat
    }).len() as int
}

/// A row's number, counting from one, right-aligned to the widest number and
/// followed by a dot.
pub fn row_number_label(index: usize, item_count: usize) -> (label: String)
    requires
        index < item_count,
    ensures
        label@ == pad_left(decimal((index + 1) as nat), number_width(item_count as int)) + "."@,
{
    let width = chars_of(decimal_string(if item_count < 1 {
        1
    } else {
        item_count as u64
    }).as_str()).len();
    let number = chars_of(decimal_string((index + 1) as u64).as_str());
    let mut label = String::new();
    let mut pad: usize = 0;
    let gap = if number.len() >= width {
        0
    } else {
        width - number.len()
    };
    while pad < gap
        invariant
            pad <= gap,
            label@ == Seq::new(pad as nat, |i: int| ' '),
        decreases gap - pad,
    {
        push_char(&mut label, ' ');
        pad += 1;
        assert(label@ =~= Seq::new(pad as nat, |i: int| ' '));
    }
    let mut i: usize = 0;
    let ghost spaces = label@;
    while i < number.len()
        invariant
            i <= number@.len(),
            label@ == spaces + number@.take(i as int),
        decreases number.len() - i,
    {
        push_char(&mut label, number[i]);
        i += 1;
        assert(label@ =~= spaces + number@.take(i as int));
    }
    assert(number@.take(number@.len() as int) =~= number@);
    push_char(&mut label, '.');
    proof {
        if number@.len() >= width {
            assert(spaces =~= Seq::<char>::empty());
        }
        assert(label@ =~= pad_left(decimal((index + 1) as nat), number_width(item_count as int))
            + "."@) by {
            reveal_strlit(".");
        }
    }
    label
}

/// How far the session list's column header is indented: past the mark, the gap
/// and the row number.
pub fn session_header_indent(item_count: usize) -> (n: usize)
    ensures
        n == 6 + number_width(item_count as int),
{
    let width = chars_of(decimal_string(if item_count < 1 {
        1
    } else {
        item_count as u64
    }).as_str()).len();
    assert(width <= 20) by {
        crate::text::lemma_decimal_len_bound(if item_count < 1 { 1nat } else { item_count as nat });
    }
    6 + width
}

/// The check box in front of a tool or skill row.
pub fn checkbox(checked: bool) -> (b: &'static str)
    ensures
        b@ == if checked {
            "[\u{2713}]"@
        } else {
            "[ ]"@
        },
{
    if checked {
        "[\u{2713}]"
    } else {
        "[ ]"
    }
}

/// The label of an approval picker row.
pub fn approval_choice_label(index: usize) -> (label: &'static str)
    ensures
        label@ == if index == 0 {
            "Allow once"@
        } else if index == 1 {
            "Deny"@
        } else if index == 2 {
            "Trust for this session"@
        } else {
            ""@
        },
{
    if index == 0 {
        "Allow once"
    } else if index == 1 {
        "Deny"
    } else if index == 2 {
        "Trust for this session"
    } else {
        ""
    }
}

/// The window shows every row of a short picker and five of a long one, and never
/// reaches past the last row.
pub proof fn law_the_window_shows_up_to_five_rows(item_count: nat, window_start: nat)
    ensures
        ({
            let first = spec_first_visible(item_count as int, window_start as int);
            let last = spec_last_visible(item_count as int, window_start as int);
            &&& 0 <= first <= last <= item_count
            &&& last - first == if item_count < MAX_PICKER_ROWS {
                item_count as int
            } else {
                MAX_PICKER_ROWS as int
            }
        }),
{
}

/// Of the rows shown, exactly the highlighted one carries the highlight mark, and
/// the arrows appear only where rows are hidden above or below.
pub proof fn law_marks_tell_the_truth(item_count: nat, selected: nat, window_start: nat, index: int)
    requires
        spec_first_visible(item_count as int, window_start as int) <= index < spec_last_visible(
            item_count as int,
            window_start as int,
        ),
    ensures
        ({
            let first = spec_first_visible(item_count as int, window_start as int);
            let last = spec_last_visible(item_count as int, window_start as int);
            let mark = spec_row_mark(index, selected as int, first, last, item_count as int);
            &&& (mark == RowMark::Selected <==> index == selected)
            &&& (mark == RowMark::MoreAbove ==> first > 0 && index == first)
            &&& (mark == RowMark::MoreBelow ==> last < item_count && index == last - 1)
        }),
{
}

/// Wherever the highlight moves, the window it scrolls to shows it.
pub proof fn law_the_highlighted_row_is_drawn(item_count: nat, selected: nat, previous: nat, window_start: nat)
    requires
        selected < item_count,
    ensures
        ({
            let start = crate::picker::spec_adjusted_window(
                selected as int,
                previous as int,
                window_start as int,
                MAX_PICKER_ROWS as int,
            );
            spec_first_visible(item_count as int, start) <= selected < spec_last_visible(
                item_count as int,
                start,
            )
        }),
{
}

} // verus!
