//! Soft-wrapping of the prompt input: each logical line is cut into rows of
//! terminal cells after a two-cell marker, and the row that holds the cursor is
//! found. The drawing of rows (styles, the reversed cursor cell) is left to the
//! caller; this module says what text goes where.

use vstd::prelude::*;
use crate::layout::{
    display_width, extended_graphemes, flatten, graphemes_of, input_grapheme_width,
    grapheme_input_width, sat_add, saturated_display_width, unicode_str_width,
    unicode_width_of, widths_sum,
};
use crate::text::{
    char_index, char_index_at, chars_of, copy_range, on_char_boundary, push_char, string_from_chars,
    string_views,
};

verus! {

/// Joining the clusters before and after index `i` gives all of them.
pub proof fn lemma_flatten_split(gs: Seq<Seq<char>>, i: int)
    requires
        0 <= i <= gs.len(),
    ensures
        flatten(gs) == flatten(gs.take(i)) + flatten(gs.skip(i)),
    decreases gs.len(),
{
    if i == gs.len() {
        assert(gs.take(i) == gs);
        assert(gs.skip(i) == Seq::<Seq<char>>::empty());
        assert(flatten(gs) + Seq::<char>::empty() == flatten(gs));
    } else {
        let front = gs.drop_last();
        lemma_flatten_split(front, i);
        assert(gs.take(i) == front.take(i));
        assert(gs.skip(i).drop_last() == front.skip(i));
        assert(gs.skip(i).last() == gs.last());
        assert(flatten(gs.skip(i)) == flatten(front.skip(i)) + gs.last());
        assert(flatten(gs) == flatten(front) + gs.last());
        assert(flatten(front.take(i)) + flatten(front.skip(i)) + gs.last() == flatten(front.take(i))
            + (flatten(front.skip(i)) + gs.last()));
    }
}

/// The first cluster followed by the rest.
pub proof fn lemma_flatten_first(gs: Seq<Seq<char>>)
    requires
        gs.len() > 0,
    ensures
        flatten(gs) == gs[0] + flatten(gs.drop_first()),
{
    lemma_flatten_split(gs, 1);
    assert(gs.take(1).drop_last() == Seq::<Seq<char>>::empty());
    assert(gs.take(1).last() == gs[0]);
    assert(flatten(Seq::<Seq<char>>::empty()) == Seq::<char>::empty());
    assert(flatten(gs.take(1)) == Seq::<char>::empty() + gs[0]);
    assert(Seq::<char>::empty() + gs[0] == gs[0]);
    assert(gs.skip(1) == gs.drop_first());
}

/// How many characters of the clusters `gs` fill one row of `width` cells: clusters
/// are taken while they fit (the first always), and the row closes once it is full.
pub open spec fn segment_chars_from(gs: Seq<Seq<char>>, width: int, used: int, end: int) -> int
    decreases gs.len(),
{
    if gs.len() == 0 {
        end
    } else {
        let w = input_grapheme_width(gs[0]);
        if end != 0 && sat_add(used, w) > width {
            end
        } else {
            let end2 = end + gs[0].len();
            let used2 = sat_add(used, w);
            if used2 >= width {
                end2
            } else {
                segment_chars_from(gs.drop_first(), width, used2, end2)
            }
        }
    }
}

proof fn lemma_segment_chars_bounds(gs: Seq<Seq<char>>, width: int, used: int, end: int)
    requires
        end >= 0,
    ensures
        end <= segment_chars_from(gs, width, used, end) <= end + flatten(gs).len(),
        gs.len() > 0 && end == 0 ==> segment_chars_from(gs, width, used, end) >= gs[0].len(),
    decreases gs.len(),
{
    if gs.len() > 0 {
        lemma_flatten_first(gs);
        let w = input_grapheme_width(gs[0]);
        lemma_segment_chars_bounds(gs.drop_first(), width, sat_add(used, w), end + gs[0].len());
    }
}

/// How many leading characters of `cs` make one row of `width` cells.
fn segment_chars(cs: &[char], width: usize) -> (n: usize)
    ensures
        n == segment_chars_from(extended_graphemes(cs@), width as int, 0, 0),
        n <= cs@.len(),
        cs@.len() > 0 ==> n > 0,
{
    let total: usize = cs.len();
    let s = string_from_chars(cs);
    let gs = graphemes_of(s.as_str());
    let ghost views = string_views(gs@);
    proof {
        lemma_segment_chars_bounds(views, width as int, 0, 0);
        if cs@.len() > 0 && views.len() == 0 {
            assert(flatten(views) == Seq::<char>::empty());
        }
    }
    let mut used: usize = 0;
    let mut end: usize = 0;
    let mut i: usize = 0;
    assert(views.skip(0) == views);
    assert(views.take(0) == Seq::<Seq<char>>::empty());
    while i < gs.len()
        invariant
            i <= gs@.len(),
            views == string_views(gs@),
            views == extended_graphemes(cs@),
            flatten(views) == cs@,
            total == cs@.len(),
            forall|j: int| 0 <= j < gs@.len() ==> (#[trigger] gs@[j])@.len() > 0,
            end == flatten(views.take(i as int)).len(),
            segment_chars_from(views.skip(i as int), width as int, used as int, end as int)
                == segment_chars_from(views, width as int, 0, 0),
        decreases gs@.len() - i,
    {
        proof {
            lemma_flatten_split(views, i as int);
        }
        let w = grapheme_input_width(&gs[i]);
        let ghost rest = views.skip(i as int);
        assert(rest[0] == gs@[i as int]@);
        let next_used = used.saturating_add(w);
        assert(next_used == sat_add(used as int, w as int));
        if end != 0 && next_used > width {
            return end;
        }
        let glen = chars_of(gs[i].as_str()).len();
        proof {
            assert(views.take(i + 1).drop_last() == views.take(i as int));
            assert(views.take(i + 1).last() == views[i as int]);
            lemma_flatten_split(views, i + 1);
            assert(views[i as int] == gs@[i as int]@);
            assert(glen == views[i as int].len());
            assert(flatten(views.take(i + 1)) == flatten(views.take(i as int)) + views[i as int]);
            assert(flatten(views.take(i + 1)).len() <= cs@.len());
        }
        let next_end = end + glen;
        if next_used >= width {
            return next_end;
        }
        end = next_end;
        used = next_used;
        assert(views.skip(i as int).drop_first() == views.skip(i + 1));
        i += 1;
    }
    end
}

/// The text drawn at and around the cursor inside a row: the characters before it,
/// the one reversed cell, and what follows.
pub struct CursorCells {
    pub before: String,
    pub cell: String,
    pub after: String,
}

/// The cursor cell is the cluster under the cursor; a blank is drawn in its place at
/// the end of the row or before a zero-width cluster, which then follows unchanged.
pub open spec fn spec_cursor_cells(segment: Seq<char>, cursor: int) -> (Seq<char>, Seq<char>, Seq<char>) {
    let rest = segment.skip(cursor);
    let gs = extended_graphemes(rest);
    if gs.len() == 0 {
        (segment.take(cursor), seq![' '], Seq::<char>::empty())
    } else if unicode_str_width(gs[0]) == 0 {
        (segment.take(cursor), seq![' '], rest)
    } else {
        (segment.take(cursor), gs[0], rest.skip(gs[0].len() as int))
    }
}

/// Splits a row's text at the cursor (a character offset into the row).
pub fn cursor_cells(segment: &str, cursor: usize) -> (r: CursorCells)
    requires
        cursor <= segment@.len(),
    ensures
        (r.before@, r.cell@, r.after@) == spec_cursor_cells(segment@, cursor as int),
        r.before@ + r.cell@ + r.after@ == segment@ || (r.cell@ == seq![' '] && r.before@ + r.after@
            == segment@),
{
    let cs = chars_of(segment);
    let before_chars = copy_range(cs.as_slice(), 0, cursor);
    let rest_chars = copy_range(cs.as_slice(), cursor, cs.len());
    let before = string_from_chars(before_chars.as_slice());
    let rest = string_from_chars(rest_chars.as_slice());
    let gs = graphemes_of(rest.as_str());
    let ghost views = string_views(gs@);
    assert(cs@.subrange(0, cursor as int) == segment@.take(cursor as int));
    assert(cs@.subrange(cursor as int, cs@.len() as int) == segment@.skip(cursor as int));
    assert(segment@ == segment@.take(cursor as int) + segment@.skip(cursor as int));
    let mut blank = String::new();
    push_char(&mut blank, ' ');
    if gs.len() == 0 {
        assert(flatten(views) == Seq::<char>::empty());
        assert(segment@.take(cursor as int) + Seq::<char>::empty() == segment@.take(cursor as int));
        return CursorCells { before, cell: blank, after: String::new() };
    }
    assert(views[0] == gs@[0]@);
    if unicode_width_of(gs[0].as_str()) == 0 {
        return CursorCells { before, cell: blank, after: rest };
    }
    proof {
        lemma_flatten_first(views);
        assert(rest@.skip(views[0].len() as int) == flatten(views.drop_first()));
    }
    let first_len = chars_of(gs[0].as_str()).len();
    let after_chars = copy_range(rest_chars.as_slice(), first_len, rest_chars.len());
    let after = string_from_chars(after_chars.as_slice());
    assert(after_chars@ == rest@.skip(views[0].len() as int));
    let cell = string_from_chars(chars_of(gs[0].as_str()).as_slice());
    assert(before@ + cell@ + after@ == before@ + (cell@ + after@));
    CursorCells { before, cell, after }
}

/// One wrapped row of the input: whether it carries the prompt marker (the first
/// row does), its text, and where the cursor sits in it (a character offset), if it
/// does.
pub struct InputRow {
    pub first: bool,
    pub segment: String,
    pub cursor: Option<usize>,
}

/// The wrapped input: its rows, and the row that holds the cursor.
pub struct WrappedInput {
    pub rows: Vec<InputRow>,
    pub cursor_row: usize,
}

pub open spec fn row_view(r: InputRow) -> (bool, Seq<char>, Option<usize>) {
    (r.first, r.segment@, r.cursor)
}

pub open spec fn rows_view(rows: Seq<InputRow>) -> Seq<(bool, Seq<char>, Option<usize>)> {
    rows.map_values(|r: InputRow| row_view(r))
}

/// The rows' texts, one after the other.
pub open spec fn joined(rows: Seq<InputRow>) -> Seq<char> {
    flatten(rows.map_values(|r: InputRow| r.segment@))
}

pub open spec fn opt_int(o: Option<usize>) -> Option<int> {
    match o {
        Some(v) => Some(v as int),
        None => None,
    }
}

/// The marker in front of the first row.
pub open spec fn prompt_marker() -> Seq<char> {
    seq!['\u{276f}', ' ']
}

/// The blank marker in front of every later row.
pub open spec fn continuation_marker() -> Seq<char> {
    seq![' ', ' ']
}

pub open spec fn row_marker(first: bool) -> Seq<char> {
    if first {
        prompt_marker()
    } else {
        continuation_marker()
    }
}

/// The marker drawn in front of a row.
pub fn input_prefix(first: bool) -> (r: &'static str)
    ensures
        r@ == row_marker(first),
{
    if first {
        proof {
            reveal_strlit("\u{276f} ");
        }
        "\u{276f} "
    } else {
        proof {
            reveal_strlit("  ");
        }
        "  "
    }
}

/// The cells left for text in a row of `width` cells once its marker is drawn; at
/// least one.
pub open spec fn content_width(width: int, first: bool) -> int {
    let marker = saturated_display_width(row_marker(first));
    let w = if width >= marker {
        width - marker
    } else {
        0
    };
    if w < 1 {
        1
    } else {
        w
    }
}

fn content_width_of(width: usize, first: bool) -> (w: usize)
    ensures
        w == content_width(width as int, first),
{
    let marker = display_width(input_prefix(first));
    let w = width.saturating_sub(marker);
    if w < 1 {
        1
    } else {
        w
    }
}

/// Whether a row spanning `start..end` of a line that ends at `line_end` holds the
/// cursor: a cursor at a row's end belongs to the next row unless the line ends there.
pub open spec fn covers(cursor: int, start: int, end: int, line_end: int) -> bool {
    cursor >= start && (cursor < end || (cursor == end && end == line_end))
}

/// Wraps `text[start..line_end]` (one logical line, as character offsets) into rows
/// appended to `rows`, noting the row index of the cursor.
pub open spec fn wrap_segments(
    text: Seq<char>,
    start: int,
    line_end: int,
    cursor: int,
    width: int,
    rows: Seq<(bool, Seq<char>, Option<usize>)>,
    cursor_row: Option<int>,
) -> (Seq<(bool, Seq<char>, Option<usize>)>, Option<int>)
    decreases line_end - start,
{
    let first = rows.len() == 0;
    let end = start + segment_chars_from(
        extended_graphemes(text.subrange(start, line_end)),
        content_width(width, first),
        0,
        0,
    );
    let here = covers(cursor, start, end, line_end);
    let rows2 = rows.push(
        (
            first,
            text.subrange(start, end),
            if here {
                Some((cursor - start) as usize)
            } else {
                None
            },
        ),
    );
    let cursor_row2 = if here {
        Some(rows.len() as int)
    } else {
        cursor_row
    };
    if end == line_end || end <= start || end > line_end {
        (rows2, cursor_row2)
    } else {
        wrap_segments(text, end, line_end, cursor, width, rows2, cursor_row2)
    }
}

proof fn lemma_push_rows(rows: Seq<InputRow>, row: InputRow)
    ensures
        rows_view(rows.push(row)) == rows_view(rows).push(row_view(row)),
        joined(rows.push(row)) == joined(rows) + row.segment@,
        rows.push(row).take(rows.len() as int) == rows,
{
    assert(rows_view(rows.push(row)) == rows_view(rows).push(row_view(row)));
    let segs = rows.map_values(|r: InputRow| r.segment@);
    let segs2 = rows.push(row).map_values(|r: InputRow| r.segment@);
    assert(segs2 == segs.push(row.segment@));
    assert(segs2.drop_last() == segs);
    assert(rows.push(row).take(rows.len() as int) == rows);
}

/// Appends the rows of `cs[line_start..line_end]` to `rows`.
fn wrap_line(
    cs: &Vec<char>,
    line_start: usize,
    line_end: usize,
    cursor: usize,
    width: usize,
    rows: &mut Vec<InputRow>,
    cursor_row: &mut Option<usize>,
)
    requires
        line_start <= line_end <= cs@.len(),
        match *old(cursor_row) {
            Some(r) => r < old(rows)@.len() && old(rows)@[r as int].cursor is Some,
            None => true,
        },
    ensures
        (rows_view(final(rows)@), opt_int(*final(cursor_row))) == wrap_segments(
            cs@,
            line_start as int,
            line_end as int,
            cursor as int,
            width as int,
            rows_view(old(rows)@),
            opt_int(*old(cursor_row)),
        ),
        joined(final(rows)@) == joined(old(rows)@) + cs@.subrange(line_start as int, line_end as int),
        final(rows)@.len() > old(rows)@.len(),
        final(rows)@.take(old(rows)@.len() as int) == old(rows)@,
        *old(cursor_row) is Some ==> *final(cursor_row) is Some,
        line_start <= cursor <= line_end ==> *final(cursor_row) is Some,
        match *final(cursor_row) {
            Some(r) => r < final(rows)@.len() && final(rows)@[r as int].cursor is Some,
            None => true,
        },
{
    let ghost target = wrap_segments(
        cs@,
        line_start as int,
        line_end as int,
        cursor as int,
        width as int,
        rows_view(old(rows)@),
        opt_int(*old(cursor_row)),
    );
    let ghost old_rows = old(rows)@;
    let mut start = line_start;
    let mut done = false;
    assert(cs@.subrange(line_start as int, line_start as int) == Seq::<char>::empty());
    assert(joined(rows@) + Seq::<char>::empty() == joined(rows@));
    assert(rows@.take(old_rows.len() as int) == old_rows);
    while !done
        invariant
            line_start <= start <= line_end <= cs@.len(),
            !done ==> wrap_segments(
                cs@,
                start as int,
                line_end as int,
                cursor as int,
                width as int,
                rows_view(rows@),
                opt_int(*cursor_row),
            ) == target,
            done ==> (rows_view(rows@), opt_int(*cursor_row)) == target,
            done ==> rows@.len() > old_rows.len(),
            done ==> start == line_end,
            joined(rows@) == joined(old_rows) + cs@.subrange(line_start as int, start as int),
            rows@.len() >= old_rows.len(),
            rows@.take(old_rows.len() as int) == old_rows,
            *old(cursor_row) is Some ==> *cursor_row is Some,
            line_start <= cursor < start ==> *cursor_row is Some,
            done ==> (line_start <= cursor <= line_end ==> *cursor_row is Some),
            match *cursor_row {
                Some(r) => r < rows@.len() && rows@[r as int].cursor is Some,
                None => true,
            },
        decreases line_end - start + if done {
            0int
        } else {
            1
        },
    {
        let first = rows.len() == 0;
        let cw = content_width_of(width, first);
        let rest = copy_range(cs.as_slice(), start, line_end);
        let n = segment_chars(rest.as_slice(), cw);
        let end = start + n;
        let here = cursor >= start && (cursor < end || (cursor == end && end == line_end));
        let seg_chars = copy_range(cs.as_slice(), start, end);
        let segment = string_from_chars(seg_chars.as_slice());
        let c = if here {
            Some(cursor - start)
        } else {
            None
        };
        let row = InputRow { first, segment, cursor: c };
        let ghost before = rows@;
        proof {
            lemma_push_rows(before, row);
            assert(cs@.subrange(line_start as int, end as int) == cs@.subrange(
                line_start as int,
                start as int,
            ) + cs@.subrange(start as int, end as int));
            assert(rows_view(before).len() == before.len());
        }
        rows.push(row);
        if here {
            *cursor_row = Some(rows.len() - 1);
        }
        proof {
            assert(rows@ == before.push(row));
            assert(rows@.take(old_rows.len() as int) == before.push(row).take(
                before.len() as int,
            ).take(old_rows.len() as int));
            assert(before.take(old_rows.len() as int) == old_rows);
        }
        if end == line_end {
            done = true;
        }
        start = end;
    }
}

/// `text` with its line breaks left out.
pub open spec fn without_line_breaks(text: Seq<char>) -> Seq<char>
    decreases text.len(),
{
    if text.len() == 0 {
        Seq::<char>::empty()
    } else if text.last() == '\n' {
        without_line_breaks(text.drop_last())
    } else {
        without_line_breaks(text.drop_last()).push(text.last())
    }
}

/// Wraps `text` from character `i` on, the current logical line having started at
/// `line_start`; each `\n` closes a line.
pub open spec fn wrap_lines(
    text: Seq<char>,
    line_start: int,
    i: int,
    cursor: int,
    width: int,
    rows: Seq<(bool, Seq<char>, Option<usize>)>,
    cursor_row: Option<int>,
) -> (Seq<(bool, Seq<char>, Option<usize>)>, Option<int>)
    decreases text.len() - i,
{
    if i >= text.len() {
        wrap_segments(text, line_start, text.len() as int, cursor, width, rows, cursor_row)
    } else if text[i] == '\n' {
        let done = wrap_segments(text, line_start, i, cursor, width, rows, cursor_row);
        wrap_lines(text, i + 1, i + 1, cursor, width, done.0, done.1)
    } else {
        wrap_lines(text, line_start, i + 1, cursor, width, rows, cursor_row)
    }
}

/// The rows of `text` wrapped at `width` cells (at least one) with the cursor at
/// character `cursor`, and the row holding the cursor (the last row if none does).
pub open spec fn spec_wrap_input(text: Seq<char>, cursor: int, width: int) -> (
    Seq<(bool, Seq<char>, Option<usize>)>,
    int,
) {
    let w = if width < 1 {
        1
    } else {
        width
    };
    let wrapped = wrap_lines(text, 0, 0, cursor, w, Seq::empty(), None);
    (
        wrapped.0,
        match wrapped.1 {
            Some(r) => r,
            None => if wrapped.0.len() > 0 {
                wrapped.0.len() - 1
            } else {
                0
            },
        },
    )
}

/// Wraps the prompt input `text` into rows of `width` terminal cells, each row after
/// a two-cell marker, with the cursor at byte offset `cursor` (clamped to the end).
/// Every character but the line breaks lands in exactly one row, in order, and the
/// returned cursor row is a row that shows the cursor.
pub fn wrap_input(text: &str, cursor: usize, width: usize) -> (w: WrappedInput)
    requires
        on_char_boundary(text@, cursor as int),
    ensures
        (rows_view(w.rows@), w.cursor_row as int) == spec_wrap_input(
            text@,
            char_index_at(text@, cursor as int),
            width as int,
        ),
        joined(w.rows@) == without_line_breaks(text@),
        w.cursor_row < w.rows@.len(),
        w.rows@[w.cursor_row as int].cursor is Some,
{
    let width = if width < 1 {
        1
    } else {
        width
    };
    let cs = chars_of(text);
    let k = char_index(&cs, cursor);
    let mut rows: Vec<InputRow> = Vec::new();
    let mut cursor_row: Option<usize> = None;
    let mut line_start: usize = 0;
    let mut i: usize = 0;
    let ghost target = wrap_lines(cs@, 0, 0, k as int, width as int, Seq::empty(), None);
    proof {
        assert(rows_view(rows@) == Seq::<(bool, Seq<char>, Option<usize>)>::empty());
        assert(rows@.map_values(|r: InputRow| r.segment@) == Seq::<Seq<char>>::empty());
        assert(cs@.subrange(0, 0) == Seq::<char>::empty());
        assert(cs@.take(0) == Seq::<char>::empty());
        assert(flatten(Seq::<Seq<char>>::empty()) == Seq::<char>::empty());
    }
    while i < cs.len()
        invariant
            line_start <= i <= cs@.len(),
            k <= cs@.len(),
            wrap_lines(
                cs@,
                line_start as int,
                i as int,
                k as int,
                width as int,
                rows_view(rows@),
                opt_int(cursor_row),
            ) == target,
            joined(rows@) + cs@.subrange(line_start as int, i as int) == without_line_breaks(
                cs@.take(i as int),
            ),
            k < line_start ==> cursor_row is Some,
            match cursor_row {
                Some(r) => r < rows@.len() && rows@[r as int].cursor is Some,
                None => true,
            },
        decreases cs@.len() - i,
    {
        let ghost before = rows@;
        assert(cs@.take(i + 1).drop_last() == cs@.take(i as int));
        assert(cs@.take(i + 1).last() == cs@[i as int]);
        if cs[i] == '\n' {
            wrap_line(&cs, line_start, i, k, width, &mut rows, &mut cursor_row);
            line_start = i + 1;
            assert(cs@.subrange(line_start as int, line_start as int) == Seq::<char>::empty());
            assert(joined(rows@) + Seq::<char>::empty() == joined(rows@));
        } else {
            assert(cs@.subrange(line_start as int, i + 1) == cs@.subrange(
                line_start as int,
                i as int,
            ).push(cs@[i as int]));
            assert(joined(rows@) + cs@.subrange(line_start as int, i + 1) == (joined(rows@)
                + cs@.subrange(line_start as int, i as int)).push(cs@[i as int]));
        }
        i += 1;
    }
    wrap_line(&cs, line_start, cs.len(), k, width, &mut rows, &mut cursor_row);
    proof {
        assert(cs@.take(cs@.len() as int) == cs@);
    }
    let row = match cursor_row {
        Some(r) => r,
        None => if rows.len() > 0 {
            rows.len() - 1
        } else {
            0
        },
    };
    WrappedInput { rows, cursor_row: row }
}

/// `n` cells, stopping at `usize::MAX` as the row's cell count does.
pub open spec fn capped(n: int) -> int {
    if n > usize::MAX {
        usize::MAX as int
    } else {
        n
    }
}

proof fn lemma_take_step(all: Seq<Seq<char>>, j: int)
    requires
        0 <= j < all.len(),
    ensures
        widths_sum(all.take(j + 1)) == widths_sum(all.take(j)) + input_grapheme_width(all[j]),
        flatten(all.take(j + 1)) == flatten(all.take(j)) + all[j],
{
    assert(all.take(j + 1).drop_last() == all.take(j));
    assert(all.take(j + 1).last() == all[j]);
}

proof fn lemma_sum_nonneg(gs: Seq<Seq<char>>)
    ensures
        widths_sum(gs) >= 0,
    decreases gs.len(),
{
    if gs.len() > 0 {
        lemma_sum_nonneg(gs.drop_last());
    }
}

/// The row built from `all[j..]` once the clusters `all[..j]` are in it.
proof fn lemma_row_from(all: Seq<Seq<char>>, j: int, width: int, used: int, end: int)
    requires
        0 <= j <= all.len(),
        width < usize::MAX,
        forall|i: int| 0 <= i < all.len() ==> (#[trigger] all[i]).len() > 0,
        end == flatten(all.take(j)).len(),
        used == capped(widths_sum(all.take(j))),
        forall|i: int| 1 <= i <= j ==> #[trigger] widths_sum(all.take(i)) < width,
    ensures
        ({
            let n = segment_chars_from(all.skip(j), width, used, end);
            exists|k: int|
                j <= k <= all.len() && n == flatten(all.take(k)).len() && (all.len() > 0 ==> k >= 1)
                    && (k >= 2 ==> widths_sum(all.take(k)) <= width) && (1 <= k < all.len()
                    ==> widths_sum(all.take(k)) >= width || widths_sum(all.take(k + 1)) > width)
                    && (forall|i: int| 1 <= i < k ==> #[trigger] widths_sum(all.take(i)) < width)
        }),
    decreases all.len() - j,
{
    let gs = all.skip(j);
    let n = segment_chars_from(gs, width, used, end);
    lemma_sum_nonneg(all.take(j));
    if j == all.len() {
        assert(gs.len() == 0);
        assert(n == flatten(all.take(j)).len());
    } else {
        assert(gs[0] == all[j]);
        let w = input_grapheme_width(all[j]);
        lemma_take_step(all, j);
        if j == 0 {
            assert(all.take(0) == Seq::<Seq<char>>::empty());
            assert(end == 0);
        } else {
            assert(flatten(all.take(j)).len() > 0) by {
                lemma_take_step(all, j - 1);
                assert(all[j - 1].len() > 0);
            }
        }
        if end != 0 && sat_add(used, w) > width {
            assert(n == end);
            assert(widths_sum(all.take(j + 1)) > width);
        } else {
            let end2 = end + gs[0].len();
            let used2 = sat_add(used, w);
            assert(used2 == capped(widths_sum(all.take(j + 1))));
            if used2 >= width {
                assert(n == end2);
                assert(n == flatten(all.take(j + 1)).len());
                if j + 1 >= 2 {
                    assert(widths_sum(all.take(j + 1)) <= width);
                }
            } else {
                assert(gs.drop_first() == all.skip(j + 1));
                lemma_row_from(all, j + 1, width, used2, end2);
            }
        }
    }
}

/// A row of the input box taken from the clusters `gs` (none of them empty): it
/// holds whole leading clusters, at least one when there are any; when it holds
/// more than one they fit in the `width` cells; no cluster follows once the row is
/// full; and it stops only when it is full or the next cluster would not fit.
pub proof fn law_rows_of_several_clusters_fit(gs: Seq<Seq<char>>, width: int)
    requires
        width < usize::MAX,
        forall|i: int| 0 <= i < gs.len() ==> (#[trigger] gs[i]).len() > 0,
    ensures
        exists|k: int|
            0 <= k <= gs.len() && segment_chars_from(gs, width, 0, 0) == flatten(gs.take(k)).len()
                && (gs.len() > 0 ==> k >= 1) && (k >= 2 ==> widths_sum(gs.take(k)) <= width) && (1
                <= k < gs.len() ==> widths_sum(gs.take(k)) >= width || widths_sum(gs.take(k + 1))
                > width) && (forall|i: int| 1 <= i < k ==> #[trigger] widths_sum(gs.take(i)) < width),
{
    assert(gs.take(0) == Seq::<Seq<char>>::empty());
    assert(gs.skip(0) == gs);
    lemma_row_from(gs, 0, width, 0, 0);
}

} // verus!
