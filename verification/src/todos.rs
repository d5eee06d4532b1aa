//! The live Fleet todo block above the prompt: a heading, at most five rows with a
//! status glyph each (four when a summary of the rest is needed), and a count of the
//! hidden work still pending or in progress.

use vstd::prelude::*;
use crate::format::{
    is_finished_status_name, is_in_progress_status_name, todo_status_is_finished,
    todo_status_is_in_progress,
};
use crate::prompt::MAX_TODO_ROWS;
use crate::text::{ascii_lower_seq, decimal, push_decimal, push_str, trim};

verus! {

/// One row of the Fleet todo list.
pub struct TodoRow {
    pub id: String,
    pub title: String,
    pub description: String,
    pub status: String,
}

/// Whether a status reads as finished (completed, done or cancelled).
pub open spec fn finished(status: Seq<char>) -> bool {
    is_finished_status_name(ascii_lower_seq(trim(status)))
}

/// Whether a status reads as in progress.
pub open spec fn working(status: Seq<char>) -> bool {
    is_in_progress_status_name(ascii_lower_seq(trim(status)))
}

/// The glyph a todo row carries.
#[derive(Debug, Clone, Copy, PartialEq, Eq, Structural)]
pub enum TodoMarker {
    Done,
    Working,
    Waiting,
}

pub open spec fn spec_todo_marker(status: Seq<char>) -> TodoMarker {
    if finished(status) {
        TodoMarker::Done
    } else if working(status) {
        TodoMarker::Working
    } else {
        TodoMarker::Waiting
    }
}

/// The marker for a todo status.
pub fn todo_status_marker(status: &str) -> (m: TodoMarker)
    ensures
        m == spec_todo_marker(status@),
{
    if todo_status_is_finished(status) {
        TodoMarker::Done
    } else if todo_status_is_in_progress(status) {
        TodoMarker::Working
    } else {
        TodoMarker::Waiting
    }
}

pub open spec fn spec_glyph(m: TodoMarker) -> Seq<char> {
    match m {
        TodoMarker::Done => seq!['\u{2713}'],
        TodoMarker::Working => seq!['\u{25fc}'],
        TodoMarker::Waiting => seq!['\u{25fb}'],
    }
}

impl TodoMarker {
    /// A check for finished work, a filled square for work in progress, an empty
    /// square for the rest.
    pub fn glyph(&self) -> (g: &'static str)
        ensures
            g@ == spec_glyph(*self),
    {
        match self {
            TodoMarker::Done => {
                proof {
                    reveal_strlit("\u{2713}");
                }
                "\u{2713}"
            },
            TodoMarker::Working => {
                proof {
                    reveal_strlit("\u{25fc}");
                }
                "\u{25fc}"
            },
            TodoMarker::Waiting => {
                proof {
                    reveal_strlit("\u{25fb}");
                }
                "\u{25fb}"
            },
        }
    }
}

/// One line of the todo block.
pub enum TodoLine {
    Unavailable,
    NothingPending,
    Heading,
    Item { marker: TodoMarker, title: String },
    More { pending: usize, in_progress: usize },
}

pub enum TodoLineView {
    Unavailable,
    NothingPending,
    Heading,
    Item(TodoMarker, Seq<char>),
    More(nat, nat),
}

pub open spec fn line_view(l: TodoLine) -> TodoLineView {
    match l {
        TodoLine::Unavailable => TodoLineView::Unavailable,
        TodoLine::NothingPending => TodoLineView::NothingPending,
        TodoLine::Heading => TodoLineView::Heading,
        TodoLine::Item { marker, title } => TodoLineView::Item(marker, title@),
        TodoLine::More { pending, in_progress } => TodoLineView::More(pending as nat, in_progress as nat),
    }
}

pub open spec fn line_views(v: Seq<TodoLine>) -> Seq<TodoLineView> {
    v.map_values(|l: TodoLine| line_view(l))
}

/// How many rows are neither finished nor in progress.
pub open spec fn count_pending(rows: Seq<TodoRow>) -> nat
    decreases rows.len(),
{
    if rows.len() == 0 {
        0
    } else {
        count_pending(rows.drop_last()) + if !finished(rows.last().status@) && !working(
            rows.last().status@,
        ) {
            1nat
        } else {
            0nat
        }
    }
}

/// How many rows are in progress.
pub open spec fn count_working(rows: Seq<TodoRow>) -> nat
    decreases rows.len(),
{
    if rows.len() == 0 {
        0
    } else {
        count_working(rows.drop_last()) + if working(rows.last().status@) {
            1nat
        } else {
            0nat
        }
    }
}

/// Rows shown: five, or four when more than five exist.
pub open spec fn visible_todo_rows(n: int) -> int {
    if n > MAX_TODO_ROWS {
        MAX_TODO_ROWS - 1
    } else {
        MAX_TODO_ROWS as int
    }
}

/// The todo block: a notice when no list is loaded or it is empty; otherwise the
/// heading, the first rows, and, when rows are hidden and some of them are not
/// finished, how many of those are pending and in progress.
pub open spec fn spec_todo_lines(rows: Option<Seq<TodoRow>>) -> Seq<TodoLineView> {
    match rows {
        None => seq![TodoLineView::Unavailable],
        Some(r) => if r.len() == 0 {
            seq![TodoLineView::NothingPending]
        } else {
            let visible = visible_todo_rows(r.len() as int);
            let shown = if r.len() < visible {
                r.len() as int
            } else {
                visible
            };
            let items = Seq::new(
                shown as nat,
                |i: int| TodoLineView::Item(spec_todo_marker(r[i].status@), r[i].title@),
            );
            let hidden = r.skip(visible);
            let more = if r.len() > visible && (count_pending(hidden) > 0 || count_working(hidden)
                > 0) {
                seq![TodoLineView::More(count_pending(hidden), count_working(hidden))]
            } else {
                Seq::empty()
            };
            seq![TodoLineView::Heading] + items + more
        },
    }
}

proof fn lemma_counts_bounded(rows: Seq<TodoRow>)
    ensures
        count_pending(rows) <= rows.len(),
        count_working(rows) <= rows.len(),
    decreases rows.len(),
{
    if rows.len() > 0 {
        lemma_counts_bounded(rows.drop_last());
    }
}

/// The lines of the todo block for the loaded list, if any.
pub fn todo_live_lines(todos: Option<&Vec<TodoRow>>) -> (r: Vec<TodoLine>)
    ensures
        line_views(r@) == spec_todo_lines(
            match todos {
                Some(t) => Some(t@),
                None => None,
            },
        ),
{
    let mut lines: Vec<TodoLine> = Vec::new();
    let rows = match todos {
        None => {
            lines.push(TodoLine::Unavailable);
            assert(line_views(lines@) =~= seq![TodoLineView::Unavailable]);
            return lines;
        },
        Some(rows) => rows,
    };
    if rows.len() == 0 {
        lines.push(TodoLine::NothingPending);
        assert(line_views(lines@) =~= seq![TodoLineView::NothingPending]);
        return lines;
    }
    let ghost r = rows@;
    lines.push(TodoLine::Heading);
    let visible = if rows.len() > MAX_TODO_ROWS {
        MAX_TODO_ROWS - 1
    } else {
        MAX_TODO_ROWS
    };
    let shown = if rows.len() < visible {
        rows.len()
    } else {
        visible
    };
    let ghost items = Seq::new(
        shown as nat,
        |i: int| TodoLineView::Item(spec_todo_marker(r[i].status@), r[i].title@),
    );
    let mut i: usize = 0;
    while i < shown
        invariant
            i <= shown <= rows@.len(),
            r == rows@,
            items == Seq::new(
                shown as nat,
                |k: int| TodoLineView::Item(spec_todo_marker(r[k].status@), r[k].title@),
            ),
            line_views(lines@) == seq![TodoLineView::Heading] + items.take(i as int),
        decreases shown - i,
    {
        let marker = todo_status_marker(rows[i].status.as_str());
        let ghost before = lines@;
        lines.push(TodoLine::Item { marker, title: rows[i].title.clone() });
        assert(line_views(lines@) == line_views(before).push(items[i as int]));
        assert(items.take(i + 1) == items.take(i as int).push(items[i as int]));
        i += 1;
    }
    assert(items.take(shown as int) == items);
    if rows.len() > visible {
        let ghost hidden = r.skip(visible as int);
        let mut pending: usize = 0;
        let mut in_progress: usize = 0;
        let mut j: usize = visible;
        proof {
            lemma_counts_bounded(hidden);
            assert(hidden.take(0) == Seq::<TodoRow>::empty());
        }
        while j < rows.len()
            invariant
                visible <= j <= rows@.len(),
                r == rows@,
                hidden == r.skip(visible as int),
                pending == count_pending(hidden.take(j - visible)),
                in_progress == count_working(hidden.take(j - visible)),
                pending <= j - visible,
                in_progress <= j - visible,
            decreases rows@.len() - j,
        {
            assert(hidden.take(j + 1 - visible).drop_last() == hidden.take(j - visible));
            assert(hidden.take(j + 1 - visible).last() == rows@[j as int]);
            let status = rows[j].status.as_str();
            let is_working = todo_status_is_in_progress(status);
            if !todo_status_is_finished(status) && !is_working {
                pending += 1;
            }
            if is_working {
                in_progress += 1;
            }
            j += 1;
        }
        assert(hidden.take(rows@.len() - visible) == hidden);
        if pending > 0 || in_progress > 0 {
            let ghost before = lines@;
            lines.push(TodoLine::More { pending, in_progress });
            assert(line_views(lines@) == line_views(before).push(
                TodoLineView::More(pending as nat, in_progress as nat),
            ));
        } else {
            assert(line_views(lines@) == line_views(lines@) + Seq::<TodoLineView>::empty());
        }
    } else {
        assert(line_views(lines@) == line_views(lines@) + Seq::<TodoLineView>::empty());
    }
    lines
}

/// The text of a todo line.
pub open spec fn spec_todo_line_text(l: TodoLineView) -> Seq<char> {
    match l {
        TodoLineView::Unavailable => "Fleet todos unavailable."@,
        TodoLineView::NothingPending => "Fleet todos: no pending work."@,
        TodoLineView::Heading => "Fleet todos"@,
        TodoLineView::Item(marker, title) => "  "@ + spec_glyph(marker) + " "@ + title,
        TodoLineView::More(pending, working) => " \u{2026} +"@ + decimal(pending) + " pending, "@
            + decimal(working) + " in progress"@,
    }
}

impl TodoLine {
    /// The line as plain text.
    pub fn text(&self) -> (t: String)
        ensures
            t@ == spec_todo_line_text(line_view(*self)),
    {
        match self {
            TodoLine::Unavailable => "Fleet todos unavailable.".to_owned(),
            TodoLine::NothingPending => "Fleet todos: no pending work.".to_owned(),
            TodoLine::Heading => "Fleet todos".to_owned(),
            TodoLine::Item { marker, title } => {
                let mut t = "  ".to_owned();
                push_str(&mut t, marker.glyph());
                push_str(&mut t, " ");
                push_str(&mut t, title.as_str());
                t
            },
            TodoLine::More { pending, in_progress } => {
                let mut t = " \u{2026} +".to_owned();
                push_decimal(&mut t, *pending as u64);
                push_str(&mut t, " pending, ");
                push_decimal(&mut t, *in_progress as u64);
                push_str(&mut t, " in progress");
                t
            },
        }
    }
}

} // verus!
