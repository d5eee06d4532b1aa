//! Markdown as terminal lines. The renderer walks the events of a parsed Markdown
//! text and lays out paragraphs, headings, lists, quotes, code blocks, rules, task
//! markers and tables as lines of styled spans. A span's style is given relative to
//! the base style of the text: an accent colour replacing its foreground, and the
//! modifiers added to it. A muted text (reasoning) takes no accent colours.

use vstd::prelude::*;
use crate::text::{chars_equal, chars_of, copy_range, push_char, push_chars, push_str, starts_with, string_views};
use pulldown_cmark::{Event, Options, Parser, Tag};

verus! {

/// How a table column is aligned.
#[derive(Debug, Clone, Copy, PartialEq, Eq, Structural)]
pub enum CellAlignment {
    Unspecified,
    Left,
    Center,
    Right,
}

/// The containers of a Markdown text that the renderer tells apart.
#[derive(Debug, Clone, Copy, PartialEq, Eq, Structural)]
pub enum MarkdownTag {
    Table,
    TableHead,
    TableRow,
    TableCell,
    Paragraph,
    Heading,
    Strong,
    Emphasis,
    Strikethrough,
    Link,
    BlockQuote,
    List,
    Item,
    CodeBlock,
    Other,
}

/// One event of a parsed Markdown text.
pub enum MarkdownEvent {
    Start(MarkdownTag),
    /// The start of a table, with the alignment of each column.
    StartTable(Vec<CellAlignment>),
    End(MarkdownTag),
    Text(String),
    Code(String),
    SoftBreak,
    HardBreak,
    Rule,
    TaskListMarker(bool),
    Other,
}

/// `MarkdownEvent` as values.
#[allow(inconsistent_fields)]
pub enum EventView {
    Start(MarkdownTag),
    StartTable(Seq<CellAlignment>),
    End(MarkdownTag),
    Text(Seq<char>),
    Code(Seq<char>),
    SoftBreak,
    HardBreak,
    Rule,
    TaskListMarker(bool),
    Other,
}

impl View for MarkdownEvent {
    type V = EventView;

    open spec fn view(&self) -> EventView {
        match self {
            MarkdownEvent::Start(tag) => EventView::Start(*tag),
            MarkdownEvent::StartTable(alignments) => EventView::StartTable(alignments@),
            MarkdownEvent::End(tag) => EventView::End(*tag),
            MarkdownEvent::Text(text) => EventView::Text(text@),
            MarkdownEvent::Code(code) => EventView::Code(code@),
            MarkdownEvent::SoftBreak => EventView::SoftBreak,
            MarkdownEvent::HardBreak => EventView::HardBreak,
            MarkdownEvent::Rule => EventView::Rule,
            MarkdownEvent::TaskListMarker(checked) => EventView::TaskListMarker(*checked),
            MarkdownEvent::Other => EventView::Other,
        }
    }
}

pub open spec fn event_views(events: Seq<MarkdownEvent>) -> Seq<EventView> {
    events.map_values(|e: MarkdownEvent| e@)
}

/// The accent colours of Markdown text.
#[derive(Debug, Clone, Copy, PartialEq, Eq, Structural)]
pub enum Accent {
    Heading,
    Link,
    Code,
    Marker,
    Quote,
    CodeBlock,
    Rule,
}

/// A style relative to the base style: the accent replacing its foreground, if
/// any, and the modifiers added to it.
#[derive(Debug, Clone, Copy, PartialEq, Eq, Structural)]
pub struct SpanStyle {
    pub accent: Option<Accent>,
    pub bold: bool,
    pub italic: bool,
    pub crossed_out: bool,
    pub underlined: bool,
}

/// A piece of a line: its text and its style (`None`: the terminal's default
/// style, not the base style).
pub struct StyledSpan {
    pub text: String,
    pub style: Option<SpanStyle>,
}

pub open spec fn span_views(v: Seq<StyledSpan>) -> Seq<(Seq<char>, Option<SpanStyle>)> {
    v.map_values(|s: StyledSpan| (s.text@, s.style))
}

pub open spec fn line_views(v: Seq<Vec<StyledSpan>>) -> Seq<Seq<(Seq<char>, Option<SpanStyle>)>> {
    v.map_values(|l: Vec<StyledSpan>| span_views(l@))
}

/// The base style itself.
pub open spec fn base_style() -> SpanStyle {
    SpanStyle { accent: None, bold: false, italic: false, crossed_out: false, underlined: false }
}

/// `n` copies of `c`.
pub open spec fn repeated(c: char, n: nat) -> Seq<char> {
    Seq::new(n, |_i: int| c)
}

/// The parts with `sep` between each two.
pub open spec fn joined(parts: Seq<Seq<char>>, sep: Seq<char>) -> Seq<char>
    decreases parts.len(),
{
    if parts.len() == 0 {
        Seq::empty()
    } else if parts.len() == 1 {
        parts[0]
    } else {
        joined(parts.drop_last(), sep) + sep + parts.last()
    }
}

/// What the renderer knows of a table it is reading: the column alignments, the
/// finished rows of cell texts, the row and cell being read, and how many of the
/// rows are header rows.
pub struct TableModel {
    pub alignments: Seq<CellAlignment>,
    pub rows: Seq<Seq<Seq<char>>>,
    pub current_row: Seq<Seq<char>>,
    pub current_cell: Seq<char>,
    pub header_rows: nat,
}

/// The number of columns: the length of the longest row.
pub open spec fn column_count(rows: Seq<Seq<Seq<char>>>) -> nat
    decreases rows.len(),
{
    if rows.len() == 0 {
        0
    } else {
        let m = column_count(rows.drop_last());
        if rows.last().len() > m {
            rows.last().len()
        } else {
            m
        }
    }
}

/// The cell of a row in a column, or nothing where the row is short.
pub open spec fn cell_at(row: Seq<Seq<char>>, column: int) -> Seq<char> {
    if 0 <= column < row.len() {
        row[column]
    } else {
        Seq::empty()
    }
}

/// The width of a column: its widest cell, in characters.
pub open spec fn column_width(rows: Seq<Seq<Seq<char>>>, column: int) -> nat
    decreases rows.len(),
{
    if rows.len() == 0 {
        0
    } else {
        let m = column_width(rows.drop_last(), column);
        if cell_at(rows.last(), column).len() > m {
            cell_at(rows.last(), column).len()
        } else {
            m
        }
    }
}

/// The alignment of a column (none where the table gives none).
pub open spec fn alignment_at(alignments: Seq<CellAlignment>, column: int) -> CellAlignment {
    if 0 <= column < alignments.len() {
        alignments[column]
    } else {
        CellAlignment::Unspecified
    }
}

/// A cell padded with spaces to the column width: on the left when right-aligned,
/// evenly (the odd space on the right) when centred, on the right otherwise.
pub open spec fn aligned_cell(cell: Seq<char>, width: nat, alignment: CellAlignment) -> Seq<char> {
    let pad: nat = if width > cell.len() {
        (width - cell.len()) as nat
    } else {
        0
    };
    match alignment {
        CellAlignment::Right => repeated(' ', pad) + cell,
        CellAlignment::Center => repeated(' ', pad / 2) + cell + repeated(' ', (pad - pad / 2) as nat),
        _ => cell + repeated(' ', pad),
    }
}

/// The cells of a row, each aligned in its column.
pub open spec fn row_cells(t: TableModel, row: Seq<Seq<char>>, n: nat) -> Seq<Seq<char>> {
    Seq::new(
        n,
        |c: int| aligned_cell(cell_at(row, c), column_width(t.rows, c), alignment_at(t.alignments, c)),
    )
}

/// A table row as text: its aligned cells joined by ` | `.
pub open spec fn row_text(t: TableModel, row: Seq<Seq<char>>) -> Seq<char> {
    joined(row_cells(t, row, column_count(t.rows)), " | "@)
}

/// The dashes under each column, one more than its width.
pub open spec fn divider_parts(rows: Seq<Seq<Seq<char>>>, n: nat) -> Seq<Seq<char>> {
    Seq::new(n, |c: int| repeated('-', column_width(rows, c) + 1))
}

/// The line between header and body: each column's dashes, joined by `+`.
pub open spec fn divider_text(rows: Seq<Seq<Seq<char>>>) -> Seq<char> {
    joined(divider_parts(rows, column_count(rows)), "+"@)
}

/// The lines of the first `k` rows of a table: each row on a line of its own, in
/// the header style for header rows, and the divider before the first body row.
pub open spec fn table_lines(
    t: TableModel,
    row_style: SpanStyle,
    header_style: SpanStyle,
    rule_style: SpanStyle,
    k: nat,
) -> Seq<Seq<(Seq<char>, Option<SpanStyle>)>>
    decreases k,
{
    if k == 0 {
        Seq::empty()
    } else {
        let i = (k - 1) as nat;
        let before = table_lines(t, row_style, header_style, rule_style, i);
        let with_divider = if i == t.header_rows {
            before.push(seq![(divider_text(t.rows), Some(rule_style))])
        } else {
            before
        };
        with_divider.push(
            seq![
                (
                    row_text(t, t.rows[i as int]),
                    Some(
                        if i < t.header_rows {
                            header_style
                        } else {
                            row_style
                        },
                    ),
                ),
            ],
        )
    }
}

/// Appends `n` copies of `c`.
fn push_repeated(out: &mut String, c: char, n: usize)
    ensures
        final(out)@ == old(out)@ + repeated(c, n as nat),
{
    let mut i: usize = 0;
    while i < n
        invariant
            i <= n,
            out@ == old(out)@ + repeated(c, i as nat),
        decreases n - i,
    {
        push_char(out, c);
        i += 1;
        assert(out@ =~= old(out)@ + repeated(c, i as nat));
    }
}

/// The number of characters of `s`.
fn char_count(s: &str) -> (n: usize)
    ensures
        n == s@.len(),
{
    chars_of(s).len()
}

/// Appends a cell aligned in a column of the given width.
fn push_aligned(out: &mut String, cell: &str, width: usize, alignment: CellAlignment)
    ensures
        final(out)@ == old(out)@ + aligned_cell(cell@, width as nat, alignment),
{
    let len = char_count(cell);
    let pad: usize = if width > len {
        width - len
    } else {
        0
    };
    match alignment {
        CellAlignment::Right => {
            push_repeated(out, ' ', pad);
            push_str(out, cell);
        },
        CellAlignment::Center => {
            let left = pad / 2;
            push_repeated(out, ' ', left);
            push_str(out, cell);
            push_repeated(out, ' ', pad - left);
        },
        _ => {
            push_str(out, cell);
            push_repeated(out, ' ', pad);
        },
    }
    assert(out@ =~= old(out)@ + aligned_cell(cell@, width as nat, alignment));
}

/// The table a renderer is reading.
struct MarkdownTable {
    alignments: Vec<CellAlignment>,
    rows: Vec<Vec<String>>,
    current_row: Vec<String>,
    current_cell: String,
    header_rows: usize,
}

pub open spec fn row_views(rows: Seq<Vec<String>>) -> Seq<Seq<Seq<char>>> {
    rows.map_values(|r: Vec<String>| string_views(r@))
}

impl MarkdownTable {
    spec fn model(&self) -> TableModel {
        TableModel {
            alignments: self.alignments@,
            rows: row_views(self.rows@),
            current_row: string_views(self.current_row@),
            current_cell: self.current_cell@,
            header_rows: self.header_rows as nat,
        }
    }
}

proof fn lemma_column_count_bound(rows: Seq<Seq<Seq<char>>>, i: int)
    requires
        0 <= i < rows.len(),
    ensures
        rows[i].len() <= column_count(rows),
    decreases rows.len(),
{
    if i < rows.len() - 1 {
        assert(rows.drop_last()[i] == rows[i]);
        lemma_column_count_bound(rows.drop_last(), i);
    }
}

proof fn lemma_column_width_bound(rows: Seq<Seq<Seq<char>>>, i: int, column: int)
    requires
        0 <= i < rows.len(),
    ensures
        cell_at(rows[i], column).len() <= column_width(rows, column),
    decreases rows.len(),
{
    if i < rows.len() - 1 {
        assert(rows.drop_last()[i] == rows[i]);
        lemma_column_width_bound(rows.drop_last(), i, column);
    }
}

/// The number of columns of the rows read so far.
fn columns_of(rows: &Vec<Vec<String>>) -> (n: usize)
    ensures
        n == column_count(row_views(rows@)),
{
    let mut n: usize = 0;
    let mut i: usize = 0;
    while i < rows.len()
        invariant
            i <= rows@.len(),
            n == column_count(row_views(rows@).take(i as int)),
        decreases rows@.len() - i,
    {
        assert(row_views(rows@).take(i + 1).drop_last() =~= row_views(rows@).take(i as int));
        if rows[i].len() > n {
            n = rows[i].len();
        }
        i += 1;
    }
    assert(row_views(rows@).take(i as int) =~= row_views(rows@));
    n
}

/// The width of a column of the rows read so far.
fn width_of(rows: &Vec<Vec<String>>, column: usize) -> (w: usize)
    ensures
        w == column_width(row_views(rows@), column as int),
{
    let mut w: usize = 0;
    let mut i: usize = 0;
    while i < rows.len()
        invariant
            i <= rows@.len(),
            w == column_width(row_views(rows@).take(i as int), column as int),
        decreases rows@.len() - i,
    {
        assert(row_views(rows@).take(i + 1).drop_last() =~= row_views(rows@).take(i as int));
        let cell_len: usize = if column < rows[i].len() {
            char_count(rows[i][column].as_str())
        } else {
            0
        };
        assert(cell_len == cell_at(row_views(rows@)[i as int], column as int).len());
        if cell_len > w {
            w = cell_len;
        }
        i += 1;
    }
    assert(row_views(rows@).take(i as int) =~= row_views(rows@));
    w
}

impl MarkdownTable {
    /// The text of one row: its cells aligned in their columns and joined by ` | `.
    fn row_line(&self, row: &Vec<String>, widths: &Vec<usize>) -> (r: String)
        requires
            widths@.len() == column_count(self.model().rows),
            forall|c: int|
                0 <= c < widths@.len() ==> #[trigger] widths@[c] == column_width(self.model().rows, c),
        ensures
            r@ == row_text(self.model(), string_views(row@)),
    {
        let ghost t = self.model();
        let ghost cells = row_cells(t, string_views(row@), widths@.len() as nat);
        let mut r = String::new();
        let mut c: usize = 0;
        while c < widths.len()
            invariant
                c <= widths@.len(),
                t == self.model(),
                widths@.len() == column_count(t.rows),
                forall|k: int| 0 <= k < widths@.len() ==> #[trigger] widths@[k] == column_width(t.rows, k),
                cells == row_cells(t, string_views(row@), widths@.len() as nat),
                r@ == joined(cells.take(c as int), " | "@),
            decreases widths@.len() - c,
        {
            let ghost before = r@;
            if c > 0 {
                push_str(&mut r, " | ");
            }
            let alignment = if c < self.alignments.len() {
                self.alignments[c]
            } else {
                CellAlignment::Unspecified
            };
            let cell: &str = if c < row.len() {
                row[c].as_str()
            } else {
                ""
            };
            proof {
                reveal_strlit("");
            }
            assert(cell@ == cell_at(string_views(row@), c as int));
            push_aligned(&mut r, cell, widths[c], alignment);
            proof {
                assert(cells.take(c + 1).drop_last() =~= cells.take(c as int));
                assert(cells.take(c + 1).last() == cells[c as int]);
                if c == 0 {
                    assert(cells.take(1) =~= seq![cells[0]]);
                }
            }
            c += 1;
        }
        assert(cells.take(c as int) =~= cells);
        r
    }

    /// The divider under the header rows.
    fn divider_line(&self, widths: &Vec<usize>) -> (r: String)
        requires
            widths@.len() == column_count(self.model().rows),
            forall|c: int|
                0 <= c < widths@.len() ==> #[trigger] widths@[c] == column_width(self.model().rows, c),
        ensures
            r@ == divider_text(self.model().rows),
    {
        let ghost rows = self.model().rows;
        let ghost parts = divider_parts(rows, widths@.len() as nat);
        let mut r = String::new();
        let mut c: usize = 0;
        while c < widths.len()
            invariant
                c <= widths@.len(),
                rows == self.model().rows,
                widths@.len() == column_count(rows),
                forall|k: int| 0 <= k < widths@.len() ==> #[trigger] widths@[k] == column_width(rows, k),
                parts == divider_parts(rows, widths@.len() as nat),
                r@ == joined(parts.take(c as int), "+"@),
            decreases widths@.len() - c,
        {
            if c > 0 {
                push_str(&mut r, "+");
            }
            let ghost mid = r@;
            push_repeated(&mut r, '-', widths[c]);
            push_char(&mut r, '-');
            proof {
                assert(repeated('-', widths@[c as int] as nat).push('-') =~= repeated(
                    '-',
                    (widths@[c as int] + 1) as nat,
                ));
                assert(parts.take(c + 1).drop_last() =~= parts.take(c as int));
                assert(parts.take(c + 1).last() == parts[c as int]);
                if c == 0 {
                    assert(parts.take(1) =~= seq![parts[0]]);
                }
            }
            c += 1;
        }
        assert(parts.take(c as int) =~= parts);
        r
    }

    /// The lines of the whole table (see `table_lines`).
    fn lines(&self, row_style: SpanStyle, header_style: SpanStyle, rule_style: SpanStyle) -> (r: Vec<
        Vec<StyledSpan>,
    >)
        ensures
            line_views(r@) == table_lines(
                self.model(),
                row_style,
                header_style,
                rule_style,
                self.model().rows.len(),
            ),
    {
        let ghost t = self.model();
        let n = columns_of(&self.rows);
        let mut widths: Vec<usize> = Vec::new();
        let mut c: usize = 0;
        while c < n
            invariant
                c <= n,
                t == self.model(),
                n == column_count(t.rows),
                widths@.len() == c,
                forall|k: int| 0 <= k < c ==> #[trigger] widths@[k] == column_width(t.rows, k),
            decreases n - c,
        {
            let w = width_of(&self.rows, c);
            widths.push(w);
            c += 1;
        }
        let mut r: Vec<Vec<StyledSpan>> = Vec::new();
        let mut i: usize = 0;
        while i < self.rows.len()
            invariant
                i <= self.rows@.len(),
                t == self.model(),
                widths@.len() == column_count(t.rows),
                forall|k: int| 0 <= k < widths@.len() ==> #[trigger] widths@[k] == column_width(t.rows, k),
                line_views(r@) == table_lines(t, row_style, header_style, rule_style, i as nat),
            decreases self.rows@.len() - i,
        {
            if i == self.header_rows {
                let divider = self.divider_line(&widths);
                let ghost before = line_views(r@);
                let line = vec![StyledSpan { text: divider, style: Some(rule_style) }];
                assert(span_views(line@) =~= seq![(divider_text(t.rows), Some(rule_style))]);
                r.push(line);
                assert(line_views(r@) =~= before.push(seq![(divider_text(t.rows), Some(rule_style))]));
            }
            let text = self.row_line(&self.rows[i], &widths);
            assert(string_views(self.rows@[i as int]@) == t.rows[i as int]);
            let style = if i < self.header_rows {
                header_style
            } else {
                row_style
            };
            let ghost before = line_views(r@);
            let ghost text_view = text@;
            let line = vec![StyledSpan { text, style: Some(style) }];
            assert(span_views(line@) =~= seq![(text_view, Some(style))]);
            r.push(line);
            assert(line_views(r@) =~= before.push(seq![(row_text(t, t.rows[i as int]), Some(style))]));
            i += 1;
        }
        r
    }
}


/// What the renderer knows between events: the finished lines, the spans of the
/// line being built, the stack of styles (the base style at the bottom), whether
/// the text is muted, how deep in lists it is, whether it is inside a code block,
/// and the table being read.
pub struct RenderModel {
    pub lines: Seq<Seq<(Seq<char>, Option<SpanStyle>)>>,
    pub spans: Seq<(Seq<char>, Option<SpanStyle>)>,
    pub styles: Seq<SpanStyle>,
    pub muted: bool,
    pub list_depth: nat,
    pub code_block: bool,
    pub table: Option<TableModel>,
}

/// The style on top of the stack.
pub open spec fn current_style(m: RenderModel) -> SpanStyle {
    m.styles.last()
}

pub open spec fn with_accent(s: SpanStyle, a: Accent) -> SpanStyle {
    SpanStyle { accent: Some(a), ..s }
}

/// The current style in an accent colour, or unchanged in muted text.
pub open spec fn accented(m: RenderModel, a: Accent) -> SpanStyle {
    if m.muted {
        current_style(m)
    } else {
        with_accent(current_style(m), a)
    }
}

pub open spec fn bold_of(s: SpanStyle) -> SpanStyle {
    SpanStyle { bold: true, ..s }
}

pub open spec fn italic_of(s: SpanStyle) -> SpanStyle {
    SpanStyle { italic: true, ..s }
}

pub open spec fn crossed_of(s: SpanStyle) -> SpanStyle {
    SpanStyle { crossed_out: true, ..s }
}

pub open spec fn underlined_of(s: SpanStyle) -> SpanStyle {
    SpanStyle { underlined: true, ..s }
}

/// The line being built becomes a finished line, unless it is empty.
pub open spec fn flushed(m: RenderModel) -> RenderModel {
    if m.spans.len() > 0 {
        RenderModel { lines: m.lines.push(m.spans), spans: Seq::empty(), ..m }
    } else {
        m
    }
}

pub open spec fn with_span(m: RenderModel, text: Seq<char>, style: Option<SpanStyle>) -> RenderModel {
    RenderModel { spans: m.spans.push((text, style)), ..m }
}

pub open spec fn with_style(m: RenderModel, s: SpanStyle) -> RenderModel {
    RenderModel { styles: m.styles.push(s), ..m }
}

/// The top style leaves the stack, but never the base style.
pub open spec fn without_style(m: RenderModel) -> RenderModel {
    if m.styles.len() > 1 {
        RenderModel { styles: m.styles.drop_last(), ..m }
    } else {
        m
    }
}

/// The bullet of a list item: two spaces per level of nesting below the first.
pub open spec fn item_marker(depth: nat) -> Seq<char> {
    repeated(
        ' ',
        2 * if depth >= 1 {
            (depth - 1) as nat
        } else {
            0
        },
    ) + "* "@
}

pub open spec fn started_table(m: RenderModel, alignments: Seq<CellAlignment>) -> RenderModel {
    RenderModel {
        table: Some(
            TableModel {
                alignments,
                rows: Seq::empty(),
                current_row: Seq::empty(),
                current_cell: Seq::empty(),
                header_rows: 0,
            },
        ),
        ..flushed(m)
    }
}

/// Text inside a table goes into the cell being read.
pub open spec fn with_table_text(m: RenderModel, text: Seq<char>) -> RenderModel {
    match m.table {
        Some(t) => RenderModel { table: Some(TableModel { current_cell: t.current_cell + text, ..t }), ..m },
        None => m,
    }
}

/// What the start of a container does.
pub open spec fn spec_start(m: RenderModel, tag: MarkdownTag) -> RenderModel {
    match tag {
        MarkdownTag::Table => started_table(m, Seq::empty()),
        MarkdownTag::Heading => with_style(m, bold_of(accented(m, Accent::Heading))),
        MarkdownTag::Strong => with_style(m, bold_of(current_style(m))),
        MarkdownTag::Emphasis => with_style(m, italic_of(current_style(m))),
        MarkdownTag::Strikethrough => with_style(m, crossed_of(current_style(m))),
        MarkdownTag::Link => with_style(m, underlined_of(accented(m, Accent::Link))),
        MarkdownTag::BlockQuote => with_span(m, "> "@, Some(accented(m, Accent::Quote))),
        MarkdownTag::List => RenderModel { list_depth: m.list_depth + 1, ..m },
        MarkdownTag::Item => with_span(m, item_marker(m.list_depth), Some(accented(m, Accent::Marker))),
        MarkdownTag::CodeBlock => with_style(
            RenderModel { code_block: true, ..flushed(m) },
            accented(m, Accent::CodeBlock),
        ),
        _ => m,
    }
}

/// The table as the end of its header leaves it: a pending row is finished, and
/// every row so far counts as a header row.
pub open spec fn header_closed(t: TableModel) -> TableModel {
    let t2 = if t.current_row.len() > 0 {
        TableModel { rows: t.rows.push(t.current_row), current_row: Seq::empty(), ..t }
    } else {
        t
    };
    TableModel { header_rows: t2.rows.len(), ..t2 }
}

/// What the end of a container does.
pub open spec fn spec_end(m: RenderModel, tag: MarkdownTag) -> RenderModel {
    match tag {
        MarkdownTag::TableCell => match m.table {
            Some(t) => RenderModel {
                table: Some(
                    TableModel {
                        current_row: t.current_row.push(t.current_cell),
                        current_cell: Seq::empty(),
                        ..t
                    },
                ),
                ..m
            },
            None => m,
        },
        MarkdownTag::TableRow => match m.table {
            Some(t) => RenderModel {
                table: Some(TableModel { rows: t.rows.push(t.current_row), current_row: Seq::empty(), ..t }),
                ..m
            },
            None => m,
        },
        MarkdownTag::TableHead => match m.table {
            Some(t) => RenderModel { table: Some(header_closed(t)), ..m },
            None => m,
        },
        MarkdownTag::Table => match m.table {
            Some(t) => RenderModel {
                lines: m.lines + table_lines(
                    t,
                    current_style(m),
                    bold_of(current_style(m)),
                    accented(m, Accent::Rule),
                    t.rows.len(),
                ),
                table: None,
                ..m
            },
            None => m,
        },
        MarkdownTag::Paragraph => flushed(m),
        MarkdownTag::Item => flushed(m),
        MarkdownTag::BlockQuote => flushed(m),
        MarkdownTag::Heading => without_style(flushed(m)),
        MarkdownTag::Strong => without_style(m),
        MarkdownTag::Emphasis => without_style(m),
        MarkdownTag::Strikethrough => without_style(m),
        MarkdownTag::Link => without_style(m),
        MarkdownTag::List => RenderModel {
            list_depth: if m.list_depth >= 1 {
                (m.list_depth - 1) as nat
            } else {
                0
            },
            ..m
        },
        MarkdownTag::CodeBlock => without_style(RenderModel { code_block: false, ..flushed(m) }),
        _ => m,
    }
}

/// Scanning `s` for newlines, with `done` the pieces before and `current` the
/// piece being read.
pub open spec fn split_scan(s: Seq<char>, done: Seq<Seq<char>>, current: Seq<char>) -> Seq<Seq<char>>
    decreases s.len(),
{
    if s.len() == 0 {
        done.push(current)
    } else if s[0] == '\n' {
        split_scan(s.drop_first(), done.push(current), Seq::empty())
    } else {
        split_scan(s.drop_first(), done, current.push(s[0]))
    }
}

/// The pieces of `s` between newlines (as `str::split('\n')` gives them).
pub open spec fn newline_pieces(s: Seq<char>) -> Seq<Seq<char>> {
    split_scan(s, Seq::empty(), Seq::empty())
}

/// Code block text, piece by piece: each newline ends the line, and each
/// non-empty piece becomes an indented span in the current style.
pub open spec fn code_fold(m: RenderModel, pieces: Seq<Seq<char>>) -> RenderModel
    decreases pieces.len(),
{
    if pieces.len() == 0 {
        m
    } else {
        let prev = code_fold(m, pieces.drop_last());
        let f = if pieces.len() > 1 {
            flushed(prev)
        } else {
            prev
        };
        if pieces.last().len() > 0 {
            with_span(f, "  "@ + pieces.last(), Some(current_style(f)))
        } else {
            f
        }
    }
}

/// What text does: it fills the table cell being read, or the code block line by
/// line, or else becomes a span in the current style.
pub open spec fn spec_text(m: RenderModel, text: Seq<char>) -> RenderModel {
    if m.table is Some {
        with_table_text(m, text)
    } else if m.code_block {
        code_fold(m, newline_pieces(text))
    } else {
        with_span(m, text, Some(current_style(m)))
    }
}

/// What one event does.
pub open spec fn spec_step(m: RenderModel, e: EventView) -> RenderModel {
    match e {
        EventView::Start(tag) => spec_start(m, tag),
        EventView::StartTable(alignments) => started_table(m, alignments),
        EventView::End(tag) => spec_end(m, tag),
        EventView::Text(text) => spec_text(m, text),
        EventView::Code(code) => if m.table is Some {
            with_table_text(m, code)
        } else {
            with_span(m, code, Some(accented(m, Accent::Code)))
        },
        EventView::SoftBreak => if m.table is Some {
            with_table_text(m, " "@)
        } else {
            with_span(m, " "@, None)
        },
        EventView::HardBreak => flushed(m),
        EventView::Rule => flushed(with_span(flushed(m), repeated('-', 40), Some(accented(m, Accent::Rule)))),
        EventView::TaskListMarker(checked) => with_span(
            m,
            if checked {
                "[x] "@
            } else {
                "[ ] "@
            },
            Some(accented(m, Accent::Marker)),
        ),
        EventView::Other => m,
    }
}

/// The state after a run of events.
pub open spec fn spec_fold(m: RenderModel, events: Seq<EventView>) -> RenderModel
    decreases events.len(),
{
    if events.len() == 0 {
        m
    } else {
        spec_step(spec_fold(m, events.drop_last()), events.last())
    }
}

/// The state before any event.
pub open spec fn initial_model(muted: bool) -> RenderModel {
    RenderModel {
        lines: Seq::empty(),
        spans: Seq::empty(),
        styles: seq![base_style()],
        muted,
        list_depth: 0,
        code_block: false,
        table: None,
    }
}

/// The lines of a Markdown text, given as its events.
pub open spec fn spec_markdown(events: Seq<EventView>, muted: bool) -> Seq<
    Seq<(Seq<char>, Option<SpanStyle>)>,
> {
    flushed(spec_fold(initial_model(muted), events)).lines
}

proof fn lemma_code_fold_frame(m: RenderModel, pieces: Seq<Seq<char>>)
    ensures
        code_fold(m, pieces).styles == m.styles,
        code_fold(m, pieces).muted == m.muted,
        code_fold(m, pieces).list_depth == m.list_depth,
        code_fold(m, pieces).code_block == m.code_block,
        code_fold(m, pieces).table == m.table,
    decreases pieces.len(),
{
    if pieces.len() > 0 {
        lemma_code_fold_frame(m, pieces.drop_last());
    }
}

proof fn lemma_step_depth(m: RenderModel, e: EventView)
    ensures
        spec_step(m, e).list_depth <= m.list_depth + 1,
        spec_step(m, e).muted == m.muted,
{
    if let EventView::Text(text) = e {
        lemma_code_fold_frame(m, newline_pieces(text));
    }
}

/// The pieces of `s` between newlines.
fn split_newlines(s: &str) -> (r: Vec<Vec<char>>)
    ensures
        r@.map_values(|p: Vec<char>| p@) == newline_pieces(s@),
{
    let cs = chars_of(s);
    let mut done: Vec<Vec<char>> = Vec::new();
    let mut current: Vec<char> = Vec::new();
    let mut i: usize = 0;
    assert(cs@.skip(0) =~= cs@);
    assert(done@.map_values(|p: Vec<char>| p@) =~= Seq::<Seq<char>>::empty());
    assert(current@ =~= Seq::<char>::empty());
    while i < cs.len()
        invariant
            i <= cs@.len(),
            cs@ == s@,
            split_scan(cs@.skip(i as int), done@.map_values(|p: Vec<char>| p@), current@)
                == newline_pieces(s@),
        decreases cs@.len() - i,
    {
        assert(cs@.skip(i as int).drop_first() =~= cs@.skip(i + 1));
        assert(cs@.skip(i as int)[0] == cs@[i as int]);
        if cs[i] == '\n' {
            let ghost before = done@.map_values(|p: Vec<char>| p@);
            let mut piece: Vec<char> = Vec::new();
            std::mem::swap(&mut piece, &mut current);
            let ghost piece_view = piece@;
            done.push(piece);
            assert(done@.map_values(|p: Vec<char>| p@) =~= before.push(piece_view));
            assert(current@ =~= Seq::<char>::empty());
        } else {
            current.push(cs[i]);
        }
        i += 1;
    }
    let ghost before = done@.map_values(|p: Vec<char>| p@);
    let ghost last = current@;
    done.push(current);
    assert(done@.map_values(|p: Vec<char>| p@) =~= before.push(last));
    assert(cs@.skip(i as int) =~= Seq::<char>::empty());
    done
}


/// The bullet of a list item at the given depth.
fn item_marker_text(depth: usize) -> (r: String)
    ensures
        r@ == item_marker(depth as nat),
{
    let levels: usize = if depth >= 1 {
        depth - 1
    } else {
        0
    };
    let mut r = String::new();
    let mut k: usize = 0;
    while k < levels
        invariant
            k <= levels,
            r@ == repeated(' ', (2 * k) as nat),
        decreases levels - k,
    {
        push_char(&mut r, ' ');
        push_char(&mut r, ' ');
        k += 1;
        assert(r@ =~= repeated(' ', (2 * k) as nat));
    }
    push_str(&mut r, "* ");
    r
}

/// A renderer between events.
struct MarkdownRenderer {
    lines: Vec<Vec<StyledSpan>>,
    spans: Vec<StyledSpan>,
    styles: Vec<SpanStyle>,
    muted: bool,
    list_depth: usize,
    code_block: bool,
    table: Option<MarkdownTable>,
}

impl MarkdownRenderer {
    spec fn model(&self) -> RenderModel {
        RenderModel {
            lines: line_views(self.lines@),
            spans: span_views(self.spans@),
            styles: self.styles@,
            muted: self.muted,
            list_depth: self.list_depth as nat,
            code_block: self.code_block,
            table: match self.table {
                Some(t) => Some(t.model()),
                None => None,
            },
        }
    }

    /// The base style stays at the bottom of the stack.
    spec fn wf(&self) -> bool {
        self.styles@.len() >= 1
    }

    fn new(muted: bool) -> (r: Self)
        ensures
            r.wf(),
            r.model() == initial_model(muted),
    {
        let base = SpanStyle { accent: None, bold: false, italic: false, crossed_out: false, underlined: false };
        let r = MarkdownRenderer {
            lines: Vec::new(),
            spans: Vec::new(),
            styles: vec![base],
            muted,
            list_depth: 0,
            code_block: false,
            table: None,
        };
        assert(r.model().lines =~= initial_model(muted).lines);
        assert(r.model().spans =~= initial_model(muted).spans);
        assert(r.model().styles =~= initial_model(muted).styles);
        r
    }

    fn style(&self) -> (s: SpanStyle)
        requires
            self.wf(),
        ensures
            s == current_style(self.model()),
    {
        self.styles[self.styles.len() - 1]
    }

    fn accent(&self, a: Accent) -> (s: SpanStyle)
        requires
            self.wf(),
        ensures
            s == accented(self.model(), a),
    {
        let s = self.style();
        if self.muted {
            s
        } else {
            SpanStyle {
                accent: Some(a),
                bold: s.bold,
                italic: s.italic,
                crossed_out: s.crossed_out,
                underlined: s.underlined,
            }
        }
    }

    fn push_style(&mut self, s: SpanStyle)
        requires
            old(self).wf(),
        ensures
            final(self).wf(),
            final(self).model() == with_style(old(self).model(), s),
    {
        self.styles.push(s);
    }

    fn pop_style(&mut self)
        requires
            old(self).wf(),
        ensures
            final(self).wf(),
            final(self).model() == without_style(old(self).model()),
    {
        if self.styles.len() > 1 {
            self.styles.pop();
        }
    }

    fn flush_line(&mut self)
        requires
            old(self).wf(),
        ensures
            final(self).wf(),
            final(self).model() == flushed(old(self).model()),
    {
        if self.spans.len() > 0 {
            let mut taken: Vec<StyledSpan> = Vec::new();
            std::mem::swap(&mut taken, &mut self.spans);
            self.lines.push(taken);
            assert(line_views(self.lines@) =~= line_views(old(self).lines@).push(
                span_views(old(self).spans@),
            ));
            assert(span_views(self.spans@) =~= Seq::<(Seq<char>, Option<SpanStyle>)>::empty());
        }
    }

    fn push_span(&mut self, text: String, style: Option<SpanStyle>)
        requires
            old(self).wf(),
        ensures
            final(self).wf(),
            final(self).model() == with_span(old(self).model(), text@, style),
    {
        let ghost t = text@;
        self.spans.push(StyledSpan { text, style });
        assert(span_views(self.spans@) =~= span_views(old(self).spans@).push((t, style)));
    }

    fn push_table_text(&mut self, text: &str)
        requires
            old(self).wf(),
        ensures
            final(self).wf(),
            final(self).model() == with_table_text(old(self).model(), text@),
    {
        match self.table.take() {
            Some(mut t) => {
                push_str(&mut t.current_cell, text);
                self.table = Some(t);
            },
            None => {},
        }
    }

    fn start_table(&mut self, alignments: Vec<CellAlignment>)
        requires
            old(self).wf(),
        ensures
            final(self).wf(),
            final(self).model() == started_table(old(self).model(), alignments@),
    {
        self.flush_line();
        let t = MarkdownTable {
            alignments,
            rows: Vec::new(),
            current_row: Vec::new(),
            current_cell: String::new(),
            header_rows: 0,
        };
        assert(t.model().rows =~= Seq::<Seq<Seq<char>>>::empty());
        assert(t.model().current_row =~= Seq::<Seq<char>>::empty());
        self.table = Some(t);
    }

    fn start(&mut self, tag: MarkdownTag)
        requires
            old(self).wf(),
            old(self).list_depth < usize::MAX,
        ensures
            final(self).wf(),
            final(self).model() == spec_start(old(self).model(), tag),
    {
        match tag {
            MarkdownTag::Table => self.start_table(Vec::new()),
            MarkdownTag::Heading => {
                let s = self.accent(Accent::Heading);
                self.push_style(
                    SpanStyle {
                        accent: s.accent,
                        bold: true,
                        italic: s.italic,
                        crossed_out: s.crossed_out,
                        underlined: s.underlined,
                    },
                );
            },
            MarkdownTag::Strong => {
                let s = self.style();
                self.push_style(
                    SpanStyle {
                        accent: s.accent,
                        bold: true,
                        italic: s.italic,
                        crossed_out: s.crossed_out,
                        underlined: s.underlined,
                    },
                );
            },
            MarkdownTag::Emphasis => {
                let s = self.style();
                self.push_style(
                    SpanStyle {
                        accent: s.accent,
                        bold: s.bold,
                        italic: true,
                        crossed_out: s.crossed_out,
                        underlined: s.underlined,
                    },
                );
            },
            MarkdownTag::Strikethrough => {
                let s = self.style();
                self.push_style(
                    SpanStyle {
                        accent: s.accent,
                        bold: s.bold,
                        italic: s.italic,
                        crossed_out: true,
                        underlined: s.underlined,
                    },
                );
            },
            MarkdownTag::Link => {
                let s = self.accent(Accent::Link);
                self.push_style(
                    SpanStyle {
                        accent: s.accent,
                        bold: s.bold,
                        italic: s.italic,
                        crossed_out: s.crossed_out,
                        underlined: true,
                    },
                );
            },
            MarkdownTag::BlockQuote => {
                let s = self.accent(Accent::Quote);
                self.push_span("> ".to_owned(), Some(s));
            },
            MarkdownTag::List => {
                self.list_depth = self.list_depth + 1;
            },
            MarkdownTag::Item => {
                let s = self.accent(Accent::Marker);
                let marker = item_marker_text(self.list_depth);
                self.push_span(marker, Some(s));
            },
            MarkdownTag::CodeBlock => {
                let s = self.accent(Accent::CodeBlock);
                self.flush_line();
                self.code_block = true;
                self.push_style(s);
            },
            _ => {},
        }
    }

    /// Ends the table: its rows are laid out as lines.
    fn render_table(&mut self)
        requires
            old(self).wf(),
        ensures
            final(self).wf(),
            final(self).model() == spec_end(old(self).model(), MarkdownTag::Table),
    {
        match self.table.take() {
            Some(t) => {
                let row_style = self.style();
                let header_style = SpanStyle {
                    accent: row_style.accent,
                    bold: true,
                    italic: row_style.italic,
                    crossed_out: row_style.crossed_out,
                    underlined: row_style.underlined,
                };
                let rule_style = self.accent(Accent::Rule);
                let mut produced = t.lines(row_style, header_style, rule_style);
                let ghost before = line_views(self.lines@);
                let ghost added = line_views(produced@);
                self.lines.append(&mut produced);
                assert(line_views(self.lines@) =~= before + added);
            },
            None => {},
        }
    }

    fn end(&mut self, tag: MarkdownTag)
        requires
            old(self).wf(),
        ensures
            final(self).wf(),
            final(self).model() == spec_end(old(self).model(), tag),
    {
        match tag {
            MarkdownTag::TableCell => match self.table.take() {
                Some(mut t) => {
                    let mut cell = String::new();
                    std::mem::swap(&mut cell, &mut t.current_cell);
                    let ghost before = string_views(t.current_row@);
                    let ghost cell_view = cell@;
                    t.current_row.push(cell);
                    assert(string_views(t.current_row@) =~= before.push(cell_view));
                    self.table = Some(t);
                },
                None => {},
            },
            MarkdownTag::TableRow => match self.table.take() {
                Some(mut t) => {
                    let mut row: Vec<String> = Vec::new();
                    std::mem::swap(&mut row, &mut t.current_row);
                    let ghost before = row_views(t.rows@);
                    let ghost row_view = string_views(row@);
                    t.rows.push(row);
                    assert(row_views(t.rows@) =~= before.push(row_view));
                    assert(string_views(t.current_row@) =~= Seq::<Seq<char>>::empty());
                    self.table = Some(t);
                },
                None => {},
            },
            MarkdownTag::TableHead => match self.table.take() {
                Some(mut t) => {
                    if t.current_row.len() > 0 {
                        let mut row: Vec<String> = Vec::new();
                        std::mem::swap(&mut row, &mut t.current_row);
                        let ghost before = row_views(t.rows@);
                        let ghost row_view = string_views(row@);
                        t.rows.push(row);
                        assert(row_views(t.rows@) =~= before.push(row_view));
                        assert(string_views(t.current_row@) =~= Seq::<Seq<char>>::empty());
                    }
                    t.header_rows = t.rows.len();
                    self.table = Some(t);
                },
                None => {},
            },
            MarkdownTag::Table => self.render_table(),
            MarkdownTag::Paragraph => self.flush_line(),
            MarkdownTag::Item => self.flush_line(),
            MarkdownTag::BlockQuote => self.flush_line(),
            MarkdownTag::Heading => {
                self.flush_line();
                self.pop_style();
            },
            MarkdownTag::Strong => self.pop_style(),
            MarkdownTag::Emphasis => self.pop_style(),
            MarkdownTag::Strikethrough => self.pop_style(),
            MarkdownTag::Link => self.pop_style(),
            MarkdownTag::List => {
                if self.list_depth >= 1 {
                    self.list_depth = self.list_depth - 1;
                }
            },
            MarkdownTag::CodeBlock => {
                self.flush_line();
                self.code_block = false;
                self.pop_style();
            },
            _ => {},
        }
    }

    fn push_text(&mut self, text: &str)
        requires
            old(self).wf(),
        ensures
            final(self).wf(),
            final(self).model() == spec_text(old(self).model(), text@),
    {
        if self.table.is_some() {
            self.push_table_text(text);
        } else if self.code_block {
            let pieces = split_newlines(text);
            let ghost pv = pieces@.map_values(|p: Vec<char>| p@);
            let ghost m0 = self.model();
            let mut k: usize = 0;
            assert(pv.take(0) =~= Seq::<Seq<char>>::empty());
            while k < pieces.len()
                invariant
                    self.wf(),
                    k <= pieces@.len(),
                    pv == pieces@.map_values(|p: Vec<char>| p@),
                    self.model() == code_fold(m0, pv.take(k as int)),
                decreases pieces@.len() - k,
            {
                proof {
                    assert(pv.take(k + 1).drop_last() =~= pv.take(k as int));
                    assert(pv.take(k + 1).last() == pieces@[k as int]@);
                }
                if k > 0 {
                    self.flush_line();
                }
                if pieces[k].len() > 0 {
                    let mut piece = "  ".to_owned();
                    push_chars(&mut piece, pieces[k].as_slice());
                    let s = self.style();
                    self.push_span(piece, Some(s));
                }
                k += 1;
            }
            assert(pv.take(k as int) =~= pv);
        } else {
            let s = self.style();
            self.push_span(text.to_owned(), Some(s));
        }
    }

    fn push(&mut self, event: MarkdownEvent)
        requires
            old(self).wf(),
            old(self).list_depth < usize::MAX,
        ensures
            final(self).wf(),
            final(self).model() == spec_step(old(self).model(), event@),
    {
        match event {
            MarkdownEvent::Start(tag) => self.start(tag),
            MarkdownEvent::StartTable(alignments) => self.start_table(alignments),
            MarkdownEvent::End(tag) => self.end(tag),
            MarkdownEvent::Text(text) => self.push_text(text.as_str()),
            MarkdownEvent::Code(code) => {
                if self.table.is_some() {
                    self.push_table_text(code.as_str());
                } else {
                    let s = self.accent(Accent::Code);
                    self.push_span(code, Some(s));
                }
            },
            MarkdownEvent::SoftBreak => {
                if self.table.is_some() {
                    self.push_table_text(" ");
                } else {
                    self.push_span(" ".to_owned(), None);
                }
            },
            MarkdownEvent::HardBreak => self.flush_line(),
            MarkdownEvent::Rule => {
                let s = self.accent(Accent::Rule);
                self.flush_line();
                let mut rule = String::new();
                push_repeated(&mut rule, '-', 40);
                self.push_span(rule, Some(s));
                self.flush_line();
            },
            MarkdownEvent::TaskListMarker(checked) => {
                let s = self.accent(Accent::Marker);
                let marker = if checked {
                    "[x] ".to_owned()
                } else {
                    "[ ] ".to_owned()
                };
                self.push_span(marker, Some(s));
            },
            MarkdownEvent::Other => {},
        }
    }

    fn finish(self) -> (r: Vec<Vec<StyledSpan>>)
        requires
            self.wf(),
        ensures
            line_views(r@) == flushed(self.model()).lines,
    {
        let mut renderer = self;
        renderer.flush_line();
        renderer.lines
    }
}

/// Lays out a Markdown text, given as its events, as lines of styled spans.
pub fn markdown_lines(events: Vec<MarkdownEvent>, muted: bool) -> (r: Vec<Vec<StyledSpan>>)
    ensures
        line_views(r@) == spec_markdown(event_views(events@), muted),
{
    let mut renderer = MarkdownRenderer::new(muted);
    let ghost all = event_views(events@);
    let count = events.len();
    let mut done: Ghost<int> = Ghost(0);
    for event in it: events.into_iter()
        invariant
            it.seq() == events@,
            all == event_views(events@),
            all.len() == count,
            done@ == it.index(),
            0 <= done@ <= all.len(),
            renderer.wf(),
            renderer.list_depth <= done@,
            renderer.model() == spec_fold(initial_model(muted), all.take(done@)),
    {
        assert(event == events@[done@]);
        assert(done@ < count);
        proof {
            assert(all.take(done@ + 1).drop_last() =~= all.take(done@));
            assert(all.take(done@ + 1).last() == event@);
            lemma_step_depth(renderer.model(), event@);
        }
        renderer.push(event);
        proof {
            done@ = done@ + 1;
        }
    }
    assert(all.take(done@) =~= all);
    renderer.finish()
}



/// An event as pulldown-cmark reports it, in plain values: a container by the
/// name `Debug` gives its end tag (`Paragraph`, `Heading(H1)`, `List(false)`, …),
/// and a table's column alignments by their position in pulldown-cmark's
/// `Alignment` (0 none, 1 left, 2 centre, 3 right).
pub enum ParsedEvent {
    Start(String),
    StartTable(Vec<u8>),
    End(String),
    Text(String),
    Code(String),
    SoftBreak,
    HardBreak,
    Rule,
    TaskListMarker(bool),
    Other,
}

/// The events pulldown-cmark's parser gives for a text, with strikethrough, task
/// lists and tables enabled.
pub uninterp spec fn pulldown_events(content: Seq<char>) -> Seq<ParsedEvent>;

/// Parses `content` with `pulldown_cmark::Parser::new_ext`, strikethrough, task
/// lists and tables enabled, and hands each event over as plain values; the
/// events are what `pulldown_events` names.
#[verifier::external_body]
fn parse_markdown(content: &str) -> (r: Vec<ParsedEvent>)
    ensures
        r@ == pulldown_events(content@),
{
    let options = Options::ENABLE_STRIKETHROUGH | Options::ENABLE_TASKLISTS | Options::ENABLE_TABLES;
    Parser::new_ext(content, options)
        .map(|event| match event {
            Event::Start(Tag::Table(a)) => ParsedEvent::StartTable(a.iter().map(|x| *x as u8).collect()),
            Event::Start(tag) => ParsedEvent::Start(format!("{:?}", tag.to_end())),
            Event::End(tag) => ParsedEvent::End(format!("{:?}", tag)),
            Event::Text(text) => ParsedEvent::Text(text.into_string()),
            Event::Code(code) => ParsedEvent::Code(code.into_string()),
            Event::SoftBreak => ParsedEvent::SoftBreak,
            Event::HardBreak => ParsedEvent::HardBreak,
            Event::Rule => ParsedEvent::Rule,
            Event::TaskListMarker(checked) => ParsedEvent::TaskListMarker(checked),
            _ => ParsedEvent::Other,
        })
        .collect()
}

/// The container an end-tag name stands for: the plain names as they are, and
/// headings, quotes and lists by the name before their bracket.
pub open spec fn tag_named(name: Seq<char>) -> MarkdownTag {
    if name == "Table"@ {
        MarkdownTag::Table
    } else if name == "TableHead"@ {
        MarkdownTag::TableHead
    } else if name == "TableRow"@ {
        MarkdownTag::TableRow
    } else if name == "TableCell"@ {
        MarkdownTag::TableCell
    } else if name == "Paragraph"@ {
        MarkdownTag::Paragraph
    } else if name == "Strong"@ {
        MarkdownTag::Strong
    } else if name == "Emphasis"@ {
        MarkdownTag::Emphasis
    } else if name == "Strikethrough"@ {
        MarkdownTag::Strikethrough
    } else if name == "Link"@ {
        MarkdownTag::Link
    } else if name == "Item"@ {
        MarkdownTag::Item
    } else if name == "CodeBlock"@ {
        MarkdownTag::CodeBlock
    } else if starts_with(name, "Heading("@) {
        MarkdownTag::Heading
    } else if starts_with(name, "BlockQuote("@) {
        MarkdownTag::BlockQuote
    } else if starts_with(name, "List("@) {
        MarkdownTag::List
    } else {
        MarkdownTag::Other
    }
}

/// The alignment at a position of pulldown-cmark's `Alignment`.
pub open spec fn alignment_numbered(n: u8) -> CellAlignment {
    if n == 1 {
        CellAlignment::Left
    } else if n == 2 {
        CellAlignment::Center
    } else if n == 3 {
        CellAlignment::Right
    } else {
        CellAlignment::Unspecified
    }
}

/// A parsed event as the renderer reads it.
pub open spec fn parsed_view(p: ParsedEvent) -> EventView {
    match p {
        ParsedEvent::Start(name) => EventView::Start(tag_named(name@)),
        ParsedEvent::StartTable(numbers) => EventView::StartTable(
            numbers@.map_values(|n: u8| alignment_numbered(n)),
        ),
        ParsedEvent::End(name) => EventView::End(tag_named(name@)),
        ParsedEvent::Text(text) => EventView::Text(text@),
        ParsedEvent::Code(code) => EventView::Code(code@),
        ParsedEvent::SoftBreak => EventView::SoftBreak,
        ParsedEvent::HardBreak => EventView::HardBreak,
        ParsedEvent::Rule => EventView::Rule,
        ParsedEvent::TaskListMarker(checked) => EventView::TaskListMarker(checked),
        ParsedEvent::Other => EventView::Other,
    }
}

fn named(cs: &Vec<char>, name: &str) -> (b: bool)
    ensures
        b == (cs@ == name@),
{
    let wanted = chars_of(name);
    chars_equal(cs.as_slice(), wanted.as_slice())
}

fn begins(cs: &Vec<char>, prefix: &str) -> (b: bool)
    ensures
        b == starts_with(cs@, prefix@),
{
    let p = chars_of(prefix);
    if p.len() > cs.len() {
        return false;
    }
    let head = copy_range(cs.as_slice(), 0, p.len());
    assert(head@ == cs@.take(p@.len() as int));
    chars_equal(head.as_slice(), p.as_slice())
}

fn tag_of_name(name: &String) -> (t: MarkdownTag)
    ensures
        t == tag_named(name@),
{
    let cs = chars_of(name.as_str());
    if named(&cs, "Table") {
        MarkdownTag::Table
    } else if named(&cs, "TableHead") {
        MarkdownTag::TableHead
    } else if named(&cs, "TableRow") {
        MarkdownTag::TableRow
    } else if named(&cs, "TableCell") {
        MarkdownTag::TableCell
    } else if named(&cs, "Paragraph") {
        MarkdownTag::Paragraph
    } else if named(&cs, "Strong") {
        MarkdownTag::Strong
    } else if named(&cs, "Emphasis") {
        MarkdownTag::Emphasis
    } else if named(&cs, "Strikethrough") {
        MarkdownTag::Strikethrough
    } else if named(&cs, "Link") {
        MarkdownTag::Link
    } else if named(&cs, "Item") {
        MarkdownTag::Item
    } else if named(&cs, "CodeBlock") {
        MarkdownTag::CodeBlock
    } else if begins(&cs, "Heading(") {
        MarkdownTag::Heading
    } else if begins(&cs, "BlockQuote(") {
        MarkdownTag::BlockQuote
    } else if begins(&cs, "List(") {
        MarkdownTag::List
    } else {
        MarkdownTag::Other
    }
}

fn alignments_of(numbers: &Vec<u8>) -> (r: Vec<CellAlignment>)
    ensures
        r@ == numbers@.map_values(|n: u8| alignment_numbered(n)),
{
    let mut r: Vec<CellAlignment> = Vec::new();
    let mut i: usize = 0;
    while i < numbers.len()
        invariant
            i <= numbers@.len(),
            r@ == numbers@.take(i as int).map_values(|n: u8| alignment_numbered(n)),
        decreases numbers@.len() - i,
    {
        let n = numbers[i];
        let a = if n == 1 {
            CellAlignment::Left
        } else if n == 2 {
            CellAlignment::Center
        } else if n == 3 {
            CellAlignment::Right
        } else {
            CellAlignment::Unspecified
        };
        r.push(a);
        assert(numbers@.take(i + 1) =~= numbers@.take(i as int).push(n));
        i += 1;
        assert(r@ =~= numbers@.take(i as int).map_values(|n: u8| alignment_numbered(n)));
    }
    assert(numbers@.take(i as int) =~= numbers@);
    r
}

/// A parsed event as the renderer's event (see `parsed_view`).
fn event_of(p: ParsedEvent) -> (e: MarkdownEvent)
    ensures
        e@ == parsed_view(p),
{
    match p {
        ParsedEvent::Start(name) => MarkdownEvent::Start(tag_of_name(&name)),
        ParsedEvent::StartTable(numbers) => MarkdownEvent::StartTable(alignments_of(&numbers)),
        ParsedEvent::End(name) => MarkdownEvent::End(tag_of_name(&name)),
        ParsedEvent::Text(text) => MarkdownEvent::Text(text),
        ParsedEvent::Code(code) => MarkdownEvent::Code(code),
        ParsedEvent::SoftBreak => MarkdownEvent::SoftBreak,
        ParsedEvent::HardBreak => MarkdownEvent::HardBreak,
        ParsedEvent::Rule => MarkdownEvent::Rule,
        ParsedEvent::TaskListMarker(checked) => MarkdownEvent::TaskListMarker(checked),
        ParsedEvent::Other => MarkdownEvent::Other,
    }
}

/// Lays out a Markdown text as lines of styled spans: the events pulldown-cmark
/// gives for it, laid out by the renderer.
pub fn markdown_text_lines(content: &str, muted: bool) -> (r: Vec<Vec<StyledSpan>>)
    ensures
        line_views(r@) == spec_markdown(
            pulldown_events(content@).map_values(|p: ParsedEvent| parsed_view(p)),
            muted,
        ),
{
    let parsed = parse_markdown(content);
    let ghost all = parsed@;
    let mut events: Vec<MarkdownEvent> = Vec::new();
    let mut done: Ghost<int> = Ghost(0);
    for p in it: parsed.into_iter()
        invariant
            it.seq() == all,
            done@ == it.index(),
            0 <= done@ <= all.len(),
            event_views(events@) == all.take(done@).map_values(|p: ParsedEvent| parsed_view(p)),
    {
        assert(p == all[done@]);
        let e = event_of(p);
        let ghost before = event_views(events@);
        events.push(e);
        proof {
            assert(event_views(events@) =~= before.push(parsed_view(all[done@])));
            assert(all.take(done@ + 1) =~= all.take(done@).push(all[done@]));
            assert(all.take(done@ + 1).map_values(|p: ParsedEvent| parsed_view(p)) =~= all.take(
                done@,
            ).map_values(|p: ParsedEvent| parsed_view(p)).push(parsed_view(all[done@])));
            done@ = done@ + 1;
        }
    }
    assert(all.take(done@) =~= all);
    markdown_lines(events, muted)
}

pub open spec fn prefixed_views(v: Seq<(String, Vec<StyledSpan>)>) -> Seq<
    (Seq<char>, Seq<(Seq<char>, Option<SpanStyle>)>),
> {
    v.map_values(|p: (String, Vec<StyledSpan>)| (p.0@, span_views(p.1@)))
}

/// A body under a speaker's prefix: the prefix before the first line, two spaces
/// before each later one; an empty body still gets its line.
pub open spec fn spec_prefixed(prefix: Seq<char>, lines: Seq<Seq<(Seq<char>, Option<SpanStyle>)>>) -> Seq<
    (Seq<char>, Seq<(Seq<char>, Option<SpanStyle>)>),
> {
    let body = if lines.len() == 0 {
        seq![Seq::empty()]
    } else {
        lines
    };
    Seq::new(
        body.len(),
        |k: int|
            (
                if k == 0 {
                    prefix
                } else {
                    "  "@
                },
                body[k],
            ),
    )
}

/// Puts a rendered body under a prefix (see `spec_prefixed`).
pub fn prefixed_lines(prefix: &str, lines: Vec<Vec<StyledSpan>>) -> (r: Vec<(String, Vec<StyledSpan>)>)
    ensures
        prefixed_views(r@) == spec_prefixed(prefix@, line_views(lines@)),
{
    let mut r: Vec<(String, Vec<StyledSpan>)> = Vec::new();
    if lines.len() == 0 {
        let empty: Vec<StyledSpan> = Vec::new();
        assert(span_views(empty@) =~= Seq::<(Seq<char>, Option<SpanStyle>)>::empty());
        r.push((prefix.to_owned(), empty));
        assert(prefixed_views(r@) =~= spec_prefixed(prefix@, line_views(lines@)));
        return r;
    }
    let ghost all = line_views(lines@);
    let ghost n = lines@.len();
    let mut done: Ghost<int> = Ghost(0);
    for line in it: lines.into_iter()
        invariant
            it.seq() == lines@,
            all == line_views(lines@),
            n == lines@.len(),
            n > 0,
            done@ == it.index(),
            0 <= done@ <= n,
            prefixed_views(r@) == spec_prefixed(prefix@, all).take(done@),
    {
        assert(line == lines@[done@]);
        let head = if r.len() == 0 {
            prefix.to_owned()
        } else {
            "  ".to_owned()
        };
        let ghost before = prefixed_views(r@);
        let ghost entry = (head@, span_views(line@));
        r.push((head, line));
        proof {
            assert(prefixed_views(r@) =~= before.push(entry));
            assert(spec_prefixed(prefix@, all).take(done@ + 1) =~= spec_prefixed(prefix@, all).take(
                done@,
            ).push(entry));
            done@ = done@ + 1;
        }
    }
    assert(spec_prefixed(prefix@, all).take(done@) =~= spec_prefixed(prefix@, all));
    r
}

proof fn lemma_aligned_cell_len(cell: Seq<char>, width: nat, alignment: CellAlignment)
    requires
        cell.len() <= width,
    ensures
        aligned_cell(cell, width, alignment).len() == width,
{
}

proof fn lemma_joined_same_len(p: Seq<Seq<char>>, q: Seq<Seq<char>>, sep: Seq<char>)
    requires
        p.len() == q.len(),
        forall|k: int| 0 <= k < p.len() ==> (#[trigger] p[k]).len() == q[k].len(),
    ensures
        joined(p, sep).len() == joined(q, sep).len(),
    decreases p.len(),
{
    if p.len() > 1 {
        assert forall|k: int| 0 <= k < p.drop_last().len() implies (#[trigger] p.drop_last()[k]).len()
            == q.drop_last()[k].len() by {
            assert(p.drop_last()[k] == p[k]);
            assert(q.drop_last()[k] == q[k]);
        }
        lemma_joined_same_len(p.drop_last(), q.drop_last(), sep);
    }
}

/// Every row of a table is laid out to the same width, so its columns line up.
pub proof fn law_table_rows_line_up(t: TableModel, i: int, j: int)
    requires
        0 <= i < t.rows.len(),
        0 <= j < t.rows.len(),
    ensures
        row_text(t, t.rows[i]).len() == row_text(t, t.rows[j]).len(),
{
    let n = column_count(t.rows);
    let p = row_cells(t, t.rows[i], n);
    let q = row_cells(t, t.rows[j], n);
    assert forall|k: int| 0 <= k < p.len() implies (#[trigger] p[k]).len() == q[k].len() by {
        lemma_column_width_bound(t.rows, i, k);
        lemma_column_width_bound(t.rows, j, k);
        lemma_aligned_cell_len(cell_at(t.rows[i], k), column_width(t.rows, k), alignment_at(t.alignments, k));
        lemma_aligned_cell_len(cell_at(t.rows[j], k), column_width(t.rows, k), alignment_at(t.alignments, k));
    }
    lemma_joined_same_len(p, q, " | "@);
}

/// Whether a span keeps the base colour.
pub open spec fn keeps_colour(style: Option<SpanStyle>) -> bool {
    match style {
        Some(s) => s.accent is None,
        None => true,
    }
}

pub open spec fn spans_keep_colour(spans: Seq<(Seq<char>, Option<SpanStyle>)>) -> bool {
    forall|k: int| 0 <= k < spans.len() ==> keeps_colour((#[trigger] spans[k]).1)
}

pub open spec fn lines_keep_colour(lines: Seq<Seq<(Seq<char>, Option<SpanStyle>)>>) -> bool {
    forall|l: int| 0 <= l < lines.len() ==> spans_keep_colour(#[trigger] lines[l])
}

/// A muted renderer whose every style, span and line keeps the base colour.
spec fn keeps_muted(m: RenderModel) -> bool {
    &&& m.muted
    &&& m.styles.len() >= 1
    &&& forall|k: int| 0 <= k < m.styles.len() ==> (#[trigger] m.styles[k]).accent is None
    &&& spans_keep_colour(m.spans)
    &&& lines_keep_colour(m.lines)
}

proof fn lemma_table_lines_keep_colour(
    t: TableModel,
    row_style: SpanStyle,
    header_style: SpanStyle,
    rule_style: SpanStyle,
    k: nat,
)
    requires
        row_style.accent is None,
        header_style.accent is None,
        rule_style.accent is None,
    ensures
        lines_keep_colour(table_lines(t, row_style, header_style, rule_style, k)),
    decreases k,
{
    if k > 0 {
        lemma_table_lines_keep_colour(t, row_style, header_style, rule_style, (k - 1) as nat);
    }
}

proof fn lemma_flushed_keeps_muted(m: RenderModel)
    requires
        keeps_muted(m),
    ensures
        keeps_muted(flushed(m)),
{
    if m.spans.len() > 0 {
        assert(lines_keep_colour(m.lines.push(m.spans))) by {
            assert forall|l: int| 0 <= l < m.lines.push(m.spans).len() implies spans_keep_colour(
                #[trigger] m.lines.push(m.spans)[l],
            ) by {
                if l < m.lines.len() {
                    assert(m.lines.push(m.spans)[l] == m.lines[l]);
                }
            }
        }
    }
}

proof fn lemma_with_span_keeps_muted(m: RenderModel, text: Seq<char>, style: Option<SpanStyle>)
    requires
        keeps_muted(m),
        keeps_colour(style),
    ensures
        keeps_muted(with_span(m, text, style)),
{
    let spans = m.spans.push((text, style));
    assert forall|k: int| 0 <= k < spans.len() implies keeps_colour((#[trigger] spans[k]).1) by {
        if k < m.spans.len() {
            assert(spans[k] == m.spans[k]);
        }
    }
}

proof fn lemma_with_style_keeps_muted(m: RenderModel, s: SpanStyle)
    requires
        keeps_muted(m),
        s.accent is None,
    ensures
        keeps_muted(with_style(m, s)),
{
    let styles = m.styles.push(s);
    assert forall|k: int| 0 <= k < styles.len() implies (#[trigger] styles[k]).accent is None by {
        if k < m.styles.len() {
            assert(styles[k] == m.styles[k]);
        }
    }
}

proof fn lemma_without_style_keeps_muted(m: RenderModel)
    requires
        keeps_muted(m),
    ensures
        keeps_muted(without_style(m)),
{
    if m.styles.len() > 1 {
        let styles = m.styles.drop_last();
        assert forall|k: int| 0 <= k < styles.len() implies (#[trigger] styles[k]).accent is None by {
            assert(styles[k] == m.styles[k]);
        }
    }
}

proof fn lemma_current_style_plain(m: RenderModel)
    requires
        keeps_muted(m),
    ensures
        current_style(m).accent is None,
        bold_of(current_style(m)).accent is None,
        italic_of(current_style(m)).accent is None,
        crossed_of(current_style(m)).accent is None,
        underlined_of(current_style(m)).accent is None,
        forall|a: Accent| (#[trigger] accented(m, a)).accent is None,
{
    assert(m.styles[m.styles.len() - 1].accent is None);
}

proof fn lemma_code_fold_keeps_muted(m: RenderModel, pieces: Seq<Seq<char>>)
    requires
        keeps_muted(m),
    ensures
        keeps_muted(code_fold(m, pieces)),
    decreases pieces.len(),
{
    if pieces.len() > 0 {
        let prev = code_fold(m, pieces.drop_last());
        lemma_code_fold_keeps_muted(m, pieces.drop_last());
        let f = if pieces.len() > 1 {
            flushed(prev)
        } else {
            prev
        };
        lemma_flushed_keeps_muted(prev);
        lemma_current_style_plain(f);
        if pieces.last().len() > 0 {
            lemma_with_span_keeps_muted(f, "  "@ + pieces.last(), Some(current_style(f)));
        }
    }
}

proof fn lemma_step_keeps_muted(m: RenderModel, e: EventView)
    requires
        keeps_muted(m),
    ensures
        keeps_muted(spec_step(m, e)),
{
    lemma_current_style_plain(m);
    lemma_flushed_keeps_muted(m);
    match e {
        EventView::Start(tag) => {
            match tag {
                MarkdownTag::Heading => lemma_with_style_keeps_muted(m, bold_of(accented(m, Accent::Heading))),
                MarkdownTag::Strong => lemma_with_style_keeps_muted(m, bold_of(current_style(m))),
                MarkdownTag::Emphasis => lemma_with_style_keeps_muted(m, italic_of(current_style(m))),
                MarkdownTag::Strikethrough => lemma_with_style_keeps_muted(m, crossed_of(current_style(m))),
                MarkdownTag::Link => lemma_with_style_keeps_muted(m, underlined_of(accented(m, Accent::Link))),
                MarkdownTag::BlockQuote => lemma_with_span_keeps_muted(m, "> "@, Some(accented(m, Accent::Quote))),
                MarkdownTag::Item => lemma_with_span_keeps_muted(
                    m,
                    item_marker(m.list_depth),
                    Some(accented(m, Accent::Marker)),
                ),
                MarkdownTag::CodeBlock => lemma_with_style_keeps_muted(
                    RenderModel { code_block: true, ..flushed(m) },
                    accented(m, Accent::CodeBlock),
                ),
                _ => {},
            }
        },
        EventView::End(tag) => {
            match tag {
                MarkdownTag::Table => {
                    if let Some(t) = m.table {
                        let added = table_lines(
                            t,
                            current_style(m),
                            bold_of(current_style(m)),
                            accented(m, Accent::Rule),
                            t.rows.len(),
                        );
                        lemma_table_lines_keep_colour(
                            t,
                            current_style(m),
                            bold_of(current_style(m)),
                            accented(m, Accent::Rule),
                            t.rows.len(),
                        );
                        let lines = m.lines + added;
                        assert forall|l: int| 0 <= l < lines.len() implies spans_keep_colour(
                            #[trigger] lines[l],
                        ) by {
                            if l < m.lines.len() {
                                assert(lines[l] == m.lines[l]);
                            } else {
                                assert(lines[l] == added[l - m.lines.len()]);
                            }
                        }
                    }
                },
                MarkdownTag::Heading => lemma_without_style_keeps_muted(flushed(m)),
                MarkdownTag::Strong => lemma_without_style_keeps_muted(m),
                MarkdownTag::Emphasis => lemma_without_style_keeps_muted(m),
                MarkdownTag::Strikethrough => lemma_without_style_keeps_muted(m),
                MarkdownTag::Link => lemma_without_style_keeps_muted(m),
                MarkdownTag::CodeBlock => lemma_without_style_keeps_muted(
                    RenderModel { code_block: false, ..flushed(m) },
                ),
                _ => {},
            }
        },
        EventView::Text(text) => {
            if m.table is None && m.code_block {
                lemma_code_fold_keeps_muted(m, newline_pieces(text));
            } else if m.table is None {
                lemma_with_span_keeps_muted(m, text, Some(current_style(m)));
            }
        },
        EventView::Code(code) => {
            if m.table is None {
                lemma_with_span_keeps_muted(m, code, Some(accented(m, Accent::Code)));
            }
        },
        EventView::SoftBreak => {
            if m.table is None {
                lemma_with_span_keeps_muted(m, " "@, None);
            }
        },
        EventView::Rule => {
            let f = flushed(m);
            lemma_with_span_keeps_muted(f, repeated('-', 40), Some(accented(m, Accent::Rule)));
            lemma_flushed_keeps_muted(with_span(f, repeated('-', 40), Some(accented(m, Accent::Rule))));
        },
        EventView::TaskListMarker(checked) => {
            lemma_with_span_keeps_muted(
                m,
                if checked {
                    "[x] "@
                } else {
                    "[ ] "@
                },
                Some(accented(m, Accent::Marker)),
            );
        },
        _ => {},
    }
}

proof fn lemma_fold_keeps_muted(events: Seq<EventView>)
    ensures
        keeps_muted(spec_fold(initial_model(true), events)),
    decreases events.len(),
{
    if events.len() == 0 {
        assert(initial_model(true).styles[0] == base_style());
    } else {
        lemma_fold_keeps_muted(events.drop_last());
        lemma_step_keeps_muted(spec_fold(initial_model(true), events.drop_last()), events.last());
    }
}

/// Muted text (reasoning) is laid out without any accent colour: every span keeps
/// the base colour.
pub proof fn law_muted_text_takes_no_accent(events: Seq<EventView>)
    ensures
        lines_keep_colour(spec_markdown(events, true)),
{
    lemma_fold_keeps_muted(events);
    lemma_flushed_keeps_muted(spec_fold(initial_model(true), events));
}

/// `count` list openings in a row.
pub open spec fn list_openings(count: nat) -> Seq<EventView> {
    Seq::new(count, |_i: int| EventView::Start(MarkdownTag::List))
}

/// The bullet of a list item is spaces followed by `* `, with two spaces for each
/// level of nesting below the first: at depth `d` it is `2 * d` characters long, so
/// an item of a list opened inside this one gets a bullet two characters longer.
pub proof fn law_nested_bullets_indent_two_per_level(m: RenderModel)
    requires
        m.list_depth >= 1,
    ensures
        ({
            let after = spec_step(m, EventView::Start(MarkdownTag::Item));
            let bullet = after.spans.last().0;
            let nested = spec_step(
                spec_step(m, EventView::Start(MarkdownTag::List)),
                EventView::Start(MarkdownTag::Item),
            ).spans.last().0;
            &&& after.spans.len() == m.spans.len() + 1
            &&& after.spans.drop_last() == m.spans
            &&& bullet.len() == 2 * m.list_depth
            &&& forall|i: int| 0 <= i < bullet.len() - 2 ==> bullet[i] == ' '
            &&& bullet[bullet.len() - 2] == '*'
            &&& bullet[bullet.len() - 1] == ' '
            &&& nested.len() == bullet.len() + 2
        }),
{
    reveal_strlit("* ");
    let after = spec_step(m, EventView::Start(MarkdownTag::Item));
    assert(after.spans.drop_last() =~= m.spans);
    let bullet = item_marker(m.list_depth);
    let pad = repeated(' ', (2 * (m.list_depth - 1)) as nat);
    assert(bullet == pad + "* "@);
    assert(after.spans.last().0 == bullet);
    assert(bullet.len() == pad.len() + 2);
    assert forall|i: int| 0 <= i < bullet.len() - 2 implies bullet[i] == ' ' by {
        assert(bullet[i] == pad[i]);
    }
    assert(bullet[bullet.len() - 2] == "* "@[0]);
    assert(bullet[bullet.len() - 1] == "* "@[1]);
    let deeper = spec_step(m, EventView::Start(MarkdownTag::List));
    assert(deeper.list_depth == m.list_depth + 1);
    let nested = spec_step(deeper, EventView::Start(MarkdownTag::Item)).spans.last().0;
    assert(nested == item_marker(deeper.list_depth));
    assert(nested.len() == 2 * (deeper.list_depth - 1) + 2);
}

/// Closing a list undoes its opening: items that follow are indented as before it.
pub proof fn law_closing_a_list_restores_the_depth(m: RenderModel)
    ensures
        spec_step(
            spec_step(m, EventView::Start(MarkdownTag::List)),
            EventView::End(MarkdownTag::List),
        ).list_depth == m.list_depth,
{
}

/// Opening `count` lists from the start of a text nests the next item `count` deep:
/// its bullet is `* ` indented by two spaces for each list after the first.
pub proof fn law_list_depth_counts_openings(muted: bool, count: nat)
    ensures
        spec_fold(initial_model(muted), list_openings(count)).list_depth == count,
    decreases count,
{
    if count > 0 {
        assert(list_openings(count).drop_last() =~= list_openings((count - 1) as nat));
        law_list_depth_counts_openings(muted, (count - 1) as nat);
    }
}

} // verus!
