//! Terminal-cell arithmetic over grapheme clusters: display widths, where a wrapped
//! input row ends, tail truncation with an ellipsis, long user messages cut to their
//! edges, and how far a tall input scrolls to keep its cursor in view.

use vstd::prelude::*;
use vstd::utf8::encode_utf8;
use crate::text::{chars_of, decimal, push_chars, push_decimal, push_str, string_views};
use unicode_segmentation::UnicodeSegmentation;
use unicode_width::UnicodeWidthStr;

verus! {

/// The extended grapheme clusters of a string, in order.
pub uninterp spec fn extended_graphemes(s: Seq<char>) -> Seq<Seq<char>>;

/// The width in terminal columns that `unicode-width` gives a string.
pub uninterp spec fn unicode_str_width(s: Seq<char>) -> usize;

/// The characters of the clusters, one after the other.
pub open spec fn flatten(gs: Seq<Seq<char>>) -> Seq<char>
    decreases gs.len(),
{
    if gs.len() == 0 {
        Seq::<char>::empty()
    } else {
        flatten(gs.drop_last()) + gs.last()
    }
}

/// Splits `s` into extended grapheme clusters (`UnicodeSegmentation::graphemes` with
/// `is_extended` set). The clusters are non-empty and, joined, give back `s`: the
/// iterator hands out consecutive non-empty slices from the start of `s` to its end.
#[verifier::external_body]
pub(crate) fn graphemes_of(s: &str) -> (r: Vec<String>)
    ensures
        string_views(r@) == extended_graphemes(s@),
        flatten(string_views(r@)) == s@,
        forall|i: int| 0 <= i < r@.len() ==> (#[trigger] r@[i])@.len() > 0,
{
    s.graphemes(true).map(|g| g.to_string()).collect()
}

/// The display width of a string (`UnicodeWidthStr::width`).
#[verifier::external_body]
pub(crate) fn unicode_width_of(s: &str) -> (w: usize)
    ensures
        w == unicode_str_width(s@),
{
    UnicodeWidthStr::width(s)
}

/// `a + b`, stopping at `usize::MAX`.
pub open spec fn sat_add(a: int, b: int) -> int {
    if a + b > usize::MAX {
        usize::MAX as int
    } else {
        a + b
    }
}

/// A cluster's width in the input box: a tab takes four cells.
pub open spec fn input_grapheme_width(g: Seq<char>) -> int {
    if g == seq!['\t'] {
        4
    } else {
        unicode_str_width(g) as int
    }
}

/// The summed widths of the clusters.
pub open spec fn widths_sum(gs: Seq<Seq<char>>) -> int
    decreases gs.len(),
{
    if gs.len() == 0 {
        0
    } else {
        widths_sum(gs.drop_last()) + input_grapheme_width(gs.last())
    }
}

pub proof fn lemma_widths_sum_nonneg(gs: Seq<Seq<char>>)
    ensures
        widths_sum(gs) >= 0,
    decreases gs.len(),
{
    if gs.len() > 0 {
        lemma_widths_sum_nonneg(gs.drop_last());
    }
}

/// The display width of `text` in the input box, the sum over its clusters.
pub open spec fn spec_display_width(text: Seq<char>) -> int {
    widths_sum(extended_graphemes(text))
}

/// The display width as `display_width` reports it, stopping at `usize::MAX`.
pub open spec fn saturated_display_width(text: Seq<char>) -> int {
    if spec_display_width(text) > usize::MAX {
        usize::MAX as int
    } else {
        spec_display_width(text)
    }
}

pub(crate) fn grapheme_input_width(g: &String) -> (w: usize)
    ensures
        w == input_grapheme_width(g@),
{
    let cs = chars_of(g.as_str());
    if cs.len() == 1 && cs[0] == '\t' {
        assert(cs@ == seq!['\t']);
        4
    } else {
        assert(cs@ != seq!['\t']) by {
            if cs@ == seq!['\t'] {
                assert(cs@.len() == 1);
            }
        }
        unicode_width_of(g.as_str())
    }
}

/// The width of `text` in terminal cells, a tab counting four; the sum stops at
/// `usize::MAX`.
pub fn display_width(text: &str) -> (w: usize)
    ensures
        w == saturated_display_width(text@),
{
    let gs = graphemes_of(text);
    let ghost views = string_views(gs@);
    let mut total: usize = 0;
    let mut i: usize = 0;
    while i < gs.len()
        invariant
            i <= gs@.len(),
            views == string_views(gs@),
            total == if widths_sum(views.take(i as int)) > usize::MAX {
                usize::MAX as int
            } else {
                widths_sum(views.take(i as int))
            },
        decreases gs@.len() - i,
    {
        let w = grapheme_input_width(&gs[i]);
        proof {
            assert(views.take(i + 1).drop_last() == views.take(i as int));
            lemma_widths_sum_nonneg(views.take(i as int));
        }
        total = total.saturating_add(w);
        i += 1;
    }
    assert(views.take(gs@.len() as int) == views);
    total
}

/// Where a wrapped row starting at the clusters `gs` ends, in bytes: clusters are
/// taken while they fit in `width` cells (the first always), and the row closes as
/// soon as it is full.
pub open spec fn segment_end_from(gs: Seq<Seq<char>>, width: int, used: int, end: int) -> int
    decreases gs.len(),
{
    if gs.len() == 0 {
        end
    } else {
        let w = input_grapheme_width(gs[0]);
        if end != 0 && sat_add(used, w) > width {
            end
        } else {
            let end2 = sat_add(end, encode_utf8(gs[0]).len() as int);
            let used2 = sat_add(used, w);
            if used2 >= width {
                end2
            } else {
                segment_end_from(gs.drop_first(), width, used2, end2)
            }
        }
    }
}

/// The byte length of the leading part of `text` that fills one row of `width` cells.
pub fn wrapped_segment_end(text: &str, width: usize) -> (end: usize)
    ensures
        end == segment_end_from(extended_graphemes(text@), width as int, 0, 0),
{
    let gs = graphemes_of(text);
    let ghost views = string_views(gs@);
    let mut display_width: usize = 0;
    let mut end: usize = 0;
    let mut i: usize = 0;
    assert(views.skip(0) == views);
    while i < gs.len()
        invariant
            i <= gs@.len(),
            views == string_views(gs@),
            views == extended_graphemes(text@),
            segment_end_from(views.skip(i as int), width as int, display_width as int, end as int)
                == segment_end_from(views, width as int, 0, 0),
        decreases gs@.len() - i,
    {
        let grapheme_width = grapheme_input_width(&gs[i]);
        let ghost rest = views.skip(i as int);
        assert(rest[0] == gs@[i as int]@);
        let next_width = display_width.saturating_add(grapheme_width);
        assert(next_width == sat_add(display_width as int, grapheme_width as int));
        if end != 0 && next_width > width {
            assert(segment_end_from(rest, width as int, display_width as int, end as int) == end);
            return end;
        }
        let bytes = gs[i].as_str().as_bytes().len();
        assert(bytes == encode_utf8(rest[0]).len());
        let next_end = end.saturating_add(bytes);
        assert(next_end == sat_add(end as int, bytes as int));
        if next_width >= width {
            assert(segment_end_from(rest, width as int, display_width as int, end as int) == next_end);
            return next_end;
        }
        end = next_end;
        display_width = next_width;
        assert(views.skip(i as int).drop_first() == views.skip(i + 1));
        i += 1;
    }
    end
}

/// The first row of a `total_rows`-tall input shown in `visible_rows` rows so that
/// the cursor row sits in the middle where it can.
pub fn cursor_scroll_start(cursor_row: usize, total_rows: usize, visible_rows: usize) -> (r: usize)
    ensures
        ({
            let v = if visible_rows == 0 {
                1int
            } else {
                visible_rows as int
            };
            let a = if cursor_row >= v / 2 {
                cursor_row - v / 2
            } else {
                0
            };
            let b = if total_rows >= v {
                total_rows - v
            } else {
                0
            };
            r == if a < b {
                a
            } else {
                b
            }
        }),
{
    let visible_rows = if visible_rows == 0 {
        1
    } else {
        visible_rows
    };
    let a = cursor_row.saturating_sub(visible_rows / 2);
    let b = total_rows.saturating_sub(visible_rows);
    if a < b {
        a
    } else {
        b
    }
}

/// How many times `c` occurs in `s`.
pub open spec fn count_char(s: Seq<char>, c: char) -> int
    decreases s.len(),
{
    if s.len() == 0 {
        0
    } else {
        count_char(s.drop_last(), c) + if s.last() == c {
            1int
        } else {
            0
        }
    }
}

/// Clusters kept at each edge of a long user message.
pub const EDGE_GRAPHEMES: usize = 2_500;

/// Longest user message, in clusters, shown whole.
pub const MAX_GRAPHEMES: usize = 10_000;

/// The marker line between the two edges of a cut message.
pub open spec fn omitted_marker(count: int) -> Seq<char> {
    seq!['\n', '…', ' ', '+'] + decimal(count as nat) + seq![' ', 'l', 'i', 'n', 'e', 's', ' ', '…', '\n']
}

/// A user message of more than 10,000 clusters keeps its first and last 2,500
/// clusters, joined by a line saying how many line breaks were left out.
pub open spec fn spec_truncate_user_content(content: Seq<char>) -> Seq<char> {
    let gs = extended_graphemes(content);
    if gs.len() <= MAX_GRAPHEMES {
        content
    } else {
        let first = flatten(gs.take(EDGE_GRAPHEMES as int));
        let middle = flatten(gs.subrange(EDGE_GRAPHEMES as int, gs.len() - EDGE_GRAPHEMES));
        let last = flatten(gs.skip(gs.len() - EDGE_GRAPHEMES));
        first + omitted_marker(count_char(middle, '\n')) + last
    }
}

proof fn lemma_count_char_concat(a: Seq<char>, b: Seq<char>, c: char)
    ensures
        count_char(a + b, c) == count_char(a, c) + count_char(b, c),
    decreases b.len(),
{
    if b.len() == 0 {
        assert(a + b == a);
    } else {
        assert((a + b).drop_last() == a + b.drop_last());
        assert((a + b).last() == b.last());
        lemma_count_char_concat(a, b.drop_last(), c);
    }
}

proof fn lemma_count_char_nonneg(s: Seq<char>, c: char)
    ensures
        count_char(s, c) >= 0,
    decreases s.len(),
{
    if s.len() > 0 {
        lemma_count_char_nonneg(s.drop_last(), c);
    }
}

/// A long user message keeps its first and last 2,500 clusters whole, and the
/// marker between them counts exactly the line breaks left out: all the line
/// breaks of the clusters but those of the kept head and tail. A message of at most
/// 10,000 clusters is shown as it is.
pub proof fn law_the_marker_counts_only_omitted_line_breaks(content: Seq<char>)
    ensures
        ({
            let gs = extended_graphemes(content);
            let n = gs.len() as int;
            let head = flatten(gs.take(EDGE_GRAPHEMES as int));
            let tail = flatten(gs.skip(n - EDGE_GRAPHEMES));
            let omitted = count_char(flatten(gs), '\n') - count_char(head, '\n') - count_char(tail, '\n');
            &&& n <= MAX_GRAPHEMES ==> spec_truncate_user_content(content) == content
            &&& n > MAX_GRAPHEMES ==> omitted >= 0 && spec_truncate_user_content(content) == head
                + omitted_marker(omitted) + tail
        }),
{
    let gs = extended_graphemes(content);
    let n = gs.len() as int;
    if n > MAX_GRAPHEMES {
        let e = EDGE_GRAPHEMES as int;
        let rest = gs.skip(e);
        crate::wrap::lemma_flatten_split(gs, e);
        crate::wrap::lemma_flatten_split(rest, n - 2 * e);
        assert(rest.take(n - 2 * e) == gs.subrange(e, n - e));
        assert(rest.skip(n - 2 * e) == gs.skip(n - e));
        let head = flatten(gs.take(e));
        let middle = flatten(gs.subrange(e, n - e));
        let tail = flatten(gs.skip(n - e));
        assert(flatten(gs) == head + (middle + tail));
        lemma_count_char_concat(head, middle + tail, '\n');
        lemma_count_char_concat(middle, tail, '\n');
        lemma_count_char_nonneg(middle, '\n');
    }
}

/// Appends the clusters `gs[lo..hi]` to `out`.
fn push_graphemes(out: &mut String, gs: &Vec<String>, lo: usize, hi: usize)
    requires
        lo <= hi <= gs@.len(),
    ensures
        final(out)@ == old(out)@ + flatten(string_views(gs@).subrange(lo as int, hi as int)),
{
    let ghost views = string_views(gs@);
    let mut i = lo;
    assert(views.subrange(lo as int, lo as int) == Seq::<Seq<char>>::empty());
    while i < hi
        invariant
            lo <= i <= hi,
            hi <= gs@.len(),
            views == string_views(gs@),
            out@ == old(out)@ + flatten(views.subrange(lo as int, i as int)),
        decreases hi - i,
    {
        assert(views.subrange(lo as int, i + 1).drop_last() == views.subrange(lo as int, i as int));
        push_str(out, gs[i].as_str());
        i += 1;
    }
}

/// Counts the line breaks in `cs`.
fn count_newlines(cs: &[char]) -> (n: usize)
    ensures
        n == count_char(cs@, '\n'),
{
    let mut n: usize = 0;
    let mut j: usize = 0;
    while j < cs.len()
        invariant
            j <= cs@.len(),
            n == count_char(cs@.take(j as int), '\n'),
            n <= j,
        decreases cs@.len() - j,
    {
        assert(cs@.take(j + 1).drop_last() == cs@.take(j as int));
        if cs[j] == '\n' {
            n += 1;
        }
        j += 1;
    }
    assert(cs@.take(cs@.len() as int) == cs@);
    n
}

/// Cuts a user message of more than 10,000 grapheme clusters down to its first and
/// last 2,500, with a line saying how many line breaks were left out between them.
pub fn truncate_user_content(content: &str) -> (r: String)
    ensures
        r@ == spec_truncate_user_content(content@),
{
    let gs = graphemes_of(content);
    let ghost views = string_views(gs@);
    if gs.len() <= MAX_GRAPHEMES {
        return content.to_owned();
    }
    let n = gs.len();
    let mut out = String::new();
    push_graphemes(&mut out, &gs, 0, EDGE_GRAPHEMES);
    let mut middle = String::new();
    push_graphemes(&mut middle, &gs, EDGE_GRAPHEMES, n - EDGE_GRAPHEMES);
    let middle_chars = chars_of(middle.as_str());
    assert(middle_chars@ == flatten(views.subrange(EDGE_GRAPHEMES as int, n - EDGE_GRAPHEMES)));
    let omitted = count_newlines(middle_chars.as_slice());
    let head = vec!['\n', '…', ' ', '+'];
    push_chars(&mut out, head.as_slice());
    push_decimal(&mut out, omitted as u64);
    let tail = vec![' ', 'l', 'i', 'n', 'e', 's', ' ', '…', '\n'];
    push_chars(&mut out, tail.as_slice());
    push_graphemes(&mut out, &gs, n - EDGE_GRAPHEMES, n);
    proof {
        assert(views.subrange(0, EDGE_GRAPHEMES as int) == views.take(EDGE_GRAPHEMES as int));
        assert(views.subrange(n - EDGE_GRAPHEMES, n as int) == views.skip(n - EDGE_GRAPHEMES));
        assert(out@ == spec_truncate_user_content(content@));
    }
    out
}

/// `text` cut to `width` cells with a trailing `…` when it does not fit.
pub open spec fn spec_truncate_tail(text: Seq<char>, width: int) -> Seq<char> {
    if width == 0 {
        Seq::empty()
    } else if saturated_display_width(text) <= width {
        text
    } else if width == 1 {
        seq!['…']
    } else {
        flatten(extended_graphemes(text).take(fitting_prefix(extended_graphemes(text), width - 1, 0)))
            .push('…')
    }
}

/// How many leading clusters fit in `room` cells when `used` are already taken.
pub open spec fn fitting_prefix(gs: Seq<Seq<char>>, room: int, used: int) -> int
    decreases gs.len(),
{
    if gs.len() == 0 {
        0
    } else if used + unicode_str_width(gs[0]) > room {
        0
    } else {
        1 + fitting_prefix(gs.drop_first(), room, used + unicode_str_width(gs[0]))
    }
}

pub proof fn lemma_fitting_prefix_bound(gs: Seq<Seq<char>>, room: int, used: int)
    ensures
        0 <= fitting_prefix(gs, room, used) <= gs.len(),
    decreases gs.len(),
{
    if gs.len() > 0 {
        lemma_fitting_prefix_bound(gs.drop_first(), room, used + unicode_str_width(gs[0]));
    }
}

/// `text` cut to `width` cells, ending in `…` when it had to be cut.
pub fn truncate_tail(text: &str, width: usize) -> (r: String)
    ensures
        r@ == spec_truncate_tail(text@, width as int),
{
    if width == 0 {
        return String::new();
    }
    proof {
        lemma_widths_sum_nonneg(extended_graphemes(text@));
    }
    if display_width(text) <= width {
        return text.to_owned();
    }
    if width == 1 {
        let mut r = String::new();
        crate::text::push_char(&mut r, '…');
        return r;
    }
    let content_width = width - 1;
    let gs = graphemes_of(text);
    let ghost views = string_views(gs@);
    let mut used: usize = 0;
    let mut i: usize = 0;
    assert(views.skip(0) == views);
    let mut fits = true;
    while fits && i < gs.len()
        invariant
            i <= gs@.len(),
            used <= content_width,
            views == string_views(gs@),
            i + fitting_prefix(views.skip(i as int), content_width as int, used as int)
                == fitting_prefix(views, content_width as int, 0),
            !fits ==> fitting_prefix(views.skip(i as int), content_width as int, used as int) == 0,
        decreases gs@.len() - i + if fits {
            1int
        } else {
            0
        },
    {
        let w = unicode_width_of(gs[i].as_str());
        assert(views.skip(i as int)[0] == gs@[i as int]@);
        if w > content_width - used {
            fits = false;
        } else {
            used = used + w;
            assert(views.skip(i as int).drop_first() == views.skip(i + 1));
            i += 1;
        }
    }
    proof {
        if i == gs@.len() {
            assert(views.skip(i as int).len() == 0);
        }
        lemma_fitting_prefix_bound(views, content_width as int, 0);
    }
    let mut r = String::new();
    push_graphemes(&mut r, &gs, 0, i);
    assert(views.subrange(0, i as int) == views.take(i as int));
    crate::text::push_char(&mut r, '…');
    r
}

} // verus!
