//! The text of the spinner row under a busy transcript: which activity it names,
//! the animated glyph, the "thinking" notice, which status fields fit after the
//! message, the shimmer band that sweeps across the message, and the clipping of
//! the row to the terminal width. Colours are chosen by the caller.

use vstd::prelude::*;
use crate::format::{format_elapsed, rounded_seconds, spec_format_elapsed};
use crate::layout::{
    extended_graphemes, fitting_prefix, flatten, graphemes_of, sat_add,
    unicode_str_width, unicode_width_of,
};
use crate::spinner::{
    spec_spinner_frames, spinner_frames, SpinnerClock, SpinnerPlatform, SPINNER_FRAME_MS,
};
use crate::format::{is_active_status_name, is_in_progress_todo_status, normalized_status};
use crate::spinner::{builtin_spinner_verb, spec_builtin_spinner_verbs};
use crate::text::{chars_of, decimal, push_decimal, push_str, string_views, trim, trim_chars};
use crate::todos::TodoRow;

verus! {

/// What the spinner row is waiting on.
#[derive(Debug, Clone, Copy, PartialEq, Eq, Structural)]
pub enum SpinnerMode {
    Requesting,
    Reasoning,
    LiveResponse,
    ToolUse,
}

/// A running tool or sub-agent wins, then live reasoning, then a live response;
/// otherwise the request is still out.
pub fn spinner_mode_for(active_tool: bool, reasoning_live: bool, assistant_live: bool) -> (m:
    SpinnerMode)
    ensures
        m == if active_tool {
            SpinnerMode::ToolUse
        } else if reasoning_live {
            SpinnerMode::Reasoning
        } else if assistant_live {
            SpinnerMode::LiveResponse
        } else {
            SpinnerMode::Requesting
        },
{
    if active_tool {
        SpinnerMode::ToolUse
    } else if reasoning_live {
        SpinnerMode::Reasoning
    } else if assistant_live {
        SpinnerMode::LiveResponse
    } else {
        SpinnerMode::Requesting
    }
}

/// The glyph at `elapsed_ms` into the turn: a frame every 120 ms, or a still dot
/// under reduced motion.
pub open spec fn spec_spinner_glyph(
    platform: SpinnerPlatform,
    reduced_motion: bool,
    elapsed_ms: u64,
) -> &'static str {
    if reduced_motion {
        "\u{25cf}"
    } else {
        spec_spinner_frames(platform)[((elapsed_ms / SPINNER_FRAME_MS) % 12) as int]
    }
}

/// The spinner glyph to draw.
pub fn spinner_glyph(platform: SpinnerPlatform, reduced_motion: bool, elapsed_ms: u64) -> (g:
    &'static str)
    ensures
        g == spec_spinner_glyph(platform, reduced_motion, elapsed_ms),
{
    if reduced_motion {
        return "\u{25cf}";
    }
    let frames = spinner_frames(platform);
    let index = ((elapsed_ms / SPINNER_FRAME_MS) % 12) as usize;
    frames[index]
}

/// `thought for Ns`, the seconds rounded and at least one.
pub open spec fn thought_text(duration_ms: u64) -> Seq<char> {
    let seconds = rounded_seconds(duration_ms as nat);
    "thought for "@ + decimal(if seconds < 1 {
        1nat
    } else {
        seconds
    }) + "s"@
}

/// The thinking notice: while reasoning streams, `thinking` (naming the effort when
/// one is set); after it ends, `thinking` until the minimum has passed and then
/// `thought for Ns` for the hold time. The flag marks the notices that glow.
pub open spec fn spec_thinking_status(
    clock: SpinnerClock,
    reasoning_live: bool,
    effort: Option<Seq<char>>,
    now_ms: u64,
) -> Option<(Seq<char>, bool)> {
    if reasoning_live {
        match effort {
            Some(e) if trim(e).len() > 0 => Some(("thinking with "@ + e + " effort"@, true)),
            _ => Some(("thinking"@, true)),
        }
    } else {
        let absolute = if now_ms >= clock.started_at_ms {
            now_ms
        } else {
            clock.started_at_ms
        };
        match clock.thinking_until_ms {
            Some(until) => if absolute < until {
                Some(("thinking"@, true))
            } else {
                match clock.thought_until_ms {
                    Some(hold) if absolute < hold => Some((thought_text(clock.thought_duration_ms), false)),
                    _ => None,
                }
            },
            None => None,
        }
    }
}

/// The thinking notice at `now_ms`; `effort` is the configured reasoning effort as
/// it is to be shown.
pub fn thinking_status(
    clock: &SpinnerClock,
    reasoning_live: bool,
    effort: Option<&str>,
    now_ms: u64,
) -> (r: Option<(String, bool)>)
    ensures
        match r {
            Some((text, glow)) => spec_thinking_status(
                *clock,
                reasoning_live,
                match effort {
                    Some(e) => Some(e@),
                    None => None,
                },
                now_ms,
            ) == Some((text@, glow)),
            None => spec_thinking_status(
                *clock,
                reasoning_live,
                match effort {
                    Some(e) => Some(e@),
                    None => None,
                },
                now_ms,
            ) is None,
        },
{
    if reasoning_live {
        if let Some(e) = effort {
            let trimmed = trim_chars(chars_of(e).as_slice());
            if trimmed.len() > 0 {
                let mut text = "thinking with ".to_owned();
                push_str(&mut text, e);
                push_str(&mut text, " effort");
                return Some((text, true));
            }
        }
        return Some(("thinking".to_owned(), true));
    }
    let elapsed = now_ms.saturating_sub(clock.started_at_ms);
    let absolute = clock.started_at_ms.saturating_add(elapsed);
    match clock.thinking_until_ms {
        Some(until) => {
            if absolute < until {
                return Some(("thinking".to_owned(), true));
            }
            match clock.thought_until_ms {
                Some(hold) => {
                    if absolute < hold {
                        let d = clock.thought_duration_ms;
                        let rounded = d / 1000 + if d % 1000 >= 500 {
                            1
                        } else {
                            0
                        };
                        let seconds = if rounded < 1 {
                            1
                        } else {
                            rounded
                        };
                        assert(rounded == rounded_seconds(d as nat));
                        let mut text = "thought for ".to_owned();
                        push_decimal(&mut text, seconds);
                        push_str(&mut text, "s");
                        assert(text@ == thought_text(d));
                        return Some((text, false));
                    }
                    None
                },
                None => None,
            }
        },
        None => None,
    }
}

/// After this long a turn shows its timer and token count even without internals.
pub const SPINNER_STATUS_AFTER_MS: u64 = 30_000;

/// `parts` joined with ` · `.
pub open spec fn join_dotted(parts: Seq<Seq<char>>) -> Seq<char>
    decreases parts.len(),
{
    if parts.len() == 0 {
        Seq::empty()
    } else if parts.len() == 1 {
        parts[0]
    } else {
        join_dotted(parts.drop_last()) + " \u{b7} "@ + parts.last()
    }
}

fn join_dotted_string(parts: &Vec<String>) -> (r: String)
    ensures
        r@ == join_dotted(string_views(parts@)),
{
    let ghost views = string_views(parts@);
    let mut out = String::new();
    let mut i: usize = 0;
    assert(views.take(0) == Seq::<Seq<char>>::empty());
    while i < parts.len()
        invariant
            i <= parts@.len(),
            views == string_views(parts@),
            out@ == join_dotted(views.take(i as int)),
        decreases parts@.len() - i,
    {
        assert(views.take(i + 1).drop_last() == views.take(i as int));
        assert(views.take(i + 1).last() == parts@[i as int]@);
        if i > 0 {
            push_str(&mut out, " \u{b7} ");
        } else {
            assert(views.take(1)[0] == parts@[0]@);
        }
        push_str(&mut out, parts[i].as_str());
        i += 1;
    }
    assert(views.take(parts@.len() as int) == views);
    out
}

/// Whether the status fields, joined and wrapped in ` (…)`, fit after a message
/// prefix of `prefix_width` cells in a row of `width` cells.
pub open spec fn spec_status_fits(prefix_width: int, width: int, parts: Seq<Seq<char>>) -> bool {
    parts.len() > 0 && sat_add(prefix_width, sat_add(2, unicode_str_width(join_dotted(parts)) as int))
        <= width
}

/// Whether `parts` fit on the spinner row.
pub fn spinner_status_fits(prefix_width: usize, width: usize, parts: &Vec<String>) -> (b: bool)
    ensures
        b == spec_status_fits(prefix_width as int, width as int, string_views(parts@)),
{
    if parts.len() == 0 {
        return false;
    }
    let joined = join_dotted_string(parts);
    let status_width = 2usize.saturating_add(unicode_width_of(joined.as_str()));
    prefix_width.saturating_add(status_width) <= width
}

pub open spec fn part_texts(p: Seq<(Seq<char>, bool)>) -> Seq<Seq<char>> {
    p.map_values(|x: (Seq<char>, bool)| x.0)
}

pub open spec fn part_views(p: Seq<(String, bool)>) -> Seq<(Seq<char>, bool)> {
    p.map_values(|x: (String, bool)| (x.0@, x.1))
}

/// The token field: an arrow up while the request is out, down otherwise.
pub open spec fn token_field(count: Seq<char>, requesting: bool) -> Seq<char> {
    (if requesting {
        "\u{2191}"@
    } else {
        "\u{2193}"@
    }) + " "@ + count + " tokens"@
}

/// The status fields shown after the spinner message, each only if it still fits:
/// the thinking notice (falling back to a bare `thinking`); then, with internals
/// shown or after thirty seconds, the elapsed time and the token estimate when it is
/// not zero. The flag marks the thinking notice.
pub open spec fn spec_status_parts(
    thinking: Option<Seq<char>>,
    show_internals: bool,
    elapsed_ms: u64,
    tokens: u64,
    token_count: Seq<char>,
    requesting: bool,
    width: int,
    prefix_width: int,
) -> Seq<(Seq<char>, bool)> {
    let first = match thinking {
        Some(t) => if spec_status_fits(prefix_width, width, seq![t]) {
            seq![(t, true)]
        } else if spec_status_fits(prefix_width, width, seq!["thinking"@]) {
            seq![("thinking"@, true)]
        } else {
            Seq::empty()
        },
        None => Seq::empty(),
    };
    if !(show_internals || elapsed_ms > SPINNER_STATUS_AFTER_MS) {
        first
    } else {
        let timer = spec_format_elapsed(elapsed_ms as nat);
        let second = if spec_status_fits(prefix_width, width, part_texts(first).push(timer)) {
            first.push((timer, false))
        } else {
            first
        };
        let field = token_field(token_count, requesting);
        if tokens > 0 && spec_status_fits(prefix_width, width, part_texts(second).push(field)) {
            second.push((field, false))
        } else {
            second
        }
    }
}

fn texts_with(parts: &Vec<(String, bool)>, extra: &String) -> (r: Vec<String>)
    ensures
        string_views(r@) == part_texts(part_views(parts@)).push(extra@),
{
    let mut r: Vec<String> = Vec::new();
    let mut i: usize = 0;
    while i < parts.len()
        invariant
            i <= parts@.len(),
            string_views(r@) == part_texts(part_views(parts@)).take(i as int),
        decreases parts@.len() - i,
    {
        let ghost before = r@;
        r.push(parts[i].0.clone());
        assert(string_views(r@) == string_views(before).push(parts@[i as int].0@));
        assert(part_texts(part_views(parts@)).take(i + 1) == part_texts(part_views(parts@)).take(
            i as int,
        ).push(parts@[i as int].0@));
        i += 1;
    }
    let ghost before = r@;
    r.push(extra.clone());
    assert(string_views(r@) == string_views(before).push(extra@));
    assert(part_texts(part_views(parts@)).take(parts@.len() as int) == part_texts(part_views(parts@)));
    r
}

/// The token estimate shown for `displayed` revealed characters: one per four,
/// rounded.
pub fn spinner_token_estimate(displayed: usize) -> (t: u64)
    requires
        displayed + 2 <= usize::MAX,
    ensures
        t == (displayed + 2) / 4,
{
    ((displayed + 2) / 4) as u64
}

/// The status fields of the spinner row. `token_count` is `tokens` as the row
/// shows it.
pub fn spinner_status_parts(
    thinking: &Option<(String, bool)>,
    show_internals: bool,
    elapsed_ms: u64,
    tokens: u64,
    token_count: &str,
    requesting: bool,
    width: usize,
    prefix_width: usize,
) -> (r: Vec<(String, bool)>)
    ensures
        part_views(r@) == spec_status_parts(
            match thinking {
                Some(t) => Some(t.0@),
                None => None,
            },
            show_internals,
            elapsed_ms,
            tokens,
            token_count@,
            requesting,
            width as int,
            prefix_width as int,
        ),
{
    let mut parts: Vec<(String, bool)> = Vec::new();
    if let Some(t) = thinking {
        let with_effort = vec![t.0.clone()];
        let bare = "thinking".to_owned();
        let bare_only = vec![bare.clone()];
        assert(string_views(with_effort@) == seq![t.0@]);
        assert(string_views(bare_only@) == seq!["thinking"@]);
        if spinner_status_fits(prefix_width, width, &with_effort) {
            parts.push((t.0.clone(), true));
        } else if spinner_status_fits(prefix_width, width, &bare_only) {
            parts.push((bare, true));
        }
    }
    assert(part_views(parts@) == match thinking {
        Some(t) => if spec_status_fits(prefix_width as int, width as int, seq![t.0@]) {
            seq![(t.0@, true)]
        } else if spec_status_fits(prefix_width as int, width as int, seq!["thinking"@]) {
            seq![("thinking"@, true)]
        } else {
            Seq::empty()
        },
        None => Seq::<(Seq<char>, bool)>::empty(),
    });
    if !(show_internals || elapsed_ms > SPINNER_STATUS_AFTER_MS) {
        return parts;
    }
    let timer = format_elapsed(elapsed_ms);
    let with_timer = texts_with(&parts, &timer);
    if spinner_status_fits(prefix_width, width, &with_timer) {
        let ghost before = parts@;
        parts.push((timer, false));
        assert(part_views(parts@) == part_views(before).push((timer@, false)));
    }
    if tokens > 0 {
        let mut field = if requesting {
            "\u{2191}".to_owned()
        } else {
            "\u{2193}".to_owned()
        };
        push_str(&mut field, " ");
        push_str(&mut field, token_count);
        push_str(&mut field, " tokens");
        assert(field@ == token_field(token_count@, requesting));
        let with_tokens = texts_with(&parts, &field);
        if spinner_status_fits(prefix_width, width, &with_tokens) {
            let ghost before = parts@;
            parts.push((field, false));
            assert(part_views(parts@) == part_views(before).push((field@, false)));
        }
    }
    parts
}

/// For each cluster, from column `column` on, whether it overlaps the columns
/// `start..end`.
pub open spec fn band_flags(gs: Seq<Seq<char>>, column: int, start: int, end: int) -> Seq<bool>
    decreases gs.len(),
{
    if gs.len() == 0 {
        Seq::empty()
    } else {
        let w = unicode_str_width(gs[0]) as int;
        seq![column < end && column + w > start] + band_flags(gs.drop_first(), column + w, start, end)
    }
}

proof fn lemma_band_flags_len(gs: Seq<Seq<char>>, column: int, start: int, end: int)
    ensures
        band_flags(gs, column, start, end).len() == gs.len(),
    decreases gs.len(),
{
    if gs.len() > 0 {
        lemma_band_flags_len(gs.drop_first(), column + unicode_str_width(gs[0]) as int, start, end);
    }
}

proof fn lemma_band_flags_past_end(gs: Seq<Seq<char>>, a: int, b: int, start: int, end: int)
    requires
        a >= end,
        b >= end,
    ensures
        band_flags(gs, a, start, end) == band_flags(gs, b, start, end),
    decreases gs.len(),
{
    if gs.len() > 0 {
        let w = unicode_str_width(gs[0]) as int;
        lemma_band_flags_past_end(gs.drop_first(), a + w, b + w, start, end);
    }
}

/// The column the shimmer is centred on: it sweeps left to right once per cycle of
/// the message width plus twenty columns while the request is out (every 50 ms),
/// and right to left otherwise (every 200 ms).
pub open spec fn glimmer_column(message_width: int, requesting: bool, elapsed_ms: int) -> int {
    let speed = if requesting {
        50int
    } else {
        200
    };
    let cycle = if sat_add(message_width, 20) < 1 {
        1
    } else {
        sat_add(message_width, 20)
    };
    let position = (elapsed_ms / speed) % cycle;
    if requesting {
        position - 10
    } else {
        message_width + 10 - position
    }
}

/// The spinner message split for drawing, with a trailing blank: whole and plain
/// when the row is still (reduced motion, a stall, or a running tool), otherwise one
/// piece per cluster, flagged when it lies in the three-column shimmer band.
pub open spec fn spec_message_segments(
    message: Seq<char>,
    mode: SpinnerMode,
    elapsed_ms: u64,
    still: bool,
) -> Seq<(Seq<char>, bool)> {
    if still || mode == SpinnerMode::ToolUse {
        seq![(message + " "@, false)]
    } else {
        let g = glimmer_column(
            unicode_str_width(message) as int,
            mode == SpinnerMode::Requesting,
            elapsed_ms as int,
        );
        let gs = extended_graphemes(message);
        let flags = band_flags(gs, 0, g - 1, g + 2);
        Seq::new(gs.len(), |i: int| (gs[i], flags[i])) + seq![(" "@, false)]
    }
}

/// The spinner message in drawing order, each piece flagged when it shimmers.
pub fn message_segments(message: &str, mode: SpinnerMode, elapsed_ms: u64, still: bool) -> (r: Vec<
    (String, bool),
>)
    ensures
        part_views(r@) == spec_message_segments(message@, mode, elapsed_ms, still),
{
    let mut out: Vec<(String, bool)> = Vec::new();
    if still || mode == SpinnerMode::ToolUse {
        let mut whole = message.to_owned();
        push_str(&mut whole, " ");
        out.push((whole, false));
        assert(part_views(out@) =~= seq![(message@ + " "@, false)]);
        return out;
    }
    let requesting = mode == SpinnerMode::Requesting;
    let message_width = unicode_width_of(message);
    let speed: u64 = if requesting {
        50
    } else {
        200
    };
    let cycle = if message_width.saturating_add(20) < 1 {
        1
    } else {
        message_width.saturating_add(20)
    };
    let position = ((elapsed_ms / speed) % (cycle as u64)) as i128;
    let glimmer: i128 = if requesting {
        position - 10
    } else {
        message_width as i128 + 10 - position
    };
    assert(glimmer == glimmer_column(message_width as int, requesting, elapsed_ms as int));
    let start = glimmer - 1;
    let end = glimmer + 2;
    let gs = graphemes_of(message);
    let ghost views = string_views(gs@);
    let ghost flags = band_flags(views, 0, start as int, end as int);
    proof {
        lemma_band_flags_len(views, 0, start as int, end as int);
    }
    let mut column: i128 = 0;
    let mut i: usize = 0;
    assert(views.skip(0) == views);
    while i < gs.len()
        invariant
            i <= gs@.len(),
            views == string_views(gs@),
            views == extended_graphemes(message@),
            flags == band_flags(views, 0, start as int, end as int),
            flags.len() == views.len(),
            end == start + 3,
            start <= u64::MAX as int + 20,
            column <= end + u64::MAX as int,
            0 <= column,
            band_flags(views.skip(i as int), column as int, start as int, end as int) == flags.skip(
                i as int,
            ),
            part_views(out@) == Seq::new(i as nat, |k: int| (views[k], flags[k])),
        decreases gs@.len() - i,
    {
        let w = unicode_width_of(gs[i].as_str()) as i128;
        let ghost rest = views.skip(i as int);
        assert(rest[0] == gs@[i as int]@);
        assert(rest.drop_first() == views.skip(i + 1));
        let flag = column < end && column + w > start;
        proof {
            assert(flags.skip(i as int)[0] == flags[i as int]);
            assert(flag == flags[i as int]);
            assert(flags.skip(i as int).drop_first() == flags.skip(i + 1));
        }
        let ghost before = out@;
        out.push((gs[i].clone(), flag));
        assert(part_views(out@) == part_views(before).push((views[i as int], flag)));
        assert(part_views(out@) =~= Seq::new((i + 1) as nat, |k: int| (views[k], flags[k])));
        if column < end {
            column = column + w;
        } else {
            proof {
                lemma_band_flags_past_end(views.skip(i + 1), column + w, column as int, start as int, end as int);
            }
        }
        i += 1;
    }
    let ghost before = out@;
    out.push((" ".to_owned(), false));
    assert(part_views(out@) =~= Seq::new(views.len(), |k: int| (views[k], flags[k])) + seq![
        (" "@, false),
    ]);
    out
}

/// The summed `unicode-width` widths of the strings.
pub open spec fn widths_of(v: Seq<Seq<char>>) -> int
    decreases v.len(),
{
    if v.len() == 0 {
        0
    } else {
        widths_of(v.drop_last()) + unicode_str_width(v.last()) as int
    }
}

proof fn lemma_widths_of_nonneg(v: Seq<Seq<char>>)
    ensures
        widths_of(v) >= 0,
    decreases v.len(),
{
    if v.len() > 0 {
        lemma_widths_of_nonneg(v.drop_last());
    }
}

/// The spans from `index` on, cut to `remaining` cells: each keeps its leading
/// clusters while they fit, a span left empty is dropped, and nothing follows once
/// the row is full.
pub open spec fn clip_from(spans: Seq<Seq<char>>, index: int, remaining: int) -> Seq<(int, Seq<char>)>
    decreases spans.len(),
{
    if spans.len() == 0 {
        Seq::empty()
    } else {
        let gs = extended_graphemes(spans[0]);
        let n = fitting_prefix(gs, remaining, 0);
        let kept = flatten(gs.take(n));
        let left = remaining - widths_of(gs.take(n));
        let head = if kept.len() > 0 {
            seq![(index, kept)]
        } else {
            Seq::empty()
        };
        if left == 0 {
            head
        } else {
            head + clip_from(spans.drop_first(), index + 1, left)
        }
    }
}

/// A row of spans cut to `width` cells, each kept piece with the index of the span
/// it came from: nothing at width zero, and the row unchanged when it fits.
pub open spec fn spec_clip_line(spans: Seq<Seq<char>>, width: int) -> Seq<(int, Seq<char>)> {
    if width == 0 {
        Seq::empty()
    } else if widths_of(spans) <= width {
        Seq::new(spans.len(), |i: int| (i, spans[i]))
    } else {
        clip_from(spans, 0, width)
    }
}

/// The cells before the status on a spinner row: the glyph and its space, the
/// verb, and the space after it (capped at `usize::MAX`).
pub open spec fn spec_spinner_prefix_width(verb: Seq<char>) -> int {
    sat_add(sat_add(2, unicode_str_width(verb) as int), 1)
}

/// The cells before the status on a spinner row (see `spec_spinner_prefix_width`).
pub fn spinner_prefix_width(verb: &str) -> (w: usize)
    ensures
        w == spec_spinner_prefix_width(verb@),
{
    let verb_width = unicode_width_of(verb);
    2usize.saturating_add(verb_width).saturating_add(1)
}

/// The cells a clipped row takes, counted as the clipping counts them: the whole
/// row's width when it fits, else the widths of the clusters each piece keeps.
pub open spec fn clipped_cells(spans: Seq<Seq<char>>, width: int) -> int {
    if width == 0 {
        0
    } else if widths_of(spans) <= width {
        widths_of(spans)
    } else {
        cells_from(spans, width)
    }
}

/// The cells the pieces kept from `spans` take, with `remaining` cells left.
pub open spec fn cells_from(spans: Seq<Seq<char>>, remaining: int) -> int
    decreases spans.len(),
{
    if spans.len() == 0 {
        0
    } else {
        let gs = extended_graphemes(spans[0]);
        let used = widths_of(gs.take(fitting_prefix(gs, remaining, 0)));
        if remaining - used == 0 {
            used
        } else {
            used + cells_from(spans.drop_first(), remaining - used)
        }
    }
}

proof fn lemma_widths_of_prepend(a: Seq<char>, rest: Seq<Seq<char>>)
    ensures
        widths_of(seq![a] + rest) == unicode_str_width(a) + widths_of(rest),
    decreases rest.len(),
{
    let whole = seq![a] + rest;
    if rest.len() == 0 {
        assert(whole.drop_last() =~= Seq::<Seq<char>>::empty());
        assert(whole.last() == a);
        assert(widths_of(Seq::<Seq<char>>::empty()) == 0);
        assert(widths_of(whole) == widths_of(whole.drop_last()) + unicode_str_width(whole.last()) as int);
    } else {
        assert(whole.drop_last() =~= seq![a] + rest.drop_last());
        assert(whole.last() == rest.last());
        lemma_widths_of_prepend(a, rest.drop_last());
        assert(widths_of(whole) == widths_of(whole.drop_last()) + unicode_str_width(whole.last()) as int);
        assert(widths_of(rest) == widths_of(rest.drop_last()) + unicode_str_width(rest.last()) as int);
    }
}

proof fn lemma_fitting_prefix_fits(gs: Seq<Seq<char>>, room: int, used: int)
    requires
        used <= room,
    ensures
        used + widths_of(gs.take(fitting_prefix(gs, room, used))) <= room,
    decreases gs.len(),
{
    if gs.len() == 0 || used + unicode_str_width(gs[0]) > room {
        assert(gs.take(0) =~= Seq::<Seq<char>>::empty());
    } else {
        let next = used + unicode_str_width(gs[0]);
        let n = fitting_prefix(gs.drop_first(), room, next);
        lemma_fitting_prefix_fits(gs.drop_first(), room, next);
        crate::layout::lemma_fitting_prefix_bound(gs.drop_first(), room, next);
        assert(gs.take(1 + n) =~= seq![gs[0]] + gs.drop_first().take(n));
        lemma_widths_of_prepend(gs[0], gs.drop_first().take(n));
    }
}

proof fn lemma_cells_from_fit(spans: Seq<Seq<char>>, remaining: int)
    requires
        remaining >= 0,
    ensures
        0 <= cells_from(spans, remaining) <= remaining,
    decreases spans.len(),
{
    if spans.len() > 0 {
        let gs = extended_graphemes(spans[0]);
        let n = fitting_prefix(gs, remaining, 0);
        lemma_fitting_prefix_fits(gs, remaining, 0);
        lemma_widths_of_nonneg(gs.take(n));
        let used = widths_of(gs.take(n));
        if remaining - used != 0 {
            lemma_cells_from_fit(spans.drop_first(), remaining - used);
        }
    }
}

/// A clipped spinner row never takes more cells than the width it was cut to.
pub proof fn law_clipped_rows_fit(spans: Seq<Seq<char>>, width: nat)
    ensures
        0 <= clipped_cells(spans, width as int) <= width,
{
    lemma_widths_of_nonneg(spans);
    if width > 0 && widths_of(spans) > width {
        lemma_cells_from_fit(spans, width as int);
    }
}

pub open spec fn clip_views(v: Seq<(usize, String)>) -> Seq<(int, Seq<char>)> {
    v.map_values(|p: (usize, String)| (p.0 as int, p.1@))
}

/// The leading clusters of `span` that fit in `remaining` cells, and the cells they
/// take.
fn fitting_part(span: &String, remaining: usize) -> (r: (String, usize))
    ensures
        ({
            let gs = extended_graphemes(span@);
            let n = fitting_prefix(gs, remaining as int, 0);
            r.0@ == flatten(gs.take(n)) && r.1 == widths_of(gs.take(n)) && r.1 <= remaining
        }),
{
    let gs = graphemes_of(span.as_str());
    let ghost views = string_views(gs@);
    let mut content = String::new();
    let mut used: usize = 0;
    let mut k: usize = 0;
    let mut fits = true;
    assert(views.skip(0) == views);
    assert(views.take(0) == Seq::<Seq<char>>::empty());
    assert(flatten(Seq::<Seq<char>>::empty()) == Seq::<char>::empty());
    while fits && k < gs.len()
        invariant
            k <= gs@.len(),
            views == string_views(gs@),
            views == extended_graphemes(span@),
            used <= remaining,
            used == widths_of(views.take(k as int)),
            content@ == flatten(views.take(k as int)),
            k + fitting_prefix(views.skip(k as int), remaining as int, used as int) == fitting_prefix(
                views,
                remaining as int,
                0,
            ),
            !fits ==> fitting_prefix(views.skip(k as int), remaining as int, used as int) == 0,
        decreases gs@.len() - k + if fits {
            1int
        } else {
            0
        },
    {
        let w = unicode_width_of(gs[k].as_str());
        assert(views.skip(k as int)[0] == gs@[k as int]@);
        if w > remaining - used {
            fits = false;
        } else {
            push_str(&mut content, gs[k].as_str());
            assert(views.take(k + 1).drop_last() == views.take(k as int));
            assert(views.take(k + 1).last() == gs@[k as int]@);
            used = used + w;
            assert(views.skip(k as int).drop_first() == views.skip(k + 1));
            k += 1;
        }
    }
    proof {
        if fits {
            assert(views.skip(k as int).len() == 0);
        }
    }
    (content, used)
}

/// Cuts the spinner row, given as the texts of its spans, to `width` cells.
pub fn clip_spans(spans: &Vec<String>, width: usize) -> (r: Vec<(usize, String)>)
    ensures
        clip_views(r@) == spec_clip_line(string_views(spans@), width as int),
{
    let ghost views = string_views(spans@);
    let mut out: Vec<(usize, String)> = Vec::new();
    if width == 0 {
        assert(clip_views(out@) =~= Seq::<(int, Seq<char>)>::empty());
        return out;
    }
    let mut total: u128 = 0;
    let mut j: usize = 0;
    assert(views.take(0) == Seq::<Seq<char>>::empty());
    while j < spans.len()
        invariant
            j <= spans@.len(),
            views == string_views(spans@),
            total == widths_of(views.take(j as int)),
            total <= j * (usize::MAX as int),
        decreases spans@.len() - j,
    {
        assert(views.take(j + 1).drop_last() == views.take(j as int));
        assert(views.take(j + 1).last() == spans@[j as int]@);
        let w = unicode_width_of(spans[j].as_str());
        assert(total + w <= (j + 1) * (usize::MAX as int)) by (nonlinear_arith)
            requires total <= j * (usize::MAX as int), w <= usize::MAX;
        assert((j + 1) * (usize::MAX as int) <= (usize::MAX as int) * (usize::MAX as int)) by (nonlinear_arith)
            requires j < usize::MAX;
        assert((usize::MAX as int) * (usize::MAX as int) <= 0xffff_ffff_ffff_fffe_0000_0000_0000_0001)
            by (nonlinear_arith)
            requires usize::MAX <= 0xffff_ffff_ffff_ffff;
        total = total + w as u128;
        j += 1;
    }
    assert(views.take(spans@.len() as int) == views);
    if total <= width as u128 {
        let mut i: usize = 0;
        while i < spans.len()
            invariant
                i <= spans@.len(),
                views == string_views(spans@),
                clip_views(out@) == Seq::new(i as nat, |k: int| (k, views[k])),
            decreases spans@.len() - i,
        {
            let ghost before = out@;
            out.push((i, spans[i].clone()));
            assert(clip_views(out@) == clip_views(before).push((i as int, spans@[i as int]@)));
            assert(clip_views(out@) =~= Seq::new((i + 1) as nat, |k: int| (k, views[k])));
            i += 1;
        }
        return out;
    }
    let ghost target = clip_from(views, 0, width as int);
    let mut remaining = width;
    let mut i: usize = 0;
    let mut full = false;
    assert(views.skip(0) == views);
    assert(clip_views(out@) + target == target);
    while !full && i < spans.len()
        invariant
            i <= spans@.len(),
            views == string_views(spans@),
            !full ==> clip_views(out@) + clip_from(views.skip(i as int), i as int, remaining as int)
                == target,
            full ==> clip_views(out@) == target,
            remaining > 0,
        decreases spans@.len() - i + if full {
            0int
        } else {
            1
        },
    {
        let ghost rest = views.skip(i as int);
        assert(rest[0] == spans@[i as int]@);
        assert(rest.drop_first() == views.skip(i + 1));
        let (content, used) = fitting_part(&spans[i], remaining);
        let left = remaining - used;
        let ghost before = out@;
        if !content.as_str().is_empty() {
            out.push((i, content));
            assert(clip_views(out@) == clip_views(before) + seq![(i as int, content@)]);
        } else {
            assert(content@.len() == 0);
        }
        if left == 0 {
            full = true;
        } else {
            remaining = left;
            i += 1;
        }
    }
    proof {
        if !full {
            assert(views.skip(i as int).len() == 0);
            assert(clip_views(out@) + Seq::<(int, Seq<char>)>::empty() == clip_views(out@));
        }
    }
    out
}

/// `s` without the ellipses at its end.
pub open spec fn strip_ellipses(s: Seq<char>) -> Seq<char>
    decreases s.len(),
{
    if s.len() > 0 && s.last() == '\u{2026}' {
        strip_ellipses(s.drop_last())
    } else {
        s
    }
}

/// A verb for the spinner: trimmed, trailing ellipses removed and trimmed again;
/// nothing when that leaves it empty.
pub open spec fn spec_normalize_spinner_verb(value: Seq<char>) -> Option<Seq<char>> {
    let t = trim(strip_ellipses(trim(value)));
    if t.len() > 0 {
        Some(t)
    } else {
        None
    }
}

/// Cleans a verb for the spinner; `None` when nothing is left.
pub fn normalize_spinner_verb(value: &str) -> (r: Option<String>)
    ensures
        r.deep_view() == spec_normalize_spinner_verb(value@),
{
    let trimmed = trim_chars(chars_of(value).as_slice());
    let mut end = trimmed.len();
    assert(trimmed@.take(end as int) == trimmed@);
    while end > 0 && trimmed[end - 1] == '\u{2026}'
        invariant
            end <= trimmed@.len(),
            strip_ellipses(trimmed@.take(end as int)) == strip_ellipses(trimmed@),
        decreases end,
    {
        assert(trimmed@.take(end as int).drop_last() == trimmed@.take(end - 1));
        end -= 1;
    }
    let kept = crate::text::copy_range(trimmed.as_slice(), 0, end);
    assert(kept@ == trimmed@.take(end as int));
    assert(strip_ellipses(kept@) == kept@);
    let cleaned = trim_chars(kept.as_slice());
    if cleaned.len() > 0 {
        Some(crate::text::string_from_chars(cleaned.as_slice()))
    } else {
        None
    }
}

/// Index of the first todo whose status names active work, or the number of rows.
pub open spec fn first_active_todo(rows: Seq<TodoRow>) -> int
    decreases rows.len(),
{
    if rows.len() == 0 {
        0
    } else if is_active_status_name(normalized_status(rows[0].status@)) {
        0
    } else {
        1 + first_active_todo(rows.drop_first())
    }
}

/// The verb the active todo gives: its description, else its title, cleaned.
pub open spec fn spec_todo_verb(rows: Option<Seq<TodoRow>>) -> Option<Seq<char>> {
    match rows {
        None => None,
        Some(r) => {
            let k = first_active_todo(r);
            if k < r.len() {
                match spec_normalize_spinner_verb(r[k].description@) {
                    Some(v) => Some(v),
                    None => spec_normalize_spinner_verb(r[k].title@),
                }
            } else {
                None
            }
        },
    }
}

proof fn lemma_first_active_todo(rows: Seq<TodoRow>)
    ensures
        0 <= first_active_todo(rows) <= rows.len(),
    decreases rows.len(),
{
    if rows.len() > 0 && !is_active_status_name(normalized_status(rows[0].status@)) {
        lemma_first_active_todo(rows.drop_first());
    }
}

/// The spinner verb of a new turn: an explicit one, else the active todo's, else
/// the built-in verb `builtin`; an ellipsis follows.
pub open spec fn spec_turn_verb(
    explicit: Option<Seq<char>>,
    todos: Option<Seq<TodoRow>>,
    builtin: Seq<char>,
) -> Seq<char> {
    let chosen = match explicit {
        Some(e) if spec_normalize_spinner_verb(e) is Some => spec_normalize_spinner_verb(e)->0,
        _ => match spec_todo_verb(todos) {
            Some(v) => v,
            None => builtin,
        },
    };
    chosen.push('\u{2026}')
}

/// Picks the spinner verb of a new turn (see `spec_turn_verb`), with `builtin` as
/// the verb of last resort.
pub fn turn_verb(explicit: Option<&str>, todos: Option<&Vec<TodoRow>>, builtin: &str) -> (r: String)
    ensures
        r@ == spec_turn_verb(
            match explicit {
                Some(e) => Some(e@),
                None => None,
            },
            match todos {
                Some(t) => Some(t@),
                None => None,
            },
            builtin@,
        ),
{
    let from_explicit = match explicit {
        Some(e) => normalize_spinner_verb(e),
        None => None,
    };
    let mut verb = match from_explicit {
        Some(v) => v,
        None => {
            let from_todo = match todos {
                Some(rows) => {
                    let ghost all = rows@;
                    proof {
                        lemma_first_active_todo(all);
                    }
                    let mut k: usize = 0;
                    assert(all.skip(0) == all);
                    while k < rows.len() && !is_in_progress_todo_status(rows[k].status.as_str())
                        invariant
                            k <= all.len(),
                            all == rows@,
                            k + first_active_todo(all.skip(k as int)) == first_active_todo(all),
                        decreases all.len() - k,
                    {
                        assert(all.skip(k as int)[0] == all[k as int]);
                        assert(all.skip(k as int).drop_first() == all.skip(k + 1));
                        k += 1;
                    }
                    if k < rows.len() {
                        assert(all.skip(k as int)[0] == all[k as int]);
                        assert(first_active_todo(all) == k);
                        match normalize_spinner_verb(rows[k].description.as_str()) {
                            Some(v) => Some(v),
                            None => normalize_spinner_verb(rows[k].title.as_str()),
                        }
                    } else {
                        assert(all.skip(k as int).len() == 0);
                        None
                    }
                },
                None => None,
            };
            match from_todo {
                Some(v) => v,
                None => builtin.to_owned(),
            }
        },
    };
    crate::text::push_char(&mut verb, '\u{2026}');
    verb
}

/// Picks the spinner verb when turn `turn` starts with `prompt`: an explicit verb,
/// else the active todo's, else the built-in verb the turn and prompt hash to.
pub fn spinner_verb_for_turn(
    explicit: Option<&str>,
    todos: Option<&Vec<TodoRow>>,
    turn: u64,
    prompt: &str,
) -> (r: String)
    ensures
        exists|i: int|
            0 <= i < 187 && r@ == spec_turn_verb(
                match explicit {
                    Some(e) => Some(e@),
                    None => None,
                },
                match todos {
                    Some(t) => Some(t@),
                    None => None,
                },
                (#[trigger] spec_builtin_spinner_verbs()[i])@,
            ),
{
    let builtin = builtin_spinner_verb(turn, prompt);
    turn_verb(explicit, todos, builtin)
}

/// The texts of a spinner row's spans, in drawing order: the glyph and a space,
/// the message pieces, then the status fields joined in ` (…)` when there are any.
pub open spec fn spec_spinner_row_texts(
    glyph: Seq<char>,
    segments: Seq<(Seq<char>, bool)>,
    parts: Seq<(Seq<char>, bool)>,
) -> Seq<Seq<char>> {
    seq![glyph + " "@] + part_texts(segments) + if parts.len() > 0 {
        seq![" ("@ + join_dotted(part_texts(parts)) + ")"@]
    } else {
        Seq::empty()
    }
}

/// The spinner row assembled from its glyph, message pieces and status fields,
/// then cut to `width` cells; each kept piece has the index of the span it came
/// from (0 the glyph, then the message pieces, then the status). It never takes
/// more than `width` cells.
pub fn spinner_row(
    glyph: &str,
    segments: &Vec<(String, bool)>,
    parts: &Vec<(String, bool)>,
    width: usize,
) -> (r: Vec<(usize, String)>)
    ensures
        clip_views(r@) == spec_clip_line(
            spec_spinner_row_texts(glyph@, part_views(segments@), part_views(parts@)),
            width as int,
        ),
        clipped_cells(spec_spinner_row_texts(glyph@, part_views(segments@), part_views(parts@)), width as int)
            <= width,
{
    let ghost want = spec_spinner_row_texts(glyph@, part_views(segments@), part_views(parts@));
    let mut head = String::new();
    push_str(&mut head, glyph);
    push_str(&mut head, " ");
    let mut texts: Vec<String> = vec![head];
    let mut i: usize = 0;
    while i < segments.len()
        invariant
            i <= segments@.len(),
            string_views(texts@) == seq![glyph@ + " "@] + part_texts(part_views(segments@)).take(i as int),
        decreases segments.len() - i,
    {
        let ghost before = string_views(texts@);
        texts.push(segments[i].0.clone());
        assert(part_texts(part_views(segments@)).take(i + 1) =~= part_texts(part_views(segments@)).take(
            i as int,
        ).push(segments@[i as int].0@));
        assert(string_views(texts@) =~= before.push(segments@[i as int].0@));
        i += 1;
    }
    assert(part_texts(part_views(segments@)).take(segments@.len() as int) =~= part_texts(part_views(segments@)));
    if parts.len() > 0 {
        let mut plain: Vec<String> = Vec::new();
        let mut k: usize = 0;
        while k < parts.len()
            invariant
                k <= parts@.len(),
                string_views(plain@) == part_texts(part_views(parts@)).take(k as int),
            decreases parts.len() - k,
        {
            let ghost before = string_views(plain@);
            plain.push(parts[k].0.clone());
            assert(part_texts(part_views(parts@)).take(k + 1) =~= part_texts(part_views(parts@)).take(k as int).push(
                parts@[k as int].0@,
            ));
            assert(string_views(plain@) =~= before.push(parts@[k as int].0@));
            k += 1;
        }
        assert(part_texts(part_views(parts@)).take(parts@.len() as int) =~= part_texts(part_views(parts@)));
        let joined = join_dotted_string(&plain);
        let mut status = " (".to_owned();
        push_str(&mut status, joined.as_str());
        push_str(&mut status, ")");
        let ghost before = string_views(texts@);
        texts.push(status);
        assert(string_views(texts@) =~= before.push(status@));
    }
    assert(string_views(texts@) =~= want);
    proof {
        law_clipped_rows_fit(want, width as nat);
    }
    clip_spans(&texts, width)
}

/// However its pieces come out, an assembled spinner row cut to `width` cells never
/// takes more than `width` cells.
pub proof fn law_spinner_rows_fit(
    glyph: Seq<char>,
    segments: Seq<(Seq<char>, bool)>,
    parts: Seq<(Seq<char>, bool)>,
    width: nat,
)
    ensures
        0 <= clipped_cells(spec_spinner_row_texts(glyph, segments, parts), width as int) <= width,
{
    law_clipped_rows_fit(spec_spinner_row_texts(glyph, segments, parts), width);
}

} // verus!
