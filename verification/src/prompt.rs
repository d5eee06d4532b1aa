//! The prompt area under the transcript: how its rows are shared between the todo
//! block, the input and the footer, and where a slash command's name sits in the
//! input.

use vstd::prelude::*;
use vstd::utf8::encode_utf8;
use crate::layout::{display_width, saturated_display_width, spec_truncate_tail, truncate_tail};
use crate::text::{
    char_is_white_space, char_utf8_len, chars_of, is_white_space, lemma_encode_utf8_concat,
    push_str, string_views,
};

verus! {

/// Fewest input rows shown while there is room.
pub const MIN_INPUT_ROWS: usize = 3;

/// Rows taken by the prompt's rules and hint line.
pub const PROMPT_CHROME_ROWS: u16 = 3;

/// Most completion rows shown.
pub const MAX_COMPLETION_ROWS: usize = 6;

/// Most picker rows shown.
pub const MAX_PICKER_ROWS: usize = 5;

/// Most todo rows shown (plus one summary row).
pub const MAX_TODO_ROWS: usize = 5;

/// What decides the prompt's layout, as plain values.
#[derive(Debug, Clone, Copy, PartialEq, Eq)]
pub struct PromptInputs {
    pub area_width: u16,
    pub area_height: u16,
    /// Rows of the open picker, when one is open.
    pub picker_items: Option<usize>,
    /// Candidates of the open completion list, when it has any.
    pub completion_candidates: Option<usize>,
    /// The session is blocked or reconnecting, or an approval is pending.
    pub footer_suppressed: bool,
    pub busy: bool,
    pub input_empty: bool,
    pub context_warning: bool,
    /// Rows the input takes once wrapped to the area's width.
    pub wrapped_input_rows: usize,
    /// Lines of the live todo block.
    pub todo_lines: usize,
    pub show_todos: bool,
}

/// How many rows each part of the prompt gets.
#[derive(Debug, Clone, Copy, PartialEq, Eq)]
pub struct PromptLayout {
    pub todo_rows: u16,
    pub input_rows: u16,
    pub footer_rows: u16,
    pub total_height: u16,
}

pub open spec fn min_int(a: int, b: int) -> int {
    if a < b {
        a
    } else {
        b
    }
}

pub open spec fn max_int(a: int, b: int) -> int {
    if a < b {
        b
    } else {
        a
    }
}

pub open spec fn sat_sub(a: int, b: int) -> int {
    if a >= b {
        a - b
    } else {
        0
    }
}

/// The footer rows asked for: none while blocked, reconnecting or approving; the
/// completion list when open; otherwise the hint row (while busy or the input is
/// empty) and, on narrow terminals, the context warning below it.
pub open spec fn requested_footer_rows(i: PromptInputs) -> int {
    if i.footer_suppressed {
        0
    } else if i.completion_candidates is Some {
        (min_int(i.completion_candidates->0 as int, MAX_COMPLETION_ROWS as int) as u16) as int
    } else {
        let left: int = if i.busy || i.input_empty {
            1
        } else {
            0
        };
        let warning: int = if i.context_warning && i.area_width < 80 && left > 0 {
            1
        } else {
            0
        };
        max_int(left + warning, if i.context_warning {
            1
        } else {
            0
        })
    }
}

/// The prompt layout: a picker replaces everything (up to five rows plus chrome);
/// otherwise todo rows come out of what the three-row input leaves, the footer gets
/// what it asked for within what leaves three input rows, and the input takes the
/// rest up to what it needs (at least three rows, or one when less room is left).
pub open spec fn spec_prompt_layout(i: PromptInputs) -> PromptLayout {
    let budget = sat_sub(i.area_height as int, 1);
    if budget == 0 {
        PromptLayout { todo_rows: 0, input_rows: 0, footer_rows: 0, total_height: 0 }
    } else if i.picker_items is Some {
        let rows = if i.picker_items->0 < 1 {
            1
        } else if i.picker_items->0 > MAX_PICKER_ROWS {
            MAX_PICKER_ROWS as int
        } else {
            i.picker_items->0 as int
        };
        PromptLayout {
            todo_rows: 0,
            input_rows: 0,
            footer_rows: 0,
            total_height: min_int(rows + 4, budget) as u16,
        }
    } else {
        let desired_input = (max_int(i.wrapped_input_rows as int, MIN_INPUT_ROWS as int) as u16) as int;
        let desired_todo = min_int(i.todo_lines as int, MAX_TODO_ROWS as int + 1);
        let todo_budget = sat_sub(budget, PROMPT_CHROME_ROWS as int + MIN_INPUT_ROWS as int);
        let todo_rows = if i.show_todos {
            min_int(desired_todo, todo_budget)
        } else {
            0
        };
        let rest = sat_sub(sat_sub(budget, PROMPT_CHROME_ROWS as int), todo_rows);
        if rest == 0 {
            PromptLayout {
                todo_rows: todo_rows as u16,
                input_rows: 0,
                footer_rows: 0,
                total_height: budget as u16,
            }
        } else {
            let footer = min_int(requested_footer_rows(i), sat_sub(rest, MIN_INPUT_ROWS as int));
            let input_budget = rest - footer;
            let minimum = if input_budget >= MIN_INPUT_ROWS {
                MIN_INPUT_ROWS as int
            } else {
                1
            };
            let input = max_int(min_int(desired_input, input_budget), minimum);
            PromptLayout {
                todo_rows: todo_rows as u16,
                input_rows: input as u16,
                footer_rows: footer as u16,
                total_height: (todo_rows + PROMPT_CHROME_ROWS + input + footer) as u16,
            }
        }
    }
}

/// Splits the prompt area's rows between the todo block, the input and the footer.
pub fn prompt_layout(i: &PromptInputs) -> (l: PromptLayout)
    ensures
        l == spec_prompt_layout(*i),
{
    let budget = i.area_height.saturating_sub(1);
    if budget == 0 {
        return PromptLayout { todo_rows: 0, input_rows: 0, footer_rows: 0, total_height: 0 };
    }
    if let Some(items) = i.picker_items {
        let rows: u16 = if items < 1 {
            1
        } else if items > MAX_PICKER_ROWS {
            MAX_PICKER_ROWS as u16
        } else {
            items as u16
        };
        let total = if rows + 4 < budget {
            rows + 4
        } else {
            budget
        };
        return PromptLayout { todo_rows: 0, input_rows: 0, footer_rows: 0, total_height: total };
    }
    let requested_footer: u16 = if i.footer_suppressed {
        0
    } else if let Some(candidates) = i.completion_candidates {
        let shown = if candidates < MAX_COMPLETION_ROWS {
            candidates
        } else {
            MAX_COMPLETION_ROWS
        };
        shown as u16
    } else {
        let left: u16 = if i.busy || i.input_empty {
            1
        } else {
            0
        };
        let warning: u16 = if i.context_warning && i.area_width < 80 && left > 0 {
            1
        } else {
            0
        };
        let at_least: u16 = if i.context_warning {
            1
        } else {
            0
        };
        if left + warning < at_least {
            at_least
        } else {
            left + warning
        }
    };
    assert(requested_footer as int == requested_footer_rows(*i));
    let wrapped = if i.wrapped_input_rows < MIN_INPUT_ROWS {
        MIN_INPUT_ROWS
    } else {
        i.wrapped_input_rows
    };
    let desired_input = #[verifier::truncate] (wrapped as u16);
    let desired_todo: u16 = if i.todo_lines < MAX_TODO_ROWS + 1 {
        i.todo_lines as u16
    } else {
        (MAX_TODO_ROWS + 1) as u16
    };
    let todo_budget = budget.saturating_sub(PROMPT_CHROME_ROWS + MIN_INPUT_ROWS as u16);
    let todo_rows: u16 = if i.show_todos {
        if desired_todo < todo_budget {
            desired_todo
        } else {
            todo_budget
        }
    } else {
        0
    };
    let rest = budget.saturating_sub(PROMPT_CHROME_ROWS).saturating_sub(todo_rows);
    if rest == 0 {
        return PromptLayout { todo_rows, input_rows: 0, footer_rows: 0, total_height: budget };
    }
    let footer_room = rest.saturating_sub(MIN_INPUT_ROWS as u16);
    let footer = if requested_footer < footer_room {
        requested_footer
    } else {
        footer_room
    };
    let input_budget = rest - footer;
    let minimum: u16 = if input_budget >= MIN_INPUT_ROWS as u16 {
        MIN_INPUT_ROWS as u16
    } else {
        1
    };
    let capped = if desired_input < input_budget {
        desired_input
    } else {
        input_budget
    };
    let input_rows = if capped < minimum {
        minimum
    } else {
        capped
    };
    PromptLayout {
        todo_rows,
        input_rows,
        footer_rows: footer,
        total_height: todo_rows + PROMPT_CHROME_ROWS + input_rows + footer,
    }
}

/// The prompt never takes more rows than the area leaves above its last row; when
/// no picker is open and rows remain after the chrome and todos, the parts add up to
/// the total and the input keeps at least one row.
pub proof fn law_prompt_fits_its_area(i: PromptInputs)
    ensures
        spec_prompt_layout(i).total_height <= sat_sub(i.area_height as int, 1),
        ({
            let l = spec_prompt_layout(i);
            let budget = sat_sub(i.area_height as int, 1);
            i.picker_items is None && budget > PROMPT_CHROME_ROWS as int + l.todo_rows ==> l.input_rows
                >= 1 && l.total_height == l.todo_rows + PROMPT_CHROME_ROWS + l.input_rows
                + l.footer_rows
        }),
{
}

/// Length of the leading run of non-whitespace characters.
pub open spec fn token_len(s: Seq<char>) -> int
    decreases s.len(),
{
    if s.len() == 0 || is_white_space(s[0]) {
        0
    } else {
        1 + token_len(s.drop_first())
    }
}

/// The slash command being typed: when the input starts with `/` and the cursor (a
/// byte offset) sits inside its first word, the word's byte range and the cursor.
pub open spec fn spec_slash_command_context(text: Seq<char>, cursor: int) -> Option<
    (int, int, int),
> {
    let byte_len = encode_utf8(text).len() as int;
    let token_end = encode_utf8(text.take(token_len(text))).len() as int;
    if text.len() == 0 || text[0] != '/' || cursor < 1 || cursor > byte_len {
        None
    } else if cursor > token_end {
        None
    } else {
        Some((0, token_end, cursor))
    }
}

/// Where the slash command under the cursor sits, as byte offsets: `(start, end, cursor)`.
pub fn slash_command_context(text: &str, cursor: usize) -> (r: Option<(usize, usize, usize)>)
    ensures
        r == match spec_slash_command_context(text@, cursor as int) {
            Some((a, b, c)) => Some((a as usize, b as usize, c as usize)),
            None => None::<(usize, usize, usize)>,
        },
        r matches Some((a, b, c)) ==> spec_slash_command_context(text@, cursor as int) == Some(
            (a as int, b as int, c as int),
        ),
{
    let cs = chars_of(text);
    let byte_len = text.as_bytes().len();
    if cs.len() == 0 || cs[0] != '/' || cursor < 1 || cursor > byte_len {
        return None;
    }
    let mut i: usize = 0;
    let mut token_end: usize = 0;
    assert(cs@.skip(0) == cs@);
    assert(cs@.take(0) == Seq::<char>::empty());
    while i < cs.len() && !char_is_white_space(cs[i])
        invariant
            i <= cs@.len(),
            byte_len == encode_utf8(cs@).len(),
            i + token_len(cs@.skip(i as int)) == token_len(cs@),
            token_end == encode_utf8(cs@.take(i as int)).len(),
            token_end <= byte_len,
        decreases cs@.len() - i,
    {
        let w = char_utf8_len(cs[i]);
        proof {
            assert(cs@.take(i + 1) == cs@.take(i as int) + seq![cs@[i as int]]);
            lemma_encode_utf8_concat(cs@.take(i as int), seq![cs@[i as int]]);
            assert(cs@ == cs@.take(i + 1) + cs@.skip(i + 1));
            lemma_encode_utf8_concat(cs@.take(i + 1), cs@.skip(i + 1));
            assert(cs@.skip(i as int).drop_first() == cs@.skip(i + 1));
        }
        token_end = token_end + w;
        i += 1;
    }
    proof {
        if i < cs@.len() {
            assert(cs@.skip(i as int)[0] == cs@[i as int]);
        }
    }
    if cursor > token_end {
        return None;
    }
    Some((0, token_end, cursor))
}

/// The hint at the left of the footer: how to interrupt a running turn, or where the
/// shortcuts are while the input is empty.
pub open spec fn footer_hint(busy: bool, input_empty: bool) -> Option<Seq<char>> {
    if busy {
        Some("  esc to interrupt"@)
    } else if input_empty {
        Some("  ? for shortcuts"@)
    } else {
        None
    }
}

/// The footer under the prompt: stacked lines in a narrow area, one row otherwise.
pub enum FooterLayout {
    Stacked(Vec<String>),
    Row { left: String, padding: usize, warning: Option<String>, right_padding: usize },
}

pub enum FooterView {
    Stacked(Seq<Seq<char>>),
    Row(Seq<char>, nat, Option<Seq<char>>, nat),
}

pub open spec fn footer_view(f: FooterLayout) -> FooterView {
    match f {
        FooterLayout::Stacked(lines) => FooterView::Stacked(string_views(lines@)),
        FooterLayout::Row { left, padding, warning, right_padding } => FooterView::Row(
            left@,
            padding as nat,
            warning.deep_view(),
            right_padding as nat,
        ),
    }
}

/// Under eighty columns the hint and the context warning stack, each cut to the
/// width, the warning indented and kept only when there is a second row or no hint.
/// Otherwise one row: the hint at the left, the warning right-aligned before two
/// blank cells, the hint cut first when space runs out.
pub open spec fn spec_prompt_footer(
    busy: bool,
    input_empty: bool,
    warning: Option<Seq<char>>,
    width: int,
    height: int,
) -> FooterView {
    let left = footer_hint(busy, input_empty);
    if width < 80 {
        let first = match left {
            Some(l) => seq![spec_truncate_tail(l, width)],
            None => Seq::empty(),
        };
        let second = match warning {
            Some(w) if height >= 2 || left is None => seq![spec_truncate_tail("  "@ + w, width)],
            _ => Seq::empty(),
        };
        FooterView::Stacked(first + second)
    } else {
        let right_padding = if width < 2 {
            width
        } else {
            2
        };
        let shown_warning = match warning {
            Some(w) => Some(spec_truncate_tail(w, sat_sub(width, right_padding))),
            None => None,
        };
        let warning_width = match shown_warning {
            Some(w) => saturated_display_width(w),
            None => 0,
        };
        let shown_left = match left {
            Some(l) => spec_truncate_tail(l, sat_sub(sat_sub(width, warning_width), right_padding)),
            None => Seq::empty(),
        };
        let padding = sat_sub(
            sat_sub(sat_sub(width, saturated_display_width(shown_left)), warning_width),
            right_padding,
        );
        FooterView::Row(shown_left, padding as nat, shown_warning, right_padding as nat)
    }
}

/// Lays out the footer; `warning` is the context warning, if one is due.
pub fn prompt_footer(
    busy: bool,
    input_empty: bool,
    warning: Option<&str>,
    width: usize,
    height: usize,
) -> (r: FooterLayout)
    ensures
        footer_view(r) == spec_prompt_footer(
            busy,
            input_empty,
            match warning {
                Some(w) => Some(w@),
                None => None,
            },
            width as int,
            height as int,
        ),
{
    let left: Option<&str> = if busy {
        Some("  esc to interrupt")
    } else if input_empty {
        Some("  ? for shortcuts")
    } else {
        None
    };
    assert(match left {
        Some(l) => Some(l@),
        None => None,
    } == footer_hint(busy, input_empty));
    if width < 80 {
        let mut lines: Vec<String> = Vec::new();
        let has_left = left.is_some();
        if let Some(l) = left {
            lines.push(truncate_tail(l, width));
        }
        let ghost first = string_views(lines@);
        assert(first =~= match left {
            Some(l) => seq![spec_truncate_tail(l@, width as int)],
            None => Seq::<Seq<char>>::empty(),
        });
        if let Some(w) = warning {
            if height >= 2 || !has_left {
                let mut indented = "  ".to_owned();
                push_str(&mut indented, w);
                let ghost before = lines@;
                lines.push(truncate_tail(indented.as_str(), width));
                assert(string_views(lines@) =~= first + seq![spec_truncate_tail("  "@ + w@, width as int)]);
            } else {
                assert(string_views(lines@) =~= first + Seq::<Seq<char>>::empty());
            }
        } else {
            assert(string_views(lines@) =~= first + Seq::<Seq<char>>::empty());
        }
        assert(footer_view(FooterLayout::Stacked(lines)) == spec_prompt_footer(
            busy,
            input_empty,
            match warning {
                Some(w) => Some(w@),
                None => None,
            },
            width as int,
            height as int,
        ));
        return FooterLayout::Stacked(lines);
    }
    let right_padding = if width < 2 {
        width
    } else {
        2
    };
    let shown_warning = match warning {
        Some(w) => Some(truncate_tail(w, width.saturating_sub(right_padding))),
        None => None,
    };
    let warning_width = match &shown_warning {
        Some(w) => display_width(w.as_str()),
        None => 0,
    };
    let shown_left = match left {
        Some(l) => truncate_tail(l, width.saturating_sub(warning_width).saturating_sub(right_padding)),
        None => String::new(),
    };
    let left_width = display_width(shown_left.as_str());
    let padding = width.saturating_sub(left_width).saturating_sub(warning_width).saturating_sub(
        right_padding,
    );
    FooterLayout::Row { left: shown_left, padding, warning: shown_warning, right_padding }
}

/// Whether the context warning is held back, and the compaction count seen last.
#[derive(Debug, Clone, Copy, PartialEq, Eq, Structural)]
pub struct ContextWarningGate {
    pub suppressed: bool,
    pub observed_compactions: Option<i64>,
}

/// A new context report: a rise in the compaction count since the last report
/// holds the warning back; the count is remembered.
pub open spec fn spec_observe(g: ContextWarningGate, compactions: Option<i64>) -> ContextWarningGate {
    match compactions {
        None => g,
        Some(c) => ContextWarningGate {
            suppressed: g.suppressed || (g.observed_compactions matches Some(o) && c > o),
            observed_compactions: Some(c),
        },
    }
}

/// A user turn lets the warning show again.
pub open spec fn spec_user_turn(g: ContextWarningGate) -> ContextWarningGate {
    ContextWarningGate { suppressed: false, ..g }
}

impl ContextWarningGate {
    /// Nothing seen yet; the warning may show.
    pub fn new() -> (g: Self)
        ensures
            g == (ContextWarningGate { suppressed: false, observed_compactions: None }),
    {
        ContextWarningGate { suppressed: false, observed_compactions: None }
    }

    /// Takes in the compaction count of a context report, if it had one.
    pub fn observe(&mut self, compactions: Option<i64>)
        ensures
            *final(self) == spec_observe(*old(self), compactions),
    {
        if let Some(c) = compactions {
            if let Some(o) = self.observed_compactions {
                if c > o {
                    self.suppressed = true;
                }
            }
            self.observed_compactions = Some(c);
        }
    }

    /// A user turn starts: the warning may show again.
    pub fn user_turn(&mut self)
        ensures
            *final(self) == spec_user_turn(*old(self)),
    {
        self.suppressed = false;
    }

    /// A new conversation forgets what was seen.
    pub fn reset(&mut self)
        ensures
            *final(self) == (ContextWarningGate { suppressed: false, observed_compactions: None }),
    {
        self.suppressed = false;
        self.observed_compactions = None;
    }
}

/// A compaction hides the context warning, later reports keep it hidden, and only
/// the next user turn shows it again.
pub proof fn law_compaction_hides_the_warning_until_the_next_turn(
    g: ContextWarningGate,
    before: i64,
    after: i64,
    later: Seq<Option<i64>>,
)
    requires
        before < after,
    ensures
        ({
            let hidden = spec_observe(spec_observe(g, Some(before)), Some(after));
            &&& hidden.suppressed
            &&& observe_all(hidden, later).suppressed
            &&& !spec_user_turn(observe_all(hidden, later)).suppressed
        }),
{
    lemma_observe_all_keeps_suppressed(spec_observe(spec_observe(g, Some(before)), Some(after)), later);
}

pub open spec fn observe_all(g: ContextWarningGate, counts: Seq<Option<i64>>) -> ContextWarningGate
    decreases counts.len(),
{
    if counts.len() == 0 {
        g
    } else {
        observe_all(spec_observe(g, counts[0]), counts.drop_first())
    }
}

proof fn lemma_observe_all_keeps_suppressed(g: ContextWarningGate, counts: Seq<Option<i64>>)
    requires
        g.suppressed,
    ensures
        observe_all(g, counts).suppressed,
    decreases counts.len(),
{
    if counts.len() > 0 {
        lemma_observe_all_keeps_suppressed(spec_observe(g, counts[0]), counts.drop_first());
    }
}

/// How close to its limit the context gets before the warning shows, in tokens.
pub const CONTEXT_WARNING_BUFFER_TOKENS: i64 = 20_000;

/// The context warning is due once the context comes within the buffer of a known
/// positive limit, unless a compaction holds it back.
pub open spec fn spec_context_warning_due(suppressed: bool, current_tokens: i64, token_limit: i64) -> bool {
    !suppressed && token_limit > 0 && current_tokens >= token_limit - CONTEXT_WARNING_BUFFER_TOKENS
}

/// Whether the context warning is due (see `spec_context_warning_due`).
pub fn context_warning_due(suppressed: bool, current_tokens: i64, token_limit: i64) -> (due: bool)
    ensures
        due == spec_context_warning_due(suppressed, current_tokens, token_limit),
{
    !suppressed && token_limit > 0 && current_tokens >= token_limit - CONTEXT_WARNING_BUFFER_TOKENS
}

} // verus!
