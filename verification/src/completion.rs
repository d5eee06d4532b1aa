//! Slash-command completion under the prompt: the built-in commands and the
//! user-invocable skills, filtered by the typed prefix (ASCII case folded), an exact
//! match ranked first, the highlight carried over between keystrokes, and the
//! chosen command written back over the typed word.

use vstd::prelude::*;
use crate::picker::wrapped_index;
use crate::prompt::{slash_command_context, spec_slash_command_context};
use crate::skills::{SkillCatalog, SkillView, skill_views};
use crate::format::{collapsed_whitespace, spec_collapsed_whitespace};
use crate::layout::{display_width, sat_add, saturated_display_width, spec_truncate_tail, truncate_tail};
use crate::prompt::sat_sub;
use crate::text::{
    ascii_lower_chars, ascii_lower_seq, char_index, char_index_at, chars_equal, chars_of,
    copy_range, on_char_boundary, pad_right, push_char, push_chars, push_padded, push_str,
    starts_with,
};

verus! {

/// One command offered by the completion list.
pub struct CompletionCandidate {
    pub command: String,
    pub description: String,
}

/// The open completion list: its candidates, the highlighted one, and the byte
/// range of the word being completed.
pub struct CompletionState {
    pub candidates: Vec<CompletionCandidate>,
    pub selected_item: usize,
    pub token_start: usize,
    pub token_end: usize,
}

pub open spec fn candidate_view(c: CompletionCandidate) -> (Seq<char>, Seq<char>) {
    (c.command@, c.description@)
}

pub open spec fn candidate_views(v: Seq<CompletionCandidate>) -> Seq<(Seq<char>, Seq<char>)> {
    v.map_values(|c: CompletionCandidate| candidate_view(c))
}

impl CompletionState {
    /// An open list always has a candidate, and the highlight is on one of them.
    pub open spec fn well_formed(&self) -> bool {
        0 < self.candidates@.len() && self.selected_item < self.candidates@.len()
    }
}

/// The built-in commands, in the order they are offered.
pub open spec fn builtin_command_views() -> Seq<(Seq<char>, Seq<char>)> {
    seq![
        ("/fleet"@, "run work through Fleet"@),
        ("/status"@, "show session and configuration status"@),
        ("/usage"@, "show session usage and context attribution"@),
    ]
}

fn candidate(command: &str, description: &str) -> (c: CompletionCandidate)
    ensures
        candidate_view(c) == (command@, description@),
{
    CompletionCandidate { command: command.to_owned(), description: description.to_owned() }
}

/// The built-in commands.
pub fn builtin_commands() -> (r: Vec<CompletionCandidate>)
    ensures
        candidate_views(r@) == builtin_command_views(),
{
    let mut r: Vec<CompletionCandidate> = Vec::new();
    r.push(candidate("/fleet", "run work through Fleet"));
    r.push(candidate("/status", "show session and configuration status"));
    r.push(candidate("/usage", "show session usage and context attribution"));
    assert(candidate_views(r@) =~= builtin_command_views());
    r
}

/// `/name`.
pub open spec fn slash_name(name: Seq<char>) -> Seq<char> {
    seq!['/'] + name
}

/// Whether some candidate is the command `command`.
pub open spec fn has_command(c: Seq<(Seq<char>, Seq<char>)>, command: Seq<char>) -> bool {
    exists|i: int| 0 <= i < c.len() && #[trigger] c[i].0 == command
}

/// The built-in commands followed by `/name` for each user-invocable skill, in
/// catalog order, leaving out a command that is already offered.
pub open spec fn spec_command_candidates(skills: Seq<SkillView>) -> Seq<(Seq<char>, Seq<char>)>
    decreases skills.len(),
{
    if skills.len() == 0 {
        builtin_command_views()
    } else {
        let earlier = spec_command_candidates(skills.drop_last());
        let skill = skills.last();
        if skill.user_invocable && !has_command(earlier, slash_name(skill.name)) {
            earlier.push((slash_name(skill.name), skill.description))
        } else {
            earlier
        }
    }
}

fn copy_candidate(c: &CompletionCandidate) -> (r: CompletionCandidate)
    ensures
        candidate_view(r) == candidate_view(*c),
{
    CompletionCandidate { command: c.command.clone(), description: c.description.clone() }
}

fn offers(candidates: &Vec<CompletionCandidate>, command: &String) -> (b: bool)
    ensures
        b == has_command(candidate_views(candidates@), command@),
{
    let ghost views = candidate_views(candidates@);
    let mut j: usize = 0;
    while j < candidates.len()
        invariant
            j <= candidates@.len(),
            views == candidate_views(candidates@),
            forall|k: int| 0 <= k < j ==> #[trigger] views[k].0 != command@,
        decreases candidates@.len() - j,
    {
        if candidates[j].command == *command {
            assert(views[j as int].0 == command@);
            return true;
        }
        j += 1;
    }
    false
}

/// Every command the completion list can offer: the built-ins, then the
/// user-invocable skills of `catalog` as `/name`.
pub fn command_candidates(catalog: &SkillCatalog) -> (r: Vec<CompletionCandidate>)
    ensures
        candidate_views(r@) == spec_command_candidates(catalog@),
{
    let mut out = builtin_commands();
    let skills = catalog.skills();
    let ghost all = skill_views(skills@);
    let mut i: usize = 0;
    assert(all.take(0) == Seq::<SkillView>::empty());
    while i < skills.len()
        invariant
            i <= skills@.len(),
            all == skill_views(skills@),
            all == catalog@,
            candidate_views(out@) == spec_command_candidates(all.take(i as int)),
        decreases skills@.len() - i,
    {
        let skill = &skills[i];
        assert(all.take(i + 1).drop_last() == all.take(i as int));
        assert(all.take(i + 1).last() == skill@);
        if skill.user_invocable {
            let mut command = String::new();
            push_char(&mut command, '/');
            push_str(&mut command, skill.name.as_str());
            assert(command@ == slash_name(skill.name@));
            if !offers(&out, &command) {
                let ghost before = out@;
                out.push(CompletionCandidate { command, description: skill.description.clone() });
                assert(candidate_views(out@) == candidate_views(before).push(
                    (slash_name(skill@.name), skill@.description),
                ));
            }
        }
        i += 1;
    }
    assert(all.take(skills@.len() as int) == all);
    out
}

fn chars_start_with(s: &[char], p: &[char]) -> (b: bool)
    ensures
        b == starts_with(s@, p@),
{
    if p.len() > s.len() {
        return false;
    }
    let mut i: usize = 0;
    while i < p.len()
        invariant
            i <= p@.len() <= s@.len(),
            forall|k: int| 0 <= k < i ==> s@[k] == p@[k],
        decreases p@.len() - i,
    {
        if s[i] != p[i] {
            assert(s@.take(p@.len() as int)[i as int] != p@[i as int]);
            return false;
        }
        i += 1;
    }
    assert(s@.take(p@.len() as int) =~= p@);
    true
}

/// The candidates whose folded command starts with the folded `prefix` and, as
/// `exact` says, equals it or not, in their order.
pub open spec fn select(
    c: Seq<(Seq<char>, Seq<char>)>,
    prefix: Seq<char>,
    exact: bool,
) -> Seq<(Seq<char>, Seq<char>)>
    decreases c.len(),
{
    if c.len() == 0 {
        Seq::empty()
    } else {
        let earlier = select(c.drop_last(), prefix, exact);
        let folded = ascii_lower_seq(c.last().0);
        if starts_with(folded, prefix) && (folded == prefix) == exact {
            earlier.push(c.last())
        } else {
            earlier
        }
    }
}

/// The matching candidates with the exact matches first, each group in its order.
pub open spec fn ranked(c: Seq<(Seq<char>, Seq<char>)>, prefix: Seq<char>) -> Seq<
    (Seq<char>, Seq<char>),
> {
    select(c, prefix, true) + select(c, prefix, false)
}

fn select_into(
    all: &Vec<CompletionCandidate>,
    prefix: &Vec<char>,
    exact: bool,
    out: &mut Vec<CompletionCandidate>,
)
    ensures
        candidate_views(final(out)@) == candidate_views(old(out)@) + select(
            candidate_views(all@),
            prefix@,
            exact,
        ),
{
    let ghost views = candidate_views(all@);
    let ghost start = candidate_views(out@);
    let mut i: usize = 0;
    assert(views.take(0) == Seq::<(Seq<char>, Seq<char>)>::empty());
    assert(start + Seq::<(Seq<char>, Seq<char>)>::empty() == start);
    while i < all.len()
        invariant
            i <= all@.len(),
            views == candidate_views(all@),
            candidate_views(out@) == start + select(views.take(i as int), prefix@, exact),
        decreases all@.len() - i,
    {
        assert(views.take(i + 1).drop_last() == views.take(i as int));
        assert(views.take(i + 1).last() == candidate_view(all@[i as int]));
        let folded = ascii_lower_chars(chars_of(all[i].command.as_str()).as_slice());
        let starts = chars_start_with(folded.as_slice(), prefix.as_slice());
        let equal = chars_equal(folded.as_slice(), prefix.as_slice());
        if starts && equal == exact {
            let ghost before = out@;
            out.push(copy_candidate(&all[i]));
            assert(candidate_views(out@) == candidate_views(before).push(candidate_view(all@[i as int])));
        }
        i += 1;
    }
    assert(views.take(all@.len() as int) == views);
}

/// Index of the first candidate whose folded command is `prefix`, or the length.
pub open spec fn first_exact(c: Seq<(Seq<char>, Seq<char>)>, prefix: Seq<char>) -> int
    decreases c.len(),
{
    if c.len() == 0 {
        0
    } else if ascii_lower_seq(c[0].0) == prefix {
        0
    } else {
        1 + first_exact(c.drop_first(), prefix)
    }
}

/// Index of the first candidate that is the command `command`, or the length.
pub open spec fn first_command(c: Seq<(Seq<char>, Seq<char>)>, command: Seq<char>) -> int
    decreases c.len(),
{
    if c.len() == 0 {
        0
    } else if c[0].0 == command {
        0
    } else {
        1 + first_command(c.drop_first(), command)
    }
}

/// The highlight of a refreshed list: the exact match, else the command highlighted
/// before if it is still offered, else the first row.
pub open spec fn spec_selected(
    c: Seq<(Seq<char>, Seq<char>)>,
    prefix: Seq<char>,
    previous: Option<Seq<char>>,
) -> int {
    let index = if first_exact(c, prefix) < c.len() {
        first_exact(c, prefix)
    } else {
        match previous {
            Some(command) => if first_command(c, command) < c.len() {
                first_command(c, command)
            } else {
                0
            },
            None => 0,
        }
    };
    if index > c.len() - 1 {
        c.len() - 1
    } else {
        index
    }
}

proof fn lemma_first_exact_bound(c: Seq<(Seq<char>, Seq<char>)>, prefix: Seq<char>)
    ensures
        0 <= first_exact(c, prefix) <= c.len(),
    decreases c.len(),
{
    if c.len() > 0 && ascii_lower_seq(c[0].0) != prefix {
        lemma_first_exact_bound(c.drop_first(), prefix);
    }
}

proof fn lemma_first_command_bound(c: Seq<(Seq<char>, Seq<char>)>, command: Seq<char>)
    ensures
        0 <= first_command(c, command) <= c.len(),
    decreases c.len(),
{
    if c.len() > 0 && c[0].0 != command {
        lemma_first_command_bound(c.drop_first(), command);
    }
}

fn find_exact(c: &Vec<CompletionCandidate>, prefix: &Vec<char>) -> (i: usize)
    ensures
        i == first_exact(candidate_views(c@), prefix@),
{
    let ghost views = candidate_views(c@);
    let mut i: usize = 0;
    assert(views.skip(0) == views);
    while i < c.len()
        invariant
            i <= c@.len(),
            views == candidate_views(c@),
            i + first_exact(views.skip(i as int), prefix@) == first_exact(views, prefix@),
        decreases c@.len() - i,
    {
        assert(views.skip(i as int)[0] == candidate_view(c@[i as int]));
        let folded = ascii_lower_chars(chars_of(c[i].command.as_str()).as_slice());
        if chars_equal(folded.as_slice(), prefix.as_slice()) {
            return i;
        }
        assert(views.skip(i as int).drop_first() == views.skip(i + 1));
        i += 1;
    }
    i
}

fn find_command(c: &Vec<CompletionCandidate>, command: &String) -> (i: usize)
    ensures
        i == first_command(candidate_views(c@), command@),
{
    let ghost views = candidate_views(c@);
    let mut i: usize = 0;
    assert(views.skip(0) == views);
    while i < c.len()
        invariant
            i <= c@.len(),
            views == candidate_views(c@),
            i + first_command(views.skip(i as int), command@) == first_command(views, command@),
        decreases c@.len() - i,
    {
        assert(views.skip(i as int)[0] == candidate_view(c@[i as int]));
        if c[i].command == *command {
            return i;
        }
        assert(views.skip(i as int).drop_first() == views.skip(i + 1));
        i += 1;
    }
    i
}

/// The command highlighted in `previous`, if a list was open and its highlight is
/// on a row.
pub open spec fn previous_command(previous: Option<CompletionState>) -> Option<Seq<char>> {
    match previous {
        Some(p) => if p.selected_item < p.candidates@.len() {
            Some(p.candidates@[p.selected_item as int].command@)
        } else {
            None
        },
        None => None,
    }
}

pub open spec fn state_view(s: CompletionState) -> (Seq<(Seq<char>, Seq<char>)>, int, int, int) {
    (candidate_views(s.candidates@), s.selected_item as int, s.token_start as int, s.token_end as int)
}

/// The list to show for `text` with the cursor at byte `cursor`: none unless a
/// slash command is being typed under the cursor and some command matches the typed
/// part of its word.
pub open spec fn spec_refresh(
    text: Seq<char>,
    cursor: int,
    skills: Seq<SkillView>,
    previous: Option<Seq<char>>,
) -> Option<(Seq<(Seq<char>, Seq<char>)>, int, int, int)> {
    match spec_slash_command_context(text, cursor) {
        None => None,
        Some((start, end, prefix_end)) => {
            let prefix = ascii_lower_seq(
                text.subrange(char_index_at(text, start), char_index_at(text, prefix_end)),
            );
            let c = ranked(spec_command_candidates(skills), prefix);
            if c.len() == 0 {
                None
            } else {
                Some((c, spec_selected(c, prefix, previous), start, end))
            }
        },
    }
}

/// Recomputes the completion list after the input or its cursor changed, keeping
/// the highlight on the same command where it can.
pub fn refresh_completion(
    text: &str,
    cursor: usize,
    catalog: &SkillCatalog,
    previous: &Option<CompletionState>,
) -> (r: Option<CompletionState>)
    requires
        on_char_boundary(text@, cursor as int),
    ensures
        match r {
            Some(s) => spec_refresh(text@, cursor as int, catalog@, previous_command(*previous))
                == Some(state_view(s)) && s.well_formed(),
            None => spec_refresh(text@, cursor as int, catalog@, previous_command(*previous))
                is None,
        },
{
    let context = slash_command_context(text, cursor);
    let (start, end, prefix_end) = match context {
        None => {
            return None;
        },
        Some(found) => found,
    };
    let cs = chars_of(text);
    let a = char_index(&cs, start);
    let b = char_index(&cs, prefix_end);
    assert(char_index_at(cs@, 0) == 0);
    let typed = copy_range(cs.as_slice(), a, b);
    let prefix = ascii_lower_chars(typed.as_slice());
    let all = command_candidates(catalog);
    let mut candidates: Vec<CompletionCandidate> = Vec::new();
    assert(candidate_views(candidates@) == Seq::<(Seq<char>, Seq<char>)>::empty());
    select_into(&all, &prefix, true, &mut candidates);
    select_into(&all, &prefix, false, &mut candidates);
    assert(candidate_views(candidates@) == ranked(candidate_views(all@), prefix@));
    if candidates.len() == 0 {
        return None;
    }
    let exact = find_exact(&candidates, &prefix);
    let ghost previous_view = previous_command(*previous);
    let ghost c = candidate_views(candidates@);
    proof {
        lemma_first_exact_bound(c, prefix@);
    }
    let mut index = exact;
    if exact >= candidates.len() {
        index = 0;
        match previous {
            Some(p) => {
                if p.selected_item < p.candidates.len() {
                    let found = find_command(&candidates, &p.candidates[p.selected_item].command);
                    proof {
                        lemma_first_command_bound(c, p.candidates@[p.selected_item as int].command@);
                    }
                    if found < candidates.len() {
                        index = found;
                    }
                }
            },
            None => {},
        }
    }
    assert(index as int == if first_exact(c, prefix@) < c.len() {
        first_exact(c, prefix@)
    } else {
        match previous_view {
            Some(command) => if first_command(c, command) < c.len() {
                first_command(c, command)
            } else {
                0
            },
            None => 0,
        }
    });
    let selected_item = if index > candidates.len() - 1 {
        candidates.len() - 1
    } else {
        index
    };
    proof {
        assert(spec_slash_command_context(text@, cursor as int) == Some(
            (start as int, end as int, prefix_end as int),
        ));
        assert(typed@ == text@.subrange(
            char_index_at(text@, start as int),
            char_index_at(text@, prefix_end as int),
        ));
        assert(c == ranked(spec_command_candidates(catalog@), prefix@));
        assert(selected_item as int == spec_selected(c, prefix@, previous_view));
    }
    Some(CompletionState { candidates, selected_item, token_start: start, token_end: end })
}

impl CompletionState {
    /// Moves the highlight by `delta` rows, wrapping around the list.
    pub fn move_completion(&mut self, delta: isize)
        requires
            old(self).well_formed(),
            old(self).candidates@.len() <= isize::MAX,
        ensures
            final(self).well_formed(),
            final(self).candidates == old(self).candidates,
            final(self).token_start == old(self).token_start,
            final(self).token_end == old(self).token_end,
            final(self).selected_item as int == (old(self).selected_item + delta) % (old(
                self,
            ).candidates@.len() as int),
    {
        self.selected_item = wrapped_index(self.selected_item, delta, self.candidates.len());
    }
}

/// `text` with the completed word replaced by the highlighted command.
pub open spec fn spec_accept(text: Seq<char>, s: CompletionState) -> Seq<char> {
    text.take(char_index_at(text, s.token_start as int)) + s.candidates@[s.selected_item as int].command@
        + text.skip(char_index_at(text, s.token_end as int))
}

/// Writes the highlighted command over the completed word of `text`; nothing is
/// written when the highlight is on no row.
pub fn accept_completion(text: &str, state: &CompletionState) -> (r: Option<String>)
    requires
        on_char_boundary(text@, state.token_start as int),
        on_char_boundary(text@, state.token_end as int),
        char_index_at(text@, state.token_start as int) <= char_index_at(text@, state.token_end as int),
    ensures
        r is Some <==> state.selected_item < state.candidates@.len(),
        r matches Some(t) ==> t@ == spec_accept(text@, *state),
{
    if state.selected_item >= state.candidates.len() {
        return None;
    }
    let cs = chars_of(text);
    let a = char_index(&cs, state.token_start);
    let b = char_index(&cs, state.token_end);
    let head = copy_range(cs.as_slice(), 0, a);
    let tail = copy_range(cs.as_slice(), b, cs.len());
    let mut out = String::new();
    push_chars(&mut out, head.as_slice());
    push_str(&mut out, state.candidates[state.selected_item].command.as_str());
    push_chars(&mut out, tail.as_slice());
    assert(head@ == text@.take(a as int));
    assert(tail@ == text@.skip(b as int));
    Some(out)
}

proof fn lemma_select(c: Seq<(Seq<char>, Seq<char>)>, prefix: Seq<char>, exact: bool)
    ensures
        forall|j: int|
            0 <= j < select(c, prefix, exact).len() ==> {
                let folded = ascii_lower_seq(#[trigger] select(c, prefix, exact)[j].0);
                starts_with(folded, prefix) && (folded == prefix) == exact
            },
        forall|i: int|
            0 <= i < c.len() && starts_with(ascii_lower_seq(#[trigger] c[i].0), prefix) && (
            ascii_lower_seq(c[i].0) == prefix) == exact ==> select(c, prefix, exact).contains(c[i]),
    decreases c.len(),
{
    if c.len() > 0 {
        let front = c.drop_last();
        lemma_select(front, prefix, exact);
        let earlier = select(front, prefix, exact);
        assert forall|i: int|
            0 <= i < c.len() && starts_with(ascii_lower_seq(#[trigger] c[i].0), prefix) && (
            ascii_lower_seq(c[i].0) == prefix) == exact implies select(c, prefix, exact).contains(
            c[i],
        ) by {
            if i < c.len() - 1 {
                assert(front[i] == c[i]);
                let k = choose|k: int| 0 <= k < earlier.len() && earlier[k] == c[i];
                if starts_with(ascii_lower_seq(c.last().0), prefix) && (ascii_lower_seq(c.last().0)
                    == prefix) == exact {
                    assert(earlier.push(c.last())[k] == c[i]);
                }
            } else {
                assert(select(c, prefix, exact).last() == c[i]);
            }
        }
    }
}

/// Every command the completion list offers begins with the typed prefix, ASCII
/// case ignored.
pub proof fn law_offered_commands_match_the_prefix(
    c: Seq<(Seq<char>, Seq<char>)>,
    prefix: Seq<char>,
    i: int,
)
    requires
        0 <= i < ranked(c, prefix).len(),
    ensures
        starts_with(ascii_lower_seq(ranked(c, prefix)[i].0), prefix),
{
    lemma_select(c, prefix, true);
    lemma_select(c, prefix, false);
    let exact = select(c, prefix, true);
    if i < exact.len() {
        assert(ranked(c, prefix)[i] == exact[i]);
    } else {
        assert(ranked(c, prefix)[i] == select(c, prefix, false)[i - exact.len()]);
    }
}

/// No command that begins with the typed prefix is left out of the list.
pub proof fn law_every_match_is_offered(c: Seq<(Seq<char>, Seq<char>)>, prefix: Seq<char>, i: int)
    requires
        0 <= i < c.len(),
        starts_with(ascii_lower_seq(c[i].0), prefix),
    ensures
        ranked(c, prefix).contains(c[i]),
{
    lemma_select(c, prefix, true);
    lemma_select(c, prefix, false);
    let exact = select(c, prefix, true);
    let rest = select(c, prefix, false);
    if ascii_lower_seq(c[i].0) == prefix {
        let k = choose|k: int| 0 <= k < exact.len() && exact[k] == c[i];
        assert(ranked(c, prefix)[k] == c[i]);
    } else {
        let k = choose|k: int| 0 <= k < rest.len() && rest[k] == c[i];
        assert(ranked(c, prefix)[exact.len() + k] == c[i]);
    }
}

/// When a command is exactly the typed word (ASCII case ignored), it heads the list.
pub proof fn law_exact_match_is_offered_first(
    c: Seq<(Seq<char>, Seq<char>)>,
    prefix: Seq<char>,
    i: int,
)
    requires
        0 <= i < c.len(),
        ascii_lower_seq(c[i].0) == prefix,
    ensures
        ranked(c, prefix).len() > 0,
        ascii_lower_seq(ranked(c, prefix)[0].0) == prefix,
{
    lemma_select(c, prefix, true);
    assert(ascii_lower_seq(c[i].0).take(prefix.len() as int) == prefix);
    assert(select(c, prefix, true).contains(c[i]));
    assert(ranked(c, prefix)[0] == select(c, prefix, true)[0]);
}

/// Rows a completion list shows at most.
pub const MAX_COMPLETION_ROWS: usize = 6;

/// The cells of the command column: forty percent of the width after the indent.
pub open spec fn command_column(width: int) -> int {
    let product = if (if width >= 2 {
        width - 2
    } else {
        0
    }) * 40 > usize::MAX {
        usize::MAX as int
    } else {
        (if width >= 2 {
            width - 2
        } else {
            0
        }) * 40
    };
    if product / 100 < 1 {
        1
    } else {
        product / 100
    }
}

/// One completion row: the command cut to its column and padded, then the
/// description with its whitespace collapsed, cut to what is left.
pub open spec fn spec_completion_row(command: Seq<char>, description: Seq<char>, width: int) -> Seq<char> {
    let column = command_column(width);
    let shown = spec_truncate_tail(command, column);
    let row = "  "@ + shown + Seq::new(sat_sub(column, saturated_display_width(shown)) as nat, |i: int| ' ');
    let text = spec_collapsed_whitespace(description);
    let separator = if text.len() > 0 {
        1int
    } else {
        0
    };
    let room = sat_sub(sat_sub(width, saturated_display_width(row)), separator);
    if text.len() > 0 && room > 0 {
        row + " "@ + spec_truncate_tail(text, room)
    } else {
        row
    }
}

/// The first candidate shown: the highlight sits in the middle of the window
/// where it can.
pub open spec fn first_visible(selected: int, count: int, visible: int) -> int {
    let a = sat_sub(selected, visible / 2);
    let b = sat_sub(count, visible);
    if a < b {
        a
    } else {
        b
    }
}

/// The rows of the completion list in an area of `width` by `height` cells: at most
/// six, around the highlight, each flagged when highlighted.
pub open spec fn spec_completion_rows(s: CompletionState, width: int, height: int) -> Seq<(Seq<char>, bool)> {
    let c = candidate_views(s.candidates@);
    let n = c.len() as int;
    if n == 0 || width == 0 || height == 0 {
        Seq::empty()
    } else {
        let visible = min_of(min_of(n, MAX_COMPLETION_ROWS as int), height);
        let first = first_visible(s.selected_item as int, n, visible);
        Seq::new(
            visible as nat,
            |k: int| (spec_completion_row(c[first + k].0, c[first + k].1, width), first + k
                == s.selected_item),
        )
    }
}

pub open spec fn min_of(a: int, b: int) -> int {
    if a < b {
        a
    } else {
        b
    }
}

fn completion_row(command: &str, description: &str, width: usize) -> (r: String)
    ensures
        r@ == spec_completion_row(command@, description@, width as int),
{
    let base = width.saturating_sub(2);
    let product = if base > usize::MAX / 40 {
        usize::MAX
    } else {
        base * 40
    };
    let column = product / 100;
    let column = if column < 1 {
        1
    } else {
        column
    };
    assert(column == command_column(width as int));
    let shown = truncate_tail(command, column);
    let shown_width = display_width(shown.as_str());
    let mut row = "  ".to_owned();
    push_str(&mut row, shown.as_str());
    proof {
        reveal_strlit("");
    }
    push_padded(&mut row, "", column.saturating_sub(shown_width));
    assert(pad_right(""@, column.saturating_sub(shown_width) as int) =~= Seq::new(
        sat_sub(column as int, shown_width as int) as nat,
        |i: int| ' ',
    ));
    let text = collapsed_whitespace(description);
    let has_text = !text.as_str().is_empty();
    let separator: usize = if has_text {
        1
    } else {
        0
    };
    let room = width.saturating_sub(display_width(row.as_str())).saturating_sub(separator);
    if has_text && room > 0 {
        push_str(&mut row, " ");
        let cut = truncate_tail(text.as_str(), room);
        push_str(&mut row, cut.as_str());
    }
    row
}

pub open spec fn row_flag_views(v: Seq<(String, bool)>) -> Seq<(Seq<char>, bool)> {
    v.map_values(|r: (String, bool)| (r.0@, r.1))
}

/// The rows to draw under the prompt for the open completion list.
pub fn completion_rows(state: &CompletionState, width: usize, height: usize) -> (r: Vec<(String, bool)>)
    ensures
        row_flag_views(r@) == spec_completion_rows(*state, width as int, height as int),
{
    let mut rows: Vec<(String, bool)> = Vec::new();
    let n = state.candidates.len();
    if n == 0 || width == 0 || height == 0 {
        assert(row_flag_views(rows@) =~= Seq::<(Seq<char>, bool)>::empty());
        return rows;
    }
    let mut visible = if n < MAX_COMPLETION_ROWS {
        n
    } else {
        MAX_COMPLETION_ROWS
    };
    if height < visible {
        visible = height;
    }
    let a = state.selected_item.saturating_sub(visible / 2);
    let b = n.saturating_sub(visible);
    let first = if a < b {
        a
    } else {
        b
    };
    let ghost c = candidate_views(state.candidates@);
    let ghost target = spec_completion_rows(*state, width as int, height as int);
    let mut k: usize = 0;
    while k < visible
        invariant
            k <= visible,
            first + visible <= n,
            n == state.candidates@.len(),
            c == candidate_views(state.candidates@),
            target.len() == visible,
            forall|j: int|
                0 <= j < visible ==> #[trigger] target[j] == (
                    spec_completion_row(c[first + j].0, c[first + j].1, width as int),
                    first + j == state.selected_item,
                ),
            row_flag_views(rows@) == target.take(k as int),
        decreases visible - k,
    {
        let candidate = &state.candidates[first + k];
        let row = completion_row(candidate.command.as_str(), candidate.description.as_str(), width);
        let ghost before = rows@;
        rows.push((row, first + k == state.selected_item));
        assert(row_flag_views(rows@) == row_flag_views(before).push(target[k as int]));
        assert(target.take(k + 1) == target.take(k as int).push(target[k as int]));
        k += 1;
    }
    assert(target.take(visible as int) == target);
    rows
}

} // verus!
