//! Tool calls in the transcript: a call's header and live progress when it starts,
//! its output and status while it runs, its result once it ends, the calls a lost
//! connection leaves with an unknown outcome, and the sub-agents tool calls start.

use vstd::prelude::*;
use crate::transcript::{
    copy_optional, entries_view, entry_view, same_text, EntryView, ToolCallState, ToolResultState,
    TranscriptEntry,
};
use crate::text::push_str;
use crate::tui::SubagentStatus;

verus! {

/// Index of the first entry of `s` that satisfies `p`, or -1.
pub open spec fn first_where(s: Seq<EntryView>, p: spec_fn(EntryView) -> bool) -> int
    decreases s.len(),
{
    if s.len() == 0 {
        -1
    } else if p(s[0]) {
        0
    } else {
        let r = first_where(s.drop_first(), p);
        if r < 0 {
            -1
        } else {
            r + 1
        }
    }
}

/// Index of the last entry of `s` that satisfies `p`, or -1.
pub open spec fn last_where(s: Seq<EntryView>, p: spec_fn(EntryView) -> bool) -> int
    decreases s.len(),
{
    if s.len() == 0 {
        -1
    } else if p(s.last()) {
        s.len() - 1
    } else {
        last_where(s.drop_last(), p)
    }
}

pub proof fn lemma_first_where(s: Seq<EntryView>, p: spec_fn(EntryView) -> bool)
    ensures
        -1 <= first_where(s, p) < s.len(),
        first_where(s, p) >= 0 ==> p(s[first_where(s, p)]),
        forall|k: int|
            0 <= k < s.len() && (first_where(s, p) < 0 || k < first_where(s, p)) ==> !p(
                #[trigger] s[k],
            ),
    decreases s.len(),
{
    if s.len() > 0 && !p(s[0]) {
        lemma_first_where(s.drop_first(), p);
        assert forall|k: int|
            0 <= k < s.len() && (first_where(s, p) < 0 || k < first_where(s, p)) implies !p(
                #[trigger] s[k],
            ) by {
            if k > 0 {
                assert(s[k] == s.drop_first()[k - 1]);
            }
        }
    }
}

pub proof fn lemma_first_where_at(s: Seq<EntryView>, p: spec_fn(EntryView) -> bool, i: int)
    requires
        0 <= i < s.len(),
        p(s[i]),
        forall|k: int| 0 <= k < i ==> !p(#[trigger] s[k]),
    ensures
        first_where(s, p) == i,
    decreases i,
{
    if i > 0 {
        assert(!p(s[0]));
        assert forall|k: int| 0 <= k < i - 1 implies !p(#[trigger] s.drop_first()[k]) by {
            assert(s.drop_first()[k] == s[k + 1]);
        }
        lemma_first_where_at(s.drop_first(), p, i - 1);
    }
}

pub proof fn lemma_first_where_none(s: Seq<EntryView>, p: spec_fn(EntryView) -> bool)
    requires
        forall|k: int| 0 <= k < s.len() ==> !p(#[trigger] s[k]),
    ensures
        first_where(s, p) == -1,
    decreases s.len(),
{
    if s.len() > 0 {
        assert(!p(s[0]));
        assert forall|k: int| 0 <= k < s.drop_first().len() implies !p(
            #[trigger] s.drop_first()[k],
        ) by {
            assert(s.drop_first()[k] == s[k + 1]);
        }
        lemma_first_where_none(s.drop_first(), p);
    }
}

pub proof fn lemma_last_where(s: Seq<EntryView>, p: spec_fn(EntryView) -> bool)
    ensures
        -1 <= last_where(s, p) < s.len(),
        last_where(s, p) >= 0 ==> p(s[last_where(s, p)]),
        forall|k: int| last_where(s, p) < k < s.len() ==> !p(#[trigger] s[k]),
    decreases s.len(),
{
    if s.len() > 0 && !p(s.last()) {
        lemma_last_where(s.drop_last(), p);
        assert forall|k: int| last_where(s, p) < k < s.len() implies !p(#[trigger] s[k]) by {
            if k < s.len() - 1 {
                assert(s[k] == s.drop_last()[k]);
            }
        }
    }
}

pub proof fn lemma_last_where_at(s: Seq<EntryView>, p: spec_fn(EntryView) -> bool, i: int)
    requires
        0 <= i < s.len(),
        p(s[i]),
        forall|k: int| i < k < s.len() ==> !p(#[trigger] s[k]),
    ensures
        last_where(s, p) == i,
    decreases s.len(),
{
    if i < s.len() - 1 {
        assert(!p(s[s.len() - 1]));
        assert forall|k: int| i < k < s.drop_last().len() implies !p(
            #[trigger] s.drop_last()[k],
        ) by {
            assert(s.drop_last()[k] == s[k]);
        }
        lemma_last_where_at(s.drop_last(), p, i);
    }
}

pub proof fn lemma_last_where_none(s: Seq<EntryView>, p: spec_fn(EntryView) -> bool)
    requires
        forall|k: int| 0 <= k < s.len() ==> !p(#[trigger] s[k]),
    ensures
        last_where(s, p) == -1,
    decreases s.len(),
{
    if s.len() > 0 {
        assert(!p(s[s.len() - 1]));
        assert forall|k: int| 0 <= k < s.drop_last().len() implies !p(
            #[trigger] s.drop_last()[k],
        ) by {
            assert(s.drop_last()[k] == s[k]);
        }
        lemma_last_where_none(s.drop_last(), p);
    }
}

/// The header of the tool call `id`.
pub open spec fn header_of(id: Seq<char>) -> spec_fn(EntryView) -> bool {
    |e: EntryView| e matches EntryView::Tool { id: i, .. } && i == id
}

/// The progress entry of the tool call `id`.
pub open spec fn progress_of(id: Seq<char>) -> spec_fn(EntryView) -> bool {
    |e: EntryView| e matches EntryView::ToolProgress { id: i, .. } && i == id
}

/// A progress entry of the tool call `id` that has shown some output.
pub open spec fn partial_output_of(id: Seq<char>) -> spec_fn(EntryView) -> bool {
    |e: EntryView| e matches EntryView::ToolProgress { id: i, output, .. } && i == id && output.len() > 0
}

/// Finds the header of the tool call `id`.
fn find_tool_header(entries: &Vec<TranscriptEntry>, id: &String) -> (r: Option<usize>)
    ensures
        match r {
            Some(i) => i as int == first_where(entries_view(entries@), header_of(id@)),
            None => first_where(entries_view(entries@), header_of(id@)) == -1,
        },
{
    let ghost s = entries_view(entries@);
    let ghost p = header_of(id@);
    let mut i: usize = 0;
    while i < entries.len()
        invariant
            i <= entries@.len(),
            s == entries_view(entries@),
            p == header_of(id@),
            forall|k: int| 0 <= k < i ==> !p(#[trigger] s[k]),
        decreases entries.len() - i,
    {
        let found = match &entries[i] {
            TranscriptEntry::Tool { id: d, .. } => same_text(d, id),
            _ => false,
        };
        assert(found == p(s[i as int]));
        if found {
            proof {
                lemma_first_where_at(s, p, i as int);
            }
            return Some(i);
        }
        i += 1;
    }
    proof {
        lemma_first_where_none(s, p);
    }
    None
}

/// Finds the progress entry of the tool call `id`.
fn find_progress(entries: &Vec<TranscriptEntry>, id: &String) -> (r: Option<usize>)
    ensures
        match r {
            Some(i) => i as int == first_where(entries_view(entries@), progress_of(id@)),
            None => first_where(entries_view(entries@), progress_of(id@)) == -1,
        },
{
    let ghost s = entries_view(entries@);
    let ghost p = progress_of(id@);
    let mut i: usize = 0;
    while i < entries.len()
        invariant
            i <= entries@.len(),
            s == entries_view(entries@),
            p == progress_of(id@),
            forall|k: int| 0 <= k < i ==> !p(#[trigger] s[k]),
        decreases entries.len() - i,
    {
        let found = match &entries[i] {
            TranscriptEntry::ToolProgress { id: d, .. } => same_text(d, id),
            _ => false,
        };
        assert(found == p(s[i as int]));
        if found {
            proof {
                lemma_first_where_at(s, p, i as int);
            }
            return Some(i);
        }
        i += 1;
    }
    proof {
        lemma_first_where_none(s, p);
    }
    None
}

/// A tool call starting: unless the call already has a header, its header (running)
/// and an empty progress entry are added at the end.
pub open spec fn spec_start_tool(
    s: Seq<EntryView>,
    id: Seq<char>,
    name: Seq<char>,
    agent: Option<Seq<char>>,
    started_at: u64,
    timeout: Option<Seq<char>>,
) -> Seq<EntryView> {
    if first_where(s, header_of(id)) >= 0 {
        s
    } else {
        s.push(
            EntryView::Tool {
                id,
                name,
                success: None,
                state: ToolCallState::Running,
                unknown: false,
                agent,
                started_at,
            },
        ).push(
            EntryView::ToolProgress {
                id,
                name,
                output: Seq::empty(),
                status: Seq::empty(),
                agent,
                started_at: Some(started_at),
                timeout,
            },
        )
    }
}

/// Records that the tool call `id` started at `started_at`; `timeout` is the shell
/// timeout its arguments asked for, as shown. Returns whether entries were added.
pub fn start_tool(
    entries: &mut Vec<TranscriptEntry>,
    id: String,
    name: String,
    agent_id: Option<String>,
    started_at: u64,
    timeout: Option<String>,
) -> (started: bool)
    ensures
        entries_view(final(entries)@) == spec_start_tool(
            entries_view(old(entries)@),
            id@,
            name@,
            agent_id.deep_view(),
            started_at,
            timeout.deep_view(),
        ),
        started == (first_where(entries_view(old(entries)@), header_of(id@)) < 0),
{
    let ghost before = entries_view(entries@);
    if find_tool_header(entries, &id).is_some() {
        return false;
    }
    entries.push(
        TranscriptEntry::Tool {
            id: id.clone(),
            name: name.clone(),
            success: None,
            state: ToolCallState::Running,
            unknown: false,
            agent_id: copy_optional(&agent_id),
            started_at,
        },
    );
    entries.push(
        TranscriptEntry::ToolProgress {
            id,
            name,
            output: String::new(),
            status: String::new(),
            agent_id,
            started_at: Some(started_at),
            timeout,
        },
    );
    assert(entries_view(entries@) =~= spec_start_tool(
        before,
        id@,
        name@,
        agent_id.deep_view(),
        started_at,
        timeout.deep_view(),
    ));
    true
}

/// Output of the tool call `id` appended to its progress entry; without one,
/// nothing changes.
pub open spec fn spec_tool_output(s: Seq<EntryView>, id: Seq<char>, content: Seq<char>) -> Seq<
    EntryView,
> {
    let i = first_where(s, progress_of(id));
    if i < 0 {
        s
    } else {
        match s[i] {
            EntryView::ToolProgress { id: d, name, output, status, agent, started_at, timeout } =>
                s.update(
                i,
                EntryView::ToolProgress {
                    id: d,
                    name,
                    output: output + content,
                    status,
                    agent,
                    started_at,
                    timeout,
                },
            ),
            _ => s,
        }
    }
}

/// The status line of the tool call `id` replaced; without a progress entry,
/// nothing changes.
pub open spec fn spec_tool_status(s: Seq<EntryView>, id: Seq<char>, content: Seq<char>) -> Seq<
    EntryView,
> {
    let i = first_where(s, progress_of(id));
    if i < 0 {
        s
    } else {
        match s[i] {
            EntryView::ToolProgress { id: d, name, output, status: _, agent, started_at, timeout } =>
                s.update(
                i,
                EntryView::ToolProgress {
                    id: d,
                    name,
                    output,
                    status: content,
                    agent,
                    started_at,
                    timeout,
                },
            ),
            _ => s,
        }
    }
}

/// Appends output of the tool call `id` to its progress entry; returns the index of
/// that entry, or `None` when the call has none.
pub fn record_tool_output(entries: &mut Vec<TranscriptEntry>, id: &String, content: &str) -> (r:
    Option<usize>)
    ensures
        entries_view(final(entries)@) == spec_tool_output(entries_view(old(entries)@), id@, content@),
        match r {
            Some(i) => i as int == first_where(entries_view(old(entries)@), progress_of(id@)),
            None => first_where(entries_view(old(entries)@), progress_of(id@)) < 0,
        },
{
    let ghost before = entries_view(entries@);
    let i = match find_progress(entries, id) {
        Some(i) => i,
        None => {
            return None;
        },
    };
    proof {
        lemma_first_where(before, progress_of(id@));
    }
    let updated = match &entries[i] {
        TranscriptEntry::ToolProgress { id: d, name, output, status, agent_id, started_at, timeout } => {
            let mut joined = output.clone();
            push_str(&mut joined, content);
            Some(
                TranscriptEntry::ToolProgress {
                    id: d.clone(),
                    name: name.clone(),
                    output: joined,
                    status: status.clone(),
                    agent_id: copy_optional(agent_id),
                    started_at: *started_at,
                    timeout: copy_optional(timeout),
                },
            )
        },
        _ => None,
    };
    if let Some(entry) = updated {
        entries.set(i, entry);
    }
    assert(entries_view(entries@) =~= spec_tool_output(before, id@, content@));
    Some(i)
}

/// Replaces the status line of the tool call `id`; returns the index of its
/// progress entry, or `None` when the call has none.
pub fn record_tool_status(entries: &mut Vec<TranscriptEntry>, id: &String, content: String) -> (r:
    Option<usize>)
    ensures
        entries_view(final(entries)@) == spec_tool_status(entries_view(old(entries)@), id@, content@),
        match r {
            Some(i) => i as int == first_where(entries_view(old(entries)@), progress_of(id@)),
            None => first_where(entries_view(old(entries)@), progress_of(id@)) < 0,
        },
{
    let ghost before = entries_view(entries@);
    let i = match find_progress(entries, id) {
        Some(i) => i,
        None => {
            return None;
        },
    };
    proof {
        lemma_first_where(before, progress_of(id@));
    }
    let updated = match &entries[i] {
        TranscriptEntry::ToolProgress { id: d, name, output, status: _, agent_id, started_at, timeout } => {
            Some(
                TranscriptEntry::ToolProgress {
                    id: d.clone(),
                    name: name.clone(),
                    output: output.clone(),
                    status: content,
                    agent_id: copy_optional(agent_id),
                    started_at: *started_at,
                    timeout: copy_optional(timeout),
                },
            )
        },
        _ => None,
    };
    if let Some(entry) = updated {
        entries.set(i, entry);
    }
    assert(entries_view(entries@) =~= spec_tool_status(before, id@, content@));
    Some(i)
}

/// `s` without the progress entries of the tool call `id`.
pub open spec fn without_progress(s: Seq<EntryView>, id: Seq<char>) -> Seq<EntryView>
    decreases s.len(),
{
    if s.len() == 0 {
        s
    } else if progress_of(id)(s[0]) {
        without_progress(s.drop_first(), id)
    } else {
        seq![s[0]] + without_progress(s.drop_first(), id)
    }
}

/// A tool call ended in a way that can no longer change.
pub open spec fn is_finished(state: ToolCallState) -> bool {
    state == ToolCallState::Success || state == ToolCallState::Error || state
        == ToolCallState::Cancelled
}

/// The state a tool call's header shows: its outcome once the tool reported one (a
/// failure that was a cancellation stays cancelled), else the state recorded so far.
pub open spec fn spec_shown_tool_state(success: Option<bool>, state: ToolCallState) -> ToolCallState {
    match success {
        Some(true) => ToolCallState::Success,
        Some(false) => if state == ToolCallState::Cancelled {
            ToolCallState::Cancelled
        } else {
            ToolCallState::Error
        },
        None => state,
    }
}

/// The state a tool call's header shows (see `spec_shown_tool_state`).
pub fn shown_tool_state(success: Option<bool>, state: ToolCallState) -> (r: ToolCallState)
    ensures
        r == spec_shown_tool_state(success, state),
{
    match success {
        Some(true) => ToolCallState::Success,
        Some(false) => match state {
            ToolCallState::Cancelled => ToolCallState::Cancelled,
            _ => ToolCallState::Error,
        },
        None => state,
    }
}

/// A call succeeded when the tool said so and, for a shell command, it exited 0.
pub open spec fn completed_ok(success: bool, exit_code: Option<i64>) -> bool {
    success && (exit_code is None || exit_code == Some(0i64))
}

pub open spec fn finished_call_state(cancelled: bool, ok: bool) -> ToolCallState {
    if cancelled {
        ToolCallState::Cancelled
    } else if ok {
        ToolCallState::Success
    } else {
        ToolCallState::Error
    }
}

pub open spec fn finished_result_state(cancelled: bool, ok: bool) -> ToolResultState {
    if cancelled {
        ToolResultState::Cancelled
    } else if ok {
        ToolResultState::Success
    } else {
        ToolResultState::Error
    }
}

/// The output the tool call `id` showed while it ran: that of its first progress
/// entry with any.
pub open spec fn shown_output(s: Seq<EntryView>, id: Seq<char>) -> Option<Seq<char>> {
    let i = first_where(s, partial_output_of(id));
    if i < 0 {
        None
    } else {
        match s[i] {
            EntryView::ToolProgress { output, .. } => Some(output),
            _ => None,
        }
    }
}

/// The tool call `id` ending. Unless it has no header or has already ended, its
/// header records the outcome, its progress entries go, and its result is added at
/// the end with the output it showed while it ran.
pub open spec fn spec_complete_tool(
    s: Seq<EntryView>,
    id: Seq<char>,
    success: bool,
    message: Option<Seq<char>>,
    exit_code: Option<i64>,
    cancelled: bool,
) -> Seq<EntryView> {
    let h = first_where(s, header_of(id));
    if h < 0 {
        s
    } else {
        match s[h] {
            EntryView::Tool { id: d, name, success: _, state, unknown: _, agent, started_at } =>
                if is_finished(state) {
                s
            } else {
                let ok = completed_ok(success, exit_code);
                let header = EntryView::Tool {
                    id: d,
                    name,
                    success: Some(ok),
                    state: finished_call_state(cancelled, ok),
                    unknown: false,
                    agent,
                    started_at,
                };
                let result = EntryView::ToolResult {
                    id,
                    name,
                    content: match message {
                        Some(m) => m,
                        None => Seq::empty(),
                    },
                    partial_output: shown_output(s, id),
                    exit_code,
                    state: finished_result_state(cancelled, ok),
                    agent,
                };
                without_progress(s.update(h, header), id).push(result)
            },
            _ => s,
        }
    }
}

/// Finds the output the tool call `id` showed while it ran.
fn find_shown_output(entries: &Vec<TranscriptEntry>, id: &String) -> (r: Option<String>)
    ensures
        r.deep_view() == shown_output(entries_view(entries@), id@),
{
    let ghost s = entries_view(entries@);
    let ghost p = partial_output_of(id@);
    let mut i: usize = 0;
    while i < entries.len()
        invariant
            i <= entries@.len(),
            s == entries_view(entries@),
            p == partial_output_of(id@),
            forall|k: int| 0 <= k < i ==> !p(#[trigger] s[k]),
        decreases entries.len() - i,
    {
        match &entries[i] {
            TranscriptEntry::ToolProgress { id: d, output, .. } => {
                if same_text(d, id) && !output.as_str().is_empty() {
                    assert(p(s[i as int]));
                    proof {
                        lemma_first_where_at(s, p, i as int);
                    }
                    return Some(output.clone());
                }
            },
            _ => {},
        }
        assert(!p(s[i as int]));
        i += 1;
    }
    proof {
        lemma_first_where_none(s, p);
    }
    None
}

/// Removes the progress entries of the tool call `id`.
fn remove_progress(entries: &mut Vec<TranscriptEntry>, id: &String)
    ensures
        entries_view(final(entries)@) == without_progress(entries_view(old(entries)@), id@),
{
    let ghost t = entries_view(entries@);
    let mut i = entries.len();
    assert(t.skip(i as int) =~= Seq::<EntryView>::empty());
    assert(t.take(i as int) =~= t);
    assert(entries_view(entries@) =~= t.take(i as int) + without_progress(t.skip(i as int), id@));
    while i > 0
        invariant
            i <= t.len(),
            entries_view(entries@) == t.take(i as int) + without_progress(t.skip(i as int), id@),
            t == entries_view(old(entries)@),
        decreases i,
    {
        let j = i - 1;
        let ghost v = entries_view(entries@);
        assert(v.len() == entries@.len());
        assert(v[j as int] == t[j as int]);
        assert(v[j as int] == entry_view(entries@[j as int]));
        assert(t.skip(j as int).drop_first() =~= t.skip(i as int));
        assert(t.skip(j as int)[0] == t[j as int]);
        let is_progress = match &entries[j] {
            TranscriptEntry::ToolProgress { id: d, .. } => same_text(d, id),
            _ => false,
        };
        assert(is_progress == progress_of(id@)(t[j as int]));
        if is_progress {
            assert(without_progress(t.skip(j as int), id@) == without_progress(
                t.skip(i as int),
                id@,
            ));
            entries.remove(j);
            assert(entries_view(entries@) =~= v.remove(j as int));
            assert(v.remove(j as int) =~= t.take(j as int) + without_progress(t.skip(i as int), id@));
            assert(entries_view(entries@) =~= t.take(j as int) + without_progress(
                t.skip(j as int),
                id@,
            ));
        } else {
            assert(entries_view(entries@) =~= t.take(j as int) + without_progress(
                t.skip(j as int),
                id@,
            ));
        }
        i = j;
    }
    assert(t.skip(0) =~= t);
    assert(entries_view(entries@) =~= without_progress(t, id@));
}

/// Records how the tool call `id` ended: `success` as the tool reported it, its
/// `message`, the shell's exit code when it ran a command, and whether it was
/// cancelled. Returns whether the call was still waiting for its end.
pub fn complete_tool(
    entries: &mut Vec<TranscriptEntry>,
    id: String,
    success: bool,
    message: Option<String>,
    exit_code: Option<i64>,
    cancelled: bool,
) -> (done: bool)
    ensures
        entries_view(final(entries)@) == spec_complete_tool(
            entries_view(old(entries)@),
            id@,
            success,
            message.deep_view(),
            exit_code,
            cancelled,
        ),
        done == ({
            let s = entries_view(old(entries)@);
            let h = first_where(s, header_of(id@));
            h >= 0 && !is_finished(s[h]->Tool_state)
        }),
{
    let ghost before = entries_view(entries@);
    let h = match find_tool_header(entries, &id) {
        Some(h) => h,
        None => {
            return false;
        },
    };
    proof {
        lemma_first_where(before, header_of(id@));
    }
    let (name, agent, started_at, finished) = match &entries[h] {
        TranscriptEntry::Tool { name, agent_id, started_at, state, .. } => {
            let finished = match state {
                ToolCallState::Success | ToolCallState::Error | ToolCallState::Cancelled => true,
                _ => false,
            };
            (name.clone(), copy_optional(agent_id), *started_at, finished)
        },
        _ => {
            return false;
        },
    };
    if finished {
        return false;
    }
    let partial = find_shown_output(entries, &id);
    let ok = success && match exit_code {
        None => true,
        Some(code) => code == 0,
    };
    let call_state = if cancelled {
        ToolCallState::Cancelled
    } else if ok {
        ToolCallState::Success
    } else {
        ToolCallState::Error
    };
    let result_state = if cancelled {
        ToolResultState::Cancelled
    } else if ok {
        ToolResultState::Success
    } else {
        ToolResultState::Error
    };
    entries.set(
        h,
        TranscriptEntry::Tool {
            id: id.clone(),
            name: name.clone(),
            success: Some(ok),
            state: call_state,
            unknown: false,
            agent_id: copy_optional(&agent),
            started_at,
        },
    );
    let ghost updated = entries_view(entries@);
    assert(updated =~= before.update(h as int, updated[h as int]));
    remove_progress(entries, &id);
    let content = match message {
        Some(m) => m,
        None => String::new(),
    };
    entries.push(
        TranscriptEntry::ToolResult {
            id,
            name,
            content,
            partial_output: partial,
            exit_code,
            state: result_state,
            agent_id: agent,
        },
    );
    assert(entries_view(entries@) =~= spec_complete_tool(
        before,
        id@,
        success,
        message.deep_view(),
        exit_code,
        cancelled,
    ));
    true
}

/// A tool call without an outcome loses track of it: its header says unknown.
pub open spec fn marked_unknown(e: EntryView) -> EntryView {
    match e {
        EntryView::Tool { id, name, success: None, state: _, unknown: _, agent, started_at } =>
            EntryView::Tool {
            id,
            name,
            success: None,
            state: ToolCallState::Unknown,
            unknown: true,
            agent,
            started_at,
        },
        _ => e,
    }
}

/// Every tool call without an outcome marked unknown; nothing else changes.
pub open spec fn spec_mark_unknown(s: Seq<EntryView>) -> Seq<EntryView> {
    s.map_values(|e: EntryView| marked_unknown(e))
}

/// After the connection dropped: every tool call that had no outcome yet is marked
/// unknown. Returns the indices of the headers that changed, in order.
pub fn mark_in_flight_tools_unknown(entries: &mut Vec<TranscriptEntry>) -> (changed: Vec<usize>)
    ensures
        entries_view(final(entries)@) == spec_mark_unknown(entries_view(old(entries)@)),
        forall|k: int|
            0 <= k < changed@.len() ==> #[trigger] changed@[k] < old(entries)@.len()
                && entries_view(old(entries)@)[changed@[k] as int] matches EntryView::Tool {
                success: None,
                ..
            },
{
    let ghost t = entries_view(entries@);
    let mut changed: Vec<usize> = Vec::new();
    let mut i: usize = 0;
    while i < entries.len()
        invariant
            i <= entries@.len(),
            entries@.len() == t.len(),
            t == entries_view(old(entries)@),
            forall|k: int| 0 <= k < i ==> #[trigger] entries_view(entries@)[k] == marked_unknown(t[k]),
            forall|k: int| i <= k < t.len() ==> #[trigger] entries_view(entries@)[k] == t[k],
            forall|k: int|
                0 <= k < changed@.len() ==> #[trigger] changed@[k] < t.len() && t[changed@[k] as int] matches EntryView::Tool {
                    success: None,
                    ..
                },
        decreases entries.len() - i,
    {
        assert(entries_view(entries@)[i as int] == entry_view(entries@[i as int]));
        let updated = match &entries[i] {
            TranscriptEntry::Tool { id, name, success: None, agent_id, started_at, .. } => Some(
                TranscriptEntry::Tool {
                    id: id.clone(),
                    name: name.clone(),
                    success: None,
                    state: ToolCallState::Unknown,
                    unknown: true,
                    agent_id: copy_optional(agent_id),
                    started_at: *started_at,
                },
            ),
            _ => None,
        };
        let ghost prev = entries_view(entries@);
        match updated {
            Some(entry) => {
                entries.set(i, entry);
                assert(entries_view(entries@) =~= prev.update(
                    i as int,
                    entries_view(entries@)[i as int],
                ));
                changed.push(i);
            },
            None => {},
        }
        assert(entries_view(entries@)[i as int] == marked_unknown(t[i as int]));
        i += 1;
    }
    assert(entries_view(entries@) =~= spec_mark_unknown(t));
    changed
}

/// A tool call or sub-agent still at work.
pub open spec fn is_active(e: EntryView) -> bool {
    ||| e matches EntryView::Tool { state: ToolCallState::Queued, .. }
    ||| e matches EntryView::Tool { state: ToolCallState::Running, .. }
    ||| e matches EntryView::Subagent { status: SubagentStatus::Running, .. }
}

/// Whether any tool call or sub-agent is still at work.
pub fn has_active_tool(entries: &Vec<TranscriptEntry>) -> (b: bool)
    ensures
        b == exists|k: int| 0 <= k < entries@.len() && is_active(#[trigger] entries_view(entries@)[k]),
{
    let ghost s = entries_view(entries@);
    let mut i: usize = 0;
    while i < entries.len()
        invariant
            i <= entries@.len(),
            s == entries_view(entries@),
            forall|k: int| 0 <= k < i ==> !is_active(#[trigger] s[k]),
        decreases entries.len() - i,
    {
        assert(s[i as int] == entry_view(entries@[i as int]));
        let active = match &entries[i] {
            TranscriptEntry::Tool { state: ToolCallState::Queued, .. } => true,
            TranscriptEntry::Tool { state: ToolCallState::Running, .. } => true,
            TranscriptEntry::Subagent { status: SubagentStatus::Running, .. } => true,
            _ => false,
        };
        if active {
            assert(is_active(s[i as int]));
            return true;
        }
        i += 1;
    }
    false
}

/// The running sub-agent `name` that the tool call `tool_call_id` started, for
/// the agent `agent` when one is named.
pub open spec fn running_subagent(
    name: Seq<char>,
    tool_call_id: Seq<char>,
    agent: Option<Seq<char>>,
) -> spec_fn(EntryView) -> bool {
    |e: EntryView|
        e matches EntryView::Subagent {
            name: n,
            tool_call_id: c,
            status: SubagentStatus::Running,
            agent: a,
            ..
        } && n == name && c == tool_call_id && (agent is None || a == agent)
}

/// A sub-agent starting: a running entry at the end.
pub fn start_subagent(
    entries: &mut Vec<TranscriptEntry>,
    name: String,
    tool_call_id: String,
    display_name: String,
    agent_id: Option<String>,
)
    ensures
        entries_view(final(entries)@) == entries_view(old(entries)@).push(
            EntryView::Subagent {
                name: name@,
                tool_call_id: tool_call_id@,
                display_name: display_name@,
                status: SubagentStatus::Running,
                error: None,
                agent: agent_id.deep_view(),
            },
        ),
{
    let ghost before = entries_view(entries@);
    entries.push(
        TranscriptEntry::Subagent {
            name,
            tool_call_id,
            display_name,
            status: SubagentStatus::Running,
            error: None,
            agent_id,
        },
    );
    assert(entries_view(entries@) =~= before.push(
        EntryView::Subagent {
            name: name@,
            tool_call_id: tool_call_id@,
            display_name: display_name@,
            status: SubagentStatus::Running,
            error: None,
            agent: agent_id.deep_view(),
        },
    ));
}

/// A sub-agent ending: the latest matching running entry completes, or fails with
/// `failure` as its error; without one, nothing changes.
pub open spec fn spec_finish_subagent(
    s: Seq<EntryView>,
    name: Seq<char>,
    tool_call_id: Seq<char>,
    agent: Option<Seq<char>>,
    failure: Option<Seq<char>>,
) -> Seq<EntryView> {
    let i = last_where(s, running_subagent(name, tool_call_id, agent));
    if i < 0 {
        s
    } else {
        match s[i] {
            EntryView::Subagent { name: n, tool_call_id: c, display_name, status: _, error, agent: a } =>
                s.update(
                i,
                EntryView::Subagent {
                    name: n,
                    tool_call_id: c,
                    display_name,
                    status: if failure is Some {
                        SubagentStatus::Failed
                    } else {
                        SubagentStatus::Completed
                    },
                    error: if failure is Some {
                        failure
                    } else {
                        error
                    },
                    agent: a,
                },
            ),
            _ => s,
        }
    }
}

/// Finds the latest matching running sub-agent.
fn find_running_subagent(
    entries: &Vec<TranscriptEntry>,
    name: &String,
    tool_call_id: &String,
    agent_id: &Option<String>,
) -> (r: Option<usize>)
    ensures
        match r {
            Some(i) => i as int == last_where(
                entries_view(entries@),
                running_subagent(name@, tool_call_id@, agent_id.deep_view()),
            ),
            None => last_where(
                entries_view(entries@),
                running_subagent(name@, tool_call_id@, agent_id.deep_view()),
            ) < 0,
        },
{
    let ghost s = entries_view(entries@);
    let ghost p = running_subagent(name@, tool_call_id@, agent_id.deep_view());
    let mut n = entries.len();
    while n > 0
        invariant
            n <= entries@.len(),
            s == entries_view(entries@),
            p == running_subagent(name@, tool_call_id@, agent_id.deep_view()),
            forall|k: int| n <= k < s.len() ==> !p(#[trigger] s[k]),
        decreases n,
    {
        let i = n - 1;
        assert(s[i as int] == entry_view(entries@[i as int]));
        let matched = match &entries[i] {
            TranscriptEntry::Subagent {
                name: current,
                tool_call_id: call,
                status: SubagentStatus::Running,
                agent_id: current_agent,
                ..
            } => {
                same_text(current, name) && same_text(call, tool_call_id) && match agent_id {
                    None => true,
                    Some(wanted) => match current_agent {
                        Some(a) => same_text(a, wanted),
                        None => false,
                    },
                }
            },
            _ => false,
        };
        assert(matched == p(s[i as int]));
        if matched {
            proof {
                lemma_last_where_at(s, p, i as int);
            }
            return Some(i);
        }
        n = i;
    }
    proof {
        lemma_last_where_none(s, p);
    }
    None
}

/// Records that a sub-agent ended, completed or (with `failure`) failed; returns
/// the index of its entry, or `None` when no running entry matched.
pub fn finish_subagent(
    entries: &mut Vec<TranscriptEntry>,
    name: &String,
    tool_call_id: &String,
    agent_id: &Option<String>,
    failure: Option<String>,
) -> (r: Option<usize>)
    ensures
        entries_view(final(entries)@) == spec_finish_subagent(
            entries_view(old(entries)@),
            name@,
            tool_call_id@,
            agent_id.deep_view(),
            failure.deep_view(),
        ),
        match r {
            Some(i) => i as int == last_where(
                entries_view(old(entries)@),
                running_subagent(name@, tool_call_id@, agent_id.deep_view()),
            ),
            None => last_where(
                entries_view(old(entries)@),
                running_subagent(name@, tool_call_id@, agent_id.deep_view()),
            ) < 0,
        },
{
    let ghost s = entries_view(entries@);
    let ghost p = running_subagent(name@, tool_call_id@, agent_id.deep_view());
    let i = match find_running_subagent(entries, name, tool_call_id, agent_id) {
        Some(i) => i,
        None => {
            return None;
        },
    };
    proof {
        lemma_last_where(s, p);
    }
    let updated = match &entries[i] {
        TranscriptEntry::Subagent { name: current, tool_call_id: call, display_name, error, agent_id: current_agent, .. } => {
            let failed = failure.is_some();
            Some(
                TranscriptEntry::Subagent {
                    name: current.clone(),
                    tool_call_id: call.clone(),
                    display_name: display_name.clone(),
                    status: if failed {
                        SubagentStatus::Failed
                    } else {
                        SubagentStatus::Completed
                    },
                    error: if failed {
                        failure
                    } else {
                        copy_optional(error)
                    },
                    agent_id: copy_optional(current_agent),
                },
            )
        },
        _ => None,
    };
    if let Some(entry) = updated {
        entries.set(i, entry);
    }
    assert(entries_view(entries@) =~= spec_finish_subagent(
        s,
        name@,
        tool_call_id@,
        agent_id.deep_view(),
        failure.deep_view(),
    ));
    Some(i)
}

/// The end of a turn: a completion marker at the end, unless the transcript already
/// ends with one.
pub open spec fn spec_close_turn(s: Seq<EntryView>) -> Seq<EntryView> {
    if s.len() > 0 && s.last() == EntryView::Completed {
        s
    } else {
        s.push(EntryView::Completed)
    }
}

/// Marks the end of a turn; returns whether a marker was added.
pub fn close_turn(entries: &mut Vec<TranscriptEntry>) -> (added: bool)
    ensures
        entries_view(final(entries)@) == spec_close_turn(entries_view(old(entries)@)),
        added == (entries_view(final(entries)@) != entries_view(old(entries)@)),
{
    let ghost before = entries_view(entries@);
    let n = entries.len();
    if n > 0 {
        assert(before.last() == entry_view(entries@[n - 1]));
        let last_is_marker = match &entries[n - 1] {
            TranscriptEntry::Completed => true,
            _ => false,
        };
        if last_is_marker {
            return false;
        }
    }
    entries.push(TranscriptEntry::Completed);
    assert(entries_view(entries@) =~= before.push(EntryView::Completed));
    assert(entries_view(entries@).len() != before.len());
    true
}

proof fn lemma_first_where_push(x: Seq<EntryView>, e: EntryView, p: spec_fn(EntryView) -> bool)
    requires
        first_where(x, p) >= 0,
    ensures
        first_where(x.push(e), p) == first_where(x, p),
{
    lemma_first_where(x, p);
    let i = first_where(x, p);
    assert forall|k: int| 0 <= k < i implies !p(#[trigger] x.push(e)[k]) by {
        assert(x.push(e)[k] == x[k]);
    }
    assert(x.push(e)[i] == x[i]);
    lemma_first_where_at(x.push(e), p, i);
}

proof fn lemma_without_progress_keeps_headers(t: Seq<EntryView>, id: Seq<char>)
    ensures
        first_where(t, header_of(id)) >= 0 ==> first_where(without_progress(t, id), header_of(id))
            >= 0 && without_progress(t, id)[first_where(without_progress(t, id), header_of(id))]
            == t[first_where(t, header_of(id))],
        first_where(t, header_of(id)) < 0 ==> first_where(without_progress(t, id), header_of(id))
            < 0,
    decreases t.len(),
{
    let p = header_of(id);
    if t.len() > 0 {
        let r = t.drop_first();
        lemma_without_progress_keeps_headers(r, id);
        lemma_first_where(r, p);
        lemma_first_where(without_progress(r, id), p);
        let j = first_where(r, p);
        if j >= 0 {
            assert(t[j + 1] == r[j]);
        }
        if progress_of(id)(t[0]) {
            assert(!p(t[0]));
            assert(without_progress(t, id) == without_progress(r, id));
        } else {
            let w = seq![t[0]] + without_progress(r, id);
            assert(without_progress(t, id) == w);
            assert(w[0] == t[0]);
            assert(w.drop_first() =~= without_progress(r, id));
            if !p(t[0]) {
                let i = first_where(without_progress(r, id), p);
                if i >= 0 {
                    assert(w[i + 1] == without_progress(r, id)[i]);
                }
            }
        }
    }
}

proof fn lemma_without_progress_has_none(t: Seq<EntryView>, id: Seq<char>)
    ensures
        forall|k: int|
            0 <= k < without_progress(t, id).len() ==> !progress_of(id)(
                #[trigger] without_progress(t, id)[k],
            ),
    decreases t.len(),
{
    if t.len() > 0 {
        let r = t.drop_first();
        lemma_without_progress_has_none(r, id);
        if !progress_of(id)(t[0]) {
            let w = seq![t[0]] + without_progress(r, id);
            assert forall|k: int| 0 <= k < w.len() implies !progress_of(id)(#[trigger] w[k]) by {
                if k > 0 {
                    assert(w[k] == without_progress(r, id)[k - 1]);
                }
            }
        }
    }
}

/// A tool call ends once: whatever a second end of the same call reports, the
/// transcript stays as the first end left it.
pub proof fn law_a_tool_call_ends_once(
    s: Seq<EntryView>,
    id: Seq<char>,
    success: bool,
    message: Option<Seq<char>>,
    exit_code: Option<i64>,
    cancelled: bool,
    later_success: bool,
    later_message: Option<Seq<char>>,
    later_exit_code: Option<i64>,
    later_cancelled: bool,
)
    ensures
        ({
            let done = spec_complete_tool(s, id, success, message, exit_code, cancelled);
            spec_complete_tool(done, id, later_success, later_message, later_exit_code, later_cancelled)
                == done
        }),
{
    let p = header_of(id);
    lemma_first_where(s, p);
    let h = first_where(s, p);
    if h >= 0 {
        match s[h] {
            EntryView::Tool { id: d, name, success: _, state, unknown: _, agent, started_at } => {
                if !is_finished(state) {
                    let ok = completed_ok(success, exit_code);
                    let header = EntryView::Tool {
                        id: d,
                        name,
                        success: Some(ok),
                        state: finished_call_state(cancelled, ok),
                        unknown: false,
                        agent,
                        started_at,
                    };
                    let t = s.update(h, header);
                    assert forall|k: int| 0 <= k < h implies !p(#[trigger] t[k]) by {
                        assert(t[k] == s[k]);
                    }
                    lemma_first_where_at(t, p, h);
                    lemma_without_progress_keeps_headers(t, id);
                    let w = without_progress(t, id);
                    let result = EntryView::ToolResult {
                        id,
                        name,
                        content: match message {
                            Some(m) => m,
                            None => Seq::empty(),
                        },
                        partial_output: shown_output(s, id),
                        exit_code,
                        state: finished_result_state(cancelled, ok),
                        agent,
                    };
                    lemma_first_where_push(w, result, p);
                    lemma_first_where(w, p);
                }
            },
            _ => {},
        }
    }
}

/// Once a tool call has ended, none of its progress entries is left.
pub proof fn law_an_ended_call_leaves_no_progress(
    s: Seq<EntryView>,
    id: Seq<char>,
    success: bool,
    message: Option<Seq<char>>,
    exit_code: Option<i64>,
    cancelled: bool,
    k: int,
)
    requires
        spec_complete_tool(s, id, success, message, exit_code, cancelled) != s,
        0 <= k < spec_complete_tool(s, id, success, message, exit_code, cancelled).len(),
    ensures
        !progress_of(id)(spec_complete_tool(s, id, success, message, exit_code, cancelled)[k]),
{
    let p = header_of(id);
    let h = first_where(s, p);
    match s[h] {
        EntryView::Tool { id: d, name, success: _, state, unknown: _, agent, started_at } => {
            let ok = completed_ok(success, exit_code);
            let t = s.update(
                h,
                EntryView::Tool {
                    id: d,
                    name,
                    success: Some(ok),
                    state: finished_call_state(cancelled, ok),
                    unknown: false,
                    agent,
                    started_at,
                },
            );
            lemma_without_progress_has_none(t, id);
        },
        _ => {},
    }
}

/// A tool call starts once: a second start of the same call adds nothing.
pub proof fn law_a_tool_call_starts_once(
    s: Seq<EntryView>,
    id: Seq<char>,
    name: Seq<char>,
    agent: Option<Seq<char>>,
    started_at: u64,
    timeout: Option<Seq<char>>,
    later_name: Seq<char>,
    later_agent: Option<Seq<char>>,
    later_started_at: u64,
    later_timeout: Option<Seq<char>>,
)
    ensures
        ({
            let started = spec_start_tool(s, id, name, agent, started_at, timeout);
            spec_start_tool(started, id, later_name, later_agent, later_started_at, later_timeout)
                == started
        }),
{
    let p = header_of(id);
    lemma_first_where(s, p);
    if first_where(s, p) < 0 {
        let started = spec_start_tool(s, id, name, agent, started_at, timeout);
        assert forall|k: int| 0 <= k < s.len() implies !p(#[trigger] started[k]) by {
            assert(started[k] == s[k]);
        }
        lemma_first_where_at(started, p, s.len() as int);
    }
}

/// After a lost connection no tool call is left looking like it still runs: each
/// call without an outcome says unknown, and every other entry stays as it was.
pub proof fn law_lost_calls_are_unknown(s: Seq<EntryView>, k: int)
    requires
        0 <= k < s.len(),
    ensures
        spec_mark_unknown(s)[k] matches EntryView::Tool { success: None, state, .. } ==> state
            == ToolCallState::Unknown,
        !(s[k] matches EntryView::Tool { success: None, .. }) ==> spec_mark_unknown(s)[k] == s[k],
{
}

} // verus!
