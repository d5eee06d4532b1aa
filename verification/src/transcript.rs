//! How streamed text lands in the transcript: a delta is appended to the latest
//! entry of its kind with the same id (or starts one), a finished message replaces
//! that entry's text, and a user message echoed back by the session takes the place
//! of the copy shown when it was sent.

use vstd::prelude::*;
use crate::text::{chars_equal, chars_of, push_str, string_views};
use crate::transcript_text::BannerSeverity;
use crate::tui::SubagentStatus;

verus! {

/// The two kinds of streamed text.
#[derive(Debug, Clone, Copy, PartialEq, Eq, Structural)]
pub enum StreamKind {
    Assistant,
    Reasoning,
}

/// Where a tool call stands, as its header shows it.
#[derive(Debug, Clone, Copy, PartialEq, Eq, Structural)]
pub enum ToolCallState {
    Queued,
    Running,
    Success,
    Error,
    Cancelled,
    /// The connection dropped while the call ran; its outcome is not known.
    Unknown,
}

/// How a finished tool call ended.
#[derive(Debug, Clone, Copy, PartialEq, Eq, Structural)]
pub enum ToolResultState {
    Success,
    Error,
    Cancelled,
}

/// A transcript entry as far as streaming and tool calls are concerned; every
/// other kind of entry is `Other`.
#[derive(Debug)]
#[allow(inconsistent_fields)]
pub enum TranscriptEntry {
    User(String),
    Streamed { kind: StreamKind, id: String, content: String, agent_id: Option<String> },
    /// The header of a tool call.
    Tool {
        id: String,
        name: String,
        success: Option<bool>,
        state: ToolCallState,
        unknown: bool,
        agent_id: Option<String>,
        started_at: u64,
    },
    /// The live output and status line of a running tool call.
    ToolProgress {
        id: String,
        name: String,
        output: String,
        status: String,
        agent_id: Option<String>,
        started_at: Option<u64>,
        timeout: Option<String>,
    },
    /// What a finished tool call returned.
    ToolResult {
        id: String,
        name: String,
        content: String,
        partial_output: Option<String>,
        exit_code: Option<i64>,
        state: ToolResultState,
        agent_id: Option<String>,
    },
    /// A sub-agent started by a tool call.
    Subagent {
        name: String,
        tool_call_id: String,
        display_name: String,
        status: SubagentStatus,
        error: Option<String>,
        agent_id: Option<String>,
    },
    /// A notice from the session.
    Banner { severity: BannerSeverity, message: String, url: Option<String> },
    /// The end of a turn.
    Completed,
    /// A tool request that asked for approval; its answer so far is the approval
    /// status at `slot`.
    Approval { category: String, tool_name: String, details: String, slot: usize },
    /// A debug message, shown only with tool internals.
    Diagnostic(String),
    /// The output of a local command, a line each.
    LocalOutput(Vec<String>),
    Other,
}

#[allow(inconsistent_fields)]
pub enum EntryView {
    User(Seq<char>),
    Streamed(StreamKind, Seq<char>, Seq<char>, Option<Seq<char>>),
    Tool {
        id: Seq<char>,
        name: Seq<char>,
        success: Option<bool>,
        state: ToolCallState,
        unknown: bool,
        agent: Option<Seq<char>>,
        started_at: u64,
    },
    ToolProgress {
        id: Seq<char>,
        name: Seq<char>,
        output: Seq<char>,
        status: Seq<char>,
        agent: Option<Seq<char>>,
        started_at: Option<u64>,
        timeout: Option<Seq<char>>,
    },
    ToolResult {
        id: Seq<char>,
        name: Seq<char>,
        content: Seq<char>,
        partial_output: Option<Seq<char>>,
        exit_code: Option<i64>,
        state: ToolResultState,
        agent: Option<Seq<char>>,
    },
    Subagent {
        name: Seq<char>,
        tool_call_id: Seq<char>,
        display_name: Seq<char>,
        status: SubagentStatus,
        error: Option<Seq<char>>,
        agent: Option<Seq<char>>,
    },
    Banner { severity: BannerSeverity, message: Seq<char>, url: Option<Seq<char>> },
    Completed,
    Approval { category: Seq<char>, tool_name: Seq<char>, details: Seq<char>, slot: nat },
    Diagnostic(Seq<char>),
    LocalOutput(Seq<Seq<char>>),
    Other,
}

pub open spec fn entry_view(e: TranscriptEntry) -> EntryView {
    match e {
        TranscriptEntry::User(s) => EntryView::User(s@),
        TranscriptEntry::Streamed { kind, id, content, agent_id } => EntryView::Streamed(
            kind,
            id@,
            content@,
            agent_id.deep_view(),
        ),
        TranscriptEntry::Tool { id, name, success, state, unknown, agent_id, started_at } =>
            EntryView::Tool {
            id: id@,
            name: name@,
            success,
            state,
            unknown,
            agent: agent_id.deep_view(),
            started_at,
        },
        TranscriptEntry::ToolProgress { id, name, output, status, agent_id, started_at, timeout } =>
            EntryView::ToolProgress {
            id: id@,
            name: name@,
            output: output@,
            status: status@,
            agent: agent_id.deep_view(),
            started_at,
            timeout: timeout.deep_view(),
        },
        TranscriptEntry::ToolResult {
            id,
            name,
            content,
            partial_output,
            exit_code,
            state,
            agent_id,
        } => EntryView::ToolResult {
            id: id@,
            name: name@,
            content: content@,
            partial_output: partial_output.deep_view(),
            exit_code,
            state,
            agent: agent_id.deep_view(),
        },
        TranscriptEntry::Subagent { name, tool_call_id, display_name, status, error, agent_id } =>
            EntryView::Subagent {
            name: name@,
            tool_call_id: tool_call_id@,
            display_name: display_name@,
            status,
            error: error.deep_view(),
            agent: agent_id.deep_view(),
        },
        TranscriptEntry::Banner { severity, message, url } => EntryView::Banner {
            severity,
            message: message@,
            url: url.deep_view(),
        },
        TranscriptEntry::Completed => EntryView::Completed,
        TranscriptEntry::Approval { category, tool_name, details, slot } => EntryView::Approval {
            category: category@,
            tool_name: tool_name@,
            details: details@,
            slot: slot as nat,
        },
        TranscriptEntry::Diagnostic(message) => EntryView::Diagnostic(message@),
        TranscriptEntry::LocalOutput(lines) => EntryView::LocalOutput(string_views(lines@)),
        TranscriptEntry::Other => EntryView::Other,
    }
}

pub open spec fn entries_view(v: Seq<TranscriptEntry>) -> Seq<EntryView> {
    v.map_values(|e: TranscriptEntry| entry_view(e))
}

pub open spec fn is_stream(e: EntryView, kind: StreamKind, id: Seq<char>) -> bool {
    e matches EntryView::Streamed(k, i, _, _) && k == kind && i == id
}

/// Index of the latest entry of `kind` with `id` in `s`, or -1.
pub open spec fn last_stream(s: Seq<EntryView>, kind: StreamKind, id: Seq<char>) -> int
    decreases s.len(),
{
    if s.len() == 0 {
        -1
    } else if is_stream(s.last(), kind, id) {
        s.len() - 1
    } else {
        last_stream(s.drop_last(), kind, id)
    }
}

/// `content` appended to the latest `kind` entry with `id`, or a new such entry at
/// the end.
pub open spec fn spec_append(
    s: Seq<EntryView>,
    kind: StreamKind,
    id: Seq<char>,
    content: Seq<char>,
    agent: Option<Seq<char>>,
) -> Seq<EntryView> {
    let i = last_stream(s, kind, id);
    if i >= 0 {
        match s[i] {
            EntryView::Streamed(k, d, text, a) => s.update(i, EntryView::Streamed(k, d, text + content, a)),
            _ => s,
        }
    } else {
        s.push(EntryView::Streamed(kind, id, content, agent))
    }
}

/// The latest `kind` entry with `id` given the finished text (and `agent` when it
/// had none), or a new entry at the end.
pub open spec fn spec_replace(
    s: Seq<EntryView>,
    kind: StreamKind,
    id: Seq<char>,
    content: Seq<char>,
    agent: Option<Seq<char>>,
) -> Seq<EntryView> {
    let i = last_stream(s, kind, id);
    if i >= 0 {
        match s[i] {
            EntryView::Streamed(k, d, _, a) => s.update(
                i,
                EntryView::Streamed(
                    k,
                    d,
                    content,
                    if a is None {
                        agent
                    } else {
                        a
                    },
                ),
            ),
            _ => s,
        }
    } else {
        s.push(EntryView::Streamed(kind, id, content, agent))
    }
}

proof fn lemma_last_stream(s: Seq<EntryView>, kind: StreamKind, id: Seq<char>)
    ensures
        -1 <= last_stream(s, kind, id) < s.len(),
        last_stream(s, kind, id) >= 0 ==> is_stream(s[last_stream(s, kind, id)], kind, id),
        forall|k: int|
            last_stream(s, kind, id) < k < s.len() ==> !is_stream(#[trigger] s[k], kind, id),
    decreases s.len(),
{
    if s.len() > 0 && !is_stream(s.last(), kind, id) {
        lemma_last_stream(s.drop_last(), kind, id);
        assert forall|k: int| last_stream(s, kind, id) < k < s.len() implies !is_stream(
            #[trigger] s[k],
            kind,
            id,
        ) by {
            if k < s.len() - 1 {
                assert(s[k] == s.drop_last()[k]);
            }
        }
    }
}

pub(crate) fn copy_optional(value: &Option<String>) -> (r: Option<String>)
    ensures
        r.deep_view() == value.deep_view(),
{
    match value {
        Some(v) => Some(v.clone()),
        None => None,
    }
}

pub(crate) fn same_text(a: &String, b: &String) -> (r: bool)
    ensures
        r == (a@ == b@),
{
    *a == *b
}

/// Finds the latest entry of `kind` with `id`.
fn find_stream(entries: &Vec<TranscriptEntry>, kind: StreamKind, id: &String) -> (r: Option<usize>)
    ensures
        match r {
            Some(i) => i as int == last_stream(entries_view(entries@), kind, id@),
            None => last_stream(entries_view(entries@), kind, id@) == -1,
        },
{
    let ghost all = entries_view(entries@);
    let mut n = entries.len();
    assert(all.take(n as int) == all);
    while n > 0
        invariant
            n <= entries@.len(),
            all == entries_view(entries@),
            last_stream(all, kind, id@) == last_stream(all.take(n as int), kind, id@),
        decreases n,
    {
        let i = n - 1;
        assert(all.take(n as int).last() == all[i as int]);
        assert(all.take(n as int).drop_last() == all.take(i as int));
        match &entries[i] {
            TranscriptEntry::Streamed { kind: k, id: d, .. } => {
                if *k == kind && same_text(d, id) {
                    return Some(i);
                }
            },
            _ => {},
        }
        n = i;
    }
    assert(all.take(0) == Seq::<EntryView>::empty());
    None
}

/// Adds a streamed delta; returns the index of the entry that changed or was added.
pub fn append_streamed(
    entries: &mut Vec<TranscriptEntry>,
    kind: StreamKind,
    id: String,
    content: String,
    agent_id: Option<String>,
) -> (index: usize)
    ensures
        entries_view(final(entries)@) == spec_append(
            entries_view(old(entries)@),
            kind,
            id@,
            content@,
            agent_id.deep_view(),
        ),
        index < final(entries)@.len(),
{
    let ghost before = entries_view(entries@);
    proof {
        lemma_last_stream(before, kind, id@);
    }
    match find_stream(entries, kind, &id) {
        Some(i) => {
            let updated = match &entries[i] {
                TranscriptEntry::Streamed { kind: k, id: d, content: text, agent_id: a } => {
                    let mut joined = text.clone();
                    push_str(&mut joined, content.as_str());
                    Some(
                        TranscriptEntry::Streamed {
                            kind: *k,
                            id: d.clone(),
                            content: joined,
                            agent_id: copy_optional(a),
                        },
                    )
                },
                _ => None,
            };
            if let Some(entry) = updated {
                entries.set(i, entry);
            }
            assert(entries_view(entries@) =~= spec_append(before, kind, id@, content@, agent_id.deep_view()));
            i
        },
        None => {
            entries.push(TranscriptEntry::Streamed { kind, id, content, agent_id });
            assert(entries_view(entries@) =~= spec_append(before, kind, id@, content@, agent_id.deep_view()));
            entries.len() - 1
        },
    }
}

/// Puts a finished message in place; returns the index of the entry that changed or
/// was added.
pub fn replace_streamed(
    entries: &mut Vec<TranscriptEntry>,
    kind: StreamKind,
    id: String,
    content: String,
    agent_id: Option<String>,
) -> (index: usize)
    ensures
        entries_view(final(entries)@) == spec_replace(
            entries_view(old(entries)@),
            kind,
            id@,
            content@,
            agent_id.deep_view(),
        ),
        index < final(entries)@.len(),
{
    let ghost before = entries_view(entries@);
    proof {
        lemma_last_stream(before, kind, id@);
    }
    match find_stream(entries, kind, &id) {
        Some(i) => {
            let updated = match &entries[i] {
                TranscriptEntry::Streamed { kind: k, id: d, content: _, agent_id: a } => {
                    let agent = if a.is_none() {
                        agent_id
                    } else {
                        copy_optional(a)
                    };
                    Some(TranscriptEntry::Streamed { kind: *k, id: d.clone(), content, agent_id: agent })
                },
                _ => None,
            };
            if let Some(entry) = updated {
                entries.set(i, entry);
            }
            assert(entries_view(entries@) =~= spec_replace(before, kind, id@, content@, agent_id.deep_view()));
            i
        },
        None => {
            entries.push(TranscriptEntry::Streamed { kind, id, content, agent_id });
            assert(entries_view(entries@) =~= spec_replace(before, kind, id@, content@, agent_id.deep_view()));
            entries.len() - 1
        },
    }
}

/// Index of the latest user entry reading `text`, or -1.
pub open spec fn last_user(s: Seq<EntryView>, text: Seq<char>) -> int
    decreases s.len(),
{
    if s.len() == 0 {
        -1
    } else if s.last() == EntryView::User(text) {
        s.len() - 1
    } else {
        last_user(s.drop_last(), text)
    }
}

proof fn lemma_last_user(s: Seq<EntryView>, text: Seq<char>)
    ensures
        -1 <= last_user(s, text) < s.len(),
        last_user(s, text) >= 0 ==> s[last_user(s, text)] == EntryView::User(text),
    decreases s.len(),
{
    if s.len() > 0 && s.last() != EntryView::User(text) {
        lemma_last_user(s.drop_last(), text);
    }
}

/// A user message the session echoes back: it takes the place of the latest shown
/// copy of the oldest message still awaiting its echo, or is added at the end.
pub open spec fn spec_reconcile_user(
    s: Seq<EntryView>,
    awaiting: Seq<Seq<char>>,
    content: Seq<char>,
) -> Seq<EntryView> {
    if awaiting.len() > 0 && last_user(s, awaiting[0]) >= 0 {
        s.update(last_user(s, awaiting[0]), EntryView::User(content))
    } else {
        s.push(EntryView::User(content))
    }
}

/// Records the echo of a user message; `awaiting` holds the messages shown when
/// sent whose echo has not come yet, oldest first, and loses its oldest one.
pub fn reconcile_user_message(
    entries: &mut Vec<TranscriptEntry>,
    awaiting: &mut Vec<String>,
    content: String,
) -> (index: usize)
    ensures
        entries_view(final(entries)@) == spec_reconcile_user(
            entries_view(old(entries)@),
            string_views(old(awaiting)@),
            content@,
        ),
        string_views(final(awaiting)@) == if old(awaiting)@.len() > 0 {
            string_views(old(awaiting)@).drop_first()
        } else {
            string_views(old(awaiting)@)
        },
        index < final(entries)@.len(),
{
    let ghost before = entries_view(entries@);
    let ghost waiting = string_views(awaiting@);
    if awaiting.len() == 0 {
        entries.push(TranscriptEntry::User(content));
        assert(entries_view(entries@) =~= spec_reconcile_user(before, waiting, content@));
        return entries.len() - 1;
    }
    let pending = awaiting.remove(0);
    assert(string_views(awaiting@) =~= waiting.drop_first());
    assert(pending@ == waiting[0]);
    proof {
        lemma_last_user(before, pending@);
    }
    let mut n = entries.len();
    assert(before.take(n as int) == before);
    let wanted = chars_of(pending.as_str());
    while n > 0
        invariant
            n <= entries@.len(),
            before == entries_view(entries@),
            before == entries_view(old(entries)@),
            wanted@ == pending@,
            waiting.len() > 0,
            waiting[0] == pending@,
            waiting == string_views(old(awaiting)@),
            string_views(awaiting@) == waiting.drop_first(),
            last_user(before, pending@) == last_user(before.take(n as int), pending@),
        decreases n,
    {
        let i = n - 1;
        assert(before.take(n as int).last() == before[i as int]);
        assert(before.take(n as int).drop_last() == before.take(i as int));
        let is_match = match &entries[i] {
            TranscriptEntry::User(text) => {
                let equal = chars_equal(chars_of(text.as_str()).as_slice(), wanted.as_slice());
                assert(equal ==> before[i as int] == EntryView::User(pending@));
                equal
            },
            _ => false,
        };
        if is_match {
            assert(last_user(before.take(n as int), pending@) == i);
            entries.set(i, TranscriptEntry::User(content));
            assert(entries_view(entries@) =~= spec_reconcile_user(before, waiting, content@));
            return i;
        }
        n = i;
    }
    assert(before.take(0) == Seq::<EntryView>::empty());
    entries.push(TranscriptEntry::User(content));
    assert(entries_view(entries@) =~= spec_reconcile_user(before, waiting, content@));
    entries.len() - 1
}

proof fn lemma_last_stream_at(s: Seq<EntryView>, kind: StreamKind, id: Seq<char>, i: int)
    requires
        0 <= i < s.len(),
        is_stream(s[i], kind, id),
        forall|k: int| i < k < s.len() ==> !is_stream(#[trigger] s[k], kind, id),
    ensures
        last_stream(s, kind, id) == i,
    decreases s.len(),
{
    if i < s.len() - 1 {
        assert(!is_stream(s[s.len() - 1], kind, id));
        assert forall|k: int| i < k < s.drop_last().len() implies !is_stream(
            #[trigger] s.drop_last()[k],
            kind,
            id,
        ) by {
            assert(s.drop_last()[k] == s[k]);
        }
        lemma_last_stream_at(s.drop_last(), kind, id, i);
    }
}

/// Streamed deltas accumulate: two deltas for one stream leave the same transcript
/// as their concatenation sent at once.
pub proof fn law_deltas_accumulate(
    s: Seq<EntryView>,
    kind: StreamKind,
    id: Seq<char>,
    first: Seq<char>,
    second: Seq<char>,
    agent: Option<Seq<char>>,
    later_agent: Option<Seq<char>>,
)
    ensures
        spec_append(spec_append(s, kind, id, first, agent), kind, id, second, later_agent)
            == spec_append(s, kind, id, first + second, agent),
{
    lemma_last_stream(s, kind, id);
    let i = last_stream(s, kind, id);
    let s1 = spec_append(s, kind, id, first, agent);
    if i >= 0 {
        match s[i] {
            EntryView::Streamed(k, d, text, a) => {
                assert forall|j: int| i < j < s1.len() implies !is_stream(#[trigger] s1[j], kind, id) by {
                    assert(s1[j] == s[j]);
                }
                lemma_last_stream_at(s1, kind, id, i);
                assert(text + first + second == text + (first + second));
                assert(s1.update(i, EntryView::Streamed(k, d, text + first + second, a)) =~= s.update(
                    i,
                    EntryView::Streamed(k, d, text + (first + second), a),
                ));
            },
            _ => {},
        }
    } else {
        lemma_last_stream_at(s1, kind, id, s.len() as int);
        assert(s1.update(s.len() as int, EntryView::Streamed(kind, id, first + second, agent))
            =~= s.push(EntryView::Streamed(kind, id, first + second, agent)));
    }
}

/// A finished message wins: afterwards the latest entry of its stream holds exactly
/// its text, and at most one entry was added.
pub proof fn law_finished_message_wins(
    s: Seq<EntryView>,
    kind: StreamKind,
    id: Seq<char>,
    content: Seq<char>,
    agent: Option<Seq<char>>,
)
    ensures
        ({
            let r = spec_replace(s, kind, id, content, agent);
            &&& s.len() <= r.len() <= s.len() + 1
            &&& last_stream(r, kind, id) >= 0
            &&& r[last_stream(r, kind, id)] matches EntryView::Streamed(_, _, text, _) && text
                == content
        }),
{
    lemma_last_stream(s, kind, id);
    let i = last_stream(s, kind, id);
    let r = spec_replace(s, kind, id, content, agent);
    if i >= 0 {
        assert forall|j: int| i < j < r.len() implies !is_stream(#[trigger] r[j], kind, id) by {
            assert(r[j] == s[j]);
        }
        lemma_last_stream_at(r, kind, id, i);
    } else {
        lemma_last_stream_at(r, kind, id, s.len() as int);
    }
}

/// Text for one stream never touches another entry: everything but the latest
/// entry of that stream stays as it was.
pub proof fn law_streams_do_not_interfere(
    s: Seq<EntryView>,
    kind: StreamKind,
    id: Seq<char>,
    content: Seq<char>,
    agent: Option<Seq<char>>,
    j: int,
)
    requires
        0 <= j < s.len(),
        j != last_stream(s, kind, id),
    ensures
        spec_append(s, kind, id, content, agent)[j] == s[j],
        spec_replace(s, kind, id, content, agent)[j] == s[j],
{
    lemma_last_stream(s, kind, id);
}

} // verus!
