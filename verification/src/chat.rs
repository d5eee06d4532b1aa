//! The chat session's state apart from the terminal: the transcript, the messages
//! awaiting their echo, the streams still live, the spinner's clock, the approvals
//! that wait, and how each update from the session changes them.

use vstd::prelude::*;
use crate::approvals::{
    count_pending, deny_pending, first_pending, lemma_deny_pending_count, ApprovalQueue,
};
use crate::picker::{decided_status, ApprovalDecision, ApprovalStatus, PickerKind};
use crate::keymap::{spec_submit_action, submit_action, SubmitAction};
use crate::prompt::{spec_user_turn, ContextWarningGate};
use crate::text::{chars_of, push_char, push_chars, push_str, string_views};
use crate::wizard::{drop_last_char, pop_char};
use crate::skills::{catalog_has, spec_toggle, SkillCatalog, SkillSelection, SkillView};
use crate::spinner::{SpinnerClock, SPINNER_THINKING_MIN_MS, SPINNER_THOUGHT_HOLD_MS};
use crate::spinner_row::{spinner_mode_for, SpinnerMode};
use crate::tool_calls::{
    has_active_tool, is_active, close_turn, mark_in_flight_tools_unknown, spec_mark_unknown, complete_tool, finish_subagent, record_tool_output, record_tool_status,
    spec_close_turn, spec_complete_tool, spec_finish_subagent, spec_start_tool, spec_tool_output,
    spec_tool_status, start_subagent, start_tool,
};
use crate::transcript::{
    append_streamed, entries_view, reconcile_user_message, replace_streamed, same_text,
    spec_append, spec_reconcile_user, spec_replace, EntryView, StreamKind,
    ToolCallState, TranscriptEntry,
};
use crate::todos::TodoRow;
use crate::transcript_text::{
    lines_view, spec_status_detail, spec_usage_detail, status_detail_lines, usage_detail_lines, AttributionFacts,
    BannerSeverity, StatusFacts, UsageFacts,
};
use crate::toolset::{flipped, all_ticked, shell_ticked, ticked_count, Toolset, TOOL_COUNT};
use crate::tui::{picker_cancel_outcome, spec_cancel_outcome, ModelInfo};
use crate::prompt::spec_observe;
use crate::tui::SubagentStatus;

verus! {

/// The UTF-16 code units of `s`: two for a character beyond the basic plane, one
/// for any other.
pub open spec fn utf16_units(s: Seq<char>) -> nat
    decreases s.len(),
{
    if s.len() == 0 {
        0
    } else {
        utf16_units(s.drop_last()) + if s.last() as u32 >= 0x10000 {
            2nat
        } else {
            1nat
        }
    }
}

proof fn lemma_utf16_units_prefix(s: Seq<char>, i: int)
    requires
        0 <= i <= s.len(),
    ensures
        utf16_units(s.take(i)) <= utf16_units(s),
    decreases s.len() - i,
{
    if i < s.len() {
        lemma_utf16_units_prefix(s, i + 1);
        assert(s.take(i + 1).drop_last() =~= s.take(i));
    } else {
        assert(s.take(i) =~= s);
    }
}

/// How many UTF-16 code units `s` takes (`str::encode_utf16().count()`).
pub fn utf16_len(s: &str) -> (n: usize)
    requires
        utf16_units(s@) <= usize::MAX,
    ensures
        n == utf16_units(s@),
{
    let cs = chars_of(s);
    let mut n: usize = 0;
    let mut i: usize = 0;
    while i < cs.len()
        invariant
            i <= cs@.len(),
            cs@ == s@,
            n == utf16_units(cs@.take(i as int)),
            utf16_units(s@) <= usize::MAX,
        decreases cs.len() - i,
    {
        proof {
            lemma_utf16_units_prefix(cs@, i + 1);
            assert(cs@.take(i + 1).drop_last() =~= cs@.take(i as int));
        }
        if (cs[i] as u32) >= 0x10000 {
            n += 2;
        } else {
            n += 1;
        }
        i += 1;
    }
    assert(cs@.take(i as int) =~= s@);
    n
}

/// `id` added to a set of live stream ids, unless it is there already.
pub open spec fn live_insert(live: Seq<Seq<char>>, id: Seq<char>) -> Seq<Seq<char>> {
    if live.contains(id) {
        live
    } else {
        live.push(id)
    }
}

/// A set of live stream ids without `id`.
pub open spec fn live_remove(live: Seq<Seq<char>>, id: Seq<char>) -> Seq<Seq<char>>
    decreases live.len(),
{
    if live.len() == 0 {
        live
    } else if live[0] == id {
        live_remove(live.drop_first(), id)
    } else {
        seq![live[0]] + live_remove(live.drop_first(), id)
    }
}

fn insert_live(live: &mut Vec<String>, id: &String)
    ensures
        string_views(final(live)@) == live_insert(string_views(old(live)@), id@),
{
    let ghost before = string_views(live@);
    let mut i: usize = 0;
    while i < live.len()
        invariant
            i <= live@.len(),
            before == string_views(live@),
            forall|k: int| 0 <= k < i ==> before[k] != id@,
        decreases live.len() - i,
    {
        if same_text(&live[i], id) {
            assert(before[i as int] == id@);
            assert(before.contains(id@));
            return;
        }
        i += 1;
    }
    assert(!before.contains(id@));
    live.push(id.clone());
    assert(string_views(live@) =~= before.push(id@));
}

fn remove_live(live: &mut Vec<String>, id: &String)
    ensures
        string_views(final(live)@) == live_remove(string_views(old(live)@), id@),
{
    let ghost t = string_views(live@);
    let mut i = live.len();
    assert(t.skip(i as int) =~= Seq::<Seq<char>>::empty());
    assert(string_views(live@) =~= t.take(i as int) + live_remove(t.skip(i as int), id@));
    while i > 0
        invariant
            i <= t.len(),
            string_views(live@) == t.take(i as int) + live_remove(t.skip(i as int), id@),
            t == string_views(old(live)@),
        decreases i,
    {
        let j = i - 1;
        let ghost v = string_views(live@);
        assert(v.len() == live@.len());
        assert(v[j as int] == t[j as int]);
        assert(t.skip(j as int).drop_first() =~= t.skip(i as int));
        assert(t.skip(j as int)[0] == t[j as int]);
        if same_text(&live[j], id) {
            assert(live_remove(t.skip(j as int), id@) == live_remove(t.skip(i as int), id@));
            live.remove(j);
            assert(string_views(live@) =~= v.remove(j as int));
            assert(v.remove(j as int) =~= t.take(j as int) + live_remove(t.skip(i as int), id@));
        }
        assert(string_views(live@) =~= t.take(j as int) + live_remove(t.skip(j as int), id@));
        i = j;
    }
    assert(t.skip(0) =~= t);
    assert(string_views(live@) =~= live_remove(t, id@));
}

/// The spinner clock once assistant output of `units` UTF-16 code units arrived.
pub open spec fn spec_note_output(s: SpinnerClock, units: nat, now: u64, reduced_motion: bool) -> SpinnerClock {
    if !s.active || units == 0 {
        s
    } else {
        SpinnerClock {
            assistant_characters: (s.assistant_characters + units) as usize,
            last_output_at_ms: now,
            displayed_characters: if reduced_motion {
                (s.assistant_characters + units) as usize
            } else {
                s.displayed_characters
            },
            ..s
        }
    }
}

/// The spinner clock once reasoning began; only the first start of a turn counts.
pub open spec fn spec_reasoning_started(s: SpinnerClock, now: u64) -> SpinnerClock {
    if s.active && s.reasoning_started_at_ms is None {
        SpinnerClock { reasoning_started_at_ms: Some(now), ..s }
    } else {
        s
    }
}

/// The spinner clock once reasoning ended: "thinking" lasts at least its minimum
/// from the start, then "thought for …" holds.
pub open spec fn spec_reasoning_finished(s: SpinnerClock, now: u64) -> SpinnerClock {
    match s.reasoning_started_at_ms {
        None => s,
        Some(started) => {
            let min_end = if started + SPINNER_THINKING_MIN_MS > u64::MAX {
                u64::MAX as int
            } else {
                started + SPINNER_THINKING_MIN_MS
            };
            let until = if now >= min_end {
                now as int
            } else {
                min_end
            };
            SpinnerClock {
                reasoning_started_at_ms: None,
                thinking_until_ms: Some(until as u64),
                thought_until_ms: Some((until + SPINNER_THOUGHT_HOLD_MS) as u64),
                thought_duration_ms: if now >= started {
                    (now - started) as u64
                } else {
                    0
                },
                ..s
            }
        },
    }
}

/// An update from the session.
pub enum ChatUpdate {
    /// The session's copy of a user message.
    UserMessage { content: String },
    AssistantDelta { message_id: String, content: String, agent_id: Option<String> },
    AssistantMessage { message_id: String, content: String, agent_id: Option<String> },
    ReasoningDelta { reasoning_id: String, content: String, agent_id: Option<String> },
    Reasoning { reasoning_id: String, content: String, agent_id: Option<String> },
    /// A tool call started; `timeout` is the shell timeout its arguments asked for,
    /// as shown.
    ToolStarted {
        tool_call_id: String,
        tool_name: String,
        timeout: Option<String>,
        agent_id: Option<String>,
    },
    ToolOutput { tool_call_id: String, content: String },
    ToolProgress { tool_call_id: String, content: String },
    /// A tool call ended; `exit_code` is the shell's, when it ran a command.
    ToolCompleted {
        tool_call_id: String,
        success: bool,
        message: Option<String>,
        exit_code: Option<i64>,
    },
    ToolCancelled { tool_call_id: String, message: Option<String> },
    SubagentStarted {
        name: String,
        display_name: String,
        tool_call_id: String,
        agent_id: Option<String>,
    },
    SubagentCompleted { name: String, tool_call_id: String, agent_id: Option<String> },
    SubagentFailed {
        name: String,
        tool_call_id: String,
        error: String,
        agent_id: Option<String>,
    },
    Banner { severity: BannerSeverity, message: String, url: Option<String> },
    ModelChanged { model: String },
    /// How full the context window is.
    Usage { usage: UsageSnapshot },
    TodosChanged,
    Idle,
    TaskComplete,
}

/// `ChatUpdate` with its texts as character sequences.
pub enum ChatUpdateView {
    UserMessage(Seq<char>),
    AssistantDelta(Seq<char>, Seq<char>, Option<Seq<char>>),
    AssistantMessage(Seq<char>, Seq<char>, Option<Seq<char>>),
    ReasoningDelta(Seq<char>, Seq<char>, Option<Seq<char>>),
    Reasoning(Seq<char>, Seq<char>, Option<Seq<char>>),
    ToolStarted(Seq<char>, Seq<char>, Option<Seq<char>>, Option<Seq<char>>),
    ToolOutput(Seq<char>, Seq<char>),
    ToolProgress(Seq<char>, Seq<char>),
    ToolCompleted(Seq<char>, bool, Option<Seq<char>>, Option<i64>),
    ToolCancelled(Seq<char>, Option<Seq<char>>),
    SubagentStarted(Seq<char>, Seq<char>, Seq<char>, Option<Seq<char>>),
    SubagentCompleted(Seq<char>, Seq<char>, Option<Seq<char>>),
    SubagentFailed(Seq<char>, Seq<char>, Seq<char>, Option<Seq<char>>),
    Banner(BannerSeverity, Seq<char>, Option<Seq<char>>),
    ModelChanged(Seq<char>),
    Usage(UsageSnapshot),
    TodosChanged,
    Idle,
    TaskComplete,
}

impl View for ChatUpdate {
    type V = ChatUpdateView;

    open spec fn view(&self) -> ChatUpdateView {
        match self {
            ChatUpdate::UserMessage { content } => ChatUpdateView::UserMessage(content@),
            ChatUpdate::AssistantDelta { message_id, content, agent_id } =>
                ChatUpdateView::AssistantDelta(message_id@, content@, agent_id.deep_view()),
            ChatUpdate::AssistantMessage { message_id, content, agent_id } =>
                ChatUpdateView::AssistantMessage(message_id@, content@, agent_id.deep_view()),
            ChatUpdate::ReasoningDelta { reasoning_id, content, agent_id } =>
                ChatUpdateView::ReasoningDelta(reasoning_id@, content@, agent_id.deep_view()),
            ChatUpdate::Reasoning { reasoning_id, content, agent_id } => ChatUpdateView::Reasoning(
                reasoning_id@,
                content@,
                agent_id.deep_view(),
            ),
            ChatUpdate::ToolStarted { tool_call_id, tool_name, timeout, agent_id } =>
                ChatUpdateView::ToolStarted(
                tool_call_id@,
                tool_name@,
                timeout.deep_view(),
                agent_id.deep_view(),
            ),
            ChatUpdate::ToolOutput { tool_call_id, content } => ChatUpdateView::ToolOutput(
                tool_call_id@,
                content@,
            ),
            ChatUpdate::ToolProgress { tool_call_id, content } => ChatUpdateView::ToolProgress(
                tool_call_id@,
                content@,
            ),
            ChatUpdate::ToolCompleted { tool_call_id, success, message, exit_code } =>
                ChatUpdateView::ToolCompleted(
                tool_call_id@,
                *success,
                message.deep_view(),
                *exit_code,
            ),
            ChatUpdate::ToolCancelled { tool_call_id, message } => ChatUpdateView::ToolCancelled(
                tool_call_id@,
                message.deep_view(),
            ),
            ChatUpdate::SubagentStarted { name, display_name, tool_call_id, agent_id } =>
                ChatUpdateView::SubagentStarted(
                name@,
                display_name@,
                tool_call_id@,
                agent_id.deep_view(),
            ),
            ChatUpdate::SubagentCompleted { name, tool_call_id, agent_id } =>
                ChatUpdateView::SubagentCompleted(name@, tool_call_id@, agent_id.deep_view()),
            ChatUpdate::SubagentFailed { name, tool_call_id, error, agent_id } =>
                ChatUpdateView::SubagentFailed(
                name@,
                tool_call_id@,
                error@,
                agent_id.deep_view(),
            ),
            ChatUpdate::Banner { severity, message, url } => ChatUpdateView::Banner(
                *severity,
                message@,
                url.deep_view(),
            ),
            ChatUpdate::ModelChanged { model } => ChatUpdateView::ModelChanged(model@),
            ChatUpdate::Usage { usage } => ChatUpdateView::Usage(*usage),
            ChatUpdate::TodosChanged => ChatUpdateView::TodosChanged,
            ChatUpdate::Idle => ChatUpdateView::Idle,
            ChatUpdate::TaskComplete => ChatUpdateView::TaskComplete,
        }
    }
}

/// How full the context window is, in tokens.
#[derive(Debug, Clone, Copy, PartialEq, Eq, Structural)]
pub struct UsageSnapshot {
    pub current_tokens: i64,
    pub token_limit: i64,
}

/// What the status shows of the session: the model, its reasoning effort, how
/// full the context is, and whether a turn is in flight.
pub struct StatusState {
    pub model: Option<String>,
    pub reasoning_effort: Option<String>,
    pub usage: Option<UsageSnapshot>,
    pub busy: bool,
}

/// The chat session's state apart from the terminal; `T` is a tool request waiting
/// for the user's approval.
pub struct ChatState<T> {
    pub entries: Vec<TranscriptEntry>,
    /// User messages shown when sent whose copy from the session has not come yet,
    /// oldest first.
    pub awaiting_echo: Vec<String>,
    /// Ids of the assistant messages still streaming.
    pub assistant_live: Vec<String>,
    /// Ids of the reasoning streams still open.
    pub reasoning_live: Vec<String>,
    pub spinner: SpinnerClock,
    /// Turns started so far (wrapping), which picks the spinner's verb.
    pub spinner_turn: u64,
    pub approvals: ApprovalQueue<T>,
    /// Whether the context warning is held back.
    pub context_gate: ContextWarningGate,
    pub status: StatusState,
    /// A fatal error ended the session.
    pub blocked: bool,
    /// The session is being re-established.
    pub reconnecting: bool,
    pub fleet_active: bool,
    /// The fleet run's to-do list, once loaded.
    pub todos: Option<Vec<TodoRow>>,
    pub show_todos: bool,
    pub todo_refresh_requested: bool,
    pub reduced_motion: bool,
    /// The picker that is open, if any.
    pub picker: Option<PickerKind>,
    /// The text typed into the prompt.
    pub input: String,
    /// The tools the session runs with.
    pub toolset: Toolset,
    /// The tools ticked in the tool picker.
    pub picker_toolset: Toolset,
    /// Whether debug messages and internal details are drawn.
    pub show_internals: bool,
    /// The spending figures last loaded for `/usage`.
    pub usage_metrics: Option<UsageFacts>,
    /// Where the context's tokens come from, as last reported.
    pub context_attribution: Option<AttributionFacts>,
    /// The skills that can be enabled.
    pub skills: SkillCatalog,
    /// The skills the session runs with.
    pub skill_selection: SkillSelection,
    /// The skills ticked in the skill picker.
    pub picker_skill_selection: SkillSelection,
}

/// `ChatState` as values.
pub struct ChatView<T> {
    pub entries: Seq<EntryView>,
    pub awaiting_echo: Seq<Seq<char>>,
    pub assistant_live: Seq<Seq<char>>,
    pub reasoning_live: Seq<Seq<char>>,
    pub spinner: SpinnerClock,
    pub spinner_turn: u64,
    pub approval_statuses: Seq<ApprovalStatus>,
    pub waiting: Seq<T>,
    pub context_gate: ContextWarningGate,
    pub busy: bool,
    pub model: Option<Seq<char>>,
    pub reasoning_effort: Option<Seq<char>>,
    pub usage: Option<UsageSnapshot>,
    pub blocked: bool,
    pub reconnecting: bool,
    pub fleet_active: bool,
    pub todos: Option<Seq<TodoRow>>,
    pub show_todos: bool,
    pub todo_refresh_requested: bool,
    pub reduced_motion: bool,
    pub picker: Option<PickerKind>,
    pub input: Seq<char>,
    pub toolset: Seq<bool>,
    pub picker_toolset: Seq<bool>,
    pub show_internals: bool,
    pub usage_metrics: Option<UsageFacts>,
    pub context_attribution: Option<AttributionFacts>,
    pub skills: Seq<SkillView>,
    pub skill_selection: Set<Seq<char>>,
    pub picker_skill_selection: Set<Seq<char>>,
}

impl<T> View for ChatState<T> {
    type V = ChatView<T>;

    open spec fn view(&self) -> ChatView<T> {
        ChatView {
            entries: entries_view(self.entries@),
            awaiting_echo: string_views(self.awaiting_echo@),
            assistant_live: string_views(self.assistant_live@),
            reasoning_live: string_views(self.reasoning_live@),
            spinner: self.spinner,
            spinner_turn: self.spinner_turn,
            approval_statuses: self.approvals.statuses_view(),
            waiting: self.approvals.pending_view(),
            context_gate: self.context_gate,
            busy: self.status.busy,
            model: self.status.model.deep_view(),
            reasoning_effort: self.status.reasoning_effort.deep_view(),
            usage: self.status.usage,
            blocked: self.blocked,
            reconnecting: self.reconnecting,
            fleet_active: self.fleet_active,
            todos: match self.todos {
                Some(t) => Some(t@),
                None => None,
            },
            show_todos: self.show_todos,
            todo_refresh_requested: self.todo_refresh_requested,
            reduced_motion: self.reduced_motion,
            picker: self.picker,
            input: self.input@,
            toolset: self.toolset@,
            picker_toolset: self.picker_toolset@,
            show_internals: self.show_internals,
            usage_metrics: self.usage_metrics,
            context_attribution: self.context_attribution,
            skills: self.skills@,
            skill_selection: self.skill_selection@,
            picker_skill_selection: self.picker_skill_selection@,
        }
    }
}

/// The end of a turn: no stream stays live, the fleet run and its to-do list end,
/// the session is idle, the spinner stops and the transcript is closed.
pub open spec fn spec_end_turn<T>(v: ChatView<T>) -> ChatView<T> {
    ChatView {
        entries: spec_close_turn(v.entries),
        assistant_live: Seq::empty(),
        reasoning_live: Seq::empty(),
        fleet_active: false,
        show_todos: false,
        busy: false,
        spinner: SpinnerClock::spec_default(),
        picker: None,
        ..v
    }
}

/// A banner: a blocking error first ends the session (blocked, idle, spinner
/// stopped, every waiting approval denied, the picker closed); the banner then
/// joins the transcript.
pub open spec fn spec_banner<T>(
    v: ChatView<T>,
    severity: BannerSeverity,
    message: Seq<char>,
    url: Option<Seq<char>>,
) -> ChatView<T> {
    let v1 = if severity == BannerSeverity::BlockingError {
        ChatView {
            blocked: true,
            busy: false,
            spinner: SpinnerClock::spec_default(),
            approval_statuses: deny_pending(v.approval_statuses),
            waiting: Seq::empty(),
            picker: None,
            ..v
        }
    } else {
        v
    };
    ChatView { entries: v1.entries.push(EntryView::Banner { severity, message, url }), ..v1 }
}

/// How the update `u`, arriving at `now`, changes the chat.
pub open spec fn spec_apply<T>(v: ChatView<T>, u: ChatUpdateView, now: u64) -> ChatView<T> {
    match u {
        ChatUpdateView::UserMessage(content) => ChatView {
            entries: spec_reconcile_user(v.entries, v.awaiting_echo, content),
            awaiting_echo: if v.awaiting_echo.len() > 0 {
                v.awaiting_echo.drop_first()
            } else {
                v.awaiting_echo
            },
            ..v
        },
        ChatUpdateView::AssistantDelta(id, content, agent) => ChatView {
            spinner: spec_note_output(v.spinner, utf16_units(content), now, v.reduced_motion),
            assistant_live: live_insert(v.assistant_live, id),
            entries: spec_append(v.entries, StreamKind::Assistant, id, content, agent),
            ..v
        },
        ChatUpdateView::AssistantMessage(id, content, agent) => ChatView {
            assistant_live: live_remove(v.assistant_live, id),
            entries: spec_replace(v.entries, StreamKind::Assistant, id, content, agent),
            ..v
        },
        ChatUpdateView::ReasoningDelta(id, content, agent) => ChatView {
            spinner: if v.reasoning_live.len() == 0 {
                spec_reasoning_started(v.spinner, now)
            } else {
                v.spinner
            },
            reasoning_live: live_insert(v.reasoning_live, id),
            entries: spec_append(v.entries, StreamKind::Reasoning, id, content, agent),
            ..v
        },
        ChatUpdateView::Reasoning(id, content, agent) => ChatView {
            spinner: if live_remove(v.reasoning_live, id).len() == 0 {
                spec_reasoning_finished(v.spinner, now)
            } else {
                v.spinner
            },
            reasoning_live: live_remove(v.reasoning_live, id),
            entries: spec_replace(v.entries, StreamKind::Reasoning, id, content, agent),
            ..v
        },
        ChatUpdateView::ToolStarted(id, name, timeout, agent) => ChatView {
            entries: spec_start_tool(v.entries, id, name, agent, now, timeout),
            ..v
        },
        ChatUpdateView::ToolOutput(id, content) => ChatView {
            entries: spec_tool_output(v.entries, id, content),
            ..v
        },
        ChatUpdateView::ToolProgress(id, content) => ChatView {
            entries: spec_tool_status(v.entries, id, content),
            ..v
        },
        ChatUpdateView::ToolCompleted(id, success, message, exit_code) => ChatView {
            entries: spec_complete_tool(v.entries, id, success, message, exit_code, false),
            ..v
        },
        ChatUpdateView::ToolCancelled(id, message) => ChatView {
            entries: spec_complete_tool(v.entries, id, false, message, None, true),
            ..v
        },
        ChatUpdateView::SubagentStarted(name, display_name, tool_call_id, agent) => ChatView {
            entries: v.entries.push(
                EntryView::Subagent {
                    name,
                    tool_call_id,
                    display_name,
                    status: SubagentStatus::Running,
                    error: None,
                    agent,
                },
            ),
            ..v
        },
        ChatUpdateView::SubagentCompleted(name, tool_call_id, agent) => ChatView {
            entries: spec_finish_subagent(v.entries, name, tool_call_id, agent, None),
            ..v
        },
        ChatUpdateView::SubagentFailed(name, tool_call_id, error, agent) => ChatView {
            entries: spec_finish_subagent(v.entries, name, tool_call_id, agent, Some(error)),
            ..v
        },
        ChatUpdateView::Banner(severity, message, url) => spec_banner(v, severity, message, url),
        ChatUpdateView::ModelChanged(model) => ChatView { model: Some(model), ..v },
        ChatUpdateView::Usage(usage) => ChatView { usage: Some(usage), ..v },
        ChatUpdateView::TodosChanged => ChatView {
            todo_refresh_requested: v.todo_refresh_requested || (v.fleet_active && v.show_todos),
            ..v
        },
        ChatUpdateView::Idle => spec_end_turn(v),
        ChatUpdateView::TaskComplete => spec_end_turn(v),
    }
}

/// The update closes whatever picker is open: a blocking error or the end of a turn.
pub open spec fn closes_picker(u: ChatUpdateView) -> bool {
    ||| u matches ChatUpdateView::Banner(BannerSeverity::BlockingError, _, _)
    ||| u is Idle
    ||| u is TaskComplete
}

/// The clock values stay far enough from the end of `u64` for the reasoning
/// windows to be computed.
pub open spec fn clock_fits(s: SpinnerClock, now: u64) -> bool {
    &&& now + SPINNER_THINKING_MIN_MS + SPINNER_THOUGHT_HOLD_MS <= u64::MAX
    &&& (s.reasoning_started_at_ms matches Some(started) ==> started + SPINNER_THINKING_MIN_MS
        + SPINNER_THOUGHT_HOLD_MS <= u64::MAX)
}

/// What an update leaves the caller to do.
pub struct Applied<T> {
    /// Requests to answer with a denial, oldest first.
    pub rejected: Vec<T>,
    /// The open picker closes.
    pub close_picker: bool,
}

impl<T> ChatState<T> {
    /// Applies the update `update` from the session, arriving at `now_ms`.
    #[verifier::spinoff_prover]
    #[verifier::rlimit(100)]
    pub fn apply(&mut self, update: ChatUpdate, now_ms: u64) -> (r: Applied<T>)
        requires
            clock_fits(old(self).spinner, now_ms),
            update matches ChatUpdate::AssistantDelta { content, .. } ==> old(
                self,
            ).spinner.assistant_characters + utf16_units(content@) <= usize::MAX,
        ensures
            final(self)@ == spec_apply(old(self)@, update@, now_ms),
            r.rejected@ == if update@ matches ChatUpdateView::Banner(
                BannerSeverity::BlockingError,
                _,
                _,
            ) {
                old(self)@.waiting
            } else {
                Seq::empty()
            },
            r.close_picker == closes_picker(update@),
    {
        let ghost u = update@;
        match update {
            ChatUpdate::UserMessage { content } => {
                reconcile_user_message(&mut self.entries, &mut self.awaiting_echo, content);
            },
            ChatUpdate::AssistantDelta { message_id, content, agent_id } => {
                let units = utf16_len(content.as_str());
                self.spinner.note_assistant_output(units, now_ms, self.reduced_motion);
                insert_live(&mut self.assistant_live, &message_id);
                append_streamed(&mut self.entries, StreamKind::Assistant, message_id, content, agent_id);
            },
            ChatUpdate::AssistantMessage { message_id, content, agent_id } => {
                remove_live(&mut self.assistant_live, &message_id);
                replace_streamed(&mut self.entries, StreamKind::Assistant, message_id, content, agent_id);
            },
            ChatUpdate::ReasoningDelta { reasoning_id, content, agent_id } => {
                let was_idle = self.reasoning_live.len() == 0;
                insert_live(&mut self.reasoning_live, &reasoning_id);
                if was_idle {
                    self.spinner.note_reasoning_started(now_ms);
                }
                append_streamed(&mut self.entries, StreamKind::Reasoning, reasoning_id, content, agent_id);
            },
            ChatUpdate::Reasoning { reasoning_id, content, agent_id } => {
                remove_live(&mut self.reasoning_live, &reasoning_id);
                if self.reasoning_live.len() == 0 {
                    self.spinner.note_reasoning_finished(now_ms);
                }
                replace_streamed(&mut self.entries, StreamKind::Reasoning, reasoning_id, content, agent_id);
            },
            ChatUpdate::ToolStarted { tool_call_id, tool_name, timeout, agent_id } => {
                start_tool(&mut self.entries, tool_call_id, tool_name, agent_id, now_ms, timeout);
            },
            ChatUpdate::ToolOutput { tool_call_id, content } => {
                record_tool_output(&mut self.entries, &tool_call_id, content.as_str());
            },
            ChatUpdate::ToolProgress { tool_call_id, content } => {
                record_tool_status(&mut self.entries, &tool_call_id, content);
            },
            ChatUpdate::ToolCompleted { tool_call_id, success, message, exit_code } => {
                complete_tool(&mut self.entries, tool_call_id, success, message, exit_code, false);
            },
            ChatUpdate::ToolCancelled { tool_call_id, message } => {
                complete_tool(&mut self.entries, tool_call_id, false, message, None, true);
            },
            ChatUpdate::SubagentStarted { name, display_name, tool_call_id, agent_id } => {
                start_subagent(&mut self.entries, name, tool_call_id, display_name, agent_id);
            },
            ChatUpdate::SubagentCompleted { name, tool_call_id, agent_id } => {
                finish_subagent(&mut self.entries, &name, &tool_call_id, &agent_id, None);
            },
            ChatUpdate::SubagentFailed { name, tool_call_id, error, agent_id } => {
                finish_subagent(&mut self.entries, &name, &tool_call_id, &agent_id, Some(error));
            },
            ChatUpdate::Banner { severity, message, url } => {
                let mut rejected: Vec<T> = Vec::new();
                let blocking = match severity {
                    BannerSeverity::BlockingError => true,
                    _ => false,
                };
                if blocking {
                    self.blocked = true;
                    self.status.busy = false;
                    self.spinner = SpinnerClock::idle();
                    rejected = self.approvals.reject_all();
                    self.picker = None;
                }
                let ghost before = entries_view(self.entries@);
                self.entries.push(TranscriptEntry::Banner { severity, message, url });
                assert(entries_view(self.entries@) =~= before.push(
                    EntryView::Banner { severity, message: message@, url: url.deep_view() },
                ));
                return Applied { rejected, close_picker: blocking };
            },
            ChatUpdate::ModelChanged { model } => {
                self.status.model = Some(model);
            },
            ChatUpdate::Usage { usage } => {
                self.status.usage = Some(usage);
            },
            ChatUpdate::TodosChanged => {
                if self.fleet_active && self.show_todos {
                    self.todo_refresh_requested = true;
                }
            },
            ChatUpdate::Idle => {
                self.end_turn();
                return Applied { rejected: Vec::new(), close_picker: true };
            },
            ChatUpdate::TaskComplete => {
                self.end_turn();
                return Applied { rejected: Vec::new(), close_picker: true };
            },
        }
        Applied { rejected: Vec::new(), close_picker: false }
    }

    fn end_turn(&mut self)
        ensures
            final(self)@ == spec_end_turn(old(self)@),
    {
        self.assistant_live = Vec::new();
        self.reasoning_live = Vec::new();
        self.fleet_active = false;
        self.show_todos = false;
        self.status.busy = false;
        self.spinner = SpinnerClock::idle();
        self.picker = None;
        close_turn(&mut self.entries);
        assert(string_views(self.assistant_live@) =~= Seq::<Seq<char>>::empty());
        assert(string_views(self.reasoning_live@) =~= Seq::<Seq<char>>::empty());
    }
}

/// A user message sent: a new turn starts (the spinner restarts at `now` and the
/// turn count moves on), the context warning may show again, the message is shown
/// and awaits its copy from the session, and the session is busy.
pub open spec fn spec_add_user_message<T>(v: ChatView<T>, content: Seq<char>, now: u64) -> ChatView<T> {
    ChatView {
        context_gate: spec_user_turn(v.context_gate),
        spinner_turn: if v.spinner_turn == u64::MAX {
            0
        } else {
            (v.spinner_turn + 1) as u64
        },
        spinner: SpinnerClock {
            active: true,
            started_at_ms: now,
            last_output_at_ms: now,
            last_advance_at_ms: now,
            ..SpinnerClock::spec_default()
        },
        awaiting_echo: v.awaiting_echo.push(content),
        entries: v.entries.push(EntryView::User(content)),
        busy: true,
        ..v
    }
}

/// The transcript and everything tied to it forgotten: no entry, no message
/// awaiting its copy, no live stream, the spinner and the context warning reset,
/// idle and no longer blocked.
pub open spec fn spec_clear_transcript<T>(v: ChatView<T>) -> ChatView<T> {
    ChatView {
        entries: Seq::empty(),
        awaiting_echo: Seq::empty(),
        assistant_live: Seq::empty(),
        reasoning_live: Seq::empty(),
        spinner: SpinnerClock::spec_default(),
        context_gate: ContextWarningGate { suppressed: false, observed_compactions: None },
        busy: false,
        usage: None,
        usage_metrics: None,
        context_attribution: None,
        blocked: false,
        ..v
    }
}

/// A new conversation: the transcript is cleared, every waiting approval is denied
/// and forgotten, the fleet run ends, nothing reconnects any more, the picker
/// closes (its ticks go back to the tools in use), every skill is disabled and the
/// typed input is cleared.
pub open spec fn spec_new_conversation<T>(v: ChatView<T>) -> ChatView<T> {
    ChatView {
        picker: None,
        picker_toolset: v.toolset,
        skill_selection: Set::empty(),
        picker_skill_selection: Set::empty(),
        input: Seq::empty(),
        approval_statuses: Seq::empty(),
        waiting: Seq::empty(),
        fleet_active: false,
        todos: None,
        todo_refresh_requested: false,
        reconnecting: false,
        ..spec_clear_transcript(v)
    }
}

/// The updates `us` applied in order, all arriving at `now`.
pub open spec fn apply_all<T>(v: ChatView<T>, us: Seq<ChatUpdateView>, now: u64) -> ChatView<T>
    decreases us.len(),
{
    if us.len() == 0 {
        v
    } else {
        spec_apply(apply_all(v, us.drop_last(), now), us.last(), now)
    }
}

/// A streamed delta's length in UTF-16 code units fits in `usize`.
pub open spec fn delta_fits(u: ChatUpdateView) -> bool {
    u matches ChatUpdateView::AssistantDelta(_, content, _) ==> utf16_units(content) <= usize::MAX
}

pub open spec fn update_views(us: Seq<ChatUpdate>) -> Seq<ChatUpdateView> {
    us.map_values(|u: ChatUpdate| u@)
}

impl<T> ChatState<T> {
    /// A fresh chat: empty, idle, with `model` shown as the current model and every
    /// tool enabled.
    pub fn new(model: Option<String>, reduced_motion: bool) -> (c: Self)
        ensures
            c@ == (ChatView::<T> {
                entries: Seq::empty(),
                awaiting_echo: Seq::empty(),
                assistant_live: Seq::empty(),
                reasoning_live: Seq::empty(),
                spinner: SpinnerClock::spec_default(),
                spinner_turn: 0,
                approval_statuses: Seq::empty(),
                waiting: Seq::empty(),
                context_gate: ContextWarningGate { suppressed: false, observed_compactions: None },
                busy: false,
                model: model.deep_view(),
                reasoning_effort: None,
                usage: None,
                blocked: false,
                reconnecting: false,
                fleet_active: false,
                todos: None,
                show_todos: false,
                todo_refresh_requested: false,
                reduced_motion,
                picker: None,
                input: Seq::empty(),
                toolset: all_ticked(),
                picker_toolset: all_ticked(),
                show_internals: false,
                usage_metrics: None,
                context_attribution: None,
                skills: Seq::empty(),
                skill_selection: Set::empty(),
                picker_skill_selection: Set::empty(),
            }),
    {
        let c = ChatState {
            entries: Vec::new(),
            awaiting_echo: Vec::new(),
            assistant_live: Vec::new(),
            reasoning_live: Vec::new(),
            spinner: SpinnerClock::idle(),
            spinner_turn: 0,
            approvals: ApprovalQueue::new(),
            context_gate: ContextWarningGate::new(),
            status: StatusState { model, reasoning_effort: None, usage: None, busy: false },
            blocked: false,
            reconnecting: false,
            fleet_active: false,
            todos: None,
            show_todos: false,
            todo_refresh_requested: false,
            reduced_motion,
            picker: None,
            input: String::new(),
            toolset: Toolset::all(),
            picker_toolset: Toolset::all(),
            show_internals: false,
            usage_metrics: None,
            context_attribution: None,
            skills: SkillCatalog::from_skills(Vec::new()),
            skill_selection: SkillSelection::none(),
            picker_skill_selection: SkillSelection::none(),
        };
        assert(entries_view(c.entries@) =~= Seq::<EntryView>::empty());
        assert(string_views(c.awaiting_echo@) =~= Seq::<Seq<char>>::empty());
        assert(string_views(c.assistant_live@) =~= Seq::<Seq<char>>::empty());
        assert(string_views(c.reasoning_live@) =~= Seq::<Seq<char>>::empty());
        assert(c.skills@ =~= Seq::<SkillView>::empty());
        c
    }

    /// Sends the user message `content` at `now_ms` (see `spec_add_user_message`).
    pub fn add_user_message(&mut self, content: String, now_ms: u64)
        ensures
            final(self)@ == spec_add_user_message(old(self)@, content@, now_ms),
    {
        self.context_gate.user_turn();
        self.spinner_turn = self.spinner_turn.wrapping_add(1);
        self.spinner = SpinnerClock::started(now_ms);
        let ghost entries_before = entries_view(self.entries@);
        let ghost awaiting_before = string_views(self.awaiting_echo@);
        self.awaiting_echo.push(content.clone());
        self.entries.push(TranscriptEntry::User(content));
        assert(entries_view(self.entries@) =~= entries_before.push(EntryView::User(content@)));
        assert(string_views(self.awaiting_echo@) =~= awaiting_before.push(content@));
        self.status.busy = true;
    }

    fn clear_transcript(&mut self)
        ensures
            final(self)@ == spec_clear_transcript(old(self)@),
    {
        self.spinner = SpinnerClock::idle();
        self.entries = Vec::new();
        self.awaiting_echo = Vec::new();
        self.assistant_live = Vec::new();
        self.reasoning_live = Vec::new();
        self.context_gate.reset();
        self.status.busy = false;
        self.status.usage = None;
        self.usage_metrics = None;
        self.context_attribution = None;
        self.blocked = false;
        assert(entries_view(self.entries@) =~= Seq::<EntryView>::empty());
        assert(string_views(self.awaiting_echo@) =~= Seq::<Seq<char>>::empty());
        assert(string_views(self.assistant_live@) =~= Seq::<Seq<char>>::empty());
        assert(string_views(self.reasoning_live@) =~= Seq::<Seq<char>>::empty());
    }

    /// Starts a new conversation (see `spec_new_conversation`); returns the requests
    /// that waited, oldest first, to be answered with a denial.
    pub fn reset_for_new_conversation(&mut self) -> (rejected: Vec<T>)
        ensures
            final(self)@ == spec_new_conversation(old(self)@),
            rejected@ == old(self)@.waiting,
    {
        let rejected = self.approvals.reject_all();
        self.approvals = ApprovalQueue::new();
        self.clear_transcript();
        self.fleet_active = false;
        self.todos = None;
        self.todo_refresh_requested = false;
        self.reconnecting = false;
        self.picker = None;
        self.picker_toolset = self.toolset;
        self.skill_selection.clear();
        self.picker_skill_selection.clear();
        self.input = String::new();
        rejected
    }

    /// Replaces the transcript with a resumed session's history: the transcript is
    /// cleared, then each update is applied in order at `now_ms`.
    pub fn replace_history(&mut self, history: Vec<ChatUpdate>, now_ms: u64)
        requires
            now_ms + SPINNER_THINKING_MIN_MS + SPINNER_THOUGHT_HOLD_MS <= u64::MAX,
            forall|i: int| 0 <= i < history@.len() ==> delta_fits((#[trigger] history@[i])@),
        ensures
            final(self)@ == apply_all(spec_clear_transcript(old(self)@), update_views(history@), now_ms),
    {
        self.clear_transcript();
        let ghost start = self@;
        let ghost all = update_views(history@);
        let mut done: Ghost<int> = Ghost(0);
        for update in it: history.into_iter()
            invariant
                it.seq() == history@,
                done@ == it.index(),
                0 <= done@ <= history@.len(),
                all == update_views(history@),
                self.spinner == SpinnerClock::spec_default(),
                self@ == apply_all(start, all.take(done@), now_ms),
                now_ms + SPINNER_THINKING_MIN_MS + SPINNER_THOUGHT_HOLD_MS <= u64::MAX,
                forall|i: int| 0 <= i < history@.len() ==> delta_fits((#[trigger] history@[i])@),
        {
            assert(update == history@[done@]);
            assert(all.take(done@ + 1).drop_last() =~= all.take(done@));
            assert(all.take(done@ + 1).last() == update@);
            self.apply(update, now_ms);
            proof {
                done@ = done@ + 1;
            }
        }
        assert(all.take(done@) =~= all);
    }

    /// Whether a fleet run is active. Starting one or ending one hides the to-do
    /// list and closes the picker; starting one also forgets the list and drops a
    /// pending refresh of it.
    pub fn set_fleet_active(&mut self, active: bool)
        ensures
            final(self)@ == (ChatView {
                fleet_active: active,
                todos: if active {
                    None
                } else {
                    old(self)@.todos
                },
                show_todos: false,
                todo_refresh_requested: if active {
                    false
                } else {
                    old(self)@.todo_refresh_requested
                },
                picker: None,
                ..old(self)@
            }),
    {
        self.picker = None;
        self.fleet_active = active;
        self.show_todos = false;
        if active {
            self.todos = None;
            self.todo_refresh_requested = false;
        }
    }

    /// The fleet run's to-do list arrived: it is kept and shown, and no refresh is
    /// pending any more.
    pub fn set_todos(&mut self, todos: Vec<TodoRow>)
        ensures
            final(self)@ == (ChatView {
                todos: Some(todos@),
                show_todos: true,
                todo_refresh_requested: false,
                ..old(self)@
            }),
    {
        self.todos = Some(todos);
        self.show_todos = true;
        self.todo_refresh_requested = false;
    }

    /// Takes the pending request to refresh the to-do list, if any.
    pub fn take_todo_refresh_request(&mut self) -> (requested: bool)
        ensures
            requested == old(self)@.todo_refresh_requested,
            final(self)@ == (ChatView { todo_refresh_requested: false, ..old(self)@ }),
    {
        let requested = self.todo_refresh_requested;
        self.todo_refresh_requested = false;
        requested
    }
}

impl<T> ChatState<T> {
    /// What the spinner row waits on: a tool call or sub-agent at work, then open
    /// reasoning, then a streaming answer; otherwise the request is still out.
    pub fn spinner_mode(&self) -> (m: SpinnerMode)
        ensures
            m == if exists|k: int|
                0 <= k < self@.entries.len() && is_active(#[trigger] self@.entries[k]) {
                SpinnerMode::ToolUse
            } else if self@.reasoning_live.len() > 0 {
                SpinnerMode::Reasoning
            } else if self@.assistant_live.len() > 0 {
                SpinnerMode::LiveResponse
            } else {
                SpinnerMode::Requesting
            },
    {
        let active = has_active_tool(&self.entries);
        assert(self@.entries == entries_view(self.entries@));
        assert(self@.entries.len() == self.entries@.len());
        assert(self@.reasoning_live.len() == self.reasoning_live@.len());
        assert(self@.assistant_live.len() == self.assistant_live@.len());
        spinner_mode_for(active, self.reasoning_live.len() > 0, self.assistant_live.len() > 0)
    }
}

/// A blocking error ends the session: it is blocked and idle, the spinner stops,
/// no approval waits or shows pending, and the error is the last entry shown.
pub proof fn law_a_blocking_error_ends_the_session<T>(
    v: ChatView<T>,
    message: Seq<char>,
    url: Option<Seq<char>>,
    now: u64,
)
    ensures
        ({
            let w = spec_apply(v, ChatUpdateView::Banner(BannerSeverity::BlockingError, message, url), now);
            &&& w.blocked
            &&& !w.busy
            &&& !w.spinner.active
            &&& w.waiting.len() == 0
            &&& count_pending(w.approval_statuses) == 0
            &&& w.entries.last() == EntryView::Banner {
                severity: BannerSeverity::BlockingError,
                message,
                url,
            }
        }),
{
    lemma_deny_pending_count(v.approval_statuses);
}

/// The end of a turn leaves the session idle with no stream live, the spinner
/// stopped, no picker open and the fleet run over; it adds the end marker to the
/// transcript unless the transcript already ends with one, and a second end
/// changes nothing more.
pub proof fn law_a_turn_ends_once<T>(v: ChatView<T>, now: u64, later: u64)
    ensures
        ({
            let w = spec_apply(v, ChatUpdateView::Idle, now);
            &&& !w.busy
            &&& !w.spinner.active
            &&& w.assistant_live.len() == 0
            &&& w.reasoning_live.len() == 0
            &&& w.picker is None
            &&& !w.fleet_active
            &&& w.entries == if v.entries.len() > 0 && v.entries.last() == EntryView::Completed {
                v.entries
            } else {
                v.entries.push(EntryView::Completed)
            }
            &&& spec_apply(w, ChatUpdateView::Idle, later) == w
            &&& spec_apply(v, ChatUpdateView::TaskComplete, later) == w
        }),
{
    let w = spec_apply(v, ChatUpdateView::Idle, now);
    assert(spec_close_turn(w.entries) == w.entries);
}

/// When no other message awaits its copy, the session's copy of a message just
/// sent takes the place of the message shown: the transcript gains exactly one
/// entry, holding the copy, and nothing awaits any more.
pub proof fn law_the_sessions_copy_replaces_the_sent_message<T>(
    v: ChatView<T>,
    sent: Seq<char>,
    copy: Seq<char>,
    now: u64,
    later: u64,
)
    requires
        v.awaiting_echo.len() == 0,
    ensures
        ({
            let w = spec_apply(spec_add_user_message(v, sent, now), ChatUpdateView::UserMessage(copy), later);
            &&& w.entries == v.entries.push(EntryView::User(copy))
            &&& w.awaiting_echo.len() == 0
        }),
{
    let s = spec_add_user_message(v, sent, now);
    assert(s.awaiting_echo[0] == sent);
    assert(s.entries.last() == EntryView::User(sent));
    assert(s.entries.update(v.entries.len() as int, EntryView::User(copy)) =~= v.entries.push(
        EntryView::User(copy),
    ));
}

impl<T> ChatState<T> {
    /// Tools and skills can change only while the session is idle: not blocked,
    /// not reconnecting, no turn in flight and no approval waiting.
    pub fn selection_change_is_blocked(&self) -> (b: bool)
        ensures
            b == (self@.blocked || self@.reconnecting || self@.busy || self@.waiting.len() > 0),
    {
        self.blocked || self.reconnecting || self.status.busy || self.approvals.is_waiting()
    }

    /// Whether to reload the to-do list now: a refresh was requested (the request
    /// is taken), a fleet run is active and the list is showing.
    pub fn take_todo_refresh(&mut self) -> (reload: bool)
        ensures
            reload == (old(self)@.todo_refresh_requested && old(self)@.fleet_active
                && old(self)@.show_todos),
            final(self)@ == (ChatView { todo_refresh_requested: false, ..old(self)@ }),
    {
        let requested = self.take_todo_refresh_request();
        requested && self.fleet_active && self.show_todos
    }
}

/// How an entry takes part in the live area below the transcript.
#[derive(Debug, Clone, Copy, PartialEq, Eq, Structural)]
pub enum LiveEntryKind {
    User,
    Assistant,
    /// An answer of a sub-agent.
    AssistantNested,
    Tool,
    /// A tool call of a sub-agent.
    ToolNested,
    Other,
}

pub open spec fn tool_entry_kind(agent: Option<Seq<char>>) -> LiveEntryKind {
    if agent is Some {
        LiveEntryKind::ToolNested
    } else {
        LiveEntryKind::Tool
    }
}

/// How the entry `e` is drawn, and whether it is complete (will not change any
/// more); the end-of-turn marker is not drawn.
pub open spec fn spec_screen_entry(
    e: EntryView,
    assistant_live: Seq<Seq<char>>,
    reasoning_live: Seq<Seq<char>>,
) -> Option<(LiveEntryKind, bool)> {
    match e {
        EntryView::User(_) => Some((LiveEntryKind::User, true)),
        EntryView::Streamed(StreamKind::Assistant, id, _, agent) => Some(
            (
                if agent is Some {
                    LiveEntryKind::AssistantNested
                } else {
                    LiveEntryKind::Assistant
                },
                !assistant_live.contains(id),
            ),
        ),
        EntryView::Streamed(StreamKind::Reasoning, id, _, _) => Some(
            (LiveEntryKind::Other, !reasoning_live.contains(id)),
        ),
        EntryView::Tool { state, unknown, agent, .. } => Some(
            (
                tool_entry_kind(agent),
                !(state == ToolCallState::Queued || state == ToolCallState::Running) || unknown,
            ),
        ),
        EntryView::ToolProgress { agent, .. } => Some((tool_entry_kind(agent), false)),
        EntryView::ToolResult { agent, .. } => Some((tool_entry_kind(agent), true)),
        EntryView::Subagent { status, .. } => Some(
            (LiveEntryKind::Other, status != SubagentStatus::Running),
        ),
        EntryView::Completed => None,
        _ => Some((LiveEntryKind::Other, true)),
    }
}

fn live_contains(live: &Vec<String>, id: &String) -> (b: bool)
    ensures
        b == string_views(live@).contains(id@),
{
    let ghost s = string_views(live@);
    let mut i: usize = 0;
    while i < live.len()
        invariant
            i <= live@.len(),
            s == string_views(live@),
            forall|k: int| 0 <= k < i ==> s[k] != id@,
        decreases live.len() - i,
    {
        if same_text(&live[i], id) {
            assert(s[i as int] == id@);
            return true;
        }
        i += 1;
    }
    false
}

impl<T> ChatState<T> {
    /// How entry `index` is drawn and whether it is complete (see
    /// `spec_screen_entry`).
    pub fn screen_entry(&self, index: usize) -> (r: Option<(LiveEntryKind, bool)>)
        requires
            index < self.entries@.len(),
        ensures
            r == spec_screen_entry(
                self@.entries[index as int],
                self@.assistant_live,
                self@.reasoning_live,
            ),
    {
        assert(self@.entries[index as int] == crate::transcript::entry_view(self.entries@[index as int]));
        match &self.entries[index] {
            TranscriptEntry::User(_) => Some((LiveEntryKind::User, true)),
            TranscriptEntry::Streamed { kind: StreamKind::Assistant, id, agent_id, .. } => Some(
                (
                    if agent_id.is_some() {
                        LiveEntryKind::AssistantNested
                    } else {
                        LiveEntryKind::Assistant
                    },
                    !live_contains(&self.assistant_live, id),
                ),
            ),
            TranscriptEntry::Streamed { kind: StreamKind::Reasoning, id, .. } => Some(
                (LiveEntryKind::Other, !live_contains(&self.reasoning_live, id)),
            ),
            TranscriptEntry::Tool { state, unknown, agent_id, .. } => {
                let running = match state {
                    ToolCallState::Queued | ToolCallState::Running => true,
                    _ => false,
                };
                Some(
                    (
                        if agent_id.is_some() {
                            LiveEntryKind::ToolNested
                        } else {
                            LiveEntryKind::Tool
                        },
                        !running || *unknown,
                    ),
                )
            },
            TranscriptEntry::ToolProgress { agent_id, .. } => Some(
                (
                    if agent_id.is_some() {
                        LiveEntryKind::ToolNested
                    } else {
                        LiveEntryKind::Tool
                    },
                    false,
                ),
            ),
            TranscriptEntry::ToolResult { agent_id, .. } => Some(
                (
                    if agent_id.is_some() {
                        LiveEntryKind::ToolNested
                    } else {
                        LiveEntryKind::Tool
                    },
                    true,
                ),
            ),
            TranscriptEntry::Subagent { status, .. } => {
                let running = match status {
                    SubagentStatus::Running => true,
                    _ => false,
                };
                Some((LiveEntryKind::Other, !running))
            },
            TranscriptEntry::Completed => None,
            _ => Some((LiveEntryKind::Other, true)),
        }
    }
}

/// Once a turn has ended, every answer and every reasoning block it streamed is
/// drawn as complete.
pub proof fn law_streams_are_complete_after_a_turn<T>(v: ChatView<T>, now: u64, k: int)
    requires
        0 <= k < spec_apply(v, ChatUpdateView::Idle, now).entries.len(),
        spec_apply(v, ChatUpdateView::Idle, now).entries[k] is Streamed,
    ensures
        ({
            let w = spec_apply(v, ChatUpdateView::Idle, now);
            spec_screen_entry(w.entries[k], w.assistant_live, w.reasoning_live) matches Some(
                (_, complete),
            ) && complete
        }),
{
}

impl<T> ChatState<T> {
    /// Shows `model` as the current model.
    pub fn set_model(&mut self, model: Option<String>)
        ensures
            final(self)@ == (ChatView { model: model.deep_view(), ..old(self)@ }),
    {
        self.status.model = model;
    }

    /// Shows `reasoning_effort` as the current reasoning effort.
    pub fn set_reasoning_effort(&mut self, reasoning_effort: Option<String>)
        ensures
            final(self)@ == (ChatView { reasoning_effort: reasoning_effort.deep_view(), ..old(self)@ }),
    {
        self.status.reasoning_effort = reasoning_effort;
    }

    /// Whether the session is being re-established.
    pub fn set_reconnecting(&mut self, reconnecting: bool)
        ensures
            final(self)@ == (ChatView { reconnecting, ..old(self)@ }),
    {
        self.reconnecting = reconnecting;
    }

    /// Turns reduced motion on or off; turning it on reveals every character
    /// received so far at once.
    pub fn set_reduced_motion(&mut self, reduced_motion: bool)
        ensures
            final(self)@ == (ChatView {
                reduced_motion,
                spinner: if reduced_motion {
                    SpinnerClock {
                        displayed_characters: old(self)@.spinner.assistant_characters,
                        ..old(self)@.spinner
                    }
                } else {
                    old(self)@.spinner
                },
                ..old(self)@
            }),
    {
        self.reduced_motion = reduced_motion;
        if reduced_motion {
            self.spinner.displayed_characters = self.spinner.assistant_characters;
        }
    }

    /// Answers the oldest waiting approval with `decision` (see
    /// `ApprovalQueue::resolve`) and hands its request back; the picker closes once
    /// nothing waits any more. Nothing changes when nothing waits.
    pub fn resolve_approval(&mut self, decision: ApprovalDecision) -> (r: Option<T>)
        ensures
            old(self)@.waiting.len() == 0 ==> r is None && final(self)@ == old(self)@,
            old(self)@.waiting.len() > 0 ==> r == Some(old(self)@.waiting[0]) && final(self)@ == (
            ChatView {
                waiting: old(self)@.waiting.drop_first(),
                approval_statuses: old(self)@.approval_statuses.update(
                    first_pending(old(self)@.approval_statuses),
                    decided_status(decision),
                ),
                picker: if old(self)@.waiting.len() == 1 {
                    None
                } else {
                    old(self)@.picker
                },
                ..old(self)@
            }),
    {
        let r = self.approvals.resolve(decision);
        if r.is_some() && !self.approvals.is_waiting() {
            self.picker = None;
        }
        r
    }

    /// Takes the typed prompt for Enter: the input is left empty, and what the
    /// prompt asks for comes back (see `spec_submit_action`).
    pub fn take_submission(&mut self) -> (r: SubmitAction)
        ensures
            r@ == spec_submit_action(old(self)@.input),
            final(self)@ == (ChatView { input: Seq::empty(), ..old(self)@ }),
    {
        let mut prompt = String::new();
        std::mem::swap(&mut prompt, &mut self.input);
        submit_action(prompt.as_str())
    }

    /// Shows a banner without a link (see `spec_banner`); returns the requests that
    /// waited, oldest first, when a blocking error denied them.
    pub fn add_banner(&mut self, severity: BannerSeverity, message: String) -> (rejected: Vec<T>)
        ensures
            final(self)@ == spec_banner(old(self)@, severity, message@, None),
            rejected@ == if severity == BannerSeverity::BlockingError {
                old(self)@.waiting
            } else {
                Seq::empty()
            },
    {
        let mut rejected: Vec<T> = Vec::new();
        let blocking = match severity {
            BannerSeverity::BlockingError => true,
            _ => false,
        };
        if blocking {
            self.blocked = true;
            self.status.busy = false;
            self.spinner = SpinnerClock::idle();
            rejected = self.approvals.reject_all();
            self.picker = None;
        }
        let ghost before = entries_view(self.entries@);
        let ghost text = message@;
        self.entries.push(TranscriptEntry::Banner { severity, message, url: None });
        assert(entries_view(self.entries@) =~= before.push(
            EntryView::Banner { severity, message: text, url: None },
        ));
        rejected
    }

    /// Shows the output of a local command, a line each.
    pub fn add_local_output(&mut self, lines: Vec<String>)
        ensures
            final(self)@ == (ChatView {
                entries: old(self)@.entries.push(EntryView::LocalOutput(string_views(lines@))),
                ..old(self)@
            }),
    {
        let ghost before = entries_view(self.entries@);
        let ghost shown = string_views(lines@);
        self.entries.push(TranscriptEntry::LocalOutput(lines));
        assert(entries_view(self.entries@) =~= before.push(EntryView::LocalOutput(shown)));
    }

    /// Shows a debug message (drawn only with tool internals).
    pub fn add_diagnostic(&mut self, message: String)
        ensures
            final(self)@ == (ChatView {
                entries: old(self)@.entries.push(EntryView::Diagnostic(message@)),
                ..old(self)@
            }),
    {
        let ghost before = entries_view(self.entries@);
        let ghost shown = message@;
        self.entries.push(TranscriptEntry::Diagnostic(message));
        assert(entries_view(self.entries@) =~= before.push(EntryView::Diagnostic(shown)));
    }

    /// Echoes a local command such as `/status` the way a sent message shows.
    pub fn add_local_command(&mut self, command: String)
        ensures
            final(self)@ == (ChatView {
                entries: old(self)@.entries.push(EntryView::User(command@)),
                ..old(self)@
            }),
    {
        let ghost before = entries_view(self.entries@);
        let ghost shown = command@;
        self.entries.push(TranscriptEntry::User(command));
        assert(entries_view(self.entries@) =~= before.push(EntryView::User(shown)));
    }

    /// A tool request waits for the user's answer behind the others: its approval
    /// shows pending in the transcript (described by `category`, `tool_name` and
    /// `details`), and the approval picker opens.
    pub fn enqueue_approval(&mut self, request: T, category: String, tool_name: String, details: String)
        ensures
            final(self)@ == (ChatView {
                entries: old(self)@.entries.push(
                    EntryView::Approval {
                        category: category@,
                        tool_name: tool_name@,
                        details: details@,
                        slot: old(self)@.approval_statuses.len(),
                    },
                ),
                waiting: old(self)@.waiting.push(request),
                approval_statuses: old(self)@.approval_statuses.push(ApprovalStatus::Pending),
                picker: Some(PickerKind::Approval),
                ..old(self)@
            }),
    {
        let slot = self.approvals.statuses().len();
        let ghost before = entries_view(self.entries@);
        let ghost shown = EntryView::Approval {
            category: category@,
            tool_name: tool_name@,
            details: details@,
            slot: slot as nat,
        };
        self.entries.push(TranscriptEntry::Approval { category, tool_name, details, slot });
        assert(entries_view(self.entries@) =~= before.push(shown));
        self.approvals.enqueue(request);
        self.picker = Some(PickerKind::Approval);
    }

    /// Uses `toolset` from now on; the tool picker's ticks follow it.
    pub fn set_toolset(&mut self, toolset: Toolset)
        ensures
            final(self)@ == (ChatView { toolset: toolset@, picker_toolset: toolset@, ..old(self)@ }),
    {
        self.toolset = toolset;
        self.picker_toolset = toolset;
    }

    /// Opens the tool picker with the tools in use ticked; while an approval waits
    /// the ticks are reset but the picker stays as it was. Returns whether it
    /// opened.
    pub fn open_tool_picker(&mut self) -> (opened: bool)
        ensures
            opened == (old(self)@.waiting.len() == 0),
            final(self)@ == spec_open_tool_picker(old(self)@),
    {
        self.picker_toolset = self.toolset;
        if self.approvals.is_waiting() {
            false
        } else {
            self.picker = Some(PickerKind::Tools);
            true
        }
    }

    /// Space in the tool picker: flips the tick of the tool at `index` (the
    /// highlighted row). Nothing changes unless the tool picker is open.
    pub fn toggle_picker_tool(&mut self, index: usize)
        ensures
            final(self)@ == spec_tick_tools(old(self)@, flipped(old(self)@.picker_toolset, index as int)),
    {
        if self.picker == Some(PickerKind::Tools) {
            let _ = self.picker_toolset.toggle_at(index);
        }
    }

    /// `s` in the tool picker: only the shell ticked. Nothing changes unless the
    /// tool picker is open.
    pub fn choose_shell_only_tools(&mut self)
        ensures
            final(self)@ == spec_tick_tools(old(self)@, shell_ticked()),
    {
        if self.picker == Some(PickerKind::Tools) {
            self.picker_toolset = Toolset::shell_only();
        }
    }

    /// `a` in the tool picker: every tool ticked. Nothing changes unless the tool
    /// picker is open.
    pub fn choose_all_tools(&mut self)
        ensures
            final(self)@ == spec_tick_tools(old(self)@, all_ticked()),
    {
        if self.picker == Some(PickerKind::Tools) {
            self.picker_toolset = Toolset::all();
        }
    }

    /// Enter in the tool picker: the picker closes and the ticked tools come back,
    /// to be applied; the tools in use stay as they are until the session confirms
    /// them. With another picker open, or none, nothing changes.
    pub fn choose_tools(&mut self) -> (r: Option<Toolset>)
        ensures
            final(self)@ == spec_choose_tools(old(self)@).0,
            match r {
                Some(t) => spec_choose_tools(old(self)@).1 == Some(t@),
                None => spec_choose_tools(old(self)@).1 is None,
            },
    {
        if self.picker == Some(PickerKind::Tools) {
            self.picker = None;
            Some(self.picker_toolset)
        } else {
            None
        }
    }

    /// Esc in a picker: it closes without a choice and a note says what was kept
    /// (see `spec_cancel_outcome`; `models` are the listed models). With no picker
    /// open nothing changes.
    pub fn cancel_picker(&mut self, models: &Vec<ModelInfo>)
        ensures
            final(self)@ == match old(self)@.picker {
                None => old(self)@,
                Some(kind) => {
                    let closed = ChatView { picker: None, ..old(self)@ };
                    match spec_cancel_outcome(
                        kind,
                        models@,
                        old(self)@.model,
                        ticked_count(old(self)@.toolset),
                        TOOL_COUNT as nat,
                        old(self)@.skill_selection.len(),
                    ) {
                        Some(note) => ChatView {
                            entries: closed.entries.push(EntryView::LocalOutput(seq![note])),
                            ..closed
                        },
                        None => closed,
                    }
                },
            },
    {
        if let Some(kind) = self.picker {
            let enabled_tools = self.toolset.len();
            let current_model = match &self.status.model {
                Some(m) => Some(m.as_str()),
                None => None,
            };
            let enabled_skills = self.skill_selection.len();
            let note = picker_cancel_outcome(kind, models, current_model, enabled_tools, TOOL_COUNT, enabled_skills);
            self.picker = None;
            if let Some(note) = note {
                let ghost shown = note@;
                let lines = vec![note];
                assert(string_views(lines@) =~= seq![shown]);
                self.add_local_output(lines);
            }
        }
    }

    /// Types `c` at the end of the prompt.
    pub fn push_input(&mut self, c: char)
        ensures
            final(self)@ == (ChatView { input: old(self)@.input.push(c), ..old(self)@ }),
    {
        push_char(&mut self.input, c);
    }

    /// Backspace: the prompt's last character goes, if there is one.
    pub fn pop_input(&mut self)
        ensures
            final(self)@ == (ChatView { input: drop_last_char(old(self)@.input), ..old(self)@ }),
    {
        pop_char(&mut self.input);
    }

    /// Pasted text joins the end of the prompt with its line breaks made `\n`
    /// (see `normalized_newlines`).
    pub fn insert_paste(&mut self, text: &str)
        ensures
            final(self)@ == (ChatView { input: old(self)@.input + normalized_newlines(text@), ..old(self)@ }),
    {
        let cs = chars_of(text);
        let out = normalize_newlines(cs.as_slice());
        push_chars(&mut self.input, out.as_slice());
    }

    /// Ctrl+T while the to-do list shows: it hides and no refresh of it is pending.
    pub fn hide_todos(&mut self)
        ensures
            final(self)@ == (ChatView { show_todos: false, todo_refresh_requested: false, ..old(self)@ }),
    {
        self.show_todos = false;
        self.todo_refresh_requested = false;
    }

    /// Opens the picker `kind`; while an approval waits only the approval picker
    /// opens. Returns whether it opened.
    pub fn open_picker(&mut self, kind: PickerKind) -> (opened: bool)
        ensures
            opened == (kind == PickerKind::Approval || old(self)@.waiting.len() == 0),
            final(self)@ == if opened {
                ChatView { picker: Some(kind), ..old(self)@ }
            } else {
                old(self)@
            },
    {
        if kind != PickerKind::Approval && self.approvals.is_waiting() {
            false
        } else {
            self.picker = Some(kind);
            true
        }
    }

    /// The skills that can be enabled are `catalog`; the skill picker's ticks go
    /// back to the skills in use.
    pub fn set_skill_catalog(&mut self, catalog: SkillCatalog)
        ensures
            final(self)@ == (ChatView {
                skills: catalog@,
                picker_skill_selection: old(self)@.skill_selection,
                ..old(self)@
            }),
    {
        self.skills = catalog;
        self.picker_skill_selection = self.skill_selection.copied();
    }

    /// The session runs with the skills of `selection` that the catalog knows; the
    /// picker's ticks follow them.
    pub fn set_skill_selection(&mut self, selection: &SkillSelection)
        ensures
            final(self)@ == (ChatView {
                skill_selection: spec_known_skills(old(self)@.skills, selection@),
                picker_skill_selection: spec_known_skills(old(self)@.skills, selection@),
                ..old(self)@
            }),
    {
        self.skill_selection = selection.restricted_to(&self.skills);
        self.picker_skill_selection = self.skill_selection.copied();
    }

    /// Opens the skill picker with the skills in use ticked (see
    /// `spec_open_skill_picker`); returns whether it opened.
    pub fn open_skill_picker(&mut self) -> (opened: bool)
        ensures
            opened == (old(self)@.waiting.len() == 0),
            final(self)@ == spec_open_skill_picker(old(self)@),
    {
        self.picker_skill_selection = self.skill_selection.copied();
        if self.approvals.is_waiting() {
            false
        } else {
            self.picker = Some(PickerKind::Skills);
            true
        }
    }

    /// Space in the skill picker: flips the tick of the skill at `index` of the
    /// catalog (see `spec_toggle`); past the last skill nothing changes.
    pub fn toggle_picker_skill(&mut self, index: usize)
        ensures
            final(self)@ == if index < old(self)@.skills.len() {
                ChatView {
                    picker_skill_selection: spec_toggle(
                        old(self)@.picker_skill_selection,
                        old(self)@.skills,
                        old(self)@.skills[index as int].name,
                    ),
                    ..old(self)@
                }
            } else {
                old(self)@
            },
    {
        let skills = self.skills.skills();
        if index < skills.len() {
            let name = skills[index].name.clone();
            self.picker_skill_selection.toggle(&self.skills, name.as_str());
        }
    }

    /// `n` in the skill picker: nothing ticked. Nothing changes unless the skill
    /// picker is open.
    pub fn choose_no_skills(&mut self)
        ensures
            final(self)@ == spec_tick_skills(old(self)@, Set::empty()),
    {
        if self.picker == Some(PickerKind::Skills) {
            self.picker_skill_selection.clear();
        }
    }

    /// `a` in the skill picker: every skill of the catalog ticked. Nothing changes
    /// unless the skill picker is open.
    pub fn choose_all_skills(&mut self)
        ensures
            final(self)@ == spec_tick_skills(
                old(self)@,
                Set::new(|k: Seq<char>| catalog_has(old(self)@.skills, k)),
            ),
    {
        if self.picker == Some(PickerKind::Skills) {
            self.picker_skill_selection.select_all(&self.skills);
        }
    }

    /// Enter in the skill picker: it closes and the ticked skills come back, to be
    /// applied. With another picker open, or none, nothing changes.
    pub fn choose_skills(&mut self) -> (r: Option<SkillSelection>)
        ensures
            final(self)@ == if old(self)@.picker == Some(PickerKind::Skills) {
                ChatView { picker: None, ..old(self)@ }
            } else {
                old(self)@
            },
            match r {
                Some(s) => old(self)@.picker == Some(PickerKind::Skills) && s@ == old(self)@.picker_skill_selection,
                None => old(self)@.picker != Some(PickerKind::Skills),
            },
    {
        if self.picker == Some(PickerKind::Skills) {
            self.picker = None;
            Some(self.picker_skill_selection.copied())
        } else {
            None
        }
    }

    /// `/status` answered: the command is echoed and the status block follows as
    /// local output, each line its spans joined (see `spec_status_detail`).
    pub fn show_status(&mut self, facts: &StatusFacts)
        ensures
            final(self)@ == (ChatView {
                entries: old(self)@.entries.push(EntryView::User("/status"@)).push(
                    EntryView::LocalOutput(
                        spec_status_detail(*facts).map_values(|l: Seq<Seq<char>>| l.flatten_alt()),
                    ),
                ),
                ..old(self)@
            }),
    {
        self.add_local_command("/status".to_owned());
        let spans = status_detail_lines(facts);
        let ghost want = spec_status_detail(*facts).map_values(|l: Seq<Seq<char>>| l.flatten_alt());
        let mut lines: Vec<String> = Vec::new();
        let mut i: usize = 0;
        while i < spans.len()
            invariant
                i <= spans@.len(),
                lines_view(spans@) == spec_status_detail(*facts),
                want == spec_status_detail(*facts).map_values(|l: Seq<Seq<char>>| l.flatten_alt()),
                string_views(lines@) == want.take(i as int),
            decreases spans.len() - i,
        {
            let line = joined_spans(&spans[i]);
            let ghost before = string_views(lines@);
            assert(lines_view(spans@)[i as int] == string_views(spans@[i as int]@));
            lines.push(line);
            assert(want.take(i + 1) =~= want.take(i as int).push(want[i as int]));
            assert(string_views(lines@) =~= before.push(line@));
            i += 1;
        }
        assert(want.take(spans@.len() as int) =~= want);
        self.add_local_output(lines);
    }

    /// Shows or hides debug messages and internal details.
    pub fn toggle_internals(&mut self)
        ensures
            final(self)@ == (ChatView { show_internals: !old(self)@.show_internals, ..old(self)@ }),
    {
        self.show_internals = !self.show_internals;
    }

    /// Keeps the spending figures last loaded.
    pub fn set_usage_metrics(&mut self, metrics: UsageFacts)
        ensures
            final(self)@ == (ChatView { usage_metrics: Some(metrics), ..old(self)@ }),
    {
        self.usage_metrics = Some(metrics);
    }

    /// Keeps the context attribution last reported; its compaction count goes to
    /// the context warning (see `spec_observe`).
    pub fn set_context_attribution(&mut self, attribution: Option<AttributionFacts>)
        ensures
            final(self)@ == (ChatView {
                context_gate: spec_observe(
                    old(self)@.context_gate,
                    match attribution {
                        Some(a) => Some(a.compactions),
                        None => None,
                    },
                ),
                context_attribution: attribution,
                ..old(self)@
            }),
    {
        let compactions = match &attribution {
            Some(a) => Some(a.compactions),
            None => None,
        };
        self.context_gate.observe(compactions);
        self.context_attribution = attribution;
    }

    /// `/usage` answered: the command is echoed, the figures and attribution are
    /// kept (see `set_context_attribution`), and the usage block follows as local
    /// output (see `spec_usage_detail`).
    pub fn show_usage(&mut self, metrics: UsageFacts, attribution: Option<AttributionFacts>)
        ensures
            ({
                let v1 = ChatView {
                    entries: old(self)@.entries.push(EntryView::User("/usage"@)),
                    usage_metrics: Some(metrics),
                    context_gate: spec_observe(
                        old(self)@.context_gate,
                        match attribution {
                            Some(a) => Some(a.compactions),
                            None => None,
                        },
                    ),
                    context_attribution: attribution,
                    ..old(self)@
                };
                final(self)@ == (ChatView {
                    entries: v1.entries.push(
                        EntryView::LocalOutput(spec_usage_detail(Some(metrics), v1.usage, attribution)),
                    ),
                    ..v1
                })
            }),
    {
        self.add_local_command("/usage".to_owned());
        self.set_usage_metrics(metrics);
        self.set_context_attribution(attribution);
        let lines = usage_detail_lines(&self.usage_metrics, &self.status.usage, &self.context_attribution);
        self.add_local_output(lines);
    }

    /// After the connection dropped: every tool call without an outcome is marked
    /// unknown (see `spec_mark_unknown`).
    pub fn mark_in_flight_tools_unknown(&mut self)
        ensures
            final(self)@ == (ChatView { entries: spec_mark_unknown(old(self)@.entries), ..old(self)@ }),
    {
        let _ = mark_in_flight_tools_unknown(&mut self.entries);
    }
}

/// Opening the tool picker: its ticks go back to the tools in use, and it opens
/// unless an approval waits.
pub open spec fn spec_open_tool_picker<T>(v: ChatView<T>) -> ChatView<T> {
    ChatView {
        picker_toolset: v.toolset,
        picker: if v.waiting.len() == 0 {
            Some(PickerKind::Tools)
        } else {
            v.picker
        },
        ..v
    }
}

/// The tool picker's ticks become `ticks`, if it is open; otherwise nothing changes.
pub open spec fn spec_tick_tools<T>(v: ChatView<T>, ticks: Seq<bool>) -> ChatView<T> {
    if v.picker == Some(PickerKind::Tools) {
        ChatView { picker_toolset: ticks, ..v }
    } else {
        v
    }
}

/// Enter in the tool picker: it closes and hands back its ticks to be applied.
pub open spec fn spec_choose_tools<T>(v: ChatView<T>) -> (ChatView<T>, Option<Seq<bool>>) {
    if v.picker == Some(PickerKind::Tools) {
        (ChatView { picker: None, ..v }, Some(v.picker_toolset))
    } else {
        (v, None)
    }
}

/// The skills of `selection` that the catalog `skills` knows.
pub open spec fn spec_known_skills(skills: Seq<SkillView>, selection: Set<Seq<char>>) -> Set<Seq<char>> {
    Set::new(|k: Seq<char>| catalog_has(skills, k) && selection.contains(k))
}

/// Opening the skill picker: its ticks go back to the skills in use, and it opens
/// unless an approval waits.
pub open spec fn spec_open_skill_picker<T>(v: ChatView<T>) -> ChatView<T> {
    ChatView {
        picker_skill_selection: v.skill_selection,
        picker: if v.waiting.len() == 0 {
            Some(PickerKind::Skills)
        } else {
            v.picker
        },
        ..v
    }
}

/// The skill picker's ticks become `ticks`, if it is open; otherwise nothing
/// changes.
pub open spec fn spec_tick_skills<T>(v: ChatView<T>, ticks: Set<Seq<char>>) -> ChatView<T> {
    if v.picker == Some(PickerKind::Skills) {
        ChatView { picker_skill_selection: ticks, ..v }
    } else {
        v
    }
}

/// The tool picker only ever changes its own ticks: opening it, flipping a tool,
/// shell only, all tools and choosing leave the tools in use as they are, and what
/// choosing hands back is what was ticked last.
pub proof fn law_the_tool_picker_only_ticks<T>(v: ChatView<T>, ticks: Seq<bool>)
    ensures
        spec_open_tool_picker(v).toolset == v.toolset,
        spec_tick_tools(v, ticks).toolset == v.toolset,
        spec_choose_tools(v).0.toolset == v.toolset,
        v.picker == Some(PickerKind::Tools) ==> spec_choose_tools(spec_tick_tools(v, ticks)).1 == Some(ticks),
        v.waiting.len() == 0 ==> spec_choose_tools(spec_open_tool_picker(v)).1 == Some(v.toolset),
{
}

/// The skill picker only ever changes its own ticks: opening it and ticking leave
/// the skills in use as they are, and opening it ticks exactly those.
pub proof fn law_the_skill_picker_only_ticks<T>(v: ChatView<T>, ticks: Set<Seq<char>>)
    ensures
        spec_open_skill_picker(v).skill_selection == v.skill_selection,
        spec_open_skill_picker(v).picker_skill_selection == v.skill_selection,
        spec_tick_skills(v, ticks).skill_selection == v.skill_selection,
        v.picker == Some(PickerKind::Skills) ==> spec_tick_skills(v, ticks).picker_skill_selection == ticks,
{
}

/// The spans of a line joined into its text.
fn joined_spans(spans: &Vec<String>) -> (r: String)
    ensures
        r@ == string_views(spans@).flatten_alt(),
{
    let ghost views = string_views(spans@);
    let mut r = String::new();
    let mut i: usize = 0;
    assert(views.take(0) =~= Seq::<Seq<char>>::empty());
    while i < spans.len()
        invariant
            i <= spans@.len(),
            views == string_views(spans@),
            r@ == views.take(i as int).flatten_alt(),
        decreases spans.len() - i,
    {
        assert(views.take(i + 1).drop_last() =~= views.take(i as int));
        assert(views.take(i + 1).last() == spans@[i as int]@);
        push_str(&mut r, spans[i].as_str());
        i += 1;
    }
    assert(views.take(spans@.len() as int) =~= views);
    r
}

/// Text with each `\r\n` pair and each lone `\r` turned into `\n`.
pub open spec fn normalized_newlines(s: Seq<char>) -> Seq<char>
    decreases s.len(),
{
    if s.len() == 0 {
        Seq::empty()
    } else if s[0] == '\r' {
        seq!['\n'] + normalized_newlines(
            if s.len() > 1 && s[1] == '\n' {
                s.skip(2)
            } else {
                s.skip(1)
            },
        )
    } else {
        seq![s[0]] + normalized_newlines(s.skip(1))
    }
}

fn normalize_newlines(cs: &[char]) -> (out: Vec<char>)
    ensures
        out@ == normalized_newlines(cs@),
{
    let mut out: Vec<char> = Vec::new();
    let mut i: usize = 0;
    assert(cs@.skip(0) =~= cs@);
    while i < cs.len()
        invariant
            i <= cs@.len(),
            normalized_newlines(cs@) == out@ + normalized_newlines(cs@.skip(i as int)),
        decreases cs.len() - i,
    {
        let ghost rest = cs@.skip(i as int);
        assert(rest[0] == cs@[i as int]);
        if cs[i] == '\r' {
            out.push('\n');
            if i + 1 < cs.len() && cs[i + 1] == '\n' {
                assert(rest[1] == cs@[i + 1]);
                assert(rest.skip(2) =~= cs@.skip(i + 2));
                i = i + 2;
            } else {
                assert(rest.skip(1) =~= cs@.skip(i + 1));
                i = i + 1;
            }
        } else {
            out.push(cs[i]);
            assert(rest.skip(1) =~= cs@.skip(i + 1));
            i = i + 1;
        }
        assert(normalized_newlines(cs@) =~= out@ + normalized_newlines(cs@.skip(i as int)));
    }
    assert(cs@.skip(i as int) =~= Seq::<char>::empty());
    assert(out@ =~= out@ + normalized_newlines(cs@.skip(i as int)));
    out
}

/// A new conversation keeps the model and reasoning choice, the tool selection,
/// the internals toggle and the motion preference, and clears the transcript, usage, fleet state, everything that
/// waited, the open picker and the typed input.
pub proof fn law_a_new_conversation_keeps_preferences<T>(v: ChatView<T>)
    ensures
        ({
            let w = spec_new_conversation(v);
            &&& w.model == v.model
            &&& w.reasoning_effort == v.reasoning_effort
            &&& w.reduced_motion == v.reduced_motion
            &&& w.entries.len() == 0
            &&& w.awaiting_echo.len() == 0
            &&& w.usage is None
            &&& !w.fleet_active
            &&& !w.busy
            &&& !w.blocked
            &&& !w.reconnecting
            &&& w.todos is None
            &&& w.waiting.len() == 0
            &&& w.picker is None
            &&& w.input.len() == 0
            &&& w.toolset == v.toolset
            &&& w.picker_toolset == v.toolset
            &&& w.show_internals == v.show_internals
            &&& w.usage_metrics is None
            &&& w.context_attribution is None
            &&& w.skill_selection.len() == 0
            &&& w.skills == v.skills
        }),
{
}

} // verus!
