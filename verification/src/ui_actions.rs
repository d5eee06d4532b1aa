//! What the chat window does around each request it makes of the session on the
//! user's behalf. Before the request, a tool or skill change is refused with a
//! banner unless the session is idle; otherwise the session shows as reconnecting
//! while the change is applied. After the request, whatever came back moves the
//! chat to its next state: the confirmation or the change it brings, or the
//! failure told where it belongs, and whether the session must be re-established.
//! The caller makes the requests and carries out the follow-up.

use vstd::prelude::*;
use crate::chat::{spec_banner, spec_new_conversation, ChatState, ChatView};
use crate::notices::{notice_surface, notice_text, spec_notice_text, Notice, NoticeSurface};
use crate::picker::PickerKind;
use crate::session_flow::{after_failure, spec_failure_notice, told, SessionRequest};
use crate::transcript::EntryView;
use crate::transcript_text::BannerSeverity;
use crate::toolset::{ticked_count, Toolset, TOOL_COUNT};
use crate::skills::SkillSelection;
use crate::chat::spec_known_skills;

verus! {

/// A request the chat window made of the session, with what the caller learned
/// from a successful answer.
pub enum UiActionKind {
    LoadSessions,
    NewConversation,
    Resume,
    /// Switching to `model`, shown as `name`, with `reasoning_effort` shown.
    SwitchModel { model: String, name: String, reasoning_effort: Option<String> },
    /// Applying a tool selection; `active` is the selection the session runs with
    /// once it is applied.
    ApplyToolset { active: Toolset },
    /// Applying a skill selection; `active` is the selection the session runs with
    /// once it is applied.
    ApplySkills { active: SkillSelection },
    /// Enabling the skill a prompt invokes, before the prompt is sent.
    ActivateInvokedSkill,
    Send,
    /// Starting a fleet run; `fleet` tells whether Fleet took the prompt (else a
    /// single agent did).
    StartFleet { fleet: bool },
    LoadTodos,
}

/// How a request came back.
pub enum ActionOutcome {
    Done,
    /// It failed with `error`; `transport` tells whether the connection was lost.
    Failed { transport: bool, error: String },
}

/// What the caller does next.
pub struct FollowUp<T> {
    /// Re-establish the session.
    pub recover: bool,
    /// Requests that waited for an approval and were denied (a blocking error
    /// ended the session), oldest first: each is answered with a denial.
    pub denied: Vec<T>,
}

/// The request an action makes.
pub open spec fn request_of(a: UiActionKind) -> SessionRequest {
    match a {
        UiActionKind::LoadSessions => SessionRequest::ListSessions,
        UiActionKind::NewConversation => SessionRequest::NewConversation,
        UiActionKind::Resume => SessionRequest::Resume,
        UiActionKind::SwitchModel { .. } => SessionRequest::SwitchModel,
        UiActionKind::ApplyToolset { .. } => SessionRequest::SetToolset,
        UiActionKind::ApplySkills { .. } => SessionRequest::SetSkills,
        UiActionKind::ActivateInvokedSkill => SessionRequest::ActivateInvokedSkill,
        UiActionKind::Send => SessionRequest::Send,
        UiActionKind::StartFleet { .. } => SessionRequest::StartFleet,
        UiActionKind::LoadTodos => SessionRequest::LoadTodos,
    }
}

/// Whether an action changes the tools or skills of the session.
pub open spec fn changes_selection(a: UiActionKind) -> bool {
    ||| a is ApplyToolset
    ||| a is ApplySkills
    ||| a is ActivateInvokedSkill
}

/// Tools and skills change only while the session is idle: not blocked, not
/// reconnecting, no turn in flight, no approval waiting.
pub open spec fn selection_blocked<T>(v: ChatView<T>) -> bool {
    v.blocked || v.reconnecting || v.busy || v.waiting.len() > 0
}

/// The banner that refuses a change while the session is not idle.
pub open spec fn needs_idle(a: UiActionKind) -> Notice {
    match a {
        UiActionKind::ApplyToolset { .. } => Notice::ToolsNeedIdle,
        UiActionKind::ApplySkills { .. } => Notice::SkillsNeedIdle,
        _ => Notice::InvokedSkillNeedsIdle,
    }
}

/// What is told, added to the chat: a banner (a blocking one ends the session),
/// local command output, or a debug message.
pub open spec fn spec_tell<T>(v: ChatView<T>, t: Option<(NoticeSurface, Seq<char>)>) -> ChatView<T> {
    match t {
        None => v,
        Some(t) => match t.0 {
            NoticeSurface::Banner(severity) => spec_banner(v, severity, t.1, None),
            NoticeSurface::LocalOutput => ChatView {
                entries: v.entries.push(EntryView::LocalOutput(seq![t.1])),
                ..v
            },
            NoticeSurface::Diagnostic => ChatView { entries: v.entries.push(EntryView::Diagnostic(t.1)), ..v },
        },
    }
}

/// Before a request: a tool or skill change while the session is not idle is
/// refused with its banner; an allowed change shows the session reconnecting;
/// every other request goes ahead with nothing changed. The flag says whether
/// the request goes ahead.
pub open spec fn spec_begin_ui_action<T>(v: ChatView<T>, a: UiActionKind) -> (ChatView<T>, bool) {
    if changes_selection(a) {
        if selection_blocked(v) {
            (spec_tell(v, told(Some(needs_idle(a)))), false)
        } else {
            (ChatView { reconnecting: true, ..v }, true)
        }
    } else {
        (v, true)
    }
}

/// A fleet run starting or ending: the to-do list hides and the picker closes; a
/// start also forgets the list and any pending refresh of it.
pub open spec fn spec_fleet_set<T>(v: ChatView<T>, active: bool) -> ChatView<T> {
    ChatView {
        fleet_active: active,
        todos: if active {
            None
        } else {
            v.todos
        },
        show_todos: false,
        todo_refresh_requested: if active {
            false
        } else {
            v.todo_refresh_requested
        },
        picker: None,
        ..v
    }
}

/// After a request succeeded: sessions open in their picker (unless an approval
/// waits), a new conversation starts and says so, a resumed session says so, a
/// model switch shows the model and its reasoning effort and confirms it, a tool
/// or skill change puts what the session runs with in use (skills the catalog
/// does not know are left out) and is confirmed with its count, a sent prompt ends any fleet run,
/// and a fleet start records whether Fleet took the prompt.
pub open spec fn spec_done<T>(v: ChatView<T>, a: UiActionKind) -> ChatView<T> {
    match a {
        UiActionKind::LoadSessions => if v.waiting.len() > 0 {
            v
        } else {
            ChatView { picker: Some(PickerKind::Sessions), ..v }
        },
        UiActionKind::NewConversation => spec_tell(
            spec_new_conversation(v),
            told(Some(Notice::NewConversationStarted)),
        ),
        UiActionKind::Resume => spec_tell(v, told(Some(Notice::SessionResumed))),
        UiActionKind::SwitchModel { model, name, reasoning_effort } => spec_tell(
            ChatView { model: Some(model@), reasoning_effort: reasoning_effort.deep_view(), ..v },
            told(Some(Notice::ModelSet { name })),
        ),
        UiActionKind::ApplyToolset { active } => spec_tell(
            ChatView { toolset: active@, picker_toolset: active@, ..v },
            told(Some(Notice::ToolsSet { enabled: ticked_count(active@) as u64, total: TOOL_COUNT as u64 })),
        ),
        UiActionKind::ApplySkills { active } => {
            let known = spec_known_skills(v.skills, active@);
            spec_tell(
                ChatView { skill_selection: known, picker_skill_selection: known, ..v },
                told(Some(Notice::SkillsSet { enabled: known.len() as u64 })),
            )
        },
        UiActionKind::Send => spec_fleet_set(v, false),
        UiActionKind::StartFleet { fleet } => spec_fleet_set(v, fleet),
        _ => v,
    }
}

/// After a request came back. A tool or skill change first ends the reconnecting
/// state. Success brings its change (see `spec_done`). A failure changes nothing
/// else (a refused tool or skill change leaves the selection as it was) but what
/// `spec_failure_notice` tells: a lost connection is re-established, any other
/// error is told, a failed send as a blocking error.
pub open spec fn spec_after_ui_action<T>(v: ChatView<T>, a: UiActionKind, o: ActionOutcome) -> ChatView<T> {
    let v0 = if changes_selection(a) {
        ChatView { reconnecting: false, ..v }
    } else {
        v
    };
    match o {
        ActionOutcome::Done => spec_done(v0, a),
        ActionOutcome::Failed { transport, error } => spec_tell(
            v0,
            spec_failure_notice(request_of(a), transport, error@),
        ),
    }
}

/// Whether the session must be re-established: exactly when the connection was
/// lost.
pub open spec fn spec_recovers(o: ActionOutcome) -> bool {
    o matches ActionOutcome::Failed { transport, .. } && transport
}

/// The approvals a request denied: all that waited when a new conversation
/// started or a failed send blocked the session, none otherwise.
pub open spec fn spec_denied<T>(v: ChatView<T>, a: UiActionKind, o: ActionOutcome) -> Seq<T> {
    match o {
        ActionOutcome::Done => if a is NewConversation {
            v.waiting
        } else {
            Seq::empty()
        },
        ActionOutcome::Failed { transport, error } => match spec_failure_notice(request_of(a), transport, error@) {
            Some(t) => if t.0 == NoticeSurface::Banner(BannerSeverity::BlockingError) {
                v.waiting
            } else {
                Seq::empty()
            },
            None => Seq::empty(),
        },
    }
}

fn is_selection_change(a: &UiActionKind) -> (b: bool)
    ensures
        b == changes_selection(*a),
{
    match a {
        UiActionKind::ApplyToolset { .. } => true,
        UiActionKind::ApplySkills { .. } => true,
        UiActionKind::ActivateInvokedSkill => true,
        _ => false,
    }
}

fn request_for(a: &UiActionKind) -> (r: SessionRequest)
    ensures
        r == request_of(*a),
{
    match a {
        UiActionKind::LoadSessions => SessionRequest::ListSessions,
        UiActionKind::NewConversation => SessionRequest::NewConversation,
        UiActionKind::Resume => SessionRequest::Resume,
        UiActionKind::SwitchModel { .. } => SessionRequest::SwitchModel,
        UiActionKind::ApplyToolset { .. } => SessionRequest::SetToolset,
        UiActionKind::ApplySkills { .. } => SessionRequest::SetSkills,
        UiActionKind::ActivateInvokedSkill => SessionRequest::ActivateInvokedSkill,
        UiActionKind::Send => SessionRequest::Send,
        UiActionKind::StartFleet { .. } => SessionRequest::StartFleet,
        UiActionKind::LoadTodos => SessionRequest::LoadTodos,
    }
}

/// Adds what a notice tells to the chat; returns the approvals a blocking banner
/// denied.
fn tell<T>(state: &mut ChatState<T>, notice: Option<Notice>) -> (denied: Vec<T>)
    ensures
        final(state)@ == spec_tell(old(state)@, told(notice)),
        denied@ == match told(notice) {
            Some(t) => if t.0 == NoticeSurface::Banner(BannerSeverity::BlockingError) {
                old(state)@.waiting
            } else {
                Seq::empty()
            },
            None => Seq::empty(),
        },
{
    match notice {
        None => Vec::new(),
        Some(n) => {
            let surface = notice_surface(&n);
            let text = notice_text(&n);
            match surface {
                NoticeSurface::Banner(severity) => state.add_banner(severity, text),
                NoticeSurface::LocalOutput => {
                    let ghost shown = text@;
                    let lines = vec![text];
                    assert(crate::text::string_views(lines@) =~= seq![shown]);
                    state.add_local_output(lines);
                    Vec::new()
                },
                NoticeSurface::Diagnostic => {
                    state.add_diagnostic(text);
                    Vec::new()
                },
            }
        },
    }
}

/// Before a request (see `spec_begin_ui_action`); returns whether it goes ahead.
pub fn begin_ui_action<T>(state: &mut ChatState<T>, action: &UiActionKind) -> (go: bool)
    ensures
        (final(state)@, go) == spec_begin_ui_action(old(state)@, *action),
{
    if !is_selection_change(action) {
        return true;
    }
    if state.selection_change_is_blocked() {
        let notice = match action {
            UiActionKind::ApplyToolset { .. } => Notice::ToolsNeedIdle,
            UiActionKind::ApplySkills { .. } => Notice::SkillsNeedIdle,
            _ => Notice::InvokedSkillNeedsIdle,
        };
        let _ = tell(state, Some(notice));
        false
    } else {
        state.set_reconnecting(true);
        true
    }
}

/// After a request came back (see `spec_after_ui_action`, `spec_recovers` and
/// `spec_denied`).
pub fn after_ui_action<T>(state: &mut ChatState<T>, action: UiActionKind, outcome: ActionOutcome) -> (next: FollowUp<T>)
    ensures
        final(state)@ == spec_after_ui_action(old(state)@, action, outcome),
        next.recover == spec_recovers(outcome),
        next.denied@ == spec_denied(old(state)@, action, outcome),
{
    if is_selection_change(&action) {
        state.set_reconnecting(false);
    }
    let request = request_for(&action);
    match outcome {
        ActionOutcome::Failed { transport, error } => {
            let step = after_failure(request, transport, error);
            let denied = tell(state, step.notice);
            FollowUp { recover: step.recover, denied }
        },
        ActionOutcome::Done => {
            match action {
                UiActionKind::LoadSessions => {
                    if !state.approvals.is_waiting() {
                        state.picker = Some(PickerKind::Sessions);
                    }
                },
                UiActionKind::NewConversation => {
                    let denied = state.reset_for_new_conversation();
                    let _ = tell(state, Some(Notice::NewConversationStarted));
                    return FollowUp { recover: false, denied };
                },
                UiActionKind::Resume => {
                    let _ = tell(state, Some(Notice::SessionResumed));
                },
                UiActionKind::SwitchModel { model, name, reasoning_effort } => {
                    state.set_model(Some(model));
                    state.set_reasoning_effort(reasoning_effort);
                    let _ = tell(state, Some(Notice::ModelSet { name }));
                },
                UiActionKind::ApplyToolset { active } => {
                    state.set_toolset(active);
                    let enabled = active.len() as u64;
                    let _ = tell(state, Some(Notice::ToolsSet { enabled, total: TOOL_COUNT as u64 }));
                },
                UiActionKind::ApplySkills { active } => {
                    state.set_skill_selection(&active);
                    let enabled = state.skill_selection.len() as u64;
                    let _ = tell(state, Some(Notice::SkillsSet { enabled }));
                },
                UiActionKind::Send => state.set_fleet_active(false),
                UiActionKind::StartFleet { fleet } => state.set_fleet_active(fleet),
                _ => {},
            }
            FollowUp { recover: false, denied: Vec::new() }
        },
    }
}


/// A tool or skill change asked for while the session is not idle does not go
/// ahead: only its banner is added, and nothing else changes.
pub proof fn law_changes_wait_for_idle<T>(v: ChatView<T>, a: UiActionKind)
    requires
        changes_selection(a),
        selection_blocked(v),
    ensures
        !spec_begin_ui_action(v, a).1,
        spec_begin_ui_action(v, a).0 == spec_banner(
            v,
            BannerSeverity::RecoverableError,
            spec_notice_text(needs_idle(a)),
            None,
        ),
{
}

/// A tool or skill change that went ahead and then failed is rolled back: the
/// chat is as it was before, with the error's banner added.
pub proof fn law_failed_changes_roll_back<T>(v: ChatView<T>, a: UiActionKind, error: String)
    requires
        changes_selection(a),
        !selection_blocked(v),
    ensures
        spec_begin_ui_action(v, a).1,
        spec_after_ui_action(
            spec_begin_ui_action(v, a).0,
            a,
            ActionOutcome::Failed { transport: false, error },
        ) == spec_banner(v, BannerSeverity::RecoverableError, error@, None),
{
    let begun = spec_begin_ui_action(v, a).0;
    assert(ChatView { reconnecting: false, ..begun } == v);
}

/// A lost connection during any request but a usage one leaves the chat as it was
/// (apart from ending a change's reconnecting state) and asks for recovery.
pub proof fn law_lost_connections_only_recover<T>(v: ChatView<T>, a: UiActionKind, error: String)
    ensures
        spec_recovers(ActionOutcome::Failed { transport: true, error }),
        spec_after_ui_action(v, a, ActionOutcome::Failed { transport: true, error }) == if changes_selection(a) {
            ChatView { reconnecting: false, ..v }
        } else {
            v
        },
        spec_denied(v, a, ActionOutcome::Failed { transport: true, error }) == Seq::<T>::empty(),
{
}

/// A new conversation that started clears the transcript, usage figures, the
/// picker and the typed input, keeps the model, reasoning effort, tool selection,
/// internals toggle and motion preference, denies every waiting approval and says that it started.
pub proof fn law_new_conversations_start_clean<T>(v: ChatView<T>)
    ensures
        ({
            let w = spec_after_ui_action(v, UiActionKind::NewConversation, ActionOutcome::Done);
            &&& w.entries == seq![EntryView::Diagnostic("new conversation started"@)]
            &&& w.picker is None
            &&& w.input.len() == 0
            &&& w.model == v.model
            &&& w.reasoning_effort == v.reasoning_effort
            &&& w.reduced_motion == v.reduced_motion
            &&& w.waiting.len() == 0
            &&& !w.busy && !w.blocked && !w.reconnecting && !w.fleet_active
            &&& w.usage is None
            &&& w.todos is None
            &&& w.toolset == v.toolset
            &&& w.show_internals == v.show_internals
            &&& w.usage_metrics is None
            &&& w.context_attribution is None
        }),
        spec_denied(v, UiActionKind::NewConversation, ActionOutcome::Done) == v.waiting,
{
}

/// A tool change applied while idle leaves the session's tools in use, the picker's
/// ticks following them, the reconnecting state over, and a note with their count.
pub proof fn law_applied_tools_are_in_use<T>(v: ChatView<T>, active: Toolset)
    requires
        !selection_blocked(v),
    ensures
        ({
            let a = UiActionKind::ApplyToolset { active };
            let w = spec_after_ui_action(spec_begin_ui_action(v, a).0, a, ActionOutcome::Done);
            &&& spec_begin_ui_action(v, a).1
            &&& w.toolset == active@
            &&& w.picker_toolset == active@
            &&& !w.reconnecting
            &&& w.entries == v.entries.push(
                EntryView::LocalOutput(seq![spec_notice_text(Notice::ToolsSet {
                    enabled: ticked_count(active@) as u64,
                    total: TOOL_COUNT as u64,
                })]),
            )
        }),
{
}

} // verus!
