//! What a key press asks of the chat window: the routing of keys between the
//! open picker, the completion list and the prompt, and what a submitted prompt
//! asks for (a message, a fleet run or a local command).

use vstd::prelude::*;
use crate::picker::{ApprovalDecision, PickerKind, MAX_PICKER_ROWS};
use crate::text::{
    char_is_white_space, chars_equal, chars_of, copy_range, is_white_space, push_chars, push_str,
    starts_with, string_from_chars, trim, trim_bounds, trim_chars, trim_end, trim_start,
    trim_start_index,
};

verus! {

/// A key, as the chat window tells keys apart.
#[derive(Debug, Clone, Copy, PartialEq, Eq, Structural)]
pub enum Key {
    Char(char),
    Enter,
    Esc,
    Tab,
    Backspace,
    Delete,
    Up,
    Down,
    Left,
    Right,
    Home,
    End,
    PageUp,
    PageDown,
    Other,
}

/// The modifier keys held with a key; `other` stands for any modifier besides
/// shift, control and alt.
#[derive(Debug, Clone, Copy, PartialEq, Eq, Structural)]
pub struct Modifiers {
    pub shift: bool,
    pub control: bool,
    pub alt: bool,
    pub other: bool,
}

/// One key event: the key, its modifiers, and whether it was a press (and not a
/// release or a repeat).
#[derive(Debug, Clone, Copy, PartialEq, Eq, Structural)]
pub struct KeyPress {
    pub key: Key,
    pub modifiers: Modifiers,
    pub press: bool,
}

/// What the chat window knows when a key arrives.
#[derive(Debug, Clone, Copy, PartialEq, Eq, Structural)]
pub struct KeyContext {
    /// The picker that is open, if any.
    pub picker: Option<PickerKind>,
    /// A fatal error ended the session: only quitting is left.
    pub blocked: bool,
    /// The session is being re-established.
    pub reconnecting: bool,
    /// The slash-command completion list is showing.
    pub completion_open: bool,
    /// A turn is in flight.
    pub busy: bool,
    /// A fleet run is active, so its to-do list can be shown.
    pub fleet_active: bool,
    /// The to-do list is showing.
    pub show_todos: bool,
    /// The terminal reports a physically held shift key.
    pub shift_held: bool,
    /// Rows of the open picker.
    pub picker_items: usize,
    /// The pending approval can be trusted for the rest of the session.
    pub approval_supports_trust: bool,
}

/// What a key asks of the chat window.
#[derive(Debug, Clone, Copy, PartialEq, Eq, Structural)]
pub enum KeyCommand {
    /// Nothing happens.
    Ignore,
    Quit,
    NewConversation,
    LoadSessions,
    LoadModels,
    LoadUsage,
    LoadTodos,
    LoadTools,
    LoadSkills,
    /// Hide the to-do list and drop any pending refresh of it.
    HideTodos,
    /// Show or hide tool internals in the transcript.
    ToggleInternals,
    DismissCompletion,
    /// Move the completion highlight by one row (down when `true`).
    MoveCompletion(bool),
    AcceptCompletion,
    InputUp,
    InputDown,
    InputLeft,
    InputRight,
    InputHome,
    InputEnd,
    InputDelete,
    InputBackspace,
    InsertNewline,
    Insert(char),
    /// Take the prompt and act on it (see `submit_command`).
    Submit,
    CancelPicker,
    /// Move the picker highlight by this many rows.
    MovePicker(isize),
    /// Step the model picker's reasoning effort (`true`) or context tier.
    CyclePickerOption(bool),
    ToggleTool,
    ShellOnlyTools,
    AllTools,
    ToggleSkill,
    NoSkills,
    AllSkills,
    /// Highlight this row, then toggle it.
    PickAndToggle(usize),
    /// Highlight this row, then choose it.
    PickAndChoose(usize),
    ChooseSelected,
    Approve(ApprovalDecision),
}

/// No modifier is held.
pub open spec fn no_modifiers(m: Modifiers) -> bool {
    !m.shift && !m.control && !m.alt && !m.other
}

/// Control, and nothing else, is held.
pub open spec fn control_only(m: Modifiers) -> bool {
    !m.shift && m.control && !m.alt && !m.other
}

/// The control chord `c`: `c` pressed with control alone.
pub open spec fn is_control_chord(k: KeyPress, c: char) -> bool {
    k.key == Key::Char(c) && control_only(k.modifiers)
}

/// Enter starts a new prompt line when shift is part of the chord or is held.
pub open spec fn spec_is_multiline_enter(k: KeyPress, shift_held: bool) -> bool {
    k.key == Key::Enter && (k.modifiers.shift || shift_held)
}

/// Keys while no picker is open, and the session is neither blocked nor
/// reconnecting, nor the completion list consuming the key.
pub open spec fn prompt_key_command(k: KeyPress, ctx: KeyContext) -> KeyCommand {
    let m = k.modifiers;
    match k.key {
        Key::Char(c) => if control_only(m) && (c == 'x' || c == 'c') {
            KeyCommand::Quit
        } else if control_only(m) && c == 'n' && !ctx.busy {
            KeyCommand::NewConversation
        } else if control_only(m) && c == 'o' {
            KeyCommand::LoadSessions
        } else if control_only(m) && c == 'p' {
            KeyCommand::LoadModels
        } else if control_only(m) && c == 'u' {
            KeyCommand::LoadUsage
        } else if control_only(m) && c == 't' && ctx.fleet_active {
            if ctx.show_todos {
                KeyCommand::HideTodos
            } else {
                KeyCommand::LoadTodos
            }
        } else if control_only(m) && c == 'i' {
            KeyCommand::ToggleInternals
        } else if m.control && !m.alt {
            KeyCommand::Ignore
        } else {
            KeyCommand::Insert(c)
        },
        Key::Up => KeyCommand::InputUp,
        Key::Down => KeyCommand::InputDown,
        Key::Left => KeyCommand::InputLeft,
        Key::Right => KeyCommand::InputRight,
        Key::Home => KeyCommand::InputHome,
        Key::End => KeyCommand::InputEnd,
        Key::Delete => KeyCommand::InputDelete,
        Key::Enter => if spec_is_multiline_enter(k, ctx.shift_held) {
            KeyCommand::InsertNewline
        } else {
            KeyCommand::Submit
        },
        Key::Backspace => KeyCommand::InputBackspace,
        _ => KeyCommand::Ignore,
    }
}

/// Keys the approval picker answers before the general picker keys.
pub open spec fn approval_key_command(k: KeyPress, supports_trust: bool) -> Option<KeyCommand> {
    if k.key == Key::Char('y') {
        Some(KeyCommand::Approve(ApprovalDecision::ApproveOnce))
    } else if k.key == Key::Char('n') && no_modifiers(k.modifiers) {
        Some(KeyCommand::Approve(ApprovalDecision::Deny))
    } else if k.key == Key::Char('a') && supports_trust {
        Some(KeyCommand::Approve(ApprovalDecision::Trust))
    } else if is_control_chord(k, 'k') {
        Some(KeyCommand::Ignore)
    } else if k.key == Key::Esc {
        Some(KeyCommand::Approve(ApprovalDecision::Deny))
    } else {
        None
    }
}

/// Keys while the picker `kind` is open.
pub open spec fn picker_key_command(k: KeyPress, kind: PickerKind, ctx: KeyContext) -> KeyCommand {
    let m = k.modifiers;
    let approval = if kind == PickerKind::Approval {
        approval_key_command(k, ctx.approval_supports_trust)
    } else {
        None
    };
    if approval is Some {
        approval->0
    } else {
        match k.key {
            Key::Esc => KeyCommand::CancelPicker,
            Key::Up => KeyCommand::MovePicker(-1isize),
            Key::Down => KeyCommand::MovePicker(1isize),
            Key::PageUp => KeyCommand::MovePicker((-(MAX_PICKER_ROWS as int)) as isize),
            Key::PageDown => KeyCommand::MovePicker(MAX_PICKER_ROWS as isize),
            Key::Left => if kind == PickerKind::Models {
                KeyCommand::CyclePickerOption(true)
            } else {
                KeyCommand::Ignore
            },
            Key::Right => if kind == PickerKind::Models {
                KeyCommand::CyclePickerOption(false)
            } else {
                KeyCommand::Ignore
            },
            Key::Enter => KeyCommand::ChooseSelected,
            Key::Char(c) => if (c == 'k' || c == 'j') && no_modifiers(m) {
                KeyCommand::MovePicker(
                    if c == 'k' {
                        -1isize
                    } else {
                        1isize
                    },
                )
            } else if c == 'p' && control_only(m) {
                KeyCommand::MovePicker(-1isize)
            } else if c == 'n' && control_only(m) {
                KeyCommand::MovePicker(1isize)
            } else if c == ' ' && kind == PickerKind::Tools {
                KeyCommand::ToggleTool
            } else if c == ' ' && kind == PickerKind::Skills {
                KeyCommand::ToggleSkill
            } else if c == 's' && kind == PickerKind::Tools {
                KeyCommand::ShellOnlyTools
            } else if c == 'a' && kind == PickerKind::Tools {
                KeyCommand::AllTools
            } else if c == 'n' && kind == PickerKind::Skills && no_modifiers(m) {
                KeyCommand::NoSkills
            } else if c == 'a' && kind == PickerKind::Skills && no_modifiers(m) {
                KeyCommand::AllSkills
            } else if '1' <= c <= '9' {
                let index = (c as u32) - ('1' as u32);
                if index >= ctx.picker_items {
                    KeyCommand::Ignore
                } else if kind == PickerKind::Tools || kind == PickerKind::Skills {
                    KeyCommand::PickAndToggle(index as usize)
                } else {
                    KeyCommand::PickAndChoose(index as usize)
                }
            } else {
                KeyCommand::Ignore
            },
            _ => KeyCommand::Ignore,
        }
    }
}

/// What the key `k` asks of the chat window in the state `ctx`.
pub open spec fn spec_key_command(k: KeyPress, ctx: KeyContext) -> KeyCommand {
    if !k.press {
        KeyCommand::Ignore
    } else if ctx.picker is Some {
        picker_key_command(k, ctx.picker->0, ctx)
    } else if is_control_chord(k, 'k') {
        if ctx.blocked {
            KeyCommand::Ignore
        } else {
            KeyCommand::LoadTools
        }
    } else if is_control_chord(k, 's') {
        if ctx.blocked {
            KeyCommand::Ignore
        } else {
            KeyCommand::LoadSkills
        }
    } else if ctx.reconnecting {
        KeyCommand::Ignore
    } else if ctx.blocked {
        if is_control_chord(k, 'x') || is_control_chord(k, 'c') {
            KeyCommand::Quit
        } else {
            KeyCommand::Ignore
        }
    } else if ctx.completion_open && k.key == Key::Esc {
        KeyCommand::DismissCompletion
    } else if ctx.completion_open && k.key == Key::Up {
        KeyCommand::MoveCompletion(false)
    } else if ctx.completion_open && k.key == Key::Down {
        KeyCommand::MoveCompletion(true)
    } else if ctx.completion_open && k.key == Key::Tab {
        KeyCommand::AcceptCompletion
    } else {
        prompt_key_command(k, ctx)
    }
}

fn modifiers_are_none(m: Modifiers) -> (b: bool)
    ensures
        b == no_modifiers(m),
{
    !m.shift && !m.control && !m.alt && !m.other
}

fn modifiers_are_control_only(m: Modifiers) -> (b: bool)
    ensures
        b == control_only(m),
{
    !m.shift && m.control && !m.alt && !m.other
}

/// Whether pasted text goes into the prompt: not while a picker holds the keys (a
/// waiting approval shows as the approval picker), nor while the session is
/// blocked or reconnecting.
pub open spec fn spec_accepts_paste(ctx: KeyContext) -> bool {
    ctx.picker is None && !ctx.blocked && !ctx.reconnecting
}

/// Whether a paste reaches the prompt in this state.
pub fn accepts_paste(ctx: &KeyContext) -> (b: bool)
    ensures
        b == spec_accepts_paste(*ctx),
{
    match ctx.picker {
        Some(_) => false,
        None => !ctx.blocked && !ctx.reconnecting,
    }
}

/// Whether Enter, with these modifiers and this state of the physical shift key,
/// starts a new prompt line instead of submitting.
pub fn is_multiline_enter(k: KeyPress, shift_held: bool) -> (b: bool)
    ensures
        b == spec_is_multiline_enter(k, shift_held),
{
    match k.key {
        Key::Enter => k.modifiers.shift || shift_held,
        _ => false,
    }
}

fn prompt_key(k: KeyPress, ctx: KeyContext) -> (r: KeyCommand)
    ensures
        r == prompt_key_command(k, ctx),
{
    let m = k.modifiers;
    let control = modifiers_are_control_only(m);
    match k.key {
        Key::Char(c) => {
            if control && (c == 'x' || c == 'c') {
                KeyCommand::Quit
            } else if control && c == 'n' && !ctx.busy {
                KeyCommand::NewConversation
            } else if control && c == 'o' {
                KeyCommand::LoadSessions
            } else if control && c == 'p' {
                KeyCommand::LoadModels
            } else if control && c == 'u' {
                KeyCommand::LoadUsage
            } else if control && c == 't' && ctx.fleet_active {
                if ctx.show_todos {
                    KeyCommand::HideTodos
                } else {
                    KeyCommand::LoadTodos
                }
            } else if control && c == 'i' {
                KeyCommand::ToggleInternals
            } else if m.control && !m.alt {
                KeyCommand::Ignore
            } else {
                KeyCommand::Insert(c)
            }
        },
        Key::Up => KeyCommand::InputUp,
        Key::Down => KeyCommand::InputDown,
        Key::Left => KeyCommand::InputLeft,
        Key::Right => KeyCommand::InputRight,
        Key::Home => KeyCommand::InputHome,
        Key::End => KeyCommand::InputEnd,
        Key::Delete => KeyCommand::InputDelete,
        Key::Enter => {
            if is_multiline_enter(k, ctx.shift_held) {
                KeyCommand::InsertNewline
            } else {
                KeyCommand::Submit
            }
        },
        Key::Backspace => KeyCommand::InputBackspace,
        _ => KeyCommand::Ignore,
    }
}

fn approval_key(k: KeyPress, supports_trust: bool) -> (r: Option<KeyCommand>)
    ensures
        r == approval_key_command(k, supports_trust),
{
    let none = modifiers_are_none(k.modifiers);
    let control = modifiers_are_control_only(k.modifiers);
    match k.key {
        Key::Char(c) => {
            if c == 'y' {
                Some(KeyCommand::Approve(ApprovalDecision::ApproveOnce))
            } else if c == 'n' && none {
                Some(KeyCommand::Approve(ApprovalDecision::Deny))
            } else if c == 'a' && supports_trust {
                Some(KeyCommand::Approve(ApprovalDecision::Trust))
            } else if c == 'k' && control {
                Some(KeyCommand::Ignore)
            } else {
                None
            }
        },
        Key::Esc => Some(KeyCommand::Approve(ApprovalDecision::Deny)),
        _ => None,
    }
}

fn picker_kind_is(kind: PickerKind, other: PickerKind) -> (b: bool)
    ensures
        b == (kind == other),
{
    match (kind, other) {
        (PickerKind::Sessions, PickerKind::Sessions) => true,
        (PickerKind::Models, PickerKind::Models) => true,
        (PickerKind::Tools, PickerKind::Tools) => true,
        (PickerKind::Skills, PickerKind::Skills) => true,
        (PickerKind::Approval, PickerKind::Approval) => true,
        _ => false,
    }
}

fn picker_key(k: KeyPress, kind: PickerKind, ctx: KeyContext) -> (r: KeyCommand)
    ensures
        r == picker_key_command(k, kind, ctx),
{
    if picker_kind_is(kind, PickerKind::Approval) {
        if let Some(command) = approval_key(k, ctx.approval_supports_trust) {
            return command;
        }
    }
    let none = modifiers_are_none(k.modifiers);
    let control = modifiers_are_control_only(k.modifiers);
    let models = picker_kind_is(kind, PickerKind::Models);
    let tools = picker_kind_is(kind, PickerKind::Tools);
    let skills = picker_kind_is(kind, PickerKind::Skills);
    match k.key {
        Key::Esc => KeyCommand::CancelPicker,
        Key::Up => KeyCommand::MovePicker(-1),
        Key::Down => KeyCommand::MovePicker(1),
        Key::PageUp => KeyCommand::MovePicker(-(MAX_PICKER_ROWS as isize)),
        Key::PageDown => KeyCommand::MovePicker(MAX_PICKER_ROWS as isize),
        Key::Left => {
            if models {
                KeyCommand::CyclePickerOption(true)
            } else {
                KeyCommand::Ignore
            }
        },
        Key::Right => {
            if models {
                KeyCommand::CyclePickerOption(false)
            } else {
                KeyCommand::Ignore
            }
        },
        Key::Enter => KeyCommand::ChooseSelected,
        Key::Char(c) => {
            if (c == 'k' || c == 'j') && none {
                KeyCommand::MovePicker(
                    if c == 'k' {
                        -1
                    } else {
                        1
                    },
                )
            } else if c == 'p' && control {
                KeyCommand::MovePicker(-1)
            } else if c == 'n' && control {
                KeyCommand::MovePicker(1)
            } else if c == ' ' && tools {
                KeyCommand::ToggleTool
            } else if c == ' ' && skills {
                KeyCommand::ToggleSkill
            } else if c == 's' && tools {
                KeyCommand::ShellOnlyTools
            } else if c == 'a' && tools {
                KeyCommand::AllTools
            } else if c == 'n' && skills && none {
                KeyCommand::NoSkills
            } else if c == 'a' && skills && none {
                KeyCommand::AllSkills
            } else if '1' <= c && c <= '9' {
                let index = (c as u32) - ('1' as u32);
                if index as usize >= ctx.picker_items {
                    KeyCommand::Ignore
                } else if tools || skills {
                    KeyCommand::PickAndToggle(index as usize)
                } else {
                    KeyCommand::PickAndChoose(index as usize)
                }
            } else {
                KeyCommand::Ignore
            }
        },
        _ => KeyCommand::Ignore,
    }
}

/// What the key `k` asks of the chat window in the state `ctx`: releases do
/// nothing; an open picker takes every key; control-k and control-s open the
/// tool and skill pickers unless the session is blocked; while reconnecting
/// nothing else acts; a blocked session only quits; the completion list takes
/// Esc, the arrows and Tab; the rest edits, submits or runs a control chord.
pub fn key_command(k: KeyPress, ctx: KeyContext) -> (r: KeyCommand)
    ensures
        r == spec_key_command(k, ctx),
{
    if !k.press {
        return KeyCommand::Ignore;
    }
    if let Some(kind) = ctx.picker {
        return picker_key(k, kind, ctx);
    }
    let control = modifiers_are_control_only(k.modifiers);
    let (is_char, c) = match k.key {
        Key::Char(c) => (true, c),
        _ => (false, ' '),
    };
    if is_char && c == 'k' && control {
        return if ctx.blocked {
            KeyCommand::Ignore
        } else {
            KeyCommand::LoadTools
        };
    }
    if is_char && c == 's' && control {
        return if ctx.blocked {
            KeyCommand::Ignore
        } else {
            KeyCommand::LoadSkills
        };
    }
    if ctx.reconnecting {
        return KeyCommand::Ignore;
    }
    if ctx.blocked {
        return if is_char && (c == 'x' || c == 'c') && control {
            KeyCommand::Quit
        } else {
            KeyCommand::Ignore
        };
    }
    if ctx.completion_open {
        match k.key {
            Key::Esc => {
                return KeyCommand::DismissCompletion;
            },
            Key::Up => {
                return KeyCommand::MoveCompletion(false);
            },
            Key::Down => {
                return KeyCommand::MoveCompletion(true);
            },
            Key::Tab => {
                return KeyCommand::AcceptCompletion;
            },
            _ => {},
        }
    }
    prompt_key(k, ctx)
}

/// What a submitted prompt asks for.
#[derive(Debug, Clone, PartialEq, Eq)]
pub enum SubmitAction {
    /// Nothing: the prompt was blank, or a fleet run without a prompt.
    Nothing,
    LoadStatus,
    LoadUsageCommand,
    /// A local command was given arguments; the text explains it.
    LocalCommandError(String),
    /// Start a fleet run with this prompt.
    StartFleet(String),
    /// Send the prompt as a message.
    Send(String),
}

/// `SubmitAction` with its texts as character sequences.
pub enum SubmitActionView {
    Nothing,
    LoadStatus,
    LoadUsageCommand,
    LocalCommandError(Seq<char>),
    StartFleet(Seq<char>),
    Send(Seq<char>),
}

impl View for SubmitAction {
    type V = SubmitActionView;

    open spec fn view(&self) -> SubmitActionView {
        match self {
            SubmitAction::Nothing => SubmitActionView::Nothing,
            SubmitAction::LoadStatus => SubmitActionView::LoadStatus,
            SubmitAction::LoadUsageCommand => SubmitActionView::LoadUsageCommand,
            SubmitAction::LocalCommandError(t) => SubmitActionView::LocalCommandError(t@),
            SubmitAction::StartFleet(t) => SubmitActionView::StartFleet(t@),
            SubmitAction::Send(t) => SubmitActionView::Send(t@),
        }
    }
}

/// The characters of `s` up to its first whitespace.
pub open spec fn leading_word(s: Seq<char>) -> Seq<char>
    decreases s.len(),
{
    if s.len() == 0 || is_white_space(s[0]) {
        Seq::empty()
    } else {
        seq![s[0]] + leading_word(s.drop_first())
    }
}

/// The first whitespace-separated word of `s` (empty when `s` is blank).
pub open spec fn first_word(s: Seq<char>) -> Seq<char> {
    leading_word(trim_start(s))
}

/// The answer to a local command given arguments.
pub open spec fn argument_error(command: Seq<char>) -> Seq<char> {
    command + " does not accept arguments. Use "@ + command + " without arguments."@
}

/// What submitting the prompt `s` asks for: a blank prompt nothing; exactly
/// `/status` or `/usage` the local command; those words followed by anything an
/// error; `/fleet ` and a prompt a fleet run (nothing when the prompt is blank);
/// anything else is sent as it stands.
pub open spec fn spec_submit_action(s: Seq<char>) -> SubmitActionView {
    if trim(s).len() == 0 {
        SubmitActionView::Nothing
    } else if s == "/status"@ {
        SubmitActionView::LoadStatus
    } else if s == "/usage"@ {
        SubmitActionView::LoadUsageCommand
    } else if first_word(s) == "/status"@ || first_word(s) == "/usage"@ {
        SubmitActionView::LocalCommandError(argument_error(first_word(s)))
    } else if starts_with(s, "/fleet "@) {
        let prompt = trim(s.skip("/fleet "@.len() as int));
        if prompt.len() == 0 {
            SubmitActionView::Nothing
        } else {
            SubmitActionView::StartFleet(prompt)
        }
    } else {
        SubmitActionView::Send(s)
    }
}

/// Where the word that starts at `lo` ends.
fn leading_word_end(v: &[char], lo: usize) -> (j: usize)
    requires
        lo <= v@.len(),
    ensures
        lo <= j <= v@.len(),
        leading_word(v@.subrange(lo as int, v@.len() as int)) == v@.subrange(lo as int, j as int),
{
    let n = v.len();
    let mut j = lo;
    while j < n && !char_is_white_space(v[j])
        invariant
            lo <= j <= n,
            n == v@.len(),
            leading_word(v@.subrange(lo as int, n as int)) == v@.subrange(lo as int, j as int)
                + leading_word(v@.subrange(j as int, n as int)),
        decreases n - j,
    {
        let ghost rest = v@.subrange(j as int, n as int);
        assert(rest.drop_first() == v@.subrange(j + 1, n as int));
        assert(rest[0] == v@[j as int]);
        assert(leading_word(rest) == seq![v@[j as int]] + leading_word(rest.drop_first()));
        assert(v@.subrange(lo as int, j as int) + (seq![v@[j as int]] + leading_word(
            v@.subrange(j + 1, n as int),
        )) == v@.subrange(lo as int, j + 1) + leading_word(v@.subrange(j + 1, n as int)));
        j += 1;
    }
    assert(leading_word(v@.subrange(j as int, n as int)) == Seq::<char>::empty());
    assert(v@.subrange(lo as int, j as int) + Seq::<char>::empty() == v@.subrange(
        lo as int,
        j as int,
    ));
    j
}

/// What submitting the prompt `input` asks for (see `spec_submit_action`).
pub fn submit_action(input: &str) -> (r: SubmitAction)
    ensures
        r@ == spec_submit_action(input@),
{
    let v = chars_of(input);
    let (lo, hi) = trim_bounds(v.as_slice());
    if lo == hi {
        return SubmitAction::Nothing;
    }
    let status = chars_of("/status");
    if chars_equal(v.as_slice(), status.as_slice()) {
        return SubmitAction::LoadStatus;
    }
    let usage = chars_of("/usage");
    if chars_equal(v.as_slice(), usage.as_slice()) {
        return SubmitAction::LoadUsageCommand;
    }
    let start = trim_start_index(v.as_slice());
    let end = leading_word_end(v.as_slice(), start);
    let word = copy_range(v.as_slice(), start, end);
    if chars_equal(word.as_slice(), status.as_slice()) || chars_equal(
        word.as_slice(),
        usage.as_slice(),
    ) {
        let mut text = String::new();
        push_chars(&mut text, word.as_slice());
        push_str(&mut text, " does not accept arguments. Use ");
        push_chars(&mut text, word.as_slice());
        push_str(&mut text, " without arguments.");
        return SubmitAction::LocalCommandError(text);
    }
    let fleet = chars_of("/fleet ");
    if fleet.len() <= v.len() {
        let head = copy_range(v.as_slice(), 0, fleet.len());
        if chars_equal(head.as_slice(), fleet.as_slice()) {
            let rest = copy_range(v.as_slice(), fleet.len(), v.len());
            let prompt = trim_chars(rest.as_slice());
            if prompt.len() == 0 {
                return SubmitAction::Nothing;
            }
            return SubmitAction::StartFleet(string_from_chars(prompt.as_slice()));
        }
    }
    SubmitAction::Send(string_from_chars(v.as_slice()))
}

/// A key release or repeat never does anything.
pub proof fn law_only_presses_act(k: KeyPress, ctx: KeyContext)
    requires
        !k.press,
    ensures
        spec_key_command(k, ctx) == KeyCommand::Ignore,
{
}

/// In the chat window (no picker open, the session neither blocked nor
/// reconnecting) a character typed without control, or with control and alt
/// together as AltGr sends it, goes into the prompt.
pub proof fn law_plain_characters_are_typed(c: char, modifiers: Modifiers, ctx: KeyContext)
    requires
        ctx.picker is None,
        !ctx.blocked,
        !ctx.reconnecting,
        !modifiers.control || modifiers.alt,
    ensures
        spec_key_command(KeyPress { key: Key::Char(c), modifiers, press: true }, ctx)
            == KeyCommand::Insert(c),
{
}

/// A blocked session without a picker only quits, and it quits exactly on a
/// pressed control-x or control-c while it is not reconnecting.
pub proof fn law_a_blocked_session_only_quits(k: KeyPress, ctx: KeyContext)
    requires
        ctx.picker is None,
        ctx.blocked,
    ensures
        spec_key_command(k, ctx) == KeyCommand::Ignore || spec_key_command(k, ctx)
            == KeyCommand::Quit,
        spec_key_command(k, ctx) == KeyCommand::Quit <==> (k.press && !ctx.reconnecting && (
        is_control_chord(k, 'x') || is_control_chord(k, 'c'))),
{
}

/// While the session reconnects and no picker is open, a key at most opens the
/// tool or skill picker.
pub proof fn law_reconnecting_only_opens_pickers(k: KeyPress, ctx: KeyContext)
    requires
        ctx.picker is None,
        ctx.reconnecting,
    ensures
        spec_key_command(k, ctx) == KeyCommand::Ignore || spec_key_command(k, ctx)
            == KeyCommand::LoadTools || spec_key_command(k, ctx) == KeyCommand::LoadSkills,
{
}

/// A new conversation starts exactly on a pressed control-n while no picker is
/// open and the session is idle, neither blocked nor reconnecting.
pub proof fn law_new_conversation_needs_an_idle_control_press(k: KeyPress, ctx: KeyContext)
    ensures
        spec_key_command(k, ctx) == KeyCommand::NewConversation <==> (k.press && ctx.picker is None
            && !ctx.blocked && !ctx.reconnecting && !ctx.busy && is_control_chord(k, 'n')),
{
}

/// Escape in the approval picker denies the pending request.
pub proof fn law_escape_denies_an_approval(k: KeyPress, ctx: KeyContext)
    requires
        k.press,
        k.key == Key::Esc,
        ctx.picker == Some(PickerKind::Approval),
    ensures
        spec_key_command(k, ctx) == KeyCommand::Approve(ApprovalDecision::Deny),
{
}

/// A number key only ever picks a row the open picker has.
pub proof fn law_number_keys_pick_existing_rows(k: KeyPress, ctx: KeyContext)
    ensures
        spec_key_command(k, ctx) is PickAndToggle ==> spec_key_command(k, ctx)->PickAndToggle_0
            < ctx.picker_items,
        spec_key_command(k, ctx) is PickAndChoose ==> spec_key_command(k, ctx)->PickAndChoose_0
            < ctx.picker_items,
{
}

/// Only the left and right arrows, in the model picker, adjust a model option.
pub proof fn law_only_arrows_adjust_model_options(k: KeyPress, ctx: KeyContext)
    ensures
        spec_key_command(k, ctx) is CyclePickerOption ==> k.press && ctx.picker == Some(
            PickerKind::Models,
        ) && (k.key == Key::Left || k.key == Key::Right),
{
}

/// A prompt with visible text that does not begin with a slash is sent as typed.
pub proof fn law_ordinary_prompts_are_sent_as_typed(s: Seq<char>)
    requires
        trim(s).len() > 0,
        trim_start(s)[0] != '/',
    ensures
        spec_submit_action(s) == SubmitActionView::Send(s),
{
    reveal_strlit("/status");
    reveal_strlit("/usage");
    reveal_strlit("/fleet ");
    if trim_start(s).len() == 0 {
        assert(trim_end(trim_start(s)).len() == 0);
    }
    lemma_trim_start_first(s);
    lemma_first_word_first(trim_start(s));
    assert(!is_white_space('/'));
    assert(s[0] != '/');
    assert("/status"@[0] == '/');
    assert("/usage"@[0] == '/');
    assert("/fleet "@[0] == '/');
    assert(first_word(s)[0] != '/');
    assert(s != "/status"@);
    assert(s != "/usage"@);
    assert(first_word(s) != "/status"@);
    assert(first_word(s) != "/usage"@);
    if starts_with(s, "/fleet "@) {
        assert(s.take(7)[0] == s[0]);
    }
}

proof fn lemma_trim_start_first(s: Seq<char>)
    requires
        trim_start(s).len() > 0,
    ensures
        is_white_space(s[0]) || s[0] == trim_start(s)[0],
        !is_white_space(trim_start(s)[0]),
        s.len() > 0,
    decreases s.len(),
{
    if s.len() > 0 && is_white_space(s[0]) {
        lemma_trim_start_first(s.drop_first());
    }
}

proof fn lemma_first_word_first(t: Seq<char>)
    requires
        t.len() > 0,
        !is_white_space(t[0]),
    ensures
        leading_word(t).len() > 0,
        leading_word(t)[0] == t[0],
{
}

/// In the chat window, with no picker open and the session neither blocked nor
/// reconnecting, a pressed Delete removes the character under the cursor; and
/// nothing but a pressed Backspace, in any state, removes the one before it.
pub proof fn law_delete_and_backspace_differ(k: KeyPress, ctx: KeyContext)
    ensures
        k.press && k.key == Key::Delete && ctx.picker is None && !ctx.blocked && !ctx.reconnecting
            ==> spec_key_command(k, ctx) == KeyCommand::InputDelete,
        spec_key_command(k, ctx) == KeyCommand::InputBackspace ==> k.press && k.key == Key::Backspace,
        spec_key_command(k, ctx) == KeyCommand::InputDelete ==> k.press && k.key == Key::Delete,
{
}

} // verus!
