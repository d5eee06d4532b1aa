use picopilot::keymap::{
    accepts_paste, is_multiline_enter, key_command, submit_action, Key, KeyCommand, KeyContext, KeyPress,
    Modifiers, SubmitAction,
};
use picopilot::chat::ChatState;
use picopilot::picker::{
    approval_decision_for_selection, picker_choice, ApprovalDecision, PickerChoice, PickerCursor,
    PickerKind,
};
use picopilot::toolset::{Toolset, TOOL_COUNT};
use picopilot::transcript::TranscriptEntry;

const NONE: Modifiers = Modifiers {
    shift: false,
    control: false,
    alt: false,
    other: false,
};

const CONTROL: Modifiers = Modifiers {
    shift: false,
    control: true,
    alt: false,
    other: false,
};

fn press(key: Key) -> KeyPress {
    KeyPress {
        key,
        modifiers: NONE,
        press: true,
    }
}

fn release(key: Key) -> KeyPress {
    KeyPress {
        key,
        modifiers: NONE,
        press: false,
    }
}

fn with_modifiers(key: Key, modifiers: Modifiers) -> KeyPress {
    KeyPress {
        key,
        modifiers,
        press: true,
    }
}

fn ctrl(character: char) -> KeyPress {
    with_modifiers(Key::Char(character), CONTROL)
}

fn idle() -> KeyContext {
    KeyContext {
        picker: None,
        blocked: false,
        reconnecting: false,
        completion_open: false,
        busy: false,
        fleet_active: false,
        show_todos: false,
        shift_held: false,
        picker_items: 0,
        approval_supports_trust: false,
    }
}

fn picker(kind: PickerKind, items: usize) -> KeyContext {
    KeyContext {
        picker: Some(kind),
        picker_items: items,
        ..idle()
    }
}

#[test]
fn arrows_edit_the_prompt_and_shift_enter_inserts_a_newline() {
    let app = idle();
    assert_eq!(key_command(press(Key::Left), app), KeyCommand::InputLeft);
    assert_eq!(
        key_command(with_modifiers(Key::Char('X'), NONE), app),
        KeyCommand::Insert('X')
    );
    assert_eq!(key_command(press(Key::Backspace), app), KeyCommand::InputBackspace);
    let shift = Modifiers {
        shift: true,
        ..NONE
    };
    assert_eq!(
        key_command(with_modifiers(Key::Enter, shift), app),
        KeyCommand::InsertNewline
    );
    assert_eq!(key_command(press(Key::Enter), app), KeyCommand::Submit);
    assert_eq!(
        submit_action("ab\\\nncd"),
        SubmitAction::Send("ab\\\nncd".to_string())
    );
}

#[test]
fn altgr_style_control_alt_characters_are_kept_as_input() {
    let altgr = Modifiers {
        control: true,
        alt: true,
        ..NONE
    };
    assert_eq!(
        key_command(with_modifiers(Key::Char('\\'), altgr), idle()),
        KeyCommand::Insert('\\')
    );
}

#[test]
fn an_unmodified_enter_is_multiline_when_physical_shift_is_held() {
    assert!(is_multiline_enter(press(Key::Enter), true));
    let app = KeyContext {
        shift_held: true,
        ..idle()
    };
    assert_eq!(key_command(press(Key::Enter), app), KeyCommand::InsertNewline);
}

#[test]
fn skill_picker_shortcut_ignores_key_release_events() {
    assert_eq!(
        key_command(release(Key::Char('s')), idle()),
        KeyCommand::Ignore
    );
    assert_eq!(key_command(ctrl('s'), idle()), KeyCommand::LoadSkills);
}

#[test]
fn new_conversation_requires_an_idle_control_press() {
    assert_eq!(
        key_command(release(Key::Char('n')), idle()),
        KeyCommand::Ignore
    );
    assert_eq!(key_command(ctrl('n'), idle()), KeyCommand::NewConversation);

    let busy = KeyContext {
        busy: true,
        ..idle()
    };
    assert_eq!(key_command(ctrl('n'), busy), KeyCommand::Ignore);

    let reconnecting = KeyContext {
        reconnecting: true,
        ..idle()
    };
    assert_eq!(key_command(ctrl('n'), reconnecting), KeyCommand::Ignore);

    let blocked = KeyContext {
        blocked: true,
        ..idle()
    };
    assert_eq!(key_command(ctrl('n'), blocked), KeyCommand::Ignore);

    let tools = picker(PickerKind::Tools, 4);
    assert_ne!(key_command(ctrl('n'), tools), KeyCommand::NewConversation);
    assert_eq!(key_command(ctrl('n'), tools), KeyCommand::MovePicker(1));

    let approval = picker(PickerKind::Approval, 2);
    assert_ne!(key_command(ctrl('n'), approval), KeyCommand::NewConversation);
}

#[test]
fn submits_input_on_enter_and_ignores_key_release_events() {
    assert_eq!(key_command(press(Key::Enter), idle()), KeyCommand::Submit);
    assert_eq!(submit_action("hi"), SubmitAction::Send("hi".to_string()));
    assert_eq!(key_command(release(Key::Enter), idle()), KeyCommand::Ignore);
}

#[test]
fn fleet_requires_an_explicit_command() {
    assert_eq!(
        submit_action("/fleet inspect the parser"),
        SubmitAction::StartFleet("inspect the parser".to_string())
    );
    assert_eq!(submit_action("Hi"), SubmitAction::Send("Hi".to_string()));
}

#[test]
fn usage_key_requests_a_usage_refresh() {
    assert_eq!(key_command(ctrl('u'), idle()), KeyCommand::LoadUsage);
}

#[test]
fn exact_status_and_usage_commands_are_local_actions() {
    assert_eq!(submit_action("/status"), SubmitAction::LoadStatus);
    assert_eq!(submit_action("/usage"), SubmitAction::LoadUsageCommand);
}

#[test]
fn local_commands_reject_extra_arguments_without_becoming_sdk_prompts() {
    for (input, command) in [("/status extra", "/status"), ("/usage\tmore", "/usage")] {
        assert_eq!(
            submit_action(input),
            SubmitAction::LocalCommandError(format!(
                "{command} does not accept arguments. Use {command} without arguments."
            ))
        );
    }
}

#[test]
fn main_window_commands_require_control_and_plain_letters_remain_input() {
    for character in "quantum".chars() {
        assert_eq!(
            key_command(press(Key::Char(character)), idle()),
            KeyCommand::Insert(character)
        );
    }
    assert_eq!(
        key_command(press(Key::Char('n')), idle()),
        KeyCommand::Insert('n')
    );
    assert_eq!(key_command(ctrl('n'), idle()), KeyCommand::NewConversation);
    assert_eq!(key_command(ctrl('o'), idle()), KeyCommand::LoadSessions);
    assert_eq!(key_command(ctrl('p'), idle()), KeyCommand::LoadModels);
    assert_eq!(key_command(ctrl('u'), idle()), KeyCommand::LoadUsage);
    assert_eq!(key_command(ctrl('x'), idle()), KeyCommand::Quit);
}

#[test]
fn model_picker_uses_only_arrow_keys_for_option_adjustment() {
    let models = picker(PickerKind::Models, 1);
    assert_eq!(key_command(press(Key::Char('r')), models), KeyCommand::Ignore);
    assert_eq!(key_command(press(Key::Char('c')), models), KeyCommand::Ignore);
    assert_eq!(key_command(press(Key::Enter), models), KeyCommand::ChooseSelected);
    assert_eq!(
        key_command(press(Key::Left), models),
        KeyCommand::CyclePickerOption(true)
    );
    assert_eq!(
        key_command(press(Key::Right), models),
        KeyCommand::CyclePickerOption(false)
    );
}

#[test]
fn numeric_selection_and_multi_select_toggle_are_immediate() {
    assert_eq!(
        key_command(press(Key::Char('2')), picker(PickerKind::Sessions, 3)),
        KeyCommand::PickAndChoose(1)
    );
    assert_eq!(
        key_command(press(Key::Char('1')), picker(PickerKind::Tools, 8)),
        KeyCommand::PickAndToggle(0)
    );
}

#[test]
fn approval_picker_blocks_tool_replacement_and_busy_tool_apply_stays_guarded() {
    let approval = picker(PickerKind::Approval, 2);
    assert_eq!(key_command(ctrl('k'), approval), KeyCommand::Ignore);
    assert_eq!(key_command(press(Key::Enter), approval), KeyCommand::ChooseSelected);
    assert_eq!(
        approval_decision_for_selection(0, false),
        Some(ApprovalDecision::ApproveOnce)
    );

    assert_eq!(
        picker_choice(Some(PickerKind::Approval), 0, 0, 0, false),
        (PickerChoice::Approve(ApprovalDecision::ApproveOnce), false)
    );

    let busy_tools = KeyContext {
        busy: true,
        ..picker(PickerKind::Tools, 8)
    };
    assert_eq!(key_command(press(Key::Enter), busy_tools), KeyCommand::ChooseSelected);
    assert_eq!(
        picker_choice(Some(PickerKind::Tools), 0, 0, 0, false),
        (PickerChoice::ApplyTools, true)
    );
    let mut busy: ChatState<String> = ChatState::new(None, false);
    busy.status.busy = true;
    assert!(busy.selection_change_is_blocked());
    let mut waiting: ChatState<String> = ChatState::new(None, false);
    assert!(!waiting.selection_change_is_blocked());
    waiting.approvals.enqueue("bash".to_string());
    assert!(waiting.selection_change_is_blocked());
}

#[test]
fn choosing_a_row_asks_for_what_it_shows() {
    assert_eq!(
        picker_choice(Some(PickerKind::Sessions), 1, 3, 0, false),
        (PickerChoice::Resume(1), true)
    );
    assert_eq!(
        picker_choice(Some(PickerKind::Sessions), 3, 3, 0, false),
        (PickerChoice::Nothing, true)
    );
    assert_eq!(
        picker_choice(Some(PickerKind::Models), 0, 0, 2, false),
        (PickerChoice::SwitchModel(0), true)
    );
    assert_eq!(
        picker_choice(Some(PickerKind::Skills), 4, 0, 0, false),
        (PickerChoice::ApplySkills, true)
    );
    assert_eq!(
        picker_choice(Some(PickerKind::Approval), 2, 0, 0, false),
        (PickerChoice::Nothing, false)
    );
    assert_eq!(
        picker_choice(Some(PickerKind::Approval), 2, 0, 0, true),
        (PickerChoice::Approve(ApprovalDecision::Trust), false)
    );
    assert_eq!(picker_choice(None, 0, 0, 0, false), (PickerChoice::Nothing, true));
}

#[test]
fn approval_keys_answer_the_pending_request() {
    let approval = picker(PickerKind::Approval, 2);
    assert_eq!(
        key_command(press(Key::Char('y')), approval),
        KeyCommand::Approve(ApprovalDecision::ApproveOnce)
    );
    assert_eq!(
        key_command(press(Key::Char('n')), approval),
        KeyCommand::Approve(ApprovalDecision::Deny)
    );
    assert_eq!(
        key_command(press(Key::Esc), approval),
        KeyCommand::Approve(ApprovalDecision::Deny)
    );
    assert_eq!(key_command(press(Key::Char('a')), approval), KeyCommand::Ignore);
    let trusted = KeyContext {
        approval_supports_trust: true,
        ..picker(PickerKind::Approval, 3)
    };
    assert_eq!(
        key_command(press(Key::Char('a')), trusted),
        KeyCommand::Approve(ApprovalDecision::Trust)
    );
    assert_eq!(key_command(press(Key::Char('3')), approval), KeyCommand::Ignore);
    assert_eq!(
        key_command(press(Key::Char('3')), trusted),
        KeyCommand::PickAndChoose(2)
    );
}

#[test]
fn picker_keys_navigate_toggle_and_page() {
    let tools = picker(PickerKind::Tools, 8);
    assert_eq!(key_command(press(Key::Esc), tools), KeyCommand::CancelPicker);
    assert_eq!(key_command(press(Key::Char('k')), tools), KeyCommand::MovePicker(-1));
    assert_eq!(key_command(press(Key::Char('j')), tools), KeyCommand::MovePicker(1));
    assert_eq!(key_command(ctrl('p'), tools), KeyCommand::MovePicker(-1));
    assert_eq!(key_command(press(Key::PageUp), tools), KeyCommand::MovePicker(-5));
    assert_eq!(key_command(press(Key::PageDown), tools), KeyCommand::MovePicker(5));
    assert_eq!(key_command(press(Key::Char(' ')), tools), KeyCommand::ToggleTool);
    assert_eq!(key_command(press(Key::Char('s')), tools), KeyCommand::ShellOnlyTools);
    assert_eq!(key_command(press(Key::Char('a')), tools), KeyCommand::AllTools);
    assert_eq!(key_command(press(Key::Left), tools), KeyCommand::Ignore);
    assert_eq!(key_command(press(Key::Char('9')), tools), KeyCommand::Ignore);

    let skills = picker(PickerKind::Skills, 2);
    assert_eq!(key_command(press(Key::Char(' ')), skills), KeyCommand::ToggleSkill);
    assert_eq!(key_command(press(Key::Char('n')), skills), KeyCommand::NoSkills);
    assert_eq!(key_command(press(Key::Char('a')), skills), KeyCommand::AllSkills);
    assert_eq!(key_command(press(Key::Char('2')), skills), KeyCommand::PickAndToggle(1));
}

#[test]
fn blocked_and_reconnecting_sessions_limit_the_keys() {
    let blocked = KeyContext {
        blocked: true,
        ..idle()
    };
    assert_eq!(key_command(ctrl('c'), blocked), KeyCommand::Quit);
    assert_eq!(key_command(ctrl('k'), blocked), KeyCommand::Ignore);
    assert_eq!(key_command(press(Key::Char('a')), blocked), KeyCommand::Ignore);

    let reconnecting = KeyContext {
        reconnecting: true,
        ..idle()
    };
    assert_eq!(key_command(ctrl('k'), reconnecting), KeyCommand::LoadTools);
    assert_eq!(key_command(ctrl('x'), reconnecting), KeyCommand::Ignore);
    assert_eq!(key_command(press(Key::Char('a')), reconnecting), KeyCommand::Ignore);
}

#[test]
fn the_completion_list_takes_escape_arrows_and_tab() {
    let completing = KeyContext {
        completion_open: true,
        ..idle()
    };
    assert_eq!(key_command(press(Key::Esc), completing), KeyCommand::DismissCompletion);
    assert_eq!(key_command(press(Key::Up), completing), KeyCommand::MoveCompletion(false));
    assert_eq!(key_command(press(Key::Down), completing), KeyCommand::MoveCompletion(true));
    assert_eq!(key_command(press(Key::Tab), completing), KeyCommand::AcceptCompletion);
    assert_eq!(key_command(press(Key::Tab), idle()), KeyCommand::Ignore);
    assert_eq!(key_command(press(Key::Up), idle()), KeyCommand::InputUp);
}

#[test]
fn todos_toggle_only_during_a_fleet_run() {
    assert_eq!(key_command(ctrl('t'), idle()), KeyCommand::Ignore);
    let fleet = KeyContext {
        fleet_active: true,
        ..idle()
    };
    assert_eq!(key_command(ctrl('t'), fleet), KeyCommand::LoadTodos);
    let showing = KeyContext {
        show_todos: true,
        ..fleet
    };
    assert_eq!(key_command(ctrl('t'), showing), KeyCommand::HideTodos);
    assert_eq!(key_command(ctrl('i'), idle()), KeyCommand::ToggleInternals);
}

#[test]
fn blank_and_odd_prompts_are_classified() {
    assert_eq!(submit_action("   \t"), SubmitAction::Nothing);
    assert_eq!(submit_action("/fleet    "), SubmitAction::Nothing);
    assert_eq!(
        submit_action("/fleet  spaced out  "),
        SubmitAction::StartFleet("spaced out".to_string())
    );
    assert_eq!(
        submit_action("  /status"),
        SubmitAction::LocalCommandError(
            "/status does not accept arguments. Use /status without arguments.".to_string()
        )
    );
    assert_eq!(submit_action("/fleet"), SubmitAction::Send("/fleet".to_string()));
    assert_eq!(
        submit_action("/statusbar"),
        SubmitAction::Send("/statusbar".to_string())
    );
    assert_eq!(
        submit_action(" keep  spacing "),
        SubmitAction::Send(" keep  spacing ".to_string())
    );
}

#[test]
fn paste_reaches_the_prompt_only_while_it_holds_the_keys() {
    assert!(accepts_paste(&idle()));
    let busy = KeyContext {
        busy: true,
        completion_open: true,
        ..idle()
    };
    assert!(accepts_paste(&busy));
    assert!(!accepts_paste(&picker(PickerKind::Sessions, 3)));
    assert!(!accepts_paste(&picker(PickerKind::Approval, 3)));
    let blocked = KeyContext {
        blocked: true,
        ..idle()
    };
    assert!(!accepts_paste(&blocked));
    let reconnecting = KeyContext {
        reconnecting: true,
        ..idle()
    };
    assert!(!accepts_paste(&reconnecting));
}

/// Carries out a tool-picker key the way the chat window does.
fn tool_picker_key(app: &mut ChatState<String>, cursor: &mut PickerCursor, key: KeyPress) -> Option<Toolset> {
    let ctx = picker(PickerKind::Tools, TOOL_COUNT);
    match key_command(key, KeyContext { picker: app.picker, ..ctx }) {
        KeyCommand::ToggleTool => app.toggle_picker_tool(cursor.selected_item),
        KeyCommand::ShellOnlyTools => app.choose_shell_only_tools(),
        KeyCommand::AllTools => app.choose_all_tools(),
        KeyCommand::MovePicker(delta) => cursor.move_selection(delta, TOOL_COUNT),
        KeyCommand::ChooseSelected => return app.choose_tools(),
        _ => {}
    }
    None
}

#[test]
fn tool_picker_supports_toggle_shell_only_all_and_apply() {
    let mut app: ChatState<String> = ChatState::new(None, false);
    let mut cursor = PickerCursor::default();

    assert_eq!(key_command(ctrl('k'), idle()), KeyCommand::LoadTools);
    assert!(app.open_tool_picker());
    assert!(app.picker.is_some());
    assert_eq!(app.toolset, Toolset::all());

    assert_eq!(tool_picker_key(&mut app, &mut cursor, press(Key::Char(' '))), None);
    assert!(!app.picker_toolset.contains_at(0));
    assert_eq!(tool_picker_key(&mut app, &mut cursor, press(Key::Char('s'))), None);
    assert_eq!(app.picker_toolset, Toolset::shell_only());
    assert_eq!(tool_picker_key(&mut app, &mut cursor, press(Key::Char('a'))), None);
    assert_eq!(app.picker_toolset, Toolset::all());
    assert_eq!(
        tool_picker_key(&mut app, &mut cursor, press(Key::Enter)),
        Some(Toolset::all())
    );
    assert!(app.picker.is_none());
    assert_eq!(app.toolset, Toolset::all());
}

#[test]
fn tool_picker_navigation_toggles_the_selected_tool() {
    let mut app: ChatState<String> = ChatState::new(None, false);
    let mut cursor = PickerCursor::default();
    app.open_tool_picker();

    tool_picker_key(&mut app, &mut cursor, press(Key::Down));
    tool_picker_key(&mut app, &mut cursor, press(Key::Char(' ')));

    assert_eq!(cursor.selected_item, 1);
    assert!(!app.picker_toolset.contains_at(1));
    assert!(app.picker_toolset.contains_at(0));
    assert_eq!(TOOL_COUNT, 7);
    assert_eq!(app.picker_toolset.len(), 6);
}

#[test]
fn cancelling_the_tool_picker_keeps_the_tools_in_use() {
    let mut app: ChatState<String> = ChatState::new(None, false);
    app.set_toolset(Toolset::shell_only());
    app.open_tool_picker();
    app.choose_all_tools();
    app.cancel_picker(&Vec::new());
    assert!(app.picker.is_none());
    assert_eq!(app.toolset, Toolset::shell_only());
    match app.entries.last() {
        Some(TranscriptEntry::LocalOutput(lines)) => {
            assert_eq!(lines, &vec!["Kept tools: 1/7 enabled".to_string()])
        }
        _ => panic!("a note should say which tools were kept"),
    }
    app.open_tool_picker();
    assert_eq!(app.picker_toolset, Toolset::shell_only());
}

#[test]
fn the_tool_picker_waits_behind_an_approval() {
    let mut app: ChatState<String> = ChatState::new(None, false);
    app.enqueue_approval("r".to_string(), "shell".to_string(), "bash".to_string(), "ls".to_string());
    assert!(!app.open_tool_picker());
    assert_eq!(app.picker, Some(PickerKind::Approval));
    app.toggle_picker_tool(0);
    assert_eq!(app.picker_toolset, Toolset::all());
    assert_eq!(app.choose_tools(), None);
}

#[test]
fn submitting_takes_the_prompt_and_leaves_it_empty() {
    for (input, expected) in [
        ("/status", SubmitAction::LoadStatus),
        ("/usage", SubmitAction::LoadUsageCommand),
        (
            "/status extra",
            SubmitAction::LocalCommandError(
                "/status does not accept arguments. Use /status without arguments.".to_string(),
            ),
        ),
        ("/fleet inspect the parser", SubmitAction::StartFleet("inspect the parser".to_string())),
        ("hi", SubmitAction::Send("hi".to_string())),
    ] {
        let mut app: ChatState<String> = ChatState::new(None, false);
        for character in input.chars() {
            app.push_input(character);
        }
        assert_eq!(key_command(press(Key::Enter), idle()), KeyCommand::Submit);
        assert_eq!(app.take_submission(), expected);
        assert_eq!(app.input, "");
    }
}

#[test]
fn pasted_line_breaks_become_newlines_and_backspace_removes_one_character() {
    let mut app: ChatState<String> = ChatState::new(None, false);
    app.push_input('>');
    app.insert_paste("a\r\nb\rc\n");
    assert_eq!(app.input, ">a\nb\nc\n");
    app.pop_input();
    app.pop_input();
    assert_eq!(app.input, ">a\nb\n");
    let mut empty: ChatState<String> = ChatState::new(None, false);
    empty.pop_input();
    assert_eq!(empty.input, "");
}

#[test]
fn internals_toggle_on_and_off() {
    let mut app: ChatState<String> = ChatState::new(None, false);
    assert_eq!(key_command(ctrl('i'), idle()), KeyCommand::ToggleInternals);
    app.toggle_internals();
    assert!(app.show_internals);
    app.toggle_internals();
    assert!(!app.show_internals);
}
