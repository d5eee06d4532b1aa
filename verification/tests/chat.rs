use picopilot::chat::{utf16_len, ChatState, ChatUpdate, LiveEntryKind, UsageSnapshot};
use picopilot::toolset::Toolset;
use picopilot::transcript_text::UsageFacts;
use picopilot::prompt::context_warning_due;
use picopilot::spinner::builtin_spinner_verb;
use picopilot::spinner_row::spinner_verb_for_turn;
use picopilot::keymap::{key_command, Key, KeyCommand, KeyContext, KeyPress, Modifiers};
use picopilot::picker::{ApprovalDecision, ApprovalStatus};
use picopilot::spinner_row::SpinnerMode;
use picopilot::todos::TodoRow;
use picopilot::transcript::TranscriptEntry;
use picopilot::transcript_text::BannerSeverity;

fn chat() -> ChatState<String> {
    ChatState::new(None, false)
}

fn describe(entries: &[TranscriptEntry]) -> Vec<String> {
    entries
        .iter()
        .map(|entry| match entry {
            TranscriptEntry::User(text) => format!("user:{text}"),
            TranscriptEntry::Streamed {
                kind, id, content, ..
            } => format!("{kind:?}:{id}:{content}"),
            TranscriptEntry::Banner {
                severity, message, ..
            } => format!("banner:{severity:?}:{message}"),
            TranscriptEntry::Completed => "completed".to_string(),
            TranscriptEntry::Tool { id, state, .. } => format!("tool:{id}:{state:?}"),
            TranscriptEntry::ToolProgress { id, .. } => format!("progress:{id}"),
            TranscriptEntry::ToolResult { id, state, .. } => format!("result:{id}:{state:?}"),
            _ => "other".to_string(),
        })
        .collect()
}

fn key(key: Key, control: bool, blocked: bool) -> KeyCommand {
    key_command(
        KeyPress {
            key,
            modifiers: Modifiers {
                shift: false,
                control,
                alt: false,
                other: false,
            },
            press: true,
        },
        KeyContext {
            picker: None,
            blocked,
            reconnecting: false,
            completion_open: false,
            busy: false,
            fleet_active: false,
            show_todos: false,
            shift_held: false,
            picker_items: 0,
            approval_supports_trust: false,
        },
    )
}

#[test]
fn blocking_error_ends_input_but_leaves_the_final_message_visible() {
    let mut app = chat();
    app.add_user_message("keep working".to_string(), 0);

    let applied = app.apply(
        ChatUpdate::Banner {
            severity: BannerSeverity::BlockingError,
            message: "quota exhausted".to_string(),
            url: None,
        },
        10,
    );

    assert!(!app.status.busy);
    assert!(app.blocked);
    assert!(applied.close_picker);
    assert!(matches!(
        app.entries.last(),
        Some(TranscriptEntry::Banner {
            severity: BannerSeverity::BlockingError,
            message,
            ..
        }) if message == "quota exhausted"
    ));
    assert_eq!(key(Key::Char('x'), false, app.blocked), KeyCommand::Ignore);
    assert_eq!(key(Key::Char('q'), false, app.blocked), KeyCommand::Ignore);
    assert_eq!(key(Key::Char('x'), true, app.blocked), KeyCommand::Quit);
}

#[test]
fn a_blocking_error_denies_every_waiting_approval() {
    let mut app = chat();
    app.approvals.enqueue("first".to_string());
    app.approvals.enqueue("second".to_string());
    let applied = app.apply(
        ChatUpdate::Banner {
            severity: BannerSeverity::BlockingError,
            message: "gone".to_string(),
            url: None,
        },
        0,
    );
    assert_eq!(applied.rejected, vec!["first".to_string(), "second".to_string()]);
    assert!(!app.approvals.is_waiting());
    assert_eq!(
        app.approvals.statuses(),
        &vec![ApprovalStatus::Denied, ApprovalStatus::Denied]
    );

    let mut warned = chat();
    warned.approvals.enqueue("kept".to_string());
    let applied = warned.apply(
        ChatUpdate::Banner {
            severity: BannerSeverity::Warning,
            message: "slow".to_string(),
            url: None,
        },
        0,
    );
    assert!(applied.rejected.is_empty());
    assert!(!applied.close_picker);
    assert!(warned.approvals.is_waiting());
    assert!(!warned.blocked);
    assert_eq!(warned.approvals.resolve(ApprovalDecision::ApproveOnce), Some("kept".to_string()));
}

#[test]
fn resumed_history_replaces_the_previous_transcript() {
    let mut app = chat();
    app.add_user_message("old session".to_string(), 0);

    app.replace_history(
        vec![ChatUpdate::UserMessage {
            content: "resumed session".to_string(),
        }],
        5,
    );

    assert_eq!(describe(&app.entries), vec!["user:resumed session"]);
    assert!(app.awaiting_echo.is_empty());
    assert!(!app.status.busy);
}

#[test]
fn new_conversation_reset_clears_transcript_state_and_keeps_preferences() {
    let mut app: ChatState<String> = ChatState::new(Some("gpt-5".to_string()), false);
    app.set_reasoning_effort(Some("high".to_string()));
    app.set_toolset(Toolset::shell_only());
    app.show_internals = true;
    app.add_user_message("old session".to_string(), 0);
    app.push_input('x');
    app.set_usage_metrics(UsageFacts {
        cost: "2.000 AIU".to_string(),
        premium_request_cost: "1.00".to_string(),
        requests: 1,
        api_duration_ms: 250,
    });
    app.set_fleet_active(true);
    app.set_todos(Vec::new());
    app.reconnecting = true;
    app.blocked = true;
    app.enqueue_approval("pending".to_string(), "shell".to_string(), "bash".to_string(), "cargo test".to_string());

    let rejected = app.reset_for_new_conversation();

    assert!(app.input.is_empty());
    assert!(app.picker.is_none());
    assert_eq!(app.status.reasoning_effort.as_deref(), Some("high"));
    assert!(app.status.usage.is_none());
    assert!(app.todos.is_none());
    assert_eq!(rejected, vec!["pending".to_string()]);
    assert!(app.entries.is_empty());
    assert!(app.awaiting_echo.is_empty());
    assert_eq!(app.status.model.as_deref(), Some("gpt-5"));
    assert!(!app.status.busy);
    assert!(!app.fleet_active);
    assert!(!app.reconnecting);
    assert!(!app.blocked);
    assert!(!app.approvals.is_waiting());
    assert!(app.approvals.statuses().is_empty());
    assert!(!app.spinner.active);
    assert!(app.usage_metrics.is_none());
    assert!(app.context_attribution.is_none());
    assert_eq!(app.toolset, Toolset::shell_only());
    assert!(app.show_internals);
}

#[test]
fn streamed_astral_response_counts_utf16_code_units_for_tokens() {
    let mut app = chat();
    app.add_user_message("inspect".to_string(), 0);
    app.apply(
        ChatUpdate::AssistantDelta {
            message_id: "message-1".to_string(),
            content: "🙂a".to_string(),
            agent_id: None,
        },
        20,
    );

    assert_eq!(app.spinner.assistant_characters, 3);
    assert_eq!(utf16_len("🙂a"), 3);
    assert_eq!(utf16_len(""), 0);
}

#[test]
fn the_session_copy_replaces_the_sent_message() {
    let mut app = chat();
    app.add_user_message("Hi".to_string(), 0);
    assert!(app.status.busy);
    app.apply(
        ChatUpdate::UserMessage {
            content: "Hi".to_string(),
        },
        1,
    );
    assert_eq!(describe(&app.entries), vec!["user:Hi"]);
    assert!(app.awaiting_echo.is_empty());
}

#[test]
fn streams_tools_and_the_end_of_a_turn() {
    let mut app = chat();
    app.add_user_message("go".to_string(), 100);
    assert_eq!(app.spinner_mode(), SpinnerMode::Requesting);

    app.apply(
        ChatUpdate::ReasoningDelta {
            reasoning_id: "r".to_string(),
            content: "thinking".to_string(),
            agent_id: None,
        },
        200,
    );
    assert_eq!(app.spinner.reasoning_started_at_ms, Some(200));
    assert_eq!(app.spinner_mode(), SpinnerMode::Reasoning);
    app.apply(
        ChatUpdate::Reasoning {
            reasoning_id: "r".to_string(),
            content: "thought".to_string(),
            agent_id: None,
        },
        500,
    );
    assert_eq!(app.spinner.reasoning_started_at_ms, None);
    assert_eq!(app.spinner.thinking_until_ms, Some(2_200));
    assert_eq!(app.spinner.thought_duration_ms, 300);

    app.apply(
        ChatUpdate::ToolStarted {
            tool_call_id: "t".to_string(),
            tool_name: "bash".to_string(),
            timeout: None,
            agent_id: None,
        },
        600,
    );
    assert_eq!(app.spinner_mode(), SpinnerMode::ToolUse);
    app.apply(
        ChatUpdate::ToolCompleted {
            tool_call_id: "t".to_string(),
            success: true,
            message: None,
            exit_code: Some(0),
        },
        700,
    );
    app.apply(
        ChatUpdate::AssistantDelta {
            message_id: "m".to_string(),
            content: "Done".to_string(),
            agent_id: None,
        },
        800,
    );
    assert_eq!(app.spinner_mode(), SpinnerMode::LiveResponse);
    let applied = app.apply(ChatUpdate::Idle, 900);
    assert!(applied.close_picker);
    assert!(!app.status.busy);
    assert!(!app.spinner.active);
    assert!(app.assistant_live.is_empty());
    app.apply(ChatUpdate::TaskComplete, 950);
    assert_eq!(
        describe(&app.entries),
        vec![
            "user:go",
            "Reasoning:r:thought",
            "tool:t:Success",
            "result:t:Success",
            "Assistant:m:Done",
            "completed",
        ]
    );
}

#[test]
fn todo_refreshes_are_requested_only_while_the_list_shows_a_fleet_run() {
    let mut app = chat();
    app.apply(ChatUpdate::TodosChanged, 0);
    assert!(!app.take_todo_refresh_request());
    app.set_fleet_active(true);
    app.show_todos = true;
    app.apply(ChatUpdate::TodosChanged, 0);
    assert!(app.take_todo_refresh_request());
    assert!(!app.take_todo_refresh_request());
    app.apply(
        ChatUpdate::ModelChanged {
            model: "gpt-5".to_string(),
        },
        0,
    );
    assert_eq!(app.status.model.as_deref(), Some("gpt-5"));

    app.apply(ChatUpdate::TodosChanged, 0);
    assert!(app.take_todo_refresh());
    assert!(!app.take_todo_refresh());
    app.set_fleet_active(false);
    app.apply(ChatUpdate::TodosChanged, 0);
    assert!(!app.take_todo_refresh());
}

#[test]
fn live_entries_stay_open_until_their_stream_or_call_ends() {
    let mut app = chat();
    app.add_user_message("go".to_string(), 0);
    app.apply(
        ChatUpdate::AssistantDelta {
            message_id: "m".to_string(),
            content: "partial".to_string(),
            agent_id: Some("sub".to_string()),
        },
        1,
    );
    app.apply(
        ChatUpdate::ToolStarted {
            tool_call_id: "t".to_string(),
            tool_name: "bash".to_string(),
            timeout: None,
            agent_id: None,
        },
        2,
    );
    assert_eq!(app.screen_entry(0), Some((LiveEntryKind::User, true)));
    assert_eq!(app.screen_entry(1), Some((LiveEntryKind::AssistantNested, false)));
    assert_eq!(app.screen_entry(2), Some((LiveEntryKind::Tool, false)));
    assert_eq!(app.screen_entry(3), Some((LiveEntryKind::Tool, false)));

    app.apply(ChatUpdate::Idle, 3);
    assert_eq!(app.screen_entry(1), Some((LiveEntryKind::AssistantNested, true)));
    assert_eq!(app.screen_entry(2), Some((LiveEntryKind::Tool, false)));
    assert_eq!(app.screen_entry(4), None);
}

#[test]
fn context_warning_is_due_within_twenty_thousand_tokens_of_a_known_limit() {
    let mut app = chat();
    app.apply(
        ChatUpdate::Usage {
            usage: UsageSnapshot {
                current_tokens: 79_999,
                token_limit: 100_000,
            },
        },
        0,
    );
    let usage = app.status.usage.expect("usage is kept");
    assert!(!context_warning_due(
        app.context_gate.suppressed,
        usage.current_tokens,
        usage.token_limit
    ));
    assert!(context_warning_due(false, 80_000, 100_000));
    assert!(context_warning_due(false, 150_001, 100_000));
    assert!(!context_warning_due(true, 150_001, 100_000));
    for token_limit in [0, -1] {
        assert!(!context_warning_due(false, token_limit, token_limit));
    }

    app.add_user_message("next".to_string(), 0);
    assert!(app.status.usage.is_some());
    app.reset_for_new_conversation();
    assert!(app.status.usage.is_none());
}

#[test]
fn spinner_verb_precedence_is_stable_for_a_turn_and_resets_on_idle() {
    let mut app = chat();
    app.add_user_message("first".to_string(), 0);
    let first_verb = spinner_verb_for_turn(Some("Explicit…"), None, app.spinner_turn, "first");
    assert_eq!(first_verb, "Explicit…");
    assert!(app.spinner.active);

    app.apply(ChatUpdate::Idle, 10);
    assert!(!app.spinner.active);
    app.add_user_message("second".to_string(), 20);
    assert_eq!(
        spinner_verb_for_turn(Some("Explicit…"), None, app.spinner_turn, "second"),
        first_verb
    );
    assert_eq!(app.spinner_turn, 2);
    assert_eq!(builtin_spinner_verb(1, "first"), builtin_spinner_verb(1, "first"));
}

#[test]
fn todo_visibility_is_only_available_for_an_active_fleet() {
    let mut app = chat();
    assert_eq!(ctrl_t(&app), KeyCommand::Ignore);

    app.set_fleet_active(true);
    assert_eq!(ctrl_t(&app), KeyCommand::LoadTodos);

    app.set_todos(vec![TodoRow {
        id: "todo-1".to_string(),
        title: "Inspect the transport".to_string(),
        description: String::new(),
        status: "in_progress".to_string(),
    }]);
    assert!(app.show_todos);

    app.apply(ChatUpdate::TodosChanged, 0);
    assert!(app.take_todo_refresh_request());
    assert!(!app.take_todo_refresh_request());

    assert_eq!(ctrl_t(&app), KeyCommand::HideTodos);
}

fn ctrl_t(app: &ChatState<String>) -> KeyCommand {
    key_command(
        KeyPress {
            key: Key::Char('t'),
            modifiers: Modifiers {
                shift: false,
                control: true,
                alt: false,
                other: false,
            },
            press: true,
        },
        KeyContext {
            picker: None,
            blocked: app.blocked,
            reconnecting: app.reconnecting,
            completion_open: false,
            busy: app.status.busy,
            fleet_active: app.fleet_active,
            show_todos: app.show_todos,
            shift_held: false,
            picker_items: 0,
            approval_supports_trust: false,
        },
    )
}

#[test]
fn reduced_motion_reveals_what_was_received() {
    let mut app = chat();
    app.add_user_message("inspect".to_string(), 0);
    app.apply(
        ChatUpdate::AssistantDelta {
            message_id: "message-1".to_string(),
            content: "hello world".to_string(),
            agent_id: None,
        },
        20,
    );
    assert_eq!(app.spinner.displayed_characters, 0);
    app.set_reduced_motion(false);
    assert_eq!(app.spinner.displayed_characters, 0);
    assert!(!app.reduced_motion);
    app.set_reduced_motion(true);
    assert!(app.reduced_motion);
    assert_eq!(app.spinner.displayed_characters, 11);
}

fn usage_facts(requests: u64, api_duration_ms: u64) -> UsageFacts {
    UsageFacts {
        cost: "0.000 AIU".to_string(),
        premium_request_cost: "2.00".to_string(),
        requests,
        api_duration_ms,
    }
}

#[test]
fn usage_metrics_are_static_transcript_output() {
    let mut app = chat();
    app.show_usage(usage_facts(4, 1250), None);
    assert!(app.picker.is_none());
    assert_eq!(app.usage_metrics.as_ref().map(|m| m.requests), Some(4));
    assert_eq!(app.usage_metrics.as_ref().map(|m| m.api_duration_ms), Some(1250));
    assert!(app.picker.is_none());
}

#[test]
fn usage_transcript_echoes_once_and_commits_one_immutable_output_block() {
    let mut app = chat();
    app.apply(
        ChatUpdate::Usage {
            usage: UsageSnapshot {
                current_tokens: 12_345,
                token_limit: 100_000,
            },
        },
        0,
    );
    app.show_usage(usage_facts(4, 1250), None);

    assert_eq!(app.entries.len(), 2);
    assert_eq!(describe(&app.entries[..1]), vec!["user:/usage"]);
    let output = match &app.entries[1] {
        picopilot::transcript::TranscriptEntry::LocalOutput(lines) => lines.clone(),
        _ => panic!("usage should be local output"),
    };
    assert_eq!(
        output,
        vec![
            "Session cost: 0.000 AIU".to_string(),
            "Premium request cost: 2.00".to_string(),
            "Requests: 4".to_string(),
            "API time: 1250 ms".to_string(),
            "Context window: 12,345 / 100,000 tokens".to_string(),
            "Context attribution unavailable.".to_string(),
        ]
    );

    app.set_usage_metrics(usage_facts(8, 2500));
    match &app.entries[1] {
        picopilot::transcript::TranscriptEntry::LocalOutput(lines) => assert_eq!(lines, &output),
        _ => panic!("the usage block stays as it was"),
    }
}

#[test]
fn a_rising_compaction_count_holds_the_context_warning_back() {
    let mut app = chat();
    let attribution = |compactions: i64| picopilot::transcript_text::AttributionFacts {
        model_id: "gpt-5".to_string(),
        total_tokens: 12_345,
        prompt_token_limit: 100_000,
        categories: Vec::new(),
        compactions,
    };
    app.set_context_attribution(Some(attribution(0)));
    assert!(!app.context_gate.suppressed);
    app.set_context_attribution(Some(attribution(1)));
    assert!(app.context_gate.suppressed);
    assert_eq!(app.context_gate.observed_compactions, Some(1));
    app.add_user_message("next".to_string(), 0);
    assert!(!app.context_gate.suppressed);
}

#[test]
fn status_is_echoed_and_shown_as_joined_lines() {
    let mut app: ChatState<String> = ChatState::new(Some("gpt-5".to_string()), false);
    app.set_toolset(Toolset::shell_only());
    app.show_status(&picopilot::transcript_text::StatusFacts {
        version: "0.1.0".to_string(),
        session_id: Some("session-123".to_string()),
        working_directory: "/work".to_string(),
        model: app.status.model.clone(),
        enabled_tools: app.toolset.len(),
        tool_count: picopilot::toolset::TOOL_COUNT,
        enabled_skills: 0,
        skill_count: 0,
    });
    assert_eq!(describe(&app.entries[..1]), vec!["user:/status"]);
    match &app.entries[1] {
        picopilot::transcript::TranscriptEntry::LocalOutput(lines) => {
            assert_eq!(lines[0], "Version: 0.1.0");
            assert_eq!(lines[1], "Session ID: session-123");
            assert_eq!(lines[2], "cwd: /work");
            assert_eq!(lines[3], "");
            assert_eq!(lines[4], "Model: gpt-5");
            assert!(lines[5].starts_with("Tools: 1 enabled, 6 disabled"));
        }
        _ => panic!("status should be local output"),
    }
}
