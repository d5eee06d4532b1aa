use picopilot::keymap::{key_command, Key, KeyCommand, KeyContext, KeyPress, Modifiers};
use picopilot::tool_calls::{
    close_turn, complete_tool, finish_subagent, has_active_tool, mark_in_flight_tools_unknown,
    record_tool_output, record_tool_status, shown_tool_state, start_subagent, start_tool,
};
use picopilot::transcript::{ToolCallState, ToolResultState, TranscriptEntry};
use picopilot::tui::SubagentStatus;

fn describe(entries: &[TranscriptEntry]) -> Vec<String> {
    entries
        .iter()
        .map(|entry| match entry {
            TranscriptEntry::Tool {
                id,
                name,
                success,
                state,
                unknown,
                ..
            } => format!("tool:{id}:{name}:{success:?}:{state:?}:{unknown}"),
            TranscriptEntry::ToolProgress {
                id,
                output,
                status,
                timeout,
                ..
            } => format!("progress:{id}:{output}:{status}:{timeout:?}"),
            TranscriptEntry::ToolResult {
                id,
                content,
                partial_output,
                exit_code,
                state,
                ..
            } => format!("result:{id}:{content}:{partial_output:?}:{exit_code:?}:{state:?}"),
            TranscriptEntry::Subagent {
                name,
                status,
                error,
                ..
            } => format!("subagent:{name}:{status:?}:{error:?}"),
            TranscriptEntry::Completed => "completed".to_string(),
            TranscriptEntry::User(text) => format!("user:{text}"),
            _ => "other".to_string(),
        })
        .collect()
}

fn started(id: &str, name: &str) -> Vec<TranscriptEntry> {
    let mut entries = Vec::new();
    assert!(start_tool(
        &mut entries,
        id.to_string(),
        name.to_string(),
        None,
        0,
        None
    ));
    entries
}

#[test]
fn a_started_tool_shows_a_running_header_and_an_empty_progress_row() {
    let mut entries = vec![TranscriptEntry::User("run the tests".to_string())];
    assert!(start_tool(
        &mut entries,
        "call-1".to_string(),
        "bash".to_string(),
        None,
        40,
        Some("2m".to_string())
    ));
    assert_eq!(
        describe(&entries),
        vec![
            "user:run the tests",
            "tool:call-1:bash:None:Running:false",
            "progress:call-1:::Some(\"2m\")",
        ]
    );
    assert!(has_active_tool(&entries));

    assert!(!start_tool(
        &mut entries,
        "call-1".to_string(),
        "bash".to_string(),
        None,
        90,
        None
    ));
    assert_eq!(entries.len(), 3);
}

#[test]
fn output_accumulates_and_status_is_replaced() {
    let mut entries = started("call-1", "bash");
    assert_eq!(record_tool_output(&mut entries, &"call-1".to_string(), "line 1\n"), Some(1));
    assert_eq!(record_tool_output(&mut entries, &"call-1".to_string(), "line 2"), Some(1));
    assert_eq!(
        record_tool_status(&mut entries, &"call-1".to_string(), "compiling".to_string()),
        Some(1)
    );
    assert_eq!(
        record_tool_status(&mut entries, &"call-1".to_string(), "testing".to_string()),
        Some(1)
    );
    assert_eq!(
        describe(&entries)[1],
        "progress:call-1:line 1\nline 2:testing:None"
    );
    assert_eq!(record_tool_output(&mut entries, &"other".to_string(), "x"), None);
}

#[test]
fn a_completed_call_replaces_its_progress_with_a_result() {
    let mut entries = started("call-1", "bash");
    record_tool_output(&mut entries, &"call-1".to_string(), "partial");
    entries.push(TranscriptEntry::User("later".to_string()));
    assert!(complete_tool(
        &mut entries,
        "call-1".to_string(),
        true,
        Some("all passed".to_string()),
        Some(0),
        false
    ));
    assert_eq!(
        describe(&entries),
        vec![
            "tool:call-1:bash:Some(true):Success:false",
            "user:later",
            "result:call-1:all passed:Some(\"partial\"):Some(0):Success",
        ]
    );
    assert!(!has_active_tool(&entries));

    assert!(!complete_tool(
        &mut entries,
        "call-1".to_string(),
        false,
        None,
        None,
        true
    ));
    assert_eq!(entries.len(), 3);
}

#[test]
fn a_nonzero_exit_code_fails_a_reported_success() {
    let mut entries = started("call-1", "bash");
    assert!(complete_tool(
        &mut entries,
        "call-1".to_string(),
        true,
        None,
        Some(2),
        false
    ));
    assert_eq!(
        describe(&entries),
        vec![
            "tool:call-1:bash:Some(false):Error:false",
            "result:call-1::None:Some(2):Error",
        ]
    );
}

#[test]
fn a_cancelled_call_ends_cancelled() {
    let mut entries = started("call-1", "view");
    assert!(complete_tool(
        &mut entries,
        "call-1".to_string(),
        false,
        Some("stopped".to_string()),
        None,
        true
    ));
    match &entries[0] {
        TranscriptEntry::Tool { state, .. } => assert_eq!(*state, ToolCallState::Cancelled),
        _ => panic!("the header stays first"),
    }
    match &entries[1] {
        TranscriptEntry::ToolResult { state, .. } => {
            assert_eq!(*state, ToolResultState::Cancelled)
        }
        _ => panic!("the result follows the header"),
    }
}

#[test]
fn completing_an_unknown_call_changes_nothing() {
    let mut entries = vec![TranscriptEntry::Other];
    assert!(!complete_tool(
        &mut entries,
        "missing".to_string(),
        true,
        None,
        None,
        false
    ));
    assert_eq!(describe(&entries), vec!["other"]);
}

#[test]
fn lost_connections_mark_only_unfinished_calls_unknown() {
    let mut entries = started("call-1", "bash");
    start_tool(
        &mut entries,
        "call-2".to_string(),
        "view".to_string(),
        None,
        5,
        None,
    );
    complete_tool(
        &mut entries,
        "call-2".to_string(),
        true,
        None,
        None,
        false,
    );
    let changed = mark_in_flight_tools_unknown(&mut entries);
    assert_eq!(changed, vec![0]);
    assert_eq!(
        describe(&entries),
        vec![
            "tool:call-1:bash:None:Unknown:true",
            "progress:call-1:::None",
            "tool:call-2:view:Some(true):Success:false",
            "result:call-2::None:None:Success",
        ]
    );
    assert!(!has_active_tool(&entries));
}

#[test]
fn subagents_finish_the_latest_matching_running_entry() {
    let mut entries = Vec::new();
    start_subagent(
        &mut entries,
        "explore".to_string(),
        "call-1".to_string(),
        "Explorer".to_string(),
        Some("agent-a".to_string()),
    );
    start_subagent(
        &mut entries,
        "explore".to_string(),
        "call-1".to_string(),
        "Explorer".to_string(),
        Some("agent-b".to_string()),
    );
    assert!(has_active_tool(&entries));
    assert_eq!(
        finish_subagent(
            &mut entries,
            &"explore".to_string(),
            &"call-1".to_string(),
            &Some("agent-a".to_string()),
            None,
        ),
        Some(0)
    );
    assert_eq!(
        finish_subagent(
            &mut entries,
            &"explore".to_string(),
            &"call-1".to_string(),
            &None,
            Some("timed out".to_string()),
        ),
        Some(1)
    );
    assert_eq!(
        describe(&entries),
        vec![
            "subagent:explore:Completed:None",
            "subagent:explore:Failed:Some(\"timed out\")",
        ]
    );
    assert!(!has_active_tool(&entries));
    assert_eq!(
        finish_subagent(
            &mut entries,
            &"explore".to_string(),
            &"call-1".to_string(),
            &None,
            None,
        ),
        None
    );
    match &entries[0] {
        TranscriptEntry::Subagent { status, .. } => assert_eq!(*status, SubagentStatus::Completed),
        _ => panic!("a sub-agent entry"),
    }
}

#[test]
fn a_turn_closes_with_one_marker() {
    let mut entries = vec![TranscriptEntry::User("hi".to_string())];
    assert!(close_turn(&mut entries));
    assert!(!close_turn(&mut entries));
    assert_eq!(describe(&entries), vec!["user:hi", "completed"]);
}

#[test]
fn reconnecting_hijacks_input_and_marks_in_flight_tools_unknown() {
    let mut entries = Vec::new();
    start_tool(
        &mut entries,
        "tool-1".to_string(),
        "edit".to_string(),
        None,
        0,
        None,
    );
    let reconnecting = KeyContext {
        picker: None,
        blocked: false,
        reconnecting: true,
        completion_open: false,
        busy: false,
        fleet_active: false,
        show_todos: false,
        shift_held: false,
        picker_items: 0,
        approval_supports_trust: false,
    };
    let y = KeyPress {
        key: Key::Char('y'),
        modifiers: Modifiers {
            shift: false,
            control: false,
            alt: false,
            other: false,
        },
        press: true,
    };
    assert_eq!(key_command(y, reconnecting), KeyCommand::Ignore);

    mark_in_flight_tools_unknown(&mut entries);
    assert!(matches!(
        entries.first(),
        Some(TranscriptEntry::Tool {
            unknown: true,
            success: None,
            ..
        })
    ));

    complete_tool(
        &mut entries,
        "tool-1".to_string(),
        true,
        None,
        None,
        false,
    );
    assert!(matches!(
        entries.first(),
        Some(TranscriptEntry::Tool {
            unknown: false,
            success: Some(true),
            ..
        })
    ));
}

#[test]
fn headers_show_the_reported_outcome_and_keep_cancellations() {
    assert_eq!(shown_tool_state(Some(true), ToolCallState::Running), ToolCallState::Success);
    assert_eq!(shown_tool_state(Some(false), ToolCallState::Running), ToolCallState::Error);
    assert_eq!(
        shown_tool_state(Some(false), ToolCallState::Cancelled),
        ToolCallState::Cancelled
    );
    assert_eq!(shown_tool_state(Some(true), ToolCallState::Cancelled), ToolCallState::Success);
    assert_eq!(shown_tool_state(None, ToolCallState::Queued), ToolCallState::Queued);
}
