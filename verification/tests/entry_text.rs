use picopilot::entry_text::{entry_text, EntryText, LabelTone};
use picopilot::picker::ApprovalStatus;
use picopilot::transcript::{StreamKind, ToolCallState, TranscriptEntry};
use picopilot::transcript_text::BannerSeverity;
use picopilot::tui::SubagentStatus;

#[test]
fn messages_and_answers_are_markdown_bodies() {
    match entry_text(&TranscriptEntry::User("Inspect this".to_string()), false, &Vec::new()) {
        EntryText::UserMarkdown(content) => assert_eq!(content, "Inspect this"),
        _ => panic!("a user message is Markdown"),
    }
    let answer = TranscriptEntry::Streamed {
        kind: StreamKind::Assistant,
        id: "message-1".to_string(),
        content: "Done".to_string(),
        agent_id: None,
    };
    match entry_text(&answer, false, &Vec::new()) {
        EntryText::AnswerMarkdown(content) => assert_eq!(content, "Done"),
        _ => panic!("an answer is Markdown"),
    }
}

#[test]
fn huge_user_messages_are_cut_down() {
    let content = "x".repeat(10_001);
    match entry_text(&TranscriptEntry::User(content), false, &Vec::new()) {
        EntryText::UserMarkdown(shown) => {
            assert!(shown.contains("\u{2026} +0 lines \u{2026}"));
            assert!(shown.chars().count() < 10_001);
        }
        _ => panic!("a user message is Markdown"),
    }
}

#[test]
fn reasoning_sits_under_its_speakers_prefix() {
    let reasoning = |agent_id: Option<&str>| TranscriptEntry::Streamed {
        kind: StreamKind::Reasoning,
        id: "reasoning-1".to_string(),
        content: "Checking the files".to_string(),
        agent_id: agent_id.map(str::to_string),
    };
    match entry_text(&reasoning(None), false, &Vec::new()) {
        EntryText::ReasoningMarkdown { prefix, content } => {
            assert_eq!(prefix, "   ");
            assert_eq!(content, "Checking the files");
        }
        _ => panic!("reasoning is Markdown"),
    }
    match entry_text(&reasoning(Some("agent-1")), false, &Vec::new()) {
        EntryText::ReasoningMarkdown { prefix, .. } => assert_eq!(prefix, "   agent-1 "),
        _ => panic!("reasoning is Markdown"),
    }
}

#[test]
fn banners_and_subagents_are_labelled_in_their_tone() {
    let banner = TranscriptEntry::Banner {
        severity: BannerSeverity::BlockingError,
        message: "blocked".to_string(),
        url: Some("https://example.test".to_string()),
    };
    match entry_text(&banner, false, &Vec::new()) {
        EntryText::Labeled(tone, rows) => {
            assert_eq!(tone, LabelTone::Error);
            assert_eq!(rows[0].0.trim_end(), "error");
            assert_eq!(rows[0].1, "blocked (https://example.test)");
        }
        _ => panic!("a banner is labelled"),
    }
    let agent = TranscriptEntry::Subagent {
        name: "explore".to_string(),
        tool_call_id: "tool-1".to_string(),
        display_name: "Explore".to_string(),
        status: SubagentStatus::Running,
        error: None,
        agent_id: Some("agent-1".to_string()),
    };
    match entry_text(&agent, false, &Vec::new()) {
        EntryText::Labeled(tone, rows) => {
            assert_eq!(tone, LabelTone::Agent);
            assert_eq!(rows.len(), 1);
            assert!(rows[0].0.starts_with("agent Explore [running] (agent-1)"));
        }
        _ => panic!("a sub-agent is labelled"),
    }
}

#[test]
fn tool_calls_and_turn_ends_show_nothing_here() {
    let tool = TranscriptEntry::Tool {
        id: "tool-1".to_string(),
        name: "grep".to_string(),
        success: None,
        state: ToolCallState::Running,
        unknown: false,
        agent_id: None,
        started_at: 0,
    };
    assert!(matches!(entry_text(&tool, false, &Vec::new()), EntryText::Nothing));
    assert!(matches!(entry_text(&TranscriptEntry::Completed, false, &Vec::new()), EntryText::Nothing));
}

#[test]
fn debug_messages_need_internals_and_local_output_has_its_gutter() {
    let debug = TranscriptEntry::Diagnostic("session resumed".to_string());
    assert!(matches!(entry_text(&debug, false, &Vec::new()), EntryText::Nothing));
    match entry_text(&debug, true, &Vec::new()) {
        EntryText::Labeled(tone, rows) => {
            assert_eq!(tone, LabelTone::Debug);
            assert_eq!(rows[0].0.trim_end(), "debug");
            assert_eq!(rows[0].1, "session resumed");
        }
        _ => panic!("a debug message is labelled"),
    }
    match entry_text(&TranscriptEntry::LocalOutput(vec!["Set model to GPT-5".to_string()]), false, &Vec::new()) {
        EntryText::Labeled(tone, rows) => {
            assert_eq!(tone, LabelTone::Output);
            assert_eq!(rows, vec![("  \u{23bf}  ".to_string(), "Set model to GPT-5".to_string())]);
        }
        _ => panic!("local output is labelled"),
    }
}

#[test]
fn approvals_show_the_status_of_their_slot() {
    let approval = TranscriptEntry::Approval {
        category: "shell".to_string(),
        tool_name: "bash".to_string(),
        details: "cargo test".to_string(),
        slot: 1,
    };
    assert!(matches!(entry_text(&approval, false, &vec![ApprovalStatus::Pending]), EntryText::Nothing));
    let statuses = vec![ApprovalStatus::Pending, ApprovalStatus::Denied];
    match entry_text(&approval, false, &statuses) {
        EntryText::Labeled(tone, rows) => {
            assert_eq!(tone, LabelTone::Approval);
            assert_eq!(rows[0].0.trim_end(), "approve [denied]");
            assert_eq!(rows[0].1, "shell (bash): cargo test");
        }
        _ => panic!("an approval is labelled"),
    }
}
