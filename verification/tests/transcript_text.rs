use picopilot::picker::ApprovalStatus;
use picopilot::transcript_text::{
    agent_suffix, approval_rows, banner_rows, diagnostic_rows, labeled_rows, lines_of,
    local_output_rows, speaker_prefix,
    status_count_spans, status_detail_lines, subagent_rows, usage_detail_lines, AttributionFacts,
    BannerSeverity, ContextCategoryFacts, StatusFacts, UsageFacts,
};
use picopilot::chat::UsageSnapshot;
use picopilot::tui::SubagentStatus;

fn joined(rows: &[(String, String)]) -> Vec<String> {
    rows.iter().map(|(gutter, text)| format!("{gutter}{text}")).collect()
}

#[test]
fn lines_split_like_str_lines() {
    for text in ["", "one", "one\ntwo", "one\r\ntwo\r\n", "a\n\nb\n", "bare\r", "\n"] {
        let expected: Vec<String> = text.lines().map(str::to_string).collect();
        assert_eq!(lines_of(text), expected, "lines of {text:?}");
    }
}

#[test]
fn labels_take_eighteen_columns_and_later_lines_align_under_the_text() {
    let rows = labeled_rows("warn", "first\nsecond");
    assert_eq!(
        joined(&rows),
        vec![
            "warn               first".to_string(),
            "                   second".to_string()
        ]
    );
    let empty = labeled_rows("debug", "");
    assert_eq!(joined(&empty), vec!["debug              ".to_string()]);
    let long = labeled_rows("a label longer than the column", "x");
    assert_eq!(joined(&long), vec!["a label longer than the column x".to_string()]);
}

#[test]
fn banners_name_their_severity_and_link() {
    let rows = banner_rows(
        BannerSeverity::RecoverableError,
        "could not load Fleet todos",
        Some("https://example.test/help"),
    );
    assert_eq!(rows[0].0.trim_end(), "retry");
    assert_eq!(rows[0].1, "could not load Fleet todos (https://example.test/help)");
    assert_eq!(banner_rows(BannerSeverity::Warning, "w", None)[0].0.trim_end(), "warn");
    assert_eq!(banner_rows(BannerSeverity::BlockingError, "e", None)[0].0.trim_end(), "error");
}

#[test]
fn approvals_show_their_state_and_request() {
    let rows = approval_rows("Shell", "bash", "cargo test", ApprovalStatus::ApprovedOnce);
    assert_eq!(
        joined(&rows),
        vec!["approve [approved once] Shell (bash): cargo test".to_string()]
    );
    let pending = approval_rows("Shell", "bash", "ls", ApprovalStatus::Pending);
    assert!(pending[0].0.starts_with("approve [pending]"));
}

#[test]
fn subagents_show_their_state_agent_and_error() {
    let running = subagent_rows("Task", SubagentStatus::Running, None, Some("task-one"));
    assert_eq!(running.len(), 1);
    assert_eq!(running[0].0, "agent Task [running] (task-one) ");
    assert_eq!(running[0].1, "");

    let failed = subagent_rows("Task", SubagentStatus::Failed, Some("boom\ntrace"), None);
    assert_eq!(
        joined(&failed),
        vec![
            "agent Task [failed] boom".to_string(),
            "                   trace".to_string()
        ]
    );
    assert_eq!(agent_suffix(None), "");
}

#[test]
fn debug_messages_need_internals() {
    assert!(diagnostic_rows("trace", false).is_empty());
    assert_eq!(
        joined(&diagnostic_rows("trace", true)),
        vec!["debug              trace".to_string()]
    );
}

#[test]
fn status_lines_use_full_identity_and_colored_count_fields() {
    let facts = StatusFacts {
        version: "0.1.0".to_string(),
        session_id: Some("session-123".to_string()),
        working_directory: "C:\\dev\\picopilot".to_string(),
        model: Some("gpt-5".to_string()),
        enabled_tools: 1,
        tool_count: 7,
        enabled_skills: 1,
        skill_count: 3,
    };
    let rendered: Vec<String> = status_detail_lines(&facts)
        .iter()
        .map(|spans| spans.concat())
        .collect();
    assert_eq!(rendered[0], "Version: 0.1.0");
    assert_eq!(rendered[1], "Session ID: session-123");
    assert_eq!(rendered[2], "cwd: C:\\dev\\picopilot");
    assert_eq!(rendered[3], "");
    assert_eq!(rendered[4], "Model: gpt-5");
    assert!(rendered[5].contains("Tools: "));
    assert!(rendered[5].contains("· /tools"));
    assert_eq!(rendered[6], "Skills: 1 enabled, 2 disabled · /skills");
    assert!(!rendered.iter().any(|line| line.contains("reasoning")));
    assert!(!rendered.iter().any(|line| line.contains("cost")));

    let spans = status_count_spans("Tools", 1, 6, "/tools");
    assert!(spans.iter().any(|span| span == "1 enabled"));
    assert!(spans.iter().any(|span| span == "6 disabled"));
}

#[test]
fn status_defaults_before_a_session_and_model_exist() {
    let facts = StatusFacts {
        version: "0.1.0".to_string(),
        session_id: None,
        working_directory: "/work".to_string(),
        model: None,
        enabled_tools: 9,
        tool_count: 7,
        enabled_skills: 0,
        skill_count: 0,
    };
    let rendered: Vec<String> = status_detail_lines(&facts)
        .iter()
        .map(|spans| spans.concat())
        .collect();
    assert_eq!(rendered[1], "Session ID: unknown");
    assert_eq!(rendered[4], "Model: auto");
    assert_eq!(rendered[5], "Tools: 9 enabled, 0 disabled · /tools");
}

#[test]
fn empty_local_output_keeps_the_dim_five_cell_gutter() {
    let rows = local_output_rows(&Vec::new());

    assert_eq!(rows.len(), 1);
    assert_eq!(format!("{}{}", rows[0].0, rows[0].1), "  ⎿  (no content)");
    assert_eq!(rows[0].0, "  ⎿  ");
}

#[test]
fn local_output_hooks_its_first_line_only() {
    let rows = local_output_rows(&vec!["Usage:".to_string(), "  Requests: 3".to_string()]);
    assert_eq!(
        rows,
        vec![
            ("  ⎿  ".to_string(), "Usage:".to_string()),
            ("     ".to_string(), "  Requests: 3".to_string()),
        ]
    );
}

#[test]
fn speakers_name_the_agent_after_their_symbol() {
    assert_eq!(speaker_prefix("  ", None), "   ");
    assert_eq!(speaker_prefix("●", Some("explorer")), "● explorer ");
}

#[test]
fn status_block_displays_the_selected_tool_count() {
    let facts = StatusFacts {
        version: "0.1.0".to_string(),
        session_id: None,
        working_directory: "/work".to_string(),
        model: None,
        enabled_tools: 1,
        tool_count: 7,
        enabled_skills: 0,
        skill_count: 0,
    };
    let lines = status_detail_lines(&facts);
    assert!(lines
        .iter()
        .any(|line| line.concat().contains("Tools: 1 enabled, 6 disabled")));
}

fn usage_facts() -> UsageFacts {
    UsageFacts {
        cost: "0.000 AIU".to_string(),
        premium_request_cost: "2.00".to_string(),
        requests: 4,
        api_duration_ms: 1250,
    }
}

#[test]
fn usage_lines_keep_context_attribution_fields() {
    let attribution = AttributionFacts {
        model_id: "gpt-5".to_string(),
        total_tokens: 12_345,
        prompt_token_limit: 100_000,
        categories: vec![ContextCategoryFacts {
            label: "Messages".to_string(),
            tokens: 12_345,
            share: "100.0".to_string(),
        }],
        compactions: 0,
    };
    let lines = usage_detail_lines(
        &Some(usage_facts()),
        &Some(UsageSnapshot {
            current_tokens: 12_345,
            token_limit: 100_000,
        }),
        &Some(attribution),
    );
    assert_eq!(
        lines,
        vec![
            "Session cost: 0.000 AIU",
            "Premium request cost: 2.00",
            "Requests: 4",
            "API time: 1250 ms",
            "Context window: 12,345 / 100,000 tokens",
            "Attribution: 12,345 / 100,000 tokens (gpt-5)",
            "  Messages: 12,345 (100.0%)",
            "Compactions: 0",
        ]
    );
}

#[test]
fn usage_without_metrics_or_attribution_says_so() {
    assert_eq!(
        usage_detail_lines(&None, &None, &None),
        vec!["Usage metrics unavailable."]
    );
    let lines = usage_detail_lines(&Some(usage_facts()), &None, &None);
    assert_eq!(lines.len(), 5);
    assert_eq!(lines[3], "API time: 1250 ms");
    assert_eq!(lines[4], "Context attribution unavailable.");
}
