use picopilot::spinner::{SpinnerClock, SpinnerPlatform};
use picopilot::spinner_row::{
    clip_spans, message_segments, spinner_prefix_width, normalize_spinner_verb, spinner_glyph, spinner_mode_for, spinner_row,
    spinner_status_fits, spinner_status_parts, spinner_token_estimate, spinner_verb_for_turn,
    turn_verb,
    thinking_status, SpinnerMode,
};
use picopilot::todos::TodoRow;

fn flags(segments: &[(String, bool)]) -> Vec<bool> {
    segments.iter().map(|(_, shimmer)| *shimmer).collect()
}

fn texts(parts: &[(String, bool)]) -> Vec<&str> {
    parts.iter().map(|(text, _)| text.as_str()).collect()
}

#[test]
fn spinner_mode_precedence_is_tool_then_reasoning_then_response_then_requesting() {
    assert_eq!(spinner_mode_for(false, false, false), SpinnerMode::Requesting);
    assert_eq!(spinner_mode_for(false, false, true), SpinnerMode::LiveResponse);
    assert_eq!(spinner_mode_for(false, true, true), SpinnerMode::Reasoning);
    assert_eq!(spinner_mode_for(true, true, true), SpinnerMode::ToolUse);
}

#[test]
fn spinner_glyph_changes_only_at_the_120_ms_boundaries() {
    let expected = ["·", "✢", "*", "✶", "✻", "✽", "✽", "✻", "✶", "*", "✢", "·"];
    for (index, glyph) in expected.iter().enumerate() {
        let before = spinner_glyph(SpinnerPlatform::WindowsLinux, false, index as u64 * 120 + 119);
        assert_eq!(before, *glyph);
        let at_boundary =
            spinner_glyph(SpinnerPlatform::WindowsLinux, false, (index as u64 + 1) * 120);
        assert_eq!(at_boundary, expected[(index + 1) % expected.len()]);
    }
    assert_eq!(spinner_glyph(SpinnerPlatform::Ghostty, true, 500), "●");
}

#[test]
fn shimmer_is_grapheme_aware_and_moves_by_mode() {
    let segments = message_segments("a🙂b", SpinnerMode::Requesting, 500, false);
    assert_eq!(texts(&segments), vec!["a", "🙂", "b", " "]);
    assert_eq!(flags(&segments), vec![true, true, false, false]);

    let reverse = message_segments("abc", SpinnerMode::LiveResponse, 2_000, false);
    assert!(reverse.iter().any(|(_, shimmer)| *shimmer));
    assert_eq!(flags(&reverse), vec![false, false, true, false]);
}

#[test]
fn a_still_or_tool_spinner_draws_the_message_whole() {
    let still = message_segments("Baking…", SpinnerMode::Requesting, 500, true);
    assert_eq!(still, vec![("Baking… ".to_string(), false)]);
    let tool = message_segments("Baking…", SpinnerMode::ToolUse, 500, false);
    assert_eq!(tool, vec![("Baking… ".to_string(), false)]);
}

#[test]
fn thinking_status_holds_then_reports_duration() {
    let mut clock = SpinnerClock::started(1_000);
    assert_eq!(
        thinking_status(&clock, true, Some("high"), 1_500),
        Some(("thinking with high effort".to_string(), true))
    );
    assert_eq!(
        thinking_status(&clock, true, Some("  "), 1_500),
        Some(("thinking".to_string(), true))
    );
    clock.thinking_until_ms = Some(3_000);
    clock.thought_until_ms = Some(5_000);
    clock.thought_duration_ms = 1_500;
    assert_eq!(
        thinking_status(&clock, false, None, 2_999),
        Some(("thinking".to_string(), true))
    );
    assert_eq!(
        thinking_status(&clock, false, None, 3_001),
        Some(("thought for 2s".to_string(), false))
    );
    assert_eq!(thinking_status(&clock, false, None, 5_000), None);
    clock.thought_duration_ms = 100;
    assert_eq!(
        thinking_status(&clock, false, None, 4_000),
        Some(("thought for 1s".to_string(), false))
    );
}

#[test]
fn status_fields_need_room_after_the_message() {
    let parts = vec!["12s".to_string()];
    // The fields take their width plus two cells after the prefix.
    assert!(spinner_status_fits(10, 15, &parts));
    assert!(!spinner_status_fits(10, 14, &parts));
    assert!(!spinner_status_fits(0, 80, &Vec::new()));
    let two = vec!["1m 5s".to_string(), "↓ 9 tokens".to_string()];
    assert!(spinner_status_fits(0, 2 + 5 + 3 + 10, &two));
    assert!(!spinner_status_fits(0, 2 + 5 + 3 + 9, &two));
}

#[test]
fn status_shows_timer_and_tokens_only_after_thirty_seconds() {
    let tokens = spinner_token_estimate(4_936);
    assert_eq!(tokens, 1_234);
    let before = spinner_status_parts(&None, false, 30_000, tokens, "1.2k", false, 80, 12);
    assert!(before.is_empty());
    let after = spinner_status_parts(&None, false, 30_001, tokens, "1.2k", false, 80, 12);
    assert_eq!(texts(&after), vec!["30s", "↓ 1.2k tokens"]);
    assert!(after.iter().all(|(_, thinking)| !thinking));

    let requesting = spinner_status_parts(&None, true, 5_000, tokens, "1.2k", true, 80, 12);
    assert_eq!(texts(&requesting), vec!["5s", "↑ 1.2k tokens"]);

    let nothing_yet = spinner_status_parts(&None, true, 5_000, 0, "0", false, 80, 12);
    assert_eq!(texts(&nothing_yet), vec!["5s"]);
}

#[test]
fn the_thinking_notice_falls_back_to_a_bare_word_then_drops() {
    let thinking = Some(("thinking with high effort".to_string(), true));
    let wide = spinner_status_parts(&thinking, false, 0, 0, "0", false, 80, 12);
    assert_eq!(wide, vec![("thinking with high effort".to_string(), true)]);
    let narrow = spinner_status_parts(&thinking, false, 0, 0, "0", false, 24, 12);
    assert_eq!(narrow, vec![("thinking".to_string(), true)]);
    let none = spinner_status_parts(&thinking, false, 0, 0, "0", false, 20, 12);
    assert!(none.is_empty());
    let thought = Some(("thought for 2s".to_string(), false));
    let held = spinner_status_parts(&thought, true, 40_000, 10, "10", false, 80, 12);
    assert_eq!(
        held,
        vec![
            ("thought for 2s".to_string(), true),
            ("40s".to_string(), false),
            ("↓ 10 tokens".to_string(), false)
        ]
    );
}

#[test]
fn spinner_width_never_overflows() {
    let spans = vec![
        "* ".to_string(),
        "Baking… ".to_string(),
        " (31s · ↓ 12.4k tokens)".to_string(),
    ];
    for width in 0..=40usize {
        let clipped = clip_spans(&spans, width);
        let used: usize = clipped
            .iter()
            .map(|(_, text)| text.chars().count())
            .sum();
        assert!(used <= width, "spinner overflow at width {width}");
    }
    assert_eq!(clip_spans(&spans, 0), Vec::new());
    assert_eq!(
        clip_spans(&spans, 7),
        vec![(0, "* ".to_string()), (1, "Bakin".to_string())]
    );
    assert_eq!(
        clip_spans(&spans, 80),
        vec![
            (0, "* ".to_string()),
            (1, "Baking… ".to_string()),
            (2, " (31s · ↓ 12.4k tokens)".to_string())
        ]
    );
}

#[test]
fn clipping_stops_at_a_wide_cluster_that_does_not_fit() {
    let spans = vec!["a🙂b".to_string(), "c".to_string()];
    assert_eq!(clip_spans(&spans, 2), vec![(0, "a".to_string()), (1, "c".to_string())]);
    assert_eq!(clip_spans(&spans, 3), vec![(0, "a🙂".to_string())]);
}

fn todo(title: &str, description: &str, status: &str) -> TodoRow {
    TodoRow {
        id: "todo".to_string(),
        title: title.to_string(),
        description: description.to_string(),
        status: status.to_string(),
    }
}

#[test]
fn spinner_verb_uses_the_active_todo_before_the_builtin_list() {
    let rows = vec![todo("Fallback title", "Inspecting the source", "in_progress")];
    assert_eq!(
        spinner_verb_for_turn(None, Some(&rows), 1, "inspect"),
        "Inspecting the source…"
    );
    let blank = vec![todo("Fallback title", "  ", "in-progress")];
    assert_eq!(
        spinner_verb_for_turn(None, Some(&blank), 1, "inspect"),
        "Fallback title…"
    );
}

#[test]
fn spinner_verb_precedence_is_stable_for_a_turn() {
    let rows = vec![todo("Todo title", "Todo verb", "active")];
    let first = spinner_verb_for_turn(Some("Explicit…"), Some(&rows), 1, "first");
    assert_eq!(first, "Explicit…");
    assert_eq!(spinner_verb_for_turn(Some("Explicit…"), None, 2, "second"), first);
    assert_eq!(
        spinner_verb_for_turn(Some(" … "), Some(&rows), 3, "third"),
        "Todo verb…"
    );
    let builtin = spinner_verb_for_turn(None, None, 1, "first");
    assert_eq!(builtin, spinner_verb_for_turn(None, None, 1, "first"));
    assert!(builtin.ends_with('…'));
    let waiting = vec![todo("Queued", "Not yet", "pending")];
    assert_eq!(spinner_verb_for_turn(None, Some(&waiting), 1, "first"), builtin);
}

#[test]
fn spinner_verbs_lose_surrounding_space_and_ellipses() {
    assert_eq!(normalize_spinner_verb("  Baking…… ").as_deref(), Some("Baking"));
    assert_eq!(normalize_spinner_verb("Half … done").as_deref(), Some("Half … done"));
    assert_eq!(normalize_spinner_verb(" …… "), None);
    assert_eq!(normalize_spinner_verb(""), None);
}

#[test]
fn the_builtin_verb_is_the_last_resort() {
    let rows = vec![todo("Todo title", "Todo verb", "active")];
    assert_eq!(turn_verb(None, Some(&rows), "Baking"), "Todo verb…");
    assert_eq!(turn_verb(Some("Explicit"), Some(&rows), "Baking"), "Explicit…");
    assert_eq!(turn_verb(None, None, "Baking"), "Baking…");
}

#[test]
fn the_prefix_counts_glyph_verb_and_spaces() {
    assert_eq!(spinner_prefix_width("Thinking\u{2026}"), 12);
    assert_eq!(spinner_prefix_width(""), 3);
    assert_eq!(spinner_prefix_width("\u{754c}"), 5);
}

#[test]
fn clipped_spinner_rows_never_exceed_their_width() {
    let spans = vec![
        "\u{273b} ".to_string(),
        "Thinking\u{2026} ".to_string(),
        "(31s \u{b7} 12.4k tokens)".to_string(),
    ];
    for width in 0..=40usize {
        let clipped = clip_spans(&spans, width);
        let cells: usize = clipped
            .iter()
            .map(|(_, text)| unicode_width::UnicodeWidthStr::width(text.as_str()))
            .sum();
        assert!(cells <= width, "spinner overflow at width {width}");
    }
}

fn row_width(row: &[(usize, String)]) -> usize {
    row.iter()
        .map(|(_, text)| unicode_width::UnicodeWidthStr::width(text.as_str()))
        .sum()
}

#[test]
fn spinner_width_never_overflows_and_idle_cleanup_leaves_no_spinner_history() {
    let mut app: picopilot::chat::ChatState<String> = picopilot::chat::ChatState::new(None, false);
    app.add_user_message("inspect".to_string(), 0);
    app.show_internals = true;
    app.spinner.displayed_characters = 49_600;
    let now = app.spinner.started_at_ms + 31_000;
    let verb = "Inspecting";
    for width in 0..=40 {
        let elapsed = app.spinner.elapsed_ms(now);
        let glyph = spinner_glyph(SpinnerPlatform::WindowsLinux, false, elapsed);
        let segments = message_segments(verb, SpinnerMode::Requesting, elapsed, false);
        let thinking = thinking_status(&app.spinner, false, None, now);
        let tokens = spinner_token_estimate(app.spinner.displayed_characters);
        let parts = spinner_status_parts(
            &thinking,
            app.show_internals,
            elapsed,
            tokens,
            "12.4k",
            true,
            width,
            spinner_prefix_width(verb),
        );
        let row = spinner_row(glyph, &segments, &parts, width);
        assert!(row_width(&row) <= width, "spinner overflow at width {width}");
    }
    let wide = spinner_row(
        spinner_glyph(SpinnerPlatform::WindowsLinux, false, 0),
        &message_segments(verb, SpinnerMode::Requesting, 0, false),
        &vec![("31s".to_string(), false), ("\u{2191} 12.4k tokens".to_string(), false)],
        80,
    );
    let text: String = wide.iter().map(|(_, t)| t.as_str()).collect();
    assert!(text.ends_with(" (31s \u{b7} \u{2191} 12.4k tokens)"));

    app.apply(picopilot::chat::ChatUpdate::Idle, 31_000);
    assert!(!app.spinner.active);
    app.add_user_message("blocked".to_string(), 32_000);
    app.add_banner(
        picopilot::transcript_text::BannerSeverity::BlockingError,
        "blocked".to_string(),
    );
    assert!(!app.spinner.active);
}

#[test]
fn pasted_multiline_text_is_one_normalized_prompt() {
    let mut app: picopilot::chat::ChatState<String> = picopilot::chat::ChatState::new(None, false);
    app.insert_paste("first\r\nsecond\rthird");
    assert_eq!(
        app.take_submission(),
        picopilot::keymap::SubmitAction::Send("first\nsecond\nthird".to_string())
    );
    assert_eq!(app.input, "");
}
