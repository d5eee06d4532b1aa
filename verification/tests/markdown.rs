use picopilot::markdown::{
    markdown_lines, markdown_text_lines, prefixed_lines, Accent, CellAlignment, MarkdownEvent, MarkdownTag, StyledSpan,
};

use MarkdownEvent::{Code, End, Rule, Start, StartTable, TaskListMarker, Text};

fn text(s: &str) -> MarkdownEvent {
    Text(s.to_string())
}

fn rendered(lines: &[Vec<StyledSpan>]) -> Vec<String> {
    lines
        .iter()
        .map(|line| line.iter().map(|span| span.text.as_str()).collect())
        .collect()
}

fn cell(s: &str) -> Vec<MarkdownEvent> {
    vec![Start(MarkdownTag::TableCell), text(s), End(MarkdownTag::TableCell)]
}

fn table_events(alignments: Vec<CellAlignment>, header: &[&str], rows: &[&[&str]]) -> Vec<MarkdownEvent> {
    let mut events = vec![StartTable(alignments), Start(MarkdownTag::TableHead)];
    for value in header {
        events.extend(cell(value));
    }
    events.push(End(MarkdownTag::TableHead));
    for row in rows {
        events.push(Start(MarkdownTag::TableRow));
        for value in row.iter() {
            events.extend(cell(value));
        }
        events.push(End(MarkdownTag::TableRow));
    }
    events.push(End(MarkdownTag::Table));
    events
}

#[test]
fn tables_render_as_aligned_terminal_rows() {
    let events = table_events(
        vec![CellAlignment::Unspecified, CellAlignment::Right],
        &["OS", "Version"],
        &[&["Windows", "11"], &["Ubuntu", "24.04"]],
    );
    let lines = markdown_lines(events, false);
    assert_eq!(
        rendered(&lines),
        vec![
            "OS      | Version",
            "--------+--------",
            "Windows |      11",
            "Ubuntu  |   24.04",
        ]
    );
    assert!(lines[0].iter().all(|span| span.style.is_some_and(|s| s.bold)));
    assert!(lines[2].iter().all(|span| span.style.is_some_and(|s| !s.bold)));
    assert_eq!(lines[1][0].style.and_then(|s| s.accent), Some(Accent::Rule));
}

#[test]
fn centred_cells_put_the_odd_space_on_the_right() {
    let events = table_events(
        vec![CellAlignment::Center, CellAlignment::Left],
        &["abcd", "x"],
        &[&["ab", "long"], &["short"]],
    );
    assert_eq!(
        rendered(&markdown_lines(events, false)),
        vec!["abcd  | x   ", "------+-----", " ab   | long", "short |     "]
    );
}

#[test]
fn lists_emphasis_and_code_are_formatted() {
    let events = vec![
        Start(MarkdownTag::Heading),
        text("Result"),
        End(MarkdownTag::Heading),
        Start(MarkdownTag::List),
        Start(MarkdownTag::Item),
        Start(MarkdownTag::Strong),
        text("ready"),
        End(MarkdownTag::Strong),
        End(MarkdownTag::Item),
        Start(MarkdownTag::Item),
        Code("cargo test".to_string()),
        End(MarkdownTag::Item),
        End(MarkdownTag::List),
    ];
    let lines = markdown_lines(events, false);
    assert_eq!(rendered(&lines), vec!["Result", "* ready", "* cargo test"]);
    let heading = lines[0][0].style.expect("heading style");
    assert!(heading.bold);
    assert_eq!(heading.accent, Some(Accent::Heading));
    let strong = lines[1][1].style.expect("strong style");
    assert!(strong.bold);
    assert_eq!(strong.accent, None);
    assert_eq!(lines[1][0].style.and_then(|s| s.accent), Some(Accent::Marker));
    assert_eq!(lines[2][1].style.and_then(|s| s.accent), Some(Accent::Code));
}

#[test]
fn muted_text_keeps_its_colour() {
    let events = vec![
        Start(MarkdownTag::Heading),
        text("Plan"),
        End(MarkdownTag::Heading),
        Start(MarkdownTag::Paragraph),
        text("Use "),
        Start(MarkdownTag::Strong),
        text("care"),
        End(MarkdownTag::Strong),
        text(" and "),
        Code("inspect".to_string()),
        text("."),
        End(MarkdownTag::Paragraph),
    ];
    let lines = markdown_lines(events, true);
    assert_eq!(lines.len(), 2);
    assert!(lines
        .iter()
        .flatten()
        .all(|span| span.style.is_some_and(|s| s.accent.is_none())));
    assert!(lines[0][0].style.is_some_and(|s| s.bold));
    assert_eq!(rendered(&lines), vec!["Plan", "Use care and inspect."]);
}

#[test]
fn code_blocks_indent_each_line_in_their_colour() {
    let events = vec![
        Start(MarkdownTag::CodeBlock),
        text("fn main() {\n    run();\n}\n"),
        End(MarkdownTag::CodeBlock),
        Start(MarkdownTag::Paragraph),
        text("after"),
        End(MarkdownTag::Paragraph),
    ];
    let lines = markdown_lines(events, false);
    assert_eq!(
        rendered(&lines),
        vec!["  fn main() {", "      run();", "  }", "after"]
    );
    assert_eq!(lines[0][0].style.and_then(|s| s.accent), Some(Accent::CodeBlock));
    assert_eq!(lines[3][0].style.and_then(|s| s.accent), None);
}

#[test]
fn quotes_rules_and_task_markers() {
    let events = vec![
        Start(MarkdownTag::BlockQuote),
        Start(MarkdownTag::Paragraph),
        text("note"),
        End(MarkdownTag::Paragraph),
        End(MarkdownTag::BlockQuote),
        Rule,
        Start(MarkdownTag::List),
        Start(MarkdownTag::Item),
        TaskListMarker(true),
        text("done"),
        End(MarkdownTag::Item),
        Start(MarkdownTag::Item),
        TaskListMarker(false),
        text("open"),
        End(MarkdownTag::Item),
        End(MarkdownTag::List),
    ];
    let lines = markdown_lines(events, false);
    assert_eq!(
        rendered(&lines),
        vec![
            "> note".to_string(),
            "-".repeat(40),
            "* [x] done".to_string(),
            "* [ ] open".to_string(),
        ]
    );
    assert_eq!(lines[0][0].style.and_then(|s| s.accent), Some(Accent::Quote));
}

#[test]
fn nested_items_indent_two_spaces_per_level() {
    let events = vec![
        Start(MarkdownTag::List),
        Start(MarkdownTag::Item),
        text("outer"),
        Start(MarkdownTag::List),
        Start(MarkdownTag::Item),
        text("inner"),
        End(MarkdownTag::Item),
        End(MarkdownTag::List),
        End(MarkdownTag::Item),
        End(MarkdownTag::List),
    ];
    assert_eq!(
        rendered(&markdown_lines(events, false)),
        vec!["* outer  * inner"]
    );
}

#[test]
fn soft_breaks_are_unstyled_spaces_and_links_underline() {
    let events = vec![
        Start(MarkdownTag::Paragraph),
        Start(MarkdownTag::Link),
        text("docs"),
        End(MarkdownTag::Link),
        MarkdownEvent::SoftBreak,
        Start(MarkdownTag::Emphasis),
        Start(MarkdownTag::Strikethrough),
        text("old"),
        End(MarkdownTag::Strikethrough),
        End(MarkdownTag::Emphasis),
        End(MarkdownTag::Paragraph),
    ];
    let lines = markdown_lines(events, false);
    assert_eq!(rendered(&lines), vec!["docs old"]);
    let link = lines[0][0].style.expect("link style");
    assert!(link.underlined);
    assert_eq!(link.accent, Some(Accent::Link));
    assert!(lines[0][1].style.is_none());
    let old = lines[0][2].style.expect("emphasis style");
    assert!(old.italic && old.crossed_out && !old.underlined);
}

#[test]
fn prefixes_go_before_the_first_line_and_an_empty_body_keeps_one() {
    let empty = prefixed_lines("\u{25cf} ", Vec::new());
    assert_eq!(empty.len(), 1);
    assert_eq!(empty[0].0, "\u{25cf} ");
    assert!(empty[0].1.is_empty());

    let body = markdown_lines(
        vec![
            Start(MarkdownTag::Paragraph),
            text("one"),
            MarkdownEvent::HardBreak,
            text("two"),
            End(MarkdownTag::Paragraph),
        ],
        false,
    );
    let lines = prefixed_lines("\u{25cf} ", body);
    let heads: Vec<&str> = lines.iter().map(|(head, _)| head.as_str()).collect();
    assert_eq!(heads, vec!["\u{25cf} ", "  "]);
    assert_eq!(lines[1].1[0].text, "two");
}

#[test]
fn markdown_renders_tables_as_aligned_terminal_rows() {
    let lines = markdown_text_lines(
        "| OS | Version |\n| --- | ---: |\n| Windows | 11 |\n| Ubuntu | 24.04 |",
        false,
    );
    assert_eq!(
        rendered(&lines),
        vec![
            "OS      | Version",
            "--------+--------",
            "Windows |      11",
            "Ubuntu  |   24.04",
        ]
    );
    assert!(lines[0].iter().all(|span| span.style.is_some_and(|s| s.bold)));
}

#[test]
fn markdown_formats_lists_emphasis_and_code() {
    let lines = markdown_text_lines("## Result\n\n- **ready**\n- `cargo test`", false);
    assert_eq!(rendered(&lines), vec!["Result", "* ready", "* cargo test"]);
    assert!(lines[0][0].style.is_some_and(|s| s.bold));
    let ready = lines[1][1].style.expect("strong style");
    assert!(ready.bold);
    assert_eq!(ready.accent, None);
    assert_eq!(lines[2][1].style.and_then(|s| s.accent), Some(Accent::Code));
}

#[test]
fn reasoning_markdown_stays_gray() {
    let lines = markdown_text_lines("# Plan\n\nUse **care** and `inspect`.", true);
    assert_eq!(lines.len(), 2);
    assert!(lines
        .iter()
        .flatten()
        .all(|span| span.style.is_some_and(|s| s.accent.is_none())));
    assert!(lines[0][0].style.is_some_and(|s| s.bold));
}

#[test]
fn assistant_markdown_changes_do_not_change_user_markdown() {
    let lines = markdown_text_lines("~~literal~~ and `code`", false);
    assert_eq!(rendered(&lines), vec!["literal and code"]);
    assert!(lines[0][0].style.is_some_and(|s| s.crossed_out));
    let code = lines[0]
        .iter()
        .find(|span| span.text == "code")
        .expect("inline code span");
    assert_eq!(code.style.and_then(|s| s.accent), Some(Accent::Code));
}

#[test]
fn markdown_text_lays_out_quotes_rules_tasks_and_code_blocks() {
    let lines = markdown_text_lines(
        "> note\n\n---\n\n- [x] done\n\n```\nfn main() {}\n```",
        false,
    );
    assert_eq!(
        rendered(&lines),
        vec![
            "> note".to_string(),
            "-".repeat(40),
            "* [x] done".to_string(),
            "  fn main() {}".to_string(),
        ]
    );
    assert!(markdown_text_lines("", false).is_empty());
}
