use picopilot::todos::{todo_live_lines, todo_status_marker, TodoLine, TodoMarker, TodoRow};

fn row(id: &str, title: &str, status: &str) -> TodoRow {
    TodoRow {
        id: id.to_string(),
        title: title.to_string(),
        description: String::new(),
        status: status.to_string(),
    }
}

fn texts(lines: &[TodoLine]) -> Vec<String> {
    lines.iter().map(TodoLine::text).collect()
}

#[test]
fn todos_are_a_capped_live_block_above_input() {
    let rows: Vec<TodoRow> = (0..8)
        .map(|index| {
            row(
                &format!("todo-{index}"),
                &format!("Task {index}"),
                if index % 2 == 0 { "pending" } else { "in_progress" },
            )
        })
        .collect();
    let lines = texts(&todo_live_lines(Some(&rows)));
    assert!(lines.iter().any(|line| line.contains("Fleet todos")));
    assert!(lines
        .iter()
        .any(|line| line.contains("… +2 pending, 2 in progress")));
    assert_eq!(
        lines,
        vec![
            "Fleet todos",
            "  ◻ Task 0",
            "  ◼ Task 1",
            "  ◻ Task 2",
            "  ◼ Task 3",
            " … +2 pending, 2 in progress"
        ]
    );
}

#[test]
fn todo_live_block_uses_reference_status_glyphs() {
    let rows = vec![
        row("done", "Done task", "completed"),
        row("working", "Working task", "in_progress"),
        row("pending", "Pending task", "pending"),
    ];
    let lines = texts(&todo_live_lines(Some(&rows)));
    assert!(lines.iter().any(|line| line.contains("✓ Done task")));
    assert!(lines.iter().any(|line| line.contains("◼ Working task")));
    assert!(lines.iter().any(|line| line.contains("◻ Pending task")));
}

#[test]
fn missing_and_empty_lists_get_a_notice() {
    assert_eq!(texts(&todo_live_lines(None)), vec!["Fleet todos unavailable."]);
    assert_eq!(
        texts(&todo_live_lines(Some(&Vec::new()))),
        vec!["Fleet todos: no pending work."]
    );
}

#[test]
fn five_rows_fit_without_a_summary() {
    let rows: Vec<TodoRow> = (0..5)
        .map(|index| row("id", &format!("Task {index}"), "pending"))
        .collect();
    let lines = todo_live_lines(Some(&rows));
    assert_eq!(lines.len(), 6);
    assert!(matches!(lines[5], TodoLine::Item { .. }));
}

#[test]
fn finished_hidden_rows_need_no_summary() {
    let mut rows: Vec<TodoRow> = (0..4)
        .map(|index| row("id", &format!("Task {index}"), "pending"))
        .collect();
    rows.push(row("a", "Old", "Done"));
    rows.push(row("b", "Older", " cancelled "));
    let lines = todo_live_lines(Some(&rows));
    assert_eq!(lines.len(), 5);
    assert!(matches!(lines[4], TodoLine::Item { .. }));
}

#[test]
fn statuses_map_to_markers_ignoring_case_and_padding() {
    assert_eq!(todo_status_marker(" COMPLETE "), TodoMarker::Done);
    assert_eq!(todo_status_marker("Working"), TodoMarker::Working);
    assert_eq!(todo_status_marker("in progress"), TodoMarker::Working);
    assert_eq!(todo_status_marker("blocked"), TodoMarker::Waiting);
    assert_eq!(TodoMarker::Done.glyph(), "✓");
}
