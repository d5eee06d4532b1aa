use picopilot::keymap::{key_command, Key, KeyCommand, KeyContext, KeyPress, Modifiers};
use picopilot::picker::{PickerCursor, PickerKind, MAX_PICKER_ROWS};
use picopilot::picker_view::{
    approval_choice_label, checkbox, picker_position, picker_rows, picker_title, row_mark_glyph,
    row_number_label, session_header_indent, RowMark,
};

fn marks(count: usize, cursor: PickerCursor) -> Vec<String> {
    picker_rows(count, cursor.selected_item, cursor.window_start)
        .into_iter()
        .map(|(index, mark)| format!("{}{}", row_mark_glyph(mark), index))
        .collect()
}

fn press(key: Key, control: bool, picker: PickerKind, items: usize) -> KeyCommand {
    key_command(
        KeyPress {
            key,
            modifiers: Modifiers {
                shift: false,
                control,
                alt: false,
                other: false,
            },
            press: true,
        },
        KeyContext {
            picker: Some(picker),
            blocked: false,
            reconnecting: false,
            completion_open: false,
            busy: false,
            fleet_active: false,
            show_todos: false,
            shift_held: false,
            picker_items: items,
            approval_supports_trust: false,
        },
    )
}

fn apply(cursor: &mut PickerCursor, command: KeyCommand, count: usize) {
    match command {
        KeyCommand::MovePicker(delta) => cursor.move_selection(delta, count),
        other => panic!("expected a move, got {other:?}"),
    }
}

#[test]
fn long_picker_titles_show_position_and_keep_five_rows() {
    let mut skills = PickerCursor::default();
    assert_eq!(
        picker_title(PickerKind::Skills, 6, skills.selected_item, None, None),
        "Select skills (1 of 6):"
    );
    assert_eq!(
        picker_rows(6, skills.selected_item, skills.window_start).len(),
        MAX_PICKER_ROWS
    );

    apply(&mut skills, press(Key::Down, false, PickerKind::Skills, 6), 6);
    assert_eq!(
        picker_title(PickerKind::Skills, 6, skills.selected_item, None, None),
        "Select skills (2 of 6):"
    );
    assert_eq!(picker_title(PickerKind::Skills, 5, 0, None, None), "Select skills:");
    assert_eq!(picker_title(PickerKind::Tools, 3, 0, None, None), "Select tools:");
    assert_eq!(
        picker_title(PickerKind::Tools, 9, 8, None, None),
        "Select tools (9 of 9):"
    );
}

#[test]
fn five_hundred_sessions_cover_shared_window_navigation_and_arrows() {
    let count = 500;
    let mut cursor = PickerCursor::default();
    assert_eq!(
        picker_title(PickerKind::Sessions, count, cursor.selected_item, None, None),
        "Select a session to resume (1 of 500):"
    );
    assert_eq!(marks(count, cursor), vec!["❯0", " 1", " 2", " 3", "↓4"]);

    for _ in 0..6 {
        apply(&mut cursor, press(Key::Down, false, PickerKind::Sessions, count), count);
    }
    apply(&mut cursor, press(Key::Up, false, PickerKind::Sessions, count), count);
    let rows = marks(count, cursor);
    assert_eq!(rows.len(), MAX_PICKER_ROWS);
    assert!(rows.iter().any(|row| row.starts_with('↑')));
    assert!(rows.iter().any(|row| row.starts_with('↓')));
    assert!(rows.iter().any(|row| row.starts_with('❯')));

    cursor = PickerCursor::default();
    apply(&mut cursor, press(Key::Up, false, PickerKind::Sessions, count), count);
    assert_eq!(cursor.selected_item, 499);
    assert_eq!(cursor.window_start, 495);
    let rows = marks(count, cursor);
    assert!(rows.iter().any(|row| row.starts_with('❯')));
    assert!(!rows.iter().any(|row| row.starts_with('↓')));

    apply(&mut cursor, press(Key::Down, false, PickerKind::Sessions, count), count);
    assert_eq!(cursor.selected_item, 0);
    assert_eq!(cursor.window_start, 0);

    apply(&mut cursor, press(Key::PageDown, false, PickerKind::Sessions, count), count);
    assert_eq!(cursor.selected_item, MAX_PICKER_ROWS);
    apply(&mut cursor, press(Key::PageUp, false, PickerKind::Sessions, count), count);
    assert_eq!(cursor.selected_item, 0);

    apply(&mut cursor, press(Key::Char('j'), false, PickerKind::Sessions, count), count);
    assert_eq!(cursor.selected_item, 1);
    apply(&mut cursor, press(Key::Char('p'), true, PickerKind::Sessions, count), count);
    assert_eq!(cursor.selected_item, 0);
    apply(&mut cursor, press(Key::Char('n'), true, PickerKind::Sessions, count), count);
    assert_eq!(cursor.selected_item, 1);
    apply(&mut cursor, press(Key::Char('k'), false, PickerKind::Sessions, count), count);
    assert_eq!(cursor.selected_item, 0);
}

#[test]
fn short_and_empty_pickers_show_what_they_have() {
    assert!(picker_rows(0, 0, 0).is_empty());
    assert_eq!(picker_position(0, 0), 0);
    assert_eq!(
        picker_title(PickerKind::Models, 0, 0, None, None),
        "Select a model (0 of 0):"
    );
    let rows = picker_rows(3, 2, 7);
    assert_eq!(
        rows,
        vec![(0, RowMark::Plain), (1, RowMark::Plain), (2, RowMark::Selected)]
    );
    assert_eq!(picker_position(3, 7), 3);
}

#[test]
fn approval_pickers_name_the_request() {
    assert_eq!(
        picker_title(PickerKind::Approval, 2, 0, Some("Shell"), Some("bash")),
        "Shell approval required for bash"
    );
    assert_eq!(
        picker_title(PickerKind::Approval, 0, 0, None, None),
        "Tool approval required for request"
    );
    assert_eq!(approval_choice_label(0), "Allow once");
    assert_eq!(approval_choice_label(1), "Deny");
    assert_eq!(approval_choice_label(2), "Trust for this session");
    assert_eq!(approval_choice_label(3), "");
}

#[test]
fn row_numbers_align_to_the_widest_number() {
    assert_eq!(row_number_label(0, 3), "1.");
    assert_eq!(row_number_label(0, 500), "  1.");
    assert_eq!(row_number_label(499, 500), "500.");
    assert_eq!(row_number_label(9, 10), "10.");
    assert_eq!(session_header_indent(500), 9);
    assert_eq!(session_header_indent(0), 7);
    assert_eq!(checkbox(true), "[✓]");
    assert_eq!(checkbox(false), "[ ]");
}

#[test]
fn tool_picker_renders_inline_checkbox_state() {
    let mut app: picopilot::chat::ChatState<String> = picopilot::chat::ChatState::new(None, false);
    app.set_toolset(picopilot::toolset::Toolset::shell_only());
    assert!(app.open_tool_picker());
    let count = picopilot::toolset::TOOL_COUNT;
    let rows: Vec<String> = picker_rows(count, 0, 0)
        .into_iter()
        .map(|(index, _)| {
            format!(
                "{}  {}",
                picopilot::picker_view::checkbox(app.picker_toolset.contains_at(index)),
                picopilot::toolset::tool_name(index, false)
            )
        })
        .collect();
    assert!(rows.iter().any(|row| row.contains("[\u{2713}]")));
    assert!(rows.iter().any(|row| row.contains("[ ]")));
    assert!(rows.iter().any(|row| row.contains("powershell") || row.contains("bash")));
    assert_eq!(rows[0], "[\u{2713}]  bash");
    assert_eq!(picopilot::toolset::tool_name(0, true), "powershell");
}
