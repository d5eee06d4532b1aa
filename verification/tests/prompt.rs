use picopilot::prompt::{
    prompt_footer, prompt_layout, slash_command_context, ContextWarningGate, FooterLayout,
    PromptInputs, PromptLayout,
};

fn idle_inputs(width: u16, height: u16) -> PromptInputs {
    PromptInputs {
        area_width: width,
        area_height: height,
        picker_items: None,
        completion_candidates: None,
        footer_suppressed: false,
        busy: false,
        input_empty: true,
        context_warning: false,
        wrapped_input_rows: 1,
        todo_lines: 0,
        show_todos: false,
    }
}

#[test]
fn an_idle_prompt_keeps_three_input_rows_and_a_hint_row() {
    assert_eq!(
        prompt_layout(&idle_inputs(80, 12)),
        PromptLayout {
            todo_rows: 0,
            input_rows: 3,
            footer_rows: 1,
            total_height: 7
        }
    );
}

#[test]
fn a_picker_takes_at_most_five_rows_plus_chrome() {
    let mut inputs = idle_inputs(120, 18);
    inputs.picker_items = Some(500);
    assert_eq!(prompt_layout(&inputs).total_height, 9);
    inputs.picker_items = Some(0);
    assert_eq!(prompt_layout(&inputs).total_height, 5);
    inputs.area_height = 4;
    assert_eq!(prompt_layout(&inputs).total_height, 3);
}

#[test]
fn tiny_areas_degrade_without_overflowing() {
    assert_eq!(prompt_layout(&idle_inputs(40, 0)).total_height, 0);
    assert_eq!(prompt_layout(&idle_inputs(40, 1)).total_height, 0);
    assert_eq!(
        prompt_layout(&idle_inputs(40, 3)),
        PromptLayout {
            todo_rows: 0,
            input_rows: 0,
            footer_rows: 0,
            total_height: 2
        }
    );
    assert_eq!(
        prompt_layout(&idle_inputs(40, 5)),
        PromptLayout {
            todo_rows: 0,
            input_rows: 1,
            footer_rows: 0,
            total_height: 4
        }
    );
}

#[test]
fn completions_are_capped_at_six_rows() {
    let mut inputs = idle_inputs(80, 16);
    inputs.completion_candidates = Some(10);
    assert_eq!(
        prompt_layout(&inputs),
        PromptLayout {
            todo_rows: 0,
            input_rows: 3,
            footer_rows: 6,
            total_height: 12
        }
    );
}

#[test]
fn long_input_and_todos_share_the_budget() {
    let mut inputs = idle_inputs(80, 30);
    inputs.input_empty = false;
    inputs.wrapped_input_rows = 8;
    inputs.todo_lines = 9;
    inputs.show_todos = true;
    assert_eq!(
        prompt_layout(&inputs),
        PromptLayout {
            todo_rows: 6,
            input_rows: 8,
            footer_rows: 0,
            total_height: 17
        }
    );
    inputs.context_warning = true;
    inputs.area_width = 60;
    inputs.busy = true;
    assert_eq!(prompt_layout(&inputs).footer_rows, 2);
}

#[test]
fn slash_context_covers_the_first_word_only() {
    assert_eq!(slash_command_context("/rus extra", 2), Some((0, 4, 2)));
    assert_eq!(slash_command_context("/rus extra", 4), Some((0, 4, 4)));
    assert_eq!(slash_command_context("/rus extra", 5), None);
    assert_eq!(slash_command_context("/rus", 0), None);
    assert_eq!(slash_command_context("/rus", 5), None);
    assert_eq!(slash_command_context("rus", 1), None);
    assert_eq!(slash_command_context("/é x", 3), Some((0, 3, 3)));
    assert_eq!(slash_command_context("", 0), None);
}

#[test]
fn context_warning_is_right_aligned_wide_and_stacked_narrow() {
    let warning = Some("10% until auto-compact");
    match prompt_footer(false, true, warning, 100, 1) {
        FooterLayout::Row {
            left,
            padding,
            warning,
            right_padding,
        } => {
            let row = format!(
                "{left}{}{}{}",
                " ".repeat(padding),
                warning.unwrap_or_default(),
                " ".repeat(right_padding)
            );
            assert!(row.ends_with("10% until auto-compact  "));
            assert!(row.find("10%").unwrap_or_default() > 60);
            assert_eq!(row.chars().count(), 100);
            assert!(row.starts_with("  ? for shortcuts"));
        }
        FooterLayout::Stacked(_) => panic!("a wide footer is one row"),
    }
    match prompt_footer(false, true, warning, 60, 2) {
        FooterLayout::Stacked(lines) => {
            assert_eq!(lines, vec!["  ? for shortcuts", "  10% until auto-compact"]);
        }
        FooterLayout::Row { .. } => panic!("a narrow footer stacks"),
    }
}

#[test]
fn a_one_row_narrow_footer_keeps_the_hint_over_the_warning() {
    match prompt_footer(false, true, Some("10% until auto-compact"), 60, 1) {
        FooterLayout::Stacked(lines) => assert_eq!(lines, vec!["  ? for shortcuts"]),
        FooterLayout::Row { .. } => panic!("a narrow footer stacks"),
    }
    match prompt_footer(false, false, Some("10% until auto-compact"), 60, 1) {
        FooterLayout::Stacked(lines) => assert_eq!(lines, vec!["  10% until auto-compact"]),
        FooterLayout::Row { .. } => panic!("a narrow footer stacks"),
    }
    match prompt_footer(true, false, None, 10, 1) {
        FooterLayout::Stacked(lines) => assert_eq!(lines, vec!["  esc to …"]),
        FooterLayout::Row { .. } => panic!("a narrow footer stacks"),
    }
}

#[test]
fn compaction_suppresses_warning_until_the_next_user_turn() {
    let mut gate = ContextWarningGate::new();
    gate.observe(Some(1));
    assert!(!gate.suppressed);
    gate.observe(Some(2));
    assert!(gate.suppressed);
    gate.observe(Some(2));
    assert!(gate.suppressed);
    gate.observe(None);
    assert!(gate.suppressed);
    gate.user_turn();
    assert!(!gate.suppressed);
    assert_eq!(gate.observed_compactions, Some(2));
    gate.reset();
    gate.observe(Some(9));
    assert!(!gate.suppressed);
}
