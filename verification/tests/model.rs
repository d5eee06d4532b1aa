use picopilot::tui::{
    active_model_row, context_tier_options, cycle_picker_option, displayed_reasoning_effort, model_context_label,
    model_cost_label_for, model_picker_row_for, next_picker_option, picker_cancel_outcome,
    ContextTier, ModelInfo, ModelSelection, SubagentStatus,
};
use picopilot::chat::ChatState;
use picopilot::keymap::{key_command, Key, KeyCommand, KeyContext, KeyPress, Modifiers};
use picopilot::picker::{
    open_picker, picker_choice, picker_item_count, PickerChoice, PickerCursor, PickerKind,
};

fn model(id: &str, name: &str) -> ModelInfo {
    ModelInfo {
        id: id.to_string(),
        name: name.to_string(),
        default_reasoning_effort: None,
        supported_reasoning_efforts: Vec::new(),
        supported_context_tiers: Vec::new(),
        price_category: None,
        billing_multiplier: None,
        max_context_window_tokens: None,
    }
}

fn strings(values: &[&str]) -> Vec<String> {
    values.iter().map(|value| value.to_string()).collect()
}

#[test]
fn model_selection_converts_supported_options_for_the_sdk() {
    let selection = ModelSelection {
        model: "gpt-5".to_string(),
        reasoning_effort: Some("high".to_string()),
        context_tier: Some("long_context".to_string()),
    };

    let options = selection
        .sdk_options()
        .expect("supported context tier should convert")
        .expect("selected options should be forwarded");

    assert_eq!(options.reasoning_effort.as_deref(), Some("high"));
    assert_eq!(options.context_tier, Some(ContextTier::LongContext));
}

#[test]
fn unknown_tiers_are_refused_and_empty_selections_send_nothing() {
    let mut selection = ModelSelection {
        model: "gpt-5".to_string(),
        reasoning_effort: None,
        context_tier: Some("huge".to_string()),
    };
    assert_eq!(
        selection.sdk_options(),
        Err("unsupported context tier 'huge'".to_string())
    );
    selection.context_tier = None;
    assert_eq!(selection.sdk_options(), Ok(None));
    selection.context_tier = Some("default".to_string());
    let options = selection.sdk_options().unwrap().unwrap();
    assert_eq!(options.context_tier, Some(ContextTier::Default));
    assert_eq!(options.reasoning_effort, None);
    assert_ne!(SubagentStatus::Running, SubagentStatus::Failed);
}

#[test]
fn model_picker_formats_cost_and_context_metadata() {
    let mut gpt = model("gpt-5", "GPT-5");
    gpt.billing_multiplier = Some("1.5".to_string());
    gpt.max_context_window_tokens = Some(200000);
    gpt.price_category = Some("high".to_string());

    assert_eq!(model_cost_label_for(&gpt, false), "high");
    assert_eq!(model_context_label(&gpt), "200,000");
    assert_eq!(
        model_picker_row_for(&gpt, false),
        "GPT-5                         high       200,000 tokens"
    );
}

#[test]
fn local_model_rows_show_provider_tracked_cost_and_unknown_context() {
    let local = model("local/qwen:7b", "local/qwen:7b");
    assert_eq!(model_cost_label_for(&local, true), "local");
    assert_eq!(model_context_label(&local), "unknown");
    assert!(model_picker_row_for(&local, true).contains("local"));
    assert!(model_picker_row_for(&local, true).ends_with("unknown tokens"));
}

#[test]
fn cost_labels_fall_back_from_category_to_multiplier_to_unknown() {
    let mut m = model("m", "M");
    m.price_category = Some("very_high".to_string());
    assert_eq!(model_cost_label_for(&m, false), "very high");
    m.price_category = Some("premium".to_string());
    m.billing_multiplier = Some("0.33".to_string());
    assert_eq!(model_cost_label_for(&m, false), "0.33x");
    m.billing_multiplier = None;
    assert_eq!(model_cost_label_for(&m, false), "unknown");
    m.price_category = Some("low".to_string());
    assert_eq!(model_cost_label_for(&m, false), "low");
    m.max_context_window_tokens = Some(-1234);
    assert_eq!(model_context_label(&m), "-1,234");
}

#[test]
fn long_names_are_not_cut_in_picker_rows() {
    let m = model("m", "A model name that is longer than the column");
    assert_eq!(
        model_picker_row_for(&m, true),
        "A model name that is longer than the column  local      unknown tokens"
    );
}

#[test]
fn displayed_reasoning_uses_the_model_default_without_an_override() {
    let mut gpt = model("gpt-5", "");
    gpt.default_reasoning_effort = Some("medium".to_string());

    let models = vec![gpt];
    assert_eq!(
        displayed_reasoning_effort(&models, Some("gpt-5"), None).as_deref(),
        Some("medium")
    );
    assert_eq!(
        displayed_reasoning_effort(&models, Some("gpt-5"), Some("high")).as_deref(),
        Some("high")
    );
    assert_eq!(displayed_reasoning_effort(&models, Some("other"), None), None);
    assert_eq!(displayed_reasoning_effort(&models, None, None), None);
}

#[test]
fn picker_options_cycle_through_unset_and_each_value() {
    let efforts = strings(&["low", "high"]);
    let first = next_picker_option(&efforts, &None);
    assert_eq!(first.as_deref(), Some("low"));
    let second = next_picker_option(&efforts, &first);
    assert_eq!(second.as_deref(), Some("high"));
    assert_eq!(next_picker_option(&efforts, &second), None);
    assert_eq!(
        next_picker_option(&efforts, &Some("unknown".to_string())).as_deref(),
        Some("low")
    );
    assert_eq!(next_picker_option(&Vec::new(), &None), None);
}

#[test]
fn only_default_and_long_context_tiers_are_offered() {
    let tiers = strings(&["huge", "default", "tiny", "long_context"]);
    assert_eq!(context_tier_options(&tiers), strings(&["default", "long_context"]));

    let mut gpt = model("gpt-5", "GPT-5");
    gpt.supported_context_tiers = strings(&["default"]);
    gpt.supported_reasoning_efforts = strings(&["low", "high"]);
    assert_eq!(cycle_picker_option(&gpt, false, &None).as_deref(), Some("default"));
    assert_eq!(cycle_picker_option(&gpt, false, &Some("default".to_string())), None);
    assert_eq!(cycle_picker_option(&gpt, true, &None).as_deref(), Some("low"));
}

#[test]
fn picker_cancellation_commits_a_truthful_local_outcome() {
    let models = vec![model("gpt-5", "GPT-5")];
    assert_eq!(
        picker_cancel_outcome(PickerKind::Models, &models, Some("gpt-5"), 0, 0, 0).as_deref(),
        Some("Kept model as GPT-5")
    );
    assert_eq!(
        picker_cancel_outcome(PickerKind::Models, &models, Some("other"), 0, 0, 0).as_deref(),
        Some("Kept model as other")
    );
    assert_eq!(
        picker_cancel_outcome(PickerKind::Models, &models, None, 0, 0, 0).as_deref(),
        Some("Kept model as auto")
    );
    assert_eq!(
        picker_cancel_outcome(PickerKind::Tools, &models, None, 1, 7, 0).as_deref(),
        Some("Kept tools: 1/7 enabled")
    );
    assert_eq!(
        picker_cancel_outcome(PickerKind::Skills, &models, None, 0, 0, 2).as_deref(),
        Some("Kept skills: 2 enabled")
    );
    assert_eq!(
        picker_cancel_outcome(PickerKind::Sessions, &models, None, 0, 0, 0).as_deref(),
        Some("Kept current session")
    );
    assert_eq!(picker_cancel_outcome(PickerKind::Approval, &models, None, 0, 0, 0), None);
}

#[test]
fn picker_rows_come_from_the_open_list() {
    assert_eq!(picker_item_count(Some(PickerKind::Sessions), 500, 1, 2, 3, 4), 500);
    assert_eq!(picker_item_count(Some(PickerKind::Approval), 500, 1, 2, 3, 4), 4);
    assert_eq!(picker_item_count(None, 500, 1, 2, 3, 4), 0);
}

#[test]
fn model_picker_opens_on_the_active_model() {
    let mut gpt = model("gpt-5", "GPT-5");
    gpt.supported_reasoning_efforts = strings(&["low", "high"]);
    gpt.supported_context_tiers = strings(&["default"]);
    let models = vec![model("auto", "Auto"), gpt];

    let row = active_model_row(&models, Some("gpt-5"));
    assert_eq!(row, 1);
    let (open, cursor) = open_picker(
        None,
        PickerCursor {
            selected_item: row,
            window_start: 3,
        },
        PickerKind::Models,
        false,
    );
    assert_eq!(open, Some(PickerKind::Models));
    assert_eq!(cursor.selected_item, 1);
    assert_eq!(cursor.window_start, 0);
    assert!(model_picker_row_for(&models[cursor.selected_item], false).contains("GPT-5"));

    assert_eq!(active_model_row(&models, Some("missing")), 0);
    assert_eq!(active_model_row(&models, None), 0);
}

#[test]
fn a_waiting_approval_keeps_other_pickers_closed() {
    let cursor = PickerCursor {
        selected_item: 2,
        window_start: 1,
    };
    assert_eq!(
        open_picker(Some(PickerKind::Approval), cursor, PickerKind::Sessions, true),
        (Some(PickerKind::Approval), cursor)
    );
    assert_eq!(
        open_picker(None, cursor, PickerKind::Approval, true),
        (Some(PickerKind::Approval), PickerCursor::default())
    );
    assert_eq!(
        open_picker(None, cursor, PickerKind::Tools, false),
        (Some(PickerKind::Tools), PickerCursor::default())
    );
}

fn picker_key(key: Key, kind: PickerKind, items: usize) -> KeyCommand {
    key_command(
        KeyPress {
            key,
            modifiers: Modifiers {
                shift: false,
                control: false,
                alt: false,
                other: false,
            },
            press: true,
        },
        KeyContext {
            picker: Some(kind),
            blocked: false,
            reconnecting: false,
            completion_open: false,
            busy: false,
            fleet_active: false,
            show_todos: false,
            shift_held: false,
            picker_items: items,
            approval_supports_trust: false,
        },
    )
}

#[test]
fn session_navigation_stays_local_and_picker_selection_emits_actions() {
    let sessions = ["session-1", "session-2"];
    let (_, mut cursor) = open_picker(None, PickerCursor::default(), PickerKind::Sessions, false);
    match picker_key(Key::Down, PickerKind::Sessions, sessions.len()) {
        KeyCommand::MovePicker(delta) => cursor.move_selection(delta, sessions.len()),
        other => panic!("expected a move, got {other:?}"),
    }
    assert_eq!(cursor.selected_item, 1);
    assert_eq!(
        picker_key(Key::Esc, PickerKind::Sessions, sessions.len()),
        KeyCommand::CancelPicker
    );

    let sessions = ["session-2"];
    let (_, cursor) = open_picker(None, cursor, PickerKind::Sessions, false);
    assert_eq!(
        picker_key(Key::Enter, PickerKind::Sessions, sessions.len()),
        KeyCommand::ChooseSelected
    );
    let (choice, closes) = picker_choice(
        Some(PickerKind::Sessions),
        cursor.selected_item,
        sessions.len(),
        0,
        false,
    );
    assert_eq!(choice, PickerChoice::Resume(0));
    assert_eq!(sessions[0], "session-2");
    assert!(closes);

    let mut gpt = model("gpt-5", "GPT-5");
    gpt.default_reasoning_effort = Some("low".to_string());
    gpt.supported_context_tiers = strings(&["default", "long_context"]);
    gpt.supported_reasoning_efforts = strings(&["low", "high"]);
    let mut reasoning = None;
    let mut tier = None;
    match picker_key(Key::Left, PickerKind::Models, 1) {
        KeyCommand::CyclePickerOption(true) => {
            reasoning = cycle_picker_option(&gpt, true, &reasoning)
        }
        other => panic!("expected the reasoning option, got {other:?}"),
    }
    match picker_key(Key::Right, PickerKind::Models, 1) {
        KeyCommand::CyclePickerOption(false) => tier = cycle_picker_option(&gpt, false, &tier),
        other => panic!("expected the context option, got {other:?}"),
    }
    assert_eq!(
        picker_key(Key::Enter, PickerKind::Models, 1),
        KeyCommand::ChooseSelected
    );
    assert_eq!(
        picker_choice(Some(PickerKind::Models), 0, 0, 1, false),
        (PickerChoice::SwitchModel(0), true)
    );
    let selection = ModelSelection {
        model: gpt.id.clone(),
        reasoning_effort: reasoning,
        context_tier: tier,
    };
    assert_eq!(
        selection,
        ModelSelection {
            model: "gpt-5".to_string(),
            reasoning_effort: Some("low".to_string()),
            context_tier: Some("default".to_string()),
        }
    );
}

#[test]
fn session_resume_selection_has_no_picker_trace_before_history_replacement() {
    let app: ChatState<String> = ChatState::new(None, false);
    assert_eq!(
        picker_key(Key::Enter, PickerKind::Sessions, 1),
        KeyCommand::ChooseSelected
    );
    assert_eq!(
        picker_choice(Some(PickerKind::Sessions), 0, 1, 0, false),
        (PickerChoice::Resume(0), true)
    );
    assert!(app.entries.is_empty());
}
