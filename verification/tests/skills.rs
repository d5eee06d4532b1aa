use picopilot::chat::ChatState;
use picopilot::keymap::{key_command, Key, KeyCommand, KeyContext, KeyPress, Modifiers};
use picopilot::picker::{picker_choice, PickerChoice, PickerCursor, PickerKind};
use picopilot::transcript_text::{status_detail_lines, StatusFacts};
use picopilot::skills::{
    invoked_skill, skill_selection_for_invocation, Skill, SkillCatalog, SkillSelection,
};

fn test_skill_catalog() -> SkillCatalog {
    SkillCatalog::from_skills(vec![
        Skill {
            name: "rust-review".to_string(),
            description: "Review Rust code".to_string(),
            user_invocable: true,
        },
        Skill {
            name: "runbook-extended".to_string(),
            description: "Follow an extended incident runbook".to_string(),
            user_invocable: true,
        },
        Skill {
            name: "runbook".to_string(),
            description: "Follow an incident runbook".to_string(),
            user_invocable: true,
        },
        Skill {
            name: "internal-helper".to_string(),
            description: "Internal-only helper".to_string(),
            user_invocable: false,
        },
    ])
}

#[test]
fn slash_invocation_auto_checks_only_known_invocable_skills() {
    let catalog = test_skill_catalog();
    let active = SkillSelection::none();

    let selected =
        skill_selection_for_invocation(&catalog, &active, "/rust-review inspect this")
            .expect("known invocable skill should be selected");
    assert!(selected.contains("rust-review"));
    assert!(skill_selection_for_invocation(&catalog, &selected, "/rust-review").is_none());
    assert!(skill_selection_for_invocation(&catalog, &active, "/internal-helper").is_none());
    assert!(skill_selection_for_invocation(&catalog, &active, "/unknown command").is_none());
}

#[test]
fn invoked_skill_reads_only_the_first_word() {
    let catalog = test_skill_catalog();
    assert_eq!(
        invoked_skill(&catalog, "/runbook\tnow").map(|skill| skill.name.as_str()),
        Some("runbook")
    );
    assert!(invoked_skill(&catalog, "/").is_none());
    assert!(invoked_skill(&catalog, "runbook").is_none());
    assert!(invoked_skill(&catalog, " /runbook").is_none());
    assert!(invoked_skill(&catalog, "/runbook-ext").is_none());
    assert!(catalog.find("internal-helper").is_some());
    assert_eq!(catalog.skills().len(), 4);
}

#[test]
fn toggling_enables_known_skills_and_disables_enabled_ones() {
    let catalog = test_skill_catalog();
    let mut selection = SkillSelection::none();
    selection.toggle(&catalog, "unknown");
    assert!(!selection.contains("unknown"));
    selection.toggle(&catalog, "runbook");
    assert!(selection.contains("runbook"));
    let copy = selection.copied();
    selection.toggle(&catalog, "runbook");
    assert!(!selection.contains("runbook"));
    assert!(copy.contains("runbook"));
}

fn skill_key(key: Key, control: bool, picker: Option<PickerKind>) -> KeyCommand {
    key_command(
        KeyPress {
            key,
            modifiers: Modifiers {
                shift: false,
                control,
                alt: false,
                other: false,
            },
            press: true,
        },
        KeyContext {
            picker,
            blocked: false,
            reconnecting: false,
            completion_open: false,
            busy: false,
            fleet_active: false,
            show_todos: false,
            shift_held: false,
            picker_items: 4,
            approval_supports_trust: false,
        },
    )
}

/// Carries out a skill-picker key on the picker's own selection.
fn apply_skill_key(
    command: KeyCommand,
    cursor: &mut PickerCursor,
    selection: &mut SkillSelection,
    catalog: &SkillCatalog,
) {
    match command {
        KeyCommand::ToggleSkill => {
            let name = catalog.skills()[cursor.selected_item].name.clone();
            selection.toggle(catalog, &name);
        }
        KeyCommand::MovePicker(delta) => cursor.move_selection(delta, catalog.skills().len()),
        KeyCommand::NoSkills => selection.clear(),
        KeyCommand::AllSkills => selection.select_all(catalog),
        other => panic!("unexpected key command {other:?}"),
    }
}

#[test]
fn skill_picker_supports_toggle_none_all_and_apply() {
    let catalog = test_skill_catalog();
    assert_eq!(skill_key(Key::Char('s'), true, None), KeyCommand::LoadSkills);
    let picker = Some(PickerKind::Skills);
    let mut cursor = PickerCursor::default();
    let mut selection = SkillSelection::none();

    apply_skill_key(skill_key(Key::Char(' '), false, picker), &mut cursor, &mut selection, &catalog);
    assert!(selection.contains("rust-review"));
    apply_skill_key(skill_key(Key::Down, false, picker), &mut cursor, &mut selection, &catalog);
    apply_skill_key(skill_key(Key::Char(' '), false, picker), &mut cursor, &mut selection, &catalog);
    assert!(selection.contains("runbook-extended"));

    apply_skill_key(skill_key(Key::Char('n'), false, picker), &mut cursor, &mut selection, &catalog);
    assert!(selection.is_empty());
    apply_skill_key(skill_key(Key::Char('a'), false, picker), &mut cursor, &mut selection, &catalog);
    for name in ["rust-review", "runbook-extended", "runbook", "internal-helper"] {
        assert!(selection.contains(name));
    }
    assert!(!selection.contains("unknown"));

    assert_eq!(skill_key(Key::Enter, false, picker), KeyCommand::ChooseSelected);
    assert_eq!(
        picker_choice(picker, cursor.selected_item, 0, 0, false),
        (PickerChoice::ApplySkills, true)
    );
}

#[test]
fn skill_picker_cancel_and_blocked_state_leave_active_selection_unchanged() {
    let catalog = test_skill_catalog();
    let mut active = SkillSelection::none();
    active.toggle(&catalog, "rust-review");
    let picker = Some(PickerKind::Skills);
    let mut cursor = PickerCursor::default();
    let mut choices = active.copied();

    apply_skill_key(skill_key(Key::Char(' '), false, picker), &mut cursor, &mut choices, &catalog);
    assert_eq!(skill_key(Key::Esc, false, picker), KeyCommand::CancelPicker);
    assert!(active.contains("rust-review"));
    assert!(!active.contains("runbook"));

    let mut app: ChatState<String> = ChatState::new(None, false);
    app.status.busy = true;
    assert!(app.selection_change_is_blocked());
}

#[test]
fn skill_selection_status_and_new_conversation_reset_are_visible() {
    let catalog = test_skill_catalog();
    let mut selection = SkillSelection::none();
    selection.toggle(&catalog, "rust-review");
    let facts = StatusFacts {
        version: "0.1.0".to_string(),
        session_id: None,
        working_directory: "/work".to_string(),
        model: None,
        enabled_tools: 7,
        tool_count: 7,
        enabled_skills: selection.len(),
        skill_count: catalog.skills().len(),
    };
    let lines = status_detail_lines(&facts);
    assert!(lines
        .iter()
        .any(|line| line.concat().contains("Skills: 1 enabled, 3 disabled")));

    // A new conversation starts with no skill enabled.
    let mut app: ChatState<String> = ChatState::new(None, false);
    app.set_skill_catalog(test_skill_catalog());
    app.set_skill_selection(&selection);
    assert_eq!(app.skill_selection.len(), 1);
    app.reset_for_new_conversation();
    assert!(app.skill_selection.is_empty());
    assert!(app.picker_skill_selection.is_empty());
}

#[test]
fn the_skill_picker_ticks_and_applies_only_known_skills() {
    let mut app: ChatState<String> = ChatState::new(None, false);
    app.set_skill_catalog(test_skill_catalog());
    assert!(app.open_skill_picker());
    app.toggle_picker_skill(0);
    assert!(app.picker_skill_selection.contains("rust-review"));
    app.toggle_picker_skill(99);
    assert_eq!(app.picker_skill_selection.len(), 1);
    assert!(app.skill_selection.is_empty());
    app.choose_all_skills();
    assert_eq!(app.picker_skill_selection.len(), 4);
    app.choose_no_skills();
    assert!(app.picker_skill_selection.is_empty());
    app.toggle_picker_skill(2);
    let chosen = app.choose_skills().expect("the skill picker was open");
    assert!(app.picker.is_none());
    assert!(chosen.contains("runbook"));

    let mut unknown = SkillSelection::none();
    unknown.toggle(&test_skill_catalog(), "runbook");
    let mut other = SkillCatalog::from_skills(Vec::new());
    std::mem::swap(&mut other, &mut app.skills);
    app.set_skill_selection(&unknown);
    assert!(app.skill_selection.is_empty());
    std::mem::swap(&mut other, &mut app.skills);
    app.set_skill_selection(&chosen);
    assert_eq!(app.skill_selection.len(), 1);
    assert!(app.skill_selection.contains("runbook"));
}

#[test]
fn selection_counts_each_enabled_skill_once() {
    let catalog = test_skill_catalog();
    let mut selection = SkillSelection::none();
    assert_eq!(selection.len(), 0);
    selection.select_all(&catalog);
    assert_eq!(selection.len(), 4);
    selection.toggle(&catalog, "runbook");
    assert_eq!(selection.len(), 3);
    selection.toggle(&catalog, "not-a-skill");
    assert_eq!(selection.len(), 3);
}

#[test]
fn selections_from_names_keep_only_known_skills() {
    let catalog = test_skill_catalog();
    let names = vec![
        "runbook".to_string(),
        "missing".to_string(),
        "runbook".to_string(),
        "internal-helper".to_string(),
    ];
    let selection = SkillSelection::from_names(&catalog, &names);
    assert!(selection.contains("runbook"));
    assert!(selection.contains("internal-helper"));
    assert!(!selection.contains("missing"));
    assert_eq!(selection.len(), 2);
    assert!(SkillSelection::from_names(&catalog, &Vec::new()).is_empty());
}
