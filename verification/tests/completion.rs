use picopilot::completion::{
    accept_completion, builtin_commands, command_candidates, completion_rows, refresh_completion,
    CompletionCandidate, CompletionState,
};
use picopilot::keymap::{
    key_command, submit_action, Key, KeyCommand, KeyContext, KeyPress, Modifiers, SubmitAction,
};
use picopilot::skills::{Skill, SkillCatalog};

fn skill(name: &str, description: &str, user_invocable: bool) -> Skill {
    Skill {
        name: name.to_string(),
        description: description.to_string(),
        user_invocable,
    }
}

fn completion_catalog() -> SkillCatalog {
    SkillCatalog::from_skills(vec![
        skill("rust-review", "Review Rust code", true),
        skill("runbook-extended", "Follow an extended incident runbook", true),
        skill("runbook", "Follow an incident runbook", true),
        skill("internal-helper", "Internal-only helper", false),
    ])
}

fn commands(state: &CompletionState) -> Vec<&str> {
    state
        .candidates
        .iter()
        .map(|candidate| candidate.command.as_str())
        .collect()
}

#[test]
fn builtin_commands_come_first_then_invocable_skills() {
    let builtins = builtin_commands();
    let names: Vec<&str> = builtins.iter().map(|c| c.command.as_str()).collect();
    assert_eq!(names, vec!["/fleet", "/status", "/usage"]);
    assert_eq!(builtins[0].description, "run work through Fleet");

    let all = command_candidates(&completion_catalog());
    let names: Vec<&str> = all.iter().map(|c| c.command.as_str()).collect();
    assert_eq!(
        names,
        vec![
            "/fleet",
            "/status",
            "/usage",
            "/rust-review",
            "/runbook-extended",
            "/runbook"
        ]
    );
    assert_eq!(all[3].description, "Review Rust code");
}

#[test]
fn a_skill_named_like_a_builtin_is_offered_once() {
    let catalog = SkillCatalog::from_skills(vec![
        skill("status", "shadowing status", true),
        skill("twice", "first", true),
        skill("twice", "second", true),
    ]);
    let all = command_candidates(&catalog);
    let names: Vec<&str> = all.iter().map(|c| c.command.as_str()).collect();
    assert_eq!(names, vec!["/fleet", "/status", "/usage", "/twice"]);
    assert_eq!(all[1].description, "show session and configuration status");
    assert_eq!(all[3].description, "first");
}

#[test]
fn slash_prefix_lists_matching_invocable_skills_in_catalog_order() {
    let catalog = completion_catalog();
    let state = refresh_completion("/r", 2, &catalog, &None).expect("list opens");
    assert_eq!(commands(&state), vec!["/rust-review", "/runbook-extended", "/runbook"]);
    assert_eq!(state.selected_item, 0);
    assert_eq!((state.token_start, state.token_end), (0, 2));

    assert!(refresh_completion("/internal", 9, &catalog, &None).is_none());
}

#[test]
fn an_exact_command_outranks_longer_ones() {
    let catalog = completion_catalog();
    let state = refresh_completion("/runbook", 8, &catalog, &None).expect("list opens");
    assert_eq!(commands(&state), vec!["/runbook", "/runbook-extended"]);
    assert_eq!(state.selected_item, 0);
}

#[test]
fn matching_ignores_ascii_case() {
    let catalog = completion_catalog();
    let state = refresh_completion("/ST", 3, &catalog, &None).expect("list opens");
    assert_eq!(commands(&state), vec!["/status"]);
}

#[test]
fn no_list_without_a_slash_or_with_the_cursor_past_the_word() {
    let catalog = completion_catalog();
    assert!(refresh_completion("run", 3, &catalog, &None).is_none());
    assert!(refresh_completion("/r extra", 8, &catalog, &None).is_none());
    assert!(refresh_completion("/", 0, &catalog, &None).is_none());
    assert!(refresh_completion("/zzz", 4, &catalog, &None).is_none());
}

#[test]
fn the_highlight_follows_its_command_between_keystrokes() {
    let catalog = completion_catalog();
    let mut state = refresh_completion("/r", 2, &catalog, &None).expect("list opens");
    state.move_completion(2);
    assert_eq!(state.candidates[state.selected_item].command, "/runbook");

    let refreshed = refresh_completion("/ru", 3, &catalog, &Some(state)).expect("still open");
    assert_eq!(commands(&refreshed), vec!["/rust-review", "/runbook-extended", "/runbook"]);
    assert_eq!(refreshed.selected_item, 2);

    let narrowed = refresh_completion("/run", 4, &catalog, &Some(refreshed)).expect("open");
    assert_eq!(commands(&narrowed), vec!["/runbook-extended", "/runbook"]);
    assert_eq!(narrowed.selected_item, 1);
}

#[test]
fn moving_the_highlight_wraps_both_ways() {
    let catalog = completion_catalog();
    let mut state = refresh_completion("/r", 2, &catalog, &None).expect("list opens");
    state.move_completion(-1);
    assert_eq!(state.selected_item, 2);
    state.move_completion(1);
    assert_eq!(state.selected_item, 0);
    state.move_completion(7);
    assert_eq!(state.selected_item, 1);
}

#[test]
fn accepting_keeps_trailing_arguments() {
    let catalog = completion_catalog();
    let text = "/rus extra";
    let state = refresh_completion(text, 4, &catalog, &None).expect("list opens");
    assert_eq!((state.token_start, state.token_end), (0, 4));
    assert_eq!(
        accept_completion(text, &state).as_deref(),
        Some("/rust-review extra")
    );
}

#[test]
fn accepting_with_no_highlighted_row_changes_nothing() {
    let catalog = completion_catalog();
    let mut state = refresh_completion("/r", 2, &catalog, &None).expect("list opens");
    state.selected_item = 9;
    assert_eq!(accept_completion("/r", &state), None);
}

fn listed(count: usize, selected: usize, description: &str) -> CompletionState {
    CompletionState {
        candidates: (0..count)
            .map(|index| CompletionCandidate {
                command: format!("/command-{index}"),
                description: description.replace("{index}", &index.to_string()),
            })
            .collect(),
        selected_item: selected,
        token_start: 0,
        token_end: 0,
    }
}

#[test]
fn completions_are_below_the_rule_borderless_capped_and_color_selected() {
    let state = listed(8, 7, "description   with\n collapsed whitespace");
    let rows = completion_rows(&state, 80, 16);
    assert_eq!(rows.len(), 6);
    assert!(rows.iter().all(|(row, _)| row.starts_with("  ")));
    assert!(!rows.iter().any(|(row, _)| row.contains("commands")));
    assert!(!rows.iter().any(|(row, _)| row.contains('›')));
    assert!(rows
        .iter()
        .any(|(row, _)| row.contains("collapsed whitespace")));
    assert!(rows[7 - 2].1);
    assert!(!rows[0].1);
    assert_eq!(
        rows[0].0,
        format!("  /command-2{} description with collapsed whitespace", " ".repeat(21))
    );
}

#[test]
fn completions_use_remaining_budget_in_a_twelve_row_frame() {
    let state = listed(8, 4, "description {index}");
    let rows = completion_rows(&state, 80, 5);
    assert_eq!(rows.len(), 5);
    assert!(rows[2].0.contains("/command-4"));
    assert!(rows[2].1);
}

#[test]
fn completion_rows_cut_long_commands_and_drop_descriptions_without_room() {
    let state = CompletionState {
        candidates: vec![CompletionCandidate {
            command: "/a-very-long-command-name".to_string(),
            description: "explained".to_string(),
        }],
        selected_item: 0,
        token_start: 0,
        token_end: 0,
    };
    let rows = completion_rows(&state, 20, 3);
    assert_eq!(rows, vec![("  /a-ver… explained".to_string(), true)]);
    let narrow = completion_rows(&state, 3, 3);
    assert_eq!(narrow, vec![("  …".to_string(), true)]);
    assert!(completion_rows(&state, 0, 3).is_empty());
    assert!(completion_rows(&state, 20, 0).is_empty());
}

fn press(key: Key, completion_open: bool) -> KeyCommand {
    key_command(
        KeyPress {
            key,
            modifiers: Modifiers {
                shift: false,
                control: false,
                alt: false,
                other: false,
            },
            press: true,
        },
        KeyContext {
            picker: None,
            blocked: false,
            reconnecting: false,
            completion_open,
            busy: false,
            fleet_active: false,
            show_todos: false,
            shift_held: false,
            picker_items: 0,
            approval_supports_trust: false,
        },
    )
}

#[test]
fn slash_completion_filters_invocable_skills_and_submits_with_enter() {
    let catalog = completion_catalog();
    let mut state = refresh_completion("/r", 2, &catalog, &None).expect("slash completion should open");
    assert_eq!(
        commands(&state),
        vec!["/rust-review", "/runbook-extended", "/runbook"]
    );

    for _ in 0..2 {
        assert_eq!(press(Key::Down, true), KeyCommand::MoveCompletion(true));
        state.move_completion(1);
    }
    assert_eq!(press(Key::Enter, true), KeyCommand::Submit);
    assert_eq!(submit_action("/r"), SubmitAction::Send("/r".to_string()));

    assert!(refresh_completion("/internal", 9, &catalog, &None).is_none());
}

#[test]
fn exact_slash_completion_outranks_longer_prefixes_and_submits() {
    let catalog = completion_catalog();
    let state = refresh_completion("/runbook", 8, &catalog, &None).expect("list opens");
    assert_eq!(state.candidates[0].command, "/runbook");
    assert_eq!(state.candidates.len(), 2);
    assert_eq!(press(Key::Enter, true), KeyCommand::Submit);
    assert_eq!(
        submit_action("/runbook"),
        SubmitAction::Send("/runbook".to_string())
    );
}

#[test]
fn slash_completion_tab_preserves_trailing_arguments_and_escape_dismisses() {
    let catalog = completion_catalog();
    let text = "/rus extra";
    let state = refresh_completion(text, 4, &catalog, &None).expect("list opens");
    assert_eq!(press(Key::Tab, true), KeyCommand::AcceptCompletion);
    assert_eq!(
        accept_completion(text, &state).as_deref(),
        Some("/rust-review extra")
    );

    assert!(refresh_completion("/r", 2, &catalog, &None).is_some());
    assert_eq!(press(Key::Esc, true), KeyCommand::DismissCompletion);
}

#[test]
fn exact_slash_skill_is_submitted_literally() {
    let catalog = completion_catalog();
    let text = "/rust-review inspect this";
    assert!(refresh_completion(text, text.len(), &catalog, &None).is_none());
    assert_eq!(press(Key::Enter, false), KeyCommand::Submit);
    assert_eq!(
        submit_action(text),
        SubmitAction::Send("/rust-review inspect this".to_string())
    );
}

#[test]
fn unknown_and_non_invocable_slash_commands_are_ordinary_messages() {
    let catalog = completion_catalog();
    for prompt in ["/unknown context", "/internal-helper context"] {
        assert!(refresh_completion(prompt, prompt.len(), &catalog, &None).is_none());
        assert_eq!(press(Key::Enter, false), KeyCommand::Submit);
        assert_eq!(submit_action(prompt), SubmitAction::Send(prompt.to_string()));
    }
}
