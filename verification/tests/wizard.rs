use picopilot::provider::{CopilotDefaults, ProviderConfigFile, ProviderProfile};
use picopilot::wizard::{
    provider_presets, Draft, EntrySelection, Field, FieldErrors, KeyCode, Screen, WireApiChoice,
    WizardOutcome, WizardState, PROVIDER_PRESET_COUNT,
};

fn provider_with_url(url: &str) -> ProviderProfile {
    ProviderProfile::new(url)
}

fn type_text(state: &mut WizardState, text: &str) {
    for character in text.chars() {
        state.handle_add_provider_key(KeyCode::Char(character));
    }
}

/// Fills the blank form the way a user would: name, Tab, base URL, Tab Tab, API key,
/// then Tab back to the name field.
fn fill_form(state: &mut WizardState, name: &str, base_url: &str, api_key: &str) {
    type_text(state, name);
    state.handle_add_provider_key(KeyCode::Tab);
    type_text(state, base_url);
    state.handle_add_provider_key(KeyCode::Tab);
    state.handle_add_provider_key(KeyCode::Tab);
    type_text(state, api_key);
    state.handle_add_provider_key(KeyCode::Tab);
    assert_eq!(state.draft().focus, Field::Name);
}

fn select_entry(state: &mut WizardState, selection: EntrySelection) {
    state.move_entry_selection(-2);
    let steps = match selection {
        EntrySelection::ConnectCopilot => 0,
        EntrySelection::AddProvider => 1,
        EntrySelection::Finish => 2,
    };
    state.move_entry_selection(steps);
    assert_eq!(state.entry_selection(), selection);
}

fn select_preset_row(state: &mut WizardState, index: usize) {
    state.move_preset_selection(index as i32);
    assert_eq!(state.preset_selection(), index);
}

#[test]
fn finish_is_not_selectable_until_something_is_configured() {
    let state = WizardState::new();
    assert!(!state.can_finish());
}

#[test]
fn finish_becomes_selectable_after_adding_a_provider() {
    let mut state = WizardState::new();
    state.go_to_add_provider();
    fill_form(&mut state, "ollama", "http://localhost:11434/v1", "");
    assert!(state.submit_provider_form());
    assert!(state.can_finish());
}

#[test]
fn entry_selection_moves_up_and_down_and_clamps() {
    let mut state = WizardState::new();
    assert_eq!(state.entry_selection(), EntrySelection::ConnectCopilot);

    state.move_entry_selection(-1);
    assert_eq!(state.entry_selection(), EntrySelection::ConnectCopilot);

    state.move_entry_selection(1);
    assert_eq!(state.entry_selection(), EntrySelection::AddProvider);
    state.move_entry_selection(1);
    assert_eq!(state.entry_selection(), EntrySelection::Finish);
    state.move_entry_selection(1);
    assert_eq!(state.entry_selection(), EntrySelection::Finish);
}

#[test]
fn esc_on_entry_screen_quits() {
    let mut state = WizardState::new();
    assert_eq!(state.handle_entry_key(KeyCode::Esc), WizardOutcome::Quit);
}

#[test]
fn selecting_add_provider_opens_the_sub_flow() {
    let mut state = WizardState::new();
    select_entry(&mut state, EntrySelection::AddProvider);
    assert_eq!(
        state.handle_entry_key(KeyCode::Enter),
        WizardOutcome::Continue
    );
    assert_eq!(state.screen(), Screen::PickProviderPreset);
}

#[test]
fn selecting_add_provider_opens_the_picker_not_the_form_directly() {
    let mut state = WizardState::new();
    select_entry(&mut state, EntrySelection::AddProvider);
    state.handle_entry_key(KeyCode::Enter);
    assert_eq!(state.screen(), Screen::PickProviderPreset);
    assert_eq!(state.preset_selection(), 0);
}

#[test]
fn picker_selection_moves_up_and_down_and_clamps() {
    let mut state = WizardState::new();
    state.go_to_pick_provider_preset();
    assert_eq!(state.preset_selection(), 0);

    state.move_preset_selection(-1);
    assert_eq!(state.preset_selection(), 0);

    state.move_preset_selection(1);
    assert_eq!(state.preset_selection(), 1);

    state.move_preset_selection(100);
    assert_eq!(state.preset_selection(), PROVIDER_PRESET_COUNT - 1);
}

#[test]
fn esc_on_picker_returns_to_entry() {
    let mut state = WizardState::new();
    state.go_to_pick_provider_preset();
    assert_eq!(
        state.handle_pick_preset_key(KeyCode::Esc),
        WizardOutcome::Continue
    );
    assert_eq!(state.screen(), Screen::Entry);
}

#[test]
fn selecting_each_named_preset_prefills_name_and_base_url() {
    for (index, preset) in provider_presets().iter().enumerate() {
        let Some(expected_name) = preset.name else {
            continue;
        };
        let expected_base_url = preset.base_url.expect("named presets have a base URL");

        let mut state = WizardState::new();
        state.go_to_pick_provider_preset();
        select_preset_row(&mut state, index);
        state.handle_pick_preset_key(KeyCode::Enter);

        assert_eq!(state.screen(), Screen::AddProvider, "preset {expected_name}");
        assert_eq!(state.draft().name, expected_name, "preset {expected_name}");
        assert_eq!(
            state.draft().base_url,
            expected_base_url,
            "preset {expected_name}"
        );
        assert_eq!(state.draft().focus, Field::Name, "preset {expected_name}");
        assert_eq!(
            state.draft().wire_api,
            WireApiChoice::Completions,
            "preset {expected_name}"
        );
    }
}

#[test]
fn selecting_custom_lands_on_the_blank_form() {
    let custom_index = PROVIDER_PRESET_COUNT - 1;
    assert_eq!(provider_presets()[custom_index].display_name, "Custom");

    let mut state = WizardState::new();
    state.go_to_pick_provider_preset();
    select_preset_row(&mut state, custom_index);
    state.handle_pick_preset_key(KeyCode::Enter);

    assert_eq!(state.screen(), Screen::AddProvider);
    assert_eq!(state.draft(), &Draft::default());
}

#[test]
fn a_prefilled_preset_value_can_still_be_edited_and_revalidated() {
    let openrouter_index = provider_presets()
        .iter()
        .position(|preset| preset.name == Some("openrouter"))
        .expect("openrouter preset present");

    let mut state = WizardState::new();
    state.go_to_pick_provider_preset();
    select_preset_row(&mut state, openrouter_index);
    state.handle_pick_preset_key(KeyCode::Enter);
    assert_eq!(state.draft().base_url, "https://openrouter.ai/api/v1");

    state.handle_add_provider_key(KeyCode::Tab);
    for _ in 0.."https://openrouter.ai/api/v1".chars().count() {
        state.handle_add_provider_key(KeyCode::Backspace);
    }
    type_text(&mut state, "not-a-url");
    assert_eq!(state.draft().base_url, "not-a-url");
    assert!(!state.submit_provider_form());
    assert!(state.errors().base_url.is_some());
    assert_eq!(state.screen(), Screen::AddProvider);
}

#[test]
fn selecting_finish_before_anything_is_configured_does_nothing() {
    let mut state = WizardState::new();
    select_entry(&mut state, EntrySelection::Finish);
    assert_eq!(
        state.handle_entry_key(KeyCode::Enter),
        WizardOutcome::Continue
    );
    assert_eq!(state.screen(), Screen::Entry);
}

#[test]
fn selecting_connect_copilot_triggers_the_connect_outcome() {
    let mut state = WizardState::new();
    select_entry(&mut state, EntrySelection::ConnectCopilot);
    assert_eq!(
        state.handle_entry_key(KeyCode::Enter),
        WizardOutcome::ConnectCopilot
    );
    assert_eq!(state.screen(), Screen::ConnectingCopilot);
}

#[test]
fn selecting_connect_copilot_again_after_already_connected_is_a_no_op() {
    let mut state = WizardState::new();
    state.confirm_copilot_connected();
    select_entry(&mut state, EntrySelection::ConnectCopilot);
    assert_eq!(
        state.handle_entry_key(KeyCode::Enter),
        WizardOutcome::Continue
    );
    assert_eq!(state.screen(), Screen::Entry);
}

#[test]
fn empty_name_is_rejected() {
    let mut state = WizardState::new();
    state.go_to_add_provider();
    fill_form(&mut state, "", "http://localhost:11434/v1", "");
    assert!(!state.submit_provider_form());
    assert_eq!(state.errors().name.as_deref(), Some("name is required"));
}

#[test]
fn name_with_a_slash_is_rejected() {
    let mut state = WizardState::new();
    state.go_to_add_provider();
    fill_form(&mut state, "local/provider", "http://localhost:11434/v1", "");
    assert!(!state.submit_provider_form());
    assert!(state.errors().name.is_some());
}

#[test]
fn reserved_name_copilot_is_rejected() {
    let mut state = WizardState::new();
    state.go_to_add_provider();
    fill_form(&mut state, "copilot", "http://localhost:11434/v1", "");
    assert!(!state.submit_provider_form());
    assert_eq!(
        state.errors().name.as_deref(),
        Some("'copilot' is reserved")
    );
}

#[test]
fn duplicate_name_this_pass_is_rejected() {
    let mut state = WizardState::new();
    state.go_to_add_provider();
    fill_form(&mut state, "ollama", "http://localhost:11434/v1", "");
    assert!(state.submit_provider_form());
    assert!(state.providers().contains_key("ollama"));
    state.go_to_add_provider();
    fill_form(&mut state, "ollama", "http://localhost:11435/v1", "");
    assert!(!state.submit_provider_form());
    assert!(state.errors().name.is_some());
}

#[test]
fn empty_base_url_is_rejected() {
    let mut state = WizardState::new();
    state.go_to_add_provider();
    fill_form(&mut state, "ollama", "", "");
    assert!(!state.submit_provider_form());
    assert_eq!(
        state.errors().base_url.as_deref(),
        Some("base URL is required")
    );
}

#[test]
fn malformed_base_url_is_rejected() {
    let mut state = WizardState::new();
    state.go_to_add_provider();
    fill_form(&mut state, "ollama", "not-a-url", "");
    assert!(!state.submit_provider_form());
    assert!(state.errors().base_url.is_some());
}

#[test]
fn errors_clear_as_soon_as_the_field_is_edited_again() {
    let mut state = WizardState::new();
    state.go_to_add_provider();
    assert!(!state.submit_provider_form());
    assert!(state.errors().name.is_some());
    assert!(state.errors().base_url.is_some());

    assert_eq!(state.draft().focus, Field::Name);
    state.handle_add_provider_key(KeyCode::Char('o'));
    assert!(state.errors().name.is_none());
    assert!(state.errors().base_url.is_some());
}

#[test]
fn valid_submission_adds_the_provider_and_returns_to_entry() {
    let mut state = WizardState::new();
    state.go_to_add_provider();
    fill_form(
        &mut state,
        "openrouter",
        "https://openrouter.ai/api/v1",
        "sk-demo",
    );
    assert!(state.submit_provider_form());
    assert_eq!(state.screen(), Screen::Entry);
    let profile = state.providers().get("openrouter").expect("provider saved");
    assert_eq!(profile.base_url, "https://openrouter.ai/api/v1");
    assert_eq!(profile.wire_api, "completions");
    assert_eq!(profile.api_key.as_deref(), Some("sk-demo"));
}

#[test]
fn wire_api_toggles_between_completions_and_responses() {
    let mut state = WizardState::new();
    state.go_to_add_provider();
    assert_eq!(state.draft().wire_api, WireApiChoice::Completions);
    state.handle_add_provider_key(KeyCode::Tab);
    state.handle_add_provider_key(KeyCode::Tab);
    assert_eq!(state.draft().focus, Field::WireApi);
    state.handle_add_provider_key(KeyCode::Right);
    assert_eq!(state.draft().wire_api, WireApiChoice::Responses);
}

#[test]
fn tab_cycles_focus_through_all_fields_and_wraps() {
    let mut state = WizardState::new();
    state.go_to_add_provider();
    assert_eq!(state.draft().focus, Field::Name);
    for expected in [Field::BaseUrl, Field::WireApi, Field::ApiKey, Field::Name] {
        state.handle_add_provider_key(KeyCode::Tab);
        assert_eq!(state.draft().focus, expected);
    }
}

#[test]
fn esc_cancels_the_add_provider_form_and_clears_errors() {
    let mut state = WizardState::new();
    state.go_to_add_provider();
    assert!(!state.submit_provider_form());
    assert_eq!(
        state.handle_add_provider_key(KeyCode::Esc),
        WizardOutcome::Continue
    );
    assert_eq!(state.screen(), Screen::Entry);
    assert_eq!(state.errors(), &FieldErrors::default());
}

#[test]
fn connecting_copilot_then_adding_a_provider_flips_default_to_the_provider() {
    let mut state = WizardState::new();
    state.confirm_copilot_connected();
    assert_eq!(state.default_provider(), Some("copilot"));

    state.go_to_add_provider();
    fill_form(&mut state, "openrouter", "https://openrouter.ai/api/v1", "");
    assert!(state.submit_provider_form());
    assert_eq!(state.default_provider(), Some("openrouter"));
}

#[test]
fn adding_a_provider_then_connecting_copilot_flips_default_to_copilot() {
    let mut state = WizardState::new();
    state.go_to_add_provider();
    fill_form(&mut state, "openrouter", "https://openrouter.ai/api/v1", "");
    assert!(state.submit_provider_form());
    assert_eq!(state.default_provider(), Some("openrouter"));

    state.confirm_copilot_connected();
    assert_eq!(state.default_provider(), Some("copilot"));
}

#[test]
fn adding_two_providers_the_second_one_wins() {
    let mut state = WizardState::new();
    state.go_to_add_provider();
    fill_form(&mut state, "ollama", "http://localhost:11434/v1", "");
    assert!(state.submit_provider_form());
    assert_eq!(state.default_provider(), Some("ollama"));

    state.go_to_add_provider();
    fill_form(&mut state, "openrouter", "https://openrouter.ai/api/v1", "");
    assert!(state.submit_provider_form());
    assert_eq!(state.default_provider(), Some("openrouter"));
}

#[test]
fn a_failed_copilot_connect_is_recorded_and_does_not_mark_connected() {
    let mut state = WizardState::new();
    select_entry(&mut state, EntrySelection::ConnectCopilot);
    state.handle_entry_key(KeyCode::Enter);
    state.fail_copilot_connect("boom");
    assert!(!state.copilot_connected());
    assert_eq!(state.connect_error(), Some("boom"));
    assert_eq!(state.screen(), Screen::Entry);
}

#[test]
fn seeded_from_existing_config_preseeds_providers_copilot_and_default() {
    let mut existing = ProviderConfigFile::new("openrouter");
    existing.copilot = Some(CopilotDefaults {
        default_model: Some("gpt-5".to_string()),
        ..CopilotDefaults::default()
    });
    existing.providers.insert(
        "openrouter".to_string(),
        provider_with_url("https://openrouter.ai/api/v1"),
    );

    let state = WizardState::seeded_from(&existing);

    assert!(state.can_finish());
    assert!(state.copilot_connected());
    assert_eq!(state.default_provider(), Some("openrouter"));
    assert!(state.providers().contains_key("openrouter"));
}

#[test]
fn seeded_copilot_defaults_survive_a_reconnect_in_the_same_pass() {
    let mut existing = ProviderConfigFile::new("copilot");
    existing.copilot = Some(CopilotDefaults {
        default_model: Some("gpt-5".to_string()),
        ..CopilotDefaults::default()
    });

    let mut state = WizardState::seeded_from(&existing);
    state.confirm_copilot_connected();

    let config = state.to_config_file();
    assert_eq!(
        config.copilot.and_then(|copilot| copilot.default_model),
        Some("gpt-5".to_string())
    );
}

#[test]
fn seeding_does_not_reset_when_nothing_existed_yet() {
    let state = WizardState::seeded_from(&ProviderConfigFile::new("copilot"));
    assert!(!state.copilot_connected());
    assert!(state.providers().is_empty());
    assert_eq!(state.default_provider(), Some("copilot"));
}

#[test]
fn to_config_file_reflects_current_providers_and_default() {
    let mut state = WizardState::new();
    state.go_to_add_provider();
    fill_form(&mut state, "ollama", "http://localhost:11434/v1", "");
    assert!(state.submit_provider_form());

    let config = state.to_config_file();
    assert_eq!(config.default_provider, "ollama");
    assert!(config.providers.contains_key("ollama"));
    assert!(config.copilot.is_none());
}

// -- further cases ------------------------------------------------------------------------------

#[test]
fn seeding_then_saving_writes_the_same_file_back() {
    let mut existing = ProviderConfigFile::new("ollama");
    existing.providers.insert(
        "ollama".to_string(),
        provider_with_url("http://localhost:11434/v1"),
    );
    existing.providers.insert(
        "groq".to_string(),
        provider_with_url("https://api.groq.com/openai/v1"),
    );
    let state = WizardState::seeded_from(&existing);
    let config = state.to_config_file();
    assert_eq!(config.default_provider, "ollama");
    let names: Vec<&str> = config
        .providers
        .entries()
        .iter()
        .map(|(name, _)| name.as_str())
        .collect();
    assert_eq!(names, vec!["groq", "ollama"]);
    assert!(config.copilot.is_none());
}

#[test]
fn four_tabs_return_focus_and_two_toggles_restore_the_wire_api() {
    let mut state = WizardState::new();
    state.go_to_add_provider();
    for _ in 0..4 {
        state.handle_add_provider_key(KeyCode::Tab);
    }
    assert_eq!(state.draft().focus, Field::Name);
    state.handle_add_provider_key(KeyCode::Tab);
    state.handle_add_provider_key(KeyCode::Tab);
    state.handle_add_provider_key(KeyCode::Char(' '));
    assert_eq!(state.draft().wire_api, WireApiChoice::Responses);
    state.handle_add_provider_key(KeyCode::Enter);
    assert_eq!(state.draft().wire_api, WireApiChoice::Completions);
    assert_eq!(state.screen(), Screen::AddProvider);
}

#[test]
fn finish_stays_available_and_finish_ends_the_wizard() {
    let mut state = WizardState::new();
    state.confirm_copilot_connected();
    assert!(state.can_finish());
    state.fail_copilot_connect("offline");
    assert!(state.can_finish());
    select_entry(&mut state, EntrySelection::Finish);
    assert_eq!(state.handle_entry_key(KeyCode::Enter), WizardOutcome::Finished);
    assert_eq!(state.screen(), Screen::Finish);
}

#[test]
fn names_and_keys_are_trimmed_and_urls_lose_trailing_slashes() {
    let mut state = WizardState::new();
    state.go_to_add_provider();
    fill_form(&mut state, "  team  ", " https://example.test/v1/ ", "  key  ");
    assert_eq!(
        state.handle_add_provider_key(KeyCode::Enter),
        WizardOutcome::Persist
    );
    let profile = state.providers().get("team").expect("trimmed name saved");
    assert_eq!(profile.base_url, "https://example.test/v1");
    assert_eq!(profile.api_key.as_deref(), Some("key"));
    assert_eq!(state.default_provider(), Some("team"));
}

#[test]
fn reserved_name_is_matched_ignoring_ascii_case() {
    let mut state = WizardState::new();
    state.go_to_add_provider();
    fill_form(&mut state, "CoPilot", "http://localhost:11434/v1", "");
    assert!(!state.submit_provider_form());
    assert_eq!(
        state.errors().name.as_deref(),
        Some("'copilot' is reserved")
    );
}

#[test]
fn each_base_url_error_is_reported() {
    let cases = [
        ("ftp://host/v1", "base URL must start with http:// or https://"),
        ("http://ho st/v1", "base URL must not contain whitespace"),
        ("https://host/v1?x=1", "base URL must not include a query or fragment"),
        ("https://host/v1#frag", "base URL must not include a query or fragment"),
        ("https:///v1", "base URL must include a host"),
        ("https://user:pw@host/v1", "base URL must not embed credentials"),
    ];
    for (url, expected) in cases {
        let mut state = WizardState::new();
        state.go_to_add_provider();
        fill_form(&mut state, "team", url, "");
        assert!(!state.submit_provider_form(), "{url}");
        assert_eq!(state.errors().base_url.as_deref(), Some(expected), "{url}");
        assert!(state.errors().name.is_none(), "{url}");
    }
}

#[test]
fn backspace_edits_the_focused_field_and_clears_its_error() {
    let mut state = WizardState::new();
    state.go_to_add_provider();
    assert!(!state.submit_provider_form());
    state.handle_add_provider_key(KeyCode::Tab);
    type_text(&mut state, "ab");
    state.handle_add_provider_key(KeyCode::Backspace);
    assert_eq!(state.draft().base_url, "a");
    assert!(state.errors().base_url.is_none());
    assert!(state.errors().name.is_some());
}

#[test]
fn activating_each_entry_row_does_what_it_says() {
    let mut state = WizardState::new();
    select_entry(&mut state, EntrySelection::ConnectCopilot);
    assert_eq!(state.activate_entry_selection(), WizardOutcome::ConnectCopilot);
    assert_eq!(state.screen(), Screen::ConnectingCopilot);
    assert_eq!(state.connect_error(), None);

    let mut state = WizardState::new();
    state.confirm_copilot_connected();
    select_entry(&mut state, EntrySelection::ConnectCopilot);
    let screen = state.screen();
    assert_eq!(state.activate_entry_selection(), WizardOutcome::Continue);
    assert_eq!(state.screen(), screen);

    let mut state = WizardState::new();
    select_entry(&mut state, EntrySelection::AddProvider);
    assert_eq!(state.activate_entry_selection(), WizardOutcome::Continue);
    assert_eq!(state.screen(), Screen::PickProviderPreset);
    assert_eq!(state.preset_selection(), 0);

    let mut state = WizardState::new();
    select_entry(&mut state, EntrySelection::Finish);
    assert!(!state.can_finish());
    assert_eq!(state.activate_entry_selection(), WizardOutcome::Continue);
    assert_eq!(state.screen(), Screen::Entry);

    let mut state = WizardState::new();
    state.confirm_copilot_connected();
    select_entry(&mut state, EntrySelection::Finish);
    assert!(state.can_finish());
    assert_eq!(state.activate_entry_selection(), WizardOutcome::Finished);
    assert_eq!(state.screen(), Screen::Finish);
}
