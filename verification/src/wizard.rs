//! The first-run / `--configure` setup wizard as a pure state machine: which
//! screen is shown, the add-a-provider form with inline validation, and the
//! "most recently configured provider becomes the default" rule. Drawing and
//! reading keys belong to the terminal driver.

use vstd::prelude::*;
use crate::provider::{
    completions_name, copilot_name, copilot_name_chars, copilot_view, copy_copilot,
    normalize_base_url, provider_name_error, responses_name, spec_normalize_base_url,
    validate_provider_name, CopilotDefaults, ProfileView, ProviderConfigFile, ProviderMap,
    ProviderProfile,
};
use crate::text::{
    ascii_lower_chars, ascii_lower_seq, chars_equal, chars_of, copy_range, push_char,
    string_from_chars, trim, trim_bounds, trim_chars,
};

verus! {

/// Which screen the wizard is showing.
#[derive(Debug, Clone, Copy, PartialEq, Eq, Structural)]
pub enum Screen {
    Entry,
    PickProviderPreset,
    AddProvider,
    ConnectingCopilot,
    Finish,
}

/// The entry screen's three options; "Finish" does nothing until something is configured.
#[derive(Debug, Clone, Copy, PartialEq, Eq, Structural)]
pub enum EntrySelection {
    ConnectCopilot,
    AddProvider,
    Finish,
}

/// Position of an entry option in the list.
pub open spec fn entry_index(e: EntrySelection) -> int {
    match e {
        EntrySelection::ConnectCopilot => 0,
        EntrySelection::AddProvider => 1,
        EntrySelection::Finish => 2,
    }
}

pub open spec fn entry_at(i: int) -> EntrySelection {
    if i <= 0 {
        EntrySelection::ConnectCopilot
    } else if i == 1 {
        EntrySelection::AddProvider
    } else {
        EntrySelection::Finish
    }
}

/// Which field of the add-a-provider form has focus.
#[derive(Debug, Clone, Copy, PartialEq, Eq, Structural)]
pub enum Field {
    Name,
    BaseUrl,
    WireApi,
    ApiKey,
}

/// The field after `f` in Tab order, wrapping around.
pub open spec fn next_field(f: Field) -> Field {
    match f {
        Field::Name => Field::BaseUrl,
        Field::BaseUrl => Field::WireApi,
        Field::WireApi => Field::ApiKey,
        Field::ApiKey => Field::Name,
    }
}

#[derive(Debug, Clone, Copy, PartialEq, Eq, Structural)]
pub enum WireApiChoice {
    Completions,
    Responses,
}

pub open spec fn wire_api_name(w: WireApiChoice) -> Seq<char> {
    match w {
        WireApiChoice::Completions => completions_name(),
        WireApiChoice::Responses => responses_name(),
    }
}

pub open spec fn toggled_wire_api(w: WireApiChoice) -> WireApiChoice {
    match w {
        WireApiChoice::Completions => WireApiChoice::Responses,
        WireApiChoice::Responses => WireApiChoice::Completions,
    }
}

impl WireApiChoice {
    /// The wire API's configuration name.
    pub fn as_str(self) -> (r: &'static str)
        ensures
            r@ == wire_api_name(self),
    {
        match self {
            WireApiChoice::Completions => {
                proof {
                    reveal_strlit("completions");
                }
                "completions"
            },
            WireApiChoice::Responses => {
                proof {
                    reveal_strlit("responses");
                }
                "responses"
            },
        }
    }

    /// The other wire API.
    pub fn toggled(self) -> (r: Self)
        ensures
            r == toggled_wire_api(self),
    {
        match self {
            WireApiChoice::Completions => WireApiChoice::Responses,
            WireApiChoice::Responses => WireApiChoice::Completions,
        }
    }
}

/// A well-known OpenAI-compatible provider offered on the picker screen; the last
/// entry, "Custom", pre-fills nothing.
#[derive(Debug, Clone, Copy, PartialEq, Eq)]
pub struct ProviderPreset {
    pub display_name: &'static str,
    pub name: Option<&'static str>,
    pub base_url: Option<&'static str>,
}

/// How many rows the provider picker has.
pub const PROVIDER_PRESET_COUNT: usize = 9;

/// The provider picker's rows: eight well-known providers, then "Custom".
pub open spec fn spec_provider_presets() -> Seq<ProviderPreset> {
    seq![
        ProviderPreset {
            display_name: "OpenRouter",
            name: Some("openrouter"),
            base_url: Some("https://openrouter.ai/api/v1"),
        },
        ProviderPreset {
            display_name: "Groq",
            name: Some("groq"),
            base_url: Some("https://api.groq.com/openai/v1"),
        },
        ProviderPreset {
            display_name: "Together AI",
            name: Some("together"),
            base_url: Some("https://api.together.xyz/v1"),
        },
        ProviderPreset {
            display_name: "Mistral AI",
            name: Some("mistral"),
            base_url: Some("https://api.mistral.ai/v1"),
        },
        ProviderPreset {
            display_name: "DeepSeek",
            name: Some("deepseek"),
            base_url: Some("https://api.deepseek.com/v1"),
        },
        ProviderPreset {
            display_name: "Ollama (local)",
            name: Some("ollama"),
            base_url: Some("http://localhost:11434/v1"),
        },
        ProviderPreset {
            display_name: "LM Studio (local)",
            name: Some("lmstudio"),
            base_url: Some("http://localhost:1234/v1"),
        },
        ProviderPreset {
            display_name: "vLLM (local)",
            name: Some("vllm"),
            base_url: Some("http://localhost:8000/v1"),
        },
        ProviderPreset { display_name: "Custom", name: None, base_url: None },
    ]
}

/// The provider picker's rows.
pub fn provider_presets() -> (r: [ProviderPreset; 9])
    ensures
        r@ == spec_provider_presets(),
{
    let r = [
        ProviderPreset {
            display_name: "OpenRouter",
            name: Some("openrouter"),
            base_url: Some("https://openrouter.ai/api/v1"),
        },
        ProviderPreset {
            display_name: "Groq",
            name: Some("groq"),
            base_url: Some("https://api.groq.com/openai/v1"),
        },
        ProviderPreset {
            display_name: "Together AI",
            name: Some("together"),
            base_url: Some("https://api.together.xyz/v1"),
        },
        ProviderPreset {
            display_name: "Mistral AI",
            name: Some("mistral"),
            base_url: Some("https://api.mistral.ai/v1"),
        },
        ProviderPreset {
            display_name: "DeepSeek",
            name: Some("deepseek"),
            base_url: Some("https://api.deepseek.com/v1"),
        },
        ProviderPreset {
            display_name: "Ollama (local)",
            name: Some("ollama"),
            base_url: Some("http://localhost:11434/v1"),
        },
        ProviderPreset {
            display_name: "LM Studio (local)",
            name: Some("lmstudio"),
            base_url: Some("http://localhost:1234/v1"),
        },
        ProviderPreset {
            display_name: "vLLM (local)",
            name: Some("vllm"),
            base_url: Some("http://localhost:8000/v1"),
        },
        ProviderPreset { display_name: "Custom", name: None, base_url: None },
    ];
    assert(r@ =~= spec_provider_presets());
    r
}

pub open spec fn opt_str_view(o: Option<&'static str>) -> Seq<char> {
    match o {
        Some(s) => s@,
        None => Seq::<char>::empty(),
    }
}

/// The in-progress add-a-provider form.
#[derive(Debug, Clone, PartialEq, Eq)]
pub struct Draft {
    pub name: String,
    pub base_url: String,
    pub wire_api: WireApiChoice,
    pub api_key: String,
    pub focus: Field,
}

pub struct DraftView {
    pub name: Seq<char>,
    pub base_url: Seq<char>,
    pub wire_api: WireApiChoice,
    pub api_key: Seq<char>,
    pub focus: Field,
}

impl View for Draft {
    type V = DraftView;

    open spec fn view(&self) -> DraftView {
        DraftView {
            name: self.name@,
            base_url: self.base_url@,
            wire_api: self.wire_api,
            api_key: self.api_key@,
            focus: self.focus,
        }
    }
}

/// The blank form: empty fields, `completions`, focus on the name.
pub open spec fn blank_draft() -> DraftView {
    DraftView {
        name: Seq::empty(),
        base_url: Seq::empty(),
        wire_api: WireApiChoice::Completions,
        api_key: Seq::empty(),
        focus: Field::Name,
    }
}

impl Default for Draft {
    fn default() -> (r: Self)
        ensures
            r@ == blank_draft(),
    {
        Draft {
            name: String::new(),
            base_url: String::new(),
            wire_api: WireApiChoice::Completions,
            api_key: String::new(),
            focus: Field::Name,
        }
    }
}

/// Inline validation errors under the name and base-URL fields.
#[derive(Debug, Clone, PartialEq, Eq)]
pub struct FieldErrors {
    pub name: Option<String>,
    pub base_url: Option<String>,
}

pub struct ErrorsView {
    pub name: Option<Seq<char>>,
    pub base_url: Option<Seq<char>>,
}

impl View for FieldErrors {
    type V = ErrorsView;

    open spec fn view(&self) -> ErrorsView {
        ErrorsView { name: self.name.deep_view(), base_url: self.base_url.deep_view() }
    }
}

pub open spec fn no_errors() -> ErrorsView {
    ErrorsView { name: None, base_url: None }
}

impl Default for FieldErrors {
    fn default() -> (r: Self)
        ensures
            r@ == no_errors(),
    {
        FieldErrors { name: None, base_url: None }
    }
}

impl Default for CopilotDefaults {
    fn default() -> (r: Self)
        ensures
            r@ == None::<Seq<char>>,
    {
        CopilotDefaults { default_model: None }
    }
}

/// What the terminal driver should do after the state machine handled a key.
#[derive(Debug, Clone, Copy, PartialEq, Eq, Structural)]
pub enum WizardOutcome {
    /// Keep going.
    Continue,
    /// Esc on the entry screen: quit without saving.
    Quit,
    /// Start the Copilot client now.
    ConnectCopilot,
    /// Something was saved: write the configuration file.
    Persist,
    /// "Finish" was chosen: write the file once more and end.
    Finished,
}

/// The keys the wizard reacts to; every other key is `Other`.
#[derive(Debug, Clone, Copy, PartialEq, Eq, Structural)]
pub enum KeyCode {
    Up,
    Down,
    Left,
    Right,
    Enter,
    Esc,
    Tab,
    Backspace,
    Char(char),
    Other,
}

/// The wizard's whole state.
pub struct WizardState {
    screen: Screen,
    entry_selection: EntrySelection,
    providers: ProviderMap,
    copilot_connected: bool,
    copilot_defaults: Option<CopilotDefaults>,
    default_provider: Option<String>,
    draft: Draft,
    errors: FieldErrors,
    connect_error: Option<String>,
    preset_selection: usize,
}

/// The wizard's state as plain values.
pub struct WizardView {
    pub screen: Screen,
    pub entry_selection: EntrySelection,
    pub providers: Map<Seq<char>, ProfileView>,
    pub copilot_connected: bool,
    pub copilot_defaults: Option<Option<Seq<char>>>,
    pub default_provider: Option<Seq<char>>,
    pub draft: DraftView,
    pub errors: ErrorsView,
    pub connect_error: Option<Seq<char>>,
    pub preset_selection: int,
}

impl View for WizardState {
    type V = WizardView;

    closed spec fn view(&self) -> WizardView {
        WizardView {
            screen: self.screen,
            entry_selection: self.entry_selection,
            providers: self.providers@,
            copilot_connected: self.copilot_connected,
            copilot_defaults: copilot_view(self.copilot_defaults),
            default_provider: self.default_provider.deep_view(),
            draft: self.draft@,
            errors: self.errors@,
            connect_error: self.connect_error.deep_view(),
            preset_selection: self.preset_selection as int,
        }
    }
}

/// A genuine first run: nothing configured.
pub open spec fn initial_view() -> WizardView {
    WizardView {
        screen: Screen::Entry,
        entry_selection: EntrySelection::ConnectCopilot,
        providers: Map::empty(),
        copilot_connected: false,
        copilot_defaults: None,
        default_provider: None,
        draft: blank_draft(),
        errors: no_errors(),
        connect_error: None,
        preset_selection: 0,
    }
}

/// The configuration file's contents as plain values.
pub struct ConfigView {
    pub default_provider: Seq<char>,
    pub providers: Map<Seq<char>, ProfileView>,
    pub copilot: Option<Option<Seq<char>>>,
}

pub open spec fn config_view(c: &ProviderConfigFile) -> ConfigView {
    ConfigView {
        default_provider: c.default_provider@,
        providers: c.providers@,
        copilot: copilot_view(c.copilot),
    }
}

/// The state seeded from an existing configuration file.
pub open spec fn seeded_view(c: ConfigView) -> WizardView {
    WizardView {
        providers: c.providers,
        copilot_connected: c.copilot is Some,
        copilot_defaults: c.copilot,
        default_provider: Some(c.default_provider),
        ..initial_view()
    }
}

/// "Finish" is selectable once a provider or Copilot is configured.
pub open spec fn spec_can_finish(v: WizardView) -> bool {
    v.providers != Map::<Seq<char>, ProfileView>::empty() || v.copilot_connected
}

/// The file to persist for a state; without a default yet it names Copilot.
pub open spec fn spec_to_config(v: WizardView) -> ConfigView {
    ConfigView {
        default_provider: match v.default_provider {
            Some(d) => d,
            None => copilot_name(),
        },
        providers: v.providers,
        copilot: if v.copilot_connected {
            Some(
                match v.copilot_defaults {
                    Some(d) => d,
                    None => None,
                },
            )
        } else {
            None
        },
    }
}

pub open spec fn clamp(i: int, lo: int, hi: int) -> int {
    if i < lo {
        lo
    } else if i > hi {
        hi
    } else {
        i
    }
}

pub open spec fn spec_move_entry(v: WizardView, delta: int) -> WizardView {
    WizardView {
        entry_selection: entry_at(clamp(entry_index(v.entry_selection) + delta, 0, 2)),
        ..v
    }
}

pub open spec fn spec_go_to_pick(v: WizardView) -> WizardView {
    WizardView { screen: Screen::PickProviderPreset, preset_selection: 0, ..v }
}

pub open spec fn spec_move_preset(v: WizardView, delta: int) -> WizardView {
    WizardView { preset_selection: clamp(v.preset_selection + delta, 0, 8), ..v }
}

pub open spec fn spec_go_to_add(v: WizardView) -> WizardView {
    WizardView { screen: Screen::AddProvider, draft: blank_draft(), errors: no_errors(), ..v }
}

/// Choosing picker row `index` (out-of-range rows mean "Custom"): the blank form,
/// pre-filled with the preset's name and base URL.
pub open spec fn spec_select_preset(v: WizardView, index: int) -> WizardView {
    let p = spec_provider_presets()[if 0 <= index < 9 {
        index
    } else {
        8
    }];
    let w = spec_go_to_add(v);
    WizardView {
        draft: DraftView {
            name: opt_str_view(p.name),
            base_url: opt_str_view(p.base_url),
            focus: Field::Name,
            ..w.draft
        },
        ..w
    }
}

pub open spec fn spec_cancel_add(v: WizardView) -> WizardView {
    WizardView { screen: Screen::Entry, errors: no_errors(), ..v }
}

pub open spec fn spec_advance_focus(v: WizardView) -> WizardView {
    WizardView { draft: DraftView { focus: next_field(v.draft.focus), ..v.draft }, ..v }
}

pub open spec fn spec_toggle_wire_api(v: WizardView) -> WizardView {
    WizardView { draft: DraftView { wire_api: toggled_wire_api(v.draft.wire_api), ..v.draft }, ..v }
}

/// Typing a character into the focused field clears that field's error.
pub open spec fn spec_push_char(v: WizardView, c: char) -> WizardView {
    match v.draft.focus {
        Field::Name => WizardView {
            draft: DraftView { name: v.draft.name.push(c), ..v.draft },
            errors: ErrorsView { name: None, ..v.errors },
            ..v
        },
        Field::BaseUrl => WizardView {
            draft: DraftView { base_url: v.draft.base_url.push(c), ..v.draft },
            errors: ErrorsView { base_url: None, ..v.errors },
            ..v
        },
        Field::ApiKey => WizardView {
            draft: DraftView { api_key: v.draft.api_key.push(c), ..v.draft },
            ..v
        },
        Field::WireApi => v,
    }
}

pub open spec fn drop_last_char(s: Seq<char>) -> Seq<char> {
    if s.len() > 0 {
        s.drop_last()
    } else {
        s
    }
}

/// Deleting the focused field's last character clears that field's error.
pub open spec fn spec_backspace(v: WizardView) -> WizardView {
    match v.draft.focus {
        Field::Name => WizardView {
            draft: DraftView { name: drop_last_char(v.draft.name), ..v.draft },
            errors: ErrorsView { name: None, ..v.errors },
            ..v
        },
        Field::BaseUrl => WizardView {
            draft: DraftView { base_url: drop_last_char(v.draft.base_url), ..v.draft },
            errors: ErrorsView { base_url: None, ..v.errors },
            ..v
        },
        Field::ApiKey => WizardView {
            draft: DraftView { api_key: drop_last_char(v.draft.api_key), ..v.draft },
            ..v
        },
        Field::WireApi => v,
    }
}

/// The name rule: after trimming, non-empty, not `copilot` in any ASCII case, a
/// valid provider name, and not already used this pass.
pub open spec fn spec_validate_name(raw: Seq<char>, existing: Map<Seq<char>, ProfileView>) -> Result<
    Seq<char>,
    Seq<char>,
> {
    let t = trim(raw);
    if t.len() == 0 {
        Err("name is required"@)
    } else if ascii_lower_seq(t) == copilot_name() {
        Err("'copilot' is reserved"@)
    } else if provider_name_error(t) is Some {
        Err(provider_name_error(t)->0)
    } else if existing.dom().contains(t) {
        Err("a provider with this name already exists"@)
    } else {
        Ok(t)
    }
}

/// The base-URL rule: required, then the provider base-URL rule.
pub open spec fn spec_validate_base_url(raw: Seq<char>) -> Result<Seq<char>, Seq<char>> {
    if trim(raw).len() == 0 {
        Err("base URL is required"@)
    } else {
        spec_normalize_base_url(raw)
    }
}

pub open spec fn result_err(r: Result<Seq<char>, Seq<char>>) -> Option<Seq<char>> {
    match r {
        Ok(_) => None,
        Err(e) => Some(e),
    }
}

/// The profile a valid form saves.
pub open spec fn submitted_profile(d: DraftView, base_url: Seq<char>) -> ProfileView {
    ProfileView {
        base_url,
        wire_api: wire_api_name(d.wire_api),
        api_key: if trim(d.api_key).len() > 0 {
            Some(trim(d.api_key))
        } else {
            None
        },
    }
}

/// Submitting the form: on success the profile is saved under the trimmed name, that
/// name becomes the default, and the entry screen returns; otherwise both fields'
/// errors are set and nothing else changes.
pub open spec fn spec_submit(v: WizardView) -> (WizardView, bool) {
    let n = spec_validate_name(v.draft.name, v.providers);
    let u = spec_validate_base_url(v.draft.base_url);
    if n is Ok && u is Ok {
        (
            WizardView {
                providers: v.providers.insert(n->Ok_0, submitted_profile(v.draft, u->Ok_0)),
                default_provider: Some(n->Ok_0),
                screen: Screen::Entry,
                errors: no_errors(),
                ..v
            },
            true,
        )
    } else {
        (WizardView { errors: ErrorsView { name: result_err(n), base_url: result_err(u) }, ..v }, false)
    }
}

/// Copilot connected: remembered defaults are kept, Copilot becomes the default.
pub open spec fn spec_confirm_copilot(v: WizardView) -> WizardView {
    WizardView {
        copilot_connected: true,
        copilot_defaults: match v.copilot_defaults {
            Some(d) => Some(d),
            None => Some(None),
        },
        default_provider: Some(copilot_name()),
        connect_error: None,
        screen: Screen::Entry,
        ..v
    }
}

pub open spec fn spec_fail_copilot(v: WizardView, message: Seq<char>) -> WizardView {
    WizardView { connect_error: Some(message), screen: Screen::Entry, ..v }
}

/// Enter on the entry screen.
pub open spec fn spec_activate(v: WizardView) -> (WizardView, WizardOutcome) {
    match v.entry_selection {
        EntrySelection::ConnectCopilot => if v.copilot_connected {
            (v, WizardOutcome::Continue)
        } else {
            (
                WizardView { connect_error: None, screen: Screen::ConnectingCopilot, ..v },
                WizardOutcome::ConnectCopilot,
            )
        },
        EntrySelection::AddProvider => (spec_go_to_pick(v), WizardOutcome::Continue),
        EntrySelection::Finish => if spec_can_finish(v) {
            (WizardView { screen: Screen::Finish, ..v }, WizardOutcome::Finished)
        } else {
            (v, WizardOutcome::Continue)
        },
    }
}

/// A key on the entry screen.
pub open spec fn spec_entry_key(v: WizardView, key: KeyCode) -> (WizardView, WizardOutcome) {
    match key {
        KeyCode::Up => (spec_move_entry(v, -1), WizardOutcome::Continue),
        KeyCode::Down => (spec_move_entry(v, 1), WizardOutcome::Continue),
        KeyCode::Esc => (v, WizardOutcome::Quit),
        KeyCode::Enter => spec_activate(v),
        _ => (v, WizardOutcome::Continue),
    }
}

/// A key on the provider-picker screen.
pub open spec fn spec_pick_key(v: WizardView, key: KeyCode) -> (WizardView, WizardOutcome) {
    match key {
        KeyCode::Up => (spec_move_preset(v, -1), WizardOutcome::Continue),
        KeyCode::Down => (spec_move_preset(v, 1), WizardOutcome::Continue),
        KeyCode::Esc => (WizardView { screen: Screen::Entry, ..v }, WizardOutcome::Continue),
        KeyCode::Enter => (spec_select_preset(v, v.preset_selection), WizardOutcome::Continue),
        _ => (v, WizardOutcome::Continue),
    }
}

/// A key on the add-a-provider screen.
pub open spec fn spec_add_key(v: WizardView, key: KeyCode) -> (WizardView, WizardOutcome) {
    let on_wire_api = v.draft.focus == Field::WireApi;
    match key {
        KeyCode::Esc => (spec_cancel_add(v), WizardOutcome::Continue),
        KeyCode::Tab => (spec_advance_focus(v), WizardOutcome::Continue),
        KeyCode::Left | KeyCode::Right => if on_wire_api {
            (spec_toggle_wire_api(v), WizardOutcome::Continue)
        } else {
            (v, WizardOutcome::Continue)
        },
        KeyCode::Enter => if on_wire_api {
            (spec_toggle_wire_api(v), WizardOutcome::Continue)
        } else {
            let (w, saved) = spec_submit(v);
            (
                w,
                if saved {
                    WizardOutcome::Persist
                } else {
                    WizardOutcome::Continue
                },
            )
        },
        KeyCode::Backspace => (spec_backspace(v), WizardOutcome::Continue),
        KeyCode::Char(c) => if on_wire_api && c == ' ' {
            (spec_toggle_wire_api(v), WizardOutcome::Continue)
        } else {
            (spec_push_char(v, c), WizardOutcome::Continue)
        },
        _ => (v, WizardOutcome::Continue),
    }
}

/// Removes the last character of a string, if there is one.
pub(crate) fn pop_char(s: &mut String)
    ensures
        final(s)@ == drop_last_char(old(s)@),
{
    let cs = chars_of(s.as_str());
    if cs.len() > 0 {
        let kept = copy_range(cs.as_slice(), 0, cs.len() - 1);
        *s = string_from_chars(kept.as_slice());
        assert(s@ =~= drop_last_char(old(s)@));
    }
}

/// `s` with `c` appended.
fn with_char(s: &String, c: char) -> (r: String)
    ensures
        r@ == s@.push(c),
{
    let mut r = s.clone();
    push_char(&mut r, c);
    r
}

/// `s` without its last character.
fn without_last_char(s: &String) -> (r: String)
    ensures
        r@ == drop_last_char(s@),
{
    let mut r = s.clone();
    pop_char(&mut r);
    r
}

fn copy_optional(value: &Option<String>) -> (r: Option<String>)
    ensures
        r.deep_view() == value.deep_view(),
{
    match value {
        Some(v) => Some(v.clone()),
        None => None,
    }
}

fn as_optional_str(value: &Option<String>) -> (r: Option<&str>)
    ensures
        r is Some <==> value is Some,
        r matches Some(s) ==> value.deep_view() == Some(s@),
{
    match value {
        Some(v) => Some(v.as_str()),
        None => None,
    }
}

/// Name validation: trimmed, non-empty, not `copilot`, a valid provider name, and new.
pub fn validate_name(raw: &str, existing: &ProviderMap) -> (r: Result<String, String>)
    ensures
        r is Ok <==> spec_validate_name(raw@, existing@) is Ok,
        r matches Ok(n) ==> spec_validate_name(raw@, existing@) == Ok::<Seq<char>, Seq<char>>(n@),
        r matches Err(e) ==> spec_validate_name(raw@, existing@) == Err::<Seq<char>, Seq<char>>(
            e@,
        ),
{
    let cs = chars_of(raw);
    let t = trim_chars(cs.as_slice());
    if t.len() == 0 {
        return Err("name is required".to_owned());
    }
    let lowered = ascii_lower_chars(t.as_slice());
    let reserved = copilot_name_chars();
    if chars_equal(lowered.as_slice(), reserved.as_slice()) {
        return Err("'copilot' is reserved".to_owned());
    }
    let trimmed = string_from_chars(t.as_slice());
    match validate_provider_name(trimmed.as_str()) {
        Err(e) => {
            return Err(e);
        },
        Ok(()) => {},
    }
    if existing.contains_key(trimmed.as_str()) {
        return Err("a provider with this name already exists".to_owned());
    }
    Ok(trimmed)
}

/// Base-URL validation: required, then an absolute `http`/`https` URL (normalized).
pub fn validate_base_url(raw: &str) -> (r: Result<String, String>)
    ensures
        r is Ok <==> spec_validate_base_url(raw@) is Ok,
        r matches Ok(u) ==> spec_validate_base_url(raw@) == Ok::<Seq<char>, Seq<char>>(u@),
        r matches Err(e) ==> spec_validate_base_url(raw@) == Err::<Seq<char>, Seq<char>>(e@),
{
    let cs = chars_of(raw);
    let (lo, hi) = trim_bounds(cs.as_slice());
    if lo == hi {
        return Err("base URL is required".to_owned());
    }
    normalize_base_url(raw)
}

impl WizardState {
    #[verifier::type_invariant]
    spec fn preset_row_in_range(&self) -> bool {
        self.preset_selection < 9
    }

    /// The picker row is always one of the nine rows.
    pub fn preset_row_is_valid(&self) -> (b: bool)
        ensures
            b,
            0 <= self@.preset_selection < 9,
    {
        proof {
            use_type_invariant(self);
        }
        true
    }

    /// A genuine first run: nothing configured yet.
    pub fn new() -> (r: Self)
        ensures
            r@ == initial_view(),
    {
        let r = WizardState {
            screen: Screen::Entry,
            entry_selection: EntrySelection::ConnectCopilot,
            providers: ProviderMap::new(),
            copilot_connected: false,
            copilot_defaults: None,
            default_provider: None,
            draft: Draft::default(),
            errors: FieldErrors::default(),
            connect_error: None,
            preset_selection: 0,
        };
        assert(r@ == initial_view());
        r
    }

    /// Seeds the state from an existing configuration file, as if everything in it had
    /// been configured earlier in this pass.
    pub fn seeded_from(config: &ProviderConfigFile) -> (r: Self)
        ensures
            r@ == seeded_view(config_view(config)),
    {
        let mut state = Self::new();
        state.providers = config.providers.copied();
        state.copilot_connected = config.copilot.is_some();
        state.copilot_defaults = copy_copilot(&config.copilot);
        state.default_provider = Some(config.default_provider.clone());
        state
    }

    pub fn screen(&self) -> (r: Screen)
        ensures
            r == self@.screen,
    {
        self.screen
    }

    pub fn entry_selection(&self) -> (r: EntrySelection)
        ensures
            r == self@.entry_selection,
    {
        self.entry_selection
    }

    pub fn providers(&self) -> (r: &ProviderMap)
        ensures
            r@ == self@.providers,
    {
        &self.providers
    }

    pub fn copilot_connected(&self) -> (r: bool)
        ensures
            r == self@.copilot_connected,
    {
        self.copilot_connected
    }

    pub fn default_provider(&self) -> (r: Option<&str>)
        ensures
            r is Some <==> self@.default_provider is Some,
            r matches Some(s) ==> self@.default_provider == Some(s@),
    {
        as_optional_str(&self.default_provider)
    }

    pub fn draft(&self) -> (r: &Draft)
        ensures
            r@ == self@.draft,
    {
        &self.draft
    }

    pub fn errors(&self) -> (r: &FieldErrors)
        ensures
            r@ == self@.errors,
    {
        &self.errors
    }

    pub fn connect_error(&self) -> (r: Option<&str>)
        ensures
            r is Some <==> self@.connect_error is Some,
            r matches Some(s) ==> self@.connect_error == Some(s@),
    {
        as_optional_str(&self.connect_error)
    }

    /// The highlighted row of the provider picker.
    pub fn preset_selection(&self) -> (r: usize)
        ensures
            r == self@.preset_selection,
    {
        self.preset_selection
    }

    /// "Finish" is selectable once a provider or Copilot is configured this pass.
    pub fn can_finish(&self) -> (r: bool)
        ensures
            r == spec_can_finish(self@),
    {
        !self.providers.is_empty() || self.copilot_connected
    }

    /// The configuration file to persist for the current state.
    pub fn to_config_file(&self) -> (r: ProviderConfigFile)
        ensures
            config_view(&r) == spec_to_config(self@),
    {
        let default_provider = match &self.default_provider {
            Some(d) => d.clone(),
            None => {
                let name = copilot_name_chars();
                string_from_chars(name.as_slice())
            },
        };
        let mut config = ProviderConfigFile::new(default_provider.as_str());
        config.providers = self.providers.copied();
        config.copilot = if self.copilot_connected {
            match &self.copilot_defaults {
                Some(d) => Some(d.copied()),
                None => Some(CopilotDefaults::default()),
            }
        } else {
            None
        };
        config
    }

    /// Moves the entry-screen highlight by `delta` rows, stopping at the first and last.
    pub fn move_entry_selection(&mut self, delta: i32)
        requires
            entry_index(old(self)@.entry_selection) + delta <= i32::MAX,
        ensures
            final(self)@ == spec_move_entry(old(self)@, delta as int),
    {
        proof {
            use_type_invariant(&*self);
        }
        let current_index: i32 = match self.entry_selection {
            EntrySelection::ConnectCopilot => 0,
            EntrySelection::AddProvider => 1,
            EntrySelection::Finish => 2,
        };
        let moved = current_index + delta;
        let new_index: i32 = if moved < 0 {
            0
        } else if moved > 2 {
            2
        } else {
            moved
        };
        self.entry_selection = if new_index == 0 {
            EntrySelection::ConnectCopilot
        } else if new_index == 1 {
            EntrySelection::AddProvider
        } else {
            EntrySelection::Finish
        };
    }

    /// Handles a key on the entry screen and says what the driver should do next.
    pub fn handle_entry_key(&mut self, key: KeyCode) -> (r: WizardOutcome)
        ensures
            (final(self)@, r) == spec_entry_key(old(self)@, key),
    {
        proof {
            use_type_invariant(&*self);
        }
        match key {
            KeyCode::Up => {
                self.move_entry_selection(-1);
                WizardOutcome::Continue
            },
            KeyCode::Down => {
                self.move_entry_selection(1);
                WizardOutcome::Continue
            },
            KeyCode::Esc => WizardOutcome::Quit,
            KeyCode::Enter => self.activate_entry_selection(),
            _ => WizardOutcome::Continue,
        }
    }

    /// Enter on the entry screen: does what the highlighted row says (see
    /// `spec_activate`).
    pub fn activate_entry_selection(&mut self) -> (r: WizardOutcome)
        ensures
            (final(self)@, r) == spec_activate(old(self)@),
    {
        proof {
            use_type_invariant(&*self);
        }
        match self.entry_selection {
            EntrySelection::ConnectCopilot => {
                if self.copilot_connected {
                    WizardOutcome::Continue
                } else {
                    self.connect_error = None;
                    self.screen = Screen::ConnectingCopilot;
                    WizardOutcome::ConnectCopilot
                }
            },
            EntrySelection::AddProvider => {
                self.go_to_pick_provider_preset();
                WizardOutcome::Continue
            },
            EntrySelection::Finish => {
                if self.can_finish() {
                    self.screen = Screen::Finish;
                    WizardOutcome::Finished
                } else {
                    WizardOutcome::Continue
                }
            },
        }
    }

    /// Enters the provider picker on its first row.
    pub fn go_to_pick_provider_preset(&mut self)
        ensures
            final(self)@ == spec_go_to_pick(old(self)@),
    {
        proof {
            use_type_invariant(&*self);
        }
        self.screen = Screen::PickProviderPreset;
        self.preset_selection = 0;
    }

    /// Moves the picker highlight by `delta` rows, stopping at the first and last.
    pub fn move_preset_selection(&mut self, delta: i32)
        requires
            old(self)@.preset_selection + delta <= i32::MAX,
        ensures
            final(self)@ == spec_move_preset(old(self)@, delta as int),
    {
        proof {
            use_type_invariant(&*self);
        }
        let moved = self.preset_selection as i32 + delta;
        let new_index: usize = if moved < 0 {
            0
        } else if moved > 8 {
            8
        } else {
            moved as usize
        };
        self.preset_selection = new_index;
    }

    /// Handles a key on the provider-picker screen.
    pub fn handle_pick_preset_key(&mut self, key: KeyCode) -> (r: WizardOutcome)
        ensures
            (final(self)@, r) == spec_pick_key(old(self)@, key),
    {
        proof {
            use_type_invariant(&*self);
        }
        match key {
            KeyCode::Up => {
                self.move_preset_selection(-1);
                WizardOutcome::Continue
            },
            KeyCode::Down => {
                self.move_preset_selection(1);
                WizardOutcome::Continue
            },
            KeyCode::Esc => {
                self.screen = Screen::Entry;
                WizardOutcome::Continue
            },
            KeyCode::Enter => {
                let index = self.preset_selection;
                self.select_preset(index);
                WizardOutcome::Continue
            },
            _ => WizardOutcome::Continue,
        }
    }

    /// Opens the form pre-filled from picker row `index`, focused on the name.
    fn select_preset(&mut self, index: usize)
        ensures
            final(self)@ == spec_select_preset(old(self)@, index as int),
    {
        proof {
            use_type_invariant(&*self);
        }
        let presets = provider_presets();
        let preset = if index < 9 {
            presets[index]
        } else {
            presets[8]
        };
        self.go_to_add_provider();
        self.draft.name = match preset.name {
            Some(n) => n.to_owned(),
            None => String::new(),
        };
        self.draft.base_url = match preset.base_url {
            Some(u) => u.to_owned(),
            None => String::new(),
        };
        self.draft.focus = Field::Name;
    }

    /// Opens the blank add-a-provider form.
    pub fn go_to_add_provider(&mut self)
        ensures
            final(self)@ == spec_go_to_add(old(self)@),
    {
        proof {
            use_type_invariant(&*self);
        }
        self.screen = Screen::AddProvider;
        self.draft = Draft::default();
        self.errors = FieldErrors::default();
    }

    fn cancel_add_provider(&mut self)
        ensures
            final(self)@ == spec_cancel_add(old(self)@),
    {
        proof {
            use_type_invariant(&*self);
        }
        self.screen = Screen::Entry;
        self.errors = FieldErrors::default();
    }

    fn advance_focus(&mut self)
        ensures
            final(self)@ == spec_advance_focus(old(self)@),
    {
        proof {
            use_type_invariant(&*self);
        }
        self.draft.focus = match self.draft.focus {
            Field::Name => Field::BaseUrl,
            Field::BaseUrl => Field::WireApi,
            Field::WireApi => Field::ApiKey,
            Field::ApiKey => Field::Name,
        };
    }

    fn push_char(&mut self, character: char)
        ensures
            final(self)@ == spec_push_char(old(self)@, character),
    {
        proof {
            use_type_invariant(&*self);
        }
        match self.draft.focus {
            Field::Name => {
                self.draft.name = with_char(&self.draft.name, character);
                self.errors.name = None;
            },
            Field::BaseUrl => {
                self.draft.base_url = with_char(&self.draft.base_url, character);
                self.errors.base_url = None;
            },
            Field::ApiKey => self.draft.api_key = with_char(&self.draft.api_key, character),
            Field::WireApi => {},
        }
    }

    fn backspace(&mut self)
        ensures
            final(self)@ == spec_backspace(old(self)@),
    {
        proof {
            use_type_invariant(&*self);
        }
        match self.draft.focus {
            Field::Name => {
                self.draft.name = without_last_char(&self.draft.name);
                self.errors.name = None;
            },
            Field::BaseUrl => {
                self.draft.base_url = without_last_char(&self.draft.base_url);
                self.errors.base_url = None;
            },
            Field::ApiKey => {
                self.draft.api_key = without_last_char(&self.draft.api_key);
            },
            Field::WireApi => {},
        }
    }

    fn toggle_wire_api(&mut self)
        ensures
            final(self)@ == spec_toggle_wire_api(old(self)@),
    {
        proof {
            use_type_invariant(&*self);
        }
        self.draft.wire_api = self.draft.wire_api.toggled();
    }

    /// Handles a key on the add-a-provider screen.
    pub fn handle_add_provider_key(&mut self, key: KeyCode) -> (r: WizardOutcome)
        ensures
            (final(self)@, r) == spec_add_key(old(self)@, key),
    {
        proof {
            use_type_invariant(&*self);
        }
        let on_wire_api = match self.draft.focus {
            Field::WireApi => true,
            _ => false,
        };
        match key {
            KeyCode::Esc => {
                self.cancel_add_provider();
                WizardOutcome::Continue
            },
            KeyCode::Tab => {
                self.advance_focus();
                WizardOutcome::Continue
            },
            KeyCode::Left | KeyCode::Right => {
                if on_wire_api {
                    self.toggle_wire_api();
                }
                WizardOutcome::Continue
            },
            KeyCode::Enter => {
                if on_wire_api {
                    self.toggle_wire_api();
                    WizardOutcome::Continue
                } else if self.submit_provider_form() {
                    WizardOutcome::Persist
                } else {
                    WizardOutcome::Continue
                }
            },
            KeyCode::Backspace => {
                self.backspace();
                WizardOutcome::Continue
            },
            KeyCode::Char(character) => {
                if on_wire_api && character == ' ' {
                    self.toggle_wire_api();
                } else {
                    self.push_char(character);
                }
                WizardOutcome::Continue
            },
            _ => WizardOutcome::Continue,
        }
    }

    /// Validates the form and, when both fields are valid, saves the profile under the
    /// trimmed name, makes it the default and returns to the entry screen. Returns
    /// `false`, with the inline errors set, otherwise.
    pub fn submit_provider_form(&mut self) -> (saved: bool)
        ensures
            (final(self)@, saved) == spec_submit(old(self)@),
    {
        proof {
            use_type_invariant(&*self);
        }
        let name_result = validate_name(self.draft.name.as_str(), &self.providers);
        let url_result = validate_base_url(self.draft.base_url.as_str());
        match (name_result, url_result) {
            (Ok(name), Ok(base_url)) => {
                let mut profile = ProviderProfile::new(base_url.as_str());
                profile.wire_api = self.draft.wire_api.as_str().to_owned();
                let key_chars = chars_of(self.draft.api_key.as_str());
                let api_key = trim_chars(key_chars.as_slice());
                if api_key.len() != 0 {
                    profile.api_key = Some(string_from_chars(api_key.as_slice()));
                }
                let stored_name = name.clone();
                let mut providers = self.providers.copied();
                providers.insert(name, profile);
                self.providers = providers;
                self.default_provider = Some(stored_name);
                self.screen = Screen::Entry;
                self.errors = FieldErrors::default();
                true
            },
            (name_result, url_result) => {
                let name_error = match name_result {
                    Ok(_) => None,
                    Err(e) => Some(e),
                };
                let url_error = match url_result {
                    Ok(_) => None,
                    Err(e) => Some(e),
                };
                self.errors = FieldErrors { name: name_error, base_url: url_error };
                false
            },
        }
    }

    /// The Copilot client started: marks Copilot connected (keeping remembered
    /// defaults), makes it the default provider and returns to the entry screen.
    pub fn confirm_copilot_connected(&mut self)
        ensures
            final(self)@ == spec_confirm_copilot(old(self)@),
    {
        proof {
            use_type_invariant(&*self);
        }
        self.copilot_connected = true;
        if self.copilot_defaults.is_none() {
            self.copilot_defaults = Some(CopilotDefaults::default());
        }
        let name = copilot_name_chars();
        self.default_provider = Some(string_from_chars(name.as_slice()));
        self.connect_error = None;
        self.screen = Screen::Entry;
    }

    /// The Copilot client failed to start: records why and returns to the entry screen.
    pub fn fail_copilot_connect(&mut self, message: &str)
        ensures
            final(self)@ == spec_fail_copilot(old(self)@, message@),
    {
        proof {
            use_type_invariant(&*self);
        }
        self.connect_error = Some(message.to_owned());
        self.screen = Screen::Entry;
    }
}

impl Default for WizardState {
    fn default() -> (r: Self)
        ensures
            r@ == initial_view(),
    {
        Self::new()
    }
}

} // verus!
verus! {

/// Seeding the wizard from a configuration file and saving straight away writes the
/// same file back.
pub proof fn law_seeded_config_round_trip(c: ConfigView)
    ensures
        spec_to_config(seeded_view(c)) == c,
{
    match c.copilot {
        Some(d) => {},
        None => {},
    }
}

/// Four presses of Tab bring focus back to the field it started on.
pub proof fn law_focus_cycles_through_all_fields(v: WizardView)
    ensures
        spec_advance_focus(spec_advance_focus(spec_advance_focus(spec_advance_focus(v)))) == v,
        spec_advance_focus(v).draft.focus != v.draft.focus,
{
}

/// Toggling the wire API twice restores it.
pub proof fn law_wire_api_toggle_is_an_involution(v: WizardView)
    ensures
        spec_toggle_wire_api(spec_toggle_wire_api(v)) == v,
        spec_toggle_wire_api(v).draft.wire_api != v.draft.wire_api,
{
}

proof fn lemma_insert_not_empty(m: Map<Seq<char>, ProfileView>, k: Seq<char>, p: ProfileView)
    ensures
        m.insert(k, p) != Map::<Seq<char>, ProfileView>::empty(),
{
    assert(m.insert(k, p).dom().contains(k));
}

proof fn lemma_submit_keeps_finish(v: WizardView)
    ensures
        spec_can_finish(v) ==> spec_can_finish(spec_submit(v).0),
{
    let n = spec_validate_name(v.draft.name, v.providers);
    let u = spec_validate_base_url(v.draft.base_url);
    if n is Ok && u is Ok {
        lemma_insert_not_empty(v.providers, n->Ok_0, submitted_profile(v.draft, u->Ok_0));
    }
}

/// Once "Finish" is selectable it stays selectable, whatever key is pressed on any
/// screen and whatever the Copilot connection attempt reports.
pub proof fn law_finish_stays_available(v: WizardView, key: KeyCode, message: Seq<char>)
    requires
        spec_can_finish(v),
    ensures
        spec_can_finish(spec_entry_key(v, key).0),
        spec_can_finish(spec_pick_key(v, key).0),
        spec_can_finish(spec_add_key(v, key).0),
        spec_can_finish(spec_confirm_copilot(v)),
        spec_can_finish(spec_fail_copilot(v, message)),
{
    lemma_submit_keeps_finish(v);
}

/// Whatever was configured last becomes the default provider: a saved form names its
/// provider, a Copilot connection names Copilot, and the saved file says the same.
pub proof fn law_last_configured_wins(v: WizardView)
    ensures
        spec_submit(v).1 ==> spec_submit(v).0.default_provider == Some(trim(v.draft.name))
            && spec_submit(v).0.providers.dom().contains(trim(v.draft.name))
            && spec_to_config(spec_submit(v).0).default_provider == trim(v.draft.name),
        spec_confirm_copilot(v).default_provider == Some(copilot_name()),
        spec_to_config(spec_confirm_copilot(v)).default_provider == copilot_name(),
        spec_to_config(spec_confirm_copilot(v)).copilot is Some,
{
}

/// Reconnecting Copilot keeps the Copilot defaults remembered from before.
pub proof fn law_reconnect_keeps_copilot_defaults(v: WizardView)
    requires
        v.copilot_defaults is Some,
    ensures
        spec_confirm_copilot(v).copilot_defaults == v.copilot_defaults,
{
}

/// A failed submit changes nothing but the inline errors, and it always leaves at
/// least one of them set.
pub proof fn law_failed_submit_only_sets_errors(v: WizardView)
    ensures
        !spec_submit(v).1 ==> spec_submit(v).0 == (WizardView { errors: spec_submit(v).0.errors, ..v })
            && (spec_submit(v).0.errors.name is Some || spec_submit(v).0.errors.base_url is Some),
{
}

/// Editing a field clears that field's error and leaves the other one alone.
pub proof fn law_editing_clears_only_that_fields_error(v: WizardView, c: char)
    ensures
        v.draft.focus == Field::Name ==> spec_push_char(v, c).errors.name is None
            && spec_push_char(v, c).errors.base_url == v.errors.base_url
            && spec_backspace(v).errors.name is None && spec_backspace(v).errors.base_url
            == v.errors.base_url,
        v.draft.focus == Field::BaseUrl ==> spec_push_char(v, c).errors.base_url is None
            && spec_push_char(v, c).errors.name == v.errors.name
            && spec_backspace(v).errors.base_url is None && spec_backspace(v).errors.name
            == v.errors.name,
{
}

/// The entry screen's Esc quits without touching the state, and "Finish" only ends
/// the wizard when something is configured.
pub proof fn law_entry_screen_exits(v: WizardView)
    ensures
        spec_entry_key(v, KeyCode::Esc) == (v, WizardOutcome::Quit),
        spec_activate(v).1 == WizardOutcome::Finished ==> spec_can_finish(v),
        v.entry_selection == EntrySelection::Finish && !spec_can_finish(v) ==> spec_activate(v)
            == (v, WizardOutcome::Continue),
{
}

/// The highlights stay on the first or last row when moved past them.
pub proof fn law_moves_clamp(v: WizardView, delta: int)
    ensures
        0 <= spec_move_preset(v, delta).preset_selection <= 8,
        entry_index(spec_move_entry(v, delta).entry_selection) == clamp(
            entry_index(v.entry_selection) + delta,
            0,
            2,
        ),
{
}


/// "Finish" is offered only with a default provider named.
pub open spec fn finish_names_default(v: WizardView) -> bool {
    spec_can_finish(v) ==> v.default_provider is Some
}

/// Every state the wizard can reach offers "Finish" only with a default provider
/// named: a first run and a seeded run start so, and every transition keeps it.
/// So the file saved from such a state names that default, and the Copilot name
/// stands in only while nothing is configured.
pub proof fn law_finish_comes_with_a_default(
    v: WizardView,
    c: ConfigView,
    key: KeyCode,
    ch: char,
    delta: int,
    message: Seq<char>,
)
    ensures
        finish_names_default(initial_view()),
        finish_names_default(seeded_view(c)),
        finish_names_default(v) ==> {
            &&& finish_names_default(spec_entry_key(v, key).0)
            &&& finish_names_default(spec_pick_key(v, key).0)
            &&& finish_names_default(spec_add_key(v, key).0)
            &&& finish_names_default(spec_activate(v).0)
            &&& finish_names_default(spec_submit(v).0)
            &&& finish_names_default(spec_confirm_copilot(v))
            &&& finish_names_default(spec_fail_copilot(v, message))
            &&& finish_names_default(spec_go_to_pick(v))
            &&& finish_names_default(spec_go_to_add(v))
            &&& finish_names_default(spec_move_entry(v, delta))
            &&& finish_names_default(spec_move_preset(v, delta))
            &&& finish_names_default(spec_push_char(v, ch))
            &&& finish_names_default(spec_backspace(v))
        },
        finish_names_default(v) && spec_can_finish(v) ==> spec_to_config(v).default_provider
            == v.default_provider->0,
        !spec_can_finish(initial_view()) && spec_to_config(initial_view()).default_provider
            == copilot_name(),
{
    assert(!spec_can_finish(initial_view()));
}


/// Enter on the entry screen: an unconnected Copilot row starts connecting (with
/// no error shown), a connected one changes nothing; the provider row opens the
/// preset picker on its first row; "Finish" ends the wizard when something is
/// configured and otherwise changes nothing.
pub proof fn law_entry_rows_do_what_they_say(v: WizardView)
    ensures
        v.entry_selection == EntrySelection::ConnectCopilot && !v.copilot_connected ==> spec_activate(v)
            == (
            WizardView { screen: Screen::ConnectingCopilot, connect_error: None, ..v },
            WizardOutcome::ConnectCopilot,
        ),
        v.entry_selection == EntrySelection::ConnectCopilot && v.copilot_connected ==> spec_activate(v)
            == (v, WizardOutcome::Continue),
        v.entry_selection == EntrySelection::AddProvider ==> spec_activate(v) == (
            WizardView { screen: Screen::PickProviderPreset, preset_selection: 0, ..v },
            WizardOutcome::Continue,
        ),
        v.entry_selection == EntrySelection::Finish && spec_can_finish(v) ==> spec_activate(v) == (
            WizardView { screen: Screen::Finish, ..v },
            WizardOutcome::Finished,
        ),
        v.entry_selection == EntrySelection::Finish && !spec_can_finish(v) ==> spec_activate(v) == (
            v,
            WizardOutcome::Continue,
        ),
        spec_entry_key(v, KeyCode::Enter) == spec_activate(v),
{
}

} // verus!
