use picopilot::notices::{
    display_model_name, notice_surface, notice_text, Notice, NoticeSurface,
};
use picopilot::transcript_text::BannerSeverity;
use picopilot::tui::ModelInfo;

fn model(id: &str, name: &str) -> ModelInfo {
    ModelInfo {
        id: id.to_string(),
        name: name.to_string(),
        default_reasoning_effort: None,
        supported_reasoning_efforts: Vec::new(),
        supported_context_tiers: Vec::new(),
        price_category: None,
        billing_multiplier: None,
        max_context_window_tokens: None,
    }
}

#[test]
fn confirmations_follow_the_command_that_asked() {
    let tools = Notice::ToolsSet {
        enabled: 3,
        total: 9,
    };
    assert_eq!(notice_text(&tools), "Set tools to 3/9 enabled");
    assert_eq!(notice_surface(&tools), NoticeSurface::LocalOutput);
    let skills = Notice::SkillsSet { enabled: 2 };
    assert_eq!(notice_text(&skills), "Set skills: 2 enabled");
    let model = Notice::ModelSet {
        name: "GPT-5".to_string(),
    };
    assert_eq!(notice_text(&model), "Set model to GPT-5");
    assert_eq!(notice_surface(&model), NoticeSurface::LocalOutput);
}

#[test]
fn failures_are_banners_by_how_serious_they_are() {
    let send = Notice::SendFailed {
        error: "offline".to_string(),
    };
    assert_eq!(notice_text(&send), "message could not be sent: offline");
    assert_eq!(
        notice_surface(&send),
        NoticeSurface::Banner(BannerSeverity::BlockingError)
    );
    let sessions = Notice::SessionsUnavailable {
        error: "timeout".to_string(),
    };
    assert_eq!(notice_text(&sessions), "could not list sessions: timeout");
    assert_eq!(
        notice_surface(&sessions),
        NoticeSurface::Banner(BannerSeverity::RecoverableError)
    );
    assert_eq!(
        notice_text(&Notice::ToolsNeedIdle),
        "tool selection can only change while the session is idle"
    );
    assert_eq!(
        notice_text(&Notice::InvokedSkillNeedsIdle),
        "the requested skill can only be activated while the session is idle"
    );
    let lagged = Notice::EventStreamLagged { skipped: 12 };
    assert_eq!(notice_text(&lagged), "event stream lagged by 12 events");
    assert_eq!(
        notice_surface(&lagged),
        NoticeSurface::Banner(BannerSeverity::Warning)
    );
    assert_eq!(
        notice_text(&Notice::TodosUnavailable {
            error: "denied".to_string()
        }),
        "could not load Fleet todos: denied"
    );
    assert_eq!(
        notice_text(&Notice::RequestFailed {
            error: "no such session".to_string()
        }),
        "no such session"
    );
}

#[test]
fn diagnostics_note_session_changes_and_skill_problems() {
    assert_eq!(
        notice_text(&Notice::NewConversationStarted),
        "new conversation started"
    );
    assert_eq!(notice_surface(&Notice::SessionResumed), NoticeSurface::Diagnostic);
    let discovery = Notice::SkillDiscovery {
        message: "missing front matter".to_string(),
        path: "skills/a/SKILL.md".to_string(),
    };
    assert_eq!(
        notice_text(&discovery),
        "skill discovery: missing front matter (skills/a/SKILL.md)"
    );
    assert_eq!(
        notice_text(&Notice::UsageUnavailable {
            error: "busy".to_string()
        }),
        "Usage unavailable: busy"
    );
}

#[test]
fn a_model_is_shown_by_its_name_when_known() {
    let models = vec![model("gpt-5", "GPT-5"), model("gpt-5", "Other"), model("o3", "O3")];
    assert_eq!(display_model_name(&models, "gpt-5"), "GPT-5");
    assert_eq!(display_model_name(&models, "o3"), "O3");
    assert_eq!(display_model_name(&models, "local/qwen"), "local/qwen");
}
