//! What the chat window tells the user about the requests it makes on their
//! behalf: each outcome's text, and whether it shows as a banner (of which
//! severity), as local command output or as a diagnostic line.

use vstd::prelude::*;
use crate::text::{chars_equal, chars_of, decimal, push_decimal, push_str};
use crate::transcript_text::BannerSeverity;
use crate::tui::ModelInfo;

verus! {

/// An outcome worth telling the user.
pub enum Notice {
    /// The event stream dropped `skipped` events.
    EventStreamLagged { skipped: u64 },
    EventStreamError { error: String },
    SessionsUnavailable { error: String },
    NewConversationStarted,
    NewConversationFailed { error: String },
    UsageUnavailable { error: String },
    SessionResumed,
    /// A request failed; the error speaks for itself.
    RequestFailed { error: String },
    /// The model was switched; `name` is how the model is shown.
    ModelSet { name: String },
    ToolsNeedIdle,
    ToolsSet { enabled: u64, total: u64 },
    SkillsNeedIdle,
    SkillsSet { enabled: u64 },
    InvokedSkillNeedsIdle,
    SendFailed { error: String },
    TodosUnavailable { error: String },
    /// A skill could not be loaded from `path`.
    SkillDiscovery { message: String, path: String },
}

/// Where a notice shows.
#[derive(Debug, Clone, Copy, PartialEq, Eq, Structural)]
pub enum NoticeSurface {
    Banner(BannerSeverity),
    /// Output under the local command that asked for it.
    LocalOutput,
    /// A line shown with tool internals.
    Diagnostic,
}

/// Where each notice shows: a failed send blocks the session, failures to fetch or
/// change something can be retried, a lagging or failing event stream warns;
/// confirmations and usage output follow the command; session changes and skill
/// discovery are diagnostics.
pub open spec fn spec_notice_surface(n: Notice) -> NoticeSurface {
    match n {
        Notice::EventStreamLagged { .. } => NoticeSurface::Banner(BannerSeverity::Warning),
        Notice::EventStreamError { .. } => NoticeSurface::Banner(BannerSeverity::Warning),
        Notice::SendFailed { .. } => NoticeSurface::Banner(BannerSeverity::BlockingError),
        Notice::NewConversationStarted => NoticeSurface::Diagnostic,
        Notice::SessionResumed => NoticeSurface::Diagnostic,
        Notice::SkillDiscovery { .. } => NoticeSurface::Diagnostic,
        Notice::UsageUnavailable { .. } => NoticeSurface::LocalOutput,
        Notice::ModelSet { .. } => NoticeSurface::LocalOutput,
        Notice::ToolsSet { .. } => NoticeSurface::LocalOutput,
        Notice::SkillsSet { .. } => NoticeSurface::LocalOutput,
        _ => NoticeSurface::Banner(BannerSeverity::RecoverableError),
    }
}

/// The text of each notice.
pub open spec fn spec_notice_text(n: Notice) -> Seq<char> {
    match n {
        Notice::EventStreamLagged { skipped } => "event stream lagged by "@ + decimal(skipped as nat)
            + " events"@,
        Notice::EventStreamError { error } => "event stream error: "@ + error@,
        Notice::SessionsUnavailable { error } => "could not list sessions: "@ + error@,
        Notice::NewConversationStarted => "new conversation started"@,
        Notice::NewConversationFailed { error } => "could not start new conversation: "@ + error@,
        Notice::UsageUnavailable { error } => "Usage unavailable: "@ + error@,
        Notice::SessionResumed => "session resumed"@,
        Notice::RequestFailed { error } => error@,
        Notice::ModelSet { name } => "Set model to "@ + name@,
        Notice::ToolsNeedIdle => "tool selection can only change while the session is idle"@,
        Notice::ToolsSet { enabled, total } => "Set tools to "@ + decimal(enabled as nat) + "/"@
            + decimal(total as nat) + " enabled"@,
        Notice::SkillsNeedIdle => "skill selection can only change while the session is idle"@,
        Notice::SkillsSet { enabled } => "Set skills: "@ + decimal(enabled as nat) + " enabled"@,
        Notice::InvokedSkillNeedsIdle =>
            "the requested skill can only be activated while the session is idle"@,
        Notice::SendFailed { error } => "message could not be sent: "@ + error@,
        Notice::TodosUnavailable { error } => "could not load Fleet todos: "@ + error@,
        Notice::SkillDiscovery { message, path } => "skill discovery: "@ + message@ + " ("@ + path@
            + ")"@,
    }
}

/// Where the notice `n` shows.
pub fn notice_surface(n: &Notice) -> (s: NoticeSurface)
    ensures
        s == spec_notice_surface(*n),
{
    match n {
        Notice::EventStreamLagged { .. } => NoticeSurface::Banner(BannerSeverity::Warning),
        Notice::EventStreamError { .. } => NoticeSurface::Banner(BannerSeverity::Warning),
        Notice::SendFailed { .. } => NoticeSurface::Banner(BannerSeverity::BlockingError),
        Notice::NewConversationStarted => NoticeSurface::Diagnostic,
        Notice::SessionResumed => NoticeSurface::Diagnostic,
        Notice::SkillDiscovery { .. } => NoticeSurface::Diagnostic,
        Notice::UsageUnavailable { .. } => NoticeSurface::LocalOutput,
        Notice::ModelSet { .. } => NoticeSurface::LocalOutput,
        Notice::ToolsSet { .. } => NoticeSurface::LocalOutput,
        Notice::SkillsSet { .. } => NoticeSurface::LocalOutput,
        _ => NoticeSurface::Banner(BannerSeverity::RecoverableError),
    }
}

/// The text of the notice `n`.
pub fn notice_text(n: &Notice) -> (t: String)
    ensures
        t@ == spec_notice_text(*n),
{
    let mut t = String::new();
    match n {
        Notice::EventStreamLagged { skipped } => {
            push_str(&mut t, "event stream lagged by ");
            push_decimal(&mut t, *skipped);
            push_str(&mut t, " events");
        },
        Notice::EventStreamError { error } => {
            push_str(&mut t, "event stream error: ");
            push_str(&mut t, error.as_str());
        },
        Notice::SessionsUnavailable { error } => {
            push_str(&mut t, "could not list sessions: ");
            push_str(&mut t, error.as_str());
        },
        Notice::NewConversationStarted => push_str(&mut t, "new conversation started"),
        Notice::NewConversationFailed { error } => {
            push_str(&mut t, "could not start new conversation: ");
            push_str(&mut t, error.as_str());
        },
        Notice::UsageUnavailable { error } => {
            push_str(&mut t, "Usage unavailable: ");
            push_str(&mut t, error.as_str());
        },
        Notice::SessionResumed => push_str(&mut t, "session resumed"),
        Notice::RequestFailed { error } => push_str(&mut t, error.as_str()),
        Notice::ModelSet { name } => {
            push_str(&mut t, "Set model to ");
            push_str(&mut t, name.as_str());
        },
        Notice::ToolsNeedIdle => push_str(
            &mut t,
            "tool selection can only change while the session is idle",
        ),
        Notice::ToolsSet { enabled, total } => {
            push_str(&mut t, "Set tools to ");
            push_decimal(&mut t, *enabled);
            push_str(&mut t, "/");
            push_decimal(&mut t, *total);
            push_str(&mut t, " enabled");
        },
        Notice::SkillsNeedIdle => push_str(
            &mut t,
            "skill selection can only change while the session is idle",
        ),
        Notice::SkillsSet { enabled } => {
            push_str(&mut t, "Set skills: ");
            push_decimal(&mut t, *enabled);
            push_str(&mut t, " enabled");
        },
        Notice::InvokedSkillNeedsIdle => push_str(
            &mut t,
            "the requested skill can only be activated while the session is idle",
        ),
        Notice::SendFailed { error } => {
            push_str(&mut t, "message could not be sent: ");
            push_str(&mut t, error.as_str());
        },
        Notice::TodosUnavailable { error } => {
            push_str(&mut t, "could not load Fleet todos: ");
            push_str(&mut t, error.as_str());
        },
        Notice::SkillDiscovery { message, path } => {
            push_str(&mut t, "skill discovery: ");
            push_str(&mut t, message.as_str());
            push_str(&mut t, " (");
            push_str(&mut t, path.as_str());
            push_str(&mut t, ")");
        },
    }
    t
}

/// How the model `id` is shown: the name of the first known model with that id,
/// or the id itself.
pub open spec fn spec_display_model_name(models: Seq<ModelInfo>, id: Seq<char>) -> Seq<char>
    decreases models.len(),
{
    if models.len() == 0 {
        id
    } else if models[0].id@ == id {
        models[0].name@
    } else {
        spec_display_model_name(models.drop_first(), id)
    }
}

/// How the model `id` is shown (see `spec_display_model_name`).
pub fn display_model_name(models: &Vec<ModelInfo>, id: &str) -> (name: String)
    ensures
        name@ == spec_display_model_name(models@, id@),
{
    let wanted = chars_of(id);
    let mut i: usize = 0;
    assert(models@.subrange(0, models@.len() as int) =~= models@);
    while i < models.len()
        invariant
            i <= models@.len(),
            wanted@ == id@,
            spec_display_model_name(models@, id@) == spec_display_model_name(
                models@.subrange(i as int, models@.len() as int),
                id@,
            ),
        decreases models.len() - i,
    {
        let ghost rest = models@.subrange(i as int, models@.len() as int);
        assert(rest[0] == models@[i as int]);
        assert(rest.drop_first() =~= models@.subrange(i + 1, models@.len() as int));
        if chars_equal(chars_of(models[i].id.as_str()).as_slice(), wanted.as_slice()) {
            let mut name = String::new();
            push_str(&mut name, models[i].name.as_str());
            return name;
        }
        i += 1;
    }
    let mut name = String::new();
    push_str(&mut name, id);
    name
}

} // verus!
