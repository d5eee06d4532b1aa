//! Decisions around talking to the agent session that the caller carries out: where
//! a prompt goes once Fleet answered, what follows a failed request, and what each
//! reconnect attempt leads to, with the banners shown along the way.

use vstd::prelude::*;
use crate::notices::{spec_notice_surface, spec_notice_text, Notice, NoticeSurface};
use crate::text::{decimal, push_decimal, push_str};
use crate::transcript_text::BannerSeverity;

verus! {

/// Where a prompt was sent.
#[derive(Debug, Clone, Copy, PartialEq, Eq, Structural)]
pub enum SendPath {
    Fleet,
    Single,
}

/// How the request to start Fleet on a prompt came back.
#[derive(Debug, Clone, Copy, PartialEq, Eq, Structural)]
pub enum FleetStartOutcome {
    Started,
    NotStarted,
    Failed { transport: bool },
}

/// What to do with the prompt next.
#[derive(Debug, Clone, Copy, PartialEq, Eq, Structural)]
pub enum FleetFallback {
    /// Fleet owns the prompt.
    Done(SendPath),
    /// Send the prompt to the single agent instead.
    SendSingle,
    /// The connection failed; report the error without retrying.
    Fail,
}

/// Fleet keeps a prompt it started; a lost connection is reported as is; any other
/// refusal or error falls back to one single-agent send.
pub fn fleet_fallback(outcome: FleetStartOutcome) -> (r: FleetFallback)
    ensures
        r == match outcome {
            FleetStartOutcome::Started => FleetFallback::Done(SendPath::Fleet),
            FleetStartOutcome::Failed { transport: true } => FleetFallback::Fail,
            _ => FleetFallback::SendSingle,
        },
{
    match outcome {
        FleetStartOutcome::Started => FleetFallback::Done(SendPath::Fleet),
        FleetStartOutcome::Failed { transport } => {
            if transport {
                FleetFallback::Fail
            } else {
                FleetFallback::SendSingle
            }
        },
        FleetStartOutcome::NotStarted => FleetFallback::SendSingle,
    }
}

/// Why resuming the session during a reconnect failed, as far as retrying cares.
#[derive(Debug, Clone, Copy, PartialEq, Eq, Structural)]
pub enum RecoveryFailure {
    MissingSession,
    IdentityMismatch,
    Other,
}

/// A session that is gone or belongs to someone else will not come back: stop
/// retrying.
pub fn is_fatal_recovery_error(failure: RecoveryFailure) -> (b: bool)
    ensures
        b <==> (failure == RecoveryFailure::MissingSession || failure
            == RecoveryFailure::IdentityMismatch),
{
    match failure {
        RecoveryFailure::MissingSession => true,
        RecoveryFailure::IdentityMismatch => true,
        RecoveryFailure::Other => false,
    }
}

/// The warning shown before each reconnect attempt.
pub open spec fn spec_reconnecting_banner(session_id: Seq<char>, attempt: nat, max_attempts: nat) -> Seq<
    char,
> {
    "connection lost; reconnecting session '"@ + session_id + "' (attempt "@ + decimal(attempt)
        + "/"@ + decimal(max_attempts) + ")"@
}

/// The warning shown before reconnect attempt `attempt` of `max_attempts`.
pub fn reconnecting_banner(session_id: &str, attempt: u32, max_attempts: u32) -> (r: String)
    ensures
        r@ == spec_reconnecting_banner(session_id@, attempt as nat, max_attempts as nat),
{
    let mut r = "connection lost; reconnecting session '".to_owned();
    push_str(&mut r, session_id);
    push_str(&mut r, "' (attempt ");
    push_decimal(&mut r, attempt as u64);
    push_str(&mut r, "/");
    push_decimal(&mut r, max_attempts as u64);
    push_str(&mut r, ")");
    r
}

/// What one reconnect attempt came back with.
pub enum RecoveryOutcome {
    Restored,
    Failed { failure: RecoveryFailure, reason: String },
}

/// What follows a reconnect attempt.
pub enum RecoveryStep {
    /// Back online: leave the reconnecting state and show this warning.
    Restored { banner: String },
    /// Stop: leave the reconnecting state, show this blocking error and quit.
    GiveUp { banner: String },
    /// Wait out the back-off and try again.
    Retry,
}

pub enum RecoveryStepView {
    Restored(Seq<char>),
    GiveUp(Seq<char>),
    Retry,
}

pub open spec fn step_view(s: RecoveryStep) -> RecoveryStepView {
    match s {
        RecoveryStep::Restored { banner } => RecoveryStepView::Restored(banner@),
        RecoveryStep::GiveUp { banner } => RecoveryStepView::GiveUp(banner@),
        RecoveryStep::Retry => RecoveryStepView::Retry,
    }
}

/// After attempt `attempt` of `max_attempts`: restored is announced; a fatal failure
/// or a failed last attempt gives up, naming the session, the attempts made and the
/// reason; any other failure is retried.
pub open spec fn spec_recovery_step(
    session_id: Seq<char>,
    attempt: nat,
    max_attempts: nat,
    restored: bool,
    fatal: bool,
    reason: Seq<char>,
) -> RecoveryStepView {
    if restored {
        RecoveryStepView::Restored("connection restored; in-flight tool outcomes remain unknown"@)
    } else if fatal || attempt == max_attempts {
        RecoveryStepView::GiveUp(
            "could not reconnect session '"@ + session_id + "' after "@ + decimal(attempt)
                + " attempt(s): "@ + reason,
        )
    } else {
        RecoveryStepView::Retry
    }
}

/// Decides what follows reconnect attempt `attempt` of `max_attempts`.
pub fn recovery_step(
    session_id: &str,
    attempt: u32,
    max_attempts: u32,
    outcome: &RecoveryOutcome,
) -> (r: RecoveryStep)
    ensures
        step_view(r) == match outcome {
            RecoveryOutcome::Restored => spec_recovery_step(
                session_id@,
                attempt as nat,
                max_attempts as nat,
                true,
                false,
                Seq::empty(),
            ),
            RecoveryOutcome::Failed { failure, reason } => spec_recovery_step(
                session_id@,
                attempt as nat,
                max_attempts as nat,
                false,
                *failure == RecoveryFailure::MissingSession || *failure
                    == RecoveryFailure::IdentityMismatch,
                reason@,
            ),
        },
{
    match outcome {
        RecoveryOutcome::Restored => RecoveryStep::Restored {
            banner: "connection restored; in-flight tool outcomes remain unknown".to_owned(),
        },
        RecoveryOutcome::Failed { failure, reason } => {
            if is_fatal_recovery_error(*failure) || attempt == max_attempts {
                let mut banner = "could not reconnect session '".to_owned();
                push_str(&mut banner, session_id);
                push_str(&mut banner, "' after ");
                push_decimal(&mut banner, attempt as u64);
                push_str(&mut banner, " attempt(s): ");
                push_str(&mut banner, reason.as_str());
                RecoveryStep::GiveUp { banner }
            } else {
                RecoveryStep::Retry
            }
        },
    }
}

/// However the attempts go, a reconnect loop of `max_attempts` tries never retries
/// past its last attempt: that attempt either restores the session or gives up.
pub proof fn law_the_last_attempt_never_retries(
    session_id: Seq<char>,
    max_attempts: nat,
    restored: bool,
    fatal: bool,
    reason: Seq<char>,
)
    ensures
        spec_recovery_step(session_id, max_attempts, max_attempts, restored, fatal, reason)
            != RecoveryStepView::Retry,
{
}


/// A failed reconnect attempt that is not fatal is retried as long as attempts are
/// left: below `max_attempts` the loop always waits and tries again, and a fatal
/// failure stops it at any attempt.
pub proof fn law_transient_failures_are_retried_until_the_last_attempt(
    session_id: Seq<char>,
    attempt: nat,
    max_attempts: nat,
    reason: Seq<char>,
)
    ensures
        attempt < max_attempts ==> spec_recovery_step(session_id, attempt, max_attempts, false, false, reason)
            == RecoveryStepView::Retry,
        spec_recovery_step(session_id, attempt, max_attempts, false, true, reason) is GiveUp,
        spec_recovery_step(session_id, attempt, max_attempts, true, false, reason) is Restored,
{
}


/// A request the chat window makes of the session on the user's behalf.
#[derive(Debug, Clone, Copy, PartialEq, Eq, Structural)]
pub enum SessionRequest {
    ListSessions,
    NewConversation,
    UsageMetrics,
    ContextAttribution,
    Resume,
    SwitchModel,
    SetToolset,
    SetSkills,
    /// Enabling the skill a prompt invokes, before sending it.
    ActivateInvokedSkill,
    Send,
    StartFleet,
    LoadTodos,
}

/// What follows a failed request.
pub struct FailureStep {
    /// Re-establish the session first.
    pub recover: bool,
    /// What to tell the user, if anything.
    pub notice: Option<Notice>,
}

/// What the user is told, as where it shows and its text.
pub open spec fn told(n: Option<Notice>) -> Option<(NoticeSurface, Seq<char>)> {
    match n {
        Some(n) => Some((spec_notice_surface(n), spec_notice_text(n))),
        None => None,
    }
}

/// After a failure: a lost connection is re-established, and only usage requests
/// then say that usage is unavailable. Any other failure is told: a failed send
/// blocks the session, usage failures are command output, a missing context
/// attribution is passed over, and the rest are banners that can be retried.
pub open spec fn spec_failure_notice(request: SessionRequest, transport: bool, error: Seq<char>) -> Option<
    (NoticeSurface, Seq<char>),
> {
    let retry = NoticeSurface::Banner(BannerSeverity::RecoverableError);
    if transport {
        match request {
            SessionRequest::UsageMetrics => Some((NoticeSurface::LocalOutput, "Usage unavailable: "@ + error)),
            SessionRequest::ContextAttribution => Some(
                (NoticeSurface::LocalOutput, "Usage unavailable: "@ + error),
            ),
            _ => None,
        }
    } else {
        match request {
            SessionRequest::ListSessions => Some((retry, "could not list sessions: "@ + error)),
            SessionRequest::NewConversation => Some((retry, "could not start new conversation: "@ + error)),
            SessionRequest::UsageMetrics => Some((NoticeSurface::LocalOutput, "Usage unavailable: "@ + error)),
            SessionRequest::ContextAttribution => None,
            SessionRequest::Send => Some(
                (NoticeSurface::Banner(BannerSeverity::BlockingError), "message could not be sent: "@ + error),
            ),
            SessionRequest::StartFleet => Some(
                (NoticeSurface::Banner(BannerSeverity::BlockingError), "message could not be sent: "@ + error),
            ),
            SessionRequest::LoadTodos => Some((retry, "could not load Fleet todos: "@ + error)),
            _ => Some((retry, error)),
        }
    }
}

/// What follows a request that failed with `error`; `transport` tells whether the
/// connection to the session was lost.
pub fn after_failure(request: SessionRequest, transport: bool, error: String) -> (r: FailureStep)
    ensures
        r.recover == transport,
        told(r.notice) == spec_failure_notice(request, transport, error@),
{
    let notice = if transport {
        match request {
            SessionRequest::UsageMetrics => Some(Notice::UsageUnavailable { error }),
            SessionRequest::ContextAttribution => Some(Notice::UsageUnavailable { error }),
            _ => None,
        }
    } else {
        match request {
            SessionRequest::ListSessions => Some(Notice::SessionsUnavailable { error }),
            SessionRequest::NewConversation => Some(Notice::NewConversationFailed { error }),
            SessionRequest::UsageMetrics => Some(Notice::UsageUnavailable { error }),
            SessionRequest::ContextAttribution => None,
            SessionRequest::Send => Some(Notice::SendFailed { error }),
            SessionRequest::StartFleet => Some(Notice::SendFailed { error }),
            SessionRequest::LoadTodos => Some(Notice::TodosUnavailable { error }),
            _ => Some(Notice::RequestFailed { error }),
        }
    };
    FailureStep { recover: transport, notice }
}

/// A lost connection never ends in a banner: the session is re-established, and
/// what is told afterwards, if anything, is command output.
pub proof fn law_lost_connections_are_recovered_quietly(request: SessionRequest, error: Seq<char>)
    ensures
        spec_failure_notice(request, true, error) matches Some(t) ==> t.0 == NoticeSurface::LocalOutput,
        spec_failure_notice(request, true, error) is Some <==> (request == SessionRequest::UsageMetrics
            || request == SessionRequest::ContextAttribution),
{
}

} // verus!
