use picopilot::notices::{notice_surface, notice_text, NoticeSurface};
use picopilot::transcript_text::BannerSeverity;
use picopilot::session_flow::{
    after_failure, SessionRequest,
    fleet_fallback, is_fatal_recovery_error, reconnecting_banner, recovery_step,
    FleetFallback, FleetStartOutcome, RecoveryFailure, RecoveryOutcome, RecoveryStep, SendPath,
};

#[test]
fn fleet_start_owns_the_prompt_when_supported() {
    assert_eq!(
        fleet_fallback(FleetStartOutcome::Started),
        FleetFallback::Done(SendPath::Fleet)
    );
}

#[test]
fn fleet_start_falls_back_to_one_single_agent_delegation() {
    assert_eq!(
        fleet_fallback(FleetStartOutcome::NotStarted),
        FleetFallback::SendSingle
    );
}

#[test]
fn fleet_start_errors_are_silently_fallbacked() {
    assert_eq!(
        fleet_fallback(FleetStartOutcome::Failed { transport: false }),
        FleetFallback::SendSingle
    );
}

#[test]
fn fleet_transport_errors_are_not_retried_as_single_agent_prompts() {
    assert_eq!(
        fleet_fallback(FleetStartOutcome::Failed { transport: true }),
        FleetFallback::Fail
    );
}

#[test]
fn only_a_missing_or_foreign_session_is_fatal() {
    assert!(is_fatal_recovery_error(RecoveryFailure::MissingSession));
    assert!(is_fatal_recovery_error(RecoveryFailure::IdentityMismatch));
    assert!(!is_fatal_recovery_error(RecoveryFailure::Other));
}

#[test]
fn reconnect_attempts_are_announced_with_their_number() {
    assert_eq!(
        reconnecting_banner("session-1", 2, 5),
        "connection lost; reconnecting session 'session-1' (attempt 2/5)"
    );
}

#[test]
fn reconnect_attempts_retry_until_fatal_or_last() {
    let restored = recovery_step("s", 1, 3, &RecoveryOutcome::Restored);
    assert!(matches!(
        restored,
        RecoveryStep::Restored { ref banner }
            if banner == "connection restored; in-flight tool outcomes remain unknown"
    ));

    let transient = RecoveryOutcome::Failed {
        failure: RecoveryFailure::Other,
        reason: "timed out".to_string(),
    };
    assert!(matches!(recovery_step("s", 1, 3, &transient), RecoveryStep::Retry));
    assert!(matches!(
        recovery_step("s", 3, 3, &transient),
        RecoveryStep::GiveUp { ref banner }
            if banner == "could not reconnect session 's' after 3 attempt(s): timed out"
    ));

    let gone = RecoveryOutcome::Failed {
        failure: RecoveryFailure::MissingSession,
        reason: "no such session".to_string(),
    };
    assert!(matches!(
        recovery_step("s", 1, 3, &gone),
        RecoveryStep::GiveUp { ref banner }
            if banner == "could not reconnect session 's' after 1 attempt(s): no such session"
    ));
}

fn told(request: SessionRequest, transport: bool) -> (bool, Option<(NoticeSurface, String)>) {
    let step = after_failure(request, transport, "boom".to_string());
    (
        step.recover,
        step.notice.map(|n| (notice_surface(&n), notice_text(&n))),
    )
}

#[test]
fn lost_connections_recover_and_only_usage_says_so() {
    assert_eq!(told(SessionRequest::ListSessions, true), (true, None));
    assert_eq!(told(SessionRequest::Send, true), (true, None));
    assert_eq!(
        told(SessionRequest::UsageMetrics, true),
        (
            true,
            Some((NoticeSurface::LocalOutput, "Usage unavailable: boom".to_string()))
        )
    );
}

#[test]
fn other_failures_are_told_where_they_belong() {
    let retry = NoticeSurface::Banner(BannerSeverity::RecoverableError);
    assert_eq!(
        told(SessionRequest::ListSessions, false),
        (false, Some((retry, "could not list sessions: boom".to_string())))
    );
    assert_eq!(
        told(SessionRequest::NewConversation, false),
        (false, Some((retry, "could not start new conversation: boom".to_string())))
    );
    assert_eq!(told(SessionRequest::ContextAttribution, false), (false, None));
    assert_eq!(
        told(SessionRequest::SwitchModel, false),
        (false, Some((retry, "boom".to_string())))
    );
    assert_eq!(
        told(SessionRequest::StartFleet, false),
        (
            false,
            Some((
                NoticeSurface::Banner(BannerSeverity::BlockingError),
                "message could not be sent: boom".to_string()
            ))
        )
    );
    assert_eq!(
        told(SessionRequest::LoadTodos, false),
        (false, Some((retry, "could not load Fleet todos: boom".to_string())))
    );
}
