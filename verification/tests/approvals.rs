use picopilot::approvals::ApprovalQueue;
use picopilot::picker::{ApprovalDecision, ApprovalStatus};

#[test]
fn approval_escape_denies_the_pending_request() {
    let mut queue = ApprovalQueue::new();
    queue.enqueue("cargo test");
    assert!(queue.is_waiting());

    assert_eq!(queue.resolve(ApprovalDecision::Deny), Some("cargo test"));
    assert!(queue.front().is_none());
    assert!(!queue.is_waiting());
    assert_eq!(queue.statuses(), &vec![ApprovalStatus::Denied]);
}

#[test]
fn approval_picker_remains_authoritative_until_fifo_resolution() {
    let mut queue = ApprovalQueue::new();
    queue.enqueue("first");
    queue.enqueue("second");
    assert_eq!(queue.front(), Some(&"first"));

    assert_eq!(queue.resolve(ApprovalDecision::ApproveOnce), Some("first"));
    assert!(queue.is_waiting());
    assert_eq!(queue.front(), Some(&"second"));

    assert_eq!(queue.resolve(ApprovalDecision::Deny), Some("second"));
    assert!(!queue.is_waiting());
    assert_eq!(
        queue.statuses(),
        &vec![ApprovalStatus::ApprovedOnce, ApprovalStatus::Denied]
    );
}

#[test]
fn resolves_the_visible_approval_only_on_a_key_press() {
    let mut queue = ApprovalQueue::new();
    queue.enqueue(1u32);
    assert_eq!(queue.resolve(ApprovalDecision::ApproveOnce), Some(1));
    assert_eq!(queue.statuses().last(), Some(&ApprovalStatus::ApprovedOnce));
}

#[test]
fn resolving_with_nothing_waiting_changes_nothing() {
    let mut queue: ApprovalQueue<u32> = ApprovalQueue::new();
    assert_eq!(queue.resolve(ApprovalDecision::Trust), None);
    assert!(queue.statuses().is_empty());
}

#[test]
fn a_lost_session_denies_everything_that_waits() {
    let mut queue = ApprovalQueue::new();
    queue.enqueue("a");
    queue.enqueue("b");
    queue.enqueue("c");
    assert_eq!(queue.resolve(ApprovalDecision::Trust), Some("a"));
    assert_eq!(queue.reject_all(), vec!["b", "c"]);
    assert!(!queue.is_waiting());
    assert_eq!(
        queue.statuses(),
        &vec![
            ApprovalStatus::Trusted,
            ApprovalStatus::Denied,
            ApprovalStatus::Denied
        ]
    );
}
