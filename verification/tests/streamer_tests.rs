use logagent::streamer::{
    after_first_attempt, after_refresh, after_retry, RefreshFollowUp, RetryDecision, SendOutcome,
};

#[test]
fn acknowledged_delivery_is_done() {
    assert_eq!(after_first_attempt(&SendOutcome::Delivered), RetryDecision::Success);
}

#[test]
fn auth_code_opens_refresh_and_retry() {
    assert_eq!(after_first_attempt(&SendOutcome::AuthRejected), RetryDecision::RefreshAndRetry);
}

#[test]
fn other_failures_drop_the_batch() {
    assert_eq!(after_first_attempt(&SendOutcome::Failed), RetryDecision::GiveUp);
}

#[test]
fn refresh_outcome_decides_the_retry() {
    assert_eq!(after_refresh(true), RefreshFollowUp::RetryOnce);
    assert_eq!(after_refresh(false), RefreshFollowUp::Abandon);
}

#[test]
fn retry_outcome_is_terminal() {
    assert!(after_retry(&SendOutcome::Delivered));
    assert!(!after_retry(&SendOutcome::AuthRejected));
    assert!(!after_retry(&SendOutcome::Failed));
}

/// Drive one batch's delivery the way the streamer's loop does, counting
/// the observable steps.
fn drive(first: SendOutcome, refresh_ok: bool, second: SendOutcome) -> (u32, u32, bool) {
    let mut attempts = 1u32; // the first delivery attempt
    let mut refreshes = 0u32;
    let delivered = match after_first_attempt(&first) {
        RetryDecision::Success => true,
        RetryDecision::GiveUp => false,
        RetryDecision::RefreshAndRetry => {
            refreshes += 1;
            match after_refresh(refresh_ok) {
                RefreshFollowUp::Abandon => false,
                RefreshFollowUp::RetryOnce => {
                    attempts += 1;
                    after_retry(&second)
                }
            }
        }
    };
    (attempts, refreshes, delivered)
}

#[test]
fn retry_once_exactly_one_refresh_and_one_retry() {
    let (attempts, refreshes, delivered) =
        drive(SendOutcome::AuthRejected, true, SendOutcome::Delivered);
    assert_eq!(attempts, 2);
    assert_eq!(refreshes, 1);
    assert!(delivered);
}

#[test]
fn failed_retry_drops_the_batch_without_looping() {
    let (attempts, refreshes, delivered) =
        drive(SendOutcome::AuthRejected, true, SendOutcome::Failed);
    assert_eq!(attempts, 2);
    assert_eq!(refreshes, 1);
    assert!(!delivered);
}

#[test]
fn failed_refresh_chain_abandons_without_retry() {
    let (attempts, refreshes, delivered) =
        drive(SendOutcome::AuthRejected, false, SendOutcome::Delivered);
    assert_eq!(attempts, 1);
    assert_eq!(refreshes, 1);
    assert!(!delivered);
}

#[test]
fn clean_delivery_makes_one_attempt_and_no_refresh() {
    let (attempts, refreshes, delivered) =
        drive(SendOutcome::Delivered, false, SendOutcome::Failed);
    assert_eq!(attempts, 1);
    assert_eq!(refreshes, 0);
    assert!(delivered);
}
