use vstd::prelude::*;

verus! {

/// The outcome of one delivery attempt, as the transport reports it back:
/// acknowledged, rejected with the authentication status code, or failed
/// with any other error.
#[derive(Clone, Copy, Debug, PartialEq, Eq, Structural)]
pub enum SendOutcome {
    Delivered,
    AuthRejected,
    Failed,
}

/// What to do after the first delivery attempt of a batch.
#[derive(Clone, Copy, Debug, PartialEq, Eq, Structural)]
pub enum RetryDecision {
    /// The attempt was acknowledged: the batch is done.
    Success,
    /// The authentication status code came back: refresh the credentials,
    /// then retry the delivery exactly once.
    RefreshAndRetry,
    /// Any other failure: the batch is dropped, not re-enqueued.
    GiveUp,
}

/// What to do once the credential refresh has been attempted.
#[derive(Clone, Copy, Debug, PartialEq, Eq, Structural)]
pub enum RefreshFollowUp {
    /// The refresh chain succeeded: make the single retry.
    RetryOnce,
    /// The refresh chain itself failed: drop the batch without retrying.
    Abandon,
}

/// The decision after the first attempt: only the authentication code opens
/// the refresh-and-retry path; an acknowledgement ends the delivery; any
/// other failure drops the batch.
pub open spec fn first_decision(o: SendOutcome) -> RetryDecision {
    match o {
        SendOutcome::Delivered => RetryDecision::Success,
        SendOutcome::AuthRejected => RetryDecision::RefreshAndRetry,
        SendOutcome::Failed => RetryDecision::GiveUp,
    }
}

/// Decide what follows the first delivery attempt.
pub fn after_first_attempt(outcome: &SendOutcome) -> (r: RetryDecision)
    ensures
        r == first_decision(*outcome),
{
    match outcome {
        SendOutcome::Delivered => RetryDecision::Success,
        SendOutcome::AuthRejected => RetryDecision::RefreshAndRetry,
        SendOutcome::Failed => RetryDecision::GiveUp,
    }
}

/// Decide what follows the credential refresh: retry exactly once if it
/// succeeded, drop the batch if it failed.
pub fn after_refresh(refresh_ok: bool) -> (r: RefreshFollowUp)
    ensures
        refresh_ok ==> r == RefreshFollowUp::RetryOnce,
        !refresh_ok ==> r == RefreshFollowUp::Abandon,
{
    if refresh_ok {
        RefreshFollowUp::RetryOnce
    } else {
        RefreshFollowUp::Abandon
    }
}

/// Decide the delivery's result after the single retry: delivered if the
/// retry was acknowledged, dropped on anything else — never a further retry.
pub fn after_retry(outcome: &SendOutcome) -> (delivered: bool)
    ensures
        delivered == (*outcome is Delivered),
{
    match outcome {
        SendOutcome::Delivered => true,
        SendOutcome::AuthRejected => false,
        SendOutcome::Failed => false,
    }
}

/// The observable steps a delivery takes against the outside world.
#[derive(Clone, Copy, Debug, PartialEq, Eq, Structural)]
pub enum DeliveryAction {
    /// One call that hands the batch to the remote service.
    Attempt,
    /// One credential refresh through the token manager.
    Refresh,
}

/// The whole delivery of one batch, as the decisions above drive it: which
/// actions run, in order, and whether the batch was delivered. `first` and
/// `second` are what the transport would report for the first attempt and
/// for the retry; `refresh_ok` is whether the refresh chain would succeed.
pub open spec fn delivery_flow(first: SendOutcome, refresh_ok: bool, second: SendOutcome) -> (
    Seq<DeliveryAction>,
    bool,
) {
    match first {
        SendOutcome::Delivered => (seq![DeliveryAction::Attempt], true),
        SendOutcome::Failed => (seq![DeliveryAction::Attempt], false),
        SendOutcome::AuthRejected => {
            if !refresh_ok {
                (seq![DeliveryAction::Attempt, DeliveryAction::Refresh], false)
            } else {
                (
                    seq![DeliveryAction::Attempt, DeliveryAction::Refresh, DeliveryAction::Attempt],
                    second is Delivered,
                )
            }
        },
    }
}

/// How many times `a` occurs in `s`.
pub open spec fn count_action(s: Seq<DeliveryAction>, a: DeliveryAction) -> int
    decreases s.len(),
{
    if s.len() == 0 {
        0
    } else {
        (if s.first() == a {
            1int
        } else {
            0int
        }) + count_action(s.drop_first(), a)
    }
}

/// Retry-once: whatever the outside world reports, a delivery makes at most
/// two attempts and at most one refresh. The authentication code triggers
/// exactly one refresh and — when the refresh chain succeeds — exactly one
/// retried attempt; if that retry also fails, the batch is dropped then and
/// there, one failure, no loop.
pub proof fn lemma_retry_once(first: SendOutcome, refresh_ok: bool, second: SendOutcome)
    ensures
        ({
            let flow = delivery_flow(first, refresh_ok, second);
            &&& count_action(flow.0, DeliveryAction::Attempt) <= 2
            &&& count_action(flow.0, DeliveryAction::Refresh) <= 1
            &&& (first == SendOutcome::AuthRejected && refresh_ok ==> count_action(
                flow.0,
                DeliveryAction::Refresh,
            ) == 1 && count_action(flow.0, DeliveryAction::Attempt) == 2)
            &&& (first == SendOutcome::AuthRejected && refresh_ok && !(second is Delivered)
                ==> flow.1 == false)
            &&& (first == SendOutcome::Delivered ==> flow.1 == true && count_action(
                flow.0,
                DeliveryAction::Attempt,
            ) == 1)
            &&& (first == SendOutcome::AuthRejected && !refresh_ok ==> flow.1 == false
                && count_action(flow.0, DeliveryAction::Attempt) == 1 && count_action(
                flow.0,
                DeliveryAction::Refresh,
            ) == 1)
        }),
{
    let att = DeliveryAction::Attempt;
    let rfr = DeliveryAction::Refresh;
    let s1 = seq![att];
    let s2 = seq![att, rfr];
    let s3 = seq![att, rfr, att];
    assert(s1.drop_first() =~= Seq::<DeliveryAction>::empty());
    assert(count_action(Seq::<DeliveryAction>::empty(), att) == 0);
    assert(count_action(Seq::<DeliveryAction>::empty(), rfr) == 0);
    assert(count_action(s1, att) == 1) by {
        assert(s1.first() == att);
        assert(count_action(s1.drop_first(), att) == 0);
    }
    assert(count_action(s1, rfr) == 0) by {
        assert(count_action(s1.drop_first(), rfr) == 0);
    }
    let r1 = seq![rfr];
    assert(s2.drop_first() =~= r1);
    assert(r1.drop_first() =~= Seq::<DeliveryAction>::empty());
    assert(count_action(r1, att) == 0);
    assert(count_action(r1, rfr) == 1);
    assert(count_action(s2, att) == 1);
    assert(count_action(s2, rfr) == 1);
    let r2 = seq![rfr, att];
    assert(s3.drop_first() =~= r2);
    assert(r2.drop_first() =~= s1);
    assert(count_action(r2, att) == 1);
    assert(count_action(r2, rfr) == 1);
    assert(count_action(s3, att) == 2);
    assert(count_action(s3, rfr) == 1);
}

} // verus!
