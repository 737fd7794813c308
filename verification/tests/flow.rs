use pluely_oauth::flow::{OAuthFlowState, PollOutcome, OAUTH_TIMEOUT_NS};
use pluely_oauth::token::OAuthResult;

fn token(access: &str) -> OAuthResult {
    OAuthResult {
        access_token: access.to_string(),
        refresh_token: Some("r".to_string()),
        expires_in: Some(3600),
    }
}

fn s(x: &str) -> String {
    x.to_string()
}

#[test]
fn new_table_is_empty_and_default_is_too() {
    assert_eq!(OAuthFlowState::new().len(), 0);
    assert_eq!(OAuthFlowState::default().len(), 0);
}

#[test]
fn unknown_flow_is_not_found() {
    let mut flows = OAuthFlowState::new();
    assert!(matches!(flows.poll(&s("nope"), 0), PollOutcome::NotFound));
}

#[test]
fn begun_flow_is_pending_until_timeout() {
    let mut flows = OAuthFlowState::new();
    flows.begin(s("st"), s("ver"), 1_000);
    assert!(matches!(flows.poll(&s("st"), 1_000 + OAUTH_TIMEOUT_NS), PollOutcome::Pending));
    assert_eq!(flows.len(), 1);
    assert!(matches!(flows.poll(&s("st"), 1_001 + OAUTH_TIMEOUT_NS), PollOutcome::TimedOut));
    assert_eq!(flows.len(), 0);
    assert!(matches!(flows.poll(&s("st"), 1_001 + OAUTH_TIMEOUT_NS), PollOutcome::NotFound));
}

#[test]
fn clock_before_start_counts_as_no_time() {
    let mut flows = OAuthFlowState::new();
    flows.begin(s("st"), s("ver"), 5_000);
    assert!(matches!(flows.poll(&s("st"), 0), PollOutcome::Pending));
}

#[test]
fn recorded_token_is_handed_over_once() {
    let mut flows = OAuthFlowState::new();
    flows.begin(s("st"), s("ver"), 0);
    flows.record_result(&s("st"), token("tok"));
    match flows.poll(&s("st"), u64::MAX) {
        PollOutcome::Completed(t) => {
            assert_eq!(t.access_token, "tok");
            assert_eq!(t.refresh_token.as_deref(), Some("r"));
            assert_eq!(t.expires_in, Some(3600));
        }
        _ => panic!("expected a completed flow"),
    }
    assert!(matches!(flows.poll(&s("st"), 0), PollOutcome::NotFound));
}

#[test]
fn recording_for_unknown_flow_changes_nothing() {
    let mut flows = OAuthFlowState::new();
    flows.begin(s("a"), s("va"), 0);
    flows.record_result(&s("b"), token("tok"));
    assert_eq!(flows.len(), 1);
    assert!(matches!(flows.poll(&s("a"), 0), PollOutcome::Pending));
}

#[test]
fn cancel_forgets_only_that_flow() {
    let mut flows = OAuthFlowState::new();
    flows.begin(s("a"), s("va"), 0);
    flows.begin(s("b"), s("vb"), 0);
    flows.cancel(&s("a"));
    flows.cancel(&s("zzz"));
    assert_eq!(flows.len(), 1);
    assert!(matches!(flows.poll(&s("a"), 0), PollOutcome::NotFound));
    assert_eq!(flows.code_verifier(&s("b")), "vb");
}

#[test]
fn code_verifier_of_flow_or_empty() {
    let mut flows = OAuthFlowState::new();
    flows.begin(s("a"), s("va"), 0);
    assert_eq!(flows.code_verifier(&s("a")), "va");
    assert_eq!(flows.code_verifier(&s("b")), "");
}

#[test]
fn beginning_same_state_replaces_flow() {
    let mut flows = OAuthFlowState::new();
    flows.begin(s("a"), s("v1"), 0);
    flows.record_result(&s("a"), token("old"));
    flows.begin(s("a"), s("v2"), 10);
    assert_eq!(flows.len(), 1);
    assert_eq!(flows.code_verifier(&s("a")), "v2");
    assert!(matches!(flows.poll(&s("a"), 10), PollOutcome::Pending));
}

#[test]
fn replies_for_each_outcome() {
    match PollOutcome::Completed(token("t")).into_reply() {
        Some(Ok(Some(t))) => assert_eq!(t.access_token, "t"),
        _ => panic!("expected the token"),
    }
    assert!(matches!(PollOutcome::Pending.into_reply(), Some(Ok(None))));
    match PollOutcome::TimedOut.into_reply() {
        Some(Err(e)) => assert_eq!(e, "OAuth flow timed out"),
        _ => panic!("expected the time-out error"),
    }
    assert!(PollOutcome::NotFound.into_reply().is_none());
}

#[test]
fn verifier_survives_recording_the_token() {
    let mut flows = OAuthFlowState::new();
    flows.begin(s("st"), s("ver"), 0);
    flows.record_result(&s("st"), token("tok"));
    assert_eq!(flows.code_verifier(&s("st")), "ver");
}

#[test]
fn timed_out_flow_stays_timed_out_later() {
    let mut a = OAuthFlowState::new();
    a.begin(s("st"), s("v"), 0);
    assert!(matches!(a.poll(&s("st"), OAUTH_TIMEOUT_NS + 1), PollOutcome::TimedOut));
    let mut b = OAuthFlowState::new();
    b.begin(s("st"), s("v"), 0);
    assert!(matches!(b.poll(&s("st"), u64::MAX), PollOutcome::TimedOut));
}

#[test]
fn completed_flow_is_handed_over_even_after_timeout() {
    let mut flows = OAuthFlowState::new();
    flows.begin(s("st"), s("v"), 0);
    flows.record_result(&s("st"), token("late"));
    assert!(matches!(flows.poll(&s("st"), u64::MAX), PollOutcome::Completed(_)));
}
