use pluely_oauth::flow::{OAuthFlowState, PollOutcome};
use pluely_oauth::pkce::pkce_challenge;
use pluely_oauth::signin::{
    callback_action, conclude_callback, prepare_authorization, start_authorization, CallbackAction,
    CallbackEnd,
};
use pluely_oauth::token::OAuthResult;

#[test]
fn prepare_registers_flow_and_builds_url() {
    let mut flows = OAuthFlowState::new();
    let start = prepare_authorization(
        &mut flows,
        "dBjftJeZ4CVP-mB92K27uhbUJU1p1r_wW1gFWFOEjXk".to_string(),
        "state1".to_string(),
        4321,
        7,
    );
    assert_eq!(start.state, "state1");
    assert_eq!(start.redirect_uri, "http://127.0.0.1:4321/callback");
    assert_eq!(
        start.auth_url,
        "https://auth.openai.com/authorize?response_type=code&client_id=openai&redirect_uri=http%3A%2F%2F127.0.0.1%3A4321%2Fcallback&state=state1&code_challenge=E9Melhoa2OwvFrEMTJguCHaoeK1t8URWbuGJSstw-cM&code_challenge_method=S256"
    );
    assert_eq!(
        flows.code_verifier(&"state1".to_string()),
        "dBjftJeZ4CVP-mB92K27uhbUJU1p1r_wW1gFWFOEjXk"
    );
    assert!(matches!(flows.poll(&"state1".to_string(), 7), PollOutcome::Pending));
}

#[test]
fn start_draws_state_and_verifier() {
    let mut flows = OAuthFlowState::new();
    let start = start_authorization(&mut flows, 9000, 0);
    assert_eq!(start.state.len(), 43);
    assert_eq!(start.redirect_uri, "http://127.0.0.1:9000/callback");
    let verifier = flows.code_verifier(&start.state);
    assert_eq!(verifier.len(), 86);
    let expected = format!(
        "https://auth.openai.com/authorize?response_type=code&client_id=openai&redirect_uri=http%3A%2F%2F127.0.0.1%3A9000%2Fcallback&state={}&code_challenge={}&code_challenge_method=S256",
        start.state,
        pkce_challenge(&verifier)
    );
    assert_eq!(start.auth_url, expected);
}

#[test]
fn matching_state_leads_to_exchange() {
    let req = "GET /callback?code=the%20code&state=abc HTTP/1.1\r\n\r\n";
    match callback_action(req, &"abc".to_string()) {
        CallbackAction::Exchange(code) => assert_eq!(code, "the code"),
        other => panic!("unexpected {:?}", other),
    }
}

#[test]
fn other_state_is_a_mismatch() {
    let req = "GET /callback?code=c&state=evil HTTP/1.1\r\n\r\n";
    match callback_action(req, &"abc".to_string()) {
        CallbackAction::StateMismatch(s) => assert_eq!(s, "evil"),
        other => panic!("unexpected {:?}", other),
    }
}

#[test]
fn missing_code_or_state_abandons() {
    assert!(matches!(
        callback_action("GET /callback?state=abc HTTP/1.1", &"abc".to_string()),
        CallbackAction::Abandon
    ));
    assert!(matches!(
        callback_action("GET /callback?code=c HTTP/1.1", &"abc".to_string()),
        CallbackAction::Abandon
    ));
    assert!(matches!(callback_action("garbage", &"abc".to_string()), CallbackAction::Abandon));
}

#[test]
fn own_state_round_trips_through_the_redirect() {
    let mut flows = OAuthFlowState::new();
    let start = start_authorization(&mut flows, 1, 0);
    let req = format!("GET /callback?code=xyz&state={} HTTP/1.1\r\n\r\n", start.state);
    assert!(matches!(callback_action(&req, &start.state), CallbackAction::Exchange(_)));
}

#[test]
fn concluding_a_callback() {
    let st = "st".to_string();
    let mut flows = OAuthFlowState::new();
    flows.begin(st.clone(), "v".to_string(), 0);
    conclude_callback(&mut flows, &st, CallbackEnd::ExchangeFailed);
    assert!(matches!(flows.poll(&st, 0), PollOutcome::Pending));
    let t = OAuthResult { access_token: "a".to_string(), refresh_token: None, expires_in: None };
    conclude_callback(&mut flows, &st, CallbackEnd::TokenObtained(t));
    match flows.poll(&st, 0) {
        PollOutcome::Completed(t) => assert_eq!(t.access_token, "a"),
        _ => panic!("expected the token"),
    }
    flows.begin(st.clone(), "v".to_string(), 0);
    conclude_callback(&mut flows, &st, CallbackEnd::NoValidRedirect);
    assert!(matches!(flows.poll(&st, 0), PollOutcome::NotFound));
}

#[test]
fn started_verifier_is_url_safe_and_url_carries_state_and_challenge_unescaped() {
    let mut flows = OAuthFlowState::new();
    let start = start_authorization(&mut flows, 2, 0);
    let verifier = flows.code_verifier(&start.state);
    assert!(verifier.chars().all(|c| c.is_ascii_alphanumeric() || c == '-' || c == '_'));
    assert!(start.auth_url.contains(&format!("&state={}&", start.state)));
    assert!(start.auth_url.contains(&format!("&code_challenge={}&", pkce_challenge(&verifier))));
}

#[test]
fn listener_outcomes() {
    // Own state: the code is traded with the flow's verifier, and the token reaches the poller.
    let mut flows = OAuthFlowState::new();
    let start = start_authorization(&mut flows, 3, 0);
    let req = format!("GET /callback?code=k&state={} HTTP/1.1\r\n", start.state);
    match callback_action(&req, &start.state) {
        CallbackAction::Exchange(code) => assert_eq!(code, "k"),
        other => panic!("unexpected {:?}", other),
    }
    assert_eq!(flows.code_verifier(&start.state).len(), 86);
    let t = OAuthResult { access_token: "tok".to_string(), refresh_token: None, expires_in: None };
    conclude_callback(&mut flows, &start.state, CallbackEnd::TokenObtained(t));
    assert!(matches!(flows.poll(&start.state, 0), PollOutcome::Completed(_)));
    // Other state: no trade, and the flow is forgotten.
    let start = start_authorization(&mut flows, 3, 0);
    let req = "GET /callback?code=k&state=other HTTP/1.1\r\n";
    assert!(matches!(callback_action(req, &start.state), CallbackAction::StateMismatch(_)));
    conclude_callback(&mut flows, &start.state, CallbackEnd::NoValidRedirect);
    assert!(matches!(flows.poll(&start.state, 0), PollOutcome::NotFound));
}
