use pluely_oauth::token::{
    check_token_reply, exchange_form_params, refresh_form_params, stored_access_token,
    stored_refresh_token, token_endpoint, OAuthResult, TokenRequestKind,
};

fn pair(a: &str, b: &str) -> (String, String) {
    (a.to_string(), b.to_string())
}

#[test]
fn exchange_fields() {
    assert_eq!(
        exchange_form_params("c0de", "v3r", "http://127.0.0.1:1/callback"),
        vec![
            pair("grant_type", "authorization_code"),
            pair("code", "c0de"),
            pair("redirect_uri", "http://127.0.0.1:1/callback"),
            pair("client_id", "openai"),
            pair("code_verifier", "v3r"),
        ]
    );
}

#[test]
fn refresh_fields() {
    assert_eq!(
        refresh_form_params("rt"),
        vec![pair("grant_type", "refresh_token"), pair("refresh_token", "rt"), pair("client_id", "openai")]
    );
}

#[test]
fn endpoint() {
    assert_eq!(token_endpoint(), "https://auth.openai.com/api/oauth/token");
}

#[test]
fn successful_reply_passes_body() {
    assert_eq!(
        check_token_reply(TokenRequestKind::Exchange, true, "200 OK", "{}".to_string()),
        Ok("{}".to_string())
    );
}

#[test]
fn failed_replies_name_request_status_and_body() {
    assert_eq!(
        check_token_reply(TokenRequestKind::Exchange, false, "400 Bad Request", "nope".to_string()),
        Err("Token exchange failed (400 Bad Request): nope".to_string())
    );
    assert_eq!(
        check_token_reply(TokenRequestKind::Refresh, false, "401 Unauthorized", "x".to_string()),
        Err("Token refresh failed (401 Unauthorized): x".to_string())
    );
}

#[test]
fn refresh_token_from_storage() {
    assert_eq!(stored_refresh_token(None), Err("No OAuth token found".to_string()));
    let no_refresh = OAuthResult { access_token: "a".to_string(), refresh_token: None, expires_in: None };
    assert_eq!(stored_refresh_token(Some(no_refresh)), Err("No refresh token available".to_string()));
    let with_refresh =
        OAuthResult { access_token: "a".to_string(), refresh_token: Some("r".to_string()), expires_in: Some(1) };
    assert_eq!(stored_refresh_token(Some(with_refresh)), Ok("r".to_string()));
}

#[test]
fn access_token_from_storage() {
    assert_eq!(stored_access_token(None), None);
    let t = OAuthResult { access_token: "a".to_string(), refresh_token: None, expires_in: None };
    assert_eq!(stored_access_token(Some(t)), Some("a".to_string()));
}

#[test]
fn duplicate_copies_every_field() {
    let t = OAuthResult { access_token: "a".to_string(), refresh_token: Some("r".to_string()), expires_in: Some(9) };
    let d = t.duplicate();
    assert_eq!(d.access_token, "a");
    assert_eq!(d.refresh_token, Some("r".to_string()));
    assert_eq!(d.expires_in, Some(9));
}
