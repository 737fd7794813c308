//! The token issued at the end of a sign-in, and the requests made to the
//! token endpoint.

use vstd::prelude::*;
use crate::text::opt_str_view;

verus! {

/// The view of a token: access token, optional refresh token, optional
/// lifetime in seconds.
pub type TokenView = (Seq<char>, Option<Seq<char>>, Option<u64>);

/// A token issued by the authorization server.
#[derive(Debug, Clone)]
pub struct OAuthResult {
    pub access_token: String,
    pub refresh_token: Option<String>,
    pub expires_in: Option<u64>,
}

impl View for OAuthResult {
    type V = TokenView;

    open spec fn view(&self) -> TokenView {
        (self.access_token@, opt_str_view(self.refresh_token), self.expires_in)
    }
}

fn clone_opt_string(o: &Option<String>) -> (r: Option<String>)
    ensures
        opt_str_view(r) == opt_str_view(*o),
{
    match o {
        Some(s) => Some(s.clone()),
        None => None,
    }
}

impl OAuthResult {
    /// A copy of the token with the same contents.
    pub fn duplicate(&self) -> (r: OAuthResult)
        ensures
            r@ == self@,
    {
        OAuthResult {
            access_token: self.access_token.clone(),
            refresh_token: clone_opt_string(&self.refresh_token),
            expires_in: self.expires_in,
        }
    }
}

/// The token endpoint of the authorization server.
pub fn token_endpoint() -> (r: &'static str)
    ensures
        r@ == "https://auth.openai.com/api/oauth/token"@,
{
    "https://auth.openai.com/api/oauth/token"
}

/// The views of a list of form fields.
pub open spec fn fields_view(v: Seq<(String, String)>) -> Seq<(Seq<char>, Seq<char>)> {
    v.map_values(|p: (String, String)| (p.0@, p.1@))
}

fn field(name: &str, value: &str) -> (r: (String, String))
    ensures
        r.0@ == name@,
        r.1@ == value@,
{
    (name.to_owned(), value.to_owned())
}

/// The form fields that trade an authorization code for a token.
pub fn exchange_form_params(code: &str, code_verifier: &str, redirect_uri: &str) -> (r: Vec<
    (String, String),
>)
    ensures
        fields_view(r@) == seq![
            ("grant_type"@, "authorization_code"@),
            ("code"@, code@),
            ("redirect_uri"@, redirect_uri@),
            ("client_id"@, "openai"@),
            ("code_verifier"@, code_verifier@),
        ],
{
    let mut r: Vec<(String, String)> = Vec::new();
    r.push(field("grant_type", "authorization_code"));
    r.push(field("code", code));
    r.push(field("redirect_uri", redirect_uri));
    r.push(field("client_id", "openai"));
    r.push(field("code_verifier", code_verifier));
    assert(fields_view(r@) =~= seq![
        ("grant_type"@, "authorization_code"@),
        ("code"@, code@),
        ("redirect_uri"@, redirect_uri@),
        ("client_id"@, "openai"@),
        ("code_verifier"@, code_verifier@),
    ]);
    r
}

/// The form fields that trade a refresh token for a new token.
pub fn refresh_form_params(refresh_token: &str) -> (r: Vec<(String, String)>)
    ensures
        fields_view(r@) == seq![
            ("grant_type"@, "refresh_token"@),
            ("refresh_token"@, refresh_token@),
            ("client_id"@, "openai"@),
        ],
{
    let mut r: Vec<(String, String)> = Vec::new();
    r.push(field("grant_type", "refresh_token"));
    r.push(field("refresh_token", refresh_token));
    r.push(field("client_id", "openai"));
    assert(fields_view(r@) =~= seq![
        ("grant_type"@, "refresh_token"@),
        ("refresh_token"@, refresh_token@),
        ("client_id"@, "openai"@),
    ]);
    r
}

/// Which request was sent to the token endpoint.
#[derive(Clone, Copy, Debug, PartialEq, Eq, Structural)]
pub enum TokenRequestKind {
    /// Authorization code for token.
    Exchange,
    /// Refresh token for token.
    Refresh,
}

/// The start of the message when the endpoint rejects the request.
pub open spec fn failure_prefix(kind: TokenRequestKind) -> Seq<char> {
    match kind {
        TokenRequestKind::Exchange => "Token exchange failed ("@,
        TokenRequestKind::Refresh => "Token refresh failed ("@,
    }
}

/// The endpoint's reply: its body when the status is a success, otherwise
/// an error naming the request, the status and the body.
pub fn check_token_reply(kind: TokenRequestKind, status_ok: bool, status_text: &str, body: String)
    -> (r: Result<String, String>)
    ensures
        status_ok ==> r == Ok::<String, String>(body),
        !status_ok ==> r is Err && r->Err_0@ == failure_prefix(kind) + status_text@ + "): "@ + body@,
{
    if status_ok {
        return Ok(body);
    }
    let mut msg = match kind {
        TokenRequestKind::Exchange => String::from_str("Token exchange failed ("),
        TokenRequestKind::Refresh => String::from_str("Token refresh failed ("),
    };
    msg.append(status_text);
    msg.append("): ");
    msg.append(body.as_str());
    Err(msg)
}

/// The refresh token to use, taken from the stored token: an error when no
/// token is stored, or when it carries no refresh token.
pub fn stored_refresh_token(stored: Option<OAuthResult>) -> (r: Result<String, String>)
    ensures
        match stored {
            None => r is Err && r->Err_0@ == "No OAuth token found"@,
            Some(t) => match t.refresh_token {
                None => r is Err && r->Err_0@ == "No refresh token available"@,
                Some(rt) => r is Ok && r->Ok_0@ == rt@,
            },
        },
{
    match stored {
        None => Err(String::from_str("No OAuth token found")),
        Some(t) => match t.refresh_token {
            None => Err(String::from_str("No refresh token available")),
            Some(rt) => Ok(rt),
        },
    }
}

/// The access token of a stored token, if one is stored.
pub fn stored_access_token(stored: Option<OAuthResult>) -> (r: Option<String>)
    ensures
        opt_str_view(r) == (match stored {
            Some(t) => Some(t.access_token@),
            None => None,
        }),
{
    match stored {
        Some(t) => Some(t.access_token),
        None => None,
    }
}

/// Name of the file, in the app's data directory, that keeps the token.
pub fn token_file_name() -> (r: &'static str)
    ensures
        r@ == "openai_oauth.json"@,
{
    "openai_oauth.json"
}

} // verus!
