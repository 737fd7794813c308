//! The steps of a sign-in that decide something: starting a flow, and
//! reacting to the browser's redirect.

use vstd::prelude::*;
use vstd::utf8::encode_utf8;
use crate::callback::{parse_callback_request, spec_parse_callback};
use crate::flow::{spec_poll, spec_record, spec_verifier, FlowView, OAuthFlowState, PollView};
use crate::token::TokenView;
use crate::token::OAuthResult;
use crate::pkce::{
    authorization_url, base64_url_nopad, is_base64url_char, pkce_challenge,
    random_string, redirect_uri_for_port, sha256, STATE_BYTES, VERIFIER_BYTES,
};
use crate::text::decimal;
use crate::urlcode::spec_urlencoding;

verus! {

/// What the start of a sign-in hands back: the URL to open in the
/// browser, the flow's state and the loopback redirect URI.
#[derive(Debug)]
pub struct AuthorizationStart {
    pub auth_url: String,
    pub state: String,
    pub redirect_uri: String,
}

/// The authorization URL for a redirect URI, state and PKCE verifier.
pub open spec fn spec_authorization_url(redirect_uri: Seq<char>, state: Seq<char>, verifier: Seq<char>) -> Seq<char> {
    "https://auth.openai.com/authorize"@ + "?response_type=code&client_id=openai&redirect_uri="@
        + spec_urlencoding(redirect_uri) + "&state="@ + spec_urlencoding(state)
        + "&code_challenge="@ + spec_urlencoding(base64_url_nopad(sha256(encode_utf8(verifier))))
        + "&code_challenge_method=S256"@
}

/// The loopback redirect URI for a port.
pub open spec fn spec_redirect_uri(port: u16) -> Seq<char> {
    "http://127.0.0.1:"@ + decimal(port as nat) + "/callback"@
}

/// Starts a sign-in with the given verifier and state for a listener on
/// `port`: registers the flow (no token yet, started at `now_ns`) and
/// builds the redirect URI and the authorization URL.
pub fn prepare_authorization(
    flows: &mut OAuthFlowState,
    code_verifier: String,
    state: String,
    port: u16,
    now_ns: u64,
) -> (r: AuthorizationStart)
    ensures
        final(flows)@ == old(flows)@.insert(state@, (code_verifier@, now_ns, None)),
        r.state@ == state@,
        r.redirect_uri@ == spec_redirect_uri(port),
        r.auth_url@ == spec_authorization_url(r.redirect_uri@, state@, code_verifier@),
        forall|i: int|
            0 <= i < base64_url_nopad(sha256(encode_utf8(code_verifier@))).len()
                ==> is_base64url_char(
                #[trigger] base64_url_nopad(sha256(encode_utf8(code_verifier@)))[i],
            ),
{
    let code_challenge = pkce_challenge(code_verifier.as_str());
    let redirect_uri = redirect_uri_for_port(port);
    let auth_url = authorization_url(redirect_uri.as_str(), state.as_str(), code_challenge.as_str());
    let returned_state = state.clone();
    flows.begin(state, code_verifier, now_ns);
    AuthorizationStart { auth_url, state: returned_state, redirect_uri }
}

/// The authorization URL with the state and the challenge written as they
/// are (both URL-safe base64, which percent-encoding leaves unchanged).
pub open spec fn spec_plain_authorization_url(redirect_uri: Seq<char>, state: Seq<char>, verifier: Seq<char>) -> Seq<char> {
    "https://auth.openai.com/authorize"@ + "?response_type=code&client_id=openai&redirect_uri="@
        + spec_urlencoding(redirect_uri) + "&state="@ + state + "&code_challenge="@
        + base64_url_nopad(sha256(encode_utf8(verifier))) + "&code_challenge_method=S256"@
}

/// Starts a sign-in: draws 64 random bytes for the verifier and 32 for the
/// state, base64url-encodes both, and does what `prepare_authorization`
/// does with them. Whatever was drawn, the state and the stored verifier
/// are the encodings of bytes of those lengths, 43 and 86 URL-safe
/// characters, and both go into the URL unescaped.
pub fn start_authorization(flows: &mut OAuthFlowState, port: u16, now_ns: u64) -> (r: AuthorizationStart)
    ensures
        exists|verifier_bytes: Seq<u8>, state_bytes: Seq<u8>|
            {
                &&& verifier_bytes.len() == VERIFIER_BYTES
                &&& state_bytes.len() == STATE_BYTES
                &&& r.state@ == base64_url_nopad(state_bytes)
                &&& final(flows)@ == old(flows)@.insert(
                    r.state@,
                    (base64_url_nopad(verifier_bytes), now_ns, None),
                )
                &&& r.auth_url@ == spec_authorization_url(
                    r.redirect_uri@,
                    r.state@,
                    base64_url_nopad(verifier_bytes),
                )
            },
        r.state@.len() == 43,
        forall|i: int| 0 <= i < r.state@.len() ==> is_base64url_char(#[trigger] r.state@[i]),
        spec_verifier(final(flows)@, r.state@).len() == 86,
        forall|i: int|
            0 <= i < spec_verifier(final(flows)@, r.state@).len() ==> is_base64url_char(
                #[trigger] spec_verifier(final(flows)@, r.state@)[i],
            ),
        r.auth_url@ == spec_plain_authorization_url(
            r.redirect_uri@,
            r.state@,
            spec_verifier(final(flows)@, r.state@),
        ),
        r.redirect_uri@ == spec_redirect_uri(port),
{
    let code_verifier = random_string(VERIFIER_BYTES);
    let state = random_string(STATE_BYTES);
    let ghost v = code_verifier@;
    let ghost st = state@;
    let r = prepare_authorization(flows, code_verifier, state, port, now_ns);
    proof {
        assert(spec_verifier(flows@, st) == v);
        law_state_sent_verbatim(st);
        law_state_sent_verbatim(base64_url_nopad(sha256(encode_utf8(v))));
        assert(r.auth_url@ =~= spec_plain_authorization_url(r.redirect_uri@, st, v));
    }
    r
}

/// What to do with the browser's request on the loopback listener.
#[derive(Debug)]
pub enum CallbackAction {
    /// The request carries a code and the expected state: trade the code.
    Exchange(String),
    /// The request carries a code and some other state (shown here).
    StateMismatch(String),
    /// The request lacks the code or the state.
    Abandon,
}

/// Whether `r` is the decision on the loopback request `request` for the
/// flow `expected`: trade the code when the request carries a code and the
/// flow's own state, report a mismatch when it carries another state, and
/// abandon the flow when the code or the state is missing.
pub open spec fn callback_decision(request: Seq<char>, expected: Seq<char>, r: CallbackAction) -> bool {
    match spec_parse_callback(request) {
        (Some(code), Some(state)) => if state == expected {
            r matches CallbackAction::Exchange(c) && c@ == code
        } else {
            r matches CallbackAction::StateMismatch(s) && s@ == state
        },
        _ => r is Abandon,
    }
}

/// The decision taken on the loopback request for the flow `expected_state`.
pub fn callback_action(request: &str, expected_state: &String) -> (r: CallbackAction)
    ensures
        callback_decision(request@, expected_state@, r),
{
    let (code, state) = parse_callback_request(request);
    match (code, state) {
        (Some(code), Some(state)) => {
            if state == *expected_state {
                CallbackAction::Exchange(code)
            } else {
                CallbackAction::StateMismatch(state)
            }
        },
        _ => CallbackAction::Abandon,
    }
}

/// How the loopback listener's work on a flow ended.
#[derive(Debug)]
pub enum CallbackEnd {
    /// The code was traded for this token.
    TokenObtained(OAuthResult),
    /// The redirect was valid but trading the code failed.
    ExchangeFailed,
    /// No request came, or it lacked the code or the expected state.
    NoValidRedirect,
}

/// The flow table after the listener's work on the flow `state` ended with `end`.
pub open spec fn spec_conclude(m: Map<Seq<char>, FlowView>, state: Seq<char>, end: CallbackEnd) -> Map<
    Seq<char>,
    FlowView,
> {
    match end {
        CallbackEnd::TokenObtained(t) => spec_record(m, state, t@),
        CallbackEnd::ExchangeFailed => m,
        CallbackEnd::NoValidRedirect => m.remove(state),
    }
}

/// Updates the flow table when the listener is done: a token is stored for
/// the flow; a failed exchange leaves the flow to time out; without a valid
/// redirect the flow is forgotten.
pub fn conclude_callback(flows: &mut OAuthFlowState, state: &String, end: CallbackEnd)
    ensures
        final(flows)@ == spec_conclude(old(flows)@, state@, end),
{
    match end {
        CallbackEnd::TokenObtained(t) => flows.record_result(state, t),
        CallbackEnd::ExchangeFailed => {},
        CallbackEnd::NoValidRedirect => flows.cancel(state),
    }
}

proof fn lemma_base64url_is_unreserved(state: Seq<char>)
    requires
        forall|i: int| 0 <= i < state.len() ==> is_base64url_char(#[trigger] state[i]),
    ensures
        forall|i: int| 0 <= i < state.len() ==> crate::urlcode::is_unreserved_char(#[trigger] state[i]),
        vstd::utf8::is_ascii_chars(state),
{
    assert forall|i: int| 0 <= i < state.len() implies '\0' <= #[trigger] state[i] <= '\u{7f}' by {
        assert(is_base64url_char(state[i]));
    }
}

/// A state drawn by `start_authorization` (URL-safe base64) goes into the
/// authorization URL exactly as it is.
pub proof fn law_state_sent_verbatim(state: Seq<char>)
    requires
        forall|i: int| 0 <= i < state.len() ==> is_base64url_char(#[trigger] state[i]),
    ensures
        spec_urlencoding(state) == state,
{
    lemma_base64url_is_unreserved(state);
    crate::urlcode::law_urlencoding_keeps_unreserved(state);
}

/// When the browser comes back with an ASCII code and the flow's own state
/// (URL-safe base64), the redirect is read back to exactly that code and
/// state, so `callback_action` decides to trade the code.
pub proof fn law_own_redirect_is_exchanged(code: Seq<char>, state: Seq<char>, tail: Seq<char>)
    requires
        vstd::utf8::is_ascii_chars(code),
        forall|i: int| 0 <= i < state.len() ==> is_base64url_char(#[trigger] state[i]),
    ensures
        spec_parse_callback(crate::callback::redirect_request(code, state, tail)) == (
            Some(code),
            Some(state),
        ),
{
    lemma_base64url_is_unreserved(state);
    crate::callback::law_parse_of_redirect_ascii(code, state, tail);
}

/// The listener's work on a flow begun with `verifier`: the code is traded
/// exactly when the redirect carries a code and the flow's own state, and
/// then with that code and the flow's verifier; a token obtained is what
/// the next poll hands over, a failed trade leaves the flow to time out,
/// and without such a redirect the flow is forgotten. (`end` is how the
/// listener ended: after a trade, with its token or its failure; otherwise
/// without a valid redirect.)
pub proof fn law_listener_outcome(
    m: Map<Seq<char>, FlowView>,
    state: Seq<char>,
    verifier: Seq<char>,
    started: u64,
    request: Seq<char>,
    action: CallbackAction,
    end: CallbackEnd,
    now: u64,
)
    requires
        m.contains_key(state),
        m[state] == (verifier, started, None::<TokenView>),
        callback_decision(request, state, action),
        action is Exchange ==> (end is TokenObtained || end is ExchangeFailed),
        !(action is Exchange) ==> end is NoValidRedirect,
    ensures
        (action is Exchange) <==> (spec_parse_callback(request).0 is Some
            && spec_parse_callback(request).1 == Some(state)),
        action matches CallbackAction::Exchange(c) ==> spec_parse_callback(request).0 == Some(c@)
            && spec_verifier(m, state) == verifier,
        !(action is Exchange) ==> spec_conclude(m, state, end) == m.remove(state)
            && !spec_conclude(m, state, end).contains_key(state),
        end matches CallbackEnd::TokenObtained(t) ==> spec_poll(spec_conclude(m, state, end), state, now)
            == (PollView::Completed(t@), m.remove(state)),
        end is ExchangeFailed ==> spec_conclude(m, state, end) == m,
{
    if let CallbackEnd::TokenObtained(t) = end {
        crate::flow::law_poll_returns_recorded(m, state, t@, now);
    }
}

} // verus!
