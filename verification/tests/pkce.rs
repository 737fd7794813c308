use pluely_oauth::pkce::{authorization_url, pkce_challenge, random_string, redirect_uri_for_port};

fn is_base64url(c: char) -> bool {
    c.is_ascii_alphanumeric() || c == '-' || c == '_'
}

#[test]
fn challenge_matches_rfc7636_example() {
    assert_eq!(
        pkce_challenge("dBjftJeZ4CVP-mB92K27uhbUJU1p1r_wW1gFWFOEjXk"),
        "E9Melhoa2OwvFrEMTJguCHaoeK1t8URWbuGJSstw-cM"
    );
}

#[test]
fn challenge_of_empty_verifier() {
    assert_eq!(pkce_challenge(""), "47DEQpj8HBSa-_TImW-5JCeuQeRkm5NMpJWZG3hSuFU");
}

#[test]
fn random_strings_have_fixed_length_and_alphabet() {
    let v = random_string(64);
    assert_eq!(v.len(), 86);
    assert!(v.chars().all(is_base64url));
    let s = random_string(32);
    assert_eq!(s.len(), 43);
    assert!(s.chars().all(is_base64url));
    assert_eq!(random_string(0), "");
    assert_eq!(random_string(1).len(), 2);
    assert_eq!(random_string(2).len(), 3);
}

#[test]
fn random_strings_differ() {
    assert_ne!(random_string(32), random_string(32));
}

#[test]
fn redirect_uri_names_port() {
    assert_eq!(redirect_uri_for_port(8080), "http://127.0.0.1:8080/callback");
    assert_eq!(redirect_uri_for_port(0), "http://127.0.0.1:0/callback");
    assert_eq!(redirect_uri_for_port(65535), "http://127.0.0.1:65535/callback");
}

#[test]
fn authorization_url_encodes_parameters() {
    let url = authorization_url("http://127.0.0.1:5/callback", "st-_", "ch a");
    assert_eq!(
        url,
        "https://auth.openai.com/authorize?response_type=code&client_id=openai&redirect_uri=http%3A%2F%2F127.0.0.1%3A5%2Fcallback&state=st-_&code_challenge=ch%20a&code_challenge_method=S256"
    );
}
