use pluely_oauth::urlcode::{urlencoding, urlencoding_decode};

#[test]
fn urlencoding_keeps_unreserved_characters() {
    assert_eq!(urlencoding("AZaz09-._~"), "AZaz09-._~");
}

#[test]
fn urlencoding_escapes_reserved_characters_in_upper_case_hex() {
    assert_eq!(
        urlencoding("http://127.0.0.1:8080/callback"),
        "http%3A%2F%2F127.0.0.1%3A8080%2Fcallback"
    );
    assert_eq!(urlencoding("a b&c=d"), "a%20b%26c%3Dd");
}

#[test]
fn urlencoding_escapes_each_utf8_byte() {
    assert_eq!(urlencoding("\u{e9}"), "%C3%A9");
    assert_eq!(urlencoding("\u{2014}"), "%E2%80%94");
}

#[test]
fn urlencoding_of_empty_text_is_empty() {
    assert_eq!(urlencoding(""), "");
}

#[test]
fn decode_turns_escapes_into_bytes() {
    assert_eq!(urlencoding_decode("a%20b%26c%3dd"), "a b&c=d");
    assert_eq!(urlencoding_decode("abc"), "abc");
}

#[test]
fn decode_reads_escaped_bytes_as_latin1_characters() {
    assert_eq!(urlencoding_decode("%C3%A9"), "\u{c3}\u{a9}");
}

#[test]
fn decode_drops_escapes_that_spell_no_byte() {
    assert_eq!(urlencoding_decode("a%zzb"), "ab");
    assert_eq!(urlencoding_decode("x%"), "x");
    assert_eq!(urlencoding_decode("x%4"), "x\u{4}");
    assert_eq!(urlencoding_decode("%-1z"), "z");
}

#[test]
fn decode_accepts_a_plus_sign_before_one_digit() {
    assert_eq!(urlencoding_decode("%+41"), "\u{4}1");
    assert_eq!(urlencoding_decode("%+"), "");
}

#[test]
fn decode_keeps_plus_signs_outside_escapes() {
    assert_eq!(urlencoding_decode("a+b"), "a+b");
}

#[test]
fn decode_of_encode_gives_ascii_text_back() {
    let s = "state with spaces & symbols = ?/#";
    assert_eq!(urlencoding_decode(&urlencoding(s)), s);
}

#[test]
fn encoding_has_no_space_ampersand_or_equals() {
    let e = urlencoding(" &=\u{e9}?");
    assert_eq!(e, "%20%26%3D%C3%A9%3F");
    assert!(!e.contains(' ') && !e.contains('&') && !e.contains('='));
}

#[test]
fn decode_of_encode_gives_latin1_bytes_for_non_ascii() {
    assert_eq!(urlencoding_decode(&urlencoding("caf\u{e9}")), "caf\u{c3}\u{a9}");
}
