//! Percent-encoding of query components and its (lenient) inverse.

use vstd::prelude::*;
use vstd::utf8::encode_utf8;
use crate::text::push_char;

verus! {

/// Bytes that are copied unchanged: RFC 3986 "unreserved" characters.
pub open spec fn is_unreserved(b: u8) -> bool {
    ||| 65 <= b <= 90
    ||| 97 <= b <= 122
    ||| 48 <= b <= 57
    ||| b == 45 || b == 46 || b == 95 || b == 126
}

/// Upper-case hexadecimal digit for a value below 16.
pub open spec fn hex_upper(n: u8) -> char {
    if n < 10 { (48 + n) as char } else { (55 + n) as char }
}

/// What one byte becomes: itself, or `%` and two upper-case hex digits.
pub open spec fn encode_byte(b: u8) -> Seq<char> {
    if is_unreserved(b) {
        seq![b as char]
    } else {
        seq!['%', hex_upper(b / 16), hex_upper(b % 16)]
    }
}

/// Percent-encoding of a byte sequence, byte by byte.
pub open spec fn percent_encode_bytes(bs: Seq<u8>) -> Seq<char>
    decreases bs.len(),
{
    if bs.len() == 0 {
        seq![]
    } else {
        percent_encode_bytes(bs.drop_last()) + encode_byte(bs.last())
    }
}

/// Percent-encoding of a string: each byte of its UTF-8 form encoded in turn.
pub open spec fn spec_urlencoding(s: Seq<char>) -> Seq<char> {
    percent_encode_bytes(encode_utf8(s))
}

fn hex_upper_exec(n: u8) -> (c: char)
    requires
        n < 16,
    ensures
        c == hex_upper(n),
{
    if n < 10 { (48 + n) as char } else { (55 + n) as char }
}

/// Percent-encodes every byte of `s` that is not an unreserved character.
pub fn urlencoding(s: &str) -> (res: String)
    ensures
        res@ == spec_urlencoding(s@),
{
    let bytes = s.as_bytes();
    let mut result = String::new();
    let mut i: usize = 0;
    while i < bytes.len()
        invariant
            bytes@ == encode_utf8(s@),
            i <= bytes@.len(),
            result@ == percent_encode_bytes(bytes@.subrange(0, i as int)),
        decreases bytes@.len() - i,
    {
        let byte = bytes[i];
        let ghost before = result@;
        if (65 <= byte && byte <= 90) || (97 <= byte && byte <= 122) || (48 <= byte && byte <= 57)
            || byte == 45 || byte == 46 || byte == 95 || byte == 126 {
            push_char(&mut result, byte as char);
        } else {
            push_char(&mut result, '%');
            push_char(&mut result, hex_upper_exec(byte / 16));
            push_char(&mut result, hex_upper_exec(byte % 16));
        }
        proof {
            assert(bytes@.subrange(0, i + 1).drop_last() =~= bytes@.subrange(0, i as int));
            assert(result@ =~= before + encode_byte(byte));
        }
        i = i + 1;
    }
    proof {
        assert(bytes@.subrange(0, bytes@.len() as int) =~= bytes@);
    }
    result
}

} // verus!

verus! {

/// Value of a hexadecimal digit (either case), if `c` is one.
pub open spec fn hex_digit_value(c: char) -> Option<u8> {
    if '0' <= c && c <= '9' {
        Some((c as u32 - 48) as u8)
    } else if 'a' <= c && c <= 'f' {
        Some((c as u32 - 87) as u8)
    } else if 'A' <= c && c <= 'F' {
        Some((c as u32 - 55) as u8)
    } else {
        None
    }
}

/// Value of one or two hexadecimal digits, most significant first.
pub open spec fn hex_digits_value(d: Seq<char>) -> Option<u8> {
    if d.len() == 1 {
        hex_digit_value(d[0])
    } else if d.len() == 2 {
        match (hex_digit_value(d[0]), hex_digit_value(d[1])) {
            (Some(hi), Some(lo)) => Some((hi * 16 + lo) as u8),
            _ => None,
        }
    } else {
        None
    }
}

/// The byte that `u8::from_str_radix(h, 16)` gives for a text of at most
/// two characters: an optional leading `+` and then one or two hex digits.
pub open spec fn parse_hex_byte(h: Seq<char>) -> Option<u8> {
    if h.len() == 0 {
        None
    } else if h[0] == '+' {
        hex_digits_value(h.drop_first())
    } else {
        hex_digits_value(h)
    }
}

/// Where an escape that starts at `i` (the `%`) ends: after at most two more characters.
pub open spec fn escape_end(len: int, i: int) -> int {
    if i + 3 <= len { i + 3 } else { len }
}

/// Lenient percent-decoding: `%` and the (at most two) characters after it
/// become the byte they spell, read as a Latin-1 character, and vanish when
/// they spell no byte; every other character is kept.
pub open spec fn spec_urlencoding_decode(s: Seq<char>) -> Seq<char>
    decreases s.len(),
{
    if s.len() == 0 {
        seq![]
    } else if s[0] == '%' {
        let end = escape_end(s.len() as int, 0);
        let decoded = match parse_hex_byte(s.subrange(1, end)) {
            Some(b) => seq![b as char],
            None => seq![],
        };
        decoded + spec_urlencoding_decode(s.subrange(end, s.len() as int))
    } else {
        seq![s[0]] + spec_urlencoding_decode(s.drop_first())
    }
}

fn hex_digit_value_exec(c: char) -> (r: Option<u8>)
    ensures
        r == hex_digit_value(c),
{
    if '0' <= c && c <= '9' {
        Some((c as u32 - 48) as u8)
    } else if 'a' <= c && c <= 'f' {
        Some((c as u32 - 87) as u8)
    } else if 'A' <= c && c <= 'F' {
        Some((c as u32 - 55) as u8)
    } else {
        None
    }
}

/// Parses the characters `chars[lo..hi]` (at most two) as `parse_hex_byte` says.
fn parse_hex_byte_exec(chars: &Vec<char>, lo: usize, hi: usize) -> (r: Option<u8>)
    requires
        lo <= hi <= chars@.len(),
        hi - lo <= 2,
    ensures
        r == parse_hex_byte(chars@.subrange(lo as int, hi as int)),
{
    let ghost h = chars@.subrange(lo as int, hi as int);
    if lo == hi {
        return None;
    }
    let mut start = lo;
    if chars[lo] == '+' {
        start = lo + 1;
    }
    proof {
        if chars@[lo as int] == '+' {
            assert(h.drop_first() =~= chars@.subrange(start as int, hi as int));
        }
    }
    let n = hi - start;
    if n == 1 {
        hex_digit_value_exec(chars[start])
    } else if n == 2 {
        match (hex_digit_value_exec(chars[start]), hex_digit_value_exec(chars[start + 1])) {
            (Some(hi_d), Some(lo_d)) => Some(hi_d * 16 + lo_d),
            _ => None,
        }
    } else {
        None
    }
}

/// Decodes the characters `chars[lo..hi]` as `spec_urlencoding_decode` describes.
pub fn decode_chars(chars: &Vec<char>, lo: usize, hi: usize) -> (res: String)
    requires
        lo <= hi <= chars@.len(),
    ensures
        res@ == spec_urlencoding_decode(chars@.subrange(lo as int, hi as int)),
{
    let n = hi;
    let ghost whole = chars@.subrange(lo as int, hi as int);
    let mut result = String::new();
    let mut i: usize = lo;
    proof {
        assert(result@ + spec_urlencoding_decode(whole) =~= spec_urlencoding_decode(whole));
    }
    while i < n
        invariant
            n <= chars@.len(),
            lo <= i <= n,
            whole == chars@.subrange(lo as int, n as int),
            spec_urlencoding_decode(whole) == result@ + spec_urlencoding_decode(
                chars@.subrange(i as int, n as int),
            ),
        decreases n - i,
    {
        let ghost rest = chars@.subrange(i as int, n as int);
        let c = chars[i];
        if c == '%' {
            let end = if n - i >= 3 { i + 3 } else { n };
            let parsed = parse_hex_byte_exec(chars, i + 1, end);
            proof {
                assert(rest.subrange(1, escape_end(rest.len() as int, 0))
                    =~= chars@.subrange(i + 1, end as int));
                assert(rest.subrange(escape_end(rest.len() as int, 0), rest.len() as int)
                    =~= chars@.subrange(end as int, n as int));
            }
            let ghost before = result@;
            match parsed {
                Some(b) => {
                    push_char(&mut result, b as char);
                    assert(result@ =~= before + seq![b as char]);
                },
                None => {
                    assert(before =~= before + Seq::<char>::empty());
                },
            }
            i = end;
        } else {
            let ghost before = result@;
            push_char(&mut result, c);
            proof {
                assert(rest.drop_first() =~= chars@.subrange(i + 1, n as int));
                assert(result@ =~= before + seq![c]);
            }
            i = i + 1;
        }
    }
    proof {
        assert(chars@.subrange(n as int, n as int) =~= Seq::<char>::empty());
        assert(result@ + Seq::<char>::empty() =~= result@);
    }
    result
}

/// Decodes `%XX` escapes as `spec_urlencoding_decode` describes.
pub fn urlencoding_decode(s: &str) -> (res: String)
    ensures
        res@ == spec_urlencoding_decode(s@),
{
    let chars = crate::text::chars_of(s);
    proof {
        assert(chars@.subrange(0, chars@.len() as int) =~= chars@);
    }
    decode_chars(&chars, 0, chars.len())
}

} // verus!

verus! {

/// Each byte read as the character with the same number (Latin-1).
pub open spec fn latin1(bs: Seq<u8>) -> Seq<char> {
    Seq::new(bs.len(), |i: int| bs[i] as char)
}

proof fn lemma_hex_upper_value(n: u8)
    requires
        n < 16,
    ensures
        hex_digit_value(hex_upper(n)) == Some(n),
        hex_upper(n) != '+',
        hex_upper(n) != '%',
{
}

proof fn lemma_decode_after_escape(b: u8, rest: Seq<char>)
    ensures
        spec_urlencoding_decode(encode_byte(b) + rest) == seq![b as char]
            + spec_urlencoding_decode(rest),
{
    let s = encode_byte(b) + rest;
    if is_unreserved(b) {
        assert(s[0] == b as char);
        assert(s[0] != '%');
        assert(s.drop_first() =~= rest);
    } else {
        lemma_hex_upper_value(b / 16);
        lemma_hex_upper_value(b % 16);
        assert(s[0] == '%');
        assert(escape_end(s.len() as int, 0) == 3);
        let h = s.subrange(1, 3);
        assert(h =~= seq![hex_upper(b / 16), hex_upper(b % 16)]);
        assert(hex_digits_value(h) == Some(b));
        assert(parse_hex_byte(h) == Some(b));
        assert(s.subrange(3, s.len() as int) =~= rest);
    }
}

proof fn lemma_encode_front(bs: Seq<u8>)
    requires
        bs.len() > 0,
    ensures
        percent_encode_bytes(bs) == encode_byte(bs[0]) + percent_encode_bytes(bs.drop_first()),
    decreases bs.len(),
{
    if bs.len() == 1 {
        assert(bs.drop_last() =~= Seq::<u8>::empty());
        assert(bs.drop_first() =~= Seq::<u8>::empty());
        assert(percent_encode_bytes(bs.drop_first()) =~= Seq::<char>::empty());
        assert(encode_byte(bs[0]) + Seq::<char>::empty() =~= encode_byte(bs[0]));
        assert(Seq::<char>::empty() + encode_byte(bs.last()) =~= encode_byte(bs[0]));
    } else {
        lemma_encode_front(bs.drop_last());
        assert(bs.drop_last().drop_first() =~= bs.drop_first().drop_last());
        assert(bs.drop_first().last() == bs.last());
        assert(bs.drop_last()[0] == bs[0]);
    }
}

proof fn lemma_decode_encode_bytes(bs: Seq<u8>)
    ensures
        spec_urlencoding_decode(percent_encode_bytes(bs)) == latin1(bs),
    decreases bs.len(),
{
    if bs.len() == 0 {
        assert(latin1(bs) =~= Seq::<char>::empty());
    } else {
        lemma_encode_front(bs);
        lemma_decode_after_escape(bs[0], percent_encode_bytes(bs.drop_first()));
        lemma_decode_encode_bytes(bs.drop_first());
        assert(latin1(bs) =~= seq![bs[0] as char] + latin1(bs.drop_first()));
    }
}

/// Decoding undoes encoding byte for byte: decoding the percent-encoding of
/// `s` gives the bytes of `s`'s UTF-8 form, each read as a Latin-1 character.
pub proof fn law_decode_of_encode(s: Seq<char>)
    ensures
        spec_urlencoding_decode(spec_urlencoding(s)) == latin1(encode_utf8(s)),
{
    lemma_decode_encode_bytes(encode_utf8(s));
}

/// For text made only of ASCII characters, decoding the percent-encoding
/// gives the text back unchanged.
pub proof fn law_decode_of_encode_ascii(s: Seq<char>)
    requires
        vstd::utf8::is_ascii_chars(s),
    ensures
        spec_urlencoding_decode(spec_urlencoding(s)) == s,
{
    law_decode_of_encode(s);
    vstd::utf8::is_ascii_chars_encode_utf8(s);
    let bs = encode_utf8(s);
    assert forall|i: int| 0 <= i < s.len() implies latin1(bs)[i] == s[i] by {
        assert(s[i] as u8 == bs[i]);
        assert('\0' <= s[i] <= '\u{7f}');
    }
    assert(latin1(bs) =~= s);
}

/// Characters that percent-encoding leaves alone: ASCII letters, digits, `-`, `.`, `_`, `~`.
pub open spec fn is_unreserved_char(c: char) -> bool {
    ||| 'A' <= c <= 'Z'
    ||| 'a' <= c <= 'z'
    ||| '0' <= c <= '9'
    ||| c == '-' || c == '.' || c == '_' || c == '~'
}

proof fn lemma_encode_unreserved_bytes(bs: Seq<u8>)
    requires
        forall|i: int| 0 <= i < bs.len() ==> is_unreserved(#[trigger] bs[i]),
    ensures
        percent_encode_bytes(bs) == latin1(bs),
    decreases bs.len(),
{
    if bs.len() == 0 {
        assert(latin1(bs) =~= Seq::<char>::empty());
    } else {
        lemma_encode_unreserved_bytes(bs.drop_last());
        assert(is_unreserved(bs[bs.len() - 1]));
        assert(latin1(bs) =~= latin1(bs.drop_last()) + seq![bs.last() as char]);
    }
}

/// Percent-encoding leaves text made only of unreserved characters unchanged.
pub proof fn law_urlencoding_keeps_unreserved(s: Seq<char>)
    requires
        forall|i: int| 0 <= i < s.len() ==> is_unreserved_char(#[trigger] s[i]),
    ensures
        spec_urlencoding(s) == s,
{
    assert(vstd::utf8::is_ascii_chars(s)) by {
        assert forall|i: int| 0 <= i < s.len() implies '\0' <= #[trigger] s[i] <= '\u{7f}' by {
            assert(is_unreserved_char(s[i]));
        }
    }
    vstd::utf8::is_ascii_chars_encode_utf8(s);
    let bs = encode_utf8(s);
    assert forall|i: int| 0 <= i < bs.len() implies is_unreserved(#[trigger] bs[i]) by {
        assert(s[i] as u8 == bs[i]);
        assert(is_unreserved_char(s[i]));
    }
    lemma_encode_unreserved_bytes(bs);
    assert forall|i: int| 0 <= i < s.len() implies latin1(bs)[i] == s[i] by {
        assert(s[i] as u8 == bs[i]);
        assert(is_unreserved_char(s[i]));
    }
    assert(latin1(bs) =~= s);
}

/// Percent-encoded text never contains a space, `&` or `=`.
pub proof fn law_encoding_has_no_delimiters(s: Seq<char>)
    ensures
        forall|i: int|
            0 <= i < spec_urlencoding(s).len() ==> #[trigger] spec_urlencoding(s)[i] != ' '
                && spec_urlencoding(s)[i] != '&' && spec_urlencoding(s)[i] != '=',
{
    lemma_encoded_bytes_no_delimiters(encode_utf8(s));
}

proof fn lemma_encoded_bytes_no_delimiters(bs: Seq<u8>)
    ensures
        forall|i: int|
            0 <= i < percent_encode_bytes(bs).len() ==> #[trigger] percent_encode_bytes(bs)[i] != ' '
                && percent_encode_bytes(bs)[i] != '&' && percent_encode_bytes(bs)[i] != '=',
    decreases bs.len(),
{
    if bs.len() > 0 {
        lemma_encoded_bytes_no_delimiters(bs.drop_last());
        let b = bs.last();
        let pre = percent_encode_bytes(bs.drop_last());
        let e = encode_byte(b);
        assert forall|i: int| 0 <= i < e.len() implies #[trigger] e[i] != ' ' && e[i] != '&' && e[i]
            != '=' by {
            if !is_unreserved(b) {
                lemma_hex_upper_value(b / 16);
                lemma_hex_upper_value(b % 16);
            }
        }
        assert forall|i: int| 0 <= i < (pre + e).len() implies #[trigger] (pre + e)[i] != ' ' && (pre
            + e)[i] != '&' && (pre + e)[i] != '=' by {
            if i < pre.len() {
                assert((pre + e)[i] == pre[i]);
            } else {
                assert((pre + e)[i] == e[i - pre.len()]);
            }
        }
    }
}

/// A byte is copied unchanged exactly when it is an RFC 3986 unreserved
/// character (ASCII letter, digit, `-`, `.`, `_`, `~`); every other byte
/// becomes `%` and two hex digits.
pub proof fn law_encode_byte_kept_iff_unreserved(b: u8)
    ensures
        encode_byte(b) == seq![b as char] <==> is_unreserved_char(b as char),
        !is_unreserved_char(b as char) ==> encode_byte(b).len() == 3 && encode_byte(b)[0] == '%',
{
    if !is_unreserved_char(b as char) {
        assert(encode_byte(b).len() == 3);
        assert(encode_byte(b) != seq![b as char]);
    }
}

/// A single ASCII character is left as it is by encoding exactly when it
/// is unreserved.
pub proof fn law_ascii_char_kept_iff_unreserved(c: char)
    requires
        '\0' <= c <= '\u{7f}',
    ensures
        spec_urlencoding(seq![c]) == seq![c] <==> is_unreserved_char(c),
{
    let s = seq![c];
    assert(vstd::utf8::is_ascii_chars(s));
    vstd::utf8::is_ascii_chars_encode_utf8(s);
    let bs = encode_utf8(s);
    assert(bs.len() == 1);
    assert(bs[0] == c as u8);
    assert(bs.drop_last() =~= Seq::<u8>::empty());
    assert(bs.last() == c as u8);
    assert(percent_encode_bytes(bs.drop_last()) =~= Seq::<char>::empty());
    assert(percent_encode_bytes(bs) =~= encode_byte(c as u8));
    law_encode_byte_kept_iff_unreserved(c as u8);
    assert((c as u8) as char == c);
}

} // verus!
