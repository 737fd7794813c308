//! The loopback redirect: reading `code` and `state` out of the browser's
//! request line, and the page sent back to the browser.

use vstd::prelude::*;
use crate::urlcode::{
    decode_chars, latin1, law_decode_of_encode, law_decode_of_encode_ascii,
    law_encoding_has_no_delimiters, spec_urlencoding, spec_urlencoding_decode,
};
use vstd::utf8::encode_utf8;
use crate::text::{decimal, opt_str_view, push_decimal};

verus! {

/// `GET /callback?`: what the request must contain before the query.
pub open spec fn callback_prefix() -> Seq<char> {
    seq!['G', 'E', 'T', ' ', '/', 'c', 'a', 'l', 'l', 'b', 'a', 'c', 'k', '?']
}

/// The query key that carries the authorization code.
pub open spec fn code_key() -> Seq<char> {
    seq!['c', 'o', 'd', 'e']
}

/// The query key that carries the anti-forgery state.
pub open spec fn state_key() -> Seq<char> {
    seq!['s', 't', 'a', 't', 'e']
}

/// Index of the first occurrence of `c` in `s`.
pub open spec fn index_of(s: Seq<char>, c: char) -> Option<int>
    decreases s.len(),
{
    if s.len() == 0 {
        None
    } else if s[0] == c {
        Some(0)
    } else {
        match index_of(s.drop_first(), c) {
            Some(j) => Some(j + 1),
            None => None,
        }
    }
}

/// Index of the first occurrence of the text `pat` in `s`.
pub open spec fn find_text(s: Seq<char>, pat: Seq<char>) -> Option<int>
    decreases s.len(),
{
    if s.len() < pat.len() {
        None
    } else if s.subrange(0, pat.len() as int) == pat {
        Some(0)
    } else if s.len() == 0 {
        None
    } else {
        match find_text(s.drop_first(), pat) {
            Some(j) => Some(j + 1),
            None => None,
        }
    }
}

/// The pieces of `s` between occurrences of `sep` (as `str::split`: an empty
/// text gives one empty piece, and a trailing separator an empty last piece).
pub open spec fn split_on(s: Seq<char>, sep: char) -> Seq<Seq<char>>
    decreases s.len(),
{
    match index_of(s, sep) {
        None => seq![s],
        Some(j) => {
            if 0 <= j < s.len() {
                seq![s.subrange(0, j)] + split_on(s.subrange(j + 1, s.len() as int), sep)
            } else {
                seq![s]
            }
        },
    }
}

/// The key of a `key=value` piece: all of it up to the first `=`.
pub open spec fn pair_key(p: Seq<char>) -> Seq<char> {
    match index_of(p, '=') {
        Some(j) => p.subrange(0, j),
        None => p,
    }
}

/// The decoded value of a `key=value` piece; empty when there is no `=`.
pub open spec fn pair_value(p: Seq<char>) -> Seq<char> {
    match index_of(p, '=') {
        Some(j) => spec_urlencoding_decode(p.subrange(j + 1, p.len() as int)),
        None => seq![],
    }
}

/// The value of the last piece whose key is `key`, if any piece has it.
pub open spec fn lookup_last(pieces: Seq<Seq<char>>, key: Seq<char>) -> Option<Seq<char>>
    decreases pieces.len(),
{
    if pieces.len() == 0 {
        None
    } else if pair_key(pieces.last()) == key {
        Some(pair_value(pieces.last()))
    } else {
        lookup_last(pieces.drop_last(), key)
    }
}

/// The query of the request: from after the first `GET /callback?` up to the
/// next space, if both are there.
pub open spec fn callback_query(req: Seq<char>) -> Option<Seq<char>> {
    match find_text(req, callback_prefix()) {
        None => None,
        Some(i) => {
            let start = i + callback_prefix().len();
            match index_of(req.subrange(start, req.len() as int), ' ') {
                None => None,
                Some(j) => Some(req.subrange(start, start + j)),
            }
        },
    }
}

/// What `parse_callback_request` finds: the decoded `code` and `state`
/// values (the last of each, when a key repeats).
pub open spec fn spec_parse_callback(req: Seq<char>) -> (Option<Seq<char>>, Option<Seq<char>>) {
    match callback_query(req) {
        None => (None, None),
        Some(q) => {
            let pieces = split_on(q, '&');
            (lookup_last(pieces, code_key()), lookup_last(pieces, state_key()))
        },
    }
}

/// Whether the text `pat` starts at index `k` of `s`.
pub open spec fn occurs_at(s: Seq<char>, pat: Seq<char>, k: int) -> bool {
    0 <= k && k + pat.len() <= s.len() && s.subrange(k, k + pat.len()) == pat
}

proof fn lemma_index_of_found(s: Seq<char>, c: char, j: int)
    requires
        0 <= j < s.len(),
        s[j] == c,
        forall|k: int| 0 <= k < j ==> s[k] != c,
    ensures
        index_of(s, c) == Some(j),
    decreases s.len(),
{
    if j > 0 {
        lemma_index_of_found(s.drop_first(), c, j - 1);
    }
}

proof fn lemma_index_of_absent(s: Seq<char>, c: char)
    requires
        forall|k: int| 0 <= k < s.len() ==> s[k] != c,
    ensures
        index_of(s, c) == None::<int>,
    decreases s.len(),
{
    if s.len() > 0 {
        lemma_index_of_absent(s.drop_first(), c);
    }
}

proof fn lemma_find_text_found(s: Seq<char>, pat: Seq<char>, j: int)
    requires
        0 <= j,
        j + pat.len() <= s.len(),
        occurs_at(s, pat, j),
        forall|k: int| 0 <= k < j ==> !#[trigger] occurs_at(s, pat, k),
    ensures
        find_text(s, pat) == Some(j),
    decreases s.len(),
{
    if j > 0 {
        assert forall|k: int| 0 <= k < j - 1 implies !#[trigger] occurs_at(s.drop_first(), pat, k) by {
            assert(!occurs_at(s, pat, k + 1));
            assert(s.drop_first().subrange(k, k + pat.len()) =~= s.subrange(
                k + 1,
                k + 1 + pat.len(),
            ));
        }
        assert(s.drop_first().subrange(j - 1, j - 1 + pat.len()) =~= s.subrange(
            j,
            j + pat.len(),
        ));
        assert(!occurs_at(s, pat, 0));
        lemma_find_text_found(s.drop_first(), pat, j - 1);
    }
}

proof fn lemma_find_text_absent(s: Seq<char>, pat: Seq<char>)
    requires
        pat.len() > 0,
        forall|k: int| !#[trigger] occurs_at(s, pat, k),
    ensures
        find_text(s, pat) == None::<int>,
    decreases s.len(),
{
    if s.len() >= pat.len() {
        assert(!occurs_at(s, pat, 0));
        assert forall|k: int| !#[trigger] occurs_at(s.drop_first(), pat, k) by {
            assert(!occurs_at(s, pat, k + 1));
            if 0 <= k && k + pat.len() <= s.drop_first().len() {
                assert(s.drop_first().subrange(k, k + pat.len()) =~= s.subrange(
                    k + 1,
                    k + 1 + pat.len(),
                ));
            }
        }
        lemma_find_text_absent(s.drop_first(), pat);
    }
}

/// Whether `chars[at..at + pat.len()]` spells `pat`.
fn matches_at(chars: &Vec<char>, at: usize, pat: &Vec<char>) -> (r: bool)
    requires
        at + pat@.len() <= chars@.len(),
    ensures
        r == (chars@.subrange(at as int, at + pat@.len()) == pat@),
{
    let n = chars.len();
    let mut k: usize = 0;
    while k < pat.len()
        invariant
            n == chars@.len(),
            at + pat@.len() <= chars@.len(),
            k <= pat@.len(),
            forall|m: int| 0 <= m < k ==> chars@[at + m] == pat@[m],
        decreases pat@.len() - k,
    {
        if chars[at + k] != pat[k] {
            assert(chars@.subrange(at as int, at + pat@.len())[k as int] != pat@[k as int]);
            return false;
        }
        k = k + 1;
    }
    assert(chars@.subrange(at as int, at + pat@.len()) =~= pat@);
    true
}

/// The first index where `pat` starts in `chars`.
fn find_text_exec(chars: &Vec<char>, pat: &Vec<char>) -> (r: Option<usize>)
    requires
        pat@.len() > 0,
    ensures
        match r {
            Some(i) => find_text(chars@, pat@) == Some(i as int) && i + pat@.len() <= chars@.len(),
            None => find_text(chars@, pat@) == None::<int>,
        },
{
    let n = chars.len();
    let m = pat.len();
    if n < m {
        proof {
            assert forall|k: int| !#[trigger] occurs_at(chars@, pat@, k) by {}
            lemma_find_text_absent(chars@, pat@);
        }
        return None;
    }
    let mut i: usize = 0;
    while i <= n - m
        invariant
            n == chars@.len(),
            m == pat@.len(),
            m > 0,
            m <= n,
            i <= n - m + 1,
            forall|k: int| 0 <= k < i ==> !#[trigger] occurs_at(chars@, pat@, k),
        decreases n - i,
    {
        if matches_at(chars, i, pat) {
            proof {
                lemma_find_text_found(chars@, pat@, i as int);
            }
            return Some(i);
        }
        i = i + 1;
    }
    proof {
        assert forall|k: int| !#[trigger] occurs_at(chars@, pat@, k) by {
            if 0 <= k < i {
            }
        }
        lemma_find_text_absent(chars@, pat@);
    }
    None
}

/// The first index at or after `from` (and before `to`) holding `c`.
fn index_of_exec(chars: &Vec<char>, from: usize, to: usize, c: char) -> (r: Option<usize>)
    requires
        from <= to <= chars@.len(),
    ensures
        match r {
            Some(i) => from <= i < to && index_of(chars@.subrange(from as int, to as int), c)
                == Some(i - from),
            None => index_of(chars@.subrange(from as int, to as int), c) == None::<int>,
        },
{
    let ghost s = chars@.subrange(from as int, to as int);
    let mut i = from;
    while i < to
        invariant
            from <= i <= to <= chars@.len(),
            s == chars@.subrange(from as int, to as int),
            forall|k: int| from <= k < i ==> chars@[k] != c,
        decreases to - i,
    {
        if chars[i] == c {
            proof {
                lemma_index_of_found(s, c, i - from);
            }
            return Some(i);
        }
        i = i + 1;
    }
    proof {
        lemma_index_of_absent(s, c);
    }
    None
}

/// Whether `chars[a..b]` is exactly `word`.
fn range_is(chars: &Vec<char>, a: usize, b: usize, word: &Vec<char>) -> (r: bool)
    requires
        a <= b <= chars@.len(),
    ensures
        r == (chars@.subrange(a as int, b as int) == word@),
{
    if b - a != word.len() {
        return false;
    }
    matches_at(chars, a, word)
}

/// Splits the piece `chars[a..b]` into its key and decoded value.
fn split_piece(chars: &Vec<char>, a: usize, b: usize) -> (r: (usize, String))
    requires
        a <= b <= chars@.len(),
    ensures
        a <= r.0 <= b,
        pair_key(chars@.subrange(a as int, b as int)) == chars@.subrange(a as int, r.0 as int),
        pair_value(chars@.subrange(a as int, b as int)) == r.1@,
{
    let ghost p = chars@.subrange(a as int, b as int);
    match index_of_exec(chars, a, b, '=') {
        Some(e) => {
            let value = decode_chars(chars, e + 1, b);
            proof {
                assert(p.subrange(0, e - a) =~= chars@.subrange(a as int, e as int));
                assert(p.subrange(e - a + 1, p.len() as int) =~= chars@.subrange(e + 1, b as int));
            }
            (e, value)
        },
        None => {
            let value = String::new();
            proof {
                assert(value@ =~= Seq::<char>::empty());
            }
            (b, value)
        },
    }
}

proof fn lemma_lookup_push(pieces: Seq<Seq<char>>, p: Seq<char>, key: Seq<char>)
    ensures
        lookup_last(pieces.push(p), key) == (if pair_key(p) == key {
            Some(pair_value(p))
        } else {
            lookup_last(pieces, key)
        }),
{
    assert(pieces.push(p).drop_last() =~= pieces);
    assert(pieces.push(p).last() == p);
}

/// Reads the authorization code and the state out of the loopback request:
/// the query after the first `GET /callback?` up to the next space is split
/// at `&`, each piece at its first `=`, and the values are percent-decoded;
/// when a key repeats, its last value wins.
pub fn parse_callback_request(request: &str) -> (res: (Option<String>, Option<String>))
    ensures
        (opt_str_view(res.0), opt_str_view(res.1)) == spec_parse_callback(request@),
{
    let chars = crate::text::chars_of(request);
    let prefix: Vec<char> = vec!['G', 'E', 'T', ' ', '/', 'c', 'a', 'l', 'l', 'b', 'a', 'c', 'k', '?'];
    let code_word: Vec<char> = vec!['c', 'o', 'd', 'e'];
    let state_word: Vec<char> = vec!['s', 't', 'a', 't', 'e'];
    proof {
        assert(prefix@ =~= callback_prefix());
        assert(code_word@ =~= code_key());
        assert(state_word@ =~= state_key());
    }
    let n = chars.len();
    let start = match find_text_exec(&chars, &prefix) {
        Some(i) => i + 14,
        None => {
            return (None, None);
        },
    };
    let end = match index_of_exec(&chars, start, n, ' ') {
        Some(j) => j,
        None => {
            return (None, None);
        },
    };
    let ghost q = chars@.subrange(start as int, end as int);
    proof {
        assert(callback_query(request@) == Some(q));
        assert(chars@.subrange(start as int, end as int) == q);
    }
    let mut code: Option<String> = None;
    let mut state: Option<String> = None;
    let ghost mut processed: Seq<Seq<char>> = seq![];
    let mut pstart = start;
    let mut i = start;
    proof {
        assert(processed + split_on(q, '&') =~= split_on(q, '&'));
    }
    while i < end
        invariant
            n == chars@.len(),
            start <= pstart <= i <= end <= n,
            q == chars@.subrange(start as int, end as int),
            split_on(q, '&') == processed + split_on(chars@.subrange(pstart as int, end as int), '&'),
            lookup_last(processed, code_key()) == opt_str_view(code),
            lookup_last(processed, state_key()) == opt_str_view(state),
            code_word@ == code_key(),
            state_word@ == state_key(),
            forall|k: int| pstart <= k < i ==> chars@[k] != '&',
        decreases end - i,
    {
        if chars[i] == '&' {
            let ghost rest = chars@.subrange(pstart as int, end as int);
            let ghost piece = chars@.subrange(pstart as int, i as int);
            proof {
                lemma_index_of_found(rest, '&', i - pstart);
                assert(rest.subrange(0, i - pstart) =~= piece);
                assert(rest.subrange(i - pstart + 1, rest.len() as int) =~= chars@.subrange(
                    i + 1,
                    end as int,
                ));
                assert(split_on(rest, '&') == seq![piece] + split_on(
                    chars@.subrange(i + 1, end as int),
                    '&',
                ));
                lemma_lookup_push(processed, piece, code_key());
                lemma_lookup_push(processed, piece, state_key());
                assert(processed.push(piece) + split_on(chars@.subrange(i + 1, end as int), '&')
                    =~= processed + (seq![piece] + split_on(
                    chars@.subrange(i + 1, end as int),
                    '&',
                )));
            }
            let (key_end, value) = split_piece(&chars, pstart, i);
            if range_is(&chars, pstart, key_end, &code_word) {
                code = Some(value);
            } else if range_is(&chars, pstart, key_end, &state_word) {
                state = Some(value);
            }
            proof {
                processed = processed.push(piece);
            }
            pstart = i + 1;
        }
        i = i + 1;
    }
    let ghost last = chars@.subrange(pstart as int, end as int);
    proof {
        lemma_index_of_absent(last, '&');
        assert(split_on(last, '&') == seq![last]);
        assert(processed + seq![last] =~= processed.push(last));
        lemma_lookup_push(processed, last, code_key());
        lemma_lookup_push(processed, last, state_key());
    }
    let (key_end, value) = split_piece(&chars, pstart, end);
    if range_is(&chars, pstart, key_end, &code_word) {
        code = Some(value);
    } else if range_is(&chars, pstart, key_end, &state_word) {
        state = Some(value);
    }
    (code, state)
}

/// The HTML page shown in the browser once the redirect has been received.
pub fn callback_page_body() -> (r: &'static str)
    ensures
        r@ == "<html><body><h1>Pluely \u{2014} OAuth Complete</h1><p>You can close this window and return to Pluely.</p></body></html>"@,
{
    "<html><body><h1>Pluely \u{2014} OAuth Complete</h1><p>You can close this window and return to Pluely.</p></body></html>"
}

/// The complete HTTP response sent back to the browser: status line,
/// headers (the length counts the UTF-8 bytes of the page) and the page.
pub fn callback_http_response() -> (res: String)
    ensures
        res@ == "HTTP/1.1 200 OK\r\nContent-Type: text/html\r\nContent-Length: "@ + decimal(
            vstd::utf8::encode_utf8(callback_page_body_spec()).len(),
        ) + "\r\nConnection: close\r\n\r\n"@ + callback_page_body_spec(),
{
    let body = callback_page_body();
    let mut res = String::from_str("HTTP/1.1 200 OK\r\nContent-Type: text/html\r\nContent-Length: ");
    let body_len = body.as_bytes().len();
    push_decimal(&mut res, body_len as u64);
    res.append("\r\nConnection: close\r\n\r\n");
    res.append(body);
    res
}

/// The page text, as `callback_page_body` returns it.
pub open spec fn callback_page_body_spec() -> Seq<char> {
    "<html><body><h1>Pluely \u{2014} OAuth Complete</h1><p>You can close this window and return to Pluely.</p></body></html>"@
}

/// The request a browser sends when redirected to the loopback URI with
/// `code` and `state` in the query: `GET /callback?code=...&state=...`, the
/// values percent-encoded, then a space and the rest of the request.
pub open spec fn redirect_request(code: Seq<char>, state: Seq<char>, tail: Seq<char>) -> Seq<char> {
    callback_prefix() + seq!['c', 'o', 'd', 'e', '='] + spec_urlencoding(code) + seq![
        '&',
        's',
        't',
        'a',
        't',
        'e',
        '=',
    ] + spec_urlencoding(state) + seq![' '] + tail
}

/// No character of `e` is `c`.
pub open spec fn lacks(e: Seq<char>, c: char) -> bool {
    forall|i: int| 0 <= i < e.len() ==> #[trigger] e[i] != c
}

proof fn lemma_no_delimiters(s: Seq<char>)
    ensures
        lacks(spec_urlencoding(s), ' '),
        lacks(spec_urlencoding(s), '&'),
        lacks(spec_urlencoding(s), '='),
{
    law_encoding_has_no_delimiters(s);
}

proof fn lemma_redirect_query(e1: Seq<char>, e2: Seq<char>, tail: Seq<char>)
    requires
        lacks(e1, ' '),
        lacks(e2, ' '),
    ensures
        callback_query(
            callback_prefix() + seq!['c', 'o', 'd', 'e', '='] + e1 + seq!['&', 's', 't', 'a', 't', 'e', '='] + e2 + seq![' '] + tail,
        ) == Some(seq!['c', 'o', 'd', 'e', '='] + e1 + seq!['&', 's', 't', 'a', 't', 'e', '='] + e2),
{
    let p = callback_prefix();
    let k1 = seq!['c', 'o', 'd', 'e', '='];
    let k2 = seq!['&', 's', 't', 'a', 't', 'e', '='];
    let q = k1 + e1 + k2 + e2;
    let req = p + k1 + e1 + k2 + e2 + seq![' '] + tail;
    assert(req =~= p + q + seq![' '] + tail);
    assert(req.subrange(0, p.len() as int) =~= p);
    assert(find_text(req, p) == Some(0int));
    let after = req.subrange(14, req.len() as int);
    assert(after =~= q + seq![' '] + tail);
    assert forall|k: int| 0 <= k < q.len() implies after[k] != ' ' by {
        assert(after[k] == q[k]);
        if k < 5 {
            assert(q[k] == k1[k]);
        } else if k < 5 + e1.len() {
            assert(q[k] == e1[k - 5]);
        } else if k < 12 + e1.len() {
            assert(q[k] == k2[k - 5 - e1.len()]);
        } else {
            assert(q[k] == e2[k - 12 - e1.len()]);
        }
    }
    assert(after[q.len() as int] == ' ');
    lemma_index_of_found(after, ' ', q.len() as int);
    assert(req.subrange(14, 14 + q.len() as int) =~= q);
}

proof fn lemma_split_query(e1: Seq<char>, e2: Seq<char>)
    requires
        lacks(e1, '&'),
        lacks(e2, '&'),
    ensures
        split_on(seq!['c', 'o', 'd', 'e', '='] + e1 + seq!['&', 's', 't', 'a', 't', 'e', '='] + e2, '&')
            == seq![seq!['c', 'o', 'd', 'e', '='] + e1, seq!['s', 't', 'a', 't', 'e', '='] + e2],
{
    let k1 = seq!['c', 'o', 'd', 'e', '='];
    let k2 = seq!['&', 's', 't', 'a', 't', 'e', '='];
    let k2b = seq!['s', 't', 'a', 't', 'e', '='];
    let q = k1 + e1 + k2 + e2;
    let j: int = 5 + e1.len() as int;
    assert forall|k: int| 0 <= k < j implies q[k] != '&' by {
        if k < 5 {
            assert(q[k] == k1[k]);
        } else {
            assert(q[k] == e1[k - 5]);
        }
    }
    assert(q[j] == '&');
    lemma_index_of_found(q, '&', j);
    let first = q.subrange(0, j);
    let rest = q.subrange(j + 1, q.len() as int);
    assert(first =~= k1 + e1);
    assert(rest =~= k2b + e2);
    assert forall|k: int| 0 <= k < rest.len() implies rest[k] != '&' by {
        if k < 6 {
            assert(rest[k] == k2b[k]);
        } else {
            assert(rest[k] == e2[k - 6]);
        }
    }
    lemma_index_of_absent(rest, '&');
    assert(split_on(rest, '&') == seq![rest]);
    assert(split_on(q, '&') =~= seq![first, rest]);
}

proof fn lemma_lookup_pieces(e1: Seq<char>, e2: Seq<char>)
    requires
        lacks(e1, '='),
        lacks(e2, '='),
    ensures
        lookup_last(seq![seq!['c', 'o', 'd', 'e', '='] + e1, seq!['s', 't', 'a', 't', 'e', '='] + e2], code_key())
            == Some(spec_urlencoding_decode(e1)),
        lookup_last(seq![seq!['c', 'o', 'd', 'e', '='] + e1, seq!['s', 't', 'a', 't', 'e', '='] + e2], state_key())
            == Some(spec_urlencoding_decode(e2)),
{
    let k1 = seq!['c', 'o', 'd', 'e', '='];
    let k2b = seq!['s', 't', 'a', 't', 'e', '='];
    let first = k1 + e1;
    let rest = k2b + e2;
    let pieces = seq![first, rest];
    assert forall|k: int| 0 <= k < 4 implies first[k] != '=' by {
        assert(first[k] == k1[k]);
    }
    assert(first[4] == '=');
    lemma_index_of_found(first, '=', 4);
    assert(first.subrange(0, 4) =~= code_key());
    assert(first.subrange(5, first.len() as int) =~= e1);
    assert forall|k: int| 0 <= k < 5 implies rest[k] != '=' by {
        assert(rest[k] == k2b[k]);
    }
    assert(rest[5] == '=');
    lemma_index_of_found(rest, '=', 5);
    assert(rest.subrange(0, 5) =~= state_key());
    assert(rest.subrange(6, rest.len() as int) =~= e2);
    assert(pair_key(rest).len() != code_key().len());
    assert(pieces.last() == rest);
    assert(pieces.drop_last() =~= seq![first]);
    assert(seq![first].drop_last() =~= Seq::<Seq<char>>::empty());
    assert(seq![first].last() == first);
    assert(pair_key(first) == code_key());
    assert(pair_value(first) == spec_urlencoding_decode(e1));
    assert(lookup_last(seq![first], code_key()) == Some(spec_urlencoding_decode(e1)));
    assert(lookup_last(pieces, code_key()) == lookup_last(pieces.drop_last(), code_key()));
}

/// Reading a redirect built from `code` and `state` gives both back, each
/// as the Latin-1 reading of its UTF-8 bytes.
pub proof fn law_parse_of_redirect(code: Seq<char>, state: Seq<char>, tail: Seq<char>)
    ensures
        spec_parse_callback(redirect_request(code, state, tail)) == (
            Some(latin1(encode_utf8(code))),
            Some(latin1(encode_utf8(state))),
        ),
{
    let e1 = spec_urlencoding(code);
    let e2 = spec_urlencoding(state);
    lemma_no_delimiters(code);
    lemma_no_delimiters(state);
    lemma_redirect_query(e1, e2, tail);
    lemma_split_query(e1, e2);
    lemma_lookup_pieces(e1, e2);
    law_decode_of_encode(code);
    law_decode_of_encode(state);
}

/// For ASCII `code` and `state` (such as the base64url state this library
/// draws), reading the redirect gives both back exactly.
pub proof fn law_parse_of_redirect_ascii(code: Seq<char>, state: Seq<char>, tail: Seq<char>)
    requires
        vstd::utf8::is_ascii_chars(code),
        vstd::utf8::is_ascii_chars(state),
    ensures
        spec_parse_callback(redirect_request(code, state, tail)) == (Some(code), Some(state)),
{
    law_parse_of_redirect(code, state, tail);
    law_decode_of_encode(code);
    law_decode_of_encode_ascii(code);
    law_decode_of_encode(state);
    law_decode_of_encode_ascii(state);
}

} // verus!
