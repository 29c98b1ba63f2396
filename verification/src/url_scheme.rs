//! Things URL scheme write layer.
//!
//! All mutations use the official `things:///` URL scheme rather than
//! touching the Things database. `update` and `update-project` require the
//! auth token from Things → Settings → General → Enable Things URLs.

use vstd::prelude::*;
use vstd::utf8::{decode_utf8, encode_utf8, encode_utf8_decode_utf8};
use crate::text::{is_whitespace, join_with, lemma_split_join, owned, push_char, push_str, split_on};
use percent_encoding::{utf8_percent_encode, NON_ALPHANUMERIC};

verus! {

broadcast use vstd::string::group_string_axioms;

/// Environment variable that holds the Things URL scheme auth token.
pub const AUTH_TOKEN_ENV: &'static str = "THINGS_SAK_AUTH_TOKEN";

// ── Percent encoding ──────────────────────────────────────────────

/// Whether byte `b` is an ASCII letter or digit.
pub open spec fn is_alphanumeric_byte(b: u8) -> bool {
    (48 <= b <= 57) || (65 <= b <= 90) || (97 <= b <= 122)
}

/// The uppercase hexadecimal digit for `d < 16`.
pub open spec fn hex_digit(d: int) -> char {
    if d < 10 {
        ((d + 48) as u8) as char
    } else {
        ((d + 55) as u8) as char
    }
}

/// How one byte of UTF-8 appears in a URL component: ASCII letters and digits stand
/// for themselves, every other byte becomes `%` and two uppercase hex digits.
pub open spec fn percent_byte(b: u8) -> Seq<char> {
    if is_alphanumeric_byte(b) {
        seq![b as char]
    } else {
        seq!['%', hex_digit(b as int / 16), hex_digit(b as int % 16)]
    }
}

/// The percent encoding of a byte sequence.
pub open spec fn percent_bytes(bs: Seq<u8>) -> Seq<char>
    decreases bs.len(),
{
    if bs.len() == 0 {
        Seq::empty()
    } else {
        percent_byte(bs[0]) + percent_bytes(bs.drop_first())
    }
}

/// The percent encoding of the UTF-8 encoding of `s`, escaping everything but ASCII
/// letters and digits.
pub open spec fn percent_encoded(s: Seq<char>) -> Seq<char> {
    percent_bytes(encode_utf8(s))
}

/// Percent-encodes `s` with `percent_encoding::utf8_percent_encode` and the
/// `NON_ALPHANUMERIC` set. Trusted: the crate encodes the UTF-8 bytes of `s`, keeping
/// ASCII letters and digits and writing every other byte as `%` and two uppercase
/// hex digits (its source's byte table and set definition).
#[verifier::external_body]
fn encode(s: &str) -> (res: String)
    ensures
        res@ == percent_encoded(s@),
{
    utf8_percent_encode(s, NON_ALPHANUMERIC).to_string()
}

/// The value of a hexadecimal digit.
pub open spec fn hex_value(c: char) -> int {
    if '0' <= c <= '9' {
        c as int - 48
    } else if 'A' <= c <= 'F' {
        c as int - 55
    } else {
        c as int - 87
    }
}

/// Percent decoding: `%` and two hex digits give one byte, any other character
/// gives its own code as a byte.
pub open spec fn percent_decoded_bytes(t: Seq<char>) -> Seq<u8>
    decreases t.len(),
{
    if t.len() == 0 {
        Seq::empty()
    } else if t[0] == '%' && t.len() >= 3 {
        seq![(hex_value(t[1]) * 16 + hex_value(t[2])) as u8] + percent_decoded_bytes(t.skip(3))
    } else {
        seq![t[0] as u8] + percent_decoded_bytes(t.drop_first())
    }
}

proof fn lemma_percent_byte_decodes(b: u8, rest: Seq<char>)
    ensures
        percent_decoded_bytes(percent_byte(b) + rest) == seq![b] + percent_decoded_bytes(rest),
{
    let t = percent_byte(b) + rest;
    if is_alphanumeric_byte(b) {
        assert(t.drop_first() =~= rest);
        assert((b as char) as u8 == b);
    } else {
        assert(t.skip(3) =~= rest);
        let hi = b as int / 16;
        let lo = b as int % 16;
        assert(hex_value(hex_digit(hi)) == hi);
        assert(hex_value(hex_digit(lo)) == lo);
        assert(hi * 16 + lo == b as int);
    }
}

proof fn lemma_percent_bytes_decode(bs: Seq<u8>)
    ensures
        percent_decoded_bytes(percent_bytes(bs)) == bs,
    decreases bs.len(),
{
    if bs.len() > 0 {
        lemma_percent_bytes_decode(bs.drop_first());
        lemma_percent_byte_decodes(bs[0], percent_bytes(bs.drop_first()));
        assert(seq![bs[0]] + bs.drop_first() =~= bs);
    }
}

/// Whether `c` may appear in a percent-encoded value: an ASCII letter or digit, or `%`.
pub open spec fn url_safe_char(c: char) -> bool {
    ('0' <= c <= '9') || ('A' <= c <= 'Z') || ('a' <= c <= 'z') || c == '%'
}

proof fn lemma_percent_bytes_safe(bs: Seq<u8>)
    ensures
        forall|i: int| 0 <= i < percent_bytes(bs).len() ==> url_safe_char(#[trigger] percent_bytes(bs)[i]),
    decreases bs.len(),
{
    if bs.len() > 0 {
        lemma_percent_bytes_safe(bs.drop_first());
        let head = percent_byte(bs[0]);
        let tail = percent_bytes(bs.drop_first());
        assert forall|i: int| 0 <= i < head.len() implies url_safe_char(#[trigger] head[i]) by {
            if !is_alphanumeric_byte(bs[0]) && i > 0 {
                assert(0 <= bs[0] as int / 16 < 16);
            }
        }
        assert forall|i: int| 0 <= i < percent_bytes(bs).len() implies url_safe_char(
            #[trigger] percent_bytes(bs)[i],
        ) by {
            if i < head.len() {
                assert(percent_bytes(bs)[i] == head[i]);
            } else {
                assert(percent_bytes(bs)[i] == tail[i - head.len()]);
            }
        }
    }
}

/// A percent-encoded value holds only ASCII letters, digits and `%`: never `&`, `=`,
/// `?`, `#`, or anything else that would end the value inside a URL.
pub proof fn law_encoded_value_is_url_safe(s: Seq<char>)
    ensures
        forall|i: int| 0 <= i < percent_encoded(s).len() ==> url_safe_char(#[trigger] percent_encoded(s)[i]),
{
    lemma_percent_bytes_safe(encode_utf8(s));
}

/// Percent decoding followed by UTF-8 decoding gives back the encoded value.
pub proof fn law_encoded_value_decodes(s: Seq<char>)
    ensures
        decode_utf8(percent_decoded_bytes(percent_encoded(s))) == s,
{
    lemma_percent_bytes_decode(encode_utf8(s));
    encode_utf8_decode_utf8(s);
}

// ── URLs ──────────────────────────────────────────────────────────

/// The views of URL parameters.
pub open spec fn param_views(params: Seq<(&str, &str)>) -> Seq<(Seq<char>, Seq<char>)> {
    params.map_values(|p: (&str, &str)| (p.0@, p.1@))
}

/// One `key=value` pair of a query, the value percent-encoded.
pub open spec fn query_pair(p: (Seq<char>, Seq<char>)) -> Seq<char> {
    p.0 + seq!['='] + percent_encoded(p.1)
}

/// The query part of a URL: `?` before the first pair and `&` before every other.
pub open spec fn query_string(params: Seq<(Seq<char>, Seq<char>)>) -> Seq<char>
    decreases params.len(),
{
    if params.len() == 0 {
        Seq::empty()
    } else {
        let init = params.drop_last();
        query_string(init) + seq![if init.len() == 0 { '?' } else { '&' }] + query_pair(params.last())
    }
}

/// The text before the query: the scheme and the command.
pub open spec fn url_base(command: Seq<char>) -> Seq<char> {
    "things:///"@ + command
}

/// The URL that `build_url` gives for a command and its parameters.
pub open spec fn things_url(command: Seq<char>, params: Seq<(Seq<char>, Seq<char>)>) -> Seq<char> {
    url_base(command) + query_string(params)
}

/// `things:///{command}` followed by the percent-encoded parameters, in order.
pub fn build_url(command: &str, params: &[(&str, &str)]) -> (res: String)
    ensures
        res@ == things_url(command@, param_views(params@)),
{
    let mut url = owned("things:///");
    push_str(&mut url, command);
    let mut first = true;
    let mut i: usize = 0;
    while i < params.len()
        invariant
            i <= params.len(),
            first == (i == 0),
            url@ == things_url(command@, param_views(params@).take(i as int)),
        decreases params.len() - i,
    {
        let (key, value) = params[i];
        push_char(&mut url, if first { '?' } else { '&' });
        first = false;
        push_str(&mut url, key);
        push_char(&mut url, '=');
        let encoded = encode(value);
        push_str(&mut url, encoded.as_str());
        i = i + 1;
        proof {
            let ps = param_views(params@).take(i as int);
            assert(ps.drop_last() =~= param_views(params@).take(i - 1));
            assert(ps.last() == (key@, value@));
            assert(url@ =~= things_url(command@, ps));
        }
    }
    assert(param_views(params@).take(params.len() as int) =~= param_views(params@));
    url
}

/// The query pairs of a URL, in order.
pub open spec fn query_pairs(params: Seq<(Seq<char>, Seq<char>)>) -> Seq<Seq<char>> {
    params.map_values(|p: (Seq<char>, Seq<char>)| query_pair(p))
}

proof fn lemma_query_string_joins(params: Seq<(Seq<char>, Seq<char>)>)
    requires
        params.len() >= 1,
    ensures
        query_string(params) == seq!['?'] + join_with(query_pairs(params), seq!['&']),
    decreases params.len(),
{
    let init = params.drop_last();
    assert(query_pairs(params).drop_last() =~= query_pairs(init));
    if params.len() > 1 {
        lemma_query_string_joins(init);
        assert(query_string(params) =~= seq!['?'] + join_with(query_pairs(params), seq!['&']));
    } else {
        assert(init.len() == 0);
        assert(query_string(init) =~= Seq::<char>::empty());
        assert(query_pairs(params).len() == 1);
        assert(query_pairs(params)[0] == query_pair(params.last()));
        assert(join_with(query_pairs(params), seq!['&']) == query_pair(params.last()));
        assert(query_string(params) =~= seq!['?'] + join_with(query_pairs(params), seq!['&']));
    }
}

/// No parameter value can add, remove or reorder parameters: when no key holds `&`,
/// the query of a URL that `build_url` makes splits at `&` into exactly one
/// `key=encoded-value` pair per parameter, in order.
pub proof fn law_values_cannot_add_params(command: Seq<char>, params: Seq<(Seq<char>, Seq<char>)>)
    requires
        params.len() >= 1,
        forall|i: int| 0 <= i < params.len() ==> !(#[trigger] params[i]).0.contains('&'),
    ensures
        split_on(things_url(command, params).skip(url_base(command).len() as int + 1), seq!['&'])
            == query_pairs(params),
{
    lemma_query_string_joins(params);
    let pairs = query_pairs(params);
    assert forall|j: int| 0 <= j < pairs.len() implies !(#[trigger] pairs[j]).contains('&') by {
        let p = params[j];
        law_encoded_value_is_url_safe(p.1);
        assert(pairs[j] == p.0 + seq!['='] + percent_encoded(p.1));
        if pairs[j].contains('&') {
            let k = choose|k: int| 0 <= k < pairs[j].len() && pairs[j][k] == '&';
            if k < p.0.len() {
                assert(p.0[k] == '&');
            } else if k > p.0.len() {
                assert(percent_encoded(p.1)[k - p.0.len() - 1] == '&');
                assert(url_safe_char(percent_encoded(p.1)[k - p.0.len() - 1]));
            }
        }
    }
    lemma_split_join(pairs, '&');
    assert(things_url(command, params).skip(url_base(command).len() as int + 1)
        =~= join_with(pairs, seq!['&']));
}

proof fn lemma_query_string_without(params: Seq<(Seq<char>, Seq<char>)>, c: char)
    requires
        c != '?' && c != '&' && c != '=' && !url_safe_char(c),
        forall|i: int| 0 <= i < params.len() ==> !(#[trigger] params[i]).0.contains(c),
    ensures
        !query_string(params).contains(c),
    decreases params.len(),
{
    if params.len() > 0 {
        let init = params.drop_last();
        assert forall|i: int| 0 <= i < init.len() implies !(#[trigger] init[i]).0.contains(c) by {
            assert(init[i] == params[i]);
        }
        lemma_query_string_without(init, c);
        let p = params.last();
        assert(!p.0.contains(c)) by {
            assert(p == params[params.len() - 1]);
        }
        law_encoded_value_is_url_safe(p.1);
        let head = query_string(init);
        let mark = seq![if init.len() == 0 { '?' } else { '&' }];
        let q = query_string(params);
        assert(q == head + mark + p.0 + seq!['='] + percent_encoded(p.1));
        if q.contains(c) {
            let k = choose|k: int| 0 <= k < q.len() && q[k] == c;
            let a = head.len() as int;
            let b = a + 1 + p.0.len();
            if k < a {
                assert(head[k] == c);
            } else if k == a {
                assert(q[k] == mark[0]);
            } else if k < b {
                assert(p.0[k - a - 1] == c);
            } else if k == b {
                assert(q[k] == '=');
            } else {
                assert(percent_encoded(p.1)[k - b - 1] == c);
                assert(url_safe_char(percent_encoded(p.1)[k - b - 1]));
            }
        }
    }
}

/// No parameter value can add a fragment: when neither the command nor any key holds
/// `#`, the URL that `build_url` makes holds none.
pub proof fn law_values_cannot_add_fragment(command: Seq<char>, params: Seq<(Seq<char>, Seq<char>)>)
    requires
        !command.contains('#'),
        forall|i: int| 0 <= i < params.len() ==> !(#[trigger] params[i]).0.contains('#'),
    ensures
        !things_url(command, params).contains('#'),
{
    reveal_strlit("things:///");
    lemma_query_string_without(params, '#');
    let base = "things:///"@;
    let u = things_url(command, params);
    assert(u == base + command + query_string(params));
    if u.contains('#') {
        let k = choose|k: int| 0 <= k < u.len() && u[k] == '#';
        if k < base.len() {
            assert(base[k] == '#');
        } else if k < base.len() + command.len() {
            assert(command[k - base.len()] == '#');
        } else {
            assert(query_string(params)[k - base.len() - command.len()] == '#');
        }
    }
}

/// Whether `c` may appear in a command or key that the URL laws speak of: an ASCII
/// letter or digit, or `-`.
pub open spec fn url_word_char(c: char) -> bool {
    ('0' <= c <= '9') || ('A' <= c <= 'Z') || ('a' <= c <= 'z') || c == '-'
}

/// Whether every character of `s` is a `url_word_char`.
pub open spec fn url_word(s: Seq<char>) -> bool {
    forall|i: int| 0 <= i < s.len() ==> url_word_char(#[trigger] s[i])
}

/// The characters a query is made of.
pub open spec fn query_char(c: char) -> bool {
    url_safe_char(c) || url_word_char(c) || c == '=' || c == '&' || c == '?'
}

proof fn lemma_query_chars(params: Seq<(Seq<char>, Seq<char>)>)
    requires
        forall|i: int| 0 <= i < params.len() ==> url_word(#[trigger] params[i].0),
    ensures
        (query_string(params).len() == 0) == (params.len() == 0),
        forall|k: int|
            0 <= k < query_string(params).len() ==> query_char(#[trigger] query_string(params)[k])
                && (query_string(params)[k] == '?' <==> k == 0),
    decreases params.len(),
{
    if params.len() > 0 {
        let init = params.drop_last();
        assert forall|i: int| 0 <= i < init.len() implies url_word(#[trigger] init[i].0) by {
            assert(init[i] == params[i]);
        }
        lemma_query_chars(init);
        let p = params.last();
        assert(url_word(p.0)) by {
            assert(p == params[params.len() - 1]);
        }
        law_encoded_value_is_url_safe(p.1);
        let head = query_string(init);
        let mark = seq![if init.len() == 0 { '?' } else { '&' }];
        let enc = percent_encoded(p.1);
        let q = query_string(params);
        assert(q == head + mark + p.0 + seq!['='] + enc);
        let a = head.len() as int;
        let b = a + 1 + p.0.len();
        assert forall|k: int| 0 <= k < q.len() implies query_char(#[trigger] q[k]) && (q[k] == '?' <==> k == 0) by {
            if k < a {
                assert(q[k] == head[k]);
            } else if k == a {
                assert(q[k] == mark[0]);
            } else if k < b {
                assert(q[k] == p.0[k - a - 1]);
                assert(url_word_char(p.0[k - a - 1]));
            } else if k == b {
                assert(q[k] == '=');
            } else {
                assert(q[k] == enc[k - b - 1]);
                assert(url_safe_char(enc[k - b - 1]));
            }
        }
    }
}

/// The shape of every URL that `build_url` makes from a command and keys made of ASCII
/// letters, digits and `-`: it holds no whitespace and no `#`; it holds `?` exactly
/// when parameters are given, then right after the command; the text after the `?`
/// splits at `&` into exactly one `key=value` pair per parameter, in order; and each
/// encoded value is free of `&`, `=`, `?` and `#` and percent-decodes back to the value.
/// So no value can add, drop or reorder a parameter.
pub proof fn law_url_shape(command: Seq<char>, params: Seq<(Seq<char>, Seq<char>)>)
    requires
        url_word(command),
        forall|i: int| 0 <= i < params.len() ==> url_word(#[trigger] params[i].0),
    ensures
        forall|k: int|
            0 <= k < things_url(command, params).len() ==> !is_whitespace(#[trigger] things_url(command, params)[k])
                && things_url(command, params)[k] != '#',
        things_url(command, params).contains('?') == (params.len() > 0),
        params.len() > 0 ==> things_url(command, params)[url_base(command).len() as int] == '?',
        params.len() > 0 ==> split_on(things_url(command, params).skip(url_base(command).len() as int + 1), seq!['&'])
            == query_pairs(params),
        forall|i: int| 0 <= i < params.len() ==> {
            let e = #[trigger] percent_encoded(params[i].1);
            &&& !e.contains('&') && !e.contains('=') && !e.contains('?') && !e.contains('#')
            &&& decode_utf8(percent_decoded_bytes(e)) == params[i].1
        },
{
    reveal_strlit("things:///");
    lemma_query_chars(params);
    let scheme = "things:///"@;
    let base = url_base(command);
    let q = query_string(params);
    let u = things_url(command, params);
    assert(u == base + q);
    assert(base == scheme + command);
    assert forall|k: int| 0 <= k < base.len() implies (#[trigger] base[k]) != '?' && base[k] != '#'
        && !is_whitespace(base[k]) by {
        if k < scheme.len() {
            assert(base[k] == scheme[k]);
        } else {
            assert(base[k] == command[k - scheme.len()]);
            assert(url_word_char(command[k - scheme.len()]));
        }
    }
    assert forall|k: int| 0 <= k < u.len() implies !is_whitespace(#[trigger] u[k]) && u[k] != '#' by {
        if k < base.len() {
            assert(u[k] == base[k]);
        } else {
            assert(u[k] == q[k - base.len()]);
            assert(query_char(q[k - base.len()]));
        }
    }
    if params.len() > 0 {
        assert(u[base.len() as int] == q[0]);
        assert(u.contains('?'));
        assert forall|i: int| 0 <= i < params.len() implies !(#[trigger] params[i]).0.contains('&') by {
            assert(url_word(params[i].0));
            if params[i].0.contains('&') {
                let j = choose|j: int| 0 <= j < params[i].0.len() && params[i].0[j] == '&';
                assert(url_word_char(params[i].0[j]));
            }
        }
        law_values_cannot_add_params(command, params);
    } else {
        assert(u =~= base);
        if u.contains('?') {
            let k = choose|k: int| 0 <= k < u.len() && u[k] == '?';
            assert(base[k] == '?');
        }
    }
    assert forall|i: int| 0 <= i < params.len() implies {
        let e = #[trigger] percent_encoded(params[i].1);
        &&& !e.contains('&') && !e.contains('=') && !e.contains('?') && !e.contains('#')
        &&& decode_utf8(percent_decoded_bytes(e)) == params[i].1
    } by {
        let e = percent_encoded(params[i].1);
        law_encoded_value_is_url_safe(params[i].1);
        law_encoded_value_decodes(params[i].1);
        if e.contains('&') || e.contains('=') || e.contains('?') || e.contains('#') {
            let j = choose|j: int| 0 <= j < e.len() && (e[j] == '&' || e[j] == '=' || e[j] == '?' || e[j] == '#');
            assert(url_safe_char(e[j]));
        }
    }
}

// ── Auth token ────────────────────────────────────────────────────

/// No auth token was given and none is set in the environment.
#[derive(Debug, Clone, Copy, PartialEq, Eq)]
pub struct MissingAuthToken;

impl MissingAuthToken {
    /// The message shown to the user.
    pub fn message(&self) -> (res: String)
        ensures
            res@ == "updating existing items requires the Things auth token. Find it in Things → Settings → General → Enable Things URLs → Manage, then set THINGS_SAK_AUTH_TOKEN or pass --auth-token."@,
    {
        owned("updating existing items requires the Things auth token. Find it in Things → Settings → General → Enable Things URLs → Manage, then set THINGS_SAK_AUTH_TOKEN or pass --auth-token.")
    }
}

/// The auth token that update commands use: the one given on the command line, else
/// the one in the environment (`env_value`, the value of `AUTH_TOKEN_ENV` when it is
/// set and valid Unicode) when that is not empty.
pub fn auth_token(flag: Option<&str>, env_value: Option<&str>) -> (res: Result<String, MissingAuthToken>)
    ensures
        match flag {
            Some(t) => res matches Ok(r) && r@ == t@,
            None => match env_value {
                Some(e) if e@.len() > 0 => res matches Ok(r) && r@ == e@,
                _ => res is Err,
            },
        },
{
    if let Some(token) = flag {
        return Ok(owned(token));
    }
    match env_value {
        Some(token) if !token.is_empty() => Ok(owned(token)),
        _ => Err(MissingAuthToken),
    }
}

} // verus!
