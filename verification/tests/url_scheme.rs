use things_sak::url_scheme::{auth_token, build_url, MissingAuthToken, AUTH_TOKEN_ENV};

#[test]
fn build_url_encodes_params() {
    let url = build_url(
        "add",
        &[
            ("title", "Buy milk & eggs"),
            ("notes", "line one\nline two"),
        ],
    );
    assert_eq!(
        url,
        "things:///add?title=Buy%20milk%20%26%20eggs&notes=line%20one%0Aline%20two"
    );
}

#[test]
fn build_url_without_params() {
    assert_eq!(build_url("version", &[]), "things:///version");
}

#[test]
fn build_url_encodes_url_metacharacters() {
    // Values cannot smuggle extra parameters or fragments into the URL.
    let url = build_url("update", &[("id", "abc"), ("title", "x&completed=true#f")]);
    assert_eq!(
        url,
        "things:///update?id=abc&title=x%26completed%3Dtrue%23f"
    );
}

#[test]
fn build_url_encodes_utf8_bytes_in_uppercase_hex() {
    assert_eq!(build_url("add", &[("title", "é-_.~ ")]), "things:///add?title=%C3%A9%2D%5F%2E%7E%20");
    assert_eq!(build_url("add", &[("title", "AZaz09")]), "things:///add?title=AZaz09");
}

fn decode(v: &str) -> String {
    let b = v.as_bytes();
    let mut out = Vec::new();
    let mut i = 0;
    while i < b.len() {
        if b[i] == b'%' {
            out.push(u8::from_str_radix(std::str::from_utf8(&b[i + 1..i + 3]).unwrap(), 16).unwrap());
            i += 3;
        } else {
            out.push(b[i]);
            i += 1;
        }
    }
    String::from_utf8(out).unwrap()
}

#[test]
fn query_splits_into_one_pair_per_param() {
    let params = [("a", "x&y=z#w?"), ("b", "日本 語"), ("c", "")];
    let url = build_url("cmd", &params);
    let query = url.strip_prefix("things:///cmd?").unwrap();
    assert!(!query.contains('#'));
    let pairs: Vec<&str> = query.split('&').collect();
    assert_eq!(pairs.len(), params.len());
    for (pair, (k, v)) in pairs.iter().zip(params.iter()) {
        let (key, value) = pair.split_once('=').unwrap();
        assert_eq!(key, *k);
        assert!(value.chars().all(|c| c.is_ascii_alphanumeric() || c == '%'));
        assert_eq!(decode(value), *v);
    }
}

#[test]
fn auth_token_prefers_flag_then_env() {
    assert_eq!(auth_token(Some("flag"), Some("env")).unwrap(), "flag");
    assert_eq!(auth_token(None, Some("env")).unwrap(), "env");
    assert_eq!(auth_token(None, Some("")), Err(MissingAuthToken));
    assert_eq!(auth_token(None, None), Err(MissingAuthToken));
    assert_eq!(auth_token(Some(""), None).unwrap(), "");
}

#[test]
fn missing_auth_token_message_names_the_variable() {
    let m = MissingAuthToken.message();
    assert!(m.contains(AUTH_TOKEN_ENV));
    assert_eq!(
        m,
        "updating existing items requires the Things auth token. Find it in Things → Settings → General → Enable Things URLs → Manage, then set THINGS_SAK_AUTH_TOKEN or pass --auth-token."
    );
}

#[test]
fn url_shape_has_no_whitespace_and_question_mark_only_with_params() {
    let url = build_url("add-project", &[("title", " a b\t\n"), ("to-dos", "x?y\u{3000}")]);
    assert!(!url.chars().any(|c| c.is_whitespace() || c == '#'));
    assert_eq!(url.find('?'), Some("things:///add-project".len()));
    assert_eq!(url.matches('?').count(), 1);
    let bare = build_url("version", &[]);
    assert!(!bare.contains('?'));
}
