use things_sak::mcp::{server_from_env, status_or_default, ThingsServer};
use things_sak::serve::{banner_lines, bearer_ok, host_policy, serve_token, HostPolicy, ServeError, DEFAULT_PORT};
use things_sak::types::StatusFilter;

#[test]
fn no_token_only_on_loopback() {
    assert_eq!(serve_token(true, false, None).unwrap_err(), ServeError::NoTokenOffLoopback);
    assert_eq!(
        ServeError::NoTokenOffLoopback.message(),
        "--no-token is only allowed when binding to loopback"
    );
    assert_eq!(serve_token(true, true, None).unwrap(), None);
    assert_eq!(serve_token(false, true, None).unwrap(), None);
    assert_eq!(serve_token(false, false, Some("t".to_string())).unwrap(), Some(("t".to_string(), false)));
}

#[test]
fn generated_token_off_loopback() {
    let (t, generated) = serve_token(false, false, None).unwrap().unwrap();
    assert!(generated);
    assert_eq!(t.len(), 32);
    assert!(t.chars().all(|c| c.is_ascii_alphanumeric()));
    let (t2, _) = serve_token(false, false, None).unwrap().unwrap();
    assert_ne!(t, t2);
}

#[test]
fn bearer_header_must_match_exactly() {
    assert!(bearer_ok(Some("Bearer secret"), "secret"));
    assert!(!bearer_ok(Some("Bearer secret2"), "secret"));
    assert!(!bearer_ok(Some("bearer secret"), "secret"));
    assert!(!bearer_ok(Some("Bearer"), "secret"));
    assert!(!bearer_ok(Some("secret"), "secret"));
    assert!(!bearer_ok(None, "secret"));
    assert!(bearer_ok(Some("Bearer "), ""));
}

#[test]
fn host_policy_choices() {
    match host_policy(vec!["a:1".to_string()], true, false, "127.0.0.1") {
        HostPolicy::Allow(h) => assert_eq!(h, vec!["a:1"]),
        other => panic!("unexpected {other:?}"),
    }
    assert!(matches!(host_policy(vec![], true, false, "127.0.0.1"), HostPolicy::Default));
    assert!(matches!(host_policy(vec![], false, true, "0.0.0.0"), HostPolicy::Disabled));
    match host_policy(vec![], false, false, "192.168.1.20") {
        HostPolicy::Allow(h) => assert_eq!(h, vec!["localhost", "127.0.0.1", "::1", "192.168.1.20"]),
        other => panic!("unexpected {other:?}"),
    }
}

#[test]
fn banner_for_generated_token() {
    let lines = banner_lines("192.168.1.20", false, DEFAULT_PORT, Some(("abc", true)));
    assert_eq!(
        lines,
        vec![
            "things-sak MCP server",
            "  endpoint : http://192.168.1.20:32123/mcp",
            "  token    : abc  (generated for this run; pass --token to pin one)",
            "",
            "  MCP client config:",
            "    {",
            "      \"mcpServers\": {",
            "        \"things\": {",
            "          \"type\": \"http\",",
            "          \"url\": \"http://192.168.1.20:32123/mcp\",",
            "          \"headers\": { \"Authorization\": \"Bearer abc\" }",
            "        }",
            "      }",
            "    }",
        ]
    );
}

#[test]
fn banner_without_token_and_with_given_token() {
    let lines = banner_lines("0.0.0.0", true, 8080, None);
    assert_eq!(lines[1], "  endpoint : http://<this-machine>:8080/mcp");
    assert_eq!(lines[2], "  token    : disabled (loopback only)");
    assert_eq!(lines[9], "          \"url\": \"http://<this-machine>:8080/mcp\"");
    assert_eq!(lines.len(), 13);
    let lines = banner_lines("127.0.0.1", false, 1, Some(("secret", false)));
    assert_eq!(lines[2], "  token    : (set via --token / THINGS_SAK_TOKEN)");
    assert_eq!(lines[10], "          \"headers\": { \"Authorization\": \"Bearer <your token>\" }");
}

#[test]
fn server_state_from_env() {
    assert_eq!(server_from_env(Some("tok")).auth_token.as_deref(), Some("tok"));
    assert_eq!(server_from_env(Some("")).auth_token, None);
    assert_eq!(server_from_env(None).auth_token, None);
    assert_eq!(ThingsServer::default().auth_token, None);
    assert_eq!(status_or_default(None), StatusFilter::Open);
    assert_eq!(status_or_default(Some(StatusFilter::All)), StatusFilter::All);
}
