//! Decisions of the streamable HTTP transport for the MCP server.
//!
//! Security posture: binds to loopback by default. Binding to a LAN address
//! requires Bearer token auth (auto-generated if not provided). Tokens are
//! only accepted via the Authorization header, never in the URL.

use vstd::prelude::*;
use vstd::utf8::encode_utf8_decode_utf8;
use vstd::string::StrSliceExecFns;
use crate::text::{decimal, owned, push_decimal, push_str, str_equals, views};
use rand::distr::{Alphanumeric, Distribution};
use subtle::ConstantTimeEq;

verus! {

broadcast use vstd::string::group_string_axioms;

/// Port the server listens on unless told otherwise.
pub const DEFAULT_PORT: u16 = 32123;

/// Length of a generated bearer token.
pub const TOKEN_LEN: usize = 32;

/// Whether `c` is an ASCII letter or digit.
pub open spec fn is_ascii_alphanumeric(c: char) -> bool {
    ('0' <= c <= '9') || ('A' <= c <= 'Z') || ('a' <= c <= 'z')
}

/// `len` random characters drawn with `rand`'s `Alphanumeric` distribution from the
/// thread-local generator (`rand::rng()`). Trusted: the sample stream is endless, so
/// the result has exactly `len` characters, each an ASCII letter or digit, as the
/// distribution's character set in the rand source shows. Which characters come out
/// is chance and is not stated; `rand::rng()` panics only when the operating system
/// cannot seed it.
#[verifier::external_body]
fn random_alphanumeric(len: usize) -> (res: String)
    ensures
        res@.len() == len,
        forall|i: int| 0 <= i < res@.len() ==> is_ascii_alphanumeric(#[trigger] res@[i]),
{
    Alphanumeric.sample_iter(rand::rng()).take(len).map(char::from).collect()
}

/// Compares two byte strings with `subtle`'s constant-time `ct_eq` on slices.
/// Trusted: the result is true exactly when the lengths and all bytes agree, as the
/// subtle source shows (it returns early only on a length mismatch).
#[verifier::external_body]
fn bytes_equal_in_constant_time(a: &[u8], b: &[u8]) -> (res: bool)
    ensures
        res == (a@ == b@),
{
    a.ct_eq(b).into()
}

/// Why the server refused to start.
#[derive(Debug, Clone, Copy, PartialEq, Eq, Structural)]
pub enum ServeError {
    /// `--no-token` was given with an address beyond loopback.
    NoTokenOffLoopback,
}

impl ServeError {
    /// The message shown to the user.
    pub fn message(&self) -> (res: String)
        ensures
            res@ == "--no-token is only allowed when binding to loopback"@,
    {
        owned("--no-token is only allowed when binding to loopback")
    }
}

/// The bearer token the server requires, and whether it was generated for this run.
/// No token is required only on loopback; refusing a token off loopback is an error.
/// A given token is used as it is; off loopback without one, a fresh token is made.
pub fn serve_token(no_token: bool, loopback: bool, token: Option<String>) -> (res: Result<Option<(String, bool)>, ServeError>)
    ensures
        !loopback ==> (res is Err || res matches Ok(Some(_))),
        no_token && !loopback ==> res == Err::<Option<(String, bool)>, ServeError>(ServeError::NoTokenOffLoopback),
        no_token && loopback ==> res matches Ok(None),
        !no_token ==> match token {
            Some(t) => res matches Ok(Some((u, generated))) && u@ == t@ && !generated,
            None => if loopback {
                res matches Ok(None)
            } else {
                res matches Ok(Some((u, generated))) && generated && u@.len() == TOKEN_LEN
                    && forall|i: int| 0 <= i < u@.len() ==> is_ascii_alphanumeric(#[trigger] u@[i])
            },
        },
{
    if no_token {
        if !loopback {
            return Err(ServeError::NoTokenOffLoopback);
        }
        return Ok(None);
    }
    match token {
        Some(t) => Ok(Some((t, false))),
        None => {
            if loopback {
                Ok(None)
            } else {
                Ok(Some((random_alphanumeric(TOKEN_LEN), true)))
            }
        },
    }
}

/// Which `Host` headers the server accepts.
#[derive(Debug)]
pub enum HostPolicy {
    /// The transport's default: loopback hosts only.
    Default,
    /// Exactly these hosts.
    Allow(Vec<String>),
    /// Any host (token auth still applies).
    Disabled,
}

/// Which hosts to accept: the ones given, when any; on loopback, the default; on an
/// unspecified address, any (every interface address cannot be known); otherwise the
/// loopback names and the bind address itself.
pub fn host_policy(allowed_hosts: Vec<String>, loopback: bool, unspecified: bool, bind: &str) -> (res: HostPolicy)
    ensures
        allowed_hosts@.len() > 0 ==> (res matches HostPolicy::Allow(h) && h@ == allowed_hosts@),
        allowed_hosts@.len() == 0 && loopback ==> res is Default,
        allowed_hosts@.len() == 0 && !loopback && unspecified ==> res is Disabled,
        allowed_hosts@.len() == 0 && !loopback && !unspecified ==> (res matches HostPolicy::Allow(h)
            && views(h@) == seq!["localhost"@, "127.0.0.1"@, "::1"@, bind@]),
{
    if allowed_hosts.len() > 0 {
        return HostPolicy::Allow(allowed_hosts);
    }
    if loopback {
        return HostPolicy::Default;
    }
    if unspecified {
        return HostPolicy::Disabled;
    }
    let mut hosts: Vec<String> = Vec::new();
    hosts.push(owned("localhost"));
    hosts.push(owned("127.0.0.1"));
    hosts.push(owned("::1"));
    hosts.push(owned(bind));
    assert(views(hosts@) =~= seq!["localhost"@, "127.0.0.1"@, "::1"@, bind@]);
    HostPolicy::Allow(hosts)
}

/// Whether an `Authorization` header value presents `token`: it must be exactly
/// `Bearer ` followed by the token.
pub open spec fn presents_token(header: Option<Seq<char>>, token: Seq<char>) -> bool {
    match header {
        Some(h) => h == "Bearer "@ + token,
        None => false,
    }
}

/// The view of an optional borrowed string.
pub open spec fn header_view(o: Option<&str>) -> Option<Seq<char>> {
    match o {
        Some(s) => Some(s@),
        None => None,
    }
}

/// Whether a request with this `Authorization` header value (when it has one that is
/// visible ASCII) may pass; the token is compared in constant time.
pub fn bearer_ok(header: Option<&str>, token: &str) -> (res: bool)
    ensures
        res == presents_token(header_view(header), token@),
{
    let h = match header {
        Some(h) => h,
        None => return false,
    };
    let prefix = "Bearer ";
    proof {
        reveal_strlit("Bearer ");
    }
    let n = h.unicode_len();
    if n < 7 {
        assert(h@ != "Bearer "@ + token@);
        return false;
    }
    let head = h.substring_char(0, 7);
    if !str_equals(head, prefix) {
        assert(h@.subrange(0, 7) != "Bearer "@);
        assert(h@ != "Bearer "@ + token@) by {
            if h@ == "Bearer "@ + token@ {
                assert(h@.subrange(0, 7) =~= "Bearer "@);
            }
        }
        return false;
    }
    let rest = h.substring_char(7, n);
    let same = bytes_equal_in_constant_time(rest.as_bytes(), token.as_bytes());
    proof {
        encode_utf8_decode_utf8(rest@);
        encode_utf8_decode_utf8(token@);
        assert(same == (rest@ == token@));
        assert(h@ =~= h@.subrange(0, 7) + rest@);
        if h@ == "Bearer "@ + token@ {
            assert(rest@ =~= h@.skip(7));
            assert(token@ =~= ("Bearer "@ + token@).skip(7));
        }
    }
    same
}

/// The host shown in the banner: the bind address, or a placeholder when the server
/// listens on every interface.
pub open spec fn banner_host(ip: Seq<char>, unspecified: bool) -> Seq<char> {
    if unspecified {
        "<this-machine>"@
    } else {
        ip
    }
}

/// The MCP endpoint URL shown in the banner.
pub open spec fn endpoint_url(ip: Seq<char>, unspecified: bool, port: u16) -> Seq<char> {
    "http://"@ + banner_host(ip, unspecified) + ":"@ + decimal(port as nat) + "/mcp"@
}

/// The line that tells how the server authenticates clients.
pub open spec fn token_line(token: Option<(Seq<char>, bool)>) -> Seq<char> {
    match token {
        Some((t, true)) => "  token    : "@ + t + "  (generated for this run; pass --token to pin one)"@,
        Some((_, false)) => "  token    : (set via --token / THINGS_SAK_TOKEN)"@,
        None => "  token    : disabled (loopback only)"@,
    }
}

/// The lines of the client configuration shown in the banner. A generated token is
/// shown in full; a given one is only referred to.
pub open spec fn config_lines(url: Seq<char>, token: Option<(Seq<char>, bool)>) -> Seq<Seq<char>> {
    seq![
        "  MCP client config:"@,
        "    {"@,
        "      \"mcpServers\": {"@,
        "        \"things\": {"@,
        "          \"type\": \"http\","@,
        "          \"url\": \""@ + url + "\""@ + (if token is Some { ","@ } else { Seq::empty() }),
    ] + (match token {
        Some((t, generated)) => seq![
            "          \"headers\": { \"Authorization\": \"Bearer "@ + (if generated { t } else { "<your token>"@ })
                + "\" }"@,
        ],
        None => Seq::empty(),
    }) + seq!["        }"@, "      }"@, "    }"@]
}

/// The startup banner, line by line.
pub open spec fn banner_spec(ip: Seq<char>, unspecified: bool, port: u16, token: Option<(Seq<char>, bool)>) -> Seq<Seq<char>> {
    let url = endpoint_url(ip, unspecified, port);
    seq!["things-sak MCP server"@, "  endpoint : "@ + url, token_line(token), Seq::empty()] + config_lines(url, token)
}

/// The view of an optional token and whether it was generated.
pub open spec fn token_view(token: Option<(&str, bool)>) -> Option<(Seq<char>, bool)> {
    match token {
        Some((t, g)) => Some((t@, g)),
        None => None,
    }
}

fn push_line(lines: &mut Vec<String>, line: String)
    ensures
        views(final(lines)@) == views(old(lines)@).push(line@),
{
    lines.push(line);
    assert(views(final(lines)@) =~= views(old(lines)@).push(line@));
}

/// The startup banner: the endpoint, how clients authenticate, and a client configuration.
pub fn banner_lines(ip: &str, unspecified: bool, port: u16, token: Option<(&str, bool)>) -> (res: Vec<String>)
    ensures
        views(res@) == banner_spec(ip@, unspecified, port, token_view(token)),
{
    let mut url = owned("http://");
    if unspecified {
        push_str(&mut url, "<this-machine>");
    } else {
        push_str(&mut url, ip);
    }
    push_str(&mut url, ":");
    push_decimal(&mut url, port as usize);
    push_str(&mut url, "/mcp");
    let ghost u = endpoint_url(ip@, unspecified, port);
    assert(url@ =~= u);
    let mut lines: Vec<String> = Vec::new();
    push_line(&mut lines, owned("things-sak MCP server"));
    let mut endpoint = owned("  endpoint : ");
    push_str(&mut endpoint, url.as_str());
    push_line(&mut lines, endpoint);
    let tl = match token {
        Some((t, true)) => {
            let mut l = owned("  token    : ");
            push_str(&mut l, t);
            push_str(&mut l, "  (generated for this run; pass --token to pin one)");
            l
        },
        Some((_, false)) => owned("  token    : (set via --token / THINGS_SAK_TOKEN)"),
        None => owned("  token    : disabled (loopback only)"),
    };
    assert(tl@ == token_line(token_view(token)));
    push_line(&mut lines, tl);
    push_line(&mut lines, String::new());
    let ghost head = views(lines@);
    push_line(&mut lines, owned("  MCP client config:"));
    push_line(&mut lines, owned("    {"));
    push_line(&mut lines, owned("      \"mcpServers\": {"));
    push_line(&mut lines, owned("        \"things\": {"));
    push_line(&mut lines, owned("          \"type\": \"http\","));
    let mut url_line = owned("          \"url\": \"");
    push_str(&mut url_line, url.as_str());
    push_str(&mut url_line, "\"");
    if token.is_some() {
        push_str(&mut url_line, ",");
    }
    assert(url_line@ =~= "          \"url\": \""@ + u + "\""@ + (if token_view(token) is Some {
        ","@
    } else {
        Seq::empty()
    }));
    push_line(&mut lines, url_line);
    match token {
        Some((t, generated)) => {
            let mut h = owned("          \"headers\": { \"Authorization\": \"Bearer ");
            if generated {
                push_str(&mut h, t);
            } else {
                push_str(&mut h, "<your token>");
            }
            push_str(&mut h, "\" }");
            push_line(&mut lines, h);
        },
        None => {},
    }
    push_line(&mut lines, owned("        }"));
    push_line(&mut lines, owned("      }"));
    push_line(&mut lines, owned("    }"));
    assert(views(lines@) =~= banner_spec(ip@, unspecified, port, token_view(token)));
    lines
}

} // verus!
