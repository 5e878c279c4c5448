//! Small rules of the host server: request body limit and port taken from
//! the environment, the HTTPS redirect target, and the body of a response to
//! a panicking handler.

use crate::text::{decimal_chars, decimal_string, parse_unsigned, parsed_unsigned};
use vstd::prelude::*;
use vstd::string::*;

verus! {

/// The request body limit used when none is configured.
pub const DEFAULT_REQUEST_BODY_LIMIT: usize = 10_000_000;

/// The request body limit: the configured value when it is a valid number,
/// else the default.
pub fn request_body_limit(configured: Option<&str>) -> (r: usize)
    ensures
        r == (match configured {
            Some(v) => match parsed_unsigned(v@, usize::MAX as nat) {
                Some(n) => n as usize,
                None => DEFAULT_REQUEST_BODY_LIMIT,
            },
            None => DEFAULT_REQUEST_BODY_LIMIT,
        }),
{
    match configured {
        Some(v) => match parse_unsigned(v, usize::MAX as u64) {
            Some(n) => n as usize,
            None => DEFAULT_REQUEST_BODY_LIMIT,
        },
        None => DEFAULT_REQUEST_BODY_LIMIT,
    }
}

/// The port to serve on: the configured value when it is a valid port
/// number, else 80.
pub fn check_port(configured: Option<&str>) -> (r: u16)
    ensures
        r == (match configured {
            Some(v) => match parsed_unsigned(v@, u16::MAX as nat) {
                Some(n) => n as u16,
                None => 80u16,
            },
            None => 80u16,
        }),
{
    match configured {
        Some(v) => match parse_unsigned(v, u16::MAX as u64) {
            Some(n) => n as u16,
            None => 80,
        },
        None => 80,
    }
}

/// Whether `text` ends with `:` and `port`.
pub open spec fn ends_with_port(text: Seq<char>, port: Seq<char>) -> bool {
    (":"@ + port).len() <= text.len() && text.subrange(
        text.len() - (":"@ + port).len(),
        text.len() as int,
    ) == ":"@ + port
}

/// `authority` without its port (the text `port`, if it has one), then
/// `:` and the HTTPS port.
pub open spec fn https_authority_of(authority: Seq<char>, port: Option<Seq<char>>, https_port: u16) -> Seq<char> {
    (match port {
        Some(p) => authority.subrange(0, authority.len() - p.len() - 1),
        None => authority,
    }) + ":"@ + decimal_chars(https_port as nat)
}

/// The authority an HTTP request is redirected to: the requested host
/// without its port (`port` is the port the authority ends with, if any),
/// then the HTTPS port.
pub fn https_authority(authority: &str, port: Option<&str>, https_port: u16) -> (r: String)
    requires
        port matches Some(p) ==> ends_with_port(authority@, p@),
    ensures
        r@ == https_authority_of(
            authority@,
            match port {
                Some(p) => Some(p@),
                None => None,
            },
            https_port,
        ),
{
    proof {
        reveal_strlit(":");
    }
    let bare = match port {
        Some(p) => {
            let n = authority.unicode_len();
            let m = p.unicode_len();
            String::from_str(authority.substring_char(0, n - m - 1))
        },
        None => String::from_str(authority),
    };
    let mut r = bare;
    r.append(":");
    let digits = decimal_string(https_port as u64);
    r.append(digits.as_str());
    r
}

/// The text of the authority that the http crate reads from `host`, with
/// the text of its port when it has one; `None` when `host` is not a valid
/// authority.
pub uninterp spec fn http_authority(host: Seq<char>) -> Option<(Seq<char>, Option<Seq<char>>)>;

/// Calls the http crate's `Authority` parser, through axum, and reads its
/// text and port. Claimed: the result depends on `host` alone, and a port is
/// the text after the authority's last `:` (as `Authority::port` finds it);
/// the rest is only named.
#[verifier::external_body]
fn parse_authority(host: &str) -> (r: Option<(String, Option<String>)>)
    ensures
        match r {
            None => http_authority(host@) is None,
            Some((a, p)) => http_authority(host@) == Some(
                (
                    a@,
                    match p {
                        Some(q) => Some(q@),
                        None => None,
                    },
                ),
            ),
        },
        r matches Some((a, Some(p))) ==> ends_with_port(a@, p@),
{
    match host.parse::<axum::http::uri::Authority>() {
        Ok(a) => {
            let port = match a.port() {
                Some(p) => Some(p.as_str().to_string()),
                None => None,
            };
            Some((a.as_str().to_string(), port))
        },
        Err(_) => None,
    }
}

/// The address a plain HTTP request is redirected to: `https://`, the
/// requested host with its port replaced by `https_port`, then the path and
/// query (or `/`). Refused with 400 when the host, or the host with the new
/// port, is not a valid authority.
pub fn https_redirect(host: &str, path_and_query: Option<&str>, https_port: u16) -> (r: Result<
    String,
    u16,
>)
    ensures
        match http_authority(host@) {
            None => r == Err::<String, u16>(400),
            Some((a, port)) => match http_authority(https_authority_of(a, port, https_port)) {
                None => r == Err::<String, u16>(400),
                Some((b, _)) => r matches Ok(u) && u@ == "https://"@ + b + match path_and_query {
                    Some(p) => p@,
                    None => "/"@,
                },
            },
        },
{
    let (authority, port) = match parse_authority(host) {
        Some(parts) => parts,
        None => {
            return Err(400);
        },
    };
    let moved = match &port {
        Some(p) => https_authority(authority.as_str(), Some(p.as_str()), https_port),
        None => https_authority(authority.as_str(), None, https_port),
    };
    let (target, _) = match parse_authority(moved.as_str()) {
        Some(parts) => parts,
        None => {
            return Err(400);
        },
    };
    let mut origin = String::from_str("https://");
    origin.append(target.as_str());
    Ok(redirect_target(origin.as_str(), path_and_query))
}

/// Where a plain HTTP request is sent: the origin followed by the requested
/// path and query, or by `/`.
pub fn redirect_target(origin: &str, path_and_query: Option<&str>) -> (r: String)
    ensures
        r@ == origin@ + (match path_and_query {
            Some(p) => p@,
            None => "/"@,
        }),
{
    let mut r = String::from_str(origin);
    match path_and_query {
        Some(p) => r.append(p),
        None => r.append("/"),
    }
    r
}

/// The body of the response to a panicking handler: the panic message in
/// debug builds, a generic message otherwise.
pub fn panic_body(details: &str, debug: bool) -> (r: String)
    ensures
        r@ == (if debug { "Panic: "@ + details@ } else { "Internal error"@ }),
{
    if debug {
        let mut r = String::from_str("Panic: ");
        r.append(details);
        r
    } else {
        String::from_str("Internal error")
    }
}

} // verus!
