//! The reverse proxy in front of the server: which local port serves which public port, which
//! headers are passed on, and what HTTP/3 is advertised as.
use vstd::prelude::*;
use vstd::string::*;
use crate::text::{
    ascii_lower, ascii_lower_chars, chars_eq, contains, contains_chars, dec_digits, extend_str,
    parse_u64, parse_u64_chars, push_decimal, str_chars, string_from_chars,
};

verus! {

/// The TLS port for the API and WebDAV, and the one for the web UI.
pub const API_PORT: u16 = 48481;

pub const UI_PORT: u16 = 48482;

/// The local server.
pub const SERVER_PORT: u16 = 3000;

/// How long clients may remember the HTTP/3 advertisement: 12 hours, in seconds.
pub const ALT_SVC_MAX_AGE: u64 = 43200;

/// Largest request body buffered for HTTP/3: 64 MiB.
pub const MAX_H3_REQUEST_BODY: usize = 67_108_864;

/// The TCP proxy.
pub struct NasProxy;

/// The HTTP/3 listeners, with the certificate they serve.
pub struct Http3Service {
    pub cert_path: String,
    pub key_path: String,
}

/// `str::parse::<u16>()`.
pub open spec fn parse_u16(s: Seq<char>) -> Option<u16> {
    match parse_u64(s) {
        Some(v) => if v <= u16::MAX {
            Some(v as u16)
        } else {
            None
        },
        None => None,
    }
}

/// The port upstream of a listening port: the UI port goes to the configured UI port (the server
/// when it is not set or not a port number), everything else to the server.
pub open spec fn upstream_port_spec(listen_port: u16, ui_upstream: Option<Seq<char>>) -> u16 {
    if listen_port == UI_PORT {
        match ui_upstream {
            Some(s) => match parse_u16(s) {
                Some(p) => p,
                None => SERVER_PORT,
            },
            None => SERVER_PORT,
        }
    } else {
        SERVER_PORT
    }
}

/// The upstream port for `listen_port`, given `NAS_UI_UPSTREAM_PORT` where it is set.
pub fn upstream_port(listen_port: u16, ui_upstream: Option<&str>) -> (r: u16)
    ensures
        r == upstream_port_spec(
            listen_port,
            match ui_upstream {
                Some(s) => Some(s@),
                None => None,
            },
        ),
{
    if listen_port != UI_PORT {
        return SERVER_PORT;
    }
    match ui_upstream {
        Some(s) => {
            let c = str_chars(s);
            match parse_u64_chars(&c) {
                Some(v) => {
                    if v <= 65535 {
                        v as u16
                    } else {
                        SERVER_PORT
                    }
                },
                None => SERVER_PORT,
            }
        },
        None => SERVER_PORT,
    }
}

/// The local port a connection came in on, the UI port when it cannot be told.
pub fn proxy_local_port(addr_port: Option<u16>) -> (r: u16)
    ensures
        r == match addr_port {
            Some(p) => p,
            None => UI_PORT,
        },
{
    match addr_port {
        Some(p) => p,
        None => UI_PORT,
    }
}

/// The public port behind a local listening port (48481 is reached as 48484, 48482 as 48483).
pub fn external_port(local_port: u16) -> (r: u16)
    ensures
        r == (if local_port == API_PORT {
            48484
        } else if local_port == UI_PORT {
            48483
        } else {
            local_port
        }),
{
    if local_port == API_PORT {
        48484
    } else if local_port == UI_PORT {
        48483
    } else {
        local_port
    }
}

pub const ALT_SVC_HEAD: &'static str = "h3=\":";

pub const ALT_SVC_TAIL: &'static str = "\"; ma=";

/// The `Alt-Svc` value advertising HTTP/3 on a public port.
pub fn alt_svc_value(external_port: u16) -> (r: String)
    ensures
        r@ == ALT_SVC_HEAD@ + dec_digits(external_port as nat) + ALT_SVC_TAIL@ + dec_digits(ALT_SVC_MAX_AGE as nat),
{
    let mut v: Vec<char> = Vec::new();
    extend_str(&mut v, ALT_SVC_HEAD);
    push_decimal(&mut v, external_port as u64);
    extend_str(&mut v, ALT_SVC_TAIL);
    push_decimal(&mut v, ALT_SVC_MAX_AGE);
    string_from_chars(&v)
}

/// The user id header is never passed upstream: the server alone says who a user is.
pub const USER_ID_HEADER: &'static str = "X-User-Id";

fn lower_is(c: &Vec<char>, lit: &str) -> (r: bool)
    ensures
        r == (ascii_lower(c@) == lit@),
{
    let l = ascii_lower_chars(c);
    let t = str_chars(lit);
    chars_eq(&l, &t)
}

/// Request headers not forwarded over HTTP/3 (names compared without regard to ASCII case):
/// hop-by-hop ones, the host, and the user id.
pub open spec fn skip_request_header_spec(name: Seq<char>) -> bool {
    let l = ascii_lower(name);
    l == "connection"@ || l == "transfer-encoding"@ || l == "upgrade"@ || l == "host"@ || l == "x-user-id"@
}

pub fn skip_request_header(name: &str) -> (r: bool)
    ensures
        r == skip_request_header_spec(name@),
{
    let c = str_chars(name);
    lower_is(&c, "connection") || lower_is(&c, "transfer-encoding") || lower_is(&c, "upgrade")
        || lower_is(&c, "host") || lower_is(&c, "x-user-id")
}

/// Response headers not forwarded over HTTP/3: the hop-by-hop ones.
pub open spec fn skip_response_header_spec(name: Seq<char>) -> bool {
    let l = ascii_lower(name);
    l == "connection"@ || l == "transfer-encoding"@ || l == "upgrade"@ || l == "keep-alive"@
}

pub fn skip_response_header(name: &str) -> (r: bool)
    ensures
        r == skip_response_header_spec(name@),
{
    let c = str_chars(name);
    lower_is(&c, "connection") || lower_is(&c, "transfer-encoding") || lower_is(&c, "upgrade")
        || lower_is(&c, "keep-alive")
}

pub const UPSTREAM_HOST: &'static str = "http://127.0.0.1:";

/// The upstream URL of a request: the local server's port and the request's path and query
/// (`/` when there is none).
pub fn upstream_url(target_port: u16, path_and_query: Option<&str>) -> (r: String)
    ensures
        r@ == UPSTREAM_HOST@ + dec_digits(target_port as nat) + match path_and_query {
            Some(p) => p@,
            None => seq!['/'],
        },
{
    let mut v: Vec<char> = Vec::new();
    extend_str(&mut v, UPSTREAM_HOST);
    push_decimal(&mut v, target_port as u64);
    match path_and_query {
        Some(p) => extend_str(&mut v, p),
        None => v.push('/'),
    }
    string_from_chars(&v)
}

/// Only `GET` and `HEAD` requests come without a body.
pub fn has_body(method: &str) -> (r: bool)
    ensures
        r == !(method@ == "GET"@ || method@ == "HEAD"@),
{
    !(crate::text::str_eq(method, "GET") || crate::text::str_eq(method, "HEAD"))
}

/// Whether a request body grows past the limit with `n` more bytes.
pub fn body_over_limit(buffered: usize, n: usize) -> (r: bool)
    ensures
        r == (buffered + n > MAX_H3_REQUEST_BODY),
{
    buffered > MAX_H3_REQUEST_BODY || n > MAX_H3_REQUEST_BODY - buffered
}

/// The status a request whose body could not be read is answered with: 413 when it was too
/// large, 400 otherwise.
pub fn body_error_status(message: &str) -> (r: u16)
    ensures
        r == (if contains(message@, "too large"@) {
            413u16
        } else {
            400u16
        }),
{
    let m = str_chars(message);
    let k = str_chars("too large");
    if contains_chars(&m, &k) {
        413
    } else {
        400
    }
}

/// HTTP status of a request the upstream server could not answer.
pub const STATUS_BAD_GATEWAY: u16 = 502;

} // verus!
