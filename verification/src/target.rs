//! Where a gRPC or HTTP/3 run sends its calls, read from the target URL.
use vstd::prelude::*;

use crate::text::{decimal, extend_str, owned, push_decimal, str_eq, string_of};

verus! {

/// What the engine reads of a parsed URL.
pub struct UrlParts {
    pub scheme: String,
    pub host: Option<String>,
    /// The port written in the URL; none where it is the scheme's default.
    pub port: Option<u16>,
    pub path: String,
    pub query: Option<String>,
}

/// The parts of a URL as plain values: scheme, host, port, path, query.
pub type PartsView = (Seq<char>, Option<Seq<char>>, Option<u16>, Seq<char>, Option<Seq<char>>);

/// The text of an optional string.
pub open spec fn opt_text(o: Option<String>) -> Option<Seq<char>> {
    match o {
        Some(s) => Some(s@),
        None => None,
    }
}

/// `p` as plain values.
pub open spec fn parts_view(p: UrlParts) -> PartsView {
    (p.scheme@, opt_text(p.host), p.port, p.path@, opt_text(p.query))
}

/// A parse outcome as plain values.
pub open spec fn parsed_view(r: Result<UrlParts, String>) -> Result<PartsView, Seq<char>> {
    match r {
        Ok(p) => Ok(parts_view(p)),
        Err(e) => Err(e@),
    }
}

/// What the `url` crate's `Url::parse` makes of `s`: the scheme, host, port,
/// path and query of the URL, or the text of its error.
pub uninterp spec fn url_parse(s: Seq<char>) -> Result<PartsView, Seq<char>>;

/// Calls `reqwest::Url::parse` (the `url` crate's parser) and reads the
/// scheme, host, port, path and query of the URL it gives, or the text of
/// the parse error. The outcome is named `url_parse` of the text; nothing
/// more is stated of it.
#[verifier::external_body]
fn parse_url(s: &str) -> (r: Result<UrlParts, String>)
    ensures
        parsed_view(r) == url_parse(s@),
{
    match reqwest::Url::parse(s) {
        Ok(u) => Ok(UrlParts {
            scheme: u.scheme().to_string(),
            host: u.host_str().map(str::to_string),
            port: u.port(),
            path: u.path().to_string(),
            query: u.query().map(str::to_string),
        }),
        Err(e) => Err(e.to_string()),
    }
}

/// The error of a URL that does not parse.
pub open spec fn invalid_url(e: Seq<char>) -> Seq<char> {
    "Invalid URL: "@ + e
}

/// The error of a URL without a host.
pub open spec fn missing_host() -> Seq<char> {
    "Missing host in URL"@
}

/// The address and TLS flag of a gRPC target: the host and port (the URL's
/// own port, else 443 for `https` and 80 for any other scheme), with TLS
/// for `https`.
pub open spec fn grpc_target_spec(parsed: Result<PartsView, Seq<char>>) -> Result<
    (Seq<char>, bool),
    Seq<char>,
> {
    match parsed {
        Err(e) => Err(invalid_url(e)),
        Ok(p) => match p.1 {
            None => Err(missing_host()),
            Some(h) => {
                let tls = p.0 == "https"@;
                let port: u16 = match p.2 {
                    Some(n) => n,
                    None => if tls {
                        443
                    } else {
                        80
                    },
                };
                Ok((h + ":"@ + decimal(port as nat), tls))
            },
        },
    }
}

/// A gRPC target as plain values.
pub open spec fn grpc_target_view(r: Result<(String, bool), String>) -> Result<
    (Seq<char>, bool),
    Seq<char>,
> {
    match r {
        Ok((a, t)) => Ok((a@, t)),
        Err(e) => Err(e@),
    }
}

fn invalid_url_error(e: &str) -> (s: String)
    ensures
        s@ == invalid_url(e@),
{
    let mut out: Vec<char> = Vec::new();
    extend_str(&mut out, "Invalid URL: ");
    extend_str(&mut out, e);
    string_of(out.as_slice())
}

fn missing_host_error() -> (s: String)
    ensures
        s@ == missing_host(),
{
    owned("Missing host in URL")
}

/// The gRPC target of a parse outcome (see `grpc_target_spec`).
pub fn grpc_target_of(parsed: &Result<UrlParts, String>) -> (r: Result<(String, bool), String>)
    ensures
        grpc_target_view(r) == grpc_target_spec(parsed_view(*parsed)),
{
    match parsed {
        Err(e) => Err(invalid_url_error(e.as_str())),
        Ok(p) => match &p.host {
            None => Err(missing_host_error()),
            Some(h) => {
                let tls = str_eq(p.scheme.as_str(), "https");
                let port: u16 = match p.port {
                    Some(n) => n,
                    None => if tls {
                        443
                    } else {
                        80
                    },
                };
                let mut out: Vec<char> = Vec::new();
                extend_str(&mut out, h.as_str());
                extend_str(&mut out, ":");
                push_decimal(&mut out, port as u64);
                proof {
                    reveal_strlit(":");
                }
                Ok((string_of(out.as_slice()), tls))
            },
        },
    }
}

/// Where a gRPC run connects for the target URL `url`: `host:port` and
/// whether to use TLS, or the error of a URL that does not parse or has
/// no host.
pub fn grpc_target(url: &str) -> (r: Result<(String, bool), String>)
    ensures
        grpc_target_view(r) == grpc_target_spec(url_parse(url@)),
{
    let parsed = parse_url(url);
    grpc_target_of(&parsed)
}

/// The request path of an HTTP/3 call: the URL's path and `?query` where
/// there is a query, else the path, or `/` for an empty path.
pub open spec fn request_path(path: Seq<char>, query: Option<Seq<char>>) -> Seq<char> {
    match query {
        Some(q) => path + "?"@ + q,
        None => if path.len() == 0 {
            "/"@
        } else {
            path
        },
    }
}

/// The host, port (the URL's own, else 443) and request path of an HTTP/3
/// target.
pub open spec fn http3_target_spec(parsed: Result<PartsView, Seq<char>>) -> Result<
    (Seq<char>, u16, Seq<char>),
    Seq<char>,
> {
    match parsed {
        Err(e) => Err(invalid_url(e)),
        Ok(p) => match p.1 {
            None => Err(missing_host()),
            Some(h) => {
                let port: u16 = match p.2 {
                    Some(n) => n,
                    None => 443,
                };
                Ok((h, port, request_path(p.3, p.4)))
            },
        },
    }
}

/// An HTTP/3 target as plain values.
pub open spec fn http3_target_view(r: Result<(String, u16, String), String>) -> Result<
    (Seq<char>, u16, Seq<char>),
    Seq<char>,
> {
    match r {
        Ok((h, p, path)) => Ok((h@, p, path@)),
        Err(e) => Err(e@),
    }
}

/// The HTTP/3 target of a parse outcome (see `http3_target_spec`).
pub fn http3_target_of(parsed: &Result<UrlParts, String>) -> (r: Result<(String, u16, String), String>)
    ensures
        http3_target_view(r) == http3_target_spec(parsed_view(*parsed)),
{
    match parsed {
        Err(e) => Err(invalid_url_error(e.as_str())),
        Ok(p) => match &p.host {
            None => Err(missing_host_error()),
            Some(h) => {
                let port: u16 = match p.port {
                    Some(n) => n,
                    None => 443,
                };
                let path = match &p.query {
                    Some(q) => {
                        let mut out: Vec<char> = Vec::new();
                        extend_str(&mut out, p.path.as_str());
                        extend_str(&mut out, "?");
                        extend_str(&mut out, q.as_str());
                        string_of(out.as_slice())
                    },
                    None => if p.path.as_str().unicode_len() == 0 {
                        owned("/")
                    } else {
                        owned(p.path.as_str())
                    },
                };
                Ok((owned(h.as_str()), port, path))
            },
        },
    }
}

/// Where an HTTP/3 run sends its requests for the target URL `url`: the
/// host, the port and the request path, or the error of a URL that does
/// not parse or has no host.
pub fn http3_target(url: &str) -> (r: Result<(String, u16, String), String>)
    ensures
        http3_target_view(r) == http3_target_spec(url_parse(url@)),
{
    let parsed = parse_url(url);
    http3_target_of(&parsed)
}

} // verus!
