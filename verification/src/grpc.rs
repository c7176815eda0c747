//! gRPC calls as the engine sees them: their configuration, their outcome,
//! and how an outcome is counted like an HTTP response.
use vstd::prelude::*;

use crate::config::{copy_pairs, pairs_view, LoadConfig};
use crate::text::{copy_bytes, decimal, extend_str, owned, push_decimal, string_of};
use crate::types::{ErrorKind, RequestResult};
use vstd::utf8::encode_utf8;

verus! {

/// The kinds of gRPC methods.
#[derive(Debug, Clone, Copy, PartialEq, Eq, Structural)]
pub enum GrpcMethod {
    Unary,
    ServerStream,
    ClientStream,
    BidiStream,
}

impl Default for GrpcMethod {
    fn default() -> (m: Self)
        ensures
            m == GrpcMethod::Unary,
    {
        GrpcMethod::Unary
    }
}

/// The timeout of a gRPC call when none is configured: five seconds.
pub fn default_timeout() -> (us: u64)
    ensures
        us == 5_000_000,
{
    5_000_000
}

/// How to call a gRPC method.
#[derive(Debug, Clone)]
pub struct GrpcConfig {
    pub address: String,
    pub service: String,
    pub method: String,
    pub request: Vec<u8>,
    pub timeout_us: u64,
    pub tls: bool,
    pub insecure: bool,
    pub method_type: GrpcMethod,
    pub metadata: Vec<(String, String)>,
}

impl Default for GrpcConfig {
    fn default() -> (c: Self)
        ensures
            c.address@ == "localhost:50051"@,
            c.service@.len() == 0,
            c.method@.len() == 0,
            c.request@.len() == 0,
            c.timeout_us == 5_000_000,
            !c.tls,
            !c.insecure,
            c.method_type == GrpcMethod::Unary,
            c.metadata@.len() == 0,
    {
        let c = GrpcConfig {
            address: owned("localhost:50051"),
            service: String::new(),
            method: String::new(),
            request: Vec::new(),
            timeout_us: default_timeout(),
            tls: false,
            insecure: false,
            method_type: GrpcMethod::Unary,
            metadata: Vec::new(),
        };
        proof {
            reveal_strlit("");
        }
        c
    }
}

/// What went wrong with a gRPC call.
#[derive(Debug, Clone)]
pub enum GrpcError {
    Connect(String),
    Timeout,
    Encoding(String),
    Status(i32, String),
    Stream(String),
    Other(String),
}

/// The short name of each error.
pub open spec fn grpc_error_name(e: GrpcError) -> Seq<char> {
    match e {
        GrpcError::Connect(_) => "connect"@,
        GrpcError::Timeout => "timeout"@,
        GrpcError::Encoding(_) => "encoding"@,
        GrpcError::Status(_, _) => "status"@,
        GrpcError::Stream(_) => "stream"@,
        GrpcError::Other(_) => "other"@,
    }
}

/// The decimal text of an integer that may be negative.
pub open spec fn signed_decimal(n: i32) -> Seq<char> {
    if n < 0 {
        "-"@ + decimal((-(n as int)) as nat)
    } else {
        decimal(n as nat)
    }
}

/// The message of each error.
pub open spec fn grpc_error_message(e: GrpcError) -> Seq<char> {
    match e {
        GrpcError::Connect(m) => "connect error: "@ + m@,
        GrpcError::Timeout => "timeout"@,
        GrpcError::Encoding(m) => "encoding error: "@ + m@,
        GrpcError::Status(c, m) => "status "@ + signed_decimal(c) + ": "@ + m@,
        GrpcError::Stream(m) => "stream error: "@ + m@,
        GrpcError::Other(m) => m@,
    }
}

impl GrpcError {
    /// The short name of this error.
    pub fn as_str(&self) -> (s: &'static str)
        ensures
            s@ == grpc_error_name(*self),
    {
        match self {
            GrpcError::Connect(_) => "connect",
            GrpcError::Timeout => "timeout",
            GrpcError::Encoding(_) => "encoding",
            GrpcError::Status(_, _) => "status",
            GrpcError::Stream(_) => "stream",
            GrpcError::Other(_) => "other",
        }
    }

    /// The message of this error.
    pub fn message(&self) -> (s: String)
        ensures
            s@ == grpc_error_message(*self),
    {
        let mut out: Vec<char> = Vec::new();
        match self {
            GrpcError::Connect(m) => {
                extend_str(&mut out, "connect error: ");
                extend_str(&mut out, m.as_str());
            },
            GrpcError::Timeout => {
                extend_str(&mut out, "timeout");
            },
            GrpcError::Encoding(m) => {
                extend_str(&mut out, "encoding error: ");
                extend_str(&mut out, m.as_str());
            },
            GrpcError::Status(c, m) => {
                extend_str(&mut out, "status ");
                if *c < 0 {
                    extend_str(&mut out, "-");
                    let magnitude: u64 = if *c == i32::MIN {
                        2147483648
                    } else {
                        (-*c) as u64
                    };
                    push_decimal(&mut out, magnitude);
                } else {
                    push_decimal(&mut out, *c as u64);
                }
                extend_str(&mut out, ": ");
                extend_str(&mut out, m.as_str());
            },
            GrpcError::Stream(m) => {
                extend_str(&mut out, "stream error: ");
                extend_str(&mut out, m.as_str());
            },
            GrpcError::Other(m) => {
                extend_str(&mut out, m.as_str());
            },
        }
        string_of(out.as_slice())
    }
}

/// The outcome of a gRPC call.
#[derive(Debug, Clone)]
pub struct GrpcResult {
    pub latency_us: u64,
    pub status_code: i32,
    pub status_message: Option<String>,
    pub responses: Vec<String>,
    pub response_count: u64,
    pub bytes_received: u64,
    pub error: Option<GrpcError>,
}

/// The outcome of a call that failed with `e` after `latency_us`.
pub fn failed_call(latency_us: u64, e: GrpcError) -> (r: GrpcResult)
    ensures
        r.latency_us == latency_us,
        r.status_code == -1,
        r.status_message is None,
        r.responses@.len() == 0,
        r.response_count == 0,
        r.bytes_received == 0,
        r.error == Some(e),
{
    GrpcResult {
        latency_us,
        status_code: -1,
        status_message: None,
        responses: Vec::new(),
        response_count: 0,
        bytes_received: 0,
        error: Some(e),
    }
}

/// The HTTP-like status of a call: none for a failed call, 200 for OK,
/// else 500 plus the gRPC code (clamped to the codes 0 to 16).
pub open spec fn grpc_status(r: GrpcResult) -> Option<u16> {
    if r.error is Some {
        None
    } else if r.status_code == 0 {
        Some(200)
    } else {
        let c: int = if r.status_code < 0 {
            0
        } else if r.status_code > 16 {
            16
        } else {
            r.status_code as int
        };
        Some((500 + c) as u16)
    }
}

/// The error kind of a failed call: connect and timeout errors keep their
/// kind, every other is `Other`.
pub open spec fn grpc_error_kind(e: Option<GrpcError>) -> Option<ErrorKind> {
    match e {
        Some(GrpcError::Connect(_)) => Some(ErrorKind::Connect),
        Some(GrpcError::Timeout) => Some(ErrorKind::Timeout),
        Some(_) => Some(ErrorKind::Other),
        None => None,
    }
}

/// Counts a gRPC call like an HTTP response: its status, latency, bytes,
/// error kind and first response message.
pub fn to_request_result(r: &GrpcResult) -> (out: RequestResult)
    ensures
        out.status == grpc_status(*r),
        out.latency_us == r.latency_us,
        out.bytes_received == r.bytes_received,
        out.error == grpc_error_kind(r.error),
        match out.body {
            Some(b) => r.responses@.len() > 0 && b@ == r.responses@[0]@,
            None => r.responses@.len() == 0,
        },
{
    let status: Option<u16> = if r.error.is_some() {
        None
    } else if r.status_code == 0 {
        Some(200)
    } else {
        let c: u16 = if r.status_code < 0 {
            0
        } else if r.status_code > 16 {
            16
        } else {
            r.status_code as u16
        };
        Some(500 + c)
    };
    let error = match &r.error {
        Some(GrpcError::Connect(_)) => Some(ErrorKind::Connect),
        Some(GrpcError::Timeout) => Some(ErrorKind::Timeout),
        Some(_) => Some(ErrorKind::Other),
        None => None,
    };
    let body = if r.responses.len() > 0 {
        Some(owned(r.responses[0].as_str()))
    } else {
        None
    };
    RequestResult {
        latency_us: r.latency_us,
        status,
        error,
        bytes_received: r.bytes_received,
        body,
        scheduled_at_us: None,
        started_at_us: None,
        queue_time_us: None,
    }
}

/// The message sent by each call of a gRPC run: the binary body where
/// there is one, else the UTF-8 bytes of the text body, else nothing.
pub open spec fn request_bytes(c: LoadConfig) -> Seq<u8> {
    match c.body_bytes {
        Some(b) => b@,
        None => match c.body {
            Some(s) => encode_utf8(s@),
            None => Seq::empty(),
        },
    }
}

/// The error of a gRPC run without a service.
pub open spec fn no_service() -> Seq<char> {
    "gRPC service not specified"@
}

/// The error of a gRPC run without a method.
pub open spec fn no_method() -> Seq<char> {
    "gRPC method not specified"@
}

/// How each call of a gRPC run is made, for the run's configuration and
/// the target's address and TLS flag: the configured service and method,
/// the message of `request_bytes`, the run's timeout, its headers as
/// metadata, and a unary call. A run without a service, or else without a
/// method, is refused.
pub fn grpc_call_config(config: &LoadConfig, address: &str, tls: bool) -> (r: Result<GrpcConfig, String>)
    ensures
        match r {
            Ok(g) => {
                &&& config.grpc_service matches Some(s) && g.service@ == s@
                &&& config.grpc_method matches Some(m) && g.method@ == m@
                &&& g.address@ == address@
                &&& g.request@ == request_bytes(*config)
                &&& g.timeout_us == config.timeout_us
                &&& g.tls == tls
                &&& g.insecure == config.insecure
                &&& g.method_type == GrpcMethod::Unary
                &&& pairs_view(g.metadata@) == pairs_view(config.headers@)
            },
            Err(e) => {
                ||| config.grpc_service is None && e@ == no_service()
                ||| config.grpc_service is Some && config.grpc_method is None && e@ == no_method()
            },
        },
{
    let service = match &config.grpc_service {
        Some(s) => owned(s.as_str()),
        None => return Err(owned("gRPC service not specified")),
    };
    let method = match &config.grpc_method {
        Some(m) => owned(m.as_str()),
        None => return Err(owned("gRPC method not specified")),
    };
    let request = match &config.body_bytes {
        Some(b) => copy_bytes(b.as_slice()),
        None => match &config.body {
            Some(s) => copy_bytes(s.as_str().as_bytes()),
            None => Vec::new(),
        },
    };
    Ok(GrpcConfig {
        address: owned(address),
        service,
        method,
        request,
        timeout_us: config.timeout_us,
        tls,
        insecure: config.insecure,
        method_type: GrpcMethod::Unary,
        metadata: copy_pairs(&config.headers),
    })
}

} // verus!
