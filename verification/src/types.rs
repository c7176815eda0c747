//! Core value types shared by the engine, the configuration and the reports.
use vstd::prelude::*;

use crate::text::{contains_seq, contains_str, chars_of, has_prefix, last_index, parse_unsigned, parse_unsigned_spec, slice_chars, starts_with_str, string_of, rfind_char, lemma_last_index};

verus! {

// ---------------------------------------------------------------------------
// Stages
// ---------------------------------------------------------------------------

/// One phase of a staged load profile: ramp to `target` workers or to
/// `target_rate` requests per second over `duration_us` microseconds.
#[derive(Debug, Clone, Copy)]
pub struct Stage {
    pub duration_us: u64,
    pub target: Option<u32>,
    pub target_rate: Option<u32>,
}

// ---------------------------------------------------------------------------
// Thresholds
// ---------------------------------------------------------------------------

/// A metric that a threshold can constrain.
#[derive(Debug, Clone, Copy, PartialEq, Eq, Structural)]
pub enum ThresholdMetric {
    P50LatencyMs,
    P75LatencyMs,
    P90LatencyMs,
    P95LatencyMs,
    P99LatencyMs,
    P999LatencyMs,
    MeanLatencyMs,
    MaxLatencyMs,
    ErrorRate,
    Rps,
    CheckPassRate,
}

/// The configuration key of each threshold metric.
pub open spec fn metric_name(m: ThresholdMetric) -> Seq<char> {
    match m {
        ThresholdMetric::P50LatencyMs => "p50_latency_ms"@,
        ThresholdMetric::P75LatencyMs => "p75_latency_ms"@,
        ThresholdMetric::P90LatencyMs => "p90_latency_ms"@,
        ThresholdMetric::P95LatencyMs => "p95_latency_ms"@,
        ThresholdMetric::P99LatencyMs => "p99_latency_ms"@,
        ThresholdMetric::P999LatencyMs => "p999_latency_ms"@,
        ThresholdMetric::MeanLatencyMs => "mean_latency_ms"@,
        ThresholdMetric::MaxLatencyMs => "max_latency_ms"@,
        ThresholdMetric::ErrorRate => "error_rate"@,
        ThresholdMetric::Rps => "rps"@,
        ThresholdMetric::CheckPassRate => "check_pass_rate"@,
    }
}

impl ThresholdMetric {
    /// The configuration key of this metric.
    pub fn as_str(&self) -> (s: &'static str)
        ensures
            s@ == metric_name(*self),
    {
        match self {
            ThresholdMetric::P50LatencyMs => "p50_latency_ms",
            ThresholdMetric::P75LatencyMs => "p75_latency_ms",
            ThresholdMetric::P90LatencyMs => "p90_latency_ms",
            ThresholdMetric::P95LatencyMs => "p95_latency_ms",
            ThresholdMetric::P99LatencyMs => "p99_latency_ms",
            ThresholdMetric::P999LatencyMs => "p999_latency_ms",
            ThresholdMetric::MeanLatencyMs => "mean_latency_ms",
            ThresholdMetric::MaxLatencyMs => "max_latency_ms",
            ThresholdMetric::ErrorRate => "error_rate",
            ThresholdMetric::Rps => "rps",
            ThresholdMetric::CheckPassRate => "check_pass_rate",
        }
    }
}

/// A comparison operator of a threshold.
#[derive(Debug, Clone, Copy, PartialEq, Eq, Structural)]
pub enum ThresholdOp {
    Lt,
    Lte,
    Gt,
    Gte,
    Eq,
}

/// The symbol of each operator.
pub open spec fn op_symbol(op: ThresholdOp) -> Seq<char> {
    match op {
        ThresholdOp::Lt => "<"@,
        ThresholdOp::Lte => "<="@,
        ThresholdOp::Gt => ">"@,
        ThresholdOp::Gte => ">="@,
        ThresholdOp::Eq => "=="@,
    }
}

impl ThresholdOp {
    /// The symbol of this operator.
    pub fn as_str(&self) -> (s: &'static str)
        ensures
            s@ == op_symbol(*self),
    {
        match self {
            ThresholdOp::Lt => "<",
            ThresholdOp::Lte => "<=",
            ThresholdOp::Gt => ">",
            ThresholdOp::Gte => ">=",
            ThresholdOp::Eq => "==",
        }
    }
}

/// Pass/fail counts of one named check.
#[derive(Debug, Clone, Default)]
pub struct CheckStats {
    pub total: u64,
    pub passed: u64,
    pub failed: u64,
}

// ---------------------------------------------------------------------------
// Errors and request results
// ---------------------------------------------------------------------------

/// The class of a failed request.
#[derive(Debug, Clone, Copy, PartialEq, Eq, Structural, Hash)]
pub enum ErrorKind {
    Timeout,
    Dns,
    Connect,
    Tls,
    Refused,
    Reset,
    Http,
    Body,
    Other,
}

/// The report name of each error kind.
pub open spec fn error_kind_name(k: ErrorKind) -> Seq<char> {
    match k {
        ErrorKind::Timeout => "timeout"@,
        ErrorKind::Dns => "dns"@,
        ErrorKind::Connect => "connect"@,
        ErrorKind::Tls => "tls"@,
        ErrorKind::Refused => "refused"@,
        ErrorKind::Reset => "reset"@,
        ErrorKind::Http => "http"@,
        ErrorKind::Body => "body"@,
        ErrorKind::Other => "other"@,
    }
}

/// A dense index for each error kind, in declaration order.
pub open spec fn error_kind_index(k: ErrorKind) -> nat {
    match k {
        ErrorKind::Timeout => 0,
        ErrorKind::Dns => 1,
        ErrorKind::Connect => 2,
        ErrorKind::Tls => 3,
        ErrorKind::Refused => 4,
        ErrorKind::Reset => 5,
        ErrorKind::Http => 6,
        ErrorKind::Body => 7,
        ErrorKind::Other => 8,
    }
}

impl ErrorKind {
    /// The report name of this error kind.
    pub fn as_str(&self) -> (s: &'static str)
        ensures
            s@ == error_kind_name(*self),
    {
        match self {
            ErrorKind::Timeout => "timeout",
            ErrorKind::Dns => "dns",
            ErrorKind::Connect => "connect",
            ErrorKind::Tls => "tls",
            ErrorKind::Refused => "refused",
            ErrorKind::Reset => "reset",
            ErrorKind::Http => "http",
            ErrorKind::Body => "body",
            ErrorKind::Other => "other",
        }
    }

    /// The dense index of this error kind.
    pub fn index(&self) -> (i: usize)
        ensures
            i == error_kind_index(*self),
            i < 9,
    {
        match self {
            ErrorKind::Timeout => 0,
            ErrorKind::Dns => 1,
            ErrorKind::Connect => 2,
            ErrorKind::Tls => 3,
            ErrorKind::Refused => 4,
            ErrorKind::Reset => 5,
            ErrorKind::Http => 6,
            ErrorKind::Body => 7,
            ErrorKind::Other => 8,
        }
    }
}

#[verifier::external_type_specification]
#[verifier::external_body]
pub struct ExReqwestError(reqwest::Error);

/// Calls `reqwest::Error::is_timeout`; nothing is stated of the opaque
/// error.
#[verifier::external_body]
fn reqwest_is_timeout(e: &reqwest::Error) -> bool {
    e.is_timeout()
}

/// Calls `reqwest::Error::is_connect`; nothing is stated of the opaque
/// error.
#[verifier::external_body]
fn reqwest_is_connect(e: &reqwest::Error) -> bool {
    e.is_connect()
}

/// Calls `reqwest::Error::is_request`; nothing is stated of the opaque
/// error.
#[verifier::external_body]
fn reqwest_is_request(e: &reqwest::Error) -> bool {
    e.is_request()
}

/// Calls `reqwest::Error::is_body`; nothing is stated of the opaque error.
#[verifier::external_body]
fn reqwest_is_body(e: &reqwest::Error) -> bool {
    e.is_body()
}

/// The `Display` text of a `reqwest::Error`; nothing is stated of it.
#[verifier::external_body]
fn reqwest_error_text(e: &reqwest::Error) -> String {
    e.to_string()
}

/// What the classification of a failed HTTP request reads of its error.
#[derive(Debug, Clone)]
pub struct HttpErrorFacts {
    /// The request timed out.
    pub timeout: bool,
    /// The connection could not be made.
    pub connect: bool,
    /// Sending the request failed.
    pub request: bool,
    /// Reading the body failed.
    pub body: bool,
    /// The error's text.
    pub message: String,
}

/// The kind of a failed request: a timeout first; a failed connection by
/// what its text mentions (name resolution, a refusal, a reset); then a
/// failed send, a failed body, and a TLS or certificate problem by its
/// text.
pub open spec fn http_error_kind(f: HttpErrorFacts) -> ErrorKind {
    let m = f.message@;
    if f.timeout {
        ErrorKind::Timeout
    } else if f.connect {
        if contains_seq(m, "dns"@) || contains_seq(m, "resolve"@) {
            ErrorKind::Dns
        } else if contains_seq(m, "refused"@) {
            ErrorKind::Refused
        } else if contains_seq(m, "reset"@) {
            ErrorKind::Reset
        } else {
            ErrorKind::Connect
        }
    } else if f.request {
        ErrorKind::Http
    } else if f.body {
        ErrorKind::Body
    } else if contains_seq(m, "tls"@) || contains_seq(m, "certificate"@) {
        ErrorKind::Tls
    } else {
        ErrorKind::Other
    }
}

impl ErrorKind {
    /// The kind of a failed request, from what its error says of itself.
    pub fn classify(f: &HttpErrorFacts) -> (k: ErrorKind)
        ensures
            k == http_error_kind(*f),
    {
        let m = chars_of(f.message.as_str());
        if f.timeout {
            ErrorKind::Timeout
        } else if f.connect {
            if contains_str(m.as_slice(), "dns") || contains_str(m.as_slice(), "resolve") {
                ErrorKind::Dns
            } else if contains_str(m.as_slice(), "refused") {
                ErrorKind::Refused
            } else if contains_str(m.as_slice(), "reset") {
                ErrorKind::Reset
            } else {
                ErrorKind::Connect
            }
        } else if f.request {
            ErrorKind::Http
        } else if f.body {
            ErrorKind::Body
        } else if contains_str(m.as_slice(), "tls") || contains_str(m.as_slice(), "certificate") {
            ErrorKind::Tls
        } else {
            ErrorKind::Other
        }
    }

    /// The kind of a `reqwest` error: its classification from what the
    /// error reports of itself (timeout, connect, request, body) and from
    /// its text.
    pub fn from_reqwest_error(err: &reqwest::Error) -> ErrorKind {
        let f = HttpErrorFacts {
            timeout: reqwest_is_timeout(err),
            connect: reqwest_is_connect(err),
            request: reqwest_is_request(err),
            body: reqwest_is_body(err),
            message: reqwest_error_text(err),
        };
        ErrorKind::classify(&f)
    }
}

/// The outcome of one request.
#[derive(Debug, Clone)]
pub struct RequestResult {
    pub latency_us: u64,
    pub status: Option<u16>,
    pub error: Option<ErrorKind>,
    pub bytes_received: u64,
    pub body: Option<String>,
    /// When the iteration was due, for latency correction.
    pub scheduled_at_us: Option<u64>,
    /// When the request started.
    pub started_at_us: Option<u64>,
    /// How long the iteration waited for a free virtual user.
    pub queue_time_us: Option<u64>,
}

/// The time an iteration waited between being due and starting (none
/// when the clock reads an earlier start).
pub open spec fn queue_time(scheduled_at_us: u64, started_at_us: u64) -> u64 {
    if started_at_us >= scheduled_at_us {
        (started_at_us - scheduled_at_us) as u64
    } else {
        0
    }
}

/// The latency of a result without its queue time: the time the server
/// took. A result without timing is its latency.
pub open spec fn corrected_latency(r: RequestResult) -> u64 {
    match r.queue_time_us {
        Some(q) => if r.latency_us >= q {
            (r.latency_us - q) as u64
        } else {
            0
        },
        None => r.latency_us,
    }
}

/// A response with a status below 400 counts as a success.
pub open spec fn result_is_success(r: RequestResult) -> bool {
    match r.status {
        Some(s) => s < 400,
        None => false,
    }
}

/// A transport error, or a status of 400 or more, counts as an error.
pub open spec fn result_is_error(r: RequestResult) -> bool {
    r.error is Some || match r.status {
        Some(s) => s >= 400,
        None => false,
    }
}

impl RequestResult {
    /// A result for a response that arrived with `status`.
    pub fn success(latency_us: u64, status: u16, bytes_received: u64, body: Option<String>) -> (r:
        Self)
        ensures
            r.latency_us == latency_us,
            r.status == Some(status),
            r.error is None,
            r.bytes_received == bytes_received,
            r.body == body,
            r.scheduled_at_us is None,
            r.started_at_us is None,
            r.queue_time_us is None,
    {
        RequestResult {
            latency_us,
            status: Some(status),
            error: None,
            bytes_received,
            body,
            scheduled_at_us: None,
            started_at_us: None,
            queue_time_us: None,
        }
    }

    /// A result for a request that failed with `kind` before any response.
    pub fn error(latency_us: u64, kind: ErrorKind) -> (r: Self)
        ensures
            r.latency_us == latency_us,
            r.status is None,
            r.error == Some(kind),
            r.bytes_received == 0,
            r.body is None,
            r.scheduled_at_us is None,
            r.started_at_us is None,
            r.queue_time_us is None,
    {
        RequestResult {
            latency_us,
            status: None,
            error: Some(kind),
            bytes_received: 0,
            body: None,
            scheduled_at_us: None,
            started_at_us: None,
            queue_time_us: None,
        }
    }

    /// The result of an iteration that was due at `scheduled_at_us` and
    /// started at `started_at_us`: the wait between is its queue time, and
    /// its latency becomes the whole time from when it was due (the queue
    /// time and the time the request took, at most the largest `u64`).
    pub fn with_timing(self, scheduled_at_us: u64, started_at_us: u64) -> (r: Self)
        ensures
            r.scheduled_at_us == Some(scheduled_at_us),
            r.started_at_us == Some(started_at_us),
            r.queue_time_us == Some(queue_time(scheduled_at_us, started_at_us)),
            r.latency_us == (if self.latency_us + queue_time(scheduled_at_us, started_at_us) <= u64::MAX {
                (self.latency_us + queue_time(scheduled_at_us, started_at_us)) as u64
            } else {
                u64::MAX
            }),
            r.status == self.status,
            r.error == self.error,
            r.bytes_received == self.bytes_received,
            r.body == self.body,
    {
        let queue: u64 = if started_at_us >= scheduled_at_us {
            started_at_us - scheduled_at_us
        } else {
            0
        };
        RequestResult {
            latency_us: self.latency_us.saturating_add(queue),
            status: self.status,
            error: self.error,
            bytes_received: self.bytes_received,
            body: self.body,
            scheduled_at_us: Some(scheduled_at_us),
            started_at_us: Some(started_at_us),
            queue_time_us: Some(queue),
        }
    }

    /// The latency without the queue time (see `corrected_latency`).
    pub fn corrected_latency_us(&self) -> (l: u64)
        ensures
            l == corrected_latency(*self),
    {
        match self.queue_time_us {
            Some(q) => if self.latency_us >= q {
                self.latency_us - q
            } else {
                0
            },
            None => self.latency_us,
        }
    }

    /// Whether the response status is below 400.
    pub fn is_success(&self) -> (b: bool)
        ensures
            b == result_is_success(*self),
    {
        match self.status {
            Some(s) => s < 400,
            None => false,
        }
    }

    /// Whether the request failed or got a status of 400 or more.
    pub fn is_error(&self) -> (b: bool)
        ensures
            b == result_is_error(*self),
    {
        self.error.is_some() || match self.status {
            Some(s) => s >= 400,
            None => false,
        }
    }
}

/// A result built by `RequestResult::success` or `RequestResult::error` is
/// exactly one of a success and an error.
pub proof fn lemma_success_error_exclusive(r: RequestResult)
    requires
        (r.status is Some && r.error is None) || (r.status is None && r.error is Some),
    ensures
        result_is_success(r) != result_is_error(r),
{
}

/// Requests and errors seen in one second of the run.
#[derive(Debug, Clone, Copy, Default)]
pub struct TimelineBucket {
    pub elapsed_secs: u32,
    pub requests: u64,
    pub errors: u64,
}

// ---------------------------------------------------------------------------
// Extraction
// ---------------------------------------------------------------------------

/// A value taken from a response and bound to a variable name.
#[derive(Debug, Clone)]
pub struct Extraction {
    pub name: String,
    pub source: ExtractionSource,
}

/// Where an extracted value comes from.
#[derive(Debug, Clone)]
pub enum ExtractionSource {
    JsonPath(String),
    Header(String),
    Regex(String, usize),
    Body,
}

/// The abstract value of an extraction source.
pub enum SourceSpec {
    JsonPath(Seq<char>),
    Header(Seq<char>),
    Regex(Seq<char>, nat),
    Body,
}

/// The abstract value of `src`.
pub open spec fn source_view(src: ExtractionSource) -> SourceSpec {
    match src {
        ExtractionSource::JsonPath(p) => SourceSpec::JsonPath(p@),
        ExtractionSource::Header(h) => SourceSpec::Header(h@),
        ExtractionSource::Regex(p, g) => SourceSpec::Regex(p@, g as nat),
        ExtractionSource::Body => SourceSpec::Body,
    }
}

/// What `ExtractionSource::parse` accepts, and what it makes of it:
/// `json:PATH`, `header:NAME`, `regex:PATTERN:GROUP` (the group after the
/// last colon, which must be a number), `regex:PATTERN` (group 0) or `body`.
pub open spec fn parse_source_spec(s: Seq<char>) -> Option<SourceSpec> {
    if has_prefix(s, "json:"@) {
        Some(SourceSpec::JsonPath(s.subrange(5, s.len() as int)))
    } else if has_prefix(s, "header:"@) {
        Some(SourceSpec::Header(s.subrange(7, s.len() as int)))
    } else if has_prefix(s, "regex:"@) {
        let rest = s.subrange(6, s.len() as int);
        let k = last_index(rest, ':');
        if k >= 0 {
            match parse_unsigned_spec(rest.subrange(k + 1, rest.len() as int), usize::MAX as nat) {
                Some(g) => Some(SourceSpec::Regex(rest.subrange(0, k), g)),
                None => None,
            }
        } else {
            Some(SourceSpec::Regex(rest, 0))
        }
    } else if s == "body"@ {
        Some(SourceSpec::Body)
    } else {
        None
    }
}

/// The message of `ExtractionSource::parse` for a text it refuses.
pub open spec fn source_error(s: Seq<char>) -> Seq<char> {
    if has_prefix(s, "regex:"@) {
        "Invalid regex group number"@
    } else {
        "Unknown extraction source: '"@ + s + "'. Expected json:, header:, regex:, or body"@
    }
}

impl ExtractionSource {
    /// Parses an extraction source from its configuration text.
    pub fn parse(s: &str) -> (r: Result<Self, String>)
        ensures
            match parse_source_spec(s@) {
                Some(v) => r matches Ok(src) && source_view(src) == v,
                None => r matches Err(m) && m@ == source_error(s@),
            },
    {
        proof {
            reveal_strlit("json:");
            reveal_strlit("header:");
            reveal_strlit("regex:");
            reveal_strlit("body");
        }
        let cs = chars_of(s);
        let n = cs.len();
        if starts_with_str(cs.as_slice(), "json:") {
            let rest = slice_chars(cs.as_slice(), 5, n);
            return Ok(ExtractionSource::JsonPath(string_of(rest.as_slice())));
        }
        if starts_with_str(cs.as_slice(), "header:") {
            let rest = slice_chars(cs.as_slice(), 7, n);
            return Ok(ExtractionSource::Header(string_of(rest.as_slice())));
        }
        if starts_with_str(cs.as_slice(), "regex:") {
            let rest = slice_chars(cs.as_slice(), 6, n);
            proof {
                lemma_last_index(rest@, ':');
            }
            match rfind_char(rest.as_slice(), ':') {
                Some(k) => {
                    let group_text = slice_chars(rest.as_slice(), k + 1, rest.len());
                    match parse_unsigned(group_text.as_slice(), usize::MAX as u64) {
                        Some(g) => {
                            let pattern = slice_chars(rest.as_slice(), 0, k);
                            return Ok(ExtractionSource::Regex(string_of(pattern.as_slice()), g as usize));
                        },
                        None => {
                            return Err(crate::text::owned("Invalid regex group number"));
                        },
                    }
                },
                None => {
                    return Ok(ExtractionSource::Regex(string_of(rest.as_slice()), 0));
                },
            }
        }
        if crate::text::chars_eq_str(cs.as_slice(), "body") {
            return Ok(ExtractionSource::Body);
        }
        let mut msg: Vec<char> = Vec::new();
        crate::text::extend_str(&mut msg, "Unknown extraction source: '");
        crate::text::extend_chars(&mut msg, cs.as_slice());
        crate::text::extend_str(&mut msg, "'. Expected json:, header:, regex:, or body");
        Err(string_of(msg.as_slice()))
    }
}

// ---------------------------------------------------------------------------
// Run state
// ---------------------------------------------------------------------------

/// Whether measurements are being discarded (warmup) or kept.
#[derive(Debug, Clone, Copy, PartialEq, Eq, Structural)]
pub enum RunPhase {
    Warmup,
    Running,
}

/// The life cycle of a load test.
#[derive(Debug, Clone, Copy, PartialEq, Eq, Structural)]
pub enum RunState {
    Initializing,
    Running,
    Paused,
    Stopping,
    Completed,
    Cancelled,
    Error,
}

/// The states after which a run does not continue.
pub open spec fn state_is_terminal(s: RunState) -> bool {
    s is Completed || s is Cancelled || s is Error
}

impl RunState {
    /// Whether the run has ended.
    pub fn is_terminal(&self) -> (b: bool)
        ensures
            b == state_is_terminal(*self),
    {
        match self {
            RunState::Completed | RunState::Cancelled | RunState::Error => true,
            _ => false,
        }
    }
}

} // verus!
