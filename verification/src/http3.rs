//! The outcome of an HTTP/3 request, counted like any other response.
use vstd::prelude::*;

use crate::types::{ErrorKind, RequestResult};

verus! {

/// What an HTTP/3 request brought back.
#[derive(Debug, Clone)]
pub struct Http3Response {
    pub status: u16,
    pub body: Vec<u8>,
    pub latency_us: u64,
}

/// What `String::from_utf8_lossy` makes of `bytes`: the text, with each
/// invalid sequence replaced by U+FFFD.
pub uninterp spec fn utf8_lossy(bytes: Seq<u8>) -> Seq<char>;

/// Calls `String::from_utf8_lossy`; the text is named `utf8_lossy` of the
/// bytes.
#[verifier::external_body]
fn lossy_text(bytes: &[u8]) -> (s: String)
    ensures
        s@ == utf8_lossy(bytes@),
{
    String::from_utf8_lossy(bytes).to_string()
}

/// A response counts with its status, its latency, the size of its body
/// and the body read as text.
pub fn response_result(r: &Http3Response) -> (out: RequestResult)
    ensures
        out.status == Some(r.status),
        out.error is None,
        out.latency_us == r.latency_us,
        out.bytes_received == r.body@.len(),
        out.body matches Some(b) && b@ == utf8_lossy(r.body@),
{
    RequestResult {
        latency_us: r.latency_us,
        status: Some(r.status),
        error: None,
        bytes_received: r.body.len() as u64,
        body: Some(lossy_text(r.body.as_slice())),
        scheduled_at_us: None,
        started_at_us: None,
        queue_time_us: None,
    }
}

/// A request that got no response counts as a timeout when the time ran
/// out, and as another error otherwise.
pub fn failed_result(latency_us: u64, timed_out: bool) -> (out: RequestResult)
    ensures
        out.status is None,
        out.error == Some(if timed_out { ErrorKind::Timeout } else { ErrorKind::Other }),
        out.latency_us == latency_us,
        out.bytes_received == 0,
        out.body is None,
{
    let kind = if timed_out {
        ErrorKind::Timeout
    } else {
        ErrorKind::Other
    };
    RequestResult::error(latency_us, kind)
}

} // verus!
