//! What the reports say about a run besides its measurements: the target,
//! the load settings, redacted headers, the timeline, and short texts for
//! the terminal.
use vstd::prelude::*;

use crate::config::{LoadConfig, pairs_view};
use crate::text::{
    byte_prefix, chars_of, contains_seq, contains_str, decimal, extend_chars, extend_str,
    first_index, find_char, has_prefix, is_boundary, lemma_first_index, owned, push_decimal,
    slice_chars, split_spec, starts_with_str, string_of, take_bytes, to_lowercase,
    lower_text, utf8_len, utf8_len_of, last_index, lemma_last_index, rfind_char, find,
    occurs_at, eq_ignore_ascii_case, eq_ignore_ascii_case_spec, chars_eq_str,
};
use crate::types::{ErrorKind, TimelineBucket, error_kind_name};

verus! {

// ---------------------------------------------------------------------------
// Headers
// ---------------------------------------------------------------------------

/// Whether a header line carries a secret: by its name (authorization,
/// cookie, API key) or by a word anywhere in it, in any case.
pub open spec fn sensitive(line: Seq<char>) -> bool {
    let l = lower_text(line);
    has_prefix(l, "authorization:"@) || has_prefix(l, "cookie:"@) || has_prefix(l, "x-api-key:"@)
        || contains_seq(l, "token"@) || contains_seq(l, "secret"@) || contains_seq(l, "password"@)
}

/// A `Name: value` line with the value of a secret replaced.
pub open spec fn redacted(line: Seq<char>) -> Seq<char> {
    let i = first_index(line, ':');
    if sensitive(line) && i >= 0 {
        line.subrange(0, i) + ": <redacted>"@
    } else {
        line
    }
}

/// Hides the value of a header line that carries a secret.
pub fn redact_header(header: &str) -> (out: String)
    ensures
        out@ == redacted(header@),
{
    let lower = to_lowercase(header);
    let lc = chars_of(lower.as_str());
    let hc = chars_of(header);
    let secret = starts_with_str(lc.as_slice(), "authorization:") || starts_with_str(lc.as_slice(), "cookie:")
        || starts_with_str(lc.as_slice(), "x-api-key:") || contains_str(lc.as_slice(), "token")
        || contains_str(lc.as_slice(), "secret") || contains_str(lc.as_slice(), "password");
    proof {
        lemma_first_index(hc@, ':');
    }
    if secret {
        if let Some(i) = find_char(hc.as_slice(), ':') {
            let name = slice_chars(hc.as_slice(), 0, i);
            let mut out = name;
            extend_str(&mut out, ": <redacted>");
            return string_of(out.as_slice());
        }
    }
    string_of(hc.as_slice())
}

/// The report line of a header: `Name: value`, redacted.
pub fn header_line(name: &str, value: &str) -> (out: String)
    ensures
        out@ == redacted(name@ + ": "@ + value@),
{
    let mut line: Vec<char> = Vec::new();
    extend_str(&mut line, name);
    extend_str(&mut line, ": ");
    extend_str(&mut line, value);
    let l = string_of(line.as_slice());
    redact_header(l.as_str())
}

/// How the value of a header is shown when debugging a request: an
/// `authorization` value is masked, keeping its first 12 bytes when it is
/// longer than 15.
pub open spec fn masked_value(name: Seq<char>, value: Seq<char>) -> Seq<char> {
    if lower_text(name) == "authorization"@ {
        if utf8_len(value) > 15 {
            byte_prefix(value, 12) + "***"@
        } else {
            "***"@
        }
    } else {
        value
    }
}

/// The inputs on which masking would cut a character in two.
pub open spec fn mask_cuts_char(name: Seq<char>, value: Seq<char>) -> bool {
    lower_text(name) == "authorization"@ && utf8_len(value) > 15 && !is_boundary(value, 12)
}

/// Masks the value of a header for display.
pub fn mask_header_value(name: &str, value: &str) -> (out: String)
    requires
        !mask_cuts_char(name@, value@),
    ensures
        out@ == masked_value(name@, value@),
{
    proof {
        reveal_strlit("authorization");
    }
    let lower = to_lowercase(name);
    if !crate::text::str_eq(lower.as_str(), "authorization") {
        return owned(value);
    }
    let vc = chars_of(value);
    if utf8_len_of(vc.as_slice()) > 15 {
        let mut head = take_bytes(vc.as_slice(), 12);
        extend_str(&mut head, "***");
        string_of(head.as_slice())
    } else {
        owned("***")
    }
}

/// How a body that is not JSON is shown when debugging: up to 500 bytes,
/// then an ellipsis and the full size.
pub open spec fn body_preview(body: Seq<char>) -> Seq<char> {
    if utf8_len(body) > 500 {
        byte_prefix(body, 500) + "... ("@ + decimal(utf8_len(body)) + " bytes total)"@
    } else {
        body
    }
}

/// Shortens a body for display.
pub fn preview_body(body: &str) -> (out: String)
    requires
        utf8_len(body@) > 500 ==> is_boundary(body@, 500),
        utf8_len(body@) <= u64::MAX,
    ensures
        out@ == body_preview(body@),
{
    let bc = chars_of(body);
    let n = utf8_len_of(bc.as_slice());
    if n > 500 {
        let mut head = take_bytes(bc.as_slice(), 500);
        extend_str(&mut head, "... (");
        push_decimal(&mut head, n as u64);
        extend_str(&mut head, " bytes total)");
        string_of(head.as_slice())
    } else {
        string_of(bc.as_slice())
    }
}

// ---------------------------------------------------------------------------
// Targets
// ---------------------------------------------------------------------------

/// Where the authority of a URL starts: after the first `://`, or at the
/// start when there is none.
pub open spec fn authority_start(url: Seq<char>) -> int {
    if contains_seq(url, "://"@) {
        crate::config::first_occurrence(url, "://"@) + 3
    } else {
        0
    }
}

/// Where the authority that starts at `i` ends: at the first `/`, `?` or
/// `#`, or at the end of the URL.
pub open spec fn authority_end(url: Seq<char>, i: int) -> int
    decreases url.len() - i,
{
    if i < 0 || i >= url.len() {
        url.len() as int
    } else if url[i] == '/' || url[i] == '?' || url[i] == '#' {
        i
    } else {
        authority_end(url, i + 1)
    }
}

/// The host of an authority: without the user information (up to the
/// last `@`) and without the port; an IPv6 address keeps its brackets.
pub open spec fn authority_host(a: Seq<char>) -> Seq<char> {
    let rest = if last_index(a, '@') >= 0 {
        a.subrange(last_index(a, '@') + 1, a.len() as int)
    } else {
        a
    };
    if rest.len() > 0 && rest[0] == '[' {
        if first_index(rest, ']') >= 0 {
            rest.subrange(0, first_index(rest, ']') + 1)
        } else {
            rest
        }
    } else if first_index(rest, ':') >= 0 {
        rest.subrange(0, first_index(rest, ':'))
    } else {
        rest
    }
}

/// The host that a URL names.
pub open spec fn url_host(url: Seq<char>) -> Seq<char> {
    let i = authority_start(url);
    authority_host(url.subrange(i, authority_end(url, i)))
}

/// Whether a URL points at this machine: its host is `localhost` (in any
/// case), `127.0.0.1` or `[::1]`.
pub open spec fn local_url(url: Seq<char>) -> bool {
    let h = url_host(url);
    eq_ignore_ascii_case_spec(h, "localhost"@) || h == "127.0.0.1"@ || h == "[::1]"@
}

/// The end of the authority that starts at `i`.
fn find_authority_end(cs: &[char], i: usize) -> (e: usize)
    requires
        i <= cs@.len(),
    ensures
        e as int == authority_end(cs@, i as int),
        i <= e <= cs@.len(),
{
    let mut k = i;
    while k < cs.len() && cs[k] != '/' && cs[k] != '?' && cs[k] != '#'
        invariant
            i <= k <= cs@.len(),
            authority_end(cs@, k as int) == authority_end(cs@, i as int),
        decreases cs@.len() - k,
    {
        k += 1;
    }
    k
}

/// The host of the authority `a`.
fn host_in(a: &[char]) -> (h: Vec<char>)
    ensures
        h@ == authority_host(a@),
{
    proof {
        lemma_last_index(a@, '@');
    }
    let an = a.len();
    let rest = match rfind_char(a, '@') {
        Some(i) => {
            assert(a@[i as int] == '@');
            assert(i < an);
            slice_chars(a, i + 1, an)
        },
        None => slice_chars(a, 0, a.len()),
    };
    assert(a@.subrange(0, a@.len() as int) == a@);
    proof {
        lemma_first_index(rest@, ']');
        lemma_first_index(rest@, ':');
    }
    let n = rest.len();
    if n > 0 && rest[0] == '[' {
        match find_char(rest.as_slice(), ']') {
            Some(k) => slice_chars(rest.as_slice(), 0, k + 1),
            None => rest,
        }
    } else {
        match find_char(rest.as_slice(), ':') {
            Some(k) => slice_chars(rest.as_slice(), 0, k),
            None => rest,
        }
    }
}

/// Whether a URL points at this machine (no confirmation is asked then).
pub fn is_localhost(url: &str) -> (b: bool)
    ensures
        b == local_url(url@),
{
    proof {
        reveal_strlit("://");
    }
    let uc = chars_of(url);
    let sep = chars_of("://");
    let un = uc.len();
    let start: usize = match find(uc.as_slice(), sep.as_slice()) {
        Some(j) => {
            assert(occurs_at(uc@, "://"@, j as int));
            assert(j + 3 <= un);
            proof {
                assert(contains_seq(uc@, "://"@));
                let c = crate::config::first_occurrence(uc@, "://"@);
                assert(occurs_at(uc@, "://"@, c));
                if c < j {
                    assert(!occurs_at(uc@, "://"@, c));
                }
                if j < c {
                    assert(!occurs_at(uc@, "://"@, j as int));
                }
            }
            j + 3
        },
        None => 0,
    };
    let end = find_authority_end(uc.as_slice(), start);
    let a = slice_chars(uc.as_slice(), start, end);
    let h = host_in(a.as_slice());
    let local = chars_of("localhost");
    eq_ignore_ascii_case(h.as_slice(), local.as_slice()) || chars_eq_str(h.as_slice(), "127.0.0.1")
        || chars_eq_str(h.as_slice(), "[::1]")
}

/// The host part of a URL: after the scheme, up to the first `/`.
pub open spec fn host_of(url: Seq<char>) -> Seq<char> {
    let rest = if has_prefix(url, "https://"@) {
        url.subrange(8, url.len() as int)
    } else if has_prefix(url, "http://"@) {
        url.subrange(7, url.len() as int)
    } else {
        url
    };
    split_spec(rest, '/')[0]
}

/// The host part of a URL (there always is one, possibly empty).
pub fn extract_host(url: &str) -> (out: Option<String>)
    ensures
        out matches Some(h) && h@ == host_of(url@),
{
    proof {
        reveal_strlit("https://");
        reveal_strlit("http://");
    }
    let uc = chars_of(url);
    let n = uc.len();
    let rest = if starts_with_str(uc.as_slice(), "https://") {
        slice_chars(uc.as_slice(), 8, n)
    } else if starts_with_str(uc.as_slice(), "http://") {
        slice_chars(uc.as_slice(), 7, n)
    } else {
        slice_chars(uc.as_slice(), 0, n)
    };
    assert(uc@.subrange(0, n as int) == uc@);
    proof {
        lemma_first_index(rest@, '/');
    }
    let head = match find_char(rest.as_slice(), '/') {
        Some(i) => slice_chars(rest.as_slice(), 0, i),
        None => slice_chars(rest.as_slice(), 0, rest.len()),
    };
    assert(rest@.subrange(0, rest@.len() as int) == rest@);
    Some(string_of(head.as_slice()))
}

/// A text cut to `max_len` bytes for a table cell: longer texts keep
/// `max_len - 3` bytes and end in `...`.
pub open spec fn truncated(s: Seq<char>, max_len: nat) -> Seq<char> {
    if utf8_len(s) <= max_len {
        s
    } else {
        byte_prefix(s, if max_len >= 3 { (max_len - 3) as nat } else { 0 }) + "..."@
    }
}

/// Cuts a text to fit a table cell.
pub fn truncate(s: &str, max_len: usize) -> (out: String)
    requires
        utf8_len(s@) > max_len ==> is_boundary(
            s@,
            if max_len >= 3 { (max_len - 3) as nat } else { 0 },
        ),
    ensures
        out@ == truncated(s@, max_len as nat),
{
    let sc = chars_of(s);
    if utf8_len_of(sc.as_slice()) <= max_len as u128 {
        return string_of(sc.as_slice());
    }
    let keep: usize = if max_len >= 3 {
        max_len - 3
    } else {
        0
    };
    let mut head = take_bytes(sc.as_slice(), keep as u128);
    extend_str(&mut head, "...");
    string_of(head.as_slice())
}

// ---------------------------------------------------------------------------
// Report records
// ---------------------------------------------------------------------------

/// The target of a run, as reported.
pub struct Target {
    pub url: String,
    pub method: String,
    pub headers: Vec<String>,
}

/// The load settings of a run, as reported.
pub struct Load {
    pub concurrency: u32,
    pub rate: u32,
    pub ramp_up_secs: u64,
    pub warmup_secs: u64,
    pub timeout_ms: u64,
    pub load_model: Option<String>,
    pub arrival_rate: Option<u32>,
    pub max_vus: Option<u32>,
}

/// The machine a run was made from.
pub struct Environment {
    pub hostname: String,
    pub os: String,
    pub cpus: usize,
}

/// One second of the timeline, as reported.
#[derive(Debug, Clone, Copy)]
pub struct TimelineEntry {
    pub elapsed_secs: u32,
    pub requests: u64,
    pub errors: u64,
}

/// Whether the run of `c` is open (paced by an arrival rate) rather than
/// closed (paced by its workers).
pub open spec fn open_model(c: LoadConfig) -> bool {
    c.arrival_rate is Some || crate::engine::has_rate_target(c.stages@)
}

/// The reported target of a run: its URL, its method and its headers,
/// redacted.
pub fn report_target(config: &LoadConfig) -> (t: Target)
    ensures
        t.url@ == config.url@,
        t.method@ == config.method@,
        t.headers@.len() == config.headers@.len(),
        forall|i: int| 0 <= i < t.headers@.len() ==> #[trigger] t.headers@[i]@ == redacted(
            config.headers@[i].0@ + ": "@ + config.headers@[i].1@,
        ),
{
    let mut headers: Vec<String> = Vec::new();
    let mut i: usize = 0;
    while i < config.headers.len()
        invariant
            i <= config.headers@.len(),
            headers@.len() == i,
            forall|k: int| 0 <= k < i ==> #[trigger] headers@[k]@ == redacted(
                config.headers@[k].0@ + ": "@ + config.headers@[k].1@,
            ),
        decreases config.headers@.len() - i,
    {
        headers.push(header_line(config.headers[i].0.as_str(), config.headers[i].1.as_str()));
        i += 1;
    }
    Target { url: owned(config.url.as_str()), method: owned(config.method.as_str()), headers }
}

/// The reported load settings of a run: durations in whole seconds, the
/// timeout in whole milliseconds, and the load model with its parameters.
pub fn report_load(config: &LoadConfig) -> (l: Load)
    ensures
        l.concurrency == config.concurrency,
        l.rate == config.rate,
        l.ramp_up_secs == config.ramp_up_us / 1_000_000,
        l.warmup_secs == config.warmup_us / 1_000_000,
        l.timeout_ms == config.timeout_us / 1000,
        l.load_model matches Some(m) && m@ == (if open_model(*config) { "open"@ } else { "closed"@ }),
        l.arrival_rate == config.arrival_rate,
        l.max_vus == config.max_vus,
{
    let open = config.arrival_rate.is_some() || crate::engine::any_rate_target(&config.stages);
    Load {
        concurrency: config.concurrency,
        rate: config.rate,
        ramp_up_secs: config.ramp_up_us / 1_000_000,
        warmup_secs: config.warmup_us / 1_000_000,
        timeout_ms: config.timeout_us / 1000,
        load_model: Some(if open { owned("open") } else { owned("closed") }),
        arrival_rate: config.arrival_rate,
        max_vus: config.max_vus,
    }
}

/// The reported timeline.
pub fn report_timeline(timeline: &[TimelineBucket]) -> (out: Vec<TimelineEntry>)
    ensures
        out@.len() == timeline@.len(),
        forall|i: int| 0 <= i < out@.len() ==> {
            let e = #[trigger] out@[i];
            e.elapsed_secs == timeline@[i].elapsed_secs && e.requests == timeline@[i].requests
                && e.errors == timeline@[i].errors
        },
{
    let mut out: Vec<TimelineEntry> = Vec::new();
    let mut i: usize = 0;
    while i < timeline.len()
        invariant
            i <= timeline@.len(),
            out@.len() == i,
            forall|k: int| 0 <= k < i ==> {
                let e = #[trigger] out@[k];
                e.elapsed_secs == timeline@[k].elapsed_secs && e.requests == timeline@[k].requests
                    && e.errors == timeline@[k].errors
            },
        decreases timeline@.len() - i,
    {
        let b = timeline[i];
        out.push(TimelineEntry { elapsed_secs: b.elapsed_secs, requests: b.requests, errors: b.errors });
        i += 1;
    }
    out
}

/// The reported status codes: each code in decimal with its count.
pub fn report_status_codes(codes: &[(u16, u64)]) -> (out: Vec<(String, u64)>)
    ensures
        out@.len() == codes@.len(),
        forall|i: int| 0 <= i < out@.len() ==> (#[trigger] out@[i]).0@ == decimal(codes@[i].0 as nat)
            && out@[i].1 == codes@[i].1,
{
    let mut out: Vec<(String, u64)> = Vec::new();
    let mut i: usize = 0;
    while i < codes.len()
        invariant
            i <= codes@.len(),
            out@.len() == i,
            forall|k: int| 0 <= k < i ==> (#[trigger] out@[k]).0@ == decimal(codes@[k].0 as nat)
                && out@[k].1 == codes@[k].1,
        decreases codes@.len() - i,
    {
        let (code, count) = codes[i];
        out.push((crate::text::decimal_string(code as u64), count));
        i += 1;
    }
    out
}

/// The reported error counts: each kind by name with its count.
pub fn report_errors(errors: &[(ErrorKind, u64)]) -> (out: Vec<(String, u64)>)
    ensures
        out@.len() == errors@.len(),
        forall|i: int| 0 <= i < out@.len() ==> (#[trigger] out@[i]).0@ == error_kind_name(errors@[i].0)
            && out@[i].1 == errors@[i].1,
{
    let mut out: Vec<(String, u64)> = Vec::new();
    let mut i: usize = 0;
    while i < errors.len()
        invariant
            i <= errors@.len(),
            out@.len() == i,
            forall|k: int| 0 <= k < i ==> (#[trigger] out@[k]).0@ == error_kind_name(errors@[k].0)
                && out@[k].1 == errors@[k].1,
        decreases errors@.len() - i,
    {
        let (kind, count) = errors[i];
        out.push((owned(kind.as_str()), count));
        i += 1;
    }
    out
}

// ---------------------------------------------------------------------------
// Status classes
// ---------------------------------------------------------------------------

/// The class of a status code, as the views colour it.
#[derive(Debug, Clone, Copy, PartialEq, Eq, Structural)]
pub enum StatusClass {
    /// Below 300.
    Success,
    /// 300 to 399.
    Redirect,
    /// 400 to 499.
    ClientError,
    /// 500 and above.
    ServerError,
}

/// The class of `code`.
pub open spec fn class_of(code: u16) -> StatusClass {
    if code < 300 {
        StatusClass::Success
    } else if code < 400 {
        StatusClass::Redirect
    } else if code < 500 {
        StatusClass::ClientError
    } else {
        StatusClass::ServerError
    }
}

/// The class of a status code.
pub fn status_class(code: u16) -> (c: StatusClass)
    ensures
        c == class_of(code),
{
    if code < 300 {
        StatusClass::Success
    } else if code < 400 {
        StatusClass::Redirect
    } else if code < 500 {
        StatusClass::ClientError
    } else {
        StatusClass::ServerError
    }
}

} // verus!
