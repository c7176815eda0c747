//! Import of HTTP Archive (HAR) files exported by browser developer tools
//! into a TOML configuration.
//!
//! The caller reads and decodes the file; here the entries are filtered,
//! grouped and written out as configuration text.
use vstd::prelude::*;

use crate::config::{ImportArgs, ImportFormat};
use crate::pattern::{regex_compile_error, regex_is_match, Pattern};
use crate::text::{
    chars_of, contains_seq, contains_str, decimal, extend_chars, extend_str, first_index, has_prefix,
    lemma_first_index, owned, push_decimal, slice_chars, starts_with_str, string_of, to_lowercase,
    lower_text, find_char,
};

verus! {

// ---------------------------------------------------------------------------
// The HAR document
// ---------------------------------------------------------------------------

/// A HAR document.
pub struct HarFile {
    pub log: HarLog,
}

/// The log of a HAR document.
pub struct HarLog {
    pub entries: Vec<HarEntry>,
}

/// One recorded exchange.
pub struct HarEntry {
    pub request: HarRequest,
    pub response: Option<HarResponse>,
}

/// A recorded request.
pub struct HarRequest {
    pub method: String,
    pub url: String,
    pub headers: Vec<HarHeader>,
    pub post_data: Option<HarPostData>,
}

/// A recorded header.
pub struct HarHeader {
    pub name: String,
    pub value: String,
}

/// A recorded request body.
pub struct HarPostData {
    pub text: Option<String>,
    pub mime_type: Option<String>,
}

/// A recorded response.
pub struct HarResponse {
    pub status: u16,
}

// ---------------------------------------------------------------------------
// Text helpers
// ---------------------------------------------------------------------------

/// The URL without its query: the text before the first `?`.
pub open spec fn normalize_spec(url: Seq<char>) -> Seq<char> {
    let i = first_index(url, '?');
    if i >= 0 {
        url.subrange(0, i)
    } else {
        url
    }
}

/// Drops the query of a URL, so that requests differing only in their
/// query parameters group together.
pub fn normalize_url(url: &str) -> (out: String)
    ensures
        out@ == normalize_spec(url@),
{
    let cs = chars_of(url);
    proof {
        lemma_first_index(cs@, '?');
    }
    match find_char(cs.as_slice(), '?') {
        Some(i) => {
            let head = slice_chars(cs.as_slice(), 0, i);
            string_of(head.as_slice())
        },
        None => string_of(cs.as_slice()),
    }
}

/// The escape of one character in a TOML basic string.
pub open spec fn escape_char(c: char) -> Seq<char> {
    if c == '\\' {
        seq!['\\', '\\']
    } else if c == '"' {
        seq!['\\', '"']
    } else if c == '\n' {
        seq!['\\', 'n']
    } else if c == '\r' {
        seq!['\\', 'r']
    } else if c == '\t' {
        seq!['\\', 't']
    } else {
        seq![c]
    }
}

/// `s` with backslashes, double quotes, line feeds, carriage returns and
/// tabs escaped.
pub open spec fn escape_spec(s: Seq<char>) -> Seq<char>
    decreases s.len(),
{
    if s.len() == 0 {
        Seq::empty()
    } else {
        escape_spec(s.drop_last()) + escape_char(s.last())
    }
}

/// Appends the escape of `cs` to `out`.
fn push_escaped(out: &mut Vec<char>, cs: &[char])
    ensures
        final(out)@ == old(out)@ + escape_spec(cs@),
{
    let ghost start = out@;
    let mut i: usize = 0;
    while i < cs.len()
        invariant
            i <= cs@.len(),
            out@ == start + escape_spec(cs@.take(i as int)),
        decreases cs@.len() - i,
    {
        let c = cs[i];
        let ghost before = out@;
        if c == '\\' {
            out.push('\\');
            out.push('\\');
        } else if c == '"' {
            out.push('\\');
            out.push('"');
        } else if c == '\n' {
            out.push('\\');
            out.push('n');
        } else if c == '\r' {
            out.push('\\');
            out.push('r');
        } else if c == '\t' {
            out.push('\\');
            out.push('t');
        } else {
            out.push(c);
        }
        proof {
            assert(cs@.take(i + 1).drop_last() == cs@.take(i as int));
            assert(cs@.take(i + 1).last() == c);
            assert(out@ == before + escape_char(c));
        }
        i += 1;
    }
    assert(cs@.take(cs@.len() as int) == cs@);
}

/// Escapes text for a TOML basic string.
pub fn escape_toml(s: &str) -> (out: String)
    ensures
        out@ == escape_spec(s@),
{
    let cs = chars_of(s);
    let mut out: Vec<char> = Vec::new();
    push_escaped(&mut out, cs.as_slice());
    string_of(out.as_slice())
}

/// A header name as a quoted TOML key.
pub open spec fn header_key_spec(name: Seq<char>) -> Seq<char> {
    seq!['"'] + escape_spec(name) + seq!['"']
}

/// Quotes a header name for use as a TOML key.
pub fn format_header_key(name: &str) -> (out: String)
    ensures
        out@ == header_key_spec(name@),
{
    let cs = chars_of(name);
    let mut out: Vec<char> = Vec::new();
    out.push('"');
    push_escaped(&mut out, cs.as_slice());
    out.push('"');
    string_of(out.as_slice())
}

/// The `body = ...` line of a request body: a literal multi-line string,
/// unless the text holds `'''`, then an escaped basic string.
pub open spec fn body_line_spec(text: Seq<char>) -> Seq<char> {
    if contains_seq(text, "'''"@) {
        "body = \""@ + escape_spec(text) + "\"\n"@
    } else {
        "body = '''\n"@ + text + "'''\n"@
    }
}

/// Writes the `body = ...` line of a request body.
pub fn format_body(text: &str) -> (out: String)
    ensures
        out@ == body_line_spec(text@),
{
    let cs = chars_of(text);
    let mut out: Vec<char> = Vec::new();
    if contains_str(cs.as_slice(), "'''") {
        extend_str(&mut out, "body = \"");
        push_escaped(&mut out, cs.as_slice());
        extend_str(&mut out, "\"\n");
    } else {
        extend_str(&mut out, "body = '''\n");
        extend_chars(&mut out, cs.as_slice());
        extend_str(&mut out, "'''\n");
    }
    string_of(out.as_slice())
}

/// The headers that browsers add on their own, in lowercase: every
/// `sec-*` header, and the listed others.
pub open spec fn skipped_header(l: Seq<char>) -> bool {
    has_prefix(l, "sec-"@) || l == "accept-encoding"@ || l == "accept-language"@ || l == "cache-control"@ || l == "connection"@ || l == "cookie"@ || l == "host"@ || l == "origin"@ || l == "pragma"@ || l == "referer"@ || l == "upgrade-insecure-requests"@ || l == "user-agent"@ || l == ":authority"@ || l == ":method"@ || l == ":path"@ || l == ":scheme"@
}

/// Whether the lowercased name is one of the browser's own headers.
fn is_skipped(l: &str) -> (b: bool)
    ensures
        b == skipped_header(l@),
{
    let lc = chars_of(l);
    if crate::text::starts_with_str(lc.as_slice(), "sec-") {
        return true;
    }
    let names: [&str; 15] = [
        "accept-encoding",
        "accept-language",
        "cache-control",
        "connection",
        "cookie",
        "host",
        "origin",
        "pragma",
        "referer",
        "upgrade-insecure-requests",
        "user-agent",
        ":authority",
        ":method",
        ":path",
        ":scheme",
    ];
    let mut i: usize = 0;
    while i < 15
        invariant
            i <= 15,
            names@.len() == 15,
            names@[0] == "accept-encoding",
            names@[1] == "accept-language",
            names@[2] == "cache-control",
            names@[3] == "connection",
            names@[4] == "cookie",
            names@[5] == "host",
            names@[6] == "origin",
            names@[7] == "pragma",
            names@[8] == "referer",
            names@[9] == "upgrade-insecure-requests",
            names@[10] == "user-agent",
            names@[11] == ":authority",
            names@[12] == ":method",
            names@[13] == ":path",
            names@[14] == ":scheme",
            !has_prefix(l@, "sec-"@),
            forall|k: int| 0 <= k < i ==> l@ != (#[trigger] names@[k])@,
        decreases 15 - i,
    {
        if crate::text::str_eq(l, names[i]) {
            return true;
        }
        i += 1;
    }
    false
}

/// The headers kept from `hs`: those whose lowercased name is not one of
/// the browser's own, in order.
pub open spec fn kept_headers(hs: Seq<HarHeader>) -> Seq<(Seq<char>, Seq<char>)>
    decreases hs.len(),
{
    if hs.len() == 0 {
        Seq::empty()
    } else {
        let rest = kept_headers(hs.drop_last());
        if skipped_header(lower_text(hs.last().name@)) {
            rest
        } else {
            rest.push((hs.last().name@, hs.last().value@))
        }
    }
}

/// Removes the headers that browsers add on their own.
pub fn filter_headers(headers: &[HarHeader]) -> (out: Vec<(String, String)>)
    ensures
        crate::config::pairs_view(out@) == kept_headers(headers@),
{
    let mut out: Vec<(String, String)> = Vec::new();
    let mut i: usize = 0;
    while i < headers.len()
        invariant
            i <= headers@.len(),
            crate::config::pairs_view(out@) == kept_headers(headers@.take(i as int)),
        decreases headers@.len() - i,
    {
        let h = &headers[i];
        let lower = to_lowercase(h.name.as_str());
        proof {
            assert(headers@.take(i + 1).drop_last() == headers@.take(i as int));
            assert(headers@.take(i + 1).last() == *h);
        }
        if !is_skipped(lower.as_str()) {
            let ghost before = out@;
            out.push((owned(h.name.as_str()), owned(h.value.as_str())));
            assert(crate::config::pairs_view(out@) =~= crate::config::pairs_view(before).push((h.name@, h.value@)));
        }
        i += 1;
    }
    assert(headers@.take(headers@.len() as int) == headers@);
    out
}

// ---------------------------------------------------------------------------
// Selecting and grouping the entries
// ---------------------------------------------------------------------------

/// Whether a URL is fetched over HTTP (not a `data:` URL and the like).
pub open spec fn is_http(url: Seq<char>) -> bool {
    has_prefix(url, "http://"@) || has_prefix(url, "https://"@)
}

/// Whether an entry is imported: an HTTP URL that the filter, if any,
/// matches.
pub open spec fn entry_kept(e: HarEntry, filter: Option<Seq<char>>) -> bool {
    is_http(e.request.url@) && match filter {
        Some(p) => regex_is_match(p, e.request.url@),
        None => true,
    }
}

/// The indices of the imported entries among the first `n`, in order.
pub open spec fn kept_upto(es: Seq<HarEntry>, filter: Option<Seq<char>>, n: int) -> Seq<int>
    decreases n,
{
    if n <= 0 {
        Seq::empty()
    } else if entry_kept(es[n - 1], filter) {
        kept_upto(es, filter, n - 1).push(n - 1)
    } else {
        kept_upto(es, filter, n - 1)
    }
}

/// The group key of an entry: its method and its URL without the query.
pub open spec fn entry_key(e: HarEntry) -> Seq<char> {
    e.request.method@ + " "@ + normalize_spec(e.request.url@)
}

/// The keys of the entries at `idx`.
pub open spec fn keys_of(es: Seq<HarEntry>, idx: Seq<int>) -> Seq<Seq<char>> {
    Seq::new(idx.len(), |i: int| entry_key(es[idx[i]]))
}

/// The keys of `ks` without repeats, in order of first appearance.
pub open spec fn distinct(ks: Seq<Seq<char>>) -> Seq<Seq<char>>
    decreases ks.len(),
{
    if ks.len() == 0 {
        Seq::empty()
    } else {
        let rest = distinct(ks.drop_last());
        if rest.contains(ks.last()) {
            rest
        } else {
            rest.push(ks.last())
        }
    }
}

/// Lexicographic order of texts by code point (the byte order of their
/// UTF-8 encodings).
pub open spec fn lex_lt(a: Seq<char>, b: Seq<char>) -> bool
    decreases a.len(),
{
    if a.len() == 0 {
        b.len() > 0
    } else if b.len() == 0 {
        false
    } else if a[0] != b[0] {
        (a[0] as u32) < (b[0] as u32)
    } else {
        lex_lt(a.drop_first(), b.drop_first())
    }
}

/// Where `x` goes in `s`: before the first element from `j` on that it
/// precedes.
pub open spec fn insert_pos(s: Seq<Seq<char>>, x: Seq<char>, j: int) -> int
    decreases s.len() - j,
{
    if j < 0 || j >= s.len() {
        s.len() as int
    } else if lex_lt(x, s[j]) {
        j
    } else {
        insert_pos(s, x, j + 1)
    }
}

/// `s` sorted by insertion, in lexicographic order.
pub open spec fn sort_keys(s: Seq<Seq<char>>) -> Seq<Seq<char>>
    decreases s.len(),
{
    if s.len() == 0 {
        Seq::empty()
    } else {
        let r = sort_keys(s.drop_last());
        r.insert(insert_pos(r, s.last(), 0), s.last())
    }
}

/// The first position of `k` in `ks`, from `j` on.
pub open spec fn first_pos(ks: Seq<Seq<char>>, k: Seq<char>, j: int) -> int
    decreases ks.len() - j,
{
    if j < 0 || j >= ks.len() {
        -1
    } else if ks[j] == k {
        j
    } else {
        first_pos(ks, k, j + 1)
    }
}

/// How often `k` occurs in `ks`.
pub open spec fn count_of(ks: Seq<Seq<char>>, k: Seq<char>) -> nat
    decreases ks.len(),
{
    if ks.len() == 0 {
        0
    } else {
        count_of(ks.drop_last(), k) + if ks.last() == k {
            1nat
        } else {
            0nat
        }
    }
}

/// Whether the imported entries span more than one URL (queries aside).
pub open spec fn several_urls(es: Seq<HarEntry>, idx: Seq<int>) -> bool {
    exists|p: int|
        0 <= p < idx.len() && normalize_spec((#[trigger] es[idx[p]]).request.url@) != normalize_spec(
            es[idx[0]].request.url@,
        )
}

// ---------------------------------------------------------------------------
// The configuration text
// ---------------------------------------------------------------------------

/// The comment at the top of an imported configuration.
pub open spec fn preamble(source: Seq<char>, n: nat) -> Seq<char> {
    "# Generated from HAR file by kaioken import\n"@ + "# Source: "@ + source + "\n"@
        + "# Entries: "@ + decimal(n) + " requests\n\n"@
}

/// The body line of an entry, if it has a non-empty body.
pub open spec fn body_part(e: HarEntry) -> Seq<char> {
    match e.request.post_data {
        Some(pd) => match pd.text {
            Some(t) => if t@.len() > 0 {
                body_line_spec(t@)
            } else {
                Seq::empty()
            },
            None => Seq::empty(),
        },
        None => Seq::empty(),
    }
}

/// The `name = "value"` lines of kept headers.
pub open spec fn header_lines(hs: Seq<(Seq<char>, Seq<char>)>) -> Seq<char>
    decreases hs.len(),
{
    if hs.len() == 0 {
        Seq::empty()
    } else {
        header_lines(hs.drop_last()) + header_key_spec(hs.last().0) + " = \""@ + escape_spec(
            hs.last().1,
        ) + "\"\n"@
    }
}

/// The `url` and `method` lines of an entry.
pub open spec fn request_lines(e: HarEntry) -> Seq<char> {
    "url = \""@ + escape_spec(e.request.url@) + "\"\n"@ + "method = \""@ + e.request.method@
        + "\"\n"@
}

/// The `[load]` settings of an imported configuration.
pub open spec fn load_lines() -> Seq<char> {
    "[load]\n"@ + "concurrency = 10\n"@ + "duration = \"30s\"\n"@
}

/// The configuration of a single request.
pub open spec fn target_part(e: HarEntry) -> Seq<char> {
    let hs = kept_headers(e.request.headers@);
    "[target]\n"@ + request_lines(e) + body_part(e) + (if hs.len() > 0 {
        "\n[target.headers]\n"@ + header_lines(hs)
    } else {
        Seq::empty()
    }) + "\n"@ + load_lines()
}

/// The scenario of one group of requests, weighted by its size.
pub open spec fn scenario_part(e: HarEntry, weight: nat) -> Seq<char> {
    let hs = kept_headers(e.request.headers@);
    "[[scenarios]]\n"@ + request_lines(e) + (if weight > 1 {
        "weight = "@ + decimal(weight) + "\n"@
    } else {
        Seq::empty()
    }) + body_part(e) + (if hs.len() > 0 {
        "[scenarios.headers]\n"@ + header_lines(hs)
    } else {
        Seq::empty()
    }) + "\n"@
}

/// The scenarios of the first `m` sorted keys.
pub open spec fn scenario_parts(es: Seq<HarEntry>, idx: Seq<int>, sorted: Seq<Seq<char>>, m: int) -> Seq<char>
    decreases m,
{
    if m <= 0 {
        Seq::empty()
    } else {
        let ks = keys_of(es, idx);
        let k = sorted[m - 1];
        scenario_parts(es, idx, sorted, m - 1) + scenario_part(
            es[idx[first_pos(ks, k, 0)]],
            count_of(ks, k),
        )
    }
}

/// The closing comment with suggested thresholds.
pub open spec fn postscript() -> Seq<char> {
    "\n# Suggested thresholds (adjust based on your SLOs)\n"@ + "# [thresholds]\n"@
        + "# p99_latency_ms = \"< 500\"\n"@ + "# error_rate = \"< 0.01\"\n"@
}

/// What importing `har` (read from `source`) yields: an error without
/// entries or without an HTTP entry that the filter keeps; else, for a
/// single URL, a `[target]` from the first kept entry; for several, one
/// scenario per method and URL, in key order, weighted by repetitions.
pub open spec fn import_spec(source: Seq<char>, es: Seq<HarEntry>, filter: Option<Seq<char>>) -> Result<Seq<char>, Seq<char>> {
    let idx = kept_upto(es, filter, es.len() as int);
    if es.len() == 0 {
        Err("HAR file contains no requests"@)
    } else if idx.len() == 0 {
        Err("No matching HTTP requests found in HAR file"@)
    } else {
        let head = preamble(source, idx.len());
        let middle = if several_urls(es, idx) {
            let sorted = sort_keys(distinct(keys_of(es, idx)));
            load_lines() + "\n"@ + scenario_parts(es, idx, sorted, sorted.len() as int)
        } else {
            target_part(es[idx[0]])
        };
        Ok(head + middle + postscript())
    }
}

// ---------------------------------------------------------------------------
// The import
// ---------------------------------------------------------------------------

/// The texts held by a vector of character vectors.
pub open spec fn texts(v: Seq<Vec<char>>) -> Seq<Seq<char>> {
    Seq::new(v.len(), |i: int| v[i]@)
}

/// The text a filter was compiled from.
pub open spec fn filter_view(f: Option<&Pattern>) -> Option<Seq<char>> {
    match f {
        Some(p) => Some(p.source_view()),
        None => None,
    }
}

/// Whether an entry is imported.
fn keep_entry(e: &HarEntry, filter: Option<&Pattern>) -> (b: bool)
    ensures
        b == entry_kept(*e, filter_view(filter)),
{
    proof {
        reveal_strlit("http://");
        reveal_strlit("https://");
    }
    let url = chars_of(e.request.url.as_str());
    if !starts_with_str(url.as_slice(), "http://") && !starts_with_str(url.as_slice(), "https://") {
        return false;
    }
    match filter {
        Some(re) => re.is_match(e.request.url.as_str()),
        None => true,
    }
}

/// The indices of the imported entries.
fn kept_indices(es: &Vec<HarEntry>, filter: Option<&Pattern>) -> (out: Vec<usize>)
    ensures
        out@.len() == kept_upto(es@, filter_view(filter), es@.len() as int).len(),
        forall|i: int| 0 <= i < out@.len() ==> #[trigger] out@[i] as int == kept_upto(es@, filter_view(filter), es@.len() as int)[i],
        forall|i: int| 0 <= i < out@.len() ==> #[trigger] out@[i] < es@.len(),
{
    let mut out: Vec<usize> = Vec::new();
    let mut i: usize = 0;
    while i < es.len()
        invariant
            i <= es@.len(),
            out@.len() == kept_upto(es@, filter_view(filter), i as int).len(),
            forall|k: int| 0 <= k < out@.len() ==> #[trigger] out@[k] as int == kept_upto(es@, filter_view(filter), i as int)[k],
            forall|k: int| 0 <= k < out@.len() ==> #[trigger] out@[k] < i,
        decreases es@.len() - i,
    {
        if keep_entry(&es[i], filter) {
            out.push(i);
        }
        i += 1;
    }
    out
}

/// The group key of an entry.
fn entry_key_exec(e: &HarEntry) -> (k: Vec<char>)
    ensures
        k@ == entry_key(*e),
{
    let mut k = chars_of(e.request.method.as_str());
    extend_str(&mut k, " ");
    let n = normalize_url(e.request.url.as_str());
    extend_str(&mut k, n.as_str());
    k
}

/// Lexicographic comparison by code point.
fn lex_lt_exec(a: &[char], b: &[char]) -> (r: bool)
    ensures
        r == lex_lt(a@, b@),
{
    let mut i: usize = 0;
    assert(a@.skip(0) == a@);
    assert(b@.skip(0) == b@);
    while i < a.len() && i < b.len()
        invariant
            i <= a@.len(),
            i <= b@.len(),
            forall|k: int| 0 <= k < i ==> a@[k] == b@[k],
            lex_lt(a@, b@) == lex_lt(a@.skip(i as int), b@.skip(i as int)),
        decreases a@.len() - i,
    {
        if a[i] != b[i] {
            proof {
                assert(a@.skip(i as int)[0] == a@[i as int]);
                assert(b@.skip(i as int)[0] == b@[i as int]);
            }
            return (a[i] as u32) < (b[i] as u32);
        }
        proof {
            assert(a@.skip(i as int).drop_first() == a@.skip(i + 1));
            assert(b@.skip(i as int).drop_first() == b@.skip(i + 1));
        }
        i += 1;
    }
    i == a.len() && i < b.len()
}

/// Whether `k` is among `ks`.
fn contains_key(ks: &Vec<Vec<char>>, k: &[char]) -> (b: bool)
    ensures
        b == texts(ks@).contains(k@),
{
    let mut i: usize = 0;
    while i < ks.len()
        invariant
            i <= ks@.len(),
            forall|j: int| 0 <= j < i ==> ks@[j]@ != k@,
        decreases ks@.len() - i,
    {
        if crate::text::chars_eq(ks[i].as_slice(), k) {
            assert(texts(ks@)[i as int] == k@);
            return true;
        }
        i += 1;
    }
    proof {
        if texts(ks@).contains(k@) {
            let j = choose|j: int| 0 <= j < texts(ks@).len() && texts(ks@)[j] == k@;
            assert(ks@[j]@ == k@);
        }
    }
    false
}

/// The keys without repeats, in order of first appearance.
fn distinct_exec(ks: &Vec<Vec<char>>) -> (out: Vec<Vec<char>>)
    ensures
        texts(out@) == distinct(texts(ks@)),
{
    let mut out: Vec<Vec<char>> = Vec::new();
    let mut i: usize = 0;
    while i < ks.len()
        invariant
            i <= ks@.len(),
            texts(out@) == distinct(texts(ks@).take(i as int)),
        decreases ks@.len() - i,
    {
        proof {
            assert(texts(ks@).take(i + 1).drop_last() == texts(ks@).take(i as int));
            assert(texts(ks@).take(i + 1).last() == ks@[i as int]@);
        }
        if !contains_key(&out, ks[i].as_slice()) {
            let ghost before = out@;
            let k = slice_chars(ks[i].as_slice(), 0, ks[i].len());
            assert(ks@[i as int]@.subrange(0, ks@[i as int]@.len() as int) == ks@[i as int]@);
            out.push(k);
            assert(texts(out@) =~= texts(before).push(ks@[i as int]@));
        }
        i += 1;
    }
    assert(texts(ks@).take(ks@.len() as int) == texts(ks@));
    out
}

/// Sorts keys by insertion.
fn sort_keys_exec(ds: &Vec<Vec<char>>) -> (out: Vec<Vec<char>>)
    ensures
        texts(out@) == sort_keys(texts(ds@)),
{
    let mut out: Vec<Vec<char>> = Vec::new();
    let mut i: usize = 0;
    while i < ds.len()
        invariant
            i <= ds@.len(),
            texts(out@) == sort_keys(texts(ds@).take(i as int)),
        decreases ds@.len() - i,
    {
        let x = &ds[i];
        let ghost sorted = texts(out@);
        let mut j: usize = 0;
        while j < out.len() && !lex_lt_exec(x.as_slice(), out[j].as_slice())
            invariant
                j <= out@.len(),
                sorted == texts(out@),
                insert_pos(sorted, x@, 0) == insert_pos(sorted, x@, j as int),
            decreases out@.len() - j,
        {
            j += 1;
        }
        proof {
            assert(texts(ds@).take(i + 1).drop_last() == texts(ds@).take(i as int));
            assert(texts(ds@).take(i + 1).last() == x@);
            assert(insert_pos(sorted, x@, 0) == j);
        }
        let copy = slice_chars(x.as_slice(), 0, x.len());
        assert(x@.subrange(0, x@.len() as int) == x@);
        out.insert(j, copy);
        assert(texts(out@) =~= sorted.insert(j as int, x@));
        i += 1;
    }
    assert(texts(ds@).take(ds@.len() as int) == texts(ds@));
    out
}

/// The first position of `k` in `ks`.
fn first_pos_exec(ks: &Vec<Vec<char>>, k: &[char]) -> (p: Option<usize>)
    ensures
        match p {
            Some(j) => j as int == first_pos(texts(ks@), k@, 0) && j < ks@.len(),
            None => first_pos(texts(ks@), k@, 0) == -1,
        },
{
    let mut i: usize = 0;
    while i < ks.len()
        invariant
            i <= ks@.len(),
            first_pos(texts(ks@), k@, 0) == first_pos(texts(ks@), k@, i as int),
        decreases ks@.len() - i,
    {
        if crate::text::chars_eq(ks[i].as_slice(), k) {
            return Some(i);
        }
        i += 1;
    }
    None
}

/// How often `k` occurs in `ks`.
fn count_exec(ks: &Vec<Vec<char>>, k: &[char]) -> (c: u64)
    ensures
        c == count_of(texts(ks@), k@),
{
    let mut c: u64 = 0;
    let mut i: usize = 0;
    while i < ks.len()
        invariant
            i <= ks@.len(),
            c == count_of(texts(ks@).take(i as int), k@),
            c <= i,
        decreases ks@.len() - i,
    {
        proof {
            assert(texts(ks@).take(i + 1).drop_last() == texts(ks@).take(i as int));
            assert(texts(ks@).take(i + 1).last() == ks@[i as int]@);
        }
        if crate::text::chars_eq(ks[i].as_slice(), k) {
            c = c + 1;
        }
        i += 1;
    }
    assert(texts(ks@).take(ks@.len() as int) == texts(ks@));
    c
}

/// Appends the `name = "value"` lines of kept headers.
fn push_header_lines(out: &mut Vec<char>, hs: &Vec<(String, String)>)
    ensures
        final(out)@ == old(out)@ + header_lines(crate::config::pairs_view(hs@)),
{
    let ghost start = out@;
    let mut i: usize = 0;
    while i < hs.len()
        invariant
            i <= hs@.len(),
            out@ == start + header_lines(crate::config::pairs_view(hs@).take(i as int)),
        decreases hs@.len() - i,
    {
        let ghost before = out@;
        let key = format_header_key(hs[i].0.as_str());
        extend_str(out, key.as_str());
        extend_str(out, " = \"");
        let vc = chars_of(hs[i].1.as_str());
        push_escaped(out, vc.as_slice());
        extend_str(out, "\"\n");
        proof {
            let pv = crate::config::pairs_view(hs@);
            assert(pv.take(i + 1).drop_last() == pv.take(i as int));
            assert(pv.take(i + 1).last() == (hs@[i as int].0@, hs@[i as int].1@));
        }
        i += 1;
    }
    assert(crate::config::pairs_view(hs@).take(hs@.len() as int) == crate::config::pairs_view(hs@));
}

/// Appends the `url` and `method` lines of an entry.
fn push_request_lines(out: &mut Vec<char>, e: &HarEntry)
    ensures
        final(out)@ == old(out)@ + request_lines(*e),
{
    extend_str(out, "url = \"");
    let uc = chars_of(e.request.url.as_str());
    push_escaped(out, uc.as_slice());
    extend_str(out, "\"\n");
    extend_str(out, "method = \"");
    extend_str(out, e.request.method.as_str());
    extend_str(out, "\"\n");
}

/// Appends the body line of an entry, if it has a non-empty body.
fn push_body_part(out: &mut Vec<char>, e: &HarEntry)
    ensures
        final(out)@ == old(out)@ + body_part(*e),
{
    if let Some(pd) = &e.request.post_data {
        if let Some(t) = &pd.text {
            if t.as_str().unicode_len() > 0 {
                let b = format_body(t.as_str());
                extend_str(out, b.as_str());
                return;
            }
        }
    }
    assert(old(out)@ + Seq::<char>::empty() == old(out)@);
}

/// Appends the `[load]` settings.
fn push_load_lines(out: &mut Vec<char>)
    ensures
        final(out)@ == old(out)@ + load_lines(),
{
    extend_str(out, "[load]\n");
    extend_str(out, "concurrency = 10\n");
    extend_str(out, "duration = \"30s\"\n");
}

/// Appends the configuration of a single request.
fn push_target_part(out: &mut Vec<char>, e: &HarEntry)
    ensures
        final(out)@ == old(out)@ + target_part(*e),
{
    let ghost start = out@;
    extend_str(out, "[target]\n");
    push_request_lines(out, e);
    push_body_part(out, e);
    let hs = filter_headers(e.request.headers.as_slice());
    let ghost mid = out@;
    if hs.len() > 0 {
        extend_str(out, "\n[target.headers]\n");
        push_header_lines(out, &hs);
    }
    assert(hs@.len() > 0 <==> kept_headers(e.request.headers@).len() > 0);
    extend_str(out, "\n");
    push_load_lines(out);
    assert(out@ =~= start + target_part(*e));
}

/// Appends the scenario of one group of requests.
fn push_scenario_part(out: &mut Vec<char>, e: &HarEntry, weight: u64)
    ensures
        final(out)@ == old(out)@ + scenario_part(*e, weight as nat),
{
    let ghost start = out@;
    extend_str(out, "[[scenarios]]\n");
    push_request_lines(out, e);
    if weight > 1 {
        extend_str(out, "weight = ");
        push_decimal(out, weight);
        extend_str(out, "\n");
    }
    push_body_part(out, e);
    let hs = filter_headers(e.request.headers.as_slice());
    if hs.len() > 0 {
        extend_str(out, "[scenarios.headers]\n");
        push_header_lines(out, &hs);
    }
    assert(hs@.len() > 0 <==> kept_headers(e.request.headers@).len() > 0);
    extend_str(out, "\n");
    assert(out@ =~= start + scenario_part(*e, weight as nat));
}

/// Whether the imported entries span more than one URL.
fn several_urls_exec(es: &Vec<HarEntry>, idx: &Vec<usize>) -> (b: bool)
    requires
        idx@.len() > 0,
        forall|i: int| 0 <= i < idx@.len() ==> #[trigger] idx@[i] < es@.len(),
    ensures
        b == several_urls(es@, Seq::new(idx@.len(), |i: int| idx@[i] as int)),
{
    let ghost iv = Seq::new(idx@.len(), |i: int| idx@[i] as int);
    let first = normalize_url(es[idx[0]].request.url.as_str());
    let mut i: usize = 0;
    while i < idx.len()
        invariant
            idx@.len() > 0,
            forall|k: int| 0 <= k < idx@.len() ==> #[trigger] idx@[k] < es@.len(),
            iv == Seq::new(idx@.len(), |i: int| idx@[i] as int),
            first@ == normalize_spec(es@[iv[0]].request.url@),
            i <= idx@.len(),
            forall|p: int| 0 <= p < i ==> normalize_spec((#[trigger] es@[iv[p]]).request.url@) == first@,
        decreases idx@.len() - i,
    {
        let n = normalize_url(es[idx[i]].request.url.as_str());
        if !crate::text::str_eq(n.as_str(), first.as_str()) {
            assert(normalize_spec(es@[iv[i as int]].request.url@) != normalize_spec(es@[iv[0]].request.url@));
            return true;
        }
        i += 1;
    }
    false
}

proof fn lemma_insert_pos_range(s: Seq<Seq<char>>, x: Seq<char>, j: int)
    requires
        0 <= j <= s.len(),
    ensures
        j <= insert_pos(s, x, j) <= s.len(),
    decreases s.len() - j,
{
    if j < s.len() && !lex_lt(x, s[j]) {
        lemma_insert_pos_range(s, x, j + 1);
    }
}

proof fn lemma_sort_keys_members(s: Seq<Seq<char>>)
    ensures
        sort_keys(s).len() == s.len(),
        forall|i: int| 0 <= i < sort_keys(s).len() ==> s.contains(#[trigger] sort_keys(s)[i]),
    decreases s.len(),
{
    if s.len() > 0 {
        let t = s.drop_last();
        lemma_sort_keys_members(t);
        let r = sort_keys(t);
        let p = insert_pos(r, s.last(), 0);
        lemma_insert_pos_range(r, s.last(), 0);
        assert forall|i: int| 0 <= i < sort_keys(s).len() implies s.contains(#[trigger] sort_keys(s)[i]) by {
            if i < p {
                assert(sort_keys(s)[i] == r[i]);
                assert(t.contains(r[i]));
                let k = choose|k: int| 0 <= k < t.len() && t[k] == r[i];
                assert(s[k] == t[k]);
            } else if i == p {
                assert(s[s.len() - 1] == s.last());
            } else {
                assert(sort_keys(s)[i] == r[i - 1]);
                assert(t.contains(r[i - 1]));
                let k = choose|k: int| 0 <= k < t.len() && t[k] == r[i - 1];
                assert(s[k] == t[k]);
            }
        }
    }
}

proof fn lemma_distinct_members(ks: Seq<Seq<char>>)
    ensures
        forall|i: int| 0 <= i < distinct(ks).len() ==> ks.contains(#[trigger] distinct(ks)[i]),
    decreases ks.len(),
{
    if ks.len() > 0 {
        let t = ks.drop_last();
        lemma_distinct_members(t);
        let rest = distinct(t);
        assert forall|i: int| 0 <= i < distinct(ks).len() implies ks.contains(#[trigger] distinct(ks)[i]) by {
            if i < rest.len() {
                assert(distinct(ks)[i] == rest[i]);
                assert(t.contains(rest[i]));
                let k = choose|k: int| 0 <= k < t.len() && t[k] == rest[i];
                assert(ks[k] == t[k]);
            } else {
                assert(distinct(ks)[i] == ks.last());
                assert(ks[ks.len() - 1] == ks.last());
            }
        }
    }
}

proof fn lemma_first_pos_from(ks: Seq<Seq<char>>, k: Seq<char>, j: int, w: int)
    requires
        0 <= j <= w < ks.len(),
        ks[w] == k,
    ensures
        j <= first_pos(ks, k, j) <= w,
        ks[first_pos(ks, k, j)] == k,
    decreases w - j,
{
    if ks[j] != k {
        lemma_first_pos_from(ks, k, j + 1, w);
    }
}

/// Every key of the sorted list occurs among the keys.
proof fn lemma_sorted_key_found(ks: Seq<Seq<char>>, m: int)
    requires
        0 <= m < sort_keys(distinct(ks)).len(),
    ensures
        0 <= first_pos(ks, sort_keys(distinct(ks))[m], 0) < ks.len(),
{
    let d = distinct(ks);
    lemma_sort_keys_members(d);
    lemma_distinct_members(ks);
    let x = sort_keys(d)[m];
    assert(d.contains(x));
    let i = choose|i: int| 0 <= i < d.len() && d[i] == x;
    assert(ks.contains(d[i]));
    let w = choose|w: int| 0 <= w < ks.len() && ks[w] == x;
    lemma_first_pos_from(ks, x, 0, w);
}

/// Turns the entries of a HAR document, read from `source`, into a
/// configuration: with one URL (queries aside) a `[target]` for the first
/// imported entry, with several one scenario per method and URL, in key
/// order, weighted by how often it was recorded.
pub fn import_har(source: &str, har: &HarFile, filter: Option<&Pattern>) -> (r: Result<String, String>)
    ensures
        match import_spec(source@, har.log.entries@, filter_view(filter)) {
            Ok(t) => r matches Ok(s) && s@ == t,
            Err(e) => r matches Err(m) && m@ == e,
        },
{
    let es = &har.log.entries;
    if es.len() == 0 {
        return Err(owned("HAR file contains no requests"));
    }
    let idx = kept_indices(es, filter);
    let ghost iv = Seq::new(idx@.len(), |i: int| idx@[i] as int);
    assert(iv =~= kept_upto(es@, filter_view(filter), es@.len() as int));
    if idx.len() == 0 {
        return Err(owned("No matching HTTP requests found in HAR file"));
    }
    let mut out: Vec<char> = Vec::new();
    extend_str(&mut out, "# Generated from HAR file by kaioken import\n");
    extend_str(&mut out, "# Source: ");
    extend_str(&mut out, source);
    extend_str(&mut out, "\n");
    extend_str(&mut out, "# Entries: ");
    push_decimal(&mut out, idx.len() as u64);
    extend_str(&mut out, " requests\n\n");
    let ghost head = out@;
    assert(head == preamble(source@, iv.len()));
    if several_urls_exec(es, &idx) {
        push_load_lines(&mut out);
        extend_str(&mut out, "\n");
        let mut keys: Vec<Vec<char>> = Vec::new();
        let mut i: usize = 0;
        while i < idx.len()
            invariant
                i <= idx@.len(),
                forall|k: int| 0 <= k < idx@.len() ==> #[trigger] idx@[k] < es@.len(),
                iv == Seq::new(idx@.len(), |i: int| idx@[i] as int),
                keys@.len() == i,
                forall|k: int| 0 <= k < i ==> #[trigger] keys@[k]@ == entry_key(es@[iv[k]]),
            decreases idx@.len() - i,
        {
            keys.push(entry_key_exec(&es[idx[i]]));
            i += 1;
        }
        assert(texts(keys@) =~= keys_of(es@, iv));
        let ds = distinct_exec(&keys);
        let sorted = sort_keys_exec(&ds);
        let ghost sv = texts(sorted@);
        let ghost body_start = out@;
        let mut m: usize = 0;
        while m < sorted.len()
            invariant
                m <= sorted@.len(),
                sv == texts(sorted@),
                texts(keys@) == keys_of(es@, iv),
                forall|k: int| 0 <= k < idx@.len() ==> #[trigger] idx@[k] < es@.len(),
                iv == Seq::new(idx@.len(), |i: int| idx@[i] as int),
                keys@.len() == idx@.len(),
                sv == sort_keys(distinct(keys_of(es@, iv))),
                out@ == body_start + scenario_parts(es@, iv, sv, m as int),
            decreases sorted@.len() - m,
        {
            let k = &sorted[m];
            let p = match first_pos_exec(&keys, k.as_slice()) {
                Some(p) => p,
                None => 0,
            };
            proof {
                assert(sv[m as int] == k@);
                lemma_sorted_key_found(keys_of(es@, iv), m as int);
            }
            let c = count_exec(&keys, k.as_slice());
            push_scenario_part(&mut out, &es[idx[p]], c);
            m += 1;
        }
    } else {
        push_target_part(&mut out, &es[idx[0]]);
    }
    extend_str(&mut out, "\n# Suggested thresholds (adjust based on your SLOs)\n");
    extend_str(&mut out, "# [thresholds]\n");
    extend_str(&mut out, "# p99_latency_ms = \"< 500\"\n");
    extend_str(&mut out, "# error_rate = \"< 0.01\"\n");
    Ok(string_of(out.as_slice()))
}

// ---------------------------------------------------------------------------
// The import command
// ---------------------------------------------------------------------------

/// The components of a path that name something: without empty pieces
/// (repeated or trailing separators) and without `.`.
pub open spec fn named_parts(parts: Seq<Seq<char>>) -> Seq<Seq<char>>
    decreases parts.len(),
{
    if parts.len() == 0 {
        Seq::empty()
    } else {
        let rest = named_parts(parts.drop_last());
        let p = parts.last();
        if p.len() == 0 || p == "."@ {
            rest
        } else {
            rest.push(p)
        }
    }
}

/// The extension of a path (`Path::extension`): the text after the last
/// `.` of the file name, unless that `.` starts the name; none without a
/// file name (or when the path ends in `..`).
pub open spec fn file_ext(path: Seq<char>) -> Option<Seq<char>> {
    let parts = named_parts(crate::text::split_spec(path, '/'));
    if parts.len() == 0 || parts.last() == ".."@ {
        None
    } else {
        let name = parts.last();
        let k = crate::text::last_index(name, '.');
        if k > 0 {
            Some(name.subrange(k + 1, name.len() as int))
        } else {
            None
        }
    }
}

/// The format of an input file by its extension: `yaml` and `yml` are
/// OpenAPI, anything else (`har`, `json`, none) is HAR.
pub open spec fn format_of(path: Seq<char>) -> ImportFormat {
    match file_ext(path) {
        Some(e) => if e == "yaml"@ || e == "yml"@ {
            ImportFormat::Openapi
        } else {
            ImportFormat::Har
        },
        None => ImportFormat::Har,
    }
}

/// Guesses the format of an input file from its extension.
pub fn detect_format(path: &str) -> (f: ImportFormat)
    ensures
        f == format_of(path@),
{
    proof {
        reveal_strlit(".");
        reveal_strlit("..");
        reveal_strlit("yaml");
        reveal_strlit("yml");
    }
    let pc = chars_of(path);
    let pieces = crate::text::split_char(pc.as_slice(), '/');
    let ghost pv = crate::text::split_spec(path@, '/');
    let mut parts: Vec<Vec<char>> = Vec::new();
    let mut i: usize = 0;
    while i < pieces.len()
        invariant
            i <= pieces@.len(),
            pieces@.len() == pv.len(),
            pv == crate::text::split_spec(path@, '/'),
            forall|k: int| 0 <= k < pieces@.len() ==> #[trigger] pieces@[k]@ == pv[k],
            texts(parts@) == named_parts(pv.take(i as int)),
        decreases pieces@.len() - i,
    {
        proof {
            assert(pv.take(i + 1).drop_last() == pv.take(i as int));
            assert(pv.take(i + 1).last() == pieces@[i as int]@);
        }
        let p = &pieces[i];
        if p.len() > 0 && !crate::text::chars_eq_str(p.as_slice(), ".") {
            let ghost before = parts@;
            let copy = slice_chars(p.as_slice(), 0, p.len());
            assert(p@.subrange(0, p@.len() as int) == p@);
            parts.push(copy);
            assert(texts(parts@) =~= texts(before).push(p@));
        }
        i += 1;
    }
    assert(pv.take(pv.len() as int) == pv);
    let n = parts.len();
    if n == 0 {
        return ImportFormat::Har;
    }
    let name = &parts[n - 1];
    assert(texts(parts@).last() == name@);
    if crate::text::chars_eq_str(name.as_slice(), "..") {
        return ImportFormat::Har;
    }
    proof {
        crate::text::lemma_last_index(name@, '.');
    }
    let name_len = name.len();
    match crate::text::rfind_char(name.as_slice(), '.') {
        Some(k) => {
            if k == 0 {
                return ImportFormat::Har;
            }
            assert(k < name_len);
            let ext = slice_chars(name.as_slice(), k + 1, name_len);
            if crate::text::chars_eq_str(ext.as_slice(), "yaml") || crate::text::chars_eq_str(ext.as_slice(), "yml") {
                ImportFormat::Openapi
            } else {
                ImportFormat::Har
            }
        },
        None => ImportFormat::Har,
    }
}

/// The text an optional pattern was compiled from.
pub open spec fn opt_pattern_view(f: Option<Pattern>) -> Option<Seq<char>> {
    match f {
        Some(p) => Some(p.source_view()),
        None => None,
    }
}

/// The filter of an import, compiled, or the message for a bad pattern.
pub fn compile_filter(f: &str) -> (r: Result<Pattern, String>)
    ensures
        match regex_compile_error(f@) {
            None => r matches Ok(p) && p.source_view() == f@,
            Some(m) => r matches Err(e) && e@ == "Invalid filter regex: "@ + m,
        },
{
    match Pattern::compile(f) {
        Ok(p) => Ok(p),
        Err(m) => {
            let mut out: Vec<char> = Vec::new();
            extend_str(&mut out, "Invalid filter regex: ");
            extend_str(&mut out, m.as_str());
            Err(string_of(out.as_slice()))
        },
    }
}

/// The checks of the import command before any file is read: an existing
/// output file needs `--force`, the filter must compile, and only HAR
/// input is supported so far. On success, the filter to apply.
pub fn plan_import(args: &ImportArgs, output_exists: bool) -> (r: Result<Option<Pattern>, String>)
    ensures
        ({
            let format = match args.format {
                Some(f) => f,
                None => format_of(args.input@),
            };
            if output_exists && !args.force {
                r matches Err(e) && e@ == "Output file '"@ + args.output@
                    + "' already exists. Use --force to overwrite."@
            } else if args.filter is Some && regex_compile_error(args.filter->Some_0@) is Some {
                r matches Err(e) && e@ == "Invalid filter regex: "@ + regex_compile_error(
                    args.filter->Some_0@,
                )->Some_0
            } else if format == ImportFormat::Postman {
                r matches Err(e) && e@ == "Postman import not yet implemented. Coming soon!"@
            } else if format == ImportFormat::Openapi {
                r matches Err(e) && e@ == "OpenAPI import not yet implemented. Coming soon!"@
            } else {
                r matches Ok(f) && opt_pattern_view(f) == match args.filter {
                    Some(t) => Some(t@),
                    None => None,
                }
            }
        }),
{
    if output_exists && !args.force {
        let mut out: Vec<char> = Vec::new();
        extend_str(&mut out, "Output file '");
        extend_str(&mut out, args.output.as_str());
        extend_str(&mut out, "' already exists. Use --force to overwrite.");
        return Err(string_of(out.as_slice()));
    }
    let format = match args.format {
        Some(f) => f,
        None => detect_format(args.input.as_str()),
    };
    let filter = match &args.filter {
        Some(f) => match compile_filter(f.as_str()) {
            Ok(p) => Some(p),
            Err(e) => {
                return Err(e);
            },
        },
        None => None,
    };
    match format {
        ImportFormat::Har => Ok(filter),
        ImportFormat::Postman => Err(owned("Postman import not yet implemented. Coming soon!")),
        ImportFormat::Openapi => Err(owned("OpenAPI import not yet implemented. Coming soon!")),
    }
}

} // verus!
