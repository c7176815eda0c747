//! What a debug request shows of a request or response body: JSON indented,
//! other text line by line, both within limits.
use vstd::prelude::*;

use crate::config::{opt_view, strings_view};
use crate::text::{
    byte_prefix, chars_of, extend_str, is_boundary, lines, lines_spec, push_decimal, string_of,
    take_bytes, utf8_len, utf8_len_of, decimal,
};

verus! {

/// What `serde_json::from_str::<serde_json::Value>` and then
/// `serde_json::to_string_pretty` make of `text`: the JSON value written
/// out indented, or none when `text` is not JSON.
pub uninterp spec fn json_pretty(text: Seq<char>) -> Option<Seq<char>>;

/// Calls `serde_json::from_str::<serde_json::Value>` and, on a value,
/// `serde_json::to_string_pretty`; a parse error gives none. The outcome
/// is named `json_pretty` of the text; nothing more is stated of it.
#[verifier::external_body]
fn pretty_json(text: &str) -> (r: Option<String>)
    ensures
        opt_view(r) == json_pretty(text@),
{
    match serde_json::from_str::<serde_json::Value>(text) {
        Ok(v) => serde_json::to_string_pretty(&v).ok(),
        Err(_) => None,
    }
}

/// The line that stands for `n` lines left out.
pub open spec fn more_lines(n: nat) -> Seq<char> {
    "... ("@ + decimal(n) + " more lines)"@
}

/// At most `max` of the lines `ls`, then, where there were more, a line
/// that counts the rest.
pub open spec fn capped_lines(ls: Seq<Seq<char>>, max: nat) -> Seq<Seq<char>> {
    if ls.len() > max {
        ls.take(max as int).push(more_lines((ls.len() - max) as nat))
    } else {
        ls
    }
}

/// The texts of a list of character vectors.
pub open spec fn chars_view(v: Seq<Vec<char>>) -> Seq<Seq<char>> {
    Seq::new(v.len(), |i: int| v[i]@)
}

/// The line that counts `n` lines left out.
fn more_lines_text(n: u64) -> (s: String)
    ensures
        s@ == more_lines(n as nat),
{
    let mut m: Vec<char> = Vec::new();
    extend_str(&mut m, "... (");
    push_decimal(&mut m, n);
    extend_str(&mut m, " more lines)");
    string_of(m.as_slice())
}

/// At most `max` of the lines `ls`, with the count of the rest.
fn capped(ls: &Vec<Vec<char>>, max: usize) -> (out: Vec<String>)
    ensures
        strings_view(out@) == capped_lines(chars_view(ls@), max as nat),
{
    let n = ls.len();
    let mut out: Vec<String> = Vec::new();
    let mut i: usize = 0;
    while i < n && i < max
        invariant
            n == ls@.len(),
            i <= n,
            i <= max,
            out@.len() == i,
            forall|k: int| 0 <= k < i ==> (#[trigger] out@[k])@ == ls@[k]@,
        decreases n - i,
    {
        out.push(string_of(ls[i].as_slice()));
        i += 1;
    }
    if n > max {
        out.push(more_lines_text((n - max) as u64));
    }
    assert(strings_view(out@) =~= capped_lines(chars_view(ls@), max as nat));
    out
}

/// The lines shown of a body that is JSON: the lines of its indented text,
/// at most `max_lines` of them and then the count of the rest; none when
/// the body is not JSON.
pub fn json_body_lines(text: &str, max_lines: usize) -> (out: Option<Vec<String>>)
    ensures
        match json_pretty(text@) {
            Some(p) => out matches Some(v) && strings_view(v@) == capped_lines(lines_spec(p), max_lines as nat),
            None => out is None,
        },
{
    match pretty_json(text) {
        Some(p) => {
            let cs = chars_of(p.as_str());
            let ls = lines(cs.as_slice());
            assert(chars_view(ls@) =~= lines_spec(p@));
            Some(capped(&ls, max_lines))
        },
        None => None,
    }
}

/// The most lines shown of a body that is not JSON.
pub const MAX_BODY_LINES: usize = 50;

/// The most bytes shown of one line of such a body.
pub const MAX_LINE_LEN: usize = 200;

/// A line of a body that is not JSON as it is shown: longer lines keep
/// their first 200 bytes and end in `...`.
pub open spec fn cut_line(l: Seq<char>) -> Seq<char> {
    if utf8_len(l) > 200 {
        byte_prefix(l, 200) + "..."@
    } else {
        l
    }
}

/// The lines shown of a body that is not JSON: its first 50 lines, each
/// cut to 200 bytes, then the count of the rest.
pub open spec fn plain_lines_spec(text: Seq<char>) -> Seq<Seq<char>> {
    capped_lines(lines_spec(text).map_values(|l: Seq<char>| cut_line(l)), 50)
}

/// Every line that is shown and cut is cut between two characters.
pub open spec fn plain_lines_cuttable(text: Seq<char>) -> bool {
    forall|i: int|
        0 <= i < lines_spec(text).len() && i < 50 ==> (utf8_len(#[trigger] lines_spec(text)[i]) > 200
            ==> is_boundary(lines_spec(text)[i], 200))
}

/// The lines shown of a body that is not JSON.
pub fn plain_body_lines(text: &str) -> (out: Vec<String>)
    requires
        plain_lines_cuttable(text@),
    ensures
        strings_view(out@) == plain_lines_spec(text@),
{
    let cs = chars_of(text);
    let ls = lines(cs.as_slice());
    let ghost spec_lines = lines_spec(text@);
    let n = ls.len();
    let mut out: Vec<String> = Vec::new();
    let mut i: usize = 0;
    while i < n && i < MAX_BODY_LINES
        invariant
            n == ls@.len(),
            n == spec_lines.len(),
            spec_lines == lines_spec(text@),
            forall|k: int| 0 <= k < n ==> #[trigger] ls@[k]@ == spec_lines[k],
            plain_lines_cuttable(text@),
            i <= n,
            i <= 50,
            out@.len() == i,
            forall|k: int| 0 <= k < i ==> (#[trigger] out@[k])@ == cut_line(spec_lines[k]),
        decreases n - i,
    {
        let l = &ls[i];
        assert(l@ == spec_lines[i as int]);
        let len = utf8_len_of(l.as_slice());
        if len > 200 {
            assert(is_boundary(spec_lines[i as int], 200));
            let mut head = take_bytes(l.as_slice(), 200);
            extend_str(&mut head, "...");
            out.push(string_of(head.as_slice()));
        } else {
            out.push(string_of(l.as_slice()));
        }
        i += 1;
    }
    if n > MAX_BODY_LINES {
        out.push(more_lines_text((n - MAX_BODY_LINES) as u64));
    }
    assert(strings_view(out@) =~= plain_lines_spec(text@));
    out
}

} // verus!
