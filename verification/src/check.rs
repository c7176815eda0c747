//! Response checks: their configuration syntax and their evaluation.
use vstd::prelude::*;

use crate::pattern::{regex_compile_error, regex_is_match, Pattern};
use crate::text::{
    chars_of, contains_seq, contains_str, decimal, extend_chars, extend_str, has_prefix,
    has_suffix, lemma_one_char_affix, parse_u16, parse_unsigned_spec, slice_chars, split_char, split_spec,
    starts_with_str, str_eq, string_of, trim, trim_spec,
};

verus! {

/// A condition on a response.
#[derive(Debug, Clone)]
pub enum CheckCondition {
    StatusEquals(u16),
    StatusIn(Vec<u16>),
    StatusLt(u16),
    StatusGt(u16),
    BodyContains(String),
    BodyNotContains(String),
    BodyMatches(Pattern),
}

/// The abstract value of a check condition; a regex is seen through the
/// text it was compiled from.
pub enum CondSpec {
    StatusEquals(u16),
    StatusIn(Seq<u16>),
    StatusLt(u16),
    StatusGt(u16),
    BodyContains(Seq<char>),
    BodyNotContains(Seq<char>),
    BodyMatches(Seq<char>),
}

/// The abstract value of `c`.
pub open spec fn cond_view(c: CheckCondition) -> CondSpec {
    match c {
        CheckCondition::StatusEquals(s) => CondSpec::StatusEquals(s),
        CheckCondition::StatusIn(v) => CondSpec::StatusIn(v@),
        CheckCondition::StatusLt(s) => CondSpec::StatusLt(s),
        CheckCondition::StatusGt(s) => CondSpec::StatusGt(s),
        CheckCondition::BodyContains(n) => CondSpec::BodyContains(n@),
        CheckCondition::BodyNotContains(n) => CondSpec::BodyNotContains(n@),
        CheckCondition::BodyMatches(p) => CondSpec::BodyMatches(p.source_view()),
    }
}

/// Whether a response with `status` (none for a transport error) and
/// `body` satisfies `c`.
pub open spec fn cond_holds(c: CondSpec, status: Option<u16>, body: Seq<char>) -> bool {
    match c {
        CondSpec::StatusEquals(e) => status == Some(e),
        CondSpec::StatusIn(codes) => match status {
            Some(s) => codes.contains(s),
            None => false,
        },
        CondSpec::StatusLt(t) => match status {
            Some(s) => s < t,
            None => false,
        },
        CondSpec::StatusGt(t) => match status {
            Some(s) => s > t,
            None => false,
        },
        CondSpec::BodyContains(n) => contains_seq(body, n),
        CondSpec::BodyNotContains(n) => !contains_seq(body, n),
        CondSpec::BodyMatches(p) => regex_is_match(p, body),
    }
}

/// The status conditions compare the response's status with their
/// threshold: `status > t` holds exactly for statuses above `t`,
/// `status < t` exactly for those below, `status == t` for `t` itself and
/// `status in [..]` for the listed ones; none holds for a transport error.
pub proof fn lemma_status_conditions(t: u16, codes: Seq<u16>, s: u16, body: Seq<char>)
    ensures
        cond_holds(CondSpec::StatusGt(t), Some(s), body) == (s > t),
        cond_holds(CondSpec::StatusLt(t), Some(s), body) == (s < t),
        cond_holds(CondSpec::StatusEquals(t), Some(s), body) == (s == t),
        cond_holds(CondSpec::StatusIn(codes), Some(s), body) == codes.contains(s),
        !cond_holds(CondSpec::StatusGt(t), None, body),
        !cond_holds(CondSpec::StatusLt(t), None, body),
        !cond_holds(CondSpec::StatusEquals(t), None, body),
        !cond_holds(CondSpec::StatusIn(codes), None, body),
{
}

/// Against one threshold, a status satisfies exactly one of `<`, `==` and
/// `>`.
pub proof fn lemma_status_trichotomy(t: u16, s: u16, body: Seq<char>)
    ensures
        cond_holds(CondSpec::StatusLt(t), Some(s), body) || cond_holds(CondSpec::StatusEquals(t), Some(s), body)
            || cond_holds(CondSpec::StatusGt(t), Some(s), body),
        !(cond_holds(CondSpec::StatusLt(t), Some(s), body) && cond_holds(CondSpec::StatusGt(t), Some(s), body)),
        !(cond_holds(CondSpec::StatusLt(t), Some(s), body) && cond_holds(CondSpec::StatusEquals(t), Some(s), body)),
        !(cond_holds(CondSpec::StatusGt(t), Some(s), body) && cond_holds(CondSpec::StatusEquals(t), Some(s), body)),
{
}

/// `body contains` holds exactly when the text occurs somewhere in the
/// body, whatever the status, and `body not contains` exactly when it does
/// not.
pub proof fn lemma_body_conditions(n: Seq<char>, status: Option<u16>, body: Seq<char>)
    ensures
        cond_holds(CondSpec::BodyContains(n), status, body) == (exists|i: int|
            crate::text::occurs_at(body, n, i)),
        cond_holds(CondSpec::BodyNotContains(n), status, body) == !cond_holds(
            CondSpec::BodyContains(n),
            status,
            body,
        ),
{
}

impl CheckCondition {
    /// Evaluates the condition against a response.
    pub fn evaluate(&self, status: Option<u16>, body: &str) -> (b: bool)
        ensures
            b == cond_holds(cond_view(*self), status, body@),
    {
        match self {
            CheckCondition::StatusEquals(expected) => match status {
                Some(s) => s == *expected,
                None => false,
            },
            CheckCondition::StatusIn(codes) => match status {
                Some(s) => {
                    let mut found = false;
                    let mut i: usize = 0;
                    while i < codes.len()
                        invariant
                            i <= codes@.len(),
                            found == (exists|j: int| 0 <= j < i && codes@[j] == s),
                        decreases codes@.len() - i,
                    {
                        if codes[i] == s {
                            found = true;
                        }
                        i += 1;
                    }
                    proof {
                        if codes@.contains(s) {
                            let j = choose|j: int| 0 <= j < codes@.len() && codes@[j] == s;
                            assert(0 <= j < i && codes@[j] == s);
                        }
                    }
                    found
                },
                None => false,
            },
            CheckCondition::StatusLt(threshold) => match status {
                Some(s) => s < *threshold,
                None => false,
            },
            CheckCondition::StatusGt(threshold) => match status {
                Some(s) => s > *threshold,
                None => false,
            },
            CheckCondition::BodyContains(needle) => {
                let b = chars_of(body);
                contains_str(b.as_slice(), needle.as_str())
            },
            CheckCondition::BodyNotContains(needle) => {
                let b = chars_of(body);
                !contains_str(b.as_slice(), needle.as_str())
            },
            CheckCondition::BodyMatches(re) => re.is_match(body),
        }
    }
}

/// A named check, evaluated on every response.
#[derive(Debug, Clone)]
pub struct Check {
    pub name: String,
    pub condition: CheckCondition,
}

// ---------------------------------------------------------------------------
// Quoted strings
// ---------------------------------------------------------------------------

/// Whether `t` is enclosed in a pair of double or single quotes (a lone
/// quote character counts: it both starts and ends with one).
pub open spec fn quoted(t: Seq<char>) -> bool {
    (has_prefix(t, seq!['"']) && has_suffix(t, seq!['"'])) || (has_prefix(t, seq!['\''])
        && has_suffix(t, seq!['\'']))
}

/// The inputs on which taking the text between the quotes would slice
/// backwards: a lone quote character.
pub open spec fn lone_quote(s: Seq<char>) -> bool {
    let t = trim_spec(s);
    quoted(t) && t.len() < 2
}

/// What `parse_quoted_string` returns: the text between the quotes of the
/// trimmed input, or an error naming the trimmed input.
pub open spec fn parse_quoted_spec(s: Seq<char>) -> Result<Seq<char>, Seq<char>> {
    let t = trim_spec(s);
    if quoted(t) {
        Ok(t.subrange(1, t.len() - 1))
    } else {
        Err("Expected quoted string, got: '"@ + t + "'"@)
    }
}

/// Takes the text between a pair of quotes, `"..."` or `'...'`.
pub fn parse_quoted_string(s: &[char]) -> (r: Result<String, String>)
    requires
        !lone_quote(s@),
    ensures
        match parse_quoted_spec(s@) {
            Ok(v) => r matches Ok(o) && o@ == v,
            Err(e) => r matches Err(m) && m@ == e,
        },
{
    proof {
        reveal_strlit("\"");
        reveal_strlit("'");
    }
    let t = trim(s);
    let n = t.len();
    let dq = starts_with_str(t.as_slice(), "\"") && n >= 1 && t[n - 1] == '"';
    let sq = starts_with_str(t.as_slice(), "'") && n >= 1 && t[n - 1] == '\'';
    proof {
        assert("\""@ == seq!['"']);
        assert("'"@ == seq!['\'']);
        lemma_one_char_affix(t@, '"');
        lemma_one_char_affix(t@, '\'');
    }
    if dq || sq {
        assert(quoted(t@));
        let inner = slice_chars(t.as_slice(), 1, n - 1);
        Ok(string_of(inner.as_slice()))
    } else {
        let mut m: Vec<char> = Vec::new();
        extend_str(&mut m, "Expected quoted string, got: '");
        extend_chars(&mut m, t.as_slice());
        extend_str(&mut m, "'");
        Err(string_of(m.as_slice()))
    }
}

// ---------------------------------------------------------------------------
// Condition syntax
// ---------------------------------------------------------------------------

/// `t` with its first `k` characters removed, then trimmed.
pub open spec fn after(t: Seq<char>, k: int) -> Seq<char> {
    trim_spec(t.subrange(k, t.len() as int))
}

/// The codes of a `status in [...]` list: each comma-separated piece,
/// trimmed, must be a `u16`.
pub open spec fn parse_code_list(inner: Seq<char>) -> Option<Seq<u16>> {
    let pieces = split_spec(inner, ',');
    if forall|i: int|
        0 <= i < pieces.len() ==> #[trigger] parse_unsigned_spec(trim_spec(pieces[i]), 65535) is Some {
        Some(
            Seq::new(
                pieces.len(),
                |i: int| parse_unsigned_spec(trim_spec(pieces[i]), 65535)->Some_0 as u16,
            ),
        )
    } else {
        None
    }
}

/// A status code after an operator.
pub open spec fn status_value(v: Seq<char>) -> Option<u16> {
    match parse_unsigned_spec(trim_spec(v), 65535) {
        Some(n) => Some(n as u16),
        None => None,
    }
}

/// The part of a `status ...` condition after `status`, trimmed.
pub open spec fn status_rest(e: Seq<char>) -> Seq<char> {
    after(e, 6)
}

/// The part of a `body ...` condition after `body`, trimmed.
pub open spec fn body_rest(e: Seq<char>) -> Seq<char> {
    after(e, 4)
}

/// The argument that a `body` condition hands to `parse_quoted_string`.
pub open spec fn body_argument(e: Seq<char>) -> Option<Seq<char>> {
    let r = body_rest(e);
    if has_prefix(r, "contains"@) {
        Some(r.subrange(8, r.len() as int))
    } else if has_prefix(r, "not contains"@) {
        Some(r.subrange(12, r.len() as int))
    } else if has_prefix(r, "matches"@) {
        Some(r.subrange(7, r.len() as int))
    } else {
        None
    }
}

/// The inputs on which parsing a condition would slice backwards: a body
/// condition whose argument is a lone quote.
pub open spec fn condition_panics(expr: Seq<char>) -> bool {
    let e = trim_spec(expr);
    !has_prefix(e, "status"@) && has_prefix(e, "body"@) && match body_argument(e) {
        Some(a) => lone_quote(a),
        None => false,
    }
}

/// Whether `expr` can be handed to `parse_check_condition`: it is not a
/// body condition whose argument is a lone quote.
pub fn condition_is_safe(expr: &str) -> (b: bool)
    ensures
        b == !condition_panics(expr@),
{
    proof {
        reveal_strlit("status");
        reveal_strlit("body");
        reveal_strlit("contains");
        reveal_strlit("not contains");
        reveal_strlit("matches");
        reveal_strlit("\"");
        reveal_strlit("'");
    }
    let ec = chars_of(expr);
    let e = trim(ec.as_slice());
    let n = e.len();
    if starts_with_str(e.as_slice(), "status") || !starts_with_str(e.as_slice(), "body") {
        return true;
    }
    let r0 = slice_chars(e.as_slice(), 4, n);
    let r = trim(r0.as_slice());
    let rn = r.len();
    let arg = if starts_with_str(r.as_slice(), "contains") {
        slice_chars(r.as_slice(), 8, rn)
    } else if starts_with_str(r.as_slice(), "not contains") {
        slice_chars(r.as_slice(), 12, rn)
    } else if starts_with_str(r.as_slice(), "matches") {
        slice_chars(r.as_slice(), 7, rn)
    } else {
        return true;
    };
    let t = trim(arg.as_slice());
    proof {
        assert("\""@ == seq!['"']);
        assert("'"@ == seq!['\'']);
        lemma_one_char_affix(t@, '"');
        lemma_one_char_affix(t@, '\'');
    }
    !(t.len() == 1 && (t[0] == '"' || t[0] == '\''))
}

/// What `parse_check_condition` returns for `expr`.
///
/// `status == N`, `status < N`, `status > N`, `status in [A, B, ...]`,
/// `body contains "..."`, `body not contains "..."`, `body matches "..."`
/// (a regex); anything else is an error that quotes the trimmed input.
pub open spec fn condition_spec(expr: Seq<char>) -> Result<CondSpec, Seq<char>> {
    let e = trim_spec(expr);
    if has_prefix(e, "status"@) {
        let r = status_rest(e);
        if has_prefix(r, "=="@) {
            match status_value(r.subrange(2, r.len() as int)) {
                Some(v) => Ok(CondSpec::StatusEquals(v)),
                None => Err("Invalid status code"@),
            }
        } else if has_prefix(r, "<"@) {
            match status_value(r.subrange(1, r.len() as int)) {
                Some(v) => Ok(CondSpec::StatusLt(v)),
                None => Err("Invalid status code"@),
            }
        } else if has_prefix(r, ">"@) {
            match status_value(r.subrange(1, r.len() as int)) {
                Some(v) => Ok(CondSpec::StatusGt(v)),
                None => Err("Invalid status code"@),
            }
        } else if has_prefix(r, "in"@) && has_prefix(after(r, 2), "["@) && has_suffix(
            after(r, 2),
            "]"@,
        ) && after(r, 2).len() >= 2 {
            let l = after(r, 2);
            match parse_code_list(l.subrange(1, l.len() - 1)) {
                Some(codes) => Ok(CondSpec::StatusIn(codes)),
                None => Err("Invalid status codes in list"@),
            }
        } else {
            Err("Unknown status condition: '"@ + e + "'"@)
        }
    } else if has_prefix(e, "body"@) {
        let r = body_rest(e);
        match body_argument(e) {
            Some(a) => match parse_quoted_spec(a) {
                Err(m) => Err(m),
                Ok(v) => if has_prefix(r, "contains"@) {
                    Ok(CondSpec::BodyContains(v))
                } else if has_prefix(r, "not contains"@) {
                    Ok(CondSpec::BodyNotContains(v))
                } else {
                    match regex_compile_error(v) {
                        None => Ok(CondSpec::BodyMatches(v)),
                        Some(m) => Err("Invalid regex: "@ + m),
                    }
                },
            },
            None => Err("Unknown body condition: '"@ + e + "'"@),
        }
    } else {
        Err("Unknown condition: '"@ + e + "'. Expected 'status ...' or 'body ...'"@)
    }
}

/// Parses the numeric value after a status operator.
fn status_value_of(v: &[char]) -> (r: Option<u16>)
    ensures
        r == status_value(v@),
{
    let t = trim(v);
    parse_u16(t.as_slice())
}

/// Parses a `status in [...]` list.
fn parse_codes(inner: &[char]) -> (r: Option<Vec<u16>>)
    ensures
        match parse_code_list(inner@) {
            Some(codes) => r matches Some(v) && v@ == codes,
            None => r is None,
        },
{
    let pieces = split_char(inner, ',');
    let ghost sp = split_spec(inner@, ',');
    let mut codes: Vec<u16> = Vec::new();
    let mut i: usize = 0;
    while i < pieces.len()
        invariant
            i <= pieces@.len(),
            pieces@.len() == sp.len(),
            sp == split_spec(inner@, ','),
            forall|k: int| 0 <= k < pieces@.len() ==> #[trigger] pieces@[k]@ == sp[k],
            codes@.len() == i,
            forall|k: int|
                0 <= k < i ==> #[trigger] parse_unsigned_spec(trim_spec(sp[k]), 65535) is Some
                    && codes@[k] == parse_unsigned_spec(trim_spec(sp[k]), 65535)->Some_0 as u16,
        decreases pieces@.len() - i,
    {
        let t = trim(pieces[i].as_slice());
        match parse_u16(t.as_slice()) {
            Some(v) => {
                codes.push(v);
            },
            None => {
                proof {
                    assert(parse_unsigned_spec(trim_spec(sp[i as int]), 65535) is None);
                }
                return None;
            },
        }
        i += 1;
    }
    proof {
        let expected = Seq::new(
            sp.len(),
            |k: int| parse_unsigned_spec(trim_spec(sp[k]), 65535)->Some_0 as u16,
        );
        assert(codes@ == expected);
    }
    Some(codes)
}

/// An error message made of `a`, `b` and `c`.
fn message3(a: &str, b: &[char], c: &str) -> (s: String)
    ensures
        s@ == a@ + b@ + c@,
{
    let mut m: Vec<char> = Vec::new();
    extend_str(&mut m, a);
    extend_chars(&mut m, b);
    extend_str(&mut m, c);
    string_of(m.as_slice())
}

/// Parses the condition of a check.
pub fn parse_check_condition(expr: &[char]) -> (r: Result<CheckCondition, String>)
    requires
        !condition_panics(expr@),
    ensures
        match condition_spec(expr@) {
            Ok(c) => r matches Ok(v) && cond_view(v) == c,
            Err(m) => r matches Err(e) && e@ == m,
        },
{
    proof {
        reveal_strlit("status");
        reveal_strlit("body");
        reveal_strlit("==");
        reveal_strlit("<");
        reveal_strlit(">");
        reveal_strlit("in");
        reveal_strlit("[");
        reveal_strlit("]");
        reveal_strlit("contains");
        reveal_strlit("not contains");
        reveal_strlit("matches");
    }
    let e = trim(expr);
    let n = e.len();
    if starts_with_str(e.as_slice(), "status") {
        let r0 = slice_chars(e.as_slice(), 6, n);
        let r = trim(r0.as_slice());
        let rn = r.len();
        if starts_with_str(r.as_slice(), "==") {
            let v = slice_chars(r.as_slice(), 2, rn);
            return match status_value_of(v.as_slice()) {
                Some(s) => Ok(CheckCondition::StatusEquals(s)),
                None => Err(crate::text::owned("Invalid status code")),
            };
        }
        if starts_with_str(r.as_slice(), "<") {
            let v = slice_chars(r.as_slice(), 1, rn);
            return match status_value_of(v.as_slice()) {
                Some(s) => Ok(CheckCondition::StatusLt(s)),
                None => Err(crate::text::owned("Invalid status code")),
            };
        }
        if starts_with_str(r.as_slice(), ">") {
            let v = slice_chars(r.as_slice(), 1, rn);
            return match status_value_of(v.as_slice()) {
                Some(s) => Ok(CheckCondition::StatusGt(s)),
                None => Err(crate::text::owned("Invalid status code")),
            };
        }
        if starts_with_str(r.as_slice(), "in") {
            let l0 = slice_chars(r.as_slice(), 2, rn);
            let l = trim(l0.as_slice());
            let ln = l.len();
            if starts_with_str(l.as_slice(), "[") && ln >= 2 && l[ln - 1] == ']' {
                proof {
                    assert("]"@ == seq![']']);
                    lemma_one_char_affix(l@, ']');
                }
                let inner = slice_chars(l.as_slice(), 1, ln - 1);
                return match parse_codes(inner.as_slice()) {
                    Some(codes) => Ok(CheckCondition::StatusIn(codes)),
                    None => Err(crate::text::owned("Invalid status codes in list")),
                };
            }
            proof {
                assert("]"@ == seq![']']);
                lemma_one_char_affix(l@, ']');
            }
        }
        return Err(message3("Unknown status condition: '", e.as_slice(), "'"));
    }
    if starts_with_str(e.as_slice(), "body") {
        let r0 = slice_chars(e.as_slice(), 4, n);
        let r = trim(r0.as_slice());
        let rn = r.len();
        if starts_with_str(r.as_slice(), "contains") {
            let a = slice_chars(r.as_slice(), 8, rn);
            return match parse_quoted_string(a.as_slice()) {
                Ok(needle) => Ok(CheckCondition::BodyContains(needle)),
                Err(m) => Err(m),
            };
        }
        if starts_with_str(r.as_slice(), "not contains") {
            let a = slice_chars(r.as_slice(), 12, rn);
            return match parse_quoted_string(a.as_slice()) {
                Ok(needle) => Ok(CheckCondition::BodyNotContains(needle)),
                Err(m) => Err(m),
            };
        }
        if starts_with_str(r.as_slice(), "matches") {
            let a = slice_chars(r.as_slice(), 7, rn);
            let pattern = match parse_quoted_string(a.as_slice()) {
                Ok(p) => p,
                Err(m) => {
                    return Err(m);
                },
            };
            return match Pattern::compile(pattern.as_str()) {
                Ok(p) => Ok(CheckCondition::BodyMatches(p)),
                Err(m) => {
                    let mc = chars_of(m.as_str());
                    let mut out: Vec<char> = Vec::new();
                    extend_str(&mut out, "Invalid regex: ");
                    extend_chars(&mut out, mc.as_slice());
                    Err(string_of(out.as_slice()))
                },
            };
        }
        return Err(message3("Unknown body condition: '", e.as_slice(), "'"));
    }
    Err(message3("Unknown condition: '", e.as_slice(), "'. Expected 'status ...' or 'body ...'"))
}

// ---------------------------------------------------------------------------
// Evaluating checks and counting their outcomes
// ---------------------------------------------------------------------------

/// The outcome of one check on one response.
#[derive(Debug, Clone)]
pub struct CheckResult {
    pub name: String,
    pub passed: bool,
}

/// The text of a response body as the checks read it: empty when there is
/// none.
pub open spec fn body_text(body: Option<&str>) -> Seq<char> {
    match body {
        Some(b) => b@,
        None => Seq::empty(),
    }
}

/// Evaluates every check on a response with `status` and `body`, in order.
pub fn evaluate_checks(checks: &[Check], status: Option<u16>, body: Option<&str>) -> (out: Vec<
    CheckResult,
>)
    ensures
        out@.len() == checks@.len(),
        forall|i: int|
            0 <= i < checks@.len() ==> (#[trigger] out@[i]).name@ == checks@[i].name@
                && out@[i].passed == cond_holds(cond_view(checks@[i].condition), status, body_text(body)),
{
    let text: &str = match body {
        Some(b) => b,
        None => "",
    };
    proof {
        reveal_strlit("");
    }
    assert(text@ == body_text(body));
    let mut out: Vec<CheckResult> = Vec::new();
    let mut i: usize = 0;
    while i < checks.len()
        invariant
            i <= checks@.len(),
            text@ == body_text(body),
            out@.len() == i,
            forall|j: int|
                0 <= j < i ==> (#[trigger] out@[j]).name@ == checks@[j].name@ && out@[j].passed
                    == cond_holds(cond_view(checks@[j].condition), status, body_text(body)),
        decreases checks@.len() - i,
    {
        let passed = checks[i].condition.evaluate(status, text);
        out.push(CheckResult { name: checks[i].name.clone(), passed });
        i += 1;
    }
    out
}

/// The counts of the entry named `name` in a list of (name, passed,
/// total) entries: the last one of that name.
pub open spec fn tally_lookup(v: Seq<(String, u64, u64)>, name: Seq<char>) -> Option<(u64, u64)>
    decreases v.len(),
{
    if v.len() == 0 {
        None
    } else if v.last().0@ == name {
        Some((v.last().1, v.last().2))
    } else {
        tally_lookup(v.drop_last(), name)
    }
}

/// The names of a list of entries.
pub open spec fn tally_names(v: Seq<(String, u64, u64)>) -> Seq<Seq<char>> {
    Seq::new(v.len(), |i: int| v[i].0@)
}

/// The counts of `name` after one more outcome `passed`.
pub open spec fn tally_bump(c: Option<(u64, u64)>, passed: bool) -> (u64, u64) {
    let (p, t) = match c {
        Some(pt) => pt,
        None => (0u64, 0u64),
    };
    ((p + if passed { 1int } else { 0int }) as u64, (t + 1) as u64)
}

/// How many responses passed each check, out of how many, by check name;
/// names are kept in the order they were first seen.
pub struct CheckTally {
    entries: Vec<(String, u64, u64)>,
}

impl CheckTally {
    /// The invariant: each name once, and never more passes than checks.
    pub closed spec fn wf(&self) -> bool {
        &&& forall|i: int, j: int|
            0 <= i < j < self.entries@.len() ==> (#[trigger] self.entries@[i]).0@ != (
            #[trigger] self.entries@[j]).0@
        &&& forall|i: int| 0 <= i < self.entries@.len() ==> (#[trigger] self.entries@[i]).1 <= self.entries@[i].2
    }

    /// The (passed, total) counts of `name`, if it was seen.
    pub closed spec fn counts(&self, name: Seq<char>) -> Option<(u64, u64)> {
        tally_lookup(self.entries@, name)
    }

    /// The names seen, in the order they were first seen.
    pub closed spec fn names(&self) -> Seq<Seq<char>> {
        tally_names(self.entries@)
    }

    /// A tally with nothing counted.
    pub fn new() -> (t: Self)
        ensures
            t.wf(),
            t.names().len() == 0,
            forall|n: Seq<char>| #[trigger] t.counts(n) is None,
    {
        CheckTally { entries: Vec::new() }
    }

    /// Counts one more outcome of the check `name`.
    pub fn record(&mut self, name: &str, passed: bool)
        requires
            old(self).wf(),
            old(self).counts(name@) matches Some((p, t)) ==> t < u64::MAX,
        ensures
            final(self).wf(),
            final(self).counts(name@) == Some(tally_bump(old(self).counts(name@), passed)),
            forall|n: Seq<char>| n != name@ ==> #[trigger] final(self).counts(n) == old(self).counts(n),
            old(self).counts(name@) is Some ==> final(self).names() == old(self).names(),
            old(self).counts(name@) is None ==> final(self).names() == old(self).names().push(name@),
    {
        let ghost v = self.entries@;
        let n = self.entries.len();
        let mut i: usize = 0;
        while i < n
            invariant
                n == self.entries@.len(),
                self.entries@ == v,
                v == old(self).entries@,
                self.wf(),
                old(self).counts(name@) matches Some((p, t)) ==> t < u64::MAX,
                i <= n,
                forall|j: int| 0 <= j < i ==> (#[trigger] v[j]).0@ != name@,
            decreases n - i,
        {
            if str_eq(self.entries[i].0.as_str(), name) {
                proof {
                    lemma_lookup_at(v, i as int);
                }
                let (_, p, t) = &self.entries[i];
                let p2: u64 = if passed {
                    *p + 1
                } else {
                    *p
                };
                let t2: u64 = *t + 1;
                let entry_name = self.entries[i].0.clone();
                self.entries.set(i, (entry_name, p2, t2));
                proof {
                    lemma_lookup_update(v, i as int, self.entries@[i as int]);
                    assert(self.entries@ == v.update(i as int, self.entries@[i as int]));
                    assert(tally_names(self.entries@) =~= tally_names(v));
                }
                return;
            }
            i += 1;
        }
        proof {
            lemma_lookup_absent(v, name@);
        }
        self.entries.push((name.to_string(), if passed { 1 } else { 0 }, 1));
        proof {
            assert(self.entries@.drop_last() == v);
            assert(tally_names(self.entries@) =~= tally_names(v).push(name@));
        }
    }

    /// The (passed, total) counts of `name`, if it was seen.
    pub fn get(&self, name: &str) -> (c: Option<(u64, u64)>)
        requires
            self.wf(),
        ensures
            c == self.counts(name@),
            c matches Some((p, t)) ==> p <= t,
    {
        let n = self.entries.len();
        let mut i: usize = 0;
        while i < n
            invariant
                n == self.entries@.len(),
                self.wf(),
                i <= n,
                forall|j: int| 0 <= j < i ==> (#[trigger] self.entries@[j]).0@ != name@,
            decreases n - i,
        {
            if str_eq(self.entries[i].0.as_str(), name) {
                proof {
                    lemma_lookup_at(self.entries@, i as int);
                }
                return Some((self.entries[i].1, self.entries[i].2));
            }
            i += 1;
        }
        proof {
            lemma_lookup_absent(self.entries@, name@);
        }
        None
    }

    /// The entries (name, passed, total), in the order the names were first
    /// seen.
    pub fn entries(&self) -> (v: &Vec<(String, u64, u64)>)
        ensures
            tally_names(v@) == self.names(),
            forall|n: Seq<char>| #[trigger] tally_lookup(v@, n) == self.counts(n),
    {
        &self.entries
    }

    /// Whether nothing was counted.
    pub fn is_empty(&self) -> (b: bool)
        ensures
            b == (self.names().len() == 0),
    {
        self.entries.len() == 0
    }
}

/// A check never passes more often than it ran.
pub proof fn lemma_tally_passes_bounded(t: CheckTally, name: Seq<char>)
    requires
        t.wf(),
    ensures
        t.counts(name) matches Some((p, n)) ==> p <= n,
{
    lemma_lookup_bounded(t.entries@, name);
}

proof fn lemma_lookup_bounded(v: Seq<(String, u64, u64)>, name: Seq<char>)
    requires
        forall|i: int| 0 <= i < v.len() ==> (#[trigger] v[i]).1 <= v[i].2,
    ensures
        tally_lookup(v, name) matches Some((p, n)) ==> p <= n,
    decreases v.len(),
{
    if v.len() > 0 {
        assert(v.last() == v[v.len() - 1]);
        lemma_lookup_bounded(v.drop_last(), name);
    }
}

/// In a list with distinct names, the entry at `i` is what its name looks
/// up.
proof fn lemma_lookup_at(v: Seq<(String, u64, u64)>, i: int)
    requires
        0 <= i < v.len(),
        forall|a: int, b: int| 0 <= a < b < v.len() ==> (#[trigger] v[a]).0@ != (#[trigger] v[b]).0@,
    ensures
        tally_lookup(v, v[i].0@) == Some((v[i].1, v[i].2)),
    decreases v.len(),
{
    if i < v.len() - 1 {
        assert(v.last() == v[v.len() - 1]);
        lemma_lookup_at(v.drop_last(), i);
    }
}

/// A name that no entry has looks up nothing.
proof fn lemma_lookup_absent(v: Seq<(String, u64, u64)>, name: Seq<char>)
    requires
        forall|j: int| 0 <= j < v.len() ==> (#[trigger] v[j]).0@ != name,
    ensures
        tally_lookup(v, name) is None,
    decreases v.len(),
{
    if v.len() > 0 {
        lemma_lookup_absent(v.drop_last(), name);
    }
}

/// Replacing the counts of entry `i`, under the same name, changes what
/// that name looks up and nothing else.
proof fn lemma_lookup_update(v: Seq<(String, u64, u64)>, i: int, e: (String, u64, u64))
    requires
        0 <= i < v.len(),
        e.0@ == v[i].0@,
        forall|a: int, b: int| 0 <= a < b < v.len() ==> (#[trigger] v[a]).0@ != (#[trigger] v[b]).0@,
    ensures
        forall|n: Seq<char>| #[trigger] tally_lookup(v.update(i, e), n) == if n == e.0@ {
            Some((e.1, e.2))
        } else {
            tally_lookup(v, n)
        },
    decreases v.len(),
{
    let u = v.update(i, e);
    if i == v.len() - 1 {
        assert(u.drop_last() =~= v.drop_last());
        assert forall|n: Seq<char>| #[trigger] tally_lookup(u, n) == if n == e.0@ {
            Some((e.1, e.2))
        } else {
            tally_lookup(v, n)
        } by {
            assert(u.last() == e);
        }
    } else {
        lemma_lookup_update(v.drop_last(), i, e);
        assert(u.drop_last() =~= v.drop_last().update(i, e));
        assert(u.last() == v.last());
        assert forall|n: Seq<char>| #[trigger] tally_lookup(u, n) == if n == e.0@ {
            Some((e.1, e.2))
        } else {
            tally_lookup(v, n)
        } by {
            assert(u.last() == v[v.len() - 1]);
            assert(tally_lookup(u.drop_last(), n) == tally_lookup(v.drop_last().update(i, e), n));
            if n == e.0@ {
                assert(v[v.len() - 1].0@ != v[i].0@);
                assert(tally_lookup(u, n) == tally_lookup(u.drop_last(), n));
            } else {
                assert(tally_lookup(v.drop_last().update(i, e), n) == tally_lookup(v.drop_last(), n));
            }
        }
    }
}

} // verus!
