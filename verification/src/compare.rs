//! The parts of comparing two saved runs that do not measure: whether the
//! runs may be compared at all, what differs in their settings, and which
//! status codes to compare.
use vstd::prelude::*;

use crate::output::{Load, Target};
use crate::text::{
    chars_of, decimal, extend_str, has_prefix, owned, parse_unsigned, parse_unsigned_spec, push_decimal,
    str_eq, string_of,
};

verus! {

/// Whether a saved run was open (paced by an arrival rate): its model says
/// `open`; a run without a model was closed.
pub open spec fn is_open(l: Load) -> bool {
    l.load_model matches Some(m) && m@ == "open"@
}

/// The name of a load model.
pub open spec fn model_name(open: bool) -> Seq<char> {
    if open {
        "Open"@
    } else {
        "Closed"@
    }
}

/// An optional setting, zero when absent.
pub open spec fn or_zero(v: Option<u32>) -> u32 {
    match v {
        Some(x) => x,
        None => 0,
    }
}

/// Whether a saved run was open.
pub fn load_is_open(l: &Load) -> (b: bool)
    ensures
        b == is_open(*l),
{
    match &l.load_model {
        Some(m) => str_eq(m.as_str(), "open"),
        None => false,
    }
}

/// The line describing the load model of a run, after `label`.
pub open spec fn model_line(label: Seq<char>, l: Load) -> Seq<char> {
    if is_open(l) {
        label + "Open (arrival rate)  target="@ + decimal(or_zero(l.arrival_rate) as nat)
            + "  max_vus="@ + decimal(or_zero(l.max_vus) as nat)
    } else {
        label + "Closed (VU-driven)   vus="@ + decimal(l.concurrency as nat)
    }
}

/// Describes the load model of a run.
pub fn load_model_line(label: &str, l: &Load) -> (s: String)
    ensures
        s@ == model_line(label@, *l),
{
    let mut out: Vec<char> = Vec::new();
    extend_str(&mut out, label);
    if load_is_open(l) {
        extend_str(&mut out, "Open (arrival rate)  target=");
        push_decimal(&mut out, match l.arrival_rate { Some(r) => r as u64, None => 0 });
        extend_str(&mut out, "  max_vus=");
        push_decimal(&mut out, match l.max_vus { Some(m) => m as u64, None => 0 });
    } else {
        extend_str(&mut out, "Closed (VU-driven)   vus=");
        push_decimal(&mut out, l.concurrency as u64);
    }
    string_of(out.as_slice())
}

/// `w` with `line` added when `cond` holds.
pub open spec fn warn_if(w: Seq<Seq<char>>, cond: bool, line: Seq<char>) -> Seq<Seq<char>> {
    if cond {
        w.push(line)
    } else {
        w
    }
}

/// The warnings of comparing two runs, in order: a forced comparison of
/// different models; for two open runs a different target rate or limit
/// of users, for two closed runs a different concurrency; a different URL;
/// a different method.
pub open spec fn warnings_spec(bl: Load, bt: Target, cl: Load, ct: Target) -> Seq<Seq<char>> {
    let bo = is_open(bl);
    let co = is_open(cl);
    let w0 = warn_if(
        Seq::empty(),
        bo != co,
        "Load models differ: "@ + model_name(bo) + " vs "@ + model_name(co) + " (forced comparison)"@,
    );
    let w1 = if bo && co {
        let w = warn_if(
            w0,
            or_zero(bl.arrival_rate) != or_zero(cl.arrival_rate),
            "Target RPS differs: "@ + decimal(or_zero(bl.arrival_rate) as nat) + " vs "@ + decimal(
                or_zero(cl.arrival_rate) as nat,
            ),
        );
        warn_if(
            w,
            or_zero(bl.max_vus) != or_zero(cl.max_vus),
            "Max VUs differs: "@ + decimal(or_zero(bl.max_vus) as nat) + " vs "@ + decimal(
                or_zero(cl.max_vus) as nat,
            ),
        )
    } else if !bo && !co {
        warn_if(
            w0,
            bl.concurrency != cl.concurrency,
            "Concurrency differs: "@ + decimal(bl.concurrency as nat) + " vs "@ + decimal(
                cl.concurrency as nat,
            ),
        )
    } else {
        w0
    };
    let w2 = warn_if(w1, bt.url@ != ct.url@, "URL differs: '"@ + bt.url@ + "' vs '"@ + ct.url@ + "'"@);
    warn_if(w2, bt.method@ != ct.method@, "Method differs: "@ + bt.method@ + " vs "@ + ct.method@)
}

/// Whenever the two runs' target methods differ, the last warning is
/// "Method differs: <baseline> vs <current>"; when they are equal, no
/// warning speaks of the method.
pub proof fn lemma_method_warning(bl: Load, bt: Target, cl: Load, ct: Target)
    ensures
        bt.method@ != ct.method@ ==> {
            let w = warnings_spec(bl, bt, cl, ct);
            &&& w.len() > 0
            &&& w.last() == "Method differs: "@ + bt.method@ + " vs "@ + ct.method@
            &&& w.contains("Method differs: "@ + bt.method@ + " vs "@ + ct.method@)
        },
        bt.method@ == ct.method@ ==> forall|i: int|
            0 <= i < warnings_spec(bl, bt, cl, ct).len() ==> !has_prefix(
                #[trigger] warnings_spec(bl, bt, cl, ct)[i],
                "Method differs: "@,
            ),
{
    let w = warnings_spec(bl, bt, cl, ct);
    let line = "Method differs: "@ + bt.method@ + " vs "@ + ct.method@;
    if bt.method@ != ct.method@ {
        assert(w.last() == line);
        assert(w[w.len() - 1] == line);
    } else {
        reveal_strlit("Method differs: ");
        reveal_strlit("Load models differ: ");
        reveal_strlit("Target RPS differs: ");
        reveal_strlit("Max VUs differs: ");
        reveal_strlit("Concurrency differs: ");
        reveal_strlit("URL differs: '");
        assert forall|i: int| 0 <= i < w.len() implies !has_prefix(#[trigger] w[i], "Method differs: "@) by {
            let x = w[i];
            assert(x.len() >= 2 && !(x[0] == 'M' && x[1] == 'e'));
            if has_prefix(x, "Method differs: "@) {
                assert(x.subrange(0, 16)[1] == x[1]);
                assert(x.subrange(0, 16)[0] == x[0]);
            }
        }
    }
}

/// The other differences are reported too: a forced comparison of runs of
/// different models says so first; two closed runs with different
/// concurrency, and two runs with different URLs, each get their line.
pub proof fn lemma_setting_warnings(bl: Load, bt: Target, cl: Load, ct: Target)
    ensures
        is_open(bl) != is_open(cl) ==> warnings_spec(bl, bt, cl, ct).len() > 0 && warnings_spec(bl, bt, cl, ct)[0]
            == "Load models differ: "@ + model_name(is_open(bl)) + " vs "@ + model_name(is_open(cl))
            + " (forced comparison)"@,
        !is_open(bl) && !is_open(cl) && bl.concurrency != cl.concurrency ==> warnings_spec(
            bl,
            bt,
            cl,
            ct,
        ).contains(
            "Concurrency differs: "@ + decimal(bl.concurrency as nat) + " vs "@ + decimal(cl.concurrency as nat),
        ),
        bt.url@ != ct.url@ ==> warnings_spec(bl, bt, cl, ct).contains(
            "URL differs: '"@ + bt.url@ + "' vs '"@ + ct.url@ + "'"@,
        ),
        bl.concurrency == cl.concurrency && bt.url@ == ct.url@ && bt.method@ == ct.method@ && is_open(bl)
            == is_open(cl) && or_zero(bl.arrival_rate) == or_zero(cl.arrival_rate) && or_zero(bl.max_vus)
            == or_zero(cl.max_vus) ==> warnings_spec(bl, bt, cl, ct).len() == 0,
{
    let w = warnings_spec(bl, bt, cl, ct);
    if !is_open(bl) && !is_open(cl) && bl.concurrency != cl.concurrency {
        let line = "Concurrency differs: "@ + decimal(bl.concurrency as nat) + " vs "@ + decimal(cl.concurrency as nat);
        assert(w[0] == line);
    }
    if bt.url@ != ct.url@ {
        let line = "URL differs: '"@ + bt.url@ + "' vs '"@ + ct.url@ + "'"@;
        let k = if bt.method@ != ct.method@ { w.len() - 2 } else { w.len() - 1 };
        assert(w[k] == line);
    }
}

/// Checks that two runs can be compared and collects the differences of
/// their settings. Runs of different load models are compared only when
/// forced.
pub fn check_compatibility(
    base_load: &Load,
    base_target: &Target,
    cur_load: &Load,
    cur_target: &Target,
    force: bool,
) -> (r: Result<Vec<String>, String>)
    ensures
        if is_open(*base_load) != is_open(*cur_load) && !force {
            r matches Err(e) && e@ == "Cannot compare "@ + model_name(is_open(*base_load)) + " vs "@
                + model_name(is_open(*cur_load)) + " runs. Use --force to compare anyway."@
        } else {
            r matches Ok(w) && crate::config::strings_view(w@) == warnings_spec(
                *base_load,
                *base_target,
                *cur_load,
                *cur_target,
            )
        },
{
    let bo = load_is_open(base_load);
    let co = load_is_open(cur_load);
    let bname = if bo { "Open" } else { "Closed" };
    let cname = if co { "Open" } else { "Closed" };
    if bo != co && !force {
        let mut m: Vec<char> = Vec::new();
        extend_str(&mut m, "Cannot compare ");
        extend_str(&mut m, bname);
        extend_str(&mut m, " vs ");
        extend_str(&mut m, cname);
        extend_str(&mut m, " runs. Use --force to compare anyway.");
        return Err(string_of(m.as_slice()));
    }
    let mut warnings: Vec<String> = Vec::new();
    let ghost mut w: Seq<Seq<char>> = Seq::empty();
    if bo != co {
        let mut m: Vec<char> = Vec::new();
        extend_str(&mut m, "Load models differ: ");
        extend_str(&mut m, bname);
        extend_str(&mut m, " vs ");
        extend_str(&mut m, cname);
        extend_str(&mut m, " (forced comparison)");
        let s = string_of(m.as_slice());
        proof {
            w = w.push(s@);
        }
        warnings.push(s);
    }
    assert(crate::config::strings_view(warnings@) =~= w);
    if bo && co {
        let br = match base_load.arrival_rate { Some(r) => r, None => 0 };
        let cr = match cur_load.arrival_rate { Some(r) => r, None => 0 };
        if br != cr {
            let mut m: Vec<char> = Vec::new();
            extend_str(&mut m, "Target RPS differs: ");
            push_decimal(&mut m, br as u64);
            extend_str(&mut m, " vs ");
            push_decimal(&mut m, cr as u64);
            let s = string_of(m.as_slice());
            let ghost before = warnings@;
            warnings.push(s);
            proof {
                assert(crate::config::strings_view(warnings@) =~= crate::config::strings_view(before).push(s@));
                w = w.push(s@);
            }
        }
        let bm = match base_load.max_vus { Some(r) => r, None => 0 };
        let cm = match cur_load.max_vus { Some(r) => r, None => 0 };
        if bm != cm {
            let mut m: Vec<char> = Vec::new();
            extend_str(&mut m, "Max VUs differs: ");
            push_decimal(&mut m, bm as u64);
            extend_str(&mut m, " vs ");
            push_decimal(&mut m, cm as u64);
            let s = string_of(m.as_slice());
            let ghost before = warnings@;
            warnings.push(s);
            proof {
                assert(crate::config::strings_view(warnings@) =~= crate::config::strings_view(before).push(s@));
                w = w.push(s@);
            }
        }
    } else if !bo && !co {
        if base_load.concurrency != cur_load.concurrency {
            let mut m: Vec<char> = Vec::new();
            extend_str(&mut m, "Concurrency differs: ");
            push_decimal(&mut m, base_load.concurrency as u64);
            extend_str(&mut m, " vs ");
            push_decimal(&mut m, cur_load.concurrency as u64);
            let s = string_of(m.as_slice());
            let ghost before = warnings@;
            warnings.push(s);
            proof {
                assert(crate::config::strings_view(warnings@) =~= crate::config::strings_view(before).push(s@));
                w = w.push(s@);
            }
        }
    }
    if !str_eq(base_target.url.as_str(), cur_target.url.as_str()) {
        let mut m: Vec<char> = Vec::new();
        extend_str(&mut m, "URL differs: '");
        extend_str(&mut m, base_target.url.as_str());
        extend_str(&mut m, "' vs '");
        extend_str(&mut m, cur_target.url.as_str());
        extend_str(&mut m, "'");
        let s = string_of(m.as_slice());
        let ghost before = warnings@;
        warnings.push(s);
        proof {
            assert(crate::config::strings_view(warnings@) =~= crate::config::strings_view(before).push(s@));
            w = w.push(s@);
        }
    }
    if !str_eq(base_target.method.as_str(), cur_target.method.as_str()) {
        let mut m: Vec<char> = Vec::new();
        extend_str(&mut m, "Method differs: ");
        extend_str(&mut m, base_target.method.as_str());
        extend_str(&mut m, " vs ");
        extend_str(&mut m, cur_target.method.as_str());
        let s = string_of(m.as_slice());
        let ghost before = warnings@;
        warnings.push(s);
        proof {
            assert(crate::config::strings_view(warnings@) =~= crate::config::strings_view(before).push(s@));
            w = w.push(s@);
        }
    }
    Ok(warnings)
}

// ---------------------------------------------------------------------------
// Status codes
// ---------------------------------------------------------------------------

/// Whether some key of `keys` reads as the status code `c`.
pub open spec fn code_listed(keys: Seq<(String, u64)>, c: u16) -> bool {
    exists|i: int| 0 <= i < keys.len() && parse_unsigned_spec((#[trigger] keys[i]).0@, 65535) == Some(c as nat)
}

/// The count under the key that is the decimal text of `c`, or zero.
pub open spec fn count_under(m: Seq<(String, u64)>, c: u16) -> u64
    decreases m.len(),
{
    if m.len() == 0 {
        0
    } else if m[0].0@ == decimal(c as nat) {
        m[0].1
    } else {
        count_under(m.drop_first(), c)
    }
}

/// The status codes below `n` that either run lists, ascending, with their
/// counts in both runs, where some count is positive.
pub open spec fn code_rows_upto(b: Seq<(String, u64)>, c: Seq<(String, u64)>, n: int) -> Seq<(u16, u64, u64)>
    decreases n,
{
    if n <= 0 {
        Seq::empty()
    } else {
        let rest = code_rows_upto(b, c, n - 1);
        let code = (n - 1) as u16;
        if (code_listed(b, code) || code_listed(c, code)) && (count_under(b, code) > 0 || count_under(c, code) > 0) {
            rest.push((code, count_under(b, code), count_under(c, code)))
        } else {
            rest
        }
    }
}

/// The status codes to compare: every key of either run that reads as a
/// status code, ascending and once, with its count in each run (under its
/// decimal text), when one of them is positive.
pub open spec fn code_rows(b: Seq<(String, u64)>, c: Seq<(String, u64)>) -> Seq<(u16, u64, u64)> {
    code_rows_upto(b, c, 65536)
}

/// The codes that the keys of `m` read as.
fn parsed_codes(m: &[(String, u64)]) -> (out: Vec<u16>)
    ensures
        forall|c: u16| out@.contains(c) <==> code_listed(m@, c),
{
    let mut out: Vec<u16> = Vec::new();
    let mut i: usize = 0;
    while i < m.len()
        invariant
            i <= m@.len(),
            forall|c: u16| out@.contains(c) <==> exists|k: int| 0 <= k < i && parse_unsigned_spec((#[trigger] m@[k]).0@, 65535) == Some(c as nat),
        decreases m@.len() - i,
    {
        let kc = chars_of(m[i].0.as_str());
        match crate::text::parse_u16(kc.as_slice()) {
            Some(v) => {
                let ghost before = out@;
                out.push(v);
                proof {
                    assert forall|c: u16| out@.contains(c) <==> exists|k: int| 0 <= k < i + 1 && parse_unsigned_spec((#[trigger] m@[k]).0@, 65535) == Some(c as nat) by {
                        if out@.contains(c) {
                            let j = choose|j: int| 0 <= j < out@.len() && out@[j] == c;
                            if j < before.len() {
                                assert(before.contains(c));
                            }
                        }
                        if exists|k: int| 0 <= k < i + 1 && parse_unsigned_spec((#[trigger] m@[k]).0@, 65535) == Some(c as nat) {
                            let k = choose|k: int| 0 <= k < i + 1 && parse_unsigned_spec((#[trigger] m@[k]).0@, 65535) == Some(c as nat);
                            if k < i {
                                assert(before.contains(c));
                                let j = choose|j: int| 0 <= j < before.len() && before[j] == c;
                                assert(out@[j] == c);
                            } else {
                                assert(out@[before.len() as int] == c);
                            }
                        }
                    }
                }
            },
            None => {},
        }
        i += 1;
    }
    out
}

/// Whether `c` is in `v`.
fn has_code(v: &Vec<u16>, c: u16) -> (b: bool)
    ensures
        b == v@.contains(c),
{
    let mut i: usize = 0;
    while i < v.len()
        invariant
            i <= v@.len(),
            forall|k: int| 0 <= k < i ==> v@[k] != c,
        decreases v@.len() - i,
    {
        if v[i] == c {
            return true;
        }
        i += 1;
    }
    false
}

/// The count under the decimal text of `c`.
fn lookup_count(m: &[(String, u64)], c: u16) -> (n: u64)
    ensures
        n == count_under(m@, c),
{
    let key = crate::text::decimal_string(c as u64);
    let mut i: usize = 0;
    assert(m@.skip(0) == m@);
    while i < m.len()
        invariant
            i <= m@.len(),
            key@ == decimal(c as nat),
            count_under(m@, c) == count_under(m@.skip(i as int), c),
        decreases m@.len() - i,
    {
        assert(m@.skip(i as int)[0] == m@[i as int]);
        assert(m@.skip(i as int).drop_first() == m@.skip(i + 1));
        if str_eq(m[i].0.as_str(), key.as_str()) {
            return m[i].1;
        }
        i += 1;
    }
    0
}

/// Lists the status codes to compare between two runs, with their counts.
pub fn status_code_rows(base: &[(String, u64)], cur: &[(String, u64)]) -> (out: Vec<(u16, u64, u64)>)
    ensures
        out@ == code_rows(base@, cur@),
{
    let pb = parsed_codes(base);
    let pc = parsed_codes(cur);
    let mut out: Vec<(u16, u64, u64)> = Vec::new();
    let mut n: u32 = 0;
    assert(base@.skip(0) == base@);
    assert(cur@.skip(0) == cur@);
    while n < 65536
        invariant
            n <= 65536,
            forall|c: u16| pb@.contains(c) <==> code_listed(base@, c),
            forall|c: u16| pc@.contains(c) <==> code_listed(cur@, c),
            out@ == code_rows_upto(base@, cur@, n as int),
        decreases 65536 - n,
    {
        let code = n as u16;
        let listed = has_code(&pb, code) || has_code(&pc, code);
        if listed {
            let bc = lookup_count(base, code);
            let cc = lookup_count(cur, code);
            if bc > 0 || cc > 0 {
                out.push((code, bc, cc));
            }
        }
        n += 1;
    }
    out
}

/// The exit status of `compare`: 5 when the load models differ and the
/// comparison was not forced, else 3 when a metric regressed, else 0.
pub fn compare_exit_code(models_mismatch: bool, has_regressions: bool) -> (c: i32)
    ensures
        c == (if models_mismatch {
            5i32
        } else if has_regressions {
            3i32
        } else {
            0i32
        }),
{
    if models_mismatch {
        5
    } else if has_regressions {
        3
    } else {
        0
    }
}

} // verus!
