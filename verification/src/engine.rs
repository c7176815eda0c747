//! The decisions of the engine that do not wait on anything: which mode a
//! run uses, how long it lasts, how many workers it needs, which scenario an
//! iteration runs and how request texts are filled in.
use vstd::prelude::*;

use crate::check::{Check, CheckCondition};
use crate::config::{LoadConfig, Scenario};
use crate::scheduler::{RateStage, stages_total};
use crate::text::{chars_of, contains_seq, decimal, has_prefix, lemma_replace_absent, push_decimal, replace_all, replace_spec, starts_with_str, string_of};
use crate::types::Stage;

verus! {

// ---------------------------------------------------------------------------
// Modes
// ---------------------------------------------------------------------------

/// The ways a run generates load.
#[derive(Debug, Clone, Copy, PartialEq, Eq, Structural)]
pub enum RunMode {
    WebSocket,
    Grpc,
    Http3,
    ArrivalRate,
    Burst,
    ConstantVus,
}

/// Whether some stage sets a rate target.
pub open spec fn has_rate_target(stages: Seq<Stage>) -> bool {
    exists|i: int| 0 <= i < stages.len() && (#[trigger] stages[i]).target_rate is Some
}

/// Whether some stage sets a worker target.
pub open spec fn has_vu_target(stages: Seq<Stage>) -> bool {
    exists|i: int| 0 <= i < stages.len() && (#[trigger] stages[i]).target is Some
}

/// The mode of a run: a `ws://` or `wss://` URL, then gRPC (service and
/// method named), then HTTP/3, then an arrival rate (set, or as rate
/// stages), then bursts, else a constant number of workers.
pub open spec fn mode_spec(c: LoadConfig) -> RunMode {
    if has_prefix(c.url@, "ws://"@) || has_prefix(c.url@, "wss://"@) {
        RunMode::WebSocket
    } else if c.grpc_service is Some && c.grpc_method is Some {
        RunMode::Grpc
    } else if c.http3 {
        RunMode::Http3
    } else if c.arrival_rate is Some || has_rate_target(c.stages@) {
        RunMode::ArrivalRate
    } else if c.burst_config is Some {
        RunMode::Burst
    } else {
        RunMode::ConstantVus
    }
}

/// Every URL of the `ws://` or `wss://` scheme is load-tested over
/// WebSocket, whatever else the configuration sets.
pub proof fn lemma_websocket_urls(c: LoadConfig)
    ensures
        has_prefix(c.url@, "ws://"@) ==> mode_spec(c) == RunMode::WebSocket,
        has_prefix(c.url@, "wss://"@) ==> mode_spec(c) == RunMode::WebSocket,
        mode_spec(c) == RunMode::WebSocket ==> has_prefix(c.url@, "ws://"@) || has_prefix(
            c.url@,
            "wss://"@,
        ),
{
}

/// Off WebSocket URLs, the modes take precedence in a fixed order: gRPC
/// (both a service and a method named) over HTTP/3, HTTP/3 over an arrival
/// rate (set, or given by rate stages), an arrival rate over bursts, and
/// without any of them the run keeps a constant number of workers.
pub proof fn lemma_mode_precedence(c: LoadConfig)
    requires
        !has_prefix(c.url@, "ws://"@),
        !has_prefix(c.url@, "wss://"@),
    ensures
        c.grpc_service is Some && c.grpc_method is Some ==> mode_spec(c) == RunMode::Grpc,
        (c.grpc_service is None || c.grpc_method is None) && c.http3 ==> mode_spec(c) == RunMode::Http3,
        (c.grpc_service is None || c.grpc_method is None) && !c.http3 && (c.arrival_rate is Some
            || has_rate_target(c.stages@)) ==> mode_spec(c) == RunMode::ArrivalRate,
        (c.grpc_service is None || c.grpc_method is None) && !c.http3 && c.arrival_rate is None
            && !has_rate_target(c.stages@) && c.burst_config is Some ==> mode_spec(c) == RunMode::Burst,
        (c.grpc_service is None || c.grpc_method is None) && !c.http3 && c.arrival_rate is None
            && !has_rate_target(c.stages@) && c.burst_config is None ==> mode_spec(c) == RunMode::ConstantVus,
{
}

/// Whether some stage sets a rate target.
pub fn any_rate_target(stages: &Vec<Stage>) -> (b: bool)
    ensures
        b == has_rate_target(stages@),
{
    let mut i: usize = 0;
    while i < stages.len()
        invariant
            i <= stages@.len(),
            forall|k: int| 0 <= k < i ==> (#[trigger] stages@[k]).target_rate is None,
        decreases stages@.len() - i,
    {
        if stages[i].target_rate.is_some() {
            return true;
        }
        i += 1;
    }
    false
}

/// Whether some stage sets a worker target.
pub fn any_vu_target(stages: &Vec<Stage>) -> (b: bool)
    ensures
        b == has_vu_target(stages@),
{
    let mut i: usize = 0;
    while i < stages.len()
        invariant
            i <= stages@.len(),
            forall|k: int| 0 <= k < i ==> (#[trigger] stages@[k]).target is None,
        decreases stages@.len() - i,
    {
        if stages[i].target.is_some() {
            return true;
        }
        i += 1;
    }
    false
}

/// Picks the mode of a run.
pub fn select_mode(config: &LoadConfig) -> (m: RunMode)
    ensures
        m == mode_spec(*config),
{
    proof {
        reveal_strlit("ws://");
        reveal_strlit("wss://");
    }
    let url = chars_of(config.url.as_str());
    if starts_with_str(url.as_slice(), "ws://") || starts_with_str(url.as_slice(), "wss://") {
        RunMode::WebSocket
    } else if config.grpc_service.is_some() && config.grpc_method.is_some() {
        RunMode::Grpc
    } else if config.http3 {
        RunMode::Http3
    } else if config.arrival_rate.is_some() || any_rate_target(&config.stages) {
        RunMode::ArrivalRate
    } else if config.burst_config.is_some() {
        RunMode::Burst
    } else {
        RunMode::ConstantVus
    }
}

// ---------------------------------------------------------------------------
// Run plans
// ---------------------------------------------------------------------------

/// What an arrival-rate run needs to start.
pub struct ArrivalPlan {
    pub max_vus: u32,
    pub rate_stages: Vec<RateStage>,
    pub arrival_rate: u32,
    pub pre_allocated_vus: u32,
    pub initial_target_rate: u32,
    pub total_duration_us: u64,
}

/// The rate stages among `stages`, in order.
pub open spec fn rate_stages_of(stages: Seq<Stage>) -> Seq<(u64, u32)>
    decreases stages.len(),
{
    if stages.len() == 0 {
        Seq::empty()
    } else {
        let rest = rate_stages_of(stages.drop_last());
        match stages.last().target_rate {
            Some(r) => rest.push((stages.last().duration_us, r)),
            None => rest,
        }
    }
}

/// The largest of `rates`, or `fallback` when there are none.
pub open spec fn max_rate(rates: Seq<(u64, u32)>, fallback: u32) -> u32
    decreases rates.len(),
{
    if rates.len() == 0 {
        fallback
    } else if rates.len() == 1 {
        rates[0].1
    } else {
        let m = max_rate(rates.drop_last(), fallback);
        if m < rates.last().1 {
            rates.last().1
        } else {
            m
        }
    }
}

/// The start allocation of virtual users for a top rate: a tenth of it, at
/// least one, at most the limit.
pub open spec fn pre_alloc(rate: u32, max_vus: u32) -> u32 {
    let t = if rate / 10 < 1 { 1 } else { rate / 10 };
    if t < max_vus {
        t
    } else {
        max_vus
    }
}

/// The view of rate stages.
pub open spec fn rate_stages_view(v: Seq<RateStage>) -> Seq<(u64, u32)> {
    Seq::new(v.len(), |i: int| (v[i].duration_us, v[i].target_rate))
}

/// The plan of an arrival-rate run of `c`: at most `max_vus` users (100 by
/// default); with rate stages, their ramp and a start allocation for the
/// top rate (10 without any), over the warmup and the stages; else the
/// constant rate (10 by default) over the warmup and the duration.
pub open spec fn arrival_plan_ok(p: ArrivalPlan, c: LoadConfig) -> bool {
    let max_vus = match c.max_vus {
        Some(v) => v,
        None => 100,
    };
    let stages = rate_stages_of(c.stages@);
    &&& p.max_vus == max_vus
    &&& rate_stages_view(p.rate_stages@) == stages
    &&& p.arrival_rate == match c.arrival_rate {
        Some(r) => r,
        None => 10,
    }
    &&& p.pre_allocated_vus == (if has_rate_target(c.stages@) {
        pre_alloc(max_rate(stages, 10), max_vus)
    } else {
        pre_alloc(p.arrival_rate, max_vus)
    })
    &&& p.initial_target_rate == (if has_rate_target(c.stages@) {
        match c.stages@[0].target_rate {
            Some(r) => r,
            None => 0,
        }
    } else {
        match c.arrival_rate {
            Some(r) => r,
            None => 0,
        }
    })
    &&& p.total_duration_us == (if has_rate_target(c.stages@) {
        c.warmup_us + stages_total(c.stages@)
    } else {
        c.warmup_us + c.duration_us
    })
}

proof fn lemma_total_prefix(stages: Seq<Stage>, k: int)
    requires
        0 <= k <= stages.len(),
    ensures
        stages_total(stages.take(k)) <= stages_total(stages),
    decreases stages.len() - k,
{
    if k < stages.len() {
        lemma_total_prefix(stages, k + 1);
        assert(stages.take(k + 1).drop_last() == stages.take(k));
    } else {
        assert(stages.take(k) == stages);
    }
}

/// Plans an arrival-rate run.
pub fn plan_arrival(c: &LoadConfig) -> (p: ArrivalPlan)
    requires
        c.warmup_us + stages_total(c.stages@) <= u64::MAX,
        c.warmup_us + c.duration_us <= u64::MAX,
    ensures
        arrival_plan_ok(p, *c),
{
    let max_vus = match c.max_vus {
        Some(v) => v,
        None => 100,
    };
    let has_rate = any_rate_target(&c.stages);
    let mut rate_stages: Vec<RateStage> = Vec::new();
    let mut top: u32 = 10;
    let mut total: u64 = c.warmup_us;
    let mut i: usize = 0;
    while i < c.stages.len()
        invariant
            i <= c.stages@.len(),
            c.warmup_us + stages_total(c.stages@) <= u64::MAX,
            rate_stages_view(rate_stages@) == rate_stages_of(c.stages@.take(i as int)),
            top == max_rate(rate_stages_of(c.stages@.take(i as int)), 10),
            total == c.warmup_us + stages_total(c.stages@.take(i as int)),
        decreases c.stages@.len() - i,
    {
        let s = c.stages[i];
        proof {
            assert(c.stages@.take(i + 1).drop_last() == c.stages@.take(i as int));
            assert(c.stages@.take(i + 1).last() == s);
            lemma_total_prefix(c.stages@, i + 1);
        }
        if let Some(r) = s.target_rate {
            let ghost before = rate_stages@;
            rate_stages.push(RateStage { duration_us: s.duration_us, target_rate: r });
            assert(rate_stages_view(rate_stages@) =~= rate_stages_view(before).push((s.duration_us, r)));
            proof {
                let prev = rate_stages_of(c.stages@.take(i as int));
                assert(prev.push((s.duration_us, r)).drop_last() == prev);
            }
            top = if rate_stages.len() == 1 {
                r
            } else if top < r {
                r
            } else {
                top
            };
        }
        total = total + s.duration_us;
        i += 1;
    }
    assert(c.stages@.take(c.stages@.len() as int) == c.stages@);
    let arrival_rate = match c.arrival_rate {
        Some(r) => r,
        None => 10,
    };
    let tenth_of = if has_rate {
        top
    } else {
        arrival_rate
    };
    let t = if tenth_of / 10 < 1 {
        1
    } else {
        tenth_of / 10
    };
    let pre_allocated_vus = if t < max_vus {
        t
    } else {
        max_vus
    };
    let initial_target_rate = if has_rate {
        match c.stages[0].target_rate {
            Some(r) => r,
            None => 0,
        }
    } else {
        match c.arrival_rate {
            Some(r) => r,
            None => 0,
        }
    };
    let total_duration_us = if has_rate {
        total
    } else {
        c.warmup_us + c.duration_us
    };
    ArrivalPlan {
        max_vus,
        rate_stages,
        arrival_rate,
        pre_allocated_vus,
        initial_target_rate,
        total_duration_us,
    }
}

/// What a run with a constant (or staged) number of workers needs.
pub struct ConstantVusPlan {
    pub use_stages: bool,
    pub max_workers: u32,
    pub total_duration_us: u64,
}

/// The largest worker target of `stages`, or one.
pub open spec fn max_target(stages: Seq<Stage>) -> u32
    decreases stages.len(),
{
    if stages.len() == 0 {
        1
    } else {
        let m = max_target(stages.drop_last());
        match stages.last().target {
            Some(t) => if has_vu_target(stages.drop_last()) {
                if m < t {
                    t
                } else {
                    m
                }
            } else {
                t
            },
            None => m,
        }
    }
}

/// Plans a run with a constant number of workers: staged when some stage
/// sets a worker target (as many workers as the largest target, over the
/// warmup and the stages), else `concurrency` workers over the warmup and
/// the duration. Bursts use the same duration.
pub fn plan_constant_vus(c: &LoadConfig) -> (p: ConstantVusPlan)
    requires
        c.warmup_us + stages_total(c.stages@) <= u64::MAX,
        c.warmup_us + c.duration_us <= u64::MAX,
    ensures
        p.use_stages == has_vu_target(c.stages@),
        p.max_workers == (if p.use_stages {
            max_target(c.stages@)
        } else {
            c.concurrency
        }),
        p.total_duration_us == (if p.use_stages {
            c.warmup_us + stages_total(c.stages@)
        } else {
            c.warmup_us + c.duration_us
        }),
{
    let use_stages = any_vu_target(&c.stages);
    if !use_stages {
        return ConstantVusPlan {
            use_stages,
            max_workers: c.concurrency,
            total_duration_us: c.warmup_us + c.duration_us,
        };
    }
    let mut top: u32 = 1;
    let mut seen = false;
    let mut total: u64 = c.warmup_us;
    let mut i: usize = 0;
    while i < c.stages.len()
        invariant
            i <= c.stages@.len(),
            c.warmup_us + stages_total(c.stages@) <= u64::MAX,
            seen == has_vu_target(c.stages@.take(i as int)),
            top == max_target(c.stages@.take(i as int)),
            total == c.warmup_us + stages_total(c.stages@.take(i as int)),
        decreases c.stages@.len() - i,
    {
        let s = c.stages[i];
        proof {
            let pre = c.stages@.take(i as int);
            let cur = c.stages@.take(i + 1);
            assert(cur.drop_last() == pre);
            assert(cur.last() == s);
            lemma_total_prefix(c.stages@, i + 1);
            if has_vu_target(cur) {
                let k = choose|k: int| 0 <= k < cur.len() && (#[trigger] cur[k]).target is Some;
                if k < i {
                    assert(pre[k] == cur[k]);
                }
            }
            if has_vu_target(pre) {
                let k = choose|k: int| 0 <= k < pre.len() && (#[trigger] pre[k]).target is Some;
                assert(cur[k] == pre[k]);
            }
        }
        if let Some(t) = s.target {
            top = if seen {
                if top < t {
                    t
                } else {
                    top
                }
            } else {
                t
            };
            seen = true;
        }
        total = total + s.duration_us;
        i += 1;
    }
    assert(c.stages@.take(c.stages@.len() as int) == c.stages@);
    ConstantVusPlan { use_stages, max_workers: top, total_duration_us: total }
}

/// With worker-target stages, the planned number of workers is at least
/// every stage's target and is one of those targets.
pub proof fn lemma_max_target_is_largest(stages: Seq<Stage>)
    requires
        has_vu_target(stages),
    ensures
        forall|i: int|
            0 <= i < stages.len() && (#[trigger] stages[i]).target is Some ==> stages[i].target->0
                <= max_target(stages),
        exists|i: int| 0 <= i < stages.len() && (#[trigger] stages[i]).target == Some(max_target(stages)),
    decreases stages.len(),
{
    let pre = stages.drop_last();
    let n = stages.len() - 1;
    assert forall|i: int| 0 <= i < pre.len() implies #[trigger] pre[i] == stages[i] by {}
    if has_vu_target(pre) {
        lemma_max_target_is_largest(pre);
        let k = choose|k: int| 0 <= k < pre.len() && (#[trigger] pre[k]).target == Some(max_target(pre));
        assert(stages[k] == pre[k]);
        assert forall|i: int|
            0 <= i < stages.len() && (#[trigger] stages[i]).target is Some implies stages[i].target->0
                <= max_target(stages) by {
            if i < n {
                assert(pre[i] == stages[i]);
            }
        }
        if stages.last().target matches Some(t) && max_target(pre) < t {
            assert(stages[n].target == Some(max_target(stages)));
        } else {
            assert(stages[k].target == Some(max_target(stages)));
        }
    } else {
        let k = choose|k: int| 0 <= k < stages.len() && (#[trigger] stages[k]).target is Some;
        if k < n {
            assert(pre[k] == stages[k]);
            assert(false);
        }
        assert(stages[n].target == Some(max_target(stages)));
        assert forall|i: int|
            0 <= i < stages.len() && (#[trigger] stages[i]).target is Some implies stages[i].target->0
                <= max_target(stages) by {
            if i < n {
                assert(pre[i] == stages[i]);
                assert(false);
            }
        }
    }
}

/// Whether a burst run goes on after a burst: while the time is not up and
/// the run was not cancelled.
pub fn burst_continues(elapsed_us: u64, total_us: u64, cancelled: bool) -> (b: bool)
    ensures
        b == (elapsed_us < total_us && !cancelled),
{
    elapsed_us < total_us && !cancelled
}

/// Whether an arrival-rate run (or one of its stages) schedules more
/// iterations: while the time since its start is below its length and the
/// run was not cancelled.
pub fn arrival_continues(elapsed_us: u64, total_us: u64, cancelled: bool) -> (b: bool)
    ensures
        b == (elapsed_us < total_us && !cancelled),
{
    elapsed_us < total_us && !cancelled
}

// ---------------------------------------------------------------------------
// Scenario choice
// ---------------------------------------------------------------------------

/// The sum of the first `k` weights.
pub open spec fn cum(w: Seq<u32>, k: int) -> int
    decreases k,
{
    if k <= 0 {
        0
    } else {
        cum(w, k - 1) + w[k - 1]
    }
}

/// The first index from `k` on whose cumulative weight exceeds `roll`, or
/// zero.
pub open spec fn bucket_from(w: Seq<u32>, roll: int, k: int) -> int
    decreases w.len() - k,
{
    if k < 0 || k >= w.len() {
        0
    } else if roll < cum(w, k + 1) {
        k
    } else {
        bucket_from(w, roll, k + 1)
    }
}

/// The weights of `scenarios`.
pub open spec fn weights(scenarios: Seq<Scenario>) -> Seq<u32> {
    Seq::new(scenarios.len(), |i: int| scenarios[i].weight)
}

/// The scenario that iteration `id` runs: the only one; or, by the total
/// weight, the one whose share of the weights covers `id` modulo the total;
/// or the first when all weights are zero.
pub open spec fn select_spec(w: Seq<u32>, id: u64) -> int {
    if w.len() == 1 || cum(w, w.len() as int) == 0 {
        0
    } else {
        bucket_from(w, (id as int) % cum(w, w.len() as int), 0)
    }
}

proof fn lemma_cum_monotone(w: Seq<u32>, i: int, j: int)
    requires
        0 <= i <= j,
    ensures
        cum(w, i) <= cum(w, j),
    decreases j - i,
{
    if j > i {
        lemma_cum_monotone(w, i, j - 1);
    }
}

/// Chooses the scenario for iteration `iteration_id` by weight.
pub fn select_scenario(scenarios: &[Scenario], iteration_id: u64) -> (r: usize)
    requires
        scenarios@.len() > 0,
        cum(weights(scenarios@), scenarios@.len() as int) <= u32::MAX,
    ensures
        r as int == select_spec(weights(scenarios@), iteration_id),
        r < scenarios@.len(),
{
    let ghost w = weights(scenarios@);
    let n = scenarios.len();
    if n == 1 {
        return 0;
    }
    let mut total: u32 = 0;
    let mut i: usize = 0;
    while i < n
        invariant
            n == scenarios@.len(),
            w == weights(scenarios@),
            i <= n,
            cum(w, n as int) <= u32::MAX,
            total == cum(w, i as int),
        decreases n - i,
    {
        proof {
            lemma_cum_monotone(w, i + 1, n as int);
        }
        total = total + scenarios[i].weight;
        i += 1;
    }
    if total == 0 {
        return 0;
    }
    let roll = (iteration_id % (total as u64)) as u32;
    let mut cumulative: u32 = 0;
    let mut k: usize = 0;
    while k < n
        invariant
            n == scenarios@.len(),
            w == weights(scenarios@),
            k <= n,
            cum(w, n as int) <= u32::MAX,
            total == cum(w, n as int),
            cumulative == cum(w, k as int),
            roll as int == (iteration_id as int) % (total as int),
            bucket_from(w, roll as int, 0) == bucket_from(w, roll as int, k as int),
        decreases n - k,
    {
        proof {
            lemma_cum_monotone(w, k + 1, n as int);
        }
        cumulative = cumulative + scenarios[k].weight;
        if roll < cumulative {
            return k;
        }
        k += 1;
    }
    0
}

/// The scenario chosen for an iteration is one whose share covers the roll
/// (its cumulative weight range holds `id` modulo the total), so a scenario
/// of weight zero is never chosen while the total is positive.
pub proof fn lemma_select_in_share(w: Seq<u32>, id: u64)
    requires
        w.len() > 1,
        cum(w, w.len() as int) > 0,
    ensures
        ({
            let k = select_spec(w, id);
            let roll = (id as int) % cum(w, w.len() as int);
            0 <= k < w.len() && cum(w, k) <= roll < cum(w, k + 1) && w[k] > 0
        }),
{
    let total = cum(w, w.len() as int);
    let roll = (id as int) % total;
    lemma_bucket(w, roll, 0);
}

proof fn lemma_bucket(w: Seq<u32>, roll: int, k: int)
    requires
        0 <= k <= w.len(),
        cum(w, k) <= roll < cum(w, w.len() as int),
    ensures
        k <= bucket_from(w, roll, k) < w.len(),
        cum(w, bucket_from(w, roll, k)) <= roll < cum(w, bucket_from(w, roll, k) + 1),
    decreases w.len() - k,
{
    if k == w.len() {
        assert(false);
    } else if roll < cum(w, k + 1) {
    } else {
        lemma_bucket(w, roll, k + 1);
    }
}

/// Iterations a total weight apart run the same scenario.
pub proof fn lemma_select_periodic(w: Seq<u32>, id: u64)
    requires
        cum(w, w.len() as int) > 0,
        id as int + cum(w, w.len() as int) <= u64::MAX,
    ensures
        select_spec(w, id) == select_spec(w, (id + cum(w, w.len() as int)) as u64),
{
    let t = cum(w, w.len() as int);
    assert((id as int + t) % t == (id as int) % t) by (nonlinear_arith)
        requires
            t > 0,
            id >= 0,
    ;
}

/// How many of the `n` iterations from `start` on run scenario `i`.
pub open spec fn picks(w: Seq<u32>, i: int, start: int, n: nat) -> nat
    decreases n,
{
    if n == 0 {
        0
    } else {
        picks(w, i, start, (n - 1) as nat) + if select_spec(w, (start + n - 1) as u64) == i {
            1nat
        } else {
            0nat
        }
    }
}

/// The rolls in `[lo, hi)` that fall in the share of scenario `i`.
pub open spec fn share_count(w: Seq<u32>, i: int, lo: int, hi: int) -> nat
    decreases hi - lo,
{
    if hi <= lo {
        0
    } else {
        share_count(w, i, lo, hi - 1) + if cum(w, i) <= hi - 1 < cum(w, i + 1) {
            1nat
        } else {
            0nat
        }
    }
}

/// The size of the overlap of `[lo, hi)` and `[a, b)`.
pub open spec fn overlap(lo: int, hi: int, a: int, b: int) -> int {
    let l = if lo > a { lo } else { a };
    let h = if hi < b { hi } else { b };
    if h > l {
        h - l
    } else {
        0
    }
}

proof fn lemma_share_count(w: Seq<u32>, i: int, lo: int, hi: int)
    requires
        lo <= hi,
    ensures
        share_count(w, i, lo, hi) == overlap(lo, hi, cum(w, i), cum(w, i + 1)),
    decreases hi - lo,
{
    if hi > lo {
        lemma_share_count(w, i, lo, hi - 1);
    }
}

/// An iteration runs scenario `i` exactly when its roll falls in the share
/// of `i`.
proof fn lemma_select_iff_share(w: Seq<u32>, i: int, id: u64)
    requires
        w.len() > 1,
        cum(w, w.len() as int) > 0,
        0 <= i < w.len(),
    ensures
        (select_spec(w, id) == i) == ({
            let roll = (id as int) % cum(w, w.len() as int);
            cum(w, i) <= roll < cum(w, i + 1)
        }),
{
    lemma_select_in_share(w, id);
    let k = select_spec(w, id);
    let roll = (id as int) % cum(w, w.len() as int);
    if k < i {
        lemma_cum_monotone(w, k + 1, i);
    } else if k > i {
        lemma_cum_monotone(w, i + 1, k);
    }
}

/// The roll of iteration `start + m`, for `m` below the total weight.
proof fn lemma_roll_step(start: int, m: int, t: int)
    requires
        t > 0,
        start >= 0,
        0 <= m < t,
    ensures
        (start + m) % t == (if start % t + m < t {
            start % t + m
        } else {
            start % t + m - t
        }),
{
    let q = start / t;
    let s0 = start % t;
    vstd::arithmetic::div_mod::lemma_fundamental_div_mod(start, t);
    assert(0 <= s0 < t) by {
        vstd::arithmetic::div_mod::lemma_mod_bound(start, t);
    }
    if s0 + m < t {
        vstd::arithmetic::div_mod::lemma_mod_multiples_vanish(q, s0 + m, t);
        vstd::arithmetic::div_mod::lemma_small_mod((s0 + m) as nat, t as nat);
        assert(start + m == t * q + (s0 + m));
    } else {
        vstd::arithmetic::div_mod::lemma_mod_multiples_vanish(q + 1, s0 + m - t, t);
        vstd::arithmetic::div_mod::lemma_small_mod((s0 + m - t) as nat, t as nat);
        assert(start + m == t * (q + 1) + (s0 + m - t)) by (nonlinear_arith)
            requires
                start == t * q + s0,
        ;
    }
}

proof fn lemma_picks_window(w: Seq<u32>, i: int, start: int, n: nat)
    requires
        w.len() > 1,
        cum(w, w.len() as int) > 0,
        0 <= i < w.len(),
        start >= 0,
        n <= cum(w, w.len() as int),
        start + n <= u64::MAX + 1,
    ensures
        ({
            let t = cum(w, w.len() as int);
            let s0 = start % t;
            picks(w, i, start, n) == share_count(w, i, s0, if s0 + n < t { s0 + n } else { t })
                + share_count(w, i, 0, if s0 + n > t { s0 + n - t } else { 0 })
        }),
    decreases n,
{
    let t = cum(w, w.len() as int);
    let s0 = start % t;
    assert(0 <= s0 < t) by {
        vstd::arithmetic::div_mod::lemma_mod_bound(start, t);
    }
    if n > 0 {
        lemma_picks_window(w, i, start, (n - 1) as nat);
        let id = (start + n - 1) as u64;
        lemma_select_iff_share(w, i, id);
        lemma_roll_step(start, n - 1, t);
    }
}

/// Over any run of iterations as long as the total weight, each scenario
/// runs exactly as many times as its weight: weights 7, 2 and 1 give 70%,
/// 20% and 10% of the iterations, and a scenario of weight zero never runs.
pub proof fn lemma_select_counts(w: Seq<u32>, i: int, start: u64)
    requires
        w.len() > 1,
        cum(w, w.len() as int) > 0,
        0 <= i < w.len(),
        start + cum(w, w.len() as int) <= u64::MAX + 1,
    ensures
        picks(w, i, start as int, cum(w, w.len() as int) as nat) == w[i],
{
    let t = cum(w, w.len() as int);
    let s0 = (start as int) % t;
    assert(0 <= s0 < t) by {
        vstd::arithmetic::div_mod::lemma_mod_bound(start as int, t);
    }
    lemma_picks_window(w, i, start as int, t as nat);
    lemma_share_count(w, i, s0, t);
    lemma_share_count(w, i, 0, s0);
    lemma_cum_monotone(w, 0, i);
    lemma_cum_monotone(w, i, i + 1);
    lemma_cum_monotone(w, i + 1, w.len() as int);
}

// ---------------------------------------------------------------------------
// Request variables
// ---------------------------------------------------------------------------

/// `s` with `${REQUEST_ID}` replaced by the request id, then
/// `${TIMESTAMP_MS}` by the time in milliseconds.
pub open spec fn interpolate_spec(s: Seq<char>, request_id: u64, timestamp_ms: u64) -> Seq<char> {
    replace_spec(
        replace_spec(s, "${REQUEST_ID}"@, decimal(request_id as nat)),
        "${TIMESTAMP_MS}"@,
        decimal(timestamp_ms as nat),
    )
}

/// A request text without variables is sent as it is.
pub proof fn lemma_interpolate_plain(s: Seq<char>, request_id: u64, timestamp_ms: u64)
    requires
        !contains_seq(s, "${REQUEST_ID}"@),
        !contains_seq(s, "${TIMESTAMP_MS}"@),
    ensures
        interpolate_spec(s, request_id, timestamp_ms) == s,
{
    reveal_strlit("${REQUEST_ID}");
    reveal_strlit("${TIMESTAMP_MS}");
    lemma_replace_absent(s, "${REQUEST_ID}"@, decimal(request_id as nat));
    lemma_replace_absent(s, "${TIMESTAMP_MS}"@, decimal(timestamp_ms as nat));
}

/// Fills in the request id and the time of a request text.
pub fn interpolate_vars(s: &str, request_id: u64, timestamp_ms: u64) -> (out: String)
    ensures
        out@ == interpolate_spec(s@, request_id, timestamp_ms),
{
    proof {
        reveal_strlit("${REQUEST_ID}");
        reveal_strlit("${TIMESTAMP_MS}");
    }
    let cs = chars_of(s);
    let id_pat = chars_of("${REQUEST_ID}");
    let ts_pat = chars_of("${TIMESTAMP_MS}");
    let mut id_text: Vec<char> = Vec::new();
    push_decimal(&mut id_text, request_id);
    let mut ts_text: Vec<char> = Vec::new();
    push_decimal(&mut ts_text, timestamp_ms);
    assert(id_text@ == decimal(request_id as nat));
    assert(ts_text@ == decimal(timestamp_ms as nat));
    let once = replace_all(cs.as_slice(), id_pat.as_slice(), id_text.as_slice());
    let twice = replace_all(once.as_slice(), ts_pat.as_slice(), ts_text.as_slice());
    string_of(twice.as_slice())
}

/// Whether a check reads the response body.
pub open spec fn reads_body(c: CheckCondition) -> bool {
    c is BodyContains || c is BodyNotContains || c is BodyMatches
}

/// Whether responses must keep their body: some check reads it, or some
/// scenario extracts values from it.
pub open spec fn needs_body(scenarios: Seq<Scenario>, checks: Seq<Check>) -> bool {
    (exists|i: int| 0 <= i < checks.len() && reads_body(#[trigger] checks[i].condition)) || (
    exists|i: int| 0 <= i < scenarios.len() && (#[trigger] scenarios[i].extractions)@.len() > 0)
}

/// Whether responses must keep their body for the checks and the
/// scenarios' extractions.
pub fn capture_body(scenarios: &[Scenario], checks: &[Check]) -> (b: bool)
    ensures
        b == needs_body(scenarios@, checks@),
{
    let mut i: usize = 0;
    while i < checks.len()
        invariant
            i <= checks@.len(),
            forall|j: int| 0 <= j < i ==> !reads_body(#[trigger] checks@[j].condition),
        decreases checks@.len() - i,
    {
        match &checks[i].condition {
            CheckCondition::BodyContains(_) | CheckCondition::BodyNotContains(_)
            | CheckCondition::BodyMatches(_) => {
                return true;
            },
            _ => {},
        }
        i += 1;
    }
    let mut k: usize = 0;
    while k < scenarios.len()
        invariant
            k <= scenarios@.len(),
            forall|j: int| 0 <= j < checks@.len() ==> !reads_body(#[trigger] checks@[j].condition),
            forall|j: int| 0 <= j < k ==> (#[trigger] scenarios@[j].extractions)@.len() == 0,
        decreases scenarios@.len() - k,
    {
        if scenarios[k].extractions.len() > 0 {
            return true;
        }
        k += 1;
    }
    false
}

/// `headers` with each value's variables filled in; the names are kept.
pub open spec fn headers_interpolated(
    out: Seq<(String, String)>,
    headers: Seq<(String, String)>,
    request_id: u64,
    timestamp_ms: u64,
) -> bool {
    &&& out.len() == headers.len()
    &&& forall|i: int|
        0 <= i < headers.len() ==> (#[trigger] out[i]).0@ == headers[i].0@ && out[i].1@
            == interpolate_spec(headers[i].1@, request_id, timestamp_ms)
}

/// The headers of a request with each value's variables filled in.
pub fn interpolate_headers(headers: &[(String, String)], request_id: u64, timestamp_ms: u64) -> (out:
    Vec<(String, String)>)
    ensures
        headers_interpolated(out@, headers@, request_id, timestamp_ms),
{
    let mut out: Vec<(String, String)> = Vec::new();
    let mut i: usize = 0;
    while i < headers.len()
        invariant
            i <= headers@.len(),
            headers_interpolated(out@, headers@.take(i as int), request_id, timestamp_ms),
        decreases headers@.len() - i,
    {
        let name = headers[i].0.clone();
        let value = interpolate_vars(headers[i].1.as_str(), request_id, timestamp_ms);
        out.push((name, value));
        i += 1;
    }
    assert(headers@.take(headers@.len() as int) == headers@);
    out
}

/// The request one iteration sends.
pub struct IterationRequest {
    pub url: String,
    pub method: String,
    pub headers: Vec<(String, String)>,
    pub body: Option<String>,
    /// The response body is kept, for the checks or the extractions.
    pub capture_body: bool,
}

/// What the request of iteration `id` is made from: the scenario chosen by
/// weight when there are scenarios, the base request otherwise. Its url,
/// header values and body have their variables filled in.
pub open spec fn iteration_request_ok(
    r: IterationRequest,
    url: Seq<char>,
    method: Seq<char>,
    headers: Seq<(String, String)>,
    body: Option<String>,
    id: u64,
    ts: u64,
) -> bool {
    &&& r.url@ == interpolate_spec(url, id, ts)
    &&& r.method@ == method
    &&& headers_interpolated(r.headers@, headers, id, ts)
    &&& match body {
        Some(b) => r.body matches Some(rb) && rb@ == interpolate_spec(b@, id, ts),
        None => r.body is None,
    }
}

/// The URL of the base request of iteration `id`: the URL list taken in
/// turn when there is one, else the configured URL.
pub open spec fn base_url(c: LoadConfig, id: u64) -> Seq<char> {
    match c.url_list {
        Some(l) => if l@.len() > 0 {
            l@[(id as int) % (l@.len() as int)]@
        } else {
            c.url@
        },
        None => c.url@,
    }
}

/// The body of the base request of iteration `id`: the body lines taken in
/// turn when there are any, else the configured body.
pub open spec fn base_body(c: LoadConfig, id: u64) -> Option<String> {
    match c.body_lines {
        Some(l) => if l@.len() > 0 {
            Some(l@[(id as int) % (l@.len() as int)])
        } else {
            c.body
        },
        None => c.body,
    }
}

/// The entry of a list that request `id` uses when the list is taken in
/// turn.
pub fn round_robin(list: &Vec<String>, id: u64) -> (s: &String)
    requires
        list@.len() > 0,
    ensures
        *s == list@[(id as int) % (list@.len() as int)],
{
    let n = list.len() as u64;
    let k = (id % n) as usize;
    &list[k]
}

/// The request of iteration `iteration_id`, sent at `timestamp_ms`.
pub fn prepare_iteration(
    iteration_id: u64,
    timestamp_ms: u64,
    base: &LoadConfig,
    checks: &[Check],
) -> (r: IterationRequest)
    requires
        cum(weights(base.scenarios@), base.scenarios@.len() as int) <= u32::MAX,
    ensures
        r.capture_body == needs_body(base.scenarios@, checks@),
        base.scenarios@.len() == 0 ==> iteration_request_ok(
            r,
            base_url(*base, iteration_id),
            base.method@,
            base.headers@,
            base_body(*base, iteration_id),
            iteration_id,
            timestamp_ms,
        ),
        base.scenarios@.len() > 0 ==> ({
            let s = base.scenarios@[select_spec(weights(base.scenarios@), iteration_id)];
            iteration_request_ok(r, s.url@, s.method@, s.headers@, s.body, iteration_id, timestamp_ms)
        }),
{
    let capture = capture_body(base.scenarios.as_slice(), checks);
    if base.scenarios.len() > 0 {
        let k = select_scenario(base.scenarios.as_slice(), iteration_id);
        let s = &base.scenarios[k];
        let body = match &s.body {
            Some(b) => Some(interpolate_vars(b.as_str(), iteration_id, timestamp_ms)),
            None => None,
        };
        IterationRequest {
            url: interpolate_vars(s.url.as_str(), iteration_id, timestamp_ms),
            method: s.method.clone(),
            headers: interpolate_headers(s.headers.as_slice(), iteration_id, timestamp_ms),
            body,
            capture_body: capture,
        }
    } else {
        let body_src: Option<&String> = match &base.body_lines {
            Some(l) => if l.len() > 0 {
                Some(round_robin(l, iteration_id))
            } else {
                base.body.as_ref()
            },
            None => base.body.as_ref(),
        };
        let url_src: &String = match &base.url_list {
            Some(l) => if l.len() > 0 {
                round_robin(l, iteration_id)
            } else {
                &base.url
            },
            None => &base.url,
        };
        let body = match body_src {
            Some(b) => Some(interpolate_vars(b.as_str(), iteration_id, timestamp_ms)),
            None => None,
        };
        IterationRequest {
            url: interpolate_vars(url_src.as_str(), iteration_id, timestamp_ms),
            method: base.method.clone(),
            headers: interpolate_headers(base.headers.as_slice(), iteration_id, timestamp_ms),
            body,
            capture_body: capture,
        }
    }
}

/// The id of the `counter`-th request of worker `worker_id`: each worker
/// counts from its own billion.
pub fn request_id(worker_id: u32, counter: u64) -> (id: u64)
    requires
        worker_id as int * 1_000_000_000 + counter <= u64::MAX,
    ensures
        id == worker_id as int * 1_000_000_000 + counter,
{
    (worker_id as u64) * 1_000_000_000 + counter
}

/// Requests keep their ids apart: while each worker has made fewer than a
/// billion requests, two different (worker, counter) pairs never get the
/// same id (`request_id` gives `worker * 1e9 + counter`).
pub proof fn lemma_request_ids_distinct(w1: u32, c1: u64, w2: u32, c2: u64)
    requires
        c1 < 1_000_000_000,
        c2 < 1_000_000_000,
        w1 != w2 || c1 != c2,
    ensures
        w1 as int * 1_000_000_000 + c1 != w2 as int * 1_000_000_000 + c2,
{
    if w1 == w2 {
    } else if w1 < w2 {
        assert(w1 as int * 1_000_000_000 + 1_000_000_000 <= w2 as int * 1_000_000_000) by (nonlinear_arith)
            requires
                w1 < w2,
        ;
    } else {
        assert(w2 as int * 1_000_000_000 + 1_000_000_000 <= w1 as int * 1_000_000_000) by (nonlinear_arith)
            requires
                w2 < w1,
        ;
    }
}

/// The scenario a debug request is made from: the first one when there
/// are any; none, for the base request, otherwise.
pub fn debug_scenario(config: &LoadConfig) -> (s: Option<&Scenario>)
    ensures
        config.scenarios@.len() == 0 ==> s is None,
        config.scenarios@.len() > 0 ==> s == Some(&config.scenarios@[0]),
{
    if config.scenarios.len() == 0 {
        None
    } else {
        Some(&config.scenarios[0])
    }
}

/// The exit status of a run: 4 when a threshold failed or the fail-fast
/// checker stopped the run; else 1 when more than half of the requests
/// failed; else 0.
pub open spec fn exit_code_spec(thresholds_passed: bool, fail_fast: bool, failed: u64, total: u64) -> i32 {
    if !thresholds_passed || fail_fast {
        4
    } else if failed > 0 && 2 * failed > total {
        1
    } else {
        0
    }
}

/// The exit status of a run, from the thresholds, the fail-fast checker
/// and the failed share of the `total` requests.
pub fn exit_code(thresholds_passed: bool, fail_fast: bool, failed: u64, total: u64) -> (c: i32)
    ensures
        c == exit_code_spec(thresholds_passed, fail_fast, failed, total),
{
    if !thresholds_passed || fail_fast {
        4
    } else if failed > 0 && 2 * (failed as u128) > total as u128 {
        1
    } else {
        0
    }
}

} // verus!
