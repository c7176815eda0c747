//! The pacing decisions of the load generators: the token bucket of a rate
//! limit, the ramp-up of workers, staged worker targets, and the pool of
//! virtual users of the arrival-rate executors.
//!
//! The caller owns the clock, the sleeps and the semaphores; these types
//! decide what to do at each tick.
use vstd::prelude::*;

use crate::types::Stage;

verus! {

// ---------------------------------------------------------------------------
// Rate limit
// ---------------------------------------------------------------------------

/// A token bucket that holds at most one second's worth of requests.
pub struct RateLimiter {
    rate: u32,
    tokens: u64,
    max_tokens: u64,
}

impl RateLimiter {
    /// The bucket's invariant: it never holds more than its capacity, which
    /// is the rate.
    pub closed spec fn wf(&self) -> bool {
        self.tokens <= self.max_tokens && self.max_tokens == self.rate
    }

    /// The tokens in the bucket.
    pub closed spec fn tokens_spec(&self) -> nat {
        self.tokens as nat
    }

    /// The capacity of the bucket.
    pub closed spec fn capacity(&self) -> nat {
        self.max_tokens as nat
    }

    /// The rate the bucket refills at, per second.
    pub closed spec fn rate_spec(&self) -> u32 {
        self.rate
    }

    /// A full bucket for `rate` requests per second.
    pub fn new(rate: u32) -> (r: Self)
        ensures
            r.wf(),
            r.rate_spec() == rate,
            r.capacity() == rate,
            r.tokens_spec() == rate,
    {
        RateLimiter { rate, tokens: rate as u64, max_tokens: rate as u64 }
    }

    /// Takes a token if there is one; `false` means the caller must wait for
    /// the next refill.
    pub fn try_acquire(&mut self) -> (granted: bool)
        requires
            old(self).wf(),
        ensures
            final(self).wf(),
            final(self).capacity() == old(self).capacity(),
            final(self).rate_spec() == old(self).rate_spec(),
            granted == (old(self).tokens_spec() > 0),
            granted ==> final(self).tokens_spec() == old(self).tokens_spec() - 1,
            !granted ==> final(self).tokens_spec() == old(self).tokens_spec(),
    {
        if self.tokens > 0 {
            self.tokens = self.tokens - 1;
            true
        } else {
            false
        }
    }

    /// One refill tick: adds a token unless the bucket is full; `true` means
    /// a waiting caller should be woken.
    pub fn refill(&mut self) -> (added: bool)
        requires
            old(self).wf(),
        ensures
            final(self).wf(),
            final(self).capacity() == old(self).capacity(),
            final(self).rate_spec() == old(self).rate_spec(),
            added == (old(self).tokens_spec() < old(self).capacity()),
            added ==> final(self).tokens_spec() == old(self).tokens_spec() + 1,
            !added ==> final(self).tokens_spec() == old(self).tokens_spec(),
    {
        if self.tokens < self.max_tokens {
            self.tokens = self.tokens + 1;
            true
        } else {
            false
        }
    }

    /// The time between two refill ticks: a second divided by the rate.
    pub fn refill_interval_us(&self) -> (us: u64)
        requires
            self.wf(),
            self.rate_spec() > 0,
        ensures
            us == 1_000_000int / (self.rate_spec() as int),
    {
        1_000_000 / (self.rate as u64)
    }
}

/// Whatever sequence of acquisitions and refills happens, the bucket never
/// holds more than one second's worth of tokens.
pub proof fn lemma_bucket_bounded(b: RateLimiter)
    requires
        b.wf(),
    ensures
        b.tokens_spec() <= b.rate_spec(),
{
}

// ---------------------------------------------------------------------------
// Ramp-up
// ---------------------------------------------------------------------------

/// Brings workers online one at a time over the ramp-up period.
pub struct RampUpScheduler {
    pub concurrency: u32,
    pub ramp_duration_us: u64,
}

/// The workers active `elapsed_us` into a ramp to `concurrency` workers
/// over `ramp_us`: all of them without a ramp or after it, else the share
/// of the elapsed time, rounded down, but at least one.
pub open spec fn active_at(concurrency: u32, ramp_us: u64, elapsed_us: u64) -> int {
    if ramp_us == 0 || elapsed_us >= ramp_us {
        concurrency as int
    } else {
        let share = (concurrency as int * elapsed_us as int) / (ramp_us as int);
        if share < 1 {
            1
        } else {
            share
        }
    }
}

impl RampUpScheduler {
    /// A ramp to `concurrency` workers over `ramp_duration_us`.
    pub fn new(concurrency: u32, ramp_duration_us: u64) -> (r: Self)
        ensures
            r.concurrency == concurrency,
            r.ramp_duration_us == ramp_duration_us,
    {
        RampUpScheduler { concurrency, ramp_duration_us }
    }

    /// The workers that may start at once: all of them without a ramp,
    /// else one.
    pub fn initial_permits(&self) -> (n: u32)
        ensures
            n == (if self.ramp_duration_us == 0 {
                self.concurrency
            } else {
                1
            }),
    {
        if self.ramp_duration_us == 0 {
            self.concurrency
        } else {
            1
        }
    }

    /// The time between two activations: the ramp divided by the number of
    /// workers, at least a microsecond.
    pub fn interval_us(&self) -> (us: u64)
        requires
            self.concurrency > 0,
        ensures
            us == (if self.ramp_duration_us / (self.concurrency as u64) == 0 {
                1
            } else {
                self.ramp_duration_us / (self.concurrency as u64)
            }),
            us >= 1,
    {
        let i = self.ramp_duration_us / (self.concurrency as u64);
        if i == 0 {
            1
        } else {
            i
        }
    }

    /// Whether another worker is activated after `activated` are running:
    /// while fewer than the target are, and only during a ramp.
    pub fn should_activate(&self, activated: u32) -> (b: bool)
        ensures
            b == (self.ramp_duration_us != 0 && activated < self.concurrency),
    {
        self.ramp_duration_us != 0 && activated < self.concurrency
    }

    /// The workers that should be active `elapsed_us` into the run.
    pub fn current_active(&self, elapsed_us: u64) -> (n: u32)
        ensures
            n == active_at(self.concurrency, self.ramp_duration_us, elapsed_us),
    {
        if self.ramp_duration_us == 0 || elapsed_us >= self.ramp_duration_us {
            return self.concurrency;
        }
        let c = self.concurrency as u128;
        let e = elapsed_us as u128;
        let r = self.ramp_duration_us as u128;
        assert(c * e <= 0xffff_ffffu128 * 0xffff_ffff_ffff_ffffu128) by (nonlinear_arith)
            requires
                c <= 0xffff_ffffu128,
                e <= 0xffff_ffff_ffff_ffffu128,
        ;
        let share = (c * e) / r;
        assert(share <= c) by (nonlinear_arith)
            requires
                e < r,
                share as int == (c as int * e as int) / (r as int),
                r > 0,
        ;
        if share < 1 {
            1
        } else {
            share as u32
        }
    }
}

/// During a ramp the active workers never exceed the target, and at least
/// one is active.
pub proof fn lemma_ramp_bounds(concurrency: u32, ramp_us: u64, elapsed_us: u64)
    requires
        concurrency >= 1,
    ensures
        1 <= active_at(concurrency, ramp_us, elapsed_us) <= concurrency,
{
    if ramp_us != 0 && elapsed_us < ramp_us {
        let share = (concurrency as int * elapsed_us as int) / (ramp_us as int);
        assert(share <= concurrency) by (nonlinear_arith)
            requires
                elapsed_us < ramp_us,
                share == (concurrency as int * elapsed_us as int) / (ramp_us as int),
                ramp_us > 0,
                concurrency >= 0,
        ;
    }
}

/// Later in the ramp, no fewer workers are active.
pub proof fn lemma_ramp_monotone(concurrency: u32, ramp_us: u64, e1: u64, e2: u64)
    requires
        concurrency >= 1,
        e1 <= e2,
    ensures
        active_at(concurrency, ramp_us, e1) <= active_at(concurrency, ramp_us, e2),
{
    if ramp_us != 0 && e1 < ramp_us {
        let s1 = (concurrency as int * e1 as int) / (ramp_us as int);
        assert(s1 <= concurrency) by (nonlinear_arith)
            requires
                e1 < ramp_us,
                s1 == (concurrency as int * e1 as int) / (ramp_us as int),
                ramp_us > 0,
                concurrency >= 0,
        ;
        if e2 < ramp_us {
            let s2 = (concurrency as int * e2 as int) / (ramp_us as int);
            assert(s1 <= s2) by (nonlinear_arith)
                requires
                    e1 <= e2,
                    s1 == (concurrency as int * e1 as int) / (ramp_us as int),
                    s2 == (concurrency as int * e2 as int) / (ramp_us as int),
                    ramp_us > 0,
                    concurrency >= 0,
            ;
        }
    }
}

// ---------------------------------------------------------------------------
// Staged worker targets
// ---------------------------------------------------------------------------

/// What the display shows of the current stage.
#[derive(Debug, Clone, Copy, Default)]
pub struct StageInfo {
    pub stage_index: usize,
    pub stage_count: usize,
    pub target: u32,
    pub current: u32,
    pub stage_elapsed_us: u64,
    pub stage_duration_us: u64,
}

/// Moves the workers toward the targets of the stages.
pub struct StagesScheduler {
    pub stages: Vec<Stage>,
    pub initial_target: u32,
    pub initial_permits: u32,
}

/// The sum of the durations of `stages`.
pub open spec fn stages_total(stages: Seq<Stage>) -> int
    decreases stages.len(),
{
    if stages.len() == 0 {
        0
    } else {
        stages_total(stages.drop_last()) + stages.last().duration_us
    }
}

/// The first stage's target, or `fallback`.
pub open spec fn first_target(stages: Seq<Stage>, fallback: u32) -> u32 {
    if stages.len() > 0 && stages[0].target is Some {
        stages[0].target->Some_0
    } else {
        fallback
    }
}

/// The workers after one tick toward `target`: one more when below it, the
/// target itself when above it.
pub open spec fn tick_spec(current: u32, target: u32) -> u32 {
    if current < target {
        (current + 1) as u32
    } else {
        target
    }
}

/// `current` after `k` ticks toward `target`.
pub open spec fn ticks(current: u32, target: u32, k: nat) -> u32
    decreases k,
{
    if k == 0 {
        current
    } else {
        ticks(tick_spec(current, target), target, (k - 1) as nat)
    }
}

impl StagesScheduler {
    /// A scheduler for `stages`; `max_concurrency` stands for the first
    /// target when the first stage sets none. The first stage starts with
    /// `min(target, 1)` permits.
    pub fn new(stages: Vec<Stage>, max_concurrency: u32) -> (r: (Self, StageInfo))
        ensures
            r.0.stages@ == stages@,
            r.0.initial_target == first_target(stages@, max_concurrency),
            r.0.initial_permits == (if r.0.initial_target < 1 {
                r.0.initial_target
            } else {
                1
            }),
            r.1.stage_index == 0,
            r.1.stage_count == stages@.len(),
            r.1.target == r.0.initial_target,
            r.1.current == r.0.initial_permits,
            r.1.stage_elapsed_us == 0,
            r.1.stage_duration_us == (if stages@.len() > 0 {
                stages@[0].duration_us
            } else {
                0
            }),
    {
        let initial_target = if stages.len() > 0 {
            match stages[0].target {
                Some(t) => t,
                None => max_concurrency,
            }
        } else {
            max_concurrency
        };
        let initial_permits = if initial_target < 1 {
            initial_target
        } else {
            1
        };
        let stage_duration_us = if stages.len() > 0 {
            stages[0].duration_us
        } else {
            0
        };
        let info = StageInfo {
            stage_index: 0,
            stage_count: stages.len(),
            target: initial_target,
            current: initial_permits,
            stage_elapsed_us: 0,
            stage_duration_us,
        };
        (StagesScheduler { stages, initial_target, initial_permits }, info)
    }

    /// The total duration of the stages.
    pub fn total_duration_us(&self) -> (us: u64)
        requires
            stages_total(self.stages@) <= u64::MAX,
        ensures
            us == stages_total(self.stages@),
    {
        let mut total: u64 = 0;
        let mut i: usize = 0;
        while i < self.stages.len()
            invariant
                i <= self.stages@.len(),
                stages_total(self.stages@) <= u64::MAX,
                total == stages_total(self.stages@.take(i as int)),
            decreases self.stages@.len() - i,
        {
            proof {
                lemma_stages_total_prefix(self.stages@, i as int + 1);
                assert(self.stages@.take(i + 1).drop_last() == self.stages@.take(i as int));
            }
            total = total + self.stages[i].duration_us;
            i += 1;
        }
        assert(self.stages@.take(self.stages@.len() as int) == self.stages@);
        total
    }

    /// The workers the run starts with: the first stage's target capped at
    /// one, or one.
    pub fn starting_workers(&self) -> (n: u32)
        ensures
            n == (if self.stages@.len() > 0 && self.stages@[0].target is Some {
                if self.stages@[0].target->Some_0 < 1 {
                    self.stages@[0].target->Some_0
                } else {
                    1
                }
            } else {
                1
            }),
    {
        if self.stages.len() > 0 {
            match self.stages[0].target {
                Some(t) => if t < 1 {
                    t
                } else {
                    1
                },
                None => 1,
            }
        } else {
            1
        }
    }
}

proof fn lemma_stages_total_prefix(stages: Seq<Stage>, k: int)
    requires
        0 <= k <= stages.len(),
    ensures
        stages_total(stages.take(k)) <= stages_total(stages),
    decreases stages.len() - k,
{
    if k < stages.len() {
        lemma_stages_total_prefix(stages, k + 1);
        assert(stages.take(k + 1).drop_last() == stages.take(k));
    } else {
        assert(stages.take(k) == stages);
    }
}

/// The time between two adjustments within a stage: the stage's duration
/// divided by the workers to add or remove, or a tenth of a second when
/// there is nothing to ramp.
pub fn stage_ramp_interval_us(current: u32, target: u32, duration_us: u64) -> (us: u64)
    ensures
        us == (if current != target && duration_us > 0 {
            duration_us / (if current < target {
                (target - current) as u64
            } else {
                (current - target) as u64
            })
        } else {
            100_000
        }),
{
    let diff: u32 = if current < target {
        target - current
    } else {
        current - target
    };
    if diff > 0 && duration_us > 0 {
        duration_us / (diff as u64)
    } else {
        100_000
    }
}

/// One adjustment toward `target`: returns the new worker count and
/// whether a worker permit is to be added.
pub fn stage_tick(current: u32, target: u32) -> (r: (u32, bool))
    ensures
        r.0 == tick_spec(current, target),
        r.1 == (current < target),
{
    if current < target {
        (current + 1, true)
    } else {
        (target, false)
    }
}

/// A tick never overshoots the target and, away from it, gets closer.
pub proof fn lemma_tick_converges(current: u32, target: u32)
    ensures
        current <= target ==> current <= tick_spec(current, target) <= target,
        current >= target ==> tick_spec(current, target) == target,
        current != target ==> {
            let d0 = if current < target { target - current } else { current - target };
            let n = tick_spec(current, target);
            let d1 = if n < target { target - n } else { n - target };
            d1 < d0
        },
{
}

/// Starting below the target, as many ticks as the distance reach it; from
/// above, one tick does.
pub proof fn lemma_ticks_reach_target(current: u32, target: u32)
    ensures
        current <= target ==> ticks(current, target, (target - current) as nat) == target,
        current > target ==> ticks(current, target, 1) == target,
    decreases target - current,
{
    reveal_with_fuel(ticks, 2);
    if current < target {
        lemma_ticks_reach_target((current + 1) as u32, target);
    }
}

// ---------------------------------------------------------------------------
// Arrival rate
// ---------------------------------------------------------------------------

/// The virtual users allocated at start: the requested number capped by
/// the limit, but at least one.
pub open spec fn effective_pre_allocated(pre: u32, max_vus: u32) -> u32 {
    let capped = if pre < max_vus {
        pre
    } else {
        max_vus
    };
    if capped < 1 {
        1
    } else {
        capped
    }
}

/// The virtual users to allocate before a run at `rate`: a tenth of the
/// rate, at least one, at most the limit.
pub fn pre_allocated_vus(rate: u32, max_vus: u32) -> (n: u32)
    ensures
        n == (if (if rate / 10 < 1 { 1 } else { rate / 10 }) < max_vus {
            if rate / 10 < 1 { 1 } else { rate / 10 }
        } else {
            max_vus
        }),
{
    let tenth = rate / 10;
    let at_least_one = if tenth < 1 {
        1
    } else {
        tenth
    };
    if at_least_one < max_vus {
        at_least_one
    } else {
        max_vus
    }
}

/// What happens to an iteration that is due.
#[derive(Debug, Clone, Copy, PartialEq, Eq, Structural)]
pub enum SpawnDecision {
    /// A virtual user is free: run the iteration.
    Spawn,
    /// Add this many virtual users, then try once more; drop the iteration
    /// if none is free even then.
    Grow(u32),
    /// All virtual users are busy and none may be added: drop it.
    Drop,
}

/// The virtual users of an arrival-rate executor.
pub struct VuPool {
    allocated: u32,
    max_vus: u32,
}

impl VuPool {
    /// The pool never holds more virtual users than its limit (or one, when
    /// the limit is zero).
    pub closed spec fn wf(&self) -> bool {
        self.allocated >= 1 && self.allocated <= (if self.max_vus < 1 {
            1
        } else {
            self.max_vus
        })
    }

    /// The virtual users allocated so far.
    pub closed spec fn allocated_spec(&self) -> u32 {
        self.allocated
    }

    /// The limit of the pool.
    pub closed spec fn max_spec(&self) -> u32 {
        self.max_vus
    }

    /// A pool that starts with `pre_allocated` users, capped by `max_vus`,
    /// at least one.
    pub fn new(pre_allocated: u32, max_vus: u32) -> (p: Self)
        ensures
            p.wf(),
            p.allocated_spec() == effective_pre_allocated(pre_allocated, max_vus),
            p.max_spec() == max_vus,
    {
        let capped = if pre_allocated < max_vus {
            pre_allocated
        } else {
            max_vus
        };
        let allocated = if capped < 1 {
            1
        } else {
            capped
        };
        VuPool { allocated, max_vus }
    }

    /// The virtual users allocated so far.
    pub fn allocated(&self) -> (n: u32)
        ensures
            n == self.allocated_spec(),
    {
        self.allocated
    }

    /// Decides on a due iteration, given whether a virtual user is free;
    /// when none is, grows the pool by up to ten users within its limit.
    pub fn on_due(&mut self, permit_free: bool) -> (d: SpawnDecision)
        requires
            old(self).wf(),
        ensures
            due_step(*old(self), *final(self), permit_free, d),
            final(self).wf(),
            final(self).max_spec() == old(self).max_spec(),
            permit_free ==> d == SpawnDecision::Spawn && final(self).allocated_spec()
                == old(self).allocated_spec(),
            !permit_free && old(self).allocated_spec() < old(self).max_spec() ==> {
                let room = old(self).max_spec() - old(self).allocated_spec();
                let add = if room < 10 { room } else { 10 };
                &&& d == SpawnDecision::Grow(add as u32)
                &&& final(self).allocated_spec() == old(self).allocated_spec() + add
            },
            !permit_free && old(self).allocated_spec() >= old(self).max_spec() ==> d
                == SpawnDecision::Drop && final(self).allocated_spec() == old(self).allocated_spec(),
    {
        if permit_free {
            return SpawnDecision::Spawn;
        }
        if self.allocated < self.max_vus {
            let room = self.max_vus - self.allocated;
            let add = if room < 10 {
                room
            } else {
                10
            };
            self.allocated = self.allocated + add;
            SpawnDecision::Grow(add)
        } else {
            SpawnDecision::Drop
        }
    }
}

/// One due iteration as `VuPool::on_due` handles it: with a free user it
/// runs; else the pool grows by up to ten users within its limit and the
/// iteration is tried once more; else it is dropped.
pub open spec fn due_step(before: VuPool, after: VuPool, free: bool, d: SpawnDecision) -> bool {
    &&& after.wf()
    &&& after.max_spec() == before.max_spec()
    &&& free ==> d == SpawnDecision::Spawn && after.allocated_spec() == before.allocated_spec()
    &&& !free && before.allocated_spec() < before.max_spec() ==> {
        let room = before.max_spec() - before.allocated_spec();
        let add = if room < 10 { room } else { 10 };
        &&& d == SpawnDecision::Grow(add as u32)
        &&& after.allocated_spec() == before.allocated_spec() + add
    }
    &&& !free && before.allocated_spec() >= before.max_spec() ==> d == SpawnDecision::Drop
        && after.allocated_spec() == before.allocated_spec()
}

/// How many of the decisions `ds` drop their iteration.
pub open spec fn drops(ds: Seq<SpawnDecision>) -> nat
    decreases ds.len(),
{
    if ds.len() == 0 {
        0
    } else {
        drops(ds.drop_last()) + if ds.last() == SpawnDecision::Drop { 1nat } else { 0nat }
    }
}

/// How many of the decisions `ds` run their iteration (at once, or after
/// the pool grows).
pub open spec fn runs(ds: Seq<SpawnDecision>) -> nat
    decreases ds.len(),
{
    if ds.len() == 0 {
        0
    } else {
        runs(ds.drop_last()) + if ds.last() == SpawnDecision::Drop { 0nat } else { 1nat }
    }
}

proof fn lemma_runs_drops(ds: Seq<SpawnDecision>)
    ensures
        runs(ds) + drops(ds) == ds.len(),
    decreases ds.len(),
{
    if ds.len() > 0 {
        lemma_runs_drops(ds.drop_last());
    }
}

/// Over any run of due iterations (`ps[j + 1]` is the pool after the
/// `j`-th, decided `ds[j]` with a user free or not as `frees[j]` says):
/// every iteration is either run or dropped, so the two counts add up to
/// the iterations; an iteration with a free user always runs; one is
/// dropped only when no user is free and the pool is at its limit; and the
/// pool never exceeds its limit.
pub proof fn lemma_pool_ticks(ps: Seq<VuPool>, frees: Seq<bool>, ds: Seq<SpawnDecision>)
    requires
        ps.len() == ds.len() + 1,
        frees.len() == ds.len(),
        ps[0].wf(),
        ps[0].max_spec() >= 1,
        forall|j: int| 0 <= j < ds.len() ==> #[trigger] due_step(ps[j], ps[j + 1], frees[j], ds[j]),
    ensures
        runs(ds) + drops(ds) == ds.len(),
        forall|j: int| 0 <= j < ps.len() ==> {
            &&& (#[trigger] ps[j]).wf()
            &&& ps[j].max_spec() == ps[0].max_spec()
            &&& ps[j].allocated_spec() <= ps[0].max_spec()
        },
        forall|j: int| 0 <= j < ds.len() && #[trigger] frees[j] ==> ds[j] == SpawnDecision::Spawn,
        forall|j: int| 0 <= j < ds.len() && #[trigger] ds[j] == SpawnDecision::Drop ==> !frees[j]
            && ps[j].allocated_spec() == ps[0].max_spec(),
{
    lemma_runs_drops(ds);
    assert forall|j: int| 0 <= j < ps.len() implies {
        &&& (#[trigger] ps[j]).wf()
        &&& ps[j].max_spec() == ps[0].max_spec()
        &&& ps[j].allocated_spec() <= ps[0].max_spec()
    } by {
        lemma_pool_prefix(ps, frees, ds, j);
    }
    assert forall|j: int| 0 <= j < ds.len() && #[trigger] ds[j] == SpawnDecision::Drop implies !frees[j]
        && ps[j].allocated_spec() == ps[0].max_spec() by {
        lemma_pool_prefix(ps, frees, ds, j);
        assert(due_step(ps[j], ps[j + 1], frees[j], ds[j]));
    }
    assert forall|j: int| 0 <= j < ds.len() && #[trigger] frees[j] implies ds[j] == SpawnDecision::Spawn by {
        assert(due_step(ps[j], ps[j + 1], frees[j], ds[j]));
    }
}

proof fn lemma_pool_prefix(ps: Seq<VuPool>, frees: Seq<bool>, ds: Seq<SpawnDecision>, j: int)
    requires
        ps.len() == ds.len() + 1,
        frees.len() == ds.len(),
        ps[0].wf(),
        ps[0].max_spec() >= 1,
        forall|k: int| 0 <= k < ds.len() ==> #[trigger] due_step(ps[k], ps[k + 1], frees[k], ds[k]),
        0 <= j < ps.len(),
    ensures
        ps[j].wf(),
        ps[j].max_spec() == ps[0].max_spec(),
        ps[j].allocated_spec() <= ps[0].max_spec(),
    decreases j,
{
    if j > 0 {
        lemma_pool_prefix(ps, frees, ds, j - 1);
        assert(due_step(ps[j - 1], ps[(j - 1) + 1], frees[j - 1], ds[j - 1]));
    }
    lemma_pool_bounded(ps[j]);
}

/// However iterations come due, the pool never grows past its limit.
pub proof fn lemma_pool_bounded(p: VuPool)
    requires
        p.wf(),
        p.max_spec() >= 1,
    ensures
        p.allocated_spec() <= p.max_spec(),
{
}

/// The time between two iterations at `rate` per second, in nanoseconds.
pub fn arrival_interval_ns(rate: u32) -> (ns: u64)
    requires
        rate > 0,
    ensures
        ns == 1_000_000_000int / (rate as int),
{
    1_000_000_000 / (rate as u64)
}

/// How a constant arrival rate starts its iterations: one every
/// `arrival_interval_ns(rate)` nanoseconds; with a rate of zero none at
/// all, and the run ends at once.
pub fn arrival_interval(rate: u32) -> (r: Option<u64>)
    ensures
        rate == 0 ==> r is None,
        rate > 0 ==> r == Some((1_000_000_000int / (rate as int)) as u64),
{
    if rate == 0 {
        None
    } else {
        Some(arrival_interval_ns(rate))
    }
}

/// A stage of a ramping arrival rate.
#[derive(Debug, Clone, Copy)]
pub struct RateStage {
    pub duration_us: u64,
    pub target_rate: u32,
}

/// The rate `elapsed_us` into a stage that ramps from `start` to `end`
/// over `duration_us`: the linear interpolation, rounded to the nearest
/// whole rate (halves up), the end rate once the stage is over or when it
/// has no duration.
pub open spec fn ramp_rate(start: u32, end: u32, elapsed_us: u64, duration_us: u64) -> int {
    if duration_us == 0 {
        end as int
    } else {
        let e = if elapsed_us > duration_us {
            duration_us as int
        } else {
            elapsed_us as int
        };
        let d = duration_us as int;
        // start + (end - start) * e / d, rounded half up: floor((2 * (start * d + (end - start) * e) + d) / (2 * d))
        (2 * (start as int * d + (end as int - start as int) * e) + d) / (2 * d)
    }
}

/// The rate to run at, `elapsed_us` into a stage from `start` to `end`.
pub fn current_ramp_rate(start: u32, end: u32, elapsed_us: u64, duration_us: u64) -> (r: u32)
    ensures
        r == ramp_rate(start, end, elapsed_us, duration_us),
{
    if duration_us == 0 {
        return end;
    }
    let e: u64 = if elapsed_us > duration_us {
        duration_us
    } else {
        elapsed_us
    };
    let d = duration_us as u128;
    let s0 = start as u128;
    let e0 = e as u128;
    proof {
        assert(s0 * d <= 0xffff_ffffu128 * 0xffff_ffff_ffff_ffffu128) by (nonlinear_arith)
            requires
                s0 <= 0xffff_ffffu128,
                d <= 0xffff_ffff_ffff_ffffu128,
        ;
    }
    let base = s0 * d;
    let weighted: u128 = if start <= end {
        let delta = (end - start) as u128;
        proof {
            assert(delta * e0 <= delta * d) by (nonlinear_arith)
                requires
                    e0 <= d,
            ;
            assert(delta * d + s0 * d == (end as u128) * d) by (nonlinear_arith)
                requires
                    delta == end - start,
                    s0 == start,
            ;
            assert((end as u128) * d <= 0xffff_ffffu128 * 0xffff_ffff_ffff_ffffu128) by (nonlinear_arith)
                requires
                    end <= 0xffff_ffffu32,
                    d <= 0xffff_ffff_ffff_ffffu128,
            ;
        }
        base + delta * e0
    } else {
        let delta = (start - end) as u128;
        proof {
            assert(delta * e0 <= delta * d) by (nonlinear_arith)
                requires
                    e0 <= d,
            ;
            assert(delta * d <= s0 * d) by (nonlinear_arith)
                requires
                    delta <= s0,
            ;
        }
        base - delta * e0
    };
    proof {
        assert(weighted as int == start as int * d as int + (end as int - start as int) * e as int) by (nonlinear_arith)
            requires
                start <= end ==> weighted as int == start as int * d as int + (end - start) as int * e as int,
                start > end ==> weighted as int == start as int * d as int - (start - end) as int * e as int,
        ;
    }
    let num = 2 * weighted + d;
    let q = num / (2 * d);
    proof {
        lemma_ramp_rate_between(start, end, elapsed_us, duration_us);
    }
    q as u32
}

/// The ramped rate always lies between the stage's start and end rates.
pub proof fn lemma_ramp_rate_between(start: u32, end: u32, elapsed_us: u64, duration_us: u64)
    ensures
        (if start < end { start as int } else { end as int }) <= ramp_rate(start, end, elapsed_us, duration_us)
            <= (if start < end { end as int } else { start as int }),
{
    if duration_us > 0 {
        let e: int = if elapsed_us > duration_us { duration_us as int } else { elapsed_us as int };
        let d = duration_us as int;
        let lo: int = if start < end { start as int } else { end as int };
        let hi: int = if start < end { end as int } else { start as int };
        let num = 2 * (start as int * d + (end as int - start as int) * e) + d;
        assert(lo * d <= start as int * d + (end as int - start as int) * e <= hi * d) by (nonlinear_arith)
            requires
                0 <= e <= d,
                d > 0,
                lo == (if start < end { start as int } else { end as int }),
                hi == (if start < end { end as int } else { start as int }),
        ;
        assert(2 * (lo * d) + d <= num <= 2 * (hi * d) + d);
        assert(lo <= num / (2 * d) <= hi) by (nonlinear_arith)
            requires
                2 * (lo * d) + d <= num <= 2 * (hi * d) + d,
                d > 0,
                lo >= 0,
        ;
    }
}

/// The iterations owed by a ramping executor, in millionths of an
/// iteration.
pub struct IterationDebt {
    micro: u128,
}

impl IterationDebt {
    /// The owed amount, in millionths of an iteration.
    pub closed spec fn micro_spec(&self) -> nat {
        self.micro as nat
    }

    /// Nothing owed.
    pub fn new() -> (d: Self)
        ensures
            d.micro_spec() == 0,
    {
        IterationDebt { micro: 0 }
    }

    /// Adds what `elapsed_us` at `rate` per second owes, and takes out the
    /// whole iterations now due, which it returns.
    pub fn accrue(&mut self, rate: u32, elapsed_us: u64) -> (due: u128)
        requires
            old(self).micro_spec() < 1_000_000,
        ensures
            final(self).micro_spec() < 1_000_000,
            due as int * 1_000_000 + final(self).micro_spec() == old(self).micro_spec() + rate as int
                * elapsed_us as int,
    {
        proof {
            assert((rate as u128) * (elapsed_us as u128) <= 0xffff_ffffu128 * 0xffff_ffff_ffff_ffffu128) by (nonlinear_arith)
                requires
                    rate <= 0xffff_ffffu32,
                    elapsed_us <= 0xffff_ffff_ffff_ffffu64,
            ;
        }
        let added: u128 = (rate as u128) * (elapsed_us as u128);
        let total = self.micro + added;
        let due = total / 1_000_000;
        self.micro = total % 1_000_000;
        due
    }
}

} // verus!
