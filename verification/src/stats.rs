//! The running statistics of a load test: counters, status codes, error
//! kinds, the per-second timeline, the rolling one-second window and the
//! latency histogram.
//!
//! Times are microseconds since the statistics started (or were last
//! reset) on the monotonic clock.
use vstd::prelude::*;

use hdrhistogram::Histogram;
use std::collections::HashMap;
use std::time::Instant;
use vstd::multiset::Multiset;

use crate::clock::{elapsed_us, instant_now};
use crate::types::{ErrorKind, RequestResult, TimelineBucket, corrected_latency, error_kind_index, result_is_success};

verus! {

broadcast use vstd::std_specs::hash::group_hash_axioms;

/// An `hdrhistogram` histogram of latencies in microseconds, from one
/// microsecond to a minute, with three significant figures.
///
/// Its contents are hidden from the proofs and named by `hist_values`.
/// The statistics that are computed in floating point (mean, deviation,
/// percentiles) read `inner` directly: the histogram type cannot be named
/// in verified signatures, so no accessor can hand it out. Nothing in the
/// library writes `inner` but the wrappers below.
#[verifier::external_body]
pub struct LatencyHistogram {
    pub inner: Histogram<u64>,
}

/// The latencies recorded in a histogram, as a multiset of the values
/// given to `record`.
pub uninterp spec fn hist_values(h: LatencyHistogram) -> Multiset<u64>;

/// The largest latency the histogram tracks: a minute.
pub const MAX_LATENCY_US: u64 = 60_000_000;

/// Calls `Histogram::<u64>::new_with_bounds(1, 60_000_000, 3)`.
///
/// Trusted: with these bounds the constructor does not fail (its checks:
/// a low bound of at least one, a high bound of at least twice the low
/// one, at most five significant figures), and the histogram is empty.
#[verifier::external_body]
pub(crate) fn new_histogram() -> (h: LatencyHistogram)
    ensures
        hist_values(h) =~= Multiset::empty(),
{
    LatencyHistogram { inner: Histogram::<u64>::new_with_bounds(1, 60_000_000, 3).unwrap() }
}

/// Calls `Histogram::record` for a value within the histogram's range.
///
/// Trusted: a value up to the highest trackable one is recorded without
/// error (the crate reports an error only for a value out of range with
/// auto-resize off), and the histogram then holds it once more.
#[verifier::external_body]
pub(crate) fn hist_record(h: &mut LatencyHistogram, v: u64)
    requires
        v <= MAX_LATENCY_US,
    ensures
        hist_values(*final(h)) == hist_values(*old(h)).insert(v),
{
    let _ = h.inner.record(v);
}

/// Calls `Histogram::reset`.
///
/// Trusted: the histogram is empty afterwards.
#[verifier::external_body]
pub(crate) fn hist_reset(h: &mut LatencyHistogram)
    ensures
        hist_values(*final(h)) =~= Multiset::empty(),
{
    h.inner.reset();
}

/// Calls `Histogram::len`.
///
/// Trusted: the number of recorded values (the crate's count saturates at
/// the largest `u64`).
#[verifier::external_body]
pub(crate) fn hist_len(h: &LatencyHistogram) -> (n: u64)
    ensures
        n == (if hist_values(*h).len() <= u64::MAX {
            hist_values(*h).len()
        } else {
            u64::MAX as nat
        }),
{
    h.inner.len()
}

/// `m` is the level that a histogram of one microsecond to a minute with
/// three significant figures reports for the smallest of `values`: zero
/// without values; else that smallest value itself when it is below 2048,
/// and otherwise that value rounded down to its level, less than a 1024th
/// of it below.
pub open spec fn min_level(values: Multiset<u64>, m: u64) -> bool {
    if values.len() == 0 {
        m == 0
    } else {
        exists|v: u64|
            #[trigger] values.contains(v) && (forall|w: u64| values.contains(w) ==> v <= w) && m
                <= v && 1024 * (v - m) <= v && (v < 2048 ==> m == v)
    }
}

/// Calls `Histogram::min`.
///
/// Trusted: zero without values (and when a zero was recorded); else the
/// lowest equivalent of the smallest recorded value. With the bounds of
/// `new_histogram` (a unit of one, 2048 sub-buckets) a value below 2048 is
/// its own lowest equivalent, and a larger value `v` in bucket `b` (where
/// `2^(b+10) <= v`) is rounded down to a multiple of `2^b`.
#[verifier::external_body]
pub(crate) fn hist_min(h: &LatencyHistogram) -> (m: u64)
    ensures
        min_level(hist_values(*h), m),
        hist_values(*h).len() == 0 ==> m == 0,
        forall|v: u64| hist_values(*h).contains(v) ==> m <= v,
{
    h.inner.min()
}

/// `m` is the level that a histogram of one microsecond to a minute with
/// three significant figures reports for the largest of `values`: zero
/// without values; else that largest value itself when it is below 2048,
/// and otherwise that value raised to the top of its level, less than a
/// 1024th of it above.
pub open spec fn max_level(values: Multiset<u64>, m: u64) -> bool {
    if values.len() == 0 {
        m == 0
    } else {
        exists|v: u64|
            #[trigger] values.contains(v) && (forall|w: u64| values.contains(w) ==> w <= v) && v
                <= m && 1024 * (m - v) <= v && (v < 2048 ==> m == v)
    }
}

/// Calls `Histogram::max`.
///
/// Trusted: zero without values (and when only zeros were recorded); else
/// the highest equivalent of the largest recorded value. With the bounds of
/// `new_histogram` (a unit of one, 2048 sub-buckets) a value below 2048 is
/// its own highest equivalent, and a larger value `v` in bucket `b` (where
/// `2^(b+10) <= v`) is raised to the last value of its multiple of `2^b`.
#[verifier::external_body]
pub(crate) fn hist_max(h: &LatencyHistogram) -> (m: u64)
    ensures
        max_level(hist_values(*h), m),
        hist_values(*h).len() == 0 ==> m == 0,
        forall|v: u64| hist_values(*h).contains(v) ==> v <= m,
{
    h.inner.max()
}

/// The running statistics of a load test.
pub struct Stats {
    histogram: LatencyHistogram,
    corrected_histogram: LatencyHistogram,
    queue_histogram: LatencyHistogram,
    total_queue_time_us: u64,
    total_requests: u64,
    successful: u64,
    failed: u64,
    bytes_received: u64,
    status_codes: HashMap<u16, u64>,
    errors: Vec<u64>,
    timeline: Vec<TimelineBucket>,
    last_second_requests: u64,
    rolling_window: Vec<u64>,
    start_time: Instant,
}

/// The timeline after one more request in second `secs`: a new bucket
/// when the second is later than the last bucket's (or there is none),
/// the old last bucket closed with its count; then the last bucket holds
/// the requests of its second so far.
pub open spec fn timeline_after(tl: Seq<TimelineBucket>, last_count: u64, secs: u32) -> (Seq<TimelineBucket>, u64) {
    if tl.len() == 0 || tl.last().elapsed_secs < secs {
        let closed = if tl.len() == 0 {
            tl
        } else {
            tl.update(tl.len() - 1, TimelineBucket { requests: last_count, ..tl.last() })
        };
        let opened = closed.push(TimelineBucket { elapsed_secs: secs, requests: 1, errors: 0 });
        (opened, 1)
    } else {
        let n = (last_count + 1) as u64;
        (tl.update(tl.len() - 1, TimelineBucket { requests: n, ..tl.last() }), n)
    }
}

/// A time clamped to the histograms' range of a minute.
pub open spec fn clamp_us(v: u64) -> u64 {
    if v < MAX_LATENCY_US {
        v
    } else {
        MAX_LATENCY_US
    }
}

/// A time clamped to the histograms' range of a minute.
fn clamp_latency_us(v: u64) -> (c: u64)
    ensures
        c == clamp_us(v),
{
    if v < MAX_LATENCY_US {
        v
    } else {
        MAX_LATENCY_US
    }
}

/// The times of the rolling window that are less than a second before
/// `now` (a time after `now` counts as no time before it).
pub open spec fn window_after(w: Seq<u64>, now: u64) -> Seq<u64>
    decreases w.len(),
{
    if w.len() == 0 {
        Seq::empty()
    } else {
        let rest = window_after(w.drop_last(), now);
        let t = w.last();
        let age: int = if now >= t { now - t } else { 0 };
        if age < 1_000_000 {
            rest.push(t)
        } else {
            rest
        }
    }
}

impl Stats {
    /// The statistics' invariant: every request is a success or a failure,
    /// and there is a counter for each error kind.
    pub closed spec fn wf(&self) -> bool {
        &&& self.successful + self.failed == self.total_requests
        &&& self.errors@.len() == 9
    }

    /// The requests recorded.
    pub closed spec fn total(&self) -> u64 {
        self.total_requests
    }

    /// The requests that succeeded.
    pub closed spec fn successes(&self) -> u64 {
        self.successful
    }

    /// The requests that failed.
    pub closed spec fn failures(&self) -> u64 {
        self.failed
    }

    /// The bytes received.
    pub closed spec fn bytes(&self) -> u64 {
        self.bytes_received
    }

    /// The per-second timeline.
    pub closed spec fn timeline_view(&self) -> Seq<TimelineBucket> {
        self.timeline@
    }

    /// The requests recorded.
    pub fn total_requests(&self) -> (n: u64)
        ensures
            n == self.total(),
    {
        self.total_requests
    }

    /// The requests that succeeded.
    pub fn successful(&self) -> (n: u64)
        ensures
            n == self.successes(),
    {
        self.successful
    }

    /// The requests that failed.
    pub fn failed(&self) -> (n: u64)
        ensures
            n == self.failures(),
    {
        self.failed
    }

    /// The bytes received.
    pub fn bytes_received(&self) -> (n: u64)
        ensures
            n == self.bytes(),
    {
        self.bytes_received
    }

    /// The per-second timeline.
    pub fn timeline(&self) -> (t: &Vec<TimelineBucket>)
        ensures
            t@ == self.timeline_view(),
    {
        &self.timeline
    }

    /// The latencies recorded, clamped to a minute.
    pub closed spec fn latencies(&self) -> Multiset<u64> {
        hist_values(self.histogram)
    }

    /// The latencies without their queue time of the results that carry
    /// timing, clamped to a minute.
    pub closed spec fn corrected_latencies(&self) -> Multiset<u64> {
        hist_values(self.corrected_histogram)
    }

    /// The queue times of the results that carry timing, clamped to a
    /// minute.
    pub closed spec fn queue_times(&self) -> Multiset<u64> {
        hist_values(self.queue_histogram)
    }

    /// The queue times of the results that carry timing, added up.
    pub closed spec fn total_queue(&self) -> u64 {
        self.total_queue_time_us
    }

    /// How many responses came with status `code`.
    pub closed spec fn status_count(&self, code: u16) -> nat {
        if self.status_codes@.contains_key(code) {
            self.status_codes@[code] as nat
        } else {
            0
        }
    }

    /// How many requests failed with an error of kind `k`.
    pub closed spec fn error_count(&self, k: ErrorKind) -> u64 {
        self.errors@[error_kind_index(k) as int]
    }

    /// The times of the requests of the last second.
    pub closed spec fn window(&self) -> Seq<u64> {
        self.rolling_window@
    }

    /// The count of the current second so far.
    pub closed spec fn current_second(&self) -> u64 {
        self.last_second_requests
    }

    /// Nothing is recorded: every counter is zero, and the timeline, the
    /// rolling window and the histogram are empty.
    pub open spec fn is_fresh(&self) -> bool {
        &&& self.wf()
        &&& self.total() == 0
        &&& self.successes() == 0
        &&& self.failures() == 0
        &&& self.bytes() == 0
        &&& self.latencies() =~= Multiset::empty()
        &&& self.corrected_latencies() =~= Multiset::empty()
        &&& self.queue_times() =~= Multiset::empty()
        &&& self.total_queue() == 0
        &&& forall|c: u16| #[trigger] self.status_count(c) == 0
        &&& forall|k: ErrorKind| #[trigger] self.error_count(k) == 0
        &&& self.timeline_view().len() == 0
        &&& self.window().len() == 0
        &&& self.current_second() == 0
    }

    /// Statistics with nothing recorded, starting now.
    pub fn new() -> (s: Self)
        ensures
            s.is_fresh(),
    {
        let errors: Vec<u64> = vec![0, 0, 0, 0, 0, 0, 0, 0, 0];
        let s = Stats {
            histogram: new_histogram(),
            corrected_histogram: new_histogram(),
            queue_histogram: new_histogram(),
            total_queue_time_us: 0,
            total_requests: 0,
            successful: 0,
            failed: 0,
            bytes_received: 0,
            status_codes: HashMap::new(),
            errors,
            timeline: Vec::new(),
            last_second_requests: 0,
            rolling_window: Vec::new(),
            start_time: instant_now(),
        };
        s
    }

    /// Forgets everything recorded and starts again now, as at the end of
    /// the warmup.
    pub fn reset(&mut self)
        ensures
            final(self).is_fresh(),
    {
        hist_reset(&mut self.histogram);
        hist_reset(&mut self.corrected_histogram);
        hist_reset(&mut self.queue_histogram);
        self.total_queue_time_us = 0;
        self.total_requests = 0;
        self.successful = 0;
        self.failed = 0;
        self.bytes_received = 0;
        self.status_codes = HashMap::new();
        self.errors = vec![0, 0, 0, 0, 0, 0, 0, 0, 0];
        self.timeline = Vec::new();
        self.last_second_requests = 0;
        self.rolling_window = Vec::new();
        self.start_time = instant_now();
    }

    /// Counts one more response with status `code`.
    fn count_status(&mut self, code: u16)
        requires
            old(self).status_count(code) < u64::MAX,
        ensures
            forall|c: u16| #[trigger] final(self).status_count(c) == old(self).status_count(c)
                + if c == code { 1nat } else { 0nat },
            final(self).histogram == old(self).histogram,
            final(self).corrected_histogram == old(self).corrected_histogram,
            final(self).queue_histogram == old(self).queue_histogram,
            final(self).total_queue_time_us == old(self).total_queue_time_us,
            final(self).errors == old(self).errors,
            final(self).timeline == old(self).timeline,
            final(self).rolling_window == old(self).rolling_window,
            final(self).last_second_requests == old(self).last_second_requests,
            final(self).start_time == old(self).start_time,
            final(self).total() == old(self).total(),
            final(self).successes() == old(self).successes(),
            final(self).failures() == old(self).failures(),
            final(self).bytes() == old(self).bytes(),
    {
        let n: u64 = match self.status_codes.get(&code) {
            Some(v) => *v,
            None => 0,
        };
        self.status_codes.insert(code, n + 1);
    }

    /// Whether one more `result` fits in every counter.
    pub open spec fn has_room_for(&self, result: RequestResult) -> bool {
        &&& self.total() < u64::MAX
        &&& self.bytes() + result.bytes_received <= u64::MAX
        &&& self.current_second() < u64::MAX
        &&& (result.status matches Some(s) ==> self.status_count(s) < u64::MAX)
        &&& (result.error matches Some(k) ==> self.error_count(k) < u64::MAX)
        &&& (result.queue_time_us matches Some(q) ==> self.total_queue() + q <= u64::MAX)
    }

    /// These statistics count `result` on top of `before`: the counters,
    /// the status codes, the error kinds and the latencies (clamped to a
    /// minute).
    pub open spec fn counts_one_more(&self, before: Stats, result: RequestResult) -> bool {
        &&& self.wf()
        &&& self.total() == before.total() + 1
        &&& self.bytes() == before.bytes() + result.bytes_received
        &&& self.successes() == before.successes() + if result_is_success(result) { 1int } else { 0int }
        &&& self.failures() == before.failures() + if result_is_success(result) { 0int } else { 1int }
        &&& self.latencies() == before.latencies().insert(
            if result.latency_us < MAX_LATENCY_US { result.latency_us } else { MAX_LATENCY_US },
        )
        &&& forall|c: u16| #[trigger] self.status_count(c) == before.status_count(c) + if result.status == Some(c) { 1nat } else { 0nat }
        &&& forall|k: ErrorKind| #[trigger] self.error_count(k) == before.error_count(k) + if result.error == Some(k) { 1int } else { 0int }
        &&& match result.queue_time_us {
            Some(q) => {
                &&& self.queue_times() == before.queue_times().insert(clamp_us(q))
                &&& self.corrected_latencies() == before.corrected_latencies().insert(
                    clamp_us(corrected_latency(result)),
                )
                &&& self.total_queue() == before.total_queue() + q
            },
            None => {
                &&& self.queue_times() == before.queue_times()
                &&& self.corrected_latencies() == before.corrected_latencies()
                &&& self.total_queue() == before.total_queue()
            },
        }
    }

    /// Whether one more `result` fits in every counter.
    pub fn can_record(&self, result: &RequestResult) -> (b: bool)
        requires
            self.wf(),
        ensures
            b == self.has_room_for(*result),
    {
        if self.total_requests == u64::MAX || self.last_second_requests == u64::MAX {
            return false;
        }
        if self.bytes_received > u64::MAX - result.bytes_received {
            return false;
        }
        if let Some(s) = result.status {
            if self.status_code_count(s) == u64::MAX {
                return false;
            }
        }
        if let Some(k) = result.error {
            if self.error_kind_count(k) == u64::MAX {
                return false;
            }
        }
        if let Some(q) = result.queue_time_us {
            if self.total_queue_time_us > u64::MAX - q {
                return false;
            }
        }
        true
    }

    /// Microseconds since the statistics started or were last reset.
    pub fn elapsed_us(&self) -> u64 {
        elapsed_us(&self.start_time)
    }

    /// Records the outcome of one request, now.
    ///
    /// The counters change as `record_at` says; the rolling window and the
    /// timeline change as it says for the time the clock gave.
    pub fn record(&mut self, result: &RequestResult)
        requires
            old(self).wf(),
            old(self).has_room_for(*result),
        ensures
            final(self).counts_one_more(*old(self), *result),
            records_one(*final(self), *old(self), *result),
            exists|t: u64|
                {
                    &&& final(self).window() == window_after(old(self).window().push(t), t)
                    &&& (final(self).timeline_view(), final(self).current_second()) == timeline_after(
                        old(self).timeline_view(),
                        old(self).current_second(),
                        (t / 1_000_000) as u32,
                    )
                },
    {
        let t = self.elapsed_us();
        self.record_at(result, t);
    }

    /// Records the outcome of one request, `now_us` after the start.
    pub fn record_at(&mut self, result: &RequestResult, now_us: u64)
        requires
            old(self).wf(),
            old(self).has_room_for(*result),
        ensures
            final(self).counts_one_more(*old(self), *result),
            records_one(*final(self), *old(self), *result),
            final(self).window() == window_after(old(self).window().push(now_us), now_us),
            (final(self).timeline_view(), final(self).current_second()) == timeline_after(
                old(self).timeline_view(),
                old(self).current_second(),
                (now_us / 1_000_000) as u32,
            ),
    {
        self.total_requests = self.total_requests + 1;
        self.bytes_received = self.bytes_received + result.bytes_received;
        let latency = if result.latency_us < MAX_LATENCY_US {
            result.latency_us
        } else {
            MAX_LATENCY_US
        };
        hist_record(&mut self.histogram, latency);
        if let Some(q) = result.queue_time_us {
            self.total_queue_time_us = self.total_queue_time_us + q;
            hist_record(&mut self.queue_histogram, clamp_latency_us(q));
            hist_record(&mut self.corrected_histogram, clamp_latency_us(result.corrected_latency_us()));
        }
        if result.is_success() {
            self.successful = self.successful + 1;
        } else {
            self.failed = self.failed + 1;
        }
        if let Some(status) = result.status {
            self.count_status(status);
        }
        let ghost counted = *self;
        if let Some(kind) = result.error {
            let i = kind.index();
            let c = self.errors[i];
            self.errors.set(i, c + 1);
        }
        self.rolling_window.push(now_us);
        self.rolling_window = retain_recent(&self.rolling_window, now_us);
        let secs = (now_us / 1_000_000) as u32;
        self.update_timeline(secs);
        assert forall|c: u16| #[trigger] self.status_count(c) == counted.status_count(c) by {
            assert(self.status_codes@ == counted.status_codes@);
        }
        assert((self.timeline_view(), self.current_second()) == timeline_after(
            old(self).timeline_view(),
            old(self).current_second(),
            secs,
        ));
    }

    /// Counts a request of second `secs` in the timeline.
    fn update_timeline(&mut self, secs: u32)
        requires
            old(self).last_second_requests < u64::MAX,
        ensures
            (final(self).timeline_view(), final(self).last_second_requests) == timeline_after(
                old(self).timeline_view(),
                old(self).last_second_requests,
                secs,
            ),
            final(self).histogram == old(self).histogram,
            final(self).corrected_histogram == old(self).corrected_histogram,
            final(self).queue_histogram == old(self).queue_histogram,
            final(self).total_queue_time_us == old(self).total_queue_time_us,
            final(self).errors == old(self).errors,
            final(self).status_codes == old(self).status_codes,
            final(self).rolling_window == old(self).rolling_window,
            final(self).start_time == old(self).start_time,
            final(self).total() == old(self).total(),
            final(self).successes() == old(self).successes(),
            final(self).failures() == old(self).failures(),
            final(self).bytes() == old(self).bytes(),
    {
        let n = self.timeline.len();
        if n == 0 || self.timeline[n - 1].elapsed_secs < secs {
            if n > 0 {
                let last = self.timeline[n - 1];
                self.timeline.set(n - 1, TimelineBucket { requests: self.last_second_requests, ..last });
            }
            self.timeline.push(TimelineBucket { elapsed_secs: secs, requests: 0, errors: 0 });
            self.last_second_requests = 0;
        }
        self.last_second_requests = self.last_second_requests + 1;
        let m = self.timeline.len();
        let last = self.timeline[m - 1];
        self.timeline.set(m - 1, TimelineBucket { requests: self.last_second_requests, ..last });
    }

    /// The requests of the last second.
    pub fn rolling_count(&self) -> (n: usize)
        ensures
            n == self.window().len(),
    {
        self.rolling_window.len()
    }

    /// The smallest latency level recorded (zero without any).
    pub fn latency_min(&self) -> (m: u64)
        ensures
            min_level(self.latencies(), m),
            self.latencies().len() == 0 ==> m == 0,
            forall|v: u64| self.latencies().contains(v) ==> m <= v,
    {
        hist_min(&self.histogram)
    }

    /// The largest latency level recorded (zero without any).
    pub fn latency_max(&self) -> (m: u64)
        ensures
            max_level(self.latencies(), m),
            self.latencies().len() == 0 ==> m == 0,
            forall|v: u64| self.latencies().contains(v) ==> v <= m,
    {
        hist_max(&self.histogram)
    }

    /// The number of latencies recorded.
    pub fn latency_count(&self) -> (n: u64)
        ensures
            n == (if self.latencies().len() <= u64::MAX {
                self.latencies().len()
            } else {
                u64::MAX as nat
            }),
    {
        hist_len(&self.histogram)
    }

    /// Whether any result carried timing, so that corrected latencies and
    /// queue times were recorded.
    pub fn has_corrected_latency(&self) -> (b: bool)
        ensures
            b == (self.corrected_latencies().len() > 0),
    {
        hist_len(&self.corrected_histogram) > 0
    }

    /// The smallest corrected latency level recorded (zero without any).
    pub fn corrected_latency_min(&self) -> (m: u64)
        ensures
            min_level(self.corrected_latencies(), m),
    {
        hist_min(&self.corrected_histogram)
    }

    /// The largest corrected latency level recorded (zero without any).
    pub fn corrected_latency_max(&self) -> (m: u64)
        ensures
            max_level(self.corrected_latencies(), m),
            self.corrected_latencies().len() == 0 ==> m == 0,
            forall|v: u64| self.corrected_latencies().contains(v) ==> v <= m,
    {
        hist_max(&self.corrected_histogram)
    }

    /// The queue times added up.
    pub fn total_queue_time_us(&self) -> (t: u64)
        ensures
            t == self.total_queue(),
    {
        self.total_queue_time_us
    }

    /// The histogram of corrected latencies, for the statistics that are
    /// computed in floating point.
    pub fn corrected_histogram(&self) -> (h: &LatencyHistogram)
        ensures
            hist_values(*h) == self.corrected_latencies(),
    {
        &self.corrected_histogram
    }

    /// The histogram of queue times, for the statistics that are computed
    /// in floating point.
    pub fn queue_histogram(&self) -> (h: &LatencyHistogram)
        ensures
            hist_values(*h) == self.queue_times(),
    {
        &self.queue_histogram
    }

    /// The histogram of latencies, for the statistics that are computed in
    /// floating point.
    pub fn histogram(&self) -> (h: &LatencyHistogram)
        ensures
            hist_values(*h) == self.latencies(),
    {
        &self.histogram
    }

    /// The count of responses with status `code`.
    pub fn status_code_count(&self, code: u16) -> (n: u64)
        requires
            self.wf(),
        ensures
            n == self.status_count(code),
    {
        match self.status_codes.get(&code) {
            Some(v) => *v,
            None => 0,
        }
    }

    /// The status codes seen, each with its count.
    pub fn status_codes(&self) -> (m: &HashMap<u16, u64>)
        ensures
            forall|c: u16| #[trigger] self.status_count(c) == if m@.contains_key(c) {
                m@[c] as nat
            } else {
                0nat
            },
    {
        &self.status_codes
    }

    /// The count of errors of kind `k`.
    pub fn error_kind_count(&self, k: ErrorKind) -> (n: u64)
        requires
            self.wf(),
        ensures
            n == self.error_count(k),
    {
        self.errors[k.index()]
    }
}

/// How many of `rs` succeeded.
pub open spec fn successes_in(rs: Seq<RequestResult>) -> nat
    decreases rs.len(),
{
    if rs.len() == 0 {
        0
    } else {
        successes_in(rs.drop_last()) + if result_is_success(rs.last()) { 1nat } else { 0nat }
    }
}

/// The bytes received by `rs` together.
pub open spec fn bytes_in(rs: Seq<RequestResult>) -> nat
    decreases rs.len(),
{
    if rs.len() == 0 {
        0
    } else {
        bytes_in(rs.drop_last()) + rs.last().bytes_received as nat
    }
}

/// How many of `rs` came with status `c`.
pub open spec fn status_in(rs: Seq<RequestResult>, c: u16) -> nat
    decreases rs.len(),
{
    if rs.len() == 0 {
        0
    } else {
        status_in(rs.drop_last(), c) + if rs.last().status == Some(c) { 1nat } else { 0nat }
    }
}

/// How many of `rs` failed with an error of kind `k`.
pub open spec fn errors_in(rs: Seq<RequestResult>, k: ErrorKind) -> nat
    decreases rs.len(),
{
    if rs.len() == 0 {
        0
    } else {
        errors_in(rs.drop_last(), k) + if rs.last().error == Some(k) { 1nat } else { 0nat }
    }
}

/// The latencies of `rs`, clamped to a minute.
pub open spec fn latencies_in(rs: Seq<RequestResult>) -> Multiset<u64>
    decreases rs.len(),
{
    if rs.len() == 0 {
        Multiset::empty()
    } else {
        latencies_in(rs.drop_last()).insert(
            if rs.last().latency_us < MAX_LATENCY_US { rs.last().latency_us } else { MAX_LATENCY_US },
        )
    }
}

/// The requests of all the buckets of a timeline together.
pub open spec fn timeline_sum(tl: Seq<TimelineBucket>) -> nat
    decreases tl.len(),
{
    if tl.len() == 0 {
        0
    } else {
        timeline_sum(tl.drop_last()) + tl.last().requests as nat
    }
}

/// `after` is `before` with `result` recorded in some second: the counters
/// as `counts_one_more` says, and the timeline as `timeline_after` says.
pub open spec fn records_one(after: Stats, before: Stats, result: RequestResult) -> bool {
    &&& after.counts_one_more(before, result)
    &&& exists|secs: u32|
        #![trigger timeline_after(before.timeline_view(), before.current_second(), secs)]
        (after.timeline_view(), after.current_second()) == timeline_after(
            before.timeline_view(),
            before.current_second(),
            secs,
        )
}

/// The last bucket of a timeline holds the count of the current second.
pub open spec fn timeline_current(tl: Seq<TimelineBucket>, c: u64) -> bool {
    if tl.len() == 0 {
        c == 0
    } else {
        tl.last().requests == c
    }
}

proof fn lemma_timeline_step(tl: Seq<TimelineBucket>, c: u64, secs: u32)
    requires
        timeline_current(tl, c),
        c < u64::MAX,
    ensures
        timeline_current(timeline_after(tl, c, secs).0, timeline_after(tl, c, secs).1),
        timeline_sum(timeline_after(tl, c, secs).0) == timeline_sum(tl) + 1,
{
    let (t2, c2) = timeline_after(tl, c, secs);
    if tl.len() == 0 || tl.last().elapsed_secs < secs {
        let closed = if tl.len() == 0 {
            tl
        } else {
            tl.update(tl.len() - 1, TimelineBucket { requests: c, ..tl.last() })
        };
        if tl.len() > 0 {
            assert(closed.drop_last() =~= tl.drop_last());
            assert(closed =~= tl);
        }
        assert(t2.drop_last() =~= closed);
    } else {
        assert(t2.drop_last() =~= tl.drop_last());
    }
}

proof fn lemma_records_prefix(ss: Seq<Stats>, rs: Seq<RequestResult>, m: int)
    requires
        ss.len() == rs.len() + 1,
        ss[0].is_fresh(),
        forall|j: int| 0 <= j < rs.len() ==> #[trigger] records_one(ss[j + 1], ss[j], rs[j]),
        0 <= m <= rs.len(),
    ensures
        ({
            let s = ss[m];
            let p = rs.take(m);
            &&& s.wf()
            &&& s.total() == m
            &&& s.successes() == successes_in(p)
            &&& s.failures() == m - successes_in(p)
            &&& s.bytes() == bytes_in(p)
            &&& s.latencies() == latencies_in(p)
            &&& forall|c: u16| #[trigger] s.status_count(c) == status_in(p, c)
            &&& forall|k: ErrorKind| #[trigger] s.error_count(k) == errors_in(p, k)
            &&& timeline_current(s.timeline_view(), s.current_second())
            &&& timeline_sum(s.timeline_view()) == m
        }),
    decreases m,
{
    if m == 0 {
        assert(rs.take(0) =~= Seq::<RequestResult>::empty());
        assert(ss[0].latencies() =~= latencies_in(rs.take(0)));
    } else {
        lemma_records_prefix(ss, rs, m - 1);
        let before = ss[m - 1];
        let after = ss[m];
        let r = rs[m - 1];
        assert(records_one(ss[(m - 1) + 1], ss[m - 1], rs[m - 1]));
        let p = rs.take(m);
        assert(p.drop_last() =~= rs.take(m - 1));
        assert(p.last() == r);
        let secs = choose|secs: u32|
            #![trigger timeline_after(before.timeline_view(), before.current_second(), secs)]
            (after.timeline_view(), after.current_second()) == timeline_after(
                before.timeline_view(),
                before.current_second(),
                secs,
            );
        assert(before.current_second() < u64::MAX) by {
            if before.current_second() == u64::MAX {
                assert(timeline_sum(before.timeline_view()) >= before.current_second()) by {
                    if before.timeline_view().len() > 0 {
                        assert(timeline_sum(before.timeline_view()) == timeline_sum(
                            before.timeline_view().drop_last(),
                        ) + before.timeline_view().last().requests);
                    }
                }
            }
        }
        lemma_timeline_step(before.timeline_view(), before.current_second(), secs);
        assert forall|c: u16| #[trigger] after.status_count(c) == status_in(p, c) by {
            assert(before.status_count(c) == status_in(rs.take(m - 1), c));
        }
        assert forall|k: ErrorKind| #[trigger] after.error_count(k) == errors_in(p, k) by {
            assert(before.error_count(k) == errors_in(rs.take(m - 1), k));
        }
    }
}

/// Recording the results `rs` one after another on fresh statistics
/// (`ss[j + 1]` is `ss[j]` with `rs[j]` recorded, as `record` does) counts
/// every one of them: the total is their number, the successes and the
/// failures split it, the bytes are their sum, each status code and each
/// error kind is counted as often as it occurs, the latencies are theirs,
/// and the buckets of the timeline add up to the total.
pub proof fn lemma_records_count(ss: Seq<Stats>, rs: Seq<RequestResult>)
    requires
        ss.len() == rs.len() + 1,
        ss[0].is_fresh(),
        forall|j: int| 0 <= j < rs.len() ==> #[trigger] records_one(ss[j + 1], ss[j], rs[j]),
    ensures
        ({
            let s = ss[rs.len() as int];
            &&& s.total() == rs.len()
            &&& s.successes() == successes_in(rs)
            &&& s.failures() == rs.len() - successes_in(rs)
            &&& s.bytes() == bytes_in(rs)
            &&& s.latencies() == latencies_in(rs)
            &&& forall|c: u16| #[trigger] s.status_count(c) == status_in(rs, c)
            &&& forall|k: ErrorKind| #[trigger] s.error_count(k) == errors_in(rs, k)
            &&& timeline_sum(s.timeline_view()) == rs.len()
        }),
{
    lemma_records_prefix(ss, rs, rs.len() as int);
    assert(rs.take(rs.len() as int) =~= rs);
}

/// Every recorded request is exactly one of a success and a failure.
pub proof fn lemma_outcomes_partition(s: Stats)
    requires
        s.wf(),
    ensures
        s.successes() + s.failures() == s.total(),
{
}

/// The times of `w` less than a second before `now`.
pub(crate) fn retain_recent(w: &Vec<u64>, now: u64) -> (out: Vec<u64>)
    ensures
        out@ == window_after(w@, now),
{
    let mut out: Vec<u64> = Vec::new();
    let mut i: usize = 0;
    while i < w.len()
        invariant
            i <= w@.len(),
            out@ == window_after(w@.take(i as int), now),
        decreases w@.len() - i,
    {
        let t = w[i];
        proof {
            assert(w@.take(i + 1).drop_last() == w@.take(i as int));
            assert(w@.take(i + 1).last() == t);
        }
        let age: u64 = if now >= t {
            now - t
        } else {
            0
        };
        if age < 1_000_000 {
            out.push(t);
        }
        i += 1;
    }
    assert(w@.take(w@.len() as int) == w@);
    out
}

} // verus!
