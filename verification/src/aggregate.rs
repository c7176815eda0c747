//! The decisions of the aggregator that gathers the workers' results: when
//! the warmup ends, which results are counted, and when the run has made
//! the requests it was asked for.
//!
//! The caller runs the loop: it hands each result over, sends the phase
//! `Running` when the warmup ends, and cancels the run when told to stop.
use vstd::prelude::*;

use std::time::Instant;

use crate::clock::{elapsed_us, instant_now};
use crate::stats::{Stats, timeline_after, window_after};
use crate::types::RequestResult;
use crate::ws::{WsMessageResult, WsStats};

verus! {

/// The warmup: results that arrive before it has passed are not counted.
pub struct WarmupGate {
    start_time: Instant,
    warmup_us: u64,
    complete: bool,
}

impl WarmupGate {
    /// Whether the warmup is over.
    pub closed spec fn is_complete(&self) -> bool {
        self.complete
    }

    /// The length of the warmup, in microseconds.
    pub closed spec fn warmup(&self) -> u64 {
        self.warmup_us
    }

    /// Whether a check `elapsed_us` after the start ends the warmup.
    pub open spec fn ends_at(&self, elapsed_us: u64) -> bool {
        !self.is_complete() && elapsed_us >= self.warmup()
    }

    /// A warmup of `warmup_us` from now; none at all when it is zero.
    pub fn new(warmup_us: u64) -> (g: Self)
        ensures
            g.warmup() == warmup_us,
            g.is_complete() == (warmup_us == 0),
    {
        WarmupGate { start_time: instant_now(), warmup_us, complete: warmup_us == 0 }
    }

    /// Whether the warmup is over.
    pub fn complete(&self) -> (b: bool)
        ensures
            b == self.is_complete(),
    {
        self.complete
    }

    /// Ends the warmup when `elapsed_us` has reached its length; true when
    /// it ended just now.
    pub fn check_at(&mut self, elapsed_us: u64) -> (ended: bool)
        ensures
            ended == old(self).ends_at(elapsed_us),
            final(self).is_complete() == (old(self).is_complete() || ended),
            final(self).warmup() == old(self).warmup(),
    {
        if !self.complete && elapsed_us >= self.warmup_us {
            self.complete = true;
            true
        } else {
            false
        }
    }

    /// Ends the warmup when its time has passed; true when it ended just
    /// now. The decision is that of `check_at` for the time the clock
    /// reports since the start.
    pub fn check(&mut self) -> (ended: bool)
        ensures
            exists|t: u64| #![trigger old(self).ends_at(t)] ended == old(self).ends_at(t),
            ended ==> !old(self).is_complete(),
            final(self).is_complete() == (old(self).is_complete() || ended),
            final(self).warmup() == old(self).warmup(),
    {
        let t = elapsed_us(&self.start_time);
        self.check_at(t)
    }
}

/// What the aggregator did with one result.
#[derive(Debug, Clone, Copy, PartialEq, Eq, Structural)]
pub struct ResultStep {
    /// The warmup ended on this result: the statistics were reset, and the
    /// phase is now `Running`.
    pub warmup_ended: bool,
    /// The result was counted.
    pub recorded: bool,
    /// The run has made the requests it was asked for and should stop.
    pub stop: bool,
}

/// The aggregator's state: the statistics, the warmup and the limit on the
/// number of requests (zero for none).
pub struct Aggregator {
    stats: Stats,
    gate: WarmupGate,
    max_requests: u64,
}

impl Aggregator {
    /// The statistics gathered.
    pub closed spec fn stats_view(&self) -> Stats {
        self.stats
    }

    /// The warmup.
    pub closed spec fn gate_view(&self) -> WarmupGate {
        self.gate
    }

    /// The limit on the number of requests, zero for none.
    pub closed spec fn max(&self) -> u64 {
        self.max_requests
    }

    /// An aggregator with a warmup of `warmup_us` and a limit of
    /// `max_requests` (zero for none). Without a warmup the phase is
    /// `Running` from the start.
    pub fn new(warmup_us: u64, max_requests: u64) -> (a: Self)
        ensures
            a.stats_view().is_fresh(),
            a.gate_view().warmup() == warmup_us,
            a.gate_view().is_complete() == (warmup_us == 0),
            a.max() == max_requests,
    {
        Aggregator { stats: Stats::new(), gate: WarmupGate::new(warmup_us), max_requests }
    }

    /// Whether the warmup is over.
    pub fn warmup_complete(&self) -> (b: bool)
        ensures
            b == self.gate_view().is_complete(),
    {
        self.gate.complete()
    }

    /// The statistics gathered.
    pub fn stats(&self) -> (s: &Stats)
        ensures
            *s == self.stats_view(),
    {
        &self.stats
    }

    /// The statistics gathered, at the end of the run.
    pub fn into_stats(self) -> (s: Stats)
        ensures
            s == self.stats_view(),
    {
        self.stats
    }

    /// Ends the warmup when `elapsed_us` has reached its length, and then
    /// forgets what was recorded during it; true when it ended just now.
    pub fn check_warmup_complete_at(&mut self, elapsed_us: u64) -> (ended: bool)
        requires
            old(self).stats_view().wf(),
        ensures
            ended == old(self).gate_view().ends_at(elapsed_us),
            final(self).gate_view().is_complete() == (old(self).gate_view().is_complete() || ended),
            final(self).gate_view().warmup() == old(self).gate_view().warmup(),
            ended ==> final(self).stats_view().is_fresh(),
            !ended ==> final(self).stats_view() == old(self).stats_view(),
            final(self).max() == old(self).max(),
    {
        let ended = self.gate.check_at(elapsed_us);
        if ended {
            self.stats.reset();
        }
        ended
    }

    /// Ends the warmup when its time has passed, and then forgets what was
    /// recorded during it; true when it ended just now.
    pub fn check_warmup_complete(&mut self) -> (ended: bool)
        requires
            old(self).stats_view().wf(),
        ensures
            exists|t: u64| #![trigger old(self).gate_view().ends_at(t)] ended == old(self).gate_view().ends_at(t),
            ended ==> !old(self).gate_view().is_complete(),
            final(self).gate_view().is_complete() == (old(self).gate_view().is_complete() || ended),
            final(self).gate_view().warmup() == old(self).gate_view().warmup(),
            ended ==> final(self).stats_view().is_fresh(),
            !ended ==> final(self).stats_view() == old(self).stats_view(),
            final(self).max() == old(self).max(),
    {
        let ghost before = self.gate;
        let ended = self.gate.check();
        proof {
            let t = choose|t: u64| #![trigger before.ends_at(t)] ended == before.ends_at(t);
            assert(old(self).gate_view() == before);
            assert(ended == old(self).gate_view().ends_at(t));
        }
        if ended {
            self.stats.reset();
        }
        ended
    }

    /// Whether one more `result` fits in every counter.
    pub fn can_record(&self, result: &RequestResult) -> (b: bool)
        requires
            self.stats_view().wf(),
        ensures
            b == self.stats_view().has_room_for(*result),
    {
        self.stats.can_record(result)
    }

    /// Whether the limit on requests has been reached.
    fn limit_reached(&self) -> (b: bool)
        ensures
            b == (self.max() > 0 && self.stats_view().total() >= self.max()),
    {
        self.max_requests > 0 && self.stats.total_requests() >= self.max_requests
    }

    /// Handles one result that arrives `elapsed_us` after the aggregator
    /// started and `stats_us` after the statistics did: the warmup may end
    /// first; after it the result is counted, and the run stops once it
    /// has made `max` requests.
    pub fn on_result_at(&mut self, result: &RequestResult, elapsed_us: u64, stats_us: u64) -> (step:
        ResultStep)
        requires
            old(self).stats_view().wf(),
            old(self).stats_view().has_room_for(*result),
        ensures
            step.warmup_ended == old(self).gate_view().ends_at(elapsed_us),
            final(self).gate_view().is_complete() == (old(self).gate_view().is_complete()
                || step.warmup_ended),
            final(self).gate_view().warmup() == old(self).gate_view().warmup(),
            final(self).max() == old(self).max(),
            step.recorded == final(self).gate_view().is_complete(),
            !step.recorded ==> final(self).stats_view() == old(self).stats_view(),
            step.recorded ==> exists|before: Stats|
                #![trigger final(self).stats_view().counts_one_more(before, *result)]
                {
                    &&& (if step.warmup_ended {
                        before.is_fresh()
                    } else {
                        before == old(self).stats_view()
                    })
                    &&& final(self).stats_view().counts_one_more(before, *result)
                    &&& final(self).stats_view().window() == window_after(
                        before.window().push(stats_us),
                        stats_us,
                    )
                    &&& (final(self).stats_view().timeline_view(), final(self).stats_view().current_second()) == timeline_after(
                        before.timeline_view(),
                        before.current_second(),
                        (stats_us / 1_000_000) as u32,
                    )
                },
            step.stop == (step.recorded && final(self).max() > 0 && final(self).stats_view().total() >= final(self).max()),
    {
        let warmup_ended = self.check_warmup_complete_at(elapsed_us);
        if self.gate.complete() {
            let ghost before = self.stats;
            self.stats.record_at(result, stats_us);
            assert(self.stats.counts_one_more(before, *result));
            let stop = self.limit_reached();
            ResultStep { warmup_ended, recorded: true, stop }
        } else {
            ResultStep { warmup_ended, recorded: false, stop: false }
        }
    }

    /// Handles one result as it arrives: the warmup may end first; after it
    /// the result is counted, and the run stops once it has made `max`
    /// requests.
    pub fn on_result(&mut self, result: &RequestResult) -> (step: ResultStep)
        requires
            old(self).stats_view().wf(),
            old(self).stats_view().has_room_for(*result),
        ensures
            step.warmup_ended ==> !old(self).gate_view().is_complete(),
            final(self).gate_view().is_complete() == (old(self).gate_view().is_complete()
                || step.warmup_ended),
            final(self).gate_view().warmup() == old(self).gate_view().warmup(),
            final(self).max() == old(self).max(),
            step.recorded == final(self).gate_view().is_complete(),
            !step.recorded ==> final(self).stats_view() == old(self).stats_view(),
            step.recorded ==> exists|before: Stats|
                #![trigger final(self).stats_view().counts_one_more(before, *result)]
                {
                    &&& (if step.warmup_ended {
                        before.is_fresh()
                    } else {
                        before == old(self).stats_view()
                    })
                    &&& final(self).stats_view().counts_one_more(before, *result)
                },
            step.stop == (step.recorded && final(self).max() > 0 && final(self).stats_view().total() >= final(self).max()),
    {
        let warmup_ended = self.check_warmup_complete();
        if self.gate.complete() {
            let ghost before = self.stats;
            self.stats.record(result);
            assert(self.stats.counts_one_more(before, *result));
            let stop = self.limit_reached();
            ResultStep { warmup_ended, recorded: true, stop }
        } else {
            ResultStep { warmup_ended, recorded: false, stop: false }
        }
    }
}

/// What the WebSocket aggregator did with one exchange.
#[derive(Debug, Clone, Copy, PartialEq, Eq, Structural)]
pub struct MessageStep {
    /// The warmup ended on this exchange: the statistics were reset, and
    /// the phase is now `Running`.
    pub warmup_ended: bool,
    /// The exchange was counted.
    pub recorded: bool,
}

/// The state of the aggregator of a WebSocket run: the statistics, the
/// warmup and the number of connections the run holds open.
pub struct WsAggregator {
    stats: WsStats,
    gate: WarmupGate,
    connections_active: u32,
}

impl WsAggregator {
    /// The statistics gathered.
    pub closed spec fn stats_view(&self) -> WsStats {
        self.stats
    }

    /// The warmup.
    pub closed spec fn gate_view(&self) -> WarmupGate {
        self.gate
    }

    /// The number of connections the run holds open.
    pub closed spec fn connections(&self) -> u32 {
        self.connections_active
    }

    /// An aggregator with a warmup of `warmup_us`, for a run that holds
    /// `connections_active` connections. Without a warmup the phase is
    /// `Running` from the start.
    pub fn new(warmup_us: u64, connections_active: u32) -> (a: Self)
        ensures
            a.stats_view().is_fresh(),
            a.gate_view().warmup() == warmup_us,
            a.gate_view().is_complete() == (warmup_us == 0),
            a.connections() == connections_active,
    {
        WsAggregator { stats: WsStats::new(), gate: WarmupGate::new(warmup_us), connections_active }
    }

    /// Whether the warmup is over.
    pub fn warmup_complete(&self) -> (b: bool)
        ensures
            b == self.gate_view().is_complete(),
    {
        self.gate.complete()
    }

    /// The number of connections the run holds open.
    pub fn connections_active(&self) -> (n: u32)
        ensures
            n == self.connections(),
    {
        self.connections_active
    }

    /// The statistics gathered.
    pub fn stats(&self) -> (s: &WsStats)
        ensures
            *s == self.stats_view(),
    {
        &self.stats
    }

    /// The statistics gathered, at the end of the run.
    pub fn into_stats(self) -> (s: WsStats)
        ensures
            s == self.stats_view(),
    {
        self.stats
    }

    /// Ends the warmup when `elapsed_us` has reached its length, and then
    /// forgets what was recorded during it; true when it ended just now.
    pub fn check_warmup_complete_at(&mut self, elapsed_us: u64) -> (ended: bool)
        ensures
            ended == old(self).gate_view().ends_at(elapsed_us),
            final(self).gate_view().is_complete() == (old(self).gate_view().is_complete() || ended),
            final(self).gate_view().warmup() == old(self).gate_view().warmup(),
            ended ==> final(self).stats_view().is_fresh(),
            !ended ==> final(self).stats_view() == old(self).stats_view(),
            final(self).connections() == old(self).connections(),
    {
        let ended = self.gate.check_at(elapsed_us);
        if ended {
            self.stats.reset();
        }
        ended
    }

    /// Ends the warmup when its time has passed, and then forgets what was
    /// recorded during it; true when it ended just now.
    pub fn check_warmup_complete(&mut self) -> (ended: bool)
        ensures
            exists|t: u64| #![trigger old(self).gate_view().ends_at(t)] ended == old(self).gate_view().ends_at(t),
            ended ==> !old(self).gate_view().is_complete(),
            final(self).gate_view().is_complete() == (old(self).gate_view().is_complete() || ended),
            final(self).gate_view().warmup() == old(self).gate_view().warmup(),
            ended ==> final(self).stats_view().is_fresh(),
            !ended ==> final(self).stats_view() == old(self).stats_view(),
            final(self).connections() == old(self).connections(),
    {
        let ghost before = self.gate;
        let ended = self.gate.check();
        proof {
            let t = choose|t: u64| #![trigger before.ends_at(t)] ended == before.ends_at(t);
            assert(old(self).gate_view() == before);
            assert(ended == old(self).gate_view().ends_at(t));
        }
        if ended {
            self.stats.reset();
        }
        ended
    }

    /// Whether one more exchange fits in every counter.
    pub fn can_record(&self, result: &WsMessageResult) -> (b: bool)
        requires
            self.stats_view().wf(),
        ensures
            b == self.stats_view().has_room_for(*result),
    {
        self.stats.can_record(result)
    }

    /// Handles one exchange that arrives `elapsed_us` after the aggregator
    /// started and `stats_us` after the statistics did: the warmup may end
    /// first; after it the exchange is counted.
    pub fn on_message_at(&mut self, result: &WsMessageResult, elapsed_us: u64, stats_us: u64) -> (step:
        MessageStep)
        requires
            old(self).stats_view().wf(),
            old(self).stats_view().has_room_for(*result),
        ensures
            step.warmup_ended == old(self).gate_view().ends_at(elapsed_us),
            final(self).gate_view().is_complete() == (old(self).gate_view().is_complete()
                || step.warmup_ended),
            final(self).gate_view().warmup() == old(self).gate_view().warmup(),
            final(self).connections() == old(self).connections(),
            step.recorded == final(self).gate_view().is_complete(),
            !step.recorded ==> final(self).stats_view() == old(self).stats_view(),
            step.recorded ==> exists|before: WsStats|
                #![trigger before.sent()]
                {
                    &&& (if step.warmup_ended {
                        before.is_fresh()
                    } else {
                        before == old(self).stats_view()
                    })
                    &&& final(self).stats_view().counts_message(before, *result)
                    &&& final(self).stats_view().window() == window_after(
                        before.window().push(stats_us),
                        stats_us,
                    )
                },
    {
        let warmup_ended = self.check_warmup_complete_at(elapsed_us);
        if self.gate.complete() {
            let ghost before = self.stats;
            self.stats.record_message_at(result, stats_us);
            assert(self.stats.sent() == before.sent() + 1);
            MessageStep { warmup_ended, recorded: true }
        } else {
            MessageStep { warmup_ended, recorded: false }
        }
    }

    /// Handles one exchange as it arrives: the warmup may end first; after
    /// it the exchange is counted.
    pub fn on_message(&mut self, result: &WsMessageResult) -> (step: MessageStep)
        requires
            old(self).stats_view().wf(),
            old(self).stats_view().has_room_for(*result),
        ensures
            step.warmup_ended ==> !old(self).gate_view().is_complete(),
            final(self).gate_view().is_complete() == (old(self).gate_view().is_complete()
                || step.warmup_ended),
            final(self).gate_view().warmup() == old(self).gate_view().warmup(),
            final(self).connections() == old(self).connections(),
            step.recorded == final(self).gate_view().is_complete(),
            !step.recorded ==> final(self).stats_view() == old(self).stats_view(),
            step.recorded ==> exists|before: WsStats|
                #![trigger before.sent()]
                {
                    &&& (if step.warmup_ended {
                        before.is_fresh()
                    } else {
                        before == old(self).stats_view()
                    })
                    &&& final(self).stats_view().counts_message(before, *result)
                },
    {
        let warmup_ended = self.check_warmup_complete();
        if self.gate.complete() {
            let ghost before = self.stats;
            self.stats.record_message(result);
            assert(self.stats.sent() == before.sent() + 1);
            MessageStep { warmup_ended, recorded: true }
        } else {
            MessageStep { warmup_ended, recorded: false }
        }
    }
}

} // verus!
