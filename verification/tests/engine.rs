use kaioken::aggregate::{Aggregator, WarmupGate, WsAggregator};
use kaioken::check::{evaluate_checks, Check, CheckCondition, CheckTally};
use kaioken::config::{merge_config, RunArgs, Scenario};
use kaioken::engine::{
    capture_body, round_robin, debug_scenario, exit_code, interpolate_headers, interpolate_vars,
    prepare_iteration, request_id, select_scenario,
};
use kaioken::flavor::ThemeMode;
use kaioken::http3::{failed_result, response_result, Http3Response};
use kaioken::scheduler::{
    arrival_interval_ns, current_ramp_rate, stage_tick, RampUpScheduler, RateLimiter,
    SpawnDecision, VuPool,
};
use kaioken::stats::Stats;
use kaioken::types::{ErrorKind, HttpErrorFacts, RequestResult};
use kaioken::ws::{
    class_to_kind, connection_lost, interpolate_message, WsErrorClass, WsErrorKind, WsMessageResult,
    WsStats,
};

fn scenario(name: &str, url: &str, weight: u32) -> Scenario {
    Scenario {
        name: name.to_string(),
        url: url.to_string(),
        method: "GET".to_string(),
        headers: Vec::new(),
        body: None,
        weight,
        extractions: Vec::new(),
        depends_on: None,
        tags: Vec::new(),
    }
}

fn ok(latency_us: u64, status: u16, bytes: u64) -> RequestResult {
    RequestResult::success(latency_us, status, bytes, None)
}

// --- Statistics -----------------------------------------------------------

#[test]
fn stats_count_successes_failures_codes_and_errors() {
    let mut s = Stats::new();
    s.record_at(&ok(1_000, 200, 10), 0);
    s.record_at(&ok(2_000, 404, 5), 100);
    s.record_at(&RequestResult::error(3_000, ErrorKind::Timeout), 200);
    assert_eq!(s.total_requests(), 3);
    assert_eq!(s.successful(), 1);
    assert_eq!(s.failed(), 2);
    assert_eq!(s.bytes_received(), 15);
    assert_eq!(s.status_code_count(200), 1);
    assert_eq!(s.status_code_count(404), 1);
    assert_eq!(s.status_code_count(500), 0);
    assert_eq!(s.error_kind_count(ErrorKind::Timeout), 1);
    assert_eq!(s.error_kind_count(ErrorKind::Dns), 0);
    assert_eq!(s.latency_count(), 3);
    let mut codes: Vec<(u16, u64)> = s.status_codes().iter().map(|(c, n)| (*c, *n)).collect();
    codes.sort();
    assert_eq!(codes, vec![(200u16, 1u64), (404u16, 1u64)]);
}

#[test]
fn stats_timeline_opens_a_bucket_per_second() {
    let mut s = Stats::new();
    s.record_at(&ok(10, 200, 0), 100_000);
    s.record_at(&ok(10, 200, 0), 900_000);
    s.record_at(&ok(10, 200, 0), 1_200_000);
    let tl = s.timeline();
    assert_eq!(tl.len(), 2);
    assert_eq!((tl[0].elapsed_secs, tl[0].requests), (0, 2));
    assert_eq!((tl[1].elapsed_secs, tl[1].requests), (1, 1));
}

#[test]
fn stats_rolling_window_keeps_the_last_second() {
    let mut s = Stats::new();
    s.record_at(&ok(10, 200, 0), 0);
    s.record_at(&ok(10, 200, 0), 500_000);
    assert_eq!(s.rolling_count(), 2);
    s.record_at(&ok(10, 200, 0), 1_200_000);
    assert_eq!(s.rolling_count(), 2);
}

#[test]
fn stats_reset_forgets_everything() {
    let mut s = Stats::new();
    s.record_at(&ok(10, 200, 7), 0);
    s.reset();
    assert_eq!(s.total_requests(), 0);
    assert_eq!(s.bytes_received(), 0);
    assert_eq!(s.status_code_count(200), 0);
    assert_eq!(s.timeline().len(), 0);
    assert_eq!(s.rolling_count(), 0);
    assert_eq!(s.latency_max(), 0);
}

#[test]
fn stats_latency_is_clamped_to_a_minute() {
    let mut s = Stats::new();
    s.record_at(&ok(120_000_000, 200, 0), 0);
    assert!(s.latency_max() >= 60_000_000);
    assert!(s.latency_max() < 61_000_000);
}

// --- Aggregators ----------------------------------------------------------

#[test]
fn aggregator_without_warmup_counts_from_the_start() {
    let mut a = Aggregator::new(0, 0);
    assert!(a.warmup_complete());
    let step = a.on_result_at(&ok(100, 200, 1), 0, 0);
    assert!(!step.warmup_ended);
    assert!(step.recorded);
    assert!(!step.stop);
    assert_eq!(a.stats().total_requests(), 1);
}

#[test]
fn aggregator_drops_results_during_warmup_and_resets_when_it_ends() {
    let mut a = Aggregator::new(1_000_000, 0);
    let s1 = a.on_result_at(&ok(100, 200, 1), 500_000, 500_000);
    assert!(!s1.recorded && !s1.warmup_ended);
    assert_eq!(a.stats().total_requests(), 0);
    let s2 = a.on_result_at(&ok(100, 500, 1), 1_000_000, 0);
    assert!(s2.warmup_ended && s2.recorded);
    assert_eq!(a.stats().total_requests(), 1);
    assert_eq!(a.stats().failed(), 1);
    let s3 = a.on_result_at(&ok(100, 200, 1), 1_500_000, 10);
    assert!(!s3.warmup_ended && s3.recorded);
    assert_eq!(a.into_stats().total_requests(), 2);
}

#[test]
fn aggregator_stops_at_max_requests() {
    let mut a = Aggregator::new(0, 2);
    assert!(!a.on_result_at(&ok(1, 200, 0), 0, 0).stop);
    assert!(a.on_result_at(&ok(1, 200, 0), 1, 1).stop);
}

#[test]
fn warmup_gate_opens_once() {
    let mut g = WarmupGate::new(100);
    assert!(!g.complete());
    assert!(!g.check_at(99));
    assert!(g.check_at(100));
    assert!(!g.check_at(200));
    assert!(g.complete());
}

#[test]
fn ws_aggregator_counts_after_warmup() {
    let mut a = WsAggregator::new(10, 4);
    assert_eq!(a.connections_active(), 4);
    let r = WsMessageResult::success(50, 3, 3);
    assert!(!a.on_message_at(&r, 5, 5).recorded);
    let step = a.on_message_at(&r, 10, 0);
    assert!(step.warmup_ended && step.recorded);
    assert_eq!(a.stats().total_messages_sent(), 1);
}

// --- WebSocket statistics --------------------------------------------------

#[test]
fn ws_stats_count_messages_connections_and_errors() {
    let mut s = WsStats::new();
    let mut first = WsMessageResult::success(1_000, 10, 10);
    first.connect_time_us = Some(2_000);
    s.record_message_at(&first, 0);
    s.record_message_at(&WsMessageResult::success(500, 4, 0), 10);
    s.record_message_at(&WsMessageResult::error(WsErrorKind::ConnectionClosed), 20);
    s.record_message_at(&WsMessageResult::error(WsErrorKind::HandshakeFailed), 30);
    assert_eq!(s.total_messages_sent(), 4);
    assert_eq!(s.total_messages_received(), 1);
    assert_eq!(s.total_bytes_sent(), 14);
    assert_eq!(s.total_bytes_received(), 10);
    assert_eq!(s.connections_established(), 1);
    assert_eq!(s.disconnects(), 1);
    assert_eq!(s.connection_errors(), 1);
    assert_eq!(s.error_kind_count(WsErrorKind::ConnectionClosed), 1);
    assert_eq!(s.error_kind_count(WsErrorKind::HandshakeFailed), 1);
    assert_eq!(s.error_kind_count(WsErrorKind::Timeout), 0);
    s.record_connection_error(WsErrorKind::Tls);
    assert_eq!(s.connection_errors(), 2);
    s.reset();
    assert_eq!(s.total_messages_sent(), 0);
    assert_eq!(s.connection_errors(), 0);
}

#[test]
fn ws_error_classes_map_to_kinds() {
    assert_eq!(class_to_kind(WsErrorClass::Closed, None), WsErrorKind::ConnectionClosed);
    assert_eq!(class_to_kind(WsErrorClass::Io, Some("Connection refused (os error 111)")), WsErrorKind::ConnectFailed);
    assert_eq!(class_to_kind(WsErrorClass::Io, Some("invalid peer Certificate")), WsErrorKind::Tls);
    assert_eq!(class_to_kind(WsErrorClass::Io, Some("connection refused by TLS proxy")), WsErrorKind::ConnectFailed);
    assert_eq!(class_to_kind(WsErrorClass::Io, None), WsErrorKind::ConnectFailed);
    assert_eq!(class_to_kind(WsErrorClass::Handshake, None), WsErrorKind::HandshakeFailed);
    assert_eq!(class_to_kind(WsErrorClass::Protocol, None), WsErrorKind::ProtocolError);
    assert_eq!(class_to_kind(WsErrorClass::Url, None), WsErrorKind::ConnectFailed);
    assert_eq!(class_to_kind(WsErrorClass::Other, None), WsErrorKind::Other);
    assert_eq!(WsErrorKind::SendFailed.as_str(), "send_failed");
}

#[test]
fn http_errors_are_classified_by_kind_and_text() {
    let f = |timeout: bool, connect: bool, request: bool, body: bool, message: &str| HttpErrorFacts {
        timeout,
        connect,
        request,
        body,
        message: message.to_string(),
    };
    assert_eq!(ErrorKind::classify(&f(true, true, false, false, "dns")), ErrorKind::Timeout);
    assert_eq!(ErrorKind::classify(&f(false, true, false, false, "failed to resolve host")), ErrorKind::Dns);
    assert_eq!(ErrorKind::classify(&f(false, true, false, false, "connection refused")), ErrorKind::Refused);
    assert_eq!(ErrorKind::classify(&f(false, true, false, false, "connection reset by peer")), ErrorKind::Reset);
    assert_eq!(ErrorKind::classify(&f(false, true, false, false, "unreachable")), ErrorKind::Connect);
    assert_eq!(ErrorKind::classify(&f(false, false, true, false, "")), ErrorKind::Http);
    assert_eq!(ErrorKind::classify(&f(false, false, false, true, "")), ErrorKind::Body);
    assert_eq!(ErrorKind::classify(&f(false, false, false, false, "invalid certificate")), ErrorKind::Tls);
    assert_eq!(ErrorKind::classify(&f(false, false, false, false, "oops")), ErrorKind::Other);
}

// --- Checks ----------------------------------------------------------------

#[test]
fn checks_are_evaluated_in_order() {
    let checks = vec![
        Check { name: "ok".to_string(), condition: CheckCondition::StatusEquals(200) },
        Check { name: "has_id".to_string(), condition: CheckCondition::BodyContains("\"id\"".to_string()) },
        Check { name: "fast_fail".to_string(), condition: CheckCondition::StatusLt(300) },
    ];
    let out = evaluate_checks(&checks, Some(200), Some("{\"id\": 1}"));
    let got: Vec<(String, bool)> = out.into_iter().map(|r| (r.name, r.passed)).collect();
    assert_eq!(
        got,
        vec![("ok".to_string(), true), ("has_id".to_string(), true), ("fast_fail".to_string(), true)]
    );
    let out = evaluate_checks(&checks, None, None);
    assert!(out.iter().all(|r| !r.passed));
}

#[test]
fn check_tally_counts_passes_per_name() {
    let mut t = CheckTally::new();
    assert!(t.is_empty());
    t.record("status_ok", true);
    t.record("has_body", false);
    t.record("status_ok", false);
    t.record("status_ok", true);
    assert_eq!(t.get("status_ok"), Some((2, 3)));
    assert_eq!(t.get("has_body"), Some((0, 1)));
    assert_eq!(t.get("missing"), None);
    let names: Vec<&str> = t.entries().iter().map(|e| e.0.as_str()).collect();
    assert_eq!(names, vec!["status_ok", "has_body"]);
}

// --- Iterations ------------------------------------------------------------

#[test]
fn scenarios_are_chosen_by_weight() {
    let s = vec![scenario("a", "https://a", 7), scenario("b", "https://b", 3)];
    let picks: Vec<usize> = (0..10).map(|i| select_scenario(&s, i)).collect();
    assert_eq!(picks, vec![0, 0, 0, 0, 0, 0, 0, 1, 1, 1]);
    assert_eq!(select_scenario(&s, 17), 1);
    let zero = vec![scenario("a", "https://a", 0), scenario("b", "https://b", 0)];
    assert_eq!(select_scenario(&zero, 5), 0);
}

#[test]
fn variables_are_filled_in() {
    assert_eq!(
        interpolate_vars("/item/${REQUEST_ID}?t=${TIMESTAMP_MS}", 42, 1700000000000),
        "/item/42?t=1700000000000"
    );
    assert_eq!(interpolate_vars("plain", 1, 2), "plain");
    assert_eq!(request_id(3, 7), 3_000_000_007);
    let h = interpolate_headers(&[("X-Id".to_string(), "req-${REQUEST_ID}".to_string())], 9, 0);
    assert_eq!(h, vec![("X-Id".to_string(), "req-9".to_string())]);
}

#[test]
fn iteration_request_comes_from_the_chosen_scenario() {
    let mut c = merge_config(
        &RunArgs { url: Some("https://base/${REQUEST_ID}".to_string()), ..RunArgs::default() },
        None,
        &[], &[],
    )
    .unwrap();
    let r = prepare_iteration(5, 100, &c, &[]);
    assert_eq!(r.url, "https://base/5");
    assert_eq!(r.method, "GET");
    assert!(!r.capture_body);
    c.scenarios = vec![scenario("a", "https://a/${REQUEST_ID}", 1), scenario("b", "https://b", 1)];
    let r = prepare_iteration(2, 100, &c, &[]);
    assert_eq!(r.url, "https://a/2");
    let r = prepare_iteration(3, 100, &c, &[]);
    assert_eq!(r.url, "https://b");
    assert_eq!(debug_scenario(&c).map(|s| s.name.as_str()), Some("a"));
    let checks = vec![Check { name: "b".to_string(), condition: CheckCondition::BodyNotContains("x".to_string()) }];
    assert!(capture_body(&c.scenarios, &checks));
}

#[test]
fn exit_code_reflects_thresholds_and_errors() {
    assert_eq!(exit_code(true, false, 0, 10), 0);
    assert_eq!(exit_code(false, false, 0, 10), 4);
    assert_eq!(exit_code(true, true, 0, 10), 4);
    assert_eq!(exit_code(true, false, 6, 10), 1);
    assert_eq!(exit_code(true, false, 5, 10), 0);
    assert_eq!(exit_code(true, false, 0, 0), 0);
}

// --- Schedulers --------------------------------------------------------------

#[test]
fn rate_limiter_hands_out_one_second_of_tokens() {
    let mut r = RateLimiter::new(2);
    assert!(r.try_acquire());
    assert!(r.try_acquire());
    assert!(!r.try_acquire());
    assert!(r.refill());
    assert!(r.refill());
    assert!(!r.refill());
    assert_eq!(r.refill_interval_us(), 500_000);
}

#[test]
fn ramp_up_activates_workers_over_time() {
    let r = RampUpScheduler::new(10, 10_000_000);
    assert_eq!(r.initial_permits(), 1);
    assert_eq!(r.interval_us(), 1_000_000);
    assert_eq!(r.current_active(0), 1);
    assert_eq!(r.current_active(5_000_000), 5);
    assert_eq!(r.current_active(20_000_000), 10);
    let now = RampUpScheduler::new(10, 0);
    assert_eq!(now.initial_permits(), 10);
}

#[test]
fn stage_ticks_move_one_worker_up_or_straight_down() {
    assert_eq!(stage_tick(3, 5), (4, true));
    assert_eq!(stage_tick(5, 5), (5, false));
    assert_eq!(stage_tick(9, 2), (2, false));
}

#[test]
fn vu_pool_spawns_grows_then_drops() {
    let mut p = VuPool::new(1, 2);
    assert_eq!(p.allocated(), 1);
    assert_eq!(p.on_due(true), SpawnDecision::Spawn);
    assert!(matches!(p.on_due(false), SpawnDecision::Grow(1)));
    assert_eq!(p.allocated(), 2);
    assert_eq!(p.on_due(false), SpawnDecision::Drop);
}

#[test]
fn ramp_rate_moves_linearly_between_stages() {
    assert_eq!(current_ramp_rate(100, 200, 0, 10_000_000), 100);
    assert_eq!(current_ramp_rate(100, 200, 5_000_000, 10_000_000), 150);
    assert_eq!(current_ramp_rate(100, 200, 20_000_000, 10_000_000), 200);
    assert_eq!(arrival_interval_ns(4), 250_000_000);
}

#[test]
fn theme_cycle_returns_after_six_steps() {
    let mut m = ThemeMode::Earth;
    for _ in 0..6 {
        m = m.cycle();
    }
    assert_eq!(m, ThemeMode::Earth);
    assert_eq!(ThemeMode::Vegeta.name(), "Planet Vegeta");
}

#[test]
fn url_list_and_body_lines_are_taken_in_turn() {
    let mut c = merge_config(&RunArgs { url: Some("https://base".to_string()), ..RunArgs::default() }, None, &[], &[]).unwrap();
    c.url_list = Some(vec!["https://a/${REQUEST_ID}".to_string(), "https://b".to_string()]);
    c.body_lines = Some(vec!["{\"n\":1}".to_string(), "{\"n\":2}".to_string(), "{\"n\":3}".to_string()]);
    let urls: Vec<String> = (0..4).map(|i| prepare_iteration(i, 0, &c, &[]).url).collect();
    assert_eq!(urls, vec!["https://a/0", "https://b", "https://a/2", "https://b"]);
    let bodies: Vec<Option<String>> = (0..4).map(|i| prepare_iteration(i, 0, &c, &[]).body).collect();
    assert_eq!(bodies[0].as_deref(), Some("{\"n\":1}"));
    assert_eq!(bodies[3].as_deref(), Some("{\"n\":1}"));
    let list = vec!["x".to_string(), "y".to_string()];
    assert_eq!(round_robin(&list, 7), "y");
}

#[test]
fn outcomes_partition_the_requests() {
    let mut s = Stats::new();
    for (i, status) in [200u16, 302, 404, 500, 201].iter().enumerate() {
        s.record_at(&ok(10, *status, 0), i as u64);
    }
    s.record_at(&RequestResult::error(10, ErrorKind::Reset), 9);
    assert_eq!(s.successful() + s.failed(), s.total_requests());
    assert_eq!((s.successful(), s.failed()), (3, 3));
}

#[test]
fn ws_messages_are_filled_in_and_losses_detected() {
    assert_eq!(interpolate_message("msg ${MESSAGE_ID} at ${TIMESTAMP_MS}", 3, 1000), "msg 3 at 1000");
    assert!(connection_lost(Some(WsErrorKind::ConnectionClosed)));
    assert!(connection_lost(Some(WsErrorKind::SendFailed)));
    assert!(!connection_lost(Some(WsErrorKind::Timeout)));
    assert!(!connection_lost(None));
    let r = WsMessageResult::success(5, 1, 1).with_connect_time(77);
    assert_eq!(r.connect_time_us, Some(77));
    let mut s = WsStats::new();
    s.record_message_at(&r, 0);
    assert!(s.total_messages_received() <= s.total_messages_sent());
    assert_eq!(s.connections_established(), 1);
}

#[test]
fn checks_never_pass_more_than_they_run() {
    let mut t = CheckTally::new();
    for i in 0..10 {
        t.record("c", i % 3 == 0);
    }
    let (p, n) = t.get("c").unwrap();
    assert!(p <= n);
    assert_eq!((p, n), (4, 10));
}

#[test]
fn http3_outcomes_count_like_responses() {
    let r = response_result(&Http3Response { status: 201, body: vec![b'h', b'i', 0xff], latency_us: 40 });
    assert_eq!(r.status, Some(201));
    assert_eq!(r.bytes_received, 3);
    assert_eq!(r.latency_us, 40);
    assert_eq!(r.body.as_deref(), Some("hi\u{FFFD}"));
    let t = failed_result(9, true);
    assert_eq!((t.status, t.error), (None, Some(ErrorKind::Timeout)));
    let o = failed_result(9, false);
    assert_eq!(o.error, Some(ErrorKind::Other));
}

#[test]
fn results_are_a_success_or_an_error() {
    let ok = RequestResult::success(1, 204, 0, None);
    assert!(ok.is_success() && !ok.is_error());
    let not_found = RequestResult::success(1, 404, 0, None);
    assert!(!not_found.is_success() && not_found.is_error());
    let failed = RequestResult::error(1, ErrorKind::Dns);
    assert!(!failed.is_success() && failed.is_error());
}

#[test]
fn latency_min_is_exact_below_2048_and_rounded_down_above() {
    let mut s = Stats::new();
    s.record_at(&ok(2_047, 200, 1), 0);
    assert_eq!(s.latency_min(), 2_047);
    let mut s = Stats::new();
    s.record_at(&ok(123_457, 200, 1), 0);
    s.record_at(&ok(200_000, 200, 1), 0);
    assert_eq!(s.latency_min(), 123_456);
    assert_eq!(Stats::new().latency_min(), 0);
}

#[test]
fn every_window_of_total_weight_runs_each_scenario_by_its_weight() {
    let s = vec![scenario("a", "https://a", 7), scenario("b", "https://b", 2), scenario("c", "https://c", 1), scenario("d", "https://d", 0)];
    for start in [0u64, 3, 9, 123_456, u64::MAX - 9] {
        let mut counts = [0u32; 4];
        for id in start..=start + 9 {
            counts[select_scenario(&s, id)] += 1;
        }
        assert_eq!(counts, [7, 2, 1, 0], "window from {}", start);
    }
}

#[test]
fn recording_a_sequence_counts_every_result() {
    let rs = vec![
        ok(1_000, 200, 10),
        ok(2_000, 404, 5),
        RequestResult::error(3_000, ErrorKind::Timeout),
        ok(4_000, 200, 7),
        RequestResult::error(70_000_000, ErrorKind::Connect),
    ];
    let mut s = Stats::new();
    for (i, r) in rs.iter().enumerate() {
        s.record_at(r, i as u64 * 600_000);
    }
    assert_eq!(s.total_requests(), 5);
    assert_eq!(s.successful() + s.failed(), 5);
    assert_eq!(s.bytes_received(), 22);
    assert_eq!(s.status_code_count(200), 2);
    assert_eq!(s.status_code_count(404), 1);
    assert_eq!(s.error_kind_count(ErrorKind::Timeout), 1);
    assert_eq!(s.error_kind_count(ErrorKind::Connect), 1);
    assert_eq!(s.latency_count(), 5);
    assert_eq!(s.timeline().iter().map(|b| b.requests).sum::<u64>(), 5);
}

#[test]
fn timed_results_record_queue_time_and_corrected_latency() {
    let r = ok(5_000, 200, 10).with_timing(1_000_000, 1_003_000);
    assert_eq!(r.queue_time_us, Some(3_000));
    assert_eq!(r.scheduled_at_us, Some(1_000_000));
    assert_eq!(r.started_at_us, Some(1_003_000));
    assert_eq!(r.latency_us, 8_000);
    assert_eq!(r.corrected_latency_us(), 5_000);
    assert_eq!(ok(5_000, 200, 10).with_timing(10, 5).queue_time_us, Some(0));
    assert_eq!(ok(5_000, 200, 10).corrected_latency_us(), 5_000);

    let mut s = Stats::new();
    assert!(!s.has_corrected_latency());
    s.record_at(&ok(1_000, 200, 1), 0);
    assert!(!s.has_corrected_latency());
    s.record_at(&r, 0);
    assert!(s.has_corrected_latency());
    assert_eq!(s.total_queue_time_us(), 3_000);
    assert_eq!(s.corrected_latency_min(), 5_000);
    assert_eq!(s.latency_count(), 2);
}

#[test]
fn sec_headers_are_all_filtered() {
    let hs = vec![
        kaioken::har::HarHeader { name: "Sec-GPC".to_string(), value: "1".to_string() },
        kaioken::har::HarHeader { name: "sec-ch-ua-arch".to_string(), value: "x86".to_string() },
        kaioken::har::HarHeader { name: "X-Custom".to_string(), value: "v".to_string() },
    ];
    assert_eq!(kaioken::har::filter_headers(&hs), vec![("X-Custom".to_string(), "v".to_string())]);
}

#[test]
fn arrival_runs_go_on_while_time_is_left() {
    assert!(kaioken::engine::arrival_continues(0, 10, false));
    assert!(!kaioken::engine::arrival_continues(10, 10, false));
    assert!(!kaioken::engine::arrival_continues(0, 10, true));
}

#[test]
fn latency_max_is_exact_below_2048_and_rounded_up_above() {
    let mut s = Stats::new();
    s.record_at(&ok(2_047, 200, 1), 0);
    assert_eq!(s.latency_max(), 2_047);
    let mut s = Stats::new();
    s.record_at(&ok(100, 200, 1), 0);
    s.record_at(&ok(123_457, 200, 1), 0);
    assert_eq!(s.latency_max(), 123_519);
    assert_eq!(Stats::new().latency_max(), 0);
}

#[test]
fn a_zero_arrival_rate_starts_nothing() {
    assert_eq!(kaioken::scheduler::arrival_interval(0), None);
    assert_eq!(kaioken::scheduler::arrival_interval(4), Some(250_000_000));
}
