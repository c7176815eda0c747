use kaioken::check::CheckCondition;
use kaioken::config::{
    interpolate_env_vars, merge_config, parse_basic_auth, parse_connect_to, placeholder_names,
    process_stages, CheckConfig, RunArgs, ScenarioConfig, StageConfig, TomlConfig, WsMode,
};

fn args(url: &str) -> RunArgs {
    RunArgs { url: Some(url.to_string()), ..RunArgs::default() }
}

fn err_of(r: Result<kaioken::config::LoadConfig, String>) -> String {
    match r {
        Ok(_) => panic!("the configuration was accepted"),
        Err(e) => e,
    }
}

fn with_target(url: &str) -> TomlConfig {
    let mut t = TomlConfig::default();
    t.target.url = Some(url.to_string());
    t
}

fn scenario(name: &str, url: &str, method: &str, weight: u32, body: Option<&str>) -> ScenarioConfig {
    ScenarioConfig {
        name: Some(name.to_string()),
        url: url.to_string(),
        method: method.to_string(),
        headers: Vec::new(),
        body: body.map(|b| b.to_string()),
        body_file: None,
        weight,
        extract: Vec::new(),
        depends_on: None,
        tags: Vec::new(),
    }
}

fn stage(secs: u64, target: Option<u32>, target_rate: Option<u32>) -> StageConfig {
    StageConfig { duration_us: secs * 1_000_000, target, target_rate }
}

#[test]
fn run_without_url_fails() {
    let e = err_of(merge_config(&RunArgs::default(), None, &[], &[]));
    assert!(e.contains("required"));
}

#[test]
fn connect_to_flag_validates() {
    let a = RunArgs {
        connect_to: Some("example.com:127.0.0.1:8080".to_string()),
        dry_run: true,
        ..args("https://example.com")
    };
    let c = merge_config(&a, None, &[], &[]).unwrap();
    assert_eq!(
        c.connect_to,
        Some(("example.com".to_string(), "127.0.0.1:8080".to_string()))
    );
}

#[test]
fn connect_to_invalid_format_fails() {
    let a = RunArgs { connect_to: Some("invalid".to_string()), dry_run: true, ..args("https://example.com") };
    let e = err_of(merge_config(&a, None, &[], &[]));
    assert!(e.contains("Invalid connect-to format"));
}

#[test]
fn burst_mode_requires_both_flags() {
    let a = RunArgs { burst_rate: Some(100), dry_run: true, ..args("https://example.com") };
    let e = err_of(merge_config(&a, None, &[], &[]));
    assert!(e.contains("burst-delay"));
}

#[test]
fn burst_mode_validates() {
    let a = RunArgs {
        burst_rate: Some(100),
        burst_delay_us: Some(1_000_000),
        dry_run: true,
        ..args("https://example.com")
    };
    let c = merge_config(&a, None, &[], &[]).unwrap();
    let b = c.burst_config.unwrap();
    assert_eq!(b.requests_per_burst, 100);
    assert_eq!(b.delay_between_bursts_us, 1_000_000);
}

#[test]
fn grpc_service_requires_method() {
    let a = RunArgs { grpc_service: Some("hello.Greeter".to_string()), yes: true, dry_run: true, ..args("https://localhost:50051") };
    let e = err_of(merge_config(&a, None, &[], &[]));
    assert!(e.contains("Both --grpc-service and --grpc-method must be provided together"));
}

#[test]
fn grpc_method_requires_service() {
    let a = RunArgs { grpc_method: Some("SayHello".to_string()), yes: true, dry_run: true, ..args("https://localhost:50051") };
    let e = err_of(merge_config(&a, None, &[], &[]));
    assert!(e.contains("Both --grpc-service and --grpc-method must be provided together"));
}

#[test]
fn grpc_empty_service_rejected() {
    let a = RunArgs {
        grpc_service: Some(String::new()),
        grpc_method: Some("SayHello".to_string()),
        yes: true,
        dry_run: true,
        ..args("https://localhost:50051")
    };
    let e = err_of(merge_config(&a, None, &[], &[]));
    assert!(e.contains("must be provided together"));
}

#[test]
fn grpc_insecure_rejected() {
    let a = RunArgs {
        grpc_service: Some("hello.Greeter".to_string()),
        grpc_method: Some("SayHello".to_string()),
        insecure: true,
        yes: true,
        dry_run: true,
        ..args("https://localhost:50051")
    };
    let e = err_of(merge_config(&a, None, &[], &[]));
    assert!(e.contains("--insecure is not supported for gRPC"));
}

#[test]
fn grpc_valid_config_passes() {
    let a = RunArgs {
        grpc_service: Some("hello.Greeter".to_string()),
        grpc_method: Some("SayHello".to_string()),
        yes: true,
        dry_run: true,
        ..args("https://localhost:50051")
    };
    let c = merge_config(&a, None, &[], &[]).unwrap();
    assert_eq!(c.grpc_service.as_deref(), Some("hello.Greeter"));
    assert_eq!(c.grpc_method.as_deref(), Some("SayHello"));
}

#[test]
fn http3_requires_https() {
    let a = RunArgs { http3: true, yes: true, dry_run: true, ..args("http://localhost:8080") };
    let e = err_of(merge_config(&a, None, &[], &[]));
    assert!(e.contains("HTTP/3 requires HTTPS"));
}

#[test]
fn http3_with_https_passes() {
    let a = RunArgs { http3: true, yes: true, dry_run: true, ..args("https://localhost:8080") };
    let c = merge_config(&a, None, &[], &[]).unwrap();
    assert!(c.http3);
}

#[test]
fn http3_and_grpc_conflict() {
    let a = RunArgs {
        http3: true,
        grpc_service: Some("hello.Greeter".to_string()),
        grpc_method: Some("SayHello".to_string()),
        yes: true,
        dry_run: true,
        ..args("https://localhost:8080")
    };
    let e = err_of(merge_config(&a, None, &[], &[]));
    assert!(e.contains("Cannot use --http3 with --grpc-service"));
}

#[test]
fn rand_regex_url_provides_url() {
    let a = RunArgs {
        rand_regex_url: Some("https://example\\.com/[0-9]+".to_string()),
        dry_run: true,
        ..RunArgs::default()
    };
    let c = merge_config(&a, None, &[], &[]).unwrap();
    assert_eq!(c.rand_regex_url.as_deref(), Some("https://example\\.com/[0-9]+"));
}

#[test]
fn minimal_config_validates() {
    let mut t = with_target("https://example.com/api");
    t.load.concurrency = Some(10);
    t.load.duration_us = Some(5_000_000);
    let c = merge_config(&RunArgs::default(), Some(t), &[], &[]).unwrap();
    assert_eq!(c.url, "https://example.com/api");
    assert_eq!(c.method, "GET");
}

#[test]
fn vu_based_stages_validate() {
    let mut t = with_target("https://example.com/api");
    t.stages = vec![stage(30, Some(50), None), stage(120, Some(50), None), stage(30, Some(0), None)];
    let c = merge_config(&RunArgs::default(), Some(t), &[], &[]).unwrap();
    assert_eq!(c.stages.len(), 3);
    assert_eq!(c.stages[1].target, Some(50));
}

#[test]
fn rate_based_stages_validate() {
    let mut t = with_target("https://example.com/api");
    t.load.max_vus = Some(200);
    t.stages = vec![stage(60, None, Some(100)), stage(300, None, Some(500)), stage(60, None, Some(0))];
    let c = merge_config(&RunArgs::default(), Some(t), &[], &[]).unwrap();
    assert_eq!(c.stages.len(), 3);
    assert_eq!(c.stages[1].target_rate, Some(500));
}

#[test]
fn mixed_stages_fail_validation() {
    let mut t = with_target("https://example.com/api");
    t.stages = vec![stage(30, Some(50), None), stage(30, None, Some(100))];
    let e = err_of(merge_config(&RunArgs::default(), Some(t), &[], &[]));
    assert!(e.contains("Cannot mix"));
}

#[test]
fn weighted_scenarios_validate() {
    let mut t = with_target("https://example.com/api");
    t.load.concurrency = Some(10);
    t.load.duration_us = Some(10_000_000);
    t.scenarios = vec![
        scenario("get_users", "https://example.com/users", "GET", 7, None),
        scenario("create_user", "https://example.com/users", "POST", 3, Some("{\"name\": \"test\"}")),
    ];
    let c = merge_config(&RunArgs::default(), Some(t), &[], &[]).unwrap();
    assert_eq!(c.scenarios.len(), 2);
    assert_eq!(c.scenarios[0].name, "get_users");
    assert_eq!(c.scenarios[0].weight, 7);
    assert_eq!(c.scenarios[1].method, "POST");
    assert_eq!(c.scenarios[1].body.as_deref(), Some("{\"name\": \"test\"}"));
}

#[test]
fn arrival_rate_config_validates() {
    let mut t = with_target("https://example.com/api");
    t.load.arrival_rate = Some(100);
    t.load.max_vus = Some(200);
    t.load.duration_us = Some(300_000_000);
    let c = merge_config(&RunArgs::default(), Some(t), &[], &[]).unwrap();
    assert_eq!(c.arrival_rate, Some(100));
    assert_eq!(c.max_vus, Some(200));
}

#[test]
fn arrival_rate_conflicts_with_concurrency() {
    let mut t = with_target("https://example.com/api");
    t.load.concurrency = Some(50);
    t.load.arrival_rate = Some(100);
    t.load.duration_us = Some(300_000_000);
    let c = merge_config(&RunArgs::default(), Some(t), &[], &[]).unwrap();
    assert_eq!(c.arrival_rate, Some(100));
}

#[test]
fn status_checks_validate() {
    let mut t = with_target("https://example.com/api");
    t.checks = vec![
        CheckConfig { name: "status_ok".to_string(), condition: "status == 200".to_string() },
        CheckConfig { name: "status_2xx".to_string(), condition: "status in [200, 201, 204]".to_string() },
    ];
    let c = merge_config(&RunArgs::default(), Some(t), &[], &[]).unwrap();
    assert_eq!(c.checks.len(), 2);
    assert!(matches!(c.checks[0].condition, CheckCondition::StatusEquals(200)));
    match &c.checks[1].condition {
        CheckCondition::StatusIn(codes) => assert_eq!(codes, &vec![200, 201, 204]),
        _ => panic!("expected a status list"),
    }
}

#[test]
fn websocket_fire_and_forget_mode_validates() {
    let mut t = with_target("wss://echo.example.com/ws");
    t.websocket.mode = Some("fire_and_forget".to_string());
    t.websocket.message_interval_us = Some(50_000);
    let c = merge_config(&RunArgs::default(), Some(t), &[], &[]).unwrap();
    assert_eq!(c.ws_mode, WsMode::FireAndForget);
    assert_eq!(c.ws_message_interval_us, 50_000);
}

#[test]
fn cli_url_overrides_file_url() {
    let t = with_target("https://file.example.com");
    let c = merge_config(&args("https://cli.example.com"), Some(t), &[], &[]).unwrap();
    assert_eq!(c.url, "https://cli.example.com");
}

#[test]
fn env_var_with_default_validates() {
    let content = "[target]\nurl = \"${API_URL:-https://example.com}\"\n";
    let names = placeholder_names(content);
    assert_eq!(names, vec!["API_URL".to_string()]);
    let out = interpolate_env_vars(content, &[("API_URL".to_string(), None)]).unwrap();
    assert_eq!(out, "[target]\nurl = \"https://example.com\"\n");
    let set = interpolate_env_vars(content, &[("API_URL".to_string(), Some("https://prod.example.com".to_string()))]).unwrap();
    assert_eq!(set, "[target]\nurl = \"https://prod.example.com\"\n");
}

#[test]
fn env_var_without_default_must_be_set() {
    let e = interpolate_env_vars("url = \"${MISSING_VAR}\"", &[("MISSING_VAR".to_string(), None)]).unwrap_err();
    assert!(e.contains("MISSING_VAR"));
}

#[test]
fn stages_keep_order_and_targets() {
    let s = process_stages(&[stage(10, Some(5), None), stage(20, Some(0), None)]).unwrap();
    assert_eq!(s.len(), 2);
    assert_eq!(s[0].duration_us, 10_000_000);
    assert_eq!(s[0].target, Some(5));
    assert_eq!(s[1].target, Some(0));
}

#[test]
fn connect_to_splits_host_and_address() {
    assert_eq!(
        parse_connect_to("api.example.com:10.0.0.1:443").unwrap(),
        ("api.example.com".to_string(), "10.0.0.1:443".to_string())
    );
    assert!(parse_connect_to("nohost").is_err());
}

#[test]
fn basic_auth_splits_user_and_password() {
    assert_eq!(parse_basic_auth("user:pass").unwrap(), ("user".to_string(), Some("pass".to_string())));
    assert_eq!(parse_basic_auth("user").unwrap(), ("user".to_string(), None));
    assert_eq!(parse_basic_auth(":pass").unwrap_err(), "Basic auth username cannot be empty");
}

#[test]
fn parse_headers_rejects_missing_colon() {
    let a = RunArgs { headers: vec!["X-Good: yes".to_string(), "bad".to_string()], ..args("https://example.com") };
    let e = a.parse_headers().unwrap_err();
    assert!(e.starts_with("Invalid header format: "));
    let ok = RunArgs { headers: vec!["X-Good: yes".to_string()], ..args("https://example.com") };
    assert_eq!(ok.parse_headers().unwrap(), vec![("X-Good".to_string(), "yes".to_string())]);
}

#[test]
fn empty_file_is_like_no_file() {
    let a = args("https://example.com");
    let none = merge_config(&a, None, &[], &[]).unwrap();
    let empty = merge_config(&a, Some(TomlConfig::default()), &[], &[]).unwrap();
    assert_eq!(none.url, empty.url);
    assert_eq!(none.method, empty.method);
    assert_eq!(none.concurrency, empty.concurrency);
    assert_eq!(none.duration_us, empty.duration_us);
    assert_eq!(none.timeout_us, empty.timeout_us);
    assert_eq!(none.follow_redirects, empty.follow_redirects);
    assert_eq!(none.scenarios.len(), empty.scenarios.len());
}

#[test]
fn ws_message_interval_flag_accepted() {
    let a = RunArgs { ws_message_interval_us: 50_000, dry_run: true, yes: true, ..args("ws://localhost:8080/ws") };
    let c = merge_config(&a, None, &[], &[]).unwrap();
    assert_eq!(c.ws_message_interval_us, 50_000);
}

#[test]
fn ws_fire_and_forget_flag_accepted() {
    let a = RunArgs { ws_fire_and_forget: true, dry_run: true, yes: true, ..args("ws://localhost:8080/ws") };
    let c = merge_config(&a, None, &[], &[]).unwrap();
    assert_eq!(c.ws_mode, WsMode::FireAndForget);
}

#[test]
fn ws_combined_flags_accepted() {
    let a = RunArgs {
        ws_message_interval_us: 10_000,
        ws_fire_and_forget: true,
        concurrency: 20,
        duration_us: 30_000_000,
        dry_run: true,
        yes: true,
        ..args("ws://localhost:8080/events")
    };
    let c = merge_config(&a, None, &[], &[]).unwrap();
    assert_eq!(c.ws_message_interval_us, 10_000);
    assert_eq!(c.ws_mode, WsMode::FireAndForget);
    assert_eq!(c.concurrency, 20);
    assert_eq!(c.duration_us, 30_000_000);
}

#[test]
fn db_url_flag_accepted() {
    let a = RunArgs { db_url: Some("/tmp/test.db".to_string()), dry_run: true, ..args("https://example.com") };
    let c = merge_config(&a, None, &[], &[]).unwrap();
    assert_eq!(c.db_url.as_deref(), Some("/tmp/test.db"));
}

#[test]
fn no_config_file_follows_redirects() {
    let c = merge_config(&args("https://example.com"), None, &[], &[]).unwrap();
    assert!(c.follow_redirects);
    let off = RunArgs { no_follow_redirects: true, ..args("https://example.com") };
    assert!(!merge_config(&off, None, &[], &[]).unwrap().follow_redirects);
    assert!(merge_config(&args("https://example.com"), Some(TomlConfig::default()), &[], &[]).unwrap().follow_redirects);
}

#[test]
fn per_request_variables_pass_through_config_loading() {
    let content = "[[scenarios]]\nbody = '{\"name\": \"test-${REQUEST_ID}\", \"ts\": ${TIMESTAMP_MS}}'\n[websocket]\n# ${MESSAGE_ID}\n";
    assert!(placeholder_names(content).contains(&"REQUEST_ID".to_string()));
    let env = vec![("REQUEST_ID".to_string(), None), ("TIMESTAMP_MS".to_string(), None)];
    assert_eq!(interpolate_env_vars(content, &env).unwrap(), content);
    let msg = "body = \"${MESSAGE_ID}\"";
    assert_eq!(interpolate_env_vars(msg, &[("MESSAGE_ID".to_string(), None)]).unwrap(), msg);
}

#[test]
fn placeholders_on_comment_lines_are_not_looked_up() {
    let content = "# Authorization = \"Bearer ${API_TOKEN}\"\n  # ${OTHER}\nurl = \"${HOST:-http://localhost}\"\n";
    assert_eq!(placeholder_names(content), vec!["HOST".to_string()]);
    let out = interpolate_env_vars(content, &[("HOST".to_string(), None)]).unwrap();
    assert_eq!(out, "# Authorization = \"Bearer ${API_TOKEN}\"\n  # ${OTHER}\nurl = \"http://localhost\"\n");
    let e = interpolate_env_vars("x = 1 # ${API_TOKEN}", &[("API_TOKEN".to_string(), None)]).unwrap_err();
    assert_eq!(e, "Environment variable 'API_TOKEN' not set");
}

#[test]
fn starter_config_loads_without_environment() {
    let text = kaioken::config::init_config_text(None);
    assert!(placeholder_names(&text).is_empty());
    assert_eq!(interpolate_env_vars(&text, &[]).unwrap(), text);
}

#[test]
fn threshold_values_must_be_numbers() {
    for ok in ["< 500", ">= 1.5", "<= .5", "> 2.", "== -3e2", "< +1E-3", "> inf", "< NaN", ">= -Infinity"] {
        let t = kaioken::config::parse_threshold_expr(kaioken::types::ThresholdMetric::P95LatencyMs, ok).unwrap();
        assert!(t.value_text.parse::<f64>().is_ok(), "{}", ok);
    }
    for bad in ["< abc", "< .", "< 1e", "< 1.2.3", "< e5", "< 5ms", "<"] {
        let e = kaioken::config::parse_threshold_expr(kaioken::types::ThresholdMetric::P95LatencyMs, bad).unwrap_err();
        assert!(e.starts_with("Invalid threshold value for 'p95_latency_ms': '"), "{}", e);
        assert!(e.ends_with("'. Expected a number."));
    }
}

#[test]
fn refused_target_address_fails_at_its_place_in_the_merge() {
    let refused = vec![("nothost:8080".to_string(), "invalid socket address syntax".to_string())];
    let a = RunArgs { connect_to: Some("example.com:nothost:8080".to_string()), ..args("https://example.com") };
    let e = err_of(merge_config(&a, None, &[], &refused));
    assert_eq!(e, "Invalid target address 'nothost:8080': invalid socket address syntax");
    // The address is checked before the burst settings, as the merge reads them.
    let b = RunArgs { burst_rate: Some(10), ..a };
    assert_eq!(err_of(merge_config(&b, None, &[], &refused)), e);
    let ok = RunArgs { connect_to: Some("example.com:127.0.0.1:8080".to_string()), ..args("https://example.com") };
    assert!(merge_config(&ok, None, &[], &refused).is_ok());
}

#[test]
fn unsafe_check_is_reached_only_after_the_earlier_rules() {
    let unsafe_check = CheckConfig { name: "bad".to_string(), condition: "body contains \"".to_string() };
    assert!(!kaioken::check::condition_is_safe(&unsafe_check.condition));
    let mut toml = TomlConfig::default();
    toml.checks = vec![unsafe_check];
    // Without a URL the merge fails before it reads the checks.
    let no_url = RunArgs::default();
    assert!(!kaioken::config::merge_reaches_checks(&no_url, &Some(TomlConfig::default()), &[]));
    let e = err_of(merge_config(&no_url, Some(toml), &[], &[]));
    assert!(e.contains("required"));
    // An earlier check that does not parse stops the checks before it.
    let first_bad = vec![
        CheckConfig { name: "typo".to_string(), condition: "sttus == 200".to_string() },
        CheckConfig { name: "bad".to_string(), condition: "body contains \"".to_string() },
    ];
    assert!(kaioken::config::checks_reached_safely(&first_bad));
    let mut t2 = TomlConfig::default();
    t2.checks = first_bad;
    let e = err_of(merge_config(&args("https://example.com"), Some(t2), &[], &[]));
    assert!(e.starts_with("Invalid check condition for 'typo'"), "{}", e);
    let reached_bad = vec![CheckConfig { name: "bad".to_string(), condition: "body contains \"".to_string() }];
    assert!(!kaioken::config::checks_reached_safely(&reached_bad));
    assert!(kaioken::config::merge_reaches_checks(&args("https://example.com"), &None, &[]));
}

#[test]
fn uppercase_variables_are_looked_up() {
    let e = interpolate_env_vars("url = \"${API_URL}\"", &[("API_URL".to_string(), None)]).unwrap_err();
    assert_eq!(e, "Environment variable 'API_URL' not set");
    assert_eq!(interpolate_env_vars("x = \"${user_id}\"", &[]).unwrap(), "x = \"${user_id}\"");
}

#[test]
fn threshold_operators_read_back_exactly() {
    let cases = [("  <=   500  ", "<=", "500"), ("<500", "<", "500"), ("\t>= 1e3", ">=", "1e3"), ("== -2.5 ", "==", "-2.5"), ("> .5", ">", ".5")];
    for (expr, op, v) in cases {
        let t = kaioken::config::parse_threshold_expr(kaioken::types::ThresholdMetric::P99LatencyMs, expr).unwrap();
        assert_eq!(t.operator.as_str(), op, "{}", expr);
        assert_eq!(t.value_text, v);
    }
    let e = kaioken::config::parse_threshold_expr(kaioken::types::ThresholdMetric::P99LatencyMs, "~ 5").unwrap_err();
    assert!(e.contains("Invalid threshold expression"));
}
