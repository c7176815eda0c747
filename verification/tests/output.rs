use kaioken::check::condition_is_safe;
use kaioken::compare::{check_compatibility, compare_exit_code, load_model_line, status_code_rows};
use kaioken::config::{init_config_text, init_conflict, INIT_HEAD, INIT_TAIL};
use kaioken::flavor::Flavor;
use kaioken::output::{
    extract_host, header_line, is_localhost, mask_header_value, preview_body, redact_header,
    report_errors, report_status_codes, report_timeline, status_class, truncate, Load, StatusClass,
    Target,
};
use kaioken::types::{ErrorKind, TimelineBucket};

fn closed(vus: u32) -> Load {
    Load {
        concurrency: vus,
        rate: 0,
        ramp_up_secs: 0,
        warmup_secs: 0,
        timeout_ms: 5000,
        load_model: Some("closed".to_string()),
        arrival_rate: None,
        max_vus: None,
    }
}

fn open(rate: u32, max_vus: u32) -> Load {
    Load { load_model: Some("open".to_string()), arrival_rate: Some(rate), max_vus: Some(max_vus), ..closed(10) }
}

fn target(url: &str) -> Target {
    Target { url: url.to_string(), method: "GET".to_string(), headers: Vec::new() }
}

#[test]
fn secrets_in_headers_are_redacted() {
    assert_eq!(redact_header("Authorization: Bearer abc"), "Authorization: <redacted>");
    assert_eq!(redact_header("X-Auth-Token: abc"), "X-Auth-Token: <redacted>");
    assert_eq!(redact_header("Cookie: a=b"), "Cookie: <redacted>");
    assert_eq!(redact_header("Content-Type: application/json"), "Content-Type: application/json");
    assert_eq!(header_line("X-Password", "hunter2"), "X-Password: <redacted>");
    assert_eq!(header_line("Accept", "*/*"), "Accept: */*");
}

#[test]
fn debug_masks_authorization_values() {
    assert_eq!(mask_header_value("Authorization", "Bearer 1234567890abcdef"), "Bearer 12345***");
    assert_eq!(mask_header_value("authorization", "short"), "***");
    assert_eq!(mask_header_value("Accept", "text/plain"), "text/plain");
}

#[test]
fn long_bodies_are_previewed() {
    let long = "x".repeat(600);
    assert_eq!(preview_body(&long), format!("{}... (600 bytes total)", "x".repeat(500)));
    assert_eq!(preview_body("short"), "short");
}

#[test]
fn local_targets_are_recognised() {
    assert!(is_localhost("http://LOCALHOST:8080/api"));
    assert!(is_localhost("http://127.0.0.1/"));
    assert!(is_localhost("http://[::1]:3000"));
    assert!(!is_localhost("https://example.com"));
    assert_eq!(extract_host("https://api.example.com/v1/users"), Some("api.example.com".to_string()));
    assert_eq!(extract_host("http://localhost:8080"), Some("localhost:8080".to_string()));
    assert_eq!(extract_host("example.com/x"), Some("example.com".to_string()));
}

#[test]
fn cells_are_cut_with_an_ellipsis() {
    assert_eq!(truncate("hello world", 8), "hello...");
    assert_eq!(truncate("short", 8), "short");
    assert_eq!(truncate("exactly8", 8), "exactly8");
}

#[test]
fn report_records_name_codes_and_kinds() {
    assert_eq!(report_status_codes(&[(200, 3), (503, 1)]), vec![("200".to_string(), 3), ("503".to_string(), 1)]);
    assert_eq!(report_errors(&[(ErrorKind::Timeout, 2)]), vec![("timeout".to_string(), 2)]);
    let tl = report_timeline(&[TimelineBucket { elapsed_secs: 1, requests: 5, errors: 0 }]);
    assert_eq!((tl[0].elapsed_secs, tl[0].requests, tl[0].errors), (1, 5, 0));
}

#[test]
fn compare_refuses_different_models_unless_forced() {
    let e = check_compatibility(&closed(10), &target("https://a"), &open(100, 50), &target("https://a"), false).unwrap_err();
    assert_eq!(e, "Cannot compare Closed vs Open runs. Use --force to compare anyway.");
    let w = check_compatibility(&closed(10), &target("https://a"), &open(100, 50), &target("https://a"), true).unwrap();
    assert_eq!(w, vec!["Load models differ: Closed vs Open (forced comparison)".to_string()]);
}

#[test]
fn compare_warns_on_setting_differences() {
    let w = check_compatibility(&closed(10), &target("https://a"), &closed(20), &target("https://b"), false).unwrap();
    assert_eq!(
        w,
        vec![
            "Concurrency differs: 10 vs 20".to_string(),
            "URL differs: 'https://a' vs 'https://b'".to_string(),
        ]
    );
    let w = check_compatibility(&open(100, 50), &target("https://a"), &open(200, 50), &target("https://a"), false).unwrap();
    assert_eq!(w, vec!["Target RPS differs: 100 vs 200".to_string()]);
}

#[test]
fn compare_describes_load_models() {
    assert_eq!(load_model_line("Baseline:  ", &closed(25)), "Baseline:  Closed (VU-driven)   vus=25");
    assert_eq!(load_model_line("Candidate: ", &open(100, 50)), "Candidate: Open (arrival rate)  target=100  max_vus=50");
}

#[test]
fn compare_lists_status_codes_in_order() {
    let base = vec![("503".to_string(), 2), ("200".to_string(), 10)];
    let cur = vec![("200".to_string(), 12), ("404".to_string(), 1), ("abc".to_string(), 3)];
    assert_eq!(status_code_rows(&base, &cur), vec![(200, 10, 12), (404, 0, 1), (503, 2, 0)]);
}

#[test]
fn compare_exit_codes() {
    assert_eq!(compare_exit_code(true, true), 5);
    assert_eq!(compare_exit_code(false, true), 3);
    assert_eq!(compare_exit_code(false, false), 0);
}

#[test]
fn init_writes_the_template_with_the_url() {
    let text = init_config_text(Some("https://my.api/health"));
    assert_eq!(text, format!("{}https://my.api/health{}", INIT_HEAD, INIT_TAIL));
    assert!(text.contains("[target]\nurl = \"https://my.api/health\"\nmethod = \"GET\""));
    assert!(init_config_text(None).contains("url = \"https://api.example.com/health\""));
    assert!(text.contains("${REQUEST_ID}"));
}

#[test]
fn init_refuses_to_overwrite_without_force() {
    assert_eq!(
        init_conflict("kaioken.toml", true, false),
        Some("File 'kaioken.toml' already exists. Use --force to overwrite.".to_string())
    );
    assert_eq!(init_conflict("kaioken.toml", true, true), None);
    assert_eq!(init_conflict("kaioken.toml", false, false), None);
}

#[test]
fn lone_quote_body_conditions_are_unsafe() {
    assert!(condition_is_safe("status == 200"));
    assert!(condition_is_safe("body contains \"ok\""));
    assert!(!condition_is_safe("body contains \""));
    assert!(!condition_is_safe("body matches '"));
    assert!(condition_is_safe("body contains"));
}

#[test]
fn flavor_ranks_and_indicators() {
    let f = Flavor::new(false);
    assert_eq!(f.power_rank(50), "Farmer");
    assert_eq!(f.power_rank(9_001), "OVER 9000");
    let s = Flavor::new(true);
    assert_eq!(s.power_rank(9_001), "");
    assert_eq!(s.improvement_indicator(), "IMPROVED");
    assert_eq!(f.regression_indicator(), "DRAIN");
}

#[test]
fn status_codes_fall_into_classes() {
    assert_eq!(status_class(200), StatusClass::Success);
    assert_eq!(status_class(299), StatusClass::Success);
    assert_eq!(status_class(301), StatusClass::Redirect);
    assert_eq!(status_class(404), StatusClass::ClientError);
    assert_eq!(status_class(500), StatusClass::ServerError);
}

#[test]
fn connect_to_targets_are_kept_as_text() {
    use_connect_to();
}

fn use_connect_to() {
    let (host, target) = kaioken::config::parse_connect_to("api.example.com:443:10.0.0.1:8443").unwrap();
    assert_eq!(host, "api.example.com");
    assert_eq!(target, "10.0.0.1:8443");
    let e = kaioken::config::parse_connect_to("a:b").unwrap_err();
    assert_eq!(
        e,
        "Invalid connect-to format: 'a:b'. Expected 'HOST:TARGET_IP:TARGET_PORT' or 'HOST:PORT:TARGET_IP:TARGET_PORT'"
    );
}

#[test]
fn only_the_host_makes_a_target_local() {
    assert!(!is_localhost("https://localhost.evil.example/"));
    assert!(!is_localhost("https://api.example.com/?next=localhost"));
    assert!(!is_localhost("https://example.com/127.0.0.1#[::1]"));
    assert!(is_localhost("http://localhost:8080/x"));
    assert!(is_localhost("ws://user:pw@localhost/ws"));
    assert!(is_localhost("localhost:3000"));
    assert!(!is_localhost("http://localhost@evil.example/"));
}
