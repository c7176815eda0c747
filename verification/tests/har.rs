use kaioken::har::{
    compile_filter, detect_format, escape_toml, filter_headers, format_body, format_header_key,
    import_har, normalize_url, HarEntry, HarFile, HarHeader, HarLog, HarPostData, HarRequest,
};
use kaioken::config::ImportFormat;

fn header(name: &str, value: &str) -> HarHeader {
    HarHeader { name: name.to_string(), value: value.to_string() }
}

fn entry(method: &str, url: &str, headers: Vec<HarHeader>, body: Option<&str>) -> HarEntry {
    HarEntry {
        request: HarRequest {
            method: method.to_string(),
            url: url.to_string(),
            headers,
            post_data: body.map(|t| HarPostData { text: Some(t.to_string()), mime_type: None }),
        },
        response: None,
    }
}

fn har(entries: Vec<HarEntry>) -> HarFile {
    HarFile { log: HarLog { entries } }
}

#[test]
fn test_normalize_url() {
    assert_eq!(
        normalize_url("https://api.example.com/users?id=123"),
        "https://api.example.com/users"
    );
    assert_eq!(
        normalize_url("https://api.example.com/users"),
        "https://api.example.com/users"
    );
}

#[test]
fn test_escape_toml() {
    assert_eq!(escape_toml("hello\"world"), "hello\\\"world");
    assert_eq!(escape_toml("line1\nline2"), "line1\\nline2");
}

#[test]
fn test_filter_headers_removes_browser_headers() {
    let headers = vec![
        HarHeader { name: "Accept".to_string(), value: "application/json".to_string() },
        HarHeader { name: "User-Agent".to_string(), value: "Mozilla/5.0".to_string() },
        HarHeader { name: "Cache-Control".to_string(), value: "no-cache".to_string() },
        HarHeader { name: "Authorization".to_string(), value: "Bearer token".to_string() },
        HarHeader { name: "sec-fetch-mode".to_string(), value: "cors".to_string() },
    ];
    let filtered = filter_headers(&headers);
    assert_eq!(filtered.len(), 2);
    assert!(filtered.iter().any(|(n, _)| n == "Accept"));
    assert!(filtered.iter().any(|(n, _)| n == "Authorization"));
}

#[test]
fn test_format_header_key() {
    assert_eq!(format_header_key("Content-Type"), "\"Content-Type\"");
    assert_eq!(format_header_key("X-Custom"), "\"X-Custom\"");
}

#[test]
fn test_format_header_key_escapes_quotes() {
    assert_eq!(format_header_key("X-\"Test\""), "\"X-\\\"Test\\\"\"");
    assert_eq!(format_header_key("X-Back\\slash"), "\"X-Back\\\\slash\"");
}

#[test]
fn test_format_body_with_triple_quotes() {
    let body_with_quotes = "some text with ''' in it";
    let result = format_body(body_with_quotes);
    assert!(result.starts_with("body = \""));
    assert!(result.contains("'''"));
    assert!(!result.contains("body = '''"));
}

#[test]
fn test_format_body_normal() {
    let normal_body = "{\"key\": \"value\"}";
    let result = format_body(normal_body);
    assert!(result.starts_with("body = '''"));
}

#[test]
fn test_import_har_single_url() {
    let doc = har(vec![entry("GET", "https://api.example.com/health", vec![], None)]);
    let result = import_har("test.har", &doc, None).unwrap();
    assert!(result.contains("[target]"));
    assert!(result.contains("url = \"https://api.example.com/health\""));
    assert!(result.contains("method = \"GET\""));
    assert!(result.contains("[load]"));
}

#[test]
fn test_import_har_multiple_urls_creates_scenarios() {
    let doc = har(vec![
        entry("GET", "https://api.example.com/users", vec![], None),
        entry("GET", "https://api.example.com/posts", vec![], None),
    ]);
    let result = import_har("test.har", &doc, None).unwrap();
    assert!(result.contains("[[scenarios]]"));
    assert!(result.contains("/users"));
    assert!(result.contains("/posts"));
}

#[test]
fn test_import_har_body_before_headers() {
    let doc = har(vec![entry(
        "POST",
        "https://api.example.com/data",
        vec![header("Content-Type", "application/json")],
        Some("{\"key\": \"value\"}"),
    )]);
    let result = import_har("test.har", &doc, None).unwrap();
    let body_pos = result.find("body = '''").unwrap();
    let headers_pos = result.find("[target.headers]").unwrap();
    assert!(body_pos < headers_pos, "body must come before headers section");
}

#[test]
fn test_import_har_with_filter() {
    let doc = har(vec![
        entry("GET", "https://api.example.com/v1/users", vec![], None),
        entry("GET", "https://api.example.com/v2/users", vec![], None),
        entry("GET", "https://cdn.example.com/image.png", vec![], None),
    ]);
    let filter = compile_filter("api.example.com/v2").unwrap();
    let result = import_har("test.har", &doc, Some(&filter)).unwrap();
    assert!(result.contains("/v2/users"));
    assert!(!result.contains("/v1/users"));
    assert!(!result.contains("cdn.example.com"));
}

#[test]
fn test_import_har_empty_file_fails() {
    let doc = har(vec![]);
    let result = import_har("test.har", &doc, None);
    assert!(result.is_err());
    assert!(result.unwrap_err().contains("no requests"));
}

#[test]
fn test_import_har_skips_data_urls() {
    let doc = har(vec![
        entry("GET", "data:text/plain;base64,SGVsbG8=", vec![], None),
        entry("GET", "https://api.example.com/health", vec![], None),
    ]);
    let result = import_har("test.har", &doc, None).unwrap();
    assert!(!result.contains("data:text"));
    assert!(result.contains("api.example.com"));
}

#[test]
fn test_import_har_weights_from_duplicates() {
    let doc = har(vec![
        entry("GET", "https://api.example.com/health", vec![], None),
        entry("GET", "https://api.example.com/health", vec![], None),
        entry("GET", "https://api.example.com/health", vec![], None),
        entry("POST", "https://api.example.com/data", vec![], None),
    ]);
    let result = import_har("test.har", &doc, None).unwrap();
    assert!(result.contains("weight = 3"), "GET /health should have weight 3");
}

#[test]
fn import_har_exact_single_target_text() {
    let doc = har(vec![entry(
        "GET",
        "https://api.example.com/health?x=1",
        vec![header("Accept", "a\"b"), header("Cookie", "c")],
        None,
    )]);
    let result = import_har("in.har", &doc, None).unwrap();
    let expected = "# Generated from HAR file by kaioken import\n\
# Source: in.har\n\
# Entries: 1 requests\n\n\
[target]\n\
url = \"https://api.example.com/health?x=1\"\n\
method = \"GET\"\n\
\n[target.headers]\n\
\"Accept\" = \"a\\\"b\"\n\
\n[load]\n\
concurrency = 10\n\
duration = \"30s\"\n\
\n# Suggested thresholds (adjust based on your SLOs)\n\
# [thresholds]\n\
# p99_latency_ms = \"< 500\"\n\
# error_rate = \"< 0.01\"\n";
    assert_eq!(result, expected);
}

#[test]
fn import_har_scenarios_sorted_by_key() {
    let doc = har(vec![
        entry("POST", "https://b.example.com/x", vec![], None),
        entry("GET", "https://b.example.com/x", vec![], None),
        entry("GET", "https://a.example.com/y?q=1", vec![], None),
        entry("GET", "https://a.example.com/y?q=2", vec![], None),
    ]);
    let result = import_har("in.har", &doc, None).unwrap();
    let a = result.find("https://a.example.com/y?q=1").unwrap();
    let b = result.find("url = \"https://b.example.com/x\"\nmethod = \"GET\"").unwrap();
    let c = result.find("method = \"POST\"").unwrap();
    assert!(a < b && b < c);
    assert!(result.contains("weight = 2"));
    assert!(result.contains("# Entries: 4 requests"));
}

#[test]
fn import_har_no_matching_requests() {
    let doc = har(vec![entry("GET", "ftp://example.com/file", vec![], None)]);
    assert_eq!(
        import_har("in.har", &doc, None),
        Err("No matching HTTP requests found in HAR file".to_string())
    );
}

#[test]
fn compile_filter_reports_bad_regex() {
    let e = compile_filter("foo(bar").err().unwrap();
    assert!(e.starts_with("Invalid filter regex: "));
}

#[test]
fn detect_format_by_extension() {
    assert_eq!(detect_format("spec.yaml"), ImportFormat::Openapi);
    assert_eq!(detect_format("dir/spec.yml"), ImportFormat::Openapi);
    assert_eq!(detect_format("capture.har"), ImportFormat::Har);
    assert_eq!(detect_format("collection.json"), ImportFormat::Har);
    assert_eq!(detect_format(".yaml"), ImportFormat::Har);
    assert_eq!(detect_format("noext"), ImportFormat::Har);
    assert_eq!(detect_format("dir.yaml/"), ImportFormat::Openapi);
}

#[test]
fn format_body_escapes_control_characters() {
    assert_eq!(format_body("a'''b\tc"), "body = \"a'''b\\tc\"\n");
    assert_eq!(format_body("x\ny"), "body = '''\nx\ny'''\n");
}
