//! The run configuration: command-line arguments, the TOML file, and the
//! merge of both into one `LoadConfig`.
//!
//! Durations are whole microseconds. Files that the configuration names are
//! read by the caller beforehand and handed in as `ProbedFile` records.
use vstd::prelude::*;

use crate::check::{Check, CheckCondition, condition_is_safe, cond_view, condition_spec, CondSpec, condition_panics, parse_check_condition};
use crate::text::{
    chars_of, decimal, extend_chars, extend_str, first_index, has_prefix, lemma_first_index,
    lines, lines_spec, owned, push_decimal, slice_chars, split_char, split_spec, starts_with_str,
    string_of, str_eq, trim, trim_spec, upper_text, to_uppercase, find_char,
    float_syntax, is_float_text, all_white, is_white, trim_start_spec, trim_end_spec,
    lemma_float_text_not_white,
};
use crate::types::{Extraction, ExtractionSource, Stage, ThresholdMetric, ThresholdOp, metric_name, op_symbol, parse_source_spec, source_error, source_view, SourceSpec};

verus! {

// ---------------------------------------------------------------------------
// Command-line arguments
// ---------------------------------------------------------------------------

/// The arguments of the `run` command.
pub struct RunArgs {
    pub url: Option<String>,
    pub concurrency: u32,
    pub duration_us: u64,
    pub rate: u32,
    pub ramp_up_us: u64,
    pub warmup_us: u64,
    pub think_time_us: Option<u64>,
    pub timeout_us: u64,
    pub connect_timeout_us: u64,
    pub method: String,
    pub headers: Vec<String>,
    pub body: Option<String>,
    pub body_file: Option<String>,
    pub max_requests: u64,
    pub http2: bool,
    pub http3: bool,
    pub grpc_service: Option<String>,
    pub grpc_method: Option<String>,
    pub cookie_jar: bool,
    pub arrival_rate: Option<u32>,
    pub max_vus: u32,
    pub no_latency_correction: bool,
    pub no_follow_redirects: bool,
    pub disable_keepalive: bool,
    pub config: Option<String>,
    pub output: Option<String>,
    pub format: String,
    pub no_tui: bool,
    pub json: bool,
    pub quiet: bool,
    pub serious: bool,
    pub insecure: bool,
    pub yes: bool,
    pub dry_run: bool,
    pub fail_fast: bool,
    pub ws_message_interval_us: u64,
    pub ws_fire_and_forget: bool,
    pub proxy: Option<String>,
    pub basic_auth: Option<String>,
    pub cert: Option<String>,
    pub key: Option<String>,
    pub cacert: Option<String>,
    pub rand_regex_url: Option<String>,
    pub urls_from_file: Option<String>,
    pub body_lines_file: Option<String>,
    pub connect_to: Option<String>,
    pub burst_rate: Option<u32>,
    pub burst_delay_us: Option<u64>,
    pub db_url: Option<String>,
}

/// Ten seconds, the default test duration.
pub const DEFAULT_DURATION_US: u64 = 10_000_000;

/// Five seconds, the default request timeout.
pub const DEFAULT_TIMEOUT_US: u64 = 5_000_000;

/// Two seconds, the default connect timeout.
pub const DEFAULT_CONNECT_TIMEOUT_US: u64 = 2_000_000;

/// A hundred milliseconds, the default WebSocket message interval.
pub const DEFAULT_WS_INTERVAL_US: u64 = 100_000;

/// The default number of workers.
pub const DEFAULT_CONCURRENCY: u32 = 50;

/// The default limit of workers in arrival-rate mode.
pub const DEFAULT_MAX_VUS: u32 = 100;

impl Default for RunArgs {
    fn default() -> (r: Self)
        ensures
            r.url is None,
            r.concurrency == DEFAULT_CONCURRENCY,
            r.duration_us == DEFAULT_DURATION_US,
            r.rate == 0,
            r.ramp_up_us == 0,
            r.warmup_us == 0,
            r.think_time_us is None,
            r.timeout_us == DEFAULT_TIMEOUT_US,
            r.connect_timeout_us == DEFAULT_CONNECT_TIMEOUT_US,
            r.method@ == "GET"@,
            r.headers@.len() == 0,
            r.body is None,
            r.body_file is None,
            r.max_requests == 0,
            !r.http2 && !r.http3 && !r.cookie_jar,
            r.grpc_service is None && r.grpc_method is None,
            r.arrival_rate is None,
            r.max_vus == DEFAULT_MAX_VUS,
            !r.no_latency_correction && !r.no_follow_redirects && !r.disable_keepalive,
            r.config is None && r.output is None,
            r.format@ == "json"@,
            !r.no_tui && !r.json && !r.quiet && !r.serious && !r.insecure && !r.yes,
            !r.dry_run && !r.fail_fast,
            r.ws_message_interval_us == DEFAULT_WS_INTERVAL_US,
            !r.ws_fire_and_forget,
            r.proxy is None && r.basic_auth is None,
            r.cert is None && r.key is None && r.cacert is None,
            r.rand_regex_url is None && r.urls_from_file is None && r.body_lines_file is None,
            r.connect_to is None,
            r.burst_rate is None && r.burst_delay_us is None,
            r.db_url is None,
    {
        RunArgs {
            url: None,
            concurrency: DEFAULT_CONCURRENCY,
            duration_us: DEFAULT_DURATION_US,
            rate: 0,
            ramp_up_us: 0,
            warmup_us: 0,
            think_time_us: None,
            timeout_us: DEFAULT_TIMEOUT_US,
            connect_timeout_us: DEFAULT_CONNECT_TIMEOUT_US,
            method: owned("GET"),
            headers: Vec::new(),
            body: None,
            body_file: None,
            max_requests: 0,
            http2: false,
            http3: false,
            grpc_service: None,
            grpc_method: None,
            cookie_jar: false,
            arrival_rate: None,
            max_vus: DEFAULT_MAX_VUS,
            no_latency_correction: false,
            no_follow_redirects: false,
            disable_keepalive: false,
            config: None,
            output: None,
            format: owned("json"),
            no_tui: false,
            json: false,
            quiet: false,
            serious: false,
            insecure: false,
            yes: false,
            dry_run: false,
            fail_fast: false,
            ws_message_interval_us: DEFAULT_WS_INTERVAL_US,
            ws_fire_and_forget: false,
            proxy: None,
            basic_auth: None,
            cert: None,
            key: None,
            cacert: None,
            rand_regex_url: None,
            urls_from_file: None,
            body_lines_file: None,
            connect_to: None,
            burst_rate: None,
            burst_delay_us: None,
            db_url: None,
        }
    }
}

/// The arguments of the `import` command.
pub struct ImportArgs {
    pub input: String,
    pub output: String,
    pub format: Option<ImportFormat>,
    pub filter: Option<String>,
    pub force: bool,
}

/// The formats that `import` reads.
#[derive(Debug, Clone, Copy, PartialEq, Eq, Structural)]
pub enum ImportFormat {
    Har,
    Postman,
    Openapi,
}

/// The arguments of the `init` command.
pub struct InitArgs {
    pub output: String,
    pub url: Option<String>,
    pub force: bool,
}

/// The start of a new configuration file, up to its target URL.
pub const INIT_HEAD: &'static str = "# Kaioken Load Test Configuration\n# https://github.com/lance0/kaioken\n\n[target]\nurl = \"";

/// The rest of a new configuration file, after its target URL.
pub const INIT_TAIL: &'static str = "\"\nmethod = \"GET\"\ntimeout = \"5s\"\nconnect_timeout = \"2s\"\n# http2 = false\n# insecure = false\n\n# Headers (uncomment and modify as needed)\n# [target.headers]\n# Authorization = \"Bearer ${API_TOKEN}\"\n# Content-Type = \"application/json\"\n\n# Request body (for POST/PUT/PATCH)\n# body = '{\"key\": \"value\"}'\n# body_file = \"payload.json\"\n\n[load]\nconcurrency = 50\nduration = \"30s\"\n# max_requests = 0      # 0 = unlimited\n# rate = 0              # requests/sec, 0 = unlimited\n# ramp_up = \"0s\"        # time to reach full concurrency\n# warmup = \"0s\"         # warmup period (not measured)\n\n# Variable interpolation available in URL, headers, and body:\n#   ${REQUEST_ID}    - unique ID per request\n#   ${TIMESTAMP_MS}  - current epoch time in milliseconds\n\n# Weighted scenarios (optional) - when defined, these override [target]\n# Traffic is distributed based on weight (e.g., 7:2:1 ratio below)\n#\n# [[scenarios]]\n# name = \"get_users\"\n# url = \"https://api.example.com/users\"\n# method = \"GET\"\n# weight = 7\n#\n# [[scenarios]]\n# name = \"create_user\"\n# url = \"https://api.example.com/users\"\n# method = \"POST\"\n# body = '{\"name\": \"test\"}'\n# weight = 2\n#\n# [[scenarios]]\n# name = \"health_check\"\n# url = \"https://api.example.com/health\"\n# method = \"GET\"\n# weight = 1\n";

/// The URL a new configuration file targets: the one given, or a
/// placeholder health endpoint.
pub open spec fn init_url(url: Option<&str>) -> Seq<char> {
    match url {
        Some(u) => u@,
        None => "https://api.example.com/health"@,
    }
}

/// The text of a new configuration file for `url`.
pub fn init_config_text(url: Option<&str>) -> (out: String)
    ensures
        out@ == INIT_HEAD@ + init_url(url) + INIT_TAIL@,
{
    let u: &str = match url {
        Some(u) => u,
        None => "https://api.example.com/health",
    };
    let mut cs: Vec<char> = Vec::new();
    extend_str(&mut cs, INIT_HEAD);
    extend_str(&mut cs, u);
    extend_str(&mut cs, INIT_TAIL);
    string_of(cs.as_slice())
}

/// Why `init` refuses to write `output`: the file exists and `force` is
/// off.
pub fn init_conflict(output: &str, exists: bool, force: bool) -> (r: Option<String>)
    ensures
        (r is Some) == (exists && !force),
        r matches Some(m) ==> m@ == "File '"@ + output@ + "' already exists. Use --force to overwrite."@,
{
    if exists && !force {
        let mut cs: Vec<char> = Vec::new();
        extend_str(&mut cs, "File '");
        extend_str(&mut cs, output);
        extend_str(&mut cs, "' already exists. Use --force to overwrite.");
        Some(string_of(cs.as_slice()))
    } else {
        None
    }
}

/// What `split_header` makes of one `Name: Value` argument: the trimmed
/// text before the first colon and the trimmed text after it.
pub open spec fn header_spec(h: Seq<char>) -> Result<(Seq<char>, Seq<char>), Seq<char>> {
    let i = first_index(h, ':');
    if i < 0 {
        Err("Invalid header format: "@ + h + ". Expected 'Name: Value'"@)
    } else {
        Ok((trim_spec(h.subrange(0, i)), trim_spec(h.subrange(i + 1, h.len() as int))))
    }
}

/// The headers of the first `n` arguments, or the error of the first one
/// that is not `Name: Value`.
pub open spec fn headers_upto(hs: Seq<String>, n: int) -> Result<Seq<(Seq<char>, Seq<char>)>, Seq<char>>
    decreases n,
{
    if n <= 0 {
        Ok(Seq::empty())
    } else {
        match headers_upto(hs, n - 1) {
            Err(e) => Err(e),
            Ok(v) => match header_spec(hs[n - 1]@) {
                Err(e) => Err(e),
                Ok(p) => Ok(v.push(p)),
            },
        }
    }
}

/// Once an argument fails, the outcome stays that failure.
proof fn lemma_headers_err_stable(hs: Seq<String>, i: int, n: int)
    requires
        0 <= i <= n,
        headers_upto(hs, i) is Err,
    ensures
        headers_upto(hs, n) == headers_upto(hs, i),
    decreases n - i,
{
    if n > i {
        lemma_headers_err_stable(hs, i, n - 1);
    }
}

/// The character view of a list of string pairs.
pub open spec fn pairs_view(v: Seq<(String, String)>) -> Seq<(Seq<char>, Seq<char>)> {
    Seq::new(v.len(), |i: int| (v[i].0@, v[i].1@))
}

/// The character view of a list of strings.
pub open spec fn strings_view(v: Seq<String>) -> Seq<Seq<char>> {
    Seq::new(v.len(), |i: int| v[i]@)
}

/// Splits one header argument at its first colon.
fn split_header(h: &String) -> (r: Result<(String, String), String>)
    ensures
        match header_spec(h@) {
            Ok(p) => r matches Ok(o) && o.0@ == p.0 && o.1@ == p.1,
            Err(e) => r matches Err(m) && m@ == e,
        },
{
    let cs = chars_of(h.as_str());
    proof {
        lemma_first_index(cs@, ':');
    }
    match find_char(cs.as_slice(), ':') {
        None => {
            let mut m: Vec<char> = Vec::new();
            extend_str(&mut m, "Invalid header format: ");
            extend_chars(&mut m, cs.as_slice());
            extend_str(&mut m, ". Expected 'Name: Value'");
            Err(string_of(m.as_slice()))
        },
        Some(i) => {
            let n = cs.len();
            let name = slice_chars(cs.as_slice(), 0, i);
            let value = slice_chars(cs.as_slice(), i + 1, n);
            let tn = trim(name.as_slice());
            let tv = trim(value.as_slice());
            Ok((string_of(tn.as_slice()), string_of(tv.as_slice())))
        },
    }
}

impl RunArgs {
    /// Splits each `-H` argument into a name and a value at its first colon,
    /// both trimmed; the first argument without a colon is an error.
    pub fn parse_headers(&self) -> (r: Result<Vec<(String, String)>, String>)
        ensures
            match headers_upto(self.headers@, self.headers@.len() as int) {
                Ok(v) => r matches Ok(o) && pairs_view(o@) == v,
                Err(e) => r matches Err(m) && m@ == e,
            },
    {
        let mut out: Vec<(String, String)> = Vec::new();
        let mut i: usize = 0;
        while i < self.headers.len()
            invariant
                i <= self.headers@.len(),
                headers_upto(self.headers@, i as int) matches Ok(v) && pairs_view(out@) == v,
            decreases self.headers@.len() - i,
        {
            match split_header(&self.headers[i]) {
                Ok(p) => {
                    let ghost before = out@;
                    out.push(p);
                    assert(pairs_view(out@) == pairs_view(before).push((p.0@, p.1@)));
                },
                Err(e) => {
                    proof {
                        lemma_headers_err_stable(self.headers@, i + 1, self.headers@.len() as int);
                    }
                    return Err(e);
                },
            }
            i += 1;
        }
        Ok(out)
    }
}

// ---------------------------------------------------------------------------
// The TOML file
// ---------------------------------------------------------------------------

/// A configuration file.
pub struct TomlConfig {
    pub target: TargetConfig,
    pub load: LoadSettings,
    pub websocket: WebSocketConfig,
    pub scenarios: Vec<ScenarioConfig>,
    pub thresholds: ThresholdsConfig,
    pub checks: Vec<CheckConfig>,
    pub stages: Vec<StageConfig>,
}

/// One `[[stages]]` entry.
#[derive(Debug, Clone, Copy)]
pub struct StageConfig {
    pub duration_us: u64,
    pub target: Option<u32>,
    pub target_rate: Option<u32>,
}

/// The `[thresholds]` section: one optional expression per metric.
pub struct ThresholdsConfig {
    pub p50_latency_ms: Option<String>,
    pub p75_latency_ms: Option<String>,
    pub p90_latency_ms: Option<String>,
    pub p95_latency_ms: Option<String>,
    pub p99_latency_ms: Option<String>,
    pub p999_latency_ms: Option<String>,
    pub mean_latency_ms: Option<String>,
    pub max_latency_ms: Option<String>,
    pub error_rate: Option<String>,
    pub rps: Option<String>,
    pub check_pass_rate: Option<String>,
}

/// One `[[checks]]` entry.
pub struct CheckConfig {
    pub name: String,
    pub condition: String,
}

/// One `[[scenarios]]` entry; the maps of the file are lists of pairs.
pub struct ScenarioConfig {
    pub name: Option<String>,
    pub url: String,
    pub method: String,
    pub headers: Vec<(String, String)>,
    pub body: Option<String>,
    pub body_file: Option<String>,
    pub weight: u32,
    pub extract: Vec<(String, String)>,
    pub depends_on: Option<String>,
    pub tags: Vec<(String, String)>,
}

/// The method of a scenario that names none.
pub fn default_method() -> (s: String)
    ensures
        s@ == "GET"@,
{
    owned("GET")
}

/// The weight of a scenario that names none.
pub fn default_weight() -> (w: u32)
    ensures
        w == 1,
{
    1
}

/// The value of a flag that is on unless the file turns it off.
pub fn default_true() -> (b: bool)
    ensures
        b,
{
    true
}

/// The `[target]` section.
pub struct TargetConfig {
    pub url: Option<String>,
    pub method: Option<String>,
    pub timeout_us: Option<u64>,
    pub connect_timeout_us: Option<u64>,
    pub headers: Vec<(String, String)>,
    pub body: Option<String>,
    pub body_file: Option<String>,
    pub body_lines_file: Option<String>,
    pub insecure: bool,
    pub http2: bool,
    pub cookie_jar: bool,
    pub follow_redirects: bool,
    pub proxy: Option<String>,
    pub basic_auth: Option<String>,
    pub cert: Option<String>,
    pub key: Option<String>,
    pub cacert: Option<String>,
    pub disable_keepalive: bool,
    pub rand_regex_url: Option<String>,
    pub urls_from_file: Option<String>,
    pub connect_to: Option<String>,
}

/// The `[load]` section.
pub struct LoadSettings {
    pub concurrency: Option<u32>,
    pub duration_us: Option<u64>,
    pub max_requests: Option<u64>,
    pub rate: Option<u32>,
    pub ramp_up_us: Option<u64>,
    pub warmup_us: Option<u64>,
    pub think_time_us: Option<u64>,
    pub arrival_rate: Option<u32>,
    pub max_vus: Option<u32>,
    pub burst_rate: Option<u32>,
    pub burst_delay_us: Option<u64>,
}

/// The `[websocket]` section.
pub struct WebSocketConfig {
    pub message_interval_us: Option<u64>,
    pub mode: Option<String>,
}

/// The character view of an optional string.
pub open spec fn opt_view(o: Option<String>) -> Option<Seq<char>> {
    match o {
        Some(s) => Some(s@),
        None => None,
    }
}

/// Everything that merging reads from a configuration file, with the
/// values that an absent file (or section) stands for.
pub struct TomlView {
    pub url: Option<Seq<char>>,
    pub method: Option<Seq<char>>,
    pub timeout_us: Option<u64>,
    pub connect_timeout_us: Option<u64>,
    pub headers: Seq<(Seq<char>, Seq<char>)>,
    pub body: Option<Seq<char>>,
    pub body_file: Option<Seq<char>>,
    pub body_lines_file: Option<Seq<char>>,
    pub insecure: bool,
    pub http2: bool,
    pub cookie_jar: bool,
    pub follow_redirects: bool,
    pub proxy: Option<Seq<char>>,
    pub basic_auth: Option<Seq<char>>,
    pub cert: Option<Seq<char>>,
    pub key: Option<Seq<char>>,
    pub cacert: Option<Seq<char>>,
    pub disable_keepalive: bool,
    pub rand_regex_url: Option<Seq<char>>,
    pub urls_from_file: Option<Seq<char>>,
    pub connect_to: Option<Seq<char>>,
    pub concurrency: Option<u32>,
    pub duration_us: Option<u64>,
    pub max_requests: Option<u64>,
    pub rate: Option<u32>,
    pub ramp_up_us: Option<u64>,
    pub warmup_us: Option<u64>,
    pub think_time_us: Option<u64>,
    pub arrival_rate: Option<u32>,
    pub max_vus: Option<u32>,
    pub burst_rate: Option<u32>,
    pub burst_delay_us: Option<u64>,
    pub ws_message_interval_us: Option<u64>,
    pub ws_mode: Option<Seq<char>>,
    pub scenarios: Seq<ScenarioConfig>,
    pub thresholds: ThresholdsConfig,
    pub checks: Seq<CheckConfig>,
    pub stages: Seq<StageConfig>,
}

/// What merging reads from `t`; without a file, every setting is absent,
/// every list empty, and every flag off but `follow_redirects`, which is
/// on by default.
pub open spec fn toml_view(t: Option<TomlConfig>) -> TomlView {
    match t {
        Some(c) => TomlView {
            url: opt_view(c.target.url),
            method: opt_view(c.target.method),
            timeout_us: c.target.timeout_us,
            connect_timeout_us: c.target.connect_timeout_us,
            headers: pairs_view(c.target.headers@),
            body: opt_view(c.target.body),
            body_file: opt_view(c.target.body_file),
            body_lines_file: opt_view(c.target.body_lines_file),
            insecure: c.target.insecure,
            http2: c.target.http2,
            cookie_jar: c.target.cookie_jar,
            follow_redirects: c.target.follow_redirects,
            proxy: opt_view(c.target.proxy),
            basic_auth: opt_view(c.target.basic_auth),
            cert: opt_view(c.target.cert),
            key: opt_view(c.target.key),
            cacert: opt_view(c.target.cacert),
            disable_keepalive: c.target.disable_keepalive,
            rand_regex_url: opt_view(c.target.rand_regex_url),
            urls_from_file: opt_view(c.target.urls_from_file),
            connect_to: opt_view(c.target.connect_to),
            concurrency: c.load.concurrency,
            duration_us: c.load.duration_us,
            max_requests: c.load.max_requests,
            rate: c.load.rate,
            ramp_up_us: c.load.ramp_up_us,
            warmup_us: c.load.warmup_us,
            think_time_us: c.load.think_time_us,
            arrival_rate: c.load.arrival_rate,
            max_vus: c.load.max_vus,
            burst_rate: c.load.burst_rate,
            burst_delay_us: c.load.burst_delay_us,
            ws_message_interval_us: c.websocket.message_interval_us,
            ws_mode: opt_view(c.websocket.mode),
            scenarios: c.scenarios@,
            thresholds: c.thresholds,
            checks: c.checks@,
            stages: c.stages@,
        },
        None => TomlView {
            url: None,
            method: None,
            timeout_us: None,
            connect_timeout_us: None,
            headers: Seq::empty(),
            body: None,
            body_file: None,
            body_lines_file: None,
            insecure: false,
            http2: false,
            cookie_jar: false,
            follow_redirects: true,
            proxy: None,
            basic_auth: None,
            cert: None,
            key: None,
            cacert: None,
            disable_keepalive: false,
            rand_regex_url: None,
            urls_from_file: None,
            connect_to: None,
            concurrency: None,
            duration_us: None,
            max_requests: None,
            rate: None,
            ramp_up_us: None,
            warmup_us: None,
            think_time_us: None,
            arrival_rate: None,
            max_vus: None,
            burst_rate: None,
            burst_delay_us: None,
            ws_message_interval_us: None,
            ws_mode: None,
            scenarios: Seq::empty(),
            thresholds: ThresholdsConfig {
                p50_latency_ms: None,
                p75_latency_ms: None,
                p90_latency_ms: None,
                p95_latency_ms: None,
                p99_latency_ms: None,
                p999_latency_ms: None,
                mean_latency_ms: None,
                max_latency_ms: None,
                error_rate: None,
                rps: None,
                check_pass_rate: None,
            },
            checks: Seq::empty(),
            stages: Seq::empty(),
        },
    }
}

impl Default for TomlConfig {
    /// An empty file: the settings that a missing file stands for; redirects
    /// are followed, as the default of `follow_redirects` says.
    fn default() -> (r: Self)
        ensures
            toml_view(Some(r)) == toml_view(None),
    {
        let r = TomlConfig {
            target: TargetConfig {
                url: None,
                method: None,
                timeout_us: None,
                connect_timeout_us: None,
                headers: Vec::new(),
                body: None,
                body_file: None,
                body_lines_file: None,
                insecure: false,
                http2: false,
                cookie_jar: false,
                follow_redirects: true,
                proxy: None,
                basic_auth: None,
                cert: None,
                key: None,
                cacert: None,
                disable_keepalive: false,
                rand_regex_url: None,
                urls_from_file: None,
                connect_to: None,
            },
            load: LoadSettings {
                concurrency: None,
                duration_us: None,
                max_requests: None,
                rate: None,
                ramp_up_us: None,
                warmup_us: None,
                think_time_us: None,
                arrival_rate: None,
                max_vus: None,
                burst_rate: None,
                burst_delay_us: None,
            },
            websocket: WebSocketConfig { message_interval_us: None, mode: None },
            scenarios: Vec::new(),
            thresholds: ThresholdsConfig {
                p50_latency_ms: None,
                p75_latency_ms: None,
                p90_latency_ms: None,
                p95_latency_ms: None,
                p99_latency_ms: None,
                p999_latency_ms: None,
                mean_latency_ms: None,
                max_latency_ms: None,
                error_rate: None,
                rps: None,
                check_pass_rate: None,
            },
            checks: Vec::new(),
            stages: Vec::new(),
        };
        assert(pairs_view(r.target.headers@) =~= Seq::empty());
        assert(r.scenarios@ =~= Seq::empty());
        assert(r.checks@ =~= Seq::empty());
        assert(r.stages@ =~= Seq::empty());
        r
    }
}

// ---------------------------------------------------------------------------
// Files named by the configuration
// ---------------------------------------------------------------------------

/// What the file system held for one path that the configuration names:
/// whether it exists, its text (or the read error's message) and its bytes
/// (or the read error's message).
pub struct ProbedFile {
    pub path: String,
    pub exists: bool,
    pub text: Result<String, String>,
    pub bytes: Result<Vec<u8>, String>,
}

/// The index of the first record for `p` from index `k` on, or -1.
pub open spec fn probe_from(files: Seq<ProbedFile>, p: Seq<char>, k: int) -> int
    decreases files.len() - k,
{
    if k < 0 || k >= files.len() {
        -1
    } else if files[k].path@ == p {
        k
    } else {
        probe_from(files, p, k + 1)
    }
}

/// The index of the first record for `p`, or -1.
pub open spec fn probe_index(files: Seq<ProbedFile>, p: Seq<char>) -> int {
    probe_from(files, p, 0)
}

/// The text read from `p`, or the message of the failed read; a path
/// without a record reads as a failure with an empty message.
pub open spec fn file_text(files: Seq<ProbedFile>, p: Seq<char>) -> Result<Seq<char>, Seq<char>> {
    let i = probe_index(files, p);
    if 0 <= i < files.len() {
        match files[i].text {
            Ok(t) => Ok(t@),
            Err(e) => Err(e@),
        }
    } else {
        Err(Seq::empty())
    }
}

/// The bytes read from `p`, or the message of the failed read.
pub open spec fn file_bytes(files: Seq<ProbedFile>, p: Seq<char>) -> Result<Seq<u8>, Seq<char>> {
    let i = probe_index(files, p);
    if 0 <= i < files.len() {
        match files[i].bytes {
            Ok(b) => Ok(b@),
            Err(e) => Err(e@),
        }
    } else {
        Err(Seq::empty())
    }
}

/// Whether `p` exists; a path without a record does not.
pub open spec fn file_exists(files: Seq<ProbedFile>, p: Seq<char>) -> bool {
    let i = probe_index(files, p);
    0 <= i < files.len() && files[i].exists
}

proof fn lemma_probe_from(files: Seq<ProbedFile>, p: Seq<char>, k: int)
    requires
        0 <= k <= files.len(),
    ensures
        -1 <= probe_from(files, p, k) < files.len(),
        probe_from(files, p, k) >= 0 ==> k <= probe_from(files, p, k)
            && files[probe_from(files, p, k)].path@ == p,
        probe_from(files, p, k) == -1 ==> forall|j: int| k <= j < files.len() ==> files[j].path@ != p,
        forall|j: int| k <= j < probe_from(files, p, k) ==> files[j].path@ != p,
    decreases files.len() - k,
{
    if k < files.len() && files[k].path@ != p {
        lemma_probe_from(files, p, k + 1);
    }
}

/// Finds the record for `p`.
fn find_file(files: &[ProbedFile], p: &str) -> (r: Option<usize>)
    ensures
        match r {
            Some(i) => i < files@.len() && i as int == probe_index(files@, p@),
            None => probe_index(files@, p@) == -1,
        },
{
    proof {
        lemma_probe_from(files@, p@, 0);
    }
    let mut i: usize = 0;
    while i < files.len()
        invariant
            i <= files@.len(),
            forall|j: int| 0 <= j < i ==> files@[j].path@ != p@,
            probe_index(files@, p@) == probe_from(files@, p@, i as int),
        decreases files@.len() - i,
    {
        if str_eq(files[i].path.as_str(), p) {
            return Some(i);
        }
        i += 1;
    }
    None
}

/// Reads the text of `p` from the records.
fn read_text(files: &[ProbedFile], p: &str) -> (r: Result<String, String>)
    ensures
        match file_text(files@, p@) {
            Ok(t) => r matches Ok(s) && s@ == t,
            Err(e) => r matches Err(m) && m@ == e,
        },
{
    match find_file(files, p) {
        Some(i) => match &files[i].text {
            Ok(t) => Ok(owned(t.as_str())),
            Err(e) => Err(owned(e.as_str())),
        },
        None => Err(String::new()),
    }
}

/// Reads the bytes of `p` from the records.
fn read_bytes(files: &[ProbedFile], p: &str) -> (r: Result<Vec<u8>, String>)
    ensures
        match file_bytes(files@, p@) {
            Ok(b) => r matches Ok(v) && v@ == b,
            Err(e) => r matches Err(m) && m@ == e,
        },
{
    match find_file(files, p) {
        Some(i) => match &files[i].bytes {
            Ok(b) => Ok(crate::text::copy_bytes(b.as_slice())),
            Err(e) => Err(owned(e.as_str())),
        },
        None => Err(String::new()),
    }
}

/// Whether `p` exists, by the records.
fn path_exists(files: &[ProbedFile], p: &str) -> (b: bool)
    ensures
        b == file_exists(files@, p@),
{
    match find_file(files, p) {
        Some(i) => files[i].exists,
        None => false,
    }
}

// ---------------------------------------------------------------------------
// HTTP methods
// ---------------------------------------------------------------------------

/// A token character of RFC 9110 (`tchar`).
pub open spec fn is_tchar(c: char) -> bool {
    ('0' <= c <= '9') || ('A' <= c <= 'Z') || ('a' <= c <= 'z') || c == '!' || c == '#' || c
        == '$' || c == '%' || c == '&' || c == '\'' || c == '*' || c == '+' || c == '-' || c == '.'
        || c == '^' || c == '_' || c == '`' || c == '|' || c == '~'
}

/// The texts that `http::Method` accepts: a non-empty token.
pub open spec fn is_method_token(s: Seq<char>) -> bool {
    s.len() > 0 && forall|i: int| 0 <= i < s.len() ==> is_tchar(#[trigger] s[i])
}

/// Calls `<http::Method as FromStr>::from_str` and, on success,
/// `Method::as_str`.
///
/// Trusted: the parse succeeds exactly on a non-empty text of token
/// characters (the crate's table of valid method bytes), and the method then
/// reads back as the same text.
#[verifier::external_body]
fn parse_method(s: &str) -> (r: Option<String>)
    ensures
        r is Some <==> is_method_token(s@),
        r matches Some(m) ==> m@ == s@,
{
    match s.parse::<http::Method>() {
        Ok(m) => Some(m.as_str().to_string()),
        Err(_) => None,
    }
}

/// The method that a request is sent with: the text uppercased, if it is a
/// valid method then.
pub open spec fn method_spec(text: Seq<char>) -> Option<Seq<char>> {
    if is_method_token(upper_text(text)) {
        Some(upper_text(text))
    } else {
        None
    }
}

/// Uppercases `text` and parses it as a method.
fn normalize_method(text: &str) -> (r: Option<String>)
    ensures
        match method_spec(text@) {
            Some(m) => r matches Some(o) && o@ == m,
            None => r is None,
        },
{
    let up = to_uppercase(text);
    parse_method(up.as_str())
}

// ---------------------------------------------------------------------------
// Basic authentication
// ---------------------------------------------------------------------------

/// What `parse_basic_auth` makes of `user:password` or `user`: the text
/// before the first colon and the rest; an empty user is an error.
pub open spec fn basic_auth_spec(s: Seq<char>) -> Result<(Seq<char>, Option<Seq<char>>), Seq<char>> {
    let i = first_index(s, ':');
    if i >= 0 {
        if i == 0 {
            Err("Basic auth username cannot be empty"@)
        } else {
            Ok((s.subrange(0, i), Some(s.subrange(i + 1, s.len() as int))))
        }
    } else if s.len() == 0 {
        Err("Basic auth username cannot be empty"@)
    } else {
        Ok((s, None))
    }
}

/// The character view of parsed credentials.
pub open spec fn auth_view(a: (String, Option<String>)) -> (Seq<char>, Option<Seq<char>>) {
    (a.0@, opt_view(a.1))
}

/// Parses basic authentication credentials, `user:password` or `user`.
pub fn parse_basic_auth(s: &str) -> (r: Result<(String, Option<String>), String>)
    ensures
        match basic_auth_spec(s@) {
            Ok(a) => r matches Ok(o) && auth_view(o) == a,
            Err(e) => r matches Err(m) && m@ == e,
        },
{
    let cs = chars_of(s);
    let n = cs.len();
    proof {
        lemma_first_index(cs@, ':');
    }
    match find_char(cs.as_slice(), ':') {
        Some(pos) => {
            if pos == 0 {
                return Err(owned("Basic auth username cannot be empty"));
            }
            let user = slice_chars(cs.as_slice(), 0, pos);
            let pass = slice_chars(cs.as_slice(), pos + 1, n);
            Ok((string_of(user.as_slice()), Some(string_of(pass.as_slice()))))
        },
        None => {
            if n == 0 {
                return Err(owned("Basic auth username cannot be empty"));
            }
            Ok((string_of(cs.as_slice()), None))
        },
    }
}

// ---------------------------------------------------------------------------
// Stages
// ---------------------------------------------------------------------------

/// The error of stage `i` (counted from zero): it must set exactly one of
/// `target` and `target_rate`.
pub open spec fn stage_error(i: nat, c: StageConfig) -> Option<Seq<char>> {
    if c.target is Some && c.target_rate is Some {
        Some("Stage "@ + decimal(i + 1) + " cannot have both 'target' (VUs) and 'target_rate' (RPS)"@)
    } else if c.target is None && c.target_rate is None {
        Some("Stage "@ + decimal(i + 1) + " must have either 'target' (VUs) or 'target_rate' (RPS)"@)
    } else {
        None
    }
}

/// The error of the first bad stage among the first `n`.
pub open spec fn stages_error_upto(cs: Seq<StageConfig>, n: int) -> Option<Seq<char>>
    decreases n,
{
    if n <= 0 {
        None
    } else {
        match stages_error_upto(cs, n - 1) {
            Some(e) => Some(e),
            None => stage_error((n - 1) as nat, cs[n - 1]),
        }
    }
}

/// Whether some stage sets a worker target.
pub open spec fn has_vu_stage(cs: Seq<StageConfig>) -> bool {
    exists|i: int| 0 <= i < cs.len() && (#[trigger] cs[i]).target is Some
}

/// Whether some stage sets a rate target.
pub open spec fn has_rate_stage(cs: Seq<StageConfig>) -> bool {
    exists|i: int| 0 <= i < cs.len() && (#[trigger] cs[i]).target_rate is Some
}

/// What `process_stages` returns: the stages as given, unless one sets both
/// targets or neither, or the list mixes worker and rate targets.
pub open spec fn stages_spec(cs: Seq<StageConfig>) -> Result<Seq<StageConfig>, Seq<char>> {
    match stages_error_upto(cs, cs.len() as int) {
        Some(e) => Err(e),
        None => if has_vu_stage(cs) && has_rate_stage(cs) {
            Err("Cannot mix VU-based stages (target) with rate-based stages (target_rate)"@)
        } else {
            Ok(cs)
        },
    }
}

/// Whether `s` carries the duration and targets of `c`.
pub open spec fn stage_of(s: Stage, c: StageConfig) -> bool {
    s.duration_us == c.duration_us && s.target == c.target && s.target_rate == c.target_rate
}

proof fn lemma_stages_err_stable(cs: Seq<StageConfig>, i: int, n: int)
    requires
        0 <= i <= n,
        stages_error_upto(cs, i) is Some,
    ensures
        stages_error_upto(cs, n) == stages_error_upto(cs, i),
    decreases n - i,
{
    if n > i {
        lemma_stages_err_stable(cs, i, n - 1);
    }
}

/// A message made of `a`, the decimal `n` and `b`.
fn message_num(a: &str, n: u64, b: &str) -> (s: String)
    ensures
        s@ == a@ + decimal(n as nat) + b@,
{
    let mut m: Vec<char> = Vec::new();
    extend_str(&mut m, a);
    push_decimal(&mut m, n);
    extend_str(&mut m, b);
    string_of(m.as_slice())
}

/// Checks the `[[stages]]` entries and turns them into stages.
pub fn process_stages(configs: &[StageConfig]) -> (r: Result<Vec<Stage>, String>)
    ensures
        match stages_spec(configs@) {
            Ok(v) => r matches Ok(o) && o@.len() == v.len() && forall|i: int|
                0 <= i < v.len() ==> stage_of(#[trigger] o@[i], v[i]),
            Err(e) => r matches Err(m) && m@ == e,
        },
{
    let mut stages: Vec<Stage> = Vec::new();
    let mut i: usize = 0;
    while i < configs.len()
        invariant
            i <= configs@.len(),
            stages_error_upto(configs@, i as int) is None,
            stages@.len() == i,
            forall|k: int| 0 <= k < i ==> stage_of(#[trigger] stages@[k], configs@[k]),
        decreases configs@.len() - i,
    {
        let cfg = configs[i];
        if cfg.target.is_some() && cfg.target_rate.is_some() {
            proof {
                lemma_stages_err_stable(configs@, i + 1, configs@.len() as int);
            }
            return Err(message_num("Stage ", i as u64 + 1, " cannot have both 'target' (VUs) and 'target_rate' (RPS)"));
        }
        if cfg.target.is_none() && cfg.target_rate.is_none() {
            proof {
                lemma_stages_err_stable(configs@, i + 1, configs@.len() as int);
            }
            return Err(message_num("Stage ", i as u64 + 1, " must have either 'target' (VUs) or 'target_rate' (RPS)"));
        }
        stages.push(Stage { duration_us: cfg.duration_us, target: cfg.target, target_rate: cfg.target_rate });
        i += 1;
    }
    let mut has_vu = false;
    let mut has_rate = false;
    let mut j: usize = 0;
    while j < configs.len()
        invariant
            j <= configs@.len(),
            has_vu == (exists|k: int| 0 <= k < j && (#[trigger] configs@[k]).target is Some),
            has_rate == (exists|k: int| 0 <= k < j && (#[trigger] configs@[k]).target_rate is Some),
        decreases configs@.len() - j,
    {
        if configs[j].target.is_some() {
            has_vu = true;
        }
        if configs[j].target_rate.is_some() {
            has_rate = true;
        }
        j += 1;
    }
    if has_vu && has_rate {
        return Err(owned("Cannot mix VU-based stages (target) with rate-based stages (target_rate)"));
    }
    Ok(stages)
}

// ---------------------------------------------------------------------------
// Thresholds
// ---------------------------------------------------------------------------

/// A threshold on a metric; the value is kept as the text of the
/// configuration, to be read as a number by the caller.
#[derive(Debug, Clone)]
pub struct Threshold {
    pub metric: ThresholdMetric,
    pub operator: ThresholdOp,
    pub value_text: String,
}

/// The operator at the start of the trimmed text (`<=`, `>=`, `==`, `<`,
/// `>`, tried in that order) and the trimmed rest.
pub open spec fn threshold_split_spec(metric: ThresholdMetric, expr: Seq<char>) -> Result<
    (ThresholdOp, Seq<char>),
    Seq<char>,
> {
    let e = trim_spec(expr);
    if has_prefix(e, "<="@) {
        Ok((ThresholdOp::Lte, trim_spec(e.subrange(2, e.len() as int))))
    } else if has_prefix(e, ">="@) {
        Ok((ThresholdOp::Gte, trim_spec(e.subrange(2, e.len() as int))))
    } else if has_prefix(e, "=="@) {
        Ok((ThresholdOp::Eq, trim_spec(e.subrange(2, e.len() as int))))
    } else if has_prefix(e, "<"@) {
        Ok((ThresholdOp::Lt, trim_spec(e.subrange(1, e.len() as int))))
    } else if has_prefix(e, ">"@) {
        Ok((ThresholdOp::Gt, trim_spec(e.subrange(1, e.len() as int))))
    } else {
        Err("Invalid threshold expression for '"@ + metric_name(metric) + "': '"@ + e
            + "'. Expected format: '< 500' or '>= 100'"@)
    }
}

proof fn lemma_trim_start_after_white(a: Seq<char>, x: Seq<char>)
    requires
        all_white(a),
        x.len() > 0,
        !is_white(x[0]),
    ensures
        trim_start_spec(a + x) == x,
    decreases a.len(),
{
    if a.len() > 0 {
        assert((a + x).drop_first() == a.drop_first() + x);
        lemma_trim_start_after_white(a.drop_first(), x);
    } else {
        assert(a + x == x);
    }
}

proof fn lemma_trim_end_before_white(x: Seq<char>, b: Seq<char>)
    requires
        all_white(b),
        x.len() > 0,
        !is_white(x.last()),
    ensures
        trim_end_spec(x + b) == x,
    decreases b.len(),
{
    if b.len() > 0 {
        assert((x + b).drop_last() == x + b.drop_last());
        lemma_trim_end_before_white(x, b.drop_last());
    } else {
        assert(x + b == x);
    }
}

/// A threshold written as an operator and a number, with any whitespace
/// around either, reads back as that operator and that number: `<= 500` is
/// `<=` and never `<`, and `== 5` is `==`.
pub proof fn lemma_threshold_round_trip(
    metric: ThresholdMetric,
    op: ThresholdOp,
    a: Seq<char>,
    b: Seq<char>,
    v: Seq<char>,
    c: Seq<char>,
)
    requires
        float_syntax(v),
        all_white(a),
        all_white(b),
        all_white(c),
    ensures
        threshold_expr_spec(metric, a + op_symbol(op) + b + v + c) == Ok::<(ThresholdOp, Seq<char>), Seq<char>>(
            (op, v),
        ),
{
    reveal_strlit("<");
    reveal_strlit("<=");
    reveal_strlit(">");
    reveal_strlit(">=");
    reveal_strlit("==");
    lemma_float_text_not_white(v);
    let sym = op_symbol(op);
    let e = sym + b + v;
    assert(a + sym + b + v + c == a + (e + c));
    assert((e + c)[0] == sym[0]);
    lemma_trim_start_after_white(a, e + c);
    assert(e.last() == v.last());
    lemma_trim_end_before_white(e, c);
    assert(trim_spec(a + sym + b + v + c) == e);
    let n = sym.len() as int;
    assert(e.subrange(n, e.len() as int) == b + v);
    lemma_trim_start_after_white(b, v);
    assert(v + Seq::<char>::empty() == v);
    lemma_trim_end_before_white(v, Seq::<char>::empty());
    assert(trim_spec(b + v) == v);
    assert(e.subrange(0, n) == sym);
    if n == 1 {
        assert(e[1] == (b + v)[0]);
        if b.len() > 0 {
            assert(is_white(b[0]));
        }
        assert(e[1] != '=');
        assert(!has_prefix(e, "<="@) && !has_prefix(e, ">="@) && !has_prefix(e, "=="@)) by {
            assert(e.subrange(0, 2)[1] == e[1]);
        }
    } else {
        assert(e.subrange(0, 1) == sym.subrange(0, 1));
    }
    let expr = a + op_symbol(op) + b + v + c;
    match op {
        ThresholdOp::Lt => {
            assert(has_prefix(e, "<"@));
            assert(threshold_split_spec(metric, expr) == Ok::<(ThresholdOp, Seq<char>), Seq<char>>((op, v)));
        },
        ThresholdOp::Gt => {
            assert(!has_prefix(e, "<"@));
            assert(has_prefix(e, ">"@));
            assert(threshold_split_spec(metric, expr) == Ok::<(ThresholdOp, Seq<char>), Seq<char>>((op, v)));
        },
        ThresholdOp::Lte => {
            assert(has_prefix(e, "<="@));
            assert(threshold_split_spec(metric, expr) == Ok::<(ThresholdOp, Seq<char>), Seq<char>>((op, v)));
        },
        ThresholdOp::Gte => {
            assert(!has_prefix(e, "<="@));
            assert(has_prefix(e, ">="@));
            assert(threshold_split_spec(metric, expr) == Ok::<(ThresholdOp, Seq<char>), Seq<char>>((op, v)));
        },
        ThresholdOp::Eq => {
            assert(!has_prefix(e, "<="@));
            assert(!has_prefix(e, ">="@));
            assert(has_prefix(e, "=="@));
            assert(threshold_split_spec(metric, expr) == Ok::<(ThresholdOp, Seq<char>), Seq<char>>((op, v)));
        },
    }
}

/// The message for a threshold value that is not a number.
pub open spec fn threshold_value_message(metric: ThresholdMetric, v: Seq<char>) -> Seq<char> {
    "Invalid threshold value for '"@ + metric_name(metric) + "': '"@ + v + "'. Expected a number."@
}

/// What `parse_threshold_expr` makes of `expr`: its operator and value
/// text (see `threshold_split_spec`), where the value is a number as
/// `f64::from_str` reads one.
pub open spec fn threshold_expr_spec(metric: ThresholdMetric, expr: Seq<char>) -> Result<
    (ThresholdOp, Seq<char>),
    Seq<char>,
> {
    match threshold_split_spec(metric, expr) {
        Err(e) => Err(e),
        Ok((op, v)) => if float_syntax(v) {
            Ok((op, v))
        } else {
            Err(threshold_value_message(metric, v))
        },
    }
}

/// Splits a threshold expression into its operator and value text, and
/// checks that the value is a number.
pub fn parse_threshold_expr(metric: ThresholdMetric, expr: &str) -> (r: Result<Threshold, String>)
    ensures
        match threshold_expr_spec(metric, expr@) {
            Ok(v) => r matches Ok(t) && t.metric == metric && t.operator == v.0 && t.value_text@
                == v.1,
            Err(e) => r matches Err(m) && m@ == e,
        },
{
    proof {
        reveal_strlit("<=");
        reveal_strlit(">=");
        reveal_strlit("==");
        reveal_strlit("<");
        reveal_strlit(">");
    }
    let e = crate::text::trim_str(expr);
    let n = e.len();
    let (op, skip): (ThresholdOp, usize) = if starts_with_str(e.as_slice(), "<=") {
        (ThresholdOp::Lte, 2)
    } else if starts_with_str(e.as_slice(), ">=") {
        (ThresholdOp::Gte, 2)
    } else if starts_with_str(e.as_slice(), "==") {
        (ThresholdOp::Eq, 2)
    } else if starts_with_str(e.as_slice(), "<") {
        (ThresholdOp::Lt, 1)
    } else if starts_with_str(e.as_slice(), ">") {
        (ThresholdOp::Gt, 1)
    } else {
        let name = chars_of(metric.as_str());
        let mut m: Vec<char> = Vec::new();
        extend_str(&mut m, "Invalid threshold expression for '");
        extend_chars(&mut m, name.as_slice());
        extend_str(&mut m, "': '");
        extend_chars(&mut m, e.as_slice());
        extend_str(&mut m, "'. Expected format: '< 500' or '>= 100'");
        return Err(string_of(m.as_slice()));
    };
    let rest = slice_chars(e.as_slice(), skip, n);
    let v = trim(rest.as_slice());
    let value_text = string_of(v.as_slice());
    if !is_float_text(v.as_slice()) {
        return Err(threshold_value_error(metric, value_text.as_str()));
    }
    Ok(Threshold { metric, operator: op, value_text })
}

/// The message for a threshold value that is not a number.
pub fn threshold_value_error(metric: ThresholdMetric, value_text: &str) -> (s: String)
    ensures
        s@ == "Invalid threshold value for '"@ + metric_name(metric) + "': '"@ + value_text@
            + "'. Expected a number."@,
{
    let mut m: Vec<char> = Vec::new();
    extend_str(&mut m, "Invalid threshold value for '");
    extend_str(&mut m, metric.as_str());
    extend_str(&mut m, "': '");
    extend_str(&mut m, value_text);
    extend_str(&mut m, "'. Expected a number.");
    string_of(m.as_slice())
}

/// The entries of the `[thresholds]` section, in the order they are read.
pub open spec fn threshold_entries(c: ThresholdsConfig) -> Seq<(ThresholdMetric, Option<String>)> {
    seq![
        (ThresholdMetric::P50LatencyMs, c.p50_latency_ms),
        (ThresholdMetric::P75LatencyMs, c.p75_latency_ms),
        (ThresholdMetric::P90LatencyMs, c.p90_latency_ms),
        (ThresholdMetric::P95LatencyMs, c.p95_latency_ms),
        (ThresholdMetric::P99LatencyMs, c.p99_latency_ms),
        (ThresholdMetric::P999LatencyMs, c.p999_latency_ms),
        (ThresholdMetric::MeanLatencyMs, c.mean_latency_ms),
        (ThresholdMetric::MaxLatencyMs, c.max_latency_ms),
        (ThresholdMetric::ErrorRate, c.error_rate),
        (ThresholdMetric::Rps, c.rps),
        (ThresholdMetric::CheckPassRate, c.check_pass_rate),
    ]
}

/// The abstract value of a threshold.
pub open spec fn threshold_view(t: Threshold) -> (ThresholdMetric, ThresholdOp, Seq<char>) {
    (t.metric, t.operator, t.value_text@)
}

/// The thresholds of the first `n` entries, or the first error.
pub open spec fn thresholds_upto(es: Seq<(ThresholdMetric, Option<String>)>, n: int) -> Result<
    Seq<(ThresholdMetric, ThresholdOp, Seq<char>)>,
    Seq<char>,
>
    decreases n,
{
    if n <= 0 {
        Ok(Seq::empty())
    } else {
        match thresholds_upto(es, n - 1) {
            Err(e) => Err(e),
            Ok(v) => match es[n - 1].1 {
                None => Ok(v),
                Some(x) => match threshold_expr_spec(es[n - 1].0, x@) {
                    Err(e) => Err(e),
                    Ok(p) => Ok(v.push((es[n - 1].0, p.0, p.1))),
                },
            },
        }
    }
}

proof fn lemma_thresholds_err_stable(es: Seq<(ThresholdMetric, Option<String>)>, i: int, n: int)
    requires
        0 <= i <= n,
        thresholds_upto(es, i) is Err,
    ensures
        thresholds_upto(es, n) == thresholds_upto(es, i),
    decreases n - i,
{
    if n > i {
        lemma_thresholds_err_stable(es, i, n - 1);
    }
}

/// What `parse_thresholds` returns.
pub open spec fn thresholds_spec(c: ThresholdsConfig) -> Result<Seq<(ThresholdMetric, ThresholdOp, Seq<char>)>, Seq<char>> {
    thresholds_upto(threshold_entries(c), 11)
}

/// Parses every threshold that the section sets, in metric order.
pub fn parse_thresholds(config: &ThresholdsConfig) -> (r: Result<Vec<Threshold>, String>)
    ensures
        match thresholds_spec(*config) {
            Ok(v) => r matches Ok(o) && o@.len() == v.len() && forall|i: int|
                0 <= i < v.len() ==> threshold_view(#[trigger] o@[i]) == v[i],
            Err(e) => r matches Err(m) && m@ == e,
        },
{
    let entries: Vec<(ThresholdMetric, &Option<String>)> = vec![
        (ThresholdMetric::P50LatencyMs, &config.p50_latency_ms),
        (ThresholdMetric::P75LatencyMs, &config.p75_latency_ms),
        (ThresholdMetric::P90LatencyMs, &config.p90_latency_ms),
        (ThresholdMetric::P95LatencyMs, &config.p95_latency_ms),
        (ThresholdMetric::P99LatencyMs, &config.p99_latency_ms),
        (ThresholdMetric::P999LatencyMs, &config.p999_latency_ms),
        (ThresholdMetric::MeanLatencyMs, &config.mean_latency_ms),
        (ThresholdMetric::MaxLatencyMs, &config.max_latency_ms),
        (ThresholdMetric::ErrorRate, &config.error_rate),
        (ThresholdMetric::Rps, &config.rps),
        (ThresholdMetric::CheckPassRate, &config.check_pass_rate),
    ];
    let ghost es = threshold_entries(*config);
    assert(entries@.len() == 11);
    assert(forall|k: int| 0 <= k < 11 ==> #[trigger] entries@[k].0 == es[k].0 && *entries@[k].1 == es[k].1);
    let mut out: Vec<Threshold> = Vec::new();
    let mut i: usize = 0;
    while i < entries.len()
        invariant
            i <= 11,
            entries@.len() == 11,
            es == threshold_entries(*config),
            forall|k: int| 0 <= k < 11 ==> #[trigger] entries@[k].0 == es[k].0 && *entries@[k].1 == es[k].1,
            thresholds_upto(es, i as int) matches Ok(v) && out@.len() == v.len() && forall|k: int|
                0 <= k < v.len() ==> threshold_view(#[trigger] out@[k]) == v[k],
        decreases 11 - i,
    {
        let (metric, value) = entries[i];
        match value {
            None => {},
            Some(expr) => {
                match parse_threshold_expr(metric, expr.as_str()) {
                    Ok(t) => {
                        out.push(t);
                    },
                    Err(e) => {
                        proof {
                            lemma_thresholds_err_stable(es, i + 1, 11);
                        }
                        return Err(e);
                    },
                }
            },
        }
        i += 1;
    }
    Ok(out)
}

// ---------------------------------------------------------------------------
// Checks
// ---------------------------------------------------------------------------

/// The checks of the first `n` entries, or the error of the first entry
/// whose condition does not parse, prefixed with its name.
pub open spec fn checks_upto(cs: Seq<CheckConfig>, n: int) -> Result<Seq<(Seq<char>, CondSpec)>, Seq<char>>
    decreases n,
{
    if n <= 0 {
        Ok(Seq::empty())
    } else {
        match checks_upto(cs, n - 1) {
            Err(e) => Err(e),
            Ok(v) => match condition_spec(cs[n - 1].condition@) {
                Err(e) => Err("Invalid check condition for '"@ + cs[n - 1].name@ + "': "@ + e),
                Ok(c) => Ok(v.push((cs[n - 1].name@, c))),
            },
        }
    }
}

proof fn lemma_checks_err_stable(cs: Seq<CheckConfig>, i: int, n: int)
    requires
        0 <= i <= n,
        checks_upto(cs, i) is Err,
    ensures
        checks_upto(cs, n) == checks_upto(cs, i),
    decreases n - i,
{
    if n > i {
        lemma_checks_err_stable(cs, i, n - 1);
    }
}

/// Every check condition that parsing reaches is safe to parse: parsing
/// stops at the first condition that does not parse, so only the
/// conditions up to it are read.
pub open spec fn checks_safe_in_order(cs: Seq<CheckConfig>) -> bool {
    forall|i: int| 0 <= i < cs.len() && checks_upto(cs, i) is Ok ==> !condition_panics(#[trigger] cs[i].condition@)
}

/// Whether every check condition that parsing reaches is safe to parse.
pub fn checks_reached_safely(configs: &[CheckConfig]) -> (b: bool)
    ensures
        b == checks_safe_in_order(configs@),
{
    let mut i: usize = 0;
    while i < configs.len()
        invariant
            i <= configs@.len(),
            checks_upto(configs@, i as int) is Ok,
            forall|j: int| 0 <= j < i && checks_upto(configs@, j) is Ok ==> !condition_panics(#[trigger] configs@[j].condition@),
        decreases configs@.len() - i,
    {
        let cfg = &configs[i];
        if !condition_is_safe(cfg.condition.as_str()) {
            return false;
        }
        let cond_chars = chars_of(cfg.condition.as_str());
        match parse_check_condition(cond_chars.as_slice()) {
            Ok(_) => {},
            Err(_) => {
                proof {
                    assert forall|j: int| 0 <= j < configs@.len() && checks_upto(configs@, j) is Ok implies !condition_panics(
                        #[trigger] configs@[j].condition@,
                    ) by {
                        if j > i {
                            lemma_checks_err_stable(configs@, i + 1, j);
                        }
                    }
                }
                return true;
            },
        }
        i += 1;
    }
    true
}

proof fn lemma_checks_len(cs: Seq<CheckConfig>, n: int)
    requires
        0 <= n,
        checks_upto(cs, n) is Ok,
    ensures
        checks_upto(cs, n)->Ok_0.len() == n,
    decreases n,
{
    if n > 0 {
        lemma_checks_len(cs, n - 1);
    }
}

/// The abstract value of a check.
pub open spec fn check_view(c: Check) -> (Seq<char>, CondSpec) {
    (c.name@, cond_view(c.condition))
}

/// Parses the condition of every check entry.
pub fn parse_checks(configs: &[CheckConfig]) -> (r: Result<Vec<Check>, String>)
    requires
        checks_safe_in_order(configs@),
    ensures
        match checks_upto(configs@, configs@.len() as int) {
            Ok(v) => r matches Ok(o) && o@.len() == v.len() && forall|i: int|
                0 <= i < v.len() ==> check_view(#[trigger] o@[i]) == v[i],
            Err(e) => r matches Err(m) && m@ == e,
        },
{
    let mut out: Vec<Check> = Vec::new();
    let mut i: usize = 0;
    while i < configs.len()
        invariant
            i <= configs@.len(),
            checks_safe_in_order(configs@),
            checks_upto(configs@, i as int) matches Ok(v) && out@.len() == v.len() && forall|k: int|
                0 <= k < v.len() ==> check_view(#[trigger] out@[k]) == v[k],
        decreases configs@.len() - i,
    {
        let cfg = &configs[i];
        assert(!condition_panics(configs@[i as int].condition@));
        let cond_chars = chars_of(cfg.condition.as_str());
        match parse_check_condition(cond_chars.as_slice()) {
            Ok(condition) => {
                out.push(Check { name: owned(cfg.name.as_str()), condition });
            },
            Err(e) => {
                let ec = chars_of(e.as_str());
                let nc = chars_of(cfg.name.as_str());
                let mut m: Vec<char> = Vec::new();
                extend_str(&mut m, "Invalid check condition for '");
                extend_chars(&mut m, nc.as_slice());
                extend_str(&mut m, "': ");
                extend_chars(&mut m, ec.as_slice());
                proof {
                    lemma_checks_err_stable(configs@, i + 1, configs@.len() as int);
                }
                return Err(string_of(m.as_slice()));
            },
        }
        i += 1;
    }
    Ok(out)
}

// ---------------------------------------------------------------------------
// Scenarios
// ---------------------------------------------------------------------------

/// One request of a scenario mix, with its share of the traffic.
#[derive(Debug, Clone)]
pub struct Scenario {
    pub name: String,
    pub url: String,
    pub method: String,
    pub headers: Vec<(String, String)>,
    pub body: Option<String>,
    pub weight: u32,
    pub extractions: Vec<Extraction>,
    pub depends_on: Option<String>,
    pub tags: Vec<(String, String)>,
}

/// The abstract value of a scenario.
pub struct ScenarioView {
    pub name: Seq<char>,
    pub url: Seq<char>,
    pub method: Seq<char>,
    pub headers: Seq<(Seq<char>, Seq<char>)>,
    pub body: Option<Seq<char>>,
    pub weight: u32,
    pub extractions: Seq<(Seq<char>, SourceSpec)>,
    pub depends_on: Option<Seq<char>>,
    pub tags: Seq<(Seq<char>, Seq<char>)>,
}

/// The abstract value of `s`.
pub open spec fn scenario_view(s: Scenario) -> ScenarioView {
    ScenarioView {
        name: s.name@,
        url: s.url@,
        method: s.method@,
        headers: pairs_view(s.headers@),
        body: opt_view(s.body),
        weight: s.weight,
        extractions: Seq::new(
            s.extractions@.len(),
            |i: int| (s.extractions@[i].name@, source_view(s.extractions@[i].source)),
        ),
        depends_on: opt_view(s.depends_on),
        tags: pairs_view(s.tags@),
    }
}

/// The name of scenario `i` (from zero): its own, or `scenario_N` with N
/// counted from one.
pub open spec fn scenario_name(i: nat, c: ScenarioConfig) -> Seq<char> {
    match c.name {
        Some(n) => n@,
        None => "scenario_"@ + decimal(i + 1),
    }
}

/// The extractions of the first `n` entries of a scenario named `name`, or
/// the error of the first source that does not parse.
pub open spec fn extractions_upto(name: Seq<char>, ex: Seq<(String, String)>, n: int) -> Result<
    Seq<(Seq<char>, SourceSpec)>,
    Seq<char>,
>
    decreases n,
{
    if n <= 0 {
        Ok(Seq::empty())
    } else {
        match extractions_upto(name, ex, n - 1) {
            Err(e) => Err(e),
            Ok(v) => match parse_source_spec(ex[n - 1].1@) {
                None => Err("Invalid extraction in '"@ + name + "': "@ + source_error(ex[n - 1].1@)),
                Some(src) => Ok(v.push((ex[n - 1].0@, src))),
            },
        }
    }
}

proof fn lemma_extractions_err_stable(name: Seq<char>, ex: Seq<(String, String)>, i: int, n: int)
    requires
        0 <= i <= n,
        extractions_upto(name, ex, i) is Err,
    ensures
        extractions_upto(name, ex, n) == extractions_upto(name, ex, i),
    decreases n - i,
{
    if n > i {
        lemma_extractions_err_stable(name, ex, i, n - 1);
    }
}

/// What scenario entry `i` becomes: its method uppercased and checked, its
/// body read from its body file when it names one, its extraction sources
/// parsed.
pub open spec fn scenario_spec(i: nat, c: ScenarioConfig, files: Seq<ProbedFile>) -> Result<ScenarioView, Seq<char>> {
    let name = scenario_name(i, c);
    match method_spec(c.method@) {
        None => Err("Invalid HTTP method in scenario '"@ + name + "': "@ + c.method@),
        Some(m) => {
            let body: Result<Option<Seq<char>>, Seq<char>> = match c.body_file {
                Some(p) => match file_text(files, p@) {
                    Ok(t) => Ok(Some(t)),
                    Err(e) => Err("Failed to read body file for '"@ + name + "': "@ + e),
                },
                None => Ok(opt_view(c.body)),
            };
            match body {
                Err(e) => Err(e),
                Ok(b) => match extractions_upto(name, c.extract@, c.extract@.len() as int) {
                    Err(e) => Err(e),
                    Ok(ex) => Ok(ScenarioView {
                        name,
                        url: c.url@,
                        method: m,
                        headers: pairs_view(c.headers@),
                        body: b,
                        weight: c.weight,
                        extractions: ex,
                        depends_on: opt_view(c.depends_on),
                        tags: pairs_view(c.tags@),
                    }),
                },
            }
        },
    }
}

/// The scenarios of the first `n` entries, or the first error.
pub open spec fn scenarios_upto(cs: Seq<ScenarioConfig>, files: Seq<ProbedFile>, n: int) -> Result<Seq<ScenarioView>, Seq<char>>
    decreases n,
{
    if n <= 0 {
        Ok(Seq::empty())
    } else {
        match scenarios_upto(cs, files, n - 1) {
            Err(e) => Err(e),
            Ok(v) => match scenario_spec((n - 1) as nat, cs[n - 1], files) {
                Err(e) => Err(e),
                Ok(sc) => Ok(v.push(sc)),
            },
        }
    }
}

proof fn lemma_scenarios_err_stable(cs: Seq<ScenarioConfig>, files: Seq<ProbedFile>, i: int, n: int)
    requires
        0 <= i <= n,
        scenarios_upto(cs, files, i) is Err,
    ensures
        scenarios_upto(cs, files, n) == scenarios_upto(cs, files, i),
    decreases n - i,
{
    if n > i {
        lemma_scenarios_err_stable(cs, files, i, n - 1);
    }
}

proof fn lemma_scenarios_len(cs: Seq<ScenarioConfig>, files: Seq<ProbedFile>, n: int)
    requires
        0 <= n,
        scenarios_upto(cs, files, n) is Ok,
    ensures
        scenarios_upto(cs, files, n)->Ok_0.len() == n,
    decreases n,
{
    if n > 0 {
        lemma_scenarios_len(cs, files, n - 1);
    }
}

/// A copy of a list of string pairs.
pub(crate) fn copy_pairs(v: &Vec<(String, String)>) -> (out: Vec<(String, String)>)
    ensures
        pairs_view(out@) == pairs_view(v@),
{
    let mut out: Vec<(String, String)> = Vec::new();
    let mut i: usize = 0;
    while i < v.len()
        invariant
            i <= v@.len(),
            out@.len() == i,
            forall|k: int| 0 <= k < i ==> (#[trigger] out@[k]).0@ == v@[k].0@ && out@[k].1@ == v@[k].1@,
        decreases v@.len() - i,
    {
        out.push((owned(v[i].0.as_str()), owned(v[i].1.as_str())));
        i += 1;
    }
    assert(pairs_view(out@) =~= pairs_view(v@));
    out
}

/// A copy of an optional string.
fn copy_opt(o: &Option<String>) -> (out: Option<String>)
    ensures
        opt_view(out) == opt_view(*o),
{
    match o {
        Some(s) => Some(owned(s.as_str())),
        None => None,
    }
}

/// Parses the extraction sources of a scenario named `name`.
fn parse_extractions(name: &String, extract: &Vec<(String, String)>) -> (r: Result<Vec<Extraction>, String>)
    ensures
        match extractions_upto(name@, extract@, extract@.len() as int) {
            Ok(v) => r matches Ok(o) && v == Seq::new(
                o@.len(),
                |j: int| (o@[j].name@, source_view(o@[j].source)),
            ),
            Err(e) => r matches Err(m) && m@ == e,
        },
{
    let ghost ex = extract@;
    let mut extractions: Vec<Extraction> = Vec::new();
    let mut k: usize = 0;
    while k < extract.len()
        invariant
            k <= ex.len(),
            ex == extract@,
            extractions_upto(name@, ex, k as int) matches Ok(v) && v == Seq::new(
                extractions@.len(),
                |j: int| (extractions@[j].name@, source_view(extractions@[j].source)),
            ),
        decreases ex.len() - k,
    {
        let (var_name, source_str) = &extract[k];
        match ExtractionSource::parse(source_str.as_str()) {
            Ok(source) => {
                let ghost before = extractions@;
                extractions.push(Extraction { name: owned(var_name.as_str()), source });
                assert(Seq::new(
                    extractions@.len(),
                    |j: int| (extractions@[j].name@, source_view(extractions@[j].source)),
                ) =~= Seq::new(
                    before.len(),
                    |j: int| (before[j].name@, source_view(before[j].source)),
                ).push((var_name@, source_view(source))));
            },
            Err(e) => {
                proof {
                    assert(ex[k as int].1@ == source_str@);
                    assert(parse_source_spec(source_str@) is None);
                    assert(extractions_upto(name@, ex, k + 1) is Err);
                    lemma_extractions_err_stable(name@, ex, k + 1, ex.len() as int);
                }
                let mut m: Vec<char> = Vec::new();
                extend_str(&mut m, "Invalid extraction in '");
                extend_str(&mut m, name.as_str());
                extend_str(&mut m, "': ");
                extend_str(&mut m, e.as_str());
                return Err(string_of(m.as_slice()));
            },
        }
        k += 1;
    }
    Ok(extractions)
}

/// Builds one scenario from its entry.
fn process_scenario(i: usize, cfg: &ScenarioConfig, files: &[ProbedFile]) -> (r: Result<Scenario, String>)
    requires
        i < usize::MAX,
    ensures
        match scenario_spec(i as nat, *cfg, files@) {
            Ok(v) => r matches Ok(sc) && scenario_view(sc) == v,
            Err(e) => r matches Err(m) && m@ == e,
        },
{
    proof {
        reveal_strlit("");
        assert(""@ =~= Seq::<char>::empty());
    }
    let name: String = match &cfg.name {
        Some(n) => owned(n.as_str()),
        None => message_num("scenario_", (i + 1) as u64, ""),
    };
    assert(name@ == scenario_name(i as nat, *cfg));
    let method = match normalize_method(cfg.method.as_str()) {
        Some(m) => m,
        None => {
            let mut m: Vec<char> = Vec::new();
            extend_str(&mut m, "Invalid HTTP method in scenario '");
            extend_str(&mut m, name.as_str());
            extend_str(&mut m, "': ");
            extend_str(&mut m, cfg.method.as_str());
            return Err(string_of(m.as_slice()));
        },
    };
    let body: Option<String> = match &cfg.body_file {
        Some(p) => match read_text(files, p.as_str()) {
            Ok(t) => Some(t),
            Err(e) => {
                let mut m: Vec<char> = Vec::new();
                extend_str(&mut m, "Failed to read body file for '");
                extend_str(&mut m, name.as_str());
                extend_str(&mut m, "': ");
                extend_str(&mut m, e.as_str());
                return Err(string_of(m.as_slice()));
            },
        },
        None => copy_opt(&cfg.body),
    };
    let extractions = match parse_extractions(&name, &cfg.extract) {
        Ok(v) => v,
        Err(e) => {
            return Err(e);
        },
    };
    Ok(Scenario {
        name,
        url: owned(cfg.url.as_str()),
        method,
        headers: copy_pairs(&cfg.headers),
        body,
        weight: cfg.weight,
        extractions,
        depends_on: copy_opt(&cfg.depends_on),
        tags: copy_pairs(&cfg.tags),
    })
}

/// Builds the scenarios of the configuration, in order.
pub fn process_scenarios(configs: &[ScenarioConfig], files: &[ProbedFile]) -> (r: Result<Vec<Scenario>, String>)
    ensures
        match scenarios_upto(configs@, files@, configs@.len() as int) {
            Ok(v) => r matches Ok(o) && o@.len() == v.len() && forall|i: int|
                0 <= i < v.len() ==> scenario_view(#[trigger] o@[i]) == v[i],
            Err(e) => r matches Err(m) && m@ == e,
        },
{
    let mut out: Vec<Scenario> = Vec::new();
    let mut i: usize = 0;
    while i < configs.len()
        invariant
            i <= configs@.len(),
            scenarios_upto(configs@, files@, i as int) matches Ok(v) && out@.len() == v.len()
                && forall|k: int| 0 <= k < v.len() ==> scenario_view(#[trigger] out@[k]) == v[k],
        decreases configs@.len() - i,
    {
        match process_scenario(i, &configs[i], files) {
            Ok(sc) => {
                out.push(sc);
            },
            Err(e) => {
                proof {
                    lemma_scenarios_err_stable(configs@, files@, i + 1, configs@.len() as int);
                }
                return Err(e);
            },
        }
        i += 1;
    }
    Ok(out)
}

// ---------------------------------------------------------------------------
// The merged configuration
// ---------------------------------------------------------------------------

/// How WebSocket messages are exchanged.
#[derive(Debug, Clone, Copy, PartialEq, Eq, Structural)]
pub enum WsMode {
    Echo,
    FireAndForget,
}

/// Requests sent together, then a pause.
#[derive(Debug, Clone, Copy)]
pub struct BurstConfig {
    pub requests_per_burst: u32,
    pub delay_between_bursts_us: u64,
}

/// Everything a run needs, after the arguments and the file are merged.
#[derive(Debug, Clone)]
pub struct LoadConfig {
    pub url: String,
    pub method: String,
    pub headers: Vec<(String, String)>,
    pub body: Option<String>,
    pub scenarios: Vec<Scenario>,
    pub concurrency: u32,
    pub duration_us: u64,
    pub max_requests: u64,
    pub rate: u32,
    pub ramp_up_us: u64,
    pub warmup_us: u64,
    pub timeout_us: u64,
    pub connect_timeout_us: u64,
    pub insecure: bool,
    pub http2: bool,
    pub http3: bool,
    pub grpc_service: Option<String>,
    pub grpc_method: Option<String>,
    pub body_bytes: Option<Vec<u8>>,
    pub cookie_jar: bool,
    pub follow_redirects: bool,
    pub disable_keepalive: bool,
    pub thresholds: Vec<Threshold>,
    pub checks: Vec<Check>,
    pub stages: Vec<Stage>,
    pub think_time_us: Option<u64>,
    pub fail_fast: bool,
    pub arrival_rate: Option<u32>,
    pub max_vus: Option<u32>,
    pub latency_correction: bool,
    pub ws_mode: WsMode,
    pub ws_message_interval_us: u64,
    pub proxy: Option<String>,
    pub basic_auth: Option<(String, Option<String>)>,
    pub client_cert: Option<String>,
    pub client_key: Option<String>,
    pub ca_cert: Option<String>,
    pub rand_regex_url: Option<String>,
    pub url_list: Option<Vec<String>>,
    pub body_lines: Option<Vec<String>>,
    pub connect_to: Option<(String, String)>,
    pub burst_config: Option<BurstConfig>,
    pub db_url: Option<String>,
}

/// `a`, or `b` when `a` is absent.
pub open spec fn or_else<T>(a: Option<T>, b: Option<T>) -> Option<T> {
    if a is Some {
        a
    } else {
        b
    }
}

/// The first line of the file at `p`, if it reads and has one.
pub open spec fn first_line(files: Seq<ProbedFile>, p: Seq<char>) -> Option<Seq<char>> {
    match file_text(files, p) {
        Ok(t) => if lines_spec(t).len() > 0 {
            Some(lines_spec(t)[0])
        } else {
            None
        },
        Err(_) => None,
    }
}

/// The first line of the file at an optional path.
pub open spec fn first_line_of(files: Seq<ProbedFile>, p: Option<Seq<char>>) -> Option<Seq<char>> {
    match p {
        Some(q) => first_line(files, q),
        None => None,
    }
}

/// The message for a run without any URL.
pub open spec fn url_missing(with_scenarios: bool) -> Seq<char> {
    if with_scenarios {
        "URL is required in [target] section even when using [[scenarios]].\nThe target URL is used as a fallback and for metadata.\nAdd: [target]\n      url = \"https://your-api.com\""@
    } else {
        "URL is required. Provide via argument, --rand-regex-url, --urls-from-file, or [target] section in config file."@
    }
}

/// The URL of the run: the argument, then the random-URL pattern, then the
/// first line of the URL file, then the same three from the file.
pub open spec fn url_spec(a: RunArgs, tv: TomlView, files: Seq<ProbedFile>) -> Result<Seq<char>, Seq<char>> {
    let candidate = or_else(
        opt_view(a.url),
        or_else(
            opt_view(a.rand_regex_url),
            or_else(
                first_line_of(files, opt_view(a.urls_from_file)),
                or_else(tv.url, or_else(tv.rand_regex_url, first_line_of(files, tv.urls_from_file))),
            ),
        ),
    );
    match candidate {
        Some(u) => Ok(u),
        None => Err(url_missing(tv.scenarios.len() > 0)),
    }
}

/// The method text: the argument when it is not the default `GET`, else
/// the file's, else `GET`.
pub open spec fn method_text(a: RunArgs, tv: TomlView) -> Seq<char> {
    if a.method@ != "GET"@ {
        a.method@
    } else {
        match tv.method {
            Some(m) => m,
            None => "GET"@,
        }
    }
}

/// Whether a header named `k` (in any ASCII case) is in `v`.
pub open spec fn has_header(v: Seq<(Seq<char>, Seq<char>)>, k: Seq<char>) -> bool {
    exists|j: int| 0 <= j < v.len() && crate::text::eq_ignore_ascii_case_spec(#[trigger] v[j].0, k)
}

/// `base` with the first `n` headers of `extra` added, each unless a header
/// of the same name is there already.
pub open spec fn merge_headers_upto(
    base: Seq<(Seq<char>, Seq<char>)>,
    extra: Seq<(Seq<char>, Seq<char>)>,
    n: int,
) -> Seq<(Seq<char>, Seq<char>)>
    decreases n,
{
    if n <= 0 {
        base
    } else {
        let acc = merge_headers_upto(base, extra, n - 1);
        if has_header(acc, extra[n - 1].0) {
            acc
        } else {
            acc.push(extra[n - 1])
        }
    }
}

/// The headers of the run: those of the arguments, then those of the file
/// whose names the arguments do not set.
pub open spec fn headers_spec(a: RunArgs, tv: TomlView) -> Result<Seq<(Seq<char>, Seq<char>)>, Seq<char>> {
    match headers_upto(a.headers@, a.headers@.len() as int) {
        Err(e) => Err(e),
        Ok(v) => Ok(merge_headers_upto(v, tv.headers, tv.headers.len() as int)),
    }
}

/// Whether the arguments name a gRPC service.
pub open spec fn grpc_on(a: RunArgs) -> bool {
    a.grpc_service matches Some(s) && s@.len() > 0
}

/// Whether the arguments name a gRPC method.
pub open spec fn grpc_method_on(a: RunArgs) -> bool {
    a.grpc_method matches Some(s) && s@.len() > 0
}

/// The message for a body file that could not be read.
pub open spec fn body_read_error(p: Seq<char>, e: Seq<char>) -> Seq<char> {
    "Failed to read body file '"@ + p + "': "@ + e
}

/// The text of the file at `p`, or the body-file read error.
pub open spec fn body_from_file(files: Seq<ProbedFile>, p: Seq<char>) -> Result<Option<Seq<char>>, Seq<char>> {
    match file_text(files, p) {
        Ok(t) => Ok(Some(t)),
        Err(e) => Err(body_read_error(p, e)),
    }
}

/// The body of the run. In gRPC mode with a body file the text body is only
/// taken from the inline bodies; otherwise the argument's body file, then
/// the argument's body, then the file's body file, then the file's body.
pub open spec fn body_spec(a: RunArgs, tv: TomlView, files: Seq<ProbedFile>) -> Result<Option<Seq<char>>, Seq<char>> {
    if grpc_on(a) && (a.body_file is Some || tv.body_file is Some) {
        Ok(or_else(opt_view(a.body), tv.body))
    } else if a.body_file is Some {
        body_from_file(files, a.body_file->Some_0@)
    } else if a.body is Some {
        Ok(opt_view(a.body))
    } else if tv.body_file is Some {
        body_from_file(files, tv.body_file->Some_0)
    } else {
        Ok(tv.body)
    }
}

/// The bytes of the file at `p`, or the body-file read error.
pub open spec fn bytes_from_file(files: Seq<ProbedFile>, p: Seq<char>) -> Result<Option<Seq<u8>>, Seq<char>> {
    match file_bytes(files, p) {
        Ok(b) => Ok(Some(b)),
        Err(e) => Err(body_read_error(p, e)),
    }
}

/// The raw body of a gRPC run, in the same order of sources as the text
/// body; none outside gRPC mode.
pub open spec fn body_bytes_spec(a: RunArgs, tv: TomlView, files: Seq<ProbedFile>) -> Result<Option<Seq<u8>>, Seq<char>> {
    if !grpc_on(a) {
        Ok(None)
    } else if a.body_file is Some {
        bytes_from_file(files, a.body_file->Some_0@)
    } else if a.body is Some {
        Ok(Some(vstd::utf8::encode_utf8(a.body->Some_0@)))
    } else if tv.body_file is Some {
        bytes_from_file(files, tv.body_file->Some_0)
    } else {
        match tv.body {
            Some(b) => Ok(Some(vstd::utf8::encode_utf8(b))),
            None => Ok(None),
        }
    }
}

/// The first failed rule of the gRPC options.
pub open spec fn grpc_error(a: RunArgs, tv: TomlView) -> Option<Seq<char>> {
    if grpc_on(a) != grpc_method_on(a) {
        Some("Both --grpc-service and --grpc-method must be provided together"@)
    } else if a.grpc_service matches Some(s) && s@.len() == 0 {
        Some("--grpc-service cannot be empty"@)
    } else if grpc_on(a) && (a.insecure || tv.insecure) {
        Some(
            "--insecure is not supported for gRPC. Use http:// URL for unencrypted connections."@,
        )
    } else {
        None
    }
}

/// The arrival rate of the run: the argument's, else the file's.
pub open spec fn arrival_spec(a: RunArgs, tv: TomlView) -> Option<u32> {
    or_else(a.arrival_rate, tv.arrival_rate)
}

/// The credentials of an optional `user:password` text.
pub open spec fn auth_of(s: Option<Seq<char>>) -> Result<Option<(Seq<char>, Option<Seq<char>>)>, Seq<char>> {
    match s {
        Some(t) => match basic_auth_spec(t) {
            Ok(v) => Ok(Some(v)),
            Err(e) => Err(e),
        },
        None => Ok(None),
    }
}

/// The credentials of the run: the argument's, else the file's.
pub open spec fn auth_spec(a: RunArgs, tv: TomlView) -> Result<Option<(Seq<char>, Option<Seq<char>>)>, Seq<char>> {
    if a.basic_auth is Some {
        auth_of(opt_view(a.basic_auth))
    } else {
        auth_of(tv.basic_auth)
    }
}

/// The client certificate, key and CA certificate of the run.
pub open spec fn cert_paths(a: RunArgs, tv: TomlView) -> (Option<Seq<char>>, Option<Seq<char>>, Option<Seq<char>>) {
    (or_else(opt_view(a.cert), tv.cert), or_else(opt_view(a.key), tv.key), or_else(opt_view(a.cacert), tv.cacert))
}

/// The first failed rule of the TLS files: certificate and key come
/// together, and every named file exists.
pub open spec fn certs_error(a: RunArgs, tv: TomlView, files: Seq<ProbedFile>) -> Option<Seq<char>> {
    let (c, k, ca) = cert_paths(a, tv);
    if c.is_some() != k.is_some() {
        Some("--cert and --key must be specified together for mTLS"@)
    } else if c matches Some(p) && !file_exists(files, p) {
        Some("Client certificate file not found: "@ + c->Some_0)
    } else if k matches Some(p) && !file_exists(files, p) {
        Some("Client key file not found: "@ + k->Some_0)
    } else if ca matches Some(p) && !file_exists(files, p) {
        Some("CA certificate file not found: "@ + ca->Some_0)
    } else {
        None
    }
}

/// The lines of a URL file that are URLs: trimmed, without blank lines
/// and `#` comments.
pub open spec fn url_lines(ls: Seq<Seq<char>>) -> Seq<Seq<char>>
    decreases ls.len(),
{
    if ls.len() == 0 {
        Seq::empty()
    } else {
        let rest = url_lines(ls.drop_last());
        let t = trim_spec(ls.last());
        if t.len() > 0 && t[0] != '#' {
            rest.push(t)
        } else {
            rest
        }
    }
}

/// The URLs of the file at `p`.
pub open spec fn urls_from(files: Seq<ProbedFile>, p: Seq<char>) -> Result<Seq<Seq<char>>, Seq<char>> {
    match file_text(files, p) {
        Err(e) => Err("Failed to read URLs file '"@ + p + "': "@ + e),
        Ok(t) => if url_lines(lines_spec(t)).len() == 0 {
            Err("URLs file '"@ + p + "' is empty"@)
        } else {
            Ok(url_lines(lines_spec(t)))
        },
    }
}

/// The URL list of the run: from the argument's URL file, else the file's.
pub open spec fn url_list_spec(a: RunArgs, tv: TomlView, files: Seq<ProbedFile>) -> Result<Option<Seq<Seq<char>>>, Seq<char>> {
    let p = or_else(opt_view(a.urls_from_file), tv.urls_from_file);
    match p {
        Some(q) => match urls_from(files, q) {
            Ok(v) => Ok(Some(v)),
            Err(e) => Err(e),
        },
        None => Ok(None),
    }
}

/// The lines of the file at `p`, one body per request.
pub open spec fn body_lines_from(files: Seq<ProbedFile>, p: Seq<char>) -> Result<Seq<Seq<char>>, Seq<char>> {
    match file_text(files, p) {
        Err(e) => Err("Failed to read body lines file '"@ + p + "': "@ + e),
        Ok(t) => if lines_spec(t).len() == 0 {
            Err("Body lines file '"@ + p + "' is empty"@)
        } else {
            Ok(lines_spec(t))
        },
    }
}

/// The body lines of the run: from the argument's file, else the file's.
pub open spec fn body_lines_spec(a: RunArgs, tv: TomlView, files: Seq<ProbedFile>) -> Result<Option<Seq<Seq<char>>>, Seq<char>> {
    let p = or_else(opt_view(a.body_lines_file), tv.body_lines_file);
    match p {
        Some(q) => match body_lines_from(files, q) {
            Ok(v) => Ok(Some(v)),
            Err(e) => Err(e),
        },
        None => Ok(None),
    }
}

/// What `parse_connect_to` makes of `HOST:TARGET_IP:TARGET_PORT` or
/// `HOST:PORT:TARGET_IP:TARGET_PORT`: the host and the target address.
pub open spec fn connect_to_spec(m: Seq<char>) -> Result<(Seq<char>, Seq<char>), Seq<char>> {
    let parts = split_spec(m, ':');
    if parts.len() == 3 {
        Ok((parts[0], parts[1] + ":"@ + parts[2]))
    } else if parts.len() == 4 {
        Ok((parts[0], parts[2] + ":"@ + parts[3]))
    } else {
        Err("Invalid connect-to format: '"@ + m
            + "'. Expected 'HOST:TARGET_IP:TARGET_PORT' or 'HOST:PORT:TARGET_IP:TARGET_PORT'"@)
    }
}

/// The message for which `refused` turns down the address `t`: that of its
/// first entry for `t` from index `k` on, if any.
pub open spec fn refusal_from(refused: Seq<(String, String)>, t: Seq<char>, k: int) -> Option<Seq<char>>
    decreases refused.len() - k,
{
    if k < 0 || k >= refused.len() {
        None
    } else if refused[k].0@ == t {
        Some(refused[k].1@)
    } else {
        refusal_from(refused, t, k + 1)
    }
}

/// The host override of the run: the argument's, else the file's; its
/// target address must not be one of `refused`, the addresses that do not
/// parse as a socket address (each with the parser's message).
pub open spec fn connect_spec(a: RunArgs, tv: TomlView, refused: Seq<(String, String)>) -> Result<
    Option<(Seq<char>, Seq<char>)>,
    Seq<char>,
> {
    match or_else(opt_view(a.connect_to), tv.connect_to) {
        Some(m) => match connect_to_spec(m) {
            Ok(v) => match refusal_from(refused, v.1, 0) {
                Some(e) => Err("Invalid target address '"@ + v.1 + "': "@ + e),
                None => Ok(Some(v)),
            },
            Err(e) => Err(e),
        },
        None => Ok(None),
    }
}

/// The burst mode of the run: the argument's rate (which needs the
/// argument's delay), else the file's rate (which needs the file's delay).
pub open spec fn burst_spec(a: RunArgs, tv: TomlView) -> Result<Option<(u32, u64)>, Seq<char>> {
    match a.burst_rate {
        Some(r) => match a.burst_delay_us {
            Some(d) => Ok(Some((r, d))),
            None => Err("--burst-rate requires --burst-delay"@),
        },
        None => match tv.burst_rate {
            Some(r) => match tv.burst_delay_us {
                Some(d) => Ok(Some((r, d))),
                None => Err("burst_rate requires burst_delay in config"@),
            },
            None => Ok(None),
        },
    }
}

/// The first rule of the configuration that fails, in the order the merge
/// checks them; none when the merge succeeds.
pub open spec fn merge_error(a: RunArgs, tv: TomlView, files: Seq<ProbedFile>, refused: Seq<(String, String)>) -> Option<Seq<char>> {
    if early_error(a, tv, files) is Some {
        early_error(a, tv, files)
    } else if checks_upto(tv.checks, tv.checks.len() as int) is Err {
        Some(checks_upto(tv.checks, tv.checks.len() as int)->Err_0)
    } else {
        late_error(a, tv, files, refused)
    }
}

/// The first of the rules checked before the checks that fails (the URL
/// to the thresholds); none when they all hold.
pub open spec fn early_error(a: RunArgs, tv: TomlView, files: Seq<ProbedFile>) -> Option<Seq<char>> {
    if url_spec(a, tv, files) is Err {
        Some(url_spec(a, tv, files)->Err_0)
    } else if method_spec(method_text(a, tv)) is None {
        Some("Invalid HTTP method: "@ + method_text(a, tv))
    } else if headers_spec(a, tv) is Err {
        Some(headers_spec(a, tv)->Err_0)
    } else if body_spec(a, tv, files) is Err {
        Some(body_spec(a, tv, files)->Err_0)
    } else if a.http3 && !has_prefix(url_spec(a, tv, files)->Ok_0, "https://"@) {
        Some("HTTP/3 requires HTTPS URL (https://)"@)
    } else if grpc_error(a, tv) is Some {
        grpc_error(a, tv)
    } else if a.http3 && grpc_on(a) {
        Some("Cannot use --http3 with --grpc-service. Choose one protocol."@)
    } else if body_bytes_spec(a, tv, files) is Err {
        Some(body_bytes_spec(a, tv, files)->Err_0)
    } else if scenarios_upto(tv.scenarios, files, tv.scenarios.len() as int) is Err {
        Some(scenarios_upto(tv.scenarios, files, tv.scenarios.len() as int)->Err_0)
    } else if thresholds_spec(tv.thresholds) is Err {
        Some(thresholds_spec(tv.thresholds)->Err_0)
    } else {
        None
    }
}

/// The first of the rules checked after the checks that fails (the stages
/// to the burst mode); none when they all hold.
pub open spec fn late_error(a: RunArgs, tv: TomlView, files: Seq<ProbedFile>, refused: Seq<(String, String)>) -> Option<Seq<char>> {
    if stages_spec(tv.stages) is Err {
        Some(stages_spec(tv.stages)->Err_0)
    } else if arrival_spec(a, tv) is Some && has_vu_stage(tv.stages) {
        Some("Cannot use --arrival-rate with VU-based stages. Use target_rate in stages instead."@)
    } else if auth_spec(a, tv) is Err {
        Some(auth_spec(a, tv)->Err_0)
    } else if certs_error(a, tv, files) is Some {
        certs_error(a, tv, files)
    } else if url_list_spec(a, tv, files) is Err {
        Some(url_list_spec(a, tv, files)->Err_0)
    } else if or_else(opt_view(a.rand_regex_url), tv.rand_regex_url) is Some && url_list_spec(
        a,
        tv,
        files,
    )->Ok_0 is Some {
        Some("--rand-regex-url and --urls-from-file are mutually exclusive"@)
    } else if body_lines_spec(a, tv, files) is Err {
        Some(body_lines_spec(a, tv, files)->Err_0)
    } else if body_lines_spec(a, tv, files)->Ok_0 is Some && body_spec(a, tv, files)->Ok_0 is Some {
        Some("-Z/--body-lines and --body/--body-file are mutually exclusive"@)
    } else if connect_spec(a, tv, refused) is Err {
        Some(connect_spec(a, tv, refused)->Err_0)
    } else if burst_spec(a, tv) is Err {
        Some(burst_spec(a, tv)->Err_0)
    } else if burst_spec(a, tv)->Ok_0 is Some && arrival_spec(a, tv) is Some {
        Some("Burst mode (--burst-rate) is incompatible with --arrival-rate"@)
    } else {
        None
    }
}

/// A duration or count that the argument sets unless it has its default
/// value, and the file sets otherwise.
pub open spec fn pick<T>(arg: T, default: T, file: Option<T>) -> T {
    if arg != default {
        arg
    } else {
        match file {
            Some(v) => v,
            None => default,
        }
    }
}

/// The view of a list of strings given as an optional vector.
pub open spec fn opt_strings_view(o: Option<Vec<String>>) -> Option<Seq<Seq<char>>> {
    match o {
        Some(v) => Some(strings_view(v@)),
        None => None,
    }
}

/// The view of optional credentials.
pub open spec fn opt_auth_view(o: Option<(String, Option<String>)>) -> Option<(Seq<char>, Option<Seq<char>>)> {
    match o {
        Some(p) => Some(auth_view(p)),
        None => None,
    }
}

/// The view of an optional host override.
pub open spec fn opt_pair_view(o: Option<(String, String)>) -> Option<(Seq<char>, Seq<char>)> {
    match o {
        Some(p) => Some((p.0@, p.1@)),
        None => None,
    }
}

/// The view of optional bytes.
pub open spec fn opt_bytes_view(o: Option<Vec<u8>>) -> Option<Seq<u8>> {
    match o {
        Some(v) => Some(v@),
        None => None,
    }
}

/// The view of an optional burst configuration.
pub open spec fn opt_burst_view(o: Option<BurstConfig>) -> Option<(u32, u64)> {
    match o {
        Some(b) => Some((b.requests_per_burst, b.delay_between_bursts_us)),
        None => None,
    }
}

/// Whether `c` is what a successful merge of `a`, the file `tv` and the
/// probed files yields: each setting from the argument when it was given
/// (or differs from its default), else from the file, else the default.
pub open spec fn merged(c: LoadConfig, a: RunArgs, tv: TomlView, files: Seq<ProbedFile>, refused: Seq<(String, String)>) -> bool {
    let arrival = arrival_spec(a, tv);
    &&& c.url@ == url_spec(a, tv, files)->Ok_0
    &&& c.method@ == method_spec(method_text(a, tv))->Some_0
    &&& pairs_view(c.headers@) == headers_spec(a, tv)->Ok_0
    &&& opt_view(c.body) == body_spec(a, tv, files)->Ok_0
    &&& c.scenarios@.len() == tv.scenarios.len()
    &&& (forall|i: int| 0 <= i < c.scenarios@.len() ==> scenario_view(#[trigger] c.scenarios@[i])
        == scenarios_upto(tv.scenarios, files, tv.scenarios.len() as int)->Ok_0[i])
    &&& c.concurrency == pick(a.concurrency, DEFAULT_CONCURRENCY, tv.concurrency)
    &&& c.duration_us == pick(a.duration_us, DEFAULT_DURATION_US, tv.duration_us)
    &&& c.max_requests == pick(a.max_requests, 0, tv.max_requests)
    &&& c.rate == pick(a.rate, 0, tv.rate)
    &&& c.ramp_up_us == pick(a.ramp_up_us, 0, tv.ramp_up_us)
    &&& c.warmup_us == pick(a.warmup_us, 0, tv.warmup_us)
    &&& c.timeout_us == pick(a.timeout_us, DEFAULT_TIMEOUT_US, tv.timeout_us)
    &&& c.connect_timeout_us == pick(a.connect_timeout_us, DEFAULT_CONNECT_TIMEOUT_US, tv.connect_timeout_us)
    &&& c.insecure == (a.insecure || tv.insecure)
    &&& c.http2 == (a.http2 || tv.http2)
    &&& c.http3 == a.http3
    &&& opt_view(c.grpc_service) == opt_view(a.grpc_service)
    &&& opt_view(c.grpc_method) == opt_view(a.grpc_method)
    &&& opt_bytes_view(c.body_bytes) == body_bytes_spec(a, tv, files)->Ok_0
    &&& c.cookie_jar == (a.cookie_jar || tv.cookie_jar)
    &&& c.follow_redirects == (!a.no_follow_redirects && tv.follow_redirects)
    &&& c.disable_keepalive == (a.disable_keepalive || tv.disable_keepalive)
    &&& c.thresholds@.len() == thresholds_spec(tv.thresholds)->Ok_0.len()
    &&& (forall|i: int| 0 <= i < c.thresholds@.len() ==> threshold_view(#[trigger] c.thresholds@[i])
        == thresholds_spec(tv.thresholds)->Ok_0[i])
    &&& c.checks@.len() == tv.checks.len()
    &&& (forall|i: int| 0 <= i < c.checks@.len() ==> check_view(#[trigger] c.checks@[i])
        == checks_upto(tv.checks, tv.checks.len() as int)->Ok_0[i])
    &&& c.stages@.len() == tv.stages.len()
    &&& (forall|i: int| 0 <= i < c.stages@.len() ==> stage_of(#[trigger] c.stages@[i], tv.stages[i]))
    &&& c.think_time_us == or_else(a.think_time_us, tv.think_time_us)
    &&& c.fail_fast == a.fail_fast
    &&& c.arrival_rate == arrival
    &&& c.max_vus == (if a.max_vus != DEFAULT_MAX_VUS {
        Some(a.max_vus)
    } else {
        or_else(tv.max_vus, Some(DEFAULT_MAX_VUS))
    })
    &&& c.latency_correction == (!a.no_latency_correction && (arrival is Some || has_rate_stage(tv.stages)))
    &&& c.ws_mode == (if a.ws_fire_and_forget || tv.ws_mode == Some("fire_and_forget"@) {
        WsMode::FireAndForget
    } else {
        WsMode::Echo
    })
    &&& c.ws_message_interval_us == pick(a.ws_message_interval_us, DEFAULT_WS_INTERVAL_US, tv.ws_message_interval_us)
    &&& opt_view(c.proxy) == or_else(opt_view(a.proxy), tv.proxy)
    &&& opt_auth_view(c.basic_auth) == auth_spec(a, tv)->Ok_0
    &&& opt_view(c.client_cert) == cert_paths(a, tv).0
    &&& opt_view(c.client_key) == cert_paths(a, tv).1
    &&& opt_view(c.ca_cert) == cert_paths(a, tv).2
    &&& opt_view(c.rand_regex_url) == or_else(opt_view(a.rand_regex_url), tv.rand_regex_url)
    &&& opt_strings_view(c.url_list) == url_list_spec(a, tv, files)->Ok_0
    &&& opt_strings_view(c.body_lines) == body_lines_spec(a, tv, files)->Ok_0
    &&& opt_pair_view(c.connect_to) == connect_spec(a, tv, refused)->Ok_0
    &&& opt_burst_view(c.burst_config) == burst_spec(a, tv)->Ok_0
    &&& opt_view(c.db_url) == opt_view(a.db_url)
}

/// The value a setting takes from a file that may leave it out.
pub open spec fn file_or<T>(file: Option<T>, default: T) -> T {
    match file {
        Some(v) => v,
        None => default,
    }
}

/// Precedence of the merged settings over a configuration file `t`: an
/// argument left at its default (a rate of 0, that is unlimited; 50
/// workers; ten seconds; no request limit; no ramp-up or warmup; the
/// default timeouts) takes the file's value when the file sets one, and
/// keeps the default otherwise; an argument set to anything else wins over
/// the file. A switch is on when the argument or the file turns it on;
/// redirects are followed unless the argument or the file turns them off.
pub proof fn lemma_merge_precedence(
    c: LoadConfig,
    a: RunArgs,
    t: TomlConfig,
    files: Seq<ProbedFile>,
    refused: Seq<(String, String)>,
)
    requires
        merged(c, a, toml_view(Some(t)), files, refused),
    ensures
        a.rate == 0 ==> c.rate == file_or(t.load.rate, 0),
        a.rate != 0 ==> c.rate == a.rate,
        a.concurrency == DEFAULT_CONCURRENCY ==> c.concurrency == file_or(t.load.concurrency, DEFAULT_CONCURRENCY),
        a.concurrency != DEFAULT_CONCURRENCY ==> c.concurrency == a.concurrency,
        a.duration_us == DEFAULT_DURATION_US ==> c.duration_us == file_or(t.load.duration_us, DEFAULT_DURATION_US),
        a.duration_us != DEFAULT_DURATION_US ==> c.duration_us == a.duration_us,
        a.max_requests == 0 ==> c.max_requests == file_or(t.load.max_requests, 0),
        a.max_requests != 0 ==> c.max_requests == a.max_requests,
        a.ramp_up_us == 0 ==> c.ramp_up_us == file_or(t.load.ramp_up_us, 0),
        a.ramp_up_us != 0 ==> c.ramp_up_us == a.ramp_up_us,
        a.warmup_us == 0 ==> c.warmup_us == file_or(t.load.warmup_us, 0),
        a.warmup_us != 0 ==> c.warmup_us == a.warmup_us,
        a.timeout_us == DEFAULT_TIMEOUT_US ==> c.timeout_us == file_or(t.target.timeout_us, DEFAULT_TIMEOUT_US),
        a.timeout_us != DEFAULT_TIMEOUT_US ==> c.timeout_us == a.timeout_us,
        a.connect_timeout_us == DEFAULT_CONNECT_TIMEOUT_US ==> c.connect_timeout_us == file_or(
            t.target.connect_timeout_us,
            DEFAULT_CONNECT_TIMEOUT_US,
        ),
        a.connect_timeout_us != DEFAULT_CONNECT_TIMEOUT_US ==> c.connect_timeout_us == a.connect_timeout_us,
        a.think_time_us is Some ==> c.think_time_us == a.think_time_us,
        a.think_time_us is None ==> c.think_time_us == t.load.think_time_us,
        a.arrival_rate is Some ==> c.arrival_rate == a.arrival_rate,
        a.arrival_rate is None ==> c.arrival_rate == t.load.arrival_rate,
        a.max_vus == DEFAULT_MAX_VUS ==> c.max_vus == Some(file_or(t.load.max_vus, DEFAULT_MAX_VUS)),
        a.max_vus != DEFAULT_MAX_VUS ==> c.max_vus == Some(a.max_vus),
        a.ws_message_interval_us == DEFAULT_WS_INTERVAL_US ==> c.ws_message_interval_us == file_or(
            t.websocket.message_interval_us,
            DEFAULT_WS_INTERVAL_US,
        ),
        a.ws_message_interval_us != DEFAULT_WS_INTERVAL_US ==> c.ws_message_interval_us
            == a.ws_message_interval_us,
        c.http3 == a.http3,
        c.fail_fast == a.fail_fast,
        c.insecure == (a.insecure || t.target.insecure),
        c.http2 == (a.http2 || t.target.http2),
        c.cookie_jar == (a.cookie_jar || t.target.cookie_jar),
        c.disable_keepalive == (a.disable_keepalive || t.target.disable_keepalive),
        c.follow_redirects == (!a.no_follow_redirects && t.target.follow_redirects),
{
}

/// Without a configuration file, every merged setting is the argument's
/// (its default when it was not given), and redirects are followed unless
/// the argument turns them off.
pub proof fn lemma_merge_without_file(
    c: LoadConfig,
    a: RunArgs,
    files: Seq<ProbedFile>,
    refused: Seq<(String, String)>,
)
    requires
        merged(c, a, toml_view(None), files, refused),
    ensures
        c.rate == a.rate,
        c.concurrency == a.concurrency,
        c.duration_us == a.duration_us,
        c.max_requests == a.max_requests,
        c.ramp_up_us == a.ramp_up_us,
        c.warmup_us == a.warmup_us,
        c.timeout_us == a.timeout_us,
        c.connect_timeout_us == a.connect_timeout_us,
        c.think_time_us == a.think_time_us,
        c.arrival_rate == a.arrival_rate,
        c.max_vus == Some(a.max_vus),
        c.ws_message_interval_us == a.ws_message_interval_us,
        c.insecure == a.insecure,
        c.http2 == a.http2,
        c.cookie_jar == a.cookie_jar,
        c.disable_keepalive == a.disable_keepalive,
        c.follow_redirects == !a.no_follow_redirects,
{
}

/// What merging reads from a loaded file.
pub open spec fn tvo(t: TomlConfig) -> TomlView {
    toml_view(Some(t))
}

/// The first line of the file at `p`.
fn first_line_exec(files: &[ProbedFile], p: &str) -> (r: Option<String>)
    ensures
        opt_view(r) == first_line(files@, p@),
{
    match read_text(files, p) {
        Ok(t) => {
            let tc = chars_of(t.as_str());
            let ls = lines(tc.as_slice());
            if ls.len() > 0 {
                Some(string_of(ls[0].as_slice()))
            } else {
                None
            }
        },
        Err(_) => None,
    }
}

/// The first line of the file at an optional path.
fn first_line_opt(files: &[ProbedFile], p: &Option<String>) -> (r: Option<String>)
    ensures
        opt_view(r) == first_line_of(files@, opt_view(*p)),
{
    match p {
        Some(q) => first_line_exec(files, q.as_str()),
        None => None,
    }
}

/// Picks the first present of two optional strings, copied.
fn or_else_copy(a: &Option<String>, b: &Option<String>) -> (r: Option<String>)
    ensures
        opt_view(r) == or_else(opt_view(*a), opt_view(*b)),
{
    match a {
        Some(s) => Some(owned(s.as_str())),
        None => copy_opt(b),
    }
}

/// Resolves the URL of the run.
fn resolve_url(args: &RunArgs, toml: &TomlConfig, files: &[ProbedFile]) -> (r: Result<String, String>)
    ensures
        match url_spec(*args, tvo(*toml), files@) {
            Ok(u) => r matches Ok(s) && s@ == u,
            Err(e) => r matches Err(m) && m@ == e,
        },
{
    if let Some(u) = &args.url {
        return Ok(owned(u.as_str()));
    }
    if let Some(u) = &args.rand_regex_url {
        return Ok(owned(u.as_str()));
    }
    if let Some(u) = first_line_opt(files, &args.urls_from_file) {
        return Ok(u);
    }
    if let Some(u) = &toml.target.url {
        return Ok(owned(u.as_str()));
    }
    if let Some(u) = &toml.target.rand_regex_url {
        return Ok(owned(u.as_str()));
    }
    if let Some(u) = first_line_opt(files, &toml.target.urls_from_file) {
        return Ok(u);
    }
    if toml.scenarios.len() > 0 {
        Err(owned("URL is required in [target] section even when using [[scenarios]].\nThe target URL is used as a fallback and for metadata.\nAdd: [target]\n      url = \"https://your-api.com\""))
    } else {
        Err(owned("URL is required. Provide via argument, --rand-regex-url, --urls-from-file, or [target] section in config file."))
    }
}

/// Resolves and checks the method of the run.
fn resolve_method(args: &RunArgs, toml: &TomlConfig) -> (r: Result<String, String>)
    ensures
        match method_spec(method_text(*args, tvo(*toml))) {
            Some(m) => r matches Ok(s) && s@ == m,
            None => r matches Err(e) && e@ == "Invalid HTTP method: "@ + method_text(*args, tvo(*toml)),
        },
{
    let text: String = if !str_eq(args.method.as_str(), "GET") {
        owned(args.method.as_str())
    } else {
        match &toml.target.method {
            Some(m) => owned(m.as_str()),
            None => owned("GET"),
        }
    };
    match normalize_method(text.as_str()) {
        Some(m) => Ok(m),
        None => {
            let mut m: Vec<char> = Vec::new();
            extend_str(&mut m, "Invalid HTTP method: ");
            extend_str(&mut m, text.as_str());
            Err(string_of(m.as_slice()))
        },
    }
}

/// Whether a header named `k` is among `headers`, in any ASCII case.
fn header_present(headers: &Vec<(String, String)>, k: &[char]) -> (b: bool)
    ensures
        b == has_header(pairs_view(headers@), k@),
{
    let mut i: usize = 0;
    while i < headers.len()
        invariant
            i <= headers@.len(),
            forall|j: int| 0 <= j < i ==> !crate::text::eq_ignore_ascii_case_spec(
                #[trigger] pairs_view(headers@)[j].0,
                k@,
            ),
        decreases headers@.len() - i,
    {
        let hc = chars_of(headers[i].0.as_str());
        if crate::text::eq_ignore_ascii_case(hc.as_slice(), k) {
            assert(pairs_view(headers@)[i as int].0 == hc@);
            return true;
        }
        i += 1;
    }
    false
}

/// The headers of the arguments, then those of the file that the arguments
/// do not set.
fn merge_headers(args: &RunArgs, toml: &TomlConfig) -> (r: Result<Vec<(String, String)>, String>)
    ensures
        match headers_spec(*args, tvo(*toml)) {
            Ok(v) => r matches Ok(o) && pairs_view(o@) == v,
            Err(e) => r matches Err(m) && m@ == e,
        },
{
    let mut headers = match args.parse_headers() {
        Ok(h) => h,
        Err(e) => {
            return Err(e);
        },
    };
    let extra = &toml.target.headers;
    let ghost base = pairs_view(headers@);
    let ghost ev = pairs_view(extra@);
    let mut i: usize = 0;
    while i < extra.len()
        invariant
            i <= extra@.len(),
            ev == pairs_view(extra@),
            pairs_view(headers@) == merge_headers_upto(base, ev, i as int),
        decreases extra@.len() - i,
    {
        let k = chars_of(extra[i].0.as_str());
        let found = header_present(&headers, k.as_slice());
        assert(ev[i as int].0 == k@);
        if !found {
            let ghost before = headers@;
            headers.push((owned(extra[i].0.as_str()), owned(extra[i].1.as_str())));
            assert(pairs_view(headers@) =~= pairs_view(before).push(ev[i as int]));
        }
        i += 1;
    }
    Ok(headers)
}

/// The body-file read error for `p`.
fn body_read_message(p: &str, e: &str) -> (s: String)
    ensures
        s@ == body_read_error(p@, e@),
{
    let mut m: Vec<char> = Vec::new();
    extend_str(&mut m, "Failed to read body file '");
    extend_str(&mut m, p);
    extend_str(&mut m, "': ");
    extend_str(&mut m, e);
    string_of(m.as_slice())
}

/// Whether the arguments name a gRPC service.
fn grpc_on_exec(args: &RunArgs) -> (b: bool)
    ensures
        b == grpc_on(*args),
{
    match &args.grpc_service {
        Some(s) => s.as_str().unicode_len() > 0,
        None => false,
    }
}

/// Whether the arguments name a gRPC method.
fn grpc_method_on_exec(args: &RunArgs) -> (b: bool)
    ensures
        b == grpc_method_on(*args),
{
    match &args.grpc_method {
        Some(s) => s.as_str().unicode_len() > 0,
        None => false,
    }
}

/// Resolves the text body of the run.
fn resolve_body(args: &RunArgs, toml: &TomlConfig, files: &[ProbedFile]) -> (r: Result<Option<String>, String>)
    ensures
        match body_spec(*args, tvo(*toml), files@) {
            Ok(b) => r matches Ok(o) && opt_view(o) == b,
            Err(e) => r matches Err(m) && m@ == e,
        },
{
    if grpc_on_exec(args) && (args.body_file.is_some() || toml.target.body_file.is_some()) {
        return Ok(or_else_copy(&args.body, &toml.target.body));
    }
    if let Some(p) = &args.body_file {
        return match read_text(files, p.as_str()) {
            Ok(t) => Ok(Some(t)),
            Err(e) => Err(body_read_message(p.as_str(), e.as_str())),
        };
    }
    if let Some(b) = &args.body {
        return Ok(Some(owned(b.as_str())));
    }
    if let Some(p) = &toml.target.body_file {
        return match read_text(files, p.as_str()) {
            Ok(t) => Ok(Some(t)),
            Err(e) => Err(body_read_message(p.as_str(), e.as_str())),
        };
    }
    Ok(copy_opt(&toml.target.body))
}

/// The bytes of the file at `p`, or the body-file read error.
fn bytes_of_file(files: &[ProbedFile], p: &str) -> (r: Result<Option<Vec<u8>>, String>)
    ensures
        match bytes_from_file(files@, p@) {
            Ok(b) => r matches Ok(o) && opt_bytes_view(o) == b,
            Err(e) => r matches Err(m) && m@ == e,
        },
{
    match read_bytes(files, p) {
        Ok(b) => Ok(Some(b)),
        Err(e) => Err(body_read_message(p, e.as_str())),
    }
}

/// Resolves the raw body of a gRPC run.
fn resolve_body_bytes(args: &RunArgs, toml: &TomlConfig, files: &[ProbedFile]) -> (r: Result<Option<Vec<u8>>, String>)
    ensures
        match body_bytes_spec(*args, tvo(*toml), files@) {
            Ok(b) => r matches Ok(o) && opt_bytes_view(o) == b,
            Err(e) => r matches Err(m) && m@ == e,
        },
{
    if !grpc_on_exec(args) {
        return Ok(None);
    }
    if let Some(p) = &args.body_file {
        return bytes_of_file(files, p.as_str());
    }
    if let Some(b) = &args.body {
        return Ok(Some(b.as_str().as_bytes_vec()));
    }
    if let Some(p) = &toml.target.body_file {
        return bytes_of_file(files, p.as_str());
    }
    match &toml.target.body {
        Some(b) => Ok(Some(b.as_str().as_bytes_vec())),
        None => Ok(None),
    }
}

/// Checks the protocol options: HTTP/3 needs an `https://` URL, the gRPC
/// options come in pairs and refuse `--insecure`, and HTTP/3 excludes gRPC.
fn check_protocols(args: &RunArgs, toml: &TomlConfig, url: &String) -> (r: Option<String>)
    ensures
        opt_view(r) == (if args.http3 && !has_prefix(url@, "https://"@) {
            Some("HTTP/3 requires HTTPS URL (https://)"@)
        } else if grpc_error(*args, tvo(*toml)) is Some {
            grpc_error(*args, tvo(*toml))
        } else if args.http3 && grpc_on(*args) {
            Some("Cannot use --http3 with --grpc-service. Choose one protocol."@)
        } else {
            None
        }),
{
    let uc = chars_of(url.as_str());
    if args.http3 && !starts_with_str(uc.as_slice(), "https://") {
        return Some(owned("HTTP/3 requires HTTPS URL (https://)"));
    }
    let has_service = grpc_on_exec(args);
    let has_method = grpc_method_on_exec(args);
    if has_service != has_method {
        return Some(owned("Both --grpc-service and --grpc-method must be provided together"));
    }
    if let Some(s) = &args.grpc_service {
        if s.as_str().unicode_len() == 0 {
            return Some(owned("--grpc-service cannot be empty"));
        }
    }
    if has_service && (args.insecure || toml.target.insecure) {
        return Some(owned("--insecure is not supported for gRPC. Use http:// URL for unencrypted connections."));
    }
    if args.http3 && has_service {
        return Some(owned("Cannot use --http3 with --grpc-service. Choose one protocol."));
    }
    None
}

/// Parses optional credentials.
fn auth_of_exec(s: &Option<String>) -> (r: Result<Option<(String, Option<String>)>, String>)
    ensures
        match auth_of(opt_view(*s)) {
            Ok(v) => r matches Ok(o) && opt_auth_view(o) == v,
            Err(e) => r matches Err(m) && m@ == e,
        },
{
    match s {
        Some(t) => match parse_basic_auth(t.as_str()) {
            Ok(v) => Ok(Some(v)),
            Err(e) => Err(e),
        },
        None => Ok(None),
    }
}

/// Resolves the credentials of the run.
fn resolve_auth(args: &RunArgs, toml: &TomlConfig) -> (r: Result<Option<(String, Option<String>)>, String>)
    ensures
        match auth_spec(*args, tvo(*toml)) {
            Ok(v) => r matches Ok(o) && opt_auth_view(o) == v,
            Err(e) => r matches Err(m) && m@ == e,
        },
{
    if args.basic_auth.is_some() {
        auth_of_exec(&args.basic_auth)
    } else {
        auth_of_exec(&toml.target.basic_auth)
    }
}

/// A message made of `a` and `b`.
fn message2(a: &str, b: &str) -> (s: String)
    ensures
        s@ == a@ + b@,
{
    let mut m: Vec<char> = Vec::new();
    extend_str(&mut m, a);
    extend_str(&mut m, b);
    string_of(m.as_slice())
}

/// Checks the TLS files.
fn check_certs(args: &RunArgs, toml: &TomlConfig, files: &[ProbedFile]) -> (r: Option<String>)
    ensures
        opt_view(r) == certs_error(*args, tvo(*toml), files@),
{
    let c = or_else_copy(&args.cert, &toml.target.cert);
    let k = or_else_copy(&args.key, &toml.target.key);
    let ca = or_else_copy(&args.cacert, &toml.target.cacert);
    if c.is_some() != k.is_some() {
        return Some(owned("--cert and --key must be specified together for mTLS"));
    }
    if let Some(p) = &c {
        if !path_exists(files, p.as_str()) {
            return Some(message2("Client certificate file not found: ", p.as_str()));
        }
    }
    if let Some(p) = &k {
        if !path_exists(files, p.as_str()) {
            return Some(message2("Client key file not found: ", p.as_str()));
        }
    }
    if let Some(p) = &ca {
        if !path_exists(files, p.as_str()) {
            return Some(message2("CA certificate file not found: ", p.as_str()));
        }
    }
    None
}

/// The URLs among `ls`.
fn url_lines_exec(ls: &Vec<Vec<char>>) -> (out: Vec<String>)
    ensures
        strings_view(out@) == url_lines(Seq::new(ls@.len(), |i: int| ls@[i]@)),
{
    let ghost lv = Seq::new(ls@.len(), |i: int| ls@[i]@);
    let mut out: Vec<String> = Vec::new();
    let mut i: usize = 0;
    while i < ls.len()
        invariant
            i <= ls@.len(),
            lv == Seq::new(ls@.len(), |i: int| ls@[i]@),
            strings_view(out@) == url_lines(lv.take(i as int)),
        decreases ls@.len() - i,
    {
        let t = trim(ls[i].as_slice());
        assert(lv.take(i + 1).drop_last() == lv.take(i as int));
        assert(lv.take(i + 1).last() == ls@[i as int]@);
        if t.len() > 0 && t[0] != '#' {
            let ghost before = out@;
            out.push(string_of(t.as_slice()));
            assert(strings_view(out@) =~= strings_view(before).push(t@));
        }
        i += 1;
    }
    assert(lv.take(ls@.len() as int) == lv);
    out
}

/// Reads the URLs of the file at `p`.
fn urls_from_exec(files: &[ProbedFile], p: &str) -> (r: Result<Vec<String>, String>)
    ensures
        match urls_from(files@, p@) {
            Ok(v) => r matches Ok(o) && strings_view(o@) == v,
            Err(e) => r matches Err(m) && m@ == e,
        },
{
    match read_text(files, p) {
        Err(e) => {
            let mut m: Vec<char> = Vec::new();
            extend_str(&mut m, "Failed to read URLs file '");
            extend_str(&mut m, p);
            extend_str(&mut m, "': ");
            extend_str(&mut m, e.as_str());
            Err(string_of(m.as_slice()))
        },
        Ok(t) => {
            let tc = chars_of(t.as_str());
            let ls = lines(tc.as_slice());
            assert(Seq::new(ls@.len(), |i: int| ls@[i]@) =~= lines_spec(t@));
            let urls = url_lines_exec(&ls);
            if urls.len() == 0 {
                let mut m: Vec<char> = Vec::new();
                extend_str(&mut m, "URLs file '");
                extend_str(&mut m, p);
                extend_str(&mut m, "' is empty");
                Err(string_of(m.as_slice()))
            } else {
                Ok(urls)
            }
        },
    }
}

/// Resolves the URL list of the run.
fn resolve_url_list(args: &RunArgs, toml: &TomlConfig, files: &[ProbedFile]) -> (r: Result<Option<Vec<String>>, String>)
    ensures
        match url_list_spec(*args, tvo(*toml), files@) {
            Ok(v) => r matches Ok(o) && opt_strings_view(o) == v,
            Err(e) => r matches Err(m) && m@ == e,
        },
{
    let p = or_else_copy(&args.urls_from_file, &toml.target.urls_from_file);
    match p {
        Some(q) => match urls_from_exec(files, q.as_str()) {
            Ok(v) => Ok(Some(v)),
            Err(e) => Err(e),
        },
        None => Ok(None),
    }
}

/// Reads the body lines of the file at `p`.
fn body_lines_from_exec(files: &[ProbedFile], p: &str) -> (r: Result<Vec<String>, String>)
    ensures
        match body_lines_from(files@, p@) {
            Ok(v) => r matches Ok(o) && strings_view(o@) == v,
            Err(e) => r matches Err(m) && m@ == e,
        },
{
    match read_text(files, p) {
        Err(e) => {
            let mut m: Vec<char> = Vec::new();
            extend_str(&mut m, "Failed to read body lines file '");
            extend_str(&mut m, p);
            extend_str(&mut m, "': ");
            extend_str(&mut m, e.as_str());
            Err(string_of(m.as_slice()))
        },
        Ok(t) => {
            let tc = chars_of(t.as_str());
            let ls = lines(tc.as_slice());
            if ls.len() == 0 {
                let mut m: Vec<char> = Vec::new();
                extend_str(&mut m, "Body lines file '");
                extend_str(&mut m, p);
                extend_str(&mut m, "' is empty");
                return Err(string_of(m.as_slice()));
            }
            let mut out: Vec<String> = Vec::new();
            let mut i: usize = 0;
            while i < ls.len()
                invariant
                    i <= ls@.len(),
                    out@.len() == i,
                    forall|k: int| 0 <= k < i ==> (#[trigger] out@[k])@ == ls@[k]@,
                decreases ls@.len() - i,
            {
                out.push(string_of(ls[i].as_slice()));
                i += 1;
            }
            assert(strings_view(out@) =~= lines_spec(t@));
            Ok(out)
        },
    }
}

/// Resolves the body lines of the run.
fn resolve_body_lines(args: &RunArgs, toml: &TomlConfig, files: &[ProbedFile]) -> (r: Result<Option<Vec<String>>, String>)
    ensures
        match body_lines_spec(*args, tvo(*toml), files@) {
            Ok(v) => r matches Ok(o) && opt_strings_view(o) == v,
            Err(e) => r matches Err(m) && m@ == e,
        },
{
    let p = or_else_copy(&args.body_lines_file, &toml.target.body_lines_file);
    match p {
        Some(q) => match body_lines_from_exec(files, q.as_str()) {
            Ok(v) => Ok(Some(v)),
            Err(e) => Err(e),
        },
        None => Ok(None),
    }
}

/// Splits a host override, `HOST:TARGET_IP:TARGET_PORT` or
/// `HOST:PORT:TARGET_IP:TARGET_PORT`, into the host and the target address
/// (which the caller parses as a socket address).
pub fn parse_connect_to(mapping: &str) -> (r: Result<(String, String), String>)
    ensures
        match connect_to_spec(mapping@) {
            Ok(v) => r matches Ok(o) && o.0@ == v.0 && o.1@ == v.1,
            Err(e) => r matches Err(m) && m@ == e,
        },
{
    proof {
        reveal_strlit(":");
    }
    let mc = chars_of(mapping);
    let parts = split_char(mc.as_slice(), ':');
    if parts.len() == 3 {
        let mut addr: Vec<char> = Vec::new();
        extend_chars(&mut addr, parts[1].as_slice());
        extend_str(&mut addr, ":");
        extend_chars(&mut addr, parts[2].as_slice());
        Ok((string_of(parts[0].as_slice()), string_of(addr.as_slice())))
    } else if parts.len() == 4 {
        let mut addr: Vec<char> = Vec::new();
        extend_chars(&mut addr, parts[2].as_slice());
        extend_str(&mut addr, ":");
        extend_chars(&mut addr, parts[3].as_slice());
        Ok((string_of(parts[0].as_slice()), string_of(addr.as_slice())))
    } else {
        let mut m: Vec<char> = Vec::new();
        extend_str(&mut m, "Invalid connect-to format: '");
        extend_chars(&mut m, mc.as_slice());
        extend_str(&mut m, "'. Expected 'HOST:TARGET_IP:TARGET_PORT' or 'HOST:PORT:TARGET_IP:TARGET_PORT'");
        Err(string_of(m.as_slice()))
    }
}

/// The message for which `refused` turns down the address `t`.
fn find_refusal(refused: &[(String, String)], t: &str) -> (r: Option<String>)
    ensures
        opt_view(r) == refusal_from(refused@, t@, 0),
{
    let mut i: usize = 0;
    while i < refused.len()
        invariant
            i <= refused@.len(),
            refusal_from(refused@, t@, 0) == refusal_from(refused@, t@, i as int),
        decreases refused@.len() - i,
    {
        if str_eq(refused[i].0.as_str(), t) {
            return Some(owned(refused[i].1.as_str()));
        }
        i += 1;
    }
    None
}

/// Resolves the host override of the run.
fn resolve_connect(args: &RunArgs, toml: &TomlConfig, refused: &[(String, String)]) -> (r: Result<
    Option<(String, String)>,
    String,
>)
    ensures
        match connect_spec(*args, tvo(*toml), refused@) {
            Ok(v) => r matches Ok(o) && opt_pair_view(o) == v,
            Err(e) => r matches Err(m) && m@ == e,
        },
{
    let m = or_else_copy(&args.connect_to, &toml.target.connect_to);
    match m {
        Some(t) => match parse_connect_to(t.as_str()) {
            Ok(v) => match find_refusal(refused, v.1.as_str()) {
                Some(e) => {
                    let mut msg: Vec<char> = Vec::new();
                    extend_str(&mut msg, "Invalid target address '");
                    extend_str(&mut msg, v.1.as_str());
                    extend_str(&mut msg, "': ");
                    extend_str(&mut msg, e.as_str());
                    Err(string_of(msg.as_slice()))
                },
                None => Ok(Some(v)),
            },
            Err(e) => Err(e),
        },
        None => Ok(None),
    }
}

/// Resolves the burst mode of the run.
fn resolve_burst(args: &RunArgs, toml: &TomlConfig) -> (r: Result<Option<BurstConfig>, String>)
    ensures
        match burst_spec(*args, tvo(*toml)) {
            Ok(v) => r matches Ok(o) && opt_burst_view(o) == v,
            Err(e) => r matches Err(m) && m@ == e,
        },
{
    match args.burst_rate {
        Some(rate) => match args.burst_delay_us {
            Some(d) => Ok(Some(BurstConfig { requests_per_burst: rate, delay_between_bursts_us: d })),
            None => Err(owned("--burst-rate requires --burst-delay")),
        },
        None => match toml.load.burst_rate {
            Some(rate) => match toml.load.burst_delay_us {
                Some(d) => Ok(Some(BurstConfig { requests_per_burst: rate, delay_between_bursts_us: d })),
                None => Err(owned("burst_rate requires burst_delay in config")),
            },
            None => Ok(None),
        },
    }
}

/// Whether some stage entry sets a worker target.
fn any_vu_stage(cs: &[StageConfig]) -> (b: bool)
    ensures
        b == has_vu_stage(cs@),
{
    let mut i: usize = 0;
    while i < cs.len()
        invariant
            i <= cs@.len(),
            forall|k: int| 0 <= k < i ==> (#[trigger] cs@[k]).target is None,
        decreases cs@.len() - i,
    {
        if cs[i].target.is_some() {
            return true;
        }
        i += 1;
    }
    false
}

/// Whether some stage entry sets a rate target.
fn any_rate_stage(cs: &[StageConfig]) -> (b: bool)
    ensures
        b == has_rate_stage(cs@),
{
    let mut i: usize = 0;
    while i < cs.len()
        invariant
            i <= cs@.len(),
            forall|k: int| 0 <= k < i ==> (#[trigger] cs@[k]).target_rate is None,
        decreases cs@.len() - i,
    {
        if cs[i].target_rate.is_some() {
            return true;
        }
        i += 1;
    }
    false
}

/// The setting of an argument unless it has its default value, else the
/// file's, else the default.
fn pick_u64(arg: u64, default: u64, file: Option<u64>) -> (r: u64)
    ensures
        r == pick(arg, default, file),
{
    if arg != default {
        arg
    } else {
        match file {
            Some(v) => v,
            None => default,
        }
    }
}

/// The same for a 32-bit setting.
fn pick_u32(arg: u32, default: u32, file: Option<u32>) -> (r: u32)
    ensures
        r == pick(arg, default, file),
{
    if arg != default {
        arg
    } else {
        match file {
            Some(v) => v,
            None => default,
        }
    }
}

/// Whether merging reaches the checks: every rule checked before them
/// (the URL to the thresholds) holds.
pub fn merge_reaches_checks(args: &RunArgs, toml: &Option<TomlConfig>, files: &[ProbedFile]) -> (b: bool)
    ensures
        b == (early_error(*args, toml_view(*toml), files@) is None),
{
    proof {
        reveal_strlit("https://");
    }
    let empty = TomlConfig::default();
    let t: &TomlConfig = match toml {
        Some(t) => t,
        None => &empty,
    };
    assert(tvo(*t) == toml_view(*toml));
    let url = match resolve_url(args, t, files) {
        Ok(u) => u,
        Err(_) => {
            return false;
        },
    };
    match resolve_method(args, t) {
        Ok(_) => {},
        Err(_) => {
            return false;
        },
    }
    match merge_headers(args, t) {
        Ok(_) => {},
        Err(_) => {
            return false;
        },
    }
    match resolve_body(args, t, files) {
        Ok(_) => {},
        Err(_) => {
            return false;
        },
    }
    if check_protocols(args, t, &url).is_some() {
        return false;
    }
    match resolve_body_bytes(args, t, files) {
        Ok(_) => {},
        Err(_) => {
            return false;
        },
    }
    match process_scenarios(t.scenarios.as_slice(), files) {
        Ok(_) => {},
        Err(_) => {
            return false;
        },
    }
    match parse_thresholds(&t.thresholds) {
        Ok(_) => true,
        Err(_) => false,
    }
}

/// Merges the arguments with the configuration file (none: an empty one).
///
/// An argument wins over the file when it was given, or, for a setting with
/// a default, when it differs from that default. The rules of the
/// configuration are checked in a fixed order and the first that fails is
/// the error; `merge_error` states that order. `refused` lists the host
/// override target addresses that did not parse as socket addresses, each
/// with the parser's message.
pub fn merge_config(args: &RunArgs, toml: Option<TomlConfig>, files: &[ProbedFile], refused: &[(String, String)]) -> (r:
    Result<LoadConfig, String>)
    requires
        early_error(*args, toml_view(toml), files@) is None ==> checks_safe_in_order(toml_view(toml).checks),
    ensures
        match merge_error(*args, toml_view(toml), files@, refused@) {
            Some(e) => r matches Err(m) && m@ == e,
            None => r matches Ok(c) && merged(c, *args, toml_view(toml), files@, refused@),
        },
{
    proof {
        reveal_strlit("GET");
        reveal_strlit("https://");
        reveal_strlit("fire_and_forget");
    }
    let ghost tv = toml_view(toml);
    let toml = match toml {
        Some(t) => t,
        None => TomlConfig::default(),
    };
    assert(tvo(toml) == tv);
    let url = match resolve_url(args, &toml, files) {
        Ok(u) => u,
        Err(e) => {
            return Err(e);
        },
    };
    let method = match resolve_method(args, &toml) {
        Ok(m) => m,
        Err(e) => {
            return Err(e);
        },
    };
    let headers = match merge_headers(args, &toml) {
        Ok(h) => h,
        Err(e) => {
            return Err(e);
        },
    };
    let body = match resolve_body(args, &toml, files) {
        Ok(b) => b,
        Err(e) => {
            return Err(e);
        },
    };
    let concurrency = pick_u32(args.concurrency, DEFAULT_CONCURRENCY, toml.load.concurrency);
    let duration_us = pick_u64(args.duration_us, DEFAULT_DURATION_US, toml.load.duration_us);
    let max_requests = pick_u64(args.max_requests, 0, toml.load.max_requests);
    let rate = pick_u32(args.rate, 0, toml.load.rate);
    let ramp_up_us = pick_u64(args.ramp_up_us, 0, toml.load.ramp_up_us);
    let warmup_us = pick_u64(args.warmup_us, 0, toml.load.warmup_us);
    let timeout_us = pick_u64(args.timeout_us, DEFAULT_TIMEOUT_US, toml.target.timeout_us);
    let connect_timeout_us = pick_u64(
        args.connect_timeout_us,
        DEFAULT_CONNECT_TIMEOUT_US,
        toml.target.connect_timeout_us,
    );
    let insecure = args.insecure || toml.target.insecure;
    let http2 = args.http2 || toml.target.http2;
    let cookie_jar = args.cookie_jar || toml.target.cookie_jar;
    let follow_redirects = !args.no_follow_redirects && toml.target.follow_redirects;
    let disable_keepalive = args.disable_keepalive || toml.target.disable_keepalive;
    if let Some(e) = check_protocols(args, &toml, &url) {
        return Err(e);
    }
    let body_bytes = match resolve_body_bytes(args, &toml, files) {
        Ok(b) => b,
        Err(e) => {
            return Err(e);
        },
    };
    let scenarios = match process_scenarios(toml.scenarios.as_slice(), files) {
        Ok(v) => v,
        Err(e) => {
            return Err(e);
        },
    };
    proof {
        lemma_scenarios_len(tv.scenarios, files@, tv.scenarios.len() as int);
    }
    let thresholds = match parse_thresholds(&toml.thresholds) {
        Ok(v) => v,
        Err(e) => {
            return Err(e);
        },
    };
    let checks = match parse_checks(toml.checks.as_slice()) {
        Ok(v) => v,
        Err(e) => {
            return Err(e);
        },
    };
    proof {
        lemma_checks_len(tv.checks, tv.checks.len() as int);
    }
    let stages = match process_stages(toml.stages.as_slice()) {
        Ok(v) => v,
        Err(e) => {
            return Err(e);
        },
    };
    let arrival_rate = match args.arrival_rate {
        Some(a) => Some(a),
        None => toml.load.arrival_rate,
    };
    let has_vu = any_vu_stage(toml.stages.as_slice());
    let has_rate = any_rate_stage(toml.stages.as_slice());
    if arrival_rate.is_some() && has_vu {
        return Err(owned("Cannot use --arrival-rate with VU-based stages. Use target_rate in stages instead."));
    }
    let think_time_us = match args.think_time_us {
        Some(t) => Some(t),
        None => toml.load.think_time_us,
    };
    let max_vus = if args.max_vus != DEFAULT_MAX_VUS {
        Some(args.max_vus)
    } else {
        match toml.load.max_vus {
            Some(v) => Some(v),
            None => Some(DEFAULT_MAX_VUS),
        }
    };
    let latency_correction = !args.no_latency_correction && (arrival_rate.is_some() || has_rate);
    let ws_message_interval_us = pick_u64(
        args.ws_message_interval_us,
        DEFAULT_WS_INTERVAL_US,
        toml.websocket.message_interval_us,
    );
    let ws_mode = if args.ws_fire_and_forget {
        WsMode::FireAndForget
    } else {
        match &toml.websocket.mode {
            Some(m) => if str_eq(m.as_str(), "fire_and_forget") {
                WsMode::FireAndForget
            } else {
                WsMode::Echo
            },
            None => WsMode::Echo,
        }
    };
    let proxy = or_else_copy(&args.proxy, &toml.target.proxy);
    let basic_auth = match resolve_auth(args, &toml) {
        Ok(a) => a,
        Err(e) => {
            return Err(e);
        },
    };
    if let Some(e) = check_certs(args, &toml, files) {
        return Err(e);
    }
    let client_cert = or_else_copy(&args.cert, &toml.target.cert);
    let client_key = or_else_copy(&args.key, &toml.target.key);
    let ca_cert = or_else_copy(&args.cacert, &toml.target.cacert);
    let url_list = match resolve_url_list(args, &toml, files) {
        Ok(v) => v,
        Err(e) => {
            return Err(e);
        },
    };
    let rand_regex_url = or_else_copy(&args.rand_regex_url, &toml.target.rand_regex_url);
    if rand_regex_url.is_some() && url_list.is_some() {
        return Err(owned("--rand-regex-url and --urls-from-file are mutually exclusive"));
    }
    let body_lines = match resolve_body_lines(args, &toml, files) {
        Ok(v) => v,
        Err(e) => {
            return Err(e);
        },
    };
    if body_lines.is_some() && body.is_some() {
        return Err(owned("-Z/--body-lines and --body/--body-file are mutually exclusive"));
    }
    let connect_to = match resolve_connect(args, &toml, refused) {
        Ok(v) => v,
        Err(e) => {
            return Err(e);
        },
    };
    let burst_config = match resolve_burst(args, &toml) {
        Ok(v) => v,
        Err(e) => {
            return Err(e);
        },
    };
    if burst_config.is_some() && arrival_rate.is_some() {
        return Err(owned("Burst mode (--burst-rate) is incompatible with --arrival-rate"));
    }
    Ok(LoadConfig {
        url,
        method,
        headers,
        body,
        scenarios,
        concurrency,
        duration_us,
        max_requests,
        rate,
        ramp_up_us,
        warmup_us,
        timeout_us,
        connect_timeout_us,
        insecure,
        http2,
        http3: args.http3,
        grpc_service: copy_opt(&args.grpc_service),
        grpc_method: copy_opt(&args.grpc_method),
        body_bytes,
        cookie_jar,
        follow_redirects,
        disable_keepalive,
        thresholds,
        checks,
        stages,
        think_time_us,
        fail_fast: args.fail_fast,
        arrival_rate,
        max_vus,
        latency_correction,
        ws_mode,
        ws_message_interval_us,
        proxy,
        basic_auth,
        client_cert,
        client_key,
        ca_cert,
        rand_regex_url,
        url_list,
        body_lines,
        connect_to,
        burst_config,
        db_url: copy_opt(&args.db_url),
    })
}

// ---------------------------------------------------------------------------
// Environment variables in the configuration text
// ---------------------------------------------------------------------------

/// The index of the closing brace of a `${...}` placeholder that starts at
/// `i`: the first `}` after the `${`, with at least one character between.
pub open spec fn placeholder_at(s: Seq<char>, i: int) -> Option<int> {
    if 0 <= i && i + 1 < s.len() && s[i] == '$' && s[i + 1] == '{' {
        let k = crate::text::first_index_from(s, '}', i + 2);
        if k > i + 2 {
            Some(k)
        } else {
            None
        }
    } else {
        None
    }
}

/// The first index from `i` on that holds neither a space nor a tab.
pub open spec fn skip_blanks(s: Seq<char>, i: int) -> int
    decreases s.len() - i,
{
    if 0 <= i < s.len() && (s[i] == ' ' || s[i] == '\t') {
        skip_blanks(s, i + 1)
    } else {
        i
    }
}

/// A comment line starts at `i`: a line whose first character other than
/// a space or a tab is `#`.
pub open spec fn comment_line_at(s: Seq<char>, i: int) -> bool {
    &&& 0 <= i < s.len()
    &&& (i == 0 || s[i - 1] == '\n')
    &&& 0 <= skip_blanks(s, i) < s.len()
    &&& s[skip_blanks(s, i)] == '#'
}

/// The start of the line after the one that holds `i`, or the end of `s`.
pub open spec fn next_line(s: Seq<char>, i: int) -> int {
    let k = crate::text::first_index_from(s, '\n', i);
    if k < 0 {
        s.len() as int
    } else {
        k + 1
    }
}

/// The texts between the braces of the placeholders of `s` from index `i`
/// on, found left to right without overlap; comment lines are passed over.
pub open spec fn placeholders_from(s: Seq<char>, i: int) -> Seq<Seq<char>>
    decreases s.len() - i,
{
    if i < 0 || i >= s.len() {
        Seq::empty()
    } else if comment_line_at(s, i) {
        let e = next_line(s, i);
        if i < e <= s.len() {
            placeholders_from(s, e)
        } else {
            Seq::empty()
        }
    } else {
        match placeholder_at(s, i) {
            Some(k) => if i < k < s.len() {
                seq![s.subrange(i + 2, k)] + placeholders_from(s, k + 1)
            } else {
                Seq::empty()
            },
            None => placeholders_from(s, i + 1),
        }
    }
}

/// The texts between the braces of every `${...}` placeholder of `s` that
/// is not on a comment line.
pub open spec fn placeholders(s: Seq<char>) -> Seq<Seq<char>> {
    placeholders_from(s, 0)
}

/// The first index at which `p` occurs in `s` (meaningful when it occurs).
pub open spec fn first_occurrence(s: Seq<char>, p: Seq<char>) -> int {
    choose|j: int| crate::text::occurs_at(s, p, j) && forall|k: int| 0 <= k < j ==> !crate::text::occurs_at(s, p, k)
}

/// A placeholder's variable name and its default: `NAME:-DEFAULT` or `NAME`.
pub open spec fn split_default(e: Seq<char>) -> (Seq<char>, Option<Seq<char>>) {
    if crate::text::contains_seq(e, ":-"@) {
        let j = first_occurrence(e, ":-"@);
        (e.subrange(0, j), Some(e.subrange(j + 2, e.len() as int)))
    } else {
        (e, None)
    }
}

/// A name of lowercase letters and underscores (or an empty name) stands
/// for a value extracted at run time.
pub open spec fn extracted_name(name: Seq<char>) -> bool {
    forall|i: int| 0 <= i < name.len() ==> crate::text::lower_char(#[trigger] name[i]) || name[i] == '_'
}

/// A name that stands for a value filled in for each request or message:
/// `REQUEST_ID`, `TIMESTAMP_MS` or `MESSAGE_ID`.
pub open spec fn per_request_name(name: Seq<char>) -> bool {
    name == "REQUEST_ID"@ || name == "TIMESTAMP_MS"@ || name == "MESSAGE_ID"@
}

/// A placeholder whose value comes at run time (an extracted or a
/// per-request value) is left as it is.
pub open spec fn runtime_name(name: Seq<char>) -> bool {
    extracted_name(name) || per_request_name(name)
}

/// The value of the variable `name` in `env`: the first entry for it; an
/// entry without a value, or no entry, means the variable is not set.
pub open spec fn env_lookup_from(env: Seq<(String, Option<String>)>, name: Seq<char>, k: int) -> Option<Seq<char>>
    decreases env.len() - k,
{
    if k < 0 || k >= env.len() {
        None
    } else if env[k].0@ == name {
        opt_view(env[k].1)
    } else {
        env_lookup_from(env, name, k + 1)
    }
}

/// The value of the variable `name` in `env`.
pub open spec fn env_lookup(env: Seq<(String, Option<String>)>, name: Seq<char>) -> Option<Seq<char>> {
    env_lookup_from(env, name, 0)
}

/// The text `r` after the placeholder `${e}` is handled: when it names an
/// environment variable, it is replaced, everywhere in the text, by the
/// variable's value or else its default; a variable with neither is an
/// error.
pub open spec fn placeholder_step(r: Seq<char>, e: Seq<char>, env: Seq<(String, Option<String>)>) -> Result<Seq<char>, Seq<char>> {
    let (name, default) = split_default(e);
    let full = "${"@ + e + "}"@;
    if runtime_name(name) {
        Ok(r)
    } else {
        match env_lookup(env, name) {
            Some(v) => Ok(crate::text::replace_spec(r, full, v)),
            None => match default {
                Some(d) => Ok(crate::text::replace_spec(r, full, d)),
                None => Err("Environment variable '"@ + name + "' not set"@),
            },
        }
    }
}

/// The text after the first `n` placeholders of `ps` are handled.
pub open spec fn interpolate_upto(
    content: Seq<char>,
    env: Seq<(String, Option<String>)>,
    ps: Seq<Seq<char>>,
    n: int,
) -> Result<Seq<char>, Seq<char>>
    decreases n,
{
    if n <= 0 {
        Ok(content)
    } else {
        match interpolate_upto(content, env, ps, n - 1) {
            Err(e) => Err(e),
            Ok(r) => placeholder_step(r, ps[n - 1], env),
        }
    }
}

/// What `interpolate_env_vars` returns for `content` in the environment
/// `env`.
pub open spec fn interpolate_spec(content: Seq<char>, env: Seq<(String, Option<String>)>) -> Result<Seq<char>, Seq<char>> {
    interpolate_upto(content, env, placeholders(content), placeholders(content).len() as int)
}

proof fn lemma_interpolate_err_stable(
    content: Seq<char>,
    env: Seq<(String, Option<String>)>,
    ps: Seq<Seq<char>>,
    i: int,
    n: int,
)
    requires
        0 <= i <= n,
        interpolate_upto(content, env, ps, i) is Err,
    ensures
        interpolate_upto(content, env, ps, n) == interpolate_upto(content, env, ps, i),
    decreases n - i,
{
    if n > i {
        lemma_interpolate_err_stable(content, env, ps, i, n - 1);
    }
}

/// The first index from `i` on that holds neither a space nor a tab.
fn blanks_end(cs: &[char], i: usize) -> (j: usize)
    requires
        i <= cs@.len(),
    ensures
        j as int == skip_blanks(cs@, i as int),
        i <= j <= cs@.len(),
{
    let mut j = i;
    while j < cs.len() && (cs[j] == ' ' || cs[j] == '\t')
        invariant
            i <= j <= cs@.len(),
            skip_blanks(cs@, j as int) == skip_blanks(cs@, i as int),
        decreases cs@.len() - j,
    {
        j += 1;
    }
    j
}

/// Whether a comment line starts at `i`.
fn starts_comment_line(cs: &[char], i: usize) -> (b: bool)
    requires
        i < cs@.len(),
    ensures
        b == comment_line_at(cs@, i as int),
{
    if i > 0 && cs[i - 1] != '\n' {
        return false;
    }
    let j = blanks_end(cs, i);
    j < cs.len() && cs[j] == '#'
}

/// The start of the line after the one that holds `i`, or the end.
fn line_after(cs: &[char], i: usize) -> (e: usize)
    requires
        i < cs@.len(),
    ensures
        e as int == next_line(cs@, i as int),
        i < e <= cs@.len(),
{
    let mut k = i;
    while k < cs.len() && cs[k] != '\n'
        invariant
            i <= k <= cs@.len(),
            forall|m: int| i <= m < k ==> cs@[m] != '\n',
        decreases cs@.len() - k,
    {
        k += 1;
    }
    proof {
        crate::text::lemma_first_index_from(cs@, '\n', i as int);
        let f = crate::text::first_index_from(cs@, '\n', i as int);
        if k < cs@.len() {
            if f == -1 {
                assert(cs@[k as int] != '\n');
            } else if f < k {
                assert(cs@[f] != '\n');
            } else if f > k {
                assert(cs@[k as int] != '\n');
            }
        } else if f >= 0 {
            assert(cs@[f] != '\n');
        }
    }
    if k < cs.len() {
        k + 1
    } else {
        k
    }
}

/// The placeholders of `cs`.
fn scan_placeholders(cs: &[char]) -> (out: Vec<Vec<char>>)
    ensures
        out@.len() == placeholders(cs@).len(),
        forall|i: int| 0 <= i < out@.len() ==> #[trigger] out@[i]@ == placeholders(cs@)[i],
{
    let n = cs.len();
    let ghost s = cs@;
    let ghost mut done: Seq<Seq<char>> = Seq::empty();
    let mut out: Vec<Vec<char>> = Vec::new();
    let mut i: usize = 0;
    while i < n
        invariant
            n == cs@.len(),
            s == cs@,
            i <= n,
            placeholders(s) == done + placeholders_from(s, i as int),
            out@.len() == done.len(),
            forall|k: int| 0 <= k < out@.len() ==> #[trigger] out@[k]@ == done[k],
        decreases n - i,
    {
        if starts_comment_line(cs, i) {
            let e = line_after(cs, i);
            assert(placeholders_from(s, i as int) == placeholders_from(s, e as int));
            i = e;
        } else if cs[i] == '$' && i + 1 < n && cs[i + 1] == '{' {
            let mut j: usize = i + 2;
            while j < n && cs[j] != '}'
                invariant
                    n == cs@.len(),
                    i + 2 <= j <= n,
                    forall|m: int| i + 2 <= m < j ==> cs@[m] != '}',
                decreases n - j,
            {
                j += 1;
            }
            proof {
                crate::text::lemma_first_index_from(s, '}', i + 2);
            }
            if j < n && j > i + 2 {
                assert(crate::text::first_index_from(s, '}', i + 2) == j);
                let piece = slice_chars(cs, i + 2, j);
                proof {
                    assert(placeholders_from(s, i as int) == seq![piece@] + placeholders_from(s, j + 1));
                    assert(done + placeholders_from(s, i as int) == done.push(piece@) + placeholders_from(s, j + 1));
                    done = done.push(piece@);
                }
                out.push(piece);
                i = j + 1;
            } else {
                proof {
                    if j < n {
                        assert(crate::text::first_index_from(s, '}', i + 2) == j);
                    } else {
                        assert(crate::text::first_index_from(s, '}', i + 2) == -1);
                    }
                    assert(placeholders_from(s, i as int) == placeholders_from(s, i + 1));
                }
                i += 1;
            }
        } else {
            assert(placeholders_from(s, i as int) == placeholders_from(s, i + 1));
            i += 1;
        }
    }
    assert(done + placeholders_from(s, i as int) == done);
    out
}

/// The variable names of the placeholders of `content`, in order: the
/// variables whose values `interpolate_env_vars` may need.
pub fn placeholder_names(content: &str) -> (out: Vec<String>)
    ensures
        strings_view(out@) == Seq::new(
            placeholders(content@).len(),
            |i: int| split_default(placeholders(content@)[i]).0,
        ),
{
    let cs = chars_of(content);
    let ps = scan_placeholders(cs.as_slice());
    let mut out: Vec<String> = Vec::new();
    let mut i: usize = 0;
    while i < ps.len()
        invariant
            i <= ps@.len(),
            ps@.len() == placeholders(content@).len(),
            forall|k: int| 0 <= k < ps@.len() ==> #[trigger] ps@[k]@ == placeholders(content@)[k],
            out@.len() == i,
            forall|k: int| 0 <= k < i ==> (#[trigger] out@[k])@ == split_default(placeholders(content@)[k]).0,
        decreases ps@.len() - i,
    {
        let (name, _) = split_placeholder(ps[i].as_slice());
        out.push(string_of(name.as_slice()));
        i += 1;
    }
    assert(strings_view(out@) =~= Seq::new(
        placeholders(content@).len(),
        |i: int| split_default(placeholders(content@)[i]).0,
    ));
    out
}

/// Splits a placeholder's text into its name and default.
fn split_placeholder(e: &[char]) -> (r: (Vec<char>, Option<Vec<char>>))
    ensures
        r.0@ == split_default(e@).0,
        match split_default(e@).1 {
            Some(d) => r.1 matches Some(v) && v@ == d,
            None => r.1 is None,
        },
{
    proof {
        reveal_strlit(":-");
    }
    let sep = chars_of(":-");
    let n = e.len();
    match crate::text::find(e, sep.as_slice()) {
        Some(j) => {
            proof {
                assert(crate::text::contains_seq(e@, ":-"@));
                let c = first_occurrence(e@, ":-"@);
                assert(crate::text::occurs_at(e@, ":-"@, c));
                if c < j {
                    assert(!crate::text::occurs_at(e@, ":-"@, c));
                }
                if j < c {
                    assert(!crate::text::occurs_at(e@, ":-"@, j as int));
                }
            }
            (slice_chars(e, 0, j), Some(slice_chars(e, j + 2, n)))
        },
        None => (slice_chars(e, 0, n), None),
    }
}

/// Whether `name` is that of a value that comes at run time.
fn is_runtime_name(name: &[char]) -> (b: bool)
    ensures
        b == runtime_name(name@),
{
    if crate::text::chars_eq_str(name, "REQUEST_ID") || crate::text::chars_eq_str(name, "TIMESTAMP_MS")
        || crate::text::chars_eq_str(name, "MESSAGE_ID") {
        return true;
    }
    is_extracted_name(name)
}

/// Whether `name` consists of lowercase letters and underscores.
fn is_extracted_name(name: &[char]) -> (b: bool)
    ensures
        b == extracted_name(name@),
{
    let mut i: usize = 0;
    while i < name.len()
        invariant
            i <= name@.len(),
            forall|k: int| 0 <= k < i ==> crate::text::lower_char(#[trigger] name@[k]) || name@[k] == '_',
        decreases name@.len() - i,
    {
        let c = name[i];
        if !(crate::text::char_is_lowercase(c) || c == '_') {
            return false;
        }
        i += 1;
    }
    true
}

/// The value of `name` in `env`.
fn lookup_env(env: &[(String, Option<String>)], name: &[char]) -> (r: Option<String>)
    ensures
        opt_view(r) == env_lookup(env@, name@),
{
    let mut i: usize = 0;
    while i < env.len()
        invariant
            i <= env@.len(),
            env_lookup(env@, name@) == env_lookup_from(env@, name@, i as int),
        decreases env@.len() - i,
    {
        let k = chars_of(env[i].0.as_str());
        if crate::text::chars_eq(k.as_slice(), name) {
            return copy_opt(&env[i].1);
        }
        i += 1;
    }
    None
}

/// Handles one placeholder `${e}` in the text `r`.
fn interpolate_one(r: &[char], e: &[char], env: &[(String, Option<String>)]) -> (out: Result<Vec<char>, String>)
    ensures
        match placeholder_step(r@, e@, env@) {
            Ok(t) => out matches Ok(v) && v@ == t,
            Err(m) => out matches Err(s) && s@ == m,
        },
{
    proof {
        reveal_strlit("${");
        reveal_strlit("}");
    }
    let (name, default) = split_placeholder(e);
    if is_runtime_name(name.as_slice()) {
        return Ok(slice_chars(r, 0, r.len()));
    }
    let mut full: Vec<char> = Vec::new();
    extend_str(&mut full, "${");
    extend_chars(&mut full, e);
    extend_str(&mut full, "}");
    let value: Vec<char> = match lookup_env(env, name.as_slice()) {
        Some(v) => chars_of(v.as_str()),
        None => match default {
            Some(d) => d,
            None => {
                let mut m: Vec<char> = Vec::new();
                extend_str(&mut m, "Environment variable '");
                extend_chars(&mut m, name.as_slice());
                extend_str(&mut m, "' not set");
                return Err(string_of(m.as_slice()));
            },
        },
    };
    Ok(crate::text::replace_all(r, full.as_slice(), value.as_slice()))
}

/// Replaces every `${NAME}` and `${NAME:-DEFAULT}` placeholder of the
/// configuration text by the value of the environment variable, or else
/// its default. Placeholders on comment lines are not looked at, and those
/// of values that come at run time (all-lowercase extracted names,
/// `REQUEST_ID`, `TIMESTAMP_MS`, `MESSAGE_ID`) are left as they are. `env`
/// holds the values of the variables that the caller looked up (see
/// `placeholder_names`).
pub fn interpolate_env_vars(content: &str, env: &[(String, Option<String>)]) -> (r: Result<String, String>)
    ensures
        match interpolate_spec(content@, env@) {
            Ok(t) => r matches Ok(s) && s@ == t,
            Err(e) => r matches Err(m) && m@ == e,
        },
{
    proof {
        reveal_strlit("${");
        reveal_strlit("}");
    }
    let cs = chars_of(content);
    let ps = scan_placeholders(cs.as_slice());
    let ghost pv = placeholders(content@);
    let mut result: Vec<char> = slice_chars(cs.as_slice(), 0, cs.len());
    assert(cs@.subrange(0, cs@.len() as int) == cs@);
    let mut i: usize = 0;
    while i < ps.len()
        invariant
            i <= ps@.len(),
            pv == placeholders(content@),
            ps@.len() == pv.len(),
            forall|k: int| 0 <= k < ps@.len() ==> #[trigger] ps@[k]@ == pv[k],
            interpolate_upto(content@, env@, pv, i as int) == Ok::<Seq<char>, Seq<char>>(result@),
        decreases ps@.len() - i,
    {
        match interpolate_one(result.as_slice(), ps[i].as_slice(), env) {
            Ok(next) => {
                result = next;
            },
            Err(m) => {
                proof {
                    lemma_interpolate_err_stable(content@, env@, pv, i + 1, pv.len() as int);
                }
                return Err(m);
            },
        }
        i += 1;
    }
    Ok(string_of(result.as_slice()))
}

/// The message for a configuration file that did not parse, from the
/// parser's message: unknown threshold metrics get the list of valid ones.
pub fn config_parse_error(err: &str) -> (s: String)
    ensures
        s@ == (if crate::text::contains_seq(err@, "thresholds"@) && crate::text::contains_seq(err@, "unknown field"@) {
            "Unknown threshold metric in config file.\nValid metrics: p50_latency_ms, p75_latency_ms, p90_latency_ms, p95_latency_ms,\np99_latency_ms, p999_latency_ms, mean_latency_ms, max_latency_ms,\nerror_rate, rps, check_pass_rate\n\nError: "@ + err@
        } else {
            "Failed to parse config file: "@ + err@
        }),
{
    let ec = chars_of(err);
    if crate::text::contains_str(ec.as_slice(), "thresholds") && crate::text::contains_str(ec.as_slice(), "unknown field") {
        message2("Unknown threshold metric in config file.\nValid metrics: p50_latency_ms, p75_latency_ms, p90_latency_ms, p95_latency_ms,\np99_latency_ms, p999_latency_ms, mean_latency_ms, max_latency_ms,\nerror_rate, rps, check_pass_rate\n\nError: ", err)
    } else {
        message2("Failed to parse config file: ", err)
    }
}

} // verus!
