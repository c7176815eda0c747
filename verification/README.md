# kaioken

An HTTP, WebSocket, gRPC and HTTP/3 load-testing tool whose decision-making core is a
library verified with Verus.

## Layout

- `src/` — the verified library:
  - `config.rs`: command-line and file settings merged into one run
    configuration, with every validation error; headers, basic auth,
    stages, thresholds, checks, scenarios, environment placeholders.
  - `check.rs`: response checks (syntax, evaluation, per-name tallies).
  - `har.rs`: turning a HAR recording into a configuration file.
  - `engine.rs`: the run mode, the plans of each mode, weighted scenario
    choice, variable interpolation, the request of each iteration, the
    exit status.
  - `scheduler.rs`: token-bucket rate limiting, ramp-up, stages, the
    virtual-user pool and ramping arrival rates.
  - `stats.rs`, `ws.rs`: the statistics of HTTP and WebSocket runs.
  - `aggregate.rs`: warmup, counting of results and the request limit.
  - `output.rs`, `compare.rs`: report records, redaction, comparison of
    saved runs.
  - `target.rs`: where gRPC and HTTP/3 runs send their calls, read from
    the target URL.
  - `debug.rs`: what a debug request shows of request and response
    bodies.
  - `types.rs`, `grpc.rs`, `http3.rs`, `flavor.rs`, `text.rs`,
    `clock.rs`, `pattern.rs`: shared types, protocol outcomes, wording,
    text algorithms, clocks and compiled patterns.
- `tests/` — tests of the library on concrete values.
- `app/` — the program around the library: command line, files, the
  network, the asynchronous engine, the terminal view and the reports
  computed in floating point.
