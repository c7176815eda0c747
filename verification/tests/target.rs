use kaioken::config::{merge_config, RunArgs};
use kaioken::grpc::{grpc_call_config, GrpcMethod};
use kaioken::target::{grpc_target, http3_target};

fn args(url: &str) -> RunArgs {
    RunArgs { url: Some(url.to_string()), ..RunArgs::default() }
}

#[test]
fn grpc_target_uses_default_ports() {
    assert_eq!(grpc_target("https://api.example.com").unwrap(), ("api.example.com:443".to_string(), true));
    assert_eq!(grpc_target("http://localhost").unwrap(), ("localhost:80".to_string(), false));
}

#[test]
fn grpc_target_keeps_explicit_port() {
    assert_eq!(grpc_target("http://localhost:50051").unwrap(), ("localhost:50051".to_string(), false));
    assert_eq!(grpc_target("https://10.0.0.1:8443/x").unwrap(), ("10.0.0.1:8443".to_string(), true));
}

#[test]
fn grpc_target_refuses_bad_urls() {
    let e = grpc_target("not a url").unwrap_err();
    assert!(e.starts_with("Invalid URL: "), "{}", e);
    assert!(e.len() > "Invalid URL: ".len());
    assert_eq!(grpc_target("unix:/tmp/socket").unwrap_err(), "Missing host in URL");
}

#[test]
fn http3_target_reads_host_port_and_path() {
    assert_eq!(
        http3_target("https://quic.example.com/api/items?page=2").unwrap(),
        ("quic.example.com".to_string(), 443, "/api/items?page=2".to_string())
    );
    assert_eq!(
        http3_target("https://quic.example.com:4433").unwrap(),
        ("quic.example.com".to_string(), 4433, "/".to_string())
    );
    assert_eq!(http3_target("https://h/?q").unwrap().2, "/?q");
}

#[test]
fn http3_target_refuses_bad_urls() {
    assert!(http3_target("::").unwrap_err().starts_with("Invalid URL: "));
    assert_eq!(http3_target("data:text/plain,hello").unwrap_err(), "Missing host in URL");
}

#[test]
fn grpc_call_config_takes_the_run_settings() {
    let mut c = merge_config(&args("http://localhost:50051"), None, &[], &[]).unwrap();
    c.grpc_service = Some("helloworld.Greeter".to_string());
    c.grpc_method = Some("SayHello".to_string());
    c.body = Some("héllo".to_string());
    c.headers = vec![("x-token".to_string(), "abc".to_string())];
    c.insecure = true;
    let g = grpc_call_config(&c, "localhost:50051", false).unwrap();
    assert_eq!(g.address, "localhost:50051");
    assert_eq!(g.service, "helloworld.Greeter");
    assert_eq!(g.method, "SayHello");
    assert_eq!(g.request, "héllo".as_bytes().to_vec());
    assert_eq!(g.timeout_us, c.timeout_us);
    assert!(!g.tls);
    assert!(g.insecure);
    assert_eq!(g.method_type, GrpcMethod::Unary);
    assert_eq!(g.metadata, vec![("x-token".to_string(), "abc".to_string())]);

    c.body_bytes = Some(vec![0x0a, 0x03, 0xff]);
    assert_eq!(grpc_call_config(&c, "a:1", true).unwrap().request, vec![0x0a, 0x03, 0xff]);
    c.body_bytes = None;
    c.body = None;
    assert!(grpc_call_config(&c, "a:1", true).unwrap().request.is_empty());
}

#[test]
fn grpc_call_config_needs_service_and_method() {
    let mut c = merge_config(&args("http://localhost:50051"), None, &[], &[]).unwrap();
    assert_eq!(grpc_call_config(&c, "a:1", false).unwrap_err(), "gRPC service not specified");
    c.grpc_service = Some("s.S".to_string());
    assert_eq!(grpc_call_config(&c, "a:1", false).unwrap_err(), "gRPC method not specified");
}
