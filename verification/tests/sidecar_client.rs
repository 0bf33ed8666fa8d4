//! The client's and the sidecar's promises, by example.

use fffq::http::{parse_http_response, parse_http_url};
use fffq::registry::{registry_path, registry_target, sidecar_registry};
use fffq::retry::is_retryable_sidecar_error;
use fffq::sidecar::{normalize_http_path, McpTransport};
use fffq::sse::extract_json_body;

#[test]
fn registry_hash_is_stable() {
    assert_eq!(
        registry_path(None, "/tmp/example").last().unwrap(),
        "f41a30cd85f04889.json"
    );
}

#[test]
fn parses_sidecar_url() {
    let parsed = parse_http_url("http://127.0.0.1:8761/fffq/find").unwrap();
    assert_eq!(parsed.host, "127.0.0.1");
    assert_eq!(parsed.port, 8761);
    assert_eq!(parsed.path, "/fffq/find");
}

#[test]
fn extracts_sse_json() {
    let body = "event: message\ndata: {\"jsonrpc\":\"2.0\",\"id\":2}\n\n";
    assert_eq!(
        extract_json_body(body).unwrap(),
        "{\"jsonrpc\":\"2.0\",\"id\":2}"
    );
}

#[test]
fn empty_http_response_is_reported_as_sidecar_failure() {
    let error = parse_http_response(b"").unwrap_err().message();
    assert_eq!(error, "empty HTTP response from sidecar");
    assert!(is_retryable_sidecar_error(&error));
}

#[test]
fn retryable_sidecar_errors_match_observed_failure() {
    let error = "direct fffq HTTP failed: malformed HTTP response; streamable HTTP MCP fallback also failed: Connection refused (os error 61)";
    assert!(is_retryable_sidecar_error(error));
}

#[test]
fn http_status_errors_do_not_force_sidecar_restart() {
    let error = "direct fffq HTTP returned 400; streamable HTTP MCP fallback also failed: MCP error: invalid request";
    assert!(!is_retryable_sidecar_error(error));
}

#[test]
fn parses_streamable_http_transport_flags() {
    let command = clap::Command::new("fff-mcp")
        .arg(clap::Arg::new("transport").long("transport"))
        .arg(clap::Arg::new("http_bind").long("http-bind"))
        .arg(clap::Arg::new("http_path").long("http-path"));
    let args = command
        .try_get_matches_from([
            "fff-mcp",
            "--transport",
            "streamable-http",
            "--http-bind",
            "127.0.0.1:9999",
            "--http-path",
            "mcp",
        ])
        .expect("parse streamable HTTP args");
    let transport: &String = args.get_one("transport").unwrap();
    let http_bind: &String = args.get_one("http_bind").unwrap();
    let http_path: &String = args.get_one("http_path").unwrap();

    assert_eq!(McpTransport::from_name(transport), Some(McpTransport::StreamableHttp));
    assert_eq!(http_bind, "127.0.0.1:9999");
    assert_eq!(normalize_http_path(http_path), "/mcp");
}

#[test]
fn writes_sidecar_registry_with_http_and_mcp_urls() {
    let root = "/tmp/fff-mcp-http-test";
    let path = "/tmp/fff-mcp-http-test/sidecar.json".to_string();

    let written = registry_target(Some(path.clone()), "/home/user", root);
    assert_eq!(written, vec![path]);

    let registry = sidecar_registry(root, 4711, "127.0.0.1:54321", "/mcp", 1_700_000_000_123);
    assert_eq!(registry.root, root);
    assert_eq!(registry.mcp_url, "http://127.0.0.1:54321/mcp");
    assert_eq!(registry.fffq_url, "http://127.0.0.1:54321/fffq");
    assert_eq!(registry.http_url, "http://127.0.0.1:54321");
    assert_eq!(registry.pid, 4711);
    assert_eq!(registry.started_at_ms, 1_700_000_000_123);
}
