//! The sidecar's settings, registry, routes and answers.

use fffq::call::reports_health;
use fffq::http::parse_http_url;
use fffq::launch::Discovery;
use fffq::query::Query;
use fffq::registry::{
    _system_time_ms, default_registry_path, dirs_home, name_of_hash, registry_path,
    registry_target, sidecar_hash, sidecar_registry,
};
use fffq::retry::is_retryable_sidecar_error;
use fffq::sidecar::{
    database_paths, fffq_batch, fffq_error, fffq_health, fffq_text, health, indexed_path,
    normalize_http_path, picker_options, rescan_action, rescan_interval, rescan_step,
    resolve_defaults, routes, start_path, Handler, McpTransport, Method, RescanAction, RescanEvent,
    RescanPhase, SearchTool, ServerArgs,
};

fn args() -> ServerArgs {
    ServerArgs {
        base_path: None,
        frecency_db_path: None,
        history_db_path: None,
        log_file: None,
        log_level: None,
        no_update_check: false,
        no_warmup: false,
        no_content_indexing: false,
        content_indexing: false,
        no_watch: false,
        poll_interval_secs: None,
        max_cached_files: None,
        transport: McpTransport::Stdio,
        http_bind: "127.0.0.1:8761".to_string(),
        http_path: "/mcp".to_string(),
        registry_path: None,
        healthcheck: false,
    }
}

#[test]
fn log_file_defaults_below_home() {
    let mut unix = args();
    resolve_defaults(&mut unix, "/home/u", false);
    assert_eq!(unix.log_file.as_deref(), Some("/home/u/.cache/fff_mcp.log"));
    let mut windows = args();
    resolve_defaults(&mut windows, "C:\\Users\\u", true);
    assert_eq!(
        windows.log_file.as_deref(),
        Some("C:\\Users\\u\\AppData\\Local\\fff_mcp.log")
    );
    let mut given = args();
    given.log_file = Some("/tmp/l".to_string());
    resolve_defaults(&mut given, "/home/u", false);
    assert_eq!(given.log_file.as_deref(), Some("/tmp/l"));
}

#[test]
fn database_paths_are_those_that_were_given() {
    let mut given = args();
    assert!(database_paths(&given).is_empty());
    given.history_db_path = Some("/h".to_string());
    assert_eq!(database_paths(&given), vec!["/h"]);
    given.frecency_db_path = Some("/f".to_string());
    assert_eq!(database_paths(&given), vec!["/f", "/h"]);
}

#[test]
fn content_indexing_follows_the_warm_up_unless_told() {
    let indexes = |no_warmup, no_content_indexing, content_indexing| {
        let mut given = args();
        given.no_warmup = no_warmup;
        given.no_content_indexing = no_content_indexing;
        given.content_indexing = content_indexing;
        picker_options(&given, "/repo".to_string()).enable_content_indexing
    };
    assert!(indexes(false, false, false));
    assert!(!indexes(true, false, false));
    assert!(!indexes(false, true, false));
    assert!(indexes(true, true, true));
    assert!(indexes(true, false, true));
}

#[test]
fn picker_options_follow_the_settings() {
    let mut given = args();
    given.no_watch = true;
    given.max_cached_files = Some(20000);
    let options = picker_options(&given, "/repo".to_string());
    assert_eq!(options.base_path, "/repo");
    assert!(options.enable_mmap_cache);
    assert!(!options.watch);
    assert_eq!(options.max_cached_files, Some(20000));
}

#[test]
fn indexed_path_is_the_repository_if_there_is_one() {
    assert_eq!(start_path(Some("/a".to_string()), "/cwd".to_string()), "/a");
    assert_eq!(start_path(None, "/cwd".to_string()), "/cwd");
    let found = |discovery| indexed_path("/start".to_string(), discovery);
    assert_eq!(found(Discovery::Workdir("/repo/".to_string())), "/repo/");
    assert_eq!(found(Discovery::Bare), "/start");
    assert_eq!(found(Discovery::Missing), "/start");
}

#[test]
fn interval_of_zero_means_no_rescan() {
    assert_eq!(rescan_interval(Some(300)), Some(300));
    assert_eq!(rescan_interval(Some(0)), None);
    assert_eq!(rescan_interval(None), None);
}

#[test]
fn transports_have_names() {
    assert_eq!(McpTransport::from_name("stdio"), Some(McpTransport::Stdio));
    assert_eq!(McpTransport::from_name("streamable-http"), Some(McpTransport::StreamableHttp));
    assert_eq!(McpTransport::from_name("Stdio"), None);
}

#[test]
fn http_path_gets_a_slash_once() {
    assert_eq!(normalize_http_path("mcp"), "/mcp");
    assert_eq!(normalize_http_path("/mcp"), "/mcp");
    assert_eq!(normalize_http_path(""), "/");
    assert_eq!(normalize_http_path(&normalize_http_path("a/b")), "/a/b");
}

#[test]
fn hash_is_sixteen_hexadecimal_digits() {
    let hash = sidecar_hash("/tmp/example");
    assert_eq!(hash, "f41a30cd85f04889");
    assert_ne!(sidecar_hash("/tmp/example/"), hash);
    assert_eq!(sidecar_hash("").len(), 16);
    assert_eq!(sidecar_hash(""), "af1349b9f5f9a1a6");
    let mut digest = [0u8; 32];
    digest[0] = 0xa0;
    digest[1] = 0x0b;
    digest[8] = 0xff;
    assert_eq!(name_of_hash(digest), "a00b000000000000");
}

#[test]
fn registry_lies_below_home() {
    assert_eq!(
        default_registry_path("/home/u", "/tmp/example").join("/"),
        "/home/u/.cache/fff/sidecars/f41a30cd85f04889.json"
    );
    assert_eq!(
        registry_path(None, "/tmp/example").join("/"),
        "/tmp/.cache/fff/sidecars/f41a30cd85f04889.json"
    );
    assert_eq!(
        registry_target(None, "/home/u", "/tmp/example"),
        registry_path(Some("/home/u".to_string()), "/tmp/example")
    );
}

#[test]
fn home_is_found_in_the_environment() {
    let home = |home: Option<&str>, profile: Option<&str>| {
        dirs_home(home.map(str::to_string), profile.map(str::to_string))
    };
    assert_eq!(home(Some("/h"), Some("/p")), "/h");
    assert_eq!(home(None, Some("/p")), "/p");
    assert_eq!(home(None, None), "/tmp");
}

#[test]
fn client_and_sidecar_share_the_registry() {
    let root = "/repo";
    for home in [Some("/h".to_string()), None] {
        let sidecar = registry_target(None, &dirs_home(home.clone(), None), root);
        assert_eq!(sidecar, registry_path(home, root));
    }
}

#[test]
fn times_are_counted_in_milliseconds() {
    assert_eq!(_system_time_ms(Ok((12, 345_999_999))), Ok(12_345));
    assert_eq!(_system_time_ms(Ok((u64::MAX, 999_999_999))), Ok(u64::MAX as u128 * 1000 + 999));
    assert_eq!(_system_time_ms(Err("earlier".to_string())), Err("earlier".to_string()));
}

#[test]
fn every_request_of_the_client_has_a_route() {
    let registry = sidecar_registry("/repo", 1, "127.0.0.1:54321", &normalize_http_path("mcp"), 1);
    let queries = [
        Query::Find { query: String::new(), max_results: 1, cursor: None },
        Query::Grep {
            query: String::new(),
            max_results: 1,
            output_mode: String::new(),
            cursor: None,
        },
        Query::MultiGrep {
            patterns: Vec::new(),
            constraints: None,
            max_results: 1,
            output_mode: String::new(),
            cursor: None,
            context: None,
        },
    ];
    let handlers = [Handler::Find, Handler::Grep, Handler::MultiGrep];
    for (query, handler) in queries.iter().zip(handlers) {
        let url = format!("{}/{}", registry.fffq_url, query.direct_tool());
        let parsed = parse_http_url(&url).unwrap();
        assert_eq!((parsed.host.as_str(), parsed.port), ("127.0.0.1", 54321));
        assert!(routes()
            .iter()
            .any(|r| r.method == Method::Post && r.path == parsed.path && r.handler == handler));
    }
    let named = |path: &str, method, handler| {
        routes().iter().any(|r| r.method == method && r.path == path && r.handler == handler)
    };
    assert!(named("/health", Method::Get, Handler::Health));
    assert!(named("/fffq/health", Method::Get, Handler::FffqHealth));
    assert!(named("/fffq/batch", Method::Post, Handler::Batch));
    assert_eq!(routes().len(), 6);
    assert_eq!(parse_http_url(&registry.mcp_url).unwrap().path, "/mcp");
}

#[test]
fn health_is_reported_with_the_root() {
    assert_eq!(health(), "ok");
    let report = fffq_health("/repo".to_string(), 7, "0.1.0".to_string());
    assert!(report.ok);
    assert_eq!((report.root.as_str(), report.pid, report.version.as_str()), ("/repo", 7, "0.1.0"));
    let written = format!(
        "{{\"ok\":{},\"root\":\"{}\",\"pid\":{},\"version\":\"{}\"}}",
        report.ok, report.root, report.pid, report.version
    );
    let read = serde_json::from_str(&written).unwrap();
    assert!(reports_health(&read, "/repo"));
    assert!(!reports_health(&read, "/other"));
}

#[test]
fn searches_are_answered_with_text_or_an_error() {
    assert_eq!(fffq_text(Ok("a.rs".to_string())).unwrap().text, "a.rs");
    let (status, body) = fffq_text(Err("bad query".to_string())).unwrap_err();
    assert_eq!((status, body.error.as_str()), (500, "bad query"));
    let (status, body) = fffq_error("x".to_string());
    assert_eq!((status, body.error.as_str()), (500, "x"));
}

#[test]
fn batch_answers_keep_the_order() {
    let response = fffq_batch(vec![
        (SearchTool::FindFiles, Ok("a.rs".to_string())),
        (SearchTool::Grep, Err("bad".to_string())),
        (SearchTool::MultiGrep, Ok("b.rs".to_string())),
    ]);
    let told: Vec<(bool, &str, &str)> = response
        .results
        .iter()
        .map(|item| (item.ok, item.tool.as_str(), item.text.as_str()))
        .collect();
    assert_eq!(
        told,
        vec![(true, "find_files", "a.rs"), (false, "grep", "bad"), (true, "multi_grep", "b.rs")]
    );
    assert!(fffq_batch(Vec::new()).results.is_empty());
    assert_eq!(SearchTool::Grep.name(), "grep");
}

#[test]
fn every_sign_of_a_lost_sidecar_is_retryable() {
    for sign in [
        "Connection refused",
        "connection refused",
        "Connection reset",
        "connection reset",
        "Broken pipe",
        "broken pipe",
        "timed out",
        "empty HTTP response from sidecar",
        "malformed HTTP response",
    ] {
        assert!(is_retryable_sidecar_error(sign));
        assert!(is_retryable_sidecar_error(&format!("before {sign} after")));
    }
    assert!(!is_retryable_sidecar_error("CONNECTION REFUSED"));
    assert!(!is_retryable_sidecar_error(""));
}

#[test]
fn rescans_are_waited_for_only_if_requested() {
    let mut phase = RescanPhase::Sleeping;
    let mut done: Vec<RescanAction> = Vec::new();
    for event in [
        RescanEvent::Passed,
        RescanEvent::Requested,
        RescanEvent::Passed,
        RescanEvent::Passed,
        RescanEvent::Failed,
        RescanEvent::Passed,
    ] {
        done.push(rescan_action(phase, 300));
        phase = rescan_step(phase, event);
    }
    assert_eq!(
        done,
        vec![
            RescanAction::Sleep(300),
            RescanAction::Request,
            RescanAction::Wait(300),
            RescanAction::Sleep(300),
            RescanAction::Request,
            RescanAction::Sleep(300),
        ]
    );
    assert_eq!(phase, RescanPhase::Requesting);
    assert_eq!(rescan_step(phase, RescanEvent::Passed), RescanPhase::Requesting);
}
