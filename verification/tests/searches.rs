//! Searches, the JSON that goes out for them, and the answers that come back.

use fffq::call::{
    call_batch_once, call_request, call_text_once, http_get_json, initialize_text,
    initialized_text, read_direct_text, read_tool_text, reports_health, session_id,
    tool_call_text, CallPhase,
};
use fffq::http::HttpResponse;
use fffq::json::{json_optional_number, json_optional_str, json_strings};
use fffq::query::Query;
use fffq::registry::{sidecar_registry, Registry};
use fffq::sse::extract_json_body;

fn registry() -> Registry {
    sidecar_registry("/repo", 7, "127.0.0.1:54321", "/mcp", 1)
}

fn reply(status: u16, body: &str) -> Result<HttpResponse, String> {
    Ok(HttpResponse { status, headers: Vec::new(), body: body.to_string() })
}

fn value(text: &str) -> serde_json::Value {
    serde_json::from_str(text).unwrap()
}

fn find() -> Query {
    Query::Find { query: "README \"x\"".to_string(), max_results: 20, cursor: None }
}

fn failed(phase: CallPhase<String>) -> String {
    match phase {
        CallPhase::Done(Err(message)) => message,
        other => panic!("{other:?}"),
    }
}

#[test]
fn find_payload_is_complete() {
    assert_eq!(
        find().payload().to_string(),
        "{\"cursor\":null,\"maxResults\":20,\"query\":\"README \\\"x\\\"\"}"
    );
    assert_eq!(find().direct_tool(), "find");
    assert_eq!(find().mcp_tool(), "find_files");
}

#[test]
fn grep_payload_is_complete() {
    let query = Query::Grep {
        query: "fn main".to_string(),
        max_results: 5,
        output_mode: "content".to_string(),
        cursor: Some("c1".to_string()),
    };
    assert_eq!(
        query.payload().to_string(),
        "{\"cursor\":\"c1\",\"maxResults\":5,\"output_mode\":\"content\",\"query\":\"fn main\"}"
    );
    assert_eq!(query.direct_tool(), "grep");
    assert_eq!(query.mcp_tool(), "grep");
}

#[test]
fn multi_grep_payload_is_complete() {
    let query = Query::MultiGrep {
        patterns: vec!["foo".to_string(), "bar".to_string()],
        constraints: Some("*.rs".to_string()),
        max_results: 50,
        output_mode: "path".to_string(),
        cursor: None,
        context: Some(2),
    };
    assert_eq!(
        query.payload().to_string(),
        "{\"constraints\":\"*.rs\",\"context\":2,\"cursor\":null,\"maxResults\":50,\"output_mode\":\"path\",\"patterns\":[\"foo\",\"bar\"]}"
    );
    assert_eq!(query.direct_tool(), "multi-grep");
    assert_eq!(query.mcp_tool(), "multi_grep");
    assert_eq!(query.check(), Ok(()));
}

#[test]
fn multi_grep_needs_a_pattern() {
    let query = Query::MultiGrep {
        patterns: Vec::new(),
        constraints: None,
        max_results: 20,
        output_mode: "content".to_string(),
        cursor: None,
        context: None,
    };
    assert_eq!(query.check(), Err("multi-grep requires at least one pattern".to_string()));
    assert_eq!(find().check(), Ok(()));
}

#[test]
fn missing_values_are_null() {
    assert!(json_optional_str(&None).is_null());
    assert_eq!(json_optional_str(&Some("a".to_string())), "a");
    assert!(json_optional_number(None).is_null());
    assert_eq!(json_optional_number(Some(3)), 3);
    assert_eq!(json_strings(&vec!["a".to_string(), "b".to_string()]).to_string(), "[\"a\",\"b\"]");
}

#[test]
fn mcp_messages_are_complete() {
    assert_eq!(
        value(&initialize_text("0.1.0")),
        value("{\"jsonrpc\":\"2.0\",\"id\":1,\"method\":\"initialize\",\"params\":{\"protocolVersion\":\"2025-06-18\",\"capabilities\":{},\"clientInfo\":{\"name\":\"fffq\",\"version\":\"0.1.0\"}}}")
    );
    assert_eq!(
        value(&initialized_text()),
        value("{\"jsonrpc\":\"2.0\",\"method\":\"notifications/initialized\",\"params\":{}}")
    );
    assert_eq!(
        tool_call_text("find_files", find().payload()),
        "{\"id\":2,\"jsonrpc\":\"2.0\",\"method\":\"tools/call\",\"params\":{\"arguments\":{\"cursor\":null,\"maxResults\":20,\"query\":\"README \\\"x\\\"\"},\"name\":\"find_files\"}}"
    );
}

#[test]
fn requests_follow_the_phase() {
    let registry = registry();
    let text = |phase: CallPhase<String>| {
        call_request(&registry, &find(), "0.1.0", &phase).map(|request| request.unwrap().text)
    };
    let failure = "f".to_string();
    let session = "s1".to_string();

    let direct = text(CallPhase::Direct).unwrap();
    assert!(direct.starts_with("POST /fffq/find HTTP/1.1\r\nHost: 127.0.0.1\r\n"));
    assert!(!direct.contains("Accept:"));
    assert!(direct.ends_with(&format!("\r\n\r\n{}", find().payload())));

    let opening = text(CallPhase::Opening { failure: failure.clone() }).unwrap();
    assert!(opening.starts_with("POST /mcp HTTP/1.1\r\n"));
    assert!(opening.contains("\r\nAccept: application/json, text/event-stream\r\n\r\n"));
    assert!(opening.ends_with(&initialize_text("0.1.0")));

    let announcing =
        text(CallPhase::Announcing { failure: failure.clone(), session: session.clone() }).unwrap();
    assert!(announcing.contains("text/event-stream\r\nMcp-Session-Id: s1\r\n\r\n"));
    assert!(announcing.ends_with(&initialized_text()));

    let calling = text(CallPhase::Calling { failure, session }).unwrap();
    assert!(calling.contains("\r\nMcp-Session-Id: s1\r\n\r\n"));
    assert!(calling.ends_with(&tool_call_text("find_files", find().payload())));

    assert!(text(CallPhase::Done(Ok("t".to_string()))).is_none());
}

#[test]
fn direct_answer_settles_a_search() {
    match call_text_once(CallPhase::Direct, reply(200, "{\"text\":\"README.md\"}")) {
        CallPhase::Done(Ok(text)) => assert_eq!(text, "README.md"),
        other => panic!("{other:?}"),
    }
    assert_eq!(
        failed(call_text_once(CallPhase::Direct, reply(200, "{\"text\":1}"))),
        "unexpected fffq response: {\"text\":1}"
    );
    let parse_error = serde_json::from_str::<serde_json::Value>("<html>").unwrap_err();
    assert_eq!(
        failed(call_text_once(CallPhase::Direct, reply(200, "<html>"))),
        parse_error.to_string()
    );
}

#[test]
fn failed_direct_request_goes_the_way_round() {
    match call_text_once(CallPhase::Direct, reply(404, "gone")) {
        CallPhase::Opening { failure } => assert_eq!(failure, "direct fffq HTTP returned 404"),
        other => panic!("{other:?}"),
    }
    match call_text_once(CallPhase::Direct, Err("Broken pipe".to_string())) {
        CallPhase::Opening { failure } => {
            assert_eq!(failure, "direct fffq HTTP failed: Broken pipe")
        }
        other => panic!("{other:?}"),
    }
}

#[test]
fn way_round_ends_with_the_text_of_the_tool() {
    let failure = "direct fffq HTTP returned 404".to_string();
    let mut opened = reply(200, "").unwrap();
    opened.headers.push(("content-type".to_string(), "text/plain".to_string()));
    opened.headers.push(("MCP-session-ID".to_string(), "s1".to_string()));
    opened.headers.push(("Mcp-Session-Id".to_string(), "s2".to_string()));
    let phase = call_text_once(CallPhase::Opening { failure }, Ok(opened));
    match &phase {
        CallPhase::Announcing { session, .. } => assert_eq!(session, "s1"),
        other => panic!("{other:?}"),
    }
    let phase = call_text_once(phase, reply(202, ""));
    assert!(matches!(&phase, CallPhase::Calling { session, .. } if session == "s1"));
    let body = "event: message\ndata: {\"result\":{\"content\":[{\"type\":\"text\",\"text\":\"a.rs\"}]}}\n\n";
    match call_text_once(phase, reply(200, body)) {
        CallPhase::Done(Ok(text)) => assert_eq!(text, "a.rs"),
        other => panic!("{other:?}"),
    }
}

#[test]
fn failures_of_both_ways_are_told() {
    let opening = || CallPhase::Opening { failure: "direct fffq HTTP returned 500".to_string() };
    let calling = || CallPhase::Calling {
        failure: "direct fffq HTTP returned 500".to_string(),
        session: "s1".to_string(),
    };
    let announcing = || CallPhase::Announcing {
        failure: "direct fffq HTTP returned 500".to_string(),
        session: "s1".to_string(),
    };
    let both = "direct fffq HTTP returned 500; streamable HTTP MCP fallback also failed: ";
    assert_eq!(
        failed(call_text_once(opening(), reply(200, ""))),
        format!("{both}missing Mcp-Session-Id from initialize response")
    );
    assert_eq!(
        failed(call_text_once(opening(), Err("timed out".to_string()))),
        format!("{both}timed out")
    );
    assert_eq!(
        failed(call_text_once(announcing(), reply(400, "bad"))),
        format!("{both}HTTP 400: bad")
    );
    assert_eq!(
        failed(call_text_once(calling(), reply(200, "nothing"))),
        format!("{both}could not extract JSON from response: nothing")
    );
    assert_eq!(
        failed(call_text_once(calling(), reply(200, "{\"error\":{\"code\":-32602}}"))),
        format!("{both}MCP error: {{\"code\":-32602}}")
    );
}

#[test]
fn finished_call_stays_finished() {
    let done = CallPhase::Done(Ok("t".to_string()));
    match call_text_once(done, Err("x".to_string())) {
        CallPhase::Done(Ok(text)) => assert_eq!(text, "t"),
        other => panic!("{other:?}"),
    }
}

#[test]
fn tool_answers_are_read() {
    let text = |json: &str| read_tool_text(&value(json));
    assert_eq!(
        text("{\"result\":{\"content\":[{\"text\":\"a\"},{\"text\":\"b\"}]}}"),
        Ok("a".to_string())
    );
    assert_eq!(
        text("{\"error\":\"e\",\"result\":{\"content\":[{\"text\":\"a\"}]}}"),
        Err("MCP error: \"e\"".to_string())
    );
    assert_eq!(text("{\"error\":null}"), Err("MCP error: null".to_string()));
    assert_eq!(
        text("{\"result\": {\"content\": []}}"),
        Err("MCP response did not contain text content: {\"result\":{\"content\":[]}}".to_string())
    );
    assert_eq!(
        text("{\"result\":{\"content\":[{\"text\":5}]}}"),
        Err("MCP response did not contain text content: {\"result\":{\"content\":[{\"text\":5}]}}"
            .to_string())
    );
    assert_eq!(
        text("{\"result\":{\"content\":{\"0\":{\"text\":\"a\"}}}}"),
        Ok("a".to_string())
    );
}

#[test]
fn direct_answers_are_read() {
    assert_eq!(read_direct_text(&value("{\"text\":\"a\"}"), "b"), Ok("a".to_string()));
    assert_eq!(
        read_direct_text(&value("[\"text\"]"), "b"),
        Err("unexpected fffq response: b".to_string())
    );
}

#[test]
fn health_needs_a_yes_and_the_same_root() {
    let healthy = |json: &str| reports_health(&value(json), "/repo");
    assert!(healthy("{\"ok\":true,\"root\":\"/repo\",\"pid\":1,\"version\":\"0.1.0\"}"));
    assert!(!healthy("{\"ok\":false,\"root\":\"/repo\"}"));
    assert!(!healthy("{\"ok\":true,\"root\":\"/other\"}"));
    assert!(!healthy("{\"ok\":\"true\",\"root\":\"/repo\"}"));
    assert!(!healthy("{\"ok\":true}"));
    assert!(!healthy("{\"root\":\"/repo\"}"));
    assert!(!healthy("{\"ok\":true,\"root\":1}"));
    assert!(!healthy("[true]"));
}

#[test]
fn json_replies_are_parsed() {
    assert_eq!(http_get_json(reply(200, "{\"ok\":true}")), Ok(value("{\"ok\":true}")));
    assert_eq!(http_get_json(reply(500, "{}")), Err("HTTP 500: {}".to_string()));
    assert_eq!(http_get_json(Err("gone".to_string())), Err("gone".to_string()));
    assert!(http_get_json(reply(200, "{")).is_err());
}

#[test]
fn batch_replies_are_passed_on() {
    assert_eq!(call_batch_once(reply(200, "{\"results\":[]}")), Ok("{\"results\":[]}".to_string()));
    assert_eq!(call_batch_once(reply(422, "ops?")), Err("HTTP 422: ops?".to_string()));
    assert_eq!(call_batch_once(Err("timed out".to_string())), Err("timed out".to_string()));
}

#[test]
fn session_is_the_first_of_its_name() {
    assert_eq!(session_id(&Vec::new()), None);
    let other = vec![("Mcp-Session".to_string(), "x".to_string())];
    assert_eq!(session_id(&other), None);
}

#[test]
fn json_is_extracted_from_plain_and_streamed_bodies() {
    assert_eq!(extract_json_body(" \n{\"a\":1}\n "), Ok("{\"a\":1}".to_string()));
    assert_eq!(
        extract_json_body("data: ping\n\nid: 1\r\ndata:  {\"a\":1} \r\n\r\ndata: {\"b\":2}"),
        Ok("{\"a\":1}".to_string())
    );
    assert_eq!(
        extract_json_body(" data:{\"a\":1} "),
        Err("could not extract JSON from response: data:{\"a\":1}".to_string())
    );
    let body = "id: 1\ndata: {\"a\":1}\r\n\ndata: x";
    let once = extract_json_body(body).unwrap();
    assert!(body.contains(&once));
    assert_eq!(extract_json_body(&format!("\n \u{3000}{once}\t\r\n")), Ok(once));
    assert_eq!(
        extract_json_body("event: a\n\n\ndata: [1]\n\ndata:{}"),
        Err("could not extract JSON from response: event: a\n\n\ndata: [1]\n\ndata:{}".to_string())
    );
}
