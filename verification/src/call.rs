//! One call to a sidecar: a search on its own routes, with MCP over streamable HTTP as the way
//! round when these fail; a batch of searches; a look at its health.

use crate::http;
use crate::http::{HttpError, HttpRequest, HttpRequestView, HttpResponse, HttpResponseView};
use crate::json;
use crate::json::JsonView;
use crate::number;
use crate::query::{Query, QueryView};
use crate::registry::{Registry, RegistryView};
use crate::sse;
use crate::text;
use serde_json::Value;
use vstd::prelude::*;

verus! {

/// What came back for a request: a response, or the message of the failure.
pub open spec fn reply_view(reply: Result<HttpResponse, String>) -> Result<
    HttpResponseView,
    Seq<char>,
> {
    match reply {
        Ok(response) => Ok(response@),
        Err(message) => Err(message@),
    }
}

/// What a text or a message holds.
pub open spec fn outcome_view(outcome: Result<String, String>) -> Result<Seq<char>, Seq<char>> {
    match outcome {
        Ok(text) => Ok(text@),
        Err(message) => Err(message@),
    }
}

/// A response whose status is no error.
pub open spec fn accepted(reply: Result<HttpResponseView, Seq<char>>) -> Result<
    HttpResponseView,
    Seq<char>,
> {
    match reply {
        Ok(response) => match http::status_error(response) {
            Some(message) => Err(message),
            None => Ok(response),
        },
        Err(message) => Err(message),
    }
}

/// Refuses a reply whose status is an error.
fn accept(reply: Result<HttpResponse, String>) -> (r: Result<HttpResponse, String>)
    ensures
        reply_view(r) == accepted(reply_view(reply)),
{
    match reply {
        Ok(response) => match http::ensure_success(&response) {
            Ok(()) => Ok(response),
            Err(message) => Err(message),
        },
        Err(message) => Err(message),
    }
}

/// What a reply to a batch comes to: its body.
pub open spec fn batch_outcome(reply: Result<HttpResponseView, Seq<char>>) -> Result<
    Seq<char>,
    Seq<char>,
> {
    match accepted(reply) {
        Ok(response) => Ok(response.body),
        Err(message) => Err(message),
    }
}

/// Takes the body out of the reply to a batch.
pub fn call_batch_once(reply: Result<HttpResponse, String>) -> (r: Result<String, String>)
    ensures
        outcome_view(r) == batch_outcome(reply_view(reply)),
{
    match accept(reply) {
        Ok(response) => Ok(response.body),
        Err(message) => Err(message),
    }
}

/// The JSON value of a reply.
pub open spec fn json_outcome(reply: Result<HttpResponseView, Seq<char>>) -> Result<
    JsonView,
    Seq<char>,
> {
    match accepted(reply) {
        Ok(response) => json::json_parsed(response.body),
        Err(message) => Err(message),
    }
}

/// Takes the JSON value out of a reply.
pub fn http_get_json(reply: Result<HttpResponse, String>) -> (r: Result<Value, String>)
    ensures
        match r {
            Ok(value) => json_outcome(reply_view(reply)) == Ok::<JsonView, Seq<char>>(
                json::json_view(value),
            ),
            Err(message) => json_outcome(reply_view(reply)) == Err::<JsonView, Seq<char>>(message@),
        },
{
    match accept(reply) {
        Ok(response) => json::parse_json(response.body.as_str()),
        Err(message) => Err(message),
    }
}

/// A report on its health with which a sidecar shows that it is alive and serves `root`.
pub open spec fn is_healthy(health: JsonView, root: Seq<char>) -> bool {
    &&& health.get("ok"@) matches Some(ok) && ok.as_bool() == Some(true)
    &&& health.get("root"@) matches Some(served) && served.as_str() == Some(root)
}

/// Tells whether a report on its health shows a sidecar that is alive and serves `root`.
pub fn reports_health(health: &Value, root: &str) -> (r: bool)
    ensures
        r == is_healthy(json::json_view(*health), root@),
{
    let ok = match json::json_get(health, "ok") {
        Some(ok) => match json::json_as_bool(ok) {
            Some(b) => b,
            None => false,
        },
        None => false,
    };
    if !ok {
        return false;
    }
    match json::json_get(health, "root") {
        Some(served) => match json::json_as_str(served) {
            Some(served) => served.to_string() == root.to_string(),
            None => false,
        },
        None => false,
    }
}

/// The text that a sidecar's own route answered with.
pub open spec fn direct_text(value: JsonView, body: Seq<char>) -> Result<Seq<char>, Seq<char>> {
    match value.get("text"@) {
        Some(JsonView::Str(text)) => Ok(text),
        _ => Err("unexpected fffq response: "@ + body),
    }
}

/// Takes the text out of the answer of a sidecar's own route, whose body was `body`.
pub fn read_direct_text(value: &Value, body: &str) -> (r: Result<String, String>)
    ensures
        outcome_view(r) == direct_text(json::json_view(*value), body@),
{
    if let Some(field) = json::json_get(value, "text") {
        if let Some(text) = json::json_as_str(field) {
            return Ok(text.to_string());
        }
    }
    let mut message = "unexpected fffq response: ".to_string();
    message.append(body);
    Err(message)
}

/// The text that a tool answered with over MCP: that of the first content of the result.
pub open spec fn tool_text(value: JsonView) -> Result<Seq<char>, Seq<char>> {
    match value.get("error"@) {
        Some(error) => Err("MCP error: "@ + json::json_text(error)),
        None => match value.pointer("/result/content/0/text"@) {
            Some(JsonView::Str(text)) => Ok(text),
            _ => Err("MCP response did not contain text content: "@ + json::json_text(value)),
        },
    }
}

/// The pointer to the text of a tool's answer needs no escapes.
proof fn lemma_text_pointer_plain()
    ensures
        !text::contains("/result/content/0/text"@, seq!['~']),
{
    reveal_strlit("/result/content/0/text");
    let pointer = "/result/content/0/text"@;
    assert forall|i: int| !text::occurs_at(pointer, seq!['~'], i) by {
        if text::occurs_at(pointer, seq!['~'], i) {
            assert(pointer.subrange(i, i + 1)[0] == '~');
            assert(pointer[i] == '~');
        }
    }
}

/// Takes the text out of the answer of a tool over MCP.
pub fn read_tool_text(value: &Value) -> (r: Result<String, String>)
    ensures
        outcome_view(r) == tool_text(json::json_view(*value)),
{
    if let Some(error) = json::json_get(value, "error") {
        let mut message = "MCP error: ".to_string();
        message.append(json::json_write(error).as_str());
        return Err(message);
    }
    proof {
        lemma_text_pointer_plain();
    }
    if let Some(field) = json::json_pointer(value, "/result/content/0/text") {
        if let Some(text) = json::json_as_str(field) {
            return Ok(text.to_string());
        }
    }
    let mut message = "MCP response did not contain text content: ".to_string();
    message.append(json::json_write(value).as_str());
    Err(message)
}

/// The session that the headers open: the value of the first `Mcp-Session-Id`.
pub open spec fn session_of(headers: Seq<(Seq<char>, Seq<char>)>) -> Option<Seq<char>>
    decreases headers.len(),
{
    if headers.len() == 0 {
        None
    } else if text::same_ignoring_case(headers[0].0, "mcp-session-id"@) {
        Some(headers[0].1)
    } else {
        session_of(headers.drop_first())
    }
}

/// The session that the headers open.
pub fn session_id(headers: &Vec<(String, String)>) -> (r: Option<String>)
    ensures
        text::optional_text(r) == session_of(http::header_texts(headers@)),
{
    let ghost all = http::header_texts(headers@);
    assert(all.skip(0) == all);
    let mut i: usize = 0;
    while i < headers.len()
        invariant
            i <= headers@.len(),
            all == http::header_texts(headers@),
            session_of(all) == session_of(all.skip(i as int)),
        decreases headers@.len() - i,
    {
        assert(all.skip(i as int)[0] == all[i as int]);
        assert(all.skip(i as int).drop_first() == all.skip(i + 1));
        if text::equal_ignoring_case(headers[i].0.as_str(), "mcp-session-id") {
            return Some(headers[i].1.clone());
        }
        i += 1;
    }
    None
}

/// The session that the reply to the first MCP request opens.
pub open spec fn session_outcome(reply: Result<HttpResponseView, Seq<char>>) -> Result<
    Seq<char>,
    Seq<char>,
> {
    match accepted(reply) {
        Ok(response) => match session_of(response.headers) {
            Some(session) => Ok(session),
            None => Err("missing Mcp-Session-Id from initialize response"@),
        },
        Err(message) => Err(message),
    }
}

/// The text that the reply to a tool call over MCP carries.
pub open spec fn tool_outcome(reply: Result<HttpResponseView, Seq<char>>) -> Result<
    Seq<char>,
    Seq<char>,
> {
    match accepted(reply) {
        Ok(response) => match sse::json_body(response.body) {
            Ok(json) => match json::json_parsed(json) {
                Ok(value) => tool_text(value),
                Err(message) => Err(message),
            },
            Err(message) => Err(message),
        },
        Err(message) => Err(message),
    }
}

/// Takes the session out of the reply to the first MCP request.
fn open_session(reply: Result<HttpResponse, String>) -> (r: Result<String, String>)
    ensures
        outcome_view(r) == session_outcome(reply_view(reply)),
{
    match accept(reply) {
        Ok(response) => match session_id(&response.headers) {
            Some(session) => Ok(session),
            None => Err("missing Mcp-Session-Id from initialize response".to_string()),
        },
        Err(message) => Err(message),
    }
}

/// Takes the text out of the reply to a tool call over MCP.
fn read_tool_reply(reply: Result<HttpResponse, String>) -> (r: Result<String, String>)
    ensures
        outcome_view(r) == tool_outcome(reply_view(reply)),
{
    match accept(reply) {
        Ok(response) => match sse::extract_json_body(response.body.as_str()) {
            Ok(json) => match json::parse_json(json.as_str()) {
                Ok(value) => read_tool_text(&value),
                Err(message) => Err(message),
            },
            Err(message) => Err(message),
        },
        Err(message) => Err(message),
    }
}

/// The request that opens an MCP session.
pub open spec fn initialize_json(version: Seq<char>) -> JsonView {
    json::object(
        seq![
            ("jsonrpc"@, JsonView::Str("2.0"@)),
            ("id"@, json::number_of(1)),
            ("method"@, JsonView::Str("initialize"@)),
            (
                "params"@,
                json::object(
                    seq![
                        ("protocolVersion"@, JsonView::Str("2025-06-18"@)),
                        ("capabilities"@, json::object(seq![])),
                        (
                            "clientInfo"@,
                            json::object(
                                seq![
                                    ("name"@, JsonView::Str("fffq"@)),
                                    ("version"@, JsonView::Str(version)),
                                ],
                            ),
                        ),
                    ],
                ),
            ),
        ],
    )
}

/// The notification that an MCP session is in use.
pub open spec fn initialized_json() -> JsonView {
    json::object(
        seq![
            ("jsonrpc"@, JsonView::Str("2.0"@)),
            ("method"@, JsonView::Str("notifications/initialized"@)),
            ("params"@, json::object(seq![])),
        ],
    )
}

/// The request that calls a tool over MCP.
pub open spec fn tool_call_json(tool: Seq<char>, arguments: JsonView) -> JsonView {
    json::object(
        seq![
            ("jsonrpc"@, JsonView::Str("2.0"@)),
            ("id"@, json::number_of(2)),
            ("method"@, JsonView::Str("tools/call"@)),
            (
                "params"@,
                json::object(seq![("name"@, JsonView::Str(tool)), ("arguments"@, arguments)]),
            ),
        ],
    )
}

/// An object without fields.
fn empty_object() -> (r: Value)
    ensures
        json::json_view(r) == json::object(seq![]),
{
    let fields: Vec<(String, Value)> = Vec::new();
    assert(json::field_views(fields@) == Seq::<(Seq<char>, JsonView)>::empty());
    json::json_object(fields)
}

/// The names of the fields of a JSON-RPC request differ.
proof fn lemma_request_names(fields: Seq<(Seq<char>, JsonView)>)
    requires
        fields.len() == 4,
        fields[0].0 == "jsonrpc"@,
        fields[1].0 == "id"@,
        fields[2].0 == "method"@,
        fields[3].0 == "params"@,
    ensures
        json::names_differ(fields),
{
    reveal_strlit("jsonrpc");
    reveal_strlit("id");
    reveal_strlit("method");
    reveal_strlit("params");
    assert("method"@[0] != "params"@[0]);
    assert("jsonrpc"@.len() == 7 && "id"@.len() == 2 && "method"@.len() == 6 && "params"@.len()
        == 6);
}

/// The text of the request that opens an MCP session.
pub fn initialize_text(version: &str) -> (r: String)
    ensures
        r@ == json::json_text(initialize_json(version@)),
{
    let mut client: Vec<(String, Value)> = Vec::new();
    client.push(json::field("name", json::json_str("fffq")));
    client.push(json::field("version", json::json_str(version)));
    assert(json::field_views(client@) == seq![
        ("name"@, JsonView::Str("fffq"@)),
        ("version"@, JsonView::Str(version@)),
    ]);
    proof {
        reveal_strlit("name");
        reveal_strlit("version");
        let fields = json::field_views(client@);
        assert(fields[0].0 == "name"@);
        assert(fields[1].0 == "version"@);
        assert(json::names_differ(fields));
    }
    let client = json::json_object(client);
    let ghost client_view = json::json_view(client);
    let mut params: Vec<(String, Value)> = Vec::new();
    params.push(json::field("protocolVersion", json::json_str("2025-06-18")));
    params.push(json::field("capabilities", empty_object()));
    params.push(json::field("clientInfo", client));
    assert(json::field_views(params@) == seq![
        ("protocolVersion"@, JsonView::Str("2025-06-18"@)),
        ("capabilities"@, json::object(seq![])),
        ("clientInfo"@, client_view),
    ]);
    proof {
        reveal_strlit("protocolVersion");
        reveal_strlit("capabilities");
        reveal_strlit("clientInfo");
        let fields = json::field_views(params@);
        assert(fields[0].0 == "protocolVersion"@);
        assert(fields[1].0 == "capabilities"@);
        assert(fields[2].0 == "clientInfo"@);
        assert(json::names_differ(fields));
    }
    let params = json::json_object(params);
    let ghost params_view = json::json_view(params);
    let mut request: Vec<(String, Value)> = Vec::new();
    request.push(json::field("jsonrpc", json::json_str("2.0")));
    request.push(json::field("id", json::json_number(1)));
    request.push(json::field("method", json::json_str("initialize")));
    request.push(json::field("params", params));
    assert(json::field_views(request@) == seq![
        ("jsonrpc"@, JsonView::Str("2.0"@)),
        ("id"@, json::number_of(1)),
        ("method"@, JsonView::Str("initialize"@)),
        ("params"@, params_view),
    ]);
    proof {
        lemma_request_names(json::field_views(request@));
    }
    json::json_write(&json::json_object(request))
}

/// The text of the notification that an MCP session is in use.
pub fn initialized_text() -> (r: String)
    ensures
        r@ == json::json_text(initialized_json()),
{
    let mut request: Vec<(String, Value)> = Vec::new();
    request.push(json::field("jsonrpc", json::json_str("2.0")));
    request.push(json::field("method", json::json_str("notifications/initialized")));
    request.push(json::field("params", empty_object()));
    assert(json::field_views(request@) == seq![
        ("jsonrpc"@, JsonView::Str("2.0"@)),
        ("method"@, JsonView::Str("notifications/initialized"@)),
        ("params"@, json::object(seq![])),
    ]);
    proof {
        reveal_strlit("jsonrpc");
        reveal_strlit("method");
        reveal_strlit("params");
        assert("method"@[0] != "params"@[0]);
        let fields = json::field_views(request@);
        assert(fields[0].0 == "jsonrpc"@);
        assert(fields[1].0 == "method"@);
        assert(fields[2].0 == "params"@);
        assert(json::names_differ(fields));
    }
    json::json_write(&json::json_object(request))
}

/// The text of the request that calls a tool over MCP.
pub fn tool_call_text(tool: &str, arguments: Value) -> (r: String)
    ensures
        r@ == json::json_text(tool_call_json(tool@, json::json_view(arguments))),
{
    let ghost arguments_view = json::json_view(arguments);
    let mut params: Vec<(String, Value)> = Vec::new();
    params.push(json::field("name", json::json_str(tool)));
    params.push(json::field("arguments", arguments));
    assert(json::field_views(params@) == seq![
        ("name"@, JsonView::Str(tool@)),
        ("arguments"@, arguments_view),
    ]);
    proof {
        reveal_strlit("name");
        reveal_strlit("arguments");
        let fields = json::field_views(params@);
        assert(fields[0].0 == "name"@);
        assert(fields[1].0 == "arguments"@);
        assert(json::names_differ(fields));
    }
    let params = json::json_object(params);
    let ghost params_view = json::json_view(params);
    let mut request: Vec<(String, Value)> = Vec::new();
    request.push(json::field("jsonrpc", json::json_str("2.0")));
    request.push(json::field("id", json::json_number(2)));
    request.push(json::field("method", json::json_str("tools/call")));
    request.push(json::field("params", params));
    assert(json::field_views(request@) == seq![
        ("jsonrpc"@, JsonView::Str("2.0"@)),
        ("id"@, json::number_of(2)),
        ("method"@, JsonView::Str("tools/call"@)),
        ("params"@, params_view),
    ]);
    proof {
        lemma_request_names(json::field_views(request@));
    }
    json::json_write(&json::json_object(request))
}

/// How far a call has come. `failure` is what is said of the direct request if the way round fails
/// too.
#[derive(Debug)]
pub enum CallPhase<S> {
    /// The request on the sidecar's own route is out.
    Direct,
    /// The request that opens an MCP session is out.
    Opening { failure: S },
    /// The notification that the session is in use is out.
    Announcing { failure: S, session: S },
    /// The tool call is out.
    Calling { failure: S, session: S },
    /// The call is over.
    Done(Result<S, S>),
}

impl View for CallPhase<String> {
    type V = CallPhase<Seq<char>>;

    open spec fn view(&self) -> CallPhase<Seq<char>> {
        match *self {
            CallPhase::Direct => CallPhase::Direct,
            CallPhase::Opening { failure } => CallPhase::Opening { failure: failure@ },
            CallPhase::Announcing { failure, session } => CallPhase::Announcing {
                failure: failure@,
                session: session@,
            },
            CallPhase::Calling { failure, session } => CallPhase::Calling {
                failure: failure@,
                session: session@,
            },
            CallPhase::Done(outcome) => CallPhase::Done(outcome_view(outcome)),
        }
    }
}

/// The message when the direct request failed as `failure` says, and the way round with `message`.
pub open spec fn both_failed(failure: Seq<char>, message: Seq<char>) -> Seq<char> {
    failure + "; streamable HTTP MCP fallback also failed: "@ + message
}

/// What follows from the reply to the direct request. A response below 400 settles the call; any
/// other and any failure sends it the way round.
pub open spec fn after_direct(reply: Result<HttpResponseView, Seq<char>>) -> CallPhase<Seq<char>> {
    match reply {
        Ok(response) => if response.status < 400 {
            CallPhase::Done(
                match json::json_parsed(response.body) {
                    Ok(value) => direct_text(value, response.body),
                    Err(message) => Err(message),
                },
            )
        } else {
            CallPhase::Opening {
                failure: "direct fffq HTTP returned "@ + number::decimal(response.status as nat),
            }
        },
        Err(message) => CallPhase::Opening { failure: "direct fffq HTTP failed: "@ + message },
    }
}

/// What follows from a reply while a search is in the given phase.
pub open spec fn after_reply(
    phase: CallPhase<Seq<char>>,
    reply: Result<HttpResponseView, Seq<char>>,
) -> CallPhase<Seq<char>> {
    match phase {
        CallPhase::Direct => after_direct(reply),
        CallPhase::Opening { failure } => match session_outcome(reply) {
            Ok(session) => CallPhase::Announcing { failure, session },
            Err(message) => CallPhase::Done(Err(both_failed(failure, message))),
        },
        CallPhase::Announcing { failure, session } => match accepted(reply) {
            Ok(_) => CallPhase::Calling { failure, session },
            Err(message) => CallPhase::Done(Err(both_failed(failure, message))),
        },
        CallPhase::Calling { failure, session: _ } => match tool_outcome(reply) {
            Ok(text) => CallPhase::Done(Ok(text)),
            Err(message) => CallPhase::Done(Err(both_failed(failure, message))),
        },
        CallPhase::Done(outcome) => CallPhase::Done(outcome),
    }
}

/// The message when both ways failed.
fn fail_both(failure: String, message: String) -> (r: CallPhase<String>)
    ensures
        r@ == CallPhase::Done::<Seq<char>>(Err(both_failed(failure@, message@))),
{
    let mut m = failure;
    m.append("; streamable HTTP MCP fallback also failed: ");
    m.append(message.as_str());
    CallPhase::Done(Err(m))
}

/// Settles the direct request.
fn settle_direct(reply: Result<HttpResponse, String>) -> (r: CallPhase<String>)
    ensures
        r@ == after_direct(reply_view(reply)),
{
    match reply {
        Ok(response) => if response.status < 400 {
            match json::parse_json(response.body.as_str()) {
                Ok(value) => CallPhase::Done(read_direct_text(&value, response.body.as_str())),
                Err(message) => CallPhase::Done(Err(message)),
            }
        } else {
            let mut failure = "direct fffq HTTP returned ".to_string();
            failure.append(number::decimal_text(response.status as u64).as_str());
            CallPhase::Opening { failure }
        },
        Err(message) => {
            let mut failure = "direct fffq HTTP failed: ".to_string();
            failure.append(message.as_str());
            CallPhase::Opening { failure }
        },
    }
}

/// Takes a reply while a search is in the given phase.
pub fn call_text_once(phase: CallPhase<String>, reply: Result<HttpResponse, String>) -> (r:
    CallPhase<String>)
    ensures
        r@ == after_reply(phase@, reply_view(reply)),
{
    match phase {
        CallPhase::Direct => settle_direct(reply),
        CallPhase::Opening { failure } => match open_session(reply) {
            Ok(session) => CallPhase::Announcing { failure, session },
            Err(message) => fail_both(failure, message),
        },
        CallPhase::Announcing { failure, session } => match accept(reply) {
            Ok(_) => CallPhase::Calling { failure, session },
            Err(message) => fail_both(failure, message),
        },
        CallPhase::Calling { failure, session: _ } => match read_tool_reply(reply) {
            Ok(text) => CallPhase::Done(Ok(text)),
            Err(message) => fail_both(failure, message),
        },
        CallPhase::Done(outcome) => CallPhase::Done(outcome),
    }
}

/// The headers of a request over MCP.
pub open spec fn mcp_headers(session: Option<Seq<char>>) -> Seq<(Seq<char>, Seq<char>)> {
    let accept = ("Accept"@, "application/json, text/event-stream"@);
    match session {
        Some(session) => seq![accept, ("Mcp-Session-Id"@, session)],
        None => seq![accept],
    }
}

/// The request that a search sends in the given phase.
pub open spec fn search_request(
    registry: RegistryView,
    query: QueryView,
    version: Seq<char>,
    phase: CallPhase<Seq<char>>,
) -> Option<Result<HttpRequestView, HttpError>> {
    match phase {
        CallPhase::Direct => Some(
            http::request_of(
                "POST"@,
                registry.fffq_url + "/"@ + query.direct_tool,
                json::json_text(query.payload),
                seq![],
            ),
        ),
        CallPhase::Opening { .. } => Some(
            http::request_of(
                "POST"@,
                registry.mcp_url,
                json::json_text(initialize_json(version)),
                mcp_headers(None),
            ),
        ),
        CallPhase::Announcing { session, .. } => Some(
            http::request_of(
                "POST"@,
                registry.mcp_url,
                json::json_text(initialized_json()),
                mcp_headers(Some(session)),
            ),
        ),
        CallPhase::Calling { session, .. } => Some(
            http::request_of(
                "POST"@,
                registry.mcp_url,
                json::json_text(tool_call_json(query.mcp_tool, query.payload)),
                mcp_headers(Some(session)),
            ),
        ),
        CallPhase::Done(_) => None,
    }
}

/// `r` is the request that `expected` says, or its error.
pub open spec fn is_request(
    r: Option<Result<HttpRequest, HttpError>>,
    expected: Option<Result<HttpRequestView, HttpError>>,
) -> bool {
    match r {
        None => expected is None,
        Some(Ok(request)) => expected == Some(Ok::<HttpRequestView, HttpError>(request@)),
        Some(Err(e)) => expected == Some(Err::<HttpRequestView, HttpError>(e)),
    }
}

/// Posts `body` to the sidecar's MCP endpoint, in a session if there is one.
fn post_mcp(registry: &Registry, body: &str, session: Option<&str>) -> (r: Result<
    HttpRequest,
    HttpError,
>)
    ensures
        is_request(
            Some(r),
            Some(
                http::request_of(
                    "POST"@,
                    registry.mcp_url@,
                    body@,
                    mcp_headers(
                        match session {
                            Some(session) => Some(session@),
                            None => None,
                        },
                    ),
                ),
            ),
        ),
{
    let accept = ("Accept", "application/json, text/event-stream");
    match session {
        Some(session) => {
            let headers = [accept, ("Mcp-Session-Id", session)];
            assert(http::extra_texts(headers@) == mcp_headers(Some(session@)));
            http::http_post_json(registry.mcp_url.as_str(), body, headers.as_slice())
        },
        None => {
            let headers = [accept];
            assert(http::extra_texts(headers@) == mcp_headers(None));
            http::http_post_json(registry.mcp_url.as_str(), body, headers.as_slice())
        },
    }
}

/// Builds the request that a search sends in the given phase; a call that is over sends none.
pub fn call_request(
    registry: &Registry,
    query: &Query,
    version: &str,
    phase: &CallPhase<String>,
) -> (r: Option<Result<HttpRequest, HttpError>>)
    ensures
        is_request(r, search_request(registry@, query@, version@, phase@)),
{
    match phase {
        CallPhase::Direct => {
            let mut url = registry.fffq_url.clone();
            url.append("/");
            url.append(query.direct_tool().as_str());
            let headers: [(&str, &str); 0] = [];
            assert(http::extra_texts(headers@) == Seq::<(Seq<char>, Seq<char>)>::empty());
            Some(
                http::http_post_json(
                    url.as_str(),
                    json::json_write(&query.payload()).as_str(),
                    headers.as_slice(),
                ),
            )
        },
        CallPhase::Opening { .. } => Some(
            post_mcp(registry, initialize_text(version).as_str(), None),
        ),
        CallPhase::Announcing { session, .. } => Some(
            post_mcp(registry, initialized_text().as_str(), Some(session.as_str())),
        ),
        CallPhase::Calling { session, .. } => Some(
            post_mcp(
                registry,
                tool_call_text(query.mcp_tool().as_str(), query.payload()).as_str(),
                Some(session.as_str()),
            ),
        ),
        CallPhase::Done(_) => None,
    }
}

} // verus!
