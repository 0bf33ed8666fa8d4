//! What is sent, letter by letter.

use crate::call;
use crate::call::CallPhase;
use crate::client;
use crate::client::{Action, ActionView, CommandView, JobView, State};
use crate::http;
use crate::http::{HttpError, HttpRequestView, HttpUrlView};
use crate::json;
use crate::json::JsonView;
use crate::launch::EnsurePhase;
use crate::laws::http as http_laws;
use crate::laws::queries;
use crate::laws::text as text_laws;
use crate::number;
use crate::query::Query;
use crate::registry;
use crate::registry::RegistryView;
use crate::sidecar;
use crate::sidecar::{Handler, Method};
use vstd::prelude::*;

verus! {

/// The lines that describe a body.
pub open spec fn described(body: Seq<char>) -> Seq<char> {
    if body.len() == 0 {
        "Content-Length: 0\r\n"@
    } else {
        "Content-Type: application/json\r\nContent-Length: "@ + number::decimal(
            vstd::utf8::encode_utf8(body).len(),
        ) + "\r\n"@
    }
}

/// A request, sent to `host` and `port`, that begins with `start` and carries `body`.
pub open spec fn sent(
    host: Seq<char>,
    port: u16,
    start: Seq<char>,
    headers: Seq<char>,
    body: Seq<char>,
) -> ActionView {
    Action::Send(
        HttpRequestView {
            host,
            port,
            text: start + " HTTP/1.1\r\nHost: "@ + host + "\r\nConnection: close\r\n"@ + described(
                body,
            ) + headers + "\r\n"@ + body,
        },
    )
}

/// A URL of the given host and port, with the given path.
pub open spec fn url(host: Seq<char>, port: u16, path: Seq<char>) -> Seq<char> {
    "http://"@ + host + ":"@ + number::decimal(port as nat) + path
}

/// A path, or none.
pub open spec fn is_path(path: Seq<char>) -> bool {
    path.len() > 0 ==> path[0] == '/'
}

proof fn lemma_url(host: Seq<char>, port: u16, path: Seq<char>)
    requires
        text_laws::lacks(host, '/'),
        path.len() > 0,
        path[0] == '/',
    ensures
        http::url_parts(url(host, port, path)) == Ok::<HttpUrlView, HttpError>(
            HttpUrlView { host, port, path },
        ),
{
    reveal_strlit(":");
    let rest = path.drop_first();
    assert(path == seq!['/'] + rest);
    assert(":"@ == seq![':']);
    assert(url(host, port, path) == "http://"@ + http_laws::address(host, port) + seq!['/'] + rest);
    http_laws::url_leads_back(host, port, rest);
}

proof fn lemma_described(body: Seq<char>)
    ensures
        described(body) == http::length_lines(body),
{
    reveal_strlit("Content-Type: application/json\r\nContent-Length: ");
    reveal_strlit("Content-Type: application/json\r\n");
    reveal_strlit("Content-Length: ");
    assert("Content-Type: application/json\r\nContent-Length: "@
        == "Content-Type: application/json\r\n"@ + "Content-Length: "@);
}

proof fn lemma_request(
    method: Seq<char>,
    host: Seq<char>,
    port: u16,
    path: Seq<char>,
    headers: Seq<(Seq<char>, Seq<char>)>,
    body: Seq<char>,
)
    requires
        text_laws::lacks(host, '/'),
        path.len() > 0,
        path[0] == '/',
    ensures
        client::sending(http::request_of(method, url(host, port, path), body, headers)) == sent(
            host,
            port,
            method + " "@ + path,
            http::header_lines(headers),
            body,
        ),
{
    lemma_url(host, port, path);
    lemma_described(body);
}

/// The text of a posted path.
pub open spec fn posted(path: Seq<char>) -> Seq<char> {
    "POST "@ + path
}

proof fn lemma_posted(path: Seq<char>)
    ensures
        "POST"@ + " "@ + path == posted(path),
{
    reveal_strlit("POST");
    reveal_strlit(" ");
    reveal_strlit("POST ");
    assert("POST"@ + " "@ == "POST "@);
}

/// A search is first sent to the route of its kind below the sidecar's own base URL, with its
/// arguments as the body.
pub proof fn a_search_is_posted_to_its_tool(
    command: CommandView,
    query: Query,
    registry: RegistryView,
    first: Option<Seq<char>>,
    host: Seq<char>,
    port: u16,
    base: Seq<char>,
)
    requires
        command.job == JobView::Search(query@),
        text_laws::lacks(host, '/'),
        is_path(base),
        registry.fffq_url == url(host, port, base),
    ensures
        client::wanted(
            command,
            (State::Calling { first, registry, call: CallPhase::Direct }),
        ) == sent(
            host,
            port,
            "POST "@ + base + match query {
                Query::Find { .. } => "/find"@,
                Query::Grep { .. } => "/grep"@,
                Query::MultiGrep { .. } => "/multi-grep"@,
            },
            seq![],
            json::json_text(query@.payload),
        ),
{
    reveal_strlit("/");
    reveal_strlit("find");
    reveal_strlit("grep");
    reveal_strlit("multi-grep");
    reveal_strlit("/find");
    reveal_strlit("/grep");
    reveal_strlit("/multi-grep");
    queries::each_search_has_its_tool(query);
    let tool = query@.direct_tool;
    let end = match query {
        Query::Find { .. } => "/find"@,
        Query::Grep { .. } => "/grep"@,
        Query::MultiGrep { .. } => "/multi-grep"@,
    };
    assert("/"@ + tool == end);
    let path = base + end;
    assert(path[0] == '/');
    assert(registry.fffq_url + "/"@ + tool == url(host, port, path));
    lemma_request("POST"@, host, port, path, seq![], json::json_text(query@.payload));
    lemma_posted(path);
    assert("POST "@ + base + end == posted(path));
}

/// By the registry that a sidecar wrote, a search is sent to that sidecar's listener, and there to
/// the route that answers searches of its kind.
pub proof fn a_search_is_sent_to_its_route(
    command: CommandView,
    query: Query,
    first: Option<Seq<char>>,
    root: Seq<char>,
    pid: u32,
    host: Seq<char>,
    port: u16,
    http_path: Seq<char>,
    started_at_ms: u128,
)
    requires
        command.job == JobView::Search(query@),
        text_laws::lacks(host, '/'),
    ensures
        ({
            let registry = registry::recorded(
                root,
                pid,
                host + ":"@ + number::decimal(port as nat),
                http_path,
                started_at_ms,
            );
            let wanted = client::wanted(
                command,
                (State::Calling { first, registry, call: CallPhase::Direct }),
            );
            &&& wanted matches Action::Send(request) && request.host == host && request.port == port
            &&& exists|route: int|
                #![trigger sidecar::all_routes()[route]]
                0 <= route < sidecar::all_routes().len() && ({
                    let (method, path, handler) = sidecar::all_routes()[route];
                    &&& method == Method::Post
                    &&& handler == match query {
                        Query::Find { .. } => Handler::Find,
                        Query::Grep { .. } => Handler::Grep,
                        Query::MultiGrep { .. } => Handler::MultiGrep,
                    }
                    &&& wanted == sent(
                        host,
                        port,
                        "POST "@ + path,
                        seq![],
                        json::json_text(query@.payload),
                    )
                })
        }),
{
    reveal_strlit("/fffq");
    reveal_strlit("/find");
    reveal_strlit("/grep");
    reveal_strlit("/multi-grep");
    reveal_strlit("/fffq/find");
    reveal_strlit("/fffq/grep");
    reveal_strlit("/fffq/multi-grep");
    let registry = registry::recorded(
        root,
        pid,
        host + ":"@ + number::decimal(port as nat),
        http_path,
        started_at_ms,
    );
    assert(registry.fffq_url == url(host, port, "/fffq"@));
    a_search_is_posted_to_its_tool(command, query, registry, first, host, port, "/fffq"@);
    let post = "POST "@;
    assert(post + "/fffq"@ + "/find"@ == post + "/fffq/find"@);
    assert(post + "/fffq"@ + "/grep"@ == post + "/fffq/grep"@);
    assert(post + "/fffq"@ + "/multi-grep"@ == post + "/fffq/multi-grep"@);
    let route: int = match query {
        Query::Find { .. } => 2,
        Query::Grep { .. } => 3,
        Query::MultiGrep { .. } => 4,
    };
    assert(sidecar::all_routes()[2].1 == "/fffq/find"@);
    assert(sidecar::all_routes()[3].1 == "/fffq/grep"@);
    assert(sidecar::all_routes()[4].1 == "/fffq/multi-grep"@);
    let (method, path, handler) = sidecar::all_routes()[route];
}

/// A batch is posted as it is, below the sidecar's own base URL.
pub proof fn a_batch_is_posted_as_it_is(
    command: CommandView,
    input: Seq<char>,
    registry: RegistryView,
    first: Option<Seq<char>>,
    call: CallPhase<Seq<char>>,
    host: Seq<char>,
    port: u16,
    base: Seq<char>,
)
    requires
        command.job == JobView::Batch(input),
        text_laws::lacks(host, '/'),
        is_path(base),
        registry.fffq_url == url(host, port, base),
    ensures
        client::wanted(command, (State::Calling { first, registry, call })) == sent(
            host,
            port,
            "POST "@ + base + "/batch"@,
            seq![],
            input,
        ),
{
    reveal_strlit("/batch");
    let path = base + "/batch"@;
    assert(path[0] == '/');
    assert(registry.fffq_url + "/batch"@ == url(host, port, path));
    lemma_request("POST"@, host, port, path, seq![], input);
    lemma_posted(path);
    assert("POST "@ + base + "/batch"@ == posted(path));
}

/// The health of a sidecar is asked for below its own base URL, whether it is probed or reported
/// on.
#[verifier::rlimit(50)]
pub proof fn health_is_asked_for(
    command: CommandView,
    registry: RegistryView,
    first: Option<Seq<char>>,
    launched: bool,
    call: CallPhase<Seq<char>>,
    host: Seq<char>,
    port: u16,
    base: Seq<char>,
)
    requires
        text_laws::lacks(host, '/'),
        is_path(base),
        registry.fffq_url == url(host, port, base),
    ensures
        ({
            let request = sent(host, port, "GET "@ + base + "/health"@, seq![], seq![]);
            &&& client::wanted(
                command,
                (State::Ensuring { first, phase: EnsurePhase::Probing { launched, registry } }),
            ) == request
            &&& command.job is Doctor ==> client::wanted(
                command,
                (State::Calling { first, registry, call }),
            ) == request
        }),
{
    reveal_strlit("/health");
    reveal_strlit("GET");
    reveal_strlit(" ");
    reveal_strlit("GET ");
    let path = base + "/health"@;
    assert(path[0] == '/');
    assert(registry.fffq_url + "/health"@ == url(host, port, path));
    lemma_request("GET"@, host, port, path, seq![], seq![]);
    assert("GET"@ + " "@ == "GET "@);
    assert("GET"@ + " "@ + path == "GET "@ + base + "/health"@);
}

/// The headers of a request over MCP, outside a session and in one.
pub open spec fn mcp_lines(session: Option<Seq<char>>) -> Seq<char> {
    match session {
        None => "Accept: application/json, text/event-stream\r\n"@,
        Some(session) => "Accept: application/json, text/event-stream\r\nMcp-Session-Id: "@
            + session + "\r\n"@,
    }
}

proof fn lemma_mcp_lines(session: Option<Seq<char>>)
    ensures
        http::header_lines(call::mcp_headers(session)) == mcp_lines(session),
{
    reveal_strlit("Accept");
    reveal_strlit(": ");
    reveal_strlit("application/json, text/event-stream");
    reveal_strlit("\r\n");
    reveal_strlit("Mcp-Session-Id");
    reveal_strlit("Accept: application/json, text/event-stream\r\n");
    reveal_strlit("Accept: application/json, text/event-stream\r\nMcp-Session-Id: ");
    reveal_with_fuel(http::header_lines, 3);
    let accept = ("Accept"@, "application/json, text/event-stream"@);
    let one = seq![accept];
    assert(one.drop_last() == Seq::<(Seq<char>, Seq<char>)>::empty());
    let accepted = "Accept"@ + ": "@ + "application/json, text/event-stream"@ + "\r\n"@;
    assert(http::header_lines(one) == accepted);
    assert(accepted == "Accept: application/json, text/event-stream\r\n"@);
    if let Some(session) = session {
        let two = seq![accept, ("Mcp-Session-Id"@, session)];
        assert(two.drop_last() == one);
        assert(http::header_lines(two) == accepted + "Mcp-Session-Id"@ + ": "@ + session + "\r\n"@);
        assert(accepted + "Mcp-Session-Id"@ + ": "@
            == "Accept: application/json, text/event-stream\r\nMcp-Session-Id: "@);
    }
}

/// The way round posts to the MCP URL: it opens a session, says that it is in use, and calls the
/// tool of the search with its arguments, both in that session.
pub proof fn the_way_round_is_posted(
    command: CommandView,
    query: Query,
    registry: RegistryView,
    first: Option<Seq<char>>,
    failure: Seq<char>,
    session: Seq<char>,
    host: Seq<char>,
    port: u16,
    path: Seq<char>,
)
    requires
        command.job == JobView::Search(query@),
        text_laws::lacks(host, '/'),
        path.len() > 0,
        path[0] == '/',
        registry.mcp_url == url(host, port, path),
    ensures
        client::wanted(
            command,
            (State::Calling { first, registry, call: CallPhase::Opening { failure } }),
        ) == sent(
            host,
            port,
            "POST "@ + path,
            mcp_lines(None),
            json::json_text(call::initialize_json(command.version)),
        ),
        client::wanted(
            command,
            (State::Calling { first, registry, call: CallPhase::Announcing { failure, session } }),
        ) == sent(
            host,
            port,
            "POST "@ + path,
            mcp_lines(Some(session)),
            json::json_text(call::initialized_json()),
        ),
        client::wanted(
            command,
            (State::Calling { first, registry, call: CallPhase::Calling { failure, session } }),
        ) == sent(
            host,
            port,
            "POST "@ + path,
            mcp_lines(Some(session)),
            json::json_text(
                call::tool_call_json(
                    match query {
                        Query::Find { .. } => "find_files"@,
                        Query::Grep { .. } => "grep"@,
                        Query::MultiGrep { .. } => "multi_grep"@,
                    },
                    query@.payload,
                ),
            ),
        ),
{
    queries::each_search_has_its_tool(query);
    lemma_mcp_lines(None);
    lemma_mcp_lines(Some(session));
    lemma_posted(path);
    let opening = json::json_text(call::initialize_json(command.version));
    let announcing = json::json_text(call::initialized_json());
    let calling = json::json_text(call::tool_call_json(query@.mcp_tool, query@.payload));
    lemma_request("POST"@, host, port, path, call::mcp_headers(None), opening);
    lemma_request("POST"@, host, port, path, call::mcp_headers(Some(session)), announcing);
    lemma_request("POST"@, host, port, path, call::mcp_headers(Some(session)), calling);
}

/// The request that opens a session names the protocol and the client, and nothing else.
pub proof fn a_session_is_opened_with(version: Seq<char>)
    ensures
        ({
            let request = call::initialize_json(version);
            &&& queries::names(request) == set!["jsonrpc"@, "id"@, "method"@, "params"@]
            &&& queries::has(request, "jsonrpc"@, JsonView::Str("2.0"@))
            &&& request.get("id"@) matches Some(id) && queries::is_number(id, 1)
            &&& queries::has(request, "method"@, JsonView::Str("initialize"@))
            &&& request.get("params"@) matches Some(params) && queries::names(params) == set![
                "protocolVersion"@,
                "capabilities"@,
                "clientInfo"@,
            ] && queries::has(params, "protocolVersion"@, JsonView::Str("2025-06-18"@))
                && queries::has(params, "capabilities"@, JsonView::Object(Map::empty())) && (
            params.get("clientInfo"@) matches Some(client) && queries::names(client) == set![
                "name"@,
                "version"@,
            ] && queries::has(client, "name"@, JsonView::Str("fffq"@)) && queries::has(
                client,
                "version"@,
                JsonView::Str(version),
            ))
        }),
{
    lemma_names();
    reveal_strlit("protocolVersion");
    reveal_strlit("capabilities");
    reveal_strlit("clientInfo");
    reveal_strlit("name");
    reveal_strlit("version");
    crate::laws::numbers::decimals_are_worth_their_number(1);
    let client = seq![("name"@, JsonView::Str("fffq"@)), ("version"@, JsonView::Str(version))];
    lemma_object2(client);
    assert("protocolVersion"@.len() == 15 && "capabilities"@.len() == 12 && "clientInfo"@.len()
        == 10 && "name"@.len() == 4 && "version"@.len() == 7);
    let params = seq![
        ("protocolVersion"@, JsonView::Str("2025-06-18"@)),
        ("capabilities"@, json::object(seq![])),
        ("clientInfo"@, json::object(client)),
    ];
    lemma_object3(params);
    let fields = seq![
        ("jsonrpc"@, JsonView::Str("2.0"@)),
        ("id"@, json::number_of(1)),
        ("method"@, JsonView::Str("initialize"@)),
        ("params"@, json::object(params)),
    ];
    lemma_object4(fields);
    assert(call::initialize_json(version) == json::object(fields));
    assert(json::fields_of(seq![]) == Map::<Seq<char>, JsonView>::empty());
}

/// The notification that a session is in use has no arguments.
pub proof fn a_session_is_announced_with()
    ensures
        ({
            let request = call::initialized_json();
            &&& queries::names(request) == set!["jsonrpc"@, "method"@, "params"@]
            &&& queries::has(request, "jsonrpc"@, JsonView::Str("2.0"@))
            &&& queries::has(request, "method"@, JsonView::Str("notifications/initialized"@))
            &&& queries::has(request, "params"@, JsonView::Object(Map::empty()))
        }),
{
    lemma_names();
    let fields = seq![
        ("jsonrpc"@, JsonView::Str("2.0"@)),
        ("method"@, JsonView::Str("notifications/initialized"@)),
        ("params"@, json::object(seq![])),
    ];
    lemma_object3(fields);
    assert(call::initialized_json() == json::object(fields));
    assert(json::fields_of(seq![]) == Map::<Seq<char>, JsonView>::empty());
}

/// The request that calls a tool holds its name and its arguments as they are, and nothing else.
pub proof fn a_tool_is_called_with(tool: Seq<char>, arguments: JsonView)
    ensures
        ({
            let request = call::tool_call_json(tool, arguments);
            &&& queries::names(request) == set!["jsonrpc"@, "id"@, "method"@, "params"@]
            &&& queries::has(request, "jsonrpc"@, JsonView::Str("2.0"@))
            &&& request.get("id"@) matches Some(id) && queries::is_number(id, 2)
            &&& queries::has(request, "method"@, JsonView::Str("tools/call"@))
            &&& request.get("params"@) matches Some(params) && queries::names(params) == set![
                "name"@,
                "arguments"@,
            ] && queries::has(params, "name"@, JsonView::Str(tool)) && queries::has(
                params,
                "arguments"@,
                arguments,
            )
        }),
{
    lemma_names();
    reveal_strlit("name");
    reveal_strlit("arguments");
    assert("name"@.len() == 4 && "arguments"@.len() == 9);
    crate::laws::numbers::decimals_are_worth_their_number(2);
    let params = seq![("name"@, JsonView::Str(tool)), ("arguments"@, arguments)];
    lemma_object2(params);
    let fields = seq![
        ("jsonrpc"@, JsonView::Str("2.0"@)),
        ("id"@, json::number_of(2)),
        ("method"@, JsonView::Str("tools/call"@)),
        ("params"@, json::object(params)),
    ];
    lemma_object4(fields);
    assert(call::tool_call_json(tool, arguments) == json::object(fields));
}

proof fn lemma_names()
    ensures
        "jsonrpc"@ != "id"@,
        "jsonrpc"@ != "method"@,
        "jsonrpc"@ != "params"@,
        "id"@ != "method"@,
        "id"@ != "params"@,
        "method"@ != "params"@,
{
    reveal_strlit("jsonrpc");
    reveal_strlit("id");
    reveal_strlit("method");
    reveal_strlit("params");
    assert("jsonrpc"@.len() == 7 && "id"@.len() == 2 && "method"@.len() == 6 && "params"@.len()
        == 6);
    assert("method"@[0] != "params"@[0]);
}

proof fn lemma_object2(f: Seq<(Seq<char>, JsonView)>)
    requires
        f.len() == 2,
    ensures
        json::object(f) == JsonView::Object(
            Map::empty().insert(f[0].0, f[0].1).insert(f[1].0, f[1].1),
        ),
{
    reveal_with_fuel(json::fields_of, 3);
    assert(f.drop_last().drop_last() == Seq::<(Seq<char>, JsonView)>::empty());
}

proof fn lemma_object3(f: Seq<(Seq<char>, JsonView)>)
    requires
        f.len() == 3,
    ensures
        json::object(f) == JsonView::Object(
            Map::empty().insert(f[0].0, f[0].1).insert(f[1].0, f[1].1).insert(f[2].0, f[2].1),
        ),
{
    reveal_with_fuel(json::fields_of, 4);
    assert(f.drop_last().drop_last().drop_last() == Seq::<(Seq<char>, JsonView)>::empty());
}

proof fn lemma_object4(f: Seq<(Seq<char>, JsonView)>)
    requires
        f.len() == 4,
    ensures
        json::object(f) == JsonView::Object(
            Map::empty().insert(f[0].0, f[0].1).insert(f[1].0, f[1].1).insert(
                f[2].0,
                f[2].1,
            ).insert(f[3].0, f[3].1),
        ),
{
    reveal_with_fuel(json::fields_of, 5);
    assert(f.drop_last().drop_last().drop_last().drop_last() == Seq::<
        (Seq<char>, JsonView),
    >::empty());
}

/// A request of any method, with any headers, is written line by line: the method and the path, the
/// host, the length of the body, the headers in their order, an empty line and the body.
pub proof fn a_request_is_written_line_by_line(
    method: Seq<char>,
    host: Seq<char>,
    port: u16,
    path: Seq<char>,
    body: Seq<char>,
    headers: Seq<(Seq<char>, Seq<char>)>,
    name: Seq<char>,
    value: Seq<char>,
)
    requires
        text_laws::lacks(host, '/'),
        path.len() > 0,
        path[0] == '/',
    ensures
        http::request_of(method, url(host, port, path), body, headers) == Ok::<
            HttpRequestView,
            HttpError,
        >(
            HttpRequestView {
                host,
                port,
                text: method + " "@ + path + " HTTP/1.1\r\nHost: "@ + host
                    + "\r\nConnection: close\r\n"@ + described(body) + http::header_lines(headers)
                    + "\r\n"@ + body,
            },
        ),
        http::header_lines(seq![]) == Seq::<char>::empty(),
        http::header_lines(headers.push((name, value))) == http::header_lines(headers) + name
            + ": "@ + value + "\r\n"@,
{
    lemma_url(host, port, path);
    lemma_described(body);
    let all = headers.push((name, value));
    assert(all.drop_last() == headers);
    assert(all.last() == (name, value));
}

/// A request that cannot be made is refused with the message of its error, and one that can be is
/// sent.
pub proof fn errors_are_refused_and_requests_sent(error: HttpError, request: HttpRequestView)
    ensures
        client::sending(Err(error)) == Action::<
            HttpRequestView,
            crate::launch::LaunchView,
            Seq<char>,
        >::Refuse(error.spec_message()),
        client::sending(Ok(request)) == Action::<
            HttpRequestView,
            crate::launch::LaunchView,
            Seq<char>,
        >::Send(request),
{
}

/// A request for a URL that cannot be used fails as the URL does.
pub proof fn a_request_needs_a_url(
    method: Seq<char>,
    url: Seq<char>,
    body: Seq<char>,
    headers: Seq<(Seq<char>, Seq<char>)>,
    error: HttpError,
)
    requires
        http::url_parts(url) == Err::<HttpUrlView, HttpError>(error),
    ensures
        http::request_of(method, url, body, headers) == Err::<HttpRequestView, HttpError>(error),
{
}

} // verus!
