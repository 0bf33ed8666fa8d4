//! What calls return, in terms of what they are given.

use crate::call;
use crate::client;
use crate::client::{Action, Command, Job, Output, State};
use crate::http;
use crate::http::{HttpError, HttpRequest, HttpResponse, HttpUrl};
use crate::json;
use crate::launch;
use crate::launch::{Discovery, Event, Launch};
use crate::laws::failures;
use crate::laws::flows;
use crate::laws::http as http_laws;
use crate::laws::numbers;
use crate::laws::queries;
use crate::laws::records;
use crate::laws::requests;
use crate::laws::responses;
use crate::laws::responses::{HeadLine, StatusLine};
use crate::laws::streams;
use crate::laws::text as text_laws;
use crate::laws::words;
use crate::number;
use crate::query::Query;
use crate::registry;
use crate::registry::Registry;
use crate::retry;
use crate::sidecar;
use crate::sidecar::{
    FffqBatchResponse, FffqError, FffqHealth, FffqTextResponse, McpTransport, PickerOptions,
    SearchTool, ServerArgs,
};
use crate::sse;
use crate::text;
use serde_json::Value;
use vstd::prelude::*;

verus! {

/// A URL gives the host before the last colon, the port that the digits behind it are worth, and
/// the path from the first slash on, or a single slash.
pub proof fn parsing_a_url(
    url: &str,
    host: Seq<char>,
    port: Seq<char>,
    path: Seq<char>,
    r: Result<HttpUrl, HttpError>,
)
    requires
        call_ensures(http::parse_http_url, (url,), r),
        url@ == "http://"@ + host + ":"@ + port + path,
        text_laws::lacks(host, '/'),
        port.len() > 0,
        numbers::are_digits(port, 10),
        numbers::total(port, 10) <= 65535,
        path.len() > 0 ==> path[0] == '/',
    ensures
        r matches Ok(parts) && parts.host@ == host && parts.port == numbers::total(port, 10)
            && parts.path@ == if path.len() > 0 {
            path
        } else {
            seq!['/']
        },
{
    responses::a_url_is_taken_apart(host, port, path);
    numbers::lemma_total_nonnegative(port, 10);
}

/// A response gives the status that its digits are worth, its headers in their order, and its body.
pub proof fn reading_a_response(
    raw: &[u8],
    status: StatusLine,
    lines: Seq<HeadLine>,
    body: Seq<char>,
    r: Option<Result<HttpResponse, HttpError>>,
)
    requires
        call_ensures(http::read_http_response, (raw,), r),
        raw@ == responses::bytes(status, lines, body),
        status.is_line(),
        responses::are_lines(lines),
        forall|k: int|
            0 <= k < responses::fields(lines).len() ==> !responses::says_so(
                #[trigger] responses::fields(lines)[k],
            ),
    ensures
        r matches Some(Ok(response)) && response.status == numbers::total(status.digits, 10)
            && response.body@ == body && response.headers@.len() == responses::fields(lines).len()
            && forall|k: int|
            0 <= k < response.headers@.len() ==> (#[trigger] response.headers@[k]).0@
                == responses::fields(lines)[k].0 && response.headers@[k].1@ == responses::fields(
                lines,
            )[k].1,
{
    responses::a_response_is_read(status, lines, body);
    numbers::lemma_total_nonnegative(status.digits, 10);
    let response = r->0->Ok_0;
    assert(r is Some && r->0 is Ok);
    assert(response@.headers == responses::fields(lines));
    assert forall|k: int| 0 <= k < response.headers@.len() implies (
    #[trigger] response.headers@[k]).0@ == responses::fields(lines)[k].0
        && response.headers@[k].1@ == responses::fields(lines)[k].1 by {
        assert(response@.headers[k] == (response.headers@[k].0@, response.headers@[k].1@));
    }
}

/// A chunked response gives what its chunks carry, whichever header says that it is chunked.
pub proof fn reading_a_chunked_response(
    raw: &[u8],
    status: StatusLine,
    lines: Seq<HeadLine>,
    k: int,
    chunks: Seq<http_laws::Chunk>,
    trailer: Seq<char>,
    r: Option<Result<HttpResponse, HttpError>>,
)
    requires
        call_ensures(http::read_http_response, (raw,), r),
        raw@ == responses::bytes(status, lines, http_laws::chunked_body(chunks, trailer)),
        status.is_line(),
        responses::are_lines(lines),
        0 <= k < responses::fields(lines).len(),
        words::same_word(responses::fields(lines)[k].0, "transfer-encoding"@),
        words::same_word(responses::fields(lines)[k].1, "chunked"@),
        http_laws::are_chunks(chunks),
    ensures
        r matches Some(Ok(response)) && response.body@ == http_laws::joined(chunks)
            && response.status == numbers::total(status.digits, 10),
{
    responses::any_header_may_say_chunked(status, lines, k, chunks, trailer);
    numbers::lemma_total_nonnegative(status.digits, 10);
}

/// The body of a reply gives the first JSON object that a line of it offers, up to the end of the
/// line.
pub proof fn extracting_an_object(
    body: &str,
    lead: Seq<char>,
    before: Seq<Seq<char>>,
    gap: Seq<char>,
    json: Seq<char>,
    end: Seq<char>,
    rest: Seq<char>,
    r: Result<String, String>,
)
    requires
        call_ensures(sse::extract_json_body, (body,), r),
        body@ == lead + streams::fed(before) + "data: "@ + gap + json + end + rest,
        text_laws::is_white(lead),
        streams::offer_nothing(before),
        text_laws::is_white(gap),
        text_laws::lacks(gap, '\n'),
        streams::is_object_text(json),
        text_laws::lacks(json, '\n'),
        text_laws::is_white(end),
        text_laws::lacks(end, '\n'),
        rest.len() > 0 ==> rest[0] == '\n',
        streams::fed(before).len() > 0 ==> !text::is_white_space(streams::fed(before)[0])
            && streams::fed(before)[0] != '{',
    ensures
        r matches Ok(found) && found@ == json,
{
    streams::the_first_object_is_extracted(lead, before, gap, json, end, rest);
}

/// A message is worth a restart exactly if it holds one of the signs of a lost sidecar.
pub proof fn judging_a_failure(message: &str, r: bool)
    requires
        call_ensures(retry::is_retryable_sidecar_error, (message,), r),
    ensures
        r <==> failures::is_lost(message@),
{
    failures::only_a_lost_sidecar_is_worth_a_restart(message@);
}

/// A search for files is told with its own text, limit and cursor.
pub proof fn telling_a_search(
    query: String,
    max_results: usize,
    cursor: Option<String>,
    r: Value,
)
    requires
        call_ensures(Query::payload, (&Query::Find { query, max_results, cursor },), r),
    ensures
        queries::has(json::json_view(r), "query"@, json::JsonView::Str(query@)),
        json::json_view(r).get("maxResults"@) matches Some(limit) && queries::is_number(
            limit,
            max_results as int,
        ),
        json::json_view(r).get("cursor"@) matches Some(at) && queries::is_text_or_null(at, cursor),
{
    queries::find_is_sent_as_it_is(query, max_results, cursor);
}

/// A search is sent to the tool of its kind, below the sidecar's own base URL.
pub proof fn sending_a_search(
    command: &Command,
    query: Query,
    first: Option<String>,
    registry: Registry,
    host: Seq<char>,
    port: u16,
    base: Seq<char>,
    r: Action<HttpRequest, Launch, String>,
)
    requires
        command.job == Job::Search(query),
        call_ensures(
            client::action,
            (command, &State::Calling { first, registry, call: call::CallPhase::Direct }),
            r,
        ),
        text_laws::lacks(host, '/'),
        requests::is_path(base),
        registry.fffq_url@ == requests::url(host, port, base),
    ensures
        r matches Action::Send(request) && request.host@ == host && request.port == port
            && words::begins(
            request.text@,
            "POST "@ + base + match query {
                Query::Find { .. } => "/find "@,
                Query::Grep { .. } => "/grep "@,
                Query::MultiGrep { .. } => "/multi-grep "@,
            },
        ),
{
    reveal_strlit("/find");
    reveal_strlit("/grep");
    reveal_strlit("/multi-grep");
    reveal_strlit("/find ");
    reveal_strlit("/grep ");
    reveal_strlit("/multi-grep ");
    requests::a_search_is_posted_to_its_tool(
        command@,
        query,
        registry@,
        text::optional_text(first),
        host,
        port,
        base,
    );
    let tool = match query {
        Query::Find { .. } => "/find"@,
        Query::Grep { .. } => "/grep"@,
        Query::MultiGrep { .. } => "/multi-grep"@,
    };
    let apart = match query {
        Query::Find { .. } => "/find "@,
        Query::Grep { .. } => "/grep "@,
        Query::MultiGrep { .. } => "/multi-grep "@,
    };
    assert(apart == tool + seq![' ']);
    let line = "POST "@ + base + tool;
    assert("POST "@ + base + apart == line + seq![' ']);
    lemma_request_line(line, host, port, r@, json::json_text(query@.payload));
}

proof fn lemma_request_line(
    line: Seq<char>,
    host: Seq<char>,
    port: u16,
    action: client::ActionView,
    body: Seq<char>,
)
    requires
        action == requests::sent(host, port, line, seq![], body),
    ensures
        action matches Action::Send(request) && request.host == host && request.port == port
            && words::begins(request.text, line + seq![' ']),
{
    reveal_strlit(" HTTP/1.1\r\nHost: ");
    let version = " HTTP/1.1\r\nHost: "@;
    let rest = host + "\r\nConnection: close\r\n"@ + requests::described(body) + Seq::<
        char,
    >::empty() + "\r\n"@ + body;
    let text = line + version + rest;
    assert(action->Send_0.text == text);
    let n = line.len() as int + 1;
    assert(text.take(n) == line + seq![' ']);
}

/// A response with an error status is refused with the status and the body, and any other is not.
pub proof fn refusing_a_status(response: &HttpResponse, r: Result<(), String>)
    requires
        call_ensures(http::ensure_success, (response,), r),
    ensures
        r is Ok <==> response.status < 400,
        r matches Err(message) ==> message@ == "HTTP "@ + number::decimal(response.status as nat)
            + ": "@ + response.body@,
{
}

/// The program is the one that was named, then the one in the environment, then the one beside the
/// client, and else it is looked up.
pub proof fn choosing_the_program<P>(
    explicit: Option<P>,
    named: Option<P>,
    sibling: Option<P>,
    fallback: P,
    r: P,
)
    requires
        call_ensures(launch::resolve_fff_mcp_bin::<P>, (explicit, named, sibling, fallback), r),
    ensures
        explicit matches Some(path) ==> r == path,
        explicit is None ==> (named matches Some(path) ==> r == path),
        explicit is None && named is None ==> (sibling matches Some(path) ==> r == path),
        explicit is None && named is None && sibling is None ==> r == fallback,
{
}

/// The root is the working directory of the repository, and where there is no repository the
/// directory itself; a repository without one is refused.
pub proof fn resolving_the_root(
    workdir: String,
    canonical: Result<String, String>,
    inside: Result<String, String>,
    bare: Result<String, String>,
    outside: Result<String, String>,
)
    requires
        call_ensures(launch::resolve_root, (Discovery::Workdir(workdir), canonical), inside),
        call_ensures(launch::resolve_root, (Discovery::Bare, canonical), bare),
        call_ensures(launch::resolve_root, (Discovery::Missing, canonical), outside),
    ensures
        inside == Ok::<String, String>(workdir),
        bare matches Err(message) && message@ == "bare git repositories are not supported by fffq"@,
        outside == canonical,
{
}

/// A started sidecar is overdue from its fifteenth second on.
pub proof fn judging_the_time(elapsed_ms: u64, r: bool)
    requires
        call_ensures(launch::is_overdue, (elapsed_ms,), r),
    ensures
        r <==> elapsed_ms >= 15_000,
{
}

/// Transports go by their names.
pub proof fn naming_a_transport(name: &str, r: Option<McpTransport>)
    requires
        call_ensures(McpTransport::from_name, (name,), r),
    ensures
        r == Some(McpTransport::Stdio) <==> name@ == "stdio"@,
        r == Some(McpTransport::StreamableHttp) <==> name@ == "streamable-http"@,
{
    reveal_strlit("stdio");
    reveal_strlit("streamable-http");
    assert("stdio"@.len() == 5 && "streamable-http"@.len() == 15);
}

/// A sidecar indexes the repository around its directory, or that directory.
pub proof fn choosing_what_to_index(
    base_path: Option<String>,
    current_dir: String,
    start: String,
    workdir: String,
    inside: String,
    bare: String,
    outside: String,
)
    requires
        call_ensures(sidecar::start_path, (base_path, current_dir), start),
        call_ensures(sidecar::indexed_path, (start, Discovery::Workdir(workdir)), inside),
        call_ensures(sidecar::indexed_path, (start, Discovery::Bare), bare),
        call_ensures(sidecar::indexed_path, (start, Discovery::Missing), outside),
    ensures
        base_path matches Some(path) ==> start == path,
        base_path is None ==> start == current_dir,
        inside == workdir,
        bare == start,
        outside == start,
{
}

/// The settings are followed: contents are indexed if that is wished, not if the contrary is, and
/// else with the warm-up.
pub proof fn following_the_settings(args: &ServerArgs, base_path: String, r: PickerOptions)
    requires
        call_ensures(sidecar::picker_options, (args, base_path), r),
    ensures
        r.base_path == base_path,
        r.enable_mmap_cache <==> !args.no_warmup,
        r.watch <==> !args.no_watch,
        r.max_cached_files == args.max_cached_files,
        args.content_indexing ==> r.enable_content_indexing,
        !args.content_indexing && args.no_content_indexing ==> !r.enable_content_indexing,
        !args.content_indexing && !args.no_content_indexing ==> (r.enable_content_indexing
            <==> !args.no_warmup),
{
    records::a_wish_for_an_index_prevails(*args);
}

/// An interval is kept unless it is zero.
pub proof fn keeping_an_interval(secs: Option<u64>, r: Option<u64>)
    requires
        call_ensures(sidecar::rescan_interval, (secs,), r),
    ensures
        r is Some <==> secs is Some && secs->0 > 0,
        r is Some ==> r == secs,
{
}

/// Milliseconds are a thousand to the second and a million nanoseconds each.
pub proof fn counting_milliseconds(
    secs: u64,
    nanos: u32,
    message: String,
    r: Result<u128, String>,
    before: Result<u128, String>,
)
    requires
        call_ensures(registry::_system_time_ms, (Ok((secs, nanos)),), r),
        call_ensures(registry::_system_time_ms, (Err(message),), before),
    ensures
        r matches Ok(ms) && 1000 * secs * 1_000_000 + nanos - 1_000_000 < ms * 1_000_000 <= 1000
            * secs * 1_000_000 + nanos,
        before == Err::<u128, String>(message),
{
}

/// A registry is written to the path that was given, and else below the home directory.
pub proof fn placing_the_registry(
    path: String,
    home: &str,
    root: &str,
    given: Vec<String>,
    default: Vec<String>,
)
    requires
        call_ensures(registry::registry_target, (Some(path), home, root), given),
        call_ensures(registry::registry_target, (None, home, root), default),
    ensures
        given@.len() == 1,
        given@[0]@ == path@,
        default@.len() == 5,
        default@[0]@ == home@,
        default@[1]@ == ".cache"@,
        default@[2]@ == "fff"@,
        default@[3]@ == "sidecars"@,
        default@[4]@ == registry::hash_name(
            registry::blake3_digest(vstd::utf8::encode_utf8(root@)),
        ) + ".json"@,
{
    let g = text::string_texts(given@);
    let d = text::string_texts(default@);
    assert(g.len() == 1 && g[0] == given@[0]@);
    assert(d.len() == 5);
    assert(d[0] == default@[0]@ && d[1] == default@[1]@ && d[2] == default@[2]@ && d[3]
        == default@[3]@ && d[4] == default@[4]@);
}

/// A sidecar records its root, process and start, and its URLs on its listener.
pub proof fn recording_a_sidecar(
    root: &str,
    pid: u32,
    local_addr: &str,
    http_path: &str,
    started_at_ms: u128,
    r: Registry,
)
    requires
        call_ensures(
            registry::sidecar_registry,
            (root, pid, local_addr, http_path, started_at_ms),
            r,
        ),
    ensures
        r.root@ == root@,
        r.pid == pid,
        r.http_url@ == "http://"@ + local_addr@,
        r.mcp_url@ == "http://"@ + local_addr@ + http_path@,
        r.fffq_url@ == "http://"@ + local_addr@ + "/fffq"@,
        r.started_at_ms == started_at_ms,
{
    records::a_sidecar_is_recorded_as_it_is(root@, pid, local_addr@, http_path@, started_at_ms);
}

/// A search is answered with its text, and a failed one with 500 and the reason.
pub proof fn answering_a_search(
    text: String,
    message: String,
    found: Result<FffqTextResponse, (u16, FffqError)>,
    failed: Result<FffqTextResponse, (u16, FffqError)>,
)
    requires
        call_ensures(sidecar::fffq_text, (Ok(text),), found),
        call_ensures(sidecar::fffq_text, (Err(message),), failed),
    ensures
        found matches Ok(answer) && answer.text == text,
        failed matches Err(answer) && answer.0 == 500 && answer.1.error == message,
{
}

/// A report on its health says yes, and names the root, the process and the version.
pub proof fn answering_for_its_health(root: String, pid: u32, version: String, r: FffqHealth)
    requires
        call_ensures(sidecar::fffq_health, (root, pid, version), r),
    ensures
        r.ok,
        r.root == root,
        r.pid == pid,
        r.version == version,
{
}

/// A batch is answered item by item, in its order.
pub proof fn answering_a_batch(
    outcomes: Vec<(SearchTool, Result<String, String>)>,
    i: int,
    r: FffqBatchResponse,
)
    requires
        call_ensures(sidecar::fffq_batch, (outcomes,), r),
        0 <= i < outcomes@.len(),
    ensures
        r.results@.len() == outcomes@.len(),
        r.results@[i].tool@ == match outcomes@[i].0 {
            SearchTool::FindFiles => "find_files"@,
            SearchTool::Grep => "grep"@,
            SearchTool::MultiGrep => "multi_grep"@,
        },
        r.results@[i].ok <==> outcomes@[i].1 is Ok,
        match outcomes@[i].1 {
            Ok(text) => r.results@[i].text@ == text@,
            Err(message) => r.results@[i].text@ == message@,
        },
{
    assert(sidecar::item_tells(r.results@[i], outcomes@[i].0, outcomes@[i].1));
    records::an_item_tells_what_came_out(r.results@[i], outcomes@[i].0, outcomes@[i].1);
}

/// A live sidecar of the root is used: its registry is printed if that is all that is wanted.
pub proof fn finding_a_live_sidecar(
    command: &Command,
    first: Option<String>,
    launched: bool,
    registry: Registry,
    response: HttpResponse,
    r: State<Registry, String>,
)
    requires
        call_ensures(
            client::step,
            (
                command,
                State::Ensuring {
                    first,
                    phase: launch::EnsurePhase::Probing { launched, registry },
                },
                Event::Reply(Ok(response)),
            ),
            r,
        ),
        command.job is Ensure,
        flows::is_live(Ok(response@), command.target.root@),
    ensures
        r matches State::Done(Ok(Output::Registry(printed))) && printed.root@ == registry.root@
            && printed.pid == registry.pid && printed.http_url@ == registry.http_url@
            && printed.mcp_url@ == registry.mcp_url@ && printed.fffq_url@ == registry.fffq_url@
            && printed.started_at_ms == registry.started_at_ms,
{
    flows::a_live_sidecar_is_used(
        command@,
        text::optional_text(first),
        launched,
        registry@,
        Ok(response@),
    );
}

/// A search that the sidecar answers with a text prints that text.
pub proof fn printing_an_answer(
    command: &Command,
    query: Query,
    first: Option<String>,
    registry: Registry,
    response: HttpResponse,
    value: json::JsonView,
    text: Seq<char>,
    r: State<Registry, String>,
)
    requires
        call_ensures(
            client::step,
            (
                command,
                State::Calling { first, registry, call: call::CallPhase::Direct },
                Event::Reply(Ok(response)),
            ),
            r,
        ),
        command.job == Job::Search(query),
        response.status < 400,
        json::json_parsed(response.body@) == Ok::<json::JsonView, Seq<char>>(value),
        crate::laws::replies::field_of(value, "text"@) == Some(json::JsonView::Str(text)),
    ensures
        r matches State::Done(Ok(Output::Line(printed))) && printed@ == text,
{
    flows::a_direct_answer_is_printed(
        command@,
        text::optional_text(first),
        registry@,
        response@,
        value,
        text,
    );
}

} // verus!
