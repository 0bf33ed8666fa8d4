//! What holds between the sidecar and its client.

use crate::call;
use crate::call::CallPhase;
use crate::client;
use crate::client::{CommandView, Output, State};
use crate::http;
use crate::http::{HttpError, HttpResponseView, HttpUrlView};
use crate::json;
use crate::json::JsonView;
use crate::launch::Event;
use crate::laws::http as http_laws;
use crate::laws::text as text_laws;
use crate::number;
use crate::query::Query;
use crate::registry;
use crate::registry::RegistryView;
use crate::sidecar;
use crate::sidecar::{
    FffqHealth, FffqTextResponse, Handler, Method, RescanAction, RescanEvent, RescanPhase,
};
use crate::text;
use vstd::prelude::*;

verus! {

/// A normalized path begins with a slash, and normalizing it again changes nothing.
pub proof fn normalizing_is_idempotent(path: Seq<char>)
    ensures
        text::starts_with(sidecar::rooted(path), seq!['/']),
        sidecar::rooted(sidecar::rooted(path)) == sidecar::rooted(path),
{
    if !text::starts_with(path, seq!['/']) {
        assert((seq!['/'] + path).subrange(0, 1) == seq!['/']);
    }
}

/// A scan is waited for only after it was requested, and after every scan that was waited for or
/// could not be requested, the interval passes before the next request.
pub proof fn rescans_keep_the_interval(
    phase: RescanPhase,
    event: RescanEvent,
    interval_secs: u64,
)
    ensures
        ({
            let now = sidecar::rescan_wanted(phase, interval_secs);
            let then = sidecar::rescan_wanted(sidecar::rescan_next(phase, event), interval_secs);
            &&& then is Wait && !(now is Wait) ==> now is Request && event is Requested
            &&& then is Request && !(now is Request) ==> now == RescanAction::Sleep(interval_secs)
            &&& now is Request && event is Failed ==> then == RescanAction::Sleep(interval_secs)
            &&& now is Wait && event is Passed ==> then == RescanAction::Sleep(interval_secs)
        }),
{
}

/// What a search is answered by.
pub open spec fn handler_of(query: Query) -> Handler {
    match query {
        Query::Find { .. } => Handler::Find,
        Query::Grep { .. } => Handler::Grep,
        Query::MultiGrep { .. } => Handler::MultiGrep,
    }
}

/// `url` leads to the given host and port, and there to the route for `handler`.
pub open spec fn reaches(
    url: Seq<char>,
    host: Seq<char>,
    port: u16,
    method: Method,
    handler: Handler,
) -> bool {
    exists|path: Seq<char>|
        http::url_parts(url) == Ok::<HttpUrlView, HttpError>(HttpUrlView { host, port, path })
            && #[trigger] sidecar::all_routes().contains((method, path, handler))
}

proof fn lemma_reaches(
    host: Seq<char>,
    port: u16,
    rest: Seq<char>,
    path: Seq<char>,
    url: Seq<char>,
    i: int,
)
    requires
        text_laws::lacks(host, '/'),
        path == seq!['/'] + rest,
        url == "http://"@ + http_laws::address(host, port) + path,
        0 <= i < sidecar::all_routes().len(),
        sidecar::all_routes()[i].1 == path,
    ensures
        reaches(url, host, port, sidecar::all_routes()[i].0, sidecar::all_routes()[i].2),
{
    let (method, _, handler) = sidecar::all_routes()[i];
    assert(url == "http://"@ + http_laws::address(host, port) + seq!['/'] + rest);
    http_laws::url_leads_back(host, port, rest);
    assert(sidecar::all_routes()[i] == (method, path, handler));
    assert(sidecar::all_routes().contains((method, path, handler)));
}

/// The requests that a client makes by the registry that a sidecar wrote lead to the sidecar's
/// listener, and there to the routes that answer them.
pub proof fn requests_reach_their_routes(
    query: Query,
    root: Seq<char>,
    pid: u32,
    host: Seq<char>,
    port: u16,
    http_path: Seq<char>,
    started_at_ms: u128,
)
    requires
        text_laws::lacks(host, '/'),
    ensures
        ({
            let registry = registry::recorded(
                root,
                pid,
                http_laws::address(host, port),
                http_path,
                started_at_ms,
            );
            let base = registry.fffq_url;
            &&& reaches(
                base + "/"@ + query@.direct_tool,
                host,
                port,
                Method::Post,
                handler_of(query),
            )
            &&& reaches(base + "/batch"@, host, port, Method::Post, Handler::Batch)
            &&& reaches(base + "/health"@, host, port, Method::Get, Handler::FffqHealth)
        }),
{
    reveal_strlit("/");
    reveal_strlit("/fffq");
    reveal_strlit("/health");
    reveal_strlit("/batch");
    reveal_strlit("find");
    reveal_strlit("grep");
    reveal_strlit("multi-grep");
    reveal_strlit("/fffq/health");
    reveal_strlit("/fffq/find");
    reveal_strlit("/fffq/grep");
    reveal_strlit("/fffq/multi-grep");
    reveal_strlit("/fffq/batch");
    let registry = registry::recorded(
        root,
        pid,
        http_laws::address(host, port),
        http_path,
        started_at_ms,
    );
    let base = registry.fffq_url;
    let listener = "http://"@ + http_laws::address(host, port);
    assert("/fffq"@ + "/"@ + "find"@ == "/fffq/find"@);
    assert("/fffq"@ + "/"@ + "grep"@ == "/fffq/grep"@);
    assert("/fffq"@ + "/"@ + "multi-grep"@ == "/fffq/multi-grep"@);
    assert("/fffq"@ + "/batch"@ == "/fffq/batch"@);
    assert("/fffq"@ + "/health"@ == "/fffq/health"@);
    let routes = sidecar::all_routes();
    let i: int = match query {
        Query::Find { .. } => 2,
        Query::Grep { .. } => 3,
        Query::MultiGrep { .. } => 4,
    };
    let direct = "/fffq"@ + "/"@ + query@.direct_tool;
    assert(direct == seq!['/'] + direct.drop_first());
    assert(base + "/"@ + query@.direct_tool == listener + direct);
    lemma_reaches(
        host,
        port,
        direct.drop_first(),
        direct,
        base + "/"@ + query@.direct_tool,
        i,
    );
    let batch = "/fffq/batch"@;
    assert(batch == seq!['/'] + batch.drop_first());
    assert(base + "/batch"@ == listener + batch);
    lemma_reaches(host, port, batch.drop_first(), batch, base + "/batch"@, 5);
    let health = "/fffq/health"@;
    assert(health == seq!['/'] + health.drop_first());
    assert(base + "/health"@ == listener + health);
    lemma_reaches(host, port, health.drop_first(), health, base + "/health"@, 1);
}

/// The MCP URL that a sidecar writes into its registry leads to its listener and to the path under
/// which MCP is served.
pub proof fn mcp_url_leads_to_mcp(
    root: Seq<char>,
    pid: u32,
    host: Seq<char>,
    port: u16,
    http_path: Seq<char>,
    started_at_ms: u128,
)
    requires
        text_laws::lacks(host, '/'),
    ensures
        http::url_parts(
            registry::recorded(
                root,
                pid,
                http_laws::address(host, port),
                sidecar::rooted(http_path),
                started_at_ms,
            ).mcp_url,
        ) == Ok::<HttpUrlView, HttpError>(
            HttpUrlView { host, port, path: sidecar::rooted(http_path) },
        ),
{
    let path = sidecar::rooted(http_path);
    normalizing_is_idempotent(http_path);
    assert(path.subrange(0, 1)[0] == '/');
    assert(path == seq!['/'] + path.drop_first());
    let url = "http://"@ + http_laws::address(host, port) + path;
    assert(url == "http://"@ + http_laws::address(host, port) + seq!['/'] + path.drop_first());
    http_laws::url_leads_back(host, port, path.drop_first());
}

/// A report on its health shows a client that the sidecar is alive exactly if it says so and names
/// the root that the client asks for.
pub proof fn health_report_is_understood(report: FffqHealth, root: Seq<char>)
    ensures
        call::is_healthy(report.json(), root) <==> report.ok && report.root@ == root,
{
    reveal_strlit("ok");
    reveal_strlit("root");
    reveal_strlit("pid");
    reveal_strlit("version");
    reveal_with_fuel(json::fields_of, 5);
    let fields = seq![
        ("ok"@, JsonView::Bool(report.ok)),
        ("root"@, JsonView::Str(report.root@)),
        ("pid"@, json::number_of(report.pid as nat)),
        ("version"@, JsonView::Str(report.version@)),
    ];
    assert(fields.drop_last().drop_last().drop_last().drop_last()
        == Seq::<(Seq<char>, JsonView)>::empty());
    assert("ok"@.len() == 2 && "root"@.len() == 4 && "pid"@.len() == 3 && "version"@.len() == 7);
}

/// The text that a sidecar answers a search with is the text that the client prints.
pub proof fn answers_are_printed(
    command: CommandView,
    first: Option<Seq<char>>,
    registry: RegistryView,
    answer: FffqTextResponse,
    response: HttpResponseView,
)
    requires
        command.job is Search,
        response.status < 400,
        json::json_parsed(response.body) == Ok::<JsonView, Seq<char>>(answer.json()),
    ensures
        client::next(
            command,
            State::Calling { first, registry, call: CallPhase::Direct },
            Event::Reply(Ok(response)),
        ) == State::<RegistryView, Seq<char>>::Done(Ok(Output::Line(answer.text@))),
{
    reveal_with_fuel(json::fields_of, 2);
    let fields = seq![("text"@, JsonView::Str(answer.text@))];
    assert(fields.drop_last() == Seq::<(Seq<char>, JsonView)>::empty());
}

pub proof fn lemma_pointer_tokens()
    ensures
        text::split("/result/content/0/text"@, seq!['/']) == seq![
            seq![],
            "result"@,
            "content"@,
            "0"@,
            "text"@,
        ],
{
    reveal_strlit("/result/content/0/text");
    reveal_strlit("result");
    reveal_strlit("content");
    reveal_strlit("0");
    reveal_strlit("text");
    let slash = seq!['/'];
    let empty = Seq::<char>::empty();
    let t3 = "0"@ + slash + "text"@;
    let t2 = "content"@ + slash + t3;
    let t1 = "result"@ + slash + t2;
    assert("/result/content/0/text"@ == empty + slash + t1);
    text_laws::lemma_split_concat(empty, slash, t1);
    text_laws::lemma_split_concat("result"@, slash, t2);
    text_laws::lemma_split_concat("content"@, slash, t3);
    text_laws::lemma_split_concat("0"@, slash, "text"@);
    text_laws::lemma_no_split("text"@, '/');
    assert(text::split("text"@, slash) == seq!["text"@]);
    assert(text::split(t3, slash) == seq!["0"@] + text::split("text"@, slash));
    assert(text::split(t2, slash) == seq!["content"@] + text::split(t3, slash));
    assert(text::split(t1, slash) == seq!["result"@] + text::split(t2, slash));
    assert(text::split("/result/content/0/text"@, slash) == seq![empty] + text::split(t1, slash));
    assert(text::split("/result/content/0/text"@, slash) == seq![
        empty,
        "result"@,
        "content"@,
        "0"@,
        "text"@,
    ]);
}

/// The text of the first content of a tool's result is the text that the client gets over MCP.
pub proof fn tool_results_are_read(
    value: JsonView,
    result: JsonView,
    contents: Seq<JsonView>,
    answer: Seq<char>,
)
    requires
        value.get("error"@) is None,
        value.get("result"@) == Some(result),
        result.get("content"@) == Some(JsonView::Array(contents)),
        contents.len() > 0,
        contents[0].get("text"@) == Some(JsonView::Str(answer)),
    ensures
        call::tool_text(value) == Ok::<Seq<char>, Seq<char>>(answer),
{
    reveal_strlit("/result/content/0/text");
    reveal_strlit("0");
    lemma_pointer_tokens();
    let tokens = seq!["result"@, "content"@, "0"@, "text"@];
    assert(text::split("/result/content/0/text"@, seq!['/']).drop_first() == tokens);
    let zero = "0"@;
    assert(zero == seq!['0']);
    assert(!text::starts_with(zero, seq!['+'])) by {
        if text::starts_with(zero, seq!['+']) {
            assert(zero.subrange(0, 1)[0] == '+');
        }
    }
    assert(number::parse_int(zero, 10, usize::MAX as nat) == Ok::<nat, number::IntError>(0)) by {
        assert(number::numeral(0, 10) == zero);
        number::numeral_reads_back(0, 10, usize::MAX as nat);
    }
    assert(JsonView::Array(contents).member(zero) == Some(contents[0]));
    let t1 = tokens.drop_first();
    let t2 = t1.drop_first();
    let t3 = t2.drop_first();
    let t4 = t3.drop_first();
    assert(t1[0] == "content"@ && t2[0] == zero && t3[0] == "text"@ && t4.len() == 0);
    assert(JsonView::Str(answer).walk(t4) == Some(JsonView::Str(answer)));
    assert(contents[0].walk(t3) == Some(JsonView::Str(answer)));
    assert(JsonView::Array(contents).walk(t2) == Some(JsonView::Str(answer)));
    assert(result.walk(t1) == Some(JsonView::Str(answer)));
    assert(value.walk(tokens) == Some(JsonView::Str(answer)));
}

/// The client looks for a sidecar where the sidecar registers by default, if `HOME` is set, or if
/// neither `HOME` nor `USERPROFILE` is.
pub proof fn both_use_the_same_registry(
    home: Option<Seq<char>>,
    user_profile: Option<Seq<char>>,
    root: Seq<char>,
)
    requires
        home is Some || user_profile is None,
    ensures
        registry::registry_parts(registry::client_home(home), root) == registry::registry_parts(
            registry::sidecar_home(home, user_profile),
            root,
        ),
{
}

} // verus!
