//! The sidecar: its settings, its routes, and what these answer with.

use crate::json;
use crate::json::JsonView;
use crate::launch::Discovery;
use crate::text;
use vstd::prelude::*;

verus! {

/// How the sidecar speaks MCP.
#[derive(Clone, Copy, Debug, PartialEq, Eq, Structural)]
pub enum McpTransport {
    /// Over standard input and output.
    Stdio,
    /// Over streamable HTTP.
    StreamableHttp,
}

impl McpTransport {
    /// The transport that a setting names.
    pub fn from_name(name: &str) -> (r: Option<McpTransport>)
        ensures
            r == if name@ == "stdio"@ {
                Some(McpTransport::Stdio)
            } else if name@ == "streamable-http"@ {
                Some(McpTransport::StreamableHttp)
            } else {
                None
            },
    {
        let name = name.to_string();
        if name == "stdio".to_string() {
            Some(McpTransport::Stdio)
        } else if name == "streamable-http".to_string() {
            Some(McpTransport::StreamableHttp)
        } else {
            None
        }
    }
}

/// The settings of a sidecar.
#[derive(Debug)]
pub struct ServerArgs {
    pub base_path: Option<String>,
    pub frecency_db_path: Option<String>,
    pub history_db_path: Option<String>,
    pub log_file: Option<String>,
    pub log_level: Option<String>,
    pub no_update_check: bool,
    pub no_warmup: bool,
    pub no_content_indexing: bool,
    pub content_indexing: bool,
    pub no_watch: bool,
    pub poll_interval_secs: Option<u64>,
    pub max_cached_files: Option<usize>,
    pub transport: McpTransport,
    pub http_bind: String,
    pub http_path: String,
    pub registry_path: Option<String>,
    pub healthcheck: bool,
}

/// The log file of a sidecar that was told none.
pub open spec fn default_log_file(home: Seq<char>, is_windows: bool) -> Seq<char> {
    if is_windows {
        home + "\\AppData\\Local\\fff_mcp.log"@
    } else {
        home + "/.cache/fff_mcp.log"@
    }
}

/// Fills in the log file where none was given.
pub fn resolve_defaults(args: &mut ServerArgs, home: &str, is_windows: bool)
    ensures
        *final(args) == (ServerArgs { log_file: final(args).log_file, ..*old(args) }),
        old(args).log_file is Some ==> final(args).log_file == old(args).log_file,
        old(args).log_file is None ==> text::optional_text(final(args).log_file) == Some(
            default_log_file(home@, is_windows),
        ),
{
    if args.log_file.is_none() {
        let mut path = home.to_string();
        if is_windows {
            path.append("\\AppData\\Local\\fff_mcp.log");
        } else {
            path.append("/.cache/fff_mcp.log");
        }
        args.log_file = Some(path);
    }
}

/// The paths that there are, in this order.
pub open spec fn given_paths(a: Option<Seq<char>>, b: Option<Seq<char>>) -> Seq<Seq<char>> {
    match (a, b) {
        (Some(a), Some(b)) => seq![a, b],
        (Some(a), None) => seq![a],
        (None, Some(b)) => seq![b],
        (None, None) => seq![],
    }
}

/// The databases that the settings name, whose directories have to be there.
pub fn database_paths(args: &ServerArgs) -> (r: Vec<String>)
    ensures
        text::string_texts(r@) == given_paths(
            text::optional_text(args.frecency_db_path),
            text::optional_text(args.history_db_path),
        ),
{
    let mut r: Vec<String> = Vec::new();
    if let Some(path) = &args.frecency_db_path {
        r.push(path.clone());
    }
    if let Some(path) = &args.history_db_path {
        r.push(path.clone());
    }
    assert(text::string_texts(r@) == given_paths(
        text::optional_text(args.frecency_db_path),
        text::optional_text(args.history_db_path),
    ));
    r
}

/// The directory from which the sidecar looks for a repository: the given one, or the current one.
pub fn start_path(base_path: Option<String>, current_dir: String) -> (r: String)
    ensures
        r == match base_path {
            Some(path) => path,
            None => current_dir,
        },
{
    match base_path {
        Some(path) => path,
        None => current_dir,
    }
}

/// The directory that the sidecar indexes: the working directory of the repository around `start`,
/// or `start` where there is none.
pub fn indexed_path(start: String, discovery: Discovery) -> (r: String)
    ensures
        r == match discovery {
            Discovery::Workdir(workdir) => workdir,
            _ => start,
        },
{
    match discovery {
        Discovery::Workdir(workdir) => workdir,
        _ => start,
    }
}

/// How the files of a root are indexed.
#[derive(Debug)]
pub struct PickerOptions {
    pub base_path: String,
    pub enable_mmap_cache: bool,
    pub enable_content_indexing: bool,
    pub watch: bool,
    pub max_cached_files: Option<usize>,
}

/// Contents are indexed: a wish for it prevails over a wish against it, and without either it
/// follows the warm-up.
pub open spec fn indexes_contents(args: ServerArgs) -> bool {
    args.content_indexing || (!args.no_content_indexing && !args.no_warmup)
}

/// How the settings have the files below `base_path` indexed.
pub fn picker_options(args: &ServerArgs, base_path: String) -> (r: PickerOptions)
    ensures
        r == (PickerOptions {
            base_path,
            enable_mmap_cache: !args.no_warmup,
            enable_content_indexing: indexes_contents(*args),
            watch: !args.no_watch,
            max_cached_files: args.max_cached_files,
        }),
{
    let enable_content_indexing = if args.content_indexing {
        true
    } else if args.no_content_indexing {
        false
    } else {
        !args.no_warmup
    };
    PickerOptions {
        base_path,
        enable_mmap_cache: !args.no_warmup,
        enable_content_indexing,
        watch: !args.no_watch,
        max_cached_files: args.max_cached_files,
    }
}

/// The interval, in seconds, at which the tree is scanned again; zero means never.
pub fn rescan_interval(poll_interval_secs: Option<u64>) -> (r: Option<u64>)
    ensures
        r == match poll_interval_secs {
            Some(secs) => if secs > 0 {
                Some(secs)
            } else {
                None
            },
            None => None,
        },
{
    match poll_interval_secs {
        Some(secs) => if secs > 0 {
            Some(secs)
        } else {
            None
        },
        None => None,
    }
}

/// How far a periodic rescan has come.
#[derive(Clone, Copy, Debug, PartialEq, Eq, Structural)]
pub enum RescanPhase {
    /// The interval has to pass.
    Sleeping,
    /// A scan of the tree is to be requested.
    Requesting,
    /// The requested scan runs.
    Scanning,
}

/// What comes of what a periodic rescan does.
#[derive(Clone, Copy, Debug, PartialEq, Eq, Structural)]
pub enum RescanEvent {
    /// The time is up, or the scan is over.
    Passed,
    /// The scan was requested.
    Requested,
    /// The scan could not be requested.
    Failed,
}

/// What a periodic rescan does next.
#[derive(Clone, Copy, Debug, PartialEq, Eq, Structural)]
pub enum RescanAction {
    /// Sleep for so many seconds; the answer is [`RescanEvent::Passed`].
    Sleep(u64),
    /// Request a scan; the answer is [`RescanEvent::Requested`] or [`RescanEvent::Failed`].
    Request,
    /// Wait for the scan, for so many seconds at most; the answer is [`RescanEvent::Passed`].
    Wait(u64),
}

/// What follows from an event: a scan that was requested is waited for, one that failed is not, and
/// either way the interval begins anew. An event that the phase does not wait for changes nothing.
pub open spec fn rescan_next(phase: RescanPhase, event: RescanEvent) -> RescanPhase {
    match (phase, event) {
        (RescanPhase::Sleeping, RescanEvent::Passed) => RescanPhase::Requesting,
        (RescanPhase::Requesting, RescanEvent::Requested) => RescanPhase::Scanning,
        (RescanPhase::Requesting, RescanEvent::Failed) => RescanPhase::Sleeping,
        (RescanPhase::Scanning, RescanEvent::Passed) => RescanPhase::Sleeping,
        (phase, _) => phase,
    }
}

/// Takes an event of a periodic rescan.
pub fn rescan_step(phase: RescanPhase, event: RescanEvent) -> (r: RescanPhase)
    ensures
        r == rescan_next(phase, event),
{
    match (phase, event) {
        (RescanPhase::Sleeping, RescanEvent::Passed) => RescanPhase::Requesting,
        (RescanPhase::Requesting, RescanEvent::Requested) => RescanPhase::Scanning,
        (RescanPhase::Requesting, RescanEvent::Failed) => RescanPhase::Sleeping,
        (RescanPhase::Scanning, RescanEvent::Passed) => RescanPhase::Sleeping,
        (phase, _) => phase,
    }
}

/// What a periodic rescan with the given interval does in the given phase.
pub open spec fn rescan_wanted(phase: RescanPhase, interval_secs: u64) -> RescanAction {
    match phase {
        RescanPhase::Sleeping => RescanAction::Sleep(interval_secs),
        RescanPhase::Requesting => RescanAction::Request,
        RescanPhase::Scanning => RescanAction::Wait(interval_secs),
    }
}

/// Tells what a periodic rescan with the given interval does in the given phase.
pub fn rescan_action(phase: RescanPhase, interval_secs: u64) -> (r: RescanAction)
    ensures
        r == rescan_wanted(phase, interval_secs),
{
    match phase {
        RescanPhase::Sleeping => RescanAction::Sleep(interval_secs),
        RescanPhase::Requesting => RescanAction::Request,
        RescanPhase::Scanning => RescanAction::Wait(interval_secs),
    }
}

/// `path` with a leading slash.
pub open spec fn rooted(path: Seq<char>) -> Seq<char> {
    if text::starts_with(path, seq!['/']) {
        path
    } else {
        seq!['/'] + path
    }
}

/// Gives `path` a leading slash if it has none.
pub fn normalize_http_path(path: &str) -> (r: String)
    ensures
        r@ == rooted(path@),
{
    let slash: [char; 1] = ['/'];
    assert(slash@ == seq!['/']);
    if text::matches_at(text::to_chars(path).as_slice(), slash.as_slice(), 0) {
        path.to_string()
    } else {
        let mut r = String::new();
        r.push('/');
        r.append(path);
        assert(r@ == seq!['/'] + path@);
        r
    }
}

/// What a route answers with.
#[derive(Clone, Copy, Debug, PartialEq, Eq, Structural)]
pub enum Handler {
    /// That the server runs.
    Health,
    /// Which root is served, and by which process.
    FffqHealth,
    /// A search for files.
    Find,
    /// A search of contents.
    Grep,
    /// A search of contents for several patterns.
    MultiGrep,
    /// Several searches.
    Batch,
}

/// The method of a route.
#[derive(Clone, Copy, Debug, PartialEq, Eq, Structural)]
pub enum Method {
    Get,
    Post,
}

/// A route of the sidecar.
#[derive(Debug)]
pub struct Route {
    pub method: Method,
    pub path: String,
    pub handler: Handler,
}

/// What a [`Route`] holds.
pub type RouteView = (Method, Seq<char>, Handler);

/// What the routes hold.
pub open spec fn route_views(routes: Seq<Route>) -> Seq<RouteView> {
    routes.map_values(|route: Route| (route.method, route.path@, route.handler))
}

/// The routes of the sidecar besides MCP.
pub open spec fn all_routes() -> Seq<RouteView> {
    seq![
        (Method::Get, "/health"@, Handler::Health),
        (Method::Get, "/fffq/health"@, Handler::FffqHealth),
        (Method::Post, "/fffq/find"@, Handler::Find),
        (Method::Post, "/fffq/grep"@, Handler::Grep),
        (Method::Post, "/fffq/multi-grep"@, Handler::MultiGrep),
        (Method::Post, "/fffq/batch"@, Handler::Batch),
    ]
}

/// The routes of the sidecar besides MCP.
pub fn routes() -> (r: Vec<Route>)
    ensures
        route_views(r@) == all_routes(),
{
    let mut r: Vec<Route> = Vec::new();
    r.push(Route { method: Method::Get, path: "/health".to_string(), handler: Handler::Health });
    r.push(
        Route {
            method: Method::Get,
            path: "/fffq/health".to_string(),
            handler: Handler::FffqHealth,
        },
    );
    r.push(Route { method: Method::Post, path: "/fffq/find".to_string(), handler: Handler::Find });
    r.push(Route { method: Method::Post, path: "/fffq/grep".to_string(), handler: Handler::Grep });
    r.push(
        Route {
            method: Method::Post,
            path: "/fffq/multi-grep".to_string(),
            handler: Handler::MultiGrep,
        },
    );
    r.push(
        Route { method: Method::Post, path: "/fffq/batch".to_string(), handler: Handler::Batch },
    );
    assert(route_views(r@) == all_routes());
    r
}

/// What the server says to show that it runs.
pub fn health() -> (r: String)
    ensures
        r@ == "ok"@,
{
    "ok".to_string()
}

/// A report on the health of a sidecar.
#[derive(Debug)]
pub struct FffqHealth {
    pub ok: bool,
    pub root: String,
    pub pid: u32,
    pub version: String,
}

impl FffqHealth {
    /// The report as JSON.
    pub open spec fn json(self) -> JsonView {
        json::object(
            seq![
                ("ok"@, JsonView::Bool(self.ok)),
                ("root"@, JsonView::Str(self.root@)),
                ("pid"@, json::number_of(self.pid as nat)),
                ("version"@, JsonView::Str(self.version@)),
            ],
        )
    }
}

/// The report of a sidecar that serves `root`.
pub fn fffq_health(root: String, pid: u32, version: String) -> (r: FffqHealth)
    ensures
        r == (FffqHealth { ok: true, root, pid, version }),
{
    FffqHealth { ok: true, root, pid, version }
}

/// The answer to a search.
#[derive(Debug)]
pub struct FffqTextResponse {
    pub text: String,
}

impl FffqTextResponse {
    /// The answer as JSON.
    pub open spec fn json(self) -> JsonView {
        json::object(seq![("text"@, JsonView::Str(self.text@))])
    }
}

/// What a failed search is answered with.
#[derive(Debug)]
pub struct FffqError {
    pub error: String,
}

/// The status and the body with which a failure is answered.
pub fn fffq_error(message: String) -> (r: (u16, FffqError))
    ensures
        r == (500u16, FffqError { error: message }),
{
    (500, FffqError { error: message })
}

/// The answer to a search that came out as `outcome`.
pub fn fffq_text(outcome: Result<String, String>) -> (r: Result<
    FffqTextResponse,
    (u16, FffqError),
>)
    ensures
        r == match outcome {
            Ok(text) => Ok::<FffqTextResponse, (u16, FffqError)>(FffqTextResponse { text }),
            Err(message) => Err((500u16, FffqError { error: message })),
        },
{
    match outcome {
        Ok(text) => Ok(FffqTextResponse { text }),
        Err(message) => Err(fffq_error(message)),
    }
}

/// A tool that a batch may call.
#[derive(Clone, Copy, Debug, PartialEq, Eq, Structural)]
pub enum SearchTool {
    FindFiles,
    Grep,
    MultiGrep,
}

impl SearchTool {
    /// The name of the tool.
    pub open spec fn spec_name(self) -> Seq<char> {
        match self {
            SearchTool::FindFiles => "find_files"@,
            SearchTool::Grep => "grep"@,
            SearchTool::MultiGrep => "multi_grep"@,
        }
    }

    /// The name of the tool.
    pub fn name(self) -> (r: String)
        ensures
            r@ == self.spec_name(),
    {
        match self {
            SearchTool::FindFiles => "find_files".to_string(),
            SearchTool::Grep => "grep".to_string(),
            SearchTool::MultiGrep => "multi_grep".to_string(),
        }
    }
}

/// The answer to one search of a batch.
#[derive(Debug)]
pub struct FffqBatchItem {
    pub ok: bool,
    pub tool: String,
    pub text: String,
}

/// The answer to a batch.
#[derive(Debug)]
pub struct FffqBatchResponse {
    pub results: Vec<FffqBatchItem>,
}

/// `item` tells that the search with `tool` came out as `outcome`.
pub open spec fn item_tells(
    item: FffqBatchItem,
    tool: SearchTool,
    outcome: Result<String, String>,
) -> bool {
    &&& item.tool@ == tool.spec_name()
    &&& match outcome {
        Ok(text) => item.ok && item.text == text,
        Err(message) => !item.ok && item.text == message,
    }
}

/// The answer to a batch whose searches came out as `outcomes`.
pub fn fffq_batch(outcomes: Vec<(SearchTool, Result<String, String>)>) -> (r: FffqBatchResponse)
    ensures
        r.results@.len() == outcomes@.len(),
        forall|i: int|
            0 <= i < outcomes@.len() ==> item_tells(
                #[trigger] r.results@[i],
                outcomes@[i].0,
                outcomes@[i].1,
            ),
{
    let mut results: Vec<FffqBatchItem> = Vec::new();
    for outcome in it: outcomes
        invariant
            it.seq() == outcomes@,
            results@.len() == it.index(),
            forall|i: int|
                0 <= i < it.index() ==> item_tells(
                    #[trigger] results@[i],
                    outcomes@[i].0,
                    outcomes@[i].1,
                ),
    {
        let (tool, outcome) = outcome;
        let tool = tool.name();
        results.push(
            match outcome {
                Ok(text) => FffqBatchItem { ok: true, tool, text },
                Err(message) => FffqBatchItem { ok: false, tool, text: message },
            },
        );
    }
    FffqBatchResponse { results }
}

} // verus!
