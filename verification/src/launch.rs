//! Finding the live sidecar of a project root, and starting one where there is none.

use crate::call;
use crate::http;
use crate::http::{HttpError, HttpRequest, HttpRequestView, HttpResponse, HttpResponseView};
use crate::registry::{Registry, RegistryView};
use crate::text;
use vstd::prelude::*;

verus! {

/// What is known of the git repository around a directory.
#[derive(Debug)]
pub enum Discovery {
    /// There is one, with this working directory.
    Workdir(String),
    /// There is one without a working directory.
    Bare,
    /// There is none.
    Missing,
}

/// The project root that the client works for: the working directory of the repository around it,
/// or, without a repository, the canonical form of the directory itself.
pub fn resolve_root(discovery: Discovery, canonical: Result<String, String>) -> (r: Result<
    String,
    String,
>)
    ensures
        match discovery {
            Discovery::Workdir(workdir) => r == Ok::<String, String>(workdir),
            Discovery::Bare => r matches Err(message) && message@
                == "bare git repositories are not supported by fffq"@,
            Discovery::Missing => r == canonical,
        },
{
    match discovery {
        Discovery::Workdir(workdir) => Ok(workdir),
        Discovery::Bare => Err("bare git repositories are not supported by fffq".to_string()),
        Discovery::Missing => canonical,
    }
}

/// The first that there is of: the program named on the command line, the one named in the
/// environment, one beside the client; else `fallback`, which is looked up.
pub fn resolve_fff_mcp_bin<P>(
    explicit: Option<P>,
    named: Option<P>,
    sibling: Option<P>,
    fallback: P,
) -> (r: P)
    ensures
        r == match (explicit, named, sibling) {
            (Some(path), _, _) => path,
            (None, Some(path), _) => path,
            (None, None, Some(path)) => path,
            (None, None, None) => fallback,
        },
{
    if let Some(path) = explicit {
        return path;
    }
    if let Some(path) = named {
        return path;
    }
    if let Some(path) = sibling {
        return path;
    }
    fallback
}

/// How long, in seconds, a started sidecar has to become live.
pub const LAUNCH_TIMEOUT_SECS: u64 = 15;

/// So many milliseconds after its start, the time of a sidecar is up.
pub open spec fn time_is_up(elapsed_ms: u64) -> bool {
    elapsed_ms >= 1000 * LAUNCH_TIMEOUT_SECS
}

/// Tells whether, so many milliseconds after its start, the time of a sidecar is up.
pub fn is_overdue(elapsed_ms: u64) -> (r: bool)
    ensures
        r == (elapsed_ms >= 1000 * LAUNCH_TIMEOUT_SECS),
{
    elapsed_ms >= 1000 * LAUNCH_TIMEOUT_SECS
}

/// The command line of a sidecar for `root` that registers at `registry_path`.
pub open spec fn launch_line(registry_path: Seq<char>, root: Seq<char>) -> Seq<Seq<char>> {
    seq![
        "--transport"@,
        "streamable-http"@,
        "--http-bind"@,
        "127.0.0.1:0"@,
        "--http-path"@,
        "/mcp"@,
        "--registry-path"@,
        registry_path,
        "--no-warmup"@,
        "--no-update-check"@,
        "--max-cached-files"@,
        "20000"@,
        "--no-watch"@,
        "--poll-interval-secs"@,
        "300"@,
        root,
    ]
}

/// The command line of a sidecar for `root` that registers at `registry_path`.
pub fn launch_args(registry_path: &str, root: &str) -> (r: Vec<String>)
    ensures
        text::string_texts(r@) == launch_line(registry_path@, root@),
{
    let mut r: Vec<String> = Vec::new();
    r.push("--transport".to_string());
    r.push("streamable-http".to_string());
    r.push("--http-bind".to_string());
    r.push("127.0.0.1:0".to_string());
    r.push("--http-path".to_string());
    r.push("/mcp".to_string());
    r.push("--registry-path".to_string());
    r.push(registry_path.to_string());
    r.push("--no-warmup".to_string());
    r.push("--no-update-check".to_string());
    r.push("--max-cached-files".to_string());
    r.push("20000".to_string());
    r.push("--no-watch".to_string());
    r.push("--poll-interval-secs".to_string());
    r.push("300".to_string());
    r.push(root.to_string());
    assert(text::string_texts(r@) == launch_line(registry_path@, root@));
    r
}

/// How a sidecar is started: the directory of its registry is made and a stale registry removed,
/// then its program is run with the given arguments in the given directory.
#[derive(Debug)]
pub struct Launch {
    pub stale_registry: String,
    pub directory: String,
    pub args: Vec<String>,
}

/// What a [`Launch`] holds.
#[verifier::ext_equal]
pub struct LaunchView {
    pub stale_registry: Seq<char>,
    pub directory: Seq<char>,
    pub args: Seq<Seq<char>>,
}

impl View for Launch {
    type V = LaunchView;

    open spec fn view(&self) -> LaunchView {
        LaunchView {
            stale_registry: self.stale_registry@,
            directory: self.directory@,
            args: text::string_texts(self.args@),
        }
    }
}

/// The sidecar that is sought: the project root, the path of its registry, and whether one may be
/// started.
#[derive(Debug)]
pub struct Target {
    pub root: String,
    pub registry_path: String,
    pub no_start: bool,
}

/// What a [`Target`] holds.
#[verifier::ext_equal]
pub struct TargetView {
    pub root: Seq<char>,
    pub registry_path: Seq<char>,
    pub no_start: bool,
}

impl View for Target {
    type V = TargetView;

    open spec fn view(&self) -> TargetView {
        TargetView {
            root: self.root@,
            registry_path: self.registry_path@,
            no_start: self.no_start,
        }
    }
}

/// How the sidecar that is sought is started.
pub open spec fn launch_of(target: TargetView) -> LaunchView {
    LaunchView {
        stale_registry: target.registry_path,
        directory: target.root,
        args: launch_line(target.registry_path, target.root),
    }
}

/// Tells how the sidecar that is sought is started.
pub fn launch(target: &Target) -> (r: Launch)
    ensures
        r@ == launch_of(target@),
{
    Launch {
        stale_registry: target.registry_path.clone(),
        directory: target.root.clone(),
        args: launch_args(target.registry_path.as_str(), target.root.as_str()),
    }
}

/// How far the search for a live sidecar has come.
#[derive(Debug)]
pub enum EnsurePhase<R, S> {
    /// The registry is to be read; `launched` tells whether a sidecar was started before.
    Reading { launched: bool },
    /// The sidecar of the registry is asked for its health.
    Probing { launched: bool, registry: R },
    /// A sidecar is to be started.
    Launching,
    /// The time that a started sidecar has is to be checked.
    Waiting,
    /// A started sidecar was not live yet; it gets a little more time.
    Sleeping,
    /// The search is over.
    Done(Result<R, S>),
}

/// A registry or a message.
pub open spec fn found_view(found: Result<Registry, String>) -> Result<RegistryView, Seq<char>> {
    match found {
        Ok(registry) => Ok(registry@),
        Err(message) => Err(message@),
    }
}

impl View for EnsurePhase<Registry, String> {
    type V = EnsurePhase<RegistryView, Seq<char>>;

    open spec fn view(&self) -> EnsurePhase<RegistryView, Seq<char>> {
        match *self {
            EnsurePhase::Reading { launched } => EnsurePhase::Reading { launched },
            EnsurePhase::Probing { launched, registry } => EnsurePhase::Probing {
                launched,
                registry: registry@,
            },
            EnsurePhase::Launching => EnsurePhase::Launching,
            EnsurePhase::Waiting => EnsurePhase::Waiting,
            EnsurePhase::Sleeping => EnsurePhase::Sleeping,
            EnsurePhase::Done(found) => EnsurePhase::Done(found_view(found)),
        }
    }
}

/// What the world answers.
#[derive(Debug)]
pub enum Event<R, H, S> {
    /// The registry was read; there may be none that can be used.
    Registry(Option<R>),
    /// A response, or the message of the failure, came for a request.
    Reply(Result<H, S>),
    /// A sidecar was started, or could not be.
    Launched(Result<(), S>),
    /// So many milliseconds have passed since a sidecar was started.
    Elapsed(u64),
    /// What was to be done is done.
    Done,
}

/// An event with the contents of what it carries.
pub type EventView = Event<RegistryView, HttpResponseView, Seq<char>>;

impl View for Event<Registry, HttpResponse, String> {
    type V = EventView;

    open spec fn view(&self) -> EventView {
        match *self {
            Event::Registry(Some(registry)) => Event::Registry(Some(registry@)),
            Event::Registry(None) => Event::Registry(None),
            Event::Reply(reply) => Event::Reply(call::reply_view(reply)),
            Event::Launched(Ok(())) => Event::Launched(Ok(())),
            Event::Launched(Err(message)) => Event::Launched(Err(message@)),
            Event::Elapsed(ms) => Event::Elapsed(ms),
            Event::Done => Event::Done,
        }
    }
}

/// What follows where no sidecar is live.
pub open spec fn not_live(target: TargetView, launched: bool) -> EnsurePhase<
    RegistryView,
    Seq<char>,
> {
    if launched {
        EnsurePhase::Sleeping
    } else if target.no_start {
        EnsurePhase::Done(
            Err(
                "no live sidecar for "@ + target.root + "; registry "@ + target.registry_path
                    + " is missing or stale"@,
            ),
        )
    } else {
        EnsurePhase::Launching
    }
}

/// The reply of a sidecar that is alive and serves `root`.
pub open spec fn shows_live(
    reply: Result<HttpResponseView, Seq<char>>,
    root: Seq<char>,
) -> bool {
    call::json_outcome(reply) matches Ok(health) && call::is_healthy(health, root)
}

/// What follows from an event in the given phase. An event that the phase does not wait for changes
/// nothing.
pub open spec fn after_event(
    target: TargetView,
    phase: EnsurePhase<RegistryView, Seq<char>>,
    event: EventView,
) -> EnsurePhase<RegistryView, Seq<char>> {
    match (phase, event) {
        (EnsurePhase::Reading { launched }, Event::Registry(Some(registry))) => if registry.root
            == target.root {
            EnsurePhase::Probing { launched, registry }
        } else {
            not_live(target, launched)
        },
        (EnsurePhase::Reading { launched }, Event::Registry(None)) => not_live(target, launched),
        (EnsurePhase::Probing { launched, registry }, Event::Reply(reply)) => if shows_live(
            reply,
            target.root,
        ) {
            EnsurePhase::Done(Ok(registry))
        } else {
            not_live(target, launched)
        },
        (EnsurePhase::Launching, Event::Launched(Ok(()))) => EnsurePhase::Waiting,
        (EnsurePhase::Launching, Event::Launched(Err(message))) => EnsurePhase::Done(Err(message)),
        (EnsurePhase::Waiting, Event::Elapsed(ms)) => if time_is_up(ms) {
            EnsurePhase::Done(
                Err(
                    "sidecar did not become healthy before timeout; registry "@
                        + target.registry_path,
                ),
            )
        } else {
            EnsurePhase::Reading { launched: true }
        },
        (EnsurePhase::Sleeping, Event::Done) => EnsurePhase::Waiting,
        (phase, _) => phase,
    }
}

/// The phase where no sidecar is live.
fn give_up_or_launch(target: &Target, launched: bool) -> (r: EnsurePhase<Registry, String>)
    ensures
        r@ == not_live(target@, launched),
{
    if launched {
        EnsurePhase::Sleeping
    } else if target.no_start {
        let mut message = "no live sidecar for ".to_string();
        message.append(target.root.as_str());
        message.append("; registry ");
        message.append(target.registry_path.as_str());
        message.append(" is missing or stale");
        EnsurePhase::Done(Err(message))
    } else {
        EnsurePhase::Launching
    }
}

/// Tells whether a reply shows a sidecar that is alive and serves `root`.
fn is_live(reply: Result<HttpResponse, String>, root: &str) -> (r: bool)
    ensures
        r == shows_live(call::reply_view(reply), root@),
{
    match call::http_get_json(reply) {
        Ok(health) => call::reports_health(&health, root),
        Err(_) => false,
    }
}

/// Takes an event while a live sidecar is sought.
pub fn ensure_sidecar(
    target: &Target,
    phase: EnsurePhase<Registry, String>,
    event: Event<Registry, HttpResponse, String>,
) -> (r: EnsurePhase<Registry, String>)
    ensures
        r@ == after_event(target@, phase@, event@),
{
    match (phase, event) {
        (EnsurePhase::Reading { launched }, Event::Registry(Some(registry))) => {
            if registry.root == target.root {
                EnsurePhase::Probing { launched, registry }
            } else {
                give_up_or_launch(target, launched)
            }
        },
        (EnsurePhase::Reading { launched }, Event::Registry(None)) => give_up_or_launch(
            target,
            launched,
        ),
        (EnsurePhase::Probing { launched, registry }, Event::Reply(reply)) => {
            if is_live(reply, target.root.as_str()) {
                EnsurePhase::Done(Ok(registry))
            } else {
                give_up_or_launch(target, launched)
            }
        },
        (EnsurePhase::Launching, Event::Launched(Ok(()))) => EnsurePhase::Waiting,
        (EnsurePhase::Launching, Event::Launched(Err(message))) => EnsurePhase::Done(Err(message)),
        (EnsurePhase::Waiting, Event::Elapsed(ms)) => {
            if is_overdue(ms) {
                let mut message =
                    "sidecar did not become healthy before timeout; registry ".to_string();
                message.append(target.registry_path.as_str());
                EnsurePhase::Done(Err(message))
            } else {
                EnsurePhase::Reading { launched: true }
            }
        },
        (EnsurePhase::Sleeping, Event::Done) => EnsurePhase::Waiting,
        (phase, _) => phase,
    }
}

/// The request for the health of the sidecar of `registry`.
pub open spec fn health_request_of(registry: RegistryView) -> Result<HttpRequestView, HttpError> {
    http::request_of("GET"@, registry.fffq_url + "/health"@, seq![], seq![])
}

/// Builds the request for the health of the sidecar of `registry`.
pub fn health_request(registry: &Registry) -> (r: Result<HttpRequest, HttpError>)
    ensures
        call::is_request(Some(r), Some(health_request_of(registry@))),
{
    let mut url = registry.fffq_url.clone();
    url.append("/health");
    let headers: [(&str, &str); 0] = [];
    assert(http::extra_texts(headers@) == Seq::<(Seq<char>, Seq<char>)>::empty());
    http::http_request("GET", url.as_str(), None, headers.as_slice())
}

} // verus!
