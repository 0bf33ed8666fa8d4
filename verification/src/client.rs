//! A command of the client, from the search for a sidecar to the answer: what to do next, given
//! what happened.

use crate::call;
use crate::call::CallPhase;
use crate::http;
use crate::http::{HttpError, HttpRequest, HttpRequestView, HttpResponse, HttpResponseView};
use crate::json;
use crate::json::JsonView;
use crate::launch;
use crate::launch::{
    EnsurePhase, Event, EventView, Launch, LaunchView, Target, TargetView,
};
use crate::number;
use crate::query;
use crate::query::{Query, QueryView};
use crate::registry::{Registry, RegistryView};
use crate::retry;
use crate::text;
use serde_json::Value;
use vstd::prelude::*;

verus! {

/// How long, in milliseconds, the client sleeps before it looks for a started sidecar again.
pub const POLL_INTERVAL_MS: u64 = 75;

/// What a command is about, once there is a live sidecar.
#[derive(Debug)]
pub enum Job {
    /// Its registry is all that is wanted.
    Ensure,
    /// A report on the sidecar.
    Doctor,
    /// A search.
    Search(Query),
    /// A batch of searches, as JSON.
    Batch(String),
}

/// What a [`Job`] holds.
pub enum JobView {
    Ensure,
    Doctor,
    Search(QueryView),
    Batch(Seq<char>),
}

impl View for Job {
    type V = JobView;

    open spec fn view(&self) -> JobView {
        match *self {
            Job::Ensure => JobView::Ensure,
            Job::Doctor => JobView::Doctor,
            Job::Search(query) => JobView::Search(query@),
            Job::Batch(input) => JobView::Batch(input@),
        }
    }
}

/// A command: the sidecar that it is for, what it is about, and the version of the client.
#[derive(Debug)]
pub struct Command {
    pub target: Target,
    pub job: Job,
    pub version: String,
}

/// What a [`Command`] holds.
pub struct CommandView {
    pub target: TargetView,
    pub job: JobView,
    pub version: Seq<char>,
}

impl View for Command {
    type V = CommandView;

    open spec fn view(&self) -> CommandView {
        CommandView { target: self.target@, job: self.job@, version: self.version@ }
    }
}

/// What a command prints.
#[derive(Debug)]
pub enum Output<R, S> {
    /// A registry, as JSON.
    Registry(R),
    /// A text, and a line end.
    Line(S),
    /// A text as it is.
    Raw(S),
}

/// How far a command has come. `first` is the failure for which the sidecar was restarted.
#[derive(Debug)]
pub enum State<R, S> {
    /// A live sidecar is sought.
    Ensuring { first: Option<S>, phase: EnsurePhase<R, S> },
    /// The sidecar is being called.
    Calling { first: Option<S>, registry: R, call: CallPhase<S> },
    /// The call failed with `error`, and the sidecar is to be restarted.
    Restarting { error: S },
    /// The command is over.
    Done(Result<Output<R, S>, S>),
}

/// A state with the contents of what it holds.
pub type StateView = State<RegistryView, Seq<char>>;

/// What is printed, or a message.
pub open spec fn result_view(result: Result<Output<Registry, String>, String>) -> Result<
    Output<RegistryView, Seq<char>>,
    Seq<char>,
> {
    match result {
        Ok(Output::Registry(registry)) => Ok(Output::Registry(registry@)),
        Ok(Output::Line(text)) => Ok(Output::Line(text@)),
        Ok(Output::Raw(text)) => Ok(Output::Raw(text@)),
        Err(message) => Err(message@),
    }
}

impl View for State<Registry, String> {
    type V = StateView;

    open spec fn view(&self) -> StateView {
        match *self {
            State::Ensuring { first, phase } => State::Ensuring {
                first: text::optional_text(first),
                phase: phase@,
            },
            State::Calling { first, registry, call: phase } => State::Calling {
                first: text::optional_text(first),
                registry: registry@,
                call: phase@,
            },
            State::Restarting { error } => State::Restarting { error: error@ },
            State::Done(result) => State::Done(result_view(result)),
        }
    }
}

/// The report on a sidecar, with its health as indented JSON.
pub open spec fn report(registry: RegistryView, health: Seq<char>) -> Seq<char> {
    "root: "@ + registry.root + "\npid: "@ + number::decimal(registry.pid as nat) + "\nfffq: "@
        + registry.fffq_url + "\nmcp: "@ + registry.mcp_url + "\nhealth: "@ + health
}

/// The report on a sidecar whose health is `health`.
pub open spec fn report_outcome(registry: RegistryView, health: JsonView) -> Result<
    Seq<char>,
    Seq<char>,
> {
    match json::json_pretty(health) {
        Ok(pretty) => Ok(report(registry, pretty)),
        Err(message) => Err(message),
    }
}

/// Writes the report on a sidecar, with its health as indented JSON.
pub fn report_text(registry: &Registry, health: &str) -> (r: String)
    ensures
        r@ == report(registry@, health@),
{
    let mut report = "root: ".to_string();
    report.append(registry.root.as_str());
    report.append("\npid: ");
    report.append(number::decimal_text(registry.pid as u64).as_str());
    report.append("\nfffq: ");
    report.append(registry.fffq_url.as_str());
    report.append("\nmcp: ");
    report.append(registry.mcp_url.as_str());
    report.append("\nhealth: ");
    report.append(health);
    report
}

/// Writes the report on a sidecar whose health is `health`.
pub fn doctor_report(registry: &Registry, health: &Value) -> (r: Result<String, String>)
    ensures
        call::outcome_view(r) == report_outcome(registry@, json::json_view(*health)),
{
    match json::json_write_pretty(health) {
        Ok(pretty) => Ok(report_text(registry, pretty.as_str())),
        Err(message) => Err(message),
    }
}

/// What follows from a reply while the sidecar is being called.
pub open spec fn job_after_reply(
    job: JobView,
    registry: RegistryView,
    phase: CallPhase<Seq<char>>,
    reply: Result<HttpResponseView, Seq<char>>,
) -> CallPhase<Seq<char>> {
    match job {
        JobView::Search(_) => call::after_reply(phase, reply),
        JobView::Batch(_) => CallPhase::Done(call::batch_outcome(reply)),
        _ => CallPhase::Done(
            match call::json_outcome(reply) {
                Ok(health) => report_outcome(registry, health),
                Err(message) => Err(message),
            },
        ),
    }
}

/// Takes a reply while the sidecar is being called.
fn take_reply(
    job: &Job,
    registry: &Registry,
    phase: CallPhase<String>,
    reply: Result<HttpResponse, String>,
) -> (r: CallPhase<String>)
    ensures
        r@ == job_after_reply(job@, registry@, phase@, call::reply_view(reply)),
{
    match job {
        Job::Search(_) => call::call_text_once(phase, reply),
        Job::Batch(_) => CallPhase::Done(call::call_batch_once(reply)),
        _ => match call::http_get_json(reply) {
            Ok(health) => CallPhase::Done(doctor_report(registry, &health)),
            Err(message) => CallPhase::Done(Err(message)),
        },
    }
}

/// What a command prints of an answer.
pub open spec fn printed(job: JobView, text: Seq<char>) -> Output<RegistryView, Seq<char>> {
    match job {
        JobView::Batch(_) => Output::Raw(text),
        _ => Output::Line(text),
    }
}

/// A failed call of this job may be worth a restart.
pub open spec fn may_restart(job: JobView) -> bool {
    job is Search || job is Batch
}

/// The message when the call failed again after a restart.
pub open spec fn failed_again(first: Seq<char>, error: Seq<char>) -> Seq<char> {
    first + "; retry after restarting sidecar also failed: "@ + error
}

/// Where a command stands once the search for a sidecar stands at `phase`.
pub open spec fn settled_search(
    command: CommandView,
    first: Option<Seq<char>>,
    phase: EnsurePhase<RegistryView, Seq<char>>,
) -> StateView {
    match phase {
        EnsurePhase::Done(Ok(registry)) => if command.job is Ensure {
            State::Done(Ok(Output::Registry(registry)))
        } else {
            State::Calling { first, registry, call: CallPhase::Direct }
        },
        EnsurePhase::Done(Err(message)) => State::Done(Err(message)),
        phase => State::Ensuring { first, phase },
    }
}

/// Where a command stands once the call stands at `phase`.
pub open spec fn settled_call(
    command: CommandView,
    first: Option<Seq<char>>,
    registry: RegistryView,
    phase: CallPhase<Seq<char>>,
) -> StateView {
    match phase {
        CallPhase::Done(Ok(text)) => State::Done(Ok(printed(command.job, text))),
        CallPhase::Done(Err(error)) => match first {
            Some(first) => State::Done(Err(failed_again(first, error))),
            None => if may_restart(command.job) && !command.target.no_start
                && retry::is_retryable(error) {
                State::Restarting { error }
            } else {
                State::Done(Err(error))
            },
        },
        phase => State::Calling { first, registry, call: phase },
    }
}

/// A command to search for several patterns that names none.
pub open spec fn is_refused(command: CommandView) -> bool {
    command.job matches JobView::Search(search) && search.lacks_patterns
}

/// Where a command that is carried out begins: with the registry.
pub open spec fn initial() -> StateView {
    State::Ensuring { first: None, phase: EnsurePhase::Reading { launched: false } }
}

/// Where a command begins. One that is refused is over at once.
pub open spec fn begun(command: CommandView) -> StateView {
    if is_refused(command) {
        State::Done(Err(query::no_pattern()))
    } else {
        initial()
    }
}

/// What follows from an event. An event that the state does not wait for changes nothing.
pub open spec fn next(command: CommandView, state: StateView, event: EventView) -> StateView {
    match (state, event) {
        (State::Ensuring { first, phase }, event) => settled_search(
            command,
            first,
            launch::after_event(command.target, phase, event),
        ),
        (State::Calling { first, registry, call: phase }, Event::Reply(reply)) => settled_call(
            command,
            first,
            registry,
            job_after_reply(command.job, registry, phase, reply),
        ),
        (State::Restarting { error }, Event::Done) => State::Ensuring {
            first: Some(error),
            phase: EnsurePhase::Reading { launched: false },
        },
        (state, _) => state,
    }
}

/// Begins a command, or refuses a search for several patterns that names none.
pub fn begin(command: &Command) -> (r: State<Registry, String>)
    ensures
        r@ == begun(command@),
        command.job matches Job::Search(Query::MultiGrep { patterns, .. }) && patterns@.len() == 0
            ==> r@ == State::<RegistryView, Seq<char>>::Done(
            Err("multi-grep requires at least one pattern"@),
        ),
{
    if let Job::Search(query) = &command.job {
        if let Err(message) = query.check() {
            return State::Done(Err(message));
        }
    }
    State::Ensuring { first: None, phase: EnsurePhase::Reading { launched: false } }
}

/// Settles a call that may be over.
fn settle_call(
    command: &Command,
    first: Option<String>,
    registry: Registry,
    phase: CallPhase<String>,
) -> (r: State<Registry, String>)
    ensures
        r@ == settled_call(command@, text::optional_text(first), registry@, phase@),
{
    match phase {
        CallPhase::Done(Ok(text)) => match command.job {
            Job::Batch(_) => State::Done(Ok(Output::Raw(text))),
            _ => State::Done(Ok(Output::Line(text))),
        },
        CallPhase::Done(Err(error)) => match first {
            Some(first) => {
                let mut message = first;
                message.append("; retry after restarting sidecar also failed: ");
                message.append(error.as_str());
                State::Done(Err(message))
            },
            None => {
                let restarts = match command.job {
                    Job::Search(_) => true,
                    Job::Batch(_) => true,
                    _ => false,
                };
                if restarts && !command.target.no_start && retry::is_retryable_sidecar_error(
                    error.as_str(),
                ) {
                    State::Restarting { error }
                } else {
                    State::Done(Err(error))
                }
            },
        },
        phase => State::Calling { first, registry, call: phase },
    }
}

/// Takes an event.
pub fn step(
    command: &Command,
    state: State<Registry, String>,
    event: Event<Registry, HttpResponse, String>,
) -> (r: State<Registry, String>)
    ensures
        r@ == next(command@, state@, event@),
{
    match state {
        State::Ensuring { first, phase } => {
            match launch::ensure_sidecar(&command.target, phase, event) {
                EnsurePhase::Done(Ok(registry)) => match command.job {
                    Job::Ensure => State::Done(Ok(Output::Registry(registry))),
                    _ => State::Calling { first, registry, call: CallPhase::Direct },
                },
                EnsurePhase::Done(Err(message)) => State::Done(Err(message)),
                phase => State::Ensuring { first, phase },
            }
        },
        State::Calling { first, registry, call: phase } => match event {
            Event::Reply(reply) => {
                let phase = take_reply(&command.job, &registry, phase, reply);
                settle_call(command, first, registry, phase)
            },
            _ => State::Calling { first, registry, call: phase },
        },
        State::Restarting { error } => match event {
            Event::Done => State::Ensuring {
                first: Some(error),
                phase: EnsurePhase::Reading { launched: false },
            },
            _ => State::Restarting { error },
        },
        State::Done(result) => State::Done(result),
    }
}

/// What is to be done for a command.
#[derive(Debug)]
pub enum Action<Q, A, S> {
    /// Read the registry; the answer is [`Event::Registry`].
    ReadRegistry,
    /// Send a request; the answer is [`Event::Reply`].
    Send(Q),
    /// No request can be made, for this reason, which is the answer [`Event::Reply`].
    Refuse(S),
    /// Start a sidecar: make the directory of its registry, remove a stale registry, and run the
    /// sidecar's program as given, in a process group of its own and without standard input and
    /// output. The answer is [`Event::Launched`], with the first of these failures but that of the
    /// removal.
    Launch(A),
    /// Take the time since the sidecar was started; the answer is [`Event::Elapsed`].
    CheckTime,
    /// Sleep for so many milliseconds; the answer is [`Event::Done`].
    Sleep(u64),
    /// Say this and remove the registry; the answer is [`Event::Done`].
    Restart(S),
    /// Nothing more.
    Finish,
}

/// An action with the contents of what it carries.
pub type ActionView = Action<HttpRequestView, LaunchView, Seq<char>>;

impl View for Action<HttpRequest, Launch, String> {
    type V = ActionView;

    open spec fn view(&self) -> ActionView {
        match *self {
            Action::ReadRegistry => Action::ReadRegistry,
            Action::Send(request) => Action::Send(request@),
            Action::Refuse(message) => Action::Refuse(message@),
            Action::Launch(launch) => Action::Launch(launch@),
            Action::CheckTime => Action::CheckTime,
            Action::Sleep(ms) => Action::Sleep(ms),
            Action::Restart(warning) => Action::Restart(warning@),
            Action::Finish => Action::Finish,
        }
    }
}

/// A request is sent; where none can be made, its error is the reply.
pub open spec fn sending(request: Result<HttpRequestView, HttpError>) -> ActionView {
    match request {
        Ok(request) => Action::Send(request),
        Err(e) => Action::Refuse(e.spec_message()),
    }
}

/// What is said before a restart.
pub open spec fn restart_warning(error: Seq<char>) -> Seq<char> {
    "fffq: sidecar request failed ("@ + error + "); restarting sidecar once"@
}

/// What is to be done while the sidecar of `registry` is being called.
pub open spec fn call_action(
    command: CommandView,
    registry: RegistryView,
    phase: CallPhase<Seq<char>>,
) -> ActionView {
    match command.job {
        JobView::Search(query) => match call::search_request(
            registry,
            query,
            command.version,
            phase,
        ) {
            Some(request) => sending(request),
            None => Action::Finish,
        },
        JobView::Batch(input) => sending(
            http::request_of("POST"@, registry.fffq_url + "/batch"@, input, seq![]),
        ),
        _ => sending(launch::health_request_of(registry)),
    }
}

/// What is to be done in the given state.
pub open spec fn wanted(command: CommandView, state: StateView) -> ActionView {
    match state {
        State::Ensuring { first: _, phase } => match phase {
            EnsurePhase::Reading { .. } => Action::ReadRegistry,
            EnsurePhase::Probing { registry, .. } => sending(launch::health_request_of(registry)),
            EnsurePhase::Launching => Action::Launch(launch::launch_of(command.target)),
            EnsurePhase::Waiting => Action::CheckTime,
            EnsurePhase::Sleeping => Action::Sleep(POLL_INTERVAL_MS),
            EnsurePhase::Done(_) => Action::Finish,
        },
        State::Calling { first: _, registry, call: phase } => call_action(command, registry, phase),
        State::Restarting { error } => Action::Restart(restart_warning(error)),
        State::Done(_) => Action::Finish,
    }
}

/// Sends a request; where none can be made, its error is the reply.
fn send(request: Result<HttpRequest, HttpError>) -> (r: Action<HttpRequest, Launch, String>)
    ensures
        match request {
            Ok(request) => r@ == sending(Ok(request@)),
            Err(e) => r@ == sending(Err(e)),
        },
{
    match request {
        Ok(request) => Action::Send(request),
        Err(e) => Action::Refuse(e.message()),
    }
}

/// Tells what is to be done in the given state.
pub fn action(command: &Command, state: &State<Registry, String>) -> (r: Action<
    HttpRequest,
    Launch,
    String,
>)
    ensures
        r@ == wanted(command@, state@),
{
    match state {
        State::Ensuring { first: _, phase } => match phase {
            EnsurePhase::Reading { .. } => Action::ReadRegistry,
            EnsurePhase::Probing { registry, .. } => send(launch::health_request(registry)),
            EnsurePhase::Launching => Action::Launch(launch::launch(&command.target)),
            EnsurePhase::Waiting => Action::CheckTime,
            EnsurePhase::Sleeping => Action::Sleep(POLL_INTERVAL_MS),
            EnsurePhase::Done(_) => Action::Finish,
        },
        State::Calling { first: _, registry, call: phase } => match &command.job {
            Job::Search(query) => {
                match call::call_request(registry, query, command.version.as_str(), phase) {
                    Some(request) => send(request),
                    None => Action::Finish,
                }
            },
            Job::Batch(input) => {
                let mut url = registry.fffq_url.clone();
                url.append("/batch");
                let headers: [(&str, &str); 0] = [];
                assert(http::extra_texts(headers@) == Seq::<(Seq<char>, Seq<char>)>::empty());
                send(http::http_post_json(url.as_str(), input.as_str(), headers.as_slice()))
            },
            _ => send(launch::health_request(registry)),
        },
        State::Restarting { error } => {
            let mut warning = "fffq: sidecar request failed (".to_string();
            warning.append(error.as_str());
            warning.append("); restarting sidecar once");
            Action::Restart(warning)
        },
        State::Done(_) => Action::Finish,
    }
}

} // verus!
