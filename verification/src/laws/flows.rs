//! What each event comes to, and what is wanted next.

use crate::call::CallPhase;
use crate::client;
use crate::client::{Action, CommandView, JobView, Output, State, StateView};
use crate::http::HttpResponseView;
use crate::json;
use crate::json::JsonView;
use crate::launch;
use crate::launch::{EnsurePhase, Event, EventView, LaunchView};
use crate::laws::replies;
use crate::laws::words;
use crate::number;
use crate::registry::RegistryView;
use crate::sse;
use vstd::prelude::*;

verus! {

/// A reply that shows a live sidecar: a response below 400 with a JSON object that says yes to `ok`
/// and names the root.
pub open spec fn is_live(reply: Result<HttpResponseView, Seq<char>>, root: Seq<char>) -> bool {
    match reply {
        Err(_) => false,
        Ok(response) => response.status < 400 && match json::json_parsed(response.body) {
            Err(_) => false,
            Ok(value) => replies::field_of(value, "ok"@) == Some(JsonView::Bool(true))
                && replies::field_of(value, "root"@) == Some(JsonView::Str(root)),
        },
    }
}

/// A sidecar is taken for live exactly if its reply says so.
pub proof fn only_a_live_reply_shows_a_live_sidecar(
    reply: Result<HttpResponseView, Seq<char>>,
    root: Seq<char>,
)
    ensures
        launch::shows_live(reply, root) <==> is_live(reply, root),
{
}

/// What a search for a live sidecar comes to where there is none: the next look at one that was
/// started, the end where none may be started, and else the start of one.
pub open spec fn without_sidecar(
    command: CommandView,
    first: Option<Seq<char>>,
    launched: bool,
) -> StateView {
    if launched {
        State::Ensuring { first, phase: EnsurePhase::Sleeping }
    } else if command.target.no_start {
        State::Done(
            Err(
                "no live sidecar for "@ + command.target.root + "; registry "@
                    + command.target.registry_path + " is missing or stale"@,
            ),
        )
    } else {
        State::Ensuring { first, phase: EnsurePhase::Launching }
    }
}

/// A registry is probed if it is one of the root; otherwise there is no sidecar.
pub proof fn a_registry_of_the_root_is_probed(
    command: CommandView,
    first: Option<Seq<char>>,
    launched: bool,
    registry: RegistryView,
)
    ensures
        ({
            let reading = (State::Ensuring { first, phase: EnsurePhase::Reading { launched } });
            &&& client::wanted(command, reading) is ReadRegistry
            &&& client::next(command, reading, Event::Registry(None)) == without_sidecar(
                command,
                first,
                launched,
            )
            &&& client::next(command, reading, Event::Registry(Some(registry)))
                == if registry.root == command.target.root {
                State::Ensuring { first, phase: EnsurePhase::Probing { launched, registry } }
            } else {
                without_sidecar(command, first, launched)
            }
        }),
{
}

/// A sidecar that was probed is used if it is live; otherwise there is none.
pub proof fn a_live_sidecar_is_used(
    command: CommandView,
    first: Option<Seq<char>>,
    launched: bool,
    registry: RegistryView,
    reply: Result<HttpResponseView, Seq<char>>,
)
    ensures
        client::next(
            command,
            (State::Ensuring { first, phase: EnsurePhase::Probing { launched, registry } }),
            Event::Reply(reply),
        ) == if !is_live(reply, command.target.root) {
            without_sidecar(command, first, launched)
        } else if command.job is Ensure {
            State::Done(Ok(Output::Registry(registry)))
        } else {
            (State::Calling { first, registry, call: CallPhase::Direct })
        },
{
    only_a_live_reply_shows_a_live_sidecar(reply, command.target.root);
}

/// A sidecar is started in the root, with the registry at its place and for streamable HTTP on a
/// port of its own; the command waits for one that was started, and ends with the reason where none
/// could be.
pub proof fn a_sidecar_is_started_so(
    command: CommandView,
    first: Option<Seq<char>>,
    message: Seq<char>,
)
    ensures
        ({
            let launching = (State::Ensuring { first, phase: EnsurePhase::Launching });
            &&& client::wanted(command, launching) matches Action::Launch(launch)
                && launch.stale_registry == command.target.registry_path && launch.directory
                == command.target.root && launch.args == seq![
                "--transport"@,
                "streamable-http"@,
                "--http-bind"@,
                "127.0.0.1:0"@,
                "--http-path"@,
                "/mcp"@,
                "--registry-path"@,
                command.target.registry_path,
                "--no-warmup"@,
                "--no-update-check"@,
                "--max-cached-files"@,
                "20000"@,
                "--no-watch"@,
                "--poll-interval-secs"@,
                "300"@,
                command.target.root,
            ]
            &&& client::next(command, launching, Event::Launched(Ok(()))) == (State::<
                RegistryView,
                Seq<char>,
            >::Ensuring {
                first,
                phase: EnsurePhase::Waiting,
            })
            &&& client::next(command, launching, Event::Launched(Err(message))) == State::<
                RegistryView,
                Seq<char>,
            >::Done(Err(message))
        }),
{
}

/// Between two looks at a started sidecar, the command sleeps for 75 milliseconds.
pub proof fn looks_are_75_milliseconds_apart(command: CommandView, first: Option<Seq<char>>)
    ensures
        ({
            let sleeping = (State::Ensuring { first, phase: EnsurePhase::Sleeping });
            &&& client::wanted(command, sleeping) == Action::<
                crate::http::HttpRequestView,
                LaunchView,
                Seq<char>,
            >::Sleep(75)
            &&& client::next(command, sleeping, Event::Done) == (State::<
                RegistryView,
                Seq<char>,
            >::Ensuring {
                first,
                phase: EnsurePhase::Waiting,
            })
        }),
{
}

/// A restart is announced with its reason, which is kept, and the search for a sidecar begins anew.
pub proof fn a_restart_is_announced(command: CommandView, error: Seq<char>)
    ensures
        ({
            let restarting = (State::Restarting { error });
            &&& client::wanted(command, restarting) == Action::<
                crate::http::HttpRequestView,
                LaunchView,
                Seq<char>,
            >::Restart(
                "fffq: sidecar request failed ("@ + error + "); restarting sidecar once"@,
            )
            &&& client::next(command, restarting, Event::Done) == (State::<
                RegistryView,
                Seq<char>,
            >::Ensuring {
                first: Some(error),
                phase: EnsurePhase::Reading { launched: false },
            })
        }),
{
}

/// Every command but a search for several patterns that names none begins with a look at the
/// registry.
pub proof fn a_command_begins_with_the_registry(command: CommandView)
    ensures
        client::begun(command) == match command.job {
            JobView::Search(search) => if search.lacks_patterns {
                State::<RegistryView, Seq<char>>::Done(
                    Err("multi-grep requires at least one pattern"@),
                )
            } else {
                (State::<RegistryView, Seq<char>>::Ensuring {
                first: None,
                phase: EnsurePhase::Reading { launched: false },
            })
            },
            _ => (State::<RegistryView, Seq<char>>::Ensuring {
                first: None,
                phase: EnsurePhase::Reading { launched: false },
            }),
        },
{
}

/// What is waited for: an event of another kind changes nothing.
pub proof fn other_events_change_nothing(command: CommandView, state: StateView, event: EventView)
    requires
        match state {
            State::Ensuring { phase, .. } => match phase {
                EnsurePhase::Reading { .. } => !(event is Registry),
                EnsurePhase::Probing { .. } => !(event is Reply),
                EnsurePhase::Launching => !(event is Launched),
                EnsurePhase::Waiting => !(event is Elapsed),
                EnsurePhase::Sleeping => !(event is Done),
                EnsurePhase::Done(_) => false,
            },
            State::Calling { .. } => !(event is Reply),
            State::Restarting { .. } => !(event is Done),
            State::Done(_) => true,
        },
    ensures
        client::next(command, state, event) == state,
{
}

/// A search that the sidecar answers directly with a text prints it.
pub proof fn a_direct_answer_is_printed(
    command: CommandView,
    first: Option<Seq<char>>,
    registry: RegistryView,
    response: HttpResponseView,
    value: JsonView,
    text: Seq<char>,
)
    requires
        command.job is Search,
        response.status < 400,
        json::json_parsed(response.body) == Ok::<JsonView, Seq<char>>(value),
        replies::field_of(value, "text"@) == Some(JsonView::Str(text)),
    ensures
        client::next(
            command,
            (State::Calling { first, registry, call: CallPhase::Direct }),
            Event::Reply(Ok(response)),
        ) == State::<RegistryView, Seq<char>>::Done(Ok(Output::Line(text))),
{
}

/// The way round opens a session, says that it is in use, and prints the text of the tool's answer.
pub proof fn the_way_round_is_followed(
    command: CommandView,
    first: Option<Seq<char>>,
    registry: RegistryView,
    failure: Seq<char>,
    session: Seq<char>,
    name: Seq<char>,
    before: Seq<(Seq<char>, Seq<char>)>,
    after: Seq<(Seq<char>, Seq<char>)>,
    response: HttpResponseView,
)
    requires
        command.job is Search,
        response.status < 400,
    ensures
        words::same_word(name, "mcp-session-id"@) && (forall|i: int|
            0 <= i < before.len() ==> !words::same_word(
                (#[trigger] before[i]).0,
                "mcp-session-id"@,
            )) && response.headers == before.push((name, session)) + after ==> client::next(
            command,
            (State::Calling { first, registry, call: CallPhase::Opening { failure } }),
            Event::Reply(Ok(response)),
        ) == (State::Calling {
            first,
            registry,
            call: CallPhase::Announcing { failure, session },
        }),
        client::next(
            command,
            (State::Calling { first, registry, call: CallPhase::Announcing { failure, session } }),
            Event::Reply(Ok(response)),
        ) == (State::Calling {
            first,
            registry,
            call: CallPhase::Calling { failure, session },
        }),
        match sse::json_body(response.body) {
            Ok(json) => match json::json_parsed(json) {
                Ok(value) => match (
                    replies::field_of(value, "error"@),
                    replies::text_of(value),
                ) {
                    (None, Some(text)) => client::next(
                        command,
                        (State::Calling {
                            first,
                            registry,
                            call: CallPhase::Calling { failure, session },
                        }),
                        Event::Reply(Ok(response)),
                    ) == State::<RegistryView, Seq<char>>::Done(Ok(Output::Line(text))),
                    _ => true,
                },
                Err(_) => true,
            },
            Err(_) => true,
        },
{
    if words::same_word(name, "mcp-session-id"@) && (forall|i: int|
        0 <= i < before.len() ==> !words::same_word((#[trigger] before[i]).0, "mcp-session-id"@)) {
        replies::the_first_session_is_taken(before, name, session, after);
    }
    if let Ok(json) = sse::json_body(response.body) {
        if let Ok(value) = json::json_parsed(json) {
            replies::tool_answers_are_told(value);
        }
    }
}

/// The answer to a batch is printed as it is.
pub proof fn a_batch_is_printed_as_it_is(
    command: CommandView,
    first: Option<Seq<char>>,
    registry: RegistryView,
    call: CallPhase<Seq<char>>,
    response: HttpResponseView,
)
    requires
        command.job is Batch,
        response.status < 400,
    ensures
        client::next(
            command,
            (State::Calling { first, registry, call }),
            Event::Reply(Ok(response)),
        ) == State::<RegistryView, Seq<char>>::Done(Ok(Output::Raw(response.body))),
{
}

/// A report says where the sidecar is and how it is.
pub proof fn a_report_is_printed(
    command: CommandView,
    first: Option<Seq<char>>,
    registry: RegistryView,
    call: CallPhase<Seq<char>>,
    response: HttpResponseView,
    value: JsonView,
    health: Seq<char>,
)
    requires
        command.job is Doctor,
        response.status < 400,
        json::json_parsed(response.body) == Ok::<JsonView, Seq<char>>(value),
        json::json_pretty(value) == Ok::<Seq<char>, Seq<char>>(health),
    ensures
        client::next(
            command,
            (State::Calling { first, registry, call }),
            Event::Reply(Ok(response)),
        ) == State::<RegistryView, Seq<char>>::Done(
            Ok(
                Output::Line(
                    "root: "@ + registry.root + "\npid: "@ + number::decimal(registry.pid as nat)
                        + "\nfffq: "@ + registry.fffq_url + "\nmcp: "@ + registry.mcp_url
                        + "\nhealth: "@ + health,
                ),
            ),
        ),
{
}

/// A request that cannot be made is refused with the reason.
pub proof fn unusable_urls_are_not_called(
    command: CommandView,
    first: Option<Seq<char>>,
    registry: RegistryView,
    launched: bool,
    failure: Seq<char>,
)
    ensures
        !words::begins(registry.fffq_url + "/health"@, "http://"@) ==> client::wanted(
            command,
            (State::Ensuring { first, phase: EnsurePhase::Probing { launched, registry } }),
        ) == Action::<crate::http::HttpRequestView, LaunchView, Seq<char>>::Refuse(
            "only http:// sidecar URLs are supported"@,
        ),
        command.job is Search && !words::begins(registry.mcp_url, "http://"@) ==> client::wanted(
            command,
            (State::Calling { first, registry, call: CallPhase::Opening { failure } }),
        ) == Action::<crate::http::HttpRequestView, LaunchView, Seq<char>>::Refuse(
            "only http:// sidecar URLs are supported"@,
        ),
{
    words::beginnings_are_found(registry.fffq_url + "/health"@, "http://"@);
    words::beginnings_are_found(registry.mcp_url, "http://"@);
}

} // verus!
