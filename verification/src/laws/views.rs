//! Views show what values hold, field by field.

use crate::call;
use crate::call::CallPhase;
use crate::client::{Action, Command, Job, JobView, Output, State};
use crate::http;
use crate::http::{
    HttpError, HttpRequest, HttpRequestView, HttpResponse, HttpResponseView, HttpUrl,
};
use crate::json;
use crate::launch;
use crate::launch::{EnsurePhase, Event, Launch, LaunchView, Target};
use crate::query::Query;
use crate::registry::{Registry, RegistryView};
use crate::sidecar;
use crate::sidecar::Route;
use crate::text;
use serde_json::Value;
use vstd::prelude::*;

verus! {

/// What goes over the wire is shown as it is.
pub proof fn messages_are_shown(url: HttpUrl, request: HttpRequest, response: HttpResponse, k: int)
    requires
        0 <= k < response.headers@.len(),
    ensures
        url@.host == url.host@ && url@.port == url.port && url@.path == url.path@,
        request@.host == request.host@ && request@.port == request.port && request@.text
            == request.text@,
        response@.status == response.status && response@.body == response.body@,
        response@.headers.len() == response.headers@.len(),
        response@.headers[k].0 == response.headers@[k].0@,
        response@.headers[k].1 == response.headers@[k].1@,
{
}

/// What is registered, sought and started is shown as it is.
pub proof fn records_are_shown(registry: Registry, target: Target, launch: Launch, k: int)
    requires
        0 <= k < launch.args@.len(),
    ensures
        registry@.root == registry.root@,
        registry@.pid == registry.pid,
        registry@.http_url == registry.http_url@,
        registry@.mcp_url == registry.mcp_url@,
        registry@.fffq_url == registry.fffq_url@,
        registry@.started_at_ms == registry.started_at_ms,
        target@.root == target.root@,
        target@.registry_path == target.registry_path@,
        target@.no_start == target.no_start,
        launch@.stale_registry == launch.stale_registry@,
        launch@.directory == launch.directory@,
        launch@.args.len() == launch.args@.len(),
        launch@.args[k] == launch.args@[k]@,
{
}

/// A command is shown with its target, its job and its version.
pub proof fn commands_are_shown(command: Command, query: Query, input: String)
    ensures
        command@.target == command.target@,
        command@.job == command.job@,
        command@.version == command.version@,
        Job::Ensure@ is Ensure,
        Job::Doctor@ is Doctor,
        Job::Search(query)@ == JobView::Search(query@),
        Job::Batch(input)@ == JobView::Batch(input@),
{
}

/// A phase of a call is shown with the texts that it holds.
pub proof fn calls_are_shown(failure: String, session: String)
    ensures
        CallPhase::<String>::Direct@ is Direct,
        (CallPhase::Opening { failure })@ == (CallPhase::Opening { failure: failure@ }),
        (CallPhase::Announcing { failure, session })@ == (CallPhase::Announcing {
            failure: failure@,
            session: session@,
        }),
        (CallPhase::Calling { failure, session })@ == (CallPhase::Calling {
            failure: failure@,
            session: session@,
        }),
        CallPhase::Done(Ok::<String, String>(failure))@ == CallPhase::Done(
            Ok::<Seq<char>, Seq<char>>(failure@),
        ),
        CallPhase::Done(Err::<String, String>(failure))@ == CallPhase::Done(
            Err::<Seq<char>, Seq<char>>(failure@),
        ),
{
}

/// A phase of the search for a sidecar is shown with what it holds.
pub proof fn searches_are_shown(launched: bool, registry: Registry, message: String)
    ensures
        (EnsurePhase::<Registry, String>::Reading { launched })@ == (EnsurePhase::<
            RegistryView,
            Seq<char>,
        >::Reading { launched }),
        (EnsurePhase::<Registry, String>::Probing { launched, registry })@ == (EnsurePhase::<
            RegistryView,
            Seq<char>,
        >::Probing { launched, registry: registry@ }),
        EnsurePhase::<Registry, String>::Launching@ is Launching,
        EnsurePhase::<Registry, String>::Waiting@ is Waiting,
        EnsurePhase::<Registry, String>::Sleeping@ is Sleeping,
        EnsurePhase::<Registry, String>::Done(Ok(registry))@ == EnsurePhase::<
            RegistryView,
            Seq<char>,
        >::Done(Ok(registry@)),
        EnsurePhase::<Registry, String>::Done(Err(message))@ == EnsurePhase::<
            RegistryView,
            Seq<char>,
        >::Done(Err(message@)),
{
}

/// An event is shown with what it carries.
pub proof fn events_are_shown(
    registry: Registry,
    response: HttpResponse,
    message: String,
    elapsed_ms: u64,
)
    ensures
        Event::<Registry, HttpResponse, String>::Registry(Some(registry))@ == Event::<
            RegistryView,
            HttpResponseView,
            Seq<char>,
        >::Registry(Some(registry@)),
        Event::<Registry, HttpResponse, String>::Registry(None)@ == Event::<
            RegistryView,
            HttpResponseView,
            Seq<char>,
        >::Registry(None),
        Event::<Registry, HttpResponse, String>::Reply(Ok(response))@ == Event::<
            RegistryView,
            HttpResponseView,
            Seq<char>,
        >::Reply(Ok(response@)),
        Event::<Registry, HttpResponse, String>::Reply(Err(message))@ == Event::<
            RegistryView,
            HttpResponseView,
            Seq<char>,
        >::Reply(Err(message@)),
        Event::<Registry, HttpResponse, String>::Launched(Ok(()))@ == Event::<
            RegistryView,
            HttpResponseView,
            Seq<char>,
        >::Launched(Ok(())),
        Event::<Registry, HttpResponse, String>::Launched(Err(message))@ == Event::<
            RegistryView,
            HttpResponseView,
            Seq<char>,
        >::Launched(Err(message@)),
        Event::<Registry, HttpResponse, String>::Elapsed(elapsed_ms)@ == Event::<
            RegistryView,
            HttpResponseView,
            Seq<char>,
        >::Elapsed(elapsed_ms),
        Event::<Registry, HttpResponse, String>::Done@ is Done,
{
}

/// A state is shown with what it holds.
pub proof fn states_are_shown(
    first: Option<String>,
    kept: String,
    phase: EnsurePhase<Registry, String>,
    call: CallPhase<String>,
    registry: Registry,
)
    ensures
        (State::Ensuring { first: Some(kept), phase })@ == (State::Ensuring {
            first: Some(kept@),
            phase: phase@,
        }),
        (State::Ensuring { first: None::<String>, phase })@ == (State::Ensuring {
            first: None::<Seq<char>>,
            phase: phase@,
        }),
        (State::Calling { first: Some(kept), registry, call })@ == (State::Calling {
            first: Some(kept@),
            registry: registry@,
            call: call@,
        }),
        (State::Calling { first: None::<String>, registry, call })@ == (State::Calling {
            first: None::<Seq<char>>,
            registry: registry@,
            call: call@,
        }),
        (State::<Registry, String>::Restarting { error: kept })@ == (State::<
            RegistryView,
            Seq<char>,
        >::Restarting { error: kept@ }),
        State::<Registry, String>::Done(Ok(Output::Registry(registry)))@ == State::<
            RegistryView,
            Seq<char>,
        >::Done(Ok(Output::Registry(registry@))),
        State::<Registry, String>::Done(Ok(Output::Line(kept)))@ == State::<
            RegistryView,
            Seq<char>,
        >::Done(Ok(Output::Line(kept@))),
        State::<Registry, String>::Done(Ok(Output::Raw(kept)))@ == State::<
            RegistryView,
            Seq<char>,
        >::Done(Ok(Output::Raw(kept@))),
        State::<Registry, String>::Done(Err(kept))@ == State::<
            RegistryView,
            Seq<char>,
        >::Done(Err(kept@)),
{
}

/// An action is shown with what it carries.
pub proof fn actions_are_shown(request: HttpRequest, launch: Launch, text: String, ms: u64)
    ensures
        Action::<HttpRequest, Launch, String>::ReadRegistry@ is ReadRegistry,
        Action::<HttpRequest, Launch, String>::Send(request)@ == Action::<
            HttpRequestView,
            LaunchView,
            Seq<char>,
        >::Send(request@),
        Action::<HttpRequest, Launch, String>::Refuse(text)@ == Action::<
            HttpRequestView,
            LaunchView,
            Seq<char>,
        >::Refuse(text@),
        Action::<HttpRequest, Launch, String>::Launch(launch)@ == Action::<
            HttpRequestView,
            LaunchView,
            Seq<char>,
        >::Launch(launch@),
        Action::<HttpRequest, Launch, String>::CheckTime@ is CheckTime,
        Action::<HttpRequest, Launch, String>::Sleep(ms)@ == Action::<
            HttpRequestView,
            LaunchView,
            Seq<char>,
        >::Sleep(ms),
        Action::<HttpRequest, Launch, String>::Restart(text)@ == Action::<
            HttpRequestView,
            LaunchView,
            Seq<char>,
        >::Restart(text@),
        Action::<HttpRequest, Launch, String>::Finish@ is Finish,
{
}

/// What is expected of a result is the result: its value, its error, or that there is none.
pub proof fn expectations_are_met_exactly(
    response: Option<Result<HttpResponse, HttpError>>,
    expected_response: Option<Result<HttpResponseView, HttpError>>,
    request: Option<Result<HttpRequest, HttpError>>,
    expected_request: Option<Result<HttpRequestView, HttpError>>,
)
    ensures
        http::is_response(response, expected_response) ==> match expected_response {
            None => response is None,
            Some(Err(e)) => response == Some(Err::<HttpResponse, HttpError>(e)),
            Some(Ok(view)) => response matches Some(Ok(r)) && r@ == view,
        },
        call::is_request(request, expected_request) ==> match expected_request {
            None => request is None,
            Some(Err(e)) => request == Some(Err::<HttpRequest, HttpError>(e)),
            Some(Ok(view)) => request matches Some(Ok(r)) && r@ == view,
        },
{
}

/// Lists and options of texts are shown text by text.
pub proof fn lists_are_shown(
    strings: Seq<String>,
    pieces: Seq<&[char]>,
    headers: Seq<(String, String)>,
    extra: Seq<(&str, &str)>,
    routes: Seq<Route>,
    fields: Seq<(String, Value)>,
    some: String,
    i: int,
)
    ensures
        text::string_texts(strings).len() == strings.len(),
        0 <= i < strings.len() ==> text::string_texts(strings)[i] == strings[i]@,
        text::texts(pieces).len() == pieces.len(),
        0 <= i < pieces.len() ==> text::texts(pieces)[i] == pieces[i]@,
        http::header_texts(headers).len() == headers.len(),
        0 <= i < headers.len() ==> http::header_texts(headers)[i] == (
            headers[i].0@,
            headers[i].1@,
        ),
        http::extra_texts(extra).len() == extra.len(),
        0 <= i < extra.len() ==> http::extra_texts(extra)[i] == (extra[i].0@, extra[i].1@),
        sidecar::route_views(routes).len() == routes.len(),
        0 <= i < routes.len() ==> sidecar::route_views(routes)[i] == (
            routes[i].method,
            routes[i].path@,
            routes[i].handler,
        ),
        json::field_views(fields).len() == fields.len(),
        0 <= i < fields.len() ==> json::field_views(fields)[i] == (
            fields[i].0@,
            json::json_view(fields[i].1),
        ),
        text::optional_text(Some(some)) == Some(some@),
        text::optional_text(None::<String>) is None,
{
}

/// Outcomes and replies are shown as what they are: a value, or the message of a failure.
pub proof fn outcomes_are_shown(text: String, response: HttpResponse, registry: Registry)
    ensures
        call::outcome_view(Ok(text)) == Ok::<Seq<char>, Seq<char>>(text@),
        call::outcome_view(Err(text)) == Err::<Seq<char>, Seq<char>>(text@),
        call::reply_view(Ok(response)) == Ok::<HttpResponseView, Seq<char>>(response@),
        call::reply_view(Err(text)) == Err::<HttpResponseView, Seq<char>>(text@),
        launch::found_view(Ok(registry)) == Ok::<RegistryView, Seq<char>>(registry@),
        launch::found_view(Err(text)) == Err::<RegistryView, Seq<char>>(text@),
{
}

} // verus!
