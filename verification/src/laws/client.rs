//! What holds of a command from its beginning to its end.

use crate::call;
use crate::call::CallPhase;
use crate::client;
use crate::client::{Action, ActionView, CommandView, Output, State, StateView};
use crate::http::{HttpError, HttpResponseView};
use crate::launch;
use crate::launch::{EnsurePhase, Event, EventView, TargetView};
use crate::query;
use crate::registry::RegistryView;
use crate::retry;
use crate::text;
use vstd::prelude::*;

verus! {

/// Where a command stands after the given events.
pub open spec fn run(command: CommandView, events: Seq<EventView>) -> StateView
    decreases events.len(),
{
    if events.len() == 0 {
        client::begun(command)
    } else {
        client::next(command, run(command, events.drop_last()), events.last())
    }
}

/// A state in which nothing was started and nothing is about to be.
pub open spec fn is_quiet(state: StateView) -> bool {
    match state {
        State::Ensuring { first, phase } => first is None && match phase {
            EnsurePhase::Reading { launched } => !launched,
            EnsurePhase::Probing { launched, .. } => !launched,
            _ => false,
        },
        State::Calling { first, .. } => first is None,
        State::Restarting { .. } => false,
        State::Done(_) => true,
    }
}

/// A command that must not start a sidecar never starts or restarts one, whatever happens.
pub proof fn no_start_starts_nothing(command: CommandView, events: Seq<EventView>)
    requires
        command.target.no_start,
    ensures
        is_quiet(run(command, events)),
        !(client::wanted(command, run(command, events)) is Launch),
        !(client::wanted(command, run(command, events)) is Restart),
    decreases events.len(),
{
    if events.len() > 0 {
        no_start_starts_nothing(command, events.drop_last());
    }
}

/// A search for several patterns that names none ends with the reason, whatever happens: nothing is
/// read, started or sent for it.
pub proof fn a_search_without_patterns_does_nothing(command: CommandView, events: Seq<EventView>)
    requires
        client::is_refused(command),
    ensures
        run(command, events) == State::<RegistryView, Seq<char>>::Done(Err(query::no_pattern())),
        client::wanted(command, run(command, events)) is Finish,
    decreases events.len(),
{
    if events.len() > 0 {
        a_search_without_patterns_does_nothing(command, events.drop_last());
    }
}

/// A state behind a restart.
pub open spec fn is_retried(state: StateView) -> bool {
    match state {
        State::Ensuring { first, .. } => first is Some,
        State::Calling { first, .. } => first is Some,
        State::Restarting { .. } => false,
        State::Done(_) => true,
    }
}

proof fn lemma_retried_after(command: CommandView, events: Seq<EventView>, i: int, j: int)
    requires
        0 <= i <= j <= events.len(),
        is_retried(run(command, events.take(i))),
    ensures
        is_retried(run(command, events.take(j))),
    decreases j - i,
{
    if i < j {
        assert(events.take(i + 1).drop_last() == events.take(i));
        assert(is_retried(run(command, events.take(i + 1))));
        lemma_retried_after(command, events, i + 1, j);
    }
}

proof fn lemma_leaves_restart(command: CommandView, events: Seq<EventView>, i: int, k: int)
    requires
        0 <= i < k <= events.len(),
        run(command, events.take(i)) is Restarting,
        !(run(command, events.take(k)) is Restarting),
    ensures
        is_retried(run(command, events.take(k))),
    decreases k - i,
{
    assert(events.take(i + 1).drop_last() == events.take(i));
    if run(command, events.take(i + 1)) is Restarting {
        lemma_leaves_restart(command, events, i + 1, k);
    } else {
        assert(is_retried(run(command, events.take(i + 1))));
        lemma_retried_after(command, events, i + 1, k);
    }
}

/// A command restarts the sidecar at most once: after a restart there is no other.
pub proof fn restarts_at_most_once(
    command: CommandView,
    events: Seq<EventView>,
    i: int,
    k: int,
    j: int,
)
    requires
        0 <= i < k <= j <= events.len(),
        run(command, events.take(i)) is Restarting,
        !(run(command, events.take(k)) is Restarting),
    ensures
        !(run(command, events.take(j)) is Restarting),
{
    lemma_leaves_restart(command, events, i, k);
    lemma_retried_after(command, events, k, j);
}

/// Every registry that the state holds on to is one of the root.
pub open spec fn is_of_root(state: StateView, root: Seq<char>) -> bool {
    match state {
        State::Ensuring { first: _, phase } => phase matches EnsurePhase::Probing { registry, .. }
            ==> registry.root == root,
        State::Calling { registry, .. } => registry.root == root,
        State::Done(Ok(Output::Registry(registry))) => registry.root == root,
        _ => true,
    }
}

/// A sidecar that is asked, called or reported is registered for the root of the command.
pub proof fn only_the_own_sidecar_is_used(command: CommandView, events: Seq<EventView>)
    ensures
        is_of_root(run(command, events), command.target.root),
    decreases events.len(),
{
    if events.len() > 0 {
        only_the_own_sidecar_is_used(command, events.drop_last());
    }
}

/// A call is only made after its sidecar showed that it is alive and serves the root.
pub proof fn only_a_live_sidecar_is_called(
    command: CommandView,
    state: StateView,
    event: EventView,
)
    requires
        state is Ensuring,
        match client::next(command, state, event) {
            State::Calling { .. } => true,
            State::Done(Ok(_)) => true,
            _ => false,
        },
        state matches State::Ensuring { phase, .. } && !(phase is Done),
    ensures
        event matches Event::Reply(reply) && launch::shows_live(reply, command.target.root),
{
}

/// A phase in which a sidecar was started, or in which the search is over.
pub open spec fn is_past_launch(phase: EnsurePhase<RegistryView, Seq<char>>) -> bool {
    match phase {
        EnsurePhase::Reading { launched } => launched,
        EnsurePhase::Probing { launched, .. } => launched,
        EnsurePhase::Launching => false,
        _ => true,
    }
}

/// One search for a sidecar starts one at most: once one was started, no other is.
pub proof fn a_search_launches_once(
    target: TargetView,
    phase: EnsurePhase<RegistryView, Seq<char>>,
    event: EventView,
)
    ensures
        phase is Launching && event is Launched ==> is_past_launch(
            launch::after_event(target, phase, event),
        ),
        is_past_launch(phase) ==> is_past_launch(launch::after_event(target, phase, event)),
{
}

/// A sidecar that was started and is not live has 15 seconds: before that it is looked for again,
/// and from then on the command ends.
pub proof fn a_started_sidecar_has_fifteen_seconds(
    command: CommandView,
    first: Option<Seq<char>>,
    elapsed_ms: u64,
)
    ensures
        ({
            let waiting = (State::Ensuring { first, phase: EnsurePhase::Waiting });
            let then = client::next(command, waiting, Event::Elapsed(elapsed_ms));
            &&& client::wanted(command, waiting) is CheckTime
            &&& elapsed_ms < 15_000 ==> client::wanted(command, then) is ReadRegistry
            &&& elapsed_ms >= 15_000 ==> then == State::<RegistryView, Seq<char>>::Done(
                Err(
                    "sidecar did not become healthy before timeout; registry "@
                        + command.target.registry_path,
                ),
            )
        }),
{
}

/// A sidecar that is registered for the root and shows that it is alive is used as it is: nothing
/// is started.
pub proof fn a_live_sidecar_is_reused(
    command: CommandView,
    registry: RegistryView,
    reply: Result<HttpResponseView, Seq<char>>,
)
    requires
        !client::is_refused(command),
        registry.root == command.target.root,
        launch::shows_live(reply, command.target.root),
    ensures
        run(command, seq![Event::Registry(Some(registry)), Event::Reply(reply)]) == if command.job
            is Ensure {
            State::<RegistryView, Seq<char>>::Done(Ok(Output::Registry(registry)))
        } else {
            (State::Calling { first: None, registry, call: CallPhase::Direct })
        },
{
    let events: Seq<EventView> = seq![Event::Registry(Some(registry)), Event::Reply(reply)];
    let first: Seq<EventView> = seq![Event::Registry(Some(registry))];
    assert(events.drop_last() == first);
    assert(first.drop_last() == Seq::<EventView>::empty());
    reveal_with_fuel(run, 3);
}

/// A state in which every part that is over was taken further.
pub open spec fn is_settled(state: StateView) -> bool {
    match state {
        State::Ensuring { phase, .. } => !(phase is Done),
        State::Calling { call, .. } => !(call is Done),
        _ => true,
    }
}

/// There is something to be done until the command is over, and nothing after that.
pub proof fn there_is_work_until_the_end(command: CommandView, events: Seq<EventView>)
    ensures
        is_settled(run(command, events)),
        client::wanted(command, run(command, events)) is Finish <==> run(
            command,
            events,
        ) is Done,
    decreases events.len(),
{
    if events.len() > 0 {
        there_is_work_until_the_end(command, events.drop_last());
    }
}

/// `event` is an answer to `action`.
pub open spec fn is_answer(action: ActionView, event: EventView) -> bool {
    match action {
        Action::ReadRegistry => event is Registry,
        Action::Send(_) => event is Reply,
        Action::Refuse(message) => event matches Event::Reply(Err(m)) && m == message,
        Action::Launch(_) => event is Launched,
        Action::CheckTime => event is Elapsed,
        Action::Sleep(_) => event is Done,
        Action::Restart(_) => event is Done,
        Action::Finish => false,
    }
}

/// Every answer to what is to be done takes a command further.
pub proof fn every_answer_is_taken(
    command: CommandView,
    events: Seq<EventView>,
    answer: EventView,
)
    requires
        is_answer(client::wanted(command, run(command, events)), answer),
    ensures
        run(command, events.push(answer)) != run(command, events),
{
    there_is_work_until_the_end(command, events);
    assert(events.push(answer).drop_last() == events);
    if let State::Calling { call, .. } = run(command, events) {
        if let Event::Reply(reply) = answer {
            a_search_ends(call, reply);
        }
    }
}

/// A command that is over stays as it ended.
pub proof fn the_end_is_final(command: CommandView, events: Seq<EventView>, more: Seq<EventView>)
    requires
        run(command, events) is Done,
    ensures
        run(command, events + more) == run(command, events),
    decreases more.len(),
{
    if more.len() == 0 {
        assert(events + more == events);
    } else {
        assert((events + more).drop_last() == events + more.drop_last());
        the_end_is_final(command, events, more.drop_last());
    }
}

/// How many replies a search still takes at most.
pub open spec fn replies_left(phase: CallPhase<Seq<char>>) -> nat {
    match phase {
        CallPhase::Direct => 4,
        CallPhase::Opening { .. } => 3,
        CallPhase::Announcing { .. } => 2,
        CallPhase::Calling { .. } => 1,
        CallPhase::Done(_) => 0,
    }
}

/// Every reply brings a search nearer to its end.
pub proof fn a_search_ends(
    phase: CallPhase<Seq<char>>,
    reply: Result<HttpResponseView, Seq<char>>,
)
    requires
        !(phase is Done),
    ensures
        replies_left(call::after_reply(phase, reply)) < replies_left(phase),
{
}

proof fn lemma_contains_within(a: Seq<char>, m: Seq<char>, b: Seq<char>, p: Seq<char>)
    ensures
        text::contains(m, p) ==> text::contains(a + m + b, p),
{
    if text::contains(m, p) {
        let i = choose|i: int| text::occurs_at(m, p, i);
        let s = a + m + b;
        assert(s.subrange(a.len() + i, a.len() + i + p.len()) == m.subrange(i, i + p.len()));
        assert(text::occurs_at(s, p, a.len() + i));
    }
}

/// A failure that is worth a restart stays so, whatever is said around it.
pub proof fn wrapping_keeps_retryable(before: Seq<char>, message: Seq<char>, after: Seq<char>)
    requires
        retry::is_retryable(message),
    ensures
        retry::is_retryable(before + message + after),
{
    lemma_contains_within(before, message, after, "Connection refused"@);
    lemma_contains_within(before, message, after, "connection refused"@);
    lemma_contains_within(before, message, after, "Connection reset"@);
    lemma_contains_within(before, message, after, "connection reset"@);
    lemma_contains_within(before, message, after, "Broken pipe"@);
    lemma_contains_within(before, message, after, "broken pipe"@);
    lemma_contains_within(before, message, after, "timed out"@);
    lemma_contains_within(before, message, after, "empty HTTP response from sidecar"@);
    lemma_contains_within(before, message, after, "malformed HTTP response"@);
}

/// A response that is none is worth a restart.
pub proof fn no_response_is_retryable()
    ensures
        retry::is_retryable(HttpError::EmptyResponse.spec_message()),
        retry::is_retryable(HttpError::MalformedResponse.spec_message()),
{
    let empty = HttpError::EmptyResponse.spec_message();
    let malformed = HttpError::MalformedResponse.spec_message();
    assert(empty.subrange(0, empty.len() as int) == empty);
    assert(malformed.subrange(0, malformed.len() as int) == malformed);
    assert(text::occurs_at(empty, empty, 0));
    assert(text::occurs_at(malformed, malformed, 0));
}

/// A search that finds its sidecar gone on both ways has it restarted, unless nothing may be
/// started: it is enough that one of the two failures is worth a restart.
pub proof fn a_lost_sidecar_is_restarted(
    command: CommandView,
    registry: RegistryView,
    direct: Seq<char>,
    fallback: Seq<char>,
)
    requires
        command.job is Search,
        !command.target.no_start,
        retry::is_retryable(direct) || retry::is_retryable(fallback),
    ensures
        ({
            let calling = State::Calling { first: None, registry, call: CallPhase::Direct };
            let gone = client::next(
                command,
                client::next(command, calling, Event::Reply(Err(direct))),
                Event::Reply(Err(fallback)),
            );
            gone == State::<RegistryView, Seq<char>>::Restarting {
                error: call::both_failed("direct fffq HTTP failed: "@ + direct, fallback),
            }
        }),
{
    let start = "direct fffq HTTP failed: "@;
    let middle = "; streamable HTTP MCP fallback also failed: "@;
    let error = call::both_failed(start + direct, fallback);
    if retry::is_retryable(direct) {
        wrapping_keeps_retryable(start, direct, middle + fallback);
        assert(start + direct + (middle + fallback) == error);
    } else {
        wrapping_keeps_retryable(start + direct + middle, fallback, seq![]);
        assert(start + direct + middle + fallback + Seq::<char>::empty() == error);
    }
}

/// A batch that finds its sidecar gone has it restarted, unless nothing may be started.
pub proof fn a_lost_batch_is_restarted(
    command: CommandView,
    registry: RegistryView,
    call: CallPhase<Seq<char>>,
    error: Seq<char>,
)
    requires
        command.job is Batch,
        !command.target.no_start,
        retry::is_retryable(error),
    ensures
        client::next(
            command,
            (State::Calling { first: None, registry, call }),
            Event::Reply(Err(error)),
        ) == (State::<RegistryView, Seq<char>>::Restarting { error }),
{
}

/// A failure that is not worth a restart ends the command with that failure.
pub proof fn other_failures_are_final(
    command: CommandView,
    registry: RegistryView,
    call: CallPhase<Seq<char>>,
    reply: Result<HttpResponseView, Seq<char>>,
    error: Seq<char>,
)
    requires
        client::job_after_reply(command.job, registry, call, reply) == CallPhase::Done::<Seq<char>>(
            Err(error),
        ),
        !retry::is_retryable(error),
    ensures
        client::next(
            command,
            (State::Calling { first: None, registry, call }),
            Event::Reply(reply),
        ) == State::<RegistryView, Seq<char>>::Done(Err(error)),
{
}

/// After a restart, a call that fails again ends the command with both failures.
pub proof fn a_second_failure_is_final(
    command: CommandView,
    registry: RegistryView,
    first: Seq<char>,
    reply: Result<HttpResponseView, Seq<char>>,
    call: CallPhase<Seq<char>>,
    error: Seq<char>,
)
    requires
        client::job_after_reply(command.job, registry, call, reply) == CallPhase::Done::<Seq<char>>(
            Err(error),
        ),
    ensures
        client::next(
            command,
            State::Calling { first: Some(first), registry, call },
            Event::Reply(reply),
        ) == State::<RegistryView, Seq<char>>::Done(Err(client::failed_again(first, error))),
{
}

} // verus!
