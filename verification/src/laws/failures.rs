//! Which failures have the sidecar restarted, and which end the command.

use crate::call::CallPhase;
use crate::client;
use crate::client::{CommandView, State, StateView};
use crate::http::HttpResponseView;
use crate::json;
use crate::json::JsonView;
use crate::laws::numbers;
use crate::laws::replies;
use crate::laws::text as text_laws;
use crate::laws::words;
use crate::launch::Event;
use crate::number;
use crate::registry::RegistryView;
use crate::retry;
use crate::sse;
use vstd::prelude::*;

verus! {

/// A message that speaks of a lost connection, or of a response that is none.
pub open spec fn is_lost(message: Seq<char>) -> bool {
    ||| words::holds(message, "Connection refused"@)
    ||| words::holds(message, "connection refused"@)
    ||| words::holds(message, "Connection reset"@)
    ||| words::holds(message, "connection reset"@)
    ||| words::holds(message, "Broken pipe"@)
    ||| words::holds(message, "broken pipe"@)
    ||| words::holds(message, "timed out"@)
    ||| words::holds(message, "empty HTTP response from sidecar"@)
    ||| words::holds(message, "malformed HTTP response"@)
}

/// A failure is worth a restart exactly if its message holds one of the signs of a lost sidecar.
pub proof fn only_a_lost_sidecar_is_worth_a_restart(message: Seq<char>)
    ensures
        retry::is_retryable(message) <==> is_lost(message),
{
    words::search_finds_what_stands_there(message, "Connection refused"@);
    words::search_finds_what_stands_there(message, "connection refused"@);
    words::search_finds_what_stands_there(message, "Connection reset"@);
    words::search_finds_what_stands_there(message, "connection reset"@);
    words::search_finds_what_stands_there(message, "Broken pipe"@);
    words::search_finds_what_stands_there(message, "broken pipe"@);
    words::search_finds_what_stands_there(message, "timed out"@);
    words::search_finds_what_stands_there(message, "empty HTTP response from sidecar"@);
    words::search_finds_what_stands_there(message, "malformed HTTP response"@);
}

/// A sign as the texts around the messages cannot give one: it holds the letter o, and the letter n
/// or u, no colon and no semicolon, and does not begin with a space.
spec fn is_sign(p: Seq<char>) -> bool {
    &&& p.len() > 0
    &&& p[0] != ' '
    &&& text_laws::lacks(p, ':')
    &&& text_laws::lacks(p, ';')
    &&& !text_laws::lacks(p, 'o')
    &&& !text_laws::lacks(p, 'n') || !text_laws::lacks(p, 'u')
}

proof fn lemma_not_lacking(p: Seq<char>, i: int, c: char)
    requires
        0 <= i < p.len(),
        p[i] == c,
    ensures
        !text_laws::lacks(p, c),
{
}

proof fn lemma_signs()
    ensures
        is_sign("Connection refused"@),
        is_sign("connection refused"@),
        is_sign("Connection reset"@),
        is_sign("connection reset"@),
        is_sign("Broken pipe"@),
        is_sign("broken pipe"@),
        is_sign("timed out"@),
        is_sign("empty HTTP response from sidecar"@),
        is_sign("malformed HTTP response"@),
{
    reveal_strlit("Connection refused");
    reveal_strlit("connection refused");
    reveal_strlit("Connection reset");
    reveal_strlit("connection reset");
    reveal_strlit("Broken pipe");
    reveal_strlit("broken pipe");
    reveal_strlit("timed out");
    reveal_strlit("empty HTTP response from sidecar");
    reveal_strlit("malformed HTTP response");
    lemma_not_lacking("Connection refused"@, 1, 'o');
    lemma_not_lacking("Connection refused"@, 2, 'n');
    lemma_not_lacking("connection refused"@, 1, 'o');
    lemma_not_lacking("connection refused"@, 2, 'n');
    lemma_not_lacking("Connection reset"@, 1, 'o');
    lemma_not_lacking("Connection reset"@, 2, 'n');
    lemma_not_lacking("connection reset"@, 1, 'o');
    lemma_not_lacking("connection reset"@, 2, 'n');
    lemma_not_lacking("Broken pipe"@, 2, 'o');
    lemma_not_lacking("Broken pipe"@, 5, 'n');
    lemma_not_lacking("broken pipe"@, 2, 'o');
    lemma_not_lacking("broken pipe"@, 5, 'n');
    lemma_not_lacking("timed out"@, 6, 'o');
    lemma_not_lacking("timed out"@, 7, 'u');
    lemma_not_lacking("empty HTTP response from sidecar"@, 15, 'o');
    lemma_not_lacking("empty HTTP response from sidecar"@, 16, 'n');
    lemma_not_lacking("malformed HTTP response"@, 4, 'o');
    lemma_not_lacking("malformed HTTP response"@, 20, 'n');
}

spec fn found_at(s: Seq<char>, p: Seq<char>, i: int) -> bool {
    0 <= i <= s.len() - p.len() && s.subrange(i, i + p.len()) == p
}

proof fn lemma_found(s: Seq<char>, p: Seq<char>) -> (i: int)
    requires
        words::holds(s, p),
    ensures
        found_at(s, p, i),
{
    choose|i: int| 0 <= i <= s.len() - p.len() && #[trigger] s.subrange(i, i + p.len()) == p
}

proof fn lemma_found_char(s: Seq<char>, p: Seq<char>, i: int, k: int)
    requires
        found_at(s, p, i),
        0 <= k < p.len(),
    ensures
        s[i + k] == p[k],
{
    assert(s.subrange(i, i + p.len())[k] == p[k]);
}

proof fn lemma_absent(s: Seq<char>, p: Seq<char>, c: char)
    requires
        text_laws::lacks(s, c),
        !text_laws::lacks(p, c),
    ensures
        !words::holds(s, p),
{
    if words::holds(s, p) {
        let i = lemma_found(s, p);
        let k = choose|k: int| 0 <= k < p.len() && p[k] == c;
        lemma_found_char(s, p, i, k);
        assert(s[i + k] != c);
    }
}

/// A sign in `a: m` stands in `a` or in `m`.
proof fn lemma_behind_colon(a: Seq<char>, m: Seq<char>, p: Seq<char>)
    requires
        is_sign(p),
    ensures
        words::holds(a + seq![':', ' '] + m, p) ==> words::holds(a, p) || words::holds(m, p),
{
    let s = a + seq![':', ' '] + m;
    if words::holds(s, p) {
        let i = lemma_found(s, p);
        let n = a.len() as int;
        if i >= n + 2 {
            assert(m.subrange(i - n - 2, i - n - 2 + p.len()) == s.subrange(i, i + p.len()));
        } else if i == n + 1 {
            lemma_found_char(s, p, i, 0);
        } else if i + p.len() > n {
            lemma_found_char(s, p, i, n - i);
            assert(p[n - i] == ':');
        } else {
            assert(a.subrange(i, i + p.len()) == s.subrange(i, i + p.len()));
        }
    }
}

/// A sign in `a;b` stands in `a` or in `b`.
proof fn lemma_behind_semicolon(a: Seq<char>, b: Seq<char>, p: Seq<char>)
    requires
        is_sign(p),
    ensures
        words::holds(a + seq![';'] + b, p) ==> words::holds(a, p) || words::holds(b, p),
{
    let s = a + seq![';'] + b;
    if words::holds(s, p) {
        let i = lemma_found(s, p);
        let n = a.len() as int;
        if i > n {
            assert(b.subrange(i - n - 1, i - n - 1 + p.len()) == s.subrange(i, i + p.len()));
        } else if i + p.len() > n {
            lemma_found_char(s, p, i, n - i);
            assert(p[n - i] == ';');
        } else {
            assert(a.subrange(i, i + p.len()) == s.subrange(i, i + p.len()));
        }
    }
}

proof fn lemma_within(a: Seq<char>, m: Seq<char>, b: Seq<char>, p: Seq<char>)
    ensures
        words::holds(m, p) ==> words::holds(a + m + b, p),
{
    if words::holds(m, p) {
        let i = lemma_found(m, p);
        let s = a + m + b;
        let at = a.len() + i;
        assert(s.subrange(at, at + p.len()) == m.subrange(i, i + p.len()));
    }
}

/// The message of a search that failed both ways: directly as `failure` says, and over MCP with
/// `message`.
pub open spec fn both(failure: Seq<char>, message: Seq<char>) -> Seq<char> {
    failure + "; streamable HTTP MCP fallback also failed: "@ + message
}

proof fn lemma_sign_of_both(failure: Seq<char>, message: Seq<char>, p: Seq<char>)
    requires
        is_sign(p),
    ensures
        words::holds(both(failure, message), p) <==> words::holds(failure, p) || words::holds(
            message,
            p,
        ),
{
    reveal_strlit("; streamable HTTP MCP fallback also failed: ");
    let joint = "; streamable HTTP MCP fallback also failed: "@;
    let words = joint.subrange(1, joint.len() - 2);
    let colon = seq![':', ' '];
    let rest = words + colon + message;
    assert(joint == seq![';'] + words + colon);
    assert(both(failure, message) == failure + seq![';'] + rest);
    assert(text_laws::lacks(words, 'n') && text_laws::lacks(words, 'u'));
    if !text_laws::lacks(p, 'n') {
        lemma_absent(words, p, 'n');
    } else {
        lemma_absent(words, p, 'u');
    }
    lemma_behind_semicolon(failure, rest, p);
    lemma_behind_colon(words, message, p);
    let none = Seq::<char>::empty();
    lemma_within(none, failure, seq![';'] + rest, p);
    assert(none + failure + (seq![';'] + rest) == both(failure, message));
    lemma_within(failure + joint, message, none, p);
    assert(failure + joint + message + none == both(failure, message));
}

proof fn lemma_sign_of_failed(message: Seq<char>, p: Seq<char>)
    requires
        is_sign(p),
    ensures
        words::holds("direct fffq HTTP failed: "@ + message, p) <==> words::holds(message, p),
{
    reveal_strlit("direct fffq HTTP failed: ");
    let start = "direct fffq HTTP failed: "@;
    let words = start.take(start.len() - 2);
    assert(start == words + seq![':', ' ']);
    assert(text_laws::lacks(words, 'o'));
    lemma_absent(words, p, 'o');
    lemma_behind_colon(words, message, p);
    let none = Seq::<char>::empty();
    lemma_within(start, message, none, p);
    assert(start + message + none == start + message);
}

proof fn lemma_sign_of_status(status: u16, p: Seq<char>)
    requires
        is_sign(p),
    ensures
        !words::holds("direct fffq HTTP returned "@ + number::decimal(status as nat), p),
{
    reveal_strlit("direct fffq HTTP returned ");
    let start = "direct fffq HTTP returned "@;
    let digits = number::decimal(status as nat);
    numbers::decimals_are_worth_their_number(status as nat);
    assert(text_laws::lacks(start, 'o'));
    assert(text_laws::lacks(start + digits, 'o'));
    lemma_absent(start + digits, p, 'o');
}

/// A search whose direct request failed is lost if either failure says so.
proof fn lemma_lost_both(direct: Seq<char>, message: Seq<char>)
    ensures
        is_lost(both("direct fffq HTTP failed: "@ + direct, message)) <==> is_lost(direct)
            || is_lost(message),
{
    lemma_signs();
    let failure = "direct fffq HTTP failed: "@ + direct;
    assert forall|p: Seq<char>| is_sign(p) implies (words::holds(both(failure, message), p)
        <==> #[trigger] words::holds(direct, p) || words::holds(message, p)) by {
        lemma_sign_of_both(failure, message, p);
        lemma_sign_of_failed(direct, p);
    }
}

/// A search whose direct request got an error status is lost only if the way round says so.
proof fn lemma_lost_status(status: u16, message: Seq<char>)
    ensures
        is_lost(both("direct fffq HTTP returned "@ + number::decimal(status as nat), message))
            <==> is_lost(message),
{
    lemma_signs();
    let failure = "direct fffq HTTP returned "@ + number::decimal(status as nat);
    assert forall|p: Seq<char>| is_sign(p) implies (words::holds(both(failure, message), p)
        <==> #[trigger] words::holds(message, p)) by {
        lemma_sign_of_both(failure, message, p);
        lemma_sign_of_status(status, p);
    }
}

/// What a failed call comes to: after a restart, the end, with both failures; else a restart, if
/// the sidecar is lost and one may be started, or the end.
pub open spec fn after_failure(
    no_start: bool,
    first: Option<Seq<char>>,
    lost: bool,
    error: Seq<char>,
) -> StateView {
    match first {
        Some(first) => State::Done(
            Err(first + "; retry after restarting sidecar also failed: "@ + error),
        ),
        None => if lost && !no_start {
            State::Restarting { error }
        } else {
            State::Done(Err(error))
        },
    }
}

/// The way round, at `call`, fails with `message` on this reply: because there is no response, or
/// one with an error status, or one without a session, or one without the text of a tool.
pub open spec fn fails_with(
    call: CallPhase<Seq<char>>,
    reply: Result<HttpResponseView, Seq<char>>,
    message: Seq<char>,
) -> bool {
    match reply {
        Err(error) => message == error,
        Ok(response) => if response.status >= 400 {
            message == "HTTP "@ + number::decimal(response.status as nat) + ": "@ + response.body
        } else {
            match call {
                CallPhase::Opening { .. } => message
                    == "missing Mcp-Session-Id from initialize response"@ && forall|i: int|
                    0 <= i < response.headers.len() ==> !words::same_word(
                        (#[trigger] response.headers[i]).0,
                        "mcp-session-id"@,
                    ),
                CallPhase::Calling { .. } => match sse::json_body(response.body) {
                    Err(error) => message == error,
                    Ok(json) => match json::json_parsed(json) {
                        Err(error) => message == error,
                        Ok(value) => replies::tool_failure(value, message),
                    },
                },
                _ => false,
            }
        },
    }
}

/// A phase of the way round, after the direct request failed as `failure` says.
pub open spec fn is_way_round(call: CallPhase<Seq<char>>, failure: Seq<char>) -> bool {
    match call {
        CallPhase::Opening { failure: f } => f == failure,
        CallPhase::Announcing { failure: f, .. } => f == failure,
        CallPhase::Calling { failure: f, .. } => f == failure,
        _ => false,
    }
}

proof fn lemma_way_round_fails(
    command: CommandView,
    registry: RegistryView,
    first: Option<Seq<char>>,
    call: CallPhase<Seq<char>>,
    failure: Seq<char>,
    reply: Result<HttpResponseView, Seq<char>>,
    message: Seq<char>,
)
    requires
        command.job is Search,
        is_way_round(call, failure),
        fails_with(call, reply, message),
    ensures
        client::next(
            command,
            (State::Calling { first, registry, call }),
            Event::Reply(reply),
        ) == after_failure(
            command.target.no_start,
            first,
            is_lost(both(failure, message)),
            both(failure, message),
        ),
{
    only_a_lost_sidecar_is_worth_a_restart(both(failure, message));
    if let Ok(response) = reply {
        if response.status < 400 {
            if call is Opening {
                replies::lemma_no_session(response.headers);
            }
            if call is Calling {
                if let Ok(json) = sse::json_body(response.body) {
                    if let Ok(value) = json::json_parsed(json) {
                        replies::lemma_tool_failure(value, message);
                    }
                }
            }
        }
    }
}

/// A search whose direct request was refused with a status of 400 or more, and whose way round over
/// MCP then failed, is retried only if the failure of the way round speaks of a lost sidecar.
/// Otherwise it ends with both failures: a status is no reason for a restart.
pub proof fn a_refused_search_is_not_retried(
    command: CommandView,
    registry: RegistryView,
    first: Option<Seq<char>>,
    refusal: HttpResponseView,
    call: CallPhase<Seq<char>>,
    reply: Result<HttpResponseView, Seq<char>>,
    message: Seq<char>,
)
    requires
        command.job is Search,
        refusal.status >= 400,
        is_way_round(call, "direct fffq HTTP returned "@ + number::decimal(refusal.status as nat)),
        fails_with(call, reply, message),
    ensures
        ({
            let failure = "direct fffq HTTP returned "@ + number::decimal(refusal.status as nat);
            &&& client::next(
                command,
                (State::Calling { first, registry, call: CallPhase::Direct }),
                Event::Reply(Ok(refusal)),
            ) == (State::Calling { first, registry, call: CallPhase::Opening { failure } })
            &&& client::next(
                command,
                (State::Calling { first, registry, call }),
                Event::Reply(reply),
            ) == after_failure(
                command.target.no_start,
                first,
                is_lost(message),
                both(failure, message),
            )
            &&& !is_lost(message) ==> client::next(
                command,
                (State::Calling { first, registry, call }),
                Event::Reply(reply),
            ) is Done
        }),
{
    let failure = "direct fffq HTTP returned "@ + number::decimal(refusal.status as nat);
    lemma_way_round_fails(command, registry, first, call, failure, reply, message);
    lemma_lost_status(refusal.status, message);
}

/// A search whose direct request got no response, and whose way round over MCP then failed, is
/// retried exactly if one of the two failures speaks of a lost sidecar. Otherwise it ends with both
/// failures.
pub proof fn an_unanswered_search_is_retried_if_lost(
    command: CommandView,
    registry: RegistryView,
    first: Option<Seq<char>>,
    direct: Seq<char>,
    call: CallPhase<Seq<char>>,
    reply: Result<HttpResponseView, Seq<char>>,
    message: Seq<char>,
)
    requires
        command.job is Search,
        is_way_round(call, "direct fffq HTTP failed: "@ + direct),
        fails_with(call, reply, message),
    ensures
        ({
            let failure = "direct fffq HTTP failed: "@ + direct;
            &&& client::next(
                command,
                (State::Calling { first, registry, call: CallPhase::Direct }),
                Event::Reply(Err(direct)),
            ) == (State::Calling { first, registry, call: CallPhase::Opening { failure } })
            &&& client::next(
                command,
                (State::Calling { first, registry, call }),
                Event::Reply(reply),
            ) == after_failure(
                command.target.no_start,
                first,
                is_lost(direct) || is_lost(message),
                both(failure, message),
            )
        }),
{
    let failure = "direct fffq HTTP failed: "@ + direct;
    lemma_way_round_fails(command, registry, first, call, failure, reply, message);
    lemma_lost_both(direct, message);
}

/// A search that the sidecar answers directly, but not with a text, fails with the reason, and is
/// retried only if that speaks of a lost sidecar.
pub proof fn an_unexpected_answer_is_a_failure(
    command: CommandView,
    registry: RegistryView,
    first: Option<Seq<char>>,
    response: HttpResponseView,
    error: Seq<char>,
)
    requires
        command.job is Search,
        response.status < 400,
        match json::json_parsed(response.body) {
            Err(message) => error == message,
            Ok(value) => error == "unexpected fffq response: "@ + response.body && !(value matches
                JsonView::Object(fields) && fields.dom().contains("text"@)
                && fields["text"@] is Str),
        },
    ensures
        client::next(
            command,
            (State::Calling { first, registry, call: CallPhase::Direct }),
            Event::Reply(Ok(response)),
        ) == after_failure(command.target.no_start, first, is_lost(error), error),
{
    only_a_lost_sidecar_is_worth_a_restart(error);
}

/// A batch without a response, or with an error status, fails with the reason, and is retried only
/// if that speaks of a lost sidecar.
pub proof fn a_failed_batch_is_retried_if_lost(
    command: CommandView,
    registry: RegistryView,
    first: Option<Seq<char>>,
    call: CallPhase<Seq<char>>,
    reply: Result<HttpResponseView, Seq<char>>,
    error: Seq<char>,
)
    requires
        command.job is Batch,
        match reply {
            Err(message) => error == message,
            Ok(response) => response.status >= 400 && error == "HTTP "@ + number::decimal(
                response.status as nat,
            ) + ": "@ + response.body,
        },
    ensures
        client::next(
            command,
            (State::Calling { first, registry, call }),
            Event::Reply(reply),
        ) == after_failure(command.target.no_start, first, is_lost(error), error),
{
    only_a_lost_sidecar_is_worth_a_restart(error);
}

/// A report on a sidecar that gives none is never retried.
pub proof fn a_failed_report_is_the_end(
    command: CommandView,
    registry: RegistryView,
    call: CallPhase<Seq<char>>,
    reply: Result<HttpResponseView, Seq<char>>,
    error: Seq<char>,
)
    requires
        command.job is Doctor,
        match reply {
            Err(message) => error == message,
            Ok(response) => if response.status >= 400 {
                error == "HTTP "@ + number::decimal(response.status as nat) + ": "@ + response.body
            } else {
                match json::json_parsed(response.body) {
                    Err(message) => error == message,
                    Ok(health) => json::json_pretty(health) == Err::<Seq<char>, Seq<char>>(error),
                }
            },
        },
    ensures
        client::next(
            command,
            (State::Calling { first: None, registry, call }),
            Event::Reply(reply),
        ) == State::<RegistryView, Seq<char>>::Done(Err(error)),
{
}

} // verus!
