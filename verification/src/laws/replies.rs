//! What replies come to.

use crate::call;
use crate::http::HttpResponseView;
use crate::json;
use crate::json::JsonView;
use crate::laws::numbers;
use crate::laws::sidecar as sidecar_laws;
use crate::laws::words;
use crate::number;
use crate::text;
use vstd::prelude::*;

verus! {

/// The field of that name of an object.
pub open spec fn field_of(value: JsonView, name: Seq<char>) -> Option<JsonView> {
    match value {
        JsonView::Object(fields) => if fields.dom().contains(name) {
            Some(fields[name])
        } else {
            None
        },
        _ => None,
    }
}

/// The first item of an array, or the field 0 of an object.
pub open spec fn first_of(value: JsonView) -> Option<JsonView> {
    match value {
        JsonView::Array(items) => if items.len() > 0 {
            Some(items[0])
        } else {
            None
        },
        _ => field_of(value, "0"@),
    }
}

/// The text of the first content of a tool's result.
pub open spec fn text_of(value: JsonView) -> Option<Seq<char>> {
    match field_of(value, "result"@) {
        None => None,
        Some(result) => match field_of(result, "content"@) {
            None => None,
            Some(content) => match first_of(content) {
                None => None,
                Some(first) => match field_of(first, "text"@) {
                    Some(JsonView::Str(text)) => Some(text),
                    _ => None,
                },
            },
        },
    }
}

/// A tool's answer fails with `message`: it is an error, or holds no text.
pub open spec fn tool_failure(value: JsonView, message: Seq<char>) -> bool {
    match field_of(value, "error"@) {
        Some(error) => message == "MCP error: "@ + json::json_text(error),
        None => text_of(value) is None && message
            == "MCP response did not contain text content: "@ + json::json_text(value),
    }
}

proof fn lemma_no_index(token: Seq<char>, array: Seq<JsonView>)
    requires
        token.len() > 0,
        'a' <= token[0] <= 'z',
    ensures
        JsonView::Array(array).member(token) is None,
{
    let none = Seq::<char>::empty();
    let rest = token.drop_first();
    assert(none + seq![token[0]] + rest == token);
    numbers::others_are_refused(none, token[0], rest, 10, usize::MAX as nat);
}

proof fn lemma_member(value: JsonView, token: Seq<char>)
    requires
        token.len() > 0,
        'a' <= token[0] <= 'z',
    ensures
        value.member(token) == field_of(value, token),
{
    if let JsonView::Array(array) = value {
        lemma_no_index(token, array);
    }
}

proof fn lemma_first(value: JsonView)
    ensures
        value.member("0"@) == first_of(value),
{
    reveal_strlit("0");
    let zero = "0"@;
    assert(zero == seq!['0']);
    if let JsonView::Array(items) = value {
        assert(!text::starts_with(zero, seq!['+'])) by {
            words::beginnings_are_found(zero, seq!['+']);
            if words::begins(zero, seq!['+']) {
                assert(zero.take(1)[0] == '+');
            }
        }
        assert(zero.drop_last() == Seq::<char>::empty());
        reveal_with_fuel(numbers::total, 2);
        numbers::digits_are_read(zero, 10, usize::MAX as nat);
    }
}

proof fn lemma_pointer(value: JsonView)
    ensures
        (match value.pointer("/result/content/0/text"@) {
            Some(JsonView::Str(text)) => Some(text),
            _ => None,
        }) == text_of(value),
{
    reveal_strlit("/result/content/0/text");
    reveal_strlit("result");
    reveal_strlit("content");
    reveal_strlit("text");
    sidecar_laws::lemma_pointer_tokens();
    let tokens = seq!["result"@, "content"@, "0"@, "text"@];
    assert(text::split("/result/content/0/text"@, seq!['/']).drop_first() == tokens);
    let t1 = tokens.drop_first();
    let t2 = t1.drop_first();
    let t3 = t2.drop_first();
    assert(t1[0] == "content"@ && t2[0] == "0"@ && t3[0] == "text"@ && t3.drop_first().len() == 0);
    assert(value.pointer("/result/content/0/text"@) == value.walk(tokens));
    lemma_member(value, "result"@);
    if let Some(result) = field_of(value, "result"@) {
        assert(value.walk(tokens) == result.walk(t1));
        lemma_member(result, "content"@);
        if let Some(content) = field_of(result, "content"@) {
            assert(result.walk(t1) == content.walk(t2));
            lemma_first(content);
            if let Some(first) = first_of(content) {
                assert(content.walk(t2) == first.walk(t3));
                lemma_member(first, "text"@);
                if let Some(text) = field_of(first, "text"@) {
                    assert(first.walk(t3) == text.walk(t3.drop_first()));
                }
            }
        }
    }
}

pub proof fn lemma_tool_failure(value: JsonView, message: Seq<char>)
    requires
        tool_failure(value, message),
    ensures
        call::tool_text(value) == Err::<Seq<char>, Seq<char>>(message),
{
    lemma_pointer(value);
}

/// The answer of a tool is the text of its first content, unless it is an error or holds none.
pub proof fn tool_answers_are_told(value: JsonView)
    ensures
        match (field_of(value, "error"@), text_of(value)) {
            (Some(error), _) => call::tool_text(value) == Err::<Seq<char>, Seq<char>>(
                "MCP error: "@ + json::json_text(error),
            ),
            (None, Some(text)) => call::tool_text(value) == Ok::<Seq<char>, Seq<char>>(text),
            (None, None) => call::tool_text(value) == Err::<Seq<char>, Seq<char>>(
                "MCP response did not contain text content: "@ + json::json_text(value),
            ),
        },
{
    lemma_pointer(value);
}

pub proof fn lemma_no_session(headers: Seq<(Seq<char>, Seq<char>)>)
    requires
        forall|i: int|
            0 <= i < headers.len() ==> !words::same_word(
                (#[trigger] headers[i]).0,
                "mcp-session-id"@,
            ),
    ensures
        call::session_of(headers) is None,
    decreases headers.len(),
{
    if headers.len() > 0 {
        words::case_is_ignored(headers[0].0, "mcp-session-id"@);
        let rest = headers.drop_first();
        assert forall|i: int| 0 <= i < rest.len() implies !words::same_word(
            (#[trigger] rest[i]).0,
            "mcp-session-id"@,
        ) by {
            assert(rest[i] == headers[i + 1]);
        }
        lemma_no_session(rest);
    }
}

/// The session is the value of the first header of its name, whatever the case of its letters.
pub proof fn the_first_session_is_taken(
    before: Seq<(Seq<char>, Seq<char>)>,
    name: Seq<char>,
    session: Seq<char>,
    after: Seq<(Seq<char>, Seq<char>)>,
)
    requires
        words::same_word(name, "mcp-session-id"@),
        forall|i: int|
            0 <= i < before.len() ==> !words::same_word(
                (#[trigger] before[i]).0,
                "mcp-session-id"@,
            ),
    ensures
        call::session_of(before.push((name, session)) + after) == Some(session),
    decreases before.len(),
{
    let all = before.push((name, session)) + after;
    if before.len() == 0 {
        words::case_is_ignored(name, "mcp-session-id"@);
        assert(all[0] == (name, session));
    } else {
        assert(all[0] == before[0]);
        words::case_is_ignored(before[0].0, "mcp-session-id"@);
        let rest = before.drop_first();
        assert forall|i: int| 0 <= i < rest.len() implies !words::same_word(
            (#[trigger] rest[i]).0,
            "mcp-session-id"@,
        ) by {
            assert(rest[i] == before[i + 1]);
        }
        assert(all.drop_first() == rest.push((name, session)) + after);
        the_first_session_is_taken(rest, name, session, after);
    }
}

/// A reply is taken if it is a response below 400. Otherwise it comes to its failure, or to the
/// status and the body.
pub proof fn replies_are_taken_below_400(response: HttpResponseView, message: Seq<char>)
    ensures
        call::batch_outcome(Err(message)) == Err::<Seq<char>, Seq<char>>(message),
        call::json_outcome(Err(message)) == Err::<JsonView, Seq<char>>(message),
        response.status < 400 ==> call::batch_outcome(Ok(response)) == Ok::<Seq<char>, Seq<char>>(
            response.body,
        ),
        response.status < 400 ==> call::json_outcome(Ok(response)) == json::json_parsed(
            response.body,
        ),
        response.status >= 400 ==> call::batch_outcome(Ok(response)) == Err::<
            Seq<char>,
            Seq<char>,
        >("HTTP "@ + number::decimal(response.status as nat) + ": "@ + response.body),
        response.status >= 400 ==> call::json_outcome(Ok(response)) == Err::<JsonView, Seq<char>>(
            "HTTP "@ + number::decimal(response.status as nat) + ": "@ + response.body,
        ),
{
}

/// The answer of a sidecar's own route is its text; anything else is named in full.
pub proof fn direct_answers_are_told(value: JsonView, body: Seq<char>)
    ensures
        call::direct_text(value, body) == match field_of(value, "text"@) {
            Some(JsonView::Str(text)) => Ok::<Seq<char>, Seq<char>>(text),
            _ => Err("unexpected fffq response: "@ + body),
        },
{
}

/// A report on its health shows a live sidecar if it says yes and names the root.
pub proof fn health_is_a_yes_and_the_root(value: JsonView, root: Seq<char>)
    ensures
        call::is_healthy(value, root) <==> field_of(value, "ok"@) == Some(JsonView::Bool(true))
            && field_of(value, "root"@) == Some(JsonView::Str(root)),
{
}

} // verus!
