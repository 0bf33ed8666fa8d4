//! What is extracted from the body of a reply, plain or as an event stream.

use crate::laws::text as text_laws;
use crate::laws::words;
use crate::sse;
use crate::text;
use vstd::prelude::*;

verus! {

/// A line offers a JSON object: `data: `, perhaps white space, and a brace.
pub open spec fn offers(line: Seq<char>) -> bool {
    words::begins(line, "data: "@) && exists|k: int|
        "data: "@.len() <= k < line.len() && #[trigger] line[k] == '{' && forall|j: int|
            "data: "@.len() <= j < k ==> text::is_white_space(#[trigger] line[j])
}

/// Lines one after the other, each with a line feed.
pub open spec fn fed(lines: Seq<Seq<char>>) -> Seq<char>
    decreases lines.len(),
{
    if lines.len() == 0 {
        seq![]
    } else {
        lines[0] + seq!['\n'] + fed(lines.drop_first())
    }
}

/// Single lines, none of which offers a JSON object.
pub open spec fn offer_nothing(lines: Seq<Seq<char>>) -> bool {
    forall|i: int|
        0 <= i < lines.len() ==> text_laws::lacks(#[trigger] lines[i], '\n') && !offers(lines[i])
}

/// A text that begins with a brace and has no white space at its ends.
pub open spec fn is_object_text(json: Seq<char>) -> bool {
    json.len() > 0 && json[0] == '{' && !text::is_white_space(json.last())
}

proof fn lemma_trim_start_prefix(s: Seq<char>)
    ensures
        text::trim_start(s).len() <= s.len(),
        forall|j: int|
            0 <= j < s.len() - text::trim_start(s).len() ==> text::is_white_space(#[trigger] s[j]),
    decreases s.len(),
{
    if s.len() > 0 && text::is_white_space(s[0]) {
        let t = s.drop_first();
        lemma_trim_start_prefix(t);
        assert forall|j: int| 0 <= j < s.len() - text::trim_start(s).len() implies
            text::is_white_space(#[trigger] s[j]) by {
            if j > 0 {
                assert(t[j - 1] == s[j]);
            }
        }
    }
}

proof fn lemma_trim_end_first(s: Seq<char>)
    requires
        s.len() > 0,
        !text::is_white_space(s[0]),
    ensures
        text::trim_end(s).len() > 0,
        text::trim_end(s)[0] == s[0],
    decreases s.len(),
{
    if text::is_white_space(s.last()) {
        lemma_trim_end_first(s.drop_last());
    }
}

proof fn lemma_first_of_trimmed(s: Seq<char>)
    ensures
        text::starts_with(text::trim(s), seq!['{']) <==> exists|k: int|
            0 <= k < s.len() && #[trigger] s[k] == '{' && forall|j: int|
                0 <= j < k ==> text::is_white_space(#[trigger] s[j]),
{
    let t = text::trim_start(s);
    let m = s.len() - t.len();
    lemma_trim_start_prefix(s);
    text::lemma_trim_start_len(s);
    words::beginnings_are_found(text::trim(s), seq!['{']);
    if t.len() > 0 {
        assert(t[0] == s[m]);
        lemma_trim_end_first(t);
        let u = text::trim(s);
        assert(u[0] == s[m]);
        assert(u.take(1) == seq![u[0]]);
        if words::begins(u, seq!['{']) {
            assert(u.take(1)[0] == '{');
            assert(s[m] == '{');
        }
        if exists|k: int|
            0 <= k < s.len() && #[trigger] s[k] == '{' && forall|j: int|
                0 <= j < k ==> text::is_white_space(#[trigger] s[j]) {
            let k = choose|k: int|
                0 <= k < s.len() && #[trigger] s[k] == '{' && forall|j: int|
                    0 <= j < k ==> text::is_white_space(#[trigger] s[j]);
            if m < k {
                assert(text::is_white_space(s[m]));
            }
            if k < m {
                assert(text::is_white_space(s[k]));
            }
            assert(u.take(1) == seq!['{']);
        }
    } else {
        assert forall|k: int| 0 <= k < s.len() implies #[trigger] s[k] != '{' by {
            assert(text::is_white_space(s[k]));
        }
    }
}

/// A line carries an object exactly if it offers one.
proof fn lemma_offers(line: Seq<char>)
    ensures
        sse::data_of(line) is Some <==> offers(line),
{
    let n = "data: "@.len() as int;
    words::beginnings_are_found(line, "data: "@);
    if words::begins(line, "data: "@) {
        let s = line.skip(n);
        lemma_first_of_trimmed(s);
        if sse::data_of(line) is Some {
            let k = choose|k: int|
                0 <= k < s.len() && #[trigger] s[k] == '{' && forall|j: int|
                    0 <= j < k ==> text::is_white_space(#[trigger] s[j]);
            assert(line[k + n] == s[k]);
            assert forall|j: int| n <= j < k + n implies text::is_white_space(
                #[trigger] line[j],
            ) by {
                assert(s[j - n] == line[j]);
            }
        }
        if offers(line) {
            let k = choose|k: int|
                "data: "@.len() <= k < line.len() && #[trigger] line[k] == '{' && forall|j: int|
                    "data: "@.len() <= j < k ==> text::is_white_space(#[trigger] line[j]);
            assert(s[k - n] == line[k]);
            assert forall|j: int| 0 <= j < k - n implies text::is_white_space(#[trigger] s[j]) by {
                assert(s[j] == line[j + n]);
            }
        }
    }
}

proof fn lemma_data_line(before: Seq<char>, json: Seq<char>, after: Seq<char>)
    requires
        text_laws::is_white(before),
        text_laws::is_white(after),
        is_object_text(json),
    ensures
        sse::data_of("data: "@ + before + json + after) == Some(json),
{
    let prefix = "data: "@;
    let line = prefix + before + json + after;
    words::beginnings_are_found(line, prefix);
    assert(line.take(prefix.len() as int) == prefix);
    assert(line.skip(prefix.len() as int) == before + json + after);
    text_laws::trim_ignores_white_space_around(before, json, after);
    text_laws::trim_keeps_trimmed_text(json);
    words::beginnings_are_found(json, seq!['{']);
    assert(json.take(1) == seq!['{']);
}

proof fn lemma_fed_nothing(before: Seq<Seq<char>>, line: Seq<char>)
    requires
        offer_nothing(before),
        text_laws::lacks(line, '\n'),
    ensures
        sse::first_data(text::lines(fed(before) + line)) == sse::data_of(line),
    decreases before.len(),
{
    if before.len() == 0 {
        assert(fed(before) + line == line);
        text_laws::lemma_one_line(line);
    } else {
        let first = before[0];
        let rest = before.drop_first();
        assert(text_laws::lacks(first, '\n') && !offers(first));
        assert forall|i: int| 0 <= i < rest.len() implies text_laws::lacks(
            #[trigger] rest[i],
            '\n',
        ) && !offers(rest[i]) by {
            assert(rest[i] == before[i + 1]);
        }
        lemma_fed_nothing(rest, line);
        lemma_offers(first);
        text_laws::lemma_one_line(first);
        assert(fed(before) + line == first + seq!['\n'] + (fed(rest) + line));
        text_laws::lemma_lines_join(first, fed(rest) + line);
    }
}

proof fn lemma_trim_end_append(s: Seq<char>, tail: Seq<char>)
    requires
        s.len() > 0,
        !text::is_white_space(s.last()),
    ensures
        text::trim_end(s + tail) == s + text::trim_end(tail),
    decreases tail.len(),
{
    if tail.len() == 0 {
        assert(s + tail == s);
        assert(s + text::trim_end(tail) == s);
    } else {
        assert((s + tail).last() == tail.last());
        if text::is_white_space(tail.last()) {
            assert((s + tail).drop_last() == s + tail.drop_last());
            lemma_trim_end_append(s, tail.drop_last());
        }
    }
}

/// A body in which a line offers a JSON object, and none before it does, is read as that object:
/// all that stands on the line from the brace on, up to the white space at its end. It makes no
/// difference what follows, nor what white space comes first.
#[verifier::rlimit(50)]
pub proof fn the_first_object_is_extracted(
    lead: Seq<char>,
    before: Seq<Seq<char>>,
    gap: Seq<char>,
    json: Seq<char>,
    end: Seq<char>,
    rest: Seq<char>,
)
    requires
        text_laws::is_white(lead),
        offer_nothing(before),
        text_laws::is_white(gap),
        text_laws::lacks(gap, '\n'),
        is_object_text(json),
        text_laws::lacks(json, '\n'),
        text_laws::is_white(end),
        text_laws::lacks(end, '\n'),
        rest.len() > 0 ==> rest[0] == '\n',
        fed(before).len() > 0 ==> !text::is_white_space(fed(before)[0]) && fed(before)[0] != '{',
    ensures
        sse::json_body(lead + fed(before) + "data: "@ + gap + json + end + rest) == Ok::<
            Seq<char>,
            Seq<char>,
        >(json),
{
    let p = fed(before);
    let prefix = "data: "@;
    let none = Seq::<char>::empty();
    let line = prefix + gap + json;
    let inner = p + line + (end + rest);
    assert(lead + p + prefix + gap + json + end + rest == lead + inner + none);
    text_laws::trim_ignores_white_space_around(lead, inner, none);
    lemma_line_plain(gap, json, end);
    lemma_line_plain(gap, json, none);
    assert(line + none == line);
    lemma_inner_start(p, line, end + rest);
    assert((p + line).last() == json.last());
    let (cut, more) = lemma_tail(p + line, end, rest);
    let trimmed = text::trim(inner);
    assert(text::trim_start(inner) == inner);
    lemma_no_brace(trimmed, inner);
    text_laws::lemma_blocks_data(trimmed);
    if cut {
        assert(line + none == prefix + gap + json + none);
        lemma_data_line(gap, json, none);
        lemma_fed_nothing(before, line);
    } else {
        let whole = prefix + gap + json + end;
        assert(trimmed == p + whole + seq!['\n'] + more);
        lemma_data_line(gap, json, end);
        lemma_fed_nothing(before, whole);
        text_laws::lemma_lines_join(p + whole, more);
    }
}

proof fn lemma_inner_start(p: Seq<char>, line: Seq<char>, tail: Seq<char>)
    requires
        words::begins(line, "data: "@),
        p.len() > 0 ==> !text::is_white_space(p[0]) && p[0] != '{',
    ensures
        (p + line + tail).len() > 0,
        !text::is_white_space((p + line + tail)[0]),
        (p + line + tail)[0] != '{',
{
    reveal_strlit("data: ");
    if p.len() == 0 {
        assert(line.take(6)[0] == 'd');
        assert(line[0] == 'd');
        assert((p + line + tail)[0] == line[0]);
    } else {
        assert((p + line + tail)[0] == p[0]);
    }
}

proof fn lemma_no_brace(trimmed: Seq<char>, inner: Seq<char>)
    requires
        inner.len() > 0,
        inner[0] != '{',
        trimmed.len() > 0,
        trimmed[0] == inner[0],
    ensures
        !text::starts_with(trimmed, seq!['{']),
{
    words::beginnings_are_found(trimmed, seq!['{']);
    if words::begins(trimmed, seq!['{']) {
        assert(trimmed.take(1)[0] == '{');
    }
}

proof fn lemma_line_plain(gap: Seq<char>, json: Seq<char>, end: Seq<char>)
    requires
        text_laws::lacks(gap, '\n'),
        text_laws::lacks(json, '\n'),
        text_laws::lacks(end, '\n'),
    ensures
        text_laws::lacks("data: "@ + gap + json + end, '\n'),
        words::begins("data: "@ + gap + json, "data: "@),
{
    reveal_strlit("data: ");
    let prefix = "data: "@;
    assert(text_laws::lacks(prefix, '\n'));
    assert(text_laws::lacks(prefix + gap, '\n'));
    assert(text_laws::lacks(prefix + gap + json, '\n'));
    assert((prefix + gap + json).take(6) == prefix);
}

proof fn lemma_tail(x: Seq<char>, end: Seq<char>, rest: Seq<char>) -> (r: (bool, Seq<char>))
    requires
        x.len() > 0,
        !text::is_white_space(x.last()),
        text_laws::is_white(end),
        rest.len() > 0 ==> rest[0] == '\n',
    ensures
        text::trim_end(x + (end + rest)) == if r.0 {
            x
        } else {
            x + end + seq!['\n'] + r.1
        },
{
    let tail = end + rest;
    let t = text::trim_end(tail);
    lemma_trim_end_append(x, tail);
    text_laws::lemma_trim_end_take(tail);
    if t.len() <= end.len() {
        if t.len() > 0 {
            assert(t.last() == end[t.len() - 1]);
        }
        assert(x + t == x);
        (true, t)
    } else {
        let n = end.len() as int;
        let more = t.skip(n + 1);
        assert(t[n] == rest[0]);
        assert(t == end + seq!['\n'] + more);
        assert(x + t == x + end + seq!['\n'] + more);
        (false, more)
    }
}

/// A body that is a JSON object, with any white space around it, is read as that object.
pub proof fn a_plain_object_is_extracted(before: Seq<char>, json: Seq<char>, after: Seq<char>)
    requires
        text_laws::is_white(before),
        is_object_text(json),
        text_laws::is_white(after),
    ensures
        sse::json_body(before + json + after) == Ok::<Seq<char>, Seq<char>>(json),
{
    text_laws::trim_ignores_white_space_around(before, json, after);
    text_laws::trim_keeps_trimmed_text(json);
    words::beginnings_are_found(json, seq!['{']);
    assert(json.take(1) == seq!['{']);
}

/// A body that does not begin with a brace, and of which no line offers a JSON object, is refused,
/// and named in full but for the white space around it.
pub proof fn a_body_without_an_object_is_refused(
    before: Seq<char>,
    lines: Seq<Seq<char>>,
    last: Seq<char>,
    after: Seq<char>,
)
    requires
        text_laws::is_white(before),
        text_laws::is_white(after),
        offer_nothing(lines),
        text_laws::lacks(last, '\n'),
        !offers(last),
        text_laws::is_trimmed(fed(lines) + last),
        (fed(lines) + last).len() > 0 ==> (fed(lines) + last)[0] != '{',
    ensures
        sse::json_body(before + (fed(lines) + last) + after) == Err::<Seq<char>, Seq<char>>(
            "could not extract JSON from response: "@ + (fed(lines) + last),
        ),
{
    let s = fed(lines) + last;
    text_laws::trim_ignores_white_space_around(before, s, after);
    text_laws::trim_keeps_trimmed_text(s);
    words::beginnings_are_found(s, seq!['{']);
    if words::begins(s, seq!['{']) {
        assert(s.take(1)[0] == '{');
    }
    text_laws::lemma_blocks_data(s);
    lemma_fed_nothing(lines, last);
    lemma_offers(last);
}

} // verus!
