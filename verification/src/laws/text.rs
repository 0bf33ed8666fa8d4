//! What holds of trimmed text and of the JSON text in a reply.

use crate::sse;
use crate::text;
use vstd::prelude::*;

verus! {

/// `c` does not stand in `s`.
pub open spec fn lacks(s: Seq<char>, c: char) -> bool {
    forall|i: int| 0 <= i < s.len() ==> s[i] != c
}

/// A text without the character `c` is not split at it.
pub proof fn lemma_no_split(s: Seq<char>, c: char)
    requires
        lacks(s, c),
    ensures
        text::split_once(s, seq![c]) is None,
{
    assert forall|i: int| !text::first_at(s, seq![c], i) by {
        if text::occurs_at(s, seq![c], i) {
            assert(s.subrange(i, i + 1)[0] == c);
            assert(s[i] == c);
        }
    }
}

/// A separator whose first character does not stand before it splits where it stands.
pub proof fn lemma_split_concat(a: Seq<char>, p: Seq<char>, b: Seq<char>)
    requires
        p.len() > 0,
        lacks(a, p[0]),
    ensures
        text::split_once(a + p + b, p) == Some((a, b)),
{
    let s = a + p + b;
    let at = a.len() as int;
    assert(s.subrange(at, at + p.len()) == p);
    assert forall|j: int| j < at implies !text::occurs_at(s, p, j) by {
        if text::occurs_at(s, p, j) {
            assert(s.subrange(j, j + p.len())[0] == s[j]);
            assert(s[j] == a[j]);
            assert(a[j] != p[0]);
        }
    }
    assert(text::first_at(s, p, at));
    text::lemma_split_once_at(s, p, at);
    assert(s.take(at) == a);
    assert(s.skip(at + p.len()) == b);
}

/// A character that does not stand behind a position splits from the right there.
pub proof fn lemma_rsplit_concat(a: Seq<char>, c: char, b: Seq<char>)
    requires
        lacks(b, c),
    ensures
        text::rsplit_once(a + seq![c] + b, seq![c]) == Some((a, b)),
{
    let p = seq![c];
    let s = a + p + b;
    assert(s.subrange(a.len() as int, a.len() as int + 1) == p);
    assert forall|j: int| j > a.len() implies !text::occurs_at(s, p, j) by {
        if text::occurs_at(s, p, j) {
            assert(s.subrange(j, j + 1)[0] == c);
            assert(s[j] == b[j - a.len() - 1]);
        }
    }
    assert(text::last_at(s, p, a.len() as int));
    text::lemma_rsplit_once_at(s, p, a.len() as int);
    assert(s.take(a.len() as int) == a);
    assert(s.skip(a.len() as int + 1) == b);
}

/// A text without the character `c` is not split at it from the right either.
pub proof fn lemma_no_rsplit(s: Seq<char>, c: char)
    requires
        lacks(s, c),
    ensures
        text::rsplit_once(s, seq![c]) is None,
{
    assert forall|i: int| !text::last_at(s, seq![c], i) by {
        if text::occurs_at(s, seq![c], i) {
            assert(s.subrange(i, i + 1)[0] == c);
            assert(s[i] == c);
        }
    }
}

/// What is appended to a text that can be split only makes the second part longer.
pub proof fn lemma_split_append(s: Seq<char>, p: Seq<char>, more: Seq<char>)
    ensures
        text::split_once(s, p) matches Some((head, tail)) ==> text::split_once(s + more, p) == Some(
            (head, tail + more),
        ),
{
    if exists|i: int| text::first_at(s, p, i) {
        let i = choose|i: int| text::first_at(s, p, i);
        let t = s + more;
        assert(t.subrange(i, i + p.len()) == s.subrange(i, i + p.len()));
        assert forall|j: int| j < i implies !text::occurs_at(t, p, j) by {
            if text::occurs_at(t, p, j) {
                assert(s.subrange(j, j + p.len()) == t.subrange(j, j + p.len()));
                assert(text::occurs_at(s, p, j));
            }
        }
        assert(text::first_at(t, p, i));
        text::lemma_split_once_at(t, p, i);
        assert(t.take(i) == s.take(i));
        assert(t.skip(i + p.len()) == s.skip(i + p.len()) + more);
    }
}

proof fn lemma_trim_end(s: Seq<char>)
    ensures
        trim_end_len(s) <= s.len(),
        text::trim_end(s) == s.take(trim_end_len(s)),
        text::trim_end(s).len() > 0 ==> !text::is_white_space(text::trim_end(s).last()),
    decreases s.len(),
{
    if s.len() > 0 && text::is_white_space(s.last()) {
        lemma_trim_end(s.drop_last());
        assert(s.drop_last().take(trim_end_len(s)) == s.take(trim_end_len(s)));
    } else {
        assert(s.take(s.len() as int) == s);
    }
}

spec fn trim_end_len(s: Seq<char>) -> int {
    text::trim_end(s).len() as int
}

/// What trimming at the end leaves is the beginning of the text, up to a character other than white
/// space.
pub proof fn lemma_trim_end_take(s: Seq<char>)
    ensures
        text::trim_end(s).len() <= s.len(),
        text::trim_end(s) == s.take(text::trim_end(s).len() as int),
        text::trim_end(s).len() > 0 ==> !text::is_white_space(text::trim_end(s).last()),
{
    lemma_trim_end(s);
}

/// A text without white space at its ends.
pub open spec fn is_trimmed(s: Seq<char>) -> bool {
    s.len() > 0 ==> !text::is_white_space(s[0]) && !text::is_white_space(s.last())
}

/// What is trimmed has no white space at its ends.
pub proof fn trim_leaves_no_white_space(s: Seq<char>)
    ensures
        is_trimmed(text::trim(s)),
{
    text::lemma_trim_start_len(s);
    lemma_trim_end(text::trim_start(s));
}

/// A text without white space at its ends stays as it is when it is trimmed.
pub proof fn trim_keeps_trimmed_text(s: Seq<char>)
    requires
        is_trimmed(s),
    ensures
        text::trim(s) == s,
{
}

proof fn lemma_first_data(lines: Seq<Seq<char>>)
    ensures
        sse::first_data(lines) matches Some(data) ==> is_trimmed(data) && text::starts_with(
            data,
            seq!['{'],
        ),
    decreases lines.len(),
{
    if lines.len() > 0 {
        let line = lines[0];
        trim_leaves_no_white_space(line.skip("data: "@.len() as int));
        lemma_first_data(lines.drop_first());
    }
}

proof fn lemma_first_block_data(blocks: Seq<Seq<char>>)
    ensures
        sse::first_block_data(blocks) matches Some(data) ==> is_trimmed(data) && text::starts_with(
            data,
            seq!['{'],
        ),
    decreases blocks.len(),
{
    if blocks.len() > 0 {
        lemma_first_data(text::lines(blocks[0]));
        lemma_first_block_data(blocks.drop_first());
    }
}

/// The JSON text of a reply begins with a brace and has no white space at its ends.
pub proof fn json_body_is_an_object_text(body: Seq<char>)
    ensures
        sse::json_body(body) matches Ok(json) ==> is_trimmed(json) && text::starts_with(
            json,
            seq!['{'],
        ),
{
    trim_leaves_no_white_space(body);
    lemma_first_block_data(text::split(text::trim(body), seq!['\n', '\n']));
}

/// Only white space.
pub open spec fn is_white(s: Seq<char>) -> bool {
    forall|i: int| 0 <= i < s.len() ==> text::is_white_space(#[trigger] s[i])
}

pub proof fn lemma_trim_start_before(before: Seq<char>, s: Seq<char>)
    requires
        is_white(before),
    ensures
        text::trim_start(before + s) == text::trim_start(s),
    decreases before.len(),
{
    if before.len() == 0 {
        assert(before + s == s);
    } else {
        assert((before + s)[0] == before[0]);
        assert((before + s).drop_first() == before.drop_first() + s);
        lemma_trim_start_before(before.drop_first(), s);
    }
}

proof fn lemma_trim_end_after(s: Seq<char>, after: Seq<char>)
    requires
        is_white(after),
    ensures
        text::trim_end(s + after) == text::trim_end(s),
    decreases after.len(),
{
    if after.len() == 0 {
        assert(s + after == s);
    } else {
        assert((s + after).last() == after.last());
        assert((s + after).drop_last() == s + after.drop_last());
        lemma_trim_end_after(s, after.drop_last());
    }
}

proof fn lemma_trim_start_append(s: Seq<char>, after: Seq<char>)
    ensures
        text::trim_start(s + after) == if text::trim_start(s).len() > 0 {
            text::trim_start(s) + after
        } else {
            text::trim_start(after)
        },
    decreases s.len(),
{
    if s.len() == 0 {
        assert(s + after == after);
    } else {
        assert((s + after)[0] == s[0]);
        if text::is_white_space(s[0]) {
            assert((s + after).drop_first() == s.drop_first() + after);
            lemma_trim_start_append(s.drop_first(), after);
        }
    }
}

/// White space around a text does not change what trimming leaves of it.
pub proof fn trim_ignores_white_space_around(
    before: Seq<char>,
    s: Seq<char>,
    after: Seq<char>,
)
    requires
        is_white(before),
        is_white(after),
    ensures
        text::trim(before + s + after) == text::trim(s),
{
    assert(before + s + after == before + (s + after));
    lemma_trim_start_before(before, s + after);
    lemma_trim_start_append(s, after);
    if text::trim_start(s).len() > 0 {
        lemma_trim_end_after(text::trim_start(s), after);
    } else {
        let none = Seq::<char>::empty();
        assert(after + none == after);
        lemma_trim_start_before(after, none);
        assert(text::trim_start(s) == none);
    }
}

/// White space around the body of a reply does not change what is extracted from it.
pub proof fn extraction_ignores_white_space_around(
    before: Seq<char>,
    body: Seq<char>,
    after: Seq<char>,
)
    requires
        is_white(before),
        is_white(after),
    ensures
        sse::json_body(before + body + after) == sse::json_body(body),
{
    trim_ignores_white_space_around(before, body, after);
}

/// Extracting the JSON text from a JSON text that was extracted, with any white space around it,
/// gives the same text.
pub proof fn extraction_is_idempotent(body: Seq<char>, before: Seq<char>, after: Seq<char>)
    requires
        is_white(before),
        is_white(after),
    ensures
        sse::json_body(body) matches Ok(json) ==> sse::json_body(before + json + after) == Ok::<
            Seq<char>,
            Seq<char>,
        >(json),
{
    if let Ok(json) = sse::json_body(body) {
        json_body_is_an_object_text(body);
        trim_keeps_trimmed_text(json);
        extraction_ignores_white_space_around(before, json, after);
    }
}

proof fn lemma_piece(s: Seq<char>, i: int, j: int)
    requires
        0 <= i <= j <= s.len(),
    ensures
        text::contains(s, s.subrange(i, j)),
{
    assert(text::occurs_at(s, s.subrange(i, j), i));
}

proof fn lemma_piece_of_piece(a: Seq<char>, b: Seq<char>, c: Seq<char>)
    requires
        text::contains(a, b),
        text::contains(b, c),
    ensures
        text::contains(a, c),
{
    let i = choose|i: int| text::occurs_at(a, b, i);
    let j = choose|j: int| text::occurs_at(b, c, j);
    assert(a.subrange(i + j, i + j + c.len()) == a.subrange(i, i + b.len()).subrange(
        j,
        j + c.len(),
    ));
    assert(text::occurs_at(a, c, i + j));
}

proof fn lemma_trim_piece(s: Seq<char>)
    ensures
        text::contains(s, text::trim(s)),
{
    let t = text::trim_start(s);
    text::lemma_trim_start_len(s);
    lemma_trim_end(t);
    let from = s.len() - t.len();
    assert(text::trim(s) == s.subrange(from, from + trim_end_len(t)));
    lemma_piece(s, from, from + trim_end_len(t));
}

proof fn lemma_split_pieces(s: Seq<char>, p: Seq<char>, k: int)
    requires
        0 <= k < text::split(s, p).len(),
    ensures
        text::contains(s, text::split(s, p)[k]),
    decreases s.len(),
{
    assert(s.subrange(0, s.len() as int) == s);
    lemma_piece(s, 0, s.len() as int);
    text::lemma_split_once_len(s, p);
    if let Some((head, tail)) = text::split_once(s, p) {
        if p.len() > 0 {
            let at = head.len() + p.len();
            assert(s.subrange(0, head.len() as int) == head);
            assert(s.subrange(at as int, s.len() as int) == tail);
            lemma_piece(s, 0, head.len() as int);
            lemma_piece(s, at as int, s.len() as int);
            if k > 0 {
                lemma_split_pieces(tail, p, k - 1);
                lemma_piece_of_piece(s, tail, text::split(tail, p)[k - 1]);
            }
        }
    }
}

proof fn lemma_line_pieces(s: Seq<char>, k: int)
    requires
        0 <= k < text::lines(s).len(),
    ensures
        text::contains(s, text::lines(s)[k]),
    decreases s.len(),
{
    let feed = seq!['\n'];
    text::lemma_split_once_len(s, feed);
    match text::split_once(s, feed) {
        None => {
            assert(text::lines(s)[k] == s);
            lemma_piece(s, 0, s.len() as int);
            assert(s.subrange(0, s.len() as int) == s);
        },
        Some((head, tail)) => {
            let line = text::strip_cr(head);
            assert(text::lines(s) == seq![line] + text::lines(tail));
            if k == 0 {
                lemma_piece(s, 0, line.len() as int);
                assert(s.subrange(0, line.len() as int) == line);
            } else {
                let at = head.len() as int + 1;
                lemma_piece(s, at, s.len() as int);
                assert(s.subrange(at, s.len() as int) == tail);
                lemma_line_pieces(tail, k - 1);
                lemma_piece_of_piece(s, tail, text::lines(tail)[k - 1]);
            }
        },
    }
}

proof fn lemma_data_piece(line: Seq<char>)
    ensures
        sse::data_of(line) matches Some(data) ==> text::contains(line, data),
{
    let from = "data: "@.len() as int;
    if text::starts_with(line, "data: "@) {
        let rest = line.skip(from);
        assert(line.subrange(from, line.len() as int) == rest);
        lemma_piece(line, from, line.len() as int);
        lemma_trim_piece(rest);
        lemma_piece_of_piece(line, rest, text::trim(rest));
    }
}

proof fn lemma_first_data_line(lines: Seq<Seq<char>>) -> (k: int)
    ensures
        sse::first_data(lines) matches Some(data) ==> 0 <= k < lines.len() && sse::data_of(lines[k])
            == Some(data),
    decreases lines.len(),
{
    if lines.len() == 0 || sse::data_of(lines[0]) is Some {
        0
    } else {
        lemma_first_data_line(lines.drop_first()) + 1
    }
}

proof fn lemma_first_block(blocks: Seq<Seq<char>>) -> (k: int)
    ensures
        sse::first_block_data(blocks) matches Some(data) ==> 0 <= k < blocks.len()
            && sse::first_data(text::lines(blocks[k])) == Some(data),
    decreases blocks.len(),
{
    if blocks.len() == 0 || sse::first_data(text::lines(blocks[0])) is Some {
        0
    } else {
        lemma_first_block(blocks.drop_first()) + 1
    }
}

/// What is extracted from the body of a reply is a piece of it, without gaps.
pub proof fn extraction_takes_a_piece(body: Seq<char>)
    ensures
        sse::json_body(body) matches Ok(json) ==> text::contains(body, json),
{
    let trimmed = text::trim(body);
    lemma_trim_piece(body);
    if !text::starts_with(trimmed, seq!['{']) {
        let blocks = text::split(trimmed, seq!['\n', '\n']);
        if let Some(json) = sse::first_block_data(blocks) {
            let b = lemma_first_block(blocks);
            let lines = text::lines(blocks[b]);
            let k = lemma_first_data_line(lines);
            lemma_data_piece(lines[k]);
            lemma_line_pieces(blocks[b], k);
            lemma_piece_of_piece(blocks[b], lines[k], json);
            lemma_split_pieces(trimmed, seq!['\n', '\n'], b);
            lemma_piece_of_piece(trimmed, blocks[b], json);
            lemma_piece_of_piece(body, trimmed, json);
        }
    }
}

/// None of the lines carries a JSON object.
pub open spec fn carry_nothing(lines: Seq<Seq<char>>) -> bool {
    forall|i: int| 0 <= i < lines.len() ==> sse::data_of(#[trigger] lines[i]) is None
}

proof fn lemma_carry_nothing(lines: Seq<Seq<char>>)
    ensures
        carry_nothing(lines) <==> sse::first_data(lines) is None,
    decreases lines.len(),
{
    if lines.len() > 0 {
        let rest = lines.drop_first();
        lemma_carry_nothing(rest);
        if sse::first_data(lines) is None {
            assert forall|i: int| 0 <= i < lines.len() implies sse::data_of(
                #[trigger] lines[i],
            ) is None by {
                if i > 0 {
                    assert(lines[i] == rest[i - 1]);
                }
            }
        }
        if carry_nothing(lines) {
            assert(sse::data_of(lines[0]) is None);
            assert forall|i: int| 0 <= i < rest.len() implies sse::data_of(
                #[trigger] rest[i],
            ) is None by {
                assert(rest[i] == lines[i + 1]);
            }
        }
    }
}

/// The first of two that there is.
pub open spec fn either(a: Option<Seq<char>>, b: Option<Seq<char>>) -> Option<Seq<char>> {
    match a {
        Some(a) => Some(a),
        None => b,
    }
}

proof fn lemma_first_data_after(line: Seq<char>, rest: Seq<Seq<char>>)
    ensures
        sse::first_data(seq![line] + rest) == either(sse::data_of(line), sse::first_data(rest)),
{
    let all = seq![line] + rest;
    assert(all[0] == line);
    assert(all.drop_first() == rest);
}

/// What the only line of a text carries.
pub proof fn lemma_one_line(line: Seq<char>)
    requires
        lacks(line, '\n'),
    ensures
        sse::first_data(text::lines(line)) == sse::data_of(line),
{
    let none = Seq::<Seq<char>>::empty();
    if line.len() == 0 {
        reveal_strlit("data: ");
    } else {
        lemma_no_split(line, '\n');
        assert(text::lines(line) == seq![line] + none);
        lemma_first_data_after(line, none);
    }
}

/// A carriage return at the end of a line makes no difference to what it carries.
proof fn lemma_data_cr(line: Seq<char>)
    ensures
        sse::data_of(text::strip_cr(line)) == sse::data_of(line),
{
    reveal_strlit("data: ");
    let prefix = "data: "@;
    if line.len() > 0 && line.last() == '\r' {
        let short = line.drop_last();
        if text::starts_with(line, prefix) {
            assert(line.subrange(0, 6)[5] == ' ');
            assert(line.len() > 6);
            assert(short.subrange(0, 6) == line.subrange(0, 6));
            let none = Seq::<char>::empty();
            assert(line.skip(6) == none + short.skip(6) + seq!['\r']);
            trim_ignores_white_space_around(none, short.skip(6), seq!['\r']);
        } else if text::starts_with(short, prefix) {
            assert(short.subrange(0, 6) == line.subrange(0, 6));
        }
    }
}

/// What the lines of a text carry first is what those before a line feed do, or else those behind
/// it.
pub proof fn lemma_lines_join(a: Seq<char>, b: Seq<char>)
    ensures
        sse::first_data(text::lines(a + seq!['\n'] + b)) == either(
            sse::first_data(text::lines(a)),
            sse::first_data(text::lines(b)),
        ),
    decreases a.len(),
{
    let feed = seq!['\n'];
    let s = a + feed + b;
    text::lemma_split_once_len(a, feed);
    if let Some((head, tail)) = text::split_once(a, feed) {
        lemma_split_append(a, feed, feed + b);
        assert(a + (feed + b) == s);
        assert(tail + (feed + b) == tail + feed + b);
        lemma_lines_join(tail, b);
        let line = text::strip_cr(head);
        assert(text::lines(s) == seq![line] + text::lines(tail + feed + b));
        assert(text::lines(a) == seq![line] + text::lines(tail));
        lemma_first_data_after(line, text::lines(tail + feed + b));
        lemma_first_data_after(line, text::lines(tail));
    } else {
        lemma_split_where_it_stands(a, '\n');
        lemma_split_concat(a, feed, b);
        let line = text::strip_cr(a);
        assert(text::lines(s) == seq![line] + text::lines(b));
        lemma_first_data_after(line, text::lines(b));
        lemma_data_cr(a);
        lemma_one_line(a);
    }
}

/// A text that is not split at a character does not hold it.
pub proof fn lemma_split_where_it_stands(s: Seq<char>, c: char)
    ensures
        text::split_once(s, seq![c]) is None ==> lacks(s, c),
    decreases s.len(),
{
    if s.len() > 0 {
        let t = s.drop_last();
        lemma_split_where_it_stands(t, c);
        lemma_split_append(t, seq![c], seq![s.last()]);
        assert(t + seq![s.last()] == s);
        if text::split_once(t, seq![c]) is None && s.last() == c {
            assert(t + seq![c] + Seq::<char>::empty() == s);
            lemma_split_concat(t, seq![c], Seq::empty());
        }
    }
}

/// What the blocks of a text carry first is what its lines do.
pub proof fn lemma_blocks_data(s: Seq<char>)
    ensures
        sse::first_block_data(text::split(s, seq!['\n', '\n'])) == sse::first_data(text::lines(s)),
    decreases s.len(),
{
    let blank = seq!['\n', '\n'];
    let blocks = text::split(s, blank);
    text::lemma_split_once_len(s, blank);
    reveal_with_fuel(sse::first_block_data, 2);
    if let Some((head, tail)) = text::split_once(s, blank) {
        let feed = seq!['\n'];
        lemma_blocks_data(tail);
        assert(blocks[0] == head);
        assert(blocks.drop_first() == text::split(tail, blank));
        let none = Seq::<char>::empty();
        assert(none + feed + tail == feed + tail);
        lemma_lines_join(none, tail);
        assert(s == head + feed + (feed + tail));
        lemma_lines_join(head, feed + tail);
    } else {
        assert(blocks[0] == s);
        assert(blocks.drop_first() == Seq::<Seq<char>>::empty());
    }
}

/// Extraction fails exactly where the trimmed body does not begin with a brace and none of its
/// lines carries a JSON object.
pub proof fn extraction_fails_where_nothing_is_carried(body: Seq<char>)
    ensures
        sse::json_body(body) is Err <==> !text::starts_with(text::trim(body), seq!['{'])
            && carry_nothing(text::lines(text::trim(body))),
{
    lemma_blocks_data(text::trim(body));
    lemma_carry_nothing(text::lines(text::trim(body)));
}

} // verus!
