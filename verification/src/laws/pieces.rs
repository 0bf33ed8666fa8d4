//! How texts are taken apart.

use crate::laws::http as http_laws;
use crate::laws::text as text_laws;
use crate::laws::words;
use crate::text;
use crate::utf8;
use vstd::prelude::*;

verus! {

/// `p` stands in `s` at `i`.
pub open spec fn stands_at(s: Seq<char>, p: Seq<char>, i: int) -> bool {
    0 <= i <= s.len() - p.len() && s.subrange(i, i + p.len()) == p
}

/// `p` does not stand in `s` anywhere before `n`.
pub open spec fn absent_before(s: Seq<char>, p: Seq<char>, n: int) -> bool {
    forall|i: int| i < n ==> !#[trigger] stands_at(s, p, i)
}

/// A text is split at the first separator that stands in it, and only if one does.
pub proof fn a_text_is_split_at_the_first(s: Seq<char>, p: Seq<char>)
    ensures
        text::split_once(s, p) is Some <==> words::holds(s, p),
        text::split_once(s, p) matches Some((head, tail)) ==> s == head + p + tail && forall|i: int|
            i < head.len() ==> !#[trigger] stands_at(s, p, i),
{
    words::search_finds_what_stands_there(s, p);
    if text::contains(s, p) {
        let i = choose|i: int| text::occurs_at(s, p, i);
        lemma_first(s, p, i);
    }
    text::lemma_split_once_len(s, p);
    if text::split_once(s, p) is Some {
        let k = choose|k: int| text::first_at(s, p, k);
        assert(text::first_at(s, p, k));
        assert(text::occurs_at(s, p, k));
        assert forall|i: int| i < k implies !#[trigger] stands_at(s, p, i) by {
            assert(!text::occurs_at(s, p, i));
        }
    }
}

proof fn lemma_first(s: Seq<char>, p: Seq<char>, i: int)
    requires
        text::occurs_at(s, p, i),
    ensures
        exists|k: int| text::first_at(s, p, k),
    decreases i,
{
    if exists|j: int| j < i && text::occurs_at(s, p, j) {
        let j = choose|j: int| j < i && text::occurs_at(s, p, j);
        lemma_first(s, p, j);
    } else {
        assert(text::first_at(s, p, i));
    }
}

proof fn lemma_last(s: Seq<char>, p: Seq<char>, i: int)
    requires
        text::occurs_at(s, p, i),
    ensures
        exists|k: int| text::last_at(s, p, k),
    decreases s.len() - i,
{
    if exists|j: int| j > i && text::occurs_at(s, p, j) {
        let j = choose|j: int| j > i && text::occurs_at(s, p, j);
        lemma_last(s, p, j);
    } else {
        assert(text::last_at(s, p, i));
    }
}

/// A text is split from the right at the last separator that stands in it, and only if one does.
pub proof fn a_text_is_split_at_the_last(s: Seq<char>, p: Seq<char>)
    ensures
        text::rsplit_once(s, p) is Some <==> words::holds(s, p),
        text::rsplit_once(s, p) matches Some((head, tail)) ==> s == head + p + tail && forall|
            i: int,
        |
            i > head.len() ==> !#[trigger] stands_at(s, p, i),
{
    words::search_finds_what_stands_there(s, p);
    if text::contains(s, p) {
        let i = choose|i: int| text::occurs_at(s, p, i);
        lemma_last(s, p, i);
    }
    if text::rsplit_once(s, p) is Some {
        let k = choose|k: int| text::last_at(s, p, k);
        assert(text::last_at(s, p, k));
        assert(text::occurs_at(s, p, k));
        assert(s == s.take(k) + s.subrange(k, k + p.len()) + s.skip(k + p.len()));
        assert forall|i: int| i > k implies !#[trigger] stands_at(s, p, i) by {
            assert(!text::occurs_at(s, p, i));
        }
    }
}

/// The pieces of a text are what stands before the first separator, and the pieces of the rest; a
/// text without the separator is one piece.
pub proof fn a_text_falls_into_pieces(s: Seq<char>, p: Seq<char>)
    requires
        p.len() > 0,
    ensures
        !words::holds(s, p) ==> text::split(s, p) == seq![s],
        forall|head: Seq<char>, tail: Seq<char>|
            s == #[trigger] (head + p + tail) && (forall|i: int|
                i < head.len() ==> !#[trigger] stands_at(s, p, i)) ==> text::split(s, p) == seq![
                head,
            ] + text::split(tail, p),
{
    a_text_is_split_at_the_first(s, p);
    assert forall|head: Seq<char>, tail: Seq<char>|
        s == #[trigger] (head + p + tail) && (forall|i: int|
            i < head.len() ==> !#[trigger] stands_at(s, p, i)) implies text::split(s, p) == seq![
        head,
    ] + text::split(tail, p) by {
        assert(absent_before(head + p + tail, p, head.len() as int));
        lemma_split_here(head, p, tail);
    }
}

/// A line ends at a line feed, which may follow a carriage return; what follows the last is a line
/// of its own unless it is empty.
pub proof fn a_text_falls_into_lines(line: Seq<char>, rest: Seq<char>)
    requires
        text_laws::lacks(line, '\n'),
        line.len() > 0 ==> line.last() != '\r',
    ensures
        text::lines(line + seq!['\n'] + rest) == seq![line] + text::lines(rest),
        text::lines(line + seq!['\r', '\n'] + rest) == seq![line] + text::lines(rest),
        text::lines(line) == if line.len() == 0 {
            Seq::<Seq<char>>::empty()
        } else {
            seq![line]
        },
{
    let feed = seq!['\n'];
    text_laws::lemma_no_split(line, '\n');
    text_laws::lemma_split_concat(line, feed, rest);
    let returned = line + seq!['\r'];
    assert(line + seq!['\r', '\n'] + rest == returned + feed + rest);
    text_laws::lemma_split_concat(returned, feed, rest);
    assert(text::strip_cr(returned) == line);
}

/// A word is a stretch without white space; white space before and between words is passed over.
pub proof fn a_text_falls_into_words(gap: Seq<char>, word: Seq<char>, rest: Seq<char>)
    requires
        text_laws::is_white(gap),
        http_laws::is_version(word),
        rest.len() > 0 ==> text::is_white_space(rest[0]),
    ensures
        text::words(gap + word + rest) == seq![word] + text::words(rest),
        text::words(gap) == Seq::<Seq<char>>::empty(),
{
    let none = Seq::<char>::empty();
    assert(gap + word + rest == gap + (word + rest));
    text_laws::lemma_trim_start_before(gap, word + rest);
    http_laws::lemma_word(word, rest);
    assert(text::words(gap + (word + rest)) == text::words(word + rest));
    text_laws::lemma_trim_start_before(gap, none);
    assert(gap + none == gap);
}

/// Trimming takes away the white space at both ends, and nothing else.
pub proof fn trimming_takes_the_ends(before: Seq<char>, s: Seq<char>, after: Seq<char>)
    requires
        text_laws::is_white(before),
        text_laws::is_trimmed(s),
        text_laws::is_white(after),
    ensures
        text::trim(before + s + after) == s,
{
    text_laws::trim_ignores_white_space_around(before, s, after);
    text_laws::trim_keeps_trimmed_text(s);
}

/// An offset in bytes lies between two characters exactly if those before it take so many bytes.
pub proof fn offsets_are_counted_in_bytes(a: Seq<char>, b: Seq<char>, n: int)
    ensures
        utf8::byte_len(a) == vstd::utf8::encode_utf8(a).len(),
        utf8::char_index(a + b, vstd::utf8::encode_utf8(a).len() as int) == Some(a.len() as int),
        utf8::char_index(a, n) matches Some(i) ==> 0 <= i <= a.len() && vstd::utf8::encode_utf8(
            a.take(i),
        ).len() == n,
{
    assert((a + b).take(a.len() as int) == a);
    utf8::lemma_char_index(a + b, utf8::byte_len(a) as int, a.len() as int);
    if utf8::char_index(a, n) is Some {
        let i = choose|i: int| utf8::boundary(a, n, i);
        assert(utf8::boundary(a, n, i));
    }
}

/// A line feed ends a line just as well as a carriage return and a line feed do.
pub proof fn both_line_ends_are_alike(a: Seq<char>, b: Seq<char>)
    requires
        a.len() > 0 ==> a.last() != '\r',
    ensures
        text::lines(a + seq!['\n'] + b) == text::lines(a + seq!['\r', '\n'] + b),
    decreases a.len(),
{
    let feed = seq!['\n'];
    let both = seq!['\r', '\n'];
    assert(a + (feed + b) == a + feed + b);
    assert(a + (both + b) == a + both + b);
    if let Some((head, tail)) = text::split_once(a, feed) {
        lemma_next_line(a, feed + b);
        lemma_next_line(a, both + b);
        text::lemma_split_once_len(a, feed);
        assert(tail.len() > 0 ==> tail.last() == a.last());
        both_line_ends_are_alike(tail, b);
        assert(tail + (feed + b) == tail + feed + b);
        assert(tail + (both + b) == tail + both + b);
    } else {
        text_laws::lemma_split_where_it_stands(a, '\n');
        a_text_falls_into_lines(a, b);
    }
}

proof fn lemma_next_line(a: Seq<char>, more: Seq<char>)
    ensures
        text::split_once(a, seq!['\n']) matches Some((head, tail)) ==> text::lines(a + more)
            == seq![text::strip_cr(head)] + text::lines(tail + more) && tail.len() < a.len(),
{
    text_laws::lemma_split_append(a, seq!['\n'], more);
    text::lemma_split_once_len(a, seq!['\n']);
}

/// A text is split where a separator stands, if none stands before.
pub proof fn lemma_split_here(head: Seq<char>, p: Seq<char>, tail: Seq<char>)
    requires
        absent_before(head + p + tail, p, head.len() as int),
    ensures
        text::split_once(head + p + tail, p) == Some((head, tail)),
{
    let s = head + p + tail;
    let k = head.len() as int;
    assert(s.subrange(k, k + p.len()) == p);
    assert forall|i: int| i < k implies !text::occurs_at(s, p, i) by {
        assert(!stands_at(s, p, i));
    }
    assert(text::first_at(s, p, k));
    text::lemma_split_once_at(s, p, k);
    assert(s.take(k) == head);
    assert(s.skip(k + p.len()) == tail);
}

} // verus!
