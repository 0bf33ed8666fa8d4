//! The words in which laws speak of text.

use crate::text;
use vstd::prelude::*;

verus! {

/// `p` stands somewhere in `s`.
pub open spec fn holds(s: Seq<char>, p: Seq<char>) -> bool {
    exists|i: int| 0 <= i <= s.len() - p.len() && #[trigger] s.subrange(i, i + p.len()) == p
}

/// `s` begins with `p`.
pub open spec fn begins(s: Seq<char>, p: Seq<char>) -> bool {
    p.len() <= s.len() && s.take(p.len() as int) == p
}

/// The same letter, but perhaps for its case, or the same character.
pub open spec fn same_letter(a: char, b: char) -> bool {
    ||| a == b
    ||| 'A' <= a <= 'Z' && b as int == a as int + 32
    ||| 'A' <= b <= 'Z' && a as int == b as int + 32
}

/// The same word, but perhaps for the case of its letters.
pub open spec fn same_word(a: Seq<char>, b: Seq<char>) -> bool {
    a.len() == b.len() && forall|i: int| 0 <= i < a.len() ==> same_letter(#[trigger] a[i], b[i])
}

/// Searching a text finds what stands in it, and nothing else.
pub proof fn search_finds_what_stands_there(s: Seq<char>, p: Seq<char>)
    ensures
        text::contains(s, p) <==> holds(s, p),
{
    if text::contains(s, p) {
        let i = choose|i: int| text::occurs_at(s, p, i);
        assert(s.subrange(i, i + p.len()) == p);
    }
    if holds(s, p) {
        let i = choose|i: int|
            0 <= i <= s.len() - p.len() && #[trigger] s.subrange(i, i + p.len()) == p;
        assert(text::occurs_at(s, p, i));
    }
}

/// A text is found to begin with what it begins with, and with nothing else.
pub proof fn beginnings_are_found(s: Seq<char>, p: Seq<char>)
    ensures
        text::starts_with(s, p) <==> begins(s, p),
{
    if p.len() <= s.len() {
        assert(s.subrange(0, p.len() as int) == s.take(p.len() as int));
    }
}

/// Words are compared letter by letter, whatever the case.
pub proof fn case_is_ignored(a: Seq<char>, b: Seq<char>)
    ensures
        text::same_ignoring_case(a, b) <==> same_word(a, b),
{
    if text::same_ignoring_case(a, b) {
        assert forall|i: int| 0 <= i < a.len() implies same_letter(#[trigger] a[i], b[i]) by {
            assert(text::ascii_lower(a[i]) == text::ascii_lower(b[i]));
        }
    }
    if same_word(a, b) {
        assert forall|i: int| 0 <= i < a.len() implies text::ascii_lower(#[trigger] a[i])
            == text::ascii_lower(b[i]) by {
            assert(same_letter(a[i], b[i]));
        }
    }
}

} // verus!
