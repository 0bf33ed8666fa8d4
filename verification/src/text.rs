//! Text as a sequence of characters: white space, trimming, searching, splitting and lines.

use vstd::prelude::*;

verus! {

/// The characters with the Unicode property `White_Space`.
pub open spec fn is_white_space(c: char) -> bool {
    ||| '\t' <= c <= '\r'
    ||| c == ' '
    ||| c == '\u{85}'
    ||| c == '\u{a0}'
    ||| c == '\u{1680}'
    ||| '\u{2000}' <= c <= '\u{200a}'
    ||| c == '\u{2028}'
    ||| c == '\u{2029}'
    ||| c == '\u{202f}'
    ||| c == '\u{205f}'
    ||| c == '\u{3000}'
}

/// Tells whether `c` is white space.
pub fn is_blank(c: char) -> (r: bool)
    ensures
        r == is_white_space(c),
{
    ('\t' <= c && c <= '\r') || c == ' ' || c == '\u{85}' || c == '\u{a0}' || c == '\u{1680}' || (
    '\u{2000}' <= c && c <= '\u{200a}') || c == '\u{2028}' || c == '\u{2029}' || c == '\u{202f}'
        || c == '\u{205f}' || c == '\u{3000}'
}

/// `s` without its leading white space.
pub open spec fn trim_start(s: Seq<char>) -> Seq<char>
    decreases s.len(),
{
    if s.len() > 0 && is_white_space(s[0]) {
        trim_start(s.drop_first())
    } else {
        s
    }
}

/// `s` without its trailing white space.
pub open spec fn trim_end(s: Seq<char>) -> Seq<char>
    decreases s.len(),
{
    if s.len() > 0 && is_white_space(s.last()) {
        trim_end(s.drop_last())
    } else {
        s
    }
}

/// `s` without its leading and trailing white space.
pub open spec fn trim(s: Seq<char>) -> Seq<char> {
    trim_end(trim_start(s))
}

/// `p` stands in `s` from position `i` on.
pub open spec fn occurs_at(s: Seq<char>, p: Seq<char>, i: int) -> bool {
    0 <= i && i + p.len() <= s.len() && s.subrange(i, i + p.len()) == p
}

/// `p` stands somewhere in `s`.
pub open spec fn contains(s: Seq<char>, p: Seq<char>) -> bool {
    exists|i: int| occurs_at(s, p, i)
}

/// `p` is what `s` begins with.
pub open spec fn starts_with(s: Seq<char>, p: Seq<char>) -> bool {
    occurs_at(s, p, 0)
}

/// `i` is the first position at which `p` stands in `s`.
pub open spec fn first_at(s: Seq<char>, p: Seq<char>, i: int) -> bool {
    occurs_at(s, p, i) && forall|j: int| j < i ==> !occurs_at(s, p, j)
}

/// `i` is the last position at which `p` stands in `s`.
pub open spec fn last_at(s: Seq<char>, p: Seq<char>, i: int) -> bool {
    occurs_at(s, p, i) && forall|j: int| j > i ==> !occurs_at(s, p, j)
}

/// What stands before and after the first `p` in `s`; `None` where `s` does not contain `p`.
pub open spec fn split_once(s: Seq<char>, p: Seq<char>) -> Option<(Seq<char>, Seq<char>)> {
    if exists|i: int| first_at(s, p, i) {
        let i = choose|i: int| first_at(s, p, i);
        Some((s.take(i), s.skip(i + p.len())))
    } else {
        None
    }
}

/// What stands before and after the last `p` in `s`; `None` where `s` does not contain `p`.
pub open spec fn rsplit_once(s: Seq<char>, p: Seq<char>) -> Option<(Seq<char>, Seq<char>)> {
    if exists|i: int| last_at(s, p, i) {
        let i = choose|i: int| last_at(s, p, i);
        Some((s.take(i), s.skip(i + p.len())))
    } else {
        None
    }
}

/// A split at a known first position.
pub proof fn lemma_split_once_at(s: Seq<char>, p: Seq<char>, i: int)
    requires
        first_at(s, p, i),
    ensures
        split_once(s, p) == Some((s.take(i), s.skip(i + p.len()))),
{
    let k = choose|k: int| first_at(s, p, k);
    assert(first_at(s, p, k));
    assert(k == i) by {
        if k < i {
            assert(!occurs_at(s, p, k));
        }
        if i < k {
            assert(!occurs_at(s, p, i));
        }
    }
}

/// A split at a known last position.
pub proof fn lemma_rsplit_once_at(s: Seq<char>, p: Seq<char>, i: int)
    requires
        last_at(s, p, i),
    ensures
        rsplit_once(s, p) == Some((s.take(i), s.skip(i + p.len()))),
{
    let k = choose|k: int| last_at(s, p, k);
    assert(last_at(s, p, k));
    assert(k == i) by {
        if k < i {
            assert(!occurs_at(s, p, i));
        }
        if i < k {
            assert(!occurs_at(s, p, k));
        }
    }
}

/// What a split leaves, put together around the separator, is the text.
pub proof fn lemma_split_once_len(s: Seq<char>, p: Seq<char>)
    ensures
        split_once(s, p) matches Some((head, tail)) ==> s == head + p + tail,
{
    if exists|i: int| first_at(s, p, i) {
        let i = choose|i: int| first_at(s, p, i);
        assert(occurs_at(s, p, i));
        assert(s == s.take(i) + s.subrange(i, i + p.len()) + s.skip(i + p.len()));
    }
}

/// `line` without one trailing carriage return.
pub open spec fn strip_cr(line: Seq<char>) -> Seq<char> {
    if line.len() > 0 && line.last() == '\r' {
        line.drop_last()
    } else {
        line
    }
}

/// The lines of `s`. A line ends at a line feed, which may follow a carriage return; the last
/// line may do without.
pub open spec fn lines(s: Seq<char>) -> Seq<Seq<char>>
    decreases s.len(),
{
    if s.len() == 0 {
        seq![]
    } else {
        match split_once(s, seq!['\n']) {
            None => seq![s],
            Some((head, tail)) => {
                proof {
                    lemma_split_once_len(s, seq!['\n']);
                }
                seq![strip_cr(head)] + lines(tail)
            },
        }
    }
}

/// The pieces of `s` between the occurrences of `p`.
pub open spec fn split(s: Seq<char>, p: Seq<char>) -> Seq<Seq<char>>
    decreases s.len(),
{
    match split_once(s, p) {
        None => seq![s],
        Some((head, tail)) => if p.len() == 0 {
            seq![s]
        } else {
            proof {
                lemma_split_once_len(s, p);
            }
            seq![head] + split(tail, p)
        },
    }
}

/// How many characters other than white space `s` begins with.
pub open spec fn word_len(s: Seq<char>) -> nat
    decreases s.len(),
{
    if s.len() > 0 && !is_white_space(s[0]) {
        1 + word_len(s.drop_first())
    } else {
        0
    }
}

/// Trimming at the start leaves the end of the text, from a character other than white space on.
pub proof fn lemma_trim_start_len(s: Seq<char>)
    ensures
        trim_start(s).len() <= s.len(),
        trim_start(s) == s.skip(s.len() - trim_start(s).len()),
        trim_start(s).len() > 0 ==> !is_white_space(trim_start(s)[0]),
    decreases s.len(),
{
    if s.len() > 0 && is_white_space(s[0]) {
        lemma_trim_start_len(s.drop_first());
    }
}

/// A word is no longer than the text.
pub proof fn lemma_word_len(s: Seq<char>)
    ensures
        word_len(s) <= s.len(),
    decreases s.len(),
{
    if s.len() > 0 && !is_white_space(s[0]) {
        lemma_word_len(s.drop_first());
    }
}

/// The words of `s`: its longest stretches without white space.
pub open spec fn words(s: Seq<char>) -> Seq<Seq<char>>
    decreases s.len(),
{
    let t = trim_start(s);
    if t.len() == 0 {
        seq![]
    } else {
        proof {
            lemma_trim_start_len(s);
            lemma_word_len(t);
        }
        seq![t.take(word_len(t) as int)] + words(t.skip(word_len(t) as int))
    }
}

/// The lower-case form of an ASCII letter; every other character as it is.
pub open spec fn ascii_lower(c: char) -> char {
    if 'A' <= c <= 'Z' {
        (c as u32 + 32) as char
    } else {
        c
    }
}

/// `a` and `b` are the same but for the case of their ASCII letters.
pub open spec fn same_ignoring_case(a: Seq<char>, b: Seq<char>) -> bool {
    a.len() == b.len() && forall|i: int|
        0 <= i < a.len() ==> ascii_lower(#[trigger] a[i]) == ascii_lower(b[i])
}

/// `String::push` appends one character.
pub assume_specification[ String::push ](s: &mut String, c: char)
    ensures
        final(s)@ == old(s)@.push(c),
;

/// The characters of `s`.
pub fn to_chars(s: &str) -> (r: Vec<char>)
    ensures
        r@ == s@,
{
    let mut r: Vec<char> = Vec::new();
    for c in it: s.chars()
        invariant
            it.seq() == s@,
            r@ == s@.take(it.index() as int),
    {
        r.push(c);
    }
    proof {
        assert(s@.take(s@.len() as int) == s@);
    }
    r
}

/// The text that consists of the characters `s`.
pub fn to_text(s: &[char]) -> (r: String)
    ensures
        r@ == s@,
{
    let mut r = String::new();
    let mut i: usize = 0;
    while i < s.len()
        invariant
            i <= s@.len(),
            r@ == s@.take(i as int),
        decreases s@.len() - i,
    {
        r.push(s[i]);
        i += 1;
        assert(s@.take(i as int) == s@.take(i - 1).push(s@[i - 1]));
    }
    assert(s@.take(s@.len() as int) == s@);
    r
}

/// The part of `s` from `from` up to `to`.
pub fn cut<'a>(s: &'a [char], from: usize, to: usize) -> (r: &'a [char])
    requires
        from <= to <= s@.len(),
    ensures
        r@ == s@.subrange(from as int, to as int),
{
    vstd::slice::slice_subrange(s, from, to)
}

/// `s` without its leading and trailing white space.
pub fn trimmed<'a>(s: &'a [char]) -> (r: &'a [char])
    ensures
        r@ == trim(s@),
{
    let mut from: usize = 0;
    assert(s@.subrange(0, s@.len() as int) == s@);
    while from < s.len() && is_blank(s[from])
        invariant
            from <= s@.len(),
            trim_start(s@.subrange(from as int, s@.len() as int)) == trim_start(s@),
        decreases s@.len() - from,
    {
        assert(s@.subrange(from as int, s@.len() as int).drop_first() == s@.subrange(
            from + 1,
            s@.len() as int,
        ));
        from += 1;
    }
    let mut to: usize = s.len();
    while from < to && is_blank(s[to - 1])
        invariant
            from <= to <= s@.len(),
            trim_end(s@.subrange(from as int, to as int)) == trim(s@),
        decreases to,
    {
        assert(s@.subrange(from as int, to as int).drop_last() == s@.subrange(
            from as int,
            to - 1,
        ));
        to -= 1;
    }
    cut(s, from, to)
}

/// Tells whether `p` stands in `s` from position `i` on.
pub fn matches_at(s: &[char], p: &[char], i: usize) -> (r: bool)
    ensures
        r == occurs_at(s@, p@, i as int),
{
    if s.len() < p.len() || s.len() - p.len() < i {
        return false;
    }
    let mut k: usize = 0;
    while k < p.len()
        invariant
            k <= p@.len(),
            i + p@.len() <= s@.len() <= usize::MAX,
            forall|j: int| 0 <= j < k ==> s@[i + j] == p@[j],
        decreases p@.len() - k,
    {
        if s[i + k] != p[k] {
            assert(s@.subrange(i as int, i + p@.len())[k as int] != p@[k as int]);
            return false;
        }
        k += 1;
    }
    assert(s@.subrange(i as int, i + p@.len()) == p@);
    true
}

/// The first position at which `p` stands in `s`.
pub fn find_first(s: &[char], p: &[char]) -> (r: Option<usize>)
    ensures
        match r {
            Some(i) => first_at(s@, p@, i as int),
            None => !contains(s@, p@),
        },
{
    if s.len() < p.len() {
        return None;
    }
    let last: usize = s.len() - p.len();
    let mut i: usize = 0;
    loop
        invariant
            i <= last,
            last + p@.len() == s@.len(),
            forall|j: int| j < i ==> !occurs_at(s@, p@, j),
        decreases last - i,
    {
        if matches_at(s, p, i) {
            return Some(i);
        }
        if i == last {
            return None;
        }
        i += 1;
    }
}

/// The last position at which `p` stands in `s`.
pub fn find_last(s: &[char], p: &[char]) -> (r: Option<usize>)
    ensures
        match r {
            Some(i) => last_at(s@, p@, i as int),
            None => !contains(s@, p@),
        },
{
    if s.len() < p.len() {
        return None;
    }
    let mut i: usize = s.len() - p.len();
    loop
        invariant
            i + p@.len() <= s@.len(),
            forall|j: int| j > i ==> !occurs_at(s@, p@, j),
        decreases i,
    {
        if matches_at(s, p, i) {
            return Some(i);
        }
        if i == 0 {
            return None;
        }
        i -= 1;
    }
}

/// Tells whether `p` stands somewhere in `s`.
pub fn has_text(s: &str, p: &str) -> (r: bool)
    ensures
        r == contains(s@, p@),
{
    let s = to_chars(s);
    let p = to_chars(p);
    find_first(s.as_slice(), p.as_slice()).is_some()
}

/// What stands before and after the first `p` in `s`.
pub fn split_first<'a>(s: &'a [char], p: &[char]) -> (r: Option<(&'a [char], &'a [char])>)
    ensures
        match r {
            Some((head, tail)) => split_once(s@, p@) == Some((head@, tail@)),
            None => split_once(s@, p@) is None,
        },
{
    let len: usize = s.len();
    match find_first(s, p) {
        Some(i) => {
            proof {
                lemma_split_once_at(s@, p@, i as int);
                assert(s@.take(i as int) == s@.subrange(0, i as int));
            }
            Some((cut(s, 0, i), cut(s, i + p.len(), len)))
        },
        None => None,
    }
}

/// What stands before and after the last `p` in `s`.
pub fn split_last<'a>(s: &'a [char], p: &[char]) -> (r: Option<(&'a [char], &'a [char])>)
    ensures
        match r {
            Some((head, tail)) => rsplit_once(s@, p@) == Some((head@, tail@)),
            None => rsplit_once(s@, p@) is None,
        },
{
    let len: usize = s.len();
    match find_last(s, p) {
        Some(i) => {
            proof {
                lemma_rsplit_once_at(s@, p@, i as int);
                assert(s@.take(i as int) == s@.subrange(0, i as int));
            }
            Some((cut(s, 0, i), cut(s, i + p.len(), len)))
        },
        None => None,
    }
}

/// The texts that `pieces` holds.
pub open spec fn texts(pieces: Seq<&[char]>) -> Seq<Seq<char>> {
    pieces.map_values(|piece: &[char]| piece@)
}

/// The texts that `strings` holds.
pub open spec fn string_texts(strings: Seq<String>) -> Seq<Seq<char>> {
    strings.map_values(|string: String| string@)
}

/// The text that `string` holds, if there is one.
pub open spec fn optional_text(string: Option<String>) -> Option<Seq<char>> {
    match string {
        Some(string) => Some(string@),
        None => None,
    }
}

/// The lines of `s`.
pub fn all_lines<'a>(s: &'a [char]) -> (r: Vec<&'a [char]>)
    ensures
        texts(r@) == lines(s@),
{
    let mut r: Vec<&'a [char]> = Vec::new();
    let mut rest: &'a [char] = s;
    let newline: [char; 1] = ['\n'];
    assert(newline@ == seq!['\n']);
    assert(texts(r@) + lines(s@) == lines(s@));
    while rest.len() > 0
        invariant
            newline@ == seq!['\n'],
            lines(s@) == texts(r@) + lines(rest@),
        decreases rest@.len(),
    {
        let ghost before = texts(r@);
        let ghost was = rest@;
        proof {
            lemma_split_once_len(was, seq!['\n']);
        }
        match split_first(rest, newline.as_slice()) {
            Some((head, tail)) => {
                let line = if head.len() > 0 && head[head.len() - 1] == '\r' {
                    cut(head, 0, head.len() - 1)
                } else {
                    head
                };
                proof {
                    assert(head@.drop_last() == head@.subrange(0, head@.len() - 1));
                    assert(lines(was) == seq![line@] + lines(tail@));
                }
                r.push(line);
                rest = tail;
                proof {
                    assert(texts(r@) == before.push(line@));
                    assert(before + (seq![line@] + lines(tail@)) == before.push(line@) + lines(
                        tail@,
                    ));
                }
            },
            None => {
                assert(lines(was) == seq![was]);
                r.push(rest);
                assert(texts(r@) == before + seq![was]);
                return r;
            },
        }
    }
    assert(texts(r@) + lines(rest@) == texts(r@));
    r
}

/// The pieces of `s` between the occurrences of `p`.
pub fn all_pieces<'a>(s: &'a [char], p: &[char]) -> (r: Vec<&'a [char]>)
    requires
        p@.len() > 0,
    ensures
        texts(r@) == split(s@, p@),
{
    let mut r: Vec<&'a [char]> = Vec::new();
    let mut rest: &'a [char] = s;
    assert(texts(r@) + split(s@, p@) == split(s@, p@));
    loop
        invariant
            p@.len() > 0,
            split(s@, p@) == texts(r@) + split(rest@, p@),
        decreases rest@.len(),
    {
        let ghost before = texts(r@);
        let ghost was = rest@;
        proof {
            lemma_split_once_len(was, p@);
        }
        match split_first(rest, p) {
            Some((head, tail)) => {
                assert(split(was, p@) == seq![head@] + split(tail@, p@));
                r.push(head);
                rest = tail;
                proof {
                    assert(texts(r@) == before.push(head@));
                    assert(before + (seq![head@] + split(tail@, p@)) == before.push(head@) + split(
                        tail@,
                        p@,
                    ));
                }
            },
            None => {
                r.push(rest);
                assert(texts(r@) == before + seq![was]);
                return r;
            },
        }
    }
}

/// The first word of `s` and what stands behind it.
pub fn next_word<'a>(s: &'a [char]) -> (r: Option<(&'a [char], &'a [char])>)
    ensures
        match r {
            Some((word, rest)) => words(s@) == seq![word@] + words(rest@),
            None => words(s@) == Seq::<Seq<char>>::empty(),
        },
{
    let mut from: usize = 0;
    assert(s@.subrange(0, s@.len() as int) == s@);
    while from < s.len() && is_blank(s[from])
        invariant
            from <= s@.len(),
            trim_start(s@.subrange(from as int, s@.len() as int)) == trim_start(s@),
        decreases s@.len() - from,
    {
        assert(s@.subrange(from as int, s@.len() as int).drop_first() == s@.subrange(
            from + 1,
            s@.len() as int,
        ));
        from += 1;
    }
    let ghost t = s@.subrange(from as int, s@.len() as int);
    assert(trim_start(s@) == t);
    if from == s.len() {
        return None;
    }
    let mut to: usize = from;
    while to < s.len() && !is_blank(s[to])
        invariant
            from <= to <= s@.len(),
            t == s@.subrange(from as int, s@.len() as int),
            word_len(t) == (to - from) + word_len(s@.subrange(to as int, s@.len() as int)),
        decreases s@.len() - to,
    {
        assert(s@.subrange(to as int, s@.len() as int).drop_first() == s@.subrange(
            to + 1,
            s@.len() as int,
        ));
        to += 1;
    }
    assert(word_len(t) == to - from);
    assert(t.take(to - from) == s@.subrange(from as int, to as int));
    assert(t.skip(to - from) == s@.subrange(to as int, s@.len() as int));
    Some((cut(s, from, to), cut(s, to, s.len())))
}

/// Tells whether `a` and `b` are the same but for the case of their ASCII letters.
pub fn equal_ignoring_case(a: &str, b: &str) -> (r: bool)
    ensures
        r == same_ignoring_case(a@, b@),
{
    let xs = to_chars(a);
    let ys = to_chars(b);
    if xs.len() != ys.len() {
        return false;
    }
    let mut i: usize = 0;
    while i < xs.len()
        invariant
            i <= xs@.len(),
            xs@ == a@,
            ys@ == b@,
            xs@.len() == ys@.len(),
            forall|j: int| 0 <= j < i ==> ascii_lower(#[trigger] xs@[j]) == ascii_lower(ys@[j]),
        decreases xs@.len() - i,
    {
        if lower(xs[i]) != lower(ys[i]) {
            assert(ascii_lower(xs@[i as int]) != ascii_lower(ys@[i as int]));
            return false;
        }
        i += 1;
    }
    true
}

/// The lower-case form of an ASCII letter.
fn lower(c: char) -> (r: char)
    ensures
        r == ascii_lower(c),
{
    if 'A' <= c && c <= 'Z' {
        ((c as u8) + 32) as char
    } else {
        c
    }
}

} // verus!
