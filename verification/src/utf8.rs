//! Byte lengths of text, and text out of bytes.

use crate::text;
use vstd::prelude::*;
use vstd::utf8;

verus! {

/// How many bytes `s` takes in UTF-8.
pub open spec fn byte_len(s: Seq<char>) -> nat {
    utf8::encode_utf8(s).len()
}

/// The first `i` characters of `s` take `n` bytes: `n` does not fall inside a character.
pub open spec fn boundary(s: Seq<char>, n: int, i: int) -> bool {
    0 <= i <= s.len() && byte_len(s.take(i)) == n
}

/// How many characters the first `n` bytes of `s` hold; `None` where `n` falls inside a character
/// or lies beyond the end.
pub open spec fn char_index(s: Seq<char>, n: int) -> Option<int> {
    if exists|i: int| boundary(s, n, i) {
        Some(choose|i: int| boundary(s, n, i))
    } else {
        None
    }
}

/// `raw` holds an empty line: two line ends, one directly behind the other.
pub open spec fn has_empty_line(raw: Seq<u8>) -> bool {
    exists|i: int|
        0 <= i && i + 4 <= raw.len() && #[trigger] raw.subrange(i, i + 4) == seq![
            13u8,
            10u8,
            13u8,
            10u8,
        ]
}

/// The text of the bytes `raw`, with what is not valid UTF-8 replaced by U+FFFD.
pub uninterp spec fn lossy_text(raw: Seq<u8>) -> Seq<char>;

/// `String::from_utf8_lossy`: the text of valid UTF-8 is what it encodes. Where `raw` is not valid,
/// the result is said to be a function of `raw`, with what is not valid replaced by U+FFFD and the
/// rest as it is, so that two line ends in a row can only come from two in a row in `raw`; which
/// stretches are replaced is not said.
#[verifier::external_body]
pub(crate) fn text_of_bytes(raw: &[u8]) -> (r: String)
    ensures
        r@ == lossy_text(raw@),
        utf8::valid_utf8(raw@) ==> r@ == utf8::decode_utf8(raw@),
        !has_empty_line(raw@) ==> !text::contains(r@, seq!['\r', '\n', '\r', '\n']),
{
    String::from_utf8_lossy(raw).into_owned()
}

/// The encoding of a text is that of its parts.
pub proof fn lemma_encode_concat(a: Seq<char>, b: Seq<char>)
    ensures
        utf8::encode_utf8(a + b) == utf8::encode_utf8(a) + utf8::encode_utf8(b),
    decreases a.len(),
{
    if a.len() == 0 {
        assert(a + b == b);
        assert(utf8::encode_utf8(a) + utf8::encode_utf8(b) == utf8::encode_utf8(b));
    } else {
        assert((a + b).drop_first() == a.drop_first() + b);
        lemma_encode_concat(a.drop_first(), b);
    }
}

/// Each further character adds its own bytes.
pub proof fn lemma_byte_len_take(s: Seq<char>, i: int)
    requires
        0 <= i < s.len(),
    ensures
        byte_len(s.take(i + 1)) == byte_len(s.take(i)) + utf8::encode_scalar(s[i] as u32).len(),
        1 <= utf8::encode_scalar(s[i] as u32).len() <= 4,
{
    let one = seq![s[i]];
    assert(s.take(i + 1) == s.take(i) + one);
    lemma_encode_concat(s.take(i), one);
    assert(one.drop_first() == Seq::<char>::empty());
    assert(utf8::encode_utf8(one) == utf8::encode_scalar(s[i] as u32) + utf8::encode_utf8(
        one.drop_first(),
    ));
    assert(utf8::encode_utf8(Seq::<char>::empty()) == Seq::<u8>::empty());
}

/// A longer stretch of characters takes more bytes.
pub proof fn lemma_byte_len_grows(s: Seq<char>, i: int, j: int)
    requires
        0 <= i < j <= s.len(),
    ensures
        byte_len(s.take(i)) + (j - i) <= byte_len(s.take(j)),
    decreases j - i,
{
    lemma_byte_len_take(s, j - 1);
    if i < j - 1 {
        lemma_byte_len_grows(s, i, j - 1);
    }
}

/// The character index at a known boundary.
pub proof fn lemma_char_index(s: Seq<char>, n: int, i: int)
    requires
        boundary(s, n, i),
    ensures
        char_index(s, n) == Some(i),
{
    let k = choose|k: int| boundary(s, n, k);
    assert(boundary(s, n, k));
    if k < i {
        lemma_byte_len_grows(s, k, i);
    }
    if i < k {
        lemma_byte_len_grows(s, i, k);
    }
}

/// How many bytes `c` takes in UTF-8.
pub fn width(c: char) -> (r: usize)
    ensures
        r == utf8::encode_scalar(c as u32).len(),
        1 <= r <= 4,
{
    let v: u32 = c as u32;
    if v <= 0x7f {
        1
    } else if v <= 0x7ff {
        2
    } else if v <= 0xffff {
        3
    } else {
        4
    }
}

/// Where a byte offset into a text lies.
#[derive(Clone, Copy, Debug, PartialEq, Eq, Structural)]
pub enum Offset {
    /// Before the character of this index.
    At(usize),
    /// Inside a character.
    Inside,
    /// Beyond the end.
    Beyond,
}

/// Finds where the byte offset `n` lies in `s`.
pub fn locate(s: &[char], n: usize) -> (r: Offset)
    ensures
        match r {
            Offset::At(i) => n <= byte_len(s@) && i <= s@.len() && char_index(s@, n as int) == Some(
                i as int,
            ),
            Offset::Inside => n <= byte_len(s@) && char_index(s@, n as int) is None,
            Offset::Beyond => n > byte_len(s@),
        },
{
    let mut i: usize = 0;
    let mut left: usize = n;
    assert(s@.take(0) == Seq::<char>::empty());
    while i < s.len() && left > 0
        invariant
            i <= s@.len(),
            left <= n,
            byte_len(s@.take(i as int)) + left == n,
        decreases s@.len() - i,
    {
        proof {
            lemma_byte_len_take(s@, i as int);
        }
        let w: usize = width(s[i]);
        if w > left {
            proof {
                if s@.len() > i + 1 {
                    lemma_byte_len_grows(s@, i + 1, s@.len() as int);
                }
                assert(s@.take(s@.len() as int) == s@);
                assert forall|k: int| !boundary(s@, n as int, k) by {
                    if 0 <= k < i {
                        lemma_byte_len_grows(s@, k, i as int);
                    }
                    if i + 1 < k <= s@.len() {
                        lemma_byte_len_grows(s@, i + 1, k);
                    }
                }
            }
            return Offset::Inside;
        }
        left -= w;
        i += 1;
    }
    assert(s@.take(s@.len() as int) == s@);
    if left == 0 {
        proof {
            assert(boundary(s@, n as int, i as int));
            lemma_char_index(s@, n as int, i as int);
            if i < s@.len() {
                lemma_byte_len_grows(s@, i as int, s@.len() as int);
            }
        }
        Offset::At(i)
    } else {
        Offset::Beyond
    }
}

} // verus!
