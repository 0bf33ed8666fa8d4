//! How responses are read, line by line and chunk by chunk.

use crate::http;
use crate::http::{HttpError, HttpResponseView};
use crate::laws::http as http_laws;
use crate::laws::numbers;
use crate::laws::pieces;
use crate::laws::text as text_laws;
use crate::laws::words;
use crate::number;
use crate::number::IntError;
use crate::text;
use crate::utf8;
use vstd::prelude::*;

verus! {

/// A line behind the status line: a header, with white space around its name and its value, or
/// anything else.
pub enum HeadLine {
    Field {
        before: Seq<char>,
        name: Seq<char>,
        between: Seq<char>,
        after: Seq<char>,
        value: Seq<char>,
        end: Seq<char>,
    },
    Other(Seq<char>),
}

/// White space within one line.
pub open spec fn is_gap(s: Seq<char>) -> bool {
    text_laws::is_white(s) && http_laws::is_plain(s)
}

impl HeadLine {
    /// The line as it is written, without its line end.
    pub open spec fn text(self) -> Seq<char> {
        match self {
            HeadLine::Field { before, name, between, after, value, end } => before + name + between
                + seq![':'] + after + value + end,
            HeadLine::Other(text) => text,
        }
    }

    /// A line as it may stand: a name holds no colon, and anything else holds none either.
    pub open spec fn is_line(self) -> bool {
        match self {
            HeadLine::Field { before, name, between, after, value, end } => {
                &&& is_gap(before)
                &&& is_gap(between)
                &&& is_gap(after)
                &&& is_gap(end)
                &&& http_laws::is_plain(name)
                &&& http_laws::is_plain(value)
                &&& text_laws::is_trimmed(name)
                &&& text_laws::is_trimmed(value)
                &&& text_laws::lacks(name, ':')
            },
            HeadLine::Other(text) => text.len() > 0 && http_laws::is_plain(text)
                && text_laws::lacks(text, ':'),
        }
    }
}

/// The names and values of the headers among the lines, in their order.
pub open spec fn fields(lines: Seq<HeadLine>) -> Seq<(Seq<char>, Seq<char>)>
    decreases lines.len(),
{
    if lines.len() == 0 {
        seq![]
    } else {
        match lines.last() {
            HeadLine::Field { name, value, .. } => fields(lines.drop_last()).push((name, value)),
            HeadLine::Other(_) => fields(lines.drop_last()),
        }
    }
}

/// The lines one after the other, each with its line end.
pub open spec fn written(lines: Seq<HeadLine>) -> Seq<char>
    decreases lines.len(),
{
    if lines.len() == 0 {
        seq![]
    } else {
        written(lines.drop_last()) + lines.last().text() + seq!['\r', '\n']
    }
}

/// A status line: white space, a word, white space, the status in digits, and anything apart from
/// it.
pub struct StatusLine {
    pub lead: Seq<char>,
    pub version: Seq<char>,
    pub gap: Seq<char>,
    pub digits: Seq<char>,
    pub reason: Seq<char>,
}

impl StatusLine {
    /// The line as it is written, without its line end.
    pub open spec fn text(self) -> Seq<char> {
        self.lead + self.version + self.gap + self.digits + self.reason
    }

    /// A status line whose status is a number of at most 65535.
    pub open spec fn is_line(self) -> bool {
        &&& is_gap(self.lead)
        &&& http_laws::is_version(self.version)
        &&& is_gap(self.gap)
        &&& self.gap.len() > 0
        &&& self.digits.len() > 0
        &&& numbers::are_digits(self.digits, 10)
        &&& numbers::total(self.digits, 10) <= 65535
        &&& http_laws::is_plain(self.reason)
        &&& self.reason.len() > 0 ==> text::is_white_space(self.reason[0])
    }
}

/// The bytes of a response with these lines and this body.
pub open spec fn bytes(status: StatusLine, lines: Seq<HeadLine>, body: Seq<char>) -> Seq<u8> {
    vstd::utf8::encode_utf8(
        status.text() + seq!['\r', '\n'] + written(lines) + seq!['\r', '\n'] + body,
    )
}

/// All of the lines are as they may stand.
pub open spec fn are_lines(lines: Seq<HeadLine>) -> bool {
    forall|i: int| 0 <= i < lines.len() ==> (#[trigger] lines[i]).is_line()
}

/// A header says that the body is chunked.
pub open spec fn says_so(header: (Seq<char>, Seq<char>)) -> bool {
    words::same_word(header.0, "transfer-encoding"@) && words::same_word(header.1, "chunked"@)
}

proof fn lemma_plain_concat(a: Seq<char>, b: Seq<char>)
    requires
        http_laws::is_plain(a),
        http_laws::is_plain(b),
    ensures
        http_laws::is_plain(a + b),
{
}

proof fn lemma_lacks_concat(a: Seq<char>, b: Seq<char>, c: char)
    requires
        text_laws::lacks(a, c),
        text_laws::lacks(b, c),
    ensures
        text_laws::lacks(a + b, c),
{
}

proof fn lemma_white_lacks(s: Seq<char>, c: char)
    requires
        text_laws::is_white(s),
        !text::is_white_space(c),
    ensures
        text_laws::lacks(s, c),
{
}

proof fn lemma_head_line(line: HeadLine)
    requires
        line.is_line(),
    ensures
        line.text().len() > 0,
        http_laws::is_plain(line.text()),
        http::header_of(line.text()) == match line {
            HeadLine::Field { name, value, .. } => Some((name, value)),
            HeadLine::Other(_) => None,
        },
{
    match line {
        HeadLine::Other(text) => {
            text_laws::lemma_no_split(text, ':');
        },
        HeadLine::Field { before, name, between, after, value, end } => {
            let colon = seq![':'];
            let left = before + name + between;
            let right = after + value + end;
            assert(line.text() == left + colon + right);
            lemma_white_lacks(before, ':');
            lemma_white_lacks(between, ':');
            lemma_lacks_concat(before, name, ':');
            lemma_lacks_concat(before + name, between, ':');
            text_laws::lemma_split_concat(left, colon, right);
            text_laws::trim_ignores_white_space_around(before, name, between);
            text_laws::trim_keeps_trimmed_text(name);
            text_laws::trim_ignores_white_space_around(after, value, end);
            text_laws::trim_keeps_trimmed_text(value);
            lemma_plain_concat(before, name);
            lemma_plain_concat(before + name, between);
            lemma_plain_concat(left, colon);
            lemma_plain_concat(after, value);
            lemma_plain_concat(after + value, end);
            lemma_plain_concat(left + colon, right);
        },
    }
}

proof fn lemma_head(first: Seq<char>, lines: Seq<HeadLine>) -> (texts: Seq<Seq<char>>)
    requires
        first.len() > 0,
        http_laws::is_plain(first),
        are_lines(lines),
    ensures
        texts.len() == lines.len() + 1,
        texts[0] == first,
        http_laws::are_lines(texts),
        http_laws::block(texts) == first + http::crlf() + written(lines),
        http_laws::is_block(http_laws::block(texts)),
        http::headers_of(texts.drop_first()) == fields(lines),
    decreases lines.len(),
{
    if lines.len() == 0 {
        let none = Seq::<Seq<char>>::empty();
        let texts = seq![first];
        http_laws::lemma_block_push(none, first);
        assert(none.push(first) == texts);
        http_laws::lemma_add_line(Seq::empty(), first);
        assert(http_laws::block(texts) == Seq::<char>::empty() + first + http::crlf());
        assert(http_laws::block(texts) == first + http::crlf() + written(lines));
        assert(texts.drop_first() == none);
        texts
    } else {
        let before = lines.drop_last();
        let last = lines.last();
        assert(last == lines[lines.len() - 1]);
        assert forall|i: int| 0 <= i < before.len() implies (#[trigger] before[i]).is_line() by {
            assert(before[i] == lines[i]);
        }
        let done = lemma_head(first, before);
        lemma_head_line(last);
        let texts = done.push(last.text());
        http_laws::lemma_block_push(done, last.text());
        http_laws::lemma_add_line(http_laws::block(done), last.text());
        assert(http_laws::block(texts) == first + http::crlf() + written(lines));
        assert(texts.drop_first().drop_last() == done.drop_first());
        assert(texts.drop_first().last() == last.text());
        texts
    }
}

/// What the reading of a response rests on: the lines of its head, and its body.
proof fn lemma_parts(first: Seq<char>, lines: Seq<HeadLine>, body: Seq<char>)
    requires
        first.len() > 0,
        http_laws::is_plain(first),
        are_lines(lines),
    ensures
        ({
            let whole = first + seq!['\r', '\n'] + written(lines) + seq!['\r', '\n'] + body;
            &&& whole.len() > 0
            &&& text::split_once(whole, http::crlf() + http::crlf()) matches Some((head, rest))
            &&& rest == body
            &&& text::lines(head).len() > 0
            &&& text::lines(head)[0] == first
            &&& http::headers_of(text::lines(head).drop_first()) == fields(lines)
        }),
{
    let texts = lemma_head(first, lines);
    http_laws::lemma_block_lines(texts);
    let all = http_laws::block(texts);
    http_laws::lemma_block_ends(all, body);
    assert(first + seq!['\r', '\n'] + written(lines) + seq!['\r', '\n'] + body == all
        + http::crlf() + body);
}

proof fn lemma_status(status: StatusLine)
    requires
        status.is_line(),
    ensures
        status.text().len() > 0,
        http_laws::is_plain(status.text()),
        text::words(status.text()).len() >= 2,
        text::words(status.text())[1] == status.digits,
{
    let StatusLine { lead, version, gap, digits, reason } = status;
    let number = digits + reason;
    let after = gap + number;
    let whole = version + after;
    assert(status.text() == lead + whole);
    assert forall|i: int| 0 <= i < digits.len() implies !text::is_white_space(
        #[trigger] digits[i],
    ) by {
        assert(numbers::worth(digits[i]) < 10);
    }
    assert forall|i: int| 0 <= i < digits.len() implies #[trigger] digits[i] != '\r' && digits[i]
        != '\n' by {
        assert(numbers::worth(digits[i]) < 10);
    }
    text_laws::lemma_trim_start_before(lead, whole);
    text_laws::lemma_trim_start_before(gap, number);
    assert(after[0] == gap[0]);
    http_laws::lemma_word(version, after);
    http_laws::lemma_word(digits, reason);
    assert(text::words(lead + whole) == text::words(whole));
    assert(text::words(after) == text::words(number));
    assert(http_laws::is_plain(version)) by {
        assert forall|i: int| 0 <= i < version.len() implies #[trigger] version[i] != '\r'
            && version[i] != '\n' by {
            assert(!text::is_white_space(version[i]));
        }
    }
    lemma_plain_concat(lead, version);
    lemma_plain_concat(lead + version, gap);
    lemma_plain_concat(lead + version + gap, digits);
    lemma_plain_concat(lead + version + gap + digits, reason);
}

proof fn lemma_says_chunked(headers: Seq<(Seq<char>, Seq<char>)>)
    ensures
        http::says_chunked(headers) <==> exists|k: int|
            0 <= k < headers.len() && says_so(#[trigger] headers[k]),
{
    assert forall|k: int| 0 <= k < headers.len() implies (says_so(#[trigger] headers[k]) <==> (
    text::same_ignoring_case(headers[k].0, "transfer-encoding"@) && text::same_ignoring_case(
        headers[k].1,
        "chunked"@,
    ))) by {
        words::case_is_ignored(headers[k].0, "transfer-encoding"@);
        words::case_is_ignored(headers[k].1, "chunked"@);
    }
    if http::says_chunked(headers) {
        let k = choose|k: int|
            0 <= k < headers.len() && text::same_ignoring_case(
                (#[trigger] headers[k]).0,
                "transfer-encoding"@,
            ) && text::same_ignoring_case(headers[k].1, "chunked"@);
        assert(says_so(headers[k]));
    }
}

/// A response is read with the status that its digits are worth, with all of its headers in their
/// order and without the white space around them, and with its body as it is, if none of the
/// headers says that it is chunked.
pub proof fn a_response_is_read(status: StatusLine, lines: Seq<HeadLine>, body: Seq<char>)
    requires
        status.is_line(),
        are_lines(lines),
        forall|k: int| 0 <= k < fields(lines).len() ==> !says_so(#[trigger] fields(lines)[k]),
    ensures
        http::response_of_bytes(bytes(status, lines, body)) == Some(
            Ok::<HttpResponseView, HttpError>(
                HttpResponseView {
                    status: numbers::total(status.digits, 10) as u16,
                    headers: fields(lines),
                    body,
                },
            ),
        ),
{
    lemma_status(status);
    lemma_parts(status.text(), lines, body);
    numbers::digits_are_read(status.digits, 10, u16::MAX as nat);
    lemma_total(status.digits);
    lemma_says_chunked(fields(lines));
    http_laws::lemma_bytes(
        status.text() + seq!['\r', '\n'] + written(lines) + seq!['\r', '\n'] + body,
    );
}

proof fn lemma_total(digits: Seq<char>)
    ensures
        numbers::total(digits, 10) >= 0,
{
    numbers::lemma_total_nonnegative(digits, 10);
}

/// Any of the headers, whatever stands before and after it, may say that the body is chunked: the
/// response is then read with what the chunks carry.
pub proof fn any_header_may_say_chunked(
    status: StatusLine,
    lines: Seq<HeadLine>,
    k: int,
    chunks: Seq<http_laws::Chunk>,
    trailer: Seq<char>,
)
    requires
        status.is_line(),
        are_lines(lines),
        0 <= k < fields(lines).len(),
        words::same_word(fields(lines)[k].0, "transfer-encoding"@),
        words::same_word(fields(lines)[k].1, "chunked"@),
        http_laws::are_chunks(chunks),
    ensures
        http::response_of_bytes(bytes(status, lines, http_laws::chunked_body(chunks, trailer)))
            == Some(
            Ok::<HttpResponseView, HttpError>(
                HttpResponseView {
                    status: numbers::total(status.digits, 10) as u16,
                    headers: fields(lines),
                    body: http_laws::joined(chunks),
                },
            ),
        ),
{
    let body = http_laws::chunked_body(chunks, trailer);
    lemma_status(status);
    lemma_parts(status.text(), lines, body);
    numbers::digits_are_read(status.digits, 10, u16::MAX as nat);
    lemma_total(status.digits);
    assert(says_so(fields(lines)[k]));
    lemma_says_chunked(fields(lines));
    http_laws::chunks_are_put_together(chunks, trailer);
    http_laws::lemma_bytes(
        status.text() + seq!['\r', '\n'] + written(lines) + seq!['\r', '\n'] + body,
    );
}

/// A chunked response whose chunks cannot be put together is refused for the same reason.
pub proof fn broken_chunks_break_the_response(
    status: StatusLine,
    lines: Seq<HeadLine>,
    k: int,
    body: Seq<char>,
    error: HttpError,
)
    requires
        status.is_line(),
        are_lines(lines),
        0 <= k < fields(lines).len(),
        says_so(fields(lines)[k]),
        http::chunked(body) == Some(Err::<Seq<char>, HttpError>(error)),
    ensures
        http::response_of_bytes(bytes(status, lines, body)) == Some(
            Err::<HttpResponseView, HttpError>(error),
        ),
{
    lemma_status(status);
    lemma_parts(status.text(), lines, body);
    numbers::digits_are_read(status.digits, 10, u16::MAX as nat);
    lemma_total(status.digits);
    lemma_says_chunked(fields(lines));
    http_laws::lemma_bytes(
        status.text() + seq!['\r', '\n'] + written(lines) + seq!['\r', '\n'] + body,
    );
}

/// A response without a status line, with one of fewer than two words, or with one whose second
/// word is no status is refused, each for its own reason.
pub proof fn responses_need_a_status(
    lead: Seq<char>,
    word: Seq<char>,
    gap: Seq<char>,
    second: Seq<char>,
    reason: Seq<char>,
    lines: Seq<HeadLine>,
    body: Seq<char>,
    error: IntError,
)
    requires
        is_gap(lead),
        http_laws::is_version(word),
        is_gap(gap),
        http_laws::is_version(second),
        http_laws::is_plain(reason),
        reason.len() > 0 ==> text::is_white_space(reason[0]),
        are_lines(lines),
        number::parse_int(second, 10, 65535) == Err::<nat, IntError>(error),
    ensures
        http::response_of_bytes(
            vstd::utf8::encode_utf8(seq!['\r', '\n', '\r', '\n'] + body),
        ) == Some(Err::<HttpResponseView, HttpError>(HttpError::MissingStatus)),
        http::response_of_bytes(
            vstd::utf8::encode_utf8(
                lead + word + gap + seq!['\r', '\n'] + written(lines) + seq!['\r', '\n'] + body,
            ),
        ) == Some(Err::<HttpResponseView, HttpError>(HttpError::MissingStatusCode)),
        lead.len() > 0 ==> http::response_of_bytes(
            vstd::utf8::encode_utf8(
                lead + seq!['\r', '\n'] + written(lines) + seq!['\r', '\n'] + body,
            ),
        ) == Some(Err::<HttpResponseView, HttpError>(HttpError::MissingStatusCode)),
        gap.len() > 0 ==> http::response_of_bytes(
            vstd::utf8::encode_utf8(
                lead + word + gap + second + reason + seq!['\r', '\n'] + written(lines) + seq![
                    '\r',
                    '\n',
                ] + body,
            ),
        ) == Some(Err::<HttpResponseView, HttpError>(HttpError::BadNumber(error))),
{
    lemma_no_status(body);
    lemma_one_word(lead, word, gap, lines, body);
    if lead.len() > 0 {
        lemma_no_word(lead, lines, body);
    }
    if gap.len() > 0 {
        lemma_bad_status(lead, word, gap, second, reason, lines, body, error);
    }
}

proof fn lemma_no_status(body: Seq<char>)
    ensures
        http::response_of_bytes(
            vstd::utf8::encode_utf8(seq!['\r', '\n', '\r', '\n'] + body),
        ) == Some(Err::<HttpResponseView, HttpError>(HttpError::MissingStatus)),
{
    let blank = http::crlf() + http::crlf();
    let none = Seq::<char>::empty();
    assert(blank == seq!['\r', '\n', '\r', '\n']);
    let whole = seq!['\r', '\n', '\r', '\n'] + body;
    assert(none + blank + body == whole);
    text_laws::lemma_split_concat(none, blank, body);
    http_laws::lemma_bytes(whole);
}

proof fn lemma_version_plain(version: Seq<char>)
    requires
        http_laws::is_version(version),
    ensures
        http_laws::is_plain(version),
{
    assert forall|i: int| 0 <= i < version.len() implies #[trigger] version[i] != '\r'
        && version[i] != '\n' by {
        assert(!text::is_white_space(version[i]));
    }
}

proof fn lemma_no_words(gap: Seq<char>)
    requires
        text_laws::is_white(gap),
    ensures
        text::words(gap).len() == 0,
{
    let none = Seq::<char>::empty();
    text_laws::lemma_trim_start_before(gap, none);
    assert(gap + none == gap);
}

proof fn lemma_one_word(
    lead: Seq<char>,
    word: Seq<char>,
    gap: Seq<char>,
    lines: Seq<HeadLine>,
    body: Seq<char>,
)
    requires
        is_gap(lead),
        http_laws::is_version(word),
        is_gap(gap),
        are_lines(lines),
    ensures
        http::response_of_bytes(
            vstd::utf8::encode_utf8(
                lead + word + gap + seq!['\r', '\n'] + written(lines) + seq!['\r', '\n'] + body,
            ),
        ) == Some(Err::<HttpResponseView, HttpError>(HttpError::MissingStatusCode)),
{
    let first = lead + word + gap;
    assert(first == lead + (word + gap));
    text_laws::lemma_trim_start_before(lead, word + gap);
    http_laws::lemma_word(word, gap);
    lemma_no_words(gap);
    assert(text::words(first) == text::words(word + gap));
    lemma_version_plain(word);
    lemma_plain_concat(lead, word);
    lemma_plain_concat(lead + word, gap);
    lemma_parts(first, lines, body);
    http_laws::lemma_bytes(first + seq!['\r', '\n'] + written(lines) + seq!['\r', '\n'] + body);
}

proof fn lemma_no_word(lead: Seq<char>, lines: Seq<HeadLine>, body: Seq<char>)
    requires
        is_gap(lead),
        lead.len() > 0,
        are_lines(lines),
    ensures
        http::response_of_bytes(
            vstd::utf8::encode_utf8(
                lead + seq!['\r', '\n'] + written(lines) + seq!['\r', '\n'] + body,
            ),
        ) == Some(Err::<HttpResponseView, HttpError>(HttpError::MissingStatusCode)),
{
    lemma_no_words(lead);
    lemma_parts(lead, lines, body);
    http_laws::lemma_bytes(lead + seq!['\r', '\n'] + written(lines) + seq!['\r', '\n'] + body);
}

proof fn lemma_bad_status(
    lead: Seq<char>,
    word: Seq<char>,
    gap: Seq<char>,
    second: Seq<char>,
    reason: Seq<char>,
    lines: Seq<HeadLine>,
    body: Seq<char>,
    error: IntError,
)
    requires
        is_gap(lead),
        http_laws::is_version(word),
        is_gap(gap),
        gap.len() > 0,
        http_laws::is_version(second),
        http_laws::is_plain(reason),
        reason.len() > 0 ==> text::is_white_space(reason[0]),
        are_lines(lines),
        number::parse_int(second, 10, 65535) == Err::<nat, IntError>(error),
    ensures
        http::response_of_bytes(
            vstd::utf8::encode_utf8(
                lead + word + gap + second + reason + seq!['\r', '\n'] + written(lines) + seq![
                    '\r',
                    '\n',
                ] + body,
            ),
        ) == Some(Err::<HttpResponseView, HttpError>(HttpError::BadNumber(error))),
{
    let first = lead + word + gap + second + reason;
    let rest = second + reason;
    let after = gap + rest;
    assert(first == lead + (word + after));
    text_laws::lemma_trim_start_before(lead, word + after);
    text_laws::lemma_trim_start_before(gap, rest);
    assert(after[0] == gap[0]);
    http_laws::lemma_word(word, after);
    http_laws::lemma_word(second, reason);
    assert(text::words(first) == text::words(word + after));
    assert(text::words(after) == text::words(rest));
    lemma_version_plain(word);
    lemma_version_plain(second);
    lemma_plain_concat(lead, word);
    lemma_plain_concat(lead + word, gap);
    lemma_plain_concat(lead + word + gap, second);
    lemma_plain_concat(lead + word + gap + second, reason);
    lemma_parts(first, lines, body);
    http_laws::lemma_bytes(first + seq!['\r', '\n'] + written(lines) + seq!['\r', '\n'] + body);
}

/// The size of a chunk as it may be written: hexadecimal digits, with white space around them.
pub open spec fn is_size(before: Seq<char>, digits: Seq<char>, after: Seq<char>) -> bool {
    &&& text_laws::is_white(before)
    &&& text_laws::lacks(before, '\r')
    &&& digits.len() > 0
    &&& numbers::are_digits(digits, 16)
    &&& numbers::total(digits, 16) <= usize::MAX
    &&& text_laws::is_white(after)
    &&& text_laws::lacks(after, '\r')
}

proof fn lemma_size_read(
    before: Seq<char>,
    digits: Seq<char>,
    after: Seq<char>,
    rest: Seq<char>,
)
    requires
        is_size(before, digits, after),
    ensures
        text::split_once(before + digits + after + seq!['\r', '\n'] + rest, http::crlf()) == Some(
            (before + digits + after, rest),
        ),
        number::parse_int(text::trim(before + digits + after), 16, usize::MAX as nat) == Ok::<
            nat,
            IntError,
        >(numbers::total(digits, 16) as nat),
        numbers::total(digits, 16) >= 0,
{
    let size = before + digits + after;
    assert forall|i: int| 0 <= i < digits.len() implies #[trigger] digits[i] != '\r'
        && !text::is_white_space(digits[i]) by {
        assert(numbers::worth(digits[i]) < 16);
    }
    assert(text_laws::lacks(digits, '\r'));
    lemma_lacks_concat(before, digits, '\r');
    lemma_lacks_concat(before + digits, after, '\r');
    text_laws::lemma_split_concat(size, http::crlf(), rest);
    text_laws::trim_ignores_white_space_around(before, digits, after);
    text_laws::trim_keeps_trimmed_text(digits);
    numbers::digits_are_read(digits, 16, usize::MAX as nat);
    numbers::lemma_total_nonnegative(digits, 16);
}

/// A chunk gives its data, as many bytes as its size is worth, and what follows the two bytes
/// behind them is read on in the same way.
pub proof fn a_chunk_is_taken_off(
    before: Seq<char>,
    digits: Seq<char>,
    after: Seq<char>,
    data: Seq<char>,
    two: Seq<char>,
    rest: Seq<char>,
)
    requires
        is_size(before, digits, after),
        data.len() > 0,
        numbers::total(digits, 16) == vstd::utf8::encode_utf8(data).len(),
        numbers::total(digits, 16) + 2 <= usize::MAX,
        vstd::utf8::encode_utf8(two).len() == 2,
    ensures
        http::chunked(before + digits + after + seq!['\r', '\n'] + data + two + rest)
            == match http::chunked(rest) {
            Some(Ok(more)) => Some(Ok::<Seq<char>, HttpError>(data + more)),
            other => other,
        },
{
    let follows = data + two + rest;
    let body = before + digits + after + seq!['\r', '\n'] + follows;
    assert(before + digits + after + seq!['\r', '\n'] + data + two + rest == body);
    lemma_size_read(before, digits, after, follows);
    let n = utf8::byte_len(data) as int;
    let i = data.len() as int;
    let j = i + two.len();
    assert(data.take(i) == data);
    assert(data.take(0) == Seq::<char>::empty());
    utf8::lemma_byte_len_grows(data, 0, i);
    assert(follows.take(i) == data);
    assert(follows.take(j) == data + two);
    utf8::lemma_encode_concat(data, two);
    utf8::lemma_encode_concat(data + two, rest);
    utf8::lemma_char_index(follows, n, i);
    utf8::lemma_char_index(follows, n + 2, j);
    assert(follows.skip(j) == rest);
}

/// A size of zero ends a chunked body, whatever follows.
pub proof fn a_size_of_zero_is_the_end(
    before: Seq<char>,
    digits: Seq<char>,
    after: Seq<char>,
    rest: Seq<char>,
)
    requires
        is_size(before, digits, after),
        numbers::total(digits, 16) == 0,
    ensures
        http::chunked(before + digits + after + seq!['\r', '\n'] + rest) == Some(
            Ok::<Seq<char>, HttpError>(seq![]),
        ),
{
    lemma_size_read(before, digits, after, rest);
}

/// A chunked body is refused where no line end follows, where fewer bytes follow than the size and
/// two more, and where the size is no number.
pub proof fn broken_chunks_are_refused(
    before: Seq<char>,
    digits: Seq<char>,
    after: Seq<char>,
    rest: Seq<char>,
    endless: Seq<char>,
    size: Seq<char>,
    error: IntError,
)
    requires
        is_size(before, digits, after),
        numbers::total(digits, 16) > 0,
        numbers::total(digits, 16) + 2 <= usize::MAX,
        vstd::utf8::encode_utf8(rest).len() < numbers::total(digits, 16) + 2,
        !words::holds(endless, seq!['\r', '\n']),
        text_laws::lacks(size, '\r'),
        text_laws::is_trimmed(size),
        number::parse_int(size, 16, usize::MAX as nat) == Err::<nat, IntError>(error),
    ensures
        http::chunked(endless) == Some(
            Err::<Seq<char>, HttpError>(HttpError::MalformedChunkedBody),
        ),
        http::chunked(before + digits + after + seq!['\r', '\n'] + rest) == Some(
            Err::<Seq<char>, HttpError>(HttpError::TruncatedChunkedBody),
        ),
        http::chunked(before + size + after + seq!['\r', '\n'] + rest) == Some(
            Err::<Seq<char>, HttpError>(HttpError::BadNumber(error)),
        ),
{
    lemma_size_read(before, digits, after, rest);
    words::search_finds_what_stands_there(endless, http::crlf());
    if text::split_once(endless, http::crlf()) is Some {
        let i = choose|i: int| text::first_at(endless, http::crlf(), i);
        assert(text::occurs_at(endless, http::crlf(), i));
    }
    lemma_lacks_concat(before, size, '\r');
    lemma_lacks_concat(before + size, after, '\r');
    text_laws::lemma_split_concat(before + size + after, http::crlf(), rest);
    text_laws::trim_ignores_white_space_around(before, size, after);
    text_laws::trim_keeps_trimmed_text(size);
}

/// A URL with another scheme, one without a port, and one whose port is no number are refused, each
/// for its own reason.
pub proof fn unusable_urls_are_refused(
    other: Seq<char>,
    bare: Seq<char>,
    host: Seq<char>,
    port: Seq<char>,
    path: Seq<char>,
    error: IntError,
)
    requires
        !words::begins(other, "http://"@),
        text_laws::lacks(bare, ':'),
        text_laws::lacks(bare, '/'),
        text_laws::lacks(host, '/'),
        text_laws::lacks(port, ':'),
        text_laws::lacks(port, '/'),
        path.len() > 0 ==> path[0] == '/',
        number::parse_int(port, 10, 65535) == Err::<nat, IntError>(error),
    ensures
        http::url_parts(other) == Err::<http::HttpUrlView, HttpError>(HttpError::UnsupportedScheme),
        http::url_parts("http://"@ + bare + path) == Err::<http::HttpUrlView, HttpError>(
            HttpError::MissingPort,
        ),
        http::url_parts("http://"@ + host + ":"@ + port + path) == Err::<
            http::HttpUrlView,
            HttpError,
        >(HttpError::BadNumber(error)),
{
    reveal_strlit(":");
    assert(":"@ == seq![':']);
    words::beginnings_are_found(other, "http://"@);
    lemma_authority(bare, path);
    text_laws::lemma_no_rsplit(bare, ':');
    let authority = host + seq![':'] + port;
    lemma_lacks_concat(host, seq![':'], '/');
    lemma_lacks_concat(host + seq![':'], port, '/');
    lemma_authority(authority, path);
    text_laws::lemma_rsplit_concat(host, ':', port);
    assert("http://"@ + host + ":"@ + port + path == "http://"@ + authority + path);
}

proof fn lemma_authority(authority: Seq<char>, path: Seq<char>)
    requires
        text_laws::lacks(authority, '/'),
        path.len() > 0 ==> path[0] == '/',
    ensures
        ({
            let url = "http://"@ + authority + path;
            &&& text::starts_with(url, "http://"@)
            &&& http::authority_and_path(url.skip("http://"@.len() as int)) == (
                authority,
                if path.len() > 0 {
                    path.drop_first()
                } else {
                    path
                },
            )
        }),
{
    let scheme = "http://"@;
    let url = scheme + authority + path;
    words::beginnings_are_found(url, scheme);
    assert(url.take(scheme.len() as int) == scheme);
    assert(url.skip(scheme.len() as int) == authority + path);
    if path.len() > 0 {
        assert(authority + path == authority + seq!['/'] + path.drop_first());
        text_laws::lemma_split_concat(authority, seq!['/'], path.drop_first());
    } else {
        assert(authority + path == authority);
        assert(path == Seq::<char>::empty());
        text_laws::lemma_no_split(authority, '/');
    }
}

/// The port of a URL is what its digits are worth, the host is what stands before the last colon of
/// the authority, and the path is the rest, or a single slash.
pub proof fn a_url_is_taken_apart(host: Seq<char>, port: Seq<char>, path: Seq<char>)
    requires
        text_laws::lacks(host, '/'),
        port.len() > 0,
        numbers::are_digits(port, 10),
        numbers::total(port, 10) <= 65535,
        path.len() > 0 ==> path[0] == '/',
    ensures
        http::url_parts("http://"@ + host + ":"@ + port + path) == Ok::<
            http::HttpUrlView,
            HttpError,
        >(
            http::HttpUrlView {
                host,
                port: numbers::total(port, 10) as u16,
                path: if path.len() > 0 {
                    path
                } else {
                    seq!['/']
                },
            },
        ),
{
    reveal_strlit(":");
    assert(":"@ == seq![':']);
    let authority = host + seq![':'] + port;
    assert forall|i: int| 0 <= i < port.len() implies #[trigger] port[i] != '/' && port[i]
        != ':' by {
        assert(numbers::worth(port[i]) < 10);
    }
    assert(text_laws::lacks(port, '/') && text_laws::lacks(port, ':'));
    lemma_lacks_concat(host, seq![':'], '/');
    lemma_lacks_concat(host + seq![':'], port, '/');
    lemma_authority(authority, path);
    text_laws::lemma_rsplit_concat(host, ':', port);
    numbers::digits_are_read(port, 10, u16::MAX as nat);
    numbers::lemma_total_nonnegative(port, 10);
    assert("http://"@ + host + ":"@ + port + path == "http://"@ + authority + path);
    if path.len() > 0 {
        assert(seq!['/'] + path.drop_first() == path);
    } else {
        assert(seq!['/'] + path == seq!['/']);
    }
}

/// In the head of a response, a line feed ends a line just as well as a carriage return and a line
/// feed do.
pub proof fn heads_may_use_line_feeds(a: Seq<char>, b: Seq<char>, body: Seq<char>)
    requires
        a.len() > 0 ==> a.last() != '\r',
        b.len() > 0,
        pieces::absent_before(
            a + seq!['\n'] + b + seq!['\r', '\n', '\r', '\n'] + body,
            seq!['\r', '\n', '\r', '\n'],
            (a + seq!['\n'] + b).len() as int,
        ),
        pieces::absent_before(
            a + seq!['\r', '\n'] + b + seq!['\r', '\n', '\r', '\n'] + body,
            seq!['\r', '\n', '\r', '\n'],
            (a + seq!['\r', '\n'] + b).len() as int,
        ),
    ensures
        http::response_of(a + seq!['\n'] + b + seq!['\r', '\n', '\r', '\n'] + body)
            == http::response_of(
            a + seq!['\r', '\n'] + b + seq!['\r', '\n', '\r', '\n'] + body,
        ),
{
    pieces::both_line_ends_are_alike(a, b);
    lemma_blank(a + seq!['\n'] + b, body);
    lemma_blank(a + seq!['\r', '\n'] + b, body);
}

proof fn lemma_blank(head: Seq<char>, body: Seq<char>)
    requires
        pieces::absent_before(
            head + seq!['\r', '\n', '\r', '\n'] + body,
            seq!['\r', '\n', '\r', '\n'],
            head.len() as int,
        ),
    ensures
        text::split_once(
            head + seq!['\r', '\n', '\r', '\n'] + body,
            http::crlf() + http::crlf(),
        ) == Some((head, body)),
{
    let blank = seq!['\r', '\n', '\r', '\n'];
    assert(http::crlf() + http::crlf() == blank);
    pieces::lemma_split_here(head, blank, body);
}

/// The status is the number that the second word of the status line writes, in whatever way.
pub proof fn the_second_word_is_the_status(
    lead: Seq<char>,
    version: Seq<char>,
    gap: Seq<char>,
    word: Seq<char>,
    reason: Seq<char>,
    lines: Seq<HeadLine>,
    body: Seq<char>,
    status: u16,
)
    requires
        is_gap(lead),
        http_laws::is_version(version),
        is_gap(gap),
        gap.len() > 0,
        http_laws::is_version(word),
        number::parse_int(word, 10, 65535) == Ok::<nat, IntError>(status as nat),
        http_laws::is_plain(reason),
        reason.len() > 0 ==> text::is_white_space(reason[0]),
        are_lines(lines),
        forall|k: int| 0 <= k < fields(lines).len() ==> !says_so(#[trigger] fields(lines)[k]),
    ensures
        http::response_of_bytes(
            vstd::utf8::encode_utf8(
                lead + version + gap + word + reason + seq!['\r', '\n'] + written(lines) + seq![
                    '\r',
                    '\n',
                ] + body,
            ),
        ) == Some(
            Ok::<HttpResponseView, HttpError>(
                HttpResponseView { status, headers: fields(lines), body },
            ),
        ),
{
    let first = lead + version + gap + word + reason;
    let rest = word + reason;
    let after = gap + rest;
    assert(first == lead + (version + after));
    text_laws::lemma_trim_start_before(lead, version + after);
    text_laws::lemma_trim_start_before(gap, rest);
    assert(after[0] == gap[0]);
    http_laws::lemma_word(version, after);
    http_laws::lemma_word(word, reason);
    assert(text::words(first) == text::words(version + after));
    assert(text::words(after) == text::words(rest));
    lemma_version_plain(version);
    lemma_version_plain(word);
    lemma_plain_concat(lead, version);
    lemma_plain_concat(lead + version, gap);
    lemma_plain_concat(lead + version + gap, word);
    lemma_plain_concat(lead + version + gap + word, reason);
    lemma_parts(first, lines, body);
    lemma_says_chunked(fields(lines));
    http_laws::lemma_bytes(first + seq!['\r', '\n'] + written(lines) + seq!['\r', '\n'] + body);
}

/// The port is the number that stands behind the last colon of the authority, in whatever way it is
/// written.
pub proof fn the_port_is_what_is_written(
    host: Seq<char>,
    port: Seq<char>,
    path: Seq<char>,
    n: u16,
)
    requires
        text_laws::lacks(host, '/'),
        text_laws::lacks(port, ':'),
        text_laws::lacks(port, '/'),
        number::parse_int(port, 10, 65535) == Ok::<nat, IntError>(n as nat),
        path.len() > 0 ==> path[0] == '/',
    ensures
        http::url_parts("http://"@ + host + ":"@ + port + path) == Ok::<
            http::HttpUrlView,
            HttpError,
        >(
            http::HttpUrlView {
                host,
                port: n,
                path: if path.len() > 0 {
                    path
                } else {
                    seq!['/']
                },
            },
        ),
{
    reveal_strlit(":");
    assert(":"@ == seq![':']);
    let authority = host + seq![':'] + port;
    lemma_lacks_concat(host, seq![':'], '/');
    lemma_lacks_concat(host + seq![':'], port, '/');
    lemma_authority(authority, path);
    text_laws::lemma_rsplit_concat(host, ':', port);
    assert("http://"@ + host + ":"@ + port + path == "http://"@ + authority + path);
    if path.len() > 0 {
        assert(seq!['/'] + path.drop_first() == path);
    } else {
        assert(seq!['/'] + path == seq!['/']);
    }
}

} // verus!
