//! What holds of URLs, requests and responses.

use crate::http;
use crate::http::{HttpError, HttpResponseView, HttpUrlView};
use crate::laws::client as client_laws;
use crate::laws::text as text_laws;
use crate::number;
use crate::retry;
use crate::text;
use crate::utf8;
use vstd::prelude::*;

verus! {

/// The address of a listener: its host, a colon and its port.
pub open spec fn address(host: Seq<char>, port: u16) -> Seq<char> {
    host + seq![':'] + number::decimal(port as nat)
}

/// A URL of a listener's address and a path leads back to that host, port and path.
pub proof fn url_leads_back(host: Seq<char>, port: u16, path: Seq<char>)
    requires
        text_laws::lacks(host, '/'),
    ensures
        http::url_parts("http://"@ + address(host, port) + seq!['/'] + path) == Ok::<
            HttpUrlView,
            HttpError,
        >(HttpUrlView { host, port, path: seq!['/'] + path }),
{
    let scheme = "http://"@;
    let digits = number::decimal(port as nat);
    let authority = address(host, port);
    let url = scheme + authority + seq!['/'] + path;
    number::lemma_numeral_digits(port as nat, 10);
    number::numeral_reads_back(port as nat, 10, u16::MAX as nat);
    assert(url.subrange(0, scheme.len() as int) == scheme);
    assert(url.skip(scheme.len() as int) == authority + seq!['/'] + path);
    text_laws::lemma_split_concat(authority, seq!['/'], path);
    text_laws::lemma_rsplit_concat(host, ':', digits);
}

/// A URL that ends with its port leads back to that host and port, with a single slash for its
/// path.
pub proof fn url_without_a_path_leads_back(host: Seq<char>, port: u16)
    requires
        text_laws::lacks(host, '/'),
    ensures
        http::url_parts("http://"@ + address(host, port)) == Ok::<HttpUrlView, HttpError>(
            HttpUrlView { host, port, path: seq!['/'] },
        ),
{
    let scheme = "http://"@;
    let digits = number::decimal(port as nat);
    let authority = address(host, port);
    let url = scheme + authority;
    number::lemma_numeral_digits(port as nat, 10);
    number::numeral_reads_back(port as nat, 10, u16::MAX as nat);
    assert(url.subrange(0, scheme.len() as int) == scheme);
    assert(url.skip(scheme.len() as int) == authority);
    assert(text_laws::lacks(authority, '/'));
    text_laws::lemma_no_split(authority, '/');
    text_laws::lemma_rsplit_concat(host, ':', digits);
    assert(seq!['/'] + Seq::<char>::empty() == seq!['/']);
}

/// A chunk of a chunked body: its size as it is written, and its data.
pub type Chunk = (Seq<char>, Seq<char>);

/// A chunk as it may stand in a body: its data is not empty, and its size is the number of its
/// bytes in hexadecimal, with letters of either case.
pub open spec fn is_chunk(chunk: Chunk) -> bool {
    &&& chunk.1.len() > 0
    &&& utf8::byte_len(chunk.1) + 2 <= usize::MAX
    &&& text::same_ignoring_case(chunk.0, number::numeral(utf8::byte_len(chunk.1), 16))
}

/// Chunks as they may stand in a body.
pub open spec fn are_chunks(chunks: Seq<Chunk>) -> bool {
    forall|i: int| 0 <= i < chunks.len() ==> is_chunk(#[trigger] chunks[i])
}

/// One chunk of a chunked body, as it is written.
pub open spec fn chunk_text(chunk: Chunk) -> Seq<char> {
    chunk.0 + http::crlf() + chunk.1 + http::crlf()
}

/// A chunked body: the chunks one after the other, a length of zero, and whatever follows it.
pub open spec fn chunked_body(chunks: Seq<Chunk>, trailer: Seq<char>) -> Seq<char>
    decreases chunks.len(),
{
    if chunks.len() == 0 {
        seq!['0'] + http::crlf() + trailer
    } else {
        chunk_text(chunks[0]) + chunked_body(chunks.drop_first(), trailer)
    }
}

/// The data of the chunks, one after the other.
pub open spec fn joined(chunks: Seq<Chunk>) -> Seq<char>
    decreases chunks.len(),
{
    if chunks.len() == 0 {
        seq![]
    } else {
        chunks[0].1 + joined(chunks.drop_first())
    }
}

proof fn lemma_read_either_case(a: Seq<char>, b: Seq<char>, radix: nat, max: nat, acc: nat)
    requires
        text::same_ignoring_case(a, b),
    ensures
        number::read_digits(a, radix, max, acc) == number::read_digits(b, radix, max, acc),
    decreases a.len(),
{
    if a.len() > 0 {
        assert(text::ascii_lower(a[0]) == text::ascii_lower(b[0]));
        assert(number::digit_value(a[0], radix) == number::digit_value(b[0], radix));
        assert forall|i: int| 0 <= i < a.drop_first().len() implies text::ascii_lower(
            #[trigger] a.drop_first()[i],
        ) == text::ascii_lower(b.drop_first()[i]) by {
            assert(text::ascii_lower(a[i + 1]) == text::ascii_lower(b[i + 1]));
        }
        if let Some(d) = number::digit_value(a[0], radix) {
            lemma_read_either_case(a.drop_first(), b.drop_first(), radix, max, acc * radix + d);
        }
    }
}

proof fn lemma_size(size: Seq<char>, n: nat)
    requires
        text::same_ignoring_case(size, number::numeral(n, 16)),
        n <= usize::MAX,
    ensures
        text_laws::lacks(size, '\r'),
        text::trim(size) == size,
        number::parse_int(size, 16, usize::MAX as nat) == Ok::<nat, number::IntError>(n),
{
    let digits = number::numeral(n, 16);
    number::lemma_numeral_digits(n, 16);
    number::numeral_reads_back(n, 16, usize::MAX as nat);
    assert forall|i: int| 0 <= i < size.len() implies '0' <= #[trigger] size[i] <= '9' || 'a'
        <= size[i] <= 'f' || 'A' <= size[i] <= 'F' by {
        assert(text::ascii_lower(size[i]) == text::ascii_lower(digits[i]));
    }
    text_laws::trim_keeps_trimmed_text(size);
    assert(size[0] != '+' && digits[0] != '+');
    lemma_read_either_case(size, digits, 16, usize::MAX as nat, 0);
}

/// A body that was cut into chunks, none of them empty, is put together again, whatever follows
/// the last chunk and whatever the case of the letters in the sizes.
pub proof fn chunks_are_put_together(chunks: Seq<Chunk>, trailer: Seq<char>)
    requires
        are_chunks(chunks),
    ensures
        http::chunked(chunked_body(chunks, trailer)) == Some(
            Ok::<Seq<char>, HttpError>(joined(chunks)),
        ),
    decreases chunks.len(),
{
    let body = chunked_body(chunks, trailer);
    let end = http::crlf();
    if chunks.len() == 0 {
        let zero = seq!['0'];
        assert(number::numeral(0, 16) == zero);
        lemma_size(zero, 0);
        text_laws::lemma_split_concat(zero, end, trailer);
    } else {
        let (size, data) = chunks[0];
        assert(is_chunk(chunks[0]));
        let n = utf8::byte_len(data);
        let tail = chunked_body(chunks.drop_first(), trailer);
        let after = data + end + tail;
        assert(body == size + end + after);
        lemma_size(size, n);
        text_laws::lemma_split_concat(size, end, after);
        let i = data.len() as int;
        assert(data.take(i) == data);
        assert(data.take(0) == Seq::<char>::empty());
        utf8::lemma_byte_len_grows(data, 0, i);
        assert(after.take(i) == data);
        utf8::lemma_char_index(after, n as int, i);
        lemma_line_end_len();
        utf8::lemma_encode_concat(data, end);
        assert(after.take(i + 2) == data + end);
        utf8::lemma_char_index(after, n as int + 2, i + 2);
        utf8::lemma_encode_concat(data + end, tail);
        assert(after.skip(i + 2) == tail);
        assert forall|k: int| 0 <= k < chunks.drop_first().len() implies is_chunk(
            #[trigger] chunks.drop_first()[k],
        ) by {
            assert(chunks.drop_first()[k] == chunks[k + 1]);
        }
        chunks_are_put_together(chunks.drop_first(), trailer);
    }
}

/// Whatever is appended to a chunked body that can be decoded leaves what it carries as it was.
pub proof fn what_follows_the_last_chunk_is_ignored(body: Seq<char>, more: Seq<char>)
    requires
        http::chunked(body) matches Some(Ok(_)),
    ensures
        http::chunked(body + more) == http::chunked(body),
    decreases body.len(),
{
    let end = http::crlf();
    text::lemma_split_once_len(body, end);
    text_laws::lemma_split_append(body, end, more);
    if let Some((length, after)) = text::split_once(body, end) {
        if let Ok(n) = number::parse_int(text::trim(length), 16, usize::MAX as nat) {
            if n > 0 {
                let i = utf8::char_index(after, n as int)->0;
                let j = utf8::char_index(after, n as int + 2)->0;
                assert(utf8::boundary(after, n as int, i));
                assert(utf8::boundary(after, n as int + 2, j));
                assert((after + more).take(i) == after.take(i));
                assert((after + more).take(j) == after.take(j));
                utf8::lemma_char_index(after + more, n as int, i);
                utf8::lemma_char_index(after + more, n as int + 2, j);
                utf8::lemma_encode_concat(after, more);
                assert((after + more).skip(j) == after.skip(j) + more);
                what_follows_the_last_chunk_is_ignored(after.skip(j), more);
            }
        }
    }
}

pub proof fn lemma_line_end_len()
    ensures
        utf8::byte_len(http::crlf()) == 2,
{
    let end = http::crlf();
    assert(end.take(0) == Seq::<char>::empty());
    assert(end.take(2) == end);
    assert(utf8::byte_len(Seq::<char>::empty()) == 0);
    utf8::lemma_byte_len_take(end, 0);
    utf8::lemma_byte_len_take(end, 1);
}

/// A text within one line.
pub open spec fn is_plain(s: Seq<char>) -> bool {
    text_laws::lacks(s, '\r') && text_laws::lacks(s, '\n')
}

/// A text of lines that are not empty, each with its line end: no line end directly follows
/// another.
pub open spec fn is_block(s: Seq<char>) -> bool {
    &&& s.len() > 0 ==> s.len() >= 2 && s[0] != '\r' && s[s.len() - 2] == '\r' && s.last() == '\n'
    &&& forall|i: int| 0 <= i < s.len() - 1 && #[trigger] s[i] == '\n' ==> s[i + 1] != '\r'
}

pub proof fn lemma_add_line(s: Seq<char>, line: Seq<char>)
    requires
        is_block(s),
        line.len() > 0,
        is_plain(line),
    ensures
        is_block(s + line + http::crlf()),
        (s + line + http::crlf()).len() > 0,
{
    let t = s + line + http::crlf();
    assert forall|i: int| 0 <= i < t.len() - 1 && #[trigger] t[i] == '\n' implies t[i + 1]
        != '\r' by {
        if i < s.len() {
            assert(s[i] == '\n');
            if i + 1 == s.len() {
                assert(t[i + 1] == line[0]);
            } else {
                assert(t[i + 1] == s[i + 1]);
            }
        } else if i < s.len() + line.len() {
            assert(line[i - s.len()] == '\n');
        }
    }
}

pub proof fn lemma_block_ends(s: Seq<char>, body: Seq<char>)
    requires
        is_block(s),
        s.len() > 0,
    ensures
        text::split_once(s + http::crlf() + body, http::crlf() + http::crlf()) == Some(
            (s.take(s.len() - 2), body),
        ),
{
    let whole = s + http::crlf() + body;
    let blank = http::crlf() + http::crlf();
    let at = s.len() - 2;
    assert(whole.subrange(at, at + 4) == blank);
    assert forall|j: int| j < at implies !text::occurs_at(whole, blank, j) by {
        if text::occurs_at(whole, blank, j) {
            let found = whole.subrange(j, j + 4);
            assert(found[1] == '\n' && found[2] == '\r');
            assert(s[j + 1] == '\n' && s[j + 2] == '\r');
        }
    }
    assert(text::first_at(whole, blank, at));
    text::lemma_split_once_at(whole, blank, at);
    assert(whole.take(at) == s.take(at));
    assert(whole.skip(at + 4) == body);
}

/// Names and values that stand within their header lines.
pub open spec fn are_plain(headers: Seq<(Seq<char>, Seq<char>)>) -> bool {
    forall|i: int|
        0 <= i < headers.len() ==> is_plain((#[trigger] headers[i]).0) && is_plain(headers[i].1)
}

proof fn lemma_header_lines(s: Seq<char>, headers: Seq<(Seq<char>, Seq<char>)>)
    requires
        is_block(s),
        s.len() > 0,
        are_plain(headers),
    ensures
        is_block(s + http::header_lines(headers)),
    decreases headers.len(),
{
    reveal_strlit("\r\n");
    reveal_strlit(": ");
    if headers.len() == 0 {
        assert(s + http::header_lines(headers) == s);
    } else {
        let before = headers.drop_last();
        let header = headers.last();
        assert(header == headers[headers.len() - 1]);
        assert forall|i: int| 0 <= i < before.len() implies is_plain((#[trigger] before[i]).0)
            && is_plain(before[i].1) by {
            assert(before[i] == headers[i]);
        }
        lemma_header_lines(s, before);
        let line = header.0 + ": "@ + header.1;
        lemma_add_line(s + http::header_lines(before), line);
        assert(s + http::header_lines(headers) == s + http::header_lines(before) + line
            + http::crlf());
    }
}

/// The first empty line of a request is the one that ends its head, and its body is what follows,
/// if the method, the host, the path and the headers hold no line ends.
pub proof fn request_is_framed(
    method: Seq<char>,
    host: Seq<char>,
    path: Seq<char>,
    body: Seq<char>,
    headers: Seq<(Seq<char>, Seq<char>)>,
)
    requires
        is_plain(method),
        is_plain(host),
        is_plain(path),
        are_plain(headers),
    ensures
        ({
            let head = http::request_head(method, host, path, body, headers);
            text::split_once(head + "\r\n"@ + body, http::crlf() + http::crlf()) == Some(
                (head.take(head.len() - 2), body),
            )
        }),
{
    reveal_strlit("\r\n");
    reveal_strlit(" ");
    reveal_strlit(" HTTP/1.1\r\nHost: ");
    reveal_strlit("\r\nConnection: close\r\n");
    reveal_strlit("Content-Length: 0\r\n");
    reveal_strlit("Content-Type: application/json\r\n");
    reveal_strlit("Content-Length: ");
    let end = http::crlf();
    let version = " HTTP/1.1\r\nHost: "@;
    let close = "\r\nConnection: close\r\n"@;
    let none = "Content-Length: 0\r\n"@;
    let kind = "Content-Type: application/json\r\n"@;
    let empty = Seq::<char>::empty();
    let line1 = method + " "@ + path + version.take(9);
    let line2 = version.skip(11) + host;
    let line3 = close.subrange(2, 19);
    lemma_add_line(empty, line1);
    let text1 = empty + line1 + end;
    lemma_add_line(text1, line2);
    let text2 = text1 + line2 + end;
    lemma_add_line(text2, line3);
    let text3 = text2 + line3 + end;
    assert(version == version.take(9) + end + version.skip(11));
    assert(close == end + line3 + end);
    assert(text3 == method + " "@ + path + version + host + close);
    let text4 = text3 + http::length_lines(body);
    if body.len() == 0 {
        let line = none.take(17);
        lemma_add_line(text3, line);
        assert(none == line + end);
        assert(text4 == text3 + line + end);
    } else {
        let digits = number::decimal(utf8::byte_len(body));
        number::lemma_numeral_digits(utf8::byte_len(body), 10);
        let line4 = kind.take(30);
        let line5 = "Content-Length: "@ + digits;
        lemma_add_line(text3, line4);
        lemma_add_line(text3 + line4 + end, line5);
        assert(kind == line4 + end);
        assert(text4 == text3 + line4 + end + line5 + end);
    }
    lemma_header_lines(text4, headers);
    let head = http::request_head(method, host, path, body, headers);
    assert(head == text4 + http::header_lines(headers));
    assert("\r\n"@ == end);
    lemma_block_ends(head, body);
}

/// Lines that are not empty, each with its line end.
pub open spec fn block(lines: Seq<Seq<char>>) -> Seq<char>
    decreases lines.len(),
{
    if lines.len() == 0 {
        seq![]
    } else {
        lines[0] + http::crlf() + block(lines.drop_first())
    }
}

pub open spec fn are_lines(lines: Seq<Seq<char>>) -> bool {
    forall|i: int| 0 <= i < lines.len() ==> (#[trigger] lines[i]).len() > 0 && is_plain(lines[i])
}

pub proof fn lemma_block_push(lines: Seq<Seq<char>>, line: Seq<char>)
    ensures
        block(lines.push(line)) == block(lines) + line + http::crlf(),
    decreases lines.len(),
{
    reveal_with_fuel(block, 2);
    if lines.len() == 0 {
        assert(lines.push(line).drop_first() == Seq::<Seq<char>>::empty());
        assert(block(lines.push(line)) == line + http::crlf() + block(Seq::<Seq<char>>::empty()));
    } else {
        assert(lines.push(line).drop_first() == lines.drop_first().push(line));
        lemma_block_push(lines.drop_first(), line);
    }
}

pub proof fn lemma_block_lines(lines: Seq<Seq<char>>)
    requires
        lines.len() > 0,
        are_lines(lines),
    ensures
        block(lines).len() > 2,
        text::lines(block(lines).take(block(lines).len() - 2)) == lines,
    decreases lines.len(),
{
    let line = lines[0];
    let rest = lines.drop_first();
    let all = block(lines);
    let head = all.take(all.len() - 2);
    if lines.len() == 1 {
        assert(block(rest) == Seq::<char>::empty());
        assert(head == line);
        text_laws::lemma_no_split(line, '\n');
        assert(text::lines(head) == seq![line]);
        assert(lines == seq![line]);
    } else {
        assert forall|i: int| 0 <= i < rest.len() implies (#[trigger] rest[i]).len() > 0
            && is_plain(rest[i]) by {
            assert(rest[i] == lines[i + 1]);
        }
        lemma_block_lines(rest);
        let tail = block(rest).take(block(rest).len() - 2);
        let first = line + seq!['\r'];
        assert(head == first + seq!['\n'] + tail);
        text_laws::lemma_split_concat(first, seq!['\n'], tail);
        assert(text::strip_cr(first) == line);
        assert(text::lines(head) == seq![line] + text::lines(tail));
        assert(lines == seq![line] + rest);
    }
}

/// A header whose name and value can be told apart again: its name holds no colon, and neither has
/// white space at its ends.
pub open spec fn is_header(header: (Seq<char>, Seq<char>)) -> bool {
    &&& is_plain(header.0)
    &&& is_plain(header.1)
    &&& text_laws::lacks(header.0, ':')
    &&& text_laws::is_trimmed(header.0)
    &&& text_laws::is_trimmed(header.1)
}

/// Headers that can all be told apart again.
pub open spec fn are_headers(headers: Seq<(Seq<char>, Seq<char>)>) -> bool {
    forall|i: int| 0 <= i < headers.len() ==> is_header(#[trigger] headers[i])
}

spec fn header_line(header: (Seq<char>, Seq<char>)) -> Seq<char> {
    header.0 + ": "@ + header.1
}

proof fn lemma_header_line(header: (Seq<char>, Seq<char>))
    requires
        is_header(header),
    ensures
        header_line(header).len() > 0,
        is_plain(header_line(header)),
        http::header_of(header_line(header)) == Some(header),
{
    reveal_strlit(": ");
    let (name, value) = header;
    let after = seq![' '] + value;
    assert(header_line(header) == name + seq![':'] + after);
    text_laws::lemma_split_concat(name, seq![':'], after);
    text_laws::trim_keeps_trimmed_text(name);
    text_laws::trim_keeps_trimmed_text(value);
    assert(after.drop_first() == value);
    assert(text::trim_start(after) == text::trim_start(value));
}

proof fn lemma_header_block(first: Seq<char>, headers: Seq<(Seq<char>, Seq<char>)>) -> (lines: Seq<
    Seq<char>,
>)
    requires
        first.len() > 0,
        is_plain(first),
        are_headers(headers),
    ensures
        lines.len() == headers.len() + 1,
        lines[0] == first,
        are_lines(lines),
        block(lines) == first + http::crlf() + http::header_lines(headers),
        http::headers_of(lines.drop_first()) == headers,
    decreases headers.len(),
{
    reveal_strlit("\r\n");
    if headers.len() == 0 {
        let lines = seq![first];
        lemma_block_push(Seq::empty(), first);
        assert(Seq::empty().push(first) == lines);
        assert(block(lines) == first + http::crlf() + http::header_lines(headers));
        assert(lines.drop_first() == Seq::<Seq<char>>::empty());
        lines
    } else {
        let before = headers.drop_last();
        let header = headers.last();
        assert(header == headers[headers.len() - 1]);
        assert forall|i: int| 0 <= i < before.len() implies is_header(#[trigger] before[i]) by {
            assert(before[i] == headers[i]);
        }
        let done = lemma_header_block(first, before);
        let line = header_line(header);
        let lines = done.push(line);
        lemma_header_line(header);
        lemma_block_push(done, line);
        assert(block(lines) == first + http::crlf() + http::header_lines(headers));
        assert(lines.drop_first().drop_last() == done.drop_first());
        assert(lines.drop_first().last() == line);
        assert(before.push(header) == headers);
        lines
    }
}

pub proof fn lemma_word(a: Seq<char>, b: Seq<char>)
    requires
        a.len() > 0,
        forall|i: int| 0 <= i < a.len() ==> !text::is_white_space(#[trigger] a[i]),
        b.len() > 0 ==> text::is_white_space(b[0]),
    ensures
        text::words(a + b) == seq![a] + text::words(b),
{
    lemma_word_len(a, b);
    assert(text::trim_start(a + b) == a + b) by {
        assert((a + b)[0] == a[0]);
    }
    assert((a + b).take(a.len() as int) == a);
    assert((a + b).skip(a.len() as int) == b);
}

proof fn lemma_word_len(a: Seq<char>, b: Seq<char>)
    requires
        forall|i: int| 0 <= i < a.len() ==> !text::is_white_space(#[trigger] a[i]),
        b.len() > 0 ==> text::is_white_space(b[0]),
    ensures
        text::word_len(a + b) == a.len(),
    decreases a.len(),
{
    if a.len() == 0 {
        assert(a + b == b);
    } else {
        assert((a + b)[0] == a[0]);
        assert((a + b).drop_first() == a.drop_first() + b);
        lemma_word_len(a.drop_first(), b);
    }
}

/// A version of the protocol, as the status line begins with it: a word.
pub open spec fn is_version(version: Seq<char>) -> bool {
    &&& version.len() > 0
    &&& forall|i: int| 0 <= i < version.len() ==> !text::is_white_space(#[trigger] version[i])
}

/// The status line of a response, without its line end.
pub open spec fn status_line(version: Seq<char>, status: u16, reason: Seq<char>) -> Seq<char> {
    version + seq![' '] + number::decimal(status as nat) + seq![' '] + reason
}

proof fn lemma_status_line(version: Seq<char>, status: u16, reason: Seq<char>)
    requires
        is_version(version),
        is_plain(reason),
    ensures
        is_plain(status_line(version, status, reason)),
        text::words(status_line(version, status, reason)).len() >= 2,
        text::words(status_line(version, status, reason))[1] == number::decimal(status as nat),
{
    let digits = number::decimal(status as nat);
    number::lemma_numeral_digits(status as nat, 10);
    let rest = seq![' '] + reason;
    let number = digits + rest;
    let after = seq![' '] + number;
    assert(status_line(version, status, reason) == version + after);
    lemma_word(version, after);
    lemma_word(digits, rest);
    assert(after.drop_first() == number);
    assert(text::trim_start(after) == text::trim_start(number));
    assert(text::trim_start(number) == number);
    assert(text::words(after) == text::words(number));
}

/// A response as it is written: the status line, the headers, an empty line and the body.
pub open spec fn written_response(
    version: Seq<char>,
    status: u16,
    reason: Seq<char>,
    headers: Seq<(Seq<char>, Seq<char>)>,
    body: Seq<char>,
) -> Seq<char> {
    status_line(version, status, reason) + http::crlf() + http::header_lines(headers)
        + http::crlf() + body
}

/// A response that is written, sent as UTF-8 and read again has the same status, headers and body,
/// if no header says that the body is chunked.
pub proof fn response_reads_back(
    version: Seq<char>,
    status: u16,
    reason: Seq<char>,
    headers: Seq<(Seq<char>, Seq<char>)>,
    body: Seq<char>,
)
    requires
        is_version(version),
        is_plain(reason),
        are_headers(headers),
        !http::says_chunked(headers),
    ensures
        http::response_of_bytes(
            vstd::utf8::encode_utf8(written_response(version, status, reason, headers, body)),
        ) == Some(
            Ok::<HttpResponseView, HttpError>(HttpResponseView { status, headers, body }),
        ),
{
    lemma_response_parts(version, status, reason, headers, body);
    number::numeral_reads_back(status as nat, 10, u16::MAX as nat);
    lemma_bytes(written_response(version, status, reason, headers, body));
}

/// A response that is sent as UTF-8, with a body that was cut into chunks, is read with the body
/// that was cut.
pub proof fn chunked_response_reads_back(
    version: Seq<char>,
    status: u16,
    reason: Seq<char>,
    headers: Seq<(Seq<char>, Seq<char>)>,
    chunks: Seq<Chunk>,
    trailer: Seq<char>,
)
    requires
        is_version(version),
        is_plain(reason),
        are_headers(headers),
        http::says_chunked(headers),
        are_chunks(chunks),
    ensures
        http::response_of_bytes(
            vstd::utf8::encode_utf8(
                written_response(version, status, reason, headers, chunked_body(chunks, trailer)),
            ),
        ) == Some(
            Ok::<HttpResponseView, HttpError>(
                HttpResponseView { status, headers, body: joined(chunks) },
            ),
        ),
{
    let body = chunked_body(chunks, trailer);
    lemma_response_parts(version, status, reason, headers, body);
    number::numeral_reads_back(status as nat, 10, u16::MAX as nat);
    chunks_are_put_together(chunks, trailer);
    lemma_bytes(written_response(version, status, reason, headers, body));
}

pub proof fn lemma_bytes(text: Seq<char>)
    requires
        text.len() > 0,
    ensures
        http::response_of_bytes(vstd::utf8::encode_utf8(text)) == http::response_of(text),
{
    assert(text.take(0) == Seq::<char>::empty());
    assert(text.take(text.len() as int) == text);
    utf8::lemma_byte_len_grows(text, 0, text.len() as int);
    vstd::utf8::encode_utf8_valid_utf8(text);
    vstd::utf8::encode_utf8_decode_utf8(text);
    http::lemma_no_empty_line(text);
    lemma_encoded_empty_line(text);
}

proof fn lemma_encoded_empty_line(text: Seq<char>)
    ensures
        text::contains(text, seq!['\r', '\n', '\r', '\n']) ==> utf8::has_empty_line(
            vstd::utf8::encode_utf8(text),
        ),
{
    let blank = seq!['\r', '\n', '\r', '\n'];
    if text::contains(text, blank) {
        let i = choose|i: int| text::occurs_at(text, blank, i);
        let before = text.take(i);
        let after = text.skip(i + 4);
        assert(text == before + blank + after);
        utf8::lemma_encode_concat(before + blank, after);
        utf8::lemma_encode_concat(before, blank);
        lemma_encoded_blank();
        let head = vstd::utf8::encode_utf8(before);
        let tail = vstd::utf8::encode_utf8(after);
        let bytes = seq![13u8, 10u8, 13u8, 10u8];
        let at = head.len() as int;
        assert((head + bytes + tail).subrange(at, at + 4) == bytes);
    }
}

proof fn lemma_encoded_blank()
    ensures
        vstd::utf8::encode_utf8(seq!['\r', '\n', '\r', '\n']) == seq![13u8, 10u8, 13u8, 10u8],
{
    let end = http::crlf();
    let feed = seq!['\n'];
    assert(13u32 & 0x7F == 13 && 10u32 & 0x7F == 10) by (bit_vector);
    assert(feed.drop_first() == Seq::<char>::empty());
    assert(vstd::utf8::encode_utf8(Seq::<char>::empty()) == Seq::<u8>::empty());
    assert(vstd::utf8::encode_utf8(feed) == seq![10u8]);
    assert(end.drop_first() == feed);
    assert(vstd::utf8::encode_utf8(end) == seq![13u8, 10u8]);
    utf8::lemma_encode_concat(end, end);
    assert(end + end == seq!['\r', '\n', '\r', '\n']);
}

/// Bytes without an empty line, whether they are valid UTF-8 or not, are no response, and a sidecar
/// that sends them is worth a restart.
pub proof fn bytes_without_an_empty_line_are_malformed(raw: Seq<u8>)
    requires
        raw.len() > 0,
        !utf8::has_empty_line(raw),
    ensures
        http::response_of_bytes(raw) == Some(
            Err::<HttpResponseView, HttpError>(HttpError::MalformedResponse),
        ),
        retry::is_retryable(HttpError::MalformedResponse.spec_message()),
{
    client_laws::no_response_is_retryable();
}

proof fn lemma_response_parts(
    version: Seq<char>,
    status: u16,
    reason: Seq<char>,
    headers: Seq<(Seq<char>, Seq<char>)>,
    body: Seq<char>,
)
    requires
        is_version(version),
        is_plain(reason),
        are_headers(headers),
    ensures
        ({
            let whole = written_response(version, status, reason, headers, body);
            &&& text::split_once(whole, http::crlf() + http::crlf()) matches Some((head, rest))
            &&& rest == body
            &&& text::lines(head).len() > 0
            &&& text::words(text::lines(head)[0]).len() >= 2
            &&& text::words(text::lines(head)[0])[1] == number::decimal(status as nat)
            &&& http::headers_of(text::lines(head).drop_first()) == headers
        }),
{
    let first = status_line(version, status, reason);
    lemma_status_line(version, status, reason);
    let lines = lemma_header_block(first, headers);
    lemma_block_lines(lines);
    let all = block(lines);
    let empty = Seq::<char>::empty();
    lemma_add_line(empty, first);
    assert(empty + first + http::crlf() == first + http::crlf());
    lemma_header_lines(first + http::crlf(), headers);
    lemma_block_ends(all, body);
    assert(written_response(version, status, reason, headers, body) == all + http::crlf() + body);
}

} // verus!
