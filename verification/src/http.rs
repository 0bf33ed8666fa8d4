//! HTTP as the client speaks it: URLs, requests and responses over one connection each.

use crate::number;
use crate::number::IntError;
use crate::text;
use crate::utf8;
use crate::utf8::Offset;
use vstd::prelude::*;

verus! {

/// Why a URL or a response cannot be used.
#[derive(Clone, Copy, Debug, PartialEq, Eq, Structural)]
pub enum HttpError {
    UnsupportedScheme,
    MissingPort,
    BadNumber(IntError),
    EmptyResponse,
    MalformedResponse,
    MissingStatus,
    MissingStatusCode,
    MalformedChunkedBody,
    TruncatedChunkedBody,
}

impl HttpError {
    /// The message of the error.
    pub open spec fn spec_message(self) -> Seq<char> {
        match self {
            HttpError::UnsupportedScheme => "only http:// sidecar URLs are supported"@,
            HttpError::MissingPort => "HTTP URL must include an explicit port"@,
            HttpError::BadNumber(e) => e.spec_message(),
            HttpError::EmptyResponse => "empty HTTP response from sidecar"@,
            HttpError::MalformedResponse => "malformed HTTP response"@,
            HttpError::MissingStatus => "missing HTTP status"@,
            HttpError::MissingStatusCode => "missing HTTP status code"@,
            HttpError::MalformedChunkedBody => "malformed chunked body"@,
            HttpError::TruncatedChunkedBody => "truncated chunked body"@,
        }
    }

    /// The message of the error.
    pub fn message(self) -> (r: String)
        ensures
            r@ == self.spec_message(),
    {
        match self {
            HttpError::UnsupportedScheme => "only http:// sidecar URLs are supported".to_string(),
            HttpError::MissingPort => "HTTP URL must include an explicit port".to_string(),
            HttpError::BadNumber(e) => e.message(),
            HttpError::EmptyResponse => "empty HTTP response from sidecar".to_string(),
            HttpError::MalformedResponse => "malformed HTTP response".to_string(),
            HttpError::MissingStatus => "missing HTTP status".to_string(),
            HttpError::MissingStatusCode => "missing HTTP status code".to_string(),
            HttpError::MalformedChunkedBody => "malformed chunked body".to_string(),
            HttpError::TruncatedChunkedBody => "truncated chunked body".to_string(),
        }
    }
}

/// The parts of an `http://` URL.
#[derive(Debug)]
pub struct HttpUrl {
    pub host: String,
    pub port: u16,
    pub path: String,
}

/// What an [`HttpUrl`] holds.
#[verifier::ext_equal]
pub struct HttpUrlView {
    pub host: Seq<char>,
    pub port: u16,
    pub path: Seq<char>,
}

impl View for HttpUrl {
    type V = HttpUrlView;

    open spec fn view(&self) -> HttpUrlView {
        HttpUrlView { host: self.host@, port: self.port, path: self.path@ }
    }
}

/// The authority of a URL without its scheme, and the path without its leading slash.
pub open spec fn authority_and_path(rest: Seq<char>) -> (Seq<char>, Seq<char>) {
    match text::split_once(rest, seq!['/']) {
        Some((authority, path)) => (authority, path),
        None => (rest, seq![]),
    }
}

/// The parts of `url`: `http://`, the host, a colon and the port, and the path from the first
/// slash on, or a single slash.
pub open spec fn url_parts(url: Seq<char>) -> Result<HttpUrlView, HttpError> {
    if !text::starts_with(url, "http://"@) {
        Err(HttpError::UnsupportedScheme)
    } else {
        let (authority, path) = authority_and_path(url.skip("http://"@.len() as int));
        match text::rsplit_once(authority, seq![':']) {
            None => Err(HttpError::MissingPort),
            Some((host, port)) => match number::parse_int(port, 10, u16::MAX as nat) {
                Err(e) => Err(HttpError::BadNumber(e)),
                Ok(n) => Ok(HttpUrlView { host, port: n as u16, path: seq!['/'] + path }),
            },
        }
    }
}

/// Takes an `http://` URL apart.
pub fn parse_http_url(url: &str) -> (r: Result<HttpUrl, HttpError>)
    ensures
        match r {
            Ok(parts) => url_parts(url@) == Ok::<HttpUrlView, HttpError>(parts@),
            Err(e) => url_parts(url@) == Err::<HttpUrlView, HttpError>(e),
        },
{
    let chars = text::to_chars(url);
    let scheme = text::to_chars("http://");
    if !text::matches_at(chars.as_slice(), scheme.as_slice(), 0) {
        return Err(HttpError::UnsupportedScheme);
    }
    let rest = text::cut(chars.as_slice(), scheme.len(), chars.len());
    assert(rest@ == url@.skip("http://"@.len() as int));
    let slash: [char; 1] = ['/'];
    let colon: [char; 1] = [':'];
    assert(slash@ == seq!['/']);
    assert(colon@ == seq![':']);
    let mut path = String::new();
    path.push('/');
    let authority = match text::split_first(rest, slash.as_slice()) {
        Some((authority, tail)) => {
            path.append(text::to_text(tail).as_str());
            authority
        },
        None => rest,
    };
    assert(path@ == seq!['/'] + authority_and_path(rest@).1);
    match text::split_last(authority, colon.as_slice()) {
        None => Err(HttpError::MissingPort),
        Some((host, port)) => match number::read_int(port, 10, u16::MAX as u64) {
            Err(e) => Err(HttpError::BadNumber(e)),
            Ok(n) => Ok(HttpUrl { host: text::to_text(host), port: n as u16, path }),
        },
    }
}

/// A response: its status, its headers in order, and its decoded body.
#[derive(Debug)]
pub struct HttpResponse {
    pub status: u16,
    pub headers: Vec<(String, String)>,
    pub body: String,
}

/// What an [`HttpResponse`] holds.
#[verifier::ext_equal]
pub struct HttpResponseView {
    pub status: u16,
    pub headers: Seq<(Seq<char>, Seq<char>)>,
    pub body: Seq<char>,
}

/// The names and values that `headers` holds.
pub open spec fn header_texts(headers: Seq<(String, String)>) -> Seq<(Seq<char>, Seq<char>)> {
    headers.map_values(|header: (String, String)| (header.0@, header.1@))
}

impl View for HttpResponse {
    type V = HttpResponseView;

    open spec fn view(&self) -> HttpResponseView {
        HttpResponseView {
            status: self.status,
            headers: header_texts(self.headers@),
            body: self.body@,
        }
    }
}

/// A line end.
pub open spec fn crlf() -> Seq<char> {
    seq!['\r', '\n']
}

/// What a chunked body carries. Each chunk is its length in bytes, in hexadecimal, a line end, the
/// data and two bytes more; a length of zero ends the body. `None` where a length cuts through a
/// character or is too large to be counted with.
pub open spec fn chunked(body: Seq<char>) -> Option<Result<Seq<char>, HttpError>>
    decreases body.len(),
{
    match text::split_once(body, crlf()) {
        None => Some(Err(HttpError::MalformedChunkedBody)),
        Some((length, after)) => match number::parse_int(
            text::trim(length),
            16,
            usize::MAX as nat,
        ) {
            Err(e) => Some(Err(HttpError::BadNumber(e))),
            Ok(n) => if n == 0 {
                Some(Ok(seq![]))
            } else if n + 2 > usize::MAX {
                None
            } else if utf8::byte_len(after) < n + 2 {
                Some(Err(HttpError::TruncatedChunkedBody))
            } else {
                match (
                    utf8::char_index(after, n as int),
                    utf8::char_index(after, n as int + 2),
                ) {
                    (Some(i), Some(j)) => {
                        proof {
                            text::lemma_split_once_len(body, crlf());
                        }
                        match chunked(after.skip(j)) {
                            Some(Ok(rest)) => Some(Ok(after.take(i) + rest)),
                            other => other,
                        }
                    },
                    _ => None,
                }
            },
        },
    }
}

/// Decodes a chunked body; `None` where [`chunked`] is.
fn decode_chunks(body: &[char]) -> (r: Option<Result<String, HttpError>>)
    ensures
        match r {
            None => chunked(body@) is None,
            Some(Ok(data)) => chunked(body@) == Some(Ok::<Seq<char>, HttpError>(data@)),
            Some(Err(e)) => chunked(body@) == Some(Err::<Seq<char>, HttpError>(e)),
        },
{
    let end: [char; 2] = ['\r', '\n'];
    assert(end@ == crlf());
    let mut rest = body;
    let mut out = String::new();
    proof {
        if let Some(Ok(data)) = chunked(body@) {
            assert(out@ + data == data);
        }
    }
    loop
        invariant
            end@ == crlf(),
            chunked(body@) == (match chunked(rest@) {
                Some(Ok(data)) => Some(Ok::<Seq<char>, HttpError>(out@ + data)),
                other => other,
            }),
        decreases rest@.len(),
    {
        let ghost was = rest@;
        proof {
            text::lemma_split_once_len(was, crlf());
        }
        let (length, after) = match text::split_first(rest, end.as_slice()) {
            None => {
                return Some(Err(HttpError::MalformedChunkedBody));
            },
            Some(parts) => parts,
        };
        let n: usize = match number::read_int(text::trimmed(length), 16, usize::MAX as u64) {
            Err(e) => {
                return Some(Err(HttpError::BadNumber(e)));
            },
            Ok(n) => n as usize,
        };
        if n == 0 {
            assert(out@ + Seq::<char>::empty() == out@);
            return Some(Ok(out));
        }
        if n > usize::MAX - 2 {
            return None;
        }
        let j: usize = match utf8::locate(after, n + 2) {
            Offset::Beyond => {
                return Some(Err(HttpError::TruncatedChunkedBody));
            },
            Offset::Inside => {
                return None;
            },
            Offset::At(j) => j,
        };
        let i: usize = match utf8::locate(after, n) {
            Offset::At(i) => i,
            _ => {
                return None;
            },
        };
        let ghost before = out@;
        out.append(text::to_text(text::cut(after, 0, i)).as_str());
        rest = text::cut(after, j, after.len());
        proof {
            assert(after@.take(i as int) == after@.subrange(0, i as int));
            assert(after@.skip(j as int) == rest@);
            if let Some(Ok(data)) = chunked(rest@) {
                assert(before + (after@.take(i as int) + data) == out@ + data);
            }
        }
    }
}

/// Decodes a chunked body. `None` where a length cuts through a character or is too large to be
/// counted with.
pub fn read_chunked_body(body: &str) -> (r: Option<Result<String, HttpError>>)
    ensures
        match r {
            None => chunked(body@) is None,
            Some(Ok(data)) => chunked(body@) == Some(Ok::<Seq<char>, HttpError>(data@)),
            Some(Err(e)) => chunked(body@) == Some(Err::<Seq<char>, HttpError>(e)),
        },
{
    let chars = text::to_chars(body);
    decode_chunks(chars.as_slice())
}

/// Decodes a chunked body.
pub fn decode_chunked_body(body: &str) -> (r: Result<String, HttpError>)
    requires
        chunked(body@) is Some,
    ensures
        match r {
            Ok(data) => chunked(body@) == Some(Ok::<Seq<char>, HttpError>(data@)),
            Err(e) => chunked(body@) == Some(Err::<Seq<char>, HttpError>(e)),
        },
{
    read_chunked_body(body).unwrap()
}

/// The name and the value of a header line: what stands before and after its first colon, without
/// the white space around them.
pub open spec fn header_of(line: Seq<char>) -> Option<(Seq<char>, Seq<char>)> {
    match text::split_once(line, seq![':']) {
        Some((name, value)) => Some((text::trim(name), text::trim(value))),
        None => None,
    }
}

/// The headers among `lines`; a line without a colon is passed over.
pub open spec fn headers_of(lines: Seq<Seq<char>>) -> Seq<(Seq<char>, Seq<char>)>
    decreases lines.len(),
{
    if lines.len() == 0 {
        seq![]
    } else {
        match header_of(lines.last()) {
            Some(header) => headers_of(lines.drop_last()).push(header),
            None => headers_of(lines.drop_last()),
        }
    }
}

/// One of the headers says that the body is chunked.
pub open spec fn says_chunked(headers: Seq<(Seq<char>, Seq<char>)>) -> bool {
    exists|i: int|
        0 <= i < headers.len() && text::same_ignoring_case(
            (#[trigger] headers[i]).0,
            "transfer-encoding"@,
        ) && text::same_ignoring_case(headers[i].1, "chunked"@)
}

/// The response that `text` writes: a status line whose second word is the status, header lines,
/// an empty line and the body. `None` where [`chunked`] is of its body.
pub open spec fn response_of(text: Seq<char>) -> Option<Result<HttpResponseView, HttpError>> {
    match text::split_once(text, crlf() + crlf()) {
        None => Some(Err(HttpError::MalformedResponse)),
        Some((head, body)) => {
            let lines = text::lines(head);
            if lines.len() == 0 {
                Some(Err(HttpError::MissingStatus))
            } else if text::words(lines[0]).len() < 2 {
                Some(Err(HttpError::MissingStatusCode))
            } else {
                match number::parse_int(text::words(lines[0])[1], 10, u16::MAX as nat) {
                    Err(e) => Some(Err(HttpError::BadNumber(e))),
                    Ok(n) => {
                        let status = n as u16;
                        let headers = headers_of(lines.drop_first());
                        if says_chunked(headers) {
                            match chunked(body) {
                                None => None,
                                Some(Err(e)) => Some(Err(e)),
                                Some(Ok(body)) => Some(
                                    Ok(HttpResponseView { status, headers, body }),
                                ),
                            }
                        } else {
                            Some(Ok(HttpResponseView { status, headers, body }))
                        }
                    },
                }
            }
        },
    }
}

/// The response that the bytes `raw` write. Without an empty line it is none; else valid UTF-8 is
/// read as it is, and anything else with what is not valid replaced.
pub open spec fn response_of_bytes(raw: Seq<u8>) -> Option<Result<HttpResponseView, HttpError>> {
    if raw.len() == 0 {
        Some(Err(HttpError::EmptyResponse))
    } else if !utf8::has_empty_line(raw) {
        Some(Err(HttpError::MalformedResponse))
    } else if vstd::utf8::valid_utf8(raw) {
        response_of(vstd::utf8::decode_utf8(raw))
    } else {
        response_of(utf8::lossy_text(raw))
    }
}

/// `r` is what `expected` says, and `None` where `expected` is.
pub open spec fn is_response(
    r: Option<Result<HttpResponse, HttpError>>,
    expected: Option<Result<HttpResponseView, HttpError>>,
) -> bool {
    match r {
        None => expected is None,
        Some(Ok(response)) => expected == Some(Ok::<HttpResponseView, HttpError>(response@)),
        Some(Err(e)) => expected == Some(Err::<HttpResponseView, HttpError>(e)),
    }
}

/// Reads the header lines behind the status line.
fn read_headers(lines: &Vec<&[char]>) -> (r: Vec<(String, String)>)
    requires
        lines@.len() > 0,
    ensures
        header_texts(r@) == headers_of(text::texts(lines@).drop_first()),
{
    let colon: [char; 1] = [':'];
    assert(colon@ == seq![':']);
    let ghost all = text::texts(lines@).drop_first();
    let mut r: Vec<(String, String)> = Vec::new();
    let mut i: usize = 1;
    assert(all.take(0) == Seq::<Seq<char>>::empty());
    assert(header_texts(r@) == headers_of(all.take(0)));
    while i < lines.len()
        invariant
            1 <= i <= lines@.len(),
            colon@ == seq![':'],
            all == text::texts(lines@).drop_first(),
            header_texts(r@) == headers_of(all.take(i - 1)),
        decreases lines@.len() - i,
    {
        let ghost before = header_texts(r@);
        proof {
            assert(all.take(i as int).drop_last() == all.take(i - 1));
            assert(all.take(i as int).last() == lines@[i as int]@);
        }
        if let Some((name, value)) = text::split_first(lines[i], colon.as_slice()) {
            let name = text::to_text(text::trimmed(name));
            let value = text::to_text(text::trimmed(value));
            let ghost header = (name@, value@);
            r.push((name, value));
            assert(header_texts(r@) == before.push(header));
        }
        i += 1;
    }
    assert(all.take(lines@.len() - 1) == all);
    r
}

/// Tells whether one of the headers says that the body is chunked.
fn chunked_by_headers(headers: &Vec<(String, String)>) -> (r: bool)
    ensures
        r == says_chunked(header_texts(headers@)),
{
    let mut i: usize = 0;
    while i < headers.len()
        invariant
            i <= headers@.len(),
            forall|j: int|
                0 <= j < i ==> !(text::same_ignoring_case(
                    (#[trigger] header_texts(headers@)[j]).0,
                    "transfer-encoding"@,
                ) && text::same_ignoring_case(header_texts(headers@)[j].1, "chunked"@)),
        decreases headers@.len() - i,
    {
        let header = &headers[i];
        assert(header_texts(headers@)[i as int] == (header.0@, header.1@));
        if text::equal_ignoring_case(header.0.as_str(), "transfer-encoding")
            && text::equal_ignoring_case(header.1.as_str(), "chunked") {
            return true;
        }
        i += 1;
    }
    false
}

/// Reads the response that `text` writes. `None` where a chunk's length cuts through a character
/// or is too large to be counted with.
pub fn parse_response_text(text: &str) -> (r: Option<Result<HttpResponse, HttpError>>)
    ensures
        is_response(r, response_of(text@)),
{
    let chars = text::to_chars(text);
    let blank: [char; 4] = ['\r', '\n', '\r', '\n'];
    assert(blank@ == crlf() + crlf());
    let (head, body) = match text::split_first(chars.as_slice(), blank.as_slice()) {
        None => {
            return Some(Err(HttpError::MalformedResponse));
        },
        Some(parts) => parts,
    };
    let lines = text::all_lines(head);
    assert(text::texts(lines@).len() == lines@.len());
    if lines.len() == 0 {
        return Some(Err(HttpError::MissingStatus));
    }
    assert(text::texts(lines@)[0] == lines@[0]@);
    let second = match text::next_word(lines[0]) {
        None => {
            return Some(Err(HttpError::MissingStatusCode));
        },
        Some((_, rest)) => match text::next_word(rest) {
            None => {
                return Some(Err(HttpError::MissingStatusCode));
            },
            Some((second, _)) => second,
        },
    };
    assert(text::words(lines@[0]@)[1] == second@);
    let status: u16 = match number::read_int(second, 10, u16::MAX as u64) {
        Err(e) => {
            return Some(Err(HttpError::BadNumber(e)));
        },
        Ok(n) => n as u16,
    };
    let headers = read_headers(&lines);
    let body = if chunked_by_headers(&headers) {
        match decode_chunks(body) {
            None => {
                return None;
            },
            Some(Err(e)) => {
                return Some(Err(e));
            },
            Some(Ok(data)) => data,
        }
    } else {
        text::to_text(body)
    };
    Some(Ok(HttpResponse { status, headers, body }))
}

/// A text without an empty line is no response.
pub proof fn lemma_no_empty_line(text: Seq<char>)
    ensures
        !text::contains(text, seq!['\r', '\n', '\r', '\n']) ==> response_of(text) == Some(
            Err::<HttpResponseView, HttpError>(HttpError::MalformedResponse),
        ),
{
    assert(crlf() + crlf() == seq!['\r', '\n', '\r', '\n']);
    if text::split_once(text, crlf() + crlf()) is Some {
        let i = choose|i: int| text::first_at(text, crlf() + crlf(), i);
        assert(text::occurs_at(text, crlf() + crlf(), i));
    }
}

/// Reads the response that the bytes `raw` write.
pub fn parse_http_response(raw: &[u8]) -> (r: Result<HttpResponse, HttpError>)
    requires
        response_of_bytes(raw@) is Some,
    ensures
        is_response(Some(r), response_of_bytes(raw@)),
{
    if raw.len() == 0 {
        return Err(HttpError::EmptyResponse);
    }
    let text = utf8::text_of_bytes(raw);
    proof {
        lemma_no_empty_line(text@);
    }
    parse_response_text(text.as_str()).unwrap()
}

/// Reads the response that the bytes `raw` write. `None` where a chunk's length cuts through a
/// character or is too large to be counted with.
pub fn read_http_response(raw: &[u8]) -> (r: Option<Result<HttpResponse, HttpError>>)
    ensures
        is_response(r, response_of_bytes(raw@)),
{
    if raw.len() == 0 {
        return Some(parse_http_response(raw));
    }
    let text = utf8::text_of_bytes(raw);
    proof {
        lemma_no_empty_line(text@);
    }
    if parse_response_text(text.as_str()).is_some() {
        Some(parse_http_response(raw))
    } else {
        None
    }
}

/// A request, ready to be written to a connection to `host` and `port`.
#[derive(Debug)]
pub struct HttpRequest {
    pub host: String,
    pub port: u16,
    pub text: String,
}

/// What an [`HttpRequest`] holds.
#[verifier::ext_equal]
pub struct HttpRequestView {
    pub host: Seq<char>,
    pub port: u16,
    pub text: Seq<char>,
}

impl View for HttpRequest {
    type V = HttpRequestView;

    open spec fn view(&self) -> HttpRequestView {
        HttpRequestView { host: self.host@, port: self.port, text: self.text@ }
    }
}

/// The names and values of borrowed headers.
pub open spec fn extra_texts(headers: Seq<(&str, &str)>) -> Seq<(Seq<char>, Seq<char>)> {
    headers.map_values(|header: (&str, &str)| (header.0@, header.1@))
}

/// The header lines for `headers`.
pub open spec fn header_lines(headers: Seq<(Seq<char>, Seq<char>)>) -> Seq<char>
    decreases headers.len(),
{
    if headers.len() == 0 {
        seq![]
    } else {
        header_lines(headers.drop_last()) + headers.last().0 + ": "@ + headers.last().1 + "\r\n"@
    }
}

/// The header lines that describe `body`.
pub open spec fn length_lines(body: Seq<char>) -> Seq<char> {
    if body.len() == 0 {
        "Content-Length: 0\r\n"@
    } else {
        "Content-Type: application/json\r\n"@ + "Content-Length: "@ + number::decimal(
            utf8::byte_len(body),
        ) + "\r\n"@
    }
}

/// The head of a request, without the empty line that ends it.
pub open spec fn request_head(
    method: Seq<char>,
    host: Seq<char>,
    path: Seq<char>,
    body: Seq<char>,
    headers: Seq<(Seq<char>, Seq<char>)>,
) -> Seq<char> {
    method + " "@ + path + " HTTP/1.1\r\nHost: "@ + host + "\r\nConnection: close\r\n"@
        + length_lines(body) + header_lines(headers)
}

/// The request for `method` at `url`.
pub open spec fn request_of(
    method: Seq<char>,
    url: Seq<char>,
    body: Seq<char>,
    headers: Seq<(Seq<char>, Seq<char>)>,
) -> Result<HttpRequestView, HttpError> {
    match url_parts(url) {
        Err(e) => Err(e),
        Ok(parts) => Ok(
            HttpRequestView {
                host: parts.host,
                port: parts.port,
                text: request_head(method, parts.host, parts.path, body, headers) + "\r\n"@ + body,
            },
        ),
    }
}

/// Builds the request for `method` at `url`; no body is an empty one.
pub fn http_request(
    method: &str,
    url: &str,
    body: Option<&str>,
    extra_headers: &[(&str, &str)],
) -> (r: Result<HttpRequest, HttpError>)
    ensures
        ({
            let sent = match body {
                Some(body) => body@,
                None => seq![],
            };
            let expected = request_of(method@, url@, sent, extra_texts(extra_headers@));
            match r {
                Ok(request) => expected == Ok::<HttpRequestView, HttpError>(request@),
                Err(e) => expected == Err::<HttpRequestView, HttpError>(e),
            }
        }),
{
    let parsed = match parse_http_url(url) {
        Ok(parsed) => parsed,
        Err(e) => {
            return Err(e);
        },
    };
    let empty = String::new();
    let sent: &str = match body {
        Some(body) => body,
        None => empty.as_str(),
    };
    let mut request = String::new();
    request.append(method);
    request.append(" ");
    request.append(parsed.path.as_str());
    request.append(" HTTP/1.1\r\nHost: ");
    request.append(parsed.host.as_str());
    request.append("\r\nConnection: close\r\n");
    let ghost start = request@;
    if sent.is_empty() {
        request.append("Content-Length: 0\r\n");
    } else {
        request.append("Content-Type: application/json\r\n");
        request.append("Content-Length: ");
        request.append(number::decimal_text(sent.as_bytes().len() as u64).as_str());
        request.append("\r\n");
    }
    let ghost described = request@;
    assert(described == start + length_lines(sent@));
    let mut i: usize = 0;
    assert(extra_texts(extra_headers@).take(0) == Seq::<(Seq<char>, Seq<char>)>::empty());
    assert(request@ == described + header_lines(extra_texts(extra_headers@).take(0)));
    while i < extra_headers.len()
        invariant
            i <= extra_headers@.len(),
            request@ == described + header_lines(extra_texts(extra_headers@).take(i as int)),
        decreases extra_headers@.len() - i,
    {
        let ghost done = extra_texts(extra_headers@).take(i as int);
        let ghost next = extra_texts(extra_headers@).take(i + 1);
        let header = extra_headers[i];
        assert(next.drop_last() == done);
        assert(next.last() == (header.0@, header.1@));
        request.append(header.0);
        request.append(": ");
        request.append(header.1);
        request.append("\r\n");
        i += 1;
        assert(request@ == described + header_lines(next));
    }
    assert(extra_texts(extra_headers@).take(i as int) == extra_texts(extra_headers@));
    request.append("\r\n");
    request.append(sent);
    proof {
        let head = request_head(
            method@,
            parsed.host@,
            parsed.path@,
            sent@,
            extra_texts(extra_headers@),
        );
        assert(request@ == head + "\r\n"@ + sent@);
    }
    Ok(HttpRequest { host: parsed.host, port: parsed.port, text: request })
}

/// Builds the request that posts the JSON text `body` to `url`.
pub fn http_post_json(url: &str, body: &str, headers: &[(&str, &str)]) -> (r: Result<
    HttpRequest,
    HttpError,
>)
    ensures
        match r {
            Ok(request) => request_of("POST"@, url@, body@, extra_texts(headers@)) == Ok::<
                HttpRequestView,
                HttpError,
            >(request@),
            Err(e) => request_of("POST"@, url@, body@, extra_texts(headers@)) == Err::<
                HttpRequestView,
                HttpError,
            >(e),
        },
{
    http_request("POST", url, Some(body), headers)
}

/// What is wrong with a response of this status: nothing below 400.
pub open spec fn status_error(response: HttpResponseView) -> Option<Seq<char>> {
    if response.status >= 400 {
        Some("HTTP "@ + number::decimal(response.status as nat) + ": "@ + response.body)
    } else {
        None
    }
}

/// Refuses a response whose status is an error.
pub fn ensure_success(response: &HttpResponse) -> (r: Result<(), String>)
    ensures
        match r {
            Ok(()) => status_error(response@) is None,
            Err(message) => status_error(response@) == Some(message@),
        },
{
    if response.status >= 400 {
        let mut message = "HTTP ".to_string();
        message.append(number::decimal_text(response.status as u64).as_str());
        message.append(": ");
        message.append(response.body.as_str());
        Err(message)
    } else {
        Ok(())
    }
}

} // verus!
