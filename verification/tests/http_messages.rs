//! URLs, requests and responses.

use fffq::http::{
    decode_chunked_body, ensure_success, http_post_json, http_request, parse_http_response,
    parse_http_url, parse_response_text, read_chunked_body, read_http_response, HttpError, HttpResponse,
};
use fffq::number::IntError;
use fffq::retry::is_retryable_sidecar_error;

fn response(raw: &str) -> Result<HttpResponse, HttpError> {
    parse_http_response(raw.as_bytes())
}

fn header(name: &str, value: &str) -> (String, String) {
    (name.to_string(), value.to_string())
}

#[test]
fn url_without_a_path_has_the_root_path() {
    let parsed = parse_http_url("http://localhost:80").unwrap();
    assert_eq!((parsed.host.as_str(), parsed.port, parsed.path.as_str()), ("localhost", 80, "/"));
    let parsed = parse_http_url("http://localhost:80/").unwrap();
    assert_eq!(parsed.path, "/");
}

#[test]
fn url_host_ends_at_the_last_colon() {
    let parsed = parse_http_url("http://[::1]:8761/mcp/a:b").unwrap();
    assert_eq!(parsed.host, "[::1]");
    assert_eq!(parsed.port, 8761);
    assert_eq!(parsed.path, "/mcp/a:b");
}

#[test]
fn url_leads_back_to_its_parts() {
    for port in [0u16, 1, 80, 8761, 65535] {
        let url = format!("http://127.0.0.1:{port}/fffq/multi-grep");
        let parsed = parse_http_url(&url).unwrap();
        assert_eq!(parsed.port, port);
        assert_eq!(format!("http://{}:{}{}", parsed.host, parsed.port, parsed.path), url);
    }
}

#[test]
fn unusable_urls_are_refused() {
    let error = |url: &str| parse_http_url(url).unwrap_err();
    assert_eq!(error("https://127.0.0.1:1/"), HttpError::UnsupportedScheme);
    assert_eq!(error("HTTP://127.0.0.1:1/"), HttpError::UnsupportedScheme);
    assert_eq!(error("http://127.0.0.1/a:1"), HttpError::MissingPort);
    assert_eq!(error("http://a:/"), HttpError::BadNumber(IntError::Empty));
    assert_eq!(error("http://a:x/"), HttpError::BadNumber(IntError::InvalidDigit));
    assert_eq!(error("http://a:65536/"), HttpError::BadNumber(IntError::PosOverflow));
    assert_eq!(error("ftp://").message(), "only http:// sidecar URLs are supported");
    assert_eq!(error("http://").message(), "HTTP URL must include an explicit port");
    assert_eq!(error("http://a:x/").message(), "invalid digit found in string");
}

#[test]
fn get_request_has_no_body() {
    let request = http_request("GET", "http://127.0.0.1:54321/fffq/health", None, &[]).unwrap();
    assert_eq!(request.host, "127.0.0.1");
    assert_eq!(request.port, 54321);
    assert_eq!(
        request.text,
        "GET /fffq/health HTTP/1.1\r\nHost: 127.0.0.1\r\nConnection: close\r\nContent-Length: 0\r\n\r\n"
    );
}

#[test]
fn post_request_counts_bytes() {
    let headers = [("Accept", "application/json"), ("Mcp-Session-Id", "s1")];
    let request = http_post_json("http://h:1/mcp", "{\"q\":\"é\"}", &headers).unwrap();
    assert_eq!(
        request.text,
        "POST /mcp HTTP/1.1\r\nHost: h\r\nConnection: close\r\nContent-Type: application/json\r\nContent-Length: 10\r\nAccept: application/json\r\nMcp-Session-Id: s1\r\n\r\n{\"q\":\"é\"}"
    );
    let (_, body) = request.text.split_once("\r\n\r\n").unwrap();
    assert_eq!(body, "{\"q\":\"é\"}");
}

#[test]
fn request_for_an_unusable_url_is_an_error() {
    assert_eq!(http_post_json("http://h/mcp", "{}", &[]).unwrap_err(), HttpError::MissingPort);
}

#[test]
fn response_is_taken_apart() {
    let read = response(
        "HTTP/1.1 200 OK\r\nContent-Type:  text/plain \r\nno colon here\r\nX: a:b\r\n\r\nline\r\n\r\nrest",
    )
    .unwrap();
    assert_eq!(read.status, 200);
    assert_eq!(read.headers, vec![header("Content-Type", "text/plain"), header("X", "a:b")]);
    assert_eq!(read.body, "line\r\n\r\nrest");
}

#[test]
fn response_without_headers_is_read() {
    let read = response("HTTP/1.1 202\r\n\r\n").unwrap();
    assert_eq!(read.status, 202);
    assert!(read.headers.is_empty());
    assert_eq!(read.body, "");
}

#[test]
fn unusable_responses_are_refused() {
    let error = |raw: &str| response(raw).unwrap_err();
    assert_eq!(error(""), HttpError::EmptyResponse);
    assert_eq!(error("HTTP/1.1 200 OK\r\n"), HttpError::MalformedResponse);
    assert_eq!(error("\r\n\r\nbody"), HttpError::MissingStatus);
    assert_eq!(error("HTTP/1.1\r\n\r\n"), HttpError::MissingStatusCode);
    assert_eq!(error("HTTP/1.1 x\r\n\r\n"), HttpError::BadNumber(IntError::InvalidDigit));
    assert_eq!(error("HTTP/1.1 70000\r\n\r\n"), HttpError::BadNumber(IntError::PosOverflow));
    assert_eq!(error("\r\n\r\n").message(), "missing HTTP status");
    assert_eq!(error("HTTP/1.1\r\n\r\n").message(), "missing HTTP status code");
    assert_eq!(error("x").message(), "malformed HTTP response");
    assert!(is_retryable_sidecar_error(&error("x").message()));
    assert!(!is_retryable_sidecar_error(&error("\r\n\r\n").message()));
}

#[test]
fn chunked_response_is_put_together() {
    let read = response(
        "HTTP/1.1 200 OK\r\nTRANSFER-encoding: Chunked\r\n\r\n4\r\nWiki\r\n 5 \r\npedia\r\nB\r\n in chunks.\r\n0\r\nTrailer: x\r\n\r\n",
    )
    .unwrap();
    assert_eq!(read.body, "Wikipedia in chunks.");
}

#[test]
fn chunk_lengths_are_byte_lengths() {
    assert_eq!(decode_chunked_body("2\r\né\r\n4\r\n😀\r\n0\r\n").unwrap(), "é😀");
    assert_eq!(decode_chunked_body("0\r\n").unwrap(), "");
    for size in ["1a", "1A"] {
        let data = "abcdefghijklmnopqrstuvwxyz";
        let body = format!("{size}\r\n{data}\r\n0\r\n");
        assert_eq!(decode_chunked_body(&body).unwrap(), data);
        assert_eq!(decode_chunked_body(&format!("{body}5\r\nmore")).unwrap(), data);
    }
    assert_eq!(decode_chunked_body("+3\r\nabc--0\r\n").unwrap(), "abc");
}

#[test]
fn broken_chunks_are_refused() {
    let error = |body: &str| decode_chunked_body(body).unwrap_err();
    assert_eq!(error("5"), HttpError::MalformedChunkedBody);
    assert_eq!(error("3\r\nabc\r\n"), HttpError::MalformedChunkedBody);
    assert_eq!(error("3\r\nabc\r"), HttpError::TruncatedChunkedBody);
    assert_eq!(error("zz\r\nabc\r\n"), HttpError::BadNumber(IntError::InvalidDigit));
    assert_eq!(error("\r\nabc\r\n"), HttpError::BadNumber(IntError::Empty));
    assert_eq!(
        error("10000000000000000\r\nabc\r\n"),
        HttpError::BadNumber(IntError::PosOverflow)
    );
    assert_eq!(error("5").message(), "malformed chunked body");
    assert_eq!(error("3\r\nabc\r").message(), "truncated chunked body");
}

#[test]
fn chunk_that_cuts_a_character_is_not_read() {
    let head = "HTTP/1.1 200 OK\r\nTransfer-Encoding: chunked\r\n\r\n";
    assert!(read_http_response(format!("{head}1\r\né\r\n0\r\n").as_bytes()).is_none());
    assert!(parse_response_text(&format!("{head}1\r\né\r\n0\r\n")).is_none());
    assert!(read_http_response(format!("{head}ffffffffffffffff\r\nabc").as_bytes()).is_none());
    assert!(read_chunked_body("1\r\né\r\n0\r\n").is_none());
    assert!(read_chunked_body("ffffffffffffffff\r\nabc").is_none());
    assert_eq!(read_chunked_body("2\r\né\r\n0\r\n"), Some(Ok("é".to_string())));
    assert_eq!(read_chunked_body("2"), Some(Err(HttpError::MalformedChunkedBody)));
    let read = read_http_response(format!("{head}2\r\né\r\n0\r\n").as_bytes()).unwrap();
    assert_eq!(read.unwrap().body, "é");
}

#[test]
fn invalid_bytes_are_replaced() {
    let read = read_http_response(b"HTTP/1.1 200 OK\r\n\r\na\xffb").unwrap().unwrap();
    assert_eq!(read.body, "a\u{fffd}b");
    let read = read_http_response("HTTP/1.1 200 OK\r\n\r\naéb".as_bytes()).unwrap().unwrap();
    assert_eq!(read.body, "aéb");
    assert_eq!(read_http_response(b"").unwrap().unwrap_err(), HttpError::EmptyResponse);
}

#[test]
fn bytes_without_an_empty_line_are_malformed() {
    let rests: [&[u8]; 5] = [b"\xff", b"\r\n\xff\r\n", b"\r\n\r\xc3\n", b"HTTP/1.1 200\r\n\xf0\x9f\r\n", b"\n\n"];
    for raw in rests {
        let error = read_http_response(raw).unwrap().unwrap_err();
        assert_eq!(error, HttpError::MalformedResponse);
        assert!(is_retryable_sidecar_error(&error.message()));
    }
}

#[test]
fn error_statuses_are_reported_with_the_body() {
    let with_status = |status: u16| HttpResponse {
        status,
        headers: Vec::new(),
        body: "no such tool".to_string(),
    };
    assert_eq!(ensure_success(&with_status(200)), Ok(()));
    assert_eq!(ensure_success(&with_status(399)), Ok(()));
    assert_eq!(ensure_success(&with_status(400)), Err("HTTP 400: no such tool".to_string()));
    assert_eq!(ensure_success(&with_status(503)), Err("HTTP 503: no such tool".to_string()));
}
