use http_server::http_error::HttpServerError;
use http_server::http_request::{HttpMethod, HttpRequest, HttpRequestHeader, RequestLine};

#[test]
fn methods_are_read_by_name() {
    assert_eq!(HttpMethod::from_bytes(b"GET"), Some(HttpMethod::GET));
    assert_eq!(HttpMethod::from_bytes(b"POST"), Some(HttpMethod::POST));
    assert_eq!(HttpMethod::from_bytes(b"PUT"), Some(HttpMethod::PUT));
    assert_eq!(HttpMethod::from_bytes(b"DELETE"), Some(HttpMethod::DELETE));
    assert_eq!(HttpMethod::from_bytes(b"OPTION"), Some(HttpMethod::OPTION));
    assert_eq!(HttpMethod::from_bytes(b"HEAD"), Some(HttpMethod::HEAD));
}

#[test]
fn unknown_methods_are_not_read() {
    assert_eq!(HttpMethod::from_bytes(b"get"), None);
    assert_eq!(HttpMethod::from_bytes(b"OPTIONS"), None);
    assert_eq!(HttpMethod::from_bytes(b"PATCH"), None);
    assert_eq!(HttpMethod::from_bytes(b""), None);
    assert_eq!(HttpMethod::from_bytes(b"GET "), None);
    assert_eq!(HttpMethod::from_bytes(b"GE"), None);
}

#[test]
fn methods_are_written_by_name() {
    let methods = [
        (HttpMethod::GET, "GET"),
        (HttpMethod::POST, "POST"),
        (HttpMethod::PUT, "PUT"),
        (HttpMethod::DELETE, "DELETE"),
        (HttpMethod::OPTION, "OPTION"),
        (HttpMethod::HEAD, "HEAD"),
    ];
    for (method, name) in methods {
        assert_eq!(method.to_string(), name);
        assert_eq!(HttpMethod::from_bytes(method.to_string().as_bytes()), Some(method));
    }
}

#[test]
fn default_method_is_get() {
    assert_eq!(HttpMethod::default(), HttpMethod::GET);
}

#[test]
fn request_line_is_read() {
    let line = RequestLine::from_bytes(b"GET /echo/banana HTTP/1.1").unwrap();
    assert_eq!(line.method, HttpMethod::GET);
    assert_eq!(line.path.as_str(), "/echo/banana");
    assert_eq!(line.path.path_segments.len(), 2);
    assert_eq!(line.path.path_segments[0].0, "echo");
    assert_eq!(line.path.path_segments[1].0, "banana");
    assert_eq!(line.http_version.to_string(), "HTTP/1.1");
}

#[test]
fn request_line_target_is_decoded_with_replacement() {
    let line = RequestLine::from_bytes(b"POST /a\xff/\xc3\xa9 HTTP/1.0").unwrap();
    assert_eq!(line.method, HttpMethod::POST);
    assert_eq!(line.path.as_str(), "/a\u{fffd}/é");
    assert_eq!(line.path.path_segments[0].0, "a\u{fffd}");
    assert_eq!(line.path.path_segments[1].0, "é");
}

#[test]
fn request_line_with_two_tokens_is_refused() {
    assert_eq!(
        RequestLine::from_bytes(b"GET /").unwrap_err(),
        HttpServerError::InvalidRequestLineSyntax
    );
}

#[test]
fn request_line_with_four_tokens_is_refused() {
    assert_eq!(
        RequestLine::from_bytes(b"GET / HTTP/1.1 x").unwrap_err(),
        HttpServerError::InvalidRequestLineSyntax
    );
    assert_eq!(
        RequestLine::from_bytes(b"GET  / HTTP/1.1").unwrap_err(),
        HttpServerError::InvalidRequestLineSyntax
    );
    assert_eq!(
        RequestLine::from_bytes(b"GET / HTTP/1.1 ").unwrap_err(),
        HttpServerError::InvalidRequestLineSyntax
    );
}

#[test]
fn request_line_of_nothing_is_refused() {
    assert_eq!(
        RequestLine::from_bytes(b"").unwrap_err(),
        HttpServerError::InvalidRequestLineSyntax
    );
}

#[test]
fn request_line_with_unknown_method_is_refused() {
    assert_eq!(
        RequestLine::from_bytes(b"OPTIONS / HTTP/1.1").unwrap_err(),
        HttpServerError::HttpMethodNotFound
    );
    assert_eq!(
        RequestLine::from_bytes(b"get / HTTP/1.1").unwrap_err(),
        HttpServerError::HttpMethodNotFound
    );
}

#[test]
fn request_line_with_bad_version_is_refused() {
    for version in ["HTTP/1", "HTTP/1.", "HTTP/1.1.0", "HTTP", "HTTP/1/1", "HTTP/.1", "HTTP/one.1"] {
        let line = format!("GET / {}", version);
        assert_eq!(
            RequestLine::from_bytes(line.as_bytes()).unwrap_err(),
            HttpServerError::InvalidHttpVersionFormat
        );
    }
    assert!(RequestLine::from_bytes(b"GET / HTTP/1.1").is_ok());
}

#[test]
fn unknown_method_is_found_before_bad_version() {
    assert_eq!(
        RequestLine::from_bytes(b"FETCH / HTTP").unwrap_err(),
        HttpServerError::HttpMethodNotFound
    );
}

#[test]
fn header_line_is_split_at_the_first_colon() {
    assert_eq!(
        HttpRequestHeader::parse_line("Host: localhost:4221"),
        Some(("Host".to_string(), "localhost:4221".to_string()))
    );
    assert_eq!(
        HttpRequestHeader::parse_line("User-Agent:  probe/1 \t"),
        Some(("User-Agent".to_string(), "probe/1".to_string()))
    );
    assert_eq!(
        HttpRequestHeader::parse_line(" Name :value"),
        Some((" Name ".to_string(), "value".to_string()))
    );
    assert_eq!(HttpRequestHeader::parse_line(":"), Some(("".to_string(), "".to_string())));
    assert_eq!(HttpRequestHeader::parse_line("a:"), Some(("a".to_string(), "".to_string())));
}

#[test]
fn header_line_without_colon_holds_nothing() {
    assert_eq!(HttpRequestHeader::parse_line(""), None);
    assert_eq!(HttpRequestHeader::parse_line("no colon here"), None);
}

#[test]
fn headers_are_read_from_lines() {
    let lines: Vec<&[u8]> = vec![b"Host: a", b"junk", b"Accept: */*", b"", b"Host: b "];
    let headers = HttpRequestHeader::from_bytes(&lines);
    assert_eq!(headers.get("Host"), Some("b"));
    assert_eq!(headers.get("Accept"), Some("*/*"));
    assert_eq!(headers.get("host"), None);
    assert_eq!(headers.get("junk"), None);
}

#[test]
fn headers_of_no_lines_are_none() {
    let lines: Vec<&[u8]> = Vec::new();
    let headers = HttpRequestHeader::from_bytes(&lines);
    assert_eq!(headers.get("Host"), None);
}

#[test]
fn header_values_are_decoded_with_replacement() {
    let lines: Vec<&[u8]> = vec![b"X: a\xffb"];
    let headers = HttpRequestHeader::from_bytes(&lines);
    assert_eq!(headers.get("X"), Some("a\u{fffd}b"));
}

#[test]
fn empty_buffer_is_refused() {
    assert_eq!(
        HttpRequest::from_bytes(b"").unwrap_err(),
        HttpServerError::InvalidRequestLineSyntax
    );
}

#[test]
fn buffer_without_line_end_is_refused() {
    assert_eq!(
        HttpRequest::from_bytes(b"GET / HTTP/1.1").unwrap_err(),
        HttpServerError::InvalidRequestLineSyntax
    );
}

#[test]
fn request_errors_come_from_the_request_line() {
    assert_eq!(
        HttpRequest::from_bytes(b"GET /\r\n\r\n").unwrap_err(),
        HttpServerError::InvalidRequestLineSyntax
    );
    assert_eq!(
        HttpRequest::from_bytes(b"GET / HTTP/1.1 x\r\n\r\n").unwrap_err(),
        HttpServerError::InvalidRequestLineSyntax
    );
    assert_eq!(
        HttpRequest::from_bytes(b"TRACE / HTTP/1.1\r\n\r\n").unwrap_err(),
        HttpServerError::HttpMethodNotFound
    );
    assert_eq!(
        HttpRequest::from_bytes(b"GET / HTTP/1\r\n\r\n").unwrap_err(),
        HttpServerError::InvalidHttpVersionFormat
    );
    assert_eq!(
        HttpRequest::from_bytes(b"GET / HTTP/1.1.0\r\n\r\n").unwrap_err(),
        HttpServerError::InvalidHttpVersionFormat
    );
    assert_eq!(
        HttpRequest::from_bytes(b"GET / HTTP/1.\r\n\r\n").unwrap_err(),
        HttpServerError::InvalidHttpVersionFormat
    );
}

#[test]
fn request_without_headers_is_read() {
    let request = HttpRequest::from_bytes(b"GET / HTTP/1.1\r\n\r\n").unwrap();
    assert_eq!(request.request_line.method, HttpMethod::GET);
    assert_eq!(request.request_line.path.as_str(), "/");
    assert!(request.request_line.path.path_segments.is_empty());
    assert_eq!(request.request_line.http_version.to_string(), "HTTP/1.1");
    assert_eq!(request.headers.get("Host"), None);
}

#[test]
fn request_with_one_line_end_is_read() {
    let request = HttpRequest::from_bytes(b"HEAD /a HTTP/1.1\r\n").unwrap();
    assert_eq!(request.request_line.method, HttpMethod::HEAD);
    assert_eq!(request.headers.get("Host"), None);
}

#[test]
fn request_headers_are_the_lines_up_to_the_empty_line() {
    let request = HttpRequest::from_bytes(
        b"GET /user-agent HTTP/1.1\r\nHost: localhost\r\nUser-Agent: probe/1\r\nAccept: */*\r\n\r\n",
    )
    .unwrap();
    assert_eq!(request.headers.get("Host"), Some("localhost"));
    assert_eq!(request.headers.get("User-Agent"), Some("probe/1"));
    assert_eq!(request.headers.get("Accept"), Some("*/*"));
}

#[test]
fn request_with_one_header_is_read() {
    let request =
        HttpRequest::from_bytes(b"GET /user-agent HTTP/1.1\r\nUser-Agent: probe/1\r\n\r\n").unwrap();
    assert_eq!(request.request_line.path.as_str(), "/user-agent");
    assert_eq!(request.headers.get("User-Agent"), Some("probe/1"));
}

#[test]
fn lines_behind_the_empty_line_are_no_headers() {
    let request = HttpRequest::from_bytes(
        b"POST /a HTTP/1.1\r\nA: 1\r\n\r\nB: 2\r\nC: 3\r\n\r\nD: 4\r\n",
    )
    .unwrap();
    assert_eq!(request.headers.get("A"), Some("1"));
    assert_eq!(request.headers.get("B"), None);
    assert_eq!(request.headers.get("C"), None);
    assert_eq!(request.headers.get("D"), None);
}

#[test]
fn headers_without_an_empty_line_are_read_to_the_last_line() {
    let request = HttpRequest::from_bytes(b"GET / HTTP/1.1\r\nA: 1\r\nB: 2\r\nC: 3").unwrap();
    assert_eq!(request.headers.get("A"), Some("1"));
    assert_eq!(request.headers.get("B"), Some("2"));
    assert_eq!(request.headers.get("C"), None);
}

#[test]
fn empty_line_right_behind_the_request_line_ends_the_headers() {
    let request = HttpRequest::from_bytes(b"GET / HTTP/1.1\r\n\r\nA: 1\r\n\r\n").unwrap();
    assert_eq!(request.headers.get("A"), None);
}

#[test]
fn request_body_after_the_last_line_end_is_ignored() {
    let request = HttpRequest::from_bytes(
        b"POST /data/42 HTTP/1.1\r\nContent-Length: 3\r\nX: y\r\n\r\nabc\0\0\0",
    )
    .unwrap();
    assert_eq!(request.request_line.method, HttpMethod::POST);
    assert_eq!(request.request_line.path.path_segments[1].0, "42");
    assert_eq!(request.headers.get("Content-Length"), Some("3"));
    assert_eq!(request.headers.get("X"), Some("y"));
}

#[test]
fn later_header_of_two_with_one_name_stays() {
    let request = HttpRequest::from_bytes(
        b"GET / HTTP/1.1\r\nA: 1\r\nB: 2\r\nA: 3\r\nlast\r\n\r\n",
    )
    .unwrap();
    assert_eq!(request.headers.get("A"), Some("3"));
    assert_eq!(request.headers.get("B"), Some("2"));
}
