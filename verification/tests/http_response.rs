use http_server::http_response::{HttpResponse, HttpResponseBuilder, HttpStatusCode};
use http_server::http_version::HttpVersion;

fn table() -> Vec<(HttpStatusCode, u32, &'static str, &'static str)> {
    vec![
        (HttpStatusCode::OK, 200, "OK", "Ok"),
        (HttpStatusCode::Created, 201, "Created", "Created"),
        (HttpStatusCode::Accepted, 202, "Accepted", "Accepted"),
        (HttpStatusCode::NoContent, 204, "No Content", "NoContent"),
        (HttpStatusCode::MovedPermanently, 301, "Moved Permanently", "MovedPermanently"),
        (HttpStatusCode::Found, 302, "Found", "Found"),
        (HttpStatusCode::SeeOther, 303, "See Other", "SeeOther"),
        (HttpStatusCode::NotModified, 304, "Not Modified", "NotModified"),
        (HttpStatusCode::TemporaryRedirect, 307, "Temporary Redirect", "TemporaryRedirect"),
        (HttpStatusCode::PermanentRedirect, 308, "Permanent Redirect", "PermanentRedirect"),
        (HttpStatusCode::BadRequest, 400, "Bad Request", "BadRequest"),
        (HttpStatusCode::Unauthorized, 401, "Unauthorized", "Unauthorized"),
        (HttpStatusCode::Forbidden, 403, "Forbidden", "Forbidden"),
        (HttpStatusCode::NotFound, 404, "Not Found", "NotFound"),
        (HttpStatusCode::MethodNotAllowed, 405, "Method Not Allowed", "MethodNotAllowed"),
        (HttpStatusCode::RequestTimeout, 408, "Request Timeout", "RequestTimeout"),
        (HttpStatusCode::Conflict, 409, "Conflict", "Conflict"),
        (HttpStatusCode::Gone, 410, "Gone", "Gone"),
        (HttpStatusCode::PayloadTooLarge, 413, "Payload Too Large", "PayloadTooLarge"),
        (HttpStatusCode::UriTooLong, 414, "URI Too Long", "UriTooLong"),
        (HttpStatusCode::UnsupportedMediaType, 415, "Unsupported Media Type", "UnsupportedMediaType"),
        (HttpStatusCode::RangeNotSatisfiable, 416, "Range Not Satisfiable", "RangeNotSatisfiable"),
        (HttpStatusCode::InternalServerError, 500, "Internal Server Error", "InternalServerError"),
        (HttpStatusCode::NotImplemented, 501, "Not Implemented", "NotImplemented"),
        (HttpStatusCode::BadGateway, 502, "Bad Gateway", "BadGateway"),
        (HttpStatusCode::ServiceUnavailable, 503, "Service Unavailable", "ServiceUnavailable"),
        (HttpStatusCode::GatewayTimeout, 504, "Gateway Timeout", "GatewayTimeout"),
        (HttpStatusCode::HttpVersionNotSupported, 505, "HTTP Version Not Supported", "HttpVersionNotSupported"),
    ]
}

#[test]
fn status_codes_have_their_numbers_and_reasons() {
    let table = table();
    assert_eq!(table.len(), 28);
    for (status, code, reason, _) in table {
        assert_eq!(status.to_int(), code);
        assert_eq!(status.to_string(), reason);
    }
}

#[test]
fn status_codes_are_found_by_number() {
    for (status, code, _, _) in table() {
        assert_eq!(HttpStatusCode::from_int(code), Some(status));
        assert_eq!(HttpStatusCode::from_int(status.to_int()), Some(status));
    }
}

#[test]
fn numbers_of_no_status_are_not_found() {
    let known: Vec<u32> = table().iter().map(|row| row.1).collect();
    for code in 0..1000 {
        if !known.contains(&code) {
            assert_eq!(HttpStatusCode::from_int(code), None);
        }
    }
    assert_eq!(HttpStatusCode::from_int(u32::MAX), None);
}

#[test]
fn status_codes_are_found_by_name() {
    for (status, _, _, name) in table() {
        assert_eq!(HttpStatusCode::from_bytes(name.as_bytes()), Some(status));
    }
    assert_eq!(HttpStatusCode::from_bytes(b"OK"), None);
    assert_eq!(HttpStatusCode::from_bytes(b"Not Found"), None);
    assert_eq!(HttpStatusCode::from_bytes(b"notfound"), None);
    assert_eq!(HttpStatusCode::from_bytes(b"404"), None);
    assert_eq!(HttpStatusCode::from_bytes(b""), None);
}

#[test]
fn default_status_is_ok() {
    assert_eq!(HttpStatusCode::default(), HttpStatusCode::OK);
}

#[test]
fn builder_starts_from_defaults() {
    let response = HttpResponse::builder().build();
    assert_eq!(response.status_code, HttpStatusCode::OK);
    assert_eq!(response.http_version.to_string(), "HTTP/1.1");
    assert!(response.headers.is_empty());
    assert_eq!(response.body, None);
    assert_eq!(response.to_string(), "HTTP/1.1 200 OK \r\n\r\n");

    let response = HttpResponseBuilder::default().build();
    assert_eq!(response.to_string(), "HTTP/1.1 200 OK \r\n\r\n");
    assert_eq!(HttpResponse::default().to_string(), "HTTP/1.1 200 OK \r\n\r\n");
}

#[test]
fn builder_replaces_status_and_version() {
    let response = HttpResponse::builder()
        .status_code(HttpStatusCode::Created)
        .status_code(HttpStatusCode::Gone)
        .http_version(HttpVersion::new("HTTP".to_string(), "1".to_string(), "0".to_string()))
        .build();
    assert_eq!(response.status_code, HttpStatusCode::Gone);
    assert_eq!(response.to_string(), "HTTP/1.0 410 Gone \r\n\r\n");
}

#[test]
fn body_sets_content_length() {
    let response = HttpResponse::builder().body("banana").build();
    assert_eq!(response.body, Some("banana".to_string()));
    assert_eq!(response.headers.get("Content-Length"), Some("6"));
    assert_eq!(response.headers.len(), 1);
}

#[test]
fn content_length_counts_bytes() {
    let response = HttpResponse::builder().body("héllo €").build();
    assert_eq!(response.headers.get("Content-Length"), Some("10"));
    let response = HttpResponse::builder().body("").build();
    assert_eq!(response.headers.get("Content-Length"), Some("0"));
    let text = "x".repeat(1234);
    let response = HttpResponse::builder().body(&text).build();
    assert_eq!(response.headers.get("Content-Length"), Some("1234"));
}

#[test]
fn last_body_sets_content_length() {
    let response = HttpResponse::builder()
        .add_header(("Content-Length", "99"))
        .body("first body")
        .add_header(("Content-Type", "text/plain"))
        .status_code(HttpStatusCode::Accepted)
        .body("second")
        .build();
    assert_eq!(response.body, Some("second".to_string()));
    assert_eq!(response.headers.get("Content-Length"), Some("6"));
    assert_eq!(response.headers.len(), 2);
}

#[test]
fn headers_are_written_in_the_order_in_which_they_came() {
    let response = HttpResponse::builder()
        .add_header(("Zebra", "1"))
        .add_header(("Apple", "2"))
        .add_header(("Mango", "3"))
        .build();
    assert_eq!(
        response.to_string(),
        "HTTP/1.1 200 OK \r\nZebra: 1\r\nApple: 2\r\nMango: 3\r\n\r\n"
    );
}

#[test]
fn header_that_is_added_again_keeps_its_place() {
    let response = HttpResponse::builder()
        .add_header(("A", "1"))
        .add_header(("B", "2"))
        .add_header(("A", "3"))
        .build();
    assert_eq!(response.to_string(), "HTTP/1.1 200 OK \r\nA: 3\r\nB: 2\r\n\r\n");
}

#[test]
fn headers_are_added_in_turn() {
    let response = HttpResponse::builder()
        .add_header(("A", "1"))
        .add_headers(vec![
            ("B".to_string(), "2".to_string()),
            ("A".to_string(), "3".to_string()),
            ("C".to_string(), "4".to_string()),
        ])
        .build();
    assert_eq!(response.to_string(), "HTTP/1.1 200 OK \r\nA: 3\r\nB: 2\r\nC: 4\r\n\r\n");
    let response = HttpResponse::builder().add_headers(Vec::new()).build();
    assert!(response.headers.is_empty());
}

#[test]
fn response_is_written_with_headers_and_body() {
    let response = HttpResponse::builder()
        .add_header(("Content-Type", "text/plain"))
        .status_code(HttpStatusCode::OK)
        .body("banana")
        .build();
    assert_eq!(
        response.to_string(),
        "HTTP/1.1 200 OK \r\nContent-Type: text/plain\r\nContent-Length: 6\r\n\r\nbanana"
    );
    assert_eq!(
        response.to_bytes(),
        b"HTTP/1.1 200 OK \r\nContent-Type: text/plain\r\nContent-Length: 6\r\n\r\nbanana".to_vec()
    );
}

#[test]
fn response_bytes_are_the_text_in_utf8() {
    let response = HttpResponse::builder().body("é").build();
    assert_eq!(response.to_bytes(), response.to_string().into_bytes());
    assert_eq!(
        response.to_bytes(),
        b"HTTP/1.1 200 OK \r\nContent-Length: 2\r\n\r\n\xc3\xa9".to_vec()
    );
}

#[test]
fn every_status_line_has_number_reason_and_a_space_before_the_line_end() {
    for (status, code, reason, _) in table() {
        let response = HttpResponse::from(status);
        assert_eq!(response.to_string(), format!("HTTP/1.1 {} {} \r\n\r\n", code, reason));
    }
}

#[test]
fn response_of_a_status_has_defaults_elsewhere() {
    let response: HttpResponse = HttpStatusCode::NotFound.into();
    assert_eq!(response.status_code, HttpStatusCode::NotFound);
    assert_eq!(response.http_version.to_string(), "HTTP/1.1");
    assert!(response.headers.is_empty());
    assert_eq!(response.body, None);
}

#[test]
fn new_response_has_no_header_and_no_body() {
    let version = HttpVersion::new("HTTP".to_string(), "2".to_string(), "0".to_string());
    let response = HttpResponse::new(HttpStatusCode::NoContent, version);
    assert_eq!(response.status_code, HttpStatusCode::NoContent);
    assert!(response.headers.is_empty());
    assert_eq!(response.body, None);
    assert_eq!(response.to_string(), "HTTP/2.0 204 No Content \r\n\r\n");
}
