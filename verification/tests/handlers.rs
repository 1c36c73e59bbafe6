use http_server::handlers::{echo, echo_two, get_data, post_data, user_agent};
use http_server::http_request::HttpRequest;
use http_server::http_response::HttpStatusCode;
use http_server::server::RequestContext;
use http_server::text_map::TextMap;

fn variables(pairs: &[(&str, &str)]) -> TextMap {
    TextMap::from(
        pairs
            .iter()
            .map(|(name, value)| (name.to_string(), value.to_string()))
            .collect::<Vec<(String, String)>>(),
    )
}

#[test]
fn echo_answers_with_the_variable() {
    let request = HttpRequest::from_bytes(b"GET /echo/banana HTTP/1.1\r\n\r\n").unwrap();
    let context = RequestContext::new(&request, variables(&[("to_echo", "banana")]));
    assert_eq!(
        echo(&context).to_string(),
        "HTTP/1.1 200 OK \r\nContent-Type: text/plain\r\nContent-Length: 6\r\n\r\nbanana"
    );
}

#[test]
fn echo_without_the_variable_answers_with_nothing() {
    let request = HttpRequest::from_bytes(b"GET /echo HTTP/1.1\r\n\r\n").unwrap();
    let context = RequestContext::new(&request, variables(&[("other", "x")]));
    assert_eq!(
        echo(&context).to_string(),
        "HTTP/1.1 200 OK \r\nContent-Type: text/plain\r\nContent-Length: 0\r\n\r\n"
    );
}

#[test]
fn echo_two_answers_with_both_variables() {
    let request = HttpRequest::from_bytes(b"GET /echo/a/b HTTP/1.1\r\n\r\n").unwrap();
    let context =
        RequestContext::new(&request, variables(&[("to_echo", "a"), ("to_echo_two", "bc")]));
    let response = echo_two(&context);
    assert_eq!(response.status_code, HttpStatusCode::OK);
    assert_eq!(response.body, Some("a/bc".to_string()));
    assert_eq!(response.headers.get("Content-Length"), Some("4"));
    assert_eq!(response.headers.get("Content-Type"), Some("text/plain"));

    let context = RequestContext::new(&request, TextMap::new());
    assert_eq!(echo_two(&context).body, Some("/".to_string()));
}

#[test]
fn user_agent_answers_with_the_header() {
    let request =
        HttpRequest::from_bytes(b"GET /user-agent HTTP/1.1\r\nUser-Agent: probe/1\r\n\r\n").unwrap();
    let context = RequestContext::new(&request, TextMap::new());
    assert_eq!(
        user_agent(&context).to_string(),
        "HTTP/1.1 200 OK \r\nContent-Type: text/plain\r\nContent-Length: 7\r\n\r\nprobe/1"
    );
}

#[test]
fn user_agent_without_the_header_answers_with_nothing() {
    let request = HttpRequest::from_bytes(b"GET /user-agent HTTP/1.1\r\n\r\n").unwrap();
    let context = RequestContext::new(&request, TextMap::new());
    let response = user_agent(&context);
    assert_eq!(response.body, Some("".to_string()));
    assert_eq!(response.headers.get("Content-Length"), Some("0"));
}

#[test]
fn posted_number_is_accepted() {
    let request = HttpRequest::from_bytes(b"POST /data/42 HTTP/1.1\r\n\r\n").unwrap();
    let context = RequestContext::new(&request, variables(&[("number", "42")]));
    let (number, response) = post_data(&context);
    assert_eq!(number, Some(42));
    assert_eq!(response.to_string(), "HTTP/1.1 202 Accepted \r\n\r\n");

    let context = RequestContext::new(&request, variables(&[("number", "-7")]));
    assert_eq!(post_data(&context).0, Some(-7));
}

#[test]
fn posted_text_is_a_bad_request() {
    let request = HttpRequest::from_bytes(b"POST /data/x HTTP/1.1\r\n\r\n").unwrap();
    for text in ["x", "", "4 2", "99999999999"] {
        let context = RequestContext::new(&request, variables(&[("number", text)]));
        let (number, response) = post_data(&context);
        assert_eq!(number, None);
        assert_eq!(response.to_string(), "HTTP/1.1 400 Bad Request \r\n\r\n");
    }
    let context = RequestContext::new(&request, TextMap::new());
    let (number, response) = post_data(&context);
    assert_eq!(number, None);
    assert_eq!(response.status_code, HttpStatusCode::BadRequest);
}

#[test]
fn data_is_answered_as_text() {
    assert_eq!(
        get_data(0).to_string(),
        "HTTP/1.1 200 OK \r\nContent-Type: application/json\r\nContent-Length: 8\r\n\r\n{data:0}"
    );
    assert_eq!(get_data(-15).body, Some("{data:-15}".to_string()));
    assert_eq!(get_data(i32::MIN).body, Some("{data:-2147483648}".to_string()));
}
