//! Handlers for a few plain routes: echoing a part of the path or a header,
//! and keeping one number.

use crate::http_response::{
    content_length, default_response, octets, HttpResponse, HttpStatusCode, ResponseText,
};
use crate::server::RequestContext;
use crate::text::{decimal, integer_text, parse_i32, parsed_i32, signed_decimal};
use vstd::prelude::*;
use vstd::string::*;

verus! {

/// The value of `key` in `map`; nothing where it has none.
pub open spec fn value_or_empty(map: Map<Seq<char>, Seq<char>>, key: Seq<char>) -> Seq<char> {
    if map.dom().contains(key) {
        map[key]
    } else {
        Seq::empty()
    }
}

/// The response `200 OK` with `body` as its body, of the type `content_type`.
pub open spec fn body_response(content_type: Seq<char>, body: Seq<char>) -> ResponseText {
    ResponseText {
        headers: seq![("Content-Type"@, content_type), (content_length(), decimal(octets(body)))],
        body: Some(body),
        ..default_response()
    }
}

/// The response of `echo_two` to two texts: the one, a `/`, and the other.
pub open spec fn joined(first: Seq<char>, second: Seq<char>) -> Seq<char> {
    first + seq!['/'] + second
}

/// The body that tells the number `data`.
pub open spec fn data_body(data: int) -> Seq<char> {
    "{data:"@ + signed_decimal(data) + seq!['}']
}

/// The number that a request posts: what its variable `number` writes.
pub open spec fn posted_number(variables: Map<Seq<char>, Seq<char>>) -> Option<i32> {
    if variables.dom().contains("number"@) {
        parsed_i32(variables["number"@])
    } else {
        None
    }
}

/// The response `200 OK` with `body` as its body, of the type `content_type`.
fn respond_with(content_type: &str, body: &str) -> (response: HttpResponse)
    ensures
        response@ == body_response(content_type@, body@),
{
    proof {
        reveal_strlit("Content-Type");
        reveal_strlit("Content-Length");
        assert("Content-Type"@[8] != "Content-Length"@[8]);
    }
    let response = HttpResponse::builder().add_header(("Content-Type", content_type)).status_code(
        HttpStatusCode::OK,
    ).body(body).build();
    assert(response@.headers =~= body_response(content_type@, body@).headers);
    response
}

/// Answers with the text that the request has in the place of the variable
/// `to_echo`.
pub fn echo(cx: &RequestContext) -> (response: HttpResponse)
    ensures
        response@ == body_response(
            "text/plain"@,
            value_or_empty(cx.path_variables.as_map(), "to_echo"@),
        ),
{
    let to_echo = match cx.path_variables.get("to_echo") {
        Some(text) => text,
        None => "",
    };
    proof {
        reveal_strlit("");
    }
    assert(to_echo@ =~= value_or_empty(cx.path_variables.as_map(), "to_echo"@));
    respond_with("text/plain", to_echo)
}

/// Answers with the texts that the request has in the places of the variables
/// `to_echo` and `to_echo_two`, with a `/` between them.
pub fn echo_two(cx: &RequestContext) -> (response: HttpResponse)
    ensures
        response@ == body_response(
            "text/plain"@,
            joined(
                value_or_empty(cx.path_variables.as_map(), "to_echo"@),
                value_or_empty(cx.path_variables.as_map(), "to_echo_two"@),
            ),
        ),
{
    proof {
        reveal_strlit("");
        reveal_strlit("/");
    }
    let to_echo = match cx.path_variables.get("to_echo") {
        Some(text) => text,
        None => "",
    };
    let to_echo_two = match cx.path_variables.get("to_echo_two") {
        Some(text) => text,
        None => "",
    };
    let mut body = to_echo.to_owned();
    body.append("/");
    body.append(to_echo_two);
    assert(body@ =~= joined(
        value_or_empty(cx.path_variables.as_map(), "to_echo"@),
        value_or_empty(cx.path_variables.as_map(), "to_echo_two"@),
    ));
    respond_with("text/plain", body.as_str())
}

/// Answers with the value of the header `User-Agent` of the request.
pub fn user_agent(cx: &RequestContext) -> (response: HttpResponse)
    ensures
        response@ == body_response(
            "text/plain"@,
            value_or_empty(cx.http_request.headers@, "User-Agent"@),
        ),
{
    let user_agent_header = match cx.http_request.headers.get("User-Agent") {
        Some(text) => text,
        None => "",
    };
    proof {
        reveal_strlit("");
    }
    assert(user_agent_header@ =~= value_or_empty(cx.http_request.headers@, "User-Agent"@));
    respond_with("text/plain", user_agent_header)
}

/// Reads the number that the request posts in the place of the variable
/// `number`. Where it has one, the answer is `202 Accepted` and the number
/// comes with it, to be kept; else the answer is `400 Bad Request`.
pub fn post_data(cx: &RequestContext) -> (outcome: (Option<i32>, HttpResponse))
    ensures
        outcome.0 == posted_number(cx.path_variables.as_map()),
        outcome.1@ == (ResponseText {
            status: if outcome.0.is_some() {
                HttpStatusCode::Accepted
            } else {
                HttpStatusCode::BadRequest
            },
            ..default_response()
        }),
{
    let number = match cx.path_variables.get("number") {
        Some(number_str) => parse_i32(number_str),
        None => None,
    };
    match number {
        None => (None, HttpResponse::from(HttpStatusCode::BadRequest)),
        Some(number) => (Some(number), HttpResponse::from(HttpStatusCode::Accepted)),
    }
}

/// Answers with the number `data`, written as `{data:` the number `}`.
pub fn get_data(data: i32) -> (response: HttpResponse)
    ensures
        response@ == body_response("application/json"@, data_body(data as int)),
{
    proof {
        reveal_strlit("}");
    }
    let mut body = "{data:".to_owned();
    body.append(integer_text(data).as_str());
    body.append("}");
    assert(body@ =~= data_body(data as int));
    respond_with("application/json", body.as_str())
}

} // verus!
