//! The response: its status, the builder that puts one together, and the
//! bytes that go out.

use crate::helper::bytes_eq;
use crate::http_version::{version_line, HttpVersion, VersionText};
use crate::text::{decimal, decimal_text};
use crate::text_map::{keys_distinct, lemma_put, pair_texts, put, to_map, Entry, TextMap};
use vstd::prelude::*;
use vstd::std_specs::convert::FromSpecImpl;
use vstd::string::*;
use vstd::utf8::*;

verus! {

/// The headers of a response, in the order in which they were added.
pub type HttpResponseHeader = TextMap;

/// The status codes that the server can answer with.
#[derive(Debug, Clone, Copy, PartialEq, Eq, Structural)]
pub enum HttpStatusCode {
    OK,
    Created,
    Accepted,
    NoContent,
    MovedPermanently,
    Found,
    SeeOther,
    NotModified,
    TemporaryRedirect,
    PermanentRedirect,
    BadRequest,
    Unauthorized,
    Forbidden,
    NotFound,
    MethodNotAllowed,
    RequestTimeout,
    Conflict,
    Gone,
    PayloadTooLarge,
    UriTooLong,
    UnsupportedMediaType,
    RangeNotSatisfiable,
    InternalServerError,
    NotImplemented,
    BadGateway,
    ServiceUnavailable,
    GatewayTimeout,
    HttpVersionNotSupported,
}

/// A response.
pub struct HttpResponse {
    pub status_code: HttpStatusCode,
    pub http_version: HttpVersion,
    pub headers: HttpResponseHeader,
    pub body: Option<String>,
}

/// Puts a response together, step by step.
pub struct HttpResponseBuilder {
    status_code: HttpStatusCode,
    http_version: HttpVersion,
    headers: HttpResponseHeader,
    body: Option<String>,
}

/// What a response says.
pub struct ResponseText {
    pub status: HttpStatusCode,
    pub version: VersionText,
    /// The headers, in the order in which they were added.
    pub headers: Seq<Entry>,
    pub body: Option<Seq<char>>,
}

/// The status with the number `code`, if there is one.
pub open spec fn status_of_code(code: int) -> Option<HttpStatusCode> {
    if code == 200 {
        Some(HttpStatusCode::OK)
    } else if code == 201 {
        Some(HttpStatusCode::Created)
    } else if code == 202 {
        Some(HttpStatusCode::Accepted)
    } else if code == 204 {
        Some(HttpStatusCode::NoContent)
    } else if code == 301 {
        Some(HttpStatusCode::MovedPermanently)
    } else if code == 302 {
        Some(HttpStatusCode::Found)
    } else if code == 303 {
        Some(HttpStatusCode::SeeOther)
    } else if code == 304 {
        Some(HttpStatusCode::NotModified)
    } else if code == 307 {
        Some(HttpStatusCode::TemporaryRedirect)
    } else if code == 308 {
        Some(HttpStatusCode::PermanentRedirect)
    } else if code == 400 {
        Some(HttpStatusCode::BadRequest)
    } else if code == 401 {
        Some(HttpStatusCode::Unauthorized)
    } else if code == 403 {
        Some(HttpStatusCode::Forbidden)
    } else if code == 404 {
        Some(HttpStatusCode::NotFound)
    } else if code == 405 {
        Some(HttpStatusCode::MethodNotAllowed)
    } else if code == 408 {
        Some(HttpStatusCode::RequestTimeout)
    } else if code == 409 {
        Some(HttpStatusCode::Conflict)
    } else if code == 410 {
        Some(HttpStatusCode::Gone)
    } else if code == 413 {
        Some(HttpStatusCode::PayloadTooLarge)
    } else if code == 414 {
        Some(HttpStatusCode::UriTooLong)
    } else if code == 415 {
        Some(HttpStatusCode::UnsupportedMediaType)
    } else if code == 416 {
        Some(HttpStatusCode::RangeNotSatisfiable)
    } else if code == 500 {
        Some(HttpStatusCode::InternalServerError)
    } else if code == 501 {
        Some(HttpStatusCode::NotImplemented)
    } else if code == 502 {
        Some(HttpStatusCode::BadGateway)
    } else if code == 503 {
        Some(HttpStatusCode::ServiceUnavailable)
    } else if code == 504 {
        Some(HttpStatusCode::GatewayTimeout)
    } else if code == 505 {
        Some(HttpStatusCode::HttpVersionNotSupported)
    } else {
        None
    }
}

/// The status whose name `bytes` spell, if there is one.
pub open spec fn status_named(bytes: Seq<u8>) -> Option<HttpStatusCode> {
    if bytes == encode_utf8(HttpStatusCode::OK.ident()) {
        Some(HttpStatusCode::OK)
    } else if bytes == encode_utf8(HttpStatusCode::Created.ident()) {
        Some(HttpStatusCode::Created)
    } else if bytes == encode_utf8(HttpStatusCode::Accepted.ident()) {
        Some(HttpStatusCode::Accepted)
    } else if bytes == encode_utf8(HttpStatusCode::NoContent.ident()) {
        Some(HttpStatusCode::NoContent)
    } else if bytes == encode_utf8(HttpStatusCode::MovedPermanently.ident()) {
        Some(HttpStatusCode::MovedPermanently)
    } else if bytes == encode_utf8(HttpStatusCode::Found.ident()) {
        Some(HttpStatusCode::Found)
    } else if bytes == encode_utf8(HttpStatusCode::SeeOther.ident()) {
        Some(HttpStatusCode::SeeOther)
    } else if bytes == encode_utf8(HttpStatusCode::NotModified.ident()) {
        Some(HttpStatusCode::NotModified)
    } else if bytes == encode_utf8(HttpStatusCode::TemporaryRedirect.ident()) {
        Some(HttpStatusCode::TemporaryRedirect)
    } else if bytes == encode_utf8(HttpStatusCode::PermanentRedirect.ident()) {
        Some(HttpStatusCode::PermanentRedirect)
    } else if bytes == encode_utf8(HttpStatusCode::BadRequest.ident()) {
        Some(HttpStatusCode::BadRequest)
    } else if bytes == encode_utf8(HttpStatusCode::Unauthorized.ident()) {
        Some(HttpStatusCode::Unauthorized)
    } else if bytes == encode_utf8(HttpStatusCode::Forbidden.ident()) {
        Some(HttpStatusCode::Forbidden)
    } else if bytes == encode_utf8(HttpStatusCode::NotFound.ident()) {
        Some(HttpStatusCode::NotFound)
    } else if bytes == encode_utf8(HttpStatusCode::MethodNotAllowed.ident()) {
        Some(HttpStatusCode::MethodNotAllowed)
    } else if bytes == encode_utf8(HttpStatusCode::RequestTimeout.ident()) {
        Some(HttpStatusCode::RequestTimeout)
    } else if bytes == encode_utf8(HttpStatusCode::Conflict.ident()) {
        Some(HttpStatusCode::Conflict)
    } else if bytes == encode_utf8(HttpStatusCode::Gone.ident()) {
        Some(HttpStatusCode::Gone)
    } else if bytes == encode_utf8(HttpStatusCode::PayloadTooLarge.ident()) {
        Some(HttpStatusCode::PayloadTooLarge)
    } else if bytes == encode_utf8(HttpStatusCode::UriTooLong.ident()) {
        Some(HttpStatusCode::UriTooLong)
    } else if bytes == encode_utf8(HttpStatusCode::UnsupportedMediaType.ident()) {
        Some(HttpStatusCode::UnsupportedMediaType)
    } else if bytes == encode_utf8(HttpStatusCode::RangeNotSatisfiable.ident()) {
        Some(HttpStatusCode::RangeNotSatisfiable)
    } else if bytes == encode_utf8(HttpStatusCode::InternalServerError.ident()) {
        Some(HttpStatusCode::InternalServerError)
    } else if bytes == encode_utf8(HttpStatusCode::NotImplemented.ident()) {
        Some(HttpStatusCode::NotImplemented)
    } else if bytes == encode_utf8(HttpStatusCode::BadGateway.ident()) {
        Some(HttpStatusCode::BadGateway)
    } else if bytes == encode_utf8(HttpStatusCode::ServiceUnavailable.ident()) {
        Some(HttpStatusCode::ServiceUnavailable)
    } else if bytes == encode_utf8(HttpStatusCode::GatewayTimeout.ident()) {
        Some(HttpStatusCode::GatewayTimeout)
    } else if bytes == encode_utf8(HttpStatusCode::HttpVersionNotSupported.ident()) {
        Some(HttpStatusCode::HttpVersionNotSupported)
    } else {
        None
    }
}

/// The response that nothing has been said about yet: `200 OK`, `HTTP/1.1`, no
/// header and no body.
pub open spec fn default_response() -> ResponseText {
    ResponseText {
        status: HttpStatusCode::OK,
        version: VersionText { name: "HTTP"@, major: "1"@, minor: "1"@ },
        headers: Seq::empty(),
        body: None,
    }
}

/// `headers` after putting each of `added` in turn.
pub open spec fn put_all(headers: Seq<Entry>, added: Seq<Entry>) -> Seq<Entry>
    decreases added.len(),
{
    if added.len() == 0 {
        headers
    } else {
        put(put_all(headers, added.drop_last()), added.last().0, added.last().1)
    }
}

/// `response` with the header `name` set to `value`: in the place of the value
/// that it had, or behind the other headers where it had none.
pub open spec fn with_header(response: ResponseText, name: Seq<char>, value: Seq<char>) -> ResponseText {
    ResponseText { headers: put(response.headers, name, value), ..response }
}

/// `response` with the body `body`, and with the header `Content-Length` set
/// to the number of bytes of `body`, in decimal.
pub open spec fn with_body(response: ResponseText, body: Seq<char>) -> ResponseText {
    ResponseText {
        body: Some(body),
        ..with_header(response, content_length(), decimal(octets(body)))
    }
}

/// The name of the header that tells how long the body is.
pub open spec fn content_length() -> Seq<char> {
    "Content-Length"@
}

/// The number of bytes that `text` takes when it is sent.
pub open spec fn octets(text: Seq<char>) -> nat {
    encode_utf8(text).len()
}

/// The first line of a response: the version, the number of the status and
/// its reason, each followed by a space, and the line end.
pub open spec fn status_line(version: VersionText, status: HttpStatusCode) -> Seq<char> {
    version_line(version) + seq![' '] + decimal(status.code() as nat) + seq![' '] + status.reason()
        + seq![' ', '\r', '\n']
}

/// One line for each header, in order: the name, a colon and a space, the
/// value, and the line end.
pub open spec fn header_block(headers: Seq<Entry>) -> Seq<char>
    decreases headers.len(),
{
    if headers.len() == 0 {
        Seq::empty()
    } else {
        header_block(headers.drop_last()) + headers.last().0 + seq![':', ' '] + headers.last().1
            + seq!['\r', '\n']
    }
}

/// The text of the body; nothing where there is none.
pub open spec fn body_text(body: Option<Seq<char>>) -> Seq<char> {
    match body {
        Some(text) => text,
        None => Seq::empty(),
    }
}

/// The response as it is sent: the status line, the headers, an empty line,
/// and the body.
pub open spec fn wire_text(response: ResponseText) -> Seq<char> {
    status_line(response.version, response.status) + header_block(response.headers) + seq![
        '\r',
        '\n',
    ] + body_text(response.body)
}

impl HttpStatusCode {
    /// The number of the status.
    pub open spec fn code(self) -> int {
        match self {
            HttpStatusCode::OK => 200,
            HttpStatusCode::Created => 201,
            HttpStatusCode::Accepted => 202,
            HttpStatusCode::NoContent => 204,
            HttpStatusCode::MovedPermanently => 301,
            HttpStatusCode::Found => 302,
            HttpStatusCode::SeeOther => 303,
            HttpStatusCode::NotModified => 304,
            HttpStatusCode::TemporaryRedirect => 307,
            HttpStatusCode::PermanentRedirect => 308,
            HttpStatusCode::BadRequest => 400,
            HttpStatusCode::Unauthorized => 401,
            HttpStatusCode::Forbidden => 403,
            HttpStatusCode::NotFound => 404,
            HttpStatusCode::MethodNotAllowed => 405,
            HttpStatusCode::RequestTimeout => 408,
            HttpStatusCode::Conflict => 409,
            HttpStatusCode::Gone => 410,
            HttpStatusCode::PayloadTooLarge => 413,
            HttpStatusCode::UriTooLong => 414,
            HttpStatusCode::UnsupportedMediaType => 415,
            HttpStatusCode::RangeNotSatisfiable => 416,
            HttpStatusCode::InternalServerError => 500,
            HttpStatusCode::NotImplemented => 501,
            HttpStatusCode::BadGateway => 502,
            HttpStatusCode::ServiceUnavailable => 503,
            HttpStatusCode::GatewayTimeout => 504,
            HttpStatusCode::HttpVersionNotSupported => 505,
        }
    }

    /// The reason phrase of the status.
    pub open spec fn reason(self) -> Seq<char> {
        match self {
            HttpStatusCode::OK => "OK"@,
            HttpStatusCode::Created => "Created"@,
            HttpStatusCode::Accepted => "Accepted"@,
            HttpStatusCode::NoContent => "No Content"@,
            HttpStatusCode::MovedPermanently => "Moved Permanently"@,
            HttpStatusCode::Found => "Found"@,
            HttpStatusCode::SeeOther => "See Other"@,
            HttpStatusCode::NotModified => "Not Modified"@,
            HttpStatusCode::TemporaryRedirect => "Temporary Redirect"@,
            HttpStatusCode::PermanentRedirect => "Permanent Redirect"@,
            HttpStatusCode::BadRequest => "Bad Request"@,
            HttpStatusCode::Unauthorized => "Unauthorized"@,
            HttpStatusCode::Forbidden => "Forbidden"@,
            HttpStatusCode::NotFound => "Not Found"@,
            HttpStatusCode::MethodNotAllowed => "Method Not Allowed"@,
            HttpStatusCode::RequestTimeout => "Request Timeout"@,
            HttpStatusCode::Conflict => "Conflict"@,
            HttpStatusCode::Gone => "Gone"@,
            HttpStatusCode::PayloadTooLarge => "Payload Too Large"@,
            HttpStatusCode::UriTooLong => "URI Too Long"@,
            HttpStatusCode::UnsupportedMediaType => "Unsupported Media Type"@,
            HttpStatusCode::RangeNotSatisfiable => "Range Not Satisfiable"@,
            HttpStatusCode::InternalServerError => "Internal Server Error"@,
            HttpStatusCode::NotImplemented => "Not Implemented"@,
            HttpStatusCode::BadGateway => "Bad Gateway"@,
            HttpStatusCode::ServiceUnavailable => "Service Unavailable"@,
            HttpStatusCode::GatewayTimeout => "Gateway Timeout"@,
            HttpStatusCode::HttpVersionNotSupported => "HTTP Version Not Supported"@,
        }
    }

    /// The name of the status.
    pub open spec fn ident(self) -> Seq<char> {
        match self {
            HttpStatusCode::OK => "Ok"@,
            HttpStatusCode::Created => "Created"@,
            HttpStatusCode::Accepted => "Accepted"@,
            HttpStatusCode::NoContent => "NoContent"@,
            HttpStatusCode::MovedPermanently => "MovedPermanently"@,
            HttpStatusCode::Found => "Found"@,
            HttpStatusCode::SeeOther => "SeeOther"@,
            HttpStatusCode::NotModified => "NotModified"@,
            HttpStatusCode::TemporaryRedirect => "TemporaryRedirect"@,
            HttpStatusCode::PermanentRedirect => "PermanentRedirect"@,
            HttpStatusCode::BadRequest => "BadRequest"@,
            HttpStatusCode::Unauthorized => "Unauthorized"@,
            HttpStatusCode::Forbidden => "Forbidden"@,
            HttpStatusCode::NotFound => "NotFound"@,
            HttpStatusCode::MethodNotAllowed => "MethodNotAllowed"@,
            HttpStatusCode::RequestTimeout => "RequestTimeout"@,
            HttpStatusCode::Conflict => "Conflict"@,
            HttpStatusCode::Gone => "Gone"@,
            HttpStatusCode::PayloadTooLarge => "PayloadTooLarge"@,
            HttpStatusCode::UriTooLong => "UriTooLong"@,
            HttpStatusCode::UnsupportedMediaType => "UnsupportedMediaType"@,
            HttpStatusCode::RangeNotSatisfiable => "RangeNotSatisfiable"@,
            HttpStatusCode::InternalServerError => "InternalServerError"@,
            HttpStatusCode::NotImplemented => "NotImplemented"@,
            HttpStatusCode::BadGateway => "BadGateway"@,
            HttpStatusCode::ServiceUnavailable => "ServiceUnavailable"@,
            HttpStatusCode::GatewayTimeout => "GatewayTimeout"@,
            HttpStatusCode::HttpVersionNotSupported => "HttpVersionNotSupported"@,
        }
    }

    /// The status whose name `bytes` spell, if there is one.
    pub fn from_bytes(bytes: &[u8]) -> (status: Option<HttpStatusCode>)
        ensures
            status == status_named(bytes@),
    {
        if bytes_eq(bytes, "Ok".as_bytes()) {
            Some(HttpStatusCode::OK)
        } else if bytes_eq(bytes, "Created".as_bytes()) {
            Some(HttpStatusCode::Created)
        } else if bytes_eq(bytes, "Accepted".as_bytes()) {
            Some(HttpStatusCode::Accepted)
        } else if bytes_eq(bytes, "NoContent".as_bytes()) {
            Some(HttpStatusCode::NoContent)
        } else if bytes_eq(bytes, "MovedPermanently".as_bytes()) {
            Some(HttpStatusCode::MovedPermanently)
        } else if bytes_eq(bytes, "Found".as_bytes()) {
            Some(HttpStatusCode::Found)
        } else if bytes_eq(bytes, "SeeOther".as_bytes()) {
            Some(HttpStatusCode::SeeOther)
        } else if bytes_eq(bytes, "NotModified".as_bytes()) {
            Some(HttpStatusCode::NotModified)
        } else if bytes_eq(bytes, "TemporaryRedirect".as_bytes()) {
            Some(HttpStatusCode::TemporaryRedirect)
        } else if bytes_eq(bytes, "PermanentRedirect".as_bytes()) {
            Some(HttpStatusCode::PermanentRedirect)
        } else if bytes_eq(bytes, "BadRequest".as_bytes()) {
            Some(HttpStatusCode::BadRequest)
        } else if bytes_eq(bytes, "Unauthorized".as_bytes()) {
            Some(HttpStatusCode::Unauthorized)
        } else if bytes_eq(bytes, "Forbidden".as_bytes()) {
            Some(HttpStatusCode::Forbidden)
        } else if bytes_eq(bytes, "NotFound".as_bytes()) {
            Some(HttpStatusCode::NotFound)
        } else if bytes_eq(bytes, "MethodNotAllowed".as_bytes()) {
            Some(HttpStatusCode::MethodNotAllowed)
        } else if bytes_eq(bytes, "RequestTimeout".as_bytes()) {
            Some(HttpStatusCode::RequestTimeout)
        } else if bytes_eq(bytes, "Conflict".as_bytes()) {
            Some(HttpStatusCode::Conflict)
        } else if bytes_eq(bytes, "Gone".as_bytes()) {
            Some(HttpStatusCode::Gone)
        } else if bytes_eq(bytes, "PayloadTooLarge".as_bytes()) {
            Some(HttpStatusCode::PayloadTooLarge)
        } else if bytes_eq(bytes, "UriTooLong".as_bytes()) {
            Some(HttpStatusCode::UriTooLong)
        } else if bytes_eq(bytes, "UnsupportedMediaType".as_bytes()) {
            Some(HttpStatusCode::UnsupportedMediaType)
        } else if bytes_eq(bytes, "RangeNotSatisfiable".as_bytes()) {
            Some(HttpStatusCode::RangeNotSatisfiable)
        } else if bytes_eq(bytes, "InternalServerError".as_bytes()) {
            Some(HttpStatusCode::InternalServerError)
        } else if bytes_eq(bytes, "NotImplemented".as_bytes()) {
            Some(HttpStatusCode::NotImplemented)
        } else if bytes_eq(bytes, "BadGateway".as_bytes()) {
            Some(HttpStatusCode::BadGateway)
        } else if bytes_eq(bytes, "ServiceUnavailable".as_bytes()) {
            Some(HttpStatusCode::ServiceUnavailable)
        } else if bytes_eq(bytes, "GatewayTimeout".as_bytes()) {
            Some(HttpStatusCode::GatewayTimeout)
        } else if bytes_eq(bytes, "HttpVersionNotSupported".as_bytes()) {
            Some(HttpStatusCode::HttpVersionNotSupported)
        } else {
            None
        }
    }

    /// The status with the number `value`, if there is one.
    pub fn from_int(value: u32) -> (status: Option<HttpStatusCode>)
        ensures
            status == status_of_code(value as int),
    {
        match value {
            200 => Some(HttpStatusCode::OK),
            201 => Some(HttpStatusCode::Created),
            202 => Some(HttpStatusCode::Accepted),
            204 => Some(HttpStatusCode::NoContent),
            301 => Some(HttpStatusCode::MovedPermanently),
            302 => Some(HttpStatusCode::Found),
            303 => Some(HttpStatusCode::SeeOther),
            304 => Some(HttpStatusCode::NotModified),
            307 => Some(HttpStatusCode::TemporaryRedirect),
            308 => Some(HttpStatusCode::PermanentRedirect),
            400 => Some(HttpStatusCode::BadRequest),
            401 => Some(HttpStatusCode::Unauthorized),
            403 => Some(HttpStatusCode::Forbidden),
            404 => Some(HttpStatusCode::NotFound),
            405 => Some(HttpStatusCode::MethodNotAllowed),
            408 => Some(HttpStatusCode::RequestTimeout),
            409 => Some(HttpStatusCode::Conflict),
            410 => Some(HttpStatusCode::Gone),
            413 => Some(HttpStatusCode::PayloadTooLarge),
            414 => Some(HttpStatusCode::UriTooLong),
            415 => Some(HttpStatusCode::UnsupportedMediaType),
            416 => Some(HttpStatusCode::RangeNotSatisfiable),
            500 => Some(HttpStatusCode::InternalServerError),
            501 => Some(HttpStatusCode::NotImplemented),
            502 => Some(HttpStatusCode::BadGateway),
            503 => Some(HttpStatusCode::ServiceUnavailable),
            504 => Some(HttpStatusCode::GatewayTimeout),
            505 => Some(HttpStatusCode::HttpVersionNotSupported),
            _ => None,
        }
    }

    /// The number of the status.
    pub fn to_int(&self) -> (code: u32)
        ensures
            code == self.code(),
    {
        match self {
            HttpStatusCode::OK => 200,
            HttpStatusCode::Created => 201,
            HttpStatusCode::Accepted => 202,
            HttpStatusCode::NoContent => 204,
            HttpStatusCode::MovedPermanently => 301,
            HttpStatusCode::Found => 302,
            HttpStatusCode::SeeOther => 303,
            HttpStatusCode::NotModified => 304,
            HttpStatusCode::TemporaryRedirect => 307,
            HttpStatusCode::PermanentRedirect => 308,
            HttpStatusCode::BadRequest => 400,
            HttpStatusCode::Unauthorized => 401,
            HttpStatusCode::Forbidden => 403,
            HttpStatusCode::NotFound => 404,
            HttpStatusCode::MethodNotAllowed => 405,
            HttpStatusCode::RequestTimeout => 408,
            HttpStatusCode::Conflict => 409,
            HttpStatusCode::Gone => 410,
            HttpStatusCode::PayloadTooLarge => 413,
            HttpStatusCode::UriTooLong => 414,
            HttpStatusCode::UnsupportedMediaType => 415,
            HttpStatusCode::RangeNotSatisfiable => 416,
            HttpStatusCode::InternalServerError => 500,
            HttpStatusCode::NotImplemented => 501,
            HttpStatusCode::BadGateway => 502,
            HttpStatusCode::ServiceUnavailable => 503,
            HttpStatusCode::GatewayTimeout => 504,
            HttpStatusCode::HttpVersionNotSupported => 505,
        }
    }

    /// The reason phrase of the status.
    pub fn to_string(&self) -> (reason: String)
        ensures
            reason@ == self.reason(),
    {
        match self {
            HttpStatusCode::OK => "OK".to_owned(),
            HttpStatusCode::Created => "Created".to_owned(),
            HttpStatusCode::Accepted => "Accepted".to_owned(),
            HttpStatusCode::NoContent => "No Content".to_owned(),
            HttpStatusCode::MovedPermanently => "Moved Permanently".to_owned(),
            HttpStatusCode::Found => "Found".to_owned(),
            HttpStatusCode::SeeOther => "See Other".to_owned(),
            HttpStatusCode::NotModified => "Not Modified".to_owned(),
            HttpStatusCode::TemporaryRedirect => "Temporary Redirect".to_owned(),
            HttpStatusCode::PermanentRedirect => "Permanent Redirect".to_owned(),
            HttpStatusCode::BadRequest => "Bad Request".to_owned(),
            HttpStatusCode::Unauthorized => "Unauthorized".to_owned(),
            HttpStatusCode::Forbidden => "Forbidden".to_owned(),
            HttpStatusCode::NotFound => "Not Found".to_owned(),
            HttpStatusCode::MethodNotAllowed => "Method Not Allowed".to_owned(),
            HttpStatusCode::RequestTimeout => "Request Timeout".to_owned(),
            HttpStatusCode::Conflict => "Conflict".to_owned(),
            HttpStatusCode::Gone => "Gone".to_owned(),
            HttpStatusCode::PayloadTooLarge => "Payload Too Large".to_owned(),
            HttpStatusCode::UriTooLong => "URI Too Long".to_owned(),
            HttpStatusCode::UnsupportedMediaType => "Unsupported Media Type".to_owned(),
            HttpStatusCode::RangeNotSatisfiable => "Range Not Satisfiable".to_owned(),
            HttpStatusCode::InternalServerError => "Internal Server Error".to_owned(),
            HttpStatusCode::NotImplemented => "Not Implemented".to_owned(),
            HttpStatusCode::BadGateway => "Bad Gateway".to_owned(),
            HttpStatusCode::ServiceUnavailable => "Service Unavailable".to_owned(),
            HttpStatusCode::GatewayTimeout => "Gateway Timeout".to_owned(),
            HttpStatusCode::HttpVersionNotSupported => "HTTP Version Not Supported".to_owned(),
        }
    }
}

impl Default for HttpStatusCode {
    fn default() -> (status: HttpStatusCode)
        ensures
            status == HttpStatusCode::OK,
    {
        HttpStatusCode::OK
    }
}

/// A response whose body was set last by `with_body` tells the length of that
/// body in its header `Content-Length`, whatever it held before.
pub proof fn lemma_body_sets_content_length(response: ResponseText, body: Seq<char>)
    requires
        keys_distinct(response.headers),
    ensures
        with_body(response, body).body == Some(body),
        keys_distinct(with_body(response, body).headers),
        to_map(with_body(response, body).headers).dom().contains(content_length()),
        to_map(with_body(response, body).headers)[content_length()] == decimal(octets(body)),
{
    lemma_put(response.headers, content_length(), decimal(octets(body)));
}

/// The bytes of a status's name spell that status and no other.
pub proof fn lemma_status_named(status: HttpStatusCode)
    ensures
        status_named(encode_utf8(status.ident())) == Some(status),
{
    reveal_strlit("Ok");
    reveal_strlit("Created");
    reveal_strlit("Accepted");
    reveal_strlit("NoContent");
    reveal_strlit("MovedPermanently");
    reveal_strlit("Found");
    reveal_strlit("SeeOther");
    reveal_strlit("NotModified");
    reveal_strlit("TemporaryRedirect");
    reveal_strlit("PermanentRedirect");
    reveal_strlit("BadRequest");
    reveal_strlit("Unauthorized");
    reveal_strlit("Forbidden");
    reveal_strlit("NotFound");
    reveal_strlit("MethodNotAllowed");
    reveal_strlit("RequestTimeout");
    reveal_strlit("Conflict");
    reveal_strlit("Gone");
    reveal_strlit("PayloadTooLarge");
    reveal_strlit("UriTooLong");
    reveal_strlit("UnsupportedMediaType");
    reveal_strlit("RangeNotSatisfiable");
    reveal_strlit("InternalServerError");
    reveal_strlit("NotImplemented");
    reveal_strlit("BadGateway");
    reveal_strlit("ServiceUnavailable");
    reveal_strlit("GatewayTimeout");
    reveal_strlit("HttpVersionNotSupported");
    encode_utf8_decode_utf8(HttpStatusCode::OK.ident());
    encode_utf8_decode_utf8(HttpStatusCode::Created.ident());
    encode_utf8_decode_utf8(HttpStatusCode::Accepted.ident());
    encode_utf8_decode_utf8(HttpStatusCode::NoContent.ident());
    encode_utf8_decode_utf8(HttpStatusCode::MovedPermanently.ident());
    encode_utf8_decode_utf8(HttpStatusCode::Found.ident());
    encode_utf8_decode_utf8(HttpStatusCode::SeeOther.ident());
    encode_utf8_decode_utf8(HttpStatusCode::NotModified.ident());
    encode_utf8_decode_utf8(HttpStatusCode::TemporaryRedirect.ident());
    encode_utf8_decode_utf8(HttpStatusCode::PermanentRedirect.ident());
    encode_utf8_decode_utf8(HttpStatusCode::BadRequest.ident());
    encode_utf8_decode_utf8(HttpStatusCode::Unauthorized.ident());
    encode_utf8_decode_utf8(HttpStatusCode::Forbidden.ident());
    encode_utf8_decode_utf8(HttpStatusCode::NotFound.ident());
    encode_utf8_decode_utf8(HttpStatusCode::MethodNotAllowed.ident());
    encode_utf8_decode_utf8(HttpStatusCode::RequestTimeout.ident());
    encode_utf8_decode_utf8(HttpStatusCode::Conflict.ident());
    encode_utf8_decode_utf8(HttpStatusCode::Gone.ident());
    encode_utf8_decode_utf8(HttpStatusCode::PayloadTooLarge.ident());
    encode_utf8_decode_utf8(HttpStatusCode::UriTooLong.ident());
    encode_utf8_decode_utf8(HttpStatusCode::UnsupportedMediaType.ident());
    encode_utf8_decode_utf8(HttpStatusCode::RangeNotSatisfiable.ident());
    encode_utf8_decode_utf8(HttpStatusCode::InternalServerError.ident());
    encode_utf8_decode_utf8(HttpStatusCode::NotImplemented.ident());
    encode_utf8_decode_utf8(HttpStatusCode::BadGateway.ident());
    encode_utf8_decode_utf8(HttpStatusCode::ServiceUnavailable.ident());
    encode_utf8_decode_utf8(HttpStatusCode::GatewayTimeout.ident());
    encode_utf8_decode_utf8(HttpStatusCode::HttpVersionNotSupported.ident());
    assert(HttpStatusCode::OK.ident()[0] == 'O');
    assert(HttpStatusCode::Created.ident()[0] == 'C');
    assert(HttpStatusCode::Accepted.ident()[0] == 'A');
    assert(HttpStatusCode::NoContent.ident()[0] == 'N');
    assert(HttpStatusCode::MovedPermanently.ident()[0] == 'M');
    assert(HttpStatusCode::Found.ident()[0] == 'F');
    assert(HttpStatusCode::SeeOther.ident()[0] == 'S');
    assert(HttpStatusCode::NotModified.ident()[0] == 'N');
    assert(HttpStatusCode::TemporaryRedirect.ident()[0] == 'T');
    assert(HttpStatusCode::PermanentRedirect.ident()[0] == 'P');
    assert(HttpStatusCode::BadRequest.ident()[0] == 'B');
    assert(HttpStatusCode::Unauthorized.ident()[0] == 'U');
    assert(HttpStatusCode::Forbidden.ident()[0] == 'F');
    assert(HttpStatusCode::NotFound.ident()[0] == 'N');
    assert(HttpStatusCode::MethodNotAllowed.ident()[0] == 'M');
    assert(HttpStatusCode::RequestTimeout.ident()[0] == 'R');
    assert(HttpStatusCode::Conflict.ident()[0] == 'C');
    assert(HttpStatusCode::Gone.ident()[0] == 'G');
    assert(HttpStatusCode::PayloadTooLarge.ident()[0] == 'P');
    assert(HttpStatusCode::UriTooLong.ident()[0] == 'U');
    assert(HttpStatusCode::UnsupportedMediaType.ident()[0] == 'U');
    assert(HttpStatusCode::RangeNotSatisfiable.ident()[0] == 'R');
    assert(HttpStatusCode::InternalServerError.ident()[0] == 'I');
    assert(HttpStatusCode::NotImplemented.ident()[0] == 'N');
    assert(HttpStatusCode::BadGateway.ident()[0] == 'B');
    assert(HttpStatusCode::ServiceUnavailable.ident()[0] == 'S');
    assert(HttpStatusCode::GatewayTimeout.ident()[0] == 'G');
    assert(HttpStatusCode::HttpVersionNotSupported.ident()[0] == 'H');
    assert(HttpStatusCode::MovedPermanently.ident()[1] != HttpStatusCode::MethodNotAllowed.ident()[1]);
    assert(HttpStatusCode::BadRequest.ident()[3] != HttpStatusCode::BadGateway.ident()[3]);
}

/// The number of a status belongs to that status and to no other, and it has
/// three digits.
pub proof fn lemma_status_of_code(status: HttpStatusCode)
    ensures
        status_of_code(status.code()) == Some(status),
        100 <= status.code() <= 999,
{
}

/// A number that belongs to a status is the number of that status.
pub proof fn lemma_code_of_status(code: int)
    ensures
        status_of_code(code) matches Some(status) ==> status.code() == code,
{
}

impl View for HttpResponse {
    type V = ResponseText;

    open spec fn view(&self) -> ResponseText {
        ResponseText {
            status: self.status_code,
            version: self.http_version@,
            headers: self.headers@,
            body: match self.body {
                Some(text) => Some(text@),
                None => None,
            },
        }
    }
}

impl View for HttpResponseBuilder {
    type V = ResponseText;

    closed spec fn view(&self) -> ResponseText {
        ResponseText {
            status: self.status_code,
            version: self.http_version@,
            headers: self.headers@,
            body: match self.body {
                Some(text) => Some(text@),
                None => None,
            },
        }
    }
}

impl HttpResponseBuilder {
    /// Sets the status.
    pub fn status_code(self, status_code: HttpStatusCode) -> (builder: HttpResponseBuilder)
        ensures
            builder@ == (ResponseText { status: status_code, ..self@ }),
    {
        let mut builder = self;
        builder.status_code = status_code;
        builder
    }

    /// Sets the version.
    pub fn http_version(self, http_version: HttpVersion) -> (builder: HttpResponseBuilder)
        ensures
            builder@ == (ResponseText { version: http_version@, ..self@ }),
    {
        let mut builder = self;
        builder.http_version = http_version;
        builder
    }

    /// Adds each of `headers` in turn, as `add_header` does.
    pub fn add_headers(self, headers: Vec<(String, String)>) -> (builder: HttpResponseBuilder)
        ensures
            builder@ == (ResponseText {
                headers: put_all(self@.headers, pair_texts(headers@)),
                ..self@
            }),
    {
        let ghost wanted = pair_texts(headers@);
        let ghost start = self@;
        let mut builder = self;
        assert(wanted.take(0) =~= Seq::empty());
        for header in it: headers
            invariant
                wanted == pair_texts(headers@),
                it.seq() == headers@,
                builder@ == (ResponseText {
                    headers: put_all(start.headers, wanted.take(it.index())),
                    ..start
                }),
        {
            assert(wanted.take(it.index() + 1).drop_last() =~= wanted.take(it.index()));
            let (name, value) = header;
            builder.headers.insert(name, value);
        }
        assert(wanted.take(wanted.len() as int) =~= wanted);
        builder
    }

    /// Adds the header `header.0` with the value `header.1`. Where the
    /// response has that header, it keeps its place and gets the new value.
    pub fn add_header(self, header: (&str, &str)) -> (builder: HttpResponseBuilder)
        ensures
            builder@ == with_header(self@, header.0@, header.1@),
            to_map(builder@.headers) == to_map(self@.headers).insert(header.0@, header.1@),
    {
        let mut builder = self;
        builder.headers.insert(header.0.to_owned(), header.1.to_owned());
        builder
    }

    /// Sets the body, and the header `Content-Length` to the number of bytes
    /// that the body takes, in decimal.
    pub fn body(self, body: &str) -> (builder: HttpResponseBuilder)
        ensures
            builder@ == with_body(self@, body@),
            to_map(builder@.headers).dom().contains(content_length()),
            to_map(builder@.headers)[content_length()] == decimal(octets(body@)),
    {
        let mut builder = self;
        builder.body = Some(body.to_owned());
        let length = decimal_text(body.as_bytes().len() as u64);
        builder.add_header(("Content-Length", length.as_str()))
    }

    /// The response that was put together.
    pub fn build(self) -> (response: HttpResponse)
        ensures
            response@ == self@,
    {
        HttpResponse {
            status_code: self.status_code,
            http_version: self.http_version,
            headers: self.headers,
            body: self.body,
        }
    }
}

impl Default for HttpResponseBuilder {
    fn default() -> (builder: HttpResponseBuilder)
        ensures
            builder@ == default_response(),
    {
        HttpResponseBuilder {
            status_code: HttpStatusCode::OK,
            http_version: HttpVersion::default(),
            headers: TextMap::new(),
            body: None,
        }
    }
}

impl HttpResponse {
    /// The response with the given status and version, without header or body.
    pub fn new(status_code: HttpStatusCode, http_version: HttpVersion) -> (response: HttpResponse)
        ensures
            response@ == (ResponseText {
                status: status_code,
                version: http_version@,
                headers: Seq::empty(),
                body: None,
            }),
    {
        HttpResponse { status_code, http_version, headers: TextMap::new(), body: None }
    }

    /// A builder that starts from `200 OK`, `HTTP/1.1`, no header and no body.
    pub fn builder() -> (builder: HttpResponseBuilder)
        ensures
            builder@ == default_response(),
    {
        HttpResponseBuilder::default()
    }

    /// The bytes of the response as they are sent.
    pub fn to_bytes(&self) -> (bytes: Vec<u8>)
        ensures
            bytes@ == encode_utf8(wire_text(self@)),
    {
        self.to_string().as_str().as_bytes_vec()
    }

    /// The response as it is sent: the status line, the headers in the order
    /// in which they were added, an empty line, and the body.
    pub fn to_string(&self) -> (text: String)
        ensures
            text@ == wire_text(self@),
    {
        proof {
            reveal_strlit(" ");
            reveal_strlit(" \r\n");
            reveal_strlit(": ");
            reveal_strlit("\r\n");
        }
        let mut constructed_string = self.http_version.to_string();
        constructed_string.append(" ");
        constructed_string.append(decimal_text(self.status_code.to_int() as u64).as_str());
        constructed_string.append(" ");
        constructed_string.append(self.status_code.to_string().as_str());
        constructed_string.append(" \r\n");
        assert(constructed_string@ =~= status_line(self@.version, self@.status));
        let ghost headers = self@.headers;
        let mut i: usize = 0;
        assert(headers.take(0) =~= Seq::empty());
        assert(constructed_string@ =~= status_line(self@.version, self@.status) + header_block(
            headers.take(0),
        ));
        while i < self.headers.len()
            invariant
                i <= headers.len(),
                headers == self.headers@,
                headers == self@.headers,
                ": "@ == seq![':', ' '],
                "\r\n"@ == seq!['\r', '\n'],
                constructed_string@ == status_line(self@.version, self@.status) + header_block(
                    headers.take(i as int),
                ),
            decreases headers.len() - i,
        {
            let ghost before = constructed_string@;
            constructed_string.append(self.headers.key_at(i));
            constructed_string.append(": ");
            constructed_string.append(self.headers.value_at(i));
            constructed_string.append("\r\n");
            assert(headers.take(i + 1).drop_last() =~= headers.take(i as int));
            assert(constructed_string@ =~= status_line(self@.version, self@.status) + header_block(
                headers.take(i + 1),
            ));
            i = i + 1;
        }
        assert(headers.take(i as int) =~= headers);
        constructed_string.append("\r\n");
        match &self.body {
            Some(body) => {
                constructed_string.append(body.as_str());
            },
            None => {},
        }
        assert(constructed_string@ =~= wire_text(self@));
        constructed_string
    }
}

impl Default for HttpResponse {
    /// `200 OK`, `HTTP/1.1`, no header and no body.
    fn default() -> (response: HttpResponse)
        ensures
            response@ == default_response(),
    {
        HttpResponse::new(HttpStatusCode::OK, HttpVersion::default())
    }
}

impl From<HttpStatusCode> for HttpResponse {
    /// The response with the status `value`, `HTTP/1.1`, no header and no body.
    fn from(value: HttpStatusCode) -> (response: HttpResponse)
        ensures
            response@ == (ResponseText { status: value, ..default_response() }),
    {
        HttpResponse::new(value, HttpVersion::default())
    }
}

impl FromSpecImpl<HttpStatusCode> for HttpResponse {
    open spec fn obeys_from_spec() -> bool {
        false
    }

    open spec fn from_spec(value: HttpStatusCode) -> HttpResponse {
        arbitrary()
    }
}

} // verus!
