//! Decoding the bytes of a request: the request line and the headers.

use crate::helper::{contents, split_lines_by_byte, split_lines_by_bytes, split_on, split_terminated, bytes_eq};
use crate::http_error::HttpServerError;
use crate::http_path::{segments_of, HttpPath};
use crate::http_version::{parse_version, HttpVersion, VersionText};
use crate::text::{chars_of, decode_lossy, decoded, slice_text, trim, trimmed};
use crate::text_map::{Entry, TextMap};
use vstd::prelude::*;
use vstd::slice::slice_subrange;
use vstd::string::*;
use vstd::utf8::*;

verus! {

/// The byte that ends a line together with the carriage return before it.
pub const NEWLINE: u8 = 10;

/// The first of the two bytes that end a line.
pub const CARRIAGE_RETURN: u8 = 13;

/// The byte between the tokens of the request line.
pub const SPACE: u8 = 32;

/// The methods that the server knows.
#[derive(Debug, Clone, Copy, PartialEq, Eq, Structural)]
pub enum HttpMethod {
    GET,
    POST,
    PUT,
    DELETE,
    OPTION,
    HEAD,
}

/// The headers of a request: a mapping from the names, as they were written,
/// to the values.
#[derive(Debug)]
pub struct HttpRequestHeader(TextMap);

/// A decoded request.
#[derive(Debug)]
pub struct HttpRequest {
    pub request_line: RequestLine,
    pub headers: HttpRequestHeader,
}

/// The first line of a request.
#[derive(Debug)]
pub struct RequestLine {
    pub method: HttpMethod,
    pub path: HttpPath,
    pub http_version: HttpVersion,
}

/// What a request line says.
pub struct RequestLineText {
    pub method: HttpMethod,
    /// The target as it was written.
    pub target: Seq<char>,
    /// The segments of the target.
    pub segments: Seq<Seq<char>>,
    pub version: VersionText,
}

/// What a request says.
pub struct RequestText {
    pub request_line: RequestLineText,
    pub headers: Map<Seq<char>, Seq<char>>,
}

/// The method whose name `bytes` spell, if there is one.
pub open spec fn method_of(bytes: Seq<u8>) -> Option<HttpMethod> {
    if bytes == encode_utf8(HttpMethod::GET.name()) {
        Some(HttpMethod::GET)
    } else if bytes == encode_utf8(HttpMethod::POST.name()) {
        Some(HttpMethod::POST)
    } else if bytes == encode_utf8(HttpMethod::PUT.name()) {
        Some(HttpMethod::PUT)
    } else if bytes == encode_utf8(HttpMethod::DELETE.name()) {
        Some(HttpMethod::DELETE)
    } else if bytes == encode_utf8(HttpMethod::OPTION.name()) {
        Some(HttpMethod::OPTION)
    } else if bytes == encode_utf8(HttpMethod::HEAD.name()) {
        Some(HttpMethod::HEAD)
    } else {
        None
    }
}

/// What the request line `bytes` says, or the failure to read it. The line is
/// three tokens with one space between each two: a method, a target and a
/// version. A line of another shape fails first, then an unknown method, then
/// a version that cannot be read.
pub open spec fn parse_request_line(bytes: Seq<u8>) -> Result<RequestLineText, HttpServerError> {
    let tokens = split_on(bytes, SPACE);
    if tokens.len() != 3 {
        Err(HttpServerError::InvalidRequestLineSyntax)
    } else {
        match method_of(tokens[0]) {
            None => Err(HttpServerError::HttpMethodNotFound),
            Some(method) => match parse_version(tokens[2]) {
                Err(error) => Err(error),
                Ok(version) => Ok(
                    RequestLineText {
                        method,
                        target: decoded(tokens[1]),
                        segments: segments_of(decoded(tokens[1])),
                        version,
                    },
                ),
            },
        }
    }
}

/// The header that `line` holds: the name is what stands before the first `:`,
/// the value what stands behind it, without the white space around it. A line
/// without `:` holds none.
pub open spec fn header_of(line: Seq<char>) -> Option<Entry> {
    match line.index_of_first(':') {
        Some(i) => Some((line.take(i), trimmed(line.skip(i + 1)))),
        None => None,
    }
}

/// The headers that `lines` hold. Of two lines with the same name the later
/// one counts.
pub open spec fn headers_of(lines: Seq<Seq<char>>) -> Map<Seq<char>, Seq<char>>
    decreases lines.len(),
{
    if lines.len() == 0 {
        Map::empty()
    } else {
        let before = headers_of(lines.drop_last());
        match header_of(lines.last()) {
            Some((name, value)) => before.insert(name, value),
            None => before,
        }
    }
}

/// Each of `lines` decoded as text.
pub open spec fn decoded_lines(lines: Seq<Seq<u8>>) -> Seq<Seq<char>> {
    Seq::new(lines.len(), |i: int| decoded(lines[i]))
}

/// The lines before the first empty one; all of them where none is empty.
pub open spec fn until_empty(lines: Seq<Seq<u8>>) -> Seq<Seq<u8>>
    decreases lines.len(),
{
    if lines.len() == 0 || lines.first().len() == 0 {
        Seq::empty()
    } else {
        seq![lines.first()] + until_empty(lines.drop_first())
    }
}

/// The lines of a request that hold its headers: those behind the request
/// line, up to the empty line that ends the headers, or up to the last line
/// where no line is empty.
pub open spec fn header_lines(lines: Seq<Seq<u8>>) -> Seq<Seq<u8>> {
    until_empty(lines.drop_first())
}

/// The lines before the first empty one are the first lines, as many as there
/// are before it; none of them is empty, and the line behind them, if there
/// is one, is empty.
pub proof fn lemma_until_empty(lines: Seq<Seq<u8>>)
    ensures
        until_empty(lines).len() <= lines.len(),
        until_empty(lines) == lines.take(until_empty(lines).len() as int),
        forall|i: int| 0 <= i < until_empty(lines).len() ==> (#[trigger] lines[i]).len() > 0,
        until_empty(lines).len() < lines.len() ==> lines[until_empty(lines).len() as int].len() == 0,
    decreases lines.len(),
{
    if lines.len() > 0 && lines.first().len() > 0 {
        let rest = lines.drop_first();
        lemma_until_empty(rest);
        let count = until_empty(rest).len() as int;
        assert(until_empty(lines) =~= lines.take(count + 1));
        assert forall|i: int| 0 <= i < until_empty(lines).len() implies (#[trigger] lines[i]).len()
            > 0 by {
            if i > 0 {
                assert(rest[i - 1] == lines[i]);
            }
        }
        if count + 1 < lines.len() {
            assert(rest[count] == lines[count + 1]);
        }
    } else {
        assert(until_empty(lines) =~= lines.take(0));
    }
}

/// What the request `bytes` says, or the failure to read it. The lines of the
/// request are the parts of `bytes` that a carriage return and a newline end.
/// The first is the request line; without it the request line's syntax is
/// invalid. The lines behind it hold the headers, up to the first empty line;
/// what follows that line is passed over.
pub open spec fn parse_request(bytes: Seq<u8>) -> Result<RequestText, HttpServerError> {
    let lines = split_terminated(bytes, seq![CARRIAGE_RETURN, NEWLINE]);
    if lines.len() == 0 {
        Err(HttpServerError::InvalidRequestLineSyntax)
    } else {
        match parse_request_line(lines[0]) {
            Err(error) => Err(error),
            Ok(request_line) => Ok(
                RequestText { request_line, headers: headers_of(decoded_lines(header_lines(lines))) },
            ),
        }
    }
}

impl HttpMethod {
    /// The name of the method, as it stands in a request line.
    pub open spec fn name(self) -> Seq<char> {
        match self {
            HttpMethod::GET => "GET"@,
            HttpMethod::POST => "POST"@,
            HttpMethod::PUT => "PUT"@,
            HttpMethod::DELETE => "DELETE"@,
            HttpMethod::OPTION => "OPTION"@,
            HttpMethod::HEAD => "HEAD"@,
        }
    }

    /// The method whose name `bytes` spell, if there is one. Upper and lower
    /// case differ.
    pub fn from_bytes(bytes: &[u8]) -> (method: Option<HttpMethod>)
        ensures
            method == method_of(bytes@),
    {
        if bytes_eq(bytes, "GET".as_bytes()) {
            Some(HttpMethod::GET)
        } else if bytes_eq(bytes, "POST".as_bytes()) {
            Some(HttpMethod::POST)
        } else if bytes_eq(bytes, "PUT".as_bytes()) {
            Some(HttpMethod::PUT)
        } else if bytes_eq(bytes, "DELETE".as_bytes()) {
            Some(HttpMethod::DELETE)
        } else if bytes_eq(bytes, "OPTION".as_bytes()) {
            Some(HttpMethod::OPTION)
        } else if bytes_eq(bytes, "HEAD".as_bytes()) {
            Some(HttpMethod::HEAD)
        } else {
            None
        }
    }

    /// The name of the method.
    pub fn to_string(&self) -> (name: String)
        ensures
            name@ == self.name(),
    {
        match self {
            HttpMethod::GET => "GET".to_owned(),
            HttpMethod::POST => "POST".to_owned(),
            HttpMethod::PUT => "PUT".to_owned(),
            HttpMethod::DELETE => "DELETE".to_owned(),
            HttpMethod::OPTION => "OPTION".to_owned(),
            HttpMethod::HEAD => "HEAD".to_owned(),
        }
    }
}

impl Default for HttpMethod {
    fn default() -> (method: HttpMethod)
        ensures
            method == HttpMethod::GET,
    {
        HttpMethod::GET
    }
}

/// The bytes of a method's name spell that method and no other.
pub proof fn lemma_method_of_name(method: HttpMethod)
    ensures
        method_of(encode_utf8(method.name())) == Some(method),
{
    reveal_strlit("GET");
    reveal_strlit("POST");
    reveal_strlit("PUT");
    reveal_strlit("DELETE");
    reveal_strlit("OPTION");
    reveal_strlit("HEAD");
    encode_utf8_decode_utf8(HttpMethod::GET.name());
    encode_utf8_decode_utf8(HttpMethod::POST.name());
    encode_utf8_decode_utf8(HttpMethod::PUT.name());
    encode_utf8_decode_utf8(HttpMethod::DELETE.name());
    encode_utf8_decode_utf8(HttpMethod::OPTION.name());
    encode_utf8_decode_utf8(HttpMethod::HEAD.name());
    assert("PUT"@[1] != "POST"@[1]);
    assert("GET"@[0] != "PUT"@[0]);
}

impl View for RequestLine {
    type V = RequestLineText;

    open spec fn view(&self) -> RequestLineText {
        RequestLineText {
            method: self.method,
            target: self.path.raw(),
            segments: self.path.segments(),
            version: self.http_version@,
        }
    }
}

impl RequestLine {
    /// Reads a request line: a method, a target and a version with one space
    /// between each two.
    pub fn from_bytes(line_bytes: &[u8]) -> (result: Result<RequestLine, HttpServerError>)
        ensures
            match result {
                Ok(line) => parse_request_line(line_bytes@) == Ok::<RequestLineText, HttpServerError>(
                    line@,
                ),
                Err(error) => parse_request_line(line_bytes@) == Err::<
                    RequestLineText,
                    HttpServerError,
                >(error),
            },
    {
        let request_line_bytes = split_lines_by_byte(line_bytes, SPACE);
        if request_line_bytes.len() != 3 {
            return Err(HttpServerError::InvalidRequestLineSyntax);
        }
        assert(contents(request_line_bytes@)[0] == request_line_bytes@[0]@);
        assert(contents(request_line_bytes@)[1] == request_line_bytes@[1]@);
        assert(contents(request_line_bytes@)[2] == request_line_bytes@[2]@);
        let method = match HttpMethod::from_bytes(request_line_bytes[0]) {
            Some(method) => method,
            None => {
                return Err(HttpServerError::HttpMethodNotFound);
            },
        };
        let path = HttpPath::from(decode_lossy(request_line_bytes[1]));
        let http_version = match HttpVersion::from_bytes(request_line_bytes[2]) {
            Ok(version) => version,
            Err(error) => {
                return Err(error);
            },
        };
        Ok(RequestLine { method, path, http_version })
    }
}

impl View for HttpRequestHeader {
    type V = Map<Seq<char>, Seq<char>>;

    closed spec fn view(&self) -> Map<Seq<char>, Seq<char>> {
        self.0.as_map()
    }
}

impl HttpRequestHeader {
    /// The header that the line `text` holds, if it holds one: the name before
    /// the first `:`, and the value behind it without the white space around
    /// it.
    pub fn parse_line(text: &str) -> (header: Option<(String, String)>)
        ensures
            match header {
                Some((name, value)) => header_of(text@) == Some((name@, value@)),
                None => header_of(text@).is_none(),
            },
    {
        let chars = chars_of(text);
        let mut i: usize = 0;
        while i < chars.len()
            invariant
                chars@ == text@,
                i <= chars@.len(),
                forall|j: int| 0 <= j < i ==> text@[j] != ':',
            decreases chars@.len() - i,
        {
            if chars[i] == ':' {
                let name = slice_text(text, 0, i);
                let value = trim(text.substring_char(i + 1, chars.len()));
                proof {
                    text@.index_of_first_ensures(':');
                    assert(text@[i as int] == ':');
                }
                assert(text@.index_of_first(':') == Some(i as int));
                assert(text@.take(i as int) =~= text@.subrange(0, i as int));
                assert(text@.skip(i + 1) =~= text@.subrange(i + 1, text@.len() as int));
                return Some((name, value));
            }
            i = i + 1;
        }
        proof {
            text@.index_of_first_ensures(':');
        }
        None
    }

    /// The headers that the lines hold. Each line is decoded as text; a line
    /// without `:` is passed over; of two lines with the same name the later
    /// one counts.
    pub fn from_bytes(line_bytes: &[&[u8]]) -> (headers: HttpRequestHeader)
        ensures
            headers@ == headers_of(decoded_lines(contents(line_bytes@))),
    {
        let mut lines = TextMap::new();
        let ghost texts = decoded_lines(contents(line_bytes@));
        let mut i: usize = 0;
        assert(texts.take(0) =~= Seq::empty());
        assert(lines.as_map() =~= Map::empty());
        while i < line_bytes.len()
            invariant
                i <= line_bytes@.len(),
                texts == decoded_lines(contents(line_bytes@)),
                lines.as_map() == headers_of(texts.take(i as int)),
            decreases line_bytes@.len() - i,
        {
            let header_line = decode_lossy(line_bytes[i]);
            assert(texts.take(i + 1).drop_last() =~= texts.take(i as int));
            assert(texts.take(i + 1).last() == header_line@);
            match HttpRequestHeader::parse_line(header_line.as_str()) {
                Some((key, value)) => {
                    lines.insert(key, value);
                },
                None => {},
            }
            i = i + 1;
        }
        assert(texts.take(i as int) =~= texts);
        HttpRequestHeader(lines)
    }

    /// The value of the header named `header_key`, if the request has it.
    pub fn get(&self, header_key: &str) -> (value: Option<&str>)
        ensures
            match value {
                Some(text) => self@.dom().contains(header_key@) && text@ == self@[header_key@],
                None => !self@.dom().contains(header_key@),
            },
    {
        self.0.get(header_key)
    }
}

impl View for HttpRequest {
    type V = RequestText;

    open spec fn view(&self) -> RequestText {
        RequestText { request_line: self.request_line@, headers: self.headers@ }
    }
}

impl HttpRequest {
    /// Decodes a request from the bytes that were received: the request line,
    /// and the headers from the lines behind it up to the first empty line.
    /// Whatever follows that line, or the last line end, is ignored.
    pub fn from_bytes(bytes: &[u8]) -> (result: Result<HttpRequest, HttpServerError>)
        ensures
            match result {
                Ok(request) => parse_request(bytes@) == Ok::<RequestText, HttpServerError>(request@),
                Err(error) => parse_request(bytes@) == Err::<RequestText, HttpServerError>(error),
            },
    {
        let line_end = [CARRIAGE_RETURN, NEWLINE];
        assert(line_end@ =~= seq![CARRIAGE_RETURN, NEWLINE]);
        let split_lines = split_lines_by_bytes(bytes, line_end.as_slice());
        let http_lines = split_lines.len();
        if http_lines == 0 {
            return Err(HttpServerError::InvalidRequestLineSyntax);
        }
        assert(contents(split_lines@)[0] == split_lines@[0]@);
        let request_line = match RequestLine::from_bytes(split_lines[0]) {
            Ok(line) => line,
            Err(error) => {
                return Err(error);
            },
        };
        let ghost all = contents(split_lines@);
        let mut end: usize = 1;
        assert(all.drop_first() =~= all.skip(1));
        assert(all.subrange(1, 1) + until_empty(all.skip(1)) =~= until_empty(all.skip(1)));
        while end < http_lines && split_lines[end].len() != 0
            invariant
                1 <= end <= http_lines,
                http_lines == split_lines@.len(),
                all == contents(split_lines@),
                header_lines(all) == all.subrange(1, end as int) + until_empty(all.skip(end as int)),
            decreases http_lines - end,
        {
            assert(all[end as int] == split_lines@[end as int]@);
            assert(all.skip(end as int).first() == all[end as int]);
            assert(all.skip(end as int).drop_first() =~= all.skip(end + 1));
            assert(all.subrange(1, end as int) + (seq![all[end as int]] + until_empty(
                all.skip(end + 1),
            )) =~= all.subrange(1, end + 1) + until_empty(all.skip(end + 1)));
            end = end + 1;
        }
        proof {
            if end < http_lines {
                assert(all[end as int] == split_lines@[end as int]@);
                assert(all.skip(end as int).first() == all[end as int]);
            }
            assert(header_lines(all) =~= all.subrange(1, end as int));
        }
        let lines = slice_subrange(split_lines.as_slice(), 1, end);
        assert(contents(lines@) =~= all.subrange(1, end as int));
        let headers = HttpRequestHeader::from_bytes(lines);
        Ok(HttpRequest { request_line, headers })
    }
}

} // verus!
