//! Verbs, statuses, and the framing of requests and responses.

use crate::text::{
    decimal, decimal_text, from_chars, lossy_text, parse_i16, parse_usize, same_text, signed_value,
    split, split_chars, texts, to_chars, to_uppercase, unsigned_value, uppercase, utf8_lossy,
    with_error_text,
};
use crate::text_map::{put, TextMap};
use vstd::array::array_as_slice;
use vstd::prelude::*;
use vstd::slice::{slice_subrange, slice_to_vec};
use vstd::string::{StrSliceExecFns, StringExecFns};
use vstd::utf8::encode_utf8;

verus! {

/// The request methods.
#[derive(Clone, Copy, Debug, PartialEq, Eq, Structural)]
pub enum HttpVerb {
    GET,
    HEAD,
    POST,
    PUT,
    DELETE,
    CONNECT,
    OPTIONS,
    TRACE,
    PATCH,
}

/// The statuses that the node answers with or understands.
#[derive(Clone, Copy, Debug, PartialEq, Eq, Structural)]
pub enum HttpStatus {
    OK,
    BadRequest,
    Unauthorized,
    NotFound,
    MethodNotAllowed,
    InternalError,
}

/// A request: its header and, if it has one, its body.
#[derive(Debug, PartialEq, Eq)]
pub struct HttpRequest {
    pub header: HttpRequestHeader,
    pub body: Option<Vec<u8>>,
}

/// The request line and the header fields. Parsed headers have their keys
/// in upper case; `content_length` is what the fields declare, zero if
/// they declare nothing usable.
#[derive(Debug, PartialEq, Eq)]
pub struct HttpRequestHeader {
    pub route: String,
    pub verb: HttpVerb,
    pub content_length: usize,
    pub headers: TextMap,
    pub http_version: String,
}

/// A response: its header and, if it has one, its body.
#[derive(Debug, PartialEq, Eq)]
pub struct HttpResponse {
    pub header: HttpResponseHeader,
    pub body: Option<Vec<u8>>,
}

/// The status line and the header fields.
#[derive(Debug, PartialEq, Eq)]
pub struct HttpResponseHeader {
    pub http_version: String,
    pub status: HttpStatus,
    pub content_length: usize,
    pub headers: TextMap,
}

/// A request header with its text as characters and its fields in order.
pub struct RequestHeaderView {
    pub route: Seq<char>,
    pub verb: HttpVerb,
    pub content_length: nat,
    pub headers: Seq<(Seq<char>, Seq<char>)>,
    pub http_version: Seq<char>,
}

/// A response header with its text as characters and its fields in order.
pub struct ResponseHeaderView {
    pub http_version: Seq<char>,
    pub status: HttpStatus,
    pub content_length: nat,
    pub headers: Seq<(Seq<char>, Seq<char>)>,
}

/// A request with its body as bytes.
pub struct RequestView {
    pub header: RequestHeaderView,
    pub body: Option<Seq<u8>>,
}

/// A response with its body as bytes.
pub struct ResponseView {
    pub header: ResponseHeaderView,
    pub body: Option<Seq<u8>>,
}

/// An optional body as optional bytes.
pub open spec fn optional_bytes(body: Option<Vec<u8>>) -> Option<Seq<u8>> {
    match body {
        Some(bytes) => Some(bytes@),
        None => None,
    }
}

impl View for HttpRequestHeader {
    type V = RequestHeaderView;

    open spec fn view(&self) -> RequestHeaderView {
        RequestHeaderView {
            route: self.route@,
            verb: self.verb,
            content_length: self.content_length as nat,
            headers: self.headers.entries(),
            http_version: self.http_version@,
        }
    }
}

impl View for HttpResponseHeader {
    type V = ResponseHeaderView;

    open spec fn view(&self) -> ResponseHeaderView {
        ResponseHeaderView {
            http_version: self.http_version@,
            status: self.status,
            content_length: self.content_length as nat,
            headers: self.headers.entries(),
        }
    }
}

impl View for HttpRequest {
    type V = RequestView;

    open spec fn view(&self) -> RequestView {
        RequestView { header: self.header@, body: optional_bytes(self.body) }
    }
}

impl View for HttpResponse {
    type V = ResponseView;

    open spec fn view(&self) -> ResponseView {
        ResponseView { header: self.header@, body: optional_bytes(self.body) }
    }
}

/// The verb that an upper-case name stands for.
pub open spec fn verb_named(name: Seq<char>) -> Result<HttpVerb, Seq<char>> {
    if name == "GET"@ {
        Ok(HttpVerb::GET)
    } else if name == "HEAD"@ {
        Ok(HttpVerb::HEAD)
    } else if name == "POST"@ {
        Ok(HttpVerb::POST)
    } else if name == "PUT"@ {
        Ok(HttpVerb::PUT)
    } else if name == "DELETE"@ {
        Ok(HttpVerb::DELETE)
    } else if name == "CONNECT"@ {
        Ok(HttpVerb::CONNECT)
    } else if name == "PATCH"@ {
        Ok(HttpVerb::PATCH)
    } else if name == "OPTIONS"@ {
        Ok(HttpVerb::OPTIONS)
    } else if name == "TRACE"@ {
        Ok(HttpVerb::TRACE)
    } else {
        Err("Unknown http verb"@)
    }
}

/// The name under which a verb is written.
pub open spec fn verb_name(verb: HttpVerb) -> Seq<char> {
    match verb {
        HttpVerb::GET => "GET"@,
        HttpVerb::HEAD => "HEAD"@,
        HttpVerb::POST => "POST"@,
        HttpVerb::PUT => "PUT"@,
        HttpVerb::DELETE => "DELETE"@,
        HttpVerb::CONNECT => "CONNECT"@,
        HttpVerb::OPTIONS => "OPTIONS"@,
        HttpVerb::TRACE => "TRACE"@,
        HttpVerb::PATCH => "PATCH"@,
    }
}

impl HttpVerb {
    /// The verb of an upper-case name.
    pub fn from_upper(name: &str) -> (verb: Result<HttpVerb, &'static str>)
        ensures
            with_error_text(verb) == verb_named(name@),
    {
        if same_text(name, "GET") {
            Ok(HttpVerb::GET)
        } else if same_text(name, "HEAD") {
            Ok(HttpVerb::HEAD)
        } else if same_text(name, "POST") {
            Ok(HttpVerb::POST)
        } else if same_text(name, "PUT") {
            Ok(HttpVerb::PUT)
        } else if same_text(name, "DELETE") {
            Ok(HttpVerb::DELETE)
        } else if same_text(name, "CONNECT") {
            Ok(HttpVerb::CONNECT)
        } else if same_text(name, "PATCH") {
            Ok(HttpVerb::PATCH)
        } else if same_text(name, "OPTIONS") {
            Ok(HttpVerb::OPTIONS)
        } else if same_text(name, "TRACE") {
            Ok(HttpVerb::TRACE)
        } else {
            Err("Unknown http verb")
        }
    }

    /// The verb that `data` names, in any letter case.
    pub fn from_str(data: &str) -> (verb: Result<HttpVerb, &'static str>)
        ensures
            with_error_text(verb) == verb_named(crate::text::uppercase(data@)),
    {
        let upper = to_uppercase(data);
        HttpVerb::from_upper(upper.as_str())
    }

    /// The name under which the verb is written.
    pub fn get_str(&self) -> (name: &'static str)
        ensures
            name@ == verb_name(*self),
    {
        match self {
            HttpVerb::GET => "GET",
            HttpVerb::HEAD => "HEAD",
            HttpVerb::POST => "POST",
            HttpVerb::PUT => "PUT",
            HttpVerb::DELETE => "DELETE",
            HttpVerb::CONNECT => "CONNECT",
            HttpVerb::OPTIONS => "OPTIONS",
            HttpVerb::TRACE => "TRACE",
            HttpVerb::PATCH => "PATCH",
        }
    }
}

/// The status that a code stands for.
pub open spec fn status_of_code(code: int) -> Result<HttpStatus, Seq<char>> {
    if code == 200 {
        Ok(HttpStatus::OK)
    } else if code == 400 {
        Ok(HttpStatus::BadRequest)
    } else if code == 401 {
        Ok(HttpStatus::Unauthorized)
    } else if code == 404 {
        Ok(HttpStatus::NotFound)
    } else if code == 405 {
        Ok(HttpStatus::MethodNotAllowed)
    } else if code == 500 {
        Ok(HttpStatus::InternalError)
    } else {
        Err("Unknown response type code"@)
    }
}

/// The code of a status.
pub open spec fn status_code(status: HttpStatus) -> int {
    match status {
        HttpStatus::OK => 200,
        HttpStatus::BadRequest => 400,
        HttpStatus::Unauthorized => 401,
        HttpStatus::NotFound => 404,
        HttpStatus::MethodNotAllowed => 405,
        HttpStatus::InternalError => 500,
    }
}

/// The reason phrase of a status.
pub open spec fn status_phrase(status: HttpStatus) -> Seq<char> {
    match status {
        HttpStatus::OK => "OK"@,
        HttpStatus::BadRequest => "Bad Request"@,
        HttpStatus::Unauthorized => "Unauthorized"@,
        HttpStatus::NotFound => "Not Found"@,
        HttpStatus::MethodNotAllowed => "Method Not Allowed"@,
        HttpStatus::InternalError => "Internal Error"@,
    }
}

impl HttpStatus {
    /// The status for a code; codes outside the six known ones are refused.
    pub fn from_code(code: i16) -> (status: Result<HttpStatus, &'static str>)
        ensures
            with_error_text(status) == status_of_code(code as int),
    {
        if code == 200 {
            Ok(HttpStatus::OK)
        } else if code == 400 {
            Ok(HttpStatus::BadRequest)
        } else if code == 401 {
            Ok(HttpStatus::Unauthorized)
        } else if code == 404 {
            Ok(HttpStatus::NotFound)
        } else if code == 405 {
            Ok(HttpStatus::MethodNotAllowed)
        } else if code == 500 {
            Ok(HttpStatus::InternalError)
        } else {
            Err("Unknown response type code")
        }
    }

    /// The code of the status.
    pub fn get_code(&self) -> (code: i16)
        ensures
            code == status_code(*self),
    {
        match self {
            HttpStatus::OK => 200,
            HttpStatus::BadRequest => 400,
            HttpStatus::Unauthorized => 401,
            HttpStatus::NotFound => 404,
            HttpStatus::MethodNotAllowed => 405,
            HttpStatus::InternalError => 500,
        }
    }

    /// The reason phrase of the status.
    pub fn get_str(&self) -> (phrase: &'static str)
        ensures
            phrase@ == status_phrase(*self),
    {
        match self {
            HttpStatus::OK => "OK",
            HttpStatus::BadRequest => "Bad Request",
            HttpStatus::Unauthorized => "Unauthorized",
            HttpStatus::NotFound => "Not Found",
            HttpStatus::MethodNotAllowed => "Method Not Allowed",
            HttpStatus::InternalError => "Internal Error",
        }
    }
}

/// The entries after each of `additions` has been written in order.
pub open spec fn put_all(
    base: Seq<(Seq<char>, Seq<char>)>,
    additions: Seq<(Seq<char>, Seq<char>)>,
) -> Seq<(Seq<char>, Seq<char>)>
    decreases additions.len(),
{
    if additions.len() == 0 {
        base
    } else {
        put(put_all(base, additions.drop_last()), additions.last().0, additions.last().1)
    }
}

/// The headers that every message carries.
pub open spec fn standard_headers(content_type: Seq<char>, content_length: nat) -> Seq<
    (Seq<char>, Seq<char>),
> {
    put(
        put(
            put(
                put(Seq::empty(), "Server"@, "Psionic 0.0.1"@),
                "Content-Length"@,
                decimal(content_length),
            ),
            "Connection"@,
            "Closed"@,
        ),
        "Content-Type"@,
        content_type,
    )
}

/// The headers of a new message: the standard ones, overwritten and extended
/// by the additions.
pub open spec fn message_headers(
    content_type: Seq<char>,
    content_length: nat,
    additions: Seq<(Seq<char>, Seq<char>)>,
) -> Seq<(Seq<char>, Seq<char>)> {
    put_all(standard_headers(content_type, content_length), additions)
}

/// The header lines as they are written: `key: value` and a line end each.
pub open spec fn header_lines(entries: Seq<(Seq<char>, Seq<char>)>) -> Seq<char>
    decreases entries.len(),
{
    if entries.len() == 0 {
        Seq::empty()
    } else {
        header_lines(entries.drop_last()) + entries.last().0 + ": "@ + entries.last().1 + "\r\n"@
    }
}

/// The text of a request header.
pub open spec fn request_text(header: RequestHeaderView) -> Seq<char> {
    verb_name(header.verb) + " "@ + header.route + " "@ + header.http_version + "\r\n"@
        + header_lines(header.headers) + "\r\n"@
}

/// The text of a response header.
pub open spec fn response_text(header: ResponseHeaderView) -> Seq<char> {
    header.http_version + " "@ + decimal(status_code(header.status) as nat) + " "@ + status_phrase(
        header.status,
    ) + "\r\n"@ + header_lines(header.headers) + "\r\n"@
}

/// The bytes of a body, none where there is no body.
pub open spec fn body_bytes(body: Option<Seq<u8>>) -> Seq<u8> {
    match body {
        Some(bytes) => bytes,
        None => Seq::empty(),
    }
}

/// The length of a body, zero where there is none.
pub open spec fn body_length(body: Option<Seq<u8>>) -> nat {
    body_bytes(body).len()
}

fn build_headers(content_type: String, addition_headers: TextMap, content_length: usize) -> (headers:
    TextMap)
    ensures
        headers.entries() == message_headers(
            content_type@,
            content_length as nat,
            addition_headers.entries(),
        ),
{
    let mut headers = TextMap::new();
    headers.insert(String::from_str("Server"), String::from_str("Psionic 0.0.1"));
    headers.insert(String::from_str("Content-Length"), decimal_text(content_length));
    headers.insert(String::from_str("Connection"), String::from_str("Closed"));
    headers.insert(String::from_str("Content-Type"), content_type);
    let ghost base = headers.entries();
    let mut i: usize = 0;
    while i < addition_headers.len()
        invariant
            i <= addition_headers.entries().len(),
            headers.entries() == put_all(base, addition_headers.entries().take(i as int)),
        decreases addition_headers.entries().len() - i,
    {
        let key = addition_headers.key_at(i).clone();
        let value = addition_headers.value_at(i).clone();
        assert(addition_headers.entries().take(i + 1).drop_last()
            =~= addition_headers.entries().take(i as int));
        headers.insert(key, value);
        i += 1;
    }
    assert(addition_headers.entries().take(i as int) =~= addition_headers.entries());
    headers
}

fn push_header_lines(headers: &TextMap, text: &mut String)
    ensures
        final(text)@ == old(text)@ + header_lines(headers.entries()),
{
    let mut i: usize = 0;
    let ghost start = text@;
    assert(headers.entries().take(0) =~= Seq::empty());
    while i < headers.len()
        invariant
            i <= headers.entries().len(),
            text@ == start + header_lines(headers.entries().take(i as int)),
        decreases headers.entries().len() - i,
    {
        assert(headers.entries().take(i + 1).drop_last() =~= headers.entries().take(i as int));
        text.append(headers.key_at(i).as_str());
        text.append(": ");
        text.append(headers.value_at(i).as_str());
        text.append("\r\n");
        i += 1;
        assert(text@ =~= start + header_lines(headers.entries().take(i as int)));
    }
    assert(headers.entries().take(i as int) =~= headers.entries());
}

fn body_len(body: &Option<Vec<u8>>) -> (len: usize)
    ensures
        len == body_length(optional_bytes(*body)),
{
    match body {
        None => 0,
        Some(b) => b.len(),
    }
}

fn with_body(bytes: Vec<u8>, body: &Option<Vec<u8>>) -> (all: Vec<u8>)
    ensures
        all@ == bytes@ + body_bytes(optional_bytes(*body)),
{
    let mut all = bytes;
    if let Some(b) = body {
        all.extend_from_slice(b.as_slice());
    }
    all
}

impl HttpRequest {
    /// A request for `route` with the standard headers, the additional ones,
    /// and the body's length as its content length.
    pub fn create(
        route: String,
        verb: HttpVerb,
        content_type: String,
        addition_headers: TextMap,
        body: Option<Vec<u8>>,
    ) -> (request: HttpRequest)
        ensures
            request@ == (RequestView {
                header: RequestHeaderView {
                    route: route@,
                    verb,
                    content_length: body_length(optional_bytes(body)),
                    headers: message_headers(
                        content_type@,
                        body_length(optional_bytes(body)),
                        addition_headers.entries(),
                    ),
                    http_version: "HTTP/1.1"@,
                },
                body: optional_bytes(body),
            }),
    {
        let len = body_len(&body);
        HttpRequest {
            header: HttpRequestHeader::create(route, verb, content_type, addition_headers, len),
            body,
        }
    }

    /// The header's text in UTF-8, followed by the body.
    pub fn to_bytes(&mut self) -> (bytes: Vec<u8>)
        ensures
            *final(self) == *old(self),
            bytes@ == encode_utf8(request_text(old(self)@.header)) + body_bytes(old(self)@.body),
    {
        let bytes = self.header.to_bytes();
        with_body(bytes, &self.body)
    }
}

impl HttpRequestHeader {
    /// A header for `route` with the standard headers and the additional
    /// ones; an additional header replaces a standard one of the same key.
    pub fn create(
        route: String,
        verb: HttpVerb,
        content_type: String,
        addition_headers: TextMap,
        content_length: usize,
    ) -> (header: HttpRequestHeader)
        ensures
            header@ == (RequestHeaderView {
                route: route@,
                verb,
                content_length: content_length as nat,
                headers: message_headers(
                    content_type@,
                    content_length as nat,
                    addition_headers.entries(),
                ),
                http_version: "HTTP/1.1"@,
            }),
    {
        let http_version = String::from_str("HTTP/1.1");
        let headers = build_headers(content_type, addition_headers, content_length);
        HttpRequestHeader { route, verb, content_length, headers, http_version }
    }

    /// The header as it is written: the request line, one line per field,
    /// and an empty line.
    pub fn get_string(&self) -> (text: String)
        ensures
            text@ == request_text(self@),
    {
        let mut text = String::new();
        text.append(self.verb.get_str());
        text.append(" ");
        text.append(self.route.as_str());
        text.append(" ");
        text.append(self.http_version.as_str());
        text.append("\r\n");
        push_header_lines(&self.headers, &mut text);
        text.append("\r\n");
        assert(text@ =~= request_text(self@));
        text
    }

    /// The header's text in UTF-8.
    pub fn to_bytes(&mut self) -> (bytes: Vec<u8>)
        ensures
            *final(self) == *old(self),
            bytes@ == encode_utf8(request_text(old(self)@)),
    {
        self.get_string().as_str().as_bytes_vec()
    }
}

impl HttpResponse {
    /// A response with the standard headers, the additional ones, and the
    /// body's length as its content length.
    pub fn create(
        status: HttpStatus,
        content_type: String,
        addition_headers: TextMap,
        body: Option<Vec<u8>>,
    ) -> (response: HttpResponse)
        ensures
            response@ == (ResponseView {
                header: ResponseHeaderView {
                    http_version: "HTTP/1.1"@,
                    status,
                    content_length: body_length(optional_bytes(body)),
                    headers: message_headers(
                        content_type@,
                        body_length(optional_bytes(body)),
                        addition_headers.entries(),
                    ),
                },
                body: optional_bytes(body),
            }),
    {
        let len = body_len(&body);
        HttpResponse {
            header: HttpResponseHeader::create(status, content_type, addition_headers, len),
            body,
        }
    }

    /// The header's text in UTF-8, followed by the body.
    pub fn to_bytes(&mut self) -> (bytes: Vec<u8>)
        ensures
            *final(self) == *old(self),
            bytes@ == encode_utf8(response_text(old(self)@.header)) + body_bytes(old(self)@.body),
    {
        let bytes = self.header.to_bytes();
        with_body(bytes, &self.body)
    }
}

impl HttpResponseHeader {
    /// A header with the standard headers and the additional ones; an
    /// additional header replaces a standard one of the same key.
    pub fn create(
        status: HttpStatus,
        content_type: String,
        addition_headers: TextMap,
        content_length: usize,
    ) -> (header: HttpResponseHeader)
        ensures
            header@ == (ResponseHeaderView {
                http_version: "HTTP/1.1"@,
                status,
                content_length: content_length as nat,
                headers: message_headers(
                    content_type@,
                    content_length as nat,
                    addition_headers.entries(),
                ),
            }),
    {
        let http_version = String::from_str("HTTP/1.1");
        let headers = build_headers(content_type, addition_headers, content_length);
        HttpResponseHeader { http_version, status, content_length, headers }
    }

    /// The header as it is written: the status line, one line per field,
    /// and an empty line.
    pub fn get_string(&self) -> (text: String)
        ensures
            text@ == response_text(self@),
    {
        let mut text = String::new();
        text.append(self.http_version.as_str());
        text.append(" ");
        let code = decimal_text(self.status.get_code() as usize);
        text.append(code.as_str());
        text.append(" ");
        text.append(self.status.get_str());
        text.append("\r\n");
        push_header_lines(&self.headers, &mut text);
        text.append("\r\n");
        assert(text@ =~= response_text(self@));
        text
    }

    /// The header's text in UTF-8.
    pub fn to_bytes(&mut self) -> (bytes: Vec<u8>)
        ensures
            *final(self) == *old(self),
            bytes@ == encode_utf8(response_text(old(self)@)),
    {
        self.get_string().as_str().as_bytes_vec()
    }
}

/// What the header lines of a message declare.
pub struct HeaderFields {
    pub entries: Seq<(Seq<char>, Seq<char>)>,
    pub content_length: nat,
}

/// The length that a `Content-Length` value declares, or `current` if the
/// value is no number that fits.
pub open spec fn declared_length(value: Seq<char>, current: nat) -> nat {
    match unsigned_value(value) {
        Some(n) => if n <= usize::MAX {
            n
        } else {
            current
        },
        None => current,
    }
}

/// The fields after one more line: a line `key: value` writes `value` under
/// the key in upper case; any other line changes nothing.
pub open spec fn scan_line(fields: HeaderFields, line: Seq<char>) -> HeaderFields {
    let parts = split(line, ": "@);
    if parts.len() > 1 {
        let key = uppercase(parts[0]);
        HeaderFields {
            entries: put(fields.entries, key, parts[1]),
            content_length: if key == "CONTENT-LENGTH"@ {
                declared_length(parts[1], fields.content_length)
            } else {
                fields.content_length
            },
        }
    } else {
        fields
    }
}

/// The fields that a run of header lines declares.
pub open spec fn scan_lines(lines: Seq<Seq<char>>) -> HeaderFields
    decreases lines.len(),
{
    if lines.len() == 0 {
        HeaderFields { entries: Seq::empty(), content_length: 0 }
    } else {
        scan_line(scan_lines(lines.drop_last()), lines.last())
    }
}

/// The request header that a text holds.
pub open spec fn parse_request(data: Seq<char>) -> Result<RequestHeaderView, Seq<char>> {
    let lines = split(data, "\r\n"@);
    let first = split(lines[0], " "@);
    match verb_named(uppercase(first[0])) {
        Err(reason) => Err(reason),
        Ok(verb) => if first.len() < 3 {
            Err("Malformed request line"@)
        } else {
            let fields = scan_lines(lines.skip(1));
            Ok(
                RequestHeaderView {
                    route: first[1],
                    verb,
                    content_length: fields.content_length,
                    headers: fields.entries,
                    http_version: first[2],
                },
            )
        },
    }
}

/// The status that a status code's text stands for.
pub open spec fn status_of_text(code: Seq<char>) -> Result<HttpStatus, Seq<char>> {
    match signed_value(code) {
        Some(n) => if -32768 <= n <= 32767 {
            status_of_code(n)
        } else {
            Err("Failed to parse status code"@)
        },
        None => Err("Failed to parse status code"@),
    }
}

/// The response header that a text holds.
pub open spec fn parse_response(data: Seq<char>) -> Result<ResponseHeaderView, Seq<char>> {
    let lines = split(data, "\r\n"@);
    let first = split(lines[0], " "@);
    if first.len() < 2 {
        Err("Malformed status line"@)
    } else {
        match status_of_text(first[1]) {
            Err(reason) => Err(reason),
            Ok(status) => {
                let fields = scan_lines(lines.skip(1));
                Ok(
                    ResponseHeaderView {
                        http_version: first[0],
                        status,
                        content_length: fields.content_length,
                        headers: fields.entries,
                    },
                )
            },
        }
    }
}

/// Whether a header block ends at position `i`: an empty line's line feed,
/// past the first five bytes.
pub open spec fn ends_header(buffer: Seq<u8>, i: int) -> bool {
    4 < i < buffer.len() && buffer[i] == 10 && buffer[i - 1] == 13 && buffer[i - 2] == 10
        && buffer[i - 3] == 13
}

/// The first position from `from` on at which a header block ends.
pub open spec fn header_end_from(buffer: Seq<u8>, from: int) -> Option<int>
    decreases buffer.len() - from,
{
    if from >= buffer.len() {
        None
    } else if ends_header(buffer, from) {
        Some(from)
    } else {
        header_end_from(buffer, from + 1)
    }
}

/// The first position at which a header block ends.
pub open spec fn header_end(buffer: Seq<u8>) -> Option<int> {
    header_end_from(buffer, 0)
}

proof fn lemma_header_end_from(buffer: Seq<u8>, from: int)
    requires
        0 <= from,
    ensures
        match header_end_from(buffer, from) {
            Some(end) => from <= end && ends_header(buffer, end) && forall|i: int|
                from <= i < end ==> !ends_header(buffer, i),
            None => forall|i: int| from <= i ==> !ends_header(buffer, i),
        },
    decreases buffer.len() - from,
{
    if from < buffer.len() && !ends_header(buffer, from) {
        lemma_header_end_from(buffer, from + 1);
    }
}

/// The header block ends at the first position that ends one, and nowhere
/// if there is no such position.
pub proof fn lemma_header_end_is_first(buffer: Seq<u8>)
    ensures
        match header_end(buffer) {
            Some(end) => ends_header(buffer, end) && forall|i: int|
                i < end ==> !ends_header(buffer, i),
            None => forall|i: int| !ends_header(buffer, i),
        },
{
    lemma_header_end_from(buffer, 0);
}

/// The header at the start of a buffer and the position where the body
/// begins.
pub open spec fn buffered_request(buffer: Seq<u8>) -> Result<(RequestHeaderView, int), Seq<char>> {
    match header_end(buffer) {
        None => Err("Request header larger than buffer"@),
        Some(end) => match parse_request(utf8_lossy(buffer.take(end))) {
            Err(reason) => Err(reason),
            Ok(header) => Ok((header, end + 1)),
        },
    }
}

/// The header at the start of a buffer and the position where the body
/// begins.
pub open spec fn buffered_response(buffer: Seq<u8>) -> Result<(ResponseHeaderView, int), Seq<char>> {
    match header_end(buffer) {
        None => Err("Request header larger than buffer"@),
        Some(end) => match parse_response(utf8_lossy(buffer.take(end))) {
            Err(reason) => Err(reason),
            Ok(header) => Ok((header, end + 1)),
        },
    }
}

/// The body that lies in `buffer` from `start` on, if the header declares
/// one and all of it fits.
pub open spec fn buffered_body(buffer: Seq<u8>, start: int, content_length: nat) -> Option<Seq<u8>> {
    if content_length > 0 && start + content_length <= buffer.len() {
        Some(buffer.subrange(start, start + content_length))
    } else {
        None
    }
}

/// A parsed request header, or the reason there is none, as views.
pub open spec fn request_header_result(result: Result<HttpRequestHeader, &'static str>) -> Result<
    RequestHeaderView,
    Seq<char>,
> {
    match result {
        Ok(header) => Ok(header@),
        Err(reason) => Err(reason@),
    }
}

/// A parsed response header, or the reason there is none, as views.
pub open spec fn response_header_result(result: Result<HttpResponseHeader, &'static str>) -> Result<
    ResponseHeaderView,
    Seq<char>,
> {
    match result {
        Ok(header) => Ok(header@),
        Err(reason) => Err(reason@),
    }
}

fn separator(text: &str) -> (sep: Vec<char>)
    ensures
        sep@ == text@,
{
    to_chars(text)
}

/// Records one header whose key is already in upper case, and returns the
/// content length that the message declares after it.
pub fn record_header(
    headers: &mut TextMap,
    content_length: usize,
    key: String,
    value: String,
) -> (declared: usize)
    ensures
        final(headers).entries() == put(old(headers).entries(), key@, value@),
        final(headers)@ == old(headers)@.insert(key@, value@),
        declared as nat == (if key@ == "CONTENT-LENGTH"@ {
            declared_length(value@, content_length as nat)
        } else {
            content_length as nat
        }),
{
    let mut declared = content_length;
    if same_text(key.as_str(), "CONTENT-LENGTH") {
        match parse_usize(value.as_str()) {
            Some(n) => {
                declared = n;
            },
            None => {},
        }
    }
    headers.insert(key, value);
    declared
}

fn scan_headers(lines: &Vec<Vec<char>>) -> (fields: (TextMap, usize))
    requires
        lines.len() >= 1,
    ensures
        fields.0.entries() == scan_lines(texts(lines@).skip(1)).entries,
        fields.1 as nat == scan_lines(texts(lines@).skip(1)).content_length,
{
    let mut headers = TextMap::new();
    let mut content_length: usize = 0;
    let colon = separator(": ");
    proof {
        reveal_strlit(": ");
    }
    let ghost rest = texts(lines@).skip(1);
    let mut i: usize = 1;
    assert(rest.take(0) =~= Seq::empty());
    while i < lines.len()
        invariant
            1 <= i <= lines.len(),
            colon@ == ": "@,
            colon.len() > 0,
            rest == texts(lines@).skip(1),
            headers.entries() == scan_lines(rest.take(i - 1)).entries,
            content_length as nat == scan_lines(rest.take(i - 1)).content_length,
        decreases lines.len() - i,
    {
        proof {
            assert(rest.take(i as int).drop_last() =~= rest.take(i - 1));
            assert(rest.take(i as int).last() == lines@[i as int]@);
        }
        let parts = split_chars(&lines[i], &colon);
        if parts.len() > 1 {
            assert(texts(parts@)[0] == parts@[0]@);
            assert(texts(parts@)[1] == parts@[1]@);
            let name = from_chars(&parts[0]);
            let key = to_uppercase(name.as_str());
            let value = from_chars(&parts[1]);
            content_length = record_header(&mut headers, content_length, key, value);
        }
        i += 1;
    }
    assert(rest.take(i - 1) =~= rest);
    (headers, content_length)
}

fn find_header_end(buffer: &[u8; 4096]) -> (end: Option<usize>)
    ensures
        match end {
            Some(i) => header_end(buffer@) == Some(i as int) && 4 < i < 4096,
            None => header_end(buffer@) is None,
        },
{
    let mut i: usize = 0;
    while i < 4096
        invariant
            i <= 4096,
            buffer@.len() == 4096,
            header_end(buffer@) == header_end_from(buffer@, i as int),
        decreases 4096 - i,
    {
        if i > 4 && buffer[i] == 10 && buffer[i - 1] == 13 && buffer[i - 2] == 10 && buffer[i - 3]
            == 13 {
            return Some(i);
        }
        i += 1;
    }
    None
}

fn body_in(buffer: &[u8; 4096], start: usize, content_length: usize) -> (body: Option<Vec<u8>>)
    requires
        start <= 4096,
    ensures
        optional_bytes(body) == buffered_body(buffer@, start as int, content_length as nat),
{
    if content_length > 0 && content_length <= 4096 - start {
        let part = slice_subrange(array_as_slice(buffer), start, start + content_length);
        Some(slice_to_vec(part))
    } else {
        None
    }
}

/// What reading a response's first buffer leads to.
#[derive(Debug, PartialEq, Eq)]
pub enum ResponseStep {
    /// The response is complete.
    Complete(HttpResponse),
    /// Only the header has arrived; the body comes with the next read.
    AwaitBody(HttpResponseHeader),
}

/// A request read from a buffer: its header, and the body if the header
/// declares one that lies in the buffer whole.
pub open spec fn request_in(buffer: Seq<u8>) -> Result<RequestView, Seq<char>> {
    match buffered_request(buffer) {
        Err(reason) => Err(reason),
        Ok((header, start)) => Ok(
            RequestView { header, body: buffered_body(buffer, start, header.content_length) },
        ),
    }
}

/// Whether the body of a response is still to come: the header declares one
/// that would fit, and the read ended with the header.
pub open spec fn body_outstanding(header: ResponseHeaderView, start: int, read: int) -> bool {
    header.content_length > 0 && start + header.content_length <= 4096 && read == start
}

/// A read request, or the reason there is none, as views.
pub open spec fn request_result(result: Result<HttpRequest, &'static str>) -> Result<
    RequestView,
    Seq<char>,
> {
    match result {
        Ok(request) => Ok(request@),
        Err(reason) => Err(reason@),
    }
}

impl HttpRequestHeader {
    /// The header in the first bytes of `buffer`, which ends with the first
    /// empty line, and the position where the body begins.
    pub fn create_from_buffer(buffer: [u8; 4096]) -> (result: Result<
        (HttpRequestHeader, usize),
        &'static str,
    >)
        ensures
            match result {
                Ok((header, start)) => buffered_request(buffer@) == Ok::<
                    (RequestHeaderView, int),
                    Seq<char>,
                >((header@, start as int)) && 5 < start <= 4096,
                Err(reason) => buffered_request(buffer@) == Err::<
                    (RequestHeaderView, int),
                    Seq<char>,
                >(reason@),
            },
    {
        match find_header_end(&buffer) {
            None => Err("Request header larger than buffer"),
            Some(end) => {
                let head = slice_subrange(array_as_slice(&buffer), 0, end);
                assert(head@ =~= buffer@.take(end as int));
                let text = lossy_text(head);
                match HttpRequestHeader::parse_from_string(text) {
                    Ok(header) => Ok((header, end + 1)),
                    Err(reason) => Err(reason),
                }
            },
        }
    }

    /// Reads a request header: the request line with verb, route and
    /// version, then one header per line. A request line with an unknown
    /// verb or fewer than three parts is rejected.
    pub fn parse_from_string(data: String) -> (result: Result<HttpRequestHeader, &'static str>)
        ensures
            request_header_result(result) == parse_request(data@),
    {
        proof {
            reveal_strlit("\r\n");
            reveal_strlit(" ");
        }
        let chars = to_chars(data.as_str());
        let lines = split_chars(&chars, &separator("\r\n"));
        assert(texts(lines@)[0] == lines@[0]@);
        let first = split_chars(&lines[0], &separator(" "));
        assert(texts(first@)[0] == first@[0]@);
        let name = from_chars(&first[0]);
        match HttpVerb::from_str(name.as_str()) {
            Err(reason) => Err(reason),
            Ok(verb) => {
                if first.len() < 3 {
                    return Err("Malformed request line");
                }
                assert(texts(first@)[1] == first@[1]@);
                assert(texts(first@)[2] == first@[2]@);
                let route = from_chars(&first[1]);
                let http_version = from_chars(&first[2]);
                let (headers, content_length) = scan_headers(&lines);
                Ok(HttpRequestHeader { route, verb, content_length, headers, http_version })
            },
        }
    }
}

impl HttpRequest {
    /// The request that a buffer holds: the computing part of reading one
    /// from a stream.
    pub fn from_buffer(buffer: [u8; 4096]) -> (result: Result<HttpRequest, &'static str>)
        ensures
            request_result(result) == request_in(buffer@),
    {
        match HttpRequestHeader::create_from_buffer(buffer) {
            Err(reason) => Err(reason),
            Ok((header, start)) => {
                let body = body_in(&buffer, start, header.content_length);
                Ok(HttpRequest { header, body })
            },
        }
    }
}

impl HttpResponseHeader {
    /// The header in the first bytes of `buffer`, which ends with the first
    /// empty line, and the position where the body begins.
    pub fn create_from_buffer(buffer: [u8; 4096]) -> (result: Result<
        (HttpResponseHeader, usize),
        &'static str,
    >)
        ensures
            match result {
                Ok((header, start)) => buffered_response(buffer@) == Ok::<
                    (ResponseHeaderView, int),
                    Seq<char>,
                >((header@, start as int)) && 5 < start <= 4096,
                Err(reason) => buffered_response(buffer@) == Err::<
                    (ResponseHeaderView, int),
                    Seq<char>,
                >(reason@),
            },
    {
        match find_header_end(&buffer) {
            None => Err("Request header larger than buffer"),
            Some(end) => {
                let head = slice_subrange(array_as_slice(&buffer), 0, end);
                assert(head@ =~= buffer@.take(end as int));
                let text = lossy_text(head);
                match HttpResponseHeader::parse_from_string(text) {
                    Ok(header) => Ok((header, end + 1)),
                    Err(reason) => Err(reason),
                }
            },
        }
    }

    /// Reads a response header: the status line with version and status
    /// code, then one header per line. A status line with fewer than two
    /// parts, or with a code that is no known status, is rejected.
    pub fn parse_from_string(data: String) -> (result: Result<HttpResponseHeader, &'static str>)
        ensures
            response_header_result(result) == parse_response(data@),
    {
        proof {
            reveal_strlit("\r\n");
            reveal_strlit(" ");
        }
        let chars = to_chars(data.as_str());
        let lines = split_chars(&chars, &separator("\r\n"));
        assert(texts(lines@)[0] == lines@[0]@);
        let first = split_chars(&lines[0], &separator(" "));
        if first.len() < 2 {
            return Err("Malformed status line");
        }
        assert(texts(first@)[0] == first@[0]@);
        assert(texts(first@)[1] == first@[1]@);
        let http_version = from_chars(&first[0]);
        let code = from_chars(&first[1]);
        let status = match parse_i16(code.as_str()) {
            Some(status_code) => HttpStatus::from_code(status_code),
            None => Err("Failed to parse status code"),
        };
        match status {
            Err(reason) => Err(reason),
            Ok(status) => {
                let (headers, content_length) = scan_headers(&lines);
                Ok(HttpResponseHeader { http_version, status, content_length, headers })
            },
        }
    }
}

impl HttpResponse {
    /// What the first buffer read from a stream holds, where `read` is the
    /// number of bytes that the read brought: the response, or only its
    /// header if the body is still to come.
    pub fn from_buffer(buffer: [u8; 4096], read: usize) -> (result: Result<ResponseStep, &'static str>)
        ensures
            match result {
                Err(reason) => buffered_response(buffer@) == Err::<
                    (ResponseHeaderView, int),
                    Seq<char>,
                >(reason@),
                Ok(ResponseStep::AwaitBody(header)) => exists|start: int|
                    #![trigger body_outstanding(header@, start, read as int)]
                    buffered_response(buffer@) == Ok::<(ResponseHeaderView, int), Seq<char>>(
                        (header@, start),
                    ) && body_outstanding(header@, start, read as int),
                Ok(ResponseStep::Complete(response)) => exists|start: int|
                    #![trigger body_outstanding(response@.header, start, read as int)]
                    buffered_response(buffer@) == Ok::<(ResponseHeaderView, int), Seq<char>>(
                        (response@.header, start),
                    ) && !body_outstanding(response@.header, start, read as int) && response@.body
                        == buffered_body(buffer@, start, response@.header.content_length),
            },
    {
        match HttpResponseHeader::create_from_buffer(buffer) {
            Err(reason) => Err(reason),
            Ok((header, start)) => {
                if header.content_length > 0 && header.content_length <= 4096 - start && read
                    == start {
                    assert(body_outstanding(header@, start as int, read as int));
                    Ok(ResponseStep::AwaitBody(header))
                } else {
                    let body = body_in(&buffer, start, header.content_length);
                    let response = HttpResponse { header, body };
                    assert(!body_outstanding(response@.header, start as int, read as int));
                    Ok(ResponseStep::Complete(response))
                }
            },
        }
    }

    /// The response whose body came with a second read: the first bytes of
    /// `buffer`, as many as the header declares.
    pub fn with_body(header: HttpResponseHeader, buffer: [u8; 4096]) -> (response: HttpResponse)
        ensures
            response@ == (ResponseView {
                header: header@,
                body: buffered_body(buffer@, 0, header@.content_length),
            }),
    {
        let body = body_in(&buffer, 0, header.content_length);
        HttpResponse { header, body }
    }
}

} // verus!
