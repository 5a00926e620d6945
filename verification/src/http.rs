//! HTTP/1.x messages: methods, versions, status codes, case-insensitive
//! headers, requests with their wire form, and responses with their parser.

use vstd::prelude::*;
use vstd::utf8::*;
use crate::error::{Error, Result};
use crate::text::{uppercase, lowercase, is_ascii_text, ascii_lower, ascii_upper, to_uppercase, str_equal, str_chars, str_to_string, contains_seq,
    words, views_of, join_with_space, parse_unsigned, first_index_of, trim, utf8_str, byte_range,
    split_whitespace_chars, join_words_from, parse_unsigned_chars, find_char, trim_chars, slice_chars,
    string_from_chars, utf8_error_text, u16_parse_error_text, parse_u16, concat_str, decimal, decimal_string};
use crate::headers::{HttpHeaders, HeaderList, lookup, set_field};
use crate::time::{Duration, Timestamp};

verus! {

/// HTTP methods
#[derive(Debug, Clone, Copy, PartialEq, Eq, Hash, Structural)]
pub enum HttpMethod {
    GET,
    POST,
    PUT,
    DELETE,
    HEAD,
    OPTIONS,
    PATCH,
    TRACE,
    CONNECT,
}

/// HTTP versions
#[derive(Debug, Clone, Copy, PartialEq, Eq, Structural)]
pub enum HttpVersion {
    Http1_0,
    Http1_1,
    Http2_0,
}

/// HTTP status codes
#[derive(Debug, Clone, Copy, PartialEq, Eq, Structural)]
pub enum HttpStatus {
    Continue,
    SwitchingProtocols,
    OK,
    Created,
    Accepted,
    NoContent,
    MovedPermanently,
    Found,
    NotModified,
    BadRequest,
    Unauthorized,
    Forbidden,
    NotFound,
    MethodNotAllowed,
    RequestTimeout,
    Conflict,
    Gone,
    LengthRequired,
    PayloadTooLarge,
    UriTooLong,
    UnsupportedMediaType,
    RangeNotSatisfiable,
    ExpectationFailed,
    InternalServerError,
    NotImplemented,
    BadGateway,
    ServiceUnavailable,
    GatewayTimeout,
    HttpVersionNotSupported,
}

/// The token that names a method on the wire.
pub open spec fn method_name(m: HttpMethod) -> Seq<char> {
    match m {
        HttpMethod::GET => "GET"@,
        HttpMethod::POST => "POST"@,
        HttpMethod::PUT => "PUT"@,
        HttpMethod::DELETE => "DELETE"@,
        HttpMethod::HEAD => "HEAD"@,
        HttpMethod::OPTIONS => "OPTIONS"@,
        HttpMethod::PATCH => "PATCH"@,
        HttpMethod::TRACE => "TRACE"@,
        HttpMethod::CONNECT => "CONNECT"@,
    }
}

/// The method whose token is exactly `s`.
pub open spec fn method_from_name(s: Seq<char>) -> Option<HttpMethod> {
    if s == "GET"@ {
        Some(HttpMethod::GET)
    } else if s == "POST"@ {
        Some(HttpMethod::POST)
    } else if s == "PUT"@ {
        Some(HttpMethod::PUT)
    } else if s == "DELETE"@ {
        Some(HttpMethod::DELETE)
    } else if s == "HEAD"@ {
        Some(HttpMethod::HEAD)
    } else if s == "OPTIONS"@ {
        Some(HttpMethod::OPTIONS)
    } else if s == "PATCH"@ {
        Some(HttpMethod::PATCH)
    } else if s == "TRACE"@ {
        Some(HttpMethod::TRACE)
    } else if s == "CONNECT"@ {
        Some(HttpMethod::CONNECT)
    } else {
        None
    }
}

/// The token that names a version on the wire.
pub open spec fn version_name(v: HttpVersion) -> Seq<char> {
    match v {
        HttpVersion::Http1_0 => "HTTP/1.0"@,
        HttpVersion::Http1_1 => "HTTP/1.1"@,
        HttpVersion::Http2_0 => "HTTP/2.0"@,
    }
}

/// The version whose token is exactly `s`.
pub open spec fn version_from_name(s: Seq<char>) -> Option<HttpVersion> {
    if s == "HTTP/1.0"@ {
        Some(HttpVersion::Http1_0)
    } else if s == "HTTP/1.1"@ {
        Some(HttpVersion::Http1_1)
    } else if s == "HTTP/2.0"@ {
        Some(HttpVersion::Http2_0)
    } else {
        None
    }
}

/// The numeric code of a status.
pub open spec fn status_code(s: HttpStatus) -> u16 {
    match s {
        HttpStatus::Continue => 100,
        HttpStatus::SwitchingProtocols => 101,
        HttpStatus::OK => 200,
        HttpStatus::Created => 201,
        HttpStatus::Accepted => 202,
        HttpStatus::NoContent => 204,
        HttpStatus::MovedPermanently => 301,
        HttpStatus::Found => 302,
        HttpStatus::NotModified => 304,
        HttpStatus::BadRequest => 400,
        HttpStatus::Unauthorized => 401,
        HttpStatus::Forbidden => 403,
        HttpStatus::NotFound => 404,
        HttpStatus::MethodNotAllowed => 405,
        HttpStatus::RequestTimeout => 408,
        HttpStatus::Conflict => 409,
        HttpStatus::Gone => 410,
        HttpStatus::LengthRequired => 411,
        HttpStatus::PayloadTooLarge => 413,
        HttpStatus::UriTooLong => 414,
        HttpStatus::UnsupportedMediaType => 415,
        HttpStatus::RangeNotSatisfiable => 416,
        HttpStatus::ExpectationFailed => 417,
        HttpStatus::InternalServerError => 500,
        HttpStatus::NotImplemented => 501,
        HttpStatus::BadGateway => 502,
        HttpStatus::ServiceUnavailable => 503,
        HttpStatus::GatewayTimeout => 504,
        HttpStatus::HttpVersionNotSupported => 505,
    }
}

/// The status with the numeric code `c`, if there is one.
pub open spec fn status_from_code(c: u16) -> Option<HttpStatus> {
    if c == 100 {
        Some(HttpStatus::Continue)
    } else if c == 101 {
        Some(HttpStatus::SwitchingProtocols)
    } else if c == 200 {
        Some(HttpStatus::OK)
    } else if c == 201 {
        Some(HttpStatus::Created)
    } else if c == 202 {
        Some(HttpStatus::Accepted)
    } else if c == 204 {
        Some(HttpStatus::NoContent)
    } else if c == 301 {
        Some(HttpStatus::MovedPermanently)
    } else if c == 302 {
        Some(HttpStatus::Found)
    } else if c == 304 {
        Some(HttpStatus::NotModified)
    } else if c == 400 {
        Some(HttpStatus::BadRequest)
    } else if c == 401 {
        Some(HttpStatus::Unauthorized)
    } else if c == 403 {
        Some(HttpStatus::Forbidden)
    } else if c == 404 {
        Some(HttpStatus::NotFound)
    } else if c == 405 {
        Some(HttpStatus::MethodNotAllowed)
    } else if c == 408 {
        Some(HttpStatus::RequestTimeout)
    } else if c == 409 {
        Some(HttpStatus::Conflict)
    } else if c == 410 {
        Some(HttpStatus::Gone)
    } else if c == 411 {
        Some(HttpStatus::LengthRequired)
    } else if c == 413 {
        Some(HttpStatus::PayloadTooLarge)
    } else if c == 414 {
        Some(HttpStatus::UriTooLong)
    } else if c == 415 {
        Some(HttpStatus::UnsupportedMediaType)
    } else if c == 416 {
        Some(HttpStatus::RangeNotSatisfiable)
    } else if c == 417 {
        Some(HttpStatus::ExpectationFailed)
    } else if c == 500 {
        Some(HttpStatus::InternalServerError)
    } else if c == 501 {
        Some(HttpStatus::NotImplemented)
    } else if c == 502 {
        Some(HttpStatus::BadGateway)
    } else if c == 503 {
        Some(HttpStatus::ServiceUnavailable)
    } else if c == 504 {
        Some(HttpStatus::GatewayTimeout)
    } else if c == 505 {
        Some(HttpStatus::HttpVersionNotSupported)
    } else {
        None
    }
}

/// The reason phrase of a status.
pub open spec fn status_reason(s: HttpStatus) -> Seq<char> {
    match s {
        HttpStatus::Continue => "Continue"@,
        HttpStatus::SwitchingProtocols => "Switching Protocols"@,
        HttpStatus::OK => "OK"@,
        HttpStatus::Created => "Created"@,
        HttpStatus::Accepted => "Accepted"@,
        HttpStatus::NoContent => "No Content"@,
        HttpStatus::MovedPermanently => "Moved Permanently"@,
        HttpStatus::Found => "Found"@,
        HttpStatus::NotModified => "Not Modified"@,
        HttpStatus::BadRequest => "Bad Request"@,
        HttpStatus::Unauthorized => "Unauthorized"@,
        HttpStatus::Forbidden => "Forbidden"@,
        HttpStatus::NotFound => "Not Found"@,
        HttpStatus::MethodNotAllowed => "Method Not Allowed"@,
        HttpStatus::RequestTimeout => "Request Timeout"@,
        HttpStatus::Conflict => "Conflict"@,
        HttpStatus::Gone => "Gone"@,
        HttpStatus::LengthRequired => "Length Required"@,
        HttpStatus::PayloadTooLarge => "Payload Too Large"@,
        HttpStatus::UriTooLong => "URI Too Long"@,
        HttpStatus::UnsupportedMediaType => "Unsupported Media Type"@,
        HttpStatus::RangeNotSatisfiable => "Range Not Satisfiable"@,
        HttpStatus::ExpectationFailed => "Expectation Failed"@,
        HttpStatus::InternalServerError => "Internal Server Error"@,
        HttpStatus::NotImplemented => "Not Implemented"@,
        HttpStatus::BadGateway => "Bad Gateway"@,
        HttpStatus::ServiceUnavailable => "Service Unavailable"@,
        HttpStatus::GatewayTimeout => "Gateway Timeout"@,
        HttpStatus::HttpVersionNotSupported => "HTTP Version Not Supported"@,
    }
}

/// Status classes: 1xx.
pub open spec fn is_informational_status(s: HttpStatus) -> bool {
    100 <= status_code(s) < 200
}

/// Status classes: 2xx.
pub open spec fn is_success_status(s: HttpStatus) -> bool {
    200 <= status_code(s) < 300
}

/// Status classes: 3xx.
pub open spec fn is_redirection_status(s: HttpStatus) -> bool {
    300 <= status_code(s) < 400
}

/// Status classes: 4xx.
pub open spec fn is_client_error_status(s: HttpStatus) -> bool {
    400 <= status_code(s) < 500
}

/// Status classes: 5xx.
pub open spec fn is_server_error_status(s: HttpStatus) -> bool {
    500 <= status_code(s) < 600
}

impl HttpMethod {
    /// Convert to string
    pub fn as_str(&self) -> (r: &'static str)
        ensures
            r@ == method_name(*self),
    {
        match self {
            HttpMethod::GET => "GET",
            HttpMethod::POST => "POST",
            HttpMethod::PUT => "PUT",
            HttpMethod::DELETE => "DELETE",
            HttpMethod::HEAD => "HEAD",
            HttpMethod::OPTIONS => "OPTIONS",
            HttpMethod::PATCH => "PATCH",
            HttpMethod::TRACE => "TRACE",
            HttpMethod::CONNECT => "CONNECT",
        }
    }

    /// Parse from string: the token is compared after upper-casing it.
    pub fn from_str(s: &str) -> (r: Option<Self>)
        ensures
            r == method_from_name(uppercase(s@)),
            is_ascii_text(s@) ==> r == method_from_name(ascii_upper(s@)),
    {
        let u = to_uppercase(s);
        let u = u.as_str();
        if str_equal(u, "GET") {
            Some(HttpMethod::GET)
        } else if str_equal(u, "POST") {
            Some(HttpMethod::POST)
        } else if str_equal(u, "PUT") {
            Some(HttpMethod::PUT)
        } else if str_equal(u, "DELETE") {
            Some(HttpMethod::DELETE)
        } else if str_equal(u, "HEAD") {
            Some(HttpMethod::HEAD)
        } else if str_equal(u, "OPTIONS") {
            Some(HttpMethod::OPTIONS)
        } else if str_equal(u, "PATCH") {
            Some(HttpMethod::PATCH)
        } else if str_equal(u, "TRACE") {
            Some(HttpMethod::TRACE)
        } else if str_equal(u, "CONNECT") {
            Some(HttpMethod::CONNECT)
        } else {
            None
        }
    }
}

impl HttpVersion {
    /// Convert to string
    pub fn as_str(&self) -> (r: &'static str)
        ensures
            r@ == version_name(*self),
    {
        match self {
            HttpVersion::Http1_0 => "HTTP/1.0",
            HttpVersion::Http1_1 => "HTTP/1.1",
            HttpVersion::Http2_0 => "HTTP/2.0",
        }
    }

    /// Parse from string: the token is compared after upper-casing it.
    pub fn from_str(s: &str) -> (r: Option<Self>)
        ensures
            r == version_from_name(uppercase(s@)),
            is_ascii_text(s@) ==> r == version_from_name(ascii_upper(s@)),
    {
        let u = to_uppercase(s);
        let u = u.as_str();
        if str_equal(u, "HTTP/1.0") {
            Some(HttpVersion::Http1_0)
        } else if str_equal(u, "HTTP/1.1") {
            Some(HttpVersion::Http1_1)
        } else if str_equal(u, "HTTP/2.0") {
            Some(HttpVersion::Http2_0)
        } else {
            None
        }
    }
}

impl HttpStatus {
    /// The numeric status code.
    pub fn code(&self) -> (r: u16)
        ensures
            r == status_code(*self),
    {
        match self {
            HttpStatus::Continue => 100,
            HttpStatus::SwitchingProtocols => 101,
            HttpStatus::OK => 200,
            HttpStatus::Created => 201,
            HttpStatus::Accepted => 202,
            HttpStatus::NoContent => 204,
            HttpStatus::MovedPermanently => 301,
            HttpStatus::Found => 302,
            HttpStatus::NotModified => 304,
            HttpStatus::BadRequest => 400,
            HttpStatus::Unauthorized => 401,
            HttpStatus::Forbidden => 403,
            HttpStatus::NotFound => 404,
            HttpStatus::MethodNotAllowed => 405,
            HttpStatus::RequestTimeout => 408,
            HttpStatus::Conflict => 409,
            HttpStatus::Gone => 410,
            HttpStatus::LengthRequired => 411,
            HttpStatus::PayloadTooLarge => 413,
            HttpStatus::UriTooLong => 414,
            HttpStatus::UnsupportedMediaType => 415,
            HttpStatus::RangeNotSatisfiable => 416,
            HttpStatus::ExpectationFailed => 417,
            HttpStatus::InternalServerError => 500,
            HttpStatus::NotImplemented => 501,
            HttpStatus::BadGateway => 502,
            HttpStatus::ServiceUnavailable => 503,
            HttpStatus::GatewayTimeout => 504,
            HttpStatus::HttpVersionNotSupported => 505,
        }
    }

    /// The status with a given numeric code.
    pub fn from_code(c: u16) -> (r: Option<HttpStatus>)
        ensures
            r == status_from_code(c),
    {
        if c == 100 {
            Some(HttpStatus::Continue)
        } else if c == 101 {
            Some(HttpStatus::SwitchingProtocols)
        } else if c == 200 {
            Some(HttpStatus::OK)
        } else if c == 201 {
            Some(HttpStatus::Created)
        } else if c == 202 {
            Some(HttpStatus::Accepted)
        } else if c == 204 {
            Some(HttpStatus::NoContent)
        } else if c == 301 {
            Some(HttpStatus::MovedPermanently)
        } else if c == 302 {
            Some(HttpStatus::Found)
        } else if c == 304 {
            Some(HttpStatus::NotModified)
        } else if c == 400 {
            Some(HttpStatus::BadRequest)
        } else if c == 401 {
            Some(HttpStatus::Unauthorized)
        } else if c == 403 {
            Some(HttpStatus::Forbidden)
        } else if c == 404 {
            Some(HttpStatus::NotFound)
        } else if c == 405 {
            Some(HttpStatus::MethodNotAllowed)
        } else if c == 408 {
            Some(HttpStatus::RequestTimeout)
        } else if c == 409 {
            Some(HttpStatus::Conflict)
        } else if c == 410 {
            Some(HttpStatus::Gone)
        } else if c == 411 {
            Some(HttpStatus::LengthRequired)
        } else if c == 413 {
            Some(HttpStatus::PayloadTooLarge)
        } else if c == 414 {
            Some(HttpStatus::UriTooLong)
        } else if c == 415 {
            Some(HttpStatus::UnsupportedMediaType)
        } else if c == 416 {
            Some(HttpStatus::RangeNotSatisfiable)
        } else if c == 417 {
            Some(HttpStatus::ExpectationFailed)
        } else if c == 500 {
            Some(HttpStatus::InternalServerError)
        } else if c == 501 {
            Some(HttpStatus::NotImplemented)
        } else if c == 502 {
            Some(HttpStatus::BadGateway)
        } else if c == 503 {
            Some(HttpStatus::ServiceUnavailable)
        } else if c == 504 {
            Some(HttpStatus::GatewayTimeout)
        } else if c == 505 {
            Some(HttpStatus::HttpVersionNotSupported)
        } else {
            None
        }
    }

    /// Get status text
    pub fn status_text(&self) -> (r: &'static str)
        ensures
            r@ == status_reason(*self),
    {
        match self {
            HttpStatus::Continue => "Continue",
            HttpStatus::SwitchingProtocols => "Switching Protocols",
            HttpStatus::OK => "OK",
            HttpStatus::Created => "Created",
            HttpStatus::Accepted => "Accepted",
            HttpStatus::NoContent => "No Content",
            HttpStatus::MovedPermanently => "Moved Permanently",
            HttpStatus::Found => "Found",
            HttpStatus::NotModified => "Not Modified",
            HttpStatus::BadRequest => "Bad Request",
            HttpStatus::Unauthorized => "Unauthorized",
            HttpStatus::Forbidden => "Forbidden",
            HttpStatus::NotFound => "Not Found",
            HttpStatus::MethodNotAllowed => "Method Not Allowed",
            HttpStatus::RequestTimeout => "Request Timeout",
            HttpStatus::Conflict => "Conflict",
            HttpStatus::Gone => "Gone",
            HttpStatus::LengthRequired => "Length Required",
            HttpStatus::PayloadTooLarge => "Payload Too Large",
            HttpStatus::UriTooLong => "URI Too Long",
            HttpStatus::UnsupportedMediaType => "Unsupported Media Type",
            HttpStatus::RangeNotSatisfiable => "Range Not Satisfiable",
            HttpStatus::ExpectationFailed => "Expectation Failed",
            HttpStatus::InternalServerError => "Internal Server Error",
            HttpStatus::NotImplemented => "Not Implemented",
            HttpStatus::BadGateway => "Bad Gateway",
            HttpStatus::ServiceUnavailable => "Service Unavailable",
            HttpStatus::GatewayTimeout => "Gateway Timeout",
            HttpStatus::HttpVersionNotSupported => "HTTP Version Not Supported",
        }
    }

    /// Check if status is informational
    pub fn is_informational(&self) -> (r: bool)
        ensures
            r == is_informational_status(*self),
    {
        matches!(self, HttpStatus::Continue | HttpStatus::SwitchingProtocols)
    }

    /// Check if status is successful
    pub fn is_success(&self) -> (r: bool)
        ensures
            r == is_success_status(*self),
    {
        matches!(self, HttpStatus::OK | HttpStatus::Created | HttpStatus::Accepted | HttpStatus::NoContent)
    }

    /// Check if status is redirection
    pub fn is_redirection(&self) -> (r: bool)
        ensures
            r == is_redirection_status(*self),
    {
        matches!(self, HttpStatus::MovedPermanently | HttpStatus::Found | HttpStatus::NotModified)
    }

    /// Check if status is client error
    pub fn is_client_error(&self) -> (r: bool)
        ensures
            r == is_client_error_status(*self),
    {
        matches!(
            self,
            HttpStatus::BadRequest | HttpStatus::Unauthorized | HttpStatus::Forbidden
                | HttpStatus::NotFound | HttpStatus::MethodNotAllowed | HttpStatus::RequestTimeout
                | HttpStatus::Conflict | HttpStatus::Gone | HttpStatus::LengthRequired
                | HttpStatus::PayloadTooLarge | HttpStatus::UriTooLong
                | HttpStatus::UnsupportedMediaType | HttpStatus::RangeNotSatisfiable
                | HttpStatus::ExpectationFailed
        )
    }

    /// Check if status is server error
    pub fn is_server_error(&self) -> (r: bool)
        ensures
            r == is_server_error_status(*self),
    {
        matches!(
            self,
            HttpStatus::InternalServerError | HttpStatus::NotImplemented | HttpStatus::BadGateway
                | HttpStatus::ServiceUnavailable | HttpStatus::GatewayTimeout
                | HttpStatus::HttpVersionNotSupported
        )
    }
}

/// Method names are ASCII capitals: parsing a method's name, or that name in
/// small letters, gives the method back.
pub proof fn lemma_method_round_trip(m: HttpMethod)
    ensures
        is_ascii_text(method_name(m)),
        is_ascii_text(ascii_lower(method_name(m))),
        method_from_name(ascii_upper(method_name(m))) == Some(m),
        method_from_name(ascii_upper(ascii_lower(method_name(m)))) == Some(m),
{
    reveal_strlit("GET");
    reveal_strlit("POST");
    reveal_strlit("PUT");
    reveal_strlit("DELETE");
    reveal_strlit("HEAD");
    reveal_strlit("OPTIONS");
    reveal_strlit("PATCH");
    reveal_strlit("TRACE");
    reveal_strlit("CONNECT");
    let n = method_name(m);
    assert(ascii_upper(n) =~= n);
    assert(ascii_upper(ascii_lower(n)) =~= n);
    match m {
        HttpMethod::GET => {
        },
        HttpMethod::POST => {
            assert(n.len() != "GET"@.len());
        },
        HttpMethod::PUT => {
            assert(n[0] != "GET"@[0]);
            assert(n.len() != "POST"@.len());
        },
        HttpMethod::DELETE => {
            assert(n.len() != "GET"@.len());
            assert(n.len() != "POST"@.len());
            assert(n.len() != "PUT"@.len());
        },
        HttpMethod::HEAD => {
            assert(n.len() != "GET"@.len());
            assert(n[0] != "POST"@[0]);
            assert(n.len() != "PUT"@.len());
            assert(n.len() != "DELETE"@.len());
        },
        HttpMethod::OPTIONS => {
            assert(n.len() != "GET"@.len());
            assert(n.len() != "POST"@.len());
            assert(n.len() != "PUT"@.len());
            assert(n.len() != "DELETE"@.len());
            assert(n.len() != "HEAD"@.len());
        },
        HttpMethod::PATCH => {
            assert(n.len() != "GET"@.len());
            assert(n.len() != "POST"@.len());
            assert(n.len() != "PUT"@.len());
            assert(n.len() != "DELETE"@.len());
            assert(n.len() != "HEAD"@.len());
            assert(n.len() != "OPTIONS"@.len());
        },
        HttpMethod::TRACE => {
            assert(n.len() != "GET"@.len());
            assert(n.len() != "POST"@.len());
            assert(n.len() != "PUT"@.len());
            assert(n.len() != "DELETE"@.len());
            assert(n.len() != "HEAD"@.len());
            assert(n.len() != "OPTIONS"@.len());
            assert(n[0] != "PATCH"@[0]);
        },
        HttpMethod::CONNECT => {
            assert(n.len() != "GET"@.len());
            assert(n.len() != "POST"@.len());
            assert(n.len() != "PUT"@.len());
            assert(n.len() != "DELETE"@.len());
            assert(n.len() != "HEAD"@.len());
            assert(n[0] != "OPTIONS"@[0]);
            assert(n.len() != "PATCH"@.len());
            assert(n.len() != "TRACE"@.len());
        },
    }
}

/// Version names are ASCII: parsing a version's name, or that name in
/// small letters, gives the version back.
pub proof fn lemma_version_round_trip(v: HttpVersion)
    ensures
        is_ascii_text(version_name(v)),
        is_ascii_text(ascii_lower(version_name(v))),
        version_from_name(ascii_upper(version_name(v))) == Some(v),
        version_from_name(ascii_upper(ascii_lower(version_name(v)))) == Some(v),
{
    reveal_strlit("HTTP/1.0");
    reveal_strlit("HTTP/1.1");
    reveal_strlit("HTTP/2.0");
    let n = version_name(v);
    assert(ascii_upper(n) =~= n);
    assert(ascii_upper(ascii_lower(n)) =~= n);
    match v {
        HttpVersion::Http1_0 => {
        },
        HttpVersion::Http1_1 => {
            assert(n[7] != "HTTP/1.0"@[7]);
        },
        HttpVersion::Http2_0 => {
            assert(n[5] != "HTTP/1.0"@[5]);
            assert(n[5] != "HTTP/1.1"@[5]);
        },
    }
}

/// Every status lies in exactly one of the five classes.
pub proof fn lemma_status_in_one_class(s: HttpStatus)
    ensures
        is_informational_status(s) || is_success_status(s) || is_redirection_status(s)
            || is_client_error_status(s) || is_server_error_status(s),
        !(is_success_status(s) && is_redirection_status(s)),
        !(is_client_error_status(s) && is_server_error_status(s)),
{
}

/// The numeric code identifies the status: looking a status up by its own code gives it back.
pub proof fn lemma_status_code_roundtrip(s: HttpStatus)
    ensures
        status_from_code(status_code(s)) == Some(s),
{
}

/// HTTP request
#[derive(Debug, Clone)]
pub struct HttpRequest {
    /// HTTP method
    pub method: HttpMethod,
    /// Request URI
    pub uri: String,
    /// HTTP version
    pub version: HttpVersion,
    /// Request headers
    pub headers: HttpHeaders,
    /// Request body
    pub body: Option<Vec<u8>>,
    /// Request timeout
    pub timeout: Option<Duration>,
    /// Whether to follow redirects
    pub follow_redirects: bool,
    /// Maximum redirects to follow
    pub max_redirects: usize,
}

/// HTTP response
#[derive(Debug, Clone)]
pub struct HttpResponse {
    /// HTTP version
    pub version: HttpVersion,
    /// Status code
    pub status: HttpStatus,
    /// Status text
    pub status_text: String,
    /// Response headers
    pub headers: HttpHeaders,
    /// Response body
    pub body: Vec<u8>,
    /// Response size
    pub content_length: Option<usize>,
    /// Whether response is chunked
    pub chunked: bool,
    /// Response timestamp
    pub timestamp: Timestamp,
}

/// The bytes `": "`, `"\r\n"` and `" "` of the wire format.
pub open spec fn crlf() -> Seq<u8> {
    seq![13u8, 10u8]
}

/// One header field as it is written on the wire: `name: value\r\n`.
pub open spec fn header_line_bytes(p: (Seq<char>, Seq<char>)) -> Seq<u8> {
    encode_utf8(p.0) + seq![58u8, 32u8] + encode_utf8(p.1) + crlf()
}

/// All header fields as written on the wire, in order.
pub open spec fn header_block(h: HeaderList) -> Seq<u8>
    decreases h.len(),
{
    if h.len() == 0 {
        Seq::empty()
    } else {
        header_block(h.drop_last()) + header_line_bytes(h.last())
    }
}

/// The wire form of a request: request line, header fields, an empty line, then the body.
pub open spec fn request_bytes(r: HttpRequest) -> Seq<u8> {
    encode_utf8(method_name(r.method)) + seq![32u8] + encode_utf8(r.uri@) + seq![32u8]
        + encode_utf8(version_name(r.version)) + crlf() + header_block(r.headers@) + crlf()
        + match r.body {
        Some(b) => b@,
        None => Seq::empty(),
    }
}

/// The header fields as written end with a line end, unless there are none.
proof fn lemma_header_block_ends_line(h: HeaderList)
    ensures
        header_block(h).len() == 0 || (header_block(h).len() >= 2 && header_block(h).subrange(
            header_block(h).len() - 2,
            header_block(h).len() as int,
        ) == crlf()),
    decreases h.len(),
{
    if h.len() > 0 {
        let a = header_block(h.drop_last());
        let l = header_line_bytes(h.last());
        assert(l.subrange(l.len() - 2, l.len() as int) =~= crlf());
        assert((a + l).subrange((a + l).len() - 2, (a + l).len() as int) =~= l.subrange(l.len() - 2, l.len() as int));
    }
}

/// A serialized request ends its header section with an empty line, with
/// or without a body: the body (if any) comes last, right after the bytes
/// `\r\n\r\n`.
pub proof fn lemma_request_header_section_ends(r: HttpRequest)
    ensures
        ({
            let b = request_bytes(r);
            let body = match r.body {
                Some(x) => x@,
                None => Seq::<u8>::empty(),
            };
            &&& b.len() >= body.len() + 4
            &&& b.subrange(b.len() - body.len(), b.len() as int) == body
            &&& b.subrange(b.len() - body.len() - 4, b.len() - body.len()) == seq![13u8, 10u8, 13u8, 10u8]
        }),
{
    let body = match r.body {
        Some(x) => x@,
        None => Seq::<u8>::empty(),
    };
    let line = encode_utf8(method_name(r.method)) + seq![32u8] + encode_utf8(r.uri@) + seq![32u8] + encode_utf8(
        version_name(r.version),
    ) + crlf();
    let hb = header_block(r.headers@);
    let head = line + hb;
    lemma_header_block_ends_line(r.headers@);
    assert(head.len() >= 2);
    assert(head.subrange(head.len() - 2, head.len() as int) == crlf()) by {
        if hb.len() == 0 {
            assert(head =~= line);
            assert(line.subrange(line.len() - 2, line.len() as int) =~= crlf());
        } else {
            assert(head.subrange(head.len() - 2, head.len() as int) =~= hb.subrange(hb.len() - 2, hb.len() as int));
        }
    }
    let b = request_bytes(r);
    assert(b =~= head + crlf() + body);
    assert(b.subrange(b.len() - body.len(), b.len() as int) =~= body);
    assert(b.subrange(b.len() - body.len() - 4, b.len() - body.len()) =~= head.subrange(
        head.len() - 2,
        head.len() as int,
    ) + crlf());
}

/// Appends bytes to a buffer.
pub fn append_bytes(out: &mut Vec<u8>, b: &[u8])
    ensures
        final(out)@ == old(out)@ + b@,
{
    let mut i: usize = 0;
    while i < b.len()
        invariant
            i <= b.len(),
            out@ == old(out)@ + b@.subrange(0, i as int),
        decreases b.len() - i,
    {
        out.push(b[i]);
        i = i + 1;
        assert(old(out)@ + b@.subrange(0, i as int) == (old(out)@ + b@.subrange(0, i - 1)).push(
            b@[i - 1],
        ));
    }
    assert(b@.subrange(0, b@.len() as int) == b@);
}

/// Appends the UTF-8 encoding of a string to a buffer.
pub fn append_str(out: &mut Vec<u8>, s: &str)
    ensures
        final(out)@ == old(out)@ + encode_utf8(s@),
{
    append_bytes(out, s.as_bytes());
}

impl HttpRequest {
    /// Create new request
    pub fn new(method: HttpMethod, uri: String) -> (r: Self)
        ensures
            r.method == method,
            r.uri == uri,
            r.version == HttpVersion::Http1_1,
            r.headers@ == Seq::<(Seq<char>, Seq<char>)>::empty(),
            r.body is None,
            r.timeout is None,
            r.follow_redirects,
            r.max_redirects == 5,
    {
        Self {
            method,
            uri,
            version: HttpVersion::Http1_1,
            headers: HttpHeaders::new(),
            body: None,
            timeout: None,
            follow_redirects: true,
            max_redirects: 5,
        }
    }

    /// Set method
    pub fn method(self, method: HttpMethod) -> (r: Self)
        ensures
            r == (Self { method, ..self }),
    {
        Self { method, ..self }
    }

    /// Set URI
    pub fn uri(self, uri: String) -> (r: Self)
        ensures
            r == (Self { uri, ..self }),
    {
        Self { uri, ..self }
    }

    /// Set version
    pub fn version(self, version: HttpVersion) -> (r: Self)
        ensures
            r == (Self { version, ..self }),
    {
        Self { version, ..self }
    }

    /// Set header
    pub fn header(self, name: &str, value: &str) -> (r: Self)
        ensures
            r.headers@ == set_field(self.headers@, name@, value@),
            r.method == self.method,
            r.uri == self.uri,
            r.version == self.version,
            r.body == self.body,
            r.timeout == self.timeout,
            r.follow_redirects == self.follow_redirects,
            r.max_redirects == self.max_redirects,
    {
        let mut r = self;
        r.headers.set(name, value);
        r
    }

    /// Set body
    pub fn body(self, body: Vec<u8>) -> (r: Self)
        ensures
            r == (Self { body: Some(body), ..self }),
    {
        Self { body: Some(body), ..self }
    }

    /// Set timeout
    pub fn timeout(self, timeout: Duration) -> (r: Self)
        ensures
            r == (Self { timeout: Some(timeout), ..self }),
    {
        Self { timeout: Some(timeout), ..self }
    }

    /// Set follow redirects
    pub fn follow_redirects(self, follow: bool) -> (r: Self)
        ensures
            r == (Self { follow_redirects: follow, ..self }),
    {
        Self { follow_redirects: follow, ..self }
    }

    /// Set max redirects
    pub fn max_redirects(self, max: usize) -> (r: Self)
        ensures
            r == (Self { max_redirects: max, ..self }),
    {
        Self { max_redirects: max, ..self }
    }

    /// Serialize request
    pub fn serialize(&self) -> (r: Result<Vec<u8>>)
        ensures
            r matches Ok(bytes) && bytes@ == request_bytes(*self),
    {
        let mut out: Vec<u8> = Vec::new();
        append_str(&mut out, self.method.as_str());
        out.push(32u8);
        append_str(&mut out, self.uri.as_str());
        out.push(32u8);
        append_str(&mut out, self.version.as_str());
        out.push(13u8);
        out.push(10u8);
        let ghost prefix = out@;
        let pairs = self.headers.pairs();
        let mut i: usize = 0;
        while i < pairs.len()
            invariant
                i <= pairs@.len(),
                pairs@.len() == self.headers@.len(),
                forall|k: int|
                    0 <= k < pairs@.len() ==> (#[trigger] pairs@[k]).0@ == self.headers@[k].0
                        && pairs@[k].1@ == self.headers@[k].1,
                out@ == prefix + header_block(self.headers@.subrange(0, i as int)),
            decreases pairs@.len() - i,
        {
            let ghost before = out@;
            append_str(&mut out, pairs[i].0.as_str());
            out.push(58u8);
            out.push(32u8);
            append_str(&mut out, pairs[i].1.as_str());
            out.push(13u8);
            out.push(10u8);
            proof {
                let h = self.headers@.subrange(0, i + 1);
                assert(h.drop_last() == self.headers@.subrange(0, i as int));
                assert(h.last() == self.headers@[i as int]);
                assert(out@ == before + header_line_bytes(h.last()));
            }
            i = i + 1;
        }
        assert(self.headers@.subrange(0, self.headers@.len() as int) == self.headers@);
        out.push(13u8);
        out.push(10u8);
        match &self.body {
            Some(b) => append_bytes(&mut out, b.as_slice()),
            None => {},
        }
        Ok(out)
    }
}

/// Whether a response with these headers uses chunked transfer encoding.
pub open spec fn chunked_spec(h: HeaderList) -> bool {
    match lookup(h, "transfer-encoding"@) {
        Some(v) => contains_seq(lowercase(v), "chunked"@),
        None => false,
    }
}

impl HttpResponse {
    /// Create new response
    pub fn new(version: HttpVersion, status: HttpStatus) -> (r: Self)
        ensures
            r.version == version,
            r.status == status,
            r.status_text@ == status_reason(status),
            r.headers@ == Seq::<(Seq<char>, Seq<char>)>::empty(),
            r.body@ == Seq::<u8>::empty(),
            r.content_length is None,
            !r.chunked,
    {
        Self {
            version,
            status,
            status_text: str_to_string(status.status_text()),
            headers: HttpHeaders::new(),
            body: Vec::new(),
            content_length: None,
            chunked: false,
            timestamp: Timestamp::now(),
        }
    }

    /// Set status
    pub fn status(self, status: HttpStatus) -> (r: Self)
        ensures
            r.status == status,
            r.status_text@ == status_reason(status),
            r.version == self.version,
            r.headers == self.headers,
            r.body == self.body,
            r.content_length == self.content_length,
            r.chunked == self.chunked,
            r.timestamp == self.timestamp,
    {
        let text = str_to_string(status.status_text());
        Self { status, status_text: text, ..self }
    }

    /// Set header
    pub fn header(self, name: &str, value: &str) -> (r: Self)
        ensures
            r.headers@ == set_field(self.headers@, name@, value@),
            r.version == self.version,
            r.status == self.status,
            r.status_text == self.status_text,
            r.body == self.body,
            r.content_length == self.content_length,
            r.chunked == self.chunked,
            r.timestamp == self.timestamp,
    {
        let mut r = self;
        r.headers.set(name, value);
        r
    }

    /// Set body; the content length becomes the body's length.
    pub fn body(self, body: Vec<u8>) -> (r: Self)
        ensures
            r.body == body,
            r.content_length == Some(body@.len() as usize),
            r.version == self.version,
            r.status == self.status,
            r.status_text == self.status_text,
            r.headers == self.headers,
            r.chunked == self.chunked,
            r.timestamp == self.timestamp,
    {
        let len = body.len();
        Self { body, content_length: Some(len), ..self }
    }

    /// Check if response is successful
    pub fn is_success(&self) -> (r: bool)
        ensures
            r == is_success_status(self.status),
    {
        self.status.is_success()
    }

    /// Check if response is redirection
    pub fn is_redirection(&self) -> (r: bool)
        ensures
            r == is_redirection_status(self.status),
    {
        self.status.is_redirection()
    }

    /// Check if response is client error
    pub fn is_client_error(&self) -> (r: bool)
        ensures
            r == is_client_error_status(self.status),
    {
        self.status.is_client_error()
    }

    /// Check if response is server error
    pub fn is_server_error(&self) -> (r: bool)
        ensures
            r == is_server_error_status(self.status),
    {
        self.status.is_server_error()
    }

    /// Get redirect location: the `Location` field of a redirection.
    pub fn redirect_location(&self) -> (r: Option<&String>)
        ensures
            match (if is_redirection_status(self.status) { lookup(self.headers@, "location"@) } else { None }) {
                Some(v) => r matches Some(s) && s@ == v,
                None => r is None,
            },
    {
        if self.is_redirection() {
            self.headers.get("location")
        } else {
            None
        }
    }
}

/// The position of the first newline byte at or after `pos`, or the length
/// of the data where there is none.
pub open spec fn next_newline(data: Seq<u8>, pos: int) -> int
    decreases data.len() - pos,
{
    if pos < 0 || pos >= data.len() {
        data.len() as int
    } else if data[pos] == 10u8 {
        pos
    } else {
        next_newline(data, pos + 1)
    }
}

proof fn lemma_next_newline(data: Seq<u8>, pos: int, e: int)
    requires
        0 <= pos <= e <= data.len(),
        forall|k: int| pos <= k < e ==> data[k] != 10u8,
        e == data.len() || data[e] == 10u8,
    ensures
        next_newline(data, pos) == e,
    decreases e - pos,
{
    if pos < e {
        lemma_next_newline(data, pos + 1, e);
    }
}

/// Finds the next newline byte at or after `pos`.
fn find_newline(data: &[u8], pos: usize) -> (r: usize)
    requires
        pos <= data@.len(),
    ensures
        r == next_newline(data@, pos as int),
        pos <= r <= data@.len(),
{
    let mut i: usize = pos;
    while i < data.len() && data[i] != 10u8
        invariant
            pos <= i <= data@.len(),
            forall|k: int| pos <= k < i ==> data@[k] != 10u8,
        decreases data@.len() - i,
    {
        i = i + 1;
    }
    proof {
        lemma_next_newline(data@, pos as int, i as int);
    }
    i
}

/// A header line applied to the fields read so far: a line with a colon sets
/// the trimmed name before it to the trimmed value after it; other lines are ignored.
pub open spec fn apply_header_line(h: HeaderList, line: Seq<char>) -> HeaderList {
    match first_index_of(line, ':') {
        Some(c) => set_field(h, trim(line.subrange(0, c)), trim(line.subrange(c + 1, line.len() as int))),
        None => h,
    }
}

/// A line that ends the header section: empty, or a lone carriage return.
pub open spec fn is_blank_line(line: Seq<u8>) -> bool {
    line.len() == 0 || line == seq![13u8]
}

/// Reads header lines from `pos` on. Gives `None` where a line is not valid
/// UTF-8; otherwise the fields read and, where a blank line ends the section,
/// the position at which the body starts.
pub open spec fn header_phase(data: Seq<u8>, pos: int, h: HeaderList) -> Option<(HeaderList, Option<int>)>
    decreases data.len() - pos,
{
    if pos < 0 || pos > data.len() {
        None
    } else {
        let end = next_newline(data, pos);
        let line = data.subrange(pos, end);
        if is_blank_line(line) {
            Some((h, Some(if end < data.len() { end + 1 } else { data.len() as int })))
        } else if !valid_utf8(line) {
            None
        } else {
            let h2 = apply_header_line(h, decode_utf8(line));
            if end < data.len() && end >= pos {
                header_phase(data, end + 1, h2)
            } else {
                Some((h2, None))
            }
        }
    }
}

/// The status line of a response (the bytes before the first newline):
/// version, status and reason text. `None` where it is malformed.
pub open spec fn status_line(data: Seq<u8>) -> Option<(HttpVersion, HttpStatus, Seq<char>)> {
    let first = data.subrange(0, next_newline(data, 0));
    if !valid_utf8(first) {
        None
    } else {
        let parts = words(decode_utf8(first));
        if parts.len() < 3 {
            None
        } else {
            match version_from_name(uppercase(parts[0])) {
                None => None,
                Some(v) => match parse_unsigned(parts[1], 65535) {
                    None => None,
                    Some(code) => match status_from_code(code as u16) {
                        None => None,
                        Some(st) => Some((v, st, join_with_space(parts.subrange(2, parts.len() as int)))),
                    },
                },
            }
        }
    }
}

/// The message a malformed status line is refused with: the UTF-8 error, a
/// line of fewer than three words, an unknown version, the integer parse
/// error of the code, or a code that names no status.
pub open spec fn status_line_error(data: Seq<u8>) -> Seq<char> {
    let first = data.subrange(0, next_newline(data, 0));
    if !valid_utf8(first) {
        "Invalid status line: "@ + utf8_error_text(first)
    } else {
        let parts = words(decode_utf8(first));
        if parts.len() < 3 {
            "Invalid status line format"@
        } else {
            match version_from_name(uppercase(parts[0])) {
                None => "Invalid HTTP version"@,
                Some(_) => match parse_unsigned(parts[1], 65535) {
                    None => "Invalid status code: "@ + u16_parse_error_text(parts[1]),
                    Some(code) => "Unknown status code: "@ + decimal(code),
                },
            }
        }
    }
}

/// The first header line from `pos` on, before any blank line, that is not
/// valid UTF-8 (empty where there is none).
pub open spec fn bad_header_line(data: Seq<u8>, pos: int) -> Seq<u8>
    decreases data.len() - pos,
{
    if pos < 0 || pos > data.len() {
        Seq::empty()
    } else {
        let end = next_newline(data, pos);
        let line = data.subrange(pos, end);
        if is_blank_line(line) {
            Seq::empty()
        } else if !valid_utf8(line) {
            line
        } else if end < data.len() && end >= pos {
            bad_header_line(data, end + 1)
        } else {
            Seq::empty()
        }
    }
}

/// The message a malformed response is refused with: that of its status
/// line, or else the UTF-8 error of its first bad header line.
pub open spec fn response_error(data: Seq<u8>) -> Seq<char> {
    match status_line(data) {
        None => status_line_error(data),
        Some(_) => "Invalid header line: "@ + utf8_error_text(bad_header_line(data, next_newline(data, 0) + 1)),
    }
}

/// The header section of a response: the fields and where the body starts.
/// `None` where a header line is not valid UTF-8.
pub open spec fn header_section(data: Seq<u8>) -> Option<(HeaderList, Option<int>)> {
    let nl = next_newline(data, 0);
    if nl < data.len() {
        header_phase(data, nl + 1, Seq::empty())
    } else {
        Some((Seq::empty(), None))
    }
}

/// The head of a response: version, status, reason text, header fields and
/// where the body starts. `None` where the bytes are not a response.
pub open spec fn response_head(data: Seq<u8>) -> Option<(HttpVersion, HttpStatus, Seq<char>, HeaderList, Option<int>)> {
    match status_line(data) {
        None => None,
        Some(sl) => match header_section(data) {
            None => None,
            Some(hb) => Some((sl.0, sl.1, sl.2, hb.0, hb.1)),
        },
    }
}

/// The trimmed name and value of a header line, split at its first colon.
fn header_field_of(tc: &[char]) -> (r: Option<(String, String)>)
    ensures
        match first_index_of(tc@, ':') {
            Some(c) => r matches Some((n, v)) && n@ == trim(tc@.subrange(0, c)) && v@ == trim(
                tc@.subrange(c + 1, tc@.len() as int),
            ),
            None => r is None,
        },
{
    match find_char(tc, ':') {
        Some(c) => {
            assert(c < tc@.len());
            assert(tc@.len() == tc.len());
            let name = trim_chars(slice_chars(tc, 0, c).as_slice());
            let value = trim_chars(slice_chars(tc, c + 1, tc.len()).as_slice());
            Some((string_from_chars(name.as_slice()), string_from_chars(value.as_slice())))
        },
        None => None,
    }
}

/// Builds an error of the parsing kind with a fixed message.
fn parse_error(msg: &str) -> (r: Error)
    ensures
        r matches Error::Parsing(m) && m@ == msg@,
{
    Error::parsing(str_to_string(msg))
}

impl HttpResponse {
    /// Parse response from bytes: a status line, header lines up to a blank
    /// line, then the body, which is everything after the blank line.
    pub fn parse(data: &[u8]) -> (r: Result<Self>)
        ensures
            match response_head(data@) {
                None => r matches Err(Error::Parsing(m)) && m@ == response_error(data@),
                Some((v, st, text, h, b)) => r matches Ok(resp) && {
                    &&& resp.version == v
                    &&& resp.status == st
                    &&& resp.status_text@ == text
                    &&& resp.headers@ == h
                    &&& resp.chunked == chunked_spec(h)
                    &&& match b {
                        Some(start) => resp.body@ == data@.subrange(start, data@.len() as int)
                            && resp.content_length == Some(resp.body@.len() as usize),
                        None => resp.body@ == Seq::<u8>::empty() && resp.content_length is None,
                    }
                },
            },
    {
        let nl = find_newline(data, 0);
        let first = byte_range(data, 0, nl);
        let line = match utf8_str(first.as_slice()) {
            Ok(l) => l,
            Err(e) => return Err(Error::parsing(concat_str("Invalid status line: ", e.as_str()))),
        };
        let line_chars = str_chars(line);
        let parts = split_whitespace_chars(line_chars.as_slice());
        if parts.len() < 3 {
            return Err(parse_error("Invalid status line format"));
        }
        let p0 = string_from_chars(parts[0].as_slice());
        let version = match HttpVersion::from_str(p0.as_str()) {
            Some(v) => v,
            None => return Err(parse_error("Invalid HTTP version")),
        };
        let p1 = string_from_chars(parts[1].as_slice());
        let code = match parse_u16(p1.as_str()) {
            Ok(c) => c,
            Err(e) => return Err(Error::parsing(concat_str("Invalid status code: ", e.as_str()))),
        };
        let status = match HttpStatus::from_code(code) {
            Some(s) => s,
            None => {
                let digits = decimal_string(code as u128);
                return Err(Error::parsing(concat_str("Unknown status code: ", digits.as_str())));
            },
        };
        let text = join_words_from(&parts, 2);
        let mut response = HttpResponse::new(version, status);
        response.status_text = string_from_chars(text.as_slice());
        let ghost parts_v = views_of(parts@);
        assert(parts_v[0] == parts@[0]@);
        assert(parts_v[1] == parts@[1]@);
        assert(status_line(data@) == Some((version, status, response.status_text@)));
        let mut body_start: Option<usize> = None;
        if nl < data.len() {
            let mut pos: usize = nl + 1;
            loop
                invariant_except_break
                    body_start is None,
                    header_phase(data@, nl + 1, Seq::empty()) == header_phase(data@, pos as int, response.headers@),
                    bad_header_line(data@, nl + 1) == bad_header_line(data@, pos as int),
                invariant
                    nl < data@.len(),
                    nl == next_newline(data@, 0),
                    nl + 1 <= pos <= data@.len(),
                    status_line(data@) == Some((version, status, response.status_text@)),
                    response.version == version,
                    response.status == status,
                    response.body@ == Seq::<u8>::empty(),
                    response.content_length is None,
                ensures
                    header_phase(data@, nl + 1, Seq::empty()) == Some((response.headers@, match body_start {
                        Some(b) => Some(b as int),
                        None => None,
                    })),
                    body_start matches Some(b) ==> b <= data@.len(),
                decreases data@.len() - pos,
            {
                let end = find_newline(data, pos);
                let lb = byte_range(data, pos, end);
                if lb.len() == 0 || (lb.len() == 1 && lb[0] == 13u8) {
                    assert(is_blank_line(lb@)) by {
                        if lb@.len() == 1 {
                            assert(lb@ =~= seq![13u8]);
                        }
                    }
                    body_start = Some(if end < data.len() { end + 1 } else { data.len() });
                    break;
                }
                assert(!is_blank_line(lb@));
                let text = match utf8_str(lb.as_slice()) {
                    Ok(t) => t,
                    Err(e) => {
                        assert(header_phase(data@, pos as int, response.headers@) is None);
                        assert(bad_header_line(data@, pos as int) == lb@);
                        return Err(Error::parsing(concat_str("Invalid header line: ", e.as_str())));
                    },
                };
                let tc = str_chars(text);
                match header_field_of(tc.as_slice()) {
                    Some((ns, vs)) => {
                        response.headers.set(ns.as_str(), vs.as_str());
                    },
                    None => {},
                }
                if end < data.len() {
                    pos = end + 1;
                } else {
                    break;
                }
            }
        }
        match body_start {
            Some(b) => {
                response.body = byte_range(data, b, data.len());
                response.content_length = Some(response.body.len());
            },
            None => {},
        }
        response.chunked = response.headers.is_chunked();
        proof {
            if nl >= data@.len() {
                assert(response.headers@ == Seq::<(Seq<char>, Seq<char>)>::empty());
                assert(header_section(data@) == Some((response.headers@, None::<int>)));
            } else {
                assert(header_section(data@) == Some((response.headers@, match body_start {
                    Some(b) => Some(b as int),
                    None => None,
                })));
            }
            assert(response.chunked == chunked_spec(response.headers@));
            assert(status_line(data@) == Some((version, status, response.status_text@)));
            assert(response.version == version);
            assert(response.status == status);
            match body_start {
                Some(b) => {
                    assert(response.body@ == data@.subrange(b as int, data@.len() as int));
                    assert(response.content_length == Some(response.body@.len() as usize));
                },
                None => {
                    assert(response.body@ == Seq::<u8>::empty());
                    assert(response.content_length is None);
                },
            }
        }
        Ok(response)
    }
}

} // verus!
