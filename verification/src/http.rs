//! The closed HTTP model: protocol versions, request methods and status
//! codes, each a finite enumeration with exact, bidirectional conversion to
//! its wire form. Conversion out of the closed set is total; conversion into
//! it is fallible and rejects every value outside the set with an error, never
//! a panic.

use vstd::prelude::*;
use crate::text::str_eq;

verus! {

/// A supported HTTP protocol version. Only these four are constructible;
/// every other wire string fails to parse.
#[derive(Clone, Copy, Debug, PartialEq, Eq, Structural)]
pub enum HttpVersion {
    V1_0,
    V1_1,
    V2_0,
    V3_0,
}

/// The wire string of a version.
pub open spec fn version_text(v: HttpVersion) -> Seq<char> {
    match v {
        HttpVersion::V1_0 => "HTTP/1.0"@,
        HttpVersion::V1_1 => "HTTP/1.1"@,
        HttpVersion::V2_0 => "HTTP/2.0"@,
        HttpVersion::V3_0 => "HTTP/3.0"@,
    }
}

/// The version a wire string denotes, if any.
pub open spec fn version_of_text(s: Seq<char>) -> Option<HttpVersion> {
    if s == "HTTP/1.0"@ {
        Some(HttpVersion::V1_0)
    } else if s == "HTTP/1.1"@ {
        Some(HttpVersion::V1_1)
    } else if s == "HTTP/2.0"@ {
        Some(HttpVersion::V2_0)
    } else if s == "HTTP/3.0"@ {
        Some(HttpVersion::V3_0)
    } else {
        None
    }
}

impl HttpVersion {
    /// The canonical wire string, e.g. `"HTTP/1.1"`.
    pub fn as_str(&self) -> (r: &'static str)
        ensures
            r@ == version_text(*self),
    {
        match self {
            HttpVersion::V1_0 => "HTTP/1.0",
            HttpVersion::V1_1 => "HTTP/1.1",
            HttpVersion::V2_0 => "HTTP/2.0",
            HttpVersion::V3_0 => "HTTP/3.0",
        }
    }

    /// Parse a wire string; fails on anything outside the closed set.
    pub fn from_string(string: &str) -> (r: Result<Self, String>)
        ensures
            (r is Ok) == (version_of_text(string@) is Some),
            r matches Ok(v) ==> version_of_text(string@) == Some(v),
            r matches Err(m) ==> m@ == "Invalid HTTP version string"@,
    {
        if str_eq(string, "HTTP/1.0") {
            Ok(HttpVersion::V1_0)
        } else if str_eq(string, "HTTP/1.1") {
            Ok(HttpVersion::V1_1)
        } else if str_eq(string, "HTTP/2.0") {
            Ok(HttpVersion::V2_0)
        } else if str_eq(string, "HTTP/3.0") {
            Ok(HttpVersion::V3_0)
        } else {
            Err("Invalid HTTP version string".to_owned())
        }
    }
}

/// Parsing the wire string of any version yields that version back.
pub proof fn lemma_version_round_trip(v: HttpVersion)
    ensures
        version_of_text(version_text(v)) == Some(v),
{
    reveal_strlit("HTTP/1.0");
    reveal_strlit("HTTP/1.1");
    reveal_strlit("HTTP/2.0");
    reveal_strlit("HTTP/3.0");
    assert("HTTP/1.1"@[7] != "HTTP/1.0"@[7]);
    assert("HTTP/2.0"@[5] != "HTTP/1.0"@[5] && "HTTP/2.0"@[5] != "HTTP/1.1"@[5]);
    assert("HTTP/3.0"@[5] != "HTTP/1.0"@[5] && "HTTP/3.0"@[5] != "HTTP/1.1"@[5]
        && "HTTP/3.0"@[5] != "HTTP/2.0"@[5]);
}

/// Serializing a successfully parsed version string yields the string back.
pub proof fn lemma_version_text_round_trip(s: Seq<char>)
    ensures
        version_of_text(s) matches Some(v) ==> version_text(v) == s,
{
}

/// A supported HTTP status code: a deliberate closed whitelist, not full
/// IANA coverage. Codes outside the whitelist fail to construct.
#[derive(Clone, Copy, Debug, PartialEq, Eq, Structural)]
pub enum HttpStatus {
    Continue,
    SwitchingProtocols,
    OK,
    Created,
    Accepted,
    MovedPermanently,
    Found,
    NotModified,
    BadRequest,
    Unauthorized,
    Forbidden,
    NotFound,
    Teapot,
    InternalServerError,
    NotImplemented,
    BadGateway,
    ServiceUnavailable,
}

/// The numeric code of a status.
pub open spec fn code_of_status(s: HttpStatus) -> u16 {
    match s {
        HttpStatus::Continue => 100,
        HttpStatus::SwitchingProtocols => 101,
        HttpStatus::OK => 200,
        HttpStatus::Created => 201,
        HttpStatus::Accepted => 202,
        HttpStatus::MovedPermanently => 301,
        HttpStatus::Found => 302,
        HttpStatus::NotModified => 304,
        HttpStatus::BadRequest => 400,
        HttpStatus::Unauthorized => 401,
        HttpStatus::Forbidden => 403,
        HttpStatus::NotFound => 404,
        HttpStatus::Teapot => 418,
        HttpStatus::InternalServerError => 500,
        HttpStatus::NotImplemented => 501,
        HttpStatus::BadGateway => 502,
        HttpStatus::ServiceUnavailable => 503,
    }
}

/// The status a numeric code denotes, if it is on the whitelist.
pub open spec fn status_of_code(code: u16) -> Option<HttpStatus> {
    if code == 100 {
        Some(HttpStatus::Continue)
    } else if code == 101 {
        Some(HttpStatus::SwitchingProtocols)
    } else if code == 200 {
        Some(HttpStatus::OK)
    } else if code == 201 {
        Some(HttpStatus::Created)
    } else if code == 202 {
        Some(HttpStatus::Accepted)
    } else if code == 301 {
        Some(HttpStatus::MovedPermanently)
    } else if code == 302 {
        Some(HttpStatus::Found)
    } else if code == 304 {
        Some(HttpStatus::NotModified)
    } else if code == 400 {
        Some(HttpStatus::BadRequest)
    } else if code == 401 {
        Some(HttpStatus::Unauthorized)
    } else if code == 403 {
        Some(HttpStatus::Forbidden)
    } else if code == 404 {
        Some(HttpStatus::NotFound)
    } else if code == 418 {
        Some(HttpStatus::Teapot)
    } else if code == 500 {
        Some(HttpStatus::InternalServerError)
    } else if code == 501 {
        Some(HttpStatus::NotImplemented)
    } else if code == 502 {
        Some(HttpStatus::BadGateway)
    } else if code == 503 {
        Some(HttpStatus::ServiceUnavailable)
    } else {
        None
    }
}

/// The canonical reason phrase of a status.
pub open spec fn reason_text(s: HttpStatus) -> Seq<char> {
    match s {
        HttpStatus::Continue => "Continue"@,
        HttpStatus::SwitchingProtocols => "Switching Protocols"@,
        HttpStatus::OK => "OK"@,
        HttpStatus::Created => "Created"@,
        HttpStatus::Accepted => "Accepted"@,
        HttpStatus::MovedPermanently => "Moved Permanently"@,
        HttpStatus::Found => "Found"@,
        HttpStatus::NotModified => "Not Modified"@,
        HttpStatus::BadRequest => "Bad Request"@,
        HttpStatus::Unauthorized => "Unauthorized"@,
        HttpStatus::Forbidden => "Forbidden"@,
        HttpStatus::NotFound => "Not Found"@,
        HttpStatus::Teapot => "I'm a teapot"@,
        HttpStatus::InternalServerError => "Internal Server Error"@,
        HttpStatus::NotImplemented => "Not Implemented"@,
        HttpStatus::BadGateway => "Bad Gateway"@,
        HttpStatus::ServiceUnavailable => "Service Unavailable"@,
    }
}

impl HttpStatus {
    /// Construct a status from its numeric code; fails for any code off the
    /// whitelist.
    pub fn from_u16(code: u16) -> (r: Result<Self, String>)
        ensures
            (r is Ok) == (status_of_code(code) is Some),
            r matches Ok(s) ==> status_of_code(code) == Some(s),
            r matches Err(m) ==> m@ == "Unimplemented or invalid HTTP response code"@,
    {
        match code {
            100 => Ok(HttpStatus::Continue),
            101 => Ok(HttpStatus::SwitchingProtocols),
            200 => Ok(HttpStatus::OK),
            201 => Ok(HttpStatus::Created),
            202 => Ok(HttpStatus::Accepted),
            301 => Ok(HttpStatus::MovedPermanently),
            302 => Ok(HttpStatus::Found),
            304 => Ok(HttpStatus::NotModified),
            400 => Ok(HttpStatus::BadRequest),
            401 => Ok(HttpStatus::Unauthorized),
            403 => Ok(HttpStatus::Forbidden),
            404 => Ok(HttpStatus::NotFound),
            418 => Ok(HttpStatus::Teapot),
            500 => Ok(HttpStatus::InternalServerError),
            501 => Ok(HttpStatus::NotImplemented),
            502 => Ok(HttpStatus::BadGateway),
            503 => Ok(HttpStatus::ServiceUnavailable),
            _ => Err("Unimplemented or invalid HTTP response code".to_owned()),
        }
    }

    /// The numeric code, e.g. `200`.
    pub fn numeric_code(&self) -> (r: u16)
        ensures
            r == code_of_status(*self),
    {
        match self {
            HttpStatus::Continue => 100,
            HttpStatus::SwitchingProtocols => 101,
            HttpStatus::OK => 200,
            HttpStatus::Created => 201,
            HttpStatus::Accepted => 202,
            HttpStatus::MovedPermanently => 301,
            HttpStatus::Found => 302,
            HttpStatus::NotModified => 304,
            HttpStatus::BadRequest => 400,
            HttpStatus::Unauthorized => 401,
            HttpStatus::Forbidden => 403,
            HttpStatus::NotFound => 404,
            HttpStatus::Teapot => 418,
            HttpStatus::InternalServerError => 500,
            HttpStatus::NotImplemented => 501,
            HttpStatus::BadGateway => 502,
            HttpStatus::ServiceUnavailable => 503,
        }
    }

    /// The canonical reason phrase, e.g. `"OK"`.
    pub fn reason_phrase(&self) -> (r: &'static str)
        ensures
            r@ == reason_text(*self),
    {
        match self {
            HttpStatus::Continue => "Continue",
            HttpStatus::SwitchingProtocols => "Switching Protocols",
            HttpStatus::OK => "OK",
            HttpStatus::Created => "Created",
            HttpStatus::Accepted => "Accepted",
            HttpStatus::MovedPermanently => "Moved Permanently",
            HttpStatus::Found => "Found",
            HttpStatus::NotModified => "Not Modified",
            HttpStatus::BadRequest => "Bad Request",
            HttpStatus::Unauthorized => "Unauthorized",
            HttpStatus::Forbidden => "Forbidden",
            HttpStatus::NotFound => "Not Found",
            HttpStatus::Teapot => "I'm a teapot",
            HttpStatus::InternalServerError => "Internal Server Error",
            HttpStatus::NotImplemented => "Not Implemented",
            HttpStatus::BadGateway => "Bad Gateway",
            HttpStatus::ServiceUnavailable => "Service Unavailable",
        }
    }
}

/// Constructing a status from its own numeric code yields that status back.
pub proof fn lemma_status_round_trip(s: HttpStatus)
    ensures
        status_of_code(code_of_status(s)) == Some(s),
{
}

/// The numeric code of a successfully constructed status is the code it was
/// constructed from.
pub proof fn lemma_status_code_round_trip(code: u16)
    ensures
        status_of_code(code) matches Some(s) ==> code_of_status(s) == code,
{
}

/// A standard HTTP request method. Matching against the wire string is exact
/// and case-sensitive; unknown tokens fail.
#[derive(Clone, Copy, Debug, PartialEq, Eq, Structural)]
pub enum HttpMethod {
    GET,
    HEAD,
    POST,
    PUT,
    DELETE,
    CONNECT,
    OPTIONS,
    TRACE,
    PATCH,
}

/// The wire string of a method.
pub open spec fn method_text(m: HttpMethod) -> Seq<char> {
    match m {
        HttpMethod::GET => "GET"@,
        HttpMethod::HEAD => "HEAD"@,
        HttpMethod::POST => "POST"@,
        HttpMethod::PUT => "PUT"@,
        HttpMethod::DELETE => "DELETE"@,
        HttpMethod::CONNECT => "CONNECT"@,
        HttpMethod::OPTIONS => "OPTIONS"@,
        HttpMethod::TRACE => "TRACE"@,
        HttpMethod::PATCH => "PATCH"@,
    }
}

/// The method a wire string denotes, if any.
pub open spec fn method_of_text(s: Seq<char>) -> Option<HttpMethod> {
    if s == "GET"@ {
        Some(HttpMethod::GET)
    } else if s == "HEAD"@ {
        Some(HttpMethod::HEAD)
    } else if s == "POST"@ {
        Some(HttpMethod::POST)
    } else if s == "PUT"@ {
        Some(HttpMethod::PUT)
    } else if s == "DELETE"@ {
        Some(HttpMethod::DELETE)
    } else if s == "CONNECT"@ {
        Some(HttpMethod::CONNECT)
    } else if s == "OPTIONS"@ {
        Some(HttpMethod::OPTIONS)
    } else if s == "TRACE"@ {
        Some(HttpMethod::TRACE)
    } else if s == "PATCH"@ {
        Some(HttpMethod::PATCH)
    } else {
        None
    }
}

impl HttpMethod {
    /// The canonical wire string, e.g. `"GET"`.
    pub fn as_str(&self) -> (r: &'static str)
        ensures
            r@ == method_text(*self),
    {
        match self {
            HttpMethod::GET => "GET",
            HttpMethod::HEAD => "HEAD",
            HttpMethod::POST => "POST",
            HttpMethod::PUT => "PUT",
            HttpMethod::DELETE => "DELETE",
            HttpMethod::CONNECT => "CONNECT",
            HttpMethod::OPTIONS => "OPTIONS",
            HttpMethod::TRACE => "TRACE",
            HttpMethod::PATCH => "PATCH",
        }
    }

    /// Parse a wire string; fails on anything outside the closed set.
    pub fn from_string(string: &str) -> (r: Result<Self, String>)
        ensures
            (r is Ok) == (method_of_text(string@) is Some),
            r matches Ok(m) ==> method_of_text(string@) == Some(m),
            r matches Err(e) ==> e@ == "Invalid HTTP method string"@,
    {
        if str_eq(string, "GET") {
            Ok(HttpMethod::GET)
        } else if str_eq(string, "HEAD") {
            Ok(HttpMethod::HEAD)
        } else if str_eq(string, "POST") {
            Ok(HttpMethod::POST)
        } else if str_eq(string, "PUT") {
            Ok(HttpMethod::PUT)
        } else if str_eq(string, "DELETE") {
            Ok(HttpMethod::DELETE)
        } else if str_eq(string, "CONNECT") {
            Ok(HttpMethod::CONNECT)
        } else if str_eq(string, "OPTIONS") {
            Ok(HttpMethod::OPTIONS)
        } else if str_eq(string, "TRACE") {
            Ok(HttpMethod::TRACE)
        } else if str_eq(string, "PATCH") {
            Ok(HttpMethod::PATCH)
        } else {
            Err("Invalid HTTP method string".to_owned())
        }
    }
}

/// Parsing the wire string of any method yields that method back.
pub proof fn lemma_method_round_trip(m: HttpMethod)
    ensures
        method_of_text(method_text(m)) == Some(m),
{
    reveal_strlit("GET");
    reveal_strlit("HEAD");
    reveal_strlit("POST");
    reveal_strlit("PUT");
    reveal_strlit("DELETE");
    reveal_strlit("CONNECT");
    reveal_strlit("OPTIONS");
    reveal_strlit("TRACE");
    reveal_strlit("PATCH");
    assert("GET"@.len() == 3 && "HEAD"@.len() == 4 && "POST"@.len() == 4
        && "PUT"@.len() == 3 && "DELETE"@.len() == 6 && "CONNECT"@.len() == 7
        && "OPTIONS"@.len() == 7 && "TRACE"@.len() == 5 && "PATCH"@.len() == 5);
    assert("POST"@[0] != "HEAD"@[0]);
    assert("PUT"@[0] != "GET"@[0]);
    assert("OPTIONS"@[0] != "CONNECT"@[0]);
    assert("PATCH"@[0] != "TRACE"@[0]);
}

/// Serializing a successfully parsed method string yields the string back.
pub proof fn lemma_method_text_round_trip(s: Seq<char>)
    ensures
        method_of_text(s) matches Some(m) ==> method_text(m) == s,
{
}

} // verus!
