//! Per-connection decision logic: what becomes of the raw request lines read
//! from a connection, and how the reply is chosen.
//!
//! The connection's own reading and writing stay outside the library. The
//! two decisions are verified here: only a request that parses and uses GET
//! is served (anything else is dropped silently, a policy kept as it stands),
//! and the reply is the resolved content as an HTML `200 OK`, or the canned
//! not-found page as `404 Not Found` when the content resolver fails.

use vstd::prelude::*;
use crate::http::{HttpMethod, HttpStatus, HttpVersion, method_of_text};
use crate::message::{
    HttpRequest, HttpResp, req_parse_ok, text_byte_len,
};
use crate::text::{dec_text, tokens};

verus! {

/// What a connection needs next after its request lines were read: resolve
/// content for a GET request's URI, or close without any reply.
pub enum RoutePlan {
    Resolve(String),
    Ignore,
}

/// Whether the request lines ask for content: they parse, and the method is
/// GET.
pub open spec fn wants_get(lines: Seq<Seq<char>>) -> bool {
    req_parse_ok(lines) && method_of_text(tokens(lines[0])[0]) == Some(HttpMethod::GET)
}

/// Decide a connection's fate from its raw request lines: a GET request that
/// parses has its URI resolved; a request that fails to parse, or uses any
/// other method, is ignored and the connection closed with no reply.
pub fn route_request(lines: &Vec<String>) -> (r: RoutePlan)
    ensures
        (r is Resolve) == wants_get(lines.deep_view()),
        r matches RoutePlan::Resolve(u) ==> u@ == tokens(lines.deep_view()[0])[1],
{
    match HttpRequest::from_request(lines) {
        Ok(req) => {
            if req.method == HttpMethod::GET {
                RoutePlan::Resolve(req.uri)
            } else {
                RoutePlan::Ignore
            }
        },
        Err(_) => RoutePlan::Ignore,
    }
}

/// The reply for a GET whose URI the content resolver was asked about:
/// resolved content is served as HTML with `200 OK`; a resolver failure is
/// answered with the canned not-found page as HTML with `404 Not Found`.
pub fn build_response(resolved: Option<String>, page_404: String) -> (r: HttpResp)
    ensures
        r.version == HttpVersion::V1_1,
        resolved matches Some(content) ==> r.status_code == HttpStatus::OK
            && r.body == Some(content)
            && (r.headers matches Some(h) && h.deep_view() == seq![
                ("Content-Type"@, "text/html; charset=UTF-8"@),
                ("Content-Length"@, dec_text(text_byte_len(content@) as int)),
            ]),
        resolved is None ==> r.status_code == HttpStatus::NotFound
            && r.body == Some(page_404)
            && (r.headers matches Some(h) && h.deep_view() == seq![
                ("Content-Type"@, "text/html; charset=UTF-8"@),
                ("Content-Length"@, dec_text(text_byte_len(page_404@) as int)),
            ]),
{
    match resolved {
        Some(content) => HttpResp::with_text_html(HttpVersion::V1_1, 200, content),
        None => HttpResp::with_text_html(HttpVersion::V1_1, 404, page_404),
    }
}

} // verus!
