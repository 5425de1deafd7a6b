//! Structured HTTP messages: requests and responses, with a verified text
//! parser and serializer.
//!
//! A message is a request or status line, then zero or more `Name: Value`
//! header lines, a blank line, and an optional body. Headers form a mapping
//! kept as an ordered list of pairs with distinct-by-replacement names;
//! iteration order on serialization is the list order, which round-trips are
//! not promised to preserve. Header lines without the `": "` separator are
//! skipped silently; a malformed first line or an unknown method, version or
//! status token is a typed error, never a panic.

use vstd::prelude::*;
use crate::http::{
    HttpMethod, HttpStatus, HttpVersion, code_of_status, method_of_text, method_text,
    reason_text, status_of_code, version_of_text, version_text,
};
use crate::text::{
    dec_text, first_sep, joined_from, join_from, parse_u16, push_decimal, split_header,
    split_lines, split_lines_vec, split_ws, tokens, u16_of_text,
};
use vstd::utf8::encode_utf8;

verus! {

/// The header mapping of a message: name/value pairs in insertion order.
pub type HttpHeaders = Vec<(String, String)>;

/// Insert into an ordered header list with map semantics: the first entry
/// with the same name is replaced in place, otherwise the pair is appended.
pub open spec fn insert_header(
    hs: Seq<(Seq<char>, Seq<char>)>,
    k: Seq<char>,
    v: Seq<char>,
) -> Seq<(Seq<char>, Seq<char>)>
    decreases hs.len(),
{
    if hs.len() == 0 {
        seq![(k, v)]
    } else if hs[0].0 == k {
        seq![(k, v)] + hs.drop_first()
    } else {
        seq![hs[0]] + insert_header(hs.drop_first(), k, v)
    }
}

/// Replacement happens at the first entry whose name matches, and appending
/// at the end when none does.
proof fn lemma_insert_header_at(hs: Seq<(Seq<char>, Seq<char>)>, k: Seq<char>, v: Seq<char>, i: int)
    requires
        0 <= i <= hs.len(),
        forall|j: int| 0 <= j < i ==> hs[j].0 != k,
        i == hs.len() || hs[i].0 == k,
    ensures
        i == hs.len() ==> insert_header(hs, k, v) == hs.push((k, v)),
        i < hs.len() ==> insert_header(hs, k, v) == hs.update(i, (k, v)),
    decreases i,
{
    if hs.len() == 0 {
        assert(insert_header(hs, k, v) =~= hs.push((k, v)));
    } else if i == 0 {
        assert(hs[0].0 == k);
        assert(seq![(k, v)] + hs.drop_first() =~= hs.update(0, (k, v)));
    } else {
        let rest = hs.drop_first();
        assert(forall|j: int| 0 <= j < i - 1 ==> rest[j] == hs[j + 1] && rest[j].0 != k);
        if i < hs.len() {
            assert(rest[i - 1] == hs[i]);
        }
        lemma_insert_header_at(rest, k, v, i - 1);
        if i == hs.len() {
            assert(seq![hs[0]] + rest.push((k, v)) =~= hs.push((k, v)));
        } else {
            assert(seq![hs[0]] + rest.update(i - 1, (k, v)) =~= hs.update(i, (k, v)));
        }
    }
}

/// Insert a header into the mapping, replacing the value of an existing name
/// or appending a new pair.
pub fn set_header(hs: &mut HttpHeaders, k: String, v: String)
    ensures
        final(hs).deep_view() == insert_header(old(hs).deep_view(), k@, v@),
{
    let ghost orig = hs.deep_view();
    let n = hs.len();
    let mut i: usize = 0;
    while i < n
        invariant
            n == hs@.len(),
            i <= n,
            orig == hs.deep_view(),
            orig == old(hs).deep_view(),
            forall|j: int| 0 <= j < i ==> orig[j].0 != k@,
        decreases n - i,
    {
        if crate::text::str_eq(hs[i].0.as_str(), k.as_str()) {
            proof {
                assert(orig[i as int] == (hs@[i as int].0@, hs@[i as int].1@));
                lemma_insert_header_at(orig, k@, v@, i as int);
            }
            hs.remove(i);
            hs.insert(i, (k, v));
            proof {
                assert(hs.deep_view() =~= orig.update(i as int, (k@, v@)));
            }
            return;
        }
        proof {
            assert(orig[i as int] == (hs@[i as int].0@, hs@[i as int].1@));
        }
        i = i + 1;
    }
    proof {
        lemma_insert_header_at(orig, k@, v@, n as int);
    }
    hs.push((k, v));
    proof {
        assert(hs.deep_view() =~= orig.push((k@, v@)));
    }
}

/// The serialized form of the first `i` headers: one `Name: Value` line per
/// pair, each ended by CRLF.
pub open spec fn headers_text_upto(hs: Seq<(Seq<char>, Seq<char>)>, i: int) -> Seq<char>
    decreases i,
{
    if i <= 0 {
        Seq::empty()
    } else {
        headers_text_upto(hs, i - 1) + hs[i - 1].0 + ": "@ + hs[i - 1].1 + "\r\n"@
    }
}

/// The serialized form of a header mapping.
pub open spec fn headers_text(hs: Seq<(Seq<char>, Seq<char>)>) -> Seq<char> {
    headers_text_upto(hs, hs.len() as int)
}

/// Append the serialized headers to `out`.
fn push_headers(out: &mut String, hs: &HttpHeaders)
    ensures
        final(out)@ == old(out)@ + headers_text(hs.deep_view()),
{
    let ghost base = out@;
    let ghost dv = hs.deep_view();
    let n = hs.len();
    let mut i: usize = 0;
    proof {
        assert(out@ =~= base + headers_text_upto(dv, 0));
    }
    while i < n
        invariant
            n == hs@.len(),
            i <= n,
            dv == hs.deep_view(),
            out@ == base + headers_text_upto(dv, i as int),
        decreases n - i,
    {
        proof {
            assert(dv[i as int] == (hs@[i as int].0@, hs@[i as int].1@));
        }
        out.append(hs[i].0.as_str());
        out.append(": ");
        out.append(hs[i].1.as_str());
        out.append("\r\n");
        proof {
            assert(out@ =~= base + headers_text_upto(dv, i + 1));
        }
        i = i + 1;
    }
}

/// One parsed header line folded into the mapping: a line with a `": "`
/// separator inserts its name and value, any other line changes nothing.
pub open spec fn header_step(
    acc: Seq<(Seq<char>, Seq<char>)>,
    line: Seq<char>,
) -> Seq<(Seq<char>, Seq<char>)> {
    match first_sep(line) {
        Some(p) => insert_header(acc, line.take(p), line.skip(p + 2)),
        None => acc,
    }
}

/// The header lines `j..end` folded into `acc`, in order.
pub open spec fn headers_fold(
    acc: Seq<(Seq<char>, Seq<char>)>,
    lines: Seq<Seq<char>>,
    j: int,
    end: int,
) -> Seq<(Seq<char>, Seq<char>)>
    decreases end - j,
{
    if j < 0 || j >= end {
        acc
    } else {
        headers_fold(header_step(acc, lines[j]), lines, j + 1, end)
    }
}

/// Folding one more line is one more step.
proof fn lemma_headers_fold_extend(
    acc: Seq<(Seq<char>, Seq<char>)>,
    lines: Seq<Seq<char>>,
    j: int,
    end: int,
)
    requires
        0 <= j <= end,
    ensures
        headers_fold(acc, lines, j, end + 1) == header_step(headers_fold(acc, lines, j, end), lines[end]),
    decreases end - j,
{
    reveal_with_fuel(headers_fold, 2);
    if j < end {
        lemma_headers_fold_extend(header_step(acc, lines[j]), lines, j + 1, end);
    }
}

/// The index of the first blank line at or after `j`, or the number of lines
/// when there is none: where the header block of a message ends.
pub open spec fn header_end(lines: Seq<Seq<char>>, j: int) -> int
    decreases lines.len() - j,
{
    if j < 0 || j >= lines.len() {
        lines.len() as int
    } else if lines[j].len() == 0 {
        j
    } else {
        header_end(lines, j + 1)
    }
}

/// The header mapping parsed from a message given as lines: the lines after
/// the first one, up to the first blank line.
pub open spec fn parsed_headers(lines: Seq<Seq<char>>) -> Seq<(Seq<char>, Seq<char>)> {
    headers_fold(Seq::empty(), lines, 1, header_end(lines, 1))
}

/// The body parsed from a message given as lines: everything after the first
/// blank line, joined with `'\n'`; empty when no blank line exists.
pub open spec fn parsed_body(lines: Seq<Seq<char>>) -> Seq<char> {
    let e = header_end(lines, 1);
    if e < lines.len() {
        joined_from(lines, e + 1)
    } else {
        Seq::empty()
    }
}

/// The end of the header block lies between its start and the end of the
/// message.
proof fn lemma_header_end_bounds(lines: Seq<Seq<char>>, j: int)
    requires
        0 <= j <= lines.len(),
    ensures
        j <= header_end(lines, j) <= lines.len(),
    decreases lines.len() - j,
{
    if j < lines.len() && lines[j].len() > 0 {
        lemma_header_end_bounds(lines, j + 1);
    }
}

/// The header-block scan sees only the lines it walks over: two windows with
/// the same line values end the same distance in.
proof fn lemma_header_end_window(l1: Seq<Seq<char>>, j1: int, l2: Seq<Seq<char>>, j2: int)
    requires
        0 <= j1 <= l1.len(),
        0 <= j2 <= l2.len(),
        l1.len() - j1 == l2.len() - j2,
        forall|k: int| j1 <= k < l1.len() ==> #[trigger] l1[k] == l2[k - j1 + j2],
    ensures
        header_end(l1, j1) - j1 == header_end(l2, j2) - j2,
    decreases l1.len() - j1,
{
    if j1 < l1.len() {
        assert(l1[j1] == l2[j1 - j1 + j2]);
        if l1[j1].len() > 0 {
            lemma_header_end_window(l1, j1 + 1, l2, j2 + 1);
        }
    }
}

/// Removing a line that lies strictly inside the header block moves the
/// block's end back by exactly one.
proof fn lemma_header_end_remove(lines: Seq<Seq<char>>, x: int, j: int)
    requires
        0 <= j <= x,
        x < header_end(lines, j),
    ensures
        header_end(lines.remove(x), j) == header_end(lines, j) - 1,
    decreases x - j,
{
    lemma_header_end_bounds(lines, j);
    let shorter = lines.remove(x);
    if j == x {
        assert(lines[x].len() > 0);
        assert(forall|k: int| x <= k < shorter.len() ==> #[trigger] shorter[k] == lines[k + 1]);
        lemma_header_end_window(shorter, x, lines, x + 1);
    } else {
        assert(lines[j].len() > 0);
        assert(shorter[j] == lines[j]);
        lemma_header_end_remove(lines, x, j + 1);
    }
}

/// The fold reads only the lines it walks over: two windows with the same
/// line values fold to the same mapping.
proof fn lemma_headers_fold_window(
    acc: Seq<(Seq<char>, Seq<char>)>,
    l1: Seq<Seq<char>>,
    j1: int,
    l2: Seq<Seq<char>>,
    j2: int,
    len: int,
)
    requires
        0 <= j1,
        0 <= j2,
        len >= 0,
        forall|k: int| j1 <= k < j1 + len ==> #[trigger] l1[k] == l2[k - j1 + j2],
    ensures
        headers_fold(acc, l1, j1, j1 + len) == headers_fold(acc, l2, j2, j2 + len),
    decreases len,
{
    if len > 0 {
        assert(l1[j1] == l2[j1 - j1 + j2]);
        lemma_headers_fold_window(header_step(acc, l1[j1]), l1, j1 + 1, l2, j2 + 1, len - 1);
    }
}

/// Folding a window is folding its first part, then its second.
proof fn lemma_headers_fold_split(
    acc: Seq<(Seq<char>, Seq<char>)>,
    lines: Seq<Seq<char>>,
    j: int,
    mid: int,
    end: int,
)
    requires
        0 <= j <= mid <= end,
    ensures
        headers_fold(acc, lines, j, end) == headers_fold(
            headers_fold(acc, lines, j, mid),
            lines,
            mid,
            end,
        ),
    decreases mid - j,
{
    if j < mid {
        lemma_headers_fold_split(header_step(acc, lines[j]), lines, j + 1, mid, end);
    }
}

/// A header line lacking `": "` is dropped without aborting the parse of the
/// lines after it: the message parses exactly as if the line were not there
/// at all — same first line, same header mapping, same body.
pub proof fn lemma_separatorless_header_line_ignored(lines: Seq<Seq<char>>, x: int)
    requires
        1 <= x < header_end(lines, 1),
        first_sep(lines[x]) is None,
    ensures
        lines.remove(x)[0] == lines[0],
        parsed_headers(lines.remove(x)) == parsed_headers(lines),
        parsed_body(lines.remove(x)) == parsed_body(lines),
{
    lemma_header_end_bounds(lines, 1);
    let shorter = lines.remove(x);
    let e = header_end(lines, 1);
    lemma_header_end_remove(lines, x, 1);
    assert(header_end(shorter, 1) == e - 1);

    // The mapping: fold up to the dropped line, skip it, fold the rest.
    let acc0 = Seq::<(Seq<char>, Seq<char>)>::empty();
    let upto = headers_fold(acc0, lines, 1, x);
    lemma_headers_fold_split(acc0, lines, 1, x, e);
    lemma_headers_fold_extend(acc0, lines, 1, x);
    assert(headers_fold(acc0, lines, 1, x + 1) == upto);
    lemma_headers_fold_split(acc0, lines, 1, x + 1, e);
    assert(headers_fold(acc0, lines, 1, e) == headers_fold(upto, lines, x + 1, e));

    assert(forall|k: int| 1 <= k < x ==> #[trigger] shorter[k] == lines[k]);
    lemma_headers_fold_window(acc0, shorter, 1, lines, 1, x - 1);
    assert(headers_fold(acc0, shorter, 1, x) == upto);
    lemma_headers_fold_split(acc0, shorter, 1, x, e - 1);
    assert(forall|k: int| x <= k < e - 1 ==> #[trigger] shorter[k] == lines[k + 1]);
    lemma_headers_fold_window(upto, shorter, x, lines, x + 1, e - 1 - x);
    assert(headers_fold(acc0, shorter, 1, e - 1) == headers_fold(upto, lines, x + 1, e));

    // The body: the lines after the blank line are untouched by the removal.
    if e < lines.len() {
        assert(shorter.skip(e) =~= lines.skip(e + 1));
        assert(parsed_body(shorter) == parsed_body(lines));
    }
}

/// Parse the header block of a message given as lines: lines after the first
/// one, up to the first blank line (or the end). Returns the mapping and the
/// index of the line the scan stopped at.
fn parse_header_block(lines: &Vec<String>) -> (r: (HttpHeaders, usize))
    requires
        lines@.len() >= 1,
    ensures
        r.1 as int == header_end(lines.deep_view(), 1),
        r.0.deep_view() == parsed_headers(lines.deep_view()),
        1 <= r.1 <= lines@.len(),
{
    let ghost lv = lines.deep_view();
    let n = lines.len();
    let mut hdrs: HttpHeaders = Vec::new();
    let mut i: usize = 1;
    proof {
        assert(hdrs.deep_view() =~= Seq::<(Seq<char>, Seq<char>)>::empty());
        assert(lv.len() == lines@.len());
    }
    while i < n && !lines[i].as_str().is_empty()
        invariant
            n == lines@.len(),
            lv == lines.deep_view(),
            1 <= i <= n,
            header_end(lv, 1) == header_end(lv, i as int),
            hdrs.deep_view() == headers_fold(Seq::empty(), lv, 1, i as int),
        decreases n - i,
    {
        proof {
            assert(lv[i as int] == lines@[i as int]@);
        }
        match split_header(lines[i].as_str()) {
            Some((k, v)) => {
                set_header(&mut hdrs, k, v);
            },
            None => {},
        }
        proof {
            lemma_headers_fold_extend(Seq::empty(), lv, 1, i as int);
        }
        i = i + 1;
    }
    proof {
        if i < n {
            assert(lv[i as int] == lines@[i as int]@);
            assert(lv[i as int].len() == 0);
        }
        assert(header_end(lv, i as int) == i as int);
    }
    (hdrs, i)
}

/// The byte length of text under UTF-8, as a machine word: exactly what
/// `str::len` returns for a string with these characters.
pub open spec fn text_byte_len(s: Seq<char>) -> usize {
    encode_utf8(s).len() as usize
}

/// A structured HTTP response: version, status, and optional headers and
/// body.
pub struct HttpResp {
    pub version: HttpVersion,
    pub status_code: HttpStatus,
    pub headers: Option<HttpHeaders>,
    pub body: Option<String>,
}

/// The serialized header block of an optional header mapping.
pub open spec fn opt_headers_text(h: Option<HttpHeaders>) -> Seq<char> {
    match h {
        Some(hs) => headers_text(hs.deep_view()),
        None => Seq::empty(),
    }
}

/// The serialized form of an optional body: the body verbatim, or nothing.
pub open spec fn opt_body_text(b: Option<String>) -> Seq<char> {
    match b {
        Some(s) => s@,
        None => Seq::empty(),
    }
}

/// The full wire text of a response: status line, header lines, a blank
/// line, then the body verbatim.
pub open spec fn resp_text(resp: HttpResp) -> Seq<char> {
    version_text(resp.version) + " "@ + dec_text(code_of_status(resp.status_code) as int) + " "@
        + reason_text(resp.status_code) + "\r\n"@ + opt_headers_text(resp.headers) + "\r\n"@
        + opt_body_text(resp.body)
}

/// Whether response text, given as lines, parses: a status line of at least
/// three tokens whose first token is a supported version and whose second is
/// a whitelisted numeric status code.
pub open spec fn resp_parse_ok(lines: Seq<Seq<char>>) -> bool {
    &&& lines.len() > 0
    &&& tokens(lines[0]).len() >= 3
    &&& version_of_text(tokens(lines[0])[0]) is Some
    &&& u16_of_text(tokens(lines[0])[1]) is Some
    &&& status_of_code(u16_of_text(tokens(lines[0])[1])->0) is Some
}

/// The error reported for response text that does not parse.
pub open spec fn resp_parse_err(lines: Seq<Seq<char>>) -> Seq<char> {
    if lines.len() == 0 {
        "Empty response"@
    } else if tokens(lines[0]).len() < 3 {
        "Invalid status line"@
    } else if version_of_text(tokens(lines[0])[0]) is None {
        "Invalid HTTP version: "@ + tokens(lines[0])[0]
    } else {
        "Invalid HTTP status code: "@ + tokens(lines[0])[1]
    }
}

/// What a successfully parsed response holds: the status line's version and
/// code, the folded header mapping (always present, possibly empty), and the
/// joined body (absent when empty).
pub open spec fn resp_matches(resp: HttpResp, lines: Seq<Seq<char>>) -> bool {
    &&& Some(resp.version) == version_of_text(tokens(lines[0])[0])
    &&& Some(resp.status_code) == status_of_code(u16_of_text(tokens(lines[0])[1])->0)
    &&& resp.headers matches Some(h) && h.deep_view() == parsed_headers(lines)
    &&& match resp.body {
        None => parsed_body(lines).len() == 0,
        Some(b) => parsed_body(lines).len() > 0 && b@ == parsed_body(lines),
    }
}

impl HttpResp {
    /// Assemble a response from its parts.
    pub fn new(
        version: HttpVersion,
        status_code: HttpStatus,
        headers: Option<HttpHeaders>,
        body: Option<String>,
    ) -> (r: Self)
        ensures
            r.version == version,
            r.status_code == status_code,
            r.headers == headers,
            r.body == body,
    {
        Self { version, status_code, headers, body }
    }

    /// Parse a response from its wire text.
    pub fn from_string(response: &str) -> (r: Result<Self, String>)
        ensures
            (r is Ok) == resp_parse_ok(split_lines(response@)),
            r matches Ok(resp) ==> resp_matches(resp, split_lines(response@)),
            r matches Err(m) ==> m@ == resp_parse_err(split_lines(response@)),
    {
        let lines = split_lines_vec(response);
        let ghost lv = split_lines(response@);
        if lines.len() == 0 {
            return Err("Empty response".to_owned());
        }
        proof {
            assert(lv[0] == lines@[0]@);
        }
        let toks = split_ws(lines[0].as_str());
        if toks.len() < 3 {
            return Err("Invalid status line".to_owned());
        }
        proof {
            assert(toks.deep_view()[0] == toks@[0]@);
            assert(toks.deep_view()[1] == toks@[1]@);
        }
        let version = match HttpVersion::from_string(toks[0].as_str()) {
            Ok(v) => v,
            Err(_) => {
                let mut msg = "Invalid HTTP version: ".to_owned();
                msg.append(toks[0].as_str());
                return Err(msg);
            },
        };
        let status_code = match parse_u16(toks[1].as_str()) {
            Some(code) => match HttpStatus::from_u16(code) {
                Ok(s) => s,
                Err(_) => {
                    let mut msg = "Invalid HTTP status code: ".to_owned();
                    msg.append(toks[1].as_str());
                    return Err(msg);
                },
            },
            None => {
                let mut msg = "Invalid HTTP status code: ".to_owned();
                msg.append(toks[1].as_str());
                return Err(msg);
            },
        };
        let (hdrs, e) = parse_header_block(&lines);
        let body = if e < lines.len() {
            join_from(&lines, e + 1)
        } else {
            String::new()
        };
        let body_opt = if body.as_str().is_empty() {
            None
        } else {
            Some(body)
        };
        Ok(HttpResp { version, status_code, headers: Some(hdrs), body: body_opt })
    }

    /// A status-only response: no headers, no body. The code must be on the
    /// whitelist.
    pub fn with_code(status_code: u16, version: HttpVersion) -> (r: Self)
        requires
            status_of_code(status_code) is Some,
        ensures
            r.version == version,
            Some(r.status_code) == status_of_code(status_code),
            r.headers is None,
            r.body is None,
    {
        let code = match HttpStatus::from_u16(status_code) {
            Ok(c) => c,
            Err(_) => {
                proof {
                    assert(false);
                }
                HttpStatus::OK
            },
        };
        Self::new(version, code, None, None)
    }

    /// An HTML response: `Content-Type` is fixed and `Content-Length` is
    /// computed as the exact byte length of the supplied body. The code must
    /// be on the whitelist.
    pub fn with_text_html(version: HttpVersion, status_code: u16, body: String) -> (r: Self)
        requires
            status_of_code(status_code) is Some,
        ensures
            r.version == version,
            Some(r.status_code) == status_of_code(status_code),
            r.headers matches Some(h) && h.deep_view() == seq![
                ("Content-Type"@, "text/html; charset=UTF-8"@),
                ("Content-Length"@, dec_text(text_byte_len(body@) as int)),
            ],
            r.body == Some(body),
    {
        let code = match HttpStatus::from_u16(status_code) {
            Ok(c) => c,
            Err(_) => {
                proof {
                    assert(false);
                }
                HttpStatus::OK
            },
        };
        let mut headers: HttpHeaders = Vec::new();
        headers.push(("Content-Type".to_owned(), "text/html; charset=UTF-8".to_owned()));
        let mut length = String::new();
        push_decimal(&mut length, body.as_str().len());
        headers.push(("Content-Length".to_owned(), length));
        proof {
            assert(headers.deep_view() =~= seq![
                ("Content-Type"@, "text/html; charset=UTF-8"@),
                ("Content-Length"@, dec_text(text_byte_len(body@) as int)),
            ]);
        }
        Self::new(version, code, Some(headers), Some(body))
    }

    /// Serialize to wire text: status line, headers, blank line, body.
    pub fn to_string(&self) -> (r: String)
        ensures
            r@ == resp_text(*self),
    {
        let mut out = self.version.as_str().to_owned();
        out.append(" ");
        push_decimal(&mut out, self.status_code.numeric_code() as usize);
        out.append(" ");
        out.append(self.status_code.reason_phrase());
        out.append("\r\n");
        match &self.headers {
            Some(hs) => push_headers(&mut out, hs),
            None => {},
        }
        out.append("\r\n");
        match &self.body {
            Some(b) => out.append(b.as_str()),
            None => {},
        }
        proof {
            assert(out@ =~= resp_text(*self));
        }
        out
    }
}

/// A structured HTTP request: method, URI (kept opaque), version, and
/// optional headers and body.
pub struct HttpRequest {
    pub method: HttpMethod,
    pub uri: String,
    pub version: HttpVersion,
    pub headers: Option<HttpHeaders>,
    pub body: Option<String>,
}

/// The full wire text of a request: request line, header lines, a blank
/// line, then the body verbatim.
pub open spec fn req_text(req: HttpRequest) -> Seq<char> {
    method_text(req.method) + " "@ + req.uri@ + " "@ + version_text(req.version) + "\r\n"@
        + opt_headers_text(req.headers) + "\r\n"@ + opt_body_text(req.body)
}

/// Whether request text, given as lines, parses: a request line of at least
/// three tokens whose first token is a known method and whose third is a
/// supported version.
pub open spec fn req_parse_ok(lines: Seq<Seq<char>>) -> bool {
    &&& lines.len() > 0
    &&& tokens(lines[0]).len() >= 3
    &&& method_of_text(tokens(lines[0])[0]) is Some
    &&& version_of_text(tokens(lines[0])[2]) is Some
}

/// The error reported for request text that does not parse.
pub open spec fn req_parse_err(lines: Seq<Seq<char>>) -> Seq<char> {
    if lines.len() == 0 {
        "Empty request"@
    } else if tokens(lines[0]).len() < 3 {
        "Invalid request line"@
    } else if method_of_text(tokens(lines[0])[0]) is None {
        "Invalid HTTP method: "@ + tokens(lines[0])[0]
    } else {
        "Invalid HTTP version: "@ + tokens(lines[0])[2]
    }
}

/// What a successfully parsed request holds: the request line's method, URI
/// and version, the folded header mapping (absent when empty), and the
/// joined body (absent when empty).
pub open spec fn req_matches(req: HttpRequest, lines: Seq<Seq<char>>) -> bool {
    &&& Some(req.method) == method_of_text(tokens(lines[0])[0])
    &&& req.uri@ == tokens(lines[0])[1]
    &&& Some(req.version) == version_of_text(tokens(lines[0])[2])
    &&& match req.headers {
        None => parsed_headers(lines).len() == 0,
        Some(h) => parsed_headers(lines).len() > 0 && h.deep_view() == parsed_headers(lines),
    }
    &&& match req.body {
        None => parsed_body(lines).len() == 0,
        Some(b) => parsed_body(lines).len() > 0 && b@ == parsed_body(lines),
    }
}

impl HttpRequest {
    /// Assemble a request from its parts.
    pub fn new(
        method: HttpMethod,
        uri: String,
        version: HttpVersion,
        headers: Option<HttpHeaders>,
        body: Option<String>,
    ) -> (r: Self)
        ensures
            r.method == method,
            r.uri == uri,
            r.version == version,
            r.headers == headers,
            r.body == body,
    {
        Self { method, uri, version, headers, body }
    }

    /// The request's method.
    pub fn method(&self) -> (r: &HttpMethod)
        ensures
            *r == self.method,
    {
        &self.method
    }

    /// The request's URI, exactly as it stood on the request line.
    pub fn uri(&self) -> (r: &str)
        ensures
            r@ == self.uri@,
    {
        self.uri.as_str()
    }

    /// Parse a request from its lines: the request line, header lines up to
    /// a blank line, then body lines.
    pub fn from_request(request: &Vec<String>) -> (r: Result<Self, String>)
        ensures
            (r is Ok) == req_parse_ok(request.deep_view()),
            r matches Ok(req) ==> req_matches(req, request.deep_view()),
            r matches Err(m) ==> m@ == req_parse_err(request.deep_view()),
    {
        let ghost lv = request.deep_view();
        if request.len() == 0 {
            return Err("Empty request".to_owned());
        }
        proof {
            assert(lv[0] == request@[0]@);
        }
        let toks = split_ws(request[0].as_str());
        if toks.len() < 3 {
            return Err("Invalid request line".to_owned());
        }
        proof {
            assert(toks.deep_view()[0] == toks@[0]@);
            assert(toks.deep_view()[1] == toks@[1]@);
            assert(toks.deep_view()[2] == toks@[2]@);
        }
        let method = match HttpMethod::from_string(toks[0].as_str()) {
            Ok(m) => m,
            Err(_) => {
                let mut msg = "Invalid HTTP method: ".to_owned();
                msg.append(toks[0].as_str());
                return Err(msg);
            },
        };
        let uri = toks[1].clone();
        let version = match HttpVersion::from_string(toks[2].as_str()) {
            Ok(v) => v,
            Err(_) => {
                let mut msg = "Invalid HTTP version: ".to_owned();
                msg.append(toks[2].as_str());
                return Err(msg);
            },
        };
        let (hdrs, e) = parse_header_block(request);
        let body = if e < request.len() {
            join_from(request, e + 1)
        } else {
            String::new()
        };
        let headers_opt = if hdrs.len() == 0 {
            None
        } else {
            Some(hdrs)
        };
        let body_opt = if body.as_str().is_empty() {
            None
        } else {
            Some(body)
        };
        Ok(HttpRequest { method, uri, version, headers: headers_opt, body: body_opt })
    }

    /// Serialize to wire text: request line, headers, blank line, body.
    pub fn to_string(&self) -> (r: String)
        ensures
            r@ == req_text(*self),
    {
        let mut out = self.method.as_str().to_owned();
        out.append(" ");
        out.append(self.uri.as_str());
        out.append(" ");
        out.append(self.version.as_str());
        out.append("\r\n");
        match &self.headers {
            Some(hs) => push_headers(&mut out, hs),
            None => {},
        }
        out.append("\r\n");
        match &self.body {
            Some(b) => out.append(b.as_str()),
            None => {},
        }
        proof {
            assert(out@ =~= req_text(*self));
        }
        out
    }
}

} // verus!
