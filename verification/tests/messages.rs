use webserver::http::{HttpMethod, HttpStatus, HttpVersion};
use webserver::message::{HttpRequest, HttpResp};

fn lines(v: &[&str]) -> Vec<String> {
    v.iter().map(|s| String::from(*s)).collect()
}

#[test]
fn request_parses_line_headers_and_body() {
    let req = HttpRequest::from_request(&lines(&[
        "GET /index.html HTTP/1.1",
        "Host: example.org",
        "Accept: text/html",
        "",
        "hello",
        "world",
    ]))
    .unwrap();
    assert_eq!(*req.method(), HttpMethod::GET);
    assert_eq!(req.uri(), "/index.html");
    assert_eq!(req.version, HttpVersion::V1_1);
    let headers = req.headers.as_ref().unwrap();
    assert_eq!(headers.len(), 2);
    assert_eq!(headers[0], (String::from("Host"), String::from("example.org")));
    assert_eq!(headers[1], (String::from("Accept"), String::from("text/html")));
    assert_eq!(req.body, Some(String::from("hello\nworld")));
}

#[test]
fn request_without_headers_or_body_has_neither() {
    let req = HttpRequest::from_request(&lines(&["GET / HTTP/1.1"])).unwrap();
    assert!(req.headers.is_none());
    assert!(req.body.is_none());
}

#[test]
fn request_line_with_too_few_tokens_is_an_error() {
    assert_eq!(
        HttpRequest::from_request(&lines(&["GET /"])).err(),
        Some(String::from("Invalid request line"))
    );
    assert_eq!(
        HttpRequest::from_request(&lines(&["GET"])).err(),
        Some(String::from("Invalid request line"))
    );
    assert_eq!(
        HttpRequest::from_request(&lines(&[""])).err(),
        Some(String::from("Invalid request line"))
    );
    assert_eq!(
        HttpRequest::from_request(&Vec::new()).err(),
        Some(String::from("Empty request"))
    );
}

#[test]
fn request_with_bad_method_or_version_names_the_token() {
    assert_eq!(
        HttpRequest::from_request(&lines(&["FETCH / HTTP/1.1"])).err(),
        Some(String::from("Invalid HTTP method: FETCH"))
    );
    assert_eq!(
        HttpRequest::from_request(&lines(&["GET / HTTP/9.9"])).err(),
        Some(String::from("Invalid HTTP version: HTTP/9.9"))
    );
}

#[test]
fn header_lines_without_separator_are_skipped() {
    let req = HttpRequest::from_request(&lines(&[
        "GET / HTTP/1.1",
        "Good: yes",
        "this line has no separator",
        "nor:this",
        "Also: fine",
        "",
    ]))
    .unwrap();
    let headers = req.headers.as_ref().unwrap();
    assert_eq!(headers.len(), 2);
    assert_eq!(headers[0], (String::from("Good"), String::from("yes")));
    assert_eq!(headers[1], (String::from("Also"), String::from("fine")));
}

#[test]
fn later_header_with_same_name_replaces_the_earlier() {
    let req = HttpRequest::from_request(&lines(&[
        "GET / HTTP/1.1",
        "Host: first",
        "Other: kept",
        "Host: second",
        "",
    ]))
    .unwrap();
    let headers = req.headers.as_ref().unwrap();
    assert_eq!(headers.len(), 2);
    assert_eq!(headers[0], (String::from("Host"), String::from("second")));
    assert_eq!(headers[1], (String::from("Other"), String::from("kept")));
}

#[test]
fn header_value_keeps_later_separators() {
    let req = HttpRequest::from_request(&lines(&[
        "GET / HTTP/1.1",
        "Note: a: b: c",
        "",
    ]))
    .unwrap();
    let headers = req.headers.as_ref().unwrap();
    assert_eq!(headers[0], (String::from("Note"), String::from("a: b: c")));
}

#[test]
fn request_serializes_with_crlf_lines() {
    let req = HttpRequest::new(
        HttpMethod::GET,
        String::from("/x"),
        HttpVersion::V1_1,
        Some(vec![(String::from("Host"), String::from("h"))]),
        Some(String::from("payload")),
    );
    assert_eq!(req.to_string(), "GET /x HTTP/1.1\r\nHost: h\r\n\r\npayload");
}

#[test]
fn request_without_body_serializes_blank_tail() {
    let req = HttpRequest::new(HttpMethod::HEAD, String::from("/"), HttpVersion::V1_0, None, None);
    assert_eq!(req.to_string(), "HEAD / HTTP/1.0\r\n\r\n");
}

#[test]
fn response_parses_status_line_headers_and_body() {
    let resp = HttpResp::from_string(
        "HTTP/1.1 200 OK\r\nContent-Type: text/html\r\n\r\n<p>hi</p>",
    )
    .unwrap();
    assert_eq!(resp.version, HttpVersion::V1_1);
    assert_eq!(resp.status_code, HttpStatus::OK);
    let headers = resp.headers.as_ref().unwrap();
    assert_eq!(headers.len(), 1);
    assert_eq!(
        headers[0],
        (String::from("Content-Type"), String::from("text/html"))
    );
    assert_eq!(resp.body, Some(String::from("<p>hi</p>")));
}

#[test]
fn response_headers_present_even_when_empty() {
    let resp = HttpResp::from_string("HTTP/1.1 304 Not Modified\r\n\r\n").unwrap();
    assert_eq!(resp.headers, Some(Vec::new()));
    assert_eq!(resp.body, None);
}

#[test]
fn response_status_line_with_too_few_tokens_is_an_error() {
    assert_eq!(
        HttpResp::from_string("HTTP/1.1 200").err(),
        Some(String::from("Invalid status line"))
    );
    assert_eq!(
        HttpResp::from_string("").err(),
        Some(String::from("Empty response"))
    );
}

#[test]
fn response_with_bad_version_or_code_names_the_token() {
    assert_eq!(
        HttpResp::from_string("HTTP/9.9 200 OK\r\n\r\n").err(),
        Some(String::from("Invalid HTTP version: HTTP/9.9"))
    );
    assert_eq!(
        HttpResp::from_string("HTTP/1.1 2x0 OK\r\n\r\n").err(),
        Some(String::from("Invalid HTTP status code: 2x0"))
    );
    assert_eq!(
        HttpResp::from_string("HTTP/1.1 299 Whatever\r\n\r\n").err(),
        Some(String::from("Invalid HTTP status code: 299"))
    );
    assert_eq!(
        HttpResp::from_string("HTTP/1.1 99999 Huge\r\n\r\n").err(),
        Some(String::from("Invalid HTTP status code: 99999"))
    );
}

#[test]
fn with_code_builds_a_bare_response() {
    let resp = HttpResp::with_code(503, HttpVersion::V1_1);
    assert_eq!(resp.status_code, HttpStatus::ServiceUnavailable);
    assert_eq!(resp.version, HttpVersion::V1_1);
    assert!(resp.headers.is_none());
    assert!(resp.body.is_none());
    assert_eq!(resp.to_string(), "HTTP/1.1 503 Service Unavailable\r\n\r\n");
}

#[test]
fn with_text_html_sets_exact_byte_content_length() {
    let resp = HttpResp::with_text_html(HttpVersion::V1_1, 200, String::from("hello"));
    let headers = resp.headers.as_ref().unwrap();
    assert_eq!(
        headers[0],
        (
            String::from("Content-Type"),
            String::from("text/html; charset=UTF-8")
        )
    );
    assert_eq!(
        headers[1],
        (String::from("Content-Length"), String::from("5"))
    );

    let multibyte = HttpResp::with_text_html(HttpVersion::V1_1, 200, String::from("h\u{e9}llo"));
    let headers = multibyte.headers.as_ref().unwrap();
    assert_eq!(
        headers[1],
        (String::from("Content-Length"), String::from("6"))
    );

    let empty = HttpResp::with_text_html(HttpVersion::V1_1, 200, String::new());
    let headers = empty.headers.as_ref().unwrap();
    assert_eq!(
        headers[1],
        (String::from("Content-Length"), String::from("0"))
    );
}

#[test]
fn response_serializes_status_line_headers_and_body() {
    let resp = HttpResp::with_text_html(HttpVersion::V1_1, 200, String::from("<h1>ok</h1>"));
    assert_eq!(
        resp.to_string(),
        "HTTP/1.1 200 OK\r\nContent-Type: text/html; charset=UTF-8\r\nContent-Length: 11\r\n\r\n<h1>ok</h1>"
    );
}

#[test]
fn response_round_trips_through_text() {
    let resp = HttpResp::with_text_html(HttpVersion::V1_1, 404, String::from("<p>gone</p>"));
    let reparsed = HttpResp::from_string(&resp.to_string()).unwrap();
    assert_eq!(reparsed.version, HttpVersion::V1_1);
    assert_eq!(reparsed.status_code, HttpStatus::NotFound);
    assert_eq!(reparsed.body, Some(String::from("<p>gone</p>")));
    let headers = reparsed.headers.as_ref().unwrap();
    assert!(headers.contains(&(String::from("Content-Length"), String::from("11"))));
}

#[test]
fn body_of_blank_lines_collapses_to_none_only_when_empty() {
    let req = HttpRequest::from_request(&lines(&["GET / HTTP/1.1", "", ""])).unwrap();
    assert_eq!(req.body, None);
    let two_blanks = HttpRequest::from_request(&lines(&["GET / HTTP/1.1", "", "", ""])).unwrap();
    assert_eq!(two_blanks.body, Some(String::from("\n")));
}

#[test]
fn parsed_request_serializes_back_to_its_wire_form() {
    let req = HttpRequest::from_request(&lines(&[
        "PUT /item HTTP/2.0",
        "Host: h",
        "",
        "data",
    ]))
    .unwrap();
    assert_eq!(req.to_string(), "PUT /item HTTP/2.0\r\nHost: h\r\n\r\ndata");
}
