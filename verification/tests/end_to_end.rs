use webserver::handler::{build_response, route_request, RoutePlan};
use webserver::http::{HttpMethod, HttpStatus, HttpVersion};
use webserver::message::HttpRequest;

fn lines(v: &[&str]) -> Vec<String> {
    v.iter().map(|s| String::from(*s)).collect()
}

const INDEX_PAGE: &str = "<html><body>index</body></html>";
const PAGE_404: &str = "<html><body>not found</body></html>";

#[test]
fn get_root_yields_ok_html_with_index_content() {
    let plan = route_request(&lines(&["GET / HTTP/1.1"]));
    let uri = match plan {
        RoutePlan::Resolve(uri) => uri,
        RoutePlan::Ignore => panic!("a parseable GET must be resolved"),
    };
    assert_eq!(uri, "/");
    let response = build_response(Some(String::from(INDEX_PAGE)), String::from(PAGE_404));
    assert_eq!(response.status_code, HttpStatus::OK);
    assert_eq!(response.version, HttpVersion::V1_1);
    assert_eq!(
        response.to_string(),
        format!(
            "HTTP/1.1 200 OK\r\nContent-Type: text/html; charset=UTF-8\r\nContent-Length: {}\r\n\r\n{}",
            INDEX_PAGE.len(),
            INDEX_PAGE
        )
    );
}

#[test]
fn get_missing_yields_404_with_the_configured_page() {
    let plan = route_request(&lines(&["GET /missing HTTP/1.1"]));
    let uri = match plan {
        RoutePlan::Resolve(uri) => uri,
        RoutePlan::Ignore => panic!("a parseable GET must be resolved"),
    };
    assert_eq!(uri, "/missing");
    let response = build_response(None, String::from(PAGE_404));
    assert_eq!(response.status_code, HttpStatus::NotFound);
    assert_eq!(response.body, Some(String::from(PAGE_404)));
    assert_eq!(
        response.to_string(),
        format!(
            "HTTP/1.1 404 Not Found\r\nContent-Type: text/html; charset=UTF-8\r\nContent-Length: {}\r\n\r\n{}",
            PAGE_404.len(),
            PAGE_404
        )
    );
}

#[test]
fn post_is_dropped_silently_with_no_response() {
    // Kept behavior: only GET is served; every other method is ignored and
    // the connection closed without a reply.
    let request = lines(&["POST / HTTP/1.1"]);
    let parsed = HttpRequest::from_request(&request).unwrap();
    assert_eq!(*parsed.method(), HttpMethod::POST);
    assert!(matches!(route_request(&request), RoutePlan::Ignore));
}

#[test]
fn malformed_request_line_is_dropped_without_a_crash() {
    let request = lines(&["GET /"]);
    assert_eq!(
        HttpRequest::from_request(&request).err(),
        Some(String::from("Invalid request line"))
    );
    assert!(matches!(route_request(&request), RoutePlan::Ignore));
}

#[test]
fn unparseable_method_is_dropped() {
    assert!(matches!(
        route_request(&lines(&["BREW /tea HTTP/1.1"])),
        RoutePlan::Ignore
    ));
}
