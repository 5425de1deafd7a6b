use webserver::http::{HttpMethod, HttpStatus, HttpVersion};

#[test]
fn version_round_trip_all() {
    let strings = ["HTTP/1.0", "HTTP/1.1", "HTTP/2.0", "HTTP/3.0"];
    for s in strings {
        let v = HttpVersion::from_string(s).unwrap();
        assert_eq!(v.as_str(), s);
    }
    assert_eq!(
        HttpVersion::from_string(HttpVersion::V1_0.as_str()).unwrap(),
        HttpVersion::V1_0
    );
    assert_eq!(
        HttpVersion::from_string(HttpVersion::V1_1.as_str()).unwrap(),
        HttpVersion::V1_1
    );
    assert_eq!(
        HttpVersion::from_string(HttpVersion::V2_0.as_str()).unwrap(),
        HttpVersion::V2_0
    );
    assert_eq!(
        HttpVersion::from_string(HttpVersion::V3_0.as_str()).unwrap(),
        HttpVersion::V3_0
    );
}

#[test]
fn version_rejects_unknown() {
    assert_eq!(
        HttpVersion::from_string("HTTP/0.9"),
        Err(String::from("Invalid HTTP version string"))
    );
    assert!(HttpVersion::from_string("http/1.1").is_err());
    assert!(HttpVersion::from_string("").is_err());
}

#[test]
fn method_round_trip_all() {
    let strings = [
        "GET", "HEAD", "POST", "PUT", "DELETE", "CONNECT", "OPTIONS", "TRACE", "PATCH",
    ];
    for s in strings {
        let m = HttpMethod::from_string(s).unwrap();
        assert_eq!(m.as_str(), s);
    }
    assert_eq!(HttpMethod::from_string("GET").unwrap(), HttpMethod::GET);
    assert_eq!(HttpMethod::from_string("PATCH").unwrap(), HttpMethod::PATCH);
}

#[test]
fn method_rejects_unknown_and_is_case_sensitive() {
    assert_eq!(
        HttpMethod::from_string("get"),
        Err(String::from("Invalid HTTP method string"))
    );
    assert!(HttpMethod::from_string("FETCH").is_err());
    assert!(HttpMethod::from_string("").is_err());
}

#[test]
fn status_round_trip_all() {
    let codes: [u16; 17] = [
        100, 101, 200, 201, 202, 301, 302, 304, 400, 401, 403, 404, 418, 500, 501, 502, 503,
    ];
    for code in codes {
        let s = HttpStatus::from_u16(code).unwrap();
        assert_eq!(s.numeric_code(), code);
    }
}

#[test]
fn status_reason_phrases() {
    assert_eq!(HttpStatus::from_u16(200).unwrap().reason_phrase(), "OK");
    assert_eq!(
        HttpStatus::from_u16(404).unwrap().reason_phrase(),
        "Not Found"
    );
    assert_eq!(
        HttpStatus::from_u16(418).unwrap().reason_phrase(),
        "I'm a teapot"
    );
    assert_eq!(
        HttpStatus::from_u16(503).unwrap().reason_phrase(),
        "Service Unavailable"
    );
}

#[test]
fn status_rejects_codes_off_the_whitelist() {
    for code in [0u16, 99, 102, 204, 303, 405, 451, 504, 600, 65535] {
        assert_eq!(
            HttpStatus::from_u16(code),
            Err(String::from("Unimplemented or invalid HTTP response code"))
        );
    }
}
