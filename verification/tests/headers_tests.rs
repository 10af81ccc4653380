use bulwark_ext_filter::headers::{
    extract_request, extract_response, get_header_value, ExtractError,
};

fn h(pairs: &[(&str, &str)]) -> Vec<(String, String)> {
    pairs.iter().map(|(k, v)| (k.to_string(), v.to_string())).collect()
}

fn request_headers() -> Vec<(String, String)> {
    h(&[
        (":method", "GET"),
        (":path", "/a"),
        (":scheme", "http"),
        (":authority", "example.com"),
        ("user-agent", "test"),
        ("accept", "*/*"),
    ])
}

#[test]
fn request_extraction_populates_fields() {
    let req = extract_request(&request_headers(), true).unwrap();
    assert_eq!(req.method, "GET");
    assert_eq!(req.path, "/a");
    assert_eq!(req.scheme, "http");
    assert_eq!(req.authority, "example.com");
    assert!(req.end_of_stream);
}

#[test]
fn pseudo_headers_are_not_visible_to_plugins() {
    let req = extract_request(&request_headers(), false).unwrap();
    assert_eq!(
        req.headers,
        h(&[("user-agent", "test"), ("accept", "*/*")])
    );
}

#[test]
fn missing_authority_is_reported() {
    let hs = h(&[(":method", "GET"), (":path", "/a"), (":scheme", "http")]);
    match extract_request(&hs, false) {
        Err(ExtractError::MissingPseudoHeader(n)) => assert_eq!(n, ":authority"),
        other => panic!("unexpected result: {:?}", other),
    }
}

#[test]
fn missing_path_is_reported() {
    let hs = h(&[(":method", "GET"), (":scheme", "http"), (":authority", "example.com")]);
    match extract_request(&hs, false) {
        Err(ExtractError::MissingPseudoHeader(n)) => assert_eq!(n, ":path"),
        other => panic!("unexpected result: {:?}", other),
    }
}

#[test]
fn malformed_method_is_rejected() {
    let mut hs = request_headers();
    hs[0].1 = "B@D".to_string();
    match extract_request(&hs, false) {
        Err(ExtractError::MalformedMethod) => {}
        other => panic!("unexpected result: {:?}", other),
    }
}

#[test]
fn extension_methods_parse() {
    let mut hs = request_headers();
    hs[0].1 = "PURGE".to_string();
    assert_eq!(extract_request(&hs, false).unwrap().method, "PURGE");
}

#[test]
fn empty_method_is_rejected() {
    let mut hs = request_headers();
    hs[0].1 = "".to_string();
    match extract_request(&hs, false) {
        Err(ExtractError::MalformedMethod) => {}
        other => panic!("unexpected result: {:?}", other),
    }
}

#[test]
fn response_extraction_needs_status() {
    let hs = h(&[(":status", "200"), ("server", "upstream")]);
    let resp = extract_response(&hs, true).unwrap();
    assert_eq!(resp.status, "200");
    assert_eq!(resp.headers, h(&[("server", "upstream")]));

    let no_status = h(&[("server", "upstream")]);
    match extract_response(&no_status, false) {
        Err(ExtractError::MissingPseudoHeader(n)) => assert_eq!(n, ":status"),
        other => panic!("unexpected result: {:?}", other),
    }
}

#[test]
fn header_lookup_finds_first_occurrence() {
    let hs = h(&[("x", "1"), ("y", "2"), ("x", "3")]);
    assert_eq!(get_header_value(&hs, "x"), Some("1".to_string()));
    assert_eq!(get_header_value(&hs, "y"), Some("2".to_string()));
    assert_eq!(get_header_value(&hs, "z"), None);
}
