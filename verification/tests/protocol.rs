use hyper::header::HeaderValue;
use hyper::HeaderMap;
use oxidized_wall::http::{Method, RequestUri};
use oxidized_wall::protocol::{
    validate_host, validate_smuggling, validate_uri, ProtocolError,
};

fn uri(target: Option<&str>, host: Option<&str>) -> RequestUri {
    RequestUri {
        path_and_query: target.map(|t| t.to_string()),
        host: host.map(|h| h.to_string()),
    }
}

fn headers(list: &[(&'static str, &'static str)]) -> HeaderMap {
    let mut map = HeaderMap::new();
    for (name, value) in list {
        map.append(*name, HeaderValue::from_static(value));
    }
    map
}

#[test]
fn plain_targets_are_valid() {
    assert!(validate_uri(&uri(Some("/a/b?c=d"), None)).is_ok());
    assert!(validate_uri(&uri(Some("/\u{e4}\u{20ac}"), None)).is_ok());
    assert!(validate_uri(&uri(None, None)).is_ok());
}

#[test]
fn control_characters_are_described_as_debug_does() {
    for code in 0u32..0x110 {
        let c = char::from_u32(code).unwrap();
        let result = validate_uri(&uri(Some(&format!("/a{}b", c)), None));
        match result {
            Ok(()) => assert!(!c.is_control()),
            Err(ProtocolError::InvalidUri(text)) => {
                assert!(c.is_control());
                assert_eq!(text, format!("Control character detected: {:?}", c));
            }
            Err(_) => panic!("wrong error"),
        }
    }
}

#[test]
fn first_control_character_is_named() {
    match validate_uri(&uri(Some("/a\tb\n"), None)) {
        Err(ProtocolError::InvalidUri(text)) => {
            assert_eq!(text, "Control character detected: '\\t'")
        }
        _ => panic!("accepted"),
    }
}

#[test]
fn host_must_be_named_once() {
    let none = headers(&[]);
    let one = headers(&[("Host", "a")]);
    let two = headers(&[("Host", "a"), ("host", "a")]);
    let plain = uri(Some("/"), None);
    let absolute = uri(Some("/"), Some("a"));
    assert!(validate_host(&one, &Method::Get, &plain).is_ok());
    assert!(validate_host(&none, &Method::Get, &absolute).is_ok());
    match validate_host(&none, &Method::Get, &plain) {
        Err(ProtocolError::InvalidHost(text)) => assert_eq!(text, "Missing Host or Authority"),
        _ => panic!("accepted"),
    }
    match validate_host(&two, &Method::Get, &absolute) {
        Err(ProtocolError::InvalidHost(text)) => assert_eq!(text, "Duplicate Host header"),
        _ => panic!("accepted"),
    }
    assert!(validate_host(&two, &Method::Connect, &plain).is_ok());
    assert!(validate_host(&none, &Method::Connect, &plain).is_ok());
}

#[test]
fn mixed_framing_is_smuggling() {
    assert!(validate_smuggling(&headers(&[("Content-Length", "1")])).is_ok());
    assert!(validate_smuggling(&headers(&[("Transfer-Encoding", "chunked")])).is_ok());
    let both = headers(&[("Content-Length", "1"), ("Transfer-Encoding", "chunked")]);
    match validate_smuggling(&both) {
        Err(ProtocolError::RequestSmuggling(text)) => assert_eq!(text, "Both CL and TE present"),
        _ => panic!("accepted"),
    }
}

#[test]
fn errors_have_messages() {
    let text: &'static str = ProtocolError::InvalidUri(String::new()).into();
    assert_eq!(text, "Invalid characters in URI");
    let text: &'static str = ProtocolError::InvalidHost(String::new()).into();
    assert_eq!(text, "Invalid or duplicate Host header");
    let text: &'static str = ProtocolError::RequestSmuggling(String::new()).into();
    assert_eq!(text, "Request Smuggling detected (CL/TE mixed)");
}
