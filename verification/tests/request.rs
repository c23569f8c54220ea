use cabot::constants;
use cabot::request::{Request, RequestBuilder};
use cabot::results::CabotError;
use cabot::url_parts::UrlParts;

#[test]
fn test_get_request_to_string() {
    let request = Request::new(
        "127.0.0.1".to_owned(),
        80,
        "127.0.0.1:80".to_owned(),
        false,
        "http".to_owned(),
        "GET".to_owned(),
        "/path?query".to_owned(),
        "HTTP/1.1".to_owned(),
        Vec::new(),
        None,
    );
    let attempt = "GET /path?query HTTP/1.1\r\nConnection: close\r\n\r\n";
    assert_eq!(request.to_string(), attempt);
}

#[test]
fn test_get_request_wiht_host_to_string() {
    let request = Request::new(
        "localhost".to_owned(),
        80,
        "localhost:80".to_owned(),
        true,
        "http".to_owned(),
        "GET".to_owned(),
        "/path?query".to_owned(),
        "HTTP/1.1".to_owned(),
        Vec::new(),
        None,
    );
    let attempt = "GET /path?query HTTP/1.1\r\nHost: localhost\r\nConnection: close\r\n\r\n";
    assert_eq!(request.to_string(), attempt);
}

#[test]
fn test_get_request_with_headers_to_string() {
    let request = Request::new(
        "localhost".to_owned(),
        80,
        "localhost:80".to_owned(),
        true,
        "http".to_owned(),
        "GET".to_owned(),
        "/path?query".to_owned(),
        "HTTP/1.1".to_owned(),
        vec!["Accept-Language: fr".to_owned(), "Accept-Encoding: gzip".to_owned()],
        None,
    );
    let attempt = "GET /path?query HTTP/1.1\r\nAccept-Language: fr\r\nAccept-Encoding: \
                   gzip\r\nHost: localhost\r\nConnection: close\r\n\r\n";
    assert_eq!(request.to_string(), attempt);
}

#[test]
fn test_post_request_with_headers_to_string() {
    let body: Vec<u8> = vec![123, 125];
    let request = Request::new(
        "localhost".to_owned(),
        80,
        "localhost:80".to_owned(),
        true,
        "http".to_owned(),
        "POST".to_owned(),
        "/".to_owned(),
        "HTTP/1.1".to_owned(),
        vec!["Accept-Language: fr".to_owned(), "Content-Type: application/json".to_owned()],
        Some(body),
    );
    let attempt = "POST / HTTP/1.1\r\nAccept-Language: fr\r\nContent-Type: \
                   application/json\r\nHost: localhost\r\nConnection: \
                   close\r\nContent-Length: 2\r\n\r\n{}";
    assert_eq!(request.to_string(), attempt);
}

#[test]
fn test_request_builder_simple() {
    let request = RequestBuilder::new("http://localhost/").build().unwrap();
    assert_eq!(request.host(), "localhost".to_string());
    assert_eq!(request.scheme(), "http".to_string());
    assert_eq!(request.body(), None);
    assert_eq!(request.http_method(), "GET".to_string());
    assert_eq!(request.http_version(), "HTTP/1.1".to_string());
    let headers: Vec<String> = vec![format!("User-Agent: {}", constants::USER_AGENT)];
    assert_eq!(request.headers(), headers);
}

#[test]
fn test_request_builder_complete() {
    let builder = RequestBuilder::new("http://localhost/")
        .set_http_method("POST")
        .set_http_version("HTTP/1.0")
        .set_user_agent("anonymized")
        .add_header("Content-Type: application/json")
        .add_headers(&["Accept-Encoding: deflate", "Accept-Language: fr"])
        .set_body_as_str("{}");
    let body: &[u8] = &[123, 125];
    let request = builder.build().unwrap();
    assert_eq!(request.host(), "localhost".to_string());
    assert_eq!(request.body(), Some(body));
    assert_eq!(request.body_as_string().unwrap().unwrap(), "{}".to_string());
    assert_eq!(request.scheme(), "http".to_string());
    assert_eq!(request.http_method(), "POST".to_string());
    assert_eq!(request.request_uri(), "/");
    assert_eq!(request.http_version(), "HTTP/1.0".to_string());
    assert_eq!(
        request.headers(),
        vec![
            "Content-Type: application/json".to_string(),
            "Accept-Encoding: deflate".to_string(),
            "Accept-Language: fr".to_string(),
            "User-Agent: anonymized".to_string(),
        ]
    );

    let builder = builder.set_url("http://[::1]/path");
    let request = builder.build().unwrap();
    assert_eq!(request.host(), "[::1]".to_string());
    assert_eq!(request.request_uri(), "/path");
    assert_eq!(request.body(), Some(body));
    assert_eq!(request.body_as_string().unwrap().unwrap(), "{}".to_string());
    assert_eq!(request.scheme(), "http".to_string());
    assert_eq!(request.http_method(), "POST".to_string());
    assert_eq!(request.http_version(), "HTTP/1.0".to_string());
    assert_eq!(
        request.headers(),
        vec![
            "Content-Type: application/json".to_string(),
            "Accept-Encoding: deflate".to_string(),
            "Accept-Language: fr".to_string(),
            "User-Agent: anonymized".to_string(),
        ]
    );

    let builder = builder.set_url("not_an_url");
    let err = builder.build();
    assert!(err.is_err());
}

#[test]
fn post_with_json_body_serializes_exactly() {
    let request = RequestBuilder::new("http://localhost/")
        .set_http_method("POST")
        .add_header("Content-Type: application/json")
        .set_body_as_str("{}")
        .build()
        .unwrap();
    let attempt = "POST / HTTP/1.1\r\nContent-Type: application/json\r\nUser-Agent: \
                   cabot/0.1.1\r\nHost: localhost\r\nConnection: close\r\nContent-Length: \
                   2\r\n\r\n{}";
    assert_eq!(request.to_string(), attempt);
    assert_eq!(request.to_bytes(), attempt.as_bytes().to_vec());
}

#[test]
fn relative_text_is_no_url() {
    let result = RequestBuilder::new("not_an_url").build();
    assert_eq!(
        result.err(),
        Some(CabotError::UrlParseError(url::ParseError::RelativeUrlWithoutBase))
    );
}

#[test]
fn url_without_host_is_opaque() {
    let result = RequestBuilder::new("mailto:someone@example.net").build();
    assert_eq!(
        result.err(),
        Some(CabotError::OpaqueUrlError("Unable to find host".to_string()))
    );
}

#[test]
fn url_without_known_port_is_opaque() {
    let result = RequestBuilder::new("foo://example.net/").build();
    assert_eq!(
        result.err(),
        Some(CabotError::OpaqueUrlError("Unable to determine a port".to_string()))
    );
}

#[test]
fn default_and_explicit_ports() {
    let request = RequestBuilder::new("http://localhost/").build().unwrap();
    assert_eq!(request.port(), 80);
    assert_eq!(request.authority(), "localhost:80");
    let request = RequestBuilder::new("https://example.net/a").build().unwrap();
    assert_eq!(request.port(), 443);
    assert_eq!(request.scheme(), "https");
    assert_eq!(request.authority(), "example.net:443");
    let request = RequestBuilder::new("http://example.net:8080/a?b=c&d=e").build().unwrap();
    assert_eq!(request.port(), 8080);
    assert_eq!(request.authority(), "example.net:8080");
    assert_eq!(request.request_uri(), "/a?b=c&d=e");
    let request = RequestBuilder::new("http://example.net:65535").build().unwrap();
    assert_eq!(request.authority(), "example.net:65535");
    assert_eq!(request.request_uri(), "/");
}

#[test]
fn host_line_only_for_named_hosts() {
    let request = RequestBuilder::new("http://127.0.0.1/").build().unwrap();
    assert_eq!(
        request.to_string(),
        "GET / HTTP/1.1\r\nUser-Agent: cabot/0.1.1\r\nConnection: close\r\n\r\n"
    );
    let request = RequestBuilder::new("http://[::1]/").build().unwrap();
    assert!(!request.to_string().contains("Host:"));
    let request = RequestBuilder::new("http://localhost/").build().unwrap();
    assert_eq!(
        request.to_string(),
        "GET / HTTP/1.1\r\nUser-Agent: cabot/0.1.1\r\nHost: localhost\r\nConnection: \
         close\r\n\r\n"
    );
}

#[test]
fn no_body_ends_with_connection_close() {
    let request = RequestBuilder::new("http://example.net/x").add_header("A: b").build().unwrap();
    let text = request.to_string();
    assert!(text.ends_with("Connection: close\r\n\r\n"));
    assert!(!text.contains("Content-Length"));
    assert_eq!(request.to_bytes(), text.as_bytes().to_vec());
}

#[test]
fn content_length_counts_bytes() {
    let request =
        RequestBuilder::new("http://localhost/").set_body_as_str("h\u{e9}llo").build().unwrap();
    let text = request.to_string();
    assert!(text.ends_with("Connection: close\r\nContent-Length: 6\r\n\r\nh\u{e9}llo"));
    assert_eq!(request.to_bytes(), text.as_bytes().to_vec());
    assert_eq!(request.body(), Some("h\u{e9}llo".as_bytes()));
}

#[test]
fn empty_body_is_framed() {
    let request = RequestBuilder::new("http://localhost/").set_body(&[]).build().unwrap();
    assert!(request.to_string().ends_with("Content-Length: 0\r\n\r\n"));
    assert_eq!(request.body_as_string().unwrap(), Some(String::new()));
}

#[test]
fn long_body_length_in_decimal() {
    let body = vec![b'a'; 1234];
    let request = RequestBuilder::new("http://localhost/").set_body(&body).build().unwrap();
    let bytes = request.to_bytes();
    let head = "GET / HTTP/1.1\r\nUser-Agent: cabot/0.1.1\r\nHost: localhost\r\nConnection: \
                close\r\nContent-Length: 1234\r\n\r\n";
    assert_eq!(&bytes[..head.len()], head.as_bytes());
    assert_eq!(&bytes[head.len()..], &body[..]);
}

#[test]
fn binary_body_goes_out_in_bytes() {
    let request =
        RequestBuilder::new("http://localhost/").set_body(&[0xff, 0x00, 0xfe]).build().unwrap();
    let mut expected = "GET / HTTP/1.1\r\nUser-Agent: cabot/0.1.1\r\nHost: \
                        localhost\r\nConnection: close\r\nContent-Length: 3\r\n\r\n"
        .as_bytes()
        .to_vec();
    expected.extend_from_slice(&[0xff, 0x00, 0xfe]);
    assert_eq!(request.to_bytes(), expected);
    assert_eq!(
        request.to_string(),
        "GET / HTTP/1.1\r\nUser-Agent: cabot/0.1.1\r\nHost: localhost\r\nConnection: \
         close\r\n\r\n"
    );
}

#[test]
fn request_body_as_string_cases() {
    let request = RequestBuilder::new("http://localhost/").build().unwrap();
    assert_eq!(request.body_as_string(), Ok(None));
    assert_eq!(request.body(), None);
    let request = RequestBuilder::new("http://localhost/").set_body(&[0xc3, 0x28]).build().unwrap();
    match request.body_as_string() {
        Err(CabotError::EncodingError(detail)) => {
            assert!(detail.starts_with("Cannot decode utf8: "));
            assert!(detail.len() > "Cannot decode utf8: ".len());
        }
        other => panic!("unexpected {:?}", other),
    }
}

#[test]
fn headers_keep_call_order() {
    let request = RequestBuilder::new("http://localhost/")
        .add_headers(&["B: 2", "A: 1"])
        .add_header("B: 2")
        .add_headers(&[])
        .add_header("C: 3")
        .build()
        .unwrap();
    assert_eq!(
        request.headers(),
        vec!["B: 2", "A: 1", "B: 2", "C: 3", "User-Agent: cabot/0.1.1"]
    );
    assert_eq!(
        request.to_string(),
        "GET / HTTP/1.1\r\nB: 2\r\nA: 1\r\nB: 2\r\nC: 3\r\nUser-Agent: cabot/0.1.1\r\nHost: \
         localhost\r\nConnection: close\r\n\r\n"
    );
}

#[test]
fn reused_builder_keeps_options() {
    let builder = RequestBuilder::new("http://localhost/a")
        .set_http_method("PUT")
        .add_header("X: y")
        .set_body(&[1, 2, 3]);
    let first = builder.build().unwrap();
    assert_eq!(first.authority(), "localhost:80");
    let builder = builder.set_url("https://example.net:8443/b?c");
    let second = builder.build().unwrap();
    assert_eq!(second.host(), "example.net");
    assert_eq!(second.port(), 8443);
    assert_eq!(second.authority(), "example.net:8443");
    assert_eq!(second.scheme(), "https");
    assert_eq!(second.request_uri(), "/b?c");
    assert_eq!(second.http_method(), first.http_method());
    assert_eq!(second.http_version(), first.http_version());
    assert_eq!(second.headers(), first.headers());
    assert_eq!(second.body(), first.body());
    let again = builder.build().unwrap();
    assert_eq!(again.to_bytes(), second.to_bytes());
}

#[test]
fn build_with_takes_parts_as_given() {
    let builder = RequestBuilder::new("ignored").set_user_agent("ua");
    let parts = UrlParts {
        scheme: "http".to_owned(),
        host: Some("10.0.0.1".to_owned()),
        domain: None,
        port: Some(8),
        path: "/p".to_owned(),
        query: Some("q=1".to_owned()),
    };
    let request = builder.build_with(Ok(parts)).unwrap();
    assert_eq!(request.authority(), "10.0.0.1:8");
    assert_eq!(request.request_uri(), "/p?q=1");
    assert_eq!(
        request.to_string(),
        "GET /p?q=1 HTTP/1.1\r\nUser-Agent: ua\r\nConnection: close\r\n\r\n"
    );
    let parts = UrlParts {
        scheme: "http".to_owned(),
        host: None,
        domain: None,
        port: None,
        path: "/".to_owned(),
        query: None,
    };
    assert_eq!(
        builder.build_with(Ok(parts)).err(),
        Some(CabotError::OpaqueUrlError("Unable to find host".to_string()))
    );
    assert_eq!(
        builder.build_with(Err(url::ParseError::EmptyHost)).err(),
        Some(CabotError::UrlParseError(url::ParseError::EmptyHost))
    );
}
