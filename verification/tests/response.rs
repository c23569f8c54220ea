use cabot::response::ResponseBuilder;
use cabot::results::CabotError;

fn parse_error(detail: &str) -> Option<CabotError> {
    Some(CabotError::HttpResponseParseError(detail.to_string()))
}

#[test]
fn ok_status_line() {
    let response = ResponseBuilder::new().set_status_line("HTTP/1.1 200 OK").build().unwrap();
    assert_eq!(response.status_code(), 200);
    assert_eq!(response.reason_phrase(), "OK");
    assert_eq!(response.status_line(), "200 OK");
    assert!(response.headers().is_empty());
    assert_eq!(response.body(), None);
    assert_eq!(response.body_as_string(), Ok(String::new()));
}

#[test]
fn reason_is_joined_by_single_spaces() {
    let response =
        ResponseBuilder::new().set_status_line("HTTP/1.0 404 Not  Found ").build().unwrap();
    assert_eq!(response.status_code(), 404);
    assert_eq!(response.status_line(), "404 Not Found");
    assert_eq!(response.reason_phrase(), "Not Found");
    let response = ResponseBuilder::new()
        .set_status_line("HTTP/1.1 500 Internal\t Server \r\n Error\r\n")
        .build()
        .unwrap();
    assert_eq!(response.status_code(), 500);
    assert_eq!(response.reason_phrase(), "Internal Server Error");
    assert_eq!(response.status_line(), "500 Internal Server Error");
}

#[test]
fn parts_are_delimited_by_any_white_space() {
    let response = ResponseBuilder::new().set_status_line("HTTP/1.1\t200\tOK").build().unwrap();
    assert_eq!(response.status_code(), 200);
    assert_eq!(response.reason_phrase(), "OK");
    assert_eq!(response.status_line(), "200 OK");
    let response = ResponseBuilder::new().set_status_line("HTTP/1.1  200 OK").build().unwrap();
    assert_eq!(response.status_code(), 200);
    assert_eq!(response.status_line(), "200 OK");
    let response =
        ResponseBuilder::new().set_status_line(" \t HTTP/1.1 \u{3000}302\u{a0}Found").build().unwrap();
    assert_eq!(response.status_code(), 302);
    assert_eq!(response.reason_phrase(), "Found");
}

#[test]
fn missing_reason_is_malformed() {
    let result = ResponseBuilder::new().set_status_line("HTTP/1.1 204 ").build();
    assert_eq!(result.err(), parse_error("Malformed Status Line: HTTP/1.1 204 "));
}

#[test]
fn missing_status_line() {
    assert_eq!(ResponseBuilder::new().build().err(), parse_error("No Status Line"));
    let builder = ResponseBuilder::new().add_header("A: b").set_body(b"x");
    assert_eq!(builder.build().err(), parse_error("No Status Line"));
}

#[test]
fn fewer_than_three_parts() {
    for line in
        ["", "HTTP/1.1", "HTTP/1.1 200", "HTTP/1.1 200 ", "HTTP/1.1\t200", " ", " \t\r\n", " 200 OK"]
    {
        let result = ResponseBuilder::new().set_status_line(line).build();
        assert_eq!(result.err(), parse_error(&format!("Malformed Status Line: {}", line)));
    }
}

#[test]
fn protocol_must_be_http() {
    for line in
        ["FTP/1.1 200 OK", "http/1.1 200 OK", "HTTP 200 OK", "FTP/1.0\t200\tOK", "XHTTP/1.1 200 OK"]
    {
        let result = ResponseBuilder::new().set_status_line(line).build();
        assert_eq!(
            result.err(),
            parse_error(&format!("Unknown Protocol in Status Line: {}", line))
        );
    }
    let response = ResponseBuilder::new().set_status_line("HTTP/ 1 x").build().unwrap();
    assert_eq!(response.status_code(), 1);
}

#[test]
fn status_code_must_be_a_number() {
    for line in [
        "HTTP/1.1 abc OK",
        "HTTP/1.1 -1 OK",
        "HTTP/1.1\tabc\tOK",
        "HTTP/1.1 2x0 OK",
        "HTTP/1.1 + OK",
        "HTTP/1.1 ++1 OK",
        "HTTP/1.1 99999999999999999999999999 OK",
        "HTTP/1.1 \u{661}\u{662} OK",
    ] {
        let result = ResponseBuilder::new().set_status_line(line).build();
        assert_eq!(result.err(), parse_error(&format!("Malformed status code: {}", line)));
    }
}

#[test]
fn protocol_is_checked_before_the_code() {
    let result = ResponseBuilder::new().set_status_line("SPDY/3 abc OK").build();
    assert_eq!(result.err(), parse_error("Unknown Protocol in Status Line: SPDY/3 abc OK"));
}

#[test]
fn status_code_forms() {
    let response = ResponseBuilder::new().set_status_line("HTTP/1.1 +200 OK").build().unwrap();
    assert_eq!(response.status_code(), 200);
    assert_eq!(response.status_line(), "+200 OK");
    let response = ResponseBuilder::new().set_status_line("HTTP/1.1 007 Bond").build().unwrap();
    assert_eq!(response.status_code(), 7);
    let response = ResponseBuilder::new().set_status_line("HTTP/1.1 0 Z").build().unwrap();
    assert_eq!(response.status_code(), 0);
    let line = format!("HTTP/1.1 {} Max", usize::MAX);
    let response = ResponseBuilder::new().set_status_line(&line).build().unwrap();
    assert_eq!(response.status_code(), usize::MAX);
    let line = format!("HTTP/1.1 {}0 Over", usize::MAX);
    assert!(ResponseBuilder::new().set_status_line(&line).build().is_err());
}

#[test]
fn last_status_line_wins() {
    let response = ResponseBuilder::new()
        .set_status_line("garbage")
        .set_status_line("HTTP/1.1 301 Moved Permanently")
        .build()
        .unwrap();
    assert_eq!(response.status_code(), 301);
    assert_eq!(response.reason_phrase(), "Moved Permanently");
}

#[test]
fn headers_and_body_are_carried_through() {
    let builder = ResponseBuilder::new()
        .set_status_line("HTTP/1.1 200 OK")
        .add_header("Content-Type: text/plain")
        .add_header("Content-Length: 5")
        .add_header("Content-Type: text/plain")
        .set_body(b"hello");
    let response = builder.build().unwrap();
    assert_eq!(
        response.headers(),
        vec!["Content-Type: text/plain", "Content-Length: 5", "Content-Type: text/plain"]
    );
    assert_eq!(response.body(), Some(&b"hello"[..]));
    assert_eq!(response.body_as_string(), Ok("hello".to_string()));
    let again = builder.build().unwrap();
    assert_eq!(again.headers(), response.headers());
    assert_eq!(again.status_line(), response.status_line());
}

#[test]
fn response_body_must_be_utf8_to_be_text() {
    let response = ResponseBuilder::new()
        .set_status_line("HTTP/1.1 200 OK")
        .set_body(&[b'a', 0xff, b'b'])
        .build()
        .unwrap();
    assert_eq!(response.body(), Some(&[b'a', 0xff, b'b'][..]));
    match response.body_as_string() {
        Err(CabotError::EncodingError(detail)) => {
            assert!(detail.starts_with("Cannot decode utf8: "));
            assert!(detail.len() > "Cannot decode utf8: ".len());
        }
        other => panic!("unexpected {:?}", other),
    }
    let response = ResponseBuilder::new()
        .set_status_line("HTTP/1.1 200 OK")
        .set_body("\u{20ac}".as_bytes())
        .build()
        .unwrap();
    assert_eq!(response.body_as_string(), Ok("\u{20ac}".to_string()));
    let response =
        ResponseBuilder::new().set_status_line("HTTP/1.1 200 OK").set_body(&[]).build().unwrap();
    assert_eq!(response.body(), Some(&[][..]));
    assert_eq!(response.body_as_string(), Ok(String::new()));
}

#[test]
fn status_line_with_wide_characters() {
    let response =
        ResponseBuilder::new().set_status_line("HTTP/1.1 200 d\u{e9}j\u{e0} vu").build().unwrap();
    assert_eq!(response.reason_phrase(), "d\u{e9}j\u{e0} vu");
    let line = "HTTP/\u{4e2d} 2\u{4e2d}0 x";
    let result = ResponseBuilder::new().set_status_line(line).build();
    assert_eq!(result.err(), parse_error(&format!("Malformed status code: {}", line)));
}
