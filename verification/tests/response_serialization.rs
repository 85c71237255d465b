use rust_web_cgi::http_server::response::{
    generate_error_response, read_response_head, response_to_string, serialize,
};
use rust_web_cgi::message::{HttpResponse, StatusCode};

fn status(code: u16) -> StatusCode {
    StatusCode::from_u16(code).unwrap()
}

#[test]
fn an_error_response_is_empty() {
    let response = generate_error_response(StatusCode::not_found());
    assert_eq!(response.status(), StatusCode::not_found());
    assert_eq!(response.headers().len(), 0);
    assert_eq!(response.body(), "");
}

#[test]
fn an_empty_response_is_a_status_line_and_an_empty_line() {
    let text = response_to_string(generate_error_response(StatusCode::not_found()));
    assert_eq!(text, "HTTP/1.1 404 Not Found\r\n\r\n");
    let text = response_to_string(generate_error_response(StatusCode::internal_server_error()));
    assert_eq!(text, "HTTP/1.1 500 Internal Server Error\r\n\r\n");
    let text = response_to_string(generate_error_response(StatusCode::payload_too_large()));
    assert_eq!(text, "HTTP/1.1 413 Payload Too Large\r\n\r\n");
}

#[test]
fn a_status_without_a_phrase_has_an_empty_reason() {
    let text = response_to_string(generate_error_response(status(299)));
    assert_eq!(text, "HTTP/1.1 299 \r\n\r\n");
    let text = response_to_string(generate_error_response(status(999)));
    assert_eq!(text, "HTTP/1.1 999 \r\n\r\n");
}

#[test]
fn headers_go_out_in_their_stored_order_and_the_body_as_it_is() {
    let response = HttpResponse::new(StatusCode::ok())
        .with_header("Content-Type", "text/html; charset=utf-8")
        .unwrap()
        .with_header("x-b", "")
        .unwrap()
        .with_header("a", " spaced\t")
        .unwrap()
        .with_body(String::from("line one\nline two\r\n\u{e9}"));
    let text = response_to_string(response);
    assert_eq!(
        text,
        "HTTP/1.1 200 OK\r\ncontent-type: text/html; charset=utf-8\r\nx-b: \r\na:  spaced\t\r\n\r\nline one\nline two\r\n\u{e9}"
    );
}

#[test]
fn no_content_length_is_added() {
    let response = HttpResponse::new(StatusCode::ok()).with_body(String::from("12345"));
    assert_eq!(response_to_string(response), "HTTP/1.1 200 OK\r\n\r\n12345");
}

#[test]
fn a_written_response_is_read_back() {
    let response = HttpResponse::new(status(302))
        .with_header("location", "https://example.com/a?b=c")
        .unwrap()
        .with_header("x-colon", "a: b: c")
        .unwrap()
        .with_header("x-empty", "")
        .unwrap()
        .with_header("x-cr", " padded ")
        .unwrap()
        .with_body(String::from("ignored: body\r\n\r\nmore"));
    let expected_headers = response.headers().clone();
    let text = response_to_string(response);
    let (read_status, read_headers) = read_response_head(&text).unwrap();
    assert_eq!(read_status, status(302));
    assert_eq!(read_headers, expected_headers);
}

#[test]
fn every_status_is_read_back() {
    for code in 100u16..=999 {
        let text = response_to_string(generate_error_response(status(code)));
        let (read_status, read_headers) = read_response_head(&text).unwrap();
        assert_eq!(read_status.as_u16(), code);
        assert_eq!(read_headers.len(), 0);
    }
}

#[test]
fn a_text_that_is_no_response_has_no_head() {
    assert_eq!(read_response_head(""), None);
    assert_eq!(read_response_head("HTTP/1.1 200 OK\r\n"), None);
    assert_eq!(read_response_head("HTTP/1.0 200 OK\r\n\r\n"), None);
    assert_eq!(read_response_head("HTTP/1.1 20 OK\r\n\r\n"), None);
    assert_eq!(read_response_head("HTTP/1.1 099 \r\n\r\n"), None);
    assert_eq!(read_response_head("HTTP/1.1 200\r\n\r\n"), None);
    assert_eq!(read_response_head("HTTP/1.1 200 OK\r\nname:value\r\n\r\n"), None);
    assert_eq!(read_response_head("HTTP/1.1 200 OK\r\nnocolon\r\n\r\n"), None);
}

#[test]
fn a_header_name_must_be_a_token() {
    let response = HttpResponse::new(StatusCode::ok());
    assert_eq!(response.clone().with_header("", "v"), None);
    assert_eq!(response.clone().with_header("a b", "v"), None);
    assert_eq!(response.clone().with_header("a:b", "v"), None);
    assert_eq!(response.clone().with_header("caf\u{e9}", "v"), None);
    assert!(response.clone().with_header("!#$%&'*+-.^_`|~09azAZ", "v").is_some());
    let long = "a".repeat(65535);
    assert!(response.clone().with_header(&long, "v").is_some());
    let too_long = "a".repeat(65536);
    assert_eq!(response.clone().with_header(&too_long, "v"), None);
}

#[test]
fn a_header_value_must_hold_no_control_character() {
    let response = HttpResponse::new(StatusCode::ok());
    assert_eq!(response.clone().with_header("a", "x\ny"), None);
    assert_eq!(response.clone().with_header("a", "x\ry"), None);
    assert_eq!(response.clone().with_header("a", "x\u{7f}"), None);
    assert_eq!(response.clone().with_header("a", "\u{0}"), None);
    assert!(response.clone().with_header("a", "x\ty").is_some());
    assert!(response.clone().with_header("a", "caf\u{e9} \u{4f60}").is_some());
}

#[test]
fn a_header_is_found_by_its_name_in_any_case() {
    let response = HttpResponse::new(StatusCode::ok()).with_header("X-Mixed", "1").unwrap();
    assert_eq!(response.headers().name_at(0), "x-mixed");
    assert_eq!(response.header("x-MIXED").map(|v| v.as_str()), Some("1"));
    assert_eq!(response.header("x-other"), None);
}

#[test]
fn a_value_that_is_no_text_cannot_be_written_out() {
    let response = HttpResponse::new(StatusCode::ok()).with_header("a", "caf\u{e9}").unwrap();
    assert!(!response.is_representable());
    assert_eq!(serialize(response), None);
    let response = HttpResponse::new(StatusCode::ok()).with_header("a", "cafe\t~ ").unwrap();
    assert!(response.is_representable());
    assert_eq!(serialize(response), Some(String::from("HTTP/1.1 200 OK\r\na: cafe\t~ \r\n\r\n")));
}
