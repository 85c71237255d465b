use rust_web_cgi::http_server::request::cgi_request::cgi_handler::{
    get_header_or_empty_string, CgiAction, CgiEvent, CgiRequestHandler,
};
use rust_web_cgi::http_server::request::cgi_request::cgi_metavariables::{
    CGIMetavariable, CGIMetavariableMap,
};
use rust_web_cgi::http_server::request::cgi_request::cgi_response::{
    client_redirect, convert_cgi_response_to_http, document_response, finish_local_redirect,
    local_redirect, parse_cgi_headers, parse_cgi_response, CGIResponseHeader,
    CGIResponseHeaderMap, CGIScriptResponse, Conversion,
};
use rust_web_cgi::http_server::request::static_request::static_handler::StaticRequestHandler;
use rust_web_cgi::message::{HeaderMap, HttpRequest, HttpResponse, HttpVersion, StatusCode};

fn server_error() -> HttpResponse {
    HttpResponse::new(StatusCode::internal_server_error())
}

fn headers_of(pairs: &[(CGIResponseHeader, &str)]) -> CGIResponseHeaderMap {
    let mut headers = CGIResponseHeaderMap::new();
    for (key, value) in pairs {
        headers.insert(*key, String::from(*value));
    }
    headers
}

fn converted(output: &str) -> Conversion {
    convert_cgi_response_to_http(parse_cgi_response(String::from(output)).unwrap())
}

fn get(target: &str) -> HttpRequest {
    HttpRequest::new("GET", target, HttpVersion::Http11, &HeaderMap::new(), String::new()).unwrap()
}

fn gateway() -> CgiRequestHandler {
    CgiRequestHandler::new(
        String::from("cgi-bin"),
        String::from("scripts"),
        StaticRequestHandler::new(String::from("public_html")),
    )
}

fn request_with(headers: &[(&str, &str)], target: &str, body: &str) -> HttpRequest {
    let mut map = HeaderMap::new();
    for (name, value) in headers {
        map.append(String::from(*name), String::from(*value));
    }
    HttpRequest::new("POST", target, HttpVersion::Http11, &map, String::from(body)).unwrap()
}

fn value(map: &CGIMetavariableMap, key: CGIMetavariable) -> Option<&str> {
    map.get(key).map(|v| v.as_str())
}

#[test]
fn header_names_are_read_in_any_case() {
    assert_eq!(CGIResponseHeader::from_str("Content-Type"), Ok(CGIResponseHeader::ContentType));
    assert_eq!(CGIResponseHeader::from_str("content-type"), Ok(CGIResponseHeader::ContentType));
    assert_eq!(CGIResponseHeader::from_str("CONTENT-TYPE"), Ok(CGIResponseHeader::ContentType));
    assert_eq!(CGIResponseHeader::from_str("lOcAtIoN"), Ok(CGIResponseHeader::Location));
    assert_eq!(CGIResponseHeader::from_str("Status"), Ok(CGIResponseHeader::Status));
    assert_eq!(CGIResponseHeader::from_str("Content_Type"), Err(()));
    assert_eq!(CGIResponseHeader::from_str("ContentType"), Err(()));
    assert_eq!(CGIResponseHeader::from_str("Status "), Err(()));
    assert_eq!(CGIResponseHeader::from_str(""), Err(()));
    assert_eq!(CGIResponseHeader::from_str("X-Powered-By"), Err(()));
}

#[test]
fn a_header_map_holds_one_value_for_each_header() {
    let mut headers = CGIResponseHeaderMap::new();
    assert!(!headers.contains_key(CGIResponseHeader::Status));
    assert_eq!(headers.get(CGIResponseHeader::Status), None);
    headers.insert(CGIResponseHeader::Status, String::from("200"));
    headers.insert(CGIResponseHeader::Status, String::from("404"));
    assert!(headers.contains_key(CGIResponseHeader::Status));
    assert_eq!(headers.get(CGIResponseHeader::Status).map(|v| v.as_str()), Some("404"));
    assert!(!headers.contains_key(CGIResponseHeader::Location));
    assert!(!headers.contains_key(CGIResponseHeader::ContentType));
}

#[test]
fn unknown_headers_are_dropped() {
    let response =
        parse_cgi_response(String::from("X-Other: 1\nContent-Type: a/b\nServer: me\n\nbody"))
            .unwrap();
    let expected = CGIScriptResponse::new(
        headers_of(&[(CGIResponseHeader::ContentType, "a/b")]),
        String::from("body"),
    );
    assert_eq!(response, expected);
}

#[test]
fn header_values_are_trimmed_and_the_last_of_a_kind_counts() {
    let response = parse_cgi_response(String::from(
        "status:  200 \r\nSTATUS:\t404\t\r\nLocation:\r\ncontent-type:text/plain; a=b:c\r\n\r\n",
    ))
    .unwrap();
    assert_eq!(response.headers().get(CGIResponseHeader::Status).map(|v| v.as_str()), Some("404"));
    assert_eq!(response.headers().get(CGIResponseHeader::Location).map(|v| v.as_str()), Some(""));
    assert_eq!(
        response.headers().get(CGIResponseHeader::ContentType).map(|v| v.as_str()),
        Some("text/plain; a=b:c")
    );
    assert_eq!(response.body(), "");
}

#[test]
fn the_body_of_a_script_is_the_remaining_lines_without_their_endings() {
    let response =
        parse_cgi_response(String::from("Content-Type: t/p\n\nline one\nline two\r\n\nend"))
            .unwrap();
    assert_eq!(response.body(), "line oneline twoend");
}

#[test]
fn output_without_an_empty_line_is_refused() {
    assert_eq!(parse_cgi_response(String::from("")), Err(()));
    assert_eq!(parse_cgi_response(String::from("Content-Type: text/html")), Err(()));
    assert_eq!(parse_cgi_response(String::from("Content-Type: text/html\nStatus: 200\n")), Err(()));
}

#[test]
fn a_header_line_without_a_colon_is_refused() {
    assert_eq!(parse_cgi_response(String::from("Content-Type text/html\n\nbody")), Err(()));
    assert_eq!(parse_cgi_response(String::from("Status: 200\n<html>\n\nbody")), Err(()));
}

#[test]
fn output_that_begins_with_an_empty_line_has_no_headers() {
    let response = parse_cgi_response(String::from("\nbody: not a header\n")).unwrap();
    assert_eq!(response, CGIScriptResponse::new(CGIResponseHeaderMap::new(), String::from("body: not a header")));
}

#[test]
fn the_headers_end_where_the_body_begins() {
    let text: Vec<char> = "Status: 201\nX: y\n\nbody\nmore".chars().collect();
    let lines: Vec<&[char]> = vec![&text[0..11], &text[12..16], &text[17..17], &text[17..21]];
    let (headers, body_at) = parse_cgi_headers(&lines).unwrap();
    assert_eq!(headers, headers_of(&[(CGIResponseHeader::Status, "201")]));
    assert_eq!(body_at, 3);
    let no_end: Vec<&[char]> = vec![&text[0..11], &text[12..16]];
    assert_eq!(parse_cgi_headers(&no_end), Err(()));
    let none: Vec<&[char]> = vec![];
    assert_eq!(parse_cgi_headers(&none), Err(()));
}

#[test]
fn a_document_becomes_a_response_with_its_content_type() {
    let expected = HttpResponse::new(StatusCode::ok())
        .with_header("content-type", "text/html")
        .unwrap()
        .with_body(String::from("Hello!"));
    assert_eq!(converted("Content-Type: text/html\n\nHello!"), Conversion::Response(expected));
}

#[test]
fn a_document_takes_its_status_from_the_status_header() {
    let expected = HttpResponse::new(StatusCode::not_found())
        .with_header("content-type", "text/plain")
        .unwrap()
        .with_body(String::from("no such thing"));
    assert_eq!(
        converted("Status: 404\nContent-Type: text/plain\n\nno such thing"),
        Conversion::Response(expected)
    );
}

#[test]
fn a_document_without_a_content_type_is_a_server_error() {
    assert_eq!(converted("\nHello!"), Conversion::Response(server_error()));
    assert_eq!(converted("Status: 200\n\nHello!"), Conversion::Response(server_error()));
}

#[test]
fn a_status_that_is_no_status_code_is_a_server_error() {
    for status in ["404 Not Found", "abc", "", "99", "099", "1000", "2 0", "20x", "\u{663}00"] {
        let headers = headers_of(&[
            (CGIResponseHeader::Status, status),
            (CGIResponseHeader::ContentType, "text/plain"),
        ]);
        assert_eq!(document_response(&headers, String::from("b")), server_error(), "{:?}", status);
    }
}

#[test]
fn every_status_code_is_read_from_its_three_digits() {
    for code in [100u16, 199, 200, 302, 404, 500, 599, 600, 999] {
        let headers = headers_of(&[
            (CGIResponseHeader::Status, &code.to_string()),
            (CGIResponseHeader::ContentType, "text/plain"),
        ]);
        let response = document_response(&headers, String::new());
        assert_eq!(response.status().as_u16(), code);
    }
}

#[test]
fn a_content_type_that_is_no_header_value_is_a_server_error() {
    let headers = headers_of(&[(CGIResponseHeader::ContentType, "text/\u{1}plain")]);
    assert_eq!(document_response(&headers, String::from("b")), server_error());
}

#[test]
fn a_location_elsewhere_sends_the_client_there() {
    let expected = HttpResponse::new(StatusCode::found())
        .with_header("location", "https://example.com")
        .unwrap();
    assert_eq!(
        converted("Location: https://example.com\n\nignored body"),
        Conversion::Response(expected.clone())
    );
    assert_eq!(client_redirect("https://example.com"), expected);
    assert_eq!(expected.status().as_u16(), 302);
    assert_eq!(expected.header("Location").map(|v| v.as_str()), Some("https://example.com"));
    assert_eq!(expected.body(), "");
}

#[test]
fn a_location_takes_precedence_over_a_document() {
    let expected = HttpResponse::new(StatusCode::found())
        .with_header("location", "other.html")
        .unwrap();
    assert_eq!(
        converted("Content-Type: text/html\nStatus: 200\nLocation: other.html\n\n<p>"),
        Conversion::Response(expected)
    );
}

#[test]
fn a_location_that_is_no_header_value_is_a_server_error() {
    assert_eq!(client_redirect("http://a\u{7f}b"), server_error());
}

#[test]
fn a_location_on_this_server_is_answered_by_the_static_handler() {
    let expected = get("/other");
    assert_eq!(converted("Location: /other\n\n"), Conversion::LocalRedirect(expected.clone()));
    assert_eq!(local_redirect("/other?x=1"), Conversion::LocalRedirect(get("/other?x=1")));
    assert_eq!(expected.method(), "GET");
    assert_eq!(expected.path(), "/other");
    assert_eq!(expected.version(), HttpVersion::Http11);
    assert_eq!(expected.headers().len(), 0);
    assert_eq!(expected.body(), "");
}

#[test]
fn a_local_location_that_is_no_target_is_a_server_error() {
    assert_eq!(local_redirect("/a b"), Conversion::Response(server_error()));
    assert_eq!(converted("Location: /a b\n\n"), Conversion::Response(server_error()));
}

#[test]
fn a_local_redirect_ends_with_what_the_static_handler_answered() {
    let page = HttpResponse::new(StatusCode::ok()).with_body(String::from("page"));
    assert_eq!(finish_local_redirect(Some(page.clone())), page);
    assert_eq!(finish_local_redirect(None), server_error());
}

#[test]
fn metavariables_have_their_names() {
    let names = [
        "AUTH_TYPE", "CONTENT_LENGTH", "CONTENT_TYPE", "GATEWAY_INTERFACE", "PATH_INFO",
        "PATH_TRANSLATED", "QUERY_STRING", "REMOTE_ADDR", "REMOTE_HOST", "REMOTE_IDENT",
        "REMOTE_USER", "REQUEST_METHOD", "SCRIPT_NAME", "SERVER_NAME", "SERVER_PORT",
        "SERVER_PROTOCOL", "SERVER_SOFTWARE",
    ];
    for (i, name) in names.iter().enumerate() {
        let key = CGIMetavariable::from_index(i);
        assert_eq!(key.as_str(), *name);
        assert_eq!(key.index(), i);
    }
    assert_eq!(CGIMetavariable::ServerSoftware.index(), 16);
}

#[test]
fn a_metavariable_map_holds_one_value_for_each_variable() {
    let mut map = CGIMetavariableMap::new();
    assert_eq!(map.variables(), vec![]);
    assert_eq!(map.get(CGIMetavariable::ServerPort), None);
    map.insert(CGIMetavariable::ServerPort, String::from("80"));
    map.insert(CGIMetavariable::AuthType, String::from(""));
    map.insert(CGIMetavariable::ServerPort, String::from("8080"));
    assert_eq!(value(&map, CGIMetavariable::ServerPort), Some("8080"));
    assert_eq!(value(&map, CGIMetavariable::AuthType), Some(""));
    assert_eq!(map.get(CGIMetavariable::RemoteUser), None);
    assert_eq!(
        map.variables(),
        vec![
            (String::from("AUTH_TYPE"), String::from("")),
            (String::from("SERVER_PORT"), String::from("8080")),
        ]
    );
    let mut other = CGIMetavariableMap::new();
    other.insert(CGIMetavariable::AuthType, String::from(""));
    other.insert(CGIMetavariable::ServerPort, String::from("8080"));
    assert_eq!(map, other);
    assert_eq!(map.clone(), map);
}

#[test]
fn the_metavariables_of_a_full_request() {
    let request = request_with(
        &[
            ("Authorization", "Basic dXNlcjpwYXNz more"),
            ("Content-Type", "application/json"),
            ("Host", "example.com:8080"),
        ],
        "/cgi-bin/run.sh?a=1&b=2",
        "{\"k\":\"\u{e9}\"}",
    );
    let map = gateway().generate_environment_variables("192.0.2.1", &request);
    let expected = vec![
        ("AUTH_TYPE", "Basic"),
        ("CONTENT_LENGTH", "10"),
        ("CONTENT_TYPE", "application/json"),
        ("GATEWAY_INTERFACE", "CGI/1.1"),
        ("PATH_INFO", ""),
        ("PATH_TRANSLATED", ""),
        ("QUERY_STRING", "a=1&b=2"),
        ("REMOTE_ADDR", "192.0.2.1"),
        ("REMOTE_HOST", "192.0.2.1"),
        ("REMOTE_IDENT", ""),
        ("REMOTE_USER", "dXNlcjpwYXNz more"),
        ("REQUEST_METHOD", "POST"),
        ("SCRIPT_NAME", "/cgi-bin/run.sh"),
        ("SERVER_NAME", "example.com"),
        ("SERVER_PORT", "8080"),
        ("SERVER_PROTOCOL", "HTTP/1.0"),
        ("SERVER_SOFTWARE", "Rust Web CGI/0.0.1"),
    ];
    let expected: Vec<(String, String)> =
        expected.into_iter().map(|(k, v)| (String::from(k), String::from(v))).collect();
    assert_eq!(map.variables(), expected);
}

#[test]
fn the_metavariables_of_a_bare_request() {
    let map = gateway().generate_environment_variables("", &get("/cgi-bin/run.sh"));
    assert_eq!(value(&map, CGIMetavariable::AuthType), Some(""));
    assert_eq!(map.get(CGIMetavariable::RemoteUser), None);
    assert_eq!(value(&map, CGIMetavariable::ContentLength), Some(""));
    assert_eq!(value(&map, CGIMetavariable::ContentType), Some("application/octet-stream"));
    assert_eq!(value(&map, CGIMetavariable::QueryString), Some(""));
    assert_eq!(value(&map, CGIMetavariable::RemoteAddr), Some(""));
    assert_eq!(value(&map, CGIMetavariable::RemoteHost), Some(""));
    assert_eq!(value(&map, CGIMetavariable::RequestMethod), Some("GET"));
    assert_eq!(value(&map, CGIMetavariable::ServerName), Some(""));
    assert_eq!(value(&map, CGIMetavariable::ServerPort), Some("80"));
    assert_eq!(map.variables().len(), 16);
}

#[test]
fn the_host_is_split_at_its_last_colon() {
    let cases = [
        ("example.com", "example.com", "80"),
        ("example.com:8080", "example.com", "8080"),
        ("[::1]:8080", "[::1]", "8080"),
        ("a:b:c", "a:b", "c"),
        ("example.com:", "example.com", ""),
        (":81", "", "81"),
    ];
    for (host, name, port) in cases {
        let request = request_with(&[("host", host)], "/", "");
        let map = gateway().generate_environment_variables("", &request);
        assert_eq!(value(&map, CGIMetavariable::ServerName), Some(name), "name of {}", host);
        assert_eq!(value(&map, CGIMetavariable::ServerPort), Some(port), "port of {}", host);
    }
}

#[test]
fn the_authorization_is_split_at_its_first_space() {
    let request = request_with(&[("authorization", "Bearer")], "/", "");
    let map = gateway().generate_environment_variables("", &request);
    assert_eq!(value(&map, CGIMetavariable::AuthType), Some(""));
    assert_eq!(map.get(CGIMetavariable::RemoteUser), None);
    let request = request_with(&[("authorization", " Basic abc")], "/", "");
    let map = gateway().generate_environment_variables("", &request);
    assert_eq!(value(&map, CGIMetavariable::AuthType), Some(""));
    assert_eq!(value(&map, CGIMetavariable::RemoteUser), Some("Basic abc"));
}

#[test]
fn a_header_that_is_no_text_counts_as_empty() {
    let request = request_with(&[("content-type", "text/caf\u{e9}"), ("host", "a\u{1}:1")], "/", "");
    assert_eq!(get_header_or_empty_string(&request, "content-type"), "");
    assert_eq!(get_header_or_empty_string(&request, "host"), "");
    assert_eq!(get_header_or_empty_string(&request, "accept"), "");
    let map = gateway().generate_environment_variables("", &request);
    assert_eq!(value(&map, CGIMetavariable::ContentType), Some("application/octet-stream"));
    assert_eq!(value(&map, CGIMetavariable::ServerName), Some(""));
    assert_eq!(value(&map, CGIMetavariable::ServerPort), Some("80"));
}

#[test]
fn the_gateway_keeps_its_parts() {
    assert_eq!(gateway().cgi_folder(), "scripts");
    assert_eq!(gateway().static_handler().static_folder(), "public_html");
}

#[test]
fn a_request_outside_the_mount_path_is_declined() {
    for target in ["/", "/index.html", "/cgi/run.sh", "/other/cgi-bin/run.sh", "/cgi-bi", "*"] {
        let request = get(target);
        assert_eq!(gateway().handle_request("", &request, CgiEvent::Received), CgiAction::Decline);
        assert_eq!(
            gateway().handle_request("", &request, CgiEvent::Ran { output: None }),
            CgiAction::Decline
        );
    }
}

#[test]
fn a_request_under_the_mount_path_names_its_script() {
    let cases = [
        ("/cgi-bin/run.sh", "run.sh"),
        ("/cgi-bin/dir/run.sh?x=1", "dir/run.sh"),
        ("/cgi-bin", ""),
        ("/cgi-bin/", ""),
        ("/cgi-binary", "ary"),
        ("/cgi-bin//etc/passwd", "/etc/passwd"),
        ("/cgi-bin/../secret", "../secret"),
    ];
    for (target, script) in cases {
        let action = gateway().handle_request("", &get(target), CgiEvent::Received);
        assert_eq!(action, CgiAction::Resolve { path: String::from(script) }, "for {}", target);
    }
}

#[test]
fn a_script_outside_the_folder_is_not_found() {
    let request = get("/cgi-bin/../secret");
    let not_found = CgiAction::Respond(HttpResponse::new(StatusCode::not_found()));
    let event =
        CgiEvent::Resolved { root: String::from("/srv/scripts"), target: Some(String::from("/srv/secret")) };
    assert_eq!(gateway().handle_request("", &request, event), not_found);
    let event = CgiEvent::Resolved { root: String::from("/srv/scripts"), target: None };
    assert_eq!(gateway().handle_request("", &request, event), not_found);
}

#[test]
fn a_script_under_the_folder_is_run_with_the_request() {
    let request = request_with(&[("host", "h")], "/cgi-bin/run.sh?q", "input text");
    let event = CgiEvent::Resolved {
        root: String::from("/srv/scripts"),
        target: Some(String::from("/srv/scripts/run.sh")),
    };
    let expected = CgiAction::Run {
        script: String::from("/srv/scripts/run.sh"),
        input: String::from("input text"),
        variables: gateway().generate_environment_variables("198.51.100.9", &request),
    };
    assert_eq!(gateway().handle_request("198.51.100.9", &request, event), expected);
}

#[test]
fn a_script_that_did_not_run_is_a_server_error() {
    let request = get("/cgi-bin/run.sh");
    let action = gateway().handle_request("", &request, CgiEvent::Ran { output: None });
    assert_eq!(action, CgiAction::Respond(server_error()));
    assert_eq!(gateway().run_cgi_script(None), CgiAction::Respond(server_error()));
}

#[test]
fn output_that_is_no_response_is_a_server_error() {
    let output = Some(String::from("<html>no headers</html>"));
    assert_eq!(gateway().run_cgi_script(output), CgiAction::Respond(server_error()));
}

#[test]
fn the_output_of_a_script_becomes_the_response() {
    let request = get("/cgi-bin/run.sh");
    let output = Some(String::from("Content-Type: text/html\n\nHello!"));
    let expected = HttpResponse::new(StatusCode::ok())
        .with_header("content-type", "text/html")
        .unwrap()
        .with_body(String::from("Hello!"));
    let action = gateway().handle_request("", &request, CgiEvent::Ran { output });
    assert_eq!(action, CgiAction::Respond(expected));
}

#[test]
fn a_local_redirect_goes_to_the_static_handler_and_back() {
    let request = get("/cgi-bin/run.sh");
    let output = Some(String::from("Location: /other\n\n"));
    let action = gateway().handle_request("", &request, CgiEvent::Ran { output });
    assert_eq!(action, CgiAction::Serve(get("/other")));
    let page = HttpResponse::new(StatusCode::ok()).with_body(String::from("other page"));
    let action =
        gateway().handle_request("", &request, CgiEvent::Served { answer: Some(page.clone()) });
    assert_eq!(action, CgiAction::Respond(page));
    let action = gateway().handle_request("", &request, CgiEvent::Served { answer: None });
    assert_eq!(action, CgiAction::Respond(server_error()));
}
