use rust_web_cgi::http_server::request::cgi_request::cgi_response::{
    parse_cgi_response, CGIResponseHeader, CGIResponseHeaderMap, CGIScriptResponse,
};

#[test]
fn cgi_response_is_properly_parsed() {
    let mock_cgi_output = String::from("\
            Content-Type: text/html\n\n\
            Hello!\
        ");
    let result = parse_cgi_response(mock_cgi_output);

    let cgi_response = result.unwrap();

    let mut expected_headers = CGIResponseHeaderMap::new();
    expected_headers.insert(CGIResponseHeader::ContentType, String::from("text/html"));

    let expected = CGIScriptResponse::new(
        expected_headers,
        String::from("Hello!")
    );

    assert_eq!(cgi_response, expected);
}
