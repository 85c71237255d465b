use rust_web_cgi::http_server::connection::{finish_response, ConnectionHandler};
use rust_web_cgi::http_server::request::request::RequestHandler;
use rust_web_cgi::message::{HeaderMap, HttpRequest, HttpResponse, HttpVersion, StatusCode};
use std::sync::atomic::{AtomicUsize, Ordering};
use std::sync::Arc;

struct Declines {
    calls: Arc<AtomicUsize>,
}

impl RequestHandler for Declines {
    fn handle_request(&self, _remote_addr: &str, _request: &HttpRequest) -> Option<HttpResponse> {
        self.calls.fetch_add(1, Ordering::SeqCst);
        None
    }
}

struct Answers {
    calls: Arc<AtomicUsize>,
    response: HttpResponse,
}

impl RequestHandler for Answers {
    fn handle_request(&self, _remote_addr: &str, _request: &HttpRequest) -> Option<HttpResponse> {
        self.calls.fetch_add(1, Ordering::SeqCst);
        Some(self.response.clone())
    }
}

struct Echoes;

impl RequestHandler for Echoes {
    fn handle_request(&self, remote_addr: &str, request: &HttpRequest) -> Option<HttpResponse> {
        let body = format!("{} {} from {}", request.method(), request.path(), remote_addr);
        Some(HttpResponse::new(StatusCode::ok()).with_body(body))
    }
}

fn request(method: &str) -> HttpRequest {
    HttpRequest::new(method, "/thing", HttpVersion::Http11, &HeaderMap::new(), String::new())
        .unwrap()
}

fn page() -> HttpResponse {
    HttpResponse::new(StatusCode::ok())
        .with_header("content-length", "5")
        .unwrap()
        .with_header("x-made-by", "b")
        .unwrap()
        .with_body(String::from("hello"))
}

fn counter() -> Arc<AtomicUsize> {
    Arc::new(AtomicUsize::new(0))
}

#[test]
fn the_first_handler_that_answers_wins() {
    let (a, b, c) = (counter(), counter(), counter());
    let other = HttpResponse::new(StatusCode::not_found());
    let chain = ConnectionHandler::new(vec![
        Box::new(Declines { calls: a.clone() }),
        Box::new(Answers { calls: b.clone(), response: page() }),
        Box::new(Answers { calls: c.clone(), response: other }),
    ]);
    let response = chain.handle_request(request("GET"), "10.0.0.1");
    assert_eq!(response, page());
    assert_eq!(a.load(Ordering::SeqCst), 1);
    assert_eq!(b.load(Ordering::SeqCst), 1);
    assert_eq!(c.load(Ordering::SeqCst), 0);
}

#[test]
fn a_chain_in_which_all_decline_answers_500() {
    let (a, b) = (counter(), counter());
    let chain = ConnectionHandler::new(vec![
        Box::new(Declines { calls: a.clone() }),
        Box::new(Declines { calls: b.clone() }),
    ]);
    let response = chain.handle_request(request("GET"), "");
    assert_eq!(response, HttpResponse::new(StatusCode::internal_server_error()));
    assert_eq!(a.load(Ordering::SeqCst), 1);
    assert_eq!(b.load(Ordering::SeqCst), 1);
}

#[test]
fn an_empty_chain_answers_500() {
    let chain = ConnectionHandler::new(vec![]);
    let response = chain.handle_request(request("POST"), "");
    assert_eq!(response.status(), StatusCode::internal_server_error());
    assert_eq!(response.headers().len(), 0);
    assert_eq!(response.body(), "");
}

#[test]
fn head_keeps_the_headers_and_drops_the_body() {
    let chain = ConnectionHandler::new(vec![
        Box::new(Declines { calls: counter() }),
        Box::new(Answers { calls: counter(), response: page() }),
    ]);
    let for_get = chain.handle_request(request("GET"), "");
    let for_head = chain.handle_request(request("HEAD"), "");
    assert_eq!(for_get.body(), "hello");
    assert_eq!(for_head.body(), "");
    assert_eq!(for_head.status(), for_get.status());
    assert_eq!(for_head.headers(), for_get.headers());
    assert_eq!(for_head.header("content-length").map(|v| v.as_str()), Some("5"));
}

#[test]
fn only_the_method_head_drops_the_body() {
    let chain =
        ConnectionHandler::new(vec![Box::new(Answers { calls: counter(), response: page() })]);
    assert_eq!(chain.handle_request(request("head"), "").body(), "hello");
    assert_eq!(chain.handle_request(request("HEADER"), "").body(), "hello");
    assert_eq!(chain.handle_request(request("POST"), "").body(), "hello");
}

#[test]
fn a_found_response_is_finished_for_its_method() {
    assert_eq!(finish_response(&request("GET"), Some(page())), page());
    assert_eq!(finish_response(&request("HEAD"), Some(page())), page().with_body(String::new()));
    assert_eq!(
        finish_response(&request("GET"), None),
        HttpResponse::new(StatusCode::internal_server_error())
    );
    assert_eq!(
        finish_response(&request("HEAD"), None),
        HttpResponse::new(StatusCode::internal_server_error())
    );
}

#[test]
fn the_handlers_get_the_request_and_the_address() {
    let chain = ConnectionHandler::new(vec![Box::new(Echoes)]);
    let response = chain.handle_request(request("DELETE"), "192.0.2.7");
    assert_eq!(response.body(), "DELETE /thing from 192.0.2.7");
}

#[test]
fn a_connection_is_answered_with_the_text_of_the_response() {
    let chain = ConnectionHandler::new(vec![Box::new(Echoes)]);
    let reply = chain.handle_connection(Some(b"GET /a?b HTTP/1.0\r\nH: v\r\n\r\n"), "::1");
    assert_eq!(reply, Some(String::from("HTTP/1.1 200 OK\r\n\r\nGET /a from ::1")));
    let reply = chain.handle_connection(Some(b"HEAD /a HTTP/1.1\r\n\r\n"), "::1");
    assert_eq!(reply, Some(String::from("HTTP/1.1 200 OK\r\n\r\n")));
}

#[test]
fn a_connection_that_states_no_request_is_refused() {
    let chain = ConnectionHandler::new(vec![Box::new(Echoes)]);
    let reply = chain.handle_connection(Some(b"nonsense\r\n\r\n"), "");
    assert_eq!(reply, Some(String::from("HTTP/1.1 400 Bad Request\r\n\r\n")));
    let reply = chain.handle_connection(Some(&[b'x'; 9000]), "");
    assert_eq!(reply, Some(String::from("HTTP/1.1 413 Payload Too Large\r\n\r\n")));
    let reply = chain.handle_connection(None, "");
    assert_eq!(reply, Some(String::from("HTTP/1.1 500 Internal Server Error\r\n\r\n")));
}

#[test]
fn a_response_that_cannot_be_written_out_gives_no_text() {
    let odd = HttpResponse::new(StatusCode::ok()).with_header("x", "\u{e9}").unwrap();
    let chain = ConnectionHandler::new(vec![Box::new(Answers { calls: counter(), response: odd })]);
    assert_eq!(chain.handle_connection(Some(b"GET / HTTP/1.1\r\n\r\n"), ""), None);
}
