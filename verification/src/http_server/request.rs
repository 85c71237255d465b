//! Requests and the handlers that answer them.

pub mod cgi_request;
pub mod request;
pub mod static_request;
