//! A small HTTP server core: request parsing, an ordered chain of request
//! handlers, the CGI gateway protocol and response serialization.

pub mod bridge;
pub mod http_server;
pub mod message;
pub mod text;
