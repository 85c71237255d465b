//! The CGI gateway.

pub mod cgi_handler;
pub mod cgi_metavariables;
pub mod cgi_response;
