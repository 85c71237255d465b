//! The handler that answers a request by running a script.
//!
//! The handler neither touches the file system nor starts a process. It says
//! which step is next: resolve a path, run a script, have the static handler
//! answer a request, or answer. Whoever runs it takes the step and comes back
//! with what came of it.

use crate::http_server::request::cgi_request::cgi_metavariables::{
    CGIMetavariable, CGIMetavariableMap,
};
use crate::http_server::request::cgi_request::cgi_response::{
    conversion_of, convert_cgi_response_to_http, finish_local_redirect, parse_cgi_response,
    redirected, script_response_of, Conversion, ConversionView,
};
use crate::http_server::request::request::answer_view;
use crate::http_server::request::static_request::static_handler::{
    is_under, lies_under, without_first, StaticRequestHandler,
};
use crate::http_server::response::{error_response, generate_error_response};
use crate::message::{
    is_text, lookup, value_is_text, HttpRequest, HttpResponse, RequestView, ResponseView,
    StatusCode,
};
use crate::text::{
    cut, cut_last, decimal, push_decimal, split_first, split_last, strip_prefix, to_chars,
    to_string, without_prefix,
};
use vstd::prelude::*;
use vstd::slice::slice_subrange;
use vstd::utf8::encode_utf8;

verus! {

/// The value of the first header `name` of `request`; empty where there is
/// no such header and where its value is not text.
pub open spec fn header_text(request: RequestView, name: Seq<char>) -> Seq<char> {
    match lookup(request.headers, name) {
        Some(value) => if is_text(value) {
            value
        } else {
            Seq::empty()
        },
        None => Seq::empty(),
    }
}

/// Whether a script learns the user of `request`: it does where the
/// `authorization` header holds a space.
pub open spec fn names_user(request: RequestView) -> bool {
    cut(header_text(request, "authorization"@), ' ') is Some
}

/// The value that a script finds in the metavariable `key` for `request`,
/// which came from the address `remote_addr`.
pub open spec fn metavariable(
    key: CGIMetavariable,
    remote_addr: Seq<char>,
    request: RequestView,
) -> Seq<char> {
    let authorization = cut(header_text(request, "authorization"@), ' ');
    let content_type = header_text(request, "content-type"@);
    let host = header_text(request, "host"@);
    let length = encode_utf8(request.body).len();
    match key {
        CGIMetavariable::AuthType => match authorization {
            Some((scheme, _)) => scheme,
            None => Seq::empty(),
        },
        CGIMetavariable::ContentLength => if length > 0 {
            decimal(length)
        } else {
            Seq::empty()
        },
        CGIMetavariable::ContentType => if content_type.len() > 0 {
            content_type
        } else {
            "application/octet-stream"@
        },
        CGIMetavariable::GatewayInterface => "CGI/1.1"@,
        CGIMetavariable::PathInfo => Seq::empty(),
        CGIMetavariable::PathTranslated => Seq::empty(),
        CGIMetavariable::QueryString => match request.query() {
            Some(query) => query,
            None => Seq::empty(),
        },
        CGIMetavariable::RemoteAddr => remote_addr,
        CGIMetavariable::RemoteHost => remote_addr,
        CGIMetavariable::RemoteIdent => Seq::empty(),
        CGIMetavariable::RemoteUser => match authorization {
            Some((_, parameters)) => parameters,
            None => Seq::empty(),
        },
        CGIMetavariable::RequestMethod => request.method,
        CGIMetavariable::ScriptName => request.path(),
        CGIMetavariable::ServerName => match cut_last(host, ':') {
            Some((name, _)) => name,
            None => host,
        },
        CGIMetavariable::ServerPort => match cut_last(host, ':') {
            Some((_, port)) => port,
            None => "80"@,
        },
        CGIMetavariable::ServerProtocol => "HTTP/1.0"@,
        CGIMetavariable::ServerSoftware => "Rust Web CGI/0.0.1"@,
    }
}

/// The metavariables that a script gets for `request`, which came from the
/// address `remote_addr`: every metavariable, but `REMOTE_USER` only where
/// the request names a user.
pub open spec fn environment_of(remote_addr: Seq<char>, request: RequestView) -> Map<
    CGIMetavariable,
    Seq<char>,
> {
    Map::new(
        |key: CGIMetavariable| key != CGIMetavariable::RemoteUser || names_user(request),
        |key: CGIMetavariable| metavariable(key, remote_addr, request),
    )
}

/// The script that a request path asks for, relative to the folder of
/// scripts: the path without its leading slash, without the mount path
/// `cgi_path` and without one slash after it. `None` where the path does not
/// begin with the mount path.
pub open spec fn script_path(cgi_path: Seq<char>, path: Seq<char>) -> Option<Seq<char>> {
    match strip_prefix(without_first(path), cgi_path) {
        Some(rest) => Some(
            match strip_prefix(rest, "/"@) {
                Some(inner) => inner,
                None => rest,
            },
        ),
        None => None,
    }
}

/// Maps the path of a request to the script that it asks for, relative to
/// the folder of scripts, for a gateway mounted at `cgi_path`.
pub fn requested_script(cgi_path: &str, uri_path: &str) -> (r: Option<String>)
    ensures
        crate::bridge::opt_view(r) == script_path(cgi_path@, uri_path@),
{
    let uri_path = to_chars(uri_path);
    let cgi_path = to_chars(cgi_path);
    let slash = to_chars("/");
    let after_slash = if uri_path.len() > 0 {
        proof {
            assert(uri_path@.subrange(1, uri_path@.len() as int) == uri_path@.skip(1));
        }
        slice_subrange(uri_path.as_slice(), 1, uri_path.len())
    } else {
        uri_path.as_slice()
    };
    let file_path = match without_prefix(after_slash, cgi_path.as_slice()) {
        Some(rest) => rest,
        None => {
            return None;
        },
    };
    let file_path = match without_prefix(file_path, slash.as_slice()) {
        Some(inner) => inner,
        None => file_path,
    };
    Some(to_string(file_path))
}

/// What has happened to a request that the gateway answers.
#[derive(Debug, PartialEq, Eq)]
pub enum CgiEvent {
    /// The request has come in; nothing was done yet.
    Received,
    /// The file system was asked for the canonical form of the folder of
    /// scripts, `root`, and of the path that the handler named, joined to that
    /// folder: `target`, or `None` where there is no such file.
    Resolved { root: String, target: Option<String> },
    /// The script was run: `output` is what it printed, or `None` where it
    /// could not be started, fed or awaited.
    Ran { output: Option<String> },
    /// The static handler was given the request that the gateway named:
    /// `answer` is its response, or `None` where it gave none.
    Served { answer: Option<HttpResponse> },
}

/// What is to be done next for a request that the gateway answers.
#[derive(Debug, PartialEq, Eq)]
pub enum CgiAction {
    /// The request is not for the gateway.
    Decline,
    /// Send this response.
    Respond(HttpResponse),
    /// Resolve the folder of scripts, and `path` joined to it, to their
    /// canonical forms.
    Resolve { path: String },
    /// Run `script` in the folder that holds it, with `variables` as its
    /// whole environment and `input` on its standard input.
    Run { script: String, input: String, variables: CGIMetavariableMap },
    /// Have the static handler answer this request.
    Serve(HttpRequest),
}

/// What an action of the gateway holds.
pub enum CgiActionView {
    Decline,
    Respond(ResponseView),
    Resolve { path: Seq<char> },
    Run { script: Seq<char>, input: Seq<char>, variables: Map<CGIMetavariable, Seq<char>> },
    Serve(RequestView),
}

impl View for CgiAction {
    type V = CgiActionView;

    open spec fn view(&self) -> CgiActionView {
        match self {
            CgiAction::Decline => CgiActionView::Decline,
            CgiAction::Respond(response) => CgiActionView::Respond(response@),
            CgiAction::Resolve { path } => CgiActionView::Resolve { path: path@ },
            CgiAction::Run { script, input, variables } => CgiActionView::Run {
                script: script@,
                input: input@,
                variables: variables@,
            },
            CgiAction::Serve(request) => CgiActionView::Serve(request@),
        }
    }
}

/// What the run of a script comes to. A script that did not run, and
/// output that does not begin with a header section, are answered with 500.
pub open spec fn script_outcome(output: Option<Seq<char>>) -> CgiActionView {
    match output {
        None => CgiActionView::Respond(error_response(500)),
        Some(text) => match script_response_of(text) {
            None => CgiActionView::Respond(error_response(500)),
            Some(response) => match conversion_of(response) {
                ConversionView::Response(response) => CgiActionView::Respond(response),
                ConversionView::LocalRedirect(request) => CgiActionView::Serve(request),
            },
        },
    }
}

/// The next step for `request`, which came from `remote_addr`, after
/// `event`, for a gateway mounted at `cgi_path`.
///
/// A request whose path does not begin with the mount path is declined,
/// whatever has happened. A script path that does not resolve, or that
/// resolves to a place that is not under the folder of scripts, is answered
/// with 404.
pub open spec fn cgi_step(
    cgi_path: Seq<char>,
    remote_addr: Seq<char>,
    request: RequestView,
    event: CgiEvent,
) -> CgiActionView {
    match script_path(cgi_path, request.path()) {
        None => CgiActionView::Decline,
        Some(file) => match event {
            CgiEvent::Received => CgiActionView::Resolve { path: file },
            CgiEvent::Resolved { root, target } => if target is Some && lies_under(
                target->0@,
                root@,
            ) {
                CgiActionView::Run {
                    script: target->0@,
                    input: request.body,
                    variables: environment_of(remote_addr, request),
                }
            } else {
                CgiActionView::Respond(error_response(404))
            },
            CgiEvent::Ran { output } => script_outcome(crate::bridge::opt_view(output)),
            CgiEvent::Served { answer } => CgiActionView::Respond(redirected(answer_view(answer))),
        },
    }
}

/// The value of the first header `header_name` of `request`; empty where
/// there is no such header and where its value is not text.
pub fn get_header_or_empty_string(request: &HttpRequest, header_name: &str) -> (r: String)
    ensures
        r@ == header_text(request@, header_name@),
{
    match request.headers().get(header_name) {
        Some(value) => {
            if value_is_text(value.as_str()) {
                value.clone()
            } else {
                String::new()
            }
        },
        None => String::new(),
    }
}

/// Answers the requests under a mount path by running scripts from a
/// folder.
#[derive(Clone, Debug, PartialEq, Eq)]
pub struct CgiRequestHandler {
    cgi_path: String,
    cgi_folder: String,
    static_handler: StaticRequestHandler,
}

impl CgiRequestHandler {
    /// The mount path: what the path of a request begins with, after its
    /// leading slash, if the request is for the gateway.
    pub closed spec fn mount(&self) -> Seq<char> {
        self.cgi_path@
    }

    /// The folder that holds the scripts.
    pub closed spec fn folder(&self) -> Seq<char> {
        self.cgi_folder@
    }

    /// The handler that answers the local redirects.
    pub closed spec fn fallback(&self) -> StaticRequestHandler {
        self.static_handler
    }

    /// The gateway that is mounted at `cgi_path`, runs the scripts in
    /// `cgi_folder` and has `static_handler` answer local redirects.
    pub fn new(cgi_path: String, cgi_folder: String, static_handler: StaticRequestHandler) -> (r:
        CgiRequestHandler)
        ensures
            r.mount() == cgi_path@,
            r.folder() == cgi_folder@,
            r.fallback() == static_handler,
    {
        CgiRequestHandler { cgi_path, cgi_folder, static_handler }
    }

    /// The folder that holds the scripts.
    pub fn cgi_folder(&self) -> (r: &String)
        ensures
            r@ == self.folder(),
    {
        &self.cgi_folder
    }

    /// The handler that answers the local redirects.
    pub fn static_handler(&self) -> (r: &StaticRequestHandler)
        ensures
            *r == self.fallback(),
    {
        &self.static_handler
    }

    /// The metavariables for the script that answers `request`, which came
    /// from the address `remote_addr`; `remote_addr` is empty where the
    /// address is not known.
    pub fn generate_environment_variables(&self, remote_addr: &str, request: &HttpRequest) -> (r:
        CGIMetavariableMap)
        ensures
            r@ == environment_of(remote_addr@, request@),
    {
        let mut metavariables = CGIMetavariableMap::new();

        let authorization_data = get_header_or_empty_string(request, "authorization");
        let authorization_chars = to_chars(authorization_data.as_str());
        match split_first(authorization_chars.as_slice(), ' ') {
            Some((scheme, parameters)) => {
                metavariables.insert(CGIMetavariable::AuthType, to_string(scheme));
                metavariables.insert(CGIMetavariable::RemoteUser, to_string(parameters));
            },
            None => {
                metavariables.insert(CGIMetavariable::AuthType, String::new());
            },
        }

        let content_length = request.body().as_str().as_bytes().len();
        let mut length = String::new();
        if content_length > 0 {
            push_decimal(&mut length, content_length);
        }
        proof {
            assert(length@ =~= metavariable(
                CGIMetavariable::ContentLength,
                remote_addr@,
                request@,
            ));
        }
        metavariables.insert(CGIMetavariable::ContentLength, length);

        let content_type = get_header_or_empty_string(request, "content-type");
        if content_type.as_str().unicode_len() > 0 {
            metavariables.insert(CGIMetavariable::ContentType, content_type);
        } else {
            metavariables.insert(
                CGIMetavariable::ContentType,
                "application/octet-stream".to_owned(),
            );
        }

        metavariables.insert(CGIMetavariable::GatewayInterface, "CGI/1.1".to_owned());

        metavariables.insert(CGIMetavariable::PathInfo, String::new());
        metavariables.insert(CGIMetavariable::PathTranslated, String::new());

        let query = match request.query() {
            Some(query) => query.clone(),
            None => String::new(),
        };
        metavariables.insert(CGIMetavariable::QueryString, query);

        metavariables.insert(CGIMetavariable::RemoteAddr, remote_addr.to_owned());
        metavariables.insert(CGIMetavariable::RemoteHost, remote_addr.to_owned());
        metavariables.insert(CGIMetavariable::RemoteIdent, String::new());

        metavariables.insert(CGIMetavariable::RequestMethod, request.method().clone());

        metavariables.insert(CGIMetavariable::ScriptName, request.path().clone());

        let host_value = get_header_or_empty_string(request, "host");
        let host_chars = to_chars(host_value.as_str());
        let (server_name, server_port) = match split_last(host_chars.as_slice(), ':') {
            Some((server_name, server_port)) => (to_string(server_name), to_string(server_port)),
            None => (host_value, "80".to_owned()),
        };
        metavariables.insert(CGIMetavariable::ServerName, server_name);
        metavariables.insert(CGIMetavariable::ServerPort, server_port);

        metavariables.insert(CGIMetavariable::ServerProtocol, "HTTP/1.0".to_owned());

        metavariables.insert(CGIMetavariable::ServerSoftware, "Rust Web CGI/0.0.1".to_owned());

        proof {
            assert(metavariables@ =~= environment_of(remote_addr@, request@));
        }
        metavariables
    }

    /// Says what is to be done once the script has run: `output` is what it
    /// printed, or `None` where it could not be started, fed or awaited.
    pub fn run_cgi_script(&self, output: Option<String>) -> (r: CgiAction)
        ensures
            r@ == script_outcome(crate::bridge::opt_view(output)),
    {
        match output {
            None => CgiAction::Respond(
                generate_error_response(StatusCode::internal_server_error()),
            ),
            Some(output) => {
                let cgi_response = parse_cgi_response(output);
                match cgi_response {
                    Err(_) => CgiAction::Respond(
                        generate_error_response(StatusCode::internal_server_error()),
                    ),
                    Ok(cgi_response) => match convert_cgi_response_to_http(cgi_response) {
                        Conversion::Response(response) => CgiAction::Respond(response),
                        Conversion::LocalRedirect(request) => CgiAction::Serve(request),
                    },
                }
            },
        }
    }

    /// Says what is to be done next for `request`, which came from the
    /// address `remote_addr`, after `event`.
    pub fn handle_request(&self, remote_addr: &str, request: &HttpRequest, event: CgiEvent) -> (r:
        CgiAction)
        ensures
            r@ == cgi_step(self.mount(), remote_addr@, request@, event),
    {
        let file_path = match requested_script(self.cgi_path.as_str(), request.path().as_str()) {
            Some(file_path) => file_path,
            None => {
                return CgiAction::Decline;
            },
        };
        match event {
            CgiEvent::Received => CgiAction::Resolve { path: file_path },
            CgiEvent::Resolved { root, target } => match target {
                Some(path) => {
                    if is_under(path.as_str(), root.as_str()) {
                        let variables = self.generate_environment_variables(remote_addr, request);
                        CgiAction::Run { script: path, input: request.body().clone(), variables }
                    } else {
                        CgiAction::Respond(generate_error_response(StatusCode::not_found()))
                    }
                },
                None => CgiAction::Respond(generate_error_response(StatusCode::not_found())),
            },
            CgiEvent::Ran { output } => self.run_cgi_script(output),
            CgiEvent::Served { answer } => CgiAction::Respond(finish_local_redirect(answer)),
        }
    }
}

/// The gateway has a script run only once its path has resolved to a place
/// under the folder of scripts, and it is that very script.
pub proof fn lemma_run_is_under_the_folder(
    cgi_path: Seq<char>,
    remote_addr: Seq<char>,
    request: RequestView,
    event: CgiEvent,
)
    requires
        cgi_step(cgi_path, remote_addr, request, event) is Run,
    ensures
        event matches CgiEvent::Resolved { root, target } && target matches Some(path)
            && lies_under(path@, root@) && cgi_step(cgi_path, remote_addr, request, event)->script
            == path@,
{
}

} // verus!
