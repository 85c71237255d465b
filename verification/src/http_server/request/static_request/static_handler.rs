//! The handler that answers a request with a file under a folder.
//!
//! The handler does not touch the file system. It says which step is next:
//! resolve a path, read a file, or answer. Whoever runs it takes the step and
//! comes back with what the file system gave.

use crate::bridge::{is_header_value, is_value_char};
use crate::http_server::response::{error_response, generate_error_response};
use crate::message::{is_header_name, HttpRequest, HttpResponse, RequestView, ResponseView,
    StatusCode,
};
use crate::text::{
    decimal, lowercase, push_decimal, same_text, starts_with, to_chars, to_string, without_prefix,
};
use vstd::prelude::*;
use vstd::utf8::encode_utf8;

verus! {

/// What has happened to a request that the static handler answers.
#[derive(Clone, Debug, PartialEq, Eq)]
pub enum StaticEvent {
    /// The request has come in; nothing was done yet.
    Received,
    /// The file system was asked for the canonical form of the handler's
    /// folder, `root`, and of the path that the handler named, joined to that
    /// folder: `target`, or `None` where there is no such file.
    Resolved { root: String, target: Option<String> },
    /// The file that the handler named was read: `contents`, or `None` where
    /// it could not be read as text.
    Loaded { contents: Option<String> },
}

/// What is to be done next for a request that the static handler answers.
#[derive(Debug, PartialEq, Eq)]
pub enum StaticAction {
    /// Send this response.
    Respond(HttpResponse),
    /// Resolve the handler's folder, and `path` joined to it, to their
    /// canonical forms.
    Resolve { path: String },
    /// Read the file at `path` as text.
    Load { path: String },
}

/// What an action of the static handler holds.
pub enum StaticActionView {
    Respond(ResponseView),
    Resolve { path: Seq<char> },
    Load { path: Seq<char> },
}

impl View for StaticAction {
    type V = StaticActionView;

    open spec fn view(&self) -> StaticActionView {
        match self {
            StaticAction::Respond(response) => StaticActionView::Respond(response@),
            StaticAction::Resolve { path } => StaticActionView::Resolve { path: path@ },
            StaticAction::Load { path } => StaticActionView::Load { path: path@ },
        }
    }
}

/// Whether the canonical path `path` lies under the canonical path `root`:
/// it is `root` itself, or it is `root`, a slash, and more. A path that only
/// begins with the letters of `root` does not lie under it.
pub open spec fn lies_under(path: Seq<char>, root: Seq<char>) -> bool {
    starts_with(path, root) && (path.len() == root.len() || (root.len() > 0 && root.last() == '/')
        || path[root.len() as int] == '/')
}

/// Tests whether the canonical path `path` lies under the canonical path
/// `root`.
pub fn is_under(path: &str, root: &str) -> (r: bool)
    ensures
        r == lies_under(path@, root@),
{
    let path_chars = to_chars(path);
    let root_chars = to_chars(root);
    match without_prefix(path_chars.as_slice(), root_chars.as_slice()) {
        Some(rest) => {
            proof {
                if rest@.len() > 0 {
                    assert(rest@[0] == path@[root@.len() as int]);
                }
            }
            rest.len() == 0 || (root_chars.len() > 0 && root_chars[root_chars.len() - 1] == '/')
                || rest[0] == '/'
        },
        None => false,
    }
}

/// `s` without its first character, if it has one.
pub open spec fn without_first(s: Seq<char>) -> Seq<char> {
    if s.len() > 0 {
        s.skip(1)
    } else {
        s
    }
}

/// The file that a request path asks for, relative to the folder:
/// `index.html` for the path `/`, else the path without its leading slash.
pub open spec fn file_path(path: Seq<char>) -> Seq<char> {
    if path == "/"@ {
        "index.html"@
    } else {
        without_first(path)
    }
}

/// Maps the path of a request to the file that it asks for, relative to the
/// folder.
pub fn requested_file(uri_path: &str) -> (r: String)
    ensures
        r@ == file_path(uri_path@),
{
    if same_text(uri_path, "/") {
        "index.html".to_owned()
    } else {
        let chars = to_chars(uri_path);
        if chars.len() > 0 {
            proof {
                assert(chars@.subrange(1, chars@.len() as int) == chars@.skip(1));
            }
            to_string(vstd::slice::slice_subrange(chars.as_slice(), 1, chars.len()))
        } else {
            proof {
                assert(uri_path@ =~= Seq::<char>::empty());
            }
            String::new()
        }
    }
}

/// The response that carries a file: 200, the length of the file in bytes as
/// `content-length`, and the file as the body, or no body for HEAD.
pub open spec fn file_response(method: Seq<char>, contents: Seq<char>) -> ResponseView {
    ResponseView {
        status: 200,
        headers: seq![("content-length"@, decimal(encode_utf8(contents).len()))],
        body: if method == "HEAD"@ {
            Seq::empty()
        } else {
            contents
        },
    }
}

/// The next step for `request` after `event`.
///
/// A method other than GET and HEAD is answered with 405, whatever has
/// happened. A path that does not resolve, or that resolves to a place that is
/// not under the folder, is answered with 404. A file that cannot be read is
/// answered with 500.
pub open spec fn static_step(request: RequestView, event: StaticEvent) -> StaticActionView {
    if request.method != "GET"@ && request.method != "HEAD"@ {
        StaticActionView::Respond(error_response(405))
    } else {
        match event {
            StaticEvent::Received => StaticActionView::Resolve { path: file_path(request.path()) },
            StaticEvent::Resolved { root, target } => if target is Some && lies_under(
                target->0@,
                root@,
            ) {
                StaticActionView::Load { path: target->0@ }
            } else {
                StaticActionView::Respond(error_response(404))
            },
            StaticEvent::Loaded { contents } => match contents {
                Some(contents) => StaticActionView::Respond(
                    file_response(request.method, contents@),
                ),
                None => StaticActionView::Respond(error_response(500)),
            },
        }
    }
}

/// A number in decimal is a header value.
pub proof fn lemma_decimal_is_value(n: nat)
    ensures
        is_header_value(decimal(n)),
    decreases n,
{
    if n >= 10 {
        lemma_decimal_is_value(n / 10);
    }
    assert forall|i: int| 0 <= i < decimal(n).len() implies is_value_char(
        #[trigger] decimal(n)[i],
    ) by {
        if n >= 10 && i < decimal(n / 10).len() {
            assert(decimal(n)[i] == decimal(n / 10)[i]);
        }
    }
}

/// Serves the files under a folder.
#[derive(Clone, Debug, PartialEq, Eq)]
pub struct StaticRequestHandler {
    static_folder: String,
}

impl StaticRequestHandler {
    /// The folder whose files the handler serves.
    pub closed spec fn folder(&self) -> Seq<char> {
        self.static_folder@
    }

    /// The handler that serves the files under `static_folder`.
    pub fn new(static_folder: String) -> (r: StaticRequestHandler)
        ensures
            r.folder() == static_folder@,
    {
        StaticRequestHandler { static_folder }
    }

    /// The folder whose files the handler serves.
    pub fn static_folder(&self) -> (r: &String)
        ensures
            r@ == self.folder(),
    {
        &self.static_folder
    }

    /// Says what is to be done next for `request`, after `event`.
    pub fn handle_request(&self, request: &HttpRequest, event: StaticEvent) -> (r: StaticAction)
        ensures
            r@ == static_step(request@, event),
    {
        let is_head = same_text(request.method().as_str(), "HEAD");
        if !is_head && !same_text(request.method().as_str(), "GET") {
            return StaticAction::Respond(generate_error_response(StatusCode::method_not_allowed()));
        }
        match event {
            StaticEvent::Received => StaticAction::Resolve {
                path: requested_file(request.path().as_str()),
            },
            StaticEvent::Resolved { root, target } => match target {
                Some(path) => {
                    if is_under(path.as_str(), root.as_str()) {
                        StaticAction::Load { path }
                    } else {
                        StaticAction::Respond(generate_error_response(StatusCode::not_found()))
                    }
                },
                None => StaticAction::Respond(generate_error_response(StatusCode::not_found())),
            },
            StaticEvent::Loaded { contents } => match contents {
                None => StaticAction::Respond(
                    generate_error_response(StatusCode::internal_server_error()),
                ),
                Some(contents) => {
                    let contents_len = contents.as_str().as_bytes().len();
                    let mut length = String::new();
                    push_decimal(&mut length, contents_len);
                    proof {
                        reveal_strlit("content-length");
                        assert(lowercase("content-length"@) =~= "content-length"@);
                        assert(is_header_name("content-length"@));
                        lemma_decimal_is_value(contents_len as nat);
                        assert(length@ =~= decimal(contents_len as nat));
                    }
                    let sent_content = if is_head {
                        String::new()
                    } else {
                        contents
                    };
                    let response = HttpResponse::new(StatusCode::ok()).with_header(
                        "content-length",
                        length.as_str(),
                    );
                    match response {
                        Some(response) => {
                            let response = response.with_body(sent_content);
                            proof {
                                assert(response@.headers =~= seq![
                                    ("content-length"@, length@),
                                ]);
                            }
                            StaticAction::Respond(response)
                        },
                        None => StaticAction::Respond(
                            generate_error_response(StatusCode::internal_server_error()),
                        ),
                    }
                },
            },
        }
    }
}

/// A path that does not resolve, or that resolves to a place that is not
/// under the folder, is answered with 404: the handler does not ask for the
/// file to be read.
pub proof fn lemma_outside_the_folder_is_not_found(
    request: RequestView,
    root: String,
    target: Option<String>,
)
    requires
        request.method == "GET"@ || request.method == "HEAD"@,
        target matches Some(path) ==> !lies_under(path@, root@),
    ensures
        static_step(request, StaticEvent::Resolved { root, target }) == StaticActionView::Respond(
            error_response(404),
        ),
{
}

/// The handler asks for a file to be read only once its path has resolved
/// to a place under the folder.
pub proof fn lemma_load_is_under_the_folder(request: RequestView, event: StaticEvent)
    requires
        static_step(request, event) is Load,
    ensures
        event matches StaticEvent::Resolved { root, target } && target matches Some(path)
            && lies_under(path@, root@) && static_step(request, event)
            == (StaticActionView::Load { path: path@ }),
{
}

} // verus!
