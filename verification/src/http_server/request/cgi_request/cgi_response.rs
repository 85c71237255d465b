//! What a script prints, and the HTTP response that it stands for.

use crate::bridge::{is_header_value, read_status, status_number, uri_parts};
use crate::http_server::response::{error_response, generate_error_response};
use crate::message::{
    lemma_lowercase_twice, to_lowercase, HeaderMap, HttpRequest, HttpResponse, HttpVersion,
    RequestView, ResponseView, StatusCode,
};
use crate::text::{
    all_have_colon, concat, filled, has_header_section, header_of, join_lines, leading,
    lemma_leading,
    lemma_leading_is, lines, lowercase, same_text, split_first, split_lines, to_chars, to_string,
    trim, trimmed, views,
};
use vstd::prelude::*;

verus! {

/// A header that the gateway reads in the output of a script.
#[derive(Clone, Copy, Debug, PartialEq, Eq, Hash, Structural)]
pub enum CGIResponseHeader {
    ContentType,
    Location,
    Status,
}

impl CGIResponseHeader {
    /// The header that `name` names, whatever the case of its letters.
    pub open spec fn named(name: Seq<char>) -> Option<CGIResponseHeader> {
        let lower = lowercase(name);
        if lower == "content-type"@ {
            Some(CGIResponseHeader::ContentType)
        } else if lower == "location"@ {
            Some(CGIResponseHeader::Location)
        } else if lower == "status"@ {
            Some(CGIResponseHeader::Status)
        } else {
            None
        }
    }

    /// Reads a header from its name, whatever the case of its letters. A name
    /// that is none of the three is refused.
    pub fn from_str(name: &str) -> (r: Result<CGIResponseHeader, ()>)
        ensures
            match r {
                Ok(header) => CGIResponseHeader::named(name@) == Some(header),
                Err(_) => CGIResponseHeader::named(name@) is None,
            },
    {
        let lower = to_lowercase(name);
        if same_text(lower.as_str(), "content-type") {
            Ok(CGIResponseHeader::ContentType)
        } else if same_text(lower.as_str(), "location") {
            Ok(CGIResponseHeader::Location)
        } else if same_text(lower.as_str(), "status") {
            Ok(CGIResponseHeader::Status)
        } else {
            Err(())
        }
    }
}

/// The headers of a script's response, each with its value. A header has at
/// most one value.
#[derive(Clone, Debug, PartialEq, Eq)]
pub struct CGIResponseHeaderMap {
    content_type: Option<String>,
    location: Option<String>,
    status: Option<String>,
}

impl CGIResponseHeaderMap {
    /// The slot that holds the value of `key`.
    closed spec fn slot(&self, key: CGIResponseHeader) -> Option<String> {
        match key {
            CGIResponseHeader::ContentType => self.content_type,
            CGIResponseHeader::Location => self.location,
            CGIResponseHeader::Status => self.status,
        }
    }
}

impl View for CGIResponseHeaderMap {
    type V = Map<CGIResponseHeader, Seq<char>>;

    closed spec fn view(&self) -> Map<CGIResponseHeader, Seq<char>> {
        Map::new(
            |key: CGIResponseHeader| self.slot(key) is Some,
            |key: CGIResponseHeader| self.slot(key)->0@,
        )
    }
}

impl CGIResponseHeaderMap {
    /// The map without any header.
    pub fn new() -> (r: CGIResponseHeaderMap)
        ensures
            r@ == Map::<CGIResponseHeader, Seq<char>>::empty(),
    {
        let r = CGIResponseHeaderMap { content_type: None, location: None, status: None };
        proof {
            assert(r@ =~= Map::<CGIResponseHeader, Seq<char>>::empty());
        }
        r
    }

    /// Gives `key` the value `value`, in place of the value that it had.
    pub fn insert(&mut self, key: CGIResponseHeader, value: String)
        ensures
            final(self)@ == old(self)@.insert(key, value@),
    {
        match key {
            CGIResponseHeader::ContentType => {
                self.content_type = Some(value);
            },
            CGIResponseHeader::Location => {
                self.location = Some(value);
            },
            CGIResponseHeader::Status => {
                self.status = Some(value);
            },
        }
        proof {
            assert(final(self)@ =~= old(self)@.insert(key, value@));
        }
    }

    /// The value of `key`, if it has one.
    pub fn get(&self, key: CGIResponseHeader) -> (r: Option<&String>)
        ensures
            match r {
                Some(value) => self@.dom().contains(key) && self@[key] == value@,
                None => !self@.dom().contains(key),
            },
    {
        match key {
            CGIResponseHeader::ContentType => self.content_type.as_ref(),
            CGIResponseHeader::Location => self.location.as_ref(),
            CGIResponseHeader::Status => self.status.as_ref(),
        }
    }

    /// Whether `key` has a value.
    pub fn contains_key(&self, key: CGIResponseHeader) -> (r: bool)
        ensures
            r == self@.dom().contains(key),
    {
        self.get(key).is_some()
    }
}

/// What the response of a script holds.
pub struct ScriptResponseView {
    pub headers: Map<CGIResponseHeader, Seq<char>>,
    pub body: Seq<char>,
}

/// The response of a script: its headers and its body.
#[derive(Clone, Debug, PartialEq, Eq)]
pub struct CGIScriptResponse {
    headers: CGIResponseHeaderMap,
    body: String,
}

impl View for CGIScriptResponse {
    type V = ScriptResponseView;

    closed spec fn view(&self) -> ScriptResponseView {
        ScriptResponseView { headers: self.headers@, body: self.body@ }
    }
}

impl CGIScriptResponse {
    /// The response with these headers and this body.
    pub fn new(headers: CGIResponseHeaderMap, body: String) -> (r: CGIScriptResponse)
        ensures
            r@ == (ScriptResponseView { headers: headers@, body: body@ }),
    {
        CGIScriptResponse { headers, body }
    }

    /// The headers.
    pub fn headers(&self) -> (r: &CGIResponseHeaderMap)
        ensures
            r@ == self@.headers,
    {
        &self.headers
    }

    /// The body.
    pub fn body(&self) -> (r: &String)
        ensures
            r@ == self@.body,
    {
        &self.body
    }
}

/// The headers that the lines of a header section give. A line whose name
/// is none of the three headers counts for nothing; of two lines with the
/// same header the later one counts; a value is taken without the white
/// space around it.
pub open spec fn script_headers(section: Seq<Seq<char>>) -> Map<CGIResponseHeader, Seq<char>>
    decreases section.len(),
{
    if section.len() == 0 {
        Map::empty()
    } else {
        let earlier = script_headers(section.drop_last());
        let (name, value) = header_of(section.last());
        match CGIResponseHeader::named(name) {
            Some(key) => earlier.insert(key, trim(value)),
            None => earlier,
        }
    }
}

/// The response that the output of a script states. `None` where the output
/// does not begin with a header section.
pub open spec fn script_response_of(output: Seq<char>) -> Option<ScriptResponseView> {
    let all = lines(output);
    let count = leading(all, filled()) as int;
    if has_header_section(all) {
        Some(
            ScriptResponseView {
                headers: script_headers(all.take(count)),
                body: concat(all.skip(count + 1)),
            },
        )
    } else {
        None
    }
}

/// Extracts the CGI headers from the lines that a script printed, and tells
/// where the body begins: at the line after the empty line that ends the
/// headers.
#[verifier::loop_isolation(false)]
pub fn parse_cgi_headers(cgi_output: &Vec<&[char]>) -> (r: Result<
    (CGIResponseHeaderMap, usize),
    (),
>)
    ensures
        match r {
            Ok((headers, body_at)) => {
                &&& has_header_section(views(cgi_output@))
                &&& body_at == leading(views(cgi_output@), filled()) + 1
                &&& headers@ == script_headers(
                    views(cgi_output@).take(leading(views(cgi_output@), filled()) as int),
                )
            },
            Err(_) => !has_header_section(views(cgi_output@)),
        },
{
    let ghost all = views(cgi_output@);
    let mut headers = CGIResponseHeaderMap::new();
    let mut i: usize = 0;
    proof {
        assert(all.take(0) =~= Seq::<Seq<char>>::empty());
    }
    while i < cgi_output.len() && cgi_output[i].len() > 0
        invariant
            i <= cgi_output@.len(),
            forall|j: int| 0 <= j < i ==> filled()(#[trigger] all[j]),
            all_have_colon(all.take(i as int)),
            headers@ == script_headers(all.take(i as int)),
        decreases cgi_output.len() - i,
    {
        let ghost section = all.take(i as int);
        let ghost line = all[i as int];
        proof {
            assert(line == cgi_output@[i as int]@);
            assert(filled()(line));
        }
        match split_first(cgi_output[i], ':') {
            None => {
                proof {
                    lemma_leading(all, filled());
                    let count = leading(all, filled()) as int;
                    if count < all.len() {
                        assert(count > i);
                        assert(all.take(count)[i as int] == line);
                    }
                }
                return Err(());
            },
            Some((before, after)) => {
                let name = to_string(before);
                match CGIResponseHeader::from_str(name.as_str()) {
                    Ok(key) => {
                        headers.insert(key, to_string(trimmed(after)));
                    },
                    Err(_) => {},
                }
                proof {
                    let next = all.take(i + 1);
                    assert(next.drop_last() == section);
                    assert(next.last() == line);
                    assert forall|j: int| 0 <= j < next.len() implies crate::text::has_char(
                        #[trigger] next[j],
                        ':',
                    ) by {
                        if j < section.len() {
                            assert(next[j] == section[j]);
                        }
                    }
                }
            },
        }
        i = i + 1;
    }
    if i >= cgi_output.len() {
        proof {
            lemma_leading_is(all, filled(), all.len() as int);
        }
        return Err(());
    }
    proof {
        assert(all[i as int] == cgi_output@[i as int]@);
        lemma_leading_is(all, filled(), i as int);
    }
    Ok((headers, i + 1))
}

/// Extracts the CGI response from the CGI script output.
pub fn parse_cgi_response(cgi_output: String) -> (r: Result<CGIScriptResponse, ()>)
    ensures
        match r {
            Ok(response) => script_response_of(cgi_output@) == Some(response@),
            Err(_) => script_response_of(cgi_output@) is None,
        },
{
    let chars = to_chars(cgi_output.as_str());
    let output_lines = split_lines(chars.as_slice());
    let (response_headers, body_at) = match parse_cgi_headers(&output_lines) {
        Err(_) => {
            return Err(());
        },
        Ok(found) => found,
    };
    let response_body = join_lines(&output_lines, body_at);
    Ok(CGIScriptResponse::new(response_headers, response_body))
}

/// What the gateway does with the response of a script: it answers with a
/// response of its own, or it has the static handler answer a request.
#[derive(Debug, PartialEq, Eq)]
pub enum Conversion {
    Response(HttpResponse),
    LocalRedirect(HttpRequest),
}

/// What a conversion holds.
pub enum ConversionView {
    Response(ResponseView),
    LocalRedirect(RequestView),
}

impl View for Conversion {
    type V = ConversionView;

    open spec fn view(&self) -> ConversionView {
        match self {
            Conversion::Response(response) => ConversionView::Response(response@),
            Conversion::LocalRedirect(request) => ConversionView::LocalRedirect(request@),
        }
    }
}

/// The request that a local redirect to `location` has the static handler
/// answer: a GET for `location`, without headers or body.
pub open spec fn redirect_request(location: Seq<char>) -> RequestView {
    RequestView {
        method: "GET"@,
        target: location,
        version: HttpVersion::Http11,
        headers: Seq::empty(),
        body: Seq::empty(),
    }
}

/// What a local redirect to `location` comes to: the request for it, or 500
/// where `location` is no request target.
pub open spec fn local_redirect_of(location: Seq<char>) -> ConversionView {
    if uri_parts(location) is Some {
        ConversionView::LocalRedirect(redirect_request(location))
    } else {
        ConversionView::Response(error_response(500))
    }
}

/// The response that sends the client to `location`: 302 with a
/// `location` header and an empty body, or 500 where `location` is no header
/// value.
pub open spec fn client_redirect_of(location: Seq<char>) -> ResponseView {
    if is_header_value(location) {
        ResponseView {
            status: 302,
            headers: seq![("location"@, location)],
            body: Seq::empty(),
        }
    } else {
        error_response(500)
    }
}

/// The response that a document stands for. Its status is what the
/// `Status` header spells, 200 without one; its one header is the content
/// type; its body is the document. It is 500 where the `Status` header
/// spells no status code, where there is no `Content-Type` header, and where
/// the content type is no header value.
pub open spec fn document_of(
    headers: Map<CGIResponseHeader, Seq<char>>,
    body: Seq<char>,
) -> ResponseView {
    let status_text = if headers.dom().contains(CGIResponseHeader::Status) {
        headers[CGIResponseHeader::Status]
    } else {
        "200"@
    };
    let content_type = headers[CGIResponseHeader::ContentType];
    if status_number(status_text) is Some && headers.dom().contains(CGIResponseHeader::ContentType)
        && is_header_value(content_type) {
        ResponseView {
            status: status_number(status_text)->0,
            headers: seq![("content-type"@, content_type)],
            body,
        }
    } else {
        error_response(500)
    }
}

/// What the response of a script comes to. With a `Location` header that
/// begins with a slash it is a local redirect; with any other `Location`
/// header, a client redirect; without one, a document.
pub open spec fn conversion_of(response: ScriptResponseView) -> ConversionView {
    if response.headers.dom().contains(CGIResponseHeader::Location) {
        let location = response.headers[CGIResponseHeader::Location];
        if location.len() > 0 && location[0] == '/' {
            local_redirect_of(location)
        } else {
            ConversionView::Response(client_redirect_of(location))
        }
    } else {
        ConversionView::Response(document_of(response.headers, response.body))
    }
}

/// The names of the headers that the gateway sets are header names.
pub proof fn lemma_gateway_header_names()
    ensures
        crate::message::is_header_name("location"@),
        crate::message::is_header_name("content-type"@),
        crate::bridge::is_token("GET"@),
{
    reveal_strlit("location");
    reveal_strlit("content-type");
    reveal_strlit("GET");
    assert(lowercase("location"@) =~= "location"@);
    assert(lowercase("content-type"@) =~= "content-type"@);
}

/// Converts a CGI Local Redirect response into the request that the static
/// handler is to answer.
pub fn local_redirect(location: &str) -> (r: Conversion)
    ensures
        r@ == local_redirect_of(location@),
{
    proof {
        lemma_gateway_header_names();
    }
    let headers = HeaderMap::new();
    match HttpRequest::new("GET", location, HttpVersion::Http11, &headers, String::new()) {
        Some(static_request) => {
            proof {
                assert(crate::message::with_lowercase_names(headers@) =~= headers@);
            }
            Conversion::LocalRedirect(static_request)
        },
        None => Conversion::Response(
            generate_error_response(StatusCode::internal_server_error()),
        ),
    }
}

/// What a local redirect answers once the static handler has answered:
/// its response, or 500 where it gave none.
pub open spec fn redirected(answer: Option<ResponseView>) -> ResponseView {
    match answer {
        Some(response) => response,
        None => error_response(500),
    }
}

/// Ends a local redirect with what the static handler answered.
pub fn finish_local_redirect(answer: Option<HttpResponse>) -> (r: HttpResponse)
    ensures
        r@ == redirected(crate::http_server::request::request::answer_view(answer)),
{
    match answer {
        Some(response) => response,
        None => generate_error_response(StatusCode::internal_server_error()),
    }
}

/// Converts a CGI Client Redirect response into the corresponding HTTP
/// response.
pub fn client_redirect(location: &str) -> (r: HttpResponse)
    ensures
        r@ == client_redirect_of(location@),
{
    proof {
        lemma_gateway_header_names();
        lemma_lowercase_twice("location"@);
    }
    let response = HttpResponse::new(StatusCode::found()).with_header("location", location);
    match response {
        Some(response) => {
            proof {
                assert(response@.headers =~= seq![("location"@, location@)]);
            }
            response
        },
        None => generate_error_response(StatusCode::internal_server_error()),
    }
}

/// Converts a CGI Document response into the corresponding HTTP response.
pub fn document_response(headers: &CGIResponseHeaderMap, body: String) -> (r: HttpResponse)
    ensures
        r@ == document_of(headers@, body@),
{
    proof {
        lemma_gateway_header_names();
    }
    let status = match headers.get(CGIResponseHeader::Status) {
        None => read_status("200"),
        Some(status) => read_status(status.as_str()),
    };
    let status = match status {
        None => {
            return generate_error_response(StatusCode::internal_server_error());
        },
        Some(value) => match StatusCode::from_u16(value) {
            Some(status) => status,
            None => {
                return generate_error_response(StatusCode::internal_server_error());
            },
        },
    };
    let content_type = match headers.get(CGIResponseHeader::ContentType) {
        None => {
            return generate_error_response(StatusCode::internal_server_error());
        },
        Some(value) => value,
    };
    let response = HttpResponse::new(status).with_header("content-type", content_type.as_str());
    match response {
        Some(response) => {
            let response = response.with_body(body);
            proof {
                assert(response@.headers =~= seq![("content-type"@, content_type@)]);
            }
            response
        },
        None => generate_error_response(StatusCode::internal_server_error()),
    }
}

/// Converts a CGI response into what the gateway does with it. The kind of
/// CGI response is read from the headers of the script's output.
pub fn convert_cgi_response_to_http(cgi_response: CGIScriptResponse) -> (r: Conversion)
    ensures
        r@ == conversion_of(cgi_response@),
{
    let response_headers = cgi_response.headers;
    let response_body = cgi_response.body;
    match response_headers.get(CGIResponseHeader::Location) {
        Some(location) => {
            let chars = to_chars(location.as_str());
            if chars.len() > 0 && chars[0] == '/' {
                local_redirect(location.as_str())
            } else {
                Conversion::Response(client_redirect(location.as_str()))
            }
        },
        None => Conversion::Response(document_response(&response_headers, response_body)),
    }
}

} // verus!
