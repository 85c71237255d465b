//! HTTP messages as the server holds them: status codes, protocol versions,
//! header lists, requests and responses, each with its mathematical view.

use crate::bridge::{
    is_header_value, is_name, is_token, is_token_char, method_is_valid, normalized_name, opt_view,
    read_target, uri_parts, value_is_valid,
};
use crate::text::{char_to_lower, lowercase, to_chars};
use vstd::prelude::*;

verus! {

/// An HTTP status code: a number from 100 to 999.
#[derive(Clone, Copy, Debug, PartialEq, Eq)]
pub struct StatusCode {
    code: u16,
}

impl View for StatusCode {
    type V = u16;

    closed spec fn view(&self) -> u16 {
        self.code
    }
}

impl StatusCode {
    #[verifier::type_invariant]
    pub open spec fn in_range(&self) -> bool {
        100 <= self@ <= 999
    }

    /// The status code `code`, if it is one.
    pub fn from_u16(code: u16) -> (r: Option<StatusCode>)
        ensures
            match r {
                Some(status) => status@ == code && 100 <= code <= 999,
                None => !(100 <= code <= 999),
            },
    {
        if 100 <= code && code <= 999 {
            Some(StatusCode { code })
        } else {
            None
        }
    }

    /// The number of this status code.
    pub fn as_u16(&self) -> (r: u16)
        ensures
            r == self@,
            100 <= r <= 999,
    {
        proof {
            use_type_invariant(self);
        }
        self.code
    }

    /// 200 OK
    pub fn ok() -> (r: StatusCode)
        ensures
            r@ == 200,
    {
        StatusCode { code: 200 }
    }

    /// 302 Found
    pub fn found() -> (r: StatusCode)
        ensures
            r@ == 302,
    {
        StatusCode { code: 302 }
    }

    /// 400 Bad Request
    pub fn bad_request() -> (r: StatusCode)
        ensures
            r@ == 400,
    {
        StatusCode { code: 400 }
    }

    /// 404 Not Found
    pub fn not_found() -> (r: StatusCode)
        ensures
            r@ == 404,
    {
        StatusCode { code: 404 }
    }

    /// 405 Method Not Allowed
    pub fn method_not_allowed() -> (r: StatusCode)
        ensures
            r@ == 405,
    {
        StatusCode { code: 405 }
    }

    /// 413 Payload Too Large
    pub fn payload_too_large() -> (r: StatusCode)
        ensures
            r@ == 413,
    {
        StatusCode { code: 413 }
    }

    /// 500 Internal Server Error
    pub fn internal_server_error() -> (r: StatusCode)
        ensures
            r@ == 500,
    {
        StatusCode { code: 500 }
    }
}

/// The protocol version that a request declares.
#[derive(Clone, Copy, Debug, PartialEq, Eq, Structural)]
pub enum HttpVersion {
    Http09,
    Http10,
    Http11,
    Http2,
    Http3,
}

/// An ordered list of headers, each a name and a value. A name may occur
/// more than once; a lookup finds the first.
#[derive(Debug, PartialEq, Eq)]
pub struct HeaderMap {
    entries: Vec<(String, String)>,
}

/// The value that stands with the first `name` in `entries`.
pub open spec fn lookup(entries: Seq<(Seq<char>, Seq<char>)>, name: Seq<char>) -> Option<
    Seq<char>,
>
    decreases entries.len(),
{
    if entries.len() == 0 {
        None
    } else if entries[0].0 == name {
        Some(entries[0].1)
    } else {
        lookup(entries.drop_first(), name)
    }
}

/// Whether every name in `entries` is in lower case.
pub open spec fn names_lowercase(entries: Seq<(Seq<char>, Seq<char>)>) -> bool {
    forall|i: int| 0 <= i < entries.len() ==> (#[trigger] entries[i]).0 == lowercase(entries[i].0)
}

/// `entries` with every name in lower case.
pub open spec fn with_lowercase_names(entries: Seq<(Seq<char>, Seq<char>)>) -> Seq<
    (Seq<char>, Seq<char>),
> {
    Seq::new(entries.len(), |i: int| (lowercase(entries[i].0), entries[i].1))
}

impl View for HeaderMap {
    type V = Seq<(Seq<char>, Seq<char>)>;

    closed spec fn view(&self) -> Seq<(Seq<char>, Seq<char>)> {
        Seq::new(self.entries@.len(), |i: int| (self.entries@[i].0@, self.entries@[i].1@))
    }
}

/// `text` with each of its letters `A` to `Z` in lower case.
pub fn to_lowercase(text: &str) -> (r: String)
    ensures
        r@ == lowercase(text@),
{
    let chars = to_chars(text);
    let mut r = String::new();
    let mut i: usize = 0;
    while i < chars.len()
        invariant
            i <= chars@.len(),
            chars@ == text@,
            r@ == lowercase(text@).take(i as int),
        decreases chars.len() - i,
    {
        r.push(char_to_lower(chars[i]));
        proof {
            assert(lowercase(text@).take(i + 1) == lowercase(text@).take(i as int).push(
                lowercase(text@)[i as int],
            ));
        }
        i = i + 1;
    }
    proof {
        assert(lowercase(text@).take(chars@.len() as int) == lowercase(text@));
    }
    r
}

impl HeaderMap {
    /// The empty list.
    pub fn new() -> (r: HeaderMap)
        ensures
            r@ == Seq::<(Seq<char>, Seq<char>)>::empty(),
    {
        let r = HeaderMap { entries: Vec::new() };
        proof {
            assert(r@ == Seq::<(Seq<char>, Seq<char>)>::empty());
        }
        r
    }

    /// How many headers the list holds.
    pub fn len(&self) -> (r: usize)
        ensures
            r == self@.len(),
    {
        self.entries.len()
    }

    /// Adds a header at the end, under `name` as it is written.
    pub fn append(&mut self, name: String, value: String)
        ensures
            final(self)@ == old(self)@.push((name@, value@)),
    {
        self.entries.push((name, value));
        proof {
            assert(final(self)@ == old(self)@.push((name@, value@)));
        }
    }

    /// The name of the header at `index`.
    pub fn name_at(&self, index: usize) -> (r: &String)
        requires
            index < self@.len(),
        ensures
            r@ == self@[index as int].0,
    {
        &self.entries[index].0
    }

    /// The value of the header at `index`.
    pub fn value_at(&self, index: usize) -> (r: &String)
        requires
            index < self@.len(),
        ensures
            r@ == self@[index as int].1,
    {
        &self.entries[index].1
    }

    /// The value of the first header whose name is `name`, letter for letter.
    pub fn get(&self, name: &str) -> (r: Option<&String>)
        ensures
            match r {
                Some(value) => lookup(self@, name@) == Some(value@),
                None => lookup(self@, name@) is None,
            },
    {
        let mut i: usize = 0;
        proof {
            assert(self@.skip(0) == self@);
        }
        while i < self.entries.len()
            invariant
                i <= self@.len(),
                self@.len() == self.entries@.len(),
                lookup(self@, name@) == lookup(self@.skip(i as int), name@),
            decreases self.entries.len() - i,
        {
            let ghost rest = self@.skip(i as int);
            proof {
                assert(rest[0] == self@[i as int]);
                assert(rest.drop_first() == self@.skip(i + 1));
            }
            if crate::text::same_text(self.entries[i].0.as_str(), name) {
                return Some(&self.entries[i].1);
            }
            i = i + 1;
        }
        None
    }
}

impl Clone for HeaderMap {
    fn clone(&self) -> (r: HeaderMap)
        ensures
            r@ == self@,
    {
        let mut r = HeaderMap::new();
        let mut i: usize = 0;
        while i < self.len()
            invariant
                i <= self@.len(),
                r@ == self@.take(i as int),
            decreases self@.len() - i,
        {
            r.append(self.name_at(i).clone(), self.value_at(i).clone());
            proof {
                assert(self@.take(i + 1) == self@.take(i as int).push(self@[i as int]));
            }
            i = i + 1;
        }
        proof {
            assert(self@.take(self@.len() as int) == self@);
        }
        r
    }
}

/// What a request holds.
pub struct RequestView {
    pub method: Seq<char>,
    pub target: Seq<char>,
    pub version: HttpVersion,
    pub headers: Seq<(Seq<char>, Seq<char>)>,
    pub body: Seq<char>,
}

impl RequestView {
    /// The path of the target. Empty where the target has none.
    pub open spec fn path(self) -> Seq<char> {
        match uri_parts(self.target) {
            Some((path, _)) => path,
            None => Seq::empty(),
        }
    }

    /// The query of the target, if it has one.
    pub open spec fn query(self) -> Option<Seq<char>> {
        match uri_parts(self.target) {
            Some((_, query)) => query,
            None => None,
        }
    }

    /// What a request must satisfy: the method is a token, the target is one
    /// that `http::Uri` accepts, and the header names are in lower case.
    pub open spec fn valid(self) -> bool {
        &&& is_token(self.method)
        &&& uri_parts(self.target) is Some
        &&& names_lowercase(self.headers)
    }
}

/// An HTTP request: method, target, protocol version, headers and body.
#[derive(Debug, PartialEq, Eq)]
pub struct HttpRequest {
    method: String,
    target: String,
    path: String,
    query: Option<String>,
    version: HttpVersion,
    headers: HeaderMap,
    body: String,
}

impl View for HttpRequest {
    type V = RequestView;

    closed spec fn view(&self) -> RequestView {
        RequestView {
            method: self.method@,
            target: self.target@,
            version: self.version,
            headers: self.headers@,
            body: self.body@,
        }
    }
}

impl HttpRequest {
    #[verifier::type_invariant]
    pub closed spec fn well_formed(&self) -> bool {
        &&& self@.valid()
        &&& uri_parts(self.target@) == Some((self.path@, opt_view(self.query)))
    }

    /// The request with these parts. Header names are put in lower case.
    /// `None` where `method` is no token or `target` is no request target.
    pub fn new(
        method: &str,
        target: &str,
        version: HttpVersion,
        headers: &HeaderMap,
        body: String,
    ) -> (r: Option<HttpRequest>)
        ensures
            r is Some <==> is_token(method@) && uri_parts(target@) is Some,
            r matches Some(request) ==> request@ == (RequestView {
                method: method@,
                target: target@,
                version,
                headers: with_lowercase_names(headers@),
                body: body@,
            }),
    {
        if !method_is_valid(method) {
            return None;
        }
        let (path, query) = match read_target(target) {
            Some(parts) => parts,
            None => {
                return None;
            },
        };
        let mut lowered = HeaderMap::new();
        let mut i: usize = 0;
        while i < headers.len()
            invariant
                i <= headers@.len(),
                lowered@ == with_lowercase_names(headers@).take(i as int),
            decreases headers@.len() - i,
        {
            let name = to_lowercase(headers.name_at(i).as_str());
            lowered.append(name, headers.value_at(i).clone());
            proof {
                let all = with_lowercase_names(headers@);
                assert(all.take(i + 1) == all.take(i as int).push(all[i as int]));
            }
            i = i + 1;
        }
        proof {
            let all = with_lowercase_names(headers@);
            assert(all.take(headers@.len() as int) == all);
            assert forall|k: int| 0 <= k < all.len() implies (#[trigger] all[k]).0 == lowercase(
                all[k].0,
            ) by {
                lemma_lowercase_twice(headers@[k].0);
            }
        }
        Some(
            HttpRequest {
                method: method.to_owned(),
                target: target.to_owned(),
                path,
                query,
                version,
                headers: lowered,
                body,
            },
        )
    }

    /// The method.
    pub fn method(&self) -> (r: &String)
        ensures
            r@ == self@.method,
            self@.valid(),
    {
        proof {
            use_type_invariant(self);
        }
        &self.method
    }

    /// The target, as the request gave it.
    pub fn target(&self) -> (r: &String)
        ensures
            r@ == self@.target,
    {
        &self.target
    }

    /// The path of the target.
    pub fn path(&self) -> (r: &String)
        ensures
            r@ == self@.path(),
    {
        proof {
            use_type_invariant(self);
        }
        &self.path
    }

    /// The query of the target, if it has one.
    pub fn query(&self) -> (r: Option<&String>)
        ensures
            match r {
                Some(q) => self@.query() == Some(q@),
                None => self@.query() is None,
            },
    {
        proof {
            use_type_invariant(self);
        }
        self.query.as_ref()
    }

    /// The protocol version.
    pub fn version(&self) -> (r: HttpVersion)
        ensures
            r == self@.version,
    {
        self.version
    }

    /// The headers, their names in lower case.
    pub fn headers(&self) -> (r: &HeaderMap)
        ensures
            r@ == self@.headers,
            names_lowercase(r@),
    {
        proof {
            use_type_invariant(self);
        }
        &self.headers
    }

    /// The body.
    pub fn body(&self) -> (r: &String)
        ensures
            r@ == self@.body,
    {
        &self.body
    }

    /// The value of the first header named `name`, whatever the case of the
    /// letters in `name`.
    pub fn header(&self, name: &str) -> (r: Option<&String>)
        ensures
            match r {
                Some(value) => lookup(self@.headers, lowercase(name@)) == Some(value@),
                None => lookup(self@.headers, lowercase(name@)) is None,
            },
    {
        let lowered = to_lowercase(name);
        self.headers.get(lowered.as_str())
    }
}

impl Clone for HttpRequest {
    fn clone(&self) -> (r: HttpRequest)
        ensures
            r@ == self@,
    {
        proof {
            use_type_invariant(self);
        }
        let query = match &self.query {
            Some(q) => Some(q.clone()),
            None => None,
        };
        HttpRequest {
            method: self.method.clone(),
            target: self.target.clone(),
            path: self.path.clone(),
            query,
            version: self.version,
            headers: self.headers.clone(),
            body: self.body.clone(),
        }
    }
}

/// Putting a text in lower case twice changes nothing more.
pub proof fn lemma_lowercase_twice(s: Seq<char>)
    ensures
        lowercase(lowercase(s)) == lowercase(s),
{
    assert(lowercase(lowercase(s)) =~= lowercase(s));
}

/// A character that is text in a header value: a tab, or a visible ASCII
/// character, the space among them.
pub open spec fn is_text_char(c: char) -> bool {
    c == '\t' || ' ' <= c <= '~'
}

/// Whether a header value is text: every character of it is.
pub open spec fn is_text(value: Seq<char>) -> bool {
    forall|i: int| 0 <= i < value.len() ==> is_text_char(#[trigger] value[i])
}

/// Tests whether a header value is text.
pub fn value_is_text(value: &str) -> (r: bool)
    ensures
        r == is_text(value@),
{
    let chars = to_chars(value);
    let mut i: usize = 0;
    while i < chars.len()
        invariant
            i <= chars@.len(),
            chars@ == value@,
            forall|j: int| 0 <= j < i ==> is_text_char(#[trigger] value@[j]),
        decreases chars.len() - i,
    {
        let c = chars[i];
        if !(c == '\t' || (' ' <= c && c <= '~')) {
            return false;
        }
        i = i + 1;
    }
    true
}

/// What a response holds.
pub struct ResponseView {
    pub status: u16,
    pub headers: Seq<(Seq<char>, Seq<char>)>,
    pub body: Seq<char>,
}

/// A header name as a response holds it: a name that `http` accepts, in
/// lower case.
pub open spec fn is_header_name(s: Seq<char>) -> bool {
    is_name(s) && s == lowercase(s)
}

/// A header name in lower case is a header name still.
pub proof fn lemma_lowercase_name(s: Seq<char>)
    requires
        is_name(s),
    ensures
        is_name(lowercase(s)),
{
    assert forall|i: int| 0 <= i < lowercase(s).len() implies is_token_char(
        #[trigger] lowercase(s)[i],
    ) by {
        assert(is_token_char(s[i]));
    }
}

impl ResponseView {
    /// Whether the response can be written out: every header value of it is
    /// text.
    pub open spec fn representable(self) -> bool {
        forall|i: int| 0 <= i < self.headers.len() ==> is_text((#[trigger] self.headers[i]).1)
    }

    /// What a response must satisfy: the status is a status code, each
    /// header name is a token in lower case, and each header value is one that
    /// `http::HeaderValue` accepts.
    pub open spec fn valid(self) -> bool {
        &&& 100 <= self.status <= 999
        &&& forall|i: int|
            0 <= i < self.headers.len() ==> is_header_name((#[trigger] self.headers[i]).0)
                && is_header_value(self.headers[i].1)
    }
}

/// An HTTP response: status code, headers in the order in which they were
/// added, and body.
#[derive(Debug, PartialEq, Eq)]
pub struct HttpResponse {
    status: StatusCode,
    headers: HeaderMap,
    body: String,
}

impl View for HttpResponse {
    type V = ResponseView;

    closed spec fn view(&self) -> ResponseView {
        ResponseView { status: self.status@, headers: self.headers@, body: self.body@ }
    }
}

impl HttpResponse {
    #[verifier::type_invariant]
    pub open spec fn well_formed(&self) -> bool {
        self@.valid()
    }

    /// The response with this status, no header and an empty body.
    pub fn new(status: StatusCode) -> (r: HttpResponse)
        ensures
            r@ == (ResponseView {
                status: status@,
                headers: Seq::empty(),
                body: Seq::empty(),
            }),
    {
        proof {
            use_type_invariant(status);
        }
        HttpResponse { status, headers: HeaderMap::new(), body: String::new() }
    }

    /// This response with one more header at the end, its name in lower
    /// case. `None` where `name` is no header name or `value` no header value.
    pub fn with_header(self, name: &str, value: &str) -> (r: Option<HttpResponse>)
        ensures
            r is Some <==> is_name(name@) && is_header_value(value@),
            r matches Some(response) ==> response@ == (ResponseView {
                headers: self@.headers.push((lowercase(name@), value@)),
                ..self@
            }),
    {
        proof {
            use_type_invariant(&self);
            lemma_lowercase_twice(name@);
            if is_name(name@) {
                lemma_lowercase_name(name@);
            }
        }
        let lowered = match normalized_name(name) {
            Some(lowered) => lowered,
            None => {
                return None;
            },
        };
        if !value_is_valid(value) {
            return None;
        }
        let mut headers = self.headers;
        headers.append(lowered, value.to_owned());
        Some(HttpResponse { status: self.status, headers, body: self.body })
    }

    /// This response with `body` in place of its body.
    pub fn with_body(self, body: String) -> (r: HttpResponse)
        ensures
            r@ == (ResponseView { body: body@, ..self@ }),
    {
        proof {
            use_type_invariant(&self);
        }
        HttpResponse { status: self.status, headers: self.headers, body }
    }

    /// The status code.
    pub fn status(&self) -> (r: StatusCode)
        ensures
            r@ == self@.status,
            self@.valid(),
    {
        proof {
            use_type_invariant(self);
        }
        self.status
    }

    /// The headers, in the order in which they were added.
    pub fn headers(&self) -> (r: &HeaderMap)
        ensures
            r@ == self@.headers,
    {
        &self.headers
    }

    /// The body.
    pub fn body(&self) -> (r: &String)
        ensures
            r@ == self@.body,
    {
        &self.body
    }

    /// The value of the first header named `name`, whatever the case of the
    /// letters in `name`.
    pub fn header(&self, name: &str) -> (r: Option<&String>)
        ensures
            match r {
                Some(value) => lookup(self@.headers, lowercase(name@)) == Some(value@),
                None => lookup(self@.headers, lowercase(name@)) is None,
            },
    {
        let lowered = to_lowercase(name);
        self.headers.get(lowered.as_str())
    }

    /// Whether the response can be written out: every header value of it is
    /// text.
    pub fn is_representable(&self) -> (r: bool)
        ensures
            r == self@.representable(),
    {
        let mut i: usize = 0;
        while i < self.headers.len()
            invariant
                i <= self@.headers.len(),
                self.headers@ == self@.headers,
                forall|j: int| 0 <= j < i ==> is_text((#[trigger] self@.headers[j]).1),
            decreases self@.headers.len() - i,
        {
            if !value_is_text(self.headers.value_at(i).as_str()) {
                return false;
            }
            i = i + 1;
        }
        true
    }
}

impl Clone for HttpResponse {
    fn clone(&self) -> (r: HttpResponse)
        ensures
            r@ == self@,
    {
        proof {
            use_type_invariant(self);
        }
        HttpResponse {
            status: self.status,
            headers: self.headers.clone(),
            body: self.body.clone(),
        }
    }
}

} // verus!
