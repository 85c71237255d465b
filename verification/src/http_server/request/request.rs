//! Reading a request from the bytes of one read, and the interface of the
//! handlers that answer requests.

use crate::bridge::{is_token, text_of_bytes, uri_parts};
use crate::message::{
    with_lowercase_names, HeaderMap, HttpRequest, HttpResponse, HttpVersion, RequestView,
    ResponseView, StatusCode,
};
use crate::text::{
    all_have_colon, concat, filled, has_char, has_header_section, header_of, headers_of,
    is_whitespace, join_lines, leading, lemma_lines_first, lemma_three_words,
    lemma_leading, lemma_leading_is, lemma_trailing_is, lines, same_text, split_first,
    split_lines, split_words, to_chars, to_string, trailing, views, words,
};
use vstd::prelude::*;
use vstd::slice::{slice_subrange, slice_to_vec};
use vstd::utf8::{decode_utf8, encode_utf8_decode_utf8, valid_utf8};

verus! {

/// The most bytes that a request may have.
pub const BUFFER_SIZE: usize = 8192;

/// The zero bytes.
pub open spec fn nul() -> spec_fn(u8) -> bool {
    |b: u8| b == 0
}

/// `bytes` without the zero bytes at its end.
pub open spec fn without_padding(bytes: Seq<u8>) -> Seq<u8> {
    bytes.take(bytes.len() - trailing(bytes, nul()))
}

/// The protocol version that a version token names.
pub open spec fn version_of(token: Seq<char>) -> Option<HttpVersion> {
    if token == "HTTP/0.9"@ {
        Some(HttpVersion::Http09)
    } else if token == "HTTP/1.0"@ {
        Some(HttpVersion::Http10)
    } else if token == "HTTP/1.1"@ {
        Some(HttpVersion::Http11)
    } else if token == "HTTP/2"@ {
        Some(HttpVersion::Http2)
    } else if token == "HTTP/3"@ {
        Some(HttpVersion::Http3)
    } else {
        None
    }
}

/// The request that a text states, or the status that refuses it.
///
/// The first line holds three words: method, target and version. The lines
/// after it, up to the first empty one, are the headers; each holds a colon.
/// The lines after the empty one, joined without their line endings, are the
/// body. A text without lines, a first line of another shape, an unknown
/// version, a method that is no token, a target that is no request target, a
/// header line without a colon and a header section that no empty line ends
/// are all refused with 400.
pub open spec fn request_of_text(text: Seq<char>) -> Result<RequestView, u16> {
    let all = lines(text);
    let start = words(all[0]);
    let rest = all.skip(1);
    let count = leading(rest, filled()) as int;
    if all.len() == 0 || start.len() != 3 || version_of(start[2]) is None || !has_header_section(
        rest,
    ) || !is_token(start[0]) || uri_parts(start[1]) is None {
        Err(400u16)
    } else {
        Ok(
            RequestView {
                method: start[0],
                target: start[1],
                version: version_of(start[2])->0,
                headers: with_lowercase_names(headers_of(rest.take(count))),
                body: concat(rest.skip(count + 1)),
            },
        )
    }
}

/// The request that the bytes of one read state, or the status that refuses
/// them. Zero bytes at the end are padding. More than `BUFFER_SIZE` bytes
/// are refused with 413, whatever they hold; bytes that are not UTF-8, with
/// 400.
pub open spec fn request_of(bytes: Seq<u8>) -> Result<RequestView, u16> {
    let data = without_padding(bytes);
    if data.len() > BUFFER_SIZE {
        Err(413u16)
    } else if !valid_utf8(data) {
        Err(400u16)
    } else {
        request_of_text(decode_utf8(data))
    }
}

/// Whether `r` is the outcome `expected`: the same request, or the same
/// status.
pub open spec fn is_outcome(
    r: Result<HttpRequest, StatusCode>,
    expected: Result<RequestView, u16>,
) -> bool {
    match r {
        Ok(request) => expected == Ok::<RequestView, u16>(request@),
        Err(status) => expected == Err::<RequestView, u16>(status@),
    }
}

/// Reads the protocol version from its token.
fn read_version(token: &str) -> (r: Option<HttpVersion>)
    ensures
        r == version_of(token@),
{
    if same_text(token, "HTTP/0.9") {
        Some(HttpVersion::Http09)
    } else if same_text(token, "HTTP/1.0") {
        Some(HttpVersion::Http10)
    } else if same_text(token, "HTTP/1.1") {
        Some(HttpVersion::Http11)
    } else if same_text(token, "HTTP/2") {
        Some(HttpVersion::Http2)
    } else if same_text(token, "HTTP/3") {
        Some(HttpVersion::Http3)
    } else {
        None
    }
}

/// Reads a request from a text.
#[verifier::loop_isolation(false)]
pub fn parse_text(text: &str) -> (r: Result<HttpRequest, StatusCode>)
    ensures
        is_outcome(r, request_of_text(text@)),
{
    let chars = to_chars(text);
    let all = split_lines(chars.as_slice());
    if all.len() == 0 {
        return Err(StatusCode::bad_request());
    }
    let start = split_words(all[0]);
    if start.len() != 3 {
        return Err(StatusCode::bad_request());
    }
    let method = to_string(start[0]);
    let target = to_string(start[1]);
    let token = to_string(start[2]);
    let version = match read_version(token.as_str()) {
        Some(version) => version,
        None => {
            return Err(StatusCode::bad_request());
        },
    };
    let ghost rest = views(all@).skip(1);
    let mut headers = HeaderMap::new();
    let mut i: usize = 1;
    proof {
        assert(headers_of(rest.take(0)) == Seq::<(Seq<char>, Seq<char>)>::empty());
    }
    while i < all.len() && all[i].len() > 0
        invariant
            1 <= i <= all@.len(),
            rest == views(all@).skip(1),
            forall|j: int| 0 <= j < i - 1 ==> filled()(#[trigger] rest[j]),
            all_have_colon(rest.take(i - 1)),
            headers@ == headers_of(rest.take(i - 1)),
        decreases all.len() - i,
    {
        let ghost section = rest.take(i - 1);
        let ghost line = rest[i - 1];
        proof {
            assert(line == all@[i as int]@);
            assert(filled()(line));
        }
        match split_first(all[i], ':') {
            None => {
                proof {
                    lemma_leading(rest, filled());
                    let count = leading(rest, filled()) as int;
                    if count < rest.len() {
                        assert(count > i - 1);
                        assert(rest.take(count)[i - 1] == line);
                    }
                }
                return Err(StatusCode::bad_request());
            },
            Some((name, value)) => {
                headers.append(to_string(name), to_string(value));
                proof {
                    let next = rest.take(i as int);
                    assert(next == section.push(line));
                    assert(headers_of(next) == headers_of(section).push(header_of(line)));
                    assert forall|j: int| 0 <= j < next.len() implies has_char(
                        #[trigger] next[j],
                        ':',
                    ) by {
                        if j < section.len() {
                            assert(next[j] == section[j]);
                        }
                    }
                }
            },
        }
        i = i + 1;
    }
    if i >= all.len() {
        proof {
            lemma_leading_is(rest, filled(), rest.len() as int);
        }
        return Err(StatusCode::bad_request());
    }
    proof {
        assert(rest[i - 1] == all@[i as int]@);
        lemma_leading_is(rest, filled(), i - 1);
        assert(rest.skip(i as int) == views(all@).skip(i + 1));
    }
    let body = join_lines(&all, i + 1);
    match HttpRequest::new(method.as_str(), target.as_str(), version, &headers, body) {
        Some(request) => Ok(request),
        None => Err(StatusCode::bad_request()),
    }
}

/// Reads a request from the bytes of one read.
pub fn parse_request(buffer: &[u8]) -> (r: Result<HttpRequest, StatusCode>)
    ensures
        is_outcome(r, request_of(buffer@)),
{
    let mut end: usize = buffer.len();
    while end > 0 && buffer[end - 1] == 0
        invariant
            end <= buffer@.len(),
            forall|j: int| end <= j < buffer@.len() ==> nul()(#[trigger] buffer@[j]),
        decreases end,
    {
        end = end - 1;
    }
    proof {
        lemma_trailing_is(buffer@, nul(), buffer@.len() - end);
    }
    if end > BUFFER_SIZE {
        return Err(StatusCode::payload_too_large());
    }
    let data = slice_to_vec(slice_subrange(buffer, 0, end));
    proof {
        assert(data@ == without_padding(buffer@));
    }
    match text_of_bytes(data) {
        None => Err(StatusCode::bad_request()),
        Some(text) => {
            proof {
                encode_utf8_decode_utf8(text@);
            }
            parse_text(text.as_str())
        },
    }
}

/// What a read from a connection comes to: the request that the bytes
/// state, or the status to answer with. A read that failed is answered with
/// 500.
pub open spec fn loaded(received: Option<Seq<u8>>) -> Result<RequestView, u16> {
    match received {
        Some(bytes) => request_of(bytes),
        None => Err(500u16),
    }
}

/// Reads a request from what one read of a connection gave: the bytes read,
/// or `None` where the read failed.
pub fn load_request(received: Option<&[u8]>) -> (r: Result<HttpRequest, StatusCode>)
    ensures
        is_outcome(
            r,
            loaded(
                match received {
                    Some(buffer) => Some(buffer@),
                    None => None,
                },
            ),
        ),
{
    match received {
        Some(buffer) => parse_request(buffer),
        None => Err(StatusCode::internal_server_error()),
    }
}

/// The view of an optional response.
pub open spec fn answer_view(answer: Option<HttpResponse>) -> Option<ResponseView> {
    match answer {
        Some(response) => Some(response@),
        None => None,
    }
}

/// A handler of requests: it answers a request with a response, or declines
/// it.
pub trait RequestHandler: Sync + Send {
    /// Whether the handler may give `answer` to `request` from the address
    /// `remote_addr`. A handler that says nothing of its answers may give any:
    /// so it is for a handler whose answer depends on the world outside.
    open spec fn answers(
        &self,
        remote_addr: Seq<char>,
        request: RequestView,
        answer: Option<ResponseView>,
    ) -> bool {
        true
    }

    /// Answers `request`, which came from the address `remote_addr`, or
    /// declines it with `None`. `remote_addr` is empty where the address is
    /// not known.
    fn handle_request(&self, remote_addr: &str, request: &HttpRequest) -> (r: Option<HttpResponse>)
        ensures
            self.answers(remote_addr@, request@, answer_view(r)),
    ;
}

/// Bytes that do not end in padding and are more than `BUFFER_SIZE` are
/// refused with 413, whatever they hold: valid UTF-8 or not, a request or
/// not.
pub proof fn lemma_oversized_is_too_large(bytes: Seq<u8>)
    requires
        bytes.len() > BUFFER_SIZE,
        bytes.last() != 0,
    ensures
        request_of(bytes) == Err::<RequestView, u16>(413),
{
    assert(trailing(bytes, nul()) == 0);
    assert(bytes.take(bytes.len() as int) =~= bytes);
}

/// A version token is one word.
pub proof fn lemma_version_token_is_a_word(token: Seq<char>)
    requires
        version_of(token) is Some,
    ensures
        token.len() > 0,
        forall|i: int| 0 <= i < token.len() ==> !is_whitespace(#[trigger] token[i]),
{
    reveal_strlit("HTTP/0.9");
    reveal_strlit("HTTP/1.0");
    reveal_strlit("HTTP/1.1");
    reveal_strlit("HTTP/2");
    reveal_strlit("HTTP/3");
}

/// A token is one word.
pub proof fn lemma_token_is_a_word(token: Seq<char>)
    requires
        is_token(token),
    ensures
        token.len() > 0,
        forall|i: int| 0 <= i < token.len() ==> !is_whitespace(#[trigger] token[i]),
{
    assert forall|i: int| 0 <= i < token.len() implies !is_whitespace(#[trigger] token[i]) by {
        assert(crate::bridge::is_token_char(token[i]));
    }
}

/// A start line that holds a method, a target and a version token, with one
/// space between them.
pub open spec fn start_line(method: Seq<char>, target: Seq<char>, version: Seq<char>) -> Seq<
    char,
> {
    method + seq![' '] + target + seq![' '] + version
}

/// A well-formed start line is read back as it was written. Where the
/// method is a token, the target is a request target that holds no white
/// space, and the version token is one of the five, a text that begins with
/// that start line and goes on with a header section is a request with that
/// very method, target and version; its headers and its body are those of the
/// text after the start line.
pub proof fn lemma_start_line_is_reproduced(
    method: Seq<char>,
    target: Seq<char>,
    version: Seq<char>,
    rest: Seq<char>,
)
    requires
        is_token(method),
        uri_parts(target) is Some,
        target.len() > 0,
        forall|i: int| 0 <= i < target.len() ==> !is_whitespace(#[trigger] target[i]),
        version_of(version) is Some,
        has_header_section(lines(rest)),
    ensures
        request_of_text(start_line(method, target, version) + seq!['\r', '\n'] + rest) == Ok::<
            RequestView,
            u16,
        >(
            RequestView {
                method,
                target,
                version: version_of(version)->0,
                headers: with_lowercase_names(
                    headers_of(lines(rest).take(leading(lines(rest), filled()) as int)),
                ),
                body: concat(lines(rest).skip(leading(lines(rest), filled()) as int + 1)),
            },
        ),
{
    let first = start_line(method, target, version);
    lemma_token_is_a_word(method);
    lemma_version_token_is_a_word(version);
    lemma_three_words(method, target, version);
    assert forall|i: int| 0 <= i < first.len() implies #[trigger] first[i] != '\n' by {
        if i < method.len() {
            assert(first[i] == method[i]);
        } else if i == method.len() {
        } else if i < method.len() + 1 + target.len() {
            assert(first[i] == target[i - method.len() - 1]);
        } else if i == method.len() + 1 + target.len() {
        } else {
            assert(first[i] == version[i - method.len() - target.len() - 2]);
        }
    }
    lemma_lines_first(first, rest);
    let all = lines(first + seq!['\r', '\n'] + rest);
    assert(all[0] == first);
    assert(all.skip(1) =~= lines(rest));
}

/// The bytes of a text that is short enough and does not end in padding
/// state what the text states.
pub proof fn lemma_request_of_encoded_text(text: Seq<char>)
    requires
        vstd::utf8::encode_utf8(text).len() <= BUFFER_SIZE,
        vstd::utf8::encode_utf8(text).len() > 0 ==> vstd::utf8::encode_utf8(text).last() != 0,
    ensures
        request_of(vstd::utf8::encode_utf8(text)) == request_of_text(text),
{
    let bytes = vstd::utf8::encode_utf8(text);
    vstd::utf8::encode_utf8_valid_utf8(text);
    encode_utf8_decode_utf8(text);
    assert(trailing(bytes, nul()) == 0);
    assert(bytes.take(bytes.len() as int) =~= bytes);
}

} // verus!
