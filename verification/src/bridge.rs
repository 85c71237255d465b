//! What this library takes from the `http` crate and from `std` without
//! proof. Each function here makes one outside call; its contract restates
//! what that call is known to do, and is believed, not verified.

use crate::text::lowercase;
use vstd::prelude::*;
use vstd::utf8::{encode_utf8, valid_utf8};

verus! {

/// The characters of a token: letters, digits, and the marks
/// ``! # $ % & ' * + - . ^ _ ` | ~``.
pub open spec fn is_token_char(c: char) -> bool {
    ||| 'a' <= c <= 'z'
    ||| 'A' <= c <= 'Z'
    ||| '0' <= c <= '9'
    ||| c == '!'
    ||| c == '#'
    ||| c == '$'
    ||| c == '%'
    ||| c == '&'
    ||| c == '\''
    ||| c == '*'
    ||| c == '+'
    ||| c == '-'
    ||| c == '.'
    ||| c == '^'
    ||| c == '_'
    ||| c == '`'
    ||| c == '|'
    ||| c == '~'
}

/// A token: one or more token characters.
pub open spec fn is_token(s: Seq<char>) -> bool {
    s.len() > 0 && forall|i: int| 0 <= i < s.len() ==> is_token_char(#[trigger] s[i])
}

/// The longest header name that `http` accepts, in bytes.
pub const MAX_HEADER_NAME_LEN: usize = 65535;

/// A name that `http` accepts as a header name, in any case of its letters:
/// a token of at most `MAX_HEADER_NAME_LEN` characters.
pub open spec fn is_name(s: Seq<char>) -> bool {
    is_token(s) && s.len() <= MAX_HEADER_NAME_LEN
}

/// A character that may stand in a header value: a tab, or any character
/// from the space on but for DEL.
pub open spec fn is_value_char(c: char) -> bool {
    c == '\t' || (' ' <= c && c != '\x7f')
}

/// A header value: every character of it may stand in one.
pub open spec fn is_header_value(s: Seq<char>) -> bool {
    forall|i: int| 0 <= i < s.len() ==> is_value_char(#[trigger] s[i])
}

/// An ASCII digit.
pub open spec fn is_digit(c: char) -> bool {
    '0' <= c <= '9'
}

/// The number that a status code of three digits stands for, the first of
/// them not zero. `None` for any other text.
pub open spec fn status_number(s: Seq<char>) -> Option<u16> {
    if s.len() == 3 && is_digit(s[0]) && s[0] != '0' && is_digit(s[1]) && is_digit(s[2]) {
        Some(((s[0] as u8 - 48) * 100 + (s[1] as u8 - 48) * 10 + (s[2] as u8 - 48)) as u16)
    } else {
        None
    }
}

/// The path and the query that `http::Uri` finds in a request target.
/// `None` for a target that it does not accept.
pub uninterp spec fn uri_parts(target: Seq<char>) -> Option<(Seq<char>, Option<Seq<char>>)>;

/// The reason phrase that `http` keeps for a status code. `None` for a code
/// that it has no phrase for.
pub uninterp spec fn canonical_reason(code: u16) -> Option<Seq<char>>;

/// The view of an optional string.
pub open spec fn opt_view(s: Option<String>) -> Option<Seq<char>> {
    match s {
        Some(s) => Some(s@),
        None => None,
    }
}

/// `http::Method::from_bytes` on the bytes of `token`. It accepts a method
/// that is not empty and whose bytes are all token characters, of any length,
/// and refuses every other.
#[verifier::external_body]
pub(crate) fn method_is_valid(token: &str) -> (r: bool)
    ensures
        r == is_token(token@),
{
    http::Method::from_bytes(token.as_bytes()).is_ok()
}

/// `http::Uri`'s `from_str` on `target`, then `Uri::path` and `Uri::query`.
/// The three depend on the text of the target alone; what they give is
/// named, not restated.
#[verifier::external_body]
pub(crate) fn read_target(target: &str) -> (r: Option<(String, Option<String>)>)
    ensures
        match r {
            Some((path, query)) => uri_parts(target@) == Some((path@, opt_view(query))),
            None => uri_parts(target@) is None,
        },
{
    match target.parse::<http::Uri>() {
        Ok(uri) => {
            let query = match uri.query() {
                Some(q) => Some(q.to_string()),
                None => None,
            };
            Some((uri.path().to_string(), query))
        },
        Err(_) => None,
    }
}

/// `http::HeaderName::from_bytes` on the bytes of `name`, then
/// `HeaderName::as_str`. It accepts a name of 1 to 65535 bytes that are all
/// token characters, and gives it with its letters `A` to `Z` in lower case;
/// it refuses every other. A token is made of ASCII characters, so it has as
/// many bytes as characters.
#[verifier::external_body]
pub(crate) fn normalized_name(name: &str) -> (r: Option<String>)
    ensures
        r is Some <==> is_name(name@),
        r matches Some(lowered) ==> lowered@ == lowercase(name@),
{
    match http::HeaderName::from_bytes(name.as_bytes()) {
        Ok(found) => Some(found.as_str().to_string()),
        Err(_) => None,
    }
}

/// `http::HeaderValue::from_str` on `value`. It accepts a value whose bytes
/// are all a tab, or at least 32 and not 127, and refuses every other. In a
/// string a byte under 128 is a character of its own and every byte of
/// another character is 128 or more, so the same holds character by
/// character.
#[verifier::external_body]
pub(crate) fn value_is_valid(value: &str) -> (r: bool)
    ensures
        r == is_header_value(value@),
{
    http::HeaderValue::from_str(value).is_ok()
}

/// `http::StatusCode::from_bytes` on the bytes of `text`, then
/// `StatusCode::as_u16`. It accepts exactly three ASCII digits of which the
/// first is not zero, and gives the number that they spell.
#[verifier::external_body]
pub(crate) fn read_status(text: &str) -> (r: Option<u16>)
    ensures
        r == status_number(text@),
{
    match http::StatusCode::from_bytes(text.as_bytes()) {
        Ok(status) => Some(status.as_u16()),
        Err(_) => None,
    }
}

/// `http::StatusCode::from_u16` on `code`, then
/// `StatusCode::canonical_reason`: the phrase from `http`'s table of status
/// codes. Every phrase in that table is made of letters, spaces, hyphens and
/// apostrophes, so none holds a line feed.
#[verifier::external_body]
pub(crate) fn reason_phrase(code: u16) -> (r: Option<String>)
    requires
        100 <= code <= 999,
    ensures
        opt_view(r) == canonical_reason(code),
        r matches Some(phrase) ==> !phrase@.contains('\n'),
{
    match http::StatusCode::from_u16(code) {
        Ok(status) => match status.canonical_reason() {
            Some(phrase) => Some(phrase.to_string()),
            None => None,
        },
        Err(_) => None,
    }
}

/// `String::push`: the string afterwards is the string before with `c` at
/// its end.
pub assume_specification[ String::push ](s: &mut String, c: char)
    ensures
        final(s)@ == old(s)@.push(c),
;

/// `String::from_utf8` on `bytes`. It gives the string whose bytes are
/// `bytes` where they are valid UTF-8, and fails where they are not.
#[verifier::external_body]
pub(crate) fn text_of_bytes(bytes: Vec<u8>) -> (r: Option<String>)
    ensures
        r is Some <==> valid_utf8(bytes@),
        r matches Some(text) ==> encode_utf8(text@) == bytes@,
{
    String::from_utf8(bytes).ok()
}

} // verus!
