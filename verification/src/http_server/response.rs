//! Building responses and writing them out.

use crate::bridge::{
    canonical_reason, is_digit, is_header_value, is_token, is_token_char, is_value_char,
    reason_phrase, status_number,
};
use crate::bridge::read_status;
use crate::message::{HeaderMap, HttpResponse, ResponseView, StatusCode};
use crate::text::{
    cut, decimal, digit, filled, leading, lemma_leading, lemma_leading_is, lemma_lines_first,
    lines, other_than, push_decimal, split_first, split_lines, to_chars, to_string, views,
};
use vstd::slice::slice_subrange;
use vstd::prelude::*;
use vstd::string::StringExecFns;

verus! {

/// The response with status `status`, no header and an empty body.
pub open spec fn error_response(status: u16) -> ResponseView {
    ResponseView { status, headers: Seq::empty(), body: Seq::empty() }
}

/// Generates an empty HTTP response with a given status code.
pub fn generate_error_response(status_code: StatusCode) -> (r: HttpResponse)
    ensures
        r@ == error_response(status_code@),
{
    HttpResponse::new(status_code)
}

/// The reason phrase that goes out with `status`: the phrase that `http`
/// keeps for it, or nothing where it keeps none.
pub open spec fn reason_of(status: u16) -> Seq<char> {
    match canonical_reason(status) {
        Some(phrase) => phrase,
        None => Seq::empty(),
    }
}

/// The status line for `status` with the phrase `reason`, without its line
/// ending. The version is 1.1 whatever the request said.
pub open spec fn status_line(status: u16, reason: Seq<char>) -> Seq<char> {
    "HTTP/1.1 "@ + decimal(status as nat) + " "@ + reason
}

/// One header as it is written out.
pub open spec fn header_line(header: (Seq<char>, Seq<char>)) -> Seq<char> {
    header.0 + ": "@ + header.1 + "\r\n"@
}

/// The headers as they are written out, one after the other in their
/// stored order.
pub open spec fn header_block(headers: Seq<(Seq<char>, Seq<char>)>) -> Seq<char>
    decreases headers.len(),
{
    if headers.len() == 0 {
        Seq::empty()
    } else {
        header_block(headers.drop_last()) + header_line(headers.last())
    }
}

/// The text of `response` with the phrase `reason`: the status line, the
/// headers, an empty line, and the body as it is.
pub open spec fn wire_text(response: ResponseView, reason: Seq<char>) -> Seq<char> {
    status_line(response.status, reason) + "\r\n"@ + header_block(response.headers) + "\r\n"@
        + response.body
}

/// The text that goes out for `response`.
pub open spec fn response_text(response: ResponseView) -> Seq<char> {
    wire_text(response, reason_of(response.status))
}

/// Writes `response` out with the reason phrase `reason`. The response must
/// be one that can be written out.
pub fn write_response(response: &HttpResponse, reason: &str) -> (r: String)
    requires
        response@.representable(),
    ensures
        r@ == wire_text(response@, reason@),
{
    let status = response.status();
    let mut out = String::from_str("HTTP/1.1 ");
    push_decimal(&mut out, status.as_u16() as usize);
    out.append(" ");
    out.append(reason);
    out.append("\r\n");
    let ghost head = out@;
    let headers = response.headers();
    let mut i: usize = 0;
    proof {
        assert(headers@.take(0) =~= Seq::<(Seq<char>, Seq<char>)>::empty());
        assert(out@ =~= head + header_block(headers@.take(0)));
    }
    while i < headers.len()
        invariant
            i <= headers@.len(),
            out@ == head + header_block(headers@.take(i as int)),
        decreases headers@.len() - i,
    {
        out.append(headers.name_at(i).as_str());
        out.append(": ");
        out.append(headers.value_at(i).as_str());
        out.append("\r\n");
        proof {
            let next = headers@.take(i + 1);
            assert(next.drop_last() =~= headers@.take(i as int));
            assert(next.last() == headers@[i as int]);
            assert(out@ =~= head + header_block(next));
        }
        i = i + 1;
    }
    proof {
        assert(headers@.take(headers@.len() as int) =~= headers@);
    }
    out.append("\r\n");
    out.append(response.body().as_str());
    proof {
        assert(out@ =~= wire_text(response@, reason@));
    }
    out
}

/// Converts a structured HTTP response into the text data to be sent back to
/// the requesting client. The response must be one that can be written out.
/// The text states the status and the headers of the response: reading it
/// back gives them again.
pub fn response_to_string(response: HttpResponse) -> (r: String)
    requires
        response@.representable(),
    ensures
        r@ == response_text(response@),
        head_of(r@) == Some((response@.status, response@.headers)),
{
    let status = response.status();
    let reason = match reason_phrase(status.as_u16()) {
        Some(phrase) => phrase,
        None => String::new(),
    };
    proof {
        lemma_valid_is_single_lines(response@);
        lemma_head_round_trip(response@, reason@);
    }
    write_response(&response, reason.as_str())
}

/// What goes out for `response`: its text, or nothing where it cannot be
/// written out.
pub open spec fn serialized(response: ResponseView) -> Option<Seq<char>> {
    if response.representable() {
        Some(response_text(response))
    } else {
        None
    }
}

/// Converts a response into the text to be sent, if it can be written out.
pub fn serialize(response: HttpResponse) -> (r: Option<String>)
    ensures
        crate::bridge::opt_view(r) == serialized(response@),
{
    if response.is_representable() {
        Some(response_to_string(response))
    } else {
        None
    }
}

/// The status that a status line states: the line begins with `HTTP/1.1`, a
/// space, a status code of three digits and a space.
pub open spec fn status_of_line(line: Seq<char>) -> Option<u16> {
    if line.len() >= 13 && line.take(9) == "HTTP/1.1 "@ && line[12] == ' ' {
        status_number(line.subrange(9, 12))
    } else {
        None
    }
}

/// The header that a written line states: the name stands before the first
/// colon, the value after the space that follows the colon.
pub open spec fn written_header(line: Seq<char>) -> Option<(Seq<char>, Seq<char>)> {
    match cut(line, ':') {
        Some((name, rest)) => if rest.len() > 0 && rest[0] == ' ' {
            Some((name, rest.skip(1)))
        } else {
            None
        },
        None => None,
    }
}

/// Whether each of `section` states a header.
pub open spec fn all_state_headers(section: Seq<Seq<char>>) -> bool {
    forall|i: int| 0 <= i < section.len() ==> written_header(#[trigger] section[i]) is Some
}

/// The status and the headers that the text of a response states: the
/// status of its first line, and the headers of the lines from there to the
/// first empty line. `None` where the text does not begin so.
pub open spec fn head_of(text: Seq<char>) -> Option<(u16, Seq<(Seq<char>, Seq<char>)>)> {
    let all = lines(text);
    let rest = all.skip(1);
    let count = leading(rest, filled()) as int;
    if all.len() > 0 && status_of_line(all[0]) is Some && count < rest.len() && all_state_headers(
        rest.take(count),
    ) {
        Some((status_of_line(all[0])->0, Seq::new(count as nat, |i: int| written_header(rest[i])->0)))
    } else {
        None
    }
}

/// A header without its line ending.
pub open spec fn header_text_line(header: (Seq<char>, Seq<char>)) -> Seq<char> {
    header.0 + seq![':', ' '] + header.1
}

/// The headers without their line endings, one line each.
pub open spec fn header_text_lines(headers: Seq<(Seq<char>, Seq<char>)>) -> Seq<Seq<char>> {
    Seq::new(headers.len(), |i: int| header_text_line(headers[i]))
}

/// Whether no name and no value of `headers` holds a line feed.
pub open spec fn single_lines(headers: Seq<(Seq<char>, Seq<char>)>) -> bool {
    forall|i: int|
        0 <= i < headers.len() ==> !(#[trigger] headers[i]).0.contains('\n')
            && !headers[i].1.contains('\n')
}

/// The lines of written headers, followed by more text, are one line for
/// each header and then the lines of that text.
pub proof fn lemma_lines_of_header_block(headers: Seq<(Seq<char>, Seq<char>)>, tail: Seq<char>)
    requires
        single_lines(headers),
    ensures
        lines(header_block(headers) + tail) == header_text_lines(headers) + lines(tail),
    decreases headers.len(),
{
    reveal_strlit(": ");
    reveal_strlit("\r\n");
    if headers.len() == 0 {
        assert(header_block(headers) + tail =~= tail);
        assert(header_text_lines(headers) + lines(tail) =~= lines(tail));
    } else {
        let init = headers.drop_last();
        let last = headers.last();
        let line = header_text_line(last);
        assert(single_lines(init)) by {
            assert forall|i: int| 0 <= i < init.len() implies !(#[trigger] init[i]).0.contains(
                '\n',
            ) && !init[i].1.contains('\n') by {
                assert(init[i] == headers[i]);
            }
        }
        assert(header_line(last) =~= line + seq!['\r', '\n']);
        assert(header_block(headers) + tail =~= header_block(init) + (line + seq!['\r', '\n']
            + tail));
        lemma_lines_of_header_block(init, line + seq!['\r', '\n'] + tail);
        assert forall|i: int| 0 <= i < line.len() implies #[trigger] line[i] != '\n' by {
            if i < last.0.len() {
                assert(last.0[i] == line[i]);
                assert(last.0.contains(line[i]));
            } else if i >= last.0.len() + 2 {
                assert(last.1[i - last.0.len() - 2] == line[i]);
                assert(last.1.contains(line[i]));
            }
        }
        lemma_lines_first(line, tail);
        assert(header_text_lines(init) + (seq![line] + lines(tail)) =~= header_text_lines(headers)
            + lines(tail));
    }
}

/// A status code in decimal is three digits that spell it.
pub proof fn lemma_status_digits(status: u16)
    requires
        100 <= status <= 999,
    ensures
        decimal(status as nat).len() == 3,
        status_number(decimal(status as nat)) == Some(status),
        forall|i: int| 0 <= i < 3 ==> is_digit(#[trigger] decimal(status as nat)[i]),
{
    let n = status as nat;
    let tens = n / 10;
    let hundreds = tens / 10;
    assert(hundreds < 10 && hundreds >= 1);
    assert(decimal(hundreds) =~= seq![digit(hundreds as int)]);
    assert(decimal(tens) =~= seq![digit(hundreds as int), digit((tens % 10) as int)]);
    assert(decimal(n) =~= seq![
        digit(hundreds as int),
        digit((tens % 10) as int),
        digit((n % 10) as int),
    ]);
    let text = decimal(n);
    assert(text[0] as u8 == 48 + hundreds);
    assert(text[1] as u8 == 48 + tens % 10);
    assert(text[2] as u8 == 48 + n % 10);
    assert(hundreds * 100 + (tens % 10) * 10 + n % 10 == n);
}

/// A written header line states the header that it was written from, if the
/// name holds no colon.
pub proof fn lemma_written_header(header: (Seq<char>, Seq<char>))
    requires
        !header.0.contains(':'),
    ensures
        written_header(header_text_line(header)) == Some(header),
        header_text_line(header).len() > 0,
{
    let line = header_text_line(header);
    let n = header.0.len() as int;
    assert forall|j: int| 0 <= j < n implies other_than(':')(#[trigger] line[j]) by {
        assert(line[j] == header.0[j]);
        assert(header.0.contains(line[j]));
    }
    assert(line[n] == ':');
    lemma_leading_is(line, other_than(':'), n);
    assert(line.take(n) =~= header.0);
    assert(line.skip(n + 1)[0] == ' ');
    assert(line.skip(n + 1).skip(1) =~= header.1);
}

/// Writing a response and reading the text back gives the status and the
/// headers that were written. This holds of every response whose header
/// names hold neither a colon nor a line feed and whose header values hold no
/// line feed, with every reason phrase that holds no line feed; the body is
/// no part of it.
pub proof fn lemma_head_round_trip(response: ResponseView, reason: Seq<char>)
    requires
        100 <= response.status <= 999,
        single_lines(response.headers),
        forall|i: int|
            0 <= i < response.headers.len() ==> !(#[trigger] response.headers[i]).0.contains(':'),
        !reason.contains('\n'),
    ensures
        head_of(wire_text(response, reason)) == Some((response.status, response.headers)),
{
    reveal_strlit("HTTP/1.1 ");
    reveal_strlit(" ");
    reveal_strlit("\r\n");
    let headers = response.headers;
    let first = status_line(response.status, reason);
    let number = decimal(response.status as nat);
    lemma_status_digits(response.status);
    let none = Seq::<char>::empty();
    let tail = seq!['\r', '\n'] + response.body;
    let text = wire_text(response, reason);
    assert(text =~= first + seq!['\r', '\n'] + (header_block(headers) + tail));
    assert forall|i: int| 0 <= i < first.len() implies #[trigger] first[i] != '\n' by {
        if 9 <= i < 12 {
            assert(first[i] == number[i - 9]);
            assert(is_digit(number[i - 9]));
        } else if i >= 13 {
            assert(first[i] == reason[i - 13]);
            assert(reason.contains(first[i]));
        }
    }
    lemma_lines_first(first, header_block(headers) + tail);
    lemma_lines_of_header_block(headers, tail);
    assert(tail =~= none + seq!['\r', '\n'] + response.body);
    lemma_lines_first(none, response.body);
    let written = header_text_lines(headers);
    let all = lines(text);
    let rest = all.skip(1);
    assert(rest =~= written + (seq![none] + lines(response.body)));
    assert forall|j: int| 0 <= j < written.len() implies filled()(#[trigger] rest[j]) by {
        assert(rest[j] == written[j]);
        lemma_written_header(headers[j]);
    }
    assert(rest[written.len() as int] == none);
    lemma_leading_is(rest, filled(), written.len() as int);
    assert(all[0] == first);
    assert(first.take(9) =~= "HTTP/1.1 "@);
    assert(first.subrange(9, 12) =~= number);
    assert(first[12] == ' ');
    let count = written.len() as int;
    assert forall|i: int| 0 <= i < count implies written_header(#[trigger] rest.take(count)[i])
        is Some by {
        assert(rest.take(count)[i] == written[i]);
        lemma_written_header(headers[i]);
    }
    assert(Seq::new(count as nat, |i: int| written_header(rest[i])->0) =~= headers) by {
        assert forall|i: int| 0 <= i < count implies written_header(rest[i])->0
            == #[trigger] headers[i] by {
            assert(rest[i] == written[i]);
            lemma_written_header(headers[i]);
        }
    }
}

/// A response that meets what responses must satisfy is made of single
/// lines, and no header name of it holds a colon.
pub proof fn lemma_valid_is_single_lines(response: ResponseView)
    requires
        response.valid(),
    ensures
        single_lines(response.headers),
        forall|i: int|
            0 <= i < response.headers.len() ==> !(#[trigger] response.headers[i]).0.contains(':'),
{
    assert forall|i: int| 0 <= i < response.headers.len() implies !(
    #[trigger] response.headers[i]).0.contains('\n') && !response.headers[i].1.contains('\n')
        && !response.headers[i].0.contains(':') by {
        let name = response.headers[i].0;
        let value = response.headers[i].1;
        assert(is_token(name));
        assert(is_header_value(value));
        if name.contains('\n') {
            let k = choose|k: int| 0 <= k < name.len() && name[k] == '\n';
            assert(is_token_char(name[k]));
        }
        if name.contains(':') {
            let k = choose|k: int| 0 <= k < name.len() && name[k] == ':';
            assert(is_token_char(name[k]));
        }
        if value.contains('\n') {
            let k = choose|k: int| 0 <= k < value.len() && value[k] == '\n';
            assert(is_value_char(value[k]));
        }
    }
}

/// Reads the status of a status line.
fn read_status_line(line: &[char]) -> (r: Option<StatusCode>)
    ensures
        match r {
            Some(status) => status_of_line(line@) == Some(status@),
            None => status_of_line(line@) is None,
        },
{
    let opening = to_chars("HTTP/1.1 ");
    proof {
        reveal_strlit("HTTP/1.1 ");
    }
    if line.len() < 13 || line[12] != ' ' {
        return None;
    }
    let mut i: usize = 0;
    while i < 9
        invariant
            i <= 9,
            line@.len() >= 13,
            opening@ == "HTTP/1.1 "@,
            opening@.len() == 9,
            line@.take(i as int) == opening@.take(i as int),
        decreases 9 - i,
    {
        if line[i] != opening[i] {
            proof {
                assert(line@.take(9)[i as int] != opening@[i as int]);
            }
            return None;
        }
        proof {
            assert(line@.take(i + 1) =~= line@.take(i as int).push(line@[i as int]));
            assert(opening@.take(i + 1) =~= opening@.take(i as int).push(opening@[i as int]));
        }
        i = i + 1;
    }
    proof {
        assert(opening@.take(9) =~= opening@);
    }
    let digits = to_string(slice_subrange(line, 9, 12));
    match read_status(digits.as_str()) {
        Some(code) => StatusCode::from_u16(code),
        None => None,
    }
}

/// Reads the header that a written line states.
fn read_written_header(line: &[char]) -> (r: Option<(String, String)>)
    ensures
        match r {
            Some((name, value)) => written_header(line@) == Some((name@, value@)),
            None => written_header(line@) is None,
        },
{
    match split_first(line, ':') {
        Some((name, rest)) => {
            if rest.len() > 0 && rest[0] == ' ' {
                proof {
                    assert(rest@.subrange(1, rest@.len() as int) =~= rest@.skip(1));
                }
                Some((to_string(name), to_string(slice_subrange(rest, 1, rest.len()))))
            } else {
                None
            }
        },
        None => None,
    }
}

/// Reads the status and the headers back from the text of a response.
#[verifier::loop_isolation(false)]
pub fn read_response_head(text: &str) -> (r: Option<(StatusCode, HeaderMap)>)
    ensures
        match r {
            Some((status, headers)) => head_of(text@) == Some((status@, headers@)),
            None => head_of(text@) is None,
        },
{
    let chars = to_chars(text);
    let all = split_lines(chars.as_slice());
    if all.len() == 0 {
        return None;
    }
    let status = match read_status_line(all[0]) {
        Some(status) => status,
        None => {
            return None;
        },
    };
    let ghost rest = views(all@).skip(1);
    let mut headers = HeaderMap::new();
    let mut i: usize = 1;
    while i < all.len() && all[i].len() > 0
        invariant
            1 <= i <= all@.len(),
            forall|j: int| 0 <= j < i - 1 ==> filled()(#[trigger] rest[j]),
            all_state_headers(rest.take(i - 1)),
            headers@ == Seq::new((i - 1) as nat, |k: int| written_header(rest[k])->0),
        decreases all.len() - i,
    {
        let ghost section = rest.take(i - 1);
        let ghost line = rest[i - 1];
        let ghost before = headers@;
        proof {
            assert(line == all@[i as int]@);
            assert(filled()(line));
        }
        match read_written_header(all[i]) {
            None => {
                proof {
                    lemma_leading(rest, filled());
                    let count = leading(rest, filled()) as int;
                    if count < rest.len() {
                        assert(count > i - 1);
                        assert(rest.take(count)[i - 1] == line);
                    }
                }
                return None;
            },
            Some((name, value)) => {
                headers.append(name, value);
                proof {
                    let next = rest.take(i as int);
                    assert forall|j: int| 0 <= j < next.len() implies written_header(
                        #[trigger] next[j],
                    ) is Some by {
                        if j < section.len() {
                            assert(next[j] == section[j]);
                        }
                    }
                    assert(headers@ =~= Seq::new(
                        i as nat,
                        |k: int| written_header(rest[k])->0,
                    ));
                }
            },
        }
        i = i + 1;
    }
    if i >= all.len() {
        proof {
            lemma_leading_is(rest, filled(), rest.len() as int);
        }
        return None;
    }
    proof {
        assert(rest[i - 1] == all@[i as int]@);
        lemma_leading_is(rest, filled(), i - 1);
    }
    Some((status, headers))
}

} // verus!
