//! Text as sequences of characters: the splitting, trimming and formatting
//! rules that the request parser, the gateway and the serializer share, each
//! stated as a function on `Seq<char>` and computed on slices of `char`.

use vstd::prelude::*;
use vstd::slice::slice_subrange;

verus! {

/// How many items at the front of `s` satisfy `p`.
pub open spec fn leading<T>(s: Seq<T>, p: spec_fn(T) -> bool) -> nat
    decreases s.len(),
{
    if s.len() > 0 && p(s[0]) {
        1 + leading(s.drop_first(), p)
    } else {
        0
    }
}

/// How many items at the back of `s` satisfy `p`.
pub open spec fn trailing<T>(s: Seq<T>, p: spec_fn(T) -> bool) -> nat
    decreases s.len(),
{
    if s.len() > 0 && p(s.last()) {
        1 + trailing(s.drop_last(), p)
    } else {
        0
    }
}

/// `leading` counts exactly the longest prefix whose items all satisfy `p`.
pub proof fn lemma_leading<T>(s: Seq<T>, p: spec_fn(T) -> bool)
    ensures
        leading(s, p) <= s.len(),
        forall|j: int| 0 <= j < leading(s, p) ==> p(#[trigger] s[j]),
        leading(s, p) < s.len() ==> !p(s[leading(s, p) as int]),
    decreases s.len(),
{
    if s.len() > 0 && p(s[0]) {
        let rest = s.drop_first();
        lemma_leading(rest, p);
        assert forall|j: int| 0 <= j < leading(s, p) implies p(#[trigger] s[j]) by {
            if j > 0 {
                assert(s[j] == rest[j - 1]);
            }
        }
        if leading(s, p) < s.len() {
            assert(s[leading(s, p) as int] == rest[leading(rest, p) as int]);
        }
    }
}

/// A prefix of `k` items that satisfy `p`, followed by the end or by an item
/// that does not, fixes `leading` at `k`.
pub proof fn lemma_leading_is<T>(s: Seq<T>, p: spec_fn(T) -> bool, k: int)
    requires
        0 <= k <= s.len(),
        forall|j: int| 0 <= j < k ==> p(#[trigger] s[j]),
        k < s.len() ==> !p(s[k]),
    ensures
        leading(s, p) == k,
    decreases k,
{
    if k > 0 {
        let rest = s.drop_first();
        assert(p(s[0]));
        assert forall|j: int| 0 <= j < k - 1 implies p(#[trigger] rest[j]) by {
            assert(rest[j] == s[j + 1]);
        }
        lemma_leading_is(rest, p, k - 1);
    }
}

/// A suffix of `k` items that satisfy `p`, preceded by the start or by an
/// item that does not, fixes `trailing` at `k`.
pub proof fn lemma_trailing_is<T>(s: Seq<T>, p: spec_fn(T) -> bool, k: int)
    requires
        0 <= k <= s.len(),
        forall|j: int| s.len() - k <= j < s.len() ==> p(#[trigger] s[j]),
        k < s.len() ==> !p(s[s.len() - k - 1]),
    ensures
        trailing(s, p) == k,
    decreases k,
{
    if k > 0 {
        let rest = s.drop_last();
        assert(p(s[s.len() - 1]));
        assert forall|j: int| rest.len() - (k - 1) <= j < rest.len() implies p(
            #[trigger] rest[j],
        ) by {
            assert(rest[j] == s[j]);
        }
        if k - 1 < rest.len() {
            assert(rest[rest.len() - (k - 1) - 1] == s[s.len() - k - 1]);
        }
        lemma_trailing_is(rest, p, k - 1);
    }
}

/// The characters that are not `c`.
pub open spec fn other_than(c: char) -> spec_fn(char) -> bool {
    |x: char| x != c
}

/// Where `c` first occurs in `s`; the length of `s` if it does not occur.
pub open spec fn position(s: Seq<char>, c: char) -> int {
    leading(s, other_than(c)) as int
}

/// Where `c` last occurs in `s`; `-1` if it does not occur.
pub open spec fn last_position(s: Seq<char>, c: char) -> int {
    s.len() - trailing(s, other_than(c)) - 1
}

/// Whether `c` occurs in `s`.
pub open spec fn has_char(s: Seq<char>, c: char) -> bool {
    position(s, c) < s.len()
}

/// The first index at or after `from` that holds `c`; the length if none does.
pub fn find_char(v: &[char], from: usize, c: char) -> (r: usize)
    requires
        from <= v@.len(),
    ensures
        r == from + position(v@.skip(from as int), c),
        from <= r <= v@.len(),
{
    let ghost rest = v@.skip(from as int);
    let mut i: usize = from;
    while i < v.len() && v[i] != c
        invariant
            from <= i <= v@.len(),
            rest == v@.skip(from as int),
            forall|j: int| 0 <= j < i - from ==> other_than(c)(#[trigger] rest[j]),
        decreases v.len() - i,
    {
        i = i + 1;
    }
    proof {
        lemma_leading_is(rest, other_than(c), i - from);
    }
    i
}

/// The views of a list of slices.
pub open spec fn views(parts: Seq<&[char]>) -> Seq<Seq<char>> {
    Seq::new(parts.len(), |i: int| parts[i]@)
}

/// `s` without one carriage return at its end, if it ends in one.
pub open spec fn strip_cr(s: Seq<char>) -> Seq<char> {
    if s.len() > 0 && s.last() == '\r' {
        s.drop_last()
    } else {
        s
    }
}

/// The lines of `s`. A line ends at a line feed, or at the end of the text;
/// a carriage return directly before the line feed belongs to the line
/// ending. The text after the last line feed is a line only if it is not
/// empty, and keeps a carriage return at its end.
pub open spec fn lines(s: Seq<char>) -> Seq<Seq<char>>
    decreases s.len(),
{
    let n = position(s, '\n');
    if s.len() == 0 {
        Seq::empty()
    } else if 0 <= n < s.len() {
        seq![strip_cr(s.take(n))] + lines(s.skip(n + 1))
    } else {
        seq![s]
    }
}

/// Splits `text` into its lines.
pub fn split_lines<'a>(text: &'a [char]) -> (r: Vec<&'a [char]>)
    ensures
        views(r@) == lines(text@),
{
    let mut out: Vec<&'a [char]> = Vec::new();
    let mut start: usize = 0;
    proof {
        assert(text@.skip(0) == text@);
        assert(views(out@) + lines(text@) == lines(text@));
    }
    while start < text.len()
        invariant
            start <= text@.len(),
            lines(text@) == views(out@) + lines(text@.skip(start as int)),
        decreases text.len() - start,
    {
        let ghost rest = text@.skip(start as int);
        let ghost before = views(out@);
        let end = find_char(text, start, '\n');
        if end < text.len() {
            let stop = if end > start && text[end - 1] == '\r' {
                end - 1
            } else {
                end
            };
            let line = slice_subrange(text, start, stop);
            out.push(line);
            proof {
                assert(rest.take(end - start) == text@.subrange(start as int, end as int));
                assert(line@ == strip_cr(rest.take(end - start)));
                assert(rest.skip(end - start + 1) == text@.skip(end + 1));
                assert(views(out@) == before + seq![line@]);
            }
            start = end + 1;
        } else {
            let line = slice_subrange(text, start, end);
            out.push(line);
            proof {
                assert(line@ == rest);
                assert(views(out@) == before + seq![line@]);
                assert(text@.skip(end as int) == Seq::<char>::empty());
                assert(lines(Seq::<char>::empty()) == Seq::<Seq<char>>::empty());
            }
            start = end;
        }
    }
    proof {
        assert(text@.skip(start as int).len() == 0);
    }
    out
}

/// Whether `c` is white space, as Unicode defines the property `White_Space`.
pub open spec fn is_whitespace(c: char) -> bool {
    let u = c as u32;
    ||| 0x09 <= u <= 0x0D
    ||| u == 0x20
    ||| u == 0x85
    ||| u == 0xA0
    ||| u == 0x1680
    ||| 0x2000 <= u <= 0x200A
    ||| u == 0x2028
    ||| u == 0x2029
    ||| u == 0x202F
    ||| u == 0x205F
    ||| u == 0x3000
}

/// The white space characters.
pub open spec fn blank() -> spec_fn(char) -> bool {
    |c: char| is_whitespace(c)
}

/// The characters that are not white space.
pub open spec fn solid() -> spec_fn(char) -> bool {
    |c: char| !is_whitespace(c)
}

/// Tests `c` for white space.
pub fn char_is_whitespace(c: char) -> (r: bool)
    ensures
        r == is_whitespace(c),
{
    let u: u32 = c as u32;
    (0x09 <= u && u <= 0x0D) || u == 0x20 || u == 0x85 || u == 0xA0 || u == 0x1680 || (0x2000 <= u
        && u <= 0x200A) || u == 0x2028 || u == 0x2029 || u == 0x202F || u == 0x205F || u == 0x3000
}

/// The words of `s`: its longest runs of characters that are not white
/// space, in order.
pub open spec fn words(s: Seq<char>) -> Seq<Seq<char>>
    decreases s.len(),
{
    let gap = leading(s, blank()) as int;
    let rest = s.skip(gap);
    let run = leading(rest, solid()) as int;
    if 0 <= gap < s.len() && 0 < run <= rest.len() {
        seq![rest.take(run)] + words(rest.skip(run))
    } else {
        Seq::empty()
    }
}

/// Splits `text` into its words.
pub fn split_words<'a>(text: &'a [char]) -> (r: Vec<&'a [char]>)
    ensures
        views(r@) == words(text@),
{
    let mut out: Vec<&'a [char]> = Vec::new();
    let mut start: usize = 0;
    let mut done = false;
    proof {
        assert(text@.skip(0) == text@);
        assert(views(out@) + words(text@) == words(text@));
    }
    while !done
        invariant
            start <= text@.len(),
            words(text@) == views(out@) + words(text@.skip(start as int)),
            done ==> words(text@.skip(start as int)) == Seq::<Seq<char>>::empty(),
        decreases text.len() - start + if done { 0int } else { 1int },
    {
        let ghost tail = text@.skip(start as int);
        let ghost before = views(out@);
        let mut from: usize = start;
        while from < text.len() && char_is_whitespace(text[from])
            invariant
                start <= from <= text@.len(),
                tail == text@.skip(start as int),
                forall|j: int| 0 <= j < from - start ==> blank()(#[trigger] tail[j]),
            decreases text.len() - from,
        {
            from = from + 1;
        }
        proof {
            lemma_leading_is(tail, blank(), from - start);
        }
        let ghost rest = tail.skip(from - start);
        let mut to: usize = from;
        while to < text.len() && !char_is_whitespace(text[to])
            invariant
                from <= to <= text@.len(),
                rest == text@.skip(from as int),
                forall|j: int| 0 <= j < to - from ==> solid()(#[trigger] rest[j]),
            decreases text.len() - to,
        {
            to = to + 1;
        }
        proof {
            assert(rest == text@.skip(from as int));
            lemma_leading_is(rest, solid(), to - from);
        }
        if from < text.len() {
            let word = slice_subrange(text, from, to);
            out.push(word);
            proof {
                assert(to > from);
                assert(word@ == rest.take(to - from));
                assert(rest.skip(to - from) == text@.skip(to as int));
                assert(views(out@) == before + seq![word@]);
            }
            start = to;
        } else {
            done = true;
        }
    }
    out
}

/// `s` cut at its first `c`: what stands before it and what stands after
/// it. `None` if `c` does not occur.
pub open spec fn cut(s: Seq<char>, c: char) -> Option<(Seq<char>, Seq<char>)> {
    let n = position(s, c);
    if 0 <= n < s.len() {
        Some((s.take(n), s.skip(n + 1)))
    } else {
        None
    }
}

/// `s` cut at its last `c`: what stands before it and what stands after it.
/// `None` if `c` does not occur.
pub open spec fn cut_last(s: Seq<char>, c: char) -> Option<(Seq<char>, Seq<char>)> {
    let n = last_position(s, c);
    if 0 <= n < s.len() {
        Some((s.take(n), s.skip(n + 1)))
    } else {
        None
    }
}

/// Cuts `text` at its first `c`.
pub fn split_first<'a>(text: &'a [char], c: char) -> (r: Option<(&'a [char], &'a [char])>)
    ensures
        match r {
            Some((before, after)) => cut(text@, c) == Some((before@, after@)),
            None => cut(text@, c) is None,
        },
{
    proof {
        assert(text@.skip(0) == text@);
    }
    let at = find_char(text, 0, c);
    if at < text.len() {
        let before = slice_subrange(text, 0, at);
        let after = slice_subrange(text, at + 1, text.len());
        proof {
            assert(before@ == text@.take(at as int));
            assert(after@ == text@.skip(at + 1));
        }
        Some((before, after))
    } else {
        None
    }
}

/// Cuts `text` at its last `c`.
pub fn split_last<'a>(text: &'a [char], c: char) -> (r: Option<(&'a [char], &'a [char])>)
    ensures
        match r {
            Some((before, after)) => cut_last(text@, c) == Some((before@, after@)),
            None => cut_last(text@, c) is None,
        },
{
    let mut i: usize = text.len();
    while i > 0 && text[i - 1] != c
        invariant
            i <= text@.len(),
            forall|j: int| i <= j < text@.len() ==> other_than(c)(#[trigger] text@[j]),
        decreases i,
    {
        i = i - 1;
    }
    proof {
        lemma_trailing_is(text@, other_than(c), text@.len() - i);
    }
    if i > 0 {
        let before = slice_subrange(text, 0, i - 1);
        let after = slice_subrange(text, i, text.len());
        proof {
            assert(before@ == text@.take(i - 1));
            assert(after@ == text@.skip(i as int));
        }
        Some((before, after))
    } else {
        None
    }
}

/// `s` without the white space at its front.
pub open spec fn trim_start(s: Seq<char>) -> Seq<char> {
    s.skip(leading(s, blank()) as int)
}

/// `s` without the white space at its back.
pub open spec fn trim_end(s: Seq<char>) -> Seq<char> {
    s.take(s.len() - trailing(s, blank()))
}

/// `s` without the white space at its front and at its back.
pub open spec fn trim(s: Seq<char>) -> Seq<char> {
    trim_end(trim_start(s))
}

/// Trims `text` at both ends.
pub fn trimmed<'a>(text: &'a [char]) -> (r: &'a [char])
    ensures
        r@ == trim(text@),
{
    let mut from: usize = 0;
    while from < text.len() && char_is_whitespace(text[from])
        invariant
            from <= text@.len(),
            forall|j: int| 0 <= j < from ==> blank()(#[trigger] text@[j]),
        decreases text.len() - from,
    {
        from = from + 1;
    }
    proof {
        lemma_leading_is(text@, blank(), from as int);
    }
    let ghost rest = text@.skip(from as int);
    let mut to: usize = text.len();
    while to > from && char_is_whitespace(text[to - 1])
        invariant
            from <= to <= text@.len(),
            rest == text@.skip(from as int),
            forall|j: int| to - from <= j < rest.len() ==> blank()(#[trigger] rest[j]),
        decreases to,
    {
        to = to - 1;
    }
    proof {
        lemma_trailing_is(rest, blank(), text@.len() - to);
    }
    let r = slice_subrange(text, from, to);
    proof {
        assert(r@ == rest.take(to - from));
    }
    r
}

/// Whether `s` begins with `prefix`.
pub open spec fn starts_with(s: Seq<char>, prefix: Seq<char>) -> bool {
    prefix.len() <= s.len() && s.take(prefix.len() as int) == prefix
}

/// `s` without `prefix` at its front. `None` if `s` does not begin with it.
pub open spec fn strip_prefix(s: Seq<char>, prefix: Seq<char>) -> Option<Seq<char>> {
    if starts_with(s, prefix) {
        Some(s.skip(prefix.len() as int))
    } else {
        None
    }
}

/// Takes `prefix` from the front of `text`.
pub fn without_prefix<'a>(text: &'a [char], prefix: &[char]) -> (r: Option<&'a [char]>)
    ensures
        match r {
            Some(rest) => strip_prefix(text@, prefix@) == Some(rest@),
            None => strip_prefix(text@, prefix@) is None,
        },
{
    if prefix.len() > text.len() {
        return None;
    }
    let mut i: usize = 0;
    while i < prefix.len()
        invariant
            i <= prefix@.len() <= text@.len(),
            text@.take(i as int) == prefix@.take(i as int),
        decreases prefix.len() - i,
    {
        if text[i] != prefix[i] {
            proof {
                let full = text@.take(prefix@.len() as int);
                assert(full[i as int] != prefix@[i as int]);
            }
            return None;
        }
        proof {
            assert(text@.take(i + 1) == text@.take(i as int).push(text@[i as int]));
            assert(prefix@.take(i + 1) == prefix@.take(i as int).push(prefix@[i as int]));
        }
        i = i + 1;
    }
    proof {
        assert(prefix@.take(prefix@.len() as int) == prefix@);
    }
    Some(slice_subrange(text, prefix.len(), text.len()))
}

/// The parts of `parts`, one after the other, as one text.
pub open spec fn concat(parts: Seq<Seq<char>>) -> Seq<char>
    decreases parts.len(),
{
    if parts.len() == 0 {
        Seq::empty()
    } else {
        concat(parts.drop_last()) + parts.last()
    }
}

/// `c` in lower case if it is one of `A` to `Z`; else `c` itself.
pub open spec fn ascii_lower(c: char) -> char {
    if 'A' <= c <= 'Z' {
        ((c as u8) + 32) as char
    } else {
        c
    }
}

/// `s` with each of its letters `A` to `Z` in lower case.
pub open spec fn lowercase(s: Seq<char>) -> Seq<char> {
    Seq::new(s.len(), |i: int| ascii_lower(s[i]))
}

/// Puts `c` in lower case.
pub fn char_to_lower(c: char) -> (r: char)
    ensures
        r == ascii_lower(c),
{
    if 'A' <= c && c <= 'Z' {
        ((c as u8) + 32) as char
    } else {
        c
    }
}

/// The character of the decimal digit `d`.
pub open spec fn digit(d: int) -> char
    recommends
        0 <= d <= 9,
{
    ((48 + d) as u8) as char
}

/// `n` in decimal, without leading zeros.
pub open spec fn decimal(n: nat) -> Seq<char>
    decreases n,
{
    if n < 10 {
        seq![digit(n as int)]
    } else {
        decimal(n / 10).push(digit((n % 10) as int))
    }
}

/// Appends `n` in decimal to `out`.
pub fn push_decimal(out: &mut String, n: usize)
    ensures
        final(out)@ == old(out)@ + decimal(n as nat),
    decreases n,
{
    if n >= 10 {
        push_decimal(out, n / 10);
    }
    let d: u8 = (n % 10) as u8;
    out.push((48 + d) as char);
    proof {
        if n >= 10 {
            assert(old(out)@ + decimal(n as nat) == (old(out)@ + decimal((n / 10) as nat)).push(
                digit((n % 10) as int),
            ));
        } else {
            assert(old(out)@ + decimal(n as nat) == old(out)@.push(digit(n as int)));
        }
    }
}

/// The characters of `s`.
pub fn to_chars(s: &str) -> (v: Vec<char>)
    ensures
        v@ == s@,
{
    let mut v: Vec<char> = Vec::new();
    for c in it: s.chars()
        invariant
            it.seq() == s@,
            v@ == it.seq().take(it.index() as int),
    {
        v.push(c);
    }
    proof {
        assert(v@ == s@);
    }
    v
}

/// The string of the characters `v`.
pub fn to_string(v: &[char]) -> (s: String)
    ensures
        s@ == v@,
{
    let mut s = String::new();
    let mut i: usize = 0;
    while i < v.len()
        invariant
            i <= v@.len(),
            s@ == v@.take(i as int),
        decreases v.len() - i,
    {
        s.push(v[i]);
        proof {
            assert(v@.take(i + 1) == v@.take(i as int).push(v@[i as int]));
        }
        i = i + 1;
    }
    proof {
        assert(v@.take(v@.len() as int) == v@);
    }
    s
}

/// Whether two strings hold the same text.
pub fn same_text(a: &str, b: &str) -> (r: bool)
    ensures
        r == (a@ == b@),
{
    let x: String = a.to_owned();
    let y: String = b.to_owned();
    x == y
}

/// The lines that are not empty.
pub open spec fn filled() -> spec_fn(Seq<char>) -> bool {
    |line: Seq<char>| line.len() > 0
}

/// Whether each of `section` holds a colon.
pub open spec fn all_have_colon(section: Seq<Seq<char>>) -> bool {
    forall|i: int| 0 <= i < section.len() ==> has_char(#[trigger] section[i], ':')
}

/// Whether the lines `all` begin with a header section: lines that each
/// hold a colon, ended by an empty line.
pub open spec fn has_header_section(all: Seq<Seq<char>>) -> bool {
    let count = leading(all, filled()) as int;
    count < all.len() && all_have_colon(all.take(count))
}

/// The header that a line of the header section states: the name is what
/// stands before the first colon, the value all that stands after it.
pub open spec fn header_of(line: Seq<char>) -> (Seq<char>, Seq<char>) {
    match cut(line, ':') {
        Some(pair) => pair,
        None => (line, Seq::empty()),
    }
}

/// The headers that the lines of a header section state, in order.
pub open spec fn headers_of(section: Seq<Seq<char>>) -> Seq<(Seq<char>, Seq<char>)> {
    Seq::new(section.len(), |i: int| header_of(section[i]))
}

/// Appends the lines `lines[from..]` to one another.
pub fn join_lines(lines: &Vec<&[char]>, from: usize) -> (r: String)
    requires
        from <= lines@.len(),
    ensures
        r@ == concat(views(lines@).skip(from as int)),
{
    let ghost tail = views(lines@).skip(from as int);
    let mut out = String::new();
    let mut i: usize = from;
    proof {
        assert(tail.take(0) == Seq::<Seq<char>>::empty());
    }
    while i < lines.len()
        invariant
            from <= i <= lines@.len(),
            tail == views(lines@).skip(from as int),
            out@ == concat(tail.take(i - from)),
        decreases lines.len() - i,
    {
        let line = lines[i];
        let ghost before = out@;
        let mut k: usize = 0;
        while k < line.len()
            invariant
                k <= line@.len(),
                out@ == before + line@.take(k as int),
            decreases line.len() - k,
        {
            out.push(line[k]);
            proof {
                assert(line@.take(k + 1) == line@.take(k as int).push(line@[k as int]));
            }
            k = k + 1;
        }
        proof {
            assert(line@.take(line@.len() as int) == line@);
            let next = tail.take(i - from + 1);
            assert(next.drop_last() == tail.take(i - from));
            assert(next.last() == line@);
        }
        i = i + 1;
    }
    proof {
        assert(tail.take(tail.len() as int) == tail);
    }
    out
}

/// A text without a line feed, then a carriage return and a line feed, then
/// more text: the first line is the text before the line ending, and the
/// other lines are those of the text after it.
pub proof fn lemma_lines_first(first: Seq<char>, rest: Seq<char>)
    requires
        forall|i: int| 0 <= i < first.len() ==> #[trigger] first[i] != '\n',
    ensures
        lines(first + seq!['\r', '\n'] + rest) == seq![first] + lines(rest),
{
    let text = first + seq!['\r', '\n'] + rest;
    let n = first.len() as int + 1;
    assert forall|j: int| 0 <= j < n implies other_than('\n')(#[trigger] text[j]) by {
        if j < first.len() {
            assert(text[j] == first[j]);
        }
    }
    assert(text[n] == '\n');
    lemma_leading_is(text, other_than('\n'), n);
    assert(text.take(n) =~= first.push('\r'));
    assert(strip_cr(first.push('\r')) =~= first);
    assert(text.skip(n + 1) =~= rest);
}

/// A word, then the end or white space and more text: the first word is
/// that word, and the other words are those of the text after it.
pub proof fn lemma_words_first(word: Seq<char>, rest: Seq<char>)
    requires
        word.len() > 0,
        forall|i: int| 0 <= i < word.len() ==> !is_whitespace(#[trigger] word[i]),
        rest.len() > 0 ==> is_whitespace(rest[0]),
    ensures
        words(word + rest) == seq![word] + words(rest),
{
    let text = word + rest;
    lemma_leading_is(text, blank(), 0);
    assert(text.skip(0) =~= text);
    assert forall|j: int| 0 <= j < word.len() implies solid()(#[trigger] text[j]) by {
        assert(text[j] == word[j]);
    }
    if rest.len() > 0 {
        assert(text[word.len() as int] == rest[0]);
    }
    lemma_leading_is(text, solid(), word.len() as int);
    assert(text.take(word.len() as int) =~= word);
    assert(text.skip(word.len() as int) =~= rest);
}

/// White space before a text adds no word to it.
pub proof fn lemma_words_after_blank(space: char, rest: Seq<char>)
    requires
        is_whitespace(space),
    ensures
        words(seq![space] + rest) == words(rest),
{
    let text = seq![space] + rest;
    let gap = leading(rest, blank()) as int;
    lemma_leading(rest, blank());
    assert forall|j: int| 0 <= j < gap + 1 implies blank()(#[trigger] text[j]) by {
        if j > 0 {
            assert(text[j] == rest[j - 1]);
        }
    }
    if gap < rest.len() {
        assert(text[gap + 1] == rest[gap]);
    }
    lemma_leading_is(text, blank(), gap + 1);
    assert(text.skip(gap + 1) =~= rest.skip(gap));
    if gap >= rest.len() {
        assert(rest.skip(gap).len() == 0);
        assert(text.skip(gap + 1).len() == 0);
    }
}

/// Three words with one space between them are those three words.
pub proof fn lemma_three_words(a: Seq<char>, b: Seq<char>, c: Seq<char>)
    requires
        a.len() > 0,
        b.len() > 0,
        c.len() > 0,
        forall|i: int| 0 <= i < a.len() ==> !is_whitespace(#[trigger] a[i]),
        forall|i: int| 0 <= i < b.len() ==> !is_whitespace(#[trigger] b[i]),
        forall|i: int| 0 <= i < c.len() ==> !is_whitespace(#[trigger] c[i]),
    ensures
        words(a + seq![' '] + b + seq![' '] + c) == seq![a, b, c],
{
    let none = Seq::<char>::empty();
    let tail_c = c;
    let tail_b = b + (seq![' '] + c);
    assert(a + seq![' '] + b + seq![' '] + c =~= a + (seq![' '] + tail_b));
    lemma_words_first(a, seq![' '] + tail_b);
    lemma_words_after_blank(' ', tail_b);
    lemma_words_first(b, seq![' '] + c);
    lemma_words_after_blank(' ', c);
    assert(c + none =~= c);
    lemma_words_first(c, none);
    lemma_leading_is(none, blank(), 0);
    assert(words(none) =~= Seq::<Seq<char>>::empty());
    assert(seq![a] + (seq![b] + (seq![c] + Seq::<Seq<char>>::empty())) =~= seq![a, b, c]);
}

} // verus!
