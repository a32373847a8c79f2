//! Text as a sequence of characters: lines, trimming, searching and UTF-8 lengths.

use vstd::prelude::*;
use vstd::slice::slice_subrange;

verus! {

/// The characters with Unicode's `White_Space` property.
pub open spec fn white_space(c: char) -> bool {
    ||| '\u{9}' <= c <= '\u{d}'
    ||| c == '\u{20}'
    ||| c == '\u{85}'
    ||| c == '\u{a0}'
    ||| c == '\u{1680}'
    ||| '\u{2000}' <= c <= '\u{200a}'
    ||| c == '\u{2028}'
    ||| c == '\u{2029}'
    ||| c == '\u{202f}'
    ||| c == '\u{205f}'
    ||| c == '\u{3000}'
}

/// `s` without its leading white space.
pub open spec fn trimmed_start(s: Seq<char>) -> Seq<char>
    decreases s.len(),
{
    if s.len() > 0 && white_space(s[0]) {
        trimmed_start(s.drop_first())
    } else {
        s
    }
}

/// `s` without its trailing white space.
pub open spec fn trimmed_end(s: Seq<char>) -> Seq<char>
    decreases s.len(),
{
    if s.len() > 0 && white_space(s.last()) {
        trimmed_end(s.drop_last())
    } else {
        s
    }
}

/// `s` without the white space at either end.
pub open spec fn trimmed(s: Seq<char>) -> Seq<char> {
    trimmed_end(trimmed_start(s))
}

/// The number of bytes that `s` takes in UTF-8.
pub open spec fn byte_len(s: Seq<char>) -> nat {
    vstd::utf8::encode_utf8(s).len()
}

/// The position of the first line feed of `s`, or its length where it has none.
pub open spec fn line_break(s: Seq<char>) -> nat
    decreases s.len(),
{
    if s.len() == 0 || s[0] == '\n' {
        0
    } else {
        1 + line_break(s.drop_first())
    }
}

/// `line` without a carriage return at its end.
pub open spec fn without_carriage_return(line: Seq<char>) -> Seq<char> {
    if line.len() > 0 && line.last() == '\r' {
        line.drop_last()
    } else {
        line
    }
}

/// The lines of `s`, without their terminators. A line ends at a line feed, or at a carriage
/// return and a line feed; the terminator of the last line is optional.
pub open spec fn lines(s: Seq<char>) -> Seq<Seq<char>>
    decreases s.len(),
{
    if s.len() == 0 {
        seq![]
    } else if line_break(s) >= s.len() {
        seq![s]
    } else {
        let end = line_break(s) as int;
        seq![without_carriage_return(s.take(end))] + lines(s.skip(end + 1))
    }
}

/// Whether `pattern` stands in `s` at position `at`.
pub open spec fn occurs_at<T>(s: Seq<T>, pattern: Seq<T>, at: int) -> bool {
    &&& 0 <= at
    &&& at + pattern.len() <= s.len()
    &&& s.subrange(at, at + pattern.len()) == pattern
}

/// Whether `pattern` stands somewhere in `s`.
pub open spec fn occurs_in<T>(s: Seq<T>, pattern: Seq<T>) -> bool {
    exists|at: int| #[trigger] occurs_at(s, pattern, at)
}

/// Whether `c` has Unicode's `White_Space` property.
pub fn is_white_space(c: char) -> (result: bool)
    ensures
        result == white_space(c),
{
    ('\u{9}' <= c && c <= '\u{d}') || c == '\u{20}' || c == '\u{85}' || c == '\u{a0}'
        || c == '\u{1680}' || ('\u{2000}' <= c && c <= '\u{200a}') || c == '\u{2028}'
        || c == '\u{2029}' || c == '\u{202f}' || c == '\u{205f}' || c == '\u{3000}'
}

/// The characters of `s`.
pub fn chars_of(s: &str) -> (chars: Vec<char>)
    ensures
        chars@ == s@,
{
    let mut chars: Vec<char> = Vec::new();
    for c in iter: s.chars()
        invariant
            iter.seq() == s@,
            chars@ == s@.take(iter.index()),
    {
        chars.push(c);
    }
    chars
}

/// `s` without the white space at either end.
pub fn trim(s: &[char]) -> (result: &[char])
    ensures
        result@ == trimmed(s@),
{
    let mut start: usize = 0;
    assert(s@.skip(0) == s@);
    while start < s.len() && is_white_space(s[start])
        invariant
            start <= s@.len(),
            trimmed_start(s@) == trimmed_start(s@.skip(start as int)),
        decreases s@.len() - start,
    {
        assert(s@.skip(start as int).drop_first() == s@.skip(start + 1));
        start += 1;
    }
    let mut end: usize = s.len();
    while end > start && is_white_space(s[end - 1])
        invariant
            start <= end <= s@.len(),
            trimmed_end(s@.skip(start as int)) == trimmed_end(
                s@.subrange(start as int, end as int),
            ),
        decreases end,
    {
        assert(s@.subrange(start as int, end as int).drop_last() == s@.subrange(
            start as int,
            end - 1,
        ));
        end -= 1;
    }
    slice_subrange(s, start, end)
}

/// Whether `prefix` stands at the start of `s`.
pub fn starts_with(s: &[char], prefix: &[char]) -> (result: bool)
    ensures
        result == prefix@.is_prefix_of(s@),
{
    if prefix.len() > s.len() {
        return false;
    }
    let mut i: usize = 0;
    while i < prefix.len()
        invariant
            i <= prefix@.len() <= s@.len(),
            forall|j: int| 0 <= j < i ==> s@[j] == prefix@[j],
        decreases prefix@.len() - i,
    {
        if s[i] != prefix[i] {
            assert(s@.subrange(0, prefix@.len() as int)[i as int] != prefix@[i as int]);
            return false;
        }
        i += 1;
    }
    assert(s@.subrange(0, prefix@.len() as int) == prefix@);
    true
}

/// Whether `pattern` stands somewhere in `s`.
pub fn contains(s: &[char], pattern: &[char]) -> (result: bool)
    ensures
        result == occurs_in(s@, pattern@),
{
    if pattern.len() > s.len() {
        return false;
    }
    let last: usize = s.len() - pattern.len();
    let mut at: usize = 0;
    loop
        invariant
            at <= last,
            last + pattern@.len() == s@.len(),
            forall|i: int| 0 <= i < at ==> !#[trigger] occurs_at(s@, pattern@, i),
        decreases last - at,
    {
        let rest = slice_subrange(s, at, s.len());
        assert(rest@.subrange(0, pattern@.len() as int) == s@.subrange(
            at as int,
            at + pattern@.len(),
        ));
        if starts_with(rest, pattern) {
            assert(occurs_at(s@, pattern@, at as int));
            return true;
        }
        assert(!occurs_at(s@, pattern@, at as int));
        if at == last {
            return false;
        }
        at += 1;
    }
}

/// The position of the first line feed of `s`, or its length where it has none.
pub fn find_line_break(s: &[char]) -> (result: usize)
    ensures
        result == line_break(s@),
        result <= s@.len(),
        result < s@.len() ==> s@[result as int] == '\n',
        forall|i: int| 0 <= i < result ==> #[trigger] s@[i] != '\n',
{
    let mut i: usize = 0;
    proof {
        lemma_line_break(s@);
    }
    assert(s@.skip(0) == s@);
    while i < s.len() && s[i] != '\n'
        invariant
            i <= s@.len(),
            line_break(s@) == i + line_break(s@.skip(i as int)),
        decreases s@.len() - i,
    {
        assert(s@.skip(i as int).drop_first() == s@.skip(i + 1));
        i += 1;
    }
    i
}

/// The number of bytes that `c` takes in UTF-8.
pub fn char_byte_len(c: char) -> (result: usize)
    ensures
        result == vstd::utf8::encode_scalar(c as u32).len(),
        1 <= result <= 4,
{
    if c <= '\u{7f}' {
        1
    } else if c <= '\u{7ff}' {
        2
    } else if c <= '\u{ffff}' {
        3
    } else {
        4
    }
}

/// The number of bytes that `s` takes in UTF-8.
pub fn count_bytes(s: &[char]) -> (result: usize)
    requires
        byte_len(s@) <= usize::MAX,
    ensures
        result == byte_len(s@),
        result == vstd::utf8::encode_utf8(s@).len(),
{
    let mut total: usize = 0;
    let mut i: usize = 0;
    assert(s@.skip(0) == s@);
    while i < s.len()
        invariant
            i <= s@.len(),
            byte_len(s@) <= usize::MAX,
            byte_len(s@) == total + byte_len(s@.skip(i as int)),
        decreases s@.len() - i,
    {
        assert(s@.skip(i as int).drop_first() == s@.skip(i + 1));
        total += char_byte_len(s[i]);
        i += 1;
    }
    total
}

/// UTF-8 encodes a text character by character, so the encoding of a concatenation is the
/// concatenation of the encodings.
pub proof fn lemma_encode_concat(a: Seq<char>, b: Seq<char>)
    ensures
        vstd::utf8::encode_utf8(a + b) == vstd::utf8::encode_utf8(a) + vstd::utf8::encode_utf8(b),
        byte_len(a + b) == byte_len(a) + byte_len(b),
    decreases a.len(),
{
    if a.len() == 0 {
        assert(a + b == b);
    } else {
        lemma_encode_concat(a.drop_first(), b);
        assert((a + b).drop_first() == a.drop_first() + b);
    }
}

/// A line terminator takes one byte per character.
pub proof fn lemma_terminator_bytes()
    ensures
        byte_len(seq!['\n']) == 1,
        byte_len(seq!['\r', '\n']) == 2,
{
    assert(seq!['\n'].drop_first() == Seq::<char>::empty());
    assert(seq!['\r', '\n'].drop_first() == seq!['\n']);
    assert(byte_len(Seq::empty()) == 0);
    assert(byte_len(seq!['\n']) == 1);
}

/// A text takes at least one byte per character.
pub proof fn lemma_char_bytes(s: Seq<char>)
    ensures
        byte_len(s) >= s.len(),
    decreases s.len(),
{
    if s.len() > 0 {
        lemma_char_bytes(s.drop_first());
    }
}

/// Whether a line starts at position `at` of `s`, or would start there at its end.
pub open spec fn starts_line(s: Seq<char>, at: int) -> bool {
    at == 0 || s[at - 1] == '\n'
}

/// The number of lines of `s` that end with a carriage return and a line feed.
pub open spec fn carriage_returns(s: Seq<char>) -> nat
    decreases s.len(),
{
    if line_break(s) >= s.len() {
        0
    } else {
        let end = line_break(s) as int;
        let rest = carriage_returns(s.skip(end + 1));
        if end > 0 && s[end - 1] == '\r' {
            rest + 1
        } else {
            rest
        }
    }
}

/// The first line feed of a text, if it has one, is where `line_break` says.
pub proof fn lemma_line_break(s: Seq<char>)
    ensures
        line_break(s) <= s.len(),
        line_break(s) < s.len() ==> s[line_break(s) as int] == '\n',
        forall|i: int| 0 <= i < line_break(s) ==> #[trigger] s[i] != '\n',
    decreases s.len(),
{
    if s.len() > 0 && s[0] != '\n' {
        lemma_line_break(s.drop_first());
        assert forall|i: int| 0 <= i < line_break(s) implies #[trigger] s[i] != '\n' by {
            if i > 0 {
                assert(s.drop_first()[i - 1] != '\n');
            }
        }
    }
}

/// A position with a line feed and none before it is the first line feed.
pub proof fn lemma_line_break_at(s: Seq<char>, at: int)
    requires
        0 <= at <= s.len(),
        at < s.len() ==> s[at] == '\n',
        forall|i: int| 0 <= i < at ==> #[trigger] s[i] != '\n',
    ensures
        line_break(s) == at,
{
    lemma_line_break(s);
    if line_break(s) < at {
        assert(s[line_break(s) as int] != '\n');
    } else if at < line_break(s) {
        assert(s[at] != '\n');
    }
}

/// Behind a complete line the lines of a text go on as those of the rest.
pub proof fn lemma_lines_concat(a: Seq<char>, b: Seq<char>)
    requires
        a.len() == 0 || a.last() == '\n',
    ensures
        lines(a + b) == lines(a) + lines(b),
    decreases a.len(),
{
    if a.len() == 0 {
        assert(a + b == b);
        assert(lines(a) + lines(b) == lines(b));
    } else {
        lemma_line_break(a);
        assert(line_break(a) < a.len()) by {
            if line_break(a) >= a.len() {
                assert(a[a.len() - 1] != '\n');
            }
        }
        let end = line_break(a) as int;
        assert forall|i: int| 0 <= i < end implies #[trigger] (a + b)[i] != '\n' by {
            assert(a[i] != '\n');
        }
        lemma_line_break_at(a + b, end);
        let rest = a.skip(end + 1);
        assert((a + b).skip(end + 1) == rest + b);
        assert((a + b).take(end) == a.take(end));
        if rest.len() > 0 {
            assert(rest.last() == a.last());
        }
        lemma_lines_concat(rest, b);
        let first = seq![without_carriage_return(a.take(end))];
        assert(first + (lines(rest) + lines(b)) == first + lines(rest) + lines(b));
    }
}

/// Without carriage returns no line ends with one.
pub proof fn lemma_no_carriage_return(s: Seq<char>)
    requires
        !s.contains('\r'),
    ensures
        carriage_returns(s) == 0,
    decreases s.len(),
{
    if line_break(s) < s.len() {
        let end = line_break(s) as int;
        let rest = s.skip(end + 1);
        assert(!rest.contains('\r')) by {
            if rest.contains('\r') {
                let i = choose|i: int| 0 <= i < rest.len() && rest[i] == '\r';
                assert(s[i + end + 1] == '\r');
            }
        }
        lemma_no_carriage_return(rest);
    }
}

/// A text up to its first line feed is one line.
pub proof fn lemma_first_line(s: Seq<char>)
    requires
        line_break(s) < s.len(),
    ensures
        lines(s.take(line_break(s) as int + 1)) == seq![
            without_carriage_return(s.take(line_break(s) as int)),
        ],
{
    let end = line_break(s) as int;
    let head = s.take(end + 1);
    lemma_line_break(s);
    lemma_line_break_at(head, end);
    assert(head.take(end) == s.take(end));
    assert(head.skip(end + 1) == Seq::<char>::empty());
    assert(lines(Seq::<char>::empty()) == Seq::<Seq<char>>::empty());
    let first = seq![without_carriage_return(s.take(end))];
    assert(first + Seq::<Seq<char>>::empty() == first);
}

/// The length of a prefix of a text starts a character of the whole.
pub proof fn lemma_prefix_is_boundary(a: Seq<char>, b: Seq<char>)
    ensures
        vstd::utf8::is_char_boundary(vstd::utf8::encode_utf8(a + b), byte_len(a) as int),
    decreases a.len(),
{
    let bytes = vstd::utf8::encode_utf8(a + b);
    vstd::utf8::encode_utf8_valid_utf8(a + b);
    if a.len() > 0 {
        let rest = a.drop_first();
        lemma_prefix_is_boundary(rest, b);
        lemma_encode_concat(a, b);
        lemma_char_bytes(a);
        vstd::utf8::encode_utf8_first_scalar(a + b);
        assert((a + b).drop_first() == rest + b);
        assert(vstd::utf8::pop_first_scalar(bytes) == vstd::utf8::encode_utf8(rest + b));
    }
}

/// Whether `s` holds nothing but white space.
pub open spec fn blank(s: Seq<char>) -> bool {
    forall|i: int| 0 <= i < s.len() ==> white_space(#[trigger] s[i])
}

proof fn lemma_trimmed_start(before: Seq<char>, rest: Seq<char>)
    requires
        blank(before),
        rest.len() > 0 ==> !white_space(rest[0]),
    ensures
        trimmed_start(before + rest) == rest,
    decreases before.len(),
{
    let s = before + rest;
    if before.len() == 0 {
        assert(s == rest);
    } else {
        assert(white_space(before[0]));
        assert forall|i: int| 0 <= i < before.drop_first().len() implies white_space(
            #[trigger] before.drop_first()[i],
        ) by {
            assert(white_space(before[i + 1]));
        }
        lemma_trimmed_start(before.drop_first(), rest);
        assert(s.drop_first() == before.drop_first() + rest);
    }
}

proof fn lemma_trimmed_end(rest: Seq<char>, after: Seq<char>)
    requires
        blank(after),
        rest.len() > 0 ==> !white_space(rest.last()),
    ensures
        trimmed_end(rest + after) == rest,
    decreases after.len(),
{
    let s = rest + after;
    if after.len() == 0 {
        assert(s == rest);
    } else {
        assert(white_space(after[after.len() - 1]));
        assert forall|i: int| 0 <= i < after.drop_last().len() implies white_space(
            #[trigger] after.drop_last()[i],
        ) by {
            assert(white_space(after[i]));
        }
        lemma_trimmed_end(rest, after.drop_last());
        assert(s.drop_last() == rest + after.drop_last());
    }
}

/// Trimming takes away the white space on both sides, and stops at the first and the last
/// character that is none.
pub proof fn law_trimmed(before: Seq<char>, core: Seq<char>, after: Seq<char>)
    requires
        blank(before),
        blank(after),
        core.len() > 0 ==> !white_space(core[0]) && !white_space(core.last()),
    ensures
        trimmed(before + core + after) == core,
{
    if core.len() > 0 {
        lemma_trimmed_start(before, core + after);
        assert(before + core + after == before + (core + after));
        lemma_trimmed_end(core, after);
    } else {
        let s = before + core + after;
        assert forall|i: int| 0 <= i < s.len() implies white_space(#[trigger] s[i]) by {
            if i < before.len() {
                assert(white_space(before[i]));
            } else {
                assert(white_space(after[i - before.len()]));
            }
        }
        lemma_trimmed_start(s, Seq::empty());
        assert(s + Seq::<char>::empty() == s);
    }
}

/// Where the trimmed text stands in `s`.
pub proof fn lemma_trimmed_range(s: Seq<char>) -> (range: (int, int))
    ensures
        0 <= range.0 <= range.1 <= s.len(),
        trimmed(s) == s.subrange(range.0, range.1),
        forall|i: int| 0 <= i < range.0 ==> white_space(#[trigger] s[i]),
        forall|i: int| range.1 <= i < s.len() ==> white_space(#[trigger] s[i]),
{
    let from = lemma_start_range(s);
    let rest = s.skip(from);
    let to = lemma_end_range(rest);
    assert(rest.take(to) == s.subrange(from, from + to));
    assert forall|i: int| from + to <= i < s.len() implies white_space(#[trigger] s[i]) by {
        assert(white_space(rest[i - from]));
    }
    (from, from + to)
}

proof fn lemma_start_range(s: Seq<char>) -> (from: int)
    ensures
        0 <= from <= s.len(),
        trimmed_start(s) == s.skip(from),
        forall|i: int| 0 <= i < from ==> white_space(#[trigger] s[i]),
    decreases s.len(),
{
    if s.len() > 0 && white_space(s[0]) {
        let rest = s.drop_first();
        let from = lemma_start_range(rest);
        assert(rest.skip(from) == s.skip(from + 1));
        assert forall|i: int| 0 <= i < from + 1 implies white_space(#[trigger] s[i]) by {
            if i > 0 {
                assert(white_space(rest[i - 1]));
            }
        }
        from + 1
    } else {
        assert(s.skip(0) == s);
        0
    }
}

proof fn lemma_end_range(s: Seq<char>) -> (to: int)
    ensures
        0 <= to <= s.len(),
        trimmed_end(s) == s.take(to),
        forall|i: int| to <= i < s.len() ==> white_space(#[trigger] s[i]),
    decreases s.len(),
{
    if s.len() > 0 && white_space(s.last()) {
        let rest = s.drop_last();
        let to = lemma_end_range(rest);
        assert(rest.take(to) == s.take(to));
        assert forall|i: int| to <= i < s.len() implies white_space(#[trigger] s[i]) by {
            if i < rest.len() {
                assert(white_space(rest[i]));
            }
        }
        to
    } else {
        assert(s.take(s.len() as int) == s);
        s.len() as int
    }
}

/// A line ends at its line feed, or at a carriage return in front of that; the last line needs
/// no terminator, and an empty text has no line.
pub proof fn law_lines(line: Seq<char>, rest: Seq<char>)
    requires
        !line.contains('\n'),
    ensures
        lines(Seq::empty()) == Seq::<Seq<char>>::empty(),
        line.len() > 0 ==> lines(line) == seq![line],
        line.len() == 0 || line.last() != '\r' ==> lines(line + seq!['\n'] + rest) == seq![line]
            + lines(rest),
        lines(line + seq!['\r', '\n'] + rest) == seq![line] + lines(rest),
{
    assert forall|i: int| 0 <= i < line.len() implies #[trigger] line[i] != '\n' by {
        assert(line.contains(line[i]));
    }
    let n = line.len() as int;
    lemma_line_break_at(line, n);
    let plain = line + seq!['\n'] + rest;
    lemma_line_break_at(plain, n);
    assert(plain.take(n) == line);
    assert(plain.skip(n + 1) == rest);
    let returned = line + seq!['\r', '\n'] + rest;
    lemma_line_break_at(returned, n + 1);
    assert(returned.take(n + 1) == line.push('\r'));
    assert(line.push('\r').drop_last() == line);
    assert(returned.skip(n + 2) == rest);
}

/// A pattern stands in a text exactly where the text is something, the pattern and something.
pub proof fn law_occurs_in(s: Seq<char>, pattern: Seq<char>)
    ensures
        occurs_in(s, pattern) <==> exists|before: Seq<char>, after: Seq<char>|
            s == #[trigger] (before + pattern + after),
{
    if occurs_in(s, pattern) {
        let at = choose|at: int| #[trigger] occurs_at(s, pattern, at);
        let end = at + pattern.len() as int;
        assert(s == s.take(at) + pattern + s.skip(end)) by {
            assert(s == s.take(at) + s.subrange(at, end) + s.skip(end));
        }
    }
    if exists|before: Seq<char>, after: Seq<char>| s == #[trigger] (before + pattern + after) {
        let (before, after) = choose|before: Seq<char>, after: Seq<char>|
            s == #[trigger] (before + pattern + after);
        assert(s.subrange(before.len() as int, before.len() as int + pattern.len()) == pattern);
        assert(occurs_at(s, pattern, before.len() as int));
    }
}

} // verus!
