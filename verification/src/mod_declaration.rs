//! `mod` declarations in the text of a module file, and the edit that adds one.

use crate::text;
use vstd::prelude::*;
use vstd::slice::slice_subrange;

verus! {

/// Whether `line` declares a module: between its white space it starts with `mod ` and ends
/// with a semicolon.
pub open spec fn declares_module(line: Seq<char>) -> bool {
    let code = text::trimmed(line);
    &&& "mod "@.is_prefix_of(code)
    &&& ";"@.is_suffix_of(code)
}

/// The index of the last of `lines` that declares a module, or -1 where none does.
pub open spec fn last_declaration(lines: Seq<Seq<char>>) -> int
    decreases lines.len(),
{
    if lines.len() == 0 {
        -1
    } else if declares_module(lines.last()) {
        lines.len() - 1
    } else {
        last_declaration(lines.drop_last())
    }
}

/// The number of bytes that `lines` take when each is followed by one line feed.
pub open spec fn span(lines: Seq<Seq<char>>) -> nat
    decreases lines.len(),
{
    if lines.len() == 0 {
        0
    } else {
        span(lines.drop_last()) + text::byte_len(lines.last()) + 1
    }
}

/// The byte offset in `contents` at which a new declaration goes: behind the last line that
/// declares a module, each line counted with one line feed, and never past the end; at the
/// start where no line declares a module.
pub open spec fn insertion_offset(contents: Seq<char>) -> nat {
    let lines = text::lines(contents);
    let last = last_declaration(lines);
    if last < 0 {
        0
    } else if span(lines.take(last + 1)) <= text::byte_len(contents) {
        span(lines.take(last + 1))
    } else {
        text::byte_len(contents)
    }
}

/// Whether `line` declares a module.
fn is_mod_declaration(line: &[char]) -> (result: bool)
    ensures
        result == declares_module(line@),
{
    let code = text::trim(line);
    let prefix: Vec<char> = text::chars_of("mod ");
    proof {
        reveal_strlit(";");
    }
    let ends_with_semicolon = code.len() > 0 && code[code.len() - 1] == ';';
    assert(ends_with_semicolon == ";"@.is_suffix_of(code@)) by {
        if code@.len() > 0 {
            assert(code@.subrange(code@.len() - 1, code@.len() as int) == seq![code@.last()]);
            assert(";"@ == seq![';']);
            assert(seq![code@.last()][0] == code@.last());
        }
    }
    text::starts_with(code, &prefix) && ends_with_semicolon
}

proof fn lemma_last_declaration_range(lines: Seq<Seq<char>>)
    ensures
        -1 <= last_declaration(lines) < lines.len(),
    decreases lines.len(),
{
    if lines.len() > 0 {
        lemma_last_declaration_range(lines.drop_last());
    }
}

/// Taking one more line into account.
proof fn lemma_push_line(lines: Seq<Seq<char>>, line: Seq<char>)
    ensures
        span(lines.push(line)) == span(lines) + text::byte_len(line) + 1,
        last_declaration(lines.push(line)) == if declares_module(line) {
            lines.len() as int
        } else {
            last_declaration(lines)
        },
{
    assert(lines.push(line).drop_last() == lines);
}

/// The byte offset in `contents` at which a new `mod` declaration goes.
pub fn find_mod_insertion_offset(contents: &str) -> (offset: usize)
    ensures
        offset == insertion_offset(contents@),
{
    let total: usize = contents.as_bytes().len();
    let chars: Vec<char> = text::chars_of(contents);
    let ghost s = contents@;
    let ghost mut done: Seq<Seq<char>> = seq![];
    // The character at which the next line starts, and the bytes that `done` spans.
    let mut start: usize = 0;
    let mut line_start: usize = 0;
    // Where the last declaration ends, without its line feed.
    let mut last_end: Option<usize> = None;
    assert(s.skip(0) == s);
    assert(done + text::lines(s) == text::lines(s));
    while start < chars.len()
        invariant
            chars@ == s,
            s == contents@,
            total == text::byte_len(s),
            start <= s.len(),
            text::lines(s) == done + text::lines(s.skip(start as int)),
            start < s.len() ==> line_start == span(done) && line_start + text::byte_len(
                s.skip(start as int),
            ) <= total,
            -1 <= last_declaration(done) < done.len(),
            last_end is None <==> last_declaration(done) < 0,
            last_end matches Some(end) ==> end <= total && end + 1 == span(
                done.take(last_declaration(done) + 1),
            ),
        decreases s.len() - start,
    {
        let rest = slice_subrange(&chars, start, chars.len());
        assert(rest@ == s.skip(start as int));
        let length: usize = text::find_line_break(rest);
        let terminated = length < rest.len();
        let line_length: usize = if terminated && length > 0 && rest[length - 1] == '\r' {
            length - 1
        } else {
            length
        };
        let line = slice_subrange(rest, 0, line_length);
        proof {
            assert(rest@.take(length as int).len() == length);
            if terminated {
                assert(line@ == text::without_carriage_return(rest@.take(length as int)));
            } else {
                assert(line@ == rest@);
                assert(text::lines(rest@) == seq![rest@]);
                assert(text::lines(Seq::<char>::empty()) == Seq::<Seq<char>>::empty());
            }
            text::lemma_encode_concat(line@, rest@.skip(line_length as int));
            assert(line@ + rest@.skip(line_length as int) == rest@);
        }
        let end: usize = line_start + text::count_bytes(line);
        if is_mod_declaration(line) {
            last_end = Some(end);
        }
        proof {
            lemma_push_line(done, line@);
            lemma_last_declaration_range(done.push(line@));
            assert(done.push(line@).take(done.len() as int + 1) == done.push(line@));
            assert(done.push(line@).take(last_declaration(done) + 1) == done.take(
                last_declaration(done) + 1,
            ));
        }
        if terminated {
            proof {
                let after = rest@.skip(length + 1);
                let terminator = rest@.subrange(line_length as int, length + 1);
                assert(after == s.skip(start + length + 1));
                assert(text::lines(rest@) == seq![line@] + text::lines(after));
                assert(done + (seq![line@] + text::lines(after)) == done.push(line@)
                    + text::lines(after));
                assert(rest@.skip(line_length as int) == terminator + after);
                text::lemma_encode_concat(terminator, after);
                text::lemma_char_bytes(terminator);
            }
            line_start = end + 1;
            start = start + length + 1;
        } else {
            assert(text::lines(s) == done.push(line@));
            assert(s.skip(s.len() as int) == Seq::<char>::empty());
            start = chars.len();
        }
        proof {
            done = done.push(line@);
            assert(done + Seq::<Seq<char>>::empty() == done);
        }
    }
    assert(s.skip(start as int) == Seq::<char>::empty());
    assert(done + Seq::<Seq<char>>::empty() == done);
    match last_end {
        Some(end) => if end < total {
            end + 1
        } else {
            total
        },
        None => 0,
    }
}

/// The declaration of the module in the file with stem `file_stem`.
pub open spec fn declaration(file_stem: Seq<char>) -> Seq<char> {
    "mod "@ + file_stem + ";"@
}

/// `contents` with `new_text` put in at the byte `offset`, which starts a character.
pub open spec fn edited(contents: Seq<char>, offset: int, new_text: Seq<char>) -> Seq<char>
    recommends
        vstd::utf8::is_char_boundary(vstd::utf8::encode_utf8(contents), offset),
{
    let bytes = vstd::utf8::encode_utf8(contents);
    vstd::utf8::decode_utf8(
        bytes.take(offset) + vstd::utf8::encode_utf8(new_text) + bytes.skip(offset),
    )
}

/// The edit that declares the module in the file with stem `file_stem`, as the byte offset and
/// the text that goes there; there is none where `contents` has the declaration already.
pub open spec fn planned_edit(contents: Seq<char>, file_stem: Seq<char>) -> Option<
    (int, Seq<char>),
> {
    if text::occurs_in(contents, declaration(file_stem)) {
        None
    } else {
        Some((insertion_offset(contents) as int, declaration(file_stem) + "\n"@))
    }
}

/// `contents` with the module in the file with stem `file_stem` declared.
pub open spec fn attached(contents: Seq<char>, file_stem: Seq<char>) -> Seq<char> {
    match planned_edit(contents, file_stem) {
        Some((offset, new_text)) => edited(contents, offset, new_text),
        None => contents,
    }
}

/// Text to put into a buffer at a byte offset.
#[derive(Debug)]
pub struct TextEdit {
    pub offset: usize,
    pub new_text: String,
}

impl View for TextEdit {
    type V = (int, Seq<char>);

    open spec fn view(&self) -> (int, Seq<char>) {
        (self.offset as int, self.new_text@)
    }
}

impl TextEdit {
    /// The text that the edit makes of `contents`.
    pub fn apply(&self, contents: &str) -> (result: String)
        requires
            vstd::utf8::is_char_boundary(
                vstd::utf8::encode_utf8(contents@),
                self.offset as int,
            ),
        ensures
            result@ == edited(contents@, self.offset as int, self.new_text@),
            vstd::utf8::encode_utf8(result@) == vstd::utf8::encode_utf8(contents@).take(
                self.offset as int,
            ) + vstd::utf8::encode_utf8(self.new_text@) + vstd::utf8::encode_utf8(contents@).skip(
                self.offset as int,
            ),
    {
        let (before, after) = contents.split_at(self.offset);
        let mut result: String = before.to_owned();
        result.append(self.new_text.as_str());
        result.append(after);
        proof {
            let bytes = vstd::utf8::encode_utf8(contents@);
            text::lemma_encode_concat(before@, self.new_text@);
            text::lemma_encode_concat(before@ + self.new_text@, after@);
            assert(bytes.skip(self.offset as int) == bytes.subrange(
                self.offset as int,
                bytes.len() as int,
            ));
            vstd::utf8::encode_utf8_decode_utf8(result@);
        }
        result
    }
}

/// The edit that declares the module in the file with stem `file_stem`, unless `contents`
/// has its declaration already.
pub fn declare_module(contents: &str, file_stem: &str) -> (edit: Option<TextEdit>)
    ensures
        edit is None <==> planned_edit(contents@, file_stem@) is None,
        edit matches Some(edit) ==> planned_edit(contents@, file_stem@) == Some(edit@),
{
    let mut new_text: String = "mod ".to_owned();
    new_text.append(file_stem);
    new_text.append(";");
    let chars: Vec<char> = text::chars_of(contents);
    let pattern: Vec<char> = text::chars_of(new_text.as_str());
    if text::contains(&chars, &pattern) {
        return None;
    }
    new_text.append("\n");
    Some(TextEdit { offset: find_mod_insertion_offset(contents), new_text })
}

/// Splitting a text at a character is splitting its bytes at the length of the first part.
proof fn lemma_edited_split(before: Seq<char>, after: Seq<char>, new_text: Seq<char>)
    ensures
        edited(before + after, text::byte_len(before) as int, new_text) == before + new_text
            + after,
{
    let bytes = vstd::utf8::encode_utf8(before + after);
    text::lemma_encode_concat(before, after);
    text::lemma_encode_concat(before, new_text);
    text::lemma_encode_concat(before + new_text, after);
    assert(bytes.take(text::byte_len(before) as int) == vstd::utf8::encode_utf8(before));
    assert(bytes.skip(text::byte_len(before) as int) == vstd::utf8::encode_utf8(after));
    vstd::utf8::encode_utf8_decode_utf8(before + new_text + after);
}

/// Where a byte offset starts a character, the text splits there.
proof fn lemma_boundary_split(contents: Seq<char>, offset: int) -> (split: (Seq<char>, Seq<char>))
    requires
        vstd::utf8::is_char_boundary(vstd::utf8::encode_utf8(contents), offset),
    ensures
        contents == split.0 + split.1,
        text::byte_len(split.0) == offset,
{
    let bytes = vstd::utf8::encode_utf8(contents);
    vstd::utf8::encode_utf8_valid_utf8(contents);
    vstd::utf8::valid_utf8_split(bytes, offset);
    vstd::utf8::decode_utf8_split(bytes, offset);
    vstd::utf8::encode_utf8_decode_utf8(contents);
    let before = vstd::utf8::decode_utf8(bytes.subrange(0, offset));
    let after = vstd::utf8::decode_utf8(bytes.subrange(offset, bytes.len() as int));
    vstd::utf8::decode_utf8_encode_utf8(bytes.subrange(0, offset));
    lemma_boundary_in_range(bytes, offset);
    (before, after)
}

/// A prefix of a text that takes no more bytes than another is no longer.
proof fn lemma_shorter_prefix(s: Seq<char>, i: int, j: int)
    requires
        0 <= i <= s.len(),
        0 <= j <= s.len(),
        text::byte_len(s.take(i)) <= text::byte_len(s.take(j)),
    ensures
        i <= j,
{
    if j < i {
        let between = s.subrange(j, i);
        assert(s.take(i) == s.take(j) + between);
        text::lemma_encode_concat(s.take(j), between);
        text::lemma_char_bytes(between);
    }
}

/// A longer prefix of a text takes no fewer bytes.
proof fn lemma_longer_prefix(s: Seq<char>, i: int, j: int)
    requires
        0 <= i <= j <= s.len(),
    ensures
        text::byte_len(s.take(i)) <= text::byte_len(s.take(j)),
{
    assert(s.take(j) == s.take(i) + s.subrange(i, j));
    text::lemma_encode_concat(s.take(i), s.subrange(i, j));
}

proof fn lemma_boundary_in_range(bytes: Seq<u8>, offset: int)
    requires
        vstd::utf8::valid_utf8(bytes),
        vstd::utf8::is_char_boundary(bytes, offset),
    ensures
        0 <= offset <= bytes.len(),
{
}

/// Whether the module in the file with stem `file_stem` can be declared in `contents`: it is
/// declared already, or the insertion offset starts a character.
pub open spec fn attachable(contents: Seq<char>, file_stem: Seq<char>) -> bool {
    ||| text::occurs_in(contents, declaration(file_stem))
    ||| vstd::utf8::is_char_boundary(
        vstd::utf8::encode_utf8(contents),
        insertion_offset(contents) as int,
    )
}

/// Attaching a file declares its module: afterwards the declaration stands in the text.
pub proof fn law_attached_is_declared(contents: Seq<char>, file_stem: Seq<char>)
    requires
        attachable(contents, file_stem),
    ensures
        text::occurs_in(attached(contents, file_stem), declaration(file_stem)),
{
    if !text::occurs_in(contents, declaration(file_stem)) {
        let offset = insertion_offset(contents) as int;
        let (before, after) = lemma_boundary_split(contents, offset);
        let line = declaration(file_stem) + "\n"@;
        lemma_edited_split(before, after, line);
        let result = before + line + after;
        assert(result.subrange(
            before.len() as int,
            before.len() as int + declaration(file_stem).len(),
        ) == declaration(file_stem));
        assert(text::occurs_at(result, declaration(file_stem), before.len() as int));
    }
}

/// Attaching a file that is attached already changes nothing.
pub proof fn law_attach_is_idempotent(contents: Seq<char>, file_stem: Seq<char>)
    requires
        attachable(contents, file_stem),
    ensures
        attached(attached(contents, file_stem), file_stem) == attached(contents, file_stem),
{
    law_attached_is_declared(contents, file_stem);
}

/// The position behind the last line of `s` that declares a module, its terminator counted
/// in; the start of `s` where no line declares one.
pub open spec fn declarations_end(s: Seq<char>) -> nat
    decreases s.len(),
{
    if s.len() == 0 {
        0
    } else if text::line_break(s) >= s.len() {
        if declares_module(s) {
            s.len()
        } else {
            0
        }
    } else {
        let end = text::line_break(s);
        let rest = s.skip(end as int + 1);
        if last_declaration(text::lines(rest)) >= 0 {
            end + 1 + declarations_end(rest)
        } else if declares_module(text::without_carriage_return(s.take(end as int))) {
            end + 1
        } else {
            0
        }
    }
}

proof fn lemma_last_declaration_concat(a: Seq<Seq<char>>, b: Seq<Seq<char>>)
    ensures
        last_declaration(a + b) == if last_declaration(b) >= 0 {
            a.len() + last_declaration(b)
        } else {
            last_declaration(a)
        },
    decreases b.len(),
{
    if b.len() == 0 {
        assert(a + b == a);
    } else {
        assert((a + b).drop_last() == a + b.drop_last());
        lemma_last_declaration_concat(a, b.drop_last());
    }
}

proof fn lemma_span_concat(a: Seq<Seq<char>>, b: Seq<Seq<char>>)
    ensures
        span(a + b) == span(a) + span(b),
    decreases b.len(),
{
    if b.len() == 0 {
        assert(a + b == a);
    } else {
        assert((a + b).drop_last() == a + b.drop_last());
        lemma_span_concat(a, b.drop_last());
    }
}

/// The lines of a text up to `declarations_end` are those up to the last declaration, and the
/// text splits there between two lines, or at its end.
#[verifier::rlimit(40)]
pub proof fn law_declarations_end(s: Seq<char>)
    ensures
        declarations_end(s) <= s.len(),
        text::starts_line(s, declarations_end(s) as int) || declarations_end(s) == s.len(),
        text::lines(s.take(declarations_end(s) as int)) == text::lines(s).take(
            last_declaration(text::lines(s)) + 1,
        ),
        text::lines(s.skip(declarations_end(s) as int)) == text::lines(s).skip(
            last_declaration(text::lines(s)) + 1,
        ),
        last_declaration(text::lines(s.skip(declarations_end(s) as int))) == -1,
    decreases s.len(),
{
    let n = declarations_end(s) as int;
    let all = text::lines(s);
    let last = last_declaration(all);
    lemma_last_declaration_range(all);
    if s.len() == 0 {
        assert(s.take(0) == s && s.skip(0) == s);
        assert(all.take(0) == all && all.skip(0) == all);
    } else if text::line_break(s) >= s.len() {
        assert(all.drop_last() == Seq::<Seq<char>>::empty());
        assert(all.last() == s);
        assert(last_declaration(all.drop_last()) == -1);
        assert(s.take(s.len() as int) == s && s.skip(0) == s);
        assert(s.take(0) == Seq::<char>::empty() && s.skip(s.len() as int) == Seq::<char>::empty());
        assert(all.take(0) == Seq::<Seq<char>>::empty() && all.skip(1) == Seq::<Seq<char>>::empty());
        assert(all.take(1) == all && all.skip(0) == all);
    } else {
        text::lemma_line_break(s);
        let end = text::line_break(s) as int;
        let head = s.take(end + 1);
        let rest = s.skip(end + 1);
        let first = seq![text::without_carriage_return(s.take(end))];
        assert(first.drop_last() == Seq::<Seq<char>>::empty());
        law_declarations_end(rest);
        lemma_last_declaration_concat(first, text::lines(rest));
        assert(s == head + rest);
        assert(head.last() == '\n');
        text::lemma_first_line(s);
        if last_declaration(text::lines(rest)) >= 0 {
            let m = declarations_end(rest) as int;
            assert(s.take(n) == head + rest.take(m));
            assert(s.skip(n) == rest.skip(m));
            text::lemma_lines_concat(head, rest.take(m));
            assert(all.take(last + 1) == first + text::lines(rest).take(
                last_declaration(text::lines(rest)) + 1,
            ));
            assert(all.skip(last + 1) == text::lines(rest).skip(
                last_declaration(text::lines(rest)) + 1,
            ));
            if m > 0 && m < rest.len() {
                assert(s[n - 1] == rest[m - 1]);
            } else if m == 0 {
                assert(s[n - 1] == head.last());
            }
        } else if declares_module(first[0]) {
            assert(first.last() == first[0]);
            assert(last == 0);
            assert(s.take(n) == head && s.skip(n) == rest);
            assert(all.take(1) == first);
            assert(all.skip(1) == text::lines(rest));
            lemma_last_declaration_range(text::lines(rest));
        } else {
            assert(s.take(0) == Seq::<char>::empty() && s.skip(0) == s);
            assert(all.take(0) == Seq::<Seq<char>>::empty() && all.skip(0) == all);
            assert(first.last() == first[0]);
            assert(last_declaration(first.drop_last()) == -1);
            assert(last == -1);
        }
    }
}

/// 1 where the last line of `s` has no terminator, 0 where it has one or there is no line.
pub open spec fn unterminated(s: Seq<char>) -> nat {
    if s.len() > 0 && s.last() != '\n' {
        1
    } else {
        0
    }
}

/// Counting each line with one line feed misses the carriage returns in the terminators, and
/// counts one too many where the last line has no terminator.
proof fn lemma_span_lines(s: Seq<char>)
    ensures
        span(text::lines(s)) + text::carriage_returns(s) == text::byte_len(s) + unterminated(s),
    decreases s.len(),
{
    text::lemma_line_break(s);
    let all = text::lines(s);
    if s.len() == 0 {
    } else if text::line_break(s) >= s.len() {
        assert(all.drop_last() == Seq::<Seq<char>>::empty());
        assert(s[s.len() - 1] != '\n');
        assert(span(all.drop_last()) == 0);
    } else {
        let end = text::line_break(s) as int;
        let rest = s.skip(end + 1);
        let line = text::without_carriage_return(s.take(end));
        let first = seq![line];
        lemma_span_lines(rest);
        lemma_span_concat(first, text::lines(rest));
        assert(first.drop_last() == Seq::<Seq<char>>::empty());
        assert(span(first.drop_last()) == 0);
        assert(span(first) == text::byte_len(line) + 1);
        text::lemma_terminator_bytes();
        let terminator = if end > 0 && s[end - 1] == '\r' {
            seq!['\r', '\n']
        } else {
            seq!['\n']
        };
        assert(s == line + terminator + rest);
        text::lemma_encode_concat(line, terminator);
        text::lemma_encode_concat(line + terminator, rest);
        if rest.len() > 0 {
            assert(rest.last() == s.last());
        }
    }
}

/// The insertion offset is the end of the declarations, short by the carriage returns in the
/// line terminators up to there.
pub proof fn law_insertion_offset(contents: Seq<char>)
    ensures
        ({
            let head = contents.take(declarations_end(contents) as int);
            let behind = text::byte_len(head) + unterminated(head) - text::carriage_returns(head);
            insertion_offset(contents) == if behind <= text::byte_len(contents) {
                behind
            } else {
                text::byte_len(contents) as int
            }
        }),
{
    let head = contents.take(declarations_end(contents) as int);
    law_declarations_end(contents);
    lemma_span_lines(head);
    lemma_last_declaration_range(text::lines(contents));
    if last_declaration(text::lines(contents)) < 0 {
        assert(text::lines(contents).take(0) == Seq::<Seq<char>>::empty());
        assert(text::lines(head).len() == 0);
        assert(span(text::lines(head)) == 0);
    }
}

/// Whether the insertion offset is not led astray by carriage returns: up to the last
/// declaration no line ends with a carriage return and a line feed, save for one where the
/// declaration ends the text without a terminator.
pub open spec fn plain_line_feeds(contents: Seq<char>) -> bool {
    let head = contents.take(declarations_end(contents) as int);
    text::carriage_returns(head) <= unterminated(head)
}

/// With plain line feeds a new declaration goes directly behind the last one: between two
/// lines, or at the end of the text.
pub proof fn law_insertion_behind_declarations(contents: Seq<char>)
    requires
        plain_line_feeds(contents),
    ensures
        insertion_offset(contents) == text::byte_len(
            contents.take(declarations_end(contents) as int),
        ),
        vstd::utf8::is_char_boundary(
            vstd::utf8::encode_utf8(contents),
            insertion_offset(contents) as int,
        ),
{
    let n = declarations_end(contents) as int;
    let head = contents.take(n);
    law_insertion_offset(contents);
    law_declarations_end(contents);
    assert(contents == head + contents.skip(n));
    text::lemma_encode_concat(head, contents.skip(n));
    text::lemma_prefix_is_boundary(head, contents.skip(n));
    if unterminated(head) == 1 {
        if n != contents.len() {
            assert(head.last() == contents[n - 1]);
        }
        assert(contents.skip(contents.len() as int) == Seq::<char>::empty());
    }
}

proof fn lemma_declaration_text(file_stem: Seq<char>)
    ensures
        declaration(file_stem) == seq!['m', 'o', 'd', ' '] + file_stem + seq![';'],
        declaration(file_stem).len() == file_stem.len() + 5,
        declares_module(declaration(file_stem)),
{
    reveal_strlit("mod ");
    reveal_strlit(";");
    let line = declaration(file_stem);
    assert("mod "@ == seq!['m', 'o', 'd', ' ']);
    assert(";"@ == seq![';']);
    assert(text::trimmed_start(line) == line) by {
        assert(line[0] == 'm');
    }
    assert(text::trimmed_end(line) == line) by {
        assert(line.last() == ';');
    }
    assert(line.subrange(0, 4) == "mod "@);
    assert(line.subrange(line.len() - 1, line.len() as int) == ";"@);
}

/// Attaching a file adds one line, the declaration, directly behind the last line that
/// declares a module, or in front of all lines where none does; every other line stays. The
/// text has plain line feeds, the last declaration has a terminator, and the file stem is a
/// single line.
pub proof fn law_attach_adds_a_line(contents: Seq<char>, file_stem: Seq<char>)
    requires
        plain_line_feeds(contents),
        text::starts_line(contents, declarations_end(contents) as int),
        !file_stem.contains('\n'),
        !text::occurs_in(contents, declaration(file_stem)),
    ensures
        text::lines(attached(contents, file_stem)) == text::lines(contents).insert(
            last_declaration(text::lines(contents)) + 1,
            declaration(file_stem),
        ),
        last_declaration(text::lines(attached(contents, file_stem))) == last_declaration(
            text::lines(contents),
        ) + 1,
{
    let n = declarations_end(contents) as int;
    let head = contents.take(n);
    let tail = contents.skip(n);
    let line = declaration(file_stem);
    let all = text::lines(contents);
    let at = last_declaration(all) + 1;
    law_declarations_end(contents);
    law_insertion_behind_declarations(contents);
    lemma_last_declaration_range(all);
    assert(contents == head + tail);
    reveal_strlit("\n");
    assert("\n"@ == seq!['\n']);
    let added = line + seq!['\n'];
    lemma_edited_split(head, tail, added);
    lemma_declaration_text(file_stem);
    assert(text::lines(added) == seq![line]) by {
        assert forall|i: int| 0 <= i < line.len() implies #[trigger] added[i] != '\n' by {
            if 4 <= i < line.len() - 1 {
                assert(added[i] == file_stem[i - 4]);
                assert(file_stem.contains(file_stem[i - 4]));
            }
        }
        text::lemma_line_break_at(added, line.len() as int);
        assert(added.take(line.len() as int) == line);
        assert(line.last() == ';');
        assert(text::lines(Seq::<char>::empty()) == Seq::<Seq<char>>::empty());
        assert(added.skip(line.len() as int + 1) == Seq::<char>::empty());
        assert(seq![line] + Seq::<Seq<char>>::empty() == seq![line]);
    }
    if n > 0 {
        assert(head.last() == contents[n - 1]);
    }
    text::lemma_lines_concat(head, added + tail);
    text::lemma_lines_concat(added, tail);
    assert(head + added + tail == head + (added + tail));
    assert(all.insert(at, line) == all.take(at) + (seq![line] + all.skip(at)));
    lemma_last_declaration_concat(all.take(at), seq![line] + all.skip(at));
    lemma_last_declaration_concat(seq![line], all.skip(at));
    assert(seq![line].last() == line);
    assert(last_declaration(seq![line]) == 0);
}

/// Attaching a file keeps what stands on either side of the insertion offset.
pub proof fn law_attach_keeps_sides(
    contents: Seq<char>,
    file_stem: Seq<char>,
    pattern: Seq<char>,
    at: int,
)
    requires
        attachable(contents, file_stem),
        text::occurs_at(contents, pattern, at),
        text::byte_len(contents.take(at + pattern.len())) <= insertion_offset(contents)
            || insertion_offset(contents) <= text::byte_len(contents.take(at)),
    ensures
        text::occurs_in(attached(contents, file_stem), pattern),
{
    if text::occurs_in(contents, declaration(file_stem)) {
        assert(text::occurs_at(contents, pattern, at));
    } else {
        let offset = insertion_offset(contents) as int;
        let (before, after) = lemma_boundary_split(contents, offset);
        let line = declaration(file_stem) + "\n"@;
        lemma_edited_split(before, after, line);
        let result = before + line + after;
        let end = at + pattern.len() as int;
        assert(contents.take(before.len() as int) == before);
        if text::byte_len(contents.take(end)) <= offset {
            lemma_shorter_prefix(contents, end, before.len() as int);
            assert(result.subrange(at, end) == contents.subrange(at, end));
            assert(text::occurs_at(result, pattern, at));
        } else {
            lemma_shorter_prefix(contents, before.len() as int, at);
            let moved = at + line.len() as int;
            assert(result.subrange(moved, moved + pattern.len()) == contents.subrange(at, end));
            assert(text::occurs_at(result, pattern, moved));
        }
    }
}

/// With plain line feeds, attaching a file keeps whatever stood within a line, such as the
/// declarations of other modules.
pub proof fn law_attach_keeps_text(contents: Seq<char>, file_stem: Seq<char>, pattern: Seq<char>)
    requires
        plain_line_feeds(contents) || text::occurs_in(contents, declaration(file_stem)),
        !pattern.contains('\n'),
        text::occurs_in(contents, pattern),
    ensures
        text::occurs_in(attached(contents, file_stem), pattern),
{
    if !text::occurs_in(contents, declaration(file_stem)) {
        let at = choose|at: int| #[trigger] text::occurs_at(contents, pattern, at);
        let end = at + pattern.len() as int;
        let n = declarations_end(contents) as int;
        law_declarations_end(contents);
        law_insertion_behind_declarations(contents);
        if at < n < end {
            assert(pattern[n - 1 - at] == contents.subrange(at, end)[n - 1 - at]);
            assert(contents[n - 1] == '\n');
            assert(pattern.contains(pattern[n - 1 - at]));
        }
        if end <= n {
            lemma_longer_prefix(contents, end, n);
        } else {
            lemma_longer_prefix(contents, n, at);
        }
        law_attach_keeps_sides(contents, file_stem, pattern, at);
    }
}

/// A text without carriage returns has plain line feeds.
pub proof fn law_no_carriage_return(contents: Seq<char>)
    requires
        !contents.contains('\r'),
    ensures
        plain_line_feeds(contents),
{
    let head = contents.take(declarations_end(contents) as int);
    law_declarations_end(contents);
    assert(!head.contains('\r')) by {
        if head.contains('\r') {
            let i = choose|i: int| 0 <= i < head.len() && head[i] == '\r';
            assert(contents[i] == '\r');
        }
    }
    text::lemma_no_carriage_return(head);
}

/// Whether a line of `s` goes from `i` to `j`, its line feed left out.
pub open spec fn line_at(s: Seq<char>, i: int, j: int) -> bool {
    &&& 0 <= i <= j <= s.len()
    &&& i < s.len()
    &&& i == 0 || s[i - 1] == '\n'
    &&& j == s.len() || s[j] == '\n'
    &&& forall|k: int| i <= k < j ==> #[trigger] s[k] != '\n'
}

/// Whether `s` between `i` and `j` reads, from `a` to `b`, `mod `, anything and a semicolon,
/// with nothing but white space around.
pub open spec fn mod_text_at(s: Seq<char>, i: int, j: int, a: int, b: int) -> bool {
    &&& i <= a
    &&& a + 5 <= b <= j
    &&& s[a] == 'm'
    &&& s[a + 1] == 'o'
    &&& s[a + 2] == 'd'
    &&& s[a + 3] == ' '
    &&& s[b - 1] == ';'
    &&& forall|k: int| i <= k < a ==> text::white_space(#[trigger] s[k])
    &&& forall|k: int| b <= k < j ==> text::white_space(#[trigger] s[k])
}

/// Whether a line of `s` from `i` to `j` declares a module, by its characters.
pub open spec fn mod_line_at(s: Seq<char>, i: int, j: int) -> bool {
    &&& line_at(s, i, j)
    &&& exists|a: int, b: int| #[trigger] mod_text_at(s, i, j, a, b)
}

/// A line declares a module exactly if it reads `mod `, anything and a semicolon, with nothing
/// but white space around: no other statement is taken for a declaration.
pub proof fn law_declares_module(line: Seq<char>)
    ensures
        declares_module(line) <==> exists|a: int, b: int| #[trigger]
            mod_text_at(line, 0, line.len() as int, a, b),
{
    let n = line.len() as int;
    reveal_strlit("mod ");
    reveal_strlit(";");
    assert("mod "@ == seq!['m', 'o', 'd', ' ']);
    assert(";"@ == seq![';']);
    if declares_module(line) {
        let (a, b) = text::lemma_trimmed_range(line);
        let code = line.subrange(a, b);
        assert(code.subrange(0, 4) == "mod "@);
        assert(code.subrange(0, 4)[0] == code[0]);
        assert(code.subrange(0, 4)[1] == code[1]);
        assert(code.subrange(0, 4)[2] == code[2]);
        assert(code.subrange(0, 4)[3] == code[3]);
        assert(code.subrange(code.len() - 1, code.len() as int)[0] == code[code.len() - 1]);
        assert(code[code.len() - 1] == line[b - 1]);
        assert(code[3] != code[code.len() - 1]);
        assert(mod_text_at(line, 0, n, a, b));
    }
    if exists|a: int, b: int| #[trigger] mod_text_at(line, 0, n, a, b) {
        let (a, b) = choose|a: int, b: int| #[trigger] mod_text_at(line, 0, n, a, b);
        let before = line.take(a);
        let code = line.subrange(a, b);
        let after = line.skip(b);
        assert forall|k: int| 0 <= k < after.len() implies text::white_space(
            #[trigger] after[k],
        ) by {
            assert(text::white_space(line[b + k]));
        }
        text::law_trimmed(before, code, after);
        assert(line == before + code + after);
        assert(code.subrange(0, 4) == "mod "@);
        assert(code.subrange(code.len() - 1, code.len() as int) == ";"@);
    }
}

/// Whether a line declares a module does not depend on what surrounds it.
proof fn lemma_mod_text_shift(s: Seq<char>, i: int, j: int)
    requires
        0 <= i <= j <= s.len(),
    ensures
        (exists|a: int, b: int| #[trigger] mod_text_at(s, i, j, a, b)) <==> declares_module(
            s.subrange(i, j),
        ),
{
    let line = s.subrange(i, j);
    law_declares_module(line);
    if exists|a: int, b: int| #[trigger] mod_text_at(s, i, j, a, b) {
        let (a, b) = choose|a: int, b: int| #[trigger] mod_text_at(s, i, j, a, b);
        assert forall|k: int| b - i <= k < line.len() implies text::white_space(
            #[trigger] line[k],
        ) by {
            assert(text::white_space(s[k + i]));
        }
        assert forall|k: int| 0 <= k < a - i implies text::white_space(#[trigger] line[k]) by {
            assert(text::white_space(s[k + i]));
        }
        assert(mod_text_at(line, 0, line.len() as int, a - i, b - i));
    }
    if declares_module(line) {
        let (a, b) = choose|a: int, b: int| #[trigger]
            mod_text_at(line, 0, line.len() as int, a, b);
        assert forall|k: int| b + i <= k < j implies text::white_space(#[trigger] s[k]) by {
            assert(text::white_space(line[k - i]));
        }
        assert forall|k: int| i <= k < a + i implies text::white_space(#[trigger] s[k]) by {
            assert(text::white_space(line[k - i]));
        }
        assert(s[a + i] == line[a] && s[a + 1 + i] == line[a + 1]);
        assert(s[a + 2 + i] == line[a + 2] && s[a + 3 + i] == line[a + 3]);
        assert(s[b - 1 + i] == line[b - 1]);
        assert(mod_text_at(s, i, j, a + i, b + i));
    }
}

/// A carriage return at its end does not change whether a line declares a module.
proof fn lemma_declares_with_return(line: Seq<char>)
    ensures
        declares_module(text::without_carriage_return(line)) == declares_module(line),
{
    let bare = text::without_carriage_return(line);
    if bare != line {
        law_declares_module(line);
        law_declares_module(bare);
        let n = line.len() as int;
        if declares_module(bare) {
            let (a, b) = choose|a: int, b: int| #[trigger] mod_text_at(bare, 0, n - 1, a, b);
            assert forall|k: int| b <= k < n implies text::white_space(#[trigger] line[k]) by {
                if k < n - 1 {
                    assert(text::white_space(bare[k]));
                }
            }
            assert forall|k: int| 0 <= k < a implies text::white_space(#[trigger] line[k]) by {
                assert(text::white_space(bare[k]));
            }
            assert(mod_text_at(line, 0, n, a, b));
        }
        if declares_module(line) {
            let (a, b) = choose|a: int, b: int| #[trigger] mod_text_at(line, 0, n, a, b);
            assert(line[b - 1] == ';');
            assert(line[n - 1] == '\r');
            assert forall|k: int| b <= k < n - 1 implies text::white_space(#[trigger] bare[k]) by {
                assert(text::white_space(line[k]));
            }
            assert forall|k: int| 0 <= k < a implies text::white_space(#[trigger] bare[k]) by {
                assert(text::white_space(line[k]));
            }
            assert(mod_text_at(bare, 0, n - 1, a, b));
        }
    }
}

/// Behind the first line of a text, its lines are those of the rest.
proof fn lemma_line_at_rest(s: Seq<char>, end: int, i: int, j: int)
    requires
        end == text::line_break(s),
        end < s.len(),
    ensures
        line_at(s, i, j) <==> (i == 0 && j == end) || line_at(
            s.skip(end + 1),
            i - end - 1,
            j - end - 1,
        ),
{
    text::lemma_line_break(s);
    let rest = s.skip(end + 1);
    if line_at(s, i, j) {
        if i == 0 {
            if j < end {
                assert(s[j] != '\n');
            } else if end < j {
                assert(s[end] != '\n');
            }
        } else {
            if i <= end {
                assert(s[i - 1] != '\n');
            }
            assert forall|k: int| i - end - 1 <= k < j - end - 1 implies #[trigger] rest[k]
                != '\n' by {
                assert(s[k + end + 1] != '\n');
            }
            assert(line_at(rest, i - end - 1, j - end - 1));
        }
    }
    if line_at(rest, i - end - 1, j - end - 1) {
        assert forall|k: int| i <= k < j implies #[trigger] s[k] != '\n' by {
            assert(rest[k - end - 1] != '\n');
        }
        if i > end + 1 {
            assert(rest[i - end - 2] == '\n');
        }
        if j < s.len() {
            assert(rest[j - end - 1] == '\n');
        }
    }
}

proof fn lemma_mod_line_at_rest(s: Seq<char>, end: int, i: int, j: int)
    requires
        end == text::line_break(s),
        end < s.len(),
        i > 0,
    ensures
        mod_line_at(s, i, j) <==> mod_line_at(s.skip(end + 1), i - end - 1, j - end - 1),
{
    let rest = s.skip(end + 1);
    lemma_line_at_rest(s, end, i, j);
    if line_at(s, i, j) {
        lemma_mod_text_shift(s, i, j);
        lemma_mod_text_shift(rest, i - end - 1, j - end - 1);
        assert(rest.subrange(i - end - 1, j - end - 1) == s.subrange(i, j));
    }
}

/// The last line that declares a module, by its place in the text.
proof fn lemma_last_mod_line(s: Seq<char>) -> (at: (int, int))
    ensures
        last_declaration(text::lines(s)) < 0 ==> forall|i: int, j: int| !#[trigger]
            mod_line_at(s, i, j),
        last_declaration(text::lines(s)) >= 0 ==> {
            &&& mod_line_at(s, at.0, at.1)
            &&& declarations_end(s) == if at.1 < s.len() {
                at.1 + 1
            } else {
                s.len() as int
            }
            &&& forall|i: int, j: int| #[trigger] mod_line_at(s, i, j) ==> i <= at.0
        },
    decreases s.len(),
{
    let all = text::lines(s);
    text::lemma_line_break(s);
    if s.len() == 0 {
        (0, 0)
    } else if text::line_break(s) >= s.len() {
        let n = s.len() as int;
        assert(all.last() == s);
        assert(all.drop_last() == Seq::<Seq<char>>::empty());
        assert(last_declaration(all.drop_last()) == -1);
        assert(s.subrange(0, n) == s);
        assert(line_at(s, 0, n));
        lemma_mod_text_shift(s, 0, n);
        assert forall|i: int, j: int| #[trigger] line_at(s, i, j) implies i == 0 && j == n by {
            if i > 0 {
                assert(s[i - 1] != '\n');
            }
            if j < n {
                assert(s[j] != '\n');
            }
        }
        assert forall|i: int, j: int| #[trigger] mod_line_at(s, i, j) implies i == 0 && j == n by {
            assert(line_at(s, i, j));
        }
        (0, n)
    } else {
        let end = text::line_break(s) as int;
        let rest = s.skip(end + 1);
        let first = seq![text::without_carriage_return(s.take(end))];
        let (i0, j0) = lemma_last_mod_line(rest);
        lemma_last_declaration_concat(first, text::lines(rest));
        lemma_last_declaration_range(text::lines(rest));
        assert(first.last() == first[0]);
        assert(first.drop_last() == Seq::<Seq<char>>::empty());
        assert(last_declaration(first.drop_last()) == -1);
        lemma_declares_with_return(s.take(end));
        assert(s.subrange(0, end) == s.take(end));
        lemma_mod_text_shift(s, 0, end);
        lemma_line_at_rest(s, end, 0, end);
        assert(mod_line_at(s, 0, end) <==> declares_module(first[0]));
        assert forall|i: int, j: int| #[trigger] mod_line_at(s, i, j) implies (i == 0 && j == end)
            || mod_line_at(rest, i - end - 1, j - end - 1) by {
            lemma_line_at_rest(s, end, i, j);
            if i > 0 {
                lemma_mod_line_at_rest(s, end, i, j);
            }
        }
        if last_declaration(text::lines(rest)) >= 0 {
            lemma_mod_line_at_rest(s, end, i0 + end + 1, j0 + end + 1);
            (i0 + end + 1, j0 + end + 1)
        } else {
            (0, end)
        }
    }
}

/// The number of carriage returns with a line feed behind them in `s`.
pub open spec fn return_feeds(s: Seq<char>) -> nat
    decreases s.len(),
{
    if s.len() < 2 {
        0
    } else if s.last() == '\n' && s[s.len() - 2] == '\r' {
        return_feeds(s.drop_last()) + 1
    } else {
        return_feeds(s.drop_last())
    }
}

proof fn lemma_return_feeds_concat(a: Seq<char>, b: Seq<char>)
    requires
        a.len() == 0 || a.last() == '\n',
    ensures
        return_feeds(a + b) == return_feeds(a) + return_feeds(b),
    decreases b.len(),
{
    if b.len() == 0 {
        assert(a + b == a);
    } else {
        assert((a + b).drop_last() == a + b.drop_last());
        lemma_return_feeds_concat(a, b.drop_last());
        if b.len() == 1 && a.len() > 0 {
            assert((a + b)[(a + b).len() - 2] == a.last());
        }
    }
}

proof fn lemma_no_return_feeds(s: Seq<char>)
    requires
        forall|i: int| 0 <= i < s.len() ==> #[trigger] s[i] != '\n',
    ensures
        return_feeds(s) == 0,
    decreases s.len(),
{
    if s.len() >= 2 {
        assert(s[s.len() - 1] != '\n');
        assert forall|i: int| 0 <= i < s.drop_last().len() implies #[trigger] s.drop_last()[i]
            != '\n' by {
            assert(s[i] != '\n');
        }
        lemma_no_return_feeds(s.drop_last());
    }
}

proof fn lemma_return_feeds(s: Seq<char>)
    ensures
        return_feeds(s) == text::carriage_returns(s),
    decreases s.len(),
{
    text::lemma_line_break(s);
    if text::line_break(s) >= s.len() {
        lemma_no_return_feeds(s);
    } else {
        let end = text::line_break(s) as int;
        let head = s.take(end + 1);
        let rest = s.skip(end + 1);
        assert(s == head + rest);
        assert(head.last() == '\n');
        lemma_return_feeds_concat(head, rest);
        lemma_return_feeds(rest);
        assert(head.drop_last() == s.take(end));
        lemma_no_return_feeds(s.take(end));
    }
}

/// Without a line that declares a module, a declaration goes to the start of the text.
pub proof fn law_offset_without_declaration(contents: Seq<char>)
    requires
        forall|i: int, j: int| !#[trigger] mod_line_at(contents, i, j),
    ensures
        insertion_offset(contents) == 0,
{
    let at = lemma_last_mod_line(contents);
    assert(!mod_line_at(contents, at.0, at.1));
}

/// Where the line from `i` to `j` is the last that declares a module, a declaration goes behind
/// its line feed: by the bytes of the text up to `j` and one more, less one for each carriage
/// return that belongs to a line feed, and never past the end of the text.
pub proof fn law_offset_behind_declaration(contents: Seq<char>, i: int, j: int)
    requires
        mod_line_at(contents, i, j),
        forall|later: int, end: int| i < later ==> !#[trigger] mod_line_at(contents, later, end),
    ensures
        ({
            let head = contents.take(
                if j < contents.len() {
                    j + 1
                } else {
                    j
                },
            );
            let behind = vstd::utf8::encode_utf8(contents.take(j)).len() + 1 - return_feeds(head);
            let total = vstd::utf8::encode_utf8(contents).len() as int;
            insertion_offset(contents) == if behind <= total {
                behind
            } else {
                total
            }
        }),
{
    let (i0, j0) = lemma_last_mod_line(contents);
    assert(last_declaration(text::lines(contents)) >= 0);
    assert(i0 == i);
    assert(j0 == j) by {
        if j0 < j {
            assert(contents[j0] != '\n');
        } else if j < j0 {
            assert(contents[j] != '\n');
        }
    }
    let n = declarations_end(contents) as int;
    let head = contents.take(n);
    law_insertion_offset(contents);
    lemma_return_feeds(head);
    if j < contents.len() {
        text::lemma_terminator_bytes();
        text::lemma_encode_concat(contents.take(j), seq!['\n']);
        assert(head == contents.take(j) + seq!['\n']);
    } else {
        assert(head == contents.take(j));
        assert(contents[j - 1] != '\n');
    }
}

/// Without carriage returns a declaration goes directly behind the line feed of the last line
/// that declares a module.
pub proof fn law_offset_of_plain_text(contents: Seq<char>, i: int, j: int)
    requires
        mod_line_at(contents, i, j),
        forall|later: int, end: int| i < later ==> !#[trigger] mod_line_at(contents, later, end),
        j < contents.len(),
        !contents.take(j).contains('\r'),
    ensures
        insertion_offset(contents) == vstd::utf8::encode_utf8(contents.take(j + 1)).len(),
{
    law_offset_behind_declaration(contents, i, j);
    let head = contents.take(j + 1);
    text::lemma_terminator_bytes();
    text::lemma_encode_concat(contents.take(j), seq!['\n']);
    assert(head == contents.take(j) + seq!['\n']);
    text::lemma_encode_concat(head, contents.skip(j + 1));
    assert(contents == head + contents.skip(j + 1));
    assert(!head.contains('\r')) by {
        if head.contains('\r') {
            let k = choose|k: int| 0 <= k < head.len() && head[k] == '\r';
            assert(contents.take(j)[k] == '\r');
        }
    }
    text::lemma_no_carriage_return(head);
    lemma_return_feeds(head);
}

/// An edit puts its text between what stood in front of its offset and what stood behind it.
pub proof fn law_edited(before: Seq<char>, after: Seq<char>, new_text: Seq<char>)
    ensures
        edited(before + after, vstd::utf8::encode_utf8(before).len() as int, new_text) == before
            + new_text + after,
{
    lemma_edited_split(before, after, new_text);
}

/// `mod `, `file_stem` and a semicolon.
pub open spec fn mod_statement(file_stem: Seq<char>) -> Seq<char> {
    seq!['m', 'o', 'd', ' '] + file_stem + seq![';']
}

/// What `declare_module` gives: no edit exactly if the declaration stands somewhere in the text
/// already, and else the declaration and a line feed, at the insertion offset.
pub proof fn law_declare_module(
    contents: Seq<char>,
    file_stem: Seq<char>,
    edit: Option<TextEdit>,
)
    requires
        edit is None <==> planned_edit(contents, file_stem) is None,
        edit matches Some(edit) ==> planned_edit(contents, file_stem) == Some(edit@),
    ensures
        edit is None <==> exists|before: Seq<char>, after: Seq<char>|
            contents == #[trigger] (before + mod_statement(file_stem) + after),
        edit matches Some(edit) ==> {
            &&& edit.offset == insertion_offset(contents)
            &&& edit.new_text@ == seq!['m', 'o', 'd', ' '] + file_stem + seq![';', '\n']
        },
{
    lemma_declaration_text(file_stem);
    let line = mod_statement(file_stem);
    text::law_occurs_in(contents, line);
    reveal_strlit("\n");
    assert("\n"@ == seq!['\n']);
    assert(line + seq!['\n'] == seq!['m', 'o', 'd', ' '] + file_stem + seq![';', '\n']);
}

/// Attaching a file to a text that lacks its declaration puts the declaration, on a line of
/// its own, in at the insertion offset and leaves the rest; a text that has it stays.
pub proof fn law_attached(before: Seq<char>, after: Seq<char>, file_stem: Seq<char>)
    requires
        insertion_offset(before + after) == vstd::utf8::encode_utf8(before).len(),
    ensures
        (exists|a: Seq<char>, b: Seq<char>|
            before + after == #[trigger] (a + mod_statement(file_stem) + b)) ==> attached(before + after, file_stem) == before + after,
        !(exists|a: Seq<char>, b: Seq<char>|
            before + after == #[trigger] (a + mod_statement(file_stem) + b)) ==> attached(before + after, file_stem) == before + (seq!['m', 'o', 'd', ' ']
            + file_stem + seq![';', '\n']) + after,
{
    lemma_declaration_text(file_stem);
    let line = mod_statement(file_stem);
    text::law_occurs_in(before + after, line);
    reveal_strlit("\n");
    assert("\n"@ == seq!['\n']);
    let added = seq!['m', 'o', 'd', ' '] + file_stem + seq![';', '\n'];
    assert(line + seq!['\n'] == added);
    lemma_edited_split(before, after, added);
}

} // verus!
