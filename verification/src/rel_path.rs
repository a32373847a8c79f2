//! Normalized relative paths.

use crate::text;
use vstd::prelude::*;

verus! {

/// Whether `name` can be a component of a path: it is not empty, holds no separator, and is
/// neither the current nor the parent directory.
pub open spec fn valid_component(name: Seq<char>) -> bool {
    &&& name.len() > 0
    &&& !name.contains('/')
    &&& name != "."@
    &&& name != ".."@
}

/// Whether every component of `path` can be one.
pub open spec fn valid_path(path: Seq<Seq<char>>) -> bool {
    forall|i: int| 0 <= i < path.len() ==> valid_component(#[trigger] path[i])
}

/// The position of the first separator of `s`, or its length where it has none.
pub open spec fn separator(s: Seq<char>) -> nat
    decreases s.len(),
{
    if s.len() == 0 || s[0] == '/' {
        0
    } else {
        1 + separator(s.drop_first())
    }
}

/// The pieces of `s` between its separators.
pub open spec fn split(s: Seq<char>) -> Seq<Seq<char>>
    decreases s.len(),
{
    if separator(s) >= s.len() {
        seq![s]
    } else {
        let end = separator(s) as int;
        seq![s.take(end)] + split(s.skip(end + 1))
    }
}

/// The components of the path written as `s`; the empty path has none.
pub open spec fn components(s: Seq<char>) -> Seq<Seq<char>> {
    if s.len() == 0 {
        seq![]
    } else {
        split(s)
    }
}

/// `path` written with a separator between each two components.
pub open spec fn joined(path: Seq<Seq<char>>) -> Seq<char>
    decreases path.len(),
{
    if path.len() == 0 {
        seq![]
    } else if path.len() == 1 {
        path[0]
    } else {
        joined(path.drop_last()) + "/"@ + path.last()
    }
}

/// The position of the last dot of `name`, or -1 where it has none.
pub open spec fn last_dot(name: Seq<char>) -> int
    decreases name.len(),
{
    if name.len() == 0 {
        -1
    } else if name.last() == '.' {
        name.len() - 1
    } else {
        last_dot(name.drop_last())
    }
}

/// The part of the file name `name` in front of its last dot, or all of it where it has no
/// dot but at its start.
pub open spec fn stem(name: Seq<char>) -> Seq<char> {
    if last_dot(name) > 0 {
        name.take(last_dot(name))
    } else {
        name
    }
}

/// The part of the file name `name` behind its last dot, if it has one that is not at its
/// start.
pub open spec fn suffix(name: Seq<char>) -> Option<Seq<char>> {
    if last_dot(name) > 0 {
        Some(name.skip(last_dot(name) + 1))
    } else {
        None
    }
}

/// A path relative to the root of a worktree, in normal form: `/` separates its components,
/// and none is empty, `.` or `..`.
#[derive(Debug)]
pub struct RelPath {
    components: Vec<String>,
}

impl View for RelPath {
    type V = Seq<Seq<char>>;

    closed spec fn view(&self) -> Seq<Seq<char>> {
        self.components@.map_values(|name: String| name@)
    }
}

impl Clone for RelPath {
    fn clone(&self) -> (result: RelPath)
        ensures
            result@ == self@,
    {
        proof {
            use_type_invariant(self);
        }
        let components: Vec<String> = self.components.clone();
        assert(components@.map_values(|name: String| name@) == self@);
        RelPath { components }
    }
}

impl RelPath {
    #[verifier::type_invariant]
    spec fn normalized(self) -> bool {
        valid_path(self@)
    }

    /// The path written as `path`, if that is in normal form.
    pub fn unix(path: &str) -> (result: Option<RelPath>)
        ensures
            result is Some <==> valid_path(components(path@)),
            result matches Some(result) ==> result@ == components(path@),
    {
        if path.is_empty() {
            let components: Vec<String> = Vec::new();
            assert(components@.map_values(|name: String| name@) == Seq::<Seq<char>>::empty());
            return Some(RelPath { components });
        }
        let chars: Vec<char> = text::chars_of(path);
        let ghost s = path@;
        let mut names: Vec<String> = Vec::new();
        let mut start: usize = 0;
        let mut more = true;
        assert(s.skip(0) == s);
        assert(names@.map_values(|name: String| name@) + split(s) == split(s));
        while more
            invariant
                chars@ == s,
                s == path@,
                start <= s.len(),
                more ==> components(s) == names@.map_values(|name: String| name@) + split(
                    s.skip(start as int),
                ),
                !more ==> components(s) == names@.map_values(|name: String| name@),
                s.len() > 0,
                valid_path(names@.map_values(|name: String| name@)),
            decreases s.len() - start + if more { 1int } else { 0int },
        {
            let ghost rest = s.skip(start as int);
            let mut end: usize = start;
            assert(rest == s.skip(end as int));
            while end < chars.len() && chars[end] != '/'
                invariant
                    chars@ == s,
                    start <= end <= s.len(),
                    rest == s.skip(start as int),
                    separator(rest) == end - start + separator(s.skip(end as int)),
                    forall|i: int| start <= i < end ==> s[i] != '/',
                decreases s.len() - end,
            {
                assert(s.skip(end as int).drop_first() == s.skip(end + 1));
                end += 1;
            }
            let name: String = path.substring_char(start, end).to_owned();
            let ghost before = names@.map_values(|name: String| name@);
            assert(name@ == rest.take(end - start));
            if !is_valid_component(name.as_str()) {
                assert(components(s) == before + split(rest));
                assert(split(rest)[0] == name@);
                assert(components(s)[before.len() as int] == name@);
                return None;
            }
            names.push(name);
            let ghost after = names@.map_values(|name: String| name@);
            assert(after == before.push(name@));
            if end < chars.len() {
                start = end + 1;
                assert(rest.skip(separator(rest) as int + 1) == s.skip(start as int));
                assert(before + (seq![name@] + split(s.skip(start as int))) == after + split(
                    s.skip(start as int),
                ));
            } else {
                assert(rest.take(rest.len() as int) == rest);
                assert(before + seq![rest] == after);
                start = end;
                more = false;
            }
        }
        Some(RelPath { components: names })
    }

    /// The path with `/` between its components.
    pub fn as_unix_str(&self) -> (result: String)
        ensures
            result@ == joined(self@),
    {
        let mut result: String = String::new();
        let mut i: usize = 0;
        while i < self.components.len()
            invariant
                i <= self@.len(),
                self@.len() == self.components@.len(),
                forall|j: int| 0 <= j < self@.len() ==> self.components@[j]@ == #[trigger] self@[j],
                result@ == joined(self@.take(i as int)),
            decreases self@.len() - i,
        {
            assert(self@.take(i + 1).drop_last() == self@.take(i as int));
            if i > 0 {
                result.append("/");
            } else {
                assert(result@ + self@[0] == self@[0]);
            }
            result.append(self.components[i].as_str());
            i += 1;
        }
        assert(self@.take(i as int) == self@);
        result
    }

    /// Whether the path is that of the worktree's root.
    pub fn is_empty(&self) -> (result: bool)
        ensures
            result == (self@.len() == 0),
    {
        self.components.len() == 0
    }

    /// The path without its last component; the empty path has none.
    pub fn parent(&self) -> (result: Option<RelPath>)
        ensures
            result is None <==> self@.len() == 0,
            result matches Some(parent) ==> parent@ == self@.drop_last(),
    {
        proof {
            use_type_invariant(self);
        }
        if self.components.len() == 0 {
            return None;
        }
        let mut components: Vec<String> = self.components.clone();
        let _ = components.pop();
        assert(components@.map_values(|name: String| name@) == self@.drop_last());
        Some(RelPath { components })
    }

    /// The last component; the empty path has none.
    pub fn file_name(&self) -> (result: Option<&str>)
        ensures
            result is None <==> self@.len() == 0,
            result matches Some(name) ==> name@ == self@.last() && valid_component(name@),
    {
        proof {
            use_type_invariant(self);
        }
        if self.components.len() == 0 {
            None
        } else {
            Some(self.components[self.components.len() - 1].as_str())
        }
    }

    /// The file name without its extension; the empty path has none.
    pub fn file_stem(&self) -> (result: Option<&str>)
        ensures
            result is None <==> self@.len() == 0,
            result matches Some(file_stem) ==> file_stem@ == stem(self@.last()),
    {
        match self.file_name() {
            Some(name) => match find_last_dot(name) {
                Some(dot) => if dot > 0 {
                    Some(name.substring_char(0, dot))
                } else {
                    Some(name)
                },
                None => Some(name),
            },
            None => None,
        }
    }

    /// The part of the file name behind its last dot, if it has one that is not at its start.
    pub fn extension(&self) -> (result: Option<&str>)
        ensures
            result is None <==> self@.len() == 0 || suffix(self@.last()) is None,
            result matches Some(extension) ==> suffix(self@.last()) == Some(extension@),
    {
        match self.file_name() {
            Some(name) => match find_last_dot(name) {
                Some(dot) => if dot > 0 {
                    let length: usize = name.unicode_len();
                    Some(name.substring_char(dot + 1, length))
                } else {
                    None
                },
                None => None,
            },
            None => None,
        }
    }

    /// The path of the entry `name` in the directory at this path.
    pub fn join(&self, name: String) -> (result: RelPath)
        requires
            valid_component(name@),
        ensures
            result@ == self@.push(name@),
    {
        proof {
            use_type_invariant(self);
        }
        let mut components: Vec<String> = self.components.clone();
        components.push(name);
        assert(components@.map_values(|name: String| name@) == self@.push(name@));
        RelPath { components }
    }
}

impl PartialEq for RelPath {
    fn eq(&self, other: &RelPath) -> (result: bool) {
        if self.components.len() != other.components.len() {
            assert(self@.len() != other@.len());
            return false;
        }
        let mut i: usize = 0;
        while i < self.components.len()
            invariant
                i <= self@.len(),
                self@.len() == other@.len(),
                self@.len() == self.components@.len(),
                other@.len() == other.components@.len(),
                forall|j: int| 0 <= j < self@.len() ==> self.components@[j]@ == #[trigger] self@[j],
                forall|j: int|
                    0 <= j < other@.len() ==> other.components@[j]@ == #[trigger] other@[j],
                forall|j: int| 0 <= j < i ==> self@[j] == other@[j],
            decreases self@.len() - i,
        {
            if self.components[i] != other.components[i] {
                assert(self@[i as int] != other@[i as int]);
                return false;
            }
            i += 1;
        }
        assert(self@ == other@);
        true
    }
}

impl vstd::std_specs::cmp::PartialEqSpecImpl for RelPath {
    open spec fn obeys_eq_spec() -> bool {
        true
    }

    open spec fn eq_spec(&self, other: &RelPath) -> bool {
        self@ == other@
    }
}

impl Eq for RelPath {

}

/// The position of the last dot of `name`, if it has one.
fn find_last_dot(name: &str) -> (result: Option<usize>)
    ensures
        result is None <==> last_dot(name@) < 0,
        result matches Some(dot) ==> dot == last_dot(name@) && dot < name@.len(),
{
    let chars: Vec<char> = text::chars_of(name);
    let mut end: usize = chars.len();
    assert(name@.take(end as int) == name@);
    while end > 0
        invariant
            chars@ == name@,
            end <= name@.len(),
            last_dot(name@) == last_dot(name@.take(end as int)),
        decreases end,
    {
        assert(name@.take(end as int).drop_last() == name@.take(end - 1));
        if chars[end - 1] == '.' {
            return Some(end - 1);
        }
        end -= 1;
    }
    None
}

/// Whether `name` can be a component of a path.
fn is_valid_component(name: &str) -> (result: bool)
    ensures
        result == valid_component(name@),
{
    let chars: Vec<char> = text::chars_of(name);
    proof {
        reveal_strlit(".");
        reveal_strlit("..");
        assert("."@ == seq!['.']);
        assert(".."@ == seq!['.', '.']);
    }
    if chars.len() == 0 {
        return false;
    }
    if chars.len() == 1 && chars[0] == '.' {
        assert(name@ == "."@);
        return false;
    }
    if chars.len() == 2 && chars[0] == '.' && chars[1] == '.' {
        assert(name@ == ".."@);
        return false;
    }
    let mut i: usize = 0;
    while i < chars.len()
        invariant
            chars@ == name@,
            i <= chars@.len(),
            forall|j: int| 0 <= j < i ==> name@[j] != '/',
        decreases chars@.len() - i,
    {
        if chars[i] == '/' {
            assert(name@.contains(name@[i as int]));
            return false;
        }
        i += 1;
    }
    true
}

proof fn lemma_separator(s: Seq<char>)
    ensures
        separator(s) <= s.len(),
        separator(s) < s.len() ==> s[separator(s) as int] == '/',
        forall|i: int| 0 <= i < separator(s) ==> #[trigger] s[i] != '/',
    decreases s.len(),
{
    if s.len() > 0 && s[0] != '/' {
        lemma_separator(s.drop_first());
        assert forall|i: int| 0 <= i < separator(s) implies #[trigger] s[i] != '/' by {
            if i > 0 {
                assert(s.drop_first()[i - 1] != '/');
            }
        }
    }
}

proof fn lemma_separator_at(s: Seq<char>, at: int)
    requires
        0 <= at <= s.len(),
        at < s.len() ==> s[at] == '/',
        forall|i: int| 0 <= i < at ==> #[trigger] s[i] != '/',
    ensures
        separator(s) == at,
{
    lemma_separator(s);
    if separator(s) < at {
        assert(s[separator(s) as int] != '/');
    } else if at < separator(s) {
        assert(s[at] != '/');
    }
}

/// Two texts with a separator between them split apart from each other.
proof fn lemma_split_concat(a: Seq<char>, b: Seq<char>)
    ensures
        split(a + seq!['/'] + b) == split(a) + split(b),
    decreases a.len(),
{
    let s = a + seq!['/'] + b;
    let end = separator(a) as int;
    lemma_separator(a);
    assert forall|i: int| 0 <= i < end implies #[trigger] s[i] != '/' by {
        assert(a[i] != '/');
    }
    lemma_separator_at(s, end);
    assert(s.take(end) == a.take(end));
    if end >= a.len() {
        assert(a.take(end) == a);
        assert(s.skip(end + 1) == b);
    } else {
        let rest = a.skip(end + 1);
        lemma_split_concat(rest, b);
        assert(s.skip(end + 1) == rest + seq!['/'] + b);
        let first = seq![a.take(end)];
        assert(first + (split(rest) + split(b)) == first + split(rest) + split(b));
    }
}

/// A component splits into itself alone.
proof fn lemma_split_component(name: Seq<char>)
    requires
        !name.contains('/'),
    ensures
        split(name) == seq![name],
{
    assert forall|i: int| 0 <= i < name.len() implies #[trigger] name[i] != '/' by {
        assert(name.contains(name[i]));
    }
    lemma_separator_at(name, name.len() as int);
}

/// Reading a written path gives the path back.
pub proof fn law_components_of_joined(path: Seq<Seq<char>>)
    requires
        valid_path(path),
    ensures
        components(joined(path)) == path,
    decreases path.len(),
{
    if path.len() == 0 {
    } else if path.len() == 1 {
        assert(valid_component(path[0]));
        lemma_split_component(path[0]);
        assert(path == seq![path[0]]);
    } else {
        let front = path.drop_last();
        assert forall|i: int| 0 <= i < front.len() implies valid_component(#[trigger] front[i]) by {
            assert(front[i] == path[i]);
        }
        law_components_of_joined(front);
        assert(joined(front).len() > 0) by {
            if joined(front).len() == 0 {
                assert(components(joined(front)).len() == 0);
            }
        }
        assert(valid_component(path[path.len() - 1]));
        lemma_split_component(path.last());
        lemma_split_concat(joined(front), path.last());
        reveal_strlit("/");
        assert("/"@ == seq!['/']);
        assert(front + seq![path.last()] == path);
    }
}

proof fn lemma_joined_front(first: Seq<char>, rest: Seq<Seq<char>>)
    requires
        rest.len() > 0,
    ensures
        joined(seq![first] + rest) == first + seq!['/'] + joined(rest),
    decreases rest.len(),
{
    let path = seq![first] + rest;
    reveal_strlit("/");
    assert("/"@ == seq!['/']);
    assert(path.last() == rest.last());
    assert(path.drop_last() == seq![first] + rest.drop_last());
    if rest.len() == 1 {
        assert(path.drop_last() == seq![first]);
        assert(joined(path.drop_last()) == first);
        assert(joined(rest) == rest.last());
    } else {
        lemma_joined_front(first, rest.drop_last());
        assert(joined(path) == first + seq!['/'] + joined(rest));
    }
}

proof fn lemma_joined_split(s: Seq<char>)
    ensures
        joined(split(s)) == s,
        split(s).len() > 0,
    decreases s.len(),
{
    lemma_separator(s);
    if separator(s) < s.len() {
        let end = separator(s) as int;
        let rest = s.skip(end + 1);
        lemma_joined_split(rest);
        lemma_joined_front(s.take(end), split(rest));
        assert(s == s.take(end) + seq!['/'] + rest);
    }
}

/// Writing a path that was read gives its text back.
pub proof fn law_joined_components(s: Seq<char>)
    ensures
        joined(components(s)) == s,
{
    lemma_joined_split(s);
}

proof fn lemma_last_dot(name: Seq<char>)
    ensures
        -1 <= last_dot(name) < name.len(),
        last_dot(name) >= 0 ==> name[last_dot(name)] == '.',
    decreases name.len(),
{
    if name.len() > 0 {
        lemma_last_dot(name.drop_last());
    }
}

/// A file name with an extension is its stem, a dot and the extension.
pub proof fn law_stem_and_extension(name: Seq<char>)
    requires
        suffix(name) is Some,
    ensures
        name == stem(name) + seq!['.'] + suffix(name)->0,
        stem(name).len() > 0,
{
    lemma_last_dot(name);
}

proof fn lemma_last_dot_at(before: Seq<char>, after: Seq<char>)
    requires
        !after.contains('.'),
    ensures
        last_dot(before + seq!['.'] + after) == before.len(),
    decreases after.len(),
{
    let name = before + seq!['.'] + after;
    if after.len() > 0 {
        let shorter = after.drop_last();
        assert(after.contains(after[after.len() - 1]));
        assert(!shorter.contains('.')) by {
            if shorter.contains('.') {
                let i = choose|i: int| 0 <= i < shorter.len() && shorter[i] == '.';
                assert(after[i] == '.');
            }
        }
        lemma_last_dot_at(before, shorter);
        assert(name.drop_last() == before + seq!['.'] + shorter);
        assert(name.last() == after.last());
    }
}

proof fn lemma_no_dot(name: Seq<char>)
    requires
        !name.contains('.'),
    ensures
        last_dot(name) == -1,
    decreases name.len(),
{
    if name.len() > 0 {
        assert(name.contains(name[name.len() - 1]));
        let shorter = name.drop_last();
        assert(!shorter.contains('.')) by {
            if shorter.contains('.') {
                let i = choose|i: int| 0 <= i < shorter.len() && shorter[i] == '.';
                assert(name[i] == '.');
            }
        }
        lemma_no_dot(shorter);
    }
}

/// The last dot of a file name parts its stem from its extension. A name without a dot, or
/// with none but at its start, is all stem.
pub proof fn law_file_name_parts(before: Seq<char>, after: Seq<char>)
    requires
        !after.contains('.'),
    ensures
        before.len() > 0 ==> {
            &&& stem(before + seq!['.'] + after) == before
            &&& suffix(before + seq!['.'] + after) == Some(after)
        },
        stem(seq!['.'] + after) == seq!['.'] + after,
        suffix(seq!['.'] + after) is None,
        stem(after) == after,
        suffix(after) is None,
{
    let name = before + seq!['.'] + after;
    lemma_last_dot_at(before, after);
    assert(name.take(before.len() as int) == before);
    assert(name.skip(before.len() as int + 1) == after);
    lemma_last_dot_at(Seq::empty(), after);
    assert(Seq::<char>::empty() + seq!['.'] + after == seq!['.'] + after);
    lemma_no_dot(after);
}

/// Whether a piece of `s` between separators goes from `i` to `j`.
pub open spec fn piece_at(s: Seq<char>, i: int, j: int) -> bool {
    &&& 0 <= i <= j <= s.len()
    &&& i == 0 || s[i - 1] == '/'
    &&& j == s.len() || s[j] == '/'
    &&& forall|k: int| i <= k < j ==> #[trigger] s[k] != '/'
}

/// Whether `s` from `i` to `j` is not empty and neither one nor two dots alone.
pub open spec fn names_entry(s: Seq<char>, i: int, j: int) -> bool {
    &&& i < j
    &&& !(j == i + 1 && s[i] == '.')
    &&& !(j == i + 2 && s[i] == '.' && s[i + 1] == '.')
}

proof fn lemma_names_entry(s: Seq<char>, i: int, j: int)
    requires
        piece_at(s, i, j),
    ensures
        names_entry(s, i, j) <==> valid_component(s.subrange(i, j)),
{
    let name = s.subrange(i, j);
    reveal_strlit(".");
    reveal_strlit("..");
    assert("."@ == seq!['.']);
    assert(".."@ == seq!['.', '.']);
    if name.contains('/') {
        let k = choose|k: int| 0 <= k < name.len() && name[k] == '/';
        assert(s[k + i] == '/');
    }
    if j == i + 1 {
        assert(name[0] == s[i]);
        if s[i] == '.' {
            assert(name == "."@);
        }
    }
    if j == i + 2 {
        assert(name[0] == s[i] && name[1] == s[i + 1]);
        if s[i] == '.' && s[i + 1] == '.' {
            assert(name == ".."@);
        }
    }
}

proof fn lemma_pieces(s: Seq<char>)
    ensures
        valid_path(split(s)) <==> forall|i: int, j: int| #[trigger]
            piece_at(s, i, j) ==> names_entry(s, i, j),
    decreases s.len(),
{
    lemma_separator(s);
    let end = separator(s) as int;
    assert(piece_at(s, 0, end));
    lemma_names_entry(s, 0, end);
    assert(s.subrange(0, end) == s.take(end));
    if end >= s.len() {
        assert(s.take(end) == s);
        assert(split(s) == seq![s]);
        assert(split(s)[0] == s);
        assert forall|i: int, j: int| #[trigger] piece_at(s, i, j) implies i == 0 && j == end by {
            if i > 0 {
                assert(s[i - 1] != '/');
            }
            if j < end {
                assert(s[j] != '/');
            }
        }
    } else {
        let rest = s.skip(end + 1);
        let pieces = split(rest);
        lemma_pieces(rest);
        assert(split(s) == seq![s.take(end)] + pieces);
        assert(valid_path(split(s)) <==> valid_component(s.take(end)) && valid_path(pieces)) by {
            if valid_path(split(s)) {
                assert(valid_component(split(s)[0]));
                assert forall|k: int| 0 <= k < pieces.len() implies valid_component(
                    #[trigger] pieces[k],
                ) by {
                    assert(split(s)[k + 1] == pieces[k]);
                }
            }
            if valid_component(s.take(end)) && valid_path(pieces) {
                assert forall|k: int| 0 <= k < split(s).len() implies valid_component(
                    #[trigger] split(s)[k],
                ) by {
                    if k > 0 {
                        assert(split(s)[k] == pieces[k - 1]);
                    }
                }
            }
        }
        assert forall|i: int, j: int| #[trigger] piece_at(s, i, j) implies (i == 0 && j == end) || (
        piece_at(rest, i - end - 1, j - end - 1) && (names_entry(s, i, j) <==> names_entry(
            rest,
            i - end - 1,
            j - end - 1,
        ))) by {
            if i == 0 {
                if j < end {
                    assert(s[j] != '/');
                } else if end < j {
                    assert(s[end] != '/');
                }
            } else {
                if i <= end {
                    assert(s[i - 1] != '/');
                }
                assert forall|k: int| i - end - 1 <= k < j - end - 1 implies #[trigger] rest[k]
                    != '/' by {
                    assert(s[k + end + 1] != '/');
                }
            }
        }
        assert forall|i: int, j: int| #[trigger] piece_at(rest, i, j) implies piece_at(
            s,
            i + end + 1,
            j + end + 1,
        ) && (names_entry(s, i + end + 1, j + end + 1) <==> names_entry(rest, i, j)) by {
            assert forall|k: int| i + end + 1 <= k < j + end + 1 implies #[trigger] s[k]
                != '/' by {
                assert(rest[k - end - 1] != '/');
            }
        }
        if forall|i: int, j: int| #[trigger] piece_at(s, i, j) ==> names_entry(s, i, j) {
            assert forall|i: int, j: int| #[trigger] piece_at(rest, i, j) implies names_entry(
                rest,
                i,
                j,
            ) by {
                assert(piece_at(s, i + end + 1, j + end + 1));
            }
        }
    }
}

/// A written path is in normal form exactly if it is empty, or each of its pieces between
/// separators is not empty and neither one nor two dots alone.
pub proof fn law_normal_form(s: Seq<char>)
    ensures
        valid_path(components(s)) <==> s.len() == 0 || forall|i: int, j: int| #[trigger]
            piece_at(s, i, j) ==> names_entry(s, i, j),
{
    lemma_pieces(s);
}

/// Written paths are joined by one separator.
pub proof fn law_joined_concat(front: Seq<Seq<char>>, back: Seq<Seq<char>>, name: Seq<char>)
    ensures
        joined(Seq::empty()) == Seq::<char>::empty(),
        joined(seq![name]) == name,
        front.len() > 0 && back.len() > 0 ==> joined(front + back) == joined(front) + seq!['/']
            + joined(back),
    decreases back.len(),
{
    if front.len() > 0 && back.len() > 0 {
        let path = front + back;
        reveal_strlit("/");
        assert("/"@ == seq!['/']);
        assert(path.last() == back.last());
        assert(path.drop_last() == front + back.drop_last());
        if back.len() == 1 {
            assert(path.drop_last() == front);
            assert(joined(back) == back.last());
        } else {
            law_joined_concat(front, back.drop_last(), name);
            assert(joined(front) + seq!['/'] + joined(back.drop_last()) + seq!['/'] + back.last()
                == joined(front) + seq!['/'] + (joined(back.drop_last()) + seq!['/']
                + back.last()));
        }
    }
}

} // verus!
