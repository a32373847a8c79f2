//! Worktrees, and the module file that a Rust file belongs to.

use crate::rel_path;
use crate::rel_path::RelPath;
use vstd::prelude::*;

verus! {

/// The identity of a worktree in a project.
#[derive(Clone, Copy, Debug, PartialEq, Eq, Structural)]
pub struct WorktreeId(pub usize);

/// A path in a worktree of a project.
#[derive(Debug)]
pub struct ProjectPath {
    pub worktree_id: WorktreeId,
    pub path: RelPath,
}

/// A worktree, with the paths of the entries that are known to be in it.
#[derive(Debug)]
pub struct Worktree {
    pub id: WorktreeId,
    pub entries: Vec<RelPath>,
}

/// A project: the worktrees that are open in it.
#[derive(Debug)]
pub struct Project {
    pub worktrees: Vec<Worktree>,
}

impl Worktree {
    /// The paths of the entries.
    pub open spec fn entry_paths(self) -> Set<Seq<Seq<char>>> {
        Set::new(
            |path: Seq<Seq<char>>|
                exists|i: int| 0 <= i < self.entries@.len() && #[trigger] self.entries@[i]@ == path,
        )
    }

    /// Whether there is an entry at `path`.
    pub fn has_entry_for_path(&self, path: &RelPath) -> (result: bool)
        ensures
            result == self.entry_paths().contains(path@),
    {
        let mut i: usize = 0;
        while i < self.entries.len()
            invariant
                i <= self.entries@.len(),
                forall|j: int| 0 <= j < i ==> #[trigger] self.entries@[j]@ != path@,
            decreases self.entries@.len() - i,
        {
            if self.entries[i] == *path {
                assert(self.entries@[i as int]@ == path@);
                return true;
            }
            i += 1;
        }
        false
    }
}

/// The first of `worktrees` with the identity `id`, if there is one.
pub open spec fn worktree_with_id(worktrees: Seq<Worktree>, id: WorktreeId) -> Option<Worktree>
    decreases worktrees.len(),
{
    if worktrees.len() == 0 {
        None
    } else if worktrees[0].id == id {
        Some(worktrees[0])
    } else {
        worktree_with_id(worktrees.drop_first(), id)
    }
}

impl Project {
    /// The worktree with the identity `id`, if it is open.
    pub fn worktree_for_id(&self, id: WorktreeId) -> (result: Option<&Worktree>)
        ensures
            result is None <==> worktree_with_id(self.worktrees@, id) is None,
            result matches Some(worktree) ==> worktree_with_id(self.worktrees@, id) == Some(
                *worktree,
            ),
    {
        let mut i: usize = 0;
        assert(self.worktrees@.skip(0) == self.worktrees@);
        while i < self.worktrees.len()
            invariant
                i <= self.worktrees@.len(),
                worktree_with_id(self.worktrees@, id) == worktree_with_id(
                    self.worktrees@.skip(i as int),
                    id,
                ),
            decreases self.worktrees@.len() - i,
        {
            if self.worktrees[i].id == id {
                return Some(&self.worktrees[i]);
            }
            assert(self.worktrees@.skip(i as int).drop_first() == self.worktrees@.skip(i + 1));
            i += 1;
        }
        None
    }
}

/// The files that may declare the module of the file at `path`, the likeliest first, each with
/// its name: `mod.rs`, `lib.rs` and `main.rs` in the same directory, and beside that directory
/// the file named after it.
pub open spec fn candidates(path: Seq<Seq<char>>) -> Seq<(Seq<char>, Seq<Seq<char>>)> {
    if path.len() == 0 {
        seq![]
    } else {
        let parent = path.drop_last();
        let beside = seq![
            ("mod.rs"@, parent.push("mod.rs"@)),
            ("lib.rs"@, parent.push("lib.rs"@)),
            ("main.rs"@, parent.push("main.rs"@)),
        ];
        if parent.len() == 0 {
            beside
        } else {
            let name = parent.last() + ".rs"@;
            beside.push((name, parent.drop_last().push(name)))
        }
    }
}

/// The first of `files` whose path is in `entries`, if there is one.
pub open spec fn first_entry(
    files: Seq<(Seq<char>, Seq<Seq<char>>)>,
    entries: Set<Seq<Seq<char>>>,
) -> Option<(Seq<char>, Seq<Seq<char>>)>
    decreases files.len(),
{
    if files.len() == 0 {
        None
    } else if entries.contains(files[0].1) {
        Some(files[0])
    } else {
        first_entry(files.drop_first(), entries)
    }
}

/// The file of `project` that declares the module of the file at `path` in the worktree
/// `worktree_id`, with its name, if there is one.
pub open spec fn parent_module(
    path: Seq<Seq<char>>,
    worktree_id: WorktreeId,
    project: Project,
) -> Option<(Seq<char>, Seq<Seq<char>>)> {
    match worktree_with_id(project.worktrees@, worktree_id) {
        Some(worktree) => first_entry(candidates(path), worktree.entry_paths()),
        None => None,
    }
}

/// A file with its name, as sequences of characters.
pub open spec fn named_file(file: (String, RelPath)) -> (Seq<char>, Seq<Seq<char>>) {
    (file.0@, file.1@)
}

proof fn lemma_rust_file_names(directory: Seq<char>)
    ensures
        rel_path::valid_component("mod.rs"@),
        rel_path::valid_component("lib.rs"@),
        rel_path::valid_component("main.rs"@),
        rel_path::valid_component(directory) ==> rel_path::valid_component(directory + ".rs"@),
{
    reveal_strlit(".");
    reveal_strlit("..");
    reveal_strlit(".rs");
    reveal_strlit("mod.rs");
    reveal_strlit("lib.rs");
    reveal_strlit("main.rs");
    assert("mod.rs"@ == seq!['m', 'o', 'd', '.', 'r', 's']);
    assert("lib.rs"@ == seq!['l', 'i', 'b', '.', 'r', 's']);
    assert("main.rs"@ == seq!['m', 'a', 'i', 'n', '.', 'r', 's']);
    assert(".rs"@ == seq!['.', 'r', 's']);
    let name = directory + ".rs"@;
    if rel_path::valid_component(directory) && name.contains('/') {
        let i = choose|i: int| 0 <= i < name.len() && name[i] == '/';
        if i < directory.len() {
            assert(directory[i] == '/');
        }
    }
}

/// The files that may declare the module of the file at `path`, the likeliest first.
pub fn parent_module_candidates(path: &RelPath) -> (files: Vec<(String, RelPath)>)
    ensures
        files@.map_values(|file: (String, RelPath)| named_file(file)) == candidates(path@),
{
    let mut files: Vec<(String, RelPath)> = Vec::new();
    if let Some(parent) = path.parent() {
        proof {
            lemma_rust_file_names(Seq::empty());
        }
        files.push(("mod.rs".to_owned(), parent.join("mod.rs".to_owned())));
        files.push(("lib.rs".to_owned(), parent.join("lib.rs".to_owned())));
        files.push(("main.rs".to_owned(), parent.join("main.rs".to_owned())));
        if let Some(directory) = parent.file_name() {
            if let Some(grandparent) = parent.parent() {
                let mut name: String = directory.to_owned();
                name.append(".rs");
                proof {
                    lemma_rust_file_names(directory@);
                }
                files.push((name.clone(), grandparent.join(name)));
            }
        }
    }
    assert(files@.map_values(|file: (String, RelPath)| named_file(file)) == candidates(path@));
    files
}

/// The file of `project` that declares the module of the file at `file_rel_path` in the
/// worktree `worktree_id`, with its name: the first candidate that is in the worktree.
pub fn find_parent_module(
    file_rel_path: &RelPath,
    worktree_id: WorktreeId,
    project: &Project,
) -> (result: Option<(String, RelPath)>)
    ensures
        result is None <==> parent_module(file_rel_path@, worktree_id, *project) is None,
        result matches Some(file) ==> parent_module(file_rel_path@, worktree_id, *project) == Some(
            named_file(file),
        ),
{
    let worktree = match project.worktree_for_id(worktree_id) {
        Some(worktree) => worktree,
        None => {
            return None;
        },
    };
    let files: Vec<(String, RelPath)> = parent_module_candidates(file_rel_path);
    let ghost named = candidates(file_rel_path@);
    let mut i: usize = 0;
    assert(named.skip(0) == named);
    while i < files.len()
        invariant
            i <= files@.len(),
            worktree_with_id(project.worktrees@, worktree_id) == Some(*worktree),
            named == candidates(file_rel_path@),
            files@.map_values(|file: (String, RelPath)| named_file(file)) == named,
            first_entry(named, worktree.entry_paths()) == first_entry(
                named.skip(i as int),
                worktree.entry_paths(),
            ),
        decreases files@.len() - i,
    {
        assert(named[i as int] == named_file(files@[i as int]));
        if worktree.has_entry_for_path(&files[i].1) {
            return Some((files[i].0.clone(), files[i].1.clone()));
        }
        assert(named.skip(i as int).drop_first() == named.skip(i + 1));
        i += 1;
    }
    None
}

/// The parent module of a file is one of its candidates, is in the worktree, and no likelier
/// candidate is; where there is none, no candidate is in the worktree.
pub proof fn law_first_candidate_wins(
    path: Seq<Seq<char>>,
    worktree_id: WorktreeId,
    project: Project,
    worktree: Worktree,
)
    requires
        worktree_with_id(project.worktrees@, worktree_id) == Some(worktree),
    ensures
        match parent_module(path, worktree_id, project) {
            Some(file) => exists|i: int|
                0 <= i < candidates(path).len() && #[trigger] candidates(path)[i] == file
                    && worktree.entry_paths().contains(file.1) && (forall|j: int|
                    0 <= j < i ==> !worktree.entry_paths().contains(
                        (#[trigger] candidates(path)[j]).1,
                    )),
            None => forall|j: int|
                0 <= j < candidates(path).len() ==> !worktree.entry_paths().contains(
                    (#[trigger] candidates(path)[j]).1,
                ),
        },
{
    lemma_first_entry(candidates(path), worktree.entry_paths());
}

proof fn lemma_first_entry(
    files: Seq<(Seq<char>, Seq<Seq<char>>)>,
    entries: Set<Seq<Seq<char>>>,
)
    ensures
        match first_entry(files, entries) {
            Some(file) => exists|i: int|
                0 <= i < files.len() && #[trigger] files[i] == file && entries.contains(file.1)
                    && (forall|j: int|
                    0 <= j < i ==> !entries.contains((#[trigger] files[j]).1)),
            None => forall|j: int|
                0 <= j < files.len() ==> !entries.contains((#[trigger] files[j]).1),
        },
    decreases files.len(),
{
    if files.len() > 0 && !entries.contains(files[0].1) {
        let rest = files.drop_first();
        lemma_first_entry(rest, entries);
        match first_entry(rest, entries) {
            Some(file) => {
                let i = choose|i: int|
                    0 <= i < rest.len() && #[trigger] rest[i] == file && (forall|j: int|
                        0 <= j < i ==> !entries.contains((#[trigger] rest[j]).1));
                assert(files[i + 1] == file);
                assert forall|j: int| 0 <= j < i + 1 implies !entries.contains(
                    (#[trigger] files[j]).1,
                ) by {
                    if j > 0 {
                        assert(rest[j - 1] == files[j]);
                    }
                }
            },
            None => {
                assert forall|j: int| 0 <= j < files.len() implies !entries.contains(
                    (#[trigger] files[j]).1,
                ) by {
                    if j > 0 {
                        assert(rest[j - 1] == files[j]);
                    }
                }
            },
        }
    } else if files.len() > 0 {
        assert(files[0] == files[0]);
    }
}

/// A worktree need not be known as a whole: the parent module of a file depends only on
/// which of its candidates are entries.
pub proof fn law_only_candidates_matter(
    path: Seq<Seq<char>>,
    some: Set<Seq<Seq<char>>>,
    other: Set<Seq<Seq<char>>>,
)
    requires
        forall|i: int|
            0 <= i < candidates(path).len() ==> some.contains((#[trigger] candidates(path)[i]).1)
                == other.contains(candidates(path)[i].1),
    ensures
        first_entry(candidates(path), some) == first_entry(candidates(path), other),
{
    lemma_entries_agree(candidates(path), some, other);
}

proof fn lemma_entries_agree(
    files: Seq<(Seq<char>, Seq<Seq<char>>)>,
    some: Set<Seq<Seq<char>>>,
    other: Set<Seq<Seq<char>>>,
)
    requires
        forall|i: int|
            0 <= i < files.len() ==> some.contains((#[trigger] files[i]).1) == other.contains(
                files[i].1,
            ),
    ensures
        first_entry(files, some) == first_entry(files, other),
    decreases files.len(),
{
    if files.len() > 0 {
        let rest = files.drop_first();
        assert(files[0] == files[0]);
        assert forall|i: int| 0 <= i < rest.len() implies some.contains((#[trigger] rest[i]).1)
            == other.contains(rest[i].1) by {
            assert(rest[i] == files[i + 1]);
        }
        lemma_entries_agree(rest, some, other);
    }
}

/// Every candidate is a Rust file named by the last component of its path. It lies in the
/// directory of the file, or beside that directory and is named after it.
pub proof fn law_candidates_are_near(path: Seq<Seq<char>>, i: int)
    requires
        rel_path::valid_path(path),
        0 <= i < candidates(path).len(),
    ensures
        rel_path::valid_path(candidates(path)[i].1),
        candidates(path)[i].1.len() > 0,
        candidates(path)[i].1.last() == candidates(path)[i].0,
        ({
            let (name, file) = candidates(path)[i];
            ||| file.drop_last() == path.drop_last()
            ||| path.len() >= 2 && file.drop_last() == path.drop_last().drop_last() && name
                == path[path.len() - 2] + ".rs"@
        }),
{
    let parent = path.drop_last();
    let (name, file) = candidates(path)[i];
    assert forall|j: int| 0 <= j < parent.len() implies rel_path::valid_component(
        #[trigger] parent[j],
    ) by {
        assert(parent[j] == path[j]);
    }
    if i == 3 {
        let directory = parent.last();
        assert(rel_path::valid_component(parent[parent.len() - 1]));
        lemma_rust_file_names(directory);
        assert(file.drop_last() == parent.drop_last());
        assert forall|j: int| 0 <= j < file.len() implies rel_path::valid_component(
            #[trigger] file[j],
        ) by {
            if j < file.len() - 1 {
                assert(file[j] == parent[j]);
            }
        }
    } else {
        lemma_rust_file_names(Seq::empty());
        assert(file.drop_last() == parent);
        assert forall|j: int| 0 <= j < file.len() implies rel_path::valid_component(
            #[trigger] file[j],
        ) by {
            if j < file.len() - 1 {
                assert(file[j] == parent[j]);
            }
        }
    }
}

/// Whether `path` is one of `entries`.
pub open spec fn listed(entries: Seq<RelPath>, path: Seq<Seq<char>>) -> bool {
    exists|i: int| 0 <= i < entries.len() && #[trigger] entries[i]@ == path
}

/// The worktree with a given identity is the first that has it, and there is none where no
/// worktree has it.
pub proof fn law_worktree_with_id(worktrees: Seq<Worktree>, id: WorktreeId)
    ensures
        forall|k: int|
            0 <= k < worktrees.len() && (#[trigger] worktrees[k]).id == id && (forall|j: int|
                0 <= j < k ==> (#[trigger] worktrees[j]).id != id) ==> worktree_with_id(
                worktrees,
                id,
            ) == Some(worktrees[k]),
        (forall|j: int| 0 <= j < worktrees.len() ==> (#[trigger] worktrees[j]).id != id)
            ==> worktree_with_id(worktrees, id) is None,
    decreases worktrees.len(),
{
    if worktrees.len() > 0 {
        let rest = worktrees.drop_first();
        law_worktree_with_id(rest, id);
        assert forall|k: int|
            0 <= k < worktrees.len() && (#[trigger] worktrees[k]).id == id && (forall|j: int|
                0 <= j < k ==> (#[trigger] worktrees[j]).id != id) implies worktree_with_id(
            worktrees,
            id,
        ) == Some(worktrees[k]) by {
            if k > 0 {
                assert(worktrees[0].id != id);
                assert(rest[k - 1] == worktrees[k]);
                assert forall|j: int| 0 <= j < k - 1 implies (#[trigger] rest[j]).id != id by {
                    assert(rest[j] == worktrees[j + 1]);
                }
            }
        }
        if forall|j: int| 0 <= j < worktrees.len() ==> (#[trigger] worktrees[j]).id != id {
            assert(worktrees[0].id != id);
            assert forall|j: int| 0 <= j < rest.len() implies (#[trigger] rest[j]).id != id by {
                assert(rest[j] == worktrees[j + 1]);
            }
        }
    }
}

/// The parent module of a file in the directory `dir` is `dir/mod.rs` if that is an entry of
/// the file's worktree, else `dir/lib.rs`, else `dir/main.rs`, else the file named after `dir`
/// beside it; and there is none where none of these is an entry. The root of a worktree is no
/// file and has none either.
pub proof fn law_parent_module_by_priority(
    path: Seq<Seq<char>>,
    worktree_id: WorktreeId,
    project: Project,
    k: int,
)
    requires
        0 <= k < project.worktrees@.len(),
        project.worktrees@[k].id == worktree_id,
        forall|j: int| 0 <= j < k ==> (#[trigger] project.worktrees@[j]).id != worktree_id,
    ensures
        ({
            let entries = project.worktrees@[k].entries@;
            let found = parent_module(path, worktree_id, project);
            let dir = path.drop_last();
            let above = dir.drop_last();
            if path.len() == 0 {
                found is None
            } else if listed(entries, dir.push("mod.rs"@)) {
                found == Some(("mod.rs"@, dir.push("mod.rs"@)))
            } else if listed(entries, dir.push("lib.rs"@)) {
                found == Some(("lib.rs"@, dir.push("lib.rs"@)))
            } else if listed(entries, dir.push("main.rs"@)) {
                found == Some(("main.rs"@, dir.push("main.rs"@)))
            } else if dir.len() > 0 && listed(entries, above.push(dir.last() + ".rs"@)) {
                found == Some((dir.last() + ".rs"@, above.push(dir.last() + ".rs"@)))
            } else {
                found is None
            }
        }),
{
    let worktree = project.worktrees@[k];
    law_worktree_with_id(project.worktrees@, worktree_id);
    assert(worktree_with_id(project.worktrees@, worktree_id) == Some(worktree));
    assert forall|p: Seq<Seq<char>>| #[trigger]
        worktree.entry_paths().contains(p) == listed(worktree.entries@, p) by {}
    reveal_with_fuel(first_entry, 5);
    let files = candidates(path);
    if path.len() > 0 {
        let rest = files.drop_first();
        assert(rest[0] == files[1]);
        assert(rest.drop_first()[0] == files[2]);
        if files.len() > 3 {
            assert(rest.drop_first().drop_first()[0] == files[3]);
        }
    }
}

/// A file in a worktree that is not open has no parent module.
pub proof fn law_no_parent_module_without_worktree(
    path: Seq<Seq<char>>,
    worktree_id: WorktreeId,
    project: Project,
)
    requires
        forall|j: int|
            0 <= j < project.worktrees@.len() ==> (#[trigger] project.worktrees@[j]).id
                != worktree_id,
    ensures
        parent_module(path, worktree_id, project) is None,
{
    law_worktree_with_id(project.worktrees@, worktree_id);
}

/// `has_entry_for_path` looks through all entries.
pub proof fn law_entry_paths(worktree: Worktree, path: Seq<Seq<char>>)
    ensures
        worktree.entry_paths().contains(path) <==> listed(worktree.entries@, path),
{
}

/// A file has the candidates `mod.rs`, `lib.rs` and `main.rs` in its directory, in this order,
/// and as the last one, where the directory is not the root, the file named after it beside
/// it. The root of a worktree has none.
pub proof fn law_candidates(path: Seq<Seq<char>>, files: Vec<(String, RelPath)>)
    requires
        files@.map_values(|file: (String, RelPath)| named_file(file)) == candidates(path),
    ensures
        path.len() == 0 ==> files@.len() == 0,
        path.len() == 1 ==> files@.len() == 3,
        path.len() > 1 ==> files@.len() == 4,
        path.len() > 0 ==> {
            &&& files@[0].0@ == "mod.rs"@
            &&& files@[1].0@ == "lib.rs"@
            &&& files@[2].0@ == "main.rs"@
            &&& files@[0].1@ == path.drop_last().push("mod.rs"@)
            &&& files@[1].1@ == path.drop_last().push("lib.rs"@)
            &&& files@[2].1@ == path.drop_last().push("main.rs"@)
        },
        path.len() > 1 ==> {
            &&& files@[3].0@ == path[path.len() - 2] + ".rs"@
            &&& files@[3].1@ == path.take(path.len() - 2).push(path[path.len() - 2] + ".rs"@)
        },
{
    let named = files@.map_values(|file: (String, RelPath)| named_file(file));
    assert(named.len() == files@.len());
    if path.len() > 0 {
        assert(named[0] == named_file(files@[0]));
        assert(named[1] == named_file(files@[1]));
        assert(named[2] == named_file(files@[2]));
    }
    if path.len() > 1 {
        assert(named[3] == named_file(files@[3]));
        assert(path.drop_last().drop_last() == path.take(path.len() - 2));
        assert(path.drop_last().last() == path[path.len() - 2]);
    }
}

/// What `find_parent_module` gives is in the worktree: an entry with its name, in the file's
/// directory or in the one above.
pub proof fn law_parent_module_is_entry(
    path: Seq<Seq<char>>,
    worktree_id: WorktreeId,
    project: Project,
)
    requires
        parent_module(path, worktree_id, project) is Some,
    ensures
        ({
            let (name, file) = parent_module(path, worktree_id, project)->0;
            &&& path.len() > 0
            &&& file.len() > 0
            &&& file.last() == name
            &&& file.drop_last() == path.drop_last() || (path.len() > 1 && file.drop_last()
                == path.take(path.len() - 2))
            &&& exists|k: int|
                0 <= k < project.worktrees@.len() && (#[trigger] project.worktrees@[k]).id
                    == worktree_id && listed(project.worktrees@[k].entries@, file)
        }),
{
    let worktrees = project.worktrees@;
    if forall|j: int| 0 <= j < worktrees.len() ==> (#[trigger] worktrees[j]).id != worktree_id {
        law_worktree_with_id(worktrees, worktree_id);
    }
    let k = lemma_first_worktree(worktrees, worktree_id);
    law_parent_module_by_priority(path, worktree_id, project, k);
    let (name, file) = parent_module(path, worktree_id, project)->0;
    let dir = path.drop_last();
    assert(dir.push(name).drop_last() == dir);
    if path.len() > 1 {
        assert(dir.drop_last() == path.take(path.len() - 2));
        assert(dir.drop_last().push(name).drop_last() == dir.drop_last());
    }
    assert(worktrees[k].id == worktree_id && listed(worktrees[k].entries@, file));
}

proof fn lemma_first_worktree(worktrees: Seq<Worktree>, id: WorktreeId) -> (k: int)
    requires
        exists|j: int| 0 <= j < worktrees.len() && (#[trigger] worktrees[j]).id == id,
    ensures
        0 <= k < worktrees.len(),
        worktrees[k].id == id,
        forall|j: int| 0 <= j < k ==> (#[trigger] worktrees[j]).id != id,
    decreases worktrees.len(),
{
    if worktrees[0].id == id {
        0
    } else {
        let rest = worktrees.drop_first();
        let i = choose|i: int| 0 <= i < worktrees.len() && (#[trigger] worktrees[i]).id == id;
        assert(rest[i - 1] == worktrees[i]);
        let k = lemma_first_worktree(rest, id);
        assert(worktrees[k + 1] == rest[k]);
        assert forall|j: int| 0 <= j < k + 1 implies (#[trigger] worktrees[j]).id != id by {
            if j > 0 {
                assert(rest[j - 1] == worktrees[j]);
            }
        }
        k + 1
    }
}

} // verus!
