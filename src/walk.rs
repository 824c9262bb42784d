//! The decisions of a repository walk: which entries the traversal keeps, how
//! siblings are ordered, and which visited files each entry point reports.

use vstd::prelude::*;
use std::cmp::Ordering;
use crate::glob::{PatternSet, glob_regex, glob_set_builds, set_matches, valid_patterns};
use crate::gitmodules::texts;

verus! {

/// The type of a file-system node, as the traversal reports it.
#[derive(Debug, PartialEq, Eq, Structural, Clone, Copy)]
pub enum EntryKind {
    File,
    Dir,
    Symlink,
    Other,
    /// The type could not be determined.
    Unknown,
}

/// One node yielded by the traversal, in traversal order.
pub struct WalkEntry {
    pub kind: EntryKind,
    /// The path relative to the repository root, `None` when it is not valid text.
    pub path: Option<String>,
}

/// The name of the version-control metadata directory.
pub open spec fn git_dir_name() -> Seq<char> {
    seq!['.', 'g', 'i', 't']
}

/// Which directories a walk prunes besides `.git`: those under a declared submodule.
pub struct Exclusion {
    pub submodules: Option<PatternSet>,
}

impl Exclusion {
    /// Whether a root-relative directory path falls under a declared submodule.
    pub open spec fn excludes(&self, path: Seq<char>) -> bool {
        match self.submodules {
            Some(ps) => set_matches(ps.globs(), path),
            None => false,
        }
    }

    /// Whether the traversal keeps (and, for a directory, descends into) an entry
    /// of the given type, own name and root-relative path.
    pub open spec fn keeps(
        &self,
        kind: EntryKind,
        name: Option<Seq<char>>,
        path: Option<Seq<char>>,
    ) -> bool {
        match kind {
            EntryKind::Unknown => false,
            EntryKind::File => true,
            EntryKind::Symlink => false,
            _ => match (name, path) {
                (Some(n), Some(p)) => n != git_dir_name() && !self.excludes(p),
                _ => false,
            },
        }
    }

    /// Builds the exclusion from the declared submodule paths. Each path is a glob
    /// pattern; malformed ones are skipped. No paths, or a set that cannot be
    /// built, exclude nothing.
    pub fn new(submodule_paths: &Option<Vec<String>>) -> (r: Exclusion)
        ensures
            match submodule_paths {
                None => r.submodules is None,
                Some(ps) => {
                    &&& r.submodules is Some == glob_set_builds(valid_patterns(ps@))
                    &&& r.submodules matches Some(s) ==> s.globs() == valid_patterns(ps@)
                },
            },
    {
        match submodule_paths {
            None => Exclusion { submodules: None },
            Some(ps) => Exclusion { submodules: PatternSet::from_patterns(ps) },
        }
    }

    /// The entry filter of the walk. `name` is the entry's own final name
    /// component and `path` its path relative to the root, each `None` when it is
    /// not valid text.
    pub fn keep_entry(&self, kind: EntryKind, name: &Option<String>, path: &Option<String>) -> (r:
        bool)
        ensures
            r == self.keeps(
                kind,
                match name {
                    Some(n) => Some(n@),
                    None => None,
                },
                match path {
                    Some(p) => Some(p@),
                    None => None,
                },
            ),
    {
        match kind {
            EntryKind::Unknown => false,
            EntryKind::File => true,
            EntryKind::Symlink => false,
            _ => match (name, path) {
                (Some(n), Some(p)) => {
                    let git = ".git".to_owned();
                    proof {
                        reveal_strlit(".git");
                        assert(git@ =~= git_dir_name());
                    }
                    if *n == git {
                        false
                    } else {
                        match &self.submodules {
                            Some(ps) => !ps.is_match(p.as_str()),
                            None => true,
                        }
                    }
                },
                _ => false,
            },
        }
    }
}

/// Lexicographic order of byte strings.
pub open spec fn lex_cmp(a: Seq<u8>, b: Seq<u8>) -> Ordering
    decreases a.len(),
{
    if a.len() == 0 {
        if b.len() == 0 {
            Ordering::Equal
        } else {
            Ordering::Less
        }
    } else if b.len() == 0 {
        Ordering::Greater
    } else if a[0] < b[0] {
        Ordering::Less
    } else if a[0] > b[0] {
        Ordering::Greater
    } else {
        lex_cmp(a.drop_first(), b.drop_first())
    }
}

/// The order of two siblings: non-directories first, then by name.
pub open spec fn entry_order(a_is_dir: bool, a_name: Seq<u8>, b_is_dir: bool, b_name: Seq<u8>) -> Ordering {
    if a_is_dir == b_is_dir {
        lex_cmp(a_name, b_name)
    } else if a_is_dir {
        Ordering::Greater
    } else {
        Ordering::Less
    }
}

/// Compares two sibling entries by type and then by the bytes of their names.
pub fn compare_entries(a_is_dir: bool, a_name: &[u8], b_is_dir: bool, b_name: &[u8]) -> (r:
    Ordering)
    ensures
        r == entry_order(a_is_dir, a_name@, b_is_dir, b_name@),
{
    if a_is_dir != b_is_dir {
        return if a_is_dir {
            Ordering::Greater
        } else {
            Ordering::Less
        };
    }
    let mut i: usize = 0;
    assert(a_name@.skip(0) =~= a_name@);
    assert(b_name@.skip(0) =~= b_name@);
    while i < a_name.len() && i < b_name.len()
        invariant
            a_is_dir == b_is_dir,
            i <= a_name@.len(),
            i <= b_name@.len(),
            lex_cmp(a_name@, b_name@) == lex_cmp(a_name@.skip(i as int), b_name@.skip(i as int)),
        decreases a_name.len() - i,
    {
        let x = a_name[i];
        let y = b_name[i];
        assert(a_name@.skip(i as int)[0] == x);
        assert(b_name@.skip(i as int)[0] == y);
        assert(a_name@.skip(i as int).len() > 0 && b_name@.skip(i as int).len() > 0);
        if x < y {
            assert(lex_cmp(a_name@.skip(i as int), b_name@.skip(i as int)) == Ordering::Less);
            return Ordering::Less;
        }
        if x > y {
            assert(lex_cmp(a_name@.skip(i as int), b_name@.skip(i as int)) == Ordering::Greater);
            return Ordering::Greater;
        }
        assert(a_name@.skip(i as int).drop_first() =~= a_name@.skip(i + 1));
        assert(b_name@.skip(i as int).drop_first() =~= b_name@.skip(i + 1));
        i = i + 1;
    }
    if i < a_name.len() {
        Ordering::Greater
    } else if i < b_name.len() {
        Ordering::Less
    } else {
        Ordering::Equal
    }
}

/// Whether an entry reaches classification: a regular file with a non-empty
/// textual path.
pub open spec fn classified(e: WalkEntry) -> bool {
    &&& e.kind == EntryKind::File
    &&& e.path matches Some(p) && p@.len() > 0
}

/// The paths of the classified entries that match `globs`, in traversal order.
pub open spec fn matched_paths(entries: Seq<WalkEntry>, globs: Seq<Seq<char>>) -> Seq<Seq<char>>
    decreases entries.len(),
{
    if entries.len() == 0 {
        Seq::empty()
    } else {
        let rest = matched_paths(entries.drop_last(), globs);
        let e = entries.last();
        if classified(e) && set_matches(globs, e.path->Some_0@) {
            rest.push(e.path->Some_0@)
        } else {
            rest
        }
    }
}

/// What matching the patterns `patterns` against a walk reports: the matched
/// paths for the patterns that compile, or nothing when they cannot be combined.
pub open spec fn globs_result(entries: Seq<WalkEntry>, patterns: Seq<String>) -> Seq<Seq<char>> {
    if glob_set_builds(valid_patterns(patterns)) {
        matched_paths(entries, valid_patterns(patterns))
    } else {
        Seq::empty()
    }
}

/// The root-relative paths of the files among `entries` that match `set`, in
/// traversal order.
pub fn matching_paths(entries: &Vec<WalkEntry>, set: &PatternSet) -> (r: Vec<String>)
    ensures
        texts(r@) == matched_paths(entries@, set.globs()),
{
    let mut r: Vec<String> = Vec::new();
    let mut i: usize = 0;
    while i < entries.len()
        invariant
            i <= entries.len(),
            texts(r@) == matched_paths(entries@.subrange(0, i as int), set.globs()),
        decreases entries.len() - i,
    {
        let ghost before = r@;
        assert(entries@.subrange(0, i + 1).drop_last() =~= entries@.subrange(0, i as int));
        let e = &entries[i];
        if e.kind == EntryKind::File {
            match &e.path {
                Some(p) => {
                    if !p.as_str().is_empty() && set.is_match(p.as_str()) {
                        r.push(p.clone());
                        assert(texts(r@) =~= texts(before).push(p@));
                    }
                },
                None => {},
            }
        }
        i = i + 1;
    }
    assert(entries@.subrange(0, entries.len() as int) =~= entries@);
    r
}

/// The files of a walk that match any of `globs`. Malformed patterns are skipped;
/// when the remaining ones cannot be combined the result is empty.
pub fn walk_repo_globs(entries: &Vec<WalkEntry>, globs: Vec<String>) -> (r: Vec<String>)
    ensures
        texts(r@) == globs_result(entries@, globs@),
{
    match PatternSet::from_patterns(&globs) {
        Some(set) => matching_paths(entries, &set),
        None => Vec::new(),
    }
}

/// No walk matches an empty set of patterns.
pub proof fn lemma_no_globs_no_matches(entries: Seq<WalkEntry>)
    ensures
        matched_paths(entries, Seq::empty()) == Seq::<Seq<char>>::empty(),
    decreases entries.len(),
{
    if entries.len() > 0 {
        lemma_no_globs_no_matches(entries.drop_last());
    }
}

/// The files of a walk that match `glob`; nothing when `glob` is malformed.
pub fn walk_repo_glob(entries: &Vec<WalkEntry>, glob: String) -> (r: Vec<String>)
    ensures
        texts(r@) == globs_result(entries@, seq![glob]),
        glob_regex(glob@) is None ==> r@.len() == 0,
{
    let globs = vec![glob];
    proof {
        assert(globs@ =~= seq![glob]);
        assert(globs@.drop_last() =~= Seq::<String>::empty());
        assert(valid_patterns(Seq::<String>::empty()) =~= Seq::<Seq<char>>::empty());
        if glob_regex(glob@) is None {
            assert(valid_patterns(globs@) =~= Seq::<Seq<char>>::empty());
            lemma_no_globs_no_matches(entries@);
        }
    }
    walk_repo_globs(entries, globs)
}

/// For each key of `globs_map`, in the given order, the key and the files of the
/// walk that match its patterns (per key as in `walk_repo_globs`). Keys without
/// matches are kept with an empty list; a file is listed under every key it
/// matches.
pub fn walk_repo_globs_map(entries: &Vec<WalkEntry>, globs_map: &Vec<(String, Vec<String>)>) -> (r:
    Vec<(String, Vec<String>)>)
    ensures
        r@.len() == globs_map@.len(),
        forall|k: int|
            0 <= k < r@.len() ==> {
                &&& (#[trigger] r@[k]).0 == globs_map@[k].0
                &&& texts(r@[k].1@) == globs_result(entries@, globs_map@[k].1@)
            },
        (forall|i: int, j: int|
            0 <= i < j < globs_map@.len() ==> (#[trigger] globs_map@[i]).0@ != (
            #[trigger] globs_map@[j]).0@) ==> (forall|i: int, j: int|
            0 <= i < j < r@.len() ==> (#[trigger] r@[i]).0@ != (#[trigger] r@[j]).0@),
{
    let mut r: Vec<(String, Vec<String>)> = Vec::new();
    let mut k: usize = 0;
    while k < globs_map.len()
        invariant
            k <= globs_map@.len(),
            r@.len() == k,
            forall|j: int|
                0 <= j < k ==> {
                    &&& (#[trigger] r@[j]).0 == globs_map@[j].0
                    &&& texts(r@[j].1@) == globs_result(entries@, globs_map@[j].1@)
                },
        decreases globs_map.len() - k,
    {
        let key = globs_map[k].0.clone();
        let paths = walk_repo_globs(entries, globs_map[k].1.clone());
        r.push((key, paths));
        k = k + 1;
    }
    r
}

/// Without declared submodules nothing is excluded on submodule grounds: a
/// directory is kept exactly when it is not named `.git`.
pub proof fn lemma_no_submodules_no_pruning(ex: Exclusion, name: Seq<char>, path: Seq<char>)
    requires
        ex.submodules is None,
    ensures
        !ex.excludes(path),
        ex.keeps(EntryKind::Dir, Some(name), Some(path)) == (name != git_dir_name()),
{
}

/// The walk never keeps a directory named `.git`, nor one whose root-relative path
/// falls under a declared submodule, so nothing beneath them is visited.
pub proof fn lemma_git_and_submodule_dirs_pruned(
    ex: Exclusion,
    name: Option<Seq<char>>,
    path: Option<Seq<char>>,
)
    ensures
        name == Some(git_dir_name()) ==> !ex.keeps(EntryKind::Dir, name, path),
        (path matches Some(p) && ex.excludes(p)) ==> !ex.keeps(EntryKind::Dir, name, path),
{
}

/// Symbolic links are never kept, so nothing is reached through one; and every
/// reported path is that of a regular file of the walk that matches the patterns.
pub proof fn lemma_results_are_matching_files(
    ex: Exclusion,
    entries: Seq<WalkEntry>,
    globs: Seq<Seq<char>>,
)
    ensures
        forall|name: Option<Seq<char>>, path: Option<Seq<char>>|
            !ex.keeps(EntryKind::Symlink, name, path),
        forall|j: int|
            0 <= j < matched_paths(entries, globs).len() ==> exists|i: int|
                0 <= i < entries.len() && classified(entries[i]) && entries[i].path->Some_0@
                    == #[trigger] matched_paths(entries, globs)[j] && set_matches(
                    globs,
                    entries[i].path->Some_0@,
                ),
    decreases entries.len(),
{
    if entries.len() > 0 {
        let init = entries.drop_last();
        lemma_results_are_matching_files(ex, init, globs);
        let m = matched_paths(entries, globs);
        let rest = matched_paths(init, globs);
        assert forall|j: int| 0 <= j < m.len() implies exists|i: int|
            0 <= i < entries.len() && classified(entries[i]) && entries[i].path->Some_0@
                == #[trigger] m[j] && set_matches(globs, entries[i].path->Some_0@) by {
            if j < rest.len() {
                assert(m[j] == rest[j]);
                let i = choose|i: int|
                    0 <= i < init.len() && classified(init[i]) && init[i].path->Some_0@
                        == #[trigger] rest[j] && set_matches(globs, init[i].path->Some_0@);
                assert(entries[i] == init[i]);
            } else {
                assert(entries[entries.len() - 1] == entries.last());
            }
        }
    }
}

/// Whether `path` lies beneath the directory `dir`.
pub open spec fn lies_under(path: Seq<char>, dir: Seq<char>) -> bool {
    path.len() > dir.len() && path.subrange(0, dir.len() as int) == dir && path[dir.len() as int]
        == '/'
}

/// A walk that honours the exclusion: no entry lies beneath an excluded
/// directory or beneath a `.git` directory at the root.
pub open spec fn honours_exclusion(ex: Exclusion, entries: Seq<WalkEntry>) -> bool {
    forall|i: int, d: Seq<char>|
        0 <= i < entries.len() && (#[trigger] entries[i]).path is Some && #[trigger] lies_under(
            entries[i].path->Some_0@,
            d,
        ) ==> !ex.excludes(d) && d != git_dir_name()
}

/// On a walk that honours the exclusion, no reported path lies beneath a
/// declared submodule or beneath the root's `.git` directory.
pub proof fn lemma_results_avoid_pruned_dirs(
    ex: Exclusion,
    entries: Seq<WalkEntry>,
    globs: Seq<Seq<char>>,
    j: int,
    d: Seq<char>,
)
    requires
        honours_exclusion(ex, entries),
        0 <= j < matched_paths(entries, globs).len(),
        lies_under(matched_paths(entries, globs)[j], d),
    ensures
        !ex.excludes(d),
        d != git_dir_name(),
{
    lemma_results_are_matching_files(ex, entries, globs);
    let i = choose|i: int|
        0 <= i < entries.len() && classified(entries[i]) && entries[i].path->Some_0@
            == #[trigger] matched_paths(entries, globs)[j] && set_matches(
            globs,
            entries[i].path->Some_0@,
        );
    assert(lies_under(entries[i].path->Some_0@, d));
}

proof fn lemma_lex_flip(a: Seq<u8>, b: Seq<u8>)
    ensures
        (lex_cmp(a, b) == Ordering::Less) == (lex_cmp(b, a) == Ordering::Greater),
        (lex_cmp(a, b) == Ordering::Equal) == (a == b),
    decreases a.len(),
{
    if a.len() > 0 && b.len() > 0 && a[0] == b[0] {
        lemma_lex_flip(a.drop_first(), b.drop_first());
        if a.drop_first() == b.drop_first() {
            assert(a =~= seq![a[0]] + a.drop_first());
            assert(b =~= seq![b[0]] + b.drop_first());
        }
    }
    if a.len() == 0 && b.len() == 0 {
        assert(a =~= b);
    }
}

proof fn lemma_lex_trans(a: Seq<u8>, b: Seq<u8>, c: Seq<u8>)
    requires
        lex_cmp(a, b) == Ordering::Less,
        lex_cmp(b, c) == Ordering::Less,
    ensures
        lex_cmp(a, c) == Ordering::Less,
    decreases a.len(),
{
    if a.len() > 0 && b.len() > 0 && c.len() > 0 && a[0] == b[0] && b[0] == c[0] {
        lemma_lex_trans(a.drop_first(), b.drop_first(), c.drop_first());
    }
}

/// The order of siblings is a strict total order on (type, name): swapping two
/// entries flips the result, only identical keys compare equal, and it is
/// transitive. The order of a sorted directory therefore depends on its entries'
/// types and names alone, not on the order the file system listed them in.
pub proof fn lemma_sibling_order_total(
    a_is_dir: bool,
    a_name: Seq<u8>,
    b_is_dir: bool,
    b_name: Seq<u8>,
    c_is_dir: bool,
    c_name: Seq<u8>,
)
    ensures
        (entry_order(a_is_dir, a_name, b_is_dir, b_name) == Ordering::Less) == (entry_order(
            b_is_dir,
            b_name,
            a_is_dir,
            a_name,
        ) == Ordering::Greater),
        (entry_order(a_is_dir, a_name, b_is_dir, b_name) == Ordering::Equal) == (a_is_dir
            == b_is_dir && a_name == b_name),
        entry_order(a_is_dir, a_name, b_is_dir, b_name) == Ordering::Less && entry_order(
            b_is_dir,
            b_name,
            c_is_dir,
            c_name,
        ) == Ordering::Less ==> entry_order(a_is_dir, a_name, c_is_dir, c_name)
            == Ordering::Less,
{
    lemma_lex_flip(a_name, b_name);
    if a_is_dir == b_is_dir && b_is_dir == c_is_dir && lex_cmp(a_name, b_name) == Ordering::Less
        && lex_cmp(b_name, c_name) == Ordering::Less {
        lemma_lex_trans(a_name, b_name, c_name);
    }
}

} // verus!
