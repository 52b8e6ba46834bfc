//! What is known of the file system: a snapshot that the caller takes and the
//! locator reads. It holds two things. Entries say, path by path, what was found
//! there. Trees say what was found when a directory was walked. A path that the
//! snapshot does not mention counts as absent.

use vstd::prelude::*;

verus! {

/// What a path leads to.
#[derive(Clone, Copy, Debug, PartialEq, Eq, Structural)]
pub enum EntryKind {
    /// A regular file.
    File,
    /// A directory.
    Directory,
    /// Something that exists and is neither.
    Other,
}

/// One path that was looked at, and what is there.
#[derive(Debug)]
pub struct FsEntry {
    pub path: String,
    pub kind: EntryKind,
}

/// One entry of a directory that was walked: its name, what it is and, for a
/// directory that could be read, what it holds, in the order the walk met it.
#[derive(Debug)]
pub struct DirEntry {
    pub name: String,
    pub kind: EntryKind,
    pub children: Vec<DirEntry>,
}

/// A directory that was walked, and what it holds.
#[derive(Debug)]
pub struct DirTree {
    pub root: String,
    pub entries: Vec<DirEntry>,
}

/// A snapshot of the file system.
#[derive(Debug)]
pub struct FsSnapshot {
    pub entries: Vec<FsEntry>,
    pub trees: Vec<DirTree>,
}

/// What the first entry for `path` says is there.
pub open spec fn kind_in(entries: Seq<FsEntry>, path: Seq<char>) -> Option<EntryKind>
    decreases entries.len(),
{
    if entries.len() == 0 {
        None
    } else if entries[0].path@ == path {
        Some(entries[0].kind)
    } else {
        kind_in(entries.drop_first(), path)
    }
}

/// What the first tree that was walked from `dir` holds.
pub open spec fn listing_in(trees: Seq<DirTree>, dir: Seq<char>) -> Option<Seq<DirEntry>>
    decreases trees.len(),
{
    if trees.len() == 0 {
        None
    } else if trees[0].root@ == dir {
        Some(trees[0].entries@)
    } else {
        listing_in(trees.drop_first(), dir)
    }
}

/// The first of `candidates` that the snapshot has something at.
pub open spec fn first_present(fs: FsSnapshot, candidates: Seq<Seq<char>>) -> Option<Seq<char>>
    decreases candidates.len(),
{
    if candidates.len() == 0 {
        None
    } else if fs.present(candidates[0]) {
        Some(candidates[0])
    } else {
        first_present(fs, candidates.drop_first())
    }
}

impl DirEntry {
    /// A regular file of the given name.
    pub fn file(name: &str) -> (r: DirEntry)
        ensures
            r.name@ == name@,
            r.kind == EntryKind::File,
            r.children@.len() == 0,
    {
        DirEntry { name: String::from_str(name), kind: EntryKind::File, children: Vec::new() }
    }

    /// A directory of the given name that holds `children`.
    pub fn directory(name: &str, children: Vec<DirEntry>) -> (r: DirEntry)
        ensures
            r.name@ == name@,
            r.kind == EntryKind::Directory,
            r.children == children,
    {
        DirEntry { name: String::from_str(name), kind: EntryKind::Directory, children }
    }
}

impl FsSnapshot {
    /// What the snapshot says is at `path`.
    pub open spec fn kind_at(&self, path: Seq<char>) -> Option<EntryKind> {
        kind_in(self.entries@, path)
    }

    /// Something is at `path`.
    pub open spec fn present(&self, path: Seq<char>) -> bool {
        self.kind_at(path) is Some
    }

    /// A regular file is at `path`.
    pub open spec fn file_at(&self, path: Seq<char>) -> bool {
        self.kind_at(path) == Some(EntryKind::File)
    }

    /// A directory is at `path`.
    pub open spec fn dir_at(&self, path: Seq<char>) -> bool {
        self.kind_at(path) == Some(EntryKind::Directory)
    }

    /// What the walk from `dir` met; `None` where `dir` was not walked.
    pub open spec fn listed(&self, dir: Seq<char>) -> Option<Seq<DirEntry>> {
        listing_in(self.trees@, dir)
    }

    /// A snapshot in which nothing exists.
    pub fn new() -> (fs: FsSnapshot)
        ensures
            fs.entries@.len() == 0,
            fs.trees@.len() == 0,
            forall|p: Seq<char>| !fs.present(p),
            forall|d: Seq<char>| fs.listed(d) is None,
    {
        FsSnapshot { entries: Vec::new(), trees: Vec::new() }
    }

    /// Notes what is at `path`. What was noted of a path before stands.
    pub fn record(&mut self, path: &str, kind: EntryKind)
        ensures
            final(self).trees == old(self).trees,
            final(self).entries@.len() == old(self).entries@.len() + 1,
            forall|p: Seq<char>| #[trigger]
                final(self).kind_at(p) == if old(self).kind_at(p) is Some {
                    old(self).kind_at(p)
                } else if p == path@ {
                    Some(kind)
                } else {
                    None
                },
    {
        let entry = FsEntry { path: String::from_str(path), kind };
        proof {
            assert forall|p: Seq<char>| #[trigger]
                kind_in(self.entries@.push(entry), p) == if kind_in(self.entries@, p) is Some {
                    kind_in(self.entries@, p)
                } else if p == path@ {
                    Some(kind)
                } else {
                    None
                } by {
                lemma_kind_in_push(self.entries@, entry, p);
            }
        }
        self.entries.push(entry);
    }

    /// Notes what a walk from `root` met. What was noted of a walk from there
    /// before stands.
    pub fn record_tree(&mut self, root: &str, entries: Vec<DirEntry>)
        ensures
            final(self).entries == old(self).entries,
            final(self).trees@.len() == old(self).trees@.len() + 1,
            forall|d: Seq<char>| #[trigger]
                final(self).listed(d) == if old(self).listed(d) is Some {
                    old(self).listed(d)
                } else if d == root@ {
                    Some(entries@)
                } else {
                    None
                },
    {
        let tree = DirTree { root: String::from_str(root), entries };
        proof {
            assert forall|d: Seq<char>| #[trigger]
                listing_in(self.trees@.push(tree), d) == if listing_in(self.trees@, d) is Some {
                    listing_in(self.trees@, d)
                } else if d == root@ {
                    Some(entries@)
                } else {
                    None
                } by {
                lemma_listing_in_push(self.trees@, tree, d);
            }
        }
        self.trees.push(tree);
    }

    /// What the snapshot says is at `path`.
    pub fn kind_of(&self, path: &str) -> (r: Option<EntryKind>)
        ensures
            r == self.kind_at(path@),
    {
        let wanted = String::from_str(path);
        let mut i: usize = 0;
        assert(self.entries@.skip(0) =~= self.entries@);
        while i < self.entries.len()
            invariant
                i <= self.entries.len(),
                wanted@ == path@,
                kind_in(self.entries@, path@) == kind_in(self.entries@.skip(i as int), path@),
            decreases self.entries.len() - i,
        {
            if self.entries[i].path == wanted {
                return Some(self.entries[i].kind);
            }
            assert(self.entries@.skip(i as int).drop_first() =~= self.entries@.skip(i + 1));
            i += 1;
        }
        None
    }

    /// Whether something is at `path`.
    pub fn is_present(&self, path: &str) -> (r: bool)
        ensures
            r == self.present(path@),
    {
        self.kind_of(path).is_some()
    }

    /// Whether a regular file is at `path`.
    pub fn is_file(&self, path: &str) -> (r: bool)
        ensures
            r == self.file_at(path@),
    {
        match self.kind_of(path) {
            Some(EntryKind::File) => true,
            _ => false,
        }
    }

    /// Whether a directory is at `path`.
    pub fn is_dir(&self, path: &str) -> (r: bool)
        ensures
            r == self.dir_at(path@),
    {
        match self.kind_of(path) {
            Some(EntryKind::Directory) => true,
            _ => false,
        }
    }

    /// What the walk from `dir` met; `None` where `dir` was not walked.
    pub fn listing(&self, dir: &str) -> (r: Option<&Vec<DirEntry>>)
        ensures
            match r {
                Some(entries) => self.listed(dir@) == Some(entries@),
                None => self.listed(dir@) is None,
            },
    {
        let wanted = String::from_str(dir);
        let mut i: usize = 0;
        assert(self.trees@.skip(0) =~= self.trees@);
        while i < self.trees.len()
            invariant
                i <= self.trees.len(),
                wanted@ == dir@,
                listing_in(self.trees@, dir@) == listing_in(self.trees@.skip(i as int), dir@),
            decreases self.trees.len() - i,
        {
            if self.trees[i].root == wanted {
                return Some(&self.trees[i].entries);
            }
            assert(self.trees@.skip(i as int).drop_first() =~= self.trees@.skip(i + 1));
            i += 1;
        }
        None
    }

    /// The first of `candidates` that the snapshot has something at.
    pub fn first_present(&self, candidates: &Vec<String>) -> (r: Option<String>)
        ensures
            r.deep_view() == first_present(*self, candidates.deep_view()),
    {
        let mut i: usize = 0;
        assert(candidates.deep_view().skip(0) =~= candidates.deep_view());
        while i < candidates.len()
            invariant
                i <= candidates.len(),
                first_present(*self, candidates.deep_view()) == first_present(
                    *self,
                    candidates.deep_view().skip(i as int),
                ),
            decreases candidates.len() - i,
        {
            assert(candidates.deep_view().skip(i as int)[0] == candidates@[i as int]@);
            if self.is_present(candidates[i].as_str()) {
                return Some(candidates[i].clone());
            }
            assert(candidates.deep_view().skip(i as int).drop_first()
                =~= candidates.deep_view().skip(i + 1));
            i += 1;
        }
        None
    }
}

/// An entry added at the end speaks only of a path that had none.
pub proof fn lemma_kind_in_push(entries: Seq<FsEntry>, entry: FsEntry, path: Seq<char>)
    ensures
        kind_in(entries.push(entry), path) == if kind_in(entries, path) is Some {
            kind_in(entries, path)
        } else if entry.path@ == path {
            Some(entry.kind)
        } else {
            None
        },
    decreases entries.len(),
{
    if entries.len() == 0 {
        assert(entries.push(entry).drop_first() =~= entries);
    } else {
        assert(entries.push(entry).drop_first() =~= entries.drop_first().push(entry));
        if entries[0].path@ != path {
            lemma_kind_in_push(entries.drop_first(), entry, path);
        }
    }
}

/// A tree added at the end is found only for a directory that had none.
pub proof fn lemma_listing_in_push(trees: Seq<DirTree>, tree: DirTree, dir: Seq<char>)
    ensures
        listing_in(trees.push(tree), dir) == if listing_in(trees, dir) is Some {
            listing_in(trees, dir)
        } else if tree.root@ == dir {
            Some(tree.entries@)
        } else {
            None
        },
    decreases trees.len(),
{
    if trees.len() == 0 {
        assert(trees.push(tree).drop_first() =~= trees);
    } else {
        assert(trees.push(tree).drop_first() =~= trees.drop_first().push(tree));
        if trees[0].root@ != dir {
            lemma_listing_in_push(trees.drop_first(), tree, dir);
        }
    }
}

/// What `first_present` gives is one of the candidates, the snapshot has it, and it
/// has none of those before it; where it gives nothing, the snapshot has none of them.
pub proof fn lemma_first_present(fs: FsSnapshot, candidates: Seq<Seq<char>>)
    ensures
        match first_present(fs, candidates) {
            Some(found) => fs.present(found) && exists|i: int|
                0 <= i < candidates.len() && #[trigger] candidates[i] == found && forall|k: int|
                    0 <= k < i ==> !fs.present(#[trigger] candidates[k]),
            None => forall|i: int| 0 <= i < candidates.len() ==> !fs.present(#[trigger] candidates[i]),
        },
    decreases candidates.len(),
{
    if candidates.len() > 0 {
        if fs.present(candidates[0]) {
            assert(candidates[0] == candidates[0]);
        } else {
            let rest = candidates.drop_first();
            lemma_first_present(fs, rest);
            assert(forall|k: int| 0 < k < candidates.len() ==> candidates[k] == rest[k - 1]);
            match first_present(fs, rest) {
                Some(found) => {
                    let i = choose|i: int|
                        0 <= i < rest.len() && #[trigger] rest[i] == found && forall|k: int|
                            0 <= k < i ==> !fs.present(#[trigger] rest[k]);
                    assert(candidates[i + 1] == found);
                    assert forall|k: int| 0 <= k < i + 1 implies !fs.present(
                        #[trigger] candidates[k],
                    ) by {
                        if k > 0 {
                            assert(!fs.present(rest[k - 1]));
                        }
                    }
                },
                None => {
                    assert forall|i: int| 0 <= i < candidates.len() implies !fs.present(
                        #[trigger] candidates[i],
                    ) by {
                        if i > 0 {
                            assert(!fs.present(rest[i - 1]));
                        }
                    }
                },
            }
        }
    }
}

/// Two snapshots that agree on whether each candidate is there give the same
/// first candidate.
pub proof fn lemma_first_present_reads_candidates(
    a: FsSnapshot,
    b: FsSnapshot,
    candidates: Seq<Seq<char>>,
)
    requires
        forall|i: int|
            0 <= i < candidates.len() ==> a.present(#[trigger] candidates[i]) == b.present(
                candidates[i],
            ),
    ensures
        first_present(a, candidates) == first_present(b, candidates),
    decreases candidates.len(),
{
    if candidates.len() > 0 {
        assert(a.present(candidates[0]) == b.present(candidates[0]));
        let rest = candidates.drop_first();
        assert(forall|i: int| 0 <= i < rest.len() ==> rest[i] == candidates[i + 1]);
        lemma_first_present_reads_candidates(a, b, rest);
    }
}

} // verus!
