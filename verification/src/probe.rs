//! The recursive prober: a walk through a directory that was listed, down to a
//! fixed depth, for a file whose path has the shape of an entry script's; and the
//! rules for a path that the user picked.

use crate::error::{found_view, NotFound};
use crate::fs::{DirEntry, EntryKind, FsSnapshot};
use crate::layout::{at_entry_script, entry_script_below, entry_script_under, is_entry_script};
use crate::path::{file_name, join, joined, name_of, parent, parent_of, OsFamily};
use crate::paths::AppPaths;
use crate::text::{lowercase, same_text, to_lowercase, trim, trimmed};
use vstd::prelude::*;

verus! {

/// How many directories the walk goes down from the one it starts in.
pub const MAX_SEARCH_DEPTH: usize = 5;

/// The first entry script that a walk through `entries`, the content of `dir`,
/// meets. The walk takes the entries in their order. A regular file whose path has
/// the shape of an entry script's ends it. A directory is walked through, before
/// the entry after it, as long as `depth` is not used up; each level down uses up
/// one.
pub open spec fn search(os: OsFamily, dir: Seq<char>, entries: Seq<DirEntry>, depth: nat) -> Option<
    Seq<char>,
>
    decreases depth, entries.len(),
{
    if entries.len() == 0 {
        None
    } else {
        let path = joined(os, dir, entries[0].name@);
        if entries[0].kind == EntryKind::File && is_entry_script(os, path) {
            Some(path)
        } else {
            let below = if entries[0].kind == EntryKind::Directory && depth > 0 {
                search(os, path, entries[0].children@, (depth - 1) as nat)
            } else {
                None
            };
            if below is Some {
                below
            } else {
                search(os, dir, entries.drop_first(), depth)
            }
        }
    }
}

/// What the search below `dir` gives: `NotADirectory` unless the snapshot has a
/// directory there; else the first entry script that the walk meets within the
/// depth allowed; `NoMatch` if it meets none, or if `dir` was not walked.
pub open spec fn found_below(os: OsFamily, dir: Seq<char>, fs: FsSnapshot) -> Result<
    Seq<char>,
    NotFound,
> {
    if !fs.dir_at(dir) {
        Err(NotFound::NotADirectory)
    } else {
        match fs.listed(dir) {
            Some(entries) => match search(os, dir, entries, MAX_SEARCH_DEPTH as nat) {
                Some(found) => Ok(found),
                None => Err(NotFound::NoMatch),
            },
            None => Err(NotFound::NoMatch),
        }
    }
}

/// The entry script of an installation rooted at `dir`: the one at its usual place,
/// if the snapshot has it; else what the search below `dir` finds.
pub open spec fn entry_script_of(os: OsFamily, dir: Seq<char>, fs: FsSnapshot) -> Option<
    Seq<char>,
> {
    if fs.present(entry_script_below(os, dir)) {
        Some(entry_script_below(os, dir))
    } else {
        match found_below(os, dir, fs) {
            Ok(found) => Some(found),
            Err(_) => None,
        }
    }
}

/// A file name, in lower case, is that of the executable.
pub open spec fn names_executable(lowered: Seq<char>) -> bool {
    lowered == "cursor.exe"@ || lowered == "cursor"@
}

/// The file name of `path` in lower case, if it has one.
pub open spec fn lowered_name_of(os: OsFamily, path: Seq<char>) -> Option<Seq<char>> {
    match name_of(os, path) {
        Some(name) => Some(lowercase(name)),
        None => None,
    }
}

/// What a picked path leads to; `lowered` is its file name in lower case. In this
/// order: if it names the executable, the entry script of the installation rooted
/// at its parent; if it is called `main.js` and the snapshot has it, the path
/// itself; if the snapshot has a directory there, the entry script of the
/// installation rooted at it; else `NoMatch`.
pub open spec fn selection(
    os: OsFamily,
    picked: Seq<char>,
    lowered: Option<Seq<char>>,
    fs: FsSnapshot,
) -> Result<Seq<char>, NotFound> {
    let beside = match (lowered, parent_of(os, picked)) {
        (Some(name), Some(dir)) if names_executable(name) => entry_script_of(os, dir, fs),
        _ => None,
    };
    if beside is Some {
        Ok(beside->0)
    } else if name_of(os, picked) == Some("main.js"@) && fs.present(picked) {
        Ok(picked)
    } else if fs.dir_at(picked) && entry_script_of(os, picked, fs) is Some {
        Ok(entry_script_of(os, picked, fs)->0)
    } else {
        Err(NotFound::NoMatch)
    }
}

/// The first entry script that a walk through `entries`, the content of `dir`, meets
/// within `depth` levels down.
pub fn search_entries(os: OsFamily, dir: &str, entries: &Vec<DirEntry>, depth: usize) -> (r:
    Option<String>)
    ensures
        r.deep_view() == search(os, dir@, entries@, depth as nat),
    decreases depth,
{
    let mut i: usize = 0;
    assert(entries@.skip(0) =~= entries@);
    while i < entries.len()
        invariant
            i <= entries.len(),
            search(os, dir@, entries@, depth as nat) == search(
                os,
                dir@,
                entries@.skip(i as int),
                depth as nat,
            ),
        decreases entries.len() - i,
    {
        let entry = &entries[i];
        assert(entries@.skip(i as int)[0] == entries@[i as int]);
        assert(entries@.skip(i as int).drop_first() =~= entries@.skip(i + 1));
        let path = join(os, dir, entry.name.as_str());
        match entry.kind {
            EntryKind::File => {
                if at_entry_script(os, path.as_str()) {
                    return Some(path);
                }
            },
            EntryKind::Directory => {
                if depth > 0 {
                    let below = search_entries(os, path.as_str(), &entry.children, depth - 1);
                    if below.is_some() {
                        return below;
                    }
                }
            },
            EntryKind::Other => {},
        }
        i += 1;
    }
    None
}

/// Whether a file name, given in lower case, is that of the executable.
pub fn is_executable_name(lowered: &str) -> (r: bool)
    ensures
        r == names_executable(lowered@),
{
    same_text(lowered, "cursor.exe") || same_text(lowered, "cursor")
}

fn find_entry_script_of(os: OsFamily, dir: &str, fs: &FsSnapshot) -> (r: Option<String>)
    ensures
        r.deep_view() == entry_script_of(os, dir@, *fs),
{
    let usual = entry_script_under(os, dir);
    if fs.is_present(usual.as_str()) {
        return Some(usual);
    }
    match AppPaths::find_main_js_in_directory(os, dir, fs) {
        Ok(found) => Some(found),
        Err(_) => None,
    }
}

/// Reads a path that the user picked: the path without the white space around it,
/// and its file name in lower case, if it has one.
pub fn read_selection(os: OsFamily, selected_path: &str) -> (r: (String, Option<String>))
    ensures
        r.0@ == trimmed(selected_path@),
        r.1.deep_view() == lowered_name_of(os, trimmed(selected_path@)),
{
    let picked = trim(selected_path);
    let lowered = match file_name(os, picked.as_str()) {
        Some(name) => Some(to_lowercase(name.as_str())),
        None => None,
    };
    (picked, lowered)
}

/// What a picked path leads to; `lowered` is its file name in lower case.
pub fn resolve_selection(
    os: OsFamily,
    picked: &str,
    lowered: &Option<String>,
    fs: &FsSnapshot,
) -> (r: Result<String, NotFound>)
    ensures
        found_view(r) == selection(os, picked@, lowered.deep_view(), *fs),
{
    if let Some(name) = lowered {
        if is_executable_name(name.as_str()) {
            if let Some(dir) = parent(os, picked) {
                if let Some(found) = find_entry_script_of(os, dir.as_str(), fs) {
                    return Ok(found);
                }
            }
        }
    }
    let named_like_script = match file_name(os, picked) {
        Some(name) => same_text(name.as_str(), "main.js"),
        None => false,
    };
    if named_like_script && fs.is_present(picked) {
        return Ok(String::from_str(picked));
    }
    if fs.is_dir(picked) {
        if let Some(found) = find_entry_script_of(os, picked, fs) {
            return Ok(found);
        }
    }
    Err(NotFound::NoMatch)
}

impl AppPaths {
    /// Searches below `dir` for the entry script.
    pub fn find_main_js_in_directory(os: OsFamily, dir: &str, fs: &FsSnapshot) -> (r: Result<
        String,
        NotFound,
    >)
        ensures
            found_view(r) == found_below(os, dir@, *fs),
            r matches Ok(found) ==> is_entry_script(os, found@),
    {
        proof {
            if fs.listed(dir@) is Some {
                lemma_search_finds_entry_script(
                    os,
                    dir@,
                    fs.listed(dir@)->0,
                    MAX_SEARCH_DEPTH as nat,
                );
            }
        }
        if !fs.is_dir(dir) {
            return Err(NotFound::NotADirectory);
        }
        match fs.listing(dir) {
            Some(entries) => match search_entries(os, dir, entries, MAX_SEARCH_DEPTH) {
                Some(found) => Ok(found),
                None => Err(NotFound::NoMatch),
            },
            None => Err(NotFound::NoMatch),
        }
    }

    /// Finds the entry script from a path that the user picked: the executable, the
    /// entry script itself, or a directory. White space around the path is dropped.
    pub fn find_main_js_from_selected_path(os: OsFamily, selected_path: &str, fs: &FsSnapshot) -> (r:
        Result<String, NotFound>)
        ensures
            found_view(r) == selection(
                os,
                trimmed(selected_path@),
                lowered_name_of(os, trimmed(selected_path@)),
                *fs,
            ),
    {
        let (picked, lowered) = read_selection(os, selected_path);
        resolve_selection(os, picked.as_str(), &lowered, fs)
    }
}

/// `path` is a regular file that the walk through `entries`, the content of `dir`,
/// comes by within `depth` levels down.
pub open spec fn lists_file(
    os: OsFamily,
    dir: Seq<char>,
    entries: Seq<DirEntry>,
    depth: nat,
    path: Seq<char>,
) -> bool
    decreases depth, entries.len(),
{
    if entries.len() == 0 {
        false
    } else {
        let here = joined(os, dir, entries[0].name@);
        ||| (entries[0].kind == EntryKind::File && here == path)
        ||| (entries[0].kind == EntryKind::Directory && depth > 0 && lists_file(
            os,
            here,
            entries[0].children@,
            (depth - 1) as nat,
            path,
        ))
        ||| lists_file(os, dir, entries.drop_first(), depth, path)
    }
}

/// What the walk finds is a regular file within the depth allowed, and its path has
/// the shape of an entry script's.
pub proof fn lemma_search_finds_entry_script(
    os: OsFamily,
    dir: Seq<char>,
    entries: Seq<DirEntry>,
    depth: nat,
)
    ensures
        search(os, dir, entries, depth) matches Some(found) ==> lists_file(
            os,
            dir,
            entries,
            depth,
            found,
        ) && is_entry_script(os, found),
    decreases depth, entries.len(),
{
    if entries.len() > 0 {
        let here = joined(os, dir, entries[0].name@);
        if entries[0].kind == EntryKind::Directory && depth > 0 {
            lemma_search_finds_entry_script(os, here, entries[0].children@, (depth - 1) as nat);
        }
        lemma_search_finds_entry_script(os, dir, entries.drop_first(), depth);
    }
}

/// The walk misses nothing: where a regular file within the depth allowed has a
/// path of the shape of an entry script's, it finds one. A file that sits deeper
/// does not count.
pub proof fn lemma_search_misses_nothing(
    os: OsFamily,
    dir: Seq<char>,
    entries: Seq<DirEntry>,
    depth: nat,
    path: Seq<char>,
)
    requires
        lists_file(os, dir, entries, depth, path),
        is_entry_script(os, path),
    ensures
        search(os, dir, entries, depth) is Some,
    decreases depth, entries.len(),
{
    let here = joined(os, dir, entries[0].name@);
    if entries[0].kind == EntryKind::File && here == path {
    } else if entries[0].kind == EntryKind::Directory && depth > 0 && lists_file(
        os,
        here,
        entries[0].children@,
        (depth - 1) as nat,
        path,
    ) {
        lemma_search_misses_nothing(os, here, entries[0].children@, (depth - 1) as nat, path);
    } else {
        lemma_search_misses_nothing(os, dir, entries.drop_first(), depth, path);
    }
}

/// Where the walk finds nothing, no regular file within the depth allowed has a
/// path of the shape of an entry script's.
pub proof fn lemma_search_finds_none(
    os: OsFamily,
    dir: Seq<char>,
    entries: Seq<DirEntry>,
    depth: nat,
)
    requires
        search(os, dir, entries, depth) is None,
    ensures
        forall|path: Seq<char>|
            is_entry_script(os, path) ==> !lists_file(os, dir, entries, depth, path),
{
    assert forall|path: Seq<char>| is_entry_script(os, path) implies !lists_file(
        os,
        dir,
        entries,
        depth,
        path,
    ) by {
        if lists_file(os, dir, entries, depth, path) {
            lemma_search_misses_nothing(os, dir, entries, depth, path);
        }
    }
}

} // verus!
