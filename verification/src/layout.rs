//! The shape of an installation: the entry script sits four levels below the
//! installation's root, at `resources/app/out/main.js`, and the executable sits
//! in the root itself.

use crate::fs::FsSnapshot;
use crate::path::{
    ancestor, ancestor_of, file_name, is_plain_name, is_trimmed, join, joined, lemma_joined,
    name_of, OsFamily,
};
use vstd::prelude::*;

verus! {

/// How many levels the entry script sits below the installation's root.
pub const ENTRY_SCRIPT_LEVELS: usize = 4;

/// The file name of the executable: `Cursor.exe` on Windows, `Cursor` on macOS,
/// `cursor` on Linux.
pub open spec fn executable_name(os: OsFamily) -> Seq<char> {
    match os {
        OsFamily::Windows => "Cursor.exe"@,
        OsFamily::MacOs => "Cursor"@,
        OsFamily::Linux => "cursor"@,
    }
}

/// Where the entry script of an installation rooted at `root` is.
pub open spec fn entry_script_below(os: OsFamily, root: Seq<char>) -> Seq<char> {
    joined(os, joined(os, joined(os, joined(os, root, "resources"@), "app"@), "out"@), "main.js"@)
}

/// `levels` above `path` there is a directory called `name`.
pub open spec fn ancestor_named(os: OsFamily, path: Seq<char>, levels: nat, name: Seq<char>) -> bool {
    match ancestor_of(os, path, levels) {
        Some(dir) => name_of(os, dir) == Some(name),
        None => false,
    }
}

/// `path` has the shape of an entry script's path: it is called `main.js`, and the
/// three directories around it are called `out`, `app` and `resources`, from the
/// inside out.
pub open spec fn is_entry_script(os: OsFamily, path: Seq<char>) -> bool {
    &&& name_of(os, path) == Some("main.js"@)
    &&& ancestor_named(os, path, 1, "out"@)
    &&& ancestor_named(os, path, 2, "app"@)
    &&& ancestor_named(os, path, 3, "resources"@)
}

/// The executable that belongs to the entry script at `entry`: the file of the
/// executable's name four levels up, if the snapshot has something there.
pub open spec fn derived_executable(os: OsFamily, entry: Seq<char>, fs: FsSnapshot) -> Option<
    Seq<char>,
> {
    match ancestor_of(os, entry, ENTRY_SCRIPT_LEVELS as nat) {
        Some(root) => {
            let candidate = joined(os, root, executable_name(os));
            if fs.present(candidate) {
                Some(candidate)
            } else {
                None
            }
        },
        None => None,
    }
}

/// The file name of the executable.
pub fn executable_file_name(os: OsFamily) -> (r: &'static str)
    ensures
        r@ == executable_name(os),
{
    match os {
        OsFamily::Windows => "Cursor.exe",
        OsFamily::MacOs => "Cursor",
        OsFamily::Linux => "cursor",
    }
}

/// Where the entry script of an installation rooted at `root` is.
pub fn entry_script_under(os: OsFamily, root: &str) -> (r: String)
    ensures
        r@ == entry_script_below(os, root@),
{
    let resources = join(os, root, "resources");
    let app = join(os, resources.as_str(), "app");
    let out = join(os, app.as_str(), "out");
    join(os, out.as_str(), "main.js")
}

fn has_name(os: OsFamily, path: &str, name: &str) -> (r: bool)
    ensures
        r == (name_of(os, path@) == Some(name@)),
{
    match file_name(os, path) {
        Some(found) => found == String::from_str(name),
        None => false,
    }
}

fn has_ancestor_named(os: OsFamily, path: &str, levels: usize, name: &str) -> (r: bool)
    ensures
        r == ancestor_named(os, path@, levels as nat, name@),
{
    match ancestor(os, path, levels) {
        Some(dir) => has_name(os, dir.as_str(), name),
        None => false,
    }
}

/// Whether `path` has the shape of an entry script's path.
pub fn at_entry_script(os: OsFamily, path: &str) -> (r: bool)
    ensures
        r == is_entry_script(os, path@),
{
    has_name(os, path, "main.js") && has_ancestor_named(os, path, 1, "out") && has_ancestor_named(
        os,
        path,
        2,
        "app",
    ) && has_ancestor_named(os, path, 3, "resources")
}

/// The executable that belongs to the entry script at `entry_script`, if the
/// snapshot has it. A path with fewer than four levels above it has none.
pub fn derive_executable_from_entry_script(
    os: OsFamily,
    entry_script: &str,
    fs: &FsSnapshot,
) -> (r: Option<String>)
    ensures
        r.deep_view() == derived_executable(os, entry_script@, *fs),
        ancestor_of(os, entry_script@, ENTRY_SCRIPT_LEVELS as nat) is None ==> r is None,
{
    match ancestor(os, entry_script, ENTRY_SCRIPT_LEVELS) {
        Some(root) => {
            let candidate = join(os, root.as_str(), executable_file_name(os));
            if fs.is_present(candidate.as_str()) {
                Some(candidate)
            } else {
                None
            }
        },
        None => None,
    }
}

/// The names that make up an installation are plain names, on every family.
pub proof fn lemma_layout_names(os: OsFamily)
    ensures
        is_plain_name(os, "resources"@),
        is_plain_name(os, "app"@),
        is_plain_name(os, "out"@),
        is_plain_name(os, "main.js"@),
        is_plain_name(os, executable_name(os)),
{
    reveal_strlit("resources");
    reveal_strlit("app");
    reveal_strlit("out");
    reveal_strlit("main.js");
    reveal_strlit("Cursor.exe");
    reveal_strlit("Cursor");
    reveal_strlit("cursor");
}

/// The entry script of an installation has the shape of one, and its fourth
/// ancestor is the installation's root.
pub proof fn lemma_entry_script_below(os: OsFamily, root: Seq<char>)
    requires
        is_trimmed(os, root),
    ensures
        is_entry_script(os, entry_script_below(os, root)),
        ancestor_of(os, entry_script_below(os, root), ENTRY_SCRIPT_LEVELS as nat) == Some(root),
{
    lemma_layout_names(os);
    reveal_strlit("resources");
    reveal_strlit("app");
    reveal_strlit("out");
    reveal_strlit("main.js");
    let resources = joined(os, root, "resources"@);
    let app = joined(os, resources, "app"@);
    let out = joined(os, app, "out"@);
    let script = joined(os, out, "main.js"@);
    lemma_joined(os, root, "resources"@);
    lemma_joined(os, resources, "app"@);
    lemma_joined(os, app, "out"@);
    lemma_joined(os, out, "main.js"@);
    assert(ancestor_of(os, root, 0) == Some(root));
    assert(ancestor_of(os, resources, 1) == Some(root));
    assert(ancestor_of(os, app, 2) == Some(root));
    assert(ancestor_of(os, out, 3) == Some(root));
    assert(ancestor_of(os, script, 4) == Some(root));
    assert(ancestor_of(os, resources, 0) == Some(resources));
    assert(ancestor_of(os, app, 1) == Some(resources));
    assert(ancestor_of(os, out, 2) == Some(resources));
    assert(ancestor_of(os, script, 3) == Some(resources));
    assert(ancestor_of(os, app, 0) == Some(app));
    assert(ancestor_of(os, out, 1) == Some(app));
    assert(ancestor_of(os, script, 2) == Some(app));
    assert(ancestor_of(os, out, 0) == Some(out));
    assert(ancestor_of(os, script, 1) == Some(out));
}

/// Derivation undoes the layout: from the entry script of an installation rooted
/// at `root` it gives the executable in `root`, if the snapshot has it there, and
/// nothing otherwise.
pub proof fn lemma_derivation_finds_root(os: OsFamily, root: Seq<char>, fs: FsSnapshot)
    requires
        is_trimmed(os, root),
    ensures
        derived_executable(os, entry_script_below(os, root), fs) == if fs.present(
            joined(os, root, executable_name(os)),
        ) {
            Some(joined(os, root, executable_name(os)))
        } else {
            None
        },
{
    lemma_entry_script_below(os, root);
}

} // verus!
