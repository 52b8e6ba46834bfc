//! The search-path scanner: reads the directories of the search-path variable as
//! hints of where the application is installed.
//!
//! A directory counts as a hint if its text, in lower case, mentions the
//! application. For each hint, in the order of the variable, up to three places are
//! named, and the first place of all that the snapshot has is the answer.

use crate::error::{found_view, NotFound};
use crate::fs::{first_present, FsSnapshot};
use crate::layout::{entry_script_below, entry_script_under, executable_file_name, executable_name};
use crate::path::{ancestor, ancestor_of, join, joined, list_separator, parent, parent_of, OsFamily};
use crate::paths::AppPaths;
use crate::text::{
    append_all, chars_of, contains, ends_with, has_infix, has_suffix, lowercase, split,
    split_text, to_lowercase,
};
use vstd::prelude::*;

verus! {

/// The lower-case text of a directory mentions the application.
pub open spec fn mentions_application(lowered: Seq<char>) -> bool {
    has_infix(lowered, "cursor"@)
}

/// The lower-case text of a directory looks like the `resources/app/bin` directory
/// of an installation: it mentions `resources` and `app`, and it ends with `bin` or
/// has a component that starts with `bin`.
pub open spec fn resembles_bin_directory(lowered: Seq<char>) -> bool {
    &&& has_infix(lowered, "resources"@)
    &&& has_infix(lowered, "app"@)
    &&& (has_suffix(lowered, "bin"@) || has_infix(lowered, "\\bin"@) || has_infix(
        lowered,
        "/bin"@,
    ))
}

/// Where the entry script is below the resources directory of an installation.
pub open spec fn entry_script_in_resources(os: OsFamily, resources: Seq<char>) -> Seq<char> {
    joined(os, joined(os, joined(os, resources, "app"@), "out"@), "main.js"@)
}

/// The places where one directory of the search path, whose lower-case text is
/// `lowered`, hints that the entry script is. None unless it mentions the
/// application; then, in this order: for a directory that looks like
/// `resources/app/bin`, the entry script in the resources directory two levels up;
/// the entry script of an installation rooted at the directory itself; the entry
/// script of an installation rooted at its parent.
pub open spec fn entry_candidates_of(os: OsFamily, segment: Seq<char>, lowered: Seq<char>) -> Seq<
    Seq<char>,
> {
    if !mentions_application(lowered) {
        seq![]
    } else {
        let above = match ancestor_of(os, segment, 2) {
            Some(resources) if resembles_bin_directory(lowered) => seq![
                entry_script_in_resources(os, resources),
            ],
            _ => seq![],
        };
        let beside = match parent_of(os, segment) {
            Some(up) => seq![entry_script_below(os, up)],
            None => seq![],
        };
        above + seq![entry_script_below(os, segment)] + beside
    }
}

/// The places where one directory of the search path, whose lower-case text is
/// `lowered`, hints that the executable is. None unless it mentions the
/// application; then, in this order: for a directory that looks like
/// `resources/app/bin`, the executable three levels up; the executable in the
/// directory itself; the executable in its parent.
pub open spec fn executable_candidates_of(
    os: OsFamily,
    segment: Seq<char>,
    lowered: Seq<char>,
) -> Seq<Seq<char>> {
    if !mentions_application(lowered) {
        seq![]
    } else {
        let above = match ancestor_of(os, segment, 3) {
            Some(root) if resembles_bin_directory(lowered) => seq![
                joined(os, root, executable_name(os)),
            ],
            _ => seq![],
        };
        let beside = match parent_of(os, segment) {
            Some(up) => seq![joined(os, up, executable_name(os))],
            None => seq![],
        };
        above + seq![joined(os, segment, executable_name(os))] + beside
    }
}

/// The places that the directories `segments` hint at for the entry script, in order.
pub open spec fn entry_candidates_in(os: OsFamily, segments: Seq<Seq<char>>) -> Seq<Seq<char>>
    decreases segments.len(),
{
    if segments.len() == 0 {
        seq![]
    } else {
        entry_candidates_of(os, segments[0], lowercase(segments[0])) + entry_candidates_in(
            os,
            segments.drop_first(),
        )
    }
}

/// The places that the directories `segments` hint at for the executable, in order.
pub open spec fn executable_candidates_in(os: OsFamily, segments: Seq<Seq<char>>) -> Seq<
    Seq<char>,
>
    decreases segments.len(),
{
    if segments.len() == 0 {
        seq![]
    } else {
        executable_candidates_of(os, segments[0], lowercase(segments[0]))
            + executable_candidates_in(os, segments.drop_first())
    }
}

/// The places that a search path hints at for the entry script, in order.
pub open spec fn entry_candidates(os: OsFamily, search_path: Seq<char>) -> Seq<Seq<char>> {
    entry_candidates_in(os, split(search_path, list_separator(os)))
}

/// The places that a search path hints at for the executable, in order.
pub open spec fn executable_candidates(os: OsFamily, search_path: Seq<char>) -> Seq<Seq<char>> {
    executable_candidates_in(os, split(search_path, list_separator(os)))
}

/// What the scan for the entry script gives: the first hinted place that the
/// snapshot has; `NoMatch` if it has none of them, `SearchPathUnreadable` if there
/// is no search path to read.
pub open spec fn entry_scan(os: OsFamily, search_path: Option<Seq<char>>, fs: FsSnapshot) -> Result<
    Seq<char>,
    NotFound,
> {
    match search_path {
        None => Err(NotFound::SearchPathUnreadable),
        Some(text) => match first_present(fs, entry_candidates(os, text)) {
            Some(found) => Ok(found),
            None => Err(NotFound::NoMatch),
        },
    }
}

/// What the scan for the executable gives; as `entry_scan`, over the places hinted
/// at for the executable.
pub open spec fn executable_scan(
    os: OsFamily,
    search_path: Option<Seq<char>>,
    fs: FsSnapshot,
) -> Result<Seq<char>, NotFound> {
    match search_path {
        None => Err(NotFound::SearchPathUnreadable),
        Some(text) => match first_present(fs, executable_candidates(os, text)) {
            Some(found) => Ok(found),
            None => Err(NotFound::NoMatch),
        },
    }
}

/// Whether the lower-case text of a directory mentions the application.
pub fn segment_mentions_application(lowered: &str) -> (r: bool)
    ensures
        r == mentions_application(lowered@),
{
    contains(&chars_of(lowered), &chars_of("cursor"))
}

/// Whether the lower-case text of a directory looks like the `resources/app/bin`
/// directory of an installation.
pub fn segment_resembles_bin_directory(lowered: &str) -> (r: bool)
    ensures
        r == resembles_bin_directory(lowered@),
{
    let text = chars_of(lowered);
    contains(&text, &chars_of("resources")) && contains(&text, &chars_of("app")) && (ends_with(
        &text,
        &chars_of("bin"),
    ) || contains(&text, &chars_of("\\bin")) || contains(&text, &chars_of("/bin")))
}

/// The places where the directory `segment`, whose lower-case text is `lowered`,
/// hints that the entry script is.
pub fn segment_entry_candidates(os: OsFamily, segment: &str, lowered: &str) -> (r: Vec<String>)
    ensures
        r.deep_view() == entry_candidates_of(os, segment@, lowered@),
{
    let mut found: Vec<String> = Vec::new();
    if !segment_mentions_application(lowered) {
        assert(found.deep_view() =~= Seq::<Seq<char>>::empty());
        return found;
    }
    let ghost above = Seq::<Seq<char>>::empty();
    if segment_resembles_bin_directory(lowered) {
        if let Some(resources) = ancestor(os, segment, 2) {
            let app = join(os, resources.as_str(), "app");
            let out = join(os, app.as_str(), "out");
            found.push(join(os, out.as_str(), "main.js"));
            proof {
                above = seq![entry_script_in_resources(os, resources@)];
            }
        }
    }
    assert(found.deep_view() =~= above);
    found.push(entry_script_under(os, segment));
    assert(found.deep_view() =~= above + seq![entry_script_below(os, segment@)]);
    if let Some(up) = parent(os, segment) {
        found.push(entry_script_under(os, up.as_str()));
        assert(found.deep_view() =~= above + seq![entry_script_below(os, segment@)] + seq![
            entry_script_below(os, up@),
        ]);
    } else {
        assert(found.deep_view() =~= above + seq![entry_script_below(os, segment@)]
            + Seq::<Seq<char>>::empty());
    }
    found
}

/// The places where the directory `segment`, whose lower-case text is `lowered`,
/// hints that the executable is.
pub fn segment_executable_candidates(os: OsFamily, segment: &str, lowered: &str) -> (r: Vec<
    String,
>)
    ensures
        r.deep_view() == executable_candidates_of(os, segment@, lowered@),
{
    let mut found: Vec<String> = Vec::new();
    if !segment_mentions_application(lowered) {
        assert(found.deep_view() =~= Seq::<Seq<char>>::empty());
        return found;
    }
    let name = executable_file_name(os);
    let ghost above = Seq::<Seq<char>>::empty();
    if segment_resembles_bin_directory(lowered) {
        if let Some(root) = ancestor(os, segment, 3) {
            found.push(join(os, root.as_str(), name));
            proof {
                above = seq![joined(os, root@, executable_name(os))];
            }
        }
    }
    assert(found.deep_view() =~= above);
    found.push(join(os, segment, name));
    assert(found.deep_view() =~= above + seq![joined(os, segment@, executable_name(os))]);
    if let Some(up) = parent(os, segment) {
        found.push(join(os, up.as_str(), name));
        assert(found.deep_view() =~= above + seq![joined(os, segment@, executable_name(os))]
            + seq![joined(os, up@, executable_name(os))]);
    } else {
        assert(found.deep_view() =~= above + seq![joined(os, segment@, executable_name(os))]
            + Seq::<Seq<char>>::empty());
    }
    found
}

/// The places that a search path hints at for the entry script, in order.
pub fn entry_script_candidates(os: OsFamily, search_path: &str) -> (r: Vec<String>)
    ensures
        r.deep_view() == entry_candidates(os, search_path@),
{
    let segments = split_text(search_path, os.list_separator());
    let mut found: Vec<String> = Vec::new();
    let mut i: usize = 0;
    proof {
        assert(segments.deep_view().skip(0) =~= segments.deep_view());
        assert(found.deep_view() + entry_candidates_in(os, segments.deep_view())
            =~= entry_candidates_in(os, segments.deep_view()));
    }
    while i < segments.len()
        invariant
            i <= segments.len(),
            segments.deep_view() == split(search_path@, list_separator(os)),
            entry_candidates(os, search_path@) == found.deep_view() + entry_candidates_in(
                os,
                segments.deep_view().skip(i as int),
            ),
        decreases segments.len() - i,
    {
        let ghost before = found.deep_view();
        let ghost rest = segments.deep_view().skip(i as int);
        let lowered = to_lowercase(segments[i].as_str());
        let here = segment_entry_candidates(os, segments[i].as_str(), lowered.as_str());
        append_all(&mut found, &here);
        proof {
            assert(rest[0] == segments@[i as int]@);
            assert(rest.drop_first() =~= segments.deep_view().skip(i + 1));
            assert(before + (here.deep_view() + entry_candidates_in(os, rest.drop_first()))
                =~= before + here.deep_view() + entry_candidates_in(os, rest.drop_first()));
        }
        i += 1;
    }
    assert(found.deep_view() + Seq::<Seq<char>>::empty() =~= found.deep_view());
    found
}

/// The places that a search path hints at for the executable, in order.
pub fn executable_candidates_from(os: OsFamily, search_path: &str) -> (r: Vec<String>)
    ensures
        r.deep_view() == executable_candidates(os, search_path@),
{
    let segments = split_text(search_path, os.list_separator());
    let mut found: Vec<String> = Vec::new();
    let mut i: usize = 0;
    proof {
        assert(segments.deep_view().skip(0) =~= segments.deep_view());
        assert(found.deep_view() + executable_candidates_in(os, segments.deep_view())
            =~= executable_candidates_in(os, segments.deep_view()));
    }
    while i < segments.len()
        invariant
            i <= segments.len(),
            segments.deep_view() == split(search_path@, list_separator(os)),
            executable_candidates(os, search_path@) == found.deep_view()
                + executable_candidates_in(os, segments.deep_view().skip(i as int)),
        decreases segments.len() - i,
    {
        let ghost before = found.deep_view();
        let ghost rest = segments.deep_view().skip(i as int);
        let lowered = to_lowercase(segments[i].as_str());
        let here = segment_executable_candidates(os, segments[i].as_str(), lowered.as_str());
        append_all(&mut found, &here);
        proof {
            assert(rest[0] == segments@[i as int]@);
            assert(rest.drop_first() =~= segments.deep_view().skip(i + 1));
            assert(before + (here.deep_view() + executable_candidates_in(os, rest.drop_first()))
                =~= before + here.deep_view() + executable_candidates_in(
                os,
                rest.drop_first(),
            ));
        }
        i += 1;
    }
    assert(found.deep_view() + Seq::<Seq<char>>::empty() =~= found.deep_view());
    found
}

impl AppPaths {
    /// Scans the search path for the entry script.
    pub fn find_cursor_from_env_path(
        os: OsFamily,
        search_path: &Option<String>,
        fs: &FsSnapshot,
    ) -> (r: Result<String, NotFound>)
        ensures
            found_view(r) == entry_scan(os, search_path.deep_view(), *fs),
    {
        match search_path {
            None => Err(NotFound::SearchPathUnreadable),
            Some(text) => {
                let candidates = entry_script_candidates(os, text.as_str());
                match fs.first_present(&candidates) {
                    Some(found) => Ok(found),
                    None => Err(NotFound::NoMatch),
                }
            },
        }
    }

    /// Scans the search path for the executable.
    pub fn find_cursor_exe_from_env_path(
        os: OsFamily,
        search_path: &Option<String>,
        fs: &FsSnapshot,
    ) -> (r: Result<String, NotFound>)
        ensures
            found_view(r) == executable_scan(os, search_path.deep_view(), *fs),
    {
        match search_path {
            None => Err(NotFound::SearchPathUnreadable),
            Some(text) => {
                let candidates = executable_candidates_from(os, text.as_str());
                match fs.first_present(&candidates) {
                    Some(found) => Ok(found),
                    None => Err(NotFound::NoMatch),
                }
            },
        }
    }
}

/// Every place that one directory hints at for the executable is a path below
/// which the executable's name was joined, so none is empty.
pub proof fn lemma_executable_candidates_of(os: OsFamily, segment: Seq<char>, lowered: Seq<char>)
    ensures
        forall|i: int|
            0 <= i < executable_candidates_of(os, segment, lowered).len() ==> (
            #[trigger] executable_candidates_of(os, segment, lowered)[i]).len() > 0,
{
    reveal_strlit("Cursor.exe");
    reveal_strlit("Cursor");
    reveal_strlit("cursor");
    assert(executable_name(os).len() > 0);
    assert(forall|base: Seq<char>| (#[trigger] joined(os, base, executable_name(os))).len() > 0);
}

/// No place hinted at for the executable is empty.
pub proof fn lemma_executable_candidates_in(os: OsFamily, segments: Seq<Seq<char>>)
    ensures
        forall|i: int|
            0 <= i < executable_candidates_in(os, segments).len() ==> (
            #[trigger] executable_candidates_in(os, segments)[i]).len() > 0,
    decreases segments.len(),
{
    if segments.len() > 0 {
        let here = executable_candidates_of(os, segments[0], lowercase(segments[0]));
        let after = executable_candidates_in(os, segments.drop_first());
        lemma_executable_candidates_of(os, segments[0], lowercase(segments[0]));
        lemma_executable_candidates_in(os, segments.drop_first());
        assert forall|i: int| 0 <= i < (here + after).len() implies (#[trigger] (here
            + after)[i]).len() > 0 by {
            if i < here.len() {
                assert((here + after)[i] == here[i]);
            } else {
                assert((here + after)[i] == after[i - here.len()]);
            }
        }
    }
}

} // verus!
