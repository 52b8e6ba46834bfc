//! Lexical paths. A path is a text; what its parts are depends on the operating-system
//! family alone, never on what is on disk. `.` and `..` are names like any other and
//! are not resolved; a Windows drive (`C:`) and the separators that follow it, or
//! the separators a path starts with, form its root.

use crate::text::{chars_of, slice_of};
use vstd::prelude::*;

verus! {

/// The operating-system families whose installation layouts are known.
#[derive(Clone, Copy, Debug, PartialEq, Eq, Structural)]
pub enum OsFamily {
    Windows,
    MacOs,
    Linux,
}

/// Whether `c` separates the components of a path: `/` everywhere, `\` on Windows too.
pub open spec fn is_separator(os: OsFamily, c: char) -> bool {
    c == '/' || (os == OsFamily::Windows && c == '\\')
}

/// The separator that `joined` writes: `\` on Windows, `/` elsewhere.
pub open spec fn main_separator(os: OsFamily) -> char {
    if os == OsFamily::Windows {
        '\\'
    } else {
        '/'
    }
}

/// The character between the directories of the search-path variable:
/// `;` on Windows, `:` elsewhere.
pub open spec fn list_separator(os: OsFamily) -> char {
    if os == OsFamily::Windows {
        ';'
    } else {
        ':'
    }
}

/// An ASCII letter, as a Windows drive is named by.
pub open spec fn is_drive_letter(c: char) -> bool {
    ('a' <= c && c <= 'z') || ('A' <= c && c <= 'Z')
}

/// The length of the drive that `p` starts with: 2 on Windows for a letter and a
/// colon, 0 otherwise.
pub open spec fn drive_len(os: OsFamily, p: Seq<char>) -> int {
    if os == OsFamily::Windows && p.len() >= 2 && is_drive_letter(p[0]) && p[1] == ':' {
        2
    } else {
        0
    }
}

/// The least index at or after `from` that holds no separator.
pub open spec fn skip_separators(os: OsFamily, p: Seq<char>, from: int) -> int
    decreases p.len() - from,
{
    if 0 <= from < p.len() && is_separator(os, p[from]) {
        skip_separators(os, p, from + 1)
    } else {
        from
    }
}

/// The least end `e` with `lo <= e <= hi` such that `p[e..hi]` holds separators only.
pub open spec fn drop_separators(os: OsFamily, p: Seq<char>, lo: int, hi: int) -> int
    decreases hi - lo,
{
    if lo < hi <= p.len() && is_separator(os, p[hi - 1]) {
        drop_separators(os, p, lo, hi - 1)
    } else {
        hi
    }
}

/// The least start `s` with `lo <= s <= hi` such that `p[s..hi]` holds no separator.
pub open spec fn name_start(os: OsFamily, p: Seq<char>, lo: int, hi: int) -> int
    decreases hi - lo,
{
    if lo < hi <= p.len() && !is_separator(os, p[hi - 1]) {
        name_start(os, p, lo, hi - 1)
    } else {
        hi
    }
}

/// The length of the root of `p`: its drive, and the separators that follow.
pub open spec fn root_len(os: OsFamily, p: Seq<char>) -> int {
    skip_separators(os, p, drive_len(os, p))
}

/// Where the last component of `p` ends: the length of `p` without the separators
/// that trail it, and never less than its root.
pub open spec fn body_end(os: OsFamily, p: Seq<char>) -> int {
    drop_separators(os, p, root_len(os, p), p.len() as int)
}

/// `p` has no separator trailing its last component.
pub open spec fn is_trimmed(os: OsFamily, p: Seq<char>) -> bool {
    body_end(os, p) == p.len()
}

/// `p` without its last component and the separators around it; `None` where `p`
/// is empty or is a root.
pub open spec fn parent_of(os: OsFamily, p: Seq<char>) -> Option<Seq<char>> {
    let root = root_len(os, p);
    let end = body_end(os, p);
    if end <= root {
        None
    } else {
        Some(p.subrange(0, drop_separators(os, p, root, name_start(os, p, root, end))))
    }
}

/// The last component of `p`; `None` where `p` is empty or a root, or ends in `.` or `..`.
pub open spec fn name_of(os: OsFamily, p: Seq<char>) -> Option<Seq<char>> {
    let root = root_len(os, p);
    let end = body_end(os, p);
    let name = p.subrange(name_start(os, p, root, end), end);
    if end <= root || name == seq!['.'] || name == seq!['.', '.'] {
        None
    } else {
        Some(name)
    }
}

/// The parent of the parent, `levels` times over; `None` as soon as a level is missing.
pub open spec fn ancestor_of(os: OsFamily, p: Seq<char>, levels: nat) -> Option<Seq<char>>
    decreases levels,
{
    if levels == 0 {
        Some(p)
    } else {
        match parent_of(os, p) {
            Some(up) => ancestor_of(os, up, (levels - 1) as nat),
            None => None,
        }
    }
}

/// `name` below `base`. An empty base gives `name` itself; a separator is written
/// unless `base` ends with one or is a bare drive.
pub open spec fn joined(os: OsFamily, base: Seq<char>, name: Seq<char>) -> Seq<char> {
    if base.len() == 0 {
        name
    } else if is_separator(os, base.last()) || base.len() == drive_len(os, base) {
        base + name
    } else {
        base.push(main_separator(os)) + name
    }
}

/// A single component: not empty, no separator in it, and not taken for a drive.
pub open spec fn is_plain_name(os: OsFamily, name: Seq<char>) -> bool {
    &&& name.len() > 0
    &&& forall|i: int| 0 <= i < name.len() ==> !is_separator(os, #[trigger] name[i])
    &&& drive_len(os, name) == 0
}

impl OsFamily {
    /// The family that an operating-system name stands for: `windows`, `macos` or `linux`.
    pub open spec fn named(name: Seq<char>) -> Option<OsFamily> {
        if name == "windows"@ {
            Some(OsFamily::Windows)
        } else if name == "macos"@ {
            Some(OsFamily::MacOs)
        } else if name == "linux"@ {
            Some(OsFamily::Linux)
        } else {
            None
        }
    }

    /// The family that an operating-system name stands for, if it is a supported one.
    pub fn from_name(name: &str) -> (r: Option<OsFamily>)
        ensures
            r == OsFamily::named(name@),
    {
        let given = String::from_str(name);
        if given == String::from_str("windows") {
            Some(OsFamily::Windows)
        } else if given == String::from_str("macos") {
            Some(OsFamily::MacOs)
        } else if given == String::from_str("linux") {
            Some(OsFamily::Linux)
        } else {
            None
        }
    }

    /// The character between the directories of the search-path variable.
    pub fn list_separator(self) -> (c: char)
        ensures
            c == list_separator(self),
    {
        match self {
            OsFamily::Windows => ';',
            _ => ':',
        }
    }
}

/// Whether `c` separates the components of a path.
pub fn separates(os: OsFamily, c: char) -> (r: bool)
    ensures
        r == is_separator(os, c),
{
    c == '/' || (matches!(os, OsFamily::Windows) && c == '\\')
}

fn drive_end(os: OsFamily, p: &Vec<char>) -> (r: usize)
    ensures
        r == drive_len(os, p@),
{
    if matches!(os, OsFamily::Windows) && p.len() >= 2 && p[1] == ':' {
        let c = p[0];
        if ('a' <= c && c <= 'z') || ('A' <= c && c <= 'Z') {
            return 2;
        }
    }
    0
}

fn root_end(os: OsFamily, p: &Vec<char>) -> (r: usize)
    ensures
        r == root_len(os, p@),
        r <= p.len(),
{
    let mut i: usize = drive_end(os, p);
    while i < p.len() && separates(os, p[i])
        invariant
            i <= p.len(),
            skip_separators(os, p@, i as int) == root_len(os, p@),
        decreases p.len() - i,
    {
        i += 1;
    }
    i
}

fn separators_dropped(os: OsFamily, p: &Vec<char>, lo: usize, hi: usize) -> (r: usize)
    requires
        lo <= hi <= p.len(),
    ensures
        r == drop_separators(os, p@, lo as int, hi as int),
        lo <= r <= hi,
{
    let mut e: usize = hi;
    while lo < e && separates(os, p[e - 1])
        invariant
            lo <= e <= hi,
            hi <= p.len(),
            drop_separators(os, p@, lo as int, e as int) == drop_separators(
                os,
                p@,
                lo as int,
                hi as int,
            ),
        decreases e - lo,
    {
        e -= 1;
    }
    e
}

fn name_begin(os: OsFamily, p: &Vec<char>, lo: usize, hi: usize) -> (r: usize)
    requires
        lo <= hi <= p.len(),
    ensures
        r == name_start(os, p@, lo as int, hi as int),
        lo <= r <= hi,
{
    let mut s: usize = hi;
    while lo < s && !separates(os, p[s - 1])
        invariant
            lo <= s <= hi,
            hi <= p.len(),
            name_start(os, p@, lo as int, s as int) == name_start(os, p@, lo as int, hi as int),
        decreases s - lo,
    {
        s -= 1;
    }
    s
}

/// `path` without its last component; `None` where it is empty or a root.
pub fn parent(os: OsFamily, path: &str) -> (r: Option<String>)
    ensures
        r.deep_view() == parent_of(os, path@),
{
    let p = chars_of(path);
    let root = root_end(os, &p);
    let end = separators_dropped(os, &p, root, p.len());
    if end <= root {
        None
    } else {
        let start = name_begin(os, &p, root, end);
        let cut = separators_dropped(os, &p, root, start);
        Some(slice_of(path, 0, cut))
    }
}

/// The last component of `path`; `None` where it is empty or a root, or ends in
/// `.` or `..`.
pub fn file_name(os: OsFamily, path: &str) -> (r: Option<String>)
    ensures
        r.deep_view() == name_of(os, path@),
{
    let p = chars_of(path);
    let root = root_end(os, &p);
    let end = separators_dropped(os, &p, root, p.len());
    if end <= root {
        return None;
    }
    let start = name_begin(os, &p, root, end);
    let ghost name = path@.subrange(start as int, end as int);
    if end - start == 1 && p[start] == '.' {
        assert(name =~= seq!['.']);
        return None;
    }
    if end - start == 2 && p[start] == '.' && p[start + 1] == '.' {
        assert(name =~= seq!['.', '.']);
        return None;
    }
    proof {
        if name == seq!['.'] {
            assert(name.len() == 1 && name[0] == '.');
        }
        if name == seq!['.', '.'] {
            assert(name.len() == 2 && name[0] == '.' && name[1] == '.');
        }
    }
    Some(slice_of(path, start, end))
}

/// The parent of the parent of `path`, `levels` times over; `None` as soon as a
/// level is missing.
pub fn ancestor(os: OsFamily, path: &str, levels: usize) -> (r: Option<String>)
    ensures
        r.deep_view() == ancestor_of(os, path@, levels as nat),
{
    let mut current = String::from_str(path);
    let mut left: usize = levels;
    while left > 0
        invariant
            ancestor_of(os, current@, left as nat) == ancestor_of(os, path@, levels as nat),
        decreases left,
    {
        match parent(os, current.as_str()) {
            Some(up) => {
                current = up;
            },
            None => {
                return None;
            },
        }
        left -= 1;
    }
    Some(current)
}

/// `name` below `base`.
pub fn join(os: OsFamily, base: &str, name: &str) -> (r: String)
    ensures
        r@ == joined(os, base@, name@),
{
    let b = chars_of(base);
    if b.len() == 0 {
        return String::from_str(name);
    }
    let mut out = String::from_str(base);
    if !(separates(os, b[b.len() - 1]) || b.len() == drive_end(os, &b)) {
        proof {
            reveal_strlit("\\");
            reveal_strlit("/");
        }
        match os {
            OsFamily::Windows => out.append("\\"),
            _ => out.append("/"),
        }
        assert(out@ =~= base@.push(main_separator(os)));
    }
    out.append(name);
    out
}

/// What `skip_separators` finds: separators up to it, none at it.
pub proof fn lemma_skip_separators(os: OsFamily, p: Seq<char>, from: int)
    requires
        0 <= from <= p.len(),
    ensures
        from <= skip_separators(os, p, from) <= p.len(),
        forall|j: int| from <= j < skip_separators(os, p, from) ==> is_separator(os, p[j]),
        skip_separators(os, p, from) < p.len() ==> !is_separator(
            os,
            p[skip_separators(os, p, from)],
        ),
    decreases p.len() - from,
{
    if from < p.len() && is_separator(os, p[from]) {
        lemma_skip_separators(os, p, from + 1);
    }
}

/// The index with separators up to it and none at it is the one `skip_separators` finds.
pub proof fn lemma_skip_separators_is(os: OsFamily, p: Seq<char>, from: int, r: int)
    requires
        0 <= from <= r <= p.len(),
        forall|j: int| from <= j < r ==> is_separator(os, p[j]),
        r < p.len() ==> !is_separator(os, p[r]),
    ensures
        skip_separators(os, p, from) == r,
    decreases r - from,
{
    if from < r {
        lemma_skip_separators_is(os, p, from + 1, r);
    }
}

/// What `drop_separators` finds: separators from it on, none just before it.
pub proof fn lemma_drop_separators(os: OsFamily, p: Seq<char>, lo: int, hi: int)
    requires
        0 <= lo <= hi <= p.len(),
    ensures
        lo <= drop_separators(os, p, lo, hi) <= hi,
        forall|j: int| drop_separators(os, p, lo, hi) <= j < hi ==> is_separator(os, p[j]),
        lo < drop_separators(os, p, lo, hi) ==> !is_separator(
            os,
            p[drop_separators(os, p, lo, hi) - 1],
        ),
    decreases hi - lo,
{
    if lo < hi && is_separator(os, p[hi - 1]) {
        lemma_drop_separators(os, p, lo, hi - 1);
    }
}

/// The end with separators from it on and none just before it is the one
/// `drop_separators` finds.
pub proof fn lemma_drop_separators_is(os: OsFamily, p: Seq<char>, lo: int, hi: int, e: int)
    requires
        0 <= lo <= e <= hi <= p.len(),
        forall|j: int| e <= j < hi ==> is_separator(os, p[j]),
        lo < e ==> !is_separator(os, p[e - 1]),
    ensures
        drop_separators(os, p, lo, hi) == e,
    decreases hi - e,
{
    if e < hi {
        lemma_drop_separators_is(os, p, lo, hi - 1, e);
    }
}

/// What `name_start` finds: no separator from it on, one just before it.
pub proof fn lemma_name_start(os: OsFamily, p: Seq<char>, lo: int, hi: int)
    requires
        0 <= lo <= hi <= p.len(),
    ensures
        lo <= name_start(os, p, lo, hi) <= hi,
        forall|j: int| name_start(os, p, lo, hi) <= j < hi ==> !is_separator(os, p[j]),
        lo < name_start(os, p, lo, hi) ==> is_separator(os, p[name_start(os, p, lo, hi) - 1]),
    decreases hi - lo,
{
    if lo < hi && !is_separator(os, p[hi - 1]) {
        lemma_name_start(os, p, lo, hi - 1);
    }
}

/// The start with no separator from it on and one just before it is the one
/// `name_start` finds.
pub proof fn lemma_name_start_is(os: OsFamily, p: Seq<char>, lo: int, hi: int, s: int)
    requires
        0 <= lo <= s <= hi <= p.len(),
        forall|j: int| s <= j < hi ==> !is_separator(os, p[j]),
        lo < s ==> is_separator(os, p[s - 1]),
    ensures
        name_start(os, p, lo, hi) == s,
    decreases hi - s,
{
    if s < hi {
        lemma_name_start_is(os, p, lo, hi - 1, s);
    }
}

/// A parent is a proper prefix of its path, and has nothing trailing.
pub proof fn lemma_parent_of(os: OsFamily, p: Seq<char>)
    ensures
        parent_of(os, p) matches Some(up) ==> up.len() < p.len() && up == p.subrange(
            0,
            up.len() as int,
        ) && is_trimmed(os, up),
{
    lemma_skip_separators(os, p, drive_len(os, p));
    let root = root_len(os, p);
    lemma_drop_separators(os, p, root, p.len() as int);
    let end = body_end(os, p);
    if end > root {
        lemma_name_start(os, p, root, end);
        let start = name_start(os, p, root, end);
        lemma_drop_separators(os, p, root, start);
        let cut = drop_separators(os, p, root, start);
        let up = p.subrange(0, cut);
        assert(drive_len(os, up) == drive_len(os, p));
        lemma_skip_separators_is(os, up, drive_len(os, up), root);
        lemma_drop_separators_is(os, up, root, cut, cut);
    }
}

/// Joining a plain name to a trimmed path and taking the parent gives the path back;
/// the name of the joined path is the name that was joined.
pub proof fn lemma_joined(os: OsFamily, base: Seq<char>, name: Seq<char>)
    requires
        is_trimmed(os, base),
        is_plain_name(os, name),
    ensures
        parent_of(os, joined(os, base, name)) == Some(base),
        name_of(os, joined(os, base, name)) == if name == seq!['.'] || name == seq!['.', '.'] {
            None
        } else {
            Some(name)
        },
        is_trimmed(os, joined(os, base, name)),
        joined(os, base, name).len() > base.len(),
{
    let j = joined(os, base, name);
    let len = j.len() as int;
    let start = len - name.len();
    let drive = drive_len(os, base);
    lemma_skip_separators(os, base, drive);
    let root = root_len(os, base);
    lemma_drop_separators(os, base, root, base.len() as int);
    assert(j.subrange(start, len) =~= name);
    assert(forall|k: int| start <= k < len ==> j[k] == name[k - start]);
    if base.len() == 0 {
        lemma_skip_separators_is(os, j, 0, 0);
        lemma_drop_separators_is(os, j, 0, len, len);
        lemma_name_start_is(os, j, 0, len, 0);
        assert(j.subrange(0, 0) =~= base);
    } else {
        assert(forall|k: int| 0 <= k < base.len() ==> j[k] == base[k]);
        assert(drive_len(os, j) == drive);
        if root == base.len() {
            assert(start == base.len());
            lemma_skip_separators_is(os, j, drive, root);
            lemma_drop_separators_is(os, j, root, len, len);
            lemma_name_start_is(os, j, root, len, start);
            assert(j.subrange(0, start) =~= base);
        } else {
            assert(start == base.len() + 1);
            assert(j[start - 1] == main_separator(os));
            lemma_skip_separators_is(os, j, drive, root);
            lemma_drop_separators_is(os, j, root, len, len);
            lemma_name_start_is(os, j, root, len, start);
            lemma_drop_separators_is(os, j, root, start, start - 1);
            assert(j.subrange(0, start - 1) =~= base);
        }
    }
}

} // verus!
