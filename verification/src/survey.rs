//! What the locator reads. Before it takes the snapshot, the caller asks here which
//! paths to look at; the laws at the end say that these are enough: what the
//! locator gives depends on nothing else of the snapshot.

use crate::fs::{first_present, lemma_first_present, lemma_first_present_reads_candidates, FsSnapshot};
use crate::layout::{
    derived_executable, entry_script_below, entry_script_under, executable_file_name,
    executable_name, ENTRY_SCRIPT_LEVELS,
};
use crate::path::{ancestor, ancestor_of, join, joined, parent, parent_of, OsFamily};
use crate::paths::{
    found_executable, launch_target, located_entry_script, located_executable, resolution,
    store_view, usual_entry_script, usual_executable, usual_executable_of, AppPaths,
    AppPathsView, Environment, EnvironmentView, PathDefaults, PathDefaultsView,
};
use crate::probe::{is_executable_name, names_executable, selection};
use crate::scan::{
    entry_candidates, entry_script_candidates, executable_candidates, executable_candidates_from,
};
use crate::store::{OverrideStore, ENTRY_SCRIPT_KEY};
use crate::text::append_all;
use vstd::prelude::*;

verus! {

/// Two snapshots say the same of each of `paths`.
pub open spec fn agree(a: FsSnapshot, b: FsSnapshot, paths: Seq<Seq<char>>) -> bool {
    forall|i: int| 0 <= i < paths.len() ==> a.kind_at(#[trigger] paths[i]) == b.kind_at(paths[i])
}

/// Two snapshots hold the same walk from each of `dirs`.
pub open spec fn agree_on_walks(a: FsSnapshot, b: FsSnapshot, dirs: Seq<Seq<char>>) -> bool {
    forall|i: int| 0 <= i < dirs.len() ==> a.listed(#[trigger] dirs[i]) == b.listed(dirs[i])
}

/// The path that the store remembers as the entry script, if it remembers one.
pub open spec fn remembered(store: Option<Map<Seq<char>, Seq<char>>>) -> Seq<Seq<char>> {
    match store {
        Some(s) if s.dom().contains(ENTRY_SCRIPT_KEY@) => seq![s[ENTRY_SCRIPT_KEY@]],
        _ => seq![],
    }
}

/// Every place where resolution may look for the entry script: what the store
/// remembers, the usual place, and the places that the search path hints at.
pub open spec fn entry_script_probes(
    os: OsFamily,
    env: EnvironmentView,
    defaults: PathDefaultsView,
    store: Option<Map<Seq<char>, Seq<char>>>,
) -> Seq<Seq<char>> {
    remembered(store) + (match usual_entry_script(os, defaults) {
        Some(usual) => seq![usual],
        None => seq![],
    }) + (match env.search_path {
        Some(text) => entry_candidates(os, text),
        None => seq![],
    })
}

/// Every place where resolution may look for the executable before derivation: the
/// usual place and, on Windows, the places that the search path hints at.
pub open spec fn executable_probes(os: OsFamily, env: EnvironmentView, usual: Seq<char>) -> Seq<
    Seq<char>,
> {
    seq![usual] + (match env.search_path {
        Some(text) if os == OsFamily::Windows => executable_candidates(os, text),
        _ => seq![],
    })
}

/// The executables that the entry scripts `scripts` lead to, for those that lead
/// to one.
pub open spec fn derivation_probes(os: OsFamily, scripts: Seq<Seq<char>>) -> Seq<Seq<char>>
    decreases scripts.len(),
{
    if scripts.len() == 0 {
        seq![]
    } else {
        (match ancestor_of(os, scripts[0], ENTRY_SCRIPT_LEVELS as nat) {
            Some(root) => seq![joined(os, root, executable_name(os))],
            None => seq![],
        }) + derivation_probes(os, scripts.drop_first())
    }
}

/// Every path that resolution may look at. None where resolution fails whatever
/// is on disk.
pub open spec fn resolution_probes(
    env: EnvironmentView,
    defaults: PathDefaultsView,
    store: Option<Map<Seq<char>, Seq<char>>>,
) -> Seq<Seq<char>> {
    match OsFamily::named(env.os) {
        Some(os) => match usual_executable(os, env, defaults) {
            Ok(usual) => {
                let scripts = entry_script_probes(os, env, defaults, store);
                scripts + executable_probes(os, env, usual) + derivation_probes(os, scripts)
            },
            Err(_) => seq![],
        },
        None => seq![],
    }
}

/// Every path that a launch may look at: the executable, and the one that the
/// entry script leads to.
pub open spec fn launch_probes(os: OsFamily, paths: AppPathsView) -> Seq<Seq<char>> {
    seq![paths.cursor_exe] + (match paths.main_js {
        Some(script) => derivation_probes(os, seq![script]),
        None => seq![],
    })
}

/// The directory that a picked path which names the executable sits in.
pub open spec fn executable_home(os: OsFamily, picked: Seq<char>, lowered: Option<Seq<char>>) -> Option<
    Seq<char>,
> {
    match (lowered, parent_of(os, picked)) {
        (Some(name), Some(dir)) if names_executable(name) => Some(dir),
        _ => None,
    }
}

/// The directories that have to be walked for a picked path: the one it sits in,
/// if it names the executable, and the path itself.
pub open spec fn selection_walks(os: OsFamily, picked: Seq<char>, lowered: Option<Seq<char>>) -> Seq<
    Seq<char>,
> {
    (match executable_home(os, picked, lowered) {
        Some(dir) => seq![dir],
        None => seq![],
    }) + seq![picked]
}

/// Every path that has to be looked at for a picked path: the directories to walk,
/// and the usual place of the entry script below each.
pub open spec fn selection_probes(os: OsFamily, picked: Seq<char>, lowered: Option<Seq<char>>) -> Seq<
    Seq<char>,
> {
    (match executable_home(os, picked, lowered) {
        Some(dir) => seq![dir, entry_script_below(os, dir)],
        None => seq![],
    }) + seq![picked, entry_script_below(os, picked)]
}

fn derivation_probes_of(os: OsFamily, scripts: &Vec<String>) -> (r: Vec<String>)
    ensures
        r.deep_view() == derivation_probes(os, scripts.deep_view()),
{
    let mut probes: Vec<String> = Vec::new();
    let mut i: usize = 0;
    proof {
        assert(scripts.deep_view().skip(0) =~= scripts.deep_view());
        assert(probes.deep_view() + derivation_probes(os, scripts.deep_view())
            =~= derivation_probes(os, scripts.deep_view()));
    }
    while i < scripts.len()
        invariant
            i <= scripts.len(),
            derivation_probes(os, scripts.deep_view()) == probes.deep_view() + derivation_probes(
                os,
                scripts.deep_view().skip(i as int),
            ),
        decreases scripts.len() - i,
    {
        let ghost before = probes.deep_view();
        let ghost rest = scripts.deep_view().skip(i as int);
        proof {
            assert(rest[0] == scripts@[i as int]@);
            assert(rest.drop_first() =~= scripts.deep_view().skip(i + 1));
        }
        match ancestor(os, scripts[i].as_str(), ENTRY_SCRIPT_LEVELS) {
            Some(root) => {
                probes.push(join(os, root.as_str(), executable_file_name(os)));
                proof {
                    let here = seq![joined(os, root@, executable_name(os))];
                    assert(probes.deep_view() =~= before + here);
                    assert(before + (here + derivation_probes(os, rest.drop_first())) =~= before
                        + here + derivation_probes(os, rest.drop_first()));
                }
            },
            None => {
                proof {
                    assert(before + (Seq::<Seq<char>>::empty() + derivation_probes(
                        os,
                        rest.drop_first(),
                    )) =~= before + derivation_probes(os, rest.drop_first()));
                }
            },
        }
        i += 1;
    }
    assert(probes.deep_view() + Seq::<Seq<char>>::empty() =~= probes.deep_view());
    probes
}

impl AppPaths {
    /// Every path that resolution may look at: the snapshot that resolution is given
    /// has to say what is at each of them.
    pub fn resolution_probes(
        env: &Environment,
        defaults: &PathDefaults,
        store: Option<&OverrideStore>,
    ) -> (r: Vec<String>)
        ensures
            r.deep_view() == resolution_probes(env@, defaults@, store_view(store)),
    {
        let mut probes: Vec<String> = Vec::new();
        let os = match OsFamily::from_name(env.os.as_str()) {
            Some(os) => os,
            None => {
                assert(probes.deep_view() =~= Seq::<Seq<char>>::empty());
                return probes;
            },
        };
        let usual = match usual_executable_of(os, env, defaults) {
            Ok(usual) => usual,
            Err(_) => {
                assert(probes.deep_view() =~= Seq::<Seq<char>>::empty());
                return probes;
            },
        };
        if let Some(s) = store {
            if let Some(saved) = s.get_item(ENTRY_SCRIPT_KEY) {
                probes.push(saved);
            }
        }
        assert(probes.deep_view() =~= remembered(store_view(store)));
        let ghost first = probes.deep_view();
        match os {
            OsFamily::Windows => {},
            OsFamily::MacOs => {
                probes.push(defaults.macos_cursor_resources.clone());
            },
            OsFamily::Linux => {
                probes.push(defaults.linux_cursor_resources.clone());
            },
        }
        assert(probes.deep_view() =~= first + (match usual_entry_script(os, defaults@) {
            Some(usual) => seq![usual],
            None => seq![],
        }));
        let ghost second = probes.deep_view();
        if let Some(text) = &env.search_path {
            let hinted = entry_script_candidates(os, text.as_str());
            append_all(&mut probes, &hinted);
        } else {
            assert(probes.deep_view() =~= second + Seq::<Seq<char>>::empty());
        }
        assert(probes.deep_view() == entry_script_probes(
            os,
            env@,
            defaults@,
            store_view(store),
        ));
        let derived = derivation_probes_of(os, &probes);
        let ghost scripts = probes.deep_view();
        probes.push(usual);
        assert(probes.deep_view() =~= scripts + seq![usual@]);
        if matches!(os, OsFamily::Windows) {
            if let Some(text) = &env.search_path {
                let hinted = executable_candidates_from(os, text.as_str());
                append_all(&mut probes, &hinted);
            }
        }
        assert(probes.deep_view() =~= scripts + executable_probes(os, env@, usual@));
        append_all(&mut probes, &derived);
        probes
    }

    /// Every path that a launch may look at.
    pub fn launch_probes(&self, os: OsFamily) -> (r: Vec<String>)
        ensures
            r.deep_view() == launch_probes(os, self@),
    {
        let mut probes: Vec<String> = Vec::new();
        probes.push(self.cursor_exe.clone());
        assert(probes.deep_view() =~= seq![self.cursor_exe@]);
        if let Some(script) = &self.main_js {
            let mut scripts: Vec<String> = Vec::new();
            scripts.push(script.clone());
            assert(scripts.deep_view() =~= seq![script@]);
            let derived = derivation_probes_of(os, &scripts);
            append_all(&mut probes, &derived);
        } else {
            assert(probes.deep_view() =~= seq![self.cursor_exe@] + Seq::<Seq<char>>::empty());
        }
        probes
    }
}

fn executable_home_of(os: OsFamily, picked: &str, lowered: &Option<String>) -> (r: Option<String>)
    ensures
        r.deep_view() == executable_home(os, picked@, lowered.deep_view()),
{
    if let Some(name) = lowered {
        if is_executable_name(name.as_str()) {
            return parent(os, picked);
        }
    }
    None
}

/// The directories that have to be walked for a picked path; `lowered` is its file
/// name in lower case.
pub fn walks_for_selection(os: OsFamily, picked: &str, lowered: &Option<String>) -> (r: Vec<
    String,
>)
    ensures
        r.deep_view() == selection_walks(os, picked@, lowered.deep_view()),
{
    let mut dirs: Vec<String> = Vec::new();
    if let Some(dir) = executable_home_of(os, picked, lowered) {
        dirs.push(dir);
    }
    let ghost first = dirs.deep_view();
    assert(first =~= match executable_home(os, picked@, lowered.deep_view()) {
        Some(dir) => seq![dir],
        None => seq![],
    });
    dirs.push(String::from_str(picked));
    assert(dirs.deep_view() =~= first + seq![picked@]);
    dirs
}

/// Every path that has to be looked at for a picked path; `lowered` is its file
/// name in lower case.
pub fn probes_for_selection(os: OsFamily, picked: &str, lowered: &Option<String>) -> (r: Vec<
    String,
>)
    ensures
        r.deep_view() == selection_probes(os, picked@, lowered.deep_view()),
{
    let mut probes: Vec<String> = Vec::new();
    if let Some(dir) = executable_home_of(os, picked, lowered) {
        let usual = entry_script_under(os, dir.as_str());
        probes.push(dir);
        probes.push(usual);
    }
    let ghost first = probes.deep_view();
    assert(first =~= match executable_home(os, picked@, lowered.deep_view()) {
        Some(dir) => seq![dir, entry_script_below(os, dir)],
        None => seq![],
    });
    probes.push(String::from_str(picked));
    probes.push(entry_script_under(os, picked));
    assert(probes.deep_view() =~= first + seq![picked@, entry_script_below(os, picked@)]);
    probes
}

/// Snapshots that agree on all of `first + second` agree on each part.
pub proof fn lemma_agree_on_parts(
    a: FsSnapshot,
    b: FsSnapshot,
    first: Seq<Seq<char>>,
    second: Seq<Seq<char>>,
)
    requires
        agree(a, b, first + second),
    ensures
        agree(a, b, first),
        agree(a, b, second),
{
    let all = first + second;
    assert forall|i: int| 0 <= i < first.len() implies a.kind_at(#[trigger] first[i]) == b.kind_at(
        first[i],
    ) by {
        assert(all[i] == first[i]);
    }
    assert forall|i: int| 0 <= i < second.len() implies a.kind_at(#[trigger] second[i])
        == b.kind_at(second[i]) by {
        assert(all[first.len() + i] == second[i]);
    }
}

/// The executable that one of `scripts` leads to is among the derivation probes.
pub proof fn lemma_derivation_probes(os: OsFamily, scripts: Seq<Seq<char>>, k: int)
    requires
        0 <= k < scripts.len(),
    ensures
        ancestor_of(os, scripts[k], ENTRY_SCRIPT_LEVELS as nat) matches Some(root)
            ==> derivation_probes(os, scripts).contains(joined(os, root, executable_name(os))),
    decreases scripts.len(),
{
    let here = match ancestor_of(os, scripts[0], ENTRY_SCRIPT_LEVELS as nat) {
        Some(root) => seq![joined(os, root, executable_name(os))],
        None => seq![],
    };
    let after = derivation_probes(os, scripts.drop_first());
    if k == 0 {
        if here.len() > 0 {
            assert((here + after)[0] == here[0]);
        }
    } else {
        lemma_derivation_probes(os, scripts.drop_first(), k - 1);
        if let Some(root) = ancestor_of(os, scripts[k], ENTRY_SCRIPT_LEVELS as nat) {
            let wanted = joined(os, root, executable_name(os));
            let i = choose|i: int| 0 <= i < after.len() && after[i] == wanted;
            assert((here + after)[here.len() + i] == wanted);
        }
    }
}

/// Snapshots that agree on the executable that a script leads to derive the same
/// executable from it.
pub proof fn lemma_derivation_reads_probes(
    os: OsFamily,
    a: FsSnapshot,
    b: FsSnapshot,
    scripts: Seq<Seq<char>>,
    k: int,
)
    requires
        0 <= k < scripts.len(),
        agree(a, b, derivation_probes(os, scripts)),
    ensures
        derived_executable(os, scripts[k], a) == derived_executable(os, scripts[k], b),
{
    lemma_derivation_probes(os, scripts, k);
    if let Some(root) = ancestor_of(os, scripts[k], ENTRY_SCRIPT_LEVELS as nat) {
        let wanted = joined(os, root, executable_name(os));
        let probes = derivation_probes(os, scripts);
        let i = choose|i: int| 0 <= i < probes.len() && probes[i] == wanted;
        assert(a.kind_at(probes[i]) == b.kind_at(probes[i]));
    }
}

/// Snapshots that agree on the entry-script probes locate the same entry script,
/// and it is one of the probes.
pub proof fn lemma_entry_script_reads_probes(
    os: OsFamily,
    env: EnvironmentView,
    defaults: PathDefaultsView,
    store: Option<Map<Seq<char>, Seq<char>>>,
    a: FsSnapshot,
    b: FsSnapshot,
)
    requires
        agree(a, b, entry_script_probes(os, env, defaults, store)),
    ensures
        located_entry_script(os, env, defaults, store, a) == located_entry_script(
            os,
            env,
            defaults,
            store,
            b,
        ),
        located_entry_script(os, env, defaults, store, a) matches Ok(script)
            ==> entry_script_probes(os, env, defaults, store).contains(script),
{
    let saved = remembered(store);
    let usual = match usual_entry_script(os, defaults) {
        Some(usual) => seq![usual],
        None => seq![],
    };
    let hinted = match env.search_path {
        Some(text) => entry_candidates(os, text),
        None => seq![],
    };
    let all = saved + usual + hinted;
    lemma_agree_on_parts(a, b, saved + usual, hinted);
    lemma_agree_on_parts(a, b, saved, usual);
    assert(forall|i: int| 0 <= i < saved.len() ==> all[i] == saved[i]);
    assert(forall|i: int| 0 <= i < usual.len() ==> all[saved.len() + i] == usual[i]);
    assert(forall|i: int|
        0 <= i < hinted.len() ==> all[saved.len() + usual.len() + i] == hinted[i]);
    if saved.len() > 0 {
        assert(a.kind_at(saved[0]) == b.kind_at(saved[0]));
    }
    if usual.len() > 0 {
        assert(a.kind_at(usual[0]) == b.kind_at(usual[0]));
    }
    assert(forall|i: int| 0 <= i < hinted.len() ==> a.present(#[trigger] hinted[i]) == b.present(
        hinted[i],
    ));
    lemma_first_present_reads_candidates(a, b, hinted);
    lemma_first_present(a, hinted);
}

/// Snapshots that agree on the executable probes find the same executable, and it
/// is one of the probes.
pub proof fn lemma_executable_reads_probes(
    os: OsFamily,
    env: EnvironmentView,
    usual: Seq<char>,
    a: FsSnapshot,
    b: FsSnapshot,
)
    requires
        agree(a, b, executable_probes(os, env, usual)),
    ensures
        found_executable(os, env, usual, a) == found_executable(os, env, usual, b),
        executable_probes(os, env, usual).contains(found_executable(os, env, usual, a)),
{
    let hinted = match env.search_path {
        Some(text) if os == OsFamily::Windows => executable_candidates(os, text),
        _ => seq![],
    };
    let all = seq![usual] + hinted;
    lemma_agree_on_parts(a, b, seq![usual], hinted);
    assert(all[0] == usual);
    assert(forall|i: int| 0 <= i < hinted.len() ==> all[1 + i] == hinted[i]);
    assert(a.kind_at(seq![usual][0]) == b.kind_at(seq![usual][0]));
    assert(forall|i: int| 0 <= i < hinted.len() ==> a.present(#[trigger] hinted[i]) == b.present(
        hinted[i],
    ));
    lemma_first_present_reads_candidates(a, b, hinted);
    lemma_first_present(a, hinted);
}

/// Resolution reads nothing but its probes: from two snapshots that say the same of
/// each of them, it gives the same.
pub proof fn lemma_resolution_reads_probes(
    env: EnvironmentView,
    defaults: PathDefaultsView,
    store: Option<Map<Seq<char>, Seq<char>>>,
    a: FsSnapshot,
    b: FsSnapshot,
)
    requires
        agree(a, b, resolution_probes(env, defaults, store)),
    ensures
        resolution(env, defaults, store, a) == resolution(env, defaults, store, b),
{
    if let Some(os) = OsFamily::named(env.os) {
        if let Ok(usual) = usual_executable(os, env, defaults) {
            let scripts = entry_script_probes(os, env, defaults, store);
            let executables = executable_probes(os, env, usual);
            let derived = derivation_probes(os, scripts);
            lemma_agree_on_parts(a, b, scripts + executables, derived);
            lemma_agree_on_parts(a, b, scripts, executables);
            lemma_entry_script_reads_probes(os, env, defaults, store, a, b);
            lemma_executable_reads_probes(os, env, usual, a, b);
            let found = found_executable(os, env, usual, a);
            let k = choose|k: int| 0 <= k < executables.len() && executables[k] == found;
            assert(a.kind_at(executables[k]) == b.kind_at(executables[k]));
            if let Ok(script) = located_entry_script(os, env, defaults, store, a) {
                let i = choose|i: int| 0 <= i < scripts.len() && scripts[i] == script;
                lemma_derivation_reads_probes(os, a, b, scripts, i);
            }
        }
    }
}

/// A launch reads nothing but its probes.
pub proof fn lemma_launch_reads_probes(os: OsFamily, paths: AppPathsView, a: FsSnapshot, b: FsSnapshot)
    requires
        agree(a, b, launch_probes(os, paths)),
    ensures
        launch_target(os, paths, a) == launch_target(os, paths, b),
{
    let derived = match paths.main_js {
        Some(script) => derivation_probes(os, seq![script]),
        None => seq![],
    };
    lemma_agree_on_parts(a, b, seq![paths.cursor_exe], derived);
    assert(a.kind_at(seq![paths.cursor_exe][0]) == b.kind_at(seq![paths.cursor_exe][0]));
    if let Some(script) = paths.main_js {
        lemma_derivation_reads_probes(os, a, b, seq![script], 0);
    }
}

/// What a picked path leads to depends on nothing but its probes and its walks.
pub proof fn lemma_selection_reads_probes(
    os: OsFamily,
    picked: Seq<char>,
    lowered: Option<Seq<char>>,
    a: FsSnapshot,
    b: FsSnapshot,
)
    requires
        agree(a, b, selection_probes(os, picked, lowered)),
        agree_on_walks(a, b, selection_walks(os, picked, lowered)),
    ensures
        selection(os, picked, lowered, a) == selection(os, picked, lowered, b),
{
    let probes = selection_probes(os, picked, lowered);
    let walks = selection_walks(os, picked, lowered);
    match executable_home(os, picked, lowered) {
        Some(dir) => {
            assert(probes[0] == dir && probes[1] == entry_script_below(os, dir));
            assert(probes[2] == picked && probes[3] == entry_script_below(os, picked));
            assert(walks[0] == dir && walks[1] == picked);
            assert(a.kind_at(probes[0]) == b.kind_at(probes[0]));
            assert(a.kind_at(probes[1]) == b.kind_at(probes[1]));
            assert(a.kind_at(probes[2]) == b.kind_at(probes[2]));
            assert(a.kind_at(probes[3]) == b.kind_at(probes[3]));
            assert(a.listed(walks[0]) == b.listed(walks[0]));
            assert(a.listed(walks[1]) == b.listed(walks[1]));
        },
        None => {
            assert(probes[0] == picked && probes[1] == entry_script_below(os, picked));
            assert(walks[0] == picked);
            assert(a.kind_at(probes[0]) == b.kind_at(probes[0]));
            assert(a.kind_at(probes[1]) == b.kind_at(probes[1]));
            assert(a.listed(walks[0]) == b.listed(walks[0]));
        },
    }
}

} // verus!
