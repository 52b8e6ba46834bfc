//! The paths of an installation, and how they are resolved from the environment,
//! the defaults, the override store and a snapshot of the file system.

use crate::error::{
    found_view, LaunchError, LaunchErrorView, NotFound, RequiredVariable, ResolveError,
    ResolveErrorView,
};
use crate::fs::{lemma_first_present, FsSnapshot};
use crate::layout::{derive_executable_from_entry_script, derived_executable};
use crate::path::{join, joined, list_separator, parent, parent_of, OsFamily};
use crate::scan::{
    entry_candidates, entry_scan, executable_candidates, executable_scan,
    lemma_executable_candidates_in,
};
use crate::store::{OverrideStore, ENTRY_SCRIPT_KEY};
use crate::text::{expand, expand_placeholder, split};
use vstd::prelude::*;

verus! {

/// The paths of an installation.
#[derive(Debug, Clone, PartialEq, Eq)]
pub struct AppPaths {
    /// The storage file of the application.
    pub storage: String,
    /// The file that holds the application's sign-in.
    pub auth: String,
    /// The state database of the application.
    pub db: String,
    /// The executable. Always set, to the usual place if it was found nowhere.
    pub cursor_exe: String,
    /// The entry script, if it was found.
    pub main_js: Option<String>,
}

/// `AppPaths`, with its paths as sequences of characters.
pub struct AppPathsView {
    pub storage: Seq<char>,
    pub auth: Seq<char>,
    pub db: Seq<char>,
    pub cursor_exe: Seq<char>,
    pub main_js: Option<Seq<char>>,
}

impl View for AppPaths {
    type V = AppPathsView;

    open spec fn view(&self) -> AppPathsView {
        AppPathsView {
            storage: self.storage@,
            auth: self.auth@,
            db: self.db@,
            cursor_exe: self.cursor_exe@,
            main_js: self.main_js.deep_view(),
        }
    }
}

/// What the process environment says, as the caller read it. A variable that could
/// not be read is `None`.
#[derive(Debug, Clone, PartialEq, Eq)]
pub struct Environment {
    /// The name of the operating system: `windows`, `macos`, `linux`, or another.
    pub os: String,
    /// `APPDATA`.
    pub app_data: Option<String>,
    /// `LOCALAPPDATA`.
    pub local_app_data: Option<String>,
    /// `HOME`.
    pub home: Option<String>,
    /// `PATH`.
    pub search_path: Option<String>,
}

/// `Environment`, with its texts as sequences of characters.
pub struct EnvironmentView {
    pub os: Seq<char>,
    pub app_data: Option<Seq<char>>,
    pub local_app_data: Option<Seq<char>>,
    pub home: Option<Seq<char>>,
    pub search_path: Option<Seq<char>>,
}

impl View for Environment {
    type V = EnvironmentView;

    open spec fn view(&self) -> EnvironmentView {
        EnvironmentView {
            os: self.os@,
            app_data: self.app_data.deep_view(),
            local_app_data: self.local_app_data.deep_view(),
            home: self.home.deep_view(),
            search_path: self.search_path.deep_view(),
        }
    }
}

/// The usual places of an installation, family by family.
#[derive(Debug, Clone, PartialEq, Eq)]
pub struct PathDefaults {
    /// The executable on Windows; `%LOCALAPPDATA%` in it stands for that variable.
    pub windows_cursor_exe: String,
    /// The application on macOS.
    pub macos_cursor_app: String,
    /// The entry script on macOS.
    pub macos_cursor_resources: String,
    /// The executable on Linux.
    pub linux_cursor_exe: String,
    /// The entry script on Linux.
    pub linux_cursor_resources: String,
}

/// `PathDefaults`, with its paths as sequences of characters.
pub struct PathDefaultsView {
    pub windows_cursor_exe: Seq<char>,
    pub macos_cursor_app: Seq<char>,
    pub macos_cursor_resources: Seq<char>,
    pub linux_cursor_exe: Seq<char>,
    pub linux_cursor_resources: Seq<char>,
}

impl View for PathDefaults {
    type V = PathDefaultsView;

    open spec fn view(&self) -> PathDefaultsView {
        PathDefaultsView {
            windows_cursor_exe: self.windows_cursor_exe@,
            macos_cursor_app: self.macos_cursor_app@,
            macos_cursor_resources: self.macos_cursor_resources@,
            linux_cursor_exe: self.linux_cursor_exe@,
            linux_cursor_resources: self.linux_cursor_resources@,
        }
    }
}

/// What resolution gives: the paths and, where the entry script was not found,
/// the reason.
#[derive(Debug, Clone, PartialEq, Eq)]
pub struct Resolution {
    pub paths: AppPaths,
    /// Why there is no entry script; `None` exactly where `paths.main_js` is set.
    pub main_js_failure: Option<NotFound>,
}

/// `Resolution`, with its paths as sequences of characters.
pub struct ResolutionView {
    pub paths: AppPathsView,
    pub main_js_failure: Option<NotFound>,
}

impl View for Resolution {
    type V = ResolutionView;

    open spec fn view(&self) -> ResolutionView {
        ResolutionView { paths: self.paths@, main_js_failure: self.main_js_failure }
    }
}

/// The store that resolution was given, as a map; `None` where it was given none.
pub open spec fn store_view(store: Option<&OverrideStore>) -> Option<Map<Seq<char>, Seq<char>>> {
    match store {
        Some(s) => Some(s@),
        None => None,
    }
}

/// The result of resolution, with its texts as sequences of characters.
pub open spec fn resolved_view(r: Result<Resolution, ResolveError>) -> Result<
    ResolutionView,
    ResolveErrorView,
> {
    match r {
        Ok(resolution) => Ok(resolution@),
        Err(e) => Err(e@),
    }
}

/// The result of concluding a resolution, with its texts as sequences of characters.
pub open spec fn concluded_view(r: Result<AppPaths, ResolveError>) -> Result<
    AppPathsView,
    ResolveErrorView,
> {
    match r {
        Ok(paths) => Ok(paths@),
        Err(e) => Err(e@),
    }
}

/// The directory of the application's own data: `Cursor` below `APPDATA` on
/// Windows, below `Library/Application Support` in `HOME` on macOS, below `.config`
/// in `HOME` on Linux.
pub open spec fn base_directory(os: OsFamily, env: EnvironmentView) -> Result<
    Seq<char>,
    ResolveErrorView,
> {
    match os {
        OsFamily::Windows => match env.app_data {
            Some(dir) => Ok(joined(os, dir, "Cursor"@)),
            None => Err(ResolveErrorView::MissingVariable(RequiredVariable::AppData)),
        },
        OsFamily::MacOs => match env.home {
            Some(home) => Ok(
                joined(
                    os,
                    joined(os, joined(os, home, "Library"@), "Application Support"@),
                    "Cursor"@,
                ),
            ),
            None => Err(ResolveErrorView::MissingVariable(RequiredVariable::Home)),
        },
        OsFamily::Linux => match env.home {
            Some(home) => Ok(joined(os, joined(os, home, ".config"@), "Cursor"@)),
            None => Err(ResolveErrorView::MissingVariable(RequiredVariable::Home)),
        },
    }
}

/// The directory of the storage, sign-in and database files: `User/globalStorage`
/// below the base directory.
pub open spec fn storage_directory(os: OsFamily, base: Seq<char>) -> Seq<char> {
    joined(os, joined(os, base, "User"@), "globalStorage"@)
}

/// The usual place of the executable: the default of the family, on Windows with
/// `%LOCALAPPDATA%` replaced by that variable.
pub open spec fn usual_executable(
    os: OsFamily,
    env: EnvironmentView,
    defaults: PathDefaultsView,
) -> Result<Seq<char>, ResolveErrorView> {
    match os {
        OsFamily::Windows => match env.local_app_data {
            Some(dir) => Ok(expand(defaults.windows_cursor_exe, "%LOCALAPPDATA%"@, dir)),
            None => Err(ResolveErrorView::MissingVariable(RequiredVariable::LocalAppData)),
        },
        OsFamily::MacOs => Ok(defaults.macos_cursor_app),
        OsFamily::Linux => Ok(defaults.linux_cursor_exe),
    }
}

/// The usual place of the entry script, for the families that have one.
pub open spec fn usual_entry_script(os: OsFamily, defaults: PathDefaultsView) -> Option<
    Seq<char>,
> {
    match os {
        OsFamily::Windows => None,
        OsFamily::MacOs => Some(defaults.macos_cursor_resources),
        OsFamily::Linux => Some(defaults.linux_cursor_resources),
    }
}

/// What the search for the entry script gives: its usual place, if the family has
/// one and the snapshot has it; else what the scan of the search path gives.
pub open spec fn entry_script_search(
    os: OsFamily,
    env: EnvironmentView,
    defaults: PathDefaultsView,
    fs: FsSnapshot,
) -> Result<Seq<char>, NotFound> {
    match usual_entry_script(os, defaults) {
        Some(usual) if fs.present(usual) => Ok(usual),
        _ => entry_scan(os, env.search_path, fs),
    }
}

/// The entry script that the store remembers: the value under the entry-script key,
/// if there is one and the snapshot has something at it.
pub open spec fn cached_entry_script(store: Map<Seq<char>, Seq<char>>, fs: FsSnapshot) -> Option<
    Seq<char>,
> {
    if store.dom().contains(ENTRY_SCRIPT_KEY@) && fs.present(store[ENTRY_SCRIPT_KEY@]) {
        Some(store[ENTRY_SCRIPT_KEY@])
    } else {
        None
    }
}

/// Where the entry script is: what the store remembers, if that still holds; else
/// what the search gives.
pub open spec fn located_entry_script(
    os: OsFamily,
    env: EnvironmentView,
    defaults: PathDefaultsView,
    store: Option<Map<Seq<char>, Seq<char>>>,
    fs: FsSnapshot,
) -> Result<Seq<char>, NotFound> {
    match store {
        Some(s) if cached_entry_script(s, fs) is Some => Ok(cached_entry_script(s, fs)->0),
        _ => entry_script_search(os, env, defaults, fs),
    }
}

/// The executable before derivation: its usual place; on Windows, where the snapshot
/// has nothing there, what the scan of the search path finds, if it finds anything.
pub open spec fn found_executable(
    os: OsFamily,
    env: EnvironmentView,
    usual: Seq<char>,
    fs: FsSnapshot,
) -> Seq<char> {
    if os == OsFamily::Windows && !fs.present(usual) {
        match executable_scan(os, env.search_path, fs) {
            Ok(found) => found,
            Err(_) => usual,
        }
    } else {
        usual
    }
}

/// The executable after derivation: `found`, unless the snapshot has nothing there
/// and the entry script leads to an executable that it has.
pub open spec fn located_executable(
    os: OsFamily,
    found: Seq<char>,
    entry: Option<Seq<char>>,
    fs: FsSnapshot,
) -> Seq<char> {
    if fs.present(found) {
        found
    } else {
        match entry {
            Some(script) => match derived_executable(os, script, fs) {
                Some(derived) => derived,
                None => found,
            },
            None => found,
        }
    }
}

/// The paths of an installation on family `os`, given the base directory, the
/// usual place of the executable and the located entry script.
pub open spec fn resolved_paths(
    os: OsFamily,
    env: EnvironmentView,
    base: Seq<char>,
    usual: Seq<char>,
    entry: Result<Seq<char>, NotFound>,
    fs: FsSnapshot,
) -> ResolutionView {
    let dir = storage_directory(os, base);
    let script = match entry {
        Ok(found) => Some(found),
        Err(_) => None,
    };
    ResolutionView {
        paths: AppPathsView {
            storage: joined(os, dir, "storage.json"@),
            auth: joined(os, dir, "cursor.auth.json"@),
            db: joined(os, dir, "state.vscdb"@),
            cursor_exe: located_executable(os, found_executable(os, env, usual, fs), script, fs),
            main_js: script,
        },
        main_js_failure: match entry {
            Ok(_) => None,
            Err(why) => Some(why),
        },
    }
}

/// What resolution gives. It fails only where the operating system is not a
/// supported one or a variable that its family needs could not be read: on Windows
/// `APPDATA`, then `LOCALAPPDATA`; elsewhere `HOME`.
pub open spec fn resolution(
    env: EnvironmentView,
    defaults: PathDefaultsView,
    store: Option<Map<Seq<char>, Seq<char>>>,
    fs: FsSnapshot,
) -> Result<ResolutionView, ResolveErrorView> {
    match OsFamily::named(env.os) {
        None => Err(ResolveErrorView::UnsupportedOs(env.os)),
        Some(os) => match base_directory(os, env) {
            Err(e) => Err(e),
            Ok(base) => match usual_executable(os, env, defaults) {
                Err(e) => Err(e),
                Ok(usual) => Ok(
                    resolved_paths(
                        os,
                        env,
                        base,
                        usual,
                        located_entry_script(os, env, defaults, store, fs),
                        fs,
                    ),
                ),
            },
        },
    }
}

/// The executable to launch: the one of `paths` if the snapshot has it, else the one
/// that the entry script of `paths` leads to, if the snapshot has that.
pub open spec fn launch_target(os: OsFamily, paths: AppPathsView, fs: FsSnapshot) -> Option<
    Seq<char>,
> {
    if fs.present(paths.cursor_exe) {
        Some(paths.cursor_exe)
    } else {
        match paths.main_js {
            Some(script) => derived_executable(os, script, fs),
            None => None,
        }
    }
}

fn base_directory_of(os: OsFamily, env: &Environment) -> (r: Result<String, ResolveError>)
    ensures
        match r {
            Ok(dir) => base_directory(os, env@) == Ok::<Seq<char>, ResolveErrorView>(dir@),
            Err(e) => base_directory(os, env@) == Err::<Seq<char>, ResolveErrorView>(e@),
        },
{
    match os {
        OsFamily::Windows => match &env.app_data {
            Some(dir) => Ok(join(os, dir.as_str(), "Cursor")),
            None => Err(ResolveError::MissingVariable(RequiredVariable::AppData)),
        },
        OsFamily::MacOs => match &env.home {
            Some(home) => {
                let library = join(os, home.as_str(), "Library");
                let support = join(os, library.as_str(), "Application Support");
                Ok(join(os, support.as_str(), "Cursor"))
            },
            None => Err(ResolveError::MissingVariable(RequiredVariable::Home)),
        },
        OsFamily::Linux => match &env.home {
            Some(home) => {
                let config = join(os, home.as_str(), ".config");
                Ok(join(os, config.as_str(), "Cursor"))
            },
            None => Err(ResolveError::MissingVariable(RequiredVariable::Home)),
        },
    }
}

pub(crate) fn usual_executable_of(os: OsFamily, env: &Environment, defaults: &PathDefaults) -> (r: Result<
    String,
    ResolveError,
>)
    ensures
        match r {
            Ok(path) => usual_executable(os, env@, defaults@) == Ok::<
                Seq<char>,
                ResolveErrorView,
            >(path@),
            Err(e) => usual_executable(os, env@, defaults@) == Err::<Seq<char>, ResolveErrorView>(
                e@,
            ),
        },
{
    match os {
        OsFamily::Windows => match &env.local_app_data {
            Some(dir) => Ok(
                expand_placeholder(
                    defaults.windows_cursor_exe.as_str(),
                    "%LOCALAPPDATA%",
                    dir.as_str(),
                ),
            ),
            None => Err(ResolveError::MissingVariable(RequiredVariable::LocalAppData)),
        },
        OsFamily::MacOs => Ok(defaults.macos_cursor_app.clone()),
        OsFamily::Linux => Ok(defaults.linux_cursor_exe.clone()),
    }
}

fn locate_entry_script(
    os: OsFamily,
    env: &Environment,
    defaults: &PathDefaults,
    store: Option<&OverrideStore>,
    fs: &FsSnapshot,
) -> (r: Result<String, NotFound>)
    ensures
        found_view(r) == located_entry_script(os, env@, defaults@, store_view(store), *fs),
{
    if let Some(s) = store {
        if let Some(saved) = AppPaths::get_saved_path_from_db(s, fs) {
            return Ok(saved);
        }
    }
    AppPaths::find_main_js_path(os, env, defaults, fs)
}

fn locate_executable(os: OsFamily, found: String, entry: &Option<String>, fs: &FsSnapshot) -> (r:
    String)
    ensures
        r@ == located_executable(os, found@, entry.deep_view(), *fs),
{
    if fs.is_present(found.as_str()) {
        return found;
    }
    if let Some(script) = entry {
        if let Some(derived) = derive_executable_from_entry_script(os, script.as_str(), fs) {
            return derived;
        }
    }
    found
}

impl AppPaths {
    /// Resolves the paths without an override store.
    pub fn new(env: &Environment, defaults: &PathDefaults, fs: &FsSnapshot) -> (r: Result<
        Resolution,
        ResolveError,
    >)
        ensures
            resolved_view(r) == resolution(env@, defaults@, None, *fs),
    {
        AppPaths::new_with_db(env, defaults, None, fs)
    }

    /// Resolves the paths. The entry script is the one that `store` remembers, if
    /// the snapshot still has it, else the one that the search finds; that none is
    /// found is no error. The executable is the one at its usual place, unless the
    /// snapshot has nothing there and has one elsewhere.
    pub fn new_with_db(
        env: &Environment,
        defaults: &PathDefaults,
        store: Option<&OverrideStore>,
        fs: &FsSnapshot,
    ) -> (r: Result<Resolution, ResolveError>)
        ensures
            resolved_view(r) == resolution(env@, defaults@, store_view(store), *fs),
            r is Ok <==> match OsFamily::named(env.os@) {
                Some(OsFamily::Windows) => env.app_data is Some && env.local_app_data is Some,
                Some(_) => env.home is Some,
                None => false,
            },
            r matches Ok(res) ==> {
                &&& res.paths.storage@.len() > 0
                &&& res.paths.auth@.len() > 0
                &&& res.paths.db@.len() > 0
                &&& res.main_js_failure is None <==> res.paths.main_js is Some
                &&& res.paths.main_js matches Some(script) ==> fs.present(script@)
            },
            r matches Ok(res) ==> (store matches Some(s) ==> (cached_entry_script(s@, *fs) matches Some(
                saved,
            ) ==> res.paths.main_js.deep_view() == Some(saved))),
    {
        proof {
            lemma_resolution_succeeds(env@, defaults@, store_view(store), *fs);
            lemma_resolved_paths_are_set(env@, defaults@, store_view(store), *fs);
            lemma_resolution_invariants(env@, defaults@, store_view(store), *fs);
        }
        let os = match OsFamily::from_name(env.os.as_str()) {
            Some(os) => os,
            None => {
                return Err(ResolveError::UnsupportedOs(env.os.clone()));
            },
        };
        let base = match base_directory_of(os, env) {
            Ok(base) => base,
            Err(e) => {
                return Err(e);
            },
        };
        let usual = match usual_executable_of(os, env, defaults) {
            Ok(usual) => usual,
            Err(e) => {
                return Err(e);
            },
        };
        let found = if matches!(os, OsFamily::Windows) && !fs.is_present(usual.as_str()) {
            match AppPaths::find_cursor_exe_from_env_path(os, &env.search_path, fs) {
                Ok(found) => found,
                Err(_) => usual,
            }
        } else {
            usual
        };
        let (main_js, main_js_failure) = match locate_entry_script(os, env, defaults, store, fs) {
            Ok(script) => (Some(script), None),
            Err(why) => (None, Some(why)),
        };
        let cursor_exe = locate_executable(os, found, &main_js, fs);
        let user = join(os, base.as_str(), "User");
        let dir = join(os, user.as_str(), "globalStorage");
        Ok(
            Resolution {
                paths: AppPaths {
                    storage: join(os, dir.as_str(), "storage.json"),
                    auth: join(os, dir.as_str(), "cursor.auth.json"),
                    db: join(os, dir.as_str(), "state.vscdb"),
                    cursor_exe,
                    main_js,
                },
                main_js_failure,
            },
        )
    }

    /// Searches for the entry script: at its usual place, where the family has one,
    /// then along the search path.
    pub fn find_main_js_path(
        os: OsFamily,
        env: &Environment,
        defaults: &PathDefaults,
        fs: &FsSnapshot,
    ) -> (r: Result<String, NotFound>)
        ensures
            found_view(r) == entry_script_search(os, env@, defaults@, *fs),
    {
        match os {
            OsFamily::Windows => {},
            OsFamily::MacOs => {
                if fs.is_present(defaults.macos_cursor_resources.as_str()) {
                    return Ok(defaults.macos_cursor_resources.clone());
                }
            },
            OsFamily::Linux => {
                if fs.is_present(defaults.linux_cursor_resources.as_str()) {
                    return Ok(defaults.linux_cursor_resources.clone());
                }
            },
        }
        AppPaths::find_cursor_from_env_path(os, &env.search_path, fs)
    }

    /// The entry script that the store remembers, if the snapshot still has it.
    pub fn get_saved_path_from_db(store: &OverrideStore, fs: &FsSnapshot) -> (r: Option<String>)
        ensures
            r.deep_view() == cached_entry_script(store@, *fs),
    {
        match store.get_item(ENTRY_SCRIPT_KEY) {
            Some(saved) => {
                if fs.is_present(saved.as_str()) {
                    Some(saved)
                } else {
                    None
                }
            },
            None => None,
        }
    }

    /// Makes the store remember `path` as the entry script, in place of what it
    /// remembered.
    pub fn save_path_to_db(store: &mut OverrideStore, path: &str)
        ensures
            final(store)@ == old(store)@.insert(ENTRY_SCRIPT_KEY@, path@),
    {
        store.set_item(ENTRY_SCRIPT_KEY, path);
    }

    /// The directory that has to exist before `path` can be written: its parent.
    /// `None` where `path` has none.
    pub fn ensure_parent_exists(&self, os: OsFamily, path: &str) -> (r: Option<String>)
        ensures
            r.deep_view() == parent_of(os, path@),
    {
        parent(os, path)
    }

    /// The executable to launch, or `ExecutableMissing` where there is none: neither
    /// the executable of these paths nor one that their entry script leads to.
    pub fn launch_cursor(&self, os: OsFamily, fs: &FsSnapshot) -> (r: Result<String, LaunchError>)
        ensures
            match launch_target(os, self@, *fs) {
                Some(target) => r matches Ok(path) && path@ == target,
                None => r matches Err(LaunchError::ExecutableMissing),
            },
    {
        if fs.is_present(self.cursor_exe.as_str()) {
            return Ok(self.cursor_exe.clone());
        }
        if let Some(script) = &self.main_js {
            if let Some(derived) = derive_executable_from_entry_script(os, script.as_str(), fs) {
                return Ok(derived);
            }
        }
        Err(LaunchError::ExecutableMissing)
    }
}

impl Resolution {
    /// Ends resolution once the directory of the storage file has been seen to.
    /// `created` is what came of creating it: the paths stand if it went well, and
    /// resolution fails with the reason if it did not.
    pub fn conclude(self, created: Result<(), String>) -> (r: Result<AppPaths, ResolveError>)
        ensures
            concluded_view(r) == match created {
                Ok(_) => Ok::<AppPathsView, ResolveErrorView>(self.paths@),
                Err(why) => Err::<AppPathsView, ResolveErrorView>(
                    ResolveErrorView::DirectoryCreation(why@),
                ),
            },
    {
        match created {
            Ok(_) => Ok(self.paths),
            Err(why) => Err(ResolveError::DirectoryCreation(why)),
        }
    }
}

impl LaunchError {
    /// What a launch comes to once the executable was handed to the operating
    /// system: done if it started, `SpawnFailed` with the reason if it was refused.
    pub fn of_spawn(spawned: Result<(), String>) -> (r: Result<(), LaunchError>)
        ensures
            match spawned {
                Ok(_) => r is Ok,
                Err(why) => r matches Err(e) && e@ == LaunchErrorView::SpawnFailed(why@),
            },
    {
        match spawned {
            Ok(_) => Ok(()),
            Err(why) => Err(LaunchError::SpawnFailed(why)),
        }
    }
}

/// Resolution succeeds exactly where the operating system is a supported one and
/// the variables that its family needs could be read. What is on disk, and what the
/// store holds, plays no part in that.
pub proof fn lemma_resolution_succeeds(
    env: EnvironmentView,
    defaults: PathDefaultsView,
    store: Option<Map<Seq<char>, Seq<char>>>,
    fs: FsSnapshot,
)
    ensures
        resolution(env, defaults, store, fs) is Ok <==> match OsFamily::named(env.os) {
            Some(OsFamily::Windows) => env.app_data is Some && env.local_app_data is Some,
            Some(_) => env.home is Some,
            None => false,
        },
{
}

/// The paths that resolution gives are set: those of the storage, sign-in and
/// database files are never empty, and that of the executable is not empty unless
/// its usual place is.
pub proof fn lemma_resolved_paths_are_set(
    env: EnvironmentView,
    defaults: PathDefaultsView,
    store: Option<Map<Seq<char>, Seq<char>>>,
    fs: FsSnapshot,
)
    ensures
        resolution(env, defaults, store, fs) matches Ok(r) ==> {
            &&& r.paths.storage.len() > 0
            &&& r.paths.auth.len() > 0
            &&& r.paths.db.len() > 0
            &&& (usual_executable(OsFamily::named(env.os)->0, env, defaults)->Ok_0.len() > 0
                ==> r.paths.cursor_exe.len() > 0)
        },
{
    reveal_strlit("storage.json");
    reveal_strlit("cursor.auth.json");
    reveal_strlit("state.vscdb");
    reveal_strlit("Cursor.exe");
    reveal_strlit("Cursor");
    reveal_strlit("cursor");
    if resolution(env, defaults, store, fs) is Ok {
        let os = OsFamily::named(env.os)->0;
        let usual = usual_executable(os, env, defaults)->Ok_0;
        if env.search_path is Some {
            let candidates = executable_candidates(os, env.search_path->0);
            lemma_executable_candidates_in(os, split(env.search_path->0, list_separator(os)));
            lemma_first_present(fs, candidates);
        }
    }
}

/// Where nothing of the application is on disk, resolution still gives every path:
/// the executable at its usual place, no entry script, and the reason for that.
pub proof fn lemma_resolution_without_installation(
    env: EnvironmentView,
    defaults: PathDefaultsView,
    store: Option<Map<Seq<char>, Seq<char>>>,
    fs: FsSnapshot,
)
    requires
        forall|p: Seq<char>| !fs.present(p),
        resolution(env, defaults, store, fs) is Ok,
    ensures
        resolution(env, defaults, store, fs) matches Ok(r) && {
            &&& r.paths.cursor_exe == usual_executable(
                OsFamily::named(env.os)->0,
                env,
                defaults,
            )->Ok_0
            &&& r.paths.main_js is None
            &&& r.main_js_failure is Some
        },
{
    let os = OsFamily::named(env.os)->0;
    if env.search_path is Some {
        lemma_first_present(fs, entry_candidates(os, env.search_path->0));
        lemma_first_present(fs, executable_candidates(os, env.search_path->0));
    }
}

/// What holds of every resolution: the entry script, where there is one, is on
/// disk, and the reason for its absence is given exactly where there is none; the
/// executable is the usual one unless that is not on disk and the one given is.
pub proof fn lemma_resolution_invariants(
    env: EnvironmentView,
    defaults: PathDefaultsView,
    store: Option<Map<Seq<char>, Seq<char>>>,
    fs: FsSnapshot,
)
    ensures
        resolution(env, defaults, store, fs) matches Ok(r) ==> {
            &&& r.main_js_failure is None <==> r.paths.main_js is Some
            &&& r.paths.main_js matches Some(script) ==> fs.present(script)
            &&& r.paths.cursor_exe != usual_executable(OsFamily::named(env.os)->0, env, defaults)->Ok_0
                ==> !fs.present(usual_executable(OsFamily::named(env.os)->0, env, defaults)->Ok_0)
                && fs.present(r.paths.cursor_exe)
        },
{
    if resolution(env, defaults, store, fs) is Ok {
        let os = OsFamily::named(env.os)->0;
        if env.search_path is Some {
            lemma_first_present(fs, entry_candidates(os, env.search_path->0));
            lemma_first_present(fs, executable_candidates(os, env.search_path->0));
        }
    }
}

/// A store whose entry-script record names a path that is on disk decides the
/// entry script: resolution gives that path as it stands, whatever the search path
/// and the defaults say.
pub proof fn lemma_valid_override_is_used(
    env: EnvironmentView,
    defaults: PathDefaultsView,
    store: Map<Seq<char>, Seq<char>>,
    fs: FsSnapshot,
)
    requires
        store.dom().contains(ENTRY_SCRIPT_KEY@),
        fs.present(store[ENTRY_SCRIPT_KEY@]),
    ensures
        resolution(env, defaults, Some(store), fs) matches Ok(r) ==> r.paths.main_js == Some(
            store[ENTRY_SCRIPT_KEY@],
        ) && r.main_js_failure is None,
{
}

/// A store whose entry-script record names a path that is not on disk, or that has
/// no such record, counts for nothing: resolution gives what it gives without a store.
pub proof fn lemma_stale_override_is_ignored(
    env: EnvironmentView,
    defaults: PathDefaultsView,
    store: Map<Seq<char>, Seq<char>>,
    fs: FsSnapshot,
)
    requires
        store.dom().contains(ENTRY_SCRIPT_KEY@) ==> !fs.present(store[ENTRY_SCRIPT_KEY@]),
    ensures
        resolution(env, defaults, Some(store), fs) == resolution(env, defaults, None, fs),
{
}

/// Resolving twice from the same environment, defaults, store and snapshot gives
/// the same result, field by field.
pub proof fn lemma_resolution_is_repeatable(
    env: &Environment,
    defaults: &PathDefaults,
    store: Option<&OverrideStore>,
    fs: &FsSnapshot,
    first: Result<Resolution, ResolveError>,
    second: Result<Resolution, ResolveError>,
)
    requires
        resolved_view(first) == resolution(env@, defaults@, store_view(store), *fs),
        resolved_view(second) == resolution(env@, defaults@, store_view(store), *fs),
    ensures
        resolved_view(first) == resolved_view(second),
        first matches Ok(a) ==> second matches Ok(b) && a.paths@ == b.paths@,
{
}

/// What the store is made to remember it gives back, as long as the path is on disk.
pub proof fn lemma_saved_path_is_cached(
    store: Map<Seq<char>, Seq<char>>,
    path: Seq<char>,
    fs: FsSnapshot,
)
    ensures
        cached_entry_script(store.insert(ENTRY_SCRIPT_KEY@, path), fs) == if fs.present(path) {
            Some(path)
        } else {
            None
        },
{
}

} // verus!
