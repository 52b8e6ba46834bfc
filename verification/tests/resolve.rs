use cursor_pool::error::{NotFound, RequiredVariable, ResolveError};
use cursor_pool::fs::{EntryKind, FsSnapshot};
use cursor_pool::path::OsFamily;
use cursor_pool::paths::{AppPaths, Environment, PathDefaults, Resolution};
use cursor_pool::store::OverrideStore;

fn defaults() -> PathDefaults {
    PathDefaults {
        windows_cursor_exe: String::from("%LOCALAPPDATA%\\Programs\\cursor\\Cursor.exe"),
        macos_cursor_app: String::from("/Applications/Cursor.app"),
        macos_cursor_resources: String::from("/Applications/Cursor.app/Contents/Resources/app/out/main.js"),
        linux_cursor_exe: String::from("/usr/bin/cursor"),
        linux_cursor_resources: String::from("/usr/share/cursor/resources/app/out/main.js"),
    }
}

fn windows() -> Environment {
    Environment {
        os: String::from("windows"),
        app_data: Some(String::from("C:\\Users\\u\\AppData\\Roaming")),
        local_app_data: Some(String::from("C:\\Users\\u\\AppData\\Local")),
        home: None,
        search_path: Some(String::from("C:\\Windows;C:\\Windows\\System32")),
    }
}

fn unix(os: &str, home: &str) -> Environment {
    Environment {
        os: String::from(os),
        app_data: None,
        local_app_data: None,
        home: Some(String::from(home)),
        search_path: Some(String::from("/usr/bin:/bin")),
    }
}

fn resolved(r: Result<Resolution, ResolveError>) -> Resolution {
    match r {
        Ok(resolution) => resolution,
        Err(e) => panic!("resolution failed: {:?}", e),
    }
}

const WINDOWS_EXE: &str = "C:\\Users\\u\\AppData\\Local\\Programs\\cursor\\Cursor.exe";

#[test]
fn windows_paths_without_an_installation() {
    let r = resolved(AppPaths::new(&windows(), &defaults(), &FsSnapshot::new()));
    assert_eq!(r.paths.storage, "C:\\Users\\u\\AppData\\Roaming\\Cursor\\User\\globalStorage\\storage.json");
    assert_eq!(r.paths.auth, "C:\\Users\\u\\AppData\\Roaming\\Cursor\\User\\globalStorage\\cursor.auth.json");
    assert_eq!(r.paths.db, "C:\\Users\\u\\AppData\\Roaming\\Cursor\\User\\globalStorage\\state.vscdb");
    assert_eq!(r.paths.cursor_exe, WINDOWS_EXE);
    assert_eq!(r.paths.main_js, None);
    assert_eq!(r.main_js_failure, Some(NotFound::NoMatch));
}

#[test]
fn macos_paths_without_an_installation() {
    let r = resolved(AppPaths::new(&unix("macos", "/Users/u"), &defaults(), &FsSnapshot::new()));
    assert_eq!(r.paths.storage, "/Users/u/Library/Application Support/Cursor/User/globalStorage/storage.json");
    assert_eq!(r.paths.auth, "/Users/u/Library/Application Support/Cursor/User/globalStorage/cursor.auth.json");
    assert_eq!(r.paths.db, "/Users/u/Library/Application Support/Cursor/User/globalStorage/state.vscdb");
    assert_eq!(r.paths.cursor_exe, "/Applications/Cursor.app");
    assert_eq!(r.paths.main_js, None);
    assert_eq!(r.main_js_failure, Some(NotFound::NoMatch));
}

#[test]
fn linux_paths_without_an_installation() {
    let r = resolved(AppPaths::new(&unix("linux", "/home/u"), &defaults(), &FsSnapshot::new()));
    assert_eq!(r.paths.storage, "/home/u/.config/Cursor/User/globalStorage/storage.json");
    assert_eq!(r.paths.auth, "/home/u/.config/Cursor/User/globalStorage/cursor.auth.json");
    assert_eq!(r.paths.db, "/home/u/.config/Cursor/User/globalStorage/state.vscdb");
    assert_eq!(r.paths.cursor_exe, "/usr/bin/cursor");
    assert_eq!(r.paths.main_js, None);
    assert_eq!(r.main_js_failure, Some(NotFound::NoMatch));
}

#[test]
fn every_path_is_set_on_every_family() {
    for env in [windows(), unix("macos", "/Users/u"), unix("linux", "/home/u")] {
        let r = resolved(AppPaths::new_with_db(&env, &defaults(), Some(&OverrideStore::new()), &FsSnapshot::new()));
        assert!(!r.paths.cursor_exe.is_empty());
        assert!(!r.paths.storage.is_empty());
        assert!(!r.paths.auth.is_empty());
        assert!(!r.paths.db.is_empty());
    }
}

#[test]
fn an_unsupported_system_is_an_error() {
    let r = AppPaths::new(&unix("freebsd", "/home/u"), &defaults(), &FsSnapshot::new());
    assert_eq!(r, Err(ResolveError::UnsupportedOs(String::from("freebsd"))));
}

#[test]
fn a_missing_variable_is_an_error() {
    let mut env = windows();
    env.local_app_data = None;
    assert_eq!(
        AppPaths::new(&env, &defaults(), &FsSnapshot::new()),
        Err(ResolveError::MissingVariable(RequiredVariable::LocalAppData))
    );
    env.app_data = None;
    assert_eq!(
        AppPaths::new(&env, &defaults(), &FsSnapshot::new()),
        Err(ResolveError::MissingVariable(RequiredVariable::AppData))
    );
    for os in ["macos", "linux"] {
        let mut env = unix(os, "/home/u");
        env.home = None;
        assert_eq!(
            AppPaths::new(&env, &defaults(), &FsSnapshot::new()),
            Err(ResolveError::MissingVariable(RequiredVariable::Home))
        );
    }
    // A variable of another family is not missed.
    let mut env = windows();
    env.home = None;
    assert!(AppPaths::new(&env, &defaults(), &FsSnapshot::new()).is_ok());
}

#[test]
fn an_unreadable_search_path_is_no_error() {
    let mut env = windows();
    env.search_path = None;
    let r = resolved(AppPaths::new(&env, &defaults(), &FsSnapshot::new()));
    assert_eq!(r.paths.main_js, None);
    assert_eq!(r.main_js_failure, Some(NotFound::SearchPathUnreadable));
    assert_eq!(r.paths.cursor_exe, WINDOWS_EXE);
}

#[test]
fn a_valid_override_is_used_as_it_stands() {
    let mut fs = FsSnapshot::new();
    fs.record("D:\\portable\\odd\\main.js", EntryKind::File);
    fs.record("E:\\cursor\\resources\\app\\out\\main.js", EntryKind::File);
    let mut store = OverrideStore::new();
    AppPaths::save_path_to_db(&mut store, "D:\\portable\\odd\\main.js");
    let mut env = windows();
    env.search_path = Some(String::from("E:\\cursor"));
    let r = resolved(AppPaths::new_with_db(&env, &defaults(), Some(&store), &fs));
    assert_eq!(r.paths.main_js, Some(String::from("D:\\portable\\odd\\main.js")));
    assert_eq!(r.main_js_failure, None);
    assert_eq!(AppPaths::get_saved_path_from_db(&store, &fs), Some(String::from("D:\\portable\\odd\\main.js")));
}

#[test]
fn a_stale_override_is_ignored() {
    let mut fs = FsSnapshot::new();
    fs.record("E:\\cursor\\resources\\app\\out\\main.js", EntryKind::File);
    let mut store = OverrideStore::new();
    AppPaths::save_path_to_db(&mut store, "D:\\gone\\main.js");
    let mut env = windows();
    env.search_path = Some(String::from("E:\\cursor"));
    let with_store = resolved(AppPaths::new_with_db(&env, &defaults(), Some(&store), &fs));
    let without = resolved(AppPaths::new(&env, &defaults(), &fs));
    assert_eq!(with_store.paths.main_js, Some(String::from("E:\\cursor\\resources\\app\\out\\main.js")));
    assert_eq!(with_store, without);
    assert_eq!(AppPaths::get_saved_path_from_db(&store, &fs), None);
    // The record is not removed.
    assert_eq!(store.get_item("system.cursor.path.mainJs"), Some(String::from("D:\\gone\\main.js")));
}

#[test]
fn saving_overwrites_what_was_saved() {
    let mut fs = FsSnapshot::new();
    fs.record("/a/main.js", EntryKind::File);
    fs.record("/b/main.js", EntryKind::File);
    let mut store = OverrideStore::new();
    assert_eq!(AppPaths::get_saved_path_from_db(&store, &fs), None);
    AppPaths::save_path_to_db(&mut store, "/a/main.js");
    AppPaths::save_path_to_db(&mut store, "/b/main.js");
    assert_eq!(AppPaths::get_saved_path_from_db(&store, &fs), Some(String::from("/b/main.js")));
    assert_eq!(store.records.len(), 1);
}

#[test]
fn the_usual_entry_script_comes_before_the_search_path() {
    let mut fs = FsSnapshot::new();
    fs.record("/usr/share/cursor/resources/app/out/main.js", EntryKind::File);
    fs.record("/opt/cursor/resources/app/out/main.js", EntryKind::File);
    let mut env = unix("linux", "/home/u");
    env.search_path = Some(String::from("/opt/cursor/bin"));
    assert_eq!(
        AppPaths::find_main_js_path(OsFamily::Linux, &env, &defaults(), &fs),
        Ok(String::from("/usr/share/cursor/resources/app/out/main.js"))
    );
    let mut only_hinted = FsSnapshot::new();
    only_hinted.record("/opt/cursor/resources/app/out/main.js", EntryKind::File);
    assert_eq!(
        AppPaths::find_main_js_path(OsFamily::Linux, &env, &defaults(), &only_hinted),
        Ok(String::from("/opt/cursor/resources/app/out/main.js"))
    );
    let mut mac = FsSnapshot::new();
    mac.record("/Applications/Cursor.app/Contents/Resources/app/out/main.js", EntryKind::File);
    assert_eq!(
        AppPaths::find_main_js_path(OsFamily::MacOs, &unix("macos", "/Users/u"), &defaults(), &mac),
        Ok(String::from("/Applications/Cursor.app/Contents/Resources/app/out/main.js"))
    );
    // Windows has no usual place for it.
    assert_eq!(
        AppPaths::find_main_js_path(OsFamily::Windows, &windows(), &defaults(), &mac),
        Err(NotFound::NoMatch)
    );
}

#[test]
fn the_executable_is_derived_where_the_usual_one_is_absent() {
    let mut fs = FsSnapshot::new();
    fs.record("D:\\Cursor\\resources\\app\\out\\main.js", EntryKind::File);
    fs.record("D:\\Cursor\\Cursor.exe", EntryKind::File);
    let mut store = OverrideStore::new();
    store.set_item("system.cursor.path.mainJs", "D:\\Cursor\\resources\\app\\out\\main.js");
    let r = resolved(AppPaths::new_with_db(&windows(), &defaults(), Some(&store), &fs));
    assert_eq!(r.paths.cursor_exe, "D:\\Cursor\\Cursor.exe");
    // On Linux too, with the name the executable has there.
    let mut fs = FsSnapshot::new();
    fs.record("/opt/cursor/resources/app/out/main.js", EntryKind::File);
    fs.record("/opt/cursor/cursor", EntryKind::File);
    let mut env = unix("linux", "/home/u");
    env.search_path = Some(String::from("/opt/cursor"));
    let r = resolved(AppPaths::new(&env, &defaults(), &fs));
    assert_eq!(r.paths.main_js, Some(String::from("/opt/cursor/resources/app/out/main.js")));
    assert_eq!(r.paths.cursor_exe, "/opt/cursor/cursor");
}

#[test]
fn the_usual_executable_stays_where_it_is_present() {
    let mut fs = FsSnapshot::new();
    fs.record(WINDOWS_EXE, EntryKind::File);
    fs.record("D:\\Cursor\\resources\\app\\out\\main.js", EntryKind::File);
    fs.record("D:\\Cursor\\Cursor.exe", EntryKind::File);
    let mut env = windows();
    env.search_path = Some(String::from("D:\\Cursor"));
    let r = resolved(AppPaths::new(&env, &defaults(), &fs));
    assert_eq!(r.paths.cursor_exe, WINDOWS_EXE);
    assert_eq!(r.paths.main_js, Some(String::from("D:\\Cursor\\resources\\app\\out\\main.js")));
}

#[test]
fn the_usual_executable_stays_where_nothing_can_be_derived() {
    let mut fs = FsSnapshot::new();
    fs.record("D:\\Cursor\\resources\\app\\out\\main.js", EntryKind::File);
    let mut store = OverrideStore::new();
    store.set_item("system.cursor.path.mainJs", "D:\\Cursor\\resources\\app\\out\\main.js");
    let r = resolved(AppPaths::new_with_db(&windows(), &defaults(), Some(&store), &fs));
    assert_eq!(r.paths.cursor_exe, WINDOWS_EXE);
}

#[test]
fn on_windows_the_search_path_may_give_the_executable() {
    let mut fs = FsSnapshot::new();
    fs.record("D:\\Tools\\cursor\\Cursor.exe", EntryKind::File);
    let mut env = windows();
    env.search_path = Some(String::from("C:\\Windows;D:\\Tools\\cursor"));
    let r = resolved(AppPaths::new(&env, &defaults(), &fs));
    assert_eq!(r.paths.cursor_exe, "D:\\Tools\\cursor\\Cursor.exe");
    assert_eq!(r.paths.main_js, None);
    // Elsewhere the search path is not asked for the executable.
    let mut fs = FsSnapshot::new();
    fs.record("/opt/cursor/cursor", EntryKind::File);
    let mut env = unix("linux", "/home/u");
    env.search_path = Some(String::from("/opt/cursor"));
    let r = resolved(AppPaths::new(&env, &defaults(), &fs));
    assert_eq!(r.paths.cursor_exe, "/usr/bin/cursor");
}

#[test]
fn the_placeholder_of_the_windows_default_is_filled_in() {
    let mut custom = defaults();
    custom.windows_cursor_exe = String::from("D:\\fixed\\Cursor.exe");
    let r = resolved(AppPaths::new(&windows(), &custom, &FsSnapshot::new()));
    assert_eq!(r.paths.cursor_exe, "D:\\fixed\\Cursor.exe");
}

#[test]
fn resolving_twice_gives_the_same() {
    let mut fs = FsSnapshot::new();
    fs.record("E:\\cursor\\resources\\app\\out\\main.js", EntryKind::File);
    fs.record("E:\\cursor\\Cursor.exe", EntryKind::File);
    let mut store = OverrideStore::new();
    store.set_item("system.cursor.path.mainJs", "D:\\gone\\main.js");
    let mut env = windows();
    env.search_path = Some(String::from("E:\\cursor"));
    let first = AppPaths::new_with_db(&env, &defaults(), Some(&store), &fs);
    let second = AppPaths::new_with_db(&env, &defaults(), Some(&store), &fs);
    assert_eq!(first, second);
    assert!(first.is_ok());
    let failing = unix("plan9", "/");
    assert_eq!(
        AppPaths::new(&failing, &defaults(), &fs),
        AppPaths::new(&failing, &defaults(), &fs)
    );
}

#[test]
fn ensure_parent_exists_names_the_directory_to_create() {
    let r = resolved(AppPaths::new(&unix("linux", "/home/u"), &defaults(), &FsSnapshot::new()));
    assert_eq!(
        r.paths.ensure_parent_exists(OsFamily::Linux, &r.paths.storage),
        Some(String::from("/home/u/.config/Cursor/User/globalStorage"))
    );
    assert_eq!(r.paths.ensure_parent_exists(OsFamily::Linux, "/"), None);
    assert_eq!(r.paths.ensure_parent_exists(OsFamily::Windows, "C:\\a\\b.json"), Some(String::from("C:\\a")));
}

#[test]
fn concluding_keeps_the_paths_or_gives_the_reason() {
    let r = resolved(AppPaths::new(&unix("linux", "/home/u"), &defaults(), &FsSnapshot::new()));
    let paths = r.paths.clone();
    assert_eq!(r.clone().conclude(Ok(())), Ok(paths));
    assert_eq!(
        r.conclude(Err(String::from("permission denied"))),
        Err(ResolveError::DirectoryCreation(String::from("permission denied")))
    );
}
