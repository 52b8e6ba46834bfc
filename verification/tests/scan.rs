use cursor_pool::error::NotFound;
use cursor_pool::fs::{EntryKind, FsSnapshot};
use cursor_pool::path::OsFamily;
use cursor_pool::paths::AppPaths;
use cursor_pool::scan::{
    entry_script_candidates, executable_candidates_from, segment_entry_candidates,
    segment_executable_candidates, segment_mentions_application, segment_resembles_bin_directory,
};

#[test]
fn a_segment_mentions_the_application_by_name() {
    assert!(segment_mentions_application("c:\\programs\\cursor\\bin"));
    assert!(segment_mentions_application("cursor"));
    assert!(!segment_mentions_application("c:\\windows"));
    assert!(!segment_mentions_application("Cursor"));
    assert!(!segment_mentions_application(""));
}

#[test]
fn a_bin_directory_is_known_by_its_parts() {
    assert!(segment_resembles_bin_directory("c:\\cursor\\resources\\app\\bin"));
    assert!(segment_resembles_bin_directory("/opt/cursor/resources/app/bin/"));
    assert!(segment_resembles_bin_directory("resources app /binary"));
    assert!(!segment_resembles_bin_directory("c:\\cursor\\resources\\app"));
    assert!(!segment_resembles_bin_directory("c:\\cursor\\app\\bin"));
    assert!(!segment_resembles_bin_directory("c:\\cursor\\resources\\bin"));
    assert!(!segment_resembles_bin_directory("resources app cabin x"));
}

#[test]
fn a_segment_that_does_not_mention_the_application_hints_at_nothing() {
    assert!(segment_entry_candidates(OsFamily::Windows, "C:\\Windows", "c:\\windows").is_empty());
    assert!(segment_executable_candidates(OsFamily::Windows, "C:\\Windows", "c:\\windows").is_empty());
    // What counts is the lower-case text that is handed in.
    assert!(segment_entry_candidates(OsFamily::Windows, "C:\\cursor", "c:\\other").is_empty());
}

#[test]
fn a_plain_segment_hints_at_two_places() {
    assert_eq!(
        segment_entry_candidates(OsFamily::Windows, "C:\\Programs\\Cursor", "c:\\programs\\cursor"),
        vec![
            "C:\\Programs\\Cursor\\resources\\app\\out\\main.js",
            "C:\\Programs\\resources\\app\\out\\main.js",
        ]
    );
    assert_eq!(
        segment_executable_candidates(OsFamily::Windows, "C:\\Programs\\Cursor", "c:\\programs\\cursor"),
        vec!["C:\\Programs\\Cursor\\Cursor.exe", "C:\\Programs\\Cursor.exe"]
    );
}

#[test]
fn a_bin_segment_hints_first_at_the_installation_above_it() {
    let segment = "C:\\Cursor\\resources\\app\\bin";
    let lowered = "c:\\cursor\\resources\\app\\bin";
    assert_eq!(
        segment_entry_candidates(OsFamily::Windows, segment, lowered),
        vec![
            "C:\\Cursor\\resources\\app\\out\\main.js",
            "C:\\Cursor\\resources\\app\\bin\\resources\\app\\out\\main.js",
            "C:\\Cursor\\resources\\app\\resources\\app\\out\\main.js",
        ]
    );
    assert_eq!(
        segment_executable_candidates(OsFamily::Windows, segment, lowered),
        vec![
            "C:\\Cursor\\Cursor.exe",
            "C:\\Cursor\\resources\\app\\bin\\Cursor.exe",
            "C:\\Cursor\\resources\\app\\Cursor.exe",
        ]
    );
}

#[test]
fn a_segment_without_a_parent_hints_at_one_place() {
    assert_eq!(segment_entry_candidates(OsFamily::Linux, "/", "cursor"), vec!["/resources/app/out/main.js"]);
    assert_eq!(segment_executable_candidates(OsFamily::Linux, "/", "cursor"), vec!["/cursor"]);
}

#[test]
fn the_search_path_is_split_by_the_family_separator() {
    assert_eq!(
        entry_script_candidates(OsFamily::Windows, "C:\\Windows;D:\\cursor;;E:\\x\\Cursor\\"),
        vec![
            "D:\\cursor\\resources\\app\\out\\main.js",
            "D:\\resources\\app\\out\\main.js",
            "E:\\x\\Cursor\\resources\\app\\out\\main.js",
            "E:\\x\\resources\\app\\out\\main.js",
        ]
    );
    assert_eq!(
        entry_script_candidates(OsFamily::Linux, "/usr/bin:/opt/cursor/bin"),
        vec!["/opt/cursor/bin/resources/app/out/main.js", "/opt/cursor/resources/app/out/main.js"]
    );
    // On Windows a colon does not split.
    assert_eq!(entry_script_candidates(OsFamily::Windows, "/usr/bin:/opt/cursor").len(), 2);
    assert!(entry_script_candidates(OsFamily::Linux, "").is_empty());
    assert_eq!(
        executable_candidates_from(OsFamily::Windows, "C:\\cursor"),
        vec!["C:\\cursor\\Cursor.exe", "C:\\Cursor.exe"]
    );
}

#[test]
fn the_application_is_mentioned_in_any_case() {
    // Fails if the text were not taken to lower case before it is looked at.
    assert_eq!(entry_script_candidates(OsFamily::Windows, "C:\\CURSOR").len(), 2);
    assert_eq!(entry_script_candidates(OsFamily::Windows, "C:\\Cursor\\RESOURCES\\App\\Bin").len(), 3);
    assert_eq!(executable_candidates_from(OsFamily::Linux, "/opt/CuRsOr").len(), 2);
}

#[test]
fn the_scan_gives_the_first_place_that_is_there() {
    let mut fs = FsSnapshot::new();
    fs.record("D:\\b\\resources\\app\\out\\main.js", EntryKind::File);
    fs.record("D:\\a\\cursor\\resources\\app\\out\\main.js", EntryKind::File);
    let path = Some(String::from("C:\\x;D:\\a\\cursor;D:\\b\\cursor"));
    assert_eq!(
        AppPaths::find_cursor_from_env_path(OsFamily::Windows, &path, &fs),
        Ok(String::from("D:\\a\\cursor\\resources\\app\\out\\main.js"))
    );
    let reversed = Some(String::from("D:\\b\\cursor;D:\\a\\cursor"));
    assert_eq!(
        AppPaths::find_cursor_from_env_path(OsFamily::Windows, &reversed, &fs),
        Ok(String::from("D:\\b\\resources\\app\\out\\main.js"))
    );
}

#[test]
fn the_scan_says_why_it_found_nothing() {
    let fs = FsSnapshot::new();
    let path = Some(String::from("C:\\cursor"));
    assert_eq!(AppPaths::find_cursor_from_env_path(OsFamily::Windows, &path, &fs), Err(NotFound::NoMatch));
    assert_eq!(AppPaths::find_cursor_from_env_path(OsFamily::Windows, &None, &fs), Err(NotFound::SearchPathUnreadable));
    assert_eq!(AppPaths::find_cursor_exe_from_env_path(OsFamily::Windows, &path, &fs), Err(NotFound::NoMatch));
    assert_eq!(
        AppPaths::find_cursor_exe_from_env_path(OsFamily::Windows, &None, &fs),
        Err(NotFound::SearchPathUnreadable)
    );
}

#[test]
fn the_scan_for_the_executable_prefers_the_installation_above_bin() {
    let mut fs = FsSnapshot::new();
    fs.record("C:\\Cursor\\resources\\app\\bin\\Cursor.exe", EntryKind::File);
    fs.record("C:\\Cursor\\Cursor.exe", EntryKind::File);
    let path = Some(String::from("C:\\Cursor\\resources\\app\\bin"));
    assert_eq!(
        AppPaths::find_cursor_exe_from_env_path(OsFamily::Windows, &path, &fs),
        Ok(String::from("C:\\Cursor\\Cursor.exe"))
    );
}
