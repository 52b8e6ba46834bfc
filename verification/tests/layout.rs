use cursor_pool::fs::{EntryKind, FsSnapshot};
use cursor_pool::layout::{
    at_entry_script, derive_executable_from_entry_script, entry_script_under,
    executable_file_name, ENTRY_SCRIPT_LEVELS,
};
use cursor_pool::path::OsFamily;

#[test]
fn the_executable_is_named_by_family() {
    assert_eq!(executable_file_name(OsFamily::Windows), "Cursor.exe");
    assert_eq!(executable_file_name(OsFamily::MacOs), "Cursor");
    assert_eq!(executable_file_name(OsFamily::Linux), "cursor");
    assert_eq!(ENTRY_SCRIPT_LEVELS, 4);
}

#[test]
fn the_entry_script_sits_four_levels_below_the_root() {
    assert_eq!(
        entry_script_under(OsFamily::Windows, "C:\\Programs\\cursor"),
        "C:\\Programs\\cursor\\resources\\app\\out\\main.js"
    );
    assert_eq!(entry_script_under(OsFamily::Linux, "/opt/cursor/"), "/opt/cursor/resources/app/out/main.js");
    assert_eq!(entry_script_under(OsFamily::MacOs, ""), "resources/app/out/main.js");
}

#[test]
fn at_entry_script_wants_the_name_and_three_directories() {
    let os = OsFamily::Linux;
    assert!(at_entry_script(os, "/opt/cursor/resources/app/out/main.js"));
    assert!(at_entry_script(os, "resources/app/out/main.js"));
    assert!(at_entry_script(OsFamily::Windows, "C:\\x\\resources\\app\\out\\main.js"));
    assert!(at_entry_script(OsFamily::Windows, "C:/x/resources\\app/out\\main.js"));
    assert!(!at_entry_script(os, "/opt/cursor/resources/app/out/Main.js"));
    assert!(!at_entry_script(os, "/opt/cursor/resources/app/dist/main.js"));
    assert!(!at_entry_script(os, "/opt/cursor/resources/application/out/main.js"));
    assert!(!at_entry_script(os, "/opt/cursor/Resources/app/out/main.js"));
    assert!(!at_entry_script(os, "/app/out/main.js"));
    assert!(!at_entry_script(os, "/out/main.js"));
    assert!(!at_entry_script(os, "main.js"));
    assert!(!at_entry_script(os, "C:\\x\\resources\\app\\out\\main.js"));
}

#[test]
fn derivation_gives_the_executable_in_the_root() {
    let mut fs = FsSnapshot::new();
    fs.record("C:\\Cursor\\Cursor.exe", EntryKind::File);
    fs.record("/opt/cursor/cursor", EntryKind::File);
    fs.record("/Apps/Cursor", EntryKind::File);
    assert_eq!(
        derive_executable_from_entry_script(OsFamily::Windows, "C:\\Cursor\\resources\\app\\out\\main.js", &fs),
        Some(String::from("C:\\Cursor\\Cursor.exe"))
    );
    assert_eq!(
        derive_executable_from_entry_script(OsFamily::Linux, "/opt/cursor/resources/app/out/main.js", &fs),
        Some(String::from("/opt/cursor/cursor"))
    );
    assert_eq!(
        derive_executable_from_entry_script(OsFamily::MacOs, "/Apps/resources/app/out/main.js", &fs),
        Some(String::from("/Apps/Cursor"))
    );
}

#[test]
fn derivation_gives_nothing_where_the_executable_is_not_there() {
    let mut fs = FsSnapshot::new();
    fs.record("C:\\Cursor\\resources\\app\\out\\main.js", EntryKind::File);
    assert_eq!(
        derive_executable_from_entry_script(OsFamily::Windows, "C:\\Cursor\\resources\\app\\out\\main.js", &fs),
        None
    );
}

#[test]
fn derivation_gives_nothing_for_a_path_shallower_than_four_levels() {
    let mut fs = FsSnapshot::new();
    fs.record("Cursor.exe", EntryKind::File);
    fs.record("C:\\Cursor.exe", EntryKind::File);
    fs.record("/cursor", EntryKind::File);
    fs.record("cursor", EntryKind::File);
    assert_eq!(derive_executable_from_entry_script(OsFamily::Windows, "C:\\app\\out\\main.js", &fs), None);
    assert_eq!(derive_executable_from_entry_script(OsFamily::Windows, "main.js", &fs), None);
    assert_eq!(derive_executable_from_entry_script(OsFamily::Linux, "/app/out/main.js", &fs), None);
    assert_eq!(derive_executable_from_entry_script(OsFamily::Linux, "", &fs), None);
    // Exactly four levels: the root is the root of the file system, or nothing.
    assert_eq!(
        derive_executable_from_entry_script(OsFamily::Linux, "/resources/app/out/main.js", &fs),
        Some(String::from("/cursor"))
    );
    assert_eq!(
        derive_executable_from_entry_script(OsFamily::Linux, "resources/app/out/main.js", &fs),
        Some(String::from("cursor"))
    );
}
