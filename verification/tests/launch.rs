use cursor_pool::error::LaunchError;
use cursor_pool::fs::{EntryKind, FsSnapshot};
use cursor_pool::path::OsFamily;
use cursor_pool::paths::AppPaths;

fn paths(exe: &str, script: Option<&str>) -> AppPaths {
    AppPaths {
        storage: String::from("s"),
        auth: String::from("a"),
        db: String::from("d"),
        cursor_exe: String::from(exe),
        main_js: script.map(String::from),
    }
}

#[test]
fn launch_takes_the_executable_that_is_there() {
    let mut fs = FsSnapshot::new();
    fs.record("/usr/bin/cursor", EntryKind::File);
    fs.record("/opt/cursor/cursor", EntryKind::File);
    let p = paths("/usr/bin/cursor", Some("/opt/cursor/resources/app/out/main.js"));
    assert_eq!(p.launch_cursor(OsFamily::Linux, &fs), Ok(String::from("/usr/bin/cursor")));
}

#[test]
fn launch_derives_the_executable_where_the_given_one_is_gone() {
    let mut fs = FsSnapshot::new();
    fs.record("D:\\Cursor\\Cursor.exe", EntryKind::File);
    let p = paths("C:\\gone\\Cursor.exe", Some("D:\\Cursor\\resources\\app\\out\\main.js"));
    assert_eq!(p.launch_cursor(OsFamily::Windows, &fs), Ok(String::from("D:\\Cursor\\Cursor.exe")));
    // The paths themselves stay as they were.
    assert_eq!(p.cursor_exe, "C:\\gone\\Cursor.exe");
}

#[test]
fn launch_misses_the_executable_where_there_is_none() {
    let fs = FsSnapshot::new();
    assert_eq!(paths("/usr/bin/cursor", None).launch_cursor(OsFamily::Linux, &fs), Err(LaunchError::ExecutableMissing));
    let with_script = paths("/usr/bin/cursor", Some("/opt/cursor/resources/app/out/main.js"));
    assert_eq!(with_script.launch_cursor(OsFamily::Linux, &fs), Err(LaunchError::ExecutableMissing));
    let shallow = paths("/usr/bin/cursor", Some("/out/main.js"));
    assert_eq!(shallow.launch_cursor(OsFamily::Linux, &fs), Err(LaunchError::ExecutableMissing));
}

#[test]
fn a_refused_spawn_is_reported_with_its_reason() {
    assert_eq!(LaunchError::of_spawn(Ok(())), Ok(()));
    assert_eq!(
        LaunchError::of_spawn(Err(String::from("exec format error"))),
        Err(LaunchError::SpawnFailed(String::from("exec format error")))
    );
}
