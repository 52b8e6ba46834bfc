use cursor_pool::path::{ancestor, file_name, join, parent, separates, OsFamily};

fn some(s: &str) -> Option<String> {
    Some(String::from(s))
}

#[test]
fn os_family_is_read_from_its_name() {
    assert_eq!(OsFamily::from_name("windows"), Some(OsFamily::Windows));
    assert_eq!(OsFamily::from_name("macos"), Some(OsFamily::MacOs));
    assert_eq!(OsFamily::from_name("linux"), Some(OsFamily::Linux));
    assert_eq!(OsFamily::from_name("freebsd"), None);
    assert_eq!(OsFamily::from_name("Windows"), None);
    assert_eq!(OsFamily::from_name(""), None);
}

#[test]
fn list_separator_depends_on_the_family() {
    assert_eq!(OsFamily::Windows.list_separator(), ';');
    assert_eq!(OsFamily::MacOs.list_separator(), ':');
    assert_eq!(OsFamily::Linux.list_separator(), ':');
}

#[test]
fn backslash_separates_on_windows_only() {
    assert!(separates(OsFamily::Windows, '\\'));
    assert!(separates(OsFamily::Windows, '/'));
    assert!(!separates(OsFamily::Linux, '\\'));
    assert!(separates(OsFamily::Linux, '/'));
    assert!(separates(OsFamily::MacOs, '/'));
    assert!(!separates(OsFamily::Windows, ':'));
}

#[test]
fn parent_drops_the_last_component() {
    assert_eq!(parent(OsFamily::Linux, "/a/b"), some("/a"));
    assert_eq!(parent(OsFamily::Linux, "/a/b/"), some("/a"));
    assert_eq!(parent(OsFamily::Linux, "/a//b"), some("/a"));
    assert_eq!(parent(OsFamily::Linux, "/a"), some("/"));
    assert_eq!(parent(OsFamily::Linux, "a/b"), some("a"));
    assert_eq!(parent(OsFamily::Linux, "a"), some(""));
    assert_eq!(parent(OsFamily::MacOs, "/Applications/Cursor.app"), some("/Applications"));
}

#[test]
fn parent_of_a_root_or_nothing_is_none() {
    assert_eq!(parent(OsFamily::Linux, "/"), None);
    assert_eq!(parent(OsFamily::Linux, "//"), None);
    assert_eq!(parent(OsFamily::Linux, ""), None);
    assert_eq!(parent(OsFamily::Windows, "C:\\"), None);
    assert_eq!(parent(OsFamily::Windows, "C:"), None);
    assert_eq!(parent(OsFamily::Windows, "\\"), None);
}

#[test]
fn parent_knows_windows_drives() {
    assert_eq!(parent(OsFamily::Windows, "C:\\Cursor\\resources"), some("C:\\Cursor"));
    assert_eq!(parent(OsFamily::Windows, "C:\\Cursor"), some("C:\\"));
    assert_eq!(parent(OsFamily::Windows, "C:/Cursor/resources/"), some("C:/Cursor"));
    assert_eq!(parent(OsFamily::Windows, "C:Cursor"), some("C:"));
    assert_eq!(parent(OsFamily::Windows, "Cursor\\app"), some("Cursor"));
    // Elsewhere a backslash and a colon are characters of a name.
    assert_eq!(parent(OsFamily::Linux, "C:\\Cursor\\resources"), some(""));
    assert_eq!(parent(OsFamily::Linux, "C:"), some(""));
}

#[test]
fn file_name_is_the_last_component() {
    assert_eq!(file_name(OsFamily::Linux, "/a/main.js"), some("main.js"));
    assert_eq!(file_name(OsFamily::Linux, "/a/out/"), some("out"));
    assert_eq!(file_name(OsFamily::Linux, "cursor"), some("cursor"));
    assert_eq!(file_name(OsFamily::Windows, "C:\\Cursor\\Cursor.exe"), some("Cursor.exe"));
    assert_eq!(file_name(OsFamily::Windows, "C:Cursor.exe"), some("Cursor.exe"));
    assert_eq!(file_name(OsFamily::Linux, "C:\\Cursor\\Cursor.exe"), some("C:\\Cursor\\Cursor.exe"));
    assert_eq!(file_name(OsFamily::Linux, "/a/..."), some("..."));
    assert_eq!(file_name(OsFamily::Linux, "/a/.js"), some(".js"));
}

#[test]
fn file_name_of_a_root_or_a_dot_is_none() {
    assert_eq!(file_name(OsFamily::Linux, "/"), None);
    assert_eq!(file_name(OsFamily::Linux, ""), None);
    assert_eq!(file_name(OsFamily::Windows, "C:\\"), None);
    assert_eq!(file_name(OsFamily::Windows, "C:"), None);
    assert_eq!(file_name(OsFamily::Linux, "/a/.."), None);
    assert_eq!(file_name(OsFamily::Linux, "/a/."), None);
    assert_eq!(file_name(OsFamily::Linux, ".."), None);
}

#[test]
fn ancestor_walks_up_level_by_level() {
    let script = "/opt/cursor/resources/app/out/main.js";
    assert_eq!(ancestor(OsFamily::Linux, script, 0), some(script));
    assert_eq!(ancestor(OsFamily::Linux, script, 1), some("/opt/cursor/resources/app/out"));
    assert_eq!(ancestor(OsFamily::Linux, script, 4), some("/opt/cursor"));
    assert_eq!(ancestor(OsFamily::Linux, script, 5), some("/opt"));
    assert_eq!(ancestor(OsFamily::Linux, script, 6), some("/"));
    assert_eq!(ancestor(OsFamily::Linux, script, 7), None);
    assert_eq!(ancestor(OsFamily::Linux, script, 100), None);
    assert_eq!(ancestor(OsFamily::Windows, "C:\\a\\b", 2), some("C:\\"));
    assert_eq!(ancestor(OsFamily::Windows, "C:\\a\\b", 3), None);
}

#[test]
fn join_writes_one_separator() {
    assert_eq!(join(OsFamily::Linux, "/opt/cursor", "resources"), "/opt/cursor/resources");
    assert_eq!(join(OsFamily::Linux, "/opt/cursor/", "resources"), "/opt/cursor/resources");
    assert_eq!(join(OsFamily::Linux, "/", "opt"), "/opt");
    assert_eq!(join(OsFamily::Linux, "", "opt"), "opt");
    assert_eq!(join(OsFamily::Windows, "C:\\Cursor", "Cursor.exe"), "C:\\Cursor\\Cursor.exe");
    assert_eq!(join(OsFamily::Windows, "C:\\", "Cursor"), "C:\\Cursor");
    assert_eq!(join(OsFamily::Windows, "C:/Cursor/", "app"), "C:/Cursor/app");
    assert_eq!(join(OsFamily::Windows, "C:", "Cursor"), "C:Cursor");
    assert_eq!(join(OsFamily::Linux, "C:", "Cursor"), "C:/Cursor");
    assert_eq!(join(OsFamily::Linux, "a\\", "b"), "a\\/b");
    assert_eq!(join(OsFamily::MacOs, "/Users/u/Library", "Application Support"), "/Users/u/Library/Application Support");
}

#[test]
fn parent_undoes_join() {
    for os in [OsFamily::Windows, OsFamily::MacOs, OsFamily::Linux] {
        for base in ["", "/", "/opt", "/opt/cursor", "relative/dir", "C:", "C:\\", "C:\\Cursor"] {
            let trimmed = match parent(os, &join(os, base, "x")) {
                Some(up) => up,
                None => panic!("a joined path has a parent"),
            };
            assert_eq!(trimmed, base, "{:?} {:?}", os, base);
            assert_eq!(file_name(os, &join(os, base, "name.txt")), some("name.txt"));
        }
    }
}
