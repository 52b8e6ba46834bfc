use cursor_pool::fs::{DirEntry, EntryKind, FsSnapshot};
use cursor_pool::store::{OverrideStore, ENTRY_SCRIPT_KEY};

#[test]
fn an_empty_snapshot_has_nothing() {
    let fs = FsSnapshot::new();
    assert_eq!(fs.kind_of("/opt/cursor"), None);
    assert!(!fs.is_present(""));
    assert!(!fs.is_dir("/"));
    assert!(fs.listing("/").is_none());
    assert_eq!(fs.first_present(&vec![String::from("/a")]), None);
}

#[test]
fn record_notes_what_is_at_a_path() {
    let mut fs = FsSnapshot::new();
    fs.record("/opt/cursor", EntryKind::Directory);
    fs.record("/opt/cursor/cursor", EntryKind::File);
    fs.record("/dev/null", EntryKind::Other);
    assert_eq!(fs.kind_of("/opt/cursor"), Some(EntryKind::Directory));
    assert!(fs.is_dir("/opt/cursor") && fs.is_present("/opt/cursor") && !fs.is_file("/opt/cursor"));
    assert!(fs.is_file("/opt/cursor/cursor") && !fs.is_dir("/opt/cursor/cursor"));
    assert!(fs.is_present("/dev/null") && !fs.is_file("/dev/null") && !fs.is_dir("/dev/null"));
    assert!(!fs.is_present("/opt/cursor/"));
    assert!(!fs.is_present("/opt/Cursor"));
}

#[test]
fn the_first_record_of_a_path_stands() {
    let mut fs = FsSnapshot::new();
    fs.record("/a", EntryKind::File);
    fs.record("/a", EntryKind::Directory);
    assert_eq!(fs.kind_of("/a"), Some(EntryKind::File));
    assert_eq!(fs.entries.len(), 2);
}

#[test]
fn record_tree_notes_a_walk() {
    let mut fs = FsSnapshot::new();
    fs.record_tree("/a", vec![DirEntry::file("x"), DirEntry::directory("d", vec![DirEntry::file("y")])]);
    fs.record_tree("/a", vec![]);
    fs.record_tree("/b", vec![]);
    let listing = match fs.listing("/a") {
        Some(l) => l,
        None => panic!("/a was walked"),
    };
    assert_eq!(listing.len(), 2);
    assert_eq!(listing[0].name, "x");
    assert_eq!(listing[0].kind, EntryKind::File);
    assert_eq!(listing[1].kind, EntryKind::Directory);
    assert_eq!(listing[1].children[0].name, "y");
    assert_eq!(fs.listing("/b").map(|l| l.len()), Some(0));
    assert!(fs.listing("/c").is_none());
    assert!(!fs.is_present("/a"));
}

#[test]
fn first_present_keeps_the_order_of_the_candidates() {
    let mut fs = FsSnapshot::new();
    fs.record("/c", EntryKind::File);
    fs.record("/b", EntryKind::Directory);
    let candidates = vec![String::from("/a"), String::from("/b"), String::from("/c")];
    assert_eq!(fs.first_present(&candidates), Some(String::from("/b")));
    assert_eq!(fs.first_present(&vec![String::from("/x")]), None);
    assert_eq!(fs.first_present(&Vec::new()), None);
}

#[test]
fn the_store_keeps_one_value_under_a_key() {
    let mut store = OverrideStore::new();
    assert_eq!(store.get_item(ENTRY_SCRIPT_KEY), None);
    store.set_item("other", "1");
    store.set_item(ENTRY_SCRIPT_KEY, "/a/main.js");
    assert_eq!(store.get_item(ENTRY_SCRIPT_KEY), Some(String::from("/a/main.js")));
    store.set_item(ENTRY_SCRIPT_KEY, "/b/main.js");
    assert_eq!(store.get_item(ENTRY_SCRIPT_KEY), Some(String::from("/b/main.js")));
    assert_eq!(store.get_item("other"), Some(String::from("1")));
    assert_eq!(store.get_item("missing"), None);
    assert_eq!(store.records.len(), 2);
}

#[test]
fn the_entry_script_key_is_fixed() {
    assert_eq!(ENTRY_SCRIPT_KEY, "system.cursor.path.mainJs");
}
