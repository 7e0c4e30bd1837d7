use mocha::paths::get_filename;
use mocha::recent::{add_recent_file, make_entry, refresh_entry, RecentList, MAX_RECENT};
use mocha::tail::FileMeta;

#[test]
fn adding_the_same_path_twice_keeps_one_entry() {
    let mut list = RecentList::new();
    let meta = FileMeta { size: 10, mtime: Some(1) };
    list.add(make_entry(&String::from("/tmp/a.log"), 111, Some(&meta)));
    list.add(make_entry(&String::from("/tmp/other.log"), 150, Some(&meta)));
    list.add(make_entry(&String::from("/tmp/a.log"), 222, Some(&meta)));
    assert_eq!(list.entries.len(), 2);
    assert_eq!(list.entries[0].path, "/tmp/a.log");
    assert_eq!(list.entries[0].last_opened, 222);
    assert_eq!(list.entries[1].path, "/tmp/other.log");
    let count = list.entries.iter().filter(|e| e.path == "/tmp/a.log").count();
    assert_eq!(count, 1);
}

#[test]
fn the_list_is_capped_and_drops_the_oldest() {
    let mut list = RecentList::new();
    for i in 0..MAX_RECENT {
        list.add(make_entry(&format!("/tmp/file{}.log", i), i as i64, None));
    }
    assert_eq!(list.entries.len(), MAX_RECENT);
    assert_eq!(list.entries[MAX_RECENT - 1].path, "/tmp/file0.log");
    list.add(make_entry(&String::from("/tmp/newest.log"), 999, None));
    assert_eq!(list.entries.len(), MAX_RECENT);
    assert_eq!(list.entries[0].path, "/tmp/newest.log");
    assert!(list.entries.iter().all(|e| e.path != "/tmp/file0.log"));
    assert_eq!(list.entries[MAX_RECENT - 1].path, "/tmp/file1.log");
}

#[test]
fn remove_drops_only_the_named_path() {
    let mut list = RecentList::new();
    list.add(make_entry(&String::from("a"), 1, None));
    list.add(make_entry(&String::from("b"), 2, None));
    assert!(list.remove(&String::from("a")));
    assert_eq!(list.entries.len(), 1);
    assert_eq!(list.entries[0].path, "b");
    assert!(list.remove(&String::from("not there")));
    assert_eq!(list.entries.len(), 1);
}

#[test]
fn remove_rejects_an_empty_path() {
    let mut list = RecentList::new();
    list.add(make_entry(&String::from("a"), 1, None));
    assert!(!list.remove(&String::new()));
    assert_eq!(list.entries.len(), 1);
}

#[test]
fn clear_empties_the_list() {
    let mut list = RecentList::new();
    list.add(make_entry(&String::from("a"), 1, None));
    list.add(make_entry(&String::from("b"), 2, None));
    list.clear();
    assert_eq!(list.entries.len(), 0);
}

#[test]
fn add_recent_file_rejects_an_empty_path() {
    let mut list = RecentList::new();
    assert!(!add_recent_file(&mut list, &String::new(), None));
    assert_eq!(list.entries.len(), 0);
}

#[test]
fn add_recent_file_stamps_a_fresh_entry() {
    let mut list = RecentList::new();
    let meta = FileMeta { size: 42, mtime: Some(77) };
    assert!(add_recent_file(&mut list, &String::from("/var/log/app.log"), Some(&meta)));
    assert_eq!(list.entries.len(), 1);
    let e = &list.entries[0];
    assert_eq!(e.path, "/var/log/app.log");
    assert_eq!(e.name, "app.log");
    assert_eq!(e.size, Some(42));
    assert_eq!(e.mtime, Some(77));
    assert!(e.exists);
}

#[test]
fn make_entry_records_a_missing_file() {
    let e = make_entry(&String::from("/gone.log"), 5, None);
    assert_eq!(e.path, "/gone.log");
    assert_eq!(e.name, "gone.log");
    assert_eq!(e.last_opened, 5);
    assert_eq!(e.size, None);
    assert_eq!(e.mtime, None);
    assert!(!e.exists);
}

#[test]
fn refresh_entry_reprobes_the_filesystem() {
    let mut e = make_entry(&String::from("/tmp/x.log"), 9, None);
    let meta = FileMeta { size: 3, mtime: Some(4) };
    refresh_entry(&mut e, Some(&meta));
    assert!(e.exists);
    assert_eq!(e.size, Some(3));
    assert_eq!(e.mtime, Some(4));
    assert_eq!(e.last_opened, 9);
    refresh_entry(&mut e, None);
    assert!(!e.exists);
    assert_eq!(e.size, None);
    assert_eq!(e.mtime, None);
    assert_eq!(e.path, "/tmp/x.log");
}

#[test]
fn filename_is_the_part_after_the_last_separator() {
    assert_eq!(get_filename("/var/log/app.log"), "app.log");
    assert_eq!(get_filename("plain.txt"), "plain.txt");
    assert_eq!(get_filename("/var/log/"), "");
    assert_eq!(get_filename(""), "");
    assert_eq!(get_filename("a/b/c"), "c");
}
