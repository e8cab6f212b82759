use disk_usage::{checked_folder_size, get_folder_size, EntryKind, WalkEntry};
use std::time::{Duration, SystemTime};

fn entry(path: &str, depth: usize, kind: EntryKind, size: Option<u64>) -> WalkEntry {
    WalkEntry { path: path.to_string(), depth, kind, size, created: None, modified: None }
}

#[test]
fn folder_size_adds_the_files_only() {
    let walk = vec![
        entry("top", 0, EntryKind::Dir, Some(4096)),
        entry("top/a.txt", 1, EntryKind::File, Some(100)),
        entry("top/link", 1, EntryKind::Other, Some(7000)),
        entry("top/sub", 1, EntryKind::Dir, Some(4096)),
        entry("top/sub/b.txt", 2, EntryKind::File, Some(250)),
        entry("top/sub/c.bin", 2, EntryKind::File, Some(1)),
    ];
    assert_eq!(get_folder_size(&walk), 351);
    assert_eq!(checked_folder_size(&walk), Some(351));
}

#[test]
fn folder_size_of_nothing_is_zero() {
    let walk: Vec<WalkEntry> = Vec::new();
    assert_eq!(get_folder_size(&walk), 0);
    assert_eq!(checked_folder_size(&walk), Some(0));
    let only_dirs = vec![entry("top", 0, EntryKind::Dir, Some(4096))];
    assert_eq!(get_folder_size(&only_dirs), 0);
}

#[test]
fn folder_size_counts_an_unreadable_file_as_zero() {
    let walk = vec![
        entry("top", 0, EntryKind::Dir, None),
        entry("top/a", 1, EntryKind::File, None),
        entry("top/b", 1, EntryKind::File, Some(42)),
    ];
    assert_eq!(get_folder_size(&walk), 42);
}

#[test]
fn folder_size_of_many_files() {
    let mut walk = vec![entry("top", 0, EntryKind::Dir, Some(4096))];
    let mut expected: u64 = 0;
    for i in 0..10_000u64 {
        walk.push(entry(&format!("top/f{}", i), 1, EntryKind::File, Some(i * 3 + 1)));
        expected += i * 3 + 1;
    }
    assert_eq!(get_folder_size(&walk), expected);
    assert_eq!(checked_folder_size(&walk), Some(expected));
}

#[test]
fn checked_folder_size_sees_a_total_beyond_64_bits() {
    let walk = vec![
        entry("top", 0, EntryKind::Dir, Some(0)),
        entry("top/a", 1, EntryKind::File, Some(u64::MAX)),
        entry("top/b", 1, EntryKind::File, Some(1)),
    ];
    assert_eq!(checked_folder_size(&walk), None);
    let fits = vec![
        entry("top/a", 1, EntryKind::File, Some(u64::MAX - 1)),
        entry("top/b", 1, EntryKind::File, Some(1)),
        entry("top/d", 1, EntryKind::Dir, Some(5)),
    ];
    assert_eq!(checked_folder_size(&fits), Some(u64::MAX));
    assert_eq!(get_folder_size(&fits), u64::MAX);
}

#[test]
fn metadata_defaults() {
    let now = SystemTime::UNIX_EPOCH + Duration::from_secs(1_700_000_000);
    let created = SystemTime::UNIX_EPOCH + Duration::from_secs(10);
    let modified = SystemTime::UNIX_EPOCH + Duration::from_secs(20);
    let unread = entry("x", 0, EntryKind::File, None);
    assert_eq!(unread.get_file_size(), 0);
    assert_eq!(unread.get_creation_date(now), now);
    assert_eq!(unread.get_modified_date(now), now);
    let read = WalkEntry {
        path: "y".to_string(),
        depth: 0,
        kind: EntryKind::File,
        size: Some(77),
        created: Some(created),
        modified: Some(modified),
    };
    assert_eq!(read.get_file_size(), 77);
    assert_eq!(read.get_creation_date(now), created);
    assert_eq!(read.get_modified_date(now), modified);
}
