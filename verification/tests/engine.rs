use disk_usage::{
    analyze_directory, checked_folder_size, find_subtree_end, human_readable_size, report_entry,
    scan, EntryKind, FileSystemItem, Root, WalkEntry,
};
use std::path::Path;
use std::time::{Duration, SystemTime};
use walkdir::WalkDir;

fn at(seconds: u64) -> SystemTime {
    SystemTime::UNIX_EPOCH + Duration::from_secs(seconds)
}

fn entry(path: &str, depth: usize, kind: EntryKind, size: Option<u64>) -> WalkEntry {
    WalkEntry {
        path: path.to_string(),
        depth,
        kind,
        size,
        created: Some(at(100 + depth as u64)),
        modified: Some(at(200 + depth as u64)),
    }
}

/// top/{a.txt, sub/{b.txt, deep/{c.bin}}, z.log, link}
fn sample_walk() -> Vec<WalkEntry> {
    vec![
        entry("top", 0, EntryKind::Dir, Some(4096)),
        entry("top/a.txt", 1, EntryKind::File, Some(100)),
        entry("top/sub", 1, EntryKind::Dir, Some(4096)),
        entry("top/sub/b.txt", 2, EntryKind::File, Some(250)),
        entry("top/sub/deep", 2, EntryKind::Dir, Some(4096)),
        entry("top/sub/deep/c.bin", 3, EntryKind::File, Some(2000)),
        entry("top/z.log", 1, EntryKind::File, Some(50)),
        entry("top/link", 1, EntryKind::Other, Some(99_999)),
    ]
}

fn summary(items: &[FileSystemItem]) -> Vec<(String, u64, bool)> {
    items.iter().map(|item| (item.path.clone(), item.size, item.is_file)).collect()
}

fn row(path: &str, size: u64, is_file: bool) -> (String, u64, bool) {
    (path.to_string(), size, is_file)
}

/// What stands at `path`, read with the walker.
fn snapshot(path: &str, max_depth: usize) -> Root {
    if !Path::new(path).exists() {
        return Root::Missing;
    }
    let entries = WalkDir::new(path)
        .max_depth(max_depth)
        .into_iter()
        .filter_map(|e| e.ok())
        .map(|e| {
            let meta = e.metadata().ok();
            let kind = if e.file_type().is_file() {
                EntryKind::File
            } else if e.file_type().is_dir() {
                EntryKind::Dir
            } else {
                EntryKind::Other
            };
            WalkEntry {
                path: e.path().to_string_lossy().to_string(),
                depth: e.depth(),
                kind,
                size: meta.as_ref().map(|m| m.len()),
                created: meta.as_ref().and_then(|m| m.created().ok()),
                modified: meta.as_ref().and_then(|m| m.modified().ok()),
            }
        })
        .collect();
    Root::Found(entries)
}

#[test]
fn test_analyze_directory() {
    let path = "/Users/leimao/Documents/nfclean";
    let path = r"C:\Users\maol\Documents\githubProject\Tkinter-Designer";
    let size_limit = 1000 * 1024;
    let root = snapshot(path, usize::MAX);
    if let Root::Found(entries) = &root {
        assert!(checked_folder_size(entries).is_some());
    }
    let result = analyze_directory(&root, size_limit, SystemTime::now());
    match result {
        Ok(files) => {
            for file in files.clone().into_iter().filter(|f| f.is_file) {
                println!("{:?} - {:?} -{}", file.path, file.size_str, file.is_file);
            }
            println!("Total files: {}", &files.len());
        }
        Err(e) => {
            println!("Error: {}", e);
        }
    }
}

#[test]
fn analyze_missing_root_is_an_error() {
    let root = snapshot("/does/not/exist", usize::MAX);
    assert!(matches!(root, Root::Missing));
    let result = analyze_directory(&root, 0, SystemTime::now());
    assert_eq!(result.unwrap_err(), "path not found");
}

#[test]
fn analyze_found_root_scans_its_walk() {
    let walk = sample_walk();
    let expected = summary(&scan(&walk, 1000, at(1)).unwrap());
    let result = analyze_directory(&Root::Found(walk), 1000, at(1)).unwrap();
    assert_eq!(summary(&result), expected);
    assert_eq!(result.len(), 4);
}

#[test]
fn analyze_empty_walk_reports_nothing() {
    let result = analyze_directory(&Root::Found(Vec::new()), 0, at(1)).unwrap();
    assert!(result.is_empty());
}

#[test]
fn scan_with_limit_zero_reports_every_file_and_directory_once() {
    let items = scan(&sample_walk(), 0, at(1)).unwrap();
    assert_eq!(
        summary(&items),
        vec![
            row("top", 2400, false),
            row("top/a.txt", 100, true),
            row("top/sub", 2250, false),
            row("top/sub/b.txt", 250, true),
            row("top/sub/deep", 2000, false),
            row("top/sub/deep/c.bin", 2000, true),
            row("top/z.log", 50, true),
        ]
    );
}

#[test]
fn scan_keeps_what_meets_the_threshold() {
    let items = scan(&sample_walk(), 1000, at(1)).unwrap();
    assert_eq!(
        summary(&items),
        vec![
            row("top", 2400, false),
            row("top/sub", 2250, false),
            row("top/sub/deep", 2000, false),
            row("top/sub/deep/c.bin", 2000, true),
        ]
    );
    let items = scan(&sample_walk(), 2250, at(1)).unwrap();
    assert_eq!(summary(&items), vec![row("top", 2400, false), row("top/sub", 2250, false)]);
    let items = scan(&sample_walk(), 2251, at(1)).unwrap();
    assert_eq!(summary(&items), vec![row("top", 2400, false)]);
    let items = scan(&sample_walk(), 2401, at(1)).unwrap();
    assert!(items.is_empty());
}

#[test]
fn scan_threshold_is_inclusive() {
    let walk = vec![
        entry("f99", 0, EntryKind::File, Some(99)),
    ];
    assert!(scan(&walk, 100, at(1)).unwrap().is_empty());
    let walk = vec![entry("f100", 0, EntryKind::File, Some(100))];
    assert_eq!(summary(&scan(&walk, 100, at(1)).unwrap()), vec![row("f100", 100, true)]);
}

#[test]
fn scan_never_reports_other_kinds() {
    let walk = vec![
        entry("top", 0, EntryKind::Dir, Some(0)),
        entry("top/socket", 1, EntryKind::Other, Some(u64::MAX)),
    ];
    assert_eq!(summary(&scan(&walk, 0, at(1)).unwrap()), vec![row("top", 0, false)]);
}

#[test]
fn scan_counts_a_subdirectory_once() {
    // parent/{own.txt, child/{x, y}}: the files of child are part of both
    // totals, and of each once.
    let walk = vec![
        entry("parent", 0, EntryKind::Dir, Some(4096)),
        entry("parent/own.txt", 1, EntryKind::File, Some(10)),
        entry("parent/child", 1, EntryKind::Dir, Some(4096)),
        entry("parent/child/x", 2, EntryKind::File, Some(300)),
        entry("parent/child/y", 2, EntryKind::File, Some(400)),
    ];
    let items = scan(&walk, 0, at(1)).unwrap();
    assert_eq!(items[0].path, "parent");
    assert_eq!(items[0].size, 710);
    assert_eq!(items[2].path, "parent/child");
    assert_eq!(items[2].size, 700);
}

#[test]
fn scan_totals_follow_the_depths() {
    // a/{b/{f1}, c/{f2}}, then a sibling root-level file after the tree of a.
    let walk = vec![
        entry("a", 1, EntryKind::Dir, None),
        entry("a/b", 2, EntryKind::Dir, None),
        entry("a/b/f1", 3, EntryKind::File, Some(5)),
        entry("a/c", 2, EntryKind::Dir, None),
        entry("a/c/f2", 3, EntryKind::File, Some(7)),
        entry("g", 1, EntryKind::File, Some(1000)),
    ];
    assert_eq!(find_subtree_end(&walk, 0), 5);
    assert_eq!(find_subtree_end(&walk, 1), 3);
    assert_eq!(find_subtree_end(&walk, 2), 3);
    assert_eq!(find_subtree_end(&walk, 3), 5);
    assert_eq!(find_subtree_end(&walk, 5), 6);
    let items = scan(&walk, 0, at(1)).unwrap();
    assert_eq!(
        summary(&items),
        vec![
            row("a", 12, false),
            row("a/b", 5, false),
            row("a/b/f1", 5, true),
            row("a/c", 7, false),
            row("a/c/f2", 7, true),
            row("g", 1000, true),
        ]
    );
}

#[test]
fn scan_renders_the_reported_size() {
    let items = scan(&sample_walk(), 0, at(1)).unwrap();
    for item in &items {
        assert_eq!(item.size_str, human_readable_size(item.size));
    }
    assert_eq!(items[0].size_str, "2.34 KB");
    assert_eq!(items[1].size_str, "100.00 B");
    assert_eq!(items[5].size_str, "1.95 KB");
}

#[test]
fn scan_carries_the_timestamps() {
    let items = scan(&sample_walk(), 0, at(1)).unwrap();
    assert_eq!(items[0].creation_date, at(100));
    assert_eq!(items[0].modified_date, at(200));
    assert_eq!(items[5].creation_date, at(103));
    assert_eq!(items[5].modified_date, at(203));
}

#[test]
fn scan_fills_in_for_unreadable_metadata() {
    let now = at(1_700_000_000);
    let walk = vec![
        WalkEntry {
            path: "dir".to_string(),
            depth: 0,
            kind: EntryKind::Dir,
            size: None,
            created: None,
            modified: Some(at(5)),
        },
        WalkEntry {
            path: "dir/gone".to_string(),
            depth: 1,
            kind: EntryKind::File,
            size: None,
            created: None,
            modified: None,
        },
    ];
    let items = scan(&walk, 0, now).unwrap();
    assert_eq!(summary(&items), vec![row("dir", 0, false), row("dir/gone", 0, true)]);
    assert_eq!(items[0].creation_date, now);
    assert_eq!(items[0].modified_date, at(5));
    assert_eq!(items[1].creation_date, now);
    assert_eq!(items[1].modified_date, now);
    assert_eq!(items[1].size_str, "0.00 B");
    assert!(scan(&walk, 1, now).unwrap().is_empty());
}

#[test]
fn scan_twice_gives_the_same_paths_and_sizes() {
    let walk = sample_walk();
    let first = scan(&walk, 100, at(1)).unwrap();
    let second = scan(&walk, 100, at(2)).unwrap();
    assert_eq!(summary(&first), summary(&second));
    let again = scan(&walk, 100, at(1)).unwrap();
    assert_eq!(format!("{:?}", first), format!("{:?}", again));
}

#[test]
fn scan_of_a_large_walk_keeps_the_order() {
    let mut walk = vec![entry("root", 0, EntryKind::Dir, Some(0))];
    let mut total = 0u64;
    for d in 0..200u64 {
        walk.push(entry(&format!("root/d{}", d), 1, EntryKind::Dir, Some(0)));
        for f in 0..50u64 {
            walk.push(entry(&format!("root/d{}/f{}", d, f), 2, EntryKind::File, Some(d + f)));
            total += d + f;
        }
    }
    let items = scan(&walk, 0, at(1)).unwrap();
    assert_eq!(items.len(), walk.len());
    for (item, source) in items.iter().zip(walk.iter()) {
        assert_eq!(item.path, source.path);
    }
    assert_eq!(items[0].size, total);
    assert_eq!(items[1].size, (0..50u64).sum::<u64>());
    let big = scan(&walk, total, at(1)).unwrap();
    assert_eq!(summary(&big), vec![row("root", total, false)]);
}

#[test]
fn report_entry_decides_on_one_entry() {
    let walk = sample_walk();
    let top = report_entry(&walk, 0, 2400, at(1)).unwrap();
    assert_eq!((top.path.as_str(), top.size, top.is_file), ("top", 2400, false));
    assert!(report_entry(&walk, 0, 2401, at(1)).is_none());
    let file = report_entry(&walk, 1, 100, at(1)).unwrap();
    assert_eq!((file.path.as_str(), file.size, file.is_file), ("top/a.txt", 100, true));
    assert!(report_entry(&walk, 1, 101, at(1)).is_none());
    assert!(report_entry(&walk, 7, 0, at(1)).is_none());
}

#[test]
fn scan_of_a_real_walk_agrees_with_the_paths() {
    let root = snapshot(".", 4);
    let Root::Found(entries) = &root else {
        return;
    };
    if entries.len() > 50_000 || checked_folder_size(entries).is_none() {
        return;
    }
    let items = scan(entries, 0, SystemTime::now()).unwrap();
    let reported: Vec<&WalkEntry> =
        entries.iter().filter(|e| e.kind != EntryKind::Other).collect();
    assert_eq!(items.len(), reported.len());
    for (item, source) in items.iter().zip(reported.iter()) {
        assert_eq!(item.path, source.path);
        let expected: u64 = if source.kind == EntryKind::File {
            source.size.unwrap_or(0)
        } else {
            entries
                .iter()
                .filter(|e| e.kind == EntryKind::File)
                .filter(|e| Path::new(&e.path).starts_with(Path::new(&source.path)))
                .map(|e| e.size.unwrap_or(0))
                .sum()
        };
        assert_eq!(item.size, expected, "{}", item.path);
        assert_eq!(item.is_file, source.kind == EntryKind::File);
    }
}
