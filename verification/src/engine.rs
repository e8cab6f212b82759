//! The scan engine: which entries of a walk are reported, and with what size.
//!
//! A regular file is reported with its own size, a directory with the total
//! of the regular files below it, and either only where that size is at least
//! the threshold. Entries of any other kind are never reported. The entries
//! are decided on in parallel, each on its own, and the items come out in the
//! order of the walk.

use crate::formatter::{human_readable_size, size_text};
use crate::item::{item_views, FileSystemItem, ItemView};
use crate::outside::parallel_reports;
use crate::walk::{get_folder_size, lemma_total_of_part, total_file_size, EntryKind, WalkEntry};
use std::time::SystemTime;
use vstd::prelude::*;
use vstd::slice::slice_subrange;
use vstd::string::*;

verus! {

/// The first position at or after `from` whose entry is not deeper than
/// `depth`, or the length of the walk if there is none.
pub open spec fn first_not_deeper(walk: Seq<WalkEntry>, depth: usize, from: int) -> int
    decreases walk.len() - from,
{
    if from < 0 || from >= walk.len() || walk[from].depth <= depth {
        from
    } else {
        first_not_deeper(walk, depth, from + 1)
    }
}

/// The position just past the entries that lie below entry `i`: they are the
/// entries that follow it directly and are deeper than it.
pub open spec fn subtree_end(walk: Seq<WalkEntry>, i: int) -> int {
    first_not_deeper(walk, walk[i].depth, i + 1)
}

/// Entry `i` with everything below it: the walk of that entry alone.
pub open spec fn subtree(walk: Seq<WalkEntry>, i: int) -> Seq<WalkEntry> {
    walk.subrange(i, subtree_end(walk, i))
}

/// The size that a report of entry `i` carries: the size of a file, the total
/// of the regular files below a directory.
pub open spec fn reported_size(walk: Seq<WalkEntry>, i: int) -> nat {
    match walk[i].kind {
        EntryKind::File => walk[i].size_or_zero() as nat,
        EntryKind::Dir => total_file_size(subtree(walk, i)),
        EntryKind::Other => 0,
    }
}

/// Whether entry `i` is reported under the threshold `size_limit`.
pub open spec fn is_reported(walk: Seq<WalkEntry>, i: int, size_limit: u64) -> bool {
    walk[i].kind != EntryKind::Other && reported_size(walk, i) >= size_limit
}

/// The item that reports entry `i`, for a scan made at the time `now`.
pub open spec fn item_for(walk: Seq<WalkEntry>, i: int, now: SystemTime) -> ItemView {
    ItemView {
        path: walk[i].path@,
        size: reported_size(walk, i) as u64,
        size_str: size_text(reported_size(walk, i)),
        creation_date: walk[i].created_or(now),
        modified_date: walk[i].modified_or(now),
        is_file: walk[i].kind == EntryKind::File,
    }
}

/// The items for the reported entries among the first `n` of the walk.
pub open spec fn scan_prefix(walk: Seq<WalkEntry>, n: int, size_limit: u64, now: SystemTime) -> Seq<
    ItemView,
>
    decreases n,
{
    if n <= 0 {
        Seq::empty()
    } else if is_reported(walk, n - 1, size_limit) {
        scan_prefix(walk, n - 1, size_limit, now).push(item_for(walk, n - 1, now))
    } else {
        scan_prefix(walk, n - 1, size_limit, now)
    }
}

/// The result of a scan: the items for all reported entries, in walk order.
pub open spec fn scan_result(walk: Seq<WalkEntry>, size_limit: u64, now: SystemTime) -> Seq<
    ItemView,
> {
    scan_prefix(walk, walk.len() as int, size_limit, now)
}

/// Whether `report` is the decision on entry `i`: the well-formed item of the
/// entry where it is reported, and nothing where it is not.
pub open spec fn report_matches(
    walk: Seq<WalkEntry>,
    i: int,
    size_limit: u64,
    now: SystemTime,
    report: Option<FileSystemItem>,
) -> bool {
    match report {
        Some(found) => {
            &&& is_reported(walk, i, size_limit)
            &&& found@ == item_for(walk, i, now)
            &&& found.well_formed()
        },
        None => !is_reported(walk, i, size_limit),
    }
}

/// Where the entries below an entry end: the end lies past the entry and
/// within the walk, all entries before it are deeper than the entry, and the
/// entry at the end, if there is one, is not.
pub proof fn lemma_subtree_end(walk: Seq<WalkEntry>, i: int)
    requires
        0 <= i < walk.len(),
    ensures
        i < subtree_end(walk, i) <= walk.len(),
        forall|j: int| i < j < subtree_end(walk, i) ==> (#[trigger] walk[j]).depth > walk[i].depth,
        subtree_end(walk, i) < walk.len() ==> walk[subtree_end(walk, i)].depth <= walk[i].depth,
{
    lemma_first_not_deeper(walk, walk[i].depth, i + 1);
}

/// What `first_not_deeper` finds.
pub proof fn lemma_first_not_deeper(walk: Seq<WalkEntry>, depth: usize, from: int)
    requires
        0 <= from <= walk.len(),
    ensures
        from <= first_not_deeper(walk, depth, from) <= walk.len(),
        forall|j: int|
            from <= j < first_not_deeper(walk, depth, from) ==> (#[trigger] walk[j]).depth > depth,
        first_not_deeper(walk, depth, from) < walk.len() ==> walk[first_not_deeper(
            walk,
            depth,
            from,
        )].depth <= depth,
    decreases walk.len() - from,
{
    if from < walk.len() && walk[from].depth > depth {
        lemma_first_not_deeper(walk, depth, from + 1);
    }
}

/// Where the files of a walk total no more than 64 bits hold, so does the
/// size reported for each entry.
pub proof fn lemma_reported_size_fits(walk: Seq<WalkEntry>, i: int)
    requires
        0 <= i < walk.len(),
        total_file_size(walk) <= u64::MAX,
    ensures
        reported_size(walk, i) <= u64::MAX,
{
    lemma_subtree_end(walk, i);
    lemma_total_of_part(walk, i, subtree_end(walk, i));
}

/// Finds where the entries below entry `i` end.
pub fn find_subtree_end(walk: &[WalkEntry], i: usize) -> (end: usize)
    requires
        i < walk.len(),
    ensures
        end == subtree_end(walk@, i as int),
        i < end <= walk.len(),
{
    let depth = walk[i].depth;
    let mut end: usize = i + 1;
    while end < walk.len() && walk[end].depth > depth
        invariant
            i < end <= walk.len(),
            first_not_deeper(walk@, depth, i + 1) == first_not_deeper(walk@, depth, end as int),
        decreases walk.len() - end,
    {
        end += 1;
    }
    end
}

/// Decides on one entry of a walk: the item that reports it, or `None` where
/// it is not reported.
pub fn report_entry(walk: &[WalkEntry], i: usize, size_limit: u64, now: SystemTime) -> (item:
    Option<FileSystemItem>)
    requires
        i < walk.len(),
        total_file_size(walk@) <= u64::MAX,
    ensures
        report_matches(walk@, i as int, size_limit, now, item),
{
    let entry = &walk[i];
    let size = match entry.kind {
        EntryKind::File => entry.get_file_size(),
        EntryKind::Dir => {
            let end = find_subtree_end(walk, i);
            proof {
                lemma_total_of_part(walk@, i as int, end as int);
            }
            get_folder_size(slice_subrange(walk, i, end))
        },
        EntryKind::Other => {
            return None;
        },
    };
    if size >= size_limit {
        Some(
            FileSystemItem::new(
                entry.path.clone(),
                size,
                human_readable_size(size),
                entry.get_creation_date(now),
                entry.get_modified_date(now),
                matches!(entry.kind, EntryKind::File),
            ),
        )
    } else {
        None
    }
}

/// Scans a walk: the items for the files whose size is at least `size_limit`
/// and for the directories whose files total at least `size_limit`, one item
/// for each such entry, in the order of the walk. The entries are decided on
/// in parallel; the result is complete when the function returns. `now`
/// stands in for a timestamp that could not be read. The scan itself never
/// fails.
pub fn scan(walk: &[WalkEntry], size_limit: u64, now: SystemTime) -> (result: Result<
    Vec<FileSystemItem>,
    String,
>)
    requires
        total_file_size(walk@) <= u64::MAX,
    ensures
        result is Ok,
        item_views(result->Ok_0@) == scan_result(walk@, size_limit, now),
        forall|k: int| 0 <= k < result->Ok_0@.len() ==> (#[trigger] result->Ok_0@[k]).well_formed(),
{
    let reports = parallel_reports(walk, size_limit, now);
    let ghost all = reports@;
    let mut items: Vec<FileSystemItem> = Vec::new();
    for report in it: reports.into_iter()
        invariant
            it.seq() == all,
            all.len() == walk@.len(),
            forall|i: int|
                0 <= i < all.len() ==> report_matches(walk@, i, size_limit, now, #[trigger] all[i]),
            item_views(items@) == scan_prefix(walk@, it.index(), size_limit, now),
            forall|k: int| 0 <= k < items@.len() ==> (#[trigger] items@[k]).well_formed(),
    {
        match report {
            Some(item) => {
                let ghost before = items@;
                items.push(item);
                proof {
                    assert(item_views(items@) =~= item_views(before).push(item@));
                }
            },
            None => {},
        }
    }
    Ok(items)
}

/// What was found at the path given to an analysis.
#[derive(Debug)]
pub enum Root {
    /// Nothing exists at the path.
    Missing,
    /// The path exists; this is the walk that starts at it.
    Found(Vec<WalkEntry>),
}

/// The text of the error for a path that does not exist.
pub open spec fn path_not_found() -> Seq<char> {
    "path not found"@
}

/// Analyzes what was found at a path: an error where nothing exists there,
/// and otherwise the scan of its walk.
pub fn analyze_directory(root: &Root, size_limit: u64, now: SystemTime) -> (result: Result<
    Vec<FileSystemItem>,
    String,
>)
    requires
        root matches Root::Found(walk) ==> total_file_size(walk@) <= u64::MAX,
    ensures
        match (root, result) {
            (Root::Missing, Err(message)) => message@ == path_not_found(),
            (Root::Found(walk), Ok(items)) => {
                &&& item_views(items@) == scan_result(walk@, size_limit, now)
                &&& forall|k: int| 0 <= k < items@.len() ==> (#[trigger] items@[k]).well_formed()
            },
            _ => false,
        },
{
    match root {
        Root::Missing => Err(String::from_str("path not found")),
        Root::Found(walk) => scan(walk.as_slice(), size_limit, now),
    }
}

} // verus!
