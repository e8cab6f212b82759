//! A walk of a directory tree as plain values, and the folder aggregator.
//!
//! A walk lists the root and everything below it, each directory before its
//! contents, with the depth of each entry below the root. What could not be
//! read of an entry is absent, and the accessors here put the documented
//! default in its place: size 0, and the time of the scan for a timestamp.

use crate::outside::{parallel_sum, sum_of};
use std::time::SystemTime;
use vstd::prelude::*;

verus! {

/// What kind of entry the walker met.
#[derive(Debug, Clone, Copy, PartialEq, Eq, Structural)]
pub enum EntryKind {
    /// A regular file.
    File,
    /// A directory.
    Dir,
    /// Anything else: a symbolic link, a socket, a device.
    Other,
}

/// One entry of a walk, with what was read of its metadata.
#[derive(Debug, Clone)]
pub struct WalkEntry {
    /// The path as the walker reported it.
    pub path: String,
    /// How far below the root the entry lies; the root has depth 0.
    pub depth: usize,
    /// File, directory or other.
    pub kind: EntryKind,
    /// The size in bytes, if it could be read.
    pub size: Option<u64>,
    /// The creation time, if it could be read.
    pub created: Option<SystemTime>,
    /// The time of the last modification, if it could be read.
    pub modified: Option<SystemTime>,
}

impl WalkEntry {
    /// The size of the entry, 0 where it could not be read.
    pub open spec fn size_or_zero(&self) -> u64 {
        match self.size {
            Some(size) => size,
            None => 0,
        }
    }

    /// The creation time, `now` where it could not be read.
    pub open spec fn created_or(&self, now: SystemTime) -> SystemTime {
        match self.created {
            Some(time) => time,
            None => now,
        }
    }

    /// The modification time, `now` where it could not be read.
    pub open spec fn modified_or(&self, now: SystemTime) -> SystemTime {
        match self.modified {
            Some(time) => time,
            None => now,
        }
    }

    /// What the entry adds to the total of a folder that holds it: its size
    /// if it is a regular file, nothing otherwise.
    pub open spec fn counted_size(&self) -> nat {
        if self.kind == EntryKind::File {
            self.size_or_zero() as nat
        } else {
            0
        }
    }

    /// The size of the entry in bytes, 0 where it could not be read.
    pub fn get_file_size(&self) -> (size: u64)
        ensures
            size == self.size_or_zero(),
    {
        match self.size {
            Some(size) => size,
            None => 0,
        }
    }

    /// The creation time of the entry, `now` where it could not be read.
    pub fn get_creation_date(&self, now: SystemTime) -> (time: SystemTime)
        ensures
            time == self.created_or(now),
    {
        match self.created {
            Some(time) => time,
            None => now,
        }
    }

    /// The time of the last modification, `now` where it could not be read.
    pub fn get_modified_date(&self, now: SystemTime) -> (time: SystemTime)
        ensures
            time == self.modified_or(now),
    {
        match self.modified {
            Some(time) => time,
            None => now,
        }
    }
}

/// The sum of the sizes of the regular files in a walk.
pub open spec fn total_file_size(walk: Seq<WalkEntry>) -> nat
    decreases walk.len(),
{
    if walk.len() == 0 {
        0
    } else {
        total_file_size(walk.drop_last()) + walk.last().counted_size()
    }
}

/// The total of a walk is the total of any first part plus that of the rest.
pub proof fn lemma_total_splits(walk: Seq<WalkEntry>, at: int)
    requires
        0 <= at <= walk.len(),
    ensures
        total_file_size(walk) == total_file_size(walk.take(at)) + total_file_size(
            walk.skip(at),
        ),
    decreases walk.len(),
{
    if at == walk.len() {
        assert(walk.take(at) =~= walk);
        assert(walk.skip(at) =~= Seq::<WalkEntry>::empty());
    } else {
        let shorter = walk.drop_last();
        lemma_total_splits(shorter, at);
        assert(shorter.take(at) =~= walk.take(at));
        assert(shorter.skip(at) =~= walk.skip(at).drop_last());
        assert(walk.skip(at).last() == walk.last());
    }
}

/// A part of a walk never totals more than the whole walk.
pub proof fn lemma_total_of_part(walk: Seq<WalkEntry>, from: int, to: int)
    requires
        0 <= from <= to <= walk.len(),
    ensures
        total_file_size(walk.subrange(from, to)) <= total_file_size(walk),
{
    lemma_total_splits(walk, to);
    lemma_total_splits(walk.take(to), from);
    assert(walk.take(to).skip(from) =~= walk.subrange(from, to));
}

/// The folder aggregator: the sum of the sizes of the regular files in the
/// walk of a folder. A file whose size could not be read counts as 0, and
/// entries that are not regular files count nothing. The sizes are added in
/// parallel.
pub fn get_folder_size(walk: &[WalkEntry]) -> (total: u64)
    requires
        total_file_size(walk@) <= u64::MAX,
    ensures
        total == total_file_size(walk@),
{
    let mut sizes: Vec<u64> = Vec::new();
    let mut i: usize = 0;
    while i < walk.len()
        invariant
            i <= walk.len(),
            sum_of(sizes@) == total_file_size(walk@.take(i as int)),
        decreases walk.len() - i,
    {
        let entry = &walk[i];
        proof {
            assert(walk@.take(i + 1).drop_last() =~= walk@.take(i as int));
        }
        match entry.kind {
            EntryKind::File => {
                let ghost before = sizes@;
                sizes.push(entry.get_file_size());
                proof {
                    assert(sizes@.drop_last() =~= before);
                }
            },
            _ => {},
        }
        i += 1;
    }
    proof {
        assert(walk@.take(walk.len() as int) =~= walk@);
    }
    parallel_sum(&sizes)
}

/// The total of a walk where it fits in 64 bits, `None` where it does not.
/// For a caller that cannot know beforehand whether the sum of the file sizes
/// is small enough for `get_folder_size`.
pub fn checked_folder_size(walk: &[WalkEntry]) -> (total: Option<u64>)
    ensures
        match total {
            Some(sum) => sum == total_file_size(walk@),
            None => total_file_size(walk@) > u64::MAX,
        },
{
    let mut sum: u64 = 0;
    let mut i: usize = 0;
    while i < walk.len()
        invariant
            i <= walk.len(),
            sum == total_file_size(walk@.take(i as int)),
        decreases walk.len() - i,
    {
        let entry = &walk[i];
        proof {
            assert(walk@.take(i + 1).drop_last() =~= walk@.take(i as int));
        }
        match entry.kind {
            EntryKind::File => {
                match sum.checked_add(entry.get_file_size()) {
                    Some(next) => {
                        sum = next;
                    },
                    None => {
                        proof {
                            lemma_total_splits(walk@, i + 1);
                        }
                        return None;
                    },
                }
            },
            _ => {},
        }
        i += 1;
    }
    proof {
        assert(walk@.take(walk.len() as int) =~= walk@);
    }
    Some(sum)
}

} // verus!
