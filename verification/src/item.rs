//! The reported item: one file or directory whose size met the threshold.

use crate::formatter::size_text;
use std::time::SystemTime;
use vstd::prelude::*;

verus! {

/// A file or directory found by a scan, with its size and timestamps.
#[derive(Debug, Clone)]
pub struct FileSystemItem {
    /// The path as the walk reported it.
    pub path: String,
    /// Bytes: the file's size, or the total of a directory's files.
    pub size: u64,
    /// `size` rendered for people.
    pub size_str: String,
    /// When the entry was created, as far as the platform tells.
    pub creation_date: SystemTime,
    /// When the entry was last modified.
    pub modified_date: SystemTime,
    /// True for a file, false for a directory.
    pub is_file: bool,
}

/// What a [`FileSystemItem`] holds, with its texts as sequences of characters.
pub struct ItemView {
    pub path: Seq<char>,
    pub size: u64,
    pub size_str: Seq<char>,
    pub creation_date: SystemTime,
    pub modified_date: SystemTime,
    pub is_file: bool,
}

impl View for FileSystemItem {
    type V = ItemView;

    open spec fn view(&self) -> ItemView {
        ItemView {
            path: self.path@,
            size: self.size,
            size_str: self.size_str@,
            creation_date: self.creation_date,
            modified_date: self.modified_date,
            is_file: self.is_file,
        }
    }
}

impl ItemView {
    /// The size text is the rendering of the size.
    pub open spec fn well_formed(self) -> bool {
        self.size_str == size_text(self.size as nat)
    }
}

impl FileSystemItem {
    /// The size text is the rendering of the size.
    pub open spec fn well_formed(&self) -> bool {
        self@.well_formed()
    }

    /// Puts an item together from its parts. The size text has to be the
    /// rendering of the size, as `human_readable_size` gives it.
    pub fn new(
        path: String,
        size: u64,
        size_str: String,
        creation_date: SystemTime,
        modified_date: SystemTime,
        is_file: bool,
    ) -> (item: Self)
        requires
            size_str@ == size_text(size as nat),
        ensures
            item@ == (ItemView {
                path: path@,
                size,
                size_str: size_str@,
                creation_date,
                modified_date,
                is_file,
            }),
            item.well_formed(),
    {
        FileSystemItem { path, size, size_str, creation_date, modified_date, is_file }
    }
}

/// The views of a list of items, in order.
pub open spec fn item_views(items: Seq<FileSystemItem>) -> Seq<ItemView> {
    items.map_values(|item: FileSystemItem| item@)
}

} // verus!
