//! Disk-usage analysis of a directory tree, on values already read from the
//! file system: per-directory totals, the entries at or above a size
//! threshold, their human-readable sizes, and the order in which a tree is
//! taken apart when it is deleted.

pub mod deletion;
pub mod engine;
pub mod formatter;
pub mod greeting;
pub mod item;
pub mod laws;
pub mod outside;
pub mod walk;

pub use deletion::{delete_non_empty_dir, delete_path, DeleteError, Node, Removal, Target};
pub use engine::{analyze_directory, find_subtree_end, report_entry, scan, Root};
pub use formatter::human_readable_size;
pub use greeting::greet;
pub use item::{FileSystemItem, ItemView};
pub use walk::{checked_folder_size, get_folder_size, EntryKind, WalkEntry};
