//! A file and folder picker controller for immediate-mode interfaces: the
//! dialog's state machine, its storage backend interface, the sorted listing,
//! the selection model and file name completion.

pub mod completion;
pub mod dialog;
pub mod listing;
pub mod path;
pub mod selection;
pub mod vfs;

pub use completion::PrefixTree;
pub use dialog::{
    complete_from_names, complete_text, completion_tree, Command, DialogTexts, DialogType, FileDialog, State,
};
pub use listing::{build_listing, sort_entries, ListingOptions};
pub use path::{is_drive_root, parse_path, EntryPath};
pub use vfs::{
    AcceptAll, ErrorKind, ExtensionFilter, FileInfo, FileKind, Filter, PlatformOptions, Vfs, VfsError, VfsFile,
};
