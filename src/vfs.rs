use vstd::prelude::*;

use crate::path::{spec_display_name, EntryPath, PathView};

verus! {

/// What the backend knows of an entry's kind; `Unknown` where its metadata
/// could not be read.
#[derive(Clone, Copy, Debug, PartialEq, Eq, Structural)]
pub enum FileKind {
    File,
    Directory,
    Unknown,
}

/// What an entry is: its path, its kind and whether it is marked.
pub struct EntryView {
    pub path: PathView,
    pub kind: FileKind,
    pub selected: bool,
}

/// One object of a listing: a file, a directory or a volume root.
#[derive(Clone, Debug, PartialEq, Eq)]
pub struct FileInfo {
    pub path: EntryPath,
    pub kind: FileKind,
    pub selected: bool,
}

impl View for FileInfo {
    type V = EntryView;

    open spec fn view(&self) -> EntryView {
        EntryView { path: self.path@, kind: self.kind, selected: self.selected }
    }
}

/// The name under which an entry is listed.
pub open spec fn entry_name(e: EntryView) -> Seq<char> {
    spec_display_name(e.path)
}

pub open spec fn entry_is_dir(e: EntryView) -> bool {
    e.kind == FileKind::Directory
}

pub open spec fn entry_is_file(e: EntryView) -> bool {
    e.kind == FileKind::File
}

impl FileInfo {
    /// An unmarked entry of the given kind.
    pub fn new(path: EntryPath, kind: FileKind) -> (r: FileInfo)
        ensures
            r@ == (EntryView { path: path@, kind, selected: false }),
    {
        FileInfo { path, kind, selected: false }
    }

    /// An equal entry.
    pub fn duplicate(&self) -> (r: FileInfo)
        ensures
            r@ == self@,
    {
        FileInfo { path: self.path.duplicate(), kind: self.kind, selected: self.selected }
    }
}

/// The operations of a browsable entry.
pub trait VfsFile {
    fn is_file(&self) -> bool;

    fn is_dir(&self) -> bool;

    fn path(&self) -> &EntryPath;

    fn selected(&self) -> bool;

    fn set_selected(&mut self, selected: bool);

    fn get_file_name(&self) -> &str;
}

impl VfsFile for FileInfo {
    fn is_file(&self) -> (r: bool)
        ensures
            r == entry_is_file(self@),
    {
        self.kind == FileKind::File
    }

    fn is_dir(&self) -> (r: bool)
        ensures
            r == entry_is_dir(self@),
    {
        self.kind == FileKind::Directory
    }

    fn path(&self) -> (r: &EntryPath)
        ensures
            r@ == self@.path,
    {
        &self.path
    }

    fn selected(&self) -> (r: bool)
        ensures
            r == self@.selected,
    {
        self.selected
    }

    fn set_selected(&mut self, selected: bool)
        ensures
            final(self)@ == (EntryView { selected, ..old(self)@ }),
    {
        self.selected = selected;
    }

    fn get_file_name(&self) -> (r: &str)
        ensures
            r@ == entry_name(self@),
    {
        self.path.display_name()
    }
}

/// The kind of a backend failure.
#[derive(Clone, Copy, Debug, PartialEq, Eq, Structural)]
pub enum ErrorKind {
    NotFound,
    AlreadyExists,
    PermissionDenied,
    Other,
}

/// A failure reported by a storage backend, kept as it came.
#[derive(Clone, Debug, PartialEq, Eq)]
pub struct VfsError {
    pub kind: ErrorKind,
    pub message: String,
}

/// The platform's additions to a listing.
#[derive(Clone, Copy, Debug, PartialEq, Eq, Structural)]
pub struct PlatformOptions {
    /// List names that start with a dot.
    pub show_hidden: bool,
    /// Put one entry per volume root ahead of the listing.
    pub show_drives: bool,
}

/// A predicate on names or path texts that decides what is accepted. Its
/// answer depends on the text alone, as `spec_accepts` states.
pub trait Filter {
    spec fn spec_accepts(&self, text: Seq<char>) -> bool;

    fn accepts(&self, text: &str) -> (r: bool)
        ensures
            r == self.spec_accepts(text@),
    ;
}

/// The filter that accepts every text.
#[derive(Clone, Copy, Debug, PartialEq, Eq, Structural)]
pub struct AcceptAll;

impl Filter for AcceptAll {
    open spec fn spec_accepts(&self, text: Seq<char>) -> bool {
        true
    }

    fn accepts(&self, text: &str) -> (r: bool) {
        true
    }
}

/// `suffix` ends `text`.
pub open spec fn is_suffix(suffix: Seq<char>, text: Seq<char>) -> bool {
    suffix.len() <= text.len() && text.skip(text.len() - suffix.len()) == suffix
}

/// Whether `text` ends with `suffix`.
pub fn ends_with(text: &str, suffix: &str) -> (r: bool)
    ensures
        r == is_suffix(suffix@, text@),
{
    let n = text.unicode_len();
    let m = suffix.unicode_len();
    if m > n {
        return false;
    }
    let off = n - m;
    let mut i: usize = 0;
    while i < m
        invariant
            n == text@.len(),
            m == suffix@.len(),
            off == n - m,
            i <= m,
            forall|k: int| 0 <= k < i ==> text@[off + k] == suffix@[k],
        decreases m - i,
    {
        if text.get_char(off + i) != suffix.get_char(i) {
            proof {
                assert(text@.skip(off as int)[i as int] != suffix@[i as int]);
            }
            return false;
        }
        i = i + 1;
    }
    proof {
        assert(text@.skip(off as int) =~= suffix@);
    }
    true
}

/// The filter that accepts the texts ending with one of its suffixes, such
/// as `.txt`.
#[derive(Clone, Debug, PartialEq, Eq)]
pub struct ExtensionFilter {
    pub extensions: Vec<String>,
}

impl Filter for ExtensionFilter {
    open spec fn spec_accepts(&self, text: Seq<char>) -> bool {
        exists|i: int| 0 <= i < self.extensions@.len() && is_suffix(#[trigger] self.extensions@[i]@, text)
    }

    fn accepts(&self, text: &str) -> (r: bool) {
        let mut i: usize = 0;
        while i < self.extensions.len()
            invariant
                i <= self.extensions@.len(),
                forall|k: int| 0 <= k < i ==> !is_suffix(#[trigger] self.extensions@[k]@, text@),
            decreases self.extensions@.len() - i,
        {
            if ends_with(text, self.extensions[i].as_str()) {
                return true;
            }
            i = i + 1;
        }
        false
    }
}

/// A storage backend: the real file system, or any store that behaves alike.
pub trait Vfs {
    /// Creates one directory level; never its parents.
    fn create_dir(&self, path: &EntryPath) -> Result<(), VfsError>;

    /// Moves the entry at `from` to `to`.
    fn rename(&self, from: &EntryPath, to: &EntryPath) -> Result<(), VfsError>;

    /// The entries directly inside `path`, in no particular order. Entries
    /// without metadata are left out unless `show_system_files` is set, and
    /// `show_files_filter` is applied to the paths of non-directories.
    fn read_folder<F: Filter>(
        &self,
        path: &EntryPath,
        show_system_files: bool,
        show_files_filter: &F,
        options: PlatformOptions,
    ) -> Result<Vec<FileInfo>, VfsError>;
}

} // verus!
