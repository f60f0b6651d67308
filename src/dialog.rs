use vstd::prelude::*;

use crate::completion::{has_name_with_prefix, is_completion, is_prefix, PrefixTree};
use crate::listing::{
    law_directories_first, law_folders_only, law_names_ascending, listed_roots, names_ascending,
    build_listing, dirs_first, is_listing_of, is_sorted, is_volume_root, lemma_listing_shape, views,
    ListingOptions,
};
use crate::path::{
    is_separator, parse_path, pending, spec_display_name, spec_parse, spec_text, EntryPath, PathView,
};
use crate::selection::{
    click_select, collect_marked, lemma_marks_keep_order, mark_span, marked_paths, plain_click,
    same_entries, span_select, toggle_click, toggle_select,
};
use crate::vfs::{
    entry_is_dir, entry_is_file, entry_name, AcceptAll, EntryView, FileInfo, FileKind, Filter, PlatformOptions,
    Vfs, VfsError, VfsFile,
};

verus! {

/// Dialog state.
#[derive(Clone, Copy, Debug, PartialEq, Eq, Structural)]
pub enum State {
    /// Is currently visible.
    Open,
    /// Is currently not visible.
    Closed,
    /// Was canceled.
    Cancelled,
    /// File was selected.
    Selected,
}

/// Dialog type.
#[derive(Clone, Copy, Debug, PartialEq, Eq, Structural)]
pub enum DialogType {
    SelectFolder,
    OpenFile,
    SaveFile,
}

/// The texts the dialog shows.
#[derive(Clone, Debug, PartialEq, Eq)]
pub struct DialogTexts {
    pub title: String,
    pub open_button: String,
    pub save_button: String,
    pub cancel_button: String,
    pub new_folder_button: String,
    pub new_folder_name: String,
    pub rename_button: String,
    pub refresh_button_hover: String,
    pub parent_folder_button_hover: String,
    pub file_label: String,
    pub show_hidden_checkbox: String,
}

/// The one action a frame may apply.
#[derive(Clone, Debug, PartialEq, Eq)]
pub enum Command {
    Cancel,
    CreateDirectory,
    Folder,
    Open(FileInfo),
    OpenSelected,
    BrowseDirectory(FileInfo),
    Refresh,
    Rename(FileInfo, EntryPath),
    Save(FileInfo),
    Select(FileInfo),
    MultiSelectRange(usize),
    MultiSelect(usize),
    MultiSelectSwitch(usize),
    UpDirectory,
    ShowHidden(bool),
}

/// What the dialog is at a given moment.
pub struct DialogView {
    pub state: State,
    pub kind: DialogType,
    /// The directory being browsed.
    pub path: PathView,
    /// The text of the directory field.
    pub path_edit: Seq<char>,
    /// The span of `path_edit`, in characters, that completion added.
    pub highlight: Option<(usize, usize)>,
    /// The text of the file name field.
    pub filename_edit: Seq<char>,
    /// The single selection.
    pub selected_file: Option<EntryView>,
    /// The listing, or the backend's failure.
    pub files: Result<Seq<EntryView>, VfsError>,
    /// The anchor of range selection.
    pub range_start: Option<usize>,
    pub texts: DialogTexts,
    pub multi_select: bool,
    pub show_hidden: bool,
    pub show_drives: bool,
    pub show_system_files: bool,
    pub resizable: bool,
    pub rename: bool,
    pub new_folder: bool,
    pub keep_on_top: bool,
}

/// A file or folder picker: its state machine over a storage backend `V`,
/// with `S` deciding which files are listed and `N` which names may be chosen.
pub struct FileDialog<V: Vfs, S: Filter = AcceptAll, N: Filter = AcceptAll> {
    path: EntryPath,
    path_edit: String,
    highlight: Option<(usize, usize)>,
    selected_file: Option<FileInfo>,
    filename_edit: String,
    texts: DialogTexts,
    files: Result<Vec<FileInfo>, VfsError>,
    root_count: usize,
    state: State,
    dialog_type: DialogType,
    show_files_filter: S,
    filename_filter: N,
    range_start: Option<usize>,
    resizable: bool,
    rename: bool,
    new_folder: bool,
    multi_select_enabled: bool,
    keep_on_top: bool,
    show_system_files: bool,
    show_drives: bool,
    show_hidden: bool,
    completion: PrefixTree,
    completion_depth: usize,
    fs: V,
}

pub open spec fn files_view(files: Result<Vec<FileInfo>, VfsError>) -> Result<Seq<EntryView>, VfsError> {
    match files {
        Ok(v) => Ok(views(v@)),
        Err(e) => Err(e),
    }
}

pub open spec fn option_view(f: Option<FileInfo>) -> Option<EntryView> {
    match f {
        Some(x) => Some(x@),
        None => None,
    }
}

/// A listing: `roots` volume roots ahead, then entries sorted directories
/// first and by name.
pub open spec fn listing_ok(s: Seq<EntryView>, roots: int) -> bool {
    &&& 0 <= roots <= s.len()
    &&& forall|i: int| 0 <= i < roots ==> entry_is_dir(#[trigger] s[i]) && is_volume_root(s[i])
    &&& is_sorted(s.skip(roots))
    &&& dirs_first(s)
}

impl<V: Vfs, S: Filter, N: Filter> View for FileDialog<V, S, N> {
    type V = DialogView;

    closed spec fn view(&self) -> DialogView {
        DialogView {
            state: self.state,
            kind: self.dialog_type,
            path: self.path@,
            path_edit: self.path_edit@,
            highlight: self.highlight,
            filename_edit: self.filename_edit@,
            selected_file: option_view(self.selected_file),
            files: files_view(self.files),
            range_start: self.range_start,
            texts: self.texts,
            multi_select: self.multi_select_enabled,
            show_hidden: self.show_hidden,
            show_drives: self.show_drives,
            show_system_files: self.show_system_files,
            resizable: self.resizable,
            rename: self.rename,
            new_folder: self.new_folder,
            keep_on_top: self.keep_on_top,
        }
    }
}

impl<V: Vfs, S: Filter, N: Filter> FileDialog<V, S, N> {
    /// The dialog's internal consistency: its listing is in order, the range
    /// anchor points into it, and the completion tree is sound.
    pub closed spec fn wf(&self) -> bool {
        &&& match self.files {
            Ok(v) => listing_ok(views(v@), self.root_count as int),
            Err(_) => true,
        }
        &&& match self.range_start {
            Some(a) => self.files matches Ok(v) && a < v@.len(),
            None => true,
        }
        &&& self.completion.wf()
    }

    /// The filter on the paths of listed files.
    pub closed spec fn show_filter(&self) -> S {
        self.show_files_filter
    }

    /// The filter on chosen file names.
    pub closed spec fn name_filter(&self) -> N {
        self.filename_filter
    }

    /// Whether the file name filter accepts `name`.
    pub open spec fn name_accepted(&self, name: Seq<char>) -> bool {
        self.name_filter().spec_accepts(name)
    }

    /// What the listing shows of a backend response: directories only in a
    /// folder dialog, and dot names, volume roots and system entries as set.
    pub open spec fn listing_options(&self) -> ListingOptions {
        ListingOptions {
            folders_only: self@.kind == DialogType::SelectFolder,
            show_hidden: self@.show_hidden,
            show_drives: self@.show_drives,
            show_system_files: self@.show_system_files,
        }
    }

    /// Whether `out` is what the listing shows for the backend response `raw`.
    pub open spec fn shows(&self, out: Seq<EntryView>, raw: Seq<EntryView>) -> bool {
        is_listing_of(out, raw, self.listing_options(), self.show_filter())
    }

    /// The listing, where there is one, is what the listing shows of some
    /// backend response, and no entry of it is marked.
    pub open spec fn listed_from_backend(&self) -> bool {
        self@.files matches Ok(out) ==> (exists|raw: Seq<EntryView>| #[trigger] self.shows(out, raw))
            && forall|i: int| 0 <= i < out.len() ==> !(#[trigger] out[i]).selected
    }

    /// The depth of the typed directory whose names completion draws from.
    pub closed spec fn completion_depth(&self) -> nat {
        self.completion_depth as nat
    }

    /// The names that completion currently draws from.
    pub closed spec fn completion_names(&self) -> Seq<Seq<char>> {
        self.completion@
    }

    /// The storage backend.
    pub closed spec fn backend(&self) -> V {
        self.fs
    }

    /// A listing shown from a backend response stays so while the listing
    /// options and the filter stay.
    pub proof fn lemma_listing_kept(a: &Self, b: &Self)
        requires
            a.listed_from_backend(),
            b@.files == a@.files,
            b.listing_options() == a.listing_options(),
            b.show_filter() == a.show_filter(),
        ensures
            b.listed_from_backend(),
    {
        if let Ok(out) = a@.files {
            let raw = choose|raw: Seq<EntryView>| #[trigger] a.shows(out, raw);
            assert(b.shows(out, raw));
        }
    }

    /// The same filters and backend.
    pub open spec fn same_config(&self, other: &Self) -> bool {
        &&& self.show_filter() == other.show_filter()
        &&& self.name_filter() == other.name_filter()
        &&& self.backend() == other.backend()
    }
}

/// The title shown for a dialog type, before the caller's own text.
pub open spec fn title_icon(kind: DialogType) -> Seq<char> {
    match kind {
        DialogType::SelectFolder => seq!['\u{1F4C1}', ' ', ' '],
        DialogType::OpenFile => seq!['\u{1F4C2}', ' ', ' '],
        DialogType::SaveFile => seq!['\u{1F4BE}', ' ', ' '],
    }
}

fn title_prefix(kind: DialogType) -> (r: String)
    ensures
        r@ == title_icon(kind),
{
    let r = match kind {
        DialogType::SelectFolder => String::from_str("\u{1F4C1}  "),
        DialogType::OpenFile => String::from_str("\u{1F4C2}  "),
        DialogType::SaveFile => String::from_str("\u{1F4BE}  "),
    };
    proof {
        reveal_strlit("\u{1F4C1}  ");
        reveal_strlit("\u{1F4C2}  ");
        reveal_strlit("\u{1F4BE}  ");
    }
    r
}

/// The built-in title of a dialog type, after its icon.
pub open spec fn title_text(kind: DialogType) -> Seq<char> {
    match kind {
        DialogType::SelectFolder => "Select Folder"@,
        DialogType::OpenFile => "Open File"@,
        DialogType::SaveFile => "Save File"@,
    }
}

/// The built-in texts.
pub open spec fn has_default_texts(t: DialogTexts, kind: DialogType) -> bool {
    &&& t.title@ == title_icon(kind) + title_text(kind)
    &&& t.open_button@ == "Open"@
    &&& t.save_button@ == "Save"@
    &&& t.cancel_button@ == "Cancel"@
    &&& t.new_folder_button@ == "New Folder"@
    &&& t.new_folder_name@ == "New folder"@
    &&& t.rename_button@ == "Rename"@
    &&& t.refresh_button_hover@ == "Refresh"@
    &&& t.parent_folder_button_hover@ == "Parent Folder"@
    &&& t.file_label@ == "File:"@
    &&& t.show_hidden_checkbox@ == "Show Hidden"@
}

fn default_title(kind: DialogType) -> (r: String)
    ensures
        r@ == title_icon(kind) + title_text(kind),
{
    let mut r = title_prefix(kind);
    match kind {
        DialogType::SelectFolder => r.append("Select Folder"),
        DialogType::OpenFile => r.append("Open File"),
        DialogType::SaveFile => r.append("Save File"),
    }
    r
}

fn default_texts(kind: DialogType) -> (r: DialogTexts)
    ensures
        has_default_texts(r, kind),
{
    DialogTexts {
        title: default_title(kind),
        open_button: String::from_str("Open"),
        save_button: String::from_str("Save"),
        cancel_button: String::from_str("Cancel"),
        new_folder_button: String::from_str("New Folder"),
        new_folder_name: String::from_str("New folder"),
        rename_button: String::from_str("Rename"),
        refresh_button_hover: String::from_str("Refresh"),
        parent_folder_button_hover: String::from_str("Parent Folder"),
        file_label: String::from_str("File:"),
        show_hidden_checkbox: String::from_str("Show Hidden"),
    }
}

/// Where a new dialog starts browsing: the given directory, the directory of
/// the given file, or `/`.
pub open spec fn initial_dir(initial: Option<EntryView>) -> PathView {
    match initial {
        None => PathView { root: seq!['/'], parts: Seq::<Seq<char>>::empty() },
        Some(f) => if f.kind == FileKind::File && f.path.parts.len() > 0 {
            PathView { root: f.path.root, parts: f.path.parts.drop_last() }
        } else {
            f.path
        },
    }
}

/// The file name a new dialog starts with: the given file's name, if any.
pub open spec fn initial_filename(initial: Option<EntryView>) -> Seq<char> {
    match initial {
        Some(f) => if f.kind == FileKind::File {
            entry_name(f)
        } else {
            Seq::<char>::empty()
        },
        None => Seq::<char>::empty(),
    }
}

impl<V: Vfs> FileDialog<V, AcceptAll, AcceptAll> {
    /// A closed dialog over the backend `fs`, starting at `initial` (a
    /// directory, or a file whose directory is browsed and whose name is
    /// proposed).
    pub fn new(dialog_type: DialogType, fs: V, initial: Option<FileInfo>) -> (r: Self)
        requires
            initial matches Some(f) && f.kind == FileKind::File ==> dialog_type
                != DialogType::SelectFolder,
        ensures
            r.wf(),
            r@.state == State::Closed,
            r@.kind == dialog_type,
            r@.path == initial_dir(option_view(initial)),
            r@.path_edit == spec_text(r@.path),
            r@.highlight is None,
            r@.filename_edit == initial_filename(option_view(initial)),
            r@.selected_file is None,
            r@.files == Ok::<Seq<EntryView>, VfsError>(Seq::<EntryView>::empty()),
            r@.range_start is None,
            !r@.multi_select,
            !r@.show_hidden,
            r@.show_drives,
            !r@.show_system_files,
            r@.resizable,
            r@.rename,
            r@.new_folder,
            !r@.keep_on_top,
            has_default_texts(r@.texts, dialog_type),
            r.show_filter() == AcceptAll,
            r.name_filter() == AcceptAll,
            forall|t: Seq<char>| r.name_accepted(t),
            r.backend() == fs,
    {
        let mut filename_edit = String::new();
        let path = match initial {
            None => EntryPath::unix_root(),
            Some(info) => {
                let mut path = info.path;
                if info.kind == FileKind::File {
                    filename_edit = String::from_str(path.display_name());
                    path.pop();
                }
                path
            },
        };
        let path_edit = path.to_text();
        let files: Vec<FileInfo> = Vec::new();
        let r = FileDialog {
            path,
            path_edit,
            highlight: None,
            selected_file: None,
            filename_edit,
            texts: default_texts(dialog_type),
            files: Ok(files),
            root_count: 0,
            state: State::Closed,
            dialog_type,
            show_files_filter: AcceptAll,
            filename_filter: AcceptAll,
            range_start: None,
            resizable: true,
            rename: true,
            new_folder: true,
            multi_select_enabled: false,
            keep_on_top: false,
            show_system_files: false,
            show_drives: true,
            show_hidden: false,
            completion: PrefixTree::new(),
            completion_depth: 0,
            fs,
        };
        proof {
            assert(views(files@) =~= Seq::<EntryView>::empty());
            assert(views(files@).skip(0) =~= Seq::<EntryView>::empty());
        }
        r
    }

    /// Create dialog that prompts the user to select a folder.
    pub fn select_folder(fs: V, initial_path: Option<FileInfo>) -> (r: Self)
        requires
            initial_path matches Some(f) ==> f.kind != FileKind::File,
        ensures
            r.wf(),
            r@.kind == DialogType::SelectFolder,
            r@.state == State::Closed,
            r@.files == Ok::<Seq<EntryView>, VfsError>(Seq::<EntryView>::empty()),
            r@.selected_file is None,
            has_default_texts(r@.texts, DialogType::SelectFolder),
            r.show_filter() == AcceptAll,
            r.name_filter() == AcceptAll,
            forall|t: Seq<char>| r.name_accepted(t),
            r.backend() == fs,
            r@.path == initial_dir(option_view(initial_path)),
            r@.filename_edit == Seq::<char>::empty(),
    {
        FileDialog::new(DialogType::SelectFolder, fs, initial_path)
    }

    /// Create dialog that prompts the user to open a file.
    pub fn open_file(fs: V, initial_path: Option<FileInfo>) -> (r: Self)
        ensures
            r.wf(),
            r@.kind == DialogType::OpenFile,
            r@.state == State::Closed,
            r@.files == Ok::<Seq<EntryView>, VfsError>(Seq::<EntryView>::empty()),
            r@.selected_file is None,
            has_default_texts(r@.texts, DialogType::OpenFile),
            r.show_filter() == AcceptAll,
            r.name_filter() == AcceptAll,
            forall|t: Seq<char>| r.name_accepted(t),
            r.backend() == fs,
            r@.path == initial_dir(option_view(initial_path)),
            r@.filename_edit == initial_filename(option_view(initial_path)),
    {
        FileDialog::new(DialogType::OpenFile, fs, initial_path)
    }

    /// Create dialog that prompts the user to save a file.
    pub fn save_file(fs: V, initial_path: Option<FileInfo>) -> (r: Self)
        ensures
            r.wf(),
            r@.kind == DialogType::SaveFile,
            r@.state == State::Closed,
            r@.files == Ok::<Seq<EntryView>, VfsError>(Seq::<EntryView>::empty()),
            r@.selected_file is None,
            has_default_texts(r@.texts, DialogType::SaveFile),
            r.show_filter() == AcceptAll,
            r.name_filter() == AcceptAll,
            forall|t: Seq<char>| r.name_accepted(t),
            r.backend() == fs,
            r@.path == initial_dir(option_view(initial_path)),
            r@.filename_edit == initial_filename(option_view(initial_path)),
    {
        FileDialog::new(DialogType::SaveFile, fs, initial_path)
    }
}

impl<V: Vfs, S: Filter, N: Filter> FileDialog<V, S, N> {
    /// Replaces the listing by what it shows of the backend response `raw`
    /// (a failure is kept as it came), and clears both selections.
    pub fn apply_listing(&mut self, raw: Result<Vec<FileInfo>, VfsError>)
        requires
            old(self).wf(),
        ensures
            final(self).wf(),
            final(self).same_config(old(self)),
            match raw {
                Ok(v) => final(self)@.files matches Ok(out) && final(self).shows(out, views(v@)),
                Err(e) => final(self)@.files == Err::<Seq<EntryView>, VfsError>(e),
            },
            final(self).listed_from_backend(),
            final(self)@ == (DialogView {
                files: final(self)@.files,
                path_edit: spec_text(old(self)@.path),
                highlight: None,
                selected_file: None,
                range_start: None,
                ..old(self)@
            }),
    {
        let o = ListingOptions {
            folders_only: self.dialog_type == DialogType::SelectFolder,
            show_hidden: self.show_hidden,
            show_drives: self.show_drives,
            show_system_files: self.show_system_files,
        };
        match raw {
            Ok(v) => {
                let ghost raw_views = views(v@);
                let (out, count) = build_listing(v, o, &self.show_files_filter);
                self.files = Ok(out);
                self.root_count = count;
                proof {
                    let outv = views(out@);
                    lemma_listing_shape(outv, raw_views, o, self.show_files_filter);
                    assert(self.shows(outv, raw_views));
                }
            },
            Err(e) => {
                self.files = Err(e);
                self.root_count = 0;
            },
        }
        self.path_edit = self.path.to_text();
        self.highlight = None;
        self.selected_file = None;
        self.range_start = None;
    }

    /// Lists the current directory again and clears both selections.
    pub fn refresh(&mut self)
        requires
            old(self).wf(),
        ensures
            final(self).wf(),
            final(self).same_config(old(self)),
            final(self).listed_from_backend(),
            final(self)@ == (DialogView {
                files: final(self)@.files,
                path_edit: spec_text(old(self)@.path),
                highlight: None,
                selected_file: None,
                range_start: None,
                ..old(self)@
            }),
    {
        let options = PlatformOptions { show_hidden: self.show_hidden, show_drives: self.show_drives };
        let raw = self.fs.read_folder(
            &self.path,
            self.show_system_files,
            &self.show_files_filter,
            options,
        );
        self.apply_listing(raw);
    }

    /// Opens the dialog.
    pub fn open(&mut self)
        requires
            old(self).wf(),
        ensures
            final(self).wf(),
            final(self).same_config(old(self)),
            final(self).listed_from_backend(),
            final(self)@ == (DialogView {
                state: State::Open,
                files: final(self)@.files,
                path_edit: spec_text(old(self)@.path),
                highlight: None,
                selected_file: None,
                range_start: None,
                ..old(self)@
            }),
    {
        self.state = State::Open;
        self.refresh();
    }

    /// Set the dialog's current opened path.
    pub fn set_path(&mut self, path: EntryPath)
        requires
            old(self).wf(),
        ensures
            final(self).wf(),
            final(self).same_config(old(self)),
            final(self).listed_from_backend(),
            final(self)@ == (DialogView {
                path: path@,
                files: final(self)@.files,
                path_edit: spec_text(path@),
                highlight: None,
                selected_file: None,
                range_start: None,
                ..old(self)@
            }),
    {
        self.path = path;
        self.refresh();
    }
}

impl<V: Vfs, S: Filter, N: Filter> FileDialog<V, S, N> {
    /// Whether the Save action is enabled: a file name is typed and the file
    /// name filter accepts it.
    pub open spec fn spec_can_save(&self) -> bool {
        self@.filename_edit.len() > 0 && self.name_accepted(self@.filename_edit)
    }

    /// Whether the Open action is enabled: with multiple selection, a marked
    /// entry whose name the filter accepts; else a selected entry that is no
    /// directory.
    pub open spec fn spec_can_open(&self) -> bool {
        if self@.multi_select {
            match self@.files {
                Ok(v) => exists|i: int|
                    0 <= i < v.len() && (#[trigger] v[i]).selected && self.name_accepted(
                        entry_name(v[i]),
                    ),
                Err(_) => false,
            }
        } else {
            match self@.selected_file {
                Some(f) => !entry_is_dir(f),
                None => false,
            }
        }
    }

    /// Whether the Rename action is enabled: a file (no directory) is
    /// selected and the typed name is another, non-empty one.
    pub open spec fn spec_can_rename(&self) -> bool {
        &&& self@.filename_edit.len() > 0
        &&& self@.selected_file matches Some(f)
        &&& !entry_is_dir(f)
        &&& entry_name(f) != self@.filename_edit
    }

    /// The folder a folder dialog confirms: the selected directory, else the
    /// directory being browsed.
    pub open spec fn spec_folder(&self) -> PathView {
        match self@.selected_file {
            Some(f) => if entry_is_dir(f) {
                f.path
            } else {
                self@.path
            },
            None => self@.path,
        }
    }

    /// Makes `file` the single selection; a file's name goes to the file
    /// name field.
    pub fn select(&mut self, file: Option<FileInfo>)
        requires
            old(self).wf(),
        ensures
            final(self).wf(),
            final(self).same_config(old(self)),
            final(self)@ == (DialogView {
                selected_file: option_view(file),
                filename_edit: match file {
                    Some(f) => if !entry_is_dir(f@) {
                        entry_name(f@)
                    } else {
                        old(self)@.filename_edit
                    },
                    None => old(self)@.filename_edit,
                },
                ..old(self)@
            }),
    {
        if let Some(info) = &file {
            if !info.is_dir() {
                self.filename_edit = String::from_str(info.get_file_name());
            }
        }
        self.selected_file = file;
    }

    /// A plain click on entry `idx` with multiple selection: every other mark
    /// cleared, the mark of `idx` flipped; `idx` becomes the anchor if it is
    /// marked now, and the anchor is cleared if not.
    pub fn select_reset_multi(&mut self, idx: usize)
        requires
            old(self).wf(),
            old(self)@.files matches Ok(v) ==> idx < v.len(),
        ensures
            final(self).wf(),
            final(self).same_config(old(self)),
            final(self)@ == match old(self)@.files {
                Ok(v) => DialogView {
                    files: Ok(plain_click(v, idx as int)),
                    range_start: if !v[idx as int].selected {
                        Some(idx)
                    } else {
                        None
                    },
                    ..old(self)@
                },
                Err(_) => old(self)@,
            },
    {
        let ghost before = views(self.files->Ok_0@);
        match &mut self.files {
            Ok(files) => {
                let now = click_select(files, idx);
                self.range_start = if now {
                    Some(idx)
                } else {
                    None
                };
                proof {
                    let after = views(self.files->Ok_0@);
                    assert(same_entries(before, after));
                    lemma_marks_keep_order(before, after, self.root_count as int);
                }
            },
            Err(_) => {},
        }
    }

    /// A toggle click on entry `idx` with multiple selection: its mark flipped,
    /// the others kept; `idx` becomes the anchor if it is marked now, and the
    /// anchor is cleared if not.
    pub fn select_switch_multi(&mut self, idx: usize)
        requires
            old(self).wf(),
            old(self)@.files matches Ok(v) ==> idx < v.len(),
        ensures
            final(self).wf(),
            final(self).same_config(old(self)),
            final(self)@ == match old(self)@.files {
                Ok(v) => DialogView {
                    files: Ok(toggle_click(v, idx as int)),
                    range_start: if !v[idx as int].selected {
                        Some(idx)
                    } else {
                        None
                    },
                    ..old(self)@
                },
                Err(_) => DialogView { range_start: None, ..old(self)@ },
            },
    {
        let ghost before = views(self.files->Ok_0@);
        match &mut self.files {
            Ok(files) => {
                let now = toggle_select(files, idx);
                self.range_start = if now {
                    Some(idx)
                } else {
                    None
                };
                proof {
                    let after = views(self.files->Ok_0@);
                    assert(same_entries(before, after));
                    lemma_marks_keep_order(before, after, self.root_count as int);
                }
            },
            Err(_) => {
                self.range_start = None;
            },
        }
    }

    /// A range click on entry `idx` with multiple selection: every entry
    /// between the anchor and `idx`, both included, marked, the others kept;
    /// nothing changes without an anchor, or for an index outside the listing.
    pub fn select_range(&mut self, idx: usize)
        requires
            old(self).wf(),
        ensures
            final(self).wf(),
            final(self).same_config(old(self)),
            final(self)@ == match (old(self)@.files, old(self)@.range_start) {
                (Ok(v), Some(a)) => if idx >= v.len() {
                    old(self)@
                } else {
                    DialogView {
                    files: Ok(
                        mark_span(
                            v,
                            if a < idx {
                                a as int
                            } else {
                                idx as int
                            },
                            if a < idx {
                                idx as int
                            } else {
                                a as int
                            },
                        ),
                    ),
                    ..old(self)@
                    }
                },
                _ => old(self)@,
            },
    {
        let ghost before = views(self.files->Ok_0@);
        if let Some(start) = self.range_start {
            match &mut self.files {
                Ok(files) => {
                    if idx >= files.len() {
                        return;
                    }
                    let lo = if start < idx {
                        start
                    } else {
                        idx
                    };
                    let hi = if start < idx {
                        idx
                    } else {
                        start
                    };
                    span_select(files, lo, hi);
                    proof {
                        let after = views(self.files->Ok_0@);
                        assert(same_entries(before, after));
                        lemma_marks_keep_order(before, after, self.root_count as int);
                    }
                },
                Err(_) => {},
            }
        }
    }

    /// The paths of the marked entries, in listing order; none where the
    /// listing failed.
    pub fn selection(&self) -> (r: Vec<EntryPath>)
        ensures
            r@.map_values(|p: EntryPath| p@) == match self@.files {
                Ok(v) => marked_paths(v),
                Err(_) => Seq::<PathView>::empty(),
            },
    {
        match &self.files {
            Ok(files) => collect_marked(files),
            Err(_) => {
                let r: Vec<EntryPath> = Vec::new();
                proof {
                    assert(r@.map_values(|p: EntryPath| p@) =~= Seq::<PathView>::empty());
                }
                r
            },
        }
    }

    /// Resulting file path: the path of the single selection.
    pub fn path(&self) -> (r: Option<&EntryPath>)
        ensures
            match self@.selected_file {
                Some(f) => r matches Some(p) && p@ == f.path,
                None => r is None,
            },
    {
        match &self.selected_file {
            Some(info) => Some(info.path()),
            None => None,
        }
    }

    pub fn can_save(&self) -> (r: bool)
        ensures
            r == self.spec_can_save(),
    {
        !self.filename_edit.as_str().is_empty() && self.filename_filter.accepts(self.filename_edit.as_str())
    }

    pub fn can_open(&self) -> (r: bool)
        ensures
            r == self.spec_can_open(),
    {
        if self.multi_select_enabled {
            if let Ok(files) = &self.files {
                let mut i: usize = 0;
                while i < files.len()
                    invariant
                        i <= files@.len(),
                        self.files == Ok::<Vec<FileInfo>, VfsError>(*files),
                        self.multi_select_enabled,
                        forall|k: int|
                            0 <= k < i ==> !((#[trigger] files@[k]).selected && self.name_accepted(
                                entry_name(files@[k]@),
                            )),
                    decreases files@.len() - i,
                {
                    if files[i].selected() && self.filename_filter.accepts(files[i].get_file_name()) {
                        proof {
                            let vs = views(files@);
                            assert(vs[i as int] == files@[i as int]@);
                            assert(self@.files == Ok::<Seq<EntryView>, VfsError>(vs));
                            assert(vs[i as int].selected && self.name_accepted(entry_name(vs[i as int])));
                        }
                        return true;
                    }
                    i = i + 1;
                }
                proof {
                    assert forall|k: int| 0 <= k < views(files@).len() implies !((#[trigger] views(files@)[k]).selected
                        && self.name_accepted(entry_name(views(files@)[k]))) by {
                        assert(views(files@)[k] == files@[k]@);
                    }
                }
            }
            false
        } else {
            match &self.selected_file {
                Some(file) => !file.is_dir(),
                None => false,
            }
        }
    }

    pub fn can_rename(&self) -> (r: bool)
        ensures
            r == self.spec_can_rename(),
    {
        if !self.filename_edit.as_str().is_empty() {
            if let Some(file) = &self.selected_file {
                if file.is_dir() {
                    return false;
                }
                let name = String::from_str(file.get_file_name());
                return name != self.filename_edit;
            }
        }
        false
    }

    /// The folder a folder dialog confirms.
    pub fn get_folder(&self) -> (r: &EntryPath)
        ensures
            r@ == self.spec_folder(),
    {
        if let Some(info) = &self.selected_file {
            if info.is_dir() {
                return info.path();
            }
        }
        &self.path
    }

    /// Acts on the single selection: a directory is entered; a file confirms
    /// an open dialog where Open is enabled; with multiple selection and
    /// nothing single-selected, an open dialog confirms where Open is enabled.
    pub fn open_selected(&mut self)
        requires
            old(self).wf(),
        ensures
            final(self).wf(),
            final(self).same_config(old(self)),
            match old(self)@.selected_file {
                Some(f) => if entry_is_dir(f) {
                    final(self)@ == (DialogView {
                        path: f.path,
                        files: final(self)@.files,
                        path_edit: spec_text(f.path),
                        highlight: None,
                        selected_file: None,
                        range_start: None,
                        ..old(self)@
                    }) && final(self).listed_from_backend()
                } else if old(self)@.kind == DialogType::OpenFile && old(self).spec_can_open() {
                    final(self)@ == (DialogView { state: State::Selected, ..old(self)@ })
                } else {
                    final(self)@ == old(self)@
                },
                None => if old(self)@.multi_select && old(self)@.kind == DialogType::OpenFile
                    && old(self).spec_can_open() {
                    final(self)@ == (DialogView { state: State::Selected, ..old(self)@ })
                } else {
                    final(self)@ == old(self)@
                },
            },
    {
        let can_open = self.can_open();
        match &self.selected_file {
            Some(info) => {
                if info.is_dir() {
                    let target = info.path().duplicate();
                    self.set_path(target);
                } else if self.dialog_type == DialogType::OpenFile && can_open {
                    self.state = State::Selected;
                }
            },
            None => {
                if self.multi_select_enabled && self.dialog_type == DialogType::OpenFile && can_open {
                    self.state = State::Selected;
                }
            },
        }
    }
}

/// An entry of the given path and kind, unmarked.
pub open spec fn fresh_entry(path: PathView, kind: FileKind) -> EntryView {
    EntryView { path, kind, selected: false }
}

/// The dialog after a refresh of directory `path` that left `files`.
pub open spec fn refreshed(d: DialogView, path: PathView, files: Result<Seq<EntryView>, VfsError>) -> DialogView {
    DialogView {
        path,
        files,
        path_edit: spec_text(path),
        highlight: None,
        selected_file: None,
        range_start: None,
        ..d
    }
}

/// The name a new folder gets: the typed file name, else the default one.
pub open spec fn new_folder_name(d: DialogView) -> Seq<char> {
    if d.filename_edit.len() > 0 {
        d.filename_edit
    } else {
        d.texts.new_folder_name@
    }
}

impl<V: Vfs, S: Filter, N: Filter> FileDialog<V, S, N> {
    /// Whether confirming the entry `f` opens it: with multiple selection,
    /// where Open is enabled; else where `f` is a file.
    pub open spec fn opens_with(&self, f: EntryView) -> bool {
        if self@.multi_select {
            self.spec_can_open()
        } else {
            entry_is_file(f)
        }
    }

    /// Cancelling: the dialog is cancelled.
    pub open spec fn effect_cancel(old: &Self, new: &Self) -> bool {
        new@ == (DialogView { state: State::Cancelled, ..old@ })
    }

    /// Creating a directory: on success the directory named by the file name
    /// field (or by default) is listed again and becomes the selection.
    pub open spec fn effect_create_directory(old: &Self, new: &Self, r: Result<(), VfsError>) -> bool {
        r is Ok ==> new@ == (DialogView {
            selected_file: Some(
                fresh_entry(
                    PathView {
                        root: old@.path.root,
                        parts: old@.path.parts.push(new_folder_name(old@)),
                    },
                    FileKind::Directory,
                ),
            ),
            ..refreshed(old@, old@.path, new@.files)
        }) && new.listed_from_backend()
    }

    /// Confirming a folder: the selected directory, or else the one browsed.
    pub open spec fn effect_folder(old: &Self, new: &Self) -> bool {
        new@ == (DialogView {
            selected_file: Some(fresh_entry(old.spec_folder(), FileKind::Directory)),
            state: State::Selected,
            ..old@
        })
    }

    /// Opening an entry: a directory is entered; a file becomes the selection,
    /// its name goes to the file name field, and an open dialog confirms
    /// where that opens it; an entry of unknown kind changes nothing.
    pub open spec fn effect_open(old: &Self, new: &Self, f: FileInfo) -> bool {
        if entry_is_dir(f@) {
            new@ == refreshed(old@, f@.path, new@.files) && new.listed_from_backend()
        } else if !entry_is_file(f@) {
            new@ == old@
        } else {
            new@ == (DialogView {
                selected_file: Some(f@),
                filename_edit: entry_name(f@),
                state: if old@.kind == DialogType::OpenFile && old.opens_with(f@) {
                    State::Selected
                } else {
                    old@.state
                },
                ..old@
            })
        }
    }

    /// Browsing an entry: as opening it, but the file name field is kept.
    pub open spec fn effect_browse_directory(old: &Self, new: &Self, f: FileInfo) -> bool {
        if entry_is_dir(f@) {
            new@ == refreshed(old@, f@.path, new@.files) && new.listed_from_backend()
        } else if !entry_is_file(f@) {
            new@ == old@
        } else {
            new@ == (DialogView {
                selected_file: Some(f@),
                state: if old@.kind == DialogType::OpenFile && old.opens_with(f@) {
                    State::Selected
                } else {
                    old@.state
                },
                ..old@
            })
        }
    }

    /// Acting on the selection, as `open_selected` does.
    pub open spec fn effect_open_selected(old: &Self, new: &Self) -> bool {
        match old@.selected_file {
            Some(f) => if entry_is_dir(f) {
                new@ == refreshed(old@, f.path, new@.files) && new.listed_from_backend()
            } else if old@.kind == DialogType::OpenFile && old.spec_can_open() {
                new@ == (DialogView { state: State::Selected, ..old@ })
            } else {
                new@ == old@
            },
            None => if old@.multi_select && old@.kind == DialogType::OpenFile
                && old.spec_can_open() {
                new@ == (DialogView { state: State::Selected, ..old@ })
            } else {
                new@ == old@
            },
        }
    }

    /// Refreshing: the directory is listed again and both selections cleared.
    pub open spec fn effect_refresh(old: &Self, new: &Self) -> bool {
        new@ == refreshed(old@, old@.path, new@.files) && new.listed_from_backend()
    }

    /// Renaming: on success the directory is listed again and the renamed
    /// entry becomes the selection.
    pub open spec fn effect_rename(old: &Self, new: &Self, from: FileInfo, to: EntryPath, r: Result<(), VfsError>) -> bool {
        r is Ok ==> new@ == (DialogView {
            selected_file: Some(fresh_entry(to@, from.kind)),
            filename_edit: if from.kind != FileKind::Directory {
                crate::path::spec_display_name(to@)
            } else {
                old@.filename_edit
            },
            ..refreshed(old@, old@.path, new@.files)
        }) && new.listed_from_backend()
    }

    /// Saving: where Save is enabled, the entry is confirmed.
    pub open spec fn effect_save(old: &Self, new: &Self, f: FileInfo) -> bool {
        if old.spec_can_save() {
            new@ == (DialogView {
                selected_file: Some(f@),
                state: State::Selected,
                ..old@
            })
        } else {
            new@ == old@
        }
    }

    /// Selecting an entry, as `select` does.
    pub open spec fn effect_select(old: &Self, new: &Self, f: FileInfo) -> bool {
        new@ == (DialogView {
            selected_file: Some(f@),
            filename_edit: if !entry_is_dir(f@) {
                entry_name(f@)
            } else {
                old@.filename_edit
            },
            ..old@
        })
    }

    /// A range click, as `select_range` does; an index outside the listing
    /// changes nothing.
    pub open spec fn effect_multi_select_range(old: &Self, new: &Self, idx: usize) -> bool {
        match (old@.files, old@.range_start) {
            (Ok(v), Some(a)) => if idx < v.len() {
                new@ == (DialogView {
                    files: Ok(
                        mark_span(
                            v,
                            if a < idx {
                                a as int
                            } else {
                                idx as int
                            },
                            if a < idx {
                                idx as int
                            } else {
                                a as int
                            },
                        ),
                    ),
                    ..old@
                })
            } else {
                new@ == old@
            },
            _ => new@ == old@,
        }
    }

    /// A plain click, as `select_reset_multi` does; an index outside the
    /// listing changes nothing.
    pub open spec fn effect_multi_select(old: &Self, new: &Self, idx: usize) -> bool {
        match old@.files {
            Ok(v) => if idx < v.len() {
                new@ == (DialogView {
                    files: Ok(plain_click(v, idx as int)),
                    range_start: if !v[idx as int].selected {
                        Some(idx)
                    } else {
                        None
                    },
                    ..old@
                })
            } else {
                new@ == old@
            },
            Err(_) => new@ == old@,
        }
    }

    /// A toggle click, as `select_switch_multi` does; an index outside the
    /// listing changes nothing.
    pub open spec fn effect_multi_select_switch(old: &Self, new: &Self, idx: usize) -> bool {
        match old@.files {
            Ok(v) => if idx < v.len() {
                new@ == (DialogView {
                    files: Ok(toggle_click(v, idx as int)),
                    range_start: if !v[idx as int].selected {
                        Some(idx)
                    } else {
                        None
                    },
                    ..old@
                })
            } else {
                new@ == old@
            },
            Err(_) => new@ == old@,
        }
    }

    /// Going up: the parent directory, where there is one, is listed.
    pub open spec fn effect_up_directory(old: &Self, new: &Self) -> bool {
        if old@.path.parts.len() > 0 {
            new@ == refreshed(
                old@,
                PathView {
                    root: old@.path.root,
                    parts: old@.path.parts.drop_last(),
                },
                new@.files,
            ) && new.listed_from_backend()
        } else {
            new@ == old@
        }
    }

    /// Showing or hiding dot names: the directory is listed again.
    pub open spec fn effect_show_hidden(old: &Self, new: &Self, show: bool) -> bool {
        new@ == (DialogView {
            show_hidden: show,
            ..refreshed(old@, old@.path, new@.files)
        }) && new.listed_from_backend()
    }

    /// What applying `cmd` to `old` leaves, `new`, with the result `r`.
    pub open spec fn command_effect(old: &Self, new: &Self, cmd: Command, r: Result<(), VfsError>) -> bool {
        match cmd {
            Command::Cancel => Self::effect_cancel(old, new),
            Command::CreateDirectory => Self::effect_create_directory(old, new, r),
            Command::Folder => Self::effect_folder(old, new),
            Command::Open(f) => Self::effect_open(old, new, f),
            Command::BrowseDirectory(f) => Self::effect_browse_directory(old, new, f),
            Command::OpenSelected => Self::effect_open_selected(old, new),
            Command::Refresh => Self::effect_refresh(old, new),
            Command::Rename(from, to) => Self::effect_rename(old, new, from, to, r),
            Command::Save(f) => Self::effect_save(old, new, f),
            Command::Select(f) => Self::effect_select(old, new, f),
            Command::MultiSelectRange(idx) => Self::effect_multi_select_range(old, new, idx),
            Command::MultiSelect(idx) => Self::effect_multi_select(old, new, idx),
            Command::MultiSelectSwitch(idx) => Self::effect_multi_select_switch(old, new, idx),
            Command::UpDirectory => Self::effect_up_directory(old, new),
            Command::ShowHidden(show) => Self::effect_show_hidden(old, new, show),
        }
    }

    /// Applies the frame's command. Only creating a directory and renaming
    /// can fail; they then report the backend's failure and change nothing.
    pub fn apply(&mut self, cmd: Command) -> (r: Result<(), VfsError>)
        requires
            old(self).wf(),
        ensures
            final(self).wf(),
            final(self).same_config(old(self)),
            r is Err ==> final(self)@ == old(self)@,
            Self::command_effect(old(self), final(self), cmd, r),
    {
        match cmd {
            Command::Cancel => {
                self.cancel();
                Ok(())
            },
            Command::CreateDirectory => self.create_directory(),
            Command::Folder => {
                self.confirm_folder();
                Ok(())
            },
            Command::Open(info) => {
                self.open_entry(info);
                Ok(())
            },
            Command::OpenSelected => {
                self.open_current();
                Ok(())
            },
            Command::BrowseDirectory(dir) => {
                self.browse_entry(dir);
                Ok(())
            },
            Command::Save(file) => {
                self.save_entry(file);
                Ok(())
            },
            Command::Refresh => {
                self.list_again();
                Ok(())
            },
            Command::UpDirectory => {
                self.go_up();
                Ok(())
            },
            Command::Rename(from, to) => self.rename_entry(from, to),
            Command::Select(info) => {
                self.select_entry(info);
                Ok(())
            },
            Command::MultiSelect(idx) => {
                self.multi_click(idx);
                Ok(())
            },
            Command::MultiSelectRange(idx) => {
                self.multi_range(idx);
                Ok(())
            },
            Command::MultiSelectSwitch(idx) => {
                self.multi_toggle(idx);
                Ok(())
            },
            Command::ShowHidden(show) => {
                self.set_show_hidden(show);
                Ok(())
            },
        }
    }

    /// Cancels the dialog.
    fn cancel(&mut self)
        requires
            old(self).wf(),
        ensures
            final(self).wf(),
            final(self).same_config(old(self)),
            Self::effect_cancel(old(self), final(self)),
    {
        self.state = State::Cancelled;
    }

    /// Acts on the selection.
    fn open_current(&mut self)
        requires
            old(self).wf(),
        ensures
            final(self).wf(),
            final(self).same_config(old(self)),
            Self::effect_open_selected(old(self), final(self)),
    {
        self.open_selected();
    }

    /// Lists the directory again.
    fn list_again(&mut self)
        requires
            old(self).wf(),
        ensures
            final(self).wf(),
            final(self).same_config(old(self)),
            Self::effect_refresh(old(self), final(self)),
    {
        self.refresh();
    }

    /// Makes `f` the single selection.
    fn select_entry(&mut self, f: FileInfo)
        requires
            old(self).wf(),
        ensures
            final(self).wf(),
            final(self).same_config(old(self)),
            Self::effect_select(old(self), final(self), f),
    {
        self.select(Some(f));
    }

    /// A plain click, where `idx` is in the listing.
    fn multi_click(&mut self, idx: usize)
        requires
            old(self).wf(),
        ensures
            final(self).wf(),
            final(self).same_config(old(self)),
            Self::effect_multi_select(old(self), final(self), idx),
    {
        if self.index_in_listing(idx) {
            self.select_reset_multi(idx);
        }
    }

    /// A toggle click, where `idx` is in the listing.
    fn multi_toggle(&mut self, idx: usize)
        requires
            old(self).wf(),
        ensures
            final(self).wf(),
            final(self).same_config(old(self)),
            Self::effect_multi_select_switch(old(self), final(self), idx),
    {
        if self.index_in_listing(idx) {
            self.select_switch_multi(idx);
        }
    }

    /// A range click, where `idx` is in the listing.
    fn multi_range(&mut self, idx: usize)
        requires
            old(self).wf(),
        ensures
            final(self).wf(),
            final(self).same_config(old(self)),
            Self::effect_multi_select_range(old(self), final(self), idx),
    {
        if self.index_in_listing(idx) {
            self.select_range(idx);
        }
    }

    /// Enters a directory, or selects a file and confirms an open dialog
    /// where that opens it.
    fn open_entry(&mut self, f: FileInfo)
        requires
            old(self).wf(),
        ensures
            final(self).wf(),
            final(self).same_config(old(self)),
            Self::effect_open(old(self), final(self), f),
    {
        let ghost f_view = f@;
        if f.kind == FileKind::Unknown {
            return;
        }
        self.select(Some(f));
        proof {
            if !entry_is_dir(f_view) && self@.multi_select {
                assert(self.spec_can_open() == old(self).spec_can_open());
            }
        }
        self.open_selected();
    }

    /// Makes `f` the single selection without touching the file name field,
    /// then acts on it as `open_selected` does.
    fn browse_entry(&mut self, f: FileInfo)
        requires
            old(self).wf(),
        ensures
            final(self).wf(),
            final(self).same_config(old(self)),
            Self::effect_browse_directory(old(self), final(self), f),
    {
        let ghost f_view = f@;
        if f.kind == FileKind::Unknown {
            return;
        }
        self.selected_file = Some(f);
        proof {
            if !entry_is_dir(f_view) && self@.multi_select {
                assert(self.spec_can_open() == old(self).spec_can_open());
            }
        }
        self.open_selected();
    }

    /// Confirms a save where Save is enabled.
    fn save_entry(&mut self, f: FileInfo)
        requires
            old(self).wf(),
        ensures
            final(self).wf(),
            final(self).same_config(old(self)),
            Self::effect_save(old(self), final(self), f),
    {
        if self.can_save() {
            self.selected_file = Some(f);
            self.state = State::Selected;
        }
    }

    /// Confirms a folder dialog with its folder.
    fn confirm_folder(&mut self)
        requires
            old(self).wf(),
        ensures
            final(self).wf(),
            final(self).same_config(old(self)),
            Self::effect_folder(old(self), final(self)),
    {
        let folder = self.get_folder().duplicate();
        self.selected_file = Some(FileInfo::new(folder, FileKind::Directory));
        self.state = State::Selected;
    }

    /// Goes to the parent directory, if there is one.
    fn go_up(&mut self)
        requires
            old(self).wf(),
        ensures
            final(self).wf(),
            final(self).same_config(old(self)),
            Self::effect_up_directory(old(self), final(self)),
    {
        if self.path.pop() {
            self.refresh();
        }
    }

    /// Shows or hides names that start with a dot, and lists again.
    fn set_show_hidden(&mut self, show: bool)
        requires
            old(self).wf(),
        ensures
            final(self).wf(),
            final(self).same_config(old(self)),
            Self::effect_show_hidden(old(self), final(self), show),
    {
        self.show_hidden = show;
        self.refresh();
    }

    /// The path of the directory that New Folder creates: the typed file
    /// name, else the default folder name, in the directory being browsed.
    pub fn new_folder_path(&self) -> (r: EntryPath)
        ensures
            r@ == (PathView {
                root: self@.path.root,
                parts: self@.path.parts.push(new_folder_name(self@)),
            }),
    {
        if self.filename_edit.as_str().is_empty() {
            self.path.join(self.texts.new_folder_name.as_str())
        } else {
            self.path.join(self.filename_edit.as_str())
        }
    }

    /// Creates a directory in the one being browsed, named by the file name
    /// field or else by default; on success lists again and selects it.
    fn create_directory(&mut self) -> (r: Result<(), VfsError>)
        requires
            old(self).wf(),
        ensures
            final(self).wf(),
            final(self).same_config(old(self)),
            Self::effect_create_directory(old(self), final(self), r),
            r is Err ==> final(self)@ == old(self)@,
    {
        let target = self.new_folder_path();
        match self.fs.create_dir(&target) {
            Ok(_) => {
                self.refresh();
                let ghost listed = *self;
                self.select(Some(FileInfo::new(target, FileKind::Directory)));
                proof {
                    Self::lemma_listing_kept(&listed, self);
                }
                Ok(())
            },
            Err(e) => Err(e),
        }
    }

    /// Renames `from` to `to`; on success lists again and selects the
    /// renamed entry.
    fn rename_entry(&mut self, from: FileInfo, to: EntryPath) -> (r: Result<(), VfsError>)
        requires
            old(self).wf(),
        ensures
            final(self).wf(),
            final(self).same_config(old(self)),
            Self::effect_rename(old(self), final(self), from, to, r),
            r is Err ==> final(self)@ == old(self)@,
    {
        match self.fs.rename(from.path(), &to) {
            Ok(_) => {
                self.refresh();
                let ghost listed = *self;
                self.select(Some(FileInfo::new(to, from.kind)));
                proof {
                    Self::lemma_listing_kept(&listed, self);
                }
                Ok(())
            },
            Err(e) => Err(e),
        }
    }

    /// Whether `idx` is an index of the listing; `true` where the listing
    /// failed, as there is nothing to mark then.
    fn index_in_listing(&self, idx: usize) -> (r: bool)
        ensures
            r == match self@.files {
                Ok(v) => idx < v.len(),
                Err(_) => true,
            },
    {
        match &self.files {
            Ok(files) => idx < files.len(),
            Err(_) => true,
        }
    }

    /// The start of a frame: whether the dialog is shown in it. An open
    /// dialog is cancelled by Escape (and still shown this frame); a
    /// cancelled or confirmed one is reported once and then closes.
    pub fn begin_frame(&mut self, escape_pressed: bool) -> (r: bool)
        requires
            old(self).wf(),
        ensures
            final(self).wf(),
            final(self).same_config(old(self)),
            r == (old(self)@.state == State::Open),
            final(self)@ == (DialogView {
                state: if old(self)@.state != State::Open {
                    State::Closed
                } else if escape_pressed {
                    State::Cancelled
                } else {
                    State::Open
                },
                ..old(self)@
            }),
    {
        if self.state != State::Open {
            self.state = State::Closed;
            return false;
        }
        if escape_pressed {
            self.state = State::Cancelled;
        }
        true
    }

    /// The end of a frame in which the dialog was shown: closing its window
    /// cancels it.
    pub fn end_frame(&mut self, window_open: bool)
        requires
            old(self).wf(),
        ensures
            final(self).wf(),
            final(self).same_config(old(self)),
            final(self)@ == (DialogView {
                state: if window_open {
                    old(self)@.state
                } else {
                    State::Cancelled
                },
                ..old(self)@
            }),
    {
        if !window_open {
            self.state = State::Cancelled;
        }
    }
}

/// The number of separators in a typed path: the depth of its directory.
pub open spec fn separator_count(t: Seq<char>) -> nat
    decreases t.len(),
{
    if t.len() == 0 {
        0
    } else if is_separator(t.last()) {
        separator_count(t.drop_last()) + 1
    } else {
        separator_count(t.drop_last())
    }
}

/// The sibling path of `p` named `name`.
pub open spec fn sibling_path(p: PathView, name: Seq<char>) -> PathView {
    PathView {
        root: p.root,
        parts: if p.parts.len() > 0 {
            p.parts.drop_last().push(name)
        } else {
            p.parts.push(name)
        },
    }
}

/// The depth of a typed path and where its last component starts.
fn typed_position(text: &str) -> (r: (usize, usize))
    ensures
        r.0 == separator_count(text@),
        r.1 + pending(text@).len() == text@.len(),
        text@.skip(r.1 as int) == pending(text@),
{
    let n = text.unicode_len();
    let mut depth: usize = 0;
    let mut start: usize = 0;
    let mut i: usize = 0;
    proof {
        assert(text@.take(0) =~= Seq::<char>::empty());
    }
    while i < n
        invariant
            n == text@.len(),
            i <= n,
            start <= i,
            depth == separator_count(text@.take(i as int)),
            depth <= i,
            text@.subrange(start as int, i as int) == pending(text@.take(i as int)),
        decreases n - i,
    {
        let c = text.get_char(i);
        proof {
            assert(text@.take(i + 1).drop_last() =~= text@.take(i as int));
            assert(text@.take(i + 1).last() == c);
        }
        if c == '/' || c == '\\' {
            depth = depth + 1;
            start = i + 1;
            proof {
                assert(text@.subrange(start as int, start as int) =~= pending(text@.take(i + 1)));
            }
        } else {
            proof {
                assert(text@.subrange(start as int, i + 1) =~= pending(text@.take(i as int)).push(c));
            }
        }
        i = i + 1;
    }
    proof {
        assert(text@.take(n as int) =~= text@);
        assert(text@.skip(start as int) =~= text@.subrange(start as int, n as int));
    }
    (depth, start)
}

/// What completion makes of the typed `text` from `names`: the text as it
/// is where the edit deleted or no name starts with the last component;
/// else the text with the completion of that component appended, the
/// appended span marked where there is one.
pub open spec fn completed_text(
    names: Seq<Seq<char>>,
    text: Seq<char>,
    deleted: bool,
    out: Seq<char>,
    highlight: Option<(usize, usize)>,
) -> bool {
    let seg = pending(text);
    if deleted || !has_name_with_prefix(names, seg) {
        out == text && highlight is None
    } else {
        let added = out.skip(text.len() as int);
        &&& is_prefix(text, out)
        &&& is_completion(names, seg, seg + added)
        &&& highlight == if added.len() > 0 {
            Some((text.len() as usize, out.len() as usize))
        } else {
            None
        }
    }
}

/// The names of the entries, in order.
pub open spec fn entry_names(s: Seq<EntryView>) -> Seq<Seq<char>> {
    s.map_values(|e: EntryView| entry_name(e))
}

/// `names` may be the sibling names of the directory typed as `dir`: none
/// where the text names no directory, else the names of some listing of it.
pub open spec fn sibling_names(dir: Seq<char>, names: Seq<Seq<char>>) -> bool {
    match spec_parse(dir) {
        None => names == Seq::<Seq<char>>::empty(),
        Some(_) => exists|raw: Seq<EntryView>| #[trigger] entry_names(raw) == names,
    }
}

/// The completion tree of the names of a backend response.
pub fn completion_tree(entries: &Vec<FileInfo>) -> (r: PrefixTree)
    ensures
        r.wf(),
        r@ == entry_names(views(entries@)),
{
    let mut names: Vec<String> = Vec::new();
    let mut i: usize = 0;
    while i < entries.len()
        invariant
            i <= entries@.len(),
            names@.map_values(|s: String| s@) == entry_names(views(entries@).take(i as int)),
        decreases entries@.len() - i,
    {
        let ghost before = names@.map_values(|s: String| s@);
        let name = String::from_str(entries[i].get_file_name());
        names.push(name);
        proof {
            assert(views(entries@)[i as int] == entries@[i as int]@);
            assert(name@ == entry_name(views(entries@)[i as int]));
            assert(views(entries@).take(i + 1) =~= views(entries@).take(i as int).push(views(entries@)[i as int]));
            assert(names@.map_values(|s: String| s@) =~= before.push(name@));
            assert(names@.map_values(|s: String| s@) =~= entry_names(views(entries@).take(i + 1)));
        }
        i = i + 1;
    }
    proof {
        assert(views(entries@).take(entries@.len() as int) =~= views(entries@));
    }
    PrefixTree::from_names(&names)
}

/// Completes the last component of the typed `text` from the names of
/// `tree`, unless the edit deleted text; also the span that was added.
pub fn complete_text(tree: &PrefixTree, text: &str, deleted: bool) -> (r: (String, Option<(usize, usize)>))
    requires
        tree.wf(),
    ensures
        completed_text(tree@, text@, deleted, r.0@, r.1),
{
    let (_, start) = typed_position(text);
    let len = text.unicode_len();
    let segment = text.substring_char(start, len);
    proof {
        assert(segment@ =~= pending(text@));
        assert(text@.take(len as int) =~= text@);
        assert(text@.skip(len as int) =~= Seq::<char>::empty());
    }
    if deleted {
        return (String::from_str(text), None);
    }
    match tree.complete(segment) {
        None => (String::from_str(text), None),
        Some(done) => {
            let seg_len = len - start;
            let done_len = done.unicode_len();
            proof {
                assert(is_prefix(segment@, done@));
            }
            if done_len > seg_len {
                let added = done.as_str().substring_char(seg_len, done_len);
                let mut full = String::from_str(text);
                full.append(added);
                let full_len = full.unicode_len();
                proof {
                    assert(full@.skip(len as int) =~= added@);
                    assert(segment@ + added@ =~= done@);
                    assert(full@.take(len as int) =~= text@);
                }
                (full, Some((len, full_len)))
            } else {
                proof {
                    assert(segment@ + Seq::<char>::empty() =~= done@);
                }
                (String::from_str(text), None)
            }
        },
    }
}

/// The completion of the typed `typed` from `names`: `None` where no name
/// starts with it.
pub fn complete_from_names(names: &Vec<String>, typed: &str) -> (r: Option<String>)
    ensures
        r is None <==> !has_name_with_prefix(names@.map_values(|s: String| s@), typed@),
        r matches Some(s) ==> is_completion(names@.map_values(|s: String| s@), typed@, s@),
{
    let tree = PrefixTree::from_names(names);
    tree.complete(typed)
}

impl<V: Vfs, S: Filter, N: Filter> FileDialog<V, S, N> {
    /// The command of a click on entry `idx`: with multiple selection a range,
    /// toggle or plain click by the modifiers held, else selecting the entry.
    pub fn click_command(&self, idx: usize, range_modifier: bool, toggle_modifier: bool) -> (r: Option<Command>)
        ensures
            match self@.files {
                Ok(v) => if idx >= v.len() {
                    r is None
                } else if self@.multi_select {
                    r == Some(
                        if range_modifier {
                            Command::MultiSelectRange(idx)
                        } else if toggle_modifier {
                            Command::MultiSelectSwitch(idx)
                        } else {
                            Command::MultiSelect(idx)
                        },
                    )
                } else {
                    r matches Some(Command::Select(f)) && f@ == v[idx as int]
                },
                Err(_) => r is None,
            },
    {
        match &self.files {
            Ok(files) => {
                if idx >= files.len() {
                    return None;
                }
                if self.multi_select_enabled {
                    if range_modifier {
                        Some(Command::MultiSelectRange(idx))
                    } else if toggle_modifier {
                        Some(Command::MultiSelectSwitch(idx))
                    } else {
                        Some(Command::MultiSelect(idx))
                    }
                } else {
                    let f = files[idx].duplicate();
                    proof {
                        assert(views(files@)[idx as int] == files@[idx as int]@);
                    }
                    Some(Command::Select(f))
                }
            },
            Err(_) => None,
        }
    }

    /// The command of a double click on entry `idx`: a folder dialog acts on
    /// its selection; the others enter a directory, and open or save a file
    /// where the typed file name is accepted.
    pub fn double_click_command(&self, idx: usize) -> (r: Option<Command>)
        ensures
            match self@.files {
                Ok(v) => if idx >= v.len() {
                    r is None
                } else {
                    let e = v[idx as int];
                    let accepted = self.name_accepted(self@.filename_edit);
                    match self@.kind {
                        DialogType::SelectFolder => r == Some(Command::OpenSelected),
                        DialogType::OpenFile => if entry_is_dir(e) {
                            r matches Some(Command::BrowseDirectory(f)) && f@ == e
                        } else if accepted {
                            r matches Some(Command::Open(f)) && f@ == e
                        } else {
                            r is None
                        },
                        DialogType::SaveFile => if entry_is_dir(e) {
                            r == Some(Command::OpenSelected)
                        } else if accepted {
                            r matches Some(Command::Save(f)) && f@ == e
                        } else {
                            r is None
                        },
                    }
                },
                Err(_) => r is None,
            },
    {
        match &self.files {
            Ok(files) => {
                if idx >= files.len() {
                    return None;
                }
                proof {
                    assert(views(files@)[idx as int] == files@[idx as int]@);
                }
                let info = &files[idx];
                match self.dialog_type {
                    DialogType::SelectFolder => Some(Command::OpenSelected),
                    DialogType::OpenFile => {
                        if info.is_dir() {
                            Some(Command::BrowseDirectory(info.duplicate()))
                        } else if self.filename_filter.accepts(self.filename_edit.as_str()) {
                            Some(Command::Open(info.duplicate()))
                        } else {
                            None
                        }
                    },
                    DialogType::SaveFile => {
                        if info.is_dir() {
                            Some(Command::OpenSelected)
                        } else if self.filename_filter.accepts(self.filename_edit.as_str()) {
                            Some(Command::Save(info.duplicate()))
                        } else {
                            None
                        }
                    },
                }
            },
            Err(_) => None,
        }
    }

    /// The command of the Rename button: the selection renamed to the typed
    /// name, where Rename is enabled.
    pub fn rename_command(&self) -> (r: Option<Command>)
        ensures
            self.spec_can_rename() ==> (r matches Some(Command::Rename(from, to)) && self@.selected_file
                == Some(from@) && to@ == sibling_path(from@.path, self@.filename_edit)),
            !self.spec_can_rename() ==> r is None,
    {
        if !self.can_rename() {
            return None;
        }
        match &self.selected_file {
            Some(from) => {
                let to = from.path().with_file_name(self.filename_edit.as_str());
                Some(Command::Rename(from.duplicate(), to))
            },
            None => None,
        }
    }

    /// The path that the typed file name names in the current directory.
    pub fn target_path(&self) -> (r: EntryPath)
        ensures
            r@ == (PathView { root: self@.path.root, parts: self@.path.parts.push(self@.filename_edit) }),
    {
        self.path.join(self.filename_edit.as_str())
    }

    /// The command of Enter in the file name field, given what kind of
    /// entry the typed name names (`None`: nothing there). Nothing unless the
    /// name is accepted; a folder dialog confirms; an open dialog opens an
    /// existing entry; a save dialog enters a directory and saves otherwise.
    pub fn filename_entered(&self, target_kind: Option<FileKind>) -> (r: Option<Command>)
        ensures
            !self.name_accepted(self@.filename_edit) ==> r is None,
            self.name_accepted(self@.filename_edit) ==> {
                let target = PathView { root: self@.path.root, parts: self@.path.parts.push(self@.filename_edit) };
                match self@.kind {
                    DialogType::SelectFolder => r == Some(Command::Folder),
                    DialogType::OpenFile => match target_kind {
                        Some(k) => if k == FileKind::File || k == FileKind::Directory {
                            r matches Some(Command::Open(f)) && f@ == fresh_entry(target, k)
                        } else {
                            r is None
                        },
                        None => r is None,
                    },
                    DialogType::SaveFile => {
                        let k = match target_kind {
                            Some(k) => k,
                            None => FileKind::Unknown,
                        };
                        if k == FileKind::Directory {
                            r matches Some(Command::Open(f)) && f@ == fresh_entry(target, k)
                        } else {
                            r matches Some(Command::Save(f)) && f@ == fresh_entry(target, k)
                        }
                    },
                }
            },
    {
        if !self.filename_filter.accepts(self.filename_edit.as_str()) {
            return None;
        }
        match self.dialog_type {
            DialogType::SelectFolder => Some(Command::Folder),
            DialogType::OpenFile => match target_kind {
                Some(k) => {
                    if k == FileKind::File || k == FileKind::Directory {
                        Some(Command::Open(FileInfo::new(self.target_path(), k)))
                    } else {
                        None
                    }
                },
                None => None,
            },
            DialogType::SaveFile => {
                let k = match target_kind {
                    Some(k) => k,
                    None => FileKind::Unknown,
                };
                let info = FileInfo::new(self.target_path(), k);
                if k == FileKind::Directory {
                    Some(Command::Open(info))
                } else {
                    Some(Command::Save(info))
                }
            },
        }
    }

    /// The command of the Save button: saving to the typed name, whose kind
    /// is `kind`.
    pub fn save_command(&self, kind: FileKind) -> (r: Command)
        ensures
            r matches Command::Save(f) && f@ == fresh_entry(
                PathView { root: self@.path.root, parts: self@.path.parts.push(self@.filename_edit) },
                kind,
            ),
    {
        Command::Save(FileInfo::new(self.target_path(), kind))
    }

    /// Whether a save dialog's main button opens the selected directory
    /// rather than saving.
    pub fn should_open_directory(&self) -> (r: bool)
        ensures
            r == (self@.selected_file matches Some(f) && entry_is_dir(f)),
    {
        match &self.selected_file {
            Some(file) => file.is_dir(),
            None => false,
        }
    }

    /// The path typed in the directory field, if it names one.
    pub fn typed_path(&self) -> (r: Option<EntryPath>)
        ensures
            r matches Some(p) ==> spec_parse(self@.path_edit) == Some(p@),
            r is None ==> spec_parse(self@.path_edit) is None,
    {
        parse_path(self.path_edit.as_str())
    }

    /// An edit of the directory field. Where the typed depth differs from the
    /// one the completion names were read at, or no component is being typed,
    /// the names are read again from the typed directory; else they are kept. Unless the edit deleted text, the
    /// component being typed is then completed, and what completion added is
    /// marked.
    pub fn edit_path(&mut self, text: String, deleted: bool)
        requires
            old(self).wf(),
        ensures
            final(self).wf(),
            final(self).same_config(old(self)),
            final(self)@ == (DialogView {
                path_edit: final(self)@.path_edit,
                highlight: final(self)@.highlight,
                ..old(self)@
            }),
            separator_count(text@) == old(self).completion_depth() && pending(text@).len() > 0
                ==> final(self).completion_names() == old(self).completion_names(),
            final(self).completion_depth() == separator_count(text@),
            separator_count(text@) != old(self).completion_depth() || pending(text@).len() == 0
                ==> sibling_names(
                text@.take(text@.len() - pending(text@).len()),
                final(self).completion_names(),
            ),
            completed_text(
                final(self).completion_names(),
                text@,
                deleted,
                final(self)@.path_edit,
                final(self)@.highlight,
            ),
    {
        let (depth, start) = typed_position(text.as_str());
        let len = text.unicode_len();
        if depth != self.completion_depth || start == len {
            self.completion = self.sibling_names_tree(text.as_str(), start);
        }
        self.completion_depth = depth;
        let (full, highlight) = complete_text(&self.completion, text.as_str(), deleted);
        self.path_edit = full;
        self.highlight = highlight;
    }

    /// The completion tree of the names in the directory that `text` types
    /// up to character `start`; empty where that names no directory or the
    /// backend fails.
    fn sibling_names_tree(&self, text: &str, start: usize) -> (r: PrefixTree)
        requires
            start <= text@.len(),
        ensures
            r.wf(),
            sibling_names(text@.take(start as int), r@),
    {
        let parent = text.substring_char(0, start);
        match parse_path(parent) {
            Some(dir) => {
                let options = PlatformOptions { show_hidden: self.show_hidden, show_drives: self.show_drives };
                match self.fs.read_folder(&dir, self.show_system_files, &self.show_files_filter, options) {
                    Ok(entries) => completion_tree(&entries),
                    Err(_) => {
                        let r = PrefixTree::new();
                        proof {
                            assert(r@ == entry_names(Seq::<EntryView>::empty()));
                        }
                        r
                    },
                }
            },
            None => PrefixTree::new(),
        }
    }
}

impl<V: Vfs, S: Filter, N: Filter> FileDialog<V, S, N> {
    /// Set the default file name.
    pub fn default_filename(self, filename: String) -> (r: Self)
        requires
            self.wf(),
        ensures
            r.wf(),
            r.same_config(&self),
            r@ == (DialogView { filename_edit: filename@, ..self@ }),
    {
        let mut d = self;
        d.filename_edit = filename;
        d
    }

    /// Set the window title text, after the dialog type's icon.
    pub fn title(self, title: &str) -> (r: Self)
        requires
            self.wf(),
        ensures
            r.wf(),
            r.same_config(&self),
            r@ == (DialogView {
                texts: DialogTexts { title: r@.texts.title, ..self@.texts },
                ..self@
            }),
            r@.texts.title@ == title_icon(self@.kind) + title@,
    {
        let mut d = self;
        let mut text = title_prefix(d.dialog_type);
        text.append(title);
        d.texts.title = text;
        d
    }

    /// Set the open button text.
    pub fn open_button_text(self, text: String) -> (r: Self)
        requires
            self.wf(),
        ensures
            r.wf(),
            r.same_config(&self),
            r@ == (DialogView { texts: DialogTexts { open_button: text, ..self@.texts }, ..self@ }),
    {
        let mut d = self;
        d.texts.open_button = text;
        d
    }

    /// Set the save button text.
    pub fn save_button_text(self, text: String) -> (r: Self)
        requires
            self.wf(),
        ensures
            r.wf(),
            r.same_config(&self),
            r@ == (DialogView { texts: DialogTexts { save_button: text, ..self@.texts }, ..self@ }),
    {
        let mut d = self;
        d.texts.save_button = text;
        d
    }

    /// Set the cancel button text.
    pub fn cancel_button_text(self, text: String) -> (r: Self)
        requires
            self.wf(),
        ensures
            r.wf(),
            r.same_config(&self),
            r@ == (DialogView { texts: DialogTexts { cancel_button: text, ..self@.texts }, ..self@ }),
    {
        let mut d = self;
        d.texts.cancel_button = text;
        d
    }

    /// Set the new folder button text.
    pub fn new_folder_button_text(self, text: String) -> (r: Self)
        requires
            self.wf(),
        ensures
            r.wf(),
            r.same_config(&self),
            r@ == (DialogView { texts: DialogTexts { new_folder_button: text, ..self@.texts }, ..self@ }),
    {
        let mut d = self;
        d.texts.new_folder_button = text;
        d
    }

    /// Set the new folder name text.
    pub fn new_folder_name_text(self, text: String) -> (r: Self)
        requires
            self.wf(),
        ensures
            r.wf(),
            r.same_config(&self),
            r@ == (DialogView { texts: DialogTexts { new_folder_name: text, ..self@.texts }, ..self@ }),
    {
        let mut d = self;
        d.texts.new_folder_name = text;
        d
    }

    /// Set the refresh button hover text.
    pub fn refresh_button_hover_text(self, text: String) -> (r: Self)
        requires
            self.wf(),
        ensures
            r.wf(),
            r.same_config(&self),
            r@ == (DialogView { texts: DialogTexts { refresh_button_hover: text, ..self@.texts }, ..self@ }),
    {
        let mut d = self;
        d.texts.refresh_button_hover = text;
        d
    }

    /// Set the parent folder button hover text.
    pub fn parent_folder_button_hover_text(self, text: String) -> (r: Self)
        requires
            self.wf(),
        ensures
            r.wf(),
            r.same_config(&self),
            r@ == (DialogView { texts: DialogTexts { parent_folder_button_hover: text, ..self@.texts }, ..self@ }),
    {
        let mut d = self;
        d.texts.parent_folder_button_hover = text;
        d
    }

    /// Set the rename button text.
    pub fn rename_button_text(self, text: String) -> (r: Self)
        requires
            self.wf(),
        ensures
            r.wf(),
            r.same_config(&self),
            r@ == (DialogView { texts: DialogTexts { rename_button: text, ..self@.texts }, ..self@ }),
    {
        let mut d = self;
        d.texts.rename_button = text;
        d
    }

    /// Set the file label text.
    pub fn file_label_text(self, text: String) -> (r: Self)
        requires
            self.wf(),
        ensures
            r.wf(),
            r.same_config(&self),
            r@ == (DialogView { texts: DialogTexts { file_label: text, ..self@.texts }, ..self@ }),
    {
        let mut d = self;
        d.texts.file_label = text;
        d
    }

    /// Set the show hidden checkbox text.
    pub fn show_hidden_checkbox_text(self, text: String) -> (r: Self)
        requires
            self.wf(),
        ensures
            r.wf(),
            r.same_config(&self),
            r@ == (DialogView { texts: DialogTexts { show_hidden_checkbox: text, ..self@.texts }, ..self@ }),
    {
        let mut d = self;
        d.texts.show_hidden_checkbox = text;
        d
    }

    /// Enable/disable resizing the window. Default is `true`.
    pub fn resizable(self, resizable: bool) -> (r: Self)
        requires
            self.wf(),
        ensures
            r.wf(),
            r.same_config(&self),
            r@ == (DialogView { resizable: resizable, ..self@ }),
    {
        let mut d = self;
        d.resizable = resizable;
        d
    }

    /// Show the Rename button. Default is `true`.
    pub fn show_rename(self, rename: bool) -> (r: Self)
        requires
            self.wf(),
        ensures
            r.wf(),
            r.same_config(&self),
            r@ == (DialogView { rename: rename, ..self@ }),
    {
        let mut d = self;
        d.rename = rename;
        d
    }

    /// Show the New Folder button. Default is `true`.
    pub fn show_new_folder(self, new_folder: bool) -> (r: Self)
        requires
            self.wf(),
        ensures
            r.wf(),
            r.same_config(&self),
            r@ == (DialogView { new_folder: new_folder, ..self@ }),
    {
        let mut d = self;
        d.new_folder = new_folder;
        d
    }

    /// Enable/disable multiple selection. Default is `false`.
    pub fn multi_select(self, multi_select: bool) -> (r: Self)
        requires
            self.wf(),
        ensures
            r.wf(),
            r.same_config(&self),
            r@ == (DialogView { multi_select: multi_select, ..self@ }),
    {
        let mut d = self;
        d.multi_select_enabled = multi_select;
        d
    }

    /// Show the volume roots. Default is `true`.
    pub fn show_drives(self, show_drives: bool) -> (r: Self)
        requires
            self.wf(),
        ensures
            r.wf(),
            r.same_config(&self),
            r@ == (DialogView { show_drives: show_drives, ..self@ }),
    {
        let mut d = self;
        d.show_drives = show_drives;
        d
    }

    /// Set to true in order to keep this window on top of other windows. Default is `false`.
    pub fn keep_on_top(self, keep_on_top: bool) -> (r: Self)
        requires
            self.wf(),
        ensures
            r.wf(),
            r.same_config(&self),
            r@ == (DialogView { keep_on_top: keep_on_top, ..self@ }),
    {
        let mut d = self;
        d.keep_on_top = keep_on_top;
        d
    }

    /// Set to true in order to show system files. Default is `false`.
    pub fn show_system_files(self, show_system_files: bool) -> (r: Self)
        requires
            self.wf(),
        ensures
            r.wf(),
            r.same_config(&self),
            r@ == (DialogView { show_system_files: show_system_files, ..self@ }),
    {
        let mut d = self;
        d.show_system_files = show_system_files;
        d
    }

    /// Set a function to filter listed files.
    pub fn show_files_filter<T: Filter>(self, filter: T) -> (r: FileDialog<V, T, N>)
        requires
            self.wf(),
        ensures
            r.wf(),
            r@ == self@,
            r.backend() == self.backend(),
            forall|t: Seq<char>| r.name_accepted(t) == self.name_accepted(t),
    {
        FileDialog {
            path: self.path,
            path_edit: self.path_edit,
            highlight: self.highlight,
            selected_file: self.selected_file,
            filename_edit: self.filename_edit,
            texts: self.texts,
            files: self.files,
            root_count: self.root_count,
            state: self.state,
            dialog_type: self.dialog_type,
            show_files_filter: filter,
            filename_filter: self.filename_filter,
            range_start: self.range_start,
            resizable: self.resizable,
            rename: self.rename,
            new_folder: self.new_folder,
            multi_select_enabled: self.multi_select_enabled,
            keep_on_top: self.keep_on_top,
            show_system_files: self.show_system_files,
            show_drives: self.show_drives,
            show_hidden: self.show_hidden,
            completion: self.completion,
            completion_depth: self.completion_depth,
            fs: self.fs,
        }
    }

    /// Set a function to filter the selected filename.
    pub fn filename_filter<T: Filter>(self, filter: T) -> (r: FileDialog<V, S, T>)
        requires
            self.wf(),
        ensures
            r.wf(),
            r@ == self@,
            r.backend() == self.backend(),
            forall|t: Seq<char>| r.name_accepted(t) == filter.spec_accepts(t),
    {
        FileDialog {
            path: self.path,
            path_edit: self.path_edit,
            highlight: self.highlight,
            selected_file: self.selected_file,
            filename_edit: self.filename_edit,
            texts: self.texts,
            files: self.files,
            root_count: self.root_count,
            state: self.state,
            dialog_type: self.dialog_type,
            show_files_filter: self.show_files_filter,
            filename_filter: filter,
            range_start: self.range_start,
            resizable: self.resizable,
            rename: self.rename,
            new_folder: self.new_folder,
            multi_select_enabled: self.multi_select_enabled,
            keep_on_top: self.keep_on_top,
            show_system_files: self.show_system_files,
            show_drives: self.show_drives,
            show_hidden: self.show_hidden,
            completion: self.completion,
            completion_depth: self.completion_depth,
            fs: self.fs,
        }
    }

    /// Set the storage backend.
    pub fn with_fs<W: Vfs>(self, fs: W) -> (r: FileDialog<W, S, N>)
        requires
            self.wf(),
        ensures
            r.wf(),
            r@ == self@,
            r.backend() == fs,
            forall|t: Seq<char>| r.name_accepted(t) == self.name_accepted(t),
    {
        FileDialog {
            path: self.path,
            path_edit: self.path_edit,
            highlight: self.highlight,
            selected_file: self.selected_file,
            filename_edit: self.filename_edit,
            texts: self.texts,
            files: self.files,
            root_count: self.root_count,
            state: self.state,
            dialog_type: self.dialog_type,
            show_files_filter: self.show_files_filter,
            filename_filter: self.filename_filter,
            range_start: self.range_start,
            resizable: self.resizable,
            rename: self.rename,
            new_folder: self.new_folder,
            multi_select_enabled: self.multi_select_enabled,
            keep_on_top: self.keep_on_top,
            show_system_files: self.show_system_files,
            show_drives: self.show_drives,
            show_hidden: self.show_hidden,
            completion: self.completion,
            completion_depth: self.completion_depth,
            fs: fs,
        }
    }

    pub fn has_multi_select(&self) -> (r: bool)
        ensures
            r == self@.multi_select,
    {
        self.multi_select_enabled
    }

    /// Get the dialog type.
    pub fn dialog_type(&self) -> (r: DialogType)
        ensures
            r == self@.kind,
    {
        self.dialog_type
    }

    /// Get the window's visibility.
    pub fn visible(&self) -> (r: bool)
        ensures
            r == (self@.state == State::Open),
    {
        self.state == State::Open
    }

    /// Currently mounted directory that is being shown in the dialog box.
    pub fn directory(&self) -> (r: &EntryPath)
        ensures
            r@ == self@.path,
    {
        &self.path
    }

    /// Dialog state.
    pub fn state(&self) -> (r: State)
        ensures
            r == self@.state,
    {
        self.state
    }

    /// Returns true, if the file selection was confirmed.
    pub fn selected(&self) -> (r: bool)
        ensures
            r == (self@.state == State::Selected),
    {
        self.state == State::Selected
    }

    /// The texts the dialog shows.
    pub fn texts(&self) -> (r: &DialogTexts)
        ensures
            *r == self@.texts,
    {
        &self.texts
    }

    /// The text of the directory field, and the span completion added to it.
    pub fn path_edit(&self) -> (r: (&str, Option<(usize, usize)>))
        ensures
            r.0@ == self@.path_edit,
            r.1 == self@.highlight,
    {
        (self.path_edit.as_str(), self.highlight)
    }

    /// The text of the file name field.
    pub fn filename_edit(&self) -> (r: &str)
        ensures
            r@ == self@.filename_edit,
    {
        self.filename_edit.as_str()
    }

    /// An edit of the file name field.
    pub fn edit_filename(&mut self, text: String)
        requires
            old(self).wf(),
        ensures
            final(self).wf(),
            final(self).same_config(old(self)),
            final(self)@ == (DialogView { filename_edit: text@, ..old(self)@ }),
    {
        self.filename_edit = text;
    }

    /// The listing, or the backend's failure.
    pub fn files(&self) -> (r: &Result<Vec<FileInfo>, VfsError>)
        ensures
            files_view(*r) == self@.files,
    {
        &self.files
    }

    /// The single selection.
    pub fn selected_file(&self) -> (r: Option<&FileInfo>)
        ensures
            match self@.selected_file {
                Some(f) => r matches Some(x) && x@ == f,
                None => r is None,
            },
    {
        match &self.selected_file {
            Some(f) => Some(f),
            None => None,
        }
    }

    /// The window options: resizable, Rename shown, New Folder shown, kept
    /// on top, hidden names shown.
    pub fn options(&self) -> (r: (bool, bool, bool, bool, bool))
        ensures
            r == (self@.resizable, self@.rename, self@.new_folder, self@.keep_on_top, self@.show_hidden),
    {
        (self.resizable, self.rename, self.new_folder, self.keep_on_top, self.show_hidden)
    }
}

/// A plain click on the one marked entry unmarks it, leaves every entry
/// unmarked and clears the anchor.
pub proof fn law_plain_click_on_sole_mark<V: Vfs, S: Filter, N: Filter>(
    old: &FileDialog<V, S, N>,
    new: &FileDialog<V, S, N>,
    idx: usize,
)
    requires
        FileDialog::effect_multi_select(old, new, idx),
        old@.files matches Ok(v) && idx < v.len() && v[idx as int].selected && forall|j: int|
            0 <= j < v.len() && j != idx ==> !(#[trigger] v[j]).selected,
    ensures
        new@.files matches Ok(w) && w.len() == old@.files->Ok_0.len() && forall|j: int|
            0 <= j < w.len() ==> !(#[trigger] w[j]).selected,
        new@.range_start is None,
{
}

/// A range click with no anchor changes nothing.
pub proof fn law_range_click_without_anchor<V: Vfs, S: Filter, N: Filter>(
    old: &FileDialog<V, S, N>,
    new: &FileDialog<V, S, N>,
    idx: usize,
)
    requires
        FileDialog::effect_multi_select_range(old, new, idx),
        old@.range_start is None,
    ensures
        new@ == old@,
{
}

/// A range click on `idx` with the anchor at `a` marks exactly the entries
/// from the smaller to the larger of the two, both included, and leaves
/// every other entry as it was.
pub proof fn law_range_click_marks_span<V: Vfs, S: Filter, N: Filter>(
    old: &FileDialog<V, S, N>,
    new: &FileDialog<V, S, N>,
    idx: usize,
)
    requires
        old.wf(),
        FileDialog::effect_multi_select_range(old, new, idx),
        old@.files matches Ok(v) && idx < v.len(),
        old@.range_start is Some,
    ensures
        ({
            let v = old@.files->Ok_0;
            let a = old@.range_start->0;
            let lo = if a < idx { a as int } else { idx as int };
            let hi = if a < idx { idx as int } else { a as int };
            &&& new@.files matches Ok(w)
            &&& w.len() == v.len()
            &&& 0 <= lo <= hi < w.len()
            &&& forall|j: int| lo <= j <= hi ==> (#[trigger] w[j]).selected && w[j].path == v[j].path
                && w[j].kind == v[j].kind
            &&& forall|j: int| 0 <= j < w.len() && !(lo <= j <= hi) ==> #[trigger] w[j] == v[j]
        }),
{
}

/// Save is disabled while the file name field is empty, and enabled once a
/// name the filter accepts is typed.
pub proof fn law_can_save<V: Vfs, S: Filter, N: Filter>(d: &FileDialog<V, S, N>)
    ensures
        d@.filename_edit.len() == 0 ==> !d.spec_can_save(),
        d@.filename_edit.len() > 0 && d.name_accepted(d@.filename_edit) ==> d.spec_can_save(),
{
}

/// With single selection, Open is disabled until an entry that is no
/// directory is selected; an open dialog whose selected file is accepted
/// goes from Open to Selected when it acts on the selection.
pub proof fn law_open_needs_a_file<V: Vfs, S: Filter, N: Filter>(
    old: &FileDialog<V, S, N>,
    new: &FileDialog<V, S, N>,
)
    requires
        !old@.multi_select,
        FileDialog::effect_open_selected(old, new),
    ensures
        (old@.selected_file matches Some(f) ==> entry_is_dir(f)) ==> !old.spec_can_open(),
        old@.state == State::Open && old@.kind == DialogType::OpenFile && old.spec_can_open()
            ==> new@.state == State::Selected,
{
}

/// A listing shown from a backend response, as every refresh leaves one:
/// no entry is marked, directories come first, a folder dialog lists
/// directories only, and without volume roots names ascend within the
/// directories and within the files.
pub proof fn law_listing_after_refresh<V: Vfs, S: Filter, N: Filter>(d: &FileDialog<V, S, N>)
    requires
        d.listed_from_backend(),
        d@.files is Ok,
    ensures
        ({
            let out = d@.files->Ok_0;
            &&& forall|i: int| 0 <= i < out.len() ==> !(#[trigger] out[i]).selected
            &&& dirs_first(out)
            &&& d@.kind == DialogType::SelectFolder ==> forall|i: int|
                0 <= i < out.len() ==> entry_is_dir(#[trigger] out[i])
            &&& !d@.show_drives ==> names_ascending(out)
        }),
{
    let out = d@.files->Ok_0;
    let raw = choose|raw: Seq<EntryView>| #[trigger] d.shows(out, raw);
    let o = d.listing_options();
    law_directories_first(out, raw, o, d.show_filter());
    law_names_ascending(out, raw, o, d.show_filter());
    if d@.kind == DialogType::SelectFolder {
        law_folders_only(out, raw, o, d.show_filter());
    }
    if !d@.show_drives {
        assert(listed_roots(raw, o).len() == 0);
    }
}

} // verus!
