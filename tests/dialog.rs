use std::cell::RefCell;

use egui_file::{
    parse_path, Command, DialogType, EntryPath, ErrorKind, ExtensionFilter, FileDialog, FileInfo, FileKind, Filter,
    PlatformOptions, State, Vfs, VfsError, VfsFile,
};

struct FakeFs {
    nodes: RefCell<Vec<(String, FileKind)>>,
}

fn p(text: &str) -> EntryPath {
    parse_path(text).unwrap()
}

fn parent_text(path: &EntryPath) -> Option<String> {
    let mut up = path.duplicate();
    if up.pop() {
        Some(up.to_text())
    } else {
        None
    }
}

fn failure(kind: ErrorKind, message: &str) -> VfsError {
    VfsError { kind, message: message.to_string() }
}

impl FakeFs {
    fn new(nodes: &[(&str, FileKind)]) -> Self {
        FakeFs { nodes: RefCell::new(nodes.iter().map(|(t, k)| (t.to_string(), *k)).collect()) }
    }

    fn is_dir(&self, text: &str) -> bool {
        text == "/" || self.nodes.borrow().iter().any(|(t, k)| t == text && *k == FileKind::Directory)
    }
}

impl Vfs for FakeFs {
    fn create_dir(&self, path: &EntryPath) -> Result<(), VfsError> {
        let text = path.to_text();
        if self.nodes.borrow().iter().any(|(t, _)| *t == text) {
            return Err(failure(ErrorKind::AlreadyExists, "exists"));
        }
        match parent_text(path) {
            Some(parent) if self.is_dir(&parent) => {},
            _ => return Err(failure(ErrorKind::NotFound, "no parent")),
        }
        self.nodes.borrow_mut().push((text, FileKind::Directory));
        Ok(())
    }

    fn rename(&self, from: &EntryPath, to: &EntryPath) -> Result<(), VfsError> {
        let from_text = from.to_text();
        let index = self.nodes.borrow().iter().position(|(t, _)| *t == from_text);
        match (index, parent_text(to)) {
            (Some(i), Some(parent)) if self.is_dir(&parent) => {
                self.nodes.borrow_mut()[i].0 = to.to_text();
                Ok(())
            },
            _ => Err(failure(ErrorKind::NotFound, "no such entry")),
        }
    }

    fn read_folder<F: Filter>(
        &self,
        path: &EntryPath,
        _show_system_files: bool,
        show_files_filter: &F,
        _options: PlatformOptions,
    ) -> Result<Vec<FileInfo>, VfsError> {
        let text = path.to_text();
        if !self.is_dir(&text) {
            return Err(failure(ErrorKind::NotFound, "no such directory"));
        }
        let mut out = Vec::new();
        for (t, k) in self.nodes.borrow().iter() {
            let child = p(t);
            if parent_text(&child).as_deref() == Some(text.as_str())
                && (*k == FileKind::Directory || show_files_filter.accepts(t))
            {
                out.push(FileInfo::new(child, *k));
            }
        }
        Ok(out)
    }
}

fn sample_fs() -> FakeFs {
    FakeFs::new(&[
        ("/tmp", FileKind::Directory),
        ("/tmp/zdir", FileKind::Directory),
        ("/tmp/adir", FileKind::Directory),
        ("/tmp/a.txt", FileKind::File),
        ("/tmp/c.txt", FileKind::File),
        ("/tmp/b.txt", FileKind::File),
        ("/tmp/adir/inner.txt", FileKind::File),
        ("/home", FileKind::Directory),
        ("/home/report.txt", FileKind::File),
    ])
}

fn dir(text: &str) -> Option<FileInfo> {
    Some(FileInfo::new(p(text), FileKind::Directory))
}

fn listed(d: &FileDialog<FakeFs>) -> Vec<String> {
    d.files().as_ref().unwrap().iter().map(|e| e.get_file_name().to_string()).collect()
}

fn marks(d: &FileDialog<FakeFs>) -> Vec<bool> {
    d.files().as_ref().unwrap().iter().map(|e| e.selected()).collect()
}

fn open_multi() -> FileDialog<FakeFs> {
    let mut d = FileDialog::open_file(sample_fs(), dir("/tmp")).multi_select(true);
    d.open();
    d
}

#[test]
fn folder_confirmed_without_selection_is_the_current_directory() {
    let mut d = FileDialog::select_folder(sample_fs(), dir("/tmp"));
    d.open();
    assert_eq!(d.state(), State::Open);
    assert!(d.apply(Command::Folder).is_ok());
    assert_eq!(d.state(), State::Selected);
    assert!(d.selected());
    assert_eq!(d.path().unwrap().to_text(), "/tmp");
}

#[test]
fn folder_dialog_lists_directories_only() {
    let mut d = FileDialog::select_folder(sample_fs(), dir("/tmp"));
    d.open();
    assert_eq!(listed(&d), vec!["adir", "zdir"]);
}

#[test]
fn double_click_on_directory_enters_it() {
    let mut d = FileDialog::open_file(sample_fs(), dir("/tmp"));
    d.open();
    assert_eq!(listed(&d), vec!["adir", "zdir", "a.txt", "b.txt", "c.txt"]);
    let select = d.click_command(0, false, false).unwrap();
    d.apply(select).unwrap();
    assert!(d.path().is_some());
    let cmd = d.double_click_command(0).unwrap();
    assert!(matches!(cmd, Command::BrowseDirectory(_)));
    d.apply(cmd).unwrap();
    assert_eq!(d.directory().to_text(), "/tmp/adir");
    assert_eq!(d.state(), State::Open);
    assert!(d.path().is_none());
    assert_eq!(listed(&d), vec!["inner.txt"]);
    assert_eq!(d.path_edit().0, "/tmp/adir");
}

#[test]
fn created_directory_is_listed_and_selected() {
    let mut d = FileDialog::open_file(sample_fs(), dir("/tmp"));
    d.open();
    d.edit_filename("new".to_string());
    assert!(d.apply(Command::CreateDirectory).is_ok());
    assert_eq!(listed(&d), vec!["adir", "new", "zdir", "a.txt", "b.txt", "c.txt"]);
    assert_eq!(d.path().unwrap().to_text(), "/tmp/new");
    assert!(d.selected_file().unwrap().is_dir());
    assert_eq!(d.state(), State::Open);
}

#[test]
fn created_directory_takes_default_name() {
    let mut d = FileDialog::open_file(sample_fs(), dir("/tmp"));
    d.open();
    d.apply(Command::CreateDirectory).unwrap();
    assert_eq!(d.path().unwrap().to_text(), "/tmp/New folder");
}

#[test]
fn creating_an_existing_directory_fails_without_change() {
    let mut d = FileDialog::open_file(sample_fs(), dir("/tmp"));
    d.open();
    d.edit_filename("zdir".to_string());
    let before = listed(&d);
    let err = d.apply(Command::CreateDirectory).unwrap_err();
    assert_eq!(err.kind, ErrorKind::AlreadyExists);
    assert_eq!(listed(&d), before);
    assert!(d.path().is_none());
}

#[test]
fn rename_of_missing_entry_fails_without_change() {
    let mut d = FileDialog::open_file(FakeFs::new(&[("/tmp", FileKind::Directory), ("/tmp/c.txt", FileKind::File)]), dir("/tmp"));
    d.open();
    let before = listed(&d);
    let from = FileInfo::new(p("/tmp/a.txt"), FileKind::File);
    let err = d.apply(Command::Rename(from, p("/tmp/b.txt"))).unwrap_err();
    assert_eq!(err.kind, ErrorKind::NotFound);
    assert_eq!(d.directory().to_text(), "/tmp");
    assert_eq!(listed(&d), before);
    assert_eq!(d.state(), State::Open);
}

#[test]
fn rename_selects_the_new_name() {
    let mut d = FileDialog::open_file(sample_fs(), dir("/tmp"));
    d.open();
    d.apply(d.click_command(2, false, false).unwrap()).unwrap();
    assert_eq!(d.filename_edit(), "a.txt");
    assert!(!d.can_rename());
    d.edit_filename("d.txt".to_string());
    assert!(d.can_rename());
    let cmd = d.rename_command().unwrap();
    match &cmd {
        Command::Rename(from, to) => {
            assert_eq!(from.path().to_text(), "/tmp/a.txt");
            assert_eq!(to.to_text(), "/tmp/d.txt");
        },
        _ => panic!("not a rename"),
    }
    d.apply(cmd).unwrap();
    assert_eq!(listed(&d), vec!["adir", "zdir", "b.txt", "c.txt", "d.txt"]);
    assert_eq!(d.path().unwrap().to_text(), "/tmp/d.txt");
}

#[test]
fn refresh_clears_both_selections() {
    let mut d = open_multi();
    d.apply(Command::MultiSelect(1)).unwrap();
    d.apply(Command::Select(FileInfo::new(p("/tmp/a.txt"), FileKind::File))).unwrap();
    assert!(d.path().is_some());
    assert_eq!(d.selection().len(), 1);
    d.refresh();
    assert!(d.path().is_none());
    assert!(d.selection().is_empty());
    assert!(marks(&d).iter().all(|m| !m));
    d.apply(Command::MultiSelectRange(3)).unwrap();
    assert!(d.selection().is_empty());
}

#[test]
fn plain_click_on_sole_mark_unmarks_and_clears_anchor() {
    let mut d = open_multi();
    d.apply(Command::MultiSelect(2)).unwrap();
    assert_eq!(marks(&d), vec![false, false, true, false, false]);
    d.apply(Command::MultiSelect(2)).unwrap();
    assert_eq!(marks(&d), vec![false; 5]);
    d.apply(Command::MultiSelectRange(4)).unwrap();
    assert_eq!(marks(&d), vec![false; 5]);
}

#[test]
fn plain_click_clears_other_marks() {
    let mut d = open_multi();
    d.apply(Command::MultiSelect(0)).unwrap();
    d.apply(Command::MultiSelectSwitch(3)).unwrap();
    assert_eq!(marks(&d), vec![true, false, false, true, false]);
    d.apply(Command::MultiSelect(1)).unwrap();
    assert_eq!(marks(&d), vec![false, true, false, false, false]);
}

#[test]
fn range_click_without_anchor_changes_nothing() {
    let mut d = open_multi();
    d.apply(Command::MultiSelectRange(3)).unwrap();
    assert_eq!(marks(&d), vec![false; 5]);
}

#[test]
fn range_click_marks_inclusive_span() {
    let mut d = open_multi();
    d.apply(Command::MultiSelect(3)).unwrap();
    d.apply(Command::MultiSelectRange(1)).unwrap();
    assert_eq!(marks(&d), vec![false, true, true, true, false]);
    let paths: Vec<String> = d.selection().iter().map(|p| p.to_text()).collect();
    assert_eq!(paths, vec!["/tmp/zdir", "/tmp/a.txt", "/tmp/b.txt"]);
}

#[test]
fn range_click_keeps_marks_outside_span() {
    let mut d = open_multi();
    d.apply(Command::MultiSelect(0)).unwrap();
    d.apply(Command::MultiSelectSwitch(4)).unwrap();
    d.apply(Command::MultiSelectRange(2)).unwrap();
    assert_eq!(marks(&d), vec![true, false, true, true, true]);
}

#[test]
fn toggle_click_off_clears_anchor() {
    let mut d = open_multi();
    d.apply(Command::MultiSelectSwitch(1)).unwrap();
    d.apply(Command::MultiSelectSwitch(1)).unwrap();
    d.apply(Command::MultiSelectRange(3)).unwrap();
    assert_eq!(marks(&d), vec![false; 5]);
}

#[test]
fn out_of_range_clicks_are_ignored() {
    let mut d = open_multi();
    d.apply(Command::MultiSelect(7)).unwrap();
    d.apply(Command::MultiSelectSwitch(9)).unwrap();
    assert_eq!(marks(&d), vec![false; 5]);
    assert!(d.click_command(5, false, false).is_none());
}

#[test]
fn can_save_follows_the_typed_name() {
    let mut d = FileDialog::save_file(sample_fs(), dir("/tmp"));
    d.open();
    assert!(!d.can_save());
    d.edit_filename("out.txt".to_string());
    assert!(d.can_save());
    d.apply(d.save_command(FileKind::Unknown)).unwrap();
    assert_eq!(d.state(), State::Selected);
    assert_eq!(d.path().unwrap().to_text(), "/tmp/out.txt");
}

#[test]
fn save_is_refused_while_name_is_empty() {
    let mut d = FileDialog::save_file(sample_fs(), dir("/tmp"));
    d.open();
    d.apply(Command::Save(FileInfo::new(p("/tmp/x"), FileKind::File))).unwrap();
    assert_eq!(d.state(), State::Open);
    assert!(d.path().is_none());
}

#[test]
fn can_open_needs_a_selected_file() {
    let mut d = FileDialog::open_file(sample_fs(), dir("/tmp"));
    d.open();
    assert!(!d.can_open());
    d.apply(d.click_command(0, false, false).unwrap()).unwrap();
    assert!(!d.can_open());
    d.apply(Command::OpenSelected).unwrap();
    assert_eq!(d.directory().to_text(), "/tmp/adir");
    d.apply(Command::UpDirectory).unwrap();
    assert_eq!(d.directory().to_text(), "/tmp");
    d.apply(d.click_command(3, false, false).unwrap()).unwrap();
    assert!(d.can_open());
    assert_eq!(d.state(), State::Open);
    d.apply(Command::OpenSelected).unwrap();
    assert_eq!(d.state(), State::Selected);
    assert_eq!(d.path().unwrap().to_text(), "/tmp/b.txt");
}

#[test]
fn multi_select_opens_marked_files() {
    let mut d = open_multi();
    assert!(!d.can_open());
    d.apply(Command::MultiSelect(2)).unwrap();
    assert!(d.can_open());
    d.apply(Command::OpenSelected).unwrap();
    assert_eq!(d.state(), State::Selected);
}

#[test]
fn escape_cancels_and_next_frame_closes() {
    let mut d = FileDialog::open_file(sample_fs(), dir("/tmp"));
    assert!(!d.begin_frame(false));
    assert_eq!(d.state(), State::Closed);
    d.open();
    assert!(d.visible());
    assert!(d.begin_frame(true));
    d.end_frame(true);
    assert_eq!(d.state(), State::Cancelled);
    assert!(!d.begin_frame(false));
    assert_eq!(d.state(), State::Closed);
}

#[test]
fn closing_the_window_cancels() {
    let mut d = FileDialog::open_file(sample_fs(), dir("/tmp"));
    d.open();
    assert!(d.begin_frame(false));
    d.end_frame(false);
    assert_eq!(d.state(), State::Cancelled);
    d.open();
    d.apply(Command::Cancel).unwrap();
    assert_eq!(d.state(), State::Cancelled);
}

#[test]
fn listing_failure_is_kept_until_next_success() {
    let mut d = FileDialog::open_file(sample_fs(), dir("/missing"));
    d.open();
    assert_eq!(d.files().as_ref().unwrap_err().kind, ErrorKind::NotFound);
    assert_eq!(d.directory().to_text(), "/missing");
    assert!(d.selection().is_empty());
    d.set_path(p("/home"));
    assert_eq!(listed(&d), vec!["report.txt"]);
}

#[test]
fn typed_directory_is_completed() {
    let mut d = FileDialog::open_file(sample_fs(), dir("/tmp"));
    d.open();
    d.edit_path("/home/rep".to_string(), false);
    assert_eq!(d.path_edit(), ("/home/report.txt", Some((9, 16))));
    d.edit_path("/home/repo".to_string(), true);
    assert_eq!(d.path_edit(), ("/home/repo", None));
    d.edit_path("/t".to_string(), false);
    assert_eq!(d.path_edit(), ("/tmp", Some((2, 4))));
    assert_eq!(d.typed_path().unwrap().to_text(), "/tmp");
}

#[test]
fn initial_file_sets_directory_and_name() {
    let d = FileDialog::save_file(sample_fs(), Some(FileInfo::new(p("/tmp/a.txt"), FileKind::File)));
    assert_eq!(d.directory().to_text(), "/tmp");
    assert_eq!(d.filename_edit(), "a.txt");
    assert_eq!(d.state(), State::Closed);
    assert_eq!(d.dialog_type(), DialogType::SaveFile);
    let d = FileDialog::open_file(sample_fs(), None);
    assert_eq!(d.directory().to_text(), "/");
}

#[test]
fn enter_in_name_field_builds_commands() {
    let mut d = FileDialog::save_file(sample_fs(), dir("/tmp"));
    d.open();
    d.edit_filename("adir".to_string());
    assert!(matches!(d.filename_entered(Some(FileKind::Directory)), Some(Command::Open(_))));
    d.edit_filename("fresh.txt".to_string());
    match d.filename_entered(None) {
        Some(Command::Save(f)) => assert_eq!(f.path().to_text(), "/tmp/fresh.txt"),
        _ => panic!("expected a save"),
    }
    let mut o = FileDialog::open_file(sample_fs(), dir("/tmp"));
    o.edit_filename("nothing".to_string());
    assert!(o.filename_entered(None).is_none());
    let f = FileDialog::select_folder(sample_fs(), dir("/tmp"));
    assert_eq!(f.filename_entered(None), Some(Command::Folder));
}

#[test]
fn titles_and_texts() {
    let d = FileDialog::open_file(sample_fs(), None);
    assert_eq!(d.texts().title, "\u{1F4C2}  Open File");
    assert_eq!(d.texts().new_folder_name, "New folder");
    let d = d.title("Pick").open_button_text("Go".to_string());
    assert_eq!(d.texts().title, "\u{1F4C2}  Pick");
    assert_eq!(d.texts().open_button, "Go");
    let d = d.show_rename(false).show_new_folder(false).resizable(false).keep_on_top(true);
    assert_eq!(d.options(), (false, false, false, true, false));
}

fn txt_names() -> ExtensionFilter {
    ExtensionFilter { extensions: vec![".txt".to_string()] }
}

#[test]
fn filename_filter_gates_save() {
    let mut d = FileDialog::save_file(sample_fs(), dir("/tmp")).filename_filter(txt_names());
    d.open();
    d.edit_filename("notes.md".to_string());
    assert!(!d.can_save());
    d.edit_filename("notes.txt".to_string());
    assert!(d.can_save());
}

#[test]
fn show_filter_hides_files() {
    let fs = FakeFs::new(&[("/w", FileKind::Directory), ("/w/a.txt", FileKind::File), ("/w/b.md", FileKind::File), ("/w/sub", FileKind::Directory)]);
    let mut d = FileDialog::open_file(fs, dir("/w")).show_files_filter(txt_names());
    d.open();
    let names: Vec<String> = d.files().as_ref().unwrap().iter().map(|e| e.get_file_name().to_string()).collect();
    assert_eq!(names, vec!["sub", "a.txt"]);
}

#[test]
fn hidden_toggle_lists_again() {
    let fs = FakeFs::new(&[("/w", FileKind::Directory), ("/w/.cfg", FileKind::File), ("/w/x", FileKind::File)]);
    let mut d = FileDialog::open_file(fs, dir("/w"));
    d.open();
    assert_eq!(listed(&d), vec!["x"]);
    d.apply(Command::ShowHidden(true)).unwrap();
    assert_eq!(listed(&d), vec![".cfg", "x"]);
    assert_eq!(d.options().4, true);
}

#[test]
fn typed_file_path_opens_and_confirms() {
    let mut d = FileDialog::open_file(sample_fs(), dir("/tmp"));
    d.open();
    d.apply(Command::Open(FileInfo::new(p("/tmp/c.txt"), FileKind::File))).unwrap();
    assert_eq!(d.state(), State::Selected);
    assert_eq!(d.filename_edit(), "c.txt");
    assert_eq!(d.path().unwrap().to_text(), "/tmp/c.txt");
}

#[test]
fn typed_directory_path_is_entered() {
    let mut d = FileDialog::save_file(sample_fs(), dir("/tmp"));
    d.open();
    d.edit_filename("keep.txt".to_string());
    d.apply(Command::Open(FileInfo::new(p("/home"), FileKind::Directory))).unwrap();
    assert_eq!(d.directory().to_text(), "/home");
    assert_eq!(d.state(), State::Open);
    assert_eq!(d.filename_edit(), "keep.txt");
    assert_eq!(listed(&d), vec!["report.txt"]);
}

#[test]
fn save_dialog_double_click_on_file_saves_it() {
    let mut d = FileDialog::save_file(sample_fs(), dir("/tmp"));
    d.open();
    d.apply(d.click_command(4, false, false).unwrap()).unwrap();
    assert_eq!(d.filename_edit(), "c.txt");
    let cmd = d.double_click_command(4).unwrap();
    d.apply(cmd).unwrap();
    assert_eq!(d.state(), State::Selected);
    assert_eq!(d.path().unwrap().to_text(), "/tmp/c.txt");
}

#[test]
fn rename_is_disabled_for_a_directory() {
    let mut d = FileDialog::open_file(sample_fs(), dir("/tmp"));
    d.open();
    d.apply(d.click_command(0, false, false).unwrap()).unwrap();
    d.edit_filename("other".to_string());
    assert!(!d.can_rename());
    assert!(d.rename_command().is_none());
}

#[test]
fn opening_an_unknown_entry_changes_nothing() {
    let mut d = FileDialog::open_file(sample_fs(), dir("/tmp"));
    d.open();
    d.apply(Command::Open(FileInfo::new(p("/tmp/missing.txt"), FileKind::Unknown))).unwrap();
    assert_eq!(d.state(), State::Open);
    assert!(d.path().is_none());
    assert_eq!(d.filename_edit(), "");
    d.edit_filename("missing.txt".to_string());
    assert!(d.filename_entered(Some(FileKind::Unknown)).is_none());
}

#[test]
fn selected_file_confirms_whatever_the_name_filter() {
    let mut d = FileDialog::open_file(sample_fs(), dir("/tmp"))
        .filename_filter(ExtensionFilter { extensions: vec![".md".to_string()] });
    d.open();
    d.apply(d.click_command(2, false, false).unwrap()).unwrap();
    assert!(d.can_open());
    d.apply(Command::OpenSelected).unwrap();
    assert_eq!(d.state(), State::Selected);
    assert_eq!(d.path().unwrap().to_text(), "/tmp/a.txt");
}

#[test]
fn new_folder_path_uses_typed_or_default_name() {
    let mut d = FileDialog::open_file(sample_fs(), dir("/tmp"));
    assert_eq!(d.new_folder_path().to_text(), "/tmp/New folder");
    d.edit_filename("new".to_string());
    assert_eq!(d.new_folder_path().to_text(), "/tmp/new");
}

#[test]
fn completion_tree_holds_listing_names() {
    let entries = vec![FileInfo::new(p("/a/report.txt"), FileKind::File), FileInfo::new(p("/a/readme"), FileKind::File)];
    let tree = egui_file::completion_tree(&entries);
    let (text, span) = egui_file::complete_text(&tree, "/a/rep", false);
    assert_eq!(text, "/a/report.txt");
    assert_eq!(span, Some((6, 13)));
}

#[test]
fn new_dialog_with_default_name_can_save() {
    let d = FileDialog::save_file(sample_fs(), None).default_filename("out.txt".to_string());
    assert!(d.can_save());
    assert_eq!(d.texts().save_button, "Save");
}
