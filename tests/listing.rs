use egui_file::{
    build_listing, parse_path, sort_entries, AcceptAll, EntryPath, ExtensionFilter, FileInfo, FileKind, Filter,
    ListingOptions, VfsFile,
};

fn entry(path: &str, kind: FileKind) -> FileInfo {
    FileInfo::new(parse_path(path).unwrap(), kind)
}

fn names(list: &[FileInfo]) -> Vec<String> {
    list.iter().map(|e| e.get_file_name().to_string()).collect()
}

#[test]
fn extension_filter_matches_suffixes() {
    let filter = ExtensionFilter { extensions: vec![".txt".to_string(), ".md".to_string()] };
    assert!(filter.accepts("/d/a.txt"));
    assert!(filter.accepts("README.md"));
    assert!(!filter.accepts("a.txt.bak"));
    assert!(!filter.accepts("txt"));
    assert!(AcceptAll.accepts(""));
}

fn options(folders_only: bool, show_hidden: bool, show_drives: bool) -> ListingOptions {
    ListingOptions { folders_only, show_hidden, show_drives, show_system_files: true }
}

#[test]
fn system_entries_are_dropped_unless_shown() {
    let raw = vec![entry("/d/sock", FileKind::Unknown), entry("/d/f", FileKind::File), entry("/d/s", FileKind::Directory)];
    let hidden = ListingOptions { folders_only: false, show_hidden: false, show_drives: false, show_system_files: false };
    let (out, _) = build_listing(raw.clone(), hidden, &AcceptAll);
    assert_eq!(names(&out), vec!["s", "f"]);
    let (out, _) = build_listing(raw, options(false, false, false), &AcceptAll);
    assert_eq!(names(&out), vec!["s", "f", "sock"]);
}

#[test]
fn directories_come_before_files() {
    let raw = vec![
        entry("/d/zeta.txt", FileKind::File),
        entry("/d/beta", FileKind::Directory),
        entry("/d/alpha.txt", FileKind::File),
        entry("/d/Gamma", FileKind::Directory),
        entry("/d/odd", FileKind::Unknown),
    ];
    let (out, roots) = build_listing(raw, options(false, false, false), &AcceptAll);
    assert_eq!(roots, 0);
    assert_eq!(names(&out), vec!["Gamma", "beta", "alpha.txt", "odd", "zeta.txt"]);
    let first_file = out.iter().position(|e| !e.is_dir()).unwrap();
    assert!(out[first_file..].iter().all(|e| !e.is_dir()));
}

#[test]
fn names_ascend_by_character_order() {
    let raw = vec![
        entry("/d/b", FileKind::File),
        entry("/d/a", FileKind::File),
        entry("/d/ab", FileKind::File),
        entry("/d/B", FileKind::File),
        entry("/d/é", FileKind::File),
    ];
    let (out, _) = build_listing(raw, options(false, true, false), &AcceptAll);
    assert_eq!(names(&out), vec!["B", "a", "ab", "b", "é"]);
}

#[test]
fn listing_clears_marks() {
    let mut marked = entry("/d/x", FileKind::File);
    marked.set_selected(true);
    let (out, _) = build_listing(vec![marked], options(false, false, false), &AcceptAll);
    assert_eq!(out.len(), 1);
    assert!(!out[0].selected());
}

#[test]
fn hidden_names_are_dropped_unless_shown() {
    let raw = vec![entry("/d/.git", FileKind::Directory), entry("/d/.bashrc", FileKind::File), entry("/d/src", FileKind::Directory)];
    let (out, _) = build_listing(raw.clone(), options(false, false, false), &AcceptAll);
    assert_eq!(names(&out), vec!["src"]);
    let (out, _) = build_listing(raw, options(false, true, false), &AcceptAll);
    assert_eq!(names(&out), vec![".git", "src", ".bashrc"]);
}

#[test]
fn folder_dialogs_list_directories_only() {
    let raw = vec![entry("/d/a.txt", FileKind::File), entry("/d/sub", FileKind::Directory), entry("/d/u", FileKind::Unknown)];
    let (out, _) = build_listing(raw, options(true, false, false), &AcceptAll);
    assert_eq!(names(&out), vec!["sub"]);
}

#[test]
fn show_filter_applies_to_files_only() {
    let raw = vec![
        entry("/d/a.txt", FileKind::File),
        entry("/d/b.rs", FileKind::File),
        entry("/d/src.rs", FileKind::Directory),
    ];
    let (out, _) = build_listing(raw, options(false, false, false), &ExtensionFilter { extensions: vec![".txt".to_string()] });
    assert_eq!(names(&out), vec!["src.rs", "a.txt"]);
}

#[test]
fn volume_roots_lead_in_backend_order() {
    let raw = vec![
        entry("/d/file", FileKind::File),
        FileInfo::new(EntryPath::from_root("D:\\"), FileKind::Unknown),
        entry("/d/dir", FileKind::Directory),
        FileInfo::new(EntryPath::from_root("C:\\"), FileKind::Directory),
    ];
    let (out, roots) = build_listing(raw.clone(), options(false, false, true), &AcceptAll);
    assert_eq!(roots, 2);
    assert_eq!(names(&out), vec!["D:\\", "C:\\", "dir", "file"]);
    assert!(out[0].is_dir() && out[1].is_dir());
    let (out, roots) = build_listing(raw, options(false, false, false), &AcceptAll);
    assert_eq!(roots, 0);
    assert_eq!(names(&out), vec!["dir", "file"]);
}

#[test]
fn sorting_keeps_every_entry() {
    let raw = vec![
        entry("/d/c", FileKind::File),
        entry("/d/a", FileKind::Directory),
        entry("/d/c", FileKind::File),
        entry("/d/b", FileKind::File),
    ];
    let out = sort_entries(raw);
    assert_eq!(names(&out), vec!["a", "b", "c", "c"]);
}

#[test]
fn empty_listing_stays_empty() {
    let (out, roots) = build_listing(Vec::new(), options(false, false, true), &AcceptAll);
    assert!(out.is_empty());
    assert_eq!(roots, 0);
}
