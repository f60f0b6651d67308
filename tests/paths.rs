use egui_file::{is_drive_root, parse_path, EntryPath};

#[test]
fn drive_roots_are_recognised() {
    assert!(is_drive_root("C:\\"));
    assert!(is_drive_root("Z:\\"));
    assert!(!is_drive_root("c:\\"));
    assert!(!is_drive_root("C:"));
    assert!(!is_drive_root("C:/"));
    assert!(!is_drive_root("CC:\\"));
    assert!(!is_drive_root("/"));
    assert!(!is_drive_root("é:\\"));
}

#[test]
fn parse_absolute_unix_path() {
    let p = parse_path("/home//user/docs/").unwrap();
    assert_eq!(p.root, "/");
    assert_eq!(p.parts, vec!["home".to_string(), "user".to_string(), "docs".to_string()]);
    assert_eq!(p.to_text(), "/home/user/docs");
    assert_eq!(p.display_name(), "docs");
}

#[test]
fn parse_drive_path() {
    let p = parse_path("D:\\games\\old").unwrap();
    assert_eq!(p.root, "D:\\");
    assert_eq!(p.parts, vec!["games".to_string(), "old".to_string()]);
    assert_eq!(p.to_text(), "D:\\games/old");
}

#[test]
fn parse_rejects_relative_paths() {
    assert!(parse_path("docs/file.txt").is_none());
    assert!(parse_path("").is_none());
    assert!(parse_path("c:\\x").is_none());
}

#[test]
fn root_display_names() {
    let unix = EntryPath::unix_root();
    assert_eq!(unix.to_text(), "/");
    assert_eq!(unix.display_name(), "");
    assert!(!unix.has_parent());
    let drive = EntryPath::from_root("C:\\");
    assert_eq!(drive.display_name(), "C:\\");
}

#[test]
fn join_pop_and_sibling() {
    let base = parse_path("/tmp").unwrap();
    let file = base.join("a.txt");
    assert_eq!(file.to_text(), "/tmp/a.txt");
    let sibling = file.with_file_name("b.txt");
    assert_eq!(sibling.to_text(), "/tmp/b.txt");
    assert!(sibling.same_as(&parse_path("/tmp/b.txt").unwrap()));
    assert!(!sibling.same_as(&file));
    let mut up = sibling.duplicate();
    assert!(up.pop());
    assert_eq!(up.to_text(), "/tmp");
    assert!(up.pop());
    assert!(!up.pop());
    assert_eq!(up.to_text(), "/");
}
