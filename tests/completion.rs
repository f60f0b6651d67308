use egui_file::{complete_from_names, complete_text, PrefixTree};

fn names(list: &[&str]) -> Vec<String> {
    list.iter().map(|s| s.to_string()).collect()
}

#[test]
fn ambiguous_continuation_is_not_extended() {
    let siblings = names(&["abc", "abcd", "abx"]);
    assert_eq!(complete_from_names(&siblings, "ab"), Some("ab".to_string()));
}

#[test]
fn shared_prefix_is_extended_until_names_part() {
    let siblings = names(&["abc", "abcd", "abx"]);
    assert_eq!(complete_from_names(&siblings, "a"), Some("ab".to_string()));
    assert_eq!(complete_from_names(&siblings, "abc"), Some("abc".to_string()));
    assert_eq!(complete_from_names(&siblings, "abcd"), Some("abcd".to_string()));
}

#[test]
fn single_match_is_completed_to_the_whole_name() {
    let siblings = names(&["report.txt"]);
    assert_eq!(complete_from_names(&siblings, "rep"), Some("report.txt".to_string()));
    assert_eq!(complete_from_names(&siblings, ""), Some("report.txt".to_string()));
}

#[test]
fn no_match_gives_no_completion() {
    let siblings = names(&["report.txt", "readme.md"]);
    assert_eq!(complete_from_names(&siblings, "x"), None);
    assert_eq!(complete_from_names(&siblings, "repx"), None);
    assert_eq!(complete_from_names(&names(&[]), ""), None);
    assert_eq!(complete_from_names(&siblings, "re"), Some("re".to_string()));
}

#[test]
fn stops_at_a_whole_name() {
    let siblings = names(&["data", "database", "datab"]);
    assert_eq!(complete_from_names(&siblings, "d"), Some("data".to_string()));
    assert_eq!(complete_from_names(&siblings, "datab"), Some("datab".to_string()));
    assert_eq!(complete_from_names(&siblings, "databa"), Some("database".to_string()));
}

#[test]
fn completion_of_non_ascii_names() {
    let siblings = names(&["été.txt", "étage"]);
    assert_eq!(complete_from_names(&siblings, "é"), Some("ét".to_string()));
    assert_eq!(complete_from_names(&siblings, "été"), Some("été.txt".to_string()));
    assert_eq!(complete_from_names(&siblings, "éte"), None);
}

#[test]
fn typed_path_completion_marks_added_span() {
    let mut tree = PrefixTree::new();
    tree.insert("report.txt");
    let (text, span) = complete_text(&tree, "/home/rep", false);
    assert_eq!(text, "/home/report.txt");
    assert_eq!(span, Some((9, 16)));
}

#[test]
fn typed_path_completion_skipped_on_deletion() {
    let tree = PrefixTree::from_names(&names(&["report.txt"]));
    let (text, span) = complete_text(&tree, "/home/rep", true);
    assert_eq!(text, "/home/rep");
    assert_eq!(span, None);
}

#[test]
fn typed_path_completion_keeps_non_matching_input() {
    let tree = PrefixTree::from_names(&names(&["report.txt"]));
    let (text, span) = complete_text(&tree, "/home/zz", false);
    assert_eq!(text, "/home/zz");
    assert_eq!(span, None);
    let tree = PrefixTree::from_names(&names(&["abc", "abx"]));
    let (text, span) = complete_text(&tree, "/ab", false);
    assert_eq!(text, "/ab");
    assert_eq!(span, None);
}
