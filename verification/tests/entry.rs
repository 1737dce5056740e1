use prompt_scan::entry::{relativize, strip_root, EntryKind, WalkEntry};

fn entry(path: &str, kind: EntryKind) -> WalkEntry {
    WalkEntry { path: path.to_string(), kind }
}

#[test]
fn the_root_itself_has_the_empty_relative_path() {
    assert_eq!(strip_root("/work/project", "/work/project"), Some(String::new()));
    assert_eq!(strip_root("/", "/"), Some(String::new()));
}

#[test]
fn a_path_below_the_root_loses_the_root_and_its_separator() {
    assert_eq!(strip_root("/work/project", "/work/project/a.txt"), Some("a.txt".to_string()));
    assert_eq!(
        strip_root("/work/project", "/work/project/src/main.rs"),
        Some("src/main.rs".to_string())
    );
}

#[test]
fn a_root_that_ends_in_a_separator_is_stripped_whole() {
    assert_eq!(strip_root("/", "/etc/hosts"), Some("etc/hosts".to_string()));
    assert_eq!(strip_root("/work/", "/work/a.txt"), Some("a.txt".to_string()));
}

#[test]
fn a_path_elsewhere_has_no_relative_path() {
    assert_eq!(strip_root("/work/project", "/work/other/a.txt"), None);
    assert_eq!(strip_root("/work/project", "/work"), None);
    assert_eq!(strip_root("/work/project", ""), None);
}

#[test]
fn a_sibling_whose_name_extends_the_root_is_not_below_it() {
    assert_eq!(strip_root("/work/project", "/work/project2/a.txt"), None);
    assert_eq!(strip_root("/work/project", "/work/projects"), None);
}

#[test]
fn paths_with_characters_of_several_bytes_are_cut_at_characters() {
    assert_eq!(strip_root("/дом", "/дом/файл.txt"), Some("файл.txt".to_string()));
    assert_eq!(strip_root("/дом", "/дома/файл.txt"), None);
}

#[test]
fn relativize_keeps_order_and_kind() {
    let entries = vec![
        entry("/r", EntryKind::Directory),
        entry("/r/b.txt", EntryKind::File),
        entry("/r/src", EntryKind::Directory),
        entry("/r/src/a.rs", EntryKind::File),
        entry("/r/link", EntryKind::Other),
    ];
    assert_eq!(
        relativize("/r", &entries),
        vec![
            entry("", EntryKind::Directory),
            entry("b.txt", EntryKind::File),
            entry("src", EntryKind::Directory),
            entry("src/a.rs", EntryKind::File),
            entry("link", EntryKind::Other),
        ]
    );
}

#[test]
fn relativize_leaves_out_entries_that_are_not_below_the_root() {
    let entries = vec![
        entry("/r/a.txt", EntryKind::File),
        entry("/elsewhere/b.txt", EntryKind::File),
        entry("/r2/c.txt", EntryKind::File),
        entry("/r/d.txt", EntryKind::File),
    ];
    assert_eq!(
        relativize("/r", &entries),
        vec![entry("a.txt", EntryKind::File), entry("d.txt", EntryKind::File)]
    );
    assert_eq!(relativize("/r", &Vec::new()), Vec::new());
}
