use prompt_scan::collect::{regular_files, sort_paths};
use prompt_scan::entry::{EntryKind, WalkEntry};
use prompt_scan::text::text_le;

fn entry(path: &str, kind: EntryKind) -> WalkEntry {
    WalkEntry { path: path.to_string(), kind }
}

fn strings(items: &[&str]) -> Vec<String> {
    items.iter().map(|s| s.to_string()).collect()
}

#[test]
fn regular_files_leaves_out_directories_and_other_nodes() {
    let entries = vec![
        entry("", EntryKind::Directory),
        entry("b.txt", EntryKind::File),
        entry("src", EntryKind::Directory),
        entry("link", EntryKind::Other),
        entry("src/a.rs", EntryKind::File),
    ];
    assert_eq!(regular_files(&entries), strings(&["b.txt", "src/a.rs"]));
    assert_eq!(regular_files(&Vec::new()), Vec::<String>::new());
}

#[test]
fn sort_order() {
    assert_eq!(sort_paths(&strings(&["b.txt", "a.txt", "c.txt"])), strings(&["a.txt", "b.txt", "c.txt"]));
}

#[test]
fn sorting_is_by_the_whole_path_text() {
    let sorted = sort_paths(&strings(&["src/main.rs", "README.md", "src.txt", "Cargo.toml", "src/lib.rs", "a"]));
    assert_eq!(sorted, strings(&["Cargo.toml", "README.md", "a", "src.txt", "src/lib.rs", "src/main.rs"]));
}

#[test]
fn sorting_keeps_equal_paths() {
    assert_eq!(sort_paths(&strings(&["b", "a", "b", "a"])), strings(&["a", "a", "b", "b"]));
}

#[test]
fn sorting_nothing_or_one_path_changes_nothing() {
    assert_eq!(sort_paths(&Vec::new()), Vec::<String>::new());
    assert_eq!(sort_paths(&strings(&["only"])), strings(&["only"]));
}

#[test]
fn sorted_paths_ascend_and_are_a_rearrangement() {
    let input = strings(&["m/2", "m/10", "é", "z", "", "m", "M", "m/1", "a/b/c", "a/b", "a-b"]);
    let sorted = sort_paths(&input);
    assert_eq!(sorted.len(), input.len());
    for i in 1..sorted.len() {
        assert!(text_le(&sorted[i - 1], &sorted[i]));
    }
    let mut expected = input.clone();
    expected.sort();
    assert_eq!(sorted, expected);
}

#[test]
fn sorting_sorted_or_reversed_input_gives_the_same_result() {
    let ascending = strings(&["a", "b", "c", "d", "e"]);
    let descending = strings(&["e", "d", "c", "b", "a"]);
    assert_eq!(sort_paths(&ascending), ascending);
    assert_eq!(sort_paths(&descending), ascending);
}
