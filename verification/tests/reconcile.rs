use prompt_scan::entry::{EntryKind, WalkEntry};
use prompt_scan::reconcile::{ignored_paths, PathIndex};

fn file(path: &str) -> WalkEntry {
    WalkEntry { path: path.to_string(), kind: EntryKind::File }
}

fn dir(path: &str) -> WalkEntry {
    WalkEntry { path: path.to_string(), kind: EntryKind::Directory }
}

#[test]
fn an_index_holds_the_paths_of_its_entries() {
    let index = PathIndex::build(&vec![dir(""), file("src/b.rs"), file("a.txt"), file("src/b.rs")]);
    assert!(index.contains("a.txt"));
    assert!(index.contains(""));
    assert!(index.contains("src/b.rs"));
    assert!(!index.contains("A.txt"));
    assert!(!index.contains("src"));
    assert!(!index.contains("src/b.rs/"));
    assert!(!index.contains("zzz"));
}

#[test]
fn an_empty_index_holds_nothing() {
    let index = PathIndex::build(&Vec::new());
    assert!(!index.contains("a.txt"));
    assert!(!index.contains(""));
}

#[test]
fn an_index_finds_every_path_among_many() {
    let names: Vec<String> = (0..200).map(|i| format!("dir{}/file{}.rs", (i * 37) % 11, (i * 53) % 200)).collect();
    let entries: Vec<WalkEntry> = names.iter().map(|n| file(n)).collect();
    let index = PathIndex::build(&entries);
    for name in &names {
        assert!(index.contains(name));
        assert!(!index.contains(&format!("{}x", name)));
    }
}

#[test]
fn ignored_paths_are_those_only_the_unfiltered_walk_found() {
    let all = vec![dir(""), file("a.txt"), file("b.log"), dir("target"), file("target/x.o")];
    let kept = vec![dir(""), file("a.txt")];
    assert_eq!(
        ignored_paths(&all, &kept),
        vec!["b.log".to_string(), "target".to_string(), "target/x.o".to_string()]
    );
}

#[test]
fn ignored_paths_keep_the_order_of_the_unfiltered_walk() {
    let all = vec![file("z"), file("m"), file("a"), file("k")];
    let kept = vec![file("m")];
    assert_eq!(ignored_paths(&all, &kept), vec!["z".to_string(), "a".to_string(), "k".to_string()]);
}

#[test]
fn nothing_is_ignored_where_both_walks_agree() {
    let all = vec![dir(""), file("a.txt"), file("b.txt")];
    let kept = vec![file("b.txt"), dir(""), file("a.txt")];
    assert_eq!(ignored_paths(&all, &kept), Vec::<String>::new());
    assert_eq!(ignored_paths(&Vec::new(), &kept), Vec::<String>::new());
}

#[test]
fn everything_is_ignored_where_the_filtered_walk_found_nothing() {
    let all = vec![file("a.txt"), file("b.txt")];
    assert_eq!(ignored_paths(&all, &Vec::new()), vec!["a.txt".to_string(), "b.txt".to_string()]);
}

#[test]
fn paths_are_compared_exactly() {
    let all = vec![file("Foo.txt"), file("src/a"), file("src/a ")];
    let kept = vec![file("foo.txt"), file("src/a")];
    assert_eq!(ignored_paths(&all, &kept), vec!["Foo.txt".to_string(), "src/a ".to_string()]);
}

#[test]
fn the_kind_of_an_entry_plays_no_part_in_reconciliation() {
    let all = vec![file("x")];
    let kept = vec![dir("x")];
    assert_eq!(ignored_paths(&all, &kept), Vec::<String>::new());
}
