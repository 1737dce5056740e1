use prompt_scan::render::{build_prompt, build_tree, concat_files, render_prompt, SourceFile};

fn file(path: &str, content: Option<&str>) -> SourceFile {
    SourceFile { path: path.to_string(), content: content.map(|c| c.to_string()) }
}

#[test]
fn tree_of_no_entries_is_the_root_line() {
    let entries: Vec<String> = Vec::new();
    assert_eq!(build_tree(&entries), ".\n");
}

#[test]
fn tree_lists_each_entry_on_its_own_line() {
    let entries = vec!["a.txt".to_string(), "src/main.rs".to_string()];
    assert_eq!(build_tree(&entries), ".\n├── a.txt\n├── src/main.rs\n");
}

#[test]
fn sections_show_path_and_content() {
    let files = vec![file("a.txt", Some("alpha")), file("b.txt", Some("beta\n"))];
    assert_eq!(
        concat_files(&files),
        "\n\n--- File: a.txt ---\n\nalpha\n\n--- File: b.txt ---\n\nbeta\n"
    );
}

#[test]
fn prompt_has_the_documented_structure() {
    let files = vec![file("a.txt", Some("alpha")), file("b.txt", Some("beta"))];
    let expected = "I want you to help me fix some issues with my code.\n\
\n\
I have attached the code and file structure.\n\
\n\
File Tree:\n\
.\n\
├── a.txt\n\
├── b.txt\n\
\n\
Concatenated Files:\n\
\n\
--- File: a.txt ---\n\
\n\
alpha\n\
\n\
--- File: b.txt ---\n\
\n\
beta";
    assert_eq!(render_prompt(&files), expected);
    assert_eq!(build_prompt(".\n", ""), "I want you to help me fix some issues with my code.\n\nI have attached the code and file structure.\n\nFile Tree:\n.\n\nConcatenated Files:");
}

#[test]
fn a_file_that_was_not_read_has_no_section() {
    let with_gap = vec![file("a.txt", Some("alpha")), file("b.txt", None), file("c.txt", Some("gamma"))];
    let without = vec![file("a.txt", Some("alpha")), file("c.txt", Some("gamma"))];
    assert_eq!(concat_files(&with_gap), concat_files(&without));
    assert_eq!(
        concat_files(&with_gap),
        "\n\n--- File: a.txt ---\n\nalpha\n\n--- File: c.txt ---\n\ngamma"
    );
}

#[test]
fn a_file_that_was_not_read_stays_in_the_tree() {
    let files = vec![file("a.txt", Some("alpha")), file("b.txt", None)];
    let prompt = render_prompt(&files);
    assert!(prompt.contains("File Tree:\n.\n├── a.txt\n├── b.txt\n\nConcatenated Files:"));
    assert!(!prompt.contains("--- File: b.txt ---"));
    assert!(prompt.ends_with("\n\n--- File: a.txt ---\n\nalpha"));
}

#[test]
fn no_file_gives_no_section() {
    assert_eq!(concat_files(&Vec::new()), "");
    assert_eq!(concat_files(&vec![file("a", None), file("b", None)]), "");
    assert_eq!(
        render_prompt(&Vec::new()),
        "I want you to help me fix some issues with my code.\n\nI have attached the code and file structure.\n\nFile Tree:\n.\n\nConcatenated Files:"
    );
}

#[test]
fn an_empty_file_has_a_section_without_text() {
    assert_eq!(concat_files(&vec![file("empty", Some(""))]), "\n\n--- File: empty ---\n\n");
}

#[test]
fn rendering_twice_gives_the_same_prompt() {
    let files = vec![file("a.txt", Some("alpha")), file("b.txt", None), file("c.txt", Some("gamma"))];
    assert_eq!(render_prompt(&files), render_prompt(&files.clone()));
}
