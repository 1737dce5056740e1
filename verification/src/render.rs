//! Rendering of the file tree, the file sections and the prompt.

use crate::text::texts;
use vstd::prelude::*;

verus! {

/// A collected file as it was read: its relative path, and its text where
/// the file could be read as text.
#[derive(Clone, Debug, PartialEq, Eq)]
pub struct SourceFile {
    /// The path of the file, relative to the root.
    pub path: String,
    /// The text of the file; `None` where it could not be read.
    pub content: Option<String>,
}

/// The mathematical model of a [`SourceFile`].
pub struct SourceModel {
    /// The path as text.
    pub path: Seq<char>,
    /// The text of the file; `None` where it could not be read.
    pub content: Option<Seq<char>>,
}

impl View for SourceFile {
    type V = SourceModel;

    open spec fn view(&self) -> SourceModel {
        SourceModel {
            path: self.path@,
            content: match self.content {
                Some(c) => Some(c@),
                None => None,
            },
        }
    }
}

/// The models of a sequence of files, in order.
pub open spec fn sources(files: Seq<SourceFile>) -> Seq<SourceModel> {
    files.map_values(|f: SourceFile| f@)
}

/// The paths of a sequence of files, in order.
pub open spec fn source_paths(files: Seq<SourceModel>) -> Seq<Seq<char>> {
    files.map_values(|f: SourceModel| f.path)
}

/// The line of the tree that shows `path`.
pub open spec fn tree_line(path: Seq<char>) -> Seq<char> {
    "├── "@ + path + "\n"@
}

/// The tree listing: a line for the root, then one line for each path, in order.
pub open spec fn tree_text(paths: Seq<Seq<char>>) -> Seq<char> {
    ".\n"@ + paths.map_values(|p: Seq<char>| tree_line(p)).flatten()
}

/// The section that shows the file at `path` with the text `content`.
pub open spec fn section(path: Seq<char>, content: Seq<char>) -> Seq<char> {
    "\n\n--- File: "@ + path + " ---\n\n"@ + content
}

/// The section of a file that was read; none for a file that was not.
pub open spec fn section_of(file: SourceModel) -> Option<Seq<char>> {
    match file.content {
        Some(c) => Some(section(file.path, c)),
        None => None,
    }
}

/// The sections of the files that were read, in order, one after another.
pub open spec fn sections_text(files: Seq<SourceModel>) -> Seq<char> {
    files.filter_map(|f: SourceModel| section_of(f)).flatten()
}

/// The prompt that holds the tree `tree` and the sections `sections`.
pub open spec fn prompt_text(tree: Seq<char>, sections: Seq<char>) -> Seq<char> {
    "I want you to help me fix some issues with my code.\n\nI have attached the code and file structure.\n\nFile Tree:\n"@
        + tree + "\nConcatenated Files:"@ + sections
}

/// The whole prompt for `files`: the tree of all their paths, then the
/// sections of those that were read.
pub open spec fn prompt_of(files: Seq<SourceModel>) -> Seq<char> {
    prompt_text(tree_text(source_paths(files)), sections_text(files))
}

/// Renders the tree listing of `entries`, in the order given.
pub fn build_tree(entries: &[String]) -> (tree: String)
    ensures
        tree@ == tree_text(texts(entries@)),
{
    let mut tree = String::from_str(".\n");
    let ghost line = |p: Seq<char>| tree_line(p);
    let mut i: usize = 0;
    proof {
        assert(texts(entries@).take(0).map_values(line) == Seq::<Seq<char>>::empty());
    }
    while i < entries.len()
        invariant
            i <= entries.len(),
            line == |p: Seq<char>| tree_line(p),
            tree@ == ".\n"@ + texts(entries@).take(i as int).map_values(line).flatten(),
        decreases entries.len() - i,
    {
        proof {
            let done = texts(entries@).take(i as int);
            let p = entries@[i as int]@;
            assert(texts(entries@).take(i as int + 1).map_values(line) == done.map_values(
                line,
            ).push(tree_line(p)));
            done.map_values(line).lemma_flatten_push(tree_line(p));
        }
        tree.append("├── ");
        tree.append(entries[i].as_str());
        tree.append("\n");
        i = i + 1;
    }
    proof {
        assert(texts(entries@).take(entries.len() as int) == texts(entries@));
    }
    tree
}

/// Renders the sections of the files that were read, in the order given.
/// A file that was not read has no section.
pub fn concat_files(files: &Vec<SourceFile>) -> (out: String)
    ensures
        out@ == sections_text(sources(files@)),
{
    let mut out = String::new();
    let ghost f = |s: SourceModel| section_of(s);
    let mut i: usize = 0;
    proof {
        assert(sources(files@).take(0).filter_map(f) == Seq::<Seq<char>>::empty());
    }
    while i < files.len()
        invariant
            i <= files.len(),
            f == |s: SourceModel| section_of(s),
            out@ == sources(files@).take(i as int).filter_map(f).flatten(),
        decreases files.len() - i,
    {
        proof {
            let done = sources(files@).take(i as int).filter_map(f);
            sources(files@).lemma_filter_map_take_succ(f, i as int);
            match section_of(sources(files@)[i as int]) {
                Some(s) => {
                    assert(done + seq![s] == done.push(s));
                    done.lemma_flatten_push(s);
                },
                None => {
                    assert(done + Seq::<Seq<char>>::empty() == done);
                },
            }
        }
        match &files[i].content {
            Some(content) => {
                out.append("\n\n--- File: ");
                out.append(files[i].path.as_str());
                out.append(" ---\n\n");
                out.append(content.as_str());
            },
            None => {},
        }
        i = i + 1;
    }
    proof {
        assert(sources(files@).take(files.len() as int) == sources(files@));
    }
    out
}

/// Puts the tree and the sections into the prompt.
pub fn build_prompt(tree: &str, sections: &str) -> (prompt: String)
    ensures
        prompt@ == prompt_text(tree@, sections@),
{
    let mut prompt = String::from_str(
        "I want you to help me fix some issues with my code.\n\nI have attached the code and file structure.\n\nFile Tree:\n",
    );
    prompt.append(tree);
    prompt.append("\nConcatenated Files:");
    prompt.append(sections);
    prompt
}

/// Renders the whole prompt for `files`: the tree of all their paths, then
/// the sections of those that were read, both in the order given.
pub fn render_prompt(files: &Vec<SourceFile>) -> (prompt: String)
    ensures
        prompt@ == prompt_of(sources(files@)),
{
    let mut paths: Vec<String> = Vec::new();
    let mut i: usize = 0;
    while i < files.len()
        invariant
            i <= files.len(),
            texts(paths@) == source_paths(sources(files@)).take(i as int),
        decreases files.len() - i,
    {
        let ghost before = paths@;
        paths.push(files[i].path.clone());
        proof {
            assert(texts(paths@) == texts(before).push(files@[i as int].path@));
            assert(source_paths(sources(files@)).take(i as int + 1) == source_paths(
                sources(files@),
            ).take(i as int).push(files@[i as int].path@));
        }
        i = i + 1;
    }
    proof {
        assert(source_paths(sources(files@)).take(files.len() as int) == source_paths(
            sources(files@),
        ));
    }
    let tree = build_tree(paths.as_slice());
    let sections = concat_files(files);
    build_prompt(tree.as_str(), sections.as_str())
}

} // verus!
