//! What holds of every scan and of every prompt.

use crate::collect::{file_path, file_paths, is_file, is_sorted_form_of};
use crate::entry::{relative_entry, relative_to, relativized, EntryModel};
use crate::reconcile::{ignored, paths_of};
use crate::render::{prompt_of, section_of, sections_text, SourceModel};
use crate::seqs::{
    lemma_filter_map_concat, lemma_filter_map_member, lemma_filter_map_origin,
    lemma_filter_map_permutation, lemma_filter_map_push,
};
use crate::text::{lemma_lex_le_total_ordering, lex_order};
use vstd::prelude::*;
use vstd::relations::sorted_by;
use vstd::seq_lib::{lemma_sorted_unique, to_multiset_contains};

verus! {

/// The files of a file set as they are read where `contents` gives the text
/// of each readable path.
pub open spec fn read_with(
    files: Seq<Seq<char>>,
    contents: spec_fn(Seq<char>) -> Option<Seq<char>>,
) -> Seq<SourceModel> {
    files.map_values(|p: Seq<char>| SourceModel { path: p, content: contents(p) })
}

/// Two filtered walks that report the same entries, in whatever order, give
/// the same file set, path for path; and with the same file contents, the
/// same prompt, character for character.
pub proof fn lemma_scan_is_deterministic(
    root: Seq<char>,
    first: Seq<EntryModel>,
    second: Seq<EntryModel>,
    files_first: Seq<Seq<char>>,
    files_second: Seq<Seq<char>>,
    contents: spec_fn(Seq<char>) -> Option<Seq<char>>,
)
    requires
        first.to_multiset() == second.to_multiset(),
        is_sorted_form_of(files_first, file_paths(relativized(root, first))),
        is_sorted_form_of(files_second, file_paths(relativized(root, second))),
    ensures
        files_first == files_second,
        prompt_of(read_with(files_first, contents)) == prompt_of(
            read_with(files_second, contents),
        ),
{
    lemma_filter_map_permutation(first, second, |e: EntryModel| relative_entry(root, e));
    lemma_filter_map_permutation(
        relativized(root, first),
        relativized(root, second),
        |e: EntryModel| file_path(e),
    );
    lemma_lex_le_total_ordering();
    assert(sorted_by(files_first, lex_order()));
    assert(sorted_by(files_second, lex_order()));
    lemma_sorted_unique(files_first, files_second, lex_order());
}

/// A path is in the file set exactly if the filtered walk found a regular
/// file at or below the root that has this path relative to the root.
pub proof fn lemma_file_set_holds_the_kept_files(
    root: Seq<char>,
    filtered: Seq<EntryModel>,
    files: Seq<Seq<char>>,
    path: Seq<char>,
)
    requires
        is_sorted_form_of(files, file_paths(relativized(root, filtered))),
    ensures
        files.contains(path) <==> exists|i: int|
            0 <= i < filtered.len() && is_file(#[trigger] filtered[i]) && relative_to(
                root,
                filtered[i].path,
            ) == Some(path),
{
    let relative = relativized(root, filtered);
    let rel = |e: EntryModel| relative_entry(root, e);
    let fp = |e: EntryModel| file_path(e);
    to_multiset_contains(files, path);
    to_multiset_contains(file_paths(relative), path);
    if files.contains(path) {
        let k = lemma_filter_map_origin(relative, fp, path);
        assert(relative.contains(relative[k]));
        let i = lemma_filter_map_origin(filtered, rel, relative[k]);
        assert(is_file(filtered[i]) && relative_to(root, filtered[i].path) == Some(path));
    }
    if exists|i: int|
        0 <= i < filtered.len() && is_file(#[trigger] filtered[i]) && relative_to(
            root,
            filtered[i].path,
        ) == Some(path) {
        let i = choose|i: int|
            0 <= i < filtered.len() && is_file(#[trigger] filtered[i]) && relative_to(
                root,
                filtered[i].path,
            ) == Some(path);
        lemma_filter_map_member(filtered, rel, i);
        let e = rel(filtered[i])->0;
        let k = choose|k: int| 0 <= k < relative.len() && relative[k] == e;
        lemma_filter_map_member(relative, fp, k);
    }
}

/// A path is ignored exactly if the unfiltered walk has it and the filtered
/// walk does not.
pub proof fn lemma_ignored_membership(all: Seq<EntryModel>, kept: Seq<EntryModel>, path: Seq<char>)
    ensures
        ignored(all, kept).contains(path) <==> paths_of(all).contains(path) && !paths_of(
            kept,
        ).contains(path),
{
    let absent = |p: Seq<char>| !paths_of(kept).contains(p);
    if ignored(all, kept).contains(path) {
        paths_of(all).lemma_filter_contains_rev(absent, path);
        let k = choose|k: int|
            0 <= k < ignored(all, kept).len() && ignored(all, kept)[k] == path;
        paths_of(all).lemma_filter_pred(absent, k);
    }
    if paths_of(all).contains(path) && !paths_of(kept).contains(path) {
        let i = choose|i: int| 0 <= i < paths_of(all).len() && paths_of(all)[i] == path;
        paths_of(all).lemma_filter_contains(absent, i);
    }
}

/// A path is among the file paths of a walk exactly if one of the walk's
/// regular files has it.
pub proof fn lemma_file_paths_membership(entries: Seq<EntryModel>, path: Seq<char>)
    ensures
        file_paths(entries).contains(path) <==> exists|i: int|
            0 <= i < entries.len() && is_file(#[trigger] entries[i]) && entries[i].path == path,
{
    let fp = |e: EntryModel| file_path(e);
    if file_paths(entries).contains(path) {
        let i = lemma_filter_map_origin(entries, fp, path);
        assert(is_file(entries[i]) && entries[i].path == path);
    }
    if exists|i: int|
        0 <= i < entries.len() && is_file(#[trigger] entries[i]) && entries[i].path == path {
        let i = choose|i: int|
            0 <= i < entries.len() && is_file(#[trigger] entries[i]) && entries[i].path == path;
        lemma_filter_map_member(entries, fp, i);
    }
}

/// Whether the filtered walk found nothing that the unfiltered walk did not.
pub open spec fn kept_is_part_of(kept: Seq<EntryModel>, all: Seq<EntryModel>) -> bool {
    forall|j: int| 0 <= j < kept.len() ==> all.contains(#[trigger] kept[j])
}

/// Whether a path names one node: entries with the same path are of the same kind.
pub open spec fn paths_name_one_node(all: Seq<EntryModel>) -> bool {
    forall|i: int, j: int|
        0 <= i < all.len() && 0 <= j < all.len() && (#[trigger] all[i]).path == (
        #[trigger] all[j]).path ==> all[i].kind == all[j].kind
}

/// Whether the rules took away nothing but regular files: every other node
/// of the unfiltered walk has its path in the filtered walk.
pub open spec fn only_files_were_ignored(all: Seq<EntryModel>, kept: Seq<EntryModel>) -> bool {
    forall|i: int|
        0 <= i < all.len() && !is_file(#[trigger] all[i]) ==> paths_of(kept).contains(all[i].path)
}

/// No file is lost or counted twice: the path of a regular file of the
/// unfiltered walk is in the file set or in the ignored set, and never in
/// both; and the file set holds only such paths.
///
/// This holds where the filtered walk found nothing that the unfiltered walk
/// did not, and where a path names one node.
pub proof fn lemma_file_is_kept_or_ignored(
    all: Seq<EntryModel>,
    kept: Seq<EntryModel>,
    files: Seq<Seq<char>>,
    ignored_paths: Seq<Seq<char>>,
    path: Seq<char>,
)
    requires
        is_sorted_form_of(files, file_paths(kept)),
        ignored_paths == ignored(all, kept),
        kept_is_part_of(kept, all),
        paths_name_one_node(all),
    ensures
        file_paths(all).contains(path) ==> (ignored_paths.contains(path) != files.contains(path)),
        files.contains(path) ==> file_paths(all).contains(path),
        !(ignored_paths.contains(path) && files.contains(path)),
{
    to_multiset_contains(files, path);
    to_multiset_contains(file_paths(kept), path);
    lemma_ignored_membership(all, kept, path);
    lemma_file_paths_membership(kept, path);
    lemma_file_paths_membership(all, path);
    if files.contains(path) {
        let j = choose|j: int|
            0 <= j < kept.len() && is_file(#[trigger] kept[j]) && kept[j].path == path;
        assert(paths_of(kept)[j] == path);
        assert(all.contains(kept[j]));
        let i = choose|i: int| 0 <= i < all.len() && all[i] == kept[j];
        assert(is_file(all[i]) && all[i].path == path);
    }
    if file_paths(all).contains(path) {
        let i = choose|i: int|
            0 <= i < all.len() && is_file(#[trigger] all[i]) && all[i].path == path;
        assert(paths_of(all)[i] == path);
        if paths_of(kept).contains(path) {
            let j = choose|j: int| 0 <= j < paths_of(kept).len() && paths_of(kept)[j] == path;
            assert(kept[j].path == path);
            assert(all.contains(kept[j]));
            let i2 = choose|i2: int| 0 <= i2 < all.len() && all[i2] == kept[j];
            assert(all[i2].kind == all[i].kind);
            assert(is_file(kept[j]));
        }
    }
}

/// The ignored set and the file set together are the regular files of the
/// unfiltered walk, and no path is in both.
///
/// This holds where the filtered walk found nothing that the unfiltered walk
/// did not, where a path names one node, and where the rules took away
/// nothing but regular files: an ignored directory is in the ignored set and
/// is no file.
pub proof fn lemma_reconciliation_is_complete(
    all: Seq<EntryModel>,
    kept: Seq<EntryModel>,
    files: Seq<Seq<char>>,
    ignored_paths: Seq<Seq<char>>,
)
    requires
        is_sorted_form_of(files, file_paths(kept)),
        ignored_paths == ignored(all, kept),
        kept_is_part_of(kept, all),
        paths_name_one_node(all),
        only_files_were_ignored(all, kept),
    ensures
        ignored_paths.to_set().union(files.to_set()) == file_paths(all).to_set(),
        ignored_paths.to_set().disjoint(files.to_set()),
{
    assert forall|p: Seq<char>|
        (ignored_paths.contains(p) || files.contains(p)) <==> file_paths(all).contains(p) by {
        lemma_file_is_kept_or_ignored(all, kept, files, ignored_paths, p);
        if ignored_paths.contains(p) {
            lemma_ignored_membership(all, kept, p);
            lemma_file_paths_membership(all, p);
            let i = choose|i: int| 0 <= i < paths_of(all).len() && paths_of(all)[i] == p;
            assert(all[i].path == p);
            assert(is_file(all[i]));
        }
    }
    assert forall|p: Seq<char>| ignored_paths.contains(p) implies !files.contains(p) by {
        lemma_file_is_kept_or_ignored(all, kept, files, ignored_paths, p);
    }
    assert(ignored_paths.to_set().union(files.to_set()) =~= file_paths(all).to_set());
}

/// The file set is free of duplicates where the filtered walk found no
/// regular file twice.
pub proof fn lemma_file_set_has_no_duplicates(kept: Seq<EntryModel>, files: Seq<Seq<char>>)
    requires
        is_sorted_form_of(files, file_paths(kept)),
        file_paths(kept).no_duplicates(),
    ensures
        files.no_duplicates(),
{
    file_paths(kept).lemma_multiset_has_no_duplicates();
    files.lemma_multiset_has_no_duplicates_conv();
}

/// A file that could not be read has no section, and the sections of the
/// other files are what they would be without it, in the same order.
pub proof fn lemma_unread_file_is_omitted(files: Seq<SourceModel>, i: int)
    requires
        0 <= i < files.len(),
        files[i].content is None,
    ensures
        sections_text(files) == sections_text(files.remove(i)),
{
    let f = |s: SourceModel| section_of(s);
    let left = files.take(i);
    let right = files.skip(i + 1);
    assert(files == left.push(files[i]) + right);
    assert(files.remove(i) == left + right);
    lemma_filter_map_concat(left.push(files[i]), right, f);
    lemma_filter_map_push(left, files[i], f);
    lemma_filter_map_concat(left, right, f);
    assert(left.filter_map(f) + Seq::<Seq<char>>::empty() == left.filter_map(f));
}

} // verus!
