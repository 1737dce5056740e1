//! Collection of the regular files of a walk, in sorted order.

use crate::entry::{models, EntryKind, EntryModel, WalkEntry};
use crate::text::{chars_of, insertion_point, key_texts, lex_sorted, texts};
use vstd::prelude::*;
use vstd::seq_lib::{to_multiset_build, to_multiset_insert};

verus! {

/// Whether an entry is a regular file.
pub open spec fn is_file(e: EntryModel) -> bool {
    e.kind == EntryKind::File
}

/// The path of an entry that is a regular file; none for any other entry.
pub open spec fn file_path(e: EntryModel) -> Option<Seq<char>> {
    if is_file(e) {
        Some(e.path)
    } else {
        None
    }
}

/// The paths of the regular files among `entries`, in order.
pub open spec fn file_paths(entries: Seq<EntryModel>) -> Seq<Seq<char>> {
    entries.filter_map(|e: EntryModel| file_path(e))
}

/// Whether `sorted` holds exactly the items of `items`, each as often as
/// `items` does, in ascending lexicographic order.
pub open spec fn is_sorted_form_of(sorted: Seq<Seq<char>>, items: Seq<Seq<char>>) -> bool {
    lex_sorted(sorted) && sorted.to_multiset() == items.to_multiset()
}

/// The paths of the regular files among `entries`, in the order of `entries`.
/// Directories and nodes of other kinds are left out.
pub fn regular_files(entries: &Vec<WalkEntry>) -> (out: Vec<String>)
    ensures
        texts(out@) == file_paths(models(entries@)),
{
    let mut out: Vec<String> = Vec::new();
    let ghost f = |e: EntryModel| file_path(e);
    let mut i: usize = 0;
    while i < entries.len()
        invariant
            i <= entries.len(),
            f == |e: EntryModel| file_path(e),
            texts(out@) == models(entries@).take(i as int).filter_map(f),
        decreases entries.len() - i,
    {
        let ghost before = out@;
        proof {
            models(entries@).lemma_filter_map_take_succ(f, i as int);
        }
        if entries[i].kind == EntryKind::File {
            out.push(entries[i].path.clone());
            proof {
                assert(texts(out@) == texts(before).push(out@.last()@));
            }
        }
        i = i + 1;
    }
    proof {
        assert(models(entries@).take(entries.len() as int) == models(entries@));
    }
    out
}

/// The given paths in ascending lexicographic order. Equal paths are all kept.
pub fn sort_paths(paths: &Vec<String>) -> (out: Vec<String>)
    ensures
        is_sorted_form_of(texts(out@), texts(paths@)),
{
    let mut out: Vec<String> = Vec::new();
    let mut keys: Vec<Vec<char>> = Vec::new();
    let mut i: usize = 0;
    proof {
        assert(texts(paths@).take(0) == Seq::<Seq<char>>::empty());
        assert(texts(out@) == Seq::<Seq<char>>::empty());
    }
    while i < paths.len()
        invariant
            i <= paths.len(),
            key_texts(keys@) == texts(out@),
            lex_sorted(texts(out@)),
            texts(out@).to_multiset() == texts(paths@).take(i as int).to_multiset(),
        decreases paths.len() - i,
    {
        let key = chars_of(paths[i].as_str());
        let pos = insertion_point(&keys, &key);
        let ghost before = texts(out@);
        let ghost text = paths@[i as int]@;
        proof {
            assert(texts(paths@).take(i as int + 1) == texts(paths@).take(i as int).push(text));
            to_multiset_build(texts(paths@).take(i as int), text);
            to_multiset_insert(before, pos as int, text);
        }
        out.insert(pos, paths[i].clone());
        keys.insert(pos, key);
        proof {
            assert(texts(out@) == before.insert(pos as int, text));
            assert(key_texts(keys@) == before.insert(pos as int, text));
        }
        i = i + 1;
    }
    proof {
        assert(texts(paths@).take(paths.len() as int) == texts(paths@));
    }
    out
}

} // verus!
