//! Reconciliation of two walks: which paths the ignore rules took away.

use crate::entry::{models, EntryModel, WalkEntry};
use crate::text::{
    chars_le, chars_of, insertion_point, key_texts, lemma_lex_le_antisymmetric, lex_le, lex_sorted,
    texts,
};
use vstd::prelude::*;
use vstd::seq_lib::{to_multiset_build, to_multiset_contains, to_multiset_insert};

verus! {

/// The paths of a sequence of entries, in order.
pub open spec fn paths_of(entries: Seq<EntryModel>) -> Seq<Seq<char>> {
    entries.map_values(|e: EntryModel| e.path)
}

/// The paths of `all` that are the path of no entry of `kept`, in the order
/// of `all`.
pub open spec fn ignored(all: Seq<EntryModel>, kept: Seq<EntryModel>) -> Seq<Seq<char>> {
    paths_of(all).filter(|p: Seq<char>| !paths_of(kept).contains(p))
}

/// The paths of a walk, held in sorted order so that a path is looked up
/// without going through all of them.
pub struct PathIndex {
    keys: Vec<Vec<char>>,
}

impl View for PathIndex {
    type V = Set<Seq<char>>;

    /// The paths that the index holds.
    closed spec fn view(&self) -> Set<Seq<char>> {
        key_texts(self.keys@).to_set()
    }
}

impl PathIndex {
    #[verifier::type_invariant]
    spec fn sorted(self) -> bool {
        lex_sorted(key_texts(self.keys@))
    }

    /// The index of the paths of `entries`.
    pub fn build(entries: &Vec<WalkEntry>) -> (index: PathIndex)
        ensures
            index@ == paths_of(models(entries@)).to_set(),
    {
        let mut keys: Vec<Vec<char>> = Vec::new();
        let ghost paths = paths_of(models(entries@));
        let mut i: usize = 0;
        proof {
            assert(paths.take(0) == Seq::<Seq<char>>::empty());
            assert(key_texts(keys@) == Seq::<Seq<char>>::empty());
        }
        while i < entries.len()
            invariant
                i <= entries.len(),
                paths == paths_of(models(entries@)),
                lex_sorted(key_texts(keys@)),
                key_texts(keys@).to_multiset() == paths.take(i as int).to_multiset(),
            decreases entries.len() - i,
        {
            let key = chars_of(entries[i].path.as_str());
            let pos = insertion_point(&keys, &key);
            let ghost before = key_texts(keys@);
            proof {
                assert(paths.take(i as int + 1) == paths.take(i as int).push(key@));
                to_multiset_build(paths.take(i as int), key@);
                to_multiset_insert(before, pos as int, key@);
            }
            keys.insert(pos, key);
            proof {
                assert(key_texts(keys@) == before.insert(pos as int, key@));
            }
            i = i + 1;
        }
        proof {
            assert(paths.take(entries.len() as int) == paths);
            assert forall|p: Seq<char>| key_texts(keys@).contains(p) == paths.contains(p) by {
                to_multiset_contains(key_texts(keys@), p);
                to_multiset_contains(paths, p);
            }
            assert(key_texts(keys@).to_set() =~= paths.to_set());
        }
        PathIndex { keys }
    }

    /// Whether the index holds `path`.
    pub fn contains(&self, path: &str) -> (found: bool)
        ensures
            found == self@.contains(path@),
    {
        proof {
            use_type_invariant(self);
        }
        let key = chars_of(path);
        let pos = insertion_point(&self.keys, &key);
        let below = pos > 0 && chars_le(&key, &self.keys[pos - 1]);
        let above = pos < self.keys.len() && chars_le(&self.keys[pos], &key);
        proof {
            let held = key_texts(self.keys@);
            if below {
                lemma_lex_le_antisymmetric(key@, held[pos - 1]);
                assert(held.contains(key@));
            }
            if above {
                lemma_lex_le_antisymmetric(key@, held[pos as int]);
                assert(held.contains(key@));
            }
            if held.contains(key@) {
                let j = choose|j: int| 0 <= j < held.len() && held[j] == key@;
                if j < pos {
                    if j < pos - 1 {
                        assert(lex_le(held[j], held[pos - 1]));
                    }
                    lemma_lex_le_antisymmetric(key@, held[pos - 1]);
                } else {
                    if pos < j {
                        assert(lex_le(held[pos as int], held[j]));
                    }
                    lemma_lex_le_antisymmetric(key@, held[pos as int]);
                }
            }
        }
        below || above
    }
}

/// The paths that the unfiltered walk found and the filtered walk did not,
/// in the order in which the unfiltered walk found them.
///
/// Both walks are given with paths relative to the same root; two entries
/// are the same node exactly if their paths are equal.
pub fn ignored_paths(all: &Vec<WalkEntry>, kept: &Vec<WalkEntry>) -> (out: Vec<String>)
    ensures
        texts(out@) == ignored(models(all@), models(kept@)),
{
    let index = PathIndex::build(kept);
    let mut out: Vec<String> = Vec::new();
    let ghost absent = |p: Seq<char>| !paths_of(models(kept@)).contains(p);
    let mut i: usize = 0;
    while i < all.len()
        invariant
            i <= all.len(),
            index@ == paths_of(models(kept@)).to_set(),
            absent == |p: Seq<char>| !paths_of(models(kept@)).contains(p),
            texts(out@) == paths_of(models(all@)).take(i as int).filter(absent),
        decreases all.len() - i,
    {
        let ghost before = out@;
        proof {
            let prefix = paths_of(models(all@)).take(i as int);
            let p = paths_of(models(all@))[i as int];
            assert(paths_of(models(all@)).take(i as int + 1) == prefix.push(p));
            prefix.lemma_filter_push(p, absent);
        }
        if !index.contains(all[i].path.as_str()) {
            out.push(all[i].path.clone());
            proof {
                assert(texts(out@) == texts(before).push(out@.last()@));
            }
        }
        i = i + 1;
    }
    proof {
        assert(paths_of(models(all@)).take(all.len() as int) == paths_of(models(all@)));
    }
    out
}

} // verus!
