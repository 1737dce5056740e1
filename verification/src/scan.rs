//! The scan: from what two walks reported to the file set and the ignored set.

use crate::collect::{file_paths, is_sorted_form_of, regular_files, sort_paths};
use crate::deliver::{walk_failure, walk_failure_at, Failure};
use crate::entry::{models, relativize, relativized, EntryModel, WalkEntry};
use crate::reconcile::{ignored, ignored_paths};
use crate::text::texts;
use vstd::prelude::*;

verus! {

/// What a walk reports for one node: the node, or that it could not be read.
#[derive(Clone, Debug, PartialEq, Eq)]
pub enum WalkItem {
    /// A node that the walk found.
    Found(WalkEntry),
    /// A node that the walk could not read, with its depth below the root
    /// where the walk knows it.
    Failed(Option<usize>),
}

/// The mathematical model of a [`WalkItem`].
pub enum ItemModel {
    /// A node that the walk found.
    Found(EntryModel),
    /// A node that the walk could not read, with its depth where known.
    Failed(Option<usize>),
}

impl View for WalkItem {
    type V = ItemModel;

    open spec fn view(&self) -> ItemModel {
        match self {
            WalkItem::Found(e) => ItemModel::Found(e@),
            WalkItem::Failed(d) => ItemModel::Failed(*d),
        }
    }
}

/// The models of a sequence of walk items, in order.
pub open spec fn item_models(items: Seq<WalkItem>) -> Seq<ItemModel> {
    items.map_values(|it: WalkItem| it@)
}

/// The entry of an item that reports a node; none for one that reports a failure.
pub open spec fn found_entry(item: ItemModel) -> Option<EntryModel> {
    match item {
        ItemModel::Found(e) => Some(e),
        ItemModel::Failed(_) => None,
    }
}

/// The nodes that a walk found, in order.
pub open spec fn found_entries(items: Seq<ItemModel>) -> Seq<EntryModel> {
    items.filter_map(|it: ItemModel| found_entry(it))
}

/// Whether an item reports that the root itself could not be enumerated.
pub open spec fn is_root_failure(item: ItemModel) -> bool {
    match item {
        ItemModel::Found(_) => false,
        ItemModel::Failed(d) => walk_failure_at(d) == Failure::Traversal,
    }
}

/// Whether a walk failed as a whole.
pub open spec fn walk_failed(items: Seq<ItemModel>) -> bool {
    exists|i: int| 0 <= i < items.len() && is_root_failure(#[trigger] items[i])
}

/// The result of a scan.
#[derive(Clone, Debug, PartialEq, Eq)]
pub struct Scan {
    /// The paths of the regular files that passed the filters, relative to
    /// the root, in ascending lexicographic order.
    pub files: Vec<String>,
    /// The paths, relative to the root, that the unfiltered walk found and
    /// the filtered walk did not.
    pub ignored: Vec<String>,
}

/// Whether `files` and `ignored_paths` are the file set and the ignored set
/// of the two walks below `root`.
pub open spec fn is_scan_of(
    root: Seq<char>,
    unfiltered: Seq<EntryModel>,
    filtered: Seq<EntryModel>,
    files: Seq<Seq<char>>,
    ignored_paths: Seq<Seq<char>>,
) -> bool {
    &&& is_sorted_form_of(files, file_paths(relativized(root, filtered)))
    &&& ignored_paths == ignored(relativized(root, unfiltered), relativized(root, filtered))
}

/// The nodes that a walk found, in order; a walk that could not enumerate
/// its root fails as a whole. Entries below the root that could not be read
/// are left out.
pub fn gather(items: &Vec<WalkItem>) -> (r: Result<Vec<WalkEntry>, Failure>)
    ensures
        match r {
            Ok(entries) => !walk_failed(item_models(items@)) && models(entries@) == found_entries(
                item_models(items@),
            ),
            Err(failure) => walk_failed(item_models(items@)) && failure == Failure::Traversal,
        },
{
    let mut out: Vec<WalkEntry> = Vec::new();
    let ghost f = |it: ItemModel| found_entry(it);
    let mut i: usize = 0;
    while i < items.len()
        invariant
            i <= items.len(),
            f == |it: ItemModel| found_entry(it),
            forall|k: int| 0 <= k < i ==> !is_root_failure(#[trigger] item_models(items@)[k]),
            models(out@) == item_models(items@).take(i as int).filter_map(f),
        decreases items.len() - i,
    {
        let ghost before = out@;
        proof {
            item_models(items@).lemma_filter_map_take_succ(f, i as int);
        }
        match &items[i] {
            WalkItem::Found(e) => {
                out.push(WalkEntry { path: e.path.clone(), kind: e.kind });
                proof {
                    assert(models(out@) == models(before).push(out@.last()@));
                }
            },
            WalkItem::Failed(depth) => {
                if walk_failure(*depth) == Failure::Traversal {
                    proof {
                        assert(is_root_failure(item_models(items@)[i as int]));
                    }
                    return Err(Failure::Traversal);
                }
            },
        }
        i = i + 1;
    }
    proof {
        assert(item_models(items@).take(items.len() as int) == item_models(items@));
    }
    Ok(out)
}

/// Scans what the two walks below `root` reported: the file set is the
/// regular files of the filtered walk, sorted; the ignored set is what only
/// the unfiltered walk found. Fails exactly if one of the walks failed as a
/// whole.
pub fn scan(root: &str, unfiltered: &Vec<WalkItem>, filtered: &Vec<WalkItem>) -> (r: Result<
    Scan,
    Failure,
>)
    ensures
        match r {
            Ok(s) => {
                &&& !walk_failed(item_models(unfiltered@))
                &&& !walk_failed(item_models(filtered@))
                &&& is_scan_of(
                    root@,
                    found_entries(item_models(unfiltered@)),
                    found_entries(item_models(filtered@)),
                    texts(s.files@),
                    texts(s.ignored@),
                )
            },
            Err(failure) => {
                &&& failure == Failure::Traversal
                &&& walk_failed(item_models(unfiltered@)) || walk_failed(item_models(filtered@))
            },
        },
{
    let all = match gather(unfiltered) {
        Ok(entries) => entries,
        Err(failure) => { return Err(failure); },
    };
    let kept = match gather(filtered) {
        Ok(entries) => entries,
        Err(failure) => { return Err(failure); },
    };
    let all_relative = relativize(root, &all);
    let kept_relative = relativize(root, &kept);
    let ignored = ignored_paths(&all_relative, &kept_relative);
    let unsorted = regular_files(&kept_relative);
    let files = sort_paths(&unsorted);
    Ok(Scan { files, ignored })
}

} // verus!
