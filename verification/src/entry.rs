//! Entries found by a directory walk, and their paths relative to the scan root.

use crate::text::chars_of;
use vstd::prelude::*;

verus! {

/// What kind of filesystem node an entry is.
#[derive(Clone, Copy, Debug, PartialEq, Eq, Structural)]
pub enum EntryKind {
    /// A regular file.
    File,
    /// A directory.
    Directory,
    /// Anything else: a symbolic link, a device, a node of unknown type.
    Other,
}

/// A node found by a walk: its path and its kind.
#[derive(Clone, Debug, PartialEq, Eq)]
pub struct WalkEntry {
    /// Where the node is: as the walk gave it, or relative to the root.
    /// Components are separated by `/`.
    pub path: String,
    /// What the node is.
    pub kind: EntryKind,
}

/// The mathematical model of a [`WalkEntry`].
pub struct EntryModel {
    /// The path as text.
    pub path: Seq<char>,
    /// What the node is.
    pub kind: EntryKind,
}

impl View for WalkEntry {
    type V = EntryModel;

    open spec fn view(&self) -> EntryModel {
        EntryModel { path: self.path@, kind: self.kind }
    }
}

/// The models of a sequence of entries, in order.
pub open spec fn models(entries: Seq<WalkEntry>) -> Seq<EntryModel> {
    entries.map_values(|e: WalkEntry| e@)
}

/// Whether `c` separates the components of a path.
pub open spec fn is_separator(c: char) -> bool {
    c == '/'
}

/// `path` relative to `root`, where `path` is `root` itself or lies below it.
///
/// The root itself has the empty relative path. Below the root, the relative
/// path is what follows the separator that ends the root: the root's own
/// last character, or the character right after the root.
pub open spec fn relative_to(root: Seq<char>, path: Seq<char>) -> Option<Seq<char>> {
    if !root.is_prefix_of(path) {
        None
    } else if path.len() == root.len() {
        Some(Seq::empty())
    } else if root.len() > 0 && is_separator(root.last()) {
        Some(path.skip(root.len() as int))
    } else if is_separator(path[root.len() as int]) {
        Some(path.skip(root.len() as int + 1))
    } else {
        None
    }
}

/// An entry with its path made relative to `root`, if it is at or below `root`.
pub open spec fn relative_entry(root: Seq<char>, e: EntryModel) -> Option<EntryModel> {
    match relative_to(root, e.path) {
        Some(p) => Some(EntryModel { path: p, kind: e.kind }),
        None => None,
    }
}

/// The entries at or below `root`, in order, each with its path made relative.
pub open spec fn relativized(root: Seq<char>, entries: Seq<EntryModel>) -> Seq<EntryModel> {
    entries.filter_map(|e: EntryModel| relative_entry(root, e))
}

fn strip_root_chars(root: &Vec<char>, path: &str) -> (r: Option<String>)
    ensures
        match r {
            Some(s) => relative_to(root@, path@) == Some(s@),
            None => relative_to(root@, path@) is None,
        },
{
    let p = chars_of(path);
    let n: usize = root.len();
    if p.len() < n {
        return None;
    }
    let mut i: usize = 0;
    while i < n
        invariant
            n == root.len(),
            n <= p.len(),
            p@ == path@,
            i <= n,
            root@.subrange(0, i as int) == p@.subrange(0, i as int),
        decreases n - i,
    {
        if root[i] != p[i] {
            proof {
                assert(path@.subrange(0, n as int)[i as int] != root@[i as int]);
            }
            return None;
        }
        proof {
            assert(root@.subrange(0, i as int + 1) == root@.subrange(0, i as int).push(
                root@[i as int],
            ));
            assert(p@.subrange(0, i as int + 1) == p@.subrange(0, i as int).push(p@[i as int]));
        }
        i = i + 1;
    }
    proof {
        assert(root@.subrange(0, n as int) == root@);
    }
    let start: usize = if p.len() == n {
        n
    } else if n > 0 && root[n - 1] == '/' {
        n
    } else if p[n] == '/' {
        n + 1
    } else {
        return None;
    };
    let rest = path.substring_char(start, p.len());
    proof {
        assert(path@.subrange(start as int, p.len() as int) == path@.skip(start as int));
        if p.len() == n {
            assert(path@.skip(start as int) == Seq::<char>::empty());
        }
    }
    Some(String::from_str(rest))
}

/// `path` relative to `root`, or `None` where `path` is neither `root` nor below it.
pub fn strip_root(root: &str, path: &str) -> (r: Option<String>)
    ensures
        match r {
            Some(s) => relative_to(root@, path@) == Some(s@),
            None => relative_to(root@, path@) is None,
        },
{
    let root_chars = chars_of(root);
    strip_root_chars(&root_chars, path)
}

/// The entries at or below `root`, in order, each with its path made relative.
/// Entries elsewhere are left out.
pub fn relativize(root: &str, entries: &Vec<WalkEntry>) -> (out: Vec<WalkEntry>)
    ensures
        models(out@) == relativized(root@, models(entries@)),
{
    let root_chars = chars_of(root);
    let mut out: Vec<WalkEntry> = Vec::new();
    let mut i: usize = 0;
    while i < entries.len()
        invariant
            i <= entries.len(),
            root_chars@ == root@,
            models(out@) == relativized(root@, models(entries@).take(i as int)),
        decreases entries.len() - i,
    {
        let ghost f = |e: EntryModel| relative_entry(root@, e);
        proof {
            models(entries@).lemma_filter_map_take_succ(f, i as int);
        }
        let ghost before = out@;
        match strip_root_chars(&root_chars, entries[i].path.as_str()) {
            Some(p) => {
                out.push(WalkEntry { path: p, kind: entries[i].kind });
                proof {
                    assert(models(out@) == models(before).push(out@.last()@));
                }
            },
            None => {},
        }
        i = i + 1;
    }
    proof {
        assert(models(entries@).take(entries.len() as int) == models(entries@));
    }
    out
}

} // verus!
