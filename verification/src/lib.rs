//! Ignore-aware file discovery and prompt assembly for source trees.
//!
//! A scan walks a directory tree twice: once without the ignore-pattern
//! files and once with them. From what the two walks found this library
//! computes the file set (the regular files that passed the filters, by
//! path relative to the root, sorted) and the ignored set (what only the
//! unfiltered walk found), and renders the prompt: a tree listing of the
//! file set followed by the text of each file that could be read.
//!
//! The library does no input or output. The caller walks the tree as a
//! [`plan::WalkPlan`] says, hands the entries to [`scan::scan`], reads the
//! files of the file set, hands them to [`render::render_prompt`] and sends
//! the prompt to the [`deliver::Sink`] that [`deliver::select_sink`] names.
//!
//! Contracts are stated over texts as sequences of characters and over the
//! models of entries and files; [`laws`] holds what follows for every scan.

pub mod collect;
pub mod deliver;
pub mod entry;
pub mod laws;
pub mod plan;
pub mod reconcile;
pub mod render;
pub mod scan;
pub mod seqs;
pub mod text;
