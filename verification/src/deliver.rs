//! Where the prompt goes, and which failures end a run.

use vstd::prelude::*;

verus! {

/// The one place that receives the prompt.
#[derive(Clone, Debug, PartialEq, Eq)]
pub enum Sink {
    /// The file at this path, which is overwritten.
    File(String),
    /// The system clipboard.
    Clipboard,
}

/// What can go wrong during a run.
#[derive(Clone, Copy, Debug, PartialEq, Eq, Structural)]
pub enum Failure {
    /// The scan root cannot be resolved to an existing absolute path.
    RootPath,
    /// A walk could not enumerate the scan root.
    Traversal,
    /// A walk could not read one entry below the root.
    TraversalEntry,
    /// A collected file could not be read as text.
    FileRead,
    /// The output file could not be written.
    OutputWrite,
    /// The clipboard could not be set.
    Clipboard,
}

/// What a failure does to the run.
#[derive(Clone, Copy, Debug, PartialEq, Eq, Structural)]
pub enum Severity {
    /// The run ends at once, unsuccessfully.
    Fatal,
    /// The failure is reported and the run goes on.
    Reported,
}

/// Whether a failure keeps the run from establishing the root or the walks,
/// or from writing the output file.
pub open spec fn is_fatal(failure: Failure) -> bool {
    failure == Failure::RootPath || failure == Failure::Traversal || failure
        == Failure::OutputWrite
}

/// The failure that a walk's error at the given depth below the root stands
/// for: at depth zero the root itself could not be enumerated; anywhere else,
/// or where no depth is known, a single entry could not be read.
pub open spec fn walk_failure_at(depth: Option<usize>) -> Failure {
    if depth == Some(0usize) {
        Failure::Traversal
    } else {
        Failure::TraversalEntry
    }
}

/// The sink for a run with the given output file, if any: the file where one
/// was named, the clipboard where none was. There is never a second sink.
pub fn select_sink(output_file: Option<String>) -> (sink: Sink)
    ensures
        match output_file {
            Some(path) => sink == Sink::File(path),
            None => sink == Sink::Clipboard,
        },
{
    match output_file {
        Some(path) => Sink::File(path),
        None => Sink::Clipboard,
    }
}

/// The failure that a failed delivery to `sink` stands for.
pub fn delivery_failure(sink: &Sink) -> (failure: Failure)
    ensures
        failure == match sink {
            Sink::File(_) => Failure::OutputWrite,
            Sink::Clipboard => Failure::Clipboard,
        },
{
    match sink {
        Sink::File(_) => Failure::OutputWrite,
        Sink::Clipboard => Failure::Clipboard,
    }
}

/// The failure that a walk's error at the given depth stands for.
pub fn walk_failure(depth: Option<usize>) -> (failure: Failure)
    ensures
        failure == walk_failure_at(depth),
{
    match depth {
        Some(d) => if d == 0 {
            Failure::Traversal
        } else {
            Failure::TraversalEntry
        },
        None => Failure::TraversalEntry,
    }
}

/// What `failure` does to the run: fatal where the root, a walk as a whole or
/// the output file failed; reported otherwise.
pub fn severity(failure: Failure) -> (s: Severity)
    ensures
        s == (if is_fatal(failure) {
            Severity::Fatal
        } else {
            Severity::Reported
        }),
{
    match failure {
        Failure::RootPath => Severity::Fatal,
        Failure::Traversal => Severity::Fatal,
        Failure::OutputWrite => Severity::Fatal,
        Failure::TraversalEntry => Severity::Reported,
        Failure::FileRead => Severity::Reported,
        Failure::Clipboard => Severity::Reported,
    }
}

} // verus!
