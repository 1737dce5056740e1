//! What each of the two walks is told: which rules it applies.

use vstd::prelude::*;

verus! {

/// What the user asked of a scan.
#[derive(Clone, Copy, Debug, PartialEq, Eq, Structural)]
pub struct ScanOptions {
    /// Restrict both walks by the version-control rules.
    pub git_only: bool,
    /// Match ignore patterns with regard to case.
    pub case_sensitive: bool,
}

/// An ignore-pattern file that a scan looks for in the working directory.
#[derive(Clone, Copy, Debug, PartialEq, Eq, Structural)]
pub enum IgnoreFile {
    /// The generic ignore file.
    Generic,
    /// The file with this tool's own patterns.
    ToolSpecific,
}

/// Which of the ignore-pattern files exist in the working directory.
#[derive(Clone, Copy, Debug, PartialEq, Eq, Structural)]
pub struct IgnoreFilesFound {
    /// The generic ignore file exists.
    pub generic: bool,
    /// The file with this tool's own patterns exists.
    pub tool_specific: bool,
}

/// What a walk is told about one rule of the walker.
#[derive(Clone, Copy, Debug, PartialEq, Eq, Structural)]
pub enum Switch {
    /// Apply the rule.
    On,
    /// Do not apply the rule.
    Off,
    /// Say nothing: the walker treats the rule as it does by default.
    Untouched,
}

/// The rules that one walk applies.
#[derive(Clone, Debug, PartialEq, Eq)]
pub struct WalkPlan {
    /// The ignore-pattern files to register, in this order: patterns of a
    /// later file take precedence over those of an earlier one.
    pub ignore_files: Vec<IgnoreFile>,
    /// The repository's ignore files.
    pub git_ignore: Switch,
    /// The user's global ignore file.
    pub git_global: Switch,
    /// The repository's local exclude file.
    pub git_exclude: Switch,
    /// Match ignore patterns without regard to case.
    pub case_insensitive: bool,
}

/// The ignore-pattern files that the filtered walk registers: those that were
/// found, the generic one first.
pub open spec fn registered(found: IgnoreFilesFound) -> Seq<IgnoreFile> {
    (if found.generic {
        seq![IgnoreFile::Generic]
    } else {
        Seq::empty()
    }) + (if found.tool_specific {
        seq![IgnoreFile::ToolSpecific]
    } else {
        Seq::empty()
    })
}

/// What the unfiltered walk is told about each version-control rule: on in
/// git-only mode, off otherwise, so that it leaves out what version control
/// hides exactly when that was asked for.
pub open spec fn unfiltered_git_rule(options: ScanOptions) -> Switch {
    if options.git_only {
        Switch::On
    } else {
        Switch::Off
    }
}

/// What the filtered walk is told about each version-control rule: on in
/// git-only mode, nothing otherwise.
pub open spec fn filtered_git_rule(options: ScanOptions) -> Switch {
    if options.git_only {
        Switch::On
    } else {
        Switch::Untouched
    }
}

/// Whether `plan` treats all three version-control rules as `rule` says, and
/// matches without regard to case exactly where `options` does not ask for
/// case sensitivity.
pub open spec fn follows(plan: WalkPlan, rule: Switch, options: ScanOptions) -> bool {
    &&& plan.git_ignore == rule
    &&& plan.git_global == rule
    &&& plan.git_exclude == rule
    &&& plan.case_insensitive == !options.case_sensitive
}

impl IgnoreFile {
    /// The name of the file, as looked up in the working directory.
    pub open spec fn spec_file_name(self) -> Seq<char> {
        match self {
            IgnoreFile::Generic => ".gitignore"@,
            IgnoreFile::ToolSpecific => ".preludeignore"@,
        }
    }

    /// The name of the file, as looked up in the working directory.
    pub fn file_name(self) -> (name: &'static str)
        ensures
            name@ == self.spec_file_name(),
    {
        match self {
            IgnoreFile::Generic => ".gitignore",
            IgnoreFile::ToolSpecific => ".preludeignore",
        }
    }
}

/// The plan of the unfiltered walk: the version-control rules on or off as
/// the options ask, the case rule as the options ask, and no ignore-pattern
/// file.
pub fn unfiltered_plan(options: ScanOptions) -> (plan: WalkPlan)
    ensures
        follows(plan, unfiltered_git_rule(options), options),
        plan.ignore_files@ == Seq::<IgnoreFile>::empty(),
{
    let rule = if options.git_only {
        Switch::On
    } else {
        Switch::Off
    };
    WalkPlan {
        ignore_files: Vec::new(),
        git_ignore: rule,
        git_global: rule,
        git_exclude: rule,
        case_insensitive: !options.case_sensitive,
    }
}

/// The plan of the filtered walk: every ignore-pattern file that was found,
/// the version-control rules on where the options ask for them, and the same
/// case rule as the unfiltered walk.
pub fn filtered_plan(options: ScanOptions, found: IgnoreFilesFound) -> (plan: WalkPlan)
    ensures
        follows(plan, filtered_git_rule(options), options),
        plan.ignore_files@ == registered(found),
{
    let mut ignore_files: Vec<IgnoreFile> = Vec::new();
    if found.generic {
        ignore_files.push(IgnoreFile::Generic);
    }
    if found.tool_specific {
        ignore_files.push(IgnoreFile::ToolSpecific);
    }
    let rule = if options.git_only {
        Switch::On
    } else {
        Switch::Untouched
    };
    WalkPlan {
        ignore_files,
        git_ignore: rule,
        git_global: rule,
        git_exclude: rule,
        case_insensitive: !options.case_sensitive,
    }
}

} // verus!
