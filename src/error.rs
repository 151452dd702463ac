//! Errors reported by the library.
use vstd::prelude::*;

verus! {

/// Which template a rendering failure came from.
#[derive(Clone, Copy, Debug, PartialEq, Eq, Structural)]
pub enum TemplateRole {
    Suite,
    Group,
    Test,
    TestRegex,
    SuiteFileName,
    Command,
    PassRegex,
    FailRegex,
    Document,
}

/// A runner setting that no layer of configuration defines.
#[derive(Clone, Copy, Debug, PartialEq, Eq, Structural)]
pub enum RunnerField {
    Command,
    FailRegexTemplate,
    PassRegexTemplate,
}

/// Why a suite, group or test name was refused.
#[derive(Clone, Copy, Debug, PartialEq, Eq, Structural)]
pub enum NameProblem {
    Empty,
    EdgeSpace,
    InvalidCharacters,
}

/// Why a configuration version was refused.
#[derive(Clone, Copy, Debug, PartialEq, Eq, Structural)]
pub enum VersionProblem {
    Missing,
    NotThreeParts,
    BinaryNotThreeParts,
    NotANumber,
    MajorMinorMismatch,
    PatchTooHigh,
}

#[derive(Debug)]
pub enum PolyError {
    /// The suite marker of `suite` is absent, even after appending the suite template.
    SuiteMarkerMissing { suite: String },
    /// The marker of a group is absent from the suite chunk when a test is inserted.
    GroupMarkerMissing { suite: String, group: String },
    /// A template failed to render: the template of `role` of the target
    /// `owner` (empty where no target is concerned), for `subject` (the
    /// suite, group or test being rendered).
    Template { role: TemplateRole, owner: String, subject: String, detail: String },
    /// A rendered regular expression does not compile.
    InvalidPattern { pattern: String, detail: String },
    /// A suite refers to a group id that the configuration does not define.
    UnknownGroup { suite: String, group: String },
    /// A planned test is absent from its suite file.
    TestMissing { suite: String, test: String },
    /// Test-shaped declarations in a suite chunk that the plan does not declare.
    OrphanTests { suite: String, found: Vec<String> },
    /// No layer of configuration defines a runner setting.
    MissingRunnerField { runner: String, field: RunnerField },
    /// An id that is not one of the built-in targets.
    UnsupportedTarget { id: String },
    /// A case name that the case-conversion filter does not know.
    UnsupportedCase { case: String },
    /// An id used both as a built-in target and as a custom target.
    DuplicateTarget { id: String },
    /// A rendered runner command holds no word.
    EmptyCommand { runner: String },
    /// A directory has no grandparent.
    NoGrandparent { path: String },
    /// A document other than `markdown` names no template file.
    DocumentTemplateMissing { id: String },
    /// A git URL without host, organisation and repository.
    InvalidGitUrl { url: String },
    /// A name that the naming rules refuse.
    InvalidName { kind: String, name: String, problem: NameProblem },
    /// A configuration version that the binary does not accept.
    Version { found: String, problem: VersionProblem },
}

} // verus!
