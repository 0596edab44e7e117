//! The failures a stage can report. Every one is fatal to the run.

use vstd::prelude::*;

verus! {

/// Why a stage stopped.
#[derive(Debug, Clone, PartialEq, Eq)]
pub enum BuildError {
    /// A crate source, or the directory that should hold a manifest, is absent.
    NotFound { path: String },
    /// A build output directory that cannot be listed.
    UnreadableDirectory { path: String },
    /// A stage name that the pipeline does not know.
    UnknownStage { name: String },
    /// A range of stages whose first stage lies behind its last.
    StageRangeReversed { group: String },
    /// A boot-loader selector other than `grub` and `limine`.
    UnknownBootloader { name: String },
    /// A downloader other than `wget` and `curl`.
    UnsupportedDownloader { name: String },
    /// A build mode other than `debug` and `release`.
    InvalidBuildMode { mode: String },
    /// An external tool could not be started or ended in failure.
    ToolFailed { stage: String, binary: String },
    /// A module too large for the module archive's size field.
    ModuleTooLarge { name: String },
    /// An archive member whose name is not text.
    InvalidMemberName { archive: String },
    /// The module archive could not be written.
    ArchiveNotWritten,
    /// An option that neither the configuration nor the defaults hold.
    MissingOption { key: String },
    /// An option whose value is not of the kind asked for.
    WrongType { key: String, expected: String },
    /// A value with an opening brace that is never closed.
    InvalidImport { value: String },
    /// A variable that the environment does not hold.
    MissingEnvironment { name: String },
    /// A value whose references lead on and on.
    ImportsTooDeep { value: String },
    /// An option that would lie inside a value that is no table.
    NotATable { key: String },
    /// An option to set that is given no name at all.
    EmptyOptionPath,
    /// An option that cannot be written out as a variable.
    InvalidPropertyType { key: String },
    /// A text that is no configuration document.
    InvalidDocument { reason: String },
    /// A library archive that cannot be read.
    UnreadableArchive { name: String },
}

/// A `BuildError` with its strings as character sequences.
pub enum BuildErrorView {
    NotFound { path: Seq<char> },
    UnreadableDirectory { path: Seq<char> },
    UnknownStage { name: Seq<char> },
    StageRangeReversed { group: Seq<char> },
    UnknownBootloader { name: Seq<char> },
    UnsupportedDownloader { name: Seq<char> },
    InvalidBuildMode { mode: Seq<char> },
    ToolFailed { stage: Seq<char>, binary: Seq<char> },
    ModuleTooLarge { name: Seq<char> },
    InvalidMemberName { archive: Seq<char> },
    ArchiveNotWritten,
    MissingOption { key: Seq<char> },
    WrongType { key: Seq<char>, expected: Seq<char> },
    InvalidImport { value: Seq<char> },
    MissingEnvironment { name: Seq<char> },
    ImportsTooDeep { value: Seq<char> },
    NotATable { key: Seq<char> },
    EmptyOptionPath,
    InvalidPropertyType { key: Seq<char> },
    InvalidDocument { reason: Seq<char> },
    UnreadableArchive { name: Seq<char> },
}

impl DeepView for BuildError {
    type V = BuildErrorView;

    open spec fn deep_view(&self) -> BuildErrorView {
        match self {
            BuildError::NotFound { path } => BuildErrorView::NotFound { path: path@ },
            BuildError::UnreadableDirectory { path } => BuildErrorView::UnreadableDirectory {
                path: path@,
            },
            BuildError::UnknownStage { name } => BuildErrorView::UnknownStage { name: name@ },
            BuildError::StageRangeReversed { group } => BuildErrorView::StageRangeReversed {
                group: group@,
            },
            BuildError::UnknownBootloader { name } => BuildErrorView::UnknownBootloader {
                name: name@,
            },
            BuildError::UnsupportedDownloader { name } => BuildErrorView::UnsupportedDownloader {
                name: name@,
            },
            BuildError::InvalidBuildMode { mode } => BuildErrorView::InvalidBuildMode {
                mode: mode@,
            },
            BuildError::ToolFailed { stage, binary } => BuildErrorView::ToolFailed {
                stage: stage@,
                binary: binary@,
            },
            BuildError::ModuleTooLarge { name } => BuildErrorView::ModuleTooLarge { name: name@ },
            BuildError::InvalidMemberName { archive } => BuildErrorView::InvalidMemberName {
                archive: archive@,
            },
            BuildError::ArchiveNotWritten => BuildErrorView::ArchiveNotWritten,
            BuildError::MissingOption { key } => BuildErrorView::MissingOption { key: key@ },
            BuildError::WrongType { key, expected } => BuildErrorView::WrongType {
                key: key@,
                expected: expected@,
            },
            BuildError::InvalidImport { value } => BuildErrorView::InvalidImport { value: value@ },
            BuildError::MissingEnvironment { name } => BuildErrorView::MissingEnvironment {
                name: name@,
            },
            BuildError::ImportsTooDeep { value } => BuildErrorView::ImportsTooDeep {
                value: value@,
            },
            BuildError::NotATable { key } => BuildErrorView::NotATable { key: key@ },
            BuildError::EmptyOptionPath => BuildErrorView::EmptyOptionPath,
            BuildError::InvalidPropertyType { key } => BuildErrorView::InvalidPropertyType {
                key: key@,
            },
            BuildError::InvalidDocument { reason } => BuildErrorView::InvalidDocument {
                reason: reason@,
            },
            BuildError::UnreadableArchive { name } => BuildErrorView::UnreadableArchive {
                name: name@,
            },
        }
    }
}

/// What is said of a failure to whoever started the run.
pub open spec fn message_of(e: BuildErrorView) -> Seq<char> {
    match e {
        BuildErrorView::NotFound { path } => "couldn't access "@ + path,
        BuildErrorView::UnreadableDirectory { path } => "failed to list directory `"@ + path + "`"@,
        BuildErrorView::UnknownStage { name } => "unknown stage \""@ + name + "\""@,
        BuildErrorView::StageRangeReversed { group } => "the stages of \""@ + group
            + "\" are the wrong way round"@,
        BuildErrorView::UnknownBootloader { name } => "unknown bootloader "@ + name
            + "; must be \"grub\" or \"limine\""@,
        BuildErrorView::UnsupportedDownloader { name } => "unsupported downloader: "@ + name
            + "; must be wget or curl."@,
        BuildErrorView::InvalidBuildMode { mode } => "build-mode must be \"debug\" or \"release\", not \""@
            + mode + "\""@,
        BuildErrorView::ToolFailed { stage, binary } => binary + " invocation failed"@,
        BuildErrorView::ModuleTooLarge { name } => "module "@ + name
            + " is too large for the module archive"@,
        BuildErrorView::InvalidMemberName { archive } => "a member of "@ + archive
            + " has a name that is not text"@,
        BuildErrorView::ArchiveNotWritten => "the module archive could not be written"@,
        BuildErrorView::MissingOption { key } => "missing option in config: "@ + key,
        BuildErrorView::WrongType { key, expected } => "wrong type: "@ + key + " must be "@
            + expected + "!"@,
        BuildErrorView::InvalidImport { value } => "\""@ + value + "\" has an invalid import!"@,
        BuildErrorView::MissingEnvironment { name } => "environment variable "@ + name
            + " is absent"@,
        BuildErrorView::ImportsTooDeep { value } => "the imports of \""@ + value
            + "\" lead on and on"@,
        BuildErrorView::NotATable { key } => "option "@ + key + " lies in no table"@,
        BuildErrorView::EmptyOptionPath => "invalid override key"@,
        BuildErrorView::InvalidPropertyType { key } => "invalid property type for key "@ + key,
        BuildErrorView::InvalidDocument { reason } => reason,
        BuildErrorView::UnreadableArchive { name } => "archive "@ + name + " cannot be read"@,
    }
}

impl BuildError {
    /// What is said of the failure to whoever started the run.
    pub fn message(&self) -> (r: String)
        ensures
            r@ == message_of(self.deep_view()),
    {
        match self {
            BuildError::NotFound { path } => {
                let mut r = "couldn't access ".to_owned();
                r.append(path.as_str());
                r
            },
            BuildError::UnreadableDirectory { path } => {
                let mut r = "failed to list directory `".to_owned();
                r.append(path.as_str());
                r.append("`");
                r
            },
            BuildError::UnknownStage { name } => {
                let mut r = "unknown stage \"".to_owned();
                r.append(name.as_str());
                r.append("\"");
                r
            },
            BuildError::StageRangeReversed { group } => {
                let mut r = "the stages of \"".to_owned();
                r.append(group.as_str());
                r.append("\" are the wrong way round");
                r
            },
            BuildError::UnknownBootloader { name } => {
                let mut r = "unknown bootloader ".to_owned();
                r.append(name.as_str());
                r.append("; must be \"grub\" or \"limine\"");
                r
            },
            BuildError::UnsupportedDownloader { name } => {
                let mut r = "unsupported downloader: ".to_owned();
                r.append(name.as_str());
                r.append("; must be wget or curl.");
                r
            },
            BuildError::InvalidBuildMode { mode } => {
                let mut r = "build-mode must be \"debug\" or \"release\", not \"".to_owned();
                r.append(mode.as_str());
                r.append("\"");
                r
            },
            BuildError::ToolFailed { stage, binary } => {
                let mut r = binary.clone();
                r.append(" invocation failed");
                r
            },
            BuildError::ModuleTooLarge { name } => {
                let mut r = "module ".to_owned();
                r.append(name.as_str());
                r.append(" is too large for the module archive");
                r
            },
            BuildError::InvalidMemberName { archive } => {
                let mut r = "a member of ".to_owned();
                r.append(archive.as_str());
                r.append(" has a name that is not text");
                r
            },
            BuildError::ArchiveNotWritten => "the module archive could not be written".to_owned(),
            BuildError::MissingOption { key } => {
                let mut r = "missing option in config: ".to_owned();
                r.append(key.as_str());
                r
            },
            BuildError::WrongType { key, expected } => {
                let mut r = "wrong type: ".to_owned();
                r.append(key.as_str());
                r.append(" must be ");
                r.append(expected.as_str());
                r.append("!");
                r
            },
            BuildError::InvalidImport { value } => {
                let mut r = "\"".to_owned();
                r.append(value.as_str());
                r.append("\" has an invalid import!");
                r
            },
            BuildError::MissingEnvironment { name } => {
                let mut r = "environment variable ".to_owned();
                r.append(name.as_str());
                r.append(" is absent");
                r
            },
            BuildError::ImportsTooDeep { value } => {
                let mut r = "the imports of \"".to_owned();
                r.append(value.as_str());
                r.append("\" lead on and on");
                r
            },
            BuildError::NotATable { key } => {
                let mut r = "option ".to_owned();
                r.append(key.as_str());
                r.append(" lies in no table");
                r
            },
            BuildError::EmptyOptionPath => "invalid override key".to_owned(),
            BuildError::InvalidPropertyType { key } => {
                let mut r = "invalid property type for key ".to_owned();
                r.append(key.as_str());
                r
            },
            BuildError::InvalidDocument { reason } => reason.clone(),
            BuildError::UnreadableArchive { name } => {
                let mut r = "archive ".to_owned();
                r.append(name.as_str());
                r.append(" cannot be read");
                r
            },
        }
    }
}

} // verus!
