//! The files that the stages pass on: entries of build output directories,
//! and the object files kept for the crates with their companions.

use crate::text::{join, path_join};
use vstd::prelude::*;

verus! {

/// One entry of a build output directory, as the file system reports it.
#[derive(Debug, Clone, PartialEq, Eq)]
pub struct FileInfo {
    pub name: String,
    pub is_file: bool,
    /// Time of the last change, in nanoseconds since the epoch.
    pub modified: u64,
}

pub struct FileInfoView {
    pub name: Seq<char>,
    pub is_file: bool,
    pub modified: u64,
}

impl DeepView for FileInfo {
    type V = FileInfoView;

    open spec fn deep_view(&self) -> FileInfoView {
        FileInfoView { name: self.name@, is_file: self.is_file, modified: self.modified }
    }
}

/// A build output directory with its entries in listing order.
#[derive(Debug, Clone, PartialEq, Eq)]
pub struct CandidateDir {
    pub path: String,
    pub files: Vec<FileInfo>,
}

pub struct CandidateDirView {
    pub path: Seq<char>,
    pub files: Seq<FileInfoView>,
}

impl DeepView for CandidateDir {
    type V = CandidateDirView;

    open spec fn deep_view(&self) -> CandidateDirView {
        CandidateDirView { path: self.path@, files: self.files.deep_view() }
    }
}

/// A file by its directory and its name in it.
#[derive(Debug, Clone, PartialEq, Eq)]
pub struct FilePath {
    pub dir: String,
    pub name: String,
}

pub struct FilePathView {
    pub dir: Seq<char>,
    pub name: Seq<char>,
}

impl FilePathView {
    /// The path as one string.
    pub open spec fn full(self) -> Seq<char> {
        path_join(self.dir, self.name)
    }
}

impl DeepView for FilePath {
    type V = FilePathView;

    open spec fn deep_view(&self) -> FilePathView {
        FilePathView { dir: self.dir@, name: self.name@ }
    }
}

impl FilePath {
    /// The path as one string.
    pub fn full(&self) -> (r: String)
        ensures
            r@ == self.deep_view().full(),
    {
        join(self.dir.as_str(), self.name.as_str())
    }
}

/// The object file that stands for a crate.
#[derive(Debug, Clone, PartialEq, Eq)]
pub struct ObjectArtifact {
    pub crate_name: String,
    pub file_stem: String,
    pub file: FilePath,
    pub last_modified: u64,
}

pub struct ObjectArtifactView {
    pub crate_name: Seq<char>,
    pub file_stem: Seq<char>,
    pub file: FilePathView,
    pub last_modified: u64,
}

impl DeepView for ObjectArtifact {
    type V = ObjectArtifactView;

    open spec fn deep_view(&self) -> ObjectArtifactView {
        ObjectArtifactView {
            crate_name: self.crate_name@,
            file_stem: self.file_stem@,
            file: self.file.deep_view(),
            last_modified: self.last_modified,
        }
    }
}

/// The metadata file and the library archive that may lie beside an object file.
#[derive(Debug, Clone, PartialEq, Eq)]
pub struct DepsArtifact {
    pub rmeta: FilePath,
    pub rlib: FilePath,
}

pub struct DepsArtifactView {
    pub rmeta: FilePathView,
    pub rlib: FilePathView,
}

impl DeepView for DepsArtifact {
    type V = DepsArtifactView;

    open spec fn deep_view(&self) -> DepsArtifactView {
        DepsArtifactView { rmeta: self.rmeta.deep_view(), rlib: self.rlib.deep_view() }
    }
}

/// An object file with its companions.
#[derive(Debug, Clone, PartialEq, Eq)]
pub struct ObjectWithDeps {
    pub object: ObjectArtifact,
    pub deps: DepsArtifact,
}

pub struct ObjectWithDepsView {
    pub object: ObjectArtifactView,
    pub deps: DepsArtifactView,
}

impl DeepView for ObjectWithDeps {
    type V = ObjectWithDepsView;

    open spec fn deep_view(&self) -> ObjectWithDepsView {
        ObjectWithDepsView { object: self.object.deep_view(), deps: self.deps.deep_view() }
    }
}

} // verus!
