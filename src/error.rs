//! The errors of the tool, each with the path and the reason that go with it.

use vstd::prelude::*;

verus! {

/// What went wrong, with where and why.
pub enum M8FstoErr {
    UnparseableM8File { path: String, reason: String },
    InvalidSearchPattern { pattern: String },
    CannotReadFile { path: String, reason: String },
    SampleCopyError { path: String, to: String, reason: String },
    SongSerializationError { destination: String, reason: String },
    MissingSample { instr: usize, path: String },
    MultiErrs { inner: Vec<M8FstoErr> },
    FolderCreationError { path: String, reason: String },
    SampleInBundleNotRelative { sample_path: String, instrument: usize },
    FileRemovalFailure { path: String, reason: String },
    InvalidPath { reason: String },
    RenameFailure { path: String },
}

} // verus!
