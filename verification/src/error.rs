//! The run-level error taxonomy.

use vstd::prelude::*;

use crate::binary_version::BinaryVersion;
use crate::deletefiles::DeleteFileError;
use crate::hdiffmap::PatchError;

verus! {

/// Everything that can end a run, or one bundle's processing, early.
///
/// `VersionParse` is fatal before any mutation; `InvalidHdiffVersion` carries
/// the two versions between which chain continuity broke; I/O failures carry
/// the failing operation's message, supplied by the caller that saw it.
#[derive(Debug, Clone, PartialEq, Eq)]
pub enum Error {
    DeleteFileError(DeleteFileError),
    PatchError(PatchError),
    Io(String),
    PathNotFound(String),
    SevenZNotFound(),
    ArchiveNotFound(),
    Extraction(String),
    VersionParse(),
    InvalidHdiffVersion(BinaryVersion, BinaryVersion),
}

impl From<DeleteFileError> for Error {
    fn from(e: DeleteFileError) -> (r: Error) {
        Error::DeleteFileError(e)
    }
}

impl vstd::std_specs::convert::FromSpecImpl<DeleteFileError> for Error {
    open spec fn obeys_from_spec() -> bool {
        true
    }

    open spec fn from_spec(e: DeleteFileError) -> Error {
        Error::DeleteFileError(e)
    }
}

impl From<PatchError> for Error {
    fn from(e: PatchError) -> (r: Error) {
        Error::PatchError(e)
    }
}

impl vstd::std_specs::convert::FromSpecImpl<PatchError> for Error {
    open spec fn obeys_from_spec() -> bool {
        true
    }

    open spec fn from_spec(e: PatchError) -> Error {
        Error::PatchError(e)
    }
}

} // verus!
