//! The storage root: where it is, and whether it is there.

use vstd::prelude::*;

verus! {

/// The settings of a run.
#[derive(Clone, Debug, PartialEq, Eq)]
pub struct Config {
    /// Absolute path of the directory under which every note lives.
    pub root_dir: String,
}

/// Why a filesystem operation failed.
#[derive(Clone, Copy, Debug, PartialEq, Eq, Structural)]
pub enum FsErrorKind {
    NotFound,
    PermissionDenied,
    Other,
}

/// A filesystem operation that failed, and the path it was tried on.
#[derive(Clone, Debug, PartialEq, Eq)]
pub struct FsError {
    pub kind: FsErrorKind,
    pub path: String,
}

/// Whether the storage root exists, given what probing its path returned.
///
/// A probe that answered is passed through. A probe that could not be made
/// is an error on the root's path; the caller decides whether to abort.
pub fn detect_root_folder(config: &Config, probe: Result<bool, FsErrorKind>) -> (found: Result<
    bool,
    FsError,
>)
    ensures
        match probe {
            Ok(exists) => found == Ok::<bool, FsError>(exists),
            Err(kind) => found is Err && found->Err_0.kind == kind && found->Err_0.path@
                == config.root_dir@,
        },
{
    match probe {
        Ok(exists) => Ok(exists),
        Err(kind) => Err(FsError { kind, path: config.root_dir.clone() }),
    }
}

/// What creating the storage root came to, given what the attempt returned.
///
/// A failure to create the root is not passed over: it is an error on the
/// root's path.
pub fn create_root_folder(config: &Config, created: Result<(), FsErrorKind>) -> (done: Result<
    (),
    FsError,
>)
    ensures
        match created {
            Ok(_) => done is Ok,
            Err(kind) => done is Err && done->Err_0.kind == kind && done->Err_0.path@
                == config.root_dir@,
        },
{
    match created {
        Ok(_) => Ok(()),
        Err(kind) => Err(FsError { kind, path: config.root_dir.clone() }),
    }
}

} // verus!
