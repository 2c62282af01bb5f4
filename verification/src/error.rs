//! What can go wrong with a request.
use vstd::prelude::*;

verus! {

/// Why a request was refused or failed.
#[derive(Debug, Clone, Copy, PartialEq, Eq, Structural)]
pub enum FsError {
    /// The operation is not supported.
    NotImplemented,
    /// Something failed on the way.
    GeneralFailure,
    /// There already is such a file.
    Exists,
    /// There is no such file.
    NotFound,
    /// The operation is not allowed.
    Forbidden,
}

}
