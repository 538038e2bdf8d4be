//! Error taxonomy of the signing operation.

use vstd::prelude::*;

verus! {

/// The kinds of failure the signing operation can surface.
///
/// `ServiceError` and `KeyNotFound` are never produced by this library's own
/// logic: they stand for failures of the remote key-management collaborators
/// and are mapped onto this taxonomy by the surrounding program.
#[derive(Clone, Copy, Debug, PartialEq, Eq, Structural)]
pub enum ToolErrorKind {
    /// The required hash algorithm falls outside the supported set, or the
    /// signature algorithm names no specific hash.
    NotSupported,
    /// The key's policy algorithm is not an asymmetric-signature algorithm.
    WrongKeyAlgorithm,
    /// The key-attribute lookup found no key of the given name.
    KeyNotFound,
    /// A remote collaborator call failed.
    ServiceError,
    /// The signature re-encoding step could not complete; a logic defect,
    /// not a user input error.
    InternalEncodingError,
}

} // verus!
