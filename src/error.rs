//! Why a request was not carried out.
use vstd::prelude::*;

verus! {

/// The ways a request can fail.
#[derive(Debug, Clone, Copy, PartialEq, Eq, Structural)]
pub enum ServerError {
    /// The edit does not fit the document as it stands: a bad index, a
    /// protected group or layer, an unsupported kind, a coordinate or a
    /// dimension out of range.
    InvalidEdit,
    /// The named room does not exist.
    NotFound,
    /// A room request came from a peer that has joined no room.
    NotInRoom,
    /// The document could not be loaded or saved.
    ResourceUnavailable,
}

/// Maps the failure of an outside operation (loading, saving, serializing)
/// to the error that the server reports for it.
pub fn server_error<E>(err: E) -> (r: ServerError)
    ensures
        r == ServerError::ResourceUnavailable,
{
    ServerError::ResourceUnavailable
}

} // verus!
