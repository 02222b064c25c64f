//! The release-creation data, as the collaborator that creates the release
//! exchanges it: the request body's fields, the response's identifier, and
//! the handle under which every asset of the run is uploaded. Serialization
//! of these values is the surrounding binary's concern.

use vstd::prelude::*;

verus! {

/// The fields of a create-release request.
pub struct RequestCrateRelease {
    pub tag_name: String,
    pub target_commitish: String,
    pub name: String,
    pub body: String,
    pub draft: bool,
    pub prerelease: bool,
}

/// The part of the create-release response this pipeline depends on: the
/// numeric identifier of the created release.
pub struct ResponseCreateRelease {
    pub id: usize,
}

/// The created release every upload of the run attaches to. Obtained once,
/// before any upload; immutable afterwards.
#[derive(Clone, Copy, PartialEq, Eq, Structural)]
pub struct ReleaseHandle {
    pub id: usize,
}

impl ReleaseHandle {
    /// The handle for a freshly created release.
    pub fn from_response(response: &ResponseCreateRelease) -> (r: Self)
        ensures
            r.id == response.id,
    {
        ReleaseHandle { id: response.id }
    }
}

} // verus!
