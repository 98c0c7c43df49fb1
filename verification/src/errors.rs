//! The error taxonomy of the paste store.

use vstd::prelude::*;

verus! {

/// Every way a paste-store operation can fail.
#[derive(Clone, Copy, Debug, PartialEq, Eq, Structural)]
pub enum StoreError {
    /// An insert was attempted under a token that is already taken.
    Conflict,
    /// A lookup found no paste stored under the given token.
    NotFound,
    /// The underlying storage failed. Reserved for storage backends that can
    /// fail mid-operation; the in-memory table never reports it.
    Io,
}

} // verus!
