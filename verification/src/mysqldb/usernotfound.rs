//! The lookup failure of the user store.

use vstd::prelude::*;

verus! {

/// Lookup failure: the store holds no user with the requested id.
#[derive(Clone, Copy, Debug, PartialEq, Eq, Structural)]
pub struct UserNotFound;

} // verus!
