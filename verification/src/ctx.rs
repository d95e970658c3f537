//! The authenticated request context: the records that identify the
//! caller once the HTTP layer has resolved authentication.

use vstd::prelude::*;

verus! {

/// The resolved caller of a request.
#[derive(Debug, Clone, Copy, PartialEq, Eq, Structural)]
pub struct Ctx {
    pub user_id: i32,
}

impl Ctx {
    /// Wraps a resolved user id.
    pub fn new(user_id: i32) -> (r: Ctx)
        ensures
            r.user_id == user_id,
    {
        Ctx { user_id }
    }
}

} // verus!
