//! The claims that a session token carries, and the role check on them.

use vstd::prelude::*;

verus! {

/// The claims of a session token: the user it was issued to, the user's
/// role, and the time at which it expires, in seconds since the epoch.
#[derive(Debug)]
pub struct Claims {
    pub sub: String,
    pub role: String,
    pub exp: usize,
}

impl Claims {
    /// Whether the claims carry exactly the role that is asked for.
    pub fn authorize(&self, required_role: &str) -> (ok: bool)
        ensures
            ok == (self.role@ == required_role@),
    {
        let required = String::from_str(required_role);
        self.role == required
    }
}

} // verus!
