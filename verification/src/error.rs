//! The crate's error value: a plain message.

use vstd::prelude::*;

verus! {

/// An error carrying a human-readable message.  Startup validation and
/// request building return it; per-tick failures are reported through it
/// and then dropped, never retried out of schedule.
#[derive(Debug)]
pub struct Error(pub String);

impl Error {
    /// The message the error carries.
    pub fn message(&self) -> (r: String)
        ensures
            r@ == self.0@,
    {
        self.0.clone()
    }
}

} // verus!
