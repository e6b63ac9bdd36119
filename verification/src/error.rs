//! Error definitions.

use vstd::prelude::*;

verus! {

/// The single failure the resolver can surface: no hash function that
/// resolves the collisions was found within the trial budgets.
#[derive(Debug, Clone, Copy, PartialEq, Eq, Structural)]
pub enum O1Error {
    UnableToFindHashFunction,
}

impl O1Error {
    /// A short description of the failure.
    pub fn message(&self) -> (r: &'static str)
        ensures
            r@ == "Unable to find hash function suitable for resolving collisions."@,
    {
        "Unable to find hash function suitable for resolving collisions."
    }
}

} // verus!
