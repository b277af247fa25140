//! Failures that the library reports.

use vstd::prelude::*;

verus! {

/// Why an operation on the comparison map failed.
#[derive(Debug, Clone, Copy, PartialEq, Eq, Structural)]
pub enum Error {
    /// The trace buffer is not there: nothing is mapped behind the view.
    MapUnavailable,
}

impl Error {
    /// What to tell the user.
    pub fn message(&self) -> (text: &'static str)
        ensures
            text@ == match *self {
                Error::MapUnavailable => "the comparison map is not mapped"@,
            },
    {
        match self {
            Error::MapUnavailable => "the comparison map is not mapped",
        }
    }
}

} // verus!
