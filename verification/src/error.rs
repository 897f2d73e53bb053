//! What can go wrong when a process is looked into.

use vstd::prelude::*;

verus! {

/// Why an operation on a process failed.
#[derive(Debug, Clone, Copy, PartialEq, Eq, Structural)]
pub enum ProcessError {
    /// The process, or its description, cannot be reached.
    NotFoundError,
    /// Anything else: a malformed description, a failed transfer, a missing
    /// scan buffer.
    UnknownError,
}

impl ProcessError {
    /// The text that describes the error.
    pub open spec fn text(self) -> Seq<char> {
        match self {
            ProcessError::NotFoundError => "Process is not found"@,
            ProcessError::UnknownError => "Unknown error occured"@,
        }
    }

    /// The text that describes the error.
    pub fn to_string(&self) -> (message: String)
        ensures
            message@ == self.text(),
    {
        match self {
            ProcessError::NotFoundError => "Process is not found".to_owned(),
            ProcessError::UnknownError => "Unknown error occured".to_owned(),
        }
    }
}

} // verus!
