//! Attaching to a process.

use vstd::prelude::*;
use vstd::string::StringExecFns;

verus! {

/// Why attaching to a process failed.
#[derive(Debug)]
pub enum AttachError {
    /// The process could not be opened; the reason is given.
    ProcessOpenError(String),
    /// The handle to the process is no handle.
    InvalidHandle,
    /// The library could not be loaded into the process; the reason is given.
    InjectionError(String),
}

impl AttachError {
    /// What the error says, as text.
    pub open spec fn text(&self) -> Seq<char> {
        match self {
            AttachError::ProcessOpenError(reason) => "Failed to open process: "@ + reason@,
            AttachError::InvalidHandle => "Invalid process handle"@,
            AttachError::InjectionError(reason) => "Injection failed: "@ + reason@,
        }
    }

    /// Spells the error out.
    pub fn message(&self) -> (text: String)
        ensures
            text@ == self.text(),
    {
        match self {
            AttachError::ProcessOpenError(reason) => String::from_str(
                "Failed to open process: ",
            ).concat(reason.as_str()),
            AttachError::InvalidHandle => String::from_str("Invalid process handle"),
            AttachError::InjectionError(reason) => String::from_str("Injection failed: ").concat(
                reason.as_str(),
            ),
        }
    }
}

} // verus!
