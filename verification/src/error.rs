//! What can go wrong in the engine.

use vstd::prelude::*;

verus! {

/// The failures that the engine reports to its callers.
#[derive(Debug, Clone, Copy, PartialEq, Eq, Structural)]
pub enum EngineError {
    /// The target process could not be opened.
    ProcessAccess,
    /// A read or write failed or moved fewer bytes than asked for.
    MemoryTransfer,
    /// No usable memory could be had in the target process.
    AllocationFailure,
    /// A pattern string holds no byte and no wildcard.
    InvalidPattern,
    /// A pattern occurs nowhere in the memory that was searched.
    PatternNotFound,
    /// No function of that name is known.
    SymbolNotFound,
    /// Functions of that name are known, but fewer than the index asks for;
    /// the largest index that would do is given.
    SymbolIndexOutOfRange { max_index: usize },
    /// The runtime's version is none of those that are understood.
    VersionDetection,
    /// The machine code at a hook site cannot be replaced.
    HookSite,
    /// Machine code could not be assembled.
    Assemble,
    /// An arena has too little room left.
    OutOfSpace,
    /// The name is already taken in the arena.
    VariableExists,
    /// No variable of that name is in the arena.
    VariableNotFound,
    /// A value does not have the size of the variable.
    SizeMismatch,
}

} // verus!
