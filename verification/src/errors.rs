use vstd::prelude::*;

verus! {

/// A fatal interpreter condition. None of these are recoverable: a
/// malformed program terminates the whole run, and the host reports the
/// error and exits with a non-zero code.
#[derive(Clone, Copy, Debug, PartialEq, Eq, Structural)]
pub enum VmError {
    /// The fetched instruction word matches no known pattern; carries the
    /// literal offending opcode for the diagnostic.
    UnknownInstruction(u16),
    /// A return instruction found the call stack empty.
    StackUnderflow,
    /// An instruction addressed memory at or past the 4096-byte bound.
    MemoryOutOfBounds,
    /// A key-test instruction named a key index past the 16 keys.
    KeyOutOfRange(u8),
    /// The ROM image holds no bytes.
    RomEmpty,
    /// The ROM image does not fit between its load offset and the end of
    /// memory.
    RomTooLarge,
}

} // verus!
