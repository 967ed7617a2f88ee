//! The failures that the machine reports to its driver.

use vstd::prelude::*;

verus! {

/// A reported, recoverable failure of one operation of the machine.
#[derive(Debug, Clone, Copy, PartialEq, Eq, Structural)]
pub enum CoreError {
    /// The program handed to the loader is longer than the loader accepts.
    RomSizeError,
    /// A fetch at `index` would read past the end of memory.
    ProgramCounterError { index: u16 },
    /// A register block transfer ending at `index` would leave memory.
    IndexRegisterError { index: u16 },
    /// The word `opcode` matches no instruction.
    OpcodeError { opcode: u16 },
    /// A return was executed while the call stack was empty.
    StackEmptyError,
    /// A call was executed while the call stack was full.
    StackOverflowError,
    /// The keypad has no key numbered `key`.
    KeyIndexError { key: usize },
}

} // verus!
