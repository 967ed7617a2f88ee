//! The machine as a mathematical value.

use vstd::prelude::*;
use crate::cpu::{
    FONT_ADDRESS_OFFSET, NUM_KEYS, NUM_REGISTERS, RAM_SIZE, STACK_SIZE, START_ADDRESS,
};
use crate::display::SCREEN_BUFF_SIZE;
use crate::fonts::FONT_SET_1;

verus! {

/// The machine as a mathematical value: what a processor holds, with
/// sequences in place of its arrays and its stack.
#[verifier::ext_equal]
pub struct MachineState {
    /// Address of the next instruction.
    pub program_counter: u16,
    /// The bytes of memory, by address.
    pub memory: Seq<u8>,
    /// The address that memory and sprite instructions work at.
    pub index_register: u16,
    /// The general registers; the last one doubles as the flag register.
    pub registers: Seq<u8>,
    /// The return addresses of the calls under way, the latest last.
    pub stack: Seq<u16>,
    /// The delay timer.
    pub delay_timer: u8,
    /// The sound timer.
    pub sound_timer: u8,
    /// The pixels of the screen, row by row.
    pub display: Seq<bool>,
    /// Whether the screen has changed since it was last shown.
    pub dirty: bool,
    /// Which keys are held down, by key number.
    pub keys: Seq<bool>,
}

/// `memory` with `bytes` written over it from address `at` on.
pub open spec fn overlay(memory: Seq<u8>, at: int, bytes: Seq<u8>) -> Seq<u8> {
    Seq::new(
        memory.len(),
        |a: int|
            if at <= a < at + bytes.len() {
                bytes[a - at]
            } else {
                memory[a]
            },
    )
}

/// The state in which every machine starts: the font at the bottom of
/// memory, the program counter at the entry point, zero everywhere else.
pub open spec fn initial_state() -> MachineState {
    MachineState {
        program_counter: START_ADDRESS,
        memory: overlay(
            Seq::new(RAM_SIZE as nat, |a: int| 0u8),
            FONT_ADDRESS_OFFSET as int,
            FONT_SET_1@,
        ),
        index_register: 0,
        registers: Seq::new(NUM_REGISTERS as nat, |i: int| 0u8),
        stack: Seq::empty(),
        delay_timer: 0,
        sound_timer: 0,
        display: Seq::new(SCREEN_BUFF_SIZE as nat, |i: int| false),
        dirty: false,
        keys: Seq::new(NUM_KEYS as nat, |i: int| false),
    }
}

/// The big-endian word that `memory` holds at `at` and `at + 1`.
pub open spec fn word_at(memory: Seq<u8>, at: int) -> int {
    memory[at] * 256 + memory[at + 1]
}

/// A timer after one tick.
pub open spec fn ticked(timer: u8) -> u8 {
    if timer > 0 {
        (timer - 1) as u8
    } else {
        0
    }
}

impl MachineState {
    /// The shape that every machine's state has: the fixed sizes of its
    /// parts, and a call stack within its capacity.
    pub open spec fn well_formed(self) -> bool {
        &&& self.memory.len() == RAM_SIZE
        &&& self.registers.len() == NUM_REGISTERS
        &&& self.display.len() == SCREEN_BUFF_SIZE
        &&& self.keys.len() == NUM_KEYS
        &&& self.stack.len() <= STACK_SIZE
    }

    /// Whether a fetch is possible: both bytes of the next word lie in memory.
    pub open spec fn can_fetch(self) -> bool {
        self.program_counter + 1 < RAM_SIZE
    }

    /// The word at the program counter.
    pub open spec fn next_word(self) -> u16 {
        word_at(self.memory, self.program_counter as int) as u16
    }

    /// The state with the program counter behind the word it was at.
    pub open spec fn fetched(self) -> MachineState {
        MachineState { program_counter: (self.program_counter + 2) as u16, ..self }
    }
}

} // verus!
