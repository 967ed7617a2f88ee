//! The processor: all of the machine's state, and its lifecycle.

use vstd::prelude::*;
use crate::display::SCREEN_BUFF_SIZE;
use crate::error::CoreError;
use crate::fonts::FONT_SET_1;
use crate::state::{initial_state, overlay, ticked, MachineState};

verus! {

/// Number of bytes of memory.
pub const RAM_SIZE: usize = 4096;

/// Address at which a program is loaded and starts.
pub const START_ADDRESS: u16 = 0x200;

/// Number of general registers.
pub const NUM_REGISTERS: usize = 16;

/// Capacity of the call stack.
pub const STACK_SIZE: usize = 16;

/// Number of keys of the keypad.
pub const NUM_KEYS: usize = 16;

/// Address of the first glyph of the font.
pub const FONT_ADDRESS_OFFSET: u16 = 0;

/// Largest program, in bytes, that the loader accepts.
pub const ROM_SIZE_MAX: usize = 0xA00;

/// The processor and everything it owns.
///
/// The fields are open to the driver, which may inspect and patch the
/// machine between operations. Every operation keeps the call stack within
/// `STACK_SIZE` entries if it finds it so.
#[derive(Clone, Debug)]
pub struct CPU {
    /// Address of the next instruction.
    pub program_counter: u16,
    /// Memory: the font at the bottom, the program from `START_ADDRESS` on.
    pub ram: [u8; RAM_SIZE],
    /// The address that memory and sprite instructions work at.
    pub index_register: u16,
    /// The general registers; the last one doubles as the flag register.
    pub v_register: [u8; NUM_REGISTERS],
    /// The return addresses of the calls under way, the latest last.
    pub stack: Vec<u16>,
    /// The delay timer.
    pub delay_timer: u8,
    /// The sound timer.
    pub sound_timer: u8,
    /// The pixels of the screen, row by row.
    pub display_buffer: [bool; SCREEN_BUFF_SIZE],
    /// Set whenever the screen changes; the driver clears it after showing
    /// the screen.
    pub display_update_flag: bool,
    /// Which keys are held down, by key number.
    pub key_states: [bool; NUM_KEYS],
}

impl View for CPU {
    type V = MachineState;

    open spec fn view(&self) -> MachineState {
        MachineState {
            program_counter: self.program_counter,
            memory: self.ram@,
            index_register: self.index_register,
            registers: self.v_register@,
            stack: self.stack@,
            delay_timer: self.delay_timer,
            sound_timer: self.sound_timer,
            display: self.display_buffer@,
            dirty: self.display_update_flag,
            keys: self.key_states@,
        }
    }
}

impl CPU {
    /// A machine in its initial state.
    pub fn new() -> (cpu: Self)
        ensures
            cpu@ == initial_state(),
            cpu@.well_formed(),
    {
        let mut new_cpu = Self {
            program_counter: START_ADDRESS,
            ram: [0; RAM_SIZE],
            index_register: 0,
            v_register: [0; NUM_REGISTERS],
            stack: Vec::with_capacity(STACK_SIZE),
            delay_timer: 0,
            sound_timer: 0,
            display_buffer: [false; SCREEN_BUFF_SIZE],
            display_update_flag: false,
            key_states: [false; NUM_KEYS],
        };
        new_cpu.load_font(&FONT_ADDRESS_OFFSET, &FONT_SET_1);
        assert(new_cpu@ =~= initial_state());
        new_cpu
    }

    /// Brings the machine back to its initial state.
    pub fn reset(&mut self)
        ensures
            final(self)@ == initial_state(),
            final(self)@.well_formed(),
    {
        self.program_counter = START_ADDRESS;
        self.ram = [0; RAM_SIZE];
        self.index_register = 0;
        self.v_register = [0; NUM_REGISTERS];
        self.stack = Vec::with_capacity(STACK_SIZE);
        self.delay_timer = 0;
        self.sound_timer = 0;
        self.display_buffer = [false; SCREEN_BUFF_SIZE];
        self.display_update_flag = false;
        self.key_states = [false; NUM_KEYS];
        self.load_font(&FONT_ADDRESS_OFFSET, &FONT_SET_1);
        assert(self@ =~= initial_state());
    }

    /// Copies the eighty bytes of `font` into memory from `offset` on.
    fn load_font(&mut self, offset: &u16, font: &[u8; 80])
        requires
            *offset + 80 <= RAM_SIZE,
        ensures
            final(self)@ == (MachineState {
                memory: overlay(old(self)@.memory, *offset as int, font@),
                ..old(self)@
            }),
    {
        let base: usize = *offset as usize;
        let mut i: usize = 0;
        while i < 80
            invariant
                i <= 80,
                base + 80 <= RAM_SIZE,
                self@ == (MachineState {
                    memory: overlay(old(self)@.memory, base as int, font@.take(i as int)),
                    ..old(self)@
                }),
            decreases 80 - i,
        {
            self.ram[base + i] = font[i];
            i = i + 1;
            assert(self@.memory =~= overlay(old(self)@.memory, base as int, font@.take(i as int)));
        }
        assert(font@.take(80) =~= font@);
    }

    /// Installs a program at the entry point.
    ///
    /// A program of more than `ROM_SIZE_MAX` bytes is refused and nothing is
    /// written; any other is copied as it is, and nothing else changes.
    pub fn load_rom_from_buffer(&mut self, rom_buffer: &Vec<u8>) -> (r: Result<(), CoreError>)
        ensures
            rom_buffer@.len() > ROM_SIZE_MAX ==> r == Err::<(), CoreError>(CoreError::RomSizeError)
                && final(self)@ == old(self)@,
            rom_buffer@.len() <= ROM_SIZE_MAX ==> r == Ok::<(), CoreError>(()) && final(self)@ == (
            MachineState {
                memory: overlay(old(self)@.memory, START_ADDRESS as int, rom_buffer@),
                ..old(self)@
            }),
            old(self)@.well_formed() ==> final(self)@.well_formed(),
    {
        if rom_buffer.len() > ROM_SIZE_MAX {
            return Err(CoreError::RomSizeError);
        }
        let start: usize = START_ADDRESS as usize;
        let n: usize = rom_buffer.len();
        let mut i: usize = 0;
        while i < n
            invariant
                i <= n,
                n == rom_buffer@.len(),
                n <= ROM_SIZE_MAX,
                start == START_ADDRESS,
                self@ == (MachineState {
                    memory: overlay(old(self)@.memory, start as int, rom_buffer@.take(i as int)),
                    ..old(self)@
                }),
            decreases n - i,
        {
            self.ram[start + i] = rom_buffer[i];
            i = i + 1;
            assert(self@.memory =~= overlay(
                old(self)@.memory,
                start as int,
                rom_buffer@.take(i as int),
            ));
        }
        assert(rom_buffer@.take(n as int) =~= rom_buffer@);
        Ok(())
    }

    /// The framebuffer, one `bool` per pixel, row by row.
    pub fn get_display(&self) -> (pixels: &[bool])
        ensures
            pixels@ == self@.display,
    {
        &self.display_buffer
    }

    /// Latches key `index` as pressed or released.
    ///
    /// An index that names none of the keys is refused, and nothing changes.
    pub fn keypress(&mut self, index: usize, pressed: bool) -> (r: Result<(), CoreError>)
        ensures
            index >= NUM_KEYS ==> r == Err::<(), CoreError>(CoreError::KeyIndexError { key: index })
                && final(self)@ == old(self)@,
            index < NUM_KEYS ==> r == Ok::<(), CoreError>(()) && final(self)@ == (MachineState {
                keys: old(self)@.keys.update(index as int, pressed),
                ..old(self)@
            }),
            old(self)@.well_formed() ==> final(self)@.well_formed(),
    {
        if index >= NUM_KEYS {
            return Err(CoreError::KeyIndexError { key: index });
        }
        self.key_states[index] = pressed;
        Ok(())
    }

    /// Counts both timers down by one, each stopping at zero.
    pub fn tick_timers(&mut self)
        ensures
            final(self)@ == (MachineState {
                delay_timer: ticked(old(self)@.delay_timer),
                sound_timer: ticked(old(self)@.sound_timer),
                ..old(self)@
            }),
            old(self)@.well_formed() ==> final(self)@.well_formed(),
    {
        if self.delay_timer > 0 {
            self.delay_timer -= 1;
        }
        if self.sound_timer > 0 {
            self.sound_timer -= 1;
        }
    }

    /// Reads the word at the program counter and steps over it.
    ///
    /// Where the word would not lie in memory, the program counter is
    /// reported and nothing changes.
    pub fn fetch(&mut self) -> (r: Result<u16, CoreError>)
        ensures
            !old(self)@.can_fetch() ==> r == Err::<u16, CoreError>(
                CoreError::ProgramCounterError { index: old(self)@.program_counter },
            ) && final(self)@ == old(self)@,
            old(self)@.can_fetch() ==> r == Ok::<u16, CoreError>(old(self)@.next_word())
                && final(self)@ == old(self)@.fetched(),
            old(self)@.well_formed() ==> final(self)@.well_formed(),
    {
        let pc: usize = self.program_counter as usize;
        if pc + 1 >= RAM_SIZE {
            return Err(CoreError::ProgramCounterError { index: self.program_counter });
        }
        let upper_byte: u8 = self.ram[pc];
        let lower_byte: u8 = self.ram[pc + 1];
        let opcode: u16 = (upper_byte as u16) << 8 | lower_byte as u16;
        assert((upper_byte as u16) << 8 | lower_byte as u16 == upper_byte * 256 + lower_byte)
            by (bit_vector);
        self.program_counter += 2;
        Ok(opcode)
    }
}

} // verus!
