//! What each instruction makes of the machine.

use vstd::prelude::*;
use crate::cpu::{FONT_ADDRESS_OFFSET, NUM_KEYS, RAM_SIZE, STACK_SIZE};
use crate::decode::{address, low_byte, nibble};
use crate::display::{collides, drawn};
use crate::error::CoreError;
use crate::fonts::GLYPH_BYTES;
use crate::state::{overlay, MachineState};

verus! {

/// Index of the flag register.
pub const FLAG_REGISTER: usize = 0xF;

/// `value` brought into sixteen bits by dropping what lies above them.
pub open spec fn wrap16(value: int) -> u16 {
    (value % 0x1_0000) as u16
}

/// `value` brought into eight bits by dropping what lies above them.
pub open spec fn wrap8(value: int) -> u8 {
    (value % 0x100) as u8
}

/// One for `true`, zero for `false`.
pub open spec fn flag(condition: bool) -> u8 {
    if condition {
        1
    } else {
        0
    }
}

/// The decimal digits of `value`: hundreds, tens, ones.
pub open spec fn decimal_digits(value: u8) -> Seq<u8> {
    seq![(value / 100) as u8, ((value / 10) % 10) as u8, (value % 10) as u8]
}

/// Whether `key` is pressed and no key below it is.
pub open spec fn is_lowest_pressed(keys: Seq<bool>, key: int) -> bool {
    &&& 0 <= key < keys.len()
    &&& keys[key]
    &&& forall|lower: int| 0 <= lower < key ==> !keys[lower]
}

/// Whether any key is pressed.
pub open spec fn any_pressed(keys: Seq<bool>) -> bool {
    exists|key: int| 0 <= key < keys.len() && keys[key]
}

/// The lowest key that is pressed, where one is.
pub open spec fn lowest_pressed(keys: Seq<bool>) -> int {
    choose|key: int| is_lowest_pressed(keys, key)
}

impl MachineState {
    /// The state with the program counter at `target`.
    pub open spec fn jump(self, target: u16) -> MachineState {
        MachineState { program_counter: target, ..self }
    }

    /// The state with the next instruction stepped over if `condition` holds.
    pub open spec fn skip_if(self, condition: bool) -> MachineState {
        if condition {
            self.jump(wrap16(self.program_counter + 2))
        } else {
            self
        }
    }

    /// The state with the program counter back on the instruction that was
    /// last fetched.
    pub open spec fn repeat(self) -> MachineState {
        self.jump(wrap16(self.program_counter - 2))
    }

    /// The state with `value` in register `x`.
    pub open spec fn store(self, x: int, value: u8) -> MachineState {
        MachineState { registers: self.registers.update(x, value), ..self }
    }

    /// The state with `value` in register `x` and then `flag` in the flag
    /// register: where `x` is the flag register itself, the flag stays.
    pub open spec fn store_flagged(self, x: int, value: u8, flag: u8) -> MachineState {
        self.store(x, value).store(FLAG_REGISTER as int, flag)
    }

    /// The state with the index register at `target`.
    pub open spec fn point(self, target: u16) -> MachineState {
        MachineState { index_register: target, ..self }
    }

    /// The state with a dark screen that has to be shown again.
    pub open spec fn clear_screen(self) -> MachineState {
        MachineState {
            display: Seq::new(self.display.len(), |p: int| false),
            dirty: true,
            ..self
        }
    }

    /// Leaving a subroutine: the address on top of the stack becomes the
    /// program counter. With nothing on the stack there is nowhere to go.
    pub open spec fn leave(self) -> Result<MachineState, CoreError> {
        if self.stack.len() == 0 {
            Err(CoreError::StackEmptyError)
        } else {
            Ok(
                MachineState {
                    program_counter: self.stack.last(),
                    stack: self.stack.drop_last(),
                    ..self
                },
            )
        }
    }

    /// Entering a subroutine at `target`: the program counter goes on top of
    /// the stack. A full stack takes no more.
    pub open spec fn enter(self, target: u16) -> Result<MachineState, CoreError> {
        if self.stack.len() >= STACK_SIZE {
            Err(CoreError::StackOverflowError)
        } else {
            Ok(
                MachineState {
                    program_counter: target,
                    stack: self.stack.push(self.program_counter),
                    ..self
                },
            )
        }
    }

    /// The `count` bytes of memory from the index register on.
    pub open spec fn indexed_bytes(self, count: int) -> Seq<u8> {
        Seq::new(count as nat, |i: int| self.memory[self.index_register + i])
    }

    /// Whether the `count` bytes from the index register on lie in memory.
    pub open spec fn indexed_in_memory(self, count: int) -> bool {
        count == 0 || self.index_register + count <= RAM_SIZE
    }

    /// The failure that reports the last of `count` bytes from the index
    /// register on, which lies outside memory.
    pub open spec fn index_failure(self, count: int) -> CoreError {
        CoreError::IndexRegisterError { index: wrap16(self.index_register + count - 1) }
    }

    /// Drawing the sprite of `rows` bytes at the index register with its top
    /// left corner at (`x`, `y`): the flag register says whether a pixel went
    /// dark, and the screen has to be shown again.
    pub open spec fn draw(self, x: u8, y: u8, rows: int) -> Result<MachineState, CoreError> {
        if !self.indexed_in_memory(rows) {
            Err(self.index_failure(rows))
        } else {
            let sprite = self.indexed_bytes(rows);
            Ok(
                MachineState {
                    display: drawn(self.display, sprite, x as int, y as int),
                    dirty: true,
                    ..self
                }.store(
                    FLAG_REGISTER as int,
                    flag(collides(self.display, sprite, x as int, y as int)),
                ),
            )
        }
    }

    /// Skipping on the state of key `key`: over the next instruction if the
    /// key is pressed exactly when `pressed` says so. The keypad has no key
    /// beyond its last.
    pub open spec fn skip_on_key(self, key: u8, pressed: bool) -> Result<MachineState, CoreError> {
        if key >= NUM_KEYS {
            Err(CoreError::KeyIndexError { key: key as usize })
        } else {
            Ok(self.skip_if(self.keys[key as int] == pressed))
        }
    }

    /// Waiting for a key: the lowest pressed key goes to register `x`; with
    /// no key pressed the instruction is due again.
    pub open spec fn await_key(self, x: int) -> MachineState {
        if any_pressed(self.keys) {
            self.store(x, lowest_pressed(self.keys) as u8)
        } else {
            self.repeat()
        }
    }

    /// Writing `bytes` to memory from the index register on, where they fit.
    pub open spec fn write_indexed(self, bytes: Seq<u8>) -> Result<MachineState, CoreError> {
        if !self.indexed_in_memory(bytes.len() as int) {
            Err(self.index_failure(bytes.len() as int))
        } else {
            Ok(
                MachineState {
                    memory: overlay(self.memory, self.index_register as int, bytes),
                    ..self
                },
            )
        }
    }

    /// Saving registers `0` to `x` at the index register, which then points
    /// behind them.
    pub open spec fn save_registers(self, x: int) -> Result<MachineState, CoreError> {
        match self.write_indexed(self.registers.take(x + 1)) {
            Ok(written) => Ok(written.point((self.index_register + x + 1) as u16)),
            Err(e) => Err(e),
        }
    }

    /// Filling registers `0` to `x` from the index register on, which then
    /// points behind what was read.
    pub open spec fn restore_registers(self, x: int) -> Result<MachineState, CoreError> {
        if !self.indexed_in_memory(x + 1) {
            Err(self.index_failure(x + 1))
        } else {
            Ok(
                MachineState {
                    registers: overlay(self.registers, 0, self.indexed_bytes(x + 1)),
                    index_register: (self.index_register + x + 1) as u16,
                    ..self
                },
            )
        }
    }
}

/// The instructions whose first nibble is `0`.
pub open spec fn step_system(s: MachineState, word: u16) -> Result<MachineState, CoreError> {
    if word == 0x0000 {
        Ok(s)
    } else if word == 0x00E0 {
        Ok(s.clear_screen())
    } else if word == 0x00EE {
        s.leave()
    } else {
        Err(CoreError::OpcodeError { opcode: word })
    }
}

/// The instructions whose first nibble is `8`: register `x` combined with
/// register `y`.
pub open spec fn step_arithmetic(s: MachineState, word: u16) -> Result<MachineState, CoreError> {
    let x = nibble(word, 2);
    let vx = s.registers[x];
    let vy = s.registers[nibble(word, 1)];
    let n = nibble(word, 0);
    if n == 0x0 {
        Ok(s.store(x, vy))
    } else if n == 0x1 {
        Ok(s.store(x, vx | vy))
    } else if n == 0x2 {
        Ok(s.store(x, vx & vy))
    } else if n == 0x3 {
        Ok(s.store(x, vx ^ vy))
    } else if n == 0x4 {
        Ok(s.store_flagged(x, wrap8(vx + vy), flag(vx + vy > u8::MAX)))
    } else if n == 0x5 {
        Ok(s.store_flagged(x, wrap8(vx - vy), flag(vx >= vy)))
    } else if n == 0x6 {
        Ok(s.store_flagged(x, (vy / 2) as u8, (vy % 2) as u8))
    } else if n == 0x7 {
        Ok(s.store_flagged(x, wrap8(vy - vx), flag(vy >= vx)))
    } else if n == 0xE {
        Ok(s.store_flagged(x, wrap8(vy * 2), (vy / 128) as u8))
    } else {
        Err(CoreError::OpcodeError { opcode: word })
    }
}

/// The instructions whose first nibble is `E`: skips on the keypad.
pub open spec fn step_keypad(s: MachineState, word: u16) -> Result<MachineState, CoreError> {
    let vx = s.registers[nibble(word, 2)];
    if low_byte(word) == 0x9E {
        s.skip_on_key(vx, true)
    } else if low_byte(word) == 0xA1 {
        s.skip_on_key(vx, false)
    } else {
        Err(CoreError::OpcodeError { opcode: word })
    }
}

/// The instructions whose first nibble is `F`: timers, keypad, index
/// register and memory.
pub open spec fn step_machine(s: MachineState, word: u16) -> Result<MachineState, CoreError> {
    let x = nibble(word, 2);
    let vx = s.registers[x];
    let nn = low_byte(word);
    if nn == 0x07 {
        Ok(s.store(x, s.delay_timer))
    } else if nn == 0x0A {
        Ok(s.await_key(x))
    } else if nn == 0x15 {
        Ok(MachineState { delay_timer: vx, ..s })
    } else if nn == 0x18 {
        Ok(MachineState { sound_timer: vx, ..s })
    } else if nn == 0x1E {
        Ok(s.point(wrap16(s.index_register + vx)))
    } else if nn == 0x29 {
        Ok(s.point((FONT_ADDRESS_OFFSET + vx * GLYPH_BYTES) as u16))
    } else if nn == 0x33 {
        s.write_indexed(decimal_digits(vx))
    } else if nn == 0x55 {
        s.save_registers(x)
    } else if nn == 0x65 {
        s.restore_registers(x)
    } else {
        Err(CoreError::OpcodeError { opcode: word })
    }
}

/// What the instruction `word` makes of the state `s`: the next state, or
/// the failure that leaves `s` as it is. `random` is the byte that the
/// random-number instruction draws; no other instruction looks at it.
pub open spec fn step(s: MachineState, word: u16, random: u8) -> Result<MachineState, CoreError> {
    let op = nibble(word, 3);
    let x = nibble(word, 2);
    let vx = s.registers[x];
    let vy = s.registers[nibble(word, 1)];
    let n = nibble(word, 0);
    let nn = low_byte(word) as u8;
    let nnn = address(word) as u16;
    if op == 0x0 {
        step_system(s, word)
    } else if op == 0x1 {
        Ok(s.jump(nnn))
    } else if op == 0x2 {
        s.enter(nnn)
    } else if op == 0x3 {
        Ok(s.skip_if(vx == nn))
    } else if op == 0x4 {
        Ok(s.skip_if(vx != nn))
    } else if op == 0x5 && n == 0 {
        Ok(s.skip_if(vx == vy))
    } else if op == 0x6 {
        Ok(s.store(x, nn))
    } else if op == 0x7 {
        Ok(s.store(x, wrap8(vx + nn)))
    } else if op == 0x8 {
        step_arithmetic(s, word)
    } else if op == 0x9 && n == 0 {
        Ok(s.skip_if(vx != vy))
    } else if op == 0xA {
        Ok(s.point(nnn))
    } else if op == 0xB {
        Ok(s.point(wrap16(nnn + s.registers[0])))
    } else if op == 0xC {
        Ok(s.store(x, random & nn))
    } else if op == 0xD {
        s.draw(vx, vy, n)
    } else if op == 0xE {
        step_keypad(s, word)
    } else if op == 0xF {
        step_machine(s, word)
    } else {
        Err(CoreError::OpcodeError { opcode: word })
    }
}

/// Whether `word` is the random-number instruction, the only one whose
/// outcome the state and the word do not decide.
pub open spec fn draws_random(word: u16) -> bool {
    nibble(word, 3) == 0xC
}

} // verus!
