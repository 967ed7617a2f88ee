//! The execution of instructions.

use vstd::prelude::*;
use crate::cpu::{CPU, FONT_ADDRESS_OFFSET, NUM_KEYS, RAM_SIZE, STACK_SIZE};
use crate::decode::{address_operand, byte_operand, slice_u16};
use crate::display::{draw_sprite, SCREEN_BUFF_SIZE, SPRITE_BYTES_MAX};
use crate::error::CoreError;
use crate::fonts::GLYPH_BYTES;
use crate::random::random_byte;
use crate::semantics::{
    any_pressed, decimal_digits, draws_random, is_lowest_pressed, lowest_pressed, step,
    step_arithmetic, step_keypad, step_machine, step_system, FLAG_REGISTER,
};
use crate::state::{overlay, MachineState};

verus! {

/// Whether an operation that was due to make `expected` of the state
/// `before` has ended in the state `after` with the result `result`: a
/// success has made the expected state, a failure has changed nothing.
pub open spec fn accounts_for(
    before: MachineState,
    expected: Result<MachineState, CoreError>,
    after: MachineState,
    result: Result<(), CoreError>,
) -> bool {
    match expected {
        Ok(next) => result == Ok::<(), CoreError>(()) && after == next,
        Err(e) => result == Err::<(), CoreError>(e) && after == before,
    }
}

impl CPU {
    /// Fetches the next instruction and executes it.
    ///
    /// Where the program counter leaves no room for a word, it is reported
    /// and nothing changes. Where the instruction fails, the machine stays as
    /// it was after the fetch.
    pub fn cycle(&mut self) -> (r: Result<(), CoreError>)
        ensures
            old(self)@.program_counter >= RAM_SIZE - 1 ==> r == Err::<(), CoreError>(
                CoreError::ProgramCounterError { index: old(self)@.program_counter },
            ) && final(self)@ == old(self)@,
            old(self)@.program_counter < RAM_SIZE - 1 ==> exists|random: u8|
                accounts_for(
                    old(self)@.fetched(),
                    #[trigger] step(old(self)@.fetched(), old(self)@.next_word(), random),
                    final(self)@,
                    r,
                ),
            old(self)@.program_counter < RAM_SIZE - 1 && !draws_random(old(self)@.next_word())
                ==> accounts_for(
                old(self)@.fetched(),
                step(old(self)@.fetched(), old(self)@.next_word(), 0),
                final(self)@,
                r,
            ),
            old(self)@.well_formed() ==> final(self)@.well_formed(),
    {
        let op_code = match self.fetch() {
            Ok(word) => word,
            Err(e) => {
                return Err(e);
            },
        };
        self.execute(op_code)
    }

    /// Executes the instruction `op_code`, drawing a random byte where the
    /// instruction asks for one.
    ///
    /// A failure leaves the machine as it was.
    pub fn execute(&mut self, op_code: u16) -> (r: Result<(), CoreError>)
        ensures
            exists|random: u8|
                accounts_for(
                    old(self)@,
                    #[trigger] step(old(self)@, op_code, random),
                    final(self)@,
                    r,
                ),
            !draws_random(op_code) ==> accounts_for(
                old(self)@,
                step(old(self)@, op_code, 0),
                final(self)@,
                r,
            ),
            old(self)@.well_formed() ==> final(self)@.well_formed(),
    {
        let (nib4, _, _, _) = slice_u16(op_code);
        let random: u8 = if nib4 == 0xC {
            random_byte()
        } else {
            0
        };
        self.execute_with(op_code, random)
    }

    /// Executes the instruction `op_code`, with `random` for the byte that
    /// the random-number instruction draws.
    ///
    /// A failure leaves the machine as it was.
    pub fn execute_with(&mut self, op_code: u16, random: u8) -> (r: Result<(), CoreError>)
        ensures
            accounts_for(old(self)@, step(old(self)@, op_code, random), final(self)@, r),
            old(self)@.well_formed() ==> final(self)@.well_formed(),
    {
        let (nib4, nib3, nib2, nib1) = slice_u16(op_code);
        let x: usize = nib3 as usize;
        let y: usize = nib2 as usize;
        let nn: u8 = byte_operand(op_code);
        let nnn: u16 = address_operand(op_code);
        match (nib4, nib3, nib2, nib1) {
            (0, _, _, _) => self.execute_system(op_code),
            (1, _, _, _) => {
                self.program_counter = nnn;
                Ok(())
            },
            (2, _, _, _) => self.enter(nnn),
            (3, _, _, _) => {
                self.skip_if(self.v_register[x] == nn);
                Ok(())
            },
            (4, _, _, _) => {
                self.skip_if(self.v_register[x] != nn);
                Ok(())
            },
            (5, _, _, 0) => {
                self.skip_if(self.v_register[x] == self.v_register[y]);
                Ok(())
            },
            (6, _, _, _) => {
                self.store(x, nn);
                Ok(())
            },
            (7, _, _, _) => {
                self.store(x, self.v_register[x].wrapping_add(nn));
                Ok(())
            },
            (8, _, _, _) => self.execute_arithmetic(op_code),
            (9, _, _, 0) => {
                self.skip_if(self.v_register[x] != self.v_register[y]);
                Ok(())
            },
            (0xA, _, _, _) => {
                self.index_register = nnn;
                Ok(())
            },
            (0xB, _, _, _) => {
                self.index_register = nnn.wrapping_add(self.v_register[0] as u16);
                Ok(())
            },
            (0xC, _, _, _) => {
                self.store(x, random & nn);
                Ok(())
            },
            (0xD, _, _, _) => self.execute_draw(
                self.v_register[x],
                self.v_register[y],
                nib1 as usize,
            ),
            (0xE, _, _, _) => self.execute_keypad(op_code),
            (0xF, _, _, _) => self.execute_machine(op_code),
            (_, _, _, _) => Err(CoreError::OpcodeError { opcode: op_code }),
        }
    }

    /// Enters the subroutine at `target`.
    fn enter(&mut self, target: u16) -> (r: Result<(), CoreError>)
        ensures
            accounts_for(old(self)@, old(self)@.enter(target), final(self)@, r),
            old(self)@.well_formed() ==> final(self)@.well_formed(),
    {
        if self.stack.len() >= STACK_SIZE {
            return Err(CoreError::StackOverflowError);
        }
        self.stack.push(self.program_counter);
        self.program_counter = target;
        Ok(())
    }

    /// Puts `value` in register `x`.
    fn store(&mut self, x: usize, value: u8)
        requires
            x < 16,
        ensures
            final(self)@ == old(self)@.store(x as int, value),
    {
        self.v_register[x] = value;
    }

    /// Executes an instruction whose first nibble is `0`.
    fn execute_system(&mut self, op_code: u16) -> (r: Result<(), CoreError>)
        ensures
            accounts_for(old(self)@, step_system(old(self)@, op_code), final(self)@, r),
            old(self)@.well_formed() ==> final(self)@.well_formed(),
    {
        if op_code == 0x0000 {
            Ok(())
        } else if op_code == 0x00E0 {
            self.display_buffer = [false; SCREEN_BUFF_SIZE];
            self.display_update_flag = true;
            assert(self@.display =~= old(self)@.clear_screen().display);
            Ok(())
        } else if op_code == 0x00EE {
            match self.stack.pop() {
                Some(addr) => {
                    self.program_counter = addr;
                    Ok(())
                },
                None => Err(CoreError::StackEmptyError),
            }
        } else {
            Err(CoreError::OpcodeError { opcode: op_code })
        }
    }

    /// Executes an instruction whose first nibble is `8`.
    fn execute_arithmetic(&mut self, op_code: u16) -> (r: Result<(), CoreError>)
        ensures
            accounts_for(old(self)@, step_arithmetic(old(self)@, op_code), final(self)@, r),
            old(self)@.well_formed() ==> final(self)@.well_formed(),
    {
        let (_, nib3, nib2, nib1) = slice_u16(op_code);
        let x: usize = nib3 as usize;
        let vx: u8 = self.v_register[x];
        let vy: u8 = self.v_register[nib2 as usize];
        match nib1 {
            0 => {
                self.v_register[x] = vy;
            },
            1 => {
                self.v_register[x] = vx | vy;
            },
            2 => {
                self.v_register[x] = vx & vy;
            },
            3 => {
                self.v_register[x] = vx ^ vy;
            },
            4 => {
                let carry: u8 = if vx as u16 + vy as u16 > 0xFF {
                    1
                } else {
                    0
                };
                self.store_flagged(x, vx.wrapping_add(vy), carry);
            },
            5 => {
                let no_borrow: u8 = if vx >= vy {
                    1
                } else {
                    0
                };
                self.store_flagged(x, vx.wrapping_sub(vy), no_borrow);
            },
            6 => {
                assert(vy & 0x01 == vy % 2 && vy >> 1 == vy / 2) by (bit_vector);
                self.store_flagged(x, vy >> 1, vy & 0x01);
            },
            7 => {
                let no_borrow: u8 = if vy >= vx {
                    1
                } else {
                    0
                };
                self.store_flagged(x, vy.wrapping_sub(vx), no_borrow);
            },
            0xE => {
                assert((vy & 0x80) >> 7 == vy / 128 && vy << 1 == (vy * 2) % 0x100)
                    by (bit_vector);
                self.store_flagged(x, vy << 1, (vy & 0x80) >> 7);
            },
            _ => {
                return Err(CoreError::OpcodeError { opcode: op_code });
            },
        }
        Ok(())
    }

    /// Draws the sprite of `rows` bytes at the index register with its top
    /// left corner at (`sprite_x`, `sprite_y`).
    fn execute_draw(&mut self, sprite_x: u8, sprite_y: u8, rows: usize) -> (r: Result<
        (),
        CoreError,
    >)
        requires
            rows <= SPRITE_BYTES_MAX,
        ensures
            accounts_for(
                old(self)@,
                old(self)@.draw(sprite_x, sprite_y, rows as int),
                final(self)@,
                r,
            ),
            old(self)@.well_formed() ==> final(self)@.well_formed(),
    {
        match self.check_indexed(rows) {
            Ok(()) => {},
            Err(e) => {
                return Err(e);
            },
        }
        let sprite: Vec<u8> = if rows == 0 {
            Vec::new()
        } else {
            self.indexed_bytes(rows)
        };
        assert(sprite@ =~= self@.indexed_bytes(rows as int));
        let collide: bool = draw_sprite(&mut self.display_buffer, &sprite, sprite_x, sprite_y);
        self.v_register[FLAG_REGISTER] = if collide {
            1
        } else {
            0
        };
        self.display_update_flag = true;
        Ok(())
    }

    /// Executes an instruction whose first nibble is `E`.
    fn execute_keypad(&mut self, op_code: u16) -> (r: Result<(), CoreError>)
        ensures
            accounts_for(old(self)@, step_keypad(old(self)@, op_code), final(self)@, r),
            old(self)@.well_formed() ==> final(self)@.well_formed(),
    {
        let (_, nib3, _, _) = slice_u16(op_code);
        let nn: u8 = byte_operand(op_code);
        let key: usize = self.v_register[nib3 as usize] as usize;
        if nn != 0x9E && nn != 0xA1 {
            return Err(CoreError::OpcodeError { opcode: op_code });
        }
        if key >= NUM_KEYS {
            return Err(CoreError::KeyIndexError { key });
        }
        self.skip_if(self.key_states[key] == (nn == 0x9E));
        Ok(())
    }

    /// Executes an instruction whose first nibble is `F`.
    fn execute_machine(&mut self, op_code: u16) -> (r: Result<(), CoreError>)
        ensures
            accounts_for(old(self)@, step_machine(old(self)@, op_code), final(self)@, r),
            old(self)@.well_formed() ==> final(self)@.well_formed(),
    {
        let (_, nib3, _, _) = slice_u16(op_code);
        let x: usize = nib3 as usize;
        let vx: u8 = self.v_register[x];
        match byte_operand(op_code) {
            0x07 => {
                self.v_register[x] = self.delay_timer;
            },
            0x0A => {
                match self.lowest_pressed_key() {
                    Some(key) => {
                        self.v_register[x] = key;
                    },
                    None => {
                        self.program_counter = self.program_counter.wrapping_sub(2);
                    },
                }
            },
            0x15 => {
                self.delay_timer = vx;
            },
            0x18 => {
                self.sound_timer = vx;
            },
            0x1E => {
                self.index_register = self.index_register.wrapping_add(vx as u16);
            },
            0x29 => {
                self.index_register = FONT_ADDRESS_OFFSET + (vx as u16) * GLYPH_BYTES;
            },
            0x33 => {
                return self.store_decimal(vx);
            },
            0x55 => {
                match self.check_indexed(x + 1) {
                    Ok(()) => {},
                    Err(e) => {
                        return Err(e);
                    },
                }
                let registers: [u8; 16] = self.v_register;
                self.write_indexed(&registers, x + 1);
                self.index_register += nib3 + 1;
            },
            0x65 => {
                match self.check_indexed(x + 1) {
                    Ok(()) => {},
                    Err(e) => {
                        return Err(e);
                    },
                }
                self.read_indexed(x + 1);
                self.index_register += nib3 + 1;
            },
            _ => {
                return Err(CoreError::OpcodeError { opcode: op_code });
            },
        }
        Ok(())
    }

    /// Writes the decimal digits of `value` to memory at the index register.
    fn store_decimal(&mut self, value: u8) -> (r: Result<(), CoreError>)
        ensures
            accounts_for(
                old(self)@,
                old(self)@.write_indexed(decimal_digits(value)),
                final(self)@,
                r,
            ),
            old(self)@.well_formed() ==> final(self)@.well_formed(),
    {
        match self.check_indexed(3) {
            Ok(()) => {},
            Err(e) => {
                return Err(e);
            },
        }
        let one: u8 = value % 10;
        let ten: u8 = value % 100 - one;
        let hundred: u8 = value - ten - one;
        let digits: [u8; 3] = [hundred / 100, ten / 10, one];
        assert(digits@ =~= decimal_digits(value));
        assert(digits@.take(3) =~= digits@);
        self.write_indexed(&digits, 3);
        Ok(())
    }

    /// Steps over the next instruction if `condition` holds.
    fn skip_if(&mut self, condition: bool)
        ensures
            final(self)@ == old(self)@.skip_if(condition),
    {
        if condition {
            self.program_counter = self.program_counter.wrapping_add(2);
        }
    }

    /// Puts `value` in register `x` and then `flag` in the flag register.
    fn store_flagged(&mut self, x: usize, value: u8, flag: u8)
        requires
            x < 16,
        ensures
            final(self)@ == old(self)@.store_flagged(x as int, value, flag),
    {
        self.v_register[x] = value;
        self.v_register[FLAG_REGISTER] = flag;
    }

    /// The lowest key that is pressed, if any is.
    fn lowest_pressed_key(&self) -> (key: Option<u8>)
        ensures
            key is Some <==> any_pressed(self@.keys),
            key is Some ==> key->Some_0 == lowest_pressed(self@.keys),
    {
        let mut i: usize = 0;
        while i < NUM_KEYS
            invariant
                i <= NUM_KEYS,
                forall|lower: int| 0 <= lower < i ==> !self.key_states@[lower],
            decreases NUM_KEYS - i,
        {
            if self.key_states[i] {
                proof {
                    let keys = self@.keys;
                    assert(is_lowest_pressed(keys, i as int));
                    let chosen = lowest_pressed(keys);
                    assert(is_lowest_pressed(keys, chosen));
                    assert(chosen == i) by {
                        if chosen < i {
                            assert(!keys[chosen]);
                        }
                        if i < chosen {
                            assert(!keys[i as int]);
                        }
                    }
                }
                return Some(i as u8);
            }
            i = i + 1;
        }
        None
    }

    /// Checks that the `count` bytes from the index register on lie in
    /// memory, and reports the last of them where they do not.
    fn check_indexed(&self, count: usize) -> (r: Result<(), CoreError>)
        requires
            count <= 16,
        ensures
            self@.indexed_in_memory(count as int) ==> r == Ok::<(), CoreError>(()),
            !self@.indexed_in_memory(count as int) ==> r == Err::<(), CoreError>(
                self@.index_failure(count as int),
            ),
    {
        if count > 0 && self.index_register as usize + count > RAM_SIZE {
            Err(
                CoreError::IndexRegisterError {
                    index: self.index_register.wrapping_add((count - 1) as u16),
                },
            )
        } else {
            Ok(())
        }
    }

    /// Writes `bytes` to memory from the index register on.
    fn write_indexed(&mut self, bytes: &[u8], count: usize)
        requires
            count <= bytes@.len(),
            old(self).index_register + count <= RAM_SIZE,
        ensures
            final(self)@ == (MachineState {
                memory: overlay(
                    old(self)@.memory,
                    old(self)@.index_register as int,
                    bytes@.take(count as int),
                ),
                ..old(self)@
            }),
    {
        let base: usize = self.index_register as usize;
        let mut i: usize = 0;
        while i < count
            invariant
                i <= count <= bytes@.len(),
                base == old(self).index_register,
                base + count <= RAM_SIZE,
                self@ == (MachineState {
                    memory: overlay(old(self)@.memory, base as int, bytes@.take(i as int)),
                    ..old(self)@
                }),
            decreases count - i,
        {
            self.ram[base + i] = bytes[i];
            i = i + 1;
            assert(self@.memory =~= overlay(old(self)@.memory, base as int, bytes@.take(i as int)));
        }
    }

    /// Fills registers `0` to `count - 1` from the index register on.
    fn read_indexed(&mut self, count: usize)
        requires
            count <= 16,
            old(self).index_register + count <= RAM_SIZE,
        ensures
            final(self)@ == (MachineState {
                registers: overlay(old(self)@.registers, 0, old(self)@.indexed_bytes(count as int)),
                ..old(self)@
            }),
    {
        let base: usize = self.index_register as usize;
        let mut i: usize = 0;
        while i < count
            invariant
                i <= count <= 16,
                base == old(self).index_register,
                base + count <= RAM_SIZE,
                self@ == (MachineState {
                    registers: overlay(
                        old(self)@.registers,
                        0,
                        old(self)@.indexed_bytes(i as int),
                    ),
                    ..old(self)@
                }),
            decreases count - i,
        {
            self.v_register[i] = self.ram[base + i];
            i = i + 1;
            assert(self@.registers =~= overlay(
                old(self)@.registers,
                0,
                old(self)@.indexed_bytes(i as int),
            ));
        }
    }

    /// The `count` bytes of memory from the index register on.
    fn indexed_bytes(&self, count: usize) -> (bytes: Vec<u8>)
        requires
            self.index_register + count <= RAM_SIZE,
        ensures
            bytes@ == self@.indexed_bytes(count as int),
    {
        let base: usize = self.index_register as usize;
        let mut sprite: Vec<u8> = Vec::with_capacity(SPRITE_BYTES_MAX);
        let mut i: usize = 0;
        while i < count
            invariant
                i <= count,
                base == self.index_register,
                base + count <= RAM_SIZE,
                sprite@ == self@.indexed_bytes(i as int),
            decreases count - i,
        {
            sprite.push(self.ram[base + i]);
            i = i + 1;
            assert(sprite@ =~= self@.indexed_bytes(i as int));
        }
        sprite
    }
}

} // verus!
