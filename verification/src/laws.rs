//! What holds of the machine whatever program it runs.

use vstd::prelude::*;
use crate::cpu::STACK_SIZE;
use crate::decode::{address, low_byte, nibble};
use crate::display::{
    collides, drawn, pixel_index, sprite_bit, sprite_col, sprite_covers, sprite_row,
    SCREEN_BUFF_SIZE, SCREEN_HEIGHT, SPRITE_WIDTH,
};
use crate::error::CoreError;
use crate::semantics::{
    any_pressed, decimal_digits, is_lowest_pressed, lowest_pressed, step,
};
use crate::state::{initial_state, MachineState};

verus! {

/// A word is made of its nibbles, and so are its operands.
pub proof fn word_is_made_of_nibbles(word: u16)
    ensures
        0 <= nibble(word, 0) < 16,
        0 <= nibble(word, 1) < 16,
        0 <= nibble(word, 2) < 16,
        0 <= nibble(word, 3) < 16,
        low_byte(word) == nibble(word, 1) * 16 + nibble(word, 0),
        address(word) == nibble(word, 2) * 256 + low_byte(word),
        word == nibble(word, 3) * 4096 + address(word),
{
}

/// The nibbles and operands of a word are its bit fields.
pub proof fn operands_are_bit_fields(word: u16)
    ensures
        nibble(word, 3) == (word & 0xF000) >> 12,
        nibble(word, 2) == (word & 0x0F00) >> 8,
        nibble(word, 1) == (word & 0x00F0) >> 4,
        nibble(word, 0) == word & 0x000F,
        low_byte(word) == word & 0x00FF,
        address(word) == word & 0x0FFF,
{
    assert((word & 0xF000) >> 12 == (word / 4096) % 16) by (bit_vector);
    assert((word & 0x0F00) >> 8 == (word / 256) % 16) by (bit_vector);
    assert((word & 0x00F0) >> 4 == (word / 16) % 16) by (bit_vector);
    assert(word & 0x000F == word % 16) by (bit_vector);
    assert(word & 0x00FF == word % 256) by (bit_vector);
    assert(word & 0x0FFF == word % 4096) by (bit_vector);
}

/// Every machine starts well-formed.
pub proof fn initial_state_is_well_formed()
    ensures
        initial_state().well_formed(),
{
}

/// No instruction breaks the shape of the machine: from a well-formed state
/// every step that succeeds leads to a well-formed state. In particular the
/// call stack never grows beyond its capacity.
pub proof fn step_keeps_well_formed(s: MachineState, word: u16, random: u8)
    requires
        s.well_formed(),
    ensures
        step(s, word, random) is Ok ==> step(s, word, random)->Ok_0.well_formed(),
{
}

/// A call followed by a return leaves the machine exactly as it was: the
/// program counter is back where the call was made, and so is the stack.
/// The call itself succeeds as long as the stack has room.
pub proof fn call_then_return_restores(s: MachineState, call: u16, random: u8)
    requires
        nibble(call, 3) == 2,
    ensures
        s.stack.len() < STACK_SIZE <==> step(s, call, random) is Ok,
        step(s, call, random) is Ok ==> {
            let called = step(s, call, random)->Ok_0;
            &&& called.program_counter == address(call)
            &&& called.stack == s.stack.push(s.program_counter)
            &&& step(called, 0x00EE, random) == Ok::<MachineState, CoreError>(s)
        },
{
    if s.stack.len() < STACK_SIZE {
        let called = step(s, call, random)->Ok_0;
        assert(called.stack.drop_last() =~= s.stack);
        assert(nibble(0x00EE, 3) == 0);
    }
}

/// A return fails exactly on an empty stack, and then with the failure
/// that says so.
pub proof fn return_needs_a_caller(s: MachineState, random: u8)
    ensures
        s.stack.len() == 0 <==> step(s, 0x00EE, random) is Err,
        s.stack.len() == 0 ==> step(s, 0x00EE, random) == Err::<MachineState, CoreError>(
            CoreError::StackEmptyError,
        ),
{
    assert(nibble(0x00EE, 3) == 0);
}

/// Right after a fetch the program counter is far enough from both ends of
/// its range: a skip moves it forward by two and a repeat moves it back by
/// two, without wrapping.
pub proof fn fetched_counter_does_not_wrap(s: MachineState)
    requires
        s.can_fetch(),
    ensures
        s.fetched().skip_if(true).program_counter == s.program_counter + 4,
        s.fetched().repeat() == s,
{
}

/// While no key is pressed, a cycle that meets the wait-for-key instruction
/// changes nothing: the next cycle meets the same instruction in the same
/// state.
pub proof fn waiting_for_a_key_changes_nothing(s: MachineState, word: u16, random: u8)
    requires
        s.can_fetch(),
        nibble(word, 3) == 0xF,
        low_byte(word) == 0x0A,
        !any_pressed(s.keys),
    ensures
        step(s.fetched(), word, random) == Ok::<MachineState, CoreError>(s),
{
}

/// Where a key is pressed, the lowest pressed key is pressed, no key below
/// it is, and it is the only key of which both hold.
pub proof fn lowest_pressed_is_lowest(keys: Seq<bool>, key: int)
    requires
        0 <= key < keys.len(),
        keys[key],
    ensures
        any_pressed(keys),
        is_lowest_pressed(keys, lowest_pressed(keys)),
        lowest_pressed(keys) <= key,
        is_lowest_pressed(keys, key) ==> lowest_pressed(keys) == key,
    decreases key,
{
    if is_lowest_pressed(keys, key) {
        let chosen = lowest_pressed(keys);
        if chosen < key {
            assert(!keys[chosen]);
        }
        if key < chosen {
            assert(!keys[key]);
        }
    } else {
        let lower = choose|lower: int| 0 <= lower < key && keys[lower];
        lowest_pressed_is_lowest(keys, lower);
    }
}

/// The decimal digits of a byte are digits, and they make up the byte.
pub proof fn decimal_digits_make_the_value(value: u8)
    ensures
        decimal_digits(value).len() == 3,
        forall|i: int| 0 <= i < 3 ==> decimal_digits(value)[i] <= 9,
        decimal_digits(value)[0] * 100 + decimal_digits(value)[1] * 10 + decimal_digits(value)[2]
            == value,
{
}

/// The sprite pixel in row `r` and column `c` lands `c` columns to the
/// right of the sprite's left edge and `r` rows below its top edge, each
/// wrapped round its edge of the screen, and nowhere else.
pub proof fn sprite_pixel_lands(rows: Seq<u8>, x: u8, y: u8, r: int, c: int, p: int)
    requires
        rows.len() <= SCREEN_HEIGHT,
        0 <= r < rows.len(),
        0 <= c < SPRITE_WIDTH,
        0 <= p < SCREEN_BUFF_SIZE,
    ensures
        0 <= pixel_index(x + c, y + r) < SCREEN_BUFF_SIZE,
        sprite_covers(rows, x as int, y as int, pixel_index(x + c, y + r)) == sprite_bit(
            rows[r],
            c,
        ),
        (sprite_row(y as int, p) == r && sprite_col(x as int, p) == c) <==> p == pixel_index(
            x + c,
            y + r,
        ),
{
    crate::display::lemma_lands(x as int, y as int, c, r);
    crate::display::lemma_only_place(x as int, y as int, c, r, p);
}

/// Drawing a sprite twice at the same place gives back the screen as it
/// was.
pub proof fn drawing_twice_restores(display: Seq<bool>, rows: Seq<u8>, x: u8, y: u8)
    ensures
        drawn(drawn(display, rows, x as int, y as int), rows, x as int, y as int) == display,
{
    assert(drawn(drawn(display, rows, x as int, y as int), rows, x as int, y as int) =~= display);
}

/// Every pixel of the screen under a set sprite pixel makes one of two
/// draws at the same place collide: the first if the pixel was on, the
/// second if it was off.
pub proof fn second_draw_collides(display: Seq<bool>, rows: Seq<u8>, x: u8, y: u8, p: int)
    requires
        0 <= p < display.len(),
        sprite_covers(rows, x as int, y as int, p),
    ensures
        display[p] ==> collides(display, rows, x as int, y as int),
        !display[p] ==> collides(
            drawn(display, rows, x as int, y as int),
            rows,
            x as int,
            y as int,
        ),
{
    if !display[p] {
        assert(drawn(display, rows, x as int, y as int)[p]);
    }
}

} // verus!
