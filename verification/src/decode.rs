//! Instruction words and their operand fields.

use vstd::prelude::*;

verus! {

/// The nibble of `word` at position `k`, counted from the least significant
/// nibble (`k == 0`) to the most significant one (`k == 3`).
pub open spec fn nibble(word: u16, k: nat) -> int {
    if k == 0 {
        word as int % 16
    } else if k == 1 {
        (word as int / 16) % 16
    } else if k == 2 {
        (word as int / 256) % 16
    } else {
        (word as int / 4096) % 16
    }
}

/// The low byte of an instruction word: the immediate `nn`.
pub open spec fn low_byte(word: u16) -> int {
    word as int % 256
}

/// The low twelve bits of an instruction word: the address `nnn`.
pub open spec fn address(word: u16) -> int {
    word as int % 4096
}

/// Splits a word into its four nibbles, most significant first.
pub fn slice_u16(word: u16) -> (r: (u16, u16, u16, u16))
    ensures
        r.0 == nibble(word, 3),
        r.1 == nibble(word, 2),
        r.2 == nibble(word, 1),
        r.3 == nibble(word, 0),
{
    let n4: u16 = (word & 0xF000) >> 12;
    let n3: u16 = (word & 0x0F00) >> 8;
    let n2: u16 = (word & 0x00F0) >> 4;
    let n1: u16 = word & 0x000F;
    assert((word & 0xF000) >> 12 == (word / 4096) % 16) by (bit_vector);
    assert((word & 0x0F00) >> 8 == (word / 256) % 16) by (bit_vector);
    assert((word & 0x00F0) >> 4 == (word / 16) % 16) by (bit_vector);
    assert(word & 0x000F == word % 16) by (bit_vector);
    (n4, n3, n2, n1)
}

/// The byte immediate of an instruction word.
pub fn byte_operand(word: u16) -> (nn: u8)
    ensures
        nn == low_byte(word),
{
    assert((word & 0x00FF) < 256 && (word & 0x00FF) == word % 256) by (bit_vector);
    (word & 0x00FF) as u8
}

/// The address operand of an instruction word.
pub fn address_operand(word: u16) -> (nnn: u16)
    ensures
        nnn == address(word),
{
    assert((word & 0x0FFF) == word % 4096) by (bit_vector);
    word & 0x0FFF
}

} // verus!
