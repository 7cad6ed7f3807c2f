//! How a register's cells are laid out in a machine word.
//!
//! A register is held in a `u16`. Cell 1 is the front of the register (the
//! cell that was shifted in most recently) and sits at bit 9; cell 10 is the
//! output cell and sits at bit 0. Bits above bit 9 are not part of the register.

use vstd::prelude::*;
use crate::params::REG_SIZE;

verus! {

/// Whether bit number `shift` of `reg` is set.
pub open spec fn bit_at(reg: u16, shift: u16) -> bool {
    (reg >> shift) & 1u16 == 1u16
}

/// The content of cell `index`, counted from 1 at the front.
pub open spec fn cell(reg: u16, index: int) -> bool
    recommends
        1 <= index <= REG_SIZE,
{
    bit_at(reg, (REG_SIZE - index) as u16)
}

/// The register as a sequence of cells, front first.
pub open spec fn cells(reg: u16) -> Seq<bool> {
    Seq::new(REG_SIZE as nat, |k: int| cell(reg, k + 1))
}

/// A cell's content as the integer that the code carries: 1 or 0.
pub open spec fn bit_value(b: bool) -> u16 {
    if b {
        1u16
    } else {
        0u16
    }
}

/// A register after one shift: every cell moves one place to the back, the
/// last one drops out, and `bit` enters at the front.
pub open spec fn shift_in(cells: Seq<bool>, bit: bool) -> Seq<bool> {
    seq![bit] + cells.drop_last()
}

/// The word that holds a register after `bit` was pushed to its front.
pub open spec fn pushed(reg: u16, bit: u16) -> u16 {
    ((reg >> 1u16) & !(1u16 << 9u16)) | (bit << 9u16)
}

proof fn lemma_pushed_bits(reg: u16, bit: u16, s: u16, t: u16)
    by (bit_vector)
    requires
        s < 9,
        t == s + 1,
    ensures
        bit_at(pushed(reg, bit), s) == bit_at(reg, t),
        bit_at(pushed(reg, bit), 9) == (bit & 1 == 1),
{
}

/// Pushing a bit shifts the register: the new front cell holds the bit, and
/// each other cell holds what the cell before it held.
pub proof fn lemma_pushed_cells(reg: u16, bit: u16)
    ensures
        cells(pushed(reg, bit)) == shift_in(cells(reg), bit & 1 == 1),
        cell(pushed(reg, bit), 1) == (bit & 1 == 1),
        forall|i: int| 2 <= i <= REG_SIZE ==> cell(pushed(reg, bit), i) == cell(reg, i - 1),
{
    lemma_pushed_bits(reg, bit, 0, 1);
    assert forall|i: int| 2 <= i <= REG_SIZE implies cell(pushed(reg, bit), i) == cell(
        reg,
        i - 1,
    ) by {
        lemma_pushed_bits(reg, bit, (REG_SIZE - i) as u16, (REG_SIZE - i + 1) as u16);
    }
    assert(cells(pushed(reg, bit)) =~= shift_in(cells(reg), bit & 1 == 1));
}

/// A bit that is 0 or 1 is its own lowest bit.
pub proof fn lemma_low_bit(bit: u16)
    by (bit_vector)
    requires
        bit <= 1,
    ensures
        (bit & 1 == 1) == (bit == 1),
{
}

/// The lowest bit of a register is its output cell.
pub proof fn lemma_output_cell(reg: u16)
    ensures
        reg & 1 == bit_value(cell(reg, REG_SIZE as int)),
{
    assert(reg & 1 == if bit_at(reg, 0) { 1u16 } else { 0u16 }) by (bit_vector);
}

/// Exclusive-or of two cell values is the value of the cells' inequality.
pub proof fn lemma_xor_bit_values(a: bool, b: bool)
    ensures
        bit_value(a) ^ bit_value(b) == bit_value(a != b),
{
    assert(0u16 ^ 0u16 == 0u16) by (bit_vector);
    assert(0u16 ^ 1u16 == 1u16) by (bit_vector);
    assert(1u16 ^ 0u16 == 1u16) by (bit_vector);
    assert(1u16 ^ 1u16 == 0u16) by (bit_vector);
}

} // verus!
