//! The codes of different satellites are different.
//!
//! Ten chips suffice to tell any two codes of the table apart. The proof
//! follows both registers through their first ten states and reads off the
//! leading chips of every code.

use vstd::prelude::*;
use crate::cells::{bit_value, shift_in};
use crate::model::{
    bot_feedback, chip, code, initial, lemma_chips_shape, state_after, top_feedback, Registers,
};
use crate::params::{CODE_LENGTH, SATELLITES};

verus! {

/// The number of leading chips that the table below records.
pub const LEADING: u16 = 10;

/// The first ten chips of every code, read as a binary number with the first
/// chip as the most significant digit.
pub const LEADING_CHIPS: [u16; 24] = [
    0o1440,
    0o1620,
    0o1710,
    0o1744,
    0o1133,
    0o1455,
    0o1131,
    0o1454,
    0o1626,
    0o1504,
    0o1642,
    0o1750,
    0o1764,
    0o1772,
    0o1775,
    0o1776,
    0o1156,
    0o1467,
    0o1633,
    0o1715,
    0o1746,
    0o1763,
    0o1063,
    0o1706,
];

/// The first ten elements of `s` read as a binary number, first element most
/// significant.
pub open spec fn leading_number(s: Seq<u16>) -> int
    recommends
        s.len() >= LEADING,
{
    512 * s[0] + 256 * s[1] + 128 * s[2] + 64 * s[3] + 32 * s[4] + 16 * s[5] + 8 * s[6] + 4 * s[7]
        + 2 * s[8] + s[9]
}

/// The top register after `k` steps from the all-ones state, for `k < 10`.
pub open spec fn early_top(k: nat) -> Seq<bool> {
    if k == 0 {
        seq![true, true, true, true, true, true, true, true, true, true]
    } else if k == 1 {
        seq![false, true, true, true, true, true, true, true, true, true]
    } else if k == 2 {
        seq![false, false, true, true, true, true, true, true, true, true]
    } else if k == 3 {
        seq![false, false, false, true, true, true, true, true, true, true]
    } else if k == 4 {
        seq![true, false, false, false, true, true, true, true, true, true]
    } else if k == 5 {
        seq![true, true, false, false, false, true, true, true, true, true]
    } else if k == 6 {
        seq![true, true, true, false, false, false, true, true, true, true]
    } else if k == 7 {
        seq![false, true, true, true, false, false, false, true, true, true]
    } else if k == 8 {
        seq![false, false, true, true, true, false, false, false, true, true]
    } else {
        seq![false, false, false, true, true, true, false, false, false, true]
    }
}

/// The bottom register after `k` steps from the all-ones state, for `k < 10`.
pub open spec fn early_bot(k: nat) -> Seq<bool> {
    if k == 0 {
        seq![true, true, true, true, true, true, true, true, true, true]
    } else if k == 1 {
        seq![false, true, true, true, true, true, true, true, true, true]
    } else if k == 2 {
        seq![false, false, true, true, true, true, true, true, true, true]
    } else if k == 3 {
        seq![true, false, false, true, true, true, true, true, true, true]
    } else if k == 4 {
        seq![false, true, false, false, true, true, true, true, true, true]
    } else if k == 5 {
        seq![true, false, true, false, false, true, true, true, true, true]
    } else if k == 6 {
        seq![true, true, false, true, false, false, true, true, true, true]
    } else if k == 7 {
        seq![false, true, true, false, true, false, false, true, true, true]
    } else if k == 8 {
        seq![true, false, true, true, false, true, false, false, true, true]
    } else {
        seq![false, true, false, true, true, false, true, false, false, true]
    }
}

/// The first ten states of a generator are the ones tabulated above; they do
/// not depend on the satellite.
pub proof fn lemma_early_states(id: nat, k: nat)
    requires
        k < LEADING,
    ensures
        state_after(initial(id), k) == (Registers {
            top: early_top(k),
            bot: early_bot(k),
            id,
        }),
    decreases k,
{
    if k == 0 {
        assert(initial(id).top =~= early_top(0));
        assert(initial(id).bot =~= early_bot(0));
    } else {
        let j = (k - 1) as nat;
        lemma_early_states(id, j);
        assert(shift_in(early_top(j), top_feedback(early_top(j))) =~= early_top(k));
        assert(shift_in(early_bot(j), bot_feedback(early_bot(j))) =~= early_bot(k));
    }
}

/// The first ten chips of each code are the ones recorded in the table.
pub proof fn lemma_leading_chips(id: nat)
    requires
        id < SATELLITES,
    ensures
        leading_number(code(id)) == LEADING_CHIPS[id as int],
{
    lemma_chips_shape(initial(id), CODE_LENGTH as nat);
    assert forall|k: nat| k < LEADING implies code(id)[k as int] == bit_value(
        chip(Registers { top: early_top(k), bot: early_bot(k), id }),
    ) by {
        lemma_early_states(id, k);
    }
}

/// Two different satellites of the table have different codes: they differ
/// at one of the first ten positions.
pub proof fn lemma_codes_distinct(first: nat, second: nat)
    requires
        first < SATELLITES,
        second < SATELLITES,
        first != second,
    ensures
        exists|k: int| 0 <= k < LEADING && code(first)[k] != code(second)[k],
        code(first) != code(second),
{
    lemma_leading_chips(first);
    lemma_leading_chips(second);
    assert(LEADING_CHIPS[first as int] != LEADING_CHIPS[second as int]);
    if forall|k: int| 0 <= k < LEADING ==> code(first)[k] == code(second)[k] {
        assert(leading_number(code(first)) == leading_number(code(second)));
    }
}

} // verus!
