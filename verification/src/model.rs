//! The generator as a state machine over register cells.
//!
//! A state is the content of the two registers and the satellite identity.
//! Each step emits one chip and shifts both registers; the fed-back bits are
//! computed from the cells as they were before the shift.

use vstd::prelude::*;
use crate::cells::{bit_value, shift_in};
use crate::params::{
    tap_pair, BOT_PUSH_REG_1, BOT_PUSH_REG_2, BOT_PUSH_REG_3, BOT_PUSH_REG_4, BOT_PUSH_REG_5,
    CODE_LENGTH, REG_SIZE, TOP_PUSH_REG,
};

verus! {

/// The cells of both registers, front first, and the satellite identity.
pub struct Registers {
    pub top: Seq<bool>,
    pub bot: Seq<bool>,
    pub id: nat,
}

/// The cell that tap `index` reads, counted from 1 at the front.
pub open spec fn tap(cells: Seq<bool>, index: int) -> bool
    recommends
        1 <= index <= cells.len(),
{
    cells[index - 1]
}

/// The bit fed back into the top register: its feedback tap combined with
/// its output cell.
pub open spec fn top_feedback(top: Seq<bool>) -> bool {
    tap(top, TOP_PUSH_REG as int) != tap(top, REG_SIZE as int)
}

/// The bit fed back into the bottom register: its five feedback taps
/// combined with its output cell.
pub open spec fn bot_feedback(bot: Seq<bool>) -> bool {
    ((((tap(bot, BOT_PUSH_REG_1 as int) != tap(bot, BOT_PUSH_REG_2 as int)) != tap(
        bot,
        BOT_PUSH_REG_3 as int,
    )) != tap(bot, BOT_PUSH_REG_4 as int)) != tap(bot, BOT_PUSH_REG_5 as int)) != tap(
        bot,
        REG_SIZE as int,
    )
}

/// What the bottom register contributes for satellite `id`: the two cells of
/// its tap pair, combined.
pub open spec fn satellite_output(bot: Seq<bool>, id: nat) -> bool {
    tap(bot, tap_pair(id).0) != tap(bot, tap_pair(id).1)
}

/// The chip that a state emits: the top register's output cell combined with
/// the satellite's contribution from the bottom register.
pub open spec fn chip(r: Registers) -> bool {
    tap(r.top, REG_SIZE as int) != satellite_output(r.bot, r.id)
}

/// The state after one step.
pub open spec fn step(r: Registers) -> Registers {
    Registers {
        top: shift_in(r.top, top_feedback(r.top)),
        bot: shift_in(r.bot, bot_feedback(r.bot)),
        id: r.id,
    }
}

/// The state in which a generator for satellite `id` starts: every cell set.
pub open spec fn initial(id: nat) -> Registers {
    Registers {
        top: Seq::new(REG_SIZE as nat, |k: int| true),
        bot: Seq::new(REG_SIZE as nat, |k: int| true),
        id,
    }
}

/// The state after `n` steps from `r`.
pub open spec fn state_after(r: Registers, n: nat) -> Registers
    decreases n,
{
    if n == 0 {
        r
    } else {
        step(state_after(r, (n - 1) as nat))
    }
}

/// The first `n` chips emitted from `r`, each as 1 or 0.
pub open spec fn chips(r: Registers, n: nat) -> Seq<u16>
    decreases n,
{
    if n == 0 {
        Seq::empty()
    } else {
        chips(r, (n - 1) as nat).push(bit_value(chip(state_after(r, (n - 1) as nat))))
    }
}

/// One full period of the code of satellite `id`.
pub open spec fn code(id: nat) -> Seq<u16> {
    chips(initial(id), CODE_LENGTH as nat)
}

/// Whether every element of `s` is 0 or 1.
pub open spec fn is_binary(s: Seq<u16>) -> bool {
    forall|i: int| 0 <= i < s.len() ==> s[i] == 0 || s[i] == 1
}

/// Generating `n` chips gives exactly `n` of them, each 0 or 1, and the chip
/// at position `k` is the one emitted by the state reached after `k` steps.
pub proof fn lemma_chips_shape(r: Registers, n: nat)
    ensures
        chips(r, n).len() == n,
        is_binary(chips(r, n)),
        forall|k: int|
            0 <= k < n ==> #[trigger] chips(r, n)[k] == bit_value(chip(state_after(r, k as nat))),
    decreases n,
{
    if n > 0 {
        lemma_chips_shape(r, (n - 1) as nat);
    }
}

} // verus!
