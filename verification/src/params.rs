//! The parameter set: register width, code period, taps and bit depth.

use vstd::prelude::*;

verus! {

/// Number of cells in each shift register.
pub const REG_SIZE: u16 = 10;

/// Number of chips in one code period.
pub const CODE_LENGTH: u16 = 1023;

/// Number of satellite identities in the tap table.
pub const SATELLITES: u16 = 24;

/// For each satellite identity, the two cells of the bottom register whose
/// exclusive-or is that satellite's contribution to the code.
pub const GPS_REGISTER_PROPS: [(u16, u16); 24] = [
    (2, 6),
    (3, 7),
    (4, 8),
    (5, 9),
    (1, 9),
    (2, 10),
    (1, 8),
    (2, 9),
    (3, 10),
    (2, 3),
    (3, 4),
    (5, 6),
    (6, 7),
    (7, 8),
    (8, 9),
    (9, 10),
    (1, 4),
    (2, 5),
    (3, 6),
    (4, 7),
    (5, 8),
    (6, 9),
    (1, 3),
    (4, 6),
];

/// Feedback tap of the top register (combined with its output cell).
pub const TOP_PUSH_REG: u16 = 3;

/// Feedback taps of the bottom register (combined with its output cell).
pub const BOT_PUSH_REG_1: u16 = 2;

pub const BOT_PUSH_REG_2: u16 = 3;

pub const BOT_PUSH_REG_3: u16 = 6;

pub const BOT_PUSH_REG_4: u16 = 8;

pub const BOT_PUSH_REG_5: u16 = 9;

/// Effective bit depth of one sample.
pub const SAMPLE_BITS: u32 = 12;

/// Raw samples folded into one correlation unit.
pub const OVERSAMPLING: i32 = 10;

/// The tap pair of satellite `id`, as cell indices.
pub open spec fn tap_pair(id: nat) -> (int, int)
    recommends
        id < SATELLITES,
{
    (GPS_REGISTER_PROPS[id as int].0 as int, GPS_REGISTER_PROPS[id as int].1 as int)
}

/// Every tap pair names two cells that exist.
pub proof fn lemma_tap_pair_in_range(id: nat)
    requires
        id < SATELLITES,
    ensures
        1 <= tap_pair(id).0 <= REG_SIZE,
        1 <= tap_pair(id).1 <= REG_SIZE,
{
}

} // verus!
