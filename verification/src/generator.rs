//! The code generator: two shift registers held in machine words.

use vstd::prelude::*;
use crate::cells::{
    bit_at, bit_value, cell, cells, lemma_low_bit, lemma_output_cell, lemma_pushed_cells,
    lemma_xor_bit_values, pushed, shift_in,
};
use crate::model::{
    bot_feedback, chip, chips, initial, is_binary, lemma_chips_shape, satellite_output,
    state_after, step, tap, top_feedback, Registers,
};
use crate::params::{
    lemma_tap_pair_in_range, tap_pair, BOT_PUSH_REG_1, BOT_PUSH_REG_2, BOT_PUSH_REG_3,
    BOT_PUSH_REG_4, BOT_PUSH_REG_5, CODE_LENGTH, GPS_REGISTER_PROPS, REG_SIZE, SATELLITES,
    TOP_PUSH_REG,
};

verus! {

/// The generator of one satellite's code. Each register occupies the low ten
/// bits of its word; the bits above them carry no meaning.
pub struct ShiftRegGPS {
    pub top: u16,
    pub bot: u16,
    pub id: u16,
}

impl View for ShiftRegGPS {
    type V = Registers;

    open spec fn view(&self) -> Registers {
        Registers { top: cells(self.top), bot: cells(self.bot), id: self.id as nat }
    }
}

impl ShiftRegGPS {
    /// The identity names an entry of the tap table.
    pub open spec fn wf(&self) -> bool {
        self.id < SATELLITES
    }

    /// The generator after one step, word for word.
    pub open spec fn stepped(self) -> ShiftRegGPS {
        ShiftRegGPS {
            top: pushed(self.top, bit_value(top_feedback(cells(self.top)))),
            bot: pushed(self.bot, bit_value(bot_feedback(cells(self.bot)))),
            id: self.id,
        }
    }

    /// The generator after `n` steps, word for word.
    pub open spec fn advanced(self, n: nat) -> ShiftRegGPS
        decreases n,
    {
        if n == 0 {
            self
        } else {
            self.advanced((n - 1) as nat).stepped()
        }
    }

    /// The number of cells in a register.
    #[inline]
    pub fn reg_size() -> (size: u16)
        ensures
            size == REG_SIZE,
    {
        REG_SIZE
    }

    /// A generator for satellite `id` with every cell of both registers set.
    pub fn new(id: u16) -> (generator: ShiftRegGPS)
        requires
            id < SATELLITES,
        ensures
            generator.top == 0xffff,
            generator.bot == 0xffff,
            generator.id == id,
            generator.wf(),
            generator@ == initial(id as nat),
    {
        proof {
            assert forall|s: u16| s < 16 implies bit_at(0xffffu16, s) by {
                assert(s < 16 ==> bit_at(0xffffu16, s)) by (bit_vector);
            }
            assert(cells(0xffffu16) =~= initial(id as nat).top);
        }
        ShiftRegGPS { top: 0xffff, bot: 0xffff, id }
    }

    /// Reads cell `index` of `reg`, counted from 1 at the front.
    pub fn get_bit(index: u16, reg: u16) -> (bit: u16)
        requires
            1 <= index <= REG_SIZE,
        ensures
            bit == bit_value(cell(reg, index as int)),
    {
        let shift: u16 = ShiftRegGPS::reg_size() - index;
        assert(((1u16 << shift) & reg == 0) == !bit_at(reg, shift)) by (bit_vector)
            requires
                shift <= 9,
        ;
        if ((1 << shift) & reg) == 0 {
            return 0;
        }
        return 1;
    }

    /// Shifts `reg` by one cell towards the back and puts `bit` into the
    /// front cell.
    pub fn push_bit_to_front(bit: u16, reg: &mut u16)
        ensures
            *final(reg) == pushed(*old(reg), bit),
            cells(*final(reg)) == shift_in(cells(*old(reg)), bit & 1 == 1),
    {
        proof {
            lemma_pushed_cells(*reg, bit);
        }
        *reg >>= 1;
        *reg &= !(1u16 << ShiftRegGPS::reg_size() - 1);
        *reg |= bit << ShiftRegGPS::reg_size() - 1;
    }

    /// Emits the next chip and advances both registers by one step.
    pub fn next_bit(&mut self) -> (bit: u16)
        requires
            old(self).wf(),
        ensures
            bit == bit_value(chip(old(self)@)),
            *final(self) == old(self).stepped(),
            final(self)@ == step(old(self)@),
            final(self).wf(),
    {
        let ghost top = cells(self.top);
        let ghost bot = cells(self.bot);
        let out_top = self.top & 0x0001;
        let top_tap = ShiftRegGPS::get_bit(TOP_PUSH_REG, self.top);
        let next_top = top_tap ^ out_top;
        proof {
            lemma_output_cell(self.top);
            lemma_xor_bit_values(tap(top, TOP_PUSH_REG as int), tap(top, REG_SIZE as int));
        }
        assert(next_top == bit_value(top_feedback(top)));

        proof {
            lemma_tap_pair_in_range(self.id as nat);
        }
        let pair = GPS_REGISTER_PROPS[self.id as usize];
        let first = ShiftRegGPS::get_bit(pair.0, self.bot);
        let second = ShiftRegGPS::get_bit(pair.1, self.bot);
        let calc_bot = first ^ second;
        proof {
            lemma_xor_bit_values(
                tap(bot, tap_pair(self.id as nat).0),
                tap(bot, tap_pair(self.id as nat).1),
            );
        }
        assert(calc_bot == bit_value(satellite_output(bot, self.id as nat)));

        let out_bot = self.bot & 0x0001;
        let b1 = ShiftRegGPS::get_bit(BOT_PUSH_REG_1, self.bot);
        let b2 = ShiftRegGPS::get_bit(BOT_PUSH_REG_2, self.bot);
        let b3 = ShiftRegGPS::get_bit(BOT_PUSH_REG_3, self.bot);
        let b4 = ShiftRegGPS::get_bit(BOT_PUSH_REG_4, self.bot);
        let b5 = ShiftRegGPS::get_bit(BOT_PUSH_REG_5, self.bot);
        let next_bot = b1 ^ b2 ^ b3 ^ b4 ^ b5 ^ out_bot;
        proof {
            let c1 = tap(bot, BOT_PUSH_REG_1 as int);
            let c2 = tap(bot, BOT_PUSH_REG_2 as int);
            let c3 = tap(bot, BOT_PUSH_REG_3 as int);
            let c4 = tap(bot, BOT_PUSH_REG_4 as int);
            let c5 = tap(bot, BOT_PUSH_REG_5 as int);
            lemma_output_cell(self.bot);
            lemma_xor_bit_values(c1, c2);
            lemma_xor_bit_values(c1 != c2, c3);
            lemma_xor_bit_values((c1 != c2) != c3, c4);
            lemma_xor_bit_values(((c1 != c2) != c3) != c4, c5);
            lemma_xor_bit_values((((c1 != c2) != c3) != c4) != c5, tap(bot, REG_SIZE as int));
        }
        assert(next_bot == bit_value(bot_feedback(bot)));

        proof {
            lemma_low_bit(next_top);
            lemma_low_bit(next_bot);
            lemma_xor_bit_values(tap(top, REG_SIZE as int), satellite_output(bot, self.id as nat));
        }
        ShiftRegGPS::push_bit_to_front(next_top, &mut self.top);
        ShiftRegGPS::push_bit_to_front(next_bot, &mut self.bot);
        out_top ^ calc_bot
    }

    /// Emits the next `length` chips.
    pub fn generate(&mut self, length: usize) -> (code: Vec<u16>)
        requires
            old(self).wf(),
        ensures
            code@ == chips(old(self)@, length as nat),
            code@.len() == length,
            is_binary(code@),
            *final(self) == old(self).advanced(length as nat),
            final(self)@ == state_after(old(self)@, length as nat),
            final(self).wf(),
    {
        let mut vec: Vec<u16> = Vec::new();
        let mut produced: usize = 0;
        while produced < length
            invariant
                produced <= length,
                self.wf(),
                *self == old(self).advanced(produced as nat),
                vec@ == chips(old(self)@, produced as nat),
            decreases length - produced,
        {
            proof {
                lemma_advanced_view(*old(self), produced as nat);
            }
            let bit = self.next_bit();
            vec.push(bit);
            produced += 1;
        }
        proof {
            lemma_advanced_view(*old(self), length as nat);
            lemma_chips_shape(old(self)@, length as nat);
        }
        vec
    }

    /// Emits the next full period of the code.
    pub fn get_code(&mut self) -> (code: Vec<u16>)
        requires
            old(self).wf(),
        ensures
            code@ == chips(old(self)@, CODE_LENGTH as nat),
            code@.len() == CODE_LENGTH,
            is_binary(code@),
            *final(self) == old(self).advanced(CODE_LENGTH as nat),
            final(self)@ == state_after(old(self)@, CODE_LENGTH as nat),
            final(self).wf(),
    {
        self.generate(CODE_LENGTH as usize)
    }
}

/// The cells of a generator that was advanced word for word are those that
/// the state machine reaches in as many steps.
pub proof fn lemma_advanced_view(generator: ShiftRegGPS, n: nat)
    ensures
        generator.advanced(n)@ == state_after(generator@, n),
        generator.advanced(n).id == generator.id,
    decreases n,
{
    if n > 0 {
        lemma_advanced_view(generator, (n - 1) as nat);
        let before = generator.advanced((n - 1) as nat);
        lemma_pushed_cells(before.top, bit_value(top_feedback(cells(before.top))));
        lemma_pushed_cells(before.bot, bit_value(bot_feedback(cells(before.bot))));
        lemma_low_bit(bit_value(top_feedback(cells(before.top))));
        lemma_low_bit(bit_value(bot_feedback(cells(before.bot))));
    }
}

/// Two generators whose registers hold the same cells for the same satellite
/// emit the same chips and reach the same state, whatever the spare bits of
/// their words hold.
pub proof fn lemma_generation_is_deterministic(first: ShiftRegGPS, second: ShiftRegGPS, n: nat)
    requires
        first@ == second@,
    ensures
        chips(first@, n) == chips(second@, n),
        state_after(first@, n) == state_after(second@, n),
{
}

} // verus!
