//! The decoder: a circular phase search of one code over the sample buffer.

use vstd::prelude::*;
use crate::correlation::{
    classify, dot, high_threshold, lemma_dot_bounds, lemma_full_rotation, lemma_rotated_len,
    lemma_threshold_values, low_threshold, rotate_right, rotated, score,
};
use crate::params::OVERSAMPLING;

verus! {

/// A resolved bit: which satellite it was found for and at which phase.
#[derive(Clone, Copy, Debug, PartialEq, Eq, Structural)]
pub struct Found {
    pub bit: i16,
    pub gps_id: usize,
    pub delta: usize,
}

/// The classification at one phase: that of the score against the buffer
/// rotated `phase` times.
pub open spec fn bit_at_phase(code: Seq<u16>, signal: Seq<i32>, phase: nat) -> i16 {
    classify(score(code, rotated(signal, phase)))
}

/// The resolved bits among the first `phases` phases, in order of phase.
/// Undetermined phases leave no entry.
pub open spec fn detections(code: Seq<u16>, signal: Seq<i32>, gps_id: usize, phases: nat) -> Seq<
    Found,
>
    decreases phases,
{
    if phases == 0 {
        Seq::empty()
    } else {
        let earlier = detections(code, signal, gps_id, (phases - 1) as nat);
        let bit = bit_at_phase(code, signal, (phases - 1) as nat);
        if bit != -1 {
            earlier.push(Found { bit, gps_id, delta: (phases - 1) as usize })
        } else {
            earlier
        }
    }
}

/// The sample buffer, which the search rotates, and the codes of all
/// satellites.
pub struct Decoder<'a> {
    pub signal: Vec<i32>,
    pub gps_codes: &'a Vec<Vec<u16>>,
}

impl<'a> Decoder<'a> {
    /// There is a code for `gps_id`, and it is as long as the buffer.
    pub open spec fn matches(&self, gps_id: usize) -> bool {
        &&& gps_id < self.gps_codes.len()
        &&& self.gps_codes[gps_id as int].len() == self.signal.len()
    }

    /// The least score that resolves to bit 1.
    #[inline]
    pub fn high_peak() -> (peak: i32)
        ensures
            peak == high_threshold(),
            peak == 63,
    {
        proof {
            lemma_threshold_values();
        }
        63
    }

    /// The greatest score that resolves to bit 0.
    #[inline]
    pub fn low_peak() -> (peak: i32)
        ensures
            peak == low_threshold(),
            peak == -65,
    {
        proof {
            lemma_threshold_values();
        }
        -65
    }

    /// Rotates the buffer by one position: the last sample moves to the
    /// front.
    pub fn rotate_signal_right(&mut self)
        requires
            old(self).signal.len() > 0,
        ensures
            final(self).signal@ == rotate_right(old(self).signal@),
            final(self).gps_codes == old(self).gps_codes,
    {
        let chip = self.signal.pop().unwrap();
        self.signal.insert(0, chip);
        assert(self.signal@ =~= rotate_right(old(self).signal@));
    }

    /// Classifies the buffer as it stands against the code of `gps_id`:
    /// 1 or 0 for a resolved bit, -1 for undetermined.
    pub fn get_bit(&self, gps_id: usize) -> (bit: i16)
        requires
            self.matches(gps_id),
        ensures
            bit == classify(score(self.gps_codes[gps_id as int]@, self.signal@)),
    {
        let code = &self.gps_codes[gps_id];
        let mut scalar_product: i128 = 0;
        let mut i: usize = 0;
        while i < code.len()
            invariant
                i <= code.len(),
                code.len() == self.signal.len(),
                scalar_product == dot(code@, self.signal@, i as nat),
            decreases code.len() - i,
        {
            let chip: i128 = if code[i] == 1 {
                1
            } else {
                -1
            };
            proof {
                lemma_dot_bounds(code@, self.signal@, i as nat);
            }
            scalar_product += chip * (self.signal[i] as i128);
            i += 1;
        }
        scalar_product = scalar_product / (OVERSAMPLING as i128);
        if scalar_product >= Decoder::high_peak() as i128 {
            return 1
        } else if scalar_product <= Decoder::low_peak() as i128 {
            return 0
        }
        -1
    }

    /// Tests every phase of the buffer against the code of `gps_id` and
    /// returns the resolved bits in order of phase. The buffer is rotated
    /// once per phase and so ends as it began.
    pub fn decode_with_gps(&mut self, gps_id: usize) -> (found: Vec<Found>)
        requires
            old(self).matches(gps_id),
        ensures
            found@ == detections(
                old(self).gps_codes[gps_id as int]@,
                old(self).signal@,
                gps_id,
                old(self).signal@.len(),
            ),
            final(self).signal@ == old(self).signal@,
            final(self).gps_codes == old(self).gps_codes,
    {
        let mut found: Vec<Found> = Vec::new();
        let length = self.signal.len();
        let mut delta: usize = 0;
        while delta < length
            invariant
                delta <= length,
                length == old(self).signal@.len(),
                self.gps_codes == old(self).gps_codes,
                self.matches(gps_id),
                self.signal@ == rotated(old(self).signal@, delta as nat),
                found@ == detections(
                    old(self).gps_codes[gps_id as int]@,
                    old(self).signal@,
                    gps_id,
                    delta as nat,
                ),
            decreases length - delta,
        {
            let bit = self.get_bit(gps_id);
            self.rotate_signal_right();
            if bit != -1 {
                found.push(Found { bit, gps_id, delta });
            }
            delta += 1;
            proof {
                lemma_rotated_len(old(self).signal@, delta as nat);
            }
        }
        proof {
            lemma_full_rotation(old(self).signal@);
        }
        found
    }
}

} // verus!
