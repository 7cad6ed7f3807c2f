//! Correlation of a code against a sample buffer, and what a score means.

use vstd::prelude::*;
use vstd::arithmetic::power2::{lemma2_to64, pow2};
use crate::params::{CODE_LENGTH, OVERSAMPLING, SAMPLE_BITS};

verus! {

/// The weight of a chip in the correlation sum: +1 for a chip of 1, -1 for
/// any other.
pub open spec fn chip_sign(chip: u16) -> int {
    if chip == 1 {
        1
    } else {
        -1
    }
}

/// The correlation sum over the first `n` positions.
pub open spec fn dot(code: Seq<u16>, signal: Seq<i32>, n: nat) -> int
    recommends
        n <= code.len(),
        n <= signal.len(),
    decreases n,
{
    if n == 0 {
        0
    } else {
        dot(code, signal, (n - 1) as nat) + chip_sign(code[n - 1]) * signal[n - 1]
    }
}

/// The correlation sum over every position of the code.
pub open spec fn correlation(code: Seq<u16>, signal: Seq<i32>) -> int
    recommends
        code.len() == signal.len(),
{
    dot(code, signal, code.len())
}

/// Integer division that rounds towards zero.
pub open spec fn div_toward_zero(x: int, d: int) -> int
    recommends
        d > 0,
{
    if x >= 0 {
        x / d
    } else {
        -((-x) / d)
    }
}

/// The correlation sum scaled down by the oversampling factor.
pub open spec fn score(code: Seq<u16>, signal: Seq<i32>) -> int {
    div_toward_zero(correlation(code, signal), OVERSAMPLING as int)
}

/// The least score that resolves to bit 1.
pub open spec fn high_threshold() -> int {
    pow2((SAMPLE_BITS / 2) as nat) - 1
}

/// The greatest score that resolves to bit 0.
pub open spec fn low_threshold() -> int {
    -pow2((SAMPLE_BITS / 2) as nat) - 1
}

/// The classification of a score: 1 or 0 for a resolved bit, -1 for
/// undetermined.
pub open spec fn classify(score: int) -> i16 {
    if score >= high_threshold() {
        1i16
    } else if score <= low_threshold() {
        0i16
    } else {
        -1i16
    }
}

/// The buffer after one rotation: the last sample moves to the front.
pub open spec fn rotate_right(signal: Seq<i32>) -> Seq<i32>
    recommends
        signal.len() > 0,
{
    seq![signal.last()] + signal.drop_last()
}

/// The buffer after `phase` rotations.
pub open spec fn rotated(signal: Seq<i32>, phase: nat) -> Seq<i32>
    decreases phase,
{
    if phase == 0 {
        signal
    } else {
        rotate_right(rotated(signal, (phase - 1) as nat))
    }
}

/// A noise-free buffer that carries `data_bit` on `code` with amplitude
/// `amplitude`: a sample is `+amplitude` where the chip agrees with the data
/// bit and `-amplitude` where it does not.
pub open spec fn modulated(code: Seq<u16>, amplitude: i32, data_bit: bool) -> Seq<i32> {
    Seq::new(
        code.len(),
        |i: int|
            if (code[i] == 1) == data_bit {
                amplitude
            } else {
                (-amplitude) as i32
            },
    )
}

/// The two thresholds as numbers.
pub proof fn lemma_threshold_values()
    ensures
        high_threshold() == 63,
        low_threshold() == -65,
{
    lemma2_to64();
}

/// Both thresholds are inclusive, and every score strictly between them is
/// undetermined.
pub proof fn lemma_classify_boundaries(score: int)
    ensures
        classify(score) == 1 <==> score >= high_threshold(),
        classify(score) == 0 <==> score <= low_threshold(),
        classify(score) == -1 <==> low_threshold() < score < high_threshold(),
        classify(high_threshold()) == 1,
        classify(low_threshold()) == 0,
{
    lemma_threshold_values();
}

/// The correlation sum over `n` positions is bounded by `n` samples of the
/// largest magnitude.
pub proof fn lemma_dot_bounds(code: Seq<u16>, signal: Seq<i32>, n: nat)
    requires
        n <= code.len(),
        n <= signal.len(),
    ensures
        -0x8000_0000 * n <= dot(code, signal, n) <= 0x8000_0000 * n,
    decreases n,
{
    if n > 0 {
        lemma_dot_bounds(code, signal, (n - 1) as nat);
    }
}

/// Rotating keeps the length.
pub proof fn lemma_rotated_len(signal: Seq<i32>, phase: nat)
    requires
        signal.len() > 0,
    ensures
        rotated(signal, phase).len() == signal.len(),
    decreases phase,
{
    if phase > 0 {
        lemma_rotated_len(signal, (phase - 1) as nat);
    }
}

/// Where each sample stands after `phase` rotations: position `i` holds the
/// sample that stood `phase` places before it, counted circularly.
pub proof fn lemma_rotated_index(signal: Seq<i32>, phase: nat, i: int)
    requires
        phase <= signal.len(),
        0 <= i < signal.len(),
    ensures
        rotated(signal, phase).len() == signal.len(),
        rotated(signal, phase)[i] == signal[(i - phase + signal.len()) % (signal.len() as int)],
    decreases phase,
{
    let len = signal.len() as int;
    lemma_rotated_len(signal, phase);
    if phase == 0 {
        assert((i + len) % len == i) by (nonlinear_arith)
            requires
                0 <= i < len,
        ;
    } else {
        let before = rotated(signal, (phase - 1) as nat);
        lemma_rotated_len(signal, (phase - 1) as nat);
        if i == 0 {
            lemma_rotated_index(signal, (phase - 1) as nat, len - 1);
            assert((len - 1 - (phase - 1) + len) % len == (0 - phase + len) % len) by (nonlinear_arith)
                requires
                    1 <= phase <= len,
            ;
        } else {
            lemma_rotated_index(signal, (phase - 1) as nat, i - 1);
        }
    }
}

/// After as many rotations as the buffer has samples, the buffer is what it
/// was at the start.
pub proof fn lemma_full_rotation(signal: Seq<i32>)
    ensures
        rotated(signal, signal.len()) == signal,
{
    let len = signal.len() as int;
    if len > 0 {
        assert forall|i: int| 0 <= i < len implies rotated(signal, signal.len())[i] == signal[i] by {
            lemma_rotated_index(signal, signal.len(), i);
            assert((i - len + len) % len == i) by (nonlinear_arith)
                requires
                    0 <= i < len,
            ;
        }
        lemma_rotated_len(signal, signal.len());
        assert(rotated(signal, signal.len()) =~= signal);
    }
}

/// Correlating a code against a noise-free buffer that carries a data bit on
/// that code sums the amplitude once per chip, with the sign of the data bit.
pub proof fn lemma_modulated_dot(code: Seq<u16>, amplitude: i32, data_bit: bool, n: nat)
    requires
        n <= code.len(),
        amplitude > i32::MIN,
    ensures
        dot(code, modulated(code, amplitude, data_bit), n) == if data_bit {
            n * amplitude
        } else {
            -(n * amplitude)
        },
    decreases n,
{
    if n > 0 {
        lemma_modulated_dot(code, amplitude, data_bit, (n - 1) as nat);
        let signal = modulated(code, amplitude, data_bit);
        let a = amplitude as int;
        assert(chip_sign(code[n - 1]) * signal[n - 1] == if data_bit {
            a
        } else {
            -a
        });
        assert(n * a == (n - 1) * a + a) by (nonlinear_arith);
    }
}

/// A noise-free buffer, tested at phase 0 against the code it carries,
/// correlates to the summed amplitude with the sign of its data bit. It
/// resolves to that data bit exactly when the summed amplitude, scaled down,
/// reaches the threshold on that side; over one code period every amplitude
/// of at least 1 does. A full cycle of rotations brings the buffer, and so
/// the classification, back to where it began.
pub proof fn lemma_round_trip(code: Seq<u16>, amplitude: i32, data_bit: bool)
    requires
        amplitude >= 0,
    ensures
        correlation(code, modulated(code, amplitude, data_bit)) == if data_bit {
            code.len() * amplitude
        } else {
            -(code.len() * amplitude)
        },
        data_bit ==> (classify(score(code, modulated(code, amplitude, data_bit))) == 1
            <==> code.len() * amplitude >= OVERSAMPLING * high_threshold()),
        !data_bit ==> (classify(score(code, modulated(code, amplitude, data_bit))) == 0
            <==> code.len() * amplitude >= -(OVERSAMPLING * low_threshold())),
        code.len() == CODE_LENGTH && amplitude >= 1 ==> classify(
            score(code, modulated(code, amplitude, data_bit)),
        ) == if data_bit {
            1i16
        } else {
            0i16
        },
        rotated(modulated(code, amplitude, data_bit), code.len()) == modulated(
            code,
            amplitude,
            data_bit,
        ),
{
    lemma_modulated_dot(code, amplitude, data_bit, code.len());
    lemma_threshold_values();
    lemma_full_rotation(modulated(code, amplitude, data_bit));
    assert(code.len() * amplitude >= 0) by (nonlinear_arith)
        requires
            amplitude >= 0,
    ;
    if code.len() == CODE_LENGTH && amplitude >= 1 {
        assert(code.len() * amplitude >= 1023) by (nonlinear_arith)
            requires
                code.len() == 1023,
                amplitude >= 1,
        ;
    }
}

} // verus!
