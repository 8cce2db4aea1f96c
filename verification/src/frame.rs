//! Frames of signed 16-bit samples and their energy.

use vstd::prelude::*;
use crate::fraction::Fraction;
use crate::fraction::MAX_AMPLITUDE;

verus! {

/// Longest frame the arithmetic of this library accepts.
pub const MAX_FRAME_LEN: usize = 0xFFFF_FFFF;

/// The absolute value of one sample.
pub open spec fn amplitude(sample: i16) -> nat {
    if sample < 0 {
        (-(sample as int)) as nat
    } else {
        sample as nat
    }
}

/// The sum of the absolute values of all samples.
pub open spec fn energy(samples: Seq<i16>) -> nat
    decreases samples.len(),
{
    if samples.len() == 0 {
        0
    } else {
        energy(samples.drop_last()) + amplitude(samples.last())
    }
}

/// The mean absolute amplitude of a frame, `energy / length`. An empty frame
/// has none: its fraction is `0 / 0`, which is below nothing.
pub open spec fn mean_amplitude(samples: Seq<i16>) -> Fraction {
    Fraction { num: energy(samples), den: samples.len() }
}

/// No sample weighs more than [`MAX_AMPLITUDE`], so the energy of a frame is
/// at most that much per sample.
pub proof fn lemma_energy_bound(samples: Seq<i16>)
    ensures
        energy(samples) <= MAX_AMPLITUDE * samples.len(),
    decreases samples.len(),
{
    if samples.len() > 0 {
        lemma_energy_bound(samples.drop_last());
    }
}

/// The energy of `frame`: the sum of the absolute values of its samples.
pub fn frame_energy(frame: &Vec<i16>) -> (total: u64)
    requires
        frame.len() <= MAX_FRAME_LEN,
    ensures
        total == energy(frame@),
{
    let mut total: u64 = 0;
    let mut i: usize = 0;
    while i < frame.len()
        invariant
            i <= frame.len(),
            frame.len() <= MAX_FRAME_LEN,
            total == energy(frame@.take(i as int)),
            total <= MAX_AMPLITUDE * i,
        decreases frame.len() - i,
    {
        let sample: i16 = frame[i];
        let weight: u64 = if sample < 0 {
            (-(sample as i64)) as u64
        } else {
            sample as u64
        };
        proof {
            assert(frame@.take(i + 1).drop_last() =~= frame@.take(i as int));
            assert(frame@.take(i + 1).last() == sample);
            assert(weight == amplitude(sample));
        }
        total = total + weight;
        i = i + 1;
    }
    proof {
        assert(frame@.take(i as int) =~= frame@);
    }
    total
}

/// A copy of `frame`, sample for sample.
pub fn copy_frame(frame: &Vec<i16>) -> (copy: Vec<i16>)
    ensures
        copy@ == frame@,
{
    let mut copy: Vec<i16> = Vec::with_capacity(frame.len());
    let mut i: usize = 0;
    while i < frame.len()
        invariant
            i <= frame.len(),
            copy@ == frame@.take(i as int),
        decreases frame.len() - i,
    {
        copy.push(frame[i]);
        proof {
            assert(frame@.take(i + 1) =~= frame@.take(i as int).push(frame@[i as int]));
        }
        i = i + 1;
    }
    proof {
        assert(frame@.take(i as int) =~= frame@);
    }
    copy
}

} // verus!
