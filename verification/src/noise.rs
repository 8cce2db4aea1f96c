//! The noise-floor estimator: a moving average of recent frame energy.

use vstd::prelude::*;
use crate::fraction::Fraction;
use crate::fraction::Level;
use crate::fraction::MAX_AMPLITUDE;
use crate::frame::energy;
use crate::frame::frame_energy;
use crate::frame::lemma_energy_bound;
use crate::frame::MAX_FRAME_LEN;
use crate::window::lemma_push_is_fifo;
use crate::window::window_push;

verus! {

/// Largest number of frames a noise history can span.
pub const MAX_HISTORY: usize = 0xFFFF;

/// The sum of `energies`.
pub open spec fn energy_sum(energies: Seq<u64>) -> nat
    decreases energies.len(),
{
    if energies.len() == 0 {
        0
    } else {
        energy_sum(energies.drop_last()) + energies.last() as nat
    }
}

/// The mean level over a history of frame energies, each frame `frame_len`
/// samples long: the mean of the frames' mean absolute amplitudes.
pub open spec fn background_level(energies: Seq<u64>, frame_len: nat) -> Fraction {
    Fraction { num: energy_sum(energies), den: frame_len * energies.len() }
}

/// Keeps the energies of the most recent frames, up to a fixed capacity, and
/// reports their mean as the background noise level.
#[derive(Debug)]
pub struct NoiseFloor {
    capacity: usize,
    frame_len: usize,
    history: Vec<u64>,
}

impl NoiseFloor {
    /// The number of frames the history can hold.
    pub closed spec fn capacity(&self) -> nat {
        self.capacity as nat
    }

    /// The length that every observed frame has.
    pub closed spec fn frame_len(&self) -> nat {
        self.frame_len as nat
    }

    /// The energies of the frames in the history, oldest first.
    pub closed spec fn history(&self) -> Seq<u64> {
        self.history@
    }

    /// The estimator's invariant: the history is within its capacity, and
    /// each entry is the energy of some frame of the fixed length.
    pub closed spec fn wf(&self) -> bool {
        &&& 0 < self.capacity <= MAX_HISTORY
        &&& 0 < self.frame_len <= MAX_FRAME_LEN
        &&& self.history@.len() <= self.capacity
        &&& forall|i: int|
            0 <= i < self.history@.len() ==> #[trigger] self.history@[i] <= MAX_AMPLITUDE
                * self.frame_len
    }

    /// The history never holds more than its capacity.
    pub proof fn lemma_within_capacity(&self)
        requires
            self.wf(),
        ensures
            self.history().len() <= self.capacity(),
            0 < self.capacity() <= MAX_HISTORY,
            0 < self.frame_len() <= MAX_FRAME_LEN,
    {
    }

    /// An estimator with an empty history for frames of `frame_len` samples,
    /// or `None` where `capacity` is zero or above [`MAX_HISTORY`], or
    /// `frame_len` is zero or above [`MAX_FRAME_LEN`].
    pub fn new(capacity: usize, frame_len: usize) -> (floor: Option<NoiseFloor>)
        ensures
            floor is Some <==> 0 < capacity <= MAX_HISTORY && 0 < frame_len <= MAX_FRAME_LEN,
            floor matches Some(f) ==> {
                &&& f.wf()
                &&& f.capacity() == capacity
                &&& f.frame_len() == frame_len
                &&& f.history() == Seq::<u64>::empty()
            },
    {
        if capacity == 0 || capacity > MAX_HISTORY || frame_len == 0 || frame_len > MAX_FRAME_LEN {
            None
        } else {
            Some(NoiseFloor { capacity, frame_len, history: Vec::new() })
        }
    }

    /// The number of frames the history can hold.
    pub fn max_len(&self) -> (capacity: usize)
        ensures
            capacity == self.capacity(),
    {
        self.capacity
    }

    /// The length that every observed frame has.
    pub fn frame_length(&self) -> (len: usize)
        ensures
            len == self.frame_len(),
    {
        self.frame_len
    }

    /// The number of frames in the history.
    pub fn len(&self) -> (len: usize)
        ensures
            len == self.history().len(),
    {
        self.history.len()
    }

    /// Takes in one frame. Its energy joins the history, the oldest entry
    /// leaving first where the history is full; the result is the mean level
    /// over the history as it then stands.
    pub fn observe(&mut self, frame: &Vec<i16>) -> (background: Level)
        requires
            old(self).wf(),
            frame@.len() == old(self).frame_len(),
        ensures
            final(self).wf(),
            final(self).capacity() == old(self).capacity(),
            final(self).frame_len() == old(self).frame_len(),
            final(self).history() == window_push(
                old(self).history(),
                old(self).capacity(),
                energy(frame@) as u64,
            ),
            background.wf(),
            background@ == background_level(final(self).history(), old(self).frame_len()),
    {
        let sample: u64 = frame_energy(frame);
        proof {
            lemma_energy_bound(frame@);
            lemma_push_is_fifo(self.history@, self.capacity as nat, sample);
        }
        if self.history.len() >= self.capacity {
            let ghost full = self.history@;
            self.history.remove(0);
            proof {
                assert(self.history@ =~= full.drop_first());
            }
        }
        self.history.push(sample);
        self.level()
    }

    /// The mean level over the history as it stands.
    pub fn level(&self) -> (background: Level)
        requires
            self.wf(),
            self.history().len() > 0,
        ensures
            background.wf(),
            background@ == background_level(self.history(), self.frame_len()),
    {
        let bound: u64 = MAX_AMPLITUDE * (self.frame_len as u64);
        let mut sum: u64 = 0;
        let mut i: usize = 0;
        while i < self.history.len()
            invariant
                i <= self.history@.len(),
                self.wf(),
                bound == MAX_AMPLITUDE * self.frame_len,
                sum == energy_sum(self.history@.take(i as int)),
                sum <= bound * i,
            decreases self.history.len() - i,
        {
            proof {
                assert(self.history@.take(i + 1).drop_last() =~= self.history@.take(i as int));
                assert(self.history@.take(i + 1).last() == self.history@[i as int]);
                assert(bound * (i + 1) == bound * i + bound) by (nonlinear_arith);
                assert(bound * (i + 1) <= 0x8000 * 0xFFFF_FFFF * 0xFFFF) by (nonlinear_arith)
                    requires
                        bound <= 0x8000 * 0xFFFF_FFFF,
                        i + 1 <= 0xFFFF,
                ;
            }
            sum = sum + self.history[i];
            i = i + 1;
        }
        let count: u64 = self.history.len() as u64;
        proof {
            assert(self.history@.take(i as int) =~= self.history@);
            assert(self.frame_len * count <= 0xFFFF_FFFF * 0xFFFF) by (nonlinear_arith)
                requires
                    self.frame_len <= 0xFFFF_FFFF,
                    count <= 0xFFFF,
            ;
            assert(self.frame_len * count > 0) by (nonlinear_arith)
                requires
                    self.frame_len > 0,
                    count > 0,
            ;
            assert(bound * count == MAX_AMPLITUDE * (self.frame_len * count))
                by (nonlinear_arith)
                requires
                    bound == MAX_AMPLITUDE * self.frame_len,
            ;
        }
        let den: u64 = (self.frame_len as u64) * count;
        Level::new(sum, den).unwrap()
    }
}

} // verus!
