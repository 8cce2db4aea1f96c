//! The pre-trigger ring buffer: the most recent frames, so that what was
//! spoken just before the wake word is not lost.

use std::collections::VecDeque;
use vstd::prelude::*;
use crate::frame::copy_frame;
use crate::utterance::frames_view;
use crate::window::lemma_push_is_fifo;
use crate::window::window_push;

verus! {

/// The number of whole frames of `frame_len` samples in one second of audio
/// at `sample_rate` samples per second.
pub open spec fn frames_in_a_second(sample_rate: nat, frame_len: nat) -> nat {
    sample_rate / frame_len
}

/// Holds the most recent frames, up to a fixed capacity, oldest first.
#[derive(Debug)]
pub struct RingBuffer {
    capacity: usize,
    frames: VecDeque<Vec<i16>>,
}

impl View for RingBuffer {
    type V = Seq<Seq<i16>>;

    closed spec fn view(&self) -> Seq<Seq<i16>> {
        frames_view(self.frames@)
    }
}

impl RingBuffer {
    /// The number of frames the buffer can hold.
    pub closed spec fn capacity(&self) -> nat {
        self.capacity as nat
    }

    /// The buffer's invariant: it never holds more than its capacity.
    pub closed spec fn wf(&self) -> bool {
        self.frames@.len() <= self.capacity
    }

    /// What a snapshot of this buffer holds: its frames, oldest first.
    pub open spec fn snapshot_of(&self, frames: Seq<Seq<i16>>) -> bool {
        frames == self@
    }

    /// The buffer never holds more than its capacity.
    pub proof fn lemma_within_capacity(&self)
        requires
            self.wf(),
        ensures
            self@.len() <= self.capacity(),
    {
    }

    /// Two snapshots of one buffer, with no push between them, hold the same
    /// frames.
    pub proof fn lemma_snapshot_stable(&self, first: Seq<Seq<i16>>, second: Seq<Seq<i16>>)
        requires
            self.snapshot_of(first),
            self.snapshot_of(second),
        ensures
            first == second,
    {
    }

    /// An empty buffer for `capacity` frames.
    pub fn new(capacity: usize) -> (ring: RingBuffer)
        ensures
            ring.wf(),
            ring.capacity() == capacity,
            ring@ == Seq::<Seq<i16>>::empty(),
    {
        let ring = RingBuffer { capacity, frames: VecDeque::new() };
        proof {
            assert(ring@ =~= Seq::<Seq<i16>>::empty());
        }
        ring
    }

    /// An empty buffer for one second of audio: as many frames of
    /// `frame_len` samples as fit wholly into `sample_rate` samples.
    pub fn one_second(sample_rate: u32, frame_len: usize) -> (ring: RingBuffer)
        requires
            frame_len > 0,
        ensures
            ring.wf(),
            ring.capacity() == frames_in_a_second(sample_rate as nat, frame_len as nat),
            ring@ == Seq::<Seq<i16>>::empty(),
    {
        RingBuffer::new(sample_rate as usize / frame_len)
    }

    /// The number of frames the buffer can hold.
    pub fn max_len(&self) -> (capacity: usize)
        ensures
            capacity == self.capacity(),
    {
        self.capacity
    }

    /// The number of frames in the buffer.
    pub fn len(&self) -> (len: usize)
        ensures
            len == self@.len(),
    {
        self.frames.len()
    }

    /// Appends `frame`; where the buffer would then be over capacity, the
    /// oldest frame leaves first.
    pub fn push(&mut self, frame: Vec<i16>)
        requires
            old(self).wf(),
        ensures
            final(self).wf(),
            final(self).capacity() == old(self).capacity(),
            final(self)@ == window_push(old(self)@, old(self).capacity(), frame@),
    {
        proof {
            lemma_push_is_fifo(self@, self.capacity as nat, frame@);
        }
        if self.capacity == 0 {
            proof {
                assert(self@ =~= Seq::<Seq<i16>>::empty());
            }
            return ;
        }
        let ghost before = self.frames@;
        if self.frames.len() >= self.capacity {
            self.frames.pop_front();
            proof {
                assert(frames_view(self.frames@) =~= frames_view(before).drop_first());
            }
        }
        let ghost kept = self.frames@;
        self.frames.push_back(frame);
        proof {
            assert(frames_view(self.frames@) =~= frames_view(kept).push(frame@));
        }
    }

    /// A copy of the frames in the buffer, oldest first. The buffer is not
    /// changed, and later pushes do not change the copy.
    pub fn snapshot(&self) -> (frames: Vec<Vec<i16>>)
        ensures
            self.snapshot_of(frames_view(frames@)),
    {
        let mut frames: Vec<Vec<i16>> = Vec::with_capacity(self.frames.len());
        let mut i: usize = 0;
        while i < self.frames.len()
            invariant
                i <= self.frames@.len(),
                frames_view(frames@) == self@.take(i as int),
            decreases self.frames.len() - i,
        {
            let frame = copy_frame(&self.frames[i]);
            let ghost before = frames@;
            frames.push(frame);
            proof {
                assert(frames_view(frames@) =~= frames_view(before).push(frame@));
                assert(self@.take(i + 1) =~= self@.take(i as int).push(self.frames@[i as int]@));
            }
            i = i + 1;
        }
        proof {
            assert(self@.take(i as int) =~= self@);
        }
        frames
    }
}

} // verus!
