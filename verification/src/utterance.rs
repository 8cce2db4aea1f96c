//! The captured audio of one user turn.

use vstd::prelude::*;

verus! {

/// What a vector of frames holds: each frame as its sequence of samples.
pub open spec fn frames_view(frames: Seq<Vec<i16>>) -> Seq<Seq<i16>> {
    Seq::new(frames.len(), |i: int| frames[i]@)
}

/// All samples of `frames`, frame after frame.
pub open spec fn samples_of(frames: Seq<Seq<i16>>) -> Seq<i16>
    decreases frames.len(),
{
    if frames.len() == 0 {
        Seq::empty()
    } else {
        samples_of(frames.drop_last()) + frames.last()
    }
}

/// The number of samples in `frames`.
pub open spec fn sample_total(frames: Seq<Seq<i16>>) -> nat
    decreases frames.len(),
{
    if frames.len() == 0 {
        0
    } else {
        sample_total(frames.drop_last()) + frames.last().len()
    }
}

/// `samples_of` holds as many samples as `sample_total` counts.
pub proof fn lemma_samples_len(frames: Seq<Seq<i16>>)
    ensures
        samples_of(frames).len() == sample_total(frames),
    decreases frames.len(),
{
    if frames.len() > 0 {
        lemma_samples_len(frames.drop_last());
    }
}

/// Frames of one length `frame_len` hold `frames.len() * frame_len` samples.
pub proof fn lemma_uniform_total(frames: Seq<Seq<i16>>, frame_len: nat)
    requires
        forall|i: int| 0 <= i < frames.len() ==> (#[trigger] frames[i]).len() == frame_len,
    ensures
        sample_total(frames) == frames.len() * frame_len,
    decreases frames.len(),
{
    if frames.len() > 0 {
        let front = frames.drop_last();
        assert forall|i: int| 0 <= i < front.len() implies (#[trigger] front[i]).len()
            == frame_len by {
            assert(front[i] == frames[i]);
        }
        lemma_uniform_total(front, frame_len);
        assert(frames.len() * frame_len == front.len() * frame_len + frame_len)
            by (nonlinear_arith)
            requires
                frames.len() == front.len() + 1,
        ;
    } else {
        assert(frames.len() * frame_len == 0) by (nonlinear_arith)
            requires
                frames.len() == 0,
        ;
    }
}

/// The samples of `frames` are those of its first frame and those of the
/// rest.
pub proof fn lemma_total_front(frames: Seq<Seq<i16>>)
    requires
        frames.len() > 0,
    ensures
        sample_total(frames) == frames.first().len() + sample_total(frames.drop_first()),
    decreases frames.len(),
{
    if frames.len() == 1 {
        assert(frames.drop_last() =~= frames.drop_first());
        assert(sample_total(frames.drop_first()) == 0);
    } else {
        lemma_total_front(frames.drop_last());
        assert(frames.drop_last().drop_first() =~= frames.drop_first().drop_last());
        assert(frames.drop_last().first() == frames.first());
        assert(frames.drop_first().last() == frames.last());
    }
}

/// A finished recording: frames in the order in which they were heard. Once
/// made it cannot be changed.
#[derive(Debug)]
pub struct Utterance {
    frames: Vec<Vec<i16>>,
}

impl View for Utterance {
    type V = Seq<Seq<i16>>;

    closed spec fn view(&self) -> Seq<Seq<i16>> {
        frames_view(self.frames@)
    }
}

impl Utterance {
    /// The utterance that holds exactly `frames`, in their order.
    pub fn from_frames(frames: Vec<Vec<i16>>) -> (utterance: Utterance)
        ensures
            utterance@ == frames_view(frames@),
    {
        Utterance { frames }
    }

    /// The number of frames.
    pub fn frame_count(&self) -> (count: usize)
        ensures
            count == self@.len(),
    {
        self.frames.len()
    }

    /// The frame at `index`, counted from the oldest.
    pub fn frame(&self, index: usize) -> (frame: &Vec<i16>)
        requires
            index < self@.len(),
        ensures
            frame@ == self@[index as int],
    {
        &self.frames[index]
    }

    /// All samples of the utterance in order, frame after frame.
    pub fn samples(&self) -> (samples: Vec<i16>)
        ensures
            samples@ == samples_of(self@),
    {
        let mut samples: Vec<i16> = Vec::new();
        let mut i: usize = 0;
        while i < self.frames.len()
            invariant
                i <= self.frames.len(),
                samples@ == samples_of(self@.take(i as int)),
            decreases self.frames.len() - i,
        {
            let frame = &self.frames[i];
            let ghost before = samples@;
            let mut j: usize = 0;
            while j < frame.len()
                invariant
                    j <= frame.len(),
                    samples@ == before + frame@.take(j as int),
                decreases frame.len() - j,
            {
                samples.push(frame[j]);
                proof {
                    assert(frame@.take(j + 1) =~= frame@.take(j as int).push(frame@[j as int]));
                    assert(samples@ =~= before + frame@.take(j + 1));
                }
                j = j + 1;
            }
            proof {
                assert(frame@.take(j as int) =~= frame@);
                assert(self@.take(i + 1).drop_last() =~= self@.take(i as int));
                assert(self@.take(i + 1).last() == frame@);
            }
            i = i + 1;
        }
        proof {
            assert(self@.take(i as int) =~= self@);
        }
        samples
    }

    /// The frames themselves, handing the utterance over.
    pub fn into_frames(self) -> (frames: Vec<Vec<i16>>)
        ensures
            frames_view(frames@) == self@,
    {
        self.frames
    }
}

} // verus!
