//! The listening pipeline: what happens to each frame from the microphone.
//!
//! While idle every frame feeds the noise floor and the pre-trigger buffer,
//! and the wake-word gate's verdict on it decides whether a capture starts.
//! While capturing every frame goes to the endpoint detector alone.

use vstd::prelude::*;
use crate::detector::EndpointDetector;
use crate::endpoint::endpoint_reached;
use crate::endpoint::silence_after;
use crate::endpoint::silence_limit;
use crate::endpoint::silence_threshold;
use crate::endpoint::Tunables;
use crate::frame::copy_frame;
use crate::frame::energy;
use crate::noise::background_level;
use crate::noise::NoiseFloor;
use crate::noise::MAX_HISTORY;
use crate::frame::MAX_FRAME_LEN;
use crate::ring::frames_in_a_second;
use crate::ring::RingBuffer;
use crate::utterance::Utterance;
use crate::window::window_push;

verus! {

/// Whether the wake-word gate's answer reports a keyword: an index that is
/// not negative.
pub open spec fn is_wake(keyword_index: i32) -> bool {
    keyword_index >= 0
}

/// Whether the wake-word gate's answer reports a keyword.
pub fn wake_detected(keyword_index: i32) -> (detected: bool)
    ensures
        detected == is_wake(keyword_index),
{
    keyword_index >= 0
}

/// The three stages that frames pass through.
#[derive(Debug)]
pub struct Pipeline {
    /// The noise-floor estimator.
    pub noise: NoiseFloor,
    /// The pre-trigger buffer.
    pub ring: RingBuffer,
    /// The endpoint detector.
    pub detector: EndpointDetector,
}

impl Pipeline {
    /// All three stages are well formed.
    pub open spec fn wf(&self) -> bool {
        self.noise.wf() && self.ring.wf() && self.detector.wf()
    }

    /// A pipeline for frames of `frame_len` samples at `sample_rate` samples
    /// per second: an empty noise history of `noise_capacity` frames, an
    /// empty pre-trigger buffer for one second of audio, an idle detector.
    /// `None` where no noise floor can be made of `noise_capacity` and
    /// `frame_len`.
    pub fn new(sample_rate: u32, frame_len: usize, noise_capacity: usize) -> (pipeline: Option<
        Pipeline,
    >)
        ensures
            pipeline is Some <==> 0 < noise_capacity <= MAX_HISTORY && 0 < frame_len
                <= MAX_FRAME_LEN,
            pipeline matches Some(p) ==> {
                &&& p.wf()
                &&& p.noise.capacity() == noise_capacity
                &&& p.noise.frame_len() == frame_len
                &&& p.noise.history() == Seq::<u64>::empty()
                &&& p.ring.capacity() == frames_in_a_second(sample_rate as nat, frame_len as nat)
                &&& p.ring@ == Seq::<Seq<i16>>::empty()
                &&& !p.detector.capturing()
                &&& p.detector.rate() == sample_rate
            },
    {
        match NoiseFloor::new(noise_capacity, frame_len) {
            None => None,
            Some(noise) => Some(
                Pipeline {
                    noise,
                    ring: RingBuffer::one_second(sample_rate, frame_len),
                    detector: EndpointDetector::new(sample_rate),
                },
            ),
        }
    }

    /// Takes one frame while idle, with the wake-word gate's answer for it.
    /// The frame feeds the noise floor and the pre-trigger buffer. Where the
    /// answer reports a keyword, a capture starts: its lead-in is the buffer
    /// as it then stands, this frame included, and its threshold comes from
    /// the background level as it then stands. Otherwise the detector stays
    /// as it was.
    pub fn hear(&mut self, frame: &Vec<i16>, keyword_index: i32, tunables: Tunables) -> (started:
        bool)
        requires
            old(self).wf(),
            !old(self).detector.capturing(),
            frame@.len() == old(self).noise.frame_len(),
            tunables.wf(),
        ensures
            final(self).wf(),
            started == is_wake(keyword_index),
            final(self).noise.capacity() == old(self).noise.capacity(),
            final(self).noise.frame_len() == old(self).noise.frame_len(),
            final(self).noise.history() == window_push(
                old(self).noise.history(),
                old(self).noise.capacity(),
                energy(frame@) as u64,
            ),
            final(self).ring.capacity() == old(self).ring.capacity(),
            final(self).ring@ == window_push(old(self).ring@, old(self).ring.capacity(), frame@),
            final(self).detector.rate() == old(self).detector.rate(),
            final(self).detector.capturing() == started,
            started ==> {
                &&& final(self).detector.silence() == 0
                &&& final(self).detector.collected() == final(self).ring@
                &&& final(self).detector.threshold() == silence_threshold(
                    background_level(final(self).noise.history(), old(self).noise.frame_len()),
                    tunables.modifier@,
                )
                &&& final(self).detector.limit() == silence_limit(
                    old(self).detector.rate(),
                    tunables.silence_duration@,
                )
            },
            !started ==> final(self).detector == old(self).detector,
    {
        let background = self.noise.observe(frame);
        self.ring.push(copy_frame(frame));
        if wake_detected(keyword_index) {
            let lead_in = self.ring.snapshot();
            self.detector.start(lead_in, background, tunables);
            true
        } else {
            false
        }
    }

    /// Takes one frame while capturing. The frame joins the utterance; where
    /// the endpoint is then reached the utterance is handed out and the
    /// pipeline is idle again. Noise floor and pre-trigger buffer stay as
    /// they were.
    pub fn record(&mut self, frame: Vec<i16>) -> (finished: Option<Utterance>)
        requires
            old(self).wf(),
            old(self).detector.capturing(),
            frame@.len() <= MAX_FRAME_LEN,
        ensures
            final(self).wf(),
            final(self).noise == old(self).noise,
            final(self).ring == old(self).ring,
            final(self).detector.rate() == old(self).detector.rate(),
            final(self).detector.threshold() == old(self).detector.threshold(),
            final(self).detector.limit() == old(self).detector.limit(),
            finished is Some <==> endpoint_reached(
                silence_after(
                    old(self).detector.silence(),
                    frame@,
                    old(self).detector.threshold(),
                ),
                old(self).detector.limit(),
            ),
            finished matches Some(utterance) ==> {
                &&& utterance@ == old(self).detector.collected().push(frame@)
                &&& !final(self).detector.capturing()
            },
            finished is None ==> {
                &&& final(self).detector.capturing()
                &&& final(self).detector.silence() == silence_after(
                    old(self).detector.silence(),
                    frame@,
                    old(self).detector.threshold(),
                )
                &&& final(self).detector.collected() == old(self).detector.collected().push(
                    frame@,
                )
            },
    {
        self.detector.accept(frame)
    }
}

} // verus!
