//! The capture state machine: `Idle` until a wake word starts a capture,
//! `Capturing` until the endpoint is reached.

use vstd::prelude::*;
use crate::endpoint::below_threshold;
use crate::endpoint::endpoint_reached;
use crate::endpoint::is_silent;
use crate::endpoint::limit_exceeded;
use crate::endpoint::silence_after;
use crate::endpoint::silence_limit;
use crate::endpoint::silence_threshold;
use crate::endpoint::Tunables;
use crate::fraction::Fraction;
use crate::fraction::Level;
use crate::frame::MAX_FRAME_LEN;
use crate::utterance::frames_view;
use crate::utterance::Utterance;

verus! {

/// The two states of the detector.
#[derive(Clone, Copy, Debug, PartialEq, Eq, Structural)]
pub enum Phase {
    /// No utterance is being recorded.
    Idle,
    /// Frames are being collected into an utterance.
    Capturing,
}

/// Collects the frames of one utterance at a time and decides when it ends.
#[derive(Debug)]
pub struct EndpointDetector {
    sample_rate: u32,
    phase: Phase,
    background: Level,
    tunables: Tunables,
    silence: u64,
    frames: Vec<Vec<i16>>,
}

impl EndpointDetector {
    /// Samples per second of the audio.
    pub closed spec fn rate(&self) -> nat {
        self.sample_rate as nat
    }

    /// Whether an utterance is being recorded.
    pub closed spec fn capturing(&self) -> bool {
        self.phase == Phase::Capturing
    }

    /// The silent samples counted since the last frame that was not silent.
    pub closed spec fn silence(&self) -> nat {
        self.silence as nat
    }

    /// The frames collected so far, oldest first.
    pub closed spec fn collected(&self) -> Seq<Seq<i16>> {
        frames_view(self.frames@)
    }

    /// The silence threshold of the capture that was started last.
    pub closed spec fn threshold(&self) -> Fraction {
        silence_threshold(self.background@, self.tunables.modifier@)
    }

    /// The silence limit of the capture that was started last.
    pub closed spec fn limit(&self) -> Fraction {
        silence_limit(self.sample_rate as nat, self.tunables.silence_duration@)
    }

    /// The detector's invariant. While idle it holds no frame and counts no
    /// silence; while capturing the count has not passed the limit.
    pub closed spec fn wf(&self) -> bool {
        &&& self.background.wf()
        &&& self.tunables.wf()
        &&& match self.phase {
            Phase::Idle => self.frames@.len() == 0 && self.silence == 0,
            Phase::Capturing => !endpoint_reached(self.silence as nat, self.limit()),
        }
    }

    /// While idle the detector holds nothing.
    pub proof fn lemma_idle_is_empty(&self)
        requires
            self.wf(),
            !self.capturing(),
        ensures
            self.collected() == Seq::<Seq<i16>>::empty(),
            self.silence() == 0,
    {
        assert(self.collected() =~= Seq::<Seq<i16>>::empty());
    }

    /// While capturing the silence count is not above the limit.
    pub proof fn lemma_capturing_below_limit(&self)
        requires
            self.wf(),
            self.capturing(),
        ensures
            !endpoint_reached(self.silence(), self.limit()),
    {
    }

    /// An idle detector for audio of `sample_rate` samples per second.
    pub fn new(sample_rate: u32) -> (detector: EndpointDetector)
        ensures
            detector.wf(),
            !detector.capturing(),
            detector.rate() == sample_rate,
    {
        EndpointDetector {
            sample_rate,
            phase: Phase::Idle,
            background: Level::new(0, 1).unwrap(),
            tunables: Tunables::default(),
            silence: 0,
            frames: Vec::new(),
        }
    }

    /// The state the detector is in.
    pub fn phase(&self) -> (phase: Phase)
        ensures
            (phase == Phase::Capturing) == self.capturing(),
    {
        self.phase
    }

    /// Samples per second of the audio.
    pub fn sample_rate(&self) -> (rate: u32)
        ensures
            rate == self.rate(),
    {
        self.sample_rate
    }

    /// The silent samples counted since the last frame that was not silent.
    pub fn silence_counter(&self) -> (count: u64)
        ensures
            count == self.silence(),
    {
        self.silence
    }

    /// The number of frames collected so far.
    pub fn frame_count(&self) -> (count: usize)
        ensures
            count == self.collected().len(),
    {
        self.frames.len()
    }

    /// Starts a capture: `Idle` to `Capturing`. The utterance begins as
    /// `lead_in`, the silence count at zero; threshold and limit are fixed
    /// from `background` and `tunables` until the capture ends.
    pub fn start(&mut self, lead_in: Vec<Vec<i16>>, background: Level, tunables: Tunables)
        requires
            old(self).wf(),
            !old(self).capturing(),
            background.wf(),
            tunables.wf(),
        ensures
            final(self).wf(),
            final(self).capturing(),
            final(self).rate() == old(self).rate(),
            final(self).silence() == 0,
            final(self).collected() == frames_view(lead_in@),
            final(self).threshold() == silence_threshold(background@, tunables.modifier@),
            final(self).limit() == silence_limit(old(self).rate(), tunables.silence_duration@),
    {
        self.phase = Phase::Capturing;
        self.background = background;
        self.tunables = tunables;
        self.silence = 0;
        self.frames = lead_in;
        proof {
            let limit = silence_limit(self.sample_rate as nat, tunables.silence_duration@);
            assert(0 * limit.den == 0) by (nonlinear_arith);
        }
    }

    /// Takes one frame while capturing. The frame joins the utterance
    /// whether silent or not. Where the silence count then is above the
    /// limit, the utterance is handed out and the detector is idle again;
    /// otherwise the capture goes on. An empty frame is not silent.
    pub fn accept(&mut self, frame: Vec<i16>) -> (finished: Option<Utterance>)
        requires
            old(self).wf(),
            old(self).capturing(),
            frame@.len() <= MAX_FRAME_LEN,
        ensures
            final(self).wf(),
            final(self).rate() == old(self).rate(),
            final(self).threshold() == old(self).threshold(),
            final(self).limit() == old(self).limit(),
            finished is Some <==> endpoint_reached(
                silence_after(old(self).silence(), frame@, old(self).threshold()),
                old(self).limit(),
            ),
            finished matches Some(utterance) ==> {
                &&& utterance@ == old(self).collected().push(frame@)
                &&& !final(self).capturing()
                &&& final(self).silence() == 0
                &&& final(self).collected() == Seq::<Seq<i16>>::empty()
            },
            finished is None ==> {
                &&& final(self).capturing()
                &&& final(self).silence() == silence_after(
                    old(self).silence(),
                    frame@,
                    old(self).threshold(),
                )
                &&& final(self).collected() == old(self).collected().push(frame@)
            },
            !is_silent(frame@, old(self).threshold()) ==> {
                &&& finished is None
                &&& final(self).silence() == 0
            },
    {
        let silent = below_threshold(&frame, self.background, self.tunables.modifier);
        proof {
            self.lemma_counter_bound();
            let limit = self.limit();
            assert(0 * limit.den == 0) by (nonlinear_arith);
        }
        let silence: u64 = if silent {
            self.silence + frame.len() as u64
        } else {
            0
        };
        let ghost before = self.frames@;
        self.frames.push(frame);
        proof {
            assert(frames_view(self.frames@) =~= frames_view(before).push(frame@));
        }
        if limit_exceeded(silence, self.sample_rate, self.tunables.silence_duration) {
            let mut done: Vec<Vec<i16>> = Vec::new();
            core::mem::swap(&mut done, &mut self.frames);
            self.silence = 0;
            self.phase = Phase::Idle;
            proof {
                assert(frames_view(self.frames@) =~= Seq::<Seq<i16>>::empty());
            }
            Some(Utterance::from_frames(done))
        } else {
            self.silence = silence;
            None
        }
    }

    /// While capturing, the count has room for one more frame.
    proof fn lemma_counter_bound(&self)
        requires
            self.wf(),
            self.capturing(),
        ensures
            self.silence <= 0xFFFF_FFFF * 0xFFFF_FFFF,
    {
        let limit = self.limit();
        let d = self.tunables.silence_duration@;
        assert(limit.num == self.sample_rate as nat * d.num);
        assert(limit.den == d.den) by (nonlinear_arith)
            requires
                limit.den == 1 * d.den,
        ;
        assert(self.silence as nat * limit.den <= limit.num * 1);
        assert(self.silence as nat <= self.sample_rate as nat * d.num) by (nonlinear_arith)
            requires
                self.silence as nat * limit.den <= limit.num * 1,
                limit.num == self.sample_rate as nat * d.num,
                limit.den >= 1,
        ;
        assert(self.sample_rate as nat * d.num <= 0xFFFF_FFFF * 0xFFFF_FFFF) by (nonlinear_arith)
            requires
                self.sample_rate <= 0xFFFF_FFFF,
                d.num <= 0xFFFF_FFFF,
        ;
    }
}

} // verus!
