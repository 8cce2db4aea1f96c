//! Endpoint detection: deciding from sustained quiet that an utterance is over.
//!
//! A frame is silent where its mean absolute amplitude is below the
//! background level times a modifier. Silence is counted in samples; a frame
//! that is not silent sets the count back to zero. The utterance ends once
//! the count is above the sample rate times the silence duration.

use vstd::prelude::*;
use crate::fraction::Fraction;
use crate::fraction::Level;
use crate::fraction::Ratio;
use crate::fraction::MAX_AMPLITUDE;
use crate::fraction::MAX_LEVEL_DEN;
use crate::frame::frame_energy;
use crate::frame::lemma_energy_bound;
use crate::frame::mean_amplitude;
use crate::frame::MAX_FRAME_LEN;
use crate::utterance::lemma_total_front;
use crate::utterance::sample_total;

verus! {

/// The level below which a frame counts as silence: `background * modifier`.
pub open spec fn silence_threshold(background: Fraction, modifier: Fraction) -> Fraction {
    background.times(modifier)
}

/// The number of silent samples that must be passed: `sample_rate * duration`,
/// with the duration in seconds.
pub open spec fn silence_limit(sample_rate: nat, duration: Fraction) -> Fraction {
    Fraction::whole(sample_rate).times(duration)
}

/// Whether `frame` is silence under `threshold`: its mean absolute amplitude
/// is strictly below it.
pub open spec fn is_silent(frame: Seq<i16>, threshold: Fraction) -> bool {
    mean_amplitude(frame).lt(threshold)
}

/// The silence count after `frame`: a silent frame adds its samples, any
/// other frame sets the count to zero.
pub open spec fn silence_after(silence: nat, frame: Seq<i16>, threshold: Fraction) -> nat {
    if is_silent(frame, threshold) {
        silence + frame.len()
    } else {
        0
    }
}

/// Whether `silence` samples of quiet end the utterance: the count is
/// strictly above `limit`.
pub open spec fn endpoint_reached(silence: nat, limit: Fraction) -> bool {
    limit.lt(Fraction::whole(silence))
}

/// Whether the endpoint is reached at one of `frames`, fed in order to a
/// detector whose silence count stands at `silence`.
pub open spec fn fires_within(
    silence: nat,
    frames: Seq<Seq<i16>>,
    threshold: Fraction,
    limit: Fraction,
) -> bool
    decreases frames.len(),
{
    if frames.len() == 0 {
        false
    } else {
        let next = silence_after(silence, frames.first(), threshold);
        endpoint_reached(next, limit) || fires_within(
            next,
            frames.drop_first(),
            threshold,
            limit,
        )
    }
}

/// The two tunables of endpoint detection.
#[derive(Clone, Copy, Debug)]
pub struct Tunables {
    /// Factor applied to the background level to get the silence threshold.
    pub modifier: Ratio,
    /// Seconds of silence that end an utterance.
    pub silence_duration: Ratio,
}

impl Tunables {
    /// Both fractions are well formed.
    pub open spec fn wf(&self) -> bool {
        self.modifier.wf() && self.silence_duration.wf()
    }
}

impl Default for Tunables {
    /// A modifier of 1.2 and one second of silence.
    fn default() -> (tunables: Tunables)
        ensures
            tunables.wf(),
            tunables.modifier@ == (Fraction { num: 12, den: 10 }),
            tunables.silence_duration@ == (Fraction { num: 1, den: 1 }),
    {
        Tunables {
            modifier: Ratio::new(12, 10).unwrap(),
            silence_duration: Ratio::new(1, 1).unwrap(),
        }
    }
}

/// Whether `frame` is silence against `background * modifier`.
pub fn below_threshold(frame: &Vec<i16>, background: Level, modifier: Ratio) -> (silent: bool)
    requires
        frame.len() <= MAX_FRAME_LEN,
        background.wf(),
        modifier.wf(),
    ensures
        silent == is_silent(frame@, silence_threshold(background@, modifier@)),
{
    let total: u128 = frame_energy(frame) as u128;
    let len: u128 = frame.len() as u128;
    let b_num: u128 = background.numerator() as u128;
    let b_den: u128 = background.denominator() as u128;
    let m_num: u128 = modifier.numerator() as u128;
    let m_den: u128 = modifier.denominator() as u128;
    proof {
        lemma_energy_bound(frame@);
        assert(total <= MAX_AMPLITUDE * 0xFFFF_FFFF) by (nonlinear_arith)
            requires
                total <= MAX_AMPLITUDE * len,
                len <= 0xFFFF_FFFF,
        ;
        assert(b_num <= MAX_AMPLITUDE * MAX_LEVEL_DEN) by (nonlinear_arith)
            requires
                b_num <= MAX_AMPLITUDE * b_den,
                b_den <= MAX_LEVEL_DEN,
        ;
        lemma_product_bound(
            b_den as nat,
            m_den as nat,
            total as nat,
            MAX_LEVEL_DEN as nat,
            0xFFFF_FFFF,
            (MAX_AMPLITUDE * 0xFFFF_FFFF) as nat,
        );
        lemma_product_bound(
            b_num as nat,
            m_num as nat,
            len as nat,
            (MAX_AMPLITUDE * MAX_LEVEL_DEN) as nat,
            0xFFFF_FFFF,
            0xFFFF_FFFF,
        );
    }
    let den: u128 = b_den * m_den;
    let num: u128 = b_num * m_num;
    let left: u128 = total * den;
    let right: u128 = num * len;
    left < right
}

/// Whether `silence` samples of quiet are strictly more than
/// `sample_rate * duration`.
pub fn limit_exceeded(silence: u64, sample_rate: u32, duration: Ratio) -> (reached: bool)
    requires
        duration.wf(),
    ensures
        reached == endpoint_reached(silence as nat, silence_limit(sample_rate as nat, duration@)),
{
    let d_num: u128 = duration.numerator() as u128;
    let d_den: u128 = duration.denominator() as u128;
    let rate: u128 = sample_rate as u128;
    let count: u128 = silence as u128;
    proof {
        lemma_product_bound(rate as nat, d_num as nat, 1, 0xFFFF_FFFF, 0xFFFF_FFFF, 1);
        lemma_product_bound(
            count as nat,
            d_den as nat,
            1,
            0xFFFF_FFFF_FFFF_FFFF,
            0xFFFF_FFFF,
            1,
        );
    }
    let limit: u128 = rate * d_num;
    let scaled: u128 = count * d_den;
    proof {
        let l = silence_limit(sample_rate as nat, duration@);
        assert(l.num == limit);
        assert(l.den == d_den) by (nonlinear_arith)
            requires
                l.den == 1 * duration@.den,
                duration@.den == d_den,
        ;
        assert(l.num * 1 == limit) by (nonlinear_arith)
            requires
                l.num == limit,
        ;
    }
    limit < scaled
}

/// Products of bounded factors are bounded by the product of the bounds.
pub proof fn lemma_product_bound(a: nat, b: nat, c: nat, max_a: nat, max_b: nat, max_c: nat)
    requires
        a <= max_a,
        b <= max_b,
        c <= max_c,
    ensures
        a * b <= max_a * max_b,
        a * b * c <= max_a * max_b * max_c,
{
    assert(a * b <= max_a * max_b) by (nonlinear_arith)
        requires
            a <= max_a,
            b <= max_b,
    ;
    assert((a * b) * c <= (max_a * max_b) * max_c) by (nonlinear_arith)
        requires
            a * b <= max_a * max_b,
            c <= max_c,
    ;
}

/// More silence never takes the endpoint back.
pub proof fn lemma_endpoint_monotonic(less: nat, more: nat, limit: Fraction)
    requires
        less <= more,
        endpoint_reached(less, limit),
    ensures
        endpoint_reached(more, limit),
{
    assert(less * limit.den <= more * limit.den) by (nonlinear_arith)
        requires
            less <= more,
    ;
}

/// Silent frames, fed to a detector whose count stands at `silence` and has
/// not reached the endpoint, reach it exactly where the count plus all their
/// samples is above the limit.
pub proof fn lemma_silent_run(
    silence: nat,
    frames: Seq<Seq<i16>>,
    threshold: Fraction,
    limit: Fraction,
)
    requires
        !endpoint_reached(silence, limit),
        forall|i: int| 0 <= i < frames.len() ==> is_silent(#[trigger] frames[i], threshold),
    ensures
        fires_within(silence, frames, threshold, limit) <==> endpoint_reached(
            silence + sample_total(frames),
            limit,
        ),
    decreases frames.len(),
{
    if frames.len() == 0 {
        assert(sample_total(frames) == 0);
    } else {
        let rest = frames.drop_first();
        let next = silence_after(silence, frames.first(), threshold);
        lemma_total_front(frames);
        assert(is_silent(frames[0], threshold));
        assert(next == silence + frames.first().len());
        assert(next + sample_total(rest) == silence + sample_total(frames));
        if endpoint_reached(next, limit) {
            lemma_endpoint_monotonic(next, silence + sample_total(frames), limit);
        } else {
            assert forall|i: int| 0 <= i < rest.len() implies is_silent(
                #[trigger] rest[i],
                threshold,
            ) by {
                assert(rest[i] == frames[i + 1]);
            }
            lemma_silent_run(next, rest, threshold, limit);
        }
    }
}

/// A run of frames that are all below the threshold, fed to a capture that
/// has counted no silence yet, ends the utterance if and only if their total
/// sample count is above the sample rate times the silence duration.
pub proof fn lemma_silence_ends_capture(
    frames: Seq<Seq<i16>>,
    background: Fraction,
    modifier: Fraction,
    sample_rate: nat,
    duration: Fraction,
)
    requires
        forall|i: int|
            0 <= i < frames.len() ==> is_silent(
                #[trigger] frames[i],
                silence_threshold(background, modifier),
            ),
    ensures
        fires_within(
            0,
            frames,
            silence_threshold(background, modifier),
            silence_limit(sample_rate, duration),
        ) <==> endpoint_reached(sample_total(frames), silence_limit(sample_rate, duration)),
{
    let limit = silence_limit(sample_rate, duration);
    assert(0 * limit.den == 0) by (nonlinear_arith);
    lemma_silent_run(0, frames, silence_threshold(background, modifier), limit);
}

/// A frame whose mean absolute amplitude is at or above the threshold sets
/// the silence count to zero, whatever had been counted, and zero silence
/// never ends an utterance.
pub proof fn lemma_loud_frame_resets(
    silence: nat,
    frame: Seq<i16>,
    threshold: Fraction,
    limit: Fraction,
)
    requires
        !mean_amplitude(frame).lt(threshold),
    ensures
        silence_after(silence, frame, threshold) == 0,
        !endpoint_reached(silence_after(silence, frame, threshold), limit),
{
    assert(0 * limit.den == 0) by (nonlinear_arith);
}

} // verus!
