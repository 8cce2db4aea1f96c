//! The audio segment encoder: an utterance as a PCM container.

use vstd::prelude::*;
use crate::container::decoded_count;
use crate::container::decoded_samples;
use crate::container::lemma_container_round_trip;
use crate::container::wav_container;
use crate::utterance::lemma_samples_len;
use crate::utterance::lemma_uniform_total;
use crate::utterance::sample_total;
use crate::utterance::samples_of;
use crate::utterance::Utterance;

verus! {

/// Channels of the container: one.
pub const CHANNELS: u16 = 1;

/// Bits per sample of the container.
pub const BITS_PER_SAMPLE: u16 = 16;

/// Highest sample rate a container can declare: its bytes per second, twice
/// the rate, must fit in 32 bits.
pub const MAX_SAMPLE_RATE: u32 = 0x7FFF_FFFF;

/// Most samples a container can hold: the size of what follows its first
/// eight bytes, 36 plus two bytes for each sample, must fit in 32 bits.
pub const MAX_SAMPLES: usize = 0x7FFF_FFED;

/// Why an utterance could not be encoded.
#[derive(Clone, Copy, Debug, PartialEq, Eq, Structural)]
pub enum EncodingError {
    /// The sample rate is zero or above [`MAX_SAMPLE_RATE`].
    InvalidSampleRate,
    /// The utterance holds more than [`MAX_SAMPLES`] samples.
    TooLong,
    /// The sink that takes the container could not be made or written.
    /// Encoding into memory does not meet this; it is what a failure of the
    /// writer is reported as.
    Sink,
}

/// The error type of the `hound` crate.
#[verifier::external_type_specification]
#[verifier::external_body]
pub struct ExHoundError(hound::Error);

/// Whether a container can declare `sample_rate`.
pub open spec fn rate_fits(sample_rate: u32) -> bool {
    0 < sample_rate <= MAX_SAMPLE_RATE
}

/// Writes `samples` with `hound::WavWriter` into memory: `WavWriter::new` on
/// a cursor over an empty vector, `write_sample` for each sample in order,
/// then `finalize`.
///
/// Two things are claimed. The calls succeed: within the bounds below the
/// writer has no error of its own to report (the bit depth is one it
/// supports, a 16-bit sample always fits, and with one channel no sample is
/// left unfinished), and its sink is a vector in memory, which grows as
/// needed and can be sought back into. And what the cursor then holds is
/// the 44-byte header for integer PCM with one channel and 16 bits per
/// sample, its two size fields filled in, followed by each sample as two
/// bytes, least significant first.
///
/// The bounds keep away the inputs on which the writer's own arithmetic
/// would divide by zero or overflow.
#[verifier::external_body]
fn write_wav(samples: &Vec<i16>, channels: u16, sample_rate: u32, bits_per_sample: u16) -> (written:
    Result<Vec<u8>, hound::Error>)
    requires
        channels == CHANNELS,
        bits_per_sample == BITS_PER_SAMPLE,
        rate_fits(sample_rate),
        samples@.len() <= MAX_SAMPLES,
    ensures
        written is Ok,
        written matches Ok(bytes) ==> bytes@ == wav_container(samples@, sample_rate as nat),
{
    let sample_format = hound::SampleFormat::Int;
    let spec = hound::WavSpec { channels, sample_rate, bits_per_sample, sample_format };
    let mut sink = std::io::Cursor::new(Vec::new());
    let mut writer = hound::WavWriter::new(&mut sink, spec)?;
    for sample in samples.iter() {
        writer.write_sample(*sample)?;
    }
    writer.finalize()?;
    Ok(sink.into_inner())
}

/// What the encoder returns for an outcome of the writer: the bytes where it
/// succeeded, [`EncodingError::Sink`] where it failed.
pub fn encoded(written: Result<Vec<u8>, hound::Error>) -> (result: Result<Vec<u8>, EncodingError>)
    ensures
        written matches Ok(bytes) ==> result == Ok::<Vec<u8>, EncodingError>(bytes),
        written is Err ==> result == Err::<Vec<u8>, EncodingError>(EncodingError::Sink),
{
    match written {
        Ok(bytes) => Ok(bytes),
        Err(_) => Err(EncodingError::Sink),
    }
}

/// What stands in the way of a container of `sample_count` samples at
/// `sample_rate`: the rate is looked at first, then the size.
pub open spec fn refusal(sample_rate: u32, sample_count: nat) -> Option<EncodingError> {
    if !rate_fits(sample_rate) {
        Some(EncodingError::InvalidSampleRate)
    } else if sample_count > MAX_SAMPLES {
        Some(EncodingError::TooLong)
    } else {
        None
    }
}

/// Decides whether a container can hold `sample_count` samples at
/// `sample_rate`, and says why not where it cannot.
pub fn check_fit(sample_rate: u32, sample_count: usize) -> (verdict: Result<(), EncodingError>)
    ensures
        verdict is Ok <==> refusal(sample_rate, sample_count as nat) is None,
        verdict matches Err(error) ==> refusal(sample_rate, sample_count as nat) == Some(error),
{
    if sample_rate == 0 || sample_rate > MAX_SAMPLE_RATE {
        Err(EncodingError::InvalidSampleRate)
    } else if sample_count > MAX_SAMPLES {
        Err(EncodingError::TooLong)
    } else {
        Ok(())
    }
}

/// Encodes `utterance` as a single-channel 16-bit PCM container at
/// `sample_rate`: the samples in utterance order, nothing added, dropped or
/// changed.
///
/// A sample rate that no container can declare is refused, then an utterance
/// that no container can hold. Every other input is encoded.
pub fn encode(utterance: &Utterance, sample_rate: u32) -> (result: Result<Vec<u8>, EncodingError>)
    ensures
        match refusal(sample_rate, sample_total(utterance@)) {
            Some(error) => result == Err::<Vec<u8>, EncodingError>(error),
            None => result matches Ok(bytes) && bytes@ == wav_container(
                samples_of(utterance@),
                sample_rate as nat,
            ),
        },
{
    let samples = utterance.samples();
    proof {
        lemma_samples_len(utterance@);
    }
    match check_fit(sample_rate, samples.len()) {
        Err(error) => Err(error),
        Ok(_) => encoded(write_wav(&samples, CHANNELS, sample_rate, BITS_PER_SAMPLE)),
    }
}

/// Encoding an utterance of frames that are each `frame_len` samples long
/// gives a container that decodes to `frames.len() * frame_len` samples, the
/// samples of the utterance in their order, bit for bit.
pub proof fn lemma_encoding_round_trip(frames: Seq<Seq<i16>>, frame_len: nat, sample_rate: nat)
    requires
        forall|i: int| 0 <= i < frames.len() ==> (#[trigger] frames[i]).len() == frame_len,
    ensures
        decoded_count(wav_container(samples_of(frames), sample_rate).len()) == frames.len()
            * frame_len,
        decoded_samples(wav_container(samples_of(frames), sample_rate)) == samples_of(frames),
{
    lemma_uniform_total(frames, frame_len);
    lemma_samples_len(frames);
    lemma_container_round_trip(samples_of(frames), sample_rate);
}

} // verus!
