//! The byte layout of a single-channel 16-bit PCM container.

use vstd::prelude::*;

verus! {

/// Length of the header that precedes the sample data.
pub const HEADER_LEN: usize = 44;

/// `x` as two bytes, least significant first.
pub open spec fn le_u16(x: nat) -> Seq<u8> {
    seq![(x % 256) as u8, (x / 256 % 256) as u8]
}

/// `x` as four bytes, least significant first.
pub open spec fn le_u32(x: nat) -> Seq<u8> {
    seq![
        (x % 256) as u8,
        (x / 256 % 256) as u8,
        (x / 65536 % 256) as u8,
        (x / 16777216 % 256) as u8,
    ]
}

/// One sample as two bytes: its two's complement, least significant byte
/// first.
pub open spec fn sample_bytes(sample: i16) -> Seq<u8> {
    if sample < 0 {
        le_u16((sample + 65536) as nat)
    } else {
        le_u16(sample as nat)
    }
}

/// The sample that two bytes stand for.
pub open spec fn sample_from(low: u8, high: u8) -> i16 {
    let unsigned = low as int + 256 * high as int;
    if unsigned >= 32768 {
        (unsigned - 65536) as i16
    } else {
        unsigned as i16
    }
}

/// The data section: every sample in order, two bytes each.
pub open spec fn pcm_bytes(samples: Seq<i16>) -> Seq<u8>
    decreases samples.len(),
{
    if samples.len() == 0 {
        Seq::empty()
    } else {
        pcm_bytes(samples.drop_last()) + sample_bytes(samples.last())
    }
}

/// The 44 bytes before the data: the `RIFF` tag and the size of what follows
/// it, the `WAVE` tag, a 16-byte `fmt ` chunk (integer PCM, one channel, the
/// sample rate, two bytes per second for each sample of the rate, two bytes
/// per block, 16 bits per sample), then the `data` tag and the data's size.
pub open spec fn wav_header(sample_count: nat, sample_rate: nat) -> Seq<u8> {
    seq![0x52u8, 0x49u8, 0x46u8, 0x46u8] + le_u32(36 + 2 * sample_count) + seq![
        0x57u8,
        0x41u8,
        0x56u8,
        0x45u8,
        0x66u8,
        0x6du8,
        0x74u8,
        0x20u8,
    ] + le_u32(16) + le_u16(1) + le_u16(1) + le_u32(sample_rate) + le_u32(2 * sample_rate)
        + le_u16(2) + le_u16(16) + seq![0x64u8, 0x61u8, 0x74u8, 0x61u8] + le_u32(
        2 * sample_count,
    )
}

/// The whole container: header, then data.
pub open spec fn wav_container(samples: Seq<i16>, sample_rate: nat) -> Seq<u8> {
    wav_header(samples.len(), sample_rate) + pcm_bytes(samples)
}

/// The number of samples a container of `container_len` bytes holds.
pub open spec fn decoded_count(container_len: nat) -> nat {
    ((container_len - HEADER_LEN) / 2) as nat
}

/// The samples that the data section of `container` stands for.
pub open spec fn decoded_samples(container: Seq<u8>) -> Seq<i16> {
    Seq::new(
        decoded_count(container.len()),
        |i: int| sample_from(container[HEADER_LEN + 2 * i], container[HEADER_LEN + 2 * i + 1]),
    )
}

/// The two bytes of a sample stand for that sample.
pub proof fn lemma_sample_round_trip(sample: i16)
    ensures
        sample_bytes(sample).len() == 2,
        sample_from(sample_bytes(sample)[0], sample_bytes(sample)[1]) == sample,
{
}

/// The data section holds two bytes for each sample, those of sample `i` at
/// `2 * i` and `2 * i + 1`.
pub proof fn lemma_pcm_layout(samples: Seq<i16>)
    ensures
        pcm_bytes(samples).len() == 2 * samples.len(),
        forall|i: int|
            0 <= i < samples.len() ==> {
                &&& pcm_bytes(samples)[2 * i] == sample_bytes(#[trigger] samples[i])[0]
                &&& pcm_bytes(samples)[2 * i + 1] == sample_bytes(samples[i])[1]
            },
    decreases samples.len(),
{
    if samples.len() > 0 {
        let front = samples.drop_last();
        lemma_pcm_layout(front);
        lemma_sample_round_trip(samples.last());
        assert forall|i: int| 0 <= i < samples.len() implies {
            &&& pcm_bytes(samples)[2 * i] == sample_bytes(#[trigger] samples[i])[0]
            &&& pcm_bytes(samples)[2 * i + 1] == sample_bytes(samples[i])[1]
        } by {
            if i < front.len() {
                assert(front[i] == samples[i]);
            }
        }
    }
}

/// The header is 44 bytes long.
pub proof fn lemma_header_len(sample_count: nat, sample_rate: nat)
    ensures
        wav_header(sample_count, sample_rate).len() == HEADER_LEN,
{
}

/// Decoding a container gives back the samples it was made from, as many and
/// in the same order, each bit for bit.
pub proof fn lemma_container_round_trip(samples: Seq<i16>, sample_rate: nat)
    ensures
        wav_container(samples, sample_rate).len() == HEADER_LEN + 2 * samples.len(),
        decoded_count(wav_container(samples, sample_rate).len()) == samples.len(),
        decoded_samples(wav_container(samples, sample_rate)) == samples,
{
    let header = wav_header(samples.len(), sample_rate);
    let data = pcm_bytes(samples);
    let container = wav_container(samples, sample_rate);
    lemma_header_len(samples.len(), sample_rate);
    lemma_pcm_layout(samples);
    assert(container.len() == HEADER_LEN + 2 * samples.len());
    assert forall|i: int| 0 <= i < samples.len() implies decoded_samples(container)[i]
        == samples[i] by {
        lemma_sample_round_trip(samples[i]);
        assert(container[HEADER_LEN + 2 * i] == data[2 * i]);
        assert(container[HEADER_LEN + 2 * i + 1] == data[2 * i + 1]);
    }
    assert(decoded_samples(container) =~= samples);
}

} // verus!
