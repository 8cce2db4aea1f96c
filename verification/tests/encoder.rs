use utterance_capture::container::HEADER_LEN;
use utterance_capture::encoder::check_fit;
use utterance_capture::encoder::encode;
use utterance_capture::encoder::encoded;
use utterance_capture::encoder::EncodingError;
use utterance_capture::encoder::MAX_SAMPLES;
use utterance_capture::encoder::MAX_SAMPLE_RATE;
use utterance_capture::ring::RingBuffer;
use utterance_capture::utterance::Utterance;

fn decode(bytes: Vec<u8>) -> (hound::WavSpec, Vec<i16>) {
    let mut reader = hound::WavReader::new(std::io::Cursor::new(bytes)).unwrap();
    let spec = reader.spec();
    let mut samples: Vec<i16> = Vec::new();
    for sample in reader.samples::<i16>() {
        samples.push(sample.unwrap());
    }
    (spec, samples)
}

#[test]
fn container_bytes_are_exact() {
    let utterance = Utterance::from_frames(vec![vec![1, -1], vec![256]]);
    let bytes = encode(&utterance, 16000).unwrap();
    let expected: Vec<u8> = vec![
        0x52, 0x49, 0x46, 0x46, 0x2A, 0x00, 0x00, 0x00, 0x57, 0x41, 0x56, 0x45, 0x66, 0x6D, 0x74,
        0x20, 0x10, 0x00, 0x00, 0x00, 0x01, 0x00, 0x01, 0x00, 0x80, 0x3E, 0x00, 0x00, 0x00, 0x7D,
        0x00, 0x00, 0x02, 0x00, 0x10, 0x00, 0x64, 0x61, 0x74, 0x61, 0x06, 0x00, 0x00, 0x00, 0x01,
        0x00, 0xFF, 0xFF, 0x00, 0x01,
    ];
    assert_eq!(bytes, expected);
}

#[test]
fn container_of_nothing_is_its_header() {
    let utterance = Utterance::from_frames(Vec::new());
    let bytes = encode(&utterance, 16000).unwrap();
    assert_eq!(bytes.len(), HEADER_LEN);
    let (spec, samples) = decode(bytes);
    assert_eq!(spec.sample_rate, 16000);
    assert!(samples.is_empty());
}

#[test]
fn container_declares_mono_sixteen_bit_pcm() {
    let utterance = Utterance::from_frames(vec![vec![0; 8]]);
    let (spec, _) = decode(encode(&utterance, 44100).unwrap());
    assert_eq!(spec.channels, 1);
    assert_eq!(spec.sample_rate, 44100);
    assert_eq!(spec.bits_per_sample, 16);
    assert!(matches!(spec.sample_format, hound::SampleFormat::Int));
}

#[test]
fn encoding_round_trip() {
    let frame_len: usize = 512;
    let frame_count: usize = 7;
    let mut frames: Vec<Vec<i16>> = Vec::new();
    let mut value: i16 = -32768;
    let mut f: usize = 0;
    while f < frame_count {
        let mut frame: Vec<i16> = Vec::new();
        let mut s: usize = 0;
        while s < frame_len {
            frame.push(value);
            value = value.wrapping_add(1237);
            s += 1;
        }
        frames.push(frame);
        f += 1;
    }
    let expected: Vec<i16> = frames.concat();
    let utterance = Utterance::from_frames(frames);
    let bytes = encode(&utterance, 16000).unwrap();
    assert_eq!(bytes.len(), HEADER_LEN + 2 * frame_count * frame_len);
    let (_, samples) = decode(bytes);
    assert_eq!(samples.len(), frame_count * frame_len);
    assert_eq!(samples, expected);
}

#[test]
fn extreme_samples_survive_encoding() {
    let frame = vec![i16::MIN, -1, 0, 1, i16::MAX, 255, 256, -256, -255];
    let utterance = Utterance::from_frames(vec![frame.clone()]);
    let (_, samples) = decode(encode(&utterance, 8000).unwrap());
    assert_eq!(samples, frame);
}

#[test]
fn lead_in_alone_encodes_as_the_snapshot() {
    let mut ring = RingBuffer::one_second(16000, 512);
    let capacity = ring.max_len();
    assert_eq!(capacity, 31);
    let mut fed: usize = 0;
    while fed < capacity + 4 {
        ring.push(vec![fed as i16; 512]);
        fed += 1;
    }
    let snapshot = ring.snapshot();
    assert_eq!(snapshot.len(), capacity);
    let expected: Vec<i16> = snapshot.concat();
    let utterance = Utterance::from_frames(ring.snapshot());
    let (_, samples) = decode(encode(&utterance, 16000).unwrap());
    assert_eq!(samples.len(), capacity * 512);
    assert_eq!(samples, expected);
}

#[test]
fn sample_rate_must_fit() {
    let utterance = Utterance::from_frames(vec![vec![1, 2, 3]]);
    assert_eq!(encode(&utterance, 0), Err(EncodingError::InvalidSampleRate));
    assert_eq!(encode(&utterance, MAX_SAMPLE_RATE + 1), Err(EncodingError::InvalidSampleRate));
    assert_eq!(encode(&utterance, u32::MAX), Err(EncodingError::InvalidSampleRate));
    let (spec, samples) = decode(encode(&utterance, MAX_SAMPLE_RATE).unwrap());
    assert_eq!(spec.sample_rate, MAX_SAMPLE_RATE);
    assert_eq!(samples, vec![1, 2, 3]);
}

#[test]
fn fit_is_decided_by_rate_then_size() {
    assert_eq!(check_fit(16000, 0), Ok(()));
    assert_eq!(check_fit(16000, MAX_SAMPLES), Ok(()));
    assert_eq!(check_fit(16000, MAX_SAMPLES + 1), Err(EncodingError::TooLong));
    assert_eq!(check_fit(0, 0), Err(EncodingError::InvalidSampleRate));
    assert_eq!(check_fit(0, MAX_SAMPLES + 1), Err(EncodingError::InvalidSampleRate));
    assert_eq!(check_fit(MAX_SAMPLE_RATE, 1), Ok(()));
    assert_eq!(check_fit(MAX_SAMPLE_RATE + 1, 1), Err(EncodingError::InvalidSampleRate));
}

#[test]
fn writer_failure_is_a_sink_error() {
    assert_eq!(encoded(Err(hound::Error::Unsupported)), Err(EncodingError::Sink));
    assert_eq!(encoded(Err(hound::Error::TooWide)), Err(EncodingError::Sink));
    assert_eq!(encoded(Ok(vec![1, 2, 3])), Ok(vec![1, 2, 3]));
}

#[test]
fn utterance_hands_out_its_frames() {
    let utterance = Utterance::from_frames(vec![vec![1, 2], vec![], vec![3]]);
    assert_eq!(utterance.frame_count(), 3);
    assert_eq!(utterance.frame(0), &vec![1, 2]);
    assert_eq!(utterance.frame(2), &vec![3]);
    assert_eq!(utterance.samples(), vec![1, 2, 3]);
    assert_eq!(utterance.into_frames(), vec![vec![1, 2], vec![], vec![3]]);
}

#[test]
fn every_admitted_utterance_is_encoded() {
    let rates: [u32; 4] = [1, 8000, 16000, MAX_SAMPLE_RATE];
    for rate in rates {
        let mut frames: usize = 0;
        while frames < 4 {
            let utterance = Utterance::from_frames(vec![vec![-3, 3, 0]; frames]);
            assert_eq!(check_fit(rate, 3 * frames), Ok(()));
            let bytes = encode(&utterance, rate).unwrap();
            assert_eq!(bytes.len(), HEADER_LEN + 6 * frames);
            frames += 1;
        }
    }
}
