use tts_relay::audio::{apply_wav_gain_and_rate, PcmWav, WavAudio, WavSamples};
use tts_relay::error::TtsError;
use tts_relay::wav::{read_wav, try_fast_path, FastPath, WavReading};

fn wav_bytes(tag: u16, channels: u16, rate: u32, bits: u16, data: &[u8]) -> Vec<u8> {
    let block_align = channels * (bits / 8);
    let mut out = Vec::new();
    out.extend_from_slice(b"RIFF");
    out.extend_from_slice(&(36 + data.len() as u32).to_le_bytes());
    out.extend_from_slice(b"WAVE");
    out.extend_from_slice(b"fmt ");
    out.extend_from_slice(&16u32.to_le_bytes());
    out.extend_from_slice(&tag.to_le_bytes());
    out.extend_from_slice(&channels.to_le_bytes());
    out.extend_from_slice(&rate.to_le_bytes());
    out.extend_from_slice(&(rate * block_align as u32).to_le_bytes());
    out.extend_from_slice(&block_align.to_le_bytes());
    out.extend_from_slice(&bits.to_le_bytes());
    out.extend_from_slice(b"data");
    out.extend_from_slice(&(data.len() as u32).to_le_bytes());
    out.extend_from_slice(data);
    out
}

fn reason_of(reading: Result<WavReading, TtsError>) -> String {
    match reading {
        Err(TtsError::DecodeFailed { reason }) => reason,
        other => panic!("expected a decode failure, got {:?}", other),
    }
}

#[test]
fn sixteen_bit_wav_is_read_as_it_stands() {
    let samples: [i16; 4] = [0, 1000, -1000, i16::MIN];
    let data: Vec<u8> = samples.iter().flat_map(|s| s.to_le_bytes()).collect();
    let bytes = wav_bytes(1, 2, 24000, 16, &data);
    let expected =
        WavAudio {
            channels: 2,
            sample_rate: 24000,
            samples: WavSamples::Narrow { bits: 16, values: samples.to_vec() },
        };
    assert_eq!(read_wav(&bytes), Ok(WavReading::Decoded(expected.clone())));
    assert_eq!(
        apply_wav_gain_and_rate(&expected, 0, 100),
        Ok(PcmWav { channels: 2, sample_rate: 24000, samples: samples.to_vec() })
    );
}

#[test]
fn eight_bit_wav_is_read_signed_and_fills_the_16_bit_range() {
    let bytes = wav_bytes(1, 1, 8000, 8, &[128, 255, 0, 129, 228]);
    let expected = WavAudio {
        channels: 1,
        sample_rate: 8000,
        samples: WavSamples::Narrow { bits: 8, values: vec![0, 127, -128, 1, 100] },
    };
    assert_eq!(read_wav(&bytes), Ok(WavReading::Decoded(expected.clone())));
    let out = PcmWav { channels: 1, sample_rate: 8000, samples: vec![0, 32511, -32767, 256, 25599] };
    assert_eq!(apply_wav_gain_and_rate(&expected, 0, 100), Ok(out.clone()));
    assert_eq!(try_fast_path(&bytes, 0, 100), FastPath::Done(out));
}

#[test]
fn twenty_four_bit_wav_is_read_wide() {
    let data = [0x00, 0x00, 0x40, 0xff, 0xff, 0xff, 0x00, 0x00, 0x80];
    let bytes = wav_bytes(1, 1, 48000, 24, &data);
    let expected = WavAudio {
        channels: 1,
        sample_rate: 48000,
        samples: WavSamples::Wide { bits: 24, values: vec![4194304, -1, -8388608] },
    };
    assert_eq!(read_wav(&bytes), Ok(WavReading::Decoded(expected.clone())));
    assert_eq!(apply_wav_gain_and_rate(&expected, 0, 100).unwrap().samples, vec![16384, 0, -32767]);
}

#[test]
fn float_wav_leaves_its_samples_to_the_caller() {
    let data: Vec<u8> = [0.5f32, -0.25].iter().flat_map(|s| s.to_le_bytes()).collect();
    let bytes = wav_bytes(3, 2, 44100, 32, &data);
    assert_eq!(
        read_wav(&bytes),
        Ok(WavReading::FloatSamplesNeeded { channels: 2, sample_rate: 44100 })
    );
}

#[test]
fn bytes_that_are_no_wav_are_refused() {
    let mut truncated = wav_bytes(1, 1, 8000, 16, &[1, 0]);
    truncated.truncate(30);
    let no_channels = wav_bytes(1, 0, 8000, 16, &[]);
    let inputs: [&[u8]; 5] =
        [b"", b"ID3\x04\x00\x00\x00\x00\x00\x00", b"OggS\x00\x02\x00\x00", &truncated, &no_channels];
    for bytes in inputs {
        let reason = reason_of(read_wav(bytes));
        assert!(reason.starts_with("wav decode failed: "), "{:?}", reason);
        assert!(reason.len() > "wav decode failed: ".len(), "{:?}", reason);
    }
    assert_eq!(
        reason_of(read_wav(&no_channels)),
        "wav decode failed: Ill-formed WAVE file: file contains zero channels"
    );
}

#[test]
fn missing_sample_bytes_fail_the_read() {
    let mut bytes = wav_bytes(1, 1, 8000, 16, &[1, 0, 2, 0, 3, 0]);
    bytes.truncate(bytes.len() - 3);
    let reason = reason_of(read_wav(&bytes));
    assert!(reason.starts_with("wav read sample failed: "), "{:?}", reason);
    assert!(reason.len() > "wav read sample failed: ".len(), "{:?}", reason);
}

#[test]
fn empty_wav_has_no_samples() {
    let bytes = wav_bytes(1, 1, 8000, 16, &[]);
    let expected =
        WavAudio {
            channels: 1,
            sample_rate: 8000,
            samples: WavSamples::Narrow { bits: 16, values: Vec::new() },
        };
    assert_eq!(read_wav(&bytes), Ok(WavReading::Decoded(expected)));
}

#[test]
fn fast_path_transcodes_an_integer_wav() {
    let samples: [i16; 3] = [1000, -1000, 30000];
    let data: Vec<u8> = samples.iter().flat_map(|s| s.to_le_bytes()).collect();
    let bytes = wav_bytes(1, 1, 24000, 16, &data);
    assert_eq!(
        try_fast_path(&bytes, 0, 100),
        FastPath::Done(PcmWav { channels: 1, sample_rate: 24000, samples: samples.to_vec() })
    );
    assert_eq!(
        try_fast_path(&bytes, 10, 50),
        FastPath::Done(PcmWav { channels: 1, sample_rate: 48000, samples: vec![500, -500, 15000] })
    );
}

#[test]
fn fast_path_waits_for_float_samples() {
    let data: Vec<u8> = [1.0f32, -1.0].iter().flat_map(|s| s.to_le_bytes()).collect();
    let bytes = wav_bytes(3, 1, 16000, 32, &data);
    assert_eq!(
        try_fast_path(&bytes, 3, 80),
        FastPath::FloatSamplesNeeded { channels: 1, sample_rate: 16000 }
    );
}

fn fallback_reason(path: FastPath) -> String {
    match path {
        FastPath::FallBack(TtsError::DecodeFailed { reason }) => reason,
        other => panic!("expected a fall-back, got {:?}", other),
    }
}

#[test]
fn fast_path_falls_back_for_anything_else() {
    let no_wav = fallback_reason(try_fast_path(b"\xff\xfb\x90\x00 mp3 frame", 0, 100));
    assert!(no_wav.starts_with("wav decode failed: "), "{:?}", no_wav);
    let mut cut = wav_bytes(1, 2, 8000, 16, &[1, 0, 2, 0]);
    cut.pop();
    let sample = fallback_reason(try_fast_path(&cut, 0, 100));
    assert!(sample.starts_with("wav read sample failed: "), "{:?}", sample);
}

#[test]
fn fast_path_limits_the_rate_without_adjustment() {
    let bytes = wav_bytes(1, 1, 4000, 16, &[5, 0]);
    assert_eq!(
        try_fast_path(&bytes, 0, 100),
        FastPath::Done(PcmWav { channels: 1, sample_rate: 8000, samples: vec![5] })
    );
}
