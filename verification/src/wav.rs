//! Reading a WAV container that is held in memory.
//!
//! The container is parsed by `hound`. Integer samples are read here;
//! floating-point samples are left to the caller, who hands them over as bit
//! patterns.

use crate::audio::{
    apply_wav_gain_and_rate, transcoded_wav, unsupported_depth, wav_sample_kind, PcmWav, WavAudio,
    WavAudioView, WavSampleKind, WavSamples, WavSamplesView,
};
use crate::error::TtsError;
use vstd::prelude::*;
use vstd::string::StringExecFns;

verus! {

/// What the header of a WAV container says: channel count, sample rate, bits
/// per sample, and whether the samples are floating point. `None` where the
/// bytes are no WAV container that the reader accepts.
pub uninterp spec fn wav_header_of(bytes: Seq<u8>) -> Option<(u16, u32, u16, bool)>;

/// The samples of a WAV container read as 16-bit integers, in file order.
/// `None` where the header or any sample cannot be read.
pub uninterp spec fn wav_narrow_of(bytes: Seq<u8>) -> Option<Seq<i16>>;

/// The samples of a WAV container read as 32-bit integers, in file order.
/// `None` where the header or any sample cannot be read.
pub uninterp spec fn wav_wide_of(bytes: Seq<u8>) -> Option<Seq<i32>>;

/// Calls `hound::WavReader::new` on the bytes and `spec` on the reader. What
/// the header says depends on the bytes alone. Where no reader can be made,
/// the error comes back in the reader's own words, of which nothing is claimed.
#[verifier::external_body]
fn read_header(bytes: &[u8]) -> (r: Result<(u16, u32, u16, bool), String>)
    ensures
        match r {
            Ok(header) => wav_header_of(bytes@) == Some(header),
            Err(_) => wav_header_of(bytes@) is None,
        },
{
    let reader = hound::WavReader::new(std::io::Cursor::new(bytes)).map_err(|e| e.to_string())?;
    let spec = reader.spec();
    let float = match spec.sample_format {
        hound::SampleFormat::Float => true,
        hound::SampleFormat::Int => false,
    };
    Ok((spec.channels, spec.sample_rate, spec.bits_per_sample, float))
}

/// Calls `hound::WavReader::samples` for `i16` and collects what it yields.
/// The samples depend on the bytes alone. Where no reader can be made or a
/// sample cannot be read, the error comes back in the reader's own words, of
/// which nothing is claimed.
#[verifier::external_body]
fn read_narrow(bytes: &[u8]) -> (r: Result<Vec<i16>, String>)
    ensures
        match r {
            Ok(samples) => wav_narrow_of(bytes@) == Some(samples@),
            Err(_) => wav_narrow_of(bytes@) is None,
        },
{
    let mut reader = hound::WavReader::new(std::io::Cursor::new(bytes)).map_err(
        |e| e.to_string(),
    )?;
    reader.samples::<i16>().collect::<Result<Vec<i16>, hound::Error>>().map_err(|e| e.to_string())
}

/// Calls `hound::WavReader::samples` for `i32` and collects what it yields.
/// The samples depend on the bytes alone. Where no reader can be made or a
/// sample cannot be read, the error comes back in the reader's own words, of
/// which nothing is claimed.
#[verifier::external_body]
fn read_wide(bytes: &[u8]) -> (r: Result<Vec<i32>, String>)
    ensures
        match r {
            Ok(samples) => wav_wide_of(bytes@) == Some(samples@),
            Err(_) => wav_wide_of(bytes@) is None,
        },
{
    let mut reader = hound::WavReader::new(std::io::Cursor::new(bytes)).map_err(
        |e| e.to_string(),
    )?;
    reader.samples::<i32>().collect::<Result<Vec<i32>, hound::Error>>().map_err(|e| e.to_string())
}

/// What reading a WAV container gave.
#[derive(Clone, Debug, PartialEq, Eq)]
pub enum WavReading {
    /// An integer container with its samples.
    Decoded(WavAudio),
    /// A floating-point container: its samples are still to be read.
    FloatSamplesNeeded { channels: u16, sample_rate: u32 },
}

/// Why the bytes cannot be read as a WAV container.
pub enum WavFault {
    /// The bytes are no WAV container.
    NotAWav,
    /// A sample cannot be read.
    Sample,
    /// The samples are integers of no bits or of more than 32.
    Depth,
}

/// What the bytes hold, as far as a WAV container is read here.
pub enum WavContent {
    /// An integer container of 1 to 32 bits per sample.
    Integer(WavAudioView),
    /// A floating-point container of this layout.
    Float { channels: u16, sample_rate: u32 },
    /// Nothing that can be read.
    Unreadable(WavFault),
}

/// How the failure to make a reader is introduced; the reader's words follow.
pub open spec fn not_a_wav() -> Seq<char> {
    "wav decode failed: "@
}

/// How the failure to read a sample is introduced; the reader's words follow.
pub open spec fn unreadable_sample() -> Seq<char> {
    "wav read sample failed: "@
}

/// The text `said` reports the fault: the reader's failures are introduced
/// by their kind and followed by the reader's words, an unsupported depth is
/// named as such.
pub open spec fn reports(said: Seq<char>, fault: WavFault) -> bool {
    match fault {
        WavFault::NotAWav => not_a_wav().is_prefix_of(said),
        WavFault::Sample => unreadable_sample().is_prefix_of(said),
        WavFault::Depth => said == unsupported_depth(),
    }
}

/// What the bytes hold. Integer samples of at most 16 bits are read as
/// `i16`, wider ones up to 32 bits as `i32`, both with their width; of a
/// floating-point container only the layout is read. Bytes that are no WAV
/// container, integer samples of no bits or of more than 32, and samples that
/// cannot be read are unreadable.
pub open spec fn wav_content(bytes: Seq<u8>) -> WavContent {
    match wav_header_of(bytes) {
        None => WavContent::Unreadable(WavFault::NotAWav),
        Some((channels, sample_rate, bits, float)) => if float {
            WavContent::Float { channels, sample_rate }
        } else if bits == 0 || bits > 32 {
            WavContent::Unreadable(WavFault::Depth)
        } else if bits <= 16 {
            match wav_narrow_of(bytes) {
                Some(values) => WavContent::Integer(
                    WavAudioView {
                        channels,
                        sample_rate,
                        samples: WavSamplesView::Narrow { bits, values },
                    },
                ),
                None => WavContent::Unreadable(WavFault::Sample),
            }
        } else {
            match wav_wide_of(bytes) {
                Some(values) => WavContent::Integer(
                    WavAudioView {
                        channels,
                        sample_rate,
                        samples: WavSamplesView::Wide { bits, values },
                    },
                ),
                None => WavContent::Unreadable(WavFault::Sample),
            }
        },
    }
}

fn reader_failure(introduction: &str, words: &str) -> (e: TtsError)
    ensures
        e matches TtsError::DecodeFailed { reason } && introduction@.is_prefix_of(reason@),
{
    let mut reason = String::from_str(introduction);
    reason.append(words);
    assert(reason@.subrange(0, introduction@.len() as int) =~= introduction@);
    TtsError::DecodeFailed { reason }
}

/// Reads a WAV container from memory.
pub fn read_wav(bytes: &[u8]) -> (r: Result<WavReading, TtsError>)
    ensures
        match wav_content(bytes@) {
            WavContent::Integer(content) => r matches Ok(WavReading::Decoded(audio)) && audio@
                == content,
            WavContent::Float { channels, sample_rate } => r == Ok::<WavReading, TtsError>(
                WavReading::FloatSamplesNeeded { channels, sample_rate },
            ),
            WavContent::Unreadable(fault) => r matches Err(
                TtsError::DecodeFailed { reason: said },
            ) && reports(said@, fault),
        },
{
    let (channels, sample_rate, bits, float) = match read_header(bytes) {
        Ok(header) => header,
        Err(words) => {
            return Err(reader_failure("wav decode failed: ", words.as_str()));
        },
    };
    let samples = match wav_sample_kind(float, bits)? {
        WavSampleKind::Float32 => {
            return Ok(WavReading::FloatSamplesNeeded { channels, sample_rate });
        },
        WavSampleKind::Narrow => match read_narrow(bytes) {
            Ok(values) => WavSamples::Narrow { bits, values },
            Err(words) => {
                return Err(reader_failure("wav read sample failed: ", words.as_str()));
            },
        },
        WavSampleKind::Wide => match read_wide(bytes) {
            Ok(values) => WavSamples::Wide { bits, values },
            Err(words) => {
                return Err(reader_failure("wav read sample failed: ", words.as_str()));
            },
        },
    };
    Ok(WavReading::Decoded(WavAudio { channels, sample_rate, samples }))
}

/// What the fast path over a WAV container came to.
#[derive(Clone, Debug, PartialEq, Eq)]
pub enum FastPath {
    /// The container was transcoded.
    Done(PcmWav),
    /// A floating-point container: once its samples are read, gain and rate
    /// are applied to them as to any other WAV container.
    FloatSamplesNeeded { channels: u16, sample_rate: u32 },
    /// The bytes are no WAV container that can be transcoded: the generic
    /// decoder is to be tried.
    FallBack(TtsError),
}

/// Tries the bytes as a WAV container and transcodes what it holds. An
/// integer container is done at once; a floating-point container waits for
/// its samples; anything else falls back to the generic decoder.
pub fn try_fast_path(bytes: &[u8], rate: i32, volume: u8) -> (r: FastPath)
    ensures
        match wav_content(bytes@) {
            WavContent::Integer(content) => r matches FastPath::Done(pcm) && pcm@
                == transcoded_wav(content, rate, volume),
            WavContent::Float { channels, sample_rate } => r == (FastPath::FloatSamplesNeeded {
                channels,
                sample_rate,
            }),
            WavContent::Unreadable(fault) => r matches FastPath::FallBack(
                TtsError::DecodeFailed { reason: said },
            ) && reports(said@, fault),
        },
{
    match read_wav(bytes) {
        Ok(WavReading::Decoded(audio)) => match apply_wav_gain_and_rate(&audio, rate, volume) {
            Ok(pcm) => FastPath::Done(pcm),
            Err(e) => FastPath::FallBack(e),
        },
        Ok(WavReading::FloatSamplesNeeded { channels, sample_rate }) => {
            FastPath::FloatSamplesNeeded { channels, sample_rate }
        },
        Err(e) => FastPath::FallBack(e),
    }
}

} // verus!
