//! The transcoder: decoded audio in, 16-bit PCM out.
//!
//! Decoders hand over what they read as plain values: integers as they are,
//! floating-point samples as IEEE-754 bit patterns. Gain is applied sample by
//! sample; the rate adjustment only relabels the sample rate. The output is
//! always 16-bit signed PCM, whatever the input was.

use crate::error::TtsError;
use crate::level::{
    lemma_narrow_at_full_volume, lemma_scaled_at_full_volume, lemma_silence_stays_silent,
    lemma_wide_at_full_volume,
    level_float32, level_int16, level_int32, level_narrow,
    level_uint8, level_wide, quantize_float32, quantize_int16, quantize_int32, quantize_narrow,
    quantize_uint8, quantize_wide, two_to,
};
use crate::level::clamp_int;
use crate::rate::{
    adjusted_sample_rate, is_scaled_rate, lemma_no_steps_keep_the_rate, lemma_scaled_rate_is,
    output_rate, scaled_rate, MAX_RATE, MIN_RATE,
};
use vstd::prelude::*;
use vstd::string::StringExecFns;

verus! {

/// Sample rate assumed where a container names none.
pub const DEFAULT_RATE: u32 = 44100;

/// Finished audio: interleaved 16-bit samples with their layout.
#[derive(Clone, Debug, PartialEq, Eq)]
pub struct PcmWav {
    pub channels: u16,
    pub sample_rate: u32,
    pub samples: Vec<i16>,
}

/// [`PcmWav`] with its samples as a sequence.
pub struct PcmView {
    pub channels: u16,
    pub sample_rate: u32,
    pub samples: Seq<i16>,
}

impl View for PcmWav {
    type V = PcmView;

    open spec fn view(&self) -> PcmView {
        PcmView { channels: self.channels, sample_rate: self.sample_rate, samples: self.samples@ }
    }
}

/// How the samples of a WAV container are to be read.
#[derive(Clone, Copy, PartialEq, Eq, Structural, Debug)]
pub enum WavSampleKind {
    /// 32-bit floating point.
    Float32,
    /// Integers of at most 16 bits, read as `i16`.
    Narrow,
    /// Integers of 17 to 32 bits, read as `i32`.
    Wide,
}

/// The samples of a WAV container as they were read.
#[derive(Clone, Debug, PartialEq, Eq)]
pub enum WavSamples {
    /// Floating-point samples as bit patterns.
    Float32(Vec<u32>),
    /// Integer samples of at most 16 bits, `bits` bits each.
    Narrow { bits: u16, values: Vec<i16> },
    /// Integer samples of `bits` bits each.
    Wide { bits: u16, values: Vec<i32> },
}

/// [`WavSamples`] with the samples as sequences.
pub enum WavSamplesView {
    Float32(Seq<u32>),
    Narrow { bits: u16, values: Seq<i16> },
    Wide { bits: u16, values: Seq<i32> },
}

impl View for WavSamples {
    type V = WavSamplesView;

    open spec fn view(&self) -> WavSamplesView {
        match self {
            WavSamples::Float32(bits) => WavSamplesView::Float32(bits@),
            WavSamples::Narrow { bits, values } => WavSamplesView::Narrow {
                bits: *bits,
                values: values@,
            },
            WavSamples::Wide { bits, values } => WavSamplesView::Wide {
                bits: *bits,
                values: values@,
            },
        }
    }
}

/// A decoded WAV container.
#[derive(Clone, Debug, PartialEq, Eq)]
pub struct WavAudio {
    pub channels: u16,
    pub sample_rate: u32,
    pub samples: WavSamples,
}

/// [`WavAudio`] with the samples as sequences.
pub struct WavAudioView {
    pub channels: u16,
    pub sample_rate: u32,
    pub samples: WavSamplesView,
}

impl View for WavAudio {
    type V = WavAudioView;

    open spec fn view(&self) -> WavAudioView {
        WavAudioView {
            channels: self.channels,
            sample_rate: self.sample_rate,
            samples: self.samples@,
        }
    }
}

/// The samples of one decoded packet of a generic container.
#[derive(Clone, Debug, PartialEq, Eq)]
pub enum SampleBlock {
    /// 32-bit floating point, as bit patterns.
    Float32(Vec<u32>),
    /// Signed 16-bit integers.
    Int16(Vec<i16>),
    /// Signed 32-bit integers.
    Int32(Vec<i32>),
    /// Unsigned 8-bit integers, centred at 128.
    Uint8(Vec<u8>),
    /// Any other sample format: the packet is passed over.
    Unsupported,
}

/// [`SampleBlock`] with the samples as sequences.
pub enum SampleBlockView {
    Float32(Seq<u32>),
    Int16(Seq<i16>),
    Int32(Seq<i32>),
    Uint8(Seq<u8>),
    Unsupported,
}

impl View for SampleBlock {
    type V = SampleBlockView;

    open spec fn view(&self) -> SampleBlockView {
        match self {
            SampleBlock::Float32(bits) => SampleBlockView::Float32(bits@),
            SampleBlock::Int16(values) => SampleBlockView::Int16(values@),
            SampleBlock::Int32(values) => SampleBlockView::Int32(values@),
            SampleBlock::Uint8(values) => SampleBlockView::Uint8(values@),
            SampleBlock::Unsupported => SampleBlockView::Unsupported,
        }
    }
}

/// What became of one packet of a generic container.
#[derive(Clone, Debug, PartialEq, Eq)]
pub enum PacketOutcome {
    /// The packet belongs to another track.
    OtherTrack,
    /// The decoder rejected the packet.
    Undecodable,
    /// The packet was decoded.
    Decoded { sample_rate: u32, channels: u16, samples: SampleBlock },
}

/// [`PacketOutcome`] with the samples as sequences.
pub enum PacketView {
    OtherTrack,
    Undecodable,
    Decoded { sample_rate: u32, channels: u16, samples: SampleBlockView },
}

impl View for PacketOutcome {
    type V = PacketView;

    open spec fn view(&self) -> PacketView {
        match self {
            PacketOutcome::OtherTrack => PacketView::OtherTrack,
            PacketOutcome::Undecodable => PacketView::Undecodable,
            PacketOutcome::Decoded { sample_rate, channels, samples } => PacketView::Decoded {
                sample_rate: *sample_rate,
                channels: *channels,
                samples: samples@,
            },
        }
    }
}

/// The packets of the default track of a generic container, with the layout
/// that the container announces.
#[derive(Clone, Debug, PartialEq, Eq)]
pub struct PacketStream {
    pub codec_rate: Option<u32>,
    pub codec_channels: Option<u16>,
    pub packets: Vec<PacketOutcome>,
}

/// [`PacketStream`] with the packets as a sequence of views.
pub struct PacketStreamView {
    pub codec_rate: Option<u32>,
    pub codec_channels: Option<u16>,
    pub packets: Seq<PacketView>,
}

impl View for PacketStream {
    type V = PacketStreamView;

    open spec fn view(&self) -> PacketStreamView {
        PacketStreamView {
            codec_rate: self.codec_rate,
            codec_channels: self.codec_channels,
            packets: self.packets@.map_values(|p: PacketOutcome| p@),
        }
    }
}

/// Decoded audio from either decoder.
#[derive(Clone, Debug, PartialEq, Eq)]
pub enum AudioSource {
    Wav(WavAudio),
    Packets(PacketStream),
}

/// What the transcoder says of a bit depth it cannot read.
pub open spec fn unsupported_depth() -> Seq<char> {
    "unsupported bit depth"@
}

/// What the transcoder says where decoding gave nothing.
pub open spec fn no_samples() -> Seq<char> {
    "decode produced no samples"@
}

/// How the samples of a WAV container of the given format are read. Integer
/// samples of no bits, or of more than 32, are not read at all.
pub fn wav_sample_kind(float: bool, bits_per_sample: u16) -> (r: Result<WavSampleKind, TtsError>)
    ensures
        match r {
            Ok(kind) => kind == (if float {
                WavSampleKind::Float32
            } else if bits_per_sample <= 16 {
                WavSampleKind::Narrow
            } else {
                WavSampleKind::Wide
            }) && (float || 1 <= bits_per_sample <= 32),
            Err(e) => !float && !(1 <= bits_per_sample <= 32) && (e matches TtsError::DecodeFailed {
                reason,
            } && reason@ == unsupported_depth()),
        },
{
    if float {
        Ok(WavSampleKind::Float32)
    } else if bits_per_sample == 0 || bits_per_sample > 32 {
        Err(TtsError::DecodeFailed { reason: String::from_str("unsupported bit depth") })
    } else if bits_per_sample <= 16 {
        Ok(WavSampleKind::Narrow)
    } else {
        Ok(WavSampleKind::Wide)
    }
}

/// The levels of 32-bit float samples given as bit patterns, one for one.
pub open spec fn float32_levels(bits: Seq<u32>, volume: u8) -> Seq<i16> {
    Seq::new(bits.len(), |i: int| level_float32(bits[i], volume) as i16)
}

/// The levels of signed 16-bit samples taken as fractions of full scale.
pub open spec fn int16_levels(values: Seq<i16>, volume: u8) -> Seq<i16> {
    Seq::new(values.len(), |i: int| level_int16(values[i], volume) as i16)
}

/// The levels of signed 32-bit samples taken as fractions of full scale.
pub open spec fn int32_levels(values: Seq<i32>, volume: u8) -> Seq<i16> {
    Seq::new(values.len(), |i: int| level_int32(values[i], volume) as i16)
}

/// The levels of unsigned 8-bit samples, centred at 128.
pub open spec fn uint8_levels(values: Seq<u8>, volume: u8) -> Seq<i16> {
    Seq::new(values.len(), |i: int| level_uint8(values[i], volume) as i16)
}

/// The levels of WAV samples of `bits` bits, at most 16.
pub open spec fn narrow_levels(values: Seq<i16>, bits: u16, volume: u8) -> Seq<i16> {
    Seq::new(values.len(), |i: int| level_narrow(values[i], bits, volume) as i16)
}

/// The levels of samples of `bits` bits taken as fractions of full scale.
pub open spec fn wide_levels(values: Seq<i32>, bits: u16, volume: u8) -> Seq<i16> {
    Seq::new(values.len(), |i: int| level_wide(values[i], bits, volume) as i16)
}

/// The WAV samples can be transcoded: narrow samples have 1 to 16 bits, wide
/// samples 17 to 32.
pub open spec fn wav_supported(samples: WavSamplesView) -> bool {
    match samples {
        WavSamplesView::Float32(_) => true,
        WavSamplesView::Narrow { bits, .. } => 1 <= bits <= 16,
        WavSamplesView::Wide { bits, .. } => 17 <= bits <= 32,
    }
}

/// The output levels of the samples of a WAV container, one for one. Every
/// sample is taken as a fraction of the full scale of its format; 16-bit
/// integers, which are on the output scale already, are scaled as they stand.
pub open spec fn wav_levels(samples: WavSamplesView, volume: u8) -> Seq<i16> {
    match samples {
        WavSamplesView::Float32(bits) => float32_levels(bits, volume),
        WavSamplesView::Narrow { bits, values } => narrow_levels(values, bits, volume),
        WavSamplesView::Wide { bits, values } => wide_levels(values, bits, volume),
    }
}

/// The output levels of one block of a generic container, one for one; none
/// for a block in an unsupported format.
pub open spec fn block_levels(block: SampleBlockView, volume: u8) -> Seq<i16> {
    match block {
        SampleBlockView::Float32(bits) => float32_levels(bits, volume),
        SampleBlockView::Int16(values) => int16_levels(values, volume),
        SampleBlockView::Int32(values) => int32_levels(values, volume),
        SampleBlockView::Uint8(values) => uint8_levels(values, volume),
        SampleBlockView::Unsupported => Seq::empty(),
    }
}

/// What a WAV container is transcoded to: the same channels, the adjusted
/// sample rate, and one output level for every sample.
pub open spec fn transcoded_wav(audio: WavAudioView, rate: i32, volume: u8) -> PcmView {
    PcmView {
        channels: audio.channels,
        sample_rate: output_rate(audio.sample_rate, rate) as u32,
        samples: wav_levels(audio.samples, volume),
    }
}

fn append_float32(out: &mut Vec<i16>, bits: &Vec<u32>, volume: u8)
    ensures
        final(out)@ == old(out)@ + float32_levels(bits@, volume),
{
    let ghost start = out@;
    let mut i: usize = 0;
    assert(out@ =~= start + float32_levels(bits@.take(0), volume));
    while i < bits.len()
        invariant
            i <= bits@.len(),
            out@ == start + float32_levels(bits@.take(i as int), volume),
        decreases bits@.len() - i,
    {
        out.push(quantize_float32(bits[i], volume));
        i += 1;
        assert(out@ =~= start + float32_levels(bits@.take(i as int), volume));
    }
    assert(bits@.take(i as int) =~= bits@);
}

fn append_int16(out: &mut Vec<i16>, values: &Vec<i16>, volume: u8)
    ensures
        final(out)@ == old(out)@ + int16_levels(values@, volume),
{
    let ghost start = out@;
    let mut i: usize = 0;
    assert(out@ =~= start + int16_levels(values@.take(0), volume));
    while i < values.len()
        invariant
            i <= values@.len(),
            out@ == start + int16_levels(values@.take(i as int), volume),
        decreases values@.len() - i,
    {
        out.push(quantize_int16(values[i], volume));
        i += 1;
        assert(out@ =~= start + int16_levels(values@.take(i as int), volume));
    }
    assert(values@.take(i as int) =~= values@);
}

fn append_int32(out: &mut Vec<i16>, values: &Vec<i32>, volume: u8)
    ensures
        final(out)@ == old(out)@ + int32_levels(values@, volume),
{
    let ghost start = out@;
    let mut i: usize = 0;
    assert(out@ =~= start + int32_levels(values@.take(0), volume));
    while i < values.len()
        invariant
            i <= values@.len(),
            out@ == start + int32_levels(values@.take(i as int), volume),
        decreases values@.len() - i,
    {
        out.push(quantize_int32(values[i], volume));
        i += 1;
        assert(out@ =~= start + int32_levels(values@.take(i as int), volume));
    }
    assert(values@.take(i as int) =~= values@);
}

fn append_uint8(out: &mut Vec<i16>, values: &Vec<u8>, volume: u8)
    ensures
        final(out)@ == old(out)@ + uint8_levels(values@, volume),
{
    let ghost start = out@;
    let mut i: usize = 0;
    assert(out@ =~= start + uint8_levels(values@.take(0), volume));
    while i < values.len()
        invariant
            i <= values@.len(),
            out@ == start + uint8_levels(values@.take(i as int), volume),
        decreases values@.len() - i,
    {
        out.push(quantize_uint8(values[i], volume));
        i += 1;
        assert(out@ =~= start + uint8_levels(values@.take(i as int), volume));
    }
    assert(values@.take(i as int) =~= values@);
}

fn append_narrow(out: &mut Vec<i16>, values: &Vec<i16>, bits: u16, volume: u8)
    requires
        1 <= bits <= 16,
    ensures
        final(out)@ == old(out)@ + narrow_levels(values@, bits, volume),
{
    let ghost start = out@;
    let mut i: usize = 0;
    assert(out@ =~= start + narrow_levels(values@.take(0), bits, volume));
    while i < values.len()
        invariant
            1 <= bits <= 16,
            i <= values@.len(),
            out@ == start + narrow_levels(values@.take(i as int), bits, volume),
        decreases values@.len() - i,
    {
        out.push(quantize_narrow(values[i], bits, volume));
        i += 1;
        assert(out@ =~= start + narrow_levels(values@.take(i as int), bits, volume));
    }
    assert(values@.take(i as int) =~= values@);
}

fn append_wide(out: &mut Vec<i16>, values: &Vec<i32>, bits: u16, volume: u8)
    requires
        17 <= bits <= 32,
    ensures
        final(out)@ == old(out)@ + wide_levels(values@, bits, volume),
{
    let ghost start = out@;
    let mut i: usize = 0;
    assert(out@ =~= start + wide_levels(values@.take(0), bits, volume));
    while i < values.len()
        invariant
            17 <= bits <= 32,
            i <= values@.len(),
            out@ == start + wide_levels(values@.take(i as int), bits, volume),
        decreases values@.len() - i,
    {
        out.push(quantize_wide(values[i], bits, volume));
        i += 1;
        assert(out@ =~= start + wide_levels(values@.take(i as int), bits, volume));
    }
    assert(values@.take(i as int) =~= values@);
}

/// Applies gain and rate adjustment to a decoded WAV container. The channel
/// count stays, every sample gives one output sample, and the sample rate
/// depends on the rate adjustment alone. Fails for narrow samples of a width
/// outside 1 to 16 bits and for wide samples of a width outside 17 to 32 bits.
pub fn apply_wav_gain_and_rate(audio: &WavAudio, rate: i32, volume: u8) -> (r: Result<
    PcmWav,
    TtsError,
>)
    ensures
        match r {
            Ok(pcm) => wav_supported(audio@.samples) && pcm@ == transcoded_wav(audio@, rate, volume),
            Err(e) => {
                &&& !wav_supported(audio@.samples)
                &&& e matches TtsError::DecodeFailed { reason }
                &&& reason@ == unsupported_depth()
            },
        },
{
    let mut samples: Vec<i16> = Vec::new();
    match &audio.samples {
        WavSamples::Float32(bits) => {
            append_float32(&mut samples, bits, volume);
        },
        WavSamples::Narrow { bits, values } => {
            if *bits < 1 || *bits > 16 {
                return Err(
                    TtsError::DecodeFailed { reason: String::from_str("unsupported bit depth") },
                );
            }
            append_narrow(&mut samples, values, *bits, volume);
        },
        WavSamples::Wide { bits, values } => {
            if *bits < 17 || *bits > 32 {
                return Err(
                    TtsError::DecodeFailed { reason: String::from_str("unsupported bit depth") },
                );
            }
            append_wide(&mut samples, values, *bits, volume);
        },
    }
    Ok(
        PcmWav {
            channels: audio.channels,
            sample_rate: adjusted_sample_rate(audio.sample_rate, rate),
            samples,
        },
    )
}

/// The packet adds samples: it was decoded to a supported sample format.
pub open spec fn is_usable(packet: PacketView) -> bool {
    packet matches PacketView::Decoded { samples, .. } && !(samples is Unsupported)
}

/// Goes through the packets in order. Every usable packet appends its
/// levels and sets sample rate and channel count, so that the last one seen
/// decides; every other packet is passed over. Before the first usable
/// packet the layout is what the container announced, or 44100 Hz mono.
pub open spec fn decode_packets(
    codec_rate: Option<u32>,
    codec_channels: Option<u16>,
    packets: Seq<PacketView>,
    volume: u8,
) -> PcmView
    decreases packets.len(),
{
    if packets.len() == 0 {
        PcmView {
            sample_rate: match codec_rate {
                Some(rate) => rate,
                None => DEFAULT_RATE,
            },
            channels: match codec_channels {
                Some(channels) => channels,
                None => 1,
            },
            samples: Seq::empty(),
        }
    } else {
        let before = decode_packets(codec_rate, codec_channels, packets.drop_last(), volume);
        match packets.last() {
            PacketView::Decoded { sample_rate, channels, samples } => if samples is Unsupported {
                before
            } else {
                PcmView {
                    sample_rate,
                    channels,
                    samples: before.samples + block_levels(samples, volume),
                }
            },
            _ => before,
        }
    }
}

/// What the packets of a generic container are transcoded to, where they
/// hold any sample at all.
pub open spec fn transcoded_packets(stream: PacketStreamView, rate: i32, volume: u8) -> PcmView {
    let decoded = decode_packets(stream.codec_rate, stream.codec_channels, stream.packets, volume);
    PcmView {
        channels: decoded.channels,
        sample_rate: output_rate(decoded.sample_rate, rate) as u32,
        samples: decoded.samples,
    }
}

/// Transcodes the packets of a generic container. Packets that could not be
/// decoded are passed over; the decode fails only where no packet gave a sample.
pub fn decode_generic(stream: &PacketStream, rate: i32, volume: u8) -> (r: Result<
    PcmWav,
    TtsError,
>)
    ensures
        match r {
            Ok(pcm) => pcm@ == transcoded_packets(stream@, rate, volume) && pcm@.samples.len() > 0,
            Err(e) => {
                &&& transcoded_packets(stream@, rate, volume).samples.len() == 0
                &&& e matches TtsError::DecodeFailed { reason }
                &&& reason@ == no_samples()
            },
        },
{
    let mut sample_rate: u32 = match stream.codec_rate {
        Some(rate) => rate,
        None => DEFAULT_RATE,
    };
    let mut channels: u16 = match stream.codec_channels {
        Some(channels) => channels,
        None => 1,
    };
    let mut samples: Vec<i16> = Vec::new();
    let mut i: usize = 0;
    assert(stream@.packets.take(0) =~= Seq::<PacketView>::empty());
    while i < stream.packets.len()
        invariant
            i <= stream.packets@.len(),
            stream@.packets.len() == stream.packets@.len(),
            decode_packets(
                stream.codec_rate,
                stream.codec_channels,
                stream@.packets.take(i as int),
                volume,
            ) == (PcmView { sample_rate, channels, samples: samples@ }),
        decreases stream.packets@.len() - i,
    {
        let ghost seen = stream@.packets.take(i as int);
        let ghost next = stream@.packets.take(i + 1);
        assert(next.drop_last() =~= seen);
        assert(next.last() == stream.packets@[i as int]@);
        match &stream.packets[i] {
            PacketOutcome::Decoded { sample_rate: rate, channels: count, samples: block } => {
                match block {
                    SampleBlock::Float32(bits) => {
                        sample_rate = *rate;
                        channels = *count;
                        append_float32(&mut samples, bits, volume);
                    },
                    SampleBlock::Int16(values) => {
                        sample_rate = *rate;
                        channels = *count;
                        append_int16(&mut samples, values, volume);
                    },
                    SampleBlock::Int32(values) => {
                        sample_rate = *rate;
                        channels = *count;
                        append_int32(&mut samples, values, volume);
                    },
                    SampleBlock::Uint8(values) => {
                        sample_rate = *rate;
                        channels = *count;
                        append_uint8(&mut samples, values, volume);
                    },
                    SampleBlock::Unsupported => {},
                }
            },
            _ => {},
        }
        i += 1;
    }
    assert(stream@.packets.take(i as int) =~= stream@.packets);
    if samples.len() == 0 {
        return Err(
            TtsError::DecodeFailed { reason: String::from_str("decode produced no samples") },
        );
    }
    Ok(PcmWav { channels, sample_rate: adjusted_sample_rate(sample_rate, rate), samples })
}

/// Transcodes decoded audio from either decoder to 16-bit PCM.
pub fn write_pcm16_wav_from_any(source: &AudioSource, rate: i32, volume: u8) -> (r: Result<
    PcmWav,
    TtsError,
>)
    ensures
        match *source {
            AudioSource::Wav(audio) => match r {
                Ok(pcm) => wav_supported(audio@.samples) && pcm@ == transcoded_wav(
                    audio@,
                    rate,
                    volume,
                ),
                Err(e) => {
                    &&& !wav_supported(audio@.samples)
                    &&& e matches TtsError::DecodeFailed { reason }
                    &&& reason@ == unsupported_depth()
                },
            },
            AudioSource::Packets(stream) => match r {
                Ok(pcm) => pcm@ == transcoded_packets(stream@, rate, volume) && pcm@.samples.len()
                    > 0,
                Err(e) => {
                    &&& transcoded_packets(stream@, rate, volume).samples.len() == 0
                    &&& e matches TtsError::DecodeFailed { reason }
                    &&& reason@ == no_samples()
                },
            },
        },
{
    match source {
        AudioSource::Wav(audio) => apply_wav_gain_and_rate(audio, rate, volume),
        AudioSource::Packets(stream) => decode_generic(stream, rate, volume),
    }
}

/// Number of samples of a WAV container.
pub open spec fn wav_sample_count(samples: WavSamplesView) -> nat {
    match samples {
        WavSamplesView::Float32(bits) => bits.len(),
        WavSamplesView::Narrow { values, .. } => values.len(),
        WavSamplesView::Wide { values, .. } => values.len(),
    }
}

/// Every sample of the container is zero; a float may be zero of either sign.
pub open spec fn wav_is_silent(samples: WavSamplesView) -> bool {
    match samples {
        WavSamplesView::Float32(bits) => forall|i: int|
            0 <= i < bits.len() ==> bits[i] == 0 || bits[i] == 0x8000_0000,
        WavSamplesView::Narrow { values, .. } => forall|i: int|
            0 <= i < values.len() ==> values[i] == 0,
        WavSamplesView::Wide { values, .. } => forall|i: int|
            0 <= i < values.len() ==> values[i] == 0,
    }
}

/// Every narrow sample lies within the range of its width.
pub open spec fn within_depth(values: Seq<i16>, bits: u16) -> bool {
    forall|i: int|
        0 <= i < values.len() ==> -two_to((bits - 1) as nat) <= #[trigger] values[i] <= two_to(
            (bits - 1) as nat,
        )
}

/// Without rate adjustment and at full volume a WAV container keeps its
/// channel count and its sample count, and its sample rate where that lies
/// within 8000 to 192000. Integer samples of at most 16 bits come out within
/// one step of their 16-bit equivalent, the sample times `2^(16-bits)`;
/// 16-bit samples come out exactly as they went in. Wider samples that are
/// not negative come out within one step of the sample divided by
/// `2^(bits-16)`.
pub proof fn lemma_wav_unchanged_at_unity(audio: WavAudioView)
    ensures
        transcoded_wav(audio, 0, 100).channels == audio.channels,
        MIN_RATE <= audio.sample_rate <= MAX_RATE ==> transcoded_wav(audio, 0, 100).sample_rate
            == audio.sample_rate,
        transcoded_wav(audio, 0, 100).samples.len() == wav_sample_count(audio.samples),
        audio.samples matches WavSamplesView::Narrow { bits, values } ==> {
            &&& bits == 16 ==> transcoded_wav(audio, 0, 100).samples == values
            &&& 1 <= bits <= 16 && within_depth(values, bits) ==> forall|i: int|
                0 <= i < values.len() ==> -1 <= #[trigger] transcoded_wav(
                    audio,
                    0,
                    100,
                ).samples[i] - values[i] * two_to((16 - bits) as nat) <= 1
        },
        audio.samples matches WavSamplesView::Wide { bits, values } ==> (17 <= bits <= 32
            ==> forall|i: int|
            0 <= i < values.len() && 0 <= values[i] <= two_to((bits - 1) as nat) - 1 ==> -1
                <= #[trigger] transcoded_wav(audio, 0, 100).samples[i] - (values[i] as int)
                / two_to((bits - 16) as nat) <= 1),
{
    lemma_no_steps_keep_the_rate(audio.sample_rate as int);
    if let WavSamplesView::Wide { bits, values } = audio.samples {
        let out = wide_levels(values, bits, 100);
        if 17 <= bits <= 32 {
            assert forall|i: int|
                0 <= i < values.len() && 0 <= values[i] <= two_to((bits - 1) as nat)
                    - 1 implies -1 <= #[trigger] out[i] - (values[i] as int) / two_to(
                (bits - 16) as nat,
            ) <= 1 by {
                lemma_wide_at_full_volume(values[i], bits);
            }
        }
    }
    if let WavSamplesView::Narrow { bits, values } = audio.samples {
        let out = narrow_levels(values, bits, 100);
        if bits == 16 {
            assert forall|i: int| 0 <= i < values.len() implies out[i] == values[i] by {
                lemma_scaled_at_full_volume(values[i]);
            }
            assert(out =~= values);
        }
        if 1 <= bits <= 16 && within_depth(values, bits) {
            assert forall|i: int| 0 <= i < values.len() implies -1 <= #[trigger] out[i]
                - values[i] * two_to((16 - bits) as nat) <= 1 by {
                lemma_narrow_at_full_volume(values[i], bits);
            }
        }
    }
}

/// For every adjustment of at most ten steps either way, the sample rate of
/// the output is the sample rate of the input times `2^(steps/10)`, rounded,
/// and limited to the range from 8000 to 192000, whatever the volume is.
pub proof fn lemma_output_rate_of_wav(
    audio: WavAudioView,
    rate: i32,
    volume: u8,
    other_volume: u8,
)
    requires
        -10 <= rate <= 10,
    ensures
        transcoded_wav(audio, rate, volume).sample_rate == clamp_int(
            scaled_rate(audio.sample_rate as int, rate as int),
            MIN_RATE as int,
            MAX_RATE as int,
        ),
        transcoded_wav(audio, rate, volume).sample_rate == transcoded_wav(
            audio,
            rate,
            other_volume,
        ).sample_rate,
        is_scaled_rate(
            audio.sample_rate as int,
            rate as int,
            scaled_rate(audio.sample_rate as int, rate as int),
        ),
{
    lemma_scaled_rate_is(audio.sample_rate as int, rate as int, 0);
}

/// The same holds of a generic container, whose input rate is that of the
/// last usable packet.
pub proof fn lemma_output_rate_of_packets(
    stream: PacketStreamView,
    rate: i32,
    volume: u8,
    other_volume: u8,
)
    requires
        -10 <= rate <= 10,
    ensures
        transcoded_packets(stream, rate, volume).sample_rate == clamp_int(
            scaled_rate(
                decode_packets(
                    stream.codec_rate,
                    stream.codec_channels,
                    stream.packets,
                    volume,
                ).sample_rate as int,
                rate as int,
            ),
            MIN_RATE as int,
            MAX_RATE as int,
        ),
        transcoded_packets(stream, rate, volume).sample_rate == transcoded_packets(
            stream,
            rate,
            other_volume,
        ).sample_rate,
{
    lemma_layout_ignores_volume(stream.codec_rate, stream.codec_channels, stream.packets, volume, other_volume);
}

/// Sample rate and channel count of a generic container are read off its
/// packets; the volume takes no part in them.
pub proof fn lemma_layout_ignores_volume(
    codec_rate: Option<u32>,
    codec_channels: Option<u16>,
    packets: Seq<PacketView>,
    volume: u8,
    other_volume: u8,
)
    ensures
        decode_packets(codec_rate, codec_channels, packets, volume).sample_rate == decode_packets(
            codec_rate,
            codec_channels,
            packets,
            other_volume,
        ).sample_rate,
        decode_packets(codec_rate, codec_channels, packets, volume).channels == decode_packets(
            codec_rate,
            codec_channels,
            packets,
            other_volume,
        ).channels,
        decode_packets(codec_rate, codec_channels, packets, volume).samples.len()
            == decode_packets(codec_rate, codec_channels, packets, other_volume).samples.len(),
    decreases packets.len(),
{
    if packets.len() > 0 {
        lemma_layout_ignores_volume(
            codec_rate,
            codec_channels,
            packets.drop_last(),
            volume,
            other_volume,
        );
    }
}

/// Silence stays silence at every volume: all-zero samples give all-zero output.
pub proof fn lemma_silent_wav_stays_silent(samples: WavSamplesView, volume: u8)
    requires
        wav_supported(samples),
        wav_is_silent(samples),
    ensures
        forall|i: int|
            0 <= i < wav_levels(samples, volume).len() ==> #[trigger] wav_levels(
                samples,
                volume,
            )[i] == 0,
{
    lemma_silence_stays_silent(volume);
}

/// Silence in a block of a generic container stays silence at every volume;
/// for unsigned 8-bit samples silence is the value 128.
pub proof fn lemma_silent_block_stays_silent(block: SampleBlockView, volume: u8)
    requires
        match block {
            SampleBlockView::Float32(bits) => forall|i: int|
                0 <= i < bits.len() ==> bits[i] == 0 || bits[i] == 0x8000_0000,
            SampleBlockView::Int16(values) => forall|i: int|
                0 <= i < values.len() ==> values[i] == 0,
            SampleBlockView::Int32(values) => forall|i: int|
                0 <= i < values.len() ==> values[i] == 0,
            SampleBlockView::Uint8(values) => forall|i: int|
                0 <= i < values.len() ==> values[i] == 128,
            SampleBlockView::Unsupported => true,
        },
    ensures
        forall|i: int|
            0 <= i < block_levels(block, volume).len() ==> #[trigger] block_levels(
                block,
                volume,
            )[i] == 0,
{
    lemma_silence_stays_silent(volume);
}

} // verus!
