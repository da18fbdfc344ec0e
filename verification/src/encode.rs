//! Encoder configuration: the values the pipelines hand to FFmpeg when they set
//! up an output stream, an encoder and its frames.
use vstd::prelude::*;

verus! {

/// `AVFMT_NOFILE`: the muxer opens no file of its own.
pub const FORMAT_NO_FILE: i32 = 0x1;

/// `AVFMT_GLOBALHEADER`: the container wants the codec headers once, globally.
pub const FORMAT_GLOBAL_HEADER: i32 = 0x40;

/// `AV_CODEC_FLAG_GLOBAL_HEADER` on an encoder.
pub const CODEC_FLAG_GLOBAL_HEADER: u32 = 0x400000;

/// `AV_SAMPLE_FMT_NONE`, which ends a codec's list of sample formats.
pub const SAMPLE_FMT_NONE: i32 = -1;

/// `AV_SAMPLE_FMT_S16P`: planar signed 16-bit samples.
pub const SAMPLE_FMT_S16P: i32 = 6;

/// `AV_CH_LAYOUT_MONO`: the front-centre speaker alone.
pub const CHANNEL_MASK_MONO: u64 = 0x4;

/// Number of tone frames the MP3 pipeline encodes.
pub const TONE_FRAMES: usize = 200;

/// A rational number, as FFmpeg's `AVRational`.
#[derive(Clone, Copy, Debug, PartialEq, Eq, Structural)]
pub struct Rational {
    pub num: i32,
    pub den: i32,
}

/// Pixel layouts that the video pipelines use.
#[derive(Clone, Copy, Debug, PartialEq, Eq, Structural)]
pub enum PixelFormat {
    /// Packed 8-bit blue, green, red, alpha: what the screen capturer delivers.
    Bgra,
    /// Planar 4:2:0 YUV: what the H.264 encoder takes.
    Yuv420p,
}

/// How the video encoder is looked up.
#[derive(Clone, Copy, Debug, PartialEq, Eq, Structural)]
pub enum VideoCodec {
    /// The encoder registered under the name `libx264`.
    Libx264,
    /// The default encoder for the H.264 codec id.
    H264,
}

/// Ordering of the channels in a channel layout (`AVChannelOrder`).
#[derive(Clone, Copy, Debug, PartialEq, Eq, Structural)]
pub enum ChannelOrder {
    Unspecified,
    Native,
    Custom,
    Ambisonic,
}

/// A channel layout (`AVChannelLayout` without its opaque pointer).
#[derive(Clone, Copy, Debug, PartialEq, Eq, Structural)]
pub struct ChannelLayout {
    pub order: ChannelOrder,
    pub nb_channels: i32,
    pub mask: u64,
}

/// Everything the video pipelines set on the encoder, its frames and the scaler.
#[derive(Clone, Copy, Debug, PartialEq, Eq, Structural)]
pub struct VideoEncoderSettings {
    pub codec: VideoCodec,
    pub width: i32,
    pub height: i32,
    /// Time base of both the stream and the encoder.
    pub time_base: Rational,
    /// Frame rate given to the encoder, where one is given.
    pub frame_rate: Option<Rational>,
    /// Layout of the captured frames fed to the scaler.
    pub source_format: PixelFormat,
    /// Layout of the frames fed to the encoder.
    pub encoder_format: PixelFormat,
    /// Whether the encoder is opened with the `ultrafast` preset and the
    /// `zerolatency` tune.
    pub low_latency: bool,
}

/// Everything the audio pipeline sets on its encoder.
#[derive(Clone, Copy, Debug, PartialEq, Eq, Structural)]
pub struct AudioEncoderSettings {
    pub bit_rate: i64,
    pub sample_rate: i32,
    pub sample_fmt: i32,
}

/// Id of the stream just added to an output that now has `nb_streams` streams.
pub fn stream_id(nb_streams: u32) -> (id: i32)
    requires
        nb_streams >= 1,
    ensures
        id == (nb_streams - 1) as i32,
{
    (nb_streams - 1) as i32
}

/// One tick per frame at `fps` frames per second.
pub fn time_base_for(fps: u32) -> (tb: Rational)
    ensures
        tb == (Rational { num: 1, den: fps as i32 }),
{
    Rational { num: 1, den: fps as i32 }
}

/// `fps` frames per second.
pub fn frame_rate_for(fps: u32) -> (rate: Rational)
    ensures
        rate == (Rational { num: fps as i32, den: 1 }),
{
    Rational { num: fps as i32, den: 1 }
}

/// The test the pipelines make of an output format's flags before they ask the
/// encoder for global headers.
pub open spec fn spec_wants_global_header(format_flags: i32) -> bool {
    format_flags & FORMAT_GLOBAL_HEADER == 1
}

/// Whether the encoder is asked for global headers, as the pipelines decide it
/// from the output format's flags.
pub fn wants_global_header(format_flags: i32) -> (wants: bool)
    ensures
        wants == spec_wants_global_header(format_flags),
{
    format_flags & FORMAT_GLOBAL_HEADER == 1
}

/// The encoder's flags after the global-header decision.
pub open spec fn spec_encoder_flags(encoder_flags: i32, format_flags: i32) -> i32 {
    if spec_wants_global_header(format_flags) {
        encoder_flags | (CODEC_FLAG_GLOBAL_HEADER as i32)
    } else {
        encoder_flags
    }
}

/// Sets the global-header flag on the encoder's flags where the output format's
/// flags pass the pipelines' test.
pub fn encoder_flags(current: i32, format_flags: i32) -> (flags: i32)
    ensures
        flags == spec_encoder_flags(current, format_flags),
{
    if wants_global_header(format_flags) {
        current | (CODEC_FLAG_GLOBAL_HEADER as i32)
    } else {
        current
    }
}

/// The pipelines' test never passes: the global-header bit is not the lowest
/// bit, so masking with it never yields one.
pub proof fn lemma_global_header_never_requested(format_flags: i32)
    ensures
        !spec_wants_global_header(format_flags),
        spec_encoder_flags(0, format_flags) == 0,
{
    assert(format_flags & 0x40i32 != 1) by (bit_vector);
}

/// Whatever the output format's flags, the encoder's flags stay as they were.
pub proof fn lemma_encoder_flags_unchanged(encoder_flags: i32, format_flags: i32)
    ensures
        spec_encoder_flags(encoder_flags, format_flags) == encoder_flags,
{
    lemma_global_header_never_requested(format_flags);
}

/// Whether the pipeline opens (and later closes) the output file itself.
pub fn needs_file(format_flags: i32) -> (needs: bool)
    ensures
        needs == !(format_flags & FORMAT_NO_FILE == 1),
{
    !(format_flags & FORMAT_NO_FILE == 1)
}

/// The file is opened exactly when the format's lowest flag bit is clear.
pub proof fn lemma_needs_file_iff_bit_clear(format_flags: i32)
    ensures
        !(format_flags & FORMAT_NO_FILE == 1) <==> format_flags % 2 == 0,
{
    assert(!(format_flags & 1i32 == 1) <==> (format_flags & 1i32 == 0)) by (bit_vector);
    assert((format_flags & 1i32 == 0) <==> format_flags % 2 == 0) by (bit_vector);
}

/// Encoder settings of the capture pipeline that encodes with `libx264`.
pub fn x264_settings(width: u32, height: u32, fps: u32) -> (s: VideoEncoderSettings)
    ensures
        s == (VideoEncoderSettings {
            codec: VideoCodec::Libx264,
            width: width as i32,
            height: height as i32,
            time_base: Rational { num: 1, den: fps as i32 },
            frame_rate: None,
            source_format: PixelFormat::Bgra,
            encoder_format: PixelFormat::Yuv420p,
            low_latency: false,
        }),
{
    VideoEncoderSettings {
        codec: VideoCodec::Libx264,
        width: width as i32,
        height: height as i32,
        time_base: time_base_for(fps),
        frame_rate: None,
        source_format: PixelFormat::Bgra,
        encoder_format: PixelFormat::Yuv420p,
        low_latency: false,
    }
}

/// Encoder settings of the capture pipeline that encodes H.264 with low latency.
pub fn h264_low_latency_settings(width: u32, height: u32, fps: u32) -> (s: VideoEncoderSettings)
    ensures
        s == (VideoEncoderSettings {
            codec: VideoCodec::H264,
            width: width as i32,
            height: height as i32,
            time_base: Rational { num: 1, den: fps as i32 },
            frame_rate: Some(Rational { num: fps as i32, den: 1 }),
            source_format: PixelFormat::Bgra,
            encoder_format: PixelFormat::Yuv420p,
            low_latency: true,
        }),
{
    VideoEncoderSettings {
        codec: VideoCodec::H264,
        width: width as i32,
        height: height as i32,
        time_base: time_base_for(fps),
        frame_rate: Some(frame_rate_for(fps)),
        source_format: PixelFormat::Bgra,
        encoder_format: PixelFormat::Yuv420p,
        low_latency: true,
    }
}

/// Encoder settings of the MP3 pipeline: 128 kb/s, 44.1 kHz, planar 16-bit.
pub fn mp3_settings() -> (s: AudioEncoderSettings)
    ensures
        s == (AudioEncoderSettings { bit_rate: 128000, sample_rate: 44100, sample_fmt: SAMPLE_FMT_S16P }),
{
    AudioEncoderSettings { bit_rate: 128000, sample_rate: 44100, sample_fmt: SAMPLE_FMT_S16P }
}

/// `fmt` stands in `formats` before the first `SAMPLE_FMT_NONE` (or before the
/// end, where there is none).
pub open spec fn listed_sample_fmt(formats: Seq<i32>, fmt: i32) -> bool {
    exists|k: int|
        0 <= k < formats.len() && #[trigger] formats[k] == fmt && fmt != SAMPLE_FMT_NONE
            && forall|j: int| 0 <= j < k ==> formats[j] != SAMPLE_FMT_NONE
}

/// Whether a codec supports `sample_fmt`, given its list of sample formats,
/// which `SAMPLE_FMT_NONE` ends.
pub fn is_valid_sample_fmt(formats: &[i32], sample_fmt: i32) -> (valid: bool)
    ensures
        valid == listed_sample_fmt(formats@, sample_fmt),
{
    let mut i: usize = 0;
    while i < formats.len() && formats[i] != SAMPLE_FMT_NONE
        invariant
            i <= formats@.len(),
            forall|j: int| 0 <= j < i ==> formats@[j] != SAMPLE_FMT_NONE,
            forall|j: int| 0 <= j < i ==> formats@[j] != sample_fmt,
        decreases formats.len() - i,
    {
        if formats[i] == sample_fmt {
            assert(formats@[i as int] == sample_fmt);
            return true;
        }
        i = i + 1;
    }
    assert forall|k: int|
        0 <= k < formats@.len() && #[trigger] formats@[k] == sample_fmt && sample_fmt
            != SAMPLE_FMT_NONE implies !(forall|j: int|
        0 <= j < k ==> formats@[j] != SAMPLE_FMT_NONE) by {
        if k >= i {
            assert(formats@[i as int] == SAMPLE_FMT_NONE);
        }
    }
    false
}

/// The channel layout the MP3 pipeline gives its encoder: native order, one
/// channel, front centre.
pub fn select_channel_layout() -> (layout: ChannelLayout)
    ensures
        layout == (ChannelLayout {
            order: ChannelOrder::Native,
            nb_channels: 1,
            mask: CHANNEL_MASK_MONO,
        }),
{
    ChannelLayout { order: ChannelOrder::Native, nb_channels: 1, mask: CHANNEL_MASK_MONO }
}

} // verus!
