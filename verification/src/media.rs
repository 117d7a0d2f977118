//! Normalized media metadata and its derivation rules: string-encoded
//! scalars accepted uniformly, the frame-rate fallback chain, the derived
//! frame count, and the file-size fallback.

use vstd::prelude::*;
use crate::numbers::parse_decimal;
use crate::numbers::parse_fraction;
use crate::numbers::parse_u64_str;
use crate::numbers::round_ratio;
use crate::numbers::rounded_frame_count;
use crate::numbers::spec_parse_decimal;
use crate::numbers::spec_parse_fraction;
use crate::numbers::spec_parse_u64;
use crate::numbers::Fraction;

verus! {

/// Container-level metadata.
pub struct ContainerInfo {
    pub format_name: Option<String>,
    pub duration: Option<Fraction>,
    pub bitrate: Option<u64>,
}

/// The first video stream's metadata.
pub struct VideoStreamInfo {
    pub codec_name: Option<String>,
    pub profile: Option<String>,
    pub width: Option<u64>,
    pub height: Option<u64>,
    pub pix_fmt: Option<String>,
    pub color_space: Option<String>,
    pub color_range: Option<String>,
    pub color_transfer: Option<String>,
    pub color_primaries: Option<String>,
    pub bit_rate: Option<u64>,
    pub avg_frame_rate: Option<String>,
    pub r_frame_rate: Option<String>,
    pub fps: Option<Fraction>,
    pub frame_count: Option<u64>,
}

/// The first audio stream's metadata.
pub struct AudioStreamInfo {
    pub codec_name: Option<String>,
    pub channels: Option<u64>,
    pub sample_rate: Option<u64>,
    pub bit_rate: Option<u64>,
}

/// A normalized media-info record.
pub struct MediaInfo {
    pub file: String,
    pub size_bytes: Option<u64>,
    pub container: ContainerInfo,
    pub video: Option<VideoStreamInfo>,
    pub audio: Option<AudioStreamInfo>,
}

/// The raw text of the container fields, as the probe reported them; a
/// numeric field holds the text of either a string or a number encoding.
pub struct RawFormat {
    pub format_name: Option<String>,
    pub duration: Option<String>,
    pub bit_rate: Option<String>,
    pub size: Option<String>,
}

/// The raw text of the first video stream's fields.
pub struct RawVideoStream {
    pub codec_name: Option<String>,
    pub profile: Option<String>,
    pub width: Option<String>,
    pub height: Option<String>,
    pub pix_fmt: Option<String>,
    pub color_space: Option<String>,
    pub color_range: Option<String>,
    pub color_transfer: Option<String>,
    pub color_primaries: Option<String>,
    pub bit_rate: Option<String>,
    pub avg_frame_rate: Option<String>,
    pub r_frame_rate: Option<String>,
    pub nb_frames: Option<String>,
}

/// The raw text of the first audio stream's fields.
pub struct RawAudioStream {
    pub codec_name: Option<String>,
    pub channels: Option<String>,
    pub sample_rate: Option<String>,
    pub bit_rate: Option<String>,
}

/// A raw scalar read as an integer; an absent or unparsable field is
/// simply unknown.
pub open spec fn opt_parse_u64(o: Option<String>) -> Option<u64> {
    match o {
        Some(s) => spec_parse_u64(s@),
        None => None,
    }
}

/// A raw scalar read as a decimal duration.
pub open spec fn opt_parse_decimal(o: Option<String>) -> Option<Fraction> {
    match o {
        Some(s) => spec_parse_decimal(s@),
        None => None,
    }
}

/// A raw scalar read as a rate fraction.
pub open spec fn opt_parse_fraction(o: Option<String>) -> Option<Fraction> {
    match o {
        Some(s) => spec_parse_fraction(s@),
        None => None,
    }
}

/// The derived frame rate: the first valid non-degenerate fraction wins,
/// the average rate before the real base rate.
pub open spec fn spec_fps_of(avg: Option<String>, rbase: Option<String>) -> Option<Fraction> {
    match opt_parse_fraction(avg) {
        Some(f) => Some(f),
        None => opt_parse_fraction(rbase),
    }
}

/// Duration × rate rounded half-up, saturated to u64::MAX.
pub open spec fn spec_saturated_frames(d: Fraction, f: Fraction) -> u64 {
    let exact = round_ratio(d.num as int * f.num as int, d.den as int * f.den as int);
    if exact > u64::MAX as int {
        u64::MAX
    } else {
        exact as u64
    }
}

/// The frame count: the explicit count when present, else derived from
/// duration and rate when both are known, else unknown.
pub open spec fn spec_frame_count_of(
    nb: Option<String>,
    duration: Option<Fraction>,
    fps: Option<Fraction>,
) -> Option<u64> {
    match opt_parse_u64(nb) {
        Some(n) => Some(n),
        None => match (duration, fps) {
            (Some(d), Some(f)) => Some(spec_saturated_frames(d, f)),
            _ => None,
        },
    }
}

/// The file size: the container-reported size when parsable, else what the
/// operating system reports for the file.
pub open spec fn spec_size_of(size_text: Option<String>, os_size: Option<u64>) -> Option<u64> {
    match opt_parse_u64(size_text) {
        Some(v) => Some(v),
        None => os_size,
    }
}

/// A raw text read as an integer; absent or unparsable is unknown.
pub open spec fn parse_u64_text(o: Option<Seq<char>>) -> Option<u64> {
    match o {
        Some(s) => spec_parse_u64(s),
        None => None,
    }
}

/// A raw text read as a decimal duration.
pub open spec fn parse_decimal_text(o: Option<Seq<char>>) -> Option<Fraction> {
    match o {
        Some(s) => spec_parse_decimal(s),
        None => None,
    }
}

/// A raw text read as a rate fraction.
pub open spec fn parse_fraction_text(o: Option<Seq<char>>) -> Option<Fraction> {
    match o {
        Some(s) => spec_parse_fraction(s),
        None => None,
    }
}

/// The frame-rate fallback chain over the raw texts.
pub open spec fn fps_of_texts(avg: Option<Seq<char>>, rbase: Option<Seq<char>>) -> Option<
    Fraction,
> {
    match parse_fraction_text(avg) {
        Some(f) => Some(f),
        None => parse_fraction_text(rbase),
    }
}

/// The frame-count rule over the raw explicit-count text.
pub open spec fn frame_count_of_texts(
    nb: Option<Seq<char>>,
    duration: Option<Fraction>,
    fps: Option<Fraction>,
) -> Option<u64> {
    match parse_u64_text(nb) {
        Some(n) => Some(n),
        None => match (duration, fps) {
            (Some(d), Some(f)) => Some(spec_saturated_frames(d, f)),
            _ => None,
        },
    }
}

/// A fraction out of the parsers always has a usable denominator.
pub proof fn lemma_parsed_den_positive(s: Seq<char>)
    ensures
        match spec_parse_fraction(s) {
            Some(f) => f.den >= 1,
            None => true,
        },
        match spec_parse_decimal(s) {
            Some(f) => f.den >= 1,
            None => true,
        },
{
    crate::numbers::lemma_parse_decimal_den_positive(s);
}

fn opt_u64(o: &Option<String>) -> (r: Option<u64>)
    ensures
        r == opt_parse_u64(*o),
{
    match o {
        Some(s) => parse_u64_str(s.as_str()),
        None => None,
    }
}

fn opt_dec(o: &Option<String>) -> (r: Option<Fraction>)
    ensures
        r == opt_parse_decimal(*o),
{
    match o {
        Some(s) => parse_decimal(s.as_str()),
        None => None,
    }
}

fn opt_frac(o: &Option<String>) -> (r: Option<Fraction>)
    ensures
        r == opt_parse_fraction(*o),
{
    match o {
        Some(s) => parse_fraction(s.as_str()),
        None => None,
    }
}

/// Derives the frame rate, matching `spec_fps_of`.
pub fn fps_of(avg: &Option<String>, rbase: &Option<String>) -> (r: Option<Fraction>)
    ensures
        r == spec_fps_of(*avg, *rbase),
{
    match opt_frac(avg) {
        Some(f) => Some(f),
        None => opt_frac(rbase),
    }
}

/// Derives the frame count, matching `spec_frame_count_of`; the rationals
/// must be valid (nonzero denominators), as the parsers guarantee.
pub fn frame_count_of(
    nb: &Option<String>,
    duration: Option<Fraction>,
    fps: Option<Fraction>,
) -> (r: Option<u64>)
    requires
        match duration {
            Some(d) => d.den > 0,
            None => true,
        },
        match fps {
            Some(f) => f.den > 0,
            None => true,
        },
    ensures
        r == spec_frame_count_of(*nb, duration, fps),
{
    match opt_u64(nb) {
        Some(n) => Some(n),
        None => match (duration, fps) {
            (Some(d), Some(f)) => Some(rounded_frame_count(d, f)),
            _ => None,
        },
    }
}

/// Builds the normalized record from the raw fields and the operating
/// system's size report, field by field per the derivation rules.
pub fn media_info_from_raw(
    file: String,
    fmt: RawFormat,
    video: Option<RawVideoStream>,
    audio: Option<RawAudioStream>,
    os_size: Option<u64>,
) -> (r: MediaInfo)
    ensures
        r.file == file,
        r.size_bytes == spec_size_of(fmt.size, os_size),
        r.container.format_name == fmt.format_name,
        r.container.duration == opt_parse_decimal(fmt.duration),
        r.container.bitrate == opt_parse_u64(fmt.bit_rate),
        match video {
            Some(v) => match r.video {
                Some(rv) => {
                    &&& rv.codec_name == v.codec_name
                    &&& rv.profile == v.profile
                    &&& rv.width == opt_parse_u64(v.width)
                    &&& rv.height == opt_parse_u64(v.height)
                    &&& rv.pix_fmt == v.pix_fmt
                    &&& rv.color_space == v.color_space
                    &&& rv.color_range == v.color_range
                    &&& rv.color_transfer == v.color_transfer
                    &&& rv.color_primaries == v.color_primaries
                    &&& rv.bit_rate == opt_parse_u64(v.bit_rate)
                    &&& rv.avg_frame_rate == v.avg_frame_rate
                    &&& rv.r_frame_rate == v.r_frame_rate
                    &&& rv.fps == spec_fps_of(v.avg_frame_rate, v.r_frame_rate)
                    &&& rv.frame_count == spec_frame_count_of(
                        v.nb_frames,
                        opt_parse_decimal(fmt.duration),
                        spec_fps_of(v.avg_frame_rate, v.r_frame_rate),
                    )
                },
                None => false,
            },
            None => r.video is None,
        },
        match audio {
            Some(a) => match r.audio {
                Some(ra) => {
                    &&& ra.codec_name == a.codec_name
                    &&& ra.channels == opt_parse_u64(a.channels)
                    &&& ra.sample_rate == opt_parse_u64(a.sample_rate)
                    &&& ra.bit_rate == opt_parse_u64(a.bit_rate)
                },
                None => false,
            },
            None => r.audio is None,
        },
{
    let duration = opt_dec(&fmt.duration);
    let size_bytes = match opt_u64(&fmt.size) {
        Some(v) => Some(v),
        None => os_size,
    };
    let container = ContainerInfo {
        format_name: fmt.format_name,
        duration,
        bitrate: opt_u64(&fmt.bit_rate),
    };
    let video_info: Option<VideoStreamInfo> = match video {
        Some(v) => {
            let fps = fps_of(&v.avg_frame_rate, &v.r_frame_rate);
            proof {
                match &v.avg_frame_rate {
                    Some(s) => lemma_parsed_den_positive(s@),
                    None => {},
                }
                match &v.r_frame_rate {
                    Some(s) => lemma_parsed_den_positive(s@),
                    None => {},
                }
                match &fmt.duration {
                    Some(s) => lemma_parsed_den_positive(s@),
                    None => {},
                }
            }
            let frame_count = frame_count_of(&v.nb_frames, duration, fps);
            Some(
                VideoStreamInfo {
                    codec_name: v.codec_name,
                    profile: v.profile,
                    width: opt_u64(&v.width),
                    height: opt_u64(&v.height),
                    pix_fmt: v.pix_fmt,
                    color_space: v.color_space,
                    color_range: v.color_range,
                    color_transfer: v.color_transfer,
                    color_primaries: v.color_primaries,
                    bit_rate: opt_u64(&v.bit_rate),
                    avg_frame_rate: v.avg_frame_rate,
                    r_frame_rate: v.r_frame_rate,
                    fps,
                    frame_count,
                },
            )
        },
        None => None,
    };
    let audio_info: Option<AudioStreamInfo> = match audio {
        Some(a) => Some(
            AudioStreamInfo {
                codec_name: a.codec_name,
                channels: opt_u64(&a.channels),
                sample_rate: opt_u64(&a.sample_rate),
                bit_rate: opt_u64(&a.bit_rate),
            },
        ),
        None => None,
    };
    MediaInfo { file, size_bytes, container, video: video_info, audio: audio_info }
}

} // verus!
