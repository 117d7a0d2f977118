//! Reading the prober's structured output. The JSON payload is parsed and
//! walked through trusted declarations over `serde_json`; since parsing and
//! every accessor used here are functions of their arguments alone, their
//! results carry names, the trusted items tie each call to its name, and
//! the stream selection, flattening and normalization are verified exactly
//! against that model.

use vstd::prelude::*;
use crate::media::fps_of_texts;
use crate::media::frame_count_of_texts;
use crate::media::media_info_from_raw;
use crate::media::parse_decimal_text;
use crate::media::parse_fraction_text;
use crate::media::parse_u64_text;
use crate::media::AudioStreamInfo;
use crate::media::MediaInfo;
use crate::media::RawAudioStream;
use crate::media::RawFormat;
use crate::media::RawVideoStream;
use crate::media::VideoStreamInfo;
use crate::text::opt_str_is;
use crate::text::str_eq;

verus! {

#[verifier::external_type_specification]
#[verifier::external_body]
pub struct ExJsonValue(serde_json::Value);

#[verifier::external_type_specification]
#[verifier::external_body]
pub struct ExJsonError(serde_json::Error);

/// Whether a text is a well-formed JSON document. Parsing depends on the
/// text alone, so the result has a name.
pub uninterp spec fn json_parses(text: Seq<char>) -> bool;

/// The document a well-formed text parses to.
pub uninterp spec fn json_doc_of(text: Seq<char>) -> serde_json::Value;

/// The member a JSON value holds under a key; nothing for a missing key or
/// a non-object.
pub uninterp spec fn json_member_of(v: serde_json::Value, key: Seq<char>) -> Option<
    serde_json::Value,
>;

/// The text of a JSON string value; nothing for any other value.
pub uninterp spec fn json_str_of(v: serde_json::Value) -> Option<Seq<char>>;

/// The decimal text of a JSON number value; nothing for any other value.
pub uninterp spec fn json_number_text_of(v: serde_json::Value) -> Option<Seq<char>>;

/// The elements of a JSON array value; nothing for any other value.
pub uninterp spec fn json_elements_of(v: serde_json::Value) -> Option<Seq<serde_json::Value>>;

/// Relies on serde_json::from_str: parses a JSON document, or reports why
/// the text is not one. Parsing is deterministic, so success and the
/// resulting document are exactly the named functions of the text.
#[verifier::external_body]
fn json_parse(text: &str) -> (r: Result<serde_json::Value, serde_json::Error>)
    ensures
        match r {
            Ok(v) => json_parses(text@) && v == json_doc_of(text@),
            Err(_) => !json_parses(text@),
        },
{
    serde_json::from_str(text)
}

/// Relies on serde_json::Value::get: the member of an object under a key,
/// nothing for a missing key or a non-object; a pure lookup.
#[verifier::external_body]
fn json_get<'a>(v: &'a serde_json::Value, key: &str) -> (r: Option<&'a serde_json::Value>)
    ensures
        match r {
            Some(m) => json_member_of(*v, key@) == Some(*m),
            None => json_member_of(*v, key@) is None,
        },
{
    v.get(key)
}

/// Relies on serde_json::Value::as_str: the text of a string value,
/// nothing for any other value.
#[verifier::external_body]
fn json_as_str(v: &serde_json::Value) -> (r: Option<String>)
    ensures
        opt_str_is(r, json_str_of(*v)),
{
    match v.as_str() {
        Some(s) => Some(s.to_string()),
        None => None,
    }
}

/// Relies on serde_json::Number's display form: the decimal text of a
/// number value, nothing for any other value; the rendering depends on the
/// number alone.
#[verifier::external_body]
fn json_number_text(v: &serde_json::Value) -> (r: Option<String>)
    ensures
        opt_str_is(r, json_number_text_of(*v)),
{
    match v {
        serde_json::Value::Number(n) => Some(n.to_string()),
        _ => None,
    }
}

/// Relies on serde_json::Value::as_array: the elements of an array value,
/// nothing for any other value.
#[verifier::external_body]
fn json_as_array<'a>(v: &'a serde_json::Value) -> (r: Option<&'a Vec<serde_json::Value>>)
    ensures
        match r {
            Some(arr) => json_elements_of(*v) == Some(arr@),
            None => json_elements_of(*v) is None,
        },
{
    v.as_array()
}

/// Relies on serde_json::Error's display form: the parser's diagnostic.
#[verifier::external_body]
fn json_error_text(e: &serde_json::Error) -> (r: String) {
    e.to_string()
}

/// The text of a scalar under either encoding: a string's text, or a
/// number's decimal rendering; nothing for any other value.
pub open spec fn spec_scalar_text(v: serde_json::Value) -> Option<Seq<char>> {
    match json_str_of(v) {
        Some(s) => Some(s),
        None => json_number_text_of(v),
    }
}

/// A member read as a scalar, accepting string and number uniformly.
pub open spec fn spec_field_text(obj: serde_json::Value, key: Seq<char>) -> Option<Seq<char>> {
    match json_member_of(obj, key) {
        Some(m) => spec_scalar_text(m),
        None => None,
    }
}

/// A member read as a string only.
pub open spec fn spec_field_str(obj: serde_json::Value, key: Seq<char>) -> Option<Seq<char>> {
    match json_member_of(obj, key) {
        Some(m) => json_str_of(m),
        None => None,
    }
}

fn scalar_text(v: &serde_json::Value) -> (r: Option<String>)
    ensures
        opt_str_is(r, spec_scalar_text(*v)),
{
    match json_as_str(v) {
        Some(s) => Some(s),
        None => json_number_text(v),
    }
}

fn field_text(obj: &serde_json::Value, key: &str) -> (r: Option<String>)
    ensures
        opt_str_is(r, spec_field_text(*obj, key@)),
{
    match json_get(obj, key) {
        Some(v) => scalar_text(v),
        None => None,
    }
}

fn field_str(obj: &serde_json::Value, key: &str) -> (r: Option<String>)
    ensures
        opt_str_is(r, spec_field_str(*obj, key@)),
{
    match json_get(obj, key) {
        Some(v) => json_as_str(v),
        None => None,
    }
}

/// Whether a stream's declared type is `kind`.
pub open spec fn spec_stream_is(v: serde_json::Value, kind: Seq<char>) -> bool {
    spec_field_str(v, "codec_type"@) == Some(kind)
}

/// The first stream of the declared type, if any.
pub open spec fn spec_find_stream(streams: Seq<serde_json::Value>, kind: Seq<char>) -> Option<
    serde_json::Value,
>
    decreases streams.len(),
{
    if streams.len() == 0 {
        None
    } else if spec_stream_is(streams[0], kind) {
        Some(streams[0])
    } else {
        spec_find_stream(streams.drop_first(), kind)
    }
}

/// Finds the first stream whose declared type matches `kind`, exactly as
/// `spec_find_stream` says.
fn find_stream<'a>(streams: &'a Vec<serde_json::Value>, kind: &str) -> (r: Option<
    &'a serde_json::Value,
>)
    ensures
        match r {
            Some(s) => spec_find_stream(streams@, kind@) == Some(*s),
            None => spec_find_stream(streams@, kind@) is None,
        },
{
    let mut i: usize = 0;
    proof {
        assert(streams@.skip(0) =~= streams@);
    }
    while i < streams.len()
        invariant
            i <= streams@.len(),
            spec_find_stream(streams@, kind@) == spec_find_stream(
                streams@.skip(i as int),
                kind@,
            ),
        decreases streams@.len() - i,
    {
        let s = &streams[i];
        proof {
            assert(streams@.skip(i as int)[0] == streams@[i as int]);
            assert(streams@.skip(i as int).drop_first() =~= streams@.skip(i + 1));
        }
        let matched = match field_str(s, "codec_type") {
            Some(t) => str_eq(t.as_str(), kind),
            None => false,
        };
        if matched {
            return Some(s);
        }
        proof {
            assert(!spec_stream_is(streams@[i as int], kind@));
        }
        i += 1;
    }
    proof {
        assert(streams@.skip(streams@.len() as int) =~= Seq::<serde_json::Value>::empty());
    }
    None
}

/// How a flattened format record relates to the `format` member.
pub open spec fn raw_format_matches(r: RawFormat, v: Option<serde_json::Value>) -> bool {
    match v {
        Some(f) => {
            &&& opt_str_is(r.format_name, spec_field_str(f, "format_name"@))
            &&& opt_str_is(r.duration, spec_field_text(f, "duration"@))
            &&& opt_str_is(r.bit_rate, spec_field_text(f, "bit_rate"@))
            &&& opt_str_is(r.size, spec_field_text(f, "size"@))
        },
        None => {
            &&& r.format_name is None
            &&& r.duration is None
            &&& r.bit_rate is None
            &&& r.size is None
        },
    }
}

/// How a flattened video record relates to its stream.
pub open spec fn raw_video_matches(r: RawVideoStream, v: serde_json::Value) -> bool {
    &&& opt_str_is(r.codec_name, spec_field_str(v, "codec_name"@))
    &&& opt_str_is(r.profile, spec_field_str(v, "profile"@))
    &&& opt_str_is(r.width, spec_field_text(v, "width"@))
    &&& opt_str_is(r.height, spec_field_text(v, "height"@))
    &&& opt_str_is(r.pix_fmt, spec_field_str(v, "pix_fmt"@))
    &&& opt_str_is(r.color_space, spec_field_str(v, "color_space"@))
    &&& opt_str_is(r.color_range, spec_field_str(v, "color_range"@))
    &&& opt_str_is(r.color_transfer, spec_field_str(v, "color_transfer"@))
    &&& opt_str_is(r.color_primaries, spec_field_str(v, "color_primaries"@))
    &&& opt_str_is(r.bit_rate, spec_field_text(v, "bit_rate"@))
    &&& opt_str_is(r.avg_frame_rate, spec_field_str(v, "avg_frame_rate"@))
    &&& opt_str_is(r.r_frame_rate, spec_field_str(v, "r_frame_rate"@))
    &&& opt_str_is(r.nb_frames, spec_field_text(v, "nb_frames"@))
}

/// How a flattened audio record relates to its stream.
pub open spec fn raw_audio_matches(r: RawAudioStream, v: serde_json::Value) -> bool {
    &&& opt_str_is(r.codec_name, spec_field_str(v, "codec_name"@))
    &&& opt_str_is(r.channels, spec_field_text(v, "channels"@))
    &&& opt_str_is(r.sample_rate, spec_field_text(v, "sample_rate"@))
    &&& opt_str_is(r.bit_rate, spec_field_text(v, "bit_rate"@))
}

fn extract_format(v: Option<&serde_json::Value>) -> (r: RawFormat)
    ensures
        raw_format_matches(
            r,
            match v {
                Some(f) => Some(*f),
                None => None,
            },
        ),
{
    match v {
        Some(f) => RawFormat {
            format_name: field_str(f, "format_name"),
            duration: field_text(f, "duration"),
            bit_rate: field_text(f, "bit_rate"),
            size: field_text(f, "size"),
        },
        None => RawFormat { format_name: None, duration: None, bit_rate: None, size: None },
    }
}

fn extract_video(s: &serde_json::Value) -> (r: RawVideoStream)
    ensures
        raw_video_matches(r, *s),
{
    RawVideoStream {
        codec_name: field_str(s, "codec_name"),
        profile: field_str(s, "profile"),
        width: field_text(s, "width"),
        height: field_text(s, "height"),
        pix_fmt: field_str(s, "pix_fmt"),
        color_space: field_str(s, "color_space"),
        color_range: field_str(s, "color_range"),
        color_transfer: field_str(s, "color_transfer"),
        color_primaries: field_str(s, "color_primaries"),
        bit_rate: field_text(s, "bit_rate"),
        avg_frame_rate: field_str(s, "avg_frame_rate"),
        r_frame_rate: field_str(s, "r_frame_rate"),
        nb_frames: field_text(s, "nb_frames"),
    }
}

fn extract_audio(s: &serde_json::Value) -> (r: RawAudioStream)
    ensures
        raw_audio_matches(r, *s),
{
    RawAudioStream {
        codec_name: field_str(s, "codec_name"),
        channels: field_text(s, "channels"),
        sample_rate: field_text(s, "sample_rate"),
        bit_rate: field_text(s, "bit_rate"),
    }
}

/// The `format` member of the payload.
pub open spec fn spec_format_member(text: Seq<char>) -> Option<serde_json::Value> {
    json_member_of(json_doc_of(text), "format"@)
}

/// The elements of the payload's `streams` array; absence of the member or
/// a non-array value leaves no streams.
pub open spec fn spec_streams(text: Seq<char>) -> Seq<serde_json::Value> {
    match json_member_of(json_doc_of(text), "streams"@) {
        Some(s) => match json_elements_of(s) {
            Some(e) => e,
            None => Seq::empty(),
        },
        None => Seq::empty(),
    }
}

/// The payload's first video stream.
pub open spec fn spec_video_stream(text: Seq<char>) -> Option<serde_json::Value> {
    spec_find_stream(spec_streams(text), "video"@)
}

/// The payload's first audio stream.
pub open spec fn spec_audio_stream(text: Seq<char>) -> Option<serde_json::Value> {
    spec_find_stream(spec_streams(text), "audio"@)
}

/// A format field of the payload, read as text.
pub open spec fn spec_format_text(text: Seq<char>, key: Seq<char>) -> Option<Seq<char>> {
    match spec_format_member(text) {
        Some(f) => spec_field_text(f, key),
        None => None,
    }
}

/// The container duration of the payload, as an exact rational.
pub open spec fn spec_probe_duration(text: Seq<char>) -> Option<crate::numbers::Fraction> {
    parse_decimal_text(spec_format_text(text, "duration"@))
}

/// How a normalized video record relates to its stream and the payload's
/// duration: each field is the stated derivation of that stream's fields.
pub open spec fn video_info_matches(
    v: VideoStreamInfo,
    vs: serde_json::Value,
    text: Seq<char>,
) -> bool {
    &&& opt_str_is(v.codec_name, spec_field_str(vs, "codec_name"@))
    &&& opt_str_is(v.profile, spec_field_str(vs, "profile"@))
    &&& v.width == parse_u64_text(spec_field_text(vs, "width"@))
    &&& v.height == parse_u64_text(spec_field_text(vs, "height"@))
    &&& opt_str_is(v.pix_fmt, spec_field_str(vs, "pix_fmt"@))
    &&& opt_str_is(v.color_space, spec_field_str(vs, "color_space"@))
    &&& opt_str_is(v.color_range, spec_field_str(vs, "color_range"@))
    &&& opt_str_is(v.color_transfer, spec_field_str(vs, "color_transfer"@))
    &&& opt_str_is(v.color_primaries, spec_field_str(vs, "color_primaries"@))
    &&& v.bit_rate == parse_u64_text(spec_field_text(vs, "bit_rate"@))
    &&& opt_str_is(v.avg_frame_rate, spec_field_str(vs, "avg_frame_rate"@))
    &&& opt_str_is(v.r_frame_rate, spec_field_str(vs, "r_frame_rate"@))
    &&& v.fps == fps_of_texts(
        spec_field_str(vs, "avg_frame_rate"@),
        spec_field_str(vs, "r_frame_rate"@),
    )
    &&& v.frame_count == frame_count_of_texts(
        spec_field_text(vs, "nb_frames"@),
        spec_probe_duration(text),
        fps_of_texts(
            spec_field_str(vs, "avg_frame_rate"@),
            spec_field_str(vs, "r_frame_rate"@),
        ),
    )
}

/// How a normalized audio record relates to its stream.
pub open spec fn audio_info_matches(a: AudioStreamInfo, astream: serde_json::Value) -> bool {
    &&& opt_str_is(a.codec_name, spec_field_str(astream, "codec_name"@))
    &&& a.channels == parse_u64_text(spec_field_text(astream, "channels"@))
    &&& a.sample_rate == parse_u64_text(spec_field_text(astream, "sample_rate"@))
    &&& a.bit_rate == parse_u64_text(spec_field_text(astream, "bit_rate"@))
}

/// The whole normalization contract of a parsed payload: container fields
/// from the `format` member, the size falling back to the operating
/// system's report, the video fields derived from the first stream whose
/// declared type is `video`, the audio fields independently from the first
/// `audio` stream, and the absence of either stream leaving that record
/// absent.
pub open spec fn probe_info_matches(m: MediaInfo, text: Seq<char>, os_size: Option<u64>) -> bool {
    &&& opt_str_is(m.container.format_name, spec_format_text_str(text))
    &&& m.container.duration == spec_probe_duration(text)
    &&& m.container.bitrate == parse_u64_text(spec_format_text(text, "bit_rate"@))
    &&& m.size_bytes == (match parse_u64_text(spec_format_text(text, "size"@)) {
        Some(v) => Some(v),
        None => os_size,
    })
    &&& (match spec_video_stream(text) {
        Some(vs) => match m.video {
            Some(v) => video_info_matches(v, vs, text),
            None => false,
        },
        None => m.video is None,
    })
    &&& (match spec_audio_stream(text) {
        Some(astream) => match m.audio {
            Some(a) => audio_info_matches(a, astream),
            None => false,
        },
        None => m.audio is None,
    })
}

/// The container's format name, read as a string.
pub open spec fn spec_format_text_str(text: Seq<char>) -> Option<Seq<char>> {
    match spec_format_member(text) {
        Some(f) => spec_field_str(f, "format_name"@),
        None => None,
    }
}

proof fn lemma_text_parse_bridge(x: Option<String>, t: Option<Seq<char>>)
    requires
        opt_str_is(x, t),
    ensures
        crate::media::opt_parse_u64(x) == parse_u64_text(t),
        crate::media::opt_parse_decimal(x) == parse_decimal_text(t),
        crate::media::opt_parse_fraction(x) == parse_fraction_text(t),
{
}

/// Parses the prober's JSON payload into a normalized record for `file`:
/// the record exists exactly when the payload is a JSON document, and then
/// every field is the stated derivation (`probe_info_matches`) of the
/// payload's `format` member and its first video and audio streams.
/// `os_size` is the operating system's size report for the file, used when
/// the container reports none.
pub fn parse_probe_output(file: String, text: &str, os_size: Option<u64>) -> (r: Result<
    MediaInfo,
    String,
>)
    ensures
        r is Ok <==> json_parses(text@),
        match r {
            Ok(m) => m.file == file && probe_info_matches(m, text@, os_size),
            Err(e) => exists|diag: Seq<char>|
                e@ == "Failed to parse ffprobe output: "@ + diag,
        },
{
    let json = match json_parse(text) {
        Ok(v) => v,
        Err(e) => {
            let mut msg = ("Failed to parse ffprobe output: ").to_owned();
            let detail = json_error_text(&e);
            msg.append(detail.as_str());
            proof {
                assert(msg@ == "Failed to parse ffprobe output: "@ + detail@);
            }
            return Err(msg);
        },
    };
    let fmt = extract_format(json_get(&json, "format"));
    let mut video: Option<RawVideoStream> = None;
    let mut audio: Option<RawAudioStream> = None;
    match json_get(&json, "streams") {
        Some(sv) => match json_as_array(sv) {
            Some(arr) => {
                proof {
                    assert(spec_streams(text@) == arr@);
                }
                video = match find_stream(arr, "video") {
                    Some(s) => Some(extract_video(s)),
                    None => None,
                };
                audio = match find_stream(arr, "audio") {
                    Some(s) => Some(extract_audio(s)),
                    None => None,
                };
            },
            None => {
                proof {
                    assert(spec_streams(text@) =~= Seq::<serde_json::Value>::empty());
                }
            },
        },
        None => {
            proof {
                assert(spec_streams(text@) =~= Seq::<serde_json::Value>::empty());
            }
        },
    }
    let ghost raw_video = video;
    let ghost raw_audio = audio;
    let ghost raw_fmt = fmt;
    let m = media_info_from_raw(file, fmt, video, audio, os_size);
    proof {
        lemma_text_parse_bridge(raw_fmt.duration, spec_format_text(text@, "duration"@));
        lemma_text_parse_bridge(raw_fmt.bit_rate, spec_format_text(text@, "bit_rate"@));
        lemma_text_parse_bridge(raw_fmt.size, spec_format_text(text@, "size"@));
        match spec_video_stream(text@) {
            Some(vs) => {
                let rv = raw_video->Some_0;
                lemma_text_parse_bridge(rv.width, spec_field_text(vs, "width"@));
                lemma_text_parse_bridge(rv.height, spec_field_text(vs, "height"@));
                lemma_text_parse_bridge(rv.bit_rate, spec_field_text(vs, "bit_rate"@));
                lemma_text_parse_bridge(rv.nb_frames, spec_field_text(vs, "nb_frames"@));
                lemma_text_parse_bridge(
                    rv.avg_frame_rate,
                    spec_field_str(vs, "avg_frame_rate"@),
                );
                lemma_text_parse_bridge(rv.r_frame_rate, spec_field_str(vs, "r_frame_rate"@));
            },
            None => {},
        }
        match spec_audio_stream(text@) {
            Some(astream) => {
                let ra = raw_audio->Some_0;
                lemma_text_parse_bridge(ra.channels, spec_field_text(astream, "channels"@));
                lemma_text_parse_bridge(
                    ra.sample_rate,
                    spec_field_text(astream, "sample_rate"@),
                );
                lemma_text_parse_bridge(ra.bit_rate, spec_field_text(astream, "bit_rate"@));
            },
            None => {},
        }
    }
    Ok(m)
}

} // verus!
