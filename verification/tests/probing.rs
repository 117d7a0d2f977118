use video_tool::media::fps_of;
use video_tool::media::frame_count_of;
use video_tool::numbers::parse_decimal;
use video_tool::numbers::parse_fraction;
use video_tool::numbers::parse_u64_str;
use video_tool::numbers::Fraction;
use video_tool::probe::parse_probe_output;

#[test]
fn degenerate_fractions_are_unknown() {
    assert_eq!(parse_fraction("0/0"), None);
    assert_eq!(parse_fraction("30/0"), None);
    assert_eq!(parse_fraction("30000"), None);
    assert_eq!(parse_fraction("a/b"), None);
}

#[test]
fn ntsc_rate_parses_close_to_thirty() {
    let f = parse_fraction("30000/1001").unwrap();
    assert_eq!(f, Fraction { num: 30000, den: 1001 });
    let value = f.num as f64 / f.den as f64;
    assert!((value - 29.97).abs() < 0.01);
}

#[test]
fn invalid_average_rate_falls_back_to_real_base() {
    let avg = Some("0/0".to_string());
    let rbase = Some("25/1".to_string());
    assert_eq!(fps_of(&avg, &rbase), Some(Fraction { num: 25, den: 1 }));
    let both_bad = fps_of(&Some("x".to_string()), &Some("0/0".to_string()));
    assert_eq!(both_bad, None);
    let avg_wins = fps_of(&Some("24/1".to_string()), &Some("25/1".to_string()));
    assert_eq!(avg_wins, Some(Fraction { num: 24, den: 1 }));
}

#[test]
fn integers_parse_with_bounds() {
    assert_eq!(parse_u64_str("1234"), Some(1234));
    assert_eq!(parse_u64_str("+5"), Some(5));
    assert_eq!(parse_u64_str("18446744073709551615"), Some(u64::MAX));
    assert_eq!(parse_u64_str("18446744073709551616"), None);
    assert_eq!(parse_u64_str(""), None);
    assert_eq!(parse_u64_str("12.5"), None);
    assert_eq!(parse_u64_str("-3"), None);
}

#[test]
fn decimals_become_exact_rationals() {
    assert_eq!(parse_decimal("2.0"), Some(Fraction { num: 20, den: 10 }));
    assert_eq!(parse_decimal("0.5"), Some(Fraction { num: 5, den: 10 }));
    assert_eq!(parse_decimal(".5"), Some(Fraction { num: 5, den: 10 }));
    assert_eq!(parse_decimal("7"), Some(Fraction { num: 7, den: 1 }));
    assert_eq!(parse_decimal("1."), Some(Fraction { num: 1, den: 1 }));
    assert_eq!(parse_decimal("1e3"), None);
    assert_eq!(parse_decimal(""), None);
    assert_eq!(parse_decimal("."), None);
}

#[test]
fn explicit_frame_count_wins() {
    let nb = Some("300".to_string());
    let d = Some(Fraction { num: 2, den: 1 });
    let f = Some(Fraction { num: 25, den: 1 });
    assert_eq!(frame_count_of(&nb, d, f), Some(300));
}

#[test]
fn derived_frame_count_rounds_half_up() {
    let d = Some(Fraction { num: 5, den: 10 });
    let f = Some(Fraction { num: 25, den: 1 });
    assert_eq!(frame_count_of(&None, d, f), Some(13));
    let exact = frame_count_of(&None, Some(Fraction { num: 2, den: 1 }), f);
    assert_eq!(exact, Some(50));
    assert_eq!(frame_count_of(&None, None, f), None);
    assert_eq!(frame_count_of(&None, d, None), None);
}

#[test]
fn probe_payload_is_normalized() {
    let text = r#"{
        "format": {"format_name": "mp4", "duration": "2.0", "bit_rate": "1000", "size": "2048"},
        "streams": [
            {"codec_type": "data"},
            {"codec_type": "video", "codec_name": "h264", "width": 640, "height": 480,
             "pix_fmt": "yuv420p", "avg_frame_rate": "30000/1001", "r_frame_rate": "30/1",
             "nb_frames": "300", "bit_rate": 900},
            {"codec_type": "audio", "codec_name": "aac", "channels": 2,
             "sample_rate": "48000", "bit_rate": 64000},
            {"codec_type": "video", "codec_name": "ignored-second-stream"}
        ]
    }"#;
    let info = parse_probe_output("clip.mp4".to_string(), text, Some(4096)).unwrap();
    assert_eq!(info.file, "clip.mp4");
    assert_eq!(info.size_bytes, Some(2048));
    assert_eq!(info.container.format_name.as_deref(), Some("mp4"));
    assert_eq!(info.container.duration, Some(Fraction { num: 20, den: 10 }));
    assert_eq!(info.container.bitrate, Some(1000));
    let v = info.video.unwrap();
    assert_eq!(v.codec_name.as_deref(), Some("h264"));
    assert_eq!(v.width, Some(640));
    assert_eq!(v.height, Some(480));
    assert_eq!(v.bit_rate, Some(900));
    assert_eq!(v.fps, Some(Fraction { num: 30000, den: 1001 }));
    assert_eq!(v.frame_count, Some(300));
    let a = info.audio.unwrap();
    assert_eq!(a.codec_name.as_deref(), Some("aac"));
    assert_eq!(a.channels, Some(2));
    assert_eq!(a.sample_rate, Some(48000));
    assert_eq!(a.bit_rate, Some(64000));
}

#[test]
fn probe_derives_frame_count_when_absent() {
    let text = r#"{
        "format": {"duration": "2.0"},
        "streams": [{"codec_type": "video", "avg_frame_rate": "25/1"}]
    }"#;
    let info = parse_probe_output("c.mp4".to_string(), text, None).unwrap();
    let v = info.video.unwrap();
    assert_eq!(v.fps, Some(Fraction { num: 25, den: 1 }));
    assert_eq!(v.frame_count, Some(50));
}

#[test]
fn probe_size_falls_back_to_the_file_system() {
    let text = r#"{"format": {}, "streams": []}"#;
    let info = parse_probe_output("c.mp4".to_string(), text, Some(777)).unwrap();
    assert_eq!(info.size_bytes, Some(777));
    assert!(info.video.is_none());
    assert!(info.audio.is_none());
}

#[test]
fn unparsable_payload_is_an_error() {
    let r = parse_probe_output("c.mp4".to_string(), "not json", None);
    let e = r.err().unwrap();
    assert!(e.starts_with("Failed to parse ffprobe output: "));
}

#[test]
fn degenerate_average_rate_in_payload_falls_back() {
    let text = r#"{
        "format": {},
        "streams": [{"codec_type": "video", "avg_frame_rate": "0/0", "r_frame_rate": "24/1"}]
    }"#;
    let info = parse_probe_output("c.mp4".to_string(), text, None).unwrap();
    assert_eq!(info.video.unwrap().fps, Some(Fraction { num: 24, den: 1 }));
}
