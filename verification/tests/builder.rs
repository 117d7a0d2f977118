use video_tool::assemble::plan_export;
use video_tool::filters::BuildError;
use video_tool::filters::ExportParams;
use video_tool::numbers::Fraction;
use video_tool::registry::JobRegistry;

fn base_params() -> ExportParams {
    ExportParams {
        input_path_a: Some("a.mp4".to_string()),
        input_path_b: None,
        export_mode: "input-a".to_string(),
        output_path: "out.mp4".to_string(),
        codec: "h264".to_string(),
        crf: 23,
        resize_width: None,
        resize_height: None,
        keep_aspect: false,
        fps: None,
        trim_start_frame: None,
        trim_end_frame: None,
        label_a: None,
        label_b: None,
        audio_copy: false,
        stack_height: None,
    }
}

fn strings(args: &[String]) -> Vec<&str> {
    args.iter().map(|s| s.as_str()).collect()
}

#[test]
fn scenario_single_input_chain() {
    let mut p = base_params();
    p.fps = Some(Fraction { num: 24, den: 1 });
    p.resize_width = Some(1280);
    let taken: Vec<String> = Vec::new();
    let cmd = plan_export("ffmpeg", &p, &taken).unwrap();
    assert_eq!(
        strings(&cmd.args),
        vec![
            "-i",
            "a.mp4",
            "-vf",
            "fps=fps=24,scale=1280:-1:flags=lanczos",
            "-c:v",
            "libx264",
            "-crf",
            "23",
            "-c:a",
            "aac",
            "-y",
            "-progress",
            "pipe:1",
            "-nostats",
            "out.mp4",
        ]
    );
    assert_eq!(cmd.output_path, "out.mp4");
    assert_eq!(
        cmd.command,
        "ffmpeg -i a.mp4 -vf fps=fps=24,scale=1280:-1:flags=lanczos -c:v libx264 \
         -crf 23 -c:a aac -y -progress pipe:1 -nostats out.mp4"
    );
}

#[test]
fn missing_input_a_rejected_before_any_registration() {
    let mut p = base_params();
    p.input_path_a = None;
    let taken: Vec<String> = Vec::new();
    let registry = JobRegistry::new();
    let r = plan_export("ffmpeg", &p, &taken);
    assert_eq!(r.err(), Some(BuildError::MissingInputA));
    assert_eq!(registry.len(), 0);
}

#[test]
fn empty_input_counts_as_missing() {
    let mut p = base_params();
    p.input_path_a = Some(String::new());
    let taken: Vec<String> = Vec::new();
    let r = plan_export("ffmpeg", &p, &taken);
    assert_eq!(r.err(), Some(BuildError::MissingInputA));
}

#[test]
fn side_by_side_requires_second_input() {
    let mut p = base_params();
    p.export_mode = "side-by-side".to_string();
    let taken: Vec<String> = Vec::new();
    let r = plan_export("ffmpeg", &p, &taken);
    assert_eq!(r.err(), Some(BuildError::MissingInputB));
}

#[test]
fn input_b_mode_requires_input_b() {
    let mut p = base_params();
    p.export_mode = "input-b".to_string();
    p.input_path_a = Some("a.mp4".to_string());
    let taken: Vec<String> = Vec::new();
    let e = plan_export("ffmpeg", &p, &taken).err().unwrap();
    assert_eq!(e, BuildError::MissingInputB);
    assert_eq!(e.message(), "Input B is required.");
}

#[test]
fn unknown_mode_rejected() {
    let mut p = base_params();
    p.export_mode = "both".to_string();
    let taken: Vec<String> = Vec::new();
    let e = plan_export("ffmpeg", &p, &taken).err().unwrap();
    assert_eq!(e, BuildError::UnknownMode);
    assert_eq!(e.message(), "Unknown export mode.");
}

#[test]
fn reversed_trim_clamps_to_start_frame() {
    let mut p = base_params();
    p.trim_start_frame = Some(10);
    p.trim_end_frame = Some(5);
    let taken: Vec<String> = Vec::new();
    let cmd = plan_export("ffmpeg", &p, &taken).unwrap();
    let s = strings(&cmd.args);
    assert!(s.contains(&"select=between(n\\,10\\,10),setpts=N/FRAME_RATE/TB"));
    assert!(s.contains(&"-vsync"));
    assert!(s.contains(&"vfr"));
}

#[test]
fn trim_without_start_defaults_to_zero() {
    let mut p = base_params();
    p.trim_end_frame = Some(100);
    let taken: Vec<String> = Vec::new();
    let cmd = plan_export("ffmpeg", &p, &taken).unwrap();
    let s = strings(&cmd.args);
    assert!(s.contains(&"select=between(n\\,0\\,100),setpts=N/FRAME_RATE/TB"));
}

#[test]
fn no_filters_means_no_filter_argument() {
    let p = base_params();
    let taken: Vec<String> = Vec::new();
    let cmd = plan_export("ffmpeg", &p, &taken).unwrap();
    let s = strings(&cmd.args);
    assert!(!s.contains(&"-vf"));
    assert!(!s.contains(&"-vsync"));
    assert_eq!(
        s,
        vec![
            "-i", "a.mp4", "-c:v", "libx264", "-crf", "23", "-c:a", "aac", "-y", "-progress",
            "pipe:1", "-nostats", "out.mp4",
        ]
    );
}

#[test]
fn h265_selects_hevc_encoder() {
    let mut p = base_params();
    p.codec = "h265".to_string();
    let taken: Vec<String> = Vec::new();
    let cmd = plan_export("ffmpeg", &p, &taken).unwrap();
    let s = strings(&cmd.args);
    assert!(s.contains(&"libx265"));
    assert!(!s.contains(&"libx264"));
}

#[test]
fn unrecognized_codec_defaults_to_avc() {
    let mut p = base_params();
    p.codec = "vp9".to_string();
    let taken: Vec<String> = Vec::new();
    let cmd = plan_export("ffmpeg", &p, &taken).unwrap();
    assert!(strings(&cmd.args).contains(&"libx264"));
}

#[test]
fn audio_copy_passthrough() {
    let mut p = base_params();
    p.audio_copy = true;
    let taken: Vec<String> = Vec::new();
    let cmd = plan_export("ffmpeg", &p, &taken).unwrap();
    let s = strings(&cmd.args);
    let i = s.iter().position(|a| *a == "-c:a").unwrap();
    assert_eq!(s[i + 1], "copy");
    assert!(!s.contains(&"0:a?"));
}

#[test]
fn keep_aspect_constrains_scale() {
    let mut p = base_params();
    p.resize_height = Some(720);
    p.keep_aspect = true;
    let taken: Vec<String> = Vec::new();
    let cmd = plan_export("ffmpeg", &p, &taken).unwrap();
    assert!(strings(&cmd.args)
        .contains(&"scale=-1:720:flags=lanczos:force_original_aspect_ratio=decrease"));
}

#[test]
fn fractional_rate_renders_as_fraction() {
    let mut p = base_params();
    p.fps = Some(Fraction {
        num: 30000,
        den: 1001,
    });
    let taken: Vec<String> = Vec::new();
    let cmd = plan_export("ffmpeg", &p, &taken).unwrap();
    assert!(strings(&cmd.args).contains(&"fps=fps=30000/1001"));
}

#[test]
fn input_b_mode_uses_second_input_and_label() {
    let mut p = base_params();
    p.export_mode = "input-b".to_string();
    p.input_path_a = None;
    p.input_path_b = Some("b.mp4".to_string());
    p.label_b = Some("right side".to_string());
    let taken: Vec<String> = Vec::new();
    let cmd = plan_export("ffmpeg", &p, &taken).unwrap();
    let s = strings(&cmd.args);
    assert_eq!(s[0], "-i");
    assert_eq!(s[1], "b.mp4");
    let i = s.iter().position(|a| *a == "-vf").unwrap();
    assert!(s[i + 1].contains("drawtext="));
    assert!(s[i + 1].contains("text='right side'"));
}

#[test]
fn side_by_side_builds_composition_graph() {
    let mut p = base_params();
    p.export_mode = "side-by-side".to_string();
    p.input_path_b = Some("b.mp4".to_string());
    p.stack_height = Some(720);
    p.audio_copy = true;
    let taken: Vec<String> = Vec::new();
    let cmd = plan_export("ffmpeg", &p, &taken).unwrap();
    let s = strings(&cmd.args);
    assert_eq!(&s[0..4], &["-i", "a.mp4", "-i", "b.mp4"]);
    let i = s.iter().position(|a| *a == "-filter_complex").unwrap();
    assert_eq!(
        s[i + 1],
        "[0:v]scale=-2:720:flags=lanczos[left];[1:v]scale=-2:720:flags=lanczos[right];\
         [left][right]hstack=inputs=2[vout]"
    );
    assert_eq!(&s[i + 2..i + 6], &["-map", "[vout]", "-map", "0:a?"]);
}

#[test]
fn side_by_side_keeps_two_stack_inputs_with_empty_side() {
    let mut p = base_params();
    p.export_mode = "side-by-side".to_string();
    p.input_path_b = Some("b.mp4".to_string());
    p.label_a = Some("L".to_string());
    let taken: Vec<String> = Vec::new();
    let cmd = plan_export("ffmpeg", &p, &taken).unwrap();
    let s = strings(&cmd.args);
    let i = s.iter().position(|a| *a == "-filter_complex").unwrap();
    let graph = s[i + 1];
    assert!(graph.contains("[left];"));
    assert!(graph.contains("[1:v]null[right];"));
    assert!(graph.ends_with("[left][right]hstack=inputs=2[vout]"));
}
