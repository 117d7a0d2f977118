use video_tool::command::build_command_string;
use video_tool::command::format_arg;
use video_tool::escape::escape_drawtext;
use video_tool::escape::label_filters;

#[test]
fn escape_neutralizes_each_sensitive_character() {
    assert_eq!(escape_drawtext("a:b\\c%d'e"), "a\\:b\\\\c\\%d\\'e");
}

#[test]
fn escape_leaves_plain_text_alone() {
    assert_eq!(escape_drawtext("plain text 123"), "plain text 123");
    assert_eq!(escape_drawtext(""), "");
}

#[test]
fn escape_doubles_backslashes_only_once() {
    assert_eq!(escape_drawtext("\\:"), "\\\\\\:");
    assert_eq!(escape_drawtext("%%"), "\\%\\%");
}

#[test]
fn format_arg_quotes_an_argument_with_a_space() {
    assert_eq!(format_arg("my file.mp4"), "\"my file.mp4\"");
}

#[test]
fn format_arg_escapes_embedded_quotes_when_quoting() {
    assert_eq!(format_arg("say \"hi\" now"), "\"say \\\"hi\\\" now\"");
}

#[test]
fn format_arg_leaves_spaceless_arguments_bare() {
    assert_eq!(format_arg("-nostats"), "-nostats");
    assert_eq!(format_arg("a\"b"), "a\"b");
}

#[test]
fn command_string_joins_with_single_spaces() {
    let args = vec![
        "-i".to_string(),
        "my file.mp4".to_string(),
        "-y".to_string(),
    ];
    assert_eq!(
        build_command_string("C:\\tools\\ffmpeg.exe", &args),
        "C:\\tools\\ffmpeg.exe -i \"my file.mp4\" -y"
    );
}

#[test]
fn command_string_quotes_executable_with_space() {
    let args: Vec<String> = Vec::new();
    assert_eq!(
        build_command_string("C:\\Program Files\\ffmpeg.exe", &args),
        "\"C:\\Program Files\\ffmpeg.exe\""
    );
}

#[test]
fn label_filters_build_band_and_text() {
    let fs = label_filters("My Label");
    assert_eq!(fs.len(), 2);
    assert_eq!(
        fs[0],
        "drawbox=x=0:y=ih*0.86:w=iw:h=ih*0.14:color=black@0.45:t=fill"
    );
    assert_eq!(
        fs[1],
        "drawtext=font='Segoe UI':text='My Label':fontcolor=white:fontsize=h*0.055:\
         x=(w-text_w)/2:y=h-(text_h*1.6)"
    );
}

#[test]
fn label_filters_trim_and_escape() {
    let fs = label_filters("  a:b  ");
    assert_eq!(fs.len(), 2);
    assert!(fs[1].contains("text='a\\:b'"));
}

#[test]
fn blank_label_yields_no_filters() {
    assert!(label_filters("").is_empty());
    assert!(label_filters("   \t ").is_empty());
    assert!(label_filters("\u{00A0}\u{3000}\u{2003}").is_empty());
}

#[test]
fn unicode_whitespace_is_trimmed_from_labels() {
    let fs = label_filters("\u{00A0}hi\u{3000}");
    assert_eq!(fs.len(), 2);
    assert!(fs[1].contains("text='hi'"));
}
