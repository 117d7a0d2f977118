use video_tool::outpath::candidate_path;
use video_tool::outpath::unique_output_path;

fn taken(paths: &[&str]) -> Vec<String> {
    paths.iter().map(|p| p.to_string()).collect()
}

#[test]
fn free_path_is_returned_unchanged() {
    let t = taken(&[]);
    assert_eq!(unique_output_path("video.mp4", &t), "video.mp4");
}

#[test]
fn first_collision_gets_counter_one() {
    let t = taken(&["video.mp4"]);
    assert_eq!(unique_output_path("video.mp4", &t), "video (1).mp4");
}

#[test]
fn second_collision_gets_counter_two() {
    let t = taken(&["video.mp4", "video (1).mp4"]);
    assert_eq!(unique_output_path("video.mp4", &t), "video (2).mp4");
}

#[test]
fn counter_sits_before_the_extension() {
    assert_eq!(candidate_path("video.mp4", 3), "video (3).mp4");
    assert_eq!(candidate_path("a.b.c", 1), "a.b (1).c");
}

#[test]
fn directory_prefix_is_preserved() {
    let t = taken(&["clips/video.mp4"]);
    assert_eq!(unique_output_path("clips/video.mp4", &t), "clips/video (1).mp4");
    let t2 = taken(&["C:\\out\\video.mp4"]);
    assert_eq!(unique_output_path("C:\\out\\video.mp4", &t2), "C:\\out\\video (1).mp4");
}

#[test]
fn name_without_extension_gets_plain_counter() {
    let t = taken(&["video"]);
    assert_eq!(unique_output_path("video", &t), "video (1)");
}

#[test]
fn leading_dot_is_not_an_extension() {
    assert_eq!(candidate_path(".config", 1), ".config (1)");
}

#[test]
fn exhausted_search_falls_back_to_the_request() {
    let mut all: Vec<String> = vec!["v.mp4".to_string()];
    for i in 1..1000 {
        all.push(format!("v ({}).mp4", i));
    }
    assert_eq!(unique_output_path("v.mp4", &all), "v.mp4");
}
