use video_tool::progress::completion_event;
use video_tool::progress::error_tail;
use video_tool::progress::split_once_eq;
use video_tool::progress::ProgressTracker;
use video_tool::registry::fresh_job_id;
use video_tool::registry::CancelOutcome;
use video_tool::registry::ExportJob;
use video_tool::registry::JobRegistry;

fn job(cmd: &str) -> ExportJob {
    ExportJob {
        command: cmd.to_string(),
        output_path: "out.mp4".to_string(),
    }
}

#[test]
fn cancelling_unknown_job_is_benign() {
    let registry = JobRegistry::new();
    assert_eq!(registry.cancel_action("no-such-id"), CancelOutcome::NothingToCancel);
}

#[test]
fn cancelling_registered_job_kills_it() {
    let mut registry = JobRegistry::new();
    assert!(registry.insert("id-1", job("ffmpeg ...")));
    assert_eq!(registry.cancel_action("id-1"), CancelOutcome::Kill);
}

#[test]
fn registry_insert_remove_roundtrip() {
    let mut registry = JobRegistry::new();
    assert_eq!(registry.len(), 0);
    assert!(registry.insert("id-1", job("one")));
    assert!(registry.insert("id-2", job("two")));
    assert!(!registry.insert("id-1", job("dup")));
    assert_eq!(registry.len(), 2);
    assert!(registry.contains("id-1"));
    assert_eq!(registry.lookup("id-1").unwrap().command, "one");
    let removed = registry.remove("id-1").unwrap();
    assert_eq!(removed.command, "one");
    assert!(registry.remove("id-1").is_none());
    assert_eq!(registry.len(), 1);
}

#[test]
fn job_identifiers_are_long_and_distinct() {
    let a = fresh_job_id();
    let b = fresh_job_id();
    assert_eq!(a.chars().count(), 36);
    assert_ne!(a, b);
}

#[test]
fn progress_lines_track_time_and_emit_on_boundary() {
    let mut t = ProgressTracker::new();
    assert!(t.feed_line("frame=10").is_none());
    assert!(t.feed_line("out_time_ms=1500000").is_none());
    let u = t.feed_line("progress=continue").unwrap();
    assert_eq!(u.token, "continue");
    assert_eq!(u.out_time_ms, Some(1500000));
    let end = t.feed_line("progress=end").unwrap();
    assert_eq!(end.token, "end");
    assert_eq!(end.out_time_ms, Some(1500000));
}

#[test]
fn unparsable_time_clears_the_tracked_value() {
    let mut t = ProgressTracker::new();
    assert!(t.feed_line("out_time_ms=42").is_none());
    assert!(t.feed_line("out_time_ms=N/A").is_none());
    let u = t.feed_line("progress=continue").unwrap();
    assert_eq!(u.out_time_ms, None);
}

#[test]
fn lines_without_separator_are_ignored() {
    let mut t = ProgressTracker::new();
    assert!(t.feed_line("just some text").is_none());
    assert_eq!(split_once_eq("no separator here"), None);
    let kv = split_once_eq("key=a=b").unwrap();
    assert_eq!(kv.0, "key");
    assert_eq!(kv.1, "a=b");
}

#[test]
fn error_tail_keeps_the_last_eight_lines() {
    let mut buf = String::new();
    for i in 1..=20 {
        buf.push_str(&format!("line {}\n", i));
    }
    let tail = error_tail(&buf).unwrap();
    let expected: Vec<String> = (13..=20).map(|i| format!("line {}", i)).collect();
    assert_eq!(tail, expected.join("\n"));
}

#[test]
fn error_tail_trims_and_handles_short_buffers() {
    assert_eq!(error_tail("  \n \t "), None);
    assert_eq!(error_tail(""), None);
    assert_eq!(error_tail("  one error \n"), Some("one error".to_string()));
    assert_eq!(error_tail("a\r\nb\r\n"), Some("a\nb".to_string()));
    assert_eq!(error_tail("\u{00A0}x\u{00A0}"), Some("x".to_string()));
}

#[test]
fn failed_exit_emits_one_terminal_error_event() {
    let mut buf = String::new();
    for i in 1..=20 {
        buf.push_str(&format!("line {}\n", i));
    }
    let ev = completion_event("id-1", false, &buf).unwrap();
    assert_eq!(ev.export_id, "id-1");
    assert_eq!(ev.progress, "error");
    assert_eq!(ev.out_time_ms, None);
    let expected: Vec<String> = (13..=20).map(|i| format!("line {}", i)).collect();
    assert_eq!(ev.message, Some(expected.join("\n")));
}

#[test]
fn successful_exit_emits_nothing_further() {
    assert!(completion_event("id-1", true, "noise on stderr").is_none());
}

#[test]
fn failure_with_blank_buffer_has_no_message() {
    let ev = completion_event("id-1", false, "   ").unwrap();
    assert_eq!(ev.progress, "error");
    assert_eq!(ev.message, None);
}
