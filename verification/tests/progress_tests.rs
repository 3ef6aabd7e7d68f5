use sstc::progress::{FFmpegProgress, ProgressParser};

fn pairs(kv: &[(&str, &str)]) -> Vec<(String, String)> {
    kv.iter().map(|(k, v)| (k.to_string(), v.to_string())).collect()
}

#[test]
fn progress_stream_yields_two_snapshots_and_terminates() {
    let mut parser = ProgressParser::new();
    let lines = ["frame=10", "progress=continue", "frame=20", "out_time_ms=2000000", "progress=end"];
    let mut snapshots = Vec::new();
    for line in lines {
        if let Some(snap) = parser.push_line(line) {
            snapshots.push(snap);
        }
        if parser.finished {
            break;
        }
    }
    assert_eq!(snapshots.len(), 2);
    assert_eq!(snapshots[0].frame, Some(10));
    assert_eq!(snapshots[0].progress.as_deref(), Some("continue"));
    assert!(!snapshots[0].is_complete());
    assert_eq!(snapshots[1].frame, Some(20));
    assert_eq!(snapshots[1].elapsed_seconds(), Some(2));
    assert_eq!(snapshots[1].progress.as_deref(), Some("end"));
    assert!(snapshots[1].is_complete());
    assert!(parser.finished);
}

#[test]
fn finalize_clears_the_working_record() {
    let mut parser = ProgressParser::new();
    assert!(parser.push_line("frame=5").is_none());
    let first = parser.push_line("progress=continue").unwrap();
    assert_eq!(first.frame, Some(5));
    // the next cycle must not remember the old frame
    let second = parser.push_line("progress=continue").unwrap();
    assert_eq!(second.frame, None);
}

#[test]
fn blank_and_malformed_lines_are_ignored() {
    let mut parser = ProgressParser::new();
    assert!(parser.push_line("").is_none());
    assert!(parser.push_line("   ").is_none());
    assert!(parser.push_line("no equals sign here").is_none());
    let snap = parser.push_line("progress=continue").unwrap();
    assert_eq!(snap.frame, None);
    assert!(!parser.finished);
}

#[test]
fn lines_are_trimmed_before_splitting() {
    let mut parser = ProgressParser::new();
    assert!(parser.push_line("  frame=42\r\n").is_none());
    let snap = parser.push_line("progress=end").unwrap();
    assert_eq!(snap.frame, Some(42));
    assert!(parser.finished);
}

#[test]
fn from_key_values_parses_each_known_field() {
    let p = FFmpegProgress::from_key_values(&pairs(&[
        ("frame", "123"),
        ("fps", "29.97"),
        ("stream_0_0_q", "28.0"),
        ("bitrate", "1024.2kbits/s"),
        ("total_size", "5000000"),
        ("out_time_us", "1500000"),
        ("out_time_ms", "1500000"),
        ("out_time", "00:00:01.500000"),
        ("dup_frames", "0"),
        ("drop_frames", "2"),
        ("speed", "1.01x"),
        ("progress", "continue"),
        ("unknown_key", "whatever"),
    ]));
    assert_eq!(p.frame, Some(123));
    assert_eq!(p.fps.as_deref(), Some("29.97"));
    assert_eq!(p.stream_0_0_q.as_deref(), Some("28.0"));
    assert_eq!(p.bitrate.as_deref(), Some("1024.2kbits/s"));
    assert_eq!(p.total_size, Some(5000000));
    assert_eq!(p.out_time_us, Some(1500000));
    assert_eq!(p.out_time_ms, Some(1500000));
    assert_eq!(p.out_time.as_deref(), Some("00:00:01.500000"));
    assert_eq!(p.dup_frames, Some(0));
    assert_eq!(p.drop_frames, Some(2));
    assert_eq!(p.speed.as_deref(), Some("1.01x"));
    assert_eq!(p.progress.as_deref(), Some("continue"));
}

#[test]
fn later_pair_with_the_same_key_wins() {
    let p = FFmpegProgress::from_key_values(&pairs(&[("frame", "1"), ("frame", "2")]));
    assert_eq!(p.frame, Some(2));
}

#[test]
fn unparsable_numbers_stay_unset() {
    let p = FFmpegProgress::from_key_values(&pairs(&[("frame", "N/A"), ("total_size", "12x")]));
    assert_eq!(p.frame, None);
    assert_eq!(p.total_size, None);
}

#[test]
fn negative_out_time_gives_no_elapsed_seconds() {
    let p = FFmpegProgress::from_key_values(&pairs(&[("out_time_ms", "-9223372036854775807")]));
    assert_eq!(p.out_time_ms, Some(-9223372036854775807));
    assert_eq!(p.elapsed_seconds(), None);
}

#[test]
fn elapsed_seconds_truncates_to_whole_seconds() {
    let p = FFmpegProgress::from_key_values(&pairs(&[("out_time_ms", "1999999")]));
    assert_eq!(p.elapsed_seconds(), Some(1));
}

#[test]
fn value_may_contain_an_equals_sign() {
    let mut parser = ProgressParser::new();
    assert!(parser.push_line("speed=1=2").is_none());
    let snap = parser.push_line("progress=continue").unwrap();
    assert_eq!(snap.speed.as_deref(), Some("1=2"));
}
