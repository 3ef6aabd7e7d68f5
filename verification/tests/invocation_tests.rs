use sstc::config::PresetConfig;
use sstc::errors::{error_class, is_transient, worker_followup, ErrorClass, JobError};
use sstc::invocation::{admission, build_ffmpeg_args, check_completion, Admission};

fn full_preset() -> PresetConfig {
    PresetConfig {
        video_codec: Some("libx264".to_string()),
        pixel_format: Some("yuv420p".to_string()),
        audio_codec: Some("aac".to_string()),
        video_bitrate: Some("2M".to_string()),
        audio_bitrate: Some("128k".to_string()),
        scale: Some("1280:-2".to_string()),
        extra_options: vec![
            ("-preset".to_string(), "fast".to_string()),
            ("-crf".to_string(), "23".to_string()),
        ],
    }
}

#[test]
fn argument_list_has_the_fixed_shape() {
    let args = build_ffmpeg_args("/watch/in.mov", "/out/in.mp4", &full_preset());
    let expected: Vec<String> = [
        "-v", "quiet", "-progress", "pipe:1", "-stats_period", "1.0", "-i", "/watch/in.mov", "-y",
        "/out/in.mp4", "-c:v", "libx264", "-c:a", "aac", "-b:v", "2M", "-b:a", "128k", "-pix_fmt",
        "yuv420p", "-vf", "scale=1280:-2", "-preset", "fast", "-crf", "23",
    ]
    .iter()
    .map(|s| s.to_string())
    .collect();
    assert_eq!(args, expected);
}

#[test]
fn unset_preset_fields_contribute_no_flags() {
    let preset = PresetConfig {
        video_codec: None,
        pixel_format: None,
        audio_codec: None,
        video_bitrate: None,
        audio_bitrate: None,
        scale: None,
        extra_options: Vec::new(),
    };
    let args = build_ffmpeg_args("a.mov", "b.mp4", &preset);
    let expected: Vec<String> =
        ["-v", "quiet", "-progress", "pipe:1", "-stats_period", "1.0", "-i", "a.mov", "-y", "b.mp4"]
            .iter()
            .map(|s| s.to_string())
            .collect();
    assert_eq!(args, expected);
}

#[test]
fn extra_options_keep_their_order() {
    let mut preset = full_preset();
    preset.extra_options = vec![
        ("-map".to_string(), "0:v".to_string()),
        ("-map_metadata".to_string(), "0".to_string()),
        ("-movflags".to_string(), "use_metadata_tags".to_string()),
    ];
    let args = build_ffmpeg_args("a.mov", "b.mp4", &preset);
    let tail: Vec<&str> = args.iter().rev().take(6).rev().map(|s| s.as_str()).collect();
    assert_eq!(tail, vec!["-map", "0:v", "-map_metadata", "0", "-movflags", "use_metadata_tags"]);
}

#[test]
fn existing_output_never_reaches_the_tool() {
    assert_eq!(admission(true, true), Admission::SkipExisting);
    assert_eq!(admission(false, true), Admission::RejectNotValid);
    assert_eq!(admission(true, false), Admission::Proceed);
    assert_eq!(admission(false, false), Admission::RejectNotValid);
}

#[test]
fn completion_requires_every_check() {
    assert_eq!(check_completion(true, true, true, 10), Ok(()));
    assert_eq!(check_completion(false, true, true, 10), Err(JobError::ProcessFailed));
    assert_eq!(check_completion(true, false, true, 10), Err(JobError::NoTerminator));
    assert_eq!(check_completion(true, true, false, 0), Err(JobError::OutputMissing));
    assert_eq!(check_completion(true, true, true, 0), Err(JobError::OutputEmpty));
}

#[test]
fn nonzero_exit_is_permanent_and_cleans_up() {
    let outcome = check_completion(false, true, true, 10);
    let err = outcome.clone().unwrap_err();
    assert_eq!(error_class(&err), ErrorClass::Execution);
    assert!(!is_transient(&err));
    let follow = worker_followup(&outcome);
    assert!(follow.delete_partial);
    assert!(!follow.requeue);
}

#[test]
fn only_the_not_valid_failure_is_retried() {
    let follow = worker_followup(&Err(JobError::NotValid));
    assert!(follow.requeue);
    assert!(follow.delete_partial);
    for err in [
        JobError::NoMatchingInput,
        JobError::UnknownPreset("p".to_string()),
        JobError::UnknownOutput("o".to_string()),
        JobError::NoFileStem,
        JobError::ProcessFailed,
        JobError::NoTerminator,
        JobError::OutputMissing,
        JobError::OutputEmpty,
    ] {
        assert!(!worker_followup(&Err(err)).requeue);
    }
    let follow = worker_followup(&Ok(()));
    assert!(!follow.requeue);
    assert!(!follow.delete_partial);
}

#[test]
fn error_classes_follow_the_taxonomy() {
    assert_eq!(error_class(&JobError::NotValid), ErrorClass::Transient);
    assert_eq!(error_class(&JobError::NoMatchingInput), ErrorClass::ConfigRef);
    assert_eq!(error_class(&JobError::UnknownPreset("x".to_string())), ErrorClass::ConfigRef);
    assert_eq!(error_class(&JobError::UnknownOutput("x".to_string())), ErrorClass::ConfigRef);
    assert_eq!(error_class(&JobError::NoFileStem), ErrorClass::ConfigRef);
    assert_eq!(error_class(&JobError::ProcessFailed), ErrorClass::Execution);
    assert_eq!(error_class(&JobError::NoTerminator), ErrorClass::Execution);
    assert_eq!(error_class(&JobError::OutputMissing), ErrorClass::Execution);
    assert_eq!(error_class(&JobError::OutputEmpty), ErrorClass::Execution);
}
