//! The worker pipeline end to end, driven with canned observations: a
//! first attempt fails transiently, the re-submission succeeds.

use sstc::config::{Config, InputConfig, OutputConfig, PresetConfig};
use sstc::errors::{worker_followup, JobError};
use sstc::invocation::{admission, build_ffmpeg_args, check_completion, Admission};
use sstc::scheduler::{Scheduler, SubmitOutcome};
use sstc::stability::{is_file_valid, GateStep, StabilityGate, STABILITY_TIMEOUT_MS};

fn pipeline_config() -> Config {
    Config {
        inputs: vec![InputConfig {
            path: "/watch".to_string(),
            extensions: vec!["mov".to_string()],
            preset: "p".to_string(),
            output: "o".to_string(),
        }],
        outputs: vec![(
            "o".to_string(),
            OutputConfig {
                path: "/out".to_string(),
                filename_template: "{filename}".to_string(),
                container: "mp4".to_string(),
            },
        )],
        presets: vec![(
            "p".to_string(),
            PresetConfig {
                video_codec: Some("libx264".to_string()),
                pixel_format: None,
                audio_codec: None,
                video_bitrate: None,
                audio_bitrate: None,
                scale: None,
                extra_options: Vec::new(),
            },
        )],
        max_parallel_jobs: Some(1),
    }
}

#[test]
fn transient_failure_is_retried_and_then_succeeds() {
    let c = pipeline_config();
    let mut s = Scheduler::new(c.max_parallel_jobs);
    let path = "/watch/clip.mov".to_string();

    // the watcher reports the file
    assert_eq!(s.process_file(&c, &path), SubmitOutcome::Queued);
    let job = s.take_next().unwrap();
    assert!(s.try_acquire_slot());

    // first attempt: the file keeps growing until the wait times out
    let mut gate = StabilityGate::new(0);
    let mut verdict = GateStep::Pending;
    let mut tick: u64 = 1;
    while verdict == GateStep::Pending {
        verdict = gate.observe(tick * 1000, tick);
        tick += 1;
    }
    assert_eq!(verdict, GateStep::TimedOut);
    assert!(tick * 1000 >= STABILITY_TIMEOUT_MS);
    assert!(!is_file_valid(false, &None));
    let outcome: Result<(), JobError> = Err(JobError::NotValid);
    let follow = worker_followup(&outcome);
    assert!(follow.requeue);
    s.finish(&job);
    s.release_slot();
    // after the backoff the worker re-submits; accepted exactly once
    assert_eq!(s.submit(&path), SubmitOutcome::Queued);

    // second attempt: the file has stabilized and probes fine
    let job = s.take_next().unwrap();
    assert!(s.try_acquire_slot());
    let mut gate = StabilityGate::new(0);
    assert_eq!(gate.observe(1000, 42), GateStep::Pending);
    assert_eq!(gate.observe(2000, 42), GateStep::Pending);
    assert_eq!(gate.observe(3000, 42), GateStep::Settled);
    assert!(is_file_valid(true, &Some("8.000000".to_string())));

    let (preset, out_path) = c.resolve_job(&job).unwrap();
    assert_eq!(out_path, "/out/clip.mp4");
    assert_eq!(admission(true, false), Admission::Proceed);
    let args = build_ffmpeg_args(&job, &out_path, preset);
    assert_eq!(args[6], "-i");
    assert_eq!(args[7], "/watch/clip.mov");

    // the canned run ends cleanly
    assert_eq!(check_completion(true, true, true, 1024), Ok(()));
    let follow = worker_followup(&Ok(()));
    assert!(!follow.requeue && !follow.delete_partial);
    s.finish(&job);
    s.release_slot();
    assert_eq!(s.queue_len(), 0);
    assert!(!s.is_active(&path));
}

#[test]
fn existing_output_invokes_the_tool_zero_times() {
    let c = pipeline_config();
    let mut s = Scheduler::new(c.max_parallel_jobs);
    let path = "/watch/clip.mov".to_string();
    assert_eq!(s.process_file(&c, &path), SubmitOutcome::Queued);
    let job = s.take_next().unwrap();
    assert!(s.try_acquire_slot());
    // the file is valid, but the output file already exists on disk
    let mut invocations = 0;
    if admission(true, true) == Admission::Proceed {
        invocations += 1;
    }
    assert_eq!(invocations, 0);
    // treated as success: no retry, no cleanup
    let follow = worker_followup(&Ok(()));
    assert!(!follow.requeue && !follow.delete_partial);
    s.finish(&job);
    s.release_slot();
}
