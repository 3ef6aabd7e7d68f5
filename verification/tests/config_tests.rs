use sstc::config::{create_output_path, Config, InputConfig, OutputConfig, PresetConfig};
use sstc::errors::JobError;

fn blank_preset() -> PresetConfig {
    PresetConfig {
        video_codec: None,
        pixel_format: None,
        audio_codec: None,
        video_bitrate: None,
        audio_bitrate: None,
        scale: None,
        extra_options: Vec::new(),
    }
}

fn output(dir: &str, template: &str, container: &str) -> OutputConfig {
    OutputConfig {
        path: dir.to_string(),
        filename_template: template.to_string(),
        container: container.to_string(),
    }
}

fn input(root: &str, exts: &[&str], preset: &str, out: &str) -> InputConfig {
    InputConfig {
        path: root.to_string(),
        extensions: exts.iter().map(|e| e.to_string()).collect(),
        preset: preset.to_string(),
        output: out.to_string(),
    }
}

fn sample_config() -> Config {
    Config {
        inputs: vec![
            input("/watch/a", &["mov"], "p1", "o1"),
            input("/watch", &["mov", "MP4"], "p2", "o2"),
        ],
        outputs: vec![
            ("o1".to_string(), output("/out1", "{filename}_encoded", "mp4")),
            ("o2".to_string(), output("/out2", "{filename}", "mkv")),
        ],
        presets: vec![("p1".to_string(), blank_preset()), ("p2".to_string(), blank_preset())],
        max_parallel_jobs: None,
    }
}

#[test]
fn templated_output_name() {
    let out = output("/out", "{filename}_encoded", "mp4");
    let path = create_output_path("/watch/clip.mov", &out).unwrap();
    assert_eq!(path, "/out/clip_encoded.mp4");
}

#[test]
fn output_path_without_a_stem_is_an_error() {
    let out = output("/out", "{filename}", "mp4");
    assert_eq!(create_output_path("/watch/", &out), Err(JobError::NoFileStem));
}

#[test]
fn validation_accepts_well_referenced_config() {
    assert_eq!(sstc::config::validate_config(&sample_config()), Ok(()));
}

#[test]
fn validation_reports_a_dangling_output() {
    let mut c = sample_config();
    c.inputs[1].output = "nope".to_string();
    assert_eq!(
        sstc::config::validate_config(&c),
        Err(JobError::UnknownOutput("nope".to_string()))
    );
}

#[test]
fn validation_reports_a_dangling_preset() {
    let mut c = sample_config();
    c.inputs[0].preset = "nope".to_string();
    assert_eq!(
        sstc::config::validate_config(&c),
        Err(JobError::UnknownPreset("nope".to_string()))
    );
}

#[test]
fn first_matching_input_wins() {
    let c = sample_config();
    // both inputs match; the first configured one is chosen
    let m = c.find_matching_input("/watch/a/clip.mov").unwrap();
    assert_eq!(m.preset, "p1");
    // only the broader root matches here
    let m = c.find_matching_input("/watch/b/clip.mov").unwrap();
    assert_eq!(m.preset, "p2");
}

#[test]
fn matching_is_case_insensitive_on_extensions() {
    let c = sample_config();
    let m = c.find_matching_input("/watch/clip.mp4").unwrap();
    assert_eq!(m.preset, "p2");
    let m = c.find_matching_input("/watch/a/CLIP.MOV").unwrap();
    assert_eq!(m.preset, "p1");
}

#[test]
fn files_without_extension_or_outside_all_roots_do_not_match() {
    let c = sample_config();
    assert!(c.find_matching_input("/watch/clip").is_none());
    assert!(c.find_matching_input("/elsewhere/clip.mov").is_none());
    assert!(c.find_matching_input("/watchdog/clip.mov").is_none());
    assert!(c.find_matching_input("/watch/clip.avi").is_none());
}

#[test]
fn resolve_job_hands_out_preset_and_output_path() {
    let c = sample_config();
    let (preset, out_path) = c.resolve_job("/watch/a/clip.mov").unwrap();
    assert!(preset.video_codec.is_none());
    assert_eq!(out_path, "/out1/clip_encoded.mp4");
}

#[test]
fn resolve_job_reports_each_failure() {
    let c = sample_config();
    assert_eq!(c.resolve_job("/nowhere/clip.mov").unwrap_err(), JobError::NoMatchingInput);
    let mut broken = sample_config();
    broken.inputs[0].preset = "ghost".to_string();
    assert_eq!(
        broken.resolve_job("/watch/a/clip.mov").unwrap_err(),
        JobError::UnknownPreset("ghost".to_string())
    );
    let mut broken = sample_config();
    broken.inputs[0].output = "ghost".to_string();
    assert_eq!(
        broken.resolve_job("/watch/a/clip.mov").unwrap_err(),
        JobError::UnknownOutput("ghost".to_string())
    );
}

#[test]
fn output_path_for_file_follows_the_matched_input() {
    let c = sample_config();
    assert_eq!(c.get_output_path_for_file("/watch/clip.mov").unwrap(), "/out2/clip.mkv");
    assert_eq!(
        c.get_output_path_for_file("/other/clip.mov"),
        Err(JobError::NoMatchingInput)
    );
}

#[test]
fn lookups_return_the_named_entry() {
    let c = sample_config();
    assert!(c.get_preset(&"p1".to_string()).is_ok());
    assert_eq!(
        c.get_preset(&"zzz".to_string()).unwrap_err(),
        JobError::UnknownPreset("zzz".to_string())
    );
    assert_eq!(c.get_output(&"o2".to_string()).unwrap().container, "mkv");
    assert_eq!(
        c.get_output(&"zzz".to_string()).unwrap_err(),
        JobError::UnknownOutput("zzz".to_string())
    );
}
