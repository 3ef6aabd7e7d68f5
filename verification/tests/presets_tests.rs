use sstc::config::{Config, PresetConfig};
use sstc::presets::PresetGenerator;

fn empty_config() -> Config {
    Config {
        inputs: Vec::new(),
        outputs: Vec::new(),
        presets: Vec::new(),
        max_parallel_jobs: Some(1),
    }
}

fn lookup<'a>(c: &'a Config, name: &str) -> Option<&'a PresetConfig> {
    c.presets.iter().find(|(n, _)| n == name).map(|(_, p)| p)
}

#[test]
fn generator_adds_all_seven_presets() {
    let mut c = empty_config();
    PresetGenerator::generate_example_presets(&mut c);
    assert_eq!(c.presets.len(), 7);
    for name in [
        "fast_h264",
        "medium_h264",
        "slow_h264",
        "fast_h265",
        "medium_h265",
        "slow_h265",
        "gopro_compact",
    ] {
        assert!(lookup(&c, name).is_some(), "missing preset {}", name);
    }
}

#[test]
fn fast_h264_has_the_documented_values() {
    let mut c = empty_config();
    PresetGenerator::generate_example_presets(&mut c);
    let p = lookup(&c, "fast_h264").unwrap();
    assert_eq!(p.video_codec.as_deref(), Some("libx264"));
    assert_eq!(p.audio_codec.as_deref(), Some("aac"));
    assert_eq!(p.pixel_format.as_deref(), Some("yuv420p"));
    assert_eq!(p.video_bitrate.as_deref(), Some("2M"));
    assert_eq!(p.audio_bitrate.as_deref(), Some("128k"));
    assert!(p.scale.is_none());
    let opts: Vec<(&str, &str)> =
        p.extra_options.iter().map(|(k, v)| (k.as_str(), v.as_str())).collect();
    assert_eq!(
        opts,
        vec![("-preset", "ultrafast"), ("-crf", "28"), ("-tune", "fastdecode")]
    );
}

#[test]
fn gopro_compact_keeps_its_option_order() {
    let mut c = empty_config();
    PresetGenerator::generate_example_presets(&mut c);
    let p = lookup(&c, "gopro_compact").unwrap();
    assert_eq!(p.audio_codec.as_deref(), Some("copy"));
    assert!(p.video_bitrate.is_none());
    assert!(p.audio_bitrate.is_none());
    let keys: Vec<&str> = p.extra_options.iter().map(|(k, _)| k.as_str()).collect();
    assert_eq!(
        keys,
        vec!["-preset", "-crf", "-x265-params", "-tag:v", "-map", "-map_metadata", "-movflags"]
    );
}

#[test]
fn an_existing_preset_is_not_overwritten() {
    let mut c = empty_config();
    let mine = PresetConfig {
        video_codec: Some("libaom-av1".to_string()),
        pixel_format: None,
        audio_codec: None,
        video_bitrate: None,
        audio_bitrate: None,
        scale: None,
        extra_options: Vec::new(),
    };
    c.presets.push(("fast_h264".to_string(), mine));
    PresetGenerator::generate_example_presets(&mut c);
    assert_eq!(c.presets.len(), 7);
    let p = lookup(&c, "fast_h264").unwrap();
    assert_eq!(p.video_codec.as_deref(), Some("libaom-av1"));
}

#[test]
fn running_the_generator_twice_changes_nothing_more() {
    let mut c = empty_config();
    PresetGenerator::generate_example_presets(&mut c);
    let names_once: Vec<String> = c.presets.iter().map(|(n, _)| n.clone()).collect();
    PresetGenerator::generate_example_presets(&mut c);
    let names_twice: Vec<String> = c.presets.iter().map(|(n, _)| n.clone()).collect();
    assert_eq!(names_once, names_twice);
}

#[test]
fn other_config_parts_are_untouched() {
    let mut c = empty_config();
    c.max_parallel_jobs = Some(4);
    PresetGenerator::generate_example_presets(&mut c);
    assert_eq!(c.max_parallel_jobs, Some(4));
    assert!(c.inputs.is_empty());
    assert!(c.outputs.is_empty());
}
