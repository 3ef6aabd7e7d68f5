//! The built-in example presets.
//!
//! A fixed family of seven encode presets can be merged into a
//! configuration: a name already taken keeps its configured value, a
//! missing name is added with the example value, and nothing else in the
//! configuration changes.

use vstd::prelude::*;
use vstd::string::*;
use crate::config::{assoc_contains, assoc_lookup, Config, PresetConfig};
use crate::progress::{pairs_view, view_str};

verus! {

/// The quick, low-quality H.264 preset.
pub open spec fn spec_fast_h264(p: PresetConfig) -> bool {
    &&& view_str(p.video_codec) == Some("libx264"@)
    &&& view_str(p.audio_codec) == Some("aac"@)
    &&& view_str(p.pixel_format) == Some("yuv420p"@)
    &&& view_str(p.video_bitrate) == Some("2M"@)
    &&& view_str(p.audio_bitrate) == Some("128k"@)
    &&& p.scale is None
    &&& pairs_view(p.extra_options@) == seq![
        ("-preset"@, "ultrafast"@),
        ("-crf"@, "28"@),
        ("-tune"@, "fastdecode"@),
    ]
}

/// The balanced H.264 preset.
pub open spec fn spec_medium_h264(p: PresetConfig) -> bool {
    &&& view_str(p.video_codec) == Some("libx264"@)
    &&& view_str(p.audio_codec) == Some("aac"@)
    &&& view_str(p.pixel_format) == Some("yuv420p"@)
    &&& view_str(p.video_bitrate) == Some("4M"@)
    &&& view_str(p.audio_bitrate) == Some("192k"@)
    &&& p.scale is None
    &&& pairs_view(p.extra_options@) == seq![
        ("-preset"@, "medium"@),
        ("-crf"@, "23"@),
        ("-tune"@, "film"@),
    ]
}

/// The slow, high-quality H.264 preset.
pub open spec fn spec_slow_h264(p: PresetConfig) -> bool {
    &&& view_str(p.video_codec) == Some("libx264"@)
    &&& view_str(p.audio_codec) == Some("aac"@)
    &&& view_str(p.pixel_format) == Some("yuv420p"@)
    &&& view_str(p.video_bitrate) == Some("6M"@)
    &&& view_str(p.audio_bitrate) == Some("256k"@)
    &&& p.scale is None
    &&& pairs_view(p.extra_options@) == seq![
        ("-preset"@, "slow"@),
        ("-crf"@, "18"@),
        ("-tune"@, "film"@),
        ("-x264-params"@, "ref=5:me=umh"@),
    ]
}

/// The quick H.265 preset.
pub open spec fn spec_fast_h265(p: PresetConfig) -> bool {
    &&& view_str(p.video_codec) == Some("libx265"@)
    &&& view_str(p.audio_codec) == Some("aac"@)
    &&& view_str(p.pixel_format) == Some("yuv420p10le"@)
    &&& p.video_bitrate is None
    &&& view_str(p.audio_bitrate) == Some("128k"@)
    &&& p.scale is None
    &&& pairs_view(p.extra_options@) == seq![
        ("-preset"@, "ultrafast"@),
        ("-crf"@, "28"@),
        ("-tag:v"@, "hvc1"@),
    ]
}

/// The balanced H.265 preset.
pub open spec fn spec_medium_h265(p: PresetConfig) -> bool {
    &&& view_str(p.video_codec) == Some("libx265"@)
    &&& view_str(p.audio_codec) == Some("aac"@)
    &&& view_str(p.pixel_format) == Some("yuv420p10le"@)
    &&& p.video_bitrate is None
    &&& view_str(p.audio_bitrate) == Some("192k"@)
    &&& p.scale is None
    &&& pairs_view(p.extra_options@) == seq![
        ("-preset"@, "medium"@),
        ("-crf"@, "23"@),
        ("-tag:v"@, "hvc1"@),
        ("-x265-params"@, "log-level=error"@),
    ]
}

/// The slow, high-quality H.265 preset.
pub open spec fn spec_slow_h265(p: PresetConfig) -> bool {
    &&& view_str(p.video_codec) == Some("libx265"@)
    &&& view_str(p.audio_codec) == Some("aac"@)
    &&& view_str(p.pixel_format) == Some("yuv420p10le"@)
    &&& p.video_bitrate is None
    &&& view_str(p.audio_bitrate) == Some("256k"@)
    &&& p.scale is None
    &&& pairs_view(p.extra_options@) == seq![
        ("-preset"@, "slow"@),
        ("-crf"@, "18"@),
        ("-tag:v"@, "hvc1"@),
        ("-x265-params"@, "ref=5:me=star:rd=4:log-level=error"@),
    ]
}

/// The compact action-camera preset: smaller files, audio copied through,
/// camera metadata kept.
pub open spec fn spec_gopro_compact(p: PresetConfig) -> bool {
    &&& view_str(p.video_codec) == Some("libx265"@)
    &&& view_str(p.audio_codec) == Some("copy"@)
    &&& view_str(p.pixel_format) == Some("yuv420p10le"@)
    &&& p.video_bitrate is None
    &&& p.audio_bitrate is None
    &&& p.scale is None
    &&& pairs_view(p.extra_options@) == seq![
        ("-preset"@, "fast"@),
        ("-crf"@, "24"@),
        ("-x265-params"@, "log-level=error"@),
        ("-tag:v"@, "hvc1"@),
        ("-map"@, "0:v,0:a,0:m:handler_name:GoPro MET"@),
        ("-map_metadata"@, "0"@),
        ("-movflags"@, "use_metadata_tags"@),
    ]
}

/// The names the generator may add.
pub open spec fn spec_is_example_name(k: Seq<char>) -> bool {
    ||| k == "fast_h264"@
    ||| k == "medium_h264"@
    ||| k == "slow_h264"@
    ||| k == "fast_h265"@
    ||| k == "medium_h265"@
    ||| k == "slow_h265"@
    ||| k == "gopro_compact"@
}

proof fn lemma_assoc_lookup_push(m: Seq<(String, PresetConfig)>, e: (String, PresetConfig), k: Seq<char>)
    ensures
        assoc_lookup(m.push(e), k) == (match assoc_lookup(m, k) {
            Some(v) => Some(v),
            None => if e.0@ == k {
                Some(e.1)
            } else {
                None
            },
        }),
    decreases m.len(),
{
    if m.len() == 0 {
        assert(m.push(e).len() == 1);
        assert(m.push(e)[0] == e);
        assert(m.push(e).drop_first() =~= Seq::<(String, PresetConfig)>::empty());
        if e.0@ == k {
            assert(assoc_lookup(m.push(e), k) == Some(e.1));
        } else {
            assert(assoc_lookup(Seq::<(String, PresetConfig)>::empty(), k) is None);
            assert(assoc_lookup(m.push(e), k) is None);
        }
        assert(assoc_lookup(m, k) is None);
    } else {
        assert(m.push(e)[0] == m[0]);
        assert(m.push(e).drop_first() =~= m.drop_first().push(e));
        lemma_assoc_lookup_push(m.drop_first(), e, k);
        if m[0].0@ == k {
            assert(assoc_lookup(m.push(e), k) == Some(m[0].1));
            assert(assoc_lookup(m, k) == Some(m[0].1));
        } else {
            assert(assoc_lookup(m.push(e), k) == assoc_lookup(m.drop_first().push(e), k));
            assert(assoc_lookup(m, k) == assoc_lookup(m.drop_first(), k));
        }
    }
}

proof fn lemma_prefix_trans(
    a: Seq<(String, PresetConfig)>,
    b: Seq<(String, PresetConfig)>,
    c: Seq<(String, PresetConfig)>,
)
    requires
        a.len() <= b.len() <= c.len(),
        b.subrange(0, a.len() as int) == a,
        c.subrange(0, b.len() as int) == b,
    ensures
        c.subrange(0, a.len() as int) == a,
{
    assert(c.subrange(0, a.len() as int) =~= a) by {
        assert forall|j: int| 0 <= j < a.len() implies c.subrange(0, a.len() as int)[j] == a[j] by {
            assert(c.subrange(0, b.len() as int)[j] == c[j]);
            assert(b.subrange(0, a.len() as int)[j] == b[j]);
            assert(c.subrange(0, a.len() as int)[j] == c[j]);
        }
    }
}

/// The example names are pairwise distinct.
proof fn lemma_example_names_distinct()
    ensures
        "fast_h264"@ != "medium_h264"@,
        "fast_h264"@ != "slow_h264"@,
        "fast_h264"@ != "fast_h265"@,
        "fast_h264"@ != "medium_h265"@,
        "fast_h264"@ != "slow_h265"@,
        "fast_h264"@ != "gopro_compact"@,
        "medium_h264"@ != "slow_h264"@,
        "medium_h264"@ != "fast_h265"@,
        "medium_h264"@ != "medium_h265"@,
        "medium_h264"@ != "slow_h265"@,
        "medium_h264"@ != "gopro_compact"@,
        "slow_h264"@ != "fast_h265"@,
        "slow_h264"@ != "medium_h265"@,
        "slow_h264"@ != "slow_h265"@,
        "slow_h264"@ != "gopro_compact"@,
        "fast_h265"@ != "medium_h265"@,
        "fast_h265"@ != "slow_h265"@,
        "fast_h265"@ != "gopro_compact"@,
        "medium_h265"@ != "slow_h265"@,
        "medium_h265"@ != "gopro_compact"@,
        "slow_h265"@ != "gopro_compact"@,
{
    reveal_strlit("fast_h264");
    reveal_strlit("medium_h264");
    reveal_strlit("slow_h264");
    reveal_strlit("fast_h265");
    reveal_strlit("medium_h265");
    reveal_strlit("slow_h265");
    reveal_strlit("gopro_compact");
    assert("fast_h264"@[0] != "slow_h264"@[0]);
    assert("fast_h264"@[8] != "fast_h265"@[8]);
    assert("fast_h264"@[0] != "slow_h265"@[0]);
    assert("slow_h264"@[8] != "slow_h265"@[8]);
    assert("slow_h264"@[0] != "fast_h265"@[0]);
    assert("fast_h265"@[0] != "slow_h265"@[0]);
    assert("medium_h264"@[10] != "medium_h265"@[10]);
}

/// Generates the built-in example presets.
pub struct PresetGenerator;

impl PresetGenerator {
    fn add_preset_if_missing(presets: &mut Vec<(String, PresetConfig)>, name: &str, p: PresetConfig)
        ensures
            assoc_lookup(final(presets)@, name@) == (match assoc_lookup(old(presets)@, name@) {
                Some(v) => Some(v),
                None => Some(p),
            }),
            forall|k: Seq<char>|
                k != name@ ==> assoc_lookup(final(presets)@, k) == assoc_lookup(old(presets)@, k),
            final(presets)@.subrange(0, old(presets)@.len() as int) == old(presets)@,
            old(presets)@.len() <= final(presets)@.len() <= old(presets)@.len() + 1,
    {
        proof {
            crate::config::lemma_assoc_lookup_contains(presets@, name@);
        }
        let owned = String::from_str(name);
        let mut found = false;
        let mut i: usize = 0;
        while i < presets.len()
            invariant
                i <= presets@.len(),
                owned@ == name@,
                found <==> exists|j: int| 0 <= j < i && #[trigger] presets@[j].0@ == name@,
            decreases presets@.len() - i,
        {
            if presets[i].0.eq(&owned) {
                found = true;
            }
            i = i + 1;
        }
        if found {
            proof {
                assert(assoc_contains(presets@, name@));
                assert(presets@.subrange(0, presets@.len() as int) =~= presets@);
            }
            return;
        }
        proof {
            assert(!assoc_contains(presets@, name@));
        }
        let ghost oldp = presets@;
        let ghost entry = (owned, p);
        presets.push((owned, p));
        proof {
            assert(presets@ == oldp.push(entry));
            assert forall|k: Seq<char>| true implies assoc_lookup(presets@, k) == (
            match assoc_lookup(oldp, k) {
                Some(v) => Some(v),
                None => if name@ == k {
                    Some(entry.1)
                } else {
                    None
                },
            }) by {
                lemma_assoc_lookup_push(oldp, entry, k);
            }
            assert(presets@.subrange(0, oldp.len() as int) =~= oldp);
        }
    }

    /// Merges the seven example presets into the configuration: a name the
    /// configuration already defines keeps its value, a missing name is
    /// added with the example value, and nothing else changes.
    pub fn generate_example_presets(config: &mut Config)
        ensures
            final(config).inputs@ == old(config).inputs@,
            final(config).outputs@ == old(config).outputs@,
            final(config).max_parallel_jobs == old(config).max_parallel_jobs,
            old(config).presets@.len() <= final(config).presets@.len() <= old(
                config,
            ).presets@.len() + 7,
            final(config).presets@.subrange(0, old(config).presets@.len() as int) == old(
                config,
            ).presets@,
            forall|k: Seq<char>|
                !spec_is_example_name(k) ==> assoc_lookup(final(config).presets@, k) == assoc_lookup(
                    old(config).presets@,
                    k,
                ),
            forall|k: Seq<char>|
                assoc_contains(old(config).presets@, k) ==> assoc_lookup(
                    final(config).presets@,
                    k,
                ) == assoc_lookup(old(config).presets@, k),
            assoc_lookup(final(config).presets@, "fast_h264"@) matches Some(p)
                && (assoc_contains(old(config).presets@, "fast_h264"@) || spec_fast_h264(p)),
            assoc_lookup(final(config).presets@, "medium_h264"@) matches Some(p)
                && (assoc_contains(old(config).presets@, "medium_h264"@) || spec_medium_h264(p)),
            assoc_lookup(final(config).presets@, "slow_h264"@) matches Some(p)
                && (assoc_contains(old(config).presets@, "slow_h264"@) || spec_slow_h264(p)),
            assoc_lookup(final(config).presets@, "fast_h265"@) matches Some(p)
                && (assoc_contains(old(config).presets@, "fast_h265"@) || spec_fast_h265(p)),
            assoc_lookup(final(config).presets@, "medium_h265"@) matches Some(p)
                && (assoc_contains(old(config).presets@, "medium_h265"@) || spec_medium_h265(p)),
            assoc_lookup(final(config).presets@, "slow_h265"@) matches Some(p)
                && (assoc_contains(old(config).presets@, "slow_h265"@) || spec_slow_h265(p)),
            assoc_lookup(final(config).presets@, "gopro_compact"@) matches Some(p)
                && (assoc_contains(old(config).presets@, "gopro_compact"@) || spec_gopro_compact(
                p,
            )),
    {
        proof {
            lemma_example_names_distinct();
            crate::config::lemma_assoc_lookup_contains(config.presets@, "fast_h264"@);
            crate::config::lemma_assoc_lookup_contains(config.presets@, "medium_h264"@);
            crate::config::lemma_assoc_lookup_contains(config.presets@, "slow_h264"@);
            crate::config::lemma_assoc_lookup_contains(config.presets@, "fast_h265"@);
            crate::config::lemma_assoc_lookup_contains(config.presets@, "medium_h265"@);
            crate::config::lemma_assoc_lookup_contains(config.presets@, "slow_h265"@);
            crate::config::lemma_assoc_lookup_contains(config.presets@, "gopro_compact"@);
        }
        let ghost presets0 = config.presets@;

        let mut opts: Vec<(String, String)> = Vec::new();
        opts.push((String::from_str("-preset"), String::from_str("ultrafast")));
        opts.push((String::from_str("-crf"), String::from_str("28")));
        opts.push((String::from_str("-tune"), String::from_str("fastdecode")));
        let fast_h264 = PresetConfig {
            video_codec: Some(String::from_str("libx264")),
            pixel_format: Some(String::from_str("yuv420p")),
            audio_codec: Some(String::from_str("aac")),
            video_bitrate: Some(String::from_str("2M")),
            audio_bitrate: Some(String::from_str("128k")),
            scale: None,
            extra_options: opts,
        };
        proof {
            assert(pairs_view(fast_h264.extra_options@) =~= seq![
                ("-preset"@, "ultrafast"@),
                ("-crf"@, "28"@),
                ("-tune"@, "fastdecode"@),
            ]);
            assert(spec_fast_h264(fast_h264));
        }

        let mut opts: Vec<(String, String)> = Vec::new();
        opts.push((String::from_str("-preset"), String::from_str("medium")));
        opts.push((String::from_str("-crf"), String::from_str("23")));
        opts.push((String::from_str("-tune"), String::from_str("film")));
        let medium_h264 = PresetConfig {
            video_codec: Some(String::from_str("libx264")),
            pixel_format: Some(String::from_str("yuv420p")),
            audio_codec: Some(String::from_str("aac")),
            video_bitrate: Some(String::from_str("4M")),
            audio_bitrate: Some(String::from_str("192k")),
            scale: None,
            extra_options: opts,
        };
        proof {
            assert(pairs_view(medium_h264.extra_options@) =~= seq![
                ("-preset"@, "medium"@),
                ("-crf"@, "23"@),
                ("-tune"@, "film"@),
            ]);
            assert(spec_medium_h264(medium_h264));
        }

        let mut opts: Vec<(String, String)> = Vec::new();
        opts.push((String::from_str("-preset"), String::from_str("slow")));
        opts.push((String::from_str("-crf"), String::from_str("18")));
        opts.push((String::from_str("-tune"), String::from_str("film")));
        opts.push((String::from_str("-x264-params"), String::from_str("ref=5:me=umh")));
        let slow_h264 = PresetConfig {
            video_codec: Some(String::from_str("libx264")),
            pixel_format: Some(String::from_str("yuv420p")),
            audio_codec: Some(String::from_str("aac")),
            video_bitrate: Some(String::from_str("6M")),
            audio_bitrate: Some(String::from_str("256k")),
            scale: None,
            extra_options: opts,
        };
        proof {
            assert(pairs_view(slow_h264.extra_options@) =~= seq![
                ("-preset"@, "slow"@),
                ("-crf"@, "18"@),
                ("-tune"@, "film"@),
                ("-x264-params"@, "ref=5:me=umh"@),
            ]);
            assert(spec_slow_h264(slow_h264));
        }

        let mut opts: Vec<(String, String)> = Vec::new();
        opts.push((String::from_str("-preset"), String::from_str("ultrafast")));
        opts.push((String::from_str("-crf"), String::from_str("28")));
        opts.push((String::from_str("-tag:v"), String::from_str("hvc1")));
        let fast_h265 = PresetConfig {
            video_codec: Some(String::from_str("libx265")),
            pixel_format: Some(String::from_str("yuv420p10le")),
            audio_codec: Some(String::from_str("aac")),
            video_bitrate: None,
            audio_bitrate: Some(String::from_str("128k")),
            scale: None,
            extra_options: opts,
        };
        proof {
            assert(pairs_view(fast_h265.extra_options@) =~= seq![
                ("-preset"@, "ultrafast"@),
                ("-crf"@, "28"@),
                ("-tag:v"@, "hvc1"@),
            ]);
            assert(spec_fast_h265(fast_h265));
        }

        let mut opts: Vec<(String, String)> = Vec::new();
        opts.push((String::from_str("-preset"), String::from_str("medium")));
        opts.push((String::from_str("-crf"), String::from_str("23")));
        opts.push((String::from_str("-tag:v"), String::from_str("hvc1")));
        opts.push((String::from_str("-x265-params"), String::from_str("log-level=error")));
        let medium_h265 = PresetConfig {
            video_codec: Some(String::from_str("libx265")),
            pixel_format: Some(String::from_str("yuv420p10le")),
            audio_codec: Some(String::from_str("aac")),
            video_bitrate: None,
            audio_bitrate: Some(String::from_str("192k")),
            scale: None,
            extra_options: opts,
        };
        proof {
            assert(pairs_view(medium_h265.extra_options@) =~= seq![
                ("-preset"@, "medium"@),
                ("-crf"@, "23"@),
                ("-tag:v"@, "hvc1"@),
                ("-x265-params"@, "log-level=error"@),
            ]);
            assert(spec_medium_h265(medium_h265));
        }

        let mut opts: Vec<(String, String)> = Vec::new();
        opts.push((String::from_str("-preset"), String::from_str("slow")));
        opts.push((String::from_str("-crf"), String::from_str("18")));
        opts.push((String::from_str("-tag:v"), String::from_str("hvc1")));
        opts.push((
            String::from_str("-x265-params"),
            String::from_str("ref=5:me=star:rd=4:log-level=error"),
        ));
        let slow_h265 = PresetConfig {
            video_codec: Some(String::from_str("libx265")),
            pixel_format: Some(String::from_str("yuv420p10le")),
            audio_codec: Some(String::from_str("aac")),
            video_bitrate: None,
            audio_bitrate: Some(String::from_str("256k")),
            scale: None,
            extra_options: opts,
        };
        proof {
            assert(pairs_view(slow_h265.extra_options@) =~= seq![
                ("-preset"@, "slow"@),
                ("-crf"@, "18"@),
                ("-tag:v"@, "hvc1"@),
                ("-x265-params"@, "ref=5:me=star:rd=4:log-level=error"@),
            ]);
            assert(spec_slow_h265(slow_h265));
        }

        let mut opts: Vec<(String, String)> = Vec::new();
        opts.push((String::from_str("-preset"), String::from_str("fast")));
        opts.push((String::from_str("-crf"), String::from_str("24")));
        opts.push((String::from_str("-x265-params"), String::from_str("log-level=error")));
        opts.push((String::from_str("-tag:v"), String::from_str("hvc1")));
        opts.push((String::from_str("-map"), String::from_str("0:v,0:a,0:m:handler_name:GoPro MET")));
        opts.push((String::from_str("-map_metadata"), String::from_str("0")));
        opts.push((String::from_str("-movflags"), String::from_str("use_metadata_tags")));
        let gopro_compact = PresetConfig {
            video_codec: Some(String::from_str("libx265")),
            pixel_format: Some(String::from_str("yuv420p10le")),
            audio_codec: Some(String::from_str("copy")),
            video_bitrate: None,
            audio_bitrate: None,
            scale: None,
            extra_options: opts,
        };
        proof {
            assert(pairs_view(gopro_compact.extra_options@) =~= seq![
                ("-preset"@, "fast"@),
                ("-crf"@, "24"@),
                ("-x265-params"@, "log-level=error"@),
                ("-tag:v"@, "hvc1"@),
                ("-map"@, "0:v,0:a,0:m:handler_name:GoPro MET"@),
                ("-map_metadata"@, "0"@),
                ("-movflags"@, "use_metadata_tags"@),
            ]);
            assert(spec_gopro_compact(gopro_compact));
        }

        Self::add_preset_if_missing(&mut config.presets, "fast_h264", fast_h264);
        let ghost presets1 = config.presets@;
        Self::add_preset_if_missing(&mut config.presets, "medium_h264", medium_h264);
        proof {
            lemma_prefix_trans(presets0, presets1, config.presets@);
        }
        let ghost presets2 = config.presets@;
        Self::add_preset_if_missing(&mut config.presets, "slow_h264", slow_h264);
        proof {
            lemma_prefix_trans(presets0, presets2, config.presets@);
        }
        let ghost presets3 = config.presets@;
        Self::add_preset_if_missing(&mut config.presets, "fast_h265", fast_h265);
        proof {
            lemma_prefix_trans(presets0, presets3, config.presets@);
        }
        let ghost presets4 = config.presets@;
        Self::add_preset_if_missing(&mut config.presets, "medium_h265", medium_h265);
        proof {
            lemma_prefix_trans(presets0, presets4, config.presets@);
        }
        let ghost presets5 = config.presets@;
        Self::add_preset_if_missing(&mut config.presets, "slow_h265", slow_h265);
        proof {
            lemma_prefix_trans(presets0, presets5, config.presets@);
        }
        let ghost presets6 = config.presets@;
        Self::add_preset_if_missing(&mut config.presets, "gopro_compact", gopro_compact);
        proof {
            lemma_prefix_trans(presets0, presets6, config.presets@);
            assert forall|k: Seq<char>|
                assoc_contains(presets0, k) implies assoc_lookup(config.presets@, k)
                == assoc_lookup(presets0, k) by {
                crate::config::lemma_assoc_lookup_contains(presets0, k);
            }
        }
    }
}

} // verus!
