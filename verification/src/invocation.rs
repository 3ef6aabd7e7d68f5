//! Construction of the external tool's invocation, the admission decision
//! in front of it, and the classification of its outcome.
//!
//! The argument list has a fixed shape: quiet diagnostics, the
//! machine-readable progress stream on a capturable channel with a
//! one-second reporting cadence, the input, the force-overwrite flag and
//! the output, then a flag for each preset field that is set, then the
//! preset's free-form options verbatim and in order.

use vstd::prelude::*;
use vstd::string::*;
use crate::config::PresetConfig;
use crate::errors::JobError;
use crate::paths::views;

verus! {

/// The flag/value pair of an optional preset field, or nothing.
pub open spec fn opt_flag(flag: Seq<char>, v: Option<String>) -> Seq<Seq<char>> {
    match v {
        Some(s) => seq![flag, s@],
        None => Seq::empty(),
    }
}

/// The preset's free-form options, flattened in their configured order.
pub open spec fn spec_extra_args(ps: Seq<(String, String)>) -> Seq<Seq<char>>
    decreases ps.len(),
{
    if ps.len() == 0 {
        Seq::empty()
    } else {
        spec_extra_args(ps.drop_last()) + seq![ps.last().0@, ps.last().1@]
    }
}

/// Every argument a preset contributes, in the fixed order.
pub open spec fn spec_preset_args(p: PresetConfig) -> Seq<Seq<char>> {
    opt_flag("-c:v"@, p.video_codec) + opt_flag("-c:a"@, p.audio_codec) + opt_flag(
        "-b:v"@,
        p.video_bitrate,
    ) + opt_flag("-b:a"@, p.audio_bitrate) + opt_flag("-pix_fmt"@, p.pixel_format) + (match p
        .scale {
        Some(s) => seq!["-vf"@, "scale="@ + s@],
        None => Seq::empty(),
    }) + spec_extra_args(p.extra_options@)
}

/// The whole argument list of one invocation.
pub open spec fn spec_ffmpeg_args(
    input: Seq<char>,
    output: Seq<char>,
    p: PresetConfig,
) -> Seq<Seq<char>> {
    seq![
        "-v"@,
        "quiet"@,
        "-progress"@,
        "pipe:1"@,
        "-stats_period"@,
        "1.0"@,
        "-i"@,
        input,
        "-y"@,
        output,
    ] + spec_preset_args(p)
}

fn push_opt_flag(args: &mut Vec<String>, flag: &str, v: &Option<String>)
    ensures
        views(final(args)@) == views(old(args)@) + opt_flag(flag@, *v),
{
    match v {
        Some(s) => {
            let ghost before = views(args@);
            args.push(String::from_str(flag));
            args.push(s.clone());
            proof {
                assert(views(args@) =~= before + opt_flag(flag@, Some(*s)));
            }
        },
        None => {
            proof {
                assert(views(args@) =~= views(args@) + Seq::<Seq<char>>::empty());
            }
        },
    }
}

/// Builds the invocation's argument list for one file and preset.
pub fn build_ffmpeg_args(input_path: &str, output_path: &str, preset: &PresetConfig) -> (r: Vec<
    String,
>)
    ensures
        views(r@) == spec_ffmpeg_args(input_path@, output_path@, *preset),
{
    let mut args: Vec<String> = Vec::new();
    args.push(String::from_str("-v"));
    args.push(String::from_str("quiet"));
    args.push(String::from_str("-progress"));
    args.push(String::from_str("pipe:1"));
    args.push(String::from_str("-stats_period"));
    args.push(String::from_str("1.0"));
    args.push(String::from_str("-i"));
    args.push(String::from_str(input_path));
    args.push(String::from_str("-y"));
    args.push(String::from_str(output_path));
    let ghost base = seq![
        "-v"@,
        "quiet"@,
        "-progress"@,
        "pipe:1"@,
        "-stats_period"@,
        "1.0"@,
        "-i"@,
        input_path@,
        "-y"@,
        output_path@,
    ];
    proof {
        assert(views(args@) =~= base);
    }
    push_opt_flag(&mut args, "-c:v", &preset.video_codec);
    push_opt_flag(&mut args, "-c:a", &preset.audio_codec);
    push_opt_flag(&mut args, "-b:v", &preset.video_bitrate);
    push_opt_flag(&mut args, "-b:a", &preset.audio_bitrate);
    push_opt_flag(&mut args, "-pix_fmt", &preset.pixel_format);
    match &preset.scale {
        Some(s) => {
            let ghost before = views(args@);
            args.push(String::from_str("-vf"));
            let expr = String::from_str("scale=").concat(s.as_str());
            args.push(expr);
            proof {
                assert(views(args@) =~= before + seq!["-vf"@, "scale="@ + s@]);
            }
        },
        None => {},
    }
    let ghost with_scale = views(args@);
    let mut i: usize = 0;
    proof {
        assert(preset.extra_options@.subrange(0, 0) =~= Seq::<(String, String)>::empty());
        assert(views(args@) =~= with_scale + spec_extra_args(
            preset.extra_options@.subrange(0, 0),
        ));
    }
    while i < preset.extra_options.len()
        invariant
            i <= preset.extra_options@.len(),
            views(args@) == with_scale + spec_extra_args(
                preset.extra_options@.subrange(0, i as int),
            ),
        decreases preset.extra_options@.len() - i,
    {
        let ghost before = views(args@);
        args.push(preset.extra_options[i].0.clone());
        args.push(preset.extra_options[i].1.clone());
        proof {
            let sub2 = preset.extra_options@.subrange(0, i as int + 1);
            assert(sub2.drop_last() =~= preset.extra_options@.subrange(0, i as int));
            assert(sub2.last() == preset.extra_options@[i as int]);
            assert(views(args@) =~= before + seq![
                preset.extra_options@[i as int].0@,
                preset.extra_options@[i as int].1@,
            ]);
            assert(views(args@) =~= with_scale + spec_extra_args(sub2));
        }
        i = i + 1;
    }
    proof {
        assert(preset.extra_options@.subrange(0, preset.extra_options@.len() as int)
            =~= preset.extra_options@);
        assert(views(args@) =~= spec_ffmpeg_args(input_path@, output_path@, *preset));
    }
    args
}

/// The decision in front of the executor.
#[derive(Debug, Clone, Copy, PartialEq, Eq, Structural)]
pub enum Admission {
    /// Run the external tool.
    Proceed,
    /// The output already exists: the job is an idempotent no-op, the tool
    /// is never invoked and the output is never overwritten.
    SkipExisting,
    /// The validity gate failed: the transient outcome, retried later.
    RejectNotValid,
}

pub open spec fn spec_admission(valid: bool, output_exists: bool) -> Admission {
    if !valid {
        Admission::RejectNotValid
    } else if output_exists {
        Admission::SkipExisting
    } else {
        Admission::Proceed
    }
}

/// Decides whether a file reaches the executor: only a valid file whose
/// output does not already exist does. An existing output means the tool
/// is invoked zero times for this submission.
pub fn admission(valid: bool, output_exists: bool) -> (r: Admission)
    ensures
        r == spec_admission(valid, output_exists),
        output_exists ==> !(r is Proceed),
        !valid ==> r is RejectNotValid,
        r is Proceed <==> valid && !output_exists,
{
    if !valid {
        Admission::RejectNotValid
    } else if output_exists {
        Admission::SkipExisting
    } else {
        Admission::Proceed
    }
}

/// The completion check, every part required: the process must exit
/// successfully, the progress stream must have reported its terminal
/// phase, and the output file must exist and be non-empty. Each failing
/// part yields its own permanent failure reason.
pub open spec fn spec_completion(
    exit_ok: bool,
    saw_end: bool,
    output_exists: bool,
    output_size: u64,
) -> Result<(), JobError> {
    if !exit_ok {
        Err(JobError::ProcessFailed)
    } else if !saw_end {
        Err(JobError::NoTerminator)
    } else if !output_exists {
        Err(JobError::OutputMissing)
    } else if output_size == 0 {
        Err(JobError::OutputEmpty)
    } else {
        Ok(())
    }
}

/// A process that exits with a non-zero status is a permanent failure,
/// whatever else the run left behind: the classification is the execution
/// class, not the transient one, so the worker removes a partial output
/// and never re-submits the job.
pub proof fn lemma_nonzero_exit_is_permanent(saw_end: bool, output_exists: bool, output_size: u64)
    ensures
        spec_completion(false, saw_end, output_exists, output_size) == Err::<(), JobError>(
            JobError::ProcessFailed,
        ),
        !crate::errors::spec_is_transient(JobError::ProcessFailed),
        crate::errors::spec_error_class(JobError::ProcessFailed)
            == crate::errors::ErrorClass::Execution,
{
}

/// Classifies what the finished process left behind. A clean exit without
/// the stream's terminal phase is a failure: the tool is not trusted to
/// have finished what it never reported finishing.
pub fn check_completion(exit_ok: bool, saw_end: bool, output_exists: bool, output_size: u64) -> (r:
    Result<(), JobError>)
    ensures
        r == spec_completion(exit_ok, saw_end, output_exists, output_size),
        r is Ok <==> exit_ok && saw_end && output_exists && output_size > 0,
{
    if !exit_ok {
        Err(JobError::ProcessFailed)
    } else if !saw_end {
        Err(JobError::NoTerminator)
    } else if !output_exists {
        Err(JobError::OutputMissing)
    } else if output_size == 0 {
        Err(JobError::OutputEmpty)
    } else {
        Ok(())
    }
}

} // verus!
