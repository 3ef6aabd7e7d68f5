//! The failure taxonomy of a job, and the follow-up each failure demands.

use vstd::prelude::*;
use vstd::string::*;

verus! {

/// Why a job's pipeline stopped short of a finished output.
#[derive(Debug, Clone, PartialEq, Eq)]
pub enum JobError {
    /// The file never settled, or the duration probe did not report a
    /// positive duration: the file is not yet stable or not decodable.
    /// This is the only transient failure; the job is re-submitted after
    /// a fixed backoff.
    NotValid,
    /// No configured input root and extension set matches the file.
    NoMatchingInput,
    /// The matched input names a preset the configuration does not define.
    UnknownPreset(String),
    /// The matched input names an output the configuration does not define.
    UnknownOutput(String),
    /// The input path has no final component to render the template with.
    NoFileStem,
    /// The external tool exited with a non-zero status.
    ProcessFailed,
    /// The progress stream ended without ever reporting the terminal phase.
    NoTerminator,
    /// The tool exited successfully but the output file does not exist.
    OutputMissing,
    /// The tool exited successfully but the output file is empty.
    OutputEmpty,
}

impl JobError {
    /// A diagnostic line for logs.
    pub fn describe(&self) -> (r: String)
        ensures
            match self {
                JobError::NotValid => r@ == "File is not valid or still being copied"@,
                JobError::NoMatchingInput => r@ == "No matching input configuration found"@,
                JobError::UnknownPreset(n) => r@ == "Preset not found: "@ + n@,
                JobError::UnknownOutput(n) => r@ == "Output not found: "@ + n@,
                JobError::NoFileStem => r@ == "Failed to get file stem"@,
                JobError::ProcessFailed => r@ == "FFmpeg process failed"@,
                JobError::NoTerminator => r@
                    == "FFmpeg progress stream ended without reporting completion"@,
                JobError::OutputMissing => r@ == "Output file was not created"@,
                JobError::OutputEmpty => r@ == "Output file is empty"@,
            },
    {
        match self {
            JobError::NotValid => String::from_str("File is not valid or still being copied"),
            JobError::NoMatchingInput => String::from_str("No matching input configuration found"),
            JobError::UnknownPreset(n) => String::from_str("Preset not found: ").concat(
                n.as_str(),
            ),
            JobError::UnknownOutput(n) => String::from_str("Output not found: ").concat(
                n.as_str(),
            ),
            JobError::NoFileStem => String::from_str("Failed to get file stem"),
            JobError::ProcessFailed => String::from_str("FFmpeg process failed"),
            JobError::NoTerminator => String::from_str(
                "FFmpeg progress stream ended without reporting completion",
            ),
            JobError::OutputMissing => String::from_str("Output file was not created"),
            JobError::OutputEmpty => String::from_str("Output file is empty"),
        }
    }
}

/// The three classes of job failure: dangling configuration references,
/// transient unavailability of the input, and failures of the external tool.
#[derive(Debug, Clone, Copy, PartialEq, Eq, Structural)]
pub enum ErrorClass {
    ConfigRef,
    Transient,
    Execution,
}

pub open spec fn spec_error_class(e: JobError) -> ErrorClass {
    match e {
        JobError::NotValid => ErrorClass::Transient,
        JobError::NoMatchingInput => ErrorClass::ConfigRef,
        JobError::UnknownPreset(_) => ErrorClass::ConfigRef,
        JobError::UnknownOutput(_) => ErrorClass::ConfigRef,
        JobError::NoFileStem => ErrorClass::ConfigRef,
        JobError::ProcessFailed => ErrorClass::Execution,
        JobError::NoTerminator => ErrorClass::Execution,
        JobError::OutputMissing => ErrorClass::Execution,
        JobError::OutputEmpty => ErrorClass::Execution,
    }
}

pub fn error_class(e: &JobError) -> (c: ErrorClass)
    ensures
        c == spec_error_class(*e),
{
    match e {
        JobError::NotValid => ErrorClass::Transient,
        JobError::NoMatchingInput => ErrorClass::ConfigRef,
        JobError::UnknownPreset(_) => ErrorClass::ConfigRef,
        JobError::UnknownOutput(_) => ErrorClass::ConfigRef,
        JobError::NoFileStem => ErrorClass::ConfigRef,
        JobError::ProcessFailed => ErrorClass::Execution,
        JobError::NoTerminator => ErrorClass::Execution,
        JobError::OutputMissing => ErrorClass::Execution,
        JobError::OutputEmpty => ErrorClass::Execution,
    }
}

/// A failure is retried if and only if it is the transient one.
pub open spec fn spec_is_transient(e: JobError) -> bool {
    e is NotValid
}

pub fn is_transient(e: &JobError) -> (r: bool)
    ensures
        r == spec_is_transient(*e),
{
    matches!(e, JobError::NotValid)
}

/// What a worker must do once its pipeline has returned.
#[derive(Debug, Clone, Copy, PartialEq, Eq, Structural)]
pub struct FollowUp {
    /// Remove a partial output file, if one exists on disk.
    pub delete_partial: bool,
    /// Re-submit the same path after the fixed backoff.
    pub requeue: bool,
}

/// Decides the follow-up of a finished worker: success needs nothing; any
/// failure removes a partial output if present; only the transient failure
/// is re-submitted, every other failure drops the job permanently.
pub fn worker_followup(outcome: &Result<(), JobError>) -> (f: FollowUp)
    ensures
        outcome is Ok ==> f == (FollowUp { delete_partial: false, requeue: false }),
        outcome is Err ==> f.delete_partial,
        outcome matches Err(e) ==> (f.requeue <==> spec_is_transient(*e)),
{
    match outcome {
        Ok(_) => FollowUp { delete_partial: false, requeue: false },
        Err(e) => FollowUp { delete_partial: true, requeue: is_transient(e) },
    }
}

} // verus!
