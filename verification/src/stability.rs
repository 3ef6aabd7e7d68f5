//! The stability and validity gate.
//!
//! A freshly seen file may still be written. The tracker watches the file's
//! size, sampled by the application at a fixed interval, and declares the
//! file settled once the size has stayed unchanged for a continuous
//! stability window; sampling past the timeout without settling yields a
//! normal, retryable "not valid" outcome, never an error. A settled file is
//! valid only if the external duration probe also reports a positive
//! duration.

use vstd::prelude::*;
use vstd::string::*;
use crate::text::{
    all_digits, find_first, first_index_of, is_digit, spec_trim, trim_str,
};

verus! {

/// How often the application samples the file's size.
pub const STABILITY_CHECK_INTERVAL_MS: u64 = 1000;

/// How long the size must stay unchanged before the file counts as settled.
pub const STABILITY_WINDOW_MS: u64 = 3000;

/// How long the tracker keeps sampling before it gives up for this attempt.
pub const STABILITY_TIMEOUT_MS: u64 = 60000;

/// What one size observation decides.
#[derive(Debug, Clone, Copy, PartialEq, Eq, Structural)]
pub enum GateStep {
    /// The size has been unchanged for the whole stability window.
    Settled,
    /// Keep sampling.
    Pending,
    /// The timeout passed without the size settling: a normal, retryable
    /// outcome, not an error.
    TimedOut,
}

/// The tracker's state between two size observations.
#[derive(Debug, Clone, Copy, PartialEq, Eq, Structural)]
pub struct StabilityGate {
    /// When this attempt started.
    pub started_at_ms: u64,
    /// The size seen by the previous observation, if any.
    pub last_size: Option<u64>,
    /// When the size was last seen to change (the attempt's start until a
    /// first change is seen).
    pub last_change_ms: u64,
}

/// The tracker's transition: past the timeout the attempt is over; an
/// unchanged size settles once the stability window has elapsed since the
/// last change; a changed size restarts the window at the current instant;
/// the first observation only records the size.
pub open spec fn spec_observe(g: StabilityGate, now_ms: u64, size: u64) -> (StabilityGate, GateStep) {
    if now_ms - g.started_at_ms >= STABILITY_TIMEOUT_MS {
        (g, GateStep::TimedOut)
    } else {
        match g.last_size {
            Some(s) => if s == size {
                if now_ms - g.last_change_ms >= STABILITY_WINDOW_MS {
                    (g, GateStep::Settled)
                } else {
                    (g, GateStep::Pending)
                }
            } else {
                (
                    StabilityGate { last_size: Some(size), last_change_ms: now_ms, ..g },
                    GateStep::Pending,
                )
            },
            None => (StabilityGate { last_size: Some(size), ..g }, GateStep::Pending),
        }
    }
}

impl StabilityGate {
    /// Starts a fresh attempt at the current instant.
    pub fn new(now_ms: u64) -> (r: Self)
        ensures
            r == (StabilityGate { started_at_ms: now_ms, last_size: None, last_change_ms: now_ms }),
    {
        StabilityGate { started_at_ms: now_ms, last_size: None, last_change_ms: now_ms }
    }

    /// Feeds one size observation, taken at `now_ms`.
    pub fn observe(&mut self, now_ms: u64, size: u64) -> (r: GateStep)
        requires
            now_ms >= old(self).started_at_ms,
            now_ms >= old(self).last_change_ms,
        ensures
            *final(self) == spec_observe(*old(self), now_ms, size).0,
            r == spec_observe(*old(self), now_ms, size).1,
    {
        if now_ms - self.started_at_ms >= STABILITY_TIMEOUT_MS {
            return GateStep::TimedOut;
        }
        match self.last_size {
            Some(s) => {
                if s == size {
                    if now_ms - self.last_change_ms >= STABILITY_WINDOW_MS {
                        GateStep::Settled
                    } else {
                        GateStep::Pending
                    }
                } else {
                    self.last_size = Some(size);
                    self.last_change_ms = now_ms;
                    GateStep::Pending
                }
            },
            None => {
                self.last_size = Some(size);
                GateStep::Pending
            },
        }
    }
}

/// A file is declared settled only once the whole stability window has
/// elapsed since the last observed size change.
pub proof fn lemma_settled_only_after_window(g: StabilityGate, now_ms: u64, size: u64)
    requires
        spec_observe(g, now_ms, size).1 is Settled,
    ensures
        now_ms >= g.last_change_ms + STABILITY_WINDOW_MS,
        spec_observe(g, now_ms, size).0 == g,
{
}

/// Reaching the timeout yields the retryable `TimedOut` outcome, whatever
/// the size does, and leaves the tracker unchanged; below the timeout an
/// observation never times out.
pub proof fn lemma_timeout_is_not_an_error(g: StabilityGate, now_ms: u64, size: u64)
    ensures
        (spec_observe(g, now_ms, size).1 is TimedOut) == (now_ms - g.started_at_ms
            >= STABILITY_TIMEOUT_MS),
        spec_observe(g, now_ms, size).1 is TimedOut ==> spec_observe(g, now_ms, size).0 == g,
{
}

/// A size change restarts the stability window: the tracker remembers the new
/// size and the current instant, and the observation stays pending.
pub proof fn lemma_change_restarts_window(g: StabilityGate, now_ms: u64, size: u64)
    requires
        now_ms - g.started_at_ms < STABILITY_TIMEOUT_MS,
        g.last_size matches Some(s) && s != size,
    ensures
        spec_observe(g, now_ms, size).1 is Pending,
        spec_observe(g, now_ms, size).0.last_change_ms == now_ms,
        spec_observe(g, now_ms, size).0.last_size == Some(size),
{
}

/// A plain decimal number: digits with at most one point somewhere among
/// them, and at least one digit.
pub open spec fn spec_valid_decimal(s: Seq<char>) -> bool {
    let dot = first_index_of(s, '.');
    if dot < 0 {
        s.len() > 0 && all_digits(s)
    } else {
        &&& all_digits(s.subrange(0, dot))
        &&& all_digits(s.subrange(dot + 1, s.len() as int))
        &&& s.len() > 1
    }
}

/// Whether some digit of `s` is not `0`.
pub open spec fn has_nonzero_digit(s: Seq<char>) -> bool {
    exists|i: int| 0 <= i < s.len() && is_digit(#[trigger] s[i]) && s[i] != '0'
}

/// What the duration probe must report for a file to be decodable: its
/// trimmed output is a plain decimal number greater than zero.
pub open spec fn spec_duration_positive(s: Seq<char>) -> bool {
    spec_valid_decimal(spec_trim(s)) && has_nonzero_digit(spec_trim(s))
}

fn all_digits_range(s: &str, from: usize, to: usize) -> (r: bool)
    requires
        from <= to <= s@.len(),
    ensures
        r == all_digits(s@.subrange(from as int, to as int)),
{
    let mut i: usize = from;
    while i < to
        invariant
            from <= i <= to <= s@.len(),
            forall|j: int| from <= j < i ==> is_digit(#[trigger] s@[j]),
        decreases to - i,
    {
        let cv = s.get_char(i) as u32;
        if cv < 48 || cv > 57 {
            proof {
                assert(s@.subrange(from as int, to as int)[i - from] == s@[i as int]);
            }
            return false;
        }
        i = i + 1;
    }
    proof {
        assert forall|j: int| 0 <= j < to - from implies is_digit(
            #[trigger] s@.subrange(from as int, to as int)[j],
        ) by {
            assert(s@.subrange(from as int, to as int)[j] == s@[from + j]);
        }
    }
    true
}

fn find_nonzero_digit(s: &str) -> (r: bool)
    ensures
        r == has_nonzero_digit(s@),
{
    let n = s.unicode_len();
    let mut i: usize = 0;
    while i < n
        invariant
            i <= n,
            n == s@.len(),
            forall|j: int| 0 <= j < i ==> !(is_digit(#[trigger] s@[j]) && s@[j] != '0'),
        decreases n - i,
    {
        let cv = s.get_char(i) as u32;
        if 49 <= cv && cv <= 57 {
            proof {
                assert(is_digit(s@[i as int]) && s@[i as int] != '0');
            }
            return true;
        }
        i = i + 1;
    }
    false
}

/// Whether the probe's raw output reports a positive duration.
pub fn duration_positive(s: &str) -> (r: bool)
    ensures
        r == spec_duration_positive(s@),
{
    let t = trim_str(s);
    let tn = t.as_str().unicode_len();
    proof {
        assert(t@.subrange(0, tn as int) =~= t@);
    }
    let valid = match find_first(t.as_str(), '.') {
        Some(d) => {
            let int_ok = all_digits_range(t.as_str(), 0, d);
            let frac_ok = all_digits_range(t.as_str(), d + 1, tn);
            int_ok && frac_ok && tn > 1
        },
        None => tn > 0 && all_digits_range(t.as_str(), 0, tn),
    };
    if !valid {
        return false;
    }
    find_nonzero_digit(t.as_str())
}

/// The validity verdict for a file: valid only when the size settled within
/// the timeout and the duration probe then succeeded reporting a positive
/// duration. `probe_stdout` is the probe's raw output, or `None` when the
/// probe itself failed.
pub fn is_file_valid(settled: bool, probe_stdout: &Option<String>) -> (r: bool)
    ensures
        r == (settled && (probe_stdout matches Some(s) && spec_duration_positive(s@))),
{
    if !settled {
        return false;
    }
    match probe_stdout {
        Some(s) => duration_positive(s.as_str()),
        None => false,
    }
}

} // verus!
