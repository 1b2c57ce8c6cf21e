//! The seek strategy: given a requested target and the total duration,
//! decide how a seek is satisfied.
//!
//! Targets are first clamped to `[0, duration_ms]`.  Near the start of the
//! stream the slow path decodes the original file and skips leading samples,
//! because the skip cost there is small.  Anywhere else the fast path asks an
//! external transcoder for a bounded window that already starts at the
//! target, converting an `O(target)` decode-and-discard cost into a bounded
//! `O(window)` transcode.  When the external invocation fails the caller
//! falls back to the slow path on the original file, so seeking stays
//! correct without the external capability.

use vstd::prelude::*;

verus! {

/// Targets below this many milliseconds take the slow path.
pub const SLOW_PATH_LIMIT_MS: u64 = 1000;

/// The fast path transcodes at most this long a window.
pub const FAST_WINDOW_MS: u64 = 30000;

/// How a seek request is to be satisfied by the unverified shell.
#[derive(Clone, Copy, PartialEq, Eq, Structural, Debug)]
pub enum SeekPlan {
    /// Decode the original file and discard the first `skip_ms` of samples.
    Slow { skip_ms: u64 },
    /// Transcode `window_ms` of audio starting at `start_ms` of the original
    /// file into a raw segment, then play that segment from its beginning.
    Fast { start_ms: u64, window_ms: u64 },
}

pub open spec fn spec_min_ms(a: u64, b: u64) -> u64 {
    if a <= b {
        a
    } else {
        b
    }
}

/// Out-of-range targets are clamped to the nearest bound, never rejected.
pub open spec fn spec_clamp(target_ms: u64, duration_ms: u64) -> u64 {
    spec_min_ms(target_ms, duration_ms)
}

/// The plan chosen for a clamped target: slow within the first second,
/// otherwise a fast window of at most `FAST_WINDOW_MS`, shortened to
/// whatever remains of the stream.
pub open spec fn spec_plan(target_ms: u64, duration_ms: u64) -> SeekPlan {
    let clamped = spec_clamp(target_ms, duration_ms);
    if clamped < SLOW_PATH_LIMIT_MS {
        SeekPlan::Slow { skip_ms: clamped }
    } else {
        SeekPlan::Fast {
            start_ms: clamped,
            window_ms: spec_min_ms(FAST_WINDOW_MS, (duration_ms - clamped) as u64),
        }
    }
}

/// Choose the seek path for `target_ms` in a stream `duration_ms` long.
pub fn plan_seek(target_ms: u64, duration_ms: u64) -> (plan: SeekPlan)
    ensures
        plan == spec_plan(target_ms, duration_ms),
        plan matches SeekPlan::Slow { skip_ms } ==> skip_ms == spec_clamp(target_ms, duration_ms)
            && skip_ms < SLOW_PATH_LIMIT_MS,
        plan matches SeekPlan::Fast { start_ms, window_ms } ==> start_ms == spec_clamp(
            target_ms,
            duration_ms,
        ) && SLOW_PATH_LIMIT_MS <= start_ms && start_ms + window_ms <= duration_ms && window_ms
            <= FAST_WINDOW_MS,
{
    let clamped = if target_ms <= duration_ms {
        target_ms
    } else {
        duration_ms
    };
    if clamped < SLOW_PATH_LIMIT_MS {
        SeekPlan::Slow { skip_ms: clamped }
    } else {
        let remaining = duration_ms - clamped;
        let window_ms = if FAST_WINDOW_MS <= remaining {
            FAST_WINDOW_MS
        } else {
            remaining
        };
        SeekPlan::Fast { start_ms: clamped, window_ms }
    }
}

/// The plan to use after the fast path's external invocation failed: the
/// slow path on the original file, at the same clamped target, so the seek
/// still lands where the fast path would have.
pub fn fallback_plan(target_ms: u64, duration_ms: u64) -> (plan: SeekPlan)
    ensures
        plan == (SeekPlan::Slow { skip_ms: spec_clamp(target_ms, duration_ms) }),
{
    let clamped = if target_ms <= duration_ms {
        target_ms
    } else {
        duration_ms
    };
    SeekPlan::Slow { skip_ms: clamped }
}

impl SeekPlan {
    /// The position the pipeline stands at once this plan has been carried
    /// out; both paths land exactly on the clamped target.
    pub open spec fn spec_target(self) -> u64 {
        match self {
            SeekPlan::Slow { skip_ms } => skip_ms,
            SeekPlan::Fast { start_ms, .. } => start_ms,
        }
    }

    pub fn target_ms(&self) -> (t: u64)
        ensures
            t == self.spec_target(),
    {
        match self {
            SeekPlan::Slow { skip_ms } => *skip_ms,
            SeekPlan::Fast { start_ms, .. } => *start_ms,
        }
    }
}

/// Whichever path is chosen, and whether or not the fast path has to fall
/// back, a plan for `target_ms` lands on the clamped target.
pub proof fn lemma_plans_agree_on_target(target_ms: u64, duration_ms: u64)
    ensures
        spec_plan(target_ms, duration_ms).spec_target() == spec_clamp(target_ms, duration_ms),
        (SeekPlan::Slow { skip_ms: spec_clamp(target_ms, duration_ms) }).spec_target()
            == spec_clamp(target_ms, duration_ms),
{
}

} // verus!
