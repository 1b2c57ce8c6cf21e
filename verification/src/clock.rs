//! The playback clock: derives the current position from a wall-clock
//! reading and recorded anchors, without ever polling the decode pipeline.
//!
//! The clock is in exactly one of two states: anchored (playing), where the
//! position is computed from the time elapsed since playback resumed, or
//! frozen (paused or stopped), where a recorded offset is returned verbatim.
//! Every reported position is clamped to `[0, duration_ms]`.

use vstd::prelude::*;

verus! {

/// Exactly one of the two anchor kinds is valid at any time: an anchored
/// clock derives the position from elapsed wall-clock time, a frozen clock
/// returns its recorded offset verbatim.
#[derive(Clone, Copy, PartialEq, Eq, Structural, Debug)]
pub enum ClockState {
    /// Playback is running: it resumed at wall-clock time `resumed_at_ms`
    /// with the pipeline positioned at `resume_offset_ms`.
    Anchored { resumed_at_ms: u64, resume_offset_ms: u64 },
    /// Playback is suspended at `offset_ms`.
    Frozen { offset_ms: u64 },
}

/// Tracks the playback position of a stream of known total duration.
/// All fields are in milliseconds.
#[derive(Clone, Copy, PartialEq, Eq, Structural, Debug)]
pub struct PlaybackClock {
    pub duration_ms: u64,
    pub state: ClockState,
}

impl PlaybackClock {
    /// Any offset the clock records stays within the stream.
    pub open spec fn wf(self) -> bool {
        match self.state {
            ClockState::Anchored { resumed_at_ms, resume_offset_ms } => resume_offset_ms
                <= self.duration_ms,
            ClockState::Frozen { offset_ms } => offset_ms <= self.duration_ms,
        }
    }

    pub open spec fn is_anchored(self) -> bool {
        self.state is Anchored
    }

    /// The position reported at wall-clock time `now_ms`: the frozen offset,
    /// or the resume offset plus the elapsed time, clamped to the duration.
    /// A reading earlier than the resume instant counts as no elapsed time.
    pub open spec fn spec_position(self, now_ms: u64) -> u64 {
        match self.state {
            ClockState::Frozen { offset_ms } => offset_ms,
            ClockState::Anchored { resumed_at_ms, resume_offset_ms } => {
                let elapsed = if now_ms >= resumed_at_ms {
                    now_ms - resumed_at_ms
                } else {
                    0
                };
                if resume_offset_ms + elapsed >= self.duration_ms {
                    self.duration_ms
                } else {
                    (resume_offset_ms + elapsed) as u64
                }
            },
        }
    }

    /// The clock after `play` at time `now_ms`: a frozen clock is anchored so
    /// that position 0 would have started `offset_ms` before `now_ms`; an
    /// already anchored clock is left untouched.
    pub open spec fn spec_resumed(self, now_ms: u64) -> PlaybackClock {
        match self.state {
            ClockState::Frozen { offset_ms } => PlaybackClock {
                duration_ms: self.duration_ms,
                state: ClockState::Anchored { resumed_at_ms: now_ms, resume_offset_ms: offset_ms },
            },
            ClockState::Anchored { .. } => self,
        }
    }

    /// The clock after `pause` at time `now_ms`: the position read at
    /// `now_ms` becomes the frozen offset.
    pub open spec fn spec_frozen(self, now_ms: u64) -> PlaybackClock {
        PlaybackClock {
            duration_ms: self.duration_ms,
            state: ClockState::Frozen { offset_ms: self.spec_position(now_ms) },
        }
    }

    /// The clock after a committed seek to `offset_ms`, re-anchored at
    /// `now_ms` when playback resumes immediately, frozen otherwise.
    pub open spec fn spec_re_anchored(self, now_ms: u64, offset_ms: u64) -> PlaybackClock {
        PlaybackClock {
            duration_ms: self.duration_ms,
            state: ClockState::Anchored { resumed_at_ms: now_ms, resume_offset_ms: offset_ms },
        }
    }

    pub open spec fn spec_frozen_at(self, offset_ms: u64) -> PlaybackClock {
        PlaybackClock { duration_ms: self.duration_ms, state: ClockState::Frozen { offset_ms } }
    }

    /// A fresh clock: suspended at the start of the stream.
    pub fn new(duration_ms: u64) -> (c: PlaybackClock)
        ensures
            c.wf(),
            c.duration_ms == duration_ms,
            c.state == (ClockState::Frozen { offset_ms: 0u64 }),
    {
        PlaybackClock { duration_ms, state: ClockState::Frozen { offset_ms: 0 } }
    }

    /// Current position in milliseconds, clamped to `[0, duration_ms]`.
    pub fn position(&self, now_ms: u64) -> (p: u64)
        requires
            self.wf(),
        ensures
            p == self.spec_position(now_ms),
            p <= self.duration_ms,
    {
        match self.state {
            ClockState::Frozen { offset_ms } => offset_ms,
            ClockState::Anchored { resumed_at_ms, resume_offset_ms } => {
                let elapsed = if now_ms >= resumed_at_ms {
                    now_ms - resumed_at_ms
                } else {
                    0
                };
                let remaining = self.duration_ms - resume_offset_ms;
                if elapsed >= remaining {
                    self.duration_ms
                } else {
                    resume_offset_ms + elapsed
                }
            },
        }
    }

    /// Start counting elapsed time from `now_ms`, continuing from the frozen
    /// offset.  Resuming an already running clock changes nothing.
    pub fn resume(&mut self, now_ms: u64)
        requires
            old(self).wf(),
        ensures
            *final(self) == old(self).spec_resumed(now_ms),
            final(self).wf(),
            final(self).spec_position(now_ms) == old(self).spec_position(now_ms),
    {
        match self.state {
            ClockState::Frozen { offset_ms } => {
                self.state = ClockState::Anchored {
                    resumed_at_ms: now_ms,
                    resume_offset_ms: offset_ms,
                };
            },
            ClockState::Anchored { .. } => {},
        }
    }

    /// Capture the position read at `now_ms` as the frozen offset.  The
    /// reported position no longer changes until the clock is re-anchored.
    pub fn freeze(&mut self, now_ms: u64)
        requires
            old(self).wf(),
        ensures
            *final(self) == old(self).spec_frozen(now_ms),
            final(self).wf(),
            final(self).spec_position(now_ms) == old(self).spec_position(now_ms),
    {
        let p = self.position(now_ms);
        self.state = ClockState::Frozen { offset_ms: p };
    }

    /// Re-anchor after a seek that resumes playback immediately: position 0
    /// of the freshly enqueued pipeline would have started `offset_ms`
    /// before `now_ms`.
    pub fn re_anchor(&mut self, now_ms: u64, offset_ms: u64)
        requires
            old(self).wf(),
            offset_ms <= old(self).duration_ms,
        ensures
            *final(self) == old(self).spec_re_anchored(now_ms, offset_ms),
            final(self).wf(),
            final(self).spec_position(now_ms) == offset_ms,
    {
        self.state = ClockState::Anchored { resumed_at_ms: now_ms, resume_offset_ms: offset_ms };
    }

    /// Record `offset_ms` after a seek that leaves playback suspended.
    pub fn freeze_at(&mut self, offset_ms: u64)
        requires
            old(self).wf(),
            offset_ms <= old(self).duration_ms,
        ensures
            *final(self) == old(self).spec_frozen_at(offset_ms),
            final(self).wf(),
            forall|t: u64| final(self).spec_position(t) == offset_ms,
    {
        self.state = ClockState::Frozen { offset_ms };
    }
}

} // verus!
