//! The player core: one value bundling the playback state, the clock
//! anchors and the temporary-artifact accounting, mutated only through the
//! transitions below so that all of them stay consistent under a single
//! owner.
//!
//! The core decides; the unverified shell acts.  Each transition returns
//! what the shell must do with the decode pipeline, the output sink, the
//! external transcoder or the file system, and the shell reports outside
//! outcomes back as plain values.  A seek runs in three steps: [`AudioPlayer::seek`]
//! chooses the plan and hands out a ticket, the shell carries the plan out
//! (falling back via [`AudioPlayer::seek_fallback`] if the external
//! transcoder fails), and [`AudioPlayer::complete_seek`] commits the new
//! position once the replacement pipeline is enqueued.
//!
//! The shell may run the blocking transcode on a worker and issue further
//! seeks meanwhile; each new seek supersedes the outstanding one.  The
//! ticket decides: a commit bearing any ticket but the latest is refused —
//! the player is untouched and the stale artifact is handed back for
//! deletion — so the result of an outdated transcode can never overwrite a
//! newer seek, and its temporary file still cannot leak.
//!
//! Failure policy: a replacement source that fails to open or decode is
//! surfaced by the shell as an error to its caller — the shell simply never
//! calls [`AudioPlayer::complete_seek`], so the previous pipeline, position
//! and state remain authoritative, and the stale artifact (if the fast path
//! already produced one) is deleted without ever being registered.

use vstd::prelude::*;

use crate::clock::PlaybackClock;
use crate::seek::SeekPlan;
use crate::seek::spec_clamp;
use crate::seek::spec_plan;
use crate::seek::plan_seek;
use crate::seek::fallback_plan;
use crate::temp::TempArtifactManager;
use crate::timecode::str_eq;

verus! {

/// The file extensions (already lower-cased) that a dropped file may carry
/// to be played directly; anything else is treated as a video to extract
/// audio from first.
pub open spec fn spec_is_audio_extension(ext: Seq<char>) -> bool {
    ||| ext == "wav"@
    ||| ext == "mp3"@
    ||| ext == "m4a"@
    ||| ext == "flac"@
    ||| ext == "ogg"@
    ||| ext == "opus"@
}

/// Whether a dropped file's lower-cased extension names an audio format the
/// player can open directly.
pub fn is_audio_extension(ext: &str) -> (r: bool)
    ensures
        r == spec_is_audio_extension(ext@),
{
    str_eq(ext, "wav") || str_eq(ext, "mp3") || str_eq(ext, "m4a") || str_eq(ext, "flac") || str_eq(
        ext,
        "ogg",
    ) || str_eq(ext, "opus")
}

#[derive(Clone, Copy, PartialEq, Eq, Structural, Debug)]
pub enum PlaybackState {
    /// Torn down: the pipeline is gone and no artifact is tracked.
    Stopped,
    /// Output is running and the clock is anchored.
    Playing,
    /// Output is suspended and the clock is frozen.
    Paused,
}

/// What the shell must do to the pipeline when playback starts.
#[derive(Clone, Copy, PartialEq, Eq, Structural, Debug)]
pub enum PlayAction {
    /// Playback was already running: do nothing.
    AlreadyPlaying,
    /// The pipeline still holds queued audio: just resume the output sink.
    Resume,
    /// The pipeline is empty (a seek may have swapped only bookkeeping):
    /// rebuild a source positioned at `offset_ms` via the slow skip path,
    /// enqueue it, then resume the output sink.
    RebuildThenResume { offset_ms: u64 },
}

/// A committed seek's outcome: either the commit bore the latest ticket and
/// took effect, or a newer seek had superseded it and nothing changed.
/// Either way the returned path, if any, is a file the shell must delete.
#[derive(Clone, PartialEq, Eq, Debug)]
pub enum SeekCommit {
    /// The seek took effect; `purge` is the artifact it superseded.
    Applied { purge: Option<String> },
    /// A newer seek was issued while this one was in flight: the player is
    /// untouched and the stale seek's own artifact is handed back.
    Superseded { discard: Option<String> },
}

/// The playback clock and seek engine for one opened audio source.
///
/// The source's total duration is fixed at construction; every position the
/// player reports or commits lies in `[0, duration_ms]`.
#[derive(Clone, PartialEq, Eq, Debug)]
pub struct AudioPlayer {
    pub clock: PlaybackClock,
    pub state: PlaybackState,
    pub temp: TempArtifactManager,
    /// Ticket of the most recently issued seek; a commit must match it.
    pub seek_epoch: u64,
}

/// Ticket numbers grow with each seek (and, having run out of 64-bit
/// numbers, stay put rather than wrap into an old ticket's value).
pub open spec fn spec_next_epoch(e: u64) -> u64 {
    if e < u64::MAX {
        (e + 1) as u64
    } else {
        e
    }
}

impl AudioPlayer {
    /// The state, the anchors and the artifact accounting agree: the clock
    /// is anchored exactly while playing, stays within the duration, and at
    /// most the one live artifact is tracked between seeks.
    pub open spec fn wf(self) -> bool {
        &&& self.clock.wf()
        &&& (self.state is Playing <==> self.clock.is_anchored())
        &&& self.temp.spec_settled()
    }

    pub open spec fn spec_duration(self) -> u64 {
        self.clock.duration_ms
    }

    /// The position reported at wall-clock time `now_ms`.
    pub open spec fn spec_position(self, now_ms: u64) -> u64 {
        self.clock.spec_position(now_ms)
    }

    /// The player after `play` at `now_ms`, and what the shell must do.
    /// Starting playback anchors the clock at the frozen offset; playing
    /// while already playing changes nothing.
    pub open spec fn spec_play(self, now_ms: u64, sink_empty: bool) -> (AudioPlayer, PlayAction) {
        if self.state is Playing {
            (self, PlayAction::AlreadyPlaying)
        } else {
            let player = AudioPlayer {
                clock: self.clock.spec_resumed(now_ms),
                state: PlaybackState::Playing,
                ..self
            };
            let action = if sink_empty {
                PlayAction::RebuildThenResume { offset_ms: self.clock.spec_position(now_ms) }
            } else {
                PlayAction::Resume
            };
            (player, action)
        }
    }

    /// The player after `pause` at `now_ms`: while playing, the position
    /// read at `now_ms` is captured and frozen; otherwise nothing changes.
    pub open spec fn spec_pause(self, now_ms: u64) -> AudioPlayer {
        if self.state is Playing {
            AudioPlayer { clock: self.clock.spec_frozen(now_ms), state: PlaybackState::Paused, ..self }
        } else {
            self
        }
    }

    /// The player after the seek begun under `ticket` is committed at
    /// `now_ms`, and what the shell must delete or discard.
    ///
    /// With the latest ticket: the target is clamped to `[0, duration]`; a
    /// playing player resumes at the clamped target, while a seek to (or
    /// past) the end, and any seek on a non-playing player, leaves playback
    /// suspended there; a fast-path artifact supersedes the previous one,
    /// which is handed back for deletion.  With any older ticket a newer
    /// seek has superseded this one: the player is unchanged and the stale
    /// artifact itself is handed back.
    pub open spec fn spec_complete_seek(
        self,
        target_ms: u64,
        now_ms: u64,
        artifact: Option<String>,
        ticket: u64,
    ) -> (AudioPlayer, SeekCommit) {
        if ticket != self.seek_epoch {
            (self, SeekCommit::Superseded { discard: artifact })
        } else {
            let clamped = spec_clamp(target_ms, self.spec_duration());
            let resumes = self.state is Playing && clamped < self.spec_duration();
            let clock = if resumes {
                self.clock.spec_re_anchored(now_ms, clamped)
            } else {
                self.clock.spec_frozen_at(clamped)
            };
            let state = if resumes {
                PlaybackState::Playing
            } else {
                PlaybackState::Paused
            };
            match artifact {
                Some(path) => (
                    AudioPlayer {
                        clock,
                        state,
                        temp: TempArtifactManager { previous: None, current: Some(path) },
                        ..self
                    },
                    SeekCommit::Applied { purge: self.temp.current },
                ),
                None => (
                    AudioPlayer { clock, state, ..self },
                    SeekCommit::Applied { purge: None },
                ),
            }
        }
    }

    /// A freshly constructed player: pipeline enqueued but suspended at the
    /// start of the stream, no artifact yet.
    pub fn new(duration_ms: u64) -> (player: AudioPlayer)
        ensures
            player.wf(),
            player.spec_duration() == duration_ms,
            player.state is Paused,
            forall|t: u64| player.spec_position(t) == 0,
            player.temp.current is None,
    {
        AudioPlayer {
            clock: PlaybackClock::new(duration_ms),
            state: PlaybackState::Paused,
            temp: TempArtifactManager::new(),
            seek_epoch: 0,
        }
    }

    /// Total duration of the source in milliseconds (0 when the decoder
    /// could not determine one).
    pub fn duration(&self) -> (d: u64)
        ensures
            d == self.spec_duration(),
    {
        self.clock.duration_ms
    }

    pub fn playback_state(&self) -> (s: PlaybackState)
        ensures
            s == self.state,
    {
        self.state
    }

    /// Current position at wall-clock time `now_ms`: frozen offset while
    /// suspended, elapsed time since the anchor while playing, always
    /// clamped to `[0, duration]`.
    pub fn position(&self, now_ms: u64) -> (p: u64)
        requires
            self.wf(),
        ensures
            p == self.spec_position(now_ms),
            p <= self.spec_duration(),
    {
        self.clock.position(now_ms)
    }

    /// Start playback at `now_ms`.  `sink_empty` reports whether the output
    /// sink still holds queued audio; the returned action tells the shell
    /// whether to rebuild the pipeline at the paused offset before resuming
    /// output.  Playing while already playing is a no-op.
    pub fn play(&mut self, now_ms: u64, sink_empty: bool) -> (action: PlayAction)
        requires
            old(self).wf(),
        ensures
            final(self).wf(),
            (*final(self), action) == old(self).spec_play(now_ms, sink_empty),
            final(self).state is Playing,
            final(self).spec_duration() == old(self).spec_duration(),
            final(self).spec_position(now_ms) == old(self).spec_position(now_ms),
    {
        if let PlaybackState::Playing = self.state {
            PlayAction::AlreadyPlaying
        } else {
            let offset_ms = self.clock.position(now_ms);
            self.clock.resume(now_ms);
            self.state = PlaybackState::Playing;
            if sink_empty {
                PlayAction::RebuildThenResume { offset_ms }
            } else {
                PlayAction::Resume
            }
        }
    }

    /// Suspend playback at `now_ms`, capturing the current position as the
    /// frozen offset.  Pausing a player that is not playing is a no-op.
    pub fn pause(&mut self, now_ms: u64)
        requires
            old(self).wf(),
        ensures
            final(self).wf(),
            *final(self) == old(self).spec_pause(now_ms),
            !(final(self).state is Playing),
            final(self).spec_duration() == old(self).spec_duration(),
            forall|t: u64| final(self).spec_position(t) == old(self).spec_position(now_ms),
    {
        if let PlaybackState::Playing = self.state {
            self.clock.freeze(now_ms);
            self.state = PlaybackState::Paused;
        }
    }

    /// Begin a seek to `target_ms` (milliseconds into the stream;
    /// out-of-range targets are clamped): choose the plan and issue the
    /// ticket under which this seek, and no earlier one, may be committed
    /// through [`AudioPlayer::complete_seek`].  Playback state and position
    /// are untouched until then.
    pub fn seek(&mut self, target_ms: u64) -> (r: (SeekPlan, u64))
        requires
            old(self).wf(),
        ensures
            final(self).wf(),
            r.0 == spec_plan(target_ms, old(self).spec_duration()),
            r.0.spec_target() == spec_clamp(target_ms, old(self).spec_duration()),
            r.1 == final(self).seek_epoch,
            final(self).seek_epoch == spec_next_epoch(old(self).seek_epoch),
            *final(self) == (AudioPlayer {
                seek_epoch: spec_next_epoch(old(self).seek_epoch),
                ..*old(self)
            }),
    {
        self.seek_epoch = self.seek_epoch.saturating_add(1);
        (plan_seek(target_ms, self.clock.duration_ms), self.seek_epoch)
    }

    /// The plan to use when the fast path's external invocation failed: the
    /// slow path on the original file, landing on the same clamped target.
    pub fn seek_fallback(&self, target_ms: u64) -> (plan: SeekPlan)
        ensures
            plan == (SeekPlan::Slow { skip_ms: spec_clamp(target_ms, self.spec_duration()) }),
            plan.spec_target() == spec_clamp(target_ms, self.spec_duration()),
    {
        fallback_plan(target_ms, self.clock.duration_ms)
    }

    /// Commit the seek begun under `ticket` to `target_ms`, at wall-clock
    /// time `now_ms`, after the shell has successfully built the replacement
    /// pipeline.
    ///
    /// `artifact` is the temporary file a fast-path seek produced (`None`
    /// for a slow-path seek); it must already be open in the new pipeline.
    /// When the ticket is still the latest, the seek takes effect — the
    /// position immediately reads exactly the clamped target, a playing
    /// player keeps playing from there (except that a seek to or past the
    /// end leaves it paused at the duration) — and the artifact this seek
    /// superseded comes back for deletion, only now that no pipeline
    /// references it.  When a newer seek has been issued meanwhile, nothing
    /// changes and the stale artifact comes back instead; the shell must
    /// then keep the old pipeline.
    pub fn complete_seek(
        &mut self,
        target_ms: u64,
        now_ms: u64,
        artifact: Option<String>,
        ticket: u64,
    ) -> (commit: SeekCommit)
        requires
            old(self).wf(),
        ensures
            final(self).wf(),
            *final(self) == old(self).spec_complete_seek(target_ms, now_ms, artifact, ticket).0,
            commit == old(self).spec_complete_seek(target_ms, now_ms, artifact, ticket).1,
            ticket == old(self).seek_epoch ==> final(self).spec_position(now_ms) == spec_clamp(
                target_ms,
                old(self).spec_duration(),
            ),
            ticket != old(self).seek_epoch ==> *final(self) == *old(self) && commit
                == (SeekCommit::Superseded { discard: artifact }),
            final(self).spec_duration() == old(self).spec_duration(),
            final(self).temp.spec_live_count() <= 1,
            artifact is None ==> final(self).temp == old(self).temp,
    {
        if ticket != self.seek_epoch {
            return SeekCommit::Superseded { discard: artifact };
        }
        let duration_ms = self.clock.duration_ms;
        let clamped = if target_ms <= duration_ms {
            target_ms
        } else {
            duration_ms
        };
        let purge = match artifact {
            Some(path) => {
                self.temp.register(path);
                self.temp.purge_previous()
            },
            None => None,
        };
        let resumes = match self.state {
            PlaybackState::Playing => clamped < duration_ms,
            _ => false,
        };
        if resumes {
            self.clock.re_anchor(now_ms, clamped);
            self.state = PlaybackState::Playing;
        } else {
            self.clock.freeze_at(clamped);
            self.state = PlaybackState::Paused;
        }
        SeekCommit::Applied { purge }
    }

    /// Tear the player down: playback stops where it stood and the live
    /// artifact, if any, is handed out for deletion.  The shell calls this
    /// on every exit path so no temporary file is ever orphaned.
    pub fn teardown(&mut self, now_ms: u64) -> (purge: Option<String>)
        requires
            old(self).wf(),
        ensures
            final(self).wf(),
            final(self).state is Stopped,
            purge == old(self).temp.current,
            final(self).temp.spec_live_count() == 0,
            forall|t: u64| final(self).spec_position(t) == old(self).spec_position(now_ms),
            final(self).spec_duration() == old(self).spec_duration(),
    {
        self.clock.freeze(now_ms);
        self.state = PlaybackState::Stopped;
        self.temp.purge_all()
    }
}

} // verus!
