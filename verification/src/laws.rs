//! The guarantees the engine gives its callers, stated and proved once over
//! the transition functions of [`crate::player`] and [`crate::clock`].
//!
//! Each lemma quantifies over every reachable player (anything satisfying
//! `wf`), not over chosen values, so together with the transitions'
//! contracts they hold of any sequence of calls the shell makes.

use vstd::prelude::*;

use crate::clock::PlaybackClock;
use crate::player::AudioPlayer;
use crate::player::PlayAction;
use crate::player::SeekCommit;
use crate::seek::spec_clamp;

verus! {

/// Committing a seek under the latest ticket and reading the position at
/// once yields exactly the clamped target: the target itself when it lies
/// within the stream, the nearest bound when it does not.  This holds
/// whether the segment came from the fast path (`artifact` present) or from
/// the slow path, so a fast-path failure that fell back still lands the
/// seek correctly.
pub proof fn lemma_seek_lands_on_clamped_target(
    player: AudioPlayer,
    target_ms: u64,
    now_ms: u64,
    artifact: Option<String>,
)
    requires
        player.wf(),
    ensures
        player.spec_complete_seek(target_ms, now_ms, artifact, player.seek_epoch).0.spec_position(
            now_ms,
        ) == spec_clamp(target_ms, player.spec_duration()),
        target_ms <= player.spec_duration() ==> player.spec_complete_seek(
            target_ms,
            now_ms,
            artifact,
            player.seek_epoch,
        ).0.spec_position(now_ms) == target_ms,
        target_ms > player.spec_duration() ==> player.spec_complete_seek(
            target_ms,
            now_ms,
            artifact,
            player.seek_epoch,
        ).0.spec_position(now_ms) == player.spec_duration(),
{
}

/// A commit bearing anything but the latest ticket — the result of a seek
/// that a newer one superseded while it was in flight — changes nothing: no
/// state, no position, no artifact accounting.  Its own artifact is handed
/// back, so even a superseded transcode cannot leak its temporary file.
pub proof fn lemma_superseded_seek_is_discarded(
    player: AudioPlayer,
    target_ms: u64,
    now_ms: u64,
    artifact: Option<String>,
    ticket: u64,
)
    requires
        player.wf(),
        ticket != player.seek_epoch,
    ensures
        player.spec_complete_seek(target_ms, now_ms, artifact, ticket).0 == player,
        player.spec_complete_seek(target_ms, now_ms, artifact, ticket).1
            == (SeekCommit::Superseded { discard: artifact }),
{
}

/// While the clock is anchored, the position at any instant `t` at or after
/// the resume instant is the resume offset plus the elapsed real time,
/// capped at the duration.
pub proof fn lemma_playing_position_formula(c: PlaybackClock, t: u64)
    requires
        c.wf(),
        c.is_anchored(),
        t >= c.state->resumed_at_ms,
    ensures
        c.spec_position(t) as int == {
            let advanced = c.state->resume_offset_ms + (t - c.state->resumed_at_ms);
            if advanced <= c.duration_ms {
                advanced
            } else {
                c.duration_ms as int
            }
        },
        c.spec_position(c.state->resumed_at_ms) == c.state->resume_offset_ms,
{
}

/// The reported position never decreases as wall-clock time advances,
/// playing or not.
pub proof fn lemma_position_monotonic(c: PlaybackClock, t1: u64, t2: u64)
    requires
        c.wf(),
        t1 <= t2,
    ensures
        c.spec_position(t1) <= c.spec_position(t2),
{
}

/// A player that is not playing reports the same position at every instant:
/// repeated reads over real time see no drift.
pub proof fn lemma_suspended_position_constant(player: AudioPlayer, t1: u64, t2: u64)
    requires
        player.wf(),
        !(player.state is Playing),
    ensures
        player.spec_position(t1) == player.spec_position(t2),
{
}

/// After a pause at `now_ms`, every later read returns the position that
/// was captured at `now_ms`.
pub proof fn lemma_pause_freezes_position(player: AudioPlayer, now_ms: u64, t: u64)
    requires
        player.wf(),
    ensures
        player.spec_pause(now_ms).spec_position(t) == player.spec_position(now_ms),
{
}

/// Pausing twice in a row, at any two instants, has the same observable
/// effect as pausing once: the second pause changes nothing at all.
pub proof fn lemma_pause_idempotent(player: AudioPlayer, t1: u64, t2: u64)
    requires
        player.wf(),
    ensures
        player.spec_pause(t1).spec_pause(t2) == player.spec_pause(t1),
{
}

/// Starting playback on a player that is already playing is a no-op: the
/// player is unchanged and the shell is told to do nothing.
pub proof fn lemma_play_while_playing_is_noop(player: AudioPlayer, now_ms: u64, sink_empty: bool)
    requires
        player.wf(),
        player.state is Playing,
    ensures
        player.spec_play(now_ms, sink_empty) == (player, PlayAction::AlreadyPlaying),
{
}

/// Hence playing twice in a row has the same effect on the player as
/// playing once.
pub proof fn lemma_play_idempotent(
    player: AudioPlayer,
    t1: u64,
    t2: u64,
    e1: bool,
    e2: bool,
)
    requires
        player.wf(),
    ensures
        player.spec_play(t1, e1).0.spec_play(t2, e2).0 == player.spec_play(t1, e1).0,
{
}

/// Every transition preserves well-formedness, and a committed seek leaves
/// at most one temporary artifact tracked — the superseded one having been
/// handed out for deletion.  Since `play` and `pause` do not touch the
/// artifact accounting and teardown empties it, no sequence of calls can
/// accumulate temporary files.
pub proof fn lemma_at_most_one_artifact(
    player: AudioPlayer,
    target_ms: u64,
    now_ms: u64,
    artifact: Option<String>,
    ticket: u64,
)
    requires
        player.wf(),
    ensures
        player.spec_complete_seek(target_ms, now_ms, artifact, ticket).0.wf(),
        player.spec_complete_seek(target_ms, now_ms, artifact, ticket).0.temp.spec_live_count()
            <= 1,
        player.spec_play(now_ms, false).0.temp == player.temp,
        player.spec_play(now_ms, true).0.temp == player.temp,
        player.spec_pause(now_ms).temp == player.temp,
{
}

/// A seek committed under the latest ticket exchanges the tracked artifact
/// exactly when the fast path produced a new one: the new path becomes the
/// only one tracked and the old one is the path handed out for deletion; a
/// slow-path commit leaves the accounting untouched.
pub proof fn lemma_seek_artifact_exchange(
    player: AudioPlayer,
    target_ms: u64,
    now_ms: u64,
    path: String,
)
    requires
        player.wf(),
    ensures
        player.spec_complete_seek(
            target_ms,
            now_ms,
            Some(path),
            player.seek_epoch,
        ).0.temp.current == Some(path),
        player.spec_complete_seek(target_ms, now_ms, Some(path), player.seek_epoch).1
            == (SeekCommit::Applied { purge: player.temp.current }),
        player.spec_complete_seek(target_ms, now_ms, None, player.seek_epoch).0.temp
            == player.temp,
        player.spec_complete_seek(target_ms, now_ms, None, player.seek_epoch).1
            == (SeekCommit::Applied { purge: None::<String> }),
{
}

} // verus!
