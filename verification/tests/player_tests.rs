use playback_core::player::AudioPlayer;
use playback_core::player::PlayAction;
use playback_core::player::PlaybackState;
use playback_core::player::SeekCommit;
use playback_core::player::is_audio_extension;
use playback_core::seek::SeekPlan;

fn applied(commit: SeekCommit) -> Option<String> {
    match commit {
        SeekCommit::Applied { purge } => purge,
        SeekCommit::Superseded { .. } => panic!("seek was unexpectedly superseded"),
    }
}

#[test]
fn new_player_starts_paused_at_zero() {
    let p = AudioPlayer::new(120_000);
    assert_eq!(p.duration(), 120_000);
    assert_eq!(p.playback_state(), PlaybackState::Paused);
    assert_eq!(p.position(0), 0);
    assert_eq!(p.position(99_999), 0);
}

#[test]
fn scenario_two_minute_file() {
    // A two-minute source; times below are wall-clock milliseconds.
    let mut p = AudioPlayer::new(120_000);

    // Seek to 50 s while paused: position reads exactly 50 s.
    let (plan, ticket) = p.seek(50_000);
    assert_eq!(plan, SeekPlan::Fast { start_ms: 50_000, window_ms: 30_000 });
    let purge = applied(p.complete_seek(50_000, 1_000, Some(String::from("seek_1000.wav")), ticket));
    assert_eq!(purge, None);
    assert_eq!(p.position(1_000), 50_000);
    assert_eq!(p.playback_state(), PlaybackState::Paused);

    // Play, then 5 s of real time elapse: position is 55 s.
    let action = p.play(2_000, false);
    assert_eq!(action, PlayAction::Resume);
    assert_eq!(p.position(2_000), 50_000);
    assert_eq!(p.position(7_000), 55_000);

    // Seek to 200 s: clamped to the 120 s duration, playback left paused.
    let (plan, ticket) = p.seek(200_000);
    assert_eq!(plan, SeekPlan::Fast { start_ms: 120_000, window_ms: 0 });
    let purge = applied(p.complete_seek(200_000, 8_000, Some(String::from("seek_8000.wav")), ticket));
    assert_eq!(purge, Some(String::from("seek_1000.wav")));
    assert_eq!(p.position(8_000), 120_000);
    assert_eq!(p.position(60_000), 120_000);
    assert_eq!(p.playback_state(), PlaybackState::Paused);

    // Seek to 10 s, then pause: position reads exactly 10 s.
    let (plan, ticket) = p.seek(10_000);
    assert_eq!(plan, SeekPlan::Fast { start_ms: 10_000, window_ms: 30_000 });
    let purge = applied(p.complete_seek(10_000, 9_000, Some(String::from("seek_9000.wav")), ticket));
    assert_eq!(purge, Some(String::from("seek_8000.wav")));
    p.pause(9_500);
    assert_eq!(p.position(9_500), 10_000);
    assert_eq!(p.position(99_999), 10_000);
}

#[test]
fn seek_in_range_lands_exactly() {
    for &target in &[0u64, 1, 999, 1_000, 1_001, 60_000, 119_999, 120_000] {
        let mut p = AudioPlayer::new(120_000);
        let (plan, ticket) = p.seek(target);
        let artifact = match plan {
            SeekPlan::Slow { skip_ms } => {
                assert_eq!(skip_ms, target);
                assert!(target < 1_000);
                None
            }
            SeekPlan::Fast { start_ms, window_ms } => {
                assert_eq!(start_ms, target);
                assert_eq!(window_ms, 30_000.min(120_000 - target));
                Some(String::from("seek_x.wav"))
            }
        };
        p.complete_seek(target, 5_000, artifact, ticket);
        assert_eq!(p.position(5_000), target);
    }
}

#[test]
fn seek_out_of_range_clamps_to_duration() {
    let mut p = AudioPlayer::new(120_000);
    let (plan, ticket) = p.seek(1_000_000);
    assert_eq!(plan, SeekPlan::Fast { start_ms: 120_000, window_ms: 0 });
    p.complete_seek(1_000_000, 3_000, None, ticket);
    assert_eq!(p.position(3_000), 120_000);
    assert_eq!(p.playback_state(), PlaybackState::Paused);
}

#[test]
fn playing_position_tracks_elapsed_time_and_clamps() {
    let mut p = AudioPlayer::new(10_000);
    let action = p.play(1_000, true);
    assert_eq!(action, PlayAction::RebuildThenResume { offset_ms: 0 });
    assert_eq!(p.playback_state(), PlaybackState::Playing);
    let mut last: u64 = 0;
    for &t in &[1_000u64, 1_001, 2_500, 9_000, 10_999, 11_000, 50_000] {
        let pos = p.position(t);
        assert_eq!(pos, (t - 1_000).min(10_000));
        assert!(pos >= last);
        last = pos;
    }
}

#[test]
fn paused_position_does_not_drift() {
    let mut p = AudioPlayer::new(60_000);
    let (_, ticket) = p.seek(30_000);
    p.complete_seek(30_000, 0, None, ticket);
    p.play(1_000, false);
    p.pause(4_000);
    let frozen = p.position(4_000);
    assert_eq!(frozen, 33_000);
    for &t in &[4_000u64, 4_001, 10_000, 1_000_000] {
        assert_eq!(p.position(t), frozen);
    }
}

#[test]
fn pause_twice_equals_pause_once() {
    let mut once = AudioPlayer::new(60_000);
    once.play(0, false);
    let mut twice = once.clone();
    once.pause(5_000);
    twice.pause(5_000);
    twice.pause(9_000);
    assert_eq!(once, twice);
}

#[test]
fn play_while_playing_is_noop() {
    let mut p = AudioPlayer::new(60_000);
    p.play(1_000, false);
    let snapshot = p.clone();
    let action = p.play(30_000, true);
    assert_eq!(action, PlayAction::AlreadyPlaying);
    assert_eq!(p, snapshot);
    assert_eq!(p.position(31_000), 30_000);
}

#[test]
fn fast_path_failure_falls_back_and_still_lands() {
    let mut p = AudioPlayer::new(120_000);
    let (plan, ticket) = p.seek(40_000);
    assert_eq!(plan, SeekPlan::Fast { start_ms: 40_000, window_ms: 30_000 });
    // The external transcoder "failed": take the slow path on the original
    // file instead, with no new artifact, under the same ticket.
    let fallback = p.seek_fallback(40_000);
    assert_eq!(fallback, SeekPlan::Slow { skip_ms: 40_000 });
    let purge = applied(p.complete_seek(40_000, 2_000, None, ticket));
    assert_eq!(purge, None);
    assert_eq!(p.position(2_000), 40_000);
}

#[test]
fn newer_seek_supersedes_an_outstanding_one() {
    let mut p = AudioPlayer::new(120_000);
    // A first seek goes out to the transcoder...
    let (_, stale_ticket) = p.seek(30_000);
    // ...and before it comes back, the user seeks again.
    let (_, fresh_ticket) = p.seek(70_000);
    let fresh = applied(p.complete_seek(70_000, 5_000, Some(String::from("seek_b.wav")), fresh_ticket));
    assert_eq!(fresh, None);
    assert_eq!(p.position(5_000), 70_000);
    let snapshot = p.clone();
    // The stale transcode lands late: it must be discarded, not applied,
    // and its temporary file handed back for deletion.
    let commit = p.complete_seek(30_000, 6_000, Some(String::from("seek_a.wav")), stale_ticket);
    assert_eq!(
        commit,
        SeekCommit::Superseded { discard: Some(String::from("seek_a.wav")) }
    );
    assert_eq!(p, snapshot);
    assert_eq!(p.position(6_000), 70_000);
}

#[test]
fn at_most_one_artifact_across_seeks_and_teardown() {
    let mut p = AudioPlayer::new(600_000);
    // Simulated disk: the artifact files currently existing.
    let mut disk: Vec<String> = Vec::new();
    let mut now: u64 = 0;
    for i in 0..5u64 {
        now += 1_000;
        let target: u64 = 10_000 + 20_000 * i;
        let (plan, ticket) = p.seek(target);
        let name = match plan {
            SeekPlan::Fast { start_ms, .. } => format!("seek_{}.wav", start_ms),
            SeekPlan::Slow { .. } => panic!("targets at or past one second take the fast path"),
        };
        disk.push(name.clone());
        if let Some(old) = applied(p.complete_seek(target, now, Some(name), ticket)) {
            disk.retain(|f| *f != old);
        }
        assert!(disk.len() <= 1, "more than one artifact after a seek");
        assert_eq!(p.position(now), target);
    }
    if let Some(old) = p.teardown(now) {
        disk.retain(|f| *f != old);
    }
    assert!(disk.is_empty(), "teardown left an artifact behind");
    assert_eq!(p.playback_state(), PlaybackState::Stopped);
}

#[test]
fn slow_seek_keeps_existing_artifact() {
    let mut p = AudioPlayer::new(120_000);
    let (_, ticket) = p.seek(50_000);
    p.complete_seek(50_000, 0, Some(String::from("seek_a.wav")), ticket);
    // A near-start seek takes the slow path and produces no artifact; the
    // previous one stays until the next fast seek or teardown.
    let (plan, ticket) = p.seek(500);
    assert_eq!(plan, SeekPlan::Slow { skip_ms: 500 });
    let purge = applied(p.complete_seek(500, 1_000, None, ticket));
    assert_eq!(purge, None);
    let purge = p.teardown(2_000);
    assert_eq!(purge, Some(String::from("seek_a.wav")));
}

#[test]
fn seek_while_playing_resumes_at_target() {
    let mut p = AudioPlayer::new(120_000);
    p.play(0, false);
    let (_, ticket) = p.seek(90_000);
    p.complete_seek(90_000, 10_000, None, ticket);
    assert_eq!(p.playback_state(), PlaybackState::Playing);
    assert_eq!(p.position(10_000), 90_000);
    assert_eq!(p.position(15_000), 95_000);
}

#[test]
fn play_after_seek_rebuilds_empty_sink_at_offset() {
    let mut p = AudioPlayer::new(120_000);
    let (_, ticket) = p.seek(30_000);
    p.complete_seek(30_000, 0, None, ticket);
    // The swap left the sink without queued audio: play must rebuild a
    // source positioned at the paused offset.
    let action = p.play(1_000, true);
    assert_eq!(action, PlayAction::RebuildThenResume { offset_ms: 30_000 });
    assert_eq!(p.position(6_000), 35_000);
}

#[test]
fn audio_extension_whitelist() {
    for ext in ["wav", "mp3", "m4a", "flac", "ogg", "opus"] {
        assert!(is_audio_extension(ext));
    }
    for ext in ["mp4", "mkv", "avi", "", "wav ", "WAV"] {
        assert!(!is_audio_extension(ext));
    }
}
