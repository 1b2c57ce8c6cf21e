//! Playback clock and seek engine for scrubbing through large audio files,
//! with the subtitle handling built around it.
//!
//! The heart of the library is [`player::AudioPlayer`]: it derives the
//! playback position from wall-clock anchors, chooses between a fast
//! (pre-transcoded window) and a slow (decode-and-skip) seek path with a
//! supersede rule for overlapping seeks, and accounts for the single
//! temporary artifact the fast path may leave on disk.  Around it,
//! [`srt_merger`] reads, shifts, merges and writes subtitle entries,
//! [`timecode`] converts times to and from text, and [`whisper`] holds the
//! speech-recognition options and the text extraction from recognized
//! subtitles.
//!
//! All times are integer milliseconds.  The unverified shell around the
//! library supplies wall-clock readings, performs the audio output and file
//! handling, runs the external transcoder and recognizer, and reports their
//! outcomes back as plain values; every decision taken on those values is
//! made — and proved — here.

pub mod clock;
pub mod laws;
pub mod player;
pub mod seek;
pub mod srt_merger;
pub mod temp;
pub mod timecode;
pub mod whisper;

pub use clock::ClockState;
pub use clock::PlaybackClock;
pub use player::AudioPlayer;
pub use player::PlayAction;
pub use player::PlaybackState;
pub use player::SeekCommit;
pub use seek::SeekPlan;
pub use temp::TempArtifactManager;
