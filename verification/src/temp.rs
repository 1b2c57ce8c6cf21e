//! Accounting for the temporary artifact the fast seek path leaves on disk.
//!
//! The fast path materializes a short transcoded segment in a temporary
//! file.  At most one such artifact may be live at a time: each new one
//! supersedes the previous, and tearing the player down removes whatever is
//! left.  Deleting files is the unverified shell's job; this manager decides
//! *which* path is to be deleted and hands it out, so that no artifact is
//! ever forgotten and none is deleted while a seek might still need it.
//!
//! The ordering rule is built into the two-step cycle: `register` records
//! the new artifact (which must already exist and be open) while the old one
//! is still tracked, and only `purge_previous` then releases the old path
//! for deletion.  A seek failure between the two steps therefore never
//! leaves the pipeline referencing a deleted file.

use vstd::prelude::*;
use vstd::string::StringExecFns;

use crate::timecode::decimal_string;
use crate::timecode::spec_decimal;

verus! {

/// The file name for the artifact of a fast seek issued at wall-clock time
/// `timestamp_ms`: `seek_<millisecondTimestamp>.wav`.  Timestamp-based and
/// best-effort unique; the shell places it in its temporary directory.
pub fn temp_artifact_name(timestamp_ms: u64) -> (name: String)
    ensures
        name@ == "seek_"@ + spec_decimal(timestamp_ms as nat) + ".wav"@,
{
    let mut name = String::from_str("seek_");
    let digits = decimal_string(timestamp_ms);
    name.append(digits.as_str());
    name.append(".wav");
    proof {
        assert(name@ =~= "seek_"@ + spec_decimal(timestamp_ms as nat) + ".wav"@);
    }
    name
}

/// Tracks zero or one outstanding temporary file, plus — only in the middle
/// of a register/purge cycle — the artifact it superseded.
#[derive(Clone, PartialEq, Eq, Debug)]
pub struct TempArtifactManager {
    /// The artifact superseded by the most recent `register`, still on disk
    /// until `purge_previous` hands it out for deletion.
    pub previous: Option<String>,
    /// The live artifact: the segment the pipeline may currently be playing.
    pub current: Option<String>,
}

impl TempArtifactManager {
    /// How many temporary files the manager believes exist on disk.
    pub open spec fn spec_live_count(self) -> int {
        (if self.previous is Some {
            1int
        } else {
            0int
        }) + (if self.current is Some {
            1int
        } else {
            0int
        })
    }

    /// No register/purge cycle is in flight: nothing awaits deletion.
    pub open spec fn spec_settled(self) -> bool {
        self.previous is None
    }

    pub fn new() -> (m: TempArtifactManager)
        ensures
            m.spec_settled(),
            m.spec_live_count() == 0,
            m.current is None,
    {
        TempArtifactManager { previous: None, current: None }
    }

    /// Record `path` as the live artifact.  The caller must have finished
    /// the previous cycle (`purge_previous` or `purge_all`), so that the
    /// artifact this one supersedes is still remembered and nothing leaks.
    pub fn register(&mut self, path: String)
        requires
            old(self).spec_settled(),
        ensures
            final(self).current == Some(path),
            final(self).previous == old(self).current,
            final(self).spec_live_count() == old(self).spec_live_count() + 1,
    {
        self.previous = self.current.take();
        self.current = Some(path);
    }

    /// Release the superseded artifact, if any, for deletion.  The caller
    /// deletes the returned path best-effort: a file already gone is not an
    /// error.
    pub fn purge_previous(&mut self) -> (doomed: Option<String>)
        ensures
            doomed == old(self).previous,
            final(self).current == old(self).current,
            final(self).spec_settled(),
            final(self).spec_live_count() == (if old(self).current is Some {
                1int
            } else {
                0int
            }),
    {
        self.previous.take()
    }

    /// Release every tracked artifact for deletion; used at teardown.
    pub fn purge_all(&mut self) -> (doomed: Option<String>)
        requires
            old(self).spec_settled(),
        ensures
            doomed == old(self).current,
            final(self).spec_settled(),
            final(self).spec_live_count() == 0,
            final(self).current is None,
    {
        self.current.take()
    }
}

} // verus!
