//! A record of how far a combined export has come.
//!
//! It is advisory: everything it names is measured again before it is reused.
//! That is what makes a crash in the middle of a batch safe: the half-written
//! batch was never recorded, and a record that is wrong cannot cause a bad file
//! to be trusted.
use vstd::prelude::*;
use vstd::string::*;

use crate::text;
use crate::text::views;

verus! {

/// File name of the record in its work directory.
pub const CHECKPOINT_FILE: &'static str = "resume.json";

/// Progress record of a combined export.
#[derive(Debug, Clone)]
pub struct Checkpoint {
    /// Playlist name, for display when resuming.
    pub playlist: String,
    /// ffmpeg codec that the files were produced with.
    pub encoder: String,
    /// "render" while clips are produced, "combine" during the ladder, "done"
    /// once the final video exists.
    pub stage: String,
    /// Track indices whose clip is finished.
    pub completed_clips: Vec<usize>,
    /// Batch files that are finished.
    pub completed_batches: Vec<String>,
}

impl Default for Checkpoint {
    fn default() -> (r: Self)
        ensures
            r.playlist@.len() == 0,
            r.encoder@.len() == 0,
            r.stage@.len() == 0,
            r.clips().len() == 0,
            r.batches().len() == 0,
    {
        Checkpoint {
            playlist: String::new(),
            encoder: String::new(),
            stage: String::new(),
            completed_clips: Vec::new(),
            completed_batches: Vec::new(),
        }
    }
}

/// A list with an entry added at its end, unless it is there already.
pub open spec fn with_entry<T>(list: Seq<T>, entry: T) -> Seq<T> {
    if list.contains(entry) {
        list
    } else {
        list.push(entry)
    }
}

impl Checkpoint {
    /// The finished clips.
    pub open spec fn clips(self) -> Seq<usize> {
        self.completed_clips@
    }

    /// The finished batch files.
    pub open spec fn batches(self) -> Seq<Seq<char>> {
        views(self.completed_batches@)
    }

    /// Nothing is listed twice.
    pub open spec fn well_formed(self) -> bool {
        self.clips().no_duplicates() && self.batches().no_duplicates()
    }

    /// Where the record of a work directory stands: the names that lead to the
    /// directory, and its own.
    pub fn path(workdir: &[String]) -> (r: Vec<String>)
        ensures
            views(r@) == views(workdir@).push(CHECKPOINT_FILE@),
    {
        let mut r: Vec<String> = Vec::new();
        text::put_all(&mut r, workdir);
        text::put(&mut r, CHECKPOINT_FILE);
        assert(views(r@) =~= views(workdir@).push(CHECKPOINT_FILE@));
        r
    }

    /// The record that was found, else an empty one.
    pub fn load_or_new(found: Option<Checkpoint>) -> (r: Self)
        ensures
            found is Some ==> r == found->0,
            found is None ==> r.clips().len() == 0 && r.batches().len() == 0 && r.playlist@.len()
                == 0 && r.encoder@.len() == 0 && r.stage@.len() == 0,
    {
        match found {
            Some(c) => c,
            None => Checkpoint::default(),
        }
    }

    /// Sets how far the export has come.
    pub fn set_stage(&mut self, stage: &str)
        ensures
            final(self).stage@ == stage@,
            final(self).playlist == old(self).playlist,
            final(self).encoder == old(self).encoder,
            final(self).completed_clips == old(self).completed_clips,
            final(self).completed_batches == old(self).completed_batches,
    {
        self.stage = stage.to_owned();
    }

    /// Records a finished clip.
    pub fn record_clip(&mut self, index: usize)
        ensures
            final(self).clips() == with_entry(old(self).clips(), index),
            final(self).playlist == old(self).playlist,
            final(self).encoder == old(self).encoder,
            final(self).stage == old(self).stage,
            final(self).completed_batches == old(self).completed_batches,
    {
        for i in 0..self.completed_clips.len()
            invariant
                *self == *old(self),
                forall|j: int| 0 <= j < i ==> self.completed_clips@[j] != index,
        {
            if self.completed_clips[i] == index {
                return;
            }
        }
        self.completed_clips.push(index);
    }

    /// Records a finished batch.
    pub fn record_batch(&mut self, name: &str)
        ensures
            final(self).batches() == with_entry(old(self).batches(), name@),
            final(self).playlist == old(self).playlist,
            final(self).encoder == old(self).encoder,
            final(self).stage == old(self).stage,
            final(self).completed_clips == old(self).completed_clips,
    {
        if !text::holds(self.completed_batches.as_slice(), name) {
            text::put(&mut self.completed_batches, name);
        }
    }

    /// Whether the batch is recorded as finished.
    pub fn has_batch(&self, name: &str) -> (r: bool)
        ensures
            r == self.batches().contains(name@),
    {
        text::holds(self.completed_batches.as_slice(), name)
    }

    /// Whether the record carries progress worth reporting.
    pub fn has_progress(&self) -> (r: bool)
        ensures
            r == (self.clips().len() > 0 || self.batches().len() > 0),
    {
        self.completed_clips.len() > 0 || self.completed_batches.len() > 0
    }
}

/// Recording an entry lists it, keeps every other one, and never lists one twice.
pub proof fn law_recording_lists_an_entry_once<T>(list: Seq<T>, entry: T)
    requires
        list.no_duplicates(),
    ensures
        with_entry(list, entry).contains(entry),
        with_entry(list, entry).no_duplicates(),
        forall|e: T| #[trigger]
            with_entry(list, entry).contains(e) <==> list.contains(e) || e == entry,
        with_entry(with_entry(list, entry), entry) == with_entry(list, entry),
{
    let after = with_entry(list, entry);
    if !list.contains(entry) {
        assert(after[list.len() as int] == entry);
        assert forall|e: T| list.contains(e) implies #[trigger] after.contains(e) by {
            let k = choose|k: int| 0 <= k < list.len() && list[k] == e;
            assert(after[k] == e);
        }
        assert forall|e: T| #[trigger] after.contains(e) && e != entry implies list.contains(e) by {
            let k = choose|k: int| 0 <= k < after.len() && after[k] == e;
            assert(list[k] == e);
        }
    }
}

} // verus!
