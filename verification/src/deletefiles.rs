//! Retiring obsolete files named by a bundle's deletion list.

use vstd::prelude::*;

use crate::tool::{join_path, FileRemover, RemoveOutcome};

verus! {

/// Failure to process a deletion list as a whole (per-entry removal
/// failures are tallied, not raised).
#[derive(Debug, Clone, PartialEq, Eq)]
pub enum DeleteFileError {
    /// The deletion-list file itself was absent (distinct from a present
    /// but empty list).
    NotFound(String),
    Io(String),
}

/// How many outcomes report an actual removal. A `Missing` file is an
/// acceptable end state but not a removal; a `Failed` one is a non-fatal
/// miss; neither counts.
pub open spec fn spec_removed_count(s: Seq<RemoveOutcome>) -> int
    decreases s.len(),
{
    if s.len() == 0 {
        0
    } else {
        spec_removed_count(s.drop_last()) + if s.last() == RemoveOutcome::Removed {
            1int
        } else {
            0int
        }
    }
}

/// One more outcome raises the tally exactly when it reports an actual
/// removal: an already-missing file and a failed removal both leave the
/// count unchanged, and neither stops the processing of later lines.
pub proof fn lemma_removed_count_step(s: Seq<RemoveOutcome>, outcome: RemoveOutcome)
    ensures
        spec_removed_count(s.push(outcome)) == spec_removed_count(s) + (
        if outcome == RemoveOutcome::Removed {
            1int
        } else {
            0int
        }),
{
    assert(s.push(outcome).drop_last() =~= s);
}

pub proof fn lemma_removed_count_bounds(s: Seq<RemoveOutcome>)
    ensures
        0 <= spec_removed_count(s) <= s.len(),
    decreases s.len(),
{
    if s.len() > 0 {
        lemma_removed_count_bounds(s.drop_last());
    }
}

/// Whether `r` is the `NotFound` error citing `path`.
pub open spec fn is_not_found<A>(r: Result<A, DeleteFileError>, path: Seq<char>) -> bool {
    match r {
        Err(DeleteFileError::NotFound(p)) => p@ == path,
        _ => false,
    }
}

/// Removes the files a bundle's deletion list names, best effort per
/// entry, and keeps a tally of the files actually removed.
pub struct DeleteFiles {
    pub game_path: String,
    /// How many files the `remove` calls so far actually removed.
    pub count: u32,
}

impl DeleteFiles {
    pub fn new(game_path: String) -> (r: Self)
        ensures
            r.game_path == game_path,
            r.count == 0,
    {
        DeleteFiles { game_path, count: 0 }
    }

    /// Processes one deletion list, given as the list file's lines, or
    /// `None` when the list file itself was absent — the distinguished
    /// `NotFound` condition, reported with the file's path. Every line,
    /// blank or duplicate alike, is handed to the remover as a path under
    /// the installation root; the tally grows by exactly the number of
    /// outcomes that report a removal, so a missing file leaves the count
    /// untouched without raising an error, and so does any other miss.
    pub fn remove<R: FileRemover>(
        &mut self,
        remover: &R,
        deletefiles_path: &String,
        list: Option<&Vec<String>>,
    ) -> (r: Result<Vec<RemoveOutcome>, DeleteFileError>)
        requires
            list matches Some(l) ==> old(self).count + l@.len() <= u32::MAX,
        ensures
            final(self).game_path == old(self).game_path,
            match list {
                None => is_not_found(r, deletefiles_path@) && final(self).count == old(
                    self,
                ).count,
                Some(l) => r matches Ok(oc) && oc@.len() == l@.len() && final(self).count == old(
                    self,
                ).count + spec_removed_count(oc@),
            },
    {
        let lines = match list {
            None => {
                return Err(DeleteFileError::NotFound(deletefiles_path.clone()));
            },
            Some(l) => l,
        };
        let mut outcomes: Vec<RemoveOutcome> = Vec::new();
        let mut i: usize = 0;
        while i < lines.len()
            invariant
                i <= lines@.len(),
                outcomes@.len() == i,
                old(self).count + lines@.len() <= u32::MAX,
                self.game_path == old(self).game_path,
                self.count == old(self).count + spec_removed_count(outcomes@),
            decreases lines@.len() - i,
        {
            let full_path = join_path(self.game_path.as_str(), lines[i].as_str());
            let outcome = remover.remove(&full_path);
            let ghost before = outcomes@;
            outcomes.push(outcome);
            proof {
                assert(outcomes@ =~= before.push(outcome));
                lemma_removed_count_step(before, outcome);
                lemma_removed_count_bounds(before);
            }
            if matches!(outcome, RemoveOutcome::Removed) {
                self.count = self.count + 1;
            }
            i = i + 1;
        }
        Ok(outcomes)
    }

    pub fn count(&self) -> (r: u32)
        ensures
            r == self.count,
    {
        self.count
    }
}

} // verus!
