//! Deletion as a sequence of decisions: which removal each candidate
//! needs, and what becomes of the batch as the outcomes come in.
//!
//! The candidates are fixed before the first removal. One entry's failure
//! neither stops the batch nor undoes what was removed before.

use crate::entry::{EntryView, FSEntry};
use vstd::prelude::*;
use vstd::string::StringExecFns;

verus! {

/// How an entry is to be removed.
#[derive(Debug, Clone, Copy, PartialEq, Eq, Structural)]
pub enum RemovalAction {
    /// Remove a file.
    RemoveFile,
    /// Remove a directory if it is empty, and report it as not empty
    /// otherwise.
    RemoveEmptyDirectory,
    /// Remove a directory with all that it contains.
    RemoveTree,
}

/// Why an entry could not be removed.
#[derive(Debug)]
pub enum RemovalFailure {
    PermissionDenied,
    NotFound,
    DirectoryNotEmpty,
    /// Any other failure, with its description.
    Other(String),
}

/// The removal an entry needs: a directory goes with its contents only in
/// a recursive deletion, and only if empty otherwise; anything else is
/// removed as a file.
pub open spec fn planned_action(e: EntryView, recursive: bool) -> RemovalAction {
    if e.is_dir {
        if recursive {
            RemovalAction::RemoveTree
        } else {
            RemovalAction::RemoveEmptyDirectory
        }
    } else {
        RemovalAction::RemoveFile
    }
}

/// The message for a failure to remove what is at `path`.
pub open spec fn failure_text(failure: RemovalFailure, path: Seq<char>) -> Seq<char> {
    match failure {
        RemovalFailure::PermissionDenied => "Permission denied: "@ + path,
        RemovalFailure::NotFound => "No such file or directory: "@ + path,
        RemovalFailure::DirectoryNotEmpty => "Directory not empty (use recursive flag to delete): "@
            + path,
        RemovalFailure::Other(detail) => "Failed to delete "@ + path + ": "@ + detail@,
    }
}

/// The entry as it is reported after a failure: itself, with the message
/// added to its name.
pub open spec fn marked(e: EntryView, failure: RemovalFailure) -> EntryView {
    EntryView { name: e.name + " - "@ + failure_text(failure, e.path), ..e }
}

/// The state of a batch: the candidates, how many of them have been dealt
/// with, the failures reported and the removals counted so far.
pub struct BatchView {
    pub candidates: Seq<FSEntry>,
    pub recursive: bool,
    pub dry_run: bool,
    pub done: nat,
    pub failed: Seq<EntryView>,
    pub deleted: nat,
}

impl BatchView {
    /// Whether a removal is still to be made. A dry run makes none.
    pub open spec fn has_pending(self) -> bool {
        !self.dry_run && self.done < self.candidates.len()
    }

    /// The state after the outcome of the pending removal, or the state
    /// itself if none is pending.
    pub open spec fn after(self, outcome: Result<(), RemovalFailure>) -> BatchView {
        if !self.has_pending() {
            self
        } else {
            match outcome {
                Ok(_) => BatchView { done: self.done + 1, deleted: self.deleted + 1, ..self },
                Err(failure) => BatchView {
                    done: self.done + 1,
                    failed: self.failed.push(marked(self.candidates[self.done as int]@, failure)),
                    ..self
                },
            }
        }
    }
}

/// A deletion in progress.
pub struct DeletionBatch {
    candidates: Vec<FSEntry>,
    recursive: bool,
    dry_run: bool,
    next: usize,
    failed: Vec<FSEntry>,
    deleted_count: usize,
}

impl View for DeletionBatch {
    type V = BatchView;

    closed spec fn view(&self) -> BatchView {
        BatchView {
            candidates: self.candidates@,
            recursive: self.recursive,
            dry_run: self.dry_run,
            done: self.next as nat,
            failed: crate::entry::views_of(self.failed@),
            deleted: self.deleted_count as nat,
        }
    }
}

/// The removal an entry needs.
pub fn removal_action(entry: &FSEntry, recursive: bool) -> (r: RemovalAction)
    ensures
        r == planned_action(entry@, recursive),
{
    if entry.is_dir {
        if recursive {
            RemovalAction::RemoveTree
        } else {
            RemovalAction::RemoveEmptyDirectory
        }
    } else {
        RemovalAction::RemoveFile
    }
}

/// The message for a failure to remove what is at `path`.
pub fn failure_message(failure: &RemovalFailure, path: &str) -> (r: String)
    ensures
        r@ == failure_text(*failure, path@),
{
    match failure {
        RemovalFailure::PermissionDenied => String::from_str("Permission denied: ").concat(path),
        RemovalFailure::NotFound => String::from_str("No such file or directory: ").concat(path),
        RemovalFailure::DirectoryNotEmpty => String::from_str(
            "Directory not empty (use recursive flag to delete): ",
        ).concat(path),
        RemovalFailure::Other(detail) => String::from_str("Failed to delete ").concat(path).concat(
            ": ",
        ).concat(detail.as_str()),
    }
}

/// The entry as it is reported after a failure.
pub fn mark_failed(entry: &FSEntry, failure: &RemovalFailure) -> (r: FSEntry)
    ensures
        r@ == marked(entry@, *failure),
{
    let message = failure_message(failure, entry.path.as_str());
    let name = entry.name.clone().concat(" - ").concat(message.as_str());
    let copy = entry.clone();
    FSEntry {
        name,
        path: copy.path,
        size: copy.size,
        is_dir: copy.is_dir,
        is_file: copy.is_file,
        is_hidden: copy.is_hidden,
        modified: copy.modified,
        created: copy.created,
        extension: copy.extension,
        permissions: copy.permissions,
    }
}

impl DeletionBatch {
    #[verifier::type_invariant]
    spec fn counts_agree(&self) -> bool {
        &&& self.next <= self.candidates@.len()
        &&& self.deleted_count + self.failed@.len() == self.next
    }

    /// A batch over `candidates`, none of them dealt with yet.
    pub fn new(candidates: Vec<FSEntry>, recursive: bool, dry_run: bool) -> (r: Self)
        ensures
            r@ == (BatchView {
                candidates: candidates@,
                recursive,
                dry_run,
                done: 0,
                failed: Seq::empty(),
                deleted: 0,
            }),
    {
        let failed: Vec<FSEntry> = Vec::new();
        assert(crate::entry::views_of(failed@) =~= Seq::<EntryView>::empty());
        DeletionBatch { candidates, recursive, dry_run, next: 0, failed, deleted_count: 0 }
    }

    /// The entry to remove next and the removal it needs; `None` once every
    /// candidate has been dealt with, and always in a dry run.
    pub fn pending(&self) -> (r: Option<(&FSEntry, RemovalAction)>)
        ensures
            r is Some == self@.has_pending(),
            r matches Some((entry, action)) ==> *entry == self@.candidates[self@.done as int]
                && action == planned_action(entry@, self@.recursive),
    {
        proof {
            use_type_invariant(self);
        }
        if self.dry_run || self.next >= self.candidates.len() {
            None
        } else {
            let entry = &self.candidates[self.next];
            Some((entry, removal_action(entry, self.recursive)))
        }
    }

    /// The batch after the outcome of the pending removal: a success is
    /// counted, a failure reported with its message. If no removal was
    /// pending, the batch is returned as it was.
    pub fn record(self, outcome: Result<(), RemovalFailure>) -> (r: Self)
        ensures
            r@ == self@.after(outcome),
    {
        proof {
            use_type_invariant(&self);
        }
        if self.dry_run || self.next >= self.candidates.len() {
            return self;
        }
        let DeletionBatch { candidates, recursive, dry_run, next, failed, deleted_count } = self;
        let mut failed = failed;
        match &outcome {
            Ok(_) => DeletionBatch {
                candidates,
                recursive,
                dry_run,
                next: next + 1,
                failed,
                deleted_count: deleted_count + 1,
            },
            Err(failure) => {
                let entry = mark_failed(&candidates[next], failure);
                proof {
                    assert(crate::entry::views_of(failed@.push(entry)) =~= crate::entry::views_of(
                        failed@,
                    ).push(entry@));
                }
                failed.push(entry);
                DeletionBatch {
                    candidates,
                    recursive,
                    dry_run,
                    next: next + 1,
                    failed,
                    deleted_count,
                }
            },
        }
    }

    /// What the batch reports: in a dry run the candidates themselves and
    /// no removal; otherwise the failures, in the order they came, and the
    /// number of entries removed.
    pub fn finish(self) -> (r: (Vec<FSEntry>, usize))
        ensures
            self@.dry_run ==> r.0@ == self@.candidates && r.1 == 0,
            !self@.dry_run ==> crate::entry::views_of(r.0@) == self@.failed && r.1
                == self@.deleted,
    {
        if self.dry_run {
            (self.candidates, 0)
        } else {
            (self.failed, self.deleted_count)
        }
    }
}

/// A dry run never asks for a removal, and whatever outcomes it is told
/// of, it reports its candidates and counts nothing.
pub proof fn lemma_dry_run_changes_nothing(state: BatchView, outcome: Result<(), RemovalFailure>)
    requires
        state.dry_run,
    ensures
        !state.has_pending(),
        state.after(outcome) == state,
{
}

/// A directory that is not empty, met without the recursive flag, is
/// reported as such and not counted.
pub proof fn lemma_directory_not_empty_is_reported(state: BatchView)
    requires
        state.has_pending(),
        state.candidates[state.done as int].is_dir,
        !state.recursive,
    ensures
        planned_action(state.candidates[state.done as int]@, state.recursive)
            == RemovalAction::RemoveEmptyDirectory,
        state.after(Err(RemovalFailure::DirectoryNotEmpty)).deleted == state.deleted,
        state.after(Err(RemovalFailure::DirectoryNotEmpty)).failed == state.failed.push(
            marked(state.candidates[state.done as int]@, RemovalFailure::DirectoryNotEmpty),
        ),
{
}

/// A directory removed with its contents counts as one entry, however
/// much was below it.
pub proof fn lemma_tree_counts_once(state: BatchView)
    requires
        state.has_pending(),
        state.candidates[state.done as int].is_dir,
        state.recursive,
    ensures
        planned_action(state.candidates[state.done as int]@, state.recursive)
            == RemovalAction::RemoveTree,
        state.after(Ok(())).deleted == state.deleted + 1,
        state.after(Ok(())).failed == state.failed,
{
}

} // verus!
