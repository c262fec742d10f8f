//! Publication of a private candidate under its target name.
//!
//! The rename is the point of no return. Whatever fails before it leaves the target as it was and
//! the candidate to be cleaned up; whatever fails after it is reported as published, and the
//! target is never taken back.
use crate::error::{AdmissionError, AdmissionResource, AnyError, DurabilityStage, MutationEndpointRole};
use crate::fault::{in_context, said, undurable, Fault, FsNature};
use crate::filesystem::candidate::CreatedTempCandidate;
use crate::filesystem::cleanup::{
    CandidateCleanup, CandidateCleanupState, CreatedAncestor, Handle,
};
use crate::filesystem::entry::{
    candidate_fault, create_only_error, create_only_fault, entry_fault, join,
    verify_candidate_identity, verify_entry_with_role, EntryExpectation, Metadata,
};
use crate::filesystem::failure::{
    directory_sync_error, durability_error, fault_of, DirectorySyncPoint, OsFailure,
};
use crate::path::joined;
use vstd::prelude::*;

verus! {

// ---------------------------------------------------------------------------------------------
// Candidates in use
// ---------------------------------------------------------------------------------------------

/// The pinned directory of a target, and the directories created on the way to it.
#[derive(Debug)]
pub struct ParentDir {
    pub fd: Handle,
    pub real_rel: Vec<u8>,
    pub target_name: Vec<u8>,
    pub created_ancestors: Vec<CreatedAncestor>,
}

impl ParentDir {
    pub open spec fn target(self) -> Seq<u8> {
        joined(self.real_rel@, self.target_name@)
    }

    pub fn target_rel(&self) -> (path: Vec<u8>)
        ensures
            path@ == self.target(),
    {
        join(self.real_rel.as_slice(), self.target_name.as_slice())
    }
}

/// A candidate that a request writes to. `committed` tells that its cleanup is no longer owed
/// here.
#[derive(Debug)]
pub struct TempFile {
    pub parent: ParentDir,
    pub temp_name: Vec<u8>,
    pub file: Option<Handle>,
    pub candidate_lock: Option<Handle>,
    pub candidate_expectation: EntryExpectation,
    pub cleanup_guard: Option<Handle>,
    pub committed: bool,
}

/// A candidate that a worker writes to and publishes.
#[derive(Debug)]
pub struct BlockingTempFile {
    pub parent: ParentDir,
    pub temp_name: Vec<u8>,
    pub file: Option<Handle>,
    pub candidate_lock: Option<Handle>,
    pub candidate_expectation: EntryExpectation,
    pub cleanup_guard: Option<Handle>,
    pub committed: bool,
}

/// Why a candidate cannot be handed on.
pub open spec fn handover_fault(
    closed: Seq<char>,
    file: Option<Handle>,
    candidate_lock: Option<Handle>,
) -> Option<Fault> {
    if file is None {
        Some(said(closed))
    } else if candidate_lock is None {
        Some(said("temporary file candidate lock is missing"@))
    } else {
        None
    }
}

impl TempFile {
    /// A candidate that goes from a request to a worker, or why it stays.
    pub open spec fn handed_to_worker(
        temp: TempFile,
        parent: Result<Handle, AnyError>,
        handed: Result<BlockingTempFile, (AnyError, TempFile)>,
    ) -> bool {
        &&& match handover_fault(
            "temporary file is already closed"@,
            temp.file,
            temp.candidate_lock,
        ) {
            Some(fault) => handed matches Err((error, kept)) && error@ == fault && kept == temp,
            None => match (parent, handed) {
                (Ok(fd), Ok(given)) => given == (BlockingTempFile {
                    parent: (ParentDir { fd, ..temp.parent }),
                    temp_name: temp.temp_name,
                    file: temp.file,
                    candidate_lock: temp.candidate_lock,
                    candidate_expectation: temp.candidate_expectation,
                    cleanup_guard: temp.cleanup_guard,
                    committed: false,
                }),
                (Err(source), Err((error, kept))) => error == source && kept == (TempFile {
                    file: None,
                    ..temp
                }),
                _ => false,
            },
        }
    }

    /// Hands the candidate to a worker. `parent` is a second descriptor of the directory; where
    /// none could be had, the candidate stays here with its lock and its guard, and is cleaned up
    /// from here.
    pub fn into_blocking(self, parent: Result<Handle, AnyError>) -> (handed: Result<
        BlockingTempFile,
        (AnyError, TempFile),
    >)
        ensures
            TempFile::handed_to_worker(self, parent, handed),
    {
        if self.file.is_none() {
            return Err((AnyError::message("temporary file is already closed"), self));
        }
        if self.candidate_lock.is_none() {
            return Err((AnyError::message("temporary file candidate lock is missing"), self));
        }
        match parent {
            Err(error) => Err(
                (
                    error,
                    TempFile {
                        parent: self.parent,
                        temp_name: self.temp_name,
                        file: None,
                        candidate_lock: self.candidate_lock,
                        candidate_expectation: self.candidate_expectation,
                        cleanup_guard: self.cleanup_guard,
                        committed: self.committed,
                    },
                ),
            ),
            Ok(fd) => Ok(
                BlockingTempFile {
                    parent: ParentDir {
                        fd,
                        real_rel: self.parent.real_rel,
                        target_name: self.parent.target_name,
                        created_ancestors: self.parent.created_ancestors,
                    },
                    temp_name: self.temp_name,
                    file: self.file,
                    candidate_lock: self.candidate_lock,
                    candidate_expectation: self.candidate_expectation,
                    cleanup_guard: self.cleanup_guard,
                    committed: false,
                },
            ),
        }
    }

    /// What is owed when a candidate is dropped.
    pub open spec fn owes(
        temp: TempFile,
        parent: Option<Handle>,
        owed: Option<CandidateCleanup>,
    ) -> bool {
        &&& match owed {
            None => temp.committed,
            Some(cleanup) => !temp.committed && cleanup == (CandidateCleanup {
                parent,
                name: temp.temp_name,
                state: CandidateCleanupState::Present,
                expectation: Some(temp.candidate_expectation),
                created_ancestors: temp.parent.created_ancestors,
                candidate_lock: temp.candidate_lock,
                guard: temp.cleanup_guard,
                ticket: None,
            }),
        }
    }

    /// What is owed when the candidate is dropped: a cleanup, unless it was handed on. It takes
    /// over everything that is held.
    pub fn into_cleanup(self, parent: Option<Handle>) -> (owed: Option<CandidateCleanup>)
        ensures
            TempFile::owes(self, parent, owed),
    {
        if self.committed {
            return None;
        }
        Some(
            CandidateCleanup::candidate(
                parent,
                self.temp_name,
                self.candidate_expectation,
                self.parent.created_ancestors,
                self.candidate_lock,
                self.cleanup_guard,
            ),
        )
    }
}

impl BlockingTempFile {
    /// A candidate that was just created, or what it lacks.
    pub open spec fn taken_from(
        candidate: CreatedTempCandidate,
        parent: ParentDir,
        made: Result<BlockingTempFile, AnyError>,
    ) -> bool {
        &&& match made {
            Err(error) => if candidate.file is None {
                error@ == said("new temporary candidate file is missing"@)
            } else {
                candidate.candidate_lock is None && error@ == said(
                    "new temporary candidate lock is missing"@,
                )
            },
            Ok(temp) => {
                &&& candidate.file is Some
                &&& candidate.candidate_lock is Some
                &&& temp == (BlockingTempFile {
                    parent: (ParentDir {
                        created_ancestors: candidate.created_ancestors,
                        ..parent
                    }),
                    temp_name: candidate.temp_name,
                    file: candidate.file,
                    candidate_lock: candidate.candidate_lock,
                    candidate_expectation: candidate.expectation,
                    cleanup_guard: None,
                    committed: false,
                })
            },
        }
    }

    /// A new candidate, with the directories that were created on the way to it.
    pub fn from_candidate(candidate: CreatedTempCandidate, parent: ParentDir) -> (made: Result<
        BlockingTempFile,
        AnyError,
    >)
        ensures
            BlockingTempFile::taken_from(candidate, parent, made),
    {
        if candidate.file.is_none() {
            return Err(AnyError::message("new temporary candidate file is missing"));
        }
        if candidate.candidate_lock.is_none() {
            return Err(AnyError::message("new temporary candidate lock is missing"));
        }
        Ok(
            BlockingTempFile {
                parent: ParentDir {
                    fd: parent.fd,
                    real_rel: parent.real_rel,
                    target_name: parent.target_name,
                    created_ancestors: candidate.created_ancestors,
                },
                temp_name: candidate.temp_name,
                file: candidate.file,
                candidate_lock: candidate.candidate_lock,
                candidate_expectation: candidate.expectation,
                cleanup_guard: None,
                committed: false,
            },
        )
    }

    /// A guard that is attached, or why not.
    pub open spec fn guarded_with(
        before: BlockingTempFile,
        after: BlockingTempFile,
        guard: Handle,
        attached: Result<(), AnyError>,
    ) -> bool {
        &&& match attached {
            Ok(()) => before.cleanup_guard is None && after == (BlockingTempFile {
                cleanup_guard: Some(guard),
                ..before
            }),
            Err(error) => before.cleanup_guard is Some && after == before
                && error@ == said("temporary file cleanup guard is already attached"@),
        }
    }

    /// Attaches an admission that is held until the candidate is resolved.
    pub fn attach_cleanup_guard(&mut self, guard: Handle) -> (attached: Result<(), AnyError>)
        ensures
            BlockingTempFile::guarded_with(*old(self), *final(self), guard, attached),
    {
        if self.cleanup_guard.is_some() {
            return Err(AnyError::message("temporary file cleanup guard is already attached"));
        }
        self.cleanup_guard = Some(guard);
        Ok(())
    }

    /// A candidate that goes from a worker to a request, or why it stays.
    pub open spec fn handed_to_request(
        temp: BlockingTempFile,
        parent: Result<Handle, AnyError>,
        handed: Result<TempFile, (AnyError, BlockingTempFile)>,
    ) -> bool {
        &&& ({
            let fault = if temp.parent.created_ancestors@.len() > 0 {
                Some(
                    said(
                        "a candidate with auto-created ancestors cannot move to asynchronous cleanup"@,
                    ),
                )
            } else {
                handover_fault(
                    "blocking temporary file is already closed"@,
                    temp.file,
                    temp.candidate_lock,
                )
            };
            match fault {
                Some(f) => handed matches Err((error, kept)) && error@ == f && kept == temp,
                None => match (parent, handed) {
                    (Ok(fd), Ok(given)) => given == (TempFile {
                        parent: (ParentDir { fd, ..temp.parent }),
                        temp_name: temp.temp_name,
                        file: temp.file,
                        candidate_lock: temp.candidate_lock,
                        candidate_expectation: temp.candidate_expectation,
                        cleanup_guard: temp.cleanup_guard,
                        committed: false,
                    }),
                    (Err(source), Err((error, kept))) => error == source && kept == temp,
                    _ => false,
                },
            }
        })
    }

    /// Hands the candidate to a request. One with directories on its way cannot be: their removal
    /// needs a worker.
    pub fn into_async_temp(self, parent: Result<Handle, AnyError>) -> (handed: Result<
        TempFile,
        (AnyError, BlockingTempFile),
    >)
        ensures
            BlockingTempFile::handed_to_request(self, parent, handed),
    {
        if self.parent.created_ancestors.len() > 0 {
            return Err(
                (
                    AnyError::message(
                        "a candidate with auto-created ancestors cannot move to asynchronous cleanup",
                    ),
                    self,
                ),
            );
        }
        if self.file.is_none() {
            return Err((AnyError::message("blocking temporary file is already closed"), self));
        }
        if self.candidate_lock.is_none() {
            return Err((AnyError::message("temporary file candidate lock is missing"), self));
        }
        match parent {
            Err(error) => Err((error, self)),
            Ok(fd) => Ok(
                TempFile {
                    parent: ParentDir {
                        fd,
                        real_rel: self.parent.real_rel,
                        target_name: self.parent.target_name,
                        created_ancestors: self.parent.created_ancestors,
                    },
                    temp_name: self.temp_name,
                    file: self.file,
                    candidate_lock: self.candidate_lock,
                    candidate_expectation: self.candidate_expectation,
                    cleanup_guard: self.cleanup_guard,
                    committed: false,
                },
            ),
        }
    }

    /// The file to write to.
    pub fn writable(&self) -> (file: Result<Handle, AnyError>)
        ensures
            match file {
                Ok(handle) => self.file == Some(handle),
                Err(error) => self.file is None && error@ == said(
                    "blocking temporary file is already closed"@,
                ),
            },
    {
        match self.file {
            Some(handle) => Ok(handle),
            None => Err(AnyError::message("blocking temporary file is already closed")),
        }
    }

    /// What is owed when a candidate is dropped.
    pub open spec fn owes(
        temp: BlockingTempFile,
        parent: Option<Handle>,
        owed: Option<CandidateCleanup>,
    ) -> bool {
        &&& match owed {
            None => temp.committed,
            Some(cleanup) => !temp.committed && cleanup == (CandidateCleanup {
                parent,
                name: temp.temp_name,
                state: CandidateCleanupState::Present,
                expectation: Some(temp.candidate_expectation),
                created_ancestors: temp.parent.created_ancestors,
                candidate_lock: temp.candidate_lock,
                guard: temp.cleanup_guard,
                ticket: None,
            }),
        }
    }

    /// What is owed when the candidate is dropped: a cleanup, unless it was published or handed
    /// on.
    pub fn into_cleanup(self, parent: Option<Handle>) -> (owed: Option<CandidateCleanup>)
        ensures
            BlockingTempFile::owes(self, parent, owed),
    {
        if self.committed {
            return None;
        }
        Some(
            CandidateCleanup::candidate(
                parent,
                self.temp_name,
                self.candidate_expectation,
                self.parent.created_ancestors,
                self.candidate_lock,
                self.cleanup_guard,
            ),
        )
    }
}

/// A write or a flush of a candidate that failed: nothing has been published.
pub fn candidate_io_error(error: AnyError) -> (typed: AnyError)
    ensures
        typed@ == undurable(DurabilityStage::CandidateFile, false, error@),
{
    durability_error(DurabilityStage::CandidateFile, false, error)
}

// ---------------------------------------------------------------------------------------------
// The commit
// ---------------------------------------------------------------------------------------------

/// The steps of a publication, in order.
#[derive(Clone, Copy, Debug, PartialEq, Eq, Structural)]
pub enum CommitPhase {
    Starting,
    Flushing,
    SyncingData,
    Verifying,
    Renaming,
    SettingMode,
    SyncingFile,
    SyncingParent,
    Done,
    Failed,
}

/// What the caller does next.
#[derive(Clone, Copy, Debug, PartialEq, Eq, Structural)]
pub enum CommitAction {
    Flush,
    SyncData,
    /// Check the parent, and look at the candidate and at the target.
    Verify,
    /// Rename the candidate to the target. Where nothing is expected under the target's name,
    /// nothing may be replaced.
    Rename { no_replace: bool },
    SetMode { mode: u32 },
    SyncFile,
    SyncDirectory { point: DirectorySyncPoint },
    Done,
}

/// The steps of a publication that ends well, in order: nothing becomes visible before its
/// content is durable and all names were looked at once more, and nothing counts as done before
/// its mode and its name are durable too.
pub open spec fn commit_order() -> Seq<CommitPhase> {
    seq![
        CommitPhase::Starting,
        CommitPhase::Flushing,
        CommitPhase::SyncingData,
        CommitPhase::Verifying,
        CommitPhase::Renaming,
        CommitPhase::SettingMode,
        CommitPhase::SyncingFile,
        CommitPhase::SyncingParent,
        CommitPhase::Done,
    ]
}

/// A step leads to the next one in order, or ends the publication.
pub open spec fn advances(before: CommitPhase, after: CommitPhase) -> bool {
    after == CommitPhase::Failed || match before {
        CommitPhase::Starting => after == CommitPhase::Flushing,
        CommitPhase::Flushing => after == CommitPhase::SyncingData,
        CommitPhase::SyncingData => after == CommitPhase::Verifying,
        CommitPhase::Verifying => after == CommitPhase::Renaming,
        CommitPhase::Renaming => after == CommitPhase::SettingMode,
        CommitPhase::SettingMode => after == CommitPhase::SyncingFile,
        CommitPhase::SyncingFile => after == CommitPhase::SyncingParent,
        CommitPhase::SyncingParent => after == CommitPhase::Done,
        CommitPhase::Done | CommitPhase::Failed => false,
    }
}

/// A publication in progress.
#[derive(Debug)]
pub struct Commit {
    pub temp: BlockingTempFile,
    pub expected: EntryExpectation,
    pub final_mode: u32,
    pub phase: CommitPhase,
}

/// The error of a request that was cancelled before publication.
pub open spec fn commit_cancelled_fault(context: Seq<char>) -> Fault {
    in_context(
        Fault::Admission {
            error: (AdmissionError::Cancelled { resource: AdmissionResource::ExpensiveTasks }),
        },
        context,
    )
}

fn commit_cancelled(context: &str) -> (error: AnyError)
    ensures
        error@ == commit_cancelled_fault(context@),
{
    AnyError::admission(AdmissionError::cancelled(AdmissionResource::ExpensiveTasks)).context(
        context,
    )
}

/// The answer to a step: an action and the phase that it leads to, or the error that ends the
/// publication.
pub open spec fn stepped(
    after: CommitPhase,
    result: Result<CommitAction, AnyError>,
    fault: Option<Fault>,
    action: CommitAction,
    phase: CommitPhase,
) -> bool {
    match fault {
        Some(f) => result matches Err(error) && error@ == f && after == CommitPhase::Failed,
        None => result matches Ok(a) && a == action && after == phase,
    }
}

/// Why a commit does not start.
pub open spec fn start_fault(temp: BlockingTempFile, cancelled: bool) -> Option<Fault> {
    if cancelled {
        Some(commit_cancelled_fault("request was cancelled before temporary file commit"@))
    } else if temp.file is None {
        Some(said("blocking temporary file is already closed"@))
    } else {
        None
    }
}

/// Whether an error tells of a change that was published and may not be durable.
pub open spec fn is_published(fault: Fault) -> bool {
    fault.nature() == Some(FsNature::Durability { published: true })
}

/// Why a candidate could not be flushed.
pub open spec fn flush_fault(outcome: Result<(), AnyError>) -> Option<Fault> {
    match outcome {
        Err(error) => Some(undurable(DurabilityStage::CandidateFile, false, error@)),
        Ok(()) => None,
    }
}

/// The error where the mode of a published file could not be set.
pub open spec fn mode_fault(failure: OsFailure) -> Fault {
    undurable(DurabilityStage::PublishedFile, true, failure.fault())
}

/// Why a published file is not durable.
pub open spec fn file_sync_fault(outcome: Result<(), AnyError>) -> Option<Fault> {
    match outcome {
        Err(error) => Some(undurable(DurabilityStage::PublishedFile, true, error@)),
        Ok(()) => None,
    }
}

/// The error where the directory of a published file could not be synced.
pub open spec fn parent_sync_fault(failure: OsFailure) -> Fault {
    undurable(DurabilityStage::DestinationParent, true, failure.fault())
}

/// Why a durable candidate is not published.
pub open spec fn data_fault(
    temp: BlockingTempFile,
    outcome: Result<(), AnyError>,
    cancelled: bool,
) -> Option<Fault> {
    match outcome {
        Err(error) => Some(undurable(DurabilityStage::CandidateFile, false, error@)),
        Ok(()) => if cancelled {
            Some(
                commit_cancelled_fault("request was cancelled before temporary file publication"@),
            )
        } else if temp.candidate_lock is None {
            Some(said("temporary file candidate lock is missing"@))
        } else {
            None
        },
    }
}

/// Why the last look before the rename ends the publication.
pub open spec fn verification_fault(
    temp: BlockingTempFile,
    expected: EntryExpectation,
    parent: Result<(), AnyError>,
    candidate: Result<Metadata, OsFailure>,
    target: Result<Metadata, OsFailure>,
) -> Option<Fault> {
    if parent is Err {
        fault_of(parent)
    } else if candidate_fault(
        temp.parent.target(),
        temp.candidate_expectation,
        candidate,
    ) is Some {
        candidate_fault(temp.parent.target(), temp.candidate_expectation, candidate)
    } else {
        entry_fault(temp.parent.target(), expected, target, MutationEndpointRole::Target)
    }
}

/// The error of a failed rename.
pub open spec fn rename_fault(
    temp: BlockingTempFile,
    expected: EntryExpectation,
    failure: OsFailure,
) -> Fault {
    match expected {
        EntryExpectation::Present { .. } => in_context(
            failure.fault(),
            "failed to atomically commit temporary file"@,
        ),
        EntryExpectation::Missing => in_context(
            create_only_fault(
                temp.parent.target(),
                expected,
                MutationEndpointRole::Target,
                failure,
            ),
            "failed to atomically commit temporary file without overwrite"@,
        ),
    }
}

impl Commit {
    /// The target is published in exactly the phases after the rename.
    pub open spec fn wf(self) -> bool {
        match self.phase {
            CommitPhase::Starting
            | CommitPhase::Flushing
            | CommitPhase::SyncingData
            | CommitPhase::Verifying
            | CommitPhase::Renaming => !self.temp.committed,
            CommitPhase::SettingMode
            | CommitPhase::SyncingFile
            | CommitPhase::SyncingParent
            | CommitPhase::Done => self.temp.committed,
            CommitPhase::Failed => true,
        }
    }

    pub open spec fn same_commit(self, other: Commit) -> bool {
        self.expected == other.expected && self.final_mode == other.final_mode
    }

    pub fn commit(temp: BlockingTempFile, expected: EntryExpectation, final_mode: u32) -> (begun:
        Commit)
        requires
            !temp.committed,
        ensures
            begun.wf(),
            begun == (Commit { temp, expected, final_mode, phase: CommitPhase::Starting }),
    {
        Commit { temp, expected, final_mode, phase: CommitPhase::Starting }
    }

    /// The start of a publication.
    pub open spec fn started(
        before: Commit,
        after: Commit,
        cancelled: bool,
        next: Result<CommitAction, AnyError>,
    ) -> bool {
        &&& after.wf()
        &&& after.same_commit(before)
        &&& advances(before.phase, after.phase)
        &&& after.temp == before.temp
        &&& stepped(
            after.phase,
            next,
            start_fault(before.temp, cancelled),
            CommitAction::Flush,
            CommitPhase::Flushing,
        )
    }

    pub fn start(&mut self, cancelled: bool) -> (next: Result<CommitAction, AnyError>)
        requires
            old(self).wf(),
            old(self).phase is Starting,
        ensures
            Commit::started(*old(self), *final(self), cancelled, next),
    {
        if cancelled {
            self.phase = CommitPhase::Failed;
            return Err(commit_cancelled("request was cancelled before temporary file commit"));
        }
        if self.temp.file.is_none() {
            self.phase = CommitPhase::Failed;
            return Err(AnyError::message("blocking temporary file is already closed"));
        }
        self.phase = CommitPhase::Flushing;
        Ok(CommitAction::Flush)
    }

    /// The step after flushing.
    pub open spec fn has_flushed(
        before: Commit,
        after: Commit,
        outcome: Result<(), AnyError>,
        next: Result<CommitAction, AnyError>,
    ) -> bool {
        &&& after.wf()
        &&& after.same_commit(before)
        &&& advances(before.phase, after.phase)
        &&& after.temp == before.temp
        &&& stepped(
            after.phase,
            next,
            flush_fault(outcome),
            CommitAction::SyncData,
            CommitPhase::SyncingData,
        )
    }

    pub fn flushed(&mut self, outcome: Result<(), AnyError>) -> (next: Result<
        CommitAction,
        AnyError,
    >)
        requires
            old(self).wf(),
            old(self).phase is Flushing,
        ensures
            Commit::has_flushed(*old(self), *final(self), outcome, next),
    {
        match outcome {
            Err(error) => {
                self.phase = CommitPhase::Failed;
                Err(candidate_io_error(error))
            },
            Ok(()) => {
                self.phase = CommitPhase::SyncingData;
                Ok(CommitAction::SyncData)
            },
        }
    }

    /// The step after making the data durable.
    pub open spec fn has_synced_data(
        before: Commit,
        after: Commit,
        outcome: Result<(), AnyError>,
        cancelled: bool,
        next: Result<CommitAction, AnyError>,
    ) -> bool {
        &&& after.wf()
        &&& after.same_commit(before)
        &&& advances(before.phase, after.phase)
        &&& after.temp == before.temp
        &&& stepped(
            after.phase,
            next,
            data_fault(before.temp, outcome, cancelled),
            CommitAction::Verify,
            CommitPhase::Verifying,
        )
    }

    pub fn data_synced(&mut self, outcome: Result<(), AnyError>, cancelled: bool) -> (next: Result<
        CommitAction,
        AnyError,
    >)
        requires
            old(self).wf(),
            old(self).phase is SyncingData,
        ensures
            Commit::has_synced_data(*old(self), *final(self), outcome, cancelled, next),
    {
        match outcome {
            Err(error) => {
                self.phase = CommitPhase::Failed;
                Err(candidate_io_error(error))
            },
            Ok(()) => {
                if cancelled {
                    self.phase = CommitPhase::Failed;
                    return Err(
                        commit_cancelled("request was cancelled before temporary file publication"),
                    );
                }
                if self.temp.candidate_lock.is_none() {
                    self.phase = CommitPhase::Failed;
                    return Err(AnyError::message("temporary file candidate lock is missing"));
                }
                self.phase = CommitPhase::Verifying;
                Ok(CommitAction::Verify)
            },
        }
    }

    /// The step after the last look.
    pub open spec fn has_verified(
        before: Commit,
        after: Commit,
        parent: Result<(), AnyError>,
        candidate: Result<Metadata, OsFailure>,
        target: Result<Metadata, OsFailure>,
        next: Result<CommitAction, AnyError>,
    ) -> bool {
        &&& after.wf()
        &&& after.same_commit(before)
        &&& advances(before.phase, after.phase)
        &&& after.temp == before.temp
        &&& stepped(
            after.phase,
            next,
            verification_fault(
                before.temp,
                before.expected,
                parent,
                candidate,
                target,
            ),
            CommitAction::Rename { no_replace: before.expected is Missing },
            CommitPhase::Renaming,
        )
    }

    /// Takes the last look: whether the parent is where it was, and what the candidate's and the
    /// target's names stand for.
    pub fn verified(
        &mut self,
        parent: Result<(), AnyError>,
        candidate: Result<Metadata, OsFailure>,
        target: Result<Metadata, OsFailure>,
    ) -> (next: Result<CommitAction, AnyError>)
        requires
            old(self).wf(),
            old(self).phase is Verifying,
        ensures
            Commit::has_verified(*old(self), *final(self), parent, candidate, target, next),
    {
        match parent {
            Ok(()) => {},
            Err(error) => {
                self.phase = CommitPhase::Failed;
                return Err(error);
            },
        }
        let rel = self.temp.parent.target_rel();
        match verify_candidate_identity(
            rel.as_slice(),
            self.temp.candidate_expectation,
            candidate,
        ) {
            Ok(()) => {},
            Err(error) => {
                self.phase = CommitPhase::Failed;
                return Err(error);
            },
        }
        match verify_entry_with_role(
            rel.as_slice(),
            self.expected,
            target,
            MutationEndpointRole::Target,
        ) {
            Ok(()) => {},
            Err(error) => {
                self.phase = CommitPhase::Failed;
                return Err(error);
            },
        }
        let no_replace = match self.expected {
            EntryExpectation::Missing => true,
            EntryExpectation::Present { .. } => false,
        };
        self.phase = CommitPhase::Renaming;
        Ok(CommitAction::Rename { no_replace })
    }

    /// The step after the rename.
    pub open spec fn has_renamed(
        before: Commit,
        after: Commit,
        outcome: Result<(), OsFailure>,
        next: Result<CommitAction, AnyError>,
    ) -> bool {
        &&& after.wf()
        &&& after.same_commit(before)
        &&& advances(before.phase, after.phase)
        &&& stepped(
            after.phase,
            next,
            match outcome {
                Err(failure) => Some(
                    rename_fault(before.temp, before.expected, failure),
                ),
                Ok(()) => None,
            },
            CommitAction::SetMode { mode: before.final_mode & 0o777 },
            CommitPhase::SettingMode,
        )
        &&& match outcome {
            Err(_) => after.temp == before.temp,
            Ok(()) => {
                &&& after.temp.parent.created_ancestors@.len() == 0
                &&& after.temp == (BlockingTempFile {
                    parent: ParentDir {
                        created_ancestors: after.temp.parent.created_ancestors,
                        ..before.temp.parent
                    },
                    committed: true,
                    ..before.temp
                })
            },
        }
    }

    /// Takes the outcome of the rename. From here on the target is visible: the candidate's
    /// cleanup is no longer owed, and the directories on its way stay.
    pub fn renamed(&mut self, outcome: Result<(), OsFailure>) -> (next: Result<
        CommitAction,
        AnyError,
    >)
        requires
            old(self).wf(),
            old(self).phase is Renaming,
        ensures
            Commit::has_renamed(*old(self), *final(self), outcome, next),
    {
        match outcome {
            Err(failure) => {
                self.phase = CommitPhase::Failed;
                match self.expected {
                    EntryExpectation::Present { .. } => Err(
                        failure.into_error().context("failed to atomically commit temporary file"),
                    ),
                    EntryExpectation::Missing => {
                        let rel = self.temp.parent.target_rel();
                        Err(
                            create_only_error(
                                rel.as_slice(),
                                self.expected,
                                MutationEndpointRole::Target,
                                failure,
                            ).context(
                                "failed to atomically commit temporary file without overwrite",
                            ),
                        )
                    },
                }
            },
            Ok(()) => {
                self.temp.parent.created_ancestors = Vec::new();
                self.temp.committed = true;
                self.phase = CommitPhase::SettingMode;
                Ok(CommitAction::SetMode { mode: self.final_mode & 0o777 })
            },
        }
    }

    /// The step after setting the mode.
    pub open spec fn has_set_mode(
        before: Commit,
        after: Commit,
        outcome: Result<(), OsFailure>,
        next: Result<CommitAction, AnyError>,
    ) -> bool {
        &&& after.wf()
        &&& after.same_commit(before)
        &&& advances(before.phase, after.phase)
        &&& after.temp == before.temp
        &&& stepped(
            after.phase,
            next,
            match outcome {
                Err(failure) => Some(mode_fault(failure)),
                Ok(()) => None,
            },
            CommitAction::SyncFile,
            CommitPhase::SyncingFile,
        )
    }

    pub fn mode_set(&mut self, outcome: Result<(), OsFailure>) -> (next: Result<
        CommitAction,
        AnyError,
    >)
        requires
            old(self).wf(),
            old(self).phase is SettingMode,
        ensures
            Commit::has_set_mode(*old(self), *final(self), outcome, next),
    {
        match outcome {
            Err(failure) => {
                self.phase = CommitPhase::Failed;
                Err(durability_error(DurabilityStage::PublishedFile, true, failure.into_error()))
            },
            Ok(()) => {
                self.phase = CommitPhase::SyncingFile;
                Ok(CommitAction::SyncFile)
            },
        }
    }

    /// The step after making the file durable.
    pub open spec fn has_synced_file(
        before: Commit,
        after: Commit,
        outcome: Result<(), AnyError>,
        next: Result<CommitAction, AnyError>,
    ) -> bool {
        &&& after.wf()
        &&& after.same_commit(before)
        &&& advances(before.phase, after.phase)
        &&& after.temp == before.temp
        &&& stepped(
            after.phase,
            next,
            file_sync_fault(outcome),
            CommitAction::SyncDirectory { point: DirectorySyncPoint::DestinationParent },
            CommitPhase::SyncingParent,
        )
    }

    pub fn file_synced(&mut self, outcome: Result<(), AnyError>) -> (next: Result<
        CommitAction,
        AnyError,
    >)
        requires
            old(self).wf(),
            old(self).phase is SyncingFile,
        ensures
            Commit::has_synced_file(*old(self), *final(self), outcome, next),
    {
        match outcome {
            Err(error) => {
                self.phase = CommitPhase::Failed;
                Err(durability_error(DurabilityStage::PublishedFile, true, error))
            },
            Ok(()) => {
                self.phase = CommitPhase::SyncingParent;
                Ok(CommitAction::SyncDirectory { point: DirectorySyncPoint::DestinationParent })
            },
        }
    }

    /// The step after making the directory durable.
    pub open spec fn has_synced_directory(
        before: Commit,
        after: Commit,
        outcome: Result<(), OsFailure>,
        next: Result<CommitAction, AnyError>,
    ) -> bool {
        &&& after.wf()
        &&& after.same_commit(before)
        &&& advances(before.phase, after.phase)
        &&& after.temp == before.temp
        &&& stepped(
            after.phase,
            next,
            match outcome {
                Err(failure) => Some(parent_sync_fault(failure)),
                Ok(()) => None,
            },
            CommitAction::Done,
            CommitPhase::Done,
        )
    }

    pub fn directory_synced(&mut self, outcome: Result<(), OsFailure>) -> (next: Result<
        CommitAction,
        AnyError,
    >)
        requires
            old(self).wf(),
            old(self).phase is SyncingParent,
        ensures
            Commit::has_synced_directory(*old(self), *final(self), outcome, next),
    {
        match outcome {
            Err(failure) => {
                self.phase = CommitPhase::Failed;
                Err(directory_sync_error(DirectorySyncPoint::DestinationParent, failure))
            },
            Ok(()) => {
                self.phase = CommitPhase::Done;
                Ok(CommitAction::Done)
            },
        }
    }
}

/// A publication that ends well went through every step once and in order.
pub proof fn law_publication_takes_every_step_in_order(run: Seq<CommitPhase>)
    requires
        run.len() > 0,
        run[0] == CommitPhase::Starting,
        run.last() == CommitPhase::Done,
        forall|i: int| 0 <= i < run.len() - 1 ==> advances(#[trigger] run[i], run[i + 1]),
    ensures
        run == commit_order(),
{
    let order = commit_order();
    let n = run.len() as int;
    // Nothing follows a failure, so a run that ends well has none.
    assert forall|i: int| 0 <= i < n implies #[trigger] run[i] != CommitPhase::Failed by {
        lemma_failure_is_final(run, i);
    }
    assert forall|i: int| 0 <= i < n implies i < order.len() && #[trigger] run[i] == order[i] by {
        lemma_run_follows_order(run, i);
    }
    assert(run[n - 1] == order[n - 1]);
    assert(run =~= order);
}

proof fn lemma_failure_is_final(run: Seq<CommitPhase>, i: int)
    requires
        0 <= i < run.len(),
        run.last() == CommitPhase::Done,
        forall|k: int| 0 <= k < run.len() - 1 ==> advances(#[trigger] run[k], run[k + 1]),
    ensures
        run[i] != CommitPhase::Failed,
    decreases run.len() - i,
{
    if i < run.len() - 1 {
        lemma_failure_is_final(run, i + 1);
        assert(advances(run[i], run[i + 1]));
    }
}

proof fn lemma_run_follows_order(run: Seq<CommitPhase>, i: int)
    requires
        0 <= i < run.len(),
        run[0] == CommitPhase::Starting,
        forall|k: int| 0 <= k < run.len() ==> #[trigger] run[k] != CommitPhase::Failed,
        forall|k: int| 0 <= k < run.len() - 1 ==> advances(#[trigger] run[k], run[k + 1]),
    ensures
        i < commit_order().len(),
        run[i] == commit_order()[i],
    decreases i,
{
    if i > 0 {
        lemma_run_follows_order(run, i - 1);
        assert(advances(run[i - 1], run[i - 1 + 1]));
    }
}

/// No failure before the rename is reported as published: neither the start, the flush, the sync
/// of the data, the last look nor the rename itself.
pub proof fn law_failures_before_the_rename_are_unpublished(
    temp: BlockingTempFile,
    cancelled: bool,
    outcome: Result<(), AnyError>,
    expected: EntryExpectation,
    parent: Result<(), AnyError>,
    candidate: Result<Metadata, OsFailure>,
    target: Result<Metadata, OsFailure>,
    failure: OsFailure,
)
    requires
        parent matches Err(error) ==> !is_published(error@),
    ensures
        start_fault(temp, cancelled) matches Some(fault) ==> !is_published(fault),
        flush_fault(outcome) matches Some(fault) ==> !is_published(fault),
        data_fault(temp, outcome, cancelled) matches Some(fault) ==> !is_published(fault),
        verification_fault(temp, expected, parent, candidate, target) matches Some(fault)
            ==> !is_published(fault),
        !is_published(rename_fault(temp, expected, failure)),
{
    reveal_with_fuel(Fault::nature, 3);
}

/// Every failure after the rename is reported as published: the target is visible, and only its
/// durability is in doubt.
pub proof fn law_failures_after_the_rename_are_published(
    failure: OsFailure,
    outcome: Result<(), AnyError>,
)
    ensures
        is_published(mode_fault(failure)),
        file_sync_fault(outcome) matches Some(fault) ==> is_published(fault),
        is_published(parent_sync_fault(failure)),
{
    reveal_with_fuel(Fault::nature, 2);
}

/// A candidate that is dropped is cleaned up exactly where it was not published: a publication
/// owes its candidate's removal up to the rename, and from then on owes nothing.
pub proof fn law_only_unpublished_candidates_are_cleaned_up(commit: Commit)
    requires
        commit.wf(),
        commit.phase != CommitPhase::Failed,
    ensures
        commit.temp.committed <==> exists|i: int|
            5 <= i < commit_order().len() && #[trigger] commit_order()[i] == commit.phase,
{
    let order = commit_order();
    assert(order[5] == CommitPhase::SettingMode);
    assert(order[6] == CommitPhase::SyncingFile);
    assert(order[7] == CommitPhase::SyncingParent);
    assert(order[8] == CommitPhase::Done);
}

/// A candidate is handed on exactly where its file is open and its lock is held, and a second
/// descriptor of its directory could be had; one with directories on its way stays with the
/// worker. What is handed on is all of it: the file, the lock, the guard, the name and the
/// directories that it may have to take back.
pub proof fn law_candidates_are_handed_on(
    temp: TempFile,
    blocking: BlockingTempFile,
    parent: Result<Handle, AnyError>,
    down: Result<BlockingTempFile, (AnyError, TempFile)>,
    up: Result<TempFile, (AnyError, BlockingTempFile)>,
)
    requires
        TempFile::handed_to_worker(temp, parent, down),
        BlockingTempFile::handed_to_request(blocking, parent, up),
    ensures
        down is Ok <==> temp.file is Some && temp.candidate_lock is Some && parent is Ok,
        up is Ok <==> blocking.parent.created_ancestors@.len() == 0 && blocking.file is Some
            && blocking.candidate_lock is Some && parent is Ok,
        down matches Ok(given) ==> {
            &&& given.file == temp.file
            &&& given.candidate_lock == temp.candidate_lock
            &&& given.cleanup_guard == temp.cleanup_guard
            &&& given.candidate_expectation == temp.candidate_expectation
            &&& given.temp_name == temp.temp_name
            &&& given.parent.real_rel == temp.parent.real_rel
            &&& given.parent.target_name == temp.parent.target_name
            &&& given.parent.created_ancestors == temp.parent.created_ancestors
            &&& parent == Ok::<Handle, AnyError>(given.parent.fd)
            &&& !given.committed
        },
        up matches Ok(given) ==> {
            &&& given.file == blocking.file
            &&& given.candidate_lock == blocking.candidate_lock
            &&& given.cleanup_guard == blocking.cleanup_guard
            &&& given.candidate_expectation == blocking.candidate_expectation
            &&& given.temp_name == blocking.temp_name
            &&& given.parent.real_rel == blocking.parent.real_rel
            &&& given.parent.target_name == blocking.parent.target_name
            &&& parent == Ok::<Handle, AnyError>(given.parent.fd)
            &&& !given.committed
        },
        down matches Err((error, kept)) ==> {
            &&& kept.candidate_lock == temp.candidate_lock
            &&& kept.cleanup_guard == temp.cleanup_guard
            &&& kept.committed == temp.committed
        },
        up matches Err((error, kept)) ==> kept == blocking,
{
}

/// A candidate that is dropped is owed a cleanup exactly where it was neither published nor
/// handed on, and the cleanup is of that very candidate: its name, its identity and the
/// directories on its way, under its lock and its guard.
pub proof fn law_dropped_candidates_are_cleaned_up(
    temp: TempFile,
    blocking: BlockingTempFile,
    parent: Option<Handle>,
    owed: Option<CandidateCleanup>,
    owed_by_worker: Option<CandidateCleanup>,
)
    requires
        TempFile::owes(temp, parent, owed),
        BlockingTempFile::owes(blocking, parent, owed_by_worker),
    ensures
        owed is Some <==> !temp.committed,
        owed_by_worker is Some <==> !blocking.committed,
        owed matches Some(cleanup) ==> {
            &&& cleanup.parent == parent
            &&& cleanup.name == temp.temp_name
            &&& cleanup.state is Present
            &&& cleanup.expectation == Some(temp.candidate_expectation)
            &&& cleanup.created_ancestors == temp.parent.created_ancestors
            &&& cleanup.candidate_lock == temp.candidate_lock
            &&& cleanup.guard == temp.cleanup_guard
        },
        owed_by_worker matches Some(cleanup) ==> {
            &&& cleanup.parent == parent
            &&& cleanup.name == blocking.temp_name
            &&& cleanup.state is Present
            &&& cleanup.expectation == Some(blocking.candidate_expectation)
            &&& cleanup.created_ancestors == blocking.parent.created_ancestors
            &&& cleanup.candidate_lock == blocking.candidate_lock
            &&& cleanup.guard == blocking.cleanup_guard
        },
{
}

/// A created candidate is taken over exactly where it has a file and a lock, and one guard can be
/// attached to it.
pub proof fn law_created_candidates_are_taken_over(
    candidate: CreatedTempCandidate,
    parent: ParentDir,
    made: Result<BlockingTempFile, AnyError>,
    before: BlockingTempFile,
    after: BlockingTempFile,
    guard: Handle,
    attached: Result<(), AnyError>,
)
    requires
        BlockingTempFile::taken_from(candidate, parent, made),
        BlockingTempFile::guarded_with(before, after, guard, attached),
    ensures
        made is Ok <==> candidate.file is Some && candidate.candidate_lock is Some,
        made matches Ok(temp) ==> {
            &&& temp.file == candidate.file
            &&& temp.candidate_lock == candidate.candidate_lock
            &&& temp.candidate_expectation == candidate.expectation
            &&& temp.temp_name == candidate.temp_name
            &&& temp.parent.fd == parent.fd
            &&& temp.parent.real_rel == parent.real_rel
            &&& temp.parent.target_name == parent.target_name
            &&& temp.parent.created_ancestors == candidate.created_ancestors
            &&& temp.cleanup_guard is None
            &&& !temp.committed
        },
        attached is Ok <==> before.cleanup_guard is None,
        attached is Ok ==> after.cleanup_guard == Some(guard),
        after.file == before.file,
        after.candidate_lock == before.candidate_lock,
        after.temp_name == before.temp_name,
        after.parent == before.parent,
        after.candidate_expectation == before.candidate_expectation,
        after.committed == before.committed,
{
}

/// A publication goes on up to the rename exactly where the request is there, the file is open,
/// its lock is held, its content is durable, and the last look finds the parent in place, the
/// candidate under its name and the target as it is expected: the very version, or nothing.
pub proof fn law_publications_reach_the_rename(
    before: Commit,
    after: Commit,
    cancelled: bool,
    outcome: Result<(), AnyError>,
    parent: Result<(), AnyError>,
    candidate: Result<Metadata, OsFailure>,
    target: Result<Metadata, OsFailure>,
    next: Result<CommitAction, AnyError>,
)
    ensures
        Commit::started(before, after, cancelled, next) ==> {
            &&& next is Ok <==> !cancelled && before.temp.file is Some
            &&& next matches Ok(action) ==> action is Flush && after.phase is Flushing
        },
        Commit::has_flushed(before, after, outcome, next) ==> {
            &&& next is Ok <==> outcome is Ok
            &&& next matches Ok(action) ==> action is SyncData && after.phase is SyncingData
        },
        Commit::has_synced_data(before, after, outcome, cancelled, next) ==> {
            &&& next is Ok <==> outcome is Ok && !cancelled && before.temp.candidate_lock is Some
            &&& next matches Ok(action) ==> action is Verify && after.phase is Verifying
        },
        Commit::has_verified(before, after, parent, candidate, target, next) ==> {
            &&& next is Ok <==> {
                &&& parent is Ok
                &&& match before.temp.candidate_expectation {
                    EntryExpectation::Present { version } => {
                        &&& candidate matches Ok(found)
                        &&& found.dev == version.dev
                        &&& found.ino == version.ino
                        &&& found.mode & 0o170000 == version.kind
                    },
                    EntryExpectation::Missing => candidate matches Err(failure) && failure.errno
                        == crate::error::Errno::NoEnt,
                }
                &&& match before.expected {
                    EntryExpectation::Present { version } => {
                        &&& target matches Ok(found)
                        &&& found.dev == version.dev
                        &&& found.ino == version.ino
                        &&& found.ctime_sec == version.ctime_sec
                        &&& found.ctime_nsec == version.ctime_nsec
                        &&& found.mode & 0o170000 == version.kind
                    },
                    EntryExpectation::Missing => target matches Err(failure) && failure.errno
                        == crate::error::Errno::NoEnt,
                }
            }
            &&& next matches Ok(action) ==> action matches CommitAction::Rename { no_replace }
                && (no_replace <==> before.expected is Missing) && after.phase is Renaming
        },
{
    crate::filesystem::entry::law_versions_are_checked(
        before.temp.parent.target(),
        before.expected,
        target,
        MutationEndpointRole::Target,
    );
    crate::filesystem::entry::law_identities_are_checked(
        before.temp.parent.target(),
        before.temp.candidate_expectation,
        candidate,
    );
}

/// A rename that succeeds publishes, with the nine permission bits of the mode that was asked
/// for, and so does every step that succeeds after it, up to the end. One that finds an entry
/// where nothing may be replaced tells of a change, and any failure after the rename tells of a
/// publication that may not last.
pub proof fn law_publications_end_after_the_rename(
    before: Commit,
    after: Commit,
    called: Result<(), OsFailure>,
    outcome: Result<(), AnyError>,
    next: Result<CommitAction, AnyError>,
)
    ensures
        Commit::has_renamed(before, after, called, next) ==> {
            &&& next is Ok <==> called is Ok
            &&& after.temp.committed <==> before.temp.committed || called is Ok
            &&& next matches Ok(action) ==> {
                &&& action matches CommitAction::SetMode { mode } && mode == before.final_mode
                    & 0o777
                &&& after.phase is SettingMode
                &&& after.temp.parent.created_ancestors@.len() == 0
            }
            &&& called matches Err(failure) ==> {
                &&& after.temp == before.temp
                &&& next matches Err(error) && (error@.nature() == Some(FsNature::Changed) <==> (
                before.expected is Missing && failure.errno == crate::error::Errno::Exist))
            }
        },
        Commit::has_set_mode(before, after, called, next) ==> {
            &&& next is Ok <==> called is Ok
            &&& next matches Ok(action) ==> action is SyncFile && after.phase is SyncingFile
            &&& next matches Err(error) ==> error@.nature() == Some(
                FsNature::Durability { published: true },
            )
        },
        Commit::has_synced_file(before, after, outcome, next) ==> {
            &&& next is Ok <==> outcome is Ok
            &&& next matches Ok(action) ==> action == (CommitAction::SyncDirectory {
                point: DirectorySyncPoint::DestinationParent,
            }) && after.phase is SyncingParent
            &&& next matches Err(error) ==> error@.nature() == Some(
                FsNature::Durability { published: true },
            )
        },
        Commit::has_synced_directory(before, after, called, next) ==> {
            &&& next is Ok <==> called is Ok
            &&& next matches Ok(action) ==> action is Done && after.phase is Done
            &&& next matches Err(error) ==> error@.nature() == Some(
                FsNature::Durability { published: true },
            )
        },
{
    if let Err(failure) = called {
        reveal_with_fuel(Fault::nature, 3);
        assert(failure.fault().nature() is None);
    }
}

/// A publication whose every step succeeds ends with the target published under its name and
/// nothing left to clean up.
pub proof fn law_uploads_are_published(
    steps: Seq<Commit>,
    answers: Seq<Result<CommitAction, AnyError>>,
    candidate: Result<Metadata, OsFailure>,
    target: Result<Metadata, OsFailure>,
    owed: Option<CandidateCleanup>,
)
    requires
        steps.len() == 9,
        answers.len() == 8,
        Commit::started(steps[0], steps[1], false, answers[0]),
        Commit::has_flushed(steps[1], steps[2], Ok(()), answers[1]),
        Commit::has_synced_data(steps[2], steps[3], Ok(()), false, answers[2]),
        Commit::has_verified(steps[3], steps[4], Ok(()), candidate, target, answers[3]),
        Commit::has_renamed(steps[4], steps[5], Ok(()), answers[4]),
        Commit::has_set_mode(steps[5], steps[6], Ok(()), answers[5]),
        Commit::has_synced_file(steps[6], steps[7], Ok(()), answers[6]),
        Commit::has_synced_directory(steps[7], steps[8], Ok(()), answers[7]),
        steps[0].temp.file is Some,
        steps[0].temp.candidate_lock is Some,
        steps[0].temp.candidate_expectation matches EntryExpectation::Present { version }
            && candidate matches Ok(found) && version == found.version(),
        match steps[0].expected {
            EntryExpectation::Present { version } => target matches Ok(found) && version
                == found.version(),
            EntryExpectation::Missing => target matches Err(failure) && failure.errno
                == crate::error::Errno::NoEnt,
        },
        BlockingTempFile::owes(steps[8].temp, None, owed),
    ensures
        answers[4] matches Ok(CommitAction::SetMode { mode }) && mode == steps[0].final_mode & 0o777,
        answers[7] matches Ok(CommitAction::Done),
        steps[8].phase is Done,
        steps[8].temp.committed,
        steps[8].temp.parent.real_rel == steps[0].temp.parent.real_rel,
        steps[8].temp.parent.target_name == steps[0].temp.parent.target_name,
        owed is None,
{
}

} // verus!
