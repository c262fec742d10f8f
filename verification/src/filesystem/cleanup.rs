//! The cleanup of private candidates and of directories that were created for them.
//!
//! A cleanup holds everything that belongs to an unresolved candidate: its pinned parent, its
//! lock, the admission that it was created under, and the directories created on its way. None of
//! it is let go before the candidate's absence is durable and the directories are dealt with.
use crate::error::{AdmissionError, AdmissionResource, AnyError, Errno};
use crate::fault::{in_context, Fault};
use crate::filesystem::entry::{seen, EntryExpectation, Metadata};
use crate::filesystem::failure::OsFailure;
use crate::time::Duration;
use vstd::prelude::*;

verus! {

/// Something that the caller holds open: a descriptor, a lock or an admission.
#[derive(Clone, Copy, Debug, PartialEq, Eq, Structural)]
pub struct Handle {
    pub id: u64,
}

// ---------------------------------------------------------------------------------------------
// Created directories
// ---------------------------------------------------------------------------------------------

/// A directory that was created on the way to a target.
#[derive(Debug)]
pub struct CreatedAncestor {
    pub parent: Handle,
    pub name: Vec<u8>,
    pub expectation: EntryExpectation,
    /// Whether the directory is gone and its parent still has to be made durable.
    pub parent_sync_pending: bool,
}

#[derive(Clone, Copy, Debug, PartialEq, Eq, Structural)]
pub enum RollbackPhase {
    /// A look at the innermost directory.
    Inspecting,
    /// Its removal.
    Removing,
    /// Making its removal durable.
    Syncing,
    /// Every directory is dealt with.
    Done,
    /// The innermost directory could not be dealt with, and all that are left are kept.
    Retained,
}

/// The removal of created directories, the innermost first. A directory that someone else has
/// put something into, or has replaced, is left alone.
#[derive(Debug)]
pub struct AncestorRollback {
    pub created: Vec<CreatedAncestor>,
    pub phase: RollbackPhase,
}

/// The phase in which the innermost directory is taken up.
pub open spec fn taken_up(created: Seq<CreatedAncestor>) -> RollbackPhase {
    if created.len() == 0 {
        RollbackPhase::Done
    } else if created.last().parent_sync_pending {
        RollbackPhase::Syncing
    } else {
        RollbackPhase::Inspecting
    }
}

impl AncestorRollback {
    /// Something is left exactly as long as the rollback is not done.
    pub open spec fn wf(self) -> bool {
        &&& (self.phase == RollbackPhase::Done) == (self.created@.len() == 0)
        &&& self.phase == RollbackPhase::Removing ==> !self.created@.last().parent_sync_pending
        &&& self.phase == RollbackPhase::Inspecting ==> !self.created@.last().parent_sync_pending
        &&& self.phase == RollbackPhase::Syncing ==> self.created@.last().parent_sync_pending
    }

    /// The innermost directory is dealt with, and the next one is taken up.
    pub open spec fn dealt_with(self, before: AncestorRollback) -> bool {
        &&& self.created@ == before.created@.drop_last()
        &&& self.phase == taken_up(self.created@)
    }

    /// The start of a rollback.
    pub open spec fn begins(
        created: Vec<CreatedAncestor>,
        rollback: AncestorRollback,
    ) -> bool {
        &&& rollback.wf()
        &&& rollback.created == created
        &&& rollback.phase == taken_up(created@)
    }

    pub fn rollback_created_ancestors(created: Vec<CreatedAncestor>) -> (rollback: AncestorRollback)
        ensures
            AncestorRollback::begins(created, rollback),
    {
        let mut rollback = AncestorRollback { created, phase: RollbackPhase::Done };
        rollback.take_up();
        rollback
    }

    fn take_up(&mut self)
        ensures
            final(self).created == old(self).created,
            final(self).phase == taken_up(old(self).created@),
            final(self).wf(),
    {
        let n: usize = self.created.len();
        self.phase = if n == 0 {
            RollbackPhase::Done
        } else if self.created[n - 1].parent_sync_pending {
            RollbackPhase::Syncing
        } else {
            RollbackPhase::Inspecting
        };
    }

    fn drop_innermost(&mut self)
        requires
            old(self).created@.len() > 0,
        ensures
            final(self).wf(),
            final(self).dealt_with(*old(self)),
    {
        let _dealt = self.created.pop();
        self.take_up();
    }

    /// The step after looking at the innermost directory.
    pub open spec fn has_inspected(
        before: AncestorRollback,
        after: AncestorRollback,
        stat: Result<Metadata, OsFailure>,
    ) -> bool {
        &&& after.wf()
        &&& match seen(stat) {
            Err(_) => after.created == before.created && after.phase
                == RollbackPhase::Retained,
            Ok(EntryExpectation::Missing) => after.dealt_with(before),
            Ok(found) => if before.created@.last().expectation.same_entry(found) {
                after.created == before.created && after.phase
                    == RollbackPhase::Removing
            } else {
                after.dealt_with(before)
            },
        }
    }

    /// Takes a look at the innermost directory.
    pub fn inspected(&mut self, stat: Result<Metadata, OsFailure>)
        requires
            old(self).wf(),
            old(self).phase is Inspecting,
        ensures
            AncestorRollback::has_inspected(*old(self), *final(self), stat),
    {
        let n: usize = self.created.len();
        match stat {
            Ok(metadata) => {
                let found = EntryExpectation::from_metadata(&metadata);
                if self.created[n - 1].expectation.same_object(found) {
                    self.phase = RollbackPhase::Removing;
                } else {
                    // Someone else's directory has taken the name.
                    self.drop_innermost();
                }
            },
            Err(failure) => {
                if failure.errno == Errno::NoEnt {
                    self.drop_innermost();
                } else {
                    self.phase = RollbackPhase::Retained;
                }
            },
        }
    }

    /// The step after removing the innermost directory.
    pub open spec fn has_removed(
        before: AncestorRollback,
        after: AncestorRollback,
        outcome: Result<(), OsFailure>,
    ) -> bool {
        &&& after.wf()
        &&& match outcome {
            Ok(()) => {
                &&& after.phase == RollbackPhase::Syncing
                &&& after.created@.drop_last() == before.created@.drop_last()
                &&& after.created@.last() == (CreatedAncestor {
                    parent_sync_pending: true,
                    ..before.created@.last()
                })
            },
            Err(failure) => if failure.errno == Errno::NoEnt || failure.errno
                == Errno::NotEmpty || failure.errno == Errno::Exist {
                after.dealt_with(before)
            } else {
                after.created == before.created && after.phase
                    == RollbackPhase::Retained
            },
        }
    }

    /// Takes the outcome of removing the innermost directory.
    pub fn removed(&mut self, outcome: Result<(), OsFailure>)
        requires
            old(self).wf(),
            old(self).phase is Removing,
        ensures
            AncestorRollback::has_removed(*old(self), *final(self), outcome),
    {
        match outcome {
            Ok(()) => {
                let ghost before = self.created@;
                match self.created.pop() {
                    Some(innermost) => {
                        self.created.push(
                            CreatedAncestor {
                                parent: innermost.parent,
                                name: innermost.name,
                                expectation: innermost.expectation,
                                parent_sync_pending: true,
                            },
                        );
                        assert(self.created@.drop_last() =~= before.drop_last());
                    },
                    None => {
                        assert(false);
                    },
                }
                self.phase = RollbackPhase::Syncing;
            },
            Err(failure) => {
                if failure.errno == Errno::NoEnt || failure.errno == Errno::NotEmpty
                    || failure.errno == Errno::Exist {
                    self.drop_innermost();
                } else {
                    self.phase = RollbackPhase::Retained;
                }
            },
        }
    }

    /// The step after making a removal durable.
    pub open spec fn has_synced(
        before: AncestorRollback,
        after: AncestorRollback,
        outcome: Result<(), OsFailure>,
    ) -> bool {
        &&& after.wf()
        &&& match outcome {
            Ok(()) => after.dealt_with(before),
            Err(_) => after.created == before.created && after.phase
                == RollbackPhase::Retained,
        }
    }

    /// Takes the outcome of making the removal durable.
    pub fn synced(&mut self, outcome: Result<(), OsFailure>)
        requires
            old(self).wf(),
            old(self).phase is Syncing,
        ensures
            AncestorRollback::has_synced(*old(self), *final(self), outcome),
    {
        match outcome {
            Ok(()) => {
                self.drop_innermost();
            },
            Err(_) => {
                self.phase = RollbackPhase::Retained;
            },
        }
    }
}

// ---------------------------------------------------------------------------------------------
// Candidates
// ---------------------------------------------------------------------------------------------

/// How far the cleanup of a candidate has come.
#[derive(Clone, Copy, Debug, PartialEq, Eq, Structural)]
pub enum CandidateCleanupState {
    Present,
    ParentSyncPending,
    Absent,
}

impl CandidateCleanupState {
    /// The number of the stage: a cleanup only ever moves on.
    pub open spec fn rank(self) -> nat {
        match self {
            CandidateCleanupState::Present => 0,
            CandidateCleanupState::ParentSyncPending => 1,
            CandidateCleanupState::Absent => 2,
        }
    }
}

/// An unresolved candidate and all that is held for it.
#[derive(Debug)]
pub struct CandidateCleanup {
    pub parent: Option<Handle>,
    pub name: Vec<u8>,
    pub state: CandidateCleanupState,
    /// What the candidate was when it was created. Without it, nothing is removed by name.
    pub expectation: Option<EntryExpectation>,
    pub created_ancestors: Vec<CreatedAncestor>,
    pub candidate_lock: Option<Handle>,
    pub guard: Option<Handle>,
    pub ticket: Option<CleanupTicket>,
}

/// What the caller does next for a cleanup.
#[derive(Clone, Copy, Debug, PartialEq, Eq, Structural)]
pub enum CleanupAction {
    /// Look at the candidate under this parent.
    Inspect { parent: Handle },
    /// Remove the candidate that was just looked at.
    Unlink { parent: Handle },
    /// Make the parent durable.
    SyncParent { parent: Handle },
    /// Deal with the created directories.
    RollBack,
    /// Keep the whole record for another try.
    Retain,
    /// Let everything go.
    Release,
}

impl CandidateCleanup {
    /// All that is held for the candidate.
    pub open spec fn same_holdings(self, other: CandidateCleanup) -> bool {
        &&& self.parent == other.parent
        &&& self.name == other.name
        &&& self.expectation == other.expectation
        &&& self.candidate_lock == other.candidate_lock
        &&& self.guard == other.guard
        &&& self.ticket == other.ticket
    }

    pub fn candidate(
        parent: Option<Handle>,
        name: Vec<u8>,
        expectation: EntryExpectation,
        created_ancestors: Vec<CreatedAncestor>,
        candidate_lock: Option<Handle>,
        guard: Option<Handle>,
    ) -> (cleanup: CandidateCleanup)
        ensures
            cleanup == (CandidateCleanup {
                parent,
                name,
                state: CandidateCleanupState::Present,
                expectation: Some(expectation),
                created_ancestors,
                candidate_lock,
                guard,
                ticket: None,
            }),
    {
        CandidateCleanup {
            parent,
            name,
            state: CandidateCleanupState::Present,
            expectation: Some(expectation),
            created_ancestors,
            candidate_lock,
            guard,
            ticket: None,
        }
    }

    /// A candidate whose identity could not be read. It is kept, and never removed by its name.
    pub fn unverified_candidate(
        parent: Option<Handle>,
        name: Vec<u8>,
        created_ancestors: Vec<CreatedAncestor>,
        candidate_lock: Option<Handle>,
    ) -> (cleanup: CandidateCleanup)
        ensures
            cleanup == (CandidateCleanup {
                parent,
                name,
                state: CandidateCleanupState::Present,
                expectation: None,
                created_ancestors,
                candidate_lock,
                guard: None,
                ticket: None,
            }),
    {
        CandidateCleanup {
            parent,
            name,
            state: CandidateCleanupState::Present,
            expectation: None,
            created_ancestors,
            candidate_lock,
            guard: None,
            ticket: None,
        }
    }

    /// Created directories without a candidate.
    pub fn ancestors(created_ancestors: Vec<CreatedAncestor>) -> (cleanup: CandidateCleanup)
        ensures
            cleanup.parent is None,
            cleanup.name@.len() == 0,
            cleanup.state == CandidateCleanupState::Absent,
            cleanup.expectation is None,
            cleanup.created_ancestors == created_ancestors,
            cleanup.candidate_lock is None,
            cleanup.guard is None,
            cleanup.ticket is None,
    {
        CandidateCleanup {
            parent: None,
            name: Vec::new(),
            state: CandidateCleanupState::Absent,
            expectation: None,
            created_ancestors,
            candidate_lock: None,
            guard: None,
            ticket: None,
        }
    }

    /// Where a cleanup starts, or starts again.
    pub open spec fn start(self) -> CleanupAction {
        match self.state {
            CandidateCleanupState::Present => match (self.parent, self.expectation) {
                (Some(parent), Some(_)) => CleanupAction::Inspect { parent },
                _ => CleanupAction::Retain,
            },
            CandidateCleanupState::ParentSyncPending => match self.parent {
                Some(parent) => CleanupAction::SyncParent { parent },
                None => CleanupAction::Retain,
            },
            CandidateCleanupState::Absent => CleanupAction::RollBack,
        }
    }

    pub fn run(&self) -> (action: CleanupAction)
        ensures
            action == self.start(),
    {
        match self.state {
            CandidateCleanupState::Present => match (self.parent, self.expectation) {
                (Some(parent), Some(_)) => CleanupAction::Inspect { parent },
                _ => CleanupAction::Retain,
            },
            CandidateCleanupState::ParentSyncPending => match self.parent {
                Some(parent) => CleanupAction::SyncParent { parent },
                None => CleanupAction::Retain,
            },
            CandidateCleanupState::Absent => CleanupAction::RollBack,
        }
    }

    /// The step after looking at the candidate.
    pub open spec fn has_inspected(
        before: CandidateCleanup,
        after: CandidateCleanup,
        stat: Result<Metadata, OsFailure>,
        action: CleanupAction,
    ) -> bool {
        &&& after.same_holdings(before)
        &&& after.created_ancestors == before.created_ancestors
        &&& ({
            let parent = before.parent->Some_0;
            let expected = before.expectation->Some_0;
            match seen(stat) {
                Err(_) => action == CleanupAction::Retain && after.state
                    == CandidateCleanupState::Present,
                Ok(EntryExpectation::Missing) => {
                    &&& action == CleanupAction::SyncParent { parent }
                    &&& after.state == CandidateCleanupState::ParentSyncPending
                },
                Ok(found) => {
                    &&& after.state == CandidateCleanupState::Present
                    &&& action == (if expected.same_entry(found) {
                        CleanupAction::Unlink { parent }
                    } else {
                        CleanupAction::Retain
                    })
                },
            }
        })
    }

    /// Takes a look at the candidate. A name that is gone has still to be made durable; a name
    /// that stands for something else is never removed.
    pub fn inspected(&mut self, stat: Result<Metadata, OsFailure>) -> (action: CleanupAction)
        requires
            old(self).start() is Inspect,
        ensures
            CandidateCleanup::has_inspected(*old(self), *final(self), stat, action),
    {
        let (parent, expected) = match (self.parent, self.expectation) {
            (Some(parent), Some(expected)) => (parent, expected),
            _ => {
                assert(false);
                return CleanupAction::Retain;
            },
        };
        match stat {
            Ok(metadata) => {
                let found = EntryExpectation::from_metadata(&metadata);
                if expected.same_object(found) {
                    CleanupAction::Unlink { parent }
                } else {
                    CleanupAction::Retain
                }
            },
            Err(failure) => {
                if failure.errno == Errno::NoEnt {
                    self.state = CandidateCleanupState::ParentSyncPending;
                    CleanupAction::SyncParent { parent }
                } else {
                    CleanupAction::Retain
                }
            },
        }
    }

    /// The step after removing the candidate.
    pub open spec fn has_unlinked(
        before: CandidateCleanup,
        after: CandidateCleanup,
        outcome: Result<(), OsFailure>,
        action: CleanupAction,
    ) -> bool {
        &&& after.same_holdings(before)
        &&& after.created_ancestors == before.created_ancestors
        &&& ({
            let gone = match outcome {
                Ok(()) => true,
                Err(failure) => failure.errno == Errno::NoEnt,
            };
            if gone {
                &&& action == CleanupAction::SyncParent { parent: before.parent->Some_0 }
                &&& after.state == CandidateCleanupState::ParentSyncPending
            } else {
                &&& action == CleanupAction::Retain
                &&& after.state == CandidateCleanupState::Present
            }
        })
    }

    /// Takes the outcome of removing the candidate.
    pub fn unlinked(&mut self, outcome: Result<(), OsFailure>) -> (action: CleanupAction)
        requires
            old(self).start() is Inspect,
        ensures
            CandidateCleanup::has_unlinked(*old(self), *final(self), outcome, action),
    {
        let parent = match self.parent {
            Some(parent) => parent,
            None => {
                assert(false);
                return CleanupAction::Retain;
            },
        };
        let gone = match outcome {
            Ok(()) => true,
            Err(failure) => failure.errno == Errno::NoEnt,
        };
        if gone {
            self.state = CandidateCleanupState::ParentSyncPending;
            CleanupAction::SyncParent { parent }
        } else {
            CleanupAction::Retain
        }
    }

    /// The step after making the parent durable.
    pub open spec fn has_synced(
        before: CandidateCleanup,
        after: CandidateCleanup,
        outcome: Result<(), OsFailure>,
        action: CleanupAction,
    ) -> bool {
        &&& after.same_holdings(before)
        &&& after.created_ancestors == before.created_ancestors
        &&& match outcome {
            Ok(()) => action == CleanupAction::RollBack && after.state
                == CandidateCleanupState::Absent,
            Err(_) => action == CleanupAction::Retain && after.state
                == CandidateCleanupState::ParentSyncPending,
        }
    }

    /// Takes the outcome of making the parent durable.
    pub fn synced(&mut self, outcome: Result<(), OsFailure>) -> (action: CleanupAction)
        requires
            old(self).start() is SyncParent,
        ensures
            CandidateCleanup::has_synced(*old(self), *final(self), outcome, action),
    {
        match outcome {
            Ok(()) => {
                self.state = CandidateCleanupState::Absent;
                CleanupAction::RollBack
            },
            Err(_) => CleanupAction::Retain,
        }
    }

    /// The created directories, handed out.
    pub open spec fn has_begun_rollback(
        before: CandidateCleanup,
        after: CandidateCleanup,
        rollback: AncestorRollback,
    ) -> bool {
        &&& after.same_holdings(before)
        &&& after.state == before.state
        &&& after.created_ancestors@.len() == 0
        &&& rollback.wf()
        &&& rollback.created == before.created_ancestors
        &&& rollback.phase == taken_up(before.created_ancestors@)
    }

    /// Hands the created directories out to be dealt with.
    pub fn begin_rollback(&mut self) -> (rollback: AncestorRollback)
        requires
            old(self).state is Absent,
        ensures
            CandidateCleanup::has_begun_rollback(*old(self), *final(self), rollback),
    {
        let mut created: Vec<CreatedAncestor> = Vec::new();
        std::mem::swap(&mut created, &mut self.created_ancestors);
        AncestorRollback::rollback_created_ancestors(created)
    }

    /// The step after the rollback.
    pub open spec fn has_rolled_back(
        before: CandidateCleanup,
        after: CandidateCleanup,
        rollback: AncestorRollback,
        action: CleanupAction,
    ) -> bool {
        &&& after.same_holdings(before)
        &&& after.state == before.state
        &&& after.created_ancestors == rollback.created
        &&& action == (if rollback.phase is Done {
            CleanupAction::Release
        } else {
            CleanupAction::Retain
        })
        &&& action == CleanupAction::Release ==> after.created_ancestors@.len() == 0
    }

    /// Takes back what is left of the created directories. Only where nothing is left is
    /// everything let go.
    pub fn rolled_back(&mut self, rollback: AncestorRollback) -> (action: CleanupAction)
        requires
            old(self).state is Absent,
            rollback.wf(),
            rollback.phase is Done || rollback.phase is Retained,
        ensures
            CandidateCleanup::has_rolled_back(*old(self), *final(self), rollback, action),
    {
        self.created_ancestors = rollback.created;
        match rollback.phase {
            RollbackPhase::Done => CleanupAction::Release,
            _ => CleanupAction::Retain,
        }
    }
}

/// A cleanup that is tried again never goes back: what is removed is not removed again, and a
/// candidate whose removal only has to be made durable is not looked for again.
pub proof fn law_cleanup_only_moves_on(cleanup: CandidateCleanup)
    ensures
        cleanup.start() is Inspect ==> cleanup.state.rank() == 0,
        cleanup.start() is SyncParent ==> cleanup.state.rank() == 1,
        cleanup.start() is RollBack ==> cleanup.state.rank() == 2,
        cleanup.expectation is None && cleanup.state == CandidateCleanupState::Present
            ==> cleanup.start() == CleanupAction::Retain,
{
}

// ---------------------------------------------------------------------------------------------
// Outstanding cleanups
// ---------------------------------------------------------------------------------------------

/// The number of cleanups that are outstanding.
#[derive(Debug)]
pub struct CleanupTracker {
    pub pending: usize,
}

impl CleanupTracker {
    pub fn new() -> (tracker: CleanupTracker)
        ensures
            tracker.pending == 0,
    {
        CleanupTracker { pending: 0 }
    }
}

/// The count with one more mark issued.
pub open spec fn issued(pending: usize) -> usize {
    if pending == usize::MAX {
        pending
    } else {
        (pending + 1) as usize
    }
}

/// The count with one mark given back.
pub open spec fn returned(pending: usize) -> usize {
    if pending == 0 {
        pending
    } else {
        (pending - 1) as usize
    }
}

/// The mark of one outstanding cleanup.
#[derive(Debug)]
pub struct CleanupTicket {
    issued: bool,
}

impl CleanupTicket {
    pub fn new(tracker: &mut CleanupTracker) -> (ticket: CleanupTicket)
        ensures
            final(tracker).pending == issued(old(tracker).pending),
    {
        if tracker.pending < usize::MAX {
            tracker.pending = tracker.pending + 1;
        }
        CleanupTicket { issued: true }
    }

    /// Gives the mark back and tells whether it was the last one.
    pub fn release(self, tracker: &mut CleanupTracker) -> (drained: bool)
        ensures
            final(tracker).pending == returned(old(tracker).pending),
            drained == (final(tracker).pending == 0),
    {
        if tracker.pending > 0 {
            tracker.pending = tracker.pending - 1;
        }
        tracker.pending == 0
    }
}

/// What a wait for outstanding cleanups does next.
#[derive(Clone, Copy, Debug, PartialEq, Eq, Structural)]
pub enum DrainStep {
    /// The wait is over: whether nothing is outstanding.
    Over { drained: bool },
    /// Wait until a mark is given back, at most this long.
    Wait { remaining: Duration },
}

/// What a wait for cleanups does next.
pub open spec fn drain_decided(
    started: bool,
    tracker: CleanupTracker,
    remaining: Duration,
    step: DrainStep,
) -> bool {
    &&& step == (if !started || tracker.pending == 0 {
        DrainStep::Over { drained: true }
    } else if remaining.secs == 0 && remaining.nanos == 0 {
        DrainStep::Over { drained: false }
    } else {
        DrainStep::Wait { remaining }
    })
}

/// Decides before each wait. Where no cleanup was ever scheduled there is nothing to wait for.
pub fn drain_candidate_cleanup(
    started: bool,
    tracker: &CleanupTracker,
    remaining: Duration,
) -> (step: DrainStep)
    ensures
        drain_decided(started, *tracker, remaining, step),
{
    if !started || tracker.pending == 0 {
        return DrainStep::Over { drained: true };
    }
    if remaining.secs == 0 && remaining.nanos == 0 {
        return DrainStep::Over { drained: false };
    }
    DrainStep::Wait { remaining }
}

/// Whether a wait has ended in vain.
pub open spec fn drain_judged(
    tracker: CleanupTracker,
    timed_out: bool,
    again: Option<bool>,
) -> bool {
    &&& again == (if timed_out && tracker.pending > 0 {
        Some(false)
    } else {
        None
    })
}

/// Decides after a wait whether to look again: not where the time ran out with marks outstanding.
pub fn drain_waited(tracker: &CleanupTracker, timed_out: bool) -> (again: Option<bool>)
    ensures
        drain_judged(*tracker, timed_out, again),
{
    if timed_out && tracker.pending > 0 {
        Some(false)
    } else {
        None
    }
}

/// A mark that is given back leaves the count as it was before the mark was issued.
pub proof fn law_tickets_balance(pending: usize)
    requires
        pending < usize::MAX,
    ensures
        returned(issued(pending)) == pending,
{
}

// ---------------------------------------------------------------------------------------------
// The reaper
// ---------------------------------------------------------------------------------------------

pub const CANDIDATE_REAPER_QUEUE_CAPACITY: usize = 64;

pub open spec fn reaper_fault() -> Fault {
    in_context(
        Fault::Admission {
            error: (AdmissionError::Cancelled { resource: AdmissionResource::Uploads }),
        },
        "private-candidate cleanup service is unavailable"@,
    )
}

pub fn candidate_reaper_unavailable() -> (error: AnyError)
    ensures
        error@ == reaper_fault(),
{
    AnyError::admission(AdmissionError::cancelled(AdmissionResource::Uploads)).context(
        "private-candidate cleanup service is unavailable",
    )
}

/// The service that finishes cleanups. Once it had to keep one that it could not finish, no new
/// candidate is created any more.
#[derive(Debug)]
pub struct CandidateReaper {
    pub healthy: bool,
    /// Cleanups that are tried again from time to time.
    pub retained: Vec<CandidateCleanup>,
    /// Cleanups that can be neither tried again nor let go.
    pub abandoned: Vec<CandidateCleanup>,
    pub tracker: CleanupTracker,
}

/// The outcome of handing a cleanup to the worker.
#[derive(Debug)]
pub enum SendOutcome {
    Accepted,
    Full { cleanup: CandidateCleanup },
    Disconnected { cleanup: CandidateCleanup },
}

impl CandidateReaper {
    /// Nothing that is held is let go, and health is never regained.
    pub open spec fn keeps(self, before: CandidateReaper) -> bool {
        &&& self.healthy ==> before.healthy
        &&& before.retained@.len() <= self.retained@.len()
        &&& before.abandoned@.len() <= self.abandoned@.len()
        &&& self.retained@.take(before.retained@.len() as int) == before.retained@
        &&& self.abandoned@.take(before.abandoned@.len() as int) == before.abandoned@
    }

    /// One more cleanup is held, marked as outstanding.
    pub open spec fn holds_one_more(
        self,
        before: CandidateReaper,
        cleanup: CandidateCleanup,
        poisoned: bool,
    ) -> bool {
        if poisoned {
            &&& self.retained == before.retained
            &&& self.abandoned@.len() == before.abandoned@.len() + 1
            &&& self.abandoned@.last().ticket is Some
            &&& self.abandoned@.last() == (CandidateCleanup {
                ticket: self.abandoned@.last().ticket,
                ..cleanup
            })
        } else {
            &&& self.abandoned == before.abandoned
            &&& self.retained@.len() == before.retained@.len() + 1
            &&& self.retained@.last().ticket is Some
            &&& self.retained@.last() == (CandidateCleanup {
                ticket: self.retained@.last().ticket,
                ..cleanup
            })
        }
    }

    /// The number of outstanding cleanups once this one is among them.
    pub open spec fn outstanding(self, cleanup: CandidateCleanup) -> usize {
        if cleanup.ticket is Some {
            self.tracker.pending
        } else {
            issued(self.tracker.pending)
        }
    }

    pub fn candidate_reaper(worker_started: bool) -> (reaper: CandidateReaper)
        ensures
            reaper.healthy == worker_started,
            reaper.retained@.len() == 0,
            reaper.abandoned@.len() == 0,
            reaper.tracker.pending == 0,
    {
        CandidateReaper {
            healthy: worker_started,
            retained: Vec::new(),
            abandoned: Vec::new(),
            tracker: CleanupTracker::new(),
        }
    }

    /// The worker has stopped.
    pub fn worker_stopped(&mut self)
        ensures
            !final(self).healthy,
            final(self).retained == old(self).retained,
            final(self).abandoned == old(self).abandoned,
            final(self).tracker == old(self).tracker,
    {
        self.healthy = false;
    }

    /// Marks a cleanup as outstanding, once.
    pub fn track_cleanup(&mut self, cleanup: &mut CandidateCleanup)
        ensures
            final(self).healthy == old(self).healthy,
            final(self).retained == old(self).retained,
            final(self).abandoned == old(self).abandoned,
            final(cleanup).ticket is Some,
            *final(cleanup) == (CandidateCleanup {
                ticket: final(cleanup).ticket,
                ..*old(cleanup)
            }),
            old(cleanup).ticket is Some ==> *final(cleanup) == *old(cleanup)
                && final(self).tracker == old(self).tracker,
            old(cleanup).ticket is None ==> final(self).tracker.pending == issued(
                old(self).tracker.pending,
            ),
    {
        match cleanup.ticket {
            Some(_) => {},
            None => {
                let ticket = CleanupTicket::new(&mut self.tracker);
                cleanup.ticket = Some(ticket);
            },
        }
    }

    /// A cleanup that is kept.
    pub open spec fn has_kept(
        before: CandidateReaper,
        after: CandidateReaper,
        cleanup: CandidateCleanup,
        poisoned: bool,
    ) -> bool {
        &&& !after.healthy
        &&& after.tracker == before.tracker
        &&& after.keeps(before)
        &&& if poisoned {
            after.abandoned@ == before.abandoned@.push(cleanup)
                && after.retained == before.retained
        } else {
            after.retained@ == before.retained@.push(cleanup)
                && after.abandoned == before.abandoned
        }
    }

    /// Keeps a cleanup that could not be finished. `poisoned` is whether the store is unusable;
    /// the cleanup is then held for good.
    pub fn retain_degraded_cleanup(&mut self, cleanup: CandidateCleanup, poisoned: bool)
        ensures
            CandidateReaper::has_kept(*old(self), *final(self), cleanup, poisoned),
    {
        self.healthy = false;
        if poisoned {
            self.abandoned.push(cleanup);
        } else {
            self.retained.push(cleanup);
        }
        assert(self.retained@.take(old(self).retained@.len() as int) =~= old(self).retained@);
        assert(self.abandoned@.take(old(self).abandoned@.len() as int) =~= old(self).abandoned@);
    }

    /// A cleanup that is marked and kept.
    pub open spec fn has_marked_and_kept(
        before: CandidateReaper,
        after: CandidateReaper,
        cleanup: CandidateCleanup,
        poisoned: bool,
    ) -> bool {
        &&& !after.healthy
        &&& after.keeps(before)
        &&& after.holds_one_more(before, cleanup, poisoned)
        &&& after.tracker.pending == before.outstanding(cleanup)
    }

    /// Marks a cleanup as outstanding and keeps it.
    pub fn retain_with_reaper(&mut self, cleanup: CandidateCleanup, poisoned: bool)
        ensures
            CandidateReaper::has_marked_and_kept(*old(self), *final(self), cleanup, poisoned),
    {
        let mut cleanup = cleanup;
        self.track_cleanup(&mut cleanup);
        self.retain_degraded_cleanup(cleanup, poisoned);
    }

    /// A cleanup that is taken on.
    pub open spec fn has_taken_on(
        before: CandidateReaper,
        after: CandidateReaper,
        cleanup: CandidateCleanup,
        poisoned: bool,
        send: Option<CandidateCleanup>,
    ) -> bool {
        &&& after.keeps(before)
        &&& after.healthy == before.healthy
        &&& match send {
            Some(sent) => {
                &&& before.healthy
                &&& sent.ticket is Some
                &&& sent == (CandidateCleanup { ticket: sent.ticket, ..cleanup })
                &&& after.retained == before.retained
                &&& after.abandoned == before.abandoned
            },
            None => {
                &&& !before.healthy
                &&& after.holds_one_more(before, cleanup, poisoned)
            },
        }
        &&& after.tracker.pending == before.outstanding(cleanup)
    }

    /// Takes a cleanup on. It is handed to the worker while the service is healthy, and kept
    /// otherwise.
    pub fn enqueue_candidate_cleanup(&mut self, cleanup: CandidateCleanup, poisoned: bool) -> (send:
        Option<CandidateCleanup>)
        ensures
            CandidateReaper::has_taken_on(*old(self), *final(self), cleanup, poisoned, send),
    {
        let mut cleanup = cleanup;
        self.track_cleanup(&mut cleanup);
        if !self.healthy {
            self.retain_with_reaper(cleanup, poisoned);
            return None;
        }
        assert(self.retained@.take(old(self).retained@.len() as int) =~= old(self).retained@);
        assert(self.abandoned@.take(old(self).abandoned@.len() as int) =~= old(self).abandoned@);
        Some(cleanup)
    }

    /// A cleanup that was handed to the worker, or not.
    pub open spec fn has_sent(
        before: CandidateReaper,
        after: CandidateReaper,
        outcome: SendOutcome,
        poisoned: bool,
    ) -> bool {
        &&& after.keeps(before)
        &&& match outcome {
            SendOutcome::Accepted => after == before,
            SendOutcome::Full { cleanup } | SendOutcome::Disconnected { cleanup } => {
                &&& !after.healthy
                &&& after.holds_one_more(before, cleanup, poisoned)
                &&& after.tracker.pending == before.outstanding(cleanup)
            },
        }
    }

    /// Takes the outcome of handing a cleanup to the worker. A full queue and a stopped worker
    /// both end the creation of candidates.
    pub fn sent(&mut self, outcome: SendOutcome, poisoned: bool)
        ensures
            CandidateReaper::has_sent(*old(self), *final(self), outcome, poisoned),
    {
        match outcome {
            SendOutcome::Accepted => {
                assert(self.retained@.take(old(self).retained@.len() as int)
                    =~= old(self).retained@);
                assert(self.abandoned@.take(old(self).abandoned@.len() as int)
                    =~= old(self).abandoned@);
            },
            SendOutcome::Full { cleanup } => {
                self.retain_with_reaper(cleanup, poisoned);
            },
            SendOutcome::Disconnected { cleanup } => {
                self.retain_with_reaper(cleanup, poisoned);
            },
        }
    }

    /// The kept cleanups, handed out.
    pub open spec fn has_handed_out(
        before: CandidateReaper,
        after: CandidateReaper,
        pending: Vec<CandidateCleanup>,
    ) -> bool {
        &&& pending == before.retained
        &&& after.retained@.len() == 0
        &&& after.healthy == before.healthy
        &&& after.abandoned == before.abandoned
        &&& after.tracker == before.tracker
    }

    /// Hands the kept cleanups out for another try.
    pub fn retry_retained_cleanups(&mut self) -> (pending: Vec<CandidateCleanup>)
        ensures
            CandidateReaper::has_handed_out(*old(self), *final(self), pending),
    {
        let mut pending: Vec<CandidateCleanup> = Vec::new();
        std::mem::swap(&mut pending, &mut self.retained);
        pending
    }

    /// A cleanup that is still not finished.
    pub open spec fn has_taken_back(
        before: CandidateReaper,
        after: CandidateReaper,
        cleanup: CandidateCleanup,
        poisoned: bool,
    ) -> bool {
        &&& after.keeps(before)
        &&& after.healthy == before.healthy
        &&& after.tracker == before.tracker
        &&& if poisoned {
            after.abandoned@ == before.abandoned@.push(cleanup)
                && after.retained == before.retained
        } else {
            after.retained@ == before.retained@.push(cleanup)
                && after.abandoned == before.abandoned
        }
    }

    /// Takes back a cleanup that is still not finished. The health of the service stays what it
    /// is: it was lost when the cleanup was kept for the first time.
    pub fn still_pending(&mut self, cleanup: CandidateCleanup, poisoned: bool)
        ensures
            CandidateReaper::has_taken_back(*old(self), *final(self), cleanup, poisoned),
    {
        if poisoned {
            self.abandoned.push(cleanup);
        } else {
            self.retained.push(cleanup);
        }
        assert(self.retained@.take(old(self).retained@.len() as int) =~= old(self).retained@);
        assert(self.abandoned@.take(old(self).abandoned@.len() as int) =~= old(self).abandoned@);
    }

    /// A finished cleanup.
    pub open spec fn has_let_go(
        before: CandidateReaper,
        after: CandidateReaper,
        cleanup: CandidateCleanup,
        drained: bool,
    ) -> bool {
        &&& after.healthy == before.healthy
        &&& after.retained == before.retained
        &&& after.abandoned == before.abandoned
        &&& cleanup.ticket is Some ==> after.tracker.pending == returned(
            before.tracker.pending,
        ) && drained == (after.tracker.pending == 0)
        &&& cleanup.ticket is None ==> after.tracker == before.tracker && !drained
    }

    /// Lets go of a finished cleanup and tells whether it was the last outstanding one.
    pub fn finished(&mut self, cleanup: CandidateCleanup) -> (drained: bool)
        requires
            cleanup.state is Absent,
            cleanup.created_ancestors@.len() == 0,
        ensures
            CandidateReaper::has_let_go(*old(self), *final(self), cleanup, drained),
    {
        match cleanup.ticket {
            Some(ticket) => ticket.release(&mut self.tracker),
            None => false,
        }
    }
}

/// Health once lost stays lost, whatever is kept or sent later.
pub proof fn law_lost_health_stays_lost(a: CandidateReaper, b: CandidateReaper, c: CandidateReaper)
    requires
        b.keeps(a),
        c.keeps(b),
    ensures
        c.keeps(a),
        !a.healthy ==> !c.healthy,
{
    assert(c.retained@.take(a.retained@.len() as int) =~= b.retained@.take(
        a.retained@.len() as int,
    )) by {
        assert forall|i: int| 0 <= i < a.retained@.len() implies c.retained@[i] == b.retained@[i] by {
            assert(c.retained@.take(b.retained@.len() as int)[i] == b.retained@[i]);
        }
    }
    assert(c.abandoned@.take(a.abandoned@.len() as int) =~= b.abandoned@.take(
        a.abandoned@.len() as int,
    )) by {
        assert forall|i: int| 0 <= i < a.abandoned@.len() implies c.abandoned@[i]
            == b.abandoned@[i] by {
            assert(c.abandoned@.take(b.abandoned@.len() as int)[i] == b.abandoned@[i]);
        }
    }
}

/// A created directory is removed exactly where a look finds that very directory. One that is
/// gone, replaced or in use is let be, and after any other failure all that are left are kept.
pub proof fn law_created_directories_are_taken_back(
    before: AncestorRollback,
    after: AncestorRollback,
    stat: Result<Metadata, OsFailure>,
    outcome: Result<(), OsFailure>,
    version: crate::filesystem::entry::EntryVersion,
)
    requires
        before.wf(),
        before.created@.len() > 0,
        before.created@.last().expectation == (EntryExpectation::Present { version }),
    ensures
        AncestorRollback::has_inspected(before, after, stat) ==> match stat {
            Ok(found) => if found.dev == version.dev && found.ino == version.ino && found.mode
                & 0o170000 == version.kind {
                after.phase is Removing && after.created == before.created
            } else {
                after.created@ == before.created@.drop_last()
            },
            Err(failure) => if failure.errno == Errno::NoEnt {
                after.created@ == before.created@.drop_last()
            } else {
                after.phase is Retained && after.created == before.created
            },
        },
        AncestorRollback::has_removed(before, after, outcome) ==> match outcome {
            Ok(()) => {
                &&& after.phase is Syncing
                &&& after.created@.drop_last() == before.created@.drop_last()
                &&& after.created@.last().name == before.created@.last().name
                &&& after.created@.last().parent == before.created@.last().parent
            },
            Err(failure) => if failure.errno == Errno::NoEnt || failure.errno == Errno::NotEmpty
                || failure.errno == Errno::Exist {
                after.created@ == before.created@.drop_last()
            } else {
                after.phase is Retained && after.created == before.created
            },
        },
        AncestorRollback::has_synced(before, after, outcome) ==> if outcome is Ok {
            after.created@ == before.created@.drop_last()
        } else {
            after.phase is Retained && after.created == before.created
        },
        AncestorRollback::has_inspected(before, after, stat) || AncestorRollback::has_removed(
            before,
            after,
            outcome,
        ) || AncestorRollback::has_synced(before, after, outcome) ==> (after.phase is Done
            <==> after.created@.len() == 0),
{
}

/// A directory whose removal only has to be made durable is not looked at again; any other one is
/// looked at first, and a rollback without directories is done.
pub proof fn law_rollbacks_start_with_the_innermost(
    created: Vec<CreatedAncestor>,
    rollback: AncestorRollback,
)
    requires
        AncestorRollback::begins(created, rollback),
    ensures
        rollback.created == created,
        rollback.phase is Done <==> created@.len() == 0,
        created@.len() > 0 ==> {
            &&& rollback.phase is Syncing <==> created@.last().parent_sync_pending
            &&& rollback.phase is Inspecting <==> !created@.last().parent_sync_pending
        },
{
}

/// A candidate is removed exactly where a look finds that very file. Its absence, whoever brought
/// it about, is made durable, and then the directories on its way are dealt with. Anything else
/// keeps the cleanup for another try.
pub proof fn law_candidates_are_cleaned_up(
    before: CandidateCleanup,
    after: CandidateCleanup,
    parent: Handle,
    version: crate::filesystem::entry::EntryVersion,
    stat: Result<Metadata, OsFailure>,
    outcome: Result<(), OsFailure>,
    action: CleanupAction,
)
    requires
        before.parent == Some(parent),
        before.expectation == Some(EntryExpectation::Present { version }),
    ensures
        before.state is Present ==> before.start() == (CleanupAction::Inspect { parent }),
        before.state is ParentSyncPending ==> before.start() == (CleanupAction::SyncParent {
            parent,
        }),
        before.state is Absent ==> before.start() is RollBack,
        CandidateCleanup::has_inspected(before, after, stat, action) ==> match stat {
            Ok(found) => {
                &&& after.state is Present
                &&& action == (if found.dev == version.dev && found.ino == version.ino && found.mode
                    & 0o170000 == version.kind {
                    CleanupAction::Unlink { parent }
                } else {
                    CleanupAction::Retain
                })
            },
            Err(failure) => if failure.errno == Errno::NoEnt {
                action == (CleanupAction::SyncParent { parent }) && after.state is ParentSyncPending
            } else {
                action is Retain && after.state is Present
            },
        },
        CandidateCleanup::has_unlinked(before, after, outcome, action) ==> if (outcome matches Err(
            failure,
        ) ==> failure.errno == Errno::NoEnt) {
            action == (CleanupAction::SyncParent { parent }) && after.state is ParentSyncPending
        } else {
            action is Retain && after.state is Present
        },
        CandidateCleanup::has_synced(before, after, outcome, action) ==> if outcome is Ok {
            action is RollBack && after.state is Absent
        } else {
            action is Retain && after.state is ParentSyncPending
        },
        CandidateCleanup::has_inspected(before, after, stat, action)
            || CandidateCleanup::has_unlinked(before, after, outcome, action)
            || CandidateCleanup::has_synced(before, after, outcome, action) ==> {
            &&& after.parent == before.parent
            &&& after.name == before.name
            &&& after.expectation == before.expectation
            &&& after.candidate_lock == before.candidate_lock
            &&& after.guard == before.guard
            &&& after.created_ancestors == before.created_ancestors
        },
{
}

/// The directories that are handed out are all of them, and everything is let go exactly where
/// none of them is left.
pub proof fn law_cleanups_end_with_their_directories(
    before: CandidateCleanup,
    halfway: CandidateCleanup,
    after: CandidateCleanup,
    begun: AncestorRollback,
    rollback: AncestorRollback,
    action: CleanupAction,
)
    requires
        CandidateCleanup::has_begun_rollback(before, halfway, begun),
        CandidateCleanup::has_rolled_back(halfway, after, rollback, action),
        rollback.wf(),
    ensures
        begun.created == before.created_ancestors,
        after.created_ancestors == rollback.created,
        action is Release <==> rollback.created@.len() == 0,
        action is Release || action is Retain,
        after.candidate_lock == before.candidate_lock,
        after.guard == before.guard,
        after.name == before.name,
{
}

/// No cleanup is lost. While the service is healthy a cleanup goes to the worker, whole and
/// marked; otherwise, and where the worker cannot take it, it is kept, and no new candidate is
/// created any more.
pub proof fn law_no_cleanup_is_lost(
    before: CandidateReaper,
    after: CandidateReaper,
    cleanup: CandidateCleanup,
    poisoned: bool,
    send: Option<CandidateCleanup>,
    outcome: SendOutcome,
)
    ensures
        CandidateReaper::has_taken_on(before, after, cleanup, poisoned, send) ==> {
            &&& send is Some <==> before.healthy
            &&& after.healthy == before.healthy
            &&& send matches Some(sent) ==> sent.ticket is Some && sent.name == cleanup.name
                && sent.parent == cleanup.parent && sent.expectation == cleanup.expectation
                && sent.state == cleanup.state && sent.created_ancestors
                == cleanup.created_ancestors && sent.candidate_lock == cleanup.candidate_lock
                && sent.guard == cleanup.guard
            &&& send is None && !poisoned ==> after.retained@.len() == before.retained@.len() + 1
                && after.retained@.last().name == cleanup.name
            &&& send is None && poisoned ==> after.abandoned@.len() == before.abandoned@.len() + 1
                && after.abandoned@.last().name == cleanup.name
        },
        CandidateReaper::has_sent(before, after, outcome, poisoned) ==> match outcome {
            SendOutcome::Accepted => after == before,
            SendOutcome::Full { cleanup: refused } | SendOutcome::Disconnected {
                cleanup: refused,
            } => {
                &&& !after.healthy
                &&& !poisoned ==> after.retained@.len() == before.retained@.len() + 1
                    && after.retained@.last().name == refused.name
                &&& poisoned ==> after.abandoned@.len() == before.abandoned@.len() + 1
                    && after.abandoned@.last().name == refused.name
            },
        },
        CandidateReaper::has_kept(before, after, cleanup, poisoned)
            || CandidateReaper::has_taken_back(before, after, cleanup, poisoned) ==> {
            &&& !poisoned ==> after.retained@ == before.retained@.push(cleanup) && after.abandoned
                == before.abandoned
            &&& poisoned ==> after.abandoned@ == before.abandoned@.push(cleanup) && after.retained
                == before.retained
        },
        CandidateReaper::has_kept(before, after, cleanup, poisoned)
            || CandidateReaper::has_marked_and_kept(before, after, cleanup, poisoned)
            ==> !after.healthy,
        CandidateReaper::has_marked_and_kept(before, after, cleanup, poisoned) ==> if poisoned {
            after.abandoned@.len() == before.abandoned@.len() + 1 && after.abandoned@.last().name
                == cleanup.name
        } else {
            after.retained@.len() == before.retained@.len() + 1 && after.retained@.last().name
                == cleanup.name
        },
{
}

/// The kept cleanups are tried again, all of them, and a finished one counts as outstanding no
/// more: the last one that is let go tells that nothing is outstanding.
pub proof fn law_kept_cleanups_are_tried_again(
    before: CandidateReaper,
    after: CandidateReaper,
    pending: Vec<CandidateCleanup>,
    cleanup: CandidateCleanup,
    drained: bool,
)
    ensures
        CandidateReaper::has_handed_out(before, after, pending) ==> pending == before.retained
            && after.retained@.len() == 0 && after.abandoned == before.abandoned,
        CandidateReaper::has_let_go(before, after, cleanup, drained) ==> {
            &&& after.retained == before.retained
            &&& after.abandoned == before.abandoned
            &&& cleanup.ticket is Some && before.tracker.pending > 0 ==> after.tracker.pending
                == before.tracker.pending - 1
            &&& cleanup.ticket is Some ==> (drained <==> before.tracker.pending <= 1)
            &&& cleanup.ticket is None ==> after.tracker.pending == before.tracker.pending
                && !drained
        },
{
}

/// A wait for cleanups ends well exactly where nothing is outstanding, ends in vain exactly where
/// the time is used up before that, and goes on otherwise.
pub proof fn law_waits_for_cleanups(
    started: bool,
    tracker: CleanupTracker,
    remaining: Duration,
    step: DrainStep,
    timed_out: bool,
    again: Option<bool>,
)
    requires
        drain_decided(started, tracker, remaining, step),
        drain_judged(tracker, timed_out, again),
    ensures
        step == (DrainStep::Over { drained: true }) <==> !started || tracker.pending == 0,
        step == (DrainStep::Over { drained: false }) <==> started && tracker.pending > 0
            && remaining.secs == 0 && remaining.nanos == 0,
        step is Wait ==> step == (DrainStep::Wait { remaining }),
        again == Some(false) <==> timed_out && tracker.pending > 0,
        again is None <==> !timed_out || tracker.pending == 0,
{
}

} // verus!
