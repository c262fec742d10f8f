//! Private candidates: files that are written under a private name and published by a rename.
use crate::error::{AdmissionResource, AnyError, DurabilityStage, Errno};
use crate::fault::{in_context, said, undurable, Fault};
use crate::filesystem::cleanup::{
    candidate_reaper_unavailable, reaper_fault, CandidateCleanup, CandidateCleanupState,
    CreatedAncestor, Handle,
};
use crate::filesystem::entry::{same_parts, same_path, EntryExpectation, Metadata};
use crate::filesystem::failure::{
    durability_error, ended, limit_fault, walk_limit_exceeded, OsFailure,
};

use crate::filesystem::stale::{is_private, private_candidate, recovery_fault, RecoveryHealth};
use crate::path::{components, parts};
use crate::text::{
    digits, number_text, octal_digits, octal_text, random_uuid, text2, text3, uuid_text,
    TextBuilder,
};
use vstd::prelude::*;

verus! {

// ---------------------------------------------------------------------------------------------
// Names
// ---------------------------------------------------------------------------------------------

#[derive(Clone, Copy, Debug, PartialEq, Eq, Structural)]
pub enum TempCandidateKind {
    Upload,
    Staging,
}

pub open spec fn kind_prefix(kind: TempCandidateKind) -> Seq<char> {
    match kind {
        TempCandidateKind::Upload => ".ram-upload-"@,
        TempCandidateKind::Staging => ".ram-staging-"@,
    }
}

/// The private name with a given identifier.
pub open spec fn private_name(kind: TempCandidateKind, id: Seq<char>) -> Seq<char> {
    kind_prefix(kind) + id + ".tmp"@
}

impl TempCandidateKind {
    /// The private name with a given identifier.
    pub fn name_with(self, id: &str) -> (name: String)
        ensures
            name@ == private_name(self, id@),
    {
        let prefix = match self {
            TempCandidateKind::Upload => ".ram-upload-",
            TempCandidateKind::Staging => ".ram-staging-",
        };
        text3(prefix, id, ".tmp")
    }

    /// A private name with a random identifier. Which one depends on chance.
    pub fn name(self) -> (name: String)
        ensures
            exists|id: Seq<char>| uuid_text(id) && name@ == #[trigger] private_name(self, id),
    {
        let id = random_uuid();
        self.name_with(id.as_str())
    }
}

/// Private names of one kind with different identifiers are different, and so are private names
/// of different kinds.
pub proof fn law_private_names_differ(
    a: TempCandidateKind,
    x: Seq<char>,
    b: TempCandidateKind,
    y: Seq<char>,
)
    requires
        uuid_text(x),
        uuid_text(y),
        private_name(a, x) == private_name(b, y),
    ensures
        a == b,
        x == y,
{
    reveal_strlit(".ram-upload-");
    reveal_strlit(".ram-staging-");
    reveal_strlit(".tmp");
    let left = private_name(a, x);
    let right = private_name(b, y);
    if a != b {
        assert(left[5] == kind_prefix(a)[5]);
        assert(right[5] == kind_prefix(b)[5]);
        assert(false);
    }
    let n = kind_prefix(a).len() as int;
    assert(left.subrange(n, n + 36) =~= x);
    assert(right.subrange(n, n + 36) =~= y);
}

// ---------------------------------------------------------------------------------------------
// Making a new file private
// ---------------------------------------------------------------------------------------------

/// The texts of the four facts that make a candidate unsafe.
pub open spec fn unsafe_text(metadata: Metadata) -> Seq<char> {
    "private upload candidate metadata is unsafe: mode="@ + octal_digits(
        (metadata.mode & 0o7777) as nat,
    ) + ", uid="@ + digits(metadata.uid as nat) + ", links="@ + digits(metadata.nlink as nat)
        + ", regular="@ + crate::display::flag_text(metadata.spec_is_file())
}

fn describe_unsafe(metadata: &Metadata) -> (text: String)
    ensures
        text@ == unsafe_text(*metadata),
{
    let mode = octal_text(metadata.mode & 0o7777);
    let uid = number_text(metadata.uid as u64);
    let links = number_text(metadata.nlink);
    let regular = if metadata.is_file() {
        "true"
    } else {
        "false"
    };
    let mut builder = TextBuilder::new();
    builder.push("private upload candidate metadata is unsafe: mode=");
    builder.push(mode.as_str());
    builder.push(", uid=");
    builder.push(uid.as_str());
    builder.push(", links=");
    builder.push(links.as_str());
    builder.push(", regular=");
    builder.push(regular);
    assert(builder.view() =~= unsafe_text(*metadata));
    builder.finish()
}

/// The steps by which a new file is made private, in order.
#[derive(Clone, Copy, Debug, PartialEq, Eq, Structural)]
pub enum SecuringStep {
    /// Lock the file before anything else, so that no scan takes it for a stale one.
    Lock,
    /// Give it the mode of a private file.
    SetMode,
    /// Look at what it is now.
    Inspect,
    /// Make the mode durable.
    Sync,
    /// Keep a second descriptor that owns the lock.
    Duplicate,
    Done,
}

/// The outcome of a step. `said` is what the system says of the failure.
#[allow(inconsistent_fields)]
#[derive(Debug)]
pub enum SecuringReply {
    Succeeded,
    OsFailed { failure: OsFailure, system: String },
    Failed { error: AnyError },
    Known { metadata: Metadata },
}

/// The next step.
pub open spec fn following(step: SecuringStep) -> SecuringStep {
    match step {
        SecuringStep::Lock => SecuringStep::SetMode,
        SecuringStep::SetMode => SecuringStep::Inspect,
        SecuringStep::Inspect => SecuringStep::Sync,
        SecuringStep::Sync => SecuringStep::Duplicate,
        SecuringStep::Duplicate => SecuringStep::Done,
        SecuringStep::Done => SecuringStep::Done,
    }
}

/// The replies that a step can have.
pub open spec fn fits(step: SecuringStep, reply: SecuringReply) -> bool {
    match step {
        SecuringStep::Lock | SecuringStep::SetMode => reply is Succeeded || reply is OsFailed,
        SecuringStep::Inspect => reply is Known || reply is Failed,
        SecuringStep::Sync | SecuringStep::Duplicate => reply is Succeeded || reply is Failed,
        SecuringStep::Done => false,
    }
}

/// Why a step ends the creation.
pub open spec fn securing_fault(step: SecuringStep, reply: SecuringReply, service_uid: u32) -> Option<
    Fault,
> {
    match reply {
        SecuringReply::Succeeded => None,
        SecuringReply::Known { metadata } => if is_private(metadata, service_uid) {
            None
        } else {
            Some(said(unsafe_text(metadata)))
        },
        SecuringReply::OsFailed { failure, system } => Some(
            if step == SecuringStep::Lock {
                said(
                    "failed to lock private upload candidate against startup cleanup: "@ + system@,
                )
            } else {
                failure.fault()
            },
        ),
        SecuringReply::Failed { error } => Some(
            if step == SecuringStep::Sync {
                undurable(DurabilityStage::CandidateFile, false, error@)
            } else {
                error@
            },
        ),
    }
}

/// The answer to a step of making a file private.
pub open spec fn securing_answered(
    step: SecuringStep,
    reply: SecuringReply,
    service_uid: u32,
    next: Result<SecuringStep, AnyError>,
) -> bool {
    &&& match securing_fault(step, reply, service_uid) {
        Some(fault) => next matches Err(error) && error@ == fault,
        None => next matches Ok(after) && after == following(step),
    }
}

/// Takes the outcome of one step and tells the next.
pub fn secure_private_candidate(step: SecuringStep, reply: SecuringReply, service_uid: u32) -> (next:
    Result<SecuringStep, AnyError>)
    requires
        fits(step, reply),
    ensures
        securing_answered(step, reply, service_uid, next),
{
    match reply {
        SecuringReply::Succeeded => {},
        SecuringReply::Known { metadata } => {
            if !private_candidate(&metadata, service_uid) {
                let text = describe_unsafe(&metadata);
                return Err(AnyError::message(text.as_str()));
            }
        },
        SecuringReply::OsFailed { failure, system } => {
            if step == SecuringStep::Lock {
                let text = text2(
                    "failed to lock private upload candidate against startup cleanup: ",
                    system.as_str(),
                );
                return Err(AnyError::message(text.as_str()));
            }
            return Err(failure.into_error());
        },
        SecuringReply::Failed { error } => {
            if step == SecuringStep::Sync {
                return Err(durability_error(DurabilityStage::CandidateFile, false, error));
            }
            return Err(error);
        },
    }
    Ok(
        match step {
            SecuringStep::Lock => SecuringStep::SetMode,
            SecuringStep::SetMode => SecuringStep::Inspect,
            SecuringStep::Inspect => SecuringStep::Sync,
            SecuringStep::Sync => SecuringStep::Duplicate,
            SecuringStep::Duplicate => SecuringStep::Done,
            SecuringStep::Done => SecuringStep::Done,
        },
    )
}

// ---------------------------------------------------------------------------------------------
// Creating a candidate
// ---------------------------------------------------------------------------------------------

/// How many names are tried.
pub const CANDIDATE_ATTEMPTS: usize = 16;

#[derive(Clone, Copy, Debug, PartialEq, Eq, Structural)]
pub enum CreationPhase {
    /// The exclusive creation of a file under a new name.
    Creating,
    /// What the new file is.
    Inspecting,
    /// Making it private.
    Securing { expectation: EntryExpectation },
    Ended,
}

/// The creation of a candidate under a name that nobody else has.
#[derive(Debug)]
pub struct CandidateCreation {
    pub attempts_left: usize,
    pub phase: CreationPhase,
    /// The directories that were created on the way, and that the candidate takes over.
    pub created_ancestors: Vec<CreatedAncestor>,
}

/// What follows the exclusive creation.
#[derive(Debug)]
pub enum CreationStep {
    /// Try another name.
    Again,
    /// Look at the new file.
    Inspect,
    Failed { error: AnyError },
}

/// A creation that failed after the file was made: the error, and the cleanup that now owns the
/// file and the directories on its way.
#[derive(Debug)]
pub struct FailedCreation {
    pub error: AnyError,
    pub cleanup: CandidateCleanup,
}

/// The descriptors of a new file: its pinned parent, and the file itself or the duplicate that
/// owns its lock.
#[derive(Clone, Copy, Debug, PartialEq, Eq, Structural)]
pub struct NewFile {
    pub parent: Handle,
    pub file: Handle,
    pub candidate_lock: Handle,
}

/// A candidate that is private and locked.
#[derive(Debug)]
pub struct CreatedTempCandidate {
    pub cleanup_parent: Option<Handle>,
    pub temp_name: Vec<u8>,
    pub file: Option<Handle>,
    pub candidate_lock: Option<Handle>,
    pub expectation: EntryExpectation,
    pub created_ancestors: Vec<CreatedAncestor>,
}

impl CandidateCreation {
    pub open spec fn wf(self) -> bool {
        self.phase == CreationPhase::Creating ==> 1 <= self.attempts_left <= CANDIDATE_ATTEMPTS
    }

    /// The start of a creation, or why there is none.
    pub open spec fn begins(
        healthy: bool,
        created_ancestors: Vec<CreatedAncestor>,
        begun: Result<CandidateCreation, (AnyError, Vec<CreatedAncestor>)>,
    ) -> bool {
        &&& match begun {
            Ok(creation) => {
                &&& healthy
                &&& creation.wf()
                &&& creation.attempts_left == CANDIDATE_ATTEMPTS
                &&& creation.phase == CreationPhase::Creating
                &&& creation.created_ancestors == created_ancestors
            },
            Err((error, kept)) => !healthy && error@ == reaper_fault() && kept
                == created_ancestors,
        }
    }

    /// Starts only while the cleanup service is healthy.
    pub fn create_temp_in(healthy: bool, created_ancestors: Vec<CreatedAncestor>) -> (begun: Result<
        CandidateCreation,
        (AnyError, Vec<CreatedAncestor>),
    >)
        ensures
            CandidateCreation::begins(healthy, created_ancestors, begun),
    {
        if !healthy {
            return Err((candidate_reaper_unavailable(), created_ancestors));
        }
        Ok(
            CandidateCreation {
                attempts_left: CANDIDATE_ATTEMPTS,
                phase: CreationPhase::Creating,
                created_ancestors,
            },
        )
    }

    /// The step after the exclusive creation.
    pub open spec fn has_created(
        before: CandidateCreation,
        after: CandidateCreation,
        outcome: Result<(), OsFailure>,
        step: CreationStep,
    ) -> bool {
        &&& after.wf()
        &&& after.created_ancestors == before.created_ancestors
        &&& match outcome {
            Ok(()) => step is Inspect && after.phase == CreationPhase::Inspecting,
            Err(failure) => if failure.errno != Errno::Exist {
                &&& step matches CreationStep::Failed { error } && error@ == failure.fault()
                &&& after.phase == CreationPhase::Ended
            } else if before.attempts_left == 1 {
                &&& step matches CreationStep::Failed { error } && error@ == said(
                    "unable to allocate a unique temporary file"@,
                )
                &&& after.phase == CreationPhase::Ended
            } else {
                &&& step is Again
                &&& after.phase == CreationPhase::Creating
                &&& after.attempts_left == before.attempts_left - 1
            },
        }
    }

    /// Takes the outcome of the exclusive creation. A name that is taken is no failure until all
    /// tries are used up.
    pub fn created(&mut self, outcome: Result<(), OsFailure>) -> (step: CreationStep)
        requires
            old(self).wf(),
            old(self).phase is Creating,
        ensures
            CandidateCreation::has_created(*old(self), *final(self), outcome, step),
    {
        match outcome {
            Ok(()) => {
                self.phase = CreationPhase::Inspecting;
                CreationStep::Inspect
            },
            Err(failure) => {
                if failure.errno != Errno::Exist {
                    self.phase = CreationPhase::Ended;
                    return CreationStep::Failed { error: failure.into_error() };
                }
                if self.attempts_left == 1 {
                    self.phase = CreationPhase::Ended;
                    return CreationStep::Failed {
                        error: AnyError::message("unable to allocate a unique temporary file"),
                    };
                }
                self.attempts_left = self.attempts_left - 1;
                CreationStep::Again
            },
        }
    }

    /// The step after looking at the new file.
    pub open spec fn has_inspected(
        before: CandidateCreation,
        after: CandidateCreation,
        metadata: Result<Metadata, AnyError>,
        name: Vec<u8>,
        parent: Handle,
        file: Handle,
        next: Result<SecuringStep, FailedCreation>,
    ) -> bool {
        &&& after.wf()
        &&& match (metadata, next) {
            (Ok(found), Ok(step)) => {
                &&& step == SecuringStep::Lock
                &&& after.created_ancestors == before.created_ancestors
                &&& after.phase == (CreationPhase::Securing {
                    expectation: (EntryExpectation::Present { version: found.version() }),
                })
            },
            (Err(source), Err(failed)) => {
                &&& failed.error == source
                &&& after.phase == CreationPhase::Ended
                &&& failed.cleanup == (CandidateCleanup {
                    parent: Some(parent),
                    name,
                    state: CandidateCleanupState::Present,
                    expectation: None,
                    created_ancestors: before.created_ancestors,
                    candidate_lock: Some(file),
                    guard: None,
                    ticket: None,
                })
            },
            _ => false,
        }
    }

    /// Takes a look at the new file. A file whose identity cannot be read is never removed by its
    /// name.
    pub fn inspected(
        &mut self,
        metadata: Result<Metadata, AnyError>,
        name: Vec<u8>,
        parent: Handle,
        file: Handle,
    ) -> (next: Result<SecuringStep, FailedCreation>)
        requires
            old(self).wf(),
            old(self).phase is Inspecting,
        ensures
            CandidateCreation::has_inspected(*old(self), *final(self), metadata, name, parent, file, next),
    {
        match metadata {
            Ok(found) => {
                self.phase = CreationPhase::Securing {
                    expectation: EntryExpectation::from_metadata(&found),
                };
                Ok(SecuringStep::Lock)
            },
            Err(error) => {
                self.phase = CreationPhase::Ended;
                let mut owned: Vec<CreatedAncestor> = Vec::new();
                std::mem::swap(&mut owned, &mut self.created_ancestors);
                Err(
                    FailedCreation {
                        error,
                        cleanup: CandidateCleanup::unverified_candidate(
                            Some(parent),
                            name,
                            owned,
                            Some(file),
                        ),
                    },
                )
            },
        }
    }

    /// The end of a creation.
    pub open spec fn has_secured(
        creation: CandidateCreation,
        outcome: Result<(), AnyError>,
        healthy: bool,
        name: Vec<u8>,
        held: NewFile,
        created: Result<CreatedTempCandidate, FailedCreation>,
    ) -> bool {
        &&& creation.phase matches CreationPhase::Securing { expectation } && match created {
            Ok(candidate) => {
                &&& outcome is Ok
                &&& healthy
                &&& candidate == (CreatedTempCandidate {
                    cleanup_parent: Some(held.parent),
                    temp_name: name,
                    file: Some(held.file),
                    candidate_lock: Some(held.candidate_lock),
                    expectation,
                    created_ancestors: creation.created_ancestors,
                })
            },
            Err(failed) => {
                &&& match outcome {
                    Err(error) => failed.error == error,
                    Ok(()) => !healthy && failed.error@ == reaper_fault(),
                }
                &&& failed.cleanup == (CandidateCleanup {
                    parent: Some(held.parent),
                    name,
                    state: CandidateCleanupState::Present,
                    expectation: Some(expectation),
                    created_ancestors: creation.created_ancestors,
                    candidate_lock: Some(
                        if outcome is Ok {
                            held.candidate_lock
                        } else {
                            held.file
                        },
                    ),
                    guard: None,
                    ticket: None,
                })
            },
        }
    }

    /// Takes the outcome of making the file private. The cleanup service is asked once more
    /// whether it is healthy, for it may have failed in between.
    pub fn secured(
        self,
        outcome: Result<(), AnyError>,
        healthy: bool,
        name: Vec<u8>,
        held: NewFile,
    ) -> (created: Result<CreatedTempCandidate, FailedCreation>)
        requires
            self.phase is Securing,
        ensures
            CandidateCreation::has_secured(self, outcome, healthy, name, held, created),
    {
        let expectation = match self.phase {
            CreationPhase::Securing { expectation } => expectation,
            _ => EntryExpectation::Missing,
        };
        match outcome {
            Err(error) => Err(
                FailedCreation {
                    error,
                    cleanup: CandidateCleanup::candidate(
                        Some(held.parent),
                        name,
                        expectation,
                        self.created_ancestors,
                        Some(held.file),
                        None,
                    ),
                },
            ),
            Ok(()) => {
                if !healthy {
                    return Err(
                        FailedCreation {
                            error: candidate_reaper_unavailable(),
                            cleanup: CandidateCleanup::candidate(
                                Some(held.parent),
                                name,
                                expectation,
                                self.created_ancestors,
                                Some(held.candidate_lock),
                                None,
                            ),
                        },
                    );
                }
                Ok(
                    CreatedTempCandidate {
                        cleanup_parent: Some(held.parent),
                        temp_name: name,
                        file: Some(held.file),
                        candidate_lock: Some(held.candidate_lock),
                        expectation,
                        created_ancestors: self.created_ancestors,
                    },
                )
            },
        }
    }
}

impl CreatedTempCandidate {
    /// The cleanup of a candidate that is not used after all.
    pub fn into_cleanup(self) -> (cleanup: CandidateCleanup)
        ensures
            cleanup == (CandidateCleanup {
                parent: self.cleanup_parent,
                name: self.temp_name,
                state: CandidateCleanupState::Present,
                expectation: Some(self.expectation),
                created_ancestors: self.created_ancestors,
                candidate_lock: self.candidate_lock,
                guard: None,
                ticket: None,
            }),
    {
        CandidateCleanup::candidate(
            self.cleanup_parent,
            self.temp_name,
            self.expectation,
            self.created_ancestors,
            self.candidate_lock,
            None,
        )
    }
}

// ---------------------------------------------------------------------------------------------
// Where a candidate may be created
// ---------------------------------------------------------------------------------------------

/// The number of directories above a target.
pub open spec fn parent_depth(rel: Seq<u8>) -> nat {
    if parts(rel).len() == 0 {
        0
    } else {
        (parts(rel).len() - 1) as nat
    }
}

/// Why no candidate is created for a target. A scan after a crash has to be able to reach every
/// candidate.
pub open spec fn creation_fault(rel: Seq<u8>, health: RecoveryHealth, max_depth: usize) -> Option<
    Fault,
> {
    if !health.healthy {
        Some(recovery_fault())
    } else if parent_depth(rel) > max_depth {
        Some(
            in_context(
                limit_fault(
                    AdmissionResource::WalkDepth,
                    max_depth,
                    Some(parent_depth(rel) as usize),
                ),
                "upload target parent is deeper than the configured crash-recovery cleanup scan"@,
            ),
        )
    } else {
        None
    }
}

/// The check of a target before its parent is opened.
pub open spec fn creation_checked(
    rel: Seq<u8>,
    health: RecoveryHealth,
    max_depth: usize,
    checked: Result<(), AnyError>,
) -> bool {
    &&& ended(checked, creation_fault(rel, health, max_depth))
}

/// Checks a target before its parent is opened.
pub fn create_blocking_temp_with_kind(rel: &[u8], health: &RecoveryHealth, max_depth: usize) -> (checked:
    Result<(), AnyError>)
    ensures
        creation_checked(rel@, *health, max_depth, checked),
{
    match health.ensure_candidate_recovery_healthy() {
        Ok(()) => {},
        Err(error) => {
            return Err(error);
        },
    }
    let found = components(rel);
    let count: usize = found.len();
    assert(parts(rel@).len() == count);
    let depth: usize = if count == 0 {
        0
    } else {
        count - 1
    };
    if depth > max_depth {
        return Err(
            walk_limit_exceeded(AdmissionResource::WalkDepth, max_depth, Some(depth)).context(
                "upload target parent is deeper than the configured crash-recovery cleanup scan",
            ),
        );
    }
    Ok(())
}

/// The check that an opened parent is the one that a target names.
pub open spec fn resolution_checked(
    resolved: Seq<u8>,
    rel: Seq<u8>,
    checked: Result<(), AnyError>,
) -> bool {
    &&& ended(
        checked,
        if same_parts(resolved, rel) {
            None
        } else {
            Some(said("mutation target resolved to a different capability path"@))
        },
    )
}

/// Checks that the parent that was opened is the one that the target names.
pub fn check_resolved_target(resolved: &[u8], rel: &[u8]) -> (checked: Result<(), AnyError>)
    ensures
        resolution_checked(resolved@, rel@, checked),
{
    if !same_path(resolved, rel) {
        return Err(AnyError::message("mutation target resolved to a different capability path"));
    }
    Ok(())
}

/// What a filesystem tells of its space.
pub open spec fn space_told(
    blocks: u64,
    block_size: u64,
    files: u64,
    free_files: u64,
    space: (u64, u64, u64),
) -> bool {
    &&& space.0 == (if blocks * block_size > u64::MAX {
        u64::MAX as int
    } else {
        blocks * block_size
    })
    &&& space.1 == files
    &&& space.2 == free_files
}

/// The free space, the number of objects and the number of free objects that a filesystem tells.
pub fn available_space(blocks: u64, block_size: u64, files: u64, free_files: u64) -> (space: (
    u64,
    u64,
    u64,
))
    ensures
        space_told(blocks, block_size, files, free_files, space),
{
    match blocks.checked_mul(block_size) {
        Some(bytes) => (bytes, files, free_files),
        None => (u64::MAX, files, free_files),
    }
}

/// A new file becomes private step by step, each where the one before it succeeded: it is locked,
/// given its mode, looked at, made durable, and its lock is kept. It passes the look exactly where
/// it is a regular file of the service with a single name that nobody else may open.
pub proof fn law_new_files_become_private(
    step: SecuringStep,
    reply: SecuringReply,
    service_uid: u32,
    next: Result<SecuringStep, AnyError>,
)
    requires
        fits(step, reply),
        securing_answered(step, reply, service_uid, next),
    ensures
        next is Ok <==> match reply {
            SecuringReply::Succeeded => true,
            SecuringReply::Known { metadata } => {
                &&& metadata.mode & 0o170000 == 0o100000
                &&& metadata.mode & 0o7777 == 0o600
                &&& metadata.uid == service_uid
                &&& metadata.nlink == 1
            },
            SecuringReply::OsFailed { .. } => false,
            SecuringReply::Failed { .. } => false,
        },
        next matches Ok(after) ==> {
            &&& step is Lock <==> after is SetMode
            &&& step is SetMode <==> after is Inspect
            &&& step is Inspect <==> after is Sync
            &&& step is Sync <==> after is Duplicate
            &&& step is Duplicate <==> after is Done
        },
{
}

/// A creation begins exactly while the cleanup service is healthy. A name that is taken is tried
/// again with another one until all tries are used up, any other failure ends the creation, and a
/// file that was made is looked at.
pub proof fn law_candidates_get_a_name_of_their_own(
    healthy: bool,
    created_ancestors: Vec<CreatedAncestor>,
    begun: Result<CandidateCreation, (AnyError, Vec<CreatedAncestor>)>,
    before: CandidateCreation,
    after: CandidateCreation,
    outcome: Result<(), OsFailure>,
    step: CreationStep,
)
    requires
        CandidateCreation::begins(healthy, created_ancestors, begun),
        CandidateCreation::has_created(before, after, outcome, step),
        before.wf(),
        before.phase is Creating,
    ensures
        begun is Ok <==> healthy,
        begun matches Ok(creation) ==> creation.phase is Creating && creation.attempts_left == 16
            && creation.created_ancestors == created_ancestors,
        begun matches Err((error, kept)) ==> kept == created_ancestors,
        step is Inspect <==> outcome is Ok,
        step is Inspect ==> after.phase is Inspecting,
        step is Again <==> (outcome matches Err(failure) && failure.errno == Errno::Exist
            && before.attempts_left > 1),
        step is Again ==> after.phase is Creating && after.attempts_left == before.attempts_left - 1,
        step is Failed ==> after.phase is Ended,
        after.created_ancestors == before.created_ancestors,
{
}

/// A file that was made becomes a candidate exactly where its identity can be read, it was made
/// private, and the cleanup service is still healthy. Otherwise a cleanup takes over all that is
/// held for it, and removes nothing by name where the identity is unknown.
pub proof fn law_made_files_become_candidates(
    before: CandidateCreation,
    after: CandidateCreation,
    metadata: Result<Metadata, AnyError>,
    name: Vec<u8>,
    parent: Handle,
    file: Handle,
    next: Result<SecuringStep, FailedCreation>,
    outcome: Result<(), AnyError>,
    healthy: bool,
    held: NewFile,
    created: Result<CreatedTempCandidate, FailedCreation>,
)
    requires
        CandidateCreation::has_inspected(before, after, metadata, name, parent, file, next),
    ensures
        next is Ok <==> metadata is Ok,
        next matches Ok(step) ==> step is Lock && after.phase is Securing,
        next matches Err(failed) ==> {
            &&& failed.cleanup.expectation is None
            &&& failed.cleanup.name == name
            &&& failed.cleanup.parent == Some(parent)
            &&& failed.cleanup.candidate_lock == Some(file)
            &&& failed.cleanup.created_ancestors == before.created_ancestors
        },
        CandidateCreation::has_secured(after, outcome, healthy, name, held, created) ==> {
            &&& created is Ok <==> outcome is Ok && healthy
            &&& created matches Ok(candidate) ==> {
                &&& candidate.temp_name == name
                &&& candidate.file == Some(held.file)
                &&& candidate.candidate_lock == Some(held.candidate_lock)
                &&& candidate.cleanup_parent == Some(held.parent)
                &&& candidate.created_ancestors == after.created_ancestors
                &&& metadata matches Ok(found) ==> candidate.expectation == (
                EntryExpectation::Present { version: found.version() })
            }
            &&& created matches Err(failed) ==> {
                &&& failed.cleanup.name == name
                &&& failed.cleanup.parent == Some(held.parent)
                &&& failed.cleanup.created_ancestors == after.created_ancestors
                &&& failed.cleanup.candidate_lock is Some
                &&& failed.cleanup.state is Present
                &&& metadata matches Ok(found) ==> failed.cleanup.expectation == Some(
                    EntryExpectation::Present { version: found.version() },
                )
            }
        },
{
}

/// A candidate may be created exactly where recovery works and a scan can reach the target's
/// directory, and only where that directory is the one that the target names.
pub proof fn law_candidates_are_created_within_reach(
    rel: Seq<u8>,
    health: RecoveryHealth,
    max_depth: usize,
    checked: Result<(), AnyError>,
    resolved: Seq<u8>,
    resolution: Result<(), AnyError>,
)
    requires
        creation_checked(rel, health, max_depth, checked),
        resolution_checked(resolved, rel, resolution),
    ensures
        checked is Ok <==> health.healthy && parts(rel).len() <= max_depth + 1,
        resolution is Ok <==> parts(resolved) == parts(rel),
{
}

/// The names of candidates tell what they are for.
pub proof fn law_private_names_tell_their_kind(id: Seq<char>)
    ensures
        private_name(TempCandidateKind::Upload, id) == ".ram-upload-"@ + id + ".tmp"@,
        private_name(TempCandidateKind::Staging, id) == ".ram-staging-"@ + id + ".tmp"@,
{
}

/// The space that is told is the number of blocks times their size, as far as it can be told.
pub proof fn law_space_is_what_the_blocks_hold(
    blocks: u64,
    block_size: u64,
    files: u64,
    free_files: u64,
    space: (u64, u64, u64),
)
    requires
        space_told(blocks, block_size, files, free_files, space),
    ensures
        blocks * block_size <= u64::MAX ==> space.0 == blocks * block_size,
        blocks * block_size > u64::MAX ==> space.0 == u64::MAX,
        space.1 == files,
        space.2 == free_files,
{
}

} // verus!
