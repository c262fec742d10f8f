//! Creation of directories, and of the directories on the way to an upload.
//!
//! A directory is visible as soon as it is made. What follows pins it, gives it its mode, checks
//! that it is still the same object and makes it durable; a failure on the way takes it back as
//! far as it is still the directory that was made.
use crate::error::{AnyError, DurabilityStage, Errno, MutationEndpointRole};
use crate::fault::{in_context, said, undurable, Fault, FsNature};
use crate::filesystem::cleanup::{CreatedAncestor, Handle};
use crate::filesystem::entry::{
    changed_entry, changed_entry_fault, create_only_error, create_only_fault, entry_fault,
    expectation_text, same_parts, same_path, verify_entry_with_role, EntryExpectation, Metadata,
};
use crate::filesystem::failure::{
    directory_sync_error, durability_error, ended, fault_of, is_missing, missing_object,
    post_publish_directory_io_error, post_publish_directory_lookup_error,
    post_publish_lookup_fault, typed_fault, typed_filesystem_error, DirectorySyncPoint, OsFailure,
};
use crate::filesystem::locks::{names_of, names_view, prefix_of};
use crate::filesystem::resolve::{rel_fault, validate_rel};
use crate::path::{parts, SLASH};
use crate::text::{copy_bytes, octal_digits, octal_text, push_bytes, TextBuilder};
use vstd::prelude::*;

verus! {

// ---------------------------------------------------------------------------------------------
// Finishing a directory that was made
// ---------------------------------------------------------------------------------------------

/// What opening a directory that was just made gave. `cause` is what the system says of the
/// failure.
#[allow(inconsistent_fields)]
#[derive(Debug)]
pub enum PinReply {
    Failed { failure: OsFailure, cause: String },
    Unread { error: AnyError },
    Known { metadata: Metadata },
}

#[derive(Clone, Copy, Debug, PartialEq, Eq, Structural)]
pub enum FinalizationPhase {
    Pinning,
    SettingMode,
    Verifying,
    Reopening { finalized: EntryExpectation },
    Done { finalized: EntryExpectation },
    Failed,
}

/// The finishing of a directory that was made.
#[derive(Debug)]
pub struct DirectoryFinalization {
    pub rel: Vec<u8>,
    pub expected: EntryExpectation,
    pub mode: u32,
    pub phase: FinalizationPhase,
}

/// Why a pinned directory is not the one that was made.
pub open spec fn pin_fault(rel: Seq<u8>, expected: EntryExpectation, reply: PinReply) -> Option<
    Fault,
> {
    match reply {
        PinReply::Failed { failure, cause } => Some(
            post_publish_lookup_fault(
                rel,
                expectation_text(expected),
                "pinning newly-created directory"@,
                failure,
                cause@,
            ),
        ),
        PinReply::Unread { error } => Some(
            undurable(
                DurabilityStage::CreatedDirectory,
                true,
                in_context(error@, "reading pinned new-directory metadata"@),
            ),
        ),
        PinReply::Known { metadata } => {
            let held = EntryExpectation::Present { version: metadata.version() };
            if held != expected {
                Some(changed_entry_fault(MutationEndpointRole::Target, rel, expected, held))
            } else {
                None
            }
        },
    }
}

/// Why the mode of a directory is not what it was set to.
pub open spec fn mode_fault(mode: u32, metadata: Result<Metadata, AnyError>) -> Option<Fault> {
    match metadata {
        Err(error) => Some(
            undurable(
                DurabilityStage::CreatedDirectory,
                true,
                in_context(error@, "verifying new-directory metadata"@),
            ),
        ),
        Ok(found) => if found.mode & 0o7777 != mode & 0o777 {
            Some(
                undurable(
                    DurabilityStage::CreatedDirectory,
                    true,
                    said(
                        "new directory mode verification failed: expected "@ + octal_digits(
                            (mode & 0o777) as nat,
                        ) + ", found "@ + octal_digits((found.mode & 0o7777) as nat),
                    ),
                ),
            )
        } else {
            None
        },
    }
}

/// Why a reopened directory is not the finished one.
pub open spec fn reopen_fault(rel: Seq<u8>, finalized: EntryExpectation, reply: PinReply) -> Option<
    Fault,
> {
    match reply {
        PinReply::Failed { failure, cause } => Some(
            post_publish_lookup_fault(
                rel,
                expectation_text(finalized),
                "reopening newly-created directory"@,
                failure,
                cause@,
            ),
        ),
        PinReply::Unread { error } => Some(
            undurable(
                DurabilityStage::CreatedDirectory,
                true,
                in_context(error@, "reading reopened new-directory metadata"@),
            ),
        ),
        PinReply::Known { metadata } => {
            let held = EntryExpectation::Present { version: metadata.version() };
            if !finalized.same_entry(held) {
                Some(changed_entry_fault(MutationEndpointRole::Target, rel, finalized, held))
            } else {
                None
            }
        },
    }
}

impl DirectoryFinalization {
    pub open spec fn same_directory(self, other: DirectoryFinalization) -> bool {
        self.rel == other.rel && self.expected == other.expected && self.mode == other.mode
    }

    pub fn finalize_created_directory(rel: Vec<u8>, expected: EntryExpectation, mode: u32) -> (begun:
        DirectoryFinalization)
        ensures
            begun == (DirectoryFinalization {
                rel,
                expected,
                mode,
                phase: FinalizationPhase::Pinning,
            }),
    {
        DirectoryFinalization { rel, expected, mode, phase: FinalizationPhase::Pinning }
    }

    /// The step after pinning.
    pub open spec fn has_pinned(
        before: DirectoryFinalization,
        after: DirectoryFinalization,
        reply: PinReply,
        mode: Result<u32, AnyError>,
    ) -> bool {
        &&& after.same_directory(before)
        &&& match pin_fault(before.rel@, before.expected, reply) {
            Some(fault) => mode matches Err(error) && error@ == fault && after.phase
                == FinalizationPhase::Failed,
            None => mode matches Ok(bits) && bits == before.mode & 0o777
                && after.phase == FinalizationPhase::SettingMode,
        }
    }

    /// Takes the pinned directory and tells the mode that it is to have.
    pub fn pinned(&mut self, reply: PinReply) -> (mode: Result<u32, AnyError>)
        requires
            old(self).phase is Pinning,
        ensures
            DirectoryFinalization::has_pinned(*old(self), *final(self), reply, mode),
    {
        match reply {
            PinReply::Failed { failure, cause } => {
                self.phase = FinalizationPhase::Failed;
                let expected = self.expected.describe();
                Err(
                    post_publish_directory_lookup_error(
                        self.rel.as_slice(),
                        expected.as_str(),
                        "pinning newly-created directory",
                        failure,
                        cause.as_str(),
                    ),
                )
            },
            PinReply::Unread { error } => {
                self.phase = FinalizationPhase::Failed;
                Err(post_publish_directory_io_error("reading pinned new-directory metadata", error))
            },
            PinReply::Known { metadata } => {
                let held = EntryExpectation::from_metadata(&metadata);
                if held != self.expected {
                    self.phase = FinalizationPhase::Failed;
                    return Err(
                        changed_entry(
                            MutationEndpointRole::Target,
                            self.rel.as_slice(),
                            self.expected,
                            held,
                        ),
                    );
                }
                self.phase = FinalizationPhase::SettingMode;
                Ok(self.mode & 0o777)
            },
        }
    }

    /// The step after setting the mode.
    pub open spec fn has_set_mode(
        before: DirectoryFinalization,
        after: DirectoryFinalization,
        outcome: Result<(), OsFailure>,
        next: Result<(), AnyError>,
    ) -> bool {
        &&& after.same_directory(before)
        &&& match outcome {
            Err(failure) => next matches Err(error) && error@ == undurable(
                DurabilityStage::CreatedDirectory,
                true,
                failure.fault(),
            ) && after.phase == FinalizationPhase::Failed,
            Ok(()) => next is Ok && after.phase == FinalizationPhase::Verifying,
        }
    }

    pub fn mode_set(&mut self, outcome: Result<(), OsFailure>) -> (next: Result<(), AnyError>)
        requires
            old(self).phase is SettingMode,
        ensures
            DirectoryFinalization::has_set_mode(*old(self), *final(self), outcome, next),
    {
        match outcome {
            Err(failure) => {
                self.phase = FinalizationPhase::Failed;
                Err(durability_error(DurabilityStage::CreatedDirectory, true, failure.into_error()))
            },
            Ok(()) => {
                self.phase = FinalizationPhase::Verifying;
                Ok(())
            },
        }
    }

    /// The step after looking at the mode.
    pub open spec fn has_verified_mode(
        before: DirectoryFinalization,
        after: DirectoryFinalization,
        metadata: Result<Metadata, AnyError>,
        next: Result<(), AnyError>,
    ) -> bool {
        &&& after.same_directory(before)
        &&& ended(next, mode_fault(before.mode, metadata))
        &&& match (next, metadata) {
            (Ok(()), Ok(found)) => after.phase == (FinalizationPhase::Reopening {
                finalized: (EntryExpectation::Present { version: found.version() }),
            }),
            _ => after.phase == FinalizationPhase::Failed,
        }
    }

    /// Takes a look at the directory after its mode was set.
    pub fn mode_verified(&mut self, metadata: Result<Metadata, AnyError>) -> (next: Result<
        (),
        AnyError,
    >)
        requires
            old(self).phase is Verifying,
        ensures
            DirectoryFinalization::has_verified_mode(*old(self), *final(self), metadata, next),
    {
        match metadata {
            Err(error) => {
                self.phase = FinalizationPhase::Failed;
                Err(post_publish_directory_io_error("verifying new-directory metadata", error))
            },
            Ok(found) => {
                let wanted: u32 = self.mode & 0o777;
                let actual: u32 = found.mode & 0o7777;
                if actual != wanted {
                    self.phase = FinalizationPhase::Failed;
                    let wanted_text = octal_text(wanted);
                    let actual_text = octal_text(actual);
                    let mut builder = TextBuilder::new();
                    builder.push("new directory mode verification failed: expected ");
                    builder.push(wanted_text.as_str());
                    builder.push(", found ");
                    builder.push(actual_text.as_str());
                    assert(builder.view()
                        =~= "new directory mode verification failed: expected "@ + wanted_text@
                        + ", found "@ + actual_text@);
                    let text = builder.finish();
                    return Err(
                        durability_error(
                            DurabilityStage::CreatedDirectory,
                            true,
                            AnyError::message(text.as_str()),
                        ),
                    );
                }
                self.phase = FinalizationPhase::Reopening {
                    finalized: EntryExpectation::from_metadata(&found),
                };
                Ok(())
            },
        }
    }

    /// The step after reopening.
    pub open spec fn has_reopened(
        before: DirectoryFinalization,
        after: DirectoryFinalization,
        reply: PinReply,
        finished: Result<EntryExpectation, AnyError>,
    ) -> bool {
        &&& after.same_directory(before)
        &&& before.phase matches FinalizationPhase::Reopening { finalized } && match reopen_fault(
            before.rel@,
            finalized,
            reply,
        ) {
            Some(fault) => finished matches Err(error) && error@ == fault && after.phase
                == FinalizationPhase::Failed,
            None => finished matches Ok(held) && held == finalized && after.phase == (
            FinalizationPhase::Done { finalized }),
        }
    }

    /// Takes the reopened directory.
    pub fn reopened(&mut self, reply: PinReply) -> (finished: Result<EntryExpectation, AnyError>)
        requires
            old(self).phase is Reopening,
        ensures
            DirectoryFinalization::has_reopened(*old(self), *final(self), reply, finished),
    {
        let finalized = match self.phase {
            FinalizationPhase::Reopening { finalized } => finalized,
            _ => EntryExpectation::Missing,
        };
        match reply {
            PinReply::Failed { failure, cause } => {
                self.phase = FinalizationPhase::Failed;
                let expected = finalized.describe();
                Err(
                    post_publish_directory_lookup_error(
                        self.rel.as_slice(),
                        expected.as_str(),
                        "reopening newly-created directory",
                        failure,
                        cause.as_str(),
                    ),
                )
            },
            PinReply::Unread { error } => {
                self.phase = FinalizationPhase::Failed;
                Err(
                    post_publish_directory_io_error(
                        "reading reopened new-directory metadata",
                        error,
                    ),
                )
            },
            PinReply::Known { metadata } => {
                let held = EntryExpectation::from_metadata(&metadata);
                if !finalized.same_object(held) {
                    self.phase = FinalizationPhase::Failed;
                    return Err(
                        changed_entry(
                            MutationEndpointRole::Target,
                            self.rel.as_slice(),
                            finalized,
                            held,
                        ),
                    );
                }
                self.phase = FinalizationPhase::Done { finalized };
                Ok(finalized)
            },
        }
    }
}

/// Whatever fails while a made directory is finished is a conflict with another change or an
/// internal failure: the directory was visible, so the request was never simply refused.
pub proof fn law_finishing_failures_are_never_denials(
    rel: Seq<u8>,
    expected: EntryExpectation,
    mode: u32,
    reply: PinReply,
    metadata: Result<Metadata, AnyError>,
)
    ensures
        pin_fault(rel, expected, reply) matches Some(fault) ==> fault.nature() == Some(
            FsNature::Changed,
        ) || fault.nature() == Some(FsNature::Durability { published: true }),
        mode_fault(mode, metadata) matches Some(fault) ==> fault.nature() == Some(
            FsNature::Durability { published: true },
        ),
        reopen_fault(rel, expected, reply) matches Some(fault) ==> fault.nature() == Some(
            FsNature::Changed,
        ) || fault.nature() == Some(FsNature::Durability { published: true }),
{
}

// ---------------------------------------------------------------------------------------------
// Making one directory
// ---------------------------------------------------------------------------------------------

#[derive(Clone, Copy, Debug, PartialEq, Eq, Structural)]
pub enum MkdirPhase {
    Making,
    Versioning,
    Finalizing,
    SyncingCreated,
    SyncingParent,
    Done,
    Failed,
}

/// The making of a directory. What was made is remembered for as long as it may have to be taken
/// back.
#[derive(Debug)]
pub struct Mkdir {
    pub target: Vec<u8>,
    pub name: Vec<u8>,
    pub parent: Handle,
    pub mode: u32,
    pub rollback: Vec<CreatedAncestor>,
    pub phase: MkdirPhase,
}

/// What is known of a target before anything is made.
#[derive(Debug)]
pub struct MkdirFacts {
    /// The path that the target resolved to, and its name there.
    pub resolved: Vec<u8>,
    pub name: Vec<u8>,
    /// Whether the parent is still where it was.
    pub parent: Result<(), AnyError>,
    pub stat: Result<Metadata, OsFailure>,
    /// A second descriptor of the parent, for taking back.
    pub rollback_parent: Result<Handle, AnyError>,
}

/// Why nothing is made.
pub open spec fn mkdir_fault(rel: Seq<u8>, facts: MkdirFacts) -> Option<Fault> {
    if !same_parts(facts.resolved@, rel) {
        Some(said("mutation target resolved to a different capability path"@))
    } else if facts.parent is Err {
        fault_of(facts.parent)
    } else if entry_fault(
        facts.resolved@,
        EntryExpectation::Missing,
        facts.stat,
        MutationEndpointRole::Target,
    ) is Some {
        entry_fault(
            facts.resolved@,
            EntryExpectation::Missing,
            facts.stat,
            MutationEndpointRole::Target,
        )
    } else {
        fault_of(facts.rollback_parent)
    }
}

/// A failed making: the error, and what has to be taken back.
#[derive(Debug)]
pub struct FailedMkdir {
    pub error: AnyError,
    pub rollback: Vec<CreatedAncestor>,
}

impl Mkdir {
    /// What was made is remembered from the moment that its identity is known until the making is
    /// done.
    pub open spec fn wf(self) -> bool {
        match self.phase {
            MkdirPhase::Making | MkdirPhase::Versioning | MkdirPhase::Done | MkdirPhase::Failed => {
                self.rollback@.len() == 0
            },
            MkdirPhase::Finalizing | MkdirPhase::SyncingCreated | MkdirPhase::SyncingParent => {
                &&& self.rollback@.len() == 1
                &&& self.rollback@[0].parent == self.parent
                &&& self.rollback@[0].name@ == self.name@
                &&& !self.rollback@[0].parent_sync_pending
            },
        }
    }

    pub open spec fn same_target(self, other: Mkdir) -> bool {
        self.target == other.target && self.name == other.name && self.parent == other.parent
            && self.mode == other.mode
    }

    /// The start of making a directory, or why nothing is made.
    pub open spec fn begins(
        rel: Seq<u8>,
        mode: u32,
        facts: MkdirFacts,
        begun: Result<(Mkdir, u32), AnyError>,
    ) -> bool {
        &&& match mkdir_fault(rel, facts) {
            Some(fault) => begun matches Err(error) && error@ == fault,
            None => begun matches Ok((mkdir, bits)) && {
                &&& mkdir.wf()
                &&& mkdir.target == facts.resolved
                &&& mkdir.name == facts.name
                &&& facts.rollback_parent == Ok::<Handle, AnyError>(mkdir.parent)
                &&& mkdir.mode == mode
                &&& mkdir.phase == MkdirPhase::Making
                &&& bits == mode & 0o777
            },
        }
    }

    /// Checks the target and tells the mode to make it with.
    pub fn mkdir_sync(rel: &[u8], mode: u32, facts: MkdirFacts) -> (begun: Result<
        (Mkdir, u32),
        AnyError,
    >)
        ensures
            Mkdir::begins(rel@, mode, facts, begun),
    {
        if !same_path(facts.resolved.as_slice(), rel) {
            return Err(
                AnyError::message("mutation target resolved to a different capability path"),
            );
        }
        match facts.parent {
            Ok(()) => {},
            Err(error) => {
                return Err(error);
            },
        }
        match verify_entry_with_role(
            facts.resolved.as_slice(),
            EntryExpectation::Missing,
            facts.stat,
            MutationEndpointRole::Target,
        ) {
            Ok(()) => {},
            Err(error) => {
                return Err(error);
            },
        }
        match facts.rollback_parent {
            Err(error) => Err(error),
            Ok(parent) => Ok(
                (
                    Mkdir {
                        target: facts.resolved,
                        name: facts.name,
                        parent,
                        mode,
                        rollback: Vec::new(),
                        phase: MkdirPhase::Making,
                    },
                    mode & 0o777,
                ),
            ),
        }
    }

    /// The step after making the directory.
    pub open spec fn has_made(
        before: Mkdir,
        after: Mkdir,
        outcome: Result<(), OsFailure>,
        next: Result<(), AnyError>,
    ) -> bool {
        &&& after.wf()
        &&& after.same_target(before)
        &&& match outcome {
            Err(failure) => next matches Err(error) && error@ == create_only_fault(
                before.target@,
                EntryExpectation::Missing,
                MutationEndpointRole::Target,
                failure,
            ) && after.phase == MkdirPhase::Failed,
            Ok(()) => next is Ok && after.phase == MkdirPhase::Versioning,
        }
    }

    /// Takes the outcome of making the directory.
    pub fn made(&mut self, outcome: Result<(), OsFailure>) -> (next: Result<(), AnyError>)
        requires
            old(self).wf(),
            old(self).phase is Making,
        ensures
            Mkdir::has_made(*old(self), *final(self), outcome, next),
    {
        match outcome {
            Err(failure) => {
                self.phase = MkdirPhase::Failed;
                Err(
                    create_only_error(
                        self.target.as_slice(),
                        EntryExpectation::Missing,
                        MutationEndpointRole::Target,
                        failure,
                    ),
                )
            },
            Ok(()) => {
                self.phase = MkdirPhase::Versioning;
                Ok(())
            },
        }
    }

    /// The step after looking at the new directory.
    pub open spec fn has_versioned(
        before: Mkdir,
        after: Mkdir,
        stat: Result<Metadata, OsFailure>,
        cause: Seq<char>,
        next: Result<DirectoryFinalization, AnyError>,
    ) -> bool {
        &&& after.wf()
        &&& after.same_target(before)
        &&& match (stat, next) {
            (Err(failure), Err(error)) => error@ == post_publish_lookup_fault(
                before.target@,
                "newly-created directory"@,
                "versioning newly-created directory"@,
                failure,
                cause,
            ) && after.phase == MkdirPhase::Failed,
            (Ok(metadata), Ok(finishing)) => {
                let made = EntryExpectation::Present { version: metadata.version() };
                &&& after.phase == MkdirPhase::Finalizing
                &&& after.rollback@[0].expectation == made
                &&& finishing.rel@ == before.target@
                &&& finishing.expected == made
                &&& finishing.mode == before.mode
                &&& finishing.phase == FinalizationPhase::Pinning
            },
            _ => false,
        }
    }

    /// Takes the identity of the new directory. Without it nothing could be taken back safely.
    pub fn versioned(&mut self, stat: Result<Metadata, OsFailure>, cause: &str) -> (next: Result<
        DirectoryFinalization,
        AnyError,
    >)
        requires
            old(self).wf(),
            old(self).phase is Versioning,
        ensures
            Mkdir::has_versioned(*old(self), *final(self), stat, cause@, next),
    {
        match stat {
            Err(failure) => {
                self.phase = MkdirPhase::Failed;
                Err(
                    post_publish_directory_lookup_error(
                        self.target.as_slice(),
                        "newly-created directory",
                        "versioning newly-created directory",
                        failure,
                        cause,
                    ),
                )
            },
            Ok(metadata) => {
                let expectation = EntryExpectation::from_metadata(&metadata);
                self.rollback.push(
                    CreatedAncestor {
                        parent: self.parent,
                        name: copy_bytes(self.name.as_slice()),
                        expectation,
                        parent_sync_pending: false,
                    },
                );
                self.phase = MkdirPhase::Finalizing;
                Ok(
                    DirectoryFinalization::finalize_created_directory(
                        copy_bytes(self.target.as_slice()),
                        expectation,
                        self.mode,
                    ),
                )
            },
        }
    }

    fn give_up(&mut self, error: AnyError) -> (failed: FailedMkdir)
        ensures
            final(self).wf(),
            final(self).same_target(*old(self)),
            final(self).phase == MkdirPhase::Failed,
            failed.error == error,
            failed.rollback == old(self).rollback,
    {
        self.phase = MkdirPhase::Failed;
        let mut rollback: Vec<CreatedAncestor> = Vec::new();
        std::mem::swap(&mut rollback, &mut self.rollback);
        FailedMkdir { error, rollback }
    }

    /// The step after finishing the directory.
    pub open spec fn has_finalized(
        before: Mkdir,
        after: Mkdir,
        outcome: Result<EntryExpectation, AnyError>,
        next: Result<DirectorySyncPoint, FailedMkdir>,
    ) -> bool {
        &&& after.wf()
        &&& after.same_target(before)
        &&& match (outcome, next) {
            (Err(source), Err(failed)) => {
                &&& failed.error == source
                &&& failed.rollback == before.rollback
                &&& after.phase == MkdirPhase::Failed
            },
            (Ok(expectation), Ok(point)) => {
                &&& point == DirectorySyncPoint::CreatedDirectory
                &&& after.phase == MkdirPhase::SyncingCreated
                &&& after.rollback@[0].expectation == expectation
            },
            _ => false,
        }
    }

    /// Takes the finished directory, whose version has changed with its mode.
    pub fn finalized(&mut self, outcome: Result<EntryExpectation, AnyError>) -> (next: Result<
        DirectorySyncPoint,
        FailedMkdir,
    >)
        requires
            old(self).wf(),
            old(self).phase is Finalizing,
        ensures
            Mkdir::has_finalized(*old(self), *final(self), outcome, next),
    {
        match outcome {
            Err(error) => Err(self.give_up(error)),
            Ok(expectation) => {
                let mut rollback: Vec<CreatedAncestor> = Vec::new();
                rollback.push(
                    CreatedAncestor {
                        parent: self.parent,
                        name: copy_bytes(self.name.as_slice()),
                        expectation,
                        parent_sync_pending: false,
                    },
                );
                self.rollback = rollback;
                self.phase = MkdirPhase::SyncingCreated;
                Ok(DirectorySyncPoint::CreatedDirectory)
            },
        }
    }

    /// The step after making a directory durable.
    pub open spec fn has_synced(
        before: Mkdir,
        after: Mkdir,
        outcome: Result<(), OsFailure>,
        next: Result<Option<DirectorySyncPoint>, FailedMkdir>,
    ) -> bool {
        &&& after.wf()
        &&& after.same_target(before)
        &&& match (outcome, next) {
            (Err(failure), Err(failed)) => {
                &&& failed.error@ == undurable(
                    DurabilityStage::CreatedDirectory,
                    true,
                    failure.fault(),
                )
                &&& failed.rollback == before.rollback
                &&& after.phase == MkdirPhase::Failed
            },
            (Ok(()), Ok(Some(point))) => {
                &&& before.phase == MkdirPhase::SyncingCreated
                &&& point == DirectorySyncPoint::CreatedDirectoryParent
                &&& after.phase == MkdirPhase::SyncingParent
                &&& after.rollback == before.rollback
            },
            (Ok(()), Ok(None)) => {
                &&& before.phase == MkdirPhase::SyncingParent
                &&& after.phase == MkdirPhase::Done
            },
            _ => false,
        }
    }

    /// Takes the outcome of making the directory, and then its parent, durable. `Ok(None)` is the
    /// end.
    pub fn synced(&mut self, outcome: Result<(), OsFailure>) -> (next: Result<
        Option<DirectorySyncPoint>,
        FailedMkdir,
    >)
        requires
            old(self).wf(),
            old(self).phase is SyncingCreated || old(self).phase is SyncingParent,
        ensures
            Mkdir::has_synced(*old(self), *final(self), outcome, next),
    {
        match outcome {
            Err(failure) => {
                let point = match self.phase {
                    MkdirPhase::SyncingCreated => DirectorySyncPoint::CreatedDirectory,
                    _ => DirectorySyncPoint::CreatedDirectoryParent,
                };
                let error = directory_sync_error(point, failure);
                Err(self.give_up(error))
            },
            Ok(()) => match self.phase {
                MkdirPhase::SyncingCreated => {
                    self.phase = MkdirPhase::SyncingParent;
                    Ok(Some(DirectorySyncPoint::CreatedDirectoryParent))
                },
                _ => {
                    self.rollback = Vec::new();
                    self.phase = MkdirPhase::Done;
                    Ok(None)
                },
            },
        }
    }
}

// ---------------------------------------------------------------------------------------------
// Making the directories on the way to an upload
// ---------------------------------------------------------------------------------------------

#[derive(Clone, Copy, Debug, PartialEq, Eq, Structural)]
pub enum EnsurePhase {
    /// The directory of the current name, opened and traced.
    Opening,
    /// Making it.
    Making,
    /// Its identity.
    Versioning { parent: Handle },
    Finalizing,
    SyncingCreated,
    SyncingCurrent,
    /// Opening the directory that someone else made first.
    Reopening,
    /// Where the directory lies.
    Tracing,
    Done,
    Failed,
}

/// The making of all directories of a path that are not there.
#[derive(Debug)]
pub struct EnsureDirectories {
    pub names: Vec<Vec<u8>>,
    pub mode: u32,
    pub index: usize,
    pub prefix: Vec<u8>,
    pub created: Vec<CreatedAncestor>,
    pub phase: EnsurePhase,
}

/// What the caller does next.
#[derive(Debug)]
pub enum EnsureStep {
    /// Open this directory and trace its path.
    Open { path: Vec<u8> },
    /// Take a second descriptor of the current directory and make the name in it.
    Make { mode: u32 },
    /// Look at the name that was made.
    Version,
    /// Finish the directory that was made.
    Finalize { finishing: DirectoryFinalization },
    /// Make the directory that was made durable.
    SyncCreated,
    /// Make the directory that it was made in durable.
    SyncCurrent,
    /// Open the directory that someone else made.
    Reopen { path: Vec<u8> },
    /// Trace the path of the directory.
    Trace,
    Done,
}

/// What opening a directory on the way gave.
#[allow(inconsistent_fields)]
#[derive(Debug)]
pub enum AncestorReply {
    Unopened { error: AnyError },
    Untraced { error: AnyError },
    At { path: Vec<u8> },
}

/// A failure on the way: the error, and what has to be taken back.
#[derive(Debug)]
pub struct FailedEnsure {
    pub error: AnyError,
    pub created: Vec<CreatedAncestor>,
}

/// The answer of a directory that is done with: the next one, or the end.
pub open spec fn moved_on(before: EnsureDirectories, after: EnsureDirectories, step: EnsureStep) -> bool {
    let names = names_view(before.names@);
    &&& after.created == before.created
    &&& if before.index + 1 == names.len() {
        step is Done && after.phase == EnsurePhase::Done
    } else {
        &&& step matches EnsureStep::Open { path } && path@ == prefix_of(names, before.index + 1)
        &&& after.phase == EnsurePhase::Opening
        &&& after.index == before.index + 1
    }
}

/// An answer that gives up, with everything that was made.
pub open spec fn gave_up(
    before: EnsureDirectories,
    after: EnsureDirectories,
    next: Result<EnsureStep, FailedEnsure>,
    fault: Fault,
) -> bool {
    &&& next matches Err(failed) && failed.error@ == fault && failed.created == before.created
    &&& after.phase == EnsurePhase::Failed
}

impl EnsureDirectories {
    pub open spec fn wf(self) -> bool {
        &&& self.index < self.names@.len()
        &&& self.prefix@ == prefix_of(names_view(self.names@), self.index as int)
        &&& match self.phase {
            EnsurePhase::Finalizing | EnsurePhase::SyncingCreated | EnsurePhase::SyncingCurrent => {
                self.created@.len() > 0
            },
            _ => true,
        }
    }

    pub open spec fn same_path(self, other: EnsureDirectories) -> bool {
        self.names == other.names && self.mode == other.mode
    }

    /// The start of making the directories of a path.
    pub open spec fn begins(
        rel: Seq<u8>,
        mode: u32,
        begun: Result<Option<(EnsureDirectories, EnsureStep)>, AnyError>,
    ) -> bool {
        &&& ({
            let names = names_of(parts(rel));
            match begun {
                Err(error) => rel_fault(rel) == Some(error@),
                Ok(None) => rel_fault(rel) is None && names.len() == 0,
                Ok(Some((ensuring, step))) => {
                    &&& rel_fault(rel) is None
                    &&& names.len() > 0
                    &&& ensuring.wf()
                    &&& names_view(ensuring.names@) == names
                    &&& ensuring.mode == mode
                    &&& ensuring.index == 0
                    &&& ensuring.created@.len() == 0
                    &&& ensuring.phase == EnsurePhase::Opening
                    &&& step matches EnsureStep::Open { path } && path@ == prefix_of(names, 0)
                },
            }
        })
    }

    /// Starts at the root. `Ok(None)` is a path that needs nothing.
    pub fn ensure_dir_sync(rel: &[u8], mode: u32) -> (begun: Result<
        Option<(EnsureDirectories, EnsureStep)>,
        AnyError,
    >)
        ensures
            EnsureDirectories::begins(rel@, mode, begun),
    {
        match validate_rel(rel) {
            Ok(()) => {},
            Err(error) => {
                return Err(error);
            },
        }
        let names = crate::filesystem::locks::path_names(rel);
        if names.len() == 0 {
            return Ok(None);
        }
        let ghost all = names_view(names@);
        proof {
            assert(all.take(1) =~= seq![all[0]]);
            assert(all[0] == names@[0]@);
        }
        let prefix = copy_bytes(names[0].as_slice());
        let path = copy_bytes(names[0].as_slice());
        Ok(
            Some(
                (
                    EnsureDirectories {
                        names,
                        mode,
                        index: 0,
                        prefix,
                        created: Vec::new(),
                        phase: EnsurePhase::Opening,
                    },
                    EnsureStep::Open { path },
                ),
            ),
        )
    }

    fn give_up(&mut self, error: AnyError) -> (failed: FailedEnsure)
        requires
            old(self).wf(),
        ensures
            final(self).wf(),
            final(self).same_path(*old(self)),
            final(self).phase == EnsurePhase::Failed,
            failed.error == error,
            failed.created == old(self).created,
    {
        self.phase = EnsurePhase::Failed;
        let mut created: Vec<CreatedAncestor> = Vec::new();
        std::mem::swap(&mut created, &mut self.created);
        FailedEnsure { error, created }
    }

    fn advance(&mut self) -> (step: EnsureStep)
        requires
            old(self).wf(),
        ensures
            final(self).wf(),
            final(self).same_path(*old(self)),
            moved_on(*old(self), *final(self), step),
    {
        let ghost all = names_view(self.names@);
        let n: usize = self.names.len();
        if self.index + 1 == n {
            self.phase = EnsurePhase::Done;
            return EnsureStep::Done;
        }
        let next: usize = self.index + 1;
        self.prefix.push(SLASH);
        push_bytes(&mut self.prefix, self.names[next].as_slice());
        proof {
            assert(all[next as int] == self.names@[next as int]@);
            crate::filesystem::locks::lemma_next_prefix(all, next as int);
        }
        self.index = next;
        self.phase = EnsurePhase::Opening;
        EnsureStep::Open { path: copy_bytes(self.prefix.as_slice()) }
    }

    /// The step after opening the directory of the current name.
    pub open spec fn has_opened(
        before: EnsureDirectories,
        after: EnsureDirectories,
        reply: AncestorReply,
        next: Result<EnsureStep, FailedEnsure>,
    ) -> bool {
        &&& after.wf()
        &&& after.same_path(before)
        &&& match reply {
            AncestorReply::At { path } => if same_parts(path@, before.prefix@) {
                next matches Ok(step) && moved_on(before, after, step)
            } else {
                gave_up(
                    before,
                    after,
                    next,
                    said("directory ancestor resolved to a different capability path"@),
                )
            },
            AncestorReply::Untraced { error } => gave_up(
                before,
                after,
                next,
                error@,
            ),
            AncestorReply::Unopened { error } => if is_missing(error@) {
                &&& next matches Ok(EnsureStep::Make { mode }) && mode == before.mode & 0o777
                &&& after.phase is Making
                &&& after.index == before.index
                &&& after.created == before.created
            } else {
                gave_up(
                    before,
                    after,
                    next,
                    typed_fault("opening upload directory ancestor"@, error@),
                )
            },
        }
    }

    /// Takes what opening the directory of the current name gave. One that is not there is made.
    pub fn opened(&mut self, reply: AncestorReply) -> (next: Result<EnsureStep, FailedEnsure>)
        requires
            old(self).wf(),
            old(self).phase is Opening,
        ensures
            EnsureDirectories::has_opened(*old(self), *final(self), reply, next),
    {
        match reply {
            AncestorReply::At { path } => {
                if !same_path(path.as_slice(), self.prefix.as_slice()) {
                    return Err(
                        self.give_up(
                            AnyError::message(
                                "directory ancestor resolved to a different capability path",
                            ),
                        ),
                    );
                }
                Ok(self.advance())
            },
            AncestorReply::Untraced { error } => Err(self.give_up(error)),
            AncestorReply::Unopened { error } => {
                if missing_object(&error) {
                    self.phase = EnsurePhase::Making;
                    return Ok(EnsureStep::Make { mode: self.mode & 0o777 });
                }
                Err(
                    self.give_up(typed_filesystem_error("opening upload directory ancestor", error)),
                )
            },
        }
    }

    /// The step after making the current name.
    pub open spec fn has_made(
        before: EnsureDirectories,
        after: EnsureDirectories,
        parent: Result<Handle, AnyError>,
        outcome: Result<(), OsFailure>,
        next: Result<EnsureStep, FailedEnsure>,
    ) -> bool {
        &&& after.wf()
        &&& after.same_path(before)
        &&& match parent {
            Err(error) => gave_up(before, after, next, error@),
            Ok(held) => match outcome {
                Ok(()) => {
                    &&& next matches Ok(EnsureStep::Version)
                    &&& after.phase == (EnsurePhase::Versioning { parent: held })
                    &&& after.index == before.index
                    &&& after.created == before.created
                },
                Err(failure) => if failure.errno == Errno::Exist {
                    &&& next matches Ok(EnsureStep::Reopen { path }) && path@
                        == before.prefix@
                    &&& after.phase == EnsurePhase::Reopening
                    &&& after.index == before.index
                    &&& after.created == before.created
                } else {
                    gave_up(before, after, next, failure.fault())
                },
            },
        }
    }

    /// Takes the second descriptor of the current directory and the outcome of making the name in
    /// it. A name that someone else made first is used as it is.
    pub fn made(&mut self, parent: Result<Handle, AnyError>, outcome: Result<(), OsFailure>) -> (next:
        Result<EnsureStep, FailedEnsure>)
        requires
            old(self).wf(),
            old(self).phase is Making,
        ensures
            EnsureDirectories::has_made(*old(self), *final(self), parent, outcome, next),
    {
        let held = match parent {
            Ok(held) => held,
            Err(error) => {
                return Err(self.give_up(error));
            },
        };
        match outcome {
            Ok(()) => {
                self.phase = EnsurePhase::Versioning { parent: held };
                Ok(EnsureStep::Version)
            },
            Err(failure) => {
                if failure.errno == Errno::Exist {
                    self.phase = EnsurePhase::Reopening;
                    return Ok(EnsureStep::Reopen { path: copy_bytes(self.prefix.as_slice()) });
                }
                Err(self.give_up(failure.into_error()))
            },
        }
    }

    /// The step after looking at the new directory.
    pub open spec fn has_versioned(
        before: EnsureDirectories,
        after: EnsureDirectories,
        stat: Result<Metadata, OsFailure>,
        cause: Seq<char>,
        next: Result<EnsureStep, FailedEnsure>,
    ) -> bool {
        &&& after.wf()
        &&& after.same_path(before)
        &&& match stat {
            Err(failure) => gave_up(
                before,
                after,
                next,
                post_publish_lookup_fault(
                    before.prefix@,
                    "newly auto-created upload directory"@,
                    "versioning auto-created upload directory"@,
                    failure,
                    cause,
                ),
            ),
            Ok(metadata) => {
                let made = EntryExpectation::Present { version: metadata.version() };
                &&& next matches Ok(EnsureStep::Finalize { finishing }) && {
                    &&& finishing.rel@ == before.prefix@
                    &&& finishing.expected == made
                    &&& finishing.mode == before.mode
                    &&& finishing.phase == FinalizationPhase::Pinning
                }
                &&& after.phase == EnsurePhase::Finalizing
                &&& after.index == before.index
                &&& after.created@.drop_last() == before.created@
                &&& after.created@.last().expectation == made
                &&& after.created@.last().name@ == names_view(before.names@)[before.index as int]
                &&& before.phase matches EnsurePhase::Versioning { parent }
                    && after.created@.last().parent == parent
                &&& !after.created@.last().parent_sync_pending
            },
        }
    }

    /// Takes the identity of the directory that was made, which is remembered from here on.
    pub fn versioned(&mut self, stat: Result<Metadata, OsFailure>, cause: &str) -> (next: Result<
        EnsureStep,
        FailedEnsure,
    >)
        requires
            old(self).wf(),
            old(self).phase is Versioning,
        ensures
            EnsureDirectories::has_versioned(*old(self), *final(self), stat, cause@, next),
    {
        let parent = match self.phase {
            EnsurePhase::Versioning { parent } => parent,
            _ => {
                assert(false);
                Handle { id: 0 }
            },
        };
        match stat {
            Err(failure) => {
                let error = post_publish_directory_lookup_error(
                    self.prefix.as_slice(),
                    "newly auto-created upload directory",
                    "versioning auto-created upload directory",
                    failure,
                    cause,
                );
                Err(self.give_up(error))
            },
            Ok(metadata) => {
                let expectation = EntryExpectation::from_metadata(&metadata);
                let ghost before = self.created@;
                let name = copy_bytes(self.names[self.index].as_slice());
                self.created.push(
                    CreatedAncestor { parent, name, expectation, parent_sync_pending: false },
                );
                assert(self.created@.drop_last() =~= before);
                self.phase = EnsurePhase::Finalizing;
                Ok(
                    EnsureStep::Finalize {
                        finishing: DirectoryFinalization::finalize_created_directory(
                            copy_bytes(self.prefix.as_slice()),
                            expectation,
                            self.mode,
                        ),
                    },
                )
            },
        }
    }

    /// The step after finishing the directory.
    pub open spec fn has_finalized(
        before: EnsureDirectories,
        after: EnsureDirectories,
        outcome: Result<EntryExpectation, AnyError>,
        next: Result<EnsureStep, FailedEnsure>,
    ) -> bool {
        &&& after.wf()
        &&& after.same_path(before)
        &&& match outcome {
            Err(error) => gave_up(before, after, next, error@),
            Ok(expectation) => {
                &&& next matches Ok(EnsureStep::SyncCreated)
                &&& after.phase == EnsurePhase::SyncingCreated
                &&& after.index == before.index
                &&& after.created@.drop_last() == before.created@.drop_last()
                &&& after.created@.last() == (CreatedAncestor {
                    expectation,
                    ..before.created@.last()
                })
            },
        }
    }

    /// Takes the finished directory.
    pub fn finalized(&mut self, outcome: Result<EntryExpectation, AnyError>) -> (next: Result<
        EnsureStep,
        FailedEnsure,
    >)
        requires
            old(self).wf(),
            old(self).phase is Finalizing,
        ensures
            EnsureDirectories::has_finalized(*old(self), *final(self), outcome, next),
    {
        match outcome {
            Err(error) => Err(self.give_up(error)),
            Ok(expectation) => {
                let ghost before = self.created@;
                match self.created.pop() {
                    Some(last) => {
                        self.created.push(
                            CreatedAncestor {
                                parent: last.parent,
                                name: last.name,
                                expectation,
                                parent_sync_pending: last.parent_sync_pending,
                            },
                        );
                        assert(self.created@.drop_last() =~= before.drop_last());
                    },
                    None => {
                        assert(false);
                    },
                }
                self.phase = EnsurePhase::SyncingCreated;
                Ok(EnsureStep::SyncCreated)
            },
        }
    }

    /// The step after making a directory durable.
    pub open spec fn has_synced(
        before: EnsureDirectories,
        after: EnsureDirectories,
        outcome: Result<(), OsFailure>,
        next: Result<EnsureStep, FailedEnsure>,
    ) -> bool {
        &&& after.wf()
        &&& after.same_path(before)
        &&& match outcome {
            Err(failure) => gave_up(
                before,
                after,
                next,
                undurable(DurabilityStage::CreatedDirectory, true, failure.fault()),
            ),
            Ok(()) => {
                &&& after.index == before.index
                &&& after.created == before.created
                &&& if before.phase == EnsurePhase::SyncingCreated {
                    next matches Ok(EnsureStep::SyncCurrent) && after.phase
                        == EnsurePhase::SyncingCurrent
                } else {
                    next matches Ok(EnsureStep::Trace) && after.phase
                        == EnsurePhase::Tracing
                }
            },
        }
    }

    /// Takes the outcome of making the new directory, and then the one around it, durable.
    pub fn synced(&mut self, outcome: Result<(), OsFailure>) -> (next: Result<
        EnsureStep,
        FailedEnsure,
    >)
        requires
            old(self).wf(),
            old(self).phase is SyncingCreated || old(self).phase is SyncingCurrent,
        ensures
            EnsureDirectories::has_synced(*old(self), *final(self), outcome, next),
    {
        match outcome {
            Err(failure) => {
                let error = durability_error(
                    DurabilityStage::CreatedDirectory,
                    true,
                    failure.into_error(),
                );
                Err(self.give_up(error))
            },
            Ok(()) => match self.phase {
                EnsurePhase::SyncingCreated => {
                    self.phase = EnsurePhase::SyncingCurrent;
                    Ok(EnsureStep::SyncCurrent)
                },
                _ => {
                    self.phase = EnsurePhase::Tracing;
                    Ok(EnsureStep::Trace)
                },
            },
        }
    }

    /// The step after tracing the directory.
    pub open spec fn has_traced(
        before: EnsureDirectories,
        after: EnsureDirectories,
        reply: AncestorReply,
        next: Result<EnsureStep, FailedEnsure>,
    ) -> bool {
        &&& after.wf()
        &&& after.same_path(before)
        &&& match reply {
            AncestorReply::At { path } => if same_parts(path@, before.prefix@) {
                next matches Ok(step) && moved_on(before, after, step)
            } else {
                gave_up(
                    before,
                    after,
                    next,
                    said("created ancestor resolved to a different capability path"@),
                )
            },
            AncestorReply::Untraced { error } => gave_up(
                before,
                after,
                next,
                error@,
            ),
            AncestorReply::Unopened { error } => gave_up(
                before,
                after,
                next,
                error@,
            ),
        }
    }

    /// Takes what tracing the directory gave, or what opening and tracing the one that someone
    /// else made gave.
    pub fn traced(&mut self, reply: AncestorReply) -> (next: Result<EnsureStep, FailedEnsure>)
        requires
            old(self).wf(),
            old(self).phase is Reopening || old(self).phase is Tracing,
        ensures
            EnsureDirectories::has_traced(*old(self), *final(self), reply, next),
    {
        match reply {
            AncestorReply::At { path } => {
                if !same_path(path.as_slice(), self.prefix.as_slice()) {
                    return Err(
                        self.give_up(
                            AnyError::message(
                                "created ancestor resolved to a different capability path",
                            ),
                        ),
                    );
                }
                Ok(self.advance())
            },
            AncestorReply::Untraced { error } => Err(self.give_up(error)),
            AncestorReply::Unopened { error } => Err(self.give_up(error)),
        }
    }
}

/// A made directory passes each step of its finishing exactly where the system says so: it is
/// pinned in the version that was made, its mode was set and is the one that was asked for, and it
/// is reopened as the same object.
pub proof fn law_made_directories_are_finished(
    before: DirectoryFinalization,
    after: DirectoryFinalization,
    reply: PinReply,
    called: Result<(), OsFailure>,
    metadata: Result<Metadata, AnyError>,
    mode: Result<u32, AnyError>,
    next: Result<(), AnyError>,
    finished: Result<EntryExpectation, AnyError>,
)
    ensures
        DirectoryFinalization::has_pinned(before, after, reply, mode) ==> {
            &&& mode is Ok <==> {
                &&& reply matches PinReply::Known { metadata: found }
                &&& before.expected matches EntryExpectation::Present { version }
                &&& found.dev == version.dev
                &&& found.ino == version.ino
                &&& found.ctime_sec == version.ctime_sec
                &&& found.ctime_nsec == version.ctime_nsec
                &&& found.mode & 0o170000 == version.kind
            }
            &&& mode matches Ok(bits) ==> bits == before.mode & 0o777 && after.phase is SettingMode
        },
        DirectoryFinalization::has_set_mode(before, after, called, next) ==> {
            &&& next is Ok <==> called is Ok
            &&& next is Ok ==> after.phase is Verifying
        },
        DirectoryFinalization::has_verified_mode(before, after, metadata, next) ==> {
            &&& next is Ok <==> (metadata matches Ok(found) && found.mode & 0o7777 == before.mode
                & 0o777)
            &&& next is Ok ==> after.phase is Reopening
        },
        DirectoryFinalization::has_reopened(before, after, reply, finished) ==> {
            &&& before.phase matches FinalizationPhase::Reopening { finalized }
            &&& finished is Ok <==> {
                &&& reply matches PinReply::Known { metadata: found }
                &&& finalized matches EntryExpectation::Present { version }
                &&& found.dev == version.dev
                &&& found.ino == version.ino
                &&& found.mode & 0o170000 == version.kind
            }
            &&& finished matches Ok(held) ==> held == finalized && after.phase is Done
        },
{
}

/// A directory is made exactly where its path resolves to itself, its parent is in place and can
/// be held, and nothing stands under its name; it is made with the nine permission bits of the
/// mode that was asked for.
pub proof fn law_directories_are_made_where_nothing_is(
    rel: Seq<u8>,
    mode: u32,
    facts: MkdirFacts,
    begun: Result<(Mkdir, u32), AnyError>,
)
    requires
        Mkdir::begins(rel, mode, facts, begun),
    ensures
        begun is Ok <==> {
            &&& parts(facts.resolved@) == parts(rel)
            &&& facts.parent is Ok
            &&& facts.stat matches Err(failure) && failure.errno == Errno::NoEnt
            &&& facts.rollback_parent is Ok
        },
        begun matches Ok((mkdir, bits)) ==> {
            &&& bits == mode & 0o777
            &&& mkdir.target == facts.resolved
            &&& mkdir.name == facts.name
            &&& mkdir.phase is Making
        },
{
    crate::filesystem::entry::law_versions_are_checked(
        facts.resolved@,
        EntryExpectation::Missing,
        facts.stat,
        MutationEndpointRole::Target,
    );
}

/// The making of a directory goes on exactly where the system did what it was asked to, ends once
/// the directory and its parent are durable, and otherwise hands back what was made as far as it
/// is known.
pub proof fn law_directories_are_made_durable(
    before: Mkdir,
    after: Mkdir,
    called: Result<(), OsFailure>,
    stat: Result<Metadata, OsFailure>,
    cause: Seq<char>,
    outcome: Result<EntryExpectation, AnyError>,
    made: Result<(), AnyError>,
    finishing: Result<DirectoryFinalization, AnyError>,
    point: Result<DirectorySyncPoint, FailedMkdir>,
    next: Result<Option<DirectorySyncPoint>, FailedMkdir>,
)
    requires
        before.wf(),
    ensures
        Mkdir::has_made(before, after, called, made) ==> {
            &&& made is Ok <==> called is Ok
            &&& made is Ok ==> after.phase is Versioning
            &&& called matches Err(failure) ==> made matches Err(error) && (error@.nature()
                == Some(FsNature::Changed) <==> failure.errno == Errno::Exist)
        },
        Mkdir::has_versioned(before, after, stat, cause, finishing) ==> {
            &&& finishing is Ok <==> stat is Ok
            &&& finishing matches Ok(work) ==> {
                &&& work.rel@ == before.target@
                &&& work.mode == before.mode
                &&& work.phase is Pinning
                &&& after.phase is Finalizing
                &&& stat matches Ok(found) && work.expected == (EntryExpectation::Present {
                    version: found.version(),
                }) && after.rollback@[0].expectation == work.expected
            }
        },
        Mkdir::has_finalized(before, after, outcome, point) ==> {
            &&& point is Ok <==> outcome is Ok
            &&& point matches Ok(at) ==> at is CreatedDirectory && after.phase is SyncingCreated
            &&& point matches Err(failed) ==> failed.rollback == before.rollback
        },
        Mkdir::has_synced(before, after, called, next) && (before.phase is SyncingCreated
            || before.phase is SyncingParent) ==> {
            &&& next is Ok <==> called is Ok
            &&& next matches Ok(at) ==> (at is None <==> before.phase is SyncingParent)
            &&& next matches Ok(Some(at)) ==> at is CreatedDirectoryParent
                && after.phase is SyncingParent
            &&& next matches Ok(None) ==> after.phase is Done && after.rollback@.len() == 0
            &&& next matches Err(failed) ==> failed.rollback == before.rollback
        },
{
    if let Err(failure) = called {
        assert(failure.fault().nature() is None);
    }
}

/// On the way to an upload, a directory that is there is used, one that is missing is made, and
/// nothing else that stands in the way is passed over.
pub proof fn law_missing_ancestors_are_made(
    before: EnsureDirectories,
    after: EnsureDirectories,
    reply: AncestorReply,
    next: Result<EnsureStep, FailedEnsure>,
)
    requires
        before.wf(),
        EnsureDirectories::has_opened(before, after, reply, next),
    ensures
        next is Ok <==> match reply {
            AncestorReply::At { path } => parts(path@) == parts(before.prefix@),
            AncestorReply::Untraced { error } => false,
            AncestorReply::Unopened { error } => error@.nature() == Some(
                FsNature::Failed(crate::fault::FsKind::NotFound),
            ),
        },
        next matches Ok(step) ==> match reply {
            AncestorReply::At { path } => {
                &&& after.created == before.created
                &&& step is Done <==> before.index + 1 == before.names@.len()
                &&& step is Done || step is Open && after.phase is Opening && after.index
                    == before.index + 1
            },
            _ => {
                &&& step matches EnsureStep::Make { mode } && mode == before.mode & 0o777
                &&& after.phase is Making
                &&& after.index == before.index
                &&& after.created == before.created
            },
        },
        next matches Err(failed) ==> failed.created == before.created && after.phase is Failed,
{
}

/// A missing directory is made, looked at, finished and made durable, each step where the one
/// before it succeeded, and is then the one that the next name is looked for in. One that someone
/// else made first is used as it is. What was made is remembered until the end.
pub proof fn law_made_ancestors_are_used(
    before: EnsureDirectories,
    after: EnsureDirectories,
    parent: Result<Handle, AnyError>,
    called: Result<(), OsFailure>,
    stat: Result<Metadata, OsFailure>,
    cause: Seq<char>,
    outcome: Result<EntryExpectation, AnyError>,
    reply: AncestorReply,
    next: Result<EnsureStep, FailedEnsure>,
)
    requires
        before.wf(),
    ensures
        EnsureDirectories::has_made(before, after, parent, called, next) ==> {
            &&& next is Ok <==> parent is Ok && (called matches Err(failure) ==> failure.errno
                == Errno::Exist)
            &&& next matches Ok(step) ==> if called is Ok {
                step is Version && after.phase is Versioning && after.index == before.index
                    && after.created == before.created
            } else {
                step matches EnsureStep::Reopen { path } && path@ == before.prefix@
                    && after.phase is Reopening && after.index == before.index && after.created
                    == before.created
            }
        },
        EnsureDirectories::has_versioned(before, after, stat, cause, next) ==> {
            &&& next is Ok <==> stat is Ok
            &&& next matches Ok(step) ==> {
                &&& step matches EnsureStep::Finalize { finishing } && finishing.rel@
                    == before.prefix@ && finishing.mode == before.mode && finishing.phase is Pinning
                &&& after.phase is Finalizing
                &&& after.index == before.index
                &&& after.created@.drop_last() == before.created@
                &&& after.created@.last().name@ == before.names@[before.index as int]@
            }
        },
        EnsureDirectories::has_finalized(before, after, outcome, next) ==> {
            &&& next is Ok <==> outcome is Ok
            &&& next matches Ok(step) ==> step is SyncCreated && after.phase is SyncingCreated
                && after.index == before.index
        },
        EnsureDirectories::has_synced(before, after, called, next) && (
        before.phase is SyncingCreated || before.phase is SyncingCurrent) ==> {
            &&& next is Ok <==> called is Ok
            &&& next matches Ok(step) ==> {
                &&& step is SyncCurrent <==> before.phase is SyncingCreated
                &&& step is Trace <==> before.phase is SyncingCurrent
                &&& after.index == before.index
                &&& after.created == before.created
            }
        },
        EnsureDirectories::has_traced(before, after, reply, next) ==> {
            &&& next is Ok <==> (reply matches AncestorReply::At { path } && parts(path@) == parts(
                before.prefix@,
            ))
            &&& next matches Ok(step) ==> {
                &&& after.created == before.created
                &&& step is Done <==> before.index + 1 == before.names@.len()
                &&& step is Done || step is Open && after.phase is Opening && after.index
                    == before.index + 1
            }
        },
        (EnsureDirectories::has_made(before, after, parent, called, next)
            || EnsureDirectories::has_versioned(before, after, stat, cause, next)
            || EnsureDirectories::has_finalized(before, after, outcome, next)
            || EnsureDirectories::has_synced(before, after, called, next)
            || EnsureDirectories::has_traced(before, after, reply, next)) ==> (next matches Err(
            failed,
        ) ==> failed.created == before.created),
{
}

} // verus!
