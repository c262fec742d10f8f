//! Renaming an entry within the root.
use crate::error::{AnyError, DurabilityStage, MutationEndpointRole};
use crate::fault::{said, undurable, Fault, FsNature};
use crate::filesystem::cleanup::CreatedAncestor;
use crate::filesystem::entry::{
    create_only_error, create_only_fault, entry_fault, one_object, same_object, same_parts,
    same_path, verify_entry_with_role, EntryExpectation, Metadata,
};
use crate::filesystem::failure::{durability_error, fault_of, DirectorySyncPoint, OsFailure};
use crate::text::TextBuilder;
use vstd::prelude::*;

verus! {

/// A failed sync, with what the system says of it.
#[derive(Debug)]
pub struct SyncFailure {
    pub failure: OsFailure,
    pub system: String,
}

/// What failed syncs of the two parents of a rename amount to. The rename is visible either way.
pub open spec fn parents_fault(
    destination: Result<(), SyncFailure>,
    source: Result<(), SyncFailure>,
) -> Option<Fault> {
    match (destination, source) {
        (Ok(()), Ok(())) => None,
        (Err(failed), Ok(())) => Some(
            undurable(DurabilityStage::DestinationParent, true, failed.failure.fault()),
        ),
        (Ok(()), Err(failed)) => Some(
            undurable(DurabilityStage::SourceParent, true, failed.failure.fault()),
        ),
        (Err(first), Err(second)) => Some(
            undurable(
                DurabilityStage::DestinationParent,
                true,
                said(
                    "destination parent sync failed: "@ + first.system@
                        + "; source parent sync also failed: "@ + second.system@,
                ),
            ),
        ),
    }
}

/// Joins the outcomes of the two syncs.
pub fn sync_renamed_parents(
    destination: Result<(), SyncFailure>,
    source: Result<(), SyncFailure>,
) -> (synced: Result<(), AnyError>)
    ensures
        match parents_fault(destination, source) {
            Some(fault) => synced matches Err(error) && error@ == fault,
            None => synced is Ok,
        },
{
    match (destination, source) {
        (Ok(()), Ok(())) => Ok(()),
        (Err(failed), Ok(())) => Err(
            durability_error(
                DurabilityStage::DestinationParent,
                true,
                failed.failure.into_error(),
            ),
        ),
        (Ok(()), Err(failed)) => Err(
            durability_error(DurabilityStage::SourceParent, true, failed.failure.into_error()),
        ),
        (Err(first), Err(second)) => {
            let mut builder = TextBuilder::new();
            builder.push("destination parent sync failed: ");
            builder.push(first.system.as_str());
            builder.push("; source parent sync also failed: ");
            builder.push(second.system.as_str());
            assert(builder.view() =~= "destination parent sync failed: "@ + first.system@
                + "; source parent sync also failed: "@ + second.system@);
            let text = builder.finish();
            Err(
                durability_error(
                    DurabilityStage::DestinationParent,
                    true,
                    AnyError::message(text.as_str()),
                ),
            )
        },
    }
}

/// What is known of one end of a rename.
#[derive(Debug)]
pub struct EndpointFacts {
    /// The path that the end resolved to.
    pub resolved: Vec<u8>,
    /// Whether its parent is still where it was.
    pub parent: Result<(), AnyError>,
    pub stat: Result<Metadata, OsFailure>,
}

#[derive(Debug)]
pub enum RenamePhase {
    Renaming,
    SyncingDestination,
    SyncingSource { destination: Result<(), SyncFailure> },
    Done,
    Failed,
}

/// A rename in progress.
#[derive(Debug)]
pub struct Rename {
    pub source: Vec<u8>,
    pub destination: Vec<u8>,
    pub expected_destination: EntryExpectation,
    pub same_parent: bool,
    /// The directories that were created on the way to the destination.
    pub created_ancestors: Vec<CreatedAncestor>,
    pub phase: RenamePhase,
}

/// What the caller does next.
#[derive(Clone, Copy, Debug, PartialEq, Eq, Structural)]
pub enum RenameAction {
    /// Rename. Where nothing is expected under the destination's name, nothing may be replaced.
    Rename { no_replace: bool },
    Sync { point: DirectorySyncPoint },
    Done,
}

/// A rename that failed: the error, and the directories that have to be taken back.
#[derive(Debug)]
pub struct FailedRename {
    pub error: AnyError,
    pub created_ancestors: Vec<CreatedAncestor>,
}

/// Why nothing is renamed.
pub open spec fn rename_fault(
    source: Seq<u8>,
    destination: Seq<u8>,
    expected_source: EntryExpectation,
    expected_destination: EntryExpectation,
    from: EndpointFacts,
    to: EndpointFacts,
    parents: Result<(Metadata, Metadata), AnyError>,
) -> Option<Fault> {
    let source_fault = entry_fault(
        from.resolved@,
        expected_source,
        from.stat,
        MutationEndpointRole::Source,
    );
    let destination_fault = entry_fault(
        to.resolved@,
        expected_destination,
        to.stat,
        MutationEndpointRole::Destination,
    );
    if !same_parts(from.resolved@, source) || !same_parts(to.resolved@, destination) {
        Some(said("rename endpoint resolved to a different capability path"@))
    } else if from.parent is Err {
        fault_of(from.parent)
    } else if to.parent is Err {
        fault_of(to.parent)
    } else if source_fault is Some {
        source_fault
    } else if destination_fault is Some {
        destination_fault
    } else {
        fault_of(parents)
    }
}

impl Rename {
    /// The directories on the way are kept for taking back exactly until the rename.
    pub open spec fn wf(self) -> bool {
        !(self.phase is Renaming) ==> self.created_ancestors@.len() == 0
    }

    pub open spec fn same_ends(self, other: Rename) -> bool {
        &&& self.source == other.source
        &&& self.destination == other.destination
        &&& self.expected_destination == other.expected_destination
        &&& self.same_parent == other.same_parent
    }

    /// The start of a rename, or why nothing is renamed.
    pub open spec fn begins(
        source: Seq<u8>,
        destination: Seq<u8>,
        expected_source: EntryExpectation,
        expected_destination: EntryExpectation,
        from: EndpointFacts,
        to: EndpointFacts,
        parents: Result<(Metadata, Metadata), AnyError>,
        created_ancestors: Vec<CreatedAncestor>,
        begun: Result<(Rename, RenameAction), FailedRename>,
    ) -> bool {
        &&& match rename_fault(
            source,
            destination,
            expected_source,
            expected_destination,
            from,
            to,
            parents,
        ) {
            Some(fault) => begun matches Err(failed) && failed.error@ == fault
                && failed.created_ancestors == created_ancestors,
            None => match (parents, begun) {
                (Ok((left, right)), Ok((rename, action))) => {
                    &&& rename.wf()
                    &&& rename.source == from.resolved
                    &&& rename.destination == to.resolved
                    &&& rename.expected_destination == expected_destination
                    &&& rename.same_parent == one_object(left, right)
                    &&& rename.created_ancestors == created_ancestors
                    &&& rename.phase is Renaming
                    &&& action == (RenameAction::Rename {
                        no_replace: expected_destination is Missing,
                    })
                },
                _ => false,
            },
        }
    }

    /// Checks both ends. `parents` is what the system tells of the two parent directories.
    pub fn rename_sync(
        source: &[u8],
        destination: &[u8],
        expected_source: EntryExpectation,
        expected_destination: EntryExpectation,
        from: EndpointFacts,
        to: EndpointFacts,
        parents: Result<(Metadata, Metadata), AnyError>,
        created_ancestors: Vec<CreatedAncestor>,
    ) -> (begun: Result<(Rename, RenameAction), FailedRename>)
        ensures
            Rename::begins(
                source@,
                destination@,
                expected_source,
                expected_destination,
                from,
                to,
                parents,
                created_ancestors,
                begun,
            ),
    {
        if !same_path(from.resolved.as_slice(), source) || !same_path(
            to.resolved.as_slice(),
            destination,
        ) {
            return Err(
                FailedRename {
                    error: AnyError::message(
                        "rename endpoint resolved to a different capability path",
                    ),
                    created_ancestors,
                },
            );
        }
        match from.parent {
            Ok(()) => {},
            Err(error) => {
                return Err(FailedRename { error, created_ancestors });
            },
        }
        match to.parent {
            Ok(()) => {},
            Err(error) => {
                return Err(FailedRename { error, created_ancestors });
            },
        }
        match verify_entry_with_role(
            from.resolved.as_slice(),
            expected_source,
            from.stat,
            MutationEndpointRole::Source,
        ) {
            Ok(()) => {},
            Err(error) => {
                return Err(FailedRename { error, created_ancestors });
            },
        }
        match verify_entry_with_role(
            to.resolved.as_slice(),
            expected_destination,
            to.stat,
            MutationEndpointRole::Destination,
        ) {
            Ok(()) => {},
            Err(error) => {
                return Err(FailedRename { error, created_ancestors });
            },
        }
        let same_parent = match parents {
            Ok((left, right)) => same_object(&left, &right),
            Err(error) => {
                return Err(FailedRename { error, created_ancestors });
            },
        };
        let no_replace = match expected_destination {
            EntryExpectation::Missing => true,
            EntryExpectation::Present { .. } => false,
        };
        Ok(
            (
                Rename {
                    source: from.resolved,
                    destination: to.resolved,
                    expected_destination,
                    same_parent,
                    created_ancestors,
                    phase: RenamePhase::Renaming,
                },
                RenameAction::Rename { no_replace },
            ),
        )
    }

    /// The step after the rename.
    pub open spec fn has_renamed(
        before: Rename,
        after: Rename,
        outcome: Result<(), OsFailure>,
        next: Result<RenameAction, FailedRename>,
    ) -> bool {
        &&& after.wf()
        &&& after.same_ends(before)
        &&& match outcome {
            Err(failure) => {
                &&& next matches Err(failed) && failed.created_ancestors
                    == before.created_ancestors && failed.error@ == (
                match before.expected_destination {
                    EntryExpectation::Missing => create_only_fault(
                        before.destination@,
                        before.expected_destination,
                        MutationEndpointRole::Destination,
                        failure,
                    ),
                    EntryExpectation::Present { .. } => failure.fault(),
                })
                &&& after.phase is Failed
            },
            Ok(()) => {
                &&& next matches Ok(action) && action == (RenameAction::Sync {
                    point: DirectorySyncPoint::DestinationParent,
                })
                &&& after.phase is SyncingDestination
            },
        }
    }

    /// Takes the outcome of the rename. Afterwards the directories on the way stay.
    pub fn renamed(&mut self, outcome: Result<(), OsFailure>) -> (next: Result<
        RenameAction,
        FailedRename,
    >)
        requires
            old(self).wf(),
            old(self).phase is Renaming,
        ensures
            Rename::has_renamed(*old(self), *final(self), outcome, next),
    {
        let mut created_ancestors: Vec<CreatedAncestor> = Vec::new();
        std::mem::swap(&mut created_ancestors, &mut self.created_ancestors);
        match outcome {
            Err(failure) => {
                self.phase = RenamePhase::Failed;
                let error = match self.expected_destination {
                    EntryExpectation::Missing => create_only_error(
                        self.destination.as_slice(),
                        self.expected_destination,
                        MutationEndpointRole::Destination,
                        failure,
                    ),
                    EntryExpectation::Present { .. } => failure.into_error(),
                };
                Err(FailedRename { error, created_ancestors })
            },
            Ok(()) => {
                self.phase = RenamePhase::SyncingDestination;
                Ok(RenameAction::Sync { point: DirectorySyncPoint::DestinationParent })
            },
        }
    }

    /// The step after making the destination durable.
    pub open spec fn has_synced_destination(
        before: Rename,
        after: Rename,
        outcome: Result<(), SyncFailure>,
        next: Result<RenameAction, AnyError>,
    ) -> bool {
        &&& after.wf()
        &&& after.same_ends(before)
        &&& if before.same_parent {
            match parents_fault(outcome, Ok(())) {
                Some(fault) => next matches Err(error) && error@ == fault
                    && after.phase is Failed,
                None => next matches Ok(action) && action == RenameAction::Done
                    && after.phase is Done,
            }
        } else {
            &&& next matches Ok(action) && action == (RenameAction::Sync {
                point: DirectorySyncPoint::SourceParent,
            })
            &&& after.phase matches RenamePhase::SyncingSource { destination }
                && destination == outcome
        }
    }

    /// Takes the outcome of the destination's sync. A second parent is synced whatever came of
    /// the first.
    pub fn destination_synced(&mut self, outcome: Result<(), SyncFailure>) -> (next: Result<
        RenameAction,
        AnyError,
    >)
        requires
            old(self).wf(),
            old(self).phase is SyncingDestination,
        ensures
            Rename::has_synced_destination(*old(self), *final(self), outcome, next),
    {
        if self.same_parent {
            return match sync_renamed_parents(outcome, Ok(())) {
                Ok(()) => {
                    self.phase = RenamePhase::Done;
                    Ok(RenameAction::Done)
                },
                Err(error) => {
                    self.phase = RenamePhase::Failed;
                    Err(error)
                },
            };
        }
        self.phase = RenamePhase::SyncingSource { destination: outcome };
        Ok(RenameAction::Sync { point: DirectorySyncPoint::SourceParent })
    }

    /// The step after making the source durable.
    pub open spec fn has_synced_source(
        before: Rename,
        after: Rename,
        outcome: Result<(), SyncFailure>,
        next: Result<RenameAction, AnyError>,
    ) -> bool {
        &&& after.wf()
        &&& after.same_ends(before)
        &&& before.phase matches RenamePhase::SyncingSource { destination } && match parents_fault(
            destination,
            outcome,
        ) {
            Some(fault) => next matches Err(error) && error@ == fault
                && after.phase is Failed,
            None => next matches Ok(action) && action == RenameAction::Done
                && after.phase is Done,
        }
    }

    /// Takes the outcome of the source's sync.
    pub fn source_synced(&mut self, outcome: Result<(), SyncFailure>) -> (next: Result<
        RenameAction,
        AnyError,
    >)
        requires
            old(self).wf(),
            old(self).phase is SyncingSource,
        ensures
            Rename::has_synced_source(*old(self), *final(self), outcome, next),
    {
        let mut phase = RenamePhase::Failed;
        std::mem::swap(&mut phase, &mut self.phase);
        let destination = match phase {
            RenamePhase::SyncingSource { destination } => destination,
            _ => {
                assert(false);
                Ok(())
            },
        };
        match sync_renamed_parents(destination, outcome) {
            Ok(()) => {
                self.phase = RenamePhase::Done;
                Ok(RenameAction::Done)
            },
            Err(error) => Err(error),
        }
    }
}

/// Every failed sync of a rename is reported as published, and a failure of the destination's
/// parent comes first.
pub proof fn law_rename_syncs_are_published(
    destination: Result<(), SyncFailure>,
    source: Result<(), SyncFailure>,
)
    ensures
        parents_fault(destination, source) is None <==> destination is Ok && source is Ok,
        parents_fault(destination, source) matches Some(fault) ==> {
            &&& fault.nature() == Some(FsNature::Durability { published: true })
            &&& fault matches Fault::Durability { stage, .. } && stage == (if destination is Err {
                DurabilityStage::DestinationParent
            } else {
                DurabilityStage::SourceParent
            })
        },
{
}

/// A rename begins exactly where both ends resolve to their paths, both parents are in place, and
/// both entries are what is expected of them: the very version, or nothing. It renames what was
/// asked for, and replaces nothing where nothing is expected.
pub proof fn law_renames_begin(
    source: Seq<u8>,
    destination: Seq<u8>,
    expected_source: EntryExpectation,
    expected_destination: EntryExpectation,
    from: EndpointFacts,
    to: EndpointFacts,
    parents: Result<(Metadata, Metadata), AnyError>,
    created_ancestors: Vec<CreatedAncestor>,
    begun: Result<(Rename, RenameAction), FailedRename>,
)
    requires
        Rename::begins(
            source,
            destination,
            expected_source,
            expected_destination,
            from,
            to,
            parents,
            created_ancestors,
            begun,
        ),
    ensures
        begun is Ok <==> {
            &&& crate::path::parts(from.resolved@) == crate::path::parts(source)
            &&& crate::path::parts(to.resolved@) == crate::path::parts(destination)
            &&& from.parent is Ok
            &&& to.parent is Ok
            &&& parents is Ok
            &&& match expected_source {
                EntryExpectation::Present { version } => {
                    &&& from.stat matches Ok(found)
                    &&& found.dev == version.dev
                    &&& found.ino == version.ino
                    &&& found.ctime_sec == version.ctime_sec
                    &&& found.ctime_nsec == version.ctime_nsec
                    &&& found.mode & 0o170000 == version.kind
                },
                EntryExpectation::Missing => from.stat matches Err(failure) && failure.errno
                    == crate::error::Errno::NoEnt,
            }
            &&& match expected_destination {
                EntryExpectation::Present { version } => {
                    &&& to.stat matches Ok(found)
                    &&& found.dev == version.dev
                    &&& found.ino == version.ino
                    &&& found.ctime_sec == version.ctime_sec
                    &&& found.ctime_nsec == version.ctime_nsec
                    &&& found.mode & 0o170000 == version.kind
                },
                EntryExpectation::Missing => to.stat matches Err(failure) && failure.errno
                    == crate::error::Errno::NoEnt,
            }
        },
        begun matches Ok((rename, action)) ==> {
            &&& rename.source == from.resolved
            &&& rename.destination == to.resolved
            &&& rename.phase is Renaming
            &&& action matches RenameAction::Rename { no_replace } && (no_replace
                <==> expected_destination is Missing)
            &&& parents matches Ok((left, right)) && (rename.same_parent <==> left.dev == right.dev
                && left.ino == right.ino && left.mode & 0o170000 == right.mode & 0o170000)
        },
        begun matches Err(failed) ==> failed.created_ancestors == created_ancestors,
{
    crate::filesystem::entry::law_versions_are_checked(
        from.resolved@,
        expected_source,
        from.stat,
        MutationEndpointRole::Source,
    );
    crate::filesystem::entry::law_versions_are_checked(
        to.resolved@,
        expected_destination,
        to.stat,
        MutationEndpointRole::Destination,
    );
}

/// A rename that the system carries out and makes durable ends well, in one parent or in two; one
/// that it refuses changes nothing and gives back the directories on the way.
pub proof fn law_renames_end(
    begun: Rename,
    renamed: Rename,
    halfway: Rename,
    ended: Rename,
    outcome: Result<(), OsFailure>,
    destination: Result<(), SyncFailure>,
    source: Result<(), SyncFailure>,
    first: Result<RenameAction, FailedRename>,
    second: Result<RenameAction, AnyError>,
    third: Result<RenameAction, AnyError>,
)
    requires
        Rename::has_renamed(begun, renamed, outcome, first),
        Rename::has_synced_destination(renamed, halfway, destination, second),
        !begun.same_parent ==> Rename::has_synced_source(halfway, ended, source, third),
    ensures
        first is Ok <==> outcome is Ok,
        first matches Ok(action) ==> action == (RenameAction::Sync {
            point: DirectorySyncPoint::DestinationParent,
        }),
        outcome matches Err(failure) ==> {
            &&& first matches Err(failed) && failed.created_ancestors == begun.created_ancestors
            &&& renamed.phase is Failed
        },
        begun.same_parent ==> {
            &&& second is Ok <==> destination is Ok
            &&& second matches Ok(action) ==> action is Done && halfway.phase is Done
        },
        !begun.same_parent ==> {
            &&& second matches Ok(action) && action == (RenameAction::Sync {
                point: DirectorySyncPoint::SourceParent,
            })
            &&& third is Ok <==> destination is Ok && source is Ok
            &&& third matches Ok(action) ==> action is Done && ended.phase is Done
            &&& third matches Err(error) ==> error@.nature() == Some(
                FsNature::Durability { published: true },
            )
        },
{
}

} // verus!
