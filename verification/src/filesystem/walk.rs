//! Traversal of directory trees beneath the root, within limits on entries and depth.
//!
//! The caller reads directories and opens entries; the traversal decides what is opened, shown
//! to the visitor and entered.
use crate::error::{AdmissionResource, AnyError, Errno, FsError, IoErrorKind};
use crate::fault::{failed, said, Fault, FsKind};
use crate::filesystem::entry::{join, same_parts, same_path, Metadata, SYMBOLIC_LINK};
use crate::filesystem::failure::{
    ended, is_unavailable, limit_fault, typed_fault, typed_filesystem_error,
    unavailable_capability_entry, walk_cancelled, walk_cancelled_fault, walk_limit_exceeded,
    OsFailure,
};
use crate::filesystem::resolve::{
    basename_fault, check_public_rel, public_fault, single_view, validate_basename,
};
use crate::filesystem::visited::DirectorySet;
use crate::path::{
    components, file_name, is_beneath, joined, last_name, parts, stripped, DOT,
};
use crate::text::copy_bytes;
use vstd::prelude::*;

verus! {

/// What a visitor asks for.
#[derive(Clone, Copy, Debug, PartialEq, Eq, Structural)]
pub enum WalkAction {
    Continue,
    SkipDirectory,
    Stop,
}

#[derive(Clone, Copy, Debug, PartialEq, Eq, Structural)]
pub struct WalkLimits {
    pub max_entries: usize,
    pub max_depth: usize,
    /// Whether an entry that is gone or lies outside ends the traversal instead of being passed
    /// over.
    pub fail_on_unavailable: bool,
}

/// A directory being read: its path as the caller names it, and the path that it has beneath the
/// root.
#[derive(Debug)]
pub struct Frame {
    pub display: Vec<u8>,
    pub real_rel: Vec<u8>,
}

/// What the traversal waits for.
#[derive(Debug)]
pub enum WalkPhase {
    /// The next entry of the innermost directory.
    Reading,
    /// What opening this entry gives.
    Opening { name: Vec<u8>, requested: Vec<u8> },
    /// The visitor's decision on this entry. A directory comes with its identity.
    Visiting { display: Vec<u8>, real_rel: Vec<u8>, directory: Option<(u64, u64)> },
}

pub struct Traversal {
    pub limits: WalkLimits,
    pub visited_entries: usize,
    pub visited_dirs: DirectorySet,
    pub real_root: Vec<u8>,
    pub frames: Vec<Frame>,
    pub phase: WalkPhase,
}

/// An entry read from a directory.
#[derive(Debug)]
pub enum NextEntry {
    /// The directory could not be read at all.
    Unreadable { error: AnyError },
    End,
    Failed { error: AnyError },
    Name { name: Vec<u8> },
}

#[derive(Debug)]
pub enum EntryStep {
    /// The directory is done; its parent goes on.
    Leave,
    /// The entry is passed over.
    Skip,
    /// Open this path.
    Open { requested: Vec<u8> },
    Failed { error: AnyError },
}

/// What is decided about an entry, as a value.
pub enum EntryDecision {
    Leave,
    Skip,
    Open(Seq<u8>),
    Failed(Fault),
}

/// What opening an entry gave.
#[allow(inconsistent_fields)]
#[derive(Debug)]
pub enum Observed {
    Unopened { error: AnyError },
    Unread { error: AnyError },
    Untraced { error: AnyError },
    Known {
        metadata: Metadata,
        /// Where the object lies beneath the root.
        real_rel: Vec<u8>,
        /// What the name itself is, without following a link.
        nofollow: Result<Metadata, OsFailure>,
        /// Whether a second descriptor of a directory could be had.
        duplicated: Result<(), AnyError>,
    },
}

#[derive(Debug)]
pub enum VisitStep {
    Skip,
    /// Show the entry to the visitor.
    Visit { name: Vec<u8>, is_symlink: bool },
    Failed { error: AnyError },
}

/// What is decided about an opened entry, as a value.
pub enum VisitDecision {
    Skip,
    Visit { real_rel: Seq<u8>, is_symlink: bool, directory: Option<(u64, u64)> },
    Failed(Fault),
}

#[derive(Debug)]
pub enum AfterVisit {
    /// The traversal ends without an error.
    Stop,
    /// The innermost directory goes on.
    Next,
    /// The entry is a directory that is read now.
    Descend,
    Failed { error: AnyError },
}

/// What follows a visit, as a value.
pub enum AfterDecision {
    Stop,
    Next,
    Descend,
    Failed(Fault),
}

pub open spec fn is_dots(name: Seq<u8>) -> bool {
    name == seq![DOT] || name == seq![DOT, DOT]
}

/// Whether a name is one of the two that every directory has.
pub fn names_itself(name: &[u8]) -> (dots: bool)
    ensures
        dots == is_dots(name@),
{
    if name.len() == 1 && name[0] == DOT {
        assert(name@ =~= seq![DOT]);
        return true;
    }
    if name.len() == 2 && name[0] == DOT && name[1] == DOT {
        assert(name@ =~= seq![DOT, DOT]);
        return true;
    }
    proof {
        if name@ == seq![DOT] {
            assert(name@.len() == 1 && name@[0] == DOT);
        }
        if name@ == seq![DOT, DOT] {
            assert(name@.len() == 2 && name@[0] == DOT && name@[1] == DOT);
        }
    }
    false
}

/// The paths of the directories being read, outermost first.
pub open spec fn frame_paths(frames: Seq<Frame>) -> Seq<(Seq<u8>, Seq<u8>)> {
    frames.map_values(|frame: Frame| (frame.display@, frame.real_rel@))
}

/// A path at or beneath another.
pub open spec fn lies_beneath(path: Seq<u8>, base: Seq<u8>) -> bool {
    stripped(parts(path), parts(base)) is Some
}

pub fn starts_with(path: &[u8], base: &[u8]) -> (within: bool)
    ensures
        within == lies_beneath(path@, base@),
{
    is_beneath(&components(path), &components(base))
}

impl Traversal {
    /// The traversal has kept its limits, and every directory it reads lies beneath its root.
    pub open spec fn wf(self) -> bool {
        &&& self.visited_entries <= self.limits.max_entries
        &&& self.frames@.len() <= self.limits.max_depth + 1
        &&& forall|i: int|
            0 <= i < self.frames@.len() ==> lies_beneath(
                #[trigger] frame_paths(self.frames@)[i].1,
                self.real_root@,
            )
        &&& (self.phase matches WalkPhase::Opening { name, requested } ==> {
            &&& self.frames@.len() > 0
            &&& requested@ == joined(frame_paths(self.frames@).last().1, name@)
        })
        &&& (self.phase matches WalkPhase::Visiting { real_rel, .. } ==> {
            &&& self.frames@.len() > 0
            &&& lies_beneath(real_rel@, self.real_root@)
        })
    }

    /// What stays the same while one root is traversed.
    pub open spec fn same_walk(self, other: Traversal) -> bool {
        self.limits == other.limits && self.real_root@ == other.real_root@
    }

    pub fn new(limits: WalkLimits) -> (walk: Traversal)
        ensures
            walk.wf(),
            walk.limits == limits,
            walk.visited_entries == 0,
            walk.visited_dirs.view() == Set::<(u64, u64)>::empty(),
            walk.frames@.len() == 0,
            walk.phase is Reading,
    {
        Traversal {
            limits,
            visited_entries: 0,
            visited_dirs: DirectorySet::new(),
            real_root: Vec::new(),
            frames: Vec::new(),
            phase: WalkPhase::Reading,
        }
    }

    /// The fault of counting one more entry.
    pub open spec fn count_fault(self) -> Option<Fault> {
        if self.visited_entries == usize::MAX {
            Some(limit_fault(AdmissionResource::WalkEntries, self.limits.max_entries, None))
        } else if self.visited_entries + 1 > self.limits.max_entries {
            Some(
                limit_fault(
                    AdmissionResource::WalkEntries,
                    self.limits.max_entries,
                    Some((self.visited_entries + 1) as usize),
                ),
            )
        } else {
            None
        }
    }

    fn count(&mut self) -> (counted: Result<(), AnyError>)
        ensures
            ended(counted, old(self).count_fault()),
            counted is Ok ==> final(self).visited_entries == old(self).visited_entries + 1,
            counted is Err ==> final(self).visited_entries == old(self).visited_entries,
            final(self).visited_dirs == old(self).visited_dirs,
            final(self).limits == old(self).limits,
            final(self).real_root == old(self).real_root,
            final(self).frames == old(self).frames,
            final(self).phase == old(self).phase,
    {
        match self.visited_entries.checked_add(1) {
            None => Err(
                walk_limit_exceeded(AdmissionResource::WalkEntries, self.limits.max_entries, None),
            ),
            Some(visited) => {
                if visited > self.limits.max_entries {
                    return Err(
                        walk_limit_exceeded(
                            AdmissionResource::WalkEntries,
                            self.limits.max_entries,
                            Some(visited),
                        ),
                    );
                }
                self.visited_entries = visited;
                Ok(())
            },
        }
    }

    /// What is decided about what was read from the innermost directory.
    pub open spec fn entry_decision(self, cancelled: bool, entry: NextEntry) -> EntryDecision {
        match entry {
            NextEntry::Unreadable { error } => EntryDecision::Failed(
                typed_fault("opening a traversed directory"@, error@),
            ),
            NextEntry::End => EntryDecision::Leave,
            _ => if cancelled {
                EntryDecision::Failed(
                    walk_cancelled_fault("directory traversal was cancelled"@),
                )
            } else {
                match entry {
                    NextEntry::Failed { error } => EntryDecision::Failed(
                        typed_fault("reading a traversed directory entry"@, error@),
                    ),
                    NextEntry::Name { name } => if is_dots(name@) {
                        EntryDecision::Skip
                    } else if basename_fault(name@) is Some {
                        EntryDecision::Failed(
                            failed(
                                FsKind::Conflict,
                                "validating a traversed directory entry"@,
                                basename_fault(name@)->Some_0,
                            ),
                        )
                    } else if self.count_fault() is Some {
                        EntryDecision::Failed(self.count_fault()->Some_0)
                    } else {
                        EntryDecision::Open(
                            joined(frame_paths(self.frames@).last().1, name@),
                        )
                    },
                    _ => EntryDecision::Skip,
                }
            },
        }
    }

    /// What reading an entry of the innermost directory leads to.
    pub open spec fn entry_taken(
        before: Traversal,
        after: Traversal,
        cancelled: bool,
        entry: NextEntry,
        step: EntryStep,
    ) -> bool {
        &&& after.wf()
        &&& after.same_walk(before)
        &&& after.visited_dirs == before.visited_dirs
        &&& match (before.entry_decision(cancelled, entry), step) {
            (EntryDecision::Failed(fault), EntryStep::Failed { error }) => {
                &&& error@ == fault
                &&& after.frames == before.frames
                &&& after.phase is Reading
                &&& after.visited_entries == before.visited_entries
            },
            (EntryDecision::Leave, EntryStep::Leave) => {
                &&& frame_paths(after.frames@) == frame_paths(
                    before.frames@,
                ).drop_last()
                &&& after.phase is Reading
                &&& after.visited_entries == before.visited_entries
            },
            (EntryDecision::Skip, EntryStep::Skip) => {
                &&& after.frames == before.frames
                &&& after.phase is Reading
                &&& after.visited_entries == before.visited_entries
            },
            (EntryDecision::Open(path), EntryStep::Open { requested }) => {
                &&& requested@ == path
                &&& after.frames == before.frames
                &&& after.visited_entries == before.visited_entries + 1
                &&& after.phase matches WalkPhase::Opening { name: n, requested: r } && r@
                    == path && (entry matches NextEntry::Name { name } && n@ == name@)
            },
            _ => false,
        }
    }

    /// Takes what was read from the innermost directory. `cancelled` is whether the server stops
    /// or the request has gone.
    pub fn next_entry(&mut self, cancelled: bool, entry: NextEntry) -> (step: EntryStep)
        requires
            old(self).wf(),
            old(self).phase is Reading,
            old(self).frames@.len() > 0,
        ensures
            Traversal::entry_taken(*old(self), *final(self), cancelled, entry, step),
    {
        match entry {
            NextEntry::Unreadable { error } => EntryStep::Failed {
                error: typed_filesystem_error("opening a traversed directory", error),
            },
            NextEntry::End => {
                let ghost before = frame_paths(self.frames@);
                let _left = self.frames.pop();
                proof {
                    assert(frame_paths(self.frames@) =~= before.drop_last());
                    assert forall|i: int| 0 <= i < self.frames@.len() implies lies_beneath(
                        #[trigger] frame_paths(self.frames@)[i].1,
                        self.real_root@,
                    ) by {
                        assert(frame_paths(self.frames@)[i] == before[i]);
                    }
                }
                EntryStep::Leave
            },
            NextEntry::Failed { error } => {
                if cancelled {
                    return EntryStep::Failed {
                        error: walk_cancelled("directory traversal was cancelled"),
                    };
                }
                EntryStep::Failed {
                    error: typed_filesystem_error("reading a traversed directory entry", error),
                }
            },
            NextEntry::Name { name } => {
                if cancelled {
                    return EntryStep::Failed {
                        error: walk_cancelled("directory traversal was cancelled"),
                    };
                }
                if names_itself(name.as_slice()) {
                    return EntryStep::Skip;
                }
                match validate_basename(name.as_slice()) {
                    Ok(()) => {},
                    Err(error) => {
                        return EntryStep::Failed {
                            error: AnyError::filesystem(
                                FsError::conflict("validating a traversed directory entry", error),
                            ),
                        };
                    },
                }
                match self.count() {
                    Ok(()) => {},
                    Err(error) => {
                        return EntryStep::Failed { error };
                    },
                }
                assert(frame_paths(self.frames@).last().1 == self.frames@.last().real_rel@);
                let requested = join(
                    self.frames[self.frames.len() - 1].real_rel.as_slice(),
                    name.as_slice(),
                );
                let kept = copy_bytes(requested.as_slice());
                self.phase = WalkPhase::Opening { name, requested: kept };
                EntryStep::Open { requested }
            },
        }
    }

    /// Whether a failure of one entry ends the traversal.
    pub open spec fn passes_over(self, fault: Fault) -> bool {
        !self.limits.fail_on_unavailable && is_unavailable(fault)
    }

    /// What is decided about an opened entry.
    pub open spec fn visit_decision(self, requested: Seq<u8>, observed: Observed) -> VisitDecision {
        match observed {
            Observed::Unopened { error } => {
                let typed = typed_fault("opening a traversed directory entry"@, error@);
                if self.passes_over(typed) {
                    VisitDecision::Skip
                } else {
                    VisitDecision::Failed(typed)
                }
            },
            Observed::Unread { error } => VisitDecision::Failed(
                typed_fault("reading traversed-entry metadata"@, error@),
            ),
            Observed::Untraced { error } => if self.passes_over(error@) {
                VisitDecision::Skip
            } else {
                VisitDecision::Failed(error@)
            },
            Observed::Known { metadata, real_rel, nofollow, duplicated } => if !lies_beneath(
                real_rel@,
                self.real_root@,
            ) {
                if self.limits.fail_on_unavailable {
                    VisitDecision::Failed(
                        failed(
                            FsKind::OutsideRoot,
                            "validating a strict directory traversal entry"@,
                            said("resolved entry is outside the traversal root"@),
                        ),
                    )
                } else {
                    VisitDecision::Skip
                }
            } else {
                match nofollow {
                    Err(failure) => if failure.errno == Errno::NoEnt {
                        if self.limits.fail_on_unavailable {
                            VisitDecision::Failed(
                                typed_fault(
                                    "rechecking a strict traversed directory entry"@,
                                    Fault::Io { kind: IoErrorKind::NotFound, errno: None },
                                ),
                            )
                        } else {
                            VisitDecision::Skip
                        }
                    } else {
                        VisitDecision::Failed(
                            typed_fault(
                                "inspecting a traversed entry without following symlinks"@,
                                failure.fault(),
                            ),
                        )
                    },
                    Ok(named) => if metadata.spec_is_dir() && duplicated is Err {
                        VisitDecision::Failed(
                            typed_fault(
                                "cloning a traversed directory descriptor"@,
                                (duplicated->Err_0)@,
                            ),
                        )
                    } else {
                        VisitDecision::Visit {
                            real_rel: real_rel@,
                            is_symlink: named.type_bits() == SYMBOLIC_LINK || !same_parts(
                                real_rel@,
                                requested,
                            ),
                            directory: if metadata.spec_is_dir() {
                                Some(metadata.identity())
                            } else {
                                None
                            },
                        }
                    },
                }
            },
        }
    }

    /// What opening the entry leads to.
    pub open spec fn entry_inspected(
        before: Traversal,
        after: Traversal,
        observed: Observed,
        step: VisitStep,
    ) -> bool {
        &&& after.wf()
        &&& after.same_walk(before)
        &&& after.visited_dirs == before.visited_dirs
        &&& after.visited_entries == before.visited_entries
        &&& after.frames == before.frames
        &&& match before.phase {
            WalkPhase::Opening { name: entry, requested } => match (
                before.visit_decision(requested@, observed),
                step,
            ) {
                (VisitDecision::Failed(fault), VisitStep::Failed { error }) => error@ == fault
                    && after.phase is Reading,
                (VisitDecision::Skip, VisitStep::Skip) => after.phase is Reading,
                (
                    VisitDecision::Visit { real_rel: path, is_symlink: link, directory: kept },
                    VisitStep::Visit { name, is_symlink },
                ) => {
                    &&& name@ == entry@
                    &&& is_symlink == link
                    &&& after.phase matches WalkPhase::Visiting { display, real_rel, directory }
                        && display@ == joined(frame_paths(before.frames@).last().0, entry@)
                        && real_rel@ == path && directory == kept
                },
                _ => false,
            },
            _ => false,
        }
    }

    /// Takes what opening the entry gave.
    pub fn inspected(&mut self, observed: Observed) -> (step: VisitStep)
        requires
            old(self).wf(),
            old(self).phase is Opening,
        ensures
            Traversal::entry_inspected(*old(self), *final(self), observed, step),
    {
        let mut phase = WalkPhase::Reading;
        std::mem::swap(&mut phase, &mut self.phase);
        let (name, requested) = match phase {
            WalkPhase::Opening { name, requested } => (name, requested),
            _ => {
                assert(false);
                (Vec::new(), Vec::new())
            },
        };
        match observed {
            Observed::Unopened { error } => {
                let error = typed_filesystem_error("opening a traversed directory entry", error);
                if !self.limits.fail_on_unavailable && unavailable_capability_entry(&error) {
                    return VisitStep::Skip;
                }
                VisitStep::Failed { error }
            },
            Observed::Unread { error } => VisitStep::Failed {
                error: typed_filesystem_error("reading traversed-entry metadata", error),
            },
            Observed::Untraced { error } => {
                if !self.limits.fail_on_unavailable && unavailable_capability_entry(&error) {
                    return VisitStep::Skip;
                }
                VisitStep::Failed { error }
            },
            Observed::Known { metadata, real_rel, nofollow, duplicated } => {
                if !starts_with(real_rel.as_slice(), self.real_root.as_slice()) {
                    // An allowed link leads elsewhere beneath the root, outside what the caller
                    // asked for.
                    if self.limits.fail_on_unavailable {
                        return VisitStep::Failed {
                            error: AnyError::filesystem(
                                FsError::outside_root(
                                    "validating a strict directory traversal entry",
                                    AnyError::message(
                                        "resolved entry is outside the traversal root",
                                    ),
                                ),
                            ),
                        };
                    }
                    return VisitStep::Skip;
                }
                let named = match nofollow {
                    Ok(named) => named,
                    Err(failure) => {
                        if failure.errno == Errno::NoEnt {
                            if !self.limits.fail_on_unavailable {
                                return VisitStep::Skip;
                            }
                            return VisitStep::Failed {
                                error: typed_filesystem_error(
                                    "rechecking a strict traversed directory entry",
                                    AnyError::Io { kind: IoErrorKind::NotFound, errno: None },
                                ),
                            };
                        }
                        return VisitStep::Failed {
                            error: typed_filesystem_error(
                                "inspecting a traversed entry without following symlinks",
                                failure.into_error(),
                            ),
                        };
                    },
                };
                let is_symlink = named.is_symlink() || !same_path(
                    real_rel.as_slice(),
                    requested.as_slice(),
                );
                assert(frame_paths(self.frames@).last().0 == self.frames@.last().display@);
                let display = join(
                    self.frames[self.frames.len() - 1].display.as_slice(),
                    name.as_slice(),
                );
                let mut directory: Option<(u64, u64)> = None;
                if metadata.is_dir() {
                    match duplicated {
                        Ok(()) => {},
                        Err(error) => {
                            return VisitStep::Failed {
                                error: typed_filesystem_error(
                                    "cloning a traversed directory descriptor",
                                    error,
                                ),
                            };
                        },
                    }
                    directory = Some((metadata.dev, metadata.ino));
                }
                self.phase = WalkPhase::Visiting { display, real_rel, directory };
                VisitStep::Visit { name, is_symlink }
            },
        }
    }

    /// What follows a visit.
    pub open spec fn after_decision(
        self,
        directory: Option<(u64, u64)>,
        action: Result<WalkAction, AnyError>,
    ) -> AfterDecision {
        match action {
            Err(error) => AfterDecision::Failed(error@),
            Ok(WalkAction::Stop) => AfterDecision::Stop,
            Ok(WalkAction::SkipDirectory) => AfterDecision::Next,
            Ok(WalkAction::Continue) => match directory {
                None => AfterDecision::Next,
                Some(identity) => if self.frames@.len() > self.limits.max_depth {
                    AfterDecision::Failed(
                        limit_fault(
                            AdmissionResource::WalkDepth,
                            self.limits.max_depth,
                            Some(self.frames@.len() as usize),
                        ),
                    )
                } else if self.visited_dirs.view().contains(identity) {
                    AfterDecision::Next
                } else {
                    AfterDecision::Descend
                },
            },
        }
    }

    /// What the decision of the visitor leads to.
    pub open spec fn entry_visited(
        before: Traversal,
        after: Traversal,
        action: Result<WalkAction, AnyError>,
        step: AfterVisit,
    ) -> bool {
        &&& after.wf()
        &&& after.same_walk(before)
        &&& after.visited_entries == before.visited_entries
        &&& after.phase is Reading
        &&& match before.phase {
            WalkPhase::Visiting { display, real_rel, directory } => match (
                before.after_decision(directory, action),
                step,
            ) {
                (AfterDecision::Failed(fault), AfterVisit::Failed { error }) => {
                    &&& error@ == fault
                    &&& after.visited_dirs == before.visited_dirs
                    &&& after.frames == before.frames
                },
                (AfterDecision::Stop, AfterVisit::Stop) => {
                    &&& after.visited_dirs == before.visited_dirs
                    &&& after.frames == before.frames
                },
                (AfterDecision::Next, AfterVisit::Next) => {
                    &&& after.visited_dirs.view() == before.visited_dirs.view()
                    &&& after.frames == before.frames
                },
                (AfterDecision::Descend, AfterVisit::Descend) => {
                    &&& directory matches Some(identity) && after.visited_dirs.view()
                        == before.visited_dirs.view().insert(identity)
                    &&& frame_paths(after.frames@) == frame_paths(
                        before.frames@,
                    ).push((display@, real_rel@))
                },
                _ => false,
            },
            _ => false,
        }
    }

    /// Takes the visitor's decision on the entry.
    pub fn visited(&mut self, action: Result<WalkAction, AnyError>) -> (step: AfterVisit)
        requires
            old(self).wf(),
            old(self).phase is Visiting,
        ensures
            Traversal::entry_visited(*old(self), *final(self), action, step),
    {
        let mut phase = WalkPhase::Reading;
        std::mem::swap(&mut phase, &mut self.phase);
        let (display, real_rel, directory) = match phase {
            WalkPhase::Visiting { display, real_rel, directory } => (display, real_rel, directory),
            _ => {
                assert(false);
                (Vec::new(), Vec::new(), None)
            },
        };
        let action = match action {
            Ok(action) => action,
            Err(error) => {
                return AfterVisit::Failed { error };
            },
        };
        match action {
            WalkAction::Stop => AfterVisit::Stop,
            WalkAction::SkipDirectory => AfterVisit::Next,
            WalkAction::Continue => match directory {
                None => AfterVisit::Next,
                Some((dev, ino)) => {
                    let depth: usize = self.frames.len() - 1;
                    if depth >= self.limits.max_depth {
                        return AfterVisit::Failed {
                            error: walk_limit_exceeded(
                                AdmissionResource::WalkDepth,
                                self.limits.max_depth,
                                depth.checked_add(1),
                            ),
                        };
                    }
                    let ghost known = self.visited_dirs.view();
                    if !self.visited_dirs.insert(dev, ino) {
                        assert(known.insert((dev, ino)) =~= known);
                        return AfterVisit::Next;
                    }
                    let ghost before = frame_paths(self.frames@);
                    self.frames.push(Frame { display, real_rel });
                    proof {
                        assert(frame_paths(self.frames@) =~= before.push((display@, real_rel@)));
                        assert forall|i: int| 0 <= i < self.frames@.len() implies lies_beneath(
                            #[trigger] frame_paths(self.frames@)[i].1,
                            self.real_root@,
                        ) by {
                            if i < before.len() {
                                assert(frame_paths(self.frames@)[i] == before[i]);
                            }
                        }
                    }
                    AfterVisit::Descend
                },
            },
        }
    }
}

// ---------------------------------------------------------------------------------------------
// Roots
// ---------------------------------------------------------------------------------------------

/// How a root is traversed.
#[derive(Debug)]
pub enum RootStep {
    /// A single file, which is shown to the visitor.
    File { name: Vec<u8>, is_symlink: bool },
    /// A directory, which is read.
    Directory,
    Failed { error: AnyError },
}

/// What is decided about a root, as a value.
pub enum RootDecision {
    File { name: Seq<u8>, is_symlink: bool },
    Directory,
    Failed(Fault),
}

/// Why a root is not opened.
pub open spec fn root_fault(
    display: Seq<u8>,
    single: Option<Seq<u8>>,
    cancelled: bool,
) -> Option<Fault> {
    if cancelled {
        Some(walk_cancelled_fault("directory traversal was cancelled"@))
    } else {
        public_fault(display, single)
    }
}

/// Checks a root before it is opened.
pub fn check_root(display: &[u8], single: &Option<Vec<u8>>, cancelled: bool) -> (checked: Result<
    (),
    AnyError,
>)
    ensures
        ended(checked, root_fault(display@, single_view(*single), cancelled)),
{
    if cancelled {
        return Err(walk_cancelled("directory traversal was cancelled"));
    }
    check_public_rel(display, single)
}

impl Traversal {
    /// What is decided about an opened root that the filter let through.
    pub open spec fn root_decision(
        self,
        display: Seq<u8>,
        real_rel: Seq<u8>,
        metadata: Metadata,
    ) -> RootDecision {
        if metadata.spec_is_file() {
            if self.count_fault() is Some {
                RootDecision::Failed(self.count_fault()->Some_0)
            } else {
                match last_name(parts(display)) {
                    None => RootDecision::Failed(
                        failed(
                            FsKind::Conflict,
                            "validating a file traversal root"@,
                            said("file traversal root has no basename"@),
                        ),
                    ),
                    Some(name) => match basename_fault(name) {
                        Some(fault) => RootDecision::Failed(
                            failed(
                                FsKind::Conflict,
                                "validating a file traversal-root basename"@,
                                fault,
                            ),
                        ),
                        None => RootDecision::File {
                            name,
                            is_symlink: !same_parts(display, real_rel),
                        },
                    },
                }
            }
        } else if !metadata.spec_is_dir() {
            RootDecision::Failed(
                failed(
                    FsKind::Conflict,
                    "validating a traversal root"@,
                    said("traversal root is neither a regular file nor a directory"@),
                ),
            )
        } else {
            RootDecision::Directory
        }
    }

    /// What starting an opened root leads to.
    pub open spec fn root_started(
        before: Traversal,
        after: Traversal,
        display: Seq<u8>,
        real_rel: Seq<u8>,
        metadata: Metadata,
        step: RootStep,
    ) -> bool {
        &&& after.wf()
        &&& after.limits == before.limits
        &&& after.phase is Reading
        &&& match (before.root_decision(display, real_rel, metadata), step) {
            (RootDecision::Failed(fault), RootStep::Failed { error }) => {
                &&& error@ == fault
                &&& after.visited_dirs == before.visited_dirs
                &&& after.frames@.len() == 0
            },
            (
                RootDecision::File { name: wanted, is_symlink: link },
                RootStep::File { name, is_symlink },
            ) => {
                &&& name@ == wanted
                &&& is_symlink == link
                &&& after.visited_entries == before.visited_entries + 1
                &&& after.visited_dirs == before.visited_dirs
                &&& after.frames@.len() == 0
            },
            (RootDecision::Directory, RootStep::Directory) => {
                &&& after.visited_entries == before.visited_entries
                &&& after.visited_dirs.view() == before.visited_dirs.view().insert(
                    metadata.identity(),
                )
                &&& after.real_root@ == real_rel
                &&& frame_paths(after.frames@) == seq![(display, real_rel)]
            },
            _ => false,
        }
    }

    /// Starts an opened root that the filter let through. A root that an earlier root led into
    /// is read all the same.
    pub fn start_root(&mut self, display: Vec<u8>, real_rel: Vec<u8>, metadata: Metadata) -> (step:
        RootStep)
        requires
            old(self).wf(),
            old(self).phase is Reading,
            old(self).frames@.len() == 0,
        ensures
            Traversal::root_started(*old(self), *final(self), display@, real_rel@, metadata, step),
    {
        if metadata.is_file() {
            match self.count() {
                Ok(()) => {},
                Err(error) => {
                    return RootStep::Failed { error };
                },
            }
            let name = match file_name(display.as_slice()) {
                Some(name) => name,
                None => {
                    return RootStep::Failed {
                        error: AnyError::filesystem(
                            FsError::conflict(
                                "validating a file traversal root",
                                AnyError::message("file traversal root has no basename"),
                            ),
                        ),
                    };
                },
            };
            match validate_basename(name.as_slice()) {
                Ok(()) => {},
                Err(error) => {
                    return RootStep::Failed {
                        error: AnyError::filesystem(
                            FsError::conflict("validating a file traversal-root basename", error),
                        ),
                    };
                },
            }
            let is_symlink = !same_path(display.as_slice(), real_rel.as_slice());
            return RootStep::File { name, is_symlink };
        }
        if !metadata.is_dir() {
            return RootStep::Failed {
                error: AnyError::filesystem(
                    FsError::conflict(
                        "validating a traversal root",
                        AnyError::message(
                            "traversal root is neither a regular file nor a directory",
                        ),
                    ),
                ),
            };
        }
        let _fresh = self.visited_dirs.insert(metadata.dev, metadata.ino);
        self.real_root = copy_bytes(real_rel.as_slice());
        self.frames.push(Frame { display, real_rel });
        proof {
            assert(frame_paths(self.frames@) =~= seq![(display@, real_rel@)]);
            assert(parts(real_rel@).take(parts(real_rel@).len() as int) =~= parts(real_rel@));
            assert(lies_beneath(real_rel@, real_rel@));
        }
        RootStep::Directory
    }
}

// ---------------------------------------------------------------------------------------------
// One directory
// ---------------------------------------------------------------------------------------------

/// The reading of the entries of one directory. What had to be left out is remembered.
#[derive(Debug)]
pub struct DirectoryScan {
    pub real_rel: Vec<u8>,
    pub max_entries: usize,
    pub visited_entries: usize,
    pub truncated: bool,
    /// The entry being opened.
    pub opening: Option<(Vec<u8>, Vec<u8>)>,
}

#[derive(Debug)]
pub enum ScanStep {
    /// The reading is over.
    End,
    Skip,
    Open { requested: Vec<u8> },
    Failed { error: AnyError },
}

/// What is decided about an entry of the directory, as a value. The flag tells that something is
/// left out.
pub enum ScanDecision {
    End { truncates: bool },
    Skip { truncates: bool },
    Open(Seq<u8>),
    Failed(Fault),
}

/// What opening an entry of the directory gave.
#[allow(inconsistent_fields)]
#[derive(Debug)]
pub enum ScanObserved {
    Unopened { error: AnyError },
    Unread { error: AnyError },
    Untraced { error: AnyError },
    Known { real_rel: Vec<u8>, nofollow: Result<Metadata, OsFailure> },
}

/// What is decided about an opened entry of the directory, as a value.
pub enum ScanVisit {
    Skip,
    Visit { is_symlink: bool, truncates: bool },
    Failed(Fault),
}

/// Why the reading stops before an entry.
pub open spec fn listing_stop(running: bool, cancelled: bool) -> Option<Fault> {
    if !running {
        Some(walk_cancelled_fault("directory listing stopped during server shutdown"@))
    } else if cancelled {
        Some(walk_cancelled_fault("directory listing was cancelled"@))
    } else {
        None
    }
}

impl DirectoryScan {
    /// No more entries were looked at than may be, and an entry being opened is asked for under
    /// the directory's path.
    pub open spec fn wf(self) -> bool {
        &&& self.visited_entries <= self.max_entries
        &&& (self.opening matches Some((name, requested)) ==> requested@ == joined(
            self.real_rel@,
            name@,
        ))
    }

    pub fn visit_dir(real_rel: Vec<u8>, max_entries: usize) -> (scan: DirectoryScan)
        ensures
            scan.wf(),
            scan.real_rel == real_rel,
            scan.max_entries == max_entries,
            scan.visited_entries == 0,
            !scan.truncated,
            scan.opening is None,
    {
        DirectoryScan { real_rel, max_entries, visited_entries: 0, truncated: false, opening: None }
    }

    pub open spec fn scan_decision(self, running: bool, cancelled: bool, entry: NextEntry) -> ScanDecision {
        match entry {
            NextEntry::Unreadable { error } => ScanDecision::Failed(
                typed_fault("opening a directory listing"@, error@),
            ),
            NextEntry::End => ScanDecision::End { truncates: false },
            _ => match listing_stop(running, cancelled) {
                Some(fault) => ScanDecision::Failed(fault),
                None => match entry {
                    NextEntry::Failed { error } => ScanDecision::Failed(
                        typed_fault("reading a directory entry"@, error@),
                    ),
                    NextEntry::Name { name } => if is_dots(name@) {
                        ScanDecision::Skip { truncates: false }
                    } else if self.visited_entries >= self.max_entries {
                        ScanDecision::End { truncates: true }
                    } else if basename_fault(name@) is Some {
                        ScanDecision::Skip { truncates: true }
                    } else {
                        ScanDecision::Open(joined(self.real_rel@, name@))
                    },
                    _ => ScanDecision::End { truncates: false },
                },
            },
        }
    }

    /// What reading an entry of the directory leads to.
    pub open spec fn entry_taken(
        before: DirectoryScan,
        after: DirectoryScan,
        running: bool,
        cancelled: bool,
        entry: NextEntry,
        step: ScanStep,
    ) -> bool {
        &&& after.wf()
        &&& after.real_rel == before.real_rel
        &&& after.max_entries == before.max_entries
        &&& match (before.scan_decision(running, cancelled, entry), step) {
            (ScanDecision::Failed(fault), ScanStep::Failed { error }) => {
                &&& error@ == fault
                &&& after == before
            },
            (ScanDecision::End { truncates }, ScanStep::End) => {
                &&& after.truncated == (before.truncated || truncates)
                &&& after.visited_entries == before.visited_entries
                &&& after.opening is None
            },
            (ScanDecision::Skip { truncates }, ScanStep::Skip) => {
                &&& after.truncated == (before.truncated || truncates)
                &&& after.visited_entries == before.visited_entries + (if truncates {
                    1int
                } else {
                    0
                })
                &&& after.opening is None
            },
            (ScanDecision::Open(path), ScanStep::Open { requested }) => {
                &&& requested@ == path
                &&& after.truncated == before.truncated
                &&& after.visited_entries == before.visited_entries + 1
                &&& after.opening matches Some((n, r)) && r@ == path && (
                entry matches NextEntry::Name { name } && n@ == name@)
            },
            _ => false,
        }
    }

    /// Takes what was read from the directory.
    pub fn next_entry(&mut self, running: bool, cancelled: bool, entry: NextEntry) -> (step:
        ScanStep)
        requires
            old(self).wf(),
            old(self).opening is None,
        ensures
            DirectoryScan::entry_taken(*old(self), *final(self), running, cancelled, entry, step),
    {
        match entry {
            NextEntry::Unreadable { error } => ScanStep::Failed {
                error: typed_filesystem_error("opening a directory listing", error),
            },
            NextEntry::End => ScanStep::End,
            NextEntry::Failed { error } => {
                if !running {
                    return ScanStep::Failed {
                        error: walk_cancelled("directory listing stopped during server shutdown"),
                    };
                }
                if cancelled {
                    return ScanStep::Failed {
                        error: walk_cancelled("directory listing was cancelled"),
                    };
                }
                ScanStep::Failed {
                    error: typed_filesystem_error("reading a directory entry", error),
                }
            },
            NextEntry::Name { name } => {
                if !running {
                    return ScanStep::Failed {
                        error: walk_cancelled("directory listing stopped during server shutdown"),
                    };
                }
                if cancelled {
                    return ScanStep::Failed {
                        error: walk_cancelled("directory listing was cancelled"),
                    };
                }
                if names_itself(name.as_slice()) {
                    return ScanStep::Skip;
                }
                if self.visited_entries >= self.max_entries {
                    self.truncated = true;
                    return ScanStep::End;
                }
                self.visited_entries = self.visited_entries + 1;
                match validate_basename(name.as_slice()) {
                    Ok(()) => {},
                    Err(_) => {
                        self.truncated = true;
                        return ScanStep::Skip;
                    },
                }
                let requested = join(self.real_rel.as_slice(), name.as_slice());
                let kept = copy_bytes(requested.as_slice());
                self.opening = Some((name, kept));
                ScanStep::Open { requested }
            },
        }
    }

    pub open spec fn visit_decision(requested: Seq<u8>, observed: ScanObserved) -> ScanVisit {
        match observed {
            ScanObserved::Unopened { error } => {
                let typed = typed_fault("opening a directory entry"@, error@);
                if is_unavailable(typed) {
                    ScanVisit::Skip
                } else {
                    ScanVisit::Failed(typed)
                }
            },
            ScanObserved::Unread { error } => ScanVisit::Failed(
                typed_fault("reading directory-entry metadata"@, error@),
            ),
            ScanObserved::Untraced { error } => if is_unavailable(error@) {
                ScanVisit::Skip
            } else {
                ScanVisit::Failed(error@)
            },
            ScanObserved::Known { real_rel, nofollow } => match nofollow {
                Ok(named) => ScanVisit::Visit {
                    is_symlink: named.type_bits() == SYMBOLIC_LINK || !same_parts(
                        real_rel@,
                        requested,
                    ),
                    truncates: false,
                },
                Err(failure) => if failure.errno == Errno::NoEnt {
                    ScanVisit::Visit {
                        is_symlink: !same_parts(real_rel@, requested),
                        truncates: true,
                    }
                } else {
                    ScanVisit::Failed(
                        typed_fault(
                            "inspecting a directory entry without following symlinks"@,
                            failure.fault(),
                        ),
                    )
                },
            },
        }
    }

    /// What opening the entry leads to.
    pub open spec fn entry_inspected(
        before: DirectoryScan,
        after: DirectoryScan,
        observed: ScanObserved,
        step: VisitStep,
    ) -> bool {
        &&& after.wf()
        &&& after.real_rel == before.real_rel
        &&& after.max_entries == before.max_entries
        &&& after.visited_entries == before.visited_entries
        &&& after.opening is None
        &&& match (
            DirectoryScan::visit_decision((before.opening->Some_0).1@, observed),
            step,
        ) {
            (ScanVisit::Failed(fault), VisitStep::Failed { error }) => error@ == fault
                && after.truncated == before.truncated,
            (ScanVisit::Skip, VisitStep::Skip) => after.truncated,
            (
                ScanVisit::Visit { is_symlink: link, truncates },
                VisitStep::Visit { name, is_symlink },
            ) => {
                &&& is_symlink == link
                &&& name@ == (before.opening->Some_0).0@
                &&& after.truncated == (before.truncated || truncates)
            },
            _ => false,
        }
    }

    /// Takes what opening the entry gave.
    pub fn inspected(&mut self, observed: ScanObserved) -> (step: VisitStep)
        requires
            old(self).wf(),
            old(self).opening is Some,
        ensures
            DirectoryScan::entry_inspected(*old(self), *final(self), observed, step),
    {
        let mut opening = None;
        std::mem::swap(&mut opening, &mut self.opening);
        let (name, requested) = match opening {
            Some((name, requested)) => (name, requested),
            None => {
                assert(false);
                (Vec::new(), Vec::new())
            },
        };
        match observed {
            ScanObserved::Unopened { error } => {
                let error = typed_filesystem_error("opening a directory entry", error);
                if unavailable_capability_entry(&error) {
                    self.truncated = true;
                    return VisitStep::Skip;
                }
                VisitStep::Failed { error }
            },
            ScanObserved::Unread { error } => VisitStep::Failed {
                error: typed_filesystem_error("reading directory-entry metadata", error),
            },
            ScanObserved::Untraced { error } => {
                if unavailable_capability_entry(&error) {
                    self.truncated = true;
                    return VisitStep::Skip;
                }
                VisitStep::Failed { error }
            },
            ScanObserved::Known { real_rel, nofollow } => {
                let elsewhere = !same_path(real_rel.as_slice(), requested.as_slice());
                match nofollow {
                    Ok(named) => VisitStep::Visit {
                        name,
                        is_symlink: named.is_symlink() || elsewhere,
                    },
                    Err(failure) => {
                        if failure.errno == Errno::NoEnt {
                            self.truncated = true;
                            return VisitStep::Visit { name, is_symlink: elsewhere };
                        }
                        VisitStep::Failed {
                            error: typed_filesystem_error(
                                "inspecting a directory entry without following symlinks",
                                failure.into_error(),
                            ),
                        }
                    },
                }
            },
        }
    }

    /// What the decision of the visitor leads to.
    pub open spec fn entry_visited(
        before: DirectoryScan,
        after: DirectoryScan,
        more: Result<bool, AnyError>,
        ended_by: Result<bool, AnyError>,
    ) -> bool {
        &&& after.wf()
        &&& after.real_rel == before.real_rel
        &&& after.max_entries == before.max_entries
        &&& after.visited_entries == before.visited_entries
        &&& after.opening is None
        &&& ended_by == more
        &&& after.truncated == (before.truncated || more == Ok::<bool, AnyError>(false))
    }

    /// Takes the visitor's decision: whether the reading goes on. An early end leaves entries out.
    pub fn visited(&mut self, more: Result<bool, AnyError>) -> (ended_by: Result<bool, AnyError>)
        requires
            old(self).wf(),
            old(self).opening is None,
        ensures
            DirectoryScan::entry_visited(*old(self), *final(self), more, ended_by),
    {
        if let Ok(false) = more {
            self.truncated = true;
        }
        more
    }
}

// ---------------------------------------------------------------------------------------------
// What every traversal keeps
// ---------------------------------------------------------------------------------------------

/// Whatever a traversal or the reading of one directory meets, it looks at no more entries than
/// its limit, and a traversal goes no deeper than it may.
pub proof fn law_walks_stay_within_their_limits(walk: Traversal, scan: DirectoryScan)
    requires
        walk.wf(),
        scan.wf(),
    ensures
        walk.visited_entries <= walk.limits.max_entries,
        walk.frames@.len() <= walk.limits.max_depth + 1,
        scan.visited_entries <= scan.max_entries,
{
}

/// A strict traversal passes over nothing: every entry is visited or ends it.
pub proof fn law_strict_traversal_passes_over_nothing(
    walk: Traversal,
    requested: Seq<u8>,
    observed: Observed,
)
    requires
        walk.limits.fail_on_unavailable,
    ensures
        !(walk.visit_decision(requested, observed) is Skip),
{
}

/// A failure that is not absence is never passed over: an entry that exists and cannot be opened
/// or read ends a traversal and a listing alike.
pub proof fn law_only_absence_is_passed_over(
    walk: Traversal,
    requested: Seq<u8>,
    error: AnyError,
)
    requires
        error@.typed(),
        !is_unavailable(error@),
    ensures
        walk.visit_decision(requested, Observed::Unopened { error }) == VisitDecision::Failed(
            error@,
        ),
        walk.visit_decision(requested, Observed::Untraced { error }) == VisitDecision::Failed(
            error@,
        ),
        DirectoryScan::visit_decision(requested, ScanObserved::Unopened { error })
            == ScanVisit::Failed(error@),
        DirectoryScan::visit_decision(requested, ScanObserved::Untraced { error })
            == ScanVisit::Failed(error@),
{
}

/// Whatever is shown to a visitor lies beneath the traversal's root.
pub proof fn law_visits_stay_beneath_the_root(
    walk: Traversal,
    requested: Seq<u8>,
    observed: Observed,
)
    ensures
        walk.visit_decision(requested, observed) matches VisitDecision::Visit { real_rel, .. }
            ==> lies_beneath(real_rel, walk.real_root@),
{
}

/// A directory is entered only the first time it is met, and never below the depth limit.
pub proof fn law_directories_are_entered_once(
    walk: Traversal,
    directory: Option<(u64, u64)>,
    action: Result<WalkAction, AnyError>,
)
    ensures
        walk.after_decision(directory, action) is Descend ==> {
            &&& directory matches Some(identity) && !walk.visited_dirs.view().contains(identity)
            &&& walk.frames@.len() <= walk.limits.max_depth
        },
{
}

// ---------------------------------------------------------------------------------------------
// What a traversal and a listing reach
// ---------------------------------------------------------------------------------------------

/// Every entry of a directory is opened, whatever its name: a traversal passes over nothing but
/// the two names that every directory has. It goes on to its end unless it is cancelled, meets a
/// name that no entry can have, or has looked at as many entries as it may.
pub proof fn law_every_entry_is_opened(
    before: Traversal,
    after: Traversal,
    cancelled: bool,
    name: Vec<u8>,
    step: EntryStep,
)
    requires
        Traversal::entry_taken(before, after, cancelled, NextEntry::Name { name }, step),
    ensures
        step is Skip <==> !cancelled && (name@ == seq![46u8] || name@ == seq![46u8, 46u8]),
        step is Open <==> {
            &&& !cancelled
            &&& name@.len() > 0 && name@ != seq![46u8] && name@ != seq![46u8, 46u8]
            &&& forall|i: int| 0 <= i < name@.len() ==> #[trigger] name@[i] != 0 && name@[i] != 47
            &&& before.visited_entries < before.limits.max_entries
        },
        step matches EntryStep::Open { requested } ==> {
            &&& requested@ == joined(frame_paths(before.frames@).last().1, name@)
            &&& after.visited_entries == before.visited_entries + 1
            &&& after.frames == before.frames
            &&& after.phase matches WalkPhase::Opening { name: kept, .. } && kept@ == name@
        },
        step is Skip || step is Open || step is Failed,
        !(step is Open) ==> after.visited_entries == before.visited_entries && after.phase
            is Reading,
{
    crate::filesystem::resolve::law_names_of_entries(name@);
}

/// A directory is left exactly at its end, and then its parent goes on; what cannot be read ends
/// the traversal.
pub proof fn law_directories_are_read_to_their_end(
    before: Traversal,
    after: Traversal,
    cancelled: bool,
    entry: NextEntry,
    step: EntryStep,
)
    requires
        Traversal::entry_taken(before, after, cancelled, entry, step),
    ensures
        step is Leave <==> entry is End,
        step is Leave ==> frame_paths(after.frames@) == frame_paths(before.frames@).drop_last()
            && after.visited_entries == before.visited_entries && after.phase is Reading,
        entry is Unreadable || entry is Failed ==> step is Failed,
        cancelled && !(entry is End) ==> step is Failed,
        !(step is Leave) ==> after.frames == before.frames,
{
}

/// What opens beneath the traversal's root is shown to the visitor, whatever kind of thing it is:
/// under its own name, at the place where it really lies, as a link where it was reached by one,
/// and as a directory with its identity.
pub proof fn law_every_opened_entry_is_visited(
    before: Traversal,
    after: Traversal,
    metadata: Metadata,
    real_rel: Vec<u8>,
    nofollow: Metadata,
    step: VisitStep,
)
    requires
        before.phase is Opening,
        Traversal::entry_inspected(
            before,
            after,
            Observed::Known { metadata, real_rel, nofollow: Ok(nofollow), duplicated: Ok(()) },
            step,
        ),
        stripped(parts(real_rel@), parts(before.real_root@)) is Some,
    ensures
        ({
            let name = before.phase->Opening_name;
            let requested = before.phase->Opening_requested;
            &&& step matches VisitStep::Visit { name: shown, is_symlink } && shown@ == name@ && (
            is_symlink <==> nofollow.mode & 0o170000 == 0o120000 || parts(real_rel@) != parts(
                requested@,
            ))
            &&& after.phase matches WalkPhase::Visiting { display, real_rel: place, directory }
                && place@ == real_rel@ && display@ == joined(
                frame_paths(before.frames@).last().0,
                name@,
            ) && directory == (if metadata.mode & 0o170000 == 0o040000 {
                Some((metadata.dev, metadata.ino))
            } else {
                None
            })
        }),
{
}

/// Opening an entry leads to a visit, to the end of the traversal, or to passing the entry over;
/// a strict traversal never passes over, and another one only what is gone or lies elsewhere.
pub proof fn law_what_is_passed_over_is_unavailable(
    before: Traversal,
    after: Traversal,
    observed: Observed,
    step: VisitStep,
)
    requires
        before.phase is Opening,
        Traversal::entry_inspected(before, after, observed, step),
    ensures
        before.limits.fail_on_unavailable ==> !(step is Skip),
        step is Visit ==> observed is Known,
        step is Skip ==> match observed {
            Observed::Unopened { error } => is_unavailable(
                typed_fault("opening a traversed directory entry"@, error@),
            ),
            Observed::Unread { .. } => false,
            Observed::Untraced { error } => is_unavailable(error@),
            Observed::Known { real_rel, nofollow, .. } => stripped(
                parts(real_rel@),
                parts(before.real_root@),
            ) is None || (nofollow matches Err(failure) && failure.errno == Errno::NoEnt),
        },
{
}

/// The visitor decides: a directory is entered wherever the visitor goes on, unless it was
/// entered before or lies too deep, and everything else goes on in the directory that is read.
pub proof fn law_visitors_decide(
    before: Traversal,
    after: Traversal,
    action: Result<WalkAction, AnyError>,
    step: AfterVisit,
)
    requires
        before.phase is Visiting,
        Traversal::entry_visited(before, after, action, step),
    ensures
        ({
            let directory = before.phase->Visiting_directory;
            let entered = directory matches Some(id) && before.visited_dirs.view().contains(id);
            &&& step is Stop <==> action == Ok::<WalkAction, AnyError>(WalkAction::Stop)
            &&& step is Descend <==> {
                &&& action == Ok::<WalkAction, AnyError>(WalkAction::Continue)
                &&& directory is Some
                &&& before.frames@.len() <= before.limits.max_depth
                &&& !entered
            }
            &&& step is Failed <==> action is Err || {
                &&& action == Ok::<WalkAction, AnyError>(WalkAction::Continue)
                &&& directory is Some
                &&& before.frames@.len() > before.limits.max_depth
            }
            &&& step is Descend ==> {
                &&& after.frames@.len() == before.frames@.len() + 1
                &&& frame_paths(after.frames@).last() == (
                    before.phase->Visiting_display@,
                    before.phase->Visiting_real_rel@,
                )
                &&& after.visited_dirs.view().contains(directory->Some_0)
            }
            &&& !(step is Descend) ==> after.frames == before.frames
        }),
{
    if step is Descend {
        assert(frame_paths(after.frames@).len() == after.frames@.len());
    }
}

/// A root that is a directory is read, and one that is a file is visited as itself; only what is
/// neither is refused, or a file for which there is no room or no name.
pub proof fn law_roots_are_traversed(
    before: Traversal,
    after: Traversal,
    display: Seq<u8>,
    real_rel: Seq<u8>,
    metadata: Metadata,
    step: RootStep,
)
    requires
        Traversal::root_started(before, after, display, real_rel, metadata, step),
    ensures
        step is Directory <==> metadata.mode & 0o170000 == 0o040000,
        step is Directory ==> {
            &&& after.real_root@ == real_rel
            &&& frame_paths(after.frames@) == seq![(display, real_rel)]
            &&& after.visited_dirs.view() == before.visited_dirs.view().insert(
                (metadata.dev, metadata.ino),
            )
        },
        step is File <==> {
            &&& metadata.mode & 0o170000 == 0o100000
            &&& before.visited_entries < before.limits.max_entries
            &&& last_name(parts(display)) matches Some(name) && basename_fault(name) is None
        },
        step matches RootStep::File { name, is_symlink } ==> {
            &&& last_name(parts(display)) == Some(name@)
            &&& is_symlink <==> parts(display) != parts(real_rel)
            &&& after.visited_entries == before.visited_entries + 1
        },
{
}

/// A listing opens every entry of its directory, whatever its name, as long as it may look at
/// more. It says that something is left out exactly where it stops early or meets a name that no
/// entry can have.
pub proof fn law_listings_open_every_entry(
    before: DirectoryScan,
    after: DirectoryScan,
    name: Vec<u8>,
    step: ScanStep,
)
    requires
        DirectoryScan::entry_taken(before, after, true, false, NextEntry::Name { name }, step),
    ensures
        ({
            let dots = name@ == seq![46u8] || name@ == seq![46u8, 46u8];
            let fit = name@.len() > 0 && forall|i: int|
                0 <= i < name@.len() ==> #[trigger] name@[i] != 0 && name@[i] != 47;
            let room = before.visited_entries < before.max_entries;
            &&& step is Open <==> !dots && fit && room
            &&& step is End <==> !dots && !room
            &&& step is Skip <==> dots || (room && !fit)
            &&& after.truncated <==> before.truncated || (!dots && !(fit && room))
            &&& step matches ScanStep::Open { requested } ==> requested@ == joined(
                before.real_rel@,
                name@,
            ) && after.visited_entries == before.visited_entries + 1 && (
            after.opening matches Some((kept, _)) && kept@ == name@)
        }),
{
    crate::filesystem::resolve::law_names_of_entries(name@);
    if name@ == seq![46u8] {
        assert(name@.len() == 1 && name@[0] == 46);
    }
    if name@ == seq![46u8, 46u8] {
        assert(name@.len() == 2 && name@[0] == 46 && name@[1] == 46);
    }
}

/// A listing ends without loss at the end of its directory, and with an error where it is stopped
/// or its directory cannot be read.
pub proof fn law_listings_end_with_their_directory(
    before: DirectoryScan,
    after: DirectoryScan,
    running: bool,
    cancelled: bool,
    entry: NextEntry,
    step: ScanStep,
)
    requires
        DirectoryScan::entry_taken(before, after, running, cancelled, entry, step),
    ensures
        entry is End ==> step is End && after.truncated == before.truncated,
        entry is Unreadable || entry is Failed ==> step is Failed,
        !(entry is End) && (!running || cancelled) ==> step is Failed,
        step is Failed ==> after == before,
{
}

/// What a listing opens is shown to the visitor, whatever kind of thing it is; what is gone or
/// lies outside is left out and said to be, and any other failure ends the listing.
pub proof fn law_listings_show_what_opens(
    before: DirectoryScan,
    after: DirectoryScan,
    observed: ScanObserved,
    step: VisitStep,
)
    requires
        before.opening is Some,
        DirectoryScan::entry_inspected(before, after, observed, step),
    ensures
        ({
            let name = (before.opening->Some_0).0;
            let requested = (before.opening->Some_0).1;
            match observed {
                ScanObserved::Known { real_rel, nofollow: Ok(named) } => {
                    &&& step matches VisitStep::Visit { name: shown, is_symlink } && shown@ == name@
                        && (is_symlink <==> named.mode & 0o170000 == 0o120000 || parts(real_rel@)
                        != parts(requested@))
                    &&& after.truncated == before.truncated
                },
                ScanObserved::Known { real_rel, nofollow: Err(failure) } => {
                    &&& failure.errno == Errno::NoEnt <==> step is Visit
                    &&& failure.errno != Errno::NoEnt <==> step is Failed
                    &&& step is Visit ==> after.truncated
                },
                ScanObserved::Unopened { error } => {
                    &&& step is Skip <==> is_unavailable(
                        typed_fault("opening a directory entry"@, error@),
                    )
                    &&& step is Skip || step is Failed
                    &&& step is Skip ==> after.truncated
                },
                ScanObserved::Untraced { error } => {
                    &&& step is Skip <==> is_unavailable(error@)
                    &&& step is Skip || step is Failed
                    &&& step is Skip ==> after.truncated
                },
                ScanObserved::Unread { .. } => step is Failed,
            }
        }),
{
}

/// A strict traversal that meets an entry visits it or fails: no step from reading a name to
/// showing it passes the entry over, unless the name is one that every directory has.
pub proof fn law_a_strict_traversal_visits_every_entry(
    before: Traversal,
    opened: Traversal,
    after: Traversal,
    cancelled: bool,
    name: Vec<u8>,
    first: EntryStep,
    observed: Observed,
    second: VisitStep,
)
    requires
        before.limits.fail_on_unavailable,
        name@ != seq![46u8],
        name@ != seq![46u8, 46u8],
        Traversal::entry_taken(before, opened, cancelled, NextEntry::Name { name }, first),
        first is Open ==> Traversal::entry_inspected(opened, after, observed, second),
    ensures
        first is Failed || (first is Open && (second is Failed || (
        second matches VisitStep::Visit { name: shown, .. } && shown@ == name@))),
{
    law_every_entry_is_opened(before, opened, cancelled, name, first);
    if first is Open {
        law_what_is_passed_over_is_unavailable(opened, after, observed, second);
    }
}

/// A search or a listing ends where the visitor ends it, and says that something may be left out.
pub proof fn law_listings_end_where_the_visitor_ends_them(
    before: DirectoryScan,
    after: DirectoryScan,
    more: Result<bool, AnyError>,
    ended_by: Result<bool, AnyError>,
)
    requires
        DirectoryScan::entry_visited(before, after, more, ended_by),
    ensures
        ended_by == more,
        after.truncated <==> before.truncated || more == Ok::<bool, AnyError>(false),
        after.visited_entries == before.visited_entries,
{
}

/// A traversal begins at a path exactly where the path may be served and the request is still
/// there.
pub proof fn law_traversals_begin_at_served_paths(
    display: Seq<u8>,
    single: Option<Seq<u8>>,
    cancelled: bool,
)
    ensures
        root_fault(display, single, cancelled) is None <==> !cancelled && public_fault(
            display,
            single,
        ) is None,
{
}

/// A listing counts every entry that it reads but the directory's own names.
pub proof fn law_listings_count_what_they_read(
    before: DirectoryScan,
    after: DirectoryScan,
    name: Vec<u8>,
    step: ScanStep,
)
    requires
        DirectoryScan::entry_taken(before, after, true, false, NextEntry::Name { name }, step),
    ensures
        ({
            let dots = name@ == seq![46u8] || name@ == seq![46u8, 46u8];
            let room = before.visited_entries < before.max_entries;
            after.visited_entries == before.visited_entries + if !dots && room {
                1int
            } else {
                0
            }
        }),
{
}

} // verus!
