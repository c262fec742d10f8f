//! Removal of entries and of whole trees.
//!
//! A tree is first read and versioned as a whole, within limits, and only then removed, children
//! before parents. Every removal is preceded by a check that the entry is the one that was
//! planned.
use crate::error::{
    AdmissionError, AdmissionResource, AnyError, Errno, FsError, MutationEndpointRole,
};
use crate::fault::{changed, failed, in_context, said, undurable, Fault, FsKind};
use crate::filesystem::entry::{
    changed_entry, changed_entry_fault, entry_fault, identity_fault, join, same_parts, same_path,
    verify_entry_identity, verify_entry_with_role, EntryExpectation, Metadata,
};
use crate::filesystem::failure::{
    directory_sync_error, fault_of, limit_fault, walk_limit_exceeded, DirectorySyncPoint, OsFailure,
};
use crate::filesystem::resolve::{basename_fault, validate_basename};
use crate::filesystem::visited::DirectorySet;
use crate::filesystem::walk::{is_dots, lies_beneath, names_itself, NextEntry};
use crate::path::{joined, lemma_parts_of_joined, parts, plain_name};
use crate::text::{copy_bytes, digits, lossy, lossy_text, number_text, text2, text3, TextBuilder};
use vstd::prelude::*;

verus! {

/// The error of a request that was cancelled while a tree was read or removed.
pub open spec fn cancelled_fault() -> Fault {
    Fault::Admission {
        error: (AdmissionError::Cancelled { resource: AdmissionResource::WalkEntries }),
    }
}

fn cancelled_error() -> (error: AnyError)
    ensures
        error@ == cancelled_fault(),
{
    AnyError::admission(AdmissionError::cancelled(AdmissionResource::WalkEntries))
}

/// A name that may stand in a directory is one component.
pub proof fn lemma_basenames_are_plain(name: Seq<u8>)
    requires
        basename_fault(name) is None,
    ensures
        plain_name(name),
{
    assert forall|i: int| 0 <= i < name.len() implies #[trigger] name[i] != crate::path::SLASH by {
        if name[i] == crate::path::SLASH {
            assert(name.contains(crate::path::SLASH));
        }
    }
}

/// A joined name lies strictly beneath its directory and whatever that lies beneath.
pub proof fn lemma_joined_lies_beneath(base: Seq<u8>, name: Seq<u8>, above: Seq<u8>)
    requires
        plain_name(name),
        lies_beneath(base, above),
    ensures
        lies_beneath(joined(base, name), above),
        parts(joined(base, name)).len() > parts(above).len(),
{
    lemma_parts_of_joined(base, name);
    let b = parts(base);
    let w = parts(joined(base, name));
    let a = parts(above);
    assert(w.take(a.len() as int) =~= b.take(a.len() as int));
}

// ---------------------------------------------------------------------------------------------
// Planning
// ---------------------------------------------------------------------------------------------

/// One entry to be removed: what it was, and which directory it was in.
#[derive(Debug)]
pub struct PlannedRemoval {
    pub rel: Vec<u8>,
    pub expected: EntryExpectation,
    pub directory: bool,
    pub parent_dev: u64,
    pub parent_ino: u64,
}

/// A planned removal as a value.
pub struct Planned {
    pub rel: Seq<u8>,
    pub expected: EntryExpectation,
    pub directory: bool,
    pub parent: (u64, u64),
}

impl PlannedRemoval {
    pub open spec fn view(self) -> Planned {
        Planned {
            rel: self.rel@,
            expected: self.expected,
            directory: self.directory,
            parent: (self.parent_dev, self.parent_ino),
        }
    }
}

pub open spec fn plan_view(plan: Seq<PlannedRemoval>) -> Seq<Planned> {
    plan.map_values(|entry: PlannedRemoval| entry.view())
}

/// A directory being read for the plan.
#[derive(Debug)]
pub struct PlanFrame {
    pub rel: Vec<u8>,
    /// The version under which the directory was met; the target itself is removed last.
    pub expected: EntryExpectation,
    pub dev: u64,
    pub ino: u64,
    /// How much was planned before the directory was entered.
    pub start: usize,
}

#[derive(Debug)]
pub enum PlanPhase {
    /// The start of a directory.
    Entering,
    Reading,
    /// What the entry is.
    Inspecting { name: Vec<u8> },
    /// The directory that the entry is, opened.
    Opening { rel: Vec<u8>, expected: EntryExpectation },
    Complete,
    Failed,
}

/// The reading of a tree that is to be removed.
pub struct RemovalPlanning {
    /// The path of the tree.
    pub target: Vec<u8>,
    pub max_entries: usize,
    pub max_depth: usize,
    pub entry_count: usize,
    pub visited: DirectorySet,
    pub frames: Vec<PlanFrame>,
    pub plan: Vec<PlannedRemoval>,
    /// Where in the plan the contents of each planned entry start.
    pub starts: Ghost<Seq<int>>,
    pub phase: PlanPhase,
}

#[derive(Debug)]
pub enum PlanStep {
    /// Look at the directory itself and start reading it.
    Enter,
    /// Read the next entry of the innermost directory.
    Read,
    /// Look at this entry of the innermost directory.
    Inspect { name: Vec<u8> },
    /// Open this directory.
    Open { rel: Vec<u8> },
    Complete,
    Failed { error: AnyError },
}

/// What was planned since a directory was entered lies strictly beneath it.
pub open spec fn frame_holds(frame: PlanFrame, plan: Seq<PlannedRemoval>) -> bool {
    &&& frame.start <= plan.len()
    &&& forall|k: int|
        frame.start <= k < plan.len() ==> lies_beneath((#[trigger] plan[k]).rel@, frame.rel@)
            && parts(plan[k].rel@).len() > parts(frame.rel@).len()
}

/// The contents of what was planned since a directory was entered were planned since then, too.
pub open spec fn frame_encloses(frame: PlanFrame, starts: Seq<int>) -> bool {
    forall|k: int| frame.start <= k < starts.len() ==> frame.start <= #[trigger] starts[k]
}

/// The contents of a planned entry stand right before it, from `starts` on, and nothing else
/// stands there. What is not a directory has none.
pub open spec fn contents_come_first(plan: Seq<PlannedRemoval>, starts: Seq<int>) -> bool {
    &&& starts.len() == plan.len()
    &&& forall|k: int|
        0 <= k < plan.len() ==> {
            &&& 0 <= #[trigger] starts[k] <= k
            &&& !plan[k].directory ==> starts[k] == k
        }
    &&& forall|j: int, k: int|
        0 <= k < plan.len() && starts[k] <= j < k ==> {
            &&& lies_beneath((#[trigger] plan[j]).rel@, (#[trigger] plan[k]).rel@)
            &&& parts(plan[j].rel@).len() > parts(plan[k].rel@).len()
            &&& starts[k] <= starts[j]
        }
}

proof fn lemma_contents_come_first_after_push(
    plan: Seq<PlannedRemoval>,
    starts: Seq<int>,
    frame: PlanFrame,
    entry: PlannedRemoval,
)
    requires
        contents_come_first(plan, starts),
        frame_holds(frame, plan),
        frame_encloses(frame, starts),
        entry.rel == frame.rel,
        entry.directory || frame.start == plan.len(),
    ensures
        contents_come_first(plan.push(entry), starts.push(frame.start as int)),
{
    let longer = plan.push(entry);
    let marks = starts.push(frame.start as int);
    assert forall|k: int| 0 <= k < longer.len() implies {
        &&& 0 <= #[trigger] marks[k] <= k
        &&& !longer[k].directory ==> marks[k] == k
    } by {
        if k < plan.len() {
            assert(marks[k] == starts[k]);
        }
    }
    assert forall|j: int, k: int| 0 <= k < longer.len() && marks[k] <= j < k implies {
        &&& lies_beneath((#[trigger] longer[j]).rel@, (#[trigger] longer[k]).rel@)
        &&& parts(longer[j].rel@).len() > parts(longer[k].rel@).len()
        &&& marks[k] <= marks[j]
    } by {
        assert(marks[j] == starts[j]);
        if k < plan.len() {
            assert(marks[k] == starts[k]);
            assert(lies_beneath(plan[j].rel@, plan[k].rel@));
        } else {
            assert(lies_beneath(plan[j].rel@, frame.rel@));
        }
    }
}

/// Every planned entry lies strictly beneath the target.
pub open spec fn plan_beneath(plan: Seq<PlannedRemoval>, target: Seq<u8>) -> bool {
    forall|k: int|
        0 <= k < plan.len() ==> lies_beneath((#[trigger] plan[k]).rel@, target) && parts(
            plan[k].rel@,
        ).len() > parts(target).len()
}

impl RemovalPlanning {
    /// The plan keeps its limits, every entry that was counted is planned or still being dealt
    /// with, each directory being read lies beneath the ones around it, what was planned since a
    /// directory was entered lies beneath that directory, and the contents of each planned
    /// directory come right before it.
    pub open spec fn wf(self) -> bool {
        &&& self.entry_count <= self.max_entries
        &&& self.frames@.len() <= self.max_depth + 1
        &&& self.frames@.len() > 0 ==> self.frames@[0].rel@ == self.target@
        &&& plan_beneath(self.plan@, self.target@)
        &&& contents_come_first(self.plan@, self.starts@)
        &&& forall|i: int|
            0 <= i < self.frames@.len() ==> {
                &&& frame_holds(#[trigger] self.frames@[i], self.plan@)
                &&& frame_encloses(self.frames@[i], self.starts@)
            }
        &&& forall|i: int, j: int|
            0 <= i < j < self.frames@.len() ==> {
                &&& self.frames@[i].start <= self.frames@[j].start
                &&& lies_beneath((#[trigger] self.frames@[j]).rel@, (#[trigger] self.frames@[i]).rel@)
                &&& parts(self.frames@[j].rel@).len() > parts(self.frames@[i].rel@).len()
            }
        &&& match self.phase {
            PlanPhase::Entering | PlanPhase::Reading => {
                &&& self.frames@.len() > 0
                &&& self.plan@.len() + self.frames@.len() == self.entry_count + 1
            },
            PlanPhase::Inspecting { name } => {
                &&& self.frames@.len() > 0
                &&& plain_name(name@)
                &&& self.plan@.len() + self.frames@.len() == self.entry_count
            },
            PlanPhase::Opening { rel, .. } => {
                &&& self.frames@.len() > 0
                &&& self.frames@.len() <= self.max_depth
                &&& self.plan@.len() + self.frames@.len() == self.entry_count
                &&& forall|i: int|
                    0 <= i < self.frames@.len() ==> {
                        &&& lies_beneath(rel@, (#[trigger] self.frames@[i]).rel@)
                        &&& parts(rel@).len() > parts(self.frames@[i].rel@).len()
                    }
            },
            PlanPhase::Complete => self.frames@.len() == 0 && self.plan@.len() == self.entry_count,
            PlanPhase::Failed => true,
        }
    }

    /// What stays the same while a tree is read.
    pub open spec fn same_limits(self, other: RemovalPlanning) -> bool {
        self.target == other.target && self.max_entries == other.max_entries && self.max_depth
            == other.max_depth
    }

    /// A reading that is to enter its target and has planned nothing.
    pub open spec fn begins(
        self,
        target: Seq<u8>,
        expected: EntryExpectation,
        metadata: Metadata,
        max_entries: usize,
        max_depth: usize,
    ) -> bool {
        &&& self.target@ == target
        &&& self.max_entries == max_entries
        &&& self.max_depth == max_depth
        &&& self.entry_count == 0
        &&& self.visited.view() == Set::<(u64, u64)>::empty().insert(metadata.identity())
        &&& self.frames@.len() == 1
        &&& self.frames@[0].rel@ == target
        &&& self.frames@[0].expected == expected
        &&& (self.frames@[0].dev, self.frames@[0].ino) == metadata.identity()
        &&& self.frames@[0].start == 0
        &&& self.plan@.len() == 0
        &&& self.starts@.len() == 0
        &&& self.phase is Entering
    }

    /// Starts with the target, an opened directory.
    pub fn plan_recursive_delete(
        target: Vec<u8>,
        expected: EntryExpectation,
        metadata: &Metadata,
        max_entries: usize,
        max_depth: usize,
    ) -> (planning: RemovalPlanning)
        ensures
            planning.wf(),
            planning.begins(target@, expected, *metadata, max_entries, max_depth),
    {
        let mut visited = DirectorySet::new();
        let _fresh = visited.insert(metadata.dev, metadata.ino);
        let mut frames: Vec<PlanFrame> = Vec::new();
        let kept = copy_bytes(target.as_slice());
        frames.push(
            PlanFrame { rel: target, expected, dev: metadata.dev, ino: metadata.ino, start: 0 },
        );
        RemovalPlanning {
            target: kept,
            max_entries,
            max_depth,
            entry_count: 0,
            visited,
            frames,
            plan: Vec::new(),
            starts: Ghost(Seq::empty()),
            phase: PlanPhase::Entering,
        }
    }

    fn fail(&mut self, error: AnyError) -> (step: PlanStep)
        requires
            old(self).wf(),
        ensures
            final(self).wf(),
            final(self).phase is Failed,
            final(self).plan == old(self).plan,
            final(self).starts == old(self).starts,
            final(self).same_limits(*old(self)),
            step == (PlanStep::Failed { error }),
    {
        self.phase = PlanPhase::Failed;
        PlanStep::Failed { error }
    }

    /// The start of reading a directory.
    pub open spec fn has_entered(
        before: RemovalPlanning,
        after: RemovalPlanning,
        cancelled: bool,
        directory: Result<Metadata, AnyError>,
        step: PlanStep,
    ) -> bool {
        &&& after.wf()
        &&& after.same_limits(before)
        &&& after.plan == before.plan
        &&& after.starts == before.starts
        &&& if cancelled {
            step matches PlanStep::Failed { error } && error@ == cancelled_fault()
                && after.phase is Failed
        } else {
            match directory {
                Err(source) => step == (PlanStep::Failed { error: source }) && after.phase is Failed,
                Ok(metadata) => {
                    &&& step is Read
                    &&& after.phase is Reading
                    &&& after.entry_count == before.entry_count
                    &&& after.visited == before.visited
                    &&& after.frames@.drop_last() == before.frames@.drop_last()
                    &&& after.frames@.last() == (PlanFrame {
                        dev: metadata.dev,
                        ino: metadata.ino,
                        ..before.frames@.last()
                    })
                },
            }
        }
    }

    /// Starts reading the innermost directory. `directory` is what the system tells of it.
    pub fn enter(&mut self, cancelled: bool, directory: Result<Metadata, AnyError>) -> (step:
        PlanStep)
        requires
            old(self).wf(),
            old(self).phase is Entering,
        ensures
            RemovalPlanning::has_entered(*old(self), *final(self), cancelled, directory, step),
    {
        if cancelled {
            return self.fail(cancelled_error());
        }
        match directory {
            Err(error) => self.fail(error),
            Ok(metadata) => {
                let ghost frames = self.frames@;
                let ghost plan = self.plan@;
                match self.frames.pop() {
                    Some(frame) => {
                        let renewed = PlanFrame {
                            rel: frame.rel,
                            expected: frame.expected,
                            dev: metadata.dev,
                            ino: metadata.ino,
                            start: frame.start,
                        };
                        self.frames.push(renewed);
                        proof {
                            assert(frame_holds(frames.last(), plan));
                            assert(self.frames@.drop_last() =~= frames.drop_last());
                            assert forall|i: int| 0 <= i < self.frames@.len() implies {
                                &&& frame_holds(#[trigger] self.frames@[i], plan)
                                &&& frame_encloses(self.frames@[i], self.starts@)
                                &&& self.frames@[i].rel == frames[i].rel
                                &&& self.frames@[i].start == frames[i].start
                            } by {
                                assert(frame_holds(frames[i], plan));
                                assert(frame_encloses(frames[i], self.starts@));
                            }
                        }
                    },
                    None => {
                        assert(false);
                    },
                }
                self.phase = PlanPhase::Reading;
                PlanStep::Read
            },
        }
    }

    /// Why an entry read from a directory ends the planning.
    pub open spec fn name_fault(self, cancelled: bool, entry: NextEntry) -> Option<Fault> {
        match entry {
            NextEntry::Unreadable { error } => Some(error@),
            NextEntry::End => None,
            NextEntry::Failed { error } => Some(
                if cancelled {
                    cancelled_fault()
                } else {
                    error@
                },
            ),
            NextEntry::Name { name } => if cancelled {
                Some(cancelled_fault())
            } else if is_dots(name@) {
                None
            } else if basename_fault(name@) is Some {
                basename_fault(name@)
            } else if self.entry_count >= self.max_entries {
                Some(
                    limit_fault(
                        AdmissionResource::WalkEntries,
                        self.max_entries,
                        Some(
                            if self.entry_count == usize::MAX {
                                usize::MAX
                            } else {
                                (self.entry_count + 1) as usize
                            },
                        ),
                    ),
                )
            } else {
                None
            },
        }
    }

    /// The step after reading an entry of a directory.
    pub open spec fn has_taken(
        before: RemovalPlanning,
        after: RemovalPlanning,
        cancelled: bool,
        entry: NextEntry,
        step: PlanStep,
    ) -> bool {
        &&& after.wf()
        &&& after.same_limits(before)
        &&& match before.name_fault(cancelled, entry) {
            Some(fault) => {
                &&& step matches PlanStep::Failed { error } && error@ == fault
                &&& after.phase is Failed
                &&& after.plan == before.plan
                &&& after.starts == before.starts
            },
            None => match entry {
                NextEntry::End => {
                    let left = before.frames@.last();
                    &&& after.frames@ == before.frames@.drop_last()
                    &&& after.entry_count == before.entry_count
                    &&& after.visited == before.visited
                    &&& if before.frames@.len() == 1 {
                        &&& step is Complete
                        &&& after.phase is Complete
                        &&& after.plan == before.plan
                        &&& after.starts == before.starts
                    } else {
                        let above = before.frames@[before.frames@.len() - 2];
                        &&& step is Read
                        &&& after.phase is Reading
                        &&& after.starts@ == before.starts@.push(left.start as int)
                        &&& plan_view(after.plan@) == plan_view(before.plan@).push(
                            Planned {
                                rel: left.rel@,
                                expected: left.expected,
                                directory: true,
                                parent: (above.dev, above.ino),
                            },
                        )
                    }
                },
                NextEntry::Name { name } => {
                    &&& after.frames == before.frames
                    &&& after.plan == before.plan
                    &&& after.starts == before.starts
                    &&& after.visited == before.visited
                    &&& if is_dots(name@) {
                        &&& step is Read
                        &&& after.phase is Reading
                        &&& after.entry_count == before.entry_count
                    } else {
                        &&& step matches PlanStep::Inspect { name: asked } && asked@ == name@
                        &&& after.phase matches PlanPhase::Inspecting { name: kept } && kept@
                            == name@
                        &&& after.entry_count == before.entry_count + 1
                    }
                },
                _ => false,
            },
        }
    }

    /// Takes what was read from the innermost directory. At its end the directory itself is
    /// planned, after everything inside it; the target is not, for it is removed on its own.
    #[verifier::rlimit(40)]
    pub fn next_entry(&mut self, cancelled: bool, entry: NextEntry) -> (step: PlanStep)
        requires
            old(self).wf(),
            old(self).phase is Reading,
        ensures
            RemovalPlanning::has_taken(*old(self), *final(self), cancelled, entry, step),
    {
        match entry {
            NextEntry::Unreadable { error } => self.fail(error),
            NextEntry::End => self.leave(),
            NextEntry::Failed { error } => {
                if cancelled {
                    return self.fail(cancelled_error());
                }
                self.fail(error)
            },
            NextEntry::Name { name } => {
                if cancelled {
                    return self.fail(cancelled_error());
                }
                if names_itself(name.as_slice()) {
                    return PlanStep::Read;
                }
                match validate_basename(name.as_slice()) {
                    Ok(()) => {},
                    Err(error) => {
                        return self.fail(error);
                    },
                }
                if self.entry_count >= self.max_entries {
                    let observed: usize = if self.entry_count == usize::MAX {
                        usize::MAX
                    } else {
                        self.entry_count + 1
                    };
                    let error = walk_limit_exceeded(
                        AdmissionResource::WalkEntries,
                        self.max_entries,
                        Some(observed),
                    );
                    return self.fail(error);
                }
                proof {
                    lemma_basenames_are_plain(name@);
                }
                self.entry_count = self.entry_count + 1;
                let asked = copy_bytes(name.as_slice());
                self.phase = PlanPhase::Inspecting { name };
                PlanStep::Inspect { name: asked }
            },
        }
    }

    /// Leaves the innermost directory.
    fn leave(&mut self) -> (step: PlanStep)
        requires
            old(self).wf(),
            old(self).phase is Reading,
        ensures
            final(self).wf(),
            final(self).same_limits(*old(self)),
            final(self).frames@ == old(self).frames@.drop_last(),
            final(self).entry_count == old(self).entry_count,
            final(self).visited == old(self).visited,
            if old(self).frames@.len() == 1 {
                &&& step is Complete
                &&& final(self).phase is Complete
                &&& final(self).plan == old(self).plan
                &&& final(self).starts == old(self).starts
            } else {
                let above = old(self).frames@[old(self).frames@.len() - 2];
                let left = old(self).frames@.last();
                &&& step is Read
                &&& final(self).phase is Reading
                &&& final(self).starts@ == old(self).starts@.push(left.start as int)
                &&& plan_view(final(self).plan@) == plan_view(old(self).plan@).push(
                    Planned {
                        rel: left.rel@,
                        expected: left.expected,
                        directory: true,
                        parent: (above.dev, above.ino),
                    },
                )
            },
    {
        let ghost frames = self.frames@;
        let ghost plan = self.plan@;
        let left = match self.frames.pop() {
            Some(left) => left,
            None => {
                assert(false);
                return PlanStep::Complete;
            },
        };
        let n: usize = self.frames.len();
        if n == 0 {
            self.phase = PlanPhase::Complete;
            return PlanStep::Complete;
        }
        let parent_dev = self.frames[n - 1].dev;
        let parent_ino = self.frames[n - 1].ino;
        let removal = PlannedRemoval {
            rel: left.rel,
            expected: left.expected,
            directory: true,
            parent_dev,
            parent_ino,
        };
        self.plan.push(removal);
        let ghost starts = self.starts@;
        proof {
            self.starts@ = starts.push(left.start as int);
            assert(frame_holds(frames[n as int], plan));
            lemma_contents_come_first_after_push(plan, starts, frames[n as int], removal);
            assert(plan_view(self.plan@) =~= plan_view(plan).push(removal.view()));
            assert(lies_beneath(frames[n as int].rel@, frames[0].rel@));
            assert forall|k: int| 0 <= k < self.plan@.len() implies lies_beneath(
                (#[trigger] self.plan@[k]).rel@,
                self.target@,
            ) && parts(self.plan@[k].rel@).len() > parts(self.target@).len() by {
                if k < plan.len() {
                    assert(self.plan@[k] == plan[k]);
                }
            }
            assert forall|i: int| 0 <= i < self.frames@.len() implies {
                &&& frame_holds(#[trigger] self.frames@[i], self.plan@)
                &&& frame_encloses(self.frames@[i], self.starts@)
            } by {
                assert(self.frames@[i] == frames[i]);
                assert(frame_holds(frames[i], plan));
                assert(lies_beneath(frames[n as int].rel@, frames[i].rel@));
                assert(frame_encloses(self.frames@[i], self.starts@)) by {
                    assert(frame_encloses(frames[i], starts));
                }
                assert forall|k: int| frames[i].start <= k < self.plan@.len() implies lies_beneath(
                    (#[trigger] self.plan@[k]).rel@,
                    frames[i].rel@,
                ) && parts(self.plan@[k].rel@).len() > parts(frames[i].rel@).len() by {
                    if k < plan.len() {
                        assert(self.plan@[k] == plan[k]);
                    }
                }
            }
        }
        PlanStep::Read
    }

    /// Why an entry that was looked at ends the planning.
    pub open spec fn entry_fault(self, name: Seq<u8>, stat: Result<Metadata, OsFailure>) -> Option<
        Fault,
    > {
        match stat {
            Err(failure) => Some(
                if failure.errno == Errno::NoEnt {
                    changed(
                        MutationEndpointRole::Target,
                        lossy_text(joined(self.frames@.last().rel@, name)),
                        "entry observed by directory scan"@,
                        "entry disappeared before it could be versioned"@,
                    )
                } else {
                    failure.fault()
                },
            ),
            Ok(metadata) => if metadata.spec_is_dir() && self.frames@.len() > self.max_depth {
                Some(
                    limit_fault(
                        AdmissionResource::WalkDepth,
                        self.max_depth,
                        Some(self.frames@.len() as usize),
                    ),
                )
            } else {
                None
            },
        }
    }

    /// The step after looking at an entry.
    pub open spec fn has_inspected(
        before: RemovalPlanning,
        after: RemovalPlanning,
        stat: Result<Metadata, OsFailure>,
        step: PlanStep,
    ) -> bool {
        &&& after.wf()
        &&& after.same_limits(before)
        &&& match before.phase {
            PlanPhase::Inspecting { name } => match before.entry_fault(name@, stat) {
                Some(fault) => {
                    &&& step matches PlanStep::Failed { error } && error@ == fault
                    &&& after.phase is Failed
                    &&& after.plan == before.plan
                    &&& after.starts == before.starts
                },
                None => match stat {
                    Err(_) => false,
                    Ok(metadata) => {
                        let rel = joined(before.frames@.last().rel@, name@);
                        let held = EntryExpectation::Present { version: metadata.version() };
                        &&& after.frames == before.frames
                        &&& after.entry_count == before.entry_count
                        &&& after.visited == before.visited
                        &&& if metadata.spec_is_dir() {
                            &&& step matches PlanStep::Open { rel: asked } && asked@ == rel
                            &&& after.plan == before.plan
                            &&& after.starts == before.starts
                            &&& after.phase matches PlanPhase::Opening {
                                rel: kept,
                                expected,
                            } && kept@ == rel && expected == held
                        } else {
                            &&& step is Read
                            &&& after.phase is Reading
                            &&& after.starts@ == before.starts@.push(
                                before.plan@.len() as int,
                            )
                            &&& plan_view(after.plan@) == plan_view(
                                before.plan@,
                            ).push(
                                Planned {
                                    rel,
                                    expected: held,
                                    directory: false,
                                    parent: (
                                        before.frames@.last().dev,
                                        before.frames@.last().ino,
                                    ),
                                },
                            )
                        }
                    },
                },
            },
            _ => false,
        }
    }

    /// Takes what the entry is. A directory is opened and read before it is planned; anything
    /// else is planned at once.
    #[verifier::rlimit(40)]
    pub fn inspected(&mut self, stat: Result<Metadata, OsFailure>) -> (step: PlanStep)
        requires
            old(self).wf(),
            old(self).phase is Inspecting,
        ensures
            RemovalPlanning::has_inspected(*old(self), *final(self), stat, step),
    {
        let mut phase = PlanPhase::Failed;
        std::mem::swap(&mut phase, &mut self.phase);
        let name = match phase {
            PlanPhase::Inspecting { name } => name,
            _ => {
                assert(false);
                Vec::new()
            },
        };
        let n: usize = self.frames.len();
        let rel = join(self.frames[n - 1].rel.as_slice(), name.as_slice());
        let metadata = match stat {
            Ok(metadata) => metadata,
            Err(failure) => {
                if failure.errno == Errno::NoEnt {
                    let endpoint = lossy(rel.as_slice());
                    let error = AnyError::filesystem(
                        FsError::changed(
                            MutationEndpointRole::Target,
                            endpoint.as_str(),
                            "entry observed by directory scan",
                            "entry disappeared before it could be versioned",
                        ),
                    );
                    return self.fail(error);
                }
                return self.fail(failure.into_error());
            },
        };
        let expected = EntryExpectation::from_metadata(&metadata);
        proof {
            assert forall|i: int| 0 <= i < self.frames@.len() implies lies_beneath(
                rel@,
                (#[trigger] self.frames@[i]).rel@,
            ) && parts(rel@).len() > parts(self.frames@[i].rel@).len() by {
                if i == n - 1 {
                    let base = self.frames@[i].rel@;
                    assert(parts(base).take(parts(base).len() as int) =~= parts(base));
                } else {
                    assert(lies_beneath(self.frames@[n - 1].rel@, self.frames@[i].rel@));
                }
                lemma_joined_lies_beneath(
                    self.frames@[n - 1].rel@,
                    name@,
                    self.frames@[i].rel@,
                );
            }
        }
        if metadata.is_dir() {
            let depth: usize = n - 1;
            if depth >= self.max_depth {
                let error = walk_limit_exceeded(
                    AdmissionResource::WalkDepth,
                    self.max_depth,
                    Some(n),
                );
                return self.fail(error);
            }
            let asked = copy_bytes(rel.as_slice());
            self.phase = PlanPhase::Opening { rel, expected };
            return PlanStep::Open { rel: asked };
        }
        let ghost plan = self.plan@;
        let removal = PlannedRemoval {
            rel,
            expected,
            directory: false,
            parent_dev: self.frames[n - 1].dev,
            parent_ino: self.frames[n - 1].ino,
        };
        self.plan.push(removal);
        self.phase = PlanPhase::Reading;
        let ghost starts = self.starts@;
        proof {
            self.starts@ = starts.push(plan.len() as int);
            lemma_contents_come_first_after_push(
                plan,
                starts,
                PlanFrame { rel: removal.rel, start: plan.len() as usize, ..self.frames@.last() },
                removal,
            );
            assert(plan_view(self.plan@) =~= plan_view(plan).push(removal.view()));
            assert(lies_beneath(rel@, self.frames@[0].rel@));
            assert forall|k: int| 0 <= k < self.plan@.len() implies lies_beneath(
                (#[trigger] self.plan@[k]).rel@,
                self.target@,
            ) && parts(self.plan@[k].rel@).len() > parts(self.target@).len() by {
                if k < plan.len() {
                    assert(self.plan@[k] == plan[k]);
                }
            }
            assert forall|i: int| 0 <= i < self.frames@.len() implies {
                &&& frame_holds(#[trigger] self.frames@[i], self.plan@)
                &&& frame_encloses(self.frames@[i], self.starts@)
            } by {
                assert(frame_holds(self.frames@[i], plan));
                assert(frame_encloses(self.frames@[i], self.starts@)) by {
                    assert(frame_encloses(self.frames@[i], starts));
                }
                assert forall|k: int|
                    self.frames@[i].start <= k < self.plan@.len() implies lies_beneath(
                    (#[trigger] self.plan@[k]).rel@,
                    self.frames@[i].rel@,
                ) && parts(self.plan@[k].rel@).len() > parts(self.frames@[i].rel@).len() by {
                    if k < plan.len() {
                        assert(self.plan@[k] == plan[k]);
                    }
                }
            }
        }
        PlanStep::Read
    }

    /// Why an opened directory ends the planning.
    pub open spec fn open_fault(
        self,
        rel: Seq<u8>,
        expected: EntryExpectation,
        opened: Result<Metadata, AnyError>,
        described: Seq<char>,
    ) -> Option<Fault> {
        match opened {
            Err(error) => Some(error@),
            Ok(metadata) => {
                let held = EntryExpectation::Present { version: metadata.version() };
                if expected != held {
                    Some(changed_entry_fault(MutationEndpointRole::Target, rel, expected, held))
                } else if self.visited.view().contains(metadata.identity()) {
                    Some(
                        failed(
                            FsKind::Conflict,
                            "planning recursive DELETE"@,
                            said("directory graph contains a repeated inode at "@ + described),
                        ),
                    )
                } else {
                    None
                }
            },
        }
    }

    /// The step after opening a directory.
    pub open spec fn has_opened(
        before: RemovalPlanning,
        after: RemovalPlanning,
        opened: Result<Metadata, AnyError>,
        described: Seq<char>,
        step: PlanStep,
    ) -> bool {
        &&& after.wf()
        &&& after.same_limits(before)
        &&& after.plan == before.plan
        &&& after.starts == before.starts
        &&& match before.phase {
            PlanPhase::Opening { rel, expected } => match before.open_fault(
                rel@,
                expected,
                opened,
                described,
            ) {
                Some(fault) => {
                    &&& step matches PlanStep::Failed { error } && error@ == fault
                    &&& after.phase is Failed
                },
                None => match opened {
                    Err(_) => false,
                    Ok(metadata) => {
                        &&& step is Enter
                        &&& after.phase is Entering
                        &&& after.entry_count == before.entry_count
                        &&& after.visited.view() == before.visited.view().insert(
                            metadata.identity(),
                        )
                        &&& after.frames@.drop_last() == before.frames@
                        &&& after.frames@.last() == (PlanFrame {
                            rel,
                            expected,
                            dev: metadata.dev,
                            ino: metadata.ino,
                            start: before.plan@.len() as usize,
                        })
                    },
                },
            },
            _ => false,
        }
    }

    /// Takes what opening the directory gave. `described` is its path as diagnostics show it.
    #[verifier::rlimit(40)]
    pub fn opened(&mut self, opened: Result<Metadata, AnyError>, described: &str) -> (step:
        PlanStep)
        requires
            old(self).wf(),
            old(self).phase is Opening,
        ensures
            RemovalPlanning::has_opened(*old(self), *final(self), opened, described@, step),
    {
        let ghost before = *self;
        let mut phase = PlanPhase::Failed;
        std::mem::swap(&mut phase, &mut self.phase);
        let (rel, expected) = match phase {
            PlanPhase::Opening { rel, expected } => (rel, expected),
            _ => {
                assert(false);
                (Vec::new(), EntryExpectation::Missing)
            },
        };
        let metadata = match opened {
            Ok(metadata) => metadata,
            Err(error) => {
                return self.fail(error);
            },
        };
        if !expected.matches_metadata(&metadata) {
            let error = changed_entry(
                MutationEndpointRole::Target,
                rel.as_slice(),
                expected,
                EntryExpectation::from_metadata(&metadata),
            );
            return self.fail(error);
        }
        if !self.visited.insert(metadata.dev, metadata.ino) {
            let text = text2("directory graph contains a repeated inode at ", described);
            let error = AnyError::filesystem(
                FsError::conflict("planning recursive DELETE", AnyError::message(text.as_str())),
            );
            return self.fail(error);
        }
        let ghost frames = self.frames@;
        let start: usize = self.plan.len();
        self.frames.push(
            PlanFrame { rel, expected, dev: metadata.dev, ino: metadata.ino, start },
        );
        self.phase = PlanPhase::Entering;
        proof {
            assert(self.frames@.drop_last() =~= frames);
            assert forall|i: int| 0 <= i < self.frames@.len() implies {
                &&& frame_holds(#[trigger] self.frames@[i], self.plan@)
                &&& frame_encloses(self.frames@[i], self.starts@)
            } by {
                if i < frames.len() {
                    assert(self.frames@[i] == frames[i]);
                    assert(frame_holds(before.frames@[i], before.plan@));
                }
            }
            assert forall|i: int, j: int| 0 <= i < j < self.frames@.len() implies {
                &&& self.frames@[i].start <= self.frames@[j].start
                &&& lies_beneath((#[trigger] self.frames@[j]).rel@, (#[trigger] self.frames@[i]).rel@)
                &&& parts(self.frames@[j].rel@).len() > parts(self.frames@[i].rel@).len()
            } by {
                assert(self.frames@[i] == before.frames@[i]);
                assert(frame_holds(before.frames@[i], before.plan@));
                if j < frames.len() {
                    assert(self.frames@[j] == before.frames@[j]);
                }
            }
        }
        PlanStep::Enter
    }
}

/// The plan never holds more entries than the limit allows, and everything planned since a
/// directory was entered lies strictly beneath that directory. A directory is planned when it is
/// left, so it comes after all that was planned inside it.
pub proof fn law_children_are_planned_before_their_directory(planning: RemovalPlanning)
    requires
        planning.wf(),
        planning.phase is Reading,
    ensures
        planning.plan@.len() <= planning.max_entries,
        forall|k: int|
            planning.frames@.last().start <= k < planning.plan@.len() ==> lies_beneath(
                (#[trigger] planning.plan@[k]).rel@,
                planning.frames@.last().rel@,
            ),
{
    assert(frame_holds(planning.frames@[planning.frames@.len() - 1], planning.plan@));
}

/// In a plan the contents of a directory stand right before it: whatever was planned from the
/// directory's start to the directory lies strictly beneath it, and the contents of a directory
/// among them stand there as well. So children are removed before their parents.
pub proof fn law_a_plan_holds_contents_before_their_directory(planning: RemovalPlanning, k: int)
    requires
        planning.wf(),
        0 <= k < planning.plan@.len(),
        planning.plan@[k].directory,
    ensures
        0 <= planning.starts@[k] <= k,
        forall|j: int|
            planning.starts@[k] <= j < k ==> {
                &&& lies_beneath((#[trigger] planning.plan@[j]).rel@, planning.plan@[k].rel@)
                &&& parts(planning.plan@[j].rel@).len() > parts(planning.plan@[k].rel@).len()
                &&& planning.starts@[k] <= planning.starts@[j]
            },
{
}

// ---------------------------------------------------------------------------------------------
// Removing
// ---------------------------------------------------------------------------------------------

/// What a removal waits for.
#[derive(Clone, Copy, Debug, PartialEq, Eq, Structural)]
pub enum RemovalPhase {
    /// A last look at a single entry.
    Confirming { directory: bool },
    /// The target directory, opened.
    Opening,
    /// The plan of a whole tree.
    Planning,
    /// Whether the request is still there.
    Choosing,
    /// A last look at the next planned entry.
    ConfirmingPlanned,
    UnlinkingPlanned,
    SyncingPlanned,
    /// A last look at the emptied target.
    ConfirmingTarget,
    Unlinking { directory: bool },
    Syncing,
    Done,
    Failed,
}

/// The removal of an entry or of a tree.
pub struct Removal {
    /// The path of the target.
    pub target: Vec<u8>,
    pub expected: EntryExpectation,
    pub plan: Vec<PlannedRemoval>,
    /// How many planned entries are gone.
    pub removed: usize,
    pub phase: RemovalPhase,
}

/// What the caller does next.
#[derive(Clone, Copy, Debug, PartialEq, Eq, Structural)]
pub enum RemovalAction {
    /// Look at the target once more.
    Confirm,
    /// Open the target directory.
    OpenTarget,
    /// Tell whether the request is still there.
    Choose,
    /// Open the parent of the next planned entry and look at the entry.
    ConfirmPlanned,
    /// Remove the entry that was just looked at.
    Unlink { directory: bool },
    /// Make the removal durable.
    SyncParent,
    Done,
}

/// What is known of a target before anything is removed.
#[derive(Debug)]
pub struct TargetFacts {
    /// The path that the target resolved to.
    pub resolved: Vec<u8>,
    /// Whether the parent is still where it was.
    pub parent: Result<(), AnyError>,
    /// The entry that is checked against the expectation.
    pub checked: Result<Metadata, OsFailure>,
    /// The entry whose type decides how it is removed.
    pub inspected: Result<Metadata, OsFailure>,
}

/// Why nothing is removed.
pub open spec fn target_fault(rel: Seq<u8>, expected: EntryExpectation, facts: TargetFacts) -> Option<
    Fault,
> {
    if !same_parts(facts.resolved@, rel) {
        Some(said("mutation target resolved to a different capability path"@))
    } else if facts.parent is Err {
        fault_of(facts.parent)
    } else if entry_fault(
        facts.resolved@,
        expected,
        facts.checked,
        MutationEndpointRole::Target,
    ) is Some {
        entry_fault(facts.resolved@, expected, facts.checked, MutationEndpointRole::Target)
    } else {
        match facts.inspected {
            Err(failure) => Some(failure.fault()),
            Ok(_) => None,
        }
    }
}

/// What is known of a planned entry when its turn comes.
#[derive(Debug)]
pub struct PlannedFacts {
    /// Whether the parent opened and is still where it was.
    pub parent: Result<(), AnyError>,
    /// What the system tells of the parent.
    pub parent_metadata: Result<Metadata, AnyError>,
    /// The path that the entry resolved to.
    pub resolved: Vec<u8>,
    pub stat: Result<Metadata, OsFailure>,
}

pub open spec fn directory_text(identity: (u64, u64)) -> Seq<char> {
    "parent "@ + digits(identity.0 as nat) + ":"@ + digits(identity.1 as nat)
}

fn describe_directory(dev: u64, ino: u64) -> (text: String)
    ensures
        text@ == directory_text((dev, ino)),
{
    let dev = number_text(dev);
    let ino = number_text(ino);
    let mut builder = TextBuilder::new();
    builder.push("parent ");
    builder.push(dev.as_str());
    builder.push(":");
    builder.push(ino.as_str());
    assert(builder.view() =~= "parent "@ + dev@ + ":"@ + ino@);
    builder.finish()
}

/// Why a planned entry is not removed: its directory is another one, or the entry is not what
/// was planned. A directory has changed since its children went, so it only has to be the same
/// object; anything else has to be the same version.
pub open spec fn planned_fault(entry: Planned, facts: PlannedFacts) -> Option<Fault> {
    if facts.parent is Err {
        fault_of(facts.parent)
    } else {
        match facts.parent_metadata {
            Err(error) => Some(error@),
            Ok(metadata) => if metadata.identity() != entry.parent {
                Some(
                    changed(
                        MutationEndpointRole::Target,
                        lossy_text(entry.rel),
                        directory_text(entry.parent),
                        directory_text(metadata.identity()),
                    ),
                )
            } else if entry.directory {
                identity_fault(facts.resolved@, entry.expected, facts.stat)
            } else {
                entry_fault(
                    facts.resolved@,
                    entry.expected,
                    facts.stat,
                    MutationEndpointRole::Target,
                )
            },
        }
    }
}

/// The answer to a step: an action and the phase it leads to, or an error, which ends the
/// removal.
pub open spec fn answered(
    after: RemovalPhase,
    result: Result<RemovalAction, AnyError>,
    fault: Option<Fault>,
    action: RemovalAction,
    phase: RemovalPhase,
) -> bool {
    match fault {
        Some(f) => result matches Err(error) && error@ == f && after == RemovalPhase::Failed,
        None => result matches Ok(a) && a == action && after == phase,
    }
}

impl Removal {
    /// Planned entries go one by one, and the target of a tree goes last.
    pub open spec fn wf(self) -> bool {
        &&& self.removed <= self.plan@.len()
        &&& plan_beneath(self.plan@, self.target@)
        &&& match self.phase {
            RemovalPhase::Confirming { .. } | RemovalPhase::Opening | RemovalPhase::Planning => {
                self.plan@.len() == 0
            },
            RemovalPhase::ConfirmingPlanned
            | RemovalPhase::UnlinkingPlanned
            | RemovalPhase::SyncingPlanned => self.removed < self.plan@.len(),
            RemovalPhase::ConfirmingTarget
            | RemovalPhase::Unlinking { .. }
            | RemovalPhase::Syncing
            | RemovalPhase::Done => self.removed == self.plan@.len(),
            RemovalPhase::Choosing | RemovalPhase::Failed => true,
        }
    }

    /// What stays the same during a removal.
    pub open spec fn same_target(self, other: Removal) -> bool {
        self.target == other.target && self.expected == other.expected
    }

    /// The start of a removal, or why nothing is removed.
    pub open spec fn begins(
        rel: Seq<u8>,
        recursive: bool,
        expected: EntryExpectation,
        facts: TargetFacts,
        begun: Result<(Removal, RemovalAction), AnyError>,
    ) -> bool {
        &&& match target_fault(rel, expected, facts) {
            Some(fault) => begun matches Err(error) && error@ == fault,
            None => match (facts.inspected, begun) {
                (Ok(metadata), Ok((removal, action))) => {
                    &&& removal.wf()
                    &&& removal.target == facts.resolved
                    &&& removal.expected == expected
                    &&& removal.plan@.len() == 0
                    &&& if metadata.spec_is_dir() && recursive {
                        removal.phase == RemovalPhase::Opening && action
                            == RemovalAction::OpenTarget
                    } else {
                        removal.phase == (RemovalPhase::Confirming {
                            directory: metadata.spec_is_dir(),
                        }) && action == RemovalAction::Confirm
                    }
                },
                _ => false,
            },
        }
    }

    /// Decides from what is known of the target how it is removed.
    pub fn remove_sync(
        rel: &[u8],
        recursive: bool,
        expected: EntryExpectation,
        facts: TargetFacts,
    ) -> (begun: Result<(Removal, RemovalAction), AnyError>)
        ensures
            Removal::begins(rel@, recursive, expected, facts, begun),
    {
        if !same_path(facts.resolved.as_slice(), rel) {
            return Err(
                AnyError::message("mutation target resolved to a different capability path"),
            );
        }
        match facts.parent {
            Ok(()) => {},
            Err(error) => {
                return Err(error);
            },
        }
        match verify_entry_with_role(
            facts.resolved.as_slice(),
            expected,
            facts.checked,
            MutationEndpointRole::Target,
        ) {
            Ok(()) => {},
            Err(error) => {
                return Err(error);
            },
        }
        let metadata = match facts.inspected {
            Ok(metadata) => metadata,
            Err(failure) => {
                return Err(failure.into_error());
            },
        };
        let directory = metadata.is_dir();
        let (phase, action) = if directory && recursive {
            (RemovalPhase::Opening, RemovalAction::OpenTarget)
        } else {
            (RemovalPhase::Confirming { directory }, RemovalAction::Confirm)
        };
        Ok((Removal { target: facts.resolved, expected, plan: Vec::new(), removed: 0, phase }, action))
    }

    /// Why a single entry is not removed after the last look at it. Only the removal of
    /// something that is no directory asks whether the request is still there.
    pub open spec fn confirm_fault(
        self,
        directory: bool,
        cancelled: bool,
        stat: Result<Metadata, OsFailure>,
    ) -> Option<Fault> {
        if !directory && cancelled {
            Some(cancelled_fault())
        } else {
            entry_fault(self.target@, self.expected, stat, MutationEndpointRole::Target)
        }
    }

    /// The step after the last look at a single entry.
    pub open spec fn has_confirmed(
        before: Removal,
        after: Removal,
        cancelled: bool,
        stat: Result<Metadata, OsFailure>,
        next: Result<RemovalAction, AnyError>,
    ) -> bool {
        &&& after.wf()
        &&& after.same_target(before)
        &&& after.plan == before.plan
        &&& after.removed == before.removed
        &&& before.phase matches RemovalPhase::Confirming { directory } && answered(
            after.phase,
            next,
            before.confirm_fault(directory, cancelled, stat),
            RemovalAction::Unlink { directory },
            RemovalPhase::Unlinking { directory },
        )
    }

    /// Takes the last look at a single entry.
    pub fn confirm(&mut self, cancelled: bool, stat: Result<Metadata, OsFailure>) -> (next: Result<
        RemovalAction,
        AnyError,
    >)
        requires
            old(self).wf(),
            old(self).phase is Confirming,
        ensures
            Removal::has_confirmed(*old(self), *final(self), cancelled, stat, next),
    {
        let directory = match self.phase {
            RemovalPhase::Confirming { directory } => directory,
            _ => false,
        };
        if !directory && cancelled {
            self.phase = RemovalPhase::Failed;
            return Err(cancelled_error());
        }
        match verify_entry_with_role(
            self.target.as_slice(),
            self.expected,
            stat,
            MutationEndpointRole::Target,
        ) {
            Ok(()) => {
                self.phase = RemovalPhase::Unlinking { directory };
                Ok(RemovalAction::Unlink { directory })
            },
            Err(error) => {
                self.phase = RemovalPhase::Failed;
                Err(error)
            },
        }
    }

    /// Why an opened target is not read.
    pub open spec fn opened_fault(
        self,
        opened: Result<Metadata, AnyError>,
        again: Result<Metadata, AnyError>,
    ) -> Option<Fault> {
        match opened {
            Err(error) => Some(error@),
            Ok(metadata) => if self.expected != (EntryExpectation::Present {
                version: metadata.version(),
            }) {
                Some(
                    changed(
                        MutationEndpointRole::Target,
                        lossy_text(self.target@),
                        crate::filesystem::entry::expectation_text(self.expected),
                        "directory fd opened a different version"@,
                    ),
                )
            } else {
                match again {
                    Err(error) => Some(error@),
                    Ok(_) => None,
                }
            },
        }
    }

    /// The step after opening the target directory.
    pub open spec fn has_opened(
        before: Removal,
        after: Removal,
        opened: Result<Metadata, AnyError>,
        again: Result<Metadata, AnyError>,
        max_entries: usize,
        max_depth: usize,
        planning: Result<RemovalPlanning, AnyError>,
    ) -> bool {
        &&& after.wf()
        &&& after.same_target(before)
        &&& after.plan == before.plan
        &&& after.removed == before.removed
        &&& match (before.opened_fault(opened, again), planning) {
            (Some(fault), Err(error)) => error@ == fault && after.phase
                == RemovalPhase::Failed,
            (None, Ok(begun)) => {
                &&& after.phase == RemovalPhase::Planning
                &&& begun.wf()
                &&& again matches Ok(metadata) && begun.begins(
                    before.target@,
                    before.expected,
                    metadata,
                    max_entries,
                    max_depth,
                )
            },
            _ => false,
        }
    }

    /// Takes the opened target directory and starts the plan. The directory is looked at twice:
    /// `opened` is held against the expectation, and `again` tells its identity.
    pub fn opened(
        &mut self,
        opened: Result<Metadata, AnyError>,
        again: Result<Metadata, AnyError>,
        max_entries: usize,
        max_depth: usize,
    ) -> (planning: Result<RemovalPlanning, AnyError>)
        requires
            old(self).wf(),
            old(self).phase is Opening,
        ensures
            Removal::has_opened(*old(self), *final(self), opened, again, max_entries, max_depth, planning),
    {
        let metadata = match opened {
            Ok(metadata) => metadata,
            Err(error) => {
                self.phase = RemovalPhase::Failed;
                return Err(error);
            },
        };
        if !self.expected.matches_metadata(&metadata) {
            self.phase = RemovalPhase::Failed;
            let endpoint = lossy(self.target.as_slice());
            let expected = self.expected.describe();
            return Err(
                AnyError::filesystem(
                    FsError::changed(
                        MutationEndpointRole::Target,
                        endpoint.as_str(),
                        expected.as_str(),
                        "directory fd opened a different version",
                    ),
                ),
            );
        }
        let directory = match again {
            Ok(directory) => directory,
            Err(error) => {
                self.phase = RemovalPhase::Failed;
                return Err(error);
            },
        };
        self.phase = RemovalPhase::Planning;
        let target = copy_bytes(self.target.as_slice());
        Ok(
            RemovalPlanning::plan_recursive_delete(
                target,
                self.expected,
                &directory,
                max_entries,
                max_depth,
            ),
        )
    }

    /// Why a planned tree is not removed: the request has gone, or the target has changed while
    /// the tree was read.
    pub open spec fn planned_target_fault(
        self,
        cancelled: bool,
        stat: Result<Metadata, OsFailure>,
    ) -> Option<Fault> {
        if cancelled {
            Some(cancelled_fault())
        } else {
            entry_fault(self.target@, self.expected, stat, MutationEndpointRole::Target)
        }
    }

    /// The step after the tree was read.
    pub open spec fn has_planned(
        before: Removal,
        after: Removal,
        planning: RemovalPlanning,
        cancelled: bool,
        stat: Result<Metadata, OsFailure>,
        next: Result<RemovalAction, AnyError>,
    ) -> bool {
        &&& after.wf()
        &&& after.same_target(before)
        &&& after.removed == 0
        &&& answered(
            after.phase,
            next,
            before.planned_target_fault(cancelled, stat),
            RemovalAction::Choose,
            RemovalPhase::Choosing,
        )
        &&& next is Ok ==> after.plan == planning.plan
    }

    /// Takes the complete plan. Up to here nothing has been removed.
    pub fn planned(
        &mut self,
        planning: RemovalPlanning,
        cancelled: bool,
        stat: Result<Metadata, OsFailure>,
    ) -> (next: Result<RemovalAction, AnyError>)
        requires
            old(self).wf(),
            old(self).phase is Planning,
            planning.wf(),
            planning.phase is Complete,
            planning.target@ == old(self).target@,
        ensures
            Removal::has_planned(*old(self), *final(self), planning, cancelled, stat, next),
    {
        self.removed = 0;
        if cancelled {
            self.phase = RemovalPhase::Failed;
            return Err(cancelled_error());
        }
        match verify_entry_with_role(
            self.target.as_slice(),
            self.expected,
            stat,
            MutationEndpointRole::Target,
        ) {
            Ok(()) => {
                self.plan = planning.plan;
                self.phase = RemovalPhase::Choosing;
                Ok(RemovalAction::Choose)
            },
            Err(error) => {
                self.phase = RemovalPhase::Failed;
                Err(error)
            },
        }
    }

    /// Why the removal of a tree stops between two entries.
    pub open spec fn choice_fault(self, cancelled: bool) -> Option<Fault> {
        if !cancelled {
            None
        } else if self.removed < self.plan@.len() {
            Some(
                in_context(
                    cancelled_fault(),
                    "recursive DELETE cancelled after removing "@ + digits(self.removed as nat)
                        + " entries"@,
                ),
            )
        } else {
            Some(
                in_context(
                    cancelled_fault(),
                    "recursive DELETE cancelled after removing all children"@,
                ),
            )
        }
    }

    /// The step between two entries.
    pub open spec fn has_proceeded(
        before: Removal,
        after: Removal,
        cancelled: bool,
        next: Result<RemovalAction, AnyError>,
    ) -> bool {
        &&& after.wf()
        &&& after.same_target(before)
        &&& after.plan == before.plan
        &&& after.removed == before.removed
        &&& answered(
            after.phase,
            next,
            before.choice_fault(cancelled),
            if before.removed < before.plan@.len() {
                RemovalAction::ConfirmPlanned
            } else {
                RemovalAction::Confirm
            },
            if before.removed < before.plan@.len() {
                RemovalPhase::ConfirmingPlanned
            } else {
                RemovalPhase::ConfirmingTarget
            },
        )
    }

    /// Goes on to the next planned entry, or to the target once all of them are gone.
    pub fn proceed(&mut self, cancelled: bool) -> (next: Result<RemovalAction, AnyError>)
        requires
            old(self).wf(),
            old(self).phase is Choosing,
        ensures
            Removal::has_proceeded(*old(self), *final(self), cancelled, next),
    {
        if self.removed < self.plan.len() {
            if cancelled {
                self.phase = RemovalPhase::Failed;
                let count = number_text(self.removed as u64);
                let context = text3(
                    "recursive DELETE cancelled after removing ",
                    count.as_str(),
                    " entries",
                );
                return Err(cancelled_error().context(context.as_str()));
            }
            self.phase = RemovalPhase::ConfirmingPlanned;
            return Ok(RemovalAction::ConfirmPlanned);
        }
        if cancelled {
            self.phase = RemovalPhase::Failed;
            return Err(
                cancelled_error().context("recursive DELETE cancelled after removing all children"),
            );
        }
        self.phase = RemovalPhase::ConfirmingTarget;
        Ok(RemovalAction::Confirm)
    }

    /// The step after the last look at a planned entry.
    pub open spec fn has_confirmed_planned(
        before: Removal,
        after: Removal,
        facts: PlannedFacts,
        next: Result<RemovalAction, AnyError>,
    ) -> bool {
        &&& after.wf()
        &&& after.same_target(before)
        &&& after.plan == before.plan
        &&& after.removed == before.removed
        &&& answered(
            after.phase,
            next,
            planned_fault(before.plan@[before.removed as int].view(), facts),
            RemovalAction::Unlink {
                directory: before.plan@[before.removed as int].directory,
            },
            RemovalPhase::UnlinkingPlanned,
        )
    }

    /// Takes the last look at the next planned entry.
    pub fn confirm_planned(&mut self, facts: PlannedFacts) -> (next: Result<RemovalAction, AnyError>)
        requires
            old(self).wf(),
            old(self).phase is ConfirmingPlanned,
        ensures
            Removal::has_confirmed_planned(*old(self), *final(self), facts, next),
    {
        match facts.parent {
            Ok(()) => {},
            Err(error) => {
                self.phase = RemovalPhase::Failed;
                return Err(error);
            },
        }
        let metadata = match facts.parent_metadata {
            Ok(metadata) => metadata,
            Err(error) => {
                self.phase = RemovalPhase::Failed;
                return Err(error);
            },
        };
        let entry = &self.plan[self.removed];
        let directory = entry.directory;
        if metadata.dev != entry.parent_dev || metadata.ino != entry.parent_ino {
            let endpoint = lossy(entry.rel.as_slice());
            let expected = describe_directory(entry.parent_dev, entry.parent_ino);
            let actual = describe_directory(metadata.dev, metadata.ino);
            self.phase = RemovalPhase::Failed;
            return Err(
                AnyError::filesystem(
                    FsError::changed(
                        MutationEndpointRole::Target,
                        endpoint.as_str(),
                        expected.as_str(),
                        actual.as_str(),
                    ),
                ),
            );
        }
        let checked = if directory {
            verify_entry_identity(facts.resolved.as_slice(), entry.expected, facts.stat)
        } else {
            verify_entry_with_role(
                facts.resolved.as_slice(),
                entry.expected,
                facts.stat,
                MutationEndpointRole::Target,
            )
        };
        match checked {
            Ok(()) => {
                self.phase = RemovalPhase::UnlinkingPlanned;
                Ok(RemovalAction::Unlink { directory })
            },
            Err(error) => {
                self.phase = RemovalPhase::Failed;
                Err(error)
            },
        }
    }

    /// The step after the last look at the emptied target.
    pub open spec fn has_confirmed_target(
        before: Removal,
        after: Removal,
        stat: Result<Metadata, OsFailure>,
        next: Result<RemovalAction, AnyError>,
    ) -> bool {
        &&& after.wf()
        &&& after.same_target(before)
        &&& after.plan == before.plan
        &&& after.removed == before.removed
        &&& answered(
            after.phase,
            next,
            identity_fault(before.target@, before.expected, stat),
            RemovalAction::Unlink { directory: true },
            RemovalPhase::Unlinking { directory: true },
        )
    }

    /// Takes the last look at the emptied target.
    pub fn confirm_target(&mut self, stat: Result<Metadata, OsFailure>) -> (next: Result<
        RemovalAction,
        AnyError,
    >)
        requires
            old(self).wf(),
            old(self).phase is ConfirmingTarget,
        ensures
            Removal::has_confirmed_target(*old(self), *final(self), stat, next),
    {
        match verify_entry_identity(self.target.as_slice(), self.expected, stat) {
            Ok(()) => {
                self.phase = RemovalPhase::Unlinking { directory: true };
                Ok(RemovalAction::Unlink { directory: true })
            },
            Err(error) => {
                self.phase = RemovalPhase::Failed;
                Err(error)
            },
        }
    }

    /// The step after a removal call.
    pub open spec fn has_unlinked(
        before: Removal,
        after: Removal,
        outcome: Result<(), OsFailure>,
        next: Result<RemovalAction, AnyError>,
    ) -> bool {
        &&& after.wf()
        &&& after.same_target(before)
        &&& after.plan == before.plan
        &&& after.removed == before.removed
        &&& answered(
            after.phase,
            next,
            match outcome {
                Ok(()) => None,
                Err(failure) => Some(failure.fault()),
            },
            RemovalAction::SyncParent,
            if before.phase is UnlinkingPlanned {
                RemovalPhase::SyncingPlanned
            } else {
                RemovalPhase::Syncing
            },
        )
    }

    /// Takes the outcome of a removal call.
    pub fn unlinked(&mut self, outcome: Result<(), OsFailure>) -> (next: Result<
        RemovalAction,
        AnyError,
    >)
        requires
            old(self).wf(),
            old(self).phase is UnlinkingPlanned || old(self).phase is Unlinking,
        ensures
            Removal::has_unlinked(*old(self), *final(self), outcome, next),
    {
        match outcome {
            Err(failure) => {
                self.phase = RemovalPhase::Failed;
                Err(failure.into_error())
            },
            Ok(()) => {
                self.phase = match self.phase {
                    RemovalPhase::UnlinkingPlanned => RemovalPhase::SyncingPlanned,
                    _ => RemovalPhase::Syncing,
                };
                Ok(RemovalAction::SyncParent)
            },
        }
    }

    /// The step after making a removal durable.
    pub open spec fn has_synced(
        before: Removal,
        after: Removal,
        outcome: Result<(), OsFailure>,
        next: Result<RemovalAction, AnyError>,
    ) -> bool {
        &&& after.wf()
        &&& after.same_target(before)
        &&& after.plan == before.plan
        &&& answered(
            after.phase,
            next,
            match outcome {
                Ok(()) => None,
                Err(failure) => Some(
                    undurable(
                        DirectorySyncPoint::RemovedEntryParent.stage(),
                        true,
                        failure.fault(),
                    ),
                ),
            },
            if before.phase is SyncingPlanned {
                RemovalAction::Choose
            } else {
                RemovalAction::Done
            },
            if before.phase is SyncingPlanned {
                RemovalPhase::Choosing
            } else {
                RemovalPhase::Done
            },
        )
        &&& after.removed == before.removed + (if next is Ok && before.phase is SyncingPlanned {
            1int
        } else {
            0
        })
    }

    /// Takes the outcome of making a removal durable. A failure here comes after the entry has
    /// gone.
    pub fn synced(&mut self, outcome: Result<(), OsFailure>) -> (next: Result<
        RemovalAction,
        AnyError,
    >)
        requires
            old(self).wf(),
            old(self).phase is SyncingPlanned || old(self).phase is Syncing,
        ensures
            Removal::has_synced(*old(self), *final(self), outcome, next),
    {
        match outcome {
            Err(failure) => {
                self.phase = RemovalPhase::Failed;
                Err(directory_sync_error(DirectorySyncPoint::RemovedEntryParent, failure))
            },
            Ok(()) => match self.phase {
                RemovalPhase::SyncingPlanned => {
                    let total: usize = self.plan.len();
                    assert(self.removed < total);
                    self.removed = self.removed + 1;
                    self.phase = RemovalPhase::Choosing;
                    Ok(RemovalAction::Choose)
                },
                _ => {
                    self.phase = RemovalPhase::Done;
                    Ok(RemovalAction::Done)
                },
            },
        }
    }
}

/// Every entry that was met beneath the target is planned, once: a complete plan has as many
/// entries as were counted.
pub proof fn law_everything_met_is_planned(planning: RemovalPlanning)
    requires
        planning.wf(),
        planning.phase is Complete,
    ensures
        planning.plan@.len() == planning.entry_count,
{
}

/// Nothing is removed before the whole tree is planned, and a complete plan holds no more entries
/// than the limit allows: a tree over a limit is left as it was.
pub proof fn law_trees_are_planned_before_anything_goes(planning: RemovalPlanning, removal: Removal)
    requires
        planning.wf(),
        planning.phase is Complete,
        removal.wf(),
        removal.phase is Confirming || removal.phase is Opening || removal.phase is Planning,
    ensures
        removal.removed == 0,
        planning.plan@.len() <= planning.max_entries,
{
}

/// A removal never leaves its target: whatever it removes before the target lies strictly
/// beneath it, and the target itself goes only when all of that is gone.
pub proof fn law_removals_stay_within_their_target(removal: Removal, k: int)
    requires
        removal.wf(),
        0 <= k < removal.plan@.len(),
    ensures
        lies_beneath(removal.plan@[k].rel@, removal.target@),
        parts(removal.plan@[k].rel@) != parts(removal.target@),
        removal.phase is Unlinking || removal.phase is Syncing || removal.phase is Done ==> k
            < removal.removed,
{
}

/// An entry is removed only after a look at it that found what was expected: a file in the very
/// version, a directory as the same object.
pub proof fn law_only_verified_entries_are_removed(entry: Planned, facts: PlannedFacts)
    requires
        planned_fault(entry, facts) is None,
    ensures
        facts.parent_metadata matches Ok(parent) && parent.identity() == entry.parent,
        match facts.stat {
            Ok(metadata) => {
                let found = EntryExpectation::Present { version: metadata.version() };
                &&& entry.expected.same_entry(found)
                &&& !entry.directory ==> entry.expected == found
            },
            Err(_) => entry.expected == EntryExpectation::Missing,
        },
{
}

/// Whatever is read from a directory that is to be removed is looked at, except for the
/// directory's own names: dotfiles and directories like anything else. Reading ends the planning
/// only where it fails, the request is gone, a name cannot be one, or the limit is reached.
pub proof fn law_every_entry_is_looked_at(
    before: RemovalPlanning,
    after: RemovalPlanning,
    cancelled: bool,
    entry: NextEntry,
    step: PlanStep,
)
    requires
        RemovalPlanning::has_taken(before, after, cancelled, entry, step),
    ensures
        entry matches NextEntry::Name { name } ==> {
            let itself = name@ == seq![46u8] || name@ == seq![46u8, 46u8];
            &&& step is Failed <==> cancelled || !itself && (basename_fault(name@) is Some
                || before.entry_count >= before.max_entries)
            &&& !cancelled && itself ==> step is Read && after.plan == before.plan && after.entry_count
                == before.entry_count
            &&& !cancelled && !itself && step !is Failed ==> {
                &&& step matches PlanStep::Inspect { name: asked } && asked@ == name@
                &&& after.phase matches PlanPhase::Inspecting { name: kept } && kept@ == name@
                &&& after.entry_count == before.entry_count + 1
                &&& after.frames == before.frames
                &&& after.plan == before.plan
            }
        },
        entry is Unreadable || entry is Failed ==> step is Failed,
        entry is End ==> {
            &&& step !is Failed
            &&& step is Complete <==> before.frames@.len() == 1
        },
{
}

/// At its end a directory is planned, in the version under which it was met, and the reading goes
/// on in the directory around it. The target itself is not planned.
pub proof fn law_directories_are_planned_at_their_end(
    before: RemovalPlanning,
    after: RemovalPlanning,
    cancelled: bool,
    step: PlanStep,
)
    requires
        RemovalPlanning::has_taken(before, after, cancelled, NextEntry::End, step),
        before.frames@.len() > 0,
    ensures
        after.frames@ == before.frames@.drop_last(),
        before.frames@.len() == 1 ==> after.plan == before.plan && after.phase is Complete,
        before.frames@.len() > 1 ==> {
            &&& step is Read
            &&& after.phase is Reading
            &&& after.plan@.len() == before.plan@.len() + 1
            &&& after.plan@.last().rel@ == before.frames@.last().rel@
            &&& after.plan@.last().expected == before.frames@.last().expected
            &&& after.plan@.last().directory
            &&& after.plan@.last().parent_dev == before.frames@[before.frames@.len() - 2].dev
            &&& after.plan@.last().parent_ino == before.frames@[before.frames@.len() - 2].ino
        },
{
    if before.frames@.len() > 1 {
        let planned = plan_view(before.plan@);
        assert(plan_view(after.plan@).len() == planned.len() + 1);
        assert(plan_view(after.plan@).last() == after.plan@.last().view());
    }
}

/// An entry that is no directory is planned at once, whatever else it is, in the version that the
/// look at it found; a directory is opened and read first. Only a failed look and a directory
/// beyond the depth limit end the planning.
pub proof fn law_entries_are_planned_or_read(
    before: RemovalPlanning,
    after: RemovalPlanning,
    name: Vec<u8>,
    stat: Result<Metadata, OsFailure>,
    step: PlanStep,
)
    requires
        before.phase == (PlanPhase::Inspecting { name }),
        RemovalPlanning::has_inspected(before, after, stat, step),
    ensures
        step is Failed <==> match stat {
            Err(_) => true,
            Ok(found) => found.mode & 0o170000 == 0o040000 && before.frames@.len()
                > before.max_depth,
        },
        stat matches Ok(found) ==> step !is Failed ==> if found.mode & 0o170000 == 0o040000 {
            &&& step matches PlanStep::Open { rel } && rel@ == joined(
                before.frames@.last().rel@,
                name@,
            )
            &&& after.plan == before.plan
            &&& after.phase matches PlanPhase::Opening { rel, expected } && rel@ == joined(
                before.frames@.last().rel@,
                name@,
            ) && expected == (EntryExpectation::Present { version: found.version() })
        } else {
            &&& step is Read
            &&& after.phase is Reading
            &&& after.plan@.len() == before.plan@.len() + 1
            &&& after.plan@.last().rel@ == joined(before.frames@.last().rel@, name@)
            &&& after.plan@.last().expected == (EntryExpectation::Present {
                version: found.version(),
            })
            &&& !after.plan@.last().directory
            &&& after.plan@.last().parent_dev == before.frames@.last().dev
            &&& after.plan@.last().parent_ino == before.frames@.last().ino
        },
{
    if step is Read {
        let planned = plan_view(before.plan@);
        assert(plan_view(after.plan@).len() == planned.len() + 1);
        assert(plan_view(after.plan@).last() == after.plan@.last().view());
    }
}

/// A directory that was met is read exactly where it opens in the version that was met and was not
/// read before.
pub proof fn law_met_directories_are_read(
    before: RemovalPlanning,
    after: RemovalPlanning,
    rel: Vec<u8>,
    expected: EntryExpectation,
    opened: Result<Metadata, AnyError>,
    described: Seq<char>,
    step: PlanStep,
    next: RemovalPlanning,
    cancelled: bool,
    directory: Result<Metadata, AnyError>,
    entered: PlanStep,
)
    requires
        before.phase == (PlanPhase::Opening { rel, expected }),
        RemovalPlanning::has_opened(before, after, opened, described, step),
        RemovalPlanning::has_entered(after, next, cancelled, directory, entered),
    ensures
        step is Enter <==> {
            &&& opened matches Ok(found)
            &&& expected matches EntryExpectation::Present { version }
            &&& found.dev == version.dev
            &&& found.ino == version.ino
            &&& found.ctime_sec == version.ctime_sec
            &&& found.ctime_nsec == version.ctime_nsec
            &&& found.mode & 0o170000 == version.kind
            &&& !before.visited.view().contains((found.dev, found.ino))
        },
        step is Enter || step is Failed,
        step is Enter ==> {
            &&& after.frames@.len() == before.frames@.len() + 1
            &&& after.frames@.last().rel == rel
            &&& after.frames@.last().expected == expected
            &&& after.frames@.drop_last() == before.frames@
        },
        entered is Read <==> !cancelled && directory is Ok,
        entered is Read || entered is Failed,
        entered is Read ==> next.phase is Reading && next.frames@.drop_last()
            == after.frames@.drop_last() && next.frames@.last().rel == after.frames@.last().rel,
{
    if step is Enter {
        assert(after.frames@.drop_last() == before.frames@);
        assert(after.frames@.len() > 0) by {
            assert(after.wf());
        }
        assert(after.frames@.drop_last().len() == after.frames@.len() - 1);
    }
}

/// A removal begins exactly where the target resolves to its path, its parent is in place, and the
/// target is what is expected of it. A directory is read first where the whole tree is to go;
/// anything else is removed as what it is.
pub proof fn law_removals_begin(
    rel: Seq<u8>,
    recursive: bool,
    expected: EntryExpectation,
    facts: TargetFacts,
    begun: Result<(Removal, RemovalAction), AnyError>,
)
    requires
        Removal::begins(rel, recursive, expected, facts, begun),
    ensures
        begun is Ok <==> {
            &&& parts(facts.resolved@) == parts(rel)
            &&& facts.parent is Ok
            &&& facts.inspected is Ok
            &&& match expected {
                EntryExpectation::Present { version } => {
                    &&& facts.checked matches Ok(found)
                    &&& found.dev == version.dev
                    &&& found.ino == version.ino
                    &&& found.ctime_sec == version.ctime_sec
                    &&& found.ctime_nsec == version.ctime_nsec
                    &&& found.mode & 0o170000 == version.kind
                },
                EntryExpectation::Missing => facts.checked matches Err(failure) && failure.errno
                    == Errno::NoEnt,
            }
        },
        begun matches Ok((removal, action)) ==> facts.inspected matches Ok(found) && {
            let directory = found.mode & 0o170000 == 0o040000;
            &&& removal.target == facts.resolved
            &&& removal.expected == expected
            &&& directory && recursive <==> action is OpenTarget
            &&& directory && recursive ==> removal.phase is Opening
            &&& !(directory && recursive) ==> action is Confirm && removal.phase == (
            RemovalPhase::Confirming { directory })
        },
{
    crate::filesystem::entry::law_versions_are_checked(
        facts.resolved@,
        expected,
        facts.checked,
        MutationEndpointRole::Target,
    );
}

/// A single entry is removed exactly where the last look finds it in the version that is
/// expected, and, for what is no directory, the request is still there; a removal that the system
/// carries out and makes durable ends well.
pub proof fn law_single_entries_are_removed(
    begun: Removal,
    confirmed: Removal,
    unlinked: Removal,
    ended: Removal,
    directory: bool,
    cancelled: bool,
    stat: Result<Metadata, OsFailure>,
    called: Result<(), OsFailure>,
    synced: Result<(), OsFailure>,
    first: Result<RemovalAction, AnyError>,
    second: Result<RemovalAction, AnyError>,
    third: Result<RemovalAction, AnyError>,
)
    requires
        begun.phase == (RemovalPhase::Confirming { directory }),
        Removal::has_confirmed(begun, confirmed, cancelled, stat, first),
    ensures
        first is Ok <==> (directory || !cancelled) && match begun.expected {
            EntryExpectation::Present { version } => {
                &&& stat matches Ok(found)
                &&& found.dev == version.dev
                &&& found.ino == version.ino
                &&& found.ctime_sec == version.ctime_sec
                &&& found.ctime_nsec == version.ctime_nsec
                &&& found.mode & 0o170000 == version.kind
            },
            EntryExpectation::Missing => stat matches Err(failure) && failure.errno == Errno::NoEnt,
        },
        first matches Ok(action) ==> action == (RemovalAction::Unlink { directory })
            && confirmed.phase is Unlinking,
        first is Ok && Removal::has_unlinked(confirmed, unlinked, called, second) ==> {
            &&& second is Ok <==> called is Ok
            &&& second matches Ok(action) ==> action is SyncParent && unlinked.phase is Syncing
            &&& second is Ok && Removal::has_synced(unlinked, ended, synced, third) ==> {
                &&& third is Ok <==> synced is Ok
                &&& third matches Ok(action) ==> action is Done && ended.phase is Done
            }
        },
{
    crate::filesystem::entry::law_versions_are_checked(
        begun.target@,
        begun.expected,
        stat,
        MutationEndpointRole::Target,
    );
}

/// A tree is read exactly where its directory opens in the version that is expected, and is gone
/// through exactly where the request is still there and the target is unchanged after the reading:
/// then the plan that was read is the one that is carried out.
pub proof fn law_trees_are_read_before_they_go(
    before: Removal,
    after: Removal,
    opened: Result<Metadata, AnyError>,
    again: Result<Metadata, AnyError>,
    max_entries: usize,
    max_depth: usize,
    begun: Result<RemovalPlanning, AnyError>,
    planning: RemovalPlanning,
    cancelled: bool,
    stat: Result<Metadata, OsFailure>,
    next: Result<RemovalAction, AnyError>,
)
    ensures
        Removal::has_opened(before, after, opened, again, max_entries, max_depth, begun) ==> {
            &&& begun is Ok <==> {
                &&& again is Ok
                &&& opened matches Ok(found)
                &&& before.expected matches EntryExpectation::Present { version }
                &&& found.dev == version.dev
                &&& found.ino == version.ino
                &&& found.ctime_sec == version.ctime_sec
                &&& found.ctime_nsec == version.ctime_nsec
                &&& found.mode & 0o170000 == version.kind
            }
            &&& begun matches Ok(reading) ==> {
                &&& reading.target@ == before.target@
                &&& reading.max_entries == max_entries
                &&& reading.max_depth == max_depth
                &&& reading.plan@.len() == 0
                &&& reading.phase is Entering
                &&& after.phase is Planning
            }
        },
        Removal::has_planned(before, after, planning, cancelled, stat, next) ==> {
            &&& next is Ok <==> !cancelled && match before.expected {
                EntryExpectation::Present { version } => {
                    &&& stat matches Ok(found)
                    &&& found.dev == version.dev
                    &&& found.ino == version.ino
                    &&& found.ctime_sec == version.ctime_sec
                    &&& found.ctime_nsec == version.ctime_nsec
                    &&& found.mode & 0o170000 == version.kind
                },
                EntryExpectation::Missing => stat matches Err(failure) && failure.errno
                    == Errno::NoEnt,
            }
            &&& next matches Ok(action) ==> action is Choose && after.phase is Choosing
                && after.plan == planning.plan && after.removed == 0
        },
{
    crate::filesystem::entry::law_versions_are_checked(
        before.target@,
        before.expected,
        stat,
        MutationEndpointRole::Target,
    );
}

/// While the request is there, the entries of a plan are gone through one by one and in order:
/// the next one is looked at, removed as the directory or the other thing that it is, and made
/// durable, and only then counted. It is removed exactly where its directory is the one that was
/// read, and it is still the object that was met; what is no directory has to be unchanged, too.
pub proof fn law_planned_entries_are_removed(
    chosen: Removal,
    looking: Removal,
    confirmed: Removal,
    unlinked: Removal,
    ended: Removal,
    cancelled: bool,
    facts: PlannedFacts,
    called: Result<(), OsFailure>,
    synced: Result<(), OsFailure>,
    first: Result<RemovalAction, AnyError>,
    second: Result<RemovalAction, AnyError>,
    third: Result<RemovalAction, AnyError>,
    fourth: Result<RemovalAction, AnyError>,
    version: crate::filesystem::entry::EntryVersion,
)
    requires
        chosen.wf(),
        chosen.removed < chosen.plan@.len(),
        chosen.plan@[chosen.removed as int].expected == (EntryExpectation::Present { version }),
        Removal::has_proceeded(chosen, looking, cancelled, first),
    ensures
        first is Ok <==> !cancelled,
        first matches Ok(action) ==> action is ConfirmPlanned && looking.phase is ConfirmingPlanned,
        first is Ok && Removal::has_confirmed_planned(looking, confirmed, facts, second) ==> {
            let entry = chosen.plan@[chosen.removed as int];
            &&& second is Ok <==> {
                &&& facts.parent is Ok
                &&& facts.parent_metadata matches Ok(parent)
                &&& parent.dev == entry.parent_dev
                &&& parent.ino == entry.parent_ino
                &&& facts.stat matches Ok(found)
                &&& found.dev == version.dev
                &&& found.ino == version.ino
                &&& found.mode & 0o170000 == version.kind
                &&& entry.directory || found.ctime_sec == version.ctime_sec && found.ctime_nsec
                    == version.ctime_nsec
            }
            &&& second matches Ok(action) ==> action == (RemovalAction::Unlink {
                directory: entry.directory,
            }) && confirmed.phase is UnlinkingPlanned
            &&& second is Ok && Removal::has_unlinked(confirmed, unlinked, called, third) ==> {
                &&& third is Ok <==> called is Ok
                &&& third matches Ok(action) ==> action is SyncParent
                    && unlinked.phase is SyncingPlanned
                &&& third is Ok && Removal::has_synced(unlinked, ended, synced, fourth) ==> {
                    &&& fourth is Ok <==> synced is Ok
                    &&& fourth matches Ok(action) ==> action is Choose && ended.phase is Choosing
                        && ended.removed == chosen.removed + 1 && ended.plan == chosen.plan
                }
            }
        },
{
    let entry = chosen.plan@[chosen.removed as int];
    crate::filesystem::entry::law_versions_are_checked(
        facts.resolved@,
        entry.expected,
        facts.stat,
        MutationEndpointRole::Target,
    );
    crate::filesystem::entry::law_identities_are_checked(
        facts.resolved@,
        entry.expected,
        facts.stat,
    );
}

/// Once every planned entry is gone the target goes, while the request is there and the target is
/// still the same object; then the removal of the tree is done.
pub proof fn law_emptied_targets_are_removed(
    chosen: Removal,
    looking: Removal,
    confirmed: Removal,
    unlinked: Removal,
    ended: Removal,
    cancelled: bool,
    stat: Result<Metadata, OsFailure>,
    called: Result<(), OsFailure>,
    synced: Result<(), OsFailure>,
    first: Result<RemovalAction, AnyError>,
    second: Result<RemovalAction, AnyError>,
    third: Result<RemovalAction, AnyError>,
    fourth: Result<RemovalAction, AnyError>,
)
    requires
        chosen.removed == chosen.plan@.len(),
        Removal::has_proceeded(chosen, looking, cancelled, first),
    ensures
        first is Ok <==> !cancelled,
        first matches Ok(action) ==> action is Confirm && looking.phase is ConfirmingTarget,
        first is Ok && Removal::has_confirmed_target(looking, confirmed, stat, second) ==> {
            &&& second is Ok <==> match chosen.expected {
                EntryExpectation::Present { version } => {
                    &&& stat matches Ok(found)
                    &&& found.dev == version.dev
                    &&& found.ino == version.ino
                    &&& found.mode & 0o170000 == version.kind
                },
                EntryExpectation::Missing => stat matches Err(failure) && failure.errno
                    == Errno::NoEnt,
            }
            &&& second matches Ok(action) ==> action == (RemovalAction::Unlink { directory: true })
                && confirmed.phase is Unlinking
            &&& second is Ok && Removal::has_unlinked(confirmed, unlinked, called, third) ==> {
                &&& third is Ok <==> called is Ok
                &&& third matches Ok(action) ==> action is SyncParent && unlinked.phase is Syncing
                &&& third is Ok && Removal::has_synced(unlinked, ended, synced, fourth) ==> {
                    &&& fourth is Ok <==> synced is Ok
                    &&& fourth matches Ok(action) ==> action is Done && ended.phase is Done
                }
            }
        },
{
    crate::filesystem::entry::law_identities_are_checked(chosen.target@, chosen.expected, stat);
}

} // verus!
