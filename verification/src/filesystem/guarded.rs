//! Files whose every operation is admitted to the pool of blocking workers on its own, so that a
//! slow client holds no worker while it waits for the network.
use crate::error::{
    AdmissionError, AdmissionResource, AnyError, IoErrorKind, QueueScope,
};
use crate::fault::{lemma_chain_of_fault, Fault};
use crate::filesystem::cleanup::Handle;
use crate::text::text2;
use crate::time::Duration;
use vstd::prelude::*;

verus! {

// ---------------------------------------------------------------------------------------------
// Admission
// ---------------------------------------------------------------------------------------------

/// The pool of blocking workers.
#[derive(Clone, Copy, Debug, PartialEq, Eq, Structural)]
pub struct FilesystemBlockingAdmission {
    pub limit: usize,
    pub queue_timeout: Duration,
}

/// What waiting for a worker came to.
#[derive(Clone, Copy, Debug, PartialEq, Eq, Structural)]
pub enum LeaseOutcome {
    Granted,
    /// The pool was closed.
    Closed,
    TimedOut,
}

pub open spec fn lease_fault(admission: FilesystemBlockingAdmission, outcome: LeaseOutcome) -> Option<
    Fault,
> {
    match outcome {
        LeaseOutcome::Granted => None,
        LeaseOutcome::Closed => Some(
            Fault::Admission {
                error: (AdmissionError::Cancelled { resource: AdmissionResource::FilesystemTasks }),
            },
        ),
        LeaseOutcome::TimedOut => Some(
            Fault::Admission {
                error: (AdmissionError::Timeout {
                    resource: AdmissionResource::FilesystemTasks,
                    kind: (crate::error::AdmissionTimeoutKind::Queue {
                        scope: QueueScope::WorkerPool,
                    }),
                    waited: admission.queue_timeout,
                }),
            },
        ),
    }
}

impl FilesystemBlockingAdmission {
    /// A pool has at least one worker.
    pub fn new(limit: usize, queue_timeout: Duration) -> (admission: FilesystemBlockingAdmission)
        ensures
            admission.limit == (if limit == 0 {
                1
            } else {
                limit
            }),
            admission.queue_timeout == queue_timeout,
    {
        FilesystemBlockingAdmission {
            limit: if limit == 0 {
                1
            } else {
                limit
            },
            queue_timeout,
        }
    }

    /// What waiting for a worker came to.
    pub open spec fn acquires(
        admission: FilesystemBlockingAdmission,
        outcome: LeaseOutcome,
        lease: Result<(), AnyError>,
    ) -> bool {
        &&& match lease_fault(admission, outcome) {
            Some(fault) => lease matches Err(error) && error@ == fault,
            None => lease is Ok,
        }
    }

    pub fn acquire(&self, outcome: LeaseOutcome) -> (lease: Result<(), AnyError>)
        ensures
            FilesystemBlockingAdmission::acquires(*self, outcome, lease),
    {
        match outcome {
            LeaseOutcome::Granted => Ok(()),
            LeaseOutcome::Closed => Err(
                AnyError::admission(
                    AdmissionError::cancelled(AdmissionResource::FilesystemTasks),
                ),
            ),
            LeaseOutcome::TimedOut => Err(
                AnyError::admission(
                    AdmissionError::queue_timeout(
                        AdmissionResource::FilesystemTasks,
                        QueueScope::WorkerPool,
                        self.queue_timeout,
                    ),
                ),
            ),
        }
    }
}

// ---------------------------------------------------------------------------------------------
// Guarded files
// ---------------------------------------------------------------------------------------------

/// Where a seek goes.
#[allow(inconsistent_fields)]
#[derive(Clone, Copy, Debug, PartialEq, Eq, Structural)]
pub enum SeekFrom {
    Start { offset: u64 },
    End { offset: i64 },
    Current { offset: i64 },
}

/// What a file is doing.
#[derive(Clone, Copy, Debug, PartialEq, Eq, Structural)]
pub enum GuardedBlockingFileState {
    Idle { file: Handle },
    AcquiringRead { file: Handle, read_len: usize },
    Reading { read_len: usize },
    AcquiringSeek { file: Handle, position: SeekFrom },
    Seeking,
    /// A worker was lost together with the file.
    Vacant,
}

/// A file, and the position that its next read starts at.
#[derive(Clone, Copy, Debug, PartialEq, Eq, Structural)]
pub struct GuardedBlockingFile {
    pub state: GuardedBlockingFileState,
    pub position: u64,
}

/// An error as file operations report it.
#[derive(Debug)]
pub struct IoFailure {
    pub kind: IoErrorKind,
    pub text: String,
}

pub open spec fn io_failed(failure: IoFailure, kind: IoErrorKind, text: Seq<char>) -> bool {
    failure.kind == kind && failure.text@ == text
}

fn io_failure(kind: IoErrorKind, text: &str) -> (failure: IoFailure)
    ensures
        io_failed(failure, kind, text@),
{
    IoFailure { kind, text: text.to_owned() }
}

/// What a poll does next.
#[allow(inconsistent_fields)]
#[derive(Debug)]
pub enum FileStep {
    /// Nothing more to do; a seek tells the position.
    Ready { position: u64 },
    /// Wait for a worker.
    PollLease,
    /// Wait for the worker's result.
    PollWorker,
    /// Come back later.
    Pending,
    /// Let a worker read at most this much.
    StartRead { file: Handle, read_len: usize },
    /// Let a worker seek.
    StartSeek { file: Handle, position: SeekFrom },
    /// Hand the first so many bytes of the buffer on.
    Deliver { read: usize },
    Failed { failure: IoFailure },
}

/// The answer of the pool.
#[derive(Debug)]
pub enum LeasePoll {
    Pending,
    Granted,
    /// `system` is what the system says of its own errors.
    Failed { error: AnyError, system: String },
}

/// The result of a worker: a number of bytes or a position, with the file, or an error with the
/// file, or nothing at all.
#[derive(Debug)]
pub enum WorkerPoll {
    Pending,
    Succeeded { file: Handle, value: u64 },
    Failed { file: Handle, failure: IoFailure },
    /// The worker did not come back; this is what is said of it.
    Lost { system: String },
}

/// The kind of a failed admission.
pub open spec fn admission_kind(error: Fault) -> IoErrorKind {
    match error.admission() {
        Some(AdmissionError::Timeout { .. }) => IoErrorKind::TimedOut,
        _ => IoErrorKind::Other,
    }
}

/// The failure of a file whose operation was not admitted. `system` is what the system says of
/// its own errors.
pub fn admission_error(error: AnyError, system: &str) -> (failure: IoFailure)
    requires
        error@.valid(),
    ensures
        io_failed(
            failure,
            admission_kind(error@),
            "filesystem admission failed: "@ + error@.chain_text(system@),
        ),
{
    proof {
        lemma_chain_of_fault(error);
    }
    let kind = match AdmissionError::in_anyhow_chain(&error) {
        Some(AdmissionError::Timeout { .. }) => IoErrorKind::TimedOut,
        _ => IoErrorKind::Other,
    };
    let shown = error.describe_chain(system);
    let text = text2("filesystem admission failed: ", shown.as_str());
    IoFailure { kind, text }
}

fn join_error(system: &str) -> (failure: IoFailure)
    ensures
        io_failed(
            failure,
            IoErrorKind::Other,
            "guarded filesystem worker failed: "@ + system@,
        ),
{
    IoFailure { kind: IoErrorKind::Other, text: text2("guarded filesystem worker failed: ", system) }
}

impl GuardedBlockingFile {
    pub fn new(file: Handle) -> (guarded: GuardedBlockingFile)
        ensures
            guarded.state == (GuardedBlockingFileState::Idle { file }),
            guarded.position == 0,
    {
        GuardedBlockingFile { state: GuardedBlockingFileState::Idle { file }, position: 0 }
    }

    /// The file itself, while nothing is in flight, for a look at what it is.
    pub fn metadata(&self) -> (file: Result<Handle, IoFailure>)
        ensures
            match file {
                Ok(held) => self.state == (GuardedBlockingFileState::Idle { file: held }),
                Err(failure) => !(self.state is Idle) && io_failed(
                    failure,
                    IoErrorKind::WouldBlock,
                    "another guarded file operation is in flight"@,
                ),
            },
    {
        match self.state {
            GuardedBlockingFileState::Idle { file } => Ok(file),
            _ => Err(
                io_failure(
                    IoErrorKind::WouldBlock,
                    "another guarded file operation is in flight",
                ),
            ),
        }
    }

    /// Gives the file up, while nothing is in flight.
    pub fn into_std(self) -> (file: Result<Handle, IoFailure>)
        ensures
            match file {
                Ok(held) => self.state == (GuardedBlockingFileState::Idle { file: held }),
                Err(failure) => !(self.state is Idle) && io_failed(
                    failure,
                    IoErrorKind::WouldBlock,
                    "cannot convert a guarded file while an operation is in flight"@,
                ),
            },
    {
        match self.state {
            GuardedBlockingFileState::Idle { file } => Ok(file),
            _ => Err(
                io_failure(
                    IoErrorKind::WouldBlock,
                    "cannot convert a guarded file while an operation is in flight",
                ),
            ),
        }
    }

    /// What a read does next.
    pub open spec fn has_polled_read(
        before: GuardedBlockingFile,
        after: GuardedBlockingFile,
        remaining: usize,
        buffer_size: usize,
        step: FileStep,
    ) -> bool {
        &&& after.position == before.position
        &&& match before.state {
            GuardedBlockingFileState::Idle { file } => if remaining == 0 {
                step is Ready && after == before
            } else {
                &&& step is PollLease
                &&& after.state == (GuardedBlockingFileState::AcquiringRead {
                    file,
                    read_len: if remaining <= buffer_size {
                        remaining
                    } else {
                        buffer_size
                    },
                })
            },
            GuardedBlockingFileState::AcquiringRead { .. } => step is PollLease && after
                == before,
            GuardedBlockingFileState::Reading { .. } => step is PollWorker && after
                == before,
            GuardedBlockingFileState::AcquiringSeek { .. }
            | GuardedBlockingFileState::Seeking => {
                &&& step matches FileStep::Failed { failure } && io_failed(
                    failure,
                    IoErrorKind::WouldBlock,
                    "a guarded seek is still in flight"@,
                )
                &&& after == before
            },
            GuardedBlockingFileState::Vacant => {
                &&& step matches FileStep::Failed { failure } && io_failed(
                    failure,
                    IoErrorKind::Other,
                    "guarded file entered an invalid vacant state"@,
                )
                &&& after == before
            },
        }
    }

    /// Starts or goes on with a read into a buffer with this much room.
    pub fn poll_read(&mut self, remaining: usize, buffer_size: usize) -> (step: FileStep)
        ensures
            GuardedBlockingFile::has_polled_read(*old(self), *final(self), remaining, buffer_size, step),
    {
        match self.state {
            GuardedBlockingFileState::Idle { file } => {
                if remaining == 0 {
                    return FileStep::Ready { position: self.position };
                }
                let read_len: usize = if remaining <= buffer_size {
                    remaining
                } else {
                    buffer_size
                };
                self.state = GuardedBlockingFileState::AcquiringRead { file, read_len };
                FileStep::PollLease
            },
            GuardedBlockingFileState::AcquiringRead { .. } => FileStep::PollLease,
            GuardedBlockingFileState::Reading { .. } => FileStep::PollWorker,
            GuardedBlockingFileState::AcquiringSeek { .. } | GuardedBlockingFileState::Seeking => {
                FileStep::Failed {
                    failure: io_failure(
                        IoErrorKind::WouldBlock,
                        "a guarded seek is still in flight",
                    ),
                }
            },
            GuardedBlockingFileState::Vacant => FileStep::Failed {
                failure: io_failure(
                    IoErrorKind::Other,
                    "guarded file entered an invalid vacant state",
                ),
            },
        }
    }

    /// The start of a seek, or why there is none.
    pub open spec fn has_started_seek(
        before: GuardedBlockingFile,
        after: GuardedBlockingFile,
        position: SeekFrom,
        started: Result<(), IoFailure>,
    ) -> bool {
        &&& after.position == before.position
        &&& match before.state {
            GuardedBlockingFileState::Idle { file } => started is Ok && after.state == (
            GuardedBlockingFileState::AcquiringSeek { file, position }),
            _ => {
                &&& started matches Err(failure) && io_failed(
                    failure,
                    IoErrorKind::WouldBlock,
                    "another guarded file operation is in flight"@,
                )
                &&& after == before
            },
        }
    }

    /// Starts a seek, while nothing is in flight.
    pub fn start_seek(&mut self, position: SeekFrom) -> (started: Result<(), IoFailure>)
        ensures
            GuardedBlockingFile::has_started_seek(*old(self), *final(self), position, started),
    {
        match self.state {
            GuardedBlockingFileState::Idle { file } => {
                self.state = GuardedBlockingFileState::AcquiringSeek { file, position };
                Ok(())
            },
            _ => Err(
                io_failure(
                    IoErrorKind::WouldBlock,
                    "another guarded file operation is in flight",
                ),
            ),
        }
    }

    /// What a seek does next.
    pub open spec fn completes(
        file: GuardedBlockingFile,
        step: FileStep,
    ) -> bool {
        &&& match file.state {
            GuardedBlockingFileState::Idle { .. } => step matches FileStep::Ready { position }
                && position == file.position,
            GuardedBlockingFileState::AcquiringRead { .. }
            | GuardedBlockingFileState::Reading { .. } => {
                step matches FileStep::Failed { failure } && io_failed(
                    failure,
                    IoErrorKind::WouldBlock,
                    "a guarded read is still in flight"@,
                )
            },
            GuardedBlockingFileState::AcquiringSeek { .. } => step is PollLease,
            GuardedBlockingFileState::Seeking => step is PollWorker,
            GuardedBlockingFileState::Vacant => step matches FileStep::Failed { failure }
                && io_failed(
                failure,
                IoErrorKind::Other,
                "guarded file entered an invalid vacant state"@,
            ),
        }
    }

    /// Goes on with a seek, or tells the position where none is in flight.
    pub fn poll_complete(&self) -> (step: FileStep)
        ensures
            GuardedBlockingFile::completes(*self, step),
    {
        match self.state {
            GuardedBlockingFileState::Idle { .. } => FileStep::Ready { position: self.position },
            GuardedBlockingFileState::AcquiringRead { .. }
            | GuardedBlockingFileState::Reading { .. } => FileStep::Failed {
                failure: io_failure(IoErrorKind::WouldBlock, "a guarded read is still in flight"),
            },
            GuardedBlockingFileState::AcquiringSeek { .. } => FileStep::PollLease,
            GuardedBlockingFileState::Seeking => FileStep::PollWorker,
            GuardedBlockingFileState::Vacant => FileStep::Failed {
                failure: io_failure(
                    IoErrorKind::Other,
                    "guarded file entered an invalid vacant state",
                ),
            },
        }
    }

    /// The step after asking for a worker.
    pub open spec fn has_leased(
        before: GuardedBlockingFile,
        after: GuardedBlockingFile,
        poll: LeasePoll,
        step: FileStep,
    ) -> bool {
        &&& after.position == before.position
        &&& ({
            let held = match before.state {
                GuardedBlockingFileState::AcquiringRead { file, .. } => file,
                GuardedBlockingFileState::AcquiringSeek { file, .. } => file,
                _ => Handle { id: 0 },
            };
            match poll {
                LeasePoll::Pending => step is Pending && after == before,
                LeasePoll::Failed { error, system } => {
                    &&& step matches FileStep::Failed { failure } && io_failed(
                        failure,
                        admission_kind(error@),
                        "filesystem admission failed: "@ + error@.chain_text(system@),
                    )
                    &&& after.state == (GuardedBlockingFileState::Idle { file: held })
                },
                LeasePoll::Granted => match before.state {
                    GuardedBlockingFileState::AcquiringRead { file, read_len } => {
                        &&& step matches FileStep::StartRead { file: f, read_len: n } && f
                            == file && n == read_len
                        &&& after.state == (GuardedBlockingFileState::Reading {
                            read_len,
                        })
                    },
                    GuardedBlockingFileState::AcquiringSeek { file, position } => {
                        &&& step matches FileStep::StartSeek { file: f, position: p } && f
                            == file && p == position
                        &&& after.state == GuardedBlockingFileState::Seeking
                    },
                    _ => false,
                },
            }
        })
    }

    /// Takes the pool's answer. A failed admission leaves the file idle.
    pub fn leased(&mut self, poll: LeasePoll) -> (step: FileStep)
        requires
            old(self).state is AcquiringRead || old(self).state is AcquiringSeek,
            poll matches LeasePoll::Failed { error, .. } ==> error@.valid(),
        ensures
            GuardedBlockingFile::has_leased(*old(self), *final(self), poll, step),
    {
        let held = match self.state {
            GuardedBlockingFileState::AcquiringRead { file, .. } => file,
            GuardedBlockingFileState::AcquiringSeek { file, .. } => file,
            _ => Handle { id: 0 },
        };
        match poll {
            LeasePoll::Pending => FileStep::Pending,
            LeasePoll::Failed { error, system } => {
                self.state = GuardedBlockingFileState::Idle { file: held };
                FileStep::Failed { failure: admission_error(error, system.as_str()) }
            },
            LeasePoll::Granted => match self.state {
                GuardedBlockingFileState::AcquiringRead { file, read_len } => {
                    self.state = GuardedBlockingFileState::Reading { read_len };
                    FileStep::StartRead { file, read_len }
                },
                GuardedBlockingFileState::AcquiringSeek { file, position } => {
                    self.state = GuardedBlockingFileState::Seeking;
                    FileStep::StartSeek { file, position }
                },
                _ => {
                    assert(false);
                    FileStep::Pending
                },
            },
        }
    }

    /// The step after a read.
    pub open spec fn has_read(
        before: GuardedBlockingFile,
        after: GuardedBlockingFile,
        poll: WorkerPoll,
        step: FileStep,
    ) -> bool {
        &&& match poll {
            WorkerPoll::Pending => step is Pending && after == before,
            WorkerPoll::Lost { system } => {
                &&& step matches FileStep::Failed { failure } && io_failed(
                    failure,
                    IoErrorKind::Other,
                    "guarded filesystem worker failed: "@ + system@,
                )
                &&& after.state == GuardedBlockingFileState::Vacant
                &&& after.position == before.position
            },
            WorkerPoll::Failed { file, failure: source } => {
                &&& step == (FileStep::Failed { failure: source })
                &&& after.state == (GuardedBlockingFileState::Idle { file })
                &&& after.position == before.position
            },
            WorkerPoll::Succeeded { file, value } => {
                &&& step matches FileStep::Deliver { read } && read == value
                &&& after.state == (GuardedBlockingFileState::Idle { file })
                &&& after.position == (if before.position + value > u64::MAX {
                    u64::MAX as int
                } else {
                    before.position + value
                })
            },
        }
    }

    /// Takes a read worker's result. The position moves by what was read.
    pub fn read_done(&mut self, poll: WorkerPoll) -> (step: FileStep)
        requires
            old(self).state is Reading,
            poll matches WorkerPoll::Succeeded { value, .. } ==> value <= usize::MAX,
        ensures
            GuardedBlockingFile::has_read(*old(self), *final(self), poll, step),
    {
        match poll {
            WorkerPoll::Pending => FileStep::Pending,
            WorkerPoll::Lost { system } => {
                self.state = GuardedBlockingFileState::Vacant;
                FileStep::Failed { failure: join_error(system.as_str()) }
            },
            WorkerPoll::Failed { file, failure } => {
                self.state = GuardedBlockingFileState::Idle { file };
                FileStep::Failed { failure }
            },
            WorkerPoll::Succeeded { file, value } => {
                self.state = GuardedBlockingFileState::Idle { file };
                self.position = match self.position.checked_add(value) {
                    Some(position) => position,
                    None => u64::MAX,
                };
                FileStep::Deliver { read: value as usize }
            },
        }
    }

    /// The step after a seek.
    pub open spec fn has_sought(
        before: GuardedBlockingFile,
        after: GuardedBlockingFile,
        poll: WorkerPoll,
        step: FileStep,
    ) -> bool {
        &&& match poll {
            WorkerPoll::Pending => step is Pending && after == before,
            WorkerPoll::Lost { system } => {
                &&& step matches FileStep::Failed { failure } && io_failed(
                    failure,
                    IoErrorKind::Other,
                    "guarded filesystem worker failed: "@ + system@,
                )
                &&& after.state == GuardedBlockingFileState::Vacant
                &&& after.position == before.position
            },
            WorkerPoll::Failed { file, failure: source } => {
                &&& step == (FileStep::Failed { failure: source })
                &&& after.state == (GuardedBlockingFileState::Idle { file })
                &&& after.position == before.position
            },
            WorkerPoll::Succeeded { file, value } => {
                &&& step matches FileStep::Ready { position } && position == value
                &&& after.state == (GuardedBlockingFileState::Idle { file })
                &&& after.position == value
            },
        }
    }

    /// Takes a seek worker's result.
    pub fn seek_done(&mut self, poll: WorkerPoll) -> (step: FileStep)
        requires
            old(self).state is Seeking,
        ensures
            GuardedBlockingFile::has_sought(*old(self), *final(self), poll, step),
    {
        match poll {
            WorkerPoll::Pending => FileStep::Pending,
            WorkerPoll::Lost { system } => {
                self.state = GuardedBlockingFileState::Vacant;
                FileStep::Failed { failure: join_error(system.as_str()) }
            },
            WorkerPoll::Failed { file, failure } => {
                self.state = GuardedBlockingFileState::Idle { file };
                FileStep::Failed { failure }
            },
            WorkerPoll::Succeeded { file, value } => {
                self.state = GuardedBlockingFileState::Idle { file };
                self.position = value;
                FileStep::Ready { position: value }
            },
        }
    }
}

/// A worker is had exactly where the pool grants one. A closed pool tells of a cancelled request,
/// and a wait that was too long of the time that was waited.
pub proof fn law_workers_are_granted(
    admission: FilesystemBlockingAdmission,
    outcome: LeaseOutcome,
    lease: Result<(), AnyError>,
)
    requires
        FilesystemBlockingAdmission::acquires(admission, outcome, lease),
    ensures
        lease is Ok <==> outcome is Granted,
        lease matches Err(error) ==> {
            &&& outcome is Closed ==> error@.admission() == Some(
                AdmissionError::Cancelled { resource: AdmissionResource::FilesystemTasks },
            )
            &&& outcome is TimedOut ==> (error@.admission() matches Some(
                AdmissionError::Timeout { resource, waited, .. },
            ) && resource is FilesystemTasks && waited == admission.queue_timeout)
        },
{
}

/// A read of a file with nothing in flight asks for a worker, reads as much as there is room for
/// up to the size of the buffer, delivers exactly what was read, and goes on behind it.
pub proof fn law_reads_deliver_what_was_read(
    idle: GuardedBlockingFile,
    asking: GuardedBlockingFile,
    reading: GuardedBlockingFile,
    done: GuardedBlockingFile,
    file: Handle,
    back: Handle,
    remaining: usize,
    buffer_size: usize,
    value: u64,
    first: FileStep,
    second: FileStep,
    third: FileStep,
)
    requires
        idle.state == (GuardedBlockingFileState::Idle { file }),
        remaining > 0,
        GuardedBlockingFile::has_polled_read(idle, asking, remaining, buffer_size, first),
        GuardedBlockingFile::has_leased(asking, reading, LeasePoll::Granted, second),
        GuardedBlockingFile::has_read(
            reading,
            done,
            WorkerPoll::Succeeded { file: back, value },
            third,
        ),
        idle.position + value <= u64::MAX,
    ensures
        first is PollLease,
        second matches FileStep::StartRead { file: given, read_len } && given == file && read_len
            <= remaining && read_len <= buffer_size && (read_len == remaining || read_len
            == buffer_size),
        third matches FileStep::Deliver { read } && read == value,
        done.state == (GuardedBlockingFileState::Idle { file: back }),
        done.position == idle.position + value,
{
}

/// A seek of a file with nothing in flight asks for a worker, goes where it was asked to, and
/// tells the position that it came to, where the next read starts.
pub proof fn law_seeks_move_the_position(
    idle: GuardedBlockingFile,
    asking: GuardedBlockingFile,
    seeking: GuardedBlockingFile,
    done: GuardedBlockingFile,
    file: Handle,
    back: Handle,
    position: SeekFrom,
    value: u64,
    started: Result<(), IoFailure>,
    first: FileStep,
    second: FileStep,
    third: FileStep,
    fourth: FileStep,
)
    requires
        idle.state == (GuardedBlockingFileState::Idle { file }),
        GuardedBlockingFile::has_started_seek(idle, asking, position, started),
        GuardedBlockingFile::completes(asking, first),
        GuardedBlockingFile::has_leased(asking, seeking, LeasePoll::Granted, second),
        GuardedBlockingFile::has_sought(
            seeking,
            done,
            WorkerPoll::Succeeded { file: back, value },
            third,
        ),
        GuardedBlockingFile::completes(done, fourth),
    ensures
        started is Ok,
        first is PollLease,
        second == (FileStep::StartSeek { file, position }),
        third == (FileStep::Ready { position: value }),
        done.state == (GuardedBlockingFileState::Idle { file: back }),
        done.position == value,
        fourth == (FileStep::Ready { position: value }),
{
}

/// A failed operation leaves the position and gives the file back, unless the worker was lost with
/// it; waiting changes nothing, and two operations are never in flight at once.
pub proof fn law_failed_operations_keep_the_position(
    before: GuardedBlockingFile,
    after: GuardedBlockingFile,
    file: Handle,
    failure: IoFailure,
    system: String,
    position: SeekFrom,
    remaining: usize,
    buffer_size: usize,
    started: Result<(), IoFailure>,
    step: FileStep,
)
    ensures
        GuardedBlockingFile::has_read(before, after, WorkerPoll::Failed { file, failure }, step)
            || GuardedBlockingFile::has_sought(
            before,
            after,
            WorkerPoll::Failed { file, failure },
            step,
        ) ==> {
            &&& step == (FileStep::Failed { failure })
            &&& after.state == (GuardedBlockingFileState::Idle { file })
            &&& after.position == before.position
        },
        GuardedBlockingFile::has_read(before, after, WorkerPoll::Lost { system }, step)
            || GuardedBlockingFile::has_sought(before, after, WorkerPoll::Lost { system }, step)
            ==> step is Failed && after.state is Vacant && after.position == before.position,
        GuardedBlockingFile::has_read(before, after, WorkerPoll::Pending, step)
            || GuardedBlockingFile::has_sought(before, after, WorkerPoll::Pending, step) || (
        GuardedBlockingFile::has_leased(before, after, LeasePoll::Pending, step)) ==> step is Pending
            && after == before,
        GuardedBlockingFile::has_started_seek(before, after, position, started) ==> (started is Ok
            <==> before.state is Idle),
        GuardedBlockingFile::has_polled_read(before, after, remaining, buffer_size, step) ==> {
            &&& step is Failed <==> before.state is AcquiringSeek || before.state is Seeking
                || before.state is Vacant
            &&& step is Ready <==> before.state is Idle && remaining == 0
            &&& step is PollWorker <==> before.state is Reading
        },
        GuardedBlockingFile::completes(before, step) ==> {
            &&& step is Failed <==> before.state is AcquiringRead || before.state is Reading
                || before.state is Vacant
            &&& step is PollWorker <==> before.state is Seeking
        },
{
}

} // verus!
