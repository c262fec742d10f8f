//! Typed errors shared by the filesystem, admission and HTTP layers.
//!
//! Internal errors keep their causes. Only [`ResponseError`] and [`ResponseErrorRef`] assign a
//! public status and text, and what a client sees depends on the kind of failure alone.
use crate::fault::{in_context, said, Fault};
use crate::response::{
    lemma_field_keys_differ, printable, with_field, without_field, Body, Field, Response, StatusCode,
};
use crate::text::{decimal, push_text};
use crate::time::Duration;
use vstd::prelude::*;
use vstd::utf8::*;

verus! {

/// The operating-system error numbers that the server tells apart.
#[derive(Clone, Copy, Debug, PartialEq, Eq, Structural)]
pub enum Errno {
    Access,
    Again,
    DQuot,
    Exist,
    Inval,
    Io,
    IsDir,
    Loop,
    NoEnt,
    NoSpc,
    NotDir,
    NotEmpty,
    Perm,
    XDev,
    Other { code: i32 },
}

/// The kinds of input and output errors that the server tells apart.
#[derive(Clone, Copy, Debug, PartialEq, Eq, Structural)]
pub enum IoErrorKind {
    NotFound,
    PermissionDenied,
    ReadOnlyFilesystem,
    AlreadyExists,
    DirectoryNotEmpty,
    NotADirectory,
    IsADirectory,
    CrossesDevices,
    BrokenPipe,
    ConnectionReset,
    ConnectionAborted,
    Interrupted,
    WouldBlock,
    TimedOut,
    UnexpectedEof,
    Other,
}

/// An error with everything that caused it.
#[allow(inconsistent_fields)]
#[derive(Debug)]
pub enum AnyError {
    /// A plain description.
    Message { text: String },
    /// A description of what was being done when the inner error came.
    Context { context: String, source: Box<AnyError> },
    /// An input or output error, with the system error number it came from, if any.
    Io { kind: IoErrorKind, errno: Option<Errno> },
    /// An input or output error that the program itself raised, with its own description.
    IoMessage { kind: IoErrorKind, text: String },
    /// A system error number, with the kind of error that it stands for.
    Os { errno: Errno, kind: IoErrorKind },
    Filesystem { error: Box<FsError> },
    Admission { error: AdmissionError },
    Http { error: Box<HttpError> },
}

/// Filesystem failures whose meaning must survive added context.
#[derive(Debug)]
pub enum FsError {
    NotFound { operation: &'static str, source: AnyError },
    Forbidden { operation: &'static str, source: AnyError },
    Conflict { operation: &'static str, source: AnyError },
    OutsideRoot { operation: &'static str, source: AnyError },
    /// The directory entry changed after the request's validated snapshot.
    Changed { role: MutationEndpointRole, endpoint: String, expected: String, actual: String },
    NoSpace { operation: &'static str, source: AnyError },
    /// A durability operation failed. `published` records whether the name may already have
    /// become visible before the failure.
    Durability { stage: DurabilityStage, published: bool, source: AnyError },
    Io { operation: &'static str, source: AnyError },
}

/// Role of a raced namespace endpoint.
#[derive(Clone, Copy, Debug, PartialEq, Eq, Structural)]
pub enum MutationEndpointRole {
    Target,
    Source,
    Destination,
}

/// Filesystem synchronization stage.
#[derive(Clone, Copy, Debug, PartialEq, Eq, Structural)]
pub enum DurabilityStage {
    CandidateFile,
    PublishedFile,
    CreatedDirectory,
    DestinationParent,
    SourceParent,
    RemovedEntryParent,
}

/// Finite resources governed by request admission, blocking work and protocol budgets.
#[derive(Clone, Copy, Debug, PartialEq, Eq, Structural)]
pub enum AdmissionResource {
    Requests,
    Uploads,
    FilesystemTasks,
    ExpensiveTasks,
    MutationLocks,
    UploadBytes,
    ArchiveBytes,
    ArchiveEntryNameBytes,
    WalkEntries,
    WalkDepth,
}

/// Whether exhausted queue capacity belongs to one caller or to the service as a whole.
#[derive(Clone, Copy, Debug, PartialEq, Eq, Structural)]
pub enum QueueScope {
    PerSource,
    PerAccount,
    Global,
    WorkerPool,
}

#[derive(Clone, Copy, Debug, PartialEq, Eq, Structural)]
pub enum LimitKind {
    Payload,
    Semantic,
}

#[derive(Clone, Copy, Debug, PartialEq, Eq, Structural)]
pub enum AdmissionTimeoutKind {
    /// Waiting to enter a bounded queue.
    Queue { scope: QueueScope },
    /// Admitted work exceeded its deadline.
    Execution,
}

#[allow(inconsistent_fields)]
#[derive(Clone, Copy, Debug, PartialEq, Eq, Structural)]
pub enum AdmissionError {
    QueueFull { resource: AdmissionResource, scope: QueueScope, limit: u64, retry_after: Duration },
    Timeout { resource: AdmissionResource, kind: AdmissionTimeoutKind, waited: Duration },
    Cancelled { resource: AdmissionResource },
    LimitExceeded { resource: AdmissionResource, kind: LimitKind, limit: u64, observed: Option<u64> },
}

/// HTTP-layer failures such as an authorization decision or malformed request syntax.
#[derive(Debug)]
pub enum HttpError {
    BadRequest { source: AnyError },
    Forbidden { source: AnyError },
    NotFound { source: AnyError },
}

#[derive(Clone, Copy, Debug, PartialEq, Eq, Structural)]
pub enum ChangedStatus {
    Conflict,
    PreconditionFailed,
}

/// A public body: fixed protocol text that never comes from a cause or a request.
#[derive(Clone, Copy, Debug)]
pub enum PublicErrorBody {
    Plain { text: &'static str },
}

#[derive(Clone, Copy, Debug, PartialEq, Eq, Structural)]
pub enum FsClassification {
    NotFound,
    Forbidden,
    Conflict,
    NoSpace,
    Io,
}

// ---------------------------------------------------------------------------------------------
// Causes
// ---------------------------------------------------------------------------------------------

impl FsError {
    /// What caused the failure.
    pub open spec fn cause(self) -> Option<AnyError> {
        match self {
            FsError::Changed { .. } => None,
            FsError::NotFound { source, .. } => Some(source),
            FsError::Forbidden { source, .. } => Some(source),
            FsError::Conflict { source, .. } => Some(source),
            FsError::OutsideRoot { source, .. } => Some(source),
            FsError::NoSpace { source, .. } => Some(source),
            FsError::Durability { source, .. } => Some(source),
            FsError::Io { source, .. } => Some(source),
        }
    }

    pub fn source(&self) -> (cause: Option<&AnyError>)
        ensures
            cause is Some == self.cause() is Some,
            cause matches Some(c) ==> self.cause() == Some(*c),
    {
        match self {
            FsError::Changed { .. } => None,
            FsError::NotFound { source, .. } => Some(source),
            FsError::Forbidden { source, .. } => Some(source),
            FsError::Conflict { source, .. } => Some(source),
            FsError::OutsideRoot { source, .. } => Some(source),
            FsError::NoSpace { source, .. } => Some(source),
            FsError::Durability { source, .. } => Some(source),
            FsError::Io { source, .. } => Some(source),
        }
    }
}

impl HttpError {
    /// What caused the failure.
    pub open spec fn cause(self) -> AnyError {
        match self {
            HttpError::BadRequest { source } => source,
            HttpError::Forbidden { source } => source,
            HttpError::NotFound { source } => source,
        }
    }

    pub fn source(&self) -> (cause: &AnyError)
        ensures
            *cause == self.cause(),
    {
        match self {
            HttpError::BadRequest { source } => source,
            HttpError::Forbidden { source } => source,
            HttpError::NotFound { source } => source,
        }
    }
}

impl AnyError {
    /// The error and all its causes, outermost first.
    pub open spec fn links(self) -> Seq<AnyError>
        decreases self,
    {
        match self {
            AnyError::Context { source, .. } => seq![self] + source.links(),
            AnyError::Filesystem { error } => match *error {
                FsError::Changed { .. } => seq![self],
                FsError::NotFound { source, .. } => seq![self] + source.links(),
                FsError::Forbidden { source, .. } => seq![self] + source.links(),
                FsError::Conflict { source, .. } => seq![self] + source.links(),
                FsError::OutsideRoot { source, .. } => seq![self] + source.links(),
                FsError::NoSpace { source, .. } => seq![self] + source.links(),
                FsError::Durability { source, .. } => seq![self] + source.links(),
                FsError::Io { source, .. } => seq![self] + source.links(),
            },
            AnyError::Http { error } => match *error {
                HttpError::BadRequest { source } => seq![self] + source.links(),
                HttpError::Forbidden { source } => seq![self] + source.links(),
                HttpError::NotFound { source } => seq![self] + source.links(),
            },
            _ => seq![self],
        }
    }

    /// What caused the error.
    pub open spec fn cause(self) -> Option<AnyError> {
        match self {
            AnyError::Context { source, .. } => Some(*source),
            AnyError::Filesystem { error } => error.cause(),
            AnyError::Http { error } => Some(error.cause()),
            _ => None,
        }
    }

    pub fn source(&self) -> (cause: Option<&AnyError>)
        ensures
            cause is Some == self.cause() is Some,
            cause matches Some(c) ==> self.cause() == Some(*c),
    {
        match self {
            AnyError::Context { source, .. } => Some(&**source),
            AnyError::Filesystem { error } => error.source(),
            AnyError::Http { error } => Some(error.source()),
            _ => None,
        }
    }

    /// The error and all its causes, outermost first.
    pub fn chain(&self) -> (links: Vec<&AnyError>)
        ensures
            links@.len() == self.links().len(),
            forall|i: int| 0 <= i < links@.len() ==> *#[trigger] links@[i] == self.links()[i],
    {
        let mut links: Vec<&AnyError> = Vec::new();
        let mut current: &AnyError = self;
        loop
            invariant_except_break
                links@.len() + current.links().len() == self.links().len(),
                forall|i: int| 0 <= i < links@.len() ==> *#[trigger] links@[i] == self.links()[i],
                self.links().subrange(links@.len() as int, self.links().len() as int)
                    == current.links(),
            ensures
                links@.len() == self.links().len(),
                forall|i: int| 0 <= i < links@.len() ==> *#[trigger] links@[i] == self.links()[i],
            decreases current.links().len(),
        {
            proof {
                lemma_links_step(*current);
                assert(self.links().subrange(links@.len() as int, self.links().len() as int)[0]
                    == self.links()[links@.len() as int]);
            }
            let ghost before = links@.len() as int;
            links.push(current);
            match current.source() {
                Some(cause) => {
                    proof {
                        assert(current.links() == seq![*current] + cause.links());
                        assert(self.links().subrange(before + 1, self.links().len() as int)
                            =~= self.links().subrange(before, self.links().len() as int).subrange(
                            1,
                            current.links().len() as int,
                        ));
                        assert((seq![*current] + cause.links()).subrange(
                            1,
                            current.links().len() as int,
                        ) =~= cause.links());
                    }
                    current = cause;
                },
                None => {
                    break;
                },
            }
        }
        links
    }

    /// Wraps the error in a description of what was being done.
    pub fn context(self, context: &str) -> (error: AnyError)
        ensures
            error matches AnyError::Context { context: held, source } && held@ == context@
                && *source == self,
            error.links().subrange(1, error.links().len() as int) == self.links(),
            error.links().len() == self.links().len() + 1,
            error@ == in_context(self@, context@),
    {
        let held = context.to_owned();
        let error = AnyError::Context { context: held, source: Box::new(self) };
        assert(error.links().subrange(1, error.links().len() as int) =~= self.links());
        error
    }

    pub fn message(text: &str) -> (error: AnyError)
        ensures
            error matches AnyError::Message { text: held } && held@ == text@,
            error@ == said(text@),
    {
        AnyError::Message { text: text.to_owned() }
    }

    pub fn io_message(kind: IoErrorKind, text: &str) -> (error: AnyError)
        ensures
            error matches AnyError::IoMessage { kind: k, text: held } && k == kind && held@
                == text@,
            error@ == (Fault::IoMessage { kind, text: text@ }),
    {
        AnyError::IoMessage { kind, text: text.to_owned() }
    }

    pub fn filesystem(error: FsError) -> (wrapped: AnyError)
        ensures
            wrapped == (AnyError::Filesystem { error: Box::new(error) }),
    {
        AnyError::Filesystem { error: Box::new(error) }
    }

    pub fn admission(error: AdmissionError) -> (wrapped: AnyError)
        ensures
            wrapped == (AnyError::Admission { error }),
            wrapped@ == (Fault::Admission { error }),
    {
        AnyError::Admission { error }
    }

    pub fn http(error: HttpError) -> (wrapped: AnyError)
        ensures
            wrapped == (AnyError::Http { error: Box::new(error) }),
    {
        AnyError::Http { error: Box::new(error) }
    }
}

/// The chain of an error is the error followed by the chain of its cause.
pub proof fn lemma_links_step(error: AnyError)
    ensures
        error.links().len() >= 1,
        error.links()[0] == error,
        error.cause() matches Some(cause) ==> error.links() == seq![error] + cause.links(),
        error.cause() is None ==> error.links() == seq![error],
{
}


// ---------------------------------------------------------------------------------------------
// Finding typed causes
// ---------------------------------------------------------------------------------------------

/// The first filesystem failure in a chain.
pub open spec fn first_filesystem(links: Seq<AnyError>) -> Option<FsError>
    decreases links.len(),
{
    if links.len() == 0 {
        None
    } else {
        match links[0] {
            AnyError::Filesystem { error } => Some(*error),
            _ => first_filesystem(links.drop_first()),
        }
    }
}

/// The first admission failure in a chain.
pub open spec fn first_admission(links: Seq<AnyError>) -> Option<AdmissionError>
    decreases links.len(),
{
    if links.len() == 0 {
        None
    } else {
        match links[0] {
            AnyError::Admission { error } => Some(error),
            _ => first_admission(links.drop_first()),
        }
    }
}

/// The first HTTP failure in a chain.
pub open spec fn first_http(links: Seq<AnyError>) -> Option<HttpError>
    decreases links.len(),
{
    if links.len() == 0 {
        None
    } else {
        match links[0] {
            AnyError::Http { error } => Some(*error),
            _ => first_http(links.drop_first()),
        }
    }
}

/// How an input or output error is classified.
pub open spec fn io_class(kind: IoErrorKind, errno: Option<Errno>) -> FsClassification {
    match kind {
        IoErrorKind::NotFound => FsClassification::NotFound,
        IoErrorKind::PermissionDenied | IoErrorKind::ReadOnlyFilesystem => {
            FsClassification::Forbidden
        },
        IoErrorKind::AlreadyExists
        | IoErrorKind::DirectoryNotEmpty
        | IoErrorKind::NotADirectory
        | IoErrorKind::IsADirectory
        | IoErrorKind::CrossesDevices => FsClassification::Conflict,
        _ => if errno == Some(Errno::NoSpc) || errno == Some(Errno::DQuot) {
            FsClassification::NoSpace
        } else {
            FsClassification::Io
        },
    }
}

/// The classification of the first system-level cause in a chain; a chain without one is a
/// plain I/O failure.
pub open spec fn chain_class(links: Seq<AnyError>) -> FsClassification
    decreases links.len(),
{
    if links.len() == 0 {
        FsClassification::Io
    } else {
        match links[0] {
            AnyError::Io { kind, errno } => io_class(kind, errno),
            AnyError::IoMessage { kind, .. } => io_class(kind, None),
            AnyError::Os { errno, kind } => io_class(kind, Some(errno)),
            _ => chain_class(links.drop_first()),
        }
    }
}

pub fn classify_io(kind: IoErrorKind, errno: Option<Errno>) -> (class: FsClassification)
    ensures
        class == io_class(kind, errno),
{
    match kind {
        IoErrorKind::NotFound => FsClassification::NotFound,
        IoErrorKind::PermissionDenied | IoErrorKind::ReadOnlyFilesystem => {
            FsClassification::Forbidden
        },
        IoErrorKind::AlreadyExists
        | IoErrorKind::DirectoryNotEmpty
        | IoErrorKind::NotADirectory
        | IoErrorKind::IsADirectory
        | IoErrorKind::CrossesDevices => FsClassification::Conflict,
        _ => match errno {
            Some(Errno::NoSpc) | Some(Errno::DQuot) => FsClassification::NoSpace,
            _ => FsClassification::Io,
        },
    }
}

/// The failure that a classification stands for.
pub open spec fn classified(
    operation: &'static str,
    source: AnyError,
    class: FsClassification,
) -> FsError {
    match class {
        FsClassification::NotFound => FsError::NotFound { operation, source },
        FsClassification::Forbidden => FsError::Forbidden { operation, source },
        FsClassification::Conflict => FsError::Conflict { operation, source },
        FsClassification::NoSpace => FsError::NoSpace { operation, source },
        FsClassification::Io => FsError::Io { operation, source },
    }
}

impl FsError {
    /// Classifies an error by the first system-level cause in its chain and keeps the chain.
    pub fn from_anyhow(operation: &'static str, source: AnyError) -> (error: FsError)
        ensures
            error == classified(operation, source, chain_class(source.links())),
    {
        let mut class: FsClassification = FsClassification::Io;
        {
            let links = source.chain();
            let mut i: usize = 0;
            let ghost all = source.links();
            assert(all.skip(0) =~= all);
            while i < links.len()
                invariant_except_break
                    i <= links.len(),
                    all == source.links(),
                    links@.len() == all.len(),
                    forall|j: int| 0 <= j < links@.len() ==> *#[trigger] links@[j] == all[j],
                    class == FsClassification::Io,
                    chain_class(all) == chain_class(all.skip(i as int)),
                ensures
                    class == chain_class(source.links()),
                decreases links.len() - i,
            {
                proof {
                    lemma_skip_first(all, i as int);
                }
                match links[i] {
                    AnyError::Io { kind, errno } => {
                        class = classify_io(*kind, *errno);
                        break;
                    },
                    AnyError::IoMessage { kind, .. } => {
                        class = classify_io(*kind, None);
                        break;
                    },
                    AnyError::Os { errno, kind } => {
                        class = classify_io(*kind, Some(*errno));
                        break;
                    },
                    _ => {},
                }
                i = i + 1;
            }
        }
        FsError::from_classification(operation, source, class)
    }

    pub fn from_classification(
        operation: &'static str,
        source: AnyError,
        classification: FsClassification,
    ) -> (error: FsError)
        ensures
            error == classified(operation, source, classification),
    {
        match classification {
            FsClassification::NotFound => FsError::NotFound { operation, source },
            FsClassification::Forbidden => FsError::Forbidden { operation, source },
            FsClassification::Conflict => FsError::Conflict { operation, source },
            FsClassification::NoSpace => FsError::NoSpace { operation, source },
            FsClassification::Io => FsError::Io { operation, source },
        }
    }

    pub fn conflict(operation: &'static str, source: AnyError) -> (error: FsError)
        ensures
            error == (FsError::Conflict { operation, source }),
    {
        FsError::Conflict { operation, source }
    }

    pub fn outside_root(operation: &'static str, source: AnyError) -> (error: FsError)
        ensures
            error == (FsError::OutsideRoot { operation, source }),
    {
        FsError::OutsideRoot { operation, source }
    }

    pub fn no_space(operation: &'static str, source: AnyError) -> (error: FsError)
        ensures
            error == (FsError::NoSpace { operation, source }),
    {
        FsError::NoSpace { operation, source }
    }

    pub fn changed(role: MutationEndpointRole, endpoint: &str, expected: &str, actual: &str) -> (error:
        FsError)
        ensures
            error.is_changed(role, endpoint@, expected@, actual@),
    {
        FsError::Changed {
            role,
            endpoint: endpoint.to_owned(),
            expected: expected.to_owned(),
            actual: actual.to_owned(),
        }
    }

    /// A changed entry with these details.
    pub open spec fn is_changed(
        self,
        role: MutationEndpointRole,
        endpoint: Seq<char>,
        expected: Seq<char>,
        actual: Seq<char>,
    ) -> bool {
        self matches FsError::Changed { role: r, endpoint: n, expected: e, actual: a } && r == role
            && n@ == endpoint && e@ == expected && a@ == actual
    }

    pub fn durability(stage: DurabilityStage, published: bool, source: AnyError) -> (error: FsError)
        ensures
            error == (FsError::Durability { stage, published, source }),
    {
        FsError::Durability { stage, published, source }
    }

    pub fn io(operation: &'static str, source: AnyError) -> (error: FsError)
        ensures
            error == (FsError::Io { operation, source }),
    {
        FsError::Io { operation, source }
    }

    pub fn is_published_durability_failure(&self) -> (published: bool)
        ensures
            published == (self matches FsError::Durability { published: true, .. }),
    {
        match self {
            FsError::Durability { published, .. } => *published,
            _ => false,
        }
    }

    /// The details of a changed entry.
    pub fn changed_details(&self) -> (details: Option<(MutationEndpointRole, &str, &str, &str)>)
        ensures
            details is Some == self is Changed,
            details matches Some((role, endpoint, expected, actual)) ==> self.is_changed(
                role,
                endpoint@,
                expected@,
                actual@,
            ),
    {
        match self {
            FsError::Changed { role, endpoint, expected, actual } => Some(
                (*role, endpoint.as_str(), expected.as_str(), actual.as_str()),
            ),
            _ => None,
        }
    }

    /// The first filesystem failure in an error's chain.
    pub fn in_anyhow_chain(error: &AnyError) -> (found: Option<&FsError>)
        ensures
            found is Some == first_filesystem(error.links()) is Some,
            found matches Some(f) ==> first_filesystem(error.links()) == Some(*f),
    {
        let links = error.chain();
        let ghost all = error.links();
        assert(all.skip(0) =~= all);
        let mut i: usize = 0;
        while i < links.len()
            invariant
                i <= links.len(),
                all == error.links(),
                links@.len() == all.len(),
                forall|j: int| 0 <= j < links@.len() ==> *#[trigger] links@[j] == all[j],
                first_filesystem(all) == first_filesystem(all.skip(i as int)),
            decreases links.len() - i,
        {
            proof {
                lemma_skip_first(all, i as int);
            }
            match links[i] {
                AnyError::Filesystem { error: found } => {
                    return Some(&**found);
                },
                _ => {},
            }
            i = i + 1;
        }
        None
    }
}

proof fn lemma_skip_first(links: Seq<AnyError>, i: int)
    requires
        0 <= i < links.len(),
    ensures
        links.skip(i)[0] == links[i],
        links.skip(i).drop_first() == links.skip(i + 1),
{
    assert(links.skip(i).drop_first() =~= links.skip(i + 1));
}


impl AdmissionError {
    pub fn queue_full(resource: AdmissionResource, scope: QueueScope, limit: u64) -> (error:
        AdmissionError)
        ensures
            error == (AdmissionError::QueueFull {
                resource,
                scope,
                limit,
                retry_after: (Duration { secs: 1, nanos: 0 }),
            }),
    {
        AdmissionError::QueueFull { resource, scope, limit, retry_after: Duration::from_secs(1) }
    }

    pub fn queue_timeout(resource: AdmissionResource, scope: QueueScope, waited: Duration) -> (error:
        AdmissionError)
        ensures
            error == (AdmissionError::Timeout {
                resource,
                kind: (AdmissionTimeoutKind::Queue { scope }),
                waited,
            }),
    {
        AdmissionError::Timeout { resource, kind: AdmissionTimeoutKind::Queue { scope }, waited }
    }

    pub fn execution_timeout(resource: AdmissionResource, waited: Duration) -> (error:
        AdmissionError)
        ensures
            error == (AdmissionError::Timeout {
                resource,
                kind: AdmissionTimeoutKind::Execution,
                waited,
            }),
    {
        AdmissionError::Timeout { resource, kind: AdmissionTimeoutKind::Execution, waited }
    }

    pub fn cancelled(resource: AdmissionResource) -> (error: AdmissionError)
        ensures
            error == (AdmissionError::Cancelled { resource }),
    {
        AdmissionError::Cancelled { resource }
    }

    pub fn limit_exceeded(
        resource: AdmissionResource,
        kind: LimitKind,
        limit: u64,
        observed: Option<u64>,
    ) -> (error: AdmissionError)
        ensures
            error == (AdmissionError::LimitExceeded { resource, kind, limit, observed }),
    {
        AdmissionError::LimitExceeded { resource, kind, limit, observed }
    }

    /// The first admission failure in an error's chain.
    pub fn in_anyhow_chain(error: &AnyError) -> (found: Option<&AdmissionError>)
        ensures
            found is Some == first_admission(error.links()) is Some,
            found matches Some(f) ==> first_admission(error.links()) == Some(*f),
    {
        let links = error.chain();
        let ghost all = error.links();
        assert(all.skip(0) =~= all);
        let mut i: usize = 0;
        while i < links.len()
            invariant
                i <= links.len(),
                all == error.links(),
                links@.len() == all.len(),
                forall|j: int| 0 <= j < links@.len() ==> *#[trigger] links@[j] == all[j],
                first_admission(all) == first_admission(all.skip(i as int)),
            decreases links.len() - i,
        {
            proof {
                lemma_skip_first(all, i as int);
            }
            match links[i] {
                AnyError::Admission { error: found } => {
                    return Some(found);
                },
                _ => {},
            }
            i = i + 1;
        }
        None
    }

    /// How long a client should wait before it tries again, for the failures that waiting can
    /// cure.
    pub open spec fn wait(self) -> Option<Duration> {
        match self {
            AdmissionError::QueueFull { retry_after, .. } => Some(retry_after),
            AdmissionError::Cancelled { .. } => Some(Duration { secs: 1, nanos: 0 }),
            AdmissionError::Timeout { kind: AdmissionTimeoutKind::Queue { .. }, .. } => Some(
                Duration { secs: 1, nanos: 0 },
            ),
            AdmissionError::Timeout { kind: AdmissionTimeoutKind::Execution, .. } => None,
            AdmissionError::LimitExceeded { .. } => None,
        }
    }

    pub fn retry_after(&self) -> (wait: Option<Duration>)
        ensures
            wait == self.wait(),
    {
        match self {
            AdmissionError::QueueFull { retry_after, .. } => Some(*retry_after),
            AdmissionError::Cancelled { .. } => Some(Duration::from_secs(1)),
            AdmissionError::Timeout { kind: AdmissionTimeoutKind::Queue { .. }, .. } => Some(
                Duration::from_secs(1),
            ),
            AdmissionError::Timeout { kind: AdmissionTimeoutKind::Execution, .. } => None,
            AdmissionError::LimitExceeded { .. } => None,
        }
    }
}

impl HttpError {
    pub fn bad_request(source: AnyError) -> (error: HttpError)
        ensures
            error == (HttpError::BadRequest { source }),
    {
        HttpError::BadRequest { source }
    }

    pub fn forbidden(source: AnyError) -> (error: HttpError)
        ensures
            error == (HttpError::Forbidden { source }),
    {
        HttpError::Forbidden { source }
    }

    pub fn not_found(source: AnyError) -> (error: HttpError)
        ensures
            error == (HttpError::NotFound { source }),
    {
        HttpError::NotFound { source }
    }

    /// The first HTTP failure in an error's chain.
    pub fn in_anyhow_chain(error: &AnyError) -> (found: Option<&HttpError>)
        ensures
            found is Some == first_http(error.links()) is Some,
            found matches Some(f) ==> first_http(error.links()) == Some(*f),
    {
        let links = error.chain();
        let ghost all = error.links();
        assert(all.skip(0) =~= all);
        let mut i: usize = 0;
        while i < links.len()
            invariant
                i <= links.len(),
                all == error.links(),
                links@.len() == all.len(),
                forall|j: int| 0 <= j < links@.len() ==> *#[trigger] links@[j] == all[j],
                first_http(all) == first_http(all.skip(i as int)),
            decreases links.len() - i,
        {
            proof {
                lemma_skip_first(all, i as int);
            }
            match links[i] {
                AnyError::Http { error: found } => {
                    return Some(&**found);
                },
                _ => {},
            }
            i = i + 1;
        }
        None
    }
}

// ---------------------------------------------------------------------------------------------
// Public mapping
// ---------------------------------------------------------------------------------------------

pub open spec fn fs_status(error: FsError, changed_status: ChangedStatus) -> StatusCode {
    match error {
        FsError::NotFound { .. } => StatusCode::NotFound,
        FsError::Forbidden { .. } | FsError::OutsideRoot { .. } => StatusCode::Forbidden,
        FsError::Conflict { .. } => StatusCode::Conflict,
        FsError::Changed { .. } => match changed_status {
            ChangedStatus::Conflict => StatusCode::Conflict,
            ChangedStatus::PreconditionFailed => StatusCode::PreconditionFailed,
        },
        FsError::NoSpace { .. } => StatusCode::InsufficientStorage,
        FsError::Durability { .. } | FsError::Io { .. } => StatusCode::InternalServerError,
    }
}

/// The status of a failure that lies with one caller or with the service as a whole.
pub open spec fn scope_status(scope: QueueScope) -> StatusCode {
    match scope {
        QueueScope::PerSource | QueueScope::PerAccount => StatusCode::TooManyRequests,
        QueueScope::Global | QueueScope::WorkerPool => StatusCode::ServiceUnavailable,
    }
}

pub open spec fn admission_code(error: AdmissionError) -> StatusCode {
    match error {
        AdmissionError::QueueFull { scope, .. } => scope_status(scope),
        AdmissionError::Timeout { kind, .. } => match kind {
            AdmissionTimeoutKind::Queue { scope } => scope_status(scope),
            AdmissionTimeoutKind::Execution => StatusCode::GatewayTimeout,
        },
        AdmissionError::Cancelled { .. } => StatusCode::ServiceUnavailable,
        AdmissionError::LimitExceeded { kind, .. } => match kind {
            LimitKind::Payload => StatusCode::PayloadTooLarge,
            LimitKind::Semantic => StatusCode::UnprocessableEntity,
        },
    }
}

pub open spec fn http_code(error: HttpError) -> StatusCode {
    match error {
        HttpError::BadRequest { .. } => StatusCode::BadRequest,
        HttpError::Forbidden { .. } => StatusCode::Forbidden,
        HttpError::NotFound { .. } => StatusCode::NotFound,
    }
}

/// What a client reads about a failure: a text that the status alone determines.
pub open spec fn public_text(status: StatusCode) -> Seq<char> {
    match status {
        StatusCode::BadRequest => "Bad Request"@,
        StatusCode::Forbidden => "Forbidden"@,
        StatusCode::NotFound => "Not Found"@,
        StatusCode::Conflict => "Conflict"@,
        StatusCode::PreconditionFailed => "Precondition Failed"@,
        StatusCode::PayloadTooLarge => "Payload Too Large"@,
        StatusCode::UnprocessableEntity => "Unprocessable Entity"@,
        StatusCode::TooManyRequests => "Too Many Requests"@,
        StatusCode::ServiceUnavailable => "Service Unavailable"@,
        StatusCode::GatewayTimeout => "Gateway Timeout"@,
        StatusCode::InsufficientStorage => "Insufficient Storage"@,
        _ => "Internal Server Error"@,
    }
}

pub fn filesystem_status(error: &FsError, changed_status: ChangedStatus) -> (status: StatusCode)
    ensures
        status == fs_status(*error, changed_status),
{
    match error {
        FsError::NotFound { .. } => StatusCode::NotFound,
        FsError::Forbidden { .. } | FsError::OutsideRoot { .. } => StatusCode::Forbidden,
        FsError::Conflict { .. } => StatusCode::Conflict,
        FsError::Changed { .. } => match changed_status {
            ChangedStatus::Conflict => StatusCode::Conflict,
            ChangedStatus::PreconditionFailed => StatusCode::PreconditionFailed,
        },
        FsError::NoSpace { .. } => StatusCode::InsufficientStorage,
        // A failure after publication is ambiguous: an automatic retry could repeat or undo a
        // mutation that succeeded.
        FsError::Durability { .. } | FsError::Io { .. } => StatusCode::InternalServerError,
    }
}

pub fn admission_status(error: &AdmissionError) -> (status: StatusCode)
    ensures
        status == admission_code(*error),
{
    match error {
        AdmissionError::QueueFull { scope, .. } => match scope {
            QueueScope::PerSource | QueueScope::PerAccount => StatusCode::TooManyRequests,
            QueueScope::Global | QueueScope::WorkerPool => StatusCode::ServiceUnavailable,
        },
        AdmissionError::Timeout { kind, .. } => match kind {
            AdmissionTimeoutKind::Queue { scope } => match scope {
                QueueScope::PerSource | QueueScope::PerAccount => StatusCode::TooManyRequests,
                QueueScope::Global | QueueScope::WorkerPool => StatusCode::ServiceUnavailable,
            },
            AdmissionTimeoutKind::Execution => StatusCode::GatewayTimeout,
        },
        AdmissionError::Cancelled { .. } => StatusCode::ServiceUnavailable,
        AdmissionError::LimitExceeded { kind, .. } => match kind {
            LimitKind::Payload => StatusCode::PayloadTooLarge,
            LimitKind::Semantic => StatusCode::UnprocessableEntity,
        },
    }
}

pub fn http_status(error: &HttpError) -> (status: StatusCode)
    ensures
        status == http_code(*error),
{
    match error {
        HttpError::BadRequest { .. } => StatusCode::BadRequest,
        HttpError::Forbidden { .. } => StatusCode::Forbidden,
        HttpError::NotFound { .. } => StatusCode::NotFound,
    }
}

pub fn default_public_body(status: StatusCode) -> (text: &'static str)
    ensures
        text@ == public_text(status),
{
    match status {
        StatusCode::BadRequest => "Bad Request",
        StatusCode::Forbidden => "Forbidden",
        StatusCode::NotFound => "Not Found",
        StatusCode::Conflict => "Conflict",
        StatusCode::PreconditionFailed => "Precondition Failed",
        StatusCode::PayloadTooLarge => "Payload Too Large",
        StatusCode::UnprocessableEntity => "Unprocessable Entity",
        StatusCode::TooManyRequests => "Too Many Requests",
        StatusCode::ServiceUnavailable => "Service Unavailable",
        StatusCode::GatewayTimeout => "Gateway Timeout",
        StatusCode::InsufficientStorage => "Insufficient Storage",
        _ => "Internal Server Error",
    }
}

impl PublicErrorBody {
    pub fn plain(body: &'static str) -> (public: PublicErrorBody)
        ensures
            public == (PublicErrorBody::Plain { text: body }),
    {
        PublicErrorBody::Plain { text: body }
    }

    pub open spec fn text(self) -> Seq<char> {
        match self {
            PublicErrorBody::Plain { text } => text@,
        }
    }
}

/// The fields of an error response: those of the response in progress without what described
/// the representation it was going to carry, with the wait, if there is one, and with the type
/// of the error text.
pub open spec fn error_fields(
    before: Map<Seq<char>, Seq<Seq<u8>>>,
    retry_after: Option<Duration>,
) -> Map<Seq<char>, Seq<Seq<u8>>> {
    let stripped = without_field(
        without_field(
            without_field(
                without_field(
                    without_field(
                        without_field(
                            without_field(before, Field::AcceptRanges),
                            Field::ContentDisposition,
                        ),
                        Field::ContentEncoding,
                    ),
                    Field::ContentLength,
                ),
                Field::ContentRange,
            ),
            Field::Etag,
        ),
        Field::LastModified,
    );
    let waited = match retry_after {
        Some(span) => with_field(stripped, Field::RetryAfter, decimal(span.covering_secs())),
        None => without_field(stripped, Field::RetryAfter),
    };
    with_field(waited, Field::ContentType, encode_utf8("text/plain; charset=utf-8"@))
}

/// A response that was turned into an error response.
pub open spec fn is_error_response(
    before: Response,
    after: Response,
    status: StatusCode,
    retry_after: Option<Duration>,
    text: Seq<char>,
) -> bool {
    &&& after.wf()
    &&& after.status == status
    &&& after.fields() == error_fields(before.fields(), retry_after)
    &&& after.body.is_bytes(encode_utf8(text))
}

/// Turns a response in progress into an error response.
pub fn apply_response_error(
    response: &mut Response,
    status: StatusCode,
    retry_after: Option<Duration>,
    body: PublicErrorBody,
)
    requires
        old(response).wf(),
    ensures
        is_error_response(*old(response), *final(response), status, retry_after, body.text()),
{
    response.status = status;
    // The response may already describe a success; none of that describes the error text.
    response.remove(Field::AcceptRanges);
    response.remove(Field::ContentDisposition);
    response.remove(Field::ContentEncoding);
    response.remove(Field::ContentLength);
    response.remove(Field::ContentRange);
    response.remove(Field::Etag);
    response.remove(Field::LastModified);
    match retry_after {
        Some(span) => {
            response.set_number(Field::RetryAfter, span.whole_secs_at_least_one());
        },
        None => {
            response.remove(Field::RetryAfter);
        },
    }
    let PublicErrorBody::Plain { text } = body;
    proof {
        reveal_strlit("text/plain; charset=utf-8");
        assert(printable("text/plain; charset=utf-8"@));
    }
    response.set_text(Field::ContentType, "text/plain; charset=utf-8");
    let mut bytes: Vec<u8> = Vec::new();
    push_text(&mut bytes, text);
    assert(bytes@ =~= encode_utf8(text@));
    response.body = Body::Full { bytes };
}

/// What a typed error answers with.
#[allow(inconsistent_fields)]
#[derive(Debug)]
pub enum ResponseErrorSource {
    Fs { error: FsError },
    Admission { error: AdmissionError },
    Http { error: HttpError },
    /// An error whose chain held a typed cause, with the mapping of that cause.
    CapturedAnyhow { source: AnyError, status: StatusCode, retry_after: Option<Duration> },
}

/// An error on its way to the client.
#[derive(Debug)]
pub struct ResponseError {
    pub source: ResponseErrorSource,
    pub changed_status: ChangedStatus,
}

impl ResponseError {
    pub open spec fn code(self) -> StatusCode {
        match self.source {
            ResponseErrorSource::Http { error } => http_code(error),
            ResponseErrorSource::Fs { error } => fs_status(error, self.changed_status),
            ResponseErrorSource::Admission { error } => admission_code(error),
            ResponseErrorSource::CapturedAnyhow { status, .. } => status,
        }
    }

    pub open spec fn wait(self) -> Option<Duration> {
        match self.source {
            ResponseErrorSource::Admission { error } => error.wait(),
            ResponseErrorSource::CapturedAnyhow { retry_after, .. } => retry_after,
            ResponseErrorSource::Fs { .. } => None,
            ResponseErrorSource::Http { .. } => None,
        }
    }

    pub fn filesystem(error: FsError, changed_status: ChangedStatus) -> (mapped: ResponseError)
        ensures
            mapped.source == (ResponseErrorSource::Fs { error }),
            mapped.changed_status == changed_status,
    {
        ResponseError { source: ResponseErrorSource::Fs { error }, changed_status }
    }

    pub fn admission(error: AdmissionError) -> (mapped: ResponseError)
        ensures
            mapped.source == (ResponseErrorSource::Admission { error }),
            mapped.changed_status == ChangedStatus::Conflict,
    {
        ResponseError {
            source: ResponseErrorSource::Admission { error },
            changed_status: ChangedStatus::Conflict,
        }
    }

    pub fn bad_request(source: AnyError) -> (mapped: ResponseError)
        ensures
            mapped.source == (ResponseErrorSource::Http {
                error: (HttpError::BadRequest { source }),
            }),
            mapped.changed_status == ChangedStatus::Conflict,
    {
        ResponseError::http(HttpError::bad_request(source))
    }

    pub fn http(error: HttpError) -> (mapped: ResponseError)
        ensures
            mapped.source == (ResponseErrorSource::Http { error }),
            mapped.changed_status == ChangedStatus::Conflict,
    {
        ResponseError {
            source: ResponseErrorSource::Http { error },
            changed_status: ChangedStatus::Conflict,
        }
    }

    /// An error taken over with the answer that it asks for.
    pub open spec fn mapped_from(
        operation: &'static str,
        error: AnyError,
        changed_status: ChangedStatus,
        mapped: ResponseError,
    ) -> bool {
        &&& mapped.changed_status == changed_status
        &&& match typed_mapping(error.links(), changed_status) {
            Some((status, retry_after)) => mapped.source == (
            ResponseErrorSource::CapturedAnyhow { source: error, status, retry_after }),
            None => mapped.source == (ResponseErrorSource::Fs {
                error: classified(operation, error, chain_class(error.links())),
            }),
        }
    }

    /// Takes over an error: a typed cause anywhere in its chain decides the answer, and an
    /// error without one is classified by its system-level cause.
    pub fn from_anyhow_or_filesystem(
        operation: &'static str,
        error: AnyError,
        changed_status: ChangedStatus,
    ) -> (mapped: ResponseError)
        ensures
            ResponseError::mapped_from(operation, error, changed_status, mapped),
    {
        let mut mapping: Option<(StatusCode, Option<Duration>)> = None;
        {
            match ResponseErrorRef::from_anyhow_typed(&error, changed_status) {
                Some(view) => {
                    mapping = Some((view.status(), view.retry_after()));
                },
                None => {},
            }
        }
        match mapping {
            Some((status, retry_after)) => ResponseError {
                source: ResponseErrorSource::CapturedAnyhow { source: error, status, retry_after },
                changed_status,
            },
            None => ResponseError::filesystem(
                FsError::from_anyhow(operation, error),
                changed_status,
            ),
        }
    }

    pub fn status(&self) -> (status: StatusCode)
        ensures
            status == self.code(),
    {
        match &self.source {
            ResponseErrorSource::Http { error } => http_status(error),
            ResponseErrorSource::Fs { error } => filesystem_status(error, self.changed_status),
            ResponseErrorSource::Admission { error } => admission_status(error),
            ResponseErrorSource::CapturedAnyhow { status, .. } => *status,
        }
    }

    pub fn retry_after(&self) -> (wait: Option<Duration>)
        ensures
            wait == self.wait(),
    {
        match &self.source {
            ResponseErrorSource::Admission { error } => error.retry_after(),
            ResponseErrorSource::CapturedAnyhow { retry_after, .. } => *retry_after,
            ResponseErrorSource::Fs { .. } => None,
            ResponseErrorSource::Http { .. } => None,
        }
    }

    pub fn default_public_body(&self) -> (text: &'static str)
        ensures
            text@ == public_text(self.code()),
    {
        default_public_body(self.status())
    }

    pub fn apply(&self, response: &mut Response)
        requires
            old(response).wf(),
        ensures
            is_error_response(
                *old(response),
                *final(response),
                self.code(),
                self.wait(),
                public_text(self.code()),
            ),
    {
        let body = PublicErrorBody::plain(self.default_public_body());
        self.apply_with_body(response, body);
    }

    pub fn apply_with_body(&self, response: &mut Response, body: PublicErrorBody)
        requires
            old(response).wf(),
        ensures
            is_error_response(
                *old(response),
                *final(response),
                self.code(),
                self.wait(),
                body.text(),
            ),
    {
        apply_response_error(response, self.status(), self.retry_after(), body);
    }
}

/// The typed cause that decides an answer.
#[allow(inconsistent_fields)]
#[derive(Clone, Copy, Debug)]
pub enum ResponseErrorRefSource<'a> {
    Fs { error: &'a FsError },
    Admission { error: &'a AdmissionError },
    Http { error: &'a HttpError },
}

/// The status and wait that the typed cause of a chain asks for. Filesystem failures come
/// before admission failures, and those before HTTP failures.
pub open spec fn typed_mapping(links: Seq<AnyError>, changed_status: ChangedStatus) -> Option<
    (StatusCode, Option<Duration>),
> {
    match first_filesystem(links) {
        Some(error) => Some((fs_status(error, changed_status), None)),
        None => match first_admission(links) {
            Some(error) => Some((admission_code(error), error.wait())),
            None => match first_http(links) {
                Some(error) => Some((http_code(error), None)),
                None => None,
            },
        },
    }
}

/// A view of the typed cause in an error's chain.
#[derive(Debug)]
pub struct ResponseErrorRef<'a> {
    pub source: ResponseErrorRefSource<'a>,
    pub changed_status: ChangedStatus,
}

/// Whether a view shows the cause that decides: the first filesystem failure of the chain, else
/// the first admission failure, else the first HTTP failure, else nothing.
pub open spec fn views_cause(view: Option<ResponseErrorRef<'_>>, links: Seq<AnyError>) -> bool {
    match first_filesystem(links) {
        Some(f) => view matches Some(v) && v.source matches ResponseErrorRefSource::Fs { error }
            && *error == f,
        None => match first_admission(links) {
            Some(a) => view matches Some(v)
                && v.source matches ResponseErrorRefSource::Admission { error } && *error == a,
            None => match first_http(links) {
                Some(h) => view matches Some(v)
                    && v.source matches ResponseErrorRefSource::Http { error } && *error == h,
                None => view is None,
            },
        },
    }
}

impl<'a> ResponseErrorRef<'a> {
    pub open spec fn code(self) -> StatusCode {
        match self.source {
            ResponseErrorRefSource::Fs { error } => fs_status(*error, self.changed_status),
            ResponseErrorRefSource::Admission { error } => admission_code(*error),
            ResponseErrorRefSource::Http { error } => http_code(*error),
        }
    }

    pub open spec fn wait(self) -> Option<Duration> {
        match self.source {
            ResponseErrorRefSource::Fs { .. } => None,
            ResponseErrorRefSource::Admission { error } => error.wait(),
            ResponseErrorRefSource::Http { .. } => None,
        }
    }

    pub fn from_anyhow_typed(error: &'a AnyError, changed_status: ChangedStatus) -> (view: Option<
        ResponseErrorRef<'a>,
    >)
        ensures
            views_cause(view, error.links()),
            view is Some == typed_mapping(error.links(), changed_status) is Some,
            view matches Some(v) ==> typed_mapping(error.links(), changed_status) == Some(
                (v.code(), v.wait()),
            ),
            view matches Some(v) ==> v.changed_status == changed_status,
    {
        match FsError::in_anyhow_chain(error) {
            Some(found) => {
                return Some(
                    ResponseErrorRef {
                        source: ResponseErrorRefSource::Fs { error: found },
                        changed_status,
                    },
                );
            },
            None => {},
        }
        match AdmissionError::in_anyhow_chain(error) {
            Some(found) => {
                return Some(
                    ResponseErrorRef {
                        source: ResponseErrorRefSource::Admission { error: found },
                        changed_status,
                    },
                );
            },
            None => {},
        }
        match HttpError::in_anyhow_chain(error) {
            Some(found) => Some(
                ResponseErrorRef {
                    source: ResponseErrorRefSource::Http { error: found },
                    changed_status,
                },
            ),
            None => None,
        }
    }

    pub fn status(&self) -> (status: StatusCode)
        ensures
            status == self.code(),
    {
        match self.source {
            ResponseErrorRefSource::Fs { error } => filesystem_status(error, self.changed_status),
            ResponseErrorRefSource::Admission { error } => admission_status(error),
            ResponseErrorRefSource::Http { error } => http_status(error),
        }
    }

    pub fn retry_after(&self) -> (wait: Option<Duration>)
        ensures
            wait == self.wait(),
    {
        match self.source {
            ResponseErrorRefSource::Fs { .. } => None,
            ResponseErrorRefSource::Admission { error } => error.retry_after(),
            ResponseErrorRefSource::Http { .. } => None,
        }
    }

    pub fn default_public_body(&self) -> (text: &'static str)
        ensures
            text@ == public_text(self.code()),
    {
        default_public_body(self.status())
    }

    pub fn apply(&self, response: &mut Response)
        requires
            old(response).wf(),
        ensures
            is_error_response(
                *old(response),
                *final(response),
                self.code(),
                self.wait(),
                public_text(self.code()),
            ),
    {
        let body = PublicErrorBody::plain(self.default_public_body());
        self.apply_with_body(response, body);
    }

    pub fn apply_with_body(&self, response: &mut Response, body: PublicErrorBody)
        requires
            old(response).wf(),
        ensures
            is_error_response(
                *old(response),
                *final(response),
                self.code(),
                self.wait(),
                body.text(),
            ),
    {
        apply_response_error(response, self.status(), self.retry_after(), body);
    }
}

/// The answer to a request that an error ended.
pub open spec fn answered_for(
    before: Response,
    after: Response,
    error: AnyError,
    changed_status: ChangedStatus,
) -> bool {
    &&& match typed_mapping(error.links(), changed_status) {
        Some((status, retry_after)) => is_error_response(
            before,
            after,
            status,
            retry_after,
            public_text(status),
        ),
        None => is_error_response(
            before,
            after,
            StatusCode::InternalServerError,
            None,
            "Internal Server Error"@,
        ),
    }
}

/// The last resort at the request boundary: a typed cause decides the answer, and every other
/// failure gets the same text without detail.
pub fn apply_anyhow_or_internal(
    response: &mut Response,
    error: &AnyError,
    changed_status: ChangedStatus,
)
    requires
        old(response).wf(),
    ensures
        answered_for(*old(response), *final(response), *error, changed_status),
{
    match ResponseErrorRef::from_anyhow_typed(error, changed_status) {
        Some(view) => {
            view.apply(response);
        },
        None => {
            apply_response_error(
                response,
                StatusCode::InternalServerError,
                None,
                PublicErrorBody::plain("Internal Server Error"),
            );
        },
    }
}

// ---------------------------------------------------------------------------------------------
// Laws
// ---------------------------------------------------------------------------------------------

/// Context changes neither the typed cause that an error carries nor its classification.
pub proof fn law_context_is_transparent(
    context: String,
    error: AnyError,
    changed_status: ChangedStatus,
)
    ensures
        ({
            let wrapped = AnyError::Context { context, source: Box::new(error) };
            &&& first_filesystem(wrapped.links()) == first_filesystem(error.links())
            &&& first_admission(wrapped.links()) == first_admission(error.links())
            &&& first_http(wrapped.links()) == first_http(error.links())
            &&& chain_class(wrapped.links()) == chain_class(error.links())
            &&& typed_mapping(wrapped.links(), changed_status) == typed_mapping(
                error.links(),
                changed_status,
            )
        }),
{
    let wrapped = AnyError::Context { context, source: Box::new(error) };
    assert(wrapped.links().drop_first() =~= error.links());
}

/// Nothing that described a successful representation survives in an error response, the wait
/// is there exactly when the failure has one, and every other field stays as it was.
pub proof fn law_error_fields(
    before: Map<Seq<char>, Seq<Seq<u8>>>,
    retry_after: Option<Duration>,
    field: Field,
)
    ensures
        ({
            let after = error_fields(before, retry_after);
            match field {
                Field::AcceptRanges
                | Field::ContentDisposition
                | Field::ContentEncoding
                | Field::ContentLength
                | Field::ContentRange
                | Field::Etag
                | Field::LastModified => !after.dom().contains(field.key()),
                Field::RetryAfter => {
                    &&& after.dom().contains(field.key()) <==> retry_after is Some
                    &&& retry_after matches Some(span) ==> after[field.key()] == seq![
                        decimal(span.covering_secs()),
                    ]
                },
                Field::ContentType => after.dom().contains(field.key()) && after[field.key()]
                    == seq![encode_utf8("text/plain; charset=utf-8"@)],
                _ => {
                    &&& after.dom().contains(field.key()) == before.dom().contains(field.key())
                    &&& before.dom().contains(field.key()) ==> after[field.key()]
                        == before[field.key()]
                },
            }
        }),
{
    assert forall|other: Field| other != field implies #[trigger] other.key() != field.key() by {
        lemma_field_keys_differ(other, field);
    }
}

/// A failure to make a change durable is an internal error for which no retry is advertised,
/// published or not.
pub proof fn law_durability_is_internal_without_retry(
    stage: DurabilityStage,
    published: bool,
    source: AnyError,
    changed_status: ChangedStatus,
)
    ensures
        ({
            let error = FsError::Durability { stage, published, source };
            let wrapped = AnyError::Filesystem { error: Box::new(error) };
            typed_mapping(wrapped.links(), changed_status) == Some(
                (StatusCode::InternalServerError, None::<Duration>),
            )
        }),
{
}

/// A wait is advertised only with the statuses of an overloaded or unavailable service.
pub proof fn law_retry_only_when_overloaded(
    links: Seq<AnyError>,
    changed_status: ChangedStatus,
)
    ensures
        typed_mapping(links, changed_status) matches Some((status, Some(_))) ==> status
            == StatusCode::TooManyRequests || status == StatusCode::ServiceUnavailable,
{
}

/// Each kind of filesystem failure has its status: what is missing is not found, what is denied
/// or lies outside is forbidden, what stands in the way is a conflict, what was changed by someone
/// else is what the request asks for such a case, a full disk is told, and only the rest is the
/// server's own failure.
pub proof fn law_filesystem_statuses(error: FsError, changed_status: ChangedStatus)
    ensures
        fs_status(error, changed_status) == StatusCode::NotFound <==> error is NotFound,
        fs_status(error, changed_status) == StatusCode::Forbidden <==> error is Forbidden || error
            is OutsideRoot,
        fs_status(error, changed_status) == StatusCode::Conflict <==> error is Conflict || (error
            is Changed && changed_status == ChangedStatus::Conflict),
        fs_status(error, changed_status) == StatusCode::PreconditionFailed <==> error is Changed
            && changed_status == ChangedStatus::PreconditionFailed,
        fs_status(error, changed_status) == StatusCode::InsufficientStorage <==> error is NoSpace,
        fs_status(error, changed_status) == StatusCode::InternalServerError <==> error is Io
            || error is Durability,
{
}

/// A request that is turned away is told whether that lies with it or with the server: too many
/// requests of one source or account are told so, a busy or stopping service is unavailable, work
/// that took too long timed out, and a request that asks for too much is told in which way.
pub proof fn law_admission_statuses(error: AdmissionError)
    ensures
        admission_code(error) == StatusCode::TooManyRequests <==> {
            let scope = match error {
                AdmissionError::QueueFull { scope, .. } => Some(scope),
                AdmissionError::Timeout { kind: AdmissionTimeoutKind::Queue { scope }, .. } => Some(
                    scope,
                ),
                _ => None,
            };
            scope == Some(QueueScope::PerSource) || scope == Some(QueueScope::PerAccount)
        },
        admission_code(error) == StatusCode::GatewayTimeout <==> error matches AdmissionError::Timeout {
            kind: AdmissionTimeoutKind::Execution,
            ..
        },
        admission_code(error) == StatusCode::PayloadTooLarge <==> error matches AdmissionError::LimitExceeded {
            kind: LimitKind::Payload,
            ..
        },
        admission_code(error) == StatusCode::UnprocessableEntity <==> error matches AdmissionError::LimitExceeded {
            kind: LimitKind::Semantic,
            ..
        },
        error is Cancelled ==> admission_code(error) == StatusCode::ServiceUnavailable,
        admission_code(error) == StatusCode::TooManyRequests || admission_code(error)
            == StatusCode::GatewayTimeout || admission_code(error) == StatusCode::PayloadTooLarge
            || admission_code(error) == StatusCode::UnprocessableEntity || admission_code(error)
            == StatusCode::ServiceUnavailable,
{
}

/// A client is asked to wait exactly where waiting can help: where a queue was full or too slow,
/// or the work was cancelled, and never where the request asks for too much or ran too long.
pub proof fn law_waiting_is_advised_where_it_helps(error: AdmissionError)
    ensures
        error.wait() is Some <==> error is QueueFull || error is Cancelled || (
        error matches AdmissionError::Timeout { kind: AdmissionTimeoutKind::Queue { .. }, .. }),
        error matches AdmissionError::QueueFull { retry_after, .. } ==> error.wait() == Some(
            retry_after,
        ),
        error.wait() is Some && !(error is QueueFull) ==> error.wait() == Some(
            Duration { secs: 1, nanos: 0 },
        ),
{
}

/// A failure of the system means what its kind means, and a full disk or quota is told apart from
/// other failures of input and output.
pub proof fn law_system_failures_are_classified(kind: IoErrorKind, errno: Option<Errno>)
    ensures
        io_class(kind, errno) == FsClassification::NotFound <==> kind == IoErrorKind::NotFound,
        io_class(kind, errno) == FsClassification::Forbidden <==> kind
            == IoErrorKind::PermissionDenied || kind == IoErrorKind::ReadOnlyFilesystem,
        io_class(kind, errno) == FsClassification::Conflict <==> kind == IoErrorKind::AlreadyExists
            || kind == IoErrorKind::DirectoryNotEmpty || kind == IoErrorKind::NotADirectory || kind
            == IoErrorKind::IsADirectory || kind == IoErrorKind::CrossesDevices,
        io_class(kind, errno) == FsClassification::NoSpace ==> errno == Some(Errno::NoSpc) || errno
            == Some(Errno::DQuot),
        (errno == Some(Errno::NoSpc) || errno == Some(Errno::DQuot)) && kind == IoErrorKind::Other
            ==> io_class(kind, errno) == FsClassification::NoSpace,
        kind == IoErrorKind::Other && errno != Some(Errno::NoSpc) && errno != Some(Errno::DQuot)
            ==> io_class(kind, errno) == FsClassification::Io,
{
}

/// The typed cause of an error is the first along its chain, however deep it lies.
pub proof fn law_first_causes(links: Seq<AnyError>, n: int)
    requires
        0 <= n < links.len(),
        forall|i: int| 0 <= i < n ==> !(#[trigger] links[i] is Filesystem),
        links[n] is Filesystem,
    ensures
        first_filesystem(links) == Some(*(links[n]->Filesystem_error)),
    decreases n,
{
    if n > 0 {
        assert(!(links[0] is Filesystem));
        assert forall|i: int| 0 <= i < n - 1 implies !(#[trigger] links.drop_first()[i]
            is Filesystem) by {
            assert(!(links[i + 1] is Filesystem));
        }
        law_first_causes(links.drop_first(), n - 1);
    }
}

/// A failure of the filesystem decides the answer before one of admission, and that before one of
/// the request; an error without any of them has no answer of its own.
pub proof fn law_typed_causes_decide(links: Seq<AnyError>, changed_status: ChangedStatus)
    ensures
        first_filesystem(links) matches Some(error) ==> typed_mapping(links, changed_status)
            == Some((fs_status(error, changed_status), None::<Duration>)),
        first_filesystem(links) is None ==> (first_admission(links) matches Some(error)
            ==> typed_mapping(links, changed_status) == Some(
            (admission_code(error), error.wait()),
        )),
        first_filesystem(links) is None && first_admission(links) is None ==> (
        first_http(links) matches Some(error) ==> typed_mapping(links, changed_status) == Some(
            (http_code(error), None::<Duration>),
        )),
        typed_mapping(links, changed_status) is None <==> first_filesystem(links) is None
            && first_admission(links) is None && first_http(links) is None,
{
}

/// An error taken over answers as its typed cause does; without one its system-level cause
/// decides, and no wait is advised.
pub proof fn law_errors_taken_over_keep_their_answer(
    operation: &'static str,
    error: AnyError,
    changed_status: ChangedStatus,
    mapped: ResponseError,
)
    requires
        ResponseError::mapped_from(operation, error, changed_status, mapped),
    ensures
        typed_mapping(error.links(), changed_status) matches Some((status, wait)) ==> mapped.code()
            == status && mapped.wait() == wait,
        typed_mapping(error.links(), changed_status) is None ==> {
            &&& mapped.wait() is None
            &&& mapped.code() == match chain_class(error.links()) {
                FsClassification::NotFound => StatusCode::NotFound,
                FsClassification::Forbidden => StatusCode::Forbidden,
                FsClassification::Conflict => StatusCode::Conflict,
                FsClassification::NoSpace => StatusCode::InsufficientStorage,
                FsClassification::Io => StatusCode::InternalServerError,
            }
        },
{
}

/// A request that an error ended is answered with a status and a text of that status alone: the
/// typed cause decides which, and an error without one is an internal failure.
pub proof fn law_ended_requests_are_answered(
    before: Response,
    after: Response,
    error: AnyError,
    changed_status: ChangedStatus,
)
    requires
        answered_for(before, after, error, changed_status),
    ensures
        typed_mapping(error.links(), changed_status) matches Some((status, _)) ==> after.status
            == status && after.body.is_bytes(encode_utf8(public_text(status))),
        typed_mapping(error.links(), changed_status) is None ==> after.status
            == StatusCode::InternalServerError && after.body.is_bytes(
            encode_utf8("Internal Server Error"@),
        ),
        after.has(Field::ContentType, encode_utf8("text/plain; charset=utf-8"@)),
        after.lacks(Field::ContentLength),
        after.lacks(Field::Etag),
{
    let wait = match typed_mapping(error.links(), changed_status) {
        Some((_, wait)) => wait,
        None => None,
    };
    law_error_fields(before.fields(), wait, Field::ContentType);
    law_error_fields(before.fields(), wait, Field::ContentLength);
    law_error_fields(before.fields(), wait, Field::Etag);
}

} // verus!
