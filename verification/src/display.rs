//! What errors say of themselves in diagnostics. None of these texts reaches a client.
use crate::error::{
    AdmissionError, AdmissionResource, AdmissionTimeoutKind, AnyError, DurabilityStage, FsError,
    HttpError, LimitKind, MutationEndpointRole, QueueScope, ResponseError, ResponseErrorSource,
};
use crate::fault::{Fault, FsKind};
use crate::response::StatusCode;
use crate::text::{digits, number_text, text2, text3, TextBuilder};
use vstd::prelude::*;

verus! {

/// What the `Debug` form of `std::time::Duration` shows for a span, such as `1s` or `250ms`.
pub uninterp spec fn span_text(secs: u64, nanos: u32) -> Seq<char>;

/// The `Debug` form of `std::time::Duration::new`, a function of the span alone.
#[verifier::external_body]
fn describe_span(secs: u64, nanos: u32) -> (text: String)
    requires
        nanos < 1_000_000_000,
    ensures
        text@ == span_text(secs, nanos),
{
    format!("{:?}", std::time::Duration::new(secs, nanos))
}

pub open spec fn stage_text(stage: DurabilityStage) -> Seq<char> {
    match stage {
        DurabilityStage::CandidateFile => "candidate file before publication"@,
        DurabilityStage::PublishedFile => "published file"@,
        DurabilityStage::CreatedDirectory => "newly created directory"@,
        DurabilityStage::DestinationParent => "destination parent directory"@,
        DurabilityStage::SourceParent => "source parent directory"@,
        DurabilityStage::RemovedEntryParent => "parent directory after removal"@,
    }
}

impl DurabilityStage {
    pub fn describe(self) -> (text: &'static str)
        ensures
            text@ == stage_text(self),
    {
        match self {
            DurabilityStage::CandidateFile => "candidate file before publication",
            DurabilityStage::PublishedFile => "published file",
            DurabilityStage::CreatedDirectory => "newly created directory",
            DurabilityStage::DestinationParent => "destination parent directory",
            DurabilityStage::SourceParent => "source parent directory",
            DurabilityStage::RemovedEntryParent => "parent directory after removal",
        }
    }
}

pub open spec fn resource_text(resource: AdmissionResource) -> Seq<char> {
    match resource {
        AdmissionResource::Requests => "requests"@,
        AdmissionResource::Uploads => "uploads"@,
        AdmissionResource::FilesystemTasks => "filesystem tasks"@,
        AdmissionResource::ExpensiveTasks => "expensive tasks"@,
        AdmissionResource::MutationLocks => "filesystem mutation locks"@,
        AdmissionResource::UploadBytes => "upload bytes"@,
        AdmissionResource::ArchiveBytes => "archive output bytes"@,
        AdmissionResource::ArchiveEntryNameBytes => "archive entry-name bytes"@,
        AdmissionResource::WalkEntries => "walk entries"@,
        AdmissionResource::WalkDepth => "walk depth"@,
    }
}

impl AdmissionResource {
    pub fn describe(self) -> (text: &'static str)
        ensures
            text@ == resource_text(self),
    {
        match self {
            AdmissionResource::Requests => "requests",
            AdmissionResource::Uploads => "uploads",
            AdmissionResource::FilesystemTasks => "filesystem tasks",
            AdmissionResource::ExpensiveTasks => "expensive tasks",
            AdmissionResource::MutationLocks => "filesystem mutation locks",
            AdmissionResource::UploadBytes => "upload bytes",
            AdmissionResource::ArchiveBytes => "archive output bytes",
            AdmissionResource::ArchiveEntryNameBytes => "archive entry-name bytes",
            AdmissionResource::WalkEntries => "walk entries",
            AdmissionResource::WalkDepth => "walk depth",
        }
    }
}

pub open spec fn scope_text(scope: QueueScope) -> Seq<char> {
    match scope {
        QueueScope::PerSource => "PerSource"@,
        QueueScope::PerAccount => "PerAccount"@,
        QueueScope::Global => "Global"@,
        QueueScope::WorkerPool => "WorkerPool"@,
    }
}

fn describe_scope(scope: QueueScope) -> (text: &'static str)
    ensures
        text@ == scope_text(scope),
{
    match scope {
        QueueScope::PerSource => "PerSource",
        QueueScope::PerAccount => "PerAccount",
        QueueScope::Global => "Global",
        QueueScope::WorkerPool => "WorkerPool",
    }
}

pub open spec fn role_text(role: MutationEndpointRole) -> Seq<char> {
    match role {
        MutationEndpointRole::Target => "Target"@,
        MutationEndpointRole::Source => "Source"@,
        MutationEndpointRole::Destination => "Destination"@,
    }
}

fn describe_role(role: MutationEndpointRole) -> (text: &'static str)
    ensures
        text@ == role_text(role),
{
    match role {
        MutationEndpointRole::Target => "Target",
        MutationEndpointRole::Source => "Source",
        MutationEndpointRole::Destination => "Destination",
    }
}

pub open spec fn wait_text(kind: AdmissionTimeoutKind) -> Seq<char> {
    match kind {
        AdmissionTimeoutKind::Queue { scope } => "Queue("@ + scope_text(scope) + ")"@,
        AdmissionTimeoutKind::Execution => "Execution"@,
    }
}

pub open spec fn limit_text(kind: LimitKind) -> Seq<char> {
    match kind {
        LimitKind::Payload => "Payload"@,
        LimitKind::Semantic => "Semantic"@,
    }
}

pub open spec fn observed_text(observed: Option<u64>) -> Seq<char> {
    match observed {
        Some(value) => "Some("@ + digits(value as nat) + ")"@,
        None => "None"@,
    }
}

pub open spec fn admission_text(error: AdmissionError) -> Seq<char> {
    match error {
        AdmissionError::QueueFull { resource, scope, limit, retry_after } => resource_text(resource)
            + " queue is full ("@ + scope_text(scope) + ", limit="@ + digits(limit as nat)
            + ", retry_after="@ + span_text(retry_after.secs, retry_after.nanos) + ")"@,
        AdmissionError::Timeout { resource, kind, waited } => resource_text(resource) + " "@
            + wait_text(kind) + " timed out after "@ + span_text(waited.secs, waited.nanos),
        AdmissionError::Cancelled { resource } => resource_text(resource)
            + " admission was cancelled"@,
        AdmissionError::LimitExceeded { resource, kind, limit, observed } => resource_text(resource)
            + " "@ + limit_text(kind) + " limit exceeded (limit="@ + digits(limit as nat)
            + ", observed="@ + observed_text(observed) + ")"@,
    }
}

impl AdmissionError {
    /// The spans in the error are proper spans.
    pub open spec fn valid(self) -> bool {
        match self {
            AdmissionError::QueueFull { retry_after, .. } => retry_after.wf(),
            AdmissionError::Timeout { waited, .. } => waited.wf(),
            _ => true,
        }
    }

    pub fn describe(&self) -> (text: String)
        requires
            self.valid(),
        ensures
            text@ == admission_text(*self),
    {
        let mut builder = TextBuilder::new();
        match self {
            AdmissionError::QueueFull { resource, scope, limit, retry_after } => {
                let limit = number_text(*limit);
                let span = describe_span(retry_after.secs, retry_after.nanos);
                builder.push(resource.describe());
                builder.push(" queue is full (");
                builder.push(describe_scope(*scope));
                builder.push(", limit=");
                builder.push(limit.as_str());
                builder.push(", retry_after=");
                builder.push(span.as_str());
                builder.push(")");
            },
            AdmissionError::Timeout { resource, kind, waited } => {
                let span = describe_span(waited.secs, waited.nanos);
                let kind = match kind {
                    AdmissionTimeoutKind::Queue { scope } => text3(
                        "Queue(",
                        describe_scope(*scope),
                        ")",
                    ),
                    AdmissionTimeoutKind::Execution => "Execution".to_owned(),
                };
                builder.push(resource.describe());
                builder.push(" ");
                builder.push(kind.as_str());
                builder.push(" timed out after ");
                builder.push(span.as_str());
            },
            AdmissionError::Cancelled { resource } => {
                builder.push(resource.describe());
                builder.push(" admission was cancelled");
            },
            AdmissionError::LimitExceeded { resource, kind, limit, observed } => {
                let limit = number_text(*limit);
                let observed = match observed {
                    Some(value) => {
                        let value = number_text(*value);
                        text3("Some(", value.as_str(), ")")
                    },
                    None => "None".to_owned(),
                };
                builder.push(resource.describe());
                builder.push(" ");
                builder.push(
                    match kind {
                        LimitKind::Payload => "Payload",
                        LimitKind::Semantic => "Semantic",
                    },
                );
                builder.push(" limit exceeded (limit=");
                builder.push(limit.as_str());
                builder.push(", observed=");
                builder.push(observed.as_str());
                builder.push(")");
            },
        }
        assert(builder.view() =~= admission_text(*self));
        builder.finish()
    }
}

/// How a failure of each kind begins.
pub open spec fn kind_text(kind: FsKind) -> Seq<char> {
    match kind {
        FsKind::NotFound => "filesystem object not found while "@,
        FsKind::Forbidden => "filesystem access denied while "@,
        FsKind::Conflict => "filesystem conflict while "@,
        FsKind::OutsideRoot => "filesystem resolution escaped the served root while "@,
        FsKind::NoSpace => "storage exhausted while "@,
        FsKind::Io => "filesystem I/O failed while "@,
    }
}

pub open spec fn http_text(status: StatusCode) -> Seq<char> {
    match status {
        StatusCode::BadRequest => "malformed request: "@,
        StatusCode::Forbidden => "request forbidden: "@,
        _ => "resource not found: "@,
    }
}

pub open spec fn flag_text(flag: bool) -> Seq<char> {
    if flag {
        "true"@
    } else {
        "false"@
    }
}

impl Fault {
    /// The spans in the error and in its causes are proper spans.
    pub open spec fn valid(self) -> bool
        decreases self,
    {
        match self {
            Fault::Admission { error } => error.valid(),
            Fault::Context { source, .. } => source.valid(),
            Fault::Failed { source, .. } => source.valid(),
            Fault::Durability { source, .. } => source.valid(),
            Fault::Http { source, .. } => source.valid(),
            _ => true,
        }
    }

    /// What the error says. `system` is what the system says of its own errors.
    pub open spec fn text(self, system: Seq<char>) -> Seq<char>
        decreases self,
    {
        match self {
            Fault::Message { text } => text,
            Fault::Context { context, .. } => context,
            Fault::Io { .. } => system,
            Fault::IoMessage { text, .. } => text,
            Fault::Os { .. } => system,
            Fault::Failed { kind, operation, source } => kind_text(kind) + operation + ": "@
                + source.text(system),
            Fault::Changed { role, endpoint, expected, actual } => "filesystem "@ + role_text(role)
                + " entry changed at "@ + endpoint + ": expected "@ + expected + ", found "@
                + actual,
            Fault::Durability { stage, published, source } => "durability failure at "@
                + stage_text(stage) + " (published="@ + flag_text(published) + "): "@
                + source.text(system),
            Fault::Admission { error } => admission_text(error),
            Fault::Http { status, source } => http_text(status) + source.text(system),
        }
    }

    /// What the error and all its causes say, outermost first.
    pub open spec fn chain_text(self, system: Seq<char>) -> Seq<char>
        decreases self,
    {
        match self {
            Fault::Context { source, .. } => self.text(system) + ": "@ + source.chain_text(system),
            Fault::Failed { source, .. } => self.text(system) + ": "@ + source.chain_text(system),
            Fault::Durability { source, .. } => self.text(system) + ": "@ + source.chain_text(
                system,
            ),
            Fault::Http { source, .. } => self.text(system) + ": "@ + source.chain_text(system),
            _ => self.text(system),
        }
    }
}

fn describe_failed(start: &str, operation: &str, source: &AnyError, system: &str) -> (text: String)
    requires
        source@.valid(),
    ensures
        text@ == start@ + operation@ + ": "@ + source@.text(system@),
    decreases source, 2nat,
{
    let cause = source.describe(system);
    let mut builder = TextBuilder::new();
    builder.push(start);
    builder.push(operation);
    builder.push(": ");
    builder.push(cause.as_str());
    assert(builder.view() =~= start@ + operation@ + ": "@ + cause@);
    builder.finish()
}

/// A filesystem failure as a value.
pub open spec fn fs_fault(error: FsError) -> Fault {
    AnyError::Filesystem { error: Box::new(error) }@
}

/// An HTTP failure as a value.
pub open spec fn http_fault(error: HttpError) -> Fault {
    AnyError::Http { error: Box::new(error) }@
}

impl FsError {
    /// What the failure says. `system` is what the system says of its own errors.
    pub fn describe(&self, system: &str) -> (text: String)
        requires
            fs_fault(*self).valid(),
        ensures
            text@ == fs_fault(*self).text(system@),
        decreases self, 0nat,
    {
        match self {
            FsError::NotFound { operation, source } => describe_failed(
                "filesystem object not found while ",
                operation,
                source,
                system,
            ),
            FsError::Forbidden { operation, source } => describe_failed(
                "filesystem access denied while ",
                operation,
                source,
                system,
            ),
            FsError::Conflict { operation, source } => describe_failed(
                "filesystem conflict while ",
                operation,
                source,
                system,
            ),
            FsError::OutsideRoot { operation, source } => describe_failed(
                "filesystem resolution escaped the served root while ",
                operation,
                source,
                system,
            ),
            FsError::NoSpace { operation, source } => describe_failed(
                "storage exhausted while ",
                operation,
                source,
                system,
            ),
            FsError::Io { operation, source } => describe_failed(
                "filesystem I/O failed while ",
                operation,
                source,
                system,
            ),
            FsError::Changed { role, endpoint, expected, actual } => {
                let mut builder = TextBuilder::new();
                builder.push("filesystem ");
                builder.push(describe_role(*role));
                builder.push(" entry changed at ");
                builder.push(endpoint.as_str());
                builder.push(": expected ");
                builder.push(expected.as_str());
                builder.push(", found ");
                builder.push(actual.as_str());
                assert(builder.view() =~= fs_fault(*self).text(system@));
                builder.finish()
            },
            FsError::Durability { stage, published, source } => {
                let cause = source.describe(system);
                let flag = if *published {
                    "true"
                } else {
                    "false"
                };
                let mut builder = TextBuilder::new();
                builder.push("durability failure at ");
                builder.push(stage.describe());
                builder.push(" (published=");
                builder.push(flag);
                builder.push("): ");
                builder.push(cause.as_str());
                assert(builder.view() =~= fs_fault(*self).text(system@));
                builder.finish()
            },
        }
    }
}

impl HttpError {
    /// What the failure says. `system` is what the system says of its own errors.
    pub fn describe(&self, system: &str) -> (text: String)
        requires
            http_fault(*self).valid(),
        ensures
            text@ == http_fault(*self).text(system@),
        decreases self, 0nat,
    {
        match self {
            HttpError::BadRequest { source } => {
                let cause = source.describe(system);
                text2("malformed request: ", cause.as_str())
            },
            HttpError::Forbidden { source } => {
                let cause = source.describe(system);
                text2("request forbidden: ", cause.as_str())
            },
            HttpError::NotFound { source } => {
                let cause = source.describe(system);
                text2("resource not found: ", cause.as_str())
            },
        }
    }
}

impl AnyError {
    /// What the error says. `system` is what the system says of its own errors.
    pub fn describe(&self, system: &str) -> (text: String)
        requires
            self@.valid(),
        ensures
            text@ == self@.text(system@),
        decreases self, 1nat,
    {
        match self {
            AnyError::Message { text } => text.as_str().to_owned(),
            AnyError::Context { context, .. } => context.as_str().to_owned(),
            AnyError::Io { .. } => system.to_owned(),
            AnyError::IoMessage { text, .. } => text.as_str().to_owned(),
            AnyError::Os { .. } => system.to_owned(),
            AnyError::Admission { error } => error.describe(),
            AnyError::Filesystem { error } => error.describe(system),
            AnyError::Http { error } => error.describe(system),
        }
    }

    /// What the error and all its causes say, outermost first.
    pub fn describe_chain(&self, system: &str) -> (text: String)
        requires
            self@.valid(),
        ensures
            text@ == self@.chain_text(system@),
        decreases self,
    {
        let own = self.describe(system);
        match self.source() {
            Some(cause) => {
                proof {
                    lemma_cause_is_smaller(*self);
                }
                let rest = cause.describe_chain(system);
                let mut builder = TextBuilder::new();
                builder.push(own.as_str());
                builder.push(": ");
                builder.push(rest.as_str());
                assert(builder.view() =~= own@ + ": "@ + rest@);
                builder.finish()
            },
            None => own,
        }
    }
}

/// The cause of an error is part of it, and what the error's value tells of its cause.
proof fn lemma_cause_is_smaller(error: AnyError)
    ensures
        error.cause() matches Some(cause) ==> {
            &&& decreases_to!(error => cause)
            &&& error@.valid() ==> cause@.valid()
            &&& forall|system: Seq<char>| #[trigger]
                error@.chain_text(system) == error@.text(system) + ": "@ + cause@.chain_text(system)
        },
{
}

/// What an error on its way to a client says in diagnostics.
pub open spec fn response_text(error: ResponseError, system: Seq<char>) -> Seq<char> {
    match error.source {
        ResponseErrorSource::Fs { error } => "filesystem request failed: "@ + fs_fault(error).text(
            system,
        ),
        ResponseErrorSource::Admission { error } => "request admission failed: "@ + admission_text(
            error,
        ),
        ResponseErrorSource::Http { error } => "HTTP request failed: "@ + http_fault(error).text(
            system,
        ),
        ResponseErrorSource::CapturedAnyhow { source, .. } => "typed request failed: "@
            + source@.text(system),
    }
}

impl ResponseError {
    /// The spans in the error are proper spans.
    pub open spec fn valid(self) -> bool {
        match self.source {
            ResponseErrorSource::Fs { error } => fs_fault(error).valid(),
            ResponseErrorSource::Admission { error } => error.valid(),
            ResponseErrorSource::Http { error } => http_fault(error).valid(),
            ResponseErrorSource::CapturedAnyhow { source, .. } => source@.valid(),
        }
    }

    /// What the error says. `system` is what the system says of its own errors.
    pub fn describe(&self, system: &str) -> (text: String)
        requires
            self.valid(),
        ensures
            text@ == response_text(*self, system@),
    {
        match &self.source {
            ResponseErrorSource::Fs { error } => {
                let cause = error.describe(system);
                text2("filesystem request failed: ", cause.as_str())
            },
            ResponseErrorSource::Admission { error } => {
                let cause = error.describe();
                text2("request admission failed: ", cause.as_str())
            },
            ResponseErrorSource::Http { error } => {
                let cause = error.describe(system);
                text2("HTTP request failed: ", cause.as_str())
            },
            ResponseErrorSource::CapturedAnyhow { source, .. } => {
                let cause = source.describe(system);
                text2("typed request failed: ", cause.as_str())
            },
        }
    }
}

} // verus!
