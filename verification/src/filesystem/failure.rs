//! How failures of filesystem calls become typed errors.
use crate::error::{
    AdmissionError, AdmissionResource, AnyError, DurabilityStage, Errno, FsError, IoErrorKind,
    LimitKind, MutationEndpointRole,
};
use crate::fault::{
    changed, class_kind, failed, in_context, lemma_chain_of_fault, undurable, Fault, FsKind,
    FsNature,
};
use crate::text::{lossy, lossy_text, text2, text3};
use vstd::prelude::*;

verus! {

/// A failed system call: its error number, and the kind of error that the number stands for.
#[derive(Clone, Copy, Debug, PartialEq, Eq, Structural)]
pub struct OsFailure {
    pub errno: Errno,
    pub kind: IoErrorKind,
}

impl OsFailure {
    pub open spec fn fault(self) -> Fault {
        Fault::Os { errno: self.errno, kind: self.kind }
    }

    pub fn into_error(self) -> (error: AnyError)
        ensures
            error == (AnyError::Os { errno: self.errno, kind: self.kind }),
            error@ == self.fault(),
    {
        AnyError::Os { errno: self.errno, kind: self.kind }
    }
}

/// A result that is an error exactly where there is a fault, and then that one.
pub open spec fn ended<T>(result: Result<T, AnyError>, fault: Option<Fault>) -> bool {
    match result {
        Ok(_) => fault is None,
        Err(error) => fault == Some(error@),
    }
}

/// What a failed result says.
pub open spec fn fault_of<T>(result: Result<T, AnyError>) -> Option<Fault> {
    match result {
        Ok(_) => None,
        Err(error) => Some(error@),
    }
}

/// The points of a transaction at which a directory is made durable.
#[derive(Clone, Copy, Debug, PartialEq, Eq, Structural)]
pub enum DirectorySyncPoint {
    CreatedDirectory,
    CreatedDirectoryParent,
    DestinationParent,
    SourceParent,
    RemovedEntryParent,
}

impl DirectorySyncPoint {
    pub open spec fn stage(self) -> DurabilityStage {
        match self {
            DirectorySyncPoint::CreatedDirectory | DirectorySyncPoint::CreatedDirectoryParent => {
                DurabilityStage::CreatedDirectory
            },
            DirectorySyncPoint::DestinationParent => DurabilityStage::DestinationParent,
            DirectorySyncPoint::SourceParent => DurabilityStage::SourceParent,
            DirectorySyncPoint::RemovedEntryParent => DurabilityStage::RemovedEntryParent,
        }
    }

    pub fn durability_stage(self) -> (stage: DurabilityStage)
        ensures
            stage == self.stage(),
    {
        match self {
            DirectorySyncPoint::CreatedDirectory | DirectorySyncPoint::CreatedDirectoryParent => {
                DurabilityStage::CreatedDirectory
            },
            DirectorySyncPoint::DestinationParent => DurabilityStage::DestinationParent,
            DirectorySyncPoint::SourceParent => DurabilityStage::SourceParent,
            DirectorySyncPoint::RemovedEntryParent => DurabilityStage::RemovedEntryParent,
        }
    }
}

pub fn durability_error(stage: DurabilityStage, published: bool, source: AnyError) -> (error:
    AnyError)
    ensures
        error@ == undurable(stage, published, source@),
{
    AnyError::filesystem(FsError::durability(stage, published, source))
}

/// A failed directory sync after the change became visible.
pub fn directory_sync_error(point: DirectorySyncPoint, failure: OsFailure) -> (error: AnyError)
    ensures
        error@ == undurable(point.stage(), true, failure.fault()),
{
    durability_error(point.durability_stage(), true, failure.into_error())
}

/// An error that is typed already, or typed by its first system-level cause.
pub open spec fn typed_fault(operation: Seq<char>, source: Fault) -> Fault {
    if source.typed() {
        source
    } else {
        failed(class_kind(source.class()), operation, source)
    }
}

pub fn typed_filesystem_error(operation: &'static str, source: AnyError) -> (error: AnyError)
    ensures
        error@ == typed_fault(operation@, source@),
        source@.typed() ==> error == source,
{
    proof {
        lemma_chain_of_fault(source);
    }
    if FsError::in_anyhow_chain(&source).is_some() || AdmissionError::in_anyhow_chain(
        &source,
    ).is_some() {
        source
    } else {
        AnyError::filesystem(FsError::from_anyhow(operation, source))
    }
}

/// The error of an open beneath the root: leaving the root through a link or a mount is its own
/// kind, and everything else is typed by its number.
pub open spec fn capability_open_fault(described: Seq<char>, failure: OsFailure) -> Fault {
    let source = in_context(
        failure.fault(),
        "openat2 failed for capability path "@ + described,
    );
    if failure.errno == Errno::XDev || failure.errno == Errno::Loop {
        failed(FsKind::OutsideRoot, "resolving a filesystem capability path"@, source)
    } else {
        typed_fault("opening a filesystem capability path"@, source)
    }
}

/// `described` is the path as diagnostics show it.
pub fn capability_open_error(described: &str, failure: OsFailure) -> (error: AnyError)
    ensures
        error@ == capability_open_fault(described@, failure),
{
    let context = text2("openat2 failed for capability path ", described);
    let source = failure.into_error().context(context.as_str());
    if failure.errno == Errno::XDev || failure.errno == Errno::Loop {
        AnyError::filesystem(
            FsError::outside_root("resolving a filesystem capability path", source),
        )
    } else {
        typed_filesystem_error("opening a filesystem capability path", source)
    }
}

pub open spec fn walk_cancelled_fault(context: Seq<char>) -> Fault {
    in_context(
        Fault::Admission {
            error: (AdmissionError::Cancelled { resource: AdmissionResource::WalkEntries }),
        },
        context,
    )
}

pub fn walk_cancelled(context: &'static str) -> (error: AnyError)
    ensures
        error@ == walk_cancelled_fault(context@),
{
    AnyError::admission(AdmissionError::cancelled(AdmissionResource::WalkEntries)).context(context)
}

pub open spec fn limit_fault(resource: AdmissionResource, limit: usize, observed: Option<usize>) -> Fault {
    Fault::Admission {
        error: (AdmissionError::LimitExceeded {
            resource,
            kind: LimitKind::Semantic,
            limit: limit as u64,
            observed: match observed {
                Some(value) => Some(value as u64),
                None => None,
            },
        }),
    }
}

pub fn walk_limit_exceeded(
    resource: AdmissionResource,
    limit: usize,
    observed: Option<usize>,
) -> (error: AnyError)
    ensures
        error@ == limit_fault(resource, limit, observed),
{
    let observed = match observed {
        Some(value) => Some(value as u64),
        None => None,
    };
    AnyError::admission(
        AdmissionError::limit_exceeded(resource, LimitKind::Semantic, limit as u64, observed),
    )
}

/// An entry that a traversal may pass over: it is gone, or it lies outside the root. An entry
/// that is there and cannot be read is neither.
pub open spec fn is_unavailable(fault: Fault) -> bool {
    fault.nature() == Some(FsNature::Failed(FsKind::NotFound)) || fault.nature() == Some(
        FsNature::Failed(FsKind::OutsideRoot),
    )
}

pub fn unavailable_capability_entry(error: &AnyError) -> (unavailable: bool)
    ensures
        unavailable == is_unavailable(error@),
{
    proof {
        lemma_chain_of_fault(*error);
    }
    match FsError::in_anyhow_chain(error) {
        Some(FsError::NotFound { .. }) => true,
        Some(FsError::OutsideRoot { .. }) => true,
        _ => false,
    }
}

/// An error whose first filesystem failure is that the object is not there.
pub open spec fn is_missing(fault: Fault) -> bool {
    fault.nature() == Some(FsNature::Failed(FsKind::NotFound))
}

pub fn missing_object(error: &AnyError) -> (missing: bool)
    ensures
        missing == is_missing(error@),
{
    proof {
        lemma_chain_of_fault(*error);
    }
    match FsError::in_anyhow_chain(error) {
        Some(FsError::NotFound { .. }) => true,
        _ => false,
    }
}

/// The error numbers that prove that a published name was removed or replaced.
pub open spec fn proves_replacement(errno: Errno) -> bool {
    errno == Errno::NoEnt || errno == Errno::NotDir || errno == Errno::Loop || errno == Errno::XDev
}

/// A failed lookup of a directory that has just been created. A name that is gone or is no
/// directory any more was changed by someone else; any other failure leaves it open what became
/// of the directory, and is never reported as missing or forbidden.
pub open spec fn post_publish_lookup_fault(
    rel: Seq<u8>,
    expected: Seq<char>,
    operation: Seq<char>,
    failure: OsFailure,
    cause: Seq<char>,
) -> Fault {
    if proves_replacement(failure.errno) {
        changed(
            MutationEndpointRole::Target,
            lossy_text(rel),
            expected,
            operation + " failed after publication: "@ + cause,
        )
    } else {
        undurable(
            DurabilityStage::CreatedDirectory,
            true,
            in_context(failure.fault(), operation),
        )
    }
}

/// `cause` is what the system says of the failure.
pub fn post_publish_directory_lookup_error(
    rel: &[u8],
    expected: &str,
    operation: &'static str,
    failure: OsFailure,
    cause: &str,
) -> (error: AnyError)
    ensures
        error@ == post_publish_lookup_fault(rel@, expected@, operation@, failure, cause@),
{
    if failure.errno == Errno::NoEnt || failure.errno == Errno::NotDir || failure.errno
        == Errno::Loop || failure.errno == Errno::XDev {
        let endpoint = lossy(rel);
        let actual = text3(operation, " failed after publication: ", cause);
        AnyError::filesystem(
            FsError::changed(
                MutationEndpointRole::Target,
                endpoint.as_str(),
                expected,
                actual.as_str(),
            ),
        )
    } else {
        durability_error(
            DurabilityStage::CreatedDirectory,
            true,
            failure.into_error().context(operation),
        )
    }
}

pub fn post_publish_directory_io_error(operation: &'static str, error: AnyError) -> (typed:
    AnyError)
    ensures
        typed@ == undurable(
            DurabilityStage::CreatedDirectory,
            true,
            in_context(error@, operation@),
        ),
{
    durability_error(DurabilityStage::CreatedDirectory, true, error.context(operation))
}

/// After publication no failed lookup is reported as missing, forbidden or outside the root:
/// the client is told of a conflict with another change, or of an internal failure.
pub proof fn law_published_lookup_failures_are_never_denials(
    rel: Seq<u8>,
    expected: Seq<char>,
    operation: Seq<char>,
    failure: OsFailure,
    cause: Seq<char>,
)
    ensures
        ({
            let fault = post_publish_lookup_fault(rel, expected, operation, failure, cause);
            ||| fault.nature() == Some(FsNature::Changed)
            ||| fault.nature() == Some(FsNature::Durability { published: true })
        }),
{
}

/// A typed error is typed: typing it again changes nothing, and its kind comes from the first
/// system-level cause.
pub proof fn law_typing_is_idempotent(operation: Seq<char>, again: Seq<char>, source: Fault)
    ensures
        typed_fault(operation, source).typed(),
        typed_fault(again, typed_fault(operation, source)) == typed_fault(operation, source),
        !source.typed() ==> typed_fault(operation, source).nature() == Some(
            FsNature::Failed(class_kind(source.class())),
        ),
{
}

/// An entry is passed over for being unavailable exactly where it is gone or lies outside the
/// root: an entry that may not be read, a full disk or a broken one is never passed over.
pub proof fn law_what_may_be_passed_over(kind: FsKind, operation: Seq<char>, source: Fault)
    ensures
        is_unavailable(failed(kind, operation, source)) <==> kind == FsKind::NotFound || kind
            == FsKind::OutsideRoot,
        is_missing(failed(kind, operation, source)) <==> kind == FsKind::NotFound,
{
}

/// Leaving the root through a link or a mount is told apart from every other failure to open a
/// path; the others mean what their numbers mean.
pub proof fn law_leaving_the_root_is_its_own_failure(described: Seq<char>, failure: OsFailure)
    ensures
        failure.errno == Errno::XDev || failure.errno == Errno::Loop ==> capability_open_fault(
            described,
            failure,
        ).nature() == Some(FsNature::Failed(FsKind::OutsideRoot)),
        failure.errno != Errno::XDev && failure.errno != Errno::Loop ==> capability_open_fault(
            described,
            failure,
        ).nature() == Some(FsNature::Failed(class_kind(failure.fault().class()))),
{
    let source = in_context(
        failure.fault(),
        "openat2 failed for capability path "@ + described,
    );
    assert(source.nature() == failure.fault().nature());
    assert(source.admission() == failure.fault().admission());
    assert(source.class() == failure.fault().class());
}

/// A directory that was just made and cannot be found was changed by someone else exactly where
/// its name is gone, stands for something else or leads elsewhere.
pub proof fn law_replaced_directories_are_changes(
    rel: Seq<u8>,
    expected: Seq<char>,
    operation: Seq<char>,
    failure: OsFailure,
    cause: Seq<char>,
)
    ensures
        post_publish_lookup_fault(rel, expected, operation, failure, cause).nature() == Some(
            FsNature::Changed,
        ) <==> failure.errno is NoEnt || failure.errno is NotDir || failure.errno is Loop
            || failure.errno is XDev,
{
}

} // verus!
