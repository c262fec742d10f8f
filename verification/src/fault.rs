//! Errors as values: what an error and its causes say, with every text as its characters.
use crate::error::{
    chain_class, first_admission, first_filesystem, io_class, AdmissionError, AnyError,
    DurabilityStage, Errno, FsClassification, FsError, HttpError, IoErrorKind,
    MutationEndpointRole,
};
use crate::response::StatusCode;
use vstd::prelude::*;

verus! {

/// The kinds of filesystem failures that name the operation they happened in.
pub enum FsKind {
    NotFound,
    Forbidden,
    Conflict,
    OutsideRoot,
    NoSpace,
    Io,
}

/// An error as a value.
#[allow(inconsistent_fields)]
pub enum Fault {
    Message { text: Seq<char> },
    Context { context: Seq<char>, source: Box<Fault> },
    Io { kind: IoErrorKind, errno: Option<Errno> },
    IoMessage { kind: IoErrorKind, text: Seq<char> },
    Os { errno: Errno, kind: IoErrorKind },
    Failed { kind: FsKind, operation: Seq<char>, source: Box<Fault> },
    Changed {
        role: MutationEndpointRole,
        endpoint: Seq<char>,
        expected: Seq<char>,
        actual: Seq<char>,
    },
    Durability { stage: DurabilityStage, published: bool, source: Box<Fault> },
    Admission { error: AdmissionError },
    Http { status: StatusCode, source: Box<Fault> },
}

impl AnyError {
    /// The error as a value.
    pub open spec fn view(self) -> Fault
        decreases self,
    {
        match self {
            AnyError::Message { text } => Fault::Message { text: text@ },
            AnyError::Context { context, source } => Fault::Context {
                context: context@,
                source: Box::new(source.view()),
            },
            AnyError::Io { kind, errno } => Fault::Io { kind, errno },
            AnyError::IoMessage { kind, text } => Fault::IoMessage { kind, text: text@ },
            AnyError::Os { errno, kind } => Fault::Os { errno, kind },
            AnyError::Admission { error } => Fault::Admission { error },
            AnyError::Filesystem { error } => match *error {
                FsError::NotFound { operation, source } => failed(
                    FsKind::NotFound,
                    operation@,
                    source.view(),
                ),
                FsError::Forbidden { operation, source } => failed(
                    FsKind::Forbidden,
                    operation@,
                    source.view(),
                ),
                FsError::Conflict { operation, source } => failed(
                    FsKind::Conflict,
                    operation@,
                    source.view(),
                ),
                FsError::OutsideRoot { operation, source } => failed(
                    FsKind::OutsideRoot,
                    operation@,
                    source.view(),
                ),
                FsError::NoSpace { operation, source } => failed(
                    FsKind::NoSpace,
                    operation@,
                    source.view(),
                ),
                FsError::Io { operation, source } => failed(FsKind::Io, operation@, source.view()),
                FsError::Changed { role, endpoint, expected, actual } => Fault::Changed {
                    role,
                    endpoint: endpoint@,
                    expected: expected@,
                    actual: actual@,
                },
                FsError::Durability { stage, published, source } => undurable(
                    stage,
                    published,
                    source.view(),
                ),
            },
            AnyError::Http { error } => match *error {
                HttpError::BadRequest { source } => Fault::Http {
                    status: StatusCode::BadRequest,
                    source: Box::new(source.view()),
                },
                HttpError::Forbidden { source } => Fault::Http {
                    status: StatusCode::Forbidden,
                    source: Box::new(source.view()),
                },
                HttpError::NotFound { source } => Fault::Http {
                    status: StatusCode::NotFound,
                    source: Box::new(source.view()),
                },
            },
        }
    }
}

pub open spec fn failed(kind: FsKind, operation: Seq<char>, source: Fault) -> Fault {
    Fault::Failed { kind, operation, source: Box::new(source) }
}

pub open spec fn undurable(stage: DurabilityStage, published: bool, source: Fault) -> Fault {
    Fault::Durability { stage, published, source: Box::new(source) }
}

pub open spec fn in_context(source: Fault, context: Seq<char>) -> Fault {
    Fault::Context { context, source: Box::new(source) }
}

pub open spec fn said(text: Seq<char>) -> Fault {
    Fault::Message { text }
}

pub open spec fn changed(
    role: MutationEndpointRole,
    endpoint: Seq<char>,
    expected: Seq<char>,
    actual: Seq<char>,
) -> Fault {
    Fault::Changed { role, endpoint, expected, actual }
}

/// The kinds of typed filesystem failure.
pub enum FsNature {
    Failed(FsKind),
    Changed,
    Durability { published: bool },
}

impl Fault {
    /// The first filesystem failure among the error and its causes.
    pub open spec fn nature(self) -> Option<FsNature>
        decreases self,
    {
        match self {
            Fault::Failed { kind, .. } => Some(FsNature::Failed(kind)),
            Fault::Changed { .. } => Some(FsNature::Changed),
            Fault::Durability { published, .. } => Some(FsNature::Durability { published }),
            Fault::Context { source, .. } => source.nature(),
            Fault::Http { source, .. } => source.nature(),
            _ => None,
        }
    }

    /// The first admission failure among the error and its causes.
    pub open spec fn admission(self) -> Option<AdmissionError>
        decreases self,
    {
        match self {
            Fault::Admission { error } => Some(error),
            Fault::Context { source, .. } => source.admission(),
            Fault::Http { source, .. } => source.admission(),
            Fault::Failed { source, .. } => source.admission(),
            Fault::Durability { source, .. } => source.admission(),
            _ => None,
        }
    }

    /// How the first system-level cause is classified.
    pub open spec fn class(self) -> FsClassification
        decreases self,
    {
        match self {
            Fault::Io { kind, errno } => io_class(kind, errno),
            Fault::IoMessage { kind, .. } => io_class(kind, None),
            Fault::Os { errno, kind } => io_class(kind, Some(errno)),
            Fault::Context { source, .. } => source.class(),
            Fault::Http { source, .. } => source.class(),
            Fault::Failed { source, .. } => source.class(),
            Fault::Durability { source, .. } => source.class(),
            _ => FsClassification::Io,
        }
    }

    /// Whether the error or a cause of it is a typed failure of the filesystem or of admission.
    pub open spec fn typed(self) -> bool {
        self.nature() is Some || self.admission() is Some
    }
}

pub open spec fn class_kind(class: FsClassification) -> FsKind {
    match class {
        FsClassification::NotFound => FsKind::NotFound,
        FsClassification::Forbidden => FsKind::Forbidden,
        FsClassification::Conflict => FsKind::Conflict,
        FsClassification::NoSpace => FsKind::NoSpace,
        FsClassification::Io => FsKind::Io,
    }
}

pub open spec fn fs_nature(error: FsError) -> FsNature {
    match error {
        FsError::NotFound { .. } => FsNature::Failed(FsKind::NotFound),
        FsError::Forbidden { .. } => FsNature::Failed(FsKind::Forbidden),
        FsError::Conflict { .. } => FsNature::Failed(FsKind::Conflict),
        FsError::OutsideRoot { .. } => FsNature::Failed(FsKind::OutsideRoot),
        FsError::NoSpace { .. } => FsNature::Failed(FsKind::NoSpace),
        FsError::Io { .. } => FsNature::Failed(FsKind::Io),
        FsError::Changed { .. } => FsNature::Changed,
        FsError::Durability { published, .. } => FsNature::Durability { published },
    }
}

/// What is found along the chain of an error is what its value tells.
pub proof fn lemma_chain_of_fault(error: AnyError)
    ensures
        first_filesystem(error.links()) is Some == error@.nature() is Some,
        first_filesystem(error.links()) matches Some(found) ==> error@.nature() == Some(
            fs_nature(found),
        ),
        first_admission(error.links()) == error@.admission(),
        chain_class(error.links()) == error@.class(),
    decreases error,
{
    crate::error::lemma_links_step(error);
    let links = error.links();
    match error {
        AnyError::Context { context, source } => {
            assert(links.drop_first() =~= source.links());
            lemma_chain_of_fault(*source);
            assert(error@ == in_context(source@, context@));
            assert(error@.nature() == source@.nature());
            assert(error@.admission() == source@.admission());
            assert(error@.class() == source@.class());
            assert(first_filesystem(links) == first_filesystem(links.drop_first()));
            assert(first_admission(links) == first_admission(links.drop_first()));
            assert(chain_class(links) == chain_class(links.drop_first()));
        },
        AnyError::Filesystem { error: held } => {
            match *held {
                FsError::NotFound { operation, source } => {
                    assert(links.drop_first() =~= source.links());
                    lemma_chain_of_fault(source);
                    assert(error@ == failed(FsKind::NotFound, operation@, source@));
                },
                FsError::Forbidden { operation, source } => {
                    assert(links.drop_first() =~= source.links());
                    lemma_chain_of_fault(source);
                    assert(error@ == failed(FsKind::Forbidden, operation@, source@));
                },
                FsError::Conflict { operation, source } => {
                    assert(links.drop_first() =~= source.links());
                    lemma_chain_of_fault(source);
                    assert(error@ == failed(FsKind::Conflict, operation@, source@));
                },
                FsError::OutsideRoot { operation, source } => {
                    assert(links.drop_first() =~= source.links());
                    lemma_chain_of_fault(source);
                    assert(error@ == failed(FsKind::OutsideRoot, operation@, source@));
                },
                FsError::NoSpace { operation, source } => {
                    assert(links.drop_first() =~= source.links());
                    lemma_chain_of_fault(source);
                    assert(error@ == failed(FsKind::NoSpace, operation@, source@));
                },
                FsError::Io { operation, source } => {
                    assert(links.drop_first() =~= source.links());
                    lemma_chain_of_fault(source);
                    assert(error@ == failed(FsKind::Io, operation@, source@));
                },
                FsError::Durability { stage, published, source } => {
                    assert(links.drop_first() =~= source.links());
                    lemma_chain_of_fault(source);
                    assert(error@ == undurable(stage, published, source@));
                },
                FsError::Changed { .. } => {
                    assert(links.drop_first().len() == 0);
                },
            }
        },
        AnyError::Http { error: held } => {
            match *held {
                HttpError::BadRequest { source } => {
                    assert(links.drop_first() =~= source.links());
                    lemma_chain_of_fault(source);
                    assert(error@ == (Fault::Http {
                        status: StatusCode::BadRequest,
                        source: Box::new(source@),
                    }));
                },
                HttpError::Forbidden { source } => {
                    assert(links.drop_first() =~= source.links());
                    lemma_chain_of_fault(source);
                    assert(error@ == (Fault::Http {
                        status: StatusCode::Forbidden,
                        source: Box::new(source@),
                    }));
                },
                HttpError::NotFound { source } => {
                    assert(links.drop_first() =~= source.links());
                    lemma_chain_of_fault(source);
                    assert(error@ == (Fault::Http {
                        status: StatusCode::NotFound,
                        source: Box::new(source@),
                    }));
                },
            }
        },
        _ => {
            assert(links.drop_first().len() == 0);
        },
    }
}

} // verus!
