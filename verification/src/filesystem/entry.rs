//! Directory entries: what a name stood for when a request was decided, and the checks that it
//! still stands for the same object.
use crate::error::{AnyError, Errno, FsError, MutationEndpointRole};
use crate::fault::{changed, failed, said, Fault, FsKind};
use crate::filesystem::failure::{
    ended, is_missing, missing_object, typed_fault, typed_filesystem_error, OsFailure,
};
use crate::path::{components, joined, parts, same_components, SLASH};
use crate::text::{
    copy_bytes, digits, lossy, lossy_text, number_text, push_bytes, signed_digits, signed_text,
    text2, text3, TextBuilder,
};
use vstd::prelude::*;

verus! {

/// The bits of a mode that hold the type of a file.
pub const TYPE_BITS: u32 = 0o170000;

pub const REGULAR_FILE: u32 = 0o100000;

pub const DIRECTORY: u32 = 0o040000;

pub const SYMBOLIC_LINK: u32 = 0o120000;

/// What the system tells of an object.
#[derive(Clone, Copy, Debug, PartialEq, Eq, Structural)]
pub struct Metadata {
    pub dev: u64,
    pub ino: u64,
    pub ctime_sec: i64,
    pub ctime_nsec: i64,
    pub mode: u32,
    pub nlink: u64,
    pub uid: u32,
    pub len: u64,
}

impl Metadata {
    pub open spec fn type_bits(self) -> u32 {
        self.mode & TYPE_BITS
    }

    pub open spec fn spec_is_dir(self) -> bool {
        self.type_bits() == DIRECTORY
    }

    pub open spec fn spec_is_file(self) -> bool {
        self.type_bits() == REGULAR_FILE
    }

    pub fn is_dir(&self) -> (directory: bool)
        ensures
            directory == self.spec_is_dir(),
    {
        self.mode & TYPE_BITS == DIRECTORY
    }

    pub fn is_file(&self) -> (regular: bool)
        ensures
            regular == self.spec_is_file(),
    {
        self.mode & TYPE_BITS == REGULAR_FILE
    }

    pub fn is_symlink(&self) -> (link: bool)
        ensures
            link == (self.type_bits() == SYMBOLIC_LINK),
    {
        self.mode & TYPE_BITS == SYMBOLIC_LINK
    }

    /// The device and the number of the object.
    pub open spec fn identity(self) -> (u64, u64) {
        (self.dev, self.ino)
    }

    /// The version of the entry.
    pub open spec fn version(self) -> EntryVersion {
        EntryVersion {
            dev: self.dev,
            ino: self.ino,
            ctime_sec: self.ctime_sec,
            ctime_nsec: self.ctime_nsec,
            kind: self.type_bits(),
        }
    }
}

/// Whether two objects are one: the device, the number and the type are the same.
pub open spec fn one_object(left: Metadata, right: Metadata) -> bool {
    left.dev == right.dev && left.ino == right.ino && left.type_bits() == right.type_bits()
}

pub fn same_object(left: &Metadata, right: &Metadata) -> (same: bool)
    ensures
        same == one_object(*left, *right),
{
    left.dev == right.dev && left.ino == right.ino && left.mode & TYPE_BITS == right.mode
        & TYPE_BITS
}

/// One version of a directory entry.
#[derive(Clone, Copy, Debug, PartialEq, Eq, Structural)]
pub struct EntryVersion {
    pub dev: u64,
    pub ino: u64,
    pub ctime_sec: i64,
    pub ctime_nsec: i64,
    pub kind: u32,
}

/// What a name is expected to stand for.
#[derive(Clone, Copy, Debug, PartialEq, Eq, Structural)]
pub enum EntryExpectation {
    Missing,
    Present { version: EntryVersion },
}

/// The text of a version in diagnostics.
pub open spec fn version_text(version: EntryVersion) -> Seq<char> {
    "EntryVersion { dev: "@ + digits(version.dev as nat) + ", ino: "@ + digits(version.ino as nat)
        + ", ctime_sec: "@ + signed_digits(version.ctime_sec as int) + ", ctime_nsec: "@
        + signed_digits(version.ctime_nsec as int) + ", kind: "@ + digits(version.kind as nat)
        + " }"@
}

/// The text of an expectation in diagnostics.
pub open spec fn expectation_text(expectation: EntryExpectation) -> Seq<char> {
    match expectation {
        EntryExpectation::Missing => "Missing"@,
        EntryExpectation::Present { version } => "Present("@ + version_text(version) + ")"@,
    }
}

impl EntryExpectation {
    /// Whether both stand for one object, whatever has been done to it in between.
    pub open spec fn same_entry(self, other: EntryExpectation) -> bool {
        match (self, other) {
            (EntryExpectation::Missing, EntryExpectation::Missing) => true,
            (
                EntryExpectation::Present { version: left },
                EntryExpectation::Present { version: right },
            ) => left.dev == right.dev && left.ino == right.ino && left.kind == right.kind,
            _ => false,
        }
    }

    pub fn from_metadata(metadata: &Metadata) -> (expectation: EntryExpectation)
        ensures
            expectation == (EntryExpectation::Present { version: metadata.version() }),
    {
        EntryExpectation::Present {
            version: EntryVersion {
                dev: metadata.dev,
                ino: metadata.ino,
                ctime_sec: metadata.ctime_sec,
                ctime_nsec: metadata.ctime_nsec,
                kind: metadata.mode & TYPE_BITS,
            },
        }
    }

    pub fn matches_metadata(self, metadata: &Metadata) -> (matching: bool)
        ensures
            matching == (self == (EntryExpectation::Present { version: metadata.version() })),
    {
        self == EntryExpectation::from_metadata(metadata)
    }

    pub fn same_object(self, other: EntryExpectation) -> (same: bool)
        ensures
            same == self.same_entry(other),
    {
        match (self, other) {
            (EntryExpectation::Missing, EntryExpectation::Missing) => true,
            (
                EntryExpectation::Present { version: left },
                EntryExpectation::Present { version: right },
            ) => left.dev == right.dev && left.ino == right.ino && left.kind == right.kind,
            _ => false,
        }
    }

    pub fn describe(self) -> (text: String)
        ensures
            text@ == expectation_text(self),
    {
        match self {
            EntryExpectation::Missing => "Missing".to_owned(),
            EntryExpectation::Present { version } => {
                let inner = version.describe();
                text3("Present(", inner.as_str(), ")")
            },
        }
    }
}

impl EntryVersion {
    pub fn describe(self) -> (text: String)
        ensures
            text@ == version_text(self),
    {
        let dev = number_text(self.dev);
        let ino = number_text(self.ino);
        let sec = signed_text(self.ctime_sec);
        let nsec = signed_text(self.ctime_nsec);
        let kind = number_text(self.kind as u64);
        let mut builder = TextBuilder::new();
        builder.push("EntryVersion { dev: ");
        builder.push(dev.as_str());
        builder.push(", ino: ");
        builder.push(ino.as_str());
        builder.push(", ctime_sec: ");
        builder.push(sec.as_str());
        builder.push(", ctime_nsec: ");
        builder.push(nsec.as_str());
        builder.push(", kind: ");
        builder.push(kind.as_str());
        builder.push(" }");
        assert(builder.view() =~= version_text(self));
        builder.finish()
    }
}

/// Being the same object is an equivalence, and unlike being the same version it survives a
/// change of the times.
pub proof fn law_same_object_is_an_equivalence(
    a: EntryExpectation,
    b: EntryExpectation,
    c: EntryExpectation,
)
    ensures
        a.same_entry(a),
        a.same_entry(b) == b.same_entry(a),
        a.same_entry(b) && b.same_entry(c) ==> a.same_entry(c),
        a == b ==> a.same_entry(b),
{
}

/// Joins a name to the path of its directory.
pub fn join(base: &[u8], name: &[u8]) -> (path: Vec<u8>)
    ensures
        path@ == joined(base@, name@),
{
    let mut path = copy_bytes(base);
    if base.len() > 0 && base[base.len() - 1] != SLASH {
        path.push(SLASH);
    }
    push_bytes(&mut path, name);
    path
}

/// Whether two paths have the same components.
pub open spec fn same_parts(a: Seq<u8>, b: Seq<u8>) -> bool {
    parts(a) == parts(b)
}

pub fn same_path(a: &[u8], b: &[u8]) -> (same: bool)
    ensures
        same == same_parts(a@, b@),
{
    same_components(&components(a), &components(b))
}

/// What a look at an entry, without following a link, says of it. A name that is not there is an
/// answer; every other failure is none.
pub open spec fn seen(stat: Result<Metadata, OsFailure>) -> Result<EntryExpectation, Fault> {
    match stat {
        Ok(metadata) => Ok(EntryExpectation::Present { version: metadata.version() }),
        Err(failure) => if failure.errno == Errno::NoEnt {
            Ok(EntryExpectation::Missing)
        } else {
            Err(failure.fault())
        },
    }
}

/// A result and the value or fault that it stands for.
pub open spec fn agrees<T>(result: Result<T, AnyError>, meant: Result<T, Fault>) -> bool {
    match (result, meant) {
        (Ok(value), Ok(wanted)) => value == wanted,
        (Err(error), Err(fault)) => error@ == fault,
        _ => false,
    }
}

pub fn current_expectation(stat: Result<Metadata, OsFailure>) -> (found: Result<
    EntryExpectation,
    AnyError,
>)
    ensures
        agrees(found, seen(stat)),
{
    match stat {
        Ok(metadata) => Ok(EntryExpectation::from_metadata(&metadata)),
        Err(failure) => {
            if failure.errno == Errno::NoEnt {
                Ok(EntryExpectation::Missing)
            } else {
                Err(failure.into_error())
            }
        },
    }
}

/// The error that an entry is not what it was expected to be.
pub open spec fn changed_entry_fault(
    role: MutationEndpointRole,
    endpoint: Seq<u8>,
    expected: EntryExpectation,
    actual: EntryExpectation,
) -> Fault {
    changed(role, lossy_text(endpoint), expectation_text(expected), expectation_text(actual))
}

pub fn changed_entry(
    role: MutationEndpointRole,
    endpoint: &[u8],
    expected: EntryExpectation,
    actual: EntryExpectation,
) -> (error: AnyError)
    ensures
        error@ == changed_entry_fault(role, endpoint@, expected, actual),
{
    let endpoint = lossy(endpoint);
    let expected = expected.describe();
    let actual = actual.describe();
    AnyError::filesystem(
        FsError::changed(role, endpoint.as_str(), expected.as_str(), actual.as_str()),
    )
}

/// Why an entry fails the check that it is exactly the expected version.
pub open spec fn entry_fault(
    target: Seq<u8>,
    expected: EntryExpectation,
    stat: Result<Metadata, OsFailure>,
    role: MutationEndpointRole,
) -> Option<Fault> {
    match seen(stat) {
        Err(fault) => Some(fault),
        Ok(actual) => if actual != expected {
            Some(changed_entry_fault(role, target, expected, actual))
        } else {
            None
        },
    }
}

/// Checks that the entry is exactly the expected version.
pub fn verify_entry_with_role(
    target: &[u8],
    expected: EntryExpectation,
    stat: Result<Metadata, OsFailure>,
    role: MutationEndpointRole,
) -> (checked: Result<(), AnyError>)
    ensures
        ended(checked, entry_fault(target@, expected, stat, role)),
{
    match current_expectation(stat) {
        Err(error) => Err(error),
        Ok(actual) => {
            if actual != expected {
                return Err(changed_entry(role, target, expected, actual));
            }
            Ok(())
        },
    }
}

/// Why an entry fails the check that it is the expected object.
pub open spec fn identity_fault(
    target: Seq<u8>,
    expected: EntryExpectation,
    stat: Result<Metadata, OsFailure>,
) -> Option<Fault> {
    match seen(stat) {
        Err(fault) => Some(fault),
        Ok(actual) => if !expected.same_entry(actual) {
            Some(changed_entry_fault(MutationEndpointRole::Target, target, expected, actual))
        } else {
            None
        },
    }
}

/// Checks that the entry is the expected object. Removing its children has changed the times of
/// a directory, so its version is no longer what it was.
pub fn verify_entry_identity(
    target: &[u8],
    expected: EntryExpectation,
    stat: Result<Metadata, OsFailure>,
) -> (checked: Result<(), AnyError>)
    ensures
        ended(checked, identity_fault(target@, expected, stat)),
{
    match current_expectation(stat) {
        Err(error) => Err(error),
        Ok(actual) => {
            if !expected.same_object(actual) {
                return Err(changed_entry(MutationEndpointRole::Target, target, expected, actual));
            }
            Ok(())
        },
    }
}

/// Why a private candidate fails the check that it is the object that was created.
pub open spec fn candidate_fault(
    target: Seq<u8>,
    expected: EntryExpectation,
    stat: Result<Metadata, OsFailure>,
) -> Option<Fault> {
    match seen(stat) {
        Err(fault) => Some(fault),
        Ok(actual) => if !expected.same_entry(actual) {
            Some(
                changed(
                    MutationEndpointRole::Target,
                    lossy_text(target),
                    "private candidate "@ + expectation_text(expected),
                    "private candidate "@ + expectation_text(actual),
                ),
            )
        } else {
            None
        },
    }
}

pub fn verify_candidate_identity(
    target: &[u8],
    expected: EntryExpectation,
    stat: Result<Metadata, OsFailure>,
) -> (checked: Result<(), AnyError>)
    ensures
        ended(checked, candidate_fault(target@, expected, stat)),
{
    match current_expectation(stat) {
        Err(error) => Err(error),
        Ok(actual) => {
            if !expected.same_object(actual) {
                let endpoint = lossy(target);
                let wanted = expected.describe();
                let wanted = text2("private candidate ", wanted.as_str());
                let found = actual.describe();
                let found = text2("private candidate ", found.as_str());
                return Err(
                    AnyError::filesystem(
                        FsError::changed(
                            MutationEndpointRole::Target,
                            endpoint.as_str(),
                            wanted.as_str(),
                            found.as_str(),
                        ),
                    ),
                );
            }
            Ok(())
        },
    }
}

/// The error of a publication that must not replace anything: a name that is taken was taken by
/// someone else after the check.
pub open spec fn create_only_fault(
    target: Seq<u8>,
    expected: EntryExpectation,
    role: MutationEndpointRole,
    failure: OsFailure,
) -> Fault {
    if failure.errno == Errno::Exist {
        changed(
            role,
            lossy_text(target),
            expectation_text(expected),
            "entry appeared before atomic no-replace publication"@,
        )
    } else {
        failure.fault()
    }
}

pub fn create_only_error(
    target: &[u8],
    expected: EntryExpectation,
    role: MutationEndpointRole,
    failure: OsFailure,
) -> (error: AnyError)
    ensures
        error@ == create_only_fault(target@, expected, role, failure),
{
    if failure.errno == Errno::Exist {
        let endpoint = lossy(target);
        let expected = expected.describe();
        AnyError::filesystem(
            FsError::changed(
                role,
                endpoint.as_str(),
                expected.as_str(),
                "entry appeared before atomic no-replace publication",
            ),
        )
    } else {
        failure.into_error()
    }
}

/// What the expectation for a path is, from what opening its parent and looking at the entry
/// gave. `parent` is the path that the target resolved to.
pub open spec fn captured(
    rel: Seq<u8>,
    described: Seq<char>,
    parent: Result<(Seq<u8>, Seq<char>), Fault>,
    stat: Result<Metadata, OsFailure>,
) -> Result<EntryExpectation, Fault> {
    match parent {
        Err(fault) => {
            let typed = typed_fault("opening mutation target parent"@, fault);
            if is_missing(typed) {
                Ok(EntryExpectation::Missing)
            } else {
                Err(typed)
            }
        },
        Ok((resolved, shown)) => if !same_parts(resolved, rel) {
            Err(
                failed(
                    FsKind::OutsideRoot,
                    "capturing a mutation target expectation"@,
                    said("target resolved to "@ + shown + " instead of "@ + described),
                ),
            )
        } else {
            match seen(stat) {
                Ok(found) => Ok(found),
                Err(fault) => Err(typed_fault("capturing a mutation target expectation"@, fault)),
            }
        },
    }
}

/// What opening the parent of a target gave: the path that the target resolved to, also as
/// diagnostics show it.
#[derive(Debug)]
pub struct ResolvedTarget {
    pub rel: Vec<u8>,
    pub described: String,
}

pub open spec fn resolved_view(parent: Result<ResolvedTarget, AnyError>) -> Result<
    (Seq<u8>, Seq<char>),
    Fault,
> {
    match parent {
        Ok(target) => Ok((target.rel@, target.described@)),
        Err(error) => Err(error@),
    }
}

/// `described` is the path as diagnostics show it. Where the parent did not open or the target
/// resolved elsewhere, `stat` is not looked at.
pub fn entry_expectation_sync(
    rel: &[u8],
    described: &str,
    parent: Result<ResolvedTarget, AnyError>,
    stat: Result<Metadata, OsFailure>,
) -> (found: Result<EntryExpectation, AnyError>)
    ensures
        agrees(found, captured(rel@, described@, resolved_view(parent), stat)),
{
    match parent {
        Err(error) => {
            let error = typed_filesystem_error("opening mutation target parent", error);
            if missing_object(&error) {
                return Ok(EntryExpectation::Missing);
            }
            Err(error)
        },
        Ok(target) => {
            if !same_path(target.rel.as_slice(), rel) {
                return Err(resolved_elsewhere(
                    "capturing a mutation target expectation",
                    target.described.as_str(),
                    described,
                ));
            }
            match current_expectation(stat) {
                Ok(found) => Ok(found),
                Err(error) => Err(
                    typed_filesystem_error("capturing a mutation target expectation", error),
                ),
            }
        },
    }
}

fn resolved_elsewhere(operation: &'static str, shown: &str, described: &str) -> (error: AnyError)
    ensures
        error@ == failed(
            FsKind::OutsideRoot,
            operation@,
            said("target resolved to "@ + shown@ + " instead of "@ + described@),
        ),
{
    let mut builder = TextBuilder::new();
    builder.push("target resolved to ");
    builder.push(shown);
    builder.push(" instead of ");
    builder.push(described);
    assert(builder.view() =~= "target resolved to "@ + shown@ + " instead of "@ + described@);
    let text = builder.finish();
    AnyError::filesystem(FsError::outside_root(operation, AnyError::message(text.as_str())))
}

/// The size of what a mutation would replace: none where there is nothing.
pub open spec fn replaced_size(
    rel: Seq<u8>,
    described: Seq<char>,
    parent: Result<(Seq<u8>, Seq<char>), Fault>,
    stat: Result<i64, OsFailure>,
) -> Result<Option<u64>, Fault> {
    match parent {
        Err(fault) => {
            let typed = typed_fault("opening destination parent"@, fault);
            if is_missing(typed) {
                Ok(None)
            } else {
                Err(typed)
            }
        },
        Ok((resolved, shown)) => if !same_parts(resolved, rel) {
            Err(
                failed(
                    FsKind::OutsideRoot,
                    "reading a mutation target size"@,
                    said("target resolved to "@ + shown + " instead of "@ + described),
                ),
            )
        } else {
            match stat {
                Ok(size) => Ok(
                    Some(
                        if size >= 0 {
                            size as u64
                        } else {
                            0
                        },
                    ),
                ),
                Err(failure) => if failure.errno == Errno::NoEnt {
                    Ok(None)
                } else {
                    Err(typed_fault("reading a mutation target size"@, failure.fault()))
                },
            }
        },
    }
}

pub fn entry_size_nofollow(
    rel: &[u8],
    described: &str,
    parent: Result<ResolvedTarget, AnyError>,
    stat: Result<i64, OsFailure>,
) -> (size: Result<Option<u64>, AnyError>)
    ensures
        agrees(size, replaced_size(rel@, described@, resolved_view(parent), stat)),
{
    match parent {
        Err(error) => {
            let error = typed_filesystem_error("opening destination parent", error);
            if missing_object(&error) {
                return Ok(None);
            }
            Err(error)
        },
        Ok(target) => {
            if !same_path(target.rel.as_slice(), rel) {
                return Err(resolved_elsewhere(
                    "reading a mutation target size",
                    target.described.as_str(),
                    described,
                ));
            }
            match stat {
                Ok(size) => {
                    if size >= 0 {
                        Ok(Some(size as u64))
                    } else {
                        Ok(Some(0))
                    }
                },
                Err(failure) => {
                    if failure.errno == Errno::NoEnt {
                        Ok(None)
                    } else {
                        Err(
                            typed_filesystem_error(
                                "reading a mutation target size",
                                failure.into_error(),
                            ),
                        )
                    }
                },
            }
        },
    }
}

/// Why an opened object fails the check that both it and its name are what was expected.
pub open spec fn opened_entry_fault(
    rel: Seq<u8>,
    opened: Result<Metadata, Fault>,
    namespace: Result<EntryExpectation, Fault>,
    expected: EntryExpectation,
    role: MutationEndpointRole,
) -> Result<Metadata, Fault> {
    match opened {
        Err(fault) => Err(typed_fault("reading a retained mutation endpoint"@, fault)),
        Ok(metadata) => match namespace {
            Err(fault) => Err(fault),
            Ok(named) => {
                let held = EntryExpectation::Present { version: metadata.version() };
                if expected != held || named != expected {
                    Err(
                        changed(
                            role,
                            lossy_text(rel),
                            expectation_text(expected),
                            "descriptor="@ + expectation_text(held) + ", namespace="@
                                + expectation_text(named),
                        ),
                    )
                } else {
                    Ok(metadata)
                }
            },
        },
    }
}

pub open spec fn meant<T>(result: Result<T, AnyError>) -> Result<T, Fault> {
    match result {
        Ok(value) => Ok(value),
        Err(error) => Err(error@),
    }
}

/// Checks an opened object against its name. `namespace` is what [`entry_expectation_sync`] gave.
pub fn verify_opened_entry_sync(
    rel: &[u8],
    opened: Result<Metadata, AnyError>,
    namespace: Result<EntryExpectation, AnyError>,
    expected: EntryExpectation,
    role: MutationEndpointRole,
) -> (checked: Result<Metadata, AnyError>)
    ensures
        agrees(
            checked,
            opened_entry_fault(rel@, meant(opened), meant(namespace), expected, role),
        ),
{
    let metadata = match opened {
        Err(error) => {
            return Err(typed_filesystem_error("reading a retained mutation endpoint", error));
        },
        Ok(metadata) => metadata,
    };
    let named = match namespace {
        Err(error) => {
            return Err(error);
        },
        Ok(named) => named,
    };
    if !expected.matches_metadata(&metadata) || named != expected {
        let endpoint = lossy(rel);
        let wanted = expected.describe();
        let held = EntryExpectation::from_metadata(&metadata).describe();
        let found = named.describe();
        let mut builder = TextBuilder::new();
        builder.push("descriptor=");
        builder.push(held.as_str());
        builder.push(", namespace=");
        builder.push(found.as_str());
        assert(builder.view() =~= "descriptor="@ + held@ + ", namespace="@ + found@);
        let actual = builder.finish();
        return Err(
            AnyError::filesystem(
                FsError::changed(role, endpoint.as_str(), wanted.as_str(), actual.as_str()),
            ),
        );
    }
    Ok(metadata)
}

/// An entry passes the check of its version exactly where a look at it finds that version, or
/// finds nothing where nothing is expected.
pub proof fn law_versions_are_checked(
    target: Seq<u8>,
    expected: EntryExpectation,
    stat: Result<Metadata, OsFailure>,
    role: MutationEndpointRole,
)
    ensures
        entry_fault(target, expected, stat, role) is None <==> match expected {
            EntryExpectation::Missing => stat matches Err(failure) && failure.errno == Errno::NoEnt,
            EntryExpectation::Present { version } => {
                &&& stat matches Ok(found)
                &&& found.dev == version.dev
                &&& found.ino == version.ino
                &&& found.ctime_sec == version.ctime_sec
                &&& found.ctime_nsec == version.ctime_nsec
                &&& found.mode & 0o170000 == version.kind
            },
        },
{
}

/// An entry passes the check of its identity exactly where a look at it finds that object,
/// whenever it was changed, or finds nothing where nothing is expected.
pub proof fn law_identities_are_checked(
    target: Seq<u8>,
    expected: EntryExpectation,
    stat: Result<Metadata, OsFailure>,
)
    ensures
        identity_fault(target, expected, stat) is None <==> match expected {
            EntryExpectation::Missing => stat matches Err(failure) && failure.errno == Errno::NoEnt,
            EntryExpectation::Present { version } => {
                &&& stat matches Ok(found)
                &&& found.dev == version.dev
                &&& found.ino == version.ino
                &&& found.mode & 0o170000 == version.kind
            },
        },
        candidate_fault(target, expected, stat) is None <==> identity_fault(target, expected, stat)
            is None,
{
}

/// What is expected of a target is what a look at it finds, and that there is nothing where its
/// directory is missing. A target that resolves elsewhere has no expectation.
pub proof fn law_expectations_are_what_is_there(
    rel: Seq<u8>,
    described: Seq<char>,
    resolved: Seq<u8>,
    shown: Seq<char>,
    stat: Result<Metadata, OsFailure>,
)
    ensures
        captured(rel, described, Ok((resolved, shown)), stat) is Ok ==> parts(resolved) == parts(
            rel,
        ),
        parts(resolved) == parts(rel) ==> match stat {
            Ok(found) => captured(rel, described, Ok((resolved, shown)), stat) == Ok::<
                EntryExpectation,
                Fault,
            >(
                EntryExpectation::Present {
                    version: EntryVersion {
                        dev: found.dev,
                        ino: found.ino,
                        ctime_sec: found.ctime_sec,
                        ctime_nsec: found.ctime_nsec,
                        kind: found.mode & 0o170000,
                    },
                },
            ),
            Err(failure) => {
                &&& failure.errno == Errno::NoEnt <==> captured(
                    rel,
                    described,
                    Ok((resolved, shown)),
                    stat,
                ) is Ok
                &&& failure.errno == Errno::NoEnt ==> captured(
                    rel,
                    described,
                    Ok((resolved, shown)),
                    stat,
                ) == Ok::<EntryExpectation, Fault>(EntryExpectation::Missing)
            },
        },
{
}

/// Where the directory of a target cannot be opened, nothing is expected exactly where the
/// directory is missing; every other failure stands.
pub proof fn law_targets_without_a_directory(
    rel: Seq<u8>,
    described: Seq<char>,
    fault: Fault,
    stat: Result<Metadata, OsFailure>,
    size: Result<i64, OsFailure>,
)
    requires
        fault.typed(),
    ensures
        captured(rel, described, Err(fault), stat) == (if is_missing(fault) {
            Ok::<EntryExpectation, Fault>(EntryExpectation::Missing)
        } else {
            Err(fault)
        }),
        replaced_size(rel, described, Err(fault), size) == (if is_missing(fault) {
            Ok::<Option<u64>, Fault>(None)
        } else {
            Err(fault)
        }),
{
}

/// The size of what a mutation replaces is the size of what is there, and none where nothing is.
pub proof fn law_replaced_sizes(
    rel: Seq<u8>,
    described: Seq<char>,
    resolved: Seq<u8>,
    shown: Seq<char>,
    stat: Result<i64, OsFailure>,
)
    requires
        parts(resolved) == parts(rel),
    ensures
        stat matches Ok(size) && size >= 0 ==> replaced_size(
            rel,
            described,
            Ok((resolved, shown)),
            stat,
        ) == Ok::<Option<u64>, Fault>(Some(stat->Ok_0 as u64)),
        stat matches Err(failure) ==> (replaced_size(rel, described, Ok((resolved, shown)), stat)
            == Ok::<Option<u64>, Fault>(None) <==> failure.errno == Errno::NoEnt),
{
}

/// An opened object passes the check exactly where it and what its name stands for are both the
/// expected version; then it is handed on as it was found.
pub proof fn law_opened_entries_are_checked(
    rel: Seq<u8>,
    opened: Metadata,
    named: EntryExpectation,
    expected: EntryExpectation,
    role: MutationEndpointRole,
)
    ensures
        opened_entry_fault(rel, Ok(opened), Ok(named), expected, role) is Ok <==> named == expected
            && expected == (EntryExpectation::Present { version: opened.version() }),
        opened_entry_fault(rel, Ok(opened), Ok(named), expected, role) matches Ok(found) ==> found
            == opened,
{
}

/// A creation that may replace nothing tells of a change exactly where something is there
/// already; any other failure is told as it is.
pub proof fn law_entries_that_appear_first_are_changes(
    target: Seq<u8>,
    expected: EntryExpectation,
    role: MutationEndpointRole,
    failure: OsFailure,
)
    ensures
        create_only_fault(target, expected, role, failure) is Changed <==> failure.errno
            == Errno::Exist,
        failure.errno != Errno::Exist ==> create_only_fault(target, expected, role, failure)
            == failure.fault(),
{
}

/// A look that finds an entry tells which, one that finds nothing tells that, and any other
/// failure tells nothing of the entry.
pub proof fn law_looks_tell_what_is_there(stat: Result<Metadata, OsFailure>)
    ensures
        seen(stat) is Ok <==> (stat matches Err(failure) ==> failure.errno == Errno::NoEnt),
        stat is Err && seen(stat) is Ok ==> seen(stat) == Ok::<EntryExpectation, Fault>(
            EntryExpectation::Missing,
        ),
        stat matches Ok(found) ==> seen(stat) == Ok::<EntryExpectation, Fault>(
            EntryExpectation::Present {
                version: EntryVersion {
                    dev: found.dev,
                    ino: found.ino,
                    ctime_sec: found.ctime_sec,
                    ctime_nsec: found.ctime_nsec,
                    kind: found.mode & 0o170000,
                },
            },
        ),
{
}

} // verus!
