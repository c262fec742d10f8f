//! How paths are resolved beneath the root, and how an opened object is traced back to the path
//! that it was reached by.
use crate::error::{AnyError, FsError, MutationEndpointRole};
use crate::fault::{changed, failed, said, Fault, FsKind, FsNature};
use crate::filesystem::entry::{one_object, same_object, same_parts, same_path, Metadata};
use crate::filesystem::failure::{ended, typed_fault, typed_filesystem_error};
use crate::path::{
    component_views, components, join_components, part_bytes, parts, rest_bytes, strip_prefix,
    stripped, Component, Part, SLASH,
};
use crate::text::{
    copy_bytes, digits, lossy, lossy_text, number_text, same_bytes, text2, text3, TextBuilder,
};
use vstd::prelude::*;

verus! {

/// How often a path is traced again after it changed underneath.
pub const VERIFY_RETRIES: usize = 3;

// ---------------------------------------------------------------------------------------------
// Relative paths
// ---------------------------------------------------------------------------------------------

/// Why a name cannot be an entry of a directory.
pub open spec fn basename_fault(name: Seq<u8>) -> Option<Fault> {
    if name.len() == 0 || name == seq![46u8] || name == seq![46u8, 46u8] || name.contains(0) {
        Some(said("invalid path component"@))
    } else if name.contains(SLASH) {
        Some(said("basename contains a path separator"@))
    } else {
        None
    }
}

fn holds_byte(bytes: &[u8], byte: u8) -> (found: bool)
    ensures
        found == bytes@.contains(byte),
{
    let mut i: usize = 0;
    while i < bytes.len()
        invariant
            i <= bytes@.len(),
            forall|j: int| 0 <= j < i ==> bytes@[j] != byte,
        decreases bytes.len() - i,
    {
        if bytes[i] == byte {
            assert(bytes@[i as int] == byte);
            return true;
        }
        i = i + 1;
    }
    false
}

pub fn validate_basename(name: &[u8]) -> (checked: Result<(), AnyError>)
    ensures
        ended(checked, basename_fault(name@)),
{
    let dot = name.len() == 1 && name[0] == 46;
    let dots = name.len() == 2 && name[0] == 46 && name[1] == 46;
    proof {
        if dot {
            assert(name@ =~= seq![46u8]);
        }
        if dots {
            assert(name@ =~= seq![46u8, 46u8]);
        }
    }
    if name.len() == 0 || dot || dots || holds_byte(name, 0) {
        return Err(AnyError::message("invalid path component"));
    }
    if holds_byte(name, SLASH) {
        return Err(AnyError::message("basename contains a path separator"));
    }
    Ok(())
}

/// Why one component cannot stand in a relative path.
pub open spec fn part_fault(part: Part) -> Option<Fault> {
    match part {
        Part::Normal(name) => basename_fault(name),
        _ => Some(said("path is not a normalized relative path"@)),
    }
}

/// The fault of the first component that cannot stand in a relative path.
pub open spec fn parts_fault(path: Seq<Part>) -> Option<Fault>
    decreases path.len(),
{
    if path.len() == 0 {
        None
    } else if part_fault(path[0]) is Some {
        part_fault(path[0])
    } else {
        parts_fault(path.drop_first())
    }
}

/// Why bytes are not a relative path beneath the root.
pub open spec fn rel_fault(path: Seq<u8>) -> Option<Fault> {
    parts_fault(parts(path))
}

/// A relative path is made of names only.
pub proof fn law_relative_paths_are_names(path: Seq<u8>)
    ensures
        rel_fault(path) is None <==> forall|i: int|
            0 <= i < parts(path).len() ==> (#[trigger] parts(path)[i] matches Part::Normal(name)
                && basename_fault(name) is None),
{
    lemma_parts_fault(parts(path));
    assert forall|i: int| 0 <= i < parts(path).len() implies (part_fault(
        #[trigger] parts(path)[i],
    ) is None <==> (parts(path)[i] matches Part::Normal(name) && basename_fault(name) is None)) by {
    }
}

/// No fault is found exactly where no component has one.
pub proof fn lemma_parts_fault(path: Seq<Part>)
    ensures
        parts_fault(path) is None <==> forall|i: int|
            0 <= i < path.len() ==> part_fault(#[trigger] path[i]) is None,
    decreases path.len(),
{
    if path.len() > 0 {
        lemma_parts_fault(path.drop_first());
        assert forall|i: int|
            0 <= i < path.len() && part_fault(path[0]) is None && parts_fault(
                path.drop_first(),
            ) is None implies part_fault(#[trigger] path[i]) is None by {
            if i > 0 {
                assert(path[i] == path.drop_first()[i - 1]);
            }
        }
        if forall|i: int| 0 <= i < path.len() ==> part_fault(#[trigger] path[i]) is None {
            assert forall|i: int| 0 <= i < path.drop_first().len() implies part_fault(
                #[trigger] path.drop_first()[i],
            ) is None by {
                assert(path.drop_first()[i] == path[i + 1]);
            }
            assert(part_fault(path[0]) is None);
        }
    }
}

/// Checks components from an index on.
fn validate_components(found: &Vec<Component>) -> (checked: Result<(), AnyError>)
    ensures
        ended(checked, parts_fault(component_views(found@))),
{
    let ghost all = component_views(found@);
    let mut i: usize = 0;
    assert(all.skip(0) =~= all);
    while i < found.len()
        invariant
            i <= found@.len(),
            all == component_views(found@),
            parts_fault(all) == parts_fault(all.skip(i as int)),
        decreases found.len() - i,
    {
        proof {
            assert(all.skip(i as int)[0] == found@[i as int].view());
            assert(all.skip(i as int).drop_first() =~= all.skip(i + 1));
        }
        match &found[i] {
            Component::Normal { name } => {
                match validate_basename(name.as_slice()) {
                    Ok(()) => {},
                    Err(error) => {
                        return Err(error);
                    },
                }
            },
            _ => {
                return Err(AnyError::message("path is not a normalized relative path"));
            },
        }
        i = i + 1;
    }
    Ok(())
}

pub fn validate_rel(path: &[u8]) -> (checked: Result<(), AnyError>)
    ensures
        ended(checked, rel_fault(path@)),
{
    validate_components(&components(path))
}

/// Why a path is not served. With a single served file, only its name is.
pub open spec fn public_fault(path: Seq<u8>, single: Option<Seq<u8>>) -> Option<Fault> {
    if rel_fault(path) is Some {
        rel_fault(path)
    } else {
        match single {
            Some(only) => if parts(path) == seq![Part::Normal(only)] {
                None
            } else {
                Some(said("path is outside the single-file capability"@))
            },
            None => None,
        }
    }
}

pub open spec fn single_view(single: Option<Vec<u8>>) -> Option<Seq<u8>> {
    match single {
        Some(name) => Some(name@),
        None => None,
    }
}

pub fn check_public_rel(path: &[u8], single: &Option<Vec<u8>>) -> (checked: Result<(), AnyError>)
    ensures
        ended(checked, public_fault(path@, single_view(*single))),
{
    let found = components(path);
    match validate_components(&found) {
        Ok(()) => {},
        Err(error) => {
            return Err(error);
        },
    }
    match single {
        Some(only) => {
            let mut valid = false;
            if found.len() == 1 {
                assert(parts(path@)[0] == found@[0].view());
                match &found[0] {
                    Component::Normal { name } => {
                        valid = same_bytes(name.as_slice(), only.as_slice());
                        if valid {
                            assert(parts(path@) =~= seq![Part::Normal(only@)]);
                        }
                    },
                    _ => {},
                }
            }
            if !valid {
                proof {
                    if parts(path@) == seq![Part::Normal(only@)] {
                        assert(component_views(found@).len() == 1);
                        assert(component_views(found@)[0] == Part::Normal(only@));
                    }
                }
                return Err(AnyError::message("path is outside the single-file capability"));
            }
            Ok(())
        },
        None => Ok(()),
    }
}

// ---------------------------------------------------------------------------------------------
// Opening
// ---------------------------------------------------------------------------------------------

/// What the system must refuse while it resolves a path.
#[derive(Clone, Copy, Debug, PartialEq, Eq, Structural)]
pub struct ResolveFlags {
    pub beneath: bool,
    pub no_magiclinks: bool,
    pub no_symlinks: bool,
    pub no_xdev: bool,
}

/// The restrictions on a whole relative path.
pub open spec fn path_restricted(
    allow_symlink: bool,
    allow_cross_filesystems: bool,
    flags: ResolveFlags,
) -> bool {
    &&& flags == (ResolveFlags {
        beneath: true,
        no_magiclinks: true,
        no_symlinks: !allow_symlink,
        no_xdev: !allow_cross_filesystems,
    })
}

/// The restrictions on a whole relative path.
pub fn resolve_flags(allow_symlink: bool, allow_cross_filesystems: bool) -> (flags: ResolveFlags)
    ensures
        path_restricted(allow_symlink, allow_cross_filesystems, flags),
{
    ResolveFlags {
        beneath: true,
        no_magiclinks: true,
        no_symlinks: !allow_symlink,
        no_xdev: !allow_cross_filesystems,
    }
}

/// The restrictions on one name.
pub open spec fn name_restricted(
    allow_cross_filesystems: bool,
    flags: ResolveFlags,
) -> bool {
    &&& flags == (ResolveFlags {
        beneath: true,
        no_magiclinks: true,
        no_symlinks: true,
        no_xdev: !allow_cross_filesystems,
    })
}

/// The restrictions on one name beneath a pinned directory: no link is ever followed.
pub fn strict_component_resolve_flags(allow_cross_filesystems: bool) -> (flags: ResolveFlags)
    ensures
        name_restricted(allow_cross_filesystems, flags),
{
    ResolveFlags {
        beneath: true,
        no_magiclinks: true,
        no_symlinks: true,
        no_xdev: !allow_cross_filesystems,
    }
}

#[derive(Clone, Copy, Debug, PartialEq, Eq, Structural)]
pub enum NodeKind {
    Any,
    File,
    Directory,
}

/// How a relative path is opened.
#[derive(Debug)]
pub enum OpenPlan {
    /// The pinned single file is opened again.
    Pinned,
    /// The path is opened beneath the root.
    Namespace { path: Vec<u8>, directory: bool, flags: ResolveFlags },
}

/// How a relative path is opened, or why it is not.
pub open spec fn open_planned(
    rel: Seq<u8>,
    kind: NodeKind,
    single: Option<Seq<u8>>,
    allow_symlink: bool,
    allow_cross_filesystems: bool,
    plan: Result<OpenPlan, AnyError>,
) -> bool {
    &&& ({
        let pinned = single matches Some(only) && same_parts(rel, only);
        match plan {
            Err(error) => if rel_fault(rel) is Some {
                rel_fault(rel) == Some(error@)
            } else {
                pinned && kind == NodeKind::Directory && error@ == failed(
                    FsKind::Conflict,
                    "opening the single-file capability as a directory"@,
                    said("single-file capability is not a directory"@),
                )
            },
            Ok(OpenPlan::Pinned) => rel_fault(rel) is None && pinned && kind
                != NodeKind::Directory,
            Ok(OpenPlan::Namespace { path, directory, flags }) => {
                &&& rel_fault(rel) is None
                &&& !pinned
                &&& path@ == (if rel.len() == 0 {
                    seq![46u8]
                } else {
                    rel
                })
                &&& directory == (kind == NodeKind::Directory)
                &&& flags == (ResolveFlags {
                    beneath: true,
                    no_magiclinks: true,
                    no_symlinks: !allow_symlink,
                    no_xdev: !allow_cross_filesystems,
                })
            },
        }
    })
}

/// Decides how a relative path is opened. The root itself is opened by a dot.
pub fn open_raw(
    rel: &[u8],
    kind: NodeKind,
    single: &Option<Vec<u8>>,
    allow_symlink: bool,
    allow_cross_filesystems: bool,
) -> (plan: Result<OpenPlan, AnyError>)
    ensures
        open_planned(
            rel@,
            kind,
            single_view(*single),
            allow_symlink,
            allow_cross_filesystems,
            plan,
        ),
{
    match validate_rel(rel) {
        Ok(()) => {},
        Err(error) => {
            return Err(error);
        },
    }
    match single {
        Some(only) => {
            if same_path(rel, only.as_slice()) {
                if kind == NodeKind::Directory {
                    return Err(
                        AnyError::filesystem(
                            FsError::conflict(
                                "opening the single-file capability as a directory",
                                AnyError::message("single-file capability is not a directory"),
                            ),
                        ),
                    );
                }
                return Ok(OpenPlan::Pinned);
            }
        },
        None => {},
    }
    let path = if rel.len() == 0 {
        let mut here: Vec<u8> = Vec::new();
        here.push(46);
        assert(here@ =~= seq![46u8]);
        here
    } else {
        copy_bytes(rel)
    };
    Ok(
        OpenPlan::Namespace {
            path,
            directory: kind == NodeKind::Directory,
            flags: resolve_flags(allow_symlink, allow_cross_filesystems),
        },
    )
}

/// Whether an error at a link stands.
pub open spec fn link_judged(
    allow_symlink: bool,
    error: AnyError,
    stands: Option<AnyError>,
) -> bool {
    &&& stands == (if allow_symlink {
        None
    } else {
        Some(error)
    })
}

/// What follows a failed open: where links are allowed the path is traced and opened once more,
/// and otherwise the failure stands.
pub fn open_with_symlink_policy(allow_symlink: bool, error: AnyError) -> (stands: Option<AnyError>)
    ensures
        link_judged(allow_symlink, error, stands),
{
    if allow_symlink {
        None
    } else {
        Some(error)
    }
}

/// Why an opened object is not of the wanted kind.
pub open spec fn kind_fault(kind: NodeKind, metadata: Metadata) -> Option<Fault> {
    if kind == NodeKind::File && !metadata.spec_is_file() {
        Some(
            failed(
                FsKind::Conflict,
                "opening a regular file"@,
                said("resource is not a regular file"@),
            ),
        )
    } else if kind == NodeKind::Directory && !metadata.spec_is_dir() {
        Some(
            failed(
                FsKind::Conflict,
                "opening a directory"@,
                said("resource is not a directory"@),
            ),
        )
    } else {
        None
    }
}

pub fn check_opened_kind(kind: NodeKind, metadata: &Metadata) -> (checked: Result<(), AnyError>)
    ensures
        ended(checked, kind_fault(kind, *metadata)),
{
    if kind == NodeKind::File && !metadata.is_file() {
        return Err(
            AnyError::filesystem(
                FsError::conflict(
                    "opening a regular file",
                    AnyError::message("resource is not a regular file"),
                ),
            ),
        );
    }
    if kind == NodeKind::Directory && !metadata.is_dir() {
        return Err(
            AnyError::filesystem(
                FsError::conflict(
                    "opening a directory",
                    AnyError::message("resource is not a directory"),
                ),
            ),
        );
    }
    Ok(())
}

/// The target of a mutation: the path of its directory and its name there.
#[derive(Debug)]
pub struct ParentPlan {
    pub parent_rel: Vec<u8>,
    pub target_name: Vec<u8>,
}

/// The directory and the name of a mutation target, or why there are none.
pub open spec fn parent_planned(
    rel: Seq<u8>,
    single: Option<Seq<u8>>,
    plan: Result<ParentPlan, AnyError>,
) -> bool {
    &&& match plan {
        Err(error) => if public_fault(rel, single) is Some {
            public_fault(rel, single) == Some(error@)
        } else {
            parts(rel).len() == 0 && error@ == said(
                "filesystem root cannot be used as a mutation target"@,
            )
        },
        Ok(target) => {
            &&& public_fault(rel, single) is None
            &&& parts(rel).len() > 0
            &&& parts(rel).last() == Part::Normal(target.target_name@)
            &&& target.parent_rel@ == rest_bytes(parts(rel).drop_last())
        },
    }
}

/// Splits the path of a mutation target into its directory and its name.
pub fn open_parent_sync_with_mode(rel: &[u8], single: &Option<Vec<u8>>) -> (plan: Result<
    ParentPlan,
    AnyError,
>)
    ensures
        parent_planned(rel@, single_view(*single), plan),
{
    match check_public_rel(rel, single) {
        Ok(()) => {},
        Err(error) => {
            return Err(error);
        },
    }
    let mut found = components(rel);
    let ghost all = parts(rel@);
    proof {
        lemma_parts_fault(all);
    }
    match found.pop() {
        None => {
            assert(all.len() == 0);
            Err(AnyError::message("filesystem root cannot be used as a mutation target"))
        },
        Some(last) => {
            assert(all.last() == last.view());
            assert(component_views(found@) =~= all.drop_last());
            assert(part_fault(all[all.len() - 1]) is None);
            match last {
                Component::Normal { name } => {
                    match validate_basename(name.as_slice()) {
                        Ok(()) => {},
                        Err(error) => {
                            assert(false);
                            return Err(error);
                        },
                    }
                    let parent_rel = join_components(&found);
                    Ok(ParentPlan { parent_rel, target_name: name })
                },
                _ => {
                    assert(false);
                    Err(AnyError::message("filesystem root cannot be used as a mutation target"))
                },
            }
        },
    }
}

/// The path of a mutation target is the path of its directory followed by its name.
pub proof fn law_parent_and_name_make_the_target(path: Seq<Part>)
    requires
        path.len() > 0,
        parts_fault(path) is None,
    ensures
        path == path.drop_last().push(path.last()),
        path.last() matches Part::Normal(name) && rest_bytes(path) == (if path.len() == 1 {
            name
        } else {
            rest_bytes(path.drop_last()).push(SLASH) + name
        }),
{
    lemma_parts_fault(path);
    assert(part_fault(path[path.len() - 1]) is None);
    let pieces = path.map_values(|part: Part| part_bytes(part));
    assert(path.drop_last().map_values(|part: Part| part_bytes(part)) =~= pieces.drop_last());
    assert(path =~= path.drop_last().push(path.last()));
}

// ---------------------------------------------------------------------------------------------
// Tracing an opened object back to its path
// ---------------------------------------------------------------------------------------------

/// The path that the system shows for an object whose name was removed.
pub open spec fn shows_deleted(path: Seq<u8>) -> bool {
    path.len() >= 10 && path.skip(path.len() - 10) == seq![
        32u8,
        40u8,
        100u8,
        101u8,
        108u8,
        101u8,
        116u8,
        101u8,
        100u8,
        41u8,
    ]
}

pub fn deleted_proc_target(path: &[u8]) -> (deleted: bool)
    ensures
        deleted == shows_deleted(path@),
{
    let n: usize = path.len();
    if n < 10 {
        return false;
    }
    let at: usize = n - 10;
    let deleted = path[at] == 32 && path[at + 1] == 40 && path[at + 2] == 100 && path[at + 3]
        == 101 && path[at + 4] == 108 && path[at + 5] == 101 && path[at + 6] == 116 && path[at + 7]
        == 101 && path[at + 8] == 100 && path[at + 9] == 41;
    proof {
        let tail = path@.skip(path@.len() - 10);
        assert forall|i: int| 0 <= i < 10 implies tail[i] == path@[at + i] by {}
        if deleted {
            assert(tail =~= seq![
                32u8,
                40u8,
                100u8,
                101u8,
                108u8,
                101u8,
                116u8,
                101u8,
                100u8,
                41u8,
            ]);
        } else if shows_deleted(path@) {
            assert(tail[0] == 32 && tail[1] == 40 && tail[2] == 100 && tail[3] == 101 && tail[4]
                == 108 && tail[5] == 101 && tail[6] == 116 && tail[7] == 101 && tail[8] == 100
                && tail[9] == 41);
            assert(tail[0] == path@[at as int] && tail[1] == path@[at + 1] && tail[2] == path@[at
                + 2] && tail[3] == path@[at + 3] && tail[4] == path@[at + 4] && tail[5] == path@[at
                + 5] && tail[6] == path@[at + 6] && tail[7] == path@[at + 7] && tail[8] == path@[at
                + 8] && tail[9] == path@[at + 9]);
        }
    }
    deleted
}

/// The three readings of one attempt: where the root is, where the object is, and where the root
/// is afterwards.
#[derive(Debug)]
pub struct Readings {
    pub root_before: Result<Vec<u8>, AnyError>,
    pub target: Result<Vec<u8>, AnyError>,
    pub root_after: Result<Vec<u8>, AnyError>,
}

pub open spec fn read(reading: Result<Vec<u8>, AnyError>) -> Result<Seq<u8>, Fault> {
    match reading {
        Ok(path) => Ok(path@),
        Err(error) => Err(error@),
    }
}

/// What one attempt tells.
pub enum Location {
    Failed(Fault),
    /// The root moved, or its name was removed.
    Unstable,
    /// The object lies at this path beneath the root.
    At(Seq<u8>),
}

/// What three readings tell. `reading` names the second reading, and `leaving` the operation
/// during which an object outside the root was met.
pub open spec fn location(
    root_before: Result<Seq<u8>, Fault>,
    target: Result<Seq<u8>, Fault>,
    root_after: Result<Seq<u8>, Fault>,
    reading: Seq<char>,
    leaving: Seq<char>,
) -> Location {
    match root_before {
        Err(fault) => Location::Failed(
            typed_fault("reading the filesystem capability root"@, fault),
        ),
        Ok(root) => match target {
            Err(fault) => Location::Failed(typed_fault(reading, fault)),
            Ok(path) => match root_after {
                Err(fault) => Location::Failed(
                    typed_fault("re-reading the filesystem capability root"@, fault),
                ),
                Ok(after) => if !same_parts(root, after) || shows_deleted(root) {
                    Location::Unstable
                } else {
                    match stripped(parts(path), parts(root)) {
                        None => Location::Failed(
                            failed(FsKind::OutsideRoot, leaving, said("prefix not found"@)),
                        ),
                        Some(rest) => match parts_fault(rest) {
                            Some(fault) => Location::Failed(fault),
                            None => Location::At(rest_bytes(rest)),
                        },
                    }
                },
            },
        },
    }
}

/// What one attempt tells, as a result: an error, nothing certain, or a path.
fn locate(readings: Readings, reading: &'static str, leaving: &'static str) -> (found: Result<
    Option<Vec<u8>>,
    AnyError,
>)
    ensures
        match location(
            read(readings.root_before),
            read(readings.target),
            read(readings.root_after),
            reading@,
            leaving@,
        ) {
            Location::Failed(fault) => found matches Err(error) && error@ == fault,
            Location::Unstable => found matches Ok(None),
            Location::At(rel) => found matches Ok(Some(path)) && path@ == rel,
        },
{
    let root = match readings.root_before {
        Ok(root) => root,
        Err(error) => {
            return Err(typed_filesystem_error("reading the filesystem capability root", error));
        },
    };
    let path = match readings.target {
        Ok(path) => path,
        Err(error) => {
            return Err(typed_filesystem_error(reading, error));
        },
    };
    let after = match readings.root_after {
        Ok(after) => after,
        Err(error) => {
            return Err(typed_filesystem_error("re-reading the filesystem capability root", error));
        },
    };
    if !same_path(root.as_slice(), after.as_slice()) || deleted_proc_target(root.as_slice()) {
        return Ok(None);
    }
    match strip_prefix(path.as_slice(), root.as_slice()) {
        None => Err(
            AnyError::filesystem(
                FsError::outside_root(leaving, AnyError::message("prefix not found")),
            ),
        ),
        Some(rest) => {
            match validate_components(&rest) {
                Ok(()) => {},
                Err(error) => {
                    return Err(error);
                },
            }
            Ok(Some(join_components(&rest)))
        },
    }
}

/// The search for the path of an opened object. An object is at a path only if opening that path
/// again gives the same object.
#[derive(Debug)]
pub struct PathVerification {
    pub attempts_left: usize,
    pub last_detail: String,
}

#[derive(Debug)]
pub enum PathStep {
    /// Read the three paths again.
    Again,
    /// Open this path and compare the objects.
    Reopen { rel: Vec<u8> },
    /// Another object is at this path. Look at both once more, to tell which they are.
    Reread { rel: Vec<u8> },
    /// The object is at this path.
    Verified { rel: Vec<u8> },
    Failed { error: AnyError },
}

/// What opening the path again gave.
#[derive(Debug)]
pub enum Reopened {
    /// It failed; the texts are those of the path and of the error in diagnostics.
    Failed { described: String, cause: String },
    /// The two objects could not be compared.
    Incomparable { error: AnyError },
    Compared { original: Metadata, reopened: Metadata },
}

pub open spec fn exhausted_fault(detail: Seq<char>) -> Fault {
    failed(
        FsKind::Conflict,
        "verifying an opened filesystem object"@,
        said("opened object changed during verification: "@ + detail),
    )
}

pub open spec fn mismatch_text(described: Seq<char>, original: Metadata, reopened: Metadata) -> Seq<
    char,
> {
    "identity mismatch for "@ + described + ": original "@ + digits(original.dev as nat) + ":"@
        + digits(original.ino as nat) + ", reopened "@ + digits(reopened.dev as nat) + ":"@
        + digits(reopened.ino as nat)
}

/// The step after an attempt that came to nothing: another one, or the conflict.
pub open spec fn retried(
    before: PathVerification,
    after: PathVerification,
    detail: Seq<char>,
    step: PathStep,
) -> bool {
    &&& after.attempts_left == before.attempts_left - 1
    &&& after.last_detail@ == detail
    &&& if before.attempts_left == 1 {
        step matches PathStep::Failed { error } && error@ == exhausted_fault(detail)
    } else {
        step is Again
    }
}

impl PathVerification {
    pub fn new() -> (search: PathVerification)
        ensures
            search.attempts_left == VERIFY_RETRIES,
            search.last_detail@ == Seq::<char>::empty(),
    {
        PathVerification { attempts_left: VERIFY_RETRIES, last_detail: String::new() }
    }

    fn retry(&mut self, detail: String) -> (step: PathStep)
        requires
            old(self).attempts_left > 0,
        ensures
            retried(*old(self), *final(self), detail@, step),
    {
        self.attempts_left = self.attempts_left - 1;
        self.last_detail = detail;
        if self.attempts_left == 0 {
            let text = text2(
                "opened object changed during verification: ",
                self.last_detail.as_str(),
            );
            PathStep::Failed {
                error: AnyError::filesystem(
                    FsError::conflict(
                        "verifying an opened filesystem object",
                        AnyError::message(text.as_str()),
                    ),
                ),
            }
        } else {
            PathStep::Again
        }
    }

    /// The step after an attempt to tell where an object is.
    pub open spec fn has_located(
        before: PathVerification,
        after: PathVerification,
        readings: Readings,
        shown_before: Seq<char>,
        shown_after: Seq<char>,
        step: PathStep,
    ) -> bool {
        &&& match location(
            read(readings.root_before),
            read(readings.target),
            read(readings.root_after),
            "reading an opened object path"@,
            "verifying an opened filesystem object"@,
        ) {
            Location::Failed(fault) => {
                &&& step matches PathStep::Failed { error } && error@ == fault
                &&& after == before
            },
            Location::Unstable => retried(
                before,
                after,
                "root changed: "@ + shown_before + " -> "@ + shown_after,
                step,
            ),
            Location::At(path) => {
                &&& step matches PathStep::Reopen { rel } && rel@ == path
                &&& after == before
            },
        }
    }

    /// Takes the three readings of an attempt. `shown_before` and `shown_after` are the two root
    /// paths as diagnostics show them.
    pub fn located(&mut self, readings: Readings, shown_before: &str, shown_after: &str) -> (step:
        PathStep)
        requires
            old(self).attempts_left > 0,
        ensures
            PathVerification::has_located(*old(self), *final(self), readings, shown_before@, shown_after@, step),
    {
        match locate(
            readings,
            "reading an opened object path",
            "verifying an opened filesystem object",
        ) {
            Err(error) => PathStep::Failed { error },
            Ok(None) => {
                let mut builder = TextBuilder::new();
                builder.push("root changed: ");
                builder.push(shown_before);
                builder.push(" -> ");
                builder.push(shown_after);
                assert(builder.view() =~= "root changed: "@ + shown_before@ + " -> "@
                    + shown_after@);
                let detail = builder.finish();
                self.retry(detail)
            },
            Ok(Some(rel)) => PathStep::Reopen { rel },
        }
    }

    /// The step after opening a path again.
    pub open spec fn has_reopened(
        before: PathVerification,
        after: PathVerification,
        rel: Vec<u8>,
        outcome: Reopened,
        step: PathStep,
    ) -> bool {
        &&& match outcome {
            Reopened::Failed { described, cause } => retried(
                before,
                after,
                "reopen "@ + described@ + " failed: "@ + cause@,
                step,
            ),
            Reopened::Incomparable { error: source } => {
                &&& step matches PathStep::Failed { error } && error@ == typed_fault(
                    "comparing reopened filesystem identities"@,
                    source@,
                )
                &&& after == before
            },
            Reopened::Compared { original, reopened } => {
                &&& after == before
                &&& if one_object(original, reopened) {
                    step matches PathStep::Verified { rel: path } && path@ == rel@
                } else {
                    step matches PathStep::Reread { rel: path } && path@ == rel@
                }
            },
        }
    }

    /// Takes what opening the path again gave.
    pub fn reopened(&mut self, rel: Vec<u8>, outcome: Reopened) -> (step: PathStep)
        requires
            old(self).attempts_left > 0,
        ensures
            PathVerification::has_reopened(*old(self), *final(self), rel, outcome, step),
    {
        match outcome {
            Reopened::Failed { described, cause } => {
                let mut builder = TextBuilder::new();
                builder.push("reopen ");
                builder.push(described.as_str());
                builder.push(" failed: ");
                builder.push(cause.as_str());
                assert(builder.view() =~= "reopen "@ + described@ + " failed: "@ + cause@);
                let detail = builder.finish();
                self.retry(detail)
            },
            Reopened::Incomparable { error } => PathStep::Failed {
                error: typed_filesystem_error("comparing reopened filesystem identities", error),
            },
            Reopened::Compared { original, reopened } => {
                if same_object(&original, &reopened) {
                    PathStep::Verified { rel }
                } else {
                    PathStep::Reread { rel }
                }
            },
        }
    }

    /// Takes a second look at two objects that are not one. `described` is the path as
    /// diagnostics show it.
    pub fn reread(
        &mut self,
        described: &str,
        original: Result<Metadata, AnyError>,
        reopened: Result<Metadata, AnyError>,
    ) -> (step: PathStep)
        requires
            old(self).attempts_left > 0,
        ensures
            match (original, reopened) {
                (Err(source), _) => {
                    &&& step matches PathStep::Failed { error } && error@ == typed_fault(
                        "reading opened filesystem metadata"@,
                        source@,
                    )
                    &&& *final(self) == *old(self)
                },
                (Ok(_), Err(source)) => {
                    &&& step matches PathStep::Failed { error } && error@ == typed_fault(
                        "reading reopened filesystem metadata"@,
                        source@,
                    )
                    &&& *final(self) == *old(self)
                },
                (Ok(first), Ok(second)) => retried(
                    *old(self),
                    *final(self),
                    mismatch_text(described@, first, second),
                    step,
                ),
            },
    {
        let original = match original {
            Ok(metadata) => metadata,
            Err(error) => {
                return PathStep::Failed {
                    error: typed_filesystem_error("reading opened filesystem metadata", error),
                };
            },
        };
        let reopened = match reopened {
            Ok(metadata) => metadata,
            Err(error) => {
                return PathStep::Failed {
                    error: typed_filesystem_error("reading reopened filesystem metadata", error),
                };
            },
        };
        let original_dev = number_text(original.dev);
        let original_ino = number_text(original.ino);
        let reopened_dev = number_text(reopened.dev);
        let reopened_ino = number_text(reopened.ino);
        let mut builder = TextBuilder::new();
        builder.push("identity mismatch for ");
        builder.push(described);
        builder.push(": original ");
        builder.push(original_dev.as_str());
        builder.push(":");
        builder.push(original_ino.as_str());
        builder.push(", reopened ");
        builder.push(reopened_dev.as_str());
        builder.push(":");
        builder.push(reopened_ino.as_str());
        assert(builder.view() =~= mismatch_text(described@, original, reopened));
        let detail = builder.finish();
        self.retry(detail)
    }
}

/// Where the search for an object starts.
pub open spec fn search_started(
    single: Option<Vec<u8>>,
    is_single: Result<bool, AnyError>,
    start: Result<Option<Vec<u8>>, AnyError>,
) -> bool {
    &&& match single_view(single) {
        None => start matches Ok(None),
        Some(name) => match is_single {
            Err(error) => start matches Err(e) && e@ == typed_fault(
                "verifying the pinned single-file identity"@,
                error@,
            ),
            Ok(true) => start matches Ok(Some(rel)) && rel@ == name,
            Ok(false) => start matches Ok(None),
        },
    }
}

/// Where the path of an opened object starts to be searched for: the pinned single file is known
/// by its name, and anything else is searched.
pub fn real_relative_verified(single: &Option<Vec<u8>>, is_single: Result<bool, AnyError>) -> (start:
    Result<Option<Vec<u8>>, AnyError>)
    ensures
        search_started(*single, is_single, start),
{
    match single {
        None => Ok(None),
        Some(name) => match is_single {
            Err(error) => Err(
                typed_filesystem_error("verifying the pinned single-file identity", error),
            ),
            Ok(same) => {
                if same {
                    Ok(Some(copy_bytes(name.as_slice())))
                } else {
                    Ok(None)
                }
            },
        },
    }
}

/// A located path is made of names only, so it stays beneath the root.
pub proof fn law_located_paths_stay_beneath_the_root(
    root_before: Result<Seq<u8>, Fault>,
    target: Result<Seq<u8>, Fault>,
    root_after: Result<Seq<u8>, Fault>,
    reading: Seq<char>,
    leaving: Seq<char>,
)
    ensures
        location(root_before, target, root_after, reading, leaving) matches Location::At(rel) ==> ({
            let rest = stripped(parts(target->Ok_0), parts(root_before->Ok_0));
            &&& root_before is Ok && target is Ok && root_after is Ok
            &&& same_parts(root_before->Ok_0, root_after->Ok_0)
            &&& rest is Some
            &&& rel == rest_bytes(rest->Some_0)
            &&& forall|i: int|
                0 <= i < rest->Some_0.len() ==> (#[trigger] rest->Some_0[i] matches Part::Normal(
                    name,
                ) && basename_fault(name) is None)
        }),
{
    if let Location::At(rel) = location(root_before, target, root_after, reading, leaving) {
        let rest = stripped(parts(target->Ok_0), parts(root_before->Ok_0))->Some_0;
        lemma_parts_fault(rest);
        assert forall|i: int| 0 <= i < rest.len() implies (#[trigger] rest[i] matches Part::Normal(
            name,
        ) && basename_fault(name) is None) by {
            assert(part_fault(rest[i]) is None);
        }
    }
}

/// The tracing of an allowed link to the path of what it leads to.
#[derive(Debug)]
pub struct CanonicalSearch {
    pub attempts_left: usize,
}

#[derive(Debug)]
pub enum CanonicalStep {
    Again,
    Found { rel: Vec<u8> },
    Failed { error: AnyError },
}

pub open spec fn canonical_conflict() -> Fault {
    failed(
        FsKind::Conflict,
        "canonicalizing an allowed filesystem symlink"@,
        said("filesystem root changed while resolving the symlink"@),
    )
}

impl CanonicalSearch {
    pub fn canonical_existing_rel(rel: &[u8]) -> (search: Result<CanonicalSearch, AnyError>)
        ensures
            match search {
                Err(error) => rel_fault(rel@) == Some(error@),
                Ok(begun) => rel_fault(rel@) is None && begun.attempts_left == VERIFY_RETRIES,
            },
    {
        match validate_rel(rel) {
            Ok(()) => Ok(CanonicalSearch { attempts_left: VERIFY_RETRIES }),
            Err(error) => Err(error),
        }
    }

    /// The step after an attempt to trace a link.
    pub open spec fn has_located(
        before: CanonicalSearch,
        after: CanonicalSearch,
        readings: Readings,
        step: CanonicalStep,
    ) -> bool {
        &&& match location(
            read(readings.root_before),
            read(readings.target),
            read(readings.root_after),
            "canonicalizing an allowed filesystem symlink"@,
            "canonicalizing an allowed filesystem symlink"@,
        ) {
            Location::Failed(fault) => step matches CanonicalStep::Failed { error } && error@
                == fault,
            Location::At(path) => step matches CanonicalStep::Found { rel } && rel@ == path,
            Location::Unstable => {
                &&& after.attempts_left == before.attempts_left - 1
                &&& if before.attempts_left == 1 {
                    step matches CanonicalStep::Failed { error } && error@
                        == canonical_conflict()
                } else {
                    step is Again
                }
            },
        }
    }

    /// Takes the three readings of an attempt, the second of which is the canonical path.
    pub fn located(&mut self, readings: Readings) -> (step: CanonicalStep)
        requires
            old(self).attempts_left > 0,
        ensures
            CanonicalSearch::has_located(*old(self), *final(self), readings, step),
    {
        match locate(
            readings,
            "canonicalizing an allowed filesystem symlink",
            "canonicalizing an allowed filesystem symlink",
        ) {
            Err(error) => CanonicalStep::Failed { error },
            Ok(Some(rel)) => CanonicalStep::Found { rel },
            Ok(None) => {
                self.attempts_left = self.attempts_left - 1;
                if self.attempts_left == 0 {
                    CanonicalStep::Failed {
                        error: AnyError::filesystem(
                            FsError::conflict(
                                "canonicalizing an allowed filesystem symlink",
                                AnyError::message(
                                    "filesystem root changed while resolving the symlink",
                                ),
                            ),
                        ),
                    }
                } else {
                    CanonicalStep::Again
                }
            },
        }
    }
}

// ---------------------------------------------------------------------------------------------
// The pinned parent of a mutation
// ---------------------------------------------------------------------------------------------

/// What opening the parent's path again gave.
#[allow(inconsistent_fields)]
#[derive(Debug)]
pub enum ReopenedParent {
    /// It failed; `shown` is the error as diagnostics show it.
    Failed { error: AnyError, shown: String },
    /// It opened, and the system would not tell what.
    Unread { error: AnyError },
    Opened { metadata: Metadata },
}

pub open spec fn parent_text(metadata: Metadata) -> Seq<char> {
    "parent "@ + digits(metadata.dev as nat) + ":"@ + digits(metadata.ino as nat)
}

fn describe_parent(metadata: &Metadata) -> (text: String)
    ensures
        text@ == parent_text(*metadata),
{
    let dev = number_text(metadata.dev);
    let ino = number_text(metadata.ino);
    let mut builder = TextBuilder::new();
    builder.push("parent ");
    builder.push(dev.as_str());
    builder.push(":");
    builder.push(ino.as_str());
    assert(builder.view() =~= parent_text(*metadata));
    builder.finish()
}

/// The failures that say that the parent is not where it was.
pub open spec fn parent_moved(fault: Fault) -> bool {
    match fault.nature() {
        Some(FsNature::Failed(FsKind::NotFound)) => true,
        Some(FsNature::Failed(FsKind::Conflict)) => true,
        Some(FsNature::Failed(FsKind::OutsideRoot)) => true,
        _ => false,
    }
}

/// Why a pinned parent is not the directory at its path any more.
pub open spec fn parent_fault(
    real_rel: Seq<u8>,
    pinned: Result<Metadata, AnyError>,
    reopened: ReopenedParent,
    role: MutationEndpointRole,
) -> Option<Fault> {
    match pinned {
        Err(error) => Some(failed(FsKind::Io, "reading pinned mutation parent"@, error@)),
        Ok(expected) => match reopened {
            ReopenedParent::Failed { error, shown } => {
                let typed = typed_fault("reopening mutation parent"@, error@);
                if parent_moved(typed) {
                    Some(
                        changed(
                            role,
                            lossy_text(real_rel),
                            parent_text(expected),
                            "parent namespace is unavailable: "@ + shown@,
                        ),
                    )
                } else {
                    Some(typed)
                }
            },
            ReopenedParent::Unread { error } => Some(
                failed(FsKind::Io, "reading reopened mutation parent"@, error@),
            ),
            ReopenedParent::Opened { metadata } => if one_object(expected, metadata) {
                None
            } else {
                Some(
                    changed(
                        role,
                        lossy_text(real_rel),
                        parent_text(expected),
                        parent_text(metadata),
                    ),
                )
            },
        },
    }
}

/// Checks that the directory at the parent's path is the pinned one.
pub fn verify_parent_with_role(
    real_rel: &[u8],
    pinned: Result<Metadata, AnyError>,
    reopened: ReopenedParent,
    role: MutationEndpointRole,
) -> (checked: Result<(), AnyError>)
    ensures
        ended(checked, parent_fault(real_rel@, pinned, reopened, role)),
{
    let expected = match pinned {
        Err(error) => {
            return Err(
                AnyError::filesystem(FsError::io("reading pinned mutation parent", error)),
            );
        },
        Ok(expected) => expected,
    };
    let wanted = describe_parent(&expected);
    match reopened {
        ReopenedParent::Failed { error, shown } => {
            let error = typed_filesystem_error("reopening mutation parent", error);
            proof {
                crate::fault::lemma_chain_of_fault(error);
            }
            let moved = match FsError::in_anyhow_chain(&error) {
                Some(FsError::NotFound { .. }) => true,
                Some(FsError::Conflict { .. }) => true,
                Some(FsError::OutsideRoot { .. }) => true,
                _ => false,
            };
            if moved {
                let endpoint = lossy(real_rel);
                let actual = text2("parent namespace is unavailable: ", shown.as_str());
                return Err(
                    AnyError::filesystem(
                        FsError::changed(role, endpoint.as_str(), wanted.as_str(), actual.as_str()),
                    ),
                );
            }
            Err(error)
        },
        ReopenedParent::Unread { error } => Err(
            AnyError::filesystem(FsError::io("reading reopened mutation parent", error)),
        ),
        ReopenedParent::Opened { metadata } => {
            if !same_object(&expected, &metadata) {
                let endpoint = lossy(real_rel);
                let found = describe_parent(&metadata);
                return Err(
                    AnyError::filesystem(
                        FsError::changed(role, endpoint.as_str(), wanted.as_str(), found.as_str()),
                    ),
                );
            }
            Ok(())
        },
    }
}

// ---------------------------------------------------------------------------------------------
// Trusted assets and small files
// ---------------------------------------------------------------------------------------------

/// Why an object may not be served as an asset of the server's own pages.
pub open spec fn asset_fault(
    metadata: Metadata,
    directory: bool,
    trusted_owner: bool,
    described: Seq<char>,
) -> Option<Fault> {
    if directory && !metadata.spec_is_dir() {
        Some(said("trusted asset is not a directory: "@ + described))
    } else if !directory && !metadata.spec_is_file() {
        Some(said("trusted asset is not a regular file: "@ + described))
    } else if !directory && metadata.nlink != 1 {
        Some(said("trusted asset has hard-link aliases: "@ + described))
    } else if metadata.mode & 0o022 != 0 {
        Some(said("trusted asset is group/world writable: "@ + described))
    } else if !trusted_owner {
        Some(said("trusted asset has an untrusted owner: "@ + described))
    } else {
        None
    }
}

/// `trusted_owner` is whether the owner is one that the server trusts, and `described` the path
/// as diagnostics show it.
pub fn validate_trusted_asset_metadata(
    metadata: &Metadata,
    directory: bool,
    trusted_owner: bool,
    described: &str,
) -> (checked: Result<(), AnyError>)
    ensures
        ended(checked, asset_fault(*metadata, directory, trusted_owner, described@)),
{
    if directory {
        if !metadata.is_dir() {
            return Err(
                AnyError::message(
                    text2("trusted asset is not a directory: ", described).as_str(),
                ),
            );
        }
    } else {
        if !metadata.is_file() {
            return Err(
                AnyError::message(
                    text2("trusted asset is not a regular file: ", described).as_str(),
                ),
            );
        }
        if metadata.nlink != 1 {
            return Err(
                AnyError::message(
                    text2("trusted asset has hard-link aliases: ", described).as_str(),
                ),
            );
        }
    }
    if metadata.mode & 0o022 != 0 {
        return Err(
            AnyError::message(text2("trusted asset is group/world writable: ", described).as_str()),
        );
    }
    if !trusted_owner {
        return Err(
            AnyError::message(text2("trusted asset has an untrusted owner: ", described).as_str()),
        );
    }
    Ok(())
}

pub open spec fn over_limit_text(max_bytes: nat) -> Seq<char> {
    "resource exceeds the "@ + digits(max_bytes) + "-byte limit"@
}

/// Why a file is not read as a whole.
pub open spec fn limited_read_fault(metadata: Metadata, max_bytes: usize) -> Option<Fault> {
    if !metadata.spec_is_file() {
        Some(said("resource is not a regular file"@))
    } else if metadata.len > max_bytes {
        Some(said(over_limit_text(max_bytes as nat)))
    } else {
        None
    }
}

/// Decides from what the system tells of a file whether it is read as a whole.
pub fn read_to_string_limited(metadata: &Metadata, max_bytes: usize) -> (checked: Result<
    (),
    AnyError,
>)
    ensures
        ended(checked, limited_read_fault(*metadata, max_bytes)),
{
    if !metadata.is_file() {
        return Err(AnyError::message("resource is not a regular file"));
    }
    if metadata.len > max_bytes as u64 {
        let digits = number_text(max_bytes as u64);
        return Err(
            AnyError::message(
                text3("resource exceeds the ", digits.as_str(), "-byte limit").as_str(),
            ),
        );
    }
    Ok(())
}

/// A text that was read within a limit.
pub open spec fn output_limited(
    output: String,
    read: usize,
    max_bytes: usize,
    kept: Result<String, AnyError>,
) -> bool {
    &&& match kept {
        Ok(text) => read <= max_bytes && text == output,
        Err(error) => read > max_bytes && error@ == said(over_limit_text(max_bytes as nat)),
    }
}

/// Checks what was read: the file may have grown since its size was looked at.
pub fn limited_output(output: String, read: usize, max_bytes: usize) -> (kept: Result<
    String,
    AnyError,
>)
    ensures
        output_limited(output, read, max_bytes, kept),
{
    if read > max_bytes {
        let digits = number_text(max_bytes as u64);
        return Err(
            AnyError::message(
                text3("resource exceeds the ", digits.as_str(), "-byte limit").as_str(),
            ),
        );
    }
    Ok(output)
}

/// A name may be that of an entry exactly where it is not empty, is none of the two names that
/// every directory has, and holds neither a zero nor a slash. Nothing else of it matters.
pub proof fn law_names_of_entries(name: Seq<u8>)
    ensures
        basename_fault(name) is None <==> {
            &&& name.len() > 0
            &&& name != seq![46u8]
            &&& name != seq![46u8, 46u8]
            &&& forall|i: int| 0 <= i < name.len() ==> #[trigger] name[i] != 0 && name[i] != 47
        },
{
    if basename_fault(name) is None {
        assert forall|i: int| 0 <= i < name.len() implies #[trigger] name[i] != 0 && name[i]
            != 47 by {
            if name[i] == 0 {
                assert(name.contains(0));
            }
            if name[i] == 47 {
                assert(name.contains(SLASH));
            }
        }
    }
}

/// A path of entry names is served wherever a tree is, whatever the names are; where a single
/// file is served, its own name is served and nothing else.
pub proof fn law_paths_of_names_are_served(names: Seq<Seq<u8>>, single: Seq<u8>)
    requires
        forall|i: int| 0 <= i < names.len() ==> basename_fault(#[trigger] names[i]) is None,
    ensures
        public_fault(crate::path::slashed(names), None) is None,
        public_fault(crate::path::slashed(names), Some(single)) is None <==> names == seq![single],
{
    let path = crate::path::slashed(names);
    assert forall|i: int| 0 <= i < names.len() implies {
        &&& (#[trigger] names[i]).len() > 0
        &&& names[i] != seq![46u8]
        &&& names[i] != seq![46u8, 46u8]
        &&& !names[i].contains(47u8)
    } by {
        assert(basename_fault(names[i]) is None);
    }
    crate::path::law_components_are_names(names);
    let found = parts(path);
    assert forall|i: int| 0 <= i < found.len() implies part_fault(#[trigger] found[i]) is None by {
        assert(found[i] == Part::Normal(names[i]));
        assert(basename_fault(names[i]) is None);
    }
    lemma_parts_fault(found);
    if names == seq![single] {
        assert(found =~= seq![Part::Normal(single)]);
    }
    if found == seq![Part::Normal(single)] {
        assert(found.len() == 1 && found[0] == Part::Normal(single));
        assert(names =~= seq![single]);
    }
}

/// A path of names is opened beneath the root: never through a link unless links are allowed,
/// never into another filesystem unless that is, and never outside the root. The pinned single
/// file is opened as itself.
pub proof fn law_paths_are_opened_beneath_the_root(
    rel: Seq<u8>,
    kind: NodeKind,
    single: Option<Seq<u8>>,
    allow_symlink: bool,
    allow_cross_filesystems: bool,
    plan: Result<OpenPlan, AnyError>,
)
    requires
        open_planned(rel, kind, single, allow_symlink, allow_cross_filesystems, plan),
    ensures
        rel_fault(rel) is Some ==> plan is Err,
        rel_fault(rel) is None && (single is None || parts(single->Some_0) != parts(rel)) ==> (
        plan matches Ok(OpenPlan::Namespace { path, directory, flags }) && {
            &&& rel.len() > 0 ==> path@ == rel
            &&& rel.len() == 0 ==> path@ == seq![46u8]
            &&& directory <==> kind == NodeKind::Directory
            &&& flags.beneath && flags.no_magiclinks
            &&& flags.no_symlinks <==> !allow_symlink
            &&& flags.no_xdev <==> !allow_cross_filesystems
        }),
        rel_fault(rel) is None && single is Some && parts(single->Some_0) == parts(rel) ==> {
            &&& kind == NodeKind::Directory <==> plan is Err
            &&& kind != NodeKind::Directory <==> plan matches Ok(OpenPlan::Pinned)
        },
{
}

/// An opened object is refused exactly where it is not of the kind that was asked for.
pub proof fn law_opened_kinds(kind: NodeKind, metadata: Metadata)
    ensures
        kind_fault(kind, metadata) is None <==> match kind {
            NodeKind::Any => true,
            NodeKind::File => metadata.mode & 0o170000 == 0o100000,
            NodeKind::Directory => metadata.mode & 0o170000 == 0o040000,
        },
{
}

/// A mutation target that is served and is not the root has its directory and its name, which
/// together are the target.
pub proof fn law_targets_have_a_parent(
    rel: Seq<u8>,
    single: Option<Seq<u8>>,
    plan: Result<ParentPlan, AnyError>,
)
    requires
        parent_planned(rel, single, plan),
    ensures
        plan is Ok <==> public_fault(rel, single) is None && parts(rel).len() > 0,
        plan matches Ok(target) ==> {
            &&& parts(rel) == parts(rel).drop_last().push(Part::Normal(target.target_name@))
            &&& target.parent_rel@ == rest_bytes(parts(rel).drop_last())
        },
{
    if plan is Ok {
        assert(parts(rel) =~= parts(rel).drop_last().push(parts(rel).last()));
    }
}

/// An object is at the path behind the root wherever the root did not move, the object lies
/// beneath it, and every component of that path is a name.
pub proof fn law_objects_beneath_the_root_are_located(
    root: Seq<u8>,
    target: Seq<u8>,
    rest: Seq<Part>,
    reading: Seq<char>,
    leaving: Seq<char>,
)
    requires
        parts(target) == parts(root) + rest,
        parts_fault(rest) is None,
        !shows_deleted(root),
    ensures
        location(Ok(root), Ok(target), Ok(root), reading, leaving) == Location::At(
            rest_bytes(rest),
        ),
{
    crate::path::law_stripping_undoes_joining(parts(target), parts(root), rest);
}

/// An attempt decides nothing exactly where the root moved or was removed meanwhile.
pub proof fn law_only_a_moved_root_is_unstable(
    before: Seq<u8>,
    target: Seq<u8>,
    after: Seq<u8>,
    reading: Seq<char>,
    leaving: Seq<char>,
)
    ensures
        location(Ok(before), Ok(target), Ok(after), reading, leaving) is Unstable <==> parts(before)
            != parts(after) || shows_deleted(before),
{
}

/// The parent of a mutation is where it was exactly where opening its path again gives the same
/// object; whatever else is found is never taken for it.
pub proof fn law_parents_are_verified_by_identity(
    real_rel: Seq<u8>,
    pinned: Result<Metadata, AnyError>,
    reopened: ReopenedParent,
    role: MutationEndpointRole,
)
    ensures
        parent_fault(real_rel, pinned, reopened, role) is None <==> {
            &&& pinned matches Ok(expected)
            &&& reopened matches ReopenedParent::Opened { metadata }
            &&& expected.dev == metadata.dev
            &&& expected.ino == metadata.ino
            &&& expected.mode & 0o170000 == metadata.mode & 0o170000
        },
{
}

/// An object is served among the server's own pages exactly where it is of the wanted kind, has
/// no second name where it is a file, is written by its owner alone, and that owner is trusted.
pub proof fn law_trusted_assets(
    metadata: Metadata,
    directory: bool,
    trusted_owner: bool,
    described: Seq<char>,
)
    ensures
        asset_fault(metadata, directory, trusted_owner, described) is None <==> {
            &&& directory ==> metadata.mode & 0o170000 == 0o040000
            &&& !directory ==> metadata.mode & 0o170000 == 0o100000 && metadata.nlink == 1
            &&& metadata.mode & 0o022 == 0
            &&& trusted_owner
        },
{
}

/// A file is read as a whole exactly where it is a regular file within the limit.
pub proof fn law_limited_reads(metadata: Metadata, max_bytes: usize)
    ensures
        limited_read_fault(metadata, max_bytes) is None <==> metadata.mode & 0o170000 == 0o100000
            && metadata.len <= max_bytes,
{
}

/// Whatever is opened stays beneath the root and follows no magic link. Links and mounts are
/// followed exactly where the configuration allows it, and a single name never leads through a
/// link.
pub proof fn law_links_and_mounts_are_followed_where_allowed(
    allow_symlink: bool,
    allow_cross_filesystems: bool,
    flags: ResolveFlags,
    strict: ResolveFlags,
    error: AnyError,
    stands: Option<AnyError>,
)
    requires
        path_restricted(allow_symlink, allow_cross_filesystems, flags),
        name_restricted(allow_cross_filesystems, strict),
        link_judged(allow_symlink, error, stands),
    ensures
        flags.beneath && flags.no_magiclinks && strict.beneath && strict.no_magiclinks,
        flags.no_symlinks <==> !allow_symlink,
        flags.no_xdev <==> !allow_cross_filesystems,
        strict.no_symlinks,
        strict.no_xdev <==> !allow_cross_filesystems,
        stands is Some <==> !allow_symlink,
        stands matches Some(kept) ==> kept == error,
{
}

/// A text that was read is kept, as it is, exactly where it is no longer than it may be.
pub proof fn law_outputs_within_their_limit_are_kept(
    output: String,
    read: usize,
    max_bytes: usize,
    kept: Result<String, AnyError>,
)
    requires
        output_limited(output, read, max_bytes, kept),
    ensures
        kept is Ok <==> read <= max_bytes,
        kept matches Ok(text) ==> text == output,
{
}

/// An object that lies beneath an unmoved root is looked for at its path, and is there exactly
/// where opening that path gives the same object. What is not certain is tried again as long as
/// there are tries left.
pub proof fn law_objects_are_verified_where_they_are(
    before: PathVerification,
    after: PathVerification,
    readings: Readings,
    shown_before: Seq<char>,
    shown_after: Seq<char>,
    rel: Vec<u8>,
    outcome: Reopened,
    step: PathStep,
)
    requires
        before.attempts_left > 0,
    ensures
        PathVerification::has_located(before, after, readings, shown_before, shown_after, step)
            ==> match location(
            read(readings.root_before),
            read(readings.target),
            read(readings.root_after),
            "reading an opened object path"@,
            "verifying an opened filesystem object"@,
        ) {
            Location::At(path) => step matches PathStep::Reopen { rel: asked } && asked@ == path,
            Location::Failed(fault) => step matches PathStep::Failed { error } && error@ == fault,
            Location::Unstable => {
                &&& step is Again <==> before.attempts_left > 1
                &&& step is Failed <==> before.attempts_left == 1
                &&& after.attempts_left == before.attempts_left - 1
            },
        },
        PathVerification::has_reopened(before, after, rel, outcome, step) ==> match outcome {
            Reopened::Compared { original, reopened } => {
                let same = original.dev == reopened.dev && original.ino == reopened.ino
                    && original.mode & 0o170000 == reopened.mode & 0o170000;
                &&& step is Verified <==> same
                &&& step is Reread <==> !same
                &&& step matches PathStep::Verified { rel: found } ==> found@ == rel@
            },
            Reopened::Incomparable { .. } => step is Failed,
            Reopened::Failed { .. } => {
                &&& step is Again <==> before.attempts_left > 1
                &&& step is Failed <==> before.attempts_left == 1
            },
        },
{
}

/// A link is traced to where an unmoved root shows it, and tried again otherwise as long as there
/// are tries left. The one file that may be served alone is known by its name.
pub proof fn law_links_are_traced(
    before: CanonicalSearch,
    after: CanonicalSearch,
    readings: Readings,
    step: CanonicalStep,
    single: Option<Vec<u8>>,
    is_single: Result<bool, AnyError>,
    start: Result<Option<Vec<u8>>, AnyError>,
)
    requires
        before.attempts_left > 0,
        CanonicalSearch::has_located(before, after, readings, step),
        search_started(single, is_single, start),
    ensures
        match location(
            read(readings.root_before),
            read(readings.target),
            read(readings.root_after),
            "canonicalizing an allowed filesystem symlink"@,
            "canonicalizing an allowed filesystem symlink"@,
        ) {
            Location::At(path) => step matches CanonicalStep::Found { rel } && rel@ == path,
            Location::Failed(fault) => step matches CanonicalStep::Failed { error } && error@ == fault,
            Location::Unstable => {
                &&& step is Again <==> before.attempts_left > 1
                &&& step is Failed <==> before.attempts_left == 1
                &&& after.attempts_left == before.attempts_left - 1
            },
        },
        start is Err <==> single is Some && is_single is Err,
        start matches Ok(Some(rel)) ==> (single matches Some(name) && rel@ == name@),
        start matches Ok(found) ==> (found is Some <==> single is Some && is_single == Ok::<
            bool,
            AnyError,
        >(true)),
{
}

/// A path that cannot be served is refused for that reason, wherever it is to be opened or
/// changed; a file that is served alone is no directory, and that is a conflict.
pub proof fn law_refused_paths_tell_why(
    rel: Seq<u8>,
    kind: NodeKind,
    single: Option<Seq<u8>>,
    allow_symlink: bool,
    allow_cross_filesystems: bool,
    plan: Result<OpenPlan, AnyError>,
    target: Result<ParentPlan, AnyError>,
)
    requires
        open_planned(rel, kind, single, allow_symlink, allow_cross_filesystems, plan),
        parent_planned(rel, single, target),
    ensures
        rel_fault(rel) matches Some(fault) ==> (plan matches Err(error) && error@ == fault),
        rel_fault(rel) is None ==> (plan matches Err(error) ==> error@.nature() == Some(
            FsNature::Failed(FsKind::Conflict),
        )),
        public_fault(rel, single) matches Some(fault) ==> (target matches Err(error) && error@
            == fault),
{
}

/// A parent that is not at its path any more, or is another object there, is told as a change,
/// and any other failure as what it is.
pub proof fn law_moved_parents_are_changes(
    real_rel: Seq<u8>,
    expected: Metadata,
    reopened: ReopenedParent,
    role: MutationEndpointRole,
)
    ensures
        parent_fault(real_rel, Ok(expected), reopened, role) matches Some(fault) ==> (
        fault.nature() == Some(FsNature::Changed) <==> match reopened {
            ReopenedParent::Opened { .. } => true,
            ReopenedParent::Unread { .. } => false,
            ReopenedParent::Failed { error, .. } => {
                let nature = typed_fault("reopening mutation parent"@, error@).nature();
                ||| nature == Some(FsNature::Changed)
                ||| nature == Some(FsNature::Failed(FsKind::NotFound))
                ||| nature == Some(FsNature::Failed(FsKind::Conflict))
                ||| nature == Some(FsNature::Failed(FsKind::OutsideRoot))
            },
        }),
{
}

} // verus!
