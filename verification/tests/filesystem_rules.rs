//! Rules of paths, entries, traversals, locks and admission.

use ram_fileserver::error::{
    AdmissionError, AdmissionResource, AnyError, DurabilityStage, Errno, FsError, IoErrorKind,
    MutationEndpointRole,
};
use ram_fileserver::filesystem::candidate::{
    available_space, check_resolved_target, CandidateCreation, CreationStep, TempCandidateKind,
};
use ram_fileserver::filesystem::cleanup::Handle;
use ram_fileserver::filesystem::directory::{AncestorReply, EnsureDirectories};
use ram_fileserver::filesystem::entry::{
    changed_entry, entry_expectation_sync, entry_size_nofollow, join, same_path,
    EntryExpectation, Metadata, ResolvedTarget,
};
use ram_fileserver::filesystem::failure::{
    capability_open_error, post_publish_directory_io_error, post_publish_directory_lookup_error,
    typed_filesystem_error, unavailable_capability_entry, walk_cancelled, walk_limit_exceeded,
    OsFailure,
};
use ram_fileserver::filesystem::guarded::{
    FileStep, FilesystemBlockingAdmission, GuardedBlockingFile, LeaseOutcome, LeasePoll, SeekFrom,
    WorkerPoll,
};
use ram_fileserver::filesystem::locks::{
    LockResolver, LockSet, LockStep, Lookup, MutationIntent, MutationLockKey, MutationLockMode,
};
use ram_fileserver::filesystem::resolve::{
    check_opened_kind, check_public_rel, deleted_proc_target, limited_output, open_raw,
    open_with_symlink_policy, open_parent_sync_with_mode, real_relative_verified,
    read_to_string_limited, resolve_flags, strict_component_resolve_flags,
    validate_basename, validate_rel, validate_trusted_asset_metadata, verify_parent_with_role,
    CanonicalSearch, CanonicalStep, NodeKind, OpenPlan, PathStep, PathVerification, Readings,
    Reopened, ReopenedParent,
};
use ram_fileserver::filesystem::stale::{
    bounded_cleanup_diagnostic, StaleUploadCleanupReport, StaleUploadCleanupStage,
    STALE_CLEANUP_DIAGNOSTIC_CAUSE_MAX_BYTES, STALE_CLEANUP_DIAGNOSTIC_LIMIT,
    STALE_CLEANUP_DIAGNOSTIC_PATH_MAX_BYTES,
};
use ram_fileserver::filesystem::visited::DirectorySet;
use ram_fileserver::filesystem::walk::{
    check_root, AfterVisit, DirectoryScan, EntryStep, NextEntry, Observed, RootStep, ScanObserved,
    ScanStep, Traversal, VisitStep, WalkAction, WalkLimits,
};
use ram_fileserver::time::Duration;

fn failed(errno: Errno) -> OsFailure {
    let kind = match errno {
        Errno::NoEnt => IoErrorKind::NotFound,
        Errno::Access => IoErrorKind::PermissionDenied,
        _ => IoErrorKind::Other,
    };
    OsFailure { errno, kind }
}

fn metadata(ino: u64, mode: u32) -> Metadata {
    Metadata { dev: 7, ino, ctime_sec: 100, ctime_nsec: 5, mode, nlink: 1, uid: 1000, len: 10 }
}

fn directory(ino: u64) -> Metadata {
    metadata(ino, 0o40755)
}

fn file(ino: u64) -> Metadata {
    metadata(ino, 0o100644)
}

fn outside_root() -> AnyError {
    AnyError::filesystem(FsError::outside_root("opening", AnyError::message("elsewhere")))
}

fn is_outside(error: &AnyError) -> bool {
    matches!(FsError::in_anyhow_chain(error), Some(FsError::OutsideRoot { .. }))
}

// ---------------------------------------------------------------------------------------------
// Failures
// ---------------------------------------------------------------------------------------------

#[test]
fn post_mkdir_lookup_failures_never_degrade_to_not_found_or_forbidden() {
    for errno in [Errno::NoEnt, Errno::NotDir, Errno::Loop, Errno::XDev] {
        let error = post_publish_directory_lookup_error(
            b"new/directory",
            "published directory",
            "fault-injected lookup",
            failed(errno),
            "lookup failed",
        );
        assert!(
            matches!(
                FsError::in_anyhow_chain(&error),
                Some(FsError::Changed { role: MutationEndpointRole::Target, .. })
            ),
            "namespace race errno {errno:?} was not Changed: {error:?}"
        );
    }

    for errno in [Errno::Access, Errno::Io] {
        let error = post_publish_directory_lookup_error(
            b"new/directory",
            "published directory",
            "fault-injected lookup",
            failed(errno),
            "lookup failed",
        );
        assert!(
            matches!(
                FsError::in_anyhow_chain(&error),
                Some(FsError::Durability { published: true, .. })
            ),
            "infrastructure errno {errno:?} was not published durability: {error:?}"
        );
    }
}

#[test]
fn traversal_skips_only_closed_unavailable_names_not_permission_or_io_failures() {
    let io = |kind| AnyError::Io { kind, errno: None };
    let not_found = AnyError::filesystem(FsError::from_anyhow(
        "opening traversal entry",
        io(IoErrorKind::NotFound),
    ));
    let outside = AnyError::filesystem(FsError::outside_root(
        "opening traversal entry",
        AnyError::message("link target is outside the authorized traversal root"),
    ));
    assert!(unavailable_capability_entry(&not_found));
    assert!(unavailable_capability_entry(&outside));

    let forbidden = AnyError::filesystem(FsError::from_anyhow(
        "opening traversal entry",
        io(IoErrorKind::PermissionDenied),
    ));
    let broken =
        AnyError::filesystem(FsError::io("opening traversal entry", io(IoErrorKind::Other)));
    assert!(
        !unavailable_capability_entry(&forbidden),
        "EACCES must abort search/archive instead of returning a partial 200"
    );
    assert!(
        !unavailable_capability_entry(&broken),
        "I/O failures must abort search/archive instead of returning a partial 200"
    );
}

#[test]
fn failures_are_typed_once() {
    let plain = typed_filesystem_error(
        "reading",
        AnyError::Io { kind: IoErrorKind::NotFound, errno: None },
    );
    assert!(matches!(
        FsError::in_anyhow_chain(&plain),
        Some(FsError::NotFound { operation: "reading", .. })
    ));
    let again = typed_filesystem_error("other", plain);
    assert!(matches!(
        FsError::in_anyhow_chain(&again),
        Some(FsError::NotFound { operation: "reading", .. })
    ));
    let admission = typed_filesystem_error("other", walk_cancelled("stopped"));
    assert!(FsError::in_anyhow_chain(&admission).is_none());
    assert!(AdmissionError::in_anyhow_chain(&admission).is_some());
    let published = post_publish_directory_io_error("mode", AnyError::message("x"));
    assert!(matches!(
        FsError::in_anyhow_chain(&published),
        Some(FsError::Durability { stage: DurabilityStage::CreatedDirectory, published: true, .. })
    ));
}

#[test]
fn opening_failures_keep_their_class() {
    for errno in [Errno::Loop, Errno::XDev] {
        assert!(is_outside(&capability_open_error("\"a\"", failed(errno))), "{errno:?}");
    }
    let gone = capability_open_error("\"a\"", failed(Errno::NoEnt));
    assert!(matches!(FsError::in_anyhow_chain(&gone), Some(FsError::NotFound { .. })));
}

#[test]
fn walk_limits_tell_what_was_observed() {
    let error = walk_limit_exceeded(AdmissionResource::WalkEntries, 10, Some(11));
    assert!(matches!(
        AdmissionError::in_anyhow_chain(&error),
        Some(AdmissionError::LimitExceeded {
            resource: AdmissionResource::WalkEntries,
            limit: 10,
            observed: Some(11),
            ..
        })
    ));
}

#[test]
fn cleanup_failure_diagnostics_are_bounded_relative_and_suppress_the_rest() {
    let mut report = StaleUploadCleanupReport::empty();
    let long_relative = "x".repeat(STALE_CLEANUP_DIAGNOSTIC_PATH_MAX_BYTES * 2);
    for index in 0..(STALE_CLEANUP_DIAGNOSTIC_LIMIT + 2) {
        let cause = format!(
            "injected cause {index}\n{}",
            "y".repeat(STALE_CLEANUP_DIAGNOSTIC_CAUSE_MAX_BYTES * 2)
        );
        report.record_failure(
            StaleUploadCleanupStage::InspectEntry,
            long_relative.as_bytes(),
            AnyError::message(&cause),
            "",
        );
    }
    assert_eq!(report.failures, STALE_CLEANUP_DIAGNOSTIC_LIMIT + 2);
    assert_eq!(report.failure_diagnostics.len(), STALE_CLEANUP_DIAGNOSTIC_LIMIT);
    assert_eq!(report.suppressed_failures, 2);
    for diagnostic in &report.failure_diagnostics {
        assert!(diagnostic.relative_path.len() <= STALE_CLEANUP_DIAGNOSTIC_PATH_MAX_BYTES);
        assert!(diagnostic.cause.len() <= STALE_CLEANUP_DIAGNOSTIC_CAUSE_MAX_BYTES);
        assert!(!diagnostic.relative_path.starts_with('/'));
        assert!(!diagnostic.relative_path.chars().any(char::is_control));
        assert!(!diagnostic.cause.chars().any(char::is_control));
    }

    let mut absolute = StaleUploadCleanupReport::empty();
    absolute.record_failure(
        StaleUploadCleanupStage::InspectEntry,
        b"/outside/secret",
        AnyError::message("injected absolute-path test"),
        "",
    );
    assert_eq!(
        absolute.failure_diagnostics[0].relative_path,
        "<invalid-capability-relative-path>"
    );
}

#[test]
fn diagnostics_are_cut_between_characters() {
    assert_eq!(bounded_cleanup_diagnostic("short", 5), "short");
    assert_eq!(bounded_cleanup_diagnostic("a\tb", 5), "a b");
    assert_eq!(bounded_cleanup_diagnostic("abcdef", 5), "ab…");
    assert_eq!(bounded_cleanup_diagnostic("aéé", 4), "a…");
    assert_eq!(bounded_cleanup_diagnostic("ééé", 5), "é…");
}

// ---------------------------------------------------------------------------------------------
// Entries and paths
// ---------------------------------------------------------------------------------------------

#[test]
fn entries_are_the_same_by_identity_and_unchanged_by_version() {
    let one = EntryExpectation::from_metadata(&file(1));
    let touched = Metadata { ctime_sec: 101, ..file(1) };
    assert!(one.matches_metadata(&file(1)));
    assert!(!one.matches_metadata(&touched));
    assert!(one.same_object(EntryExpectation::from_metadata(&touched)));
    assert!(!one.same_object(EntryExpectation::from_metadata(&file(2))));
    assert!(!EntryExpectation::Missing.matches_metadata(&file(1)));
    assert_eq!(EntryExpectation::Missing.describe(), "Missing");
    let error = changed_entry(
        MutationEndpointRole::Target,
        b"a",
        EntryExpectation::Missing,
        EntryExpectation::Missing,
    );
    assert!(matches!(FsError::in_anyhow_chain(&error), Some(FsError::Changed { .. })));
}

#[test]
fn paths_join_and_compare_by_components() {
    assert_eq!(join(b"", b"a"), b"a");
    assert_eq!(join(b"a", b"b"), b"a/b");
    assert!(same_path(b"a//b/.", b"a/b"));
    assert!(!same_path(b"a/b", b"a/c"));
}

#[test]
fn names_and_relative_paths_are_checked() {
    for bad in [&b""[..], b".", b"..", b"a/b", b"a\0"] {
        assert!(validate_basename(bad).is_err(), "{bad:?}");
    }
    assert!(validate_basename(b"...").is_ok());
    for bad in [&b"/etc"[..], b"a/../b", b"..", b"a\0b"] {
        assert!(validate_rel(bad).is_err(), "{bad:?}");
    }
    assert!(validate_rel(b"").is_ok());
    assert!(validate_rel(b"a/b").is_ok());
    let single = Some(b"only.txt".to_vec());
    assert!(check_public_rel(b"only.txt", &single).is_ok());
    assert!(check_public_rel(b"other.txt", &single).is_err());
}

#[test]
fn no_xdev_policy_is_default_and_compatibility_must_be_explicit() {
    assert!(resolve_flags(false, false).no_xdev);
    assert!(!resolve_flags(false, true).no_xdev);
}

#[test]
fn links_are_followed_only_where_configured() {
    let strict = resolve_flags(false, false);
    assert!(strict.beneath && strict.no_symlinks);
    assert!(!resolve_flags(true, false).no_symlinks);
    assert!(strict_component_resolve_flags(true).no_symlinks);
    let refused = open_with_symlink_policy(false, outside_root());
    assert!(refused.is_some_and(|error| is_outside(&error)));
}

#[test]
fn opening_is_planned_from_the_path() {
    match open_raw(b"a/b", NodeKind::Directory, &None, false, false).unwrap() {
        OpenPlan::Namespace { path, directory, flags } => {
            assert_eq!(path, b"a/b");
            assert!(directory);
            assert!(flags.no_symlinks);
        }
        other => panic!("unexpected plan {other:?}"),
    }
    let single = Some(b"only.txt".to_vec());
    assert!(matches!(
        open_raw(b"only.txt", NodeKind::File, &single, false, false),
        Ok(OpenPlan::Pinned)
    ));
    assert!(open_raw(b"../x", NodeKind::Any, &None, false, false).is_err());
    assert!(check_opened_kind(NodeKind::File, &file(1)).is_ok());
    assert!(check_opened_kind(NodeKind::File, &directory(1)).is_err());
    assert!(check_opened_kind(NodeKind::Directory, &file(1)).is_err());
    assert!(check_opened_kind(NodeKind::Any, &metadata(1, 0o10644)).is_ok());
}

#[test]
fn parents_and_names_are_told_apart() {
    let plan = open_parent_sync_with_mode(b"a/b/c", &None).unwrap();
    assert_eq!(plan.parent_rel, b"a/b");
    assert_eq!(plan.target_name, b"c");
    let error = open_parent_sync_with_mode(b"", &None).unwrap_err();
    assert_eq!(error.describe(""), "filesystem root cannot be used as a mutation target");
}

#[test]
fn deleted_objects_are_recognized_by_their_suffix() {
    assert!(deleted_proc_target(b"/srv/a (deleted)"));
    assert!(!deleted_proc_target(b"/srv/a"));
}

fn readings(before: &str, target: &str, after: &str) -> Readings {
    Readings {
        root_before: Ok(before.as_bytes().to_vec()),
        target: Ok(target.as_bytes().to_vec()),
        root_after: Ok(after.as_bytes().to_vec()),
    }
}

#[test]
fn opened_objects_are_located_while_the_root_stands_still() {
    let mut search = PathVerification::new();
    match search.located(readings("/srv", "/srv/a/b", "/srv"), "", "") {
        PathStep::Reopen { rel } => assert_eq!(rel, b"a/b"),
        other => panic!("unexpected step {other:?}"),
    }
    let compared = Reopened::Compared { original: file(3), reopened: file(3) };
    match search.reopened(b"a/b".to_vec(), compared) {
        PathStep::Verified { rel } => assert_eq!(rel, b"a/b"),
        other => panic!("unexpected step {other:?}"),
    }
}

#[test]
fn another_object_at_the_path_is_looked_at_again() {
    let mut search = PathVerification::new();
    let mut last = PathStep::Again;
    for _ in 0..3 {
        let compared = Reopened::Compared { original: file(3), reopened: file(4) };
        match search.reopened(b"a".to_vec(), compared) {
            PathStep::Reread { rel } => assert_eq!(rel, b"a"),
            other => panic!("unexpected step {other:?}"),
        }
        last = search.reread("\"a\"", Ok(file(3)), Ok(file(4)));
    }
    match last {
        PathStep::Failed { error } => assert_eq!(
            error.describe(""),
            "filesystem conflict while verifying an opened filesystem object: opened object changed \
             during verification: identity mismatch for \"a\": original 7:3, reopened 7:4"
        ),
        other => panic!("unexpected step {other:?}"),
    }

    for (original, reopened, operation) in [
        (Err(failed(Errno::Io).into_error()), Ok(file(4)), "reading opened filesystem metadata"),
        (Ok(file(3)), Err(failed(Errno::Io).into_error()), "reading reopened filesystem metadata"),
    ] {
        match PathVerification::new().reread("\"a\"", original, reopened) {
            PathStep::Failed { error } => assert!(matches!(
                FsError::in_anyhow_chain(&error),
                Some(FsError::Io { operation: held, .. }) if *held == operation
            )),
            other => panic!("unexpected step {other:?}"),
        }
    }
}

#[test]
fn opened_objects_elsewhere_are_refused() {
    let mut search = PathVerification::new();
    match search.located(readings("/srv", "/etc/passwd", "/srv"), "", "") {
        PathStep::Failed { error } => assert!(is_outside(&error)),
        other => panic!("unexpected step {other:?}"),
    }
}

#[test]
fn a_moving_root_is_tried_three_times() {
    let mut search = PathVerification::new();
    for _ in 0..2 {
        assert!(matches!(
            search.located(readings("/srv", "/new/a", "/new"), "\"/srv\"", "\"/new\""),
            PathStep::Again
        ));
    }
    match search.located(readings("/srv", "/new/a", "/new"), "\"/srv\"", "\"/new\"") {
        PathStep::Failed { error } => {
            assert!(matches!(
                FsError::in_anyhow_chain(&error),
                Some(FsError::Conflict { operation: "verifying an opened filesystem object", .. })
            ));
        }
        other => panic!("unexpected step {other:?}"),
    }
}

#[test]
fn allowed_links_are_canonicalized_beneath_the_root() {
    let mut search = CanonicalSearch::canonical_existing_rel(b"link").unwrap();
    match search.located(readings("/srv", "/srv/real", "/srv")) {
        CanonicalStep::Found { rel } => assert_eq!(rel, b"real"),
        other => panic!("unexpected step {other:?}"),
    }
    assert!(CanonicalSearch::canonical_existing_rel(b"../x").is_err());
    assert!(matches!(real_relative_verified(&None, Ok(false)), Ok(None)));
    let single = Some(b"only.txt".to_vec());
    assert_eq!(real_relative_verified(&single, Ok(true)).unwrap(), Some(b"only.txt".to_vec()));
}

#[test]
fn mutation_helpers_preserve_closed_outside_root_and_changed_markers() {
    let errors = [
        entry_expectation_sync(
            b"escape/new.bin",
            "\"escape/new.bin\"",
            Err(outside_root()),
            Err(failed(Errno::NoEnt)),
        )
        .unwrap_err(),
        entry_size_nofollow(
            b"escape/new.bin",
            "\"escape/new.bin\"",
            Err(outside_root()),
            Err(failed(Errno::NoEnt)),
        )
        .unwrap_err(),
        {
            let (mut ensuring, _) =
                EnsureDirectories::ensure_dir_sync(b"escape/new", 0o700).unwrap().unwrap();
            ensuring.opened(AncestorReply::Unopened { error: outside_root() }).unwrap_err().error
        },
        {
            let mut resolver = LockResolver::new(None, &directory(1));
            resolver.begin(&MutationIntent::write(b"escape/new.bin".to_vec())).unwrap();
            resolver.answer(Lookup::Unopened { error: outside_root() }).unwrap_err()
        },
    ];
    for error in &errors {
        assert!(is_outside(error), "closed OutsideRoot marker was overwritten: {error:?}");
    }

    let error = verify_parent_with_role(
        b"parent",
        Ok(directory(4)),
        ReopenedParent::Opened { metadata: directory(5) },
        MutationEndpointRole::Destination,
    )
    .unwrap_err();
    assert!(
        matches!(
            FsError::in_anyhow_chain(&error),
            Some(FsError::Changed { role: MutationEndpointRole::Destination, .. })
        ),
        "parent namespace replacement was reclassified: {error:?}"
    );
    assert!(verify_parent_with_role(
        b"parent",
        Ok(directory(4)),
        ReopenedParent::Opened { metadata: directory(4) },
        MutationEndpointRole::Destination,
    )
    .is_ok());
}

#[test]
fn entries_are_looked_up_without_following_links() {
    let parent = || {
        Ok(ResolvedTarget { rel: b"a/b".to_vec(), described: String::from("\"a/b\"") })
    };
    assert_eq!(
        entry_expectation_sync(b"a/b", "\"a/b\"", parent(), Ok(file(3))).unwrap(),
        EntryExpectation::from_metadata(&file(3))
    );
    assert_eq!(
        entry_expectation_sync(b"a/b", "\"a/b\"", parent(), Err(failed(Errno::NoEnt))).unwrap(),
        EntryExpectation::Missing
    );
    assert_eq!(entry_size_nofollow(b"a/b", "\"a/b\"", parent(), Ok(9)).unwrap(), Some(9));
    assert_eq!(
        entry_size_nofollow(b"a/b", "\"a/b\"", parent(), Err(failed(Errno::NoEnt))).unwrap(),
        None
    );
    assert!(entry_expectation_sync(b"a/c", "\"a/c\"", parent(), Ok(file(3))).is_err());
    assert!(check_resolved_target(b"a/b", b"a/b").is_ok());
    assert!(check_resolved_target(b"a/b", b"a/c").is_err());
}

#[test]
fn assets_must_be_trusted_and_small() {
    assert!(validate_trusted_asset_metadata(&file(1), false, true, "x").is_ok());
    assert!(validate_trusted_asset_metadata(&file(1), false, false, "x").is_err());
    assert!(validate_trusted_asset_metadata(&metadata(1, 0o100664), false, true, "x").is_err());
    assert!(validate_trusted_asset_metadata(&file(1), true, true, "x").is_err());
    assert!(read_to_string_limited(&file(1), 10).is_ok());
    assert!(read_to_string_limited(&file(1), 9).is_err());
    assert_eq!(limited_output(String::from("abc"), 3, 3).unwrap(), "abc");
    assert!(limited_output(String::from("abcd"), 4, 3).is_err());
}

// ---------------------------------------------------------------------------------------------
// Candidates
// ---------------------------------------------------------------------------------------------

#[test]
fn candidates_have_private_names() {
    assert_eq!(TempCandidateKind::Upload.name_with("id"), ".ram-upload-id.tmp");
    assert_eq!(TempCandidateKind::Staging.name_with("id"), ".ram-staging-id.tmp");
    assert_ne!(TempCandidateKind::Upload.name(), TempCandidateKind::Upload.name());
}

#[test]
fn taken_names_are_tried_again_for_a_while() {
    let mut creation = CandidateCreation::create_temp_in(true, Vec::new()).unwrap();
    for _ in 0..15 {
        assert!(matches!(creation.created(Err(failed(Errno::Exist))), CreationStep::Again));
    }
    assert!(matches!(
        creation.created(Err(failed(Errno::Exist))),
        CreationStep::Failed { .. }
    ));
    let mut creation = CandidateCreation::create_temp_in(true, Vec::new()).unwrap();
    assert!(matches!(
        creation.created(Err(failed(Errno::NoSpc))),
        CreationStep::Failed { .. }
    ));
}

#[test]
fn free_space_is_counted_in_bytes() {
    assert_eq!(available_space(3, 4096, 10, 7), (12288, 10, 7));
    assert_eq!(available_space(u64::MAX, 2, 0, 0).0, u64::MAX);
}

// ---------------------------------------------------------------------------------------------
// Traversal
// ---------------------------------------------------------------------------------------------

fn walk(fail_on_unavailable: bool) -> Traversal {
    let mut walk =
        Traversal::new(WalkLimits { max_entries: 4, max_depth: 1, fail_on_unavailable });
    assert!(matches!(
        walk.start_root(Vec::new(), Vec::new(), directory(1)),
        RootStep::Directory
    ));
    walk
}

fn read(walk: &mut Traversal, name: &str) -> EntryStep {
    walk.next_entry(false, NextEntry::Name { name: name.as_bytes().to_vec() })
}

fn known(metadata: Metadata, real_rel: &str) -> Observed {
    Observed::Known {
        metadata,
        real_rel: real_rel.as_bytes().to_vec(),
        nofollow: Ok(metadata),
        duplicated: Ok(()),
    }
}

#[test]
fn real_traversal_io_failure_aborts_instead_of_returning_partial_success() {
    let mut walk = walk(false);
    assert!(matches!(read(&mut walk, "ordinary.txt"), EntryStep::Open { .. }));
    assert!(matches!(
        walk.inspected(known(file(2), "ordinary.txt")),
        VisitStep::Visit { is_symlink: false, .. }
    ));
    assert!(matches!(walk.visited(Ok(WalkAction::Continue)), AfterVisit::Next));
    assert!(matches!(read(&mut walk, "unopenable.sock"), EntryStep::Open { .. }));
    let refused = AnyError::Os { errno: Errno::Other { code: 6 }, kind: IoErrorKind::Other };
    match walk.inspected(Observed::Unopened { error: refused }) {
        VisitStep::Failed { error } => assert!(
            matches!(FsError::in_anyhow_chain(&error), Some(FsError::Io { .. })),
            "real traversal I/O failure was silently skipped or reclassified: {error:?}"
        ),
        other => panic!("unexpected step {other:?}"),
    }
}

#[test]
fn names_that_vanish_are_passed_over_unless_the_walk_is_strict() {
    let gone = || capability_open_error("\"a\"", failed(Errno::NoEnt));
    let mut lenient = walk(false);
    read(&mut lenient, "a");
    assert!(matches!(lenient.inspected(Observed::Unopened { error: gone() }), VisitStep::Skip));
    let mut strict = walk(true);
    read(&mut strict, "a");
    assert!(matches!(
        strict.inspected(Observed::Unopened { error: gone() }),
        VisitStep::Failed { .. }
    ));
}

#[test]
fn directories_are_entered_once_and_not_too_deep() {
    let mut walk = walk(false);
    read(&mut walk, "d");
    walk.inspected(known(directory(2), "d"));
    assert!(matches!(walk.visited(Ok(WalkAction::Continue)), AfterVisit::Descend));
    read(&mut walk, "back");
    walk.inspected(known(directory(1), "back"));
    match walk.visited(Ok(WalkAction::Continue)) {
        AfterVisit::Failed { error } => assert!(matches!(
            AdmissionError::in_anyhow_chain(&error),
            Some(AdmissionError::LimitExceeded { resource: AdmissionResource::WalkDepth, .. })
        )),
        other => panic!("unexpected step {other:?}"),
    }
    assert!(matches!(walk.next_entry(false, NextEntry::End), EntryStep::Leave));
    read(&mut walk, "again");
    walk.inspected(known(directory(2), "again"));
    assert!(matches!(walk.visited(Ok(WalkAction::Continue)), AfterVisit::Next));
}

#[test]
fn walks_end_at_their_entry_limit_and_when_cancelled() {
    let mut walk = walk(false);
    for name in ["a", "b", "c", "d"] {
        read(&mut walk, name);
        walk.inspected(known(file(9), name));
        walk.visited(Ok(WalkAction::SkipDirectory));
    }
    match read(&mut walk, "e") {
        EntryStep::Failed { error } => assert!(matches!(
            AdmissionError::in_anyhow_chain(&error),
            Some(AdmissionError::LimitExceeded { resource: AdmissionResource::WalkEntries, .. })
        )),
        other => panic!("unexpected step {other:?}"),
    }
    let error = check_root(b"", &None, true).unwrap_err();
    assert!(matches!(
        AdmissionError::in_anyhow_chain(&error),
        Some(AdmissionError::Cancelled { resource: AdmissionResource::WalkEntries })
    ));
}

#[test]
fn links_out_of_the_walked_root_are_passed_over() {
    let mut walk = Traversal::new(WalkLimits {
        max_entries: 4,
        max_depth: 1,
        fail_on_unavailable: false,
    });
    walk.start_root(b"shown".to_vec(), b"real".to_vec(), directory(1));
    read(&mut walk, "link");
    assert!(matches!(walk.inspected(known(file(3), "other/file")), VisitStep::Skip));
    read(&mut walk, "near");
    match walk.inspected(known(file(3), "real/file")) {
        VisitStep::Visit { name, is_symlink } => {
            assert_eq!(name, b"near");
            assert!(is_symlink);
        }
        other => panic!("unexpected step {other:?}"),
    }
}

#[test]
fn scans_of_one_directory_are_cut_off() {
    let mut scan = DirectoryScan::visit_dir(b"d".to_vec(), 1);
    match scan.next_entry(true, false, NextEntry::Name { name: b"a".to_vec() }) {
        ScanStep::Open { requested } => assert_eq!(requested, b"d/a"),
        other => panic!("unexpected step {other:?}"),
    }
    assert!(matches!(
        scan.inspected(ScanObserved::Known {
            real_rel: b"d/a".to_vec(),
            nofollow: Ok(file(4)),
        }),
        VisitStep::Visit { is_symlink: false, .. }
    ));
    assert!(scan.visited(Ok(true)).is_ok());
    assert!(matches!(
        scan.next_entry(true, false, NextEntry::Name { name: b"b".to_vec() }),
        ScanStep::End
    ));
    assert!(scan.truncated);
}

#[test]
fn visited_directories_are_remembered_by_identity() {
    let mut set = DirectorySet::new();
    assert!(set.insert(1, 2));
    assert!(!set.insert(1, 2));
    assert!(set.insert(2, 1));
}

// ---------------------------------------------------------------------------------------------
// Locks
// ---------------------------------------------------------------------------------------------

#[test]
fn locks_on_one_name_merge_to_the_stronger() {
    let mut set = LockSet::new();
    let key = || MutationLockKey::Path { path: b"a".to_vec() };
    set.merge_mutation_lock(key(), MutationLockMode::Read);
    set.merge_mutation_lock(key(), MutationLockMode::Write);
    set.merge_mutation_lock(key(), MutationLockMode::Read);
    let requests = set.into_requests();
    assert_eq!(requests.len(), 1);
    assert_eq!(requests[0].mode, MutationLockMode::Write);
}

#[test]
fn locks_come_in_one_order_whatever_was_asked_first() {
    let keys = [
        MutationLockKey::Path { path: b"b".to_vec() },
        MutationLockKey::Directory { device: 1, inode: 9 },
        MutationLockKey::Path { path: b"a".to_vec() },
    ];
    let shown = |order: [usize; 3]| {
        let mut set = LockSet::new();
        for at in order {
            let key = match &keys[at] {
                MutationLockKey::Path { path } => MutationLockKey::Path { path: path.clone() },
                _ => MutationLockKey::Directory { device: 1, inode: 9 },
            };
            set.merge_mutation_lock(key, MutationLockMode::Read);
        }
        format!("{:?}", set.into_requests())
    };
    assert_eq!(shown([0, 1, 2]), shown([2, 1, 0]));
    assert_eq!(shown([0, 1, 2]), shown([1, 0, 2]));
}

#[test]
fn mutations_lock_their_path_and_everything_missing_on_the_way() {
    let mut resolver = LockResolver::new(None, &directory(1));
    let step = resolver.begin(&MutationIntent::write(b"a/new/file".to_vec())).unwrap();
    assert!(matches!(step, LockStep::Open { directory: true, .. }));
    let step = resolver.answer(Lookup::Found { metadata: directory(2) }).unwrap();
    match step {
        LockStep::Open { path, directory } => {
            assert_eq!(path, b"a/new");
            assert!(directory);
        }
        other => panic!("unexpected step {other:?}"),
    }
    let gone = capability_open_error("\"a/new\"", failed(Errno::NoEnt));
    assert!(matches!(
        resolver.answer(Lookup::Unopened { error: gone }),
        Ok(LockStep::Resolved)
    ));
    let requests = resolver.resolve_mutation_locks_sync();
    let writes: Vec<String> = requests
        .iter()
        .filter(|request| request.mode == MutationLockMode::Write)
        .map(|request| match &request.key {
            MutationLockKey::Path { path } => String::from_utf8(path.clone()).unwrap(),
            MutationLockKey::Slot { name, .. } => String::from_utf8(name.clone()).unwrap(),
            MutationLockKey::Directory { .. } => String::from("directory"),
        })
        .collect();
    assert!(writes.contains(&String::from("a/new/file")), "{writes:?}");
    assert!(writes.contains(&String::from("a/new")), "{writes:?}");
}

/// The locks of some intents, where `a` is a directory, `a/b` a file, and nothing else is there.
fn locks_of(intents: &[MutationIntent]) -> String {
    let mut resolver = LockResolver::new(None, &directory(1));
    for intent in intents {
        let mut step = resolver.begin(intent).unwrap();
        while let LockStep::Open { path, .. } = step {
            let lookup = match path.as_slice() {
                b"a" => Lookup::Found { metadata: directory(2) },
                b"a/b" => Lookup::Found { metadata: file(3) },
                _ => Lookup::Unopened {
                    error: capability_open_error("", failed(Errno::NoEnt)),
                },
            };
            step = resolver.answer(lookup).unwrap();
        }
    }
    format!("{:?}", resolver.resolve_mutation_locks_sync())
}

#[test]
fn locks_do_not_depend_on_the_order_of_intents() {
    let one = || MutationIntent::write(b"a/b".to_vec());
    let other = || MutationIntent::read(b"a/new/x".to_vec());
    let root = || MutationIntent::write(Vec::new());
    let all = locks_of(&[one(), other(), root()]);
    assert_eq!(all, locks_of(&[root(), other(), one()]));
    assert_eq!(all, locks_of(&[other(), one(), root(), one()]));
    assert_ne!(all, locks_of(&[one(), other()]));
    assert_eq!(locks_of(&[]), "[]");
}

#[test]
fn a_failed_lookup_leaves_the_resolution_where_it_was() {
    let mut resolver = LockResolver::new(None, &directory(1));
    resolver.begin(&MutationIntent::write(b"a/b".to_vec())).unwrap();
    let denied = || Lookup::Unopened { error: failed(Errno::Access).into_error() };
    for _ in 0..2 {
        let error = resolver.answer(denied()).unwrap_err();
        assert!(matches!(FsError::in_anyhow_chain(&error), Some(FsError::Forbidden { .. })));
    }
    let step = resolver.answer(Lookup::Found { metadata: directory(2) }).unwrap();
    assert!(matches!(step, LockStep::Open { directory: false, .. }));
}

// ---------------------------------------------------------------------------------------------
// Guarded files
// ---------------------------------------------------------------------------------------------

#[test]
fn a_full_worker_pool_times_out_and_a_closed_one_is_cancelled() {
    let admission = FilesystemBlockingAdmission::new(1, Duration::from_millis(50));
    assert!(admission.acquire(LeaseOutcome::Granted).is_ok());
    let error = admission.acquire(LeaseOutcome::TimedOut).unwrap_err();
    assert!(matches!(
        AdmissionError::in_anyhow_chain(&error),
        Some(AdmissionError::Timeout { resource: AdmissionResource::FilesystemTasks, waited, .. })
            if *waited == Duration::from_millis(50)
    ));
    let error = admission.acquire(LeaseOutcome::Closed).unwrap_err();
    assert!(matches!(
        AdmissionError::in_anyhow_chain(&error),
        Some(AdmissionError::Cancelled { resource: AdmissionResource::FilesystemTasks })
    ));
}

#[test]
fn guarded_file_reads_and_seeks_across_independent_leases() {
    let content = b"abcdef";
    let file = Handle { id: 3 };
    let mut guarded = GuardedBlockingFile::new(file);
    let read_exact = |guarded: &mut GuardedBlockingFile, n: usize| {
        assert!(matches!(guarded.poll_read(n, 4096), FileStep::PollLease));
        let at = guarded.position as usize;
        let len = match guarded.leased(LeasePoll::Granted) {
            FileStep::StartRead { read_len, .. } => read_len.min(content.len() - at),
            other => panic!("unexpected step {other:?}"),
        };
        let done = WorkerPoll::Succeeded { file, value: len as u64 };
        assert!(matches!(guarded.read_done(done), FileStep::Deliver { read } if read == len));
        content[at..at + len].to_vec()
    };
    assert_eq!(read_exact(&mut guarded, 3), b"abc");
    guarded.start_seek(SeekFrom::Start { offset: 1 }).unwrap();
    assert!(matches!(guarded.poll_complete(), FileStep::PollLease));
    assert!(matches!(guarded.leased(LeasePoll::Granted), FileStep::StartSeek { .. }));
    assert!(matches!(
        guarded.seek_done(WorkerPoll::Succeeded { file, value: 1 }),
        FileStep::Ready { position: 1 }
    ));
    assert_eq!(read_exact(&mut guarded, 64), b"bcdef");
    assert_eq!(guarded.position, 6);
    assert_eq!(guarded.into_std().unwrap(), file);
}

#[test]
fn operations_on_a_busy_file_are_refused() {
    let mut guarded = GuardedBlockingFile::new(Handle { id: 3 });
    guarded.poll_read(8, 4);
    assert!(guarded.start_seek(SeekFrom::Start { offset: 0 }).is_err());
    assert!(matches!(guarded.poll_complete(), FileStep::Failed { .. }));
    assert!(guarded.metadata().is_err());
    let refused = FilesystemBlockingAdmission::new(1, Duration::from_millis(5))
        .acquire(LeaseOutcome::TimedOut)
        .unwrap_err();
    match guarded.leased(LeasePoll::Failed { error: refused, system: String::new() }) {
        FileStep::Failed { failure } => {
            assert_eq!(failure.kind, IoErrorKind::TimedOut);
            assert!(failure.text.contains("timed out after 5ms"), "{}", failure.text);
        }
        other => panic!("unexpected step {other:?}"),
    }
    assert!(guarded.metadata().is_ok());
    guarded.poll_read(8, 4);
    guarded.leased(LeasePoll::Granted);
    guarded.read_done(WorkerPoll::Lost { system: String::from("panicked") });
    assert!(matches!(guarded.poll_read(8, 4), FileStep::Failed { .. }));
}
