//! Whole mutations, run on a filesystem in memory.

use ram_fileserver::error::{
    AdmissionError, AdmissionResource, AnyError, DurabilityStage, Errno, FsError, IoErrorKind,
    MutationEndpointRole,
};
use ram_fileserver::filesystem::candidate::{
    create_blocking_temp_with_kind, secure_private_candidate, CandidateCreation, CreationStep,
    NewFile, SecuringReply, SecuringStep, TempCandidateKind,
};
use ram_fileserver::filesystem::cleanup::{
    drain_candidate_cleanup, drain_waited, AncestorRollback, CandidateCleanup, CandidateReaper,
    CleanupAction, CreatedAncestor, DrainStep, Handle, RollbackPhase, SendOutcome,
};
use ram_fileserver::filesystem::directory::{
    AncestorReply, DirectoryFinalization, EnsureDirectories, EnsureStep, FailedEnsure, Mkdir,
    MkdirFacts, PinReply,
};
use ram_fileserver::filesystem::entry::{
    create_only_error, verify_candidate_identity, verify_opened_entry_sync, EntryExpectation,
    Metadata,
};
use ram_fileserver::filesystem::failure::{DirectorySyncPoint, OsFailure};
use ram_fileserver::filesystem::publish::{
    candidate_io_error, BlockingTempFile, Commit, CommitAction, ParentDir,
};
use ram_fileserver::filesystem::removal::{
    PlanStep, PlannedFacts, Removal, RemovalAction, RemovalPlanning, TargetFacts,
};
use ram_fileserver::filesystem::rename::{
    sync_renamed_parents, EndpointFacts, Rename, RenameAction, SyncFailure,
};
use ram_fileserver::filesystem::stale::{
    OpenedCandidate, RecoveryHealth, StaleEntry, StaleStep, StaleUploadCleanupLimits,
    StaleUploadCleanupReport, StaleUploadCleanupStage, StaleUploadCleanupState, Timestamp,
};
use ram_fileserver::filesystem::walk::NextEntry;
use ram_fileserver::time::Duration;
use std::collections::BTreeMap;

const ROOT: u64 = 1;
const UID: u32 = 1000;
const UPLOAD: &str = ".ram-upload-00000000-0000-4000-8000-000000000001.tmp";
const STAGING: &str = ".ram-staging-00000000-0000-4000-8000-000000000002.tmp";

// ---------------------------------------------------------------------------------------------
// A filesystem in memory
// ---------------------------------------------------------------------------------------------

#[derive(Clone, Copy, Debug, PartialEq, Eq)]
enum Event {
    CandidateWrite,
    CandidateFlush,
    CandidateDataSync,
    NamespaceMkdir,
    NamespaceUnlink { directory: bool },
    NamespaceRename { no_replace: bool },
    PublishedChmod,
    PublishedFileSync,
    DirectorySync(DirectorySyncPoint),
}

#[derive(Clone, Debug)]
struct Node {
    mode: u32,
    uid: u32,
    nlink: u64,
    ctime: i64,
    modified: i64,
    locked: bool,
    data: Vec<u8>,
    children: BTreeMap<Vec<u8>, u64>,
}

struct Disk {
    nodes: BTreeMap<u64, Node>,
    next: u64,
    clock: i64,
    events: Vec<Event>,
    fail: Option<Event>,
    /// Removal and syncing of cleanups fail.
    broken_unlink: bool,
    broken_sync: bool,
}

fn failed(errno: Errno) -> OsFailure {
    let kind = match errno {
        Errno::NoEnt => IoErrorKind::NotFound,
        Errno::Exist => IoErrorKind::AlreadyExists,
        Errno::NotEmpty => IoErrorKind::DirectoryNotEmpty,
        Errno::Access => IoErrorKind::PermissionDenied,
        _ => IoErrorKind::Other,
    };
    OsFailure { errno, kind }
}

fn missing() -> AnyError {
    AnyError::filesystem(FsError::from_anyhow(
        "opening",
        AnyError::Io { kind: IoErrorKind::NotFound, errno: Some(Errno::NoEnt) },
    ))
}

fn split(path: &str) -> (&str, &str) {
    match path.rfind('/') {
        Some(at) => (&path[..at], &path[at + 1..]),
        None => ("", path),
    }
}

fn text(bytes: &[u8]) -> &str {
    std::str::from_utf8(bytes).unwrap()
}

impl Disk {
    fn new() -> Self {
        let mut disk = Disk {
            nodes: BTreeMap::new(),
            next: ROOT,
            clock: 0,
            events: Vec::new(),
            fail: None,
            broken_unlink: false,
            broken_sync: false,
        };
        disk.make(0o40755);
        disk
    }

    fn failing(event: Event) -> Self {
        Disk { fail: Some(event), ..Disk::new() }
    }

    fn make(&mut self, mode: u32) -> u64 {
        let ino = self.next;
        self.next += 1;
        self.clock += 1;
        let node = Node {
            mode,
            uid: UID,
            nlink: 1,
            ctime: self.clock,
            modified: self.clock,
            locked: false,
            data: Vec::new(),
            children: BTreeMap::new(),
        };
        self.nodes.insert(ino, node);
        ino
    }

    fn touch(&mut self, ino: u64) {
        self.clock += 1;
        let clock = self.clock;
        self.nodes.get_mut(&ino).unwrap().ctime = clock;
    }

    fn before(&mut self, event: Event) -> Result<(), OsFailure> {
        self.events.push(event);
        if self.fail == Some(event) {
            Err(failed(Errno::Io))
        } else {
            Ok(())
        }
    }

    fn meta(&self, ino: u64) -> Metadata {
        let node = &self.nodes[&ino];
        Metadata {
            dev: 7,
            ino,
            ctime_sec: node.ctime,
            ctime_nsec: 0,
            mode: node.mode,
            nlink: node.nlink,
            uid: node.uid,
            len: node.data.len() as u64,
        }
    }

    fn lookup(&self, path: &str) -> Option<u64> {
        let mut at = ROOT;
        for name in path.split('/').filter(|name| !name.is_empty()) {
            at = *self.nodes[&at].children.get(name.as_bytes())?;
        }
        Some(at)
    }

    fn holds(&self, path: &str) -> bool {
        self.lookup(path).is_some()
    }

    fn read(&self, path: &str) -> &[u8] {
        &self.nodes[&self.lookup(path).unwrap()].data
    }

    fn count(&self, path: &str) -> usize {
        self.nodes[&self.lookup(path).unwrap()].children.len()
    }

    fn stat_in(&self, parent: u64, name: &[u8]) -> Result<Metadata, OsFailure> {
        match self.nodes.get(&parent).and_then(|node| node.children.get(name)) {
            Some(ino) => Ok(self.meta(*ino)),
            None => Err(failed(Errno::NoEnt)),
        }
    }

    fn stat(&self, path: &str) -> Result<Metadata, OsFailure> {
        let (parent, name) = split(path);
        match self.lookup(parent) {
            Some(parent) => self.stat_in(parent, name.as_bytes()),
            None => Err(failed(Errno::NoEnt)),
        }
    }

    fn expectation(&self, path: &str) -> EntryExpectation {
        match self.stat(path) {
            Ok(metadata) => EntryExpectation::from_metadata(&metadata),
            Err(_) => EntryExpectation::Missing,
        }
    }

    fn attach(&mut self, parent: u64, name: &[u8], ino: u64) {
        self.nodes.get_mut(&parent).unwrap().children.insert(name.to_vec(), ino);
        self.touch(parent);
    }

    fn detach(&mut self, parent: u64, name: &[u8]) -> u64 {
        let ino = self.nodes.get_mut(&parent).unwrap().children.remove(name).unwrap();
        self.touch(parent);
        ino
    }

    /// Puts a file in place, with all directories on the way.
    fn write(&mut self, path: &str, data: &[u8]) -> u64 {
        let (parent, name) = split(path);
        let parent = self.directories(parent);
        let ino = self.make(0o100644);
        self.nodes.get_mut(&ino).unwrap().data = data.to_vec();
        self.attach(parent, name.as_bytes(), ino);
        ino
    }

    fn directories(&mut self, path: &str) -> u64 {
        let mut at = ROOT;
        for name in path.split('/').filter(|name| !name.is_empty()) {
            at = match self.nodes[&at].children.get(name.as_bytes()) {
                Some(ino) => *ino,
                None => {
                    let ino = self.make(0o40755);
                    self.attach(at, name.as_bytes(), ino);
                    ino
                }
            };
        }
        at
    }

    /// An old private candidate.
    fn candidate(&mut self, path: &str) -> u64 {
        let ino = self.write(path, b"candidate");
        let node = self.nodes.get_mut(&ino).unwrap();
        node.mode = 0o100600;
        node.modified = 0;
        ino
    }

    /// Moves something else out of the way, as another process would.
    fn displace(&mut self, from: &str, to: &str) {
        let (parent, name) = split(from);
        let parent = self.lookup(parent).unwrap();
        let ino = self.detach(parent, name.as_bytes());
        let (parent, name) = split(to);
        let parent = self.lookup(parent).unwrap();
        self.attach(parent, name.as_bytes(), ino);
    }

    fn remove_in(&mut self, parent: u64, name: &[u8], directory: bool) -> Result<(), OsFailure> {
        if self.broken_unlink {
            return Err(failed(Errno::Io));
        }
        let ino = match self.nodes[&parent].children.get(name) {
            Some(ino) => *ino,
            None => return Err(failed(Errno::NoEnt)),
        };
        if directory && !self.nodes[&ino].children.is_empty() {
            return Err(failed(Errno::NotEmpty));
        }
        self.detach(parent, name);
        Ok(())
    }

    fn sync(&self) -> Result<(), OsFailure> {
        if self.broken_sync {
            Err(failed(Errno::Io))
        } else {
            Ok(())
        }
    }

    fn chmod(&mut self, ino: u64, mode: u32) {
        let node = self.nodes.get_mut(&ino).unwrap();
        node.mode = (node.mode & 0o170000) | mode;
        self.touch(ino);
    }
}

// ---------------------------------------------------------------------------------------------
// Running the mutations
// ---------------------------------------------------------------------------------------------

fn roll_back(disk: &mut Disk, rollback: &mut AncestorRollback) {
    loop {
        match rollback.phase {
            RollbackPhase::Inspecting => {
                let last = rollback.created.last().unwrap();
                let stat = disk.stat_in(last.parent.id, &last.name);
                rollback.inspected(stat);
            }
            RollbackPhase::Removing => {
                let last = rollback.created.last().unwrap();
                let (parent, name) = (last.parent.id, last.name.clone());
                let outcome = disk.remove_in(parent, &name, true);
                rollback.removed(outcome);
            }
            RollbackPhase::Syncing => rollback.synced(disk.sync()),
            RollbackPhase::Done | RollbackPhase::Retained => return,
        }
    }
}

/// Runs a cleanup once, and gives back what is left of it.
fn run_cleanup(disk: &mut Disk, mut cleanup: CandidateCleanup) -> Option<CandidateCleanup> {
    let mut action = cleanup.run();
    loop {
        action = match action {
            CleanupAction::Inspect { parent } => {
                let stat = disk.stat_in(parent.id, &cleanup.name);
                cleanup.inspected(stat)
            }
            CleanupAction::Unlink { parent } => {
                let outcome = disk.remove_in(parent.id, &cleanup.name, false);
                cleanup.unlinked(outcome)
            }
            CleanupAction::SyncParent { .. } => cleanup.synced(disk.sync()),
            CleanupAction::RollBack => {
                let mut rollback = cleanup.begin_rollback();
                roll_back(disk, &mut rollback);
                cleanup.rolled_back(rollback)
            }
            CleanupAction::Retain => return Some(cleanup),
            CleanupAction::Release => return None,
        };
    }
}

fn finalize(
    disk: &mut Disk,
    mut finishing: DirectoryFinalization,
    parent: u64,
    name: &[u8],
) -> Result<EntryExpectation, AnyError> {
    let pin = |disk: &Disk| match disk.stat_in(parent, name) {
        Ok(metadata) => PinReply::Known { metadata },
        Err(failure) => PinReply::Failed { failure, cause: String::from("lookup") },
    };
    let mode = finishing.pinned(pin(disk))?;
    let ino = disk.nodes[&parent].children[name];
    disk.chmod(ino, mode);
    finishing.mode_set(Ok(()))?;
    finishing.mode_verified(Ok(disk.meta(ino)))?;
    finishing.reopened(pin(disk))
}

/// Makes the directories of a path that are not there.
fn ensure(disk: &mut Disk, rel: &str, mode: u32) -> Result<Vec<CreatedAncestor>, FailedEnsure> {
    let begun = EnsureDirectories::ensure_dir_sync(rel.as_bytes(), mode)
        .map_err(|error| FailedEnsure { error, created: Vec::new() })?;
    let Some((mut ensuring, mut step)) = begun else {
        return Ok(Vec::new());
    };
    let mut current = String::new();
    loop {
        step = match step {
            EnsureStep::Open { path } => {
                current = text(&path).to_owned();
                let reply = if disk.holds(&current) {
                    AncestorReply::At { path }
                } else {
                    AncestorReply::Unopened { error: missing() }
                };
                ensuring.opened(reply)?
            }
            EnsureStep::Make { mode } => {
                let (parent, name) = split(&current);
                let parent = disk.lookup(parent).unwrap();
                let ino = disk.make(0o40000 | (mode & 0o755));
                disk.attach(parent, name.as_bytes(), ino);
                ensuring.made(Ok(Handle { id: parent }), Ok(()))?
            }
            EnsureStep::Version => {
                let stat = disk.stat(&current);
                ensuring.versioned(stat, "")?
            }
            EnsureStep::Finalize { finishing } => {
                let (parent, name) = split(&current);
                let parent = disk.lookup(parent).unwrap();
                let outcome = finalize(disk, finishing, parent, name.as_bytes());
                ensuring.finalized(outcome)?
            }
            EnsureStep::SyncCreated | EnsureStep::SyncCurrent => ensuring.synced(disk.sync())?,
            EnsureStep::Reopen { path } => ensuring.traced(AncestorReply::At { path })?,
            EnsureStep::Trace => {
                let path = current.as_bytes().to_vec();
                ensuring.traced(AncestorReply::At { path })?
            }
            EnsureStep::Done => return Ok(ensuring.created),
        };
    }
}

/// Creates a private candidate for a target.
fn create(disk: &mut Disk, target: &str, make_parents: bool, mode: u32) -> Result<BlockingTempFile, AnyError> {
    let (parent_rel, target_name) = split(target);
    let created = if make_parents {
        ensure(disk, parent_rel, mode).map_err(|failed| failed.error)?
    } else {
        Vec::new()
    };
    let parent = disk.lookup(parent_rel).unwrap();
    let mut creation =
        CandidateCreation::create_temp_in(true, created).map_err(|(error, _)| error)?;
    let name = TempCandidateKind::Upload.name().into_bytes();
    let ino = disk.make(0o100000);
    disk.attach(parent, &name, ino);
    assert!(matches!(creation.created(Ok(())), CreationStep::Inspect));
    let (held, file) = (Handle { id: parent }, Handle { id: ino });
    let mut step = creation
        .inspected(Ok(disk.meta(ino)), name.clone(), held, file)
        .map_err(|failed| failed.error)?;
    while step != SecuringStep::Done {
        let reply = match step {
            SecuringStep::Lock => {
                disk.nodes.get_mut(&ino).unwrap().locked = true;
                SecuringReply::Succeeded
            }
            SecuringStep::SetMode => {
                disk.chmod(ino, 0o600);
                SecuringReply::Succeeded
            }
            SecuringStep::Inspect => SecuringReply::Known { metadata: disk.meta(ino) },
            _ => SecuringReply::Succeeded,
        };
        step = secure_private_candidate(step, reply, UID)?;
    }
    let new = NewFile { parent: held, file, candidate_lock: Handle { id: ino } };
    let candidate = creation.secured(Ok(()), true, name, new).map_err(|failed| failed.error)?;
    let parent = ParentDir {
        fd: held,
        real_rel: parent_rel.as_bytes().to_vec(),
        target_name: target_name.as_bytes().to_vec(),
        created_ancestors: Vec::new(),
    };
    BlockingTempFile::from_candidate(candidate, parent)
}

fn write_all(disk: &mut Disk, temp: &BlockingTempFile, data: &[u8]) -> Result<(), AnyError> {
    let file = temp.writable()?;
    disk.before(Event::CandidateWrite)
        .map_err(|failure| candidate_io_error(failure.into_error()))?;
    disk.nodes.get_mut(&file.id).unwrap().data.extend_from_slice(data);
    Ok(())
}

/// Publishes a candidate. What is owed for one that was not published is given back too.
fn commit(
    disk: &mut Disk,
    temp: BlockingTempFile,
    expected: EntryExpectation,
    mode: u32,
) -> (Result<(), AnyError>, Option<CandidateCleanup>) {
    let mut commit = Commit::commit(temp, expected, mode);
    let result = drive_commit(disk, &mut commit);
    let parent = Some(commit.temp.parent.fd);
    (result, commit.temp.into_cleanup(parent))
}

fn drive_commit(disk: &mut Disk, commit: &mut Commit) -> Result<(), AnyError> {
    let parent = commit.temp.parent.fd.id;
    let ino = commit.temp.file.unwrap().id;
    let mut action = commit.start(false)?;
    loop {
        action = match action {
            CommitAction::Flush => {
                let outcome = disk.before(Event::CandidateFlush);
                commit.flushed(outcome.map_err(OsFailure::into_error))?
            }
            CommitAction::SyncData => {
                let outcome = disk.before(Event::CandidateDataSync);
                commit.data_synced(outcome.map_err(OsFailure::into_error), false)?
            }
            CommitAction::Verify => {
                let candidate = disk.stat_in(parent, &commit.temp.temp_name);
                let target = disk.stat_in(parent, &commit.temp.parent.target_name);
                commit.verified(Ok(()), candidate, target)?
            }
            CommitAction::Rename { no_replace } => {
                let outcome = disk.before(Event::NamespaceRename { no_replace });
                if outcome.is_ok() {
                    let from = disk.detach(parent, &commit.temp.temp_name);
                    let name = commit.temp.parent.target_name.clone();
                    disk.attach(parent, &name, from);
                }
                commit.renamed(outcome)?
            }
            CommitAction::SetMode { mode } => {
                let outcome = disk.before(Event::PublishedChmod);
                disk.chmod(ino, mode);
                commit.mode_set(outcome)?
            }
            CommitAction::SyncFile => {
                let outcome = disk.before(Event::PublishedFileSync);
                commit.file_synced(outcome.map_err(OsFailure::into_error))?
            }
            CommitAction::SyncDirectory { point } => {
                let outcome = disk.before(Event::DirectorySync(point));
                commit.directory_synced(outcome)?
            }
            CommitAction::Done => return Ok(()),
        };
    }
}

fn mkdir(disk: &mut Disk, rel: &str, mode: u32) -> Result<(), AnyError> {
    let (parent_rel, name) = split(rel);
    let parent = disk.lookup(parent_rel).unwrap();
    let facts = MkdirFacts {
        resolved: rel.as_bytes().to_vec(),
        name: name.as_bytes().to_vec(),
        parent: Ok(()),
        stat: disk.stat(rel),
        rollback_parent: Ok(Handle { id: parent }),
    };
    let (mut making, bits) = Mkdir::mkdir_sync(rel.as_bytes(), mode, facts)?;
    let outcome = disk.before(Event::NamespaceMkdir);
    if outcome.is_ok() {
        let ino = disk.make(0o40000 | bits);
        disk.attach(parent, name.as_bytes(), ino);
    }
    making.made(outcome)?;
    let stat = disk.stat(rel);
    let finishing = making.versioned(stat, "")?;
    let finalized = finalize(disk, finishing, parent, name.as_bytes());
    let mut point = match making.finalized(finalized) {
        Ok(point) => point,
        Err(failed) => return Err(give_back(disk, failed.error, failed.rollback)),
    };
    loop {
        let outcome = disk.before(Event::DirectorySync(point));
        match making.synced(outcome) {
            Ok(Some(next)) => point = next,
            Ok(None) => return Ok(()),
            Err(failed) => return Err(give_back(disk, failed.error, failed.rollback)),
        }
    }
}

/// Takes created directories back and hands the error on.
fn give_back(disk: &mut Disk, error: AnyError, created: Vec<CreatedAncestor>) -> AnyError {
    assert!(run_cleanup(disk, CandidateCleanup::ancestors(created)).is_none());
    error
}

fn plan(disk: &Disk, planning: &mut RemovalPlanning) -> Result<(), AnyError> {
    let mut open: Vec<(String, Vec<Vec<u8>>)> = Vec::new();
    let mut entering = text(&planning.frames[0].rel).to_owned();
    let mut step = PlanStep::Enter;
    loop {
        step = match step {
            PlanStep::Enter => {
                let ino = disk.lookup(&entering).unwrap();
                let mut names: Vec<Vec<u8>> = disk.nodes[&ino].children.keys().cloned().collect();
                names.reverse();
                open.push((entering.clone(), names));
                planning.enter(false, Ok(disk.meta(ino)))
            }
            PlanStep::Read => {
                while open.len() > planning.frames.len() {
                    open.pop();
                }
                let entry = match open.last_mut().unwrap().1.pop() {
                    Some(name) => NextEntry::Name { name },
                    None => NextEntry::End,
                };
                planning.next_entry(false, entry)
            }
            PlanStep::Inspect { name } => {
                let (rel, _) = open.last().unwrap();
                let ino = disk.lookup(rel).unwrap();
                planning.inspected(disk.stat_in(ino, &name))
            }
            PlanStep::Open { rel } => {
                entering = text(&rel).to_owned();
                let ino = disk.lookup(&entering).unwrap();
                planning.opened(Ok(disk.meta(ino)), "")
            }
            PlanStep::Complete => return Ok(()),
            PlanStep::Failed { error } => return Err(error),
        };
    }
}

/// Removes a target. The request goes away once so many entries were removed.
fn remove(
    disk: &mut Disk,
    rel: &str,
    recursive: bool,
    expected: EntryExpectation,
    max_entries: usize,
    max_depth: usize,
    cancel_after: Option<usize>,
) -> Result<(), AnyError> {
    let facts = TargetFacts {
        resolved: rel.as_bytes().to_vec(),
        parent: Ok(()),
        checked: disk.stat(rel),
        inspected: disk.stat(rel),
    };
    let (mut removal, mut action) =
        Removal::remove_sync(rel.as_bytes(), recursive, expected, facts)?;
    let mut at = rel.to_owned();
    loop {
        let cancelled = cancel_after.is_some_and(|n| removal.removed >= n);
        action = match action {
            RemovalAction::Confirm => {
                let stat = disk.stat(rel);
                removal.confirm(cancelled, stat)?
            }
            RemovalAction::OpenTarget => {
                let ino = disk.lookup(rel).unwrap();
                let mut planning =
                    removal.opened(
                        Ok(disk.meta(ino)),
                        Ok(disk.meta(ino)),
                        max_entries,
                        max_depth,
                    )?;
                plan(disk, &mut planning)?;
                let stat = disk.stat(rel);
                removal.planned(planning, cancelled, stat)?
            }
            RemovalAction::Choose => {
                let next = removal.proceed(cancelled)?;
                if next == RemovalAction::Confirm {
                    let stat = disk.stat(rel);
                    at = rel.to_owned();
                    removal.confirm_target(stat)?
                } else {
                    next
                }
            }
            RemovalAction::ConfirmPlanned => {
                at = text(&removal.plan[removal.removed].rel).to_owned();
                let (parent, _) = split(&at);
                let facts = PlannedFacts {
                    parent: Ok(()),
                    parent_metadata: Ok(disk.meta(disk.lookup(parent).unwrap())),
                    resolved: at.as_bytes().to_vec(),
                    stat: disk.stat(&at),
                };
                removal.confirm_planned(facts)?
            }
            RemovalAction::Unlink { directory } => {
                let mut outcome = disk.before(Event::NamespaceUnlink { directory });
                if outcome.is_ok() {
                    let (parent, name) = split(&at);
                    let parent = disk.lookup(parent).unwrap();
                    outcome = disk.remove_in(parent, name.as_bytes(), directory);
                }
                removal.unlinked(outcome)?
            }
            RemovalAction::SyncParent => {
                let outcome =
                    disk.before(Event::DirectorySync(DirectorySyncPoint::RemovedEntryParent));
                removal.synced(outcome)?
            }
            RemovalAction::Done => return Ok(()),
        };
    }
}

fn rename(
    disk: &mut Disk,
    source: &str,
    destination: &str,
    make_parents: bool,
    expected_source: EntryExpectation,
    expected_destination: EntryExpectation,
) -> Result<(), AnyError> {
    let (to_parent, to_name) = split(destination);
    let (from_parent, from_name) = split(source);
    let created = if make_parents {
        ensure(disk, to_parent, 0o700).map_err(|failed| failed.error)?
    } else {
        Vec::new()
    };
    let from = disk.lookup(from_parent).unwrap();
    let to = disk.lookup(to_parent).unwrap();
    let facts = |disk: &Disk, path: &str| EndpointFacts {
        resolved: path.as_bytes().to_vec(),
        parent: Ok(()),
        stat: disk.stat(path),
    };
    let begun = Rename::rename_sync(
        source.as_bytes(),
        destination.as_bytes(),
        expected_source,
        expected_destination,
        facts(disk, source),
        facts(disk, destination),
        Ok((disk.meta(from), disk.meta(to))),
        created,
    );
    let (mut moving, mut action) = match begun {
        Ok(begun) => begun,
        Err(failed) => return Err(give_back(disk, failed.error, failed.created_ancestors)),
    };
    let sync = |outcome: Result<(), OsFailure>| {
        outcome.map_err(|failure| SyncFailure { failure, system: String::from("I/O error") })
    };
    loop {
        action = match action {
            RenameAction::Rename { no_replace } => {
                let outcome = disk.before(Event::NamespaceRename { no_replace });
                if outcome.is_ok() {
                    let ino = disk.detach(from, from_name.as_bytes());
                    disk.attach(to, to_name.as_bytes(), ino);
                }
                match moving.renamed(outcome) {
                    Ok(next) => next,
                    Err(failed) => {
                        return Err(give_back(disk, failed.error, failed.created_ancestors))
                    }
                }
            }
            RenameAction::Sync { point } => {
                let outcome = sync(disk.before(Event::DirectorySync(point)));
                if point == DirectorySyncPoint::DestinationParent {
                    moving.destination_synced(outcome)?
                } else {
                    moving.source_synced(outcome)?
                }
            }
            RenameAction::Done => return Ok(()),
        };
    }
}

/// Scans for stale candidates.
fn scan(
    disk: &mut Disk,
    limits: StaleUploadCleanupLimits,
    now: i64,
    deadline_reached: bool,
) -> StaleUploadCleanupReport {
    let now = Timestamp { secs: now, nanos: 0 };
    let root = disk.meta(ROOT);
    let mut state = StaleUploadCleanupState::cleanup_stale_uploads(limits, now, UID, &root);
    let names = |disk: &Disk, ino: u64| {
        let mut names: Vec<Vec<u8>> = disk.nodes[&ino].children.keys().cloned().collect();
        names.reverse();
        names
    };
    let mut open = vec![(ROOT, names(disk, ROOT))];
    let mut name: Vec<u8> = Vec::new();
    let mut step = StaleStep::Read;
    loop {
        step = match step {
            StaleStep::Read => {
                let entry = match open.last_mut().unwrap().1.pop() {
                    Some(next) => {
                        name = next.clone();
                        StaleEntry::Name { name: next }
                    }
                    None => StaleEntry::End,
                };
                state.next_entry(deadline_reached, entry)
            }
            StaleStep::Leave => {
                open.pop();
                StaleStep::Read
            }
            StaleStep::Inspect => {
                let parent = open.last().unwrap().0;
                let private = text(&name).starts_with(".ram-");
                state.inspected(disk.stat_in(parent, &name), "", private)
            }
            StaleStep::OpenCandidate => {
                let parent = open.last().unwrap().0;
                let ino = disk.nodes[&parent].children[&name];
                let modified = Some(Timestamp { secs: disk.nodes[&ino].modified, nanos: 0 });
                state.candidate_opened(OpenedCandidate::Opened {
                    metadata: disk.meta(ino),
                    modified,
                })
            }
            StaleStep::LockCandidate => {
                let parent = open.last().unwrap().0;
                let ino = disk.nodes[&parent].children[&name];
                let outcome = if disk.nodes[&ino].locked {
                    Err(OsFailure { errno: Errno::Again, kind: IoErrorKind::WouldBlock })
                } else {
                    Ok(())
                };
                state.candidate_locked(outcome, "")
            }
            StaleStep::RecheckCandidate => {
                let parent = open.last().unwrap().0;
                state.candidate_rechecked(disk.stat_in(parent, &name), "")
            }
            StaleStep::UnlinkCandidate => {
                let parent = open.last().unwrap().0;
                let outcome = disk.remove_in(parent, &name, false);
                state.candidate_unlinked(outcome, "I/O error")
            }
            StaleStep::SyncParent => state.candidate_synced(disk.sync(), "I/O error"),
            StaleStep::OpenDirectory => {
                let parent = open.last().unwrap().0;
                let ino = disk.nodes[&parent].children[&name];
                let next = state.opened(true, Ok(disk.meta(ino)), "");
                if next == StaleStep::Descend {
                    open.push((ino, names(disk, ino)));
                }
                next
            }
            StaleStep::Descend => StaleStep::Read,
            StaleStep::Finished => return state.report,
        };
    }
}

fn limits() -> StaleUploadCleanupLimits {
    StaleUploadCleanupLimits {
        min_age: Duration::from_secs(60),
        max_entries: 100,
        max_depth: 8,
        max_deletions: 100,
        timeout: Duration::from_secs(5),
    }
}

fn assert_durability(error: &AnyError, stage: DurabilityStage, published: bool) {
    assert!(
        matches!(
            FsError::in_anyhow_chain(error),
            Some(FsError::Durability { stage: actual, published: was, .. })
                if *actual == stage && *was == published
        ),
        "unexpected durability classification: {error:?}"
    );
}

fn is_changed(error: &AnyError) -> bool {
    matches!(FsError::in_anyhow_chain(error), Some(FsError::Changed { .. }))
}

fn uploads_cancelled(error: &AnyError) -> bool {
    matches!(
        AdmissionError::in_anyhow_chain(error),
        Some(AdmissionError::Cancelled { resource: AdmissionResource::Uploads })
    )
}

// ---------------------------------------------------------------------------------------------
// Publication
// ---------------------------------------------------------------------------------------------

#[test]
fn scripted_put_commit_orders_real_publication() {
    let mut disk = Disk::new();
    let candidate = create(&mut disk, "target.bin", false, 0o700).unwrap();
    write_all(&mut disk, &candidate, b"published content").unwrap();
    let (result, owed) = commit(&mut disk, candidate, EntryExpectation::Missing, 0o640);
    result.unwrap();
    assert!(owed.is_none());
    assert_eq!(disk.read("target.bin"), b"published content");
    assert_eq!(
        disk.events,
        vec![
            Event::CandidateWrite,
            Event::CandidateFlush,
            Event::CandidateDataSync,
            Event::NamespaceRename { no_replace: true },
            Event::PublishedChmod,
            Event::PublishedFileSync,
            Event::DirectorySync(DirectorySyncPoint::DestinationParent),
        ]
    );
}

#[test]
fn scripted_put_prepublish_failures_clean_candidate_ancestors_with_lock_held() {
    let mut disk = Disk::failing(Event::CandidateWrite);
    let candidate = create(&mut disk, "one/two/target.bin", true, 0o700).unwrap();
    let error = write_all(&mut disk, &candidate, b"candidate").unwrap_err();
    assert_durability(&error, DurabilityStage::CandidateFile, false);
    let parent = Some(candidate.parent.fd);
    let owed = candidate.into_cleanup(parent).unwrap();
    assert!(run_cleanup(&mut disk, owed).is_none());
    assert!(!disk.holds("one"));

    for failure in [Event::CandidateFlush, Event::CandidateDataSync] {
        let mut disk = Disk::failing(failure);
        let candidate = create(&mut disk, "one/two/target.bin", true, 0o700).unwrap();
        write_all(&mut disk, &candidate, b"candidate").unwrap();
        let (result, owed) = commit(&mut disk, candidate, EntryExpectation::Missing, 0o640);
        assert_durability(&result.unwrap_err(), DurabilityStage::CandidateFile, false);
        assert!(run_cleanup(&mut disk, owed.unwrap()).is_none());
        assert!(!disk.holds("one"));
    }

    let mut disk = Disk::failing(Event::NamespaceRename { no_replace: true });
    let candidate = create(&mut disk, "one/two/target.bin", true, 0o700).unwrap();
    write_all(&mut disk, &candidate, b"candidate").unwrap();
    let (result, owed) = commit(&mut disk, candidate, EntryExpectation::Missing, 0o640);
    let error = result.unwrap_err();
    assert!(!matches!(FsError::in_anyhow_chain(&error), Some(FsError::Durability { .. })));
    let owed = owed.unwrap();
    assert!(owed.candidate_lock.is_some(), "the lock is held until the cleanup is done");
    assert!(run_cleanup(&mut disk, owed).is_none());
    assert!(!disk.holds("one"));
}

#[test]
fn scripted_put_postpublish_failures_keep_visible_target_and_marker() {
    for (failure, expected_stage) in [
        (Event::PublishedFileSync, DurabilityStage::PublishedFile),
        (
            Event::DirectorySync(DirectorySyncPoint::DestinationParent),
            DurabilityStage::DestinationParent,
        ),
    ] {
        let mut disk = Disk::failing(failure);
        let candidate = create(&mut disk, "target.bin", false, 0o700).unwrap();
        write_all(&mut disk, &candidate, b"published despite sync failure").unwrap();
        let (result, owed) = commit(&mut disk, candidate, EntryExpectation::Missing, 0o640);
        assert_durability(&result.unwrap_err(), expected_stage, true);
        assert!(owed.is_none());
        assert_eq!(disk.read("target.bin"), b"published despite sync failure");
        assert_eq!(disk.count(""), 1);
    }
}

#[test]
fn commit_rejects_present_and_missing_namespace_replacements() {
    for initially_present in [true, false] {
        let mut disk = Disk::new();
        if initially_present {
            disk.write("target.bin", b"selected A");
        }
        let expected = disk.expectation("target.bin");
        let candidate = create(&mut disk, "target.bin", false, 0o700).unwrap();
        write_all(&mut disk, &candidate, b"candidate").unwrap();
        if initially_present {
            disk.displace("target.bin", "selected-a.bin");
        }
        disk.write("target.bin", b"attacker B");
        let (result, owed) = commit(&mut disk, candidate, expected, 0o640);
        assert!(is_changed(&result.unwrap_err()));
        assert!(run_cleanup(&mut disk, owed.unwrap()).is_none());
        assert_eq!(disk.read("target.bin"), b"attacker B");
        assert_eq!(disk.count(""), if initially_present { 2 } else { 1 });
    }
}

#[test]
fn publication_modes_are_exact_strip_special_bits_and_break_hardlinks() {
    let mut disk = Disk::new();
    let fresh = create(&mut disk, "fresh.bin", false, 0o700).unwrap();
    write_all(&mut disk, &fresh, b"fresh").unwrap();
    commit(&mut disk, fresh, EntryExpectation::Missing, 0o4751).0.unwrap();
    assert_eq!(disk.stat("fresh.bin").unwrap().mode & 0o7777, 0o751);

    let old = disk.write("target.bin", b"old inode");
    disk.chmod(old, 0o674);
    disk.attach(ROOT, b"alias.bin", old);
    let expected = disk.expectation("target.bin");
    let replacement = create(&mut disk, "target.bin", false, 0o700).unwrap();
    write_all(&mut disk, &replacement, b"new inode").unwrap();
    commit(&mut disk, replacement, expected, 0o674).0.unwrap();
    assert_eq!(disk.stat("target.bin").unwrap().mode & 0o7777, 0o674);
    assert_ne!(disk.lookup("target.bin").unwrap(), old);
    assert_eq!(disk.read("target.bin"), b"new inode");
    assert_eq!(disk.read("alias.bin"), b"old inode");
}

#[test]
fn create_only_eexist_keeps_mkcol_upload_and_destination_race_roles() {
    for role in [MutationEndpointRole::Target, MutationEndpointRole::Destination] {
        let error = create_only_error(
            b"target.bin",
            EntryExpectation::Missing,
            role,
            failed(Errno::Exist),
        );
        assert!(matches!(
            FsError::in_anyhow_chain(&error),
            Some(FsError::Changed { role: actual_role, .. }) if *actual_role == role
        ));
    }
}

#[test]
fn copy_source_revalidation_rejects_namespace_replacement() {
    let mut disk = Disk::new();
    let source = disk.write("source.bin", b"selected A");
    let expected = disk.expectation("source.bin");
    disk.displace("source.bin", "selected-a.bin");
    disk.write("source.bin", b"attacker B");
    let error = verify_opened_entry_sync(
        b"source.bin",
        Ok(disk.meta(source)),
        Ok(disk.expectation("source.bin")),
        expected,
        MutationEndpointRole::Source,
    )
    .unwrap_err();
    assert!(matches!(
        FsError::in_anyhow_chain(&error),
        Some(FsError::Changed { role: MutationEndpointRole::Source, .. })
    ));
    assert_eq!(disk.read("source.bin"), b"attacker B");
}

#[test]
fn candidate_parent_depth_cannot_exceed_recovery_scan_depth() {
    let health = RecoveryHealth::new();
    create_blocking_temp_with_kind(b"one/two/file.bin", &health, 2).unwrap();
    let error = create_blocking_temp_with_kind(b"one/two/three/file.bin", &health, 2).unwrap_err();
    assert!(matches!(
        AdmissionError::in_anyhow_chain(&error),
        Some(AdmissionError::LimitExceeded { resource: AdmissionResource::WalkDepth, .. })
    ));
}

#[test]
fn candidate_creation_repairs_permissions_removed_by_extreme_umask() {
    let mut disk = Disk::new();
    let candidate = create(&mut disk, "file.bin", false, 0o700).unwrap();
    let ino = candidate.file.unwrap().id;
    assert_eq!(disk.nodes[&ino].mode & 0o7777, 0o600);
    assert!(disk.nodes[&ino].locked, "candidate lock was not retained");
    assert!(candidate.candidate_lock.is_some());
}

#[test]
fn an_unsafe_candidate_is_never_used() {
    let mut disk = Disk::new();
    let ino = disk.candidate("x");
    let shared = Metadata { mode: 0o100640, ..disk.meta(ino) };
    let error = secure_private_candidate(
        SecuringStep::Inspect,
        SecuringReply::Known { metadata: shared },
        UID,
    )
    .unwrap_err();
    assert!(error.describe("").contains("private"), "{}", error.describe(""));
}

// ---------------------------------------------------------------------------------------------
// Directories
// ---------------------------------------------------------------------------------------------

#[test]
fn scripted_mkcol_sync_order_and_failures_preserve_rollback() {
    let mut disk = Disk::new();
    mkdir(&mut disk, "collection", 0o710).unwrap();
    assert_eq!(disk.stat("collection").unwrap().mode, 0o40710);
    assert_eq!(
        disk.events,
        vec![
            Event::NamespaceMkdir,
            Event::DirectorySync(DirectorySyncPoint::CreatedDirectory),
            Event::DirectorySync(DirectorySyncPoint::CreatedDirectoryParent),
        ]
    );

    let mut disk = Disk::failing(Event::NamespaceMkdir);
    let error = mkdir(&mut disk, "collection", 0o710).unwrap_err();
    assert!(FsError::in_anyhow_chain(&error).is_none());
    assert!(!disk.holds("collection"));

    for failure in [
        Event::DirectorySync(DirectorySyncPoint::CreatedDirectory),
        Event::DirectorySync(DirectorySyncPoint::CreatedDirectoryParent),
    ] {
        let mut disk = Disk::failing(failure);
        let error = mkdir(&mut disk, "collection", 0o710).unwrap_err();
        assert_durability(&error, DurabilityStage::CreatedDirectory, true);
        assert!(!disk.holds("collection"), "failed MKCOL did not roll back its new directory");
    }
}

#[test]
fn failed_candidate_rolls_back_only_its_exact_empty_ancestors() {
    let mut disk = Disk::new();
    let candidate = create(&mut disk, "one/two/file.bin", true, 0o710).unwrap();
    assert_eq!(disk.stat("one").unwrap().mode & 0o7777, 0o710);
    assert_eq!(disk.stat("one/two").unwrap().mode & 0o7777, 0o710);
    let parent = Some(candidate.parent.fd);
    assert!(run_cleanup(&mut disk, candidate.into_cleanup(parent).unwrap()).is_none());
    assert!(!disk.holds("one"));

    let candidate = create(&mut disk, "one/two/file.bin", true, 0o700).unwrap();
    disk.displace("one", "original-one");
    disk.write("one/replacement", b"must survive");
    let parent = Some(candidate.parent.fd);
    assert!(run_cleanup(&mut disk, candidate.into_cleanup(parent).unwrap()).is_none());
    assert_eq!(disk.read("one/replacement"), b"must survive");
}

// ---------------------------------------------------------------------------------------------
// Removal
// ---------------------------------------------------------------------------------------------

#[test]
fn scripted_delete_syncs_file_and_directory_and_marks_postunlink_failure() {
    for (name, directory) in [("file", false), ("collection", true)] {
        let mut disk = Disk::new();
        if directory {
            disk.directories(name);
        } else {
            disk.write(name, b"content");
        }
        let expected = disk.expectation(name);
        remove(&mut disk, name, false, expected, 8, 8, None).unwrap();
        assert!(!disk.holds(name));
        assert_eq!(
            disk.events,
            vec![
                Event::NamespaceUnlink { directory },
                Event::DirectorySync(DirectorySyncPoint::RemovedEntryParent),
            ]
        );
    }

    let mut disk = Disk::failing(Event::NamespaceUnlink { directory: false });
    disk.write("file", b"content");
    let expected = disk.expectation("file");
    let error = remove(&mut disk, "file", false, expected, 8, 8, None).unwrap_err();
    assert!(FsError::in_anyhow_chain(&error).is_none());
    assert_eq!(disk.read("file"), b"content");

    let mut disk =
        Disk::failing(Event::DirectorySync(DirectorySyncPoint::RemovedEntryParent));
    disk.write("file", b"content");
    let expected = disk.expectation("file");
    let error = remove(&mut disk, "file", false, expected, 8, 8, None).unwrap_err();
    assert_durability(&error, DurabilityStage::RemovedEntryParent, true);
    assert!(!disk.holds("file"));
}

#[test]
fn delete_rejects_replacement_and_recursive_budgets_are_zero_mutation() {
    let mut disk = Disk::new();
    disk.write("target", b"A");
    let expected = disk.expectation("target");
    disk.displace("target", "selected-a");
    disk.write("target", b"B");
    let error = remove(&mut disk, "target", false, expected, 10, 10, None).unwrap_err();
    assert!(is_changed(&error));
    assert_eq!(disk.read("target"), b"B");

    for (limit, succeeds) in [(2, false), (3, true), (4, true)] {
        let mut disk = Disk::new();
        for name in ["a", "b", "c"] {
            disk.write(&format!("tree/{name}"), name.as_bytes());
        }
        let expected = disk.expectation("tree");
        let result = remove(&mut disk, "tree", true, expected, limit, 8, None);
        assert_eq!(result.is_ok(), succeeds, "entry limit {limit}");
        if succeeds {
            assert!(!disk.holds("tree"));
        } else {
            assert!(AdmissionError::in_anyhow_chain(&result.unwrap_err()).is_some());
            assert_eq!(disk.count("tree"), 3);
        }
    }

    for (limit, succeeds) in [(1, false), (2, true), (3, true)] {
        let mut disk = Disk::new();
        disk.write("tree/one/two/file", b"x");
        let expected = disk.expectation("tree");
        let result = remove(&mut disk, "tree", true, expected, 16, limit, None);
        assert_eq!(result.is_ok(), succeeds, "depth limit {limit}");
        if !succeeds {
            assert!(disk.holds("tree/one/two/file"));
        }
    }
}

#[test]
fn recursive_delete_cancellation_after_mutation_is_durably_partial() {
    let mut disk = Disk::new();
    disk.write("tree/a", b"a");
    disk.write("tree/b", b"b");
    let expected = disk.expectation("tree");
    let error = remove(&mut disk, "tree", true, expected, 8, 8, Some(1)).unwrap_err();
    assert!(AdmissionError::in_anyhow_chain(&error).is_some());
    assert!(disk.holds("tree"));
    assert_eq!(disk.count("tree"), 1);
}

#[test]
fn plans_hold_the_contents_of_a_directory_right_before_it() {
    let mut disk = Disk::new();
    disk.write("tree/a", b"a");
    disk.write("tree/b/c/d", b"d");
    disk.write("tree/b/e", b"e");
    disk.write("tree/f", b"f");
    let target = disk.meta(disk.lookup("tree").unwrap());
    let mut planning = RemovalPlanning::plan_recursive_delete(
        b"tree".to_vec(),
        EntryExpectation::from_metadata(&target),
        &target,
        8,
        8,
    );
    plan(&disk, &mut planning).unwrap();
    let order: Vec<&str> = planning.plan.iter().map(|entry| text(&entry.rel)).collect();
    assert_eq!(
        order,
        ["tree/a", "tree/b/c/d", "tree/b/c", "tree/b/e", "tree/b", "tree/f"]
    );
    assert!(planning.plan[2].directory && planning.plan[4].directory);
}

// ---------------------------------------------------------------------------------------------
// Renaming
// ---------------------------------------------------------------------------------------------

#[test]
fn scripted_move_attempts_cross_parent_syncs_and_rolls_back_before_rename() {
    let mut disk =
        Disk::failing(Event::DirectorySync(DirectorySyncPoint::DestinationParent));
    disk.write("source-parent/source", b"move content");
    disk.directories("destination-parent");
    let expected = disk.expectation("source-parent/source");
    let error = rename(
        &mut disk,
        "source-parent/source",
        "destination-parent/destination",
        false,
        expected,
        EntryExpectation::Missing,
    )
    .unwrap_err();
    assert_durability(&error, DurabilityStage::DestinationParent, true);
    assert_eq!(
        disk.events,
        vec![
            Event::NamespaceRename { no_replace: true },
            Event::DirectorySync(DirectorySyncPoint::DestinationParent),
            Event::DirectorySync(DirectorySyncPoint::SourceParent),
        ]
    );
    assert!(!disk.holds("source-parent/source"));
    assert_eq!(disk.read("destination-parent/destination"), b"move content");

    let mut disk = Disk::failing(Event::NamespaceRename { no_replace: true });
    disk.write("source", b"source remains");
    let expected = disk.expectation("source");
    let error = rename(
        &mut disk,
        "source",
        "new/parent/destination",
        true,
        expected,
        EntryExpectation::Missing,
    )
    .unwrap_err();
    assert!(!matches!(FsError::in_anyhow_chain(&error), Some(FsError::Durability { .. })));
    assert_eq!(disk.read("source"), b"source remains");
    assert!(!disk.holds("new"));

    let mut disk = Disk::new();
    disk.write("source", b"same parent");
    let expected = disk.expectation("source");
    rename(&mut disk, "source", "destination", false, expected, EntryExpectation::Missing)
        .unwrap();
    assert_eq!(
        disk.events,
        vec![
            Event::NamespaceRename { no_replace: true },
            Event::DirectorySync(DirectorySyncPoint::DestinationParent),
        ]
    );
}

#[test]
fn move_rechecks_both_source_and_destination_versions() {
    for replaced in ["source", "destination"] {
        let mut disk = Disk::new();
        disk.write("source", b"source A");
        disk.write("destination", b"destination A");
        let expected_source = disk.expectation("source");
        let expected_destination = disk.expectation("destination");
        disk.displace(replaced, &format!("{replaced}-a"));
        disk.write(replaced, b"attacker B");
        let error = rename(
            &mut disk,
            "source",
            "destination",
            false,
            expected_source,
            expected_destination,
        )
        .unwrap_err();
        assert!(is_changed(&error));
        assert_eq!(disk.read(replaced), b"attacker B");
    }
}

#[test]
fn failed_move_rolls_back_its_auto_created_destination_ancestors() {
    let mut disk = Disk::new();
    disk.write("source", b"source A");
    let expected_source = disk.expectation("source");
    let expected_destination = disk.expectation("new/deep/destination");
    disk.displace("source", "selected-source-a");
    disk.write("source", b"attacker B");
    let error = rename(
        &mut disk,
        "source",
        "new/deep/destination",
        true,
        expected_source,
        expected_destination,
    )
    .unwrap_err();
    assert!(matches!(
        FsError::in_anyhow_chain(&error),
        Some(FsError::Changed { role: MutationEndpointRole::Source, .. })
    ));
    assert_eq!(disk.read("source"), b"attacker B");
    assert!(!disk.holds("new"), "failed MOVE leaked its auto-created destination ancestors");
}

#[test]
fn move_attempts_both_parent_syncs_even_when_destination_sync_fails() {
    let failure = || {
        Err(SyncFailure { failure: failed(Errno::Io), system: String::from("I/O error") })
    };
    let error = sync_renamed_parents(failure(), failure()).unwrap_err();
    assert!(matches!(
        FsError::in_anyhow_chain(&error),
        Some(FsError::Durability { published: true, .. })
    ));
    let error = sync_renamed_parents(Ok(()), failure()).unwrap_err();
    assert_durability(&error, DurabilityStage::SourceParent, true);
    assert!(sync_renamed_parents(Ok(()), Ok(())).is_ok());
}

// ---------------------------------------------------------------------------------------------
// Cleanups
// ---------------------------------------------------------------------------------------------

fn owed(disk: &Disk, name: &str, guard: Option<Handle>) -> CandidateCleanup {
    CandidateCleanup::candidate(
        Some(Handle { id: ROOT }),
        name.as_bytes().to_vec(),
        disk.expectation(name),
        Vec::new(),
        None,
        guard,
    )
}

#[test]
fn failed_reaper_attempt_retains_ancestor_rollback_responsibility() {
    let mut disk = Disk::new();
    let candidate = create(&mut disk, "one/two/file.bin", true, 0o700).unwrap();
    let parent = Some(candidate.parent.fd);
    let cleanup = candidate.into_cleanup(parent).unwrap();
    disk.broken_unlink = true;
    let cleanup = run_cleanup(&mut disk, cleanup)
        .expect("failed unlink must retain the complete cleanup record");
    assert_eq!(cleanup.created_ancestors.len(), 2);
    assert!(disk.holds(&format!("one/two/{}", text(&cleanup.name))));
    disk.broken_unlink = false;
    assert!(run_cleanup(&mut disk, cleanup).is_none());
    assert!(!disk.holds("one"));
}

#[test]
fn candidate_replacement_is_neither_published_nor_unlinked() {
    let mut disk = Disk::new();
    let candidate = create(&mut disk, "one/two/target.bin", true, 0o700).unwrap();
    let path = format!("one/two/{}", text(&candidate.temp_name));
    disk.displace(&path, "one/two/original-candidate");
    disk.write(&path, b"attacker replacement B");
    let error = verify_candidate_identity(
        b"one/two/target.bin",
        candidate.candidate_expectation,
        disk.stat(&path),
    )
    .unwrap_err();
    assert!(is_changed(&error));
    assert!(!disk.holds("one/two/target.bin"));

    let parent = Some(candidate.parent.fd);
    let cleanup = run_cleanup(&mut disk, candidate.into_cleanup(parent).unwrap())
        .expect("replacement identity must keep cleanup fail-closed");
    assert_eq!(disk.read(&path), b"attacker replacement B");

    let directory = disk.lookup("one/two").unwrap();
    disk.detach(directory, &cleanup.name);
    disk.detach(directory, b"original-candidate");
    assert!(run_cleanup(&mut disk, cleanup).is_none());
    assert!(!disk.holds("one"));
}

#[test]
fn noent_cleanup_requires_parent_sync_before_releasing_responsibility() {
    let mut disk = Disk::new();
    disk.candidate(UPLOAD);
    let cleanup = owed(&disk, UPLOAD, Some(Handle { id: 99 }));
    disk.detach(ROOT, UPLOAD.as_bytes());
    disk.broken_sync = true;
    disk.broken_unlink = true;
    let cleanup = run_cleanup(&mut disk, cleanup)
        .expect("failed parent sync must retain a missing-name cleanup record");
    assert_eq!(cleanup.guard, Some(Handle { id: 99 }));
    assert!(matches!(cleanup.run(), CleanupAction::SyncParent { .. }));
    disk.broken_sync = false;
    assert!(run_cleanup(&mut disk, cleanup).is_none());

    disk.candidate(STAGING);
    let mut raced = owed(&disk, STAGING, None);
    assert!(matches!(raced.run(), CleanupAction::Inspect { .. }));
    assert!(matches!(
        raced.inspected(disk.stat(STAGING)),
        CleanupAction::Unlink { .. }
    ));
    assert!(matches!(
        raced.unlinked(Err(failed(Errno::NoEnt))),
        CleanupAction::SyncParent { .. }
    ));
    assert!(matches!(raced.synced(Ok(())), CleanupAction::RollBack));
}

#[test]
fn unlink_failure_and_missing_parent_retain_cleanup_guards_fail_closed() {
    let mut disk = Disk::new();
    disk.candidate(UPLOAD);
    let mut reaper = CandidateReaper::candidate_reaper(true);
    disk.broken_unlink = true;
    let cleanup = owed(&disk, UPLOAD, Some(Handle { id: 1 }));
    let cleanup = run_cleanup(&mut disk, cleanup).expect("the unlink fails");
    reaper.retain_degraded_cleanup(cleanup, false);

    let homeless = CandidateCleanup::candidate(
        None,
        STAGING.as_bytes().to_vec(),
        EntryExpectation::Missing,
        Vec::new(),
        None,
        Some(Handle { id: 2 }),
    );
    let cleanup = run_cleanup(&mut disk, homeless)
        .expect("a missing cleanup parent cannot confirm unlink");
    reaper.retain_degraded_cleanup(cleanup, false);
    assert!(!reaper.healthy);
    assert_eq!(reaper.retained.len(), 2);
    assert!(reaper.retained.iter().all(|cleanup| cleanup.guard.is_some()));
}

#[test]
fn executor_retry_path_releases_cleanup_only_after_real_success() {
    let mut disk = Disk::new();
    disk.candidate(UPLOAD);
    let mut reaper = CandidateReaper::candidate_reaper(true);
    disk.broken_unlink = true;
    let cleanup = owed(&disk, UPLOAD, None);
    let cleanup = run_cleanup(&mut disk, cleanup)
        .expect("first injected unlink failure must retain responsibility");
    reaper.retain_with_reaper(cleanup, false);

    for cleanup in reaper.retry_retained_cleanups() {
        let left = run_cleanup(&mut disk, cleanup).expect("the disk is still broken");
        reaper.still_pending(left, false);
    }
    assert_eq!(reaper.retained.len(), 1);
    assert_eq!(reaper.tracker.pending, 1);

    disk.broken_unlink = false;
    for cleanup in reaper.retry_retained_cleanups() {
        assert!(run_cleanup(&mut disk, cleanup).is_none());
    }
    assert!(reaper.retained.is_empty());
    assert!(!disk.holds(UPLOAD));
}

#[test]
fn saturated_reaper_never_unlinks_on_tokio_and_fails_future_creation_closed() {
    let mut disk = Disk::new();
    disk.candidate(UPLOAD);
    let mut reaper = CandidateReaper::candidate_reaper(true);
    let cleanup = owed(&disk, UPLOAD, Some(Handle { id: 1 }));
    let sent = reaper.enqueue_candidate_cleanup(cleanup, false).expect("the reaper is healthy");
    reaper.sent(SendOutcome::Full { cleanup: sent }, false);
    assert!(disk.holds(UPLOAD), "queue saturation performed a synchronous unlink");
    assert!(!reaper.healthy);
    assert_eq!(reaper.retained.len(), 1);
    assert!(reaper.retained[0].guard.is_some(), "saturation released the guard before cleanup");

    let (error, _) = CandidateCreation::create_temp_in(reaper.healthy, Vec::new()).unwrap_err();
    assert!(uploads_cancelled(&error));
    assert_eq!(disk.count(""), 1);
}

#[test]
fn o_excl_candidate_failure_path_retains_full_record_when_unlink_fails() {
    let mut disk = Disk::new();
    let candidate = create(&mut disk, "target.bin", false, 0o700).unwrap();
    let path = text(&candidate.temp_name).to_owned();
    let mut reaper = CandidateReaper::candidate_reaper(true);
    let parent = Some(candidate.parent.fd);
    let mut cleanup = candidate.into_cleanup(parent).unwrap();
    cleanup.guard = Some(Handle { id: 5 });
    disk.broken_unlink = true;
    let left = run_cleanup(&mut disk, cleanup).expect("the unlink fails");
    reaper.retain_with_reaper(left, false);
    assert!(disk.holds(&path), "injected unlink failure removed the candidate");
    assert!(!reaper.healthy);
    assert_eq!(reaper.retained.len(), 1);
    assert!(reaper.retained[0].guard.is_some());
    assert!(reaper.retained[0].candidate_lock.is_some());
    let (error, _) = CandidateCreation::create_temp_in(reaper.healthy, Vec::new()).unwrap_err();
    assert!(uploads_cancelled(&error));
}

#[test]
fn global_reaper_drain_waits_until_queued_candidate_is_durable_absent() {
    let mut disk = Disk::new();
    let mut reaper = CandidateReaper::candidate_reaper(true);
    let candidate = create(&mut disk, "target.bin", false, 0o700).unwrap();
    let path = text(&candidate.temp_name).to_owned();
    let held = candidate.parent.fd;
    let dropped = candidate.into_async_temp(Ok(held)).map_err(|(error, _)| error).unwrap();
    assert!(disk.holds(&path));
    let cleanup = dropped.into_cleanup(Some(held)).unwrap();
    let sent = reaper.enqueue_candidate_cleanup(cleanup, false).expect("the reaper is healthy");
    let two_seconds = Duration::from_secs(2);
    assert_eq!(
        drain_candidate_cleanup(true, &reaper.tracker, two_seconds),
        DrainStep::Wait { remaining: two_seconds }
    );
    assert_eq!(drain_waited(&reaper.tracker, false), None);
    assert_eq!(drain_waited(&reaper.tracker, true), Some(false));

    let ticket = sent.ticket;
    let sent = CandidateCleanup { ticket: None, ..sent };
    assert!(run_cleanup(&mut disk, sent).is_none());
    assert!(!disk.holds(&path), "drained before candidate unlink and parent sync completed");
    assert!(ticket.unwrap().release(&mut reaper.tracker));
    assert_eq!(
        drain_candidate_cleanup(true, &reaper.tracker, two_seconds),
        DrainStep::Over { drained: true }
    );
    assert_eq!(
        drain_candidate_cleanup(false, &reaper.tracker, Duration::from_secs(0)),
        DrainStep::Over { drained: true }
    );
}

// ---------------------------------------------------------------------------------------------
// Recovery scans
// ---------------------------------------------------------------------------------------------

#[test]
fn cleanup_removes_only_old_private_unlocked_regular_candidates() {
    let mut disk = Disk::new();
    disk.candidate(UPLOAD);
    disk.candidate(STAGING);
    let name = |n: u32| format!(".ram-upload-00000000-0000-4000-8000-{n:012}.tmp");
    let young = disk.candidate(&name(3));
    disk.nodes.get_mut(&young).unwrap().modified = 990;
    let public = disk.candidate(&name(4));
    disk.chmod(public, 0o640);
    let linked = disk.candidate(&name(5));
    disk.nodes.get_mut(&linked).unwrap().nlink = 2;
    let link = disk.candidate(&name(6));
    disk.nodes.get_mut(&link).unwrap().mode = 0o120777;
    disk.directories(&name(7));
    let active = disk.candidate(&name(8));
    disk.nodes.get_mut(&active).unwrap().locked = true;
    let foreign = disk.candidate(&name(9));
    disk.nodes.get_mut(&foreign).unwrap().uid = 65534;
    disk.candidate("ordinary.txt");

    let report = scan(&mut disk, limits(), 1000, false);
    assert_eq!(report.deleted, 2);
    assert_eq!(report.skipped_active, 1);
    assert_eq!(report.skipped_young, 1);
    assert!(!report.is_complete(), "unsafe reserved-name entries must fail closed");
    assert!(!disk.holds(UPLOAD));
    assert!(!disk.holds(STAGING));
    for n in 3..10 {
        assert!(disk.holds(&name(n)), "cleanup removed an ineligible path: {n}");
    }
    assert!(disk.holds("ordinary.txt"));
}

#[test]
fn young_candidate_is_revisited_after_aging_without_closing_admission() {
    let mut disk = Disk::new();
    let candidate = disk.candidate(UPLOAD);
    disk.nodes.get_mut(&candidate).unwrap().modified = 950;
    let mut health = RecoveryHealth::new();

    let young = health
        .record_stale_upload_cleanup_result(Ok(scan(&mut disk, limits(), 1000, false)))
        .unwrap();
    assert_eq!(young.deleted, 0);
    assert_eq!(young.skipped_young, 1);
    assert!(young.is_complete());
    health.ensure_candidate_recovery_healthy().unwrap();
    assert!(disk.holds(UPLOAD));

    let mature = health
        .record_stale_upload_cleanup_result(Ok(scan(&mut disk, limits(), 1010, false)))
        .unwrap();
    assert_eq!(mature.deleted, 1);
    assert_eq!(mature.skipped_young, 0);
    assert!(mature.is_complete());
    health.ensure_candidate_recovery_healthy().unwrap();
    assert!(!disk.holds(UPLOAD));
}

#[test]
fn entry_budget_starvation_stickily_closes_candidate_admission() {
    let mut disk = Disk::new();
    let mut health = RecoveryHealth::new();
    assert!(scan(&mut disk, limits(), 1000, false).is_complete());
    let path = format!("ordinary-directory/{UPLOAD}");
    disk.candidate(&path);

    let starved = StaleUploadCleanupLimits { max_entries: 1, ..limits() };
    let report = scan(&mut disk, starved, 1000, false);
    assert!(report.entry_limit_reached);
    assert_eq!(report.deleted, 0);
    assert!(!report.is_complete());
    assert!(disk.holds(&path));
    health.record_stale_upload_cleanup_result(Ok(report)).unwrap();
    let error = create_blocking_temp_with_kind(b"new-upload.bin", &health, 8).unwrap_err();
    assert!(uploads_cancelled(&error));

    let complete = scan(&mut disk, limits(), 1000, false);
    assert_eq!(complete.deleted, 1);
    assert!(complete.is_complete());
    health.record_stale_upload_cleanup_result(Ok(complete)).unwrap();
    assert!(health.ensure_candidate_recovery_healthy().is_err());
}

#[test]
fn cleanup_io_error_closes_candidate_admission_before_returning() {
    let mut health = RecoveryHealth::new();
    let injected = health.record_stale_upload_cleanup_result(Err(AnyError::message(
        "injected directory iteration failure",
    )));
    assert!(injected.is_err());
    let error = create_blocking_temp_with_kind(b"new-upload.bin", &health, 8).unwrap_err();
    assert!(uploads_cancelled(&error));
}

#[test]
fn cleanup_failure_diagnostics_distinguish_unlink_and_parent_sync() {
    let mut disk = Disk::new();
    disk.candidate(UPLOAD);
    disk.broken_unlink = true;
    let report = scan(&mut disk, limits(), 1000, false);
    assert!(disk.holds(UPLOAD));
    assert_eq!(report.deleted, 0);
    assert_eq!(report.failures, 1);
    assert_eq!(report.failure_diagnostics.len(), 1);
    assert_eq!(report.failure_diagnostics[0].stage, StaleUploadCleanupStage::UnlinkCandidate);
    assert_eq!(report.failure_diagnostics[0].relative_path, UPLOAD);
    assert!(report.failure_diagnostics[0].cause.contains("unlinking a stale private candidate"));
    assert!(!report.is_complete());

    let mut disk = Disk::new();
    disk.candidate(STAGING);
    disk.broken_sync = true;
    let report = scan(&mut disk, limits(), 1000, false);
    assert!(!disk.holds(STAGING));
    assert_eq!(report.deleted, 1);
    assert_eq!(report.failures, 1);
    assert_eq!(report.failure_diagnostics.len(), 1);
    assert_eq!(
        report.failure_diagnostics[0].stage,
        StaleUploadCleanupStage::SyncParent { stage: DurabilityStage::RemovedEntryParent }
    );
    assert!(report.failure_diagnostics[0].cause.contains("durability"));
    assert!(!report.is_complete());
}

#[test]
fn cleanup_honors_deletion_entry_depth_and_deadline_budgets() {
    let mut disk = Disk::new();
    for index in 10..13 {
        disk.candidate(&format!(".ram-upload-00000000-0000-4000-8000-{index:012}.tmp"));
    }
    let few = StaleUploadCleanupLimits { max_deletions: 1, ..limits() };
    let report = scan(&mut disk, few, 1000, false);
    assert_eq!(report.deleted, 1);
    assert!(report.deletion_limit_reached);
    assert_eq!(disk.count(""), 2, "deletion budget was exceeded");

    let mut disk = Disk::new();
    for index in 0..3 {
        disk.write(&format!("ordinary-{index}"), b"x");
    }
    let one = StaleUploadCleanupLimits { max_entries: 1, ..limits() };
    let report = scan(&mut disk, one, 1000, false);
    assert_eq!(report.scanned_entries, 1);
    assert!(report.entry_limit_reached);

    let mut disk = Disk::new();
    let deep = format!("one/two/{UPLOAD}");
    disk.candidate(&deep);
    let shallow = StaleUploadCleanupLimits { max_depth: 1, ..limits() };
    let report = scan(&mut disk, shallow, 1000, false);
    assert!(report.depth_limit_reached);
    assert!(disk.holds(&deep));

    let mut disk = Disk::new();
    disk.candidate(UPLOAD);
    let report = scan(&mut disk, limits(), 1000, true);
    assert!(report.deadline_reached);
    assert!(disk.holds(UPLOAD));
}
