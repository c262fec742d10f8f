//! Removal of private upload candidates that a crash left behind.
//!
//! The scan is bounded in entries, depth, deletions and time, and it reports whatever it could
//! not finish. A scan that was not complete stops the creation of new candidates.
use crate::display::stage_text;
use crate::error::{
    AdmissionError, AdmissionResource, AnyError, DurabilityStage, Errno,
};
use crate::fault::{in_context, undurable, Fault};
use crate::filesystem::entry::{join, Metadata};
use crate::filesystem::failure::{
    durability_error, typed_fault, typed_filesystem_error, OsFailure,
};
use crate::filesystem::resolve::{basename_fault, validate_basename};
use crate::filesystem::visited::DirectorySet;
use crate::filesystem::walk::{is_dots, names_itself};
use crate::path::{component_views, components, joined, parts, Component, Part};
use crate::text::{
    char_width, chars_of, lemma_char_width, lemma_encode_concat, lossy, lossy_text, text3, width_of,
};
use crate::time::Duration;
use vstd::prelude::*;
use vstd::utf8::*;

verus! {

pub const STALE_CLEANUP_DIAGNOSTIC_LIMIT: usize = 4;

pub const STALE_CLEANUP_DIAGNOSTIC_PATH_MAX_BYTES: usize = 512;

pub const STALE_CLEANUP_DIAGNOSTIC_CAUSE_MAX_BYTES: usize = 1024;

/// The number of bytes of the mark that a text was cut.
pub const ELLIPSIS_BYTES: usize = 3;

// ---------------------------------------------------------------------------------------------
// Bounded diagnostics
// ---------------------------------------------------------------------------------------------

/// A character as diagnostics show it: control characters become spaces.
pub open spec fn shown_char(c: char) -> char {
    if c as u32 <= 0x1f || (0x7f <= c as u32 && c as u32 <= 0x9f) {
        ' '
    } else {
        c
    }
}

pub open spec fn shown(text: Seq<char>) -> Seq<char> {
    text.map_values(|c: char| shown_char(c))
}

/// The number of bytes of a text.
pub open spec fn width(text: Seq<char>) -> nat {
    encode_utf8(text).len()
}

proof fn lemma_width_step(text: Seq<char>, n: int)
    requires
        0 <= n < text.len(),
    ensures
        width(text.take(n + 1)) == width(text.take(n)) + char_width(text[n]),
{
    assert(text.take(n + 1) =~= text.take(n) + seq![text[n]]);
    lemma_encode_concat(text.take(n), seq![text[n]]);
    lemma_char_width(text[n]);
}

proof fn lemma_width_grows(text: Seq<char>, i: int, j: int)
    requires
        0 <= i <= j <= text.len(),
    ensures
        width(text.take(i)) <= width(text.take(j)),
    decreases j - i,
{
    if i < j {
        lemma_width_grows(text, i, j - 1);
        lemma_width_step(text, j - 1);
    }
}

/// The longest beginning of a text that leaves room for the mark, and the mark.
pub open spec fn cut_text(text: Seq<char>, max_bytes: nat, cut: Seq<char>) -> bool {
    exists|n: int|
        0 <= n < text.len() && cut == (#[trigger] text.take(n)) + "…"@ && width(text.take(n))
            + ELLIPSIS_BYTES <= max_bytes < width(text.take(n + 1)) + ELLIPSIS_BYTES
}

/// A text bounded for diagnostics: as it is shown where that fits, and cut otherwise.
pub open spec fn bounded(value: Seq<char>, max_bytes: nat, output: Seq<char>) -> bool {
    if width(shown(value)) <= max_bytes {
        output == shown(value)
    } else {
        cut_text(shown(value), max_bytes, output)
    }
}

fn show_char(c: char) -> (output: char)
    ensures
        output == shown_char(c),
{
    if c as u32 <= 0x1f || (0x7f <= c as u32 && c as u32 <= 0x9f) {
        ' '
    } else {
        c
    }
}

/// Bounds a text for diagnostics. The bound has to leave room for the mark of a cut.
pub fn bounded_cleanup_diagnostic(value: &str, max_bytes: usize) -> (output: String)
    requires
        max_bytes >= ELLIPSIS_BYTES || width(shown(value@)) <= max_bytes,
    ensures
        bounded(value@, max_bytes as nat, output@),
        width(output@) <= max_bytes,
{
    let chars = chars_of(value);
    let ghost all = shown(value@);
    let count: usize = chars.len();
    let mut kept: usize = 0;
    let mut used: usize = 0;
    let mut truncated = false;
    assert(all.take(0) =~= Seq::<char>::empty());
    while kept < count
        invariant_except_break
            !truncated,
        invariant
            chars@ == value@,
            all == shown(value@),
            count == chars@.len(),
            kept <= count,
            used == width(all.take(kept as int)),
            used <= max_bytes,
        ensures
            truncated ==> kept < count && width(all.take(kept + 1)) > max_bytes,
            !truncated ==> kept == count,
        decreases count - kept,
    {
        let c = show_char(chars[kept]);
        proof {
            assert(all[kept as int] == c);
            lemma_width_step(all, kept as int);
        }
        let bytes: usize = width_of(c);
        if bytes > max_bytes - used {
            truncated = true;
            break;
        }
        used = used + bytes;
        kept = kept + 1;
    }
    assert(all.take(all.len() as int) =~= all);
    if truncated {
        proof {
            lemma_width_grows(all, kept + 1, all.len() as int);
            assert(width(all) > max_bytes);
        }
        while max_bytes - used < ELLIPSIS_BYTES
            invariant
                chars@ == value@,
                all == shown(value@),
                count == chars@.len(),
                kept < count,
                used == width(all.take(kept as int)),
                used <= max_bytes,
                max_bytes >= ELLIPSIS_BYTES,
                max_bytes < width(all.take(kept + 1)) + ELLIPSIS_BYTES,
            decreases kept,
        {
            if kept == 0 {
                assert(all.take(0) =~= Seq::<char>::empty());
                assert(false);
            }
            let c = show_char(chars[kept - 1]);
            proof {
                assert(all[kept - 1] == c);
                lemma_width_step(all, kept - 1);
            }
            let bytes: usize = width_of(c);
            kept = kept - 1;
            used = used - bytes;
        }
    }
    let mut output = String::new();
    let mut i: usize = 0;
    assert(output@ =~= all.take(0));
    while i < kept
        invariant
            chars@ == value@,
            all == shown(value@),
            count == chars@.len(),
            i <= kept <= count,
            output@ == all.take(i as int),
        decreases kept - i,
    {
        let c = show_char(chars[i]);
        assert(all[i as int] == c);
        output.push(c);
        assert(all.take(i + 1) =~= all.take(i as int).push(c));
        i = i + 1;
    }
    if truncated {
        output.push('…');
        proof {
            reveal_strlit("…");
            assert("…"@ =~= seq!['…']);
            assert(output@ =~= all.take(kept as int) + "…"@);
            lemma_encode_concat(all.take(kept as int), "…"@);
            lemma_char_width('…');
            assert(cut_text(all, max_bytes as nat, output@));
        }
    }
    output
}

/// A path that is not a path beneath the root.
pub open spec fn leaves_root(path: Seq<Part>) -> bool {
    exists|i: int|
        0 <= i < path.len() && (#[trigger] path[i] == Part::RootDir || path[i] == Part::ParentDir)
}

/// The path of a diagnostic: never one that leaves the root, and bounded.
pub open spec fn diagnostic_path(path: Seq<u8>, output: Seq<char>) -> bool {
    if leaves_root(parts(path)) {
        output == "<invalid-capability-relative-path>"@
    } else {
        bounded(
            lossy_text(path),
            STALE_CLEANUP_DIAGNOSTIC_PATH_MAX_BYTES as nat,
            output,
        )
    }
}

pub fn bounded_relative_cleanup_path(path: &[u8]) -> (output: String)
    ensures
        diagnostic_path(path@, output@),
{
    let found = components(path);
    let ghost all = parts(path@);
    let mut i: usize = 0;
    while i < found.len()
        invariant
            i <= found@.len(),
            component_views(found@) == all,
            all == parts(path@),
            forall|j: int|
                0 <= j < i ==> !(#[trigger] all[j] == Part::RootDir || all[j] == Part::ParentDir),
        decreases found.len() - i,
    {
        assert(all[i as int] == found@[i as int].view());
        match &found[i] {
            Component::RootDir | Component::ParentDir => {
                assert(leaves_root(all));
                return "<invalid-capability-relative-path>".to_owned();
            },
            _ => {},
        }
        i = i + 1;
    }
    assert(all.len() == found@.len());
    assert(!leaves_root(all));
    let text = lossy(path);
    bounded_cleanup_diagnostic(text.as_str(), STALE_CLEANUP_DIAGNOSTIC_PATH_MAX_BYTES)
}

/// A bounded text never exceeds its bound, and holds no control character.
pub proof fn law_diagnostics_are_bounded(value: Seq<char>, max_bytes: nat, output: Seq<char>)
    requires
        bounded(value, max_bytes, output),
    ensures
        width(output) <= max_bytes,
        forall|i: int|
            0 <= i < output.len() ==> {
                let code = #[trigger] output[i] as u32;
                code > 0x1f && !(0x7f <= code && code <= 0x9f)
            },
{
    reveal_strlit("…");
    let all = shown(value);
    if width(all) > max_bytes {
        let n = choose|n: int|
            0 <= n < all.len() && output == (#[trigger] all.take(n)) + "…"@ && width(all.take(n))
                + ELLIPSIS_BYTES <= max_bytes < width(all.take(n + 1)) + ELLIPSIS_BYTES;
        assert("…"@ =~= seq!['…']);
        lemma_encode_concat(all.take(n), "…"@);
        lemma_char_width('…');
        assert forall|i: int| 0 <= i < output.len() implies {
            let code = #[trigger] output[i] as u32;
            code > 0x1f && !(0x7f <= code && code <= 0x9f)
        } by {
            if i < n {
                assert(output[i] == all[i]);
            } else {
                assert(output[i] == '…');
            }
        }
    }
}

// ---------------------------------------------------------------------------------------------
// The report
// ---------------------------------------------------------------------------------------------

#[derive(Clone, Copy, Debug, PartialEq, Eq, Structural)]
pub struct StaleUploadCleanupLimits {
    pub min_age: Duration,
    pub max_entries: usize,
    pub max_depth: usize,
    pub max_deletions: usize,
    pub timeout: Duration,
}

/// What was being done when a failure came.
#[derive(Clone, Copy, Debug, PartialEq, Eq, Structural)]
pub enum StaleUploadCleanupStage {
    ReadDirectory,
    ReadDirectoryEntry,
    InspectEntry,
    OpenDirectory,
    ReadDirectoryMetadata,
    OpenCandidate,
    ReadCandidateMetadata,
    LockCandidate,
    RecheckCandidate,
    UnlinkCandidate,
    SyncParent { stage: DurabilityStage },
}

pub open spec fn cleanup_stage_text(stage: StaleUploadCleanupStage) -> Seq<char> {
    match stage {
        StaleUploadCleanupStage::ReadDirectory => "read-directory"@,
        StaleUploadCleanupStage::ReadDirectoryEntry => "read-directory-entry"@,
        StaleUploadCleanupStage::InspectEntry => "inspect-entry"@,
        StaleUploadCleanupStage::OpenDirectory => "open-directory"@,
        StaleUploadCleanupStage::ReadDirectoryMetadata => "read-directory-metadata"@,
        StaleUploadCleanupStage::OpenCandidate => "open-candidate"@,
        StaleUploadCleanupStage::ReadCandidateMetadata => "read-candidate-metadata"@,
        StaleUploadCleanupStage::LockCandidate => "lock-candidate"@,
        StaleUploadCleanupStage::RecheckCandidate => "recheck-candidate"@,
        StaleUploadCleanupStage::UnlinkCandidate => "unlink-candidate"@,
        StaleUploadCleanupStage::SyncParent { stage } => "sync-parent("@ + stage_text(stage)
            + ")"@,
    }
}

impl StaleUploadCleanupStage {
    pub fn describe(self) -> (text: String)
        ensures
            text@ == cleanup_stage_text(self),
    {
        match self {
            StaleUploadCleanupStage::ReadDirectory => "read-directory".to_owned(),
            StaleUploadCleanupStage::ReadDirectoryEntry => "read-directory-entry".to_owned(),
            StaleUploadCleanupStage::InspectEntry => "inspect-entry".to_owned(),
            StaleUploadCleanupStage::OpenDirectory => "open-directory".to_owned(),
            StaleUploadCleanupStage::ReadDirectoryMetadata => {
                "read-directory-metadata".to_owned()
            },
            StaleUploadCleanupStage::OpenCandidate => "open-candidate".to_owned(),
            StaleUploadCleanupStage::ReadCandidateMetadata => {
                "read-candidate-metadata".to_owned()
            },
            StaleUploadCleanupStage::LockCandidate => "lock-candidate".to_owned(),
            StaleUploadCleanupStage::RecheckCandidate => "recheck-candidate".to_owned(),
            StaleUploadCleanupStage::UnlinkCandidate => "unlink-candidate".to_owned(),
            StaleUploadCleanupStage::SyncParent { stage } => text3(
                "sync-parent(",
                stage.describe(),
                ")",
            ),
        }
    }
}

/// One failure as it is reported.
#[derive(Debug)]
pub struct StaleUploadCleanupFailure {
    pub stage: StaleUploadCleanupStage,
    pub relative_path: String,
    pub cause: String,
}

/// What a scan did and what it left undone.
#[derive(Debug)]
pub struct StaleUploadCleanupReport {
    pub scanned_entries: usize,
    pub deleted: usize,
    pub skipped_active: usize,
    pub skipped_young: usize,
    pub skipped_unsafe: usize,
    pub failures: usize,
    pub failure_diagnostics: Vec<StaleUploadCleanupFailure>,
    pub suppressed_failures: usize,
    pub entry_limit_reached: bool,
    pub depth_limit_reached: bool,
    pub deletion_limit_reached: bool,
    pub deadline_reached: bool,
}

/// One more, up to the largest number.
pub open spec fn one_more(n: usize) -> usize {
    if n == usize::MAX {
        n
    } else {
        (n + 1) as usize
    }
}

fn more(n: usize) -> (m: usize)
    ensures
        m == one_more(n),
{
    if n == usize::MAX {
        n
    } else {
        n + 1
    }
}

impl StaleUploadCleanupReport {
    /// Only the first failures are kept with their details; all of them are counted.
    pub open spec fn wf(self) -> bool {
        &&& self.failure_diagnostics@.len() <= STALE_CLEANUP_DIAGNOSTIC_LIMIT
        &&& self.suppressed_failures > 0 ==> self.failure_diagnostics@.len()
            == STALE_CLEANUP_DIAGNOSTIC_LIMIT
        &&& self.failures < usize::MAX ==> self.failures == self.failure_diagnostics@.len()
            + self.suppressed_failures
        &&& self.failures == 0 ==> self.failure_diagnostics@.len() == 0
    }

    /// Nothing was left undone.
    pub open spec fn complete(self) -> bool {
        &&& self.failures == 0
        &&& self.skipped_unsafe == 0
        &&& !self.entry_limit_reached
        &&& !self.depth_limit_reached
        &&& !self.deletion_limit_reached
        &&& !self.deadline_reached
    }

    /// A report of which nothing has been counted yet.
    pub open spec fn blank(self) -> bool {
        &&& self.complete()
        &&& self.scanned_entries == 0
        &&& self.deleted == 0
        &&& self.skipped_active == 0
        &&& self.skipped_young == 0
        &&& self.suppressed_failures == 0
        &&& self.failure_diagnostics@.len() == 0
    }

    pub fn empty() -> (report: StaleUploadCleanupReport)
        ensures
            report.wf(),
            report.blank(),
    {
        StaleUploadCleanupReport {
            scanned_entries: 0,
            deleted: 0,
            skipped_active: 0,
            skipped_young: 0,
            skipped_unsafe: 0,
            failures: 0,
            failure_diagnostics: Vec::new(),
            suppressed_failures: 0,
            entry_limit_reached: false,
            depth_limit_reached: false,
            deletion_limit_reached: false,
            deadline_reached: false,
        }
    }

    pub fn is_complete(&self) -> (complete: bool)
        ensures
            complete == self.complete(),
    {
        self.failures == 0 && self.skipped_unsafe == 0 && !self.entry_limit_reached
            && !self.depth_limit_reached && !self.deletion_limit_reached && !self.deadline_reached
    }

    /// The report with other counts than those of failures left as they were.
    pub open spec fn same_counts(self, other: StaleUploadCleanupReport) -> bool {
        &&& self.scanned_entries == other.scanned_entries
        &&& self.deleted == other.deleted
        &&& self.skipped_active == other.skipped_active
        &&& self.skipped_young == other.skipped_young
        &&& self.skipped_unsafe == other.skipped_unsafe
        &&& self.entry_limit_reached == other.entry_limit_reached
        &&& self.depth_limit_reached == other.depth_limit_reached
        &&& self.deletion_limit_reached == other.deletion_limit_reached
        &&& self.deadline_reached == other.deadline_reached
    }

    /// The report with one more failure.
    pub open spec fn failed_at(
        self,
        before: StaleUploadCleanupReport,
        stage: StaleUploadCleanupStage,
        path: Seq<u8>,
        cause: Seq<char>,
    ) -> bool {
        &&& self.same_counts(before)
        &&& self.failures == one_more(before.failures)
        &&& if before.failure_diagnostics@.len() >= STALE_CLEANUP_DIAGNOSTIC_LIMIT {
            &&& self.suppressed_failures == one_more(before.suppressed_failures)
            &&& self.failure_diagnostics == before.failure_diagnostics
        } else {
            &&& self.suppressed_failures == before.suppressed_failures
            &&& self.failure_diagnostics@.drop_last() == before.failure_diagnostics@
            &&& self.failure_diagnostics@.len() == before.failure_diagnostics@.len() + 1
            &&& self.failure_diagnostics@.last().stage == stage
            &&& diagnostic_path(path, self.failure_diagnostics@.last().relative_path@)
            &&& bounded(
                cause,
                STALE_CLEANUP_DIAGNOSTIC_CAUSE_MAX_BYTES as nat,
                self.failure_diagnostics@.last().cause@,
            )
        }
    }

    /// Records a failure. `system` is what the system says of its own errors.
    pub fn record_failure(
        &mut self,
        stage: StaleUploadCleanupStage,
        relative_path: &[u8],
        error: AnyError,
        system: &str,
    )
        requires
            old(self).wf(),
            error@.valid(),
        ensures
            final(self).wf(),
            final(self).failed_at(
                *old(self),
                stage,
                relative_path@,
                error@.chain_text(system@),
            ),
    {
        self.failures = more(self.failures);
        if self.failure_diagnostics.len() >= STALE_CLEANUP_DIAGNOSTIC_LIMIT {
            self.suppressed_failures = more(self.suppressed_failures);
            return;
        }
        let cause = error.describe_chain(system);
        let ghost before = self.failure_diagnostics@;
        self.failure_diagnostics.push(
            StaleUploadCleanupFailure {
                stage,
                relative_path: bounded_relative_cleanup_path(relative_path),
                cause: bounded_cleanup_diagnostic(
                    cause.as_str(),
                    STALE_CLEANUP_DIAGNOSTIC_CAUSE_MAX_BYTES,
                ),
            },
        );
        assert(self.failure_diagnostics@.drop_last() =~= before);
    }

    /// The report with one entry more that was not touched because it is not safe to.
    pub open spec fn unsafe_more(self, before: StaleUploadCleanupReport) -> bool {
        self == (StaleUploadCleanupReport {
            skipped_unsafe: one_more(before.skipped_unsafe),
            ..before
        })
    }
}

// ---------------------------------------------------------------------------------------------
// The scan
// ---------------------------------------------------------------------------------------------

/// A moment, counted from the epoch.
#[derive(Clone, Copy, Debug, PartialEq, Eq, Structural)]
pub struct Timestamp {
    pub secs: i64,
    pub nanos: u32,
}

impl Timestamp {
    pub open spec fn total_nanos(self) -> int {
        self.secs as int * 1_000_000_000 + self.nanos as int
    }
}

/// What the scan waits for.
#[derive(Debug)]
pub enum StalePhase {
    /// The next entry of the innermost directory.
    Reading,
    /// What the entry is.
    Inspecting { name: Vec<u8> },
    /// The candidate, opened.
    OpeningCandidate { rel: Vec<u8> },
    LockingCandidate { rel: Vec<u8>, dev: u64, ino: u64 },
    RecheckingCandidate { rel: Vec<u8>, dev: u64, ino: u64 },
    UnlinkingCandidate { rel: Vec<u8> },
    SyncingParent { rel: Vec<u8> },
    /// The directory, opened.
    Opening { rel: Vec<u8> },
    Finished,
}

/// A scan for stale candidates.
pub struct StaleUploadCleanupState {
    pub limits: StaleUploadCleanupLimits,
    pub now: Timestamp,
    pub service_uid: u32,
    pub visited_directories: DirectorySet,
    pub report: StaleUploadCleanupReport,
    /// The paths of the directories being read, outermost first.
    pub frames: Vec<Vec<u8>>,
    pub phase: StalePhase,
}

/// What was read from a directory. `system` is what the system says of its own errors.
#[derive(Debug)]
pub enum StaleEntry {
    Unreadable { error: AnyError, system: String },
    End,
    Failed { error: AnyError, system: String },
    Name { name: Vec<u8> },
}

/// What the caller does next.
#[derive(Clone, Copy, Debug, PartialEq, Eq, Structural)]
pub enum StaleStep {
    /// Read the next entry of the innermost directory.
    Read,
    /// Leave the innermost directory and read on in the one around it.
    Leave,
    /// Look at the entry.
    Inspect,
    /// Open the entry as a candidate.
    OpenCandidate,
    LockCandidate,
    RecheckCandidate,
    UnlinkCandidate,
    SyncParent,
    /// Open the entry as a directory.
    OpenDirectory,
    /// Read the opened directory.
    Descend,
    Finished,
}

/// What opening a candidate gave.
#[allow(inconsistent_fields)]
#[derive(Debug)]
pub enum OpenedCandidate {
    Unopened { failure: OsFailure, system: String },
    Unread { error: AnyError, system: String },
    Opened { metadata: Metadata, modified: Option<Timestamp> },
}

/// A candidate that nothing else could have made: a regular file with one name, readable and
/// writable by the server alone.
pub open spec fn is_private(metadata: Metadata, service_uid: u32) -> bool {
    &&& metadata.spec_is_file()
    &&& metadata.nlink == 1
    &&& metadata.mode & 0o7777 == 0o600
    &&& metadata.uid == service_uid
}

pub fn private_candidate(metadata: &Metadata, service_uid: u32) -> (private: bool)
    ensures
        private == is_private(*metadata, service_uid),
{
    metadata.is_file() && metadata.nlink == 1 && metadata.mode & 0o7777 == 0o600 && metadata.uid
        == service_uid
}

/// How old a file is, where its time does not lie ahead.
pub open spec fn age_of(now: Timestamp, modified: Option<Timestamp>) -> Option<int> {
    match modified {
        Some(then) => if then.total_nanos() <= now.total_nanos() {
            Some(now.total_nanos() - then.total_nanos())
        } else {
            None
        },
        None => None,
    }
}

/// What is decided about an opened candidate.
#[derive(Clone, Copy, Debug, PartialEq, Eq, Structural)]
pub enum CandidateVerdict {
    Unsafe,
    Young,
    Stale,
}

pub open spec fn candidate_verdict(
    metadata: Metadata,
    modified: Option<Timestamp>,
    now: Timestamp,
    service_uid: u32,
    min_age: Duration,
) -> CandidateVerdict {
    if !is_private(metadata, service_uid) {
        CandidateVerdict::Unsafe
    } else {
        match age_of(now, modified) {
            None => CandidateVerdict::Unsafe,
            Some(age) => if age < min_age.total_nanos() {
                CandidateVerdict::Young
            } else {
                CandidateVerdict::Stale
            },
        }
    }
}

pub fn judge_candidate(
    metadata: &Metadata,
    modified: Option<Timestamp>,
    now: Timestamp,
    service_uid: u32,
    min_age: Duration,
) -> (verdict: CandidateVerdict)
    ensures
        verdict == candidate_verdict(*metadata, modified, now, service_uid, min_age),
{
    if !private_candidate(metadata, service_uid) {
        return CandidateVerdict::Unsafe;
    }
    let then = match modified {
        Some(then) => then,
        None => {
            return CandidateVerdict::Unsafe;
        },
    };
    let then_nanos: i128 = then.secs as i128 * 1_000_000_000 + then.nanos as i128;
    let now_nanos: i128 = now.secs as i128 * 1_000_000_000 + now.nanos as i128;
    if then_nanos > now_nanos {
        return CandidateVerdict::Unsafe;
    }
    let min_nanos: i128 = min_age.secs as i128 * 1_000_000_000 + min_age.nanos as i128;
    if now_nanos - then_nanos < min_nanos {
        CandidateVerdict::Young
    } else {
        CandidateVerdict::Stale
    }
}

/// Why a scan stops before an entry.
#[derive(Clone, Copy, Debug, PartialEq, Eq, Structural)]
pub enum ScanLimit {
    Deadline,
    Entries,
    Deletions,
}

impl StaleUploadCleanupState {
    pub open spec fn wf(self) -> bool {
        &&& self.report.wf()
        &&& (self.phase is Finished || self.frames@.len() > 0)
        &&& self.frames@.len() <= self.limits.max_depth + 1
        &&& (self.phase is Opening ==> self.frames@.len() <= self.limits.max_depth)
        &&& self.report.scanned_entries <= self.limits.max_entries
        &&& self.report.deleted <= self.limits.max_deletions
        &&& (self.at_candidate() ==> self.report.deleted < self.limits.max_deletions)
    }

    /// An entry was read and may turn out to be removed.
    pub open spec fn at_candidate(self) -> bool {
        ||| self.phase is Inspecting
        ||| self.phase is OpeningCandidate
        ||| self.phase is LockingCandidate
        ||| self.phase is RecheckingCandidate
        ||| self.phase is UnlinkingCandidate
    }

    pub open spec fn same_scan(self, other: StaleUploadCleanupState) -> bool {
        self.limits == other.limits && self.now == other.now && self.service_uid
            == other.service_uid
    }

    /// The first limit that is used up.
    pub open spec fn used_up(self, deadline_reached: bool) -> Option<ScanLimit> {
        if deadline_reached {
            Some(ScanLimit::Deadline)
        } else if self.report.scanned_entries >= self.limits.max_entries {
            Some(ScanLimit::Entries)
        } else if self.report.deleted >= self.limits.max_deletions {
            Some(ScanLimit::Deletions)
        } else {
            None
        }
    }

    /// Starts at the root.
    pub fn cleanup_stale_uploads(
        limits: StaleUploadCleanupLimits,
        now: Timestamp,
        service_uid: u32,
        root: &Metadata,
    ) -> (state: StaleUploadCleanupState)
        ensures
            state.wf(),
            state.limits == limits,
            state.now == now,
            state.service_uid == service_uid,
            state.visited_directories.view() == Set::<(u64, u64)>::empty().insert(root.identity()),
            state.report.blank(),
            state.frames@.len() == 1,
            state.frames@[0]@.len() == 0,
            state.phase is Reading,
    {
        let mut visited_directories = DirectorySet::new();
        let _fresh = visited_directories.insert(root.dev, root.ino);
        let mut frames: Vec<Vec<u8>> = Vec::new();
        frames.push(Vec::new());
        StaleUploadCleanupState {
            limits,
            now,
            service_uid,
            visited_directories,
            report: StaleUploadCleanupReport::empty(),
            frames,
            phase: StalePhase::Reading,
        }
    }

    /// The step after reading an entry of a directory.
    pub open spec fn has_taken(
        before: StaleUploadCleanupState,
        after: StaleUploadCleanupState,
        deadline_reached: bool,
        entry: StaleEntry,
        step: StaleStep,
    ) -> bool {
        &&& after.wf()
        &&& after.same_scan(before)
        &&& after.visited_directories == before.visited_directories
        &&& match entry {
            StaleEntry::Unreadable { error, system } => {
                &&& step == StaleStep::Finished
                &&& after.phase is Finished
                &&& after.frames == before.frames
                &&& after.report.failed_at(
                    before.report,
                    StaleUploadCleanupStage::ReadDirectory,
                    before.frames@.last()@,
                    error@.chain_text(system@),
                )
            },
            StaleEntry::End => {
                &&& after.frames@ == before.frames@.drop_last()
                &&& after.report == before.report
                &&& if before.frames@.len() == 1 {
                    step == StaleStep::Finished && after.phase is Finished
                } else {
                    step == StaleStep::Leave && after.phase is Reading
                }
            },
            _ => match before.used_up(deadline_reached) {
                Some(limit) => {
                    &&& step == StaleStep::Finished
                    &&& after.phase is Finished
                    &&& after.frames == before.frames
                    &&& after.report == (match limit {
                        ScanLimit::Deadline => StaleUploadCleanupReport {
                            deadline_reached: true,
                            ..before.report
                        },
                        ScanLimit::Entries => StaleUploadCleanupReport {
                            entry_limit_reached: true,
                            ..before.report
                        },
                        ScanLimit::Deletions => StaleUploadCleanupReport {
                            deletion_limit_reached: true,
                            ..before.report
                        },
                    })
                },
                None => match entry {
                    StaleEntry::Failed { error, system } => {
                        &&& step == StaleStep::Finished
                        &&& after.phase is Finished
                        &&& after.frames == before.frames
                        &&& after.report.failed_at(
                            before.report,
                            StaleUploadCleanupStage::ReadDirectoryEntry,
                            before.frames@.last()@,
                            error@.chain_text(system@),
                        )
                    },
                    StaleEntry::Name { name } => {
                        let counted = StaleUploadCleanupReport {
                            scanned_entries: one_more(before.report.scanned_entries),
                            ..before.report
                        };
                        &&& after.frames == before.frames
                        &&& if is_dots(name@) {
                            &&& step == StaleStep::Read
                            &&& after.phase is Reading
                            &&& after.report == before.report
                        } else if basename_fault(name@) is Some {
                            &&& step == StaleStep::Read
                            &&& after.phase is Reading
                            &&& after.report.unsafe_more(counted)
                        } else {
                            &&& step == StaleStep::Inspect
                            &&& after.phase matches StalePhase::Inspecting { name: kept }
                                && kept@ == name@
                            &&& after.report == counted
                        }
                    },
                    _ => false,
                },
            },
        }
    }

    /// Takes what was read from the innermost directory. A directory that cannot be read, or a
    /// limit that is used up, ends the whole scan.
    pub fn next_entry(&mut self, deadline_reached: bool, entry: StaleEntry) -> (step: StaleStep)
        requires
            old(self).wf(),
            old(self).phase is Reading,
            entry matches StaleEntry::Unreadable { error, .. } ==> error@.valid(),
            entry matches StaleEntry::Failed { error, .. } ==> error@.valid(),
        ensures
            StaleUploadCleanupState::has_taken(*old(self), *final(self), deadline_reached, entry, step),
    {
        let n: usize = self.frames.len();
        match entry {
            StaleEntry::Unreadable { error, system } => {
                self.report.record_failure(
                    StaleUploadCleanupStage::ReadDirectory,
                    self.frames[n - 1].as_slice(),
                    error,
                    system.as_str(),
                );
                self.phase = StalePhase::Finished;
                return StaleStep::Finished;
            },
            StaleEntry::End => {
                let _left = self.frames.pop();
                if n == 1 {
                    self.phase = StalePhase::Finished;
                    return StaleStep::Finished;
                }
                return StaleStep::Leave;
            },
            _ => {},
        }
        if deadline_reached {
            self.report.deadline_reached = true;
            self.phase = StalePhase::Finished;
            return StaleStep::Finished;
        }
        if self.report.scanned_entries >= self.limits.max_entries {
            self.report.entry_limit_reached = true;
            self.phase = StalePhase::Finished;
            return StaleStep::Finished;
        }
        if self.report.deleted >= self.limits.max_deletions {
            self.report.deletion_limit_reached = true;
            self.phase = StalePhase::Finished;
            return StaleStep::Finished;
        }
        match entry {
            StaleEntry::Failed { error, system } => {
                self.report.record_failure(
                    StaleUploadCleanupStage::ReadDirectoryEntry,
                    self.frames[n - 1].as_slice(),
                    error,
                    system.as_str(),
                );
                self.phase = StalePhase::Finished;
                StaleStep::Finished
            },
            StaleEntry::Name { name } => {
                if names_itself(name.as_slice()) {
                    return StaleStep::Read;
                }
                self.report.scanned_entries = more(self.report.scanned_entries);
                match validate_basename(name.as_slice()) {
                    Ok(()) => {},
                    Err(_) => {
                        self.report.skipped_unsafe = more(self.report.skipped_unsafe);
                        return StaleStep::Read;
                    },
                }
                self.phase = StalePhase::Inspecting { name };
                StaleStep::Inspect
            },
            _ => {
                assert(false);
                StaleStep::Finished
            },
        }
    }

    /// The step after looking at an entry.
    pub open spec fn has_inspected(
        before: StaleUploadCleanupState,
        after: StaleUploadCleanupState,
        stat: Result<Metadata, OsFailure>,
        system: Seq<char>,
        is_candidate: bool,
        step: StaleStep,
    ) -> bool {
        &&& after.wf()
        &&& after.same_scan(before)
        &&& after.frames == before.frames
        &&& after.visited_directories == before.visited_directories
        &&& before.phase matches StalePhase::Inspecting { name } && ({
            let rel = joined(before.frames@.last()@, name@);
            match stat {
                Err(failure) => {
                    &&& step == StaleStep::Read
                    &&& after.phase is Reading
                    &&& if failure.errno == Errno::NoEnt {
                        after.report == before.report
                    } else {
                        after.report.failed_at(
                            before.report,
                            StaleUploadCleanupStage::InspectEntry,
                            rel,
                            failure.fault().chain_text(system),
                        )
                    }
                },
                Ok(metadata) => if is_candidate && metadata.spec_is_file() {
                    &&& step == StaleStep::OpenCandidate
                    &&& after.phase matches StalePhase::OpeningCandidate { rel: kept }
                        && kept@ == rel
                    &&& after.report == before.report
                } else {
                    let noted = if is_candidate {
                        StaleUploadCleanupReport {
                            skipped_unsafe: one_more(before.report.skipped_unsafe),
                            ..before.report
                        }
                    } else {
                        before.report
                    };
                    if !metadata.spec_is_dir() {
                        &&& step == StaleStep::Read
                        &&& after.phase is Reading
                        &&& after.report == noted
                    } else if before.frames@.len() > before.limits.max_depth {
                        &&& step == StaleStep::Read
                        &&& after.phase is Reading
                        &&& after.report == (StaleUploadCleanupReport {
                            depth_limit_reached: true,
                            ..noted
                        })
                    } else {
                        &&& step == StaleStep::OpenDirectory
                        &&& after.phase matches StalePhase::Opening { rel: kept } && kept@
                            == rel
                        &&& after.report == noted
                    }
                },
            }
        })
    }

    /// Takes what the entry is. `is_candidate` is whether its name is one that the server gives
    /// to private candidates. Links are looked at, never followed.
    pub fn inspected(
        &mut self,
        stat: Result<Metadata, OsFailure>,
        system: &str,
        is_candidate: bool,
    ) -> (step: StaleStep)
        requires
            old(self).wf(),
            old(self).phase is Inspecting,
        ensures
            StaleUploadCleanupState::has_inspected(*old(self), *final(self), stat, system@, is_candidate, step),
    {
        let mut phase = StalePhase::Reading;
        std::mem::swap(&mut phase, &mut self.phase);
        let name = match phase {
            StalePhase::Inspecting { name } => name,
            _ => {
                assert(false);
                Vec::new()
            },
        };
        let n: usize = self.frames.len();
        let rel = join(self.frames[n - 1].as_slice(), name.as_slice());
        let metadata = match stat {
            Ok(metadata) => metadata,
            Err(failure) => {
                if failure.errno == Errno::NoEnt {
                    return StaleStep::Read;
                }
                self.report.record_failure(
                    StaleUploadCleanupStage::InspectEntry,
                    rel.as_slice(),
                    failure.into_error(),
                    system,
                );
                return StaleStep::Read;
            },
        };
        if is_candidate {
            if metadata.is_file() {
                self.phase = StalePhase::OpeningCandidate { rel };
                return StaleStep::OpenCandidate;
            }
            self.report.skipped_unsafe = more(self.report.skipped_unsafe);
        }
        if !metadata.is_dir() {
            return StaleStep::Read;
        }
        if n - 1 >= self.limits.max_depth {
            self.report.depth_limit_reached = true;
            return StaleStep::Read;
        }
        self.phase = StalePhase::Opening { rel };
        StaleStep::OpenDirectory
    }

    /// The step after opening a directory.
    pub open spec fn has_opened(
        before: StaleUploadCleanupState,
        after: StaleUploadCleanupState,
        opened: bool,
        directory: Result<Metadata, AnyError>,
        system: Seq<char>,
        step: StaleStep,
    ) -> bool {
        &&& after.wf()
        &&& after.same_scan(before)
        &&& after.phase is Reading
        &&& before.phase matches StalePhase::Opening { rel } && match directory {
            Err(error) => {
                &&& step == StaleStep::Read
                &&& after.frames == before.frames
                &&& after.visited_directories == before.visited_directories
                &&& after.report.failed_at(
                    before.report,
                    if opened {
                        StaleUploadCleanupStage::ReadDirectoryMetadata
                    } else {
                        StaleUploadCleanupStage::OpenDirectory
                    },
                    rel@,
                    error@.chain_text(system),
                )
            },
            Ok(metadata) => {
                &&& after.report == before.report
                &&& after.visited_directories.view()
                    == before.visited_directories.view().insert(metadata.identity())
                &&& if before.visited_directories.view().contains(metadata.identity()) {
                    step == StaleStep::Read && after.frames == before.frames
                } else {
                    step == StaleStep::Descend && after.frames@.drop_last()
                        == before.frames@ && after.frames@.last()@ == rel@
                }
            },
        }
    }

    /// Takes what opening the directory gave. `opened` tells whether the open or the look at the
    /// opened directory failed.
    pub fn opened(&mut self, opened: bool, directory: Result<Metadata, AnyError>, system: &str) -> (step:
        StaleStep)
        requires
            old(self).wf(),
            old(self).phase is Opening,
            directory matches Err(error) ==> error@.valid(),
        ensures
            StaleUploadCleanupState::has_opened(*old(self), *final(self), opened, directory, system@, step),
    {
        let mut phase = StalePhase::Reading;
        std::mem::swap(&mut phase, &mut self.phase);
        let rel = match phase {
            StalePhase::Opening { rel } => rel,
            _ => {
                assert(false);
                Vec::new()
            },
        };
        match directory {
            Err(error) => {
                let stage = if opened {
                    StaleUploadCleanupStage::ReadDirectoryMetadata
                } else {
                    StaleUploadCleanupStage::OpenDirectory
                };
                self.report.record_failure(stage, rel.as_slice(), error, system);
                StaleStep::Read
            },
            Ok(metadata) => {
                if !self.visited_directories.insert(metadata.dev, metadata.ino) {
                    return StaleStep::Read;
                }
                let ghost frames = self.frames@;
                self.frames.push(rel);
                assert(self.frames@.drop_last() =~= frames);
                StaleStep::Descend
            },
        }
    }

    /// The step after opening a candidate.
    pub open spec fn has_opened_candidate(
        before: StaleUploadCleanupState,
        after: StaleUploadCleanupState,
        opened: OpenedCandidate,
        step: StaleStep,
    ) -> bool {
        &&& after.wf()
        &&& after.same_scan(before)
        &&& after.frames == before.frames
        &&& after.visited_directories == before.visited_directories
        &&& before.phase matches StalePhase::OpeningCandidate { rel } && match opened {
            OpenedCandidate::Unopened { failure, system } => {
                &&& step == StaleStep::Read
                &&& after.phase is Reading
                &&& if failure.errno == Errno::NoEnt {
                    after.report == before.report
                } else {
                    after.report.failed_at(
                        before.report,
                        StaleUploadCleanupStage::OpenCandidate,
                        rel@,
                        failure.fault().chain_text(system@),
                    )
                }
            },
            OpenedCandidate::Unread { error, system } => {
                &&& step == StaleStep::Read
                &&& after.phase is Reading
                &&& after.report.failed_at(
                    before.report,
                    StaleUploadCleanupStage::ReadCandidateMetadata,
                    rel@,
                    error@.chain_text(system@),
                )
            },
            OpenedCandidate::Opened { metadata, modified } => match candidate_verdict(
                metadata,
                modified,
                before.now,
                before.service_uid,
                before.limits.min_age,
            ) {
                CandidateVerdict::Unsafe => {
                    &&& step == StaleStep::Read
                    &&& after.phase is Reading
                    &&& after.report.unsafe_more(before.report)
                },
                CandidateVerdict::Young => {
                    &&& step == StaleStep::Read
                    &&& after.phase is Reading
                    &&& after.report == (StaleUploadCleanupReport {
                        skipped_young: one_more(before.report.skipped_young),
                        ..before.report
                    })
                },
                CandidateVerdict::Stale => {
                    &&& step == StaleStep::LockCandidate
                    &&& after.report == before.report
                    &&& after.phase matches StalePhase::LockingCandidate { rel: r, dev, ino }
                        && r@ == rel@ && (dev, ino) == metadata.identity()
                },
            },
        }
    }

    /// Takes what opening the candidate gave.
    pub fn candidate_opened(&mut self, opened: OpenedCandidate) -> (step: StaleStep)
        requires
            old(self).wf(),
            old(self).phase is OpeningCandidate,
            opened matches OpenedCandidate::Unread { error, .. } ==> error@.valid(),
        ensures
            StaleUploadCleanupState::has_opened_candidate(*old(self), *final(self), opened, step),
    {
        let mut phase = StalePhase::Reading;
        std::mem::swap(&mut phase, &mut self.phase);
        let rel = match phase {
            StalePhase::OpeningCandidate { rel } => rel,
            _ => {
                assert(false);
                Vec::new()
            },
        };
        match opened {
            OpenedCandidate::Unopened { failure, system } => {
                if failure.errno == Errno::NoEnt {
                    return StaleStep::Read;
                }
                self.report.record_failure(
                    StaleUploadCleanupStage::OpenCandidate,
                    rel.as_slice(),
                    failure.into_error(),
                    system.as_str(),
                );
                StaleStep::Read
            },
            OpenedCandidate::Unread { error, system } => {
                self.report.record_failure(
                    StaleUploadCleanupStage::ReadCandidateMetadata,
                    rel.as_slice(),
                    error,
                    system.as_str(),
                );
                StaleStep::Read
            },
            OpenedCandidate::Opened { metadata, modified } => {
                match judge_candidate(
                    &metadata,
                    modified,
                    self.now,
                    self.service_uid,
                    self.limits.min_age,
                ) {
                    CandidateVerdict::Unsafe => {
                        self.report.skipped_unsafe = more(self.report.skipped_unsafe);
                        StaleStep::Read
                    },
                    CandidateVerdict::Young => {
                        self.report.skipped_young = more(self.report.skipped_young);
                        StaleStep::Read
                    },
                    CandidateVerdict::Stale => {
                        self.phase = StalePhase::LockingCandidate {
                            rel,
                            dev: metadata.dev,
                            ino: metadata.ino,
                        };
                        StaleStep::LockCandidate
                    },
                }
            },
        }
    }

    /// The step after locking a candidate.
    pub open spec fn has_locked(
        before: StaleUploadCleanupState,
        after: StaleUploadCleanupState,
        outcome: Result<(), OsFailure>,
        system: Seq<char>,
        step: StaleStep,
    ) -> bool {
        &&& after.wf()
        &&& after.same_scan(before)
        &&& after.frames == before.frames
        &&& after.visited_directories == before.visited_directories
        &&& before.phase matches StalePhase::LockingCandidate { rel, dev, ino } && match outcome {
            Ok(()) => {
                &&& step == StaleStep::RecheckCandidate
                &&& after.report == before.report
                &&& after.phase matches StalePhase::RecheckingCandidate {
                    rel: r,
                    dev: d,
                    ino: i,
                } && r@ == rel@ && d == dev && i == ino
            },
            Err(failure) => {
                &&& step == StaleStep::Read
                &&& after.phase is Reading
                &&& if failure.errno == Errno::Again {
                    after.report == (StaleUploadCleanupReport {
                        skipped_active: one_more(before.report.skipped_active),
                        ..before.report
                    })
                } else {
                    after.report.failed_at(
                        before.report,
                        StaleUploadCleanupStage::LockCandidate,
                        rel@,
                        failure.fault().chain_text(system),
                    )
                }
            },
        }
    }

    /// Takes the outcome of locking the candidate. One that is locked is in use.
    pub fn candidate_locked(&mut self, outcome: Result<(), OsFailure>, system: &str) -> (step:
        StaleStep)
        requires
            old(self).wf(),
            old(self).phase is LockingCandidate,
        ensures
            StaleUploadCleanupState::has_locked(*old(self), *final(self), outcome, system@, step),
    {
        let mut phase = StalePhase::Reading;
        std::mem::swap(&mut phase, &mut self.phase);
        let (rel, dev, ino) = match phase {
            StalePhase::LockingCandidate { rel, dev, ino } => (rel, dev, ino),
            _ => {
                assert(false);
                (Vec::new(), 0, 0)
            },
        };
        match outcome {
            Ok(()) => {
                self.phase = StalePhase::RecheckingCandidate { rel, dev, ino };
                StaleStep::RecheckCandidate
            },
            Err(failure) => {
                if failure.errno == Errno::Again {
                    self.report.skipped_active = more(self.report.skipped_active);
                    return StaleStep::Read;
                }
                self.report.record_failure(
                    StaleUploadCleanupStage::LockCandidate,
                    rel.as_slice(),
                    failure.into_error(),
                    system,
                );
                StaleStep::Read
            },
        }
    }

    /// The step after the second look at a candidate.
    pub open spec fn has_rechecked(
        before: StaleUploadCleanupState,
        after: StaleUploadCleanupState,
        stat: Result<Metadata, OsFailure>,
        system: Seq<char>,
        step: StaleStep,
    ) -> bool {
        &&& after.wf()
        &&& after.same_scan(before)
        &&& after.frames == before.frames
        &&& after.visited_directories == before.visited_directories
        &&& before.phase matches StalePhase::RecheckingCandidate { rel, dev, ino } && match stat {
            Ok(metadata) => if metadata.identity() == (dev, ino) && metadata.spec_is_file() {
                &&& step == StaleStep::UnlinkCandidate
                &&& after.report == before.report
                &&& after.phase matches StalePhase::UnlinkingCandidate { rel: r } && r@
                    == rel@
            } else {
                &&& step == StaleStep::Read
                &&& after.phase is Reading
                &&& after.report.unsafe_more(before.report)
            },
            Err(failure) => {
                &&& step == StaleStep::Read
                &&& after.phase is Reading
                &&& if failure.errno == Errno::NoEnt {
                    after.report == before.report
                } else {
                    after.report.failed_at(
                        before.report,
                        StaleUploadCleanupStage::RecheckCandidate,
                        rel@,
                        failure.fault().chain_text(system),
                    )
                }
            },
        }
    }

    /// Takes a second look at the name, which has to stand for the opened object still.
    pub fn candidate_rechecked(&mut self, stat: Result<Metadata, OsFailure>, system: &str) -> (step:
        StaleStep)
        requires
            old(self).wf(),
            old(self).phase is RecheckingCandidate,
        ensures
            StaleUploadCleanupState::has_rechecked(*old(self), *final(self), stat, system@, step),
    {
        let mut phase = StalePhase::Reading;
        std::mem::swap(&mut phase, &mut self.phase);
        let (rel, dev, ino) = match phase {
            StalePhase::RecheckingCandidate { rel, dev, ino } => (rel, dev, ino),
            _ => {
                assert(false);
                (Vec::new(), 0, 0)
            },
        };
        match stat {
            Ok(metadata) => {
                if metadata.dev != dev || metadata.ino != ino || !metadata.is_file() {
                    self.report.skipped_unsafe = more(self.report.skipped_unsafe);
                    return StaleStep::Read;
                }
                self.phase = StalePhase::UnlinkingCandidate { rel };
                StaleStep::UnlinkCandidate
            },
            Err(failure) => {
                if failure.errno == Errno::NoEnt {
                    return StaleStep::Read;
                }
                self.report.record_failure(
                    StaleUploadCleanupStage::RecheckCandidate,
                    rel.as_slice(),
                    failure.into_error(),
                    system,
                );
                StaleStep::Read
            },
        }
    }

    /// The step after removing a candidate.
    pub open spec fn has_unlinked(
        before: StaleUploadCleanupState,
        after: StaleUploadCleanupState,
        outcome: Result<(), OsFailure>,
        system: Seq<char>,
        step: StaleStep,
    ) -> bool {
        &&& after.wf()
        &&& after.same_scan(before)
        &&& after.frames == before.frames
        &&& after.visited_directories == before.visited_directories
        &&& before.phase matches StalePhase::UnlinkingCandidate { rel } && match outcome {
            Ok(()) => {
                &&& step == StaleStep::SyncParent
                &&& after.phase matches StalePhase::SyncingParent { rel: r } && r@ == rel@
                &&& after.report == (StaleUploadCleanupReport {
                    deleted: one_more(before.report.deleted),
                    ..before.report
                })
            },
            Err(failure) => {
                &&& step == StaleStep::Read
                &&& after.phase is Reading
                &&& if failure.errno == Errno::NoEnt {
                    after.report == before.report
                } else {
                    after.report.failed_at(
                        before.report,
                        StaleUploadCleanupStage::UnlinkCandidate,
                        rel@,
                        typed_fault(
                            "unlinking a stale private candidate"@,
                            failure.fault(),
                        ).chain_text(system),
                    )
                }
            },
        }
    }

    /// Takes the outcome of removing the candidate.
    pub fn candidate_unlinked(&mut self, outcome: Result<(), OsFailure>, system: &str) -> (step:
        StaleStep)
        requires
            old(self).wf(),
            old(self).phase is UnlinkingCandidate,
        ensures
            StaleUploadCleanupState::has_unlinked(*old(self), *final(self), outcome, system@, step),
    {
        let mut phase = StalePhase::Reading;
        std::mem::swap(&mut phase, &mut self.phase);
        let rel = match phase {
            StalePhase::UnlinkingCandidate { rel } => rel,
            _ => {
                assert(false);
                Vec::new()
            },
        };
        match outcome {
            Ok(()) => {
                self.report.deleted = more(self.report.deleted);
                self.phase = StalePhase::SyncingParent { rel };
                StaleStep::SyncParent
            },
            Err(failure) => {
                if failure.errno == Errno::NoEnt {
                    return StaleStep::Read;
                }
                assert(failure.fault().valid());
                self.report.record_failure(
                    StaleUploadCleanupStage::UnlinkCandidate,
                    rel.as_slice(),
                    typed_filesystem_error(
                        "unlinking a stale private candidate",
                        failure.into_error(),
                    ),
                    system,
                );
                StaleStep::Read
            },
        }
    }

    /// The step after making a removal durable.
    pub open spec fn has_synced(
        before: StaleUploadCleanupState,
        after: StaleUploadCleanupState,
        outcome: Result<(), OsFailure>,
        system: Seq<char>,
        step: StaleStep,
    ) -> bool {
        &&& after.wf()
        &&& after.same_scan(before)
        &&& after.frames == before.frames
        &&& after.visited_directories == before.visited_directories
        &&& step == StaleStep::Read
        &&& after.phase is Reading
        &&& before.phase matches StalePhase::SyncingParent { rel } && match outcome {
            Ok(()) => after.report == before.report,
            Err(failure) => after.report.failed_at(
                before.report,
                StaleUploadCleanupStage::SyncParent {
                    stage: DurabilityStage::RemovedEntryParent,
                },
                rel@,
                undurable(
                    DurabilityStage::RemovedEntryParent,
                    true,
                    failure.fault(),
                ).chain_text(system),
            ),
        }
    }

    /// Takes the outcome of making the removal durable. The candidate has gone either way.
    pub fn candidate_synced(&mut self, outcome: Result<(), OsFailure>, system: &str) -> (step:
        StaleStep)
        requires
            old(self).wf(),
            old(self).phase is SyncingParent,
        ensures
            StaleUploadCleanupState::has_synced(*old(self), *final(self), outcome, system@, step),
    {
        let mut phase = StalePhase::Reading;
        std::mem::swap(&mut phase, &mut self.phase);
        let rel = match phase {
            StalePhase::SyncingParent { rel } => rel,
            _ => {
                assert(false);
                Vec::new()
            },
        };
        match outcome {
            Ok(()) => {},
            Err(failure) => {
                assert(failure.fault().valid());
                self.report.record_failure(
                    StaleUploadCleanupStage::SyncParent {
                        stage: DurabilityStage::RemovedEntryParent,
                    },
                    rel.as_slice(),
                    durability_error(
                        DurabilityStage::RemovedEntryParent,
                        true,
                        failure.into_error(),
                    ),
                    system,
                );
            },
        }
        StaleStep::Read
    }
}

/// Whatever a scan meets, it stays within its limits: it looks at no more entries, removes no more
/// candidates and goes no deeper than it may.
pub proof fn law_scans_stay_within_their_limits(state: StaleUploadCleanupState)
    requires
        state.wf(),
    ensures
        state.report.scanned_entries <= state.limits.max_entries,
        state.report.deleted <= state.limits.max_deletions,
        state.frames@.len() <= state.limits.max_depth + 1,
{
}

/// Nothing but a private, old enough candidate is ever locked for removal.
pub proof fn law_only_stale_private_files_are_removed(
    metadata: Metadata,
    modified: Option<Timestamp>,
    now: Timestamp,
    service_uid: u32,
    min_age: Duration,
)
    requires
        candidate_verdict(metadata, modified, now, service_uid, min_age)
            == CandidateVerdict::Stale,
    ensures
        metadata.spec_is_file(),
        metadata.nlink == 1,
        metadata.mode & 0o7777 == 0o600,
        metadata.uid == service_uid,
        modified matches Some(then) && now.total_nanos() - then.total_nanos()
            >= min_age.total_nanos(),
{
}

// ---------------------------------------------------------------------------------------------
// Health
// ---------------------------------------------------------------------------------------------

pub open spec fn recovery_fault() -> Fault {
    in_context(
        Fault::Admission {
            error: (AdmissionError::Cancelled { resource: AdmissionResource::Uploads }),
        },
        "private-candidate creation is disabled because a recovery scan was incomplete"@,
    )
}

pub fn candidate_recovery_unavailable() -> (error: AnyError)
    ensures
        error@ == recovery_fault(),
{
    AnyError::admission(AdmissionError::cancelled(AdmissionResource::Uploads)).context(
        "private-candidate creation is disabled because a recovery scan was incomplete",
    )
}

/// Whether all scans so far were complete. Once one was not, no later scan makes up for it.
#[derive(Clone, Copy, Debug, PartialEq, Eq, Structural)]
pub struct RecoveryHealth {
    pub healthy: bool,
}

impl RecoveryHealth {
    pub fn new() -> (health: RecoveryHealth)
        ensures
            health.healthy,
    {
        RecoveryHealth { healthy: true }
    }

    /// The health after a scan.
    pub open spec fn has_recorded(
        before: RecoveryHealth,
        after: RecoveryHealth,
        result: Result<StaleUploadCleanupReport, AnyError>,
        kept: Result<StaleUploadCleanupReport, AnyError>,
    ) -> bool {
        &&& kept == result
        &&& after.healthy == (before.healthy && (result matches Ok(report)
            && report.complete()))
    }

    /// Notes the result of a scan and hands it on.
    pub fn record_stale_upload_cleanup_result(
        &mut self,
        result: Result<StaleUploadCleanupReport, AnyError>,
    ) -> (kept: Result<StaleUploadCleanupReport, AnyError>)
        ensures
            RecoveryHealth::has_recorded(*old(self), *final(self), result, kept),
    {
        match &result {
            Ok(report) => {
                if !report.is_complete() {
                    self.healthy = false;
                }
            },
            Err(_) => {
                self.healthy = false;
            },
        }
        result
    }

    pub fn ensure_candidate_recovery_healthy(&self) -> (checked: Result<(), AnyError>)
        ensures
            match checked {
                Ok(()) => self.healthy,
                Err(error) => !self.healthy && error@ == recovery_fault(),
            },
    {
        if !self.healthy {
            return Err(candidate_recovery_unavailable());
        }
        Ok(())
    }
}

/// Every entry that a scan reads is looked at, dotfiles among them, as long as no limit is used
/// up; only the directory's own names and names that cannot be names are passed over, the latter
/// counted as unsafe. A limit that is used up ends the scan, and is noted.
pub proof fn law_every_scanned_entry_is_looked_at(
    before: StaleUploadCleanupState,
    after: StaleUploadCleanupState,
    deadline_reached: bool,
    entry: StaleEntry,
    step: StaleStep,
)
    requires
        before.wf(),
        StaleUploadCleanupState::has_taken(before, after, deadline_reached, entry, step),
    ensures
        entry matches StaleEntry::Name { name } ==> {
            let itself = name@ == seq![46u8] || name@ == seq![46u8, 46u8];
            let over = deadline_reached || before.report.scanned_entries
                >= before.limits.max_entries || before.report.deleted >= before.limits.max_deletions;
            &&& step is Finished <==> over
            &&& step is Inspect <==> !over && !itself && basename_fault(name@) is None
            &&& step is Read <==> !over && (itself || basename_fault(name@) is Some)
            &&& step is Inspect ==> {
                &&& after.phase matches StalePhase::Inspecting { name: kept } && kept@ == name@
                &&& after.report.scanned_entries == before.report.scanned_entries + 1
                &&& after.frames == before.frames
            }
            &&& over ==> {
                ||| after.report.deadline_reached
                ||| after.report.entry_limit_reached
                ||| after.report.deletion_limit_reached
            }
            &&& !over && !itself && basename_fault(name@) is Some && before.report.skipped_unsafe
                < usize::MAX ==> after.report.skipped_unsafe == before.report.skipped_unsafe + 1
        },
        entry is End ==> {
            &&& step is Finished <==> before.frames@.len() == 1
            &&& step is Leave <==> before.frames@.len() != 1
            &&& after.frames@ == before.frames@.drop_last()
            &&& after.report == before.report
        },
        entry is Unreadable ==> step is Finished && after.report.failures > 0,
        entry is Failed ==> step is Finished,
        step is Finished ==> after.phase is Finished,
{
}

/// An entry with a candidate's name is opened exactly where it is a regular file, and a directory
/// is read exactly where the depth limit lets it, whatever its name. What is gone is passed over,
/// any other failed look is counted, and so is a candidate's name on anything but a file.
pub proof fn law_candidates_and_directories_are_opened(
    before: StaleUploadCleanupState,
    after: StaleUploadCleanupState,
    name: Vec<u8>,
    stat: Result<Metadata, OsFailure>,
    system: Seq<char>,
    is_candidate: bool,
    step: StaleStep,
)
    requires
        before.phase == (StalePhase::Inspecting { name }),
        StaleUploadCleanupState::has_inspected(before, after, stat, system, is_candidate, step),
    ensures
        stat matches Ok(found) ==> {
            let regular = found.mode & 0o170000 == 0o100000;
            let directory = found.mode & 0o170000 == 0o040000;
            &&& step is OpenCandidate <==> is_candidate && regular
            &&& step is OpenDirectory <==> directory && before.frames@.len()
                <= before.limits.max_depth
            &&& step is OpenCandidate || step is OpenDirectory || step is Read
            &&& step is OpenCandidate ==> (after.phase matches StalePhase::OpeningCandidate { rel }
                && rel@ == joined(before.frames@.last()@, name@))
            &&& step is OpenDirectory ==> (after.phase matches StalePhase::Opening { rel } && rel@
                == joined(before.frames@.last()@, name@))
            &&& directory && before.frames@.len() > before.limits.max_depth
                ==> after.report.depth_limit_reached
            &&& is_candidate && !regular && before.report.skipped_unsafe < usize::MAX
                ==> after.report.skipped_unsafe == before.report.skipped_unsafe + 1
            &&& after.report.failures == before.report.failures
        },
        stat matches Err(failure) ==> {
            &&& step is Read
            &&& failure.errno == Errno::NoEnt ==> after.report == before.report
            &&& failure.errno != Errno::NoEnt ==> after.report.failures > 0
        },
        step is Read ==> after.phase is Reading,
        after.frames == before.frames,
{
}

/// A directory is read exactly where it opens and was not read before.
pub proof fn law_scans_read_every_directory_once(
    before: StaleUploadCleanupState,
    after: StaleUploadCleanupState,
    rel: Vec<u8>,
    opened: bool,
    directory: Result<Metadata, AnyError>,
    system: Seq<char>,
    step: StaleStep,
)
    requires
        before.wf(),
        before.phase == (StalePhase::Opening { rel }),
        StaleUploadCleanupState::has_opened(before, after, opened, directory, system, step),
    ensures
        step is Descend <==> (directory matches Ok(found) && !before.visited_directories.view().contains(
            (found.dev, found.ino),
        )),
        step is Descend || step is Read,
        step is Descend ==> after.frames@.drop_last() == before.frames@ && after.frames@.last()@
            == rel@,
        step is Read ==> after.frames == before.frames,
        directory is Err ==> after.report.failures > 0,
        directory is Ok ==> after.report == before.report,
{
}

/// A candidate is stale exactly where it is a regular file of the service with a single name that
/// nobody else may open, and was changed long enough ago. One that was changed since is young,
/// and anything else is left alone as unsafe.
pub proof fn law_stale_candidates(
    metadata: Metadata,
    modified: Option<Timestamp>,
    now: Timestamp,
    service_uid: u32,
    min_age: Duration,
)
    ensures
        ({
            let private = metadata.mode & 0o170000 == 0o100000 && metadata.mode & 0o7777 == 0o600
                && metadata.uid == service_uid && metadata.nlink == 1;
            let verdict = candidate_verdict(metadata, modified, now, service_uid, min_age);
            match modified {
                Some(then) => {
                    let age = (now.secs - then.secs) * 1_000_000_000 + now.nanos - then.nanos;
                    let least = min_age.secs * 1_000_000_000 + min_age.nanos;
                    &&& verdict is Stale <==> private && age >= 0 && age >= least
                    &&& verdict is Young <==> private && 0 <= age < least
                    &&& verdict is Unsafe <==> !private || age < 0
                },
                None => verdict is Unsafe,
            }
        }),
{
}

/// A stale candidate is locked, looked at once more and removed, and its removal made durable.
/// One that is in use is left alone, and so is one whose name stands for another object by then;
/// what is gone is passed over, and every other failure is counted.
pub proof fn law_stale_candidates_are_removed(
    before: StaleUploadCleanupState,
    after: StaleUploadCleanupState,
    opened: OpenedCandidate,
    outcome: Result<(), OsFailure>,
    stat: Result<Metadata, OsFailure>,
    system: Seq<char>,
    step: StaleStep,
)
    requires
        before.wf(),
    ensures
        StaleUploadCleanupState::has_opened_candidate(before, after, opened, step) ==> {
            &&& step is LockCandidate <==> (opened matches OpenedCandidate::Opened {
                metadata,
                modified,
            } && candidate_verdict(
                metadata,
                modified,
                before.now,
                before.service_uid,
                before.limits.min_age,
            ) is Stale)
            &&& step is LockCandidate || step is Read
            &&& step is LockCandidate ==> (opened matches OpenedCandidate::Opened { metadata, .. }
                && after.phase matches StalePhase::LockingCandidate { rel, dev, ino } && dev
                == metadata.dev && ino == metadata.ino)
            &&& opened is Unread ==> after.report.failures > 0
            &&& opened matches OpenedCandidate::Unopened { failure, .. } ==> if failure.errno
                == Errno::NoEnt {
                after.report == before.report
            } else {
                after.report.failures > 0
            }
        },
        StaleUploadCleanupState::has_locked(before, after, outcome, system, step) ==> {
            &&& step is RecheckCandidate <==> outcome is Ok
            &&& step is RecheckCandidate || step is Read
            &&& outcome matches Err(failure) ==> if failure.errno == Errno::Again {
                &&& after.report.failures == before.report.failures
                &&& before.report.skipped_active < usize::MAX ==> after.report.skipped_active
                    == before.report.skipped_active + 1
            } else {
                after.report.failures > 0
            }
        },
        StaleUploadCleanupState::has_rechecked(before, after, stat, system, step) ==> {
            &&& before.phase matches StalePhase::RecheckingCandidate { rel, dev, ino }
            &&& step is UnlinkCandidate <==> (stat matches Ok(found) && found.dev == dev && found.ino
                == ino && found.mode & 0o170000 == 0o100000)
            &&& step is UnlinkCandidate || step is Read
            &&& step is UnlinkCandidate ==> (after.phase matches StalePhase::UnlinkingCandidate {
                rel: kept,
            } && kept@ == rel@)
            &&& stat matches Err(failure) ==> if failure.errno == Errno::NoEnt {
                after.report == before.report
            } else {
                after.report.failures > 0
            }
        },
        StaleUploadCleanupState::has_unlinked(before, after, outcome, system, step) ==> {
            &&& step is SyncParent <==> outcome is Ok
            &&& step is SyncParent || step is Read
            &&& outcome is Ok && before.report.deleted < usize::MAX ==> after.report.deleted
                == before.report.deleted + 1
            &&& outcome matches Err(failure) ==> if failure.errno == Errno::NoEnt {
                after.report == before.report
            } else {
                after.report.failures > 0
            }
        },
        StaleUploadCleanupState::has_synced(before, after, outcome, system, step) ==> {
            &&& step is Read
            &&& after.phase is Reading
            &&& outcome is Ok ==> after.report == before.report
            &&& outcome is Err ==> after.report.failures > 0
        },
{
}

/// A scan is complete exactly where nothing failed, nothing unsafe was met and no limit was
/// reached, and creation stays healthy exactly while all scans are complete.
pub proof fn law_health_follows_the_scans(
    before: RecoveryHealth,
    after: RecoveryHealth,
    result: Result<StaleUploadCleanupReport, AnyError>,
    kept: Result<StaleUploadCleanupReport, AnyError>,
)
    requires
        RecoveryHealth::has_recorded(before, after, result, kept),
    ensures
        kept == result,
        after.healthy <==> before.healthy && (result matches Ok(report) && {
            &&& report.failures == 0
            &&& report.skipped_unsafe == 0
            &&& !report.entry_limit_reached
            &&& !report.depth_limit_reached
            &&& !report.deletion_limit_reached
            &&& !report.deadline_reached
        }),
{
}

/// A text that fits and holds no control character is shown as it is, and one that fits is shown
/// whole.
pub proof fn law_short_diagnostics_are_shown_whole(
    value: Seq<char>,
    max_bytes: nat,
    output: Seq<char>,
)
    requires
        bounded(value, max_bytes, output),
        width(shown(value)) <= max_bytes,
    ensures
        output.len() == value.len(),
        forall|i: int|
            0 <= i < value.len() ==> {
                let code = value[i] as u32;
                #[trigger] output[i] == (if code <= 0x1f || 0x7f <= code <= 0x9f {
                    ' '
                } else {
                    value[i]
                })
            },
{
}

/// Every failure is counted, and the first ones are kept with where they happened; a report with
/// a failure is never complete.
pub proof fn law_every_failure_is_counted(
    before: StaleUploadCleanupReport,
    after: StaleUploadCleanupReport,
    stage: StaleUploadCleanupStage,
    path: Seq<u8>,
    cause: Seq<char>,
)
    requires
        after.failed_at(before, stage, path, cause),
    ensures
        before.failures < usize::MAX ==> after.failures == before.failures + 1,
        !after.complete(),
        before.failure_diagnostics@.len() < 4 ==> {
            &&& after.failure_diagnostics@.len() == before.failure_diagnostics@.len() + 1
            &&& after.failure_diagnostics@.last().stage == stage
            &&& after.failure_diagnostics@.drop_last() == before.failure_diagnostics@
        },
        before.failure_diagnostics@.len() >= 4 ==> after.failure_diagnostics
            == before.failure_diagnostics,
        after.deleted == before.deleted,
        after.scanned_entries == before.scanned_entries,
{
}

} // verus!
