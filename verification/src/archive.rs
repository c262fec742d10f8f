//! Streaming archives of directories: budgets, chunks and the course of a request.
//!
//! Traversal and compression happen elsewhere. What stands here decides which entries an
//! archive takes, how many bytes may still go into it, how encoded bytes are cut into chunks,
//! and what the client is told at each turn.
use crate::error::{
    AdmissionError, AdmissionResource, AdmissionTimeoutKind, AnyError, ChangedStatus, IoErrorKind,
    LimitKind, QueueScope, ResponseError, classified, chain_class, is_error_response, public_text,
    typed_mapping, fs_status,
};
use crate::fault::{in_context, said, Fault};
use crate::path::{
    component_views, file_name, last_name, lemma_parts_are_nameful, parts, strip_prefix,
    stripped, Part, SLASH,
};
use crate::response::{printable, with_field, Field, Response, StatusCode};
use crate::text::{
    is_text, lemma_encode_concat, push_bytes, push_text, quote, quoted_text, string_from_utf8, text2,
    TextBuilder,
};
use crate::time::Duration;
use crate::zip_name::{
    archivable, entry_bytes, entry_name, entry_name_of_components, name_too_long, names_of,
    path_fault, top_level_name, validate_zip_entry_name, ZIP_ENTRY_NAME_MAX_BYTES,
};
use vstd::prelude::*;
use vstd::utf8::*;

verus! {

// ---------------------------------------------------------------------------------------------
// Sizes
// ---------------------------------------------------------------------------------------------

/// How the bytes of an entry are stored.
#[derive(Clone, Copy, Debug, PartialEq, Eq, Structural)]
pub enum CompressionMethod {
    Stored,
    Deflated,
    /// A method without a known bound on its output.
    Other,
}

/// `zip::ZIP64_BYTES_THR`, the largest size that an entry without the wide format can have.
#[verifier::external_body]
pub(crate) fn zip64_threshold() -> (threshold: u64)
    ensures
        threshold == 0xffff_ffff,
{
    zip::ZIP64_BYTES_THR
}

pub open spec fn saturated(n: int) -> u64 {
    if n > u64::MAX {
        u64::MAX
    } else {
        n as u64
    }
}

/// One more bit for each byte, in whole bytes, and a constant.
pub open spec fn deflate_ceiling(input: u64) -> u64 {
    saturated(input + (input + 7) / 8 + 64)
}

/// The largest output of deflating so many bytes, if that can be represented.
pub fn deflate_output_ceiling(input_bytes: u64) -> (ceiling: u64)
    ensures
        ceiling == deflate_ceiling(input_bytes),
{
    let partial: u64 = if input_bytes.is_multiple_of(8) {
        0
    } else {
        1
    };
    let extra: u64 = input_bytes / 8 + partial;
    input_bytes.saturating_add(extra).saturating_add(64)
}

/// The most bytes that the encoder can be handed for an entry: what is left of the budget and
/// one byte that shows growth.
pub open spec fn input_ceiling(remaining: u64) -> u64 {
    saturated(remaining + 1)
}

/// The most bytes that an entry can occupy.
pub open spec fn output_ceiling(remaining: u64, method: CompressionMethod) -> u64 {
    match method {
        CompressionMethod::Stored => input_ceiling(remaining),
        CompressionMethod::Deflated => deflate_ceiling(input_ceiling(remaining)),
        CompressionMethod::Other => u64::MAX,
    }
}

/// Whether an entry needs the wide format: if its bytes, compressed or not, could outgrow the
/// narrow one.
pub open spec fn needs_zip64(remaining: u64, method: CompressionMethod) -> bool {
    input_ceiling(remaining) > 0xffff_ffff || output_ceiling(remaining, method) > 0xffff_ffff
}

pub fn zip64_required_for_entry(remaining_budget: u64, compression_method: CompressionMethod) -> (wide:
    bool)
    ensures
        wide == needs_zip64(remaining_budget, compression_method),
{
    let input: u64 = remaining_budget.saturating_add(1);
    let output: u64 = match compression_method {
        CompressionMethod::Stored => input,
        CompressionMethod::Deflated => deflate_output_ceiling(input),
        CompressionMethod::Other => u64::MAX,
    };
    let threshold: u64 = zip64_threshold();
    input > threshold || output > threshold
}

/// A larger budget never takes the wide format away.
pub proof fn law_zip64_grows_with_budget(
    remaining: u64,
    wider: u64,
    method: CompressionMethod,
)
    requires
        remaining <= wider,
        needs_zip64(remaining, method),
    ensures
        needs_zip64(wider, method),
{
}

/// Deflating is never assumed to shrink.
pub proof fn law_deflate_ceiling_covers_input(input: u64)
    ensures
        deflate_ceiling(input) >= input,
        deflate_ceiling(input) == u64::MAX || deflate_ceiling(input) >= input + 64,
{
}

// ---------------------------------------------------------------------------------------------
// Errors
// ---------------------------------------------------------------------------------------------

/// The failure of an archive that took too long.
pub open spec fn timed_out(waited: Duration) -> Fault {
    in_context(
        Fault::Admission {
            error: (AdmissionError::Timeout {
                resource: AdmissionResource::ExpensiveTasks,
                kind: AdmissionTimeoutKind::Execution,
                waited,
            }),
        },
        "archive operation timed out"@,
    )
}

pub fn archive_timeout_error(waited: Duration) -> (error: AnyError)
    ensures
        error@ == timed_out(waited),
{
    AnyError::admission(
        AdmissionError::execution_timeout(AdmissionResource::ExpensiveTasks, waited),
    ).context("archive operation timed out")
}

/// The failure of an archive that would outgrow its budget.
pub open spec fn too_large(limit: u64, observed: Option<u64>) -> Fault {
    in_context(
        Fault::Admission {
            error: (AdmissionError::LimitExceeded {
                resource: AdmissionResource::ArchiveBytes,
                kind: LimitKind::Semantic,
                limit,
                observed,
            }),
        },
        "archive uncompressed-size budget exceeded"@,
    )
}

pub fn archive_size_limit_error(limit: u64, observed: Option<u64>) -> (error: AnyError)
    ensures
        error@ == too_large(limit, observed),
{
    AnyError::admission(
        AdmissionError::limit_exceeded(
            AdmissionResource::ArchiveBytes,
            LimitKind::Semantic,
            limit,
            observed,
        ),
    ).context("archive uncompressed-size budget exceeded")
}

/// The failure of an archive whose request ended.
pub open spec fn archive_cancelled() -> Fault {
    in_context(
        Fault::Admission {
            error: (AdmissionError::Cancelled { resource: AdmissionResource::ArchiveBytes }),
        },
        "archive generation was cancelled"@,
    )
}

/// A transport cause that shows that the client went away.
pub open spec fn disconnect_link(link: AnyError) -> bool {
    match link {
        AnyError::Io { kind, .. } | AnyError::IoMessage { kind, .. } => kind
            == IoErrorKind::BrokenPipe || kind == IoErrorKind::ConnectionReset || kind
            == IoErrorKind::ConnectionAborted,
        _ => false,
    }
}

/// Whether an error only says that the client went away. Typed causes decide, never texts.
pub fn is_client_disconnect(error: &AnyError) -> (gone: bool)
    ensures
        gone <==> exists|i: int|
            0 <= i < error.links().len() && disconnect_link(#[trigger] error.links()[i]),
{
    let links = error.chain();
    let mut i: usize = 0;
    while i < links.len()
        invariant
            i <= links@.len(),
            links@.len() == error.links().len(),
            forall|j: int| 0 <= j < links@.len() ==> *#[trigger] links@[j] == error.links()[j],
            forall|j: int| 0 <= j < i ==> !disconnect_link(#[trigger] error.links()[j]),
        decreases links.len() - i,
    {
        match links[i] {
            AnyError::Io { kind, .. } | AnyError::IoMessage { kind, .. } => match kind {
                IoErrorKind::BrokenPipe
                | IoErrorKind::ConnectionReset
                | IoErrorKind::ConnectionAborted => {
                    assert(disconnect_link(error.links()[i as int]));
                    return true;
                },
                _ => {},
            },
            _ => {},
        }
        i = i + 1;
    }
    false
}

/// Why a request's work was told to stop.
#[derive(Clone, Copy, Debug, PartialEq, Eq, Structural)]
pub enum CancellationReason {
    Running,
    RequestDropped,
    DeadlineExceeded,
    Shutdown,
}

/// Severity of a line in the log.
#[derive(Clone, Copy, Debug, PartialEq, Eq, Structural)]
pub enum LogLevel {
    Debug,
    Warn,
    Error,
}

/// How the failure of a worker is logged.
pub open spec fn logged_at(reason: CancellationReason, error: AnyError, level: LogLevel) -> bool {
    &&& level == match reason {
        CancellationReason::RequestDropped | CancellationReason::Shutdown => LogLevel::Debug,
        CancellationReason::DeadlineExceeded => LogLevel::Warn,
        CancellationReason::Running => if exists|i: int|
            0 <= i < error.links().len() && disconnect_link(#[trigger] error.links()[i]) {
            LogLevel::Debug
        } else {
            LogLevel::Error
        },
    }
}

/// How the failure of an archive worker is logged: interruptions by the client or by shutdown
/// are ordinary, deadlines are worth a warning, and everything else is an error.
pub fn worker_failure_level(reason: CancellationReason, error: &AnyError) -> (level: LogLevel)
    ensures
        logged_at(reason, *error, level),
{
    match reason {
        CancellationReason::RequestDropped | CancellationReason::Shutdown => LogLevel::Debug,
        CancellationReason::DeadlineExceeded => LogLevel::Warn,
        CancellationReason::Running => if is_client_disconnect(error) {
            LogLevel::Debug
        } else {
            LogLevel::Error
        },
    }
}

/// The name under which an archive is downloaded.
pub open spec fn download_name(path: Seq<u8>) -> Seq<u8> {
    match last_name(parts(path)) {
        Some(name) => if valid_utf8(name) {
            name + encode_utf8(".zip"@)
        } else {
            encode_utf8("archive.zip"@)
        },
        None => encode_utf8("archive.zip"@),
    }
}

/// The name of the archived directory, or a fixed name where it has none that is text.
pub fn archive_download_name(path: &[u8]) -> (name: String)
    ensures
        encode_utf8(name@) == download_name(path@),
{
    let mut bytes: Vec<u8> = Vec::new();
    match file_name(path) {
        Some(name) => {
            if is_text(name.as_slice()) {
                push_bytes(&mut bytes, name.as_slice());
                push_text(&mut bytes, ".zip");
                proof {
                    encode_utf8_valid_utf8(".zip"@);
                    valid_utf8_concat(name@, encode_utf8(".zip"@));
                    assert(bytes@ =~= name@ + encode_utf8(".zip"@));
                }
                return string_from_utf8(bytes);
            }
        },
        None => {},
    }
    push_text(&mut bytes, "archive.zip");
    proof {
        encode_utf8_valid_utf8("archive.zip"@);
        assert(bytes@ =~= encode_utf8("archive.zip"@));
    }
    string_from_utf8(bytes)
}

// ---------------------------------------------------------------------------------------------
// Budget
// ---------------------------------------------------------------------------------------------

/// What the walker found at a name.
#[derive(Clone, Copy, Debug, PartialEq, Eq, Structural)]
pub enum EntryKind {
    Directory,
    File,
    Other,
}

/// An entry that the walker opened.
#[derive(Debug)]
pub struct ArchiveEntry {
    /// The path under which the entry is shown, relative to the served root.
    pub display_rel: Vec<u8>,
    /// The path behind the archived directory as messages show it: its `Debug` form as a path of
    /// the system, with escapes for what is not text.
    pub shown: String,
    pub kind: EntryKind,
    /// The size of a file.
    pub len: u64,
    pub mode: u32,
}

/// The uncompressed bytes that an archive took, and how many it may take.
#[derive(Clone, Copy, Debug, PartialEq, Eq, Structural)]
pub struct ArchiveBudget {
    pub limit: u64,
    pub used: u64,
}

/// What an entry becomes in the archive.
#[derive(Debug)]
pub enum AppendPlan {
    /// A directory entry, whose name ends in a slash.
    Directory { name: String, mode: u32 },
    /// A file entry, of which at most `read_limit` bytes are read.
    File { name: String, mode: u32, remaining: u64, read_limit: u64, large_file: bool },
    /// Neither a file nor a directory.
    Skip,
}

/// How copying a file into the archive ended.
#[derive(Debug)]
pub enum CopyOutcome {
    Copied { bytes: u64 },
    /// Reading or writing failed.
    Failed { error: AnyError },
}

pub const MODE_MASK: u32 = 0o7777;

/// The mode of the directory that every entry lies beneath.
pub const TOP_LEVEL_MODE: u32 = 0o755;

/// The first entry of an archive: the name and the mode of the top-level directory.
pub fn top_level_entry() -> (entry: (String, u32))
    ensures
        entry.0@ == "archive/"@,
        entry_name(encode_utf8(entry.0@), true),
        entry.1 == TOP_LEVEL_MODE,
{
    (top_level_name(), TOP_LEVEL_MODE)
}

/// The path of an entry relative to the archived directory.
pub open spec fn relative_parts(base: Seq<u8>, entry: ArchiveEntry) -> Option<Seq<Part>> {
    stripped(parts(entry.display_rel@), parts(base))
}

/// Whether an entry's name can stand in the archive, as a directory's name where it is one.
pub open spec fn nameable(base: Seq<u8>, entry: ArchiveEntry) -> bool {
    match relative_parts(base, entry) {
        None => false,
        Some(path) => {
            let bytes = entry_bytes(names_of(path));
            archivable(path) && bytes.len() <= ZIP_ENTRY_NAME_MAX_BYTES && (entry.kind
                == EntryKind::Directory ==> bytes.len() < ZIP_ENTRY_NAME_MAX_BYTES)
        },
    }
}

/// The name of an entry that can be named.
pub open spec fn named_bytes(base: Seq<u8>, entry: ArchiveEntry) -> Seq<u8> {
    let bytes = entry_bytes(names_of(relative_parts(base, entry)->0));
    if entry.kind == EntryKind::Directory {
        bytes.push(SLASH)
    } else {
        bytes
    }
}

/// Why an entry cannot be named: it lies elsewhere, its path is not fit for an archive, or its
/// name is too long.
pub open spec fn naming_fault(base: Seq<u8>, entry: ArchiveEntry, error: Fault) -> bool {
    match relative_parts(base, entry) {
        None => error == said("ZIP entry is outside the archive root"@),
        Some(path) => if !archivable(path) {
            path_fault(path, entry.shown@, error)
        } else {
            let bytes = entry_bytes(names_of(path));
            error == name_too_long(
                if bytes.len() > ZIP_ENTRY_NAME_MAX_BYTES {
                    bytes.len()
                } else {
                    bytes.len() + 1
                },
            )
        },
    }
}

proof fn lemma_directory_name(bytes: Seq<u8>)
    requires
        entry_name(bytes, false),
    ensures
        entry_name(bytes.push(SLASH), true) <==> bytes.len() < ZIP_ENTRY_NAME_MAX_BYTES,
{
    let longer = bytes.push(SLASH);
    assert(longer.drop_last() =~= bytes);
    assert(!longer.contains(0)) by {
        if longer.contains(0) {
            let k = choose|k: int| 0 <= k < longer.len() && longer[k] == 0;
            if k < bytes.len() {
                assert(bytes[k] == 0);
                assert(bytes.contains(0));
            }
        }
    }
}

/// The validated name of an entry.
fn archive_entry_name(base: &[u8], entry: &ArchiveEntry) -> (result: Result<String, AnyError>)
    ensures
        result is Ok <==> nameable(base@, *entry),
        result matches Ok(name) ==> encode_utf8(name@) == named_bytes(base@, *entry),
        result matches Ok(name) ==> entry_name(
            encode_utf8(name@),
            entry.kind == EntryKind::Directory,
        ),
        result matches Err(e) ==> naming_fault(base@, *entry, e@),
{
    let relative = match strip_prefix(entry.display_rel.as_slice(), base) {
        Some(relative) => relative,
        None => {
            return Err(AnyError::message("ZIP entry is outside the archive root"));
        },
    };
    proof {
        lemma_parts_are_nameful(entry.display_rel@);
        let whole = parts(entry.display_rel@);
        let rest = component_views(relative@);
        assert forall|i: int| 0 <= i < rest.len() implies (#[trigger] rest[i] matches Part::Normal(
            name,
        ) ==> name.len() > 0) by {
            assert(rest[i] == whole[i + parts(base@).len()]);
        }
    }
    let name = match entry_name_of_components(&relative, entry.shown.as_str()) {
        Ok(name) => name,
        Err(error) => {
            return Err(error);
        },
    };
    if entry.kind != EntryKind::Directory {
        return Ok(name);
    }
    let mut longer = TextBuilder::new();
    longer.push(name.as_str());
    longer.push("/");
    let directory_name = longer.finish();
    proof {
        reveal_strlit("/");
        assert(is_ascii_chars("/"@));
        is_ascii_chars_encode_utf8("/"@);
        assert("/"@[0] as u8 == encode_utf8("/"@)[0]);
        assert(encode_utf8("/"@) =~= seq![SLASH]);
        assert(Seq::<char>::empty() + name@ =~= name@);
        lemma_encode_concat(name@, "/"@);
        assert(encode_utf8(directory_name@) =~= encode_utf8(name@).push(SLASH));
        lemma_directory_name(encode_utf8(name@));
    }
    match validate_zip_entry_name(directory_name.as_str(), true) {
        Ok(()) => Ok(directory_name),
        Err(error) => Err(error),
    }
}

/// A failure of the archive's writer that concerns one entry.
pub fn named_failure(error: AnyError, what: &str, name: &str) -> (failure: AnyError)
    ensures
        failure@ == in_context(error@, what@ + quoted_text(name@)),
{
    let quoted = quote(name);
    error.context(text2(what, quoted.as_str()).as_str())
}

/// The size that an archive would have had, if it can be represented.
pub open spec fn observed_size(used: u64, more: u64) -> Option<u64> {
    if used + more > u64::MAX {
        None
    } else {
        Some((used + more) as u64)
    }
}

impl ArchiveBudget {
    /// The archive never takes more than its limit.
    pub open spec fn wf(self) -> bool {
        self.used <= self.limit
    }

    /// Whether an entry can go into the archive: it can be named, and a file fits what is left.
    pub open spec fn admits(self, base: Seq<u8>, entry: ArchiveEntry) -> bool {
        nameable(base, entry) && (entry.kind == EntryKind::File ==> self.used + entry.len
            <= self.limit)
    }

    pub fn new(limit: u64) -> (budget: ArchiveBudget)
        ensures
            budget.wf(),
            budget == (ArchiveBudget { limit, used: 0 }),
    {
        ArchiveBudget { limit, used: 0 }
    }

    /// What checking an entry leads to.
    pub open spec fn entry_checked(
        before: ArchiveBudget,
        after: ArchiveBudget,
        base: Seq<u8>,
        entry: ArchiveEntry,
        result: Result<(), AnyError>,
    ) -> bool {
        &&& after.wf()
        &&& after.limit == before.limit
        &&& result is Ok <==> before.admits(base, entry)
        &&& result is Ok ==> after.used == before.used + (if entry.kind
            == EntryKind::File {
            entry.len as int
        } else {
            0
        })
        &&& result is Err ==> after.used == before.used
        &&& result matches Err(e) ==> if nameable(base, entry) {
            e@ == too_large(before.limit, observed_size(before.used, entry.len))
        } else {
            naming_fault(base, entry, e@)
        }
    }

    /// Checks an entry before anything of the archive is sent: its name must be fit for an
    /// archive, and the sizes that are known so far must fit the budget.
    pub fn preflight_entry(&mut self, base: &[u8], entry: &ArchiveEntry) -> (result: Result<
        (),
        AnyError,
    >)
        requires
            old(self).wf(),
        ensures
            ArchiveBudget::entry_checked(*old(self), *final(self), base@, *entry, result),
    {
        match archive_entry_name(base, entry) {
            Ok(_) => {},
            Err(error) => {
                return Err(error);
            },
        }
        if entry.kind == EntryKind::File {
            match self.used.checked_add(entry.len) {
                None => {
                    return Err(archive_size_limit_error(self.limit, None));
                },
                Some(observed) => {
                    if observed > self.limit {
                        return Err(archive_size_limit_error(self.limit, Some(observed)));
                    }
                    self.used = observed;
                },
            }
        }
        Ok(())
    }

    /// What an entry becomes in the archive.
    pub open spec fn entry_planned(
        self,
        base: Seq<u8>,
        entry: ArchiveEntry,
        compression: CompressionMethod,
        result: Result<AppendPlan, AnyError>,
    ) -> bool {
        &&& result is Ok <==> self.admits(base, entry)
        &&& result matches Ok(AppendPlan::Directory { name, mode }) ==> {
            &&& entry.kind == EntryKind::Directory
            &&& encode_utf8(name@) == named_bytes(base, entry)
            &&& mode == entry.mode & MODE_MASK
        }
        &&& result matches Ok(
            AppendPlan::File { name, mode, remaining, read_limit, large_file },
        ) ==> {
            &&& entry.kind == EntryKind::File
            &&& encode_utf8(name@) == named_bytes(base, entry)
            &&& mode == entry.mode & MODE_MASK
            &&& remaining == self.limit - self.used
            &&& read_limit == input_ceiling(remaining)
            &&& large_file == needs_zip64(remaining, compression)
        }
        &&& result matches Ok(AppendPlan::Skip) ==> entry.kind == EntryKind::Other
        &&& result matches Err(e) ==> if nameable(base, entry) {
            e@ == too_large(self.limit, observed_size(self.used, entry.len))
        } else {
            naming_fault(base, entry, e@)
        }
    }

    /// What an entry becomes in the archive.
    pub fn append_zip_entry(
        &self,
        base: &[u8],
        entry: &ArchiveEntry,
        compression: CompressionMethod,
    ) -> (result: Result<AppendPlan, AnyError>)
        requires
            self.wf(),
        ensures
            self.entry_planned(base@, *entry, compression, result),
    {
        let name = match archive_entry_name(base, entry) {
            Ok(name) => name,
            Err(error) => {
                return Err(error);
            },
        };
        match entry.kind {
            EntryKind::Directory => Ok(
                AppendPlan::Directory { name, mode: entry.mode & MODE_MASK },
            ),
            EntryKind::File => {
                let remaining: u64 = self.limit.saturating_sub(self.used);
                if entry.len > remaining {
                    return Err(
                        archive_size_limit_error(self.limit, self.used.checked_add(entry.len)),
                    );
                }
                // A streaming writer cannot widen a header it has sent, and the file may grow
                // while it is read, so the room that is left decides about the format.
                Ok(
                    AppendPlan::File {
                        name,
                        mode: entry.mode & MODE_MASK,
                        remaining,
                        read_limit: remaining.saturating_add(1),
                        large_file: zip64_required_for_entry(remaining, compression),
                    },
                )
            },
            EntryKind::Other => Ok(AppendPlan::Skip),
        }
    }

    /// What copying a file into the archive leads to.
    pub open spec fn file_accounted(
        before: ArchiveBudget,
        after: ArchiveBudget,
        name: Seq<char>,
        remaining: u64,
        outcome: CopyOutcome,
        cancelled: bool,
        result: Result<(), AnyError>,
    ) -> bool {
        &&& after.wf()
        &&& after.limit == before.limit
        &&& match outcome {
            CopyOutcome::Copied { bytes } => {
                &&& result is Ok <==> bytes <= remaining
                &&& result is Ok ==> after.used == before.used + bytes
                &&& result matches Err(e) ==> e@ == too_large(
                    before.limit,
                    observed_size(before.used, bytes),
                )
            },
            CopyOutcome::Failed { error } => {
                &&& result matches Err(e) && if cancelled {
                    e@ == archive_cancelled()
                } else {
                    e@ == in_context(error@, "failed to copy ZIP file "@ + quoted_text(name))
                }
            },
        }
        &&& result is Err ==> after.used == before.used
    }

    /// Accounts for a file that was copied into the archive. `name` and `remaining` are what the
    /// plan for the file said.
    pub fn finish_zip_file(
        &mut self,
        name: &str,
        remaining: u64,
        outcome: CopyOutcome,
        cancelled: bool,
    ) -> (result: Result<(), AnyError>)
        requires
            old(self).wf(),
            remaining == old(self).limit - old(self).used,
        ensures
            ArchiveBudget::file_accounted(
                *old(self),
                *final(self),
                name@,
                remaining,
                outcome,
                cancelled,
                result,
            ),
    {
        match outcome {
            CopyOutcome::Copied { bytes } => {
                if bytes > remaining {
                    return Err(archive_size_limit_error(self.limit, self.used.checked_add(bytes)));
                }
                match self.used.checked_add(bytes) {
                    Some(used) => {
                        self.used = used;
                        Ok(())
                    },
                    None => Err(archive_size_limit_error(self.limit, None)),
                }
            },
            CopyOutcome::Failed { error } => {
                if cancelled {
                    Err(
                        AnyError::admission(
                            AdmissionError::cancelled(AdmissionResource::ArchiveBytes),
                        ).context("archive generation was cancelled"),
                    )
                } else {
                    Err(named_failure(error, "failed to copy ZIP file ", name))
                }
            },
        }
    }
}

/// What the check of a whole archive lets through, the archive takes: an entry that fits a budget
/// fits the same budget while less of it is used.
pub proof fn law_checked_entries_are_taken(
    checked: ArchiveBudget,
    taken: ArchiveBudget,
    base: Seq<u8>,
    entry: ArchiveEntry,
)
    requires
        checked.limit == taken.limit,
        taken.used <= checked.used,
        checked.admits(base, entry),
    ensures
        taken.admits(base, entry),
{
}

/// How a traversal ended.
pub open spec fn traversal_ended(
    entry_error: Option<AnyError>,
    walk: Result<(), AnyError>,
    context: Seq<char>,
    result: Result<(), AnyError>,
) -> bool {
    &&& match entry_error {
        Some(error) => result == Err::<(), AnyError>(error),
        None => match walk {
            Ok(()) => result is Ok,
            Err(error) => result matches Err(e) && e@ == in_context(error@, context),
        },
    }
}

/// How a traversal for an archive ends: an error of an entry, which stopped the traversal, comes
/// before an error of the traversal itself.
pub fn finish_traversal(
    entry_error: Option<AnyError>,
    walk: Result<(), AnyError>,
    context: &'static str,
) -> (result: Result<(), AnyError>)
    ensures
        traversal_ended(entry_error, walk, context@, result),
{
    if let Some(error) = entry_error {
        return Err(error);
    }
    match walk {
        Ok(()) => Ok(()),
        Err(error) => Err(error.context(context)),
    }
}

/// How the first traversal ends.
pub open spec fn check_ended(entry_error: Option<AnyError>, walk: Result<(), AnyError>, result: Result<(), AnyError>) -> bool {
    &&& match entry_error {
        Some(error) => result == Err::<(), AnyError>(error),
        None => match walk {
            Ok(()) => result is Ok,
            Err(error) => result matches Err(e) && e@ == in_context(
                error@,
                "archive preflight traversal failed"@,
            ),
        },
    }
}

/// The end of the first traversal, which only checks.
pub fn preflight_zip_dir(entry_error: Option<AnyError>, walk: Result<(), AnyError>) -> (result:
    Result<(), AnyError>)
    ensures
        check_ended(entry_error, walk, result),
{
    finish_traversal(entry_error, walk, "archive preflight traversal failed")
}

/// How the second traversal ends.
pub open spec fn archive_ended(
    entry_error: Option<AnyError>,
    walk: Result<(), AnyError>,
    finished: Result<(), AnyError>,
    flushed: Result<(), AnyError>,
    result: Result<(), AnyError>,
) -> bool {
    &&& match entry_error {
        Some(error) => result == Err::<(), AnyError>(error),
        None => match (walk, finished, flushed) {
            (Err(error), _, _) => result matches Err(e) && e@ == in_context(
                error@,
                "directory traversal failed"@,
            ),
            (Ok(()), Err(error), _) => result matches Err(e) && e@ == in_context(
                error@,
                "failed to finalize ZIP archive"@,
            ),
            (Ok(()), Ok(()), Err(error)) => result matches Err(e) && e@ == in_context(
                error@,
                "failed to flush ZIP archive"@,
            ),
            (Ok(()), Ok(()), Ok(())) => result is Ok,
        },
    }
}

/// The end of the second traversal, after which the archive is finished and flushed.
pub fn zip_dir(
    entry_error: Option<AnyError>,
    walk: Result<(), AnyError>,
    finished: Result<(), AnyError>,
    flushed: Result<(), AnyError>,
) -> (result: Result<(), AnyError>)
    ensures
        archive_ended(entry_error, walk, finished, flushed, result),
{
    match finish_traversal(entry_error, walk, "directory traversal failed") {
        Ok(()) => {},
        Err(error) => {
            return Err(error);
        },
    }
    match finished {
        Ok(()) => {},
        Err(error) => {
            return Err(error.context("failed to finalize ZIP archive"));
        },
    }
    match flushed {
        Ok(()) => Ok(()),
        Err(error) => Err(error.context("failed to flush ZIP archive")),
    }
}

// ---------------------------------------------------------------------------------------------
// Chunks
// ---------------------------------------------------------------------------------------------

/// Cuts the encoder's output into chunks of one size.
#[derive(Debug)]
pub struct ArchiveChunkWriter {
    pub buffer: Vec<u8>,
    pub capacity: usize,
}

/// What trying to hand over a chunk came to.
#[derive(Clone, Copy, Debug, PartialEq, Eq, Structural)]
pub enum SendAttempt {
    Sent,
    Full,
    Closed,
}

/// What to do about a chunk.
#[derive(Debug)]
pub enum SendAction {
    /// The chunk is dealt with.
    Done,
    /// Try again a little later.
    Pause,
    /// The writer fails.
    Fail { error: AnyError },
}

/// The bytes of an optional chunk.
pub open spec fn chunk_bytes(chunk: Option<Vec<u8>>) -> Seq<u8> {
    match chunk {
        Some(bytes) => bytes@,
        None => Seq::empty(),
    }
}

impl ArchiveChunkWriter {
    /// What is held back is less than a chunk.
    pub open spec fn wf(self) -> bool {
        self.buffer@.len() < self.capacity
    }

    pub fn new(capacity: usize) -> (writer: ArchiveChunkWriter)
        requires
            capacity > 0,
        ensures
            writer.wf(),
            writer.capacity == capacity,
            writer.buffer@ == Seq::<u8>::empty(),
    {
        ArchiveChunkWriter { buffer: Vec::new(), capacity }
    }

    /// What is held back is handed out.
    pub open spec fn buffer_sent(
        before: ArchiveChunkWriter,
        after: ArchiveChunkWriter,
        cancelled: bool,
        chunk: Option<Vec<u8>>,
    ) -> bool {
        &&& after.wf()
        &&& after.capacity == before.capacity
        &&& after.buffer@ =~= Seq::<u8>::empty()
        &&& chunk is Some <==> !cancelled && before.buffer@.len() > 0
        &&& chunk matches Some(bytes) ==> bytes@ == before.buffer@
    }

    /// Takes the bytes that are held back, as a chunk to be sent. After cancellation they are
    /// dropped.
    pub fn send_buffer(&mut self, cancelled: bool) -> (chunk: Option<Vec<u8>>)
        requires
            old(self).capacity > 0,
        ensures
            ArchiveChunkWriter::buffer_sent(*old(self), *final(self), cancelled, chunk),
    {
        if self.buffer.len() == 0 {
            return None;
        }
        let mut taken: Vec<u8> = Vec::new();
        std::mem::swap(&mut taken, &mut self.buffer);
        if cancelled {
            return None;
        }
        Some(taken)
    }

    /// What taking in bytes leads to.
    pub open spec fn written(
        before: ArchiveChunkWriter,
        after: ArchiveChunkWriter,
        input: Seq<u8>,
        cancelled: bool,
        result: (usize, Option<Vec<u8>>),
    ) -> bool {
        &&& after.wf()
        &&& after.capacity == before.capacity
        &&& cancelled ==> result.0 == input.len() && result.1 is None && after.buffer@
            == before.buffer@
        &&& !cancelled ==> {
            let room = before.capacity - before.buffer@.len();
            &&& result.0 == (if input.len() <= room {
                input.len() as int
            } else {
                room
            })
            &&& before.buffer@ + input.take(result.0 as int) == chunk_bytes(result.1)
                + after.buffer@
            &&& result.1 matches Some(bytes) ==> bytes@.len() == before.capacity
                && after.buffer@.len() == 0
            &&& result.1 is None ==> result.0 == input.len()
        }
    }

    /// Takes in bytes up to the end of a chunk, and hands out the chunk that is full. Nothing
    /// is lost or reordered. After cancellation bytes are swallowed.
    pub fn write(&mut self, input: &[u8], cancelled: bool) -> (result: (usize, Option<Vec<u8>>))
        requires
            old(self).wf(),
        ensures
            ArchiveChunkWriter::written(*old(self), *final(self), input@, cancelled, result),
    {
        if cancelled {
            return (input.len(), None);
        }
        let room: usize = self.capacity - self.buffer.len();
        let written: usize = if input.len() <= room {
            input.len()
        } else {
            room
        };
        let ghost held = self.buffer@;
        push_bytes(&mut self.buffer, vstd::slice::slice_subrange(input, 0, written));
        assert(input@.subrange(0, written as int) =~= input@.take(written as int));
        if self.buffer.len() == self.capacity {
            let chunk = self.send_buffer(false);
            assert(chunk_bytes(chunk) + self.buffer@ =~= held + input@.take(written as int));
            (written, chunk)
        } else {
            assert(Seq::<u8>::empty() + self.buffer@ =~= self.buffer@);
            (written, None)
        }
    }

    /// What an attempt to hand over a chunk leads to.
    pub open spec fn send_answered(cancelled: bool, attempt: SendAttempt, action: SendAction) -> bool {
        &&& match attempt {
            SendAttempt::Sent => action is Done,
            SendAttempt::Full => if cancelled {
                action is Done
            } else {
                action is Pause
            },
            SendAttempt::Closed => action matches SendAction::Fail { error } && error@ == (
            Fault::IoMessage {
                kind: IoErrorKind::BrokenPipe,
                text: "archive response receiver closed"@,
            }),
        }
    }

    /// What to do after an attempt to hand over a chunk. Cancellation turns the writer into a
    /// sink, and a receiver that is gone breaks the pipe.
    pub fn after_send(cancelled: bool, attempt: SendAttempt) -> (action: SendAction)
        ensures
            ArchiveChunkWriter::send_answered(cancelled, attempt, action),
    {
        match attempt {
            SendAttempt::Sent => SendAction::Done,
            SendAttempt::Full => if cancelled {
                SendAction::Done
            } else {
                SendAction::Pause
            },
            SendAttempt::Closed => SendAction::Fail {
                error: AnyError::io_message(
                    IoErrorKind::BrokenPipe,
                    "archive response receiver closed",
                ),
            },
        }
    }
}

/// Whether a file is read on.
pub open spec fn read_gated(
    cancelled: bool,
    gate: Result<(), AnyError>,
) -> bool {
    &&& gate is Ok <==> !cancelled
    &&& gate matches Err(e) ==> e@ == (Fault::IoMessage {
        kind: IoErrorKind::ConnectionAborted,
        text: "archive request cancelled"@,
    })
}

/// Lets a read of the source go ahead unless the request was cancelled.
pub fn cancellable_read(cancelled: bool) -> (gate: Result<(), AnyError>)
    ensures
        read_gated(cancelled, gate),
{
    if cancelled {
        Err(AnyError::io_message(IoErrorKind::ConnectionAborted, "archive request cancelled"))
    } else {
        Ok(())
    }
}

// ---------------------------------------------------------------------------------------------
// The course of a request
// ---------------------------------------------------------------------------------------------

/// How waiting for a place among the expensive tasks ended.
#[derive(Clone, Copy, Debug, PartialEq, Eq, Structural)]
pub enum PermitOutcome {
    Granted,
    TimedOut,
    Closed,
}

/// The failure that a permit outcome stands for.
pub open spec fn permit_failure(outcome: PermitOutcome, wait: Duration) -> Option<AdmissionError> {
    match outcome {
        PermitOutcome::Granted => None,
        PermitOutcome::TimedOut => Some(
            AdmissionError::Timeout {
                resource: AdmissionResource::ExpensiveTasks,
                kind: crate::error::AdmissionTimeoutKind::Queue { scope: QueueScope::WorkerPool },
                waited: wait,
            },
        ),
        PermitOutcome::Closed => Some(
            AdmissionError::Cancelled { resource: AdmissionResource::ExpensiveTasks },
        ),
    }
}

/// The answer to a permit.
pub open spec fn permit_answered(
    outcome: PermitOutcome,
    wait: Duration,
    result: Result<(), AdmissionError>,
) -> bool {
    &&& match result {
        Ok(()) => permit_failure(outcome, wait) is None,
        Err(error) => permit_failure(outcome, wait) == Some(error),
    }
}

/// Admission to the expensive tasks.
pub fn expensive_permit(outcome: PermitOutcome, wait: Duration) -> (result: Result<
    (),
    AdmissionError,
>)
    ensures
        permit_answered(outcome, wait, result),
{
    match outcome {
        PermitOutcome::Granted => Ok(()),
        PermitOutcome::TimedOut => Err(
            AdmissionError::queue_timeout(
                AdmissionResource::ExpensiveTasks,
                QueueScope::WorkerPool,
                wait,
            ),
        ),
        PermitOutcome::Closed => Err(AdmissionError::cancelled(AdmissionResource::ExpensiveTasks)),
    }
}

/// How the check of an archive before its first byte ended.
#[derive(Debug)]
pub enum PreflightOutcome {
    Passed,
    Rejected { error: AnyError },
    /// The worker ended without a verdict.
    WorkerLost,
    TimedOut,
}

/// What the request does next.
#[derive(Debug)]
pub enum ArchiveAction {
    AcquirePermit,
    /// Start the worker, which first checks and then produces.
    StartWorker,
    /// Name the attachment and answer without a body.
    RespondAttachment,
    /// Name the attachment and stream what the worker produces.
    StreamAttachment,
    /// The response is complete.
    Respond,
    /// Tell the worker that its deadline has passed; the response is complete.
    CancelAndRespond,
    Fail { error: AnyError },
}

/// A request for an archive, with the time that it may take altogether.
#[derive(Clone, Copy, Debug)]
pub struct ArchiveRequest {
    pub wait: Duration,
}

/// The response announces an archive.
pub open spec fn announces_archive(before: Response, after: Response) -> bool {
    &&& after.wf()
    &&& after.status == before.status
    &&& after.body == before.body
    &&& after.fields() == with_field(
        before.fields(),
        Field::ContentType,
        encode_utf8("application/zip"@),
    )
}

fn announce_archive(response: &mut Response)
    requires
        old(response).wf(),
    ensures
        announces_archive(*old(response), *final(response)),
{
    proof {
        reveal_strlit("application/zip");
        assert(printable("application/zip"@));
    }
    response.set_text(Field::ContentType, "application/zip");
}

impl ArchiveRequest {
    /// The first step of a request.
    pub open spec fn begun(
        before: Response,
        after: Response,
        head_only: bool,
        action: ArchiveAction,
    ) -> bool {
        &&& after.wf()
        &&& head_only ==> action is RespondAttachment && announces_archive(
            before,
            after,
        )
        &&& !head_only ==> action is AcquirePermit && after == before
    }

    /// The first step: a request for the header alone is answered at once.
    pub fn begin(&self, head_only: bool, response: &mut Response) -> (action: ArchiveAction)
        requires
            old(response).wf(),
        ensures
            ArchiveRequest::begun(*old(response), *final(response), head_only, action),
    {
        if head_only {
            announce_archive(response);
            ArchiveAction::RespondAttachment
        } else {
            ArchiveAction::AcquirePermit
        }
    }

    /// The step after waiting for a place.
    pub open spec fn permitted(
        self,
        before: Response,
        after: Response,
        outcome: PermitOutcome,
        action: ArchiveAction,
    ) -> bool {
        &&& after.wf()
        &&& match permit_failure(outcome, self.wait) {
            None => action is StartWorker && after == before,
            Some(_) => action is Respond && is_error_response(
                before,
                after,
                StatusCode::ServiceUnavailable,
                Some(Duration { secs: 1, nanos: 0 }),
                public_text(StatusCode::ServiceUnavailable),
            ),
        }
    }

    /// The step after waiting for a place among the expensive tasks.
    pub fn permit(&self, outcome: PermitOutcome, response: &mut Response) -> (action: ArchiveAction)
        requires
            old(response).wf(),
        ensures
            self.permitted(*old(response), *final(response), outcome, action),
    {
        match expensive_permit(outcome, self.wait) {
            Ok(()) => ArchiveAction::StartWorker,
            Err(error) => {
                ResponseError::admission(error).apply(response);
                ArchiveAction::Respond
            },
        }
    }

    /// The step after the check.
    pub open spec fn preflighted(
        before: Response,
        after: Response,
        outcome: PreflightOutcome,
        action: ArchiveAction,
    ) -> bool {
        &&& after.wf()
        &&& match outcome {
            PreflightOutcome::Passed => action is StreamAttachment && announces_archive(
                before,
                after,
            ),
            PreflightOutcome::Rejected { error } => action is Respond && {
                let (status, retry_after) = match typed_mapping(
                    error.links(),
                    ChangedStatus::Conflict,
                ) {
                    Some(mapped) => mapped,
                    None => (
                        fs_status(
                            classified(
                                "validating archive traversal and size",
                                error,
                                chain_class(error.links()),
                            ),
                            ChangedStatus::Conflict,
                        ),
                        None,
                    ),
                };
                is_error_response(
                    before,
                    after,
                    status,
                    retry_after,
                    public_text(status),
                )
            },
            PreflightOutcome::WorkerLost => {
                &&& action matches ArchiveAction::Fail { error } && error@ == said(
                    "archive worker terminated before reporting its budget preflight"@,
                )
                &&& after == before
            },
            PreflightOutcome::TimedOut => action is CancelAndRespond && is_error_response(
                before,
                after,
                StatusCode::GatewayTimeout,
                None,
                public_text(StatusCode::GatewayTimeout),
            ),
        }
    }

    /// The step after the check. Only an archive that passed is announced as a success.
    pub fn preflight(&self, outcome: PreflightOutcome, response: &mut Response) -> (action:
        ArchiveAction)
        requires
            old(response).wf(),
        ensures
            ArchiveRequest::preflighted(*old(response), *final(response), outcome, action),
    {
        match outcome {
            PreflightOutcome::Passed => {
                announce_archive(response);
                ArchiveAction::StreamAttachment
            },
            PreflightOutcome::Rejected { error } => {
                let mapped = ResponseError::from_anyhow_or_filesystem(
                    "validating archive traversal and size",
                    error,
                    ChangedStatus::Conflict,
                );
                mapped.apply(response);
                ArchiveAction::Respond
            },
            PreflightOutcome::WorkerLost => ArchiveAction::Fail {
                error: AnyError::message(
                    "archive worker terminated before reporting its budget preflight",
                ),
            },
            PreflightOutcome::TimedOut => {
                ResponseError::admission(
                    AdmissionError::execution_timeout(AdmissionResource::ExpensiveTasks, self.wait),
                ).apply(response);
                ArchiveAction::CancelAndRespond
            },
        }
    }
}

/// What came from the worker's channel.
#[derive(Debug)]
pub enum ChunkEvent {
    Chunk { bytes: Vec<u8> },
    /// The worker will send no more.
    Closed,
    DeadlineReached,
}

/// What the worker reported at its end.
#[derive(Debug)]
pub enum ResultEvent {
    Succeeded,
    Failed { error: AnyError },
    Lost,
    DeadlineReached,
}

/// What the response body does next.
#[derive(Debug)]
pub enum StreamAction {
    AwaitChunk,
    AwaitResult,
    Emit { bytes: Vec<u8> },
    /// Break the body off with an error.
    EmitError { error: AnyError },
    /// Tell the worker to stop, and break the body off with an error.
    CancelAndEmitError { error: AnyError },
    /// The body is complete.
    End,
}

/// The failure of an archive whose worker ended without a report.
pub open spec fn no_report() -> Fault {
    said("zip producer terminated without a result"@)
}

/// The body of an archive response.
#[derive(Clone, Copy, Debug, PartialEq, Eq, Structural)]
pub struct ArchiveStream {
    pub done: bool,
    pub result_taken: bool,
    pub timeout: Duration,
}

impl ArchiveStream {
    pub fn new(timeout: Duration) -> (stream: ArchiveStream)
        ensures
            stream == (ArchiveStream { done: false, result_taken: false, timeout }),
    {
        ArchiveStream { done: false, result_taken: false, timeout }
    }

    /// What the body waits for.
    pub open spec fn polled(
        stream: ArchiveStream,
        action: StreamAction,
    ) -> bool {
        &&& stream.done ==> action is End
        &&& !stream.done ==> action is AwaitChunk
    }

    /// What to wait for when the transport asks for more.
    pub fn poll(&self) -> (action: StreamAction)
        ensures
            ArchiveStream::polled(*self, action),
    {
        if self.done {
            StreamAction::End
        } else {
            StreamAction::AwaitChunk
        }
    }

    /// The step after waiting for a chunk.
    pub open spec fn chunk_taken(
        before: ArchiveStream,
        after: ArchiveStream,
        event: ChunkEvent,
        action: StreamAction,
    ) -> bool {
        &&& after.timeout == before.timeout
        &&& match event {
            ChunkEvent::Chunk { bytes } => {
                &&& action matches StreamAction::Emit { bytes: out } && out == bytes
                &&& after == before
            },
            ChunkEvent::DeadlineReached => {
                &&& action matches StreamAction::CancelAndEmitError { error } && error@
                    == timed_out(before.timeout)
                &&& after.done
                &&& after.result_taken == before.result_taken
            },
            ChunkEvent::Closed => if before.result_taken {
                &&& action matches StreamAction::EmitError { error } && error@ == no_report()
                &&& after.done
                &&& after.result_taken
            } else {
                action is AwaitResult && !after.done && after.result_taken
            },
        }
    }

    /// The step after waiting for a chunk. A channel that closes does not yet mean success.
    pub fn on_chunk(&mut self, event: ChunkEvent) -> (action: StreamAction)
        requires
            !old(self).done,
        ensures
            ArchiveStream::chunk_taken(*old(self), *final(self), event, action),
    {
        match event {
            ChunkEvent::Chunk { bytes } => StreamAction::Emit { bytes },
            ChunkEvent::DeadlineReached => {
                self.done = true;
                StreamAction::CancelAndEmitError { error: archive_timeout_error(self.timeout) }
            },
            ChunkEvent::Closed => {
                if self.result_taken {
                    self.done = true;
                    StreamAction::EmitError {
                        error: AnyError::message("zip producer terminated without a result"),
                    }
                } else {
                    self.result_taken = true;
                    StreamAction::AwaitResult
                }
            },
        }
    }

    /// The step after waiting for the report of the worker.
    pub open spec fn result_taken_in(
        before: ArchiveStream,
        after: ArchiveStream,
        event: ResultEvent,
        action: StreamAction,
    ) -> bool {
        &&& after.done
        &&& after.timeout == before.timeout
        &&& after.result_taken == before.result_taken
        &&& action is End <==> event is Succeeded
        &&& match event {
            ResultEvent::Succeeded => action is End,
            ResultEvent::Failed { error } => action matches StreamAction::EmitError {
                error: out,
            } && out == error,
            ResultEvent::Lost => action matches StreamAction::EmitError { error } && error@
                == no_report(),
            ResultEvent::DeadlineReached => action matches StreamAction::CancelAndEmitError {
                error,
            } && error@ == timed_out(before.timeout),
        }
    }

    /// The step after waiting for the worker's report. The body ends well only if the worker
    /// reported success, so that a cut-off archive never looks complete.
    pub fn on_result(&mut self, event: ResultEvent) -> (action: StreamAction)
        requires
            !old(self).done,
        ensures
            ArchiveStream::result_taken_in(*old(self), *final(self), event, action),
    {
        self.done = true;
        match event {
            ResultEvent::Succeeded => StreamAction::End,
            ResultEvent::Failed { error } => StreamAction::EmitError { error },
            ResultEvent::Lost => StreamAction::EmitError {
                error: AnyError::message("zip producer terminated without a result"),
            },
            ResultEvent::DeadlineReached => StreamAction::CancelAndEmitError {
                error: archive_timeout_error(self.timeout),
            },
        }
    }
}

// ---------------------------------------------------------------------------------------------
// What an archive holds
// ---------------------------------------------------------------------------------------------

/// An entry goes into the archive exactly where its name can stand there and, if it is a file,
/// its bytes fit what is left. A file counts its size, and nothing else counts anything.
pub proof fn law_checked_entries_fit(
    before: ArchiveBudget,
    after: ArchiveBudget,
    base: Seq<u8>,
    entry: ArchiveEntry,
    result: Result<(), AnyError>,
)
    requires
        ArchiveBudget::entry_checked(before, after, base, entry, result),
        before.wf(),
    ensures
        result is Ok <==> nameable(base, entry) && (entry.kind == EntryKind::File ==> entry.len
            <= before.limit - before.used),
        result is Ok && entry.kind == EntryKind::File ==> after.used == before.used + entry.len,
        result is Ok && entry.kind != EntryKind::File ==> after.used == before.used,
        result is Err ==> after.used == before.used,
        after.limit == before.limit,
{
}

/// A directory becomes a directory of the archive and a file becomes a file of it, under their
/// names and with their permissions; only what is neither is left out.
pub proof fn law_entries_become_what_they_are(
    budget: ArchiveBudget,
    base: Seq<u8>,
    entry: ArchiveEntry,
    compression: CompressionMethod,
    result: Result<AppendPlan, AnyError>,
)
    requires
        budget.entry_planned(base, entry, compression, result),
        budget.wf(),
        nameable(base, entry),
        entry.kind == EntryKind::File ==> entry.len <= budget.limit - budget.used,
    ensures
        entry.kind == EntryKind::Directory ==> (result matches Ok(
            AppendPlan::Directory { name, mode },
        ) && encode_utf8(name@) == named_bytes(base, entry) && mode == entry.mode & 0o7777),
        entry.kind == EntryKind::File ==> (result matches Ok(
            AppendPlan::File { name, mode, remaining, read_limit, large_file },
        ) && encode_utf8(name@) == named_bytes(base, entry) && mode == entry.mode & 0o7777
            && remaining == budget.limit - budget.used && entry.len <= read_limit && (read_limit
            == remaining + 1 || read_limit == u64::MAX) && (large_file <==> needs_zip64(
            remaining,
            compression,
        ))),
        entry.kind == EntryKind::Other <==> result matches Ok(AppendPlan::Skip),
{
}

/// The name of an entry can stand in an archive exactly where the entry lies beneath the archived
/// directory, its path is fit for an archive, and the name is not too long. Whether it is a file or
/// a directory matters only for the slash behind a directory's name.
pub proof fn law_what_can_be_named(base: Seq<u8>, entry: ArchiveEntry, rest: Seq<Part>)
    requires
        parts(entry.display_rel@) == parts(base) + rest,
    ensures
        nameable(base, entry) <==> archivable(rest) && entry_bytes(names_of(rest)).len() + (
        if entry.kind == EntryKind::Directory {
            1int
        } else {
            0
        }) <= 65535,
        nameable(base, entry) && entry.kind != EntryKind::Directory ==> named_bytes(base, entry)
            == entry_bytes(names_of(rest)),
        nameable(base, entry) && entry.kind == EntryKind::Directory ==> named_bytes(base, entry)
            == entry_bytes(names_of(rest)).push(47u8),
{
    crate::path::law_stripping_undoes_joining(parts(entry.display_rel@), parts(base), rest);
}

/// A copied file counts the bytes that were copied, and is too large exactly where they are more
/// than were left; a failed copy counts nothing and ends the archive.
pub proof fn law_copied_files_are_accounted_for(
    before: ArchiveBudget,
    after: ArchiveBudget,
    name: Seq<char>,
    remaining: u64,
    outcome: CopyOutcome,
    cancelled: bool,
    result: Result<(), AnyError>,
)
    requires
        ArchiveBudget::file_accounted(before, after, name, remaining, outcome, cancelled, result),
        remaining == before.limit - before.used,
    ensures
        result is Ok <==> (outcome matches CopyOutcome::Copied { bytes } && before.used + bytes
            <= before.limit),
        result is Ok ==> (outcome matches CopyOutcome::Copied { bytes } && after.used == before.used
            + bytes),
        result is Err ==> after.used == before.used,
        after.limit == before.limit,
{
}

/// An archive ends as a success exactly where every entry went in, the traversal reached its end,
/// and the archive was finished and flushed.
pub proof fn law_archives_end_well_only_when_complete(
    entry_error: Option<AnyError>,
    walk: Result<(), AnyError>,
    finished: Result<(), AnyError>,
    flushed: Result<(), AnyError>,
    result: Result<(), AnyError>,
    checked: Result<(), AnyError>,
)
    requires
        archive_ended(entry_error, walk, finished, flushed, result),
        check_ended(entry_error, walk, checked),
    ensures
        result is Ok <==> entry_error is None && walk is Ok && finished is Ok && flushed is Ok,
        checked is Ok <==> entry_error is None && walk is Ok,
        entry_error matches Some(error) ==> result == Err::<(), AnyError>(error) && checked == Err::<
            (),
            AnyError,
        >(error),
{
}

/// The bytes of an archive come out as they went in: what was held back and what is taken in are
/// what is handed out and what is held back, in order. A chunk is handed out exactly when it is
/// full.
pub proof fn law_chunks_lose_nothing(
    before: ArchiveChunkWriter,
    after: ArchiveChunkWriter,
    input: Seq<u8>,
    result: (usize, Option<Vec<u8>>),
)
    requires
        before.wf(),
        ArchiveChunkWriter::written(before, after, input, false, result),
    ensures
        result.0 <= input.len(),
        input.len() > 0 ==> result.0 > 0,
        before.buffer@ + input.take(result.0 as int) == (match result.1 {
            Some(bytes) => bytes@,
            None => Seq::empty(),
        }) + after.buffer@,
        result.1 is Some <==> before.buffer@.len() + input.len() >= before.capacity,
        result.1 matches Some(bytes) ==> bytes@.len() == before.capacity,
        after.capacity == before.capacity,
{
    assert((before.buffer@ + input.take(result.0 as int)).len() == chunk_bytes(result.1).len()
        + after.buffer@.len());
}

/// Flushing hands out all that is held back, and nothing more is held back.
pub proof fn law_flushing_hands_out_the_rest(
    before: ArchiveChunkWriter,
    after: ArchiveChunkWriter,
    cancelled: bool,
    chunk: Option<Vec<u8>>,
)
    requires
        ArchiveChunkWriter::buffer_sent(before, after, cancelled, chunk),
    ensures
        after.buffer@.len() == 0,
        chunk matches Some(bytes) ==> bytes@ == before.buffer@,
        chunk is Some <==> !cancelled && before.buffer@.len() > 0,
{
}

/// A full channel is tried again as long as the request lives, and a receiver that is gone ends
/// the archive.
pub proof fn law_chunks_are_handed_over(cancelled: bool, attempt: SendAttempt, action: SendAction)
    requires
        ArchiveChunkWriter::send_answered(cancelled, attempt, action),
    ensures
        action is Pause <==> attempt == SendAttempt::Full && !cancelled,
        action is Fail <==> attempt == SendAttempt::Closed,
        action is Done <==> attempt == SendAttempt::Sent || (attempt == SendAttempt::Full
            && cancelled),
{
}

/// A request for an archive waits for its turn, checks the whole tree, and then streams it; a
/// request for the header is told of the archive at once.
pub proof fn law_archives_are_streamed(
    request: ArchiveRequest,
    before: Response,
    begun: Response,
    permitted: Response,
    after: Response,
    head_only: bool,
    outcome: PermitOutcome,
    first: ArchiveAction,
    second: ArchiveAction,
    third: ArchiveAction,
)
    requires
        ArchiveRequest::begun(before, begun, head_only, first),
        request.permitted(begun, permitted, outcome, second),
        ArchiveRequest::preflighted(permitted, after, PreflightOutcome::Passed, third),
    ensures
        head_only <==> first is RespondAttachment,
        !head_only <==> first is AcquirePermit,
        head_only ==> begun.has(Field::ContentType, encode_utf8("application/zip"@)) && begun.status
            == before.status && begun.body == before.body,
        !head_only ==> begun == before,
        outcome == PermitOutcome::Granted <==> second is StartWorker,
        outcome != PermitOutcome::Granted ==> second is Respond && permitted.status
            == StatusCode::ServiceUnavailable,
        outcome == PermitOutcome::Granted ==> permitted == begun,
        third is StreamAttachment,
        after.status == permitted.status,
        after.has(Field::ContentType, encode_utf8("application/zip"@)),
{
}

/// An archive that does not pass the check is answered with an error and never announced.
pub proof fn law_failed_checks_are_answered(
    before: Response,
    after: Response,
    outcome: PreflightOutcome,
    action: ArchiveAction,
)
    requires
        ArchiveRequest::preflighted(before, after, outcome, action),
    ensures
        action is StreamAttachment <==> outcome is Passed,
        action is Respond <==> outcome is Rejected,
        action is Fail <==> outcome is WorkerLost,
        action is CancelAndRespond <==> outcome is TimedOut,
        outcome is TimedOut ==> after.status == StatusCode::GatewayTimeout,
        outcome is WorkerLost ==> after == before,
        outcome matches PreflightOutcome::Rejected { error } ==> (typed_mapping(
            error.links(),
            ChangedStatus::Conflict,
        ) matches Some((status, _)) ==> after.status == status),
{
}

/// The body of an archive is every chunk as it comes, and it ends well exactly where the worker
/// reported success after its last chunk.
pub proof fn law_bodies_are_what_the_worker_sends(
    before: ArchiveStream,
    after: ArchiveStream,
    event: ChunkEvent,
    action: StreamAction,
)
    requires
        ArchiveStream::chunk_taken(before, after, event, action),
        !before.done,
    ensures
        event matches ChunkEvent::Chunk { bytes } ==> (action matches StreamAction::Emit {
            bytes: sent,
        } && sent@ == bytes@ && after == before),
        event is Closed && !before.result_taken ==> action is AwaitResult && !after.done,
        event is DeadlineReached ==> action is CancelAndEmitError && after.done,
        action is Emit <==> event is Chunk,
        !(action is End),
{
}

/// A body is complete exactly where the worker reported success, and broken off otherwise.
pub proof fn law_bodies_end_with_the_report(
    before: ArchiveStream,
    after: ArchiveStream,
    event: ResultEvent,
    action: StreamAction,
)
    requires
        ArchiveStream::result_taken_in(before, after, event, action),
    ensures
        after.done,
        action is End <==> event is Succeeded,
        action is CancelAndEmitError <==> event is DeadlineReached,
        action is EmitError <==> event is Failed || event is Lost,
        event matches ResultEvent::Failed { error } ==> (action matches StreamAction::EmitError {
            error: sent,
        } && sent == error),
{
}

/// An archive is named after its directory wherever that has a name that is text.
pub proof fn law_archives_are_named_after_their_directory(path: Seq<u8>, name: Seq<u8>)
    ensures
        last_name(parts(path)) == Some(name) && valid_utf8(name) ==> download_name(path) == name
            + encode_utf8(".zip"@),
        last_name(parts(path)) is None || !valid_utf8(last_name(parts(path))->Some_0)
            ==> download_name(path) == encode_utf8("archive.zip"@),
{
}

/// The wide format is used exactly where an entry could outgrow the narrow one: read in full with
/// one byte that shows growth, or deflated to what that can become at most.
pub proof fn law_wide_entries(remaining: u64)
    ensures
        needs_zip64(remaining, CompressionMethod::Stored) <==> remaining >= 0xffff_ffff,
        needs_zip64(remaining, CompressionMethod::Other),
        needs_zip64(remaining, CompressionMethod::Stored) ==> needs_zip64(
            remaining,
            CompressionMethod::Deflated,
        ),
        needs_zip64(remaining, CompressionMethod::Deflated) <==> remaining + 1 + (remaining + 8) / 8
            + 64 > 0xffff_ffff,
{
}

/// The failure of a worker is an error only where nobody ended its work: interruptions are
/// ordinary, and a deadline is worth a warning.
pub proof fn law_levels_of_worker_failures(
    reason: CancellationReason,
    error: AnyError,
    level: LogLevel,
)
    requires
        logged_at(reason, error, level),
    ensures
        level == LogLevel::Warn <==> reason == CancellationReason::DeadlineExceeded,
        level == LogLevel::Error ==> reason == CancellationReason::Running,
        reason == CancellationReason::RequestDropped || reason == CancellationReason::Shutdown
            ==> level == LogLevel::Debug,
{
}

/// A traversal ended well exactly where no entry failed and it came to its end; what an entry
/// failed with comes first, and is told as it is.
pub proof fn law_traversals_end_with_their_first_failure(
    entry_error: Option<AnyError>,
    walk: Result<(), AnyError>,
    context: Seq<char>,
    result: Result<(), AnyError>,
)
    requires
        traversal_ended(entry_error, walk, context, result),
    ensures
        result is Ok <==> entry_error is None && walk is Ok,
        entry_error matches Some(error) ==> result == Err::<(), AnyError>(error),
{
}

/// Files are read on exactly while the request is there, a body waits for its next piece exactly
/// while it is not done, and an expensive task begins exactly where a place was granted.
pub proof fn law_work_goes_on_while_it_is_wanted(
    cancelled: bool,
    gate: Result<(), AnyError>,
    stream: ArchiveStream,
    action: StreamAction,
    outcome: PermitOutcome,
    wait: Duration,
    result: Result<(), AdmissionError>,
)
    requires
        read_gated(cancelled, gate),
        ArchiveStream::polled(stream, action),
        permit_answered(outcome, wait, result),
    ensures
        gate is Ok <==> !cancelled,
        action is AwaitChunk <==> !stream.done,
        action is End <==> stream.done,
        result is Ok <==> outcome is Granted,
        outcome is Closed ==> result == Err::<(), AdmissionError>(
            AdmissionError::Cancelled { resource: AdmissionResource::ExpensiveTasks },
        ),
        outcome is TimedOut ==> (result matches Err(AdmissionError::Timeout { resource, waited, .. })
            && resource is ExpensiveTasks && waited == wait),
{
}

/// A failed worker is worth an error in the log exactly where nobody stopped it and no cause of
/// its failure is that the client went away.
pub proof fn law_lost_clients_are_no_errors(
    reason: CancellationReason,
    error: AnyError,
    level: LogLevel,
)
    requires
        logged_at(reason, error, level),
    ensures
        level == LogLevel::Error <==> reason == CancellationReason::Running && !(exists|i: int|
            0 <= i < error.links().len() && match #[trigger] error.links()[i] {
                AnyError::Io { kind, .. } => kind is BrokenPipe || kind is ConnectionReset
                    || kind is ConnectionAborted,
                AnyError::IoMessage { kind, .. } => kind is BrokenPipe || kind is ConnectionReset
                    || kind is ConnectionAborted,
                _ => false,
            }),
{
    let links = error.links();
    if exists|i: int| 0 <= i < links.len() && disconnect_link(#[trigger] links[i]) {
        let i = choose|i: int| 0 <= i < links.len() && disconnect_link(#[trigger] links[i]);
        assert(disconnect_link(links[i]));
        assert(match links[i] {
            AnyError::Io { kind, .. } => kind is BrokenPipe || kind is ConnectionReset
                || kind is ConnectionAborted,
            AnyError::IoMessage { kind, .. } => kind is BrokenPipe || kind is ConnectionReset
                || kind is ConnectionAborted,
            _ => false,
        });
    } else {
        assert forall|i: int| 0 <= i < links.len() implies !(match #[trigger] links[i] {
            AnyError::Io { kind, .. } => kind is BrokenPipe || kind is ConnectionReset
                || kind is ConnectionAborted,
            AnyError::IoMessage { kind, .. } => kind is BrokenPipe || kind is ConnectionReset
                || kind is ConnectionAborted,
            _ => false,
        }) by {
            assert(!disconnect_link(links[i]));
        }
    }
}

/// A nameable entry that does not go in exceeds the size budget, and the error tells the budget. A
/// copy that fails is told with its own cause while the request is there, and as a cancelled
/// archive otherwise.
pub proof fn law_archive_failures_tell_their_cause(
    before: ArchiveBudget,
    after: ArchiveBudget,
    base: Seq<u8>,
    entry: ArchiveEntry,
    checked: Result<(), AnyError>,
    name: Seq<char>,
    remaining: u64,
    error: AnyError,
    cancelled: bool,
    result: Result<(), AnyError>,
)
    requires
        ArchiveBudget::entry_checked(before, after, base, entry, checked),
        ArchiveBudget::file_accounted(
            before,
            after,
            name,
            remaining,
            CopyOutcome::Failed { error },
            cancelled,
            result,
        ),
    ensures
        nameable(base, entry) ==> (checked matches Err(e) ==> (e@.admission() matches Some(
            AdmissionError::LimitExceeded { resource, limit, .. },
        ) && resource is ArchiveBytes && limit == before.limit)),
        cancelled ==> (result matches Err(e) && e@.admission() == Some(
            AdmissionError::Cancelled { resource: AdmissionResource::ArchiveBytes },
        )),
        !cancelled ==> (result matches Err(e) && e@ matches Fault::Context { source, .. } && *source
            == error@),
{
    reveal_with_fuel(Fault::admission, 3);
}

} // verus!
