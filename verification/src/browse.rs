//! Directory listings and searches.
//!
//! The walkers hand over one entry after another. What stands here decides which entries a
//! caller sees, when a listing is cut off, and how it is sent.
use crate::archive::{expensive_permit, permit_failure, PermitOutcome};
use crate::content::{
    apply_generated_preconditions, apply_read_precondition_outcome, generated_etag_value,
    ReadPreconditionOutcome,
};
use crate::error::{
    chain_class, classified, typed_mapping, AdmissionError, AdmissionResource, AnyError,
    ChangedStatus, FsError, ResponseError, ResponseErrorSource,
};
use crate::fault::{failed, in_context, said, Fault, FsKind};
use crate::filesystem::entry::Metadata;
use crate::filesystem::resolve::{asset_fault, validate_trusted_asset_metadata};
use crate::path::{join_components, parts, rest_bytes, strip_prefix, stripped};
use crate::response::{
    lemma_field_keys_differ, printable, with_field, Body, CachePolicy, Field, Response, StatusCode,
};
use crate::sorting::{lowercase, path_type, to_lowercase, PathItem, PathType};
use crate::text::{copy_bytes, decimal, is_text, same_bytes, string_from_utf8, TextBuilder};
use crate::time::Duration;
use vstd::prelude::*;
use vstd::utf8::*;

verus! {

// ---------------------------------------------------------------------------------------------
// Entries
// ---------------------------------------------------------------------------------------------

/// An entry that a walker opened, with what its name and its place mean to the caller.
#[derive(Debug)]
pub struct WalkedEntry {
    pub name: Vec<u8>,
    /// The path under which the entry is shown.
    pub display_rel: Vec<u8>,
    /// The path at which the opened object really is.
    pub real_rel: Vec<u8>,
    pub is_symlink: bool,
    pub is_dir: bool,
    pub len: u64,
    pub modified: Option<u64>,
    pub created: Option<u64>,
    /// The name is that of one of the server's own temporary files.
    pub internal_temp: bool,
    /// The caller may reach the place at which the object really is.
    pub allowed: bool,
    /// The name is hidden by configuration.
    pub hidden: bool,
}

/// The time that a listing shows: of modification, else of creation, else none.
pub open spec fn shown_time(entry: WalkedEntry) -> u64 {
    match entry.modified {
        Some(time) => time,
        None => match entry.created {
            Some(time) => time,
            None => 0,
        },
    }
}

/// The line of a listing for an entry.
pub open spec fn shows(item: PathItem, entry: WalkedEntry, name: Seq<u8>) -> bool {
    &&& item.path_type == path_type(entry.is_symlink, entry.is_dir)
    &&& encode_utf8(item.name@) == name
    &&& item.mtime == shown_time(entry)
    &&& item.size == (if entry.is_dir {
        0
    } else {
        entry.len
    })
    &&& item.size_known == !entry.is_dir
}

fn line_for(entry: &WalkedEntry, name: String) -> (item: PathItem)
    ensures
        shows(item, *entry, encode_utf8(name@)),
{
    let mtime: u64 = match entry.modified {
        Some(time) => time,
        None => match entry.created {
            Some(time) => time,
            None => 0,
        },
    };
    PathItem {
        path_type: PathType::of(entry.is_symlink, entry.is_dir),
        name,
        mtime,
        size: if entry.is_dir {
            0
        } else {
            entry.len
        },
        size_known: !entry.is_dir,
    }
}

/// What the walker does next.
#[derive(Clone, Copy, Debug, PartialEq, Eq, Structural)]
pub enum VisitAction {
    Continue,
    SkipDirectory,
    Stop,
}

/// What becomes of an entry.
#[derive(Clone, Copy, Debug, PartialEq, Eq, Structural)]
pub enum Verdict {
    /// The caller does not learn of it.
    Unseen,
    /// It cannot be shown, and the caller learns that something was left out.
    Omitted,
    /// There is no more room.
    CutOff,
    Shown,
}

// ---------------------------------------------------------------------------------------------
// Listings
// ---------------------------------------------------------------------------------------------

/// The listing of a directory so far.
#[derive(Debug)]
pub struct DirectoryListing {
    pub paths: Vec<PathItem>,
    pub truncated: bool,
    pub omitted_non_utf8: bool,
}

/// Whether a name is one of the given texts.
pub open spec fn named_among(names: Seq<Seq<char>>, name: Seq<u8>) -> bool {
    exists|i: int| 0 <= i < names.len() && encode_utf8(#[trigger] names[i]) == name
}

/// Whether a caller who sees only certain children sees this one.
pub open spec fn child_visible(children: Option<Seq<Seq<char>>>, name: Seq<u8>) -> bool {
    match children {
        None => true,
        Some(names) => named_among(names, name),
    }
}

pub open spec fn children_view(children: Option<Vec<String>>) -> Option<Seq<Seq<char>>> {
    match children {
        Some(names) => Some(names@.map_values(|name: String| name@)),
        None => None,
    }
}

/// What becomes of an entry in a listing that already has `count` lines.
pub open spec fn listing_verdict(
    entry: WalkedEntry,
    children: Option<Seq<Seq<char>>>,
    count: nat,
    max_entries: usize,
) -> Verdict {
    if !valid_utf8(entry.name@) {
        // A caller who sees only certain children must not learn of others.
        if children is None {
            Verdict::Omitted
        } else {
            Verdict::Unseen
        }
    } else if entry.internal_temp || !child_visible(children, entry.name@) {
        Verdict::Unseen
    } else if !valid_utf8(entry.real_rel@) {
        Verdict::Omitted
    } else if !entry.allowed || entry.hidden {
        Verdict::Unseen
    } else if count >= max_entries {
        Verdict::CutOff
    } else {
        Verdict::Shown
    }
}

/// What taking in one entry does to a listing. The result tells whether the walker goes on.
pub open spec fn listing_step(
    before: DirectoryListing,
    after: DirectoryListing,
    entry: WalkedEntry,
    children: Option<Seq<Seq<char>>>,
    shown_name: Result<String, AnyError>,
    max_entries: usize,
    result: Result<bool, AnyError>,
) -> bool {
    &&& after.truncated == before.truncated
    &&& match listing_verdict(entry, children, before.paths@.len(), max_entries) {
        Verdict::Unseen => {
            &&& result == Ok::<bool, AnyError>(true)
            &&& after.paths@ == before.paths@
            &&& after.omitted_non_utf8 == before.omitted_non_utf8
        },
        Verdict::Omitted => {
            &&& result == Ok::<bool, AnyError>(true)
            &&& after.paths@ == before.paths@
            &&& after.omitted_non_utf8
        },
        Verdict::CutOff => {
            &&& result == Ok::<bool, AnyError>(false)
            &&& after.paths@ == before.paths@
            &&& after.omitted_non_utf8 == before.omitted_non_utf8
        },
        Verdict::Shown => {
            &&& after.omitted_non_utf8 == before.omitted_non_utf8
            &&& match shown_name {
                Ok(name) => {
                    &&& result == Ok::<bool, AnyError>(true)
                    &&& after.paths@.len() == before.paths@.len() + 1
                    &&& after.paths@.drop_last() == before.paths@
                    &&& shows(after.paths@.last(), entry, encode_utf8(name@))
                },
                Err(error) => {
                    &&& result == Err::<bool, AnyError>(error)
                    &&& after.paths@ == before.paths@
                },
            }
        },
    }
}

fn is_child_visible(children: &Option<Vec<String>>, name: &[u8]) -> (visible: bool)
    ensures
        visible == child_visible(children_view(*children), name@),
{
    match children {
        None => true,
        Some(names) => {
            let ghost views = names@.map_values(|name: String| name@);
            let mut i: usize = 0;
            while i < names.len()
                invariant
                    i <= names@.len(),
                    views == names@.map_values(|name: String| name@),
                    children_view(*children) == Some(views),
                    forall|j: int| 0 <= j < i ==> encode_utf8(#[trigger] views[j]) != name@,
                decreases names.len() - i,
            {
                assert(views[i as int] == names@[i as int]@);
                if same_bytes(names[i].as_str().as_bytes(), name) {
                    assert(views.len() == names@.len());
                    assert(encode_utf8(views[i as int]) == name@);
                    assert(named_among(views, name@));
                    return true;
                }
                i = i + 1;
            }
            false
        },
    }
}

impl DirectoryListing {
    pub fn new() -> (listing: DirectoryListing)
        ensures
            listing.paths@ == Seq::<PathItem>::empty(),
            !listing.truncated,
            !listing.omitted_non_utf8,
    {
        DirectoryListing { paths: Vec::new(), truncated: false, omitted_non_utf8: false }
    }

    /// Takes in one entry of the directory. The walker stops when the listing is full and
    /// there is one more entry to show.
    pub fn visit(
        &mut self,
        entry: &WalkedEntry,
        visible_children: &Option<Vec<String>>,
        shown_name: Result<String, AnyError>,
        max_entries: usize,
    ) -> (result: Result<bool, AnyError>)
        ensures
            listing_step(
                *old(self),
                *final(self),
                *entry,
                children_view(*visible_children),
                shown_name,
                max_entries,
                result,
            ),
    {
        if !is_text(entry.name.as_slice()) {
            if visible_children.is_none() {
                self.omitted_non_utf8 = true;
            }
            return Ok(true);
        }
        if entry.internal_temp {
            return Ok(true);
        }
        if !is_child_visible(visible_children, entry.name.as_slice()) {
            return Ok(true);
        }
        if !is_text(entry.real_rel.as_slice()) {
            self.omitted_non_utf8 = true;
            return Ok(true);
        }
        if !entry.allowed {
            return Ok(true);
        }
        if entry.hidden {
            return Ok(true);
        }
        if self.paths.len() >= max_entries {
            return Ok(false);
        }
        match shown_name {
            Ok(name) => {
                let ghost before = self.paths@;
                self.paths.push(line_for(entry, name));
                assert(self.paths@.drop_last() =~= before);
                Ok(true)
            },
            Err(error) => Err(error),
        }
    }

    /// The end of a scan: its listing, or why it shows nothing.
    pub open spec fn finished(
        self,
        cancelled: bool,
        scan: Result<bool, AnyError>,
        directory_allowed: bool,
        result: Result<DirectoryListing, AnyError>,
    ) -> bool {
        &&& match result {
            Ok(listing) => {
                &&& !cancelled
                &&& directory_allowed
                &&& scan matches Ok(truncated) && listing.truncated == truncated
                &&& listing.paths@ == self.paths@
                &&& listing.omitted_non_utf8 == self.omitted_non_utf8
            },
            Err(error) => if cancelled {
                error@ == in_context(
                    Fault::Admission {
                        error: (AdmissionError::Cancelled {
                            resource: AdmissionResource::WalkEntries,
                        }),
                    },
                    "directory listing was cancelled"@,
                )
            } else {
                match scan {
                    Err(cause) => error == cause,
                    Ok(_) => !directory_allowed && error@ == failed(
                        FsKind::OutsideRoot,
                        "listing directory"@,
                        said("opened directory is outside the request ACL"@),
                    ),
                }
            },
        }
    }

    /// The end of a scan. A cancelled scan shows nothing, and neither does one of a directory
    /// that turned out to lie where the caller may not look.
    pub fn finish(
        self,
        cancelled: bool,
        scan: Result<bool, AnyError>,
        directory_allowed: bool,
    ) -> (result: Result<DirectoryListing, AnyError>)
        ensures
            self.finished(cancelled, scan, directory_allowed, result),
    {
        if cancelled {
            return Err(
                AnyError::admission(AdmissionError::cancelled(AdmissionResource::WalkEntries)).context(
                    "directory listing was cancelled",
                ),
            );
        }
        let truncated = match scan {
            Ok(truncated) => truncated,
            Err(error) => {
                return Err(error);
            },
        };
        if !directory_allowed {
            return Err(
                AnyError::filesystem(
                    FsError::outside_root(
                        "listing directory",
                        AnyError::message("opened directory is outside the request ACL"),
                    ),
                ),
            );
        }
        Ok(
            DirectoryListing {
                paths: self.paths,
                truncated,
                omitted_non_utf8: self.omitted_non_utf8,
            },
        )
    }
}

/// The number of lines that a listing may have.
pub open spec fn limited(requested: Option<usize>, configured: usize, limit: usize) -> bool {
    &&& limit == match requested {
        Some(wanted) => if wanted < configured {
            wanted
        } else {
            configured
        },
        None => configured,
    }
}

/// The number of lines that a listing may have.
pub fn listing_limit(requested: Option<usize>, configured: usize) -> (limit: usize)
    ensures
        limited(requested, configured, limit),
{
    match requested {
        Some(wanted) => if wanted < configured {
            wanted
        } else {
            configured
        },
        None => configured,
    }
}

// ---------------------------------------------------------------------------------------------
// Searches
// ---------------------------------------------------------------------------------------------

/// Whether one byte string holds another one.
pub open spec fn holds(bytes: Seq<u8>, part: Seq<u8>) -> bool {
    exists|at: int| #[trigger] holds_at(bytes, part, at)
}

pub open spec fn holds_at(bytes: Seq<u8>, part: Seq<u8>, at: int) -> bool {
    0 <= at && at + part.len() <= bytes.len() && bytes.subrange(at, at + part.len()) == part
}

/// Whether a lowered name holds the lowered text that is searched.
pub fn name_matches(lowered_name: &str, search: &str) -> (matches: bool)
    ensures
        matches == holds(encode_utf8(lowered_name@), encode_utf8(search@)),
{
    let bytes = lowered_name.as_bytes();
    let part = search.as_bytes();
    let whole: usize = bytes.len();
    let width: usize = part.len();
    if width > whole {
        return false;
    }
    let last: usize = whole - width;
    let mut at: usize = 0;
    while at <= last
        invariant
            at <= last + 1,
            whole == bytes@.len(),
            width == part@.len(),
            last + width == whole,
            bytes@ == encode_utf8(lowered_name@),
            part@ == encode_utf8(search@),
            forall|k: int| 0 <= k < at ==> !#[trigger] holds_at(bytes@, part@, k),
        decreases last + 1 - at,
    {
        if same_bytes(vstd::slice::slice_subrange(bytes, at, at + width), part) {
            assert(holds_at(bytes@, part@, at as int));
            return true;
        }
        assert(!holds_at(bytes@, part@, at as int));
        if at == last {
            return false;
        }
        at = at + 1;
    }
    false
}

/// A search so far.
#[derive(Debug)]
pub struct SearchState {
    pub paths: Vec<PathItem>,
    pub result_limit_hit: bool,
    pub omitted_non_utf8: bool,
    pub path_error: Option<AnyError>,
}

/// The path of an entry behind the directory that is searched.
pub open spec fn found_name(base: Seq<u8>, entry: WalkedEntry) -> Option<Seq<u8>> {
    match stripped(parts(entry.display_rel@), parts(base)) {
        Some(rest) => Some(rest_bytes(rest)),
        None => None,
    }
}

/// What becomes of an entry in a search that already has `count` results.
pub open spec fn search_verdict(
    entry: WalkedEntry,
    search: Seq<char>,
    count: nat,
    max_results: usize,
) -> Verdict {
    if !valid_utf8(entry.name@) || !valid_utf8(entry.display_rel@) || !valid_utf8(
        entry.real_rel@,
    ) {
        Verdict::Omitted
    } else if !holds(encode_utf8(lowercase(decode_utf8(entry.name@))), encode_utf8(search)) {
        Verdict::Unseen
    } else if count >= max_results {
        Verdict::CutOff
    } else {
        Verdict::Shown
    }
}


/// What the walker does at an entry that cannot be shown: its children cannot be either.
pub open spec fn pass_by(entry: WalkedEntry) -> VisitAction {
    if entry.is_dir {
        VisitAction::SkipDirectory
    } else {
        VisitAction::Continue
    }
}

/// What taking in one entry does to a search, and what the walker does next.
pub open spec fn search_step(
    before: SearchState,
    after: SearchState,
    entry: WalkedEntry,
    base: Seq<u8>,
    search: Seq<char>,
    max_results: usize,
    action: VisitAction,
) -> bool {
    match search_verdict(entry, search, before.paths@.len(), max_results) {
        Verdict::Omitted => {
            &&& action == pass_by(entry)
            &&& after.omitted_non_utf8
            &&& after.paths@ == before.paths@
            &&& after.result_limit_hit == before.result_limit_hit
            &&& after.path_error == before.path_error
        },
        Verdict::Unseen => {
            &&& action == VisitAction::Continue
            &&& after == before
        },
        Verdict::CutOff => {
            &&& action == VisitAction::Stop
            &&& after.result_limit_hit
            &&& after.paths@ == before.paths@
            &&& after.omitted_non_utf8 == before.omitted_non_utf8
            &&& after.path_error == before.path_error
        },
        Verdict::Shown => {
            &&& after.result_limit_hit == before.result_limit_hit
            &&& match found_name(base, entry) {
                None => {
                    &&& action == VisitAction::Stop
                    &&& after.path_error matches Some(e) && e@ == said(
                        "walked search path escaped its display root: prefix not found"@,
                    )
                    &&& after.paths@ == before.paths@
                    &&& after.omitted_non_utf8 == before.omitted_non_utf8
                },
                Some(name) => {
                    &&& after.path_error == before.path_error
                    &&& if valid_utf8(name) {
                        &&& action == VisitAction::Continue
                        &&& after.omitted_non_utf8 == before.omitted_non_utf8
                        &&& after.paths@.len() == before.paths@.len() + 1
                        &&& after.paths@.drop_last() == before.paths@
                        &&& shows(after.paths@.last(), entry, name)
                    } else {
                        &&& action == pass_by(entry)
                        &&& after.omitted_non_utf8
                        &&& after.paths@ == before.paths@
                    }
                },
            }
        },
    }
}

impl SearchState {
    pub fn new() -> (state: SearchState)
        ensures
            state.paths@ == Seq::<PathItem>::empty(),
            !state.result_limit_hit,
            !state.omitted_non_utf8,
            state.path_error is None,
    {
        SearchState {
            paths: Vec::new(),
            result_limit_hit: false,
            omitted_non_utf8: false,
            path_error: None,
        }
    }

    /// Takes in one entry of the tree. The search stops when it is full and there is one more
    /// result, or when an entry does not lie in the searched directory.
    pub fn visit(
        &mut self,
        entry: &WalkedEntry,
        base: &[u8],
        search: &str,
        max_results: usize,
    ) -> (action: VisitAction)
        ensures
            search_step(*old(self), *final(self), *entry, base@, search@, max_results, action),
    {
        let pass = if entry.is_dir {
            VisitAction::SkipDirectory
        } else {
            VisitAction::Continue
        };
        if !is_text(entry.name.as_slice()) || !is_text(entry.display_rel.as_slice()) || !is_text(
            entry.real_rel.as_slice(),
        ) {
            self.omitted_non_utf8 = true;
            return pass;
        }
        let name = string_from_utf8(copy_bytes(entry.name.as_slice()));
        proof {
            encode_utf8_decode_utf8(name@);
        }
        let lowered = to_lowercase(name.as_str());
        if !name_matches(lowered.as_str(), search) {
            return VisitAction::Continue;
        }
        if self.paths.len() >= max_results {
            self.result_limit_hit = true;
            return VisitAction::Stop;
        }
        match strip_prefix(entry.display_rel.as_slice(), base) {
            None => {
                self.path_error =
                Some(AnyError::message("walked search path escaped its display root: prefix not found"));
                VisitAction::Stop
            },
            Some(rest) => {
                let bytes = join_components(&rest);
                if !is_text(bytes.as_slice()) {
                    self.omitted_non_utf8 = true;
                    return pass;
                }
                let shown = string_from_utf8(bytes);
                let ghost before = self.paths@;
                self.paths.push(line_for(entry, shown));
                assert(self.paths@.drop_last() =~= before);
                VisitAction::Continue
            },
        }
    }

    /// The end of a search: its results, or why it shows none.
    pub open spec fn finished(
        self,
        walk: Result<bool, AnyError>,
        result: Result<DirectoryListing, AnyError>,
    ) -> bool {
        &&& match result {
            Ok(found) => {
                &&& self.path_error is None
                &&& walk matches Ok(omitted) && found.omitted_non_utf8 == (
                self.omitted_non_utf8 || omitted)
                &&& found.paths@ == self.paths@
                &&& found.truncated == self.result_limit_hit
            },
            Err(error) => match self.path_error {
                Some(cause) => error == cause,
                None => walk == Err::<bool, AnyError>(error),
            },
        }
    }

    /// The end of a search. An entry out of place comes before a failure of the walk; otherwise
    /// what the walk left out is added to what the search left out.
    pub fn finish(self, walk: Result<bool, AnyError>) -> (result: Result<DirectoryListing, AnyError>)
        ensures
            self.finished(walk, result),
    {
        match self.path_error {
            Some(error) => {
                return Err(error);
            },
            None => {},
        }
        match walk {
            Ok(omitted) => Ok(
                DirectoryListing {
                    paths: self.paths,
                    truncated: self.result_limit_hit,
                    omitted_non_utf8: self.omitted_non_utf8 || omitted,
                },
            ),
            Err(error) => Err(error),
        }
    }
}

/// What a request to search starts with.
#[derive(Debug)]
pub enum SearchStart {
    /// Nothing is searched: the directory is listed.
    List,
    Search { text: String },
}

/// How a search starts.
pub open spec fn search_chosen(
    lowered: Option<String>,
    result: Result<SearchStart, AnyError>,
) -> bool {
    &&& match lowered {
        None => result matches Err(e) && e@ == said("invalid q"@),
        Some(text) => if text@.len() == 0 {
            result matches Ok(SearchStart::List)
        } else {
            result matches Ok(SearchStart::Search { text: held }) && held == text
        },
    }
}

/// What a request to search starts with, for the text in lower case.
pub fn search_start(lowered: Option<String>) -> (result: Result<SearchStart, AnyError>)
    ensures
        search_chosen(lowered, result),
{
    match lowered {
        None => Err(AnyError::message("invalid q")),
        Some(text) => {
            if text.as_str().is_empty() {
                Ok(SearchStart::List)
            } else {
                Ok(SearchStart::Search { text })
            }
        },
    }
}

/// What a request to search starts with.
pub open spec fn search_begun(q: Option<Seq<char>>, result: Result<SearchStart, AnyError>) -> bool {
    &&& match q {
        None => result matches Err(e) && e@ == said("invalid q"@),
        Some(text) => if lowercase(text).len() == 0 {
            result matches Ok(SearchStart::List)
        } else {
            result matches Ok(SearchStart::Search { text: held }) && held@ == lowercase(text)
        },
    }
}

/// What a request to search starts with. The text is searched without regard to case.
pub fn search_query(q: Option<&str>) -> (result: Result<SearchStart, AnyError>)
    ensures
        search_begun(
            match q {
                Some(text) => Some(text@),
                None => None,
            },
            result,
        ),
{
    match q {
        None => search_start(None),
        Some(text) => search_start(Some(to_lowercase(text))),
    }
}

// ---------------------------------------------------------------------------------------------
// The course of a request
// ---------------------------------------------------------------------------------------------

/// How a request for a generated page goes on.
#[derive(Clone, Copy, Debug, PartialEq, Eq, Structural)]
pub enum PageStart {
    /// The response is complete.
    Answered,
    /// The page is generated in full.
    Generate,
    /// Only the header is made, without generating the page.
    HeaderOnly,
}

/// How a request for a generated page goes on, and what its response says so far.
pub open spec fn page_begun(
    before: Response,
    after: Response,
    head_only: bool,
    head_outcome: Option<ReadPreconditionOutcome>,
    start: PageStart,
) -> bool {
    &&& after.wf()
    &&& match (head_only, head_outcome) {
        (true, Some(ReadPreconditionOutcome::Proceed)) => {
            &&& start == PageStart::HeaderOnly
            &&& after == before
        },
        (true, Some(outcome)) => {
            let cached = with_field(
                before.fields(),
                Field::CacheControl,
                CachePolicy::PrivateNoStore.value(),
            );
            &&& start == PageStart::Answered
            &&& after.body == before.body
            &&& if outcome is NotModified {
                after.status == StatusCode::NotModified && after.fields()
                    == cached
            } else {
                &&& after.status == StatusCode::PreconditionFailed
                &&& after.fields() == with_field(
                    cached,
                    Field::ContentLength,
                    decimal(0),
                )
            }
        },
        _ => {
            &&& start == PageStart::Generate
            &&& after == before
        },
    }
}

/// Decides a request for a generated page before the page is generated. A request for the
/// header alone does without the page where its conditions can be decided without it;
/// `head_outcome` is that decision.
pub fn page_start(
    head_only: bool,
    head_outcome: Option<ReadPreconditionOutcome>,
    response: &mut Response,
) -> (start: PageStart)
    requires
        old(response).wf(),
    ensures
        page_begun(*old(response), *final(response), head_only, head_outcome, start),
{
    if !head_only {
        return PageStart::Generate;
    }
    match head_outcome {
        None => PageStart::Generate,
        Some(ReadPreconditionOutcome::Proceed) => PageStart::HeaderOnly,
        Some(outcome) => {
            response.set_cache_policy(CachePolicy::PrivateNoStore);
            apply_read_precondition_outcome(outcome, response);
            PageStart::Answered
        },
    }
}

/// The answer to a permit.
pub open spec fn scan_permitted(
    outcome: PermitOutcome,
    wait: Duration,
    result: Result<(), ResponseError>,
) -> bool {
    &&& match result {
        Ok(()) => permit_failure(outcome, wait) is None,
        Err(error) => {
            &&& permit_failure(outcome, wait) matches Some(failure) && error.source == (
            ResponseErrorSource::Admission { error: failure })
            &&& error.changed_status == ChangedStatus::Conflict
        },
    }
}

/// Admission of a scan to the expensive tasks, for callers that answer with the failure.
pub fn scan_permit(outcome: PermitOutcome, wait: Duration) -> (result: Result<(), ResponseError>)
    ensures
        scan_permitted(outcome, wait, result),
{
    match expensive_permit(outcome, wait) {
        Ok(()) => Ok(()),
        Err(error) => Err(ResponseError::admission(error)),
    }
}

/// Maps the failure of a scan to an answer. A typed cause under context keeps its meaning, and
/// other causes are classified here once.
pub fn map_blocking_operation_error(error: AnyError, operation: &'static str) -> (mapped:
    ResponseError)
    ensures
        mapped.changed_status == ChangedStatus::Conflict,
        match typed_mapping(error.links(), ChangedStatus::Conflict) {
            Some((status, retry_after)) => mapped.source == (ResponseErrorSource::CapturedAnyhow {
                source: error,
                status,
                retry_after,
            }),
            None => mapped.source == (ResponseErrorSource::Fs {
                error: classified(operation, error, chain_class(error.links())),
            }),
        },
{
    ResponseError::from_anyhow_or_filesystem(operation, error, ChangedStatus::Conflict)
}

/// The part of a real path behind the path that the caller was authorized for, if it is text.
/// Where there is none, the caller may not reach the object.
pub fn actual_suffix(authorization_path: &[u8], actual: &[u8]) -> (suffix: Option<String>)
    ensures
        match suffix {
            Some(text) => stripped(parts(actual@), parts(authorization_path@)) matches Some(rest)
                && encode_utf8(text@) == rest_bytes(rest),
            None => stripped(parts(actual@), parts(authorization_path@)) matches Some(rest)
                ==> !valid_utf8(rest_bytes(rest)),
        },
{
    match strip_prefix(actual, authorization_path) {
        None => None,
        Some(rest) => {
            let bytes = join_components(&rest);
            if is_text(bytes.as_slice()) {
                Some(string_from_utf8(bytes))
            } else {
                None
            }
        },
    }
}

/// What to do about a request for a directory that serves its index page.
#[derive(Clone, Copy, Debug, PartialEq, Eq, Structural)]
pub enum IndexPageAction {
    SendIndex,
    ListDirectory,
    NotFound,
}

/// What is done about a request for a directory that serves its index page.
pub open spec fn index_chosen(
    opened: bool,
    is_file: bool,
    allowed: bool,
    try_index: bool,
    action: IndexPageAction,
) -> bool {
    &&& action == if opened && is_file && allowed {
        IndexPageAction::SendIndex
    } else if try_index {
        IndexPageAction::ListDirectory
    } else {
        IndexPageAction::NotFound
    }
}

/// Whether a directory's index page is sent: if it is a file that the caller may reach. Else
/// the directory is listed, where that is configured.
pub fn render_index(
    opened: bool,
    is_file: bool,
    allowed: bool,
    try_index: bool,
) -> (action: IndexPageAction)
    ensures
        index_chosen(opened, is_file, allowed, try_index, action),
{
    if opened && is_file && allowed {
        IndexPageAction::SendIndex
    } else if try_index {
        IndexPageAction::ListDirectory
    } else {
        IndexPageAction::NotFound
    }
}

// ---------------------------------------------------------------------------------------------
// Sending
// ---------------------------------------------------------------------------------------------

/// How a missing name is answered.
#[derive(Debug)]
pub enum NotFoundStep {
    /// With a short text.
    Plain,
    /// With the page at this path beneath the directory of assets.
    OpenPage { rel: Vec<u8> },
}

/// The path of the configured error page beneath the directory of assets.
pub open spec fn error_page_rel(
    error_page: Option<Seq<u8>>,
    assets: Option<Seq<u8>>,
    assets_open: bool,
) -> Option<Seq<u8>> {
    match (error_page, assets) {
        (Some(page), Some(base)) => match stripped(parts(page), parts(base)) {
            Some(rest) => if assets_open {
                Some(rest_bytes(rest))
            } else {
                None
            },
            None => None,
        },
        _ => None,
    }
}

/// Decides how a missing name is answered. A page is used only if it lies beneath the directory
/// of assets and that directory is open.
pub fn handle_not_found(error_page: Option<&[u8]>, assets: Option<&[u8]>, assets_open: bool) -> (step:
    NotFoundStep)
    ensures
        ({
            let page = match error_page {
                Some(path) => Some(path@),
                None => None,
            };
            let base = match assets {
                Some(path) => Some(path@),
                None => None,
            };
            match (error_page_rel(page, base, assets_open), step) {
                (Some(path), NotFoundStep::OpenPage { rel }) => rel@ == path,
                (None, NotFoundStep::Plain) => true,
                _ => false,
            }
        }),
{
    match (error_page, assets) {
        (Some(page), Some(base)) => match strip_prefix(page, base) {
            Some(rest) => {
                if assets_open {
                    NotFoundStep::OpenPage { rel: join_components(&rest) }
                } else {
                    NotFoundStep::Plain
                }
            },
            None => NotFoundStep::Plain,
        },
        _ => NotFoundStep::Plain,
    }
}

/// Checks the opened error page: it has to be a file that only the server's owner can change.
pub fn check_error_page(metadata: &Metadata, trusted_owner: bool, described: &str) -> (checked: Result<
    (),
    AnyError,
>)
    ensures
        match asset_fault(*metadata, false, trusted_owner, described@) {
            None => checked is Ok,
            Some(fault) => checked matches Err(error) && error@ == failed(
                FsKind::Io,
                "validating the configured internal error page"@,
                fault,
            ),
        },
{
    match validate_trusted_asset_metadata(metadata, false, trusted_owner, described) {
        Ok(()) => Ok(()),
        Err(error) => Err(
            AnyError::filesystem(
                FsError::io("validating the configured internal error page", error),
            ),
        ),
    }
}

/// How a listing is written.
#[derive(Clone, Copy, Debug, PartialEq, Eq, Structural)]
pub enum ListingKind {
    /// One name per line.
    Simple,
    Json,
    Html,
}

/// The form that a request asks for.
pub open spec fn form_chosen(simple: bool, json: bool, kind: ListingKind) -> bool {
    &&& kind == if simple {
        ListingKind::Simple
    } else if json {
        ListingKind::Json
    } else {
        ListingKind::Html
    }
}

/// Which form a request asks for; the plain one wins.
pub fn listing_kind(simple: bool, json: bool) -> (kind: ListingKind)
    ensures
        form_chosen(simple, json, kind),
{
    if simple {
        ListingKind::Simple
    } else if json {
        ListingKind::Json
    } else {
        ListingKind::Html
    }
}

impl ListingKind {
    pub open spec fn mime(self) -> Seq<char> {
        match self {
            ListingKind::Simple => "text/plain; charset=utf-8"@,
            ListingKind::Json => "application/json"@,
            ListingKind::Html => "text/html; charset=utf-8"@,
        }
    }
}

/// What is known about a listing that is sent.
#[derive(Debug)]
pub struct ListingOptions {
    /// The directory is there; one that may still be created is listed as empty.
    pub exist: bool,
    pub content_length_known: bool,
    pub representation_complete: bool,
    pub truncated: bool,
    pub omitted_non_utf8: bool,
    /// The version of the directory, where nothing changed from one end of the scan to the other.
    pub mutation_version: Option<String>,
}

/// What the caller adds to the header of a generated page.
#[derive(Debug)]
pub struct PageExtras {
    /// The policy of the pages that manage files.
    pub management_page: bool,
    /// The version of the listed directory.
    pub mutation_version: Option<String>,
}

/// Whether a scan is to find the version of its directory: only a scan of what is there, and for
/// a representation that is complete. A search is always of what is there.
pub fn versions_scan(exists: bool, representation_complete: bool) -> (begin: bool)
    ensures
        begin == (exists && representation_complete),
{
    exists && representation_complete
}

/// What the configuration and the request tell of the page of a listing.
#[derive(Debug)]
pub struct PageFacts {
    pub href: String,
    pub uri_prefix: String,
    pub allow_upload: bool,
    pub allow_delete: bool,
    pub allow_search: bool,
    pub allow_archive: bool,
    /// The caller may change what is listed.
    pub readwrite: bool,
    pub user: Option<String>,
}

/// What the page of a listing tells.
#[derive(Debug)]
pub struct IndexData {
    pub href: String,
    pub uri_prefix: String,
    pub allow_upload: bool,
    pub allow_delete: bool,
    pub allow_search: bool,
    pub allow_archive: bool,
    pub dir_exists: bool,
    pub user: Option<String>,
    pub truncated: bool,
    pub omitted_non_utf8: bool,
    pub mutation_version: Option<String>,
    pub paths: Vec<PathItem>,
}

/// The characters of an optional text.
pub open spec fn optional_text(text: Option<String>) -> Option<Seq<char>> {
    match text {
        Some(held) => Some(held@),
        None => None,
    }
}

/// What the page of a listing tells.
pub open spec fn tells(
    facts: PageFacts,
    options: ListingOptions,
    paths: Vec<PathItem>,
    data: IndexData,
) -> bool {
    &&& data.href == facts.href
    &&& data.uri_prefix == facts.uri_prefix
    &&& data.allow_upload == (facts.allow_upload && facts.readwrite)
    &&& data.allow_delete == (facts.allow_delete && facts.readwrite)
    &&& data.allow_search == facts.allow_search
    &&& data.allow_archive == facts.allow_archive
    &&& data.dir_exists == options.exist
    &&& data.user == facts.user
    &&& data.truncated == options.truncated
    &&& data.omitted_non_utf8 == options.omitted_non_utf8
    &&& optional_text(data.mutation_version) == optional_text(options.mutation_version)
    &&& data.paths == paths
}

/// Gathers what the page of a listing tells. Changes are offered only where the configuration
/// allows them and the caller may make them.
pub fn index_data(facts: PageFacts, options: &ListingOptions, paths: Vec<PathItem>) -> (data:
    IndexData)
    ensures
        tells(facts, *options, paths, data),
{
    let mutation_version = match &options.mutation_version {
        Some(version) => Some(version.as_str().to_owned()),
        None => None,
    };
    IndexData {
        href: facts.href,
        uri_prefix: facts.uri_prefix,
        allow_upload: facts.allow_upload && facts.readwrite,
        allow_delete: facts.allow_delete && facts.readwrite,
        allow_search: facts.allow_search,
        allow_archive: facts.allow_archive,
        dir_exists: options.exist,
        user: facts.user,
        truncated: options.truncated,
        omitted_non_utf8: options.omitted_non_utf8,
        mutation_version,
        paths,
    }
}

/// The line for an item in the plain form.
pub open spec fn simple_line(item: PathItem) -> Seq<char> {
    item.name@ + (if item.path_type.is_directory() {
        "/\n"@
    } else {
        "\n"@
    })
}

/// The lines for the first `n` items.
pub open spec fn simple_text(paths: Seq<PathItem>, n: nat) -> Seq<char>
    decreases n,
{
    if n == 0 {
        Seq::empty()
    } else {
        simple_text(paths, (n - 1) as nat) + simple_line(paths[n - 1])
    }
}

/// A listing in its plain form.
pub fn simple_listing(paths: &Vec<PathItem>) -> (text: String)
    ensures
        text@ == simple_text(paths@, paths@.len()),
{
    let mut text = TextBuilder::new();
    let mut i: usize = 0;
    while i < paths.len()
        invariant
            i <= paths@.len(),
            text.wf(),
            text.view() == simple_text(paths@, i as nat),
        decreases paths.len() - i,
    {
        text.push(paths[i].name.as_str());
        if paths[i].path_type.is_dir() {
            text.push("/\n");
        } else {
            text.push("\n");
        }
        assert(text.view() =~= simple_text(paths@, (i + 1) as nat));
        i = i + 1;
    }
    text.finish()
}

pub open spec fn truncated_fields(m: Map<Seq<char>, Seq<Seq<u8>>>, truncated: bool) -> Map<
    Seq<char>,
    Seq<Seq<u8>>,
> {
    if truncated {
        with_field(m, Field::ListTruncated, encode_utf8("true"@))
    } else {
        m
    }
}

pub open spec fn omitted_fields(m: Map<Seq<char>, Seq<Seq<u8>>>, omitted: bool) -> Map<
    Seq<char>,
    Seq<Seq<u8>>,
> {
    if omitted {
        with_field(m, Field::ListOmitted, encode_utf8("non-utf8"@))
    } else {
        m
    }
}

/// Tells the client that a listing was cut off.
pub fn set_listing_truncated_header(response: &mut Response, truncated: bool)
    requires
        old(response).wf(),
    ensures
        final(response).wf(),
        final(response).fields() == truncated_fields(old(response).fields(), truncated),
        final(response).status == old(response).status,
        final(response).body == old(response).body,
{
    if truncated {
        proof {
            reveal_strlit("true");
            assert(printable("true"@));
        }
        response.set_text(Field::ListTruncated, "true");
    }
}

/// Tells the client that names were left out which are not text.
pub fn set_listing_omitted_header(response: &mut Response, omitted_non_utf8: bool)
    requires
        old(response).wf(),
    ensures
        final(response).wf(),
        final(response).fields() == omitted_fields(old(response).fields(), omitted_non_utf8),
        final(response).status == old(response).status,
        final(response).body == old(response).body,
{
    if omitted_non_utf8 {
        proof {
            reveal_strlit("non-utf8");
            assert(printable("non-utf8"@));
        }
        response.set_text(Field::ListOmitted, "non-utf8");
    }
}

/// The fields of a listing before its validator and before the extras that the caller adds.
pub open spec fn listing_fields(
    before: Map<Seq<char>, Seq<Seq<u8>>>,
    kind: ListingKind,
    length: nat,
    options: ListingOptions,
) -> Map<Seq<char>, Seq<Seq<u8>>> {
    let cached = with_field(before, Field::CacheControl, CachePolicy::PrivateNoStore.value());
    let typed = with_field(cached, Field::ContentType, encode_utf8(kind.mime()));
    let sized = if options.content_length_known {
        with_field(typed, Field::ContentLength, decimal(length))
    } else {
        typed
    };
    let guarded = if kind == ListingKind::Simple {
        sized
    } else {
        with_field(sized, Field::ContentTypeOptions, encode_utf8("nosniff"@))
    };
    omitted_fields(truncated_fields(guarded, options.truncated), options.omitted_non_utf8)
}

/// The answer that carries a listing, before the extras.
pub open spec fn index_sent(
    before: Response,
    after: Response,
    kind: ListingKind,
    output: Seq<u8>,
    options: ListingOptions,
    outcome: ReadPreconditionOutcome,
    head_only: bool,
    extras: PageExtras,
) -> bool {
    &&& after.wf()
    &&& extras.management_page == (kind == ListingKind::Html)
    &&& extras.mutation_version == options.mutation_version
    &&& ({
        let listed = listing_fields(before.fields(), kind, output.len(), options);
        let tagged = with_field(listed, Field::Etag, generated_etag_value(output));
        if options.representation_complete {
            &&& after.fields() == (if outcome is PreconditionFailed {
                with_field(tagged, Field::ContentLength, decimal(0))
            } else {
                tagged
            })
            &&& after.status == match outcome {
                ReadPreconditionOutcome::Proceed => before.status,
                ReadPreconditionOutcome::NotModified => StatusCode::NotModified,
                ReadPreconditionOutcome::PreconditionFailed => StatusCode::PreconditionFailed,
            }
        } else {
            &&& after.fields() == listed
            &&& after.status == before.status
        }
    })
    &&& if head_only || (options.representation_complete && !(outcome is Proceed)) {
        after.body == before.body
    } else {
        after.body.is_bytes(output)
    }
}

/// Sends a listing that was written out. It shows what one caller may see, so nothing may keep
/// it. Where the representation is complete, the conditions of the request decide; `outcome` is
/// what they say about the validator of the output. The fields stated are those before the
/// extras, which the caller adds whatever the conditions say: the version of the directory, and
/// the policy of the pages that manage files.
pub fn send_index(
    kind: ListingKind,
    output: Vec<u8>,
    options: ListingOptions,
    outcome: ReadPreconditionOutcome,
    head_only: bool,
    response: &mut Response,
) -> (extras: PageExtras)
    requires
        old(response).wf(),
    ensures
        index_sent(
            *old(response),
            *final(response),
            kind,
            output@,
            options,
            outcome,
            head_only,
            extras,
        ),
{
    let extras = PageExtras {
        management_page: match kind {
            ListingKind::Html => true,
            _ => false,
        },
        mutation_version: options.mutation_version,
    };
    response.set_cache_policy(CachePolicy::PrivateNoStore);
    proof {
        reveal_strlit("text/plain; charset=utf-8");
        reveal_strlit("application/json");
        reveal_strlit("text/html; charset=utf-8");
        reveal_strlit("nosniff");
        assert(printable("text/plain; charset=utf-8"@));
        assert(printable("application/json"@));
        assert(printable("text/html; charset=utf-8"@));
        assert(printable("nosniff"@));
    }
    let mime: &'static str = match kind {
        ListingKind::Simple => "text/plain; charset=utf-8",
        ListingKind::Json => "application/json",
        ListingKind::Html => "text/html; charset=utf-8",
    };
    response.set_text(Field::ContentType, mime);
    if options.content_length_known {
        let length: usize = output.len();
        response.set_number(Field::ContentLength, length as u64);
    }
    match kind {
        ListingKind::Simple => {},
        _ => {
            response.set_text(Field::ContentTypeOptions, "nosniff");
        },
    }
    set_listing_truncated_header(response, options.truncated);
    set_listing_omitted_header(response, options.omitted_non_utf8);
    if options.representation_complete {
        if !apply_generated_preconditions(output.as_slice(), outcome, response) {
            return extras;
        }
    }
    if head_only {
        return extras;
    }
    response.body = Body::Full { bytes: output };
    extras
}

/// The answer that carries the page that views a file, before the extras.
pub open spec fn view_sent(
    before: Response,
    after: Response,
    output: Seq<u8>,
    outcome: ReadPreconditionOutcome,
    head_only: bool,
    extras: PageExtras,
) -> bool {
    &&& after.wf()
    &&& extras.management_page
    &&& extras.mutation_version is None
    &&& ({
        let made = with_field(
            with_field(
                with_field(
                    before.fields(),
                    Field::ContentType,
                    encode_utf8("text/html; charset=utf-8"@),
                ),
                Field::ContentLength,
                decimal(output.len()),
            ),
            Field::CacheControl,
            CachePolicy::PrivateNoStore.value(),
        );
        let tagged = with_field(made, Field::Etag, generated_etag_value(output));
        &&& after.fields() == (if outcome is PreconditionFailed {
            with_field(tagged, Field::ContentLength, decimal(0))
        } else {
            tagged
        })
        &&& after.status == match outcome {
            ReadPreconditionOutcome::Proceed => before.status,
            ReadPreconditionOutcome::NotModified => StatusCode::NotModified,
            ReadPreconditionOutcome::PreconditionFailed => StatusCode::PreconditionFailed,
        }
    })
    &&& if head_only || !(outcome is Proceed) {
        after.body == before.body
    } else {
        after.body.is_bytes(output)
    }
}

/// Sends the page that views a file. The fields stated are those before the policy of the pages
/// that manage files, which the caller adds whatever the conditions say.
pub fn send_view_page(
    output: Vec<u8>,
    outcome: ReadPreconditionOutcome,
    head_only: bool,
    response: &mut Response,
) -> (extras: PageExtras)
    requires
        old(response).wf(),
    ensures
        view_sent(*old(response), *final(response), output@, outcome, head_only, extras),
{
    proof {
        reveal_strlit("text/html; charset=utf-8");
        assert(printable("text/html; charset=utf-8"@));
    }
    response.set_text(Field::ContentType, "text/html; charset=utf-8");
    let length: usize = output.len();
    response.set_number(Field::ContentLength, length as u64);
    response.set_cache_policy(CachePolicy::PrivateNoStore);
    let extras = PageExtras { management_page: true, mutation_version: None };
    if !apply_generated_preconditions(output.as_slice(), outcome, response) || head_only {
        return extras;
    }
    response.body = Body::Full { bytes: output };
    extras
}

/// The signals that a listing was cut off and that names were left out do not get into each
/// other's way.
pub proof fn law_listing_signals_coexist(
    before: Map<Seq<char>, Seq<Seq<u8>>>,
    kind: ListingKind,
    length: nat,
    options: ListingOptions,
)
    requires
        options.truncated,
        options.omitted_non_utf8,
    ensures
        listing_fields(before, kind, length, options)[Field::ListTruncated.key()] == seq![
            encode_utf8("true"@),
        ],
        listing_fields(before, kind, length, options)[Field::ListOmitted.key()] == seq![
            encode_utf8("non-utf8"@),
        ],
{
    lemma_field_keys_differ(Field::ListTruncated, Field::ListOmitted);
}

/// Nothing that a caller sees of a listing depends on an entry that the caller may not learn
/// of: such entries leave a listing as it is.
pub proof fn law_restricted_callers_learn_nothing_of_others(
    entry: WalkedEntry,
    children: Seq<Seq<char>>,
    count: nat,
    max_entries: usize,
)
    requires
        !child_visible(Some(children), entry.name@),
    ensures
        listing_verdict(entry, Some(children), count, max_entries) == Verdict::Unseen,
{
}

/// A listing and a search never hold more lines than their limit: a line is added only while
/// there is room.
pub proof fn law_listings_are_bounded(
    entry: WalkedEntry,
    children: Option<Seq<Seq<char>>>,
    search: Seq<char>,
    count: nat,
    limit: usize,
)
    requires
        count <= limit,
    ensures
        listing_verdict(entry, children, count, limit) == Verdict::Shown ==> count + 1 <= limit,
        search_verdict(entry, search, count, limit) == Verdict::Shown ==> count + 1 <= limit,
{
}

/// A listing shows what one caller may see at one time, so no cache may keep it, whatever its
/// form.
pub proof fn law_listings_are_never_stored(
    before: Map<Seq<char>, Seq<Seq<u8>>>,
    kind: ListingKind,
    length: nat,
    options: ListingOptions,
)
    ensures
        listing_fields(before, kind, length, options).contains_pair(
            Field::CacheControl.key(),
            seq![CachePolicy::PrivateNoStore.value()],
        ),
{
    lemma_field_keys_differ(Field::CacheControl, Field::ContentType);
    lemma_field_keys_differ(Field::CacheControl, Field::ContentLength);
    lemma_field_keys_differ(Field::CacheControl, Field::ContentTypeOptions);
    lemma_field_keys_differ(Field::CacheControl, Field::ListTruncated);
    lemma_field_keys_differ(Field::CacheControl, Field::ListOmitted);
}

// ---------------------------------------------------------------------------------------------
// Whole scans
// ---------------------------------------------------------------------------------------------

/// An entry that a listing shows while there is room.
pub open spec fn listable(entry: WalkedEntry, children: Option<Seq<Seq<char>>>) -> bool {
    listing_verdict(entry, children, 0, 1) == Verdict::Shown
}

/// Where the entries stand that a listing shows while there is room, in order.
pub open spec fn listable_at(
    entries: Seq<WalkedEntry>,
    children: Option<Seq<Seq<char>>>,
) -> Seq<int>
    decreases entries.len(),
{
    if entries.len() == 0 {
        Seq::empty()
    } else {
        let before = listable_at(entries.drop_last(), children);
        if listable(entries.last(), children) {
            before.push(entries.len() - 1)
        } else {
            before
        }
    }
}

/// A listing from its start on: `states` are the listing before and after each entry, `names` the
/// names that the entries are shown under, and `results` what each visit gave. A visit that ends
/// the listing is the last.
pub open spec fn listing_run(
    states: Seq<DirectoryListing>,
    entries: Seq<WalkedEntry>,
    children: Option<Seq<Seq<char>>>,
    names: Seq<Result<String, AnyError>>,
    max_entries: usize,
    results: Seq<Result<bool, AnyError>>,
) -> bool {
    &&& states.len() == entries.len() + 1
    &&& names.len() == entries.len()
    &&& results.len() == entries.len()
    &&& states[0].paths@.len() == 0
    &&& !states[0].omitted_non_utf8
    &&& forall|i: int|
        0 <= i < entries.len() ==> listing_step(
            states[i],
            states[i + 1],
            #[trigger] entries[i],
            children,
            names[i],
            max_entries,
            results[i],
        )
    &&& forall|i: int|
        0 <= i < entries.len() - 1 ==> #[trigger] results[i] == Ok::<bool, AnyError>(true)
}

proof fn lemma_listable_at(entries: Seq<WalkedEntry>, children: Option<Seq<Seq<char>>>)
    ensures
        listable_at(entries, children).len() <= entries.len(),
        forall|k: int|
            0 <= k < listable_at(entries, children).len() ==> 0 <= #[trigger] listable_at(
                entries,
                children,
            )[k] < entries.len(),
    decreases entries.len(),
{
    if entries.len() > 0 {
        lemma_listable_at(entries.drop_last(), children);
    }
}

/// A whole listing that met no failure shows the first entries that may be shown, in their order
/// and as many as there is room for. It is cut off exactly where there is one more, and it tells
/// that something was left out exactly where an entry could not be shown.
pub proof fn law_a_listing_shows_the_first_entries(
    states: Seq<DirectoryListing>,
    entries: Seq<WalkedEntry>,
    children: Option<Seq<Seq<char>>>,
    names: Seq<Result<String, AnyError>>,
    max_entries: usize,
    results: Seq<Result<bool, AnyError>>,
)
    requires
        listing_run(states, entries, children, names, max_entries, results),
        forall|i: int| 0 <= i < results.len() ==> #[trigger] results[i] is Ok,
    ensures
        ({
            let found = listable_at(entries, children);
            let paths = states.last().paths@;
            &&& paths.len() == if found.len() <= max_entries {
                found.len() as int
            } else {
                max_entries as int
            }
            &&& forall|k: int|
                #![trigger found[k]]
                #![trigger paths[k]]
                0 <= k < paths.len() ==> names[found[k]] is Ok && shows(
                    paths[k],
                    entries[found[k]],
                    encode_utf8((names[found[k]]->Ok_0)@),
                )
            &&& entries.len() > 0 ==> (results.last() == Ok::<bool, AnyError>(false) <==> found.len()
                > max_entries)
            &&& states.last().omitted_non_utf8 <==> exists|i: int|
                0 <= i < entries.len() && listing_verdict(#[trigger] entries[i], children, 0, 1)
                    == Verdict::Omitted
        }),
    decreases entries.len(),
{
    if entries.len() > 0 {
        let n = entries.len() - 1;
        let earlier = entries.drop_last();
        assert forall|i: int| 0 <= i < earlier.len() implies listing_step(
            states.drop_last()[i],
            states.drop_last()[i + 1],
            #[trigger] earlier[i],
            children,
            names.drop_last()[i],
            max_entries,
            results.drop_last()[i],
        ) by {
            assert(earlier[i] == entries[i]);
        }
        assert forall|i: int| 0 <= i < earlier.len() implies #[trigger] results.drop_last()[i]
            == Ok::<bool, AnyError>(true) by {
            assert(results.drop_last()[i] == results[i]);
        }
        law_a_listing_shows_the_first_entries(
            states.drop_last(),
            earlier,
            children,
            names.drop_last(),
            max_entries,
            results.drop_last(),
        );
        let before = states[n];
        let after = states[n + 1];
        let entry = entries[n];
        assert(states.drop_last().last() == before);
        assert(states.last() == after);
        assert(entries.last() == entry);
        let found = listable_at(earlier, children);
        let all = listable_at(entries, children);
        lemma_listable_at(earlier, children);
        assert(found.len() <= max_entries) by {
            if n > 0 {
                assert(results.drop_last().last() == results[n - 1]);
            }
        }
        assert(listing_step(before, after, entry, children, names[n], max_entries, results[n]));
        assert(results.last() == results[n]);
        assert forall|k: int|
            #![trigger all[k]]
            #![trigger after.paths@[k]]
            0 <= k < after.paths@.len() implies names[all[k]] is Ok && shows(
            after.paths@[k],
            entries[all[k]],
            encode_utf8((names[all[k]]->Ok_0)@),
        ) by {
            if k < before.paths@.len() {
                assert(all[k] == found[k]);
                assert(earlier[found[k]] == entries[found[k]]);
                assert(names.drop_last()[found[k]] == names[found[k]]);
                if after.paths@.len() > before.paths@.len() {
                    assert(after.paths@.drop_last()[k] == after.paths@[k]);
                }
                assert(after.paths@[k] == before.paths@[k]);
            }
        }
        assert(after.omitted_non_utf8 <==> exists|i: int|
            0 <= i < entries.len() && listing_verdict(#[trigger] entries[i], children, 0, 1)
                == Verdict::Omitted) by {
            if before.omitted_non_utf8 {
                let i = choose|i: int|
                    0 <= i < earlier.len() && listing_verdict(
                        #[trigger] earlier[i],
                        children,
                        0,
                        1,
                    ) == Verdict::Omitted;
                assert(entries[i] == earlier[i]);
            }
            if exists|i: int|
                0 <= i < entries.len() && listing_verdict(#[trigger] entries[i], children, 0, 1)
                    == Verdict::Omitted {
                let i = choose|i: int|
                    0 <= i < entries.len() && listing_verdict(
                        #[trigger] entries[i],
                        children,
                        0,
                        1,
                    ) == Verdict::Omitted;
                if i < n {
                    assert(earlier[i] == entries[i]);
                }
            }
        }
    }
}

/// An entry that a search finds.
pub open spec fn matching(entry: WalkedEntry, search: Seq<char>) -> bool {
    search_verdict(entry, search, 0, 1) == Verdict::Shown
}

/// Where the entries stand that a search finds, in order.
pub open spec fn matching_at(entries: Seq<WalkedEntry>, search: Seq<char>) -> Seq<int>
    decreases entries.len(),
{
    if entries.len() == 0 {
        Seq::empty()
    } else {
        let before = matching_at(entries.drop_last(), search);
        if matching(entries.last(), search) {
            before.push(entries.len() - 1)
        } else {
            before
        }
    }
}

/// A search from its start on: `states` are the search before and after each entry, and `actions`
/// what the walker was told. A visit that stops the walker is the last.
pub open spec fn search_run(
    states: Seq<SearchState>,
    entries: Seq<WalkedEntry>,
    base: Seq<u8>,
    search: Seq<char>,
    max_results: usize,
    actions: Seq<VisitAction>,
) -> bool {
    &&& states.len() == entries.len() + 1
    &&& actions.len() == entries.len()
    &&& states[0].paths@.len() == 0
    &&& !states[0].result_limit_hit
    &&& !states[0].omitted_non_utf8
    &&& states[0].path_error is None
    &&& forall|i: int|
        0 <= i < entries.len() ==> search_step(
            states[i],
            states[i + 1],
            #[trigger] entries[i],
            base,
            search,
            max_results,
            actions[i],
        )
    &&& forall|i: int| 0 <= i < entries.len() - 1 ==> #[trigger] actions[i] != VisitAction::Stop
}

/// Whether an entry lies in the searched directory, under a path that can be shown.
pub open spec fn lies_within(entry: WalkedEntry, base: Seq<u8>) -> bool {
    found_name(base, entry) matches Some(name) && valid_utf8(name)
}

proof fn lemma_matching_at(entries: Seq<WalkedEntry>, search: Seq<char>)
    ensures
        matching_at(entries, search).len() <= entries.len(),
        forall|k: int|
            0 <= k < matching_at(entries, search).len() ==> 0 <= #[trigger] matching_at(
                entries,
                search,
            )[k] < entries.len(),
    decreases entries.len(),
{
    if entries.len() > 0 {
        lemma_matching_at(entries.drop_last(), search);
    }
}

/// A whole search whose matches all lie in the searched directory shows the first of them, in
/// their order and as many as there is room for. It stops, and says that it hit its limit,
/// exactly where there is one more, and it tells that something was left out exactly where an
/// entry could not be shown.
pub proof fn law_a_search_shows_the_first_matches(
    states: Seq<SearchState>,
    entries: Seq<WalkedEntry>,
    base: Seq<u8>,
    search: Seq<char>,
    max_results: usize,
    actions: Seq<VisitAction>,
)
    requires
        search_run(states, entries, base, search, max_results, actions),
        forall|i: int|
            0 <= i < entries.len() && matching(#[trigger] entries[i], search) ==> lies_within(
                entries[i],
                base,
            ),
    ensures
        ({
            let found = matching_at(entries, search);
            let last = states.last();
            let paths = last.paths@;
            &&& paths.len() == if found.len() <= max_results {
                found.len() as int
            } else {
                max_results as int
            }
            &&& forall|k: int|
                0 <= k < paths.len() ==> shows(
                    #[trigger] paths[k],
                    entries[found[k]],
                    found_name(base, entries[found[k]])->Some_0,
                )
            &&& last.result_limit_hit <==> found.len() > max_results
            &&& entries.len() > 0 ==> (actions.last() == VisitAction::Stop <==> found.len()
                > max_results)
            &&& last.path_error is None
            &&& last.omitted_non_utf8 <==> exists|i: int|
                0 <= i < entries.len() && search_verdict(#[trigger] entries[i], search, 0, 1)
                    == Verdict::Omitted
        }),
    decreases entries.len(),
{
    if entries.len() > 0 {
        let n = entries.len() - 1;
        let earlier = entries.drop_last();
        assert forall|i: int| 0 <= i < earlier.len() implies search_step(
            states.drop_last()[i],
            states.drop_last()[i + 1],
            #[trigger] earlier[i],
            base,
            search,
            max_results,
            actions.drop_last()[i],
        ) by {
            assert(earlier[i] == entries[i]);
        }
        assert forall|i: int| 0 <= i < earlier.len() implies #[trigger] actions.drop_last()[i]
            != VisitAction::Stop by {
            assert(actions.drop_last()[i] == actions[i]);
        }
        assert forall|i: int|
            0 <= i < earlier.len() && matching(
                #[trigger] earlier[i],
                search,
            ) implies lies_within(earlier[i], base) by {
            assert(earlier[i] == entries[i]);
        }
        law_a_search_shows_the_first_matches(
            states.drop_last(),
            earlier,
            base,
            search,
            max_results,
            actions.drop_last(),
        );
        let before = states[n];
        let after = states[n + 1];
        let entry = entries[n];
        assert(states.drop_last().last() == before);
        assert(states.last() == after);
        assert(entries.last() == entry);
        let found = matching_at(earlier, search);
        let all = matching_at(entries, search);
        lemma_matching_at(earlier, search);
        assert(found.len() <= max_results) by {
            if n > 0 {
                assert(actions.drop_last().last() == actions[n - 1]);
            }
        }
        assert(search_step(before, after, entry, base, search, max_results, actions[n]));
        assert(matching(entry, search) ==> lies_within(entry, base));
        assert(actions.last() == actions[n]);
        assert forall|k: int| 0 <= k < after.paths@.len() implies shows(
            #[trigger] after.paths@[k],
            entries[all[k]],
            found_name(base, entries[all[k]])->Some_0,
        ) by {
            if k < before.paths@.len() {
                assert(all[k] == found[k]);
                assert(earlier[found[k]] == entries[found[k]]);
                if after.paths@.len() > before.paths@.len() {
                    assert(after.paths@.drop_last()[k] == after.paths@[k]);
                }
                assert(after.paths@[k] == before.paths@[k]);
            }
        }
        assert(after.omitted_non_utf8 <==> exists|i: int|
            0 <= i < entries.len() && search_verdict(#[trigger] entries[i], search, 0, 1)
                == Verdict::Omitted) by {
            if before.omitted_non_utf8 {
                let i = choose|i: int|
                    0 <= i < earlier.len() && search_verdict(#[trigger] earlier[i], search, 0, 1)
                        == Verdict::Omitted;
                assert(entries[i] == earlier[i]);
            }
            if exists|i: int|
                0 <= i < entries.len() && search_verdict(#[trigger] entries[i], search, 0, 1)
                    == Verdict::Omitted {
                let i = choose|i: int|
                    0 <= i < entries.len() && search_verdict(#[trigger] entries[i], search, 0, 1)
                        == Verdict::Omitted;
                if i < n {
                    assert(earlier[i] == entries[i]);
                }
            }
        }
    }
}

// ---------------------------------------------------------------------------------------------
// What a caller sees
// ---------------------------------------------------------------------------------------------

/// A listing shows a directory as well as a file: an entry is listed exactly where its name and
/// its real path are text, it is none of the server's temporary files, it is among the children
/// that the caller sees, and it is allowed and not hidden.
pub proof fn law_entries_are_listed(entry: WalkedEntry, children: Option<Seq<Seq<char>>>)
    ensures
        listable(entry, children) <==> {
            &&& valid_utf8(entry.name@)
            &&& valid_utf8(entry.real_rel@)
            &&& !entry.internal_temp
            &&& children matches Some(names) ==> exists|i: int|
                0 <= i < names.len() && encode_utf8(#[trigger] names[i]) == entry.name@
            &&& entry.allowed
            &&& !entry.hidden
        },
{
}

/// A search finds a directory as well as a file: an entry is found exactly where its name and its
/// paths are text and its name, in lower case, holds the text that is searched.
pub proof fn law_entries_are_found(entry: WalkedEntry, search: Seq<char>)
    ensures
        matching(entry, search) <==> {
            &&& valid_utf8(entry.name@)
            &&& valid_utf8(entry.display_rel@)
            &&& valid_utf8(entry.real_rel@)
            &&& exists|front: Seq<u8>, back: Seq<u8>|
                encode_utf8(lowercase(decode_utf8(entry.name@))) == #[trigger] (front
                    + encode_utf8(search) + back)
        },
{
    let name = encode_utf8(lowercase(decode_utf8(entry.name@)));
    let part = encode_utf8(search);
    if holds(name, part) {
        let at = choose|at: int| #[trigger] holds_at(name, part, at);
        assert(name =~= name.take(at) + part + name.skip(at + part.len()));
    }
    if exists|front: Seq<u8>, back: Seq<u8>| name == #[trigger] (front + part + back) {
        let (front, back) = choose|front: Seq<u8>, back: Seq<u8>|
            name == #[trigger] (front + part + back);
        assert(name.subrange(front.len() as int, (front.len() + part.len()) as int) =~= part);
        assert(holds_at(name, part, front.len() as int));
    }
}

/// Whether an entry is listed or found does not depend on what kind of thing it is, how large it
/// is or when it was changed.
pub proof fn law_kind_does_not_decide(
    a: WalkedEntry,
    b: WalkedEntry,
    children: Option<Seq<Seq<char>>>,
    search: Seq<char>,
)
    requires
        a.name@ == b.name@,
        a.display_rel@ == b.display_rel@,
        a.real_rel@ == b.real_rel@,
        a.internal_temp == b.internal_temp,
        a.allowed == b.allowed,
        a.hidden == b.hidden,
    ensures
        listable(a, children) <==> listable(b, children),
        matching(a, search) <==> matching(b, search),
{
}

/// The line of an entry tells its kind, its time, and the size of what is no directory.
pub proof fn law_lines_tell_of_their_entries(item: PathItem, entry: WalkedEntry, name: Seq<u8>)
    requires
        shows(item, entry, name),
    ensures
        encode_utf8(item.name@) == name,
        entry.is_dir && !entry.is_symlink <==> item.path_type == PathType::Dir,
        entry.is_dir && entry.is_symlink <==> item.path_type == PathType::SymlinkDir,
        !entry.is_dir && !entry.is_symlink <==> item.path_type == PathType::File,
        !entry.is_dir && entry.is_symlink <==> item.path_type == PathType::SymlinkFile,
        item.size_known <==> !entry.is_dir,
        !entry.is_dir ==> item.size == entry.len,
        entry.is_dir ==> item.size == 0,
        entry.modified matches Some(time) ==> item.mtime == time,
        entry.modified is None ==> (entry.created matches Some(time) ==> item.mtime == time),
        entry.modified is None && entry.created is None ==> item.mtime == 0,
{
}

/// Taking in an entry adds its line where the entry is listed and there is room, ends the listing
/// where it is listed and there is none, and otherwise passes on. Lines are never lost or changed,
/// and something is said to be left out exactly where an entry that the caller might see has a
/// name or a place that is no text.
pub proof fn law_listing_step(
    before: DirectoryListing,
    after: DirectoryListing,
    entry: WalkedEntry,
    children: Option<Seq<Seq<char>>>,
    name: String,
    max_entries: usize,
    result: Result<bool, AnyError>,
)
    requires
        listing_step(before, after, entry, children, Ok(name), max_entries, result),
    ensures
        result is Ok,
        result == Ok::<bool, AnyError>(false) <==> listable(entry, children) && before.paths@.len()
            >= max_entries,
        after.truncated == before.truncated,
        listable(entry, children) && before.paths@.len() < max_entries ==> {
            &&& after.paths@.len() == before.paths@.len() + 1
            &&& forall|i: int|
                0 <= i < before.paths@.len() ==> #[trigger] after.paths@[i] == before.paths@[i]
            &&& shows(after.paths@[before.paths@.len() as int], entry, encode_utf8(name@))
        },
        !listable(entry, children) || before.paths@.len() >= max_entries ==> after.paths@
            == before.paths@,
        after.omitted_non_utf8 <==> {
            ||| before.omitted_non_utf8
            ||| !valid_utf8(entry.name@) && children is None
            ||| {
                &&& valid_utf8(entry.name@)
                &&& !entry.internal_temp
                &&& child_visible(children, entry.name@)
                &&& !valid_utf8(entry.real_rel@)
            }
        },
{
    if listable(entry, children) && before.paths@.len() < max_entries {
        assert forall|i: int| 0 <= i < before.paths@.len() implies #[trigger] after.paths@[i]
            == before.paths@[i] by {
            assert(after.paths@.drop_last()[i] == after.paths@[i]);
        }
    }
}

/// Taking in an entry adds its line where the entry is found and there is room, stops the search
/// where it is found and there is none, and otherwise goes on: into every directory, unless the
/// directory itself cannot be shown.
pub proof fn law_search_step(
    before: SearchState,
    after: SearchState,
    entry: WalkedEntry,
    base: Seq<u8>,
    search: Seq<char>,
    max_results: usize,
    action: VisitAction,
)
    requires
        search_step(before, after, entry, base, search, max_results, action),
        lies_within(entry, base),
    ensures
        action == VisitAction::Stop <==> matching(entry, search) && before.paths@.len()
            >= max_results,
        action == VisitAction::SkipDirectory <==> entry.is_dir && (!valid_utf8(entry.name@)
            || !valid_utf8(entry.display_rel@) || !valid_utf8(entry.real_rel@)),
        matching(entry, search) && before.paths@.len() < max_results ==> {
            &&& after.paths@.len() == before.paths@.len() + 1
            &&& forall|i: int|
                0 <= i < before.paths@.len() ==> #[trigger] after.paths@[i] == before.paths@[i]
            &&& shows(
                after.paths@[before.paths@.len() as int],
                entry,
                rest_bytes(stripped(parts(entry.display_rel@), parts(base))->Some_0),
            )
        },
        !matching(entry, search) || before.paths@.len() >= max_results ==> after.paths@
            == before.paths@,
        after.result_limit_hit <==> before.result_limit_hit || action == VisitAction::Stop,
        after.path_error == before.path_error,
        after.omitted_non_utf8 <==> before.omitted_non_utf8 || !valid_utf8(entry.name@)
            || !valid_utf8(entry.display_rel@) || !valid_utf8(entry.real_rel@),
{
    if matching(entry, search) && before.paths@.len() < max_results {
        assert forall|i: int| 0 <= i < before.paths@.len() implies #[trigger] after.paths@[i]
            == before.paths@[i] by {
            assert(after.paths@.drop_last()[i] == after.paths@[i]);
        }
    }
}

/// A scan ends with its listing exactly where it was not cancelled, did not fail, and read a
/// directory that the caller may see; the listing is what was gathered, and is cut off where the
/// scan was.
pub proof fn law_scans_end_with_their_listing(
    listing: DirectoryListing,
    cancelled: bool,
    scan: Result<bool, AnyError>,
    directory_allowed: bool,
    result: Result<DirectoryListing, AnyError>,
)
    requires
        listing.finished(cancelled, scan, directory_allowed, result),
    ensures
        result is Ok <==> !cancelled && scan is Ok && directory_allowed,
        result matches Ok(done) ==> done.paths@ == listing.paths@ && done.omitted_non_utf8
            == listing.omitted_non_utf8 && scan == Ok::<bool, AnyError>(done.truncated),
        !cancelled && scan is Err ==> result is Err && scan->Err_0 == result->Err_0,
{
}

/// A search ends with its results exactly where the walk did not fail and nothing was out of
/// place, and says that it was cut off exactly where it hit its limit.
pub proof fn law_searches_end_with_their_results(
    state: SearchState,
    walk: Result<bool, AnyError>,
    result: Result<DirectoryListing, AnyError>,
)
    requires
        state.finished(walk, result),
    ensures
        result is Ok <==> state.path_error is None && walk is Ok,
        result matches Ok(found) ==> found.paths@ == state.paths@ && (found.truncated
            <==> state.result_limit_hit) && (found.omitted_non_utf8 <==> state.omitted_non_utf8
            || walk == Ok::<bool, AnyError>(true)),
{
}

/// A listing may have as many lines as are configured, or fewer where fewer are asked for.
pub proof fn law_listing_limits(requested: Option<usize>, configured: usize, limit: usize)
    requires
        limited(requested, configured, limit),
    ensures
        limit <= configured,
        requested matches Some(wanted) ==> limit <= wanted && (limit == wanted || limit
            == configured),
        requested is None ==> limit == configured,
{
}

/// A request without a text is wrong, one with an empty text lists the directory, and every other
/// one searches for its text without regard to case.
pub proof fn law_searches_begin_with_their_text(
    q: Option<Seq<char>>,
    result: Result<SearchStart, AnyError>,
)
    requires
        search_begun(q, result),
    ensures
        result is Err <==> q is None,
        result matches Ok(SearchStart::Search { text }) ==> q is Some && text@ == lowercase(
            q->Some_0,
        ),
        q is Some && lowercase(q->Some_0).len() > 0 <==> result matches Ok(SearchStart::Search {
            ..
        }),
{
}

/// A page is generated for every `GET`, and for a `HEAD` whose conditions need it. Only a `HEAD`
/// whose conditions fail is answered without more ado, and what it is answered may not be kept.
pub proof fn law_pages_are_generated_where_needed(
    before: Response,
    after: Response,
    head_only: bool,
    head_outcome: Option<ReadPreconditionOutcome>,
    start: PageStart,
)
    requires
        page_begun(before, after, head_only, head_outcome, start),
    ensures
        start == PageStart::Generate <==> !head_only || head_outcome is None,
        start == PageStart::HeaderOnly <==> head_only && head_outcome == Some(
            ReadPreconditionOutcome::Proceed,
        ),
        start != PageStart::Answered ==> after == before,
        start == PageStart::Answered ==> {
            &&& after.has(Field::CacheControl, encode_utf8("no-store, private"@))
            &&& after.body == before.body
            &&& head_outcome == Some(ReadPreconditionOutcome::NotModified) <==> after.status
                == StatusCode::NotModified
            &&& head_outcome == Some(ReadPreconditionOutcome::PreconditionFailed) <==> after.status
                == StatusCode::PreconditionFailed
        },
{
    lemma_field_keys_differ(Field::CacheControl, Field::ContentLength);
}

/// The index page of a directory is sent exactly where it is a file that the caller may reach;
/// without one the directory is listed where that is configured, and not found elsewhere.
pub proof fn law_index_pages(
    opened: bool,
    is_file: bool,
    allowed: bool,
    try_index: bool,
    action: IndexPageAction,
)
    requires
        index_chosen(opened, is_file, allowed, try_index, action),
    ensures
        action == IndexPageAction::SendIndex <==> opened && is_file && allowed,
        action == IndexPageAction::ListDirectory <==> try_index && !(opened && is_file && allowed),
        action == IndexPageAction::NotFound <==> !try_index && !(opened && is_file && allowed),
{
}

/// A listing is plain where that is asked for, else JSON where that is, else a page.
pub proof fn law_forms_of_listings(simple: bool, json: bool, kind: ListingKind)
    requires
        form_chosen(simple, json, kind),
    ensures
        kind == ListingKind::Simple <==> simple,
        kind == ListingKind::Json <==> json && !simple,
        kind == ListingKind::Html <==> !json && !simple,
{
}

/// The page of a listing offers a change exactly where it is configured and the caller may make
/// it, and tells everything else as it is.
pub proof fn law_pages_offer_what_is_allowed(
    facts: PageFacts,
    options: ListingOptions,
    paths: Vec<PathItem>,
    data: IndexData,
)
    requires
        tells(facts, options, paths, data),
    ensures
        data.allow_upload <==> facts.allow_upload && facts.readwrite,
        data.allow_delete <==> facts.allow_delete && facts.readwrite,
        data.allow_search <==> facts.allow_search,
        data.allow_archive <==> facts.allow_archive,
        data.dir_exists <==> options.exist,
        data.truncated <==> options.truncated,
        data.omitted_non_utf8 <==> options.omitted_non_utf8,
        data.paths == paths,
        data.href == facts.href,
        data.uri_prefix == facts.uri_prefix,
        data.user == facts.user,
        data.mutation_version is Some <==> options.mutation_version is Some,
        data.mutation_version matches Some(version) ==> version@ == (
        options.mutation_version->Some_0)@,
{
}

/// In the plain form each item has a line of its own, in order: its name, with a slash behind
/// that of a directory.
pub proof fn law_plain_listings(paths: Seq<PathItem>, item: PathItem)
    ensures
        simple_text(paths.push(item), paths.len() + 1) == simple_text(paths, paths.len())
            + item.name@ + (if item.path_type == PathType::Dir || item.path_type
            == PathType::SymlinkDir {
            "/\n"@
        } else {
            "\n"@
        }),
        simple_text(Seq::empty(), 0) == Seq::<char>::empty(),
{
    lemma_simple_text_of_more(paths, item, paths.len());
    assert(paths.push(item)[paths.len() as int] == item);
    let n = paths.len();
    assert(simple_text(paths.push(item), n + 1) == simple_text(paths.push(item), n) + simple_line(
        item,
    ));
    assert(simple_text(paths, n) + simple_line(item) =~= simple_text(paths, n) + item.name@ + (
    if item.path_type == PathType::Dir || item.path_type == PathType::SymlinkDir {
        "/\n"@
    } else {
        "\n"@
    }));
}

proof fn lemma_simple_text_of_more(paths: Seq<PathItem>, item: PathItem, n: nat)
    requires
        n <= paths.len(),
    ensures
        simple_text(paths.push(item), n) == simple_text(paths, n),
    decreases n,
{
    if n > 0 {
        lemma_simple_text_of_more(paths, item, (n - 1) as nat);
        assert(paths.push(item)[n - 1] == paths[n - 1]);
    }
}

proof fn lemma_page_fields()
    ensures
        Field::CacheControl.key() != Field::ContentType.key(),
        Field::CacheControl.key() != Field::ContentLength.key(),
        Field::CacheControl.key() != Field::ContentTypeOptions.key(),
        Field::CacheControl.key() != Field::ListTruncated.key(),
        Field::CacheControl.key() != Field::ListOmitted.key(),
        Field::CacheControl.key() != Field::Etag.key(),
        Field::ContentType.key() != Field::ContentLength.key(),
        Field::ContentType.key() != Field::ContentTypeOptions.key(),
        Field::ContentType.key() != Field::ListTruncated.key(),
        Field::ContentType.key() != Field::ListOmitted.key(),
        Field::ContentType.key() != Field::Etag.key(),
        Field::ContentLength.key() != Field::ContentTypeOptions.key(),
        Field::ContentLength.key() != Field::ListTruncated.key(),
        Field::ContentLength.key() != Field::ListOmitted.key(),
        Field::ContentLength.key() != Field::Etag.key(),
        Field::ContentTypeOptions.key() != Field::ListTruncated.key(),
        Field::ContentTypeOptions.key() != Field::ListOmitted.key(),
        Field::ContentTypeOptions.key() != Field::Etag.key(),
        Field::ListTruncated.key() != Field::ListOmitted.key(),
        Field::ListTruncated.key() != Field::Etag.key(),
        Field::ListOmitted.key() != Field::Etag.key(),
{
    lemma_field_keys_differ(Field::CacheControl, Field::ContentType);
    lemma_field_keys_differ(Field::CacheControl, Field::ContentLength);
    lemma_field_keys_differ(Field::CacheControl, Field::ContentTypeOptions);
    lemma_field_keys_differ(Field::CacheControl, Field::ListTruncated);
    lemma_field_keys_differ(Field::CacheControl, Field::ListOmitted);
    lemma_field_keys_differ(Field::CacheControl, Field::Etag);
    lemma_field_keys_differ(Field::ContentType, Field::ContentLength);
    lemma_field_keys_differ(Field::ContentType, Field::ContentTypeOptions);
    lemma_field_keys_differ(Field::ContentType, Field::ListTruncated);
    lemma_field_keys_differ(Field::ContentType, Field::ListOmitted);
    lemma_field_keys_differ(Field::ContentType, Field::Etag);
    lemma_field_keys_differ(Field::ContentLength, Field::ContentTypeOptions);
    lemma_field_keys_differ(Field::ContentLength, Field::ListTruncated);
    lemma_field_keys_differ(Field::ContentLength, Field::ListOmitted);
    lemma_field_keys_differ(Field::ContentLength, Field::Etag);
    lemma_field_keys_differ(Field::ContentTypeOptions, Field::ListTruncated);
    lemma_field_keys_differ(Field::ContentTypeOptions, Field::ListOmitted);
    lemma_field_keys_differ(Field::ContentTypeOptions, Field::Etag);
    lemma_field_keys_differ(Field::ListTruncated, Field::ListOmitted);
    lemma_field_keys_differ(Field::ListTruncated, Field::Etag);
    lemma_field_keys_differ(Field::ListOmitted, Field::Etag);
}

/// A listing is sent in full to whoever asks for it and lacks it. It carries its type, its length
/// and the validator of its bytes, tells what was left out, may not be kept, and asks for the
/// policy of the pages that manage files exactly where it is such a page.
pub proof fn law_listings_are_sent(
    before: Response,
    after: Response,
    kind: ListingKind,
    output: Seq<u8>,
    options: ListingOptions,
    outcome: ReadPreconditionOutcome,
    head_only: bool,
    extras: PageExtras,
)
    requires
        index_sent(before, after, kind, output, options, outcome, head_only, extras),
    ensures
        after.body.is_bytes(output) || after.body == before.body,
        !head_only && (outcome is Proceed || !options.representation_complete)
            ==> after.body.is_bytes(output),
        head_only || (options.representation_complete && outcome !is Proceed) ==> after.body
            == before.body,
        outcome is Proceed || !options.representation_complete ==> after.status == before.status,
        options.representation_complete && outcome is NotModified ==> after.status
            == StatusCode::NotModified,
        options.representation_complete && outcome is PreconditionFailed ==> after.status
            == StatusCode::PreconditionFailed,
        after.has(Field::CacheControl, encode_utf8("no-store, private"@)),
        kind == ListingKind::Simple ==> after.has(
            Field::ContentType,
            encode_utf8("text/plain; charset=utf-8"@),
        ),
        kind == ListingKind::Json ==> after.has(
            Field::ContentType,
            encode_utf8("application/json"@),
        ),
        kind == ListingKind::Html ==> after.has(
            Field::ContentType,
            encode_utf8("text/html; charset=utf-8"@),
        ),
        kind != ListingKind::Simple ==> after.has(
            Field::ContentTypeOptions,
            encode_utf8("nosniff"@),
        ),
        options.content_length_known && !(options.representation_complete && outcome
            is PreconditionFailed) ==> after.has(Field::ContentLength, decimal(output.len())),
        options.representation_complete ==> after.has(Field::Etag, generated_etag_value(output)),
        options.truncated ==> after.has(Field::ListTruncated, encode_utf8("true"@)),
        options.omitted_non_utf8 ==> after.has(Field::ListOmitted, encode_utf8("non-utf8"@)),
        !options.truncated && before.lacks(Field::ListTruncated) ==> after.lacks(
            Field::ListTruncated,
        ),
        !options.omitted_non_utf8 && before.lacks(Field::ListOmitted) ==> after.lacks(
            Field::ListOmitted,
        ),
        extras.management_page <==> kind == ListingKind::Html,
        extras.mutation_version == options.mutation_version,
{
    lemma_page_fields();
}

/// The page that views a file is sent in full to whoever asks for it and lacks it, as a page that
/// may not be kept.
pub proof fn law_view_pages_are_sent(
    before: Response,
    after: Response,
    output: Seq<u8>,
    outcome: ReadPreconditionOutcome,
    head_only: bool,
    extras: PageExtras,
)
    requires
        view_sent(before, after, output, outcome, head_only, extras),
    ensures
        !head_only && outcome is Proceed ==> after.body.is_bytes(output),
        head_only || outcome !is Proceed ==> after.body == before.body,
        outcome is Proceed ==> after.status == before.status,
        outcome is NotModified ==> after.status == StatusCode::NotModified,
        outcome is PreconditionFailed ==> after.status == StatusCode::PreconditionFailed,
        after.has(Field::CacheControl, encode_utf8("no-store, private"@)),
        after.has(Field::ContentType, encode_utf8("text/html; charset=utf-8"@)),
        after.has(Field::Etag, generated_etag_value(output)),
        outcome !is PreconditionFailed ==> after.has(Field::ContentLength, decimal(output.len())),
        extras.management_page,
        extras.mutation_version is None,
{
    lemma_page_fields();
}

/// The configured error page is used exactly where it lies beneath the directory of assets and
/// that directory is open, and it is asked for by its path there.
pub proof fn law_error_pages_lie_among_the_assets(
    page: Seq<u8>,
    assets: Seq<u8>,
    assets_open: bool,
)
    ensures
        error_page_rel(Some(page), Some(assets), assets_open) is Some <==> assets_open && stripped(
            parts(page),
            parts(assets),
        ) is Some,
        error_page_rel(Some(page), Some(assets), assets_open) matches Some(rel) ==> rel
            == rest_bytes(stripped(parts(page), parts(assets))->Some_0),
        error_page_rel(None, Some(assets), assets_open) is None,
        error_page_rel(Some(page), None, assets_open) is None,
{
}

/// A search whose text cannot be one is refused, one without a text is a plain listing, and any
/// other one searches for its text.
pub proof fn law_searches_start(lowered: Option<String>, result: Result<SearchStart, AnyError>)
    requires
        search_chosen(lowered, result),
    ensures
        result is Err <==> lowered is None,
        lowered matches Some(text) ==> {
            &&& text@.len() == 0 <==> (result matches Ok(SearchStart::List))
            &&& text@.len() > 0 ==> (result matches Ok(SearchStart::Search { text: held }) && held@
                == text@)
        },
{
}

/// A scan begins exactly where a place was granted.
pub proof fn law_scans_are_permitted(
    outcome: PermitOutcome,
    wait: Duration,
    result: Result<(), ResponseError>,
)
    requires
        scan_permitted(outcome, wait, result),
    ensures
        result is Ok <==> outcome is Granted,
{
}

/// A listing that leaves entries out says so in its header, and one that does not says nothing.
pub proof fn law_listings_tell_what_they_leave_out(
    m: Map<Seq<char>, Seq<Seq<u8>>>,
    truncated: bool,
    omitted: bool,
)
    ensures
        !truncated ==> truncated_fields(m, truncated) == m,
        !omitted ==> omitted_fields(m, omitted) == m,
        truncated ==> truncated_fields(m, truncated) == m.insert(
            Field::ListTruncated.key(),
            seq![encode_utf8("true"@)],
        ),
        omitted ==> omitted_fields(m, omitted) == m.insert(
            Field::ListOmitted.key(),
            seq![encode_utf8("non-utf8"@)],
        ),
{
}

} // verus!
