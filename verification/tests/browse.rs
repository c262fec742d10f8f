use ram_fileserver::archive::PermitOutcome;
use ram_fileserver::browse::{
    actual_suffix, check_error_page, handle_not_found, index_data, listing_kind, listing_limit,
    map_blocking_operation_error, name_matches, page_start, render_index, scan_permit,
    search_query, send_index, send_view_page, set_listing_omitted_header,
    set_listing_truncated_header, simple_listing, versions_scan, DirectoryListing,
    IndexPageAction, ListingKind, ListingOptions, NotFoundStep, PageFacts, PageStart, SearchStart,
    SearchState, VisitAction, WalkedEntry,
};
use ram_fileserver::content::ReadPreconditionOutcome;
use ram_fileserver::error::{
    AdmissionError, AdmissionResource, AnyError, FsError, IoErrorKind, LimitKind,
};
use ram_fileserver::filesystem::entry::Metadata;
use ram_fileserver::response::{Body, Response, StatusCode};
use ram_fileserver::sorting::{PathItem, PathType};
use ram_fileserver::time::Duration;

fn entry(path: &str) -> WalkedEntry {
    let name = path.rsplit('/').next().unwrap();
    WalkedEntry {
        name: name.as_bytes().to_vec(),
        display_rel: path.as_bytes().to_vec(),
        real_rel: path.as_bytes().to_vec(),
        is_symlink: false,
        is_dir: false,
        len: 5,
        modified: Some(7),
        created: Some(3),
        internal_temp: false,
        allowed: true,
        hidden: false,
    }
}

fn shown(path: &str) -> Result<String, AnyError> {
    Ok(path.rsplit('/').next().unwrap().to_owned())
}

#[test]
fn listing_budget_and_encoding_loss_signals_can_coexist() {
    let mut response = Response::new();
    set_listing_truncated_header(&mut response, true);
    set_listing_omitted_header(&mut response, true);
    assert_eq!(response.headers["x-ram-list-truncated"], "true");
    assert_eq!(response.headers["x-ram-list-omitted"], "non-utf8");
}

#[test]
fn listings_without_losses_carry_no_signal() {
    let mut response = Response::new();
    set_listing_truncated_header(&mut response, false);
    set_listing_omitted_header(&mut response, false);
    assert!(response.headers.is_empty());
}

#[test]
fn blocking_mapper_preserves_typed_cause_buried_under_context() {
    let source = AnyError::admission(AdmissionError::limit_exceeded(
        AdmissionResource::WalkEntries,
        LimitKind::Semantic,
        100,
        Some(101),
    ))
    .context("walking one authorized root");
    let response = map_blocking_operation_error(source, "searching directories");

    assert_eq!(response.status(), StatusCode::UnprocessableEntity);
}

#[test]
fn blocking_mapper_classifies_untyped_io_once_at_boundary() {
    let source = AnyError::Io { kind: IoErrorKind::PermissionDenied, errno: None }
        .context("private traversal detail");
    let response = map_blocking_operation_error(source, "listing directory");
    assert_eq!(response.status(), StatusCode::Forbidden);
}

#[test]
fn listings_show_what_the_caller_may_see() {
    let mut listing = DirectoryListing::new();
    assert!(listing.visit(&entry("d/a"), &None, shown("d/a"), 10).unwrap());
    let mut private = entry("d/.upload");
    private.internal_temp = true;
    assert!(listing.visit(&private, &None, shown("d/.upload"), 10).unwrap());
    let mut hidden = entry("d/h");
    hidden.hidden = true;
    assert!(listing.visit(&hidden, &None, shown("d/h"), 10).unwrap());
    let mut forbidden = entry("d/f");
    forbidden.allowed = false;
    assert!(listing.visit(&forbidden, &None, shown("d/f"), 10).unwrap());
    assert_eq!(listing.paths.len(), 1);
    assert_eq!(listing.paths[0].name, "a");
    assert_eq!(listing.paths[0].mtime, 7);
    assert_eq!(listing.paths[0].size, 5);
    assert!(!listing.omitted_non_utf8);
}

#[test]
fn restricted_callers_only_see_their_children() {
    let visible = Some(vec!["mine".to_owned()]);
    let mut listing = DirectoryListing::new();
    assert!(listing.visit(&entry("mine"), &visible, shown("mine"), 10).unwrap());
    assert!(listing.visit(&entry("theirs"), &visible, shown("theirs"), 10).unwrap());
    let names: Vec<&str> = listing.paths.iter().map(|item| item.name.as_str()).collect();
    assert_eq!(names, ["mine"]);
}

#[test]
fn listings_stop_at_their_limit_and_count_losses() {
    let mut listing = DirectoryListing::new();
    let mut bad = entry("d/x");
    bad.name = b"\xff".to_vec();
    assert!(listing.visit(&bad, &None, Ok(String::new()), 1).unwrap());
    assert!(listing.omitted_non_utf8);
    assert!(listing.visit(&entry("d/a"), &None, shown("d/a"), 1).unwrap());
    assert!(!listing.visit(&entry("d/b"), &None, shown("d/b"), 1).unwrap());
    let done = listing.finish(false, Ok(true), true).unwrap();
    assert!(done.truncated && done.omitted_non_utf8);
    assert_eq!(done.paths.len(), 1);
}

#[test]
fn listings_that_were_cancelled_or_moved_away_show_nothing() {
    let error = DirectoryListing::new().finish(true, Ok(false), true).unwrap_err();
    assert_eq!(error.describe(""), "directory listing was cancelled");
    assert!(matches!(
        AdmissionError::in_anyhow_chain(&error),
        Some(AdmissionError::Cancelled { resource: AdmissionResource::WalkEntries })
    ));
    let error = DirectoryListing::new().finish(false, Ok(false), false).unwrap_err();
    assert!(matches!(
        FsError::in_anyhow_chain(&error),
        Some(FsError::OutsideRoot { operation: "listing directory", .. })
    ));
    let error =
        DirectoryListing::new().finish(false, Err(AnyError::message("scan")), false).unwrap_err();
    assert_eq!(error.describe(""), "scan");
}

#[test]
fn a_name_that_cannot_be_shown_fails_the_listing() {
    let mut listing = DirectoryListing::new();
    let failure = Err(AnyError::message("no name"));
    assert!(listing.visit(&entry("d/a"), &None, failure, 10).is_err());
    assert!(listing.paths.is_empty());
}

#[test]
fn requested_limits_never_exceed_the_configured_one() {
    assert_eq!(listing_limit(None, 100), 100);
    assert_eq!(listing_limit(Some(10), 100), 10);
    assert_eq!(listing_limit(Some(1000), 100), 100);
}

#[test]
fn searches_ignore_case_and_report_relative_names() {
    match search_query(Some("ÄB")) {
        Ok(SearchStart::Search { text }) => assert_eq!(text, "äb"),
        other => panic!("unexpected start {other:?}"),
    }
    assert!(matches!(search_query(Some("")), Ok(SearchStart::List)));
    assert_eq!(search_query(None).unwrap_err().describe(""), "invalid q");

    assert!(name_matches("xäby", "äb"));
    assert!(!name_matches("xaby", "äb"));

    let mut state = SearchState::new();
    assert_eq!(state.visit(&entry("base/sub/xÄBy"), b"base", "äb", 5), VisitAction::Continue);
    assert_eq!(state.visit(&entry("base/other"), b"base", "äb", 5), VisitAction::Continue);
    let found = state.finish(Ok(false)).unwrap();
    assert_eq!(found.paths.len(), 1);
    assert_eq!(found.paths[0].name, "sub/xÄBy");
    assert!(!found.truncated && !found.omitted_non_utf8);
}

#[test]
fn searches_stop_at_their_limit() {
    let mut state = SearchState::new();
    assert_eq!(state.visit(&entry("b/a1"), b"b", "a", 1), VisitAction::Continue);
    assert_eq!(state.visit(&entry("b/a2"), b"b", "a", 1), VisitAction::Stop);
    let found = state.finish(Ok(true)).unwrap();
    assert!(found.truncated && found.omitted_non_utf8);
}

#[test]
fn searches_leave_out_names_that_are_not_text_with_everything_beneath() {
    let mut state = SearchState::new();
    let mut bad = entry("b/x");
    bad.name = b"\xff".to_vec();
    assert_eq!(state.visit(&bad, b"b", "a", 5), VisitAction::Continue);
    bad.is_dir = true;
    assert_eq!(state.visit(&bad, b"b", "a", 5), VisitAction::SkipDirectory);
    assert!(state.finish(Ok(false)).unwrap().omitted_non_utf8);
}

#[test]
fn an_entry_outside_the_searched_root_ends_the_search() {
    let mut state = SearchState::new();
    assert_eq!(state.visit(&entry("other/a"), b"base", "a", 5), VisitAction::Stop);
    let error = state.finish(Err(AnyError::message("walk"))).unwrap_err();
    assert_eq!(error.describe(""), "walked search path escaped its display root: prefix not found");
    let error = SearchState::new().finish(Err(AnyError::message("walk"))).unwrap_err();
    assert_eq!(error.describe(""), "walk");
}

#[test]
fn header_requests_can_do_without_the_page() {
    let mut response = Response::new();
    assert_eq!(page_start(false, None, &mut response), PageStart::Generate);
    assert_eq!(
        page_start(true, Some(ReadPreconditionOutcome::Proceed), &mut response),
        PageStart::HeaderOnly
    );
    assert_eq!(
        page_start(true, Some(ReadPreconditionOutcome::NotModified), &mut response),
        PageStart::Answered
    );
    assert_eq!(response.status, StatusCode::NotModified);
}

#[test]
fn scans_need_a_permit() {
    let wait = Duration::from_secs(2);
    assert!(scan_permit(PermitOutcome::Granted, wait).is_ok());
    let refused = scan_permit(PermitOutcome::TimedOut, wait).unwrap_err();
    assert_eq!(refused.status(), StatusCode::ServiceUnavailable);
}

#[test]
fn real_paths_are_compared_behind_the_authorized_one() {
    assert_eq!(actual_suffix(b"srv/a", b"srv/a/b/c"), Some("b/c".to_owned()));
    assert_eq!(actual_suffix(b"srv/a", b"srv/a"), Some(String::new()));
    assert_eq!(actual_suffix(b"srv/a", b"srv/ab"), None);
    assert_eq!(actual_suffix(b"srv", b"srv/\xff"), None);
}

#[test]
fn an_index_page_is_sent_only_where_it_may_be() {
    assert_eq!(render_index(true, true, true, true), IndexPageAction::SendIndex);
    assert_eq!(render_index(true, true, false, true), IndexPageAction::ListDirectory);
    assert_eq!(render_index(true, true, false, false), IndexPageAction::NotFound);
    assert_eq!(render_index(false, false, false, true), IndexPageAction::ListDirectory);
}

#[test]
fn error_pages_come_from_the_opened_assets() {
    assert!(matches!(handle_not_found(None, Some(b"assets"), true), NotFoundStep::Plain));
    match handle_not_found(Some(b"assets/404.html"), Some(b"assets"), true) {
        NotFoundStep::OpenPage { rel } => assert_eq!(rel, b"404.html"),
        other => panic!("unexpected step {other:?}"),
    }
    assert!(matches!(
        handle_not_found(Some(b"assets/404.html"), Some(b"assets"), false),
        NotFoundStep::Plain
    ));
}

#[test]
fn error_pages_that_others_may_write_are_refused() {
    let page = Metadata {
        dev: 1,
        ino: 2,
        ctime_sec: 0,
        ctime_nsec: 0,
        mode: 0o100644,
        nlink: 1,
        uid: 0,
        len: 10,
    };
    assert!(check_error_page(&page, true, "404.html").is_ok());
    let shared = Metadata { mode: 0o100666, ..page };
    let error = check_error_page(&shared, true, "404.html").unwrap_err();
    assert!(matches!(
        FsError::in_anyhow_chain(&error),
        Some(FsError::Io { operation: "validating the configured internal error page", .. })
    ));
}

fn item(path_type: PathType, name: &str) -> PathItem {
    PathItem { path_type, name: name.to_owned(), mtime: 0, size: 0, size_known: true }
}

#[test]
fn plain_listings_mark_directories() {
    let paths = vec![item(PathType::Dir, "d"), item(PathType::File, "f")];
    assert_eq!(simple_listing(&paths), "d/\nf\n");
    assert_eq!(simple_listing(&Vec::new()), "");
}

#[test]
fn the_plain_form_wins() {
    assert_eq!(listing_kind(true, true), ListingKind::Simple);
    assert_eq!(listing_kind(false, true), ListingKind::Json);
    assert_eq!(listing_kind(false, false), ListingKind::Html);
}

fn complete() -> ListingOptions {
    ListingOptions {
        exist: true,
        content_length_known: true,
        representation_complete: true,
        truncated: false,
        omitted_non_utf8: false,
        mutation_version: Some("v7".to_owned()),
    }
}

#[test]
fn listings_are_sent_with_their_validator() {
    let mut response = Response::new();
    let extras = send_index(
        ListingKind::Json,
        b"{}".to_vec(),
        complete(),
        ReadPreconditionOutcome::Proceed,
        false,
        &mut response,
    );
    assert!(!extras.management_page);
    assert_eq!(extras.mutation_version.as_deref(), Some("v7"));
    assert_eq!(response.headers["cache-control"], "no-store, private");
    assert_eq!(response.headers["content-type"], "application/json");
    assert_eq!(response.headers["content-length"], "2");
    assert_eq!(
        response.headers["etag"],
        "\"sha256:44136fa355b3678a1146ad16f7e8649e94fb4fc21fe77e8310c060f61caaff8a\""
    );
    assert!(matches!(&response.body, Body::Full { bytes } if bytes == b"{}"));
}

#[test]
fn listings_that_the_client_has_are_not_sent_again() {
    let mut response = Response::new();
    let extras = send_index(
        ListingKind::Html,
        b"<html>".to_vec(),
        complete(),
        ReadPreconditionOutcome::NotModified,
        false,
        &mut response,
    );
    assert!(extras.management_page);
    assert_eq!(response.status, StatusCode::NotModified);
    assert!(matches!(response.body, Body::Empty));
}

#[test]
fn incomplete_listings_have_no_validator() {
    let mut response = Response::new();
    let options = ListingOptions {
        exist: true,
        content_length_known: false,
        representation_complete: false,
        truncated: true,
        omitted_non_utf8: true,
        mutation_version: None,
    };
    let extras = send_index(
        ListingKind::Simple,
        Vec::new(),
        options,
        ReadPreconditionOutcome::Proceed,
        true,
        &mut response,
    );
    assert_eq!(response.headers["cache-control"], "no-store, private");
    assert!(!response.headers.contains_key("etag"));
    assert!(!response.headers.contains_key("content-length"));
    assert_eq!(response.headers["x-ram-list-truncated"], "true");
    assert_eq!(response.headers["x-ram-list-omitted"], "non-utf8");
    assert_eq!(response.headers["content-type"], "text/plain; charset=utf-8");
    assert!(!extras.management_page && extras.mutation_version.is_none());
}

#[test]
fn only_complete_scans_of_what_is_there_are_versioned() {
    assert!(versions_scan(true, true));
    assert!(!versions_scan(true, false));
    assert!(!versions_scan(false, true));
    assert!(!versions_scan(false, false));
}

fn facts(readwrite: bool) -> PageFacts {
    PageFacts {
        href: "/d".to_owned(),
        uri_prefix: "/p/".to_owned(),
        allow_upload: true,
        allow_delete: false,
        allow_search: true,
        allow_archive: false,
        readwrite,
        user: Some("ann".to_owned()),
    }
}

#[test]
fn pages_tell_what_their_caller_may_do() {
    let mut options = complete();
    options.exist = false;
    options.truncated = true;
    let data = index_data(facts(true), &options, vec![item(PathType::File, "f")]);
    assert_eq!((data.href.as_str(), data.uri_prefix.as_str()), ("/d", "/p/"));
    assert!(data.allow_upload && !data.allow_delete && data.allow_search && !data.allow_archive);
    assert!(!data.dir_exists && data.truncated && !data.omitted_non_utf8);
    assert_eq!(data.user.as_deref(), Some("ann"));
    assert_eq!(data.mutation_version.as_deref(), Some("v7"));
    assert_eq!(data.paths.len(), 1);
    assert_eq!(data.paths[0].name, "f");

    let mut everything = facts(false);
    everything.allow_delete = true;
    let data = index_data(everything, &complete(), Vec::new());
    assert!(!data.allow_upload && !data.allow_delete);
    assert!(data.dir_exists && data.paths.is_empty());
}

#[test]
fn whole_listings_show_the_first_entries_in_order() {
    let mut listing = DirectoryListing::new();
    let mut hidden = entry("d/h");
    hidden.hidden = true;
    let walked = [entry("d/a"), hidden, entry("d/b"), entry("d/c")];
    let mut went_on = Vec::new();
    for walked in &walked {
        let name = std::str::from_utf8(&walked.name).unwrap().to_owned();
        went_on.push(listing.visit(walked, &None, Ok(name), 2).unwrap());
    }
    assert_eq!(went_on, [true, true, true, false]);
    let names: Vec<&str> = listing.paths.iter().map(|item| item.name.as_str()).collect();
    assert_eq!(names, ["a", "b"]);
}

#[test]
fn whole_searches_show_the_first_matches_in_order() {
    for (limit, found, cut_off) in
        [(3usize, vec!["xa", "b/xb"], false), (2, vec!["xa", "b/xb"], false), (1, vec!["xa"], true)]
    {
        let mut state = SearchState::new();
        let mut stopped = false;
        for walked in [entry("d/xa"), entry("d/other"), entry("d/b/xb")] {
            assert!(!stopped);
            stopped = state.visit(&walked, b"d", "x", limit) == VisitAction::Stop;
        }
        assert_eq!(stopped, cut_off);
        assert_eq!(state.result_limit_hit, cut_off);
        let names: Vec<&str> = state.paths.iter().map(|item| item.name.as_str()).collect();
        assert_eq!(names, found);
    }
}

#[test]
fn view_pages_are_private_html() {
    let mut response = Response::new();
    let extras = send_view_page(
        b"<p>".to_vec(),
        ReadPreconditionOutcome::Proceed,
        false,
        &mut response,
    );
    assert!(extras.management_page && extras.mutation_version.is_none());
    assert_eq!(response.headers["content-type"], "text/html; charset=utf-8");
    assert_eq!(response.headers["content-length"], "3");
    assert_eq!(response.headers["cache-control"], "no-store, private");
    assert!(matches!(&response.body, Body::Full { bytes } if bytes == b"<p>"));

    let mut refused = Response::new();
    send_view_page(
        b"<p>".to_vec(),
        ReadPreconditionOutcome::PreconditionFailed,
        false,
        &mut refused,
    );
    assert_eq!(refused.status, StatusCode::PreconditionFailed);
    assert_eq!(refused.headers["content-length"], "0");
}
