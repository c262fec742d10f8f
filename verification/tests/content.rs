use ram_fileserver::content::{
    begin_open_file, content_type_text, embedded_asset, finish_error_page, finish_open_file,
    generated_etag, handle_send_opened_cap_file, internal_route, is_browser_active_content,
    multipart_boundary, send_asset, send_health, sniff_content_type, text_viewable, ByteRangeParse,
    EmbeddedAsset, InternalRoute, MultipartFacts, OpenFileStep, RangeRequest,
    ReadPreconditionOutcome, Validators,
};
use ram_fileserver::filesystem::entry::Metadata;
use ram_fileserver::response::{Body, Response, StatusCode};

fn validators() -> Validators {
    Validators {
        etag: b"\"v1\"".to_vec(),
        last_modified: Some(b"Thu, 01 Jan 1970 00:00:00 GMT".to_vec()),
    }
}

fn facts() -> MultipartFacts {
    MultipartFacts { boundary: "b".to_owned(), content_length: 77, exceeds_limits: false }
}

fn begin(outcome: ReadPreconditionOutcome, range: RangeRequest, response: &mut Response) -> OpenFileStep {
    begin_open_file(true, 100, &validators(), outcome, range, true, false, response)
}

#[test]
fn validators_are_digests_of_the_content() {
    assert_eq!(
        generated_etag(b""),
        "\"sha256:e3b0c44298fc1c149afbf4c8996fb92427ae41e4649b934ca495991b7852b855\""
    );
    assert_eq!(
        generated_etag(b"abc"),
        "\"sha256:ba7816bf8f01cfea414140de5dae2223b00361a396177a9cb410ff61f20015ad\""
    );
}

#[test]
fn assets_are_known_by_name() {
    let (asset, mime) = embedded_asset("index.js").unwrap();
    assert_eq!(asset, EmbeddedAsset::IndexJs);
    assert!(mime.contains("javascript"), "{mime}");
    assert!(embedded_asset("missing.js").is_none());
}

#[test]
fn internal_routes_are_found_by_their_prefix() {
    match internal_route("__ram_v1__/index.css", "__ram_v1__/") {
        InternalRoute::Asset { name } => assert_eq!(name, "index.css"),
        other => panic!("unexpected route {other:?}"),
    }
    assert!(matches!(internal_route("__ram__/health", "__ram_v1__/"), InternalRoute::Health));
    assert!(matches!(internal_route("file", "__ram_v1__/"), InternalRoute::NotInternal));
}

#[test]
fn assets_are_sent_with_type_and_length() {
    let mut response = Response::new();
    send_asset(
        EmbeddedAsset::IndexCss,
        b"body{}",
        ReadPreconditionOutcome::Proceed,
        false,
        &mut response,
    );
    assert_eq!(response.headers["content-length"], "6");
    assert!(response.headers["content-type"].to_str().unwrap().starts_with("text/css"));
    assert_eq!(response.headers["etag"], generated_etag(b"body{}").as_str());
    assert!(matches!(&response.body, Body::Full { bytes } if bytes == b"body{}"));

    let mut known = Response::new();
    send_asset(
        EmbeddedAsset::IndexCss,
        b"body{}",
        ReadPreconditionOutcome::NotModified,
        false,
        &mut known,
    );
    assert_eq!(known.status, StatusCode::NotModified);
    assert!(matches!(known.body, Body::Empty));
}

#[test]
fn health_tells_whether_the_root_is_there() {
    let mut ready = Response::new();
    send_health(true, false, &mut ready);
    assert_eq!(ready.status, StatusCode::Success);
    assert_eq!(ready.headers["content-type"], "application/json");
    let mut lost = Response::new();
    send_health(false, true, &mut lost);
    assert_eq!(lost.status, StatusCode::ServiceUnavailable);
    assert!(matches!(lost.body, Body::Empty));
}

#[test]
fn content_types_come_from_name_and_bytes() {
    assert_eq!(sniff_content_type(b"hello", "a.txt"), "text/plain; charset=UTF-8");
    assert_eq!(sniff_content_type(b"\x89PNG\r\n", "a.png"), "image/png");
    assert_eq!(sniff_content_type(b"\0\x01\x02", "unknown"), "application/octet-stream");
    assert_eq!(sniff_content_type(b"plain", "unknown"), "text/plain; charset=UTF-8");
    assert_eq!(sniff_content_type(b"\xc4\xe3\xba\xc3\xca\xc0\xbd\xe7", "a.txt"), "text/plain; charset=GBK");
    assert_eq!(content_type_text(Some("image/png".to_owned()), None), "image/png");
    assert_eq!(content_type_text(None, Some("GBK".to_owned())), "text/plain; charset=GBK");
}

#[test]
fn text_can_be_viewed_up_to_a_size() {
    assert!(text_viewable(4 * 1024 * 1024, b"text"));
    assert!(!text_viewable(4 * 1024 * 1024 + 1, b"text"));
    assert!(!text_viewable(4, b"%PDF-1.7"));
    assert!(!text_viewable(4, b"a\0b"));
    assert!(text_viewable(4, b"\xef\xbb\xbfa"));
}

#[test]
fn active_content_is_recognized_whatever_its_parameters() {
    for active in ["text/html", "TEXT/HTML; charset=utf-8", " image/svg+xml "] {
        assert!(is_browser_active_content(active), "{active}");
    }
    for passive in ["text/plain", "image/png", "", "text/htmlx"] {
        assert!(!is_browser_active_content(passive), "{passive}");
    }
}

#[test]
fn conditions_come_before_ranges() {
    let mut response = Response::new();
    let step = begin(ReadPreconditionOutcome::NotModified, RangeRequest::Repeated, &mut response);
    assert!(matches!(step, OpenFileStep::Answered));
    assert_eq!(response.status, StatusCode::NotModified);
    assert_eq!(response.headers["etag"], "\"v1\"");
    assert_eq!(response.headers["last-modified"], "Thu, 01 Jan 1970 00:00:00 GMT");
    assert_eq!(response.headers["cache-control"], "no-cache, private");

    let mut response = Response::new();
    let step = begin(ReadPreconditionOutcome::PreconditionFailed, RangeRequest::Absent, &mut response);
    assert!(matches!(step, OpenFileStep::Answered));
    assert_eq!(response.status, StatusCode::PreconditionFailed);
}

#[test]
fn header_requests_ignore_ranges() {
    let asked = RangeRequest::Single { parsed: ByteRangeParse::Satisfiable { ranges: vec![(0, 9)] } };
    let unsatisfiable = RangeRequest::Single { parsed: ByteRangeParse::Unsatisfiable };
    for range in [asked, unsatisfiable, RangeRequest::Repeated, RangeRequest::Absent] {
        let mut response = Response::new();
        let step = begin_open_file(
            true,
            100,
            &validators(),
            ReadPreconditionOutcome::Proceed,
            range,
            true,
            true,
            &mut response,
        );
        assert!(matches!(step, OpenFileStep::Send { ranges: None }));
        assert_eq!(response.status, StatusCode::Success);
    }
}

#[test]
fn ranges_that_cannot_be_served_are_answered_at_once() {
    let single = |parsed| RangeRequest::Single { parsed };
    let mut response = Response::new();
    begin(ReadPreconditionOutcome::Proceed, single(ByteRangeParse::Unsatisfiable), &mut response);
    assert_eq!(response.status, StatusCode::RangeNotSatisfiable);
    assert_eq!(response.headers["content-range"], "bytes */100");
    assert_eq!(response.headers["content-length"], "0");
    assert_eq!(response.headers["accept-ranges"], "bytes");

    for range in [RangeRequest::Repeated, single(ByteRangeParse::Invalid)] {
        let mut response = Response::new();
        begin(ReadPreconditionOutcome::Proceed, range, &mut response);
        assert_eq!(response.status, StatusCode::BadRequest);
    }
    let mut response = Response::new();
    let step =
        begin(ReadPreconditionOutcome::Proceed, single(ByteRangeParse::UnsupportedUnit), &mut response);
    assert!(matches!(step, OpenFileStep::Send { ranges: None }));
}

#[test]
fn only_regular_files_are_sent() {
    let mut response = Response::new();
    let step = begin_open_file(
        false,
        0,
        &validators(),
        ReadPreconditionOutcome::Proceed,
        RangeRequest::Absent,
        true,
        false,
        &mut response,
    );
    assert!(matches!(step, OpenFileStep::NotFound));
    assert!(response.headers.is_empty());

    let file = Metadata {
        dev: 1,
        ino: 1,
        ctime_sec: 0,
        ctime_nsec: 0,
        mode: 0o100600,
        nlink: 1,
        uid: 0,
        len: 0,
    };
    assert!(handle_send_opened_cap_file(&file, true));
    assert!(!handle_send_opened_cap_file(&file, false));
    assert!(!handle_send_opened_cap_file(&Metadata { mode: 0o40700, ..file }, true));
}

#[test]
fn whole_files_are_sent_with_their_length() {
    let mut response = Response::new();
    let shown =
        finish_open_file(None, 100, "text/plain", false, facts(), false, &mut response).unwrap();
    assert!(shown.inline);
    assert_eq!(response.status, StatusCode::Success);
    assert_eq!(response.headers["content-length"], "100");
    assert!(matches!(response.body, Body::FileRange { start: 0, length: 100 }));
}

#[test]
fn one_range_is_sent_as_partial_content() {
    let mut response = Response::new();
    finish_open_file(Some(vec![(10, 19)]), 100, "text/plain", false, facts(), false, &mut response)
        .unwrap();
    assert_eq!(response.status, StatusCode::PartialContent);
    assert_eq!(response.headers["content-range"], "bytes 10-19/100");
    assert_eq!(response.headers["content-length"], "10");
    assert!(matches!(response.body, Body::FileRange { start: 10, length: 10 }));
}

#[test]
fn several_ranges_are_sent_in_parts_within_limits() {
    let asked = vec![(0, 0), (50, 99)];
    let mut response = Response::new();
    finish_open_file(Some(asked.clone()), 100, "text/plain", false, facts(), false, &mut response)
        .unwrap();
    assert_eq!(response.status, StatusCode::PartialContent);
    assert_eq!(response.headers["content-length"], "77");
    assert_eq!(response.headers["content-type"], "multipart/byteranges; boundary=b");
    match &response.body {
        Body::Multipart { ranges, boundary } => {
            assert_eq!(ranges, &asked);
            assert_eq!(boundary, "b");
        }
        other => panic!("unexpected body {other:?}"),
    }

    let mut response = Response::new();
    let too_much = MultipartFacts { exceeds_limits: true, ..facts() };
    finish_open_file(Some(asked), 100, "text/plain", false, too_much, false, &mut response).unwrap();
    assert_eq!(response.status, StatusCode::RangeNotSatisfiable);
    assert_eq!(response.headers["content-range"], "bytes */100");
}

#[test]
fn active_content_is_offered_for_download_in_a_sandbox() {
    let mut response = Response::new();
    let shown =
        finish_open_file(None, 1, "text/html", false, facts(), true, &mut response).unwrap();
    assert!(!shown.inline);
    assert!(response.headers["content-security-policy"].to_str().unwrap().starts_with("sandbox"));
    assert!(matches!(response.body, Body::Empty));
}

#[test]
fn a_type_that_is_no_header_value_fails() {
    let mut response = Response::new();
    let error =
        finish_open_file(None, 1, "text/\nplain", false, facts(), false, &mut response).unwrap_err();
    assert_eq!(error.describe(""), "failed to parse header value");
    assert!(response.headers.is_empty());
}

#[test]
fn error_pages_are_not_found_and_cannot_act() {
    let mut response = Response::new();
    assert!(finish_error_page(&mut response).inline);
    assert_eq!(response.status, StatusCode::NotFound);
    assert_eq!(
        response.headers["content-security-policy"],
        "sandbox; default-src 'none'; style-src 'unsafe-inline'; img-src data:"
    );
}

#[test]
fn boundaries_are_random_identifiers() {
    let first = multipart_boundary();
    let second = multipart_boundary();
    assert_ne!(first, second);
    for boundary in [first, second] {
        assert_eq!(boundary.len(), 36);
        assert_eq!(&boundary[14..15], "4");
        assert!(boundary.chars().all(|c| c == '-' || c.is_ascii_hexdigit()));
    }
}
