//! What errors say, and the small pieces they are built from.

use ram_fileserver::error::{
    AdmissionError, AdmissionResource, AnyError, DurabilityStage, FsError, HttpError, IoErrorKind,
    LimitKind, MutationEndpointRole, QueueScope, ResponseError, ChangedStatus,
};
use ram_fileserver::path::{components, file_name, is_beneath, split_slashes, strip_prefix, Component};
use ram_fileserver::text::{
    decimal_digits, is_text, number_text, octal_text, same_text, scalar_width, signed_text, text2,
    text3, width_of,
};
use ram_fileserver::time::Duration;

#[test]
fn errors_say_what_happened() {
    let cause = || AnyError::message("cause");
    assert_eq!(
        FsError::conflict("creating", cause()).describe(""),
        "filesystem conflict while creating: cause"
    );
    assert_eq!(
        FsError::durability(DurabilityStage::SourceParent, true, cause()).describe(""),
        "durability failure at source parent directory (published=true): cause"
    );
    assert_eq!(
        FsError::changed(MutationEndpointRole::Target, "a", "missing", "present").describe(""),
        "filesystem Target entry changed at a: expected missing, found present"
    );
    assert_eq!(HttpError::bad_request(cause()).describe(""), "malformed request: cause");
    assert_eq!(
        AdmissionError::limit_exceeded(
            AdmissionResource::WalkEntries,
            LimitKind::Semantic,
            10,
            Some(11)
        )
        .describe(),
        "walk entries Semantic limit exceeded (limit=10, observed=Some(11))"
    );
    assert_eq!(
        AdmissionError::queue_timeout(
            AdmissionResource::Requests,
            QueueScope::Global,
            Duration::from_millis(1500)
        )
        .describe(),
        "requests Queue(Global) timed out after 1.5s"
    );
    assert_eq!(
        ResponseError::filesystem(FsError::conflict("x", cause()), ChangedStatus::Conflict)
            .describe(""),
        "filesystem request failed: filesystem conflict while x: cause"
    );
}

#[test]
fn chains_are_written_out_with_the_system_in_its_place() {
    let error = AnyError::Io { kind: IoErrorKind::NotFound, errno: None }
        .context("inner")
        .context("outer");
    assert_eq!(error.describe("No such file"), "outer");
    assert_eq!(error.describe_chain("No such file"), "outer: inner: No such file");
}

#[test]
fn numbers_are_written_in_decimal_and_octal() {
    assert_eq!(decimal_digits(0), b"0");
    assert_eq!(decimal_digits(u64::MAX), b"18446744073709551615");
    assert_eq!(number_text(1234567), "1234567");
    assert_eq!(signed_text(-42), "-42");
    assert_eq!(signed_text(i64::MIN), "-9223372036854775808");
    assert_eq!(octal_text(0o640), "0640");
    assert_eq!(text2("a", "b"), "ab");
    assert_eq!(text3("a", "", "c"), "ac");
}

#[test]
fn text_is_recognized_scalar_by_scalar() {
    assert!(is_text("aé文😀".as_bytes()));
    for bad in [&b"\xff"[..], b"\xc3", b"\xe2\x82", b"\xed\xa0\x80", b"\xf4\x90\x80\x80", b"\xc1\x81"] {
        assert!(!is_text(bad), "{bad:?}");
    }
    assert_eq!(scalar_width("文".as_bytes(), 0), 3);
    assert_eq!(scalar_width("文".as_bytes(), 1), 0);
    assert_eq!(width_of('😀'), 4);
    assert!(same_text("a", "a") && !same_text("a", "b"));
}

fn shown(path: &[u8]) -> Vec<String> {
    components(path)
        .iter()
        .map(|component| match component {
            Component::RootDir => String::from("/"),
            Component::CurDir => String::from("."),
            Component::ParentDir => String::from(".."),
            Component::Normal { name } => String::from_utf8(name.clone()).unwrap(),
        })
        .collect()
}

#[test]
fn paths_split_into_components() {
    assert_eq!(shown(b"/a//b/./c/.."), ["/", "a", "b", "c", ".."]);
    assert_eq!(shown(b"./a"), [".", "a"]);
    assert_eq!(shown(b"a/"), ["a"]);
    assert!(shown(b"").is_empty());
    assert_eq!(split_slashes(b"a//b"), [b"a".to_vec(), Vec::new(), b"b".to_vec()]);
    assert_eq!(file_name(b"a/b/"), Some(b"b".to_vec()));
    assert_eq!(file_name(b"a/.."), None);
    assert_eq!(strip_prefix(b"a/b/c", b"a/").map(|rest| rest.len()), Some(2));
    assert!(strip_prefix(b"ab", b"a").is_none());
    assert!(is_beneath(&components(b"a/b"), &components(b"a")));
}

#[test]
fn waits_are_rounded_up_to_whole_seconds() {
    assert_eq!(Duration::from_millis(1001).whole_secs_at_least_one(), 2);
    assert_eq!(Duration::from_millis(1000).whole_secs_at_least_one(), 1);
    assert_eq!(Duration::from_millis(0).whole_secs_at_least_one(), 1);
    assert_eq!(Duration::from_millis(2500), Duration { secs: 2, nanos: 500_000_000 });
}
