use ram_fileserver::archive::{
    archive_download_name, archive_size_limit_error, archive_timeout_error, cancellable_read,
    deflate_output_ceiling, expensive_permit, is_client_disconnect, named_failure,
    preflight_zip_dir, top_level_entry, worker_failure_level, zip64_required_for_entry, zip_dir,
    AppendPlan,
    ArchiveAction, ArchiveBudget, ArchiveChunkWriter, ArchiveEntry, ArchiveRequest, ArchiveStream,
    CancellationReason, ChunkEvent, CompressionMethod, CopyOutcome, EntryKind, LogLevel,
    PermitOutcome, PreflightOutcome, ResultEvent, SendAction, SendAttempt, StreamAction,
};
use ram_fileserver::error::{
    AdmissionError, AdmissionResource, AdmissionTimeoutKind, AnyError, ChangedStatus, FsError,
    IoErrorKind, LimitKind, QueueScope, ResponseErrorRef,
};
use ram_fileserver::response::{Body, Field, Response, StatusCode};
use ram_fileserver::time::Duration;

const ZIP32_LIMIT: u64 = u32::MAX as u64;

fn io_error(kind: IoErrorKind) -> AnyError {
    AnyError::Io { kind, errno: None }
}

fn shown(path: &str) -> String {
    format!("{:?}", std::path::Path::new(path.strip_prefix("base/").unwrap_or_default()))
}

fn file(path: &str, len: u64) -> ArchiveEntry {
    ArchiveEntry {
        display_rel: path.as_bytes().to_vec(),
        shown: shown(path),
        kind: EntryKind::File,
        len,
        mode: 0o100644,
    }
}

fn directory(path: &str) -> ArchiveEntry {
    ArchiveEntry {
        display_rel: path.as_bytes().to_vec(),
        shown: shown(path),
        kind: EntryKind::Directory,
        len: 4096,
        mode: 0o40755,
    }
}

#[test]
fn archive_download_name_has_root_fallback() {
    assert_eq!(archive_download_name(b"/"), "archive.zip");
    assert_eq!(archive_download_name(b"/srv/share"), "share.zip");
}

#[test]
fn archive_download_name_falls_back_for_names_that_are_not_text() {
    assert_eq!(archive_download_name(b"/srv/\xff"), "archive.zip");
    assert_eq!(archive_download_name(b"/srv/.."), "archive.zip");
    assert_eq!(archive_download_name(b""), "archive.zip");
}

#[test]
fn disconnect_classification_uses_typed_io_causes_only() {
    for kind in [
        IoErrorKind::BrokenPipe,
        IoErrorKind::ConnectionReset,
        IoErrorKind::ConnectionAborted,
    ] {
        let error = AnyError::io_message(kind, "private transport detail")
            .context("archive producer failed");
        assert!(is_client_disconnect(&error));
    }
    assert!(!is_client_disconnect(&AnyError::message(
        "broken pipe text is not a typed transport error"
    )));
    assert!(!is_client_disconnect(&AnyError::message("request cancelled")));
}

#[test]
fn archive_timeout_retains_typed_execution_deadline() {
    let waited = Duration::from_secs(17);
    let error = archive_timeout_error(waited);
    assert!(matches!(
        AdmissionError::in_anyhow_chain(&error),
        Some(AdmissionError::Timeout {
            resource: AdmissionResource::ExpensiveTasks,
            kind: AdmissionTimeoutKind::Execution,
            waited: actual,
        }) if *actual == waited
    ));
    let mapped = ResponseErrorRef::from_anyhow_typed(&error, ChangedStatus::Conflict)
        .expect("archive deadline remains typed under context");
    assert_eq!(mapped.status(), StatusCode::GatewayTimeout);
}

#[test]
fn archive_size_budget_retains_limit_and_observed_bytes() {
    let error = archive_size_limit_error(1024, Some(1025));
    assert!(matches!(
        AdmissionError::in_anyhow_chain(&error),
        Some(AdmissionError::LimitExceeded {
            resource: AdmissionResource::ArchiveBytes,
            kind: LimitKind::Semantic,
            limit: 1024,
            observed: Some(1025),
        })
    ));
    let mapped = ResponseErrorRef::from_anyhow_typed(&error, ChangedStatus::Conflict)
        .expect("archive size budget remains typed under context");
    assert_eq!(mapped.status(), StatusCode::UnprocessableEntity);
}

#[test]
fn zip64_is_selected_from_the_entry_ceiling_without_writing_four_gibibytes() {
    let threshold = zip::ZIP64_BYTES_THR;
    assert!(!zip64_required_for_entry(threshold - 1, CompressionMethod::Stored));
    assert!(zip64_required_for_entry(threshold, CompressionMethod::Stored));
    assert!(zip64_required_for_entry(threshold + 1, CompressionMethod::Stored));
    assert!(zip64_required_for_entry(4 * 1024 * 1024 * 1024, CompressionMethod::Stored));
    assert!(zip64_required_for_entry(u64::MAX, CompressionMethod::Stored));
}

#[test]
fn deflate_expansion_selects_zip64_below_the_zip32_input_boundary() {
    let custom_budget_below_zip32 = zip::ZIP64_BYTES_THR - 1024;
    assert!(!zip64_required_for_entry(custom_budget_below_zip32, CompressionMethod::Stored));
    assert!(zip64_required_for_entry(custom_budget_below_zip32, CompressionMethod::Deflated));
    assert!(!zip64_required_for_entry(1024 * 1024, CompressionMethod::Deflated));
    assert_eq!(deflate_output_ceiling(u64::MAX), u64::MAX);
}

#[test]
fn the_wide_format_starts_where_the_narrow_one_ends() {
    assert_eq!(zip::ZIP64_BYTES_THR, ZIP32_LIMIT);
    assert!(zip64_required_for_entry(0, CompressionMethod::Other));
}

#[test]
fn deflate_output_ceiling_adds_a_bit_per_byte_and_a_frame() {
    assert_eq!(deflate_output_ceiling(0), 64);
    assert_eq!(deflate_output_ceiling(8), 73);
    assert_eq!(deflate_output_ceiling(9), 75);
    assert_eq!(deflate_output_ceiling(1024), 1024 + 128 + 64);
}

#[test]
fn cancellable_reader_returns_a_typed_transport_cause() {
    let error = cancellable_read(true).unwrap_err();
    assert!(matches!(error, AnyError::IoMessage { kind: IoErrorKind::ConnectionAborted, .. }));
    assert_eq!(error.describe(""), "archive request cancelled");
    assert!(cancellable_read(false).is_ok());
}

#[test]
fn worker_failures_are_logged_by_their_cause() {
    let plain = AnyError::message("disk on fire");
    let gone = io_error(IoErrorKind::BrokenPipe).context("sending");
    assert_eq!(worker_failure_level(CancellationReason::RequestDropped, &plain), LogLevel::Debug);
    assert_eq!(worker_failure_level(CancellationReason::Shutdown, &plain), LogLevel::Debug);
    assert_eq!(worker_failure_level(CancellationReason::DeadlineExceeded, &plain), LogLevel::Warn);
    assert_eq!(worker_failure_level(CancellationReason::Running, &plain), LogLevel::Error);
    assert_eq!(worker_failure_level(CancellationReason::Running, &gone), LogLevel::Debug);
}

#[test]
fn preflight_counts_files_and_stops_at_the_budget() {
    let mut budget = ArchiveBudget::new(100);
    assert!(budget.preflight_entry(b"base", &file("base/a", 60)).is_ok());
    assert!(budget.preflight_entry(b"base", &directory("base/d")).is_ok());
    assert_eq!(budget.used, 60);
    let error = budget.preflight_entry(b"base", &file("base/b", 41)).unwrap_err();
    assert!(matches!(
        AdmissionError::in_anyhow_chain(&error),
        Some(AdmissionError::LimitExceeded { limit: 100, observed: Some(101), .. })
    ));
    assert_eq!(budget.used, 60);
    assert!(budget.preflight_entry(b"base", &file("base/b", 40)).is_ok());
    assert_eq!(budget.used, 100);
    let error = budget.preflight_entry(b"base", &file("base/c", u64::MAX)).unwrap_err();
    assert!(matches!(
        AdmissionError::in_anyhow_chain(&error),
        Some(AdmissionError::LimitExceeded { limit: 100, observed: None, .. })
    ));
}

#[test]
fn entries_outside_the_archive_root_are_refused() {
    let mut budget = ArchiveBudget::new(100);
    let error = budget.preflight_entry(b"base", &file("other/a", 1)).unwrap_err();
    assert_eq!(error.describe(""), "ZIP entry is outside the archive root");
    let error = budget.preflight_entry(b"base", &file("base", 1)).unwrap_err();
    assert_eq!(error.describe(""), "empty ZIP entry path");
    let error = budget.preflight_entry(b"base", &file("base/../x", 1)).unwrap_err();
    assert_eq!(error.describe(""), "unsafe structural ZIP entry path \"../x\"");
    let error = budget.preflight_entry(b"base", &file("base/a\0b", 1)).unwrap_err();
    assert_eq!(error.describe(""), "unsafe ZIP entry path \"a\\0b\"");
    let stray = ArchiveEntry {
        display_rel: b"base/\xff/..".to_vec(),
        shown: "\"\\xFF/..\"".to_owned(),
        ..file("", 1)
    };
    let error = budget.preflight_entry(b"base", &stray).unwrap_err();
    assert_eq!(error.describe(""), "unsafe structural ZIP entry path \"\\xFF/..\"");
}

#[test]
fn appended_entries_carry_their_name_mode_and_room() {
    let budget = ArchiveBudget { limit: 100, used: 30 };
    match budget.append_zip_entry(b"base", &file("base/x:y", 70), CompressionMethod::Stored) {
        Ok(AppendPlan::File { name, mode, remaining, read_limit, large_file }) => {
            assert_eq!(name, "archive/x%3Ay");
            assert_eq!(mode, 0o644);
            assert_eq!(remaining, 70);
            assert_eq!(read_limit, 71);
            assert!(!large_file);
        }
        other => panic!("unexpected plan {other:?}"),
    }
    match budget.append_zip_entry(b"base", &directory("base/d/e"), CompressionMethod::Stored) {
        Ok(AppendPlan::Directory { name, mode }) => {
            assert_eq!(name, "archive/d/e/");
            assert_eq!(mode, 0o755);
        }
        other => panic!("unexpected plan {other:?}"),
    }
    let socket = ArchiveEntry {
        display_rel: b"base/socket".to_vec(),
        shown: shown("base/socket"),
        kind: EntryKind::Other,
        len: 0,
        mode: 0o140755,
    };
    assert!(matches!(
        budget.append_zip_entry(b"base", &socket, CompressionMethod::Stored),
        Ok(AppendPlan::Skip)
    ));
    let error =
        budget.append_zip_entry(b"base", &file("base/big", 71), CompressionMethod::Stored).unwrap_err();
    assert!(matches!(
        AdmissionError::in_anyhow_chain(&error),
        Some(AdmissionError::LimitExceeded { limit: 100, observed: Some(101), .. })
    ));
}

#[test]
fn what_was_checked_is_taken_when_it_is_appended() {
    let entries = [file("base/a", 60), directory("base/d"), file("base/d/b", 40)];
    let mut checked = ArchiveBudget::new(100);
    for entry in &entries {
        assert!(checked.preflight_entry(b"base", entry).is_ok());
    }
    let mut taken = ArchiveBudget::new(100);
    for entry in &entries {
        match taken.append_zip_entry(b"base", entry, CompressionMethod::Stored).unwrap() {
            AppendPlan::File { name, remaining, .. } => {
                let copied = CopyOutcome::Copied { bytes: entry.len };
                assert!(taken.finish_zip_file(&name, remaining, copied, false).is_ok());
            }
            AppendPlan::Directory { .. } => {}
            AppendPlan::Skip => panic!("nothing is skipped"),
        }
    }
    assert_eq!(taken.used, checked.used);
}

#[test]
fn copied_files_are_accounted_for_and_growth_is_noticed() {
    let mut budget = ArchiveBudget { limit: 100, used: 30 };
    assert!(budget
        .finish_zip_file("archive/a", 70, CopyOutcome::Copied { bytes: 10 }, false)
        .is_ok());
    assert_eq!(budget.used, 40);
    let error = budget
        .finish_zip_file("archive/a", 60, CopyOutcome::Copied { bytes: 61 }, false)
        .unwrap_err();
    assert!(matches!(
        AdmissionError::in_anyhow_chain(&error),
        Some(AdmissionError::LimitExceeded { limit: 100, observed: Some(101), .. })
    ));
    let failed = CopyOutcome::Failed { error: io_error(IoErrorKind::UnexpectedEof) };
    let error = budget.finish_zip_file("archive/a", 60, failed, false).unwrap_err();
    assert_eq!(error.describe(""), "failed to copy ZIP file \"archive/a\"");
    let failed = CopyOutcome::Failed { error: io_error(IoErrorKind::ConnectionAborted) };
    let error = budget.finish_zip_file("archive/a", 60, failed, true).unwrap_err();
    assert_eq!(error.describe(""), "archive generation was cancelled");
    assert!(matches!(
        AdmissionError::in_anyhow_chain(&error),
        Some(AdmissionError::Cancelled { resource: AdmissionResource::ArchiveBytes })
    ));
    assert_eq!(budget.used, 40);
}

#[test]
fn failures_of_one_entry_name_it() {
    let error = named_failure(AnyError::message("full"), "failed to start ZIP file ", "archive/\"q\"");
    assert_eq!(error.describe(""), "failed to start ZIP file \"archive/\\\"q\\\"\"");
}

#[test]
fn traversals_report_the_entry_before_the_walk() {
    let entry = AnyError::message("entry");
    let error = preflight_zip_dir(Some(entry), Err(AnyError::message("walk"))).unwrap_err();
    assert_eq!(error.describe_chain(""), "entry");
    let error = preflight_zip_dir(None, Err(AnyError::message("walk"))).unwrap_err();
    assert_eq!(error.describe_chain(""), "archive preflight traversal failed: walk");
    let error = zip_dir(None, Err(AnyError::message("walk")), Ok(()), Ok(())).unwrap_err();
    assert_eq!(error.describe_chain(""), "directory traversal failed: walk");
    let error = zip_dir(None, Ok(()), Err(AnyError::message("x")), Ok(())).unwrap_err();
    assert_eq!(error.describe_chain(""), "failed to finalize ZIP archive: x");
    let error = zip_dir(None, Ok(()), Ok(()), Err(AnyError::message("x"))).unwrap_err();
    assert_eq!(error.describe_chain(""), "failed to flush ZIP archive: x");
    assert!(zip_dir(None, Ok(()), Ok(()), Ok(())).is_ok());
}

#[test]
fn chunks_are_cut_to_one_size_and_lose_nothing() {
    let mut writer = ArchiveChunkWriter::new(4);
    let input = b"0123456789";
    let mut sent: Vec<u8> = Vec::new();
    let mut at = 0;
    while at < input.len() {
        let (taken, chunk) = writer.write(&input[at..], false);
        at += taken;
        if let Some(bytes) = chunk {
            assert_eq!(bytes.len(), 4);
            sent.extend(bytes);
        }
    }
    assert_eq!(sent, b"01234567");
    assert_eq!(writer.send_buffer(false), Some(b"89".to_vec()));
    assert_eq!(writer.send_buffer(false), None);
}

#[test]
fn sending_stops_for_a_cancelled_or_absent_receiver() {
    let after_send = ArchiveChunkWriter::after_send;
    assert!(matches!(after_send(false, SendAttempt::Sent), SendAction::Done));
    assert!(matches!(after_send(false, SendAttempt::Full), SendAction::Pause));
    assert!(matches!(after_send(true, SendAttempt::Full), SendAction::Done));
    match after_send(false, SendAttempt::Closed) {
        SendAction::Fail { error } => {
            assert!(is_client_disconnect(&error));
            assert_eq!(error.describe(""), "archive response receiver closed");
        }
        other => panic!("unexpected action {other:?}"),
    }
}

#[test]
fn permits_map_to_admission_failures() {
    let wait = Duration::from_secs(3);
    assert!(expensive_permit(PermitOutcome::Granted, wait).is_ok());
    assert_eq!(
        expensive_permit(PermitOutcome::TimedOut, wait),
        Err(AdmissionError::queue_timeout(
            AdmissionResource::ExpensiveTasks,
            QueueScope::WorkerPool,
            wait
        ))
    );
    assert_eq!(
        expensive_permit(PermitOutcome::Closed, wait),
        Err(AdmissionError::cancelled(AdmissionResource::ExpensiveTasks))
    );
}

#[test]
fn a_request_for_the_header_alone_starts_no_worker() {
    let request = ArchiveRequest { wait: Duration::from_secs(5) };
    let mut response = Response::new();
    assert!(matches!(request.begin(true, &mut response), ArchiveAction::RespondAttachment));
    assert!(matches!(request.begin(false, &mut response), ArchiveAction::AcquirePermit));
}

#[test]
fn a_refused_permit_answers_with_a_retry() {
    let request = ArchiveRequest { wait: Duration::from_secs(5) };
    let mut response = Response::new();
    assert!(matches!(
        request.permit(PermitOutcome::TimedOut, &mut response),
        ArchiveAction::Respond
    ));
    assert_eq!(response.status, StatusCode::ServiceUnavailable);
    assert!(response.contains(Field::RetryAfter));
    assert!(matches!(
        request.permit(PermitOutcome::Granted, &mut response),
        ArchiveAction::StartWorker
    ));
}

#[test]
fn preflight_decides_before_the_first_byte() {
    let request = ArchiveRequest { wait: Duration::from_secs(5) };
    let mut response = Response::new();
    assert!(matches!(
        request.preflight(PreflightOutcome::Passed, &mut response),
        ArchiveAction::StreamAttachment
    ));
    let rejected = PreflightOutcome::Rejected { error: archive_size_limit_error(10, Some(11)) };
    assert!(matches!(request.preflight(rejected, &mut response), ArchiveAction::Respond));
    assert_eq!(response.status, StatusCode::UnprocessableEntity);
    match &response.body {
        Body::Full { bytes } => assert_eq!(bytes, b"Unprocessable Entity"),
        other => panic!("unexpected body {other:?}"),
    }
    assert!(matches!(
        request.preflight(PreflightOutcome::TimedOut, &mut response),
        ArchiveAction::CancelAndRespond
    ));
    assert_eq!(response.status, StatusCode::GatewayTimeout);
}

#[test]
fn a_truncated_archive_never_ends_well() {
    let mut stream = ArchiveStream::new(Duration::from_secs(5));
    assert!(matches!(stream.poll(), StreamAction::AwaitChunk));
    match stream.on_chunk(ChunkEvent::Chunk { bytes: b"PK".to_vec() }) {
        StreamAction::Emit { bytes } => assert_eq!(bytes, b"PK"),
        other => panic!("unexpected action {other:?}"),
    }
    assert!(matches!(stream.on_chunk(ChunkEvent::Closed), StreamAction::AwaitResult));
    match stream.on_result(ResultEvent::Lost) {
        StreamAction::EmitError { error } => {
            assert_eq!(error.describe(""), "zip producer terminated without a result")
        }
        other => panic!("unexpected action {other:?}"),
    }
    assert!(matches!(stream.poll(), StreamAction::End));

    let mut stream = ArchiveStream::new(Duration::from_secs(5));
    assert!(matches!(stream.on_chunk(ChunkEvent::Closed), StreamAction::AwaitResult));
    assert!(matches!(stream.on_result(ResultEvent::Succeeded), StreamAction::End));

    let mut stream = ArchiveStream::new(Duration::from_secs(5));
    match stream.on_chunk(ChunkEvent::DeadlineReached) {
        StreamAction::CancelAndEmitError { error } => assert!(matches!(
            AdmissionError::in_anyhow_chain(&error),
            Some(AdmissionError::Timeout { waited, .. }) if *waited == Duration::from_secs(5)
        )),
        other => panic!("unexpected action {other:?}"),
    }

    let mut stream = ArchiveStream::new(Duration::from_secs(5));
    let failure = AnyError::filesystem(FsError::io("reading", AnyError::message("device")));
    stream.on_chunk(ChunkEvent::Closed);
    match stream.on_result(ResultEvent::Failed { error: failure }) {
        StreamAction::EmitError { error } => assert!(FsError::in_anyhow_chain(&error).is_some()),
        other => panic!("unexpected action {other:?}"),
    }
}

#[test]
fn an_archive_starts_with_its_top_level_directory() {
    assert_eq!(top_level_entry(), (String::from("archive/"), 0o755));
}
