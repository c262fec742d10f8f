use hyper::header::{
    HeaderValue, ACCEPT_RANGES, CONTENT_DISPOSITION, CONTENT_ENCODING, CONTENT_LENGTH,
    CONTENT_RANGE, CONTENT_TYPE, ETAG, LAST_MODIFIED, RETRY_AFTER,
};
use ram_fileserver::error::{
    apply_anyhow_or_internal, AdmissionError, AdmissionResource, AdmissionTimeoutKind, AnyError,
    ChangedStatus, DurabilityStage, Errno, FsError, HttpError, IoErrorKind, LimitKind,
    MutationEndpointRole, QueueScope, ResponseError, ResponseErrorRef, ResponseErrorSource,
};
use ram_fileserver::response::{Body, Response, StatusCode};
use ram_fileserver::time::Duration;

fn io_error(message: &'static str) -> AnyError {
    AnyError::io_message(IoErrorKind::Other, message)
}

fn kind_error(kind: IoErrorKind) -> AnyError {
    AnyError::Io { kind, errno: None }
}

fn raw_os_error(errno: Errno) -> AnyError {
    AnyError::Io { kind: IoErrorKind::Other, errno: Some(errno) }
}

fn fs(error: FsError, changed_status: ChangedStatus) -> ResponseError {
    ResponseError::filesystem(error, changed_status)
}

fn response_with(body: &[u8]) -> Response {
    let mut response = Response::new();
    response.body = Body::Full { bytes: body.to_vec() };
    response
}

fn body_of(response: &Response) -> &[u8] {
    match &response.body {
        Body::Full { bytes } => bytes,
        other => panic!("expected a full body, got {other:?}"),
    }
}

#[test]
fn public_error_mapping_is_complete_and_table_driven() {
    let cases = [
        (
            ResponseError::bad_request(io_error("private parser detail")),
            StatusCode::BadRequest,
            "Bad Request",
            false,
        ),
        (
            fs(
                FsError::from_anyhow(
                    "opening",
                    AnyError::io_message(IoErrorKind::PermissionDenied, "secret path"),
                ),
                ChangedStatus::Conflict,
            ),
            StatusCode::Forbidden,
            "Forbidden",
            false,
        ),
        (
            fs(
                FsError::from_anyhow(
                    "opening",
                    AnyError::io_message(IoErrorKind::NotFound, "secret path"),
                ),
                ChangedStatus::Conflict,
            ),
            StatusCode::NotFound,
            "Not Found",
            false,
        ),
        (
            fs(
                FsError::conflict("creating", io_error("secret path")),
                ChangedStatus::Conflict,
            ),
            StatusCode::Conflict,
            "Conflict",
            false,
        ),
        (
            fs(
                FsError::changed(
                    MutationEndpointRole::Target,
                    "private/name",
                    "inode 1",
                    "inode 2",
                ),
                ChangedStatus::PreconditionFailed,
            ),
            StatusCode::PreconditionFailed,
            "Precondition Failed",
            false,
        ),
        (
            ResponseError::admission(AdmissionError::limit_exceeded(
                AdmissionResource::UploadBytes,
                LimitKind::Payload,
                10,
                Some(11),
            )),
            StatusCode::PayloadTooLarge,
            "Payload Too Large",
            false,
        ),
        (
            ResponseError::admission(AdmissionError::limit_exceeded(
                AdmissionResource::WalkEntries,
                LimitKind::Semantic,
                10,
                Some(11),
            )),
            StatusCode::UnprocessableEntity,
            "Unprocessable Entity",
            false,
        ),
        (
            ResponseError::admission(AdmissionError::queue_full(
                AdmissionResource::Requests,
                QueueScope::PerSource,
                4,
            )),
            StatusCode::TooManyRequests,
            "Too Many Requests",
            true,
        ),
        (
            ResponseError::admission(AdmissionError::queue_full(
                AdmissionResource::Requests,
                QueueScope::Global,
                64,
            )),
            StatusCode::ServiceUnavailable,
            "Service Unavailable",
            true,
        ),
        (
            ResponseError::admission(AdmissionError::execution_timeout(
                AdmissionResource::ExpensiveTasks,
                Duration::from_secs(5),
            )),
            StatusCode::GatewayTimeout,
            "Gateway Timeout",
            false,
        ),
        (
            fs(
                FsError::from_anyhow("committing", raw_os_error(Errno::DQuot)),
                ChangedStatus::Conflict,
            ),
            StatusCode::InsufficientStorage,
            "Insufficient Storage",
            false,
        ),
        (
            fs(
                FsError::io("reading", io_error("private device detail")),
                ChangedStatus::Conflict,
            ),
            StatusCode::InternalServerError,
            "Internal Server Error",
            false,
        ),
    ];

    for (error, expected_status, expected_body, has_retry_after) in cases {
        let shown = error.describe("private system text");
        assert_eq!(error.status(), expected_status, "{shown}");
        assert_eq!(error.default_public_body(), expected_body, "{shown}");
        assert_eq!(error.retry_after().is_some(), has_retry_after, "{shown}");

        // The response may already describe a success.
        let mut response = response_with(b"private success body");
        for name in [
            ACCEPT_RANGES,
            CONTENT_DISPOSITION,
            CONTENT_ENCODING,
            CONTENT_LENGTH,
            CONTENT_RANGE,
            ETAG,
            LAST_MODIFIED,
        ] {
            response
                .headers
                .insert(name, HeaderValue::from_static("private-success-metadata"));
        }
        response.headers.insert(CONTENT_TYPE, HeaderValue::from_static("application/private"));
        response.headers.insert(RETRY_AFTER, HeaderValue::from_static("999"));

        error.apply(&mut response);

        assert_eq!(response.status, expected_status, "{shown}");
        assert_eq!(
            response.headers.get(CONTENT_TYPE).unwrap(),
            "text/plain; charset=utf-8",
            "{shown}"
        );
        for name in [
            ACCEPT_RANGES,
            CONTENT_DISPOSITION,
            CONTENT_ENCODING,
            CONTENT_LENGTH,
            CONTENT_RANGE,
            ETAG,
            LAST_MODIFIED,
        ] {
            assert!(
                response.headers.get(&name).is_none(),
                "stale successful representation header survived: {name:?}; {shown}"
            );
        }
        assert_eq!(response.headers.contains_key(RETRY_AFTER), has_retry_after, "{shown}");
        let body = body_of(&response);
        assert_eq!(body, expected_body.as_bytes(), "{shown}");
        let body = String::from_utf8_lossy(body);
        assert!(!body.contains("private"), "{shown}");
        assert!(!body.contains("secret"), "{shown}");
    }
}

#[test]
fn final_anyhow_boundary_preserves_typed_mapping_and_hides_raw_failures() {
    let typed = AnyError::admission(AdmissionError::queue_full(
        AdmissionResource::Requests,
        QueueScope::Global,
        64,
    ))
    .context("private outer context");
    let mut typed_response = response_with(b"private success body");
    apply_anyhow_or_internal(&mut typed_response, &typed, ChangedStatus::Conflict);
    assert_eq!(typed_response.status, StatusCode::ServiceUnavailable);
    assert_eq!(typed_response.headers.get(RETRY_AFTER).unwrap(), "1");
    assert_eq!(body_of(&typed_response), b"Service Unavailable");

    let raw = AnyError::message("private untyped handler failure");
    let mut raw_response = response_with(b"private success body");
    raw_response.headers.insert(RETRY_AFTER, HeaderValue::from_static("999"));
    apply_anyhow_or_internal(&mut raw_response, &raw, ChangedStatus::Conflict);
    assert_eq!(raw_response.status, StatusCode::InternalServerError);
    assert!(raw_response.headers.get(RETRY_AFTER).is_none());
    assert_eq!(
        raw_response.headers.get(CONTENT_TYPE).unwrap(),
        "text/plain; charset=utf-8"
    );
    let body = body_of(&raw_response);
    assert_eq!(body, b"Internal Server Error");
    assert!(!String::from_utf8_lossy(body).contains("private"));
}

#[test]
fn changed_mapping_is_selected_at_the_http_boundary() {
    let conflict = fs(
        FsError::changed(MutationEndpointRole::Target, "entry", "missing", "file"),
        ChangedStatus::Conflict,
    );
    let precondition = fs(
        FsError::changed(MutationEndpointRole::Target, "entry", "missing", "file"),
        ChangedStatus::PreconditionFailed,
    );
    assert_eq!(conflict.status(), StatusCode::Conflict);
    assert_eq!(precondition.status(), StatusCode::PreconditionFailed);
}

#[test]
fn durability_failures_are_internal_and_never_advertise_retry() {
    for published in [false, true] {
        let filesystem_error = FsError::durability(
            if published {
                DurabilityStage::DestinationParent
            } else {
                DurabilityStage::CandidateFile
            },
            published,
            io_error("private device detail"),
        );
        assert_eq!(filesystem_error.is_published_durability_failure(), published);
        let error = fs(filesystem_error, ChangedStatus::Conflict);
        assert_eq!(error.status(), StatusCode::InternalServerError);
        assert_eq!(error.default_public_body(), "Internal Server Error");
        assert_eq!(error.retry_after(), None);
    }
}

#[test]
fn queue_timeout_and_execution_timeout_have_distinct_statuses() {
    let global_queue = ResponseError::admission(AdmissionError::queue_timeout(
        AdmissionResource::Requests,
        QueueScope::Global,
        Duration::from_secs(2),
    ));
    let source_queue = ResponseError::admission(AdmissionError::queue_timeout(
        AdmissionResource::Requests,
        QueueScope::PerSource,
        Duration::from_secs(2),
    ));
    let execution = ResponseError::admission(AdmissionError::execution_timeout(
        AdmissionResource::ExpensiveTasks,
        Duration::from_secs(2),
    ));
    assert_eq!(global_queue.status(), StatusCode::ServiceUnavailable);
    assert_eq!(source_queue.status(), StatusCode::TooManyRequests);
    assert_eq!(execution.status(), StatusCode::GatewayTimeout);
    assert!(global_queue.retry_after().is_some());
    assert!(source_queue.retry_after().is_some());
    assert!(execution.retry_after().is_none());
}

#[test]
fn every_typed_variant_family_has_a_stable_mapping() {
    let cases = [
        (
            ResponseError::filesystem(
                FsError::outside_root("resolving", io_error("private path")),
                ChangedStatus::Conflict,
            ),
            StatusCode::Forbidden,
        ),
        (
            ResponseError::filesystem(
                FsError::durability(
                    DurabilityStage::DestinationParent,
                    true,
                    io_error("private sync cause"),
                ),
                ChangedStatus::Conflict,
            ),
            StatusCode::InternalServerError,
        ),
        (
            ResponseError::filesystem(
                FsError::io("reading", io_error("private I/O cause")),
                ChangedStatus::Conflict,
            ),
            StatusCode::InternalServerError,
        ),
        (
            ResponseError::admission(AdmissionError::cancelled(AdmissionResource::Requests)),
            StatusCode::ServiceUnavailable,
        ),
        (
            ResponseError::http(HttpError::forbidden(io_error("private policy cause"))),
            StatusCode::Forbidden,
        ),
        (
            ResponseError::http(HttpError::not_found(io_error("private lookup cause"))),
            StatusCode::NotFound,
        ),
    ];
    for (error, expected) in cases {
        assert_eq!(error.status(), expected, "{error:?}");
    }
}

#[test]
fn io_classification_is_centralized_at_the_fs_boundary() {
    for errno in [Errno::NoSpc, Errno::DQuot] {
        let error = FsError::from_anyhow("writing", raw_os_error(errno));
        assert!(matches!(error, FsError::NoSpace { .. }));
    }
    assert!(matches!(
        FsError::from_anyhow("opening", kind_error(IoErrorKind::NotFound)),
        FsError::NotFound { .. }
    ));
    assert!(matches!(
        FsError::from_anyhow("opening", kind_error(IoErrorKind::PermissionDenied)),
        FsError::Forbidden { .. }
    ));
}

#[test]
fn io_classification_knows_conflicts_and_leaves_the_rest_internal() {
    for kind in [
        IoErrorKind::AlreadyExists,
        IoErrorKind::DirectoryNotEmpty,
        IoErrorKind::NotADirectory,
    ] {
        assert!(
            matches!(FsError::from_anyhow("x", kind_error(kind)), FsError::Conflict { .. }),
            "{kind:?}"
        );
    }
    for kind in [IoErrorKind::BrokenPipe, IoErrorKind::Interrupted, IoErrorKind::Other] {
        assert!(
            matches!(FsError::from_anyhow("x", kind_error(kind)), FsError::Io { .. }),
            "{kind:?}"
        );
    }
}

#[test]
fn anyhow_context_preserves_typed_fs_classification() {
    let error = AnyError::filesystem(FsError::durability(
        DurabilityStage::DestinationParent,
        true,
        io_error("private device detail"),
    ))
    .context("committing upload");
    let classified = FsError::in_anyhow_chain(&error).expect("typed marker survives context");
    assert!(classified.is_published_durability_failure());
    let response = ResponseErrorRef::from_anyhow_typed(&error, ChangedStatus::PreconditionFailed)
        .expect("typed response view survives context");
    assert_eq!(response.status(), StatusCode::InternalServerError);
}

#[test]
fn anyhow_context_preserves_typed_admission_classification() {
    let error = AnyError::admission(AdmissionError::limit_exceeded(
        AdmissionResource::WalkEntries,
        LimitKind::Semantic,
        100,
        Some(101),
    ))
    .context("pre-scanning recursive delete");
    let classified =
        AdmissionError::in_anyhow_chain(&error).expect("typed marker survives context");
    assert!(matches!(
        classified,
        AdmissionError::LimitExceeded { resource: AdmissionResource::WalkEntries, .. }
    ));
    let response = ResponseErrorRef::from_anyhow_typed(&error, ChangedStatus::Conflict)
        .expect("typed response view survives context");
    assert_eq!(response.status(), StatusCode::UnprocessableEntity);
}

#[test]
fn owned_response_mapping_retains_typed_anyhow_chain() {
    let error = AnyError::admission(AdmissionError::cancelled(AdmissionResource::WalkEntries))
        .context("directory traversal was cancelled");
    let response = ResponseError::from_anyhow_or_filesystem(
        "walking visible entries",
        error,
        ChangedStatus::Conflict,
    );

    assert_eq!(response.status(), StatusCode::ServiceUnavailable);
    assert_eq!(response.retry_after(), Some(Duration::from_secs(1)));
    match &response.source {
        ResponseErrorSource::CapturedAnyhow { source, .. } => {
            assert!(matches!(
                AdmissionError::in_anyhow_chain(source),
                Some(AdmissionError::Cancelled { resource: AdmissionResource::WalkEntries })
            ));
        }
        other => panic!("expected an owned anyhow cause chain, got {other:?}"),
    }
}

#[test]
fn owned_timeout_mapping_retains_the_exact_nonzero_waited_duration() {
    let configured = Duration::from_secs(17);
    let error = AnyError::admission(AdmissionError::execution_timeout(
        AdmissionResource::ExpensiveTasks,
        configured,
    ))
    .context("blocking worker exceeded its configured deadline");
    let response = ResponseError::from_anyhow_or_filesystem(
        "running blocking filesystem work",
        error,
        ChangedStatus::Conflict,
    );

    assert_eq!(response.status(), StatusCode::GatewayTimeout);
    match &response.source {
        ResponseErrorSource::CapturedAnyhow { source, .. } => assert!(matches!(
            AdmissionError::in_anyhow_chain(source),
            Some(AdmissionError::Timeout {
                resource: AdmissionResource::ExpensiveTasks,
                kind: AdmissionTimeoutKind::Execution,
                waited,
            }) if *waited == configured
        )),
        other => panic!("expected the typed timeout cause chain, got {other:?}"),
    }
}

#[test]
fn public_response_never_exposes_internal_cause() {
    let error = fs(
        FsError::outside_root("resolving", io_error("/private/root/secret")),
        ChangedStatus::Conflict,
    );
    let mut response = response_with(b"");
    error.apply(&mut response);
    assert_eq!(response.status, StatusCode::Forbidden);
    let body = body_of(&response);
    assert_eq!(body, b"Forbidden");
    assert!(!String::from_utf8_lossy(body).contains("/private"));
}

#[test]
fn retry_after_is_written_only_for_retryable_admission_errors() {
    let error = ResponseError::admission(AdmissionError::QueueFull {
        resource: AdmissionResource::Requests,
        scope: QueueScope::PerAccount,
        limit: 2,
        retry_after: Duration::from_millis(1001),
    });
    let mut response = response_with(b"");
    response.headers.insert(CONTENT_LENGTH, HeaderValue::from_static("64"));
    error.apply(&mut response);
    assert_eq!(response.headers.get(RETRY_AFTER).unwrap(), "2");
    assert!(response.headers.get(CONTENT_LENGTH).is_none());

    ResponseError::bad_request(io_error("detail")).apply(&mut response);
    assert!(response.headers.get(RETRY_AFTER).is_none());
}

#[test]
fn the_filesystem_cause_decides_before_the_others() {
    let inner = AnyError::admission(AdmissionError::cancelled(AdmissionResource::Requests));
    let error = AnyError::http(HttpError::bad_request(AnyError::filesystem(FsError::conflict(
        "creating", inner,
    ))));
    let view = ResponseErrorRef::from_anyhow_typed(&error, ChangedStatus::Conflict).unwrap();
    assert_eq!(view.status(), StatusCode::Conflict);
    assert!(HttpError::in_anyhow_chain(&error).is_some());
    assert!(AdmissionError::in_anyhow_chain(&error).is_some());
    assert!(ResponseErrorRef::from_anyhow_typed(
        &AnyError::message("plain"),
        ChangedStatus::Conflict
    )
    .is_none());
}

#[test]
fn a_typed_cause_in_the_chain_is_kept_as_it_is_when_mapped_again() {
    let error = AnyError::filesystem(FsError::changed(
        MutationEndpointRole::Source,
        "a",
        "present",
        "missing",
    ))
    .context("moving");
    let mapped =
        ResponseError::from_anyhow_or_filesystem("moving", error, ChangedStatus::PreconditionFailed);
    assert_eq!(mapped.status(), StatusCode::PreconditionFailed);
    let raw = ResponseError::from_anyhow_or_filesystem(
        "moving",
        kind_error(IoErrorKind::NotFound),
        ChangedStatus::Conflict,
    );
    assert_eq!(raw.status(), StatusCode::NotFound);
    assert!(matches!(raw.source, ResponseErrorSource::Fs { error: FsError::NotFound { .. } }));
}

#[test]
fn changed_entries_tell_their_details() {
    let error = FsError::changed(MutationEndpointRole::Destination, "d", "missing", "present");
    assert_eq!(
        error.changed_details(),
        Some((MutationEndpointRole::Destination, "d", "missing", "present"))
    );
    assert_eq!(FsError::io("x", io_error("y")).changed_details(), None);
}
