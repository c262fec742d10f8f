use ram_fileserver::authentication::{
    canonical_authorization_path, canonical_authorization_path_is_unavailable, AuthorizationStep,
    AuthorizationWalk, CallAction, CallEvent, CallPhase, RequestAdmission, ResolveOutcome, Server,
    SlotOutcome, WaitOutcome,
};
use ram_fileserver::error::{
    AdmissionError, AdmissionResource, AnyError, Errno, FsError, IoErrorKind, QueueScope,
};
use ram_fileserver::response::{Body, CachePolicy, Response, StatusCode};
use ram_fileserver::time::Duration;

fn server() -> Server {
    Server {
        max_concurrent_requests_per_source: 4,
        max_concurrent_requests_per_user: 3,
        max_request_queue: 2,
        request_queue_timeout: 7,
    }
}

#[test]
fn a_free_service_admits_at_once() {
    let server = server();
    let mut admission = RequestAdmission::begin();
    let granted = CallEvent::Source { outcome: SlotOutcome::Granted };
    assert_eq!(server.call(&mut admission, granted), CallAction::TrySlot);
    assert_eq!(
        server.call(&mut admission, CallEvent::Slot { granted: true }),
        CallAction::Handle
    );
    assert!(admission.holds_source && admission.holds_slot);
    assert_eq!(admission.phase, CallPhase::Admitted);
}

#[test]
fn a_busy_service_queues_for_a_while() {
    let server = server();
    let mut admission = RequestAdmission::begin();
    server.call(&mut admission, CallEvent::Source { outcome: SlotOutcome::Granted });
    assert_eq!(
        server.call(&mut admission, CallEvent::Slot { granted: false }),
        CallAction::TryQueue
    );
    assert_eq!(
        server.call(&mut admission, CallEvent::Queue { granted: true }),
        CallAction::Wait { timeout: Duration::from_secs(7) }
    );
    let mut lucky = admission;
    assert_eq!(
        server.call(&mut lucky, CallEvent::Waited { outcome: WaitOutcome::Granted }),
        CallAction::Handle
    );
    let mut late = admission;
    assert_eq!(
        server.call(&mut late, CallEvent::Waited { outcome: WaitOutcome::TimedOut }),
        CallAction::Reject {
            error: AdmissionError::queue_timeout(
                AdmissionResource::Requests,
                QueueScope::Global,
                Duration::from_secs(7)
            )
        }
    );
    let mut closed = admission;
    assert_eq!(
        server.call(&mut closed, CallEvent::Waited { outcome: WaitOutcome::Closed }),
        CallAction::Reject { error: AdmissionError::cancelled(AdmissionResource::Requests) }
    );
    assert!(!late.holds_slot && late.holds_source);
}

#[test]
fn exhausted_limits_reject_with_their_scope() {
    let server = server();
    let mut admission = RequestAdmission::begin();
    assert_eq!(
        server.call(&mut admission, CallEvent::Source { outcome: SlotOutcome::Exhausted }),
        CallAction::Reject {
            error: AdmissionError::queue_full(
                AdmissionResource::Requests,
                QueueScope::PerSource,
                4
            )
        }
    );
    let mut admission = RequestAdmission::begin();
    server.call(&mut admission, CallEvent::Source { outcome: SlotOutcome::Granted });
    server.call(&mut admission, CallEvent::Slot { granted: false });
    assert_eq!(
        server.call(&mut admission, CallEvent::Queue { granted: false }),
        CallAction::Reject {
            error: AdmissionError::queue_full(AdmissionResource::Requests, QueueScope::Global, 2)
        }
    );
}

#[test]
fn rejections_are_answered_with_a_retry() {
    let error =
        AdmissionError::queue_full(AdmissionResource::Requests, QueueScope::PerSource, 4);
    let response = Server::request_admission_rejection(error);
    assert_eq!(response.status, StatusCode::TooManyRequests);
    assert_eq!(response.headers["retry-after"], "1");
    assert!(matches!(&response.body, Body::Full { bytes } if bytes == b"Too Many Requests"));
}

#[test]
fn failed_handlers_tell_nothing() {
    let response = Server::handler_failure(&AnyError::message("private"));
    assert_eq!(response.status, StatusCode::InternalServerError);
    assert!(matches!(&response.body, Body::Full { bytes } if bytes == b"Internal Server Error"));
    let typed = AnyError::filesystem(FsError::conflict("x", AnyError::message("y")));
    assert_eq!(Server::handler_failure(&typed).status, StatusCode::Conflict);
}

#[test]
fn accounts_have_slots_of_their_own() {
    let server = server();
    let mut admission = RequestAdmission::begin();
    let mut response = Response::new();
    assert!(!server.acquire_account_request(SlotOutcome::Exhausted, &mut admission, &mut response));
    assert_eq!(response.status, StatusCode::TooManyRequests);
    assert!(!admission.holds_account);
    let mut response = Response::new();
    assert!(server.acquire_account_request(SlotOutcome::Granted, &mut admission, &mut response));
    assert!(admission.holds_account);
    assert_eq!(response.status, StatusCode::Success);
}

#[test]
fn authenticated_answers_are_private_unless_stricter() {
    let server = server();
    let mut response = Response::new();
    assert!(server.finish_call_response(&mut response, true).security_headers);
    assert_eq!(response.headers["cache-control"], "no-cache, private");
    let mut strict = Response::new();
    strict.set_cache_policy(CachePolicy::NoStore);
    server.finish_call_response(&mut strict, true);
    assert_eq!(strict.headers["cache-control"], "no-store");
    let mut public = Response::new();
    assert!(server.finish_call_response(&mut public, false).security_headers);
    assert!(public.headers.is_empty());
}

#[test]
fn fields_of_others_stay() {
    let server = server();
    let mut response = Response::new();
    let challenge = hyper::header::HeaderValue::from_static("Basic realm=\"x\"");
    response.headers.insert("www-authenticate", challenge);
    server.auth_reject(Ok(()), &mut response).unwrap();
    server.finish_call_response(&mut response, true);
    assert_eq!(response.status, StatusCode::Unauthorized);
    assert_eq!(response.headers["www-authenticate"], "Basic realm=\"x\"");
    assert_eq!(response.headers["cache-control"], "no-cache, private");
    assert_eq!(response.headers.len(), 2);
}

#[test]
fn challenges_are_unauthorized() {
    let server = server();
    let mut response = Response::new();
    server.auth_reject(Ok(()), &mut response).unwrap();
    assert_eq!(response.status, StatusCode::Unauthorized);
    let mut response = Response::new();
    assert!(server.auth_reject(Err(AnyError::message("x")), &mut response).is_err());
    assert_eq!(response.status, StatusCode::Success);
}

fn missing() -> ResolveOutcome {
    ResolveOutcome::Failed { kind: IoErrorKind::NotFound, errno: Some(Errno::NoEnt) }
}

fn found(path: &str) -> ResolveOutcome {
    ResolveOutcome::Found { path: path.as_bytes().to_vec() }
}

#[test]
fn missing_names_are_put_back_behind_the_resolved_ancestor() {
    let mut walk = AuthorizationWalk::begin(found("/srv"), b"link/new/file").unwrap();
    assert_eq!(walk.query(), b"/srv/link/new/file");
    assert!(matches!(walk.step(missing()), Ok(AuthorizationStep::Resolve)));
    assert_eq!(walk.query(), b"/srv/link/new");
    assert!(matches!(walk.step(missing()), Ok(AuthorizationStep::Resolve)));
    assert_eq!(walk.query(), b"/srv/link");
    match walk.step(found("/srv/real")) {
        Ok(AuthorizationStep::Done { path }) => assert_eq!(path, "real/new/file"),
        other => panic!("unexpected step {other:?}"),
    }
}

#[test]
fn a_path_that_leaves_the_root_is_refused() {
    let mut walk = AuthorizationWalk::begin(found("/srv"), b"link").unwrap();
    let error = walk.step(found("/etc")).unwrap_err();
    assert!(matches!(FsError::in_anyhow_chain(&error), Some(FsError::OutsideRoot { .. })));
    assert!(canonical_authorization_path_is_unavailable(&error));
    let mut walk = AuthorizationWalk::begin(found("/srv"), b"/etc/x").unwrap();
    let error = walk.step(missing()).unwrap_err();
    assert_eq!(
        error.describe_chain("").contains("missing path ancestor escaped the served root"),
        true
    );
    let mut walk = AuthorizationWalk::begin(found("/srv"), b"x").unwrap();
    let error = walk.step(ResolveOutcome::Found { path: b"/srv/\xff".to_vec() }).unwrap_err();
    assert!(error.describe_chain("").contains("not valid UTF-8"));
}

#[test]
fn a_loop_of_links_is_hidden_and_a_broken_disk_is_not() {
    let mut walk = AuthorizationWalk::begin(found("/srv"), b"loop").unwrap();
    let error = walk
        .step(ResolveOutcome::Failed { kind: IoErrorKind::Other, errno: Some(Errno::Loop) })
        .unwrap_err();
    assert!(matches!(FsError::in_anyhow_chain(&error), Some(FsError::Conflict { .. })));
    assert!(canonical_authorization_path_is_unavailable(&error));
    let mut walk = AuthorizationWalk::begin(found("/srv"), b"file").unwrap();
    let error = walk
        .step(ResolveOutcome::Failed { kind: IoErrorKind::Other, errno: Some(Errno::Io) })
        .unwrap_err();
    assert!(!canonical_authorization_path_is_unavailable(&error));
    assert!(AuthorizationWalk::begin(missing(), b"file").is_err());
    let mut walk = AuthorizationWalk::begin(found("/srv"), b"").unwrap();
    let error = walk.step(missing()).unwrap_err();
    assert!(matches!(FsError::in_anyhow_chain(&error), Some(FsError::Io { .. })));
}

#[test]
fn named_paths_serve_where_links_are_not_followed() {
    assert_eq!(canonical_authorization_path(false, "a/b"), Some("a/b".to_owned()));
    assert_eq!(canonical_authorization_path(true, "a/b"), None);
}
