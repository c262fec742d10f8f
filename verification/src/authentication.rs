//! The outermost course of a request: admission, the path that access rules are applied to,
//! and the answer of last resort.
use crate::error::{
    admission_code, apply_anyhow_or_internal, chain_class, classified, first_filesystem,
    is_error_response, public_text, typed_mapping, AdmissionError, AdmissionResource,
    AdmissionTimeoutKind, AnyError, ChangedStatus, Errno, FsError, IoErrorKind, QueueScope,
    ResponseError,
};
use crate::fault::{failed, said, Fault, FsKind};
use crate::path::{
    append_components, component_views, components, is_beneath, is_cur_dir, is_root_dir,
    join_components, last_name, parts, path_bytes, rest_bytes, same_components, strip_components,
    stripped, Component, Part, SLASH,
};
use crate::response::{no_fields, with_field, CachePolicy, Field, Response, StatusCode};
use crate::text::{copy_bytes, is_text, string_from_utf8};
use crate::time::Duration;
use vstd::prelude::*;
use vstd::utf8::*;

verus! {

/// The limits that admission goes by.
#[derive(Clone, Copy, Debug, PartialEq, Eq, Structural)]
pub struct Server {
    pub max_concurrent_requests_per_source: u64,
    pub max_concurrent_requests_per_user: u64,
    pub max_request_queue: u64,
    /// In seconds.
    pub request_queue_timeout: u64,
}

/// What trying to take a slot came to.
#[derive(Clone, Copy, Debug, PartialEq, Eq, Structural)]
pub enum SlotOutcome {
    Granted,
    Exhausted,
    /// The counters cannot be read.
    Failed,
}

/// How waiting for a slot ended.
#[derive(Clone, Copy, Debug, PartialEq, Eq, Structural)]
pub enum WaitOutcome {
    Granted,
    Closed,
    TimedOut,
}

/// Where the admission of a request stands.
#[derive(Clone, Copy, Debug, PartialEq, Eq, Structural)]
pub enum CallPhase {
    AwaitingSource,
    AwaitingSlot,
    AwaitingQueue,
    Queued,
    Admitted,
    Rejected,
}

/// What happened during admission.
#[allow(inconsistent_fields)]
#[derive(Clone, Copy, Debug, PartialEq, Eq, Structural)]
pub enum CallEvent {
    Source { outcome: SlotOutcome },
    Slot { granted: bool },
    Queue { granted: bool },
    Waited { outcome: WaitOutcome },
}

/// What admission does next.
#[derive(Clone, Copy, Debug, PartialEq, Eq, Structural)]
pub enum CallAction {
    TrySlot,
    TryQueue,
    /// Wait in the queue, at most so long. The place in the queue is given up afterwards.
    Wait { timeout: Duration },
    Handle,
    Reject { error: AdmissionError },
}

/// A request on its way in, with the slots that it holds.
#[derive(Clone, Copy, Debug, PartialEq, Eq, Structural)]
pub struct RequestAdmission {
    pub phase: CallPhase,
    pub holds_source: bool,
    pub holds_slot: bool,
    pub holds_account: bool,
}

pub open spec fn fits(phase: CallPhase, event: CallEvent) -> bool {
    match phase {
        CallPhase::AwaitingSource => event is Source,
        CallPhase::AwaitingSlot => event is Slot,
        CallPhase::AwaitingQueue => event is Queue,
        CallPhase::Queued => event is Waited,
        CallPhase::Admitted | CallPhase::Rejected => false,
    }
}

/// What admission does about an event.
pub open spec fn call_action(server: Server, event: CallEvent) -> CallAction {
    match event {
        CallEvent::Source { outcome } => match outcome {
            SlotOutcome::Granted => CallAction::TrySlot,
            SlotOutcome::Exhausted => CallAction::Reject {
                error: AdmissionError::QueueFull {
                    resource: AdmissionResource::Requests,
                    scope: QueueScope::PerSource,
                    limit: server.max_concurrent_requests_per_source,
                    retry_after: Duration { secs: 1, nanos: 0 },
                },
            },
            SlotOutcome::Failed => CallAction::Reject {
                error: AdmissionError::Cancelled { resource: AdmissionResource::Requests },
            },
        },
        CallEvent::Slot { granted } => if granted {
            CallAction::Handle
        } else {
            CallAction::TryQueue
        },
        CallEvent::Queue { granted } => if granted {
            CallAction::Wait { timeout: Duration { secs: server.request_queue_timeout, nanos: 0 } }
        } else {
            CallAction::Reject {
                error: AdmissionError::QueueFull {
                    resource: AdmissionResource::Requests,
                    scope: QueueScope::Global,
                    limit: server.max_request_queue,
                    retry_after: Duration { secs: 1, nanos: 0 },
                },
            }
        },
        CallEvent::Waited { outcome } => match outcome {
            WaitOutcome::Granted => CallAction::Handle,
            WaitOutcome::Closed => CallAction::Reject {
                error: AdmissionError::Cancelled { resource: AdmissionResource::Requests },
            },
            WaitOutcome::TimedOut => CallAction::Reject {
                error: AdmissionError::Timeout {
                    resource: AdmissionResource::Requests,
                    kind: AdmissionTimeoutKind::Queue { scope: QueueScope::Global },
                    waited: Duration { secs: server.request_queue_timeout, nanos: 0 },
                },
            },
        },
    }
}

/// The admission after an event.
pub open spec fn call_next(admission: RequestAdmission, event: CallEvent, action: CallAction) -> RequestAdmission {
    RequestAdmission {
        phase: match action {
            CallAction::TrySlot => CallPhase::AwaitingSlot,
            CallAction::TryQueue => CallPhase::AwaitingQueue,
            CallAction::Wait { .. } => CallPhase::Queued,
            CallAction::Handle => CallPhase::Admitted,
            CallAction::Reject { .. } => CallPhase::Rejected,
        },
        holds_source: admission.holds_source || action is TrySlot,
        holds_slot: admission.holds_slot || action is Handle,
        holds_account: admission.holds_account,
    }
}

impl RequestAdmission {
    pub open spec fn wf(self) -> bool {
        &&& self.phase != CallPhase::AwaitingSource && self.phase != CallPhase::Rejected
            ==> self.holds_source
        &&& self.holds_slot <==> self.phase == CallPhase::Admitted
    }

    pub fn begin() -> (admission: RequestAdmission)
        ensures
            admission.wf(),
            admission == (RequestAdmission {
                phase: CallPhase::AwaitingSource,
                holds_source: false,
                holds_slot: false,
                holds_account: false,
            }),
    {
        RequestAdmission {
            phase: CallPhase::AwaitingSource,
            holds_source: false,
            holds_slot: false,
            holds_account: false,
        }
    }
}

/// What the caller adds to the header of every response.
#[derive(Clone, Copy, Debug, PartialEq, Eq, Structural)]
pub struct CallExtras {
    pub security_headers: bool,
}

/// The answer to a request that was not admitted, as the request finds it.
pub open spec fn is_rejection(response: Response, error: AdmissionError) -> bool {
    &&& response.wf()
    &&& response.status == admission_code(error)
    &&& response.fields() == crate::error::error_fields(no_fields(), error.wait())
    &&& response.body.is_bytes(encode_utf8(public_text(admission_code(error))))
}

impl Server {
    /// One step of the admission of a request. A request takes a slot of its source first,
    /// then one of the service, for which it may queue for a while.
    pub fn call(&self, admission: &mut RequestAdmission, event: CallEvent) -> (action: CallAction)
        requires
            old(admission).wf(),
            fits(old(admission).phase, event),
        ensures
            final(admission).wf(),
            action == call_action(*self, event),
            *final(admission) == call_next(*old(admission), event, action),
            action is Handle ==> final(admission).holds_source && final(admission).holds_slot,
    {
        let action = match event {
            CallEvent::Source { outcome } => match outcome {
                SlotOutcome::Granted => CallAction::TrySlot,
                SlotOutcome::Exhausted => CallAction::Reject {
                    error: AdmissionError::queue_full(
                        AdmissionResource::Requests,
                        QueueScope::PerSource,
                        self.max_concurrent_requests_per_source,
                    ),
                },
                SlotOutcome::Failed => CallAction::Reject {
                    error: AdmissionError::cancelled(AdmissionResource::Requests),
                },
            },
            CallEvent::Slot { granted } => if granted {
                CallAction::Handle
            } else {
                CallAction::TryQueue
            },
            CallEvent::Queue { granted } => if granted {
                CallAction::Wait { timeout: Duration::from_secs(self.request_queue_timeout) }
            } else {
                CallAction::Reject {
                    error: AdmissionError::queue_full(
                        AdmissionResource::Requests,
                        QueueScope::Global,
                        self.max_request_queue,
                    ),
                }
            },
            CallEvent::Waited { outcome } => match outcome {
                WaitOutcome::Granted => CallAction::Handle,
                WaitOutcome::Closed => CallAction::Reject {
                    error: AdmissionError::cancelled(AdmissionResource::Requests),
                },
                WaitOutcome::TimedOut => CallAction::Reject {
                    error: AdmissionError::queue_timeout(
                        AdmissionResource::Requests,
                        QueueScope::Global,
                        Duration::from_secs(self.request_queue_timeout),
                    ),
                },
            },
        };
        match action {
            CallAction::TrySlot => {
                admission.holds_source = true;
                admission.phase = CallPhase::AwaitingSlot;
            },
            CallAction::TryQueue => {
                admission.phase = CallPhase::AwaitingQueue;
            },
            CallAction::Wait { .. } => {
                admission.phase = CallPhase::Queued;
            },
            CallAction::Handle => {
                admission.holds_slot = true;
                admission.phase = CallPhase::Admitted;
            },
            CallAction::Reject { .. } => {
                admission.phase = CallPhase::Rejected;
            },
        }
        action
    }

    /// The answer to a request that was not admitted.
    pub fn request_admission_rejection(error: AdmissionError) -> (response: Response)
        ensures
            is_rejection(response, error),
    {
        let mut response = Response::new();
        ResponseError::admission(error).apply(&mut response);
        response
    }

    /// The answer to a request whose handler failed: typed causes decide, and nothing else of
    /// the failure shows.
    pub fn handler_failure(error: &AnyError) -> (response: Response)
        ensures
            response.wf(),
            ({
                let (status, retry_after) = match typed_mapping(
                    error.links(),
                    ChangedStatus::Conflict,
                ) {
                    Some(mapped) => mapped,
                    None => (StatusCode::InternalServerError, None),
                };
                &&& response.status == status
                &&& response.fields() == crate::error::error_fields(no_fields(), retry_after)
                &&& response.body.is_bytes(encode_utf8(public_text(status)))
            }),
    {
        let mut response = Response::new();
        apply_anyhow_or_internal(&mut response, error, ChangedStatus::Conflict);
        response
    }

    /// A response completed, before the extras.
    pub open spec fn completed(
        before: Response,
        after: Response,
        authenticated: bool,
        extras: CallExtras,
    ) -> bool {
        &&& after.wf()
        &&& extras.security_headers
        &&& after.status == before.status
        &&& after.body == before.body
        &&& after.fields() == if authenticated && before.lacks(
            Field::CacheControl,
        ) {
            with_field(
                before.fields(),
                Field::CacheControl,
                CachePolicy::PrivateNoCache.value(),
            )
        } else {
            before.fields()
        }
    }

    /// Completes a response. What an authenticated caller gets may be kept by that caller
    /// alone, and only for asking again, unless the handler said something stricter. The fields
    /// stated are those before the extras: every response, whatever came of its request, then
    /// gets the security headers.
    pub fn finish_call_response(&self, response: &mut Response, authenticated: bool) -> (extras:
        CallExtras)
        requires
            old(response).wf(),
        ensures
            Server::completed(*old(response), *final(response), authenticated, extras),
    {
        if authenticated && !response.contains(Field::CacheControl) {
            response.set_cache_policy(CachePolicy::PrivateNoCache);
        }
        CallExtras { security_headers: true }
    }

    /// What asking for a slot of an account leads to.
    pub open spec fn account_asked(
        before: Response,
        after: Response,
        held: RequestAdmission,
        holds: RequestAdmission,
        outcome: SlotOutcome,
        granted: bool,
    ) -> bool {
        &&& after.wf()
        &&& granted == (outcome == SlotOutcome::Granted)
        &&& holds == (RequestAdmission {
            holds_account: held.holds_account || granted,
            ..held
        })
        &&& match outcome {
            SlotOutcome::Granted => after == before,
            SlotOutcome::Exhausted => is_error_response(
                before,
                after,
                StatusCode::TooManyRequests,
                Some(Duration { secs: 1, nanos: 0 }),
                public_text(StatusCode::TooManyRequests),
            ),
            SlotOutcome::Failed => is_error_response(
                before,
                after,
                StatusCode::ServiceUnavailable,
                Some(Duration { secs: 1, nanos: 0 }),
                public_text(StatusCode::ServiceUnavailable),
            ),
        }
    }

    /// Takes a slot of an account for an authenticated request, or answers that there is none.
    pub fn acquire_account_request(
        &self,
        outcome: SlotOutcome,
        admission: &mut RequestAdmission,
        response: &mut Response,
    ) -> (granted: bool)
        requires
            old(response).wf(),
        ensures
            Server::account_asked(
                *old(response),
                *final(response),
                *old(admission),
                *final(admission),
                outcome,
                granted,
            ),
    {
        match outcome {
            SlotOutcome::Granted => {
                admission.holds_account = true;
                true
            },
            SlotOutcome::Exhausted => {
                ResponseError::admission(
                    AdmissionError::queue_full(
                        AdmissionResource::Requests,
                        QueueScope::PerAccount,
                        self.max_concurrent_requests_per_user,
                    ),
                ).apply(response);
                false
            },
            SlotOutcome::Failed => {
                ResponseError::admission(AdmissionError::cancelled(AdmissionResource::Requests)).apply(
                    response,
                );
                false
            },
        }
    }

    /// A request refused for want of credentials.
    pub open spec fn refused(
        before: Response,
        after: Response,
        challenge: Result<(), AnyError>,
        result: Result<(), AnyError>,
    ) -> bool {
        &&& before.wf() ==> after.wf()
        &&& result == challenge
        &&& after.fields() == before.fields()
        &&& after.body == before.body
        &&& after.status == if challenge is Ok {
            StatusCode::Unauthorized
        } else {
            before.status
        }
    }

    /// Refuses a request for want of credentials. `challenge` is what adding the challenge to
    /// the response came to.
    pub fn auth_reject(&self, challenge: Result<(), AnyError>, response: &mut Response) -> (result:
        Result<(), AnyError>)
        ensures
            Server::refused(*old(response), *final(response), challenge, result),
    {
        if challenge.is_ok() {
            response.status = StatusCode::Unauthorized;
        }
        challenge
    }
}

/// Whether a failure means that the path does not exist for the client.
pub open spec fn hidden_from_client(error: AnyError, unavailable: bool) -> bool {
    &&& unavailable == (first_filesystem(error.links()) matches Some(f) && (f is NotFound
        || f is Forbidden || f is Conflict || f is OutsideRoot))
}

/// Whether the path that access rules are applied to does not exist for the client: failures of
/// storage are not hidden that way.
pub fn canonical_authorization_path_is_unavailable(error: &AnyError) -> (unavailable: bool)
    ensures
        hidden_from_client(*error, unavailable),
{
    match FsError::in_anyhow_chain(error) {
        Some(found) => match found {
            FsError::NotFound { .. }
            | FsError::Forbidden { .. }
            | FsError::Conflict { .. }
            | FsError::OutsideRoot { .. } => true,
            _ => false,
        },
        None => false,
    }
}


// ---------------------------------------------------------------------------------------------
// The path that access rules are applied to
// ---------------------------------------------------------------------------------------------

/// The path that is authorized without following links.
pub open spec fn path_named(
    allow_symlink: bool,
    relative_path: Seq<char>,
    path: Option<String>,
) -> bool {
    &&& match path {
        Some(named) => !allow_symlink && named@ == relative_path,
        None => allow_symlink,
    }
}

/// The path that access rules are applied to where links are not followed: the path as it is
/// named. Where they are, the real path has to be searched for.
pub fn canonical_authorization_path(allow_symlink: bool, relative_path: &str) -> (path: Option<
    String,
>)
    ensures
        path_named(allow_symlink, relative_path@, path),
{
    if allow_symlink {
        None
    } else {
        Some(relative_path.to_owned())
    }
}

/// The search for the real path of a target: the target itself may be missing, so its nearest
/// existing ancestor is resolved and the missing names are put back behind it.
#[derive(Debug)]
pub struct AuthorizationWalk {
    /// The real path of the served root.
    pub root: Vec<Component>,
    /// The path that is to be resolved next.
    pub existing: Vec<Component>,
    /// The names that were missing, the last one first.
    pub missing: Vec<Vec<u8>>,
}

/// What resolving a path came to.
#[derive(Debug)]
pub enum ResolveOutcome {
    Found { path: Vec<u8> },
    Failed { kind: IoErrorKind, errno: Option<Errno> },
}

/// How the search goes on.
#[derive(Debug)]
pub enum AuthorizationStep {
    /// Resolve the path that the walk now shows.
    Resolve,
    /// The path relative to the served root.
    Done { path: String },
}

/// A relative path put behind a root. A path that starts at the root of the filesystem takes
/// its place.
pub open spec fn joined_parts(root: Seq<Part>, relative: Seq<Part>) -> Seq<Part> {
    if relative.len() > 0 && relative[0] is RootDir {
        relative
    } else if relative.len() > 0 && relative[0] is CurDir {
        root + relative.drop_first()
    } else {
        root + relative
    }
}

/// The missing names in the order in which they stand in the path.
pub open spec fn missing_parts(missing: Seq<Vec<u8>>) -> Seq<Part> {
    missing.reverse().map_values(|name: Vec<u8>| Part::Normal(name@))
}

/// Whether a path lies at or beneath a root.
pub open spec fn beneath(path: Seq<Part>, root: Seq<Part>) -> bool {
    stripped(path, root) is Some
}

/// The failure of a walk that left the served root.
pub open spec fn left_root(text: Seq<char>) -> Fault {
    failed(FsKind::OutsideRoot, "canonicalizing an authorization path"@, said(text))
}

/// A failure of the walk that says nothing about the client's path.
pub open spec fn walk_io(cause: Fault) -> Fault {
    failed(FsKind::Io, "canonicalizing an authorization path"@, cause)
}

/// What a failure other than a missing name means. A loop of links is an unusable name, not a
/// failure of storage.
pub open spec fn resolve_failure(kind: IoErrorKind, errno: Option<Errno>) -> AnyError {
    let cause = AnyError::Io { kind, errno };
    let operation = "canonicalizing an authorization path";
    AnyError::Filesystem {
        error: Box::new(
            if errno == Some(Errno::Loop) {
                FsError::Conflict { operation, source: cause }
            } else {
                classified(operation, cause, chain_class(cause.links()))
            },
        ),
    }
}

fn outside(text: &'static str) -> (error: AnyError)
    ensures
        error@ == left_root(text@),
{
    AnyError::filesystem(
        FsError::outside_root("canonicalizing an authorization path", AnyError::message(text)),
    )
}

impl AuthorizationWalk {
    /// The path that is looked for: what is to be resolved next, and behind it what was
    /// missing.
    pub open spec fn target(self) -> Seq<Part> {
        component_views(self.existing@) + missing_parts(self.missing@)
    }

    /// The search for the real path of a target, where it starts.
    pub open spec fn begun(
        root: ResolveOutcome,
        relative: Seq<u8>,
        result: Result<AuthorizationWalk, AnyError>,
    ) -> bool {
        &&& match root {
            ResolveOutcome::Found { path } => result matches Ok(walk) && {
                &&& component_views(walk.root@) == parts(path@)
                &&& component_views(walk.existing@) == joined_parts(
                    parts(path@),
                    parts(relative),
                )
                &&& walk.missing@.len() == 0
                &&& walk.target() == joined_parts(parts(path@), parts(relative))
            },
            ResolveOutcome::Failed { kind, errno } => result matches Err(e) && e@ == failed(
                FsKind::Io,
                "canonicalizing the served root for authorization"@,
                Fault::Io { kind, errno },
            ),
        }
    }

    /// Starts at the target, once the served root itself was resolved.
    pub fn begin(root: ResolveOutcome, relative: &[u8]) -> (result: Result<
        AuthorizationWalk,
        AnyError,
    >)
        ensures
            AuthorizationWalk::begun(root, relative@, result),
    {
        match root {
            ResolveOutcome::Failed { kind, errno } => {
                let cause = AnyError::Io { kind, errno };
                assert(cause@ == (Fault::Io { kind, errno }));
                Err(
                    AnyError::filesystem(
                        FsError::io("canonicalizing the served root for authorization", cause),
                    ),
                )
            },
            ResolveOutcome::Found { path } => {
                let front = components(path.as_slice());
                let rest = components(relative);
                let mut existing: Vec<Component> = Vec::new();
                let ghost r = parts(path@);
                let ghost rel = parts(relative@);
                let absolute = rest.len() > 0 && is_root_dir(&rest[0]);
                let mut from: usize = 0;
                if rest.len() > 0 && is_cur_dir(&rest[0]) {
                    from = 1;
                }
                proof {
                    if rest@.len() > 0 {
                        assert(rel[0] == rest@[0].view());
                    }
                }
                if !absolute {
                    append_components(&mut existing, &front, 0);
                    assert(r.skip(0) =~= r);
                }
                append_components(&mut existing, &rest, from);
                proof {
                    assert(component_views(existing@) =~= joined_parts(r, rel)) by {
                        assert(rel.skip(0) =~= rel);
                        if from == 1 {
                            assert(rel.skip(1) =~= rel.drop_first());
                        }
                    }
                    assert(missing_parts(Seq::<Vec<u8>>::empty()) =~= Seq::<Part>::empty());
                    assert(component_views(existing@) + missing_parts(Seq::<Vec<u8>>::empty())
                        =~= component_views(existing@));
                }
                let missing: Vec<Vec<u8>> = Vec::new();
                assert(missing@ =~= Seq::<Vec<u8>>::empty());
                Ok(AuthorizationWalk { root: front, existing, missing })
            },
        }
    }

    /// The path to resolve next, as bytes.
    pub fn query(&self) -> (path: Vec<u8>)
        ensures
            path@ == path_bytes(component_views(self.existing@)),
    {
        let bytes = join_components(&self.existing);
        if self.existing.len() == 1 && is_root_dir(&self.existing[0]) {
            let mut root: Vec<u8> = Vec::new();
            root.push(SLASH);
            assert(root@ =~= seq![SLASH]);
            assert(component_views(self.existing@) =~= seq![Part::RootDir]);
            return root;
        }
        proof {
            if component_views(self.existing@) == seq![Part::RootDir] {
                assert(self.existing@.len() == 1);
                assert(self.existing@[0].view() == component_views(self.existing@)[0]);
            }
        }
        bytes
    }

    /// What resolving a path leads to.
    pub open spec fn stepped(
        before: AuthorizationWalk,
        after: AuthorizationWalk,
        outcome: ResolveOutcome,
        result: Result<AuthorizationStep, AnyError>,
    ) -> bool {
        &&& component_views(after.root@) == component_views(before.root@)
        &&& match outcome {
            ResolveOutcome::Found { path } => {
                let resolved = parts(path@) + missing_parts(before.missing@);
                match stripped(resolved, component_views(before.root@)) {
                    Some(rest) => if valid_utf8(rest_bytes(rest)) {
                        result matches Ok(AuthorizationStep::Done { path: text })
                            && encode_utf8(text@) == rest_bytes(rest)
                    } else {
                        result matches Err(e) && e@ == left_root(
                            "resolved authorization path is not valid UTF-8"@,
                        )
                    },
                    None => result matches Err(e) && e@ == left_root(
                        "resolved authorization path is outside the served root"@,
                    ),
                }
            },
            ResolveOutcome::Failed { kind, errno } => if kind == IoErrorKind::NotFound {
                let here = component_views(before.existing@);
                if here == component_views(before.root@) {
                    result matches Err(e) && e@ == walk_io(Fault::Io { kind, errno })
                } else if last_name(here) is None {
                    result matches Err(e) && e@ == walk_io(
                        said("missing path component had no basename"@),
                    )
                } else if !beneath(here.drop_last(), component_views(before.root@)) {
                    result matches Err(e) && e@ == left_root(
                        "missing path ancestor escaped the served root"@,
                    )
                } else {
                    &&& result matches Ok(AuthorizationStep::Resolve)
                    &&& component_views(after.existing@) == here.drop_last()
                    &&& after.target() == before.target()
                }
            } else {
                result == Err::<AuthorizationStep, AnyError>(resolve_failure(kind, errno))
            },
        }
    }

    /// Takes in what resolving came to. A missing name is set aside and its parent is tried,
    /// down to the served root and no further. The search ends with a path beneath the served
    /// root that is text, or with a failure.
    pub fn step(&mut self, outcome: ResolveOutcome) -> (result: Result<AuthorizationStep, AnyError>)
        ensures
            AuthorizationWalk::stepped(*old(self), *final(self), outcome, result),
    {
        match outcome {
            ResolveOutcome::Found { path } => self.finish(path.as_slice()),
            ResolveOutcome::Failed { kind, errno } => {
                if kind != IoErrorKind::NotFound {
                    let cause = AnyError::Io { kind, errno };
                    if errno == Some(Errno::Loop) {
                        return Err(
                            AnyError::filesystem(
                                FsError::conflict("canonicalizing an authorization path", cause),
                            ),
                        );
                    }
                    return Err(
                        AnyError::filesystem(
                            FsError::from_anyhow("canonicalizing an authorization path", cause),
                        ),
                    );
                }
                let ghost here = component_views(self.existing@);
                if same_components(&self.existing, &self.root) {
                    let cause = AnyError::Io { kind, errno };
                    assert(cause@ == (Fault::Io { kind, errno }));
                    return Err(
                        AnyError::filesystem(
                            FsError::io("canonicalizing an authorization path", cause),
                        ),
                    );
                }
                let ghost before = self.existing@;
                let last = self.existing.pop();
                let name: Vec<u8> = match last {
                    Some(Component::Normal { name }) => {
                        assert(here.last() == Part::Normal(name@));
                        name
                    },
                    _ => {
                        proof {
                            if before.len() > 0 {
                                assert(here.last() == before.last().view());
                            }
                        }
                        return Err(
                            AnyError::filesystem(
                                FsError::io(
                                    "canonicalizing an authorization path",
                                    AnyError::message("missing path component had no basename"),
                                ),
                            ),
                        );
                    },
                };
                assert(component_views(self.existing@) =~= here.drop_last());
                if !is_beneath(&self.existing, &self.root) {
                    return Err(outside("missing path ancestor escaped the served root"));
                }
                let ghost set_aside = self.missing@;
                let ghost put = name;
                self.missing.push(name);
                proof {
                    assert(self.missing@.reverse() =~= seq![put] + set_aside.reverse());
                    assert(missing_parts(self.missing@) =~= seq![Part::Normal(put@)]
                        + missing_parts(set_aside));
                    assert(self.target() =~= here + missing_parts(set_aside));
                }
                Ok(AuthorizationStep::Resolve)
            },
        }
    }

    fn finish(&self, path: &[u8]) -> (result: Result<AuthorizationStep, AnyError>)
        ensures
            ({
                let resolved = parts(path@) + missing_parts(self.missing@);
                match stripped(resolved, component_views(self.root@)) {
                    Some(rest) => if valid_utf8(rest_bytes(rest)) {
                        result matches Ok(AuthorizationStep::Done { path: text }) && encode_utf8(
                            text@,
                        ) == rest_bytes(rest)
                    } else {
                        result matches Err(e) && e@ == left_root(
                            "resolved authorization path is not valid UTF-8"@,
                        )
                    },
                    None => result matches Err(e) && e@ == left_root(
                        "resolved authorization path is outside the served root"@,
                    ),
                }
            }),
    {
        let mut resolved = components(path);
        let ghost start = component_views(resolved@);
        let mut i: usize = self.missing.len();
        assert(missing_parts(self.missing@).take(0) =~= Seq::<Part>::empty());
        assert(start + missing_parts(self.missing@).take(0) =~= start);
        while i > 0
            invariant
                i <= self.missing@.len(),
                component_views(resolved@) == start + missing_parts(self.missing@).take(
                    self.missing@.len() - i,
                ),
            decreases i,
        {
            let ghost all = missing_parts(self.missing@);
            let ghost done = self.missing@.len() - i;
            let ghost held = component_views(resolved@);
            i = i - 1;
            let name = copy_bytes(self.missing[i].as_slice());
            proof {
                assert(all[done] == Part::Normal(self.missing@[i as int]@));
                assert(all.take(done + 1) =~= all.take(done).push(all[done]));
            }
            resolved.push(Component::Normal { name });
            assert(component_views(resolved@) =~= held.push(all[done]));
            assert(component_views(resolved@) =~= start + all.take(done + 1));
        }
        assert(missing_parts(self.missing@).take(self.missing@.len() as int) =~= missing_parts(
            self.missing@,
        ));
        match strip_components(&resolved, &self.root) {
            None => Err(outside("resolved authorization path is outside the served root")),
            Some(rest) => {
                let bytes = join_components(&rest);
                if !is_text(bytes.as_slice()) {
                    return Err(outside("resolved authorization path is not valid UTF-8"));
                }
                Ok(AuthorizationStep::Done { path: string_from_utf8(bytes) })
            },
        }
    }
}

/// The path that access rules are applied to never names anything outside the served root: it
/// is a path relative to it, made of what was resolved and of what was missing.
pub proof fn law_authorization_path_stays_beneath_root(
    resolved: Seq<Part>,
    root: Seq<Part>,
    rest: Seq<Part>,
)
    requires
        stripped(resolved, root) == Some(rest),
    ensures
        resolved == root + rest,
{
    assert(resolved =~= resolved.take(root.len() as int) + resolved.skip(root.len() as int));
}

// ---------------------------------------------------------------------------------------------
// Who is admitted, and what becomes of a response
// ---------------------------------------------------------------------------------------------

/// A request is handled wherever a slot of its source and one of the service are there for it, at
/// once or within the time that it may wait; it is turned away exactly where its source has no
/// slot, the queue is full, or the wait comes to nothing.
pub proof fn law_requests_are_admitted(server: Server, event: CallEvent)
    ensures
        call_action(server, event) is TrySlot <==> event == (CallEvent::Source {
            outcome: SlotOutcome::Granted,
        }),
        call_action(server, event) is TryQueue <==> event == (CallEvent::Slot { granted: false }),
        call_action(server, event) is Wait <==> event == (CallEvent::Queue { granted: true }),
        call_action(server, event) is Handle <==> event == (CallEvent::Slot { granted: true })
            || event == (CallEvent::Waited { outcome: WaitOutcome::Granted }),
        call_action(server, event) matches CallAction::Wait { timeout } ==> timeout == (Duration {
            secs: server.request_queue_timeout,
            nanos: 0,
        }),
{
}

/// A request that is turned away is told why: too many requests of its source, or a service that
/// is too busy, that is stopping, or that did not get to it in time.
pub proof fn law_rejections_tell_their_reason(server: Server, event: CallEvent)
    ensures
        call_action(server, event) matches CallAction::Reject { error } ==> {
            &&& admission_code(error) == StatusCode::TooManyRequests <==> event == (
            CallEvent::Source { outcome: SlotOutcome::Exhausted })
            &&& admission_code(error) == StatusCode::TooManyRequests || admission_code(error)
                == StatusCode::ServiceUnavailable
            &&& error.wait() is Some
            &&& error is Cancelled <==> event == (CallEvent::Source {
                outcome: SlotOutcome::Failed,
            }) || event == (CallEvent::Waited { outcome: WaitOutcome::Closed })
            &&& error is Timeout <==> event == (CallEvent::Waited { outcome: WaitOutcome::TimedOut })
            &&& error is QueueFull <==> event == (CallEvent::Source {
                outcome: SlotOutcome::Exhausted,
            }) || event == (CallEvent::Queue { granted: false })
        },
{
}

/// A request holds what it was granted from then on: its source's slot while it waits and is
/// handled, and the service's slot while it is handled.
pub proof fn law_admission_moves_on(
    server: Server,
    admission: RequestAdmission,
    event: CallEvent,
)
    requires
        admission.wf(),
        fits(admission.phase, event),
    ensures
        ({
            let action = call_action(server, event);
            let next = call_next(admission, event, action);
            &&& next.wf()
            &&& next.phase == CallPhase::Admitted <==> action is Handle
            &&& next.phase == CallPhase::Rejected <==> action is Reject
            &&& next.phase == CallPhase::AwaitingSlot <==> action is TrySlot
            &&& next.phase == CallPhase::AwaitingQueue <==> action is TryQueue
            &&& next.phase == CallPhase::Queued <==> action is Wait
            &&& admission.holds_source ==> next.holds_source
            &&& action is Handle ==> next.holds_source && next.holds_slot
            &&& action is Reject ==> !next.holds_slot
            &&& next.holds_account == admission.holds_account
        }),
{
}

/// Completing a response changes nothing that its handler said: what an authenticated caller gets
/// is made private where the handler said nothing, and the security headers always follow.
pub proof fn law_responses_are_completed(
    before: Response,
    after: Response,
    authenticated: bool,
    extras: CallExtras,
)
    requires
        Server::completed(before, after, authenticated, extras),
    ensures
        extras.security_headers,
        after.status == before.status,
        after.body == before.body,
        authenticated && before.lacks(Field::CacheControl) ==> after.has(
            Field::CacheControl,
            encode_utf8("no-cache, private"@),
        ),
        !authenticated || !before.lacks(Field::CacheControl) ==> after.fields() == before.fields(),
        forall|field: Field|
            field != Field::CacheControl ==> (#[trigger] after.lacks(field) <==> before.lacks(
                field,
            )),
{
    assert forall|field: Field| field != Field::CacheControl implies #[trigger] after.lacks(field)
        == before.lacks(field) by {
        crate::response::lemma_field_keys_differ(field, Field::CacheControl);
    }
}

/// An account with a slot left gets it and its response stays as it is; an account without one is
/// told that it asks too much, and unreadable counters make the service unavailable.
pub proof fn law_accounts_get_their_slots(
    before: Response,
    after: Response,
    held: RequestAdmission,
    holds: RequestAdmission,
    outcome: SlotOutcome,
    granted: bool,
)
    requires
        Server::account_asked(before, after, held, holds, outcome, granted),
    ensures
        granted <==> outcome == SlotOutcome::Granted,
        granted ==> after == before && holds.holds_account,
        outcome == SlotOutcome::Exhausted ==> after.status == StatusCode::TooManyRequests,
        outcome == SlotOutcome::Failed ==> after.status == StatusCode::ServiceUnavailable,
        holds.phase == held.phase && holds.holds_source == held.holds_source && holds.holds_slot
            == held.holds_slot,
        !granted ==> holds.holds_account == held.holds_account,
{
}

/// A request without credentials is unauthorized wherever the challenge could be added, and a
/// failure to add it stands.
pub proof fn law_challenges_are_answered(
    before: Response,
    after: Response,
    challenge: Result<(), AnyError>,
    result: Result<(), AnyError>,
)
    requires
        Server::refused(before, after, challenge, result),
    ensures
        challenge is Ok ==> after.status == StatusCode::Unauthorized,
        challenge is Err ==> after.status == before.status,
        result == challenge,
        after.fields() == before.fields(),
        after.body == before.body,
{
}

/// A path is hidden from a client exactly where it is missing, denied, in the way or outside;
/// failures of storage never are.
pub proof fn law_only_the_clients_path_is_hidden(error: AnyError, unavailable: bool)
    requires
        hidden_from_client(error, unavailable),
    ensures
        unavailable <==> match first_filesystem(error.links()) {
            Some(FsError::NotFound { .. }) => true,
            Some(FsError::Forbidden { .. }) => true,
            Some(FsError::Conflict { .. }) => true,
            Some(FsError::OutsideRoot { .. }) => true,
            _ => false,
        },
{
}

/// The search for the path that access rules are applied to starts at the target beneath the
/// served root.
pub proof fn law_authorization_starts_at_the_target(
    path: Vec<u8>,
    relative: Seq<u8>,
    result: Result<AuthorizationWalk, AnyError>,
)
    requires
        AuthorizationWalk::begun(ResolveOutcome::Found { path }, relative, result),
        forall|i: int|
            0 <= i < parts(relative).len() ==> #[trigger] parts(relative)[i] is Normal,
    ensures
        result matches Ok(walk) && component_views(walk.root@) == parts(path@) && walk.target()
            == parts(path@) + parts(relative) && component_views(walk.existing@) == parts(path@)
            + parts(relative) && walk.missing@.len() == 0,
{
}

/// A target that resolves beneath the root is known by its real path there; one that is missing is
/// looked for in its parent, down to the root, with its name put back behind.
pub proof fn law_authorization_ends_at_the_real_path(
    before: AuthorizationWalk,
    after: AuthorizationWalk,
    outcome: ResolveOutcome,
    result: Result<AuthorizationStep, AnyError>,
    rest: Seq<Part>,
)
    requires
        AuthorizationWalk::stepped(before, after, outcome, result),
    ensures
        outcome matches ResolveOutcome::Found { path } && parts(path@) + missing_parts(
            before.missing@,
        ) == component_views(before.root@) + rest && valid_utf8(rest_bytes(rest)) ==> (
        result matches Ok(AuthorizationStep::Done { path: found }) && encode_utf8(found@)
            == rest_bytes(rest)),
        result matches Ok(AuthorizationStep::Done { path: found }) ==> outcome is Found,
        result matches Ok(AuthorizationStep::Resolve) ==> {
            &&& outcome matches ResolveOutcome::Failed { kind, .. } && kind == IoErrorKind::NotFound
            &&& after.target() == before.target()
            &&& component_views(after.existing@).len() + 1 == component_views(before.existing@).len()
            &&& beneath(component_views(after.existing@), component_views(after.root@))
        },
        outcome matches ResolveOutcome::Failed { kind, .. } && kind == IoErrorKind::NotFound
            && component_views(before.existing@).len() > component_views(before.root@).len()
            && component_views(before.existing@).last() is Normal && beneath(
            component_views(before.existing@).drop_last(),
            component_views(before.root@),
        ) ==> result matches Ok(AuthorizationStep::Resolve),
{
    if let ResolveOutcome::Found { path } = outcome {
        crate::path::law_stripping_undoes_joining(
            parts(path@) + missing_parts(before.missing@),
            component_views(before.root@),
            rest,
        );
    }
}

/// Where links are not followed a path is authorized as it is named; where they are, it is
/// authorized as what it leads to.
pub proof fn law_paths_are_authorized_as_they_are_named(
    allow_symlink: bool,
    relative_path: Seq<char>,
    path: Option<String>,
)
    requires
        path_named(allow_symlink, relative_path, path),
    ensures
        path is Some <==> !allow_symlink,
        path matches Some(named) ==> named@ == relative_path,
{
}

/// A request that is turned away gets the status of its reason, as a plain text, and a time to
/// wait exactly where waiting can help.
pub proof fn law_rejected_requests_are_answered(response: Response, error: AdmissionError)
    requires
        is_rejection(response, error),
    ensures
        response.status == admission_code(error),
        response.has(Field::ContentType, encode_utf8("text/plain; charset=utf-8"@)),
        response.lacks(Field::RetryAfter) <==> error.wait() is None,
        error.wait() matches Some(span) ==> response.has(
            Field::RetryAfter,
            crate::text::decimal(span.covering_secs()),
        ),
        response.body is Full,
{
    crate::response::lemma_field_keys_differ(Field::RetryAfter, Field::ContentType);
}

/// The path of a target is the root's followed by the target's names; a path that starts at the
/// root of the system stands for itself, and a leading dot for nothing.
pub proof fn law_targets_lie_behind_the_root(root: Seq<Part>, relative: Seq<Part>)
    ensures
        joined_parts(root, Seq::empty()) == root,
        relative.len() > 0 && relative[0] is RootDir ==> joined_parts(root, relative) == relative,
        relative.len() > 0 && !(relative[0] is RootDir) && !(relative[0] is CurDir) ==> joined_parts(
            root,
            relative,
        ) == root + relative,
        joined_parts(root, seq![Part::CurDir] + relative) == root + relative,
{
    assert((seq![Part::CurDir] + relative).drop_first() =~= relative);
    assert(root + Seq::<Part>::empty() =~= root);
}

/// The search for the real path of a target goes on or ends well exactly where what was found
/// lies beneath the root and is text, or a name beneath the root is missing. A link that leads in
/// circles is a conflict, and what leads out of the root is told so.
pub proof fn law_searches_for_real_paths(
    before: AuthorizationWalk,
    after: AuthorizationWalk,
    outcome: ResolveOutcome,
    result: Result<AuthorizationStep, AnyError>,
)
    requires
        AuthorizationWalk::stepped(before, after, outcome, result),
    ensures
        ({
            let root = component_views(before.root@);
            let here = component_views(before.existing@);
            result is Ok <==> match outcome {
                ResolveOutcome::Found { path } => {
                    &&& stripped(parts(path@) + missing_parts(before.missing@), root) matches Some(
                        rest,
                    )
                    &&& valid_utf8(rest_bytes(rest))
                },
                ResolveOutcome::Failed { kind, errno } => {
                    &&& kind is NotFound
                    &&& here != root
                    &&& last_name(here) is Some
                    &&& beneath(here.drop_last(), root)
                },
            }
        }),
        outcome is Found && result is Err ==> (result matches Err(e) && e@.nature() == Some(
            crate::fault::FsNature::Failed(FsKind::OutsideRoot),
        )),
        outcome matches ResolveOutcome::Failed { kind, errno } ==> (!(kind is NotFound) && errno
            == Some(Errno::Loop) ==> (result matches Err(AnyError::Filesystem { error }) && *error
            is Conflict)),
{
}

} // verus!
