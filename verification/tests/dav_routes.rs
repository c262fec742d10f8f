use ram_fileserver::capabilities::ResourceMethod;
use ram_fileserver::dav_routes::{dispatch_dav_route, needs_write_precondition, DavAction, DavFacts};

fn ready() -> DavFacts {
    DavFacts {
        is_miss: false,
        is_dir: false,
        is_file: true,
        allow_upload: true,
        allow_delete: true,
        has_request: true,
        has_target: true,
        has_guards: true,
        has_destination: true,
    }
}

fn failure(action: DavAction) -> String {
    match action {
        DavAction::Fail { error } => error.describe(""),
        other => panic!("unexpected action {other:?}"),
    }
}

#[test]
fn properties_are_looked_up_by_kind() {
    let file = ready();
    assert!(matches!(
        dispatch_dav_route(ResourceMethod::Propfind, file, true),
        DavAction::PropfindFile
    ));
    let directory = DavFacts { is_dir: true, is_file: false, ..file };
    assert!(matches!(
        dispatch_dav_route(ResourceMethod::Propfind, directory, true),
        DavAction::PropfindDirectory
    ));
    let missing = DavFacts { is_miss: true, is_file: false, has_target: false, ..file };
    assert!(matches!(
        dispatch_dav_route(ResourceMethod::Propfind, missing, true),
        DavAction::NotFound
    ));
}

#[test]
fn what_was_not_prepared_is_an_error_of_the_server() {
    let facts = ready();
    assert_eq!(
        failure(dispatch_dav_route(
            ResourceMethod::Propfind,
            DavFacts { has_request: false, ..facts },
            true
        )),
        "PROPFIND request body was already consumed"
    );
    assert_eq!(
        failure(dispatch_dav_route(
            ResourceMethod::Copy,
            DavFacts { has_guards: false, ..facts },
            true
        )),
        "COPY mutation locks were not held"
    );
    assert_eq!(
        failure(dispatch_dav_route(
            ResourceMethod::Move,
            DavFacts { has_destination: false, ..facts },
            true
        )),
        "MOVE destination was not prepared"
    );
    assert_eq!(
        failure(dispatch_dav_route(
            ResourceMethod::Mkcol,
            DavFacts { is_miss: true, is_file: false, has_guards: false, ..facts },
            true
        )),
        "MKCOL mutation lock was not held"
    );
}

#[test]
fn configuration_forbids_before_anything_else() {
    let facts = DavFacts { allow_upload: false, ..ready() };
    for method in [ResourceMethod::Mkcol, ResourceMethod::Copy, ResourceMethod::Move] {
        assert!(matches!(dispatch_dav_route(method, facts, true), DavAction::Forbid), "{method:?}");
    }
    let facts = DavFacts { allow_delete: false, ..ready() };
    assert!(matches!(
        dispatch_dav_route(ResourceMethod::Move, facts, true),
        DavAction::Forbid
    ));
    assert!(matches!(dispatch_dav_route(ResourceMethod::Copy, facts, true), DavAction::Copy));
}

#[test]
fn conditions_guard_the_mutations() {
    let facts = ready();
    assert!(needs_write_precondition(ResourceMethod::Proppatch, facts));
    assert!(!needs_write_precondition(ResourceMethod::Propfind, facts));
    assert!(matches!(
        dispatch_dav_route(ResourceMethod::Move, facts, false),
        DavAction::Refused
    ));
    assert!(matches!(dispatch_dav_route(ResourceMethod::Move, facts, true), DavAction::Move));
}

#[test]
fn collections_are_made_only_where_nothing_is() {
    assert!(matches!(
        dispatch_dav_route(ResourceMethod::Mkcol, ready(), true),
        DavAction::AlreadyExists
    ));
    let free = DavFacts { is_miss: true, is_file: false, ..ready() };
    assert!(matches!(dispatch_dav_route(ResourceMethod::Mkcol, free, true), DavAction::Mkcol));
}
