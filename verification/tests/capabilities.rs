use ram_fileserver::capabilities::{ResourceCapabilities, ResourceMethod, ResourceTarget};

#[test]
fn read_only_collection_does_not_advertise_mutations() {
    let capabilities =
        ResourceCapabilities::for_target(ResourceTarget::Collection, true, false, true, true);
    assert_eq!(
        capabilities.allow_header(),
        "GET, HEAD, OPTIONS, PROPFIND, CHECKAUTH, LOGOUT"
    );
}

#[test]
fn file_and_collection_capabilities_follow_real_handler_limits() {
    let file = ResourceCapabilities::for_target(ResourceTarget::File, true, true, true, true);
    assert!(file.contains(ResourceMethod::Copy));
    assert!(!file.contains(ResourceMethod::Mkcol));

    let collection =
        ResourceCapabilities::for_target(ResourceTarget::Collection, true, true, true, true);
    assert!(!collection.contains(ResourceMethod::Copy));
    assert!(collection.contains(ResourceMethod::Move));

    let root = ResourceCapabilities::for_target(
        ResourceTarget::RootCollection,
        true,
        true,
        true,
        true,
    );
    assert!(root.contains(ResourceMethod::Proppatch));
    assert!(!root.contains(ResourceMethod::Delete));
    assert!(!root.contains(ResourceMethod::Move));

    let special = ResourceCapabilities::for_target(ResourceTarget::Other, true, true, true, true);
    assert_eq!(
        special.allow_header(),
        "GET, HEAD, OPTIONS, DELETE, PROPFIND, MOVE, CHECKAUTH, LOGOUT"
    );
    assert!(!special.contains(ResourceMethod::Proppatch));
}

#[test]
fn missing_target_only_advertises_creation_when_writable() {
    let writable =
        ResourceCapabilities::for_target(ResourceTarget::Missing, true, true, true, false);
    assert!(writable.contains(ResourceMethod::Put));
    assert!(writable.contains(ResourceMethod::Mkcol));
    // Looking up a missing name stays possible, so that it can be answered as missing.
    assert!(writable.contains(ResourceMethod::Get));
    assert!(writable.contains(ResourceMethod::Head));
    assert!(writable.contains(ResourceMethod::Propfind));

    let readonly =
        ResourceCapabilities::for_target(ResourceTarget::Missing, false, false, true, true);
    assert!(!readonly.contains(ResourceMethod::Put));
    assert!(!readonly.contains(ResourceMethod::Mkcol));
}

#[test]
fn a_single_file_is_only_read() {
    let single =
        ResourceCapabilities::for_target(ResourceTarget::SingleFile, true, true, true, true);
    assert_eq!(single.allow_header(), "GET, HEAD, OPTIONS");
}

#[test]
fn sets_survive_the_way_through_their_names() {
    let file = ResourceCapabilities::for_target(ResourceTarget::File, true, true, true, true);
    let names = file.names();
    assert_eq!(ResourceCapabilities::from_method_names(&names), file);
    assert_eq!(ResourceCapabilities::from_method_names(&["PUT", "TRACE", "get"]).names(), ["PUT"]);
    assert_eq!(ResourceMethod::parse_name("PROPFIND"), Some(ResourceMethod::Propfind));
    assert_eq!(ResourceMethod::parse_name("propfind"), None);
}

#[test]
fn intersections_hold_what_both_hold() {
    let file = ResourceCapabilities::for_target(ResourceTarget::File, true, true, true, true);
    let collection =
        ResourceCapabilities::for_target(ResourceTarget::Collection, true, true, true, true);
    let both = file.intersection(collection);
    assert!(both.contains(ResourceMethod::Delete));
    assert!(!both.contains(ResourceMethod::Copy));
    assert_eq!(both, collection.intersection(file));
    assert_eq!(ResourceCapabilities::none().allow_header(), "");
}

#[test]
fn permission_only_adds_methods() {
    for target in [
        ResourceTarget::Missing,
        ResourceTarget::EmptyFile,
        ResourceTarget::File,
        ResourceTarget::RootCollection,
        ResourceTarget::Collection,
        ResourceTarget::Other,
        ResourceTarget::SingleFile,
    ] {
        let less = ResourceCapabilities::for_target(target, true, false, true, false);
        let more = ResourceCapabilities::for_target(target, true, true, true, true);
        assert_eq!(less.intersection(more), less);
    }
}
