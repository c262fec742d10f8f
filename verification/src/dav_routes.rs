//! What the WebDAV methods of an authenticated request lead to.
use crate::capabilities::ResourceMethod;
use crate::error::AnyError;
use crate::fault::said;
use vstd::prelude::*;

verus! {

/// What the router prepared for a WebDAV method.
#[derive(Clone, Copy, Debug, PartialEq, Eq, Structural)]
pub struct DavFacts {
    /// Nothing is at the target.
    pub is_miss: bool,
    pub is_dir: bool,
    pub is_file: bool,
    pub allow_upload: bool,
    pub allow_delete: bool,
    /// The request's body was not consumed yet.
    pub has_request: bool,
    /// The target is open.
    pub has_target: bool,
    /// The locks for the mutation are held.
    pub has_guards: bool,
    /// The destination was prepared.
    pub has_destination: bool,
}

/// What a WebDAV method does.
#[derive(Debug)]
pub enum DavAction {
    PropfindDirectory,
    PropfindFile,
    Proppatch,
    Mkcol,
    Copy,
    Move,
    NotFound,
    Forbid,
    /// Something is where a collection was to be made.
    AlreadyExists,
    /// The conditions of the request refused it, and the response says so.
    Refused,
    Fail { error: AnyError },
}

pub open spec fn is_dav(method: ResourceMethod) -> bool {
    method == ResourceMethod::Propfind || method == ResourceMethod::Proppatch || method
        == ResourceMethod::Mkcol || method == ResourceMethod::Copy || method
        == ResourceMethod::Move
}

/// Whether configuration lets a caller use a method at all.
pub open spec fn configured(method: ResourceMethod, facts: DavFacts) -> bool {
    match method {
        ResourceMethod::Mkcol | ResourceMethod::Copy => facts.allow_upload,
        ResourceMethod::Move => facts.allow_upload && facts.allow_delete,
        _ => true,
    }
}

/// Whether the conditions of a request are evaluated: for every method that changes something
/// and that configuration lets through.
pub open spec fn conditional(method: ResourceMethod, facts: DavFacts) -> bool {
    method != ResourceMethod::Propfind && configured(method, facts)
}

/// Whether the conditions of the request are to be evaluated before the method is dispatched.
pub fn needs_write_precondition(method: ResourceMethod, facts: DavFacts) -> (needed: bool)
    requires
        is_dav(method),
    ensures
        needed == conditional(method, facts),
{
    match method {
        ResourceMethod::Proppatch => true,
        ResourceMethod::Mkcol | ResourceMethod::Copy => facts.allow_upload,
        ResourceMethod::Move => facts.allow_upload && facts.allow_delete,
        _ => false,
    }
}

/// An action that fails with this text.
pub open spec fn fails(action: DavAction, text: Seq<char>) -> bool {
    action matches DavAction::Fail { error } && error@ == said(text)
}

/// What a prepared WebDAV method does. `precondition_passes` is what evaluating the conditions
/// of the request said, where they are evaluated.
pub open spec fn dav_action(
    method: ResourceMethod,
    facts: DavFacts,
    precondition_passes: bool,
    action: DavAction,
) -> bool {
    if !configured(method, facts) {
        action is Forbid
    } else if conditional(method, facts) && !precondition_passes {
        action is Refused
    } else {
        match method {
            ResourceMethod::Propfind => if !facts.has_request {
                fails(action, "PROPFIND request body was already consumed"@)
            } else if facts.is_dir {
                if !facts.has_target {
                    fails(action, "opened directory capability disappeared"@)
                } else {
                    action is PropfindDirectory
                }
            } else if facts.is_file {
                if !facts.has_target {
                    fails(action, "opened file capability disappeared"@)
                } else {
                    action is PropfindFile
                }
            } else {
                action is NotFound
            },
            ResourceMethod::Proppatch => if !facts.is_file && !facts.is_dir {
                action is NotFound
            } else if !facts.has_request {
                fails(action, "PROPPATCH request body was already consumed"@)
            } else {
                action is Proppatch
            },
            ResourceMethod::Mkcol => if !facts.is_miss {
                action is AlreadyExists
            } else if !facts.has_guards {
                fails(action, "MKCOL mutation lock was not held"@)
            } else {
                action is Mkcol
            },
            ResourceMethod::Copy => if facts.is_miss {
                action is NotFound
            } else if !facts.has_destination {
                fails(action, "COPY destination was not prepared"@)
            } else if !facts.has_target {
                fails(action, "COPY source capability disappeared"@)
            } else if !facts.has_guards {
                fails(action, "COPY mutation locks were not held"@)
            } else {
                action is Copy
            },
            ResourceMethod::Move => if facts.is_miss {
                action is NotFound
            } else if !facts.has_destination {
                fails(action, "MOVE destination was not prepared"@)
            } else if !facts.has_target {
                fails(action, "MOVE source capability disappeared"@)
            } else if !facts.has_guards {
                fails(action, "MOVE mutation locks were not held"@)
            } else {
                action is Move
            },
            _ => true,
        }
    }
}

/// Dispatches a prepared WebDAV method.
pub fn dispatch_dav_route(
    method: ResourceMethod,
    facts: DavFacts,
    precondition_passes: bool,
) -> (action: DavAction)
    requires
        is_dav(method),
    ensures
        dav_action(method, facts, precondition_passes, action),
{
    match method {
        ResourceMethod::Propfind => {
            if !facts.has_request {
                return fail("PROPFIND request body was already consumed");
            }
            if facts.is_dir {
                if !facts.has_target {
                    return fail("opened directory capability disappeared");
                }
                DavAction::PropfindDirectory
            } else if facts.is_file {
                if !facts.has_target {
                    return fail("opened file capability disappeared");
                }
                DavAction::PropfindFile
            } else {
                DavAction::NotFound
            }
        },
        ResourceMethod::Proppatch => {
            if !precondition_passes {
                return DavAction::Refused;
            }
            if !facts.is_file && !facts.is_dir {
                return DavAction::NotFound;
            }
            if !facts.has_request {
                return fail("PROPPATCH request body was already consumed");
            }
            DavAction::Proppatch
        },
        ResourceMethod::Mkcol => {
            if !facts.allow_upload {
                return DavAction::Forbid;
            }
            if !precondition_passes {
                return DavAction::Refused;
            }
            if !facts.is_miss {
                return DavAction::AlreadyExists;
            }
            if !facts.has_guards {
                return fail("MKCOL mutation lock was not held");
            }
            DavAction::Mkcol
        },
        ResourceMethod::Copy => {
            if !facts.allow_upload {
                return DavAction::Forbid;
            }
            if !precondition_passes {
                return DavAction::Refused;
            }
            if facts.is_miss {
                return DavAction::NotFound;
            }
            if !facts.has_destination {
                return fail("COPY destination was not prepared");
            }
            if !facts.has_target {
                return fail("COPY source capability disappeared");
            }
            if !facts.has_guards {
                return fail("COPY mutation locks were not held");
            }
            DavAction::Copy
        },
        _ => {
            if !facts.allow_upload || !facts.allow_delete {
                return DavAction::Forbid;
            }
            if !precondition_passes {
                return DavAction::Refused;
            }
            if facts.is_miss {
                return DavAction::NotFound;
            }
            if !facts.has_destination {
                return fail("MOVE destination was not prepared");
            }
            if !facts.has_target {
                return fail("MOVE source capability disappeared");
            }
            if !facts.has_guards {
                return fail("MOVE mutation locks were not held");
            }
            DavAction::Move
        },
    }
}

fn fail(text: &'static str) -> (action: DavAction)
    ensures
        fails(action, text@),
{
    DavAction::Fail { error: AnyError::message(text) }
}

/// Nothing in the namespace is changed without the locks for it, nor against the conditions of
/// the request, nor where configuration forbids it.
pub proof fn law_mutations_are_guarded(
    method: ResourceMethod,
    facts: DavFacts,
    precondition_passes: bool,
    action: DavAction,
)
    requires
        is_dav(method),
        dav_action(method, facts, precondition_passes, action),
        action is Mkcol || action is Copy || action is Move,
    ensures
        facts.has_guards,
        precondition_passes,
        facts.allow_upload,
        action is Move ==> facts.allow_delete,
        action is Mkcol ==> facts.is_miss,
        !(action is Mkcol) ==> !facts.is_miss && facts.has_target && facts.has_destination,
{
}

/// A move is answered by what is known of it: forbidden exactly where it is not allowed, refused
/// exactly where its conditions fail, and not found exactly where nothing is at its source. In
/// every other case that is prepared it takes place, whatever kind of thing the source is.
pub proof fn law_move_takes_place(facts: DavFacts, precondition_passes: bool, action: DavAction)
    requires
        dav_action(ResourceMethod::Move, facts, precondition_passes, action),
    ensures
        action is Forbid <==> !(facts.allow_upload && facts.allow_delete),
        action is Refused <==> facts.allow_upload && facts.allow_delete && !precondition_passes,
        action is NotFound <==> facts.allow_upload && facts.allow_delete && precondition_passes && facts.is_miss,
        action is Move <==> facts.allow_upload && facts.allow_delete && precondition_passes && !facts.is_miss
            && facts.has_target && facts.has_destination && facts.has_guards,
        action is Forbid || action is Refused || action is NotFound || action is Move || action
            is Fail,
        action is Fail ==> !facts.has_target || !facts.has_destination || !facts.has_guards,
{
}

/// A copy is answered by what is known of it: forbidden exactly where it is not allowed, refused
/// exactly where its conditions fail, and not found exactly where nothing is at its source. In
/// every other case that is prepared it takes place, whatever kind of thing the source is.
pub proof fn law_copy_takes_place(facts: DavFacts, precondition_passes: bool, action: DavAction)
    requires
        dav_action(ResourceMethod::Copy, facts, precondition_passes, action),
    ensures
        action is Forbid <==> !(facts.allow_upload),
        action is Refused <==> facts.allow_upload && !precondition_passes,
        action is NotFound <==> facts.allow_upload && precondition_passes && facts.is_miss,
        action is Copy <==> facts.allow_upload && precondition_passes && !facts.is_miss
            && facts.has_target && facts.has_destination && facts.has_guards,
        action is Forbid || action is Refused || action is NotFound || action is Copy || action
            is Fail,
        action is Fail ==> !facts.has_target || !facts.has_destination || !facts.has_guards,
{
}

/// A collection is made exactly where nothing is yet, where that is allowed, its conditions pass
/// and its lock is held; something that is there already is never replaced, and never missed.
pub proof fn law_collections_are_made_where_nothing_is(
    facts: DavFacts,
    precondition_passes: bool,
    action: DavAction,
)
    requires
        dav_action(ResourceMethod::Mkcol, facts, precondition_passes, action),
    ensures
        action is Forbid <==> !facts.allow_upload,
        action is Refused <==> facts.allow_upload && !precondition_passes,
        action is AlreadyExists <==> facts.allow_upload && precondition_passes && !facts.is_miss,
        action is Mkcol <==> facts.allow_upload && precondition_passes && facts.is_miss
            && facts.has_guards,
        action is Forbid || action is Refused || action is AlreadyExists || action is Mkcol
            || action is Fail,
        action is Fail ==> facts.is_miss && !facts.has_guards,
{
}

/// The properties of a directory and of a file are told whatever the configuration allows and
/// whatever the conditions say; only what is neither is not found.
pub proof fn law_properties_are_told_of_everything_there(
    facts: DavFacts,
    precondition_passes: bool,
    action: DavAction,
)
    requires
        dav_action(ResourceMethod::Propfind, facts, precondition_passes, action),
        facts.has_request,
        facts.has_target,
    ensures
        action is PropfindDirectory <==> facts.is_dir,
        action is PropfindFile <==> facts.is_file && !facts.is_dir,
        action is NotFound <==> !facts.is_dir && !facts.is_file,
{
}

/// A change of properties is looked at for every file and directory whose conditions pass.
pub proof fn law_property_changes_are_looked_at(
    facts: DavFacts,
    precondition_passes: bool,
    action: DavAction,
)
    requires
        dav_action(ResourceMethod::Proppatch, facts, precondition_passes, action),
    ensures
        action is Refused <==> !precondition_passes,
        action is NotFound <==> precondition_passes && !facts.is_dir && !facts.is_file,
        action is Proppatch <==> precondition_passes && (facts.is_dir || facts.is_file)
            && facts.has_request,
        action is Refused || action is NotFound || action is Proppatch || action is Fail,
{
}

/// The conditions of a request are asked for exactly where the method would change something and
/// is allowed: for a change of properties always, and never for a question.
pub proof fn law_conditions_guard_changes(facts: DavFacts)
    ensures
        !conditional(ResourceMethod::Propfind, facts),
        conditional(ResourceMethod::Proppatch, facts),
        conditional(ResourceMethod::Mkcol, facts) <==> facts.allow_upload,
        conditional(ResourceMethod::Copy, facts) <==> facts.allow_upload,
        conditional(ResourceMethod::Move, facts) <==> facts.allow_upload && facts.allow_delete,
{
}

} // verus!
