//! The resource methods that the server implements, and which of them make sense for one
//! target and one caller.
use crate::text::{same_text, TextBuilder};
use vstd::prelude::*;

verus! {

/// The methods of the resource router, in the order in which they are advertised.
#[derive(Clone, Copy, Debug, PartialEq, Eq, Structural)]
pub enum ResourceMethod {
    Get,
    Head,
    Options,
    Put,
    Delete,
    Patch,
    Propfind,
    Proppatch,
    Mkcol,
    Copy,
    Move,
    Checkauth,
    Logout,
}

/// What the router found at a request's target.
#[derive(Clone, Copy, Debug, PartialEq, Eq, Structural)]
pub enum ResourceTarget {
    Missing,
    EmptyFile,
    File,
    RootCollection,
    Collection,
    Other,
    SingleFile,
}

pub const METHOD_COUNT: usize = 13;

/// All methods, in the order in which they are advertised.
pub open spec fn all_methods() -> Seq<ResourceMethod> {
    seq![
        ResourceMethod::Get,
        ResourceMethod::Head,
        ResourceMethod::Options,
        ResourceMethod::Put,
        ResourceMethod::Delete,
        ResourceMethod::Patch,
        ResourceMethod::Propfind,
        ResourceMethod::Proppatch,
        ResourceMethod::Mkcol,
        ResourceMethod::Copy,
        ResourceMethod::Move,
        ResourceMethod::Checkauth,
        ResourceMethod::Logout,
    ]
}

impl ResourceMethod {
    /// The method's place in the advertised order.
    pub open spec fn position(self) -> u16 {
        match self {
            ResourceMethod::Get => 0,
            ResourceMethod::Head => 1,
            ResourceMethod::Options => 2,
            ResourceMethod::Put => 3,
            ResourceMethod::Delete => 4,
            ResourceMethod::Patch => 5,
            ResourceMethod::Propfind => 6,
            ResourceMethod::Proppatch => 7,
            ResourceMethod::Mkcol => 8,
            ResourceMethod::Copy => 9,
            ResourceMethod::Move => 10,
            ResourceMethod::Checkauth => 11,
            ResourceMethod::Logout => 12,
        }
    }

    /// The method's name on the wire.
    pub open spec fn token(self) -> Seq<char> {
        match self {
            ResourceMethod::Get => "GET"@,
            ResourceMethod::Head => "HEAD"@,
            ResourceMethod::Options => "OPTIONS"@,
            ResourceMethod::Put => "PUT"@,
            ResourceMethod::Delete => "DELETE"@,
            ResourceMethod::Patch => "PATCH"@,
            ResourceMethod::Propfind => "PROPFIND"@,
            ResourceMethod::Proppatch => "PROPPATCH"@,
            ResourceMethod::Mkcol => "MKCOL"@,
            ResourceMethod::Copy => "COPY"@,
            ResourceMethod::Move => "MOVE"@,
            ResourceMethod::Checkauth => "CHECKAUTH"@,
            ResourceMethod::Logout => "LOGOUT"@,
        }
    }

    /// The bit that stands for the method in a set of methods.
    pub fn bit(self) -> (bit: u16)
        ensures
            bit == 1u16 << self.position(),
    {
        assert(1u16 << 0u16 == 1 && 1u16 << 1u16 == 2 && 1u16 << 2u16 == 4 && 1u16 << 3u16 == 8
            && 1u16 << 4u16 == 16 && 1u16 << 5u16 == 32 && 1u16 << 6u16 == 64 && 1u16 << 7u16
            == 128 && 1u16 << 8u16 == 256 && 1u16 << 9u16 == 512 && 1u16 << 10u16 == 1024 && 1u16
            << 11u16 == 2048 && 1u16 << 12u16 == 4096) by (bit_vector);
        match self {
            ResourceMethod::Get => 1,
            ResourceMethod::Head => 2,
            ResourceMethod::Options => 4,
            ResourceMethod::Put => 8,
            ResourceMethod::Delete => 16,
            ResourceMethod::Patch => 32,
            ResourceMethod::Propfind => 64,
            ResourceMethod::Proppatch => 128,
            ResourceMethod::Mkcol => 256,
            ResourceMethod::Copy => 512,
            ResourceMethod::Move => 1024,
            ResourceMethod::Checkauth => 2048,
            ResourceMethod::Logout => 4096,
        }
    }

    pub fn as_str(self) -> (name: &'static str)
        ensures
            name@ == self.token(),
    {
        match self {
            ResourceMethod::Get => "GET",
            ResourceMethod::Head => "HEAD",
            ResourceMethod::Options => "OPTIONS",
            ResourceMethod::Put => "PUT",
            ResourceMethod::Delete => "DELETE",
            ResourceMethod::Patch => "PATCH",
            ResourceMethod::Propfind => "PROPFIND",
            ResourceMethod::Proppatch => "PROPPATCH",
            ResourceMethod::Mkcol => "MKCOL",
            ResourceMethod::Copy => "COPY",
            ResourceMethod::Move => "MOVE",
            ResourceMethod::Checkauth => "CHECKAUTH",
            ResourceMethod::Logout => "LOGOUT",
        }
    }

    /// The method at a place in the advertised order.
    pub fn at(position: usize) -> (method: ResourceMethod)
        requires
            position < METHOD_COUNT,
        ensures
            method == all_methods()[position as int],
            method.position() == position,
    {
        match position {
            0 => ResourceMethod::Get,
            1 => ResourceMethod::Head,
            2 => ResourceMethod::Options,
            3 => ResourceMethod::Put,
            4 => ResourceMethod::Delete,
            5 => ResourceMethod::Patch,
            6 => ResourceMethod::Propfind,
            7 => ResourceMethod::Proppatch,
            8 => ResourceMethod::Mkcol,
            9 => ResourceMethod::Copy,
            10 => ResourceMethod::Move,
            11 => ResourceMethod::Checkauth,
            _ => ResourceMethod::Logout,
        }
    }

    /// The method with this name, if there is one.
    pub fn parse_name(name: &str) -> (method: Option<ResourceMethod>)
        ensures
            method matches Some(m) ==> m.token() == name@,
            method is None ==> forall|m: ResourceMethod| #[trigger] m.token() != name@,
    {
        let mut i: usize = 0;
        while i < METHOD_COUNT
            invariant
                i <= METHOD_COUNT,
                forall|j: int| 0 <= j < i ==> (#[trigger] all_methods()[j]).token() != name@,
            decreases METHOD_COUNT - i,
        {
            let method = ResourceMethod::at(i);
            if same_text(method.as_str(), name) {
                return Some(method);
            }
            i = i + 1;
        }
        proof {
            assert forall|m: ResourceMethod| #[trigger] m.token() != name@ by {
                assert(all_methods()[m.position() as int] == m);
            }
        }
        None
    }
}

/// No two methods share a name.
pub proof fn lemma_tokens_differ(a: ResourceMethod, b: ResourceMethod)
    requires
        a != b,
    ensures
        a.token() != b.token(),
{
    reveal_strlit("GET");
    reveal_strlit("HEAD");
    reveal_strlit("OPTIONS");
    reveal_strlit("PUT");
    reveal_strlit("DELETE");
    reveal_strlit("PATCH");
    reveal_strlit("PROPFIND");
    reveal_strlit("PROPPATCH");
    reveal_strlit("MKCOL");
    reveal_strlit("COPY");
    reveal_strlit("MOVE");
    reveal_strlit("CHECKAUTH");
    reveal_strlit("LOGOUT");
    assert("GET"@.len() == 3 && "GET"@[0] == 'G');
    assert("PUT"@.len() == 3 && "PUT"@[0] == 'P');
    assert("HEAD"@.len() == 4 && "HEAD"@[0] == 'H');
    assert("COPY"@.len() == 4 && "COPY"@[0] == 'C');
    assert("MOVE"@.len() == 4 && "MOVE"@[0] == 'M');
    assert("PATCH"@.len() == 5 && "PATCH"@[0] == 'P');
    assert("MKCOL"@.len() == 5 && "MKCOL"@[0] == 'M');
    assert("DELETE"@.len() == 6 && "DELETE"@[0] == 'D');
    assert("LOGOUT"@.len() == 6 && "LOGOUT"@[0] == 'L');
    assert("OPTIONS"@.len() == 7);
    assert("PROPFIND"@.len() == 8);
    assert("PROPPATCH"@.len() == 9 && "PROPPATCH"@[0] == 'P');
    assert("CHECKAUTH"@.len() == 9 && "CHECKAUTH"@[0] == 'C');
}

/// A set of methods.
#[derive(Clone, Copy, Debug, PartialEq, Eq, Structural)]
pub struct ResourceCapabilities {
    bits: u16,
}

/// The most that a target can offer to a cross-origin preflight, which carries no credentials.
#[derive(Clone, Copy, Debug, PartialEq, Eq, Structural)]
pub struct CorsPreflightCapabilities {
    pub capabilities: ResourceCapabilities,
}

/// Whether a method makes sense for a target and a caller.
pub open spec fn offered(
    target: ResourceTarget,
    readable: bool,
    writable: bool,
    allow_upload: bool,
    allow_delete: bool,
    method: ResourceMethod,
) -> bool {
    let exists_there = target != ResourceTarget::Missing;
    let regular_file = target == ResourceTarget::EmptyFile || target == ResourceTarget::File;
    let removable = exists_there && target != ResourceTarget::RootCollection;
    if target == ResourceTarget::SingleFile {
        // A single served file is read-only.
        match method {
            ResourceMethod::Get | ResourceMethod::Head => readable,
            ResourceMethod::Options => true,
            _ => false,
        }
    } else {
        match method {
            ResourceMethod::Options | ResourceMethod::Checkauth | ResourceMethod::Logout => true,
            // Looking up a missing name is routed too, so that it can be answered as missing.
            ResourceMethod::Get | ResourceMethod::Head | ResourceMethod::Propfind => readable,
            ResourceMethod::Proppatch => writable && exists_there && target
                != ResourceTarget::Other,
            ResourceMethod::Delete => writable && removable && allow_delete,
            // Moving away is deleting here and creating elsewhere.
            ResourceMethod::Move => writable && removable && allow_delete && allow_upload,
            // Replacing bytes that are there deletes them.
            ResourceMethod::Put => writable && allow_upload && (target == ResourceTarget::Missing
                || target == ResourceTarget::EmptyFile || (target == ResourceTarget::File
                && allow_delete)),
            ResourceMethod::Mkcol => writable && allow_upload && target == ResourceTarget::Missing,
            ResourceMethod::Patch => writable && allow_upload && regular_file,
            // Copying only reads its source.
            ResourceMethod::Copy => readable && allow_upload && regular_file,
        }
    }
}

/// The texts joined by a separator.
pub open spec fn joined(parts: Seq<Seq<char>>, separator: Seq<char>) -> Seq<char>
    decreases parts.len(),
{
    if parts.len() == 0 {
        Seq::empty()
    } else if parts.len() == 1 {
        parts[0]
    } else {
        joined(parts.drop_last(), separator) + separator + parts.last()
    }
}

impl ResourceCapabilities {
    /// Whether a method is in the set.
    pub closed spec fn has(self, method: ResourceMethod) -> bool {
        self.bits & (1u16 << method.position()) != 0
    }

    /// The methods of the set in the advertised order.
    pub open spec fn listed(self) -> Seq<ResourceMethod> {
        all_methods().filter(|method: ResourceMethod| self.has(method))
    }

    /// The empty set.
    pub fn none() -> (capabilities: ResourceCapabilities)
        ensures
            forall|m: ResourceMethod| !#[trigger] capabilities.has(m),
    {
        let capabilities = ResourceCapabilities { bits: 0 };
        assert forall|m: ResourceMethod| !#[trigger] capabilities.has(m) by {
            let p = m.position();
            assert(0u16 & (1u16 << p) == 0) by (bit_vector);
        }
        capabilities
    }

    /// The methods that make sense for a target and a caller.
    pub fn for_target(
        target: ResourceTarget,
        readable: bool,
        writable: bool,
        allow_upload: bool,
        allow_delete: bool,
    ) -> (capabilities: ResourceCapabilities)
        ensures
            forall|m: ResourceMethod| #[trigger]
                capabilities.has(m) == offered(
                    target,
                    readable,
                    writable,
                    allow_upload,
                    allow_delete,
                    m,
                ),
    {
        let mut capabilities = ResourceCapabilities::none();
        if target == ResourceTarget::SingleFile {
            if readable {
                capabilities.insert(ResourceMethod::Get);
                capabilities.insert(ResourceMethod::Head);
            }
            capabilities.insert(ResourceMethod::Options);
            return capabilities;
        }
        capabilities.insert(ResourceMethod::Options);
        capabilities.insert(ResourceMethod::Checkauth);
        capabilities.insert(ResourceMethod::Logout);
        let exists_there = target != ResourceTarget::Missing;
        if readable {
            capabilities.insert(ResourceMethod::Get);
            capabilities.insert(ResourceMethod::Head);
            capabilities.insert(ResourceMethod::Propfind);
        }
        if writable && exists_there {
            if target != ResourceTarget::Other {
                capabilities.insert(ResourceMethod::Proppatch);
            }
            // The served root has no slot in a parent, so it cannot be deleted or moved.
            if allow_delete && target != ResourceTarget::RootCollection {
                capabilities.insert(ResourceMethod::Delete);
            }
            if allow_upload && allow_delete && target != ResourceTarget::RootCollection {
                capabilities.insert(ResourceMethod::Move);
            }
        }
        if writable && allow_upload {
            match target {
                ResourceTarget::Missing => {
                    capabilities.insert(ResourceMethod::Put);
                    capabilities.insert(ResourceMethod::Mkcol);
                },
                ResourceTarget::EmptyFile => {
                    capabilities.insert(ResourceMethod::Put);
                    capabilities.insert(ResourceMethod::Patch);
                },
                ResourceTarget::File => {
                    if allow_delete {
                        capabilities.insert(ResourceMethod::Put);
                    }
                    capabilities.insert(ResourceMethod::Patch);
                },
                _ => {},
            }
        }
        if readable && allow_upload {
            match target {
                ResourceTarget::EmptyFile | ResourceTarget::File => {
                    capabilities.insert(ResourceMethod::Copy);
                },
                _ => {},
            }
        }
        capabilities
    }

    pub fn contains(self, method: ResourceMethod) -> (contained: bool)
        ensures
            contained == self.has(method),
    {
        self.bits & method.bit() != 0
    }

    /// The names of the methods in the advertised order.
    pub fn names(self) -> (names: Vec<&'static str>)
        ensures
            names@.len() == self.listed().len(),
            forall|i: int|
                0 <= i < names@.len() ==> (#[trigger] names@[i])@ == self.listed()[i].token(),
    {
        let mut names: Vec<&'static str> = Vec::new();
        let mut i: usize = 0;
        let ghost keep = |method: ResourceMethod| self.has(method);
        proof {
            reveal(Seq::filter);
            assert(all_methods().take(0) =~= Seq::<ResourceMethod>::empty());
        }
        while i < METHOD_COUNT
            invariant
                i <= METHOD_COUNT,
                keep == (|method: ResourceMethod| self.has(method)),
                names@.len() == all_methods().take(i as int).filter(keep).len(),
                forall|j: int|
                    0 <= j < names@.len() ==> (#[trigger] names@[j])@ == all_methods().take(
                        i as int,
                    ).filter(keep)[j].token(),
            decreases METHOD_COUNT - i,
        {
            let method = ResourceMethod::at(i);
            proof {
                reveal(Seq::filter);
                assert(all_methods().take(i + 1).drop_last() =~= all_methods().take(i as int));
                assert(all_methods().take(i + 1).last() == method);
            }
            if self.contains(method) {
                names.push(method.as_str());
            }
            i = i + 1;
        }
        assert(all_methods().take(METHOD_COUNT as int) =~= all_methods());
        names
    }

    /// The value of an `Allow` header.
    pub fn allow_header(self) -> (value: String)
        ensures
            value@ == joined(self.listed().map_values(|m: ResourceMethod| m.token()), ", "@),
    {
        let names = self.names();
        let ghost tokens = self.listed().map_values(|m: ResourceMethod| m.token());
        let mut value = TextBuilder::new();
        let mut i: usize = 0;
        assert(tokens.take(0) =~= Seq::<Seq<char>>::empty());
        while i < names.len()
            invariant
                i <= names.len(),
                names@.len() == tokens.len(),
                forall|j: int| 0 <= j < names@.len() ==> (#[trigger] names@[j])@ == tokens[j],
                value.wf(),
                value.view() == joined(tokens.take(i as int), ", "@),
            decreases names.len() - i,
        {
            proof {
                assert(tokens.take(i + 1).drop_last() =~= tokens.take(i as int));
                assert(tokens.take(i + 1).last() == tokens[i as int]);
            }
            if i > 0 {
                value.push(", ");
            }
            value.push(names[i]);
            assert(value.view() =~= joined(tokens.take(i + 1), ", "@));
            i = i + 1;
        }
        assert(tokens.take(names@.len() as int) =~= tokens);
        value.finish()
    }

    /// The methods that both sets hold.
    pub fn intersection(self, other: ResourceCapabilities) -> (both: ResourceCapabilities)
        ensures
            forall|m: ResourceMethod| #[trigger] both.has(m) == (self.has(m) && other.has(m)),
    {
        let both = ResourceCapabilities { bits: self.bits & other.bits };
        assert forall|m: ResourceMethod| #[trigger] both.has(m) == (self.has(m) && other.has(
            m,
        )) by {
            let a = self.bits;
            let b = other.bits;
            let p = m.position();
            assert((a & b) & (1u16 << p) != 0 <==> a & (1u16 << p) != 0 && b & (1u16 << p) != 0)
                by (bit_vector)
                requires
                    p < 16,
            ;
        }
        both
    }

    /// The methods that are named; other names are ignored.
    pub fn from_method_names(methods: &[&str]) -> (capabilities: ResourceCapabilities)
        ensures
            forall|m: ResourceMethod| #[trigger]
                capabilities.has(m) <==> exists|i: int|
                    0 <= i < methods@.len() && (#[trigger] methods@[i])@ == m.token(),
    {
        let mut capabilities = ResourceCapabilities::none();
        let mut i: usize = 0;
        while i < methods.len()
            invariant
                i <= methods.len(),
                forall|m: ResourceMethod| #[trigger]
                    capabilities.has(m) <==> exists|j: int|
                        0 <= j < i && (#[trigger] methods@[j])@ == m.token(),
            decreases methods.len() - i,
        {
            let ghost before = capabilities;
            match ResourceMethod::parse_name(methods[i]) {
                Some(method) => {
                    capabilities.insert(method);
                    proof {
                        assert forall|m: ResourceMethod| #[trigger]
                            capabilities.has(m) <==> exists|j: int|
                                0 <= j < i + 1 && (#[trigger] methods@[j])@ == m.token() by {
                            if m == method {
                                assert(methods@[i as int]@ == m.token());
                            } else {
                                lemma_tokens_differ(m, method);
                                assert(before.has(m) == capabilities.has(m));
                            }
                        }
                    }
                },
                None => {
                    assert(forall|m: ResourceMethod| #[trigger] m.token() != methods@[i as int]@);
                },
            }
            i = i + 1;
        }
        capabilities
    }

    pub fn insert(&mut self, method: ResourceMethod)
        ensures
            forall|m: ResourceMethod| #[trigger]
                final(self).has(m) == (old(self).has(m) || m == method),
    {
        let ghost before = self.bits;
        self.bits = self.bits | method.bit();
        proof {
            let q = method.position();
            assert forall|m: ResourceMethod| #[trigger] self.has(m) == ((before & (1u16
                << m.position()) != 0) || m == method) by {
                let p = m.position();
                assert((before | (1u16 << q)) & (1u16 << p) != 0 <==> before & (1u16 << p) != 0
                    || p == q) by (bit_vector)
                    requires
                        p < 16,
                        q < 16,
                ;
                if p == q {
                    assert(all_methods()[p as int] == m && all_methods()[q as int] == method);
                }
            }
        }
    }
}

/// The advertised names tell the set exactly: a method is in it if and only if its name is
/// listed, so reading the names back gives the same set.
pub proof fn law_listed_names_tell_the_set(capabilities: ResourceCapabilities, method: ResourceMethod)
    ensures
        capabilities.has(method) <==> exists|i: int|
            0 <= i < capabilities.listed().len() && (#[trigger] capabilities.listed()[i]).token()
                == method.token(),
{
    let keep = |m: ResourceMethod| capabilities.has(m);
    broadcast use vstd::seq_lib::group_filter_ensures;

    let listed = capabilities.listed();
    assert(all_methods()[method.position() as int] == method);
    if capabilities.has(method) {
        assert(keep(all_methods()[method.position() as int]));
        assert(listed.contains(method));
        let i = choose|i: int| 0 <= i < listed.len() && listed[i] == method;
        assert(listed[i].token() == method.token());
    }
    if exists|i: int|
        0 <= i < listed.len() && (#[trigger] listed[i]).token() == method.token() {
        let i = choose|i: int|
            0 <= i < listed.len() && (#[trigger] listed[i]).token() == method.token();
        if listed[i] != method {
            lemma_tokens_differ(listed[i], method);
        }
        assert(keep(listed[i]));
    }
}

/// A caller who may not write is offered nothing that changes what is stored, except a copy to
/// a place that is authorized by itself.
pub proof fn law_read_only_offers_no_mutation(
    target: ResourceTarget,
    readable: bool,
    allow_upload: bool,
    allow_delete: bool,
    method: ResourceMethod,
)
    requires
        offered(target, readable, false, allow_upload, allow_delete, method),
    ensures
        !matches!(
            method,
            ResourceMethod::Put | ResourceMethod::Patch | ResourceMethod::Delete
                | ResourceMethod::Mkcol | ResourceMethod::Move | ResourceMethod::Proppatch
        ),
{
}

/// Permission only ever adds methods: what is offered under some switches stays offered under
/// wider ones.
pub proof fn law_offers_grow_with_permission(
    target: ResourceTarget,
    readable: bool,
    writable: bool,
    allow_upload: bool,
    allow_delete: bool,
    wider_readable: bool,
    wider_writable: bool,
    wider_upload: bool,
    wider_delete: bool,
    method: ResourceMethod,
)
    requires
        readable ==> wider_readable,
        writable ==> wider_writable,
        allow_upload ==> wider_upload,
        allow_delete ==> wider_delete,
        offered(target, readable, writable, allow_upload, allow_delete, method),
    ensures
        offered(target, wider_readable, wider_writable, wider_upload, wider_delete, method),
{
}

/// What a served tree offers, method by method, to a caller who may do certain things. Reading
/// is offered wherever the caller may read, also of a name that is missing; a change is offered
/// exactly where the caller may write, the configuration allows it and it makes sense for what is
/// there.
pub proof fn law_offers_of_a_tree(
    target: ResourceTarget,
    readable: bool,
    writable: bool,
    allow_upload: bool,
    allow_delete: bool,
)
    requires
        target != ResourceTarget::SingleFile,
    ensures
        forall|m: ResourceMethod|
            m == ResourceMethod::Options || m == ResourceMethod::Checkauth || m
                == ResourceMethod::Logout ==> #[trigger] offered(
                target,
                readable,
                writable,
                allow_upload,
                allow_delete,
                m,
            ),
        forall|m: ResourceMethod|
            m == ResourceMethod::Get || m == ResourceMethod::Head || m == ResourceMethod::Propfind
                ==> (#[trigger] offered(target, readable, writable, allow_upload, allow_delete, m)
                <==> readable),
        offered(target, readable, writable, allow_upload, allow_delete, ResourceMethod::Put)
            <==> writable && allow_upload && {
            ||| target == ResourceTarget::Missing
            ||| target == ResourceTarget::EmptyFile
            ||| target == ResourceTarget::File && allow_delete
        },
        offered(target, readable, writable, allow_upload, allow_delete, ResourceMethod::Patch)
            <==> writable && allow_upload && (target == ResourceTarget::EmptyFile || target
            == ResourceTarget::File),
        offered(target, readable, writable, allow_upload, allow_delete, ResourceMethod::Mkcol)
            <==> writable && allow_upload && target == ResourceTarget::Missing,
        offered(target, readable, writable, allow_upload, allow_delete, ResourceMethod::Delete)
            <==> writable && allow_delete && target != ResourceTarget::Missing && target
            != ResourceTarget::RootCollection,
        offered(target, readable, writable, allow_upload, allow_delete, ResourceMethod::Move)
            <==> writable && allow_upload && allow_delete && target != ResourceTarget::Missing
            && target != ResourceTarget::RootCollection,
        offered(target, readable, writable, allow_upload, allow_delete, ResourceMethod::Copy)
            <==> readable && allow_upload && (target == ResourceTarget::EmptyFile || target
            == ResourceTarget::File),
        offered(target, readable, writable, allow_upload, allow_delete, ResourceMethod::Proppatch)
            <==> writable && target != ResourceTarget::Missing && target != ResourceTarget::Other,
{
}

/// A single served file can be read by whoever may read it, and changed by nobody.
pub proof fn law_offers_of_a_single_file(
    readable: bool,
    writable: bool,
    allow_upload: bool,
    allow_delete: bool,
    method: ResourceMethod,
)
    ensures
        offered(
            ResourceTarget::SingleFile,
            readable,
            writable,
            allow_upload,
            allow_delete,
            method,
        ) <==> method == ResourceMethod::Options || (readable && (method == ResourceMethod::Get
            || method == ResourceMethod::Head)),
{
}

/// The allowed methods are told in one line, each behind the one before it, with a separator
/// between them.
pub proof fn law_methods_are_told_in_one_line(
    tokens: Seq<Seq<char>>,
    token: Seq<char>,
    separator: Seq<char>,
)
    ensures
        joined(Seq::empty(), separator) == Seq::<char>::empty(),
        joined(seq![token], separator) == token,
        tokens.len() > 0 ==> joined(tokens.push(token), separator) == joined(tokens, separator)
            + separator + token,
{
    assert(tokens.push(token).drop_last() =~= tokens);
}

} // verus!
