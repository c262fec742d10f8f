//! Paths as byte strings with `/` between components.
use crate::text::{push_bytes, same_bytes};
use vstd::prelude::*;

verus! {

pub const SLASH: u8 = 47;

pub const DOT: u8 = 46;

/// The stretches of a path between slashes, empty ones included.
pub open spec fn stretches(path: Seq<u8>) -> Seq<Seq<u8>>
    decreases path.len(),
{
    if path.len() == 0 {
        seq![Seq::<u8>::empty()]
    } else {
        let before = stretches(path.drop_last());
        if path.last() == SLASH {
            before.push(Seq::empty())
        } else {
            before.drop_last().push(before.last().push(path.last()))
        }
    }
}

pub proof fn lemma_stretches_nonempty(path: Seq<u8>)
    ensures
        stretches(path).len() >= 1,
    decreases path.len(),
{
    if path.len() > 0 {
        lemma_stretches_nonempty(path.drop_last());
    }
}

/// Byte strings joined by slashes.
pub open spec fn slashed(parts: Seq<Seq<u8>>) -> Seq<u8>
    decreases parts.len(),
{
    if parts.len() == 0 {
        Seq::empty()
    } else if parts.len() == 1 {
        parts[0]
    } else {
        slashed(parts.drop_last()).push(SLASH) + parts.last()
    }
}

/// A byte string without a slash.
pub open spec fn slashless(part: Seq<u8>) -> bool {
    forall|i: int| 0 <= i < part.len() ==> #[trigger] part[i] != SLASH
}

proof fn lemma_stretches_extend(path: Seq<u8>, part: Seq<u8>)
    requires
        slashless(part),
    ensures
        stretches(path + part) == stretches(path).drop_last().push(stretches(path).last() + part),
    decreases part.len(),
{
    lemma_stretches_nonempty(path);
    if part.len() == 0 {
        assert(path + part =~= path);
        assert(stretches(path).last() + part =~= stretches(path).last());
        assert(stretches(path).drop_last().push(stretches(path).last()) =~= stretches(path));
    } else {
        let shorter = part.drop_last();
        assert forall|i: int| 0 <= i < shorter.len() implies #[trigger] shorter[i] != SLASH by {
            assert(shorter[i] == part[i]);
        }
        lemma_stretches_extend(path, shorter);
        assert((path + part).drop_last() =~= path + shorter);
        assert((path + part).last() == part.last());
        assert(part.last() == part[part.len() - 1]);
        let before = stretches(path + shorter);
        assert(before.last() == stretches(path).last() + shorter);
        assert((stretches(path).last() + shorter).push(part.last()) =~= stretches(path).last()
            + part);
        assert(before.drop_last() =~= stretches(path).drop_last());
    }
}

/// Joining and splitting are inverse: the stretches of joined parts are the parts.
pub proof fn lemma_stretches_of_slashed(parts: Seq<Seq<u8>>)
    requires
        parts.len() >= 1,
        forall|i: int| 0 <= i < parts.len() ==> slashless(#[trigger] parts[i]),
    ensures
        stretches(slashed(parts)) == parts,
    decreases parts.len(),
{
    if parts.len() == 1 {
        assert(Seq::<u8>::empty() + parts[0] =~= parts[0]);
        lemma_stretches_extend(Seq::empty(), parts[0]);
        assert(stretches(Seq::<u8>::empty()).drop_last().push(
            stretches(Seq::<u8>::empty()).last() + parts[0],
        ) =~= parts);
    } else {
        let init = parts.drop_last();
        assert forall|i: int| 0 <= i < init.len() implies slashless(#[trigger] init[i]) by {
            assert(init[i] == parts[i]);
        }
        lemma_stretches_of_slashed(init);
        let opened = slashed(init).push(SLASH);
        assert(opened.drop_last() =~= slashed(init));
        assert(stretches(opened) == init.push(Seq::empty()));
        assert(parts.last() == parts[parts.len() - 1]);
        lemma_stretches_extend(opened, parts.last());
        assert(Seq::<u8>::empty() + parts.last() =~= parts.last());
        assert(init.push(Seq::<u8>::empty()).drop_last() =~= init);
        assert(init.push(parts.last()) =~= parts);
    }
}

/// One component of a path.
#[derive(Debug)]
pub enum Component {
    RootDir,
    CurDir,
    ParentDir,
    Normal { name: Vec<u8> },
}

/// A component as a value.
pub enum Part {
    RootDir,
    CurDir,
    ParentDir,
    Normal(Seq<u8>),
}

impl Component {
    pub open spec fn view(self) -> Part {
        match self {
            Component::RootDir => Part::RootDir,
            Component::CurDir => Part::CurDir,
            Component::ParentDir => Part::ParentDir,
            Component::Normal { name } => Part::Normal(name@),
        }
    }
}

/// The component that a stretch stands for. Empty stretches stand for none, and neither does a
/// dot, except in front of a relative path.
pub open spec fn stretch_part(stretch: Seq<u8>, first: bool) -> Option<Part> {
    if stretch.len() == 0 {
        None
    } else if stretch == seq![DOT] {
        if first {
            Some(Part::CurDir)
        } else {
            None
        }
    } else if stretch == seq![DOT, DOT] {
        Some(Part::ParentDir)
    } else {
        Some(Part::Normal(stretch))
    }
}

/// The components of the first `n` stretches.
pub open spec fn parts_of(all: Seq<Seq<u8>>, n: nat) -> Seq<Part>
    decreases n,
{
    if n == 0 {
        Seq::empty()
    } else {
        let before = parts_of(all, (n - 1) as nat);
        match stretch_part(all[n - 1], n == 1) {
            Some(part) => before.push(part),
            None => before,
        }
    }
}

/// The components of a path.
pub open spec fn parts(path: Seq<u8>) -> Seq<Part> {
    let all = stretches(path);
    let named = parts_of(all, all.len());
    if path.len() > 0 && path[0] == SLASH {
        seq![Part::RootDir] + named
    } else {
        named
    }
}

/// The components seen as values.
pub open spec fn component_views(components: Seq<Component>) -> Seq<Part> {
    components.map_values(|c: Component| c.view())
}

/// The stretches of a path.
pub fn split_slashes(path: &[u8]) -> (all: Vec<Vec<u8>>)
    ensures
        all@.map_values(|v: Vec<u8>| v@) == stretches(path@),
{
    let mut done: Vec<Vec<u8>> = Vec::new();
    let mut current: Vec<u8> = Vec::new();
    let mut i: usize = 0;
    let ghost as_seq = |v: Vec<u8>| v@;
    proof {
        assert(path@.take(0) =~= Seq::<u8>::empty());
        assert(done@.map_values(as_seq).push(current@) =~= stretches(path@.take(0)));
    }
    while i < path.len()
        invariant
            i <= path@.len(),
            as_seq == (|v: Vec<u8>| v@),
            done@.map_values(as_seq).push(current@) == stretches(path@.take(i as int)),
        decreases path.len() - i,
    {
        let ghost before = stretches(path@.take(i as int));
        let ghost held = done@.map_values(as_seq);
        let ghost cut = current@;
        let byte: u8 = path[i];
        proof {
            assert(path@.take(i + 1).drop_last() =~= path@.take(i as int));
            assert(path@.take(i + 1).last() == byte);
            assert(before.last() == cut);
            assert(before.drop_last() =~= held);
        }
        if byte == SLASH {
            let full = current;
            done.push(full);
            current = Vec::new();
            proof {
                assert(done@.map_values(as_seq) =~= held.push(cut));
                assert(done@.map_values(as_seq).push(current@) =~= before.push(Seq::empty()));
            }
        } else {
            current.push(byte);
            proof {
                assert(done@.map_values(as_seq).push(current@) =~= before.drop_last().push(
                    before.last().push(byte),
                ));
            }
        }
        i = i + 1;
    }
    assert(path@.take(path@.len() as int) =~= path@);
    let ghost held = done@.map_values(as_seq);
    let ghost cut = current@;
    done.push(current);
    assert(done@.map_values(as_seq) =~= held.push(cut));
    done
}

/// The components of a path.
pub fn components(path: &[u8]) -> (found: Vec<Component>)
    ensures
        component_views(found@) == parts(path@),
{
    let all = split_slashes(path);
    let ghost whole = stretches(path@);
    let ghost as_seq = |v: Vec<u8>| v@;
    let ghost lead: Seq<Part> = if path@.len() > 0 && path@[0] == SLASH {
        seq![Part::RootDir]
    } else {
        Seq::empty()
    };
    let mut found: Vec<Component> = Vec::new();
    if path.len() > 0 && path[0] == SLASH {
        found.push(Component::RootDir);
    }
    let mut i: usize = 0;
    assert(component_views(found@) =~= lead + parts_of(whole, 0));
    while i < all.len()
        invariant
            i <= all@.len(),
            as_seq == (|v: Vec<u8>| v@),
            all@.map_values(as_seq) == whole,
            component_views(found@) == lead + parts_of(whole, i as nat),
        decreases all.len() - i,
    {
        let ghost before = component_views(found@);
        let ghost held = found@;
        assert(whole[i as int] == all@[i as int]@);
        let stretch = &all[i];
        if stretch.len() == 0 {
        } else if stretch.len() == 1 && stretch[0] == DOT {
            assert(stretch@ =~= seq![DOT]);
            if i == 0 {
                found.push(Component::CurDir);
                assert(component_views(found@) =~= before.push(Part::CurDir));
            }
        } else if stretch.len() == 2 && stretch[0] == DOT && stretch[1] == DOT {
            assert(stretch@ =~= seq![DOT, DOT]);
            found.push(Component::ParentDir);
            assert(component_views(found@) =~= before.push(Part::ParentDir));
        } else {
            proof {
                if stretch@ == seq![DOT] {
                    assert(stretch@.len() == 1 && stretch@[0] == DOT);
                }
                if stretch@ == seq![DOT, DOT] {
                    assert(stretch@.len() == 2 && stretch@[0] == DOT && stretch@[1] == DOT);
                }
            }
            let mut name: Vec<u8> = Vec::new();
            push_bytes(&mut name, stretch.as_slice());
            assert(name@ =~= stretch@);
            found.push(Component::Normal { name });
            assert(component_views(found@) =~= before.push(Part::Normal(stretch@)));
        }
        assert(component_views(found@) =~= lead + parts_of(whole, (i + 1) as nat));
        i = i + 1;
    }
    assert(lead + parts_of(whole, whole.len()) =~= parts(path@));
    found
}


/// Names that are not empty.
pub open spec fn nameful(path: Seq<Part>) -> bool {
    forall|i: int|
        0 <= i < path.len() ==> (#[trigger] path[i] matches Part::Normal(name) ==> name.len() > 0)
}

proof fn lemma_parts_of_are_nameful(all: Seq<Seq<u8>>, n: nat)
    requires
        n <= all.len(),
    ensures
        nameful(parts_of(all, n)),
    decreases n,
{
    if n > 0 {
        lemma_parts_of_are_nameful(all, (n - 1) as nat);
    }
}

/// The names of a path's components are not empty.
pub proof fn lemma_parts_are_nameful(path: Seq<u8>)
    ensures
        nameful(parts(path)),
{
    lemma_parts_of_are_nameful(stretches(path), stretches(path).len());
}

/// What remains of a path behind a base, component by component.
pub open spec fn stripped(path: Seq<Part>, base: Seq<Part>) -> Option<Seq<Part>> {
    if base.len() <= path.len() && path.take(base.len() as int) == base {
        Some(path.skip(base.len() as int))
    } else {
        None
    }
}

fn same_component(a: &Component, b: &Component) -> (same: bool)
    ensures
        same == (a.view() == b.view()),
{
    match (a, b) {
        (Component::RootDir, Component::RootDir) => true,
        (Component::CurDir, Component::CurDir) => true,
        (Component::ParentDir, Component::ParentDir) => true,
        (Component::Normal { name: x }, Component::Normal { name: y }) => same_bytes(
            x.as_slice(),
            y.as_slice(),
        ),
        _ => false,
    }
}

fn copy_component(a: &Component) -> (copy: Component)
    ensures
        copy.view() == a.view(),
{
    match a {
        Component::RootDir => Component::RootDir,
        Component::CurDir => Component::CurDir,
        Component::ParentDir => Component::ParentDir,
        Component::Normal { name } => {
            let mut held: Vec<u8> = Vec::new();
            push_bytes(&mut held, name.as_slice());
            assert(held@ =~= name@);
            Component::Normal { name: held }
        },
    }
}

/// The last component of a path, if it is a name.
pub open spec fn last_name(path: Seq<Part>) -> Option<Seq<u8>> {
    if path.len() > 0 {
        match path.last() {
            Part::Normal(name) => Some(name),
            _ => None,
        }
    } else {
        None
    }
}

/// The last component of a path, if it is a name.
pub fn file_name(path: &[u8]) -> (name: Option<Vec<u8>>)
    ensures
        match name {
            Some(found) => last_name(parts(path@)) == Some(found@),
            None => last_name(parts(path@)) is None,
        },
{
    let mut found = components(path);
    let ghost views = parts(path@);
    assert(component_views(found@) == views);
    match found.pop() {
        Some(last) => {
            assert(views.last() == last.view());
            match last {
                Component::Normal { name } => Some(name),
                _ => None,
            }
        },
        None => None,
    }
}


/// Components written out with slashes between them.
pub open spec fn rest_bytes(rest: Seq<Part>) -> Seq<u8> {
    slashed(rest.map_values(|part: Part| part_bytes(part)))
}

pub open spec fn part_bytes(part: Part) -> Seq<u8> {
    match part {
        Part::RootDir => Seq::empty(),
        Part::CurDir => seq![DOT],
        Part::ParentDir => seq![DOT, DOT],
        Part::Normal(name) => name,
    }
}

/// Components written out with slashes between them.
pub fn join_components(found: &Vec<Component>) -> (bytes: Vec<u8>)
    ensures
        bytes@ == rest_bytes(component_views(found@)),
{
    let ghost pieces = component_views(found@).map_values(|part: Part| part_bytes(part));
    let mut bytes: Vec<u8> = Vec::new();
    let mut i: usize = 0;
    assert(pieces.take(0) =~= Seq::<Seq<u8>>::empty());
    while i < found.len()
        invariant
            i <= found@.len(),
            pieces == component_views(found@).map_values(|part: Part| part_bytes(part)),
            bytes@ == slashed(pieces.take(i as int)),
        decreases found.len() - i,
    {
        proof {
            assert(pieces.take(i + 1).drop_last() =~= pieces.take(i as int));
            assert(pieces.take(i + 1).last() == part_bytes(found@[i as int].view()));
        }
        if i > 0 {
            bytes.push(SLASH);
        }
        match &found[i] {
            Component::RootDir => {},
            Component::CurDir => {
                bytes.push(DOT);
            },
            Component::ParentDir => {
                bytes.push(DOT);
                bytes.push(DOT);
            },
            Component::Normal { name } => {
                push_bytes(&mut bytes, name.as_slice());
            },
        }
        assert(bytes@ =~= slashed(pieces.take(i + 1)));
        i = i + 1;
    }
    assert(pieces.take(found@.len() as int) =~= pieces);
    bytes
}


/// A path written out. The root of the filesystem is a slash by itself.
pub open spec fn path_bytes(path: Seq<Part>) -> Seq<u8> {
    if path == seq![Part::RootDir] {
        seq![SLASH]
    } else {
        rest_bytes(path)
    }
}

pub fn is_root_dir(component: &Component) -> (root: bool)
    ensures
        root == (component.view() is RootDir),
{
    match component {
        Component::RootDir => true,
        _ => false,
    }
}

pub fn is_cur_dir(component: &Component) -> (current: bool)
    ensures
        current == (component.view() is CurDir),
{
    match component {
        Component::CurDir => true,
        _ => false,
    }
}

/// Appends copies of the components from an index on.
pub fn append_components(to: &mut Vec<Component>, from: &Vec<Component>, start: usize)
    requires
        start <= from@.len(),
    ensures
        component_views(final(to)@) == component_views(old(to)@) + component_views(from@).skip(
            start as int,
        ),
{
    let ghost before = component_views(to@);
    let ghost all = component_views(from@);
    let mut i: usize = start;
    assert(all.subrange(start as int, start as int) =~= Seq::<Part>::empty());
    assert(before + all.subrange(start as int, start as int) =~= before);
    while i < from.len()
        invariant
            start <= i <= from@.len(),
            all == component_views(from@),
            component_views(to@) == before + all.subrange(start as int, i as int),
        decreases from.len() - i,
    {
        let ghost held = component_views(to@);
        to.push(copy_component(&from[i]));
        assert(component_views(to@) =~= held.push(all[i as int]));
        assert(component_views(to@) =~= before + all.subrange(start as int, i + 1));
        i = i + 1;
    }
    assert(all.subrange(start as int, all.len() as int) =~= all.skip(start as int));
}

/// Whether two paths have the same components.
pub fn same_components(a: &Vec<Component>, b: &Vec<Component>) -> (same: bool)
    ensures
        same == (component_views(a@) == component_views(b@)),
{
    let ghost x = component_views(a@);
    let ghost y = component_views(b@);
    if a.len() != b.len() {
        assert(x.len() != y.len());
        return false;
    }
    assert(x.take(y.len() as int) =~= x);
    is_beneath(a, b)
}

/// Whether a path lies at or beneath another one.
pub fn is_beneath(path: &Vec<Component>, base: &Vec<Component>) -> (within: bool)
    ensures
        within == (stripped(component_views(path@), component_views(base@)) is Some),
{
    let ghost w = component_views(path@);
    let ghost f = component_views(base@);
    if base.len() > path.len() {
        return false;
    }
    let mut i: usize = 0;
    while i < base.len()
        invariant
            i <= base@.len() <= path@.len(),
            component_views(path@) == w,
            component_views(base@) == f,
            forall|j: int| 0 <= j < i ==> w[j] == f[j],
        decreases base.len() - i,
    {
        assert(w[i as int] == path@[i as int].view());
        assert(f[i as int] == base@[i as int].view());
        if !same_component(&path[i], &base[i]) {
            assert(w.take(f.len() as int)[i as int] != f[i as int]);
            return false;
        }
        i = i + 1;
    }
    assert(w.take(f.len() as int) =~= f);
    true
}

/// What remains of a path behind a base, component by component.
pub fn strip_components(path: &Vec<Component>, base: &Vec<Component>) -> (rest: Option<Vec<Component>>)
    ensures
        match rest {
            Some(found) => stripped(component_views(path@), component_views(base@)) == Some(
                component_views(found@),
            ),
            None => stripped(component_views(path@), component_views(base@)) is None,
        },
{
    if !is_beneath(path, base) {
        return None;
    }
    let mut rest: Vec<Component> = Vec::new();
    append_components(&mut rest, path, base.len());
    assert(component_views(rest@) =~= component_views(path@).skip(base@.len() as int));
    Some(rest)
}

/// What remains of a path behind a base, component by component.
pub fn strip_prefix(path: &[u8], base: &[u8]) -> (rest: Option<Vec<Component>>)
    ensures
        match rest {
            Some(found) => stripped(parts(path@), parts(base@)) == Some(component_views(found@)),
            None => stripped(parts(path@), parts(base@)) is None,
        },
{
    strip_components(&components(path), &components(base))
}

proof fn lemma_parts_of_prefix(a: Seq<Seq<u8>>, b: Seq<Seq<u8>>, n: nat)
    requires
        n <= a.len(),
        n <= b.len(),
        forall|i: int| 0 <= i < n ==> a[i] == b[i],
    ensures
        parts_of(a, n) == parts_of(b, n),
    decreases n,
{
    if n > 0 {
        lemma_parts_of_prefix(a, b, (n - 1) as nat);
    }
}

/// A name that is one component wherever it stands.
pub open spec fn plain_name(name: Seq<u8>) -> bool {
    name.len() > 0 && slashless(name) && name != seq![DOT] && name != seq![DOT, DOT]
}

/// A name joined to the path of its directory.
pub open spec fn joined(base: Seq<u8>, name: Seq<u8>) -> Seq<u8> {
    if base.len() == 0 || base.last() == SLASH {
        base + name
    } else {
        base.push(SLASH) + name
    }
}

/// Joining a plain name adds one component.
pub proof fn lemma_parts_of_joined(base: Seq<u8>, name: Seq<u8>)
    requires
        plain_name(name),
    ensures
        parts(joined(base, name)) == parts(base).push(Part::Normal(name)),
{
    let whole = joined(base, name);
    let old = stretches(base);
    lemma_stretches_nonempty(base);
    if base.len() == 0 || base.last() == SLASH {
        lemma_stretches_extend(base, name);
        assert(old.last().len() == 0);
        assert(old.last() + name =~= name);
        let new = stretches(whole);
        assert(new =~= old.drop_last().push(name));
        let n = (old.len() - 1) as nat;
        lemma_parts_of_prefix(new, old, n);
        assert(parts_of(old, old.len()) == parts_of(old, n));
        assert(parts_of(new, new.len()) == parts_of(new, n).push(Part::Normal(name)));
        if base.len() > 0 {
            assert(whole[0] == base[0]);
        } else {
            assert(whole[0] == name[0]);
        }
    } else {
        let opened = base.push(SLASH);
        assert(opened.drop_last() =~= base);
        assert(stretches(opened) == old.push(Seq::empty()));
        lemma_stretches_extend(opened, name);
        let new = stretches(whole);
        assert(Seq::<u8>::empty() + name =~= name);
        assert(new =~= old.push(name));
        lemma_parts_of_prefix(new, old, old.len());
        assert(parts_of(new, new.len()) == parts_of(new, old.len()).push(Part::Normal(name)));
        assert(whole[0] == base[0]);
    }
    assert(parts(whole) =~= parts(base).push(Part::Normal(name)));
}

proof fn lemma_slashed_ends_plainly(names: Seq<Seq<u8>>)
    requires
        names.len() > 0,
        forall|i: int| 0 <= i < names.len() ==> plain_name(#[trigger] names[i]),
    ensures
        slashed(names).len() > 0,
        slashed(names).last() != SLASH,
{
    let last = names.last();
    assert(plain_name(names[names.len() - 1]));
    assert(last[last.len() - 1] != SLASH);
    if names.len() > 1 {
        let front = slashed(names.drop_last()).push(SLASH);
        assert((front + last).last() == last.last());
    }
}

/// A path of names has just these names as its components, in order: a name that starts with a
/// dot is a name like any other.
pub proof fn law_components_are_names(names: Seq<Seq<u8>>)
    requires
        forall|i: int|
            0 <= i < names.len() ==> {
                &&& (#[trigger] names[i]).len() > 0
                &&& names[i] != seq![46u8]
                &&& names[i] != seq![46u8, 46u8]
                &&& !names[i].contains(47u8)
            },
    ensures
        parts(slashed(names)) == names.map_values(|name: Seq<u8>| Part::Normal(name)),
    decreases names.len(),
{
    let expected = names.map_values(|name: Seq<u8>| Part::Normal(name));
    assert forall|i: int| 0 <= i < names.len() implies plain_name(#[trigger] names[i]) by {
        assert forall|j: int| 0 <= j < names[i].len() implies #[trigger] names[i][j] != SLASH by {
            if names[i][j] == SLASH {
                assert(names[i].contains(47u8));
            }
        }
    }
    if names.len() == 0 {
        assert(slashed(names) == Seq::<u8>::empty());
        let all = stretches(Seq::<u8>::empty());
        assert(all =~= seq![Seq::<u8>::empty()]);
        assert(parts_of(all, 0) == Seq::<Part>::empty());
        assert(stretch_part(all[0], true) is None);
        assert(parts_of(all, 1) == parts_of(all, 0));
        assert(parts(slashed(names)) =~= expected);
    } else {
        let front = names.drop_last();
        let last = names.last();
        assert(plain_name(names[names.len() - 1]));
        assert forall|i: int| 0 <= i < front.len() implies {
            &&& (#[trigger] front[i]).len() > 0
            &&& front[i] != seq![46u8]
            &&& front[i] != seq![46u8, 46u8]
            &&& !front[i].contains(47u8)
        } by {
            assert(front[i] == names[i]);
        }
        law_components_are_names(front);
        let base = slashed(front);
        lemma_parts_of_joined(base, last);
        if front.len() > 0 {
            assert forall|i: int| 0 <= i < front.len() implies plain_name(#[trigger] front[i]) by {
                assert(front[i] == names[i]);
            }
            lemma_slashed_ends_plainly(front);
            assert(slashed(names) == joined(base, last));
        } else {
            assert(base.len() == 0);
            assert(slashed(names) =~= joined(base, last));
        }
        assert(parts(slashed(names)) =~= expected);
    }
}

/// What remains of a path behind a base is what makes the path with it; where no rest does, none
/// remains.
pub proof fn law_stripping_undoes_joining(path: Seq<Part>, base: Seq<Part>, rest: Seq<Part>)
    ensures
        stripped(path, base) == Some(rest) <==> path == base + rest,
        stripped(path, base) is None ==> path != base + rest,
{
    if base.len() <= path.len() && path.take(base.len() as int) == base {
        assert(path =~= base + path.skip(base.len() as int));
    }
    assert((base + rest).take(base.len() as int) =~= base);
    assert((base + rest).skip(base.len() as int) =~= rest);
}

/// The name of a path is its last component, and a path that ends otherwise has none.
pub proof fn law_names_of_paths(path: Seq<Part>, name: Seq<u8>)
    ensures
        last_name(path.push(Part::Normal(name))) == Some(name),
        last_name(path.push(Part::ParentDir)) is None,
        last_name(path.push(Part::RootDir)) is None,
        last_name(Seq::<Part>::empty()) is None,
{
}

/// What stands between two slashes is a name, unless it is empty or made of one or two dots: two
/// dots lead to the directory around, a dot counts only at the very beginning, and nothing stands
/// for nothing.
pub proof fn law_what_stands_between_slashes(stretch: Seq<u8>, first: bool)
    ensures
        stretch.len() == 0 ==> stretch_part(stretch, first) is None,
        stretch == seq![46u8] ==> (stretch_part(stretch, first) == if first {
            Some(Part::CurDir)
        } else {
            None
        }),
        stretch == seq![46u8, 46u8] ==> stretch_part(stretch, first) == Some(Part::ParentDir),
        stretch.len() > 0 && stretch != seq![46u8] && stretch != seq![46u8, 46u8] ==> stretch_part(
            stretch,
            first,
        ) == Some(Part::Normal(stretch)),
{
    if stretch == seq![46u8, 46u8] {
        assert(stretch.len() == 2);
        assert(seq![46u8].len() == 1);
    }
}

/// A path starts at the root of the system exactly where it starts with a slash.
pub proof fn law_absolute_paths_start_with_a_slash(path: Seq<u8>)
    ensures
        path.len() > 0 && path[0] == 47 ==> parts(path).len() > 0 && parts(path)[0] == Part::RootDir,
{
}

/// A name is put behind a directory with one slash between them, and with none where the directory
/// is empty or ends in one.
pub proof fn law_joined_names(base: Seq<u8>, name: Seq<u8>)
    ensures
        base.len() == 0 ==> joined(base, name) == name,
        base.len() > 0 && base.last() != 47 ==> joined(base, name) == base + seq![47u8] + name,
        base.len() > 0 && base.last() == 47 ==> joined(base, name) == base + name,
{
    assert(Seq::<u8>::empty() + name =~= name);
    assert(base.push(47u8) + name =~= base + seq![47u8] + name);
    if base.len() == 0 {
        assert(base =~= Seq::<u8>::empty());
    }
}

} // verus!
