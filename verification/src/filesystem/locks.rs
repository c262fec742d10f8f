//! The locks that a mutation takes within the process.
//!
//! A path is locked under its names, under the directories that the names lead through, and
//! under the slots that the names fill in those directories, so that two mutations that reach one
//! object by different paths still meet.
use crate::error::AnyError;
use crate::fault::Fault;
use crate::filesystem::entry::Metadata;
use crate::filesystem::failure::{is_missing, missing_object, typed_fault, typed_filesystem_error};
use crate::filesystem::resolve::{check_public_rel, public_fault, single_view};
use crate::path::{component_views, components, parts, slashed, Component, Part, SLASH};
use crate::text::{copy_bytes, push_bytes};
use vstd::prelude::*;

verus! {

#[derive(Clone, Copy, Debug, PartialEq, Eq, Structural)]
pub enum MutationLockMode {
    Read,
    Write,
}

impl MutationLockMode {
    /// The stronger of two modes.
    pub open spec fn stronger(self, other: MutationLockMode) -> MutationLockMode {
        if self == MutationLockMode::Write {
            self
        } else {
            other
        }
    }

    /// Whether this mode gives all that another does.
    pub open spec fn at_least(self, other: MutationLockMode) -> bool {
        self == MutationLockMode::Write || other == MutationLockMode::Read
    }

    pub fn max(self, other: MutationLockMode) -> (mode: MutationLockMode)
        ensures
            mode == self.stronger(other),
    {
        match self {
            MutationLockMode::Write => MutationLockMode::Write,
            MutationLockMode::Read => other,
        }
    }
}

/// What is locked.
#[derive(Debug)]
pub enum MutationLockKey {
    /// A path as it is named.
    Path { path: Vec<u8> },
    /// A directory, by whatever path it is reached.
    Directory { device: u64, inode: u64 },
    /// The place of a name in a directory, whether or not it is filled.
    Slot { parent_device: u64, parent_inode: u64, name: Vec<u8> },
}

/// What is locked, as a value.
pub enum LockName {
    Path(Seq<u8>),
    Directory((u64, u64)),
    Slot((u64, u64), Seq<u8>),
}

impl MutationLockKey {
    pub open spec fn view(self) -> LockName {
        match self {
            MutationLockKey::Path { path } => LockName::Path(path@),
            MutationLockKey::Directory { device, inode } => LockName::Directory((device, inode)),
            MutationLockKey::Slot { parent_device, parent_inode, name } => LockName::Slot(
                (parent_device, parent_inode),
                name@,
            ),
        }
    }

    /// The numbers that a lock is ordered by.
    pub fn code(&self) -> (code: Vec<u64>)
        ensures
            code@ == lock_code(self@),
    {
        let mut code: Vec<u64> = Vec::new();
        match self {
            MutationLockKey::Directory { device, inode } => {
                code.push(0);
                code.push(*device);
                code.push(*inode);
                assert(code@ =~= lock_code(self@));
            },
            MutationLockKey::Slot { parent_device, parent_inode, name } => {
                code.push(1);
                code.push(*parent_device);
                code.push(*parent_inode);
                push_numbers(&mut code, name.as_slice());
                assert(code@ =~= lock_code(self@));
            },
            MutationLockKey::Path { path } => {
                code.push(2);
                push_numbers(&mut code, path.as_slice());
                assert(code@ =~= lock_code(self@));
            },
        }
        code
    }
}

pub open spec fn numbers(bytes: Seq<u8>) -> Seq<u64> {
    bytes.map_values(|b: u8| b as u64)
}

fn push_numbers(code: &mut Vec<u64>, bytes: &[u8])
    ensures
        final(code)@ == old(code)@ + numbers(bytes@),
{
    let mut i: usize = 0;
    assert(numbers(bytes@).take(0) =~= Seq::<u64>::empty());
    assert(code@ =~= old(code)@ + numbers(bytes@).take(0));
    while i < bytes.len()
        invariant
            i <= bytes@.len(),
            code@ == old(code)@ + numbers(bytes@).take(i as int),
        decreases bytes.len() - i,
    {
        let ghost before = code@;
        code.push(bytes[i] as u64);
        assert(numbers(bytes@).take(i + 1) =~= numbers(bytes@).take(i as int).push(
            bytes@[i as int] as u64,
        ));
        assert(code@ =~= old(code)@ + numbers(bytes@).take(i + 1));
        i = i + 1;
    }
    assert(numbers(bytes@).take(bytes@.len() as int) =~= numbers(bytes@));
}

/// The numbers that a lock is ordered by. Locks are always taken in this order, whichever
/// mutation takes them.
pub open spec fn lock_code(name: LockName) -> Seq<u64> {
    match name {
        LockName::Directory(identity) => seq![0u64, identity.0, identity.1],
        LockName::Slot(identity, entry) => seq![1u64, identity.0, identity.1] + numbers(entry),
        LockName::Path(path) => seq![2u64] + numbers(path),
    }
}

proof fn lemma_numbers_differ(a: Seq<u8>, b: Seq<u8>)
    ensures
        numbers(a) == numbers(b) ==> a == b,
{
    if numbers(a) == numbers(b) {
        assert(a.len() == numbers(a).len());
        assert(b.len() == numbers(b).len());
        assert forall|i: int| 0 <= i < a.len() implies a[i] == b[i] by {
            assert(numbers(a)[i] == numbers(b)[i]);
        }
        assert(a =~= b);
    }
}

/// Different locks have different numbers.
pub proof fn lemma_lock_codes_differ(a: LockName, b: LockName)
    ensures
        lock_code(a) == lock_code(b) ==> a == b,
{
    if lock_code(a) == lock_code(b) {
        assert(lock_code(a)[0] == lock_code(b)[0]);
        match (a, b) {
            (LockName::Directory(x), LockName::Directory(y)) => {
                assert(lock_code(a)[1] == lock_code(b)[1]);
                assert(lock_code(a)[2] == lock_code(b)[2]);
            },
            (LockName::Slot(x, m), LockName::Slot(y, n)) => {
                assert(lock_code(a)[1] == lock_code(b)[1]);
                assert(lock_code(a)[2] == lock_code(b)[2]);
                assert(lock_code(a).skip(3) =~= numbers(m));
                assert(lock_code(b).skip(3) =~= numbers(n));
                lemma_numbers_differ(m, n);
            },
            (LockName::Path(m), LockName::Path(n)) => {
                assert(lock_code(a).skip(1) =~= numbers(m));
                assert(lock_code(b).skip(1) =~= numbers(n));
                lemma_numbers_differ(m, n);
            },
            _ => {},
        }
    }
}

/// The order of number sequences: the first difference decides, and a beginning comes first.
pub open spec fn precedes(a: Seq<u64>, b: Seq<u64>) -> bool
    decreases a.len(),
{
    if b.len() == 0 {
        false
    } else if a.len() == 0 {
        true
    } else if a[0] != b[0] {
        a[0] < b[0]
    } else {
        precedes(a.drop_first(), b.drop_first())
    }
}

proof fn lemma_precedes_transitive(a: Seq<u64>, b: Seq<u64>, c: Seq<u64>)
    requires
        precedes(a, b),
        precedes(b, c),
    ensures
        precedes(a, c),
    decreases a.len(),
{
    if a.len() > 0 && b.len() > 0 && c.len() > 0 && a[0] == b[0] && b[0] == c[0] {
        lemma_precedes_transitive(a.drop_first(), b.drop_first(), c.drop_first());
    }
}

proof fn lemma_precedes_irreflexive(a: Seq<u64>)
    ensures
        !precedes(a, a),
    decreases a.len(),
{
    if a.len() > 0 {
        lemma_precedes_irreflexive(a.drop_first());
    }
}

proof fn lemma_precedes_total(a: Seq<u64>, b: Seq<u64>)
    ensures
        precedes(a, b) || precedes(b, a) || a == b,
    decreases a.len(),
{
    if a.len() > 0 && b.len() > 0 {
        if a[0] == b[0] {
            lemma_precedes_total(a.drop_first(), b.drop_first());
            if a.drop_first() == b.drop_first() {
                assert(a =~= seq![a[0]] + a.drop_first());
                assert(b =~= seq![b[0]] + b.drop_first());
            }
        }
    } else if a.len() == 0 && b.len() == 0 {
        assert(a =~= b);
    }
}

fn code_precedes(a: &Vec<u64>, b: &Vec<u64>) -> (before: bool)
    ensures
        before == precedes(a@, b@),
{
    let mut i: usize = 0;
    assert(a@.skip(0) =~= a@);
    assert(b@.skip(0) =~= b@);
    loop
        invariant
            i <= a@.len(),
            i <= b@.len(),
            precedes(a@, b@) == precedes(a@.skip(i as int), b@.skip(i as int)),
        decreases a.len() - i,
    {
        if i >= b.len() {
            return false;
        }
        if i >= a.len() {
            return true;
        }
        if a[i] != b[i] {
            return a[i] < b[i];
        }
        assert(a@.skip(i as int).drop_first() =~= a@.skip(i + 1));
        assert(b@.skip(i as int).drop_first() =~= b@.skip(i + 1));
        i = i + 1;
    }
}

fn same_code(a: &Vec<u64>, b: &Vec<u64>) -> (same: bool)
    ensures
        same == (a@ == b@),
{
    if a.len() != b.len() {
        return false;
    }
    let mut i: usize = 0;
    while i < a.len()
        invariant
            i <= a@.len(),
            a@.len() == b@.len(),
            forall|j: int| 0 <= j < i ==> a@[j] == b@[j],
        decreases a.len() - i,
    {
        if a[i] != b[i] {
            return false;
        }
        i = i + 1;
    }
    assert(a@ =~= b@);
    true
}

// ---------------------------------------------------------------------------------------------
// Sets of locks
// ---------------------------------------------------------------------------------------------

/// A lock to be taken.
#[derive(Debug)]
pub struct MutationLockRequest {
    pub key: MutationLockKey,
    pub mode: MutationLockMode,
}

impl MutationLockRequest {
    pub fn new(key: MutationLockKey, mode: MutationLockMode) -> (request: MutationLockRequest)
        ensures
            request == (MutationLockRequest { key, mode }),
    {
        MutationLockRequest { key, mode }
    }
}

/// Requests in the order of their numbers, each lock once.
pub open spec fn ordered(requests: Seq<MutationLockRequest>) -> bool {
    forall|i: int, j: int|
        0 <= i < j < requests.len() ==> precedes(
            lock_code((#[trigger] requests[i]).key@),
            lock_code((#[trigger] requests[j]).key@),
        )
}

/// Whether a lock is requested.
pub open spec fn requested(requests: Seq<MutationLockRequest>, name: LockName) -> bool {
    exists|i: int| 0 <= i < requests.len() && (#[trigger] requests[i]).key@ == name
}

/// The locks and the modes in which they are requested.
pub open spec fn lock_modes(requests: Seq<MutationLockRequest>) -> Map<LockName, MutationLockMode> {
    Map::new(
        |name: LockName| requested(requests, name),
        |name: LockName|
            requests[choose|i: int|
                0 <= i < requests.len() && (#[trigger] requests[i]).key@ == name].mode,
    )
}

/// The locks after one more is asked for: a lock that is there already is kept in the stronger of
/// the two modes.
pub open spec fn merged(
    locks: Map<LockName, MutationLockMode>,
    name: LockName,
    mode: MutationLockMode,
) -> Map<LockName, MutationLockMode> {
    locks.insert(
        name,
        if locks.dom().contains(name) {
            locks[name].stronger(mode)
        } else {
            mode
        },
    )
}

/// Merging never gives up a lock or weakens one.
pub open spec fn grown(
    before: Map<LockName, MutationLockMode>,
    after: Map<LockName, MutationLockMode>,
) -> bool {
    forall|name: LockName| #[trigger]
        before.dom().contains(name) ==> after.dom().contains(name) && after[name].at_least(
            before[name],
        )
}

/// The order in which locks are merged does not matter, merging a lock twice is merging it once,
/// and nothing is weakened.
pub proof fn law_merging_locks(
    locks: Map<LockName, MutationLockMode>,
    a: LockName,
    x: MutationLockMode,
    b: LockName,
    y: MutationLockMode,
)
    ensures
        merged(merged(locks, a, x), b, y) == merged(merged(locks, b, y), a, x),
        merged(merged(locks, a, x), a, x) == merged(locks, a, x),
        grown(locks, merged(locks, a, x)),
        merged(locks, a, x)[a].at_least(x),
{
    assert(merged(merged(locks, a, x), b, y) =~= merged(merged(locks, b, y), a, x));
    assert(merged(merged(locks, a, x), a, x) =~= merged(locks, a, x));
}

proof fn lemma_mode_at(requests: Seq<MutationLockRequest>, i: int)
    requires
        ordered(requests),
        0 <= i < requests.len(),
    ensures
        lock_modes(requests).dom().contains(requests[i].key@),
        lock_modes(requests)[requests[i].key@] == requests[i].mode,
{
    let name = requests[i].key@;
    assert(requested(requests, name));
    let found = choose|k: int| 0 <= k < requests.len() && (#[trigger] requests[k]).key@ == name;
    assert(0 <= found < requests.len() && requests[found].key@ == name);
    lemma_precedes_irreflexive(lock_code(name));
    assert(found == i);
}

/// Two requests take the locks that they share in the same order, so that neither waits for a
/// lock of the other while holding one that the other waits for.
pub proof fn law_lock_order_is_fixed(
    a: Seq<MutationLockRequest>,
    b: Seq<MutationLockRequest>,
    i: int,
    j: int,
    k: int,
    l: int,
)
    requires
        ordered(a),
        ordered(b),
        0 <= i < j < a.len(),
        0 <= k < b.len(),
        0 <= l < b.len(),
        a[i].key@ == b[k].key@,
        a[j].key@ == b[l].key@,
    ensures
        k < l,
{
    let x = lock_code(a[i].key@);
    let y = lock_code(a[j].key@);
    assert(precedes(x, y));
    lemma_precedes_irreflexive(x);
    if l < k {
        assert(precedes(y, x));
        lemma_precedes_transitive(x, y, x);
    }
}

/// Locks to be taken, in order.
#[derive(Debug)]
pub struct LockSet {
    requests: Vec<MutationLockRequest>,
}

impl LockSet {
    pub closed spec fn wf(self) -> bool {
        ordered(self.requests@)
    }

    pub closed spec fn view(self) -> Map<LockName, MutationLockMode> {
        lock_modes(self.requests@)
    }

    pub fn new() -> (set: LockSet)
        ensures
            set.wf(),
            set.view() == Map::<LockName, MutationLockMode>::empty(),
    {
        let set = LockSet { requests: Vec::new() };
        assert(set.view() =~= Map::<LockName, MutationLockMode>::empty());
        set
    }

    /// Asks for a lock. One that is there already is kept in the stronger mode.
    #[verifier::rlimit(40)]
    pub fn merge_mutation_lock(&mut self, key: MutationLockKey, mode: MutationLockMode)
        requires
            old(self).wf(),
        ensures
            final(self).wf(),
            final(self).view() == merged(old(self).view(), key@, mode),
    {
        let ghost before = self.requests@;
        let code = key.code();
        let mut at: usize = 0;
        let n: usize = self.requests.len();
        while at < n
            invariant_except_break
                at <= n,
                n == self.requests@.len(),
                self.requests@ == before,
                code@ == lock_code(key@),
                forall|i: int| 0 <= i < at ==> precedes(
                    lock_code((#[trigger] before[i]).key@),
                    code@,
                ),
            ensures
                at <= n,
                self.requests@ == before,
                forall|i: int| 0 <= i < at ==> precedes(
                    lock_code((#[trigger] before[i]).key@),
                    code@,
                ),
                at < n ==> !precedes(lock_code(before[at as int].key@), code@),
            decreases n - at,
        {
            let held = self.requests[at].key.code();
            if !code_precedes(&held, &code) {
                break;
            }
            at = at + 1;
        }
        if at < n {
            let held = self.requests[at].key.code();
            if same_code(&held, &code) {
                let stronger = self.requests[at].mode.max(mode);
                let ghost slot = at as int;
                let mut kept = MutationLockRequest { key, mode: stronger };
                std::mem::swap(&mut kept, &mut self.requests[at]);
                proof {
                    lemma_lock_codes_differ(before[slot].key@, key@);
                    lemma_replaced(before, self.requests@, slot, mode);
                }
                return;
            }
        }
        self.requests.insert(at, MutationLockRequest { key, mode });
        proof {
            lemma_inserted(before, self.requests@, at as int);
        }
    }

    /// The locks in the order in which they are taken.
    pub fn into_requests(self) -> (requests: Vec<MutationLockRequest>)
        requires
            self.wf(),
        ensures
            ordered(requests@),
            lock_modes(requests@) == self.view(),
    {
        self.requests
    }
}

proof fn lemma_replaced(
    before: Seq<MutationLockRequest>,
    after: Seq<MutationLockRequest>,
    at: int,
    mode: MutationLockMode,
)
    requires
        ordered(before),
        0 <= at < before.len(),
        after.len() == before.len(),
        after[at].key@ == before[at].key@,
        after[at].mode == before[at].mode.stronger(mode),
        forall|i: int| 0 <= i < before.len() && i != at ==> after[i] == before[i],
    ensures
        ordered(after),
        lock_modes(after) == merged(lock_modes(before), before[at].key@, mode),
{
    assert forall|i: int, j: int| 0 <= i < j < after.len() implies precedes(
        lock_code((#[trigger] after[i]).key@),
        lock_code((#[trigger] after[j]).key@),
    ) by {
        assert(after[i].key@ == before[i].key@);
        assert(after[j].key@ == before[j].key@);
    }
    let wanted = merged(lock_modes(before), before[at].key@, mode);
    lemma_mode_at(before, at);
    assert forall|name: LockName|
        #![trigger wanted.dom().contains(name)]
        #![trigger lock_modes(after).dom().contains(name)]
        lock_modes(after).dom().contains(name) == wanted.dom().contains(name) && (wanted.dom().contains(
            name,
        ) ==> lock_modes(after)[name] == wanted[name]) by {
        if requested(after, name) {
            let i = choose|i: int| 0 <= i < after.len() && (#[trigger] after[i]).key@ == name;
            lemma_mode_at(after, i);
            assert(before[i].key@ == name);
            lemma_mode_at(before, i);
            if name == before[at].key@ && i != at {
                lemma_precedes_irreflexive(lock_code(name));
                assert(false);
            }
        } else if wanted.dom().contains(name) {
            if name == before[at].key@ {
                assert(after[at].key@ == name);
            } else {
                let i = choose|i: int| 0 <= i < before.len() && (#[trigger] before[i]).key@ == name;
                assert(after[i].key@ == name);
            }
        }
    }
    assert(lock_modes(after) =~= wanted);
}

proof fn lemma_inserted(before: Seq<MutationLockRequest>, after: Seq<MutationLockRequest>, at: int)
    requires
        ordered(before),
        0 <= at <= before.len(),
        after.len() == before.len() + 1,
        forall|i: int| 0 <= i < at ==> after[i] == before[i],
        forall|i: int| at < i < after.len() ==> after[i] == before[i - 1],
        forall|i: int|
            0 <= i < at ==> precedes(
                lock_code((#[trigger] before[i]).key@),
                lock_code(after[at].key@),
            ),
        at < before.len() ==> !precedes(
            lock_code(before[at].key@),
            lock_code(after[at].key@),
        ) && lock_code(before[at].key@) != lock_code(after[at].key@),
    ensures
        ordered(after),
        lock_modes(after) == merged(lock_modes(before), after[at].key@, after[at].mode),
{
    let code = lock_code(after[at].key@);
    if at < before.len() {
        lemma_precedes_total(lock_code(before[at].key@), code);
    }
    assert forall|i: int| at < i < after.len() implies precedes(
        code,
        lock_code((#[trigger] after[i]).key@),
    ) by {
        assert(after[i] == before[i - 1]);
        if i - 1 > at {
            assert(precedes(lock_code(before[at].key@), lock_code(before[i - 1].key@)));
            lemma_precedes_transitive(
                code,
                lock_code(before[at].key@),
                lock_code(before[i - 1].key@),
            );
        }
    }
    assert forall|i: int, j: int| 0 <= i < j < after.len() implies precedes(
        lock_code((#[trigger] after[i]).key@),
        lock_code((#[trigger] after[j]).key@),
    ) by {
        if j < at {
        } else if j == at {
            assert(after[i] == before[i]);
        } else if i == at {
        } else if i < at {
            assert(after[j] == before[j - 1]);
            assert(after[i] == before[i]);
        } else {
            assert(after[j] == before[j - 1]);
            assert(after[i] == before[i - 1]);
        }
    }
    let wanted = merged(lock_modes(before), after[at].key@, after[at].mode);
    assert(!requested(before, after[at].key@)) by {
        if requested(before, after[at].key@) {
            let i = choose|i: int|
                0 <= i < before.len() && (#[trigger] before[i]).key@ == after[at].key@;
            lemma_precedes_irreflexive(code);
            if i > at {
                assert(after[i + 1] == before[i]);
            }
            assert(false);
        }
    }
    lemma_mode_at(after, at);
    assert forall|name: LockName|
        #![trigger wanted.dom().contains(name)]
        #![trigger lock_modes(after).dom().contains(name)]
        lock_modes(after).dom().contains(name) == wanted.dom().contains(name) && (wanted.dom().contains(
            name,
        ) ==> lock_modes(after)[name] == wanted[name]) by {
        if requested(after, name) {
            let i = choose|i: int| 0 <= i < after.len() && (#[trigger] after[i]).key@ == name;
            lemma_mode_at(after, i);
            if i < at {
                lemma_mode_at(before, i);
            } else if i > at {
                assert(after[i] == before[i - 1]);
                lemma_mode_at(before, i - 1);
            }
        } else if wanted.dom().contains(name) {
            if name == after[at].key@ {
                assert(requested(after, name));
            } else {
                let i = choose|i: int| 0 <= i < before.len() && (#[trigger] before[i]).key@ == name;
                if i < at {
                    assert(after[i].key@ == name);
                } else {
                    assert(after[i + 1] == before[i]);
                    assert(after[i + 1].key@ == name);
                }
            }
        }
    }
    assert(lock_modes(after) =~= wanted);
}

// ---------------------------------------------------------------------------------------------
// Resolving intents
// ---------------------------------------------------------------------------------------------

/// A path that a request means to read or to change.
#[derive(Debug)]
pub struct MutationIntent {
    pub path: Vec<u8>,
    pub mode: MutationLockMode,
}

impl MutationIntent {
    pub fn write(path: Vec<u8>) -> (intent: MutationIntent)
        ensures
            intent == (MutationIntent { path, mode: MutationLockMode::Write }),
    {
        MutationIntent { path, mode: MutationLockMode::Write }
    }

    pub fn read(path: Vec<u8>) -> (intent: MutationIntent)
        ensures
            intent == (MutationIntent { path, mode: MutationLockMode::Read }),
    {
        MutationIntent { path, mode: MutationLockMode::Read }
    }
}

/// The names of a path.
pub open spec fn names_of(path: Seq<Part>) -> Seq<Seq<u8>> {
    path.map_values(
        |part: Part|
            match part {
                Part::Normal(name) => name,
                _ => Seq::empty(),
            },
    )
}

pub open spec fn names_view(names: Seq<Vec<u8>>) -> Seq<Seq<u8>> {
    names.map_values(|name: Vec<u8>| name@)
}

/// The path up to and with one of its names.
pub open spec fn prefix_of(names: Seq<Seq<u8>>, index: int) -> Seq<u8> {
    slashed(names.take(index + 1))
}

/// The last name is locked as the request asks, and the names before it for reading.
pub open spec fn mode_at(names: nat, mode: MutationLockMode, index: int) -> MutationLockMode {
    if index == names - 1 {
        mode
    } else {
        MutationLockMode::Read
    }
}

/// The locks with those of one more name: its path, and its slot in the directory that it was
/// looked for in.
pub open spec fn with_name(
    locks: Map<LockName, MutationLockMode>,
    names: Seq<Seq<u8>>,
    mode: MutationLockMode,
    index: int,
    parent: (u64, u64),
) -> Map<LockName, MutationLockMode> {
    let wanted = mode_at(names.len(), mode, index);
    merged(
        merged(locks, LockName::Path(prefix_of(names, index)), wanted),
        LockName::Slot(parent, names[index]),
        wanted,
    )
}

/// The locks with those of the names from one on that have no directory to be in.
pub open spec fn with_rest(
    locks: Map<LockName, MutationLockMode>,
    names: Seq<Seq<u8>>,
    mode: MutationLockMode,
    from: int,
    to: int,
) -> Map<LockName, MutationLockMode>
    decreases to - from,
{
    if to <= from {
        locks
    } else {
        merged(
            with_rest(locks, names, mode, from, to - 1),
            LockName::Path(prefix_of(names, to - 1)),
            mode_at(names.len(), mode, to - 1),
        )
    }
}

/// The locks after an ancestor turned out to be missing. A writer may create it, so it holds the
/// last slot that exists, and the path, exclusively.
pub open spec fn with_missing(
    locks: Map<LockName, MutationLockMode>,
    names: Seq<Seq<u8>>,
    mode: MutationLockMode,
    index: int,
    parent: (u64, u64),
) -> Map<LockName, MutationLockMode> {
    let held = if mode == MutationLockMode::Write {
        merged(
            merged(locks, LockName::Slot(parent, names[index]), MutationLockMode::Write),
            LockName::Path(prefix_of(names, index)),
            MutationLockMode::Write,
        )
    } else {
        locks
    };
    with_rest(held, names, mode, index + 1, names.len() as int)
}

/// The root and the first names of a path are locked, each at least as it has to be.
pub open spec fn covered(
    locks: Map<LockName, MutationLockMode>,
    root: (u64, u64),
    names: Seq<Seq<u8>>,
    mode: MutationLockMode,
    count: int,
) -> bool {
    &&& locks.dom().contains(LockName::Directory(root))
    &&& forall|i: int|
        0 <= i < count ==> {
            &&& locks.dom().contains(LockName::Path(#[trigger] prefix_of(names, i)))
            &&& locks[LockName::Path(prefix_of(names, i))].at_least(mode_at(names.len(), mode, i))
        }
}

proof fn lemma_covered_grows(
    before: Map<LockName, MutationLockMode>,
    after: Map<LockName, MutationLockMode>,
    root: (u64, u64),
    names: Seq<Seq<u8>>,
    mode: MutationLockMode,
    count: int,
)
    requires
        grown(before, after),
        covered(before, root, names, mode, count),
    ensures
        covered(after, root, names, mode, count),
{
}

proof fn lemma_grown_transitive(
    a: Map<LockName, MutationLockMode>,
    b: Map<LockName, MutationLockMode>,
    c: Map<LockName, MutationLockMode>,
)
    requires
        grown(a, b),
        grown(b, c),
    ensures
        grown(a, c),
{
    assert forall|name: LockName| #[trigger] a.dom().contains(name) implies c.dom().contains(name)
        && c[name].at_least(a[name]) by {
        assert(b.dom().contains(name));
    }
}

proof fn lemma_merge_grows(locks: Map<LockName, MutationLockMode>, name: LockName, mode: MutationLockMode)
    ensures
        grown(locks, merged(locks, name, mode)),
        merged(locks, name, mode).dom().contains(name),
        merged(locks, name, mode)[name].at_least(mode),
{
}

// ---------------------------------------------------------------------------------------------
// What a list of intents locks
// ---------------------------------------------------------------------------------------------

/// A lock and the mode in which it is wanted.
pub type Want = (LockName, MutationLockMode);

/// The locks after some more are asked for, one after the other.
pub open spec fn merged_all(locks: Map<LockName, MutationLockMode>, wants: Seq<Want>) -> Map<
    LockName,
    MutationLockMode,
>
    decreases wants.len(),
{
    if wants.len() == 0 {
        locks
    } else {
        merged(merged_all(locks, wants.drop_last()), wants.last().0, wants.last().1)
    }
}

/// The resolution of one intent: the names of its path, its mode, and what was found under the
/// first names in turn, where something was.
pub struct Resolution {
    pub names: Seq<Seq<u8>>,
    pub mode: MutationLockMode,
    pub found: Seq<Option<Metadata>>,
}

impl Resolution {
    /// Every name was looked up, up to one that was not there.
    pub open spec fn complete(self) -> bool {
        &&& self.found.len() <= self.names.len()
        &&& forall|k: int| 0 <= k < self.found.len() - 1 ==> #[trigger] self.found[k] is Some
        &&& self.found.len() < self.names.len() ==> self.found.len() > 0 && self.found.last() is None
    }

    /// The directory that a name was looked for in.
    pub open spec fn parent(self, root: (u64, u64), index: int) -> (u64, u64) {
        if index == 0 {
            root
        } else {
            self.found[index - 1]->Some_0.identity()
        }
    }

    /// What a name calls for: its path, and its slot in the directory that it is looked for in.
    pub open spec fn name_wants(self, root: (u64, u64), index: int) -> Seq<Want> {
        let wanted = mode_at(self.names.len(), self.mode, index);
        seq![
            (LockName::Path(prefix_of(self.names, index)), wanted),
            (LockName::Slot(self.parent(root, index), self.names[index]), wanted),
        ]
    }

    /// What names without a directory to be in call for.
    pub open spec fn rest_wants(self, from: int, to: int) -> Seq<Want>
        decreases to - from,
    {
        if to <= from {
            Seq::empty()
        } else {
            self.rest_wants(from, to - 1).push(
                (
                    LockName::Path(prefix_of(self.names, to - 1)),
                    mode_at(self.names.len(), self.mode, to - 1),
                ),
            )
        }
    }

    /// What a missing ancestor calls for.
    pub open spec fn missing_wants(self, root: (u64, u64), index: int) -> Seq<Want> {
        let held = if self.mode == MutationLockMode::Write {
            seq![
                (
                    LockName::Slot(self.parent(root, index), self.names[index]),
                    MutationLockMode::Write,
                ),
                (LockName::Path(prefix_of(self.names, index)), MutationLockMode::Write),
            ]
        } else {
            Seq::empty()
        };
        held + self.rest_wants(index + 1, self.names.len() as int)
    }

    /// What an intent calls for before anything is looked up.
    pub open spec fn first_wants(self, root: (u64, u64)) -> Seq<Want> {
        if self.names.len() == 0 {
            seq![(LockName::Directory(root), self.mode)]
        } else {
            seq![(LockName::Directory(root), MutationLockMode::Read)] + self.name_wants(root, 0)
        }
    }

    /// What the lookup of a name calls for.
    pub open spec fn lookup_wants(self, root: (u64, u64), index: int) -> Seq<Want> {
        let leaf = index == self.names.len() - 1;
        match self.found[index] {
            Some(metadata) => if !leaf {
                seq![(LockName::Directory(metadata.identity()), MutationLockMode::Read)]
                    + self.name_wants(root, index + 1)
            } else if metadata.spec_is_dir() {
                seq![(LockName::Directory(metadata.identity()), self.mode)]
            } else {
                Seq::empty()
            },
            None => if leaf {
                Seq::empty()
            } else {
                self.missing_wants(root, index)
            },
        }
    }

    /// What an intent calls for after so many lookups.
    pub open spec fn wants(self, root: (u64, u64), lookups: nat) -> Seq<Want>
        decreases lookups,
    {
        if lookups == 0 {
            self.first_wants(root)
        } else {
            self.wants(root, (lookups - 1) as nat) + self.lookup_wants(root, lookups - 1)
        }
    }

    /// Whether a filesystem shows what was found. `world` tells what opening a path gives there,
    /// as a directory or as whatever it is.
    pub open spec fn told_by(self, world: spec_fn(Seq<u8>, bool) -> Option<Metadata>) -> bool {
        forall|k: int|
            0 <= k < self.found.len() ==> #[trigger] self.found[k] == world(
                prefix_of(self.names, k),
                k < self.names.len() - 1,
            )
    }
}

/// What a list of intents calls for.
pub open spec fn list_wants(root: (u64, u64), list: Seq<Resolution>) -> Seq<Want>
    decreases list.len(),
{
    if list.len() == 0 {
        Seq::empty()
    } else {
        list_wants(root, list.drop_last()) + list.last().wants(root, list.last().found.len())
    }
}

/// The locks of a list of intents.
pub open spec fn locks_of(root: (u64, u64), list: Seq<Resolution>) -> Map<
    LockName,
    MutationLockMode,
> {
    merged_all(Map::empty(), list_wants(root, list))
}

/// Where the resolution of one path stands.
pub struct IntentProgress {
    pub names: Vec<Vec<u8>>,
    pub mode: MutationLockMode,
    pub index: usize,
    pub prefix: Vec<u8>,
    /// The directory that the current name is looked for in.
    pub parent: (u64, u64),
    /// What was found under the names before.
    pub found: Ghost<Seq<Option<Metadata>>>,
}

impl IntentProgress {
    pub open spec fn wf(self) -> bool {
        &&& self.index < self.names@.len()
        &&& self.prefix@ == prefix_of(names_view(self.names@), self.index as int)
        &&& self.found@.len() == self.index
        &&& forall|k: int| 0 <= k < self.index ==> #[trigger] self.found@[k] is Some
    }

    /// The resolution so far.
    pub open spec fn resolution(self) -> Resolution {
        Resolution { names: names_view(self.names@), mode: self.mode, found: self.found@ }
    }
}

/// Turns what requests mean to do into locks.
pub struct LockResolver {
    pub single: Option<Vec<u8>>,
    pub root: (u64, u64),
    pub locks: LockSet,
    pub current: Option<IntentProgress>,
    /// The intents that are resolved, in the order in which they came.
    pub resolved: Ghost<Seq<Resolution>>,
}

#[derive(Debug)]
pub enum LockStep {
    /// Open this path, as a directory or as whatever it is.
    Open { path: Vec<u8>, directory: bool },
    /// The path is resolved.
    Resolved,
}

/// What opening a path gave.
#[allow(inconsistent_fields)]
#[derive(Debug)]
pub enum Lookup {
    Unopened { error: AnyError },
    Unread { error: AnyError },
    Found { metadata: Metadata },
}

impl Lookup {
    /// What is there.
    pub open spec fn seen(self) -> Option<Metadata> {
        match self {
            Lookup::Found { metadata } => Some(metadata),
            _ => None,
        }
    }
}

impl LockResolver {
    /// What the resolved intents and the current one call for.
    pub open spec fn wanted(self) -> Seq<Want> {
        list_wants(self.root, self.resolved@) + match self.current {
            Some(progress) => progress.resolution().wants(self.root, progress.index as nat),
            None => Seq::empty(),
        }
    }

    /// The locks are those that the intents so far call for.
    pub open spec fn wf(self) -> bool {
        &&& self.locks.wf()
        &&& self.locks.view() == merged_all(Map::empty(), self.wanted())
        &&& forall|i: int| 0 <= i < self.resolved@.len() ==> (#[trigger] self.resolved@[i]).complete()
        &&& (self.current matches Some(progress) ==> progress.parent
            == progress.resolution().parent(self.root, progress.index as int))
        &&& (self.current matches Some(progress) ==> progress.wf() && covered(
            self.locks.view(),
            self.root,
            names_view(progress.names@),
            progress.mode,
            progress.index + 1,
        ))
    }

    pub open spec fn same_root(self, other: LockResolver) -> bool {
        self.single == other.single && self.root == other.root
    }

    pub fn new(single: Option<Vec<u8>>, root: &Metadata) -> (resolver: LockResolver)
        ensures
            resolver.wf(),
            resolver.single == single,
            resolver.root == root.identity(),
            resolver.locks.view() == Map::<LockName, MutationLockMode>::empty(),
            resolver.current is None,
            resolver.resolved@.len() == 0,
    {
        let resolver = LockResolver {
            single,
            root: (root.dev, root.ino),
            locks: LockSet::new(),
            current: None,
            resolved: Ghost(Seq::empty()),
        };
        assert(resolver.wanted() =~= Seq::<Want>::empty());
        resolver
    }

    fn lock_name(&mut self, names: &Vec<Vec<u8>>, mode: MutationLockMode, index: usize, prefix: &Vec<u8>, parent: (u64, u64))
        requires
            old(self).locks.wf(),
            index < names@.len(),
            prefix@ == prefix_of(names_view(names@), index as int),
            covered(
                old(self).locks.view(),
                old(self).root,
                names_view(names@),
                mode,
                index as int,
            ),
        ensures
            final(self).locks.wf(),
            final(self).same_root(*old(self)),
            final(self).current == old(self).current,
            final(self).resolved == old(self).resolved,
            final(self).locks.view() == with_name(
                old(self).locks.view(),
                names_view(names@),
                mode,
                index as int,
                parent,
            ),
            covered(
                final(self).locks.view(),
                old(self).root,
                names_view(names@),
                mode,
                index + 1,
            ),
            grown(old(self).locks.view(), final(self).locks.view()),
    {
        let wanted = if index == names.len() - 1 {
            mode
        } else {
            MutationLockMode::Read
        };
        let ghost all = names_view(names@);
        let ghost before = self.locks.view();
        let path_key = MutationLockKey::Path { path: copy_bytes(prefix.as_slice()) };
        let slot_key = MutationLockKey::Slot {
            parent_device: parent.0,
            parent_inode: parent.1,
            name: copy_bytes(names[index].as_slice()),
        };
        self.locks.merge_mutation_lock(path_key, wanted);
        let ghost middle = self.locks.view();
        self.locks.merge_mutation_lock(slot_key, wanted);
        proof {
            assert(all[index as int] == names@[index as int]@);
            lemma_merge_grows(before, path_key@, wanted);
            lemma_merge_grows(middle, slot_key@, wanted);
            lemma_grown_transitive(before, middle, self.locks.view());
            lemma_covered_grows(before, middle, self.root, all, mode, index as int);
            assert(covered(middle, self.root, all, mode, index + 1));
            lemma_covered_grows(middle, self.locks.view(), self.root, all, mode, index + 1);
        }
    }

    /// The start on a path.
    pub open spec fn has_begun(
        before: LockResolver,
        after: LockResolver,
        intent: MutationIntent,
        step: Result<LockStep, AnyError>,
    ) -> bool {
        &&& after.wf()
        &&& after.same_root(before)
        &&& ({
            let names = names_of(parts(intent.path@));
            let fault = public_fault(intent.path@, single_view(before.single));
            match step {
                Err(error) => fault == Some(error@) && after == before,
                Ok(LockStep::Resolved) => {
                    &&& fault is None
                    &&& names.len() == 0
                    &&& after.current is None
                    &&& after.resolved@ == before.resolved@.push(
                        Resolution { names, mode: intent.mode, found: Seq::empty() },
                    )
                    &&& after.locks.view() == merged(
                        before.locks.view(),
                        LockName::Directory(before.root),
                        intent.mode,
                    )
                },
                Ok(LockStep::Open { path, directory }) => {
                    &&& fault is None
                    &&& names.len() > 0
                    &&& path@ == prefix_of(names, 0)
                    &&& directory == (names.len() > 1)
                    &&& after.locks.view() == with_name(
                        merged(
                            before.locks.view(),
                            LockName::Directory(before.root),
                            MutationLockMode::Read,
                        ),
                        names,
                        intent.mode,
                        0,
                        before.root,
                    )
                    &&& after.resolved == before.resolved
                    &&& after.current matches Some(progress) && names_view(
                        progress.names@,
                    ) == names && progress.mode == intent.mode && progress.index == 0
                        && progress.parent == before.root
                },
            }
        })
    }

    /// Starts on a path. The root is always locked at least for reading.
    #[verifier::rlimit(30)]
    pub fn begin(&mut self, intent: &MutationIntent) -> (step: Result<LockStep, AnyError>)
        requires
            old(self).wf(),
            old(self).current is None,
        ensures
            LockResolver::has_begun(*old(self), *final(self), *intent, step),
    {
        match check_public_rel(intent.path.as_slice(), &self.single) {
            Ok(()) => {},
            Err(error) => {
                return Err(error);
            },
        }
        let names = path_names(intent.path.as_slice());
        let root_key = MutationLockKey::Directory { device: self.root.0, inode: self.root.1 };
        let ghost all = names_view(names@);
        let ghost before = self.locks.view();
        let ghost list = self.resolved@;
        let ghost opened = Resolution { names: all, mode: intent.mode, found: Seq::empty() };
        if names.len() == 0 {
            self.locks.merge_mutation_lock(root_key, intent.mode);
            proof {
                assert(all =~= Seq::<Seq<u8>>::empty());
                self.resolved@ = list.push(opened);
                assert(list.push(opened).drop_last() =~= list);
                assert(old(self).wanted() =~= list_wants(self.root, list));
                assert(self.wanted() =~= old(self).wanted() + opened.wants(self.root, 0));
                let first = opened.first_wants(self.root);
                lemma_merged_one(before, first[0]);
                assert(first =~= seq![first[0]]);
                lemma_merged_all_concat(Map::empty(), old(self).wanted(), first);
            }
            return Ok(LockStep::Resolved);
        }
        self.locks.merge_mutation_lock(root_key, MutationLockMode::Read);
        proof {
            lemma_merge_grows(before, root_key@, MutationLockMode::Read);
            assert(covered(self.locks.view(), self.root, all, intent.mode, 0));
            assert(all.take(1) =~= seq![all[0]]);
            assert(all[0] == names@[0]@);
            assert(prefix_of(all, 0) == names@[0]@);
        }
        let prefix = copy_bytes(names[0].as_slice());
        let root = self.root;
        self.lock_name(&names, intent.mode, 0, &prefix, root);
        let path = copy_bytes(prefix.as_slice());
        let directory = names.len() > 1;
        self.current = Some(
            IntentProgress {
                names,
                mode: intent.mode,
                index: 0,
                prefix,
                parent: root,
                found: Ghost(Seq::empty()),
            },
        );
        proof {
            assert(old(self).wanted() =~= list_wants(self.root, list));
            assert(self.wanted() =~= old(self).wanted() + opened.first_wants(self.root));
            lemma_first_wants(before, self.root, opened);
            lemma_merged_all_concat(
                Map::empty(),
                old(self).wanted(),
                opened.first_wants(self.root),
            );
        }
        Ok(LockStep::Open { path, directory })
    }

    /// Why a lookup ends the resolution. A name that is not there does not.
    pub open spec fn lookup_fault(leaf: bool, lookup: Lookup) -> Option<Fault> {
        match lookup {
            Lookup::Found { .. } => None,
            Lookup::Unread { error } => Some(
                if leaf {
                    typed_fault("reading a mutation-lock endpoint"@, error@)
                } else {
                    typed_fault("reading a mutation-lock path prefix"@, error@)
                },
            ),
            Lookup::Unopened { error } => {
                let typed = if leaf {
                    typed_fault("opening a mutation-lock endpoint"@, error@)
                } else {
                    typed_fault("opening a mutation-lock path prefix"@, error@)
                };
                if is_missing(typed) {
                    None
                } else {
                    Some(typed)
                }
            },
        }
    }

    /// The step after opening a path.
    pub open spec fn has_answered(
        before: LockResolver,
        after: LockResolver,
        lookup: Lookup,
        step: Result<LockStep, AnyError>,
    ) -> bool {
        &&& after.wf()
        &&& after.same_root(before)
        &&& ({
            let progress = before.current->Some_0;
            let names = names_view(progress.names@);
            let mode = progress.mode;
            let index = progress.index as int;
            let leaf = index == names.len() - 1;
            let held = before.locks.view();
            let fault = LockResolver::lookup_fault(leaf, lookup);
            match step {
                Err(error) => fault == Some(error@) && after == before,
                Ok(LockStep::Resolved) => {
                    &&& fault is None
                    &&& after.current is None
                    &&& after.resolved@ == before.resolved@.push(
                        Resolution { names, mode, found: progress.found@.push(lookup.seen()) },
                    )
                    &&& covered(
                        after.locks.view(),
                        before.root,
                        names,
                        mode,
                        names.len() as int,
                    )
                    &&& match lookup {
                        Lookup::Found { metadata } => leaf && after.locks.view() == (
                        if metadata.spec_is_dir() {
                            merged(held, LockName::Directory(metadata.identity()), mode)
                        } else {
                            held
                        }),
                        _ => after.locks.view() == (if leaf {
                            held
                        } else {
                            with_missing(held, names, mode, index, progress.parent)
                        }),
                    }
                },
                Ok(LockStep::Open { path, directory }) => {
                    &&& fault is None
                    &&& !leaf
                    &&& after.resolved == before.resolved
                    &&& lookup matches Lookup::Found { metadata } && {
                        &&& path@ == prefix_of(names, index + 1)
                        &&& directory == (index + 1 < names.len() - 1)
                        &&& after.locks.view() == with_name(
                            merged(
                                held,
                                LockName::Directory(metadata.identity()),
                                MutationLockMode::Read,
                            ),
                            names,
                            mode,
                            index + 1,
                            metadata.identity(),
                        )
                        &&& after.current matches Some(next) && names_view(next.names@)
                            == names && next.mode == mode && next.index == index + 1
                            && next.parent == metadata.identity() && next.found@
                            == progress.found@.push(Some(metadata))
                    }
                },
            }
        })
    }

    /// Takes what opening the current path gave.
    #[verifier::rlimit(60)]
    pub fn answer(&mut self, lookup: Lookup) -> (step: Result<LockStep, AnyError>)
        requires
            old(self).wf(),
            old(self).current is Some,
        ensures
            LockResolver::has_answered(*old(self), *final(self), lookup, step),
    {
        let mut current = None;
        std::mem::swap(&mut current, &mut self.current);
        let progress = match current {
            Some(progress) => progress,
            None => {
                assert(false);
                return Ok(LockStep::Resolved);
            },
        };
        let ghost all = names_view(progress.names@);
        let ghost before = self.locks.view();
        let ghost list = self.resolved@;
        let ghost so_far = progress.resolution();
        let ghost done = Resolution {
            names: all,
            mode: progress.mode,
            found: progress.found@.push(lookup.seen()),
        };
        proof {
            lemma_wants_of_more(self.root, so_far, done, progress.index as nat);
            assert(done.found.drop_last() =~= progress.found@);
            assert(done.found.last() == lookup.seen());
            assert forall|k: int| 0 <= k < progress.index implies #[trigger] done.found[k]
                is Some by {
                assert(done.found[k] == progress.found@[k]);
            }
            assert(done.parent(self.root, progress.index as int) == progress.parent);
        }
        let count: usize = progress.names.len();
        let leaf = progress.index == count - 1;
        match lookup {
            Lookup::Unread { error } => {
                self.current = Some(progress);
                if leaf {
                    Err(typed_filesystem_error("reading a mutation-lock endpoint", error))
                } else {
                    Err(typed_filesystem_error("reading a mutation-lock path prefix", error))
                }
            },
            Lookup::Unopened { error } => {
                let error = if leaf {
                    typed_filesystem_error("opening a mutation-lock endpoint", error)
                } else {
                    typed_filesystem_error("opening a mutation-lock path prefix", error)
                };
                if !missing_object(&error) {
                    self.current = Some(progress);
                    return Err(error);
                }
                if !leaf {
                    self.lock_missing(&progress);
                }
                proof {
                    self.resolved@ = list.push(done);
                    assert(done.complete());
                    lemma_resolved_wants(*old(self), *self, done, before);
                }
                Ok(LockStep::Resolved)
            },
            Lookup::Found { metadata } => {
                let identity = (metadata.dev, metadata.ino);
                let key = MutationLockKey::Directory { device: metadata.dev, inode: metadata.ino };
                if leaf {
                    if metadata.is_dir() {
                        self.locks.merge_mutation_lock(key, progress.mode);
                        proof {
                            lemma_merge_grows(before, key@, progress.mode);
                            lemma_covered_grows(
                                before,
                                self.locks.view(),
                                self.root,
                                all,
                                progress.mode,
                                count as int,
                            );
                        }
                    }
                    proof {
                        self.resolved@ = list.push(done);
                        assert(done.complete());
                        lemma_resolved_wants(*old(self), *self, done, before);
                    }
                    return Ok(LockStep::Resolved);
                }
                self.locks.merge_mutation_lock(key, MutationLockMode::Read);
                let index: usize = progress.index + 1;
                proof {
                    lemma_merge_grows(before, key@, MutationLockMode::Read);
                    lemma_covered_grows(
                        before,
                        self.locks.view(),
                        self.root,
                        all,
                        progress.mode,
                        index as int,
                    );
                }
                let mut prefix = copy_bytes(progress.prefix.as_slice());
                prefix.push(SLASH);
                push_bytes(&mut prefix, progress.names[index].as_slice());
                proof {
                    assert(all[index as int] == progress.names@[index as int]@);
                    lemma_next_prefix(all, index as int);
                }
                self.lock_name(&progress.names, progress.mode, index, &prefix, identity);
                let path = copy_bytes(prefix.as_slice());
                let directory = index < count - 1;
                self.current = Some(
                    IntentProgress {
                        names: progress.names,
                        mode: progress.mode,
                        index,
                        prefix,
                        parent: identity,
                        found: Ghost(done.found),
                    },
                );
                proof {
                    let more = done.lookup_wants(self.root, index - 1);
                    lemma_lookup_wants(before, self.root, done, index - 1);
                    assert(self.wanted() =~= old(self).wanted() + more);
                    lemma_merged_all_concat(Map::empty(), old(self).wanted(), more);
                }
                Ok(LockStep::Open { path, directory })
            },
        }
    }

    /// Locks what a missing ancestor calls for.
    #[verifier::rlimit(60)]
    fn lock_missing(&mut self, progress: &IntentProgress)
        requires
            old(self).locks.wf(),
            progress.wf(),
            covered(
                old(self).locks.view(),
                old(self).root,
                names_view(progress.names@),
                progress.mode,
                progress.index + 1,
            ),
        ensures
            final(self).locks.wf(),
            final(self).same_root(*old(self)),
            final(self).current == old(self).current,
            final(self).resolved == old(self).resolved,
            final(self).locks.view() == with_missing(
                old(self).locks.view(),
                names_view(progress.names@),
                progress.mode,
                progress.index as int,
                progress.parent,
            ),
            covered(
                final(self).locks.view(),
                old(self).root,
                names_view(progress.names@),
                progress.mode,
                progress.names@.len() as int,
            ),
    {
        let ghost all = names_view(progress.names@);
        let ghost root = self.root;
        let ghost before = self.locks.view();
        let count: usize = progress.names.len();
        if progress.mode == MutationLockMode::Write {
            let slot_key = MutationLockKey::Slot {
                parent_device: progress.parent.0,
                parent_inode: progress.parent.1,
                name: copy_bytes(progress.names[progress.index].as_slice()),
            };
            let path_key = MutationLockKey::Path { path: copy_bytes(progress.prefix.as_slice()) };
            self.locks.merge_mutation_lock(slot_key, MutationLockMode::Write);
            let ghost middle = self.locks.view();
            self.locks.merge_mutation_lock(path_key, MutationLockMode::Write);
            proof {
                assert(all[progress.index as int] == progress.names@[progress.index as int]@);
                lemma_merge_grows(before, slot_key@, MutationLockMode::Write);
                lemma_merge_grows(middle, path_key@, MutationLockMode::Write);
                lemma_grown_transitive(before, middle, self.locks.view());
                lemma_covered_grows(
                    before,
                    self.locks.view(),
                    root,
                    all,
                    progress.mode,
                    progress.index + 1,
                );
            }
        }
        let ghost held = self.locks.view();
        let mut prefix = copy_bytes(progress.prefix.as_slice());
        let mut index: usize = progress.index + 1;
        while index < count
            invariant
                progress.wf(),
                all == names_view(progress.names@),
                count == progress.names@.len(),
                progress.index + 1 <= index <= count,
                prefix@ == prefix_of(all, index - 1),
                self.locks.wf(),
                self.same_root(*old(self)),
                self.current == old(self).current,
                self.resolved == old(self).resolved,
                root == old(self).root,
                self.locks.view() == with_rest(
                    held,
                    all,
                    progress.mode,
                    progress.index + 1,
                    index as int,
                ),
                covered(self.locks.view(), root, all, progress.mode, index as int),
            decreases count - index,
        {
            let ghost now = self.locks.view();
            prefix.push(SLASH);
            push_bytes(&mut prefix, progress.names[index].as_slice());
            proof {
                assert(all[index as int] == progress.names@[index as int]@);
                lemma_next_prefix(all, index as int);
            }
            let wanted = if index == count - 1 {
                progress.mode
            } else {
                MutationLockMode::Read
            };
            let key = MutationLockKey::Path { path: copy_bytes(prefix.as_slice()) };
            self.locks.merge_mutation_lock(key, wanted);
            proof {
                lemma_merge_grows(now, key@, wanted);
                lemma_covered_grows(
                    now,
                    self.locks.view(),
                    root,
                    all,
                    progress.mode,
                    index as int,
                );
                assert(covered(self.locks.view(), root, all, progress.mode, index + 1));
            }
            index = index + 1;
        }
    }

    /// The locks of all resolved paths.
    pub open spec fn resolves(
        resolver: LockResolver,
        requests: Seq<MutationLockRequest>,
    ) -> bool {
        &&& ordered(requests)
        &&& lock_modes(requests) == resolver.locks.view()
        &&& resolver.current is None ==> {
            &&& lock_modes(requests) == locks_of(resolver.root, resolver.resolved@)
            &&& forall|i: int|
                0 <= i < resolver.resolved@.len() ==> covered(
                    lock_modes(requests),
                    resolver.root,
                    (#[trigger] resolver.resolved@[i]).names,
                    resolver.resolved@[i].mode,
                    resolver.resolved@[i].names.len() as int,
                )
        }
    }

    /// The locks of all resolved paths, in the order in which they are taken.
    pub fn resolve_mutation_locks_sync(self) -> (requests: Vec<MutationLockRequest>)
        requires
            self.wf(),
        ensures
            LockResolver::resolves(self, requests@),
    {
        proof {
            if self.current is None {
                assert(self.wanted() =~= list_wants(self.root, self.resolved@));
                assert forall|i: int| 0 <= i < self.resolved@.len() implies covered(
                    self.locks.view(),
                    self.root,
                    (#[trigger] self.resolved@[i]).names,
                    self.resolved@[i].mode,
                    self.resolved@[i].names.len() as int,
                ) by {
                    law_locks_of_a_list_cover_every_intent(self.root, self.resolved@, i);
                }
            }
        }
        self.locks.into_requests()
    }
}

proof fn lemma_merged_one(locks: Map<LockName, MutationLockMode>, want: Want)
    ensures
        merged_all(locks, seq![want]) == merged(locks, want.0, want.1),
{
    assert(seq![want].drop_last() =~= Seq::<Want>::empty());
    assert(merged_all(locks, Seq::<Want>::empty()) == locks);
}

proof fn lemma_merged_two(locks: Map<LockName, MutationLockMode>, a: Want, b: Want)
    ensures
        merged_all(locks, seq![a, b]) == merged(merged(locks, a.0, a.1), b.0, b.1),
{
    assert(seq![a, b].drop_last() =~= seq![a]);
    lemma_merged_one(locks, a);
}

proof fn lemma_merged_all_concat(
    locks: Map<LockName, MutationLockMode>,
    a: Seq<Want>,
    b: Seq<Want>,
)
    ensures
        merged_all(locks, a + b) == merged_all(merged_all(locks, a), b),
    decreases b.len(),
{
    if b.len() == 0 {
        assert(a + b =~= a);
    } else {
        assert((a + b).drop_last() =~= a + b.drop_last());
        assert((a + b).last() == b.last());
        lemma_merged_all_concat(locks, a, b.drop_last());
    }
}

/// What the first names call for does not depend on what is found later.
proof fn lemma_wants_of_more(root: (u64, u64), less: Resolution, more: Resolution, lookups: nat)
    requires
        less.names == more.names,
        less.mode == more.mode,
        less.found.len() <= more.found.len(),
        forall|k: int| 0 <= k < less.found.len() ==> #[trigger] more.found[k] == less.found[k],
        lookups <= less.found.len(),
    ensures
        less.wants(root, lookups) == more.wants(root, lookups),
    decreases lookups,
{
    if lookups > 0 {
        lemma_wants_of_more(root, less, more, (lookups - 1) as nat);
        let k = lookups - 1;
        assert(more.found[k] == less.found[k]);
        if k > 0 {
            assert(more.found[k - 1] == less.found[k - 1]);
        }
        lemma_rest_wants_of_more(less, more, k + 1, less.names.len() as int);
        assert(less.lookup_wants(root, k) =~= more.lookup_wants(root, k));
    } else {
        assert(less.first_wants(root) =~= more.first_wants(root));
    }
}

proof fn lemma_rest_wants_of_more(less: Resolution, more: Resolution, from: int, to: int)
    requires
        less.names == more.names,
        less.mode == more.mode,
    ensures
        less.rest_wants(from, to) == more.rest_wants(from, to),
    decreases to - from,
{
    if to > from {
        lemma_rest_wants_of_more(less, more, from, to - 1);
    }
}

proof fn lemma_name_wants(
    locks: Map<LockName, MutationLockMode>,
    root: (u64, u64),
    r: Resolution,
    index: int,
)
    ensures
        merged_all(locks, r.name_wants(root, index)) == with_name(
            locks,
            r.names,
            r.mode,
            index,
            r.parent(root, index),
        ),
{
    let wants = r.name_wants(root, index);
    lemma_merged_two(locks, wants[0], wants[1]);
    assert(wants =~= seq![wants[0], wants[1]]);
}

proof fn lemma_first_wants(
    locks: Map<LockName, MutationLockMode>,
    root: (u64, u64),
    r: Resolution,
)
    requires
        r.names.len() > 0,
    ensures
        merged_all(locks, r.first_wants(root)) == with_name(
            merged(locks, LockName::Directory(root), MutationLockMode::Read),
            r.names,
            r.mode,
            0,
            root,
        ),
{
    let first = (LockName::Directory(root), MutationLockMode::Read);
    lemma_merged_one(locks, first);
    lemma_merged_all_concat(locks, seq![first], r.name_wants(root, 0));
    lemma_name_wants(merged(locks, first.0, first.1), root, r, 0);
}

proof fn lemma_rest_wants(
    locks: Map<LockName, MutationLockMode>,
    r: Resolution,
    from: int,
    to: int,
)
    ensures
        merged_all(locks, r.rest_wants(from, to)) == with_rest(locks, r.names, r.mode, from, to),
    decreases to - from,
{
    if to > from {
        lemma_rest_wants(locks, r, from, to - 1);
        assert(r.rest_wants(from, to).drop_last() =~= r.rest_wants(from, to - 1));
    }
}

/// What a lookup adds to the locks.
pub open spec fn with_lookup(
    locks: Map<LockName, MutationLockMode>,
    root: (u64, u64),
    r: Resolution,
    index: int,
) -> Map<LockName, MutationLockMode> {
    let leaf = index == r.names.len() - 1;
    match r.found[index] {
        Some(metadata) => if !leaf {
            with_name(
                merged(locks, LockName::Directory(metadata.identity()), MutationLockMode::Read),
                r.names,
                r.mode,
                index + 1,
                metadata.identity(),
            )
        } else if metadata.spec_is_dir() {
            merged(locks, LockName::Directory(metadata.identity()), r.mode)
        } else {
            locks
        },
        None => if leaf {
            locks
        } else {
            with_missing(locks, r.names, r.mode, index, r.parent(root, index))
        },
    }
}

proof fn lemma_lookup_wants(
    locks: Map<LockName, MutationLockMode>,
    root: (u64, u64),
    r: Resolution,
    index: int,
)
    requires
        0 <= index < r.found.len(),
    ensures
        merged_all(locks, r.lookup_wants(root, index)) == with_lookup(locks, root, r, index),
{
    let leaf = index == r.names.len() - 1;
    match r.found[index] {
        Some(metadata) => {
            let found = LockName::Directory(metadata.identity());
            if !leaf {
                let first = (found, MutationLockMode::Read);
                lemma_merged_one(locks, first);
                lemma_merged_all_concat(locks, seq![first], r.name_wants(root, index + 1));
                lemma_name_wants(merged(locks, first.0, first.1), root, r, index + 1);
            } else if metadata.spec_is_dir() {
                lemma_merged_one(locks, (found, r.mode));
            }
        },
        None => {
            if !leaf {
                let rest = r.rest_wants(index + 1, r.names.len() as int);
                let slot = (
                    LockName::Slot(r.parent(root, index), r.names[index]),
                    MutationLockMode::Write,
                );
                let path = (LockName::Path(prefix_of(r.names, index)), MutationLockMode::Write);
                if r.mode == MutationLockMode::Write {
                    lemma_merged_two(locks, slot, path);
                    lemma_merged_all_concat(locks, seq![slot, path], rest);
                    lemma_rest_wants(
                        merged_all(locks, seq![slot, path]),
                        r,
                        index + 1,
                        r.names.len() as int,
                    );
                } else {
                    assert(Seq::<Want>::empty() + rest =~= rest);
                    lemma_rest_wants(locks, r, index + 1, r.names.len() as int);
                }
            }
        },
    }
}

/// The locks after the last lookup of an intent are those that the list with it calls for.
proof fn lemma_resolved_wants(
    before: LockResolver,
    after: LockResolver,
    done: Resolution,
    locks: Map<LockName, MutationLockMode>,
)
    requires
        before.wf(),
        before.locks.view() == locks,
        before.current matches Some(progress) && {
            &&& done.names == names_view(progress.names@)
            &&& done.mode == progress.mode
            &&& done.found.len() == progress.index + 1
            &&& done.found.drop_last() == progress.found@
            &&& done.complete()
            &&& after.locks.view() == with_lookup(locks, before.root, done, progress.index as int)
        },
        after.root == before.root,
        after.current is None,
        after.resolved@ == before.resolved@.push(done),
    ensures
        after.locks.view() == merged_all(Map::empty(), after.wanted()),
        forall|i: int| 0 <= i < after.resolved@.len() ==> (#[trigger] after.resolved@[i]).complete(),
{
    let progress = before.current->Some_0;
    let index = progress.index;
    let root = before.root;
    let list = before.resolved@;
    assert forall|k: int| 0 <= k < progress.found@.len() implies #[trigger] done.found[k]
        == progress.found@[k] by {
        assert(done.found.drop_last()[k] == done.found[k]);
    }
    lemma_wants_of_more(root, progress.resolution(), done, index as nat);
    assert(list.push(done).drop_last() =~= list);
    let more = done.lookup_wants(root, index as int);
    assert(after.wanted() =~= before.wanted() + more);
    lemma_merged_all_concat(Map::empty(), before.wanted(), more);
    lemma_lookup_wants(locks, root, done, index as int);
}

pub proof fn lemma_next_prefix(names: Seq<Seq<u8>>, index: int)
    requires
        0 < index < names.len(),
    ensures
        prefix_of(names, index) == prefix_of(names, index - 1).push(SLASH) + names[index],
{
    assert(names.take(index + 1).drop_last() =~= names.take(index));
}

/// The names of a path that has nothing but names.
pub fn path_names(path: &[u8]) -> (names: Vec<Vec<u8>>)
    ensures
        names_view(names@) == names_of(parts(path@)),
{
    let found = components(path);
    let ghost all = parts(path@);
    let mut names: Vec<Vec<u8>> = Vec::new();
    let mut i: usize = 0;
    assert(names_view(names@) =~= names_of(all).take(0));
    while i < found.len()
        invariant
            i <= found@.len(),
            component_views(found@) == all,
            names_view(names@) == names_of(all).take(i as int),
        decreases found.len() - i,
    {
        let ghost before = names_view(names@);
        let name: Vec<u8> = match &found[i] {
            Component::Normal { name } => copy_bytes(name.as_slice()),
            _ => Vec::new(),
        };
        proof {
            assert(all[i as int] == found@[i as int].view());
            assert(name@ =~= names_of(all)[i as int]);
        }
        names.push(name);
        assert(names_view(names@) =~= before.push(name@));
        assert(names_of(all).take(i + 1) =~= names_of(all).take(i as int).push(
            names_of(all)[i as int],
        ));
        i = i + 1;
    }
    assert(names_of(all).take(found@.len() as int) =~= names_of(all));
    names
}

/// Two requests on one path meet: both hold the lock of the whole path, and a writer holds it
/// exclusively.
pub proof fn law_requests_on_one_path_meet(
    one: Map<LockName, MutationLockMode>,
    other: Map<LockName, MutationLockMode>,
    root: (u64, u64),
    names: Seq<Seq<u8>>,
    mode: MutationLockMode,
)
    requires
        names.len() > 0,
        covered(one, root, names, MutationLockMode::Write, names.len() as int),
        covered(other, root, names, mode, names.len() as int),
    ensures
        ({
            let shared = LockName::Path(prefix_of(names, names.len() - 1));
            &&& one.dom().contains(shared)
            &&& one[shared] == MutationLockMode::Write
            &&& other.dom().contains(shared)
        }),
{
    let last = names.len() - 1;
    assert(one.dom().contains(LockName::Path(prefix_of(names, last))));
    assert(other.dom().contains(LockName::Path(prefix_of(names, last))));
}

/// A writer that may have to create an ancestor holds the last place that exists, and the path
/// up to it, exclusively.
pub proof fn law_missing_ancestors_are_held_exclusively(
    locks: Map<LockName, MutationLockMode>,
    names: Seq<Seq<u8>>,
    index: int,
    parent: (u64, u64),
)
    requires
        0 <= index < names.len(),
    ensures
        ({
            let after = with_missing(locks, names, MutationLockMode::Write, index, parent);
            let slot = LockName::Slot(parent, names[index]);
            let path = LockName::Path(prefix_of(names, index));
            &&& after.dom().contains(slot) && after[slot] == MutationLockMode::Write
            &&& after.dom().contains(path) && after[path] == MutationLockMode::Write
        }),
{
    let slot = LockName::Slot(parent, names[index]);
    let path = LockName::Path(prefix_of(names, index));
    let first = merged(locks, slot, MutationLockMode::Write);
    let held = merged(first, path, MutationLockMode::Write);
    lemma_merge_grows(locks, slot, MutationLockMode::Write);
    lemma_merge_grows(first, path, MutationLockMode::Write);
    lemma_rest_grows(held, names, MutationLockMode::Write, index + 1, names.len() as int);
    assert(held.dom().contains(slot) && held.dom().contains(path));
}

proof fn lemma_rest_grows(
    locks: Map<LockName, MutationLockMode>,
    names: Seq<Seq<u8>>,
    mode: MutationLockMode,
    from: int,
    to: int,
)
    ensures
        grown(locks, with_rest(locks, names, mode, from, to)),
    decreases to - from,
{
    if to > from {
        lemma_rest_grows(locks, names, mode, from, to - 1);
        let before = with_rest(locks, names, mode, from, to - 1);
        lemma_merge_grows(
            before,
            LockName::Path(prefix_of(names, to - 1)),
            mode_at(names.len(), mode, to - 1),
        );
        lemma_grown_transitive(locks, before, with_rest(locks, names, mode, from, to));
    }
}

/// Whether a lock is among those called for.
pub open spec fn called_for(wants: Seq<Want>, name: LockName) -> bool {
    wants.contains((name, MutationLockMode::Read)) || wants.contains(
        (name, MutationLockMode::Write),
    )
}

/// The locks that are called for are held, and exclusively where one of the calls asks for it.
proof fn lemma_merged_all_holds(wants: Seq<Want>, name: LockName)
    ensures
        ({
            let locks = merged_all(Map::empty(), wants);
            &&& locks.dom().contains(name) <==> called_for(wants, name)
            &&& locks.dom().contains(name) ==> (locks[name] == MutationLockMode::Write
                <==> wants.contains((name, MutationLockMode::Write)))
        }),
    decreases wants.len(),
{
    if wants.len() > 0 {
        let before = wants.drop_last();
        lemma_merged_all_holds(before, name);
        assert forall|want: Want| wants.contains(want) <==> before.contains(want) || want
            == wants.last() by {
            if wants.contains(want) {
                let k = choose|k: int| 0 <= k < wants.len() && wants[k] == want;
                if k < before.len() {
                    assert(before[k] == want);
                }
            }
            if before.contains(want) {
                let k = choose|k: int| 0 <= k < before.len() && before[k] == want;
                assert(wants[k] == want);
            }
            if want == wants.last() {
                assert(wants[wants.len() - 1] == want);
            }
        }
        assert(wants.contains(wants.last()));
        match wants.last().1 {
            MutationLockMode::Read => {
                assert(wants.last() == (wants.last().0, MutationLockMode::Read));
            },
            MutationLockMode::Write => {
                assert(wants.last() == (wants.last().0, MutationLockMode::Write));
            },
        }
    }
}

/// A list calls for what one of its intents calls for.
proof fn lemma_list_wants(root: (u64, u64), list: Seq<Resolution>, want: Want)
    ensures
        list_wants(root, list).contains(want) <==> exists|i: int|
            0 <= i < list.len() && (#[trigger] list[i]).wants(root, list[i].found.len()).contains(
                want,
            ),
    decreases list.len(),
{
    if list.len() > 0 {
        let before = list.drop_last();
        let last = list.last().wants(root, list.last().found.len());
        let all = list_wants(root, list);
        lemma_list_wants(root, before, want);
        if all.contains(want) {
            let k = choose|k: int| 0 <= k < all.len() && all[k] == want;
            let n = list_wants(root, before).len();
            if k < n {
                assert(list_wants(root, before)[k] == want);
                let i = choose|i: int|
                    0 <= i < before.len() && (#[trigger] before[i]).wants(
                        root,
                        before[i].found.len(),
                    ).contains(want);
                assert(list[i] == before[i]);
            } else {
                assert(last[k - n] == want);
                assert(list[list.len() - 1].wants(root, list.last().found.len()).contains(want));
            }
        }
        if exists|i: int|
            0 <= i < list.len() && (#[trigger] list[i]).wants(root, list[i].found.len()).contains(
                want,
            ) {
            let i = choose|i: int|
                0 <= i < list.len() && (#[trigger] list[i]).wants(
                    root,
                    list[i].found.len(),
                ).contains(want);
            if i < before.len() {
                assert(before[i] == list[i]);
                assert(list_wants(root, before).contains(want));
                let k = choose|k: int|
                    0 <= k < list_wants(root, before).len() && list_wants(root, before)[k] == want;
                assert(all[k] == want);
            } else {
                let k = choose|k: int| 0 <= k < last.len() && last[k] == want;
                assert(all[list_wants(root, before).len() + k] == want);
            }
        }
    }
}

/// What an intent calls for early, it calls for in the end.
proof fn lemma_wants_grow(root: (u64, u64), r: Resolution, early: nat, late: nat, want: Want)
    requires
        early <= late,
        r.wants(root, early).contains(want),
    ensures
        r.wants(root, late).contains(want),
    decreases late,
{
    if early < late {
        lemma_wants_grow(root, r, early, (late - 1) as nat, want);
        let before = r.wants(root, (late - 1) as nat);
        let k = choose|k: int| 0 <= k < before.len() && before[k] == want;
        assert(r.wants(root, late)[k] == want);
    }
}

proof fn lemma_rest_wants_hold(r: Resolution, from: int, to: int, i: int)
    requires
        from <= i < to,
    ensures
        r.rest_wants(from, to).contains(
            (LockName::Path(prefix_of(r.names, i)), mode_at(r.names.len(), r.mode, i)),
        ),
    decreases to - from,
{
    let want = (LockName::Path(prefix_of(r.names, i)), mode_at(r.names.len(), r.mode, i));
    let all = r.rest_wants(from, to);
    if i == to - 1 {
        assert(all[all.len() - 1] == want);
    } else {
        lemma_rest_wants_hold(r, from, to - 1, i);
        let before = r.rest_wants(from, to - 1);
        let k = choose|k: int| 0 <= k < before.len() && before[k] == want;
        assert(all[k] == want);
    }
}

/// A complete resolution calls for the path up to each of its names.
proof fn lemma_every_name_is_wanted(root: (u64, u64), r: Resolution, i: int)
    requires
        r.complete(),
        0 <= i < r.names.len(),
    ensures
        r.wants(root, r.found.len()).contains(
            (LockName::Path(prefix_of(r.names, i)), mode_at(r.names.len(), r.mode, i)),
        ),
{
    let want = (LockName::Path(prefix_of(r.names, i)), mode_at(r.names.len(), r.mode, i));
    let count = r.found.len();
    if i == 0 {
        assert(r.first_wants(root)[1] == want);
        assert(r.wants(root, 0).contains(want));
        lemma_wants_grow(root, r, 0, count, want);
    } else if i <= count && r.found[i - 1] is Some {
        let before = r.wants(root, (i - 1) as nat);
        let more = r.lookup_wants(root, i - 1);
        assert(more[1] == want);
        assert(r.wants(root, i as nat)[before.len() as int + 1] == want);
        assert(r.wants(root, i as nat).contains(want));
        lemma_wants_grow(root, r, i as nat, count, want);
    } else {
        let k = count - 1;
        assert(count < r.names.len()) by {
            if count == r.names.len() {
                assert(r.found[i - 1] is Some);
            }
        }
        assert(r.found[k] is None);
        assert(i > k) by {
            if i <= k {
                assert(r.found[i - 1] is Some);
            }
        }
        let rest = r.rest_wants(k + 1, r.names.len() as int);
        lemma_rest_wants_hold(r, k + 1, r.names.len() as int, i);
        let at = choose|at: int| 0 <= at < rest.len() && rest[at] == want;
        let missing = r.missing_wants(root, k);
        let before = r.wants(root, k as nat);
        let held = missing.len() - rest.len();
        assert(missing[held + at] == want);
        assert(r.wants(root, count)[before.len() + held + at] == want);
    }
}

/// The locks of a whole list of intents cover every one of them: the root is locked, and so is the
/// path up to each name, the whole path at least in the mode of the intent.
pub proof fn law_locks_of_a_list_cover_every_intent(
    root: (u64, u64),
    list: Seq<Resolution>,
    at: int,
)
    requires
        0 <= at < list.len(),
        list[at].complete(),
    ensures
        covered(
            locks_of(root, list),
            root,
            list[at].names,
            list[at].mode,
            list[at].names.len() as int,
        ),
        list[at].names.len() == 0 ==> locks_of(root, list)[LockName::Directory(root)].at_least(
            list[at].mode,
        ),
{
    let r = list[at];
    let wants = list_wants(root, list);
    let first = r.first_wants(root)[0];
    assert(r.wants(root, 0).contains(first));
    lemma_wants_grow(root, r, 0, r.found.len(), first);
    assert(list[at].wants(root, list[at].found.len()).contains(first));
    lemma_list_wants(root, list, first);
    lemma_want_is_held(wants, first);
    assert forall|i: int| 0 <= i < r.names.len() implies {
        &&& locks_of(root, list).dom().contains(LockName::Path(#[trigger] prefix_of(r.names, i)))
        &&& locks_of(root, list)[LockName::Path(prefix_of(r.names, i))].at_least(
            mode_at(r.names.len(), r.mode, i),
        )
    } by {
        let want = (LockName::Path(prefix_of(r.names, i)), mode_at(r.names.len(), r.mode, i));
        lemma_every_name_is_wanted(root, r, i);
        assert(list[at].wants(root, list[at].found.len()).contains(want));
        lemma_list_wants(root, list, want);
        lemma_want_is_held(wants, want);
    }
}

proof fn lemma_want_is_held(wants: Seq<Want>, want: Want)
    requires
        wants.contains(want),
    ensures
        merged_all(Map::empty(), wants).dom().contains(want.0),
        merged_all(Map::empty(), wants)[want.0].at_least(want.1),
{
    lemma_merged_all_holds(wants, want.0);
    match want.1 {
        MutationLockMode::Read => {
            assert(want == (want.0, MutationLockMode::Read));
        },
        MutationLockMode::Write => {
            assert(want == (want.0, MutationLockMode::Write));
        },
    }
}

/// Where nothing is meant, nothing is locked.
pub proof fn law_no_intents_no_locks(root: (u64, u64))
    ensures
        locks_of(root, Seq::empty()) == Map::<LockName, MutationLockMode>::empty(),
{
}

/// Whether an intent stands in a list.
pub open spec fn meant_in(list: Seq<Resolution>, names: Seq<Seq<u8>>, mode: MutationLockMode) -> bool {
    exists|i: int| 0 <= i < list.len() && (#[trigger] list[i]).names == names && list[i].mode == mode
}

/// The intents of a list are resolved by one filesystem.
pub open spec fn resolved_in(
    list: Seq<Resolution>,
    world: spec_fn(Seq<u8>, bool) -> Option<Metadata>,
) -> bool {
    forall|i: int|
        0 <= i < list.len() ==> (#[trigger] list[i]).complete() && list[i].told_by(world)
}

/// One intent is resolved in one way by one filesystem.
proof fn lemma_told_alike(
    world: spec_fn(Seq<u8>, bool) -> Option<Metadata>,
    a: Resolution,
    b: Resolution,
)
    requires
        a.complete(),
        b.complete(),
        a.told_by(world),
        b.told_by(world),
        a.names == b.names,
        a.mode == b.mode,
    ensures
        a == b,
{
    if a.found.len() < b.found.len() {
        let k = a.found.len() - 1;
        assert(a.found[k] is None);
        assert(b.found[k] is Some);
        assert(false);
    }
    if b.found.len() < a.found.len() {
        let k = b.found.len() - 1;
        assert(b.found[k] is None);
        assert(a.found[k] is Some);
        assert(false);
    }
    assert(a.found =~= b.found);
}

proof fn lemma_meant_alike(
    root: (u64, u64),
    world: spec_fn(Seq<u8>, bool) -> Option<Metadata>,
    a: Seq<Resolution>,
    b: Seq<Resolution>,
    want: Want,
)
    requires
        resolved_in(a, world),
        resolved_in(b, world),
        forall|names: Seq<Seq<u8>>, mode: MutationLockMode| #[trigger]
            meant_in(a, names, mode) ==> meant_in(b, names, mode),
        list_wants(root, a).contains(want),
    ensures
        list_wants(root, b).contains(want),
{
    lemma_list_wants(root, a, want);
    lemma_list_wants(root, b, want);
    let i = choose|i: int|
        0 <= i < a.len() && (#[trigger] a[i]).wants(root, a[i].found.len()).contains(want);
    assert(meant_in(a, a[i].names, a[i].mode));
    assert(meant_in(b, a[i].names, a[i].mode));
    let j = choose|j: int|
        0 <= j < b.len() && (#[trigger] b[j]).names == a[i].names && b[j].mode == a[i].mode;
    lemma_told_alike(world, a[i], b[j]);
    assert(b[j].wants(root, b[j].found.len()).contains(want));
}

/// While the filesystem stays as it is, the locks of a list depend on the intents in it alone:
/// neither their order nor a repetition matters.
pub proof fn law_the_order_of_intents_does_not_matter(
    root: (u64, u64),
    world: spec_fn(Seq<u8>, bool) -> Option<Metadata>,
    a: Seq<Resolution>,
    b: Seq<Resolution>,
)
    requires
        resolved_in(a, world),
        resolved_in(b, world),
        forall|names: Seq<Seq<u8>>, mode: MutationLockMode| #[trigger]
            meant_in(a, names, mode) <==> #[trigger] meant_in(b, names, mode),
    ensures
        locks_of(root, a) == locks_of(root, b),
{
    let x = list_wants(root, a);
    let y = list_wants(root, b);
    assert forall|want: Want| #[trigger] x.contains(want) <==> y.contains(want) by {
        if x.contains(want) {
            lemma_meant_alike(root, world, a, b, want);
        }
        if y.contains(want) {
            lemma_meant_alike(root, world, b, a, want);
        }
    }
    assert forall|name: LockName|
        #![trigger locks_of(root, a).dom().contains(name)]
        #![trigger locks_of(root, b).dom().contains(name)]
        {
            &&& locks_of(root, a).dom().contains(name) <==> locks_of(root, b).dom().contains(name)
            &&& locks_of(root, a).dom().contains(name) ==> locks_of(root, a)[name] == locks_of(
                root,
                b,
            )[name]
        } by {
        lemma_merged_all_holds(x, name);
        lemma_merged_all_holds(y, name);
        assert(x.contains((name, MutationLockMode::Read)) <==> y.contains(
            (name, MutationLockMode::Read),
        ));
        assert(x.contains((name, MutationLockMode::Write)) <==> y.contains(
            (name, MutationLockMode::Write),
        ));
    }
    assert(locks_of(root, a) =~= locks_of(root, b));
}

proof fn lemma_first_requests_agree(a: Seq<MutationLockRequest>, b: Seq<MutationLockRequest>)
    requires
        ordered(a),
        ordered(b),
        lock_modes(a) == lock_modes(b),
        a.len() > 0,
    ensures
        b.len() > 0,
        a[0].key@ == b[0].key@,
        a[0].mode == b[0].mode,
{
    lemma_mode_at(a, 0);
    assert(requested(b, a[0].key@)) by {
        assert(lock_modes(b).dom().contains(a[0].key@));
    }
    let k = choose|k: int| 0 <= k < b.len() && (#[trigger] b[k]).key@ == a[0].key@;
    lemma_mode_at(b, 0);
    assert(requested(a, b[0].key@)) by {
        assert(lock_modes(a).dom().contains(b[0].key@));
    }
    let j = choose|j: int| 0 <= j < a.len() && (#[trigger] a[j]).key@ == b[0].key@;
    let x = lock_code(a[0].key@);
    let y = lock_code(b[0].key@);
    lemma_precedes_irreflexive(x);
    lemma_precedes_irreflexive(y);
    if k > 0 {
        assert(precedes(y, lock_code(b[k].key@)));
        if j > 0 {
            assert(precedes(x, lock_code(a[j].key@)));
            lemma_precedes_transitive(x, y, x);
        }
    }
    lemma_mode_at(b, k);
}

proof fn lemma_rest_of_requests(requests: Seq<MutationLockRequest>)
    requires
        ordered(requests),
        requests.len() > 0,
    ensures
        ordered(requests.drop_first()),
        lock_modes(requests.drop_first()) == lock_modes(requests).remove(requests[0].key@),
{
    let rest = requests.drop_first();
    let left = lock_modes(requests).remove(requests[0].key@);
    assert forall|i: int, j: int| 0 <= i < j < rest.len() implies precedes(
        lock_code((#[trigger] rest[i]).key@),
        lock_code((#[trigger] rest[j]).key@),
    ) by {
        assert(rest[i] == requests[i + 1]);
        assert(rest[j] == requests[j + 1]);
    }
    assert forall|name: LockName|
        #![trigger left.dom().contains(name)]
        #![trigger lock_modes(rest).dom().contains(name)]
        lock_modes(rest).dom().contains(name) == left.dom().contains(name) && (left.dom().contains(
            name,
        ) ==> lock_modes(rest)[name] == left[name]) by {
        if requested(rest, name) {
            let i = choose|i: int| 0 <= i < rest.len() && (#[trigger] rest[i]).key@ == name;
            assert(requests[i + 1] == rest[i]);
            lemma_mode_at(rest, i);
            lemma_mode_at(requests, i + 1);
            lemma_precedes_irreflexive(lock_code(name));
            assert(precedes(lock_code(requests[0].key@), lock_code(requests[i + 1].key@)));
        } else if left.dom().contains(name) {
            assert(requested(requests, name));
            let i = choose|i: int| 0 <= i < requests.len() && (#[trigger] requests[i]).key@ == name;
            assert(rest[i - 1] == requests[i]);
        }
    }
    assert(lock_modes(rest) =~= left);
}

/// Equal locks are requested alike: the same locks, in the same modes, in the same order.
pub proof fn law_equal_locks_are_requested_alike(
    a: Seq<MutationLockRequest>,
    b: Seq<MutationLockRequest>,
)
    requires
        ordered(a),
        ordered(b),
        lock_modes(a) == lock_modes(b),
    ensures
        a.len() == b.len(),
        forall|i: int|
            0 <= i < a.len() ==> (#[trigger] a[i]).key@ == (#[trigger] b[i]).key@ && a[i].mode
                == b[i].mode,
    decreases a.len(),
{
    if a.len() == 0 {
        if b.len() > 0 {
            lemma_first_requests_agree(b, a);
        }
    } else {
        lemma_first_requests_agree(a, b);
        lemma_rest_of_requests(a);
        lemma_rest_of_requests(b);
        law_equal_locks_are_requested_alike(a.drop_first(), b.drop_first());
        assert forall|i: int| 0 <= i < a.len() implies (#[trigger] a[i]).key@ == (
        #[trigger] b[i]).key@ && a[i].mode == b[i].mode by {
            if i > 0 {
                assert(a.drop_first()[i - 1] == a[i]);
                assert(b.drop_first()[i - 1] == b[i]);
            }
        }
    }
}

/// While the filesystem stays as it is, two lists with the same intents give the same requests in
/// the same order, however the intents are arranged.
pub proof fn law_lock_requests_depend_on_the_intents_alone(
    root: (u64, u64),
    world: spec_fn(Seq<u8>, bool) -> Option<Metadata>,
    a: Seq<Resolution>,
    b: Seq<Resolution>,
    one: Seq<MutationLockRequest>,
    other: Seq<MutationLockRequest>,
)
    requires
        resolved_in(a, world),
        resolved_in(b, world),
        forall|names: Seq<Seq<u8>>, mode: MutationLockMode| #[trigger]
            meant_in(a, names, mode) <==> #[trigger] meant_in(b, names, mode),
        ordered(one),
        ordered(other),
        lock_modes(one) == locks_of(root, a),
        lock_modes(other) == locks_of(root, b),
    ensures
        one.len() == other.len(),
        forall|i: int|
            0 <= i < one.len() ==> (#[trigger] one[i]).key@ == (#[trigger] other[i]).key@
                && one[i].mode == other[i].mode,
{
    law_the_order_of_intents_does_not_matter(root, world, a, b);
    law_equal_locks_are_requested_alike(one, other);
}

/// A merged lock is held, exclusively exactly where it was before or is asked for; the other locks
/// stay as they were.
pub proof fn law_merged_locks_are_held_as_asked(
    locks: Map<LockName, MutationLockMode>,
    name: LockName,
    mode: MutationLockMode,
    other: LockName,
)
    ensures
        merged(locks, name, mode).dom().contains(name),
        merged(locks, name, mode)[name] is Write <==> mode is Write || (locks.dom().contains(name)
            && locks[name] is Write),
        other != name ==> {
            &&& merged(locks, name, mode).dom().contains(other) <==> locks.dom().contains(other)
            &&& locks.dom().contains(other) ==> merged(locks, name, mode)[other] == locks[other]
        },
{
}

/// The paths that are locked on the way are the first name, and each name behind the one before
/// it.
pub proof fn law_prefixes_grow_name_by_name(names: Seq<Seq<u8>>, index: int)
    requires
        0 <= index < names.len(),
    ensures
        index == 0 ==> prefix_of(names, index) == names[0],
        index > 0 ==> prefix_of(names, index) == prefix_of(names, index - 1) + seq![47u8]
            + names[index],
{
    if index == 0 {
        assert(names.take(1) =~= seq![names[0]]);
    } else {
        lemma_next_prefix(names, index);
        assert(prefix_of(names, index - 1).push(47u8) =~= prefix_of(names, index - 1)
            + seq![47u8]);
    }
}

/// A path is started on exactly where it may be served. The root is resolved at once, and any
/// other path is opened name by name, as a directory but for the last name.
pub proof fn law_paths_are_resolved_from_the_root(
    before: LockResolver,
    after: LockResolver,
    intent: MutationIntent,
    step: Result<LockStep, AnyError>,
)
    requires
        LockResolver::has_begun(before, after, intent, step),
    ensures
        step is Ok <==> public_fault(intent.path@, single_view(before.single)) is None,
        step matches Ok(LockStep::Resolved) ==> parts(intent.path@).len() == 0,
        step matches Ok(LockStep::Open { path, directory }) ==> {
            let names = names_of(parts(intent.path@));
            &&& names.len() > 0
            &&& path@ == names[0]
            &&& directory <==> names.len() > 1
            &&& after.current matches Some(progress) && progress.index == 0 && progress.mode
                == intent.mode
        },
        step is Err ==> after == before,
{
    let names = names_of(parts(intent.path@));
    if names.len() > 0 {
        law_prefixes_grow_name_by_name(names, 0);
    }
}

/// A lookup ends the resolution with an error exactly where the path cannot be opened for another
/// reason than that nothing is there, or cannot be read. While names are left and the directory
/// is there, the next one is opened; otherwise the path is resolved.
pub proof fn law_lookups_lead_to_the_next_name(
    before: LockResolver,
    after: LockResolver,
    progress: IntentProgress,
    lookup: Lookup,
    step: Result<LockStep, AnyError>,
)
    requires
        before.wf(),
        before.current == Some(progress),
        LockResolver::has_answered(before, after, lookup, step),
    ensures
        step is Err <==> match lookup {
            Lookup::Found { .. } => false,
            Lookup::Unread { .. } => true,
            Lookup::Unopened { error } => !(error@.nature() == Some(
                crate::fault::FsNature::Failed(crate::fault::FsKind::NotFound),
            ) || error@.nature() is None && error@.admission() is None && error@.class()
                is NotFound),
        },
        step matches Ok(next) ==> {
            &&& next is Open <==> lookup is Found && progress.index + 1 < progress.names@.len()
            &&& next matches LockStep::Open { path, directory } ==> {
                &&& path@ == progress.prefix@ + seq![47u8] + progress.names@[progress.index + 1]@
                &&& directory <==> progress.index + 2 < progress.names@.len()
                &&& after.current matches Some(more) && more.index == progress.index + 1
                    && more.mode == progress.mode
            }
            &&& next is Resolved ==> after.current is None && after.resolved@.len()
                == before.resolved@.len() + 1 && after.resolved@.last().names == names_view(
                progress.names@,
            ) && after.resolved@.last().mode == progress.mode
        },
        step is Err ==> after == before,
{
    let names = names_view(progress.names@);
    assert(names.len() == progress.names@.len());
    if lookup is Found && progress.index + 1 < names.len() {
        law_prefixes_grow_name_by_name(names, progress.index + 1);
        assert(names[progress.index + 1] == progress.names@[progress.index + 1]@);
    }
    if let Lookup::Unopened { error } = lookup {
        let one = typed_fault("opening a mutation-lock endpoint"@, error@);
        let other = typed_fault("opening a mutation-lock path prefix"@, error@);
        crate::filesystem::failure::law_typing_is_idempotent(
            "opening a mutation-lock endpoint"@,
            "opening a mutation-lock endpoint"@,
            error@,
        );
        crate::filesystem::failure::law_typing_is_idempotent(
            "opening a mutation-lock path prefix"@,
            "opening a mutation-lock path prefix"@,
            error@,
        );
    }
}

/// What an intent calls for with a lookup, it calls for in the end.
proof fn lemma_lookup_is_wanted(root: (u64, u64), r: Resolution, index: int, want: Want)
    requires
        0 <= index < r.found.len(),
        r.lookup_wants(root, index).contains(want),
    ensures
        r.wants(root, r.found.len()).contains(want),
{
    let early = (index + 1) as nat;
    let front = r.wants(root, index as nat);
    let more = r.lookup_wants(root, index);
    assert(r.wants(root, early) == front + more);
    let k = choose|k: int| 0 <= k < more.len() && more[k] == want;
    assert((front + more)[front.len() + k] == want);
    lemma_wants_grow(root, r, early, r.found.len(), want);
}

/// A name that was looked for is locked in the directory that it was looked for in, and every
/// directory on the way is locked by its identity: so two requests that reach one object by
/// different paths meet. The last name, and the directory that it may be, are held as the request
/// asks.
pub proof fn law_objects_are_locked_by_identity(
    root: (u64, u64),
    list: Seq<Resolution>,
    at: int,
    index: int,
)
    requires
        0 <= at < list.len(),
        list[at].complete(),
        0 <= index < list[at].found.len(),
    ensures
        ({
            let r = list[at];
            let locks = locks_of(root, list);
            let last = index == r.names.len() - 1;
            let directory = if index == 0 {
                root
            } else {
                (r.found[index - 1]->Some_0.dev, r.found[index - 1]->Some_0.ino)
            };
            let slot = LockName::Slot(directory, r.names[index]);
            &&& locks.dom().contains(slot)
            &&& last && r.mode is Write ==> locks[slot] is Write
            &&& r.found[index] matches Some(found) ==> {
                let object = LockName::Directory((found.dev, found.ino));
                &&& !last || found.mode & 0o170000 == 0o040000 ==> locks.dom().contains(object)
                &&& last && found.mode & 0o170000 == 0o040000 && r.mode is Write ==> locks[object]
                    is Write
            }
        }),
{
    let r = list[at];
    let wants = list_wants(root, list);
    let last = index == r.names.len() - 1;
    let wanted = mode_at(r.names.len(), r.mode, index);
    let slot = (LockName::Slot(r.parent(root, index), r.names[index]), wanted);
    if index == 0 {
        let first = r.first_wants(root);
        assert(first[2] == slot);
        lemma_wants_grow(root, r, 0, r.found.len(), slot);
    } else {
        assert(r.found[index - 1] is Some);
        let more = r.lookup_wants(root, index - 1);
        assert(more[2] == slot);
        lemma_lookup_is_wanted(root, r, index - 1, slot);
    }
    lemma_list_wants(root, list, slot);
    lemma_want_is_held(wants, slot);
    if let Some(found) = r.found[index] {
        if !last {
            let object = (
                LockName::Directory(found.identity()),
                MutationLockMode::Read,
            );
            assert(r.lookup_wants(root, index)[0] == object);
            lemma_lookup_is_wanted(root, r, index, object);
            lemma_list_wants(root, list, object);
            lemma_want_is_held(wants, object);
        } else if found.spec_is_dir() {
            let object = (LockName::Directory(found.identity()), r.mode);
            assert(r.lookup_wants(root, index)[0] == object);
            lemma_lookup_is_wanted(root, r, index, object);
            lemma_list_wants(root, list, object);
            lemma_want_is_held(wants, object);
        }
    }
}

/// What names without a directory call for.
proof fn lemma_rest_wants_are_paths(r: Resolution, from: int, to: int, want: Want)
    requires
        0 <= from,
        to <= r.names.len(),
        r.rest_wants(from, to).contains(want),
    ensures
        exists|i: int|
            0 <= i < r.names.len() && want == (
                LockName::Path(#[trigger] prefix_of(r.names, i)),
                mode_at(r.names.len(), r.mode, i),
            ),
    decreases to - from,
{
    if to > from {
        let less = r.rest_wants(from, to - 1);
        let k = choose|k: int| 0 <= k < r.rest_wants(from, to).len() && r.rest_wants(from, to)[k] == want;
        if k < less.len() {
            assert(less[k] == want);
            lemma_rest_wants_are_paths(r, from, to - 1, want);
        } else {
            assert(want == (
                LockName::Path(prefix_of(r.names, to - 1)),
                mode_at(r.names.len(), r.mode, to - 1),
            ));
        }
    }
}

/// A request to read holds nothing exclusively.
pub proof fn law_readers_hold_nothing_exclusively(root: (u64, u64), r: Resolution, lookups: nat, want: Want)
    requires
        r.mode is Read,
        r.complete(),
        lookups <= r.found.len(),
        r.wants(root, lookups).contains(want),
    ensures
        want.1 is Read,
    decreases lookups,
{
    let all = r.wants(root, lookups);
    let k = choose|k: int| 0 <= k < all.len() && all[k] == want;
    if lookups > 0 {
        let front = r.wants(root, (lookups - 1) as nat);
        let more = r.lookup_wants(root, lookups - 1);
        if k < front.len() {
            assert(front[k] == want);
            law_readers_hold_nothing_exclusively(root, r, (lookups - 1) as nat, want);
        } else {
            assert(more[k - front.len()] == want);
            if r.found[lookups - 1] is None && lookups - 1 != r.names.len() - 1 {
                let rest = r.rest_wants(lookups as int, r.names.len() as int);
                assert(more =~= rest);
                assert(rest.contains(want));
                lemma_rest_wants_are_paths(r, lookups as int, r.names.len() as int, want);
            }
        }
    }
}

/// Once every intent is resolved, the requests hold each intent's whole path, exclusively where it
/// is to be changed, and hold nothing that no intent calls for.
pub proof fn law_requests_hold_every_intent(
    resolver: LockResolver,
    requests: Seq<MutationLockRequest>,
    at: int,
)
    requires
        LockResolver::resolves(resolver, requests),
        resolver.current is None,
        0 <= at < resolver.resolved@.len(),
        resolver.resolved@[at].names.len() > 0,
    ensures
        ({
            let r = resolver.resolved@[at];
            let whole = LockName::Path(prefix_of(r.names, r.names.len() - 1));
            let locks = lock_modes(requests);
            &&& locks.dom().contains(whole)
            &&& r.mode is Write ==> locks[whole] is Write
            &&& locks.dom().contains(LockName::Directory(resolver.root))
        }),
        forall|name: LockName| #[trigger]
            lock_modes(requests).dom().contains(name) ==> called_for(
                list_wants(resolver.root, resolver.resolved@),
                name,
            ),
{
    let r = resolver.resolved@[at];
    let last = r.names.len() - 1;
    let locks = lock_modes(requests);
    assert(covered(locks, resolver.root, r.names, r.mode, r.names.len() as int));
    assert(locks.dom().contains(LockName::Path(prefix_of(r.names, last))));
    assert forall|name: LockName| #[trigger] locks.dom().contains(name) implies called_for(
        list_wants(resolver.root, resolver.resolved@),
        name,
    ) by {
        lemma_merged_all_holds(list_wants(resolver.root, resolver.resolved@), name);
    }
}

} // verus!
