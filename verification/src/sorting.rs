//! Directory listings in order.
use crate::text::same_text;
use vstd::prelude::*;

verus! {

/// What an entry of a listing is.
#[derive(Clone, Copy, Debug, PartialEq, Eq, Structural)]
pub enum PathType {
    Dir,
    SymlinkDir,
    File,
    SymlinkFile,
}

impl PathType {
    pub open spec fn is_directory(self) -> bool {
        self == PathType::Dir || self == PathType::SymlinkDir
    }

    pub fn is_dir(self) -> (dir: bool)
        ensures
            dir == self.is_directory(),
    {
        match self {
            PathType::Dir | PathType::SymlinkDir => true,
            PathType::File | PathType::SymlinkFile => false,
        }
    }

    /// Directories stand in front of everything else.
    pub open spec fn group(self) -> u8 {
        if self.is_directory() {
            0
        } else {
            1
        }
    }

    pub fn sort_group(self) -> (group: u8)
        ensures
            group == self.group(),
    {
        if self.is_dir() {
            0
        } else {
            1
        }
    }

    pub fn of(is_symlink: bool, is_dir: bool) -> (kind: PathType)
        ensures
            kind == path_type(is_symlink, is_dir),
    {
        match (is_symlink, is_dir) {
            (true, true) => PathType::SymlinkDir,
            (false, true) => PathType::Dir,
            (true, false) => PathType::SymlinkFile,
            (false, false) => PathType::File,
        }
    }
}

pub open spec fn path_type(is_symlink: bool, is_dir: bool) -> PathType {
    if is_dir {
        if is_symlink {
            PathType::SymlinkDir
        } else {
            PathType::Dir
        }
    } else {
        if is_symlink {
            PathType::SymlinkFile
        } else {
            PathType::File
        }
    }
}

/// One line of a listing.
#[derive(Debug)]
pub struct PathItem {
    pub path_type: PathType,
    pub name: String,
    pub mtime: u64,
    pub size: u64,
    pub size_known: bool,
}

impl PathItem {
    pub fn copy(&self) -> (item: PathItem)
        ensures
            item == *self,
    {
        PathItem {
            path_type: self.path_type,
            name: self.name.clone(),
            mtime: self.mtime,
            size: self.size,
            size_known: self.size_known,
        }
    }
}

/// What `str::to_lowercase` makes of a text.
pub uninterp spec fn lowercase(text: Seq<char>) -> Seq<char>;

/// `str::to_lowercase`, which maps a text to its lower case by the Unicode rules and without
/// regard to any locale.
#[verifier::external_body]
pub(crate) fn to_lowercase(text: &str) -> (lower: String)
    ensures
        lower@ == lowercase(text@),
{
    text.to_lowercase()
}

/// How `alphanumeric_sort::compare_str` orders two texts: -1 if the first comes before the
/// second, 1 if it comes after it, and 0 otherwise.
pub uninterp spec fn natural_order(a: Seq<char>, b: Seq<char>) -> int;

/// `alphanumeric_sort::compare_str`, which orders texts so that runs of digits count as
/// numbers.
#[verifier::external_body]
fn compare_names(a: &str, b: &str) -> (order: i8)
    ensures
        order == natural_order(a@, b@),
{
    match alphanumeric_sort::compare_str(a, b) {
        std::cmp::Ordering::Less => -1,
        std::cmp::Ordering::Equal => 0,
        std::cmp::Ordering::Greater => 1,
    }
}

/// By what a listing is ordered.
#[derive(Clone, Copy, Debug, PartialEq, Eq, Structural)]
pub enum SortKey {
    Name,
    Mtime,
    Size,
}

/// Whether an item belongs strictly behind another one.
pub open spec fn behind(key: SortKey, a: PathItem, b: PathItem) -> bool {
    if a.path_type.group() != b.path_type.group() {
        a.path_type.group() > b.path_type.group()
    } else {
        match key {
            SortKey::Name => natural_order(lowercase(a.name@), lowercase(b.name@)) > 0,
            SortKey::Mtime => a.mtime > b.mtime,
            SortKey::Size => a.size > b.size,
        }
    }
}

/// Whether the item from place `x` may stand directly in front of the item from place `y`:
/// items that belong neither way keep the order of their places.
pub open spec fn may_precede(items: Seq<PathItem>, key: SortKey, x: int, y: int) -> bool {
    if x < y {
        !behind(key, items[x], items[y])
    } else {
        behind(key, items[y], items[x])
    }
}

/// The places from `lo` to `hi`, each once.
pub open spec fn permutes(order: Seq<usize>, lo: int, hi: int) -> bool {
    &&& order.len() == hi - lo
    &&& order.no_duplicates()
    &&& forall|i: int| 0 <= i < order.len() ==> lo <= #[trigger] order[i] < hi
    &&& forall|p: usize| lo <= p < hi ==> #[trigger] order.contains(p)
}

/// A stable order of the items at these places.
pub open spec fn stable_order(
    items: Seq<PathItem>,
    key: SortKey,
    order: Seq<usize>,
    lo: int,
    hi: int,
) -> bool {
    &&& permutes(order, lo, hi)
    &&& forall|i: int|
        0 <= i < order.len() - 1 ==> may_precede(
            items,
            key,
            #[trigger] order[i] as int,
            order[i + 1] as int,
        )
}

fn is_behind(items: &Vec<PathItem>, lowered: &Vec<String>, key: SortKey, x: usize, y: usize) -> (r:
    bool)
    requires
        x < items@.len(),
        y < items@.len(),
        key == SortKey::Name ==> lowered@.len() == items@.len() && forall|i: int|
            0 <= i < items@.len() ==> (#[trigger] lowered@[i])@ == lowercase(items@[i].name@),
    ensures
        r == behind(key, items@[x as int], items@[y as int]),
{
    let gx: u8 = items[x].path_type.sort_group();
    let gy: u8 = items[y].path_type.sort_group();
    if gx != gy {
        return gx > gy;
    }
    match key {
        SortKey::Name => compare_names(lowered[x].as_str(), lowered[y].as_str()) > 0,
        SortKey::Mtime => items[x].mtime > items[y].mtime,
        SortKey::Size => items[x].size > items[y].size,
    }
}

fn merge(
    items: &Vec<PathItem>,
    lowered: &Vec<String>,
    key: SortKey,
    left: &Vec<usize>,
    right: &Vec<usize>,
    Ghost(lo): Ghost<int>,
    Ghost(mid): Ghost<int>,
    Ghost(hi): Ghost<int>,
) -> (order: Vec<usize>)
    requires
        0 <= lo <= mid <= hi <= items@.len(),
        stable_order(items@, key, left@, lo, mid),
        stable_order(items@, key, right@, mid, hi),
        key == SortKey::Name ==> lowered@.len() == items@.len() && forall|i: int|
            0 <= i < items@.len() ==> (#[trigger] lowered@[i])@ == lowercase(items@[i].name@),
    ensures
        stable_order(items@, key, order@, lo, hi),
{
    let mut order: Vec<usize> = Vec::new();
    let mut i: usize = 0;
    let mut j: usize = 0;
    while i < left.len() || j < right.len()
        invariant
            0 <= lo <= mid <= hi <= items@.len(),
            stable_order(items@, key, left@, lo, mid),
            stable_order(items@, key, right@, mid, hi),
            key == SortKey::Name ==> lowered@.len() == items@.len() && forall|i: int|
                0 <= i < items@.len() ==> (#[trigger] lowered@[i])@ == lowercase(items@[i].name@),
            i <= left@.len(),
            j <= right@.len(),
            order@.len() == i + j,
            order@.no_duplicates(),
            forall|k: int|
                0 <= k < order@.len() ==> left@.take(i as int).contains(#[trigger] order@[k])
                    || right@.take(j as int).contains(order@[k]),
            forall|k: int| 0 <= k < i ==> order@.contains(#[trigger] left@[k]),
            forall|k: int| 0 <= k < j ==> order@.contains(#[trigger] right@[k]),
            forall|k: int|
                0 <= k < order@.len() - 1 ==> may_precede(
                    items@,
                    key,
                    #[trigger] order@[k] as int,
                    order@[k + 1] as int,
                ),
            order@.len() > 0 && i < left@.len() ==> may_precede(
                items@,
                key,
                order@.last() as int,
                left@[i as int] as int,
            ),
            order@.len() > 0 && j < right@.len() ==> may_precede(
                items@,
                key,
                order@.last() as int,
                right@[j as int] as int,
            ),
        decreases left.len() + right.len() - i - j,
    {
        let take_left = if i == left.len() {
            false
        } else if j == right.len() {
            true
        } else {
            assert(left@[i as int] < mid && right@[j as int] >= mid);
            !is_behind(items, lowered, key, left[i], right[j])
        };
        let ghost before = order@;
        if take_left {
            let place: usize = left[i];
            proof {
                assert(!before.contains(place)) by {
                    if before.contains(place) {
                        let k = choose|k: int| 0 <= k < before.len() && before[k] == place;
                        if left@.take(i as int).contains(before[k]) {
                            let m = choose|m: int|
                                0 <= m < i && left@.take(i as int)[m] == before[k];
                            assert(left@[m] == left@[i as int]);
                        } else {
                            let m = choose|m: int|
                                0 <= m < j && right@.take(j as int)[m] == before[k];
                            assert(right@[m] >= mid);
                            assert(left@[i as int] < mid);
                        }
                    }
                }
            }
            order.push(place);
            i = i + 1;
            proof {
                assert(left@.take(i as int).contains(place)) by {
                    assert(left@.take(i as int)[i - 1] == place);
                }
                assert forall|k: int| 0 <= k < order@.len() implies left@.take(i as int).contains(
                    #[trigger] order@[k],
                ) || right@.take(j as int).contains(order@[k]) by {
                    if k < before.len() {
                        assert(order@[k] == before[k]);
                        let prior = left@.take(i - 1);
                        if prior.contains(before[k]) {
                            let m = choose|m: int| 0 <= m < prior.len() && prior[m] == before[k];
                            assert(left@.take(i as int)[m] == before[k]);
                        }
                    }
                }
            }
        } else {
            let place: usize = right[j];
            proof {
                assert(!before.contains(place)) by {
                    if before.contains(place) {
                        let k = choose|k: int| 0 <= k < before.len() && before[k] == place;
                        if right@.take(j as int).contains(before[k]) {
                            let m = choose|m: int|
                                0 <= m < j && right@.take(j as int)[m] == before[k];
                            assert(right@[m] == right@[j as int]);
                        } else {
                            let m = choose|m: int|
                                0 <= m < i && left@.take(i as int)[m] == before[k];
                            assert(left@[m] < mid);
                            assert(right@[j as int] >= mid);
                        }
                    }
                }
            }
            order.push(place);
            j = j + 1;
            proof {
                assert(right@.take(j as int).contains(place)) by {
                    assert(right@.take(j as int)[j - 1] == place);
                }
                assert forall|k: int| 0 <= k < order@.len() implies left@.take(i as int).contains(
                    #[trigger] order@[k],
                ) || right@.take(j as int).contains(order@[k]) by {
                    if k < before.len() {
                        assert(order@[k] == before[k]);
                        let prior = right@.take(j - 1);
                        if prior.contains(before[k]) {
                            let m = choose|m: int| 0 <= m < prior.len() && prior[m] == before[k];
                            assert(right@.take(j as int)[m] == before[k]);
                        }
                    }
                }
            }
        }
        proof {
            assert forall|p: usize| before.contains(p) implies order@.contains(p) by {
                let k = choose|k: int| 0 <= k < before.len() && before[k] == p;
                assert(order@[k] == p);
            }
            assert(order@.contains(order@.last())) by {
                assert(order@[order@.len() - 1] == order@.last());
            }
            assert forall|k: int| 0 <= k < order@.len() - 1 implies may_precede(
                items@,
                key,
                #[trigger] order@[k] as int,
                order@[k + 1] as int,
            ) by {
                if k + 1 < before.len() {
                    assert(order@[k] == before[k] && order@[k + 1] == before[k + 1]);
                } else {
                    assert(order@[k] == before.last());
                }
            }
        }
    }
    proof {
        assert(left@.take(i as int) =~= left@);
        assert(right@.take(j as int) =~= right@);
        assert forall|k: int| 0 <= k < order@.len() implies lo <= #[trigger] order@[k] < hi by {
            if left@.contains(order@[k]) {
                let m = choose|m: int| 0 <= m < left@.len() && left@[m] == order@[k];
                assert(lo <= left@[m] < mid);
            } else {
                let m = choose|m: int| 0 <= m < right@.len() && right@[m] == order@[k];
                assert(mid <= right@[m] < hi);
            }
        }
        assert forall|p: usize| lo <= p < hi implies #[trigger] order@.contains(p) by {
            if p < mid {
                assert(left@.contains(p));
                let m = choose|m: int| 0 <= m < left@.len() && left@[m] == p;
                assert(order@.contains(left@[m]));
            } else {
                assert(right@.contains(p));
                let m = choose|m: int| 0 <= m < right@.len() && right@[m] == p;
                assert(order@.contains(right@[m]));
            }
        }
    }
    order
}

fn ordered_places(
    items: &Vec<PathItem>,
    lowered: &Vec<String>,
    key: SortKey,
    lo: usize,
    hi: usize,
) -> (order: Vec<usize>)
    requires
        lo <= hi <= items@.len(),
        key == SortKey::Name ==> lowered@.len() == items@.len() && forall|i: int|
            0 <= i < items@.len() ==> (#[trigger] lowered@[i])@ == lowercase(items@[i].name@),
    ensures
        stable_order(items@, key, order@, lo as int, hi as int),
    decreases hi - lo,
{
    if hi - lo < 2 {
        let mut order: Vec<usize> = Vec::new();
        if lo < hi {
            order.push(lo);
            assert(order@[0] == lo);
            assert(order@.contains(lo));
        }
        return order;
    }
    let mid: usize = lo + (hi - lo) / 2;
    let left = ordered_places(items, lowered, key, lo, mid);
    let right = ordered_places(items, lowered, key, mid, hi);
    merge(
        items,
        lowered,
        key,
        &left,
        &right,
        Ghost(lo as int),
        Ghost(mid as int),
        Ghost(hi as int),
    )
}

/// The output is the input in a stable order, forwards or backwards.
pub open spec fn arranged(
    input: Seq<PathItem>,
    output: Seq<PathItem>,
    key: SortKey,
    descending: bool,
) -> bool {
    exists|order: Seq<usize>| #[trigger]
        stable_order(input, key, order, 0, input.len() as int) && output.len() == input.len()
            && forall|i: int|
            0 <= i < output.len() ==> #[trigger] output[i] == input[order[if descending {
                output.len() - 1 - i
            } else {
                i
            }] as int]
}

/// Orders a listing: directories first, then by the key, and otherwise as they were.
pub fn sort_paths(paths: &Vec<PathItem>, key: SortKey, descending: bool) -> (sorted: Vec<PathItem>)
    ensures
        arranged(paths@, sorted@, key, descending),
{
    let mut lowered: Vec<String> = Vec::new();
    if key == SortKey::Name {
        let mut i: usize = 0;
        while i < paths.len()
            invariant
                i <= paths@.len(),
                lowered@.len() == i,
                forall|j: int|
                    0 <= j < i ==> (#[trigger] lowered@[j])@ == lowercase(paths@[j].name@),
            decreases paths.len() - i,
        {
            lowered.push(to_lowercase(paths[i].name.as_str()));
            i = i + 1;
        }
    }
    let order = ordered_places(paths, &lowered, key, 0, paths.len());
    let mut sorted: Vec<PathItem> = Vec::new();
    let mut i: usize = 0;
    while i < order.len()
        invariant
            i <= order@.len(),
            stable_order(paths@, key, order@, 0, paths@.len() as int),
            sorted@.len() == i,
            forall|j: int|
                0 <= j < i ==> #[trigger] sorted@[j] == paths@[order@[if descending {
                    order@.len() - 1 - j
                } else {
                    j
                }] as int],
        decreases order.len() - i,
    {
        let at: usize = if descending {
            order.len() - 1 - i
        } else {
            i
        };
        let place: usize = order[at];
        sorted.push(paths[place].copy());
        i = i + 1;
    }
    sorted
}

/// Whether one item stands before another one by group and number, or beside it.
spec fn not_after(key: SortKey, a: PathItem, b: PathItem) -> bool {
    let x = if key == SortKey::Mtime {
        a.mtime
    } else {
        a.size
    };
    let y = if key == SortKey::Mtime {
        b.mtime
    } else {
        b.size
    };
    a.path_type.group() < b.path_type.group() || a.path_type.group() == b.path_type.group() && (key
        == SortKey::Name || x <= y)
}

proof fn lemma_places_ascend(items: Seq<PathItem>, key: SortKey, order: Seq<usize>, i: int, j: int)
    requires
        stable_order(items, key, order, 0, items.len() as int),
        0 <= i < j < order.len(),
    ensures
        not_after(key, items[order[i] as int], items[order[j] as int]),
    decreases j - i,
{
    let before = order[j - 1] as int;
    assert(may_precede(items, key, before, order[j - 1 + 1] as int));
    if i < j - 1 {
        lemma_places_ascend(items, key, order, i, j - 1);
    }
}

/// Directories come first, whatever a listing is ordered by; reversed, they come last.
pub proof fn law_directories_come_first(
    input: Seq<PathItem>,
    output: Seq<PathItem>,
    key: SortKey,
    descending: bool,
    i: int,
    j: int,
)
    requires
        arranged(input, output, key, descending),
        0 <= i < j < output.len(),
    ensures
        !descending ==> output[i].path_type.group() <= output[j].path_type.group(),
        descending ==> output[i].path_type.group() >= output[j].path_type.group(),
{
    let order = choose|order: Seq<usize>| #[trigger]
        stable_order(input, key, order, 0, input.len() as int) && output.len() == input.len()
            && forall|k: int|
            0 <= k < output.len() ==> #[trigger] output[k] == input[order[if descending {
                output.len() - 1 - k
            } else {
                k
            }] as int];
    if descending {
        lemma_places_ascend(input, key, order, output.len() - 1 - j, output.len() - 1 - i);
    } else {
        lemma_places_ascend(input, key, order, i, j);
    }
}

/// A listing by time or size is in order from end to end: no item stands before one that it
/// belongs behind.
pub proof fn law_listings_by_number_are_sorted(
    input: Seq<PathItem>,
    output: Seq<PathItem>,
    key: SortKey,
    i: int,
    j: int,
)
    requires
        key != SortKey::Name,
        arranged(input, output, key, false),
        0 <= i < j < output.len(),
    ensures
        !behind(key, output[i], output[j]),
{
    let order = choose|order: Seq<usize>| #[trigger]
        stable_order(input, key, order, 0, input.len() as int) && output.len() == input.len()
            && forall|k: int|
            0 <= k < output.len() ==> #[trigger] output[k] == input[order[if false {
                output.len() - 1 - k
            } else {
                k
            }] as int];
    lemma_places_ascend(input, key, order, i, j);
}

/// Orders a listing by name.
pub fn sort_paths_by_name(paths: &mut Vec<PathItem>)
    ensures
        arranged(old(paths)@, final(paths)@, SortKey::Name, false),
{
    *paths = sort_paths(paths, SortKey::Name, false);
}

/// What a request's `sort` parameter asks for. A listing is ordered by name where it asks for
/// nothing, and left as it is where it asks for something unknown.
pub open spec fn asked_key(sort: Option<Seq<char>>) -> Option<SortKey> {
    match sort {
        None => Some(SortKey::Name),
        Some(text) => if text == "name"@ {
            Some(SortKey::Name)
        } else if text == "mtime"@ {
            Some(SortKey::Mtime)
        } else if text == "size"@ {
            Some(SortKey::Size)
        } else {
            None
        },
    }
}

pub open spec fn text_of(param: Option<&str>) -> Option<Seq<char>> {
    match param {
        Some(text) => Some(text@),
        None => None,
    }
}

/// Whether a request asks for the reverse order, which counts only beside a `sort` parameter.
pub open spec fn asked_reverse(sort: Option<Seq<char>>, order: Option<Seq<char>>) -> bool {
    sort is Some && order == Some("desc"@)
}

/// A listing as the request asks for it.
pub open spec fn arranged_as_asked(
    paths: Seq<PathItem>,
    shown: Seq<PathItem>,
    sort: Option<Seq<char>>,
    order: Option<Seq<char>>,
) -> bool {
    &&& match asked_key(sort) {
        Some(key) => arranged(
            paths,
            shown,
            key,
            asked_reverse(sort, order),
        ),
        None => shown == if asked_reverse(sort, order) {
            paths.reverse()
        } else {
            paths
        },
    }
}

/// Arranges a listing as the request asks.
pub fn arrange(paths: Vec<PathItem>, sort: Option<&str>, order: Option<&str>) -> (shown: Vec<PathItem>)
    ensures
        arranged_as_asked(paths@, shown@, text_of(sort), text_of(order)),
{
    let mut descending = false;
    let key: Option<SortKey> = match sort {
        None => Some(SortKey::Name),
        Some(text) => {
            match order {
                Some(direction) => {
                    descending = same_text(direction, "desc");
                },
                None => {},
            }
            if same_text(text, "name") {
                Some(SortKey::Name)
            } else if same_text(text, "mtime") {
                Some(SortKey::Mtime)
            } else if same_text(text, "size") {
                Some(SortKey::Size)
            } else {
                None
            }
        },
    };
    match key {
        Some(key) => sort_paths(&paths, key, descending),
        None => if descending {
            reversed(&paths)
        } else {
            paths
        },
    }
}

fn reversed(paths: &Vec<PathItem>) -> (shown: Vec<PathItem>)
    ensures
        shown@ == paths@.reverse(),
{
    let mut shown: Vec<PathItem> = Vec::new();
    let mut i: usize = 0;
    while i < paths.len()
        invariant
            i <= paths@.len(),
            shown@.len() == i,
            forall|j: int|
                0 <= j < i ==> #[trigger] shown@[j] == paths@[paths@.len() - 1 - j],
        decreases paths.len() - i,
    {
        shown.push(paths[paths.len() - 1 - i].copy());
        i = i + 1;
    }
    assert(shown@ =~= paths@.reverse());
    shown
}

/// Arranging a listing loses no item and makes none up: every item of the input is in the output,
/// and every one of the output in the input.
pub proof fn law_arranging_keeps_every_item(
    paths: Seq<PathItem>,
    shown: Seq<PathItem>,
    sort: Option<Seq<char>>,
    order: Option<Seq<char>>,
)
    requires
        arranged_as_asked(paths, shown, sort, order),
        paths.len() <= usize::MAX,
    ensures
        shown.len() == paths.len(),
        forall|item: PathItem| #[trigger] paths.contains(item) <==> shown.contains(item),
{
    let reverse = sort is Some && order == Some("desc"@);
    if asked_key(sort) is Some {
        let key = asked_key(sort)->Some_0;
        let places = choose|places: Seq<usize>| #[trigger]
            stable_order(paths, key, places, 0, paths.len() as int) && shown.len() == paths.len()
                && forall|i: int|
                0 <= i < shown.len() ==> #[trigger] shown[i] == paths[places[if reverse {
                    shown.len() - 1 - i
                } else {
                    i
                }] as int];
        assert forall|item: PathItem| #[trigger] paths.contains(item) <==> shown.contains(item) by {
            if paths.contains(item) {
                let p = choose|p: int| 0 <= p < paths.len() && paths[p] == item;
                assert(places.contains(p as usize));
                let j = choose|j: int| 0 <= j < places.len() && places[j] == p as usize;
                let i = if reverse {
                    shown.len() - 1 - j
                } else {
                    j
                };
                assert(shown[i] == item);
            }
            if shown.contains(item) {
                let i = choose|i: int| 0 <= i < shown.len() && shown[i] == item;
                let j = if reverse {
                    shown.len() - 1 - i
                } else {
                    i
                };
                assert(paths[places[j] as int] == item);
            }
        }
    } else {
        assert forall|item: PathItem| #[trigger] paths.contains(item) <==> shown.contains(item) by {
            if paths.contains(item) {
                let p = choose|p: int| 0 <= p < paths.len() && paths[p] == item;
                assert(paths.reverse()[paths.len() - 1 - p] == item);
                if !reverse {
                    assert(shown[p] == item);
                } else {
                    assert(shown[paths.len() - 1 - p] == item);
                }
            }
            if shown.contains(item) {
                let i = choose|i: int| 0 <= i < shown.len() && shown[i] == item;
                if reverse {
                    assert(paths[paths.len() - 1 - i] == item);
                } else {
                    assert(paths[i] == item);
                }
            }
        }
    }
}

/// Directories stand in front of files, whatever the listing is ordered by. Among directories and
/// among files, names, times and sizes decide, the smaller first.
pub proof fn law_what_belongs_behind(key: SortKey, a: PathItem, b: PathItem)
    ensures
        ({
            let a_dir = a.path_type == PathType::Dir || a.path_type == PathType::SymlinkDir;
            let b_dir = b.path_type == PathType::Dir || b.path_type == PathType::SymlinkDir;
            &&& !a_dir && b_dir ==> behind(key, a, b)
            &&& a_dir && !b_dir ==> !behind(key, a, b)
            &&& a_dir == b_dir ==> (behind(SortKey::Mtime, a, b) <==> a.mtime > b.mtime)
            &&& a_dir == b_dir ==> (behind(SortKey::Size, a, b) <==> a.size > b.size)
            &&& a_dir == b_dir ==> (behind(SortKey::Name, a, b) <==> natural_order(
                lowercase(a.name@),
                lowercase(b.name@),
            ) > 0)
        }),
{
}

/// A listing is ordered by name unless the request names a time or a size; it is turned round
/// exactly where the request names an order and asks for the descending one.
pub proof fn law_orders_that_are_asked_for(
    paths: Seq<PathItem>,
    shown: Seq<PathItem>,
    sort: Option<Seq<char>>,
    order: Option<Seq<char>>,
)
    requires
        arranged_as_asked(paths, shown, sort, order),
    ensures
        sort is None ==> arranged(paths, shown, SortKey::Name, false),
        sort == Some("name"@) ==> arranged(paths, shown, SortKey::Name, order == Some("desc"@)),
        sort == Some("mtime"@) ==> arranged(paths, shown, SortKey::Mtime, order == Some("desc"@)),
        sort == Some("size"@) ==> arranged(paths, shown, SortKey::Size, order == Some("desc"@)),
        sort is Some && sort != Some("name"@) && sort != Some("mtime"@) && sort != Some("size"@)
            && order != Some("desc"@) ==> shown == paths,
{
    reveal_strlit("name");
    reveal_strlit("mtime");
    reveal_strlit("size");
    assert("name"@.len() == 4 && "size"@.len() == 4 && "mtime"@.len() == 5);
    assert("name"@[0] == 'n' && "size"@[0] == 's');
}

/// Two neighbours in an ascending listing stand as they belong, and those that belong neither way
/// as they stood before.
pub proof fn law_neighbours_stand_as_they_belong(
    input: Seq<PathItem>,
    output: Seq<PathItem>,
    key: SortKey,
    i: int,
)
    requires
        arranged(input, output, key, false),
        0 <= i < output.len() - 1,
    ensures
        exists|x: int, y: int|
            0 <= x < input.len() && 0 <= y < input.len() && output[i] == #[trigger] input[x]
                && output[i + 1] == #[trigger] input[y] && x != y && (x < y ==> !behind(
                key,
                input[x],
                input[y],
            )) && (y < x ==> behind(key, input[y], input[x])),
{
    let places = choose|places: Seq<usize>| #[trigger]
        stable_order(input, key, places, 0, input.len() as int) && output.len() == input.len()
            && forall|i: int|
            0 <= i < output.len() ==> #[trigger] output[i] == input[places[if false {
                output.len() - 1 - i
            } else {
                i
            }] as int];
    let x = places[i] as int;
    let y = places[i + 1] as int;
    assert(may_precede(input, key, x, y));
    assert(output[i] == input[x]);
    assert(output[i + 1] == input[y]);
    assert(x != y);
}

/// A link to a directory is listed among the directories.
pub proof fn law_links_to_directories_are_directories(kind: PathType)
    ensures
        kind.is_directory() <==> kind is Dir || kind is SymlinkDir,
{
}

/// An item is shown as what its entry is: a file or a directory, and as a link where it is one.
pub proof fn law_kinds_of_items(is_symlink: bool, is_dir: bool)
    ensures
        path_type(is_symlink, is_dir) is Dir <==> is_dir && !is_symlink,
        path_type(is_symlink, is_dir) is SymlinkDir <==> is_dir && is_symlink,
        path_type(is_symlink, is_dir) is File <==> !is_dir && !is_symlink,
        path_type(is_symlink, is_dir) is SymlinkFile <==> !is_dir && is_symlink,
{
}

} // verus!
